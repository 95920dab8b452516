//! Pure decisions of the command loop: which handler a request's method
//! selects, which operation an `execute` request names, and the error codes
//! of the line protocol.

use vstd::prelude::*;

verus! {

/// The response code for an input line that could not be parsed.
pub const PARSE_ERROR_CODE: i64 = -32700;

/// The response code for a request whose method is not recognized.
pub const METHOD_NOT_FOUND_CODE: i64 = -32601;

/// The response code for an operation-level failure (a missing required
/// field, an unknown subscription or operation).
pub const OPERATION_FAILED_CODE: i64 = -32000;

/// The handlers a request's method can select.
#[derive(Clone, Copy, Debug, PartialEq, Eq, Structural)]
pub enum Method {
    Initialize,
    Shutdown,
    Execute,
    Unknown,
}

/// The operations an `execute` request can name.
#[derive(Clone, Copy, Debug, PartialEq, Eq, Structural)]
pub enum Operation {
    SessionInfo,
    StartDiscovery,
    StopDiscovery,
    GetTopics,
    Subscribe,
    Unsubscribe,
    Poll,
    ListSubscriptions,
    Unknown,
}

/// Maps a request's method name to its handler; anything unrecognized is
/// answered with a method-not-found error and does not end the loop.
pub fn classify_method(m: &String) -> (r: Method)
    ensures
        (r == Method::Initialize) <==> m@ == "initialize"@,
        (r == Method::Shutdown) <==> m@ == "shutdown"@,
        (r == Method::Execute) <==> m@ == "execute"@,
{
    proof {
        reveal_strlit("initialize");
        reveal_strlit("shutdown");
        reveal_strlit("execute");
        assert("initialize"@.len() == 10);
        assert("shutdown"@.len() == 8);
        assert("execute"@.len() == 7);
    }
    if <String as PartialEq<String>>::eq(m, &("initialize".to_owned())) {
        Method::Initialize
    } else if <String as PartialEq<String>>::eq(m, &("shutdown".to_owned())) {
        Method::Shutdown
    } else if <String as PartialEq<String>>::eq(m, &("execute".to_owned())) {
        Method::Execute
    } else {
        Method::Unknown
    }
}

/// Maps an `execute` request's operation name to the operation; anything
/// unrecognized is an operation-level failure.
pub fn classify_operation(op: &String) -> (r: Operation)
    ensures
        (r == Operation::SessionInfo) <==> op@ == "session_info"@,
        (r == Operation::StartDiscovery) <==> op@ == "start_discovery"@,
        (r == Operation::StopDiscovery) <==> op@ == "stop_discovery"@,
        (r == Operation::GetTopics) <==> op@ == "get_topics"@,
        (r == Operation::Subscribe) <==> op@ == "subscribe"@,
        (r == Operation::Unsubscribe) <==> op@ == "unsubscribe"@,
        (r == Operation::Poll) <==> op@ == "poll"@,
        (r == Operation::ListSubscriptions) <==> op@ == "list_subscriptions"@,
{
    proof {
        reveal_strlit("session_info");
        reveal_strlit("start_discovery");
        reveal_strlit("stop_discovery");
        reveal_strlit("get_topics");
        reveal_strlit("subscribe");
        reveal_strlit("unsubscribe");
        reveal_strlit("poll");
        reveal_strlit("list_subscriptions");
        assert("session_info"@.len() == 12);
        assert("start_discovery"@.len() == 15);
        assert("stop_discovery"@.len() == 14);
        assert("get_topics"@.len() == 10);
        assert("subscribe"@.len() == 9);
        assert("unsubscribe"@.len() == 11);
        assert("poll"@.len() == 4);
        assert("list_subscriptions"@.len() == 18);
    }
    if <String as PartialEq<String>>::eq(op, &("session_info".to_owned())) {
        Operation::SessionInfo
    } else if <String as PartialEq<String>>::eq(op, &("start_discovery".to_owned())) {
        Operation::StartDiscovery
    } else if <String as PartialEq<String>>::eq(op, &("stop_discovery".to_owned())) {
        Operation::StopDiscovery
    } else if <String as PartialEq<String>>::eq(op, &("get_topics".to_owned())) {
        Operation::GetTopics
    } else if <String as PartialEq<String>>::eq(op, &("subscribe".to_owned())) {
        Operation::Subscribe
    } else if <String as PartialEq<String>>::eq(op, &("unsubscribe".to_owned())) {
        Operation::Unsubscribe
    } else if <String as PartialEq<String>>::eq(op, &("poll".to_owned())) {
        Operation::Poll
    } else if <String as PartialEq<String>>::eq(op, &("list_subscriptions".to_owned())) {
        Operation::ListSubscriptions
    } else {
        Operation::Unknown
    }
}

} // verus!
