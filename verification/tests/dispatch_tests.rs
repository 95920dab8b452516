use topic_bridge::dispatch::{
    classify_method, classify_operation, Method, Operation, METHOD_NOT_FOUND_CODE,
    OPERATION_FAILED_CODE, PARSE_ERROR_CODE,
};

#[test]
fn every_known_method_is_recognized() {
    assert_eq!(classify_method(&"initialize".to_string()), Method::Initialize);
    assert_eq!(classify_method(&"shutdown".to_string()), Method::Shutdown);
    assert_eq!(classify_method(&"execute".to_string()), Method::Execute);
}

#[test]
fn unknown_methods_are_rejected_without_guessing() {
    assert_eq!(classify_method(&"init".to_string()), Method::Unknown);
    assert_eq!(classify_method(&"Execute".to_string()), Method::Unknown);
    assert_eq!(classify_method(&String::new()), Method::Unknown);
}

#[test]
fn every_known_operation_is_recognized() {
    assert_eq!(classify_operation(&"session_info".to_string()), Operation::SessionInfo);
    assert_eq!(
        classify_operation(&"start_discovery".to_string()),
        Operation::StartDiscovery
    );
    assert_eq!(classify_operation(&"stop_discovery".to_string()), Operation::StopDiscovery);
    assert_eq!(classify_operation(&"get_topics".to_string()), Operation::GetTopics);
    assert_eq!(classify_operation(&"subscribe".to_string()), Operation::Subscribe);
    assert_eq!(classify_operation(&"unsubscribe".to_string()), Operation::Unsubscribe);
    assert_eq!(classify_operation(&"poll".to_string()), Operation::Poll);
    assert_eq!(
        classify_operation(&"list_subscriptions".to_string()),
        Operation::ListSubscriptions
    );
}

#[test]
fn unknown_operations_are_rejected() {
    assert_eq!(classify_operation(&"restart".to_string()), Operation::Unknown);
    assert_eq!(classify_operation(&"POLL".to_string()), Operation::Unknown);
    assert_eq!(classify_operation(&String::new()), Operation::Unknown);
}

#[test]
fn error_codes_match_the_line_protocol() {
    assert_eq!(PARSE_ERROR_CODE, -32700);
    assert_eq!(METHOD_NOT_FOUND_CODE, -32601);
    assert_eq!(OPERATION_FAILED_CODE, -32000);
}
