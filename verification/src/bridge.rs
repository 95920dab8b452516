//! The process-wide bridge state and its operations: discovery lifecycle,
//! topic queries, and subscription lifecycle. The caller guards a single
//! `AppState` and performs the task cancellations these operations call for.

use vstd::prelude::*;

use crate::clock::now_millis;
use crate::registry::{is_expired, is_prefix_of, snapshot_of, TopicMeta, TopicRegistry,
    TopicSnapshot};
use crate::registry::{max64, sat_add64, spec_avg_payload_size, spec_rate_centi_hz};
use crate::sample::BufferedSample;
use crate::store::{fresh_entry, PollOutcome, SubscriptionInfo, SubscriptionStore};

verus! {

/// Buffer capacity of a subscription that asks for none.
pub const DEFAULT_BUFFER_CAPACITY: usize = 100;

/// How many samples a poll drains when no limit is given.
pub const DEFAULT_POLL_LIMIT: usize = 10;

/// A topic silent for this long is removed by the sweep.
pub const TOPIC_EXPIRY_MS: u64 = 30_000;

/// How often the sweeper runs.
pub const SWEEP_INTERVAL_MS: u64 = 5_000;

/// The ring-buffer capacity a subscribe request receives: the default when
/// none was asked for, at least one otherwise, so that the buffer invariant
/// can hold.
pub open spec fn effective_capacity(requested: Option<usize>) -> usize {
    match requested {
        Option::None => 100,
        Option::Some(c) => if c == 0 {
            1
        } else {
            c
        },
    }
}

/// The drain limit a poll request uses when it names none.
pub open spec fn effective_limit(requested: Option<usize>) -> usize {
    match requested {
        Option::None => 10,
        Option::Some(l) => l,
    }
}

/// What a subscribe operation reports back.
pub struct SubscribeReply {
    pub sub_id: String,
    pub key_expr: String,
    pub buffer_size: usize,
}

/// What a topics query reports back.
pub struct TopicsReply {
    pub discovery_active: bool,
    pub topics: Vec<TopicSnapshot>,
}

/// Relies on uuid's `Uuid::new_v4` and its `Display`: a fresh random
/// identifier in the hyphenated textual form, which is 36 characters.
/// Randomness allows no promise of uniqueness.
#[verifier::external_body]
fn fresh_sub_id() -> (r: String)
    ensures
        r@.len() == 36,
{
    uuid::Uuid::new_v4().to_string()
}

/// The single shared state of the bridge: discovered topics, open
/// subscriptions, and the discovery session's flag and pattern. The
/// cancellation handles of the background tasks live with the caller.
pub struct AppState {
    pub topics: TopicRegistry,
    pub subscriptions: SubscriptionStore,
    pub discovery_active: bool,
    pub discovery_key_expr: String,
}

impl AppState {
    /// Both collections are well formed.
    pub open spec fn wf(self) -> bool {
        &&& self.topics.wf()
        &&& self.subscriptions.wf()
    }

    /// The empty state a process starts from.
    pub fn new() -> (r: AppState)
        ensures
            r.wf(),
            r.topics.topics@.len() == 0,
            r.subscriptions.subs@.len() == 0,
            !r.discovery_active,
            r.discovery_key_expr@ == Seq::<char>::empty(),
    {
        AppState {
            topics: TopicRegistry::new(),
            subscriptions: SubscriptionStore::new(),
            discovery_active: false,
            discovery_key_expr: String::new(),
        }
    }

    /// Begins a discovery session over `key_expr`, superseding any prior one:
    /// the registry is cleared, the new pattern recorded and marked active.
    /// Returns whether a prior session was active — whose listener and
    /// sweeper the caller must cancel before starting the new pair.
    pub fn start_discovery(&mut self, key_expr: String) -> (r: bool)
        requires
            old(self).wf(),
        ensures
            final(self).wf(),
            r == old(self).discovery_active,
            final(self).discovery_active,
            final(self).discovery_key_expr == key_expr,
            final(self).topics.topics@.len() == 0,
            final(self).subscriptions == old(self).subscriptions,
    {
        let was_active = self.discovery_active;
        self.topics.clear();
        self.discovery_active = true;
        self.discovery_key_expr = key_expr;
        was_active
    }

    /// Ends the discovery session: the registry is cleared, the flag and the
    /// recorded pattern reset. Returns whether a session was active — whose
    /// listener and sweeper the caller must cancel.
    pub fn stop_discovery(&mut self) -> (r: bool)
        requires
            old(self).wf(),
        ensures
            final(self).wf(),
            r == old(self).discovery_active,
            !final(self).discovery_active,
            final(self).discovery_key_expr@ == Seq::<char>::empty(),
            final(self).topics.topics@.len() == 0,
            final(self).subscriptions == old(self).subscriptions,
    {
        let was_active = self.discovery_active;
        self.topics.clear();
        self.discovery_active = false;
        self.discovery_key_expr = String::new();
        was_active
    }

    /// Folds one sample observed by the discovery listener into the topic
    /// registry at clock reading `now_ms`, per `TopicRegistry::record`.
    pub fn record_sample_at(
        &mut self,
        key_expr: String,
        encoding: String,
        payload_len: u64,
        now_ms: u64,
    )
        requires
            old(self).wf(),
        ensures
            final(self).wf(),
            final(self).topics.has_topic(key_expr@),
            !old(self).topics.has_topic(key_expr@) ==> {
                &&& final(self).topics.topics@.len() == old(self).topics.topics@.len() + 1
                &&& forall|j: int|
                    0 <= j < old(self).topics.topics@.len() ==> final(self).topics.topics@[j]
                        == old(self).topics.topics@[j]
                &&& final(self).topics.topics@.last().key_expr == key_expr
                &&& final(self).topics.topics@.last().first_seen == now_ms
                &&& final(self).topics.topics@.last().last_seen == now_ms
                &&& final(self).topics.topics@.last().sample_count == 1
                &&& final(self).topics.topics@.last().total_payload_bytes == payload_len
                &&& final(self).topics.topics@.last().last_encoding == encoding
            },
            old(self).topics.has_topic(key_expr@) ==> {
                let i = old(self).topics.topic_idx(key_expr@);
                &&& final(self).topics.topics@.len() == old(self).topics.topics@.len()
                &&& forall|j: int|
                    0 <= j < old(self).topics.topics@.len() && j != i ==> final(self).topics.topics@[j] == old(self).topics.topics@[j]
                &&& final(self).topics.topics@[i].key_expr == old(self).topics.topics@[i].key_expr
                &&& final(self).topics.topics@[i].first_seen == old(self).topics.topics@[i].first_seen
                &&& final(self).topics.topics@[i].last_seen == max64(
                    old(self).topics.topics@[i].last_seen,
                    now_ms,
                )
                &&& final(self).topics.topics@[i].sample_count == sat_add64(
                    old(self).topics.topics@[i].sample_count,
                    1,
                )
                &&& final(self).topics.topics@[i].total_payload_bytes == sat_add64(
                    old(self).topics.topics@[i].total_payload_bytes,
                    payload_len,
                )
                &&& final(self).topics.topics@[i].last_encoding == encoding
            },
            final(self).subscriptions == old(self).subscriptions,
            final(self).discovery_active == old(self).discovery_active,
            final(self).discovery_key_expr == old(self).discovery_key_expr,
    {
        self.topics.record(key_expr, encoding, payload_len, now_ms);
    }

    /// Folds one observed sample into the topic registry at the current
    /// clock reading. Whatever the clock returned, the entry's counters step
    /// as `TopicRegistry::record` says and nothing else changes.
    pub fn record_sample(&mut self, key_expr: String, encoding: String, payload_len: u64)
        requires
            old(self).wf(),
        ensures
            final(self).wf(),
            final(self).topics.has_topic(key_expr@),
            !old(self).topics.has_topic(key_expr@) ==> {
                &&& final(self).topics.topics@.len() == old(self).topics.topics@.len() + 1
                &&& forall|j: int|
                    0 <= j < old(self).topics.topics@.len() ==> final(self).topics.topics@[j]
                        == old(self).topics.topics@[j]
                &&& final(self).topics.topics@.last().key_expr == key_expr
                &&& final(self).topics.topics@.last().sample_count == 1
                &&& final(self).topics.topics@.last().total_payload_bytes == payload_len
                &&& final(self).topics.topics@.last().last_encoding == encoding
            },
            old(self).topics.has_topic(key_expr@) ==> {
                let i = old(self).topics.topic_idx(key_expr@);
                &&& final(self).topics.topics@.len() == old(self).topics.topics@.len()
                &&& forall|j: int|
                    0 <= j < old(self).topics.topics@.len() && j != i ==> final(self).topics.topics@[j] == old(self).topics.topics@[j]
                &&& final(self).topics.topics@[i].key_expr == old(self).topics.topics@[i].key_expr
                &&& final(self).topics.topics@[i].sample_count == sat_add64(
                    old(self).topics.topics@[i].sample_count,
                    1,
                )
                &&& final(self).topics.topics@[i].total_payload_bytes == sat_add64(
                    old(self).topics.topics@[i].total_payload_bytes,
                    payload_len,
                )
                &&& final(self).topics.topics@[i].last_encoding == encoding
            },
            final(self).subscriptions == old(self).subscriptions,
            final(self).discovery_active == old(self).discovery_active,
            final(self).discovery_key_expr == old(self).discovery_key_expr,
    {
        let now_ms = now_millis();
        self.record_sample_at(key_expr, encoding, payload_len, now_ms);
    }

    /// Removes every topic silent for `TOPIC_EXPIRY_MS` at clock reading
    /// `now_ms`, and nothing else.
    pub fn sweep_expired_at(&mut self, now_ms: u64)
        requires
            old(self).wf(),
        ensures
            final(self).wf(),
            final(self).topics.topics@ == old(self).topics.topics@.filter(
                |m: TopicMeta| !is_expired(m, now_ms, TOPIC_EXPIRY_MS),
            ),
            final(self).subscriptions == old(self).subscriptions,
            final(self).discovery_active == old(self).discovery_active,
            final(self).discovery_key_expr == old(self).discovery_key_expr,
    {
        self.topics.expire(now_ms, TOPIC_EXPIRY_MS);
    }

    /// Removes every topic silent for `TOPIC_EXPIRY_MS` at the current clock
    /// reading: the sweeper's periodic step. Whatever the clock returned,
    /// only existing entries survive (per `sweep_expired_at`, exactly those
    /// silent for less than the threshold at that reading, in their order).
    pub fn sweep_expired(&mut self)
        requires
            old(self).wf(),
        ensures
            final(self).wf(),
            final(self).topics.topics@.len() <= old(self).topics.topics@.len(),
            forall|k: int|
                0 <= k < final(self).topics.topics@.len() ==> old(self).topics.topics@.contains(
                    #[trigger] final(self).topics.topics@[k],
                ),
            final(self).subscriptions == old(self).subscriptions,
            final(self).discovery_active == old(self).discovery_active,
            final(self).discovery_key_expr == old(self).discovery_key_expr,
    {
        let now_ms = now_millis();
        self.sweep_expired_at(now_ms);
        proof {
            crate::registry::lemma_filter_keeps_distinct(
                old(self).topics.topics@,
                |m: TopicMeta| !is_expired(m, now_ms, TOPIC_EXPIRY_MS),
            );
            old(self).topics.topics@.lemma_filter_len(
                |m: TopicMeta| !is_expired(m, now_ms, TOPIC_EXPIRY_MS),
            );
        }
    }

    /// Answers a topics query at clock reading `now_ms`: the discovery flag
    /// plus a snapshot of every entry whose name starts with `prefix`, in
    /// registry order, annotated per `snapshot_of`.
    pub fn get_topics_at(&self, prefix: &String, now_ms: u64) -> (r: TopicsReply)
        requires
            self.wf(),
        ensures
            r.discovery_active == self.discovery_active,
            ({
                let selected = self.topics.topics@.filter(
                    |m: TopicMeta| is_prefix_of(prefix@, m.key_expr@),
                );
                &&& r.topics@.len() == selected.len()
                &&& forall|k: int|
                    0 <= k < selected.len() ==> #[trigger] r.topics@[k] == snapshot_of(
                        selected[k],
                        now_ms,
                    )
            }),
    {
        TopicsReply { discovery_active: self.discovery_active, topics: self.topics.list(prefix, now_ms) }
    }

    /// Answers a topics query at the current clock reading. Whatever the
    /// clock returned, the reply lists exactly the entries whose name starts
    /// with `prefix`, in registry order, with their statistics; only the two
    /// silence annotations depend on the reading, and they agree with each
    /// other: a topic is stale exactly from five silent seconds on.
    pub fn get_topics(&self, prefix: &String) -> (r: TopicsReply)
        requires
            self.wf(),
        ensures
            r.discovery_active == self.discovery_active,
            ({
                let selected = self.topics.topics@.filter(
                    |m: TopicMeta| is_prefix_of(prefix@, m.key_expr@),
                );
                &&& r.topics@.len() == selected.len()
                &&& forall|k: int|
                    0 <= k < selected.len() ==> {
                        let snap = #[trigger] r.topics@[k];
                        &&& snap.key_expr == selected[k].key_expr
                        &&& snap.first_seen == selected[k].first_seen
                        &&& snap.last_seen == selected[k].last_seen
                        &&& snap.sample_count == selected[k].sample_count
                        &&& snap.total_payload_bytes == selected[k].total_payload_bytes
                        &&& snap.rate_centi_hz == spec_rate_centi_hz(selected[k])
                        &&& snap.avg_payload_size == spec_avg_payload_size(selected[k])
                        &&& snap.last_encoding == selected[k].last_encoding
                        &&& (snap.stale <==> snap.silent_secs >= 5)
                    }
            }),
    {
        let now_ms = now_millis();
        let r = self.get_topics_at(prefix, now_ms);
        proof {
            let selected = self.topics.topics@.filter(
                |m: TopicMeta| is_prefix_of(prefix@, m.key_expr@),
            );
            assert forall|k: int| 0 <= k < selected.len() implies {
                let snap = #[trigger] r.topics@[k];
                snap.stale <==> snap.silent_secs >= 5
            } by {
                assert(r.topics@[k] == snapshot_of(selected[k], now_ms));
            }
        }
        r
    }

    /// Opens a subscription under the given identifier with the effective
    /// capacity, at clock reading `now_ms`: appended when the identifier is
    /// new, replacing the colliding entry otherwise. The caller starts the
    /// collector bound to a fresh cancellation signal.
    pub fn subscribe_with(
        &mut self,
        sub_id: String,
        key_expr: String,
        buffer_size: Option<usize>,
        now_ms: u64,
    ) -> (r: SubscribeReply)
        requires
            old(self).wf(),
        ensures
            final(self).wf(),
            r.sub_id == sub_id,
            r.key_expr == key_expr,
            r.buffer_size == effective_capacity(buffer_size),
            final(self).subscriptions.has_sub(sub_id@),
            !old(self).subscriptions.has_sub(sub_id@) ==> {
                &&& final(self).subscriptions.subs@.len() == old(self).subscriptions.subs@.len()
                    + 1
                &&& forall|j: int|
                    0 <= j < old(self).subscriptions.subs@.len() ==> final(self).subscriptions.subs@[j] == old(self).subscriptions.subs@[j]
                &&& fresh_entry(
                    final(self).subscriptions.subs@.last(),
                    sub_id,
                    key_expr,
                    effective_capacity(buffer_size),
                    now_ms,
                )
            },
            old(self).subscriptions.has_sub(sub_id@) ==> {
                let i = old(self).subscriptions.sub_idx(sub_id@);
                &&& final(self).subscriptions.subs@.len() == old(self).subscriptions.subs@.len()
                &&& forall|j: int|
                    0 <= j < old(self).subscriptions.subs@.len() && j != i ==> final(self).subscriptions.subs@[j] == old(self).subscriptions.subs@[j]
                &&& fresh_entry(
                    final(self).subscriptions.subs@[i],
                    sub_id,
                    key_expr,
                    effective_capacity(buffer_size),
                    now_ms,
                )
            },
            final(self).topics == old(self).topics,
            final(self).discovery_active == old(self).discovery_active,
            final(self).discovery_key_expr == old(self).discovery_key_expr,
    {
        let capacity = match buffer_size {
            Option::None => DEFAULT_BUFFER_CAPACITY,
            Option::Some(c) => if c == 0 {
                1
            } else {
                c
            },
        };
        let reply = SubscribeReply {
            sub_id: sub_id.clone(),
            key_expr: key_expr.clone(),
            buffer_size: capacity,
        };
        self.subscriptions.open(sub_id, key_expr, capacity, now_ms);
        reply
    }

    /// Opens a subscription under a freshly drawn identifier at the current
    /// clock reading, per `subscribe_with`, and reports the identifier, the
    /// pattern and the effective capacity. Always succeeds; the caller
    /// starts the collector for the returned identifier.
    pub fn subscribe(&mut self, key_expr: String, buffer_size: Option<usize>) -> (r:
        SubscribeReply)
        requires
            old(self).wf(),
        ensures
            final(self).wf(),
            r.key_expr == key_expr,
            r.buffer_size == effective_capacity(buffer_size),
            final(self).subscriptions.has_sub(r.sub_id@),
            ({
                let i = final(self).subscriptions.sub_idx(r.sub_id@);
                fresh_entry(
                    final(self).subscriptions.subs@[i],
                    r.sub_id,
                    key_expr,
                    effective_capacity(buffer_size),
                    final(self).subscriptions.subs@[i].sub.created_at,
                )
            }),
            final(self).topics == old(self).topics,
            final(self).discovery_active == old(self).discovery_active,
            final(self).discovery_key_expr == old(self).discovery_key_expr,
    {
        let sub_id = fresh_sub_id();
        let now_ms = now_millis();
        let r = self.subscribe_with(sub_id, key_expr, buffer_size, now_ms);
        proof {
            if old(self).subscriptions.has_sub(r.sub_id@) {
                crate::store::lemma_sub_idx_is(
                    self.subscriptions,
                    r.sub_id@,
                    old(self).subscriptions.sub_idx(r.sub_id@),
                );
            } else {
                crate::store::lemma_sub_idx_is(
                    self.subscriptions,
                    r.sub_id@,
                    self.subscriptions.subs@.len() - 1,
                );
            }
        }
        r
    }

    /// Closes the subscription under `sub_id` and reports whether it existed;
    /// on true the caller must cancel its collector. False — the not-found
    /// failure — exactly when the identifier is unknown, with nothing
    /// changed.
    pub fn unsubscribe(&mut self, sub_id: &String) -> (r: bool)
        requires
            old(self).wf(),
        ensures
            final(self).wf(),
            r == old(self).subscriptions.has_sub(sub_id@),
            !final(self).subscriptions.has_sub(sub_id@),
            !old(self).subscriptions.has_sub(sub_id@) ==> *final(self) == *old(self),
            old(self).subscriptions.has_sub(sub_id@) ==> final(self).subscriptions.subs@ == old(self).subscriptions.subs@.remove(old(self).subscriptions.sub_idx(sub_id@)),
            final(self).topics == old(self).topics,
            final(self).discovery_active == old(self).discovery_active,
            final(self).discovery_key_expr == old(self).discovery_key_expr,
    {
        self.subscriptions.close(sub_id)
    }

    /// Drains up to the effective limit from the subscription under `sub_id`
    /// per `SubscriptionStore::poll`; `None` — the not-found failure —
    /// exactly when the identifier is unknown, with nothing changed.
    pub fn poll(&mut self, sub_id: &String, limit: Option<usize>) -> (r: Option<PollOutcome>)
        requires
            old(self).wf(),
        ensures
            final(self).wf(),
            r is Some <==> old(self).subscriptions.has_sub(sub_id@),
            !old(self).subscriptions.has_sub(sub_id@) ==> *final(self) == *old(self),
            old(self).subscriptions.has_sub(sub_id@) ==> ({
                let i = old(self).subscriptions.sub_idx(sub_id@);
                let e = old(self).subscriptions.subs@[i];
                let n = if (effective_limit(limit) as int) <= e.sub.buffer@.len() {
                    effective_limit(limit) as int
                } else {
                    e.sub.buffer@.len() as int
                };
                &&& r matches Some(o) && (o.samples@ == e.sub.buffer@.subrange(0, n)
                    && o.overflow_count == e.sub.overflow_count && o.buffered_remaining
                    == e.sub.buffer@.len() - n)
                &&& final(self).subscriptions.subs@.len() == old(self).subscriptions.subs@.len()
                &&& forall|j: int|
                    0 <= j < old(self).subscriptions.subs@.len() && j != i ==> final(self).subscriptions.subs@[j] == old(self).subscriptions.subs@[j]
                &&& final(self).subscriptions.subs@[i].sub.buffer@ == e.sub.buffer@.subrange(
                    n,
                    e.sub.buffer@.len() as int,
                )
                &&& final(self).subscriptions.subs@[i].sub.overflow_count
                    == e.sub.overflow_count
                &&& final(self).subscriptions.subs@[i].sub.total_received
                    == e.sub.total_received
            }),
            final(self).topics == old(self).topics,
            final(self).discovery_active == old(self).discovery_active,
            final(self).discovery_key_expr == old(self).discovery_key_expr,
    {
        let n = match limit {
            Option::None => DEFAULT_POLL_LIMIT,
            Option::Some(l) => l,
        };
        self.subscriptions.poll(sub_id, n)
    }

    /// Hands one captured sample to the subscription under `sub_id`, per
    /// `SubscriptionStore::push_sample`; false tells the collector that the
    /// subscription is gone and it must stop.
    pub fn deliver_sample(&mut self, sub_id: &String, sample: BufferedSample) -> (r: bool)
        requires
            old(self).wf(),
        ensures
            final(self).wf(),
            r == old(self).subscriptions.has_sub(sub_id@),
            !old(self).subscriptions.has_sub(sub_id@) ==> *final(self) == *old(self),
            old(self).subscriptions.has_sub(sub_id@) ==> ({
                let i = old(self).subscriptions.sub_idx(sub_id@);
                let e = old(self).subscriptions.subs@[i];
                &&& final(self).subscriptions.subs@.len() == old(self).subscriptions.subs@.len()
                &&& forall|j: int|
                    0 <= j < old(self).subscriptions.subs@.len() && j != i ==> final(self).subscriptions.subs@[j] == old(self).subscriptions.subs@[j]
                &&& final(self).subscriptions.subs@[i].sub.total_received == sat_add64(
                    e.sub.total_received,
                    1,
                )
                &&& e.sub.buffer@.len() < e.sub.buffer_capacity ==> {
                    &&& final(self).subscriptions.subs@[i].sub.buffer@ == e.sub.buffer@.push(
                        sample,
                    )
                    &&& final(self).subscriptions.subs@[i].sub.overflow_count
                        == e.sub.overflow_count
                }
                &&& e.sub.buffer@.len() >= e.sub.buffer_capacity ==> {
                    &&& final(self).subscriptions.subs@[i].sub.buffer@ == e.sub.buffer@.subrange(
                        1,
                        e.sub.buffer@.len() as int,
                    ).push(sample)
                    &&& final(self).subscriptions.subs@[i].sub.overflow_count == sat_add64(
                        e.sub.overflow_count,
                        1,
                    )
                }
            }),
            final(self).topics == old(self).topics,
            final(self).discovery_active == old(self).discovery_active,
            final(self).discovery_key_expr == old(self).discovery_key_expr,
    {
        self.subscriptions.push_sample(sub_id, sample)
    }

    /// A read-only snapshot of every open subscription, in store order.
    pub fn list_subscriptions(&self) -> (r: Vec<SubscriptionInfo>)
        requires
            self.wf(),
        ensures
            r@.len() == self.subscriptions.subs@.len(),
            forall|k: int|
                0 <= k < self.subscriptions.subs@.len() ==> #[trigger] r@[k]
                    == crate::store::info_of(self.subscriptions.subs@[k]),
    {
        self.subscriptions.list()
    }

    /// Tears the bridge down: every subscription leaves the store (the
    /// caller cancels all collectors and the discovery pair), the registry
    /// is cleared and discovery reset. Returns whether discovery was active.
    pub fn shutdown(&mut self) -> (r: bool)
        requires
            old(self).wf(),
        ensures
            final(self).wf(),
            r == old(self).discovery_active,
            final(self).subscriptions.subs@.len() == 0,
            final(self).topics.topics@.len() == 0,
            !final(self).discovery_active,
            final(self).discovery_key_expr@ == Seq::<char>::empty(),
    {
        let was_active = self.discovery_active;
        self.subscriptions.clear();
        self.topics.clear();
        self.discovery_active = false;
        self.discovery_key_expr = String::new();
        was_active
    }
}

} // verus!
