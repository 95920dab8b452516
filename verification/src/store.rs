//! Active subscriptions: a bounded ring buffer of captured samples per
//! subscription, with overflow accounting, and the store that maps
//! subscription identifiers to them.

use std::collections::VecDeque;
use vstd::prelude::*;

use crate::registry::sat_add64;
use crate::sample::BufferedSample;

verus! {

/// A counter total clipped at what a `u64` can hold.
pub open spec fn clip64(x: int) -> int {
    if x > u64::MAX {
        u64::MAX as int
    } else {
        x
    }
}

/// An open subscription: a ring buffer of fixed capacity plus monotonic
/// accounting counters. The collector task pushes into the buffer; `poll`
/// drains it from the front.
pub struct Subscription {
    pub key_expr: String,
    pub buffer: VecDeque<BufferedSample>,
    pub buffer_capacity: usize,
    pub overflow_count: u64,
    pub total_received: u64,
    pub drained_count: u64,
    pub created_at: u64,
}

impl Subscription {
    /// The buffer never exceeds its capacity, and every received sample is
    /// accounted for: it overflowed, was drained, or is still buffered
    /// (totals clip at `u64::MAX`).
    pub open spec fn wf(self) -> bool {
        &&& self.buffer_capacity >= 1
        &&& self.buffer@.len() <= self.buffer_capacity
        &&& self.total_received == clip64(
            self.overflow_count + self.drained_count + self.buffer@.len(),
        )
    }

    /// A fresh subscription with an empty buffer and zeroed counters.
    pub fn new(key_expr: String, buffer_capacity: usize, now_ms: u64) -> (r: Subscription)
        requires
            buffer_capacity >= 1,
        ensures
            r.wf(),
            r.key_expr == key_expr,
            r.buffer@.len() == 0,
            r.buffer_capacity == buffer_capacity,
            r.overflow_count == 0,
            r.total_received == 0,
            r.drained_count == 0,
            r.created_at == now_ms,
    {
        Subscription {
            key_expr,
            buffer: VecDeque::new(),
            buffer_capacity,
            overflow_count: 0,
            total_received: 0,
            drained_count: 0,
            created_at: now_ms,
        }
    }

    /// Accepts one sample: the total grows by one; a full buffer evicts its
    /// oldest entry and counts the loss in `overflow_count`; the new sample
    /// is appended at the back. Constant buffer bound, no failure.
    pub fn push(&mut self, sample: BufferedSample)
        requires
            old(self).wf(),
        ensures
            final(self).wf(),
            final(self).key_expr == old(self).key_expr,
            final(self).buffer_capacity == old(self).buffer_capacity,
            final(self).created_at == old(self).created_at,
            final(self).drained_count == old(self).drained_count,
            final(self).total_received == sat_add64(old(self).total_received, 1),
            old(self).buffer@.len() < old(self).buffer_capacity ==> {
                &&& final(self).buffer@ == old(self).buffer@.push(sample)
                &&& final(self).overflow_count == old(self).overflow_count
            },
            old(self).buffer@.len() >= old(self).buffer_capacity ==> {
                &&& final(self).buffer@ == old(self).buffer@.subrange(
                    1,
                    old(self).buffer@.len() as int,
                ).push(sample)
                &&& final(self).overflow_count == sat_add64(old(self).overflow_count, 1)
            },
    {
        self.total_received = self.total_received.saturating_add(1);
        if self.buffer.len() >= self.buffer_capacity {
            let _evicted = self.buffer.pop_front();
            self.overflow_count = self.overflow_count.saturating_add(1);
        }
        self.buffer.push_back(sample);
    }

    /// Removes and returns up to `limit` samples from the front, oldest
    /// first, in arrival order; never blocks, and an empty buffer yields an
    /// empty result.
    pub fn drain(&mut self, limit: usize) -> (r: Vec<BufferedSample>)
        requires
            old(self).wf(),
        ensures
            final(self).wf(),
            r@.len() == (if (limit as int) <= old(self).buffer@.len() {
                limit as int
            } else {
                old(self).buffer@.len() as int
            }),
            r@ == old(self).buffer@.subrange(0, r@.len() as int),
            final(self).buffer@ == old(self).buffer@.subrange(
                r@.len() as int,
                old(self).buffer@.len() as int,
            ),
            final(self).key_expr == old(self).key_expr,
            final(self).buffer_capacity == old(self).buffer_capacity,
            final(self).overflow_count == old(self).overflow_count,
            final(self).total_received == old(self).total_received,
            final(self).created_at == old(self).created_at,
            final(self).drained_count == sat_add64(old(self).drained_count, r@.len() as u64),
    {
        let n = if limit <= self.buffer.len() {
            limit
        } else {
            self.buffer.len()
        };
        let mut out: Vec<BufferedSample> = Vec::new();
        let mut k: usize = 0;
        while k < n
            invariant
                k <= n,
                n <= old(self).buffer@.len(),
                out@ == old(self).buffer@.subrange(0, k as int),
                self.buffer@ == old(self).buffer@.subrange(
                    k as int,
                    old(self).buffer@.len() as int,
                ),
                self.key_expr == old(self).key_expr,
                self.buffer_capacity == old(self).buffer_capacity,
                self.overflow_count == old(self).overflow_count,
                self.total_received == old(self).total_received,
                self.drained_count == old(self).drained_count,
                self.created_at == old(self).created_at,
            decreases n - k,
        {
            proof {
                assert(self.buffer@[0] == old(self).buffer@[k as int]);
            }
            let s = self.buffer.pop_front().unwrap();
            out.push(s);
            proof {
                assert(out@ =~= old(self).buffer@.subrange(0, k as int + 1));
                assert(self.buffer@ =~= old(self).buffer@.subrange(
                    k as int + 1,
                    old(self).buffer@.len() as int,
                ));
            }
            k += 1;
        }
        self.drained_count = self.drained_count.saturating_add(n as u64);
        out
    }
}

/// Buffer length after `n` pushes into a subscription of capacity `cap` that
/// started empty, per the ring-buffer admission rule.
pub open spec fn buffered_after(cap: nat, n: nat) -> nat
    decreases n,
{
    if n == 0 {
        0
    } else {
        let p = buffered_after(cap, (n - 1) as nat);
        if p < cap {
            p + 1
        } else {
            p
        }
    }
}

/// Overflow count after `n` pushes into a subscription of capacity `cap`
/// that started empty: one eviction for every push into a full buffer.
pub open spec fn overflow_after(cap: nat, n: nat) -> nat
    decreases n,
{
    if n == 0 {
        0
    } else if buffered_after(cap, (n - 1) as nat) < cap {
        overflow_after(cap, (n - 1) as nat)
    } else {
        overflow_after(cap, (n - 1) as nat) + 1
    }
}

/// Bounded-loss law of the ring buffer: after `n` pushes into capacity
/// `cap >= 1`, the buffer holds `min(n, cap)` samples, exactly `n - cap` have
/// been evicted when `n` exceeds the capacity and none otherwise, and every
/// push is accounted for: buffered plus overflowed equals `n` (which is also
/// the value of `total_received` while the counters are below `u64::MAX`,
/// since `Subscription::push` steps them by a clipped increment).
pub proof fn lemma_overflow_accounting(cap: nat, n: nat)
    requires
        cap >= 1,
    ensures
        buffered_after(cap, n) == if n <= cap {
            n
        } else {
            cap
        },
        overflow_after(cap, n) == if n <= cap {
            0nat
        } else {
            (n - cap) as nat
        },
        buffered_after(cap, n) + overflow_after(cap, n) == n,
    decreases n,
{
    if n > 0 {
        lemma_overflow_accounting(cap, (n - 1) as nat);
    }
}

/// Drains return consecutive, non-overlapping segments: the samples of two
/// successive drains concatenate to a plain prefix of what was buffered, so
/// no sample is returned twice; and what remains after both is the rest of
/// the sequence, so repeated drains of a positive limit reach the empty
/// buffer.
pub proof fn lemma_drain_segments(s: Seq<BufferedSample>, n1: int, n2: int)
    requires
        0 <= n1,
        0 <= n2,
        n1 + n2 <= s.len(),
    ensures
        s.subrange(0, n1) + s.subrange(n1, s.len() as int).subrange(0, n2) == s.subrange(
            0,
            n1 + n2,
        ),
        s.subrange(n1, s.len() as int).subrange(
            n2,
            s.subrange(n1, s.len() as int).len() as int,
        ) == s.subrange(n1 + n2, s.len() as int),
{
    assert(s.subrange(0, n1) + s.subrange(n1, s.len() as int).subrange(0, n2) =~= s.subrange(
        0,
        n1 + n2,
    ));
    assert(s.subrange(n1, s.len() as int).subrange(
        n2,
        s.subrange(n1, s.len() as int).len() as int,
    ) =~= s.subrange(n1 + n2, s.len() as int));
}

/// One store entry: a subscription under its identifier.
pub struct SubEntry {
    pub sub_id: String,
    pub sub: Subscription,
}

/// No two entries of the sequence share an identifier.
pub open spec fn distinct_ids(s: Seq<SubEntry>) -> bool {
    forall|i: int, j: int|
        #![trigger s[i], s[j]]
        0 <= i < j < s.len() ==> s[i].sub_id@ != s[j].sub_id@
}

/// A just-created entry as `SubscriptionStore::open` inserts it.
pub open spec fn fresh_entry(
    e: SubEntry,
    sub_id: String,
    key_expr: String,
    capacity: usize,
    now_ms: u64,
) -> bool {
    &&& e.sub_id == sub_id
    &&& e.sub.key_expr == key_expr
    &&& e.sub.buffer@.len() == 0
    &&& e.sub.buffer_capacity == capacity
    &&& e.sub.overflow_count == 0
    &&& e.sub.total_received == 0
    &&& e.sub.drained_count == 0
    &&& e.sub.created_at == now_ms
}

/// What `poll` hands back: the drained samples plus the counters that
/// describe what was lost and what is still waiting.
pub struct PollOutcome {
    pub samples: Vec<BufferedSample>,
    pub overflow_count: u64,
    pub buffered_remaining: usize,
}

/// A read-only row of `SubscriptionStore::list`.
pub struct SubscriptionInfo {
    pub sub_id: String,
    pub key_expr: String,
    pub buffered: usize,
    pub buffer_capacity: usize,
    pub overflow_count: u64,
    pub total_received: u64,
    pub created_at: u64,
}

/// The row that `list` derives from one entry.
pub open spec fn info_of(e: SubEntry) -> SubscriptionInfo {
    SubscriptionInfo {
        sub_id: e.sub_id,
        key_expr: e.sub.key_expr,
        buffered: e.sub.buffer@.len() as usize,
        buffer_capacity: e.sub.buffer_capacity,
        overflow_count: e.sub.overflow_count,
        total_received: e.sub.total_received,
        created_at: e.sub.created_at,
    }
}

/// The store of open subscriptions, keyed by identifier.
pub struct SubscriptionStore {
    pub subs: Vec<SubEntry>,
}

impl SubscriptionStore {
    /// Identifiers are unique and every subscription is well formed.
    pub open spec fn wf(self) -> bool {
        &&& forall|i: int| 0 <= i < self.subs@.len() ==> (#[trigger] self.subs@[i]).sub.wf()
        &&& distinct_ids(self.subs@)
    }

    /// The store holds an entry under identifier `k`.
    pub open spec fn has_sub(self, k: Seq<char>) -> bool {
        exists|i: int| 0 <= i < self.subs@.len() && (#[trigger] self.subs@[i]).sub_id@ == k
    }

    /// The index of the entry under `k`; meaningful only when `has_sub(k)`.
    pub open spec fn sub_idx(self, k: Seq<char>) -> int {
        choose|i: int| 0 <= i < self.subs@.len() && (#[trigger] self.subs@[i]).sub_id@ == k
    }

    pub fn new() -> (r: SubscriptionStore)
        ensures
            r.wf(),
            r.subs@.len() == 0,
    {
        SubscriptionStore { subs: Vec::new() }
    }

    pub fn len(&self) -> (r: usize)
        ensures
            r == self.subs@.len(),
    {
        self.subs.len()
    }

    /// Inserts a fresh subscription under `sub_id`: appended when the
    /// identifier is new, replacing the colliding entry otherwise; no other
    /// entry changes. Always succeeds.
    pub fn open(&mut self, sub_id: String, key_expr: String, capacity: usize, now_ms: u64)
        requires
            old(self).wf(),
            capacity >= 1,
        ensures
            final(self).wf(),
            final(self).has_sub(sub_id@),
            !old(self).has_sub(sub_id@) ==> {
                &&& final(self).subs@.len() == old(self).subs@.len() + 1
                &&& forall|j: int|
                    0 <= j < old(self).subs@.len() ==> final(self).subs@[j] == old(self).subs@[j]
                &&& fresh_entry(final(self).subs@.last(), sub_id, key_expr, capacity, now_ms)
            },
            old(self).has_sub(sub_id@) ==> {
                let i = old(self).sub_idx(sub_id@);
                &&& final(self).subs@.len() == old(self).subs@.len()
                &&& forall|j: int|
                    0 <= j < old(self).subs@.len() && j != i ==> final(self).subs@[j] == old(
                        self,
                    ).subs@[j]
                &&& fresh_entry(final(self).subs@[i], sub_id, key_expr, capacity, now_ms)
            },
    {
        let n = self.subs.len();
        let mut i: usize = 0;
        while i < n
            invariant
                *self == *old(self),
                old(self).wf(),
                n == self.subs@.len(),
                i <= n,
                capacity >= 1,
                forall|j: int| 0 <= j < i ==> (#[trigger] self.subs@[j]).sub_id@ != sub_id@,
            decreases n - i,
        {
            if <String as PartialEq<String>>::eq(&self.subs[i].sub_id, &sub_id) {
                proof {
                    lemma_sub_idx_is(*self, sub_id@, i as int);
                }
                let ghost pre = self.subs@;
                let _closed = self.subs.remove(i);
                let e = SubEntry { sub_id, sub: Subscription::new(key_expr, capacity, now_ms) };
                self.subs.insert(i, e);
                proof {
                    assert(self.subs@ =~= pre.update(i as int, e));
                    assert forall|a: int| 0 <= a < self.subs@.len() implies (
                    #[trigger] self.subs@[a]).sub.wf() by {
                        if a != i as int {
                            assert(self.subs@[a] == pre[a]);
                        }
                    }
                    assert forall|a: int, b: int|
                        #![trigger self.subs@[a], self.subs@[b]]
                        0 <= a < b < self.subs@.len() implies self.subs@[a].sub_id@
                        != self.subs@[b].sub_id@ by {
                        assert(pre[a].sub_id@ != pre[b].sub_id@);
                        assert(self.subs@[i as int].sub_id@ == pre[i as int].sub_id@);
                    }
                    assert(self.subs@[i as int].sub_id@ == sub_id@);
                }
                return ;
            }
            i += 1;
        }
        let e = SubEntry { sub_id, sub: Subscription::new(key_expr, capacity, now_ms) };
        self.subs.push(e);
        proof {
            let ghost len = self.subs@.len();
            assert(self.subs@[len - 1].sub_id@ == sub_id@);
            assert forall|a: int, b: int|
                #![trigger self.subs@[a], self.subs@[b]]
                0 <= a < b < len implies self.subs@[a].sub_id@ != self.subs@[b].sub_id@ by {
                if b < len - 1 {
                    assert(old(self).subs@[a].sub_id@ != old(self).subs@[b].sub_id@);
                } else {
                    assert(self.subs@[a] == old(self).subs@[a]);
                }
            }
        }
    }

    /// Removes the subscription under `sub_id` if present, keeping the order
    /// of the remaining entries; reports whether one was removed.
    pub fn close(&mut self, sub_id: &String) -> (r: bool)
        requires
            old(self).wf(),
        ensures
            final(self).wf(),
            r == old(self).has_sub(sub_id@),
            !final(self).has_sub(sub_id@),
            !old(self).has_sub(sub_id@) ==> *final(self) == *old(self),
            old(self).has_sub(sub_id@) ==> final(self).subs@ == old(self).subs@.remove(
                old(self).sub_idx(sub_id@),
            ),
    {
        let n = self.subs.len();
        let mut i: usize = 0;
        while i < n
            invariant
                *self == *old(self),
                old(self).wf(),
                n == self.subs@.len(),
                i <= n,
                forall|j: int| 0 <= j < i ==> (#[trigger] self.subs@[j]).sub_id@ != sub_id@,
            decreases n - i,
        {
            if <String as PartialEq<String>>::eq(&self.subs[i].sub_id, sub_id) {
                proof {
                    lemma_sub_idx_is(*self, sub_id@, i as int);
                }
                let ghost pre = self.subs@;
                let _closed = self.subs.remove(i);
                proof {
                    assert(self.subs@ =~= pre.subrange(0, i as int) + pre.subrange(
                        i as int + 1,
                        pre.len() as int,
                    ));
                    assert forall|a: int| 0 <= a < self.subs@.len() implies (
                    #[trigger] self.subs@[a]).sub.wf() by {
                        if a < i as int {
                            assert(self.subs@[a] == pre[a]);
                        } else {
                            assert(self.subs@[a] == pre[a + 1]);
                        }
                    }
                    assert forall|a: int, b: int|
                        #![trigger self.subs@[a], self.subs@[b]]
                        0 <= a < b < self.subs@.len() implies self.subs@[a].sub_id@
                        != self.subs@[b].sub_id@ by {
                        let pa = if a < i as int {
                            a
                        } else {
                            a + 1
                        };
                        let pb = if b < i as int {
                            b
                        } else {
                            b + 1
                        };
                        assert(self.subs@[a] == pre[pa]);
                        assert(self.subs@[b] == pre[pb]);
                        assert(pre[pa].sub_id@ != pre[pb].sub_id@);
                    }
                    assert forall|a: int| 0 <= a < self.subs@.len() implies (
                    #[trigger] self.subs@[a]).sub_id@ != sub_id@ by {
                        if a < i as int {
                            assert(self.subs@[a] == pre[a]);
                        } else {
                            assert(self.subs@[a] == pre[a + 1]);
                        }
                    }
                }
                return true;
            }
            i += 1;
        }
        false
    }

    /// Drains up to `limit` samples from the subscription under `sub_id` and
    /// reports its overflow count and what remains buffered; `None` exactly
    /// when the identifier is unknown, in which case nothing changes.
    pub fn poll(&mut self, sub_id: &String, limit: usize) -> (r: Option<PollOutcome>)
        requires
            old(self).wf(),
        ensures
            final(self).wf(),
            r is Some <==> old(self).has_sub(sub_id@),
            !old(self).has_sub(sub_id@) ==> *final(self) == *old(self),
            old(self).has_sub(sub_id@) ==> ({
                let i = old(self).sub_idx(sub_id@);
                let e = old(self).subs@[i];
                let n = if (limit as int) <= e.sub.buffer@.len() {
                    limit as int
                } else {
                    e.sub.buffer@.len() as int
                };
                &&& r matches Some(o) && (o.samples@ == e.sub.buffer@.subrange(0, n)
                    && o.overflow_count == e.sub.overflow_count && o.buffered_remaining
                    == e.sub.buffer@.len() - n)
                &&& final(self).subs@.len() == old(self).subs@.len()
                &&& forall|j: int|
                    0 <= j < old(self).subs@.len() && j != i ==> final(self).subs@[j] == old(
                        self,
                    ).subs@[j]
                &&& final(self).subs@[i].sub_id == e.sub_id
                &&& final(self).subs@[i].sub.buffer@ == e.sub.buffer@.subrange(
                    n,
                    e.sub.buffer@.len() as int,
                )
                &&& final(self).subs@[i].sub.overflow_count == e.sub.overflow_count
                &&& final(self).subs@[i].sub.total_received == e.sub.total_received
                &&& final(self).subs@[i].sub.key_expr == e.sub.key_expr
                &&& final(self).subs@[i].sub.buffer_capacity == e.sub.buffer_capacity
                &&& final(self).subs@[i].sub.created_at == e.sub.created_at
                &&& final(self).subs@[i].sub.drained_count == sat_add64(
                    e.sub.drained_count,
                    n as u64,
                )
            }),
    {
        let n_subs = self.subs.len();
        let mut i: usize = 0;
        while i < n_subs
            invariant
                *self == *old(self),
                old(self).wf(),
                n_subs == self.subs@.len(),
                i <= n_subs,
                forall|j: int| 0 <= j < i ==> (#[trigger] self.subs@[j]).sub_id@ != sub_id@,
            decreases n_subs - i,
        {
            if <String as PartialEq<String>>::eq(&self.subs[i].sub_id, sub_id) {
                proof {
                    lemma_sub_idx_is(*self, sub_id@, i as int);
                }
                let ghost pre = self.subs@;
                let mut e = self.subs.remove(i);
                let samples = e.sub.drain(limit);
                let overflow_count = e.sub.overflow_count;
                let buffered_remaining = e.sub.buffer.len();
                self.subs.insert(i, e);
                proof {
                    assert(self.subs@ =~= pre.update(i as int, e));
                    assert forall|a: int| 0 <= a < self.subs@.len() implies (
                    #[trigger] self.subs@[a]).sub.wf() by {
                        if a != i as int {
                            assert(self.subs@[a] == pre[a]);
                        }
                    }
                    assert forall|a: int, b: int|
                        #![trigger self.subs@[a], self.subs@[b]]
                        0 <= a < b < self.subs@.len() implies self.subs@[a].sub_id@
                        != self.subs@[b].sub_id@ by {
                        assert(pre[a].sub_id@ != pre[b].sub_id@);
                        assert(self.subs@[i as int].sub_id@ == pre[i as int].sub_id@);
                    }
                }
                return Some(PollOutcome { samples, overflow_count, buffered_remaining });
            }
            i += 1;
        }
        None
    }

    /// Hands one captured sample to the subscription under `sub_id`;
    /// reports false — telling the collector to stop — exactly when the
    /// subscription no longer exists, in which case nothing changes.
    pub fn push_sample(&mut self, sub_id: &String, sample: BufferedSample) -> (r: bool)
        requires
            old(self).wf(),
        ensures
            final(self).wf(),
            r == old(self).has_sub(sub_id@),
            !old(self).has_sub(sub_id@) ==> *final(self) == *old(self),
            old(self).has_sub(sub_id@) ==> ({
                let i = old(self).sub_idx(sub_id@);
                let e = old(self).subs@[i];
                &&& final(self).subs@.len() == old(self).subs@.len()
                &&& forall|j: int|
                    0 <= j < old(self).subs@.len() && j != i ==> final(self).subs@[j] == old(
                        self,
                    ).subs@[j]
                &&& final(self).subs@[i].sub_id == e.sub_id
                &&& final(self).subs@[i].sub.key_expr == e.sub.key_expr
                &&& final(self).subs@[i].sub.buffer_capacity == e.sub.buffer_capacity
                &&& final(self).subs@[i].sub.created_at == e.sub.created_at
                &&& final(self).subs@[i].sub.drained_count == e.sub.drained_count
                &&& final(self).subs@[i].sub.total_received == sat_add64(e.sub.total_received, 1)
                &&& e.sub.buffer@.len() < e.sub.buffer_capacity ==> {
                    &&& final(self).subs@[i].sub.buffer@ == e.sub.buffer@.push(sample)
                    &&& final(self).subs@[i].sub.overflow_count == e.sub.overflow_count
                }
                &&& e.sub.buffer@.len() >= e.sub.buffer_capacity ==> {
                    &&& final(self).subs@[i].sub.buffer@ == e.sub.buffer@.subrange(
                        1,
                        e.sub.buffer@.len() as int,
                    ).push(sample)
                    &&& final(self).subs@[i].sub.overflow_count == sat_add64(
                        e.sub.overflow_count,
                        1,
                    )
                }
            }),
    {
        let n_subs = self.subs.len();
        let mut i: usize = 0;
        while i < n_subs
            invariant
                *self == *old(self),
                old(self).wf(),
                n_subs == self.subs@.len(),
                i <= n_subs,
                forall|j: int| 0 <= j < i ==> (#[trigger] self.subs@[j]).sub_id@ != sub_id@,
            decreases n_subs - i,
        {
            if <String as PartialEq<String>>::eq(&self.subs[i].sub_id, sub_id) {
                proof {
                    lemma_sub_idx_is(*self, sub_id@, i as int);
                }
                let ghost pre = self.subs@;
                let mut e = self.subs.remove(i);
                e.sub.push(sample);
                self.subs.insert(i, e);
                proof {
                    assert(self.subs@ =~= pre.update(i as int, e));
                    assert forall|a: int| 0 <= a < self.subs@.len() implies (
                    #[trigger] self.subs@[a]).sub.wf() by {
                        if a != i as int {
                            assert(self.subs@[a] == pre[a]);
                        }
                    }
                    assert forall|a: int, b: int|
                        #![trigger self.subs@[a], self.subs@[b]]
                        0 <= a < b < self.subs@.len() implies self.subs@[a].sub_id@
                        != self.subs@[b].sub_id@ by {
                        assert(pre[a].sub_id@ != pre[b].sub_id@);
                        assert(self.subs@[i as int].sub_id@ == pre[i as int].sub_id@);
                    }
                }
                return true;
            }
            i += 1;
        }
        false
    }

    /// Removes every subscription, as shutdown demands.
    pub fn clear(&mut self)
        ensures
            final(self).wf(),
            final(self).subs@.len() == 0,
    {
        self.subs.clear();
    }

    /// A read-only snapshot of every open subscription, in store order.
    pub fn list(&self) -> (r: Vec<SubscriptionInfo>)
        requires
            self.wf(),
        ensures
            r@.len() == self.subs@.len(),
            forall|k: int|
                0 <= k < self.subs@.len() ==> #[trigger] r@[k] == info_of(self.subs@[k]),
    {
        let n = self.subs.len();
        let mut out: Vec<SubscriptionInfo> = Vec::new();
        let mut i: usize = 0;
        while i < n
            invariant
                self.wf(),
                n == self.subs@.len(),
                i <= n,
                out@.len() == i,
                forall|k: int| 0 <= k < i ==> #[trigger] out@[k] == info_of(self.subs@[k]),
            decreases n - i,
        {
            let e = &self.subs[i];
            let row = SubscriptionInfo {
                sub_id: e.sub_id.clone(),
                key_expr: e.sub.key_expr.clone(),
                buffered: e.sub.buffer.len(),
                buffer_capacity: e.sub.buffer_capacity,
                overflow_count: e.sub.overflow_count,
                total_received: e.sub.total_received,
                created_at: e.sub.created_at,
            };
            out.push(row);
            i += 1;
        }
        out
    }
}

/// When position `i` holds the entry under `k`, unique identifiers pin
/// `sub_idx(k)` down to `i`.
pub(crate) proof fn lemma_sub_idx_is(st: SubscriptionStore, k: Seq<char>, i: int)
    requires
        distinct_ids(st.subs@),
        0 <= i < st.subs@.len(),
        st.subs@[i].sub_id@ == k,
    ensures
        st.has_sub(k),
        st.sub_idx(k) == i,
{
    assert(st.has_sub(k));
    let j = st.sub_idx(k);
    if j != i {
        assert(st.subs@[i].sub_id@ != st.subs@[j].sub_id@);
    }
}

} // verus!
