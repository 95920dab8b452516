//! Registry of discovered topics: one statistics entry per distinct topic
//! name, updated on every observed sample and swept of silent entries.

use vstd::prelude::*;
use vstd::seq_lib::group_filter_ensures;
use vstd::string::StrSliceExecFns;

verus! {

/// Addition on `u64` counters that clips at the maximum instead of wrapping,
/// so that cumulative statistics can never overflow.
pub open spec fn sat_add64(a: u64, b: u64) -> u64 {
    if a + b > u64::MAX {
        u64::MAX
    } else {
        (a + b) as u64
    }
}

/// The larger of two timestamps.
pub open spec fn max64(a: u64, b: u64) -> u64 {
    if a >= b {
        a
    } else {
        b
    }
}

/// How long a topic has been silent, in milliseconds; zero when the clock
/// reads earlier than the entry's last update.
pub open spec fn silent_millis(last_seen: u64, now_ms: u64) -> u64 {
    if now_ms >= last_seen {
        (now_ms - last_seen) as u64
    } else {
        0
    }
}

/// True when `p` is a prefix of `s`.
pub open spec fn is_prefix_of(p: Seq<char>, s: Seq<char>) -> bool {
    p.len() <= s.len() && s.subrange(0, p.len() as int) == p
}

/// Rolling statistics for one discovered topic. Timestamps are in
/// milliseconds on the caller's clock.
pub struct TopicMeta {
    pub key_expr: String,
    pub first_seen: u64,
    pub last_seen: u64,
    pub sample_count: u64,
    pub total_payload_bytes: u64,
    pub last_encoding: String,
}

/// Average payload size of an entry: cumulative bytes over the sample count,
/// zero when no sample was counted.
pub open spec fn spec_avg_payload_size(m: TopicMeta) -> u64 {
    if m.sample_count == 0 {
        0
    } else {
        m.total_payload_bytes / m.sample_count
    }
}

/// Sample rate of an entry in hundredths of a sample per second, truncated;
/// zero when less than a millisecond elapsed between the first and the last
/// sample, clipped at `u64::MAX`.
pub open spec fn spec_rate_centi_hz(m: TopicMeta) -> u64 {
    let elapsed = m.last_seen - m.first_seen;
    if elapsed < 1 {
        0
    } else if m.sample_count * 100_000 / elapsed > u64::MAX {
        u64::MAX
    } else {
        (m.sample_count * 100_000 / elapsed) as u64
    }
}

/// An entry was silent for at least the threshold and is due for removal.
pub open spec fn is_expired(m: TopicMeta, now_ms: u64, threshold_ms: u64) -> bool {
    silent_millis(m.last_seen, now_ms) >= threshold_ms
}

impl TopicMeta {
    /// An entry exists only after at least one sample, and never claims to
    /// have been seen before it first appeared.
    pub open spec fn wf(self) -> bool {
        &&& self.first_seen <= self.last_seen
        &&& self.sample_count >= 1
    }

    /// A fresh entry for a topic's first observed sample.
    pub fn new(key_expr: String, encoding: String, payload_len: u64, now_ms: u64) -> (r:
        TopicMeta)
        ensures
            r.wf(),
            r.key_expr == key_expr,
            r.first_seen == now_ms,
            r.last_seen == now_ms,
            r.sample_count == 1,
            r.total_payload_bytes == payload_len,
            r.last_encoding == encoding,
    {
        TopicMeta {
            key_expr,
            first_seen: now_ms,
            last_seen: now_ms,
            sample_count: 1,
            total_payload_bytes: payload_len,
            last_encoding: encoding,
        }
    }

    /// Folds one more observed sample into the entry: the count grows by one,
    /// the byte total by the payload length (both clipped at `u64::MAX`), the
    /// last-seen stamp advances monotonically, and the encoding is replaced.
    pub fn update(&mut self, encoding: String, payload_len: u64, now_ms: u64)
        requires
            old(self).wf(),
        ensures
            final(self).wf(),
            final(self).key_expr == old(self).key_expr,
            final(self).first_seen == old(self).first_seen,
            final(self).last_seen == max64(old(self).last_seen, now_ms),
            final(self).sample_count == sat_add64(old(self).sample_count, 1),
            final(self).total_payload_bytes == sat_add64(
                old(self).total_payload_bytes,
                payload_len,
            ),
            final(self).last_encoding == encoding,
    {
        if now_ms > self.last_seen {
            self.last_seen = now_ms;
        }
        self.sample_count = self.sample_count.saturating_add(1);
        self.total_payload_bytes = self.total_payload_bytes.saturating_add(payload_len);
        self.last_encoding = encoding;
    }

    /// Average payload size over all counted samples.
    pub fn avg_payload_size(&self) -> (r: u64)
        ensures
            r == spec_avg_payload_size(*self),
    {
        if self.sample_count == 0 {
            0
        } else {
            self.total_payload_bytes / self.sample_count
        }
    }

    /// Sample rate in hundredths of a sample per second.
    pub fn rate_centi_hz(&self) -> (r: u64)
        requires
            self.wf(),
        ensures
            r == spec_rate_centi_hz(*self),
    {
        let elapsed: u64 = self.last_seen - self.first_seen;
        if elapsed < 1 {
            0
        } else {
            let q: u128 = (self.sample_count as u128) * 100_000 / (elapsed as u128);
            if q > u64::MAX as u128 {
                u64::MAX
            } else {
                q as u64
            }
        }
    }
}

impl Clone for TopicMeta {
    fn clone(&self) -> (r: Self)
        ensures
            r == *self,
    {
        TopicMeta {
            key_expr: self.key_expr.clone(),
            first_seen: self.first_seen,
            last_seen: self.last_seen,
            sample_count: self.sample_count,
            total_payload_bytes: self.total_payload_bytes,
            last_encoding: self.last_encoding.clone(),
        }
    }
}

/// No two entries of the sequence share a topic name.
pub open spec fn distinct_keys(s: Seq<TopicMeta>) -> bool {
    forall|i: int, j: int|
        #![trigger s[i], s[j]]
        0 <= i < j < s.len() ==> s[i].key_expr@ != s[j].key_expr@
}

/// A query-time snapshot of one registry entry, annotated with how long the
/// topic has been silent.
pub struct TopicSnapshot {
    pub key_expr: String,
    pub first_seen: u64,
    pub last_seen: u64,
    pub sample_count: u64,
    pub total_payload_bytes: u64,
    pub rate_centi_hz: u64,
    pub avg_payload_size: u64,
    pub last_encoding: String,
    pub silent_secs: u64,
    pub stale: bool,
}

/// The snapshot that `TopicRegistry::list` derives from one entry at the
/// given query time; a topic is stale after five silent seconds.
pub open spec fn snapshot_of(m: TopicMeta, now_ms: u64) -> TopicSnapshot {
    TopicSnapshot {
        key_expr: m.key_expr,
        first_seen: m.first_seen,
        last_seen: m.last_seen,
        sample_count: m.sample_count,
        total_payload_bytes: m.total_payload_bytes,
        rate_centi_hz: spec_rate_centi_hz(m),
        avg_payload_size: spec_avg_payload_size(m),
        last_encoding: m.last_encoding,
        silent_secs: silent_millis(m.last_seen, now_ms) / 1000,
        stale: silent_millis(m.last_seen, now_ms) >= 5000,
    }
}

/// The mapping from topic name to rolling statistics that discovery feeds.
pub struct TopicRegistry {
    pub topics: Vec<TopicMeta>,
}

impl TopicRegistry {
    /// Entries are well formed and topic names are unique.
    pub open spec fn wf(self) -> bool {
        &&& forall|i: int| 0 <= i < self.topics@.len() ==> (#[trigger] self.topics@[i]).wf()
        &&& distinct_keys(self.topics@)
    }

    /// The registry holds an entry for the topic name `k`.
    pub open spec fn has_topic(self, k: Seq<char>) -> bool {
        exists|i: int| 0 <= i < self.topics@.len() && (#[trigger] self.topics@[i]).key_expr@ == k
    }

    /// The index of the entry for `k`; meaningful only when `has_topic(k)`.
    pub open spec fn topic_idx(self, k: Seq<char>) -> int {
        choose|i: int| 0 <= i < self.topics@.len() && (#[trigger] self.topics@[i]).key_expr@ == k
    }

    pub fn new() -> (r: TopicRegistry)
        ensures
            r.wf(),
            r.topics@.len() == 0,
    {
        TopicRegistry { topics: Vec::new() }
    }

    pub fn len(&self) -> (r: usize)
        ensures
            r == self.topics@.len(),
    {
        self.topics.len()
    }

    /// Folds one observed sample into the registry: an absent topic gets a
    /// fresh entry appended, a present one is updated in place per
    /// `TopicMeta::update`; no other entry changes. Never fails.
    pub fn record(&mut self, key_expr: String, encoding: String, payload_len: u64, now_ms: u64)
        requires
            old(self).wf(),
        ensures
            final(self).wf(),
            final(self).has_topic(key_expr@),
            !old(self).has_topic(key_expr@) ==> {
                &&& final(self).topics@.len() == old(self).topics@.len() + 1
                &&& forall|j: int|
                    0 <= j < old(self).topics@.len() ==> final(self).topics@[j] == old(
                        self,
                    ).topics@[j]
                &&& final(self).topics@.last().key_expr == key_expr
                &&& final(self).topics@.last().first_seen == now_ms
                &&& final(self).topics@.last().last_seen == now_ms
                &&& final(self).topics@.last().sample_count == 1
                &&& final(self).topics@.last().total_payload_bytes == payload_len
                &&& final(self).topics@.last().last_encoding == encoding
            },
            old(self).has_topic(key_expr@) ==> {
                let i = old(self).topic_idx(key_expr@);
                &&& final(self).topics@.len() == old(self).topics@.len()
                &&& forall|j: int|
                    0 <= j < old(self).topics@.len() && j != i ==> final(self).topics@[j] == old(
                        self,
                    ).topics@[j]
                &&& final(self).topics@[i].key_expr == old(self).topics@[i].key_expr
                &&& final(self).topics@[i].first_seen == old(self).topics@[i].first_seen
                &&& final(self).topics@[i].last_seen == max64(
                    old(self).topics@[i].last_seen,
                    now_ms,
                )
                &&& final(self).topics@[i].sample_count == sat_add64(
                    old(self).topics@[i].sample_count,
                    1,
                )
                &&& final(self).topics@[i].total_payload_bytes == sat_add64(
                    old(self).topics@[i].total_payload_bytes,
                    payload_len,
                )
                &&& final(self).topics@[i].last_encoding == encoding
            },
    {
        let n = self.topics.len();
        let mut i: usize = 0;
        while i < n
            invariant
                *self == *old(self),
                old(self).wf(),
                n == self.topics@.len(),
                i <= n,
                forall|j: int| 0 <= j < i ==> (#[trigger] self.topics@[j]).key_expr@ != key_expr@,
            decreases n - i,
        {
            if self.topics[i].key_expr == key_expr {
                proof {
                    lemma_topic_idx_is(*self, key_expr@, i as int);
                }
                let ghost pre = self.topics@;
                let mut m = self.topics.remove(i);
                m.update(encoding, payload_len, now_ms);
                self.topics.insert(i, m);
                proof {
                    assert(self.topics@ =~= pre.update(i as int, m));
                    assert forall|a: int| 0 <= a < self.topics@.len() implies (
                    #[trigger] self.topics@[a]).wf() by {
                        if a != i as int {
                            assert(self.topics@[a] == pre[a]);
                        }
                    }
                    assert forall|a: int, b: int|
                        #![trigger self.topics@[a], self.topics@[b]]
                        0 <= a < b < self.topics@.len() implies self.topics@[a].key_expr@
                        != self.topics@[b].key_expr@ by {
                        assert(pre[a].key_expr@ != pre[b].key_expr@);
                        assert(self.topics@[i as int].key_expr@ == pre[i as int].key_expr@);
                    }
                    assert(self.topics@[i as int].key_expr@ == key_expr@);
                }
                return ;
            }
            i += 1;
        }
        let m = TopicMeta::new(key_expr, encoding, payload_len, now_ms);
        self.topics.push(m);
        proof {
            let ghost len = self.topics@.len();
            assert(self.topics@[len - 1].key_expr@ == key_expr@);
            assert forall|a: int, b: int|
                #![trigger self.topics@[a], self.topics@[b]]
                0 <= a < b < len implies self.topics@[a].key_expr@ != self.topics@[b].key_expr@ by {
                if b < len - 1 {
                    assert(old(self).topics@[a].key_expr@ != old(self).topics@[b].key_expr@);
                } else {
                    assert(self.topics@[a] == old(self).topics@[a]);
                }
            }
        }
    }

    /// Removes every entry that has been silent for at least `threshold_ms`,
    /// and nothing else, keeping the order of the survivors.
    pub fn expire(&mut self, now_ms: u64, threshold_ms: u64)
        requires
            old(self).wf(),
        ensures
            final(self).wf(),
            final(self).topics@ == old(self).topics@.filter(
                |m: TopicMeta| !is_expired(m, now_ms, threshold_ms),
            ),
    {
        let n = self.topics.len();
        let mut kept: Vec<TopicMeta> = Vec::new();
        let mut i: usize = 0;
        while i < n
            invariant
                *self == *old(self),
                old(self).wf(),
                n == self.topics@.len(),
                i <= n,
                kept@ == self.topics@.subrange(0, i as int).filter(
                    |m: TopicMeta| !is_expired(m, now_ms, threshold_ms),
                ),
            decreases n - i,
        {
            let last_seen = self.topics[i].last_seen;
            let silent: u64 = if now_ms >= last_seen {
                now_ms - last_seen
            } else {
                0
            };
            proof {
                assert(self.topics@.subrange(0, i as int + 1) =~= self.topics@.subrange(
                    0,
                    i as int,
                ).push(self.topics@[i as int]));
                lemma_filter_push(
                    self.topics@.subrange(0, i as int),
                    self.topics@[i as int],
                    |m: TopicMeta| !is_expired(m, now_ms, threshold_ms),
                );
            }
            if silent < threshold_ms {
                kept.push(self.topics[i].clone());
            }
            i += 1;
        }
        proof {
            assert(self.topics@.subrange(0, n as int) =~= self.topics@);
            lemma_filter_keeps_distinct(
                self.topics@,
                |m: TopicMeta| !is_expired(m, now_ms, threshold_ms),
            );
        }
        self.topics = kept;
    }

    /// Removes all entries, as discovery stop and restart demand.
    pub fn clear(&mut self)
        ensures
            final(self).wf(),
            final(self).topics@.len() == 0,
    {
        self.topics.clear();
    }

    /// A read-only snapshot of every entry whose topic name starts with
    /// `prefix` (an empty prefix selects all), in registry order, each
    /// annotated at query time per `snapshot_of`. No side effects.
    pub fn list(&self, prefix: &String, now_ms: u64) -> (r: Vec<TopicSnapshot>)
        requires
            self.wf(),
        ensures
            ({
                let selected = self.topics@.filter(
                    |m: TopicMeta| is_prefix_of(prefix@, m.key_expr@),
                );
                &&& r@.len() == selected.len()
                &&& forall|k: int|
                    0 <= k < selected.len() ==> #[trigger] r@[k] == snapshot_of(
                        selected[k],
                        now_ms,
                    )
            }),
    {
        let n = self.topics.len();
        let mut out: Vec<TopicSnapshot> = Vec::new();
        let mut i: usize = 0;
        while i < n
            invariant
                self.wf(),
                n == self.topics@.len(),
                i <= n,
                out@.len() == self.topics@.subrange(0, i as int).filter(
                    |m: TopicMeta| is_prefix_of(prefix@, m.key_expr@),
                ).len(),
                forall|k: int|
                    0 <= k < out@.len() ==> #[trigger] out@[k] == snapshot_of(
                        self.topics@.subrange(0, i as int).filter(
                            |m: TopicMeta| is_prefix_of(prefix@, m.key_expr@),
                        )[k],
                        now_ms,
                    ),
            decreases n - i,
        {
            proof {
                assert(self.topics@.subrange(0, i as int + 1) =~= self.topics@.subrange(
                    0,
                    i as int,
                ).push(self.topics@[i as int]));
                lemma_filter_push(
                    self.topics@.subrange(0, i as int),
                    self.topics@[i as int],
                    |m: TopicMeta| is_prefix_of(prefix@, m.key_expr@),
                );
                assert(self.topics@[i as int].wf());
            }
            if str_has_prefix(self.topics[i].key_expr.as_str(), prefix.as_str()) {
                let m = &self.topics[i];
                let silent: u64 = if now_ms >= m.last_seen {
                    now_ms - m.last_seen
                } else {
                    0
                };
                let snap = TopicSnapshot {
                    key_expr: m.key_expr.clone(),
                    first_seen: m.first_seen,
                    last_seen: m.last_seen,
                    sample_count: m.sample_count,
                    total_payload_bytes: m.total_payload_bytes,
                    rate_centi_hz: m.rate_centi_hz(),
                    avg_payload_size: m.avg_payload_size(),
                    last_encoding: m.last_encoding.clone(),
                    silent_secs: silent / 1000,
                    stale: silent >= 5000,
                };
                out.push(snap);
            }
            i += 1;
        }
        proof {
            assert(self.topics@.subrange(0, n as int) =~= self.topics@);
        }
        out
    }
}

/// The sum of a sequence of payload lengths.
pub open spec fn sum_of(lens: Seq<u64>) -> int
    decreases lens.len(),
{
    if lens.len() == 0 {
        0
    } else {
        sum_of(lens.drop_last()) + lens.last()
    }
}

/// The sample count of one topic's entry after its samples' lengths `lens`
/// were recorded in order, starting from nothing: `TopicRegistry::record`
/// steps the counter by a clipped one per call.
pub open spec fn count_after(lens: Seq<u64>) -> u64
    decreases lens.len(),
{
    if lens.len() == 0 {
        0
    } else {
        sat_add64(count_after(lens.drop_last()), 1)
    }
}

/// The cumulative payload bytes of one topic's entry after its samples'
/// lengths `lens` were recorded in order, starting from nothing:
/// `TopicRegistry::record` adds each clipped payload length.
pub open spec fn bytes_after(lens: Seq<u64>) -> u64
    decreases lens.len(),
{
    if lens.len() == 0 {
        0
    } else {
        sat_add64(bytes_after(lens.drop_last()), lens.last())
    }
}

/// Statistics law: for every sequence of recorded samples of one topic, the
/// entry counts exactly one per call and accumulates exactly the sum of the
/// payload lengths, as long as that sum fits a `u64` counter.
pub proof fn lemma_record_totals(lens: Seq<u64>)
    requires
        lens.len() <= u64::MAX,
        sum_of(lens) <= u64::MAX,
    ensures
        count_after(lens) == lens.len(),
        bytes_after(lens) == sum_of(lens),
    decreases lens.len(),
{
    if lens.len() > 0 {
        assert(sum_of(lens.drop_last()) <= sum_of(lens));
        lemma_record_totals(lens.drop_last());
    }
}

/// Expiry law: the sweep keeps an entry exactly when it has been silent for
/// less than the threshold — `TopicRegistry::expire` leaves the registry
/// equal to this filtered sequence, so an entry is removed iff
/// `now - last_seen` reaches the threshold.
pub proof fn lemma_expire_iff(s: Seq<TopicMeta>, now_ms: u64, threshold_ms: u64, i: int)
    requires
        0 <= i < s.len(),
    ensures
        !is_expired(s[i], now_ms, threshold_ms) ==> s.filter(
            |m: TopicMeta| !is_expired(m, now_ms, threshold_ms),
        ).contains(s[i]),
        is_expired(s[i], now_ms, threshold_ms) ==> !s.filter(
            |m: TopicMeta| !is_expired(m, now_ms, threshold_ms),
        ).contains(s[i]),
{
    broadcast use group_filter_ensures;

    let pred = |m: TopicMeta| !is_expired(m, now_ms, threshold_ms);
    if is_expired(s[i], now_ms, threshold_ms) {
        if s.filter(pred).contains(s[i]) {
            let j = choose|j: int| 0 <= j < s.filter(pred).len() && s.filter(pred)[j] == s[i];
            assert(pred(s.filter(pred)[j]));
        }
    } else {
        assert(s.filter(pred).contains(s[i]));
    }
}

/// When position `i` holds the entry named `k`, unique names pin
/// `topic_idx(k)` down to `i`.
proof fn lemma_topic_idx_is(r: TopicRegistry, k: Seq<char>, i: int)
    requires
        distinct_keys(r.topics@),
        0 <= i < r.topics@.len(),
        r.topics@[i].key_expr@ == k,
    ensures
        r.has_topic(k),
        r.topic_idx(k) == i,
{
    assert(r.has_topic(k));
    let j = r.topic_idx(k);
    if j != i {
        assert(r.topics@[i].key_expr@ != r.topics@[j].key_expr@);
    }
}

/// Filtering a pushed element either appends it (when it satisfies the
/// predicate) or leaves the filtered sequence unchanged.
proof fn lemma_filter_push(s: Seq<TopicMeta>, x: TopicMeta, pred: spec_fn(TopicMeta) -> bool)
    ensures
        pred(x) ==> s.push(x).filter(pred) == s.filter(pred).push(x),
        !pred(x) ==> s.push(x).filter(pred) == s.filter(pred),
{
    reveal(Seq::<_>::filter);
    assert(s.push(x).drop_last() =~= s);
    assert(s.push(x).last() == x);
}

/// A filtered sequence keeps only elements of the original, in particular it
/// keeps entries well formed and topic names distinct.
pub(crate) proof fn lemma_filter_keeps_distinct(s: Seq<TopicMeta>, pred: spec_fn(TopicMeta) -> bool)
    requires
        distinct_keys(s),
        forall|i: int| 0 <= i < s.len() ==> (#[trigger] s[i]).wf(),
    ensures
        distinct_keys(s.filter(pred)),
        forall|j: int| 0 <= j < s.filter(pred).len() ==> (#[trigger] s.filter(pred)[j]).wf(),
        forall|j: int| 0 <= j < s.filter(pred).len() ==> s.contains(#[trigger] s.filter(pred)[j]),
    decreases s.len(),
{
    broadcast use group_filter_ensures;

    reveal(Seq::<_>::filter);
    if s.len() > 0 {
        let butlast = s.drop_last();
        assert(forall|i: int| 0 <= i < butlast.len() ==> butlast[i] == s[i]);
        assert(distinct_keys(butlast));
        lemma_filter_keeps_distinct(butlast, pred);
        let bf = butlast.filter(pred);
        assert forall|j: int| 0 <= j < bf.len() implies s.contains(#[trigger] bf[j]) by {
            let w = choose|w: int| 0 <= w < butlast.len() && butlast[w] == bf[j];
            assert(s[w] == bf[j]);
        }
        if pred(s.last()) {
            assert(s.filter(pred) == bf.push(s.last()));
            let f = s.filter(pred);
            assert forall|a: int, b: int|
                #![trigger f[a], f[b]]
                0 <= a < b < f.len() implies f[a].key_expr@ != f[b].key_expr@ by {
                if b < f.len() - 1 {
                    assert(bf[a].key_expr@ != bf[b].key_expr@);
                } else {
                    assert(f[a] == bf[a]);
                    let w = choose|w: int| 0 <= w < butlast.len() && butlast[w] == bf[a];
                    assert(s[w] == bf[a]);
                    assert(s[w].key_expr@ != s[s.len() - 1].key_expr@);
                }
            }
        } else {
            assert(s.filter(pred) == bf);
        }
    }
}

/// Character-wise prefix test: true exactly when `p`'s characters open `s`.
pub fn str_has_prefix(s: &str, p: &str) -> (r: bool)
    ensures
        r == is_prefix_of(p@, s@),
{
    let pl = p.unicode_len();
    let sl = s.unicode_len();
    if pl > sl {
        return false;
    }
    let mut i: usize = 0;
    while i < pl
        invariant
            i <= pl,
            pl == p@.len(),
            pl <= sl,
            sl == s@.len(),
            forall|j: int| 0 <= j < i ==> s@[j] == p@[j],
        decreases pl - i,
    {
        if s.get_char(i) != p.get_char(i) {
            proof {
                assert(s@.subrange(0, pl as int)[i as int] != p@[i as int]);
            }
            return false;
        }
        i += 1;
    }
    proof {
        assert(s@.subrange(0, pl as int) =~= p@);
    }
    true
}

} // verus!
