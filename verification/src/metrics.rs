//! Request and connection metrics with a latency histogram of ten buckets.

use vstd::prelude::*;

verus! {

/// The number of latency buckets.
pub const BUCKETS: usize = 10;

/// Adds one, wrapping to zero past the largest value (as atomic counters do).
pub open spec fn wrap_inc(x: u64) -> u64 {
    if x == u64::MAX { 0 } else { (x + 1) as u64 }
}

fn inc_wrapping(x: u64) -> (r: u64)
    ensures
        r == wrap_inc(x),
{
    if x == u64::MAX { 0 } else { x + 1 }
}

/// The bucket of a latency in microseconds:
/// <=1ms, <=5ms, <=10ms, <=50ms, <=100ms, <=500ms, <=1s, <=5s, <=10s, above.
pub open spec fn latency_bucket(micros: u64) -> int {
    if micros <= 1_000 { 0 }
    else if micros <= 5_000 { 1 }
    else if micros <= 10_000 { 2 }
    else if micros <= 50_000 { 3 }
    else if micros <= 100_000 { 4 }
    else if micros <= 500_000 { 5 }
    else if micros <= 1_000_000 { 6 }
    else if micros <= 5_000_000 { 7 }
    else if micros <= 10_000_000 { 8 }
    else { 9 }
}

pub fn bucket_of(micros: u64) -> (b: usize)
    ensures
        b == latency_bucket(micros),
        b < BUCKETS,
{
    if micros <= 1_000 { 0 }
    else if micros <= 5_000 { 1 }
    else if micros <= 10_000 { 2 }
    else if micros <= 50_000 { 3 }
    else if micros <= 100_000 { 4 }
    else if micros <= 500_000 { 5 }
    else if micros <= 1_000_000 { 6 }
    else if micros <= 5_000_000 { 7 }
    else if micros <= 10_000_000 { 8 }
    else { 9 }
}

pub struct Metrics {
    pub requests_total: u64,
    pub requests_success: u64,
    pub requests_failed: u64,
    /// Latency histogram in microseconds, one counter per bucket.
    pub latency_buckets: Vec<u64>,
    pub connections_active: u64,
    pub connections_total: u64,
    pub reconnects: u64,
    pub bytes_sent: u64,
    pub bytes_received: u64,
}

/// A copy of the metrics at one moment.
pub struct MetricsSnapshot {
    pub requests_total: u64,
    pub requests_success: u64,
    pub requests_failed: u64,
    pub latency_histogram: Vec<u64>,
    pub connections_active: u64,
    pub bytes_sent: u64,
    pub bytes_received: u64,
}

/// Counting one more in bucket `k` adds one to every prefix sum that
/// covers `k`.
proof fn lemma_prefix_sum_update(h: Seq<u64>, k: int, n: int)
    requires
        0 <= k < h.len(),
        0 <= n <= h.len(),
        h[k] < u64::MAX,
    ensures
        prefix_sum(h.update(k, (h[k] + 1) as u64), n) == prefix_sum(h, n) + if k < n { 1int } else { 0int },
    decreases n,
{
    if n > 0 {
        lemma_prefix_sum_update(h, k, n - 1);
    }
}

proof fn lemma_prefix_sum_zero(h: Seq<u64>, n: int)
    requires
        0 <= n <= h.len(),
        forall|i: int| 0 <= i < h.len() ==> h[i] == 0,
    ensures
        prefix_sum(h, n) == 0,
    decreases n,
{
    if n > 0 {
        lemma_prefix_sum_zero(h, n - 1);
    }
}

/// No bucket holds more than the prefix sum that covers it.
proof fn lemma_bucket_le_prefix_sum(h: Seq<u64>, k: int, n: int)
    requires
        0 <= k < n <= h.len(),
    ensures
        h[k] <= prefix_sum(h, n),
    decreases n,
{
    if n > k + 1 {
        lemma_bucket_le_prefix_sum(h, k, n - 1);
    }
    if n > 0 {
        assert(prefix_sum(h, n) == prefix_sum(h, n - 1) + h[n - 1]);
        lemma_prefix_sum_nonneg(h, n - 1);
    }
}

proof fn lemma_prefix_sum_nonneg(h: Seq<u64>, n: int)
    ensures
        prefix_sum(h, n) >= 0,
    decreases n,
{
    if n > 0 && h.len() > 0 {
        if n > h.len() {
            lemma_prefix_sum_nonneg(h, h.len() as int);
        } else {
            lemma_prefix_sum_nonneg(h, n - 1);
        }
    }
}

/// The request counters: total, successes, failures and the latency
/// histogram.
pub open spec fn counts_step(
    c: (u64, u64, u64, Seq<u64>),
    micros: u64,
    success: bool,
) -> (u64, u64, u64, Seq<u64>) {
    (
        wrap_inc(c.0),
        if success { wrap_inc(c.1) } else { c.1 },
        if success { c.2 } else { wrap_inc(c.2) },
        c.3.update(latency_bucket(micros), wrap_inc(c.3[latency_bucket(micros)])),
    )
}

/// The counters of fresh metrics after recording `events` (latency in
/// microseconds, success) one after the other.
pub open spec fn replay(events: Seq<(u64, bool)>) -> (u64, u64, u64, Seq<u64>)
    decreases events.len(),
{
    if events.len() == 0 {
        (0, 0, 0, Seq::new(BUCKETS as nat, |i: int| 0u64))
    } else {
        counts_step(replay(events.drop_last()), events.last().0, events.last().1)
    }
}

/// Every request counted is a success or a failure and lies in one bucket.
pub open spec fn counts_consistent(c: (u64, u64, u64, Seq<u64>)) -> bool {
    &&& c.3.len() == BUCKETS
    &&& c.0 == c.1 + c.2
    &&& c.0 == prefix_sum(c.3, BUCKETS as int)
}

/// Fresh metrics that then record any number of requests, fewer than
/// `u64::MAX`, count each request once: the total is the number recorded,
/// and it equals successes plus failures and the sum of the histogram.
pub proof fn lemma_replay_consistent(events: Seq<(u64, bool)>)
    requires
        events.len() < u64::MAX,
    ensures
        replay(events).0 == events.len(),
        counts_consistent(replay(events)),
    decreases events.len(),
{
    if events.len() == 0 {
        lemma_prefix_sum_zero(Seq::new(BUCKETS as nat, |i: int| 0u64), BUCKETS as int);
    } else {
        let prev = events.drop_last();
        lemma_replay_consistent(prev);
        let c = replay(prev);
        let k = latency_bucket(events.last().0);
        lemma_bucket_le_prefix_sum(c.3, k, BUCKETS as int);
        lemma_prefix_sum_update(c.3, k, BUCKETS as int);
    }
}

impl Metrics {
    pub open spec fn wf(&self) -> bool {
        self.latency_buckets@.len() == BUCKETS
    }

    /// The request counters.
    pub open spec fn counts(&self) -> (u64, u64, u64, Seq<u64>) {
        (self.requests_total, self.requests_success, self.requests_failed, self.latency_buckets@)
    }

    /// Every request counted is a success or a failure, and lies in one
    /// latency bucket.
    pub open spec fn consistent(&self) -> bool {
        &&& self.requests_total == self.requests_success + self.requests_failed
        &&& self.requests_total == prefix_sum(self.latency_buckets@, BUCKETS as int)
    }

    pub fn new() -> (m: Self)
        ensures
            m.wf(),
            m.consistent(),
            m.counts() == replay(Seq::empty()),
            m.requests_total == 0,
            m.requests_success == 0,
            m.requests_failed == 0,
            forall|i: int| 0 <= i < BUCKETS ==> m.latency_buckets@[i] == 0,
            m.connections_active == 0,
            m.connections_total == 0,
            m.reconnects == 0,
            m.bytes_sent == 0,
            m.bytes_received == 0,
    {
        let mut b: Vec<u64> = Vec::new();
        let mut i: usize = 0;
        while i < BUCKETS
            invariant
                i <= BUCKETS,
                b@.len() == i,
                forall|j: int| 0 <= j < i ==> b@[j] == 0,
            decreases BUCKETS - i,
        {
            b.push(0);
            i = i + 1;
        }
        proof {
            lemma_prefix_sum_zero(b@, BUCKETS as int);
        }
        Metrics {
            requests_total: 0,
            requests_success: 0,
            requests_failed: 0,
            latency_buckets: b,
            connections_active: 0,
            connections_total: 0,
            reconnects: 0,
            bytes_sent: 0,
            bytes_received: 0,
        }
    }

    /// Count one request that took `duration_micros` and succeeded or not.
    pub fn record_request(&mut self, duration_micros: u64, success: bool)
        requires
            old(self).wf(),
        ensures
            final(self).wf(),
            final(self).requests_total == wrap_inc(old(self).requests_total),
            final(self).requests_success == if success {
                wrap_inc(old(self).requests_success)
            } else {
                old(self).requests_success
            },
            final(self).requests_failed == if success {
                old(self).requests_failed
            } else {
                wrap_inc(old(self).requests_failed)
            },
            final(self).latency_buckets@ == old(self).latency_buckets@.update(
                latency_bucket(duration_micros),
                wrap_inc(old(self).latency_buckets@[latency_bucket(duration_micros)]),
            ),
            final(self).connections_active == old(self).connections_active,
            final(self).connections_total == old(self).connections_total,
            final(self).reconnects == old(self).reconnects,
            final(self).bytes_sent == old(self).bytes_sent,
            final(self).bytes_received == old(self).bytes_received,
            old(self).consistent() && old(self).requests_total < u64::MAX ==> final(self).consistent(),
            final(self).counts() == counts_step(old(self).counts(), duration_micros, success),
    {
        proof {
            let h = self.latency_buckets@;
            let k = latency_bucket(duration_micros);
            if self.consistent() && self.requests_total < u64::MAX {
                lemma_bucket_le_prefix_sum(h, k, BUCKETS as int);
                lemma_prefix_sum_update(h, k, BUCKETS as int);
            }
        }
        self.requests_total = inc_wrapping(self.requests_total);
        if success {
            self.requests_success = inc_wrapping(self.requests_success);
        } else {
            self.requests_failed = inc_wrapping(self.requests_failed);
        }
        let b = bucket_of(duration_micros);
        let c = self.latency_buckets[b];
        self.latency_buckets.set(b, inc_wrapping(c));
    }

    pub fn snapshot(&self) -> (s: MetricsSnapshot)
        ensures
            s.requests_total == self.requests_total,
            s.requests_success == self.requests_success,
            s.requests_failed == self.requests_failed,
            s.latency_histogram@ == self.latency_buckets@,
            s.connections_active == self.connections_active,
            s.bytes_sent == self.bytes_sent,
            s.bytes_received == self.bytes_received,
    {
        let mut h: Vec<u64> = Vec::new();
        let mut i: usize = 0;
        while i < self.latency_buckets.len()
            invariant
                i <= self.latency_buckets@.len(),
                h@ == self.latency_buckets@.take(i as int),
            decreases self.latency_buckets@.len() - i,
        {
            h.push(self.latency_buckets[i]);
            i = i + 1;
            proof {
                assert(h@ =~= self.latency_buckets@.take(i as int));
            }
        }
        proof {
            assert(h@ =~= self.latency_buckets@);
        }
        MetricsSnapshot {
            requests_total: self.requests_total,
            requests_success: self.requests_success,
            requests_failed: self.requests_failed,
            latency_histogram: h,
            connections_active: self.connections_active,
            bytes_sent: self.bytes_sent,
            bytes_received: self.bytes_received,
        }
    }
}

/// The sum of the first `n` counts.
pub open spec fn prefix_sum(h: Seq<u64>, n: int) -> int
    decreases n,
{
    if n <= 0 || h.len() == 0 {
        0
    } else if n > h.len() {
        prefix_sum(h, h.len() as int)
    } else {
        prefix_sum(h, n - 1) + h[n - 1]
    }
}

/// The first bucket at which the running count reaches `target`, searching
/// from bucket `from`; the histogram's length when none does.
pub open spec fn reach_bucket(h: Seq<u64>, target: int, from: int) -> int
    decreases h.len() - from,
{
    if from >= h.len() || from < 0 {
        h.len() as int
    } else if prefix_sum(h, from + 1) >= target {
        from
    } else {
        reach_bucket(h, target, from + 1)
    }
}

pub open spec fn bucket_label(i: int) -> Seq<char> {
    if i == 0 { "<1ms"@ }
    else if i == 1 { "<5ms"@ }
    else if i == 2 { "<10ms"@ }
    else if i == 3 { "<50ms"@ }
    else if i == 4 { "<100ms"@ }
    else if i == 5 { "<500ms"@ }
    else if i == 6 { "<1s"@ }
    else if i == 7 { "<5s"@ }
    else if i == 8 { "<10s"@ }
    else { ">10s"@ }
}

fn label_of(i: usize) -> (s: &'static str)
    requires
        i < BUCKETS,
    ensures
        s@ == bucket_label(i as int),
{
    if i == 0 { "<1ms" }
    else if i == 1 { "<5ms" }
    else if i == 2 { "<10ms" }
    else if i == 3 { "<50ms" }
    else if i == 4 { "<100ms" }
    else if i == 5 { "<500ms" }
    else if i == 6 { "<1s" }
    else if i == 7 { "<5s" }
    else if i == 8 { "<10s" }
    else { ">10s" }
}

/// The label of the bucket holding the `p`-th percentile of `h`:
/// "N/A" for an empty histogram.
pub open spec fn percentile_label(h: Seq<u64>, p: u64) -> Seq<char> {
    let total = prefix_sum(h, h.len() as int);
    if total == 0 {
        "N/A"@
    } else {
        let i = reach_bucket(h, (total * p) / 100, 0);
        if i < h.len() { bucket_label(i) } else { ">10s"@ }
    }
}

/// The inputs on which the percentile can be computed: the sum and the
/// scaled target fit in 64 bits, and the bucket found has a label.
pub open spec fn percentile_defined(h: Seq<u64>, p: u64) -> bool {
    let total = prefix_sum(h, h.len() as int);
    &&& total * p <= u64::MAX
    &&& total <= u64::MAX
    &&& (total == 0 || reach_bucket(h, (total * p) / 100, 0) < BUCKETS
        || reach_bucket(h, (total * p) / 100, 0) == h.len())
}

proof fn lemma_prefix_monotone(h: Seq<u64>, a: int, b: int)
    requires
        0 <= a <= b <= h.len(),
    ensures
        prefix_sum(h, a) <= prefix_sum(h, b),
    decreases b - a,
{
    if a < b {
        lemma_prefix_monotone(h, a, b - 1);
    }
}

/// The running count through bucket `k` is still below `target`.
pub open spec fn below_target(h: Seq<u64>, target: int, k: int) -> bool {
    prefix_sum(h, k + 1) < target
}

proof fn lemma_reach_skip(h: Seq<u64>, target: int, from: int, i: int)
    requires
        0 <= from <= i <= h.len(),
        forall|k: int| from <= k < i ==> #[trigger] below_target(h, target, k),
    ensures
        reach_bucket(h, target, from) == reach_bucket(h, target, i),
    decreases i - from,
{
    if from < i {
        assert(below_target(h, target, from));
        lemma_reach_skip(h, target, from + 1, i);
    }
}

proof fn lemma_reach_at_least(h: Seq<u64>, target: int, from: int)
    requires
        0 <= from <= h.len(),
    ensures
        from <= reach_bucket(h, target, from) <= h.len(),
    decreases h.len() - from,
{
    if from < h.len() && prefix_sum(h, from + 1) < target {
        lemma_reach_at_least(h, target, from + 1);
    }
}

proof fn lemma_reach_monotone(h: Seq<u64>, t1: int, t2: int, from: int)
    requires
        0 <= from <= h.len(),
        t1 <= t2,
    ensures
        reach_bucket(h, t1, from) <= reach_bucket(h, t2, from),
    decreases h.len() - from,
{
    if from < h.len() {
        if prefix_sum(h, from + 1) >= t1 {
            lemma_reach_at_least(h, t2, from);
        } else {
            lemma_reach_monotone(h, t1, t2, from + 1);
        }
    }
}

proof fn lemma_reach_least_from(h: Seq<u64>, target: int, from: int)
    requires
        0 <= from <= h.len(),
    ensures
        ({
            let i = reach_bucket(h, target, from);
            &&& i < h.len() ==> prefix_sum(h, i + 1) >= target
            &&& forall|j: int| from <= j < i ==> #[trigger] prefix_sum(h, j + 1) < target
        }),
    decreases h.len() - from,
{
    if from < h.len() && prefix_sum(h, from + 1) < target {
        lemma_reach_least_from(h, target, from + 1);
    }
}

/// The bucket found for a target is the first one at which the running
/// count reaches it: every earlier bucket leaves the count below the
/// target, and the bucket found (if any) reaches it.
pub proof fn lemma_reach_is_least(h: Seq<u64>, target: int)
    ensures
        ({
            let i = reach_bucket(h, target, 0);
            &&& 0 <= i <= h.len()
            &&& i < h.len() ==> prefix_sum(h, i + 1) >= target
            &&& forall|j: int| 0 <= j < i ==> #[trigger] prefix_sum(h, j + 1) < target
        }),
{
    lemma_reach_least_from(h, target, 0);
    lemma_reach_at_least(h, target, 0);
}

/// A higher percentile never lies in an earlier latency bucket: the bucket
/// at which the running count reaches the `p1`-th percentile comes no later
/// than the one for `p2` when `p1 <= p2`.
pub proof fn lemma_percentile_monotone(h: Seq<u64>, p1: u64, p2: u64)
    requires
        p1 <= p2,
    ensures
        ({
            let total = prefix_sum(h, h.len() as int);
            reach_bucket(h, (total * p1) / 100, 0) <= reach_bucket(h, (total * p2) / 100, 0)
        }),
{
    let total = prefix_sum(h, h.len() as int);
    lemma_prefix_sum_nonneg(h, h.len() as int);
    assert((total * p1) / 100 <= (total * p2) / 100) by (nonlinear_arith)
        requires
            total >= 0,
            p1 <= p2,
    ;
    lemma_reach_monotone(h, (total * p1) / 100, (total * p2) / 100, 0);
}

impl MetricsSnapshot {
    pub fn p50_latency(&self) -> (s: &'static str)
        requires
            percentile_defined(self.latency_histogram@, 50),
        ensures
            s@ == percentile_label(self.latency_histogram@, 50),
    {
        self.percentile_bucket(50)
    }

    pub fn p99_latency(&self) -> (s: &'static str)
        requires
            percentile_defined(self.latency_histogram@, 99),
        ensures
            s@ == percentile_label(self.latency_histogram@, 99),
    {
        self.percentile_bucket(99)
    }

    fn percentile_bucket(&self, p: u64) -> (s: &'static str)
        requires
            percentile_defined(self.latency_histogram@, p),
        ensures
            s@ == percentile_label(self.latency_histogram@, p),
    {
        let h = &self.latency_histogram;
        let ghost hs = h@;
        let n = h.len();
        let mut total: u64 = 0;
        let mut i: usize = 0;
        while i < n
            invariant
                n == hs.len(),
                h@ == hs,
                self.latency_histogram@ == hs,
                i <= n,
                total == prefix_sum(hs, i as int),
                prefix_sum(hs, n as int) <= u64::MAX,
            decreases n - i,
        {
            proof {
                lemma_prefix_monotone(hs, i + 1, n as int);
            }
            total = total + h[i];
            i = i + 1;
        }
        if total == 0 {
            return "N/A";
        }
        let target = (total * p) / 100;
        let mut cumulative: u64 = 0;
        let mut i: usize = 0;
        while i < n
            invariant
                n == hs.len(),
                h@ == hs,
                self.latency_histogram@ == hs,
                i <= n,
                total == prefix_sum(hs, n as int),
                total > 0,
                target == (total * p) / 100,
                cumulative == prefix_sum(hs, i as int),
                forall|k: int| 0 <= k < i ==> #[trigger] below_target(hs, target as int, k),
                percentile_defined(hs, p),
            decreases n - i,
        {
            proof {
                lemma_prefix_monotone(hs, i + 1, n as int);
            }
            cumulative = cumulative + h[i];
            assert(cumulative == prefix_sum(hs, i + 1));
            if cumulative >= target {
                proof {
                    lemma_reach_skip(hs, target as int, 0, i as int);
                    assert(reach_bucket(hs, target as int, i as int) == i as int);
                }
                let s = label_of(i);
                return s;
            }
            assert(below_target(hs, target as int, i as int));
            i = i + 1;
        }
        proof {
            lemma_reach_skip(hs, target as int, 0, n as int);
        }
        ">10s"
    }
}

} // verus!
