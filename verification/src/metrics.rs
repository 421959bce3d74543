use crate::buffer::{bump, newest};
use std::collections::VecDeque;
use vstd::arithmetic::div_mod::lemma_div_is_ordered;
use vstd::arithmetic::mul::lemma_mul_inequality;
use vstd::multiset::Multiset;
use vstd::prelude::*;
use vstd::relations::{sorted_by, total_ordering};
use vstd::seq_lib::lemma_sorted_unique;

verus! {

/// The order on measurements.
pub open spec fn nanos_le() -> spec_fn(u64, u64) -> bool {
    |a: u64, b: u64| a <= b
}

/// The measurements in non-decreasing order.
pub open spec fn sorted_nanos(s: Seq<u64>) -> Seq<u64> {
    s.sort_by(nanos_le())
}

/// Calls `slice::sort_unstable` on the vector: afterwards its elements are
/// in non-decreasing order and are a permutation of those before.
#[verifier::external_body]
fn sort_nanos(v: &mut Vec<u64>)
    ensures
        sorted_by(final(v)@, nanos_le()),
        final(v)@.to_multiset() == old(v)@.to_multiset(),
{
    v.sort_unstable()
}

proof fn lemma_nanos_le_total()
    ensures
        total_ordering(nanos_le()),
{
}

/// A sorted permutation of the measurements is the one `sorted_nanos` names.
proof fn lemma_sorted_is_sorted_nanos(s: Seq<u64>, t: Seq<u64>)
    requires
        sorted_by(t, nanos_le()),
        t.to_multiset() == s.to_multiset(),
    ensures
        t == sorted_nanos(s),
{
    s.lemma_sort_by_ensures(nanos_le());
    lemma_nanos_le_total();
    lemma_sorted_unique(t, sorted_nanos(s), nanos_le());
}

/// The 0-based rank of the `percent`-th percentile among `n` measurements:
/// the ceiling of `n * percent / 100`, minus one, and 0 when that is 0.
pub open spec fn percentile_rank(n: nat, percent: nat) -> nat {
    let c = (n * percent + 99) / 100;
    if c > 0 {
        (c - 1) as nat
    } else {
        0
    }
}

/// The `percent`-th percentile of the measurements, in nanoseconds: the
/// measurement at `percentile_rank` in sorted order, or 0 when there is none.
pub open spec fn percentile_of(s: Seq<u64>, percent: nat) -> u64 {
    if s.len() == 0 {
        0
    } else {
        sorted_nanos(s)[percentile_rank(s.len(), percent) as int]
    }
}

/// The window after recording `x`: when it already holds `w` measurements
/// or more, the oldest leaves first.
pub open spec fn window_push(s: Seq<u64>, x: u64, w: nat) -> Seq<u64> {
    if s.len() >= w && s.len() > 0 {
        s.drop_first().push(x)
    } else {
        s.push(x)
    }
}

/// The window after recording each of `xs` in turn, starting from `s`.
pub open spec fn window_push_all(s: Seq<u64>, xs: Seq<u64>, w: nat) -> Seq<u64>
    decreases xs.len(),
{
    if xs.len() == 0 {
        s
    } else {
        window_push_all(window_push(s, xs[0], w), xs.drop_first(), w)
    }
}

/// The bound on the number of measurements a window of size `w` holds.
pub open spec fn window_bound(w: nat) -> nat {
    if w > 0 {
        w
    } else {
        1
    }
}

proof fn lemma_newest_of_newest(t: Seq<u64>, u: Seq<u64>, k: nat)
    requires
        k > 0,
    ensures
        newest(newest(t, k) + u, k) == newest(t + u, k),
{
    let a = newest(t, k);
    let tu = t + u;
    let n = tu.len();
    let m = (a + u).len();
    if t.len() > k {
        assert(a + u =~= tu.subrange(n - m, n as int));
        if m <= k {
            assert(tu.subrange(n - k, n as int) =~= a + u);
        } else {
            assert(newest(a + u, k) =~= tu.subrange(n - m, n as int).subrange(m - k, m as int));
            assert(tu.subrange(n - m, n as int).subrange(m - k, m as int) =~= tu.subrange(
                n - k,
                n as int,
            ));
        }
    }
}

proof fn lemma_window_push_is_newest(s: Seq<u64>, x: u64, w: nat)
    requires
        s.len() <= window_bound(w),
    ensures
        window_push(s, x, w) == newest(s.push(x), window_bound(w)),
{
    let t = s.push(x);
    if s.len() >= w && s.len() > 0 {
        assert(t.subrange(t.len() - window_bound(w), t.len() as int) =~= s.drop_first().push(x));
    }
}

proof fn lemma_window_push_all_from(s: Seq<u64>, xs: Seq<u64>, w: nat)
    requires
        s.len() <= window_bound(w),
    ensures
        window_push_all(s, xs, w) == newest(s + xs, window_bound(w)),
    decreases xs.len(),
{
    if xs.len() == 0 {
        assert(s + xs =~= s);
    } else {
        let s1 = window_push(s, xs[0], w);
        lemma_window_push_is_newest(s, xs[0], w);
        lemma_window_push_all_from(s1, xs.drop_first(), w);
        lemma_newest_of_newest(s.push(xs[0]), xs.drop_first(), window_bound(w));
        assert(s.push(xs[0]) + xs.drop_first() =~= s + xs);
    }
}

/// The sliding window: after any sequence of recordings into an empty
/// window of size `w`, the window holds exactly the newest `w` measurements
/// (the newest one when `w` is 0), oldest first.
pub proof fn lemma_window_holds_newest(xs: Seq<u64>, w: nat)
    ensures
        window_push_all(Seq::<u64>::empty(), xs, w) == newest(xs, window_bound(w)),
        window_push_all(Seq::<u64>::empty(), xs, w).len() == if xs.len() < window_bound(w) {
            xs.len()
        } else {
            window_bound(w)
        },
{
    lemma_window_push_all_from(Seq::<u64>::empty(), xs, w);
    assert(Seq::<u64>::empty() + xs =~= xs);
}

/// Recording one more measurement after a sequence of them is recording the
/// longer sequence.
proof fn lemma_window_push_all_snoc(s: Seq<u64>, xs: Seq<u64>, x: u64, w: nat)
    ensures
        window_push_all(s, xs.push(x), w) == window_push(window_push_all(s, xs, w), x, w),
    decreases xs.len(),
{
    if xs.len() == 0 {
        assert(xs.push(x).drop_first() =~= Seq::<u64>::empty());
        assert(xs.push(x)[0] == x);
        assert(window_push_all(window_push(s, x, w), Seq::<u64>::empty(), w) == window_push(
            s,
            x,
            w,
        ));
    } else {
        assert(xs.push(x).drop_first() =~= xs.drop_first().push(x));
        assert(xs.push(x)[0] == xs[0]);
        lemma_window_push_all_snoc(window_push(s, xs[0], w), xs.drop_first(), x, w);
    }
}

/// A percentile tracker over a sliding window of the most recent
/// measurements.
pub struct PercentileTracker {
    measurements: VecDeque<u64>,
    window_size: usize,
}

impl PercentileTracker {
    /// The measurements in the window, oldest first.
    pub closed spec fn window(&self) -> Seq<u64> {
        self.measurements@
    }

    /// The size of the window.
    pub closed spec fn window_size_spec(&self) -> nat {
        self.window_size as nat
    }

    /// The tracker's invariant: the window holds at most `window_size`
    /// measurements (at most one when the size is 0).
    pub closed spec fn wf(&self) -> bool {
        self.measurements@.len() <= if self.window_size > 0 {
            self.window_size as nat
        } else {
            1
        }
    }

    /// Creates a tracker with an empty window of the given size.
    pub fn new(window_size: usize) -> (t: Self)
        ensures
            t.wf(),
            t.window() == Seq::<u64>::empty(),
            t.window_size_spec() == window_size,
    {
        PercentileTracker { measurements: VecDeque::with_capacity(window_size), window_size }
    }

    /// Records a measurement in nanoseconds; when the window is full the
    /// oldest measurement leaves.
    pub fn record(&mut self, nanos: u64)
        requires
            old(self).wf(),
        ensures
            final(self).wf(),
            final(self).window() == window_push(
                old(self).window(),
                nanos,
                old(self).window_size_spec(),
            ),
            final(self).window_size_spec() == old(self).window_size_spec(),
    {
        if self.measurements.len() >= self.window_size {
            let _ = self.measurements.pop_front();
        }
        self.measurements.push_back(nanos);
    }

    /// The `percent`-th percentile of the window in nanoseconds, or 0 when
    /// the window is empty.
    pub fn percentile_nanos(&self, percent: u64) -> (p: u64)
        requires
            percent <= 100,
        ensures
            p == percentile_of(self.window(), percent as nat),
            self.window().len() > 0 ==> {
                let c = (self.window().len() * percent + 99) / 100;
                let k = if c > 0 {
                    c
                } else {
                    1
                };
                &&& self.window().contains(p)
                &&& self.window().filter(below(p)).len() < k
                &&& self.window().filter(at_most(p)).len() >= k
            },
    {
        let n = self.measurements.len();
        if n == 0 {
            return 0;
        }
        proof {
            lemma_percentile_is_order_statistic(self.measurements@, percent as nat);
        }
        let mut sorted: Vec<u64> = Vec::new();
        let mut i: usize = 0;
        while i < n
            invariant
                n == self.measurements@.len(),
                i <= n,
                sorted@ == self.measurements@.subrange(0, i as int),
            decreases n - i,
        {
            sorted.push(self.measurements[i]);
            i = i + 1;
        }
        assert(sorted@ == self.measurements@);
        sort_nanos(&mut sorted);
        proof {
            lemma_sorted_is_sorted_nanos(self.measurements@, sorted@);
            sorted@.to_multiset_ensures();
            self.measurements@.to_multiset_ensures();
        }
        assert(n as u128 * percent as u128 <= n as u128 * 100) by (nonlinear_arith)
            requires
                percent <= 100,
        ;
        let c: u128 = (n as u128 * percent as u128 + 99) / 100;
        proof {
            lemma_rank_in_range(n as nat, percent as nat);
        }
        let idx: usize = if c > 0 {
            (c - 1) as usize
        } else {
            0
        };
        sorted[idx]
    }

    /// The median of the window in nanoseconds.
    pub fn p50_nanos(&self) -> (p: u64)
        ensures
            p == percentile_of(self.window(), 50),
    {
        self.percentile_nanos(50)
    }

    /// The 95th percentile of the window in nanoseconds.
    pub fn p95_nanos(&self) -> (p: u64)
        ensures
            p == percentile_of(self.window(), 95),
    {
        self.percentile_nanos(95)
    }

    /// The 99th percentile of the window in nanoseconds.
    pub fn p99_nanos(&self) -> (p: u64)
        ensures
            p == percentile_of(self.window(), 99),
    {
        self.percentile_nanos(99)
    }

    /// The number of measurements in the window.
    pub fn count(&self) -> (n: usize)
        ensures
            n == self.window().len(),
    {
        self.measurements.len()
    }
}

/// The rank of a percentile lies inside the window.
proof fn lemma_rank_in_range(n: nat, percent: nat)
    requires
        n > 0,
        percent <= 100,
    ensures
        percentile_rank(n, percent) < n,
        (n * percent + 99) / 100 <= n,
{
    lemma_mul_inequality(percent as int, 100, n as int);
    assert(n * percent <= n * 100) by (nonlinear_arith)
        requires
            percent <= 100,
    ;
    lemma_div_is_ordered((n * percent + 99) as int, (n * 100 + 99) as int, 100);
    assert((n * 100 + 99) / 100 == n) by (nonlinear_arith);
}

/// A higher percentile is never below a lower one: for the same window,
/// `percentile_of` is monotonic in the percent.
pub proof fn lemma_percentile_monotonic(s: Seq<u64>, p: nat, q: nat)
    requires
        p <= q <= 100,
    ensures
        percentile_of(s, p) <= percentile_of(s, q),
{
    if s.len() > 0 {
        let n = s.len();
        assert(n * p <= n * q) by (nonlinear_arith)
            requires
                p <= q,
        ;
        lemma_div_is_ordered((n * p + 99) as int, (n * q + 99) as int, 100);
        lemma_rank_in_range(n, p);
        lemma_rank_in_range(n, q);
        s.lemma_sort_by_ensures(nanos_le());
        let t = sorted_nanos(s);
        let i = percentile_rank(n, p) as int;
        let j = percentile_rank(n, q) as int;
        assert(t.len() == n) by {
            assert(t.to_multiset().len() == s.to_multiset().len());
            t.to_multiset_ensures();
            s.to_multiset_ensures();
        }
        if i < j {
            assert(nanos_le()(t[i], t[j]));
        }
    }
}

/// A percentile of a non-empty window is one of its measurements.
pub proof fn lemma_percentile_is_a_measurement(s: Seq<u64>, p: nat)
    requires
        s.len() > 0,
        p <= 100,
    ensures
        s.contains(percentile_of(s, p)),
{
    s.lemma_sort_by_ensures(nanos_le());
    let t = sorted_nanos(s);
    lemma_rank_in_range(s.len(), p);
    t.to_multiset_ensures();
    s.to_multiset_ensures();
    let i = percentile_rank(s.len(), p) as int;
    assert(t.contains(t[i]));
}

/// Measurements strictly below `r`.
pub open spec fn below(r: u64) -> spec_fn(u64) -> bool {
    |x: u64| x < r
}

/// Measurements at most `r`.
pub open spec fn at_most(r: u64) -> spec_fn(u64) -> bool {
    |x: u64| x <= r
}

/// How many elements satisfy a predicate does not depend on their order.
proof fn lemma_filter_len_by_multiset(s: Seq<u64>, f: spec_fn(u64) -> bool)
    ensures
        s.filter(f).len() == s.to_multiset().filter(f).len(),
    decreases s.len(),
{
    broadcast use vstd::multiset::group_multiset_axioms;

    reveal(Seq::filter);
    if s.len() == 0 {
        s.to_multiset_ensures();
        vstd::multiset::lemma_multiset_empty_len(s.to_multiset());
        assert(Multiset::<u64>::empty().filter(f) =~= Multiset::<u64>::empty());
    } else {
        let d = s.drop_last();
        let x = s.last();
        lemma_filter_len_by_multiset(d, f);
        assert(d.push(x) =~= s);
        d.to_multiset_ensures();
        let m = d.to_multiset();
        assert(s.to_multiset() =~= m.insert(x));
        if f(x) {
            assert(m.insert(x).filter(f) =~= m.filter(f).insert(x));
        } else {
            assert(m.insert(x).filter(f) =~= m.filter(f));
        }
    }
}

/// A sequence all of whose elements satisfy a predicate is its own filter.
proof fn lemma_filter_keeps_all(t: Seq<u64>, f: spec_fn(u64) -> bool)
    requires
        forall|i: int| 0 <= i < t.len() ==> f(#[trigger] t[i]),
    ensures
        t.filter(f) == t,
    decreases t.len(),
{
    reveal(Seq::filter);
    if t.len() > 0 {
        lemma_filter_keeps_all(t.drop_last(), f);
        assert(t.drop_last().push(t.last()) =~= t);
    }
}

/// The percentile as an order statistic, stated by counting the window: a
/// percentile `p` of a non-empty window of `n` measurements is one of them,
/// fewer than `k` measurements lie strictly below it and at least `k` lie at
/// or below it, where `k` is the ceiling of `n * p / 100` (at least 1).
pub proof fn lemma_percentile_is_order_statistic(s: Seq<u64>, p: nat)
    requires
        s.len() > 0,
        p <= 100,
    ensures
        ({
            let r = percentile_of(s, p);
            let c = (s.len() * p + 99) / 100;
            let k = if c > 0 {
                c
            } else {
                1
            };
            &&& s.contains(r)
            &&& s.filter(below(r)).len() < k
            &&& s.filter(at_most(r)).len() >= k
        }),
{
    let n = s.len();
    let t = sorted_nanos(s);
    s.lemma_sort_by_ensures(nanos_le());
    lemma_rank_in_range(n, p);
    lemma_percentile_is_a_measurement(s, p);
    t.to_multiset_ensures();
    s.to_multiset_ensures();
    assert(t.len() == n);
    let i = percentile_rank(n, p) as int;
    let r = t[i];
    assert(r == percentile_of(s, p));
    // Counting below r.
    let lo = t.take(i);
    let hi = t.skip(i);
    assert(t =~= lo + hi);
    Seq::filter_distributes_over_add(lo, hi, below(r));
    assert forall|j: int| 0 <= j < hi.len() implies !below(r)(#[trigger] hi[j]) by {
        assert(hi[j] == t[i + j]);
        if j > 0 {
            assert(nanos_le()(t[i], t[i + j]));
        }
    }
    hi.lemma_all_neg_filter_empty(below(r));
    lo.lemma_filter_len(below(r));
    lemma_filter_len_by_multiset(s, below(r));
    lemma_filter_len_by_multiset(t, below(r));
    // Counting at or below r.
    let lo2 = t.take(i + 1);
    let hi2 = t.skip(i + 1);
    assert(t =~= lo2 + hi2);
    Seq::filter_distributes_over_add(lo2, hi2, at_most(r));
    assert forall|j: int| 0 <= j < lo2.len() implies at_most(r)(#[trigger] lo2[j]) by {
        assert(lo2[j] == t[j]);
        if j < i {
            assert(nanos_le()(t[j], t[i]));
        }
    }
    lemma_filter_keeps_all(lo2, at_most(r));
    lemma_filter_len_by_multiset(s, at_most(r));
    lemma_filter_len_by_multiset(t, at_most(r));
}

/// Per-stage counters and latency percentiles. Counters wrap around at
/// `u64::MAX`.
pub struct StageMetrics {
    messages_processed: u64,
    messages_dropped: u64,
    blocks: u64,
    latency_tracker: PercentileTracker,
}

/// A counter advanced by `n` events, wrapping around at `u64::MAX`.
pub open spec fn advance(c: u64, n: u64) -> u64 {
    ((c + n) % 0x1_0000_0000_0000_0000) as u64
}

fn advance_exec(c: u64, n: u64) -> (r: u64)
    ensures
        r == advance(c, n),
{
    let s: u128 = c as u128 + n as u128;
    (s % 0x1_0000_0000_0000_0000u128) as u64
}

/// A counter after `n` single events, one at a time.
pub open spec fn bump_n(c: u64, n: nat) -> u64
    decreases n,
{
    if n == 0 {
        c
    } else {
        bump(bump_n(c, (n - 1) as nat))
    }
}

/// Adding `n` events at once gives what recording them one by one gives,
/// with the same wrap-around at `u64::MAX`.
pub proof fn lemma_counts_add_up(c: u64, n: u64)
    ensures
        bump_n(c, n as nat) == advance(c, n),
    decreases n,
{
    let m: int = 0x1_0000_0000_0000_0000;
    if n == 0 {
        vstd::arithmetic::div_mod::lemma_small_mod(c as nat, m as nat);
    } else {
        lemma_counts_add_up(c, (n - 1) as u64);
        let x = advance(c, (n - 1) as u64);
        vstd::arithmetic::div_mod::lemma_add_mod_noop_right(1, c + n - 1, m);
        assert((1 + (c + n - 1) % m) % m == (c + n) % m);
        if x < u64::MAX {
            vstd::arithmetic::div_mod::lemma_small_mod((x + 1) as nat, m as nat);
        } else {
            assert(x + 1 == m);
        }
    }
}

impl StageMetrics {
    /// The number of messages processed.
    pub closed spec fn processed_spec(&self) -> u64 {
        self.messages_processed
    }

    /// The number of messages dropped.
    pub closed spec fn dropped_spec(&self) -> u64 {
        self.messages_dropped
    }

    /// The number of block events.
    pub closed spec fn blocks_spec(&self) -> u64 {
        self.blocks
    }

    /// The latency measurements in the window, oldest first.
    pub closed spec fn latencies(&self) -> Seq<u64> {
        self.latency_tracker.window()
    }

    /// The size of the latency window.
    pub closed spec fn latency_window_size(&self) -> nat {
        self.latency_tracker.window_size_spec()
    }

    /// The invariant of the latency tracker.
    pub closed spec fn wf(&self) -> bool {
        self.latency_tracker.wf()
    }

    /// Creates zeroed counters with a latency window of 1000 measurements.
    pub fn new() -> (m: Self)
        ensures
            m.wf(),
            m.processed_spec() == 0,
            m.dropped_spec() == 0,
            m.blocks_spec() == 0,
            m.latencies() == Seq::<u64>::empty(),
            m.latency_window_size() == 1000,
    {
        StageMetrics {
            messages_processed: 0,
            messages_dropped: 0,
            blocks: 0,
            latency_tracker: PercentileTracker::new(1000),
        }
    }

    /// Records a processed message.
    pub fn record_processed(&mut self)
        ensures
            final(self).processed_spec() == bump(old(self).processed_spec()),
            final(self).dropped_spec() == old(self).dropped_spec(),
            final(self).blocks_spec() == old(self).blocks_spec(),
            final(self).latencies() == old(self).latencies(),
            final(self).latency_window_size() == old(self).latency_window_size(),
            final(self).wf() == old(self).wf(),
    {
        self.messages_processed = advance_exec(self.messages_processed, 1);
    }

    /// Records a dropped message.
    pub fn record_dropped(&mut self)
        ensures
            final(self).processed_spec() == old(self).processed_spec(),
            final(self).dropped_spec() == bump(old(self).dropped_spec()),
            final(self).blocks_spec() == old(self).blocks_spec(),
            final(self).latencies() == old(self).latencies(),
            final(self).latency_window_size() == old(self).latency_window_size(),
            final(self).wf() == old(self).wf(),
    {
        self.messages_dropped = advance_exec(self.messages_dropped, 1);
    }

    /// Records a block event (backpressure triggered).
    pub fn record_block(&mut self)
        ensures
            final(self).processed_spec() == old(self).processed_spec(),
            final(self).dropped_spec() == old(self).dropped_spec(),
            final(self).blocks_spec() == bump(old(self).blocks_spec()),
            final(self).latencies() == old(self).latencies(),
            final(self).latency_window_size() == old(self).latency_window_size(),
            final(self).wf() == old(self).wf(),
    {
        self.blocks = advance_exec(self.blocks, 1);
    }

    /// Records a latency measurement in nanoseconds.
    pub fn record_latency(&mut self, nanos: u64)
        requires
            old(self).wf(),
        ensures
            final(self).wf(),
            final(self).latencies() == window_push(
                old(self).latencies(),
                nanos,
                old(self).latency_window_size(),
            ),
            final(self).latency_window_size() == old(self).latency_window_size(),
            final(self).processed_spec() == old(self).processed_spec(),
            final(self).dropped_spec() == old(self).dropped_spec(),
            final(self).blocks_spec() == old(self).blocks_spec(),
    {
        self.latency_tracker.record(nanos);
    }

    /// Adds another collector's processed and dropped counts to these.
    pub fn add_counts_from(&mut self, other: &StageMetrics)
        ensures
            final(self).processed_spec() == advance(
                old(self).processed_spec(),
                other.processed_spec(),
            ),
            final(self).dropped_spec() == advance(old(self).dropped_spec(), other.dropped_spec()),
            final(self).blocks_spec() == old(self).blocks_spec(),
            final(self).latencies() == old(self).latencies(),
            final(self).latency_window_size() == old(self).latency_window_size(),
            final(self).wf() == old(self).wf(),
    {
        self.messages_processed = advance_exec(self.messages_processed, other.messages_processed);
        self.messages_dropped = advance_exec(self.messages_dropped, other.messages_dropped);
    }

    /// Records another collector's latency measurements, oldest first, into
    /// this window.
    pub fn record_latencies_from(&mut self, other: &StageMetrics)
        requires
            old(self).wf(),
        ensures
            final(self).wf(),
            final(self).latencies() == window_push_all(
                old(self).latencies(),
                other.latencies(),
                old(self).latency_window_size(),
            ),
            final(self).latency_window_size() == old(self).latency_window_size(),
            final(self).processed_spec() == old(self).processed_spec(),
            final(self).dropped_spec() == old(self).dropped_spec(),
            final(self).blocks_spec() == old(self).blocks_spec(),
    {
        let ghost start = self.latencies();
        let ghost xs = other.latencies();
        let n = other.latency_tracker.measurements.len();
        let mut i: usize = 0;
        assert(xs.subrange(0, 0) =~= Seq::<u64>::empty());
        while i < n
            invariant
                n == xs.len(),
                xs == other.latency_tracker.measurements@,
                i <= n,
                self.wf(),
                self.latencies() == window_push_all(start, xs.subrange(0, i as int), self.latency_window_size()),
                self.latency_window_size() == old(self).latency_window_size(),
                self.processed_spec() == old(self).processed_spec(),
                self.dropped_spec() == old(self).dropped_spec(),
                self.blocks_spec() == old(self).blocks_spec(),
            decreases n - i,
        {
            let x = other.latency_tracker.measurements[i];
            proof {
                assert(xs.subrange(0, i + 1) =~= xs.subrange(0, i as int).push(x));
                lemma_window_push_all_snoc(start, xs.subrange(0, i as int), x, self.latency_window_size());
            }
            self.latency_tracker.record(x);
            i = i + 1;
        }
        assert(xs.subrange(0, n as int) =~= xs);
    }

    /// The total number of messages processed.
    pub fn total_processed(&self) -> (n: u64)
        ensures
            n == self.processed_spec(),
    {
        self.messages_processed
    }

    /// The total number of messages dropped.
    pub fn total_dropped(&self) -> (n: u64)
        ensures
            n == self.dropped_spec(),
    {
        self.messages_dropped
    }

    /// The total number of block events.
    pub fn total_blocks(&self) -> (n: u64)
        ensures
            n == self.blocks_spec(),
    {
        self.blocks
    }

    /// The `percent`-th percentile of the latency window in nanoseconds.
    pub fn latency_percentile_nanos(&self, percent: u64) -> (p: u64)
        requires
            percent <= 100,
        ensures
            p == percentile_of(self.latencies(), percent as nat),
    {
        self.latency_tracker.percentile_nanos(percent)
    }
}

impl Default for StageMetrics {
    fn default() -> (m: Self)
        ensures
            m.wf(),
            m.processed_spec() == 0,
            m.dropped_spec() == 0,
            m.blocks_spec() == 0,
            m.latencies() == Seq::<u64>::empty(),
            m.latency_window_size() == 1000,
    {
        Self::new()
    }
}

} // verus!
