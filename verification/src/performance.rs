//! Timing and memory statistics of an ECS-driven UI, and the advice drawn
//! from them.

use vstd::prelude::*;
use vstd::string::*;
use std::time::{Duration, Instant};
use crate::durations::{duration_nanos, duration_quotient, max_duration_nanos, duration_as_nanos, duration_div, duration_from_nanos};

verus! {

// ---------------------------------------------------------------------------
// Sums and sorted orders of sequences of integers.

/// The sum of a sequence of nanosecond counts.
pub open spec fn sum_nanos(s: Seq<u128>) -> nat
    decreases s.len(),
{
    if s.len() == 0 {
        0
    } else {
        (s[0] + sum_nanos(s.drop_first())) as nat
    }
}

/// The sum of a sequence of byte counts.
pub open spec fn sum_bytes(s: Seq<u64>) -> nat
    decreases s.len(),
{
    if s.len() == 0 {
        0
    } else {
        (s[0] + sum_bytes(s.drop_first())) as nat
    }
}

/// The largest of a sequence of byte counts; 0 for none.
pub open spec fn max_bytes(s: Seq<u64>) -> u64
    decreases s.len(),
{
    if s.len() == 0 {
        0
    } else {
        let rest = max_bytes(s.drop_first());
        if s[0] >= rest { s[0] } else { rest }
    }
}

/// `t` with `x` put in front of its first element greater than `x`.
pub open spec fn insert_sorted(t: Seq<u128>, x: u128) -> Seq<u128>
    decreases t.len(),
{
    if t.len() == 0 {
        seq![x]
    } else if x < t[0] {
        seq![x] + t
    } else {
        seq![t[0]] + insert_sorted(t.drop_first(), x)
    }
}

/// The elements of `s` in ascending order.
pub open spec fn sorted_nanos(s: Seq<u128>) -> Seq<u128>
    decreases s.len(),
{
    if s.len() == 0 {
        Seq::empty()
    } else {
        insert_sorted(sorted_nanos(s.drop_last()), s.last())
    }
}

/// Whether a sequence is in ascending order.
pub open spec fn ascending(s: Seq<u128>) -> bool {
    forall|i: int, j: int| 0 <= i <= j < s.len() ==> s[i] <= s[j]
}

/// Appending adds to the sum.
pub proof fn lemma_sum_push(s: Seq<u128>, x: u128)
    ensures
        sum_nanos(s.push(x)) == sum_nanos(s) + x,
    decreases s.len(),
{
    if s.len() > 0 {
        assert(s.push(x).drop_first() =~= s.drop_first().push(x));
        lemma_sum_push(s.drop_first(), x);
    } else {
        assert(s.push(x).drop_first() =~= s);
    }
}

/// Appending adds to the sum.
pub proof fn lemma_sum_bytes_push(s: Seq<u64>, x: u64)
    ensures
        sum_bytes(s.push(x)) == sum_bytes(s) + x,
    decreases s.len(),
{
    if s.len() > 0 {
        assert(s.push(x).drop_first() =~= s.drop_first().push(x));
        lemma_sum_bytes_push(s.drop_first(), x);
    } else {
        assert(s.push(x).drop_first() =~= s);
    }
}

/// Appending keeps the larger of the old largest and the new element.
pub proof fn lemma_max_bytes_push(s: Seq<u64>, x: u64)
    ensures
        max_bytes(s.push(x)) == if max_bytes(s) >= x { max_bytes(s) } else { x },
    decreases s.len(),
{
    if s.len() > 0 {
        assert(s.push(x).drop_first() =~= s.drop_first().push(x));
        lemma_max_bytes_push(s.drop_first(), x);
    } else {
        assert(s.push(x).drop_first() =~= s);
    }
}

/// A prefix sums to no more than the whole.
pub proof fn lemma_prefix_sum_le(s: Seq<u128>, i: int)
    requires
        0 <= i <= s.len(),
    ensures
        sum_nanos(s.subrange(0, i)) <= sum_nanos(s),
    decreases s.len(),
{
    if i < s.len() {
        lemma_prefix_sum_le(s.drop_last(), i);
        assert(s.drop_last().subrange(0, i) =~= s.subrange(0, i));
        lemma_sum_push(s.drop_last(), s.last());
        assert(s.drop_last().push(s.last()) =~= s);
    } else {
        assert(s.subrange(0, i) =~= s);
    }
}

/// A prefix sums to no more than the whole.
pub proof fn lemma_prefix_sum_bytes_le(s: Seq<u64>, i: int)
    requires
        0 <= i <= s.len(),
    ensures
        sum_bytes(s.subrange(0, i)) <= sum_bytes(s),
    decreases s.len(),
{
    if i < s.len() {
        lemma_prefix_sum_bytes_le(s.drop_last(), i);
        assert(s.drop_last().subrange(0, i) =~= s.subrange(0, i));
        lemma_sum_bytes_push(s.drop_last(), s.last());
        assert(s.drop_last().push(s.last()) =~= s);
    } else {
        assert(s.subrange(0, i) =~= s);
    }
}

/// Inserting `x` before the first element greater than it, at index `k`.
pub proof fn lemma_insert_sorted_at(t: Seq<u128>, x: u128, k: int)
    requires
        0 <= k <= t.len(),
        forall|j: int| 0 <= j < k ==> t[j] <= x,
        k < t.len() ==> t[k] > x,
    ensures
        insert_sorted(t, x) == t.insert(k, x),
    decreases t.len(),
{
    if t.len() == 0 {
        assert(t.insert(k, x) =~= seq![x]);
    } else if k == 0 {
        assert(t.insert(0, x) =~= seq![x] + t);
    } else {
        lemma_insert_sorted_at(t.drop_first(), x, k - 1);
        assert(t.insert(k, x) =~= seq![t[0]] + t.drop_first().insert(k - 1, x));
    }
}

/// Inserting keeps the sum honest and the order ascending.
pub proof fn lemma_insert_sorted_props(t: Seq<u128>, x: u128)
    ensures
        insert_sorted(t, x).len() == t.len() + 1,
        sum_nanos(insert_sorted(t, x)) == sum_nanos(t) + x,
        ascending(t) ==> ascending(insert_sorted(t, x)),
        forall|v: u128| #[trigger] insert_sorted(t, x).contains(v) ==> v == x || t.contains(v),
    decreases t.len(),
{
    if t.len() == 0 {
        assert(insert_sorted(t, x) =~= seq![x]);
        assert(seq![x].drop_first() =~= Seq::<u128>::empty());
        assert(sum_nanos(seq![x]) == x + sum_nanos(seq![x].drop_first()));
    } else if x < t[0] {
        let r = seq![x] + t;
        assert(r.drop_first() =~= t);
        assert(sum_nanos(r) == r[0] + sum_nanos(r.drop_first()));
        assert forall|v: u128| #[trigger] r.contains(v) implies v == x || t.contains(v) by {
            let i = choose|i: int| 0 <= i < r.len() && r[i] == v;
            if i > 0 {
                assert(t[i - 1] == v);
            }
        }
    } else {
        let rest = insert_sorted(t.drop_first(), x);
        lemma_insert_sorted_props(t.drop_first(), x);
        let r = seq![t[0]] + rest;
        assert(r.drop_first() =~= rest);
        assert(sum_nanos(r) == r[0] + sum_nanos(r.drop_first()));
        assert(t =~= seq![t[0]] + t.drop_first());
        assert forall|v: u128| #[trigger] r.contains(v) implies v == x || t.contains(v) by {
            let i = choose|i: int| 0 <= i < r.len() && r[i] == v;
            if i > 0 {
                assert(rest[i - 1] == v);
                assert(rest.contains(v));
                if v != x {
                    let j = choose|j: int| 0 <= j < t.drop_first().len() && t.drop_first()[j] == v;
                    assert(t[j + 1] == v);
                }
            } else {
                assert(t[0] == v);
            }
        }
        if ascending(t) {
            assert(ascending(t.drop_first()));
            assert forall|i: int, j: int| 0 <= i <= j < r.len() implies r[i] <= r[j] by {
                if i == 0 && j > 0 {
                    assert(rest.contains(r[j]));
                    if r[j] != x {
                        let w = choose|w: int| 0 <= w < t.drop_first().len() && t.drop_first()[w] == r[j];
                        assert(t[w + 1] == r[j]);
                    }
                }
            }
        }
    }
}

/// The sorted order has the elements, the length and the sum of the
/// original, and is ascending.
pub proof fn lemma_sorted_nanos_props(s: Seq<u128>)
    ensures
        sorted_nanos(s).len() == s.len(),
        sum_nanos(sorted_nanos(s)) == sum_nanos(s),
        ascending(sorted_nanos(s)),
        forall|v: u128| #[trigger] sorted_nanos(s).contains(v) ==> s.contains(v),
    decreases s.len(),
{
    if s.len() > 0 {
        lemma_sorted_nanos_props(s.drop_last());
        lemma_insert_sorted_props(sorted_nanos(s.drop_last()), s.last());
        lemma_sum_push(s.drop_last(), s.last());
        assert(s.drop_last().push(s.last()) =~= s);
        assert forall|v: u128| #[trigger] sorted_nanos(s).contains(v) implies s.contains(v) by {
            if v == s.last() {
                assert(s[s.len() - 1] == v);
            } else {
                assert(sorted_nanos(s.drop_last()).contains(v));
                let j = choose|j: int| 0 <= j < s.drop_last().len() && s.drop_last()[j] == v;
                assert(s[j] == v);
            }
        }
    }
}

/// Two different entries together are at most the sum.
pub proof fn lemma_two_le_sum(s: Seq<u128>, i: int, j: int)
    requires
        0 <= i < j < s.len(),
    ensures
        s[i] + s[j] <= sum_nanos(s),
        s[j] <= sum_nanos(s),
    decreases s.len(),
{
    lemma_one_le_sum(s.drop_first(), j - 1);
    if i > 0 {
        lemma_two_le_sum(s.drop_first(), i - 1, j - 1);
    }
}

/// One entry is at most the sum.
pub proof fn lemma_one_le_sum(s: Seq<u128>, i: int)
    requires
        0 <= i < s.len(),
    ensures
        s[i] <= sum_nanos(s),
    decreases s.len(),
{
    if i > 0 {
        lemma_one_le_sum(s.drop_first(), i - 1);
    }
}

/// One entry is at most the largest.
pub proof fn lemma_le_max_bytes(s: Seq<u64>, i: int)
    requires
        0 <= i < s.len(),
    ensures
        s[i] <= max_bytes(s),
    decreases s.len(),
{
    if i > 0 {
        lemma_le_max_bytes(s.drop_first(), i - 1);
    }
}

/// The nanosecond counts of durations, element by element.
pub open spec fn nanos_of(s: Seq<Duration>) -> Seq<u128> {
    s.map_values(|d: Duration| duration_nanos(d))
}

/// Whether `analyze_durations` can summarize `s`: it is not empty, its
/// count is a non-zero `u32` divisor, and its total fits in a `Duration`.
pub open spec fn durations_analyzable(s: Seq<Duration>) -> bool {
    &&& s.len() > 0
    &&& (s.len() as u32) != 0
    &&& sum_nanos(nanos_of(s)) <= max_duration_nanos()
}

/// The nanosecond counts of `s`, in order.
fn nanos_vec(s: &[Duration]) -> (v: Vec<u128>)
    ensures
        v@ == nanos_of(s@),
{
    let mut v: Vec<u128> = Vec::new();
    let mut i: usize = 0;
    while i < s.len()
        invariant
            i <= s@.len(),
            v@ == nanos_of(s@).subrange(0, i as int),
        decreases s@.len() - i,
    {
        let n = duration_as_nanos(&s[i]);
        v.push(n);
        i += 1;
        assert(v@ =~= nanos_of(s@).subrange(0, i as int));
    }
    assert(v@ =~= nanos_of(s@));
    v
}

/// The elements of `v` in ascending order.
pub fn sort_nanos(v: &Vec<u128>) -> (out: Vec<u128>)
    ensures
        out@ == sorted_nanos(v@),
{
    let mut out: Vec<u128> = Vec::new();
    let mut i: usize = 0;
    assert(v@.subrange(0, 0) =~= Seq::<u128>::empty());
    while i < v.len()
        invariant
            i <= v@.len(),
            out@ == sorted_nanos(v@.subrange(0, i as int)),
        decreases v@.len() - i,
    {
        let x = v[i];
        let mut k: usize = 0;
        while k < out.len() && out[k] <= x
            invariant
                k <= out@.len(),
                forall|j: int| 0 <= j < k ==> out@[j] <= x,
            decreases out@.len() - k,
        {
            k += 1;
        }
        proof {
            lemma_insert_sorted_at(out@, x, k as int);
            assert(v@.subrange(0, i + 1).drop_last() =~= v@.subrange(0, i as int));
        }
        out.insert(k, x);
        i += 1;
    }
    assert(v@.subrange(0, v@.len() as int) =~= v@);
    out
}

/// The sum of `v`, which fits in a `Duration`.
fn total_nanos(v: &Vec<u128>) -> (t: u128)
    requires
        sum_nanos(v@) <= max_duration_nanos(),
    ensures
        t == sum_nanos(v@),
{
    let mut acc: u128 = 0;
    let mut i: usize = 0;
    assert(v@.subrange(0, 0) =~= Seq::<u128>::empty());
    while i < v.len()
        invariant
            i <= v@.len(),
            sum_nanos(v@) <= max_duration_nanos(),
            acc == sum_nanos(v@.subrange(0, i as int)),
        decreases v@.len() - i,
    {
        proof {
            lemma_sum_push(v@.subrange(0, i as int), v@[i as int]);
            assert(v@.subrange(0, i as int).push(v@[i as int]) =~= v@.subrange(0, i + 1));
            lemma_prefix_sum_le(v@, i + 1);
        }
        acc = acc + v[i];
        i += 1;
    }
    assert(v@.subrange(0, v@.len() as int) =~= v@);
    acc
}

// ---------------------------------------------------------------------------
// Collected measurements.

/// The sizes, in bytes, measured at one moment.
#[derive(Debug, Clone, Copy)]
pub struct MemorySnapshot {
    pub timestamp: Instant,
    pub heap_size: u64,
    pub stack_size: u64,
    pub ecs_world_size: u64,
}

/// Everything the profiler has recorded.
#[derive(Debug, Clone)]
pub struct PerformanceMetrics {
    pub ecs_query_times: Vec<Duration>,
    pub hook_execution_times: Vec<Duration>,
    pub render_times: Vec<Duration>,
    pub memory_snapshots: Vec<MemorySnapshot>,
    pub total_operations: usize,
}

impl Default for PerformanceMetrics {
    fn default() -> (m: Self)
        ensures
            m.ecs_query_times@ == Seq::<Duration>::empty(),
            m.hook_execution_times@ == Seq::<Duration>::empty(),
            m.render_times@ == Seq::<Duration>::empty(),
            m.memory_snapshots@ == Seq::<MemorySnapshot>::empty(),
            m.total_operations == 0,
    {
        PerformanceMetrics {
            ecs_query_times: Vec::new(),
            hook_execution_times: Vec::new(),
            render_times: Vec::new(),
            memory_snapshots: Vec::new(),
            total_operations: 0,
        }
    }
}

impl PerformanceMetrics {
    /// Records the time one ECS query took, and counts the operation.
    pub fn record_ecs_query_time(&mut self, duration: Duration)
        requires
            old(self).total_operations < usize::MAX,
        ensures
            final(self).ecs_query_times@ == old(self).ecs_query_times@.push(duration),
            final(self).hook_execution_times@ == old(self).hook_execution_times@,
            final(self).render_times@ == old(self).render_times@,
            final(self).memory_snapshots@ == old(self).memory_snapshots@,
            final(self).total_operations == old(self).total_operations + 1,
    {
        self.ecs_query_times.push(duration);
        self.total_operations = self.total_operations + 1;
    }

    /// Records the time one hook run took, and counts the operation.
    pub fn record_hook_execution_time(&mut self, duration: Duration)
        requires
            old(self).total_operations < usize::MAX,
        ensures
            final(self).ecs_query_times@ == old(self).ecs_query_times@,
            final(self).hook_execution_times@ == old(self).hook_execution_times@.push(duration),
            final(self).render_times@ == old(self).render_times@,
            final(self).memory_snapshots@ == old(self).memory_snapshots@,
            final(self).total_operations == old(self).total_operations + 1,
    {
        self.hook_execution_times.push(duration);
        self.total_operations = self.total_operations + 1;
    }

    /// Records the time one frame took to render, and counts the operation.
    pub fn record_render_time(&mut self, duration: Duration)
        requires
            old(self).total_operations < usize::MAX,
        ensures
            final(self).ecs_query_times@ == old(self).ecs_query_times@,
            final(self).hook_execution_times@ == old(self).hook_execution_times@,
            final(self).render_times@ == old(self).render_times@.push(duration),
            final(self).memory_snapshots@ == old(self).memory_snapshots@,
            final(self).total_operations == old(self).total_operations + 1,
    {
        self.render_times.push(duration);
        self.total_operations = self.total_operations + 1;
    }

    /// Records a memory snapshot; it is not counted as an operation.
    pub fn record_memory_snapshot(&mut self, snapshot: MemorySnapshot)
        ensures
            final(self).ecs_query_times@ == old(self).ecs_query_times@,
            final(self).hook_execution_times@ == old(self).hook_execution_times@,
            final(self).render_times@ == old(self).render_times@,
            final(self).memory_snapshots@ == old(self).memory_snapshots@.push(snapshot),
            final(self).total_operations == old(self).total_operations,
    {
        self.memory_snapshots.push(snapshot);
    }
}

// ---------------------------------------------------------------------------
// Summaries.

/// A summary of a list of durations.
#[derive(Debug, Clone, Copy)]
pub struct DurationStats {
    pub mean: Duration,
    pub median: Duration,
    pub p95: Duration,
    pub p99: Duration,
    pub min: Duration,
    pub max: Duration,
    pub total: Duration,
    pub count: usize,
}

/// A summary of memory snapshots, in bytes.
#[derive(Debug, Clone)]
pub struct MemoryStats {
    pub peak_heap: u64,
    pub avg_heap: u64,
    pub peak_stack: u64,
    pub avg_stack: u64,
    pub peak_ecs_world: u64,
    pub avg_ecs_world: u64,
    pub snapshot_count: usize,
}

/// The summaries of all recorded measurements, with advice.
#[derive(Debug, Clone)]
pub struct PerformanceReport {
    pub ecs_stats: Option<DurationStats>,
    pub hook_stats: Option<DurationStats>,
    pub render_stats: Option<DurationStats>,
    pub memory_stats: Option<MemoryStats>,
    pub total_operations: usize,
    pub recommendations: Vec<String>,
}

impl Default for PerformanceReport {
    fn default() -> (r: Self)
        ensures
            r.ecs_stats is None,
            r.hook_stats is None,
            r.render_stats is None,
            r.memory_stats is None,
            r.total_operations == 0,
            r.recommendations@ == Seq::<String>::empty(),
    {
        PerformanceReport {
            ecs_stats: None,
            hook_stats: None,
            render_stats: None,
            memory_stats: None,
            total_operations: 0,
            recommendations: Vec::new(),
        }
    }
}

/// What `analyze_durations` reports of `s`, read as nanoseconds: every
/// order statistic is taken from the sorted list.
pub open spec fn duration_stats_of(st: DurationStats, s: Seq<Duration>) -> bool {
    let n = s.len() as int;
    let p = sorted_nanos(nanos_of(s));
    let total = sum_nanos(nanos_of(s));
    &&& st.count == n
    &&& duration_nanos(st.total) == total
    &&& duration_nanos(st.mean) == duration_quotient(total as u128, n as u32)
    &&& duration_nanos(st.median) == if n % 2 == 0 {
            duration_quotient((p[n / 2 - 1] + p[n / 2]) as u128, 2)
        } else {
            p[n / 2] as u128
        }
    &&& duration_nanos(st.p95) == p[(n * 95 / 100) as int]
    &&& duration_nanos(st.p99) == p[(n * 99 / 100) as int]
    &&& duration_nanos(st.min) == p[0]
    &&& duration_nanos(st.max) == p[n - 1]
}

/// The snapshots' heap, stack and world sizes, each in order.
pub open spec fn heap_sizes(s: Seq<MemorySnapshot>) -> Seq<u64> {
    s.map_values(|m: MemorySnapshot| m.heap_size)
}

/// The snapshots' stack sizes, in order.
pub open spec fn stack_sizes(s: Seq<MemorySnapshot>) -> Seq<u64> {
    s.map_values(|m: MemorySnapshot| m.stack_size)
}

/// The snapshots' ECS world sizes, in order.
pub open spec fn world_sizes(s: Seq<MemorySnapshot>) -> Seq<u64> {
    s.map_values(|m: MemorySnapshot| m.ecs_world_size)
}

/// Whether `analyze_memory` can summarize `s`: it is not empty and each of
/// its three sums fits in a `u64`.
pub open spec fn snapshots_analyzable(s: Seq<MemorySnapshot>) -> bool {
    &&& s.len() > 0
    &&& sum_bytes(heap_sizes(s)) <= u64::MAX
    &&& sum_bytes(stack_sizes(s)) <= u64::MAX
    &&& sum_bytes(world_sizes(s)) <= u64::MAX
}

/// What `analyze_memory` reports of `s`: peaks and truncated averages.
pub open spec fn memory_stats_of(st: MemoryStats, s: Seq<MemorySnapshot>) -> bool {
    &&& st.snapshot_count == s.len()
    &&& st.peak_heap == max_bytes(heap_sizes(s))
    &&& st.avg_heap == sum_bytes(heap_sizes(s)) / s.len()
    &&& st.peak_stack == max_bytes(stack_sizes(s))
    &&& st.avg_stack == sum_bytes(stack_sizes(s)) / s.len()
    &&& st.peak_ecs_world == max_bytes(world_sizes(s))
    &&& st.avg_ecs_world == sum_bytes(world_sizes(s)) / s.len()
}

/// Advice on slow ECS queries at the 95th percentile.
pub const ECS_P95_ADVICE: &'static str = "Consider optimizing ECS queries - P95 latency is high";
/// Advice on a slow mean ECS query.
pub const ECS_MEAN_ADVICE: &'static str = "ECS query mean time is elevated - review query complexity";
/// Advice on slow hooks.
pub const HOOK_ADVICE: &'static str = "Hook execution time may impact 60fps rendering";
/// Advice on slow frames.
pub const RENDER_ADVICE: &'static str = "Render time exceeds 60fps budget - optimize rendering";
/// Advice on a large heap.
pub const MEMORY_ADVICE: &'static str = "High memory usage detected - consider memory optimization";
/// The verdict when nothing calls for advice.
pub const ALL_GOOD: &'static str = "Performance looks good!";

/// One piece of advice when `cond` holds, none otherwise.
pub open spec fn advice_if(cond: bool, text: Seq<char>) -> Seq<Seq<char>> {
    if cond { seq![text] } else { Seq::empty() }
}

/// The advice a report calls for, in order: the ECS percentile (over 10 ms)
/// and mean (over 5 ms), the hook percentile (over 16 ms), the render mean
/// (over 16 ms), the heap peak (over 100 MiB); the all-good verdict when
/// none applies.
pub open spec fn advice_for(r: PerformanceReport) -> Seq<Seq<char>> {
    let ecs = match r.ecs_stats {
        Some(st) => advice_if(duration_nanos(st.p95) > 10_000_000, ECS_P95_ADVICE@)
            + advice_if(duration_nanos(st.mean) > 5_000_000, ECS_MEAN_ADVICE@),
        None => Seq::empty(),
    };
    let hook = match r.hook_stats {
        Some(st) => advice_if(duration_nanos(st.p95) > 16_000_000, HOOK_ADVICE@),
        None => Seq::empty(),
    };
    let render = match r.render_stats {
        Some(st) => advice_if(duration_nanos(st.mean) > 16_000_000, RENDER_ADVICE@),
        None => Seq::empty(),
    };
    let memory = match r.memory_stats {
        Some(st) => advice_if(st.peak_heap > 100 * 1024 * 1024, MEMORY_ADVICE@),
        None => Seq::empty(),
    };
    let all = ecs + hook + render + memory;
    if all.len() == 0 { seq![ALL_GOOD@] } else { all }
}

/// What a concatenation contains is what either part contains.
proof fn lemma_concat_contains(a: Seq<Seq<char>>, b: Seq<Seq<char>>, t: Seq<char>)
    ensures
        (a + b).contains(t) <==> (a.contains(t) || b.contains(t)),
{
    if (a + b).contains(t) {
        let i = choose|i: int| 0 <= i < (a + b).len() && (a + b)[i] == t;
        if i < a.len() {
            assert(a[i] == t);
        } else {
            assert(b[i - a.len()] == t);
        }
    }
    if a.contains(t) {
        let i = choose|i: int| 0 <= i < a.len() && a[i] == t;
        assert((a + b)[i] == t);
    }
    if b.contains(t) {
        let i = choose|i: int| 0 <= i < b.len() && b[i] == t;
        assert((a + b)[a.len() + i] == t);
    }
}

/// One piece of advice, given or not, contains just that piece.
proof fn lemma_advice_if_contains(cond: bool, text: Seq<char>, t: Seq<char>)
    ensures
        advice_if(cond, text).contains(t) <==> (cond && t == text),
{
    if cond {
        assert(advice_if(cond, text)[0] == text);
    }
}

/// The pieces of advice are different texts.
proof fn lemma_advice_texts_differ()
    ensures
        ECS_P95_ADVICE@ != ECS_MEAN_ADVICE@,
        ECS_P95_ADVICE@ != HOOK_ADVICE@,
        ECS_P95_ADVICE@ != RENDER_ADVICE@,
        ECS_P95_ADVICE@ != MEMORY_ADVICE@,
        ECS_P95_ADVICE@ != ALL_GOOD@,
        ECS_MEAN_ADVICE@ != HOOK_ADVICE@,
        ECS_MEAN_ADVICE@ != RENDER_ADVICE@,
        ECS_MEAN_ADVICE@ != MEMORY_ADVICE@,
        ECS_MEAN_ADVICE@ != ALL_GOOD@,
        HOOK_ADVICE@ != RENDER_ADVICE@,
        HOOK_ADVICE@ != MEMORY_ADVICE@,
        HOOK_ADVICE@ != ALL_GOOD@,
        RENDER_ADVICE@ != MEMORY_ADVICE@,
        RENDER_ADVICE@ != ALL_GOOD@,
        MEMORY_ADVICE@ != ALL_GOOD@,
{
    reveal_strlit("Consider optimizing ECS queries - P95 latency is high");
    reveal_strlit("ECS query mean time is elevated - review query complexity");
    reveal_strlit("Hook execution time may impact 60fps rendering");
    reveal_strlit("Render time exceeds 60fps budget - optimize rendering");
    reveal_strlit("High memory usage detected - consider memory optimization");
    reveal_strlit("Performance looks good!");
    assert(ECS_P95_ADVICE@[0] == 'C');
    assert(ECS_MEAN_ADVICE@[0] == 'E');
    assert(HOOK_ADVICE@[0] == 'H' && HOOK_ADVICE@[1] == 'o');
    assert(RENDER_ADVICE@[0] == 'R');
    assert(MEMORY_ADVICE@[0] == 'H' && MEMORY_ADVICE@[1] == 'i');
    assert(ALL_GOOD@[0] == 'P');
}

/// The advice a report calls for before the all-good verdict is added.
pub open spec fn advice_collected(r: PerformanceReport) -> Seq<Seq<char>> {
    let ecs = match r.ecs_stats {
        Some(st) => advice_if(duration_nanos(st.p95) > 10_000_000, ECS_P95_ADVICE@)
            + advice_if(duration_nanos(st.mean) > 5_000_000, ECS_MEAN_ADVICE@),
        None => Seq::empty(),
    };
    let hook = match r.hook_stats {
        Some(st) => advice_if(duration_nanos(st.p95) > 16_000_000, HOOK_ADVICE@),
        None => Seq::empty(),
    };
    let render = match r.render_stats {
        Some(st) => advice_if(duration_nanos(st.mean) > 16_000_000, RENDER_ADVICE@),
        None => Seq::empty(),
    };
    let memory = match r.memory_stats {
        Some(st) => advice_if(st.peak_heap > 100 * 1024 * 1024, MEMORY_ADVICE@),
        None => Seq::empty(),
    };
    ecs + hook + render + memory
}

/// Whether the ECS 95th percentile is over 10 ms.
pub open spec fn ecs_p95_slow(r: PerformanceReport) -> bool {
    r.ecs_stats matches Some(st) && duration_nanos(st.p95) > 10_000_000
}

/// Whether the ECS mean is over 5 ms.
pub open spec fn ecs_mean_slow(r: PerformanceReport) -> bool {
    r.ecs_stats matches Some(st) && duration_nanos(st.mean) > 5_000_000
}

/// Whether the hook 95th percentile is over 16 ms.
pub open spec fn hook_slow(r: PerformanceReport) -> bool {
    r.hook_stats matches Some(st) && duration_nanos(st.p95) > 16_000_000
}

/// Whether the render mean is over 16 ms.
pub open spec fn render_slow(r: PerformanceReport) -> bool {
    r.render_stats matches Some(st) && duration_nanos(st.mean) > 16_000_000
}

/// Whether the heap peak is over 100 MiB.
pub open spec fn memory_high(r: PerformanceReport) -> bool {
    r.memory_stats matches Some(st) && st.peak_heap > 100 * 1024 * 1024
}

/// The collected advice holds a text exactly when it is the advice of a
/// figure over its threshold.
proof fn lemma_collected_contains(r: PerformanceReport, t: Seq<char>)
    ensures
        advice_collected(r).contains(t) <==> (
            (t == ECS_P95_ADVICE@ && ecs_p95_slow(r))
            || (t == ECS_MEAN_ADVICE@ && ecs_mean_slow(r))
            || (t == HOOK_ADVICE@ && hook_slow(r))
            || (t == RENDER_ADVICE@ && render_slow(r))
            || (t == MEMORY_ADVICE@ && memory_high(r))),
{
    let ecs = match r.ecs_stats {
        Some(st) => advice_if(duration_nanos(st.p95) > 10_000_000, ECS_P95_ADVICE@)
            + advice_if(duration_nanos(st.mean) > 5_000_000, ECS_MEAN_ADVICE@),
        None => Seq::empty(),
    };
    let hook = match r.hook_stats {
        Some(st) => advice_if(duration_nanos(st.p95) > 16_000_000, HOOK_ADVICE@),
        None => Seq::empty(),
    };
    let render = match r.render_stats {
        Some(st) => advice_if(duration_nanos(st.mean) > 16_000_000, RENDER_ADVICE@),
        None => Seq::empty(),
    };
    let memory = match r.memory_stats {
        Some(st) => advice_if(st.peak_heap > 100 * 1024 * 1024, MEMORY_ADVICE@),
        None => Seq::empty(),
    };
    lemma_concat_contains(ecs, hook, t);
    lemma_concat_contains(ecs + hook, render, t);
    lemma_concat_contains(ecs + hook + render, memory, t);
    match r.ecs_stats {
        Some(st) => {
            lemma_concat_contains(
                advice_if(duration_nanos(st.p95) > 10_000_000, ECS_P95_ADVICE@),
                advice_if(duration_nanos(st.mean) > 5_000_000, ECS_MEAN_ADVICE@),
                t,
            );
            lemma_advice_if_contains(duration_nanos(st.p95) > 10_000_000, ECS_P95_ADVICE@, t);
            lemma_advice_if_contains(duration_nanos(st.mean) > 5_000_000, ECS_MEAN_ADVICE@, t);
        },
        None => {},
    }
    match r.hook_stats {
        Some(st) => lemma_advice_if_contains(duration_nanos(st.p95) > 16_000_000, HOOK_ADVICE@, t),
        None => {},
    }
    match r.render_stats {
        Some(st) => lemma_advice_if_contains(duration_nanos(st.mean) > 16_000_000, RENDER_ADVICE@, t),
        None => {},
    }
    match r.memory_stats {
        Some(st) => lemma_advice_if_contains(st.peak_heap > 100 * 1024 * 1024, MEMORY_ADVICE@, t),
        None => {},
    }
}

/// Law: each piece of advice is given exactly when its figure is over its
/// threshold: the ECS 95th percentile over 10 ms, the ECS mean over 5 ms,
/// the hook 95th percentile over 16 ms, the render mean over 16 ms, the
/// heap peak over 100 MiB; the all-good verdict is given exactly when none
/// of them is, and then alone.
pub proof fn law_advice_thresholds(r: PerformanceReport)
    ensures
        advice_for(r).contains(ECS_P95_ADVICE@) <==> (r.ecs_stats matches Some(st)
            && duration_nanos(st.p95) > 10_000_000),
        advice_for(r).contains(ECS_MEAN_ADVICE@) <==> (r.ecs_stats matches Some(st)
            && duration_nanos(st.mean) > 5_000_000),
        advice_for(r).contains(HOOK_ADVICE@) <==> (r.hook_stats matches Some(st)
            && duration_nanos(st.p95) > 16_000_000),
        advice_for(r).contains(RENDER_ADVICE@) <==> (r.render_stats matches Some(st)
            && duration_nanos(st.mean) > 16_000_000),
        advice_for(r).contains(MEMORY_ADVICE@) <==> (r.memory_stats matches Some(st)
            && st.peak_heap > 100 * 1024 * 1024),
        advice_for(r).contains(ALL_GOOD@) <==> advice_for(r) == seq![ALL_GOOD@],
        advice_for(r).contains(ALL_GOOD@) <==> !(
            (r.ecs_stats matches Some(st) && (duration_nanos(st.p95) > 10_000_000
                || duration_nanos(st.mean) > 5_000_000))
            || (r.hook_stats matches Some(st) && duration_nanos(st.p95) > 16_000_000)
            || (r.render_stats matches Some(st) && duration_nanos(st.mean) > 16_000_000)
            || (r.memory_stats matches Some(st) && st.peak_heap > 100 * 1024 * 1024)),
{
    lemma_advice_texts_differ();
    let all = advice_collected(r);
    assert(advice_for(r) == if all.len() == 0 { seq![ALL_GOOD@] } else { all });
    lemma_collected_contains(r, ECS_P95_ADVICE@);
    lemma_collected_contains(r, ECS_MEAN_ADVICE@);
    lemma_collected_contains(r, HOOK_ADVICE@);
    lemma_collected_contains(r, RENDER_ADVICE@);
    lemma_collected_contains(r, MEMORY_ADVICE@);
    lemma_collected_contains(r, ALL_GOOD@);
    assert(seq![ALL_GOOD@][0] == ALL_GOOD@);
    if all.len() > 0 {
        lemma_collected_contains(r, all[0]);
        assert(all.contains(all[0]));
    }
}

/// Law: the 95th percentile that a summary reports is one of the recorded
/// durations.
pub proof fn law_p95_is_recorded(st: DurationStats, s: Seq<Duration>)
    requires
        s.len() > 0,
        duration_stats_of(st, s),
    ensures
        exists|i: int| 0 <= i < s.len() && duration_nanos(st.p95) == duration_nanos(s[i]),
{
    let n = s.len() as int;
    let p = sorted_nanos(nanos_of(s));
    lemma_sorted_nanos_props(nanos_of(s));
    let k = (n * 95 / 100) as int;
    assert(0 <= k < n) by (nonlinear_arith)
        requires n > 0, k == n * 95 / 100;
    assert(p.contains(p[k]));
    assert(nanos_of(s).contains(p[k]));
    let i = choose|i: int| 0 <= i < nanos_of(s).len() && nanos_of(s)[i] == p[k];
    assert(duration_nanos(s[i]) == p[k]);
}

/// Law: when every recorded hook run took over 16 ms, the report on them
/// advises on hook time; when none did, it does not.
pub proof fn law_hook_advice_from_runs(r: PerformanceReport, s: Seq<Duration>)
    requires
        s.len() > 0,
        r.hook_stats matches Some(st) && duration_stats_of(st, s),
    ensures
        (forall|i: int| 0 <= i < s.len() ==> duration_nanos(#[trigger] s[i]) > 16_000_000)
            ==> advice_for(r).contains(HOOK_ADVICE@),
        (forall|i: int| 0 <= i < s.len() ==> duration_nanos(#[trigger] s[i]) <= 16_000_000)
            ==> !advice_for(r).contains(HOOK_ADVICE@),
{
    law_p95_is_recorded(r.hook_stats.unwrap(), s);
    law_advice_thresholds(r);
}

/// The texts of a list of strings.
pub open spec fn texts(v: Seq<String>) -> Seq<Seq<char>> {
    v.map_values(|s: String| s@)
}

/// Whether `analyze_metrics` can summarize `m`: each list is empty or can
/// be summarized.
pub open spec fn metrics_analyzable(m: PerformanceMetrics) -> bool {
    &&& m.ecs_query_times@.len() > 0 ==> durations_analyzable(m.ecs_query_times@)
    &&& m.hook_execution_times@.len() > 0 ==> durations_analyzable(m.hook_execution_times@)
    &&& m.render_times@.len() > 0 ==> durations_analyzable(m.render_times@)
    &&& m.memory_snapshots@.len() > 0 ==> snapshots_analyzable(m.memory_snapshots@)
}

/// Turns recorded metrics into a report.
pub struct PerformanceAnalyzer;

impl PerformanceAnalyzer {
    /// The report on `metrics`: a summary of each list that is not empty,
    /// the operation count, and the advice the summaries call for.
    pub fn analyze_metrics(metrics: &PerformanceMetrics) -> (r: PerformanceReport)
        requires
            metrics_analyzable(*metrics),
        ensures
            match r.ecs_stats {
                Some(st) => metrics.ecs_query_times@.len() > 0 && duration_stats_of(st, metrics.ecs_query_times@),
                None => metrics.ecs_query_times@.len() == 0,
            },
            match r.hook_stats {
                Some(st) => metrics.hook_execution_times@.len() > 0 && duration_stats_of(st, metrics.hook_execution_times@),
                None => metrics.hook_execution_times@.len() == 0,
            },
            match r.render_stats {
                Some(st) => metrics.render_times@.len() > 0 && duration_stats_of(st, metrics.render_times@),
                None => metrics.render_times@.len() == 0,
            },
            match r.memory_stats {
                Some(st) => metrics.memory_snapshots@.len() > 0 && memory_stats_of(st, metrics.memory_snapshots@),
                None => metrics.memory_snapshots@.len() == 0,
            },
            r.total_operations == metrics.total_operations,
            texts(r.recommendations@) == advice_for(r),
    {
        let ecs_stats = if metrics.ecs_query_times.len() > 0 {
            Some(Self::analyze_durations(metrics.ecs_query_times.as_slice()))
        } else {
            None
        };
        let hook_stats = if metrics.hook_execution_times.len() > 0 {
            Some(Self::analyze_durations(metrics.hook_execution_times.as_slice()))
        } else {
            None
        };
        let render_stats = if metrics.render_times.len() > 0 {
            Some(Self::analyze_durations(metrics.render_times.as_slice()))
        } else {
            None
        };
        let memory_stats = if metrics.memory_snapshots.len() > 0 {
            Some(Self::analyze_memory(metrics.memory_snapshots.as_slice()))
        } else {
            None
        };
        let mut report = PerformanceReport {
            ecs_stats,
            hook_stats,
            render_stats,
            memory_stats,
            total_operations: metrics.total_operations,
            recommendations: Vec::new(),
        };
        report.recommendations = Self::generate_recommendations(&report);
        report
    }

    /// The summary of a list of durations: its count and total, the mean
    /// by `Duration` division, and the median, 95th and 99th percentiles,
    /// least and greatest of the sorted list. The percentiles are taken at
    /// indices `count * 95 / 100` and `count * 99 / 100`.
    pub fn analyze_durations(durations: &[Duration]) -> (st: DurationStats)
        requires
            durations_analyzable(durations@),
        ensures
            duration_stats_of(st, durations@),
    {
        let nanos = nanos_vec(durations);
        let sorted = sort_nanos(&nanos);
        let ghost p = sorted@;
        proof {
            lemma_sorted_nanos_props(nanos@);
        }
        let count = sorted.len();
        let total = total_nanos(&sorted);
        let total_duration = duration_from_nanos(total);
        let mean = duration_div(total_duration, count as u32);
        let median = if count % 2 == 0 {
            proof {
                lemma_two_le_sum(p, (count / 2 - 1) as int, (count / 2) as int);
            }
            let pair = duration_from_nanos(sorted[count / 2 - 1] + sorted[count / 2]);
            duration_div(pair, 2)
        } else {
            proof {
                lemma_one_le_sum(p, (count / 2) as int);
            }
            duration_from_nanos(sorted[count / 2])
        };
        proof {
            assert(count * 95 / 100 < count) by (nonlinear_arith)
                requires count > 0;
            assert(count * 99 / 100 < count) by (nonlinear_arith)
                requires count > 0;
            lemma_one_le_sum(p, (count * 95 / 100) as int);
            lemma_one_le_sum(p, (count * 99 / 100) as int);
            lemma_one_le_sum(p, 0);
            lemma_one_le_sum(p, count - 1);
        }
        let p95_index = count / 100 * 95 + count % 100 * 95 / 100;
        let p99_index = count / 100 * 99 + count % 100 * 99 / 100;
        proof {
            assert(p95_index == count * 95 / 100) by (nonlinear_arith)
                requires p95_index == count / 100 * 95 + count % 100 * 95 / 100;
            assert(p99_index == count * 99 / 100) by (nonlinear_arith)
                requires p99_index == count / 100 * 99 + count % 100 * 99 / 100;
        }
        let p95 = duration_from_nanos(sorted[p95_index]);
        let p99 = duration_from_nanos(sorted[p99_index]);
        let min = duration_from_nanos(sorted[0]);
        let max = duration_from_nanos(sorted[count - 1]);
        DurationStats { mean, median, p95, p99, min, max, total: total_duration, count }
    }

    /// The sum and the largest of `v`.
    fn sum_and_max(v: &Vec<u64>) -> (r: (u64, u64))
        requires
            sum_bytes(v@) <= u64::MAX,
        ensures
            r.0 == sum_bytes(v@),
            r.1 == max_bytes(v@),
    {
        let mut sum: u64 = 0;
        let mut max: u64 = 0;
        let mut i: usize = 0;
        assert(v@.subrange(0, 0) =~= Seq::<u64>::empty());
        while i < v.len()
            invariant
                i <= v@.len(),
                sum_bytes(v@) <= u64::MAX,
                sum == sum_bytes(v@.subrange(0, i as int)),
                max == max_bytes(v@.subrange(0, i as int)),
            decreases v@.len() - i,
        {
            proof {
                let pre = v@.subrange(0, i as int);
                lemma_sum_bytes_push(pre, v@[i as int]);
                lemma_max_bytes_push(pre, v@[i as int]);
                assert(pre.push(v@[i as int]) =~= v@.subrange(0, i + 1));
                lemma_prefix_sum_bytes_le(v@, i + 1);
            }
            sum = sum + v[i];
            if v[i] > max {
                max = v[i];
            }
            i += 1;
        }
        assert(v@.subrange(0, v@.len() as int) =~= v@);
        (sum, max)
    }

    /// The peaks and truncated averages of the snapshots' sizes.
    pub fn analyze_memory(snapshots: &[MemorySnapshot]) -> (st: MemoryStats)
        requires
            snapshots_analyzable(snapshots@),
        ensures
            memory_stats_of(st, snapshots@),
    {
        let mut heap: Vec<u64> = Vec::new();
        let mut stack: Vec<u64> = Vec::new();
        let mut world: Vec<u64> = Vec::new();
        let mut i: usize = 0;
        while i < snapshots.len()
            invariant
                i <= snapshots@.len(),
                heap@ == heap_sizes(snapshots@).subrange(0, i as int),
                stack@ == stack_sizes(snapshots@).subrange(0, i as int),
                world@ == world_sizes(snapshots@).subrange(0, i as int),
            decreases snapshots@.len() - i,
        {
            heap.push(snapshots[i].heap_size);
            stack.push(snapshots[i].stack_size);
            world.push(snapshots[i].ecs_world_size);
            i += 1;
            assert(heap@ =~= heap_sizes(snapshots@).subrange(0, i as int));
            assert(stack@ =~= stack_sizes(snapshots@).subrange(0, i as int));
            assert(world@ =~= world_sizes(snapshots@).subrange(0, i as int));
        }
        assert(heap@ =~= heap_sizes(snapshots@));
        assert(stack@ =~= stack_sizes(snapshots@));
        assert(world@ =~= world_sizes(snapshots@));
        let n = snapshots.len() as u64;
        let (heap_sum, heap_max) = Self::sum_and_max(&heap);
        let (stack_sum, stack_max) = Self::sum_and_max(&stack);
        let (world_sum, world_max) = Self::sum_and_max(&world);
        MemoryStats {
            peak_heap: heap_max,
            avg_heap: heap_sum / n,
            peak_stack: stack_max,
            avg_stack: stack_sum / n,
            peak_ecs_world: world_max,
            avg_ecs_world: world_sum / n,
            snapshot_count: snapshots.len(),
        }
    }

    /// The advice that a report calls for.
    pub fn generate_recommendations(report: &PerformanceReport) -> (v: Vec<String>)
        ensures
            texts(v@) == advice_for(*report),
    {
        let mut v: Vec<String> = Vec::new();
        match &report.ecs_stats {
            Some(st) => {
                if duration_as_nanos(&st.p95) > 10_000_000 {
                    v.push(ECS_P95_ADVICE.to_string());
                }
                if duration_as_nanos(&st.mean) > 5_000_000 {
                    v.push(ECS_MEAN_ADVICE.to_string());
                }
            },
            None => {},
        }
        let ghost after_ecs = texts(v@);
        match &report.hook_stats {
            Some(st) => {
                if duration_as_nanos(&st.p95) > 16_000_000 {
                    v.push(HOOK_ADVICE.to_string());
                }
            },
            None => {},
        }
        let ghost after_hook = texts(v@);
        match &report.render_stats {
            Some(st) => {
                if duration_as_nanos(&st.mean) > 16_000_000 {
                    v.push(RENDER_ADVICE.to_string());
                }
            },
            None => {},
        }
        let ghost after_render = texts(v@);
        match &report.memory_stats {
            Some(st) => {
                if st.peak_heap > 100 * 1024 * 1024 {
                    v.push(MEMORY_ADVICE.to_string());
                }
            },
            None => {},
        }
        let ghost collected = texts(v@);
        proof {
            let r = *report;
            let ecs = match r.ecs_stats {
                Some(st) => advice_if(duration_nanos(st.p95) > 10_000_000, ECS_P95_ADVICE@)
                    + advice_if(duration_nanos(st.mean) > 5_000_000, ECS_MEAN_ADVICE@),
                None => Seq::empty(),
            };
            let hook = match r.hook_stats {
                Some(st) => advice_if(duration_nanos(st.p95) > 16_000_000, HOOK_ADVICE@),
                None => Seq::empty(),
            };
            let render = match r.render_stats {
                Some(st) => advice_if(duration_nanos(st.mean) > 16_000_000, RENDER_ADVICE@),
                None => Seq::empty(),
            };
            let memory = match r.memory_stats {
                Some(st) => advice_if(st.peak_heap > 100 * 1024 * 1024, MEMORY_ADVICE@),
                None => Seq::empty(),
            };
            assert(after_ecs =~= ecs);
            assert(after_hook =~= ecs + hook);
            assert(after_render =~= ecs + hook + render);
            assert(collected =~= ecs + hook + render + memory);
        }
        if v.len() == 0 {
            v.push(ALL_GOOD.to_string());
            assert(texts(v@) =~= seq![ALL_GOOD@]);
        }
        v
    }
}

// ---------------------------------------------------------------------------
// Advice from single figures.

/// Advice on batching many slow queries.
pub const BATCH_ADVICE: &'static str = "Consider batching ECS queries to reduce overhead";
/// Advice on slow queries.
pub const FILTER_ADVICE: &'static str = "Review query filters and component access patterns";
/// Advice on component pooling.
pub const POOLING_ADVICE: &'static str = "Consider implementing component pooling";
/// Advice on entity lifecycles.
pub const LIFECYCLE_ADVICE: &'static str = "Review entity lifecycle management";
/// Advice on DOM mutations.
pub const MUTATION_ADVICE: &'static str = "Consider reducing DOM mutations per frame";
/// Advice on long lists.
pub const SCROLLING_ADVICE: &'static str = "Implement virtual scrolling for large lists";

/// Suggestions drawn from single measurements.
pub struct OptimizationHints;

impl OptimizationHints {
    /// Batching when more than 1000 queries average over 1 ms; filters when
    /// they average over 5 ms.
    pub fn suggest_query_optimizations(query_count: usize, avg_time: Duration) -> (v: Vec<String>)
        ensures
            texts(v@) == advice_if(query_count > 1000 && duration_nanos(avg_time) > 1_000_000, BATCH_ADVICE@)
                + advice_if(duration_nanos(avg_time) > 5_000_000, FILTER_ADVICE@),
    {
        let mut v: Vec<String> = Vec::new();
        let avg = duration_as_nanos(&avg_time);
        if query_count > 1000 && avg > 1_000_000 {
            v.push(BATCH_ADVICE.to_string());
        }
        let ghost first = texts(v@);
        if avg > 5_000_000 {
            v.push(FILTER_ADVICE.to_string());
        }
        proof {
            assert(first =~= advice_if(query_count > 1000 && duration_nanos(avg_time) > 1_000_000, BATCH_ADVICE@));
            assert(texts(v@) =~= first + advice_if(duration_nanos(avg_time) > 5_000_000, FILTER_ADVICE@));
        }
        v
    }

    /// Pooling and lifecycle review when the peak exceeds 50 MiB.
    pub fn suggest_memory_optimizations(peak_memory: u64) -> (v: Vec<String>)
        ensures
            texts(v@) == if peak_memory > 50 * 1024 * 1024 {
                seq![POOLING_ADVICE@, LIFECYCLE_ADVICE@]
            } else {
                Seq::empty()
            },
    {
        let mut v: Vec<String> = Vec::new();
        if peak_memory > 50 * 1024 * 1024 {
            v.push(POOLING_ADVICE.to_string());
            v.push(LIFECYCLE_ADVICE.to_string());
        }
        assert(texts(v@) =~= if peak_memory > 50 * 1024 * 1024 {
            seq![POOLING_ADVICE@, LIFECYCLE_ADVICE@]
        } else {
            Seq::empty()
        });
        v
    }

    /// Fewer mutations and virtual scrolling when a frame takes over 16 ms.
    pub fn suggest_render_optimizations(render_time: Duration) -> (v: Vec<String>)
        ensures
            texts(v@) == if duration_nanos(render_time) > 16_000_000 {
                seq![MUTATION_ADVICE@, SCROLLING_ADVICE@]
            } else {
                Seq::empty()
            },
    {
        let mut v: Vec<String> = Vec::new();
        if duration_as_nanos(&render_time) > 16_000_000 {
            v.push(MUTATION_ADVICE.to_string());
            v.push(SCROLLING_ADVICE.to_string());
        }
        assert(texts(v@) =~= if duration_nanos(render_time) > 16_000_000 {
            seq![MUTATION_ADVICE@, SCROLLING_ADVICE@]
        } else {
            Seq::empty()
        });
        v
    }
}

/// Law: the order statistics of a summary are ordered: least, 95th and
/// 99th percentile, greatest; for an odd count the median lies between the
/// least and the greatest.
pub proof fn law_order_statistics_ordered(st: DurationStats, s: Seq<Duration>)
    requires
        durations_analyzable(s),
        duration_stats_of(st, s),
    ensures
        duration_nanos(st.min) <= duration_nanos(st.p95),
        duration_nanos(st.p95) <= duration_nanos(st.p99),
        duration_nanos(st.p99) <= duration_nanos(st.max),
        s.len() % 2 == 1 ==> duration_nanos(st.min) <= duration_nanos(st.median) <= duration_nanos(st.max),
        duration_nanos(st.total) == sum_nanos(nanos_of(s)),
{
    let n = s.len() as int;
    lemma_sorted_nanos_props(nanos_of(s));
    assert(0 <= n * 95 / 100 <= n * 99 / 100 < n) by (nonlinear_arith)
        requires n > 0;
}

} // verus!
