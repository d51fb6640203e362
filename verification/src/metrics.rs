//! Figures: what is counted of commands and rollbacks, and how long commands take.

use vstd::prelude::*;
use vstd::utf8::encode_utf8;
use crate::execution::{class_of, record_exec_outcome, ExecClass, ExecutionResult, ResultV};
use crate::json::{empty_object, items_said, no_members, with_member, Json, JsonV};

verus! {

/// How many classes of durations there are.
pub const BUCKETS: usize = 5;

/// The longest duration of a class, in nanoseconds; a longer one than all is in none.
pub open spec fn bucket_bound(i: int) -> u64 {
    if i == 0 {
        5_000_000
    } else if i == 1 {
        50_000_000
    } else if i == 2 {
        500_000_000
    } else if i == 3 {
        5_000_000_000
    } else {
        30_000_000_000
    }
}

/// The longest duration of a class, in nanoseconds.
pub fn bucket_le(i: usize) -> (r: u64)
    ensures
        r == bucket_bound(i as int),
{
    if i == 0 {
        5_000_000
    } else if i == 1 {
        50_000_000
    } else if i == 2 {
        500_000_000
    } else if i == 3 {
        5_000_000_000
    } else {
        30_000_000_000
    }
}

/// The first class from a place on that holds a duration.
pub open spec fn bucket_from(ns: u64, i: int) -> Option<int>
    decreases BUCKETS - i,
{
    if i < 0 || i >= BUCKETS {
        None
    } else if ns <= bucket_bound(i) {
        Some(i)
    } else {
        bucket_from(ns, i + 1)
    }
}

/// The class that holds a duration.
pub fn duration_bucket_index(ns: u64) -> (r: Option<usize>)
    ensures
        match r {
            Some(i) => bucket_from(ns, 0) == Some(i as int) && i < BUCKETS,
            None => bucket_from(ns, 0) is None,
        },
{
    let mut i: usize = 0;
    while i < BUCKETS
        invariant
            i <= BUCKETS,
            bucket_from(ns, 0) == bucket_from(ns, i as int),
        decreases BUCKETS - i,
    {
        if ns <= bucket_le(i) {
            return Some(i);
        }
        i = i + 1;
    }
    None
}

/// A duration is in the first class whose bound it does not pass.
pub proof fn law_bucket_is_the_first_that_fits(ns: u64, k: int)
    requires
        0 <= k < BUCKETS,
    ensures
        bucket_from(ns, 0) matches Some(i) ==> {
            &&& ns <= bucket_bound(i)
            &&& k < i ==> ns > bucket_bound(k)
        },
        bucket_from(ns, 0) is None ==> ns > bucket_bound(k),
{
    reveal_with_fuel(bucket_from, 6);
}

/// What is counted.
pub struct Metrics {
    exec_total: u64,
    exec_blocked: u64,
    exec_timeout: u64,
    exec_success: u64,
    exec_failed: u64,
    rollback_total: u64,
    rollback_failed: u64,
    duration_ns_sum: u64,
    stdio_bytes_sum: u64,
    buckets: Vec<u64>,
    duration_ns_min: u64,
    duration_ns_max: u64,
}

/// What the counts say: how many commands there were, in all and by class; how many rollbacks there
/// were and how many of them failed; the time that commands took together, the bytes that they wrote
/// together, how many fell in each class of durations, and the shortest and the longest duration.
pub struct MetricsV {
    pub exec_total: u64,
    pub exec_blocked: u64,
    pub exec_timeout: u64,
    pub exec_success: u64,
    pub exec_failed: u64,
    pub rollback_total: u64,
    pub rollback_failed: u64,
    pub duration_ns_sum: u64,
    pub stdio_bytes_sum: u64,
    pub buckets: Seq<u64>,
    pub duration_ns_min: u64,
    pub duration_ns_max: u64,
}

impl View for Metrics {
    type V = MetricsV;

    closed spec fn view(&self) -> MetricsV {
        MetricsV {
            exec_total: self.exec_total,
            exec_blocked: self.exec_blocked,
            exec_timeout: self.exec_timeout,
            exec_success: self.exec_success,
            exec_failed: self.exec_failed,
            rollback_total: self.rollback_total,
            rollback_failed: self.rollback_failed,
            duration_ns_sum: self.duration_ns_sum,
            stdio_bytes_sum: self.stdio_bytes_sum,
            buckets: self.buckets@,
            duration_ns_min: self.duration_ns_min,
            duration_ns_max: self.duration_ns_max,
        }
    }
}

/// The counts before the first command.
pub open spec fn metrics_start() -> MetricsV {
    MetricsV {
        exec_total: 0,
        exec_blocked: 0,
        exec_timeout: 0,
        exec_success: 0,
        exec_failed: 0,
        rollback_total: 0,
        rollback_failed: 0,
        duration_ns_sum: 0,
        stdio_bytes_sum: 0,
        buckets: seq![0, 0, 0, 0, 0],
        duration_ns_min: u64::MAX,
        duration_ns_max: 0,
    }
}

/// A count, one higher where something holds.
pub open spec fn counted(n: u64, hit: bool) -> u64 {
    if hit {
        n.wrapping_add(1)
    } else {
        n
    }
}

/// How many bytes a text has.
pub open spec fn byte_count(s: Seq<char>) -> u64 {
    encode_utf8(s).len() as usize as u64
}

/// The counts by class of durations behind one more duration.
pub open spec fn bucketed(buckets: Seq<u64>, ns: u64) -> Seq<u64> {
    match bucket_from(ns, 0) {
        Some(i) => buckets.update(i, buckets[i].wrapping_add(1)),
        None => buckets,
    }
}

/// The counts behind one more command.
pub open spec fn exec_recorded(m: MetricsV, r: ResultV) -> MetricsV {
    MetricsV {
        exec_total: m.exec_total.wrapping_add(1),
        exec_blocked: counted(m.exec_blocked, class_of(r) is Blocked),
        exec_timeout: counted(m.exec_timeout, class_of(r) is Timeout),
        exec_success: counted(m.exec_success, class_of(r) is Success),
        exec_failed: counted(m.exec_failed, class_of(r) is Failed),
        duration_ns_sum: m.duration_ns_sum.wrapping_add(r.duration_ns),
        stdio_bytes_sum: m.stdio_bytes_sum.wrapping_add(byte_count(r.stdout)).wrapping_add(byte_count(r.stderr)),
        buckets: bucketed(m.buckets, r.duration_ns),
        duration_ns_min: if r.duration_ns < m.duration_ns_min {
            r.duration_ns
        } else {
            m.duration_ns_min
        },
        duration_ns_max: if r.duration_ns > m.duration_ns_max {
            r.duration_ns
        } else {
            m.duration_ns_max
        },
        ..m
    }
}

/// The counts behind one more rollback.
pub open spec fn rollback_recorded(m: MetricsV, ok: bool) -> MetricsV {
    MetricsV { rollback_total: m.rollback_total.wrapping_add(1), rollback_failed: counted(m.rollback_failed, !ok), ..m }
}

/// The sums of the first counts, up to each place.
pub open spec fn running_sums(counts: Seq<u64>) -> Seq<u64>
    decreases counts.len(),
{
    if counts.len() == 0 {
        Seq::empty()
    } else {
        let before = running_sums(counts.drop_last());
        let sum = if before.len() == 0 {
            0u64
        } else {
            before.last()
        };
        before.push(sum.wrapping_add(counts.last()))
    }
}

/// A duration between two others: so many parts of the way from the lower to the higher.
#[derive(Debug, Clone, Copy, PartialEq, Eq, Structural)]
pub struct Quantile {
    pub lo_ns: u64,
    pub hi_ns: u64,
    pub num: u128,
    pub den: u128,
}

/// A duration that is known exactly.
pub open spec fn exactly(ns: u64) -> Quantile {
    Quantile { lo_ns: ns, hi_ns: ns, num: 0, den: 1 }
}

/// The first place from another on at which so many hundredths of a total are reached.
pub open spec fn reached_at(sums: Seq<u64>, total: u64, percent: u64, i: int) -> int
    decreases sums.len() - i,
{
    if i < 0 || i >= sums.len() || sums[i] * 100 >= total * percent {
        i
    } else {
        reached_at(sums, total, percent, i + 1)
    }
}

/// A percentage that is at most the whole.
pub open spec fn at_most_whole(percent: u64) -> u64 {
    if percent > 100 {
        100
    } else {
        percent
    }
}

/// The duration that so many hundredths of the commands do not pass, from the sums up to each class
/// and the total behind them: between the bounds of the class that it falls in, as far as it lies in
/// it. In the first class it is that class's bound, and behind the last the bound of the last.
pub open spec fn quantile_said(sums: Seq<u64>, percent: u64) -> Quantile {
    if sums.len() == 0 || sums.last() == 0 {
        exactly(0)
    } else {
        let total = sums.last();
        let p = at_most_whole(percent);
        let i = reached_at(sums, total, p, 0);
        if i == 0 {
            exactly(bucket_bound(0))
        } else if i >= BUCKETS || sums[i] <= sums[i - 1] {
            exactly(bucket_bound(i))
        } else {
            Quantile {
                lo_ns: bucket_bound(i - 1),
                hi_ns: bucket_bound(i),
                num: (total * p - sums[i - 1] * 100) as u128,
                den: ((sums[i] - sums[i - 1]) * 100) as u128,
            }
        }
    }
}

/// Where so many hundredths of a total are reached.
proof fn lemma_reached_at(sums: Seq<u64>, total: u64, percent: u64, i: int)
    requires
        0 <= i < sums.len(),
        total == sums.last(),
        percent <= 100,
    ensures
        i <= reached_at(sums, total, percent, i) < sums.len(),
        sums[reached_at(sums, total, percent, i)] * 100 >= total * percent,
        reached_at(sums, total, percent, i) > i ==> sums[reached_at(sums, total, percent, i) - 1] * 100 < total * percent,
    decreases sums.len() - i,
{
    assert(total * percent <= total * 100) by (nonlinear_arith)
        requires
            percent <= 100,
    ;
    if sums[i] * 100 < total * percent {
        lemma_reached_at(sums, total, percent, i + 1);
    }
}

/// The duration that so many hundredths of the commands do not pass.
pub fn histogram_quantile(sums: &Vec<u64>, percent: u64) -> (r: Quantile)
    ensures
        r == quantile_said(sums@, percent),
{
    let n: usize = sums.len();
    if n == 0 || sums[n - 1] == 0 {
        return Quantile { lo_ns: 0, hi_ns: 0, num: 0, den: 1 };
    }
    let total: u64 = sums[n - 1];
    let p: u64 = if percent > 100 {
        100
    } else {
        percent
    };
    assert(total * p <= 0xffff_ffff_ffff_ffff * 100) by (nonlinear_arith)
        requires
            p <= 100,
            total <= 0xffff_ffff_ffff_ffff,
    ;
    assert(total * p >= 0) by (nonlinear_arith);
    let target: u128 = (total as u128) * (p as u128);
    let mut i: usize = 0;
    proof {
        lemma_reached_at(sums@, total, p, 0);
    }
    while (sums[i] as u128) * 100 < target
        invariant
            i < n == sums@.len(),
            target == total * p,
            total == sums@.last(),
            reached_at(sums@, total, p, 0) == reached_at(sums@, total, p, i as int),
            reached_at(sums@, total, p, 0) < sums@.len(),
        decreases sums@.len() - i,
    {
        proof {
            assert(sums@[i as int] * 100 < total * p);
            assert(reached_at(sums@, total, p, i as int) == reached_at(sums@, total, p, i + 1));
        }
        i = i + 1;
    }
    proof {
        lemma_reached_at(sums@, total, p, 0);
    }
    if i == 0 {
        return Quantile { lo_ns: bucket_le(0), hi_ns: bucket_le(0), num: 0, den: 1 };
    }
    let prev: u64 = sums[i - 1];
    let cur: u64 = sums[i];
    if i >= BUCKETS || cur <= prev {
        return Quantile { lo_ns: bucket_le(i), hi_ns: bucket_le(i), num: 0, den: 1 };
    }
    Quantile {
        lo_ns: bucket_le(i - 1),
        hi_ns: bucket_le(i),
        num: target - (prev as u128) * 100,
        den: ((cur - prev) as u128) * 100,
    }
}

/// A duration that is told lies in the class that it falls in: no lower than the lower bound, and no
/// higher than the higher.
pub proof fn law_quantile_lies_in_its_class(sums: Seq<u64>, percent: u64)
    ensures
        quantile_said(sums, percent).lo_ns <= quantile_said(sums, percent).hi_ns,
        0 <= quantile_said(sums, percent).num <= quantile_said(sums, percent).den,
        quantile_said(sums, percent).den > 0,
{
    if sums.len() > 0 && sums.last() > 0 {
        let total = sums.last();
        let p = at_most_whole(percent);
        lemma_reached_at(sums, total, p, 0);
    }
}

/// Whether a duration that is told is no longer than another: the parts of the way that each has
/// gone, over a common denominator.
pub open spec fn is_no_longer(a: Quantile, b: Quantile) -> bool {
    (a.lo_ns * a.den + (a.hi_ns - a.lo_ns) * a.num) * b.den <= (b.lo_ns * b.den + (b.hi_ns - b.lo_ns) * b.num) * a.den
}

/// More hundredths of a total are reached no earlier.
proof fn lemma_more_is_reached_later(sums: Seq<u64>, total: u64, p: u64, q: u64, i: int)
    requires
        0 <= i,
        p <= q,
    ensures
        reached_at(sums, total, p, i) <= reached_at(sums, total, q, i),
        i <= reached_at(sums, total, p, i),
        i <= reached_at(sums, total, q, i),
    decreases sums.len() - i,
{
    assert(total * p <= total * q) by (nonlinear_arith)
        requires
            p <= q,
    ;
    if i < sums.len() {
        lemma_more_is_reached_later(sums, total, p, q, i + 1);
    }
}

/// A duration is no longer than another that starts where it ends, or that has gone further on the
/// same way.
proof fn lemma_no_longer(a: Quantile, b: Quantile)
    requires
        a.lo_ns <= a.hi_ns,
        b.lo_ns <= b.hi_ns,
        0 <= a.num <= a.den,
        0 <= b.num <= b.den,
        a.hi_ns <= b.lo_ns || (a.lo_ns == b.lo_ns && a.hi_ns == b.hi_ns && a.den == b.den && a.num <= b.num),
    ensures
        is_no_longer(a, b),
{
    let (al, ah, an, ad) = (a.lo_ns as int, a.hi_ns as int, a.num as int, a.den as int);
    let (bl, bh, bn, bd) = (b.lo_ns as int, b.hi_ns as int, b.num as int, b.den as int);
    let x = al * ad + (ah - al) * an;
    let y = bl * bd + (bh - bl) * bn;
    if a.hi_ns <= b.lo_ns {
        assert(x <= ah * ad) by (nonlinear_arith)
            requires
                x == al * ad + (ah - al) * an,
                al <= ah,
                an <= ad,
        ;
        assert(y >= bl * bd) by (nonlinear_arith)
            requires
                y == bl * bd + (bh - bl) * bn,
                bl <= bh,
                bn >= 0,
        ;
        assert(x * bd <= (ah * ad) * bd) by (nonlinear_arith)
            requires
                x <= ah * ad,
                bd >= 0,
        ;
        assert((ah * ad) * bd <= (bl * bd) * ad) by (nonlinear_arith)
            requires
                ah <= bl,
                ad >= 0,
                bd >= 0,
        ;
        assert((bl * bd) * ad <= y * ad) by (nonlinear_arith)
            requires
                y >= bl * bd,
                ad >= 0,
        ;
    } else {
        assert((ah - al) * an <= (ah - al) * bn) by (nonlinear_arith)
            requires
                an <= bn,
                al <= ah,
        ;
        assert(x <= y);
        assert(x * bd <= y * ad) by (nonlinear_arith)
            requires
                x <= y,
                ad == bd,
                bd >= 0,
        ;
    }
}

/// The more commands a duration has to hold, the longer it is: a duration that more hundredths do
/// not pass is no shorter.
pub proof fn law_quantile_grows(sums: Seq<u64>, p: u64, q: u64)
    requires
        p <= q,
    ensures
        is_no_longer(quantile_said(sums, p), quantile_said(sums, q)),
{
    if sums.len() > 0 && sums.last() > 0 {
        let total = sums.last();
        let (pp, qq) = (at_most_whole(p), at_most_whole(q));
        lemma_reached_at(sums, total, pp, 0);
        lemma_reached_at(sums, total, qq, 0);
        lemma_more_is_reached_later(sums, total, pp, qq, 0);
        law_quantile_lies_in_its_class(sums, p);
        law_quantile_lies_in_its_class(sums, q);
        assert(total * pp <= total * qq) by (nonlinear_arith)
            requires
                pp <= qq,
        ;
        assert(total * qq <= total * 100) by (nonlinear_arith)
            requires
                qq <= 100,
        ;
        lemma_no_longer(quantile_said(sums, p), quantile_said(sums, q));
    }
}

/// What the counts are shown as: the averages, bounds and quantiles in seconds are figures that
/// stand for durations.
pub struct Figures {
    pub avg: Json,
    pub min: Json,
    pub max: Json,
    pub p50: Json,
    pub p95: Json,
    pub p99: Json,
    pub bounds: Json,
}

/// Some counts as JSON.
pub open spec fn counts_said(v: Seq<u64>) -> Seq<JsonV>
    decreases v.len(),
{
    if v.len() == 0 {
        Seq::empty()
    } else {
        counts_said(v.drop_last()).push(JsonV::UInt(v.last()))
    }
}

/// The average number of bytes that a command wrote.
pub open spec fn bytes_avg(m: MetricsV) -> u64 {
    if m.exec_total == 0 {
        0
    } else {
        m.stdio_bytes_sum / m.exec_total
    }
}

/// What the counts are shown as.
pub open spec fn snapshot_said(m: MetricsV, f: Figures) -> JsonV {
    let a = with_member(no_members(), "exec_total"@, JsonV::UInt(m.exec_total));
    let b = with_member(a, "exec_success"@, JsonV::UInt(m.exec_success));
    let c = with_member(b, "exec_blocked"@, JsonV::UInt(m.exec_blocked));
    let d = with_member(c, "exec_timeout"@, JsonV::UInt(m.exec_timeout));
    let e = with_member(d, "exec_failed"@, JsonV::UInt(m.exec_failed));
    let g = with_member(e, "execute_duration_sec_avg"@, f.avg@);
    let h = with_member(g, "execute_duration_sec_min"@, f.min@);
    let i = with_member(h, "execute_duration_sec_max"@, f.max@);
    let j = with_member(i, "execute_duration_sec_p50"@, f.p50@);
    let k = with_member(j, "execute_duration_sec_p95"@, f.p95@);
    let l = with_member(k, "execute_duration_sec_p99"@, f.p99@);
    let n = with_member(l, "execute_duration_buckets"@, JsonV::Arr(counts_said(m.buckets)));
    let o = with_member(n, "execute_duration_bucket_le"@, f.bounds@);
    let p = with_member(o, "stdio_bytes_total"@, JsonV::UInt(m.stdio_bytes_sum));
    let q = with_member(p, "stdio_bytes_avg"@, JsonV::UInt(bytes_avg(m)));
    let r = with_member(q, "rollback_total"@, JsonV::UInt(m.rollback_total));
    with_member(r, "rollback_failed"@, JsonV::UInt(m.rollback_failed))
}

impl Metrics {
    /// Whether there is a count for each class of durations.
    pub open spec fn wf(&self) -> bool {
        self@.buckets.len() == BUCKETS
    }

    /// The counts before the first command.
    pub fn new() -> (r: Self)
        ensures
            r.wf(),
            r@ == metrics_start(),
    {
        let r = Metrics {
            exec_total: 0,
            exec_blocked: 0,
            exec_timeout: 0,
            exec_success: 0,
            exec_failed: 0,
            rollback_total: 0,
            rollback_failed: 0,
            duration_ns_sum: 0,
            stdio_bytes_sum: 0,
            buckets: vec![0, 0, 0, 0, 0],
            duration_ns_min: u64::MAX,
            duration_ns_max: 0,
        };
        proof {
            assert(r@.buckets =~= seq![0, 0, 0, 0, 0]);
        }
        r
    }

    /// Counts a command.
    pub fn record_exec(&mut self, r: &ExecutionResult)
        requires
            old(self).wf(),
        ensures
            final(self).wf(),
            final(self)@ == exec_recorded(old(self)@, r@),
    {
        self.exec_total = self.exec_total.wrapping_add(1);
        match record_exec_outcome(r) {
            ExecClass::Blocked => {
                self.exec_blocked = self.exec_blocked.wrapping_add(1);
            },
            ExecClass::Timeout => {
                self.exec_timeout = self.exec_timeout.wrapping_add(1);
            },
            ExecClass::Success => {
                self.exec_success = self.exec_success.wrapping_add(1);
            },
            ExecClass::Failed => {
                self.exec_failed = self.exec_failed.wrapping_add(1);
            },
        }
        let ns: u64 = r.duration_ns;
        self.duration_ns_sum = self.duration_ns_sum.wrapping_add(ns);
        let out: u64 = r.stdout.as_str().len() as u64;
        let err: u64 = r.stderr.as_str().len() as u64;
        self.stdio_bytes_sum = self.stdio_bytes_sum.wrapping_add(out).wrapping_add(err);
        if let Some(i) = duration_bucket_index(ns) {
            let n: u64 = self.buckets[i];
            self.buckets.set(i, n.wrapping_add(1));
        }
        if ns < self.duration_ns_min {
            self.duration_ns_min = ns;
        }
        if ns > self.duration_ns_max {
            self.duration_ns_max = ns;
        }
    }

    /// Counts a rollback.
    pub fn record_rollback(&mut self, ok: bool)
        ensures
            final(self)@ == rollback_recorded(old(self)@, ok),
    {
        self.rollback_total = self.rollback_total.wrapping_add(1);
        if !ok {
            self.rollback_failed = self.rollback_failed.wrapping_add(1);
        }
    }

    /// The sums of the counts up to each class of durations, and the total behind them.
    pub fn cumulative(&self) -> (r: Vec<u64>)
        ensures
            r@ == running_sums(self@.buckets).push(self@.exec_total),
    {
        let mut sums: Vec<u64> = Vec::new();
        let mut acc: u64 = 0;
        let mut i: usize = 0;
        while i < self.buckets.len()
            invariant
                i <= self.buckets@.len(),
                sums@ == running_sums(self.buckets@.take(i as int)),
                sums@.len() == i,
                acc == (if i == 0 {
                    0
                } else {
                    sums@.last()
                }),
            decreases self.buckets@.len() - i,
        {
            proof {
                assert(self.buckets@.take(i + 1).drop_last() =~= self.buckets@.take(i as int));
            }
            acc = acc.wrapping_add(self.buckets[i]);
            sums.push(acc);
            i = i + 1;
        }
        proof {
            assert(self.buckets@.take(i as int) =~= self.buckets@);
        }
        sums.push(self.exec_total);
        sums
    }

    /// The time that commands took together in nanoseconds, and how many there were.
    pub fn duration_total(&self) -> (r: (u64, u64))
        ensures
            r == (self@.duration_ns_sum, self@.exec_total),
    {
        (self.duration_ns_sum, self.exec_total)
    }

    /// The shortest and the longest duration in nanoseconds; of no command, zero.
    pub fn duration_bounds(&self) -> (r: (u64, u64))
        ensures
            r.0 == (if self@.duration_ns_min == u64::MAX {
                0
            } else {
                self@.duration_ns_min
            }),
            r.1 == self@.duration_ns_max,
    {
        let min: u64 = if self.duration_ns_min == u64::MAX {
            0
        } else {
            self.duration_ns_min
        };
        (min, self.duration_ns_max)
    }

    /// The counts by class of durations, as JSON.
    fn buckets_json(&self) -> (r: Json)
        ensures
            r@ == JsonV::Arr(counts_said(self@.buckets)),
    {
        let mut out: Vec<Json> = Vec::new();
        let mut i: usize = 0;
        while i < self.buckets.len()
            invariant
                i <= self.buckets@.len(),
                items_said(out@) == counts_said(self.buckets@.take(i as int)),
            decreases self.buckets@.len() - i,
        {
            let ghost before = out@;
            proof {
                assert(self.buckets@.take(i + 1).drop_last() =~= self.buckets@.take(i as int));
            }
            out.push(Json::UInt(self.buckets[i]));
            proof {
                assert(out@.drop_last() =~= before);
                assert(out@.last()@ == JsonV::UInt(self.buckets@.take(i + 1).last()));
            }
            i = i + 1;
        }
        proof {
            assert(self.buckets@.take(i as int) =~= self.buckets@);
        }
        Json::Arr(out)
    }

    /// What the counts are shown as.
    pub fn metrics_snapshot(&self, f: &Figures) -> (r: Json)
        ensures
            r@ == snapshot_said(self@, *f),
    {
        let avg_bytes: u64 = if self.exec_total == 0 {
            0
        } else {
            self.stdio_bytes_sum / self.exec_total
        };
        empty_object()
            .with("exec_total", Json::UInt(self.exec_total))
            .with("exec_success", Json::UInt(self.exec_success))
            .with("exec_blocked", Json::UInt(self.exec_blocked))
            .with("exec_timeout", Json::UInt(self.exec_timeout))
            .with("exec_failed", Json::UInt(self.exec_failed))
            .with("execute_duration_sec_avg", f.avg.copy())
            .with("execute_duration_sec_min", f.min.copy())
            .with("execute_duration_sec_max", f.max.copy())
            .with("execute_duration_sec_p50", f.p50.copy())
            .with("execute_duration_sec_p95", f.p95.copy())
            .with("execute_duration_sec_p99", f.p99.copy())
            .with("execute_duration_buckets", self.buckets_json())
            .with("execute_duration_bucket_le", f.bounds.copy())
            .with("stdio_bytes_total", Json::UInt(self.stdio_bytes_sum))
            .with("stdio_bytes_avg", Json::UInt(avg_bytes))
            .with("rollback_total", Json::UInt(self.rollback_total))
            .with("rollback_failed", Json::UInt(self.rollback_failed))
    }
}

impl Default for Metrics {
    fn default() -> (r: Self)
        ensures
            r.wf(),
            r@ == metrics_start(),
    {
        Self::new()
    }
}

/// Whether the counts by class add up to the count in all, as numbers of 64 bits do.
pub open spec fn counts_agree(m: MetricsV) -> bool {
    (m.exec_blocked + m.exec_timeout + m.exec_success + m.exec_failed - m.exec_total) % 0x1_0000_0000_0000_0000 == 0
}

/// Each command is counted in one class: the counts by class add up to the count in all.
pub proof fn law_each_command_is_in_one_class(m: MetricsV, r: ResultV, ok: bool)
    requires
        counts_agree(m),
    ensures
        counts_agree(exec_recorded(m, r)),
        counts_agree(rollback_recorded(m, ok)),
        counts_agree(metrics_start()),
{
}

/// The duration of each command lies between the shortest and the longest that are told.
pub proof fn law_durations_lie_between_the_bounds(m: MetricsV, r: ResultV)
    ensures
        exec_recorded(m, r).duration_ns_min <= r.duration_ns <= exec_recorded(m, r).duration_ns_max,
        exec_recorded(m, r).duration_ns_min <= m.duration_ns_min,
        exec_recorded(m, r).duration_ns_max >= m.duration_ns_max,
{
}

/// The classes that durations are counted in end at five, fifty and five hundred milliseconds, and at
/// five and thirty seconds.
pub proof fn law_classes_end_at_their_bounds()
    ensures
        bucket_bound(0) == 5_000_000,
        bucket_bound(1) == 50_000_000,
        bucket_bound(2) == 500_000_000,
        bucket_bound(3) == 5_000_000_000,
        bucket_bound(4) == 30_000_000_000,
        BUCKETS == 5,
{
}

/// A count that goes up by one where something is so, and otherwise stays.
pub open spec fn goes_up(before: u64, after: u64, by: int) -> bool {
    before + by <= u64::MAX ==> after == before + by
}

/// Each command is counted, in the count for what came of it alone; how long it took and what it
/// wrote are added up, and the shortest and longest are kept. Rollbacks are not counted by it.
pub proof fn law_command_is_counted_for_what_came_of_it(m: MetricsV, r: ResultV)
    ensures
        ({
            let n = exec_recorded(m, r);
            let late = r.timed_out || r.exit_code == -124;
            &&& goes_up(m.exec_total, n.exec_total, 1)
            &&& goes_up(m.exec_blocked, n.exec_blocked, if r.blocked_by_security { 1 } else { 0 })
            &&& goes_up(m.exec_timeout, n.exec_timeout, if !r.blocked_by_security && late { 1 } else { 0 })
            &&& goes_up(m.exec_success, n.exec_success, if !r.blocked_by_security && !late && r.exit_code == 0 { 1 } else { 0 })
            &&& goes_up(m.exec_failed, n.exec_failed, if !r.blocked_by_security && !late && r.exit_code != 0 { 1 } else { 0 })
            &&& goes_up(m.duration_ns_sum, n.duration_ns_sum, r.duration_ns as int)
            &&& n.duration_ns_min <= r.duration_ns && n.duration_ns_min <= m.duration_ns_min && (n.duration_ns_min == r.duration_ns || n.duration_ns_min == m.duration_ns_min)
            &&& n.duration_ns_max >= r.duration_ns && n.duration_ns_max >= m.duration_ns_max && (n.duration_ns_max == r.duration_ns || n.duration_ns_max == m.duration_ns_max)
            &&& n.rollback_total == m.rollback_total && n.rollback_failed == m.rollback_failed
            &&& encode_utf8(r.stdout).len() <= usize::MAX && encode_utf8(r.stderr).len() <= usize::MAX && encode_utf8(r.stdout).len() + encode_utf8(r.stderr).len() + m.stdio_bytes_sum <= u64::MAX ==> n.stdio_bytes_sum == m.stdio_bytes_sum + encode_utf8(r.stdout).len() + encode_utf8(r.stderr).len()
        }),
{
}

/// A duration is counted in the first class that it does not pass, and in no other; one that passes
/// all is counted in none.
pub proof fn law_duration_is_counted_in_its_class(m: MetricsV, r: ResultV, i: int)
    requires
        m.buckets.len() == 5,
        0 <= i < 5,
    ensures
        exec_recorded(m, r).buckets.len() == 5,
        r.duration_ns <= bucket_bound(i) && (i == 0 || r.duration_ns > bucket_bound(i - 1)) ==> goes_up(m.buckets[i], exec_recorded(m, r).buckets[i], 1),
        r.duration_ns > bucket_bound(i) || (i > 0 && r.duration_ns <= bucket_bound(i - 1)) ==> exec_recorded(m, r).buckets[i] == m.buckets[i],
{
    reveal_with_fuel(bucket_from, 6);
}

/// A rollback is counted, and one that failed also as that; commands are not counted by it.
pub proof fn law_rollback_is_counted(m: MetricsV, ok: bool)
    ensures
        goes_up(m.rollback_total, rollback_recorded(m, ok).rollback_total, 1),
        goes_up(m.rollback_failed, rollback_recorded(m, ok).rollback_failed, if ok { 0 } else { 1 }),
        (MetricsV { rollback_total: m.rollback_total, rollback_failed: m.rollback_failed, ..rollback_recorded(m, ok) }) == m,
        metrics_start().exec_total == 0 && metrics_start().rollback_total == 0 && metrics_start().duration_ns_min == u64::MAX && metrics_start().duration_ns_max == 0,
{
}

/// The sums of some counts go up by one count after another.
pub proof fn law_sums_run_up(counts: Seq<u64>, i: int)
    requires
        0 <= i < counts.len(),
    ensures
        running_sums(counts).len() == counts.len(),
        i == 0 ==> running_sums(counts)[0] == counts[0],
        i > 0 ==> goes_up(running_sums(counts)[i - 1], running_sums(counts)[i], counts[i] as int),
    decreases counts.len(),
{
    let front = counts.drop_last();
    if front.len() > 0 {
        law_sums_run_up(front, if i < front.len() {
            i
        } else {
            0
        });
    } else {
        assert(running_sums(front) =~= Seq::empty());
    }
}

/// The duration that some hundredths of the commands do not pass lies in the first class up to which
/// that many are counted, as far into it as the count is into the class: its place between the
/// bounds is that of the hundredths asked for between the sums.
pub proof fn law_quantile_is_as_far_as_the_count(sums: Seq<u64>, percent: u64, i: int)
    requires
        percent <= 100,
        1 <= i < sums.len(),
        i < 5,
        sums.last() > 0,
        forall|j: int| 0 <= j < i ==> #[trigger] sums[j] * 100 < sums.last() * percent,
        sums[i] * 100 >= sums.last() * percent,
    ensures
        ({
            let q = quantile_said(sums, percent);
            &&& q.lo_ns == bucket_bound(i - 1) && q.hi_ns == bucket_bound(i)
            &&& q.num == sums.last() * percent - sums[i - 1] * 100
            &&& q.den == (sums[i] - sums[i - 1]) * 100
        }),
{
    lemma_reached_there(sums, sums.last(), percent, 0, i);
    assert(sums[i - 1] * 100 < sums.last() * percent);
    assert(sums.last() * percent <= 0xffff_ffff_ffff_ffff * 100) by (nonlinear_arith)
        requires
            percent <= 100,
            sums.last() <= 0xffff_ffff_ffff_ffff,
    ;
}

/// The first place at which enough is counted is reached.
proof fn lemma_reached_there(sums: Seq<u64>, total: u64, percent: u64, from: int, i: int)
    requires
        0 <= from <= i < sums.len(),
        forall|j: int| from <= j < i ==> #[trigger] sums[j] * 100 < total * percent,
        sums[i] * 100 >= total * percent,
    ensures
        reached_at(sums, total, percent, from) == i,
    decreases i - from,
{
    if from < i {
        lemma_reached_there(sums, total, percent, from + 1, i);
    }
}

/// Where enough is counted in the first class already, the duration is that class's bound, and where
/// nothing is counted there is none. More than the whole is the whole.
pub proof fn law_quantile_at_the_ends(sums: Seq<u64>, percent: u64)
    ensures
        sums.len() == 0 || sums.last() == 0 ==> quantile_said(sums, percent).lo_ns == 0 && quantile_said(sums, percent).hi_ns == 0,
        sums.len() > 0 && sums.last() > 0 && percent <= 100 && sums[0] * 100 >= sums.last() * percent ==> quantile_said(sums, percent).lo_ns == 5_000_000 && quantile_said(sums, percent).hi_ns == 5_000_000,
        percent > 100 ==> quantile_said(sums, percent) == quantile_said(sums, 100),
{
}

/// The figures that are shown are the counts, each under its own name.
#[verifier::spinoff_prover]
pub proof fn law_counts_are_shown_under_their_names(m: MetricsV, f: Figures)
    ensures
        ({
            let shown = snapshot_said(m, f);
            &&& shown is Obj
            &&& shown->Obj_0["exec_total"@] == JsonV::UInt(m.exec_total)
            &&& shown->Obj_0["exec_success"@] == JsonV::UInt(m.exec_success)
            &&& shown->Obj_0["exec_blocked"@] == JsonV::UInt(m.exec_blocked)
            &&& shown->Obj_0["exec_timeout"@] == JsonV::UInt(m.exec_timeout)
            &&& shown->Obj_0["exec_failed"@] == JsonV::UInt(m.exec_failed)
            &&& shown->Obj_0["execute_duration_sec_avg"@] == f.avg@
            &&& shown->Obj_0["execute_duration_sec_min"@] == f.min@
            &&& shown->Obj_0["execute_duration_sec_max"@] == f.max@
            &&& shown->Obj_0["execute_duration_sec_p50"@] == f.p50@
            &&& shown->Obj_0["execute_duration_sec_p95"@] == f.p95@
            &&& shown->Obj_0["execute_duration_sec_p99"@] == f.p99@
            &&& shown->Obj_0["execute_duration_bucket_le"@] == f.bounds@
            &&& shown->Obj_0["stdio_bytes_total"@] == JsonV::UInt(m.stdio_bytes_sum)
            &&& shown->Obj_0["rollback_total"@] == JsonV::UInt(m.rollback_total)
            &&& shown->Obj_0["rollback_failed"@] == JsonV::UInt(m.rollback_failed)
            &&& shown->Obj_0["execute_duration_buckets"@] == JsonV::Arr(m.buckets.map_values(|n: u64| JsonV::UInt(n)))
            &&& m.exec_total > 0 ==> shown->Obj_0["stdio_bytes_avg"@] == JsonV::UInt((m.stdio_bytes_sum / m.exec_total) as u64)
            &&& m.exec_total == 0 ==> shown->Obj_0["stdio_bytes_avg"@] == JsonV::UInt(0)
        }),
{
    lemma_counts_said(m.buckets);
    reveal_strlit("exec_total");
    reveal_strlit("exec_success");
    reveal_strlit("exec_blocked");
    reveal_strlit("exec_timeout");
    reveal_strlit("exec_failed");
    reveal_strlit("execute_duration_sec_avg");
    reveal_strlit("execute_duration_sec_min");
    reveal_strlit("execute_duration_sec_max");
    reveal_strlit("execute_duration_sec_p50");
    reveal_strlit("execute_duration_sec_p95");
    reveal_strlit("execute_duration_sec_p99");
    reveal_strlit("execute_duration_bucket_le");
    reveal_strlit("stdio_bytes_total");
    reveal_strlit("rollback_total");
    reveal_strlit("rollback_failed");
    reveal_strlit("execute_duration_buckets");
    reveal_strlit("stdio_bytes_avg");
    assert("exec_total"@.len() == 10);
    assert("exec_success"@.len() == 12);
    assert("exec_blocked"@.len() == 12);
    assert("exec_timeout"@.len() == 12);
    assert("exec_failed"@.len() == 11);
    assert("execute_duration_sec_avg"@.len() == 24);
    assert("execute_duration_sec_min"@.len() == 24);
    assert("execute_duration_sec_max"@.len() == 24);
    assert("execute_duration_sec_p50"@.len() == 24);
    assert("execute_duration_sec_p95"@.len() == 24);
    assert("execute_duration_sec_p99"@.len() == 24);
    assert("execute_duration_bucket_le"@.len() == 26);
    assert("stdio_bytes_total"@.len() == 17);
    assert("rollback_total"@.len() == 14);
    assert("rollback_failed"@.len() == 15);
    assert("execute_duration_buckets"@.len() == 24);
    assert("stdio_bytes_avg"@.len() == 15);
    assert("exec_success"@[5] != "exec_blocked"@[5]);
    assert("exec_success"@[5] != "exec_timeout"@[5]);
    assert("exec_blocked"@[5] != "exec_timeout"@[5]);
    assert("execute_duration_sec_avg"@[21] != "execute_duration_sec_min"@[21]);
    assert("execute_duration_sec_avg"@[21] != "execute_duration_sec_max"@[21]);
    assert("execute_duration_sec_avg"@[21] != "execute_duration_sec_p50"@[21]);
    assert("execute_duration_sec_avg"@[21] != "execute_duration_sec_p95"@[21]);
    assert("execute_duration_sec_avg"@[21] != "execute_duration_sec_p99"@[21]);
    assert("execute_duration_sec_avg"@[17] != "execute_duration_buckets"@[17]);
    assert("execute_duration_sec_min"@[22] != "execute_duration_sec_max"@[22]);
    assert("execute_duration_sec_min"@[21] != "execute_duration_sec_p50"@[21]);
    assert("execute_duration_sec_min"@[21] != "execute_duration_sec_p95"@[21]);
    assert("execute_duration_sec_min"@[21] != "execute_duration_sec_p99"@[21]);
    assert("execute_duration_sec_min"@[17] != "execute_duration_buckets"@[17]);
    assert("execute_duration_sec_max"@[21] != "execute_duration_sec_p50"@[21]);
    assert("execute_duration_sec_max"@[21] != "execute_duration_sec_p95"@[21]);
    assert("execute_duration_sec_max"@[21] != "execute_duration_sec_p99"@[21]);
    assert("execute_duration_sec_max"@[17] != "execute_duration_buckets"@[17]);
    assert("execute_duration_sec_p50"@[22] != "execute_duration_sec_p95"@[22]);
    assert("execute_duration_sec_p50"@[22] != "execute_duration_sec_p99"@[22]);
    assert("execute_duration_sec_p50"@[17] != "execute_duration_buckets"@[17]);
    assert("execute_duration_sec_p95"@[23] != "execute_duration_sec_p99"@[23]);
    assert("execute_duration_sec_p95"@[17] != "execute_duration_buckets"@[17]);
    assert("execute_duration_sec_p99"@[17] != "execute_duration_buckets"@[17]);
    assert("rollback_failed"@[0] != "stdio_bytes_avg"@[0]);
}

/// Some counts as JSON are one number for each.
proof fn lemma_counts_said(v: Seq<u64>)
    ensures
        counts_said(v) == v.map_values(|n: u64| JsonV::UInt(n)),
    decreases v.len(),
{
    if v.len() > 0 {
        lemma_counts_said(v.drop_last());
    }
    assert(counts_said(v) =~= v.map_values(|n: u64| JsonV::UInt(n)));
}

/// At first nothing is counted, and no duration is the shortest or the longest yet.
pub proof fn law_nothing_is_counted_at_first()
    ensures
        ({
            let m = metrics_start();
            &&& m.exec_total == 0 && m.exec_blocked == 0 && m.exec_timeout == 0 && m.exec_success == 0 && m.exec_failed == 0
            &&& m.rollback_total == 0 && m.rollback_failed == 0 && m.duration_ns_sum == 0 && m.stdio_bytes_sum == 0
            &&& m.buckets.len() == 5 && (forall|i: int| 0 <= i < 5 ==> #[trigger] m.buckets[i] == 0)
            &&& m.duration_ns_min == u64::MAX && m.duration_ns_max == 0
        }),
{
}

} // verus!
