//! Studying the runs of a memory-hog scenario.

use vstd::prelude::*;

use crate::arith::{self, apply, Op};
use crate::lists;
use crate::mem_hog::{MemHog, MemHogResult, MemHogRun};
use crate::readings::{self, Measure, Source};
use crate::report::Report;
use crate::strmap::StrMap;

verus! {

/// What the reports from before the hogs say: means and standard deviations of
/// the workload's throughput and latency.
#[derive(Debug)]
pub struct BaseStats<F> {
    pub base_rps: F,
    pub base_rps_stdev: F,
    pub base_lat: F,
    pub base_lat_stdev: F,
}

/// What the reports from the hogs' periods say.
#[derive(Debug)]
pub struct HogStats<F> {
    pub work_isol_pcts: StrMap<F>,
    pub work_isol: F,
    pub work_isol_stdev: F,
    pub lat_impact_pcts: StrMap<F>,
    pub lat_impact: F,
    pub lat_impact_stdev: F,
    pub iolat_pcts: [StrMap<StrMap<F>>; 2],
    pub vrate: F,
    pub vrate_stdev: F,
    pub io: IoTally<F>,
}

/// IO costs, added up over reports. They are relative to the device's modelled
/// capacity.
#[derive(Debug)]
pub struct IoTally<F> {
    /// What was used.
    pub io_usage: F,
    /// What was left.
    pub io_unused: F,
    /// What the hogs used.
    pub hog_io_usage: F,
}

/// `x` is a utilization relative to the modelled capacity. It is reported
/// relative to the effective vrate.
pub open spec fn is_scaled<F, A: Fn(Op<F>) -> F>(arith: A, util: F, vrate: F, x: F) -> bool {
    exists|p: F, h: F|
        {
            &&& #[trigger] arith::gives(arith, Op::Mul(util, vrate), p)
            &&& #[trigger] arith::gives(arith, Op::Int(100), h)
            &&& arith::gives(arith, Op::Div(p, h), x)
        }
}

/// `x` is a cost with a utilization added to it.
pub open spec fn is_charged<F, A: Fn(Op<F>) -> F>(arith: A, cost: F, util: F, vrate: F, x: F) -> bool {
    exists|s: F| #[trigger] is_scaled(arith, util, vrate, s) && arith::gives(arith, Op::Add(cost, s), x)
}

/// `x` is what a utilization leaves, and nothing if it leaves less than that.
pub open spec fn is_rest<F, A: Fn(Op<F>) -> F>(arith: A, util: F, x: F) -> bool {
    exists|one: F, d: F, zero: F|
        {
            &&& #[trigger] arith::gives(arith, Op::Int(1), one)
            &&& #[trigger] arith::gives(arith, Op::Sub(one, util), d)
            &&& #[trigger] arith::gives(arith, Op::Int(0), zero)
            &&& arith::gives(arith, Op::Max(d, zero), x)
        }
}

/// Adds a utilization to a cost.
fn charged<F: Copy, A: Fn(Op<F>) -> F>(cost: F, util: F, vrate: F, arith: &A) -> (x: F)
    requires
        arith::does_all(*arith),
    ensures
        is_charged(*arith, cost, util, vrate, x),
{
    let p = apply(arith, Op::Mul(util, vrate));
    let h = apply(arith, Op::Int(100));
    let s = apply(arith, Op::Div(p, h));
    assert(is_scaled(*arith, util, vrate, s));
    apply(arith, Op::Add(cost, s))
}

/// Nothing is added up yet.
pub open spec fn is_no_tally<F, A: Fn(Op<F>) -> F>(arith: A, io: IoTally<F>) -> bool {
    &&& arith::gives(arith, Op::Int(0), io.io_usage)
    &&& arith::gives(arith, Op::Int(0), io.io_unused)
    &&& arith::gives(arith, Op::Int(0), io.hog_io_usage)
}

/// The costs that a report tells of are added: those of the whole machine,
/// which is the slice `root`, and those of the hog, if its service is there.
pub open spec fn tallies<F, A: Fn(Op<F>) -> F>(
    arith: A,
    before: IoTally<F>,
    rep: Report<F>,
    root: Seq<char>,
    hog_svc: Seq<char>,
    after: IoTally<F>,
) -> bool {
    &&& is_charged(arith, before.io_usage, rep.usages@[root].io_util, rep.vrate, after.io_usage)
    &&& exists|rest: F| #[trigger]
        is_rest(arith, rep.usages@[root].io_util, rest) && is_charged(
            arith,
            before.io_unused,
            rest,
            rep.vrate,
            after.io_unused,
        )
    &&& if rep.usages@.contains_key(hog_svc) {
        is_charged(arith, before.hog_io_usage, rep.usages@[hog_svc].io_util, rep.vrate, after.hog_io_usage)
    } else {
        after.hog_io_usage == before.hog_io_usage
    }
}

impl<F: Copy> IoTally<F> {
    /// Nothing added up yet.
    pub fn new<A: Fn(Op<F>) -> F>(arith: &A) -> (r: Self)
        requires
            arith::does_all(*arith),
        ensures
            is_no_tally(*arith, r),
    {
        IoTally {
            io_usage: apply(arith, Op::Int(0)),
            io_unused: apply(arith, Op::Int(0)),
            hog_io_usage: apply(arith, Op::Int(0)),
        }
    }

    /// Adds the costs that a report tells of: those of the whole machine, which
    /// is the slice `root`, and those of the hog, if its service is there.
    pub fn add_report<A: Fn(Op<F>) -> F>(&mut self, rep: &Report<F>, root: &str, hog_svc: &str, arith: &A)
        requires
            arith::does_all(*arith),
            rep.usages@.contains_key(root@),
        ensures
            tallies(*arith, *old(self), *rep, root@, hog_svc@, *final(self)),
    {
        let root_util = rep.usages.get(root).unwrap().io_util;
        self.io_usage = charged(self.io_usage, root_util, rep.vrate, arith);
        let one = apply(arith, Op::Int(1));
        let d = apply(arith, Op::Sub(one, root_util));
        let zero = apply(arith, Op::Int(0));
        let rest = apply(arith, Op::Max(d, zero));
        assert(is_rest(*arith, root_util, rest));
        self.io_unused = charged(self.io_unused, rest, rep.vrate, arith);
        if let Some(usage) = rep.usages.get(hog_svc) {
            self.hog_io_usage = charged(self.hog_io_usage, usage.io_util, rep.vrate, arith);
        }
    }
}

/// `x` is the throughput over the baseline, and no more than one.
pub open spec fn is_work_isol<F, A: Fn(Op<F>) -> F>(arith: A, rps: F, base_rps: F, x: F) -> bool {
    exists|q: F, one: F|
        {
            &&& #[trigger] arith::gives(arith, Op::Div(rps, base_rps), q)
            &&& #[trigger] arith::gives(arith, Op::Int(1), one)
            &&& arith::gives(arith, Op::Min(q, one), x)
        }
}

/// `x` is by how much a latency is over the baseline, as a share of that, and
/// no less than nothing and no more than one.
pub open spec fn is_lat_impact<F, A: Fn(Op<F>) -> F>(arith: A, lat: F, base_lat: F, x: F) -> bool {
    exists|q: F, one: F, d: F, zero: F, m: F|
        {
            &&& #[trigger] arith::gives(arith, Op::Div(lat, base_lat), q)
            &&& #[trigger] arith::gives(arith, Op::Int(1), one)
            &&& #[trigger] arith::gives(arith, Op::Sub(q, one), d)
            &&& #[trigger] arith::gives(arith, Op::Int(0), zero)
            &&& #[trigger] arith::gives(arith, Op::Max(d, zero), m)
            &&& arith::gives(arith, Op::Min(m, one), x)
        }
}

/// `x` is the latency impact where a latency under the baseline counts as the
/// baseline.
pub open spec fn is_clamped_lat_impact<F, A: Fn(Op<F>) -> F>(arith: A, lat: F, base_lat: F, x: F) -> bool {
    exists|clamped: F| #[trigger]
        arith::gives(arith, Op::Max(lat, base_lat), clamped) && is_lat_impact(arith, clamped, base_lat, x)
}

/// `x` is the IO cost of the bytes that the hogs were kept from writing, at the
/// cost per byte of those that they put out to swap.
pub open spec fn is_io_loss<F, A: Fn(Op<F>) -> F>(
    arith: A,
    hog_io_usage: F,
    hog_bytes: u64,
    hog_lost_bytes: u64,
    x: F,
) -> bool {
    exists|bytes: F, cost: F, lost: F|
        {
            &&& #[trigger] arith::gives(arith, Op::Int(hog_bytes), bytes)
            &&& #[trigger] arith::gives(arith, Op::Div(hog_io_usage, bytes), cost)
            &&& #[trigger] arith::gives(arith, Op::Int(hog_lost_bytes), lost)
            &&& arith::gives(arith, Op::Mul(lost, cost), x)
        }
}

/// `x` is the IO usage as a share of what could have been used: that and, of
/// what was left, as much as the hogs could have used. It is zero if
/// nothing was used.
pub open spec fn is_work_csv<F, A: Fn(Op<F>) -> F, P: Fn(F) -> bool>(
    arith: A,
    positive: P,
    io_usage: F,
    io_unused: F,
    hog_io_loss: F,
    x: F,
) -> bool {
    ||| call_ensures(positive, (io_usage,), false) && arith::gives(arith, Op::Int(0), x)
    ||| call_ensures(positive, (io_usage,), true) && exists|more: F, possible: F|
        {
            &&& #[trigger] arith::gives(arith, Op::Min(io_unused, hog_io_loss), more)
            &&& #[trigger] arith::gives(arith, Op::Add(io_usage, more), possible)
            &&& arith::gives(arith, Op::Div(io_usage, possible), x)
        }
}

/// A time as an unsigned number, which wraps round before the epoch.
pub open spec fn unsigned(timestamp: i64) -> int {
    if timestamp >= 0 {
        timestamp as int
    } else {
        timestamp + 0x1_0000_0000_0000_0000
    }
}

impl MemHogRun {
    /// From when the workload was stable to when the hog was started.
    pub open spec fn base_period(self) -> (u64, u64) {
        (self.stable_at, self.hog_started_at)
    }

    /// From the first report of the hog to its last one.
    pub open spec fn hog_period(self) -> (u64, u64) {
        (unsigned(self.first_hog_rep.timestamp) as u64, unsigned(self.last_hog_rep.timestamp) as u64)
    }

    /// How many bytes the hog put out to swap: all it wrote but for what was
    /// in physical memory.
    pub open spec fn swapped_out(self) -> nat {
        if self.last_hog_rep.wbytes >= self.last_hog_mem {
            (self.last_hog_rep.wbytes - self.last_hog_mem) as nat
        } else {
            0
        }
    }
}

/// The periods of the baseline.
pub open spec fn base_periods_of(runs: Seq<MemHogRun>) -> Seq<(u64, u64)> {
    runs.map_values(|run: MemHogRun| run.base_period())
}

/// The periods of the hogs.
pub open spec fn hog_periods_of(runs: Seq<MemHogRun>) -> Seq<(u64, u64)> {
    runs.map_values(|run: MemHogRun| run.hog_period())
}

/// How many bytes the hogs put out to swap in all.
pub open spec fn hog_bytes_of(runs: Seq<MemHogRun>) -> nat
    decreases runs.len(),
{
    if runs.len() == 0 {
        0
    } else {
        hog_bytes_of(runs.drop_last()) + runs.last().swapped_out()
    }
}

/// How many bytes the hogs were kept from writing in all.
pub open spec fn hog_lost_bytes_of(runs: Seq<MemHogRun>) -> nat
    decreases runs.len(),
{
    if runs.len() == 0 {
        0
    } else {
        hog_lost_bytes_of(runs.drop_last()) + runs.last().last_hog_rep.wloss as nat
    }
}

/// The totals of some first runs are no more than those of all runs.
proof fn lemma_totals_grow(runs: Seq<MemHogRun>, n: int)
    requires
        0 <= n <= runs.len(),
    ensures
        hog_bytes_of(runs.take(n)) <= hog_bytes_of(runs),
        hog_lost_bytes_of(runs.take(n)) <= hog_lost_bytes_of(runs),
    decreases runs.len(),
{
    if n == runs.len() {
        assert(runs.take(n) =~= runs);
    } else {
        lemma_totals_grow(runs.drop_last(), n);
        assert(runs.drop_last().take(n) =~= runs.take(n));
    }
}

/// The totals over two lists of runs are the sums of the lists' totals, and
/// the periods are those of the one list and then those of the other.
pub proof fn lemma_study_append(a: Seq<MemHogRun>, b: Seq<MemHogRun>)
    ensures
        hog_bytes_of(a + b) == hog_bytes_of(a) + hog_bytes_of(b),
        hog_lost_bytes_of(a + b) == hog_lost_bytes_of(a) + hog_lost_bytes_of(b),
        hog_periods_of(a + b) == hog_periods_of(a) + hog_periods_of(b),
        base_periods_of(a + b) == base_periods_of(a) + base_periods_of(b),
    decreases b.len(),
{
    assert(hog_periods_of(a + b) =~= hog_periods_of(a) + hog_periods_of(b));
    assert(base_periods_of(a + b) =~= base_periods_of(a) + base_periods_of(b));
    if b.len() == 0 {
        assert(a + b =~= a);
    } else {
        lemma_study_append(a, b.drop_last());
        assert((a + b).drop_last() =~= a + b.drop_last());
    }
}

/// The periods over which the baseline is taken: one for each run.
pub fn base_periods(runs: &Vec<MemHogRun>) -> (r: Vec<(u64, u64)>)
    ensures
        r@ == base_periods_of(runs@),
{
    let mut periods: Vec<(u64, u64)> = Vec::new();
    let mut i: usize = 0;
    while i < runs.len()
        invariant
            i <= runs@.len(),
            periods@ == base_periods_of(runs@.take(i as int)),
        decreases runs@.len() - i,
    {
        let run = runs[i];
        periods.push((run.stable_at, run.hog_started_at));
        i += 1;
        assert(periods@ =~= base_periods_of(runs@.take(i as int)));
    }
    assert(runs@.take(i as int) =~= runs@);
    periods
}

/// A time as an unsigned number.
fn to_unsigned(timestamp: i64) -> (r: u64)
    ensures
        r == unsigned(timestamp),
{
    let r = timestamp as u64;
    assert(timestamp < 0 ==> timestamp as u64 == timestamp + 0x1_0000_0000_0000_0000) by (bit_vector);
    r
}

/// The periods over which the hogs' impact is taken: one for each run.
pub fn hog_periods(runs: &Vec<MemHogRun>) -> (r: Vec<(u64, u64)>)
    ensures
        r@ == hog_periods_of(runs@),
{
    let mut periods: Vec<(u64, u64)> = Vec::new();
    let mut i: usize = 0;
    while i < runs.len()
        invariant
            i <= runs@.len(),
            periods@ == hog_periods_of(runs@.take(i as int)),
        decreases runs@.len() - i,
    {
        let run = runs[i];
        periods.push((to_unsigned(run.first_hog_rep.timestamp), to_unsigned(run.last_hog_rep.timestamp)));
        i += 1;
        assert(periods@ =~= hog_periods_of(runs@.take(i as int)));
    }
    assert(runs@.take(i as int) =~= runs@);
    periods
}

/// Whether the totals of the runs fit.
pub fn totals_fit(runs: &Vec<MemHogRun>) -> (r: bool)
    ensures
        r == (hog_bytes_of(runs@) <= u64::MAX && hog_lost_bytes_of(runs@) <= u64::MAX),
{
    let mut hog_bytes: u64 = 0;
    let mut hog_lost_bytes: u64 = 0;
    let mut i: usize = 0;
    while i < runs.len()
        invariant
            i <= runs@.len(),
            hog_bytes == hog_bytes_of(runs@.take(i as int)),
            hog_lost_bytes == hog_lost_bytes_of(runs@.take(i as int)),
        decreases runs@.len() - i,
    {
        proof {
            lemma_totals_grow(runs@, i + 1);
            assert(runs@.take(i + 1).drop_last() =~= runs@.take(i as int));
        }
        let run = runs[i];
        let swapped_out = run.last_hog_rep.wbytes.saturating_sub(run.last_hog_mem as u64);
        if swapped_out > u64::MAX - hog_bytes || run.last_hog_rep.wloss > u64::MAX - hog_lost_bytes {
            return false;
        }
        hog_bytes += swapped_out;
        hog_lost_bytes += run.last_hog_rep.wloss;
        i += 1;
    }
    assert(runs@.take(i as int) =~= runs@);
    true
}

/// How many bytes the hogs put out to swap, and how many they were kept from
/// writing.
pub fn hog_totals(runs: &Vec<MemHogRun>) -> (r: (u64, u64))
    requires
        hog_bytes_of(runs@) <= u64::MAX,
        hog_lost_bytes_of(runs@) <= u64::MAX,
    ensures
        r.0 == hog_bytes_of(runs@),
        r.1 == hog_lost_bytes_of(runs@),
{
    let mut hog_bytes: u64 = 0;
    let mut hog_lost_bytes: u64 = 0;
    let mut i: usize = 0;
    while i < runs.len()
        invariant
            i <= runs@.len(),
            hog_bytes == hog_bytes_of(runs@.take(i as int)),
            hog_lost_bytes == hog_lost_bytes_of(runs@.take(i as int)),
            hog_bytes_of(runs@) <= u64::MAX,
            hog_lost_bytes_of(runs@) <= u64::MAX,
        decreases runs@.len() - i,
    {
        proof {
            lemma_totals_grow(runs@, i + 1);
            assert(runs@.take(i + 1).drop_last() =~= runs@.take(i as int));
        }
        let run = runs[i];
        hog_bytes += run.last_hog_rep.wbytes.saturating_sub(run.last_hog_mem as u64);
        hog_lost_bytes += run.last_hog_rep.wloss;
        i += 1;
    }
    assert(runs@.take(i as int) =~= runs@);
    (hog_bytes, hog_lost_bytes)
}

/// A result holds what the reports say as they say it.
pub open spec fn holds_stats<F>(r: MemHogResult<F>, base: BaseStats<F>, stats: HogStats<F>) -> bool {
    &&& r.base_rps == base.base_rps
    &&& r.base_rps_stdev == base.base_rps_stdev
    &&& r.base_lat == base.base_lat
    &&& r.base_lat_stdev == base.base_lat_stdev
    &&& r.work_isol_pcts == stats.work_isol_pcts
    &&& r.work_isol == stats.work_isol
    &&& r.work_isol_stdev == stats.work_isol_stdev
    &&& r.lat_impact_pcts == stats.lat_impact_pcts
    &&& r.lat_impact == stats.lat_impact
    &&& r.lat_impact_stdev == stats.lat_impact_stdev
    &&& r.iolat_pcts == stats.iolat_pcts
    &&& r.vrate == stats.vrate
    &&& r.vrate_stdev == stats.vrate_stdev
    &&& r.io_usage == stats.io.io_usage
    &&& r.io_unused == stats.io.io_unused
    &&& r.hog_io_usage == stats.io.hog_io_usage
}

/// A result is that of studying the given runs.
pub open spec fn studies<F, A: Fn(Op<F>) -> F, P: Fn(F) -> bool>(
    r: MemHogResult<F>,
    runs: Seq<MemHogRun>,
    main_period: (u64, u64),
    base: BaseStats<F>,
    stats: HogStats<F>,
    arith: A,
    positive: P,
) -> bool {
    &&& holds_stats(r, base, stats)
    &&& r.main_period == main_period
    &&& r.hog_periods@ == hog_periods_of(runs)
    &&& r.hog_bytes == hog_bytes_of(runs)
    &&& r.hog_lost_bytes == hog_lost_bytes_of(runs)
    &&& is_io_loss(arith, r.hog_io_usage, r.hog_bytes, r.hog_lost_bytes, r.hog_io_loss)
    &&& is_work_csv(arith, positive, r.io_usage, r.io_unused, r.hog_io_loss, r.work_csv)
}

/// A baseline is what the reports of the hold periods of all runs say, taken
/// together: the mean and the standard deviation of the throughput and of the
/// latency.
pub open spec fn is_base_stats<F, G: Fn((u64, u64)) -> Vec<Report<F>>, S: Fn(Vec<F>) -> (F, F)>(
    runs: Seq<MemHogRun>,
    reports: G,
    summary: S,
    base: BaseStats<F>,
) -> bool {
    exists|reps: Seq<Report<F>>|
        {
            &&& #[trigger] readings::pooled(reports, base_periods_of(runs), reps)
            &&& readings::is_summary(
                summary,
                readings::values_of(reps, Measure::Rps),
                base.base_rps,
                base.base_rps_stdev,
            )
            &&& readings::is_summary(
                summary,
                readings::values_of(reps, Measure::Lat),
                base.base_lat,
                base.base_lat_stdev,
            )
        }
}

/// What the reports of the hogs' periods say, taken together, against a
/// baseline.
pub open spec fn is_hog_stats<
    's,
    F,
    G: Fn((u64, u64)) -> Vec<Report<F>>,
    S: Fn(Vec<F>) -> (F, F),
    Q: Fn(Vec<F>, Vec<&'static str>) -> StrMap<F>,
    L: Fn(Vec<(u64, u64)>) -> [StrMap<StrMap<F>>; 2],
    A: Fn(Op<F>) -> F,
    P: Fn(F) -> bool,
>(runs: Seq<MemHogRun>, base: BaseStats<F>, src: Source<'s, G, S, Q, L, A, P>, stats: HogStats<F>) -> bool {
    exists|reps: Seq<Report<F>>, isols: Seq<F>, impacts: Seq<F>|
        {
            &&& #[trigger] readings::pooled(*src.reports, hog_periods_of(runs), reps)
            &&& #[trigger] readings::are_work_isols(*src.arith, reps, base.base_rps, isols)
            &&& readings::is_summary(*src.summary, isols, stats.work_isol, stats.work_isol_stdev)
            &&& readings::are_percentiles(*src.percentiles, isols, stats.work_isol_pcts)
            &&& #[trigger] readings::are_lat_impacts(*src.arith, reps, base.base_lat, impacts)
            &&& readings::is_summary(*src.summary, impacts, stats.lat_impact, stats.lat_impact_stdev)
            &&& readings::are_percentiles(*src.percentiles, impacts, stats.lat_impact_pcts)
            &&& readings::is_tally(*src.arith, reps, src.root@, src.hog_svc@, stats.io)
            &&& readings::is_summary(
                *src.summary,
                readings::values_of(reps, Measure::Vrate),
                stats.vrate,
                stats.vrate_stdev,
            )
            &&& readings::are_io_lats(*src.io_lat, hog_periods_of(runs), stats.iolat_pcts)
        }
}

/// A result is that of studying the given runs with the reports of a source.
pub open spec fn is_study<
    's,
    F,
    G: Fn((u64, u64)) -> Vec<Report<F>>,
    S: Fn(Vec<F>) -> (F, F),
    Q: Fn(Vec<F>, Vec<&'static str>) -> StrMap<F>,
    L: Fn(Vec<(u64, u64)>) -> [StrMap<StrMap<F>>; 2],
    A: Fn(Op<F>) -> F,
    P: Fn(F) -> bool,
>(r: MemHogResult<F>, runs: Seq<MemHogRun>, main_period: (u64, u64), src: Source<'s, G, S, Q, L, A, P>) -> bool {
    exists|base: BaseStats<F>, stats: HogStats<F>|
        {
            &&& #[trigger] is_base_stats(runs, *src.reports, *src.summary, base)
            &&& #[trigger] is_hog_stats(runs, base, src, stats)
            &&& studies(r, runs, main_period, base, stats, *src.arith, *src.positive)
        }
}

/// The runs can be studied: their totals fit, and the reports of the hogs'
/// periods tell of the whole machine.
pub open spec fn can_study<F, G: Fn((u64, u64)) -> Vec<Report<F>>>(
    runs: Seq<MemHogRun>,
    reports: G,
    root: Seq<char>,
) -> bool {
    &&& hog_bytes_of(runs) <= u64::MAX
    &&& hog_lost_bytes_of(runs) <= u64::MAX
    &&& readings::all_have(reports, hog_periods_of(runs), root)
}

/// A result has the totals and the periods of its own runs.
pub open spec fn is_of_its_runs<F>(r: MemHogResult<F>) -> bool {
    &&& r.hog_bytes == hog_bytes_of(r.runs@)
    &&& r.hog_lost_bytes == hog_lost_bytes_of(r.runs@)
    &&& r.hog_periods@ == hog_periods_of(r.runs@)
}

impl<F: Copy> MemHog<F> {
    /// Work isolation: the throughput over the baseline. One is perfect.
    pub fn calc_work_isol<A: Fn(Op<F>) -> F>(rps: F, base_rps: F, arith: &A) -> (x: F)
        requires
            arith::does_all(*arith),
        ensures
            is_work_isol(*arith, rps, base_rps, x),
    {
        let q = apply(arith, Op::Div(rps, base_rps));
        let one = apply(arith, Op::Int(1));
        apply(arith, Op::Min(q, one))
    }

    /// Latency impact: by how much the latency is over the baseline, as a share
    /// of that. Zero is none, and an increase by the baseline or more is one.
    pub fn calc_lat_impact<A: Fn(Op<F>) -> F>(lat: F, base_lat: F, arith: &A) -> (x: F)
        requires
            arith::does_all(*arith),
        ensures
            is_lat_impact(*arith, lat, base_lat, x),
    {
        let q = apply(arith, Op::Div(lat, base_lat));
        let one = apply(arith, Op::Int(1));
        let d = apply(arith, Op::Sub(q, one));
        let zero = apply(arith, Op::Int(0));
        let m = apply(arith, Op::Max(d, zero));
        apply(arith, Op::Min(m, one))
    }

    /// The work isolation that a report tells of.
    pub fn work_isol_of<A: Fn(Op<F>) -> F>(rep: &Report<F>, base_rps: F, arith: &A) -> (x: F)
        requires
            arith::does_all(*arith),
        ensures
            is_work_isol(*arith, rep.hashd_rps, base_rps, x),
    {
        Self::calc_work_isol(rep.hashd_rps, base_rps, arith)
    }

    /// The latency impact that a report tells of. A latency under the baseline
    /// counts as the baseline.
    pub fn lat_impact_of<A: Fn(Op<F>) -> F>(rep: &Report<F>, base_lat: F, arith: &A) -> (x: F)
        requires
            arith::does_all(*arith),
        ensures
            is_clamped_lat_impact(*arith, rep.hashd_lat, base_lat, x),
    {
        let lat = apply(arith, Op::Max(rep.hashd_lat, base_lat));
        Self::calc_lat_impact(lat, base_lat, arith)
    }

    /// The baseline: what the reports of the hold periods say.
    pub fn base_stats<G: Fn((u64, u64)) -> Vec<Report<F>>, S: Fn(Vec<F>) -> (F, F)>(
        runs: &Vec<MemHogRun>,
        reports: &G,
        summary: &S,
    ) -> (base: BaseStats<F>)
        requires
            forall|p: (u64, u64)| call_requires(*reports, (p,)),
            forall|v: Vec<F>| call_requires(*summary, (v,)),
        ensures
            is_base_stats(runs@, *reports, *summary, base),
    {
        let reps = readings::pull(&base_periods(runs), reports);
        let (base_rps, base_rps_stdev) = summary(readings::values(&reps, Measure::Rps));
        let (base_lat, base_lat_stdev) = summary(readings::values(&reps, Measure::Lat));
        let base = BaseStats { base_rps, base_rps_stdev, base_lat, base_lat_stdev };
        proof {
            let rps = readings::values_of(reps@, Measure::Rps);
            let lat = readings::values_of(reps@, Measure::Lat);
            assert(readings::is_summary(*summary, rps, base_rps, base_rps_stdev));
            assert(readings::is_summary(*summary, lat, base_lat, base_lat_stdev));
        }
        base
    }

    /// The impact of the hogs: what the reports of their periods say against
    /// the baseline.
    pub fn hog_stats<
        G: Fn((u64, u64)) -> Vec<Report<F>>,
        S: Fn(Vec<F>) -> (F, F),
        Q: Fn(Vec<F>, Vec<&'static str>) -> StrMap<F>,
        L: Fn(Vec<(u64, u64)>) -> [StrMap<StrMap<F>>; 2],
        A: Fn(Op<F>) -> F,
        P: Fn(F) -> bool,
    >(runs: &Vec<MemHogRun>, base: &BaseStats<F>, src: &Source<G, S, Q, L, A, P>) -> (stats: HogStats<F>)
        requires
            readings::works(*src),
            readings::all_have(*src.reports, hog_periods_of(runs@), src.root@),
        ensures
            is_hog_stats(runs@, *base, *src, stats),
    {
        let periods = hog_periods(runs);
        let reps = readings::pull(&periods, src.reports);
        proof {
            readings::lemma_pooled_have(*src.reports, periods@, reps@, src.root@);
        }
        let isols = readings::work_isols(&reps, base.base_rps, src.arith);
        let impacts = readings::lat_impacts(&reps, base.base_lat, src.arith);
        let ghost (xs, ys) = (isols@, impacts@);
        let io = readings::tally(&reps, src.root, src.hog_svc, src.arith);
        let (vrate, vrate_stdev) = (src.summary)(readings::values(&reps, Measure::Vrate));
        let (work_isol, work_isol_stdev) = (src.summary)(lists::copied(&isols));
        let work_isol_pcts = readings::shown_percentiles(isols, src.percentiles);
        let (lat_impact, lat_impact_stdev) = (src.summary)(lists::copied(&impacts));
        let lat_impact_pcts = readings::shown_percentiles(impacts, src.percentiles);
        let iolat_pcts = (src.io_lat)(periods);
        proof {
            assert(readings::is_summary(*src.summary, xs, work_isol, work_isol_stdev));
            assert(readings::is_summary(*src.summary, ys, lat_impact, lat_impact_stdev));
            assert(readings::is_summary(
                *src.summary,
                readings::values_of(reps@, Measure::Vrate),
                vrate,
                vrate_stdev,
            ));
            assert(readings::are_io_lats(*src.io_lat, hog_periods_of(runs@), iolat_pcts));
        }
        HogStats {
            work_isol_pcts,
            work_isol,
            work_isol_stdev,
            lat_impact_pcts,
            lat_impact,
            lat_impact_stdev,
            iolat_pcts,
            vrate,
            vrate_stdev,
            io,
        }
    }

    /// The result of studying `runs` with the reports of a source. The runs
    /// themselves are not part of the result.
    pub fn study<
        G: Fn((u64, u64)) -> Vec<Report<F>>,
        S: Fn(Vec<F>) -> (F, F),
        Q: Fn(Vec<F>, Vec<&'static str>) -> StrMap<F>,
        L: Fn(Vec<(u64, u64)>) -> [StrMap<StrMap<F>>; 2],
        A: Fn(Op<F>) -> F,
        P: Fn(F) -> bool,
    >(runs: &Vec<MemHogRun>, main_period: (u64, u64), src: &Source<G, S, Q, L, A, P>) -> (r: MemHogResult<F>)
        requires
            readings::works(*src),
            can_study(runs@, *src.reports, src.root@),
        ensures
            is_study(r, runs@, main_period, *src),
            r.runs@.len() == 0,
    {
        let base = Self::base_stats(runs, src.reports, src.summary);
        let stats = Self::hog_stats(runs, &base, src);
        Self::study_stats(runs, main_period, base, stats, src.arith, src.positive)
    }

    /// The result of studying `runs`, given what the reports of their hold
    /// periods and of their hogs' periods say. `positive` tells whether a
    /// quantity is more than zero.
    pub fn study_stats<A: Fn(Op<F>) -> F, P: Fn(F) -> bool>(
        runs: &Vec<MemHogRun>,
        main_period: (u64, u64),
        base: BaseStats<F>,
        stats: HogStats<F>,
        arith: &A,
        positive: &P,
    ) -> (r: MemHogResult<F>)
        requires
            hog_bytes_of(runs@) <= u64::MAX,
            hog_lost_bytes_of(runs@) <= u64::MAX,
            arith::does_all(*arith),
            forall|x: F| call_requires(*positive, (x,)),
        ensures
            studies(r, runs@, main_period, base, stats, *arith, *positive),
            r.runs@.len() == 0,
    {
        let (hog_bytes, hog_lost_bytes) = hog_totals(runs);
        let IoTally { io_usage, io_unused, hog_io_usage } = stats.io;
        let bytes = apply(arith, Op::Int(hog_bytes));
        let cost_per_byte = apply(arith, Op::Div(hog_io_usage, bytes));
        let lost = apply(arith, Op::Int(hog_lost_bytes));
        let hog_io_loss = apply(arith, Op::Mul(lost, cost_per_byte));
        let work_csv = if positive(io_usage) {
            let more = apply(arith, Op::Min(io_unused, hog_io_loss));
            let possible = apply(arith, Op::Add(io_usage, more));
            apply(arith, Op::Div(io_usage, possible))
        } else {
            apply(arith, Op::Int(0))
        };
        MemHogResult {
            base_rps: base.base_rps,
            base_rps_stdev: base.base_rps_stdev,
            base_lat: base.base_lat,
            base_lat_stdev: base.base_lat_stdev,
            work_isol_pcts: stats.work_isol_pcts,
            work_isol: stats.work_isol,
            work_isol_stdev: stats.work_isol_stdev,
            lat_impact_pcts: stats.lat_impact_pcts,
            lat_impact: stats.lat_impact,
            lat_impact_stdev: stats.lat_impact_stdev,
            work_csv,
            iolat_pcts: stats.iolat_pcts,
            main_period,
            hog_periods: hog_periods(runs),
            vrate: stats.vrate,
            vrate_stdev: stats.vrate_stdev,
            io_usage,
            io_unused,
            hog_io_usage,
            hog_io_loss,
            hog_bytes,
            hog_lost_bytes,
            runs: Vec::new(),
        }
    }

    /// The result of the scenario, once it is seen through: that of studying
    /// its runs, with the runs.
    pub fn result<
        G: Fn((u64, u64)) -> Vec<Report<F>>,
        S: Fn(Vec<F>) -> (F, F),
        Q: Fn(Vec<F>, Vec<&'static str>) -> StrMap<F>,
        L: Fn(Vec<(u64, u64)>) -> [StrMap<StrMap<F>>; 2],
        A: Fn(Op<F>) -> F,
        P: Fn(F) -> bool,
    >(&self, src: &Source<G, S, Q, L, A, P>) -> (r: MemHogResult<F>)
        requires
            readings::works(*src),
            can_study(self.runs@, *src.reports, src.root@),
        ensures
            is_study(r, self.runs@, self.main_period, *src),
            r.runs@ == self.runs@,
            is_of_its_runs(r),
    {
        let mut result = Self::study(&self.runs, self.main_period, src);
        result.runs = self.runs.clone();
        assert(result.runs@ =~= self.runs@);
        result
    }
}

} // verus!
