//! What comes of a call.
//!
//! Each law here speaks of an outcome that a call may have.

use vstd::prelude::*;

use crate::arith::{self, Op};
use crate::combine::{self, Amount, CombinedPcts, Mean, Replay, Spread};
use crate::exact;
use crate::exact_combine;
use crate::exact_study;
use crate::mem_hog::{MemHog, MemHogResult, MemHogRun};
use crate::readings::{self, Measure, Source};
use crate::report::{Report, Usage};
use crate::strmap::StrMap;
use crate::study::{self, BaseStats, HogStats, IoTally};

verus! {

/// Work isolation is the share of the baseline that the throughput is, be the
/// throughput given or read from a report.
pub proof fn lemma_calc_work_isol<F: Copy, A: Fn(Op<F>) -> F>(
    rps: F,
    rep: &Report<F>,
    base_rps: F,
    arith: &A,
    val: spec_fn(F) -> real,
    x: F,
)
    requires
        exact::is_exact(*arith, val),
        val(base_rps) > 0 as real,
    ensures
        call_ensures(MemHog::<F>::calc_work_isol::<A>, (rps, base_rps, arith), x) ==> exact_study::is_isolation(
            val(x),
            val(rps),
            val(base_rps),
        ),
        call_ensures(MemHog::<F>::work_isol_of::<A>, (rep, base_rps, arith), x) ==> exact_study::is_isolation(
            val(x),
            val(rep.hashd_rps),
            val(base_rps),
        ),
{
    if call_ensures(MemHog::<F>::calc_work_isol::<A>, (rps, base_rps, arith), x) {
        exact_study::lemma_work_isol(*arith, val, rps, base_rps, x);
    }
    if call_ensures(MemHog::<F>::work_isol_of::<A>, (rep, base_rps, arith), x) {
        exact_study::lemma_work_isol(*arith, val, rep.hashd_rps, base_rps, x);
    }
}

/// Latency impact is by which share of the baseline the latency is over it, be
/// the latency given or read from a report.
pub proof fn lemma_calc_lat_impact<F: Copy, A: Fn(Op<F>) -> F>(
    lat: F,
    rep: &Report<F>,
    base_lat: F,
    arith: &A,
    val: spec_fn(F) -> real,
    x: F,
)
    requires
        exact::is_exact(*arith, val),
        val(base_lat) > 0 as real,
    ensures
        call_ensures(MemHog::<F>::calc_lat_impact::<A>, (lat, base_lat, arith), x) ==> exact_study::is_impact(
            val(x),
            val(lat),
            val(base_lat),
        ),
        call_ensures(MemHog::<F>::lat_impact_of::<A>, (rep, base_lat, arith), x) ==> exact_study::is_impact(
            val(x),
            val(rep.hashd_lat),
            val(base_lat),
        ),
{
    if call_ensures(MemHog::<F>::calc_lat_impact::<A>, (lat, base_lat, arith), x) {
        exact_study::lemma_lat_impact(*arith, val, lat, base_lat, x);
    }
    if call_ensures(MemHog::<F>::lat_impact_of::<A>, (rep, base_lat, arith), x) {
        exact_study::lemma_lat_impact_of(*arith, val, rep.hashd_lat, base_lat, x);
    }
}

/// Each mean, deviation and amount of a result is the field of that name.
pub proof fn lemma_fields<F: Copy>(r: &MemHogResult<F>, x: F)
    ensures
        call_ensures(MemHogResult::<F>::mean, (r, Mean::BaseRps), x) ==> x == r.base_rps,
        call_ensures(MemHogResult::<F>::mean, (r, Mean::BaseLat), x) ==> x == r.base_lat,
        call_ensures(MemHogResult::<F>::mean, (r, Mean::WorkIsol), x) ==> x == r.work_isol,
        call_ensures(MemHogResult::<F>::mean, (r, Mean::LatImpact), x) ==> x == r.lat_impact,
        call_ensures(MemHogResult::<F>::mean, (r, Mean::WorkCsv), x) ==> x == r.work_csv,
        call_ensures(MemHogResult::<F>::mean, (r, Mean::Vrate), x) ==> x == r.vrate,
        call_ensures(MemHogResult::<F>::spread, (r, Spread::BaseRps), x) ==> x == r.base_rps_stdev,
        call_ensures(MemHogResult::<F>::spread, (r, Spread::BaseLat), x) ==> x == r.base_lat_stdev,
        call_ensures(MemHogResult::<F>::spread, (r, Spread::WorkIsol), x) ==> x == r.work_isol_stdev,
        call_ensures(MemHogResult::<F>::spread, (r, Spread::LatImpact), x) ==> x == r.lat_impact_stdev,
        call_ensures(MemHogResult::<F>::spread, (r, Spread::Vrate), x) ==> x == r.vrate_stdev,
        call_ensures(MemHogResult::<F>::amount, (r, Amount::IoUsage), x) ==> x == r.io_usage,
        call_ensures(MemHogResult::<F>::amount, (r, Amount::IoUnused), x) ==> x == r.io_unused,
        call_ensures(MemHogResult::<F>::amount, (r, Amount::HogIoUsage), x) ==> x == r.hog_io_usage,
        call_ensures(MemHogResult::<F>::amount, (r, Amount::HogIoLoss), x) ==> x == r.hog_io_loss,
{
}

/// What a report says of a measure is its field for it.
pub proof fn lemma_measure<F: Copy>(rep: &Report<F>, x: F)
    ensures
        call_ensures(readings::measure::<F>, (rep, Measure::Rps), x) ==> x == rep.hashd_rps,
        call_ensures(readings::measure::<F>, (rep, Measure::Lat), x) ==> x == rep.hashd_lat,
        call_ensures(readings::measure::<F>, (rep, Measure::Vrate), x) ==> x == rep.vrate,
{
}

/// `combine_stats` merges results. Their means are beyond all numbers if there
/// is no run.
pub proof fn lemma_combine_stats<F: Copy, A: Fn(Op<F>) -> F>(
    results: &Vec<&MemHogResult<F>>,
    pcts: CombinedPcts<F>,
    arith: &A,
    val: spec_fn(F) -> real,
    beyond: spec_fn(F) -> bool,
    cmb: MemHogResult<F>,
)
    requires
        call_ensures(MemHog::<F>::combine_stats::<A>, (results, pcts, arith), cmb),
        exact_combine::are_countable(results@),
    ensures
        exact::is_exact(*arith, val) ==> exact_combine::merges(cmb, results@, val),
        cmb.work_isol_pcts == pcts.work_isol_pcts,
        cmb.lat_impact_pcts == pcts.lat_impact_pcts,
        cmb.iolat_pcts == pcts.iolat_pcts,
        exact::divides_out(*arith, |a: F| true, beyond) && (forall|i: int|
            0 <= i < results@.len() ==> (#[trigger] results@[i]).runs@.len() == 0) ==> {
            &&& beyond(cmb.base_rps) && beyond(cmb.base_lat)
            &&& beyond(cmb.work_isol) && beyond(cmb.lat_impact)
            &&& beyond(cmb.work_csv) && beyond(cmb.vrate)
        },
{
    if exact::is_exact(*arith, val) {
        exact_combine::lemma_combine_stats_merges(cmb, results@, pcts, *arith, val);
    }
    if exact::divides_out(*arith, |a: F| true, beyond) && (forall|i: int|
        0 <= i < results@.len() ==> (#[trigger] results@[i]).runs@.len() == 0) {
        exact_combine::lemma_means_of_no_runs(cmb, results@, pcts, *arith, beyond);
    }
}

/// `combine_results` merges results, and reads their reports again for the
/// percentiles.
pub proof fn lemma_combine_results<
    's,
    F: Copy,
    G: Fn((u64, u64)) -> Vec<Report<F>>,
    S: Fn(Vec<F>) -> (F, F),
    Q: Fn(Vec<F>, Vec<&'static str>) -> StrMap<F>,
    L: Fn(Vec<(u64, u64)>) -> [StrMap<StrMap<F>>; 2],
    A: Fn(Op<F>) -> F,
    P: Fn(F) -> bool,
>(
    results: &Vec<&MemHogResult<F>>,
    src: &Source<'s, G, S, Q, L, A, P>,
    val: spec_fn(F) -> real,
    cmb: MemHogResult<F>,
)
    requires
        call_ensures(MemHog::<F>::combine_results::<G, S, Q, L, A, P>, (results, src), cmb),
        exact_combine::are_countable(results@),
        exact::is_exact(*src.arith, val),
    ensures
        exact_combine::merges(cmb, results@, val),
        exact_combine::has_baselines(results@, val) ==> exact_combine::rereads(
            cmb.work_isol_pcts,
            cmb.lat_impact_pcts,
            cmb.iolat_pcts,
            results@,
            *src,
            val,
        ),
{
    exact_combine::lemma_combine_results_merges(cmb, results@, *src, val);
}

/// `combined_pcts` reads the reports of all results again, each against the
/// baseline of its own result.
pub proof fn lemma_combined_pcts<
    's,
    F: Copy,
    G: Fn((u64, u64)) -> Vec<Report<F>>,
    S: Fn(Vec<F>) -> (F, F),
    Q: Fn(Vec<F>, Vec<&'static str>) -> StrMap<F>,
    L: Fn(Vec<(u64, u64)>) -> [StrMap<StrMap<F>>; 2],
    A: Fn(Op<F>) -> F,
    P: Fn(F) -> bool,
>(
    results: &Vec<&MemHogResult<F>>,
    src: &Source<'s, G, S, Q, L, A, P>,
    val: spec_fn(F) -> real,
    pcts: CombinedPcts<F>,
)
    requires
        call_ensures(MemHog::<F>::combined_pcts::<G, S, Q, L, A, P>, (results, src), pcts),
        exact::is_exact(*src.arith, val),
        exact_combine::has_baselines(results@, val),
    ensures
        exact_combine::rereads(pcts.work_isol_pcts, pcts.lat_impact_pcts, pcts.iolat_pcts, results@, *src, val),
{
    exact_combine::lemma_combined_pcts(results@, *src, pcts, val);
}

/// `replays` lists the periods of each result in turn, each with the baseline of
/// its own result: what one more result adds is its periods.
pub proof fn lemma_replays<F: Copy>(
    results: &Vec<&MemHogResult<F>>,
    more: &Vec<&MemHogResult<F>>,
    r: &MemHogResult<F>,
    a: Vec<Replay<F>>,
    b: Vec<Replay<F>>,
)
    requires
        more@ == results@.push(r),
        call_ensures(MemHog::<F>::replays, (results,), a),
        call_ensures(MemHog::<F>::replays, (more,), b),
    ensures
        results@.len() == 0 ==> a@.len() == 0,
        b@ == a@ + Seq::new(
            r.hog_periods@.len(),
            |i: int| Replay { base_rps: r.base_rps, base_lat: r.base_lat, period: r.hog_periods@[i] },
        ),
{
    exact_combine::lemma_replays(results@, r);
    if results@.len() == 0 {
        assert(results@ =~= Seq::<&MemHogResult<F>>::empty());
    }
}

/// `can_combine` tells whether the runs and the bytes of results add up to what
/// fits.
pub proof fn lemma_can_combine<F>(results: &Vec<&MemHogResult<F>>, r: bool)
    requires
        call_ensures(combine::can_combine::<F>, (results,), r),
    ensures
        r <==> {
            &&& exact::total(results@, |r: &MemHogResult<F>| r.runs@.len() as real) <= (usize::MAX as real)
            &&& exact::total(results@, |r: &MemHogResult<F>| r.hog_bytes as real) <= (u64::MAX as real)
            &&& exact::total(results@, |r: &MemHogResult<F>| r.hog_lost_bytes as real) <= (u64::MAX as real)
        },
{
    exact_combine::lemma_sums_fit(results@);
}

/// `study_stats` accounts for the runs, and hands on what the reports say as
/// they say it.
pub proof fn lemma_study_stats<F: Copy, A: Fn(Op<F>) -> F, P: Fn(F) -> bool>(
    runs: &Vec<MemHogRun>,
    main_period: (u64, u64),
    base: BaseStats<F>,
    stats: HogStats<F>,
    arith: &A,
    positive: &P,
    val: spec_fn(F) -> real,
    r: MemHogResult<F>,
)
    requires
        call_ensures(MemHog::<F>::study_stats::<A, P>, (runs, main_period, base, stats, arith, positive), r),
        exact::is_exact(*arith, val),
        exact::tells_positive(*positive, val),
    ensures
        exact_study::accounts(r, runs@, main_period, val),
        r.base_rps == base.base_rps && r.base_rps_stdev == base.base_rps_stdev,
        r.base_lat == base.base_lat && r.base_lat_stdev == base.base_lat_stdev,
        r.work_isol == stats.work_isol && r.work_isol_stdev == stats.work_isol_stdev,
        r.lat_impact == stats.lat_impact && r.lat_impact_stdev == stats.lat_impact_stdev,
        r.work_isol_pcts == stats.work_isol_pcts && r.lat_impact_pcts == stats.lat_impact_pcts,
        r.iolat_pcts == stats.iolat_pcts,
        r.vrate == stats.vrate && r.vrate_stdev == stats.vrate_stdev,
        r.io_usage == stats.io.io_usage && r.io_unused == stats.io.io_unused,
        r.hog_io_usage == stats.io.hog_io_usage,
        r.runs@.len() == 0,
{
    exact_study::lemma_study_stats_accounts(r, runs@, main_period, base, stats, *arith, *positive, val);
}

/// What `study_stats` makes of hogs that put out nothing to swap: the IO cost of
/// what they were kept from writing is beyond all numbers, and all that was left
/// counts against the work conservation.
pub proof fn lemma_study_stats_of_nothing<F: Copy, A: Fn(Op<F>) -> F, P: Fn(F) -> bool>(
    runs: &Vec<MemHogRun>,
    main_period: (u64, u64),
    base: BaseStats<F>,
    stats: HogStats<F>,
    arith: &A,
    positive: &P,
    counts: spec_fn(F) -> bool,
    beyond: spec_fn(F) -> bool,
    r: MemHogResult<F>,
)
    requires
        call_ensures(MemHog::<F>::study_stats::<A, P>, (runs, main_period, base, stats, arith, positive), r),
        exact::divides_out(*arith, counts, beyond),
        exact::stays_beyond(*arith, beyond),
        counts(stats.io.hog_io_usage),
        r.hog_bytes == 0,
    ensures
        beyond(r.hog_io_loss),
        !call_ensures(*positive, (r.io_usage,), false) ==> exists|possible: F| #[trigger]
            arith::gives(*arith, Op::Add(r.io_usage, r.io_unused), possible) && arith::gives(
                *arith,
                Op::Div(r.io_usage, possible),
                r.work_csv,
            ),
{
    exact_study::lemma_nothing_put_out(r, runs@, main_period, base, stats, *arith, *positive, counts, beyond);
}

/// A study has its baseline from the hold periods.
pub open spec fn has_baseline<F, G: Fn((u64, u64)) -> Vec<Report<F>>, S: Fn(Vec<F>) -> (F, F)>(
    runs: Seq<MemHogRun>,
    reports: G,
    summary: S,
    base_rps: F,
    base_rps_stdev: F,
    base_lat: F,
    base_lat_stdev: F,
) -> bool {
    exists|periods: Seq<(u64, u64)>, reps: Seq<Report<F>>|
        {
            &&& #[trigger] readings::pooled(reports, periods, reps)
            &&& periods.len() == runs.len()
            &&& forall|i: int|
                0 <= i < runs.len() ==> #[trigger] periods[i] == (runs[i].stable_at, runs[i].hog_started_at)
            &&& exact_study::summed_up(
                summary,
                Seq::new(reps.len(), |i: int| reps[i].hashd_rps),
                base_rps,
                base_rps_stdev,
            )
            &&& exact_study::summed_up(
                summary,
                Seq::new(reps.len(), |i: int| reps[i].hashd_lat),
                base_lat,
                base_lat_stdev,
            )
        }
}

/// `study` and `result` have their baseline from the hold periods of the runs,
/// tell what the reports of the hogs' periods do, and account for the runs. A
/// result holds the scenario's runs.
pub proof fn lemma_study<
    's,
    F: Copy,
    G: Fn((u64, u64)) -> Vec<Report<F>>,
    S: Fn(Vec<F>) -> (F, F),
    Q: Fn(Vec<F>, Vec<&'static str>) -> StrMap<F>,
    L: Fn(Vec<(u64, u64)>) -> [StrMap<StrMap<F>>; 2],
    A: Fn(Op<F>) -> F,
    P: Fn(F) -> bool,
>(
    hog: &MemHog<F>,
    src: &Source<'s, G, S, Q, L, A, P>,
    val: spec_fn(F) -> real,
    r: MemHogResult<F>,
)
    requires
        call_ensures(MemHog::<F>::study::<G, S, Q, L, A, P>, (&hog.runs, hog.main_period, src), r) || call_ensures(
            MemHog::<F>::result::<G, S, Q, L, A, P>,
            (hog, src),
            r,
        ),
        exact::is_exact(*src.arith, val),
        exact::tells_positive(*src.positive, val),
        val(r.base_rps) > 0 as real,
        val(r.base_lat) > 0 as real,
    ensures
        has_baseline(
            hog.runs@,
            *src.reports,
            *src.summary,
            r.base_rps,
            r.base_rps_stdev,
            r.base_lat,
            r.base_lat_stdev,
        ),
        exists|reps: Seq<Report<F>>, isols: Seq<F>, impacts: Seq<F>| #[trigger]
            readings::pooled(*src.reports, r.hog_periods@, reps) && #[trigger] exact_study::tells(
                r,
                *src,
                val,
                reps,
                isols,
                impacts,
            ),
        exists|v: Vec<(u64, u64)>| v@ == r.hog_periods@ && #[trigger] call_ensures(*src.io_lat, (v,), r.iolat_pcts),
        exact_study::accounts(r, hog.runs@, hog.main_period, val),
        call_ensures(MemHog::<F>::result::<G, S, Q, L, A, P>, (hog, src), r) ==> r.runs@ == hog.runs@,
{
    exact_study::lemma_study_baseline(r, hog.runs@, hog.main_period, *src);
    exact_study::lemma_study(r, hog.runs@, hog.main_period, *src, val);
}

/// `base_stats` has the baseline from the hold periods.
pub proof fn lemma_base_stats<F: Copy, G: Fn((u64, u64)) -> Vec<Report<F>>, S: Fn(Vec<F>) -> (F, F)>(
    runs: &Vec<MemHogRun>,
    reports: &G,
    summary: &S,
    base: BaseStats<F>,
)
    requires
        call_ensures(MemHog::<F>::base_stats::<G, S>, (runs, reports, summary), base),
    ensures
        has_baseline(
            runs@,
            *reports,
            *summary,
            base.base_rps,
            base.base_rps_stdev,
            base.base_lat,
            base.base_lat_stdev,
        ),
{
    exact_study::lemma_run_periods(runs@);
    let reps = choose|reps: Seq<Report<F>>|
        {
            &&& #[trigger] readings::pooled(*reports, study::base_periods_of(runs@), reps)
            &&& readings::is_summary(
                *summary,
                readings::values_of(reps, Measure::Rps),
                base.base_rps,
                base.base_rps_stdev,
            )
            &&& readings::is_summary(
                *summary,
                readings::values_of(reps, Measure::Lat),
                base.base_lat,
                base.base_lat_stdev,
            )
        };
    assert(readings::values_of(reps, Measure::Rps) =~= Seq::new(reps.len(), |i: int| reps[i].hashd_rps));
    assert(readings::values_of(reps, Measure::Lat) =~= Seq::new(reps.len(), |i: int| reps[i].hashd_lat));
}

/// There is one period of each kind for each run, in the order of the runs.
pub proof fn lemma_periods(runs: &Vec<MemHogRun>, base: Vec<(u64, u64)>, hog: Vec<(u64, u64)>)
    requires
        call_ensures(study::base_periods, (runs,), base),
        call_ensures(study::hog_periods, (runs,), hog),
    ensures
        base@ == Seq::new(runs@.len(), |i: int| (runs@[i].stable_at, runs@[i].hog_started_at)),
        hog@.len() == runs@.len(),
        forall|i: int|
            0 <= i < runs@.len() ==> exact_study::spans(
                #[trigger] hog@[i],
                runs@[i].first_hog_rep.timestamp as int,
                runs@[i].last_hog_rep.timestamp as int,
            ),
{
    exact_study::lemma_run_periods(runs@);
}

/// `hog_totals` adds up what the last reports of the runs tell, and `totals_fit`
/// tells whether that fits.
pub proof fn lemma_totals(runs: &Vec<MemHogRun>, totals: (u64, u64), fit: bool)
    ensures
        call_ensures(study::hog_totals, (runs,), totals) ==> {
            &&& totals.0 as real == exact::total(runs@, |run: MemHogRun| exact_study::beyond_memory(run))
            &&& totals.1 as real == exact::total(runs@, |run: MemHogRun| run.last_hog_rep.wloss as real)
        },
        call_ensures(study::totals_fit, (runs,), fit) ==> (fit <==> {
            &&& exact::total(runs@, |run: MemHogRun| exact_study::beyond_memory(run)) <= (u64::MAX as real)
            &&& exact::total(runs@, |run: MemHogRun| run.last_hog_rep.wloss as real) <= (u64::MAX as real)
        }),
{
    exact_study::lemma_run_totals(runs@);
}

/// What a report adds to the costs, in hundredths. Together, what was used and
/// what was left grow by the vrate, unless the device is used beyond its
/// capacity: then nothing was left.
pub proof fn lemma_add_report<F: Copy, A: Fn(Op<F>) -> F>(
    io: &mut IoTally<F>,
    rep: &Report<F>,
    root: &str,
    hog_svc: &str,
    arith: &A,
    val: spec_fn(F) -> real,
)
    requires
        call_ensures(IoTally::<F>::add_report::<A>, (io, rep, root, hog_svc, arith), ()),
        exact::is_exact(*arith, val),
    ensures
        ({
            let (before, after) = (*old(io), *final(io));
            let util = val(rep.usages@[root@].io_util);
            let used = val(after.io_usage) - val(before.io_usage);
            let left = val(after.io_unused) - val(before.io_unused);
            &&& used * (100 as real) == util * val(rep.vrate)
            &&& util <= 1 as real ==> (used + left) * (100 as real) == val(rep.vrate)
            &&& util >= 1 as real ==> left == 0 as real
            &&& util == 0 as real ==> left * (100 as real) == val(rep.vrate)
            &&& if rep.usages@.contains_key(hog_svc@) {
                (val(after.hog_io_usage) - val(before.hog_io_usage)) * (100 as real) == val(
                    rep.usages@[hog_svc@].io_util,
                ) * val(rep.vrate)
            } else {
                after.hog_io_usage == before.hog_io_usage
            }
        }),
{
    let (before, after) = (*old(io), *final(io));
    exact_study::lemma_report_costs(*arith, val, before, *rep, root@, hog_svc@, after);
    let (u, v) = (val(rep.usages@[root@].io_util), val(rep.vrate));
    if u == 0 as real {
        assert(u * v == 0 as real) by (nonlinear_arith)
            requires
                u == 0 as real,
        ;
    }
}

/// What is left does not grow as the utilization of the whole machine grows.
pub proof fn lemma_add_report_falls<F: Copy, A: Fn(Op<F>) -> F>(
    a: &mut IoTally<F>,
    b: &mut IoTally<F>,
    rep: &Report<F>,
    rep2: &Report<F>,
    root: &str,
    hog_svc: &str,
    arith: &A,
    val: spec_fn(F) -> real,
)
    requires
        *old(a) == *old(b),
        call_ensures(IoTally::<F>::add_report::<A>, (a, rep, root, hog_svc, arith), ()),
        call_ensures(IoTally::<F>::add_report::<A>, (b, rep2, root, hog_svc, arith), ()),
        exact::is_exact(*arith, val),
        val(rep.vrate) == val(rep2.vrate),
        val(rep.vrate) >= 0 as real,
        val(rep.usages@[root@].io_util) <= val(rep2.usages@[root@].io_util),
    ensures
        val(final(b).io_unused) <= val(final(a).io_unused),
        val(final(a).io_usage) <= val(final(b).io_usage),
{
    exact_study::lemma_rest_falls(*arith, val, *old(a), *rep, *final(a), *rep2, *final(b), root@, hog_svc@);
}

/// Nothing is added up yet in a new tally, and `tally` adds up what all reports
/// add.
pub proof fn lemma_tally<F: Copy, A: Fn(Op<F>) -> F>(
    reps: &Vec<Report<F>>,
    root: &str,
    hog_svc: &str,
    arith: &A,
    val: spec_fn(F) -> real,
    none: IoTally<F>,
    io: IoTally<F>,
)
    requires
        exact::is_exact(*arith, val),
    ensures
        call_ensures(IoTally::<F>::new::<A>, (arith,), none) ==> val(none.io_usage) == 0 as real && val(none.io_unused)
            == 0 as real && val(none.hog_io_usage) == 0 as real,
        call_ensures(readings::tally::<F, A>, (reps, root, hog_svc, arith), io) ==> {
            &&& val(io.io_usage) * (100 as real) == exact::total(
                reps@,
                |rep: Report<F>| exact_study::util_of(rep, root@, val) * val(rep.vrate),
            )
            &&& val(io.io_unused) * (100 as real) == exact::total(
                reps@,
                |rep: Report<F>| exact_study::left_by(exact_study::util_of(rep, root@, val)) * val(rep.vrate),
            )
            &&& val(io.hog_io_usage) * (100 as real) == exact::total(
                reps@,
                |rep: Report<F>|
                    if rep.usages@.contains_key(hog_svc@) {
                        exact_study::util_of(rep, hog_svc@, val) * val(rep.vrate)
                    } else {
                        0 as real
                    },
            )
        },
{
    if call_ensures(readings::tally::<F, A>, (reps, root, hog_svc, arith), io) {
        exact_study::lemma_tally(*arith, val, reps@, root@, hog_svc@, io);
    }
}

/// What is read from reports, report by report.
pub proof fn lemma_readings<F: Copy, A: Fn(Op<F>) -> F>(
    reps: &Vec<Report<F>>,
    base: F,
    arith: &A,
    val: spec_fn(F) -> real,
    xs: Vec<F>,
    i: int,
)
    requires
        exact::is_exact(*arith, val),
        val(base) > 0 as real,
        0 <= i < reps@.len(),
    ensures
        call_ensures(readings::values::<F>, (reps, Measure::Rps), xs) ==> xs@.len() == reps@.len() && xs@[i]
            == reps@[i].hashd_rps,
        call_ensures(readings::values::<F>, (reps, Measure::Lat), xs) ==> xs@.len() == reps@.len() && xs@[i]
            == reps@[i].hashd_lat,
        call_ensures(readings::values::<F>, (reps, Measure::Vrate), xs) ==> xs@.len() == reps@.len() && xs@[i]
            == reps@[i].vrate,
        call_ensures(readings::work_isols::<F, A>, (reps, base, arith), xs) ==> xs@.len() == reps@.len()
            && exact_study::is_isolation(val(xs@[i]), val(reps@[i].hashd_rps), val(base)),
        call_ensures(readings::lat_impacts::<F, A>, (reps, base, arith), xs) ==> xs@.len() == reps@.len()
            && exact_study::is_impact(val(xs@[i]), val(reps@[i].hashd_lat), val(base)),
{
    if call_ensures(readings::work_isols::<F, A>, (reps, base, arith), xs) {
        assert(study::is_work_isol(*arith, reps@[i].hashd_rps, base, xs@[i]));
        exact_study::lemma_work_isol(*arith, val, reps@[i].hashd_rps, base, xs@[i]);
    }
    if call_ensures(readings::lat_impacts::<F, A>, (reps, base, arith), xs) {
        assert(study::is_clamped_lat_impact(*arith, reps@[i].hashd_lat, base, xs@[i]));
        exact_study::lemma_lat_impact_of(*arith, val, reps@[i].hashd_lat, base, xs@[i]);
    }
}

/// `sum`, `weighted_mean` and `pooled_stdev`, each as an equation between
/// numbers.
pub proof fn lemma_arith<F: Copy, A: Fn(Op<F>) -> F>(
    xs: &Vec<F>,
    terms: &Vec<(F, usize)>,
    weight: usize,
    arith: &A,
    val: spec_fn(F) -> real,
    x: F,
)
    requires
        exact::is_exact(*arith, val),
    ensures
        call_ensures(arith::sum::<F, A>, (xs, arith), x) ==> val(x) == exact::total(xs@, val),
        call_ensures(arith::weighted_mean::<F, A>, (terms, weight, arith), x) && weight > 0 ==> val(x) * (weight as real)
            == exact::total(terms@, |t: (F, usize)| val(t.0) * (t.1 as real)),
        call_ensures(arith::pooled_stdev::<F, A>, (terms, weight, arith), x) ==> val(x) >= 0 as real && exact::total(
            terms@,
            |t: (F, usize)| val(t.0) * val(t.0) * (t.1 as real),
        ) == (if weight > 0 {
            val(x) * val(x) * (weight as real)
        } else {
            val(x)
        }),
{
    if call_ensures(arith::sum::<F, A>, (xs, arith), x) {
        exact::lemma_sum(*arith, val, xs@, x);
    }
    if call_ensures(arith::weighted_mean::<F, A>, (terms, weight, arith), x) && weight > 0 {
        exact::lemma_weighted_mean(*arith, val, terms@, weight, x);
    }
    if call_ensures(arith::pooled_stdev::<F, A>, (terms, weight, arith), x) {
        exact::lemma_pooled_stdev(*arith, val, terms@, weight, x);
    }
}

/// `swap_usage` is the share of the swap that is used.
pub proof fn lemma_swap_usage<F: Copy, A: Fn(Op<F>) -> F>(
    usage: &Usage<F>,
    arith: &A,
    val: spec_fn(F) -> real,
    x: F,
)
    requires
        call_ensures(Usage::<F>::swap_usage::<A>, (usage, arith), x),
        exact::is_exact(*arith, val),
        usage.swap_bytes + usage.swap_free <= u64::MAX,
    ensures
        val(x) * (usage.swap_bytes as real + usage.swap_free as real) == usage.swap_bytes as real,
        usage.swap_bytes == 0 ==> val(x) == 0 as real,
{
    exact_study::lemma_swap_usage(*arith, val, *usage, x);
}

/// `hog_stats` tells what all reports of the hogs' periods do. Each report gives
/// a work isolation and a latency impact against the baseline, and these are
/// summed up to means, deviations and percentiles, as are the vrates.
pub proof fn lemma_hog_stats<
    's,
    F: Copy,
    G: Fn((u64, u64)) -> Vec<Report<F>>,
    S: Fn(Vec<F>) -> (F, F),
    Q: Fn(Vec<F>, Vec<&'static str>) -> StrMap<F>,
    L: Fn(Vec<(u64, u64)>) -> [StrMap<StrMap<F>>; 2],
    A: Fn(Op<F>) -> F,
    P: Fn(F) -> bool,
>(
    runs: &Vec<MemHogRun>,
    base: &BaseStats<F>,
    src: &Source<'s, G, S, Q, L, A, P>,
    val: spec_fn(F) -> real,
    stats: HogStats<F>,
)
    requires
        call_ensures(MemHog::<F>::hog_stats::<G, S, Q, L, A, P>, (runs, base, src), stats),
        exact::is_exact(*src.arith, val),
        val(base.base_rps) > 0 as real,
        val(base.base_lat) > 0 as real,
    ensures
        exists|reps: Seq<Report<F>>, isols: Seq<F>, impacts: Seq<F>|
            {
                &&& #[trigger] readings::pooled(*src.reports, study::hog_periods_of(runs@), reps)
                &&& #[trigger] are_told(reps, val, base.base_rps, base.base_lat, isols, impacts)
                &&& exact_study::summed_up(*src.summary, isols, stats.work_isol, stats.work_isol_stdev)
                &&& exact_study::percentiles_taken(*src.percentiles, isols, stats.work_isol_pcts)
                &&& exact_study::summed_up(*src.summary, impacts, stats.lat_impact, stats.lat_impact_stdev)
                &&& exact_study::percentiles_taken(*src.percentiles, impacts, stats.lat_impact_pcts)
                &&& exact_study::summed_up(
                    *src.summary,
                    Seq::new(reps.len(), |i: int| reps[i].vrate),
                    stats.vrate,
                    stats.vrate_stdev,
                )
                &&& val(stats.io.io_usage) * (100 as real) == exact::total(
                    reps,
                    |rep: Report<F>| exact_study::util_of(rep, src.root@, val) * val(rep.vrate),
                )
                &&& val(stats.io.io_unused) * (100 as real) == exact::total(
                    reps,
                    |rep: Report<F>| exact_study::left_by(exact_study::util_of(rep, src.root@, val)) * val(rep.vrate),
                )
            },
        exists|v: Vec<(u64, u64)>|
            v@ == study::hog_periods_of(runs@) && #[trigger] call_ensures(*src.io_lat, (v,), stats.iolat_pcts),
{
    let arith = *src.arith;
    let (reps, isols, impacts) = choose|reps: Seq<Report<F>>, isols: Seq<F>, impacts: Seq<F>|
        {
            &&& #[trigger] readings::pooled(*src.reports, study::hog_periods_of(runs@), reps)
            &&& #[trigger] readings::are_work_isols(arith, reps, base.base_rps, isols)
            &&& readings::is_summary(*src.summary, isols, stats.work_isol, stats.work_isol_stdev)
            &&& readings::are_percentiles(*src.percentiles, isols, stats.work_isol_pcts)
            &&& #[trigger] readings::are_lat_impacts(arith, reps, base.base_lat, impacts)
            &&& readings::is_summary(*src.summary, impacts, stats.lat_impact, stats.lat_impact_stdev)
            &&& readings::are_percentiles(*src.percentiles, impacts, stats.lat_impact_pcts)
            &&& readings::is_tally(arith, reps, src.root@, src.hog_svc@, stats.io)
            &&& readings::is_summary(
                *src.summary,
                readings::values_of(reps, Measure::Vrate),
                stats.vrate,
                stats.vrate_stdev,
            )
            &&& readings::are_io_lats(*src.io_lat, study::hog_periods_of(runs@), stats.iolat_pcts)
        };
    assert forall|i: int| 0 <= i < reps.len() implies exact_study::is_isolation(
        val(#[trigger] isols[i]),
        val(reps[i].hashd_rps),
        val(base.base_rps),
    ) by {
        assert(study::is_work_isol(arith, reps[i].hashd_rps, base.base_rps, isols[i]));
        exact_study::lemma_work_isol(arith, val, reps[i].hashd_rps, base.base_rps, isols[i]);
    }
    assert forall|i: int| 0 <= i < reps.len() implies exact_study::is_impact(
        val(#[trigger] impacts[i]),
        val(reps[i].hashd_lat),
        val(base.base_lat),
    ) by {
        assert(study::is_clamped_lat_impact(arith, reps[i].hashd_lat, base.base_lat, impacts[i]));
        exact_study::lemma_lat_impact_of(arith, val, reps[i].hashd_lat, base.base_lat, impacts[i]);
    }
    exact_study::lemma_tally(arith, val, reps, src.root@, src.hog_svc@, stats.io);
    exact_study::lemma_percentiles(*src.percentiles, isols, stats.work_isol_pcts);
    exact_study::lemma_percentiles(*src.percentiles, impacts, stats.lat_impact_pcts);
    assert(readings::values_of(reps, Measure::Vrate) =~= Seq::new(reps.len(), |i: int| reps[i].vrate));
    assert(are_told(reps, val, base.base_rps, base.base_lat, isols, impacts));
}

/// Work isolations and latency impacts are those that reports tell of, report by
/// report, against a baseline.
pub open spec fn are_told<F>(
    reps: Seq<Report<F>>,
    val: spec_fn(F) -> real,
    base_rps: F,
    base_lat: F,
    isols: Seq<F>,
    impacts: Seq<F>,
) -> bool {
    &&& isols.len() == reps.len()
    &&& impacts.len() == reps.len()
    &&& forall|i: int|
        0 <= i < reps.len() ==> exact_study::is_isolation(
            val(#[trigger] isols[i]),
            val(reps[i].hashd_rps),
            val(base_rps),
        )
    &&& forall|i: int|
        0 <= i < reps.len() ==> exact_study::is_impact(val(#[trigger] impacts[i]), val(reps[i].hashd_lat), val(base_lat))
}

/// An operation comes to what the caller's function makes of it.
pub proof fn lemma_apply<F, A: Fn(Op<F>) -> F>(arith: &A, op: Op<F>, x: F)
    ensures
        call_ensures(arith::apply::<F, A>, (arith, op), x) ==> call_ensures(*arith, (op,), x),
        arith::gives(*arith, op, x) <==> call_ensures(*arith, (op,), x),
{
}

} // verus!
