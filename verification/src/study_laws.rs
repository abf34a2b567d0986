//! What holds of studies as a whole.

use vstd::prelude::*;

use crate::arith::{self, Op};
use crate::impact_laws;
use crate::lists;
use crate::mem_hog::{MemHogResult, MemHogRun};
use crate::order::Order;
use crate::readings::{self, Source};
use crate::report::Report;
use crate::strmap::StrMap;
use crate::study::{self, BaseStats, HogStats, IoTally};

verus! {

/// The baseline is of the hold periods: if two sources have the same reports
/// for these, then they have the same baselines, whatever they have for other
/// periods.
pub proof fn lemma_baseline_is_of_hold_periods<
    F,
    G: Fn((u64, u64)) -> Vec<Report<F>>,
    H: Fn((u64, u64)) -> Vec<Report<F>>,
    S: Fn(Vec<F>) -> (F, F),
>(runs: Seq<MemHogRun>, reports: G, reports2: H, summary: S, base: BaseStats<F>)
    requires
        forall|i: int, reps: Seq<Report<F>>|
            0 <= i < runs.len() ==> (#[trigger] readings::reported(reports, runs[i].base_period(), reps)
                == readings::reported(reports2, runs[i].base_period(), reps)),
    ensures
        study::is_base_stats(runs, reports, summary, base) == study::is_base_stats(runs, reports2, summary, base),
{
    let periods = study::base_periods_of(runs);
    assert forall|reps: Seq<Report<F>>| #[trigger] readings::pooled(reports, periods, reps) == readings::pooled(
        reports2,
        periods,
        reps,
    ) by {
        assert forall|got: Seq<Seq<Report<F>>>| #[trigger]
            readings::all_reported(reports, periods, got) == readings::all_reported(reports2, periods, got) by {
            if got.len() == periods.len() {
                assert forall|i: int| 0 <= i < periods.len() implies readings::reported(
                    reports,
                    periods[i],
                    #[trigger] got[i],
                ) == readings::reported(reports2, periods[i], got[i]) by {
                    assert(periods[i] == runs[i].base_period());
                    assert(readings::reported(reports, runs[i].base_period(), got[i]) == readings::reported(
                        reports2,
                        runs[i].base_period(),
                        got[i],
                    ));
                }
            }
        }
        if readings::pooled(reports, periods, reps) {
            let got = choose|got: Seq<Seq<Report<F>>>| #[trigger]
                readings::all_reported(reports, periods, got) && reps == lists::joined(got);
            assert(readings::all_reported(reports2, periods, got));
        }
        if readings::pooled(reports2, periods, reps) {
            let got = choose|got: Seq<Seq<Report<F>>>| #[trigger]
                readings::all_reported(reports2, periods, got) && reps == lists::joined(got);
            assert(readings::all_reported(reports, periods, got) == readings::all_reported(reports2, periods, got));
        }
    }
    if study::is_base_stats(runs, reports2, summary, base) {
        let reps = choose|reps: Seq<Report<F>>|
            {
                &&& #[trigger] readings::pooled(reports2, periods, reps)
                &&& readings::is_summary(
                    summary,
                    readings::values_of(reps, readings::Measure::Rps),
                    base.base_rps,
                    base.base_rps_stdev,
                )
                &&& readings::is_summary(
                    summary,
                    readings::values_of(reps, readings::Measure::Lat),
                    base.base_lat,
                    base.base_lat_stdev,
                )
            };
        assert(readings::pooled(reports, periods, reps) == readings::pooled(reports2, periods, reps));
    }
}

/// Values are numbers and no less than a bound.
pub open spec fn at_least<F>(order: Order<F>, xs: Seq<F>, bound: F) -> bool {
    forall|i: int| 0 <= i < xs.len() ==> order.number(#[trigger] xs[i]) && order.le(bound, xs[i])
}

/// Values are numbers and no more than a bound.
pub open spec fn at_most<F>(order: Order<F>, xs: Seq<F>, bound: F) -> bool {
    forall|i: int| 0 <= i < xs.len() ==> order.number(#[trigger] xs[i]) && order.le(xs[i], bound)
}

/// The mean and the percentiles of values are on that side of a bound that all
/// of the values are on.
pub open spec fn keeps_bound<
    's,
    F,
    G: Fn((u64, u64)) -> Vec<Report<F>>,
    S: Fn(Vec<F>) -> (F, F),
    Q: Fn(Vec<F>, Vec<&'static str>) -> StrMap<F>,
    L: Fn(Vec<(u64, u64)>) -> [StrMap<StrMap<F>>; 2],
    A: Fn(Op<F>) -> F,
    P: Fn(F) -> bool,
>(order: Order<F>, src: Source<'s, G, S, Q, L, A, P>, bound: F) -> bool {
    &&& forall|xs: Seq<F>, mean: F, stdev: F| #[trigger]
        readings::is_summary(*src.summary, xs, mean, stdev) && xs.len() > 0 ==> {
            &&& at_least(order, xs, bound) ==> order.le(bound, mean)
            &&& at_most(order, xs, bound) ==> order.le(mean, bound)
        }
    &&& forall|xs: Seq<F>, table: StrMap<F>| #[trigger]
        readings::are_percentiles(*src.percentiles, xs, table) && xs.len() > 0 ==> {
            &&& at_least(order, xs, bound) ==> table_at_least(order, table@, bound)
            &&& at_most(order, xs, bound) ==> table_at_most(order, table@, bound)
        }
}

/// What a table holds is no less than a bound.
pub open spec fn table_at_least<F>(order: Order<F>, table: Map<Seq<char>, F>, bound: F) -> bool {
    forall|k: Seq<char>| #[trigger] table.contains_key(k) ==> order.le(bound, table[k])
}

/// What a table holds is no more than a bound.
pub open spec fn table_at_most<F>(order: Order<F>, table: Map<Seq<char>, F>, bound: F) -> bool {
    forall|k: Seq<char>| #[trigger] table.contains_key(k) ==> order.le(table[k], bound)
}

/// There is a report of the hogs' periods.
pub open spec fn has_reports<F, G: Fn((u64, u64)) -> Vec<Report<F>>>(reports: G, runs: Seq<MemHogRun>) -> bool {
    forall|reps: Seq<Report<F>>| #[trigger]
        readings::pooled(reports, study::hog_periods_of(runs), reps) ==> reps.len() > 0
}

/// The reports of the hogs' periods tell of a throughput that is finite and no
/// less than a bound.
pub open spec fn has_throughput<F, G: Fn((u64, u64)) -> Vec<Report<F>>>(
    order: Order<F>,
    bound: F,
    reports: G,
    runs: Seq<MemHogRun>,
) -> bool {
    forall|reps: Seq<Report<F>>, i: int|
        #![trigger readings::pooled(reports, study::hog_periods_of(runs), reps), reps[i]]
        readings::pooled(reports, study::hog_periods_of(runs), reps) && 0 <= i < reps.len() ==> order.finite(
            reps[i].hashd_rps,
        ) && order.le(bound, reps[i].hashd_rps)
}

/// The reports of the hogs' periods tell of a latency that is no more than a
/// bound.
pub open spec fn has_latency<F, G: Fn((u64, u64)) -> Vec<Report<F>>>(
    order: Order<F>,
    bound: F,
    reports: G,
    runs: Seq<MemHogRun>,
) -> bool {
    forall|reps: Seq<Report<F>>, i: int|
        #![trigger readings::pooled(reports, study::hog_periods_of(runs), reps), reps[i]]
        readings::pooled(reports, study::hog_periods_of(runs), reps) && 0 <= i < reps.len() ==> order.number(
            reps[i].hashd_lat,
        ) && order.le(reps[i].hashd_lat, bound)
}

/// A quantity is finite and no less than zero.
pub open spec fn is_sound<F>(order: Order<F>, zero: F, x: F) -> bool {
    order.finite(x) && order.le(zero, x)
}

/// The utilizations and the vrate that a report tells of are finite and no less
/// than zero.
pub open spec fn has_sound_costs<F>(
    order: Order<F>,
    zero: F,
    rep: Report<F>,
    root: Seq<char>,
    hog_svc: Seq<char>,
) -> bool {
    &&& is_sound(order, zero, rep.vrate)
    &&& is_sound(order, zero, rep.usages@[root].io_util)
    &&& rep.usages@.contains_key(hog_svc) ==> is_sound(order, zero, rep.usages@[hog_svc].io_util)
}

/// The costs that the reports of the hogs' periods tell of are finite and no
/// less than zero.
pub open spec fn all_sound_costs<F, G: Fn((u64, u64)) -> Vec<Report<F>>>(
    order: Order<F>,
    zero: F,
    reports: G,
    runs: Seq<MemHogRun>,
    root: Seq<char>,
    hog_svc: Seq<char>,
) -> bool {
    forall|reps: Seq<Report<F>>, i: int|
        #![trigger readings::pooled(reports, study::hog_periods_of(runs), reps), reps[i]]
        readings::pooled(reports, study::hog_periods_of(runs), reps) && 0 <= i < reps.len() ==> has_sound_costs(
            order,
            zero,
            reps[i],
            root,
            hog_svc,
        )
}

/// The reports, the work isolations and the latency impacts that a study is of.
proof fn lemma_studied<
    's,
    F,
    G: Fn((u64, u64)) -> Vec<Report<F>>,
    S: Fn(Vec<F>) -> (F, F),
    Q: Fn(Vec<F>, Vec<&'static str>) -> StrMap<F>,
    L: Fn(Vec<(u64, u64)>) -> [StrMap<StrMap<F>>; 2],
    A: Fn(Op<F>) -> F,
    P: Fn(F) -> bool,
>(
    r: MemHogResult<F>,
    runs: Seq<MemHogRun>,
    main_period: (u64, u64),
    src: Source<'s, G, S, Q, L, A, P>,
) -> (studied: (Seq<Report<F>>, Seq<F>, Seq<F>))
    requires
        study::is_study(r, runs, main_period, src),
    ensures
        readings::pooled(*src.reports, study::hog_periods_of(runs), studied.0),
        readings::are_work_isols(*src.arith, studied.0, r.base_rps, studied.1),
        readings::is_summary(*src.summary, studied.1, r.work_isol, r.work_isol_stdev),
        readings::are_percentiles(*src.percentiles, studied.1, r.work_isol_pcts),
        readings::are_lat_impacts(*src.arith, studied.0, r.base_lat, studied.2),
        readings::is_summary(*src.summary, studied.2, r.lat_impact, r.lat_impact_stdev),
        readings::are_percentiles(*src.percentiles, studied.2, r.lat_impact_pcts),
        readings::is_tally(
            *src.arith,
            studied.0,
            src.root@,
            src.hog_svc@,
            (IoTally { io_usage: r.io_usage, io_unused: r.io_unused, hog_io_usage: r.hog_io_usage }),
        ),
{
    let (base, stats) = choose|base: BaseStats<F>, stats: HogStats<F>|
        {
            &&& #[trigger] study::is_base_stats(runs, *src.reports, *src.summary, base)
            &&& #[trigger] study::is_hog_stats(runs, base, src, stats)
            &&& study::studies(r, runs, main_period, base, stats, *src.arith, *src.positive)
        };
    let (reps, isols, impacts) = choose|reps: Seq<Report<F>>, isols: Seq<F>, impacts: Seq<F>|
        {
            &&& #[trigger] readings::pooled(*src.reports, study::hog_periods_of(runs), reps)
            &&& #[trigger] readings::are_work_isols(*src.arith, reps, base.base_rps, isols)
            &&& readings::is_summary(*src.summary, isols, stats.work_isol, stats.work_isol_stdev)
            &&& readings::are_percentiles(*src.percentiles, isols, stats.work_isol_pcts)
            &&& #[trigger] readings::are_lat_impacts(*src.arith, reps, base.base_lat, impacts)
            &&& readings::is_summary(*src.summary, impacts, stats.lat_impact, stats.lat_impact_stdev)
            &&& readings::are_percentiles(*src.percentiles, impacts, stats.lat_impact_pcts)
            &&& readings::is_tally(*src.arith, reps, src.root@, src.hog_svc@, stats.io)
        };
    assert(stats.io == IoTally { io_usage: r.io_usage, io_unused: r.io_unused, hog_io_usage: r.hog_io_usage });
    (reps, isols, impacts)
}

/// The latency impact of a studied scenario and its percentiles are from zero
/// to one, whatever the reports tell.
pub proof fn lemma_study_lat_impact_in_range<
    's,
    F,
    G: Fn((u64, u64)) -> Vec<Report<F>>,
    S: Fn(Vec<F>) -> (F, F),
    Q: Fn(Vec<F>, Vec<&'static str>) -> StrMap<F>,
    L: Fn(Vec<(u64, u64)>) -> [StrMap<StrMap<F>>; 2],
    A: Fn(Op<F>) -> F,
    P: Fn(F) -> bool,
>(
    order: Order<F>,
    r: MemHogResult<F>,
    runs: Seq<MemHogRun>,
    main_period: (u64, u64),
    src: Source<'s, G, S, Q, L, A, P>,
    zero: F,
    one: F,
)
    requires
        study::is_study(r, runs, main_period, src),
        order.suits(*src.arith),
        arith::gives(*src.arith, Op::Int(0), zero),
        arith::gives(*src.arith, Op::Int(1), one),
        keeps_bound(order, src, zero),
        keeps_bound(order, src, one),
        has_reports(*src.reports, runs),
    ensures
        order.le(zero, r.lat_impact) && order.le(r.lat_impact, one),
        table_at_least(order, r.lat_impact_pcts@, zero),
        table_at_most(order, r.lat_impact_pcts@, one),
{
    let arith = *src.arith;
    let (reps, _, impacts) = lemma_studied(r, runs, main_period, src);
    assert forall|k: int| 0 <= k < impacts.len() implies order.number(#[trigger] impacts[k]) && order.le(
        zero,
        impacts[k],
    ) && order.le(impacts[k], one) by {
        assert(study::is_clamped_lat_impact(arith, reps[k].hashd_lat, r.base_lat, impacts[k]));
        let lat = choose|lat: F| #[trigger]
            arith::gives(arith, Op::Max(reps[k].hashd_lat, r.base_lat), lat) && study::is_lat_impact(
                arith,
                lat,
                r.base_lat,
                impacts[k],
            );
        impact_laws::lemma_lat_impact_in_range(order, arith, lat, r.base_lat, impacts[k], zero, one);
    }
    assert(at_least(order, impacts, zero) && at_most(order, impacts, one));
}

/// The latency impact of a studied scenario and its percentiles are zero, if no
/// report tells of a latency over the baseline.
pub proof fn lemma_study_without_lat_impact<
    's,
    F,
    G: Fn((u64, u64)) -> Vec<Report<F>>,
    S: Fn(Vec<F>) -> (F, F),
    Q: Fn(Vec<F>, Vec<&'static str>) -> StrMap<F>,
    L: Fn(Vec<(u64, u64)>) -> [StrMap<StrMap<F>>; 2],
    A: Fn(Op<F>) -> F,
    P: Fn(F) -> bool,
>(
    order: Order<F>,
    r: MemHogResult<F>,
    runs: Seq<MemHogRun>,
    main_period: (u64, u64),
    src: Source<'s, G, S, Q, L, A, P>,
    zero: F,
    one: F,
)
    requires
        study::is_study(r, runs, main_period, src),
        order.suits(*src.arith),
        arith::gives(*src.arith, Op::Int(0), zero),
        arith::gives(*src.arith, Op::Int(1), one),
        keeps_bound(order, src, zero),
        keeps_bound(order, src, one),
        has_reports(*src.reports, runs),
        order.finite(r.base_lat) && order.lt(zero, r.base_lat),
        has_latency(order, r.base_lat, *src.reports, runs),
    ensures
        order.same(r.lat_impact, zero),
        table_at_least(order, r.lat_impact_pcts@, zero),
        table_at_most(order, r.lat_impact_pcts@, zero),
{
    let arith = *src.arith;
    lemma_study_lat_impact_in_range(order, r, runs, main_period, src, zero, one);
    let (reps, _, impacts) = lemma_studied(r, runs, main_period, src);
    assert(order.finite(zero));
    assert forall|k: int| 0 <= k < impacts.len() implies order.number(#[trigger] impacts[k]) && order.le(
        impacts[k],
        zero,
    ) by {
        assert(order.le(reps[k].hashd_lat, r.base_lat));
        assert(study::is_clamped_lat_impact(arith, reps[k].hashd_lat, r.base_lat, impacts[k]));
        let lat = choose|lat: F| #[trigger]
            arith::gives(arith, Op::Max(reps[k].hashd_lat, r.base_lat), lat) && study::is_lat_impact(
                arith,
                lat,
                r.base_lat,
                impacts[k],
            );
        assert(order.number(r.base_lat) && order.le(r.base_lat, r.base_lat));
        assert(order.number(lat) && order.le(r.base_lat, lat));
        assert(order.le(lat, r.base_lat));
        assert(order.finite(lat));
        assert(order.le(zero, lat) && order.le(lat, lat));
        impact_laws::lemma_lat_impact_in_range(order, arith, lat, r.base_lat, impacts[k], zero, one);
        impact_laws::lemma_lat_impact_grows(
            order,
            arith,
            r.base_lat,
            lat,
            lat,
            impacts[k],
            impacts[k],
            zero,
            one,
        );
    }
    assert(at_most(order, impacts, zero));
}

/// The work isolation of a studied scenario and its percentiles are no more
/// than one, whatever the reports tell.
pub proof fn lemma_study_work_isol_at_most_one<
    's,
    F,
    G: Fn((u64, u64)) -> Vec<Report<F>>,
    S: Fn(Vec<F>) -> (F, F),
    Q: Fn(Vec<F>, Vec<&'static str>) -> StrMap<F>,
    L: Fn(Vec<(u64, u64)>) -> [StrMap<StrMap<F>>; 2],
    A: Fn(Op<F>) -> F,
    P: Fn(F) -> bool,
>(
    order: Order<F>,
    r: MemHogResult<F>,
    runs: Seq<MemHogRun>,
    main_period: (u64, u64),
    src: Source<'s, G, S, Q, L, A, P>,
    zero: F,
    one: F,
)
    requires
        study::is_study(r, runs, main_period, src),
        order.suits(*src.arith),
        arith::gives(*src.arith, Op::Int(0), zero),
        arith::gives(*src.arith, Op::Int(1), one),
        keeps_bound(order, src, one),
        has_reports(*src.reports, runs),
    ensures
        order.le(r.work_isol, one),
        table_at_most(order, r.work_isol_pcts@, one),
{
    let (reps, isols, _) = lemma_studied(r, runs, main_period, src);
    assert forall|k: int| 0 <= k < isols.len() implies order.number(#[trigger] isols[k]) && order.le(isols[k], one) by {
        assert(study::is_work_isol(*src.arith, reps[k].hashd_rps, r.base_rps, isols[k]));
        impact_laws::lemma_work_isol_at_most_one(
            order,
            *src.arith,
            reps[k].hashd_rps,
            r.base_rps,
            isols[k],
            zero,
            one,
        );
    }
    assert(at_most(order, isols, one));
}

/// The work isolation of a studied scenario and its percentiles are no less
/// than zero, if no report tells of a throughput of less than zero.
pub proof fn lemma_study_work_isol_at_least_zero<
    's,
    F,
    G: Fn((u64, u64)) -> Vec<Report<F>>,
    S: Fn(Vec<F>) -> (F, F),
    Q: Fn(Vec<F>, Vec<&'static str>) -> StrMap<F>,
    L: Fn(Vec<(u64, u64)>) -> [StrMap<StrMap<F>>; 2],
    A: Fn(Op<F>) -> F,
    P: Fn(F) -> bool,
>(
    order: Order<F>,
    r: MemHogResult<F>,
    runs: Seq<MemHogRun>,
    main_period: (u64, u64),
    src: Source<'s, G, S, Q, L, A, P>,
    zero: F,
    one: F,
)
    requires
        study::is_study(r, runs, main_period, src),
        order.suits(*src.arith),
        arith::gives(*src.arith, Op::Int(0), zero),
        arith::gives(*src.arith, Op::Int(1), one),
        keeps_bound(order, src, zero),
        has_reports(*src.reports, runs),
        order.finite(r.base_rps) && order.lt(zero, r.base_rps),
        has_throughput(order, zero, *src.reports, runs),
    ensures
        order.le(zero, r.work_isol),
        table_at_least(order, r.work_isol_pcts@, zero),
{
    let (reps, isols, _) = lemma_studied(r, runs, main_period, src);
    assert forall|k: int| 0 <= k < isols.len() implies order.number(#[trigger] isols[k]) && order.le(zero, isols[k]) by {
        let rps = reps[k].hashd_rps;
        assert(study::is_work_isol(*src.arith, rps, r.base_rps, isols[k]));
        assert(order.finite(rps) && order.le(rps, rps));
        impact_laws::lemma_work_isol_grows(order, *src.arith, r.base_rps, rps, rps, isols[k], isols[k], zero, one);
        impact_laws::lemma_work_isol_at_most_one(order, *src.arith, rps, r.base_rps, isols[k], zero, one);
    }
    assert(at_least(order, isols, zero));
}

/// The work isolation of a studied scenario and its percentiles are one, if no
/// report tells of a throughput under the baseline.
pub proof fn lemma_study_with_full_work_isol<
    's,
    F,
    G: Fn((u64, u64)) -> Vec<Report<F>>,
    S: Fn(Vec<F>) -> (F, F),
    Q: Fn(Vec<F>, Vec<&'static str>) -> StrMap<F>,
    L: Fn(Vec<(u64, u64)>) -> [StrMap<StrMap<F>>; 2],
    A: Fn(Op<F>) -> F,
    P: Fn(F) -> bool,
>(
    order: Order<F>,
    r: MemHogResult<F>,
    runs: Seq<MemHogRun>,
    main_period: (u64, u64),
    src: Source<'s, G, S, Q, L, A, P>,
    zero: F,
    one: F,
)
    requires
        study::is_study(r, runs, main_period, src),
        order.suits(*src.arith),
        arith::gives(*src.arith, Op::Int(0), zero),
        arith::gives(*src.arith, Op::Int(1), one),
        keeps_bound(order, src, one),
        has_reports(*src.reports, runs),
        order.finite(r.base_rps) && order.lt(zero, r.base_rps),
        has_throughput(order, r.base_rps, *src.reports, runs),
    ensures
        order.same(r.work_isol, one),
        table_at_least(order, r.work_isol_pcts@, one),
        table_at_most(order, r.work_isol_pcts@, one),
{
    lemma_study_work_isol_at_most_one(order, r, runs, main_period, src, zero, one);
    let (reps, isols, _) = lemma_studied(r, runs, main_period, src);
    assert(order.finite(zero));
    assert forall|k: int| 0 <= k < isols.len() implies order.number(#[trigger] isols[k]) && order.le(one, isols[k]) by {
        let rps = reps[k].hashd_rps;
        assert(study::is_work_isol(*src.arith, rps, r.base_rps, isols[k]));
        assert(order.finite(rps) && order.le(r.base_rps, rps) && order.le(rps, rps));
        assert(order.le(zero, rps));
        impact_laws::lemma_work_isol_grows(order, *src.arith, r.base_rps, rps, rps, isols[k], isols[k], zero, one);
        impact_laws::lemma_work_isol_at_most_one(order, *src.arith, rps, r.base_rps, isols[k], zero, one);
    }
    assert(at_least(order, isols, one));
}

/// A cost is a number and no less than zero.
spec fn is_cost<F>(order: Order<F>, zero: F, x: F) -> bool {
    order.number(x) && order.le(zero, x)
}

/// A cost with a utilization added to it is a cost.
proof fn lemma_charged<F, A: Fn(Op<F>) -> F>(
    order: Order<F>,
    arith: A,
    cost: F,
    util: F,
    vrate: F,
    x: F,
    zero: F,
    one: F,
)
    requires
        order.suits(arith),
        order.suits_costs(arith),
        arith::gives(arith, Op::Int(0), zero),
        arith::gives(arith, Op::Int(1), one),
        study::is_charged(arith, cost, util, vrate, x),
        is_cost(order, zero, cost),
        is_sound(order, zero, util),
        is_sound(order, zero, vrate),
    ensures
        is_cost(order, zero, x),
{
    let s = choose|s: F| #[trigger]
        study::is_scaled(arith, util, vrate, s) && arith::gives(arith, Op::Add(cost, s), x);
    let (p, h) = choose|p: F, h: F|
        {
            &&& #[trigger] arith::gives(arith, Op::Mul(util, vrate), p)
            &&& #[trigger] arith::gives(arith, Op::Int(100), h)
            &&& arith::gives(arith, Op::Div(p, h), s)
        };
    assert(is_cost(order, zero, p));
    assert(is_cost(order, zero, s));
    assert(order.finite(zero));
    assert(order.le(cost, x));
}

/// What is added up over reports are costs.
proof fn lemma_tally_is_cost<F, A: Fn(Op<F>) -> F>(
    order: Order<F>,
    arith: A,
    reps: Seq<Report<F>>,
    root: Seq<char>,
    hog_svc: Seq<char>,
    tallies: Seq<IoTally<F>>,
    n: int,
    zero: F,
    one: F,
)
    requires
        order.suits(arith),
        order.suits_costs(arith),
        arith::gives(arith, Op::Int(0), zero),
        arith::gives(arith, Op::Int(1), one),
        readings::running_tallies(arith, reps, root, hog_svc, tallies),
        forall|i: int| 0 <= i < reps.len() ==> has_sound_costs(order, zero, #[trigger] reps[i], root, hog_svc),
        0 <= n <= reps.len(),
    ensures
        is_cost(order, zero, tallies[n].io_usage),
        is_cost(order, zero, tallies[n].io_unused),
        is_cost(order, zero, tallies[n].hog_io_usage),
    decreases n,
{
    assert(order.finite(zero) && order.finite(one));
    assert(order.le(zero, zero));
    if n > 0 {
        lemma_tally_is_cost(order, arith, reps, root, hog_svc, tallies, n - 1, zero, one);
        let rep = reps[n - 1];
        let (before, after) = (tallies[n - 1], tallies[n]);
        assert(has_sound_costs(order, zero, rep, root, hog_svc));
        assert(study::tallies(arith, tallies[n - 1], reps[n - 1], root, hog_svc, tallies[n - 1 + 1]));
        let util = rep.usages@[root].io_util;
        lemma_charged(order, arith, before.io_usage, util, rep.vrate, after.io_usage, zero, one);
        let rest = choose|rest: F| #[trigger]
            study::is_rest(arith, util, rest) && study::is_charged(
                arith,
                before.io_unused,
                rest,
                rep.vrate,
                after.io_unused,
            );
        let (w, d, z) = choose|w: F, d: F, z: F|
            {
                &&& #[trigger] arith::gives(arith, Op::Int(1), w)
                &&& #[trigger] arith::gives(arith, Op::Sub(w, util), d)
                &&& #[trigger] arith::gives(arith, Op::Int(0), z)
                &&& arith::gives(arith, Op::Max(d, z), rest)
            };
        assert(z == zero);
        assert(order.finite(d));
        assert(order.le(zero, rest));
        assert(order.finite(rest));
        lemma_charged(order, arith, before.io_unused, rest, rep.vrate, after.io_unused, zero, one);
        if rep.usages@.contains_key(hog_svc) {
            lemma_charged(
                order,
                arith,
                before.hog_io_usage,
                rep.usages@[hog_svc].io_util,
                rep.vrate,
                after.hog_io_usage,
                zero,
                one,
            );
        }
    }
}

/// The work conservation of a studied scenario is from zero to one. It is zero
/// if nothing was used. If something was used, it is one when nothing was left,
/// and when the hogs put out something to swap and were kept from writing
/// nothing. The reports tell of costs that are finite and no less than zero,
/// and what was used adds up to a finite cost.
pub proof fn lemma_study_work_csv<
    's,
    F,
    G: Fn((u64, u64)) -> Vec<Report<F>>,
    S: Fn(Vec<F>) -> (F, F),
    Q: Fn(Vec<F>, Vec<&'static str>) -> StrMap<F>,
    L: Fn(Vec<(u64, u64)>) -> [StrMap<StrMap<F>>; 2],
    A: Fn(Op<F>) -> F,
    P: Fn(F) -> bool,
>(
    order: Order<F>,
    r: MemHogResult<F>,
    runs: Seq<MemHogRun>,
    main_period: (u64, u64),
    src: Source<'s, G, S, Q, L, A, P>,
    zero: F,
    one: F,
)
    requires
        study::is_study(r, runs, main_period, src),
        order.suits(*src.arith),
        arith::gives(*src.arith, Op::Int(0), zero),
        arith::gives(*src.arith, Op::Int(1), one),
        order.suits_costs(*src.arith),
        impact_laws::tells_positive(order, *src.positive, zero),
        all_sound_costs(order, zero, *src.reports, runs, src.root@, src.hog_svc@),
        order.finite(r.io_usage),
    ensures
        order.le(zero, r.work_csv) && order.le(r.work_csv, one),
        !order.lt(zero, r.io_usage) ==> r.work_csv == zero,
        order.lt(zero, r.io_usage) && order.same(r.io_unused, zero) ==> order.same(r.work_csv, one),
        order.lt(zero, r.io_usage) && r.hog_bytes > 0 && r.hog_lost_bytes == 0 && order.finite(r.hog_io_usage)
            ==> order.same(r.work_csv, one),
{
    let arith = *src.arith;
    let (reps, _, _) = lemma_studied(r, runs, main_period, src);
    let io = IoTally { io_usage: r.io_usage, io_unused: r.io_unused, hog_io_usage: r.hog_io_usage };
    let tallies = choose|tallies: Seq<IoTally<F>>| #[trigger]
        readings::running_tallies(arith, reps, src.root@, src.hog_svc@, tallies) && io == tallies.last();
    lemma_tally_is_cost(
        order,
        arith,
        reps,
        src.root@,
        src.hog_svc@,
        tallies,
        reps.len() as int,
        zero,
        one,
    );
    impact_laws::lemma_work_csv(
        order,
        arith,
        *src.positive,
        r.io_usage,
        r.io_unused,
        r.hog_io_usage,
        r.hog_bytes,
        r.hog_lost_bytes,
        r.hog_io_loss,
        r.work_csv,
        zero,
        one,
    );
}

} // verus!
