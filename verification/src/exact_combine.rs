//! What combined results come to when operations are exact.

use vstd::prelude::*;

use crate::arith::{self, Op};
use crate::combine::{self, Amount, CombinedPcts, Mean, Replay, Spread};
use crate::exact;
use crate::exact_study;
use crate::lists;
use crate::mem_hog::MemHogResult;
use crate::readings::{self, Source};
use crate::report::Report;
use crate::strmap::StrMap;

verus! {

/// There are results, and how many runs they have fits.
pub open spec fn are_countable<F>(results: Seq<&MemHogResult<F>>) -> bool {
    results.len() > 0 && exact::total(results, |r: &MemHogResult<F>| r.runs@.len() as real) <= (usize::MAX as real)
}

/// A number is the average of what results have, each counted as often as it
/// has runs.
pub open spec fn averages<F>(results: Seq<&MemHogResult<F>>, x: real, of: spec_fn(&MemHogResult<F>) -> real) -> bool {
    x * exact::total(results, |r: &MemHogResult<F>| r.runs@.len() as real) == exact::total(
        results,
        |r: &MemHogResult<F>| of(r) * (r.runs@.len() as real),
    )
}

/// By how much a result has more than one run.
pub open spec fn spare_runs<F>(r: &MemHogResult<F>) -> real {
    if r.runs@.len() > 1 {
        r.runs@.len() as real - 1 as real
    } else {
        0 as real
    }
}

/// The square of a number is the average of the squares of what results have,
/// each counted as often as it has more than one run. The number is not less
/// than zero, and zero if no result has more than one run.
pub open spec fn pools<F>(results: Seq<&MemHogResult<F>>, x: real, of: spec_fn(&MemHogResult<F>) -> real) -> bool {
    &&& x >= 0 as real
    &&& x * x * exact::total(results, |r: &MemHogResult<F>| spare_runs(r)) == exact::total(
        results,
        |r: &MemHogResult<F>| of(r) * of(r) * spare_runs(r),
    )
    &&& (forall|i: int| 0 <= i < results.len() ==> (#[trigger] results[i]).runs@.len() <= 1) ==> x == 0 as real
}

/// Each mean of a combined result is the average of the results' means of the
/// same name, each deviation is pooled from the results' deviations of that
/// name, and each amount, and each number of bytes, is the sum of the results'.
pub open spec fn merges<F>(cmb: MemHogResult<F>, results: Seq<&MemHogResult<F>>, val: spec_fn(F) -> real) -> bool {
    &&& averages(results, val(cmb.base_rps), |r: &MemHogResult<F>| val(r.base_rps))
    &&& averages(results, val(cmb.base_lat), |r: &MemHogResult<F>| val(r.base_lat))
    &&& averages(results, val(cmb.work_isol), |r: &MemHogResult<F>| val(r.work_isol))
    &&& averages(results, val(cmb.lat_impact), |r: &MemHogResult<F>| val(r.lat_impact))
    &&& averages(results, val(cmb.work_csv), |r: &MemHogResult<F>| val(r.work_csv))
    &&& averages(results, val(cmb.vrate), |r: &MemHogResult<F>| val(r.vrate))
    &&& pools(results, val(cmb.base_rps_stdev), |r: &MemHogResult<F>| val(r.base_rps_stdev))
    &&& pools(results, val(cmb.base_lat_stdev), |r: &MemHogResult<F>| val(r.base_lat_stdev))
    &&& pools(results, val(cmb.work_isol_stdev), |r: &MemHogResult<F>| val(r.work_isol_stdev))
    &&& pools(results, val(cmb.lat_impact_stdev), |r: &MemHogResult<F>| val(r.lat_impact_stdev))
    &&& pools(results, val(cmb.vrate_stdev), |r: &MemHogResult<F>| val(r.vrate_stdev))
    &&& val(cmb.io_usage) == exact::total(results, |r: &MemHogResult<F>| val(r.io_usage))
    &&& val(cmb.io_unused) == exact::total(results, |r: &MemHogResult<F>| val(r.io_unused))
    &&& val(cmb.hog_io_usage) == exact::total(results, |r: &MemHogResult<F>| val(r.hog_io_usage))
    &&& val(cmb.hog_io_loss) == exact::total(results, |r: &MemHogResult<F>| val(r.hog_io_loss))
    &&& cmb.hog_bytes as real == exact::total(results, |r: &MemHogResult<F>| r.hog_bytes as real)
    &&& cmb.hog_lost_bytes as real == exact::total(results, |r: &MemHogResult<F>| r.hog_lost_bytes as real)
    &&& cmb.hog_periods@ == lists::joined(results.map_values(|r: &MemHogResult<F>| r.hog_periods@))
    &&& cmb.main_period.0 == 0
    &&& forall|i: int| 0 <= i < results.len() ==> (#[trigger] results[i]).main_period.1 <= cmb.main_period.1
    &&& exists|i: int| 0 <= i < results.len() && (#[trigger] results[i]).main_period.1 == cmb.main_period.1
    &&& cmb.runs@.len() == 0
}

/// What is counted over results, as real numbers.
proof fn lemma_counts<F>(results: Seq<&MemHogResult<F>>)
    ensures
        combine::total_runs_of(results) as real == exact::total(results, |r: &MemHogResult<F>| r.runs@.len() as real),
        combine::freedom_of(results) as real == exact::total(results, |r: &MemHogResult<F>| spare_runs(r)),
        combine::sum_hog_bytes(results) as real == exact::total(results, |r: &MemHogResult<F>| r.hog_bytes as real),
        combine::sum_hog_lost_bytes(results) as real == exact::total(
            results,
            |r: &MemHogResult<F>| r.hog_lost_bytes as real,
        ),
        combine::freedom_of(results) <= combine::total_runs_of(results),
        (forall|i: int| 0 <= i < results.len() ==> (#[trigger] results[i]).runs@.len() <= 1) ==> combine::freedom_of(
            results,
        ) == 0,
        combine::all_hog_periods(results) == lists::joined(results.map_values(|r: &MemHogResult<F>| r.hog_periods@)),
        forall|i: int|
            0 <= i < results.len() ==> (#[trigger] results[i]).runs@.len() <= combine::total_runs_of(results),
    decreases results.len(),
{
    let of = |r: &MemHogResult<F>| r.hog_periods@;
    if results.len() > 0 {
        let prior = results.drop_last();
        lemma_counts(prior);
        assert(results.map_values(of).drop_last() =~= prior.map_values(of));
        if forall|i: int| 0 <= i < results.len() ==> (#[trigger] results[i]).runs@.len() <= 1 {
            assert forall|i: int| 0 <= i < prior.len() implies (#[trigger] prior[i]).runs@.len() <= 1 by {
                assert(prior[i] == results[i]);
            }
            assert(results[results.len() - 1].runs@.len() <= 1);
        }
        assert forall|i: int| 0 <= i < results.len() implies (#[trigger] results[i]).runs@.len()
            <= combine::total_runs_of(results) by {
            if i < prior.len() {
                assert(prior[i] == results[i]);
            }
        }
    }
}

/// A combined mean is an average.
proof fn lemma_mean<F, A: Fn(Op<F>) -> F>(
    cmb: MemHogResult<F>,
    results: Seq<&MemHogResult<F>>,
    pcts: CombinedPcts<F>,
    arith: A,
    val: spec_fn(F) -> real,
    q: Mean,
)
    requires
        combine::combines(cmb, results, pcts, arith),
        exact::is_exact(arith, val),
        are_countable(results),
    ensures
        averages(results, val(cmb.mean_spec(q)), |r: &MemHogResult<F>| val(r.mean_spec(q))),
{
    let n = combine::total_runs_of(results) as usize;
    let terms = combine::mean_terms_of(results, q);
    let of = |r: &MemHogResult<F>| val(r.mean_spec(q));
    let weighted = |r: &MemHogResult<F>| of(r) * (r.runs@.len() as real);
    let term = |t: (F, usize)| val(t.0) * (t.1 as real);
    lemma_counts(results);
    if n > 0 {
        exact::lemma_weighted_mean(arith, val, terms, n, cmb.mean_spec(q));
        assert forall|i: int| 0 <= i < results.len() implies weighted(#[trigger] results[i]) == term(terms[i]) by {
            assert(results[i].runs@.len() <= usize::MAX);
        }
        exact::lemma_total_same(results, weighted, terms, term);
    } else {
        let none = |r: &MemHogResult<F>| r.runs@.len() as real;
        assert forall|i: int| 0 <= i < results.len() implies weighted(#[trigger] results[i]) == none(results[i]) by {
            assert(results[i].runs@.len() <= combine::total_runs_of(results));
            let v = of(results[i]);
            assert(v * (0 as real) == 0 as real);
        }
        exact::lemma_total_same(results, weighted, results, none);
        let v = val(cmb.mean_spec(q));
        assert(v * (0 as real) == 0 as real);
    }
}

/// The squares of deviations, counted by degrees of freedom.
proof fn lemma_squares<F>(results: Seq<&MemHogResult<F>>, val: spec_fn(F) -> real, q: Spread)
    requires
        combine::total_runs_of(results) <= usize::MAX,
    ensures
        exact::total(
            combine::spread_terms_of(results, q),
            |t: (F, usize)| val(t.0) * val(t.0) * (t.1 as real),
        ) == exact::total(
            results,
            |r: &MemHogResult<F>| val(r.spread_spec(q)) * val(r.spread_spec(q)) * spare_runs(r),
        ),
    decreases results.len(),
{
    let term = |t: (F, usize)| val(t.0) * val(t.0) * (t.1 as real);
    if results.len() > 0 {
        let prior = results.drop_last();
        let r = results.last();
        lemma_squares(prior, val, q);
        lemma_counts(results);
        assert(r == results[results.len() - 1]);
        let terms = combine::spread_terms_of(results, q);
        if r.runs@.len() > 1 {
            assert(terms.drop_last() =~= combine::spread_terms_of(prior, q));
            assert(terms.last() == (r.spread_spec(q), (r.runs@.len() - 1) as usize));
            assert(((r.runs@.len() - 1) as usize) as real == spare_runs(r));
        } else {
            let v = val(r.spread_spec(q));
            assert(v * v * (0 as real) == 0 as real);
        }
    }
}

/// Without degrees of freedom there is nothing to pool.
proof fn lemma_no_spread<F>(results: Seq<&MemHogResult<F>>, q: Spread)
    requires
        combine::freedom_of(results) == 0,
    ensures
        combine::spread_terms_of(results, q).len() == 0,
    decreases results.len(),
{
    if results.len() > 0 {
        lemma_no_spread(results.drop_last(), q);
    }
}

/// A combined deviation is pooled.
proof fn lemma_spread<F, A: Fn(Op<F>) -> F>(
    cmb: MemHogResult<F>,
    results: Seq<&MemHogResult<F>>,
    pcts: CombinedPcts<F>,
    arith: A,
    val: spec_fn(F) -> real,
    q: Spread,
)
    requires
        combine::combines(cmb, results, pcts, arith),
        exact::is_exact(arith, val),
        are_countable(results),
    ensures
        pools(results, val(cmb.spread_spec(q)), |r: &MemHogResult<F>| val(r.spread_spec(q))),
{
    let m = combine::freedom_of(results) as usize;
    let terms = combine::spread_terms_of(results, q);
    let of = |r: &MemHogResult<F>| val(r.spread_spec(q));
    lemma_counts(results);
    combine::lemma_spread_weights(results, q);
    exact::lemma_pooled_stdev(arith, val, terms, m, cmb.spread_spec(q));
    lemma_squares(results, val, q);
    if m == 0 {
        lemma_no_spread(results, q);
        let v = val(cmb.spread_spec(q));
        assert(v * v * (0 as real) == 0 as real);
    }
    exact::lemma_total_same(
        results,
        |r: &MemHogResult<F>| of(r) * of(r) * spare_runs(r),
        results,
        |r: &MemHogResult<F>| val(r.spread_spec(q)) * val(r.spread_spec(q)) * spare_runs(r),
    );
}

/// A combined amount is a sum.
proof fn lemma_amount<F, A: Fn(Op<F>) -> F>(
    cmb: MemHogResult<F>,
    results: Seq<&MemHogResult<F>>,
    pcts: CombinedPcts<F>,
    arith: A,
    val: spec_fn(F) -> real,
    q: Amount,
)
    requires
        combine::combines(cmb, results, pcts, arith),
        exact::is_exact(arith, val),
    ensures
        val(cmb.amount_spec(q)) == exact::total(results, |r: &MemHogResult<F>| val(r.amount_spec(q))),
{
    let terms = combine::amount_terms_of(results, q);
    exact::lemma_sum(arith, val, terms, cmb.amount_spec(q));
    exact::lemma_total_same(results, |r: &MemHogResult<F>| val(r.amount_spec(q)), terms, val);
}

/// `combine_stats` merges results: each mean of the combined result is the
/// average of the results' means of the same name, each deviation is pooled
/// from the deviations of that name, and each amount is the sum of the amounts.
pub proof fn lemma_combine_stats_merges<F, A: Fn(Op<F>) -> F>(
    cmb: MemHogResult<F>,
    results: Seq<&MemHogResult<F>>,
    pcts: CombinedPcts<F>,
    arith: A,
    val: spec_fn(F) -> real,
)
    requires
        combine::combines(cmb, results, pcts, arith),
        exact::is_exact(arith, val),
        are_countable(results),
    ensures
        merges(cmb, results, val),
        cmb.work_isol_pcts == pcts.work_isol_pcts,
        cmb.lat_impact_pcts == pcts.lat_impact_pcts,
        cmb.iolat_pcts == pcts.iolat_pcts,
{
    lemma_counts(results);
    combine::lemma_main_period(results);
    lemma_mean(cmb, results, pcts, arith, val, Mean::BaseRps);
    lemma_mean(cmb, results, pcts, arith, val, Mean::BaseLat);
    lemma_mean(cmb, results, pcts, arith, val, Mean::WorkIsol);
    lemma_mean(cmb, results, pcts, arith, val, Mean::LatImpact);
    lemma_mean(cmb, results, pcts, arith, val, Mean::WorkCsv);
    lemma_mean(cmb, results, pcts, arith, val, Mean::Vrate);
    lemma_spread(cmb, results, pcts, arith, val, Spread::BaseRps);
    lemma_spread(cmb, results, pcts, arith, val, Spread::BaseLat);
    lemma_spread(cmb, results, pcts, arith, val, Spread::WorkIsol);
    lemma_spread(cmb, results, pcts, arith, val, Spread::LatImpact);
    lemma_spread(cmb, results, pcts, arith, val, Spread::Vrate);
    lemma_amount(cmb, results, pcts, arith, val, Amount::IoUsage);
    lemma_amount(cmb, results, pcts, arith, val, Amount::IoUnused);
    lemma_amount(cmb, results, pcts, arith, val, Amount::HogIoUsage);
    lemma_amount(cmb, results, pcts, arith, val, Amount::HogIoLoss);
    lemma_averages_of(
        results,
        val(cmb.base_rps),
        |r: &MemHogResult<F>| val(r.mean_spec(Mean::BaseRps)),
        |r: &MemHogResult<F>| val(r.base_rps),
    );
    lemma_averages_of(
        results,
        val(cmb.base_lat),
        |r: &MemHogResult<F>| val(r.mean_spec(Mean::BaseLat)),
        |r: &MemHogResult<F>| val(r.base_lat),
    );
    lemma_averages_of(
        results,
        val(cmb.work_isol),
        |r: &MemHogResult<F>| val(r.mean_spec(Mean::WorkIsol)),
        |r: &MemHogResult<F>| val(r.work_isol),
    );
    lemma_averages_of(
        results,
        val(cmb.lat_impact),
        |r: &MemHogResult<F>| val(r.mean_spec(Mean::LatImpact)),
        |r: &MemHogResult<F>| val(r.lat_impact),
    );
    lemma_averages_of(
        results,
        val(cmb.work_csv),
        |r: &MemHogResult<F>| val(r.mean_spec(Mean::WorkCsv)),
        |r: &MemHogResult<F>| val(r.work_csv),
    );
    lemma_averages_of(
        results,
        val(cmb.vrate),
        |r: &MemHogResult<F>| val(r.mean_spec(Mean::Vrate)),
        |r: &MemHogResult<F>| val(r.vrate),
    );
    lemma_pools_of(
        results,
        val(cmb.base_rps_stdev),
        |r: &MemHogResult<F>| val(r.spread_spec(Spread::BaseRps)),
        |r: &MemHogResult<F>| val(r.base_rps_stdev),
    );
    lemma_pools_of(
        results,
        val(cmb.base_lat_stdev),
        |r: &MemHogResult<F>| val(r.spread_spec(Spread::BaseLat)),
        |r: &MemHogResult<F>| val(r.base_lat_stdev),
    );
    lemma_pools_of(
        results,
        val(cmb.work_isol_stdev),
        |r: &MemHogResult<F>| val(r.spread_spec(Spread::WorkIsol)),
        |r: &MemHogResult<F>| val(r.work_isol_stdev),
    );
    lemma_pools_of(
        results,
        val(cmb.lat_impact_stdev),
        |r: &MemHogResult<F>| val(r.spread_spec(Spread::LatImpact)),
        |r: &MemHogResult<F>| val(r.lat_impact_stdev),
    );
    lemma_pools_of(
        results,
        val(cmb.vrate_stdev),
        |r: &MemHogResult<F>| val(r.spread_spec(Spread::Vrate)),
        |r: &MemHogResult<F>| val(r.vrate_stdev),
    );
    exact::lemma_total_same(
        results,
        |r: &MemHogResult<F>| val(r.amount_spec(Amount::IoUsage)),
        results,
        |r: &MemHogResult<F>| val(r.io_usage),
    );
    exact::lemma_total_same(
        results,
        |r: &MemHogResult<F>| val(r.amount_spec(Amount::IoUnused)),
        results,
        |r: &MemHogResult<F>| val(r.io_unused),
    );
    exact::lemma_total_same(
        results,
        |r: &MemHogResult<F>| val(r.amount_spec(Amount::HogIoUsage)),
        results,
        |r: &MemHogResult<F>| val(r.hog_io_usage),
    );
    exact::lemma_total_same(
        results,
        |r: &MemHogResult<F>| val(r.amount_spec(Amount::HogIoLoss)),
        results,
        |r: &MemHogResult<F>| val(r.hog_io_loss),
    );
}

/// An average of the same numbers.
proof fn lemma_averages_of<F>(
    results: Seq<&MemHogResult<F>>,
    x: real,
    a: spec_fn(&MemHogResult<F>) -> real,
    b: spec_fn(&MemHogResult<F>) -> real,
)
    requires
        averages(results, x, a),
        forall|r: &MemHogResult<F>| #[trigger] a(r) == b(r),
    ensures
        averages(results, x, b),
{
    exact::lemma_total_same(
        results,
        |r: &MemHogResult<F>| a(r) * (r.runs@.len() as real),
        results,
        |r: &MemHogResult<F>| b(r) * (r.runs@.len() as real),
    );
}

/// A deviation pooled from the same numbers.
proof fn lemma_pools_of<F>(
    results: Seq<&MemHogResult<F>>,
    x: real,
    a: spec_fn(&MemHogResult<F>) -> real,
    b: spec_fn(&MemHogResult<F>) -> real,
)
    requires
        pools(results, x, a),
        forall|r: &MemHogResult<F>| #[trigger] a(r) == b(r),
    ensures
        pools(results, x, b),
{
    exact::lemma_total_same(
        results,
        |r: &MemHogResult<F>| a(r) * a(r) * spare_runs(r),
        results,
        |r: &MemHogResult<F>| b(r) * b(r) * spare_runs(r),
    );
}

/// `combine_results` merges results.
pub proof fn lemma_combine_results_merges<
    's,
    F,
    G: Fn((u64, u64)) -> Vec<Report<F>>,
    S: Fn(Vec<F>) -> (F, F),
    Q: Fn(Vec<F>, Vec<&'static str>) -> StrMap<F>,
    L: Fn(Vec<(u64, u64)>) -> [StrMap<StrMap<F>>; 2],
    A: Fn(Op<F>) -> F,
    P: Fn(F) -> bool,
>(
    cmb: MemHogResult<F>,
    results: Seq<&MemHogResult<F>>,
    src: Source<'s, G, S, Q, L, A, P>,
    val: spec_fn(F) -> real,
)
    requires
        combine::is_combination(cmb, results, src),
        exact::is_exact(*src.arith, val),
        are_countable(results),
    ensures
        merges(cmb, results, val),
        has_baselines(results, val) ==> rereads(
            cmb.work_isol_pcts,
            cmb.lat_impact_pcts,
            cmb.iolat_pcts,
            results,
            src,
            val,
        ),
{
    let pcts = choose|pcts: CombinedPcts<F>| #[trigger]
        combine::are_combined_pcts(results, src, pcts) && combine::combines(cmb, results, pcts, *src.arith);
    lemma_combine_stats_merges(cmb, results, pcts, *src.arith, val);
    if has_baselines(results, val) {
        lemma_combined_pcts(results, src, pcts, val);
    }
}

/// The periods that are read again are those of each result in turn, each with
/// the baseline of its own result.
pub proof fn lemma_replays<F>(results: Seq<&MemHogResult<F>>, r: &MemHogResult<F>)
    ensures
        combine::replays_of(Seq::<&MemHogResult<F>>::empty()).len() == 0,
        combine::replays_of(results.push(r)) == combine::replays_of(results) + Seq::new(
            r.hog_periods@.len(),
            |i: int| Replay { base_rps: r.base_rps, base_lat: r.base_lat, period: r.hog_periods@[i] },
        ),
{
    assert(results.push(r).drop_last() =~= results);
    assert(combine::replays_of_one(*r) =~= Seq::new(
        r.hog_periods@.len(),
        |i: int| Replay { base_rps: r.base_rps, base_lat: r.base_lat, period: r.hog_periods@[i] },
    ));
}

/// Each period that is read again is one of a result, with that result's
/// baseline.
proof fn lemma_replay_of<F>(results: Seq<&MemHogResult<F>>, k: int) -> (i: int)
    requires
        0 <= k < combine::replays_of(results).len(),
    ensures
        0 <= i < results.len(),
        combine::replays_of(results)[k].base_rps == results[i].base_rps,
        combine::replays_of(results)[k].base_lat == results[i].base_lat,
    decreases results.len(),
{
    let prior = results.drop_last();
    if k < combine::replays_of(prior).len() {
        let i = lemma_replay_of(prior, k);
        assert(prior[i] == results[i]);
        i
    } else {
        results.len() - 1
    }
}

/// Work isolations and latency impacts of reports that are read again, period
/// by period, each against the baseline of its own result.
pub open spec fn reads_again<F>(
    results: Seq<&MemHogResult<F>>,
    val: spec_fn(F) -> real,
    got: Seq<Seq<Report<F>>>,
    isols: Seq<Seq<F>>,
    impacts: Seq<Seq<F>>,
) -> bool {
    let replays = combine::replays_of(results);
    &&& got.len() == replays.len() && isols.len() == replays.len() && impacts.len() == replays.len()
    &&& forall|k: int|
        0 <= k < replays.len() ==> (#[trigger] isols[k]).len() == got[k].len() && impacts[k].len() == got[k].len()
    &&& forall|k: int, j: int|
        0 <= k < replays.len() && 0 <= j < got[k].len() ==> exact_study::is_isolation(
            val(#[trigger] isols[k][j]),
            val(got[k][j].hashd_rps),
            val(replays[k].base_rps),
        )
    &&& forall|k: int, j: int|
        0 <= k < replays.len() && 0 <= j < got[k].len() ==> exact_study::is_impact(
            val(#[trigger] impacts[k][j]),
            val(got[k][j].hashd_lat),
            val(replays[k].base_lat),
        )
}

/// Each result has a baseline of more than zero.
pub open spec fn has_baselines<F>(results: Seq<&MemHogResult<F>>, val: spec_fn(F) -> real) -> bool {
    forall|i: int|
        0 <= i < results.len() ==> val((#[trigger] results[i]).base_rps) > 0 as real && val(results[i].base_lat)
            > 0 as real
}

/// Percentiles are those of what all reports of all results tell of when they
/// are read again, and the distributions of IO latencies are those over all of
/// the hogs' periods.
pub open spec fn rereads<
    's,
    F,
    G: Fn((u64, u64)) -> Vec<Report<F>>,
    S: Fn(Vec<F>) -> (F, F),
    Q: Fn(Vec<F>, Vec<&'static str>) -> StrMap<F>,
    L: Fn(Vec<(u64, u64)>) -> [StrMap<StrMap<F>>; 2],
    A: Fn(Op<F>) -> F,
    P: Fn(F) -> bool,
>(
    work_isol_pcts: StrMap<F>,
    lat_impact_pcts: StrMap<F>,
    iolat_pcts: [StrMap<StrMap<F>>; 2],
    results: Seq<&MemHogResult<F>>,
    src: Source<'s, G, S, Q, L, A, P>,
    val: spec_fn(F) -> real,
) -> bool {
    let periods = lists::joined(results.map_values(|r: &MemHogResult<F>| r.hog_periods@));
    &&& exists|got: Seq<Seq<Report<F>>>, isols: Seq<Seq<F>>, impacts: Seq<Seq<F>>|
        {
            &&& #[trigger] reads_again(results, val, got, isols, impacts)
            &&& readings::all_reported(*src.reports, periods, got)
            &&& exact_study::percentiles_taken(*src.percentiles, lists::joined(isols), work_isol_pcts)
            &&& exact_study::percentiles_taken(*src.percentiles, lists::joined(impacts), lat_impact_pcts)
        }
    &&& exists|v: Vec<(u64, u64)>| v@ == periods && #[trigger] call_ensures(*src.io_lat, (v,), iolat_pcts)
}

/// Combined percentiles are those of the work isolations and of the latency
/// impacts that all reports of all results tell of, each against the baseline
/// of its own result.
pub proof fn lemma_combined_pcts<
    's,
    F,
    G: Fn((u64, u64)) -> Vec<Report<F>>,
    S: Fn(Vec<F>) -> (F, F),
    Q: Fn(Vec<F>, Vec<&'static str>) -> StrMap<F>,
    L: Fn(Vec<(u64, u64)>) -> [StrMap<StrMap<F>>; 2],
    A: Fn(Op<F>) -> F,
    P: Fn(F) -> bool,
>(
    results: Seq<&MemHogResult<F>>,
    src: Source<'s, G, S, Q, L, A, P>,
    pcts: CombinedPcts<F>,
    val: spec_fn(F) -> real,
)
    requires
        combine::are_combined_pcts(results, src, pcts),
        exact::is_exact(*src.arith, val),
        has_baselines(results, val),
    ensures
        rereads(pcts.work_isol_pcts, pcts.lat_impact_pcts, pcts.iolat_pcts, results, src, val),
{
    lemma_counts(results);
    combine::lemma_replays_cover(results);
    let replays = combine::replays_of(results);
    let arith = *src.arith;
    let (got, isols, impacts) = choose|got: Seq<Seq<Report<F>>>, isols: Seq<Seq<F>>, impacts: Seq<Seq<F>>|
        {
            &&& #[trigger] readings::all_reported(*src.reports, combine::all_hog_periods(results), got)
            &&& #[trigger] combine::are_replayed_isols(arith, replays, got, isols)
            &&& readings::are_percentiles(*src.percentiles, lists::joined(isols), pcts.work_isol_pcts)
            &&& #[trigger] combine::are_replayed_impacts(arith, replays, got, impacts)
            &&& readings::are_percentiles(*src.percentiles, lists::joined(impacts), pcts.lat_impact_pcts)
            &&& readings::are_io_lats(*src.io_lat, combine::all_hog_periods(results), pcts.iolat_pcts)
        };
    assert(replays.map_values(|r: Replay<F>| r.period).len() == replays.len());
    assert forall|k: int| 0 <= k < replays.len() implies (#[trigger] isols[k]).len() == got[k].len()
        && impacts[k].len() == got[k].len() by {
        assert(readings::are_work_isols(arith, got[k], replays[k].base_rps, isols[k]));
        assert(readings::are_lat_impacts(arith, got[k], replays[k].base_lat, impacts[k]));
    }
    assert forall|k: int, j: int| 0 <= k < replays.len() && 0 <= j < got[k].len() implies exact_study::is_isolation(
        val(#[trigger] isols[k][j]),
        val(got[k][j].hashd_rps),
        val(replays[k].base_rps),
    ) by {
        let i = lemma_replay_of(results, k);
        assert(readings::are_work_isols(arith, got[k], replays[k].base_rps, isols[k]));
        assert(val(results[i].base_rps) > 0 as real);
        exact_study::lemma_work_isol(arith, val, got[k][j].hashd_rps, replays[k].base_rps, isols[k][j]);
    }
    assert forall|k: int, j: int| 0 <= k < replays.len() && 0 <= j < got[k].len() implies exact_study::is_impact(
        val(#[trigger] impacts[k][j]),
        val(got[k][j].hashd_lat),
        val(replays[k].base_lat),
    ) by {
        let i = lemma_replay_of(results, k);
        assert(readings::are_lat_impacts(arith, got[k], replays[k].base_lat, impacts[k]));
        assert(val(results[i].base_lat) > 0 as real);
        exact_study::lemma_lat_impact_of(arith, val, got[k][j].hashd_lat, replays[k].base_lat, impacts[k][j]);
    }
    exact_study::lemma_percentiles(*src.percentiles, lists::joined(isols), pcts.work_isol_pcts);
    exact_study::lemma_percentiles(*src.percentiles, lists::joined(impacts), pcts.lat_impact_pcts);
    assert(reads_again(results, val, got, isols, impacts));
}

/// The means of results without a run are beyond all numbers.
pub proof fn lemma_means_of_no_runs<F, A: Fn(Op<F>) -> F>(
    cmb: MemHogResult<F>,
    results: Seq<&MemHogResult<F>>,
    pcts: CombinedPcts<F>,
    arith: A,
    beyond: spec_fn(F) -> bool,
)
    requires
        combine::combines(cmb, results, pcts, arith),
        exact::divides_out(arith, |a: F| true, beyond),
        forall|i: int| 0 <= i < results.len() ==> (#[trigger] results[i]).runs@.len() == 0,
    ensures
        beyond(cmb.base_rps),
        beyond(cmb.base_lat),
        beyond(cmb.work_isol),
        beyond(cmb.lat_impact),
        beyond(cmb.work_csv),
        beyond(cmb.vrate),
{
    lemma_no_runs(results);
    let terms = |q: Mean| combine::mean_terms_of(results, q);
    exact::lemma_mean_over_nothing(arith, beyond, terms(Mean::BaseRps), cmb.mean_spec(Mean::BaseRps));
    exact::lemma_mean_over_nothing(arith, beyond, terms(Mean::BaseLat), cmb.mean_spec(Mean::BaseLat));
    exact::lemma_mean_over_nothing(arith, beyond, terms(Mean::WorkIsol), cmb.mean_spec(Mean::WorkIsol));
    exact::lemma_mean_over_nothing(arith, beyond, terms(Mean::LatImpact), cmb.mean_spec(Mean::LatImpact));
    exact::lemma_mean_over_nothing(arith, beyond, terms(Mean::WorkCsv), cmb.mean_spec(Mean::WorkCsv));
    exact::lemma_mean_over_nothing(arith, beyond, terms(Mean::Vrate), cmb.mean_spec(Mean::Vrate));
}

/// Results without a run have no runs in all.
proof fn lemma_no_runs<F>(results: Seq<&MemHogResult<F>>)
    requires
        forall|i: int| 0 <= i < results.len() ==> (#[trigger] results[i]).runs@.len() == 0,
    ensures
        combine::total_runs_of(results) == 0,
    decreases results.len(),
{
    if results.len() > 0 {
        let prior = results.drop_last();
        assert forall|i: int| 0 <= i < prior.len() implies (#[trigger] prior[i]).runs@.len() == 0 by {
            assert(prior[i] == results[i]);
        }
        lemma_no_runs(prior);
        assert(results[results.len() - 1].runs@.len() == 0);
    }
}

/// Results can be combined if, and only if, their runs and their bytes add up
/// to what fits.
pub proof fn lemma_sums_fit<F>(results: Seq<&MemHogResult<F>>)
    ensures
        combine::sums_fit(results) <==> {
            &&& exact::total(results, |r: &MemHogResult<F>| r.runs@.len() as real) <= (usize::MAX as real)
            &&& exact::total(results, |r: &MemHogResult<F>| r.hog_bytes as real) <= (u64::MAX as real)
            &&& exact::total(results, |r: &MemHogResult<F>| r.hog_lost_bytes as real) <= (u64::MAX as real)
        },
{
    lemma_counts(results);
}

} // verus!
