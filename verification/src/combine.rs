//! Combining the results of several memory-hog scenarios.

use vstd::prelude::*;

use crate::arith::{self, pooled_stdev, sum, weighted_mean, Op};
use crate::lists;
use crate::mem_hog::{MemHog, MemHogResult, MemHogRun};
use crate::readings::{self, Source};
use crate::report::Report;
use crate::strmap::StrMap;
use crate::study;

verus! {

/// A measured quantity that has a mean.
#[derive(Clone, Copy, Debug, PartialEq, Eq, Structural)]
pub enum Mean {
    BaseRps,
    BaseLat,
    WorkIsol,
    LatImpact,
    WorkCsv,
    Vrate,
}

/// A measured quantity that has a standard deviation.
#[derive(Clone, Copy, Debug, PartialEq, Eq, Structural)]
pub enum Spread {
    BaseRps,
    BaseLat,
    WorkIsol,
    LatImpact,
    Vrate,
}

/// A measured quantity that adds up.
#[derive(Clone, Copy, Debug, PartialEq, Eq, Structural)]
pub enum Amount {
    IoUsage,
    IoUnused,
    HogIoUsage,
    HogIoLoss,
}

impl<F> MemHogResult<F> {
    /// The mean of a quantity.
    pub open spec fn mean_spec(self, q: Mean) -> F {
        match q {
            Mean::BaseRps => self.base_rps,
            Mean::BaseLat => self.base_lat,
            Mean::WorkIsol => self.work_isol,
            Mean::LatImpact => self.lat_impact,
            Mean::WorkCsv => self.work_csv,
            Mean::Vrate => self.vrate,
        }
    }

    /// The standard deviation of a quantity.
    pub open spec fn spread_spec(self, q: Spread) -> F {
        match q {
            Spread::BaseRps => self.base_rps_stdev,
            Spread::BaseLat => self.base_lat_stdev,
            Spread::WorkIsol => self.work_isol_stdev,
            Spread::LatImpact => self.lat_impact_stdev,
            Spread::Vrate => self.vrate_stdev,
        }
    }

    /// The amount of a quantity.
    pub open spec fn amount_spec(self, q: Amount) -> F {
        match q {
            Amount::IoUsage => self.io_usage,
            Amount::IoUnused => self.io_unused,
            Amount::HogIoUsage => self.hog_io_usage,
            Amount::HogIoLoss => self.hog_io_loss,
        }
    }
}

impl<F: Copy> MemHogResult<F> {
    /// The mean of a quantity.
    pub fn mean(&self, q: Mean) -> (r: F)
        ensures
            r == self.mean_spec(q),
    {
        match q {
            Mean::BaseRps => self.base_rps,
            Mean::BaseLat => self.base_lat,
            Mean::WorkIsol => self.work_isol,
            Mean::LatImpact => self.lat_impact,
            Mean::WorkCsv => self.work_csv,
            Mean::Vrate => self.vrate,
        }
    }

    /// The standard deviation of a quantity.
    pub fn spread(&self, q: Spread) -> (r: F)
        ensures
            r == self.spread_spec(q),
    {
        match q {
            Spread::BaseRps => self.base_rps_stdev,
            Spread::BaseLat => self.base_lat_stdev,
            Spread::WorkIsol => self.work_isol_stdev,
            Spread::LatImpact => self.lat_impact_stdev,
            Spread::Vrate => self.vrate_stdev,
        }
    }

    /// The amount of a quantity.
    pub fn amount(&self, q: Amount) -> (r: F)
        ensures
            r == self.amount_spec(q),
    {
        match q {
            Amount::IoUsage => self.io_usage,
            Amount::IoUnused => self.io_unused,
            Amount::HogIoUsage => self.hog_io_usage,
            Amount::HogIoLoss => self.hog_io_loss,
        }
    }
}

/// How many runs the results have in all.
pub open spec fn total_runs_of<F>(results: Seq<&MemHogResult<F>>) -> nat
    decreases results.len(),
{
    if results.len() == 0 {
        0
    } else {
        total_runs_of(results.drop_last()) + results.last().runs@.len()
    }
}

/// The means of a quantity, each with the number of runs that it is of.
pub open spec fn mean_terms_of<F>(results: Seq<&MemHogResult<F>>, q: Mean) -> Seq<(F, usize)> {
    results.map_values(|r: &MemHogResult<F>| (r.mean_spec(q), r.runs@.len() as usize))
}

/// The standard deviations of a quantity that are of more than one run, each
/// with its degrees of freedom, which are one less than its runs.
pub open spec fn spread_terms_of<F>(results: Seq<&MemHogResult<F>>, q: Spread) -> Seq<(F, usize)>
    decreases results.len(),
{
    if results.len() == 0 {
        Seq::empty()
    } else {
        let terms = spread_terms_of(results.drop_last(), q);
        let r = results.last();
        if r.runs@.len() > 1 {
            terms.push((r.spread_spec(q), (r.runs@.len() - 1) as usize))
        } else {
            terms
        }
    }
}

/// The amounts of a quantity.
pub open spec fn amount_terms_of<F>(results: Seq<&MemHogResult<F>>, q: Amount) -> Seq<F> {
    results.map_values(|r: &MemHogResult<F>| r.amount_spec(q))
}

/// The degrees of freedom of a pooled standard deviation: those of its terms in
/// all.
pub open spec fn freedom_of<F>(results: Seq<&MemHogResult<F>>) -> nat
    decreases results.len(),
{
    if results.len() == 0 {
        0
    } else {
        let runs = results.last().runs@.len();
        freedom_of(results.drop_last()) + (if runs > 1 { (runs - 1) as nat } else { 0 })
    }
}

/// How many bytes the hogs put out to swap in all.
pub open spec fn sum_hog_bytes<F>(results: Seq<&MemHogResult<F>>) -> nat
    decreases results.len(),
{
    if results.len() == 0 {
        0
    } else {
        sum_hog_bytes(results.drop_last()) + results.last().hog_bytes as nat
    }
}

/// How many bytes the hogs were kept from writing in all.
pub open spec fn sum_hog_lost_bytes<F>(results: Seq<&MemHogResult<F>>) -> nat
    decreases results.len(),
{
    if results.len() == 0 {
        0
    } else {
        sum_hog_lost_bytes(results.drop_last()) + results.last().hog_lost_bytes as nat
    }
}

/// The periods of the hogs of all results, in the order of the results.
pub open spec fn all_hog_periods<F>(results: Seq<&MemHogResult<F>>) -> Seq<(u64, u64)>
    decreases results.len(),
{
    if results.len() == 0 {
        Seq::empty()
    } else {
        all_hog_periods(results.drop_last()) + results.last().hog_periods@
    }
}

/// The period that is as early as the earliest start, counting from the epoch,
/// and as late as the latest end. As the epoch comes before every start, the
/// combined period always starts there.
pub open spec fn main_period_of<F>(results: Seq<&MemHogResult<F>>) -> (u64, u64)
    decreases results.len(),
{
    if results.len() == 0 {
        (0, 0)
    } else {
        let (start, end) = main_period_of(results.drop_last());
        let r = results.last();
        (
            if r.main_period.0 < start { r.main_period.0 } else { start },
            if r.main_period.1 > end { r.main_period.1 } else { end },
        )
    }
}

/// A period of reports to be read again, with the baseline that its result had.
#[derive(Debug)]
pub struct Replay<F> {
    pub base_rps: F,
    pub base_lat: F,
    pub period: (u64, u64),
}

/// The periods of one result, with its baseline.
pub open spec fn replays_of_one<F>(r: MemHogResult<F>) -> Seq<Replay<F>> {
    r.hog_periods@.map_values(
        |period: (u64, u64)| Replay { base_rps: r.base_rps, base_lat: r.base_lat, period },
    )
}

/// The periods of all results, each with the baseline of its own result.
pub open spec fn replays_of<F>(results: Seq<&MemHogResult<F>>) -> Seq<Replay<F>>
    decreases results.len(),
{
    if results.len() == 0 {
        Seq::empty()
    } else {
        replays_of(results.drop_last()) + replays_of_one(*results.last())
    }
}

/// What reading the reports again gave.
#[derive(Debug)]
pub struct CombinedPcts<F> {
    pub work_isol_pcts: StrMap<F>,
    pub lat_impact_pcts: StrMap<F>,
    pub iolat_pcts: [StrMap<StrMap<F>>; 2],
}

/// `xs` are the work isolations of replayed periods, period by period, each
/// against the baseline of its own result.
pub open spec fn are_replayed_isols<F, A: Fn(Op<F>) -> F>(
    arith: A,
    replays: Seq<Replay<F>>,
    got: Seq<Seq<Report<F>>>,
    xs: Seq<Seq<F>>,
) -> bool {
    &&& xs.len() == replays.len()
    &&& forall|i: int|
        0 <= i < xs.len() ==> readings::are_work_isols(arith, got[i], replays[i].base_rps, #[trigger] xs[i])
}

/// `xs` are the latency impacts of replayed periods, period by period, each
/// against the baseline of its own result.
pub open spec fn are_replayed_impacts<F, A: Fn(Op<F>) -> F>(
    arith: A,
    replays: Seq<Replay<F>>,
    got: Seq<Seq<Report<F>>>,
    xs: Seq<Seq<F>>,
) -> bool {
    &&& xs.len() == replays.len()
    &&& forall|i: int|
        0 <= i < xs.len() ==> readings::are_lat_impacts(arith, got[i], replays[i].base_lat, #[trigger] xs[i])
}

/// Percentiles are those of what the reports of all results say, taken
/// together.
pub open spec fn are_combined_pcts<
    's,
    F,
    G: Fn((u64, u64)) -> Vec<Report<F>>,
    S: Fn(Vec<F>) -> (F, F),
    Q: Fn(Vec<F>, Vec<&'static str>) -> StrMap<F>,
    L: Fn(Vec<(u64, u64)>) -> [StrMap<StrMap<F>>; 2],
    A: Fn(Op<F>) -> F,
    P: Fn(F) -> bool,
>(results: Seq<&MemHogResult<F>>, src: Source<'s, G, S, Q, L, A, P>, pcts: CombinedPcts<F>) -> bool {
    exists|got: Seq<Seq<Report<F>>>, isols: Seq<Seq<F>>, impacts: Seq<Seq<F>>|
        {
            &&& #[trigger] readings::all_reported(*src.reports, all_hog_periods(results), got)
            &&& #[trigger] are_replayed_isols(*src.arith, replays_of(results), got, isols)
            &&& readings::are_percentiles(*src.percentiles, lists::joined(isols), pcts.work_isol_pcts)
            &&& #[trigger] are_replayed_impacts(*src.arith, replays_of(results), got, impacts)
            &&& readings::are_percentiles(*src.percentiles, lists::joined(impacts), pcts.lat_impact_pcts)
            &&& readings::are_io_lats(*src.io_lat, all_hog_periods(results), pcts.iolat_pcts)
        }
}

/// A result is the combination of others with the reports of a source.
pub open spec fn is_combination<
    's,
    F,
    G: Fn((u64, u64)) -> Vec<Report<F>>,
    S: Fn(Vec<F>) -> (F, F),
    Q: Fn(Vec<F>, Vec<&'static str>) -> StrMap<F>,
    L: Fn(Vec<(u64, u64)>) -> [StrMap<StrMap<F>>; 2],
    A: Fn(Op<F>) -> F,
    P: Fn(F) -> bool,
>(cmb: MemHogResult<F>, results: Seq<&MemHogResult<F>>, src: Source<'s, G, S, Q, L, A, P>) -> bool {
    exists|pcts: CombinedPcts<F>| #[trigger]
        are_combined_pcts(results, src, pcts) && combines(cmb, results, pcts, *src.arith)
}

/// What adds up over the results fits.
pub open spec fn sums_fit<F>(results: Seq<&MemHogResult<F>>) -> bool {
    &&& total_runs_of(results) <= usize::MAX
    &&& sum_hog_bytes(results) <= u64::MAX
    &&& sum_hog_lost_bytes(results) <= u64::MAX
}

/// What adds up over some first results is no more than over all of them.
proof fn lemma_sums_grow<F>(results: Seq<&MemHogResult<F>>, n: int)
    requires
        0 <= n <= results.len(),
    ensures
        total_runs_of(results.take(n)) <= total_runs_of(results),
        sum_hog_bytes(results.take(n)) <= sum_hog_bytes(results),
        sum_hog_lost_bytes(results.take(n)) <= sum_hog_lost_bytes(results),
        freedom_of(results) <= total_runs_of(results),
    decreases results.len(),
{
    if n == results.len() {
        assert(results.take(n) =~= results);
        if n > 0 {
            lemma_sums_grow(results.drop_last(), n - 1);
        }
    } else {
        lemma_sums_grow(results.drop_last(), n);
        assert(results.drop_last().take(n) =~= results.take(n));
    }
}

/// Whether what adds up over the results fits.
pub fn can_combine<F>(results: &Vec<&MemHogResult<F>>) -> (r: bool)
    ensures
        r == sums_fit(results@),
{
    let mut total_runs: usize = 0;
    let mut hog_bytes: u64 = 0;
    let mut hog_lost_bytes: u64 = 0;
    let mut i: usize = 0;
    while i < results.len()
        invariant
            i <= results@.len(),
            total_runs == total_runs_of(results@.take(i as int)),
            hog_bytes == sum_hog_bytes(results@.take(i as int)),
            hog_lost_bytes == sum_hog_lost_bytes(results@.take(i as int)),
        decreases results@.len() - i,
    {
        proof {
            lemma_sums_grow(results@, i + 1);
            assert(results@.take(i + 1).drop_last() =~= results@.take(i as int));
        }
        let r = results[i];
        if r.runs.len() > usize::MAX - total_runs || r.hog_bytes > u64::MAX - hog_bytes || r.hog_lost_bytes > u64::MAX
            - hog_lost_bytes {
            return false;
        }
        total_runs += r.runs.len();
        hog_bytes += r.hog_bytes;
        hog_lost_bytes += r.hog_lost_bytes;
        i += 1;
    }
    assert(results@.take(i as int) =~= results@);
    true
}

/// The means of a quantity, each with its number of runs.
fn mean_terms<F: Copy>(results: &Vec<&MemHogResult<F>>, q: Mean) -> (r: Vec<(F, usize)>)
    ensures
        r@ == mean_terms_of(results@, q),
{
    let mut terms: Vec<(F, usize)> = Vec::new();
    let mut i: usize = 0;
    while i < results.len()
        invariant
            i <= results@.len(),
            terms@ == mean_terms_of(results@.take(i as int), q),
        decreases results@.len() - i,
    {
        let r = results[i];
        terms.push((r.mean(q), r.runs.len()));
        i += 1;
        assert(terms@ =~= mean_terms_of(results@.take(i as int), q));
    }
    assert(results@.take(i as int) =~= results@);
    terms
}

/// The standard deviations of a quantity, each with its degrees of freedom.
fn spread_terms<F: Copy>(results: &Vec<&MemHogResult<F>>, q: Spread) -> (r: Vec<(F, usize)>)
    ensures
        r@ == spread_terms_of(results@, q),
{
    let mut terms: Vec<(F, usize)> = Vec::new();
    let mut i: usize = 0;
    while i < results.len()
        invariant
            i <= results@.len(),
            terms@ == spread_terms_of(results@.take(i as int), q),
        decreases results@.len() - i,
    {
        let r = results[i];
        assert(results@.take(i + 1).drop_last() =~= results@.take(i as int));
        if r.runs.len() > 1 {
            terms.push((r.spread(q), r.runs.len() - 1));
        }
        i += 1;
    }
    assert(results@.take(i as int) =~= results@);
    terms
}

/// The amounts of a quantity.
fn amount_terms<F: Copy>(results: &Vec<&MemHogResult<F>>, q: Amount) -> (r: Vec<F>)
    ensures
        r@ == amount_terms_of(results@, q),
{
    let mut terms: Vec<F> = Vec::new();
    let mut i: usize = 0;
    while i < results.len()
        invariant
            i <= results@.len(),
            terms@ == amount_terms_of(results@.take(i as int), q),
        decreases results@.len() - i,
    {
        terms.push(results[i].amount(q));
        i += 1;
        assert(terms@ =~= amount_terms_of(results@.take(i as int), q));
    }
    assert(results@.take(i as int) =~= results@);
    terms
}

/// A result is the combination of others.
pub open spec fn combines<F, A: Fn(Op<F>) -> F>(
    cmb: MemHogResult<F>,
    results: Seq<&MemHogResult<F>>,
    pcts: CombinedPcts<F>,
    arith: A,
) -> bool {
    &&& forall|q: Mean|
        arith::is_weighted_mean(
            arith,
            mean_terms_of(results, q),
            total_runs_of(results) as usize,
            #[trigger] cmb.mean_spec(q),
        )
    &&& forall|q: Spread|
        arith::is_pooled(
            arith,
            spread_terms_of(results, q),
            freedom_of(results) as usize,
            #[trigger] cmb.spread_spec(q),
        )
    &&& forall|q: Amount| arith::is_sum(arith, amount_terms_of(results, q), #[trigger] cmb.amount_spec(q))
    &&& cmb.main_period == main_period_of(results)
    &&& cmb.hog_periods@ == all_hog_periods(results)
    &&& cmb.hog_bytes == sum_hog_bytes(results)
    &&& cmb.hog_lost_bytes == sum_hog_lost_bytes(results)
    &&& cmb.work_isol_pcts == pcts.work_isol_pcts
    &&& cmb.lat_impact_pcts == pcts.lat_impact_pcts
    &&& cmb.iolat_pcts == pcts.iolat_pcts
    &&& cmb.runs@.len() == 0
}

impl<F: Copy> MemHog<F> {
    /// The periods whose reports are read again for the combined percentiles,
    /// each with the baseline of its own result. Percentiles can't be combined
    /// from percentiles.
    pub fn replays(results: &Vec<&MemHogResult<F>>) -> (r: Vec<Replay<F>>)
        ensures
            r@ == replays_of(results@),
    {
        let mut replays: Vec<Replay<F>> = Vec::new();
        let mut i: usize = 0;
        while i < results.len()
            invariant
                i <= results@.len(),
                replays@ == replays_of(results@.take(i as int)),
            decreases results@.len() - i,
        {
            let r = results[i];
            let ghost done = replays@;
            let mut j: usize = 0;
            while j < r.hog_periods.len()
                invariant
                    j <= r.hog_periods@.len(),
                    replays@ == done + replays_of_one(*r).take(j as int),
                decreases r.hog_periods@.len() - j,
            {
                replays.push(Replay { base_rps: r.base_rps, base_lat: r.base_lat, period: r.hog_periods[j] });
                j += 1;
                assert(replays@ =~= done + replays_of_one(*r).take(j as int));
            }
            assert(replays_of_one(*r).take(j as int) =~= replays_of_one(*r));
            assert(results@.take(i + 1).drop_last() =~= results@.take(i as int));
            i += 1;
        }
        assert(results@.take(i as int) =~= results@);
        replays
    }

    /// The combined percentiles, read off the reports again.
    pub fn combined_pcts<
        G: Fn((u64, u64)) -> Vec<Report<F>>,
        S: Fn(Vec<F>) -> (F, F),
        Q: Fn(Vec<F>, Vec<&'static str>) -> StrMap<F>,
        L: Fn(Vec<(u64, u64)>) -> [StrMap<StrMap<F>>; 2],
        A: Fn(Op<F>) -> F,
        P: Fn(F) -> bool,
    >(results: &Vec<&MemHogResult<F>>, src: &Source<G, S, Q, L, A, P>) -> (pcts: CombinedPcts<F>)
        requires
            readings::works(*src),
        ensures
            are_combined_pcts(results@, *src, pcts),
    {
        let replays = Self::replays(results);
        let mut periods: Vec<(u64, u64)> = Vec::new();
        let mut isols: Vec<F> = Vec::new();
        let mut impacts: Vec<F> = Vec::new();
        let ghost mut got: Seq<Seq<Report<F>>> = Seq::empty();
        let ghost mut xs: Seq<Seq<F>> = Seq::empty();
        let ghost mut ys: Seq<Seq<F>> = Seq::empty();
        let mut i: usize = 0;
        while i < replays.len()
            invariant
                i <= replays@.len(),
                readings::works(*src),
                periods@ == replays@.take(i as int).map_values(|r: Replay<F>| r.period),
                readings::all_reported(*src.reports, periods@, got),
                are_replayed_isols(*src.arith, replays@.take(i as int), got, xs),
                are_replayed_impacts(*src.arith, replays@.take(i as int), got, ys),
                isols@ == lists::joined(xs),
                impacts@ == lists::joined(ys),
            decreases replays@.len() - i,
        {
            let replay = &replays[i];
            let reps = (src.reports)(replay.period);
            let mut some_isols = readings::work_isols(&reps, replay.base_rps, src.arith);
            let mut some_impacts = readings::lat_impacts(&reps, replay.base_lat, src.arith);
            let ghost (got0, xs0, ys0, periods0) = (got, xs, ys, periods@);
            periods.push(replay.period);
            proof {
                assert(readings::reported(*src.reports, replay.period, reps@));
                got = got0.push(reps@);
                xs = xs0.push(some_isols@);
                ys = ys0.push(some_impacts@);
                lists::lemma_joined_push(xs0, some_isols@);
                lists::lemma_joined_push(ys0, some_impacts@);
                assert(periods@ =~= replays@.take(i + 1).map_values(|r: Replay<F>| r.period));
                assert forall|j: int| 0 <= j < i + 1 implies readings::reported(
                    *src.reports,
                    periods@[j],
                    #[trigger] got[j],
                ) by {
                    if j < i {
                        assert(got[j] == got0[j] && periods@[j] == periods0[j]);
                    }
                }
                assert forall|j: int| 0 <= j < i + 1 implies readings::are_work_isols(
                    *src.arith,
                    got[j],
                    replays@.take(i + 1)[j].base_rps,
                    #[trigger] xs[j],
                ) by {
                    if j < i {
                        assert(xs[j] == xs0[j] && got[j] == got0[j]);
                        assert(replays@.take(i as int)[j] == replays@[j]);
                    }
                }
                assert forall|j: int| 0 <= j < i + 1 implies readings::are_lat_impacts(
                    *src.arith,
                    got[j],
                    replays@.take(i + 1)[j].base_lat,
                    #[trigger] ys[j],
                ) by {
                    if j < i {
                        assert(ys[j] == ys0[j] && got[j] == got0[j]);
                        assert(replays@.take(i as int)[j] == replays@[j]);
                    }
                }
            }
            isols.append(&mut some_isols);
            impacts.append(&mut some_impacts);
            i += 1;
        }
        proof {
            assert(replays@.take(i as int) =~= replays@);
            lemma_replays_cover(results@);
        }
        let work_isol_pcts = readings::shown_percentiles(isols, src.percentiles);
        let lat_impact_pcts = readings::shown_percentiles(impacts, src.percentiles);
        let iolat_pcts = (src.io_lat)(periods);
        assert(readings::are_io_lats(*src.io_lat, all_hog_periods(results@), iolat_pcts));
        CombinedPcts { work_isol_pcts, lat_impact_pcts, iolat_pcts }
    }

    /// Combines results. Means are averaged with the numbers of runs as
    /// weights, standard deviations are pooled, and sums are added up. The
    /// percentiles are read off the reports again.
    pub fn combine_results<
        G: Fn((u64, u64)) -> Vec<Report<F>>,
        S: Fn(Vec<F>) -> (F, F),
        Q: Fn(Vec<F>, Vec<&'static str>) -> StrMap<F>,
        L: Fn(Vec<(u64, u64)>) -> [StrMap<StrMap<F>>; 2],
        A: Fn(Op<F>) -> F,
        P: Fn(F) -> bool,
    >(results: &Vec<&MemHogResult<F>>, src: &Source<G, S, Q, L, A, P>) -> (cmb: MemHogResult<F>)
        requires
            results@.len() > 0,
            sums_fit(results@),
            readings::works(*src),
        ensures
            is_combination(cmb, results@, *src),
    {
        let pcts = Self::combined_pcts(results, src);
        Self::combine_stats(results, pcts, src.arith)
    }

    /// Combines results, where `pcts` is what reading the reports again gave.
    pub fn combine_stats<A: Fn(Op<F>) -> F>(
        results: &Vec<&MemHogResult<F>>,
        pcts: CombinedPcts<F>,
        arith: &A,
    ) -> (cmb: MemHogResult<F>)
        requires
            results@.len() > 0,
            sums_fit(results@),
            arith::does_all(*arith),
        ensures
            combines(cmb, results@, pcts, *arith),
    {
        let mut total_runs: usize = 0;
        let mut freedom: usize = 0;
        let mut main_period: (u64, u64) = (0, 0);
        let mut hog_bytes: u64 = 0;
        let mut hog_lost_bytes: u64 = 0;
        let mut hog_periods: Vec<(u64, u64)> = Vec::new();
        let mut i: usize = 0;
        while i < results.len()
            invariant
                i <= results@.len(),
                sums_fit(results@),
                total_runs == total_runs_of(results@.take(i as int)),
                freedom == freedom_of(results@.take(i as int)),
                main_period == main_period_of(results@.take(i as int)),
                hog_bytes == sum_hog_bytes(results@.take(i as int)),
                hog_lost_bytes == sum_hog_lost_bytes(results@.take(i as int)),
                hog_periods@ == all_hog_periods(results@.take(i as int)),
            decreases results@.len() - i,
        {
            proof {
                lemma_sums_grow(results@, i + 1);
                lemma_sums_grow(results@.take(i + 1), i + 1);
                assert(results@.take(i + 1).drop_last() =~= results@.take(i as int));
            }
            let r = results[i];
            total_runs += r.runs.len();
            if r.runs.len() > 1 {
                freedom += r.runs.len() - 1;
            }
            if r.main_period.0 < main_period.0 {
                main_period = (r.main_period.0, main_period.1);
            }
            if r.main_period.1 > main_period.1 {
                main_period = (main_period.0, r.main_period.1);
            }
            hog_bytes += r.hog_bytes;
            hog_lost_bytes += r.hog_lost_bytes;
            let mut periods = lists::copied(&r.hog_periods);
            hog_periods.append(&mut periods);
            i += 1;
        }
        assert(results@.take(i as int) =~= results@);
        MemHogResult {
            base_rps: weighted_mean(&mean_terms(results, Mean::BaseRps), total_runs, arith),
            base_rps_stdev: pooled_stdev(&spread_terms(results, Spread::BaseRps), freedom, arith),
            base_lat: weighted_mean(&mean_terms(results, Mean::BaseLat), total_runs, arith),
            base_lat_stdev: pooled_stdev(&spread_terms(results, Spread::BaseLat), freedom, arith),
            work_isol_pcts: pcts.work_isol_pcts,
            work_isol: weighted_mean(&mean_terms(results, Mean::WorkIsol), total_runs, arith),
            work_isol_stdev: pooled_stdev(&spread_terms(results, Spread::WorkIsol), freedom, arith),
            lat_impact_pcts: pcts.lat_impact_pcts,
            lat_impact: weighted_mean(&mean_terms(results, Mean::LatImpact), total_runs, arith),
            lat_impact_stdev: pooled_stdev(&spread_terms(results, Spread::LatImpact), freedom, arith),
            work_csv: weighted_mean(&mean_terms(results, Mean::WorkCsv), total_runs, arith),
            iolat_pcts: pcts.iolat_pcts,
            main_period,
            hog_periods,
            vrate: weighted_mean(&mean_terms(results, Mean::Vrate), total_runs, arith),
            vrate_stdev: pooled_stdev(&spread_terms(results, Spread::Vrate), freedom, arith),
            io_usage: sum(&amount_terms(results, Amount::IoUsage), arith),
            io_unused: sum(&amount_terms(results, Amount::IoUnused), arith),
            hog_io_usage: sum(&amount_terms(results, Amount::HogIoUsage), arith),
            hog_io_loss: sum(&amount_terms(results, Amount::HogIoLoss), arith),
            hog_bytes,
            hog_lost_bytes,
            runs: Vec::new(),
        }
    }
}

/// The sum of the weights of terms.
pub open spec fn weight_of<F>(terms: Seq<(F, usize)>) -> nat
    decreases terms.len(),
{
    if terms.len() == 0 {
        0
    } else {
        weight_of(terms.drop_last()) + terms.last().1 as nat
    }
}

/// A combined mean is a true average: its weights add up to what their sum is
/// divided by.
pub proof fn lemma_mean_weights<F>(results: Seq<&MemHogResult<F>>, q: Mean)
    requires
        total_runs_of(results) <= usize::MAX,
    ensures
        weight_of(mean_terms_of(results, q)) == total_runs_of(results),
    decreases results.len(),
{
    if results.len() > 0 {
        lemma_mean_weights(results.drop_last(), q);
        assert(mean_terms_of(results, q).drop_last() =~= mean_terms_of(results.drop_last(), q));
    }
}

/// A combined standard deviation is the root of a true pooled variance: its
/// weights add up to what their sum is divided by, and where that is nothing,
/// there are no terms. When every result has a run, it is by how many there
/// are more runs than results.
pub proof fn lemma_spread_weights<F>(results: Seq<&MemHogResult<F>>, q: Spread)
    requires
        total_runs_of(results) <= usize::MAX,
    ensures
        weight_of(spread_terms_of(results, q)) == freedom_of(results),
        freedom_of(results) == 0 <==> spread_terms_of(results, q).len() == 0,
        (forall|i: int| 0 <= i < results.len() ==> (#[trigger] results[i]).runs@.len() > 0) ==> freedom_of(results)
            == total_runs_of(results) - results.len(),
    decreases results.len(),
{
    if results.len() > 0 {
        let prior = results.drop_last();
        lemma_spread_weights(prior, q);
        let last = results[results.len() - 1];
        if forall|i: int| 0 <= i < results.len() ==> (#[trigger] results[i]).runs@.len() > 0 {
            assert forall|i: int| 0 <= i < prior.len() implies (#[trigger] prior[i]).runs@.len() > 0 by {
                assert(prior[i] == results[i]);
            }
            assert(last.runs@.len() > 0);
        }
        let terms = spread_terms_of(results, q);
        if last.runs@.len() > 1 {
            assert(terms.drop_last() =~= spread_terms_of(prior, q));
        }
    }
}

/// The combined period starts at the epoch, and ends with the latest result.
pub proof fn lemma_main_period<F>(results: Seq<&MemHogResult<F>>)
    requires
        results.len() > 0,
    ensures
        main_period_of(results).0 == 0,
        forall|i: int|
            0 <= i < results.len() ==> (#[trigger] results[i]).main_period.1 <= main_period_of(results).1,
        exists|i: int|
            0 <= i < results.len() && (#[trigger] results[i]).main_period.1 == main_period_of(results).1,
    decreases results.len(),
{
    let prior = results.drop_last();
    let last = results[results.len() - 1];
    assert(last == results.last());
    if prior.len() == 0 {
        assert(main_period_of(prior) == (0u64, 0u64));
    } else {
        lemma_main_period(prior);
        assert forall|i: int| 0 <= i < results.len() implies (#[trigger] results[i]).main_period.1 <= main_period_of(
            results,
        ).1 by {
            if i < prior.len() {
                assert(prior[i] == results[i]);
            }
        }
        let k = choose|k: int| 0 <= k < prior.len() && (#[trigger] prior[k]).main_period.1 == main_period_of(prior).1;
        assert(results[k] == prior[k]);
    }
}

/// The periods that are read again are the combined result's periods.
pub proof fn lemma_replays_cover<F>(results: Seq<&MemHogResult<F>>)
    ensures
        replays_of(results).map_values(|r: Replay<F>| r.period) == all_hog_periods(results),
    decreases results.len(),
{
    let period = |r: Replay<F>| r.period;
    if results.len() == 0 {
        assert(replays_of(results).map_values(period) =~= all_hog_periods(results));
    } else {
        lemma_replays_cover(results.drop_last());
        assert(replays_of_one(*results.last()).map_values(period) =~= results.last().hog_periods@);
        assert(replays_of(results).map_values(period) =~= replays_of(results.drop_last()).map_values(period)
            + replays_of_one(*results.last()).map_values(period));
    }
}

/// The runs of all results, in the order of the results.
pub open spec fn all_runs<F>(results: Seq<&MemHogResult<F>>) -> Seq<MemHogRun>
    decreases results.len(),
{
    if results.len() == 0 {
        Seq::empty()
    } else {
        all_runs(results.drop_last()) + results.last().runs@
    }
}

/// Combining the results of scenarios gives the totals and the periods that
/// studying all of their runs at once gives.
pub proof fn lemma_combine_is_study_of_all<F>(results: Seq<&MemHogResult<F>>)
    requires
        forall|i: int| 0 <= i < results.len() ==> study::is_of_its_runs(*#[trigger] results[i]),
    ensures
        sum_hog_bytes(results) == study::hog_bytes_of(all_runs(results)),
        sum_hog_lost_bytes(results) == study::hog_lost_bytes_of(all_runs(results)),
        all_hog_periods(results) == study::hog_periods_of(all_runs(results)),
        total_runs_of(results) == all_runs(results).len(),
    decreases results.len(),
{
    if results.len() == 0 {
        assert(all_hog_periods(results) =~= study::hog_periods_of(all_runs(results)));
    } else {
        let prior = results.drop_last();
        assert forall|i: int| 0 <= i < prior.len() implies study::is_of_its_runs(*#[trigger] prior[i]) by {
            assert(prior[i] == results[i]);
        }
        lemma_combine_is_study_of_all(prior);
        assert(study::is_of_its_runs(*results[results.len() - 1]));
        study::lemma_study_append(all_runs(prior), results.last().runs@);
    }
}

} // verus!
