//! What the agent's reports say over periods of time.
//!
//! The caller hands in where reports come from and how lists of values are
//! summed up. Which reports are read, and which values are taken from them,
//! stands here.

use vstd::prelude::*;

use crate::arith::{self, apply, Op};
use crate::layout::{self, pcts};
use crate::lists;
use crate::mem_hog::MemHog;
use crate::report::Report;
use crate::strmap::StrMap;
use crate::study::{self, IoTally};

verus! {

/// Something that every report tells of.
#[derive(Clone, Copy, Debug, PartialEq, Eq, Structural)]
pub enum Measure {
    /// The throughput of the workload.
    Rps,
    /// The control latency of the workload.
    Lat,
    /// How much of the modelled IO capacity is given out.
    Vrate,
}

impl<F> Report<F> {
    /// What the report says of a measure.
    pub open spec fn measure_spec(self, m: Measure) -> F {
        match m {
            Measure::Rps => self.hashd_rps,
            Measure::Lat => self.hashd_lat,
            Measure::Vrate => self.vrate,
        }
    }
}

/// What a report says of a measure.
pub fn measure<F: Copy>(rep: &Report<F>, m: Measure) -> (x: F)
    ensures
        x == rep.measure_spec(m),
{
    match m {
        Measure::Rps => rep.hashd_rps,
        Measure::Lat => rep.hashd_lat,
        Measure::Vrate => rep.vrate,
    }
}

/// Where reports come from, and how what they say is summed up.
pub struct Source<'s, G, S, Q, L, A, P> {
    /// The reports of a period.
    pub reports: &'s G,
    /// The mean and the standard deviation of values.
    pub summary: &'s S,
    /// The percentiles of values, by their names.
    pub percentiles: &'s Q,
    /// The distributions of read and write latencies over periods.
    pub io_lat: &'s L,
    /// Does an operation.
    pub arith: &'s A,
    /// Whether a quantity is more than zero.
    pub positive: &'s P,
    /// The slice that is the whole machine.
    pub root: &'s str,
    /// The service that the memory hog runs as.
    pub hog_svc: &'s str,
}

/// All that a source is asked for it takes.
pub open spec fn works<
    's,
    F,
    G: Fn((u64, u64)) -> Vec<Report<F>>,
    S: Fn(Vec<F>) -> (F, F),
    Q: Fn(Vec<F>, Vec<&'static str>) -> StrMap<F>,
    L: Fn(Vec<(u64, u64)>) -> [StrMap<StrMap<F>>; 2],
    A: Fn(Op<F>) -> F,
    P: Fn(F) -> bool,
>(src: Source<'s, G, S, Q, L, A, P>) -> bool {
    &&& forall|p: (u64, u64)| call_requires(*src.reports, (p,))
    &&& forall|v: Vec<F>| call_requires(*src.summary, (v,))
    &&& forall|v: Vec<F>, names: Vec<&'static str>| call_requires(*src.percentiles, (v, names))
    &&& forall|v: Vec<(u64, u64)>| call_requires(*src.io_lat, (v,))
    &&& arith::does_all(*src.arith)
    &&& forall|x: F| call_requires(*src.positive, (x,))
}

/// `reps` is what a period's reports may be.
pub open spec fn reported<F, G: Fn((u64, u64)) -> Vec<Report<F>>>(
    reports: G,
    period: (u64, u64),
    reps: Seq<Report<F>>,
) -> bool {
    exists|v: Vec<Report<F>>| v@ == reps && #[trigger] call_ensures(reports, (period,), v)
}

/// `got` are the reports of periods, period by period.
pub open spec fn all_reported<F, G: Fn((u64, u64)) -> Vec<Report<F>>>(
    reports: G,
    periods: Seq<(u64, u64)>,
    got: Seq<Seq<Report<F>>>,
) -> bool {
    &&& got.len() == periods.len()
    &&& forall|i: int| 0 <= i < periods.len() ==> reported(reports, periods[i], #[trigger] got[i])
}

/// `reps` are the reports of periods, those of one period behind those of the
/// period before.
pub open spec fn pooled<F, G: Fn((u64, u64)) -> Vec<Report<F>>>(
    reports: G,
    periods: Seq<(u64, u64)>,
    reps: Seq<Report<F>>,
) -> bool {
    exists|got: Seq<Seq<Report<F>>>| #[trigger] all_reported(reports, periods, got) && reps == lists::joined(got)
}

/// The reports of periods have a usage for a slice.
pub open spec fn all_have<F, G: Fn((u64, u64)) -> Vec<Report<F>>>(
    reports: G,
    periods: Seq<(u64, u64)>,
    slice: Seq<char>,
) -> bool {
    forall|i: int, reps: Seq<Report<F>>, j: int|
        0 <= i < periods.len() && #[trigger] reported(reports, periods[i], reps) && 0 <= j < reps.len()
            ==> (#[trigger] reps[j]).usages@.contains_key(slice)
}

/// What reports say of a measure.
pub open spec fn values_of<F>(reps: Seq<Report<F>>, m: Measure) -> Seq<F> {
    reps.map_values(|rep: Report<F>| rep.measure_spec(m))
}

/// `xs` are the work isolations that reports tell of.
pub open spec fn are_work_isols<F, A: Fn(Op<F>) -> F>(
    arith: A,
    reps: Seq<Report<F>>,
    base_rps: F,
    xs: Seq<F>,
) -> bool {
    &&& xs.len() == reps.len()
    &&& forall|i: int| 0 <= i < xs.len() ==> study::is_work_isol(arith, reps[i].hashd_rps, base_rps, #[trigger] xs[i])
}

/// `xs` are the latency impacts that reports tell of.
pub open spec fn are_lat_impacts<F, A: Fn(Op<F>) -> F>(
    arith: A,
    reps: Seq<Report<F>>,
    base_lat: F,
    xs: Seq<F>,
) -> bool {
    &&& xs.len() == reps.len()
    &&& forall|i: int|
        0 <= i < xs.len() ==> study::is_clamped_lat_impact(arith, reps[i].hashd_lat, base_lat, #[trigger] xs[i])
}

/// `tallies` are the IO costs of no reports, of the first one, of the first two
/// and so on, each made from the one before.
pub open spec fn running_tallies<F, A: Fn(Op<F>) -> F>(
    arith: A,
    reps: Seq<Report<F>>,
    root: Seq<char>,
    hog_svc: Seq<char>,
    tallies: Seq<IoTally<F>>,
) -> bool {
    &&& tallies.len() == reps.len() + 1
    &&& study::is_no_tally(arith, tallies[0])
    &&& forall|i: int|
        0 <= i < reps.len() ==> study::tallies(arith, tallies[i], #[trigger] reps[i], root, hog_svc, tallies[i + 1])
}

/// `io` are the IO costs that reports tell of, added up in their order.
pub open spec fn is_tally<F, A: Fn(Op<F>) -> F>(
    arith: A,
    reps: Seq<Report<F>>,
    root: Seq<char>,
    hog_svc: Seq<char>,
    io: IoTally<F>,
) -> bool {
    exists|tallies: Seq<IoTally<F>>| #[trigger]
        running_tallies(arith, reps, root, hog_svc, tallies) && io == tallies.last()
}

/// `mean` and `stdev` are what values may be summed up to.
pub open spec fn is_summary<F, S: Fn(Vec<F>) -> (F, F)>(summary: S, xs: Seq<F>, mean: F, stdev: F) -> bool {
    exists|v: Vec<F>| v@ == xs && #[trigger] call_ensures(summary, (v,), (mean, stdev))
}

/// `table` is what the percentiles of values that are shown may be.
pub open spec fn are_percentiles<F, Q: Fn(Vec<F>, Vec<&'static str>) -> StrMap<F>>(
    percentiles: Q,
    xs: Seq<F>,
    table: StrMap<F>,
) -> bool {
    exists|v: Vec<F>, names: Vec<&'static str>|
        {
            &&& v@ == xs
            &&& names@.map_values(|s: &'static str| s@) == layout::pcts_spec()
            &&& #[trigger] call_ensures(percentiles, (v, names), table)
        }
}

/// `tables` is what the distributions of IO latencies over periods may be.
pub open spec fn are_io_lats<F, L: Fn(Vec<(u64, u64)>) -> [StrMap<StrMap<F>>; 2]>(
    io_lat: L,
    periods: Seq<(u64, u64)>,
    tables: [StrMap<StrMap<F>>; 2],
) -> bool {
    exists|v: Vec<(u64, u64)>| v@ == periods && #[trigger] call_ensures(io_lat, (v,), tables)
}

/// The reports of periods, those of one period behind those of the period
/// before.
pub(crate) fn pull<F, G: Fn((u64, u64)) -> Vec<Report<F>>>(periods: &Vec<(u64, u64)>, reports: &G) -> (r: Vec<
    Report<F>,
>)
    requires
        forall|p: (u64, u64)| call_requires(*reports, (p,)),
    ensures
        pooled(*reports, periods@, r@),
{
    let mut all: Vec<Report<F>> = Vec::new();
    let ghost mut got: Seq<Seq<Report<F>>> = Seq::empty();
    let mut i: usize = 0;
    while i < periods.len()
        invariant
            i <= periods@.len(),
            forall|p: (u64, u64)| call_requires(*reports, (p,)),
            all_reported(*reports, periods@.take(i as int), got),
            all@ == lists::joined(got),
        decreases periods@.len() - i,
    {
        let mut reps = reports(periods[i]);
        let ghost one = reps@;
        let ghost prior = got;
        proof {
            assert(reported(*reports, periods@[i as int], one));
            got = prior.push(one);
            lists::lemma_joined_push(prior, one);
            assert forall|j: int| 0 <= j < i + 1 implies reported(
                *reports,
                periods@.take(i + 1)[j],
                #[trigger] got[j],
            ) by {
                if j < i {
                    assert(got[j] == prior[j]);
                    assert(periods@.take(i as int)[j] == periods@[j]);
                }
            }
        }
        all.append(&mut reps);
        i += 1;
    }
    assert(periods@.take(i as int) =~= periods@);
    all
}

/// Reports that are pooled have what the reports of each period have.
pub(crate) proof fn lemma_pooled_have<F, G: Fn((u64, u64)) -> Vec<Report<F>>>(
    reports: G,
    periods: Seq<(u64, u64)>,
    reps: Seq<Report<F>>,
    slice: Seq<char>,
)
    requires
        all_have(reports, periods, slice),
        pooled(reports, periods, reps),
    ensures
        forall|i: int| 0 <= i < reps.len() ==> (#[trigger] reps[i]).usages@.contains_key(slice),
{
    let got = choose|got: Seq<Seq<Report<F>>>| #[trigger]
        all_reported(reports, periods, got) && reps == lists::joined(got);
    assert forall|k: int| 0 <= k < reps.len() implies (#[trigger] reps[k]).usages@.contains_key(slice) by {
        let (i, j) = lists::lemma_joined_member(got, k);
        assert(reported(reports, periods[i], got[i]));
        assert(got[i][j].usages@.contains_key(slice));
    }
}

/// What reports say of a measure.
pub fn values<F: Copy>(reps: &Vec<Report<F>>, m: Measure) -> (r: Vec<F>)
    ensures
        r@ == values_of(reps@, m),
{
    let mut xs: Vec<F> = Vec::new();
    let mut i: usize = 0;
    while i < reps.len()
        invariant
            i <= reps@.len(),
            xs@ == values_of(reps@.take(i as int), m),
        decreases reps@.len() - i,
    {
        xs.push(measure(&reps[i], m));
        i += 1;
        assert(xs@ =~= values_of(reps@.take(i as int), m));
    }
    assert(reps@.take(i as int) =~= reps@);
    xs
}

/// The work isolations that reports tell of.
pub fn work_isols<F: Copy, A: Fn(Op<F>) -> F>(reps: &Vec<Report<F>>, base_rps: F, arith: &A) -> (r: Vec<F>)
    requires
        arith::does_all(*arith),
    ensures
        are_work_isols(*arith, reps@, base_rps, r@),
{
    let mut xs: Vec<F> = Vec::new();
    let mut i: usize = 0;
    while i < reps.len()
        invariant
            i <= reps@.len(),
            xs@.len() == i,
            arith::does_all(*arith),
            forall|j: int|
                0 <= j < i ==> study::is_work_isol(*arith, reps@[j].hashd_rps, base_rps, #[trigger] xs@[j]),
        decreases reps@.len() - i,
    {
        xs.push(MemHog::work_isol_of(&reps[i], base_rps, arith));
        i += 1;
    }
    xs
}

/// The latency impacts that reports tell of.
pub fn lat_impacts<F: Copy, A: Fn(Op<F>) -> F>(reps: &Vec<Report<F>>, base_lat: F, arith: &A) -> (r: Vec<F>)
    requires
        arith::does_all(*arith),
    ensures
        are_lat_impacts(*arith, reps@, base_lat, r@),
{
    let mut xs: Vec<F> = Vec::new();
    let mut i: usize = 0;
    while i < reps.len()
        invariant
            i <= reps@.len(),
            xs@.len() == i,
            arith::does_all(*arith),
            forall|j: int|
                0 <= j < i ==> study::is_clamped_lat_impact(*arith, reps@[j].hashd_lat, base_lat, #[trigger] xs@[j]),
        decreases reps@.len() - i,
    {
        xs.push(MemHog::lat_impact_of(&reps[i], base_lat, arith));
        i += 1;
    }
    xs
}

/// The IO costs that reports tell of, added up.
pub fn tally<F: Copy, A: Fn(Op<F>) -> F>(reps: &Vec<Report<F>>, root: &str, hog_svc: &str, arith: &A) -> (r: IoTally<F>)
    requires
        arith::does_all(*arith),
        forall|i: int| 0 <= i < reps@.len() ==> (#[trigger] reps@[i]).usages@.contains_key(root@),
    ensures
        is_tally(*arith, reps@, root@, hog_svc@, r),
{
    let mut io = IoTally::new(arith);
    let ghost mut tallies = seq![io];
    let mut i: usize = 0;
    while i < reps.len()
        invariant
            i <= reps@.len(),
            arith::does_all(*arith),
            forall|j: int| 0 <= j < reps@.len() ==> (#[trigger] reps@[j]).usages@.contains_key(root@),
            running_tallies(*arith, reps@.take(i as int), root@, hog_svc@, tallies),
            io == tallies.last(),
        decreases reps@.len() - i,
    {
        let ghost prior = tallies;
        io.add_report(&reps[i], root, hog_svc, arith);
        proof {
            tallies = prior.push(io);
            let rs = reps@.take(i + 1);
            assert forall|j: int| 0 <= j < rs.len() implies study::tallies(
                *arith,
                tallies[j],
                #[trigger] rs[j],
                root@,
                hog_svc@,
                tallies[j + 1],
            ) by {
                if j < i {
                    assert(rs[j] == reps@.take(i as int)[j]);
                }
            }
        }
        i += 1;
    }
    assert(reps@.take(i as int) =~= reps@);
    io
}

/// The percentiles of values that are shown.
pub(crate) fn shown_percentiles<F, Q: Fn(Vec<F>, Vec<&'static str>) -> StrMap<F>>(xs: Vec<F>, percentiles: &Q) -> (r:
    StrMap<F>)
    requires
        forall|v: Vec<F>, names: Vec<&'static str>| call_requires(*percentiles, (v, names)),
    ensures
        are_percentiles(*percentiles, xs@, r),
{
    percentiles(xs, pcts())
}

} // verus!
