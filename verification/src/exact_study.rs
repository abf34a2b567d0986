//! What studies come to when operations are exact.

use vstd::prelude::*;

use crate::arith::{self, Op};
use crate::exact;
use crate::layout;
use crate::lists;
use crate::mem_hog::{MemHogResult, MemHogRun};
use crate::readings::{self, Measure, Source};
use crate::report::{Report, Usage};
use crate::strmap::StrMap;
use crate::study::{self, BaseStats, HogStats, IoTally};

verus! {

/// A number is the share of the baseline that a throughput is, and one if the
/// throughput is more than the baseline.
pub open spec fn is_isolation(x: real, rps: real, base: real) -> bool {
    &&& rps <= base ==> x * base == rps
    &&& rps >= base ==> x == 1 as real
}

/// A number is by which share of the baseline a latency is over it. It is zero
/// if the latency is not, and one if it is over it by the baseline or more.
pub open spec fn is_impact(x: real, lat: real, base: real) -> bool {
    &&& lat <= base ==> x == 0 as real
    &&& base <= lat <= base + base ==> (1 as real + x) * base == lat
    &&& lat >= base + base ==> x == 1 as real
}

/// `calc_work_isol` gives the share of the baseline that the throughput is.
pub proof fn lemma_work_isol<F, A: Fn(Op<F>) -> F>(arith: A, val: spec_fn(F) -> real, rps: F, base_rps: F, x: F)
    requires
        exact::is_exact(arith, val),
        study::is_work_isol(arith, rps, base_rps, x),
        val(base_rps) > 0 as real,
    ensures
        is_isolation(val(x), val(rps), val(base_rps)),
{
    let (q, one) = choose|q: F, one: F|
        {
            &&& #[trigger] arith::gives(arith, Op::Div(rps, base_rps), q)
            &&& #[trigger] arith::gives(arith, Op::Int(1), one)
            &&& arith::gives(arith, Op::Min(q, one), x)
        };
    let (a, b, c) = (val(rps), val(base_rps), val(q));
    assert((a <= b ==> c <= 1 as real) && (a >= b ==> c >= 1 as real)) by (nonlinear_arith)
        requires
            b > 0 as real,
            c * b == a,
    ;
}

/// `calc_lat_impact` gives by which share of the baseline the latency is over
/// it.
pub proof fn lemma_lat_impact<F, A: Fn(Op<F>) -> F>(arith: A, val: spec_fn(F) -> real, lat: F, base_lat: F, x: F)
    requires
        exact::is_exact(arith, val),
        study::is_lat_impact(arith, lat, base_lat, x),
        val(base_lat) > 0 as real,
    ensures
        is_impact(val(x), val(lat), val(base_lat)),
{
    let (q, one, d, zero, m) = choose|q: F, one: F, d: F, zero: F, m: F|
        {
            &&& #[trigger] arith::gives(arith, Op::Div(lat, base_lat), q)
            &&& #[trigger] arith::gives(arith, Op::Int(1), one)
            &&& #[trigger] arith::gives(arith, Op::Sub(q, one), d)
            &&& #[trigger] arith::gives(arith, Op::Int(0), zero)
            &&& #[trigger] arith::gives(arith, Op::Max(d, zero), m)
            &&& arith::gives(arith, Op::Min(m, one), x)
        };
    let (a, b, c) = (val(lat), val(base_lat), val(q));
    assert((a <= b ==> c <= 1 as real) && (a >= b ==> c >= 1 as real)) by (nonlinear_arith)
        requires
            b > 0 as real,
            c * b == a,
    ;
    assert((a <= b + b ==> c <= 2 as real) && (a >= b + b ==> c >= 2 as real)) by (nonlinear_arith)
        requires
            b > 0 as real,
            c * b == a,
    ;
}

/// `lat_impact_of` gives by which share of the baseline the latency of a report
/// is over it.
pub proof fn lemma_lat_impact_of<F, A: Fn(Op<F>) -> F>(arith: A, val: spec_fn(F) -> real, lat: F, base_lat: F, x: F)
    requires
        exact::is_exact(arith, val),
        study::is_clamped_lat_impact(arith, lat, base_lat, x),
        val(base_lat) > 0 as real,
    ensures
        is_impact(val(x), val(lat), val(base_lat)),
{
    let clamped = choose|clamped: F| #[trigger]
        arith::gives(arith, Op::Max(lat, base_lat), clamped) && study::is_lat_impact(arith, clamped, base_lat, x);
    lemma_lat_impact(arith, val, clamped, base_lat, x);
}

/// The IO cost of what the hogs were kept from writing is to what they used as
/// the bytes that they were kept from writing are to those that they put out
/// to swap.
pub proof fn lemma_io_loss<F, A: Fn(Op<F>) -> F>(
    arith: A,
    val: spec_fn(F) -> real,
    hog_io_usage: F,
    hog_bytes: u64,
    hog_lost_bytes: u64,
    x: F,
)
    requires
        exact::is_exact(arith, val),
        study::is_io_loss(arith, hog_io_usage, hog_bytes, hog_lost_bytes, x),
        hog_bytes > 0,
    ensures
        val(x) * (hog_bytes as real) == val(hog_io_usage) * (hog_lost_bytes as real),
{
    let (bytes, cost, lost) = choose|bytes: F, cost: F, lost: F|
        {
            &&& #[trigger] arith::gives(arith, Op::Int(hog_bytes), bytes)
            &&& #[trigger] arith::gives(arith, Op::Div(hog_io_usage, bytes), cost)
            &&& #[trigger] arith::gives(arith, Op::Int(hog_lost_bytes), lost)
            &&& arith::gives(arith, Op::Mul(lost, cost), x)
        };
    let (b, c, l, u) = (hog_bytes as real, val(cost), hog_lost_bytes as real, val(hog_io_usage));
    assert(l * c * b == u * l) by (nonlinear_arith)
        requires
            c * b == u,
    ;
}

/// A number is what was used as a share of what could have been used, which is
/// what was used together with the lesser of what was left and of what the
/// hogs lost. It is zero if nothing was used.
pub open spec fn is_conservation(x: real, used: real, left: real, lost: real) -> bool {
    &&& used <= 0 as real ==> x == 0 as real
    &&& used > 0 as real && left <= lost && used + left != 0 as real ==> x * (used + left) == used
    &&& used > 0 as real && lost <= left && used + lost != 0 as real ==> x * (used + lost) == used
}

/// Work conservation is what was used as a share of what could have been used.
pub proof fn lemma_work_csv<F, A: Fn(Op<F>) -> F, P: Fn(F) -> bool>(
    arith: A,
    positive: P,
    val: spec_fn(F) -> real,
    io_usage: F,
    io_unused: F,
    hog_io_loss: F,
    x: F,
)
    requires
        exact::is_exact(arith, val),
        exact::tells_positive(positive, val),
        study::is_work_csv(arith, positive, io_usage, io_unused, hog_io_loss, x),
    ensures
        is_conservation(val(x), val(io_usage), val(io_unused), val(hog_io_loss)),
{
}

/// Work conservation falls as what was left and what the hogs lost grow, and
/// never gets to zero. It comes as close to zero as one likes: with `n` times
/// of what was used left and lost, it is less than one `n`th.
pub proof fn lemma_work_csv_falls<F, A: Fn(Op<F>) -> F, P: Fn(F) -> bool>(
    arith: A,
    positive: P,
    val: spec_fn(F) -> real,
    io_usage: F,
    io_unused: F,
    hog_io_loss: F,
    x: F,
    more_unused: F,
    more_loss: F,
    y: F,
    n: nat,
)
    requires
        exact::is_exact(arith, val),
        exact::tells_positive(positive, val),
        study::is_work_csv(arith, positive, io_usage, io_unused, hog_io_loss, x),
        study::is_work_csv(arith, positive, io_usage, more_unused, more_loss, y),
        val(io_usage) > 0 as real,
        0 as real <= val(io_unused) <= val(more_unused),
        0 as real <= val(hog_io_loss) <= val(more_loss),
    ensures
        (0 as real) < val(y) <= val(x),
        val(more_unused) >= (n as real) * val(io_usage) && val(more_loss) >= (n as real) * val(io_usage)
            ==> val(y) * (n as real) < 1 as real,
{
    lemma_work_csv(arith, positive, val, io_usage, io_unused, hog_io_loss, x);
    lemma_work_csv(arith, positive, val, io_usage, more_unused, more_loss, y);
    let u = val(io_usage);
    let a = if val(io_unused) <= val(hog_io_loss) { val(io_unused) } else { val(hog_io_loss) };
    let b = if val(more_unused) <= val(more_loss) { val(more_unused) } else { val(more_loss) };
    let (p, q, k) = (val(x), val(y), n as real);
    assert(p * (u + a) == u && q * (u + b) == u);
    assert((0 as real) < q <= p) by (nonlinear_arith)
        requires
            u > 0 as real,
            0 as real <= a <= b,
            p * (u + a) == u,
            q * (u + b) == u,
    ;
    if b >= k * u {
        assert(q * k < 1 as real) by (nonlinear_arith)
            requires
                u > 0 as real,
                k >= 0 as real,
                b >= k * u,
                q > 0 as real,
                q * (u + b) == u,
        ;
    }
}

/// The utilization of a slice, as a number.
pub open spec fn util_of<F>(rep: Report<F>, slice: Seq<char>, val: spec_fn(F) -> real) -> real {
    val(rep.usages@[slice].io_util)
}

/// What a report adds to the costs, in hundredths: to what was used, the
/// utilization times the vrate; to what was left, what the utilization leaves
/// of the vrate, if it leaves anything; and to what the hogs used, the
/// utilization of the hog's service times the vrate.
pub proof fn lemma_report_costs<F, A: Fn(Op<F>) -> F>(
    arith: A,
    val: spec_fn(F) -> real,
    before: IoTally<F>,
    rep: Report<F>,
    root: Seq<char>,
    hog_svc: Seq<char>,
    after: IoTally<F>,
)
    requires
        exact::is_exact(arith, val),
        study::tallies(arith, before, rep, root, hog_svc, after),
    ensures
        (val(after.io_usage) - val(before.io_usage)) * (100 as real) == util_of(rep, root, val) * val(rep.vrate),
        util_of(rep, root, val) <= 1 as real ==> (val(after.io_usage) - val(before.io_usage) + val(after.io_unused) - val(
            before.io_unused,
        )) * (100 as real) == val(rep.vrate),
        util_of(rep, root, val) >= 1 as real ==> val(after.io_unused) == val(before.io_unused),
        rep.usages@.contains_key(hog_svc) ==> (val(after.hog_io_usage) - val(before.hog_io_usage)) * (100 as real)
            == util_of(rep, hog_svc, val) * val(rep.vrate),
        !rep.usages@.contains_key(hog_svc) ==> after.hog_io_usage == before.hog_io_usage,
{
    let util = rep.usages@[root].io_util;
    let (u, v) = (val(util), val(rep.vrate));
    lemma_charge(arith, val, before.io_usage, util, rep.vrate, after.io_usage);
    let rest = choose|rest: F| #[trigger]
        study::is_rest(arith, util, rest) && study::is_charged(
            arith,
            before.io_unused,
            rest,
            rep.vrate,
            after.io_unused,
        );
    lemma_charge(arith, val, before.io_unused, rest, rep.vrate, after.io_unused);
    let (one, d, zero) = choose|one: F, d: F, zero: F|
        {
            &&& #[trigger] arith::gives(arith, Op::Int(1), one)
            &&& #[trigger] arith::gives(arith, Op::Sub(one, util), d)
            &&& #[trigger] arith::gives(arith, Op::Int(0), zero)
            &&& arith::gives(arith, Op::Max(d, zero), rest)
        };
    assert(u * v + (1 as real - u) * v == v) by (nonlinear_arith);
    if u >= 1 as real {
        assert(val(rest) == 0 as real);
        assert((0 as real) * v == 0 as real);
    }
    if rep.usages@.contains_key(hog_svc) {
        lemma_charge(
            arith,
            val,
            before.hog_io_usage,
            rep.usages@[hog_svc].io_util,
            rep.vrate,
            after.hog_io_usage,
        );
    }
}

/// What is added to a cost.
proof fn lemma_charge<F, A: Fn(Op<F>) -> F>(arith: A, val: spec_fn(F) -> real, cost: F, util: F, vrate: F, x: F)
    requires
        exact::is_exact(arith, val),
        study::is_charged(arith, cost, util, vrate, x),
    ensures
        (val(x) - val(cost)) * (100 as real) == val(util) * val(vrate),
{
    let s = choose|s: F| #[trigger]
        study::is_scaled(arith, util, vrate, s) && arith::gives(arith, Op::Add(cost, s), x);
    let (p, h) = choose|p: F, h: F|
        {
            &&& #[trigger] arith::gives(arith, Op::Mul(util, vrate), p)
            &&& #[trigger] arith::gives(arith, Op::Int(100), h)
            &&& arith::gives(arith, Op::Div(p, h), s)
        };
    assert(val(h) == 100 as real);
}

/// What is left does not grow as the utilization grows, and a utilization of
/// zero leaves all of the vrate.
pub proof fn lemma_rest_falls<F, A: Fn(Op<F>) -> F>(
    arith: A,
    val: spec_fn(F) -> real,
    before: IoTally<F>,
    rep: Report<F>,
    after: IoTally<F>,
    rep2: Report<F>,
    after2: IoTally<F>,
    root: Seq<char>,
    hog_svc: Seq<char>,
)
    requires
        exact::is_exact(arith, val),
        study::tallies(arith, before, rep, root, hog_svc, after),
        study::tallies(arith, before, rep2, root, hog_svc, after2),
        val(rep.vrate) == val(rep2.vrate),
        val(rep.vrate) >= 0 as real,
        util_of(rep, root, val) <= util_of(rep2, root, val),
    ensures
        val(after2.io_unused) <= val(after.io_unused),
        val(after.io_usage) <= val(after2.io_usage),
        util_of(rep, root, val) == 0 as real ==> (val(after.io_unused) - val(before.io_unused)) * (100 as real) == val(
            rep.vrate,
        ),
{
    lemma_report_costs(arith, val, before, rep, root, hog_svc, after);
    lemma_report_costs(arith, val, before, rep2, root, hog_svc, after2);
    let (u, u2, v) = (util_of(rep, root, val), util_of(rep2, root, val), val(rep.vrate));
    assert(u * v <= u2 * v) by (nonlinear_arith)
        requires
            u <= u2,
            v >= 0 as real,
    ;
    if u <= 1 as real {
        assert(u * v <= v) by (nonlinear_arith)
            requires
                u <= 1 as real,
                v >= 0 as real,
        ;
    }
    if u == 0 as real {
        assert(u * v == 0 as real) by (nonlinear_arith)
            requires
                u == 0 as real,
        ;
    }
}

/// What a utilization leaves, as a number.
pub open spec fn left_by(util: real) -> real {
    if util <= 1 as real {
        1 as real - util
    } else {
        0 as real
    }
}

/// What reports add up to, in hundredths. Of a device that is never used beyond
/// its capacity, what was used and what was left are all of the vrates.
pub proof fn lemma_tally<F, A: Fn(Op<F>) -> F>(
    arith: A,
    val: spec_fn(F) -> real,
    reps: Seq<Report<F>>,
    root: Seq<char>,
    hog_svc: Seq<char>,
    io: IoTally<F>,
)
    requires
        exact::is_exact(arith, val),
        readings::is_tally(arith, reps, root, hog_svc, io),
    ensures
        val(io.io_usage) * (100 as real) == exact::total(reps, |rep: Report<F>| util_of(rep, root, val) * val(rep.vrate)),
        val(io.io_unused) * (100 as real) == exact::total(
            reps,
            |rep: Report<F>| left_by(util_of(rep, root, val)) * val(rep.vrate),
        ),
        val(io.hog_io_usage) * (100 as real) == exact::total(
            reps,
            |rep: Report<F>|
                if rep.usages@.contains_key(hog_svc) {
                    util_of(rep, hog_svc, val) * val(rep.vrate)
                } else {
                    0 as real
                },
        ),
        (forall|i: int| 0 <= i < reps.len() ==> util_of(#[trigger] reps[i], root, val) <= 1 as real) ==> (val(io.io_usage)
            + val(io.io_unused)) * (100 as real) == exact::total(reps, |rep: Report<F>| val(rep.vrate)),
    decreases reps.len(),
{
    let used = |rep: Report<F>| util_of(rep, root, val) * val(rep.vrate);
    let left = |rep: Report<F>| left_by(util_of(rep, root, val)) * val(rep.vrate);
    let vrate = |rep: Report<F>| val(rep.vrate);
    let tallies = choose|tallies: Seq<IoTally<F>>| #[trigger]
        readings::running_tallies(arith, reps, root, hog_svc, tallies) && io == tallies.last();
    if reps.len() > 0 {
        let n = reps.len() - 1;
        let prior = reps.drop_last();
        let rep = reps.last();
        let before = tallies[n];
        assert(reps[n] == rep);
        assert(study::tallies(arith, tallies[n], reps[n], root, hog_svc, tallies[n + 1]));
        assert(readings::running_tallies(arith, prior, root, hog_svc, tallies.drop_last())) by {
            assert forall|i: int| 0 <= i < prior.len() implies study::tallies(
                arith,
                tallies.drop_last()[i],
                #[trigger] prior[i],
                root,
                hog_svc,
                tallies.drop_last()[i + 1],
            ) by {
                assert(prior[i] == reps[i]);
                assert(study::tallies(arith, tallies[i], reps[i], root, hog_svc, tallies[i + 1]));
            }
        }
        lemma_tally(arith, val, prior, root, hog_svc, before);
        lemma_report_costs(arith, val, before, rep, root, hog_svc, io);
        let (u, v) = (util_of(rep, root, val), val(rep.vrate));
        assert(u * v + (1 as real - u) * v == v) by (nonlinear_arith);
        assert((0 as real) * v == 0 as real);
    }
    if forall|i: int| 0 <= i < reps.len() ==> util_of(#[trigger] reps[i], root, val) <= 1 as real {
        assert forall|i: int| 0 <= i < reps.len() implies used(#[trigger] reps[i]) + left(reps[i]) == vrate(reps[i]) by {
            let (u, v) = (util_of(reps[i], root, val), val(reps[i].vrate));
            assert(u <= 1 as real);
            assert(u * v + (1 as real - u) * v == v) by (nonlinear_arith);
        }
        exact::lemma_total_of_sums(reps, used, left, vrate);
    }
}

/// `swap_usage` is the share of the swap that is used: times all of the swap, it
/// is the used part. Without swap it is zero.
pub proof fn lemma_swap_usage<F, A: Fn(Op<F>) -> F>(arith: A, val: spec_fn(F) -> real, usage: Usage<F>, x: F)
    requires
        exact::is_exact(arith, val),
        usage.is_swap_usage(arith, x),
        usage.swap_bytes + usage.swap_free <= u64::MAX,
    ensures
        val(x) * (usage.swap_bytes as real + usage.swap_free as real) == usage.swap_bytes as real,
        0 as real <= val(x) <= 1 as real,
        usage.swap_bytes == 0 ==> val(x) == 0 as real,
        usage.swap_free == 0 && usage.swap_bytes > 0 ==> val(x) == 1 as real,
{
    let (a, b, c) = (usage.swap_bytes as real, usage.swap_free as real, val(x));
    if usage.swap_bytes + usage.swap_free == 0 {
        assert((0 as real) * (a + b) == 0 as real);
    } else {
        let sum = (usage.swap_bytes + usage.swap_free) as u64;
        assert(sum as real == a + b);
        assert(0 as real <= c <= 1 as real) by (nonlinear_arith)
            requires
                a >= 0 as real,
                b >= 0 as real,
                a + b > 0 as real,
                c * (a + b) == a,
        ;
        if usage.swap_bytes == 0 {
            assert(c == 0 as real) by (nonlinear_arith)
                requires
                    b > 0 as real,
                    c * (0 as real + b) == 0 as real,
            ;
        }
        if usage.swap_free == 0 {
            assert(c == 1 as real) by (nonlinear_arith)
                requires
                    a > 0 as real,
                    c * (a + 0 as real) == a,
            ;
        }
    }
}

/// A period runs from one time to another, both modulo the range of 64 bits.
pub open spec fn spans(period: (u64, u64), from: int, to: int) -> bool {
    &&& (period.0 - from) % 0x1_0000_0000_0000_0000 == 0
    &&& (period.1 - to) % 0x1_0000_0000_0000_0000 == 0
}

/// How many bytes a hog put out to swap: what it wrote beyond its memory size.
pub open spec fn beyond_memory(run: MemHogRun) -> real {
    if run.last_hog_rep.wbytes > run.last_hog_mem {
        run.last_hog_rep.wbytes as real - run.last_hog_mem as real
    } else {
        0 as real
    }
}

/// The totals of runs are the sums of what their last reports tell.
pub proof fn lemma_run_totals(runs: Seq<MemHogRun>)
    ensures
        study::hog_bytes_of(runs) as real == exact::total(runs, |run: MemHogRun| beyond_memory(run)),
        study::hog_lost_bytes_of(runs) as real == exact::total(runs, |run: MemHogRun| run.last_hog_rep.wloss as real),
    decreases runs.len(),
{
    if runs.len() > 0 {
        lemma_run_totals(runs.drop_last());
    }
}

/// There is one period of each kind for each run, in the order of the runs: a
/// hold period from when the workload was stable to when the hog was started,
/// and a hog's period from the time of its first report to that of its last.
pub proof fn lemma_run_periods(runs: Seq<MemHogRun>)
    ensures
        study::base_periods_of(runs) == Seq::new(runs.len(), |i: int| (runs[i].stable_at, runs[i].hog_started_at)),
        study::hog_periods_of(runs).len() == runs.len(),
        forall|i: int|
            0 <= i < runs.len() ==> spans(
                #[trigger] study::hog_periods_of(runs)[i],
                runs[i].first_hog_rep.timestamp as int,
                runs[i].last_hog_rep.timestamp as int,
            ),
{
    assert(study::base_periods_of(runs) =~= Seq::new(
        runs.len(),
        |i: int| (runs[i].stable_at, runs[i].hog_started_at),
    ));
}

/// Reports that are pooled are all of the reports that the periods have, period
/// by period.
pub proof fn lemma_pooled<F, G: Fn((u64, u64)) -> Vec<Report<F>>>(
    reports: G,
    periods: Seq<(u64, u64)>,
    reps: Seq<Report<F>>,
)
    requires
        readings::pooled(reports, periods, reps),
    ensures
        exists|got: Seq<Vec<Report<F>>>|
            {
                &&& #[trigger] got.len() == periods.len()
                &&& forall|i: int| 0 <= i < got.len() ==> call_ensures(reports, (periods[i],), #[trigger] got[i])
                &&& reps == lists::joined(got.map_values(|v: Vec<Report<F>>| v@))
            },
{
    let lists = choose|got: Seq<Seq<Report<F>>>| #[trigger]
        readings::all_reported(reports, periods, got) && reps == lists::joined(got);
    let got = Seq::new(
        lists.len(),
        |i: int| choose|v: Vec<Report<F>>| v@ == lists[i] && #[trigger] call_ensures(reports, (periods[i],), v),
    );
    assert forall|i: int| 0 <= i < got.len() implies call_ensures(reports, (periods[i],), #[trigger] got[i]) && got[i]@
        == lists[i] by {
        assert(readings::reported(reports, periods[i], lists[i]));
    }
    assert(got.map_values(|v: Vec<Report<F>>| v@) =~= lists);
    assert(got.len() == periods.len());
}

/// Values were summed up to a mean and a deviation.
pub open spec fn summed_up<F, S: Fn(Vec<F>) -> (F, F)>(summary: S, xs: Seq<F>, mean: F, stdev: F) -> bool {
    exists|v: Vec<F>| v@ == xs && #[trigger] call_ensures(summary, (v,), (mean, stdev))
}

/// Of values, the percentiles that are shown were taken.
pub open spec fn percentiles_taken<F, Q: Fn(Vec<F>, Vec<&'static str>) -> StrMap<F>>(
    percentiles: Q,
    xs: Seq<F>,
    table: StrMap<F>,
) -> bool {
    exists|v: Vec<F>, names: Vec<&'static str>|
        {
            &&& v@ == xs
            &&& names@.len() == layout::pcts_spec().len()
            &&& forall|i: int| 0 <= i < names@.len() ==> (#[trigger] names@[i])@ == layout::pcts_spec()[i]
            &&& #[trigger] call_ensures(percentiles, (v, names), table)
        }
}

/// A table of percentiles is what was taken of the values, by the names that are
/// shown.
pub proof fn lemma_percentiles<F, Q: Fn(Vec<F>, Vec<&'static str>) -> StrMap<F>>(
    percentiles: Q,
    xs: Seq<F>,
    table: StrMap<F>,
)
    requires
        readings::are_percentiles(percentiles, xs, table),
    ensures
        percentiles_taken(percentiles, xs, table),
{
    let (v, names) = choose|v: Vec<F>, names: Vec<&'static str>|
        {
            &&& v@ == xs
            &&& names@.map_values(|s: &'static str| s@) == layout::pcts_spec()
            &&& #[trigger] call_ensures(percentiles, (v, names), table)
        };
    assert forall|i: int| 0 <= i < names@.len() implies (#[trigger] names@[i])@ == layout::pcts_spec()[i] by {
        assert(names@.map_values(|s: &'static str| s@)[i] == names@[i]@);
    }
    assert(call_ensures(percentiles, (v, names), table));
}

/// The baseline of a study is what the throughputs and the latencies of all
/// reports of the hold periods are summed up to.
pub proof fn lemma_study_baseline<
    's,
    F,
    G: Fn((u64, u64)) -> Vec<Report<F>>,
    S: Fn(Vec<F>) -> (F, F),
    Q: Fn(Vec<F>, Vec<&'static str>) -> StrMap<F>,
    L: Fn(Vec<(u64, u64)>) -> [StrMap<StrMap<F>>; 2],
    A: Fn(Op<F>) -> F,
    P: Fn(F) -> bool,
>(r: MemHogResult<F>, runs: Seq<MemHogRun>, main_period: (u64, u64), src: Source<'s, G, S, Q, L, A, P>)
    requires
        study::is_study(r, runs, main_period, src),
    ensures
        exists|periods: Seq<(u64, u64)>, reps: Seq<Report<F>>|
            {
                &&& #[trigger] readings::pooled(*src.reports, periods, reps)
                &&& periods.len() == runs.len()
                &&& forall|i: int|
                    0 <= i < runs.len() ==> #[trigger] periods[i] == (runs[i].stable_at, runs[i].hog_started_at)
                &&& summed_up(
                    *src.summary,
                    Seq::new(reps.len(), |i: int| reps[i].hashd_rps),
                    r.base_rps,
                    r.base_rps_stdev,
                )
                &&& summed_up(
                    *src.summary,
                    Seq::new(reps.len(), |i: int| reps[i].hashd_lat),
                    r.base_lat,
                    r.base_lat_stdev,
                )
            },
{
    lemma_run_periods(runs);
    let (base, stats) = choose|base: BaseStats<F>, stats: HogStats<F>|
        {
            &&& #[trigger] study::is_base_stats(runs, *src.reports, *src.summary, base)
            &&& #[trigger] study::is_hog_stats(runs, base, src, stats)
            &&& study::studies(r, runs, main_period, base, stats, *src.arith, *src.positive)
        };
    let reps = choose|reps: Seq<Report<F>>|
        {
            &&& #[trigger] readings::pooled(*src.reports, study::base_periods_of(runs), reps)
            &&& readings::is_summary(
                *src.summary,
                readings::values_of(reps, Measure::Rps),
                base.base_rps,
                base.base_rps_stdev,
            )
            &&& readings::is_summary(
                *src.summary,
                readings::values_of(reps, Measure::Lat),
                base.base_lat,
                base.base_lat_stdev,
            )
        };
    assert(readings::values_of(reps, Measure::Rps) =~= Seq::new(reps.len(), |i: int| reps[i].hashd_rps));
    assert(readings::values_of(reps, Measure::Lat) =~= Seq::new(reps.len(), |i: int| reps[i].hashd_lat));
}

/// The rest of a study is what all reports of the hogs' periods tell. Each
/// report gives a work isolation and a latency impact, and these are summed up
/// to means, deviations and percentiles. The vrates are summed up too, and the
/// costs are added up.
pub open spec fn tells<
    's,
    F,
    G: Fn((u64, u64)) -> Vec<Report<F>>,
    S: Fn(Vec<F>) -> (F, F),
    Q: Fn(Vec<F>, Vec<&'static str>) -> StrMap<F>,
    L: Fn(Vec<(u64, u64)>) -> [StrMap<StrMap<F>>; 2],
    A: Fn(Op<F>) -> F,
    P: Fn(F) -> bool,
>(
    r: MemHogResult<F>,
    src: Source<'s, G, S, Q, L, A, P>,
    val: spec_fn(F) -> real,
    reps: Seq<Report<F>>,
    isols: Seq<F>,
    impacts: Seq<F>,
) -> bool {
    let root = src.root@;
    let hog = src.hog_svc@;
    &&& isols.len() == reps.len()
    &&& impacts.len() == reps.len()
    &&& forall|i: int|
        0 <= i < reps.len() ==> is_isolation(
            val(#[trigger] isols[i]),
            val(reps[i].hashd_rps),
            val(r.base_rps),
        )
    &&& forall|i: int|
        0 <= i < reps.len() ==> is_impact(val(#[trigger] impacts[i]), val(reps[i].hashd_lat), val(r.base_lat))
    &&& summed_up(*src.summary, isols, r.work_isol, r.work_isol_stdev)
    &&& percentiles_taken(*src.percentiles, isols, r.work_isol_pcts)
    &&& summed_up(*src.summary, impacts, r.lat_impact, r.lat_impact_stdev)
    &&& percentiles_taken(*src.percentiles, impacts, r.lat_impact_pcts)
    &&& summed_up(*src.summary, Seq::new(reps.len(), |i: int| reps[i].vrate), r.vrate, r.vrate_stdev)
    &&& val(r.io_usage) * (100 as real) == exact::total(
        reps,
        |rep: Report<F>| util_of(rep, root, val) * val(rep.vrate),
    )
    &&& val(r.io_unused) * (100 as real) == exact::total(
        reps,
        |rep: Report<F>| left_by(util_of(rep, root, val)) * val(rep.vrate),
    )
    &&& val(r.hog_io_usage) * (100 as real) == exact::total(
        reps,
        |rep: Report<F>|
            if rep.usages@.contains_key(hog) {
                util_of(rep, hog, val) * val(rep.vrate)
            } else {
                0 as real
            },
    )
}

/// What a study has of its runs: the periods and the bytes, the IO cost of the
/// bytes that were lost, and the work conservation that follows.
pub open spec fn accounts<F>(
    r: MemHogResult<F>,
    runs: Seq<MemHogRun>,
    main_period: (u64, u64),
    val: spec_fn(F) -> real,
) -> bool {
    &&& r.main_period == main_period
    &&& r.hog_periods@.len() == runs.len()
    &&& forall|i: int|
        0 <= i < runs.len() ==> spans(
            #[trigger] r.hog_periods@[i],
            runs[i].first_hog_rep.timestamp as int,
            runs[i].last_hog_rep.timestamp as int,
        )
    &&& r.hog_bytes as real == exact::total(runs, |run: MemHogRun| beyond_memory(run))
    &&& r.hog_lost_bytes as real == exact::total(runs, |run: MemHogRun| run.last_hog_rep.wloss as real)
    &&& r.hog_bytes > 0 ==> val(r.hog_io_loss) * (r.hog_bytes as real) == val(r.hog_io_usage) * (
    r.hog_lost_bytes as real)
    &&& is_conservation(val(r.work_csv), val(r.io_usage), val(r.io_unused), val(r.hog_io_loss))
}

/// `study` tells what the reports of the hogs' periods do, and accounts for the
/// runs.
pub proof fn lemma_study<
    's,
    F,
    G: Fn((u64, u64)) -> Vec<Report<F>>,
    S: Fn(Vec<F>) -> (F, F),
    Q: Fn(Vec<F>, Vec<&'static str>) -> StrMap<F>,
    L: Fn(Vec<(u64, u64)>) -> [StrMap<StrMap<F>>; 2],
    A: Fn(Op<F>) -> F,
    P: Fn(F) -> bool,
>(
    r: MemHogResult<F>,
    runs: Seq<MemHogRun>,
    main_period: (u64, u64),
    src: Source<'s, G, S, Q, L, A, P>,
    val: spec_fn(F) -> real,
)
    requires
        study::is_study(r, runs, main_period, src),
        exact::is_exact(*src.arith, val),
        exact::tells_positive(*src.positive, val),
        val(r.base_rps) > 0 as real,
        val(r.base_lat) > 0 as real,
    ensures
        exists|reps: Seq<Report<F>>, isols: Seq<F>, impacts: Seq<F>| #[trigger]
            readings::pooled(*src.reports, r.hog_periods@, reps) && #[trigger] tells(
                r,
                src,
                val,
                reps,
                isols,
                impacts,
            ),
        exists|v: Vec<(u64, u64)>| v@ == r.hog_periods@ && #[trigger] call_ensures(*src.io_lat, (v,), r.iolat_pcts),
        accounts(r, runs, main_period, val),
{
    let (base, stats) = choose|base: BaseStats<F>, stats: HogStats<F>|
        {
            &&& #[trigger] study::is_base_stats(runs, *src.reports, *src.summary, base)
            &&& #[trigger] study::is_hog_stats(runs, base, src, stats)
            &&& study::studies(r, runs, main_period, base, stats, *src.arith, *src.positive)
        };
    let arith = *src.arith;
    lemma_study_stats_accounts(r, runs, main_period, base, stats, arith, *src.positive, val);
    let (reps, isols, impacts) = choose|reps: Seq<Report<F>>, isols: Seq<F>, impacts: Seq<F>|
        {
            &&& #[trigger] readings::pooled(*src.reports, study::hog_periods_of(runs), reps)
            &&& #[trigger] readings::are_work_isols(arith, reps, base.base_rps, isols)
            &&& readings::is_summary(*src.summary, isols, stats.work_isol, stats.work_isol_stdev)
            &&& readings::are_percentiles(*src.percentiles, isols, stats.work_isol_pcts)
            &&& #[trigger] readings::are_lat_impacts(arith, reps, base.base_lat, impacts)
            &&& readings::is_summary(*src.summary, impacts, stats.lat_impact, stats.lat_impact_stdev)
            &&& readings::are_percentiles(*src.percentiles, impacts, stats.lat_impact_pcts)
            &&& readings::is_tally(arith, reps, src.root@, src.hog_svc@, stats.io)
            &&& readings::is_summary(
                *src.summary,
                readings::values_of(reps, Measure::Vrate),
                stats.vrate,
                stats.vrate_stdev,
            )
            &&& readings::are_io_lats(*src.io_lat, study::hog_periods_of(runs), stats.iolat_pcts)
        };
    assert forall|i: int| 0 <= i < reps.len() implies is_isolation(
        val(#[trigger] isols[i]),
        val(reps[i].hashd_rps),
        val(r.base_rps),
    ) by {
        assert(study::is_work_isol(arith, reps[i].hashd_rps, base.base_rps, isols[i]));
        lemma_work_isol(arith, val, reps[i].hashd_rps, base.base_rps, isols[i]);
    }
    assert forall|i: int| 0 <= i < reps.len() implies is_impact(
        val(#[trigger] impacts[i]),
        val(reps[i].hashd_lat),
        val(r.base_lat),
    ) by {
        assert(study::is_clamped_lat_impact(arith, reps[i].hashd_lat, base.base_lat, impacts[i]));
        lemma_lat_impact_of(arith, val, reps[i].hashd_lat, base.base_lat, impacts[i]);
    }
    lemma_tally(arith, val, reps, src.root@, src.hog_svc@, stats.io);
    assert(readings::values_of(reps, Measure::Vrate) =~= Seq::new(reps.len(), |i: int| reps[i].vrate));
    lemma_percentiles(*src.percentiles, isols, stats.work_isol_pcts);
    lemma_percentiles(*src.percentiles, impacts, stats.lat_impact_pcts);
    assert(tells(r, src, val, reps, isols, impacts));
}

/// `study_stats` accounts for the runs.
pub proof fn lemma_study_stats_accounts<F, A: Fn(Op<F>) -> F, P: Fn(F) -> bool>(
    r: MemHogResult<F>,
    runs: Seq<MemHogRun>,
    main_period: (u64, u64),
    base: BaseStats<F>,
    stats: HogStats<F>,
    arith: A,
    positive: P,
    val: spec_fn(F) -> real,
)
    requires
        study::studies(r, runs, main_period, base, stats, arith, positive),
        exact::is_exact(arith, val),
        exact::tells_positive(positive, val),
    ensures
        accounts(r, runs, main_period, val),
        r.base_rps == base.base_rps && r.base_rps_stdev == base.base_rps_stdev,
        r.base_lat == base.base_lat && r.base_lat_stdev == base.base_lat_stdev,
        r.work_isol == stats.work_isol && r.work_isol_stdev == stats.work_isol_stdev,
        r.lat_impact == stats.lat_impact && r.lat_impact_stdev == stats.lat_impact_stdev,
        r.work_isol_pcts == stats.work_isol_pcts && r.lat_impact_pcts == stats.lat_impact_pcts,
        r.iolat_pcts == stats.iolat_pcts,
        r.vrate == stats.vrate && r.vrate_stdev == stats.vrate_stdev,
        r.io_usage == stats.io.io_usage && r.io_unused == stats.io.io_unused,
        r.hog_io_usage == stats.io.hog_io_usage,
{
    lemma_run_totals(runs);
    lemma_run_periods(runs);
    lemma_work_csv(arith, positive, val, r.io_usage, r.io_unused, r.hog_io_loss, r.work_csv);
    if r.hog_bytes > 0 {
        lemma_io_loss(arith, val, r.hog_io_usage, r.hog_bytes, r.hog_lost_bytes, r.hog_io_loss);
    }
}

/// Hogs that put out nothing to swap have no cost per byte. The IO cost of what
/// they were kept from writing is then beyond all numbers, and all that was left
/// counts against the work conservation.
pub proof fn lemma_nothing_put_out<F, A: Fn(Op<F>) -> F, P: Fn(F) -> bool>(
    r: MemHogResult<F>,
    runs: Seq<MemHogRun>,
    main_period: (u64, u64),
    base: BaseStats<F>,
    stats: HogStats<F>,
    arith: A,
    positive: P,
    counts: spec_fn(F) -> bool,
    beyond: spec_fn(F) -> bool,
)
    requires
        study::studies(r, runs, main_period, base, stats, arith, positive),
        exact::divides_out(arith, counts, beyond),
        exact::stays_beyond(arith, beyond),
        counts(r.hog_io_usage),
        r.hog_bytes == 0,
    ensures
        beyond(r.hog_io_loss),
        !call_ensures(positive, (r.io_usage,), false) ==> exists|possible: F| #[trigger]
            arith::gives(arith, Op::Add(r.io_usage, r.io_unused), possible) && arith::gives(
                arith,
                Op::Div(r.io_usage, possible),
                r.work_csv,
            ),
{
    let (bytes, cost, lost) = choose|bytes: F, cost: F, lost: F|
        {
            &&& #[trigger] arith::gives(arith, Op::Int(r.hog_bytes), bytes)
            &&& #[trigger] arith::gives(arith, Op::Div(r.hog_io_usage, bytes), cost)
            &&& #[trigger] arith::gives(arith, Op::Int(r.hog_lost_bytes), lost)
            &&& arith::gives(arith, Op::Mul(lost, cost), r.hog_io_loss)
        };
    assert(beyond(cost));
    assert(beyond(r.hog_io_loss));
}

} // verus!
