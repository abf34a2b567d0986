//! What holds of combined results.

use vstd::multiset::Multiset;
use vstd::prelude::*;

use crate::arith::{self, Op};
use crate::combine::{self, Amount, CombinedPcts, Mean, Spread};
use crate::mem_hog::MemHogResult;
use crate::readings::Source;
use crate::report::Report;
use crate::strmap::StrMap;

verus! {

/// What an operation comes to.
pub open spec fn outcome<F, A: Fn(Op<F>) -> F>(arith: A, op: Op<F>) -> F {
    choose|x: F| arith::gives(arith, op, x)
}

/// A sum of three quantities does not depend on which of the last two is added
/// first.
pub open spec fn adds_in_any_order<F, A: Fn(Op<F>) -> F>(arith: A) -> bool {
    forall|a: F, b: F, c: F|
        #![trigger outcome(arith, Op::Add(outcome(arith, Op::Add(a, b)), c))]
        outcome(arith, Op::Add(outcome(arith, Op::Add(a, b)), c)) == outcome(
            arith,
            Op::Add(outcome(arith, Op::Add(a, c)), b),
        )
}

/// Adding to zero changes nothing.
pub open spec fn zero_is_neutral<F, A: Fn(Op<F>) -> F>(arith: A) -> bool {
    forall|zero: F, x: F, s: F| #[trigger]
        arith::gives(arith, Op::Int(0), zero) && #[trigger] arith::gives(arith, Op::Add(zero, x), s) ==> s == x
}

/// Dividing by a whole number undoes multiplying by it.
pub open spec fn div_undoes_mul<F, A: Fn(Op<F>) -> F>(arith: A) -> bool {
    forall|n: u64, v: F, w: F, p: F, q: F|
        {
            &&& n > 0
            &&& #[trigger] arith::gives(arith, Op::Int(n), w)
            &&& #[trigger] arith::gives(arith, Op::Mul(v, w), p)
            &&& #[trigger] arith::gives(arith, Op::Div(p, w), q)
        } ==> q == v
}

/// The root of the square of a quantity is the quantity.
pub open spec fn root_undoes_square<F, A: Fn(Op<F>) -> F>(arith: A, v: F) -> bool {
    forall|s: F, x: F| #[trigger]
        arith::gives(arith, Op::Square(v), s) && #[trigger] arith::gives(arith, Op::Sqrt(s), x) ==> x == v
}

/// The sum of one quantity is the quantity.
proof fn lemma_sum_of_one<F, A: Fn(Op<F>) -> F>(arith: A, xs: Seq<F>, s: F)
    requires
        zero_is_neutral(arith),
        arith::is_sum(arith, xs, s),
        xs.len() == 1,
    ensures
        s == xs[0],
{
    let sums = choose|sums: Seq<F>| #[trigger] arith::running_sums(arith, xs, sums) && s == sums.last();
    assert(arith::gives(arith, Op::Add(sums[0], xs[0]), sums[1]));
}

/// A combined result has the periods, the sums and the amounts of a single one,
/// but for the start of the main period, which is the epoch.
pub open spec fn gives_back_sums<F>(cmb: MemHogResult<F>, r: MemHogResult<F>) -> bool {
    &&& cmb.hog_periods@ == r.hog_periods@
    &&& cmb.hog_bytes == r.hog_bytes
    &&& cmb.hog_lost_bytes == r.hog_lost_bytes
    &&& cmb.main_period == (0u64, r.main_period.1)
    &&& cmb.io_usage == r.io_usage
    &&& cmb.io_unused == r.io_unused
    &&& cmb.hog_io_usage == r.hog_io_usage
    &&& cmb.hog_io_loss == r.hog_io_loss
}

/// A combined result has what a single one has, but for the percentiles, and
/// but for the start of the main period, which is the epoch.
pub open spec fn gives_back<F>(cmb: MemHogResult<F>, r: MemHogResult<F>) -> bool {
    &&& gives_back_sums(cmb, r)
    &&& cmb.base_rps == r.base_rps
    &&& cmb.base_lat == r.base_lat
    &&& cmb.work_isol == r.work_isol
    &&& cmb.lat_impact == r.lat_impact
    &&& cmb.work_csv == r.work_csv
    &&& cmb.vrate == r.vrate
    &&& cmb.base_rps_stdev == r.base_rps_stdev
    &&& cmb.base_lat_stdev == r.base_lat_stdev
    &&& cmb.work_isol_stdev == r.work_isol_stdev
    &&& cmb.lat_impact_stdev == r.lat_impact_stdev
    &&& cmb.vrate_stdev == r.vrate_stdev
}

/// Operations undo each other on what a result has, and its deviations are the
/// roots of their squares.
pub open spec fn undoes<F, A: Fn(Op<F>) -> F>(arith: A, r: MemHogResult<F>) -> bool {
    &&& arith::consistent(arith)
    &&& zero_is_neutral(arith)
    &&& div_undoes_mul(arith)
    &&& forall|q: Spread| root_undoes_square(arith, #[trigger] r.spread_spec(q))
}

/// `combine_results` of a single result gives back its periods, its sums and
/// its amounts exactly, however many runs it has, if adding to zero changes
/// nothing.
pub proof fn lemma_combine_results_of_one_exact<
    's,
    F,
    G: Fn((u64, u64)) -> Vec<Report<F>>,
    S: Fn(Vec<F>) -> (F, F),
    Q: Fn(Vec<F>, Vec<&'static str>) -> StrMap<F>,
    L: Fn(Vec<(u64, u64)>) -> [StrMap<StrMap<F>>; 2],
    A: Fn(Op<F>) -> F,
    P: Fn(F) -> bool,
>(cmb: MemHogResult<F>, r: &MemHogResult<F>, src: Source<'s, G, S, Q, L, A, P>)
    requires
        combine::is_combination(cmb, seq![r], src),
        zero_is_neutral(*src.arith),
    ensures
        gives_back_sums(cmb, *r),
{
    let pcts = choose|pcts: CombinedPcts<F>| #[trigger]
        combine::are_combined_pcts(seq![r], src, pcts) && combine::combines(cmb, seq![r], pcts, *src.arith);
    lemma_combine_of_one_exact(cmb, r, pcts, *src.arith);
}

/// The same of `combine_stats`, which is given the percentiles.
pub proof fn lemma_combine_of_one_exact<F, A: Fn(Op<F>) -> F>(
    cmb: MemHogResult<F>,
    r: &MemHogResult<F>,
    pcts: CombinedPcts<F>,
    arith: A,
)
    requires
        combine::combines(cmb, seq![r], pcts, arith),
        zero_is_neutral(arith),
    ensures
        gives_back_sums(cmb, *r),
{
    let results = seq![r];
    let none = results.drop_last();
    assert(none.len() == 0);
    assert(results.last() == r);
    assert(combine::sum_hog_bytes(none) == 0 && combine::sum_hog_lost_bytes(none) == 0);
    assert(combine::main_period_of(none) == (0u64, 0u64));
    assert(combine::all_hog_periods(none) =~= Seq::<(u64, u64)>::empty());
    assert(combine::all_hog_periods(results) =~= r.hog_periods@);
    assert forall|q: Amount| #[trigger] cmb.amount_spec(q) == r.amount_spec(q) by {
        lemma_sum_of_one(arith, combine::amount_terms_of(results, q), cmb.amount_spec(q));
    }
    assert(cmb.amount_spec(Amount::IoUsage) == r.amount_spec(Amount::IoUsage));
    assert(cmb.amount_spec(Amount::IoUnused) == r.amount_spec(Amount::IoUnused));
    assert(cmb.amount_spec(Amount::HogIoUsage) == r.amount_spec(Amount::HogIoUsage));
    assert(cmb.amount_spec(Amount::HogIoLoss) == r.amount_spec(Amount::HogIoLoss));
}

/// `combine_results` of a single result gives back what it has: its periods,
/// sums and amounts, its means and its deviations. This is for operations that
/// undo each other.
pub proof fn lemma_combine_results_of_one<
    's,
    F,
    G: Fn((u64, u64)) -> Vec<Report<F>>,
    S: Fn(Vec<F>) -> (F, F),
    Q: Fn(Vec<F>, Vec<&'static str>) -> StrMap<F>,
    L: Fn(Vec<(u64, u64)>) -> [StrMap<StrMap<F>>; 2],
    A: Fn(Op<F>) -> F,
    P: Fn(F) -> bool,
>(cmb: MemHogResult<F>, r: &MemHogResult<F>, src: Source<'s, G, S, Q, L, A, P>)
    requires
        combine::is_combination(cmb, seq![r], src),
        2 <= r.runs@.len() <= usize::MAX,
        undoes(*src.arith, *r),
    ensures
        gives_back(cmb, *r),
{
    let pcts = choose|pcts: CombinedPcts<F>| #[trigger]
        combine::are_combined_pcts(seq![r], src, pcts) && combine::combines(cmb, seq![r], pcts, *src.arith);
    lemma_combine_of_one(cmb, r, pcts, *src.arith);
}

/// The same of `combine_stats`, which is given the percentiles.
pub proof fn lemma_combine_of_one<F, A: Fn(Op<F>) -> F>(
    cmb: MemHogResult<F>,
    r: &MemHogResult<F>,
    pcts: CombinedPcts<F>,
    arith: A,
)
    requires
        combine::combines(cmb, seq![r], pcts, arith),
        2 <= r.runs@.len() <= usize::MAX,
        undoes(arith, *r),
    ensures
        gives_back(cmb, *r),
{
    let results = seq![r];
    let none = results.drop_last();
    assert(none.len() == 0);
    assert(results.last() == r);
    assert(combine::total_runs_of(none) == 0 && combine::freedom_of(none) == 0);
    lemma_combine_of_one_exact(cmb, r, pcts, arith);
    let n = r.runs@.len();
    assert(combine::total_runs_of(results) == n && combine::freedom_of(results) == n - 1);
    assert forall|q: Mean| #[trigger] cmb.mean_spec(q) == r.mean_spec(q) by {
        let terms = combine::mean_terms_of(results, q);
        let x = cmb.mean_spec(q);
        assert(arith::is_weighted_mean(arith, terms, n as usize, x));
        let (xs, s, w) = choose|xs: Seq<F>, s: F, w: F|
            {
                &&& #[trigger] arith::are_weighted(arith, terms, xs)
                &&& #[trigger] arith::is_sum(arith, xs, s)
                &&& #[trigger] arith::gives(arith, Op::Int(n as u64), w)
                &&& arith::gives(arith, Op::Div(s, w), x)
            };
        lemma_sum_of_one(arith, xs, s);
        assert(terms[0] == (r.mean_spec(q), n as usize));
        assert(arith::is_weighted(arith, terms[0].0, terms[0].1, xs[0]));
    }
    assert forall|q: Spread| #[trigger] cmb.spread_spec(q) == r.spread_spec(q) by {
        let terms = combine::spread_terms_of(results, q);
        let x = cmb.spread_spec(q);
        let m = (n - 1) as usize;
        assert(combine::spread_terms_of(none, q) =~= Seq::<(F, usize)>::empty());
        assert(terms =~= seq![(r.spread_spec(q), m)]);
        assert(arith::is_pooled(arith, terms, m, x));
        let (xs, s) = choose|xs: Seq<F>, s: F|
            {
                &&& #[trigger] arith::are_squares(arith, terms, xs)
                &&& #[trigger] arith::is_sum(arith, xs, s)
                &&& arith::is_root_mean(arith, s, m, x)
            };
        lemma_sum_of_one(arith, xs, s);
        assert(arith::is_square(arith, terms[0], xs[0]));
        let square = choose|v: F| #[trigger]
            arith::gives(arith, Op::Square(terms[0].0), v) && arith::is_weighted(arith, v, terms[0].1, xs[0]);
        let w = choose|w: F| #[trigger]
            arith::gives(arith, Op::Int(m as u64), w) && arith::gives(arith, Op::Mul(square, w), xs[0]);
        let (d, v) = choose|d: F, v: F|
            {
                &&& #[trigger] arith::gives(arith, Op::Int(m as u64), d)
                &&& #[trigger] arith::gives(arith, Op::Div(s, d), v)
                &&& arith::gives(arith, Op::Sqrt(v), x)
            };
        assert(d == w);
        assert(v == square);
        assert(root_undoes_square(arith, r.spread_spec(q)));
    }
    assert(cmb.mean_spec(Mean::BaseRps) == r.mean_spec(Mean::BaseRps));
    assert(cmb.mean_spec(Mean::BaseLat) == r.mean_spec(Mean::BaseLat));
    assert(cmb.mean_spec(Mean::WorkIsol) == r.mean_spec(Mean::WorkIsol));
    assert(cmb.mean_spec(Mean::LatImpact) == r.mean_spec(Mean::LatImpact));
    assert(cmb.mean_spec(Mean::WorkCsv) == r.mean_spec(Mean::WorkCsv));
    assert(cmb.mean_spec(Mean::Vrate) == r.mean_spec(Mean::Vrate));
    assert(cmb.spread_spec(Spread::BaseRps) == r.spread_spec(Spread::BaseRps));
    assert(cmb.spread_spec(Spread::BaseLat) == r.spread_spec(Spread::BaseLat));
    assert(cmb.spread_spec(Spread::WorkIsol) == r.spread_spec(Spread::WorkIsol));
    assert(cmb.spread_spec(Spread::LatImpact) == r.spread_spec(Spread::LatImpact));
    assert(cmb.spread_spec(Spread::Vrate) == r.spread_spec(Spread::Vrate));
}

/// The sum of quantities is what comes of adding each to those before it.
proof fn lemma_sum_is_fold<F, A: Fn(Op<F>) -> F>(arith: A, xs: Seq<F>, s: F)
    requires
        arith::consistent(arith),
        arith::is_sum(arith, xs, s),
    ensures
        s == xs.fold_left(outcome(arith, Op::Int(0)), |acc: F, x: F| outcome(arith, Op::Add(acc, x))),
    decreases xs.len(),
{
    let f = |acc: F, x: F| outcome(arith, Op::Add(acc, x));
    let sums = choose|sums: Seq<F>| #[trigger] arith::running_sums(arith, xs, sums) && s == sums.last();
    if xs.len() == 0 {
        assert(arith::gives(arith, Op::Int(0), s));
        assert(arith::gives(arith, Op::Int(0), outcome(arith, Op::Int(0))));
    } else {
        let n = xs.len() - 1;
        let prior = xs.drop_last();
        assert(arith::gives(arith, Op::Add(sums[n], xs[n]), sums[n + 1]));
        assert(arith::gives(arith, Op::Add(sums[n], xs[n]), outcome(arith, Op::Add(sums[n], xs[n]))));
        assert(arith::running_sums(arith, prior, sums.drop_last())) by {
            assert forall|i: int| 0 <= i < prior.len() implies arith::gives(
                arith,
                Op::Add(sums.drop_last()[i], #[trigger] prior[i]),
                sums.drop_last()[i + 1],
            ) by {
                assert(prior[i] == xs[i]);
                assert(arith::gives(arith, Op::Add(sums[i], xs[i]), sums[i + 1]));
            }
        }
        lemma_sum_is_fold(arith, prior, sums[n]);
    }
}

/// Going through a mapped list is going through the list and mapping each item.
proof fn lemma_fold_of_map<T, U, B>(xs: Seq<T>, g: spec_fn(T) -> U, b: B, f: spec_fn(B, U) -> B)
    ensures
        xs.map_values(g).fold_left(b, f) == xs.fold_left(b, |acc: B, x: T| f(acc, g(x))),
    decreases xs.len(),
{
    if xs.len() > 0 {
        lemma_fold_of_map(xs.drop_last(), g, b, f);
        assert(xs.map_values(g).drop_last() =~= xs.drop_last().map_values(g));
    }
}

/// Totals, periods and sums of whole numbers do not depend on the order of the
/// results, and the periods are the same but for their order.
pub proof fn lemma_combine_order_exact<F>(a: Seq<&MemHogResult<F>>, b: Seq<&MemHogResult<F>>)
    requires
        a.to_multiset() == b.to_multiset(),
    ensures
        combine::total_runs_of(a) == combine::total_runs_of(b),
        combine::freedom_of(a) == combine::freedom_of(b),
        combine::sum_hog_bytes(a) == combine::sum_hog_bytes(b),
        combine::sum_hog_lost_bytes(a) == combine::sum_hog_lost_bytes(b),
        combine::main_period_of(a) == combine::main_period_of(b),
        combine::all_hog_periods(a).to_multiset() == combine::all_hog_periods(b).to_multiset(),
{
    let runs = |acc: nat, r: &MemHogResult<F>| acc + r.runs@.len();
    let freedom = |acc: nat, r: &MemHogResult<F>| acc + (if r.runs@.len() > 1 { (r.runs@.len() - 1) as nat } else { 0 });
    let bytes = |acc: nat, r: &MemHogResult<F>| acc + r.hog_bytes as nat;
    let lost = |acc: nat, r: &MemHogResult<F>| acc + r.hog_lost_bytes as nat;
    let main = |acc: (u64, u64), r: &MemHogResult<F>|
        (
            if r.main_period.0 < acc.0 { r.main_period.0 } else { acc.0 },
            if r.main_period.1 > acc.1 { r.main_period.1 } else { acc.1 },
        );
    let periods = |acc: Multiset<(u64, u64)>, r: &MemHogResult<F>| acc.add(r.hog_periods@.to_multiset());
    lemma_folds(a);
    lemma_folds(b);
    vstd::seq_lib::lemma_fold_left_permutation(a, b, runs, 0nat);
    vstd::seq_lib::lemma_fold_left_permutation(a, b, freedom, 0nat);
    vstd::seq_lib::lemma_fold_left_permutation(a, b, bytes, 0nat);
    vstd::seq_lib::lemma_fold_left_permutation(a, b, lost, 0nat);
    vstd::seq_lib::lemma_fold_left_permutation(a, b, main, (0u64, 0u64));
    assert forall|x: &MemHogResult<F>, y: &MemHogResult<F>, v: Multiset<(u64, u64)>| #[trigger]
        periods(periods(v, x), y) == periods(periods(v, y), x) by {
        assert(periods(periods(v, x), y) =~= periods(periods(v, y), x));
    }
    vstd::seq_lib::lemma_fold_left_permutation(a, b, periods, Multiset::<(u64, u64)>::empty());
}

/// What is added up over results comes of going through them.
proof fn lemma_folds<F>(results: Seq<&MemHogResult<F>>)
    ensures
        combine::total_runs_of(results) == results.fold_left(
            0nat,
            |acc: nat, r: &MemHogResult<F>| acc + r.runs@.len(),
        ),
        combine::freedom_of(results) == results.fold_left(
            0nat,
            |acc: nat, r: &MemHogResult<F>| acc + (if r.runs@.len() > 1 { (r.runs@.len() - 1) as nat } else { 0 }),
        ),
        combine::sum_hog_bytes(results) == results.fold_left(
            0nat,
            |acc: nat, r: &MemHogResult<F>| acc + r.hog_bytes as nat,
        ),
        combine::sum_hog_lost_bytes(results) == results.fold_left(
            0nat,
            |acc: nat, r: &MemHogResult<F>| acc + r.hog_lost_bytes as nat,
        ),
        combine::main_period_of(results) == results.fold_left(
            (0u64, 0u64),
            |acc: (u64, u64), r: &MemHogResult<F>|
                (
                    if r.main_period.0 < acc.0 { r.main_period.0 } else { acc.0 },
                    if r.main_period.1 > acc.1 { r.main_period.1 } else { acc.1 },
                ),
        ),
        combine::all_hog_periods(results).to_multiset() == results.fold_left(
            Multiset::<(u64, u64)>::empty(),
            |acc: Multiset<(u64, u64)>, r: &MemHogResult<F>| acc.add(r.hog_periods@.to_multiset()),
        ),
    decreases results.len(),
{
    if results.len() == 0 {
        let none = combine::all_hog_periods(results);
        none.to_multiset_ensures();
        assert(none.to_multiset() =~= Multiset::<(u64, u64)>::empty());
    } else {
        lemma_folds(results.drop_last());
        vstd::seq_lib::lemma_multiset_commutative(
            combine::all_hog_periods(results.drop_last()),
            results.last().hog_periods@,
        );
    }
}

/// A quantity times a whole number.
spec fn weighted<F, A: Fn(Op<F>) -> F>(arith: A, v: F, n: usize) -> F {
    outcome(arith, Op::Mul(v, outcome(arith, Op::Int(n as u64))))
}

/// A mean times the number of runs that it is of.
spec fn mean_term<F, A: Fn(Op<F>) -> F>(arith: A, q: Mean, r: &MemHogResult<F>) -> F {
    weighted(arith, r.mean_spec(q), r.runs@.len() as usize)
}

/// The square of a deviation times its degrees of freedom.
spec fn spread_term<F, A: Fn(Op<F>) -> F>(arith: A, q: Spread, r: &MemHogResult<F>) -> F {
    weighted(arith, outcome(arith, Op::Square(r.spread_spec(q))), (r.runs@.len() - 1) as usize)
}

/// What a combined amount comes to.
spec fn amount_of<F, A: Fn(Op<F>) -> F>(arith: A, results: Seq<&MemHogResult<F>>, q: Amount) -> F {
    results.fold_left(
        outcome(arith, Op::Int(0)),
        |acc: F, r: &MemHogResult<F>| outcome(arith, Op::Add(acc, r.amount_spec(q))),
    )
}

/// What the sum of a combined mean comes to.
spec fn mean_sum_of<F, A: Fn(Op<F>) -> F>(arith: A, results: Seq<&MemHogResult<F>>, q: Mean) -> F {
    results.fold_left(
        outcome(arith, Op::Int(0)),
        |acc: F, r: &MemHogResult<F>| outcome(arith, Op::Add(acc, mean_term(arith, q, r))),
    )
}

/// What the sum of a combined deviation comes to.
spec fn spread_sum_of<F, A: Fn(Op<F>) -> F>(arith: A, results: Seq<&MemHogResult<F>>, q: Spread) -> F {
    results.fold_left(
        outcome(arith, Op::Int(0)),
        |acc: F, r: &MemHogResult<F>|
            if r.runs@.len() > 1 {
                outcome(arith, Op::Add(acc, spread_term(arith, q, r)))
            } else {
                acc
            },
    )
}

/// A product comes to what it comes to.
proof fn lemma_weighted<F, A: Fn(Op<F>) -> F>(arith: A, v: F, n: usize, x: F)
    requires
        arith::consistent(arith),
        arith::is_weighted(arith, v, n, x),
    ensures
        x == weighted(arith, v, n),
{
    let w = choose|w: F| #[trigger]
        arith::gives(arith, Op::Int(n as u64), w) && arith::gives(arith, Op::Mul(v, w), x);
    assert(arith::gives(arith, Op::Int(n as u64), outcome(arith, Op::Int(n as u64))));
    assert(arith::gives(arith, Op::Mul(v, w), outcome(arith, Op::Mul(v, w))));
}

/// What combined quantities come to.
proof fn lemma_combined_values<F, A: Fn(Op<F>) -> F>(
    cmb: MemHogResult<F>,
    results: Seq<&MemHogResult<F>>,
    pcts: CombinedPcts<F>,
    arith: A,
)
    requires
        arith::consistent(arith),
        combine::combines(cmb, results, pcts, arith),
    ensures
        forall|q: Amount| #[trigger] cmb.amount_spec(q) == amount_of(arith, results, q),
        forall|q: Mean| #[trigger]
            cmb.mean_spec(q) == outcome(
                arith,
                Op::Div(
                    mean_sum_of(arith, results, q),
                    outcome(arith, Op::Int((combine::total_runs_of(results) as usize) as u64)),
                ),
            ),
        forall|q: Spread| #[trigger]
            cmb.spread_spec(q) == (if (combine::freedom_of(results) as usize) > 0 {
                outcome(
                    arith,
                    Op::Sqrt(
                        outcome(
                            arith,
                            Op::Div(
                                spread_sum_of(arith, results, q),
                                outcome(arith, Op::Int((combine::freedom_of(results) as usize) as u64)),
                            ),
                        ),
                    ),
                )
            } else {
                spread_sum_of(arith, results, q)
            }),
{
    let zero = outcome(arith, Op::Int(0));
    let plus = |acc: F, x: F| outcome(arith, Op::Add(acc, x));
    assert forall|q: Amount| #[trigger] cmb.amount_spec(q) == amount_of(arith, results, q) by {
        let g = |r: &MemHogResult<F>| r.amount_spec(q);
        let terms = combine::amount_terms_of(results, q);
        assert(terms =~= results.map_values(g));
        lemma_sum_is_fold(arith, terms, cmb.amount_spec(q));
        lemma_fold_of_map(results, g, zero, plus);
        assert((|acc: F, r: &MemHogResult<F>| plus(acc, g(r))) =~= (|acc: F, r: &MemHogResult<F>|
            outcome(arith, Op::Add(acc, r.amount_spec(q)))));
    }
    assert forall|q: Mean| #[trigger]
        cmb.mean_spec(q) == outcome(
            arith,
            Op::Div(
                mean_sum_of(arith, results, q),
                outcome(arith, Op::Int((combine::total_runs_of(results) as usize) as u64)),
            ),
        ) by {
        let n = combine::total_runs_of(results) as usize;
        let terms = combine::mean_terms_of(results, q);
        let x = cmb.mean_spec(q);
        assert(arith::is_weighted_mean(arith, terms, n, x));
        let (xs, s, w) = choose|xs: Seq<F>, s: F, w: F|
            {
                &&& #[trigger] arith::are_weighted(arith, terms, xs)
                &&& #[trigger] arith::is_sum(arith, xs, s)
                &&& #[trigger] arith::gives(arith, Op::Int(n as u64), w)
                &&& arith::gives(arith, Op::Div(s, w), x)
            };
        let g = |r: &MemHogResult<F>| mean_term(arith, q, r);
        assert forall|i: int| 0 <= i < xs.len() implies xs[i] == #[trigger] results.map_values(g)[i] by {
            assert(arith::is_weighted(arith, terms[i].0, terms[i].1, xs[i]));
            lemma_weighted(arith, terms[i].0, terms[i].1, xs[i]);
        }
        assert(xs =~= results.map_values(g));
        lemma_sum_is_fold(arith, xs, s);
        lemma_fold_of_map(results, g, zero, plus);
        assert((|acc: F, r: &MemHogResult<F>| plus(acc, g(r))) =~= (|acc: F, r: &MemHogResult<F>|
            outcome(arith, Op::Add(acc, mean_term(arith, q, r)))));
        assert(arith::gives(arith, Op::Int(n as u64), outcome(arith, Op::Int(n as u64))));
        assert(arith::gives(arith, Op::Div(s, w), outcome(arith, Op::Div(s, w))));
    }
    assert forall|q: Spread| #[trigger]
        cmb.spread_spec(q) == (if (combine::freedom_of(results) as usize) > 0 {
            outcome(
                arith,
                Op::Sqrt(
                    outcome(
                        arith,
                        Op::Div(
                            spread_sum_of(arith, results, q),
                            outcome(arith, Op::Int((combine::freedom_of(results) as usize) as u64)),
                        ),
                    ),
                ),
            )
        } else {
            spread_sum_of(arith, results, q)
        }) by {
        let m = combine::freedom_of(results) as usize;
        let terms = combine::spread_terms_of(results, q);
        let x = cmb.spread_spec(q);
        assert(arith::is_pooled(arith, terms, m, x));
        let (xs, s) = choose|xs: Seq<F>, s: F|
            {
                &&& #[trigger] arith::are_squares(arith, terms, xs)
                &&& #[trigger] arith::is_sum(arith, xs, s)
                &&& if m > 0 {
                    arith::is_root_mean(arith, s, m, x)
                } else {
                    x == s
                }
            };
        lemma_spread_sum(arith, results, q, xs);
        lemma_sum_is_fold(arith, xs, s);
        if m > 0 {
            let (d, v) = choose|d: F, v: F|
                {
                    &&& #[trigger] arith::gives(arith, Op::Int(m as u64), d)
                    &&& #[trigger] arith::gives(arith, Op::Div(s, d), v)
                    &&& arith::gives(arith, Op::Sqrt(v), x)
                };
            assert(arith::gives(arith, Op::Int(m as u64), outcome(arith, Op::Int(m as u64))));
            assert(arith::gives(arith, Op::Div(s, d), outcome(arith, Op::Div(s, d))));
            assert(arith::gives(arith, Op::Sqrt(v), outcome(arith, Op::Sqrt(v))));
        }
    }
}

/// The terms of a combined deviation come of going through the results.
proof fn lemma_spread_sum<F, A: Fn(Op<F>) -> F>(arith: A, results: Seq<&MemHogResult<F>>, q: Spread, xs: Seq<F>)
    requires
        arith::consistent(arith),
        arith::are_squares(arith, combine::spread_terms_of(results, q), xs),
    ensures
        xs.fold_left(outcome(arith, Op::Int(0)), |acc: F, x: F| outcome(arith, Op::Add(acc, x))) == spread_sum_of(
            arith,
            results,
            q,
        ),
    decreases results.len(),
{
    if results.len() > 0 {
        let prior = results.drop_last();
        let r = results.last();
        let terms = combine::spread_terms_of(results, q);
        let terms0 = combine::spread_terms_of(prior, q);
        if r.runs@.len() > 1 {
            let n = terms.len() - 1;
            assert(terms == terms0.push((r.spread_spec(q), (r.runs@.len() - 1) as usize)));
            assert forall|i: int| 0 <= i < n implies arith::is_square(
                arith,
                terms0[i],
                #[trigger] xs.drop_last()[i],
            ) by {
                assert(arith::is_square(arith, terms[i], xs[i]));
            }
            lemma_spread_sum(arith, prior, q, xs.drop_last());
            assert(arith::is_square(arith, terms[n], xs[n]));
            let v = choose|v: F| #[trigger]
                arith::gives(arith, Op::Square(terms[n].0), v) && arith::is_weighted(arith, v, terms[n].1, xs[n]);
            assert(arith::gives(arith, Op::Square(terms[n].0), outcome(arith, Op::Square(terms[n].0))));
            lemma_weighted(arith, v, terms[n].1, xs[n]);
            assert(xs.last() == spread_term(arith, q, r));
        } else {
            lemma_spread_sum(arith, prior, q, xs);
        }
    }
}

/// Two combined results are the same, but for the order of the hogs' periods
/// and for the percentiles.
pub open spec fn agree<F>(x: MemHogResult<F>, y: MemHogResult<F>) -> bool {
    &&& x.hog_bytes == y.hog_bytes
    &&& x.hog_lost_bytes == y.hog_lost_bytes
    &&& x.main_period == y.main_period
    &&& x.hog_periods@.to_multiset() == y.hog_periods@.to_multiset()
    &&& x.io_usage == y.io_usage
    &&& x.io_unused == y.io_unused
    &&& x.hog_io_usage == y.hog_io_usage
    &&& x.hog_io_loss == y.hog_io_loss
    &&& x.base_rps == y.base_rps
    &&& x.base_lat == y.base_lat
    &&& x.work_isol == y.work_isol
    &&& x.lat_impact == y.lat_impact
    &&& x.work_csv == y.work_csv
    &&& x.vrate == y.vrate
    &&& x.base_rps_stdev == y.base_rps_stdev
    &&& x.base_lat_stdev == y.base_lat_stdev
    &&& x.work_isol_stdev == y.work_isol_stdev
    &&& x.lat_impact_stdev == y.lat_impact_stdev
    &&& x.vrate_stdev == y.vrate_stdev
}

/// `combine_results` does not depend on the order of the results: the sums of
/// whole numbers and the period agree, the hogs' periods are the same but for
/// their order, and means, deviations and amounts agree. This is for additions
/// whose order does not matter.
pub proof fn lemma_combine_results_order<
    's,
    F,
    G: Fn((u64, u64)) -> Vec<Report<F>>,
    S: Fn(Vec<F>) -> (F, F),
    Q: Fn(Vec<F>, Vec<&'static str>) -> StrMap<F>,
    L: Fn(Vec<(u64, u64)>) -> [StrMap<StrMap<F>>; 2],
    A: Fn(Op<F>) -> F,
    P: Fn(F) -> bool,
>(
    a: Seq<&MemHogResult<F>>,
    b: Seq<&MemHogResult<F>>,
    x: MemHogResult<F>,
    y: MemHogResult<F>,
    src: Source<'s, G, S, Q, L, A, P>,
)
    requires
        a.to_multiset() == b.to_multiset(),
        combine::is_combination(x, a, src),
        combine::is_combination(y, b, src),
        arith::consistent(*src.arith),
        adds_in_any_order(*src.arith),
    ensures
        agree(x, y),
{
    let p = choose|p: CombinedPcts<F>| #[trigger]
        combine::are_combined_pcts(a, src, p) && combine::combines(x, a, p, *src.arith);
    let q = choose|q: CombinedPcts<F>| #[trigger]
        combine::are_combined_pcts(b, src, q) && combine::combines(y, b, q, *src.arith);
    lemma_combine_order(a, b, x, y, p, q, *src.arith);
}

/// The same of `combine_stats`, which is given the percentiles.
pub proof fn lemma_combine_order<F, A: Fn(Op<F>) -> F>(
    a: Seq<&MemHogResult<F>>,
    b: Seq<&MemHogResult<F>>,
    x: MemHogResult<F>,
    y: MemHogResult<F>,
    x_pcts: CombinedPcts<F>,
    y_pcts: CombinedPcts<F>,
    arith: A,
)
    requires
        a.to_multiset() == b.to_multiset(),
        combine::combines(x, a, x_pcts, arith),
        combine::combines(y, b, y_pcts, arith),
        arith::consistent(arith),
        adds_in_any_order(arith),
    ensures
        agree(x, y),
{
    lemma_combine_order_exact(a, b);
    lemma_combined_values(x, a, x_pcts, arith);
    lemma_combined_values(y, b, y_pcts, arith);
    let zero = outcome(arith, Op::Int(0));
    assert forall|q: Amount| #[trigger] x.amount_spec(q) == y.amount_spec(q) by {
        let f = |acc: F, r: &MemHogResult<F>| outcome(arith, Op::Add(acc, r.amount_spec(q)));
        vstd::seq_lib::lemma_fold_left_permutation(a, b, f, zero);
        assert(y.amount_spec(q) == amount_of(arith, b, q));
    }
    assert forall|q: Mean| #[trigger] x.mean_spec(q) == y.mean_spec(q) by {
        let f = |acc: F, r: &MemHogResult<F>| outcome(arith, Op::Add(acc, mean_term(arith, q, r)));
        vstd::seq_lib::lemma_fold_left_permutation(a, b, f, zero);
        assert(mean_sum_of(arith, a, q) == mean_sum_of(arith, b, q));
    }
    assert forall|q: Spread| #[trigger] x.spread_spec(q) == y.spread_spec(q) by {
        let f = |acc: F, r: &MemHogResult<F>|
            if r.runs@.len() > 1 {
                outcome(arith, Op::Add(acc, spread_term(arith, q, r)))
            } else {
                acc
            };
        vstd::seq_lib::lemma_fold_left_permutation(a, b, f, zero);
        assert(spread_sum_of(arith, a, q) == spread_sum_of(arith, b, q));
    }
    assert(x.amount_spec(Amount::IoUsage) == y.amount_spec(Amount::IoUsage));
    assert(x.amount_spec(Amount::IoUnused) == y.amount_spec(Amount::IoUnused));
    assert(x.amount_spec(Amount::HogIoUsage) == y.amount_spec(Amount::HogIoUsage));
    assert(x.amount_spec(Amount::HogIoLoss) == y.amount_spec(Amount::HogIoLoss));
    assert(x.mean_spec(Mean::BaseRps) == y.mean_spec(Mean::BaseRps));
    assert(x.mean_spec(Mean::BaseLat) == y.mean_spec(Mean::BaseLat));
    assert(x.mean_spec(Mean::WorkIsol) == y.mean_spec(Mean::WorkIsol));
    assert(x.mean_spec(Mean::LatImpact) == y.mean_spec(Mean::LatImpact));
    assert(x.mean_spec(Mean::WorkCsv) == y.mean_spec(Mean::WorkCsv));
    assert(x.mean_spec(Mean::Vrate) == y.mean_spec(Mean::Vrate));
    assert(x.spread_spec(Spread::BaseRps) == y.spread_spec(Spread::BaseRps));
    assert(x.spread_spec(Spread::BaseLat) == y.spread_spec(Spread::BaseLat));
    assert(x.spread_spec(Spread::WorkIsol) == y.spread_spec(Spread::WorkIsol));
    assert(x.spread_spec(Spread::LatImpact) == y.spread_spec(Spread::LatImpact));
    assert(x.spread_spec(Spread::Vrate) == y.spread_spec(Spread::Vrate));
}

} // verus!
