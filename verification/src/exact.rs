//! Operations without rounding.
//!
//! Quantities stand for real numbers here, and an operation comes to exactly
//! the number that it should. What results are for is then a matter of
//! equations between numbers.

use vstd::prelude::*;

use crate::arith::{self, Op};

verus! {

/// Operations come to exactly the numbers that they should, where `val` is the
/// number that a quantity stands for. Nothing is said of dividing by zero and
/// of roots of what is less than zero.
pub open spec fn is_exact<F, A: Fn(Op<F>) -> F>(arith: A, val: spec_fn(F) -> real) -> bool {
    &&& forall|n: u64, x: F| #[trigger] arith::gives(arith, Op::Int(n), x) ==> val(x) == n as real
    &&& forall|a: F, b: F, x: F| #[trigger] arith::gives(arith, Op::Add(a, b), x) ==> val(x) == val(a) + val(b)
    &&& forall|a: F, b: F, x: F| #[trigger] arith::gives(arith, Op::Sub(a, b), x) ==> val(x) == val(a) - val(b)
    &&& forall|a: F, b: F, x: F| #[trigger] arith::gives(arith, Op::Mul(a, b), x) ==> val(x) == val(a) * val(b)
    &&& forall|a: F, b: F, x: F| #[trigger]
        arith::gives(arith, Op::Div(a, b), x) && val(b) != 0 as real ==> val(x) * val(b) == val(a)
    &&& forall|a: F, b: F, x: F| #[trigger]
        arith::gives(arith, Op::Min(a, b), x) ==> val(x) == (if val(a) <= val(b) { val(a) } else { val(b) })
    &&& forall|a: F, b: F, x: F| #[trigger]
        arith::gives(arith, Op::Max(a, b), x) ==> val(x) == (if val(a) >= val(b) { val(a) } else { val(b) })
    &&& forall|a: F, x: F| #[trigger] arith::gives(arith, Op::Square(a), x) ==> val(x) == val(a) * val(a)
    &&& forall|a: F, x: F| #[trigger]
        arith::gives(arith, Op::Sqrt(a), x) && val(a) >= 0 as real ==> val(x) >= 0 as real && val(x) * val(x) == val(a)
}

/// `positive` tells whether a quantity stands for more than zero.
pub open spec fn tells_positive<F, P: Fn(F) -> bool>(positive: P, val: spec_fn(F) -> real) -> bool {
    forall|x: F, b: bool| #[trigger] call_ensures(positive, (x,), b) ==> b == (val(x) > 0 as real)
}

/// Dividing by zero gives what is beyond all numbers, if the dividend is one
/// that counts.
pub open spec fn divides_out<F, A: Fn(Op<F>) -> F>(
    arith: A,
    counts: spec_fn(F) -> bool,
    beyond: spec_fn(F) -> bool,
) -> bool {
    forall|a: F, zero: F, q: F| #[trigger]
        arith::gives(arith, Op::Div(a, zero), q) && arith::gives(arith, Op::Int(0), zero) && counts(a) ==> beyond(q)
}

/// What is beyond all numbers stays so when it is multiplied, and is never the
/// lesser of two.
pub open spec fn stays_beyond<F, A: Fn(Op<F>) -> F>(arith: A, beyond: spec_fn(F) -> bool) -> bool {
    &&& forall|n: u64, a: F, b: F, p: F| #[trigger]
        arith::gives(arith, Op::Int(n), a) && #[trigger] arith::gives(arith, Op::Mul(a, b), p) && beyond(b) ==> beyond(p)
    &&& forall|a: F, b: F, m: F| #[trigger] arith::gives(arith, Op::Min(a, b), m) && beyond(b) ==> m == a
}

/// The sum of the numbers that items have.
pub open spec fn total<T>(xs: Seq<T>, of: spec_fn(T) -> real) -> real
    decreases xs.len(),
{
    if xs.len() == 0 {
        0 as real
    } else {
        total(xs.drop_last(), of) + of(xs.last())
    }
}

/// Lists whose items have the same numbers have the same sum.
pub proof fn lemma_total_same<T, U>(xs: Seq<T>, of: spec_fn(T) -> real, ys: Seq<U>, of2: spec_fn(U) -> real)
    requires
        xs.len() == ys.len(),
        forall|i: int| 0 <= i < xs.len() ==> of(#[trigger] xs[i]) == of2(ys[i]),
    ensures
        total(xs, of) == total(ys, of2),
    decreases xs.len(),
{
    if xs.len() > 0 {
        let n = xs.len() - 1;
        assert(of(xs[n]) == of2(ys[n]));
        assert forall|i: int| 0 <= i < n implies of(#[trigger] xs.drop_last()[i]) == of2(ys.drop_last()[i]) by {
            assert(of(xs[i]) == of2(ys[i]));
        }
        lemma_total_same(xs.drop_last(), of, ys.drop_last(), of2);
    }
}

/// The sum of sums is the sum of what is summed up item by item.
pub proof fn lemma_total_of_sums<T>(
    xs: Seq<T>,
    a: spec_fn(T) -> real,
    b: spec_fn(T) -> real,
    c: spec_fn(T) -> real,
)
    requires
        forall|i: int| 0 <= i < xs.len() ==> a(#[trigger] xs[i]) + b(xs[i]) == c(xs[i]),
    ensures
        total(xs, a) + total(xs, b) == total(xs, c),
    decreases xs.len(),
{
    if xs.len() > 0 {
        let n = xs.len() - 1;
        assert(a(xs[n]) + b(xs[n]) == c(xs[n]));
        assert forall|i: int| 0 <= i < n implies a(#[trigger] xs.drop_last()[i]) + b(xs.drop_last()[i]) == c(
            xs.drop_last()[i],
        ) by {
            assert(a(xs[i]) + b(xs[i]) == c(xs[i]));
        }
        lemma_total_of_sums(xs.drop_last(), a, b, c);
    }
}

/// A sum of what is not less than zero is not less than zero.
pub proof fn lemma_total_not_negative<T>(xs: Seq<T>, of: spec_fn(T) -> real)
    requires
        forall|i: int| 0 <= i < xs.len() ==> of(#[trigger] xs[i]) >= 0 as real,
    ensures
        total(xs, of) >= 0 as real,
    decreases xs.len(),
{
    if xs.len() > 0 {
        let n = xs.len() - 1;
        assert(of(xs[n]) >= 0 as real);
        assert forall|i: int| 0 <= i < n implies of(#[trigger] xs.drop_last()[i]) >= 0 as real by {
            assert(of(xs[i]) >= 0 as real);
        }
        lemma_total_not_negative(xs.drop_last(), of);
    }
}

/// `sum` adds up: its result is the sum of the quantities.
pub proof fn lemma_sum<F, A: Fn(Op<F>) -> F>(arith: A, val: spec_fn(F) -> real, xs: Seq<F>, s: F)
    requires
        is_exact(arith, val),
        arith::is_sum(arith, xs, s),
    ensures
        val(s) == total(xs, val),
    decreases xs.len(),
{
    let sums = choose|sums: Seq<F>| #[trigger] arith::running_sums(arith, xs, sums) && s == sums.last();
    if xs.len() > 0 {
        let n = xs.len() - 1;
        let prior = xs.drop_last();
        assert(arith::gives(arith, Op::Add(sums[n], xs[n]), sums[n + 1]));
        assert(arith::running_sums(arith, prior, sums.drop_last())) by {
            assert forall|i: int| 0 <= i < prior.len() implies arith::gives(
                arith,
                Op::Add(sums.drop_last()[i], #[trigger] prior[i]),
                sums.drop_last()[i + 1],
            ) by {
                assert(prior[i] == xs[i]);
                assert(arith::gives(arith, Op::Add(sums[i], xs[i]), sums[i + 1]));
            }
        }
        lemma_sum(arith, val, prior, sums[n]);
    }
}

/// `weighted_mean` averages: its result times the weight is the sum of the
/// quantities times their weights.
pub proof fn lemma_weighted_mean<F, A: Fn(Op<F>) -> F>(
    arith: A,
    val: spec_fn(F) -> real,
    terms: Seq<(F, usize)>,
    weight: usize,
    x: F,
)
    requires
        is_exact(arith, val),
        arith::is_weighted_mean(arith, terms, weight, x),
        weight > 0,
    ensures
        val(x) * (weight as real) == total(terms, |t: (F, usize)| val(t.0) * (t.1 as real)),
{
    let of = |t: (F, usize)| val(t.0) * (t.1 as real);
    let (xs, s, n) = choose|xs: Seq<F>, s: F, n: F|
        {
            &&& #[trigger] arith::are_weighted(arith, terms, xs)
            &&& #[trigger] arith::is_sum(arith, xs, s)
            &&& #[trigger] arith::gives(arith, Op::Int(weight as u64), n)
            &&& arith::gives(arith, Op::Div(s, n), x)
        };
    lemma_sum(arith, val, xs, s);
    assert forall|i: int| 0 <= i < terms.len() implies of(#[trigger] terms[i]) == val(xs[i]) by {
        assert(arith::is_weighted(arith, terms[i].0, terms[i].1, xs[i]));
    }
    lemma_total_same(terms, of, xs, val);
    assert(val(n) == weight as real);
}

/// `pooled_stdev` pools: the square of its result times the degrees of freedom
/// is the sum of the squares of the deviations times their weights. Without
/// degrees of freedom, it is that sum itself.
pub proof fn lemma_pooled_stdev<F, A: Fn(Op<F>) -> F>(
    arith: A,
    val: spec_fn(F) -> real,
    terms: Seq<(F, usize)>,
    freedom: usize,
    x: F,
)
    requires
        is_exact(arith, val),
        arith::is_pooled(arith, terms, freedom, x),
    ensures
        val(x) >= 0 as real,
        freedom > 0 ==> val(x) * val(x) * (freedom as real) == total(
            terms,
            |t: (F, usize)| val(t.0) * val(t.0) * (t.1 as real),
        ),
        freedom == 0 ==> val(x) == total(terms, |t: (F, usize)| val(t.0) * val(t.0) * (t.1 as real)),
{
    let of = |t: (F, usize)| val(t.0) * val(t.0) * (t.1 as real);
    let (xs, s) = choose|xs: Seq<F>, s: F|
        {
            &&& #[trigger] arith::are_squares(arith, terms, xs)
            &&& #[trigger] arith::is_sum(arith, xs, s)
            &&& if freedom > 0 {
                arith::is_root_mean(arith, s, freedom, x)
            } else {
                x == s
            }
        };
    lemma_sum(arith, val, xs, s);
    assert forall|i: int| 0 <= i < terms.len() implies of(#[trigger] terms[i]) == val(xs[i]) && of(terms[i])
        >= 0 as real by {
        assert(arith::is_square(arith, terms[i], xs[i]));
        let (v, w) = (val(terms[i].0), terms[i].1 as real);
        assert(v * v * w >= 0 as real) by (nonlinear_arith)
            requires
                w >= 0 as real,
        ;
    }
    lemma_total_same(terms, of, xs, val);
    lemma_total_not_negative(terms, of);
    let t = val(s);
    if freedom > 0 {
        let (d, q) = choose|d: F, q: F|
            {
                &&& #[trigger] arith::gives(arith, Op::Int(freedom as u64), d)
                &&& #[trigger] arith::gives(arith, Op::Div(s, d), q)
                &&& arith::gives(arith, Op::Sqrt(q), x)
            };
        let (dv, qv) = (val(d), val(q));
        assert(qv >= 0 as real) by (nonlinear_arith)
            requires
                dv > 0 as real,
                t >= 0 as real,
                qv * dv == t,
        ;
    }
}

/// A mean over nothing is beyond all numbers.
pub proof fn lemma_mean_over_nothing<F, A: Fn(Op<F>) -> F>(
    arith: A,
    beyond: spec_fn(F) -> bool,
    terms: Seq<(F, usize)>,
    x: F,
)
    requires
        divides_out(arith, |a: F| true, beyond),
        arith::is_weighted_mean(arith, terms, 0, x),
    ensures
        beyond(x),
{
    let (xs, s, n) = choose|xs: Seq<F>, s: F, n: F|
        {
            &&& #[trigger] arith::are_weighted(arith, terms, xs)
            &&& #[trigger] arith::is_sum(arith, xs, s)
            &&& #[trigger] arith::gives(arith, Op::Int(0), n)
            &&& arith::gives(arith, Op::Div(s, n), x)
        };
    assert(arith::gives(arith, Op::Div(s, n), x));
}

} // verus!
