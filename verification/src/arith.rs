//! Arithmetic on measured quantities.
//!
//! The caller hands in how single operations are done. What they are put
//! together to stands here, so that it holds whatever the operations round to.

use vstd::prelude::*;

verus! {

/// A single operation on quantities.
#[derive(Debug)]
pub enum Op<F> {
    /// The quantity that a whole number stands for.
    Int(u64),
    /// The first quantity and the second one.
    Add(F, F),
    /// The first quantity without the second one.
    Sub(F, F),
    /// The first quantity times the second one.
    Mul(F, F),
    /// The first quantity divided by the second one.
    Div(F, F),
    /// The lesser of two quantities.
    Min(F, F),
    /// The greater of two quantities.
    Max(F, F),
    /// A quantity times itself.
    Square(F),
    /// The square root of a quantity.
    Sqrt(F),
}

/// `arith` does every operation.
pub open spec fn does_all<F, A: Fn(Op<F>) -> F>(arith: A) -> bool {
    forall|op: Op<F>| call_requires(arith, (op,))
}

/// `x` is what an operation may come to.
pub open spec fn gives<F, A: Fn(Op<F>) -> F>(arith: A, op: Op<F>, x: F) -> bool {
    call_ensures(arith, (op,), x)
}

/// `arith` has one outcome for each operation.
pub open spec fn consistent<F, A: Fn(Op<F>) -> F>(arith: A) -> bool {
    forall|op: Op<F>, x: F, y: F| #[trigger] gives(arith, op, x) && #[trigger] gives(arith, op, y) ==> x == y
}

/// Does an operation.
pub fn apply<F, A: Fn(Op<F>) -> F>(arith: &A, op: Op<F>) -> (x: F)
    requires
        does_all(*arith),
    ensures
        gives(*arith, op, x),
{
    arith(op)
}

/// `sums` are the sums of no quantities, of the first one, of the first two and
/// so on, each made from the one before.
pub open spec fn running_sums<F, A: Fn(Op<F>) -> F>(arith: A, xs: Seq<F>, sums: Seq<F>) -> bool {
    &&& sums.len() == xs.len() + 1
    &&& gives(arith, Op::Int(0), sums[0])
    &&& forall|i: int| 0 <= i < xs.len() ==> gives(arith, Op::Add(sums[i], #[trigger] xs[i]), sums[i + 1])
}

/// `x` is the sum of quantities, added up in their order.
pub open spec fn is_sum<F, A: Fn(Op<F>) -> F>(arith: A, xs: Seq<F>, x: F) -> bool {
    exists|sums: Seq<F>| #[trigger] running_sums(arith, xs, sums) && x == sums.last()
}

/// Adds up quantities in their order.
pub fn sum<F: Copy, A: Fn(Op<F>) -> F>(xs: &Vec<F>, arith: &A) -> (x: F)
    requires
        does_all(*arith),
    ensures
        is_sum(*arith, xs@, x),
{
    let mut x = apply(arith, Op::Int(0));
    let ghost mut sums = seq![x];
    let mut i: usize = 0;
    while i < xs.len()
        invariant
            i <= xs@.len(),
            does_all(*arith),
            running_sums(*arith, xs@.take(i as int), sums),
            x == sums.last(),
        decreases xs@.len() - i,
    {
        let ghost prior = sums;
        x = apply(arith, Op::Add(x, xs[i]));
        proof {
            sums = prior.push(x);
            let ys = xs@.take(i + 1);
            assert forall|j: int| 0 <= j < ys.len() implies gives(
                *arith,
                Op::Add(sums[j], #[trigger] ys[j]),
                sums[j + 1],
            ) by {
                if j < i {
                    assert(ys[j] == xs@.take(i as int)[j]);
                }
            }
        }
        i += 1;
    }
    assert(xs@.take(i as int) =~= xs@);
    x
}

/// `x` is a quantity times a whole number.
pub open spec fn is_weighted<F, A: Fn(Op<F>) -> F>(arith: A, v: F, n: usize, x: F) -> bool {
    exists|w: F| #[trigger] gives(arith, Op::Int(n as u64), w) && gives(arith, Op::Mul(v, w), x)
}

/// Multiplies a quantity by a whole number.
fn weighted<F: Copy, A: Fn(Op<F>) -> F>(v: F, n: usize, arith: &A) -> (x: F)
    requires
        does_all(*arith),
    ensures
        is_weighted(*arith, v, n, x),
{
    let w = apply(arith, Op::Int(n as u64));
    apply(arith, Op::Mul(v, w))
}

/// `xs` are quantities, each times its weight.
pub open spec fn are_weighted<F, A: Fn(Op<F>) -> F>(arith: A, terms: Seq<(F, usize)>, xs: Seq<F>) -> bool {
    &&& xs.len() == terms.len()
    &&& forall|i: int| 0 <= i < terms.len() ==> is_weighted(arith, terms[i].0, terms[i].1, #[trigger] xs[i])
}

/// `x` is the sum of quantities, each times its weight, divided by `weight`.
pub open spec fn is_weighted_mean<F, A: Fn(Op<F>) -> F>(arith: A, terms: Seq<(F, usize)>, weight: usize, x: F) -> bool {
    exists|xs: Seq<F>, s: F, n: F|
        {
            &&& #[trigger] are_weighted(arith, terms, xs)
            &&& #[trigger] is_sum(arith, xs, s)
            &&& #[trigger] gives(arith, Op::Int(weight as u64), n)
            &&& gives(arith, Op::Div(s, n), x)
        }
}

/// The average of quantities with weights that add up to `weight`.
pub fn weighted_mean<F: Copy, A: Fn(Op<F>) -> F>(terms: &Vec<(F, usize)>, weight: usize, arith: &A) -> (x: F)
    requires
        does_all(*arith),
    ensures
        is_weighted_mean(*arith, terms@, weight, x),
{
    let mut xs: Vec<F> = Vec::new();
    let mut i: usize = 0;
    while i < terms.len()
        invariant
            i <= terms@.len(),
            does_all(*arith),
            are_weighted(*arith, terms@.take(i as int), xs@),
        decreases terms@.len() - i,
    {
        let (v, n) = terms[i];
        let ghost prior = xs@;
        let x = weighted(v, n, arith);
        xs.push(x);
        proof {
            assert forall|j: int| 0 <= j < i + 1 implies is_weighted(
                *arith,
                terms@.take(i + 1)[j].0,
                terms@.take(i + 1)[j].1,
                #[trigger] xs@[j],
            ) by {
                if j < i {
                    assert(xs@[j] == prior[j]);
                    assert(terms@.take(i as int)[j] == terms@[j]);
                }
            }
        }
        i += 1;
    }
    assert(terms@.take(i as int) =~= terms@);
    let s = sum(&xs, arith);
    let n = apply(arith, Op::Int(weight as u64));
    apply(arith, Op::Div(s, n))
}

/// `xs` are the squares of quantities, each times its weight.
pub open spec fn are_squares<F, A: Fn(Op<F>) -> F>(arith: A, terms: Seq<(F, usize)>, xs: Seq<F>) -> bool {
    &&& xs.len() == terms.len()
    &&& forall|i: int| 0 <= i < terms.len() ==> is_square(arith, terms[i], #[trigger] xs[i])
}

/// `x` is the square of a quantity times a whole number.
pub open spec fn is_square<F, A: Fn(Op<F>) -> F>(arith: A, term: (F, usize), x: F) -> bool {
    exists|s: F| #[trigger] gives(arith, Op::Square(term.0), s) && is_weighted(arith, s, term.1, x)
}

/// `x` is the square root of the sum of the squares of quantities, each times
/// its weight, divided by `freedom`. If that is zero, `x` is the bare sum.
pub open spec fn is_pooled<F, A: Fn(Op<F>) -> F>(
    arith: A,
    terms: Seq<(F, usize)>,
    freedom: usize,
    x: F,
) -> bool {
    exists|xs: Seq<F>, s: F|
        {
            &&& #[trigger] are_squares(arith, terms, xs)
            &&& #[trigger] is_sum(arith, xs, s)
            &&& if freedom > 0 {
                is_root_mean(arith, s, freedom, x)
            } else {
                x == s
            }
        }
}

/// `x` is the square root of a quantity divided by a whole number.
pub open spec fn is_root_mean<F, A: Fn(Op<F>) -> F>(arith: A, s: F, n: usize, x: F) -> bool {
    exists|d: F, q: F|
        {
            &&& #[trigger] gives(arith, Op::Int(n as u64), d)
            &&& #[trigger] gives(arith, Op::Div(s, d), q)
            &&& gives(arith, Op::Sqrt(q), x)
        }
}

/// The standard deviation that is pooled from others, each with its degrees of
/// freedom as its weight, where `freedom` is what these add up to. If there
/// is none, there is nothing to pool, and the sum is left as it is.
pub fn pooled_stdev<F: Copy, A: Fn(Op<F>) -> F>(terms: &Vec<(F, usize)>, freedom: usize, arith: &A) -> (x: F)
    requires
        does_all(*arith),
    ensures
        is_pooled(*arith, terms@, freedom, x),
{
    let mut xs: Vec<F> = Vec::new();
    let mut i: usize = 0;
    while i < terms.len()
        invariant
            i <= terms@.len(),
            does_all(*arith),
            are_squares(*arith, terms@.take(i as int), xs@),
        decreases terms@.len() - i,
    {
        let (v, n) = terms[i];
        let ghost prior = xs@;
        let s = apply(arith, Op::Square(v));
        let x = weighted(s, n, arith);
        xs.push(x);
        proof {
            assert(is_square(*arith, terms@[i as int], x));
            assert forall|j: int| 0 <= j < i + 1 implies is_square(
                *arith,
                terms@.take(i + 1)[j],
                #[trigger] xs@[j],
            ) by {
                if j < i {
                    assert(xs@[j] == prior[j]);
                    assert(terms@.take(i as int)[j] == terms@[j]);
                }
            }
        }
        i += 1;
    }
    assert(terms@.take(i as int) =~= terms@);
    let s = sum(&xs, arith);
    if freedom > 0 {
        let d = apply(arith, Op::Int(freedom as u64));
        let q = apply(arith, Op::Div(s, d));
        let x = apply(arith, Op::Sqrt(q));
        assert(is_root_mean(*arith, s, freedom, x));
        x
    } else {
        s
    }
}

} // verus!
