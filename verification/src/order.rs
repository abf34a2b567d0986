//! Quantities in order.
//!
//! What is asked here of operations holds of those that round to the nearest
//! quantity and that know infinite quantities and such that are no number.

use vstd::prelude::*;

use crate::arith::{self, Op};

verus! {

/// How quantities are ordered.
#[verifier::reject_recursive_types(F)]
pub struct Order<F> {
    /// Whether a quantity is no more than another one.
    pub le: spec_fn(F, F) -> bool,
    /// Whether a quantity has a place in the order.
    pub number: spec_fn(F) -> bool,
    /// Whether a quantity is finite.
    pub finite: spec_fn(F) -> bool,
}

impl<F> Order<F> {
    /// `a` is no more than `b`.
    pub open spec fn le(self, a: F, b: F) -> bool {
        (self.le)(a, b)
    }

    /// `a` is less than `b`.
    pub open spec fn lt(self, a: F, b: F) -> bool {
        self.le(a, b) && !self.le(b, a)
    }

    /// `a` and `b` are at the same place.
    pub open spec fn same(self, a: F, b: F) -> bool {
        self.le(a, b) && self.le(b, a)
    }

    /// `x` has a place in the order.
    pub open spec fn number(self, x: F) -> bool {
        (self.number)(x)
    }

    /// `x` is finite.
    pub open spec fn finite(self, x: F) -> bool {
        (self.finite)(x)
    }

    /// Numbers are in a line, finite quantities are numbers, and what is at the
    /// place of a finite quantity is finite.
    pub open spec fn is_order(self) -> bool {
        &&& forall|x: F| #[trigger] self.finite(x) ==> self.number(x)
        &&& forall|x: F, y: F|
            #![trigger self.le(x, y), self.finite(x)]
            self.finite(x) && self.number(y) && self.same(x, y) ==> self.finite(y)
        &&& forall|x: F, y: F|
            self.number(x) && self.number(y) ==> (#[trigger] self.le(x, y) || self.le(y, x))
        &&& forall|x: F, y: F, z: F| #[trigger]
            self.le(x, y) && #[trigger] self.le(y, z) && self.number(x) && self.number(y) && self.number(z) ==> self.le(
                x,
                z,
            )
    }

    /// Zero is less than one, and both are finite.
    pub open spec fn has_zero_one<A: Fn(Op<F>) -> F>(self, arith: A) -> bool {
        forall|zero: F, one: F| #[trigger]
            arith::gives(arith, Op::Int(0), zero) && #[trigger] arith::gives(arith, Op::Int(1), one) ==> self.finite(zero)
                && self.finite(one) && self.lt(zero, one)
    }

    /// The lesser and the greater of two quantities are one of them. If only one
    /// of them is a number, it is that one.
    pub open spec fn has_min_max<A: Fn(Op<F>) -> F>(self, arith: A) -> bool {
        &&& forall|a: F, b: F, x: F| #[trigger]
            arith::gives(arith, Op::Min(a, b), x) && (self.number(a) || self.number(b)) ==> {
                &&& self.number(x)
                &&& self.number(a) ==> self.le(x, a)
                &&& self.number(b) ==> self.le(x, b)
                &&& self.number(a) && self.same(x, a) || self.number(b) && self.same(x, b)
            }
        &&& forall|a: F, b: F, x: F| #[trigger]
            arith::gives(arith, Op::Max(a, b), x) && (self.number(a) || self.number(b)) ==> {
                &&& self.number(x)
                &&& self.number(a) ==> self.le(a, x)
                &&& self.number(b) ==> self.le(b, x)
                &&& self.number(a) && self.same(x, a) || self.number(b) && self.same(x, b)
            }
    }

    /// Dividing by a positive quantity keeps the order. The quotient is to one
    /// as the dividend is to the divisor.
    pub open spec fn has_div<A: Fn(Op<F>) -> F>(self, arith: A) -> bool {
        &&& forall|a: F, b: F, q: F, zero: F, one: F|
            {
                &&& #[trigger] arith::gives(arith, Op::Div(a, b), q)
                &&& #[trigger] arith::gives(arith, Op::Int(0), zero)
                &&& #[trigger] arith::gives(arith, Op::Int(1), one)
                &&& self.finite(a) && self.finite(b)
                &&& self.le(zero, a) && self.lt(zero, b)
            } ==> {
                &&& self.number(q)
                &&& self.le(zero, q)
                &&& self.le(one, q) <==> self.le(b, a)
                &&& self.le(q, one) <==> self.le(a, b)
            }
        &&& forall|a: F, c: F, b: F, q: F, p: F, zero: F|
            {
                &&& #[trigger] arith::gives(arith, Op::Div(a, b), q)
                &&& #[trigger] arith::gives(arith, Op::Div(c, b), p)
                &&& #[trigger] arith::gives(arith, Op::Int(0), zero)
                &&& self.finite(a) && self.finite(b) && self.finite(c)
                &&& self.le(zero, a) && self.le(a, c) && self.lt(zero, b)
            } ==> self.le(q, p)
    }

    /// Taking one away keeps the order. What is left is to zero as the quantity
    /// is to one.
    pub open spec fn has_sub<A: Fn(Op<F>) -> F>(self, arith: A) -> bool {
        &&& forall|a: F, one: F, d: F, zero: F|
            {
                &&& #[trigger] arith::gives(arith, Op::Sub(a, one), d)
                &&& #[trigger] arith::gives(arith, Op::Int(0), zero)
                &&& arith::gives(arith, Op::Int(1), one)
                &&& self.number(a)
            } ==> self.number(d) && (self.le(d, zero) <==> self.le(a, one))
        &&& forall|a: F, c: F, one: F, d: F, e: F|
            {
                &&& #[trigger] arith::gives(arith, Op::Sub(a, one), d)
                &&& #[trigger] arith::gives(arith, Op::Sub(c, one), e)
                &&& arith::gives(arith, Op::Int(1), one)
                &&& self.number(a) && self.number(c) && self.le(a, c)
            } ==> self.le(d, e)
    }

    /// Quantities are in order, and the operations go along with it.
    pub open spec fn suits<A: Fn(Op<F>) -> F>(self, arith: A) -> bool {
        &&& arith::consistent(arith)
        &&& self.is_order()
        &&& self.has_zero_one(arith)
        &&& self.has_min_max(arith)
        &&& self.has_div(arith)
        &&& self.has_sub(arith)
    }

    /// Products go along with the sign. What is no number stays none, and
    /// nothing times a finite quantity is nothing.
    pub open spec fn has_mul<A: Fn(Op<F>) -> F>(self, arith: A) -> bool {
        &&& forall|a: F, b: F, x: F, zero: F|
            {
                &&& #[trigger] arith::gives(arith, Op::Mul(a, b), x)
                &&& #[trigger] arith::gives(arith, Op::Int(0), zero)
                &&& self.finite(a) && self.finite(b)
                &&& self.le(zero, a) && self.le(zero, b)
            } ==> self.number(x) && self.le(zero, x)
        &&& forall|n: u64, a: F, b: F, x: F, zero: F|
            {
                &&& #[trigger] arith::gives(arith, Op::Int(n), a)
                &&& #[trigger] arith::gives(arith, Op::Mul(a, b), x)
                &&& #[trigger] arith::gives(arith, Op::Int(0), zero)
                &&& self.number(x)
            } ==> self.number(b) && (self.le(zero, b) ==> self.le(zero, x))
        &&& forall|zero: F, b: F, x: F|
            {
                &&& #[trigger] arith::gives(arith, Op::Mul(zero, b), x)
                &&& arith::gives(arith, Op::Int(0), zero)
                &&& self.finite(b)
            } ==> self.number(x) && self.same(x, zero)
    }

    /// Quotients go along with the sign, and those by a whole number other than
    /// zero are numbers. A part of a whole is no more than one.
    pub open spec fn has_share<A: Fn(Op<F>) -> F>(self, arith: A) -> bool {
        &&& forall|n: u64, a: F, b: F, q: F, zero: F|
            {
                &&& #[trigger] arith::gives(arith, Op::Int(n), b)
                &&& #[trigger] arith::gives(arith, Op::Div(a, b), q)
                &&& #[trigger] arith::gives(arith, Op::Int(0), zero)
                &&& self.number(a) && self.le(zero, a)
            } ==> {
                &&& n > 0 ==> self.number(q)
                &&& n > 0 && self.finite(a) ==> self.finite(q)
                &&& self.number(q) ==> self.le(zero, q)
            }
        &&& forall|a: F, b: F, q: F, zero: F, one: F|
            {
                &&& #[trigger] arith::gives(arith, Op::Div(a, b), q)
                &&& #[trigger] arith::gives(arith, Op::Int(0), zero)
                &&& #[trigger] arith::gives(arith, Op::Int(1), one)
                &&& self.finite(a) && self.number(b)
                &&& self.lt(zero, a) && self.le(a, b)
            } ==> self.number(q) && self.le(zero, q) && self.le(q, one)
    }

    /// Adding what is not less than zero makes nothing less, and adding nothing
    /// changes nothing.
    pub open spec fn has_add<A: Fn(Op<F>) -> F>(self, arith: A) -> bool {
        forall|a: F, b: F, s: F, zero: F|
            {
                &&& #[trigger] arith::gives(arith, Op::Add(a, b), s)
                &&& #[trigger] arith::gives(arith, Op::Int(0), zero)
                &&& self.number(a) && self.number(b)
                &&& self.le(zero, a) && self.le(zero, b)
            } ==> {
                &&& self.number(s)
                &&& self.le(a, s)
                &&& self.finite(a) && self.same(b, zero) ==> self.same(s, a)
            }
    }

    /// What a finite quantity leaves of one is finite.
    pub open spec fn has_rest<A: Fn(Op<F>) -> F>(self, arith: A) -> bool {
        forall|one: F, u: F, d: F| #[trigger]
            arith::gives(arith, Op::Sub(one, u), d) && arith::gives(arith, Op::Int(1), one) && self.finite(u)
                ==> self.finite(d)
    }

    /// The operations that costs are added up with go along with the sign.
    pub open spec fn suits_costs<A: Fn(Op<F>) -> F>(self, arith: A) -> bool {
        &&& self.has_mul(arith)
        &&& self.has_share(arith)
        &&& self.has_add(arith)
        &&& self.has_rest(arith)
    }
}

} // verus!
