//! What holds of work isolation, latency impact and work conservation.
//!
//! The laws are about quantities that are ordered, and about operations that
//! go along with the order.

use vstd::prelude::*;

use crate::arith::{self, Op};
use crate::order::Order;
use crate::study;

verus! {

/// Work isolation is never more than one, whatever it is taken of.
pub proof fn lemma_work_isol_at_most_one<F, A: Fn(Op<F>) -> F>(
    order: Order<F>,
    arith: A,
    rps: F,
    base_rps: F,
    x: F,
    zero: F,
    one: F,
)
    requires
        order.suits(arith),
        arith::gives(arith, Op::Int(0), zero),
        arith::gives(arith, Op::Int(1), one),
        study::is_work_isol(arith, rps, base_rps, x),
    ensures
        order.number(x),
        order.le(x, one),
{
    assert(order.finite(one));
}

/// Work isolation grows with the throughput, from zero to one. It is one if,
/// and only if, the throughput is no less than the baseline.
pub proof fn lemma_work_isol_grows<F, A: Fn(Op<F>) -> F>(
    order: Order<F>,
    arith: A,
    base_rps: F,
    a: F,
    b: F,
    x: F,
    y: F,
    zero: F,
    one: F,
)
    requires
        order.suits(arith),
        arith::gives(arith, Op::Int(0), zero),
        arith::gives(arith, Op::Int(1), one),
        order.finite(base_rps) && order.finite(a) && order.finite(b),
        order.lt(zero, base_rps),
        order.le(zero, a) && order.le(a, b),
        study::is_work_isol(arith, a, base_rps, x),
        study::is_work_isol(arith, b, base_rps, y),
    ensures
        order.le(zero, x),
        order.le(x, y),
        order.le(y, one),
        order.same(x, one) <==> order.le(base_rps, a),
{
    let (q, w) = choose|q: F, w: F|
        {
            &&& #[trigger] arith::gives(arith, Op::Div(a, base_rps), q)
            &&& #[trigger] arith::gives(arith, Op::Int(1), w)
            &&& arith::gives(arith, Op::Min(q, w), x)
        };
    let (p, v) = choose|p: F, v: F|
        {
            &&& #[trigger] arith::gives(arith, Op::Div(b, base_rps), p)
            &&& #[trigger] arith::gives(arith, Op::Int(1), v)
            &&& arith::gives(arith, Op::Min(p, v), y)
        };
    assert(w == one && v == one);
    assert(order.finite(zero) && order.finite(one));
    assert(order.number(zero) && order.number(one) && order.number(a) && order.number(b));
    assert(order.le(zero, b));
    assert(order.le(q, p));
    assert(arith::gives(arith, Op::Min(q, one), x));
    assert(arith::gives(arith, Op::Min(p, one), y));
    assert(order.le(x, q) && order.le(q, p) && order.le(x, p));
    assert(order.le(x, one));
    assert(order.le(one, one));
    assert(order.le(zero, q));
}

/// Latency impact is from zero to one, whatever it is taken of.
pub proof fn lemma_lat_impact_in_range<F, A: Fn(Op<F>) -> F>(
    order: Order<F>,
    arith: A,
    lat: F,
    base_lat: F,
    x: F,
    zero: F,
    one: F,
)
    requires
        order.suits(arith),
        arith::gives(arith, Op::Int(0), zero),
        arith::gives(arith, Op::Int(1), one),
        study::is_lat_impact(arith, lat, base_lat, x),
    ensures
        order.number(x),
        order.le(zero, x),
        order.le(x, one),
{
    let (q, w, d, z, m) = choose|q: F, w: F, d: F, z: F, m: F|
        {
            &&& #[trigger] arith::gives(arith, Op::Div(lat, base_lat), q)
            &&& #[trigger] arith::gives(arith, Op::Int(1), w)
            &&& #[trigger] arith::gives(arith, Op::Sub(q, w), d)
            &&& #[trigger] arith::gives(arith, Op::Int(0), z)
            &&& #[trigger] arith::gives(arith, Op::Max(d, z), m)
            &&& arith::gives(arith, Op::Min(m, w), x)
        };
    assert(w == one && z == zero);
    assert(order.finite(zero) && order.finite(one));
    assert(order.number(m) && order.le(zero, m));
    assert(arith::gives(arith, Op::Min(m, one), x));
    assert(order.le(zero, one));
}

/// Latency impact grows with the latency, from zero to one. It is zero if, and
/// only if, the latency is no more than the baseline.
pub proof fn lemma_lat_impact_grows<F, A: Fn(Op<F>) -> F>(
    order: Order<F>,
    arith: A,
    base_lat: F,
    a: F,
    b: F,
    x: F,
    y: F,
    zero: F,
    one: F,
)
    requires
        order.suits(arith),
        arith::gives(arith, Op::Int(0), zero),
        arith::gives(arith, Op::Int(1), one),
        order.finite(base_lat) && order.finite(a) && order.finite(b),
        order.lt(zero, base_lat),
        order.le(zero, a) && order.le(a, b),
        study::is_lat_impact(arith, a, base_lat, x),
        study::is_lat_impact(arith, b, base_lat, y),
    ensures
        order.le(zero, x),
        order.le(x, y),
        order.le(y, one),
        order.same(x, zero) <==> order.le(a, base_lat),
{
    lemma_lat_impact_in_range(order, arith, a, base_lat, x, zero, one);
    lemma_lat_impact_in_range(order, arith, b, base_lat, y, zero, one);
    let (q, w, d, z, m) = choose|q: F, w: F, d: F, z: F, m: F|
        {
            &&& #[trigger] arith::gives(arith, Op::Div(a, base_lat), q)
            &&& #[trigger] arith::gives(arith, Op::Int(1), w)
            &&& #[trigger] arith::gives(arith, Op::Sub(q, w), d)
            &&& #[trigger] arith::gives(arith, Op::Int(0), z)
            &&& #[trigger] arith::gives(arith, Op::Max(d, z), m)
            &&& arith::gives(arith, Op::Min(m, w), x)
        };
    let (p, v, e, u, l) = choose|p: F, v: F, e: F, u: F, l: F|
        {
            &&& #[trigger] arith::gives(arith, Op::Div(b, base_lat), p)
            &&& #[trigger] arith::gives(arith, Op::Int(1), v)
            &&& #[trigger] arith::gives(arith, Op::Sub(p, v), e)
            &&& #[trigger] arith::gives(arith, Op::Int(0), u)
            &&& #[trigger] arith::gives(arith, Op::Max(e, u), l)
            &&& arith::gives(arith, Op::Min(l, v), y)
        };
    assert(w == one && v == one && z == zero && u == zero);
    assert(order.finite(zero) && order.finite(one));
    assert(order.number(zero) && order.number(one) && order.number(a) && order.number(b));
    assert(order.le(zero, b));
    assert(order.number(q) && order.number(p) && order.le(q, p));
    assert(order.number(d) && order.number(e) && order.le(d, e));
    assert(arith::gives(arith, Op::Max(d, zero), m));
    assert(arith::gives(arith, Op::Max(e, zero), l));
    assert(order.le(e, l) && order.le(d, l) && order.le(zero, l));
    assert(order.le(m, l));
    assert(arith::gives(arith, Op::Min(m, one), x));
    assert(arith::gives(arith, Op::Min(l, one), y));
    assert(order.le(x, m) && order.le(x, l));
    assert(order.le(x, y));
    if order.le(a, base_lat) {
        assert(order.le(q, one));
        assert(order.le(d, zero));
        assert(order.le(zero, zero));
        assert(order.le(m, zero));
    }
    if order.same(x, zero) {
        assert(order.same(x, m)) by {
            if order.same(x, one) {
                assert(order.le(one, x) && order.le(x, zero));
                assert(order.le(one, zero));
            }
        }
        assert(order.le(m, x) && order.le(m, zero));
        assert(order.le(d, m) && order.le(d, zero));
        assert(order.le(q, one));
    }
}

/// `positive` tells whether a quantity is more than zero.
pub open spec fn tells_positive<F, P: Fn(F) -> bool>(order: Order<F>, positive: P, zero: F) -> bool {
    forall|x: F, b: bool| #[trigger] call_ensures(positive, (x,), b) ==> b == (order.number(x) && order.lt(zero, x))
}

/// The IO cost of what the hogs were kept from writing is not less than zero.
/// It may be no number, if they put out nothing to swap.
proof fn lemma_io_loss_sign<F, A: Fn(Op<F>) -> F>(
    order: Order<F>,
    arith: A,
    hog_io_usage: F,
    hog_bytes: u64,
    hog_lost_bytes: u64,
    x: F,
    zero: F,
)
    requires
        order.suits(arith),
        order.suits_costs(arith),
        arith::gives(arith, Op::Int(0), zero),
        study::is_io_loss(arith, hog_io_usage, hog_bytes, hog_lost_bytes, x),
        order.number(hog_io_usage) && order.le(zero, hog_io_usage),
    ensures
        order.number(x) ==> order.le(zero, x),
        hog_bytes > 0 && hog_lost_bytes == 0 && order.finite(hog_io_usage) ==> order.number(x) && order.same(x, zero),
{
    let (bytes, cost, lost) = choose|bytes: F, cost: F, lost: F|
        {
            &&& #[trigger] arith::gives(arith, Op::Int(hog_bytes), bytes)
            &&& #[trigger] arith::gives(arith, Op::Div(hog_io_usage, bytes), cost)
            &&& #[trigger] arith::gives(arith, Op::Int(hog_lost_bytes), lost)
            &&& arith::gives(arith, Op::Mul(lost, cost), x)
        };
    assert(order.number(cost) ==> order.le(zero, cost));
    if hog_bytes > 0 && hog_lost_bytes == 0 && order.finite(hog_io_usage) {
        assert(order.finite(cost));
        assert(lost == zero);
    }
}

/// Work conservation is from zero to one. It is zero if nothing was used. If
/// something was used, it is one when nothing was left, and when the hogs put
/// out something to swap and were kept from writing nothing.
pub proof fn lemma_work_csv<F, A: Fn(Op<F>) -> F, P: Fn(F) -> bool>(
    order: Order<F>,
    arith: A,
    positive: P,
    io_usage: F,
    io_unused: F,
    hog_io_usage: F,
    hog_bytes: u64,
    hog_lost_bytes: u64,
    hog_io_loss: F,
    x: F,
    zero: F,
    one: F,
)
    requires
        order.suits(arith),
        order.suits_costs(arith),
        tells_positive(order, positive, zero),
        arith::gives(arith, Op::Int(0), zero),
        arith::gives(arith, Op::Int(1), one),
        study::is_io_loss(arith, hog_io_usage, hog_bytes, hog_lost_bytes, hog_io_loss),
        study::is_work_csv(arith, positive, io_usage, io_unused, hog_io_loss, x),
        order.finite(io_usage),
        order.number(io_unused) && order.le(zero, io_unused),
        order.number(hog_io_usage) && order.le(zero, hog_io_usage),
    ensures
        order.le(zero, x) && order.le(x, one),
        !order.lt(zero, io_usage) ==> x == zero,
        order.lt(zero, io_usage) && order.same(io_unused, zero) ==> order.same(x, one),
        order.lt(zero, io_usage) && hog_bytes > 0 && hog_lost_bytes == 0 && order.finite(hog_io_usage) ==> order.same(
            x,
            one,
        ),
{
    assert(order.finite(zero) && order.finite(one));
    assert(order.number(zero) && order.number(one) && order.number(io_usage));
    assert(order.le(zero, zero) && order.le(zero, one));
    lemma_io_loss_sign(order, arith, hog_io_usage, hog_bytes, hog_lost_bytes, hog_io_loss, zero);
    if order.lt(zero, io_usage) {
        let (more, possible) = choose|more: F, possible: F|
            {
                &&& #[trigger] arith::gives(arith, Op::Min(io_unused, hog_io_loss), more)
                &&& #[trigger] arith::gives(arith, Op::Add(io_usage, more), possible)
                &&& arith::gives(arith, Op::Div(io_usage, possible), x)
            };
        assert(order.number(more) && order.le(zero, more) && order.le(more, io_unused));
        assert(order.number(possible) && order.le(io_usage, possible));
        if order.same(more, zero) {
            assert(order.same(possible, io_usage));
            assert(order.finite(possible));
            assert(order.lt(zero, possible));
            assert(order.le(one, x));
        }
        if order.same(io_unused, zero) {
            assert(order.le(more, zero));
        }
        if hog_bytes > 0 && hog_lost_bytes == 0 && order.finite(hog_io_usage) {
            assert(order.le(more, hog_io_loss) && order.le(hog_io_loss, zero));
            assert(order.le(more, zero));
        }
    }
}

} // verus!
