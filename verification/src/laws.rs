//! What holds of complex arithmetic over every field of reals.
use crate::algebra::lemma_add_commutes;
use crate::algebra::lemma_add_neg;
use crate::algebra::lemma_add_shuffle;
use crate::algebra::lemma_add_then_sub;
use crate::algebra::lemma_add_zero;
use crate::algebra::lemma_distributes;
use crate::algebra::lemma_mul_associates;
use crate::algebra::lemma_mul_commutes;
use crate::algebra::lemma_mul_neg;
use crate::algebra::lemma_mul_shuffle;
use crate::algebra::lemma_mul_swap;
use crate::algebra::lemma_mul_then_div;
use crate::algebra::lemma_neg_add;
use crate::algebra::lemma_neg_neg;
use crate::algebra::lemma_sqrt_of_product;
use crate::algebra::lemma_squares_invertible;
use crate::algebra::lemma_squares_not_negative;
use crate::algebra::lemma_sub_distributes;
use crate::algebra::lemma_sub_is_add_neg;
use crate::algebra::AdditiveGroup;
use crate::algebra::MultiplicativeGroup;
use crate::algebra::Real;
use crate::complex::Complex;
use vstd::prelude::*;
use vstd::std_specs::ops::AddSpec;
use vstd::std_specs::ops::DivSpec;
use vstd::std_specs::ops::MulSpec;
use vstd::std_specs::ops::NegSpec;
use vstd::std_specs::ops::SubSpec;

verus! {

/// Subtracting a complex number undoes adding it: `(a + b) - b == a`.
pub proof fn lemma_complex_add_then_sub<R: Real>(a: Complex<R>, b: Complex<R>)
    ensures
        a.add_spec(b).sub_spec(b) == a,
{
    lemma_add_then_sub(a, b);
}

/// The real part of `(a * b) * conj(b)` is the real part of `a` times the
/// squared magnitude of `b`.
proof fn lemma_product_with_conjugate_x<R: Real>(a: Complex<R>, b: Complex<R>)
    ensures
        MulSpec::<Complex<R>>::mul_spec(a.mul_spec(b), b.conj_spec()).x == a.x.mul_spec(
            b.norm_sqr_spec(),
        ),
{
    let p = a.mul_spec(b).x;
    let q = a.mul_spec(b).y;
    let m1 = a.x.mul_spec(b.x).mul_spec(b.x);
    let m2 = a.y.mul_spec(b.y).mul_spec(b.x);
    let m3 = a.x.mul_spec(b.y).mul_spec(b.y);
    let m4 = a.y.mul_spec(b.x).mul_spec(b.y);
    // p * bx - q * (-by) == p * bx + q * by
    lemma_mul_neg(q, b.y);
    lemma_sub_is_add_neg(p.mul_spec(b.x), q.mul_spec(b.y.neg_spec()));
    lemma_neg_neg(q.mul_spec(b.y));
    // p * bx == m1 - m2, q * by == m3 + m4
    lemma_sub_distributes(a.x.mul_spec(b.x), a.y.mul_spec(b.y), b.x);
    lemma_distributes(a.x.mul_spec(b.y), a.y.mul_spec(b.x), b.y);
    lemma_sub_is_add_neg(m1, m2);
    // (m1 + -m2) + (m3 + m4) == (m1 + m3) + (-m2 + m4), and m4 == m2
    lemma_add_shuffle(m1, m2.neg_spec(), m3, m4);
    lemma_mul_swap(a.y, b.y, b.x);
    lemma_add_neg(m2);
    lemma_add_zero(m1.add_spec(m3));
    // m1 + m3 == ax * (bx * bx + by * by)
    lemma_mul_associates(a.x, b.x, b.x);
    lemma_mul_associates(a.x, b.y, b.y);
    lemma_distributes(a.x, b.x.mul_spec(b.x), b.y.mul_spec(b.y));
}

/// The imaginary part of `(a * b) * conj(b)` is the imaginary part of `a`
/// times the squared magnitude of `b`.
proof fn lemma_product_with_conjugate_y<R: Real>(a: Complex<R>, b: Complex<R>)
    ensures
        MulSpec::<Complex<R>>::mul_spec(a.mul_spec(b), b.conj_spec()).y == a.y.mul_spec(
            b.norm_sqr_spec(),
        ),
{
    let p = a.mul_spec(b).x;
    let q = a.mul_spec(b).y;
    let n1 = a.x.mul_spec(b.x).mul_spec(b.y);
    let n2 = a.y.mul_spec(b.y).mul_spec(b.y);
    let n3 = a.x.mul_spec(b.y).mul_spec(b.x);
    let n4 = a.y.mul_spec(b.x).mul_spec(b.x);
    // p * (-by) == -(n1 - n2) == -n1 + n2
    lemma_mul_neg(p, b.y);
    lemma_sub_distributes(a.x.mul_spec(b.x), a.y.mul_spec(b.y), b.y);
    lemma_sub_is_add_neg(n1, n2);
    lemma_neg_add(n1, n2.neg_spec());
    lemma_neg_neg(n2);
    // q * bx == n3 + n4
    lemma_distributes(a.x.mul_spec(b.y), a.y.mul_spec(b.x), b.x);
    // (-n1 + n2) + (n3 + n4) == (-n1 + n3) + (n2 + n4), and n3 == n1
    lemma_add_shuffle(n1.neg_spec(), n2, n3, n4);
    lemma_mul_swap(a.x, b.y, b.x);
    lemma_add_neg(n1);
    lemma_add_zero(n2.add_spec(n4));
    // n2 + n4 == ay * (by * by + bx * bx) == ay * (bx * bx + by * by)
    lemma_mul_associates(a.y, b.y, b.y);
    lemma_mul_associates(a.y, b.x, b.x);
    lemma_distributes(a.y, b.y.mul_spec(b.y), b.x.mul_spec(b.x));
    lemma_add_commutes(b.y.mul_spec(b.y), b.x.mul_spec(b.x));
}

/// Every complex number but zero may stand as a divisor.
pub proof fn lemma_nonzero_invertible<R: Real>(b: Complex<R>)
    requires
        b != Complex::<R>::zero_spec(),
    ensures
        b.invertible(),
{
    lemma_squares_invertible(b.x, b.y);
}

/// Dividing by a complex number other than zero undoes multiplying by it:
/// `(a * b) / b == a`.
pub proof fn lemma_complex_mul_then_div<R: Real>(a: Complex<R>, b: Complex<R>)
    requires
        b != Complex::<R>::zero_spec(),
    ensures
        DivSpec::<Complex<R>>::div_req(a.mul_spec(b), b),
        DivSpec::<Complex<R>>::div_spec(a.mul_spec(b), b) == a,
{
    lemma_nonzero_invertible(b);
    lemma_product_with_conjugate_x(a, b);
    lemma_product_with_conjugate_y(a, b);
    lemma_mul_then_div(a.x, b.norm_sqr_spec());
    lemma_mul_then_div(a.y, b.norm_sqr_spec());
}

/// The square of a difference `u - v`, written out:
/// `(u*u + -(u*v)) + (-(u*v) + v*v)`.
proof fn lemma_square_of_difference<R: Real>(u: R, v: R)
    ensures
        u.sub_spec(v).mul_spec(u.sub_spec(v)) == u.mul_spec(u).add_spec(
            u.mul_spec(v).neg_spec(),
        ).add_spec(u.mul_spec(v).neg_spec().add_spec(v.mul_spec(v))),
{
    let p = u.sub_spec(v);
    lemma_sub_is_add_neg(u, v);
    lemma_distributes(u, v.neg_spec(), p);
    lemma_distributes(u, u, v.neg_spec());
    lemma_distributes(v.neg_spec(), u, v.neg_spec());
    lemma_mul_neg(u, v);
    lemma_mul_neg(v, u);
    lemma_mul_commutes(v, u);
    lemma_mul_neg(v.neg_spec(), v);
    lemma_mul_neg(v, v);
    lemma_neg_neg(v.mul_spec(v));
}

/// The square of a sum `w + t`, written out:
/// `(w*w + w*t) + (w*t + t*t)`.
proof fn lemma_square_of_sum<R: Real>(w: R, t: R)
    ensures
        w.add_spec(t).mul_spec(w.add_spec(t)) == w.mul_spec(w).add_spec(w.mul_spec(t)).add_spec(
            w.mul_spec(t).add_spec(t.mul_spec(t)),
        ),
{
    lemma_distributes(w, t, w.add_spec(t));
    lemma_distributes(w, w, t);
    lemma_distributes(t, w, t);
    lemma_mul_commutes(t, w);
}

/// The squared magnitude of a product is the product of the squared
/// magnitudes.
pub proof fn lemma_norm_sqr_of_product<R: Real>(a: Complex<R>, b: Complex<R>)
    ensures
        a.mul_spec(b).norm_sqr_spec() == a.norm_sqr_spec().mul_spec(b.norm_sqr_spec()),
{
    let u = a.x.mul_spec(b.x);
    let v = a.y.mul_spec(b.y);
    let w = a.x.mul_spec(b.y);
    let t = a.y.mul_spec(b.x);
    let k = u.mul_spec(v);
    let uu = u.mul_spec(u);
    let vv = v.mul_spec(v);
    let ww = w.mul_spec(w);
    let tt = t.mul_spec(t);
    lemma_square_of_difference(u, v);
    lemma_square_of_sum(w, t);
    // w * t == u * v
    lemma_mul_shuffle(a.x, b.x, a.y, b.y);
    lemma_mul_shuffle(a.x, b.y, a.y, b.x);
    lemma_mul_commutes(b.y, b.x);
    assert(w.mul_spec(t) == k);
    // the mixed terms cancel
    lemma_add_shuffle(uu.add_spec(k.neg_spec()), k.neg_spec().add_spec(vv), ww.add_spec(k), k.add_spec(tt));
    lemma_add_shuffle(uu, k.neg_spec(), ww, k);
    lemma_add_shuffle(k.neg_spec(), vv, k, tt);
    lemma_add_neg(k);
    lemma_add_zero(uu.add_spec(ww));
    lemma_add_zero(vv.add_spec(tt));
    assert(a.mul_spec(b).norm_sqr_spec() == uu.add_spec(ww).add_spec(vv.add_spec(tt)));
    // the product of the squared magnitudes, written out
    let ax2 = a.x.mul_spec(a.x);
    let ay2 = a.y.mul_spec(a.y);
    let bx2 = b.x.mul_spec(b.x);
    let by2 = b.y.mul_spec(b.y);
    lemma_distributes(ax2, ay2, bx2.add_spec(by2));
    lemma_distributes(ax2, bx2, by2);
    lemma_distributes(ay2, bx2, by2);
    lemma_mul_shuffle(a.x, b.x, a.x, b.x);
    lemma_mul_shuffle(a.x, b.y, a.x, b.y);
    lemma_mul_shuffle(a.y, b.x, a.y, b.x);
    lemma_mul_shuffle(a.y, b.y, a.y, b.y);
    lemma_add_commutes(tt, vv);
}

/// The magnitude of a product is the product of the magnitudes:
/// `|a * b| == |a| * |b|`.
pub proof fn lemma_abs_of_product<R: Real>(a: Complex<R>, b: Complex<R>)
    ensures
        a.mul_spec(b).abs_spec() == a.abs_spec().mul_spec(b.abs_spec()),
{
    lemma_norm_sqr_of_product(a, b);
    lemma_squares_not_negative(a.x, a.y);
    lemma_squares_not_negative(b.x, b.y);
    lemma_sqrt_of_product(a.norm_sqr_spec(), b.norm_sqr_spec());
}

} // verus!
