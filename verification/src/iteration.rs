//! The quadratic map `z -> z*z + c`, applied a given number of times.
use crate::algebra::lemma_add_zero;
use crate::algebra::lemma_mul_zero;
use crate::algebra::AdditiveGroup;
use crate::algebra::Field;
use crate::algebra::Real;
use crate::algebra::Ring;
use vstd::prelude::*;
use vstd::std_specs::ops::AddSpec;
use vstd::std_specs::ops::MulSpec;
use vstd::std_specs::ops::SubSpec;

verus! {

/// The `n`-th iterate of the quadratic map at parameter `c`: the first
/// iterate is `c` itself, and each further one squares the previous and adds
/// `c`. A count below one stands for the first iterate.
pub open spec fn iterate<C: Field>(c: C, n: int) -> C
    decreases n,
{
    if n <= 1 {
        c
    } else {
        let z = iterate(c, n - 1);
        z.mul_spec(z).add_spec(c)
    }
}

/// Evaluates the `n`-th iterate of the quadratic map at `c`, over any field.
pub fn mandelbrot_polynomial<C: Copy + Field>(c: C, n: i32) -> (z: C)
    ensures
        z == iterate(c, n as int),
{
    proof {
        C::ring_closed();
        C::additive_closed();
    }
    let mut z = c;
    let mut k: i32 = 1;
    while k < n
        invariant
            1 <= k,
            k <= n || n < 1,
            z == iterate(c, if n < 1 { 1 } else { k as int }),
            C::obeys_mul_spec(),
            C::obeys_add_spec(),
            forall|a: C, b: C| #[trigger] a.mul_req(b),
            forall|a: C, b: C| #[trigger] a.add_req(b),
        decreases n - k,
    {
        z = z * z + c;
        k = k + 1;
    }
    z
}

/// One application of the map returns the parameter itself.
pub proof fn lemma_iterate_once<C: Field>(c: C)
    ensures
        iterate(c, 1) == c,
{
}

/// The orbit of zero never leaves zero.
pub proof fn lemma_iterate_zero<C: Field>(n: int)
    requires
        n >= 1,
    ensures
        iterate(C::zero_spec(), n) == C::zero_spec(),
    decreases n,
{
    if n > 1 {
        lemma_iterate_zero::<C>(n - 1);
        lemma_mul_zero(C::zero_spec());
        lemma_add_zero(C::zero_spec());
    }
}

/// The `n`-th iterate of the quadratic map at the parameter `cx + cy i`,
/// in real and imaginary parts: each step takes `(zx, zy)` to
/// `(zx*zx - zy*zy + cx, 2 zx zy + cy)`.
pub open spec fn iterate_parts<R: Real>(cx: R, cy: R, n: int) -> (R, R)
    decreases n,
{
    if n <= 1 {
        (cx, cy)
    } else {
        let (zx, zy) = iterate_parts(cx, cy, n - 1);
        (
            zx.mul_spec(zx).sub_spec(zy.mul_spec(zy)).add_spec(cx),
            R::scientific_spec(2i32, 0i32).mul_spec(zx).mul_spec(zy).add_spec(cy),
        )
    }
}

/// Evaluates the real part of the `n`-th iterate of the quadratic map at
/// `cx + cy i`, on real numbers alone.
pub fn mandelbrot_polynomial_basic<R: Real>(cx: R, cy: R, n: i32) -> (x: R)
    ensures
        x == iterate_parts(cx, cy, n as int).0,
{
    proof {
        R::ring_closed();
        R::additive_closed();
    }
    let two = R::scientific(2, 0);
    let mut zx = cx;
    let mut zy = cy;
    let mut k: i32 = 1;
    while k < n
        invariant
            1 <= k,
            k <= n || n < 1,
            two == R::scientific_spec(2i32, 0i32),
            (zx, zy) == iterate_parts(cx, cy, if n < 1 { 1 } else { k as int }),
            R::obeys_mul_spec(),
            R::obeys_add_spec(),
            R::obeys_sub_spec(),
            forall|a: R, b: R| #[trigger] a.mul_req(b),
            forall|a: R, b: R| #[trigger] a.add_req(b),
            forall|a: R, b: R| #[trigger] a.sub_req(b),
        decreases n - k,
    {
        let next = zx * zx - zy * zy + cx;
        zy = two * zx * zy + cy;
        zx = next;
        k = k + 1;
    }
    zx
}

} // verus!
