//! Complex numbers in Cartesian form over a field of reals.
use crate::algebra::lemma_add_shuffle;
use crate::algebra::lemma_add_zero;
use crate::algebra::lemma_distributes;
use crate::algebra::lemma_mul_zero;
use crate::algebra::lemma_sub_shuffle;
use crate::algebra::AdditiveGroup;
use crate::algebra::Algebra;
use crate::algebra::Field;
use crate::algebra::MultiplicativeGroup;
use crate::algebra::Real;
use crate::algebra::Ring;
use crate::algebra::VectorSpace;
use std::ops::Add;
use std::ops::Div;
use std::ops::Mul;
use std::ops::Neg;
use std::ops::Sub;
use vstd::prelude::*;
use vstd::std_specs::ops::AddSpec;
use vstd::std_specs::ops::DivSpec;
use vstd::std_specs::ops::MulSpec;
use vstd::std_specs::ops::NegSpec;
use vstd::std_specs::ops::SubSpec;

verus! {

/// The complex number `x + y i`.
#[derive(Debug)]
pub struct Complex<R> {
    pub x: R,
    pub y: R,
}

impl<R: Copy> Clone for Complex<R> {
    fn clone(&self) -> (r: Self)
        ensures
            r == *self,
    {
        *self
    }
}

impl<R: Copy> Copy for Complex<R> {

}

impl<R: Field + Copy> Complex<R> {
    /// The conjugate `x - y i`.
    pub open spec fn conj_spec(self) -> Complex<R> {
        Complex { x: self.x, y: self.y.neg_spec() }
    }

    /// The squared magnitude `x*x + y*y`.
    pub open spec fn norm_sqr_spec(self) -> R {
        self.x.mul_spec(self.x).add_spec(self.y.mul_spec(self.y))
    }

    /// The conjugate: the imaginary part negated.
    pub fn conj(&self) -> (r: Complex<R>)
        ensures
            r == self.conj_spec(),
    {
        proof {
            R::additive_closed();
        }
        Complex { x: self.x, y: self.y.neg() }
    }

    /// The squared magnitude `x*x + y*y`, the real number a complex divisor
    /// is divided through by.
    pub fn norm_sqr(&self) -> (r: R)
        ensures
            r == self.norm_sqr_spec(),
    {
        proof {
            R::additive_closed();
            R::ring_closed();
        }
        self.x * self.x + self.y * self.y
    }
}

impl<R: Real> Complex<R> {
    /// The magnitude, the square root of `x*x + y*y`.
    pub open spec fn abs_spec(self) -> R {
        self.norm_sqr_spec().sqrt_spec()
    }

    /// The magnitude, the square root of `x*x + y*y`.
    pub fn abs(&self) -> (r: R)
        ensures
            r == self.abs_spec(),
    {
        self.norm_sqr().sqrt()
    }
}

impl<R: Field + Copy> Add<Complex<R>> for Complex<R> {
    type Output = Complex<R>;

    fn add(self, z: Complex<R>) -> (r: Complex<R>) {
        proof {
            R::additive_closed();
        }
        Complex { x: self.x + z.x, y: self.y + z.y }
    }
}

impl<R: Field + Copy> vstd::std_specs::ops::AddSpecImpl<Complex<R>> for Complex<R> {
    open spec fn obeys_add_spec() -> bool {
        true
    }

    open spec fn add_req(self, z: Complex<R>) -> bool {
        true
    }

    /// Componentwise.
    open spec fn add_spec(self, z: Complex<R>) -> Complex<R> {
        Complex { x: self.x.add_spec(z.x), y: self.y.add_spec(z.y) }
    }
}

impl<R: Field + Copy> Neg for Complex<R> {
    type Output = Complex<R>;

    fn neg(self) -> (r: Complex<R>) {
        proof {
            R::additive_closed();
        }
        Complex { x: self.x.neg(), y: self.y.neg() }
    }
}

impl<R: Field + Copy> vstd::std_specs::ops::NegSpecImpl for Complex<R> {
    open spec fn obeys_neg_spec() -> bool {
        true
    }

    open spec fn neg_req(self) -> bool {
        true
    }

    /// Componentwise.
    open spec fn neg_spec(self) -> Complex<R> {
        Complex { x: self.x.neg_spec(), y: self.y.neg_spec() }
    }
}

impl<R: Field + Copy> Sub<Complex<R>> for Complex<R> {
    type Output = Complex<R>;

    fn sub(self, z: Complex<R>) -> (r: Complex<R>) {
        proof {
            R::additive_closed();
        }
        Complex { x: self.x - z.x, y: self.y - z.y }
    }
}

impl<R: Field + Copy> vstd::std_specs::ops::SubSpecImpl<Complex<R>> for Complex<R> {
    open spec fn obeys_sub_spec() -> bool {
        true
    }

    open spec fn sub_req(self, z: Complex<R>) -> bool {
        true
    }

    /// Componentwise.
    open spec fn sub_spec(self, z: Complex<R>) -> Complex<R> {
        Complex { x: self.x.sub_spec(z.x), y: self.y.sub_spec(z.y) }
    }
}

impl<R: Field + Copy> Mul<Complex<R>> for Complex<R> {
    type Output = Complex<R>;

    fn mul(self, z: Complex<R>) -> (r: Complex<R>) {
        proof {
            R::additive_closed();
            R::ring_closed();
        }
        Complex { x: self.x * z.x - self.y * z.y, y: self.x * z.y + self.y * z.x }
    }
}

impl<R: Field + Copy> vstd::std_specs::ops::MulSpecImpl<Complex<R>> for Complex<R> {
    open spec fn obeys_mul_spec() -> bool {
        true
    }

    open spec fn mul_req(self, z: Complex<R>) -> bool {
        true
    }

    /// `(a + b i)(c + d i) = (ac - bd) + (ad + bc) i`.
    open spec fn mul_spec(self, z: Complex<R>) -> Complex<R> {
        Complex {
            x: self.x.mul_spec(z.x).sub_spec(self.y.mul_spec(z.y)),
            y: self.x.mul_spec(z.y).add_spec(self.y.mul_spec(z.x)),
        }
    }
}

impl<R: Field + Copy> Mul<R> for Complex<R> {
    type Output = Complex<R>;

    fn mul(self, a: R) -> (r: Complex<R>) {
        proof {
            R::ring_closed();
        }
        Complex { x: self.x * a, y: self.y * a }
    }
}

impl<R: Field + Copy> vstd::std_specs::ops::MulSpecImpl<R> for Complex<R> {
    open spec fn obeys_mul_spec() -> bool {
        true
    }

    open spec fn mul_req(self, a: R) -> bool {
        true
    }

    /// Componentwise.
    open spec fn mul_spec(self, a: R) -> Complex<R> {
        Complex { x: self.x.mul_spec(a), y: self.y.mul_spec(a) }
    }
}

impl<R: Field + Copy> Div<R> for Complex<R> {
    type Output = Complex<R>;

    fn div(self, a: R) -> (r: Complex<R>) {
        proof {
            R::multiplicative_closed();
        }
        Complex { x: self.x / a, y: self.y / a }
    }
}

impl<R: Field + Copy> vstd::std_specs::ops::DivSpecImpl<R> for Complex<R> {
    open spec fn obeys_div_spec() -> bool {
        true
    }

    /// The real divisor has to be invertible.
    open spec fn div_req(self, a: R) -> bool {
        a.invertible()
    }

    /// Componentwise.
    open spec fn div_spec(self, a: R) -> Complex<R> {
        Complex { x: self.x.div_spec(a), y: self.y.div_spec(a) }
    }
}

impl<R: Field + Copy> Div<Complex<R>> for Complex<R> {
    type Output = Complex<R>;

    fn div(self, z: Complex<R>) -> (r: Complex<R>) {
        self * z.conj() / z.norm_sqr()
    }
}

impl<R: Field + Copy> vstd::std_specs::ops::DivSpecImpl<Complex<R>> for Complex<R> {
    open spec fn obeys_div_spec() -> bool {
        true
    }

    /// The squared magnitude of the divisor has to be invertible.
    open spec fn div_req(self, z: Complex<R>) -> bool {
        z.norm_sqr_spec().invertible()
    }

    /// `self * conj(z) / |z|^2`.
    open spec fn div_spec(self, z: Complex<R>) -> Complex<R> {
        DivSpec::<R>::div_spec(
            MulSpec::<Complex<R>>::mul_spec(self, z.conj_spec()),
            z.norm_sqr_spec(),
        )
    }
}

impl<R: Field + Copy> AdditiveGroup for Complex<R> {
    open spec fn zero_spec() -> Complex<R> {
        Complex { x: R::zero_spec(), y: R::zero_spec() }
    }

    fn zero() -> (r: Complex<R>) {
        Complex { x: R::zero(), y: R::zero() }
    }

    proof fn additive_closed() {
    }

    proof fn additive_laws() {
        R::additive_laws();
    }
}

impl<R: Field + Copy> MultiplicativeGroup for Complex<R> {
    open spec fn one_spec() -> Complex<R> {
        Complex { x: R::one_spec(), y: R::zero_spec() }
    }

    /// A complex number may stand as a divisor when its squared magnitude
    /// may.
    open spec fn invertible(self) -> bool {
        self.norm_sqr_spec().invertible()
    }

    fn one() -> (r: Complex<R>) {
        Complex { x: R::one(), y: R::zero() }
    }

    fn is_invertible(&self) -> (b: bool) {
        self.norm_sqr().is_invertible()
    }

    proof fn multiplicative_closed() {
    }
}

impl<R: Field + Copy> Ring for Complex<R> {
    proof fn ring_closed() {
    }

    proof fn distributive_laws() {
        assert forall|a: Complex<R>, b: Complex<R>, c: Complex<R>| #[trigger]
            a.mul_spec(b.add_spec(c)) == a.mul_spec(b).add_spec(a.mul_spec(c)) by {
            lemma_distributes_left(a, b, c);
        }
        assert forall|a: Complex<R>, b: Complex<R>, c: Complex<R>| #[trigger]
            a.add_spec(b).mul_spec(c) == a.mul_spec(c).add_spec(b.mul_spec(c)) by {
            lemma_distributes_right(a, b, c);
        }
    }
}

impl<R: Field + Copy> Field for Complex<R> {
    proof fn zero_not_invertible() {
        let zero = R::zero_spec();
        lemma_mul_zero(zero);
        lemma_add_zero(zero);
        R::zero_not_invertible();
    }
}

impl<R: Field + Copy> VectorSpace<R> for Complex<R> {
    proof fn scalar_closed() {
    }
}

impl<R: Field + Copy> Algebra<R> for Complex<R> {
    proof fn algebra_closed() {
    }
}

proof fn lemma_distributes_left<R: Field + Copy>(a: Complex<R>, b: Complex<R>, c: Complex<R>)
    ensures
        a.mul_spec(b.add_spec(c)) == a.mul_spec(b).add_spec(a.mul_spec(c)),
{
    lemma_distributes(a.x, b.x, c.x);
    lemma_distributes(a.y, b.y, c.y);
    lemma_sub_shuffle(
        a.x.mul_spec(b.x),
        a.x.mul_spec(c.x),
        a.y.mul_spec(b.y),
        a.y.mul_spec(c.y),
    );
    lemma_distributes(a.x, b.y, c.y);
    lemma_distributes(a.y, b.x, c.x);
    lemma_add_shuffle(
        a.x.mul_spec(b.y),
        a.x.mul_spec(c.y),
        a.y.mul_spec(b.x),
        a.y.mul_spec(c.x),
    );
}

proof fn lemma_distributes_right<R: Field + Copy>(a: Complex<R>, b: Complex<R>, c: Complex<R>)
    ensures
        a.add_spec(b).mul_spec(c) == a.mul_spec(c).add_spec(b.mul_spec(c)),
{
    lemma_distributes(a.x, b.x, c.x);
    lemma_distributes(a.y, b.y, c.y);
    lemma_sub_shuffle(
        a.x.mul_spec(c.x),
        b.x.mul_spec(c.x),
        a.y.mul_spec(c.y),
        b.y.mul_spec(c.y),
    );
    lemma_distributes(a.x, b.x, c.y);
    lemma_distributes(a.y, b.y, c.x);
    lemma_add_shuffle(
        a.x.mul_spec(c.y),
        b.x.mul_spec(c.y),
        a.y.mul_spec(c.x),
        b.y.mul_spec(c.x),
    );
}

} // verus!
