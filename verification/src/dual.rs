//! Complex numbers that carry their derivative with respect to one outside
//! parameter through every arithmetic step.
use crate::algebra::lemma_add_shuffle;
use crate::algebra::lemma_distributes;
use crate::algebra::AdditiveGroup;
use crate::algebra::Algebra;
use crate::algebra::Field;
use crate::algebra::MultiplicativeGroup;
use crate::algebra::Ring;
use crate::algebra::VectorSpace;
use crate::complex::Complex;
use std::ops::Add;
use std::ops::Div;
use std::ops::Mul;
use std::ops::Neg;
use std::ops::Sub;
use vstd::prelude::*;
use vstd::std_specs::ops::AddSpec;
use vstd::std_specs::ops::DivSpec;
use vstd::std_specs::ops::MulSpec;
use vstd::std_specs::ops::NegSpec;
use vstd::std_specs::ops::SubSpec;

verus! {

/// A value together with its derivative with respect to a parameter that
/// the arithmetic does not name. Every operation propagates the derivative
/// by the rule of calculus that belongs to it.
#[derive(Debug)]
pub struct ComplexWithDerivative<R> {
    pub value: Complex<R>,
    pub derivative: Complex<R>,
}

impl<R: Copy> Clone for ComplexWithDerivative<R> {
    fn clone(&self) -> (r: Self)
        ensures
            r == *self,
    {
        *self
    }
}

impl<R: Copy> Copy for ComplexWithDerivative<R> {

}

impl<R: Field + Copy> ComplexWithDerivative<R> {
    /// A constant: its derivative is zero.
    pub fn constant(value: Complex<R>) -> (r: Self)
        ensures
            r.value == value,
            r.derivative == Complex::<R>::zero_spec(),
    {
        ComplexWithDerivative { value, derivative: Complex::zero() }
    }

    /// The parameter itself, at `value`: its derivative is one.
    pub fn variable(value: Complex<R>) -> (r: Self)
        ensures
            r.value == value,
            r.derivative == Complex::<R>::one_spec(),
    {
        ComplexWithDerivative { value, derivative: Complex::one() }
    }
}

impl<R: Field + Copy> Add<ComplexWithDerivative<R>> for ComplexWithDerivative<R> {
    type Output = ComplexWithDerivative<R>;

    fn add(self, b: ComplexWithDerivative<R>) -> (r: ComplexWithDerivative<R>) {
        ComplexWithDerivative {
            value: self.value + b.value,
            derivative: self.derivative + b.derivative,
        }
    }
}

impl<R: Field + Copy> vstd::std_specs::ops::AddSpecImpl<ComplexWithDerivative<R>> for ComplexWithDerivative<R> {
    open spec fn obeys_add_spec() -> bool {
        true
    }

    open spec fn add_req(self, b: ComplexWithDerivative<R>) -> bool {
        true
    }

    /// The derivative of a sum is the sum of the derivatives.
    open spec fn add_spec(self, b: ComplexWithDerivative<R>) -> ComplexWithDerivative<R> {
        ComplexWithDerivative {
            value: AddSpec::<Complex<R>>::add_spec(self.value, b.value),
            derivative: AddSpec::<Complex<R>>::add_spec(self.derivative, b.derivative),
        }
    }
}

impl<R: Field + Copy> Neg for ComplexWithDerivative<R> {
    type Output = ComplexWithDerivative<R>;

    fn neg(self) -> (r: ComplexWithDerivative<R>) {
        ComplexWithDerivative { value: self.value.neg(), derivative: self.derivative.neg() }
    }
}

impl<R: Field + Copy> vstd::std_specs::ops::NegSpecImpl for ComplexWithDerivative<R> {
    open spec fn obeys_neg_spec() -> bool {
        true
    }

    open spec fn neg_req(self) -> bool {
        true
    }

    /// Negation negates the value and the derivative.
    open spec fn neg_spec(self) -> ComplexWithDerivative<R> {
        ComplexWithDerivative {
            value: NegSpec::neg_spec(self.value),
            derivative: NegSpec::neg_spec(self.derivative),
        }
    }
}

impl<R: Field + Copy> Sub<ComplexWithDerivative<R>> for ComplexWithDerivative<R> {
    type Output = ComplexWithDerivative<R>;

    fn sub(self, b: ComplexWithDerivative<R>) -> (r: ComplexWithDerivative<R>) {
        ComplexWithDerivative {
            value: self.value - b.value,
            derivative: self.derivative - b.derivative,
        }
    }
}

impl<R: Field + Copy> vstd::std_specs::ops::SubSpecImpl<ComplexWithDerivative<R>> for ComplexWithDerivative<R> {
    open spec fn obeys_sub_spec() -> bool {
        true
    }

    open spec fn sub_req(self, b: ComplexWithDerivative<R>) -> bool {
        true
    }

    /// The derivative of a difference is the difference of the derivatives.
    open spec fn sub_spec(self, b: ComplexWithDerivative<R>) -> ComplexWithDerivative<R> {
        ComplexWithDerivative {
            value: SubSpec::<Complex<R>>::sub_spec(self.value, b.value),
            derivative: SubSpec::<Complex<R>>::sub_spec(self.derivative, b.derivative),
        }
    }
}

impl<R: Field + Copy> Mul<ComplexWithDerivative<R>> for ComplexWithDerivative<R> {
    type Output = ComplexWithDerivative<R>;

    fn mul(self, b: ComplexWithDerivative<R>) -> (r: ComplexWithDerivative<R>) {
        ComplexWithDerivative {
            value: self.value * b.value,
            derivative: self.derivative * b.value + self.value * b.derivative,
        }
    }
}

impl<R: Field + Copy> vstd::std_specs::ops::MulSpecImpl<ComplexWithDerivative<R>> for ComplexWithDerivative<R> {
    open spec fn obeys_mul_spec() -> bool {
        true
    }

    open spec fn mul_req(self, b: ComplexWithDerivative<R>) -> bool {
        true
    }

    /// The product rule: `d(uv) = du v + u dv`.
    open spec fn mul_spec(self, b: ComplexWithDerivative<R>) -> ComplexWithDerivative<R> {
        ComplexWithDerivative {
            value: MulSpec::<Complex<R>>::mul_spec(self.value, b.value),
            derivative: MulSpec::<Complex<R>>::mul_spec(self.derivative, b.value).add_spec(
                MulSpec::<Complex<R>>::mul_spec(self.value, b.derivative),
            ),
        }
    }
}

impl<R: Field + Copy> Div<ComplexWithDerivative<R>> for ComplexWithDerivative<R> {
    type Output = ComplexWithDerivative<R>;

    fn div(self, b: ComplexWithDerivative<R>) -> (r: ComplexWithDerivative<R>) {
        ComplexWithDerivative {
            value: self.value / b.value,
            derivative: (self.derivative * b.value - self.value * b.derivative) / (b.value
                * b.value),
        }
    }
}

impl<R: Field + Copy> vstd::std_specs::ops::DivSpecImpl<ComplexWithDerivative<R>> for ComplexWithDerivative<R> {
    open spec fn obeys_div_spec() -> bool {
        true
    }

    /// The divisor's value and the square of that value both have to be
    /// invertible.
    open spec fn div_req(self, b: ComplexWithDerivative<R>) -> bool {
        b.value.invertible() && MulSpec::<Complex<R>>::mul_spec(b.value, b.value).invertible()
    }

    /// The quotient rule: `d(u/v) = (du v - u dv) / v^2`.
    open spec fn div_spec(self, b: ComplexWithDerivative<R>) -> ComplexWithDerivative<R> {
        ComplexWithDerivative {
            value: DivSpec::<Complex<R>>::div_spec(self.value, b.value),
            derivative: DivSpec::<Complex<R>>::div_spec(
                MulSpec::<Complex<R>>::mul_spec(self.derivative, b.value).sub_spec(
                    MulSpec::<Complex<R>>::mul_spec(self.value, b.derivative),
                ),
                MulSpec::<Complex<R>>::mul_spec(b.value, b.value),
            ),
        }
    }
}

impl<R: Field + Copy> AdditiveGroup for ComplexWithDerivative<R> {
    open spec fn zero_spec() -> ComplexWithDerivative<R> {
        ComplexWithDerivative {
            value: Complex::<R>::zero_spec(),
            derivative: Complex::<R>::zero_spec(),
        }
    }

    fn zero() -> (r: ComplexWithDerivative<R>) {
        ComplexWithDerivative { value: Complex::zero(), derivative: Complex::zero() }
    }

    proof fn additive_closed() {
    }

    proof fn additive_laws() {
        Complex::<R>::additive_laws();
    }
}

impl<R: Field + Copy> MultiplicativeGroup for ComplexWithDerivative<R> {
    open spec fn one_spec() -> ComplexWithDerivative<R> {
        ComplexWithDerivative {
            value: Complex::<R>::one_spec(),
            derivative: Complex::<R>::zero_spec(),
        }
    }

    /// A dual number may stand as a divisor when its value and the square
    /// of its value may.
    open spec fn invertible(self) -> bool {
        self.value.invertible() && MulSpec::<Complex<R>>::mul_spec(
            self.value,
            self.value,
        ).invertible()
    }

    fn one() -> (r: ComplexWithDerivative<R>) {
        ComplexWithDerivative { value: Complex::one(), derivative: Complex::zero() }
    }

    fn is_invertible(&self) -> (b: bool) {
        self.value.is_invertible() && (self.value * self.value).is_invertible()
    }

    proof fn multiplicative_closed() {
    }
}

impl<R: Field + Copy> Ring for ComplexWithDerivative<R> {
    proof fn ring_closed() {
    }

    proof fn distributive_laws() {
        assert forall|
            a: ComplexWithDerivative<R>,
            b: ComplexWithDerivative<R>,
            c: ComplexWithDerivative<R>,
        | #[trigger]
            a.mul_spec(b.add_spec(c)) == a.mul_spec(b).add_spec(a.mul_spec(c)) by {
            lemma_distributes(a.value, b.value, c.value);
            lemma_distributes(a.derivative, b.value, c.value);
            lemma_distributes(a.value, b.derivative, c.derivative);
            lemma_add_shuffle(
                MulSpec::<Complex<R>>::mul_spec(a.derivative, b.value),
                MulSpec::<Complex<R>>::mul_spec(a.derivative, c.value),
                MulSpec::<Complex<R>>::mul_spec(a.value, b.derivative),
                MulSpec::<Complex<R>>::mul_spec(a.value, c.derivative),
            );
        }
        assert forall|
            a: ComplexWithDerivative<R>,
            b: ComplexWithDerivative<R>,
            c: ComplexWithDerivative<R>,
        | #[trigger]
            a.add_spec(b).mul_spec(c) == a.mul_spec(c).add_spec(b.mul_spec(c)) by {
            lemma_distributes(a.value, b.value, c.value);
            lemma_distributes(a.derivative, b.derivative, c.value);
            lemma_distributes(a.value, b.value, c.derivative);
            lemma_add_shuffle(
                MulSpec::<Complex<R>>::mul_spec(a.derivative, c.value),
                MulSpec::<Complex<R>>::mul_spec(b.derivative, c.value),
                MulSpec::<Complex<R>>::mul_spec(a.value, c.derivative),
                MulSpec::<Complex<R>>::mul_spec(b.value, c.derivative),
            );
        }
    }
}

impl<R: Field + Copy> Field for ComplexWithDerivative<R> {
    proof fn zero_not_invertible() {
        Complex::<R>::zero_not_invertible();
    }
}

impl<R: Field + Copy> Mul<R> for ComplexWithDerivative<R> {
    type Output = ComplexWithDerivative<R>;

    fn mul(self, b: R) -> (r: ComplexWithDerivative<R>) {
        ComplexWithDerivative { value: self.value * b, derivative: self.derivative * b }
    }
}

impl<R: Field + Copy> vstd::std_specs::ops::MulSpecImpl<R> for ComplexWithDerivative<R> {
    open spec fn obeys_mul_spec() -> bool {
        true
    }

    open spec fn mul_req(self, b: R) -> bool {
        true
    }

    /// A real factor is a constant: it scales the value and the derivative.
    open spec fn mul_spec(self, b: R) -> ComplexWithDerivative<R> {
        ComplexWithDerivative {
            value: MulSpec::<R>::mul_spec(self.value, b),
            derivative: MulSpec::<R>::mul_spec(self.derivative, b),
        }
    }
}

impl<R: Field + Copy> Mul<Complex<R>> for ComplexWithDerivative<R> {
    type Output = ComplexWithDerivative<R>;

    fn mul(self, b: Complex<R>) -> (r: ComplexWithDerivative<R>) {
        ComplexWithDerivative { value: self.value * b, derivative: self.derivative * b }
    }
}

impl<R: Field + Copy> vstd::std_specs::ops::MulSpecImpl<Complex<R>> for ComplexWithDerivative<R> {
    open spec fn obeys_mul_spec() -> bool {
        true
    }

    open spec fn mul_req(self, b: Complex<R>) -> bool {
        true
    }

    /// A complex factor is a constant: it scales the value and the
    /// derivative.
    open spec fn mul_spec(self, b: Complex<R>) -> ComplexWithDerivative<R> {
        ComplexWithDerivative {
            value: MulSpec::<Complex<R>>::mul_spec(self.value, b),
            derivative: MulSpec::<Complex<R>>::mul_spec(self.derivative, b),
        }
    }
}

impl<R: Field + Copy> Mul<ComplexWithDerivative<R>> for Complex<R> {
    type Output = ComplexWithDerivative<R>;

    fn mul(self, b: ComplexWithDerivative<R>) -> (r: ComplexWithDerivative<R>) {
        ComplexWithDerivative { value: self * b.value, derivative: self * b.derivative }
    }
}

impl<R: Field + Copy> vstd::std_specs::ops::MulSpecImpl<ComplexWithDerivative<R>> for Complex<R> {
    open spec fn obeys_mul_spec() -> bool {
        true
    }

    open spec fn mul_req(self, b: ComplexWithDerivative<R>) -> bool {
        true
    }

    /// A constant on the left scales the value and the derivative.
    open spec fn mul_spec(self, b: ComplexWithDerivative<R>) -> ComplexWithDerivative<R> {
        ComplexWithDerivative {
            value: MulSpec::<Complex<R>>::mul_spec(self, b.value),
            derivative: MulSpec::<Complex<R>>::mul_spec(self, b.derivative),
        }
    }
}

impl<R: Field + Copy> Div<R> for ComplexWithDerivative<R> {
    type Output = ComplexWithDerivative<R>;

    fn div(self, b: R) -> (r: ComplexWithDerivative<R>) {
        ComplexWithDerivative { value: self.value / b, derivative: self.derivative / b }
    }
}

impl<R: Field + Copy> vstd::std_specs::ops::DivSpecImpl<R> for ComplexWithDerivative<R> {
    open spec fn obeys_div_spec() -> bool {
        true
    }

    /// The real divisor has to be invertible.
    open spec fn div_req(self, b: R) -> bool {
        b.invertible()
    }

    /// A real divisor is a constant: it divides the value and the
    /// derivative.
    open spec fn div_spec(self, b: R) -> ComplexWithDerivative<R> {
        ComplexWithDerivative {
            value: DivSpec::<R>::div_spec(self.value, b),
            derivative: DivSpec::<R>::div_spec(self.derivative, b),
        }
    }
}

impl<R: Field + Copy> Div<Complex<R>> for ComplexWithDerivative<R> {
    type Output = ComplexWithDerivative<R>;

    fn div(self, b: Complex<R>) -> (r: ComplexWithDerivative<R>) {
        ComplexWithDerivative { value: self.value / b, derivative: self.derivative / b }
    }
}

impl<R: Field + Copy> vstd::std_specs::ops::DivSpecImpl<Complex<R>> for ComplexWithDerivative<R> {
    open spec fn obeys_div_spec() -> bool {
        true
    }

    /// The complex divisor has to be invertible.
    open spec fn div_req(self, b: Complex<R>) -> bool {
        b.invertible()
    }

    /// A complex divisor is a constant: it divides the value and the
    /// derivative.
    open spec fn div_spec(self, b: Complex<R>) -> ComplexWithDerivative<R> {
        ComplexWithDerivative {
            value: DivSpec::<Complex<R>>::div_spec(self.value, b),
            derivative: DivSpec::<Complex<R>>::div_spec(self.derivative, b),
        }
    }
}

impl<R: Field + Copy> VectorSpace<R> for ComplexWithDerivative<R> {
    proof fn scalar_closed() {
    }
}

impl<R: Field + Copy> VectorSpace<Complex<R>> for ComplexWithDerivative<R> {
    proof fn scalar_closed() {
    }
}

impl<R: Field + Copy> Algebra<R> for ComplexWithDerivative<R> {
    proof fn algebra_closed() {
    }
}

impl<R: Field + Copy> Algebra<Complex<R>> for ComplexWithDerivative<R> {
    proof fn algebra_closed() {
    }
}

} // verus!
