//! The capabilities a scalar type declares: which arithmetic it is closed
//! under, and which laws that arithmetic obeys.
//!
//! The operators themselves are the ones of `std::ops`. Each capability adds
//! the identities the operators are measured against and the laws that tie
//! them together, so that a routine written once against a capability can be
//! reasoned about for every scalar that declares it.
use std::ops::Add;
use std::ops::Div;
use std::ops::Mul;
use std::ops::Neg;
use std::ops::Sub;
use vstd::prelude::*;
use vstd::std_specs::ops::AddSpec;
use vstd::std_specs::ops::DivSpec;
use vstd::std_specs::ops::MulSpec;
use vstd::std_specs::ops::NegSpec;
use vstd::std_specs::ops::SubSpec;

verus! {

/// A type closed under addition, subtraction and negation, whose addition is
/// associative and commutative.
pub trait AdditiveGroup: Add<Self, Output = Self> + Neg<Output = Self> + Sub<
    Self,
    Output = Self,
> + Sized {
    /// The additive identity.
    spec fn zero_spec() -> Self;

    /// The additive identity.
    fn zero() -> (r: Self)
        ensures
            r == Self::zero_spec(),
    ;

    /// Sums, differences and negations are defined on every operand, and the
    /// operators compute what their specifications say.
    proof fn additive_closed()
        ensures
            Self::obeys_add_spec(),
            Self::obeys_sub_spec(),
            Self::obeys_neg_spec(),
            forall|a: Self, b: Self| #[trigger] a.add_req(b),
            forall|a: Self, b: Self| #[trigger] a.sub_req(b),
            forall|a: Self| #[trigger] a.neg_req(),
    ;

    /// Addition is commutative and associative, zero is its identity,
    /// negation gives the inverse, and subtracting is adding the negation.
    proof fn additive_laws()
        ensures
            forall|a: Self, b: Self| #[trigger] a.add_spec(b) == b.add_spec(a),
            forall|a: Self, b: Self, c: Self| #[trigger]
                a.add_spec(b).add_spec(c) == a.add_spec(b.add_spec(c)),
            forall|a: Self| #[trigger] a.add_spec(Self::zero_spec()) == a,
            forall|a: Self| #[trigger] a.add_spec(a.neg_spec()) == Self::zero_spec(),
            forall|a: Self, b: Self| #[trigger] a.sub_spec(b) == a.add_spec(b.neg_spec()),
    ;
}

/// A type closed under multiplication and division. Division is defined
/// exactly when the divisor is invertible.
pub trait MultiplicativeGroup: Mul<Self, Output = Self> + Div<Self, Output = Self> + Sized {
    /// The multiplicative identity.
    spec fn one_spec() -> Self;

    /// Whether a value may stand as a divisor.
    spec fn invertible(self) -> bool;

    /// The multiplicative identity.
    fn one() -> (r: Self)
        ensures
            r == Self::one_spec(),
    ;

    /// Tests whether a value may stand as a divisor, so that a caller can
    /// guard a division.
    fn is_invertible(&self) -> (b: bool)
        ensures
            b == self.invertible(),
    ;

    /// Products are defined on every pair, quotients exactly on invertible
    /// divisors, and the operators compute what their specifications say.
    proof fn multiplicative_closed()
        ensures
            Self::obeys_mul_spec(),
            Self::obeys_div_spec(),
            forall|a: Self, b: Self| #[trigger] a.mul_req(b),
            forall|a: Self, b: Self| #[trigger] a.div_req(b) == b.invertible(),
    ;
}

/// An additive group with a multiplication that distributes over addition.
pub trait Ring: AdditiveGroup + Mul<Self, Output = Self> {
    /// Products are defined on every pair, and `*` computes what its
    /// specification says.
    proof fn ring_closed()
        ensures
            Self::obeys_mul_spec(),
            forall|a: Self, b: Self| #[trigger] a.mul_req(b),
    ;

    /// Multiplication distributes over addition from both sides.
    proof fn distributive_laws()
        ensures
            forall|a: Self, b: Self, c: Self| #[trigger]
                a.mul_spec(b.add_spec(c)) == a.mul_spec(b).add_spec(a.mul_spec(c)),
            forall|a: Self, b: Self, c: Self| #[trigger]
                a.add_spec(b).mul_spec(c) == a.mul_spec(c).add_spec(b.mul_spec(c)),
    ;
}

/// A ring with division, in which the additive identity is never a divisor.
pub trait Field: Ring + MultiplicativeGroup {
    /// Division by the additive identity is undefined.
    proof fn zero_not_invertible()
        ensures
            !Self::zero_spec().invertible(),
    ;
}

/// Text as contracts see it: a sequence of characters.
pub type Text = Seq<char>;

/// A field of real numbers, with what the algorithms need of the reals
/// beyond arithmetic: decimal literals, an order, square roots and decimal
/// text.
pub trait Real: Field + Copy {
    /// The value written `mantissa` times ten to the `exponent`.
    spec fn scientific_spec(mantissa: i32, exponent: i32) -> Self;

    /// The square root.
    spec fn sqrt_spec(self) -> Self;

    /// The strict order of the reals.
    spec fn lt_spec(self, other: Self) -> bool;

    /// The decimal text of a value.
    spec fn text_spec(self) -> Text;

    /// The value that a decimal text denotes, if it denotes one.
    spec fn parse_spec(text: Text) -> Option<Self>;

    /// The value written `mantissa` times ten to the `exponent`.
    fn scientific(mantissa: i32, exponent: i32) -> (r: Self)
        ensures
            r == Self::scientific_spec(mantissa, exponent),
    ;

    /// The square root.
    fn sqrt(self) -> (r: Self)
        ensures
            r == self.sqrt_spec(),
    ;

    /// Whether `self` is strictly below `other`.
    fn lt(&self, other: &Self) -> (b: bool)
        ensures
            b == self.lt_spec(*other),
    ;

    /// Whether two values are the same.
    fn equals(&self, other: &Self) -> (b: bool)
        ensures
            b == (*self == *other),
    ;

    /// Writes a value as decimal text.
    fn to_text(&self) -> (s: String)
        ensures
            s@ == self.text_spec(),
    ;

    /// Reads a value from decimal text.
    fn parse(text: &str) -> (r: Option<Self>)
        ensures
            r == Self::parse_spec(text@),
    ;

    /// Multiplication is commutative and associative with identity one,
    /// dividing by an invertible value undoes multiplying by it, every value
    /// but zero is invertible, a sum of two squares is never below zero and
    /// vanishes only when both squares do, and the square root of a product
    /// of two values, neither below zero, is the product of their square
    /// roots.
    proof fn real_laws()
        ensures
            forall|a: Self, b: Self| #[trigger] a.mul_spec(b) == b.mul_spec(a),
            forall|a: Self, b: Self, c: Self| #[trigger]
                a.mul_spec(b).mul_spec(c) == a.mul_spec(b.mul_spec(c)),
            forall|a: Self| #[trigger] a.mul_spec(Self::one_spec()) == a,
            forall|a: Self, b: Self|
                b.invertible() ==> #[trigger] a.mul_spec(b).div_spec(b) == a,
            forall|a: Self| a != Self::zero_spec() ==> #[trigger] a.invertible(),
            forall|a: Self, b: Self|
                #[trigger] a.mul_spec(a).add_spec(b.mul_spec(b)) == Self::zero_spec() ==> a
                    == Self::zero_spec() && b == Self::zero_spec(),
            forall|a: Self, b: Self|
                !(#[trigger] a.mul_spec(a).add_spec(b.mul_spec(b))).lt_spec(Self::zero_spec()),
            forall|a: Self, b: Self|
                !a.lt_spec(Self::zero_spec()) && !b.lt_spec(Self::zero_spec())
                    ==> #[trigger] a.mul_spec(b).sqrt_spec() == a.sqrt_spec().mul_spec(
                    b.sqrt_spec(),
                ),
    ;
}

/// An additive group that can be multiplied and divided by scalars of a
/// separate field `K`.
pub trait VectorSpace<K: Field>: AdditiveGroup + Mul<K, Output = Self> + Div<K, Output = Self> {
    /// Scaling is defined for every scalar, dividing exactly for invertible
    /// ones, and both operators compute what their specifications say.
    proof fn scalar_closed()
        ensures
            <Self as MulSpec<K>>::obeys_mul_spec(),
            <Self as DivSpec<K>>::obeys_div_spec(),
            forall|v: Self, k: K| #[trigger] MulSpec::<K>::mul_req(v, k),
            forall|v: Self, k: K| #[trigger] DivSpec::<K>::div_req(v, k) == k.invertible(),
    ;
}

/// A vector space over `K` with a multiplication of its own.
pub trait Algebra<K: Field>: VectorSpace<K> + Mul<Self, Output = Self> {
    /// Products are defined on every pair, and `*` computes what its
    /// specification says.
    proof fn algebra_closed()
        ensures
            <Self as MulSpec<Self>>::obeys_mul_spec(),
            forall|a: Self, b: Self| #[trigger] MulSpec::<Self>::mul_req(a, b),
    ;
}

/// In every additive group, the order of the summands does not matter.
pub proof fn lemma_add_commutes<C: AdditiveGroup>(a: C, b: C)
    ensures
        a.add_spec(b) == b.add_spec(a),
{
    C::additive_laws();
}

/// In every additive group, sums may be regrouped.
pub proof fn lemma_add_associates<C: AdditiveGroup>(a: C, b: C, c: C)
    ensures
        a.add_spec(b).add_spec(c) == a.add_spec(b.add_spec(c)),
{
    C::additive_laws();
}

/// Zero is neutral on both sides.
pub proof fn lemma_add_zero<C: AdditiveGroup>(a: C)
    ensures
        a.add_spec(C::zero_spec()) == a,
        C::zero_spec().add_spec(a) == a,
{
    C::additive_laws();
}

/// A value and its negation sum to zero, in either order.
pub proof fn lemma_add_neg<C: AdditiveGroup>(a: C)
    ensures
        a.add_spec(a.neg_spec()) == C::zero_spec(),
        a.neg_spec().add_spec(a) == C::zero_spec(),
{
    C::additive_laws();
}

/// Subtracting is adding the negation.
pub proof fn lemma_sub_is_add_neg<C: AdditiveGroup>(a: C, b: C)
    ensures
        a.sub_spec(b) == a.add_spec(b.neg_spec()),
{
    C::additive_laws();
}

/// Subtraction undoes addition: `(a + b) - b == a`.
pub proof fn lemma_add_then_sub<C: AdditiveGroup>(a: C, b: C)
    ensures
        a.add_spec(b).sub_spec(b) == a,
{
    lemma_sub_is_add_neg(a.add_spec(b), b);
    lemma_add_associates(a, b, b.neg_spec());
    lemma_add_neg(b);
    lemma_add_zero(a);
}

/// A common summand on the right can be cancelled.
pub proof fn lemma_add_cancel<C: AdditiveGroup>(a: C, b: C, c: C)
    requires
        a.add_spec(c) == b.add_spec(c),
    ensures
        a == b,
{
    lemma_add_then_sub(a, c);
    lemma_add_then_sub(b, c);
}

/// In every ring, a product with zero is zero.
pub proof fn lemma_mul_zero<C: Ring>(a: C)
    ensures
        a.mul_spec(C::zero_spec()) == C::zero_spec(),
        C::zero_spec().mul_spec(a) == C::zero_spec(),
{
    let zero = C::zero_spec();
    lemma_add_zero(zero);
    C::distributive_laws();
    assert(a.mul_spec(zero.add_spec(zero)) == a.mul_spec(zero).add_spec(a.mul_spec(zero)));
    lemma_add_zero(a.mul_spec(zero));
    lemma_add_cancel(a.mul_spec(zero), zero, a.mul_spec(zero));
    assert(zero.add_spec(zero).mul_spec(a) == zero.mul_spec(a).add_spec(zero.mul_spec(a)));
    lemma_add_zero(zero.mul_spec(a));
    lemma_add_cancel(zero.mul_spec(a), zero, zero.mul_spec(a));
}

/// Only the negation of a value sums with it to zero.
pub proof fn lemma_neg_unique<C: AdditiveGroup>(a: C, b: C)
    requires
        a.add_spec(b) == C::zero_spec(),
    ensures
        b == a.neg_spec(),
{
    lemma_add_zero(b);
    lemma_add_neg(a);
    lemma_add_associates(a.neg_spec(), a, b);
    lemma_add_zero(a.neg_spec());
}

/// The two middle summands of a sum of two sums may trade places:
/// `(p + q) + (r + s) == (p + r) + (q + s)`.
pub proof fn lemma_add_shuffle<C: AdditiveGroup>(p: C, q: C, r: C, s: C)
    ensures
        p.add_spec(q).add_spec(r.add_spec(s)) == p.add_spec(r).add_spec(q.add_spec(s)),
{
    lemma_add_associates(p, q, r.add_spec(s));
    lemma_add_associates(q, r, s);
    lemma_add_commutes(q, r);
    lemma_add_associates(r, q, s);
    lemma_add_associates(p, r, q.add_spec(s));
}

/// Negation distributes over a sum.
pub proof fn lemma_neg_add<C: AdditiveGroup>(a: C, b: C)
    ensures
        a.add_spec(b).neg_spec() == a.neg_spec().add_spec(b.neg_spec()),
{
    lemma_add_shuffle(a, b, a.neg_spec(), b.neg_spec());
    lemma_add_neg(a);
    lemma_add_neg(b);
    lemma_add_zero(C::zero_spec());
    lemma_neg_unique(a.add_spec(b), a.neg_spec().add_spec(b.neg_spec()));
}

/// A difference of sums is the sum of the differences:
/// `(p + q) - (r + s) == (p - r) + (q - s)`.
pub proof fn lemma_sub_shuffle<C: AdditiveGroup>(p: C, q: C, r: C, s: C)
    ensures
        p.add_spec(q).sub_spec(r.add_spec(s)) == p.sub_spec(r).add_spec(q.sub_spec(s)),
{
    lemma_sub_is_add_neg(p.add_spec(q), r.add_spec(s));
    lemma_neg_add(r, s);
    lemma_add_shuffle(p, q, r.neg_spec(), s.neg_spec());
    lemma_sub_is_add_neg(p, r);
    lemma_sub_is_add_neg(q, s);
}

/// In every ring, multiplication distributes over addition from both sides.
pub proof fn lemma_distributes<C: Ring>(a: C, b: C, c: C)
    ensures
        a.mul_spec(b.add_spec(c)) == a.mul_spec(b).add_spec(a.mul_spec(c)),
        a.add_spec(b).mul_spec(c) == a.mul_spec(c).add_spec(b.mul_spec(c)),
{
    C::distributive_laws();
}

/// Negating twice gives the value back.
pub proof fn lemma_neg_neg<C: AdditiveGroup>(a: C)
    ensures
        a.neg_spec().neg_spec() == a,
{
    lemma_add_neg(a);
    lemma_neg_unique(a.neg_spec(), a);
}

/// A negation may be pulled out of either factor of a product.
pub proof fn lemma_mul_neg<C: Ring>(a: C, b: C)
    ensures
        a.mul_spec(b.neg_spec()) == a.mul_spec(b).neg_spec(),
        a.neg_spec().mul_spec(b) == a.mul_spec(b).neg_spec(),
{
    lemma_distributes(a, b, b.neg_spec());
    lemma_distributes(a, a.neg_spec(), b);
    lemma_add_neg(a);
    lemma_add_neg(b);
    lemma_mul_zero(a);
    lemma_mul_zero(b);
    lemma_neg_unique(a.mul_spec(b), a.mul_spec(b.neg_spec()));
    lemma_neg_unique(a.mul_spec(b), a.neg_spec().mul_spec(b));
}

/// Multiplication from the right distributes over a difference.
pub proof fn lemma_sub_distributes<C: Ring>(a: C, b: C, c: C)
    ensures
        a.sub_spec(b).mul_spec(c) == a.mul_spec(c).sub_spec(b.mul_spec(c)),
{
    lemma_sub_is_add_neg(a, b);
    lemma_distributes(a, b.neg_spec(), c);
    lemma_mul_neg(b, c);
    lemma_sub_is_add_neg(a.mul_spec(c), b.mul_spec(c));
}

/// In the reals, the order of the factors does not matter.
pub proof fn lemma_mul_commutes<R: Real>(a: R, b: R)
    ensures
        a.mul_spec(b) == b.mul_spec(a),
{
    R::real_laws();
}

/// In the reals, products may be regrouped.
pub proof fn lemma_mul_associates<R: Real>(a: R, b: R, c: R)
    ensures
        a.mul_spec(b).mul_spec(c) == a.mul_spec(b.mul_spec(c)),
{
    R::real_laws();
}

/// In the reals, the last two factors of a product of three may trade
/// places: `(a * b) * c == (a * c) * b`.
pub proof fn lemma_mul_swap<R: Real>(a: R, b: R, c: R)
    ensures
        a.mul_spec(b).mul_spec(c) == a.mul_spec(c).mul_spec(b),
{
    lemma_mul_associates(a, b, c);
    lemma_mul_commutes(b, c);
    lemma_mul_associates(a, c, b);
}

/// In the reals, dividing by an invertible value undoes multiplying by it.
pub proof fn lemma_mul_then_div<R: Real>(a: R, b: R)
    requires
        b.invertible(),
    ensures
        a.mul_spec(b).div_spec(b) == a,
{
    R::real_laws();
}

/// In the reals, a sum of two squares is invertible unless both squares
/// are of zero.
pub proof fn lemma_squares_invertible<R: Real>(a: R, b: R)
    requires
        a != R::zero_spec() || b != R::zero_spec(),
    ensures
        a.mul_spec(a).add_spec(b.mul_spec(b)).invertible(),
{
    R::real_laws();
}

/// In the reals, the two middle factors of a product of two products may
/// trade places: `(a * b) * (c * d) == (a * c) * (b * d)`.
pub proof fn lemma_mul_shuffle<R: Real>(a: R, b: R, c: R, d: R)
    ensures
        a.mul_spec(b).mul_spec(c.mul_spec(d)) == a.mul_spec(c).mul_spec(b.mul_spec(d)),
{
    lemma_mul_associates(a, b, c.mul_spec(d));
    lemma_mul_associates(b, c, d);
    lemma_mul_commutes(b, c);
    lemma_mul_associates(c, b, d);
    lemma_mul_associates(a, c, b.mul_spec(d));
}

/// In the reals, a sum of two squares is not below zero.
pub proof fn lemma_squares_not_negative<R: Real>(a: R, b: R)
    ensures
        !a.mul_spec(a).add_spec(b.mul_spec(b)).lt_spec(R::zero_spec()),
{
    R::real_laws();
}

/// In the reals, the square root of a product of two values, neither below
/// zero, is the product of their square roots.
pub proof fn lemma_sqrt_of_product<R: Real>(a: R, b: R)
    requires
        !a.lt_spec(R::zero_spec()),
        !b.lt_spec(R::zero_spec()),
    ensures
        a.mul_spec(b).sqrt_spec() == a.sqrt_spec().mul_spec(b.sqrt_spec()),
{
    R::real_laws();
}

} // verus!
