use idk::algebra::AdditiveGroup;
use idk::algebra::Field;
use idk::algebra::MultiplicativeGroup;
use idk::algebra::Real;
use idk::algebra::Ring;
use idk::algebra::Text;
use idk::complex::Complex;
use idk::dual::ComplexWithDerivative;
use idk::literal::ComplexParseError;
use idk::literal::complex_from_parts;
use idk::literal::decimal_text;
use idk::literal::same_text;
use std::ops::Add;
use std::ops::Div;
use std::ops::Mul;
use std::ops::Neg;
use std::ops::Sub;

#[derive(Clone, Copy, Debug, PartialEq, PartialOrd)]
struct F(f64);

impl Add for F {
    type Output = F;
    fn add(self, o: F) -> F {
        F(self.0 + o.0)
    }
}

impl Sub for F {
    type Output = F;
    fn sub(self, o: F) -> F {
        F(self.0 - o.0)
    }
}

impl Neg for F {
    type Output = F;
    fn neg(self) -> F {
        F(-self.0)
    }
}

impl Mul for F {
    type Output = F;
    fn mul(self, o: F) -> F {
        F(self.0 * o.0)
    }
}

impl Div for F {
    type Output = F;
    fn div(self, o: F) -> F {
        F(self.0 / o.0)
    }
}

// The ghost members of the capabilities are never run: the tests give them
// the bodies of their executable twins, or none.
impl AdditiveGroup for F {
    fn zero_spec() -> F {
        F(0.0)
    }
    fn zero() -> F {
        F(0.0)
    }
    fn additive_closed() {}
    fn additive_laws() {}
}

impl MultiplicativeGroup for F {
    fn one_spec() -> F {
        F(1.0)
    }
    fn invertible(self) -> bool {
        self.0 != 0.0
    }
    fn one() -> F {
        F(1.0)
    }
    fn is_invertible(&self) -> bool {
        self.0 != 0.0
    }
    fn multiplicative_closed() {}
}

impl Ring for F {
    fn ring_closed() {}
    fn distributive_laws() {}
}

impl Field for F {
    fn zero_not_invertible() {}
}

impl Real for F {
    fn scientific_spec(mantissa: i32, exponent: i32) -> F {
        F::scientific(mantissa, exponent)
    }
    fn sqrt_spec(self) -> F {
        self.sqrt()
    }
    fn lt_spec(self, other: F) -> bool {
        self.0 < other.0
    }
    fn text_spec(self) -> Text {
        unreachable!()
    }
    fn parse_spec(_text: Text) -> Option<F> {
        unreachable!()
    }
    fn scientific(mantissa: i32, exponent: i32) -> F {
        F(format!("{}e{}", mantissa, exponent).parse().unwrap())
    }
    fn sqrt(self) -> F {
        F(self.0.sqrt())
    }
    fn lt(&self, other: &F) -> bool {
        self.0 < other.0
    }
    fn equals(&self, other: &F) -> bool {
        self.0 == other.0
    }
    fn to_text(&self) -> String {
        format!("{}", self.0)
    }
    fn parse(text: &str) -> Option<F> {
        text.parse().ok().map(F)
    }
    fn real_laws() {}
}

fn c(x: f64, y: f64) -> Complex<F> {
    Complex { x: F(x), y: F(y) }
}

fn close(a: Complex<F>, b: Complex<F>) -> bool {
    (a.x.0 - b.x.0).abs() < 1e-12 && (a.y.0 - b.y.0).abs() < 1e-12
}

fn same(a: Complex<F>, b: Complex<F>) -> bool {
    a.x == b.x && a.y == b.y
}

#[test]
fn complex_add_is_componentwise() {
    assert!(same(c(1.0, 2.0) + c(3.0, -5.0), c(4.0, -3.0)));
}

#[test]
fn complex_sub_is_componentwise() {
    assert!(same(c(1.0, 2.0) - c(3.0, -5.0), c(-2.0, 7.0)));
}

#[test]
fn complex_neg_negates_both_parts() {
    assert!(same(-c(1.0, -2.0), c(-1.0, 2.0)));
}

#[test]
fn complex_mul_sums_both_cross_terms() {
    assert!(same(c(1.0, 2.0) * c(3.0, 4.0), c(-5.0, 10.0)));
    assert!(same(c(0.0, 1.0) * c(0.0, 1.0), c(-1.0, 0.0)));
    assert!(same(c(2.0, 3.0) * c(1.0, 0.0), c(2.0, 3.0)));
}

#[test]
fn complex_conj_negates_imaginary_part() {
    assert!(same(c(1.5, 2.0).conj(), c(1.5, -2.0)));
}

#[test]
fn complex_abs_is_magnitude() {
    assert_eq!(c(3.0, 4.0).abs(), F(5.0));
    assert_eq!(c(0.0, 0.0).abs(), F(0.0));
    assert_eq!(c(3.0, 4.0).norm_sqr(), F(25.0));
}

#[test]
fn complex_scales_by_a_real() {
    assert!(same(c(1.0, -2.0) * F(3.0), c(3.0, -6.0)));
    assert!(same(c(3.0, -6.0) / F(3.0), c(1.0, -2.0)));
}

#[test]
fn complex_div_multiplies_by_conjugate() {
    assert!(close(c(1.0, 2.0) / c(3.0, 4.0), c(0.44, 0.08)));
    assert!(same(c(4.0, 2.0) / c(2.0, 0.0), c(2.0, 1.0)));
    assert!(same(c(1.0, 0.0) / c(0.0, 1.0), c(0.0, -1.0)));
}

#[test]
fn complex_identities() {
    assert!(same(Complex::<F>::zero(), c(0.0, 0.0)));
    assert!(same(Complex::<F>::one(), c(1.0, 0.0)));
}

#[test]
fn complex_zero_is_no_divisor() {
    assert!(!c(0.0, 0.0).is_invertible());
    assert!(c(0.0, 1.0).is_invertible());
    assert!(c(1e-3, 0.0).is_invertible());
}

#[test]
fn addition_then_subtraction_gives_back() {
    let a = c(1.25, -3.5);
    let b = c(-7.0, 2.0);
    assert!(same((a + b) - b, a));
}

#[test]
fn multiplication_then_division_gives_back() {
    let a = c(1.25, -3.5);
    let b = c(-7.0, 2.0);
    assert!(close((a * b) / b, a));
    let b = c(0.3, 0.4);
    assert!(close((a * b) / b, a));
}

#[test]
fn magnitude_is_multiplicative() {
    let a = c(1.25, -3.5);
    let b = c(-7.0, 2.0);
    assert!(((a * b).abs().0 - a.abs().0 * b.abs().0).abs() < 1e-12);
    assert_eq!((c(3.0, 4.0) * c(0.0, 2.0)).abs(), F(10.0));
}

#[test]
fn writes_zero_and_units() {
    assert_eq!(c(0.0, 0.0).to_string(), "0");
    assert_eq!(c(0.0, 1.0).to_string(), "i");
    assert_eq!(c(0.0, -1.0).to_string(), "-i");
}

#[test]
fn writes_pure_numbers() {
    assert_eq!(c(3.0, 0.0).to_string(), "3");
    assert_eq!(c(-3.0, 0.0).to_string(), "-3");
    assert_eq!(c(0.0, 2.5).to_string(), "2.5i");
    assert_eq!(c(0.0, -4.0).to_string(), "-4i");
}

#[test]
fn writes_mixed_numbers_without_double_sign() {
    assert_eq!(c(2.0, 3.0).to_string(), "2+3i");
    assert_eq!(c(2.0, -3.0).to_string(), "2-3i");
    assert_eq!(c(-2.0, -0.5).to_string(), "-2-0.5i");
    assert_eq!(c(2.0, 1.0).to_string(), "2+1i");
    assert_eq!(c(2.0, -1.0).to_string(), "2-1i");
}

#[test]
fn reads_zero_and_units() {
    assert!(same(Complex::<F>::from_str("0").unwrap(), c(0.0, 0.0)));
    assert!(same(Complex::<F>::from_str("i").unwrap(), c(0.0, 1.0)));
    assert!(same(Complex::<F>::from_str("-i").unwrap(), c(0.0, -1.0)));
    assert!(same(Complex::<F>::from_str("+i").unwrap(), c(0.0, 1.0)));
}

#[test]
fn reads_real_numbers() {
    assert!(same(Complex::<F>::from_str("3").unwrap(), c(3.0, 0.0)));
    assert!(same(Complex::<F>::from_str("-2.5").unwrap(), c(-2.5, 0.0)));
    assert!(same(Complex::<F>::from_str("1e3").unwrap(), c(1000.0, 0.0)));
}

#[test]
fn reads_imaginary_numbers() {
    assert!(same(Complex::<F>::from_str("3i").unwrap(), c(0.0, 3.0)));
    assert!(same(Complex::<F>::from_str("-0.5i").unwrap(), c(0.0, -0.5)));
    assert!(same(Complex::<F>::from_str("2e3i").unwrap(), c(0.0, 2000.0)));
}

#[test]
fn reads_both_parts() {
    assert!(same(Complex::<F>::from_str("2+3i").unwrap(), c(2.0, 3.0)));
    assert!(same(Complex::<F>::from_str("2-3i").unwrap(), c(2.0, -3.0)));
    assert!(same(Complex::<F>::from_str("-2-0.5i").unwrap(), c(-2.0, -0.5)));
    assert!(same(Complex::<F>::from_str("3-i").unwrap(), c(3.0, -1.0)));
    assert!(same(Complex::<F>::from_str("3+i").unwrap(), c(3.0, 1.0)));
    assert!(same(Complex::<F>::from_str("1e2+3e-1i").unwrap(), c(100.0, 0.3)));
    assert!(same(Complex::<F>::from_str("+1.5-2e1i").unwrap(), c(1.5, -20.0)));
}

#[test]
fn rejects_malformed_literals() {
    assert_eq!(Complex::<F>::from_str("").unwrap_err(), ComplexParseError);
    assert_eq!(Complex::<F>::from_str("abc").unwrap_err(), ComplexParseError);
    assert_eq!(Complex::<F>::from_str("1+").unwrap_err(), ComplexParseError);
    assert_eq!(Complex::<F>::from_str("1+2j").unwrap_err(), ComplexParseError);
    assert_eq!(Complex::<F>::from_str("2 + 3i").unwrap_err(), ComplexParseError);
    assert_eq!(Complex::<F>::from_str("1+2+3i").unwrap_err(), ComplexParseError);
    assert_eq!(Complex::<F>::from_str(".i").unwrap_err(), ComplexParseError);
    assert_eq!(Complex::<F>::from_str("1..2+3i").unwrap_err(), ComplexParseError);
    assert_eq!(Complex::<F>::from_str("xi").unwrap_err(), ComplexParseError);
}

#[test]
fn parse_error_has_a_message() {
    assert_eq!(ComplexParseError.to_string(), "malformed complex literal");
}

#[test]
fn literals_round_trip() {
    let values = vec![
        c(0.0, 0.0),
        c(0.0, 1.0),
        c(0.0, -1.0),
        c(3.0, 0.0),
        c(-3.0, 0.0),
        c(2.0, 3.0),
        c(2.0, -3.0),
        c(-2.0, -0.5),
        c(2.0, 1.0),
        c(0.125, -1.0),
    ];
    for v in values {
        let text = v.to_string();
        assert!(same(Complex::<F>::from_str(&text).unwrap(), v));
    }
}

#[test]
fn parts_of_a_literal() {
    let both = complex_from_parts::<F>(&Some("2".to_string()), &Some("-3".to_string()));
    assert!(same(both.unwrap(), c(2.0, -3.0)));
    let sign = complex_from_parts::<F>(&None, &Some("-".to_string()));
    assert!(same(sign.unwrap(), c(0.0, -1.0)));
    let plus = complex_from_parts::<F>(&Some("1".to_string()), &Some("+".to_string()));
    assert!(same(plus.unwrap(), c(1.0, 1.0)));
    let none = complex_from_parts::<F>(&None, &None);
    assert!(same(none.unwrap(), c(0.0, 0.0)));
    let bad_real = complex_from_parts::<F>(&Some("x".to_string()), &Some("1".to_string()));
    assert_eq!(bad_real.unwrap_err(), ComplexParseError);
    let bad_imaginary = complex_from_parts::<F>(&Some("1".to_string()), &Some("".to_string()));
    assert_eq!(bad_imaginary.unwrap_err(), ComplexParseError);
}

#[test]
fn compares_texts() {
    assert!(same_text("-i", "-i"));
    assert!(!same_text("-i", "i"));
    assert!(!same_text("i", "j"));
    assert!(same_text("", ""));
}

#[test]
fn writes_decimals() {
    assert_eq!(decimal_text(0), "0");
    assert_eq!(decimal_text(7), "7");
    assert_eq!(decimal_text(10), "10");
    assert_eq!(decimal_text(12345), "12345");
}

fn d(value: Complex<F>, derivative: Complex<F>) -> ComplexWithDerivative<F> {
    ComplexWithDerivative { value, derivative }
}

fn same_dual(a: ComplexWithDerivative<F>, b: ComplexWithDerivative<F>) -> bool {
    same(a.value, b.value) && same(a.derivative, b.derivative)
}

#[test]
fn dual_constant_and_variable() {
    assert!(same_dual(ComplexWithDerivative::constant(c(2.0, 1.0)), d(c(2.0, 1.0), c(0.0, 0.0))));
    assert!(same_dual(ComplexWithDerivative::variable(c(2.0, 1.0)), d(c(2.0, 1.0), c(1.0, 0.0))));
}

#[test]
fn dual_sum_and_difference_are_linear() {
    let u = d(c(1.0, 2.0), c(3.0, 4.0));
    let v = d(c(0.5, -1.0), c(2.0, 0.0));
    assert!(same_dual(u + v, d(c(1.5, 1.0), c(5.0, 4.0))));
    assert!(same_dual(u - v, d(c(0.5, 3.0), c(1.0, 4.0))));
    assert!(same_dual(-u, d(c(-1.0, -2.0), c(-3.0, -4.0))));
}

#[test]
fn dual_product_rule() {
    let x = ComplexWithDerivative::variable(c(3.0, 0.0));
    assert!(same_dual(x * x, d(c(9.0, 0.0), c(6.0, 0.0))));
    let u = d(c(1.0, 1.0), c(2.0, 0.0));
    let v = d(c(0.0, 1.0), c(1.0, 1.0));
    // u v = (1+i) i = -1+i; du v + u dv = 2i + (1+i)(1+i) = 2i + 2i = 4i
    assert!(same_dual(u * v, d(c(-1.0, 1.0), c(0.0, 4.0))));
}

#[test]
fn dual_quotient_rule() {
    let one = ComplexWithDerivative::constant(c(1.0, 0.0));
    let x = ComplexWithDerivative::variable(c(2.0, 0.0));
    assert!(same_dual(one / x, d(c(0.5, 0.0), c(-0.25, 0.0))));
    assert!(same_dual((x * x) / x, d(c(2.0, 0.0), c(1.0, 0.0))));
}

#[test]
fn dual_scalars_are_constants() {
    let u = d(c(1.0, 2.0), c(3.0, 4.0));
    assert!(same_dual(u * F(2.0), d(c(2.0, 4.0), c(6.0, 8.0))));
    assert!(same_dual(u / F(2.0), d(c(0.5, 1.0), c(1.5, 2.0))));
    assert!(same_dual(u * c(0.0, 1.0), d(c(-2.0, 1.0), c(-4.0, 3.0))));
    assert!(same_dual(c(0.0, 1.0) * u, d(c(-2.0, 1.0), c(-4.0, 3.0))));
    assert!(same_dual(u / c(0.0, 1.0), d(c(2.0, -1.0), c(4.0, -3.0))));
}

#[test]
fn dual_identities_and_divisors() {
    assert!(same_dual(ComplexWithDerivative::<F>::zero(), d(c(0.0, 0.0), c(0.0, 0.0))));
    assert!(same_dual(ComplexWithDerivative::<F>::one(), d(c(1.0, 0.0), c(0.0, 0.0))));
    assert!(!d(c(0.0, 0.0), c(1.0, 0.0)).is_invertible());
    assert!(d(c(1.0, 0.0), c(0.0, 0.0)).is_invertible());
}
