use idk::algebra::AdditiveGroup;
use idk::algebra::Field;
use idk::algebra::MultiplicativeGroup;
use idk::algebra::Real;
use idk::algebra::Ring;
use idk::algebra::Text;
use idk::complex::Complex;
use idk::dual::ComplexWithDerivative;
use idk::find_periodic_point;
use idk::iteration::mandelbrot_polynomial_basic;
use idk::mandelbrot_polynomial;
use idk::solver::SolveError;
use idk::solver::critical_orbit;
use idk::solver::periodic_point_at;
use std::ops::Add;
use std::ops::Div;
use std::ops::Mul;
use std::ops::Neg;
use std::ops::Sub;

#[derive(Clone, Copy, Debug, PartialEq, PartialOrd)]
struct F(f64);

impl Add for F {
    type Output = F;
    fn add(self, o: F) -> F {
        F(self.0 + o.0)
    }
}

impl Sub for F {
    type Output = F;
    fn sub(self, o: F) -> F {
        F(self.0 - o.0)
    }
}

impl Neg for F {
    type Output = F;
    fn neg(self) -> F {
        F(-self.0)
    }
}

impl Mul for F {
    type Output = F;
    fn mul(self, o: F) -> F {
        F(self.0 * o.0)
    }
}

impl Div for F {
    type Output = F;
    fn div(self, o: F) -> F {
        F(self.0 / o.0)
    }
}

// The ghost members of the capabilities are never run: the tests give them
// the bodies of their executable twins, or none.
impl AdditiveGroup for F {
    fn zero_spec() -> F {
        F(0.0)
    }
    fn zero() -> F {
        F(0.0)
    }
    fn additive_closed() {}
    fn additive_laws() {}
}

impl MultiplicativeGroup for F {
    fn one_spec() -> F {
        F(1.0)
    }
    fn invertible(self) -> bool {
        self.0 != 0.0
    }
    fn one() -> F {
        F(1.0)
    }
    fn is_invertible(&self) -> bool {
        self.0 != 0.0
    }
    fn multiplicative_closed() {}
}

impl Ring for F {
    fn ring_closed() {}
    fn distributive_laws() {}
}

impl Field for F {
    fn zero_not_invertible() {}
}

impl Real for F {
    fn scientific_spec(mantissa: i32, exponent: i32) -> F {
        F::scientific(mantissa, exponent)
    }
    fn sqrt_spec(self) -> F {
        self.sqrt()
    }
    fn lt_spec(self, other: F) -> bool {
        self.0 < other.0
    }
    fn text_spec(self) -> Text {
        unreachable!()
    }
    fn parse_spec(_text: Text) -> Option<F> {
        unreachable!()
    }
    fn scientific(mantissa: i32, exponent: i32) -> F {
        F(format!("{}e{}", mantissa, exponent).parse().unwrap())
    }
    fn sqrt(self) -> F {
        F(self.0.sqrt())
    }
    fn lt(&self, other: &F) -> bool {
        self.0 < other.0
    }
    fn equals(&self, other: &F) -> bool {
        self.0 == other.0
    }
    fn to_text(&self) -> String {
        format!("{}", self.0)
    }
    fn parse(text: &str) -> Option<F> {
        text.parse().ok().map(F)
    }
    fn real_laws() {}
}

fn c(x: f64, y: f64) -> Complex<F> {
    Complex { x: F(x), y: F(y) }
}

fn same(a: Complex<F>, b: Complex<F>) -> bool {
    a.x == b.x && a.y == b.y
}

#[test]
fn one_iteration_is_the_parameter() {
    assert_eq!(mandelbrot_polynomial(F(0.75), 1), F(0.75));
    assert!(same(mandelbrot_polynomial(c(0.3, -0.2), 1), c(0.3, -0.2)));
    let v = ComplexWithDerivative::variable(c(0.3, -0.2));
    let r = mandelbrot_polynomial(v, 1);
    assert!(same(r.value, c(0.3, -0.2)) && same(r.derivative, c(1.0, 0.0)));
}

#[test]
fn iterating_zero_stays_at_zero() {
    for n in 1..12 {
        assert_eq!(mandelbrot_polynomial(F(0.0), n), F(0.0));
        assert!(same(mandelbrot_polynomial(c(0.0, 0.0), n), c(0.0, 0.0)));
    }
}

#[test]
fn iteration_squares_and_adds() {
    assert_eq!(mandelbrot_polynomial(F(1.0), 2), F(2.0));
    assert_eq!(mandelbrot_polynomial(F(1.0), 3), F(5.0));
    assert_eq!(mandelbrot_polynomial(F(1.0), 4), F(26.0));
    // c = i: i, -1+i, -i, -1+i
    assert!(same(mandelbrot_polynomial(c(0.0, 1.0), 2), c(-1.0, 1.0)));
    assert!(same(mandelbrot_polynomial(c(0.0, 1.0), 3), c(0.0, -1.0)));
    assert!(same(mandelbrot_polynomial(c(0.0, 1.0), 4), c(-1.0, 1.0)));
}

#[test]
fn iteration_count_below_one_is_one() {
    assert_eq!(mandelbrot_polynomial(F(3.0), 0), F(3.0));
    assert_eq!(mandelbrot_polynomial(F(3.0), -4), F(3.0));
}

#[test]
fn iteration_in_parts_gives_the_real_part() {
    assert_eq!(mandelbrot_polynomial_basic(F(0.0), F(1.0), 1), F(0.0));
    assert_eq!(mandelbrot_polynomial_basic(F(0.0), F(1.0), 2), F(-1.0));
    assert_eq!(mandelbrot_polynomial_basic(F(0.0), F(1.0), 3), F(0.0));
    assert_eq!(mandelbrot_polynomial_basic(F(1.0), F(0.0), 4), F(26.0));
    for n in 1..8 {
        let z = mandelbrot_polynomial(c(-0.4, 0.3), n);
        assert_eq!(mandelbrot_polynomial_basic(F(-0.4), F(0.3), n), z.x);
    }
}

#[test]
fn iteration_over_dual_numbers_tracks_the_derivative() {
    for n in 1..6 {
        let at = c(-0.4, 0.3);
        let r = mandelbrot_polynomial(ComplexWithDerivative::variable(at), n);
        let (z, dz) = critical_orbit(at, n);
        assert!(same(r.value, z));
        assert!((r.derivative.x.0 - dz.x.0).abs() < 1e-12);
        assert!((r.derivative.y.0 - dz.y.0).abs() < 1e-12);
    }
}

#[test]
fn critical_orbit_with_derivative() {
    let (z, dz) = critical_orbit(c(1.0, 0.0), 1);
    assert!(same(z, c(1.0, 0.0)) && same(dz, c(1.0, 0.0)));
    let (z, dz) = critical_orbit(c(1.0, 0.0), 2);
    assert!(same(z, c(2.0, 0.0)) && same(dz, c(3.0, 0.0)));
    let (z, dz) = critical_orbit(c(1.0, 0.0), 3);
    assert!(same(z, c(5.0, 0.0)) && same(dz, c(13.0, 0.0)));
}

#[test]
fn solver_near_zero_period_one_is_zero() {
    let p = find_periodic_point(c(0.1, 0.05), 1).unwrap();
    assert!(same(p.position, c(0.0, 0.0)));
    assert!(same(p.scale, c(1.0, 0.0)));
    assert_eq!(p.period, 1);
}

#[test]
fn solver_near_minus_one_period_two() {
    let p = find_periodic_point(c(-0.9, 0.05), 2).unwrap();
    assert!((p.position.x.0 + 1.0).abs() < 1e-9);
    assert!(p.position.y.0.abs() < 1e-9);
    assert!((p.scale.x.0 - 0.5).abs() < 1e-9);
    assert!(p.scale.y.0.abs() < 1e-9);
    assert_eq!(p.period, 2);
}

#[test]
fn solver_period_three_on_the_real_axis() {
    let p = find_periodic_point(c(-1.7, 0.0), 3).unwrap();
    assert!((p.position.x.0 + 1.7548776662466927).abs() < 1e-12);
    assert_eq!(p.position.y, F(0.0));
    assert!((p.scale.x.0 - 0.01903551591313245).abs() < 1e-12);
    assert_eq!(p.period, 3);
}

#[test]
fn solver_escaping_start_finds_nothing() {
    assert_eq!(find_periodic_point(c(5.0, 0.0), 1).unwrap_err(), SolveError::Escaped);
    assert_eq!(find_periodic_point(c(5.0, 0.0), 2).unwrap_err(), SolveError::Escaped);
    assert_eq!(find_periodic_point(c(5.0, 0.0), 3).unwrap_err(), SolveError::Escaped);
    assert_eq!(find_periodic_point(c(5.0, 0.0), 7).unwrap_err(), SolveError::Escaped);
}

#[test]
fn solver_gives_up_after_the_cap() {
    assert_eq!(find_periodic_point(c(-1.6, 0.0), 8).unwrap_err(), SolveError::NotConverged);
}

#[test]
fn solver_reports_a_vanishing_derivative() {
    // period 2 at c = -1/2: dz = 2 c + 1 = 0
    assert_eq!(find_periodic_point(c(-0.5, 0.0), 2).unwrap_err(), SolveError::DivisionByZero);
}

#[test]
fn solver_has_no_point_of_period_below_one() {
    assert_eq!(find_periodic_point(c(0.1, 0.0), 0).unwrap_err(), SolveError::DivisionByZero);
    assert_eq!(find_periodic_point(c(0.1, 0.0), -3).unwrap_err(), SolveError::DivisionByZero);
    assert!(periodic_point_at(c(0.0, 0.0), 0).is_err());
}

#[test]
fn scale_at_a_known_centre() {
    let p = periodic_point_at(c(-1.0, 0.0), 2).unwrap();
    assert!(same(p.position, c(-1.0, 0.0)));
    assert!(same(p.scale, c(0.5, 0.0)));
    assert_eq!(p.period, 2);
    let q = periodic_point_at(c(0.0, 0.0), 1).unwrap();
    assert!(same(q.scale, c(1.0, 0.0)));
}

#[test]
fn solver_errors_have_messages() {
    assert_eq!(SolveError::Escaped.to_string(), "the critical orbit escaped");
    assert_eq!(SolveError::NotConverged.to_string(), "the iteration did not converge");
    assert_eq!(
        SolveError::DivisionByZero.to_string(),
        "a derivative that is divided by vanished"
    );
}
