use idk::algebra::AdditiveGroup;
use idk::algebra::Field;
use idk::algebra::MultiplicativeGroup;
use idk::algebra::Real;
use idk::algebra::Ring;
use idk::algebra::Text;
use idk::complex::Complex;
use idk::formula::render_formula;
use idk::get_all_binom_coefficients;
use idk::get_binom_coefficients;
use idk::series::SeriesError;
use idk::solver::PeriodicPoint;
use std::ops::Add;
use std::ops::Div;
use std::ops::Mul;
use std::ops::Neg;
use std::ops::Sub;

#[derive(Clone, Copy, Debug, PartialEq, PartialOrd)]
struct F(f64);

impl Add for F {
    type Output = F;
    fn add(self, o: F) -> F {
        F(self.0 + o.0)
    }
}

impl Sub for F {
    type Output = F;
    fn sub(self, o: F) -> F {
        F(self.0 - o.0)
    }
}

impl Neg for F {
    type Output = F;
    fn neg(self) -> F {
        F(-self.0)
    }
}

impl Mul for F {
    type Output = F;
    fn mul(self, o: F) -> F {
        F(self.0 * o.0)
    }
}

impl Div for F {
    type Output = F;
    fn div(self, o: F) -> F {
        F(self.0 / o.0)
    }
}

// The ghost members of the capabilities are never run: the tests give them
// the bodies of their executable twins, or none.
impl AdditiveGroup for F {
    fn zero_spec() -> F {
        F(0.0)
    }
    fn zero() -> F {
        F(0.0)
    }
    fn additive_closed() {}
    fn additive_laws() {}
}

impl MultiplicativeGroup for F {
    fn one_spec() -> F {
        F(1.0)
    }
    fn invertible(self) -> bool {
        self.0 != 0.0
    }
    fn one() -> F {
        F(1.0)
    }
    fn is_invertible(&self) -> bool {
        self.0 != 0.0
    }
    fn multiplicative_closed() {}
}

impl Ring for F {
    fn ring_closed() {}
    fn distributive_laws() {}
}

impl Field for F {
    fn zero_not_invertible() {}
}

impl Real for F {
    fn scientific_spec(mantissa: i32, exponent: i32) -> F {
        F::scientific(mantissa, exponent)
    }
    fn sqrt_spec(self) -> F {
        self.sqrt()
    }
    fn lt_spec(self, other: F) -> bool {
        self.0 < other.0
    }
    fn text_spec(self) -> Text {
        unreachable!()
    }
    fn parse_spec(_text: Text) -> Option<F> {
        unreachable!()
    }
    fn scientific(mantissa: i32, exponent: i32) -> F {
        F(format!("{}e{}", mantissa, exponent).parse().unwrap())
    }
    fn sqrt(self) -> F {
        F(self.0.sqrt())
    }
    fn lt(&self, other: &F) -> bool {
        self.0 < other.0
    }
    fn equals(&self, other: &F) -> bool {
        self.0 == other.0
    }
    fn to_text(&self) -> String {
        format!("{}", self.0)
    }
    fn parse(text: &str) -> Option<F> {
        text.parse().ok().map(F)
    }
    fn real_laws() {}
}

fn c(x: f64, y: f64) -> Complex<F> {
    Complex { x: F(x), y: F(y) }
}

fn same(a: Complex<F>, b: Complex<F>) -> bool {
    a.x == b.x && a.y == b.y
}

fn point(x: f64, y: f64, period: i32) -> PeriodicPoint<F> {
    PeriodicPoint { position: c(x, y), scale: c(1.0, 0.0), period }
}

fn same_grid(g: &Vec<Vec<Complex<F>>>, expected: &Vec<Vec<f64>>) -> bool {
    g.len() == expected.len()
        && g.iter().zip(expected.iter()).all(|(row, want)| {
            row.len() == want.len()
                && row.iter().zip(want.iter()).all(|(z, x)| z.x.0 == *x && z.y.0 == 0.0)
        })
}

#[test]
fn binomial_rows() {
    assert_eq!(get_binom_coefficients(0), vec![1]);
    assert_eq!(get_binom_coefficients(1), vec![1, 1]);
    assert_eq!(get_binom_coefficients(4), vec![1, 4, 6, 4, 1]);
    assert_eq!(get_binom_coefficients(6), vec![1, 6, 15, 20, 15, 6, 1]);
}

#[test]
fn binomial_last_row_fits() {
    let row = get_binom_coefficients(33);
    assert_eq!(row.len(), 34);
    assert_eq!(row[0], 1);
    assert_eq!(row[1], 33);
    assert_eq!(row[16], 1166803110);
    assert_eq!(row[17], 1166803110);
    assert_eq!(row[33], 1);
}

#[test]
fn binomial_triangle() {
    assert_eq!(get_all_binom_coefficients(0), vec![vec![1]]);
    assert_eq!(
        get_all_binom_coefficients(3),
        vec![vec![1], vec![1, 1], vec![1, 2, 1], vec![1, 3, 3, 1]]
    );
    let all = get_all_binom_coefficients(33);
    assert_eq!(all.len(), 34);
    for i in 1..34 {
        assert_eq!(all[i].len(), i + 1);
        for k in 1..i {
            assert_eq!(all[i][k], all[i - 1][k - 1] + all[i - 1][k]);
        }
    }
}

#[test]
fn first_order_series_is_the_identity_in_z() {
    let g = point(0.0, 0.0, 1).get_formula_coefficients(1).unwrap();
    assert!(same_grid(&g, &vec![vec![0.0, 1.0], vec![0.0, 0.0]]));
    assert_eq!(render_formula(&g, 1), "0+(1)z");
    let g = point(-1.0, 0.0, 2).get_formula_coefficients(1).unwrap();
    assert!(same_grid(&g, &vec![vec![0.0, 1.0], vec![0.0, 0.0]]));
    assert!(same(g[0][1], c(1.0, 0.0)));
    assert_eq!(render_formula(&g, 1), "0+(1)z");
}

#[test]
fn second_order_series_of_period_two() {
    let g = point(-1.0, 0.0, 2).get_formula_coefficients(2).unwrap();
    let expected = vec![
        vec![0.0, 1.0, -0.125],
        vec![0.0, -0.25, 0.0],
        vec![-0.125, 0.0, 0.0],
    ];
    assert!(same_grid(&g, &expected));
    assert_eq!(render_formula(&g, 2), "0+(1)z+(-0.125)z^2+(-0.25)cz+(-0.125)c^2");
}

#[test]
fn third_order_series_of_period_two() {
    let g = point(-1.0, 0.0, 2).get_formula_coefficients(3).unwrap();
    let expected = vec![
        vec![0.0, 1.0, -0.125, 0.0],
        vec![0.0, -0.25, 0.0, 0.0],
        vec![-0.125, 0.0, 0.0, 0.0],
        vec![0.0, 0.0, 0.0, 0.0],
    ];
    assert!(same_grid(&g, &expected));
    assert_eq!(render_formula(&g, 3), "0+(1)z+(-0.125)z^2+(-0.25)cz+(-0.125)c^2");
}

#[test]
fn series_of_period_one_is_the_seed() {
    let g = point(0.0, 0.0, 1).get_formula_coefficients(3).unwrap();
    assert_eq!(g.len(), 4);
    for i in 0..4 {
        assert_eq!(g[i].len(), 4);
        for j in 0..4 {
            let want = if i == 0 && j == 1 { 1.0 } else { 0.0 };
            assert!(same(g[i][j], c(want, 0.0)));
        }
    }
}

#[test]
fn series_of_period_three() {
    let g = point(-1.7548776662466927, 0.0, 3).get_formula_coefficients(2).unwrap();
    let expected = vec![
        vec![-2.0647643215141417e-15, 1.0000000000000002, -0.01861520060199423],
        vec![1.3525547553522056e-16, -0.009680696406031166, -4.7348242424593225e-05],
        vec![-0.0018550166450579393, -6.117225826001074e-05, 0.0],
    ];
    for i in 0..3 {
        for j in 0..3 {
            assert!((g[i][j].x.0 - expected[i][j]).abs() < 1e-12);
            assert_eq!(g[i][j].y.0, 0.0);
        }
    }
}

#[test]
fn series_period_below_one_counts_as_one() {
    let g = point(0.0, 0.0, 0).get_formula_coefficients(1).unwrap();
    assert!(same_grid(&g, &vec![vec![0.0, 1.0], vec![0.0, 0.0]]));
}

#[test]
fn series_of_order_zero_has_no_scale() {
    assert_eq!(
        point(0.0, 0.0, 1).get_formula_coefficients(0).unwrap_err(),
        SeriesError::ZeroScale
    );
}

#[test]
fn series_reports_a_zero_scale() {
    // period 2 at zero: the linear coefficient is 2 * 0
    assert_eq!(
        point(0.0, 0.0, 2).get_formula_coefficients(2).unwrap_err(),
        SeriesError::ZeroScale
    );
}

#[test]
fn series_reports_a_zero_rescale() {
    // period 2 at -1/2: a = -1, b = -1, a * a + b = 0
    assert_eq!(
        point(-0.5, 0.0, 2).get_formula_coefficients(2).unwrap_err(),
        SeriesError::ZeroRescale
    );
}

#[test]
fn series_of_the_highest_order() {
    let g = point(0.0, 0.0, 1).get_formula_coefficients(33).unwrap();
    assert_eq!(g.len(), 34);
    assert!(same(g[0][1], c(1.0, 0.0)));
    assert_eq!(render_formula(&g, 33), "0+(1)z");
}

#[test]
fn formula_omits_vanishing_terms_and_unit_powers() {
    let zero = c(0.0, 0.0);
    let g = vec![
        vec![c(1.0, 1.0), c(2.0, 0.0), c(0.0, -1.0)],
        vec![c(0.0, 3.0), zero, zero],
        vec![c(-4.0, 0.5), zero, zero],
    ];
    assert_eq!(render_formula(&g, 2), "1+1i+(2)z+(3i)c+(-i)z^2+(-4+0.5i)c^2");
    assert_eq!(render_formula(&g, 1), "1+1i+(2)z+(3i)c");
    assert_eq!(render_formula(&g, 0), "1+1i");
}

#[test]
fn formula_writes_powers_above_nine() {
    let n = 11;
    let mut g = vec![vec![c(0.0, 0.0); n + 1]; n + 1];
    g[0][11] = c(1.0, 0.0);
    g[10][1] = c(2.0, 0.0);
    g[11][0] = c(3.0, 0.0);
    assert_eq!(render_formula(&g, n), "0+(1)z^11+(2)c^10z+(3)c^11");
}

#[test]
fn series_errors_have_messages() {
    assert_eq!(
        SeriesError::ZeroScale.to_string(),
        "the linear coefficient of the series vanished"
    );
    assert_eq!(
        SeriesError::ZeroRescale.to_string(),
        "the parameter scale of the series vanished"
    );
}
