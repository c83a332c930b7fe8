//! Newton's method for the centre of a hyperbolic component: the parameter
//! whose critical orbit returns to zero after a given number of steps.
use crate::algebra::lemma_mul_zero;
use crate::algebra::AdditiveGroup;
use crate::algebra::Field;
use crate::algebra::MultiplicativeGroup;
use crate::algebra::Real;
use crate::complex::Complex;
use vstd::prelude::*;
use vstd::std_specs::ops::AddSpec;
use vstd::std_specs::ops::DivSpec;
use vstd::std_specs::ops::MulSpec;
use vstd::std_specs::ops::SubSpec;
use vstd::string::*;

verus! {

/// The centre of a hyperbolic component of period `period`, with the complex
/// factor by which the copy of the set around it is scaled and turned.
#[derive(Debug)]
pub struct PeriodicPoint<R> {
    pub position: Complex<R>,
    pub scale: Complex<R>,
    pub period: i32,
}

/// Why the solver found no centre.
#[derive(Debug, Clone, Copy, PartialEq, Eq, Structural)]
pub enum SolveError {
    /// The critical orbit left the disc of radius two.
    Escaped,
    /// The iteration cap was reached before the corrections became small.
    NotConverged,
    /// A derivative that had to be divided by was not invertible.
    DivisionByZero,
}

impl SolveError {
    /// What the error says.
    pub fn to_string(&self) -> (s: String)
        ensures
            s@ == match *self {
                SolveError::Escaped => "the critical orbit escaped"@,
                SolveError::NotConverged => "the iteration did not converge"@,
                SolveError::DivisionByZero => "a derivative that is divided by vanished"@,
            },
    {
        match self {
            SolveError::Escaped => String::from_str("the critical orbit escaped"),
            SolveError::NotConverged => String::from_str("the iteration did not converge"),
            SolveError::DivisionByZero => String::from_str(
                "a derivative that is divided by vanished",
            ),
        }
    }
}

/// The number of Newton steps after which the solver gives up.
pub const MAX_STEPS: u32 = 20;

/// The real number two: the factor in the derivative of the square, and the
/// radius beyond which an orbit has escaped.
pub open spec fn two_spec<R: Real>() -> R {
    R::scientific_spec(2i32, 0i32)
}

/// The magnitude below which a Newton correction counts as converged.
pub open spec fn tolerance_spec<R: Real>() -> R {
    R::scientific_spec(1i32, -12i32)
}

/// The critical orbit at parameter `c` after `n` applications of the map,
/// with its derivative with respect to `c`: the first application gives
/// `(c, 1)`, and each further one takes `(z, dz)` to `(z*z + c, 2 z dz + 1)`.
pub open spec fn orbit<R: Real>(c: Complex<R>, n: int) -> (Complex<R>, Complex<R>)
    decreases n,
{
    if n <= 1 {
        (c, Complex::<R>::one_spec())
    } else {
        let (z, dz) = orbit(c, n - 1);
        (
            MulSpec::<Complex<R>>::mul_spec(z, z).add_spec(c),
            MulSpec::<Complex<R>>::mul_spec(MulSpec::<R>::mul_spec(z, two_spec::<R>()), dz).add_spec(
                Complex::<R>::one_spec(),
            ),
        )
    }
}

/// Newton's iteration from the estimate `c`, with `budget` steps left. Each
/// step evaluates the orbit `(z, dz)` at the estimate and moves it by
/// `z / dz`. It ends with the moved estimate once that correction is smaller
/// than the tolerance, with `Escaped` when instead `z` lies outside the disc
/// of radius two, with `DivisionByZero` when `dz` is not invertible, and with
/// `NotConverged` when the budget is used up.
pub open spec fn newton<R: Real>(c: Complex<R>, n: int, budget: nat) -> Result<
    Complex<R>,
    SolveError,
>
    decreases budget,
{
    if budget == 0 {
        Err(SolveError::NotConverged)
    } else {
        let (z, dz) = orbit(c, n);
        if !dz.invertible() {
            Err(SolveError::DivisionByZero)
        } else {
            let step = DivSpec::<Complex<R>>::div_spec(z, dz);
            let next = c.sub_spec(step);
            if step.abs_spec().lt_spec(tolerance_spec::<R>()) {
                Ok(next)
            } else if two_spec::<R>().lt_spec(z.abs_spec()) {
                Err(SolveError::Escaped)
            } else {
                newton(next, n, (budget - 1) as nat)
            }
        }
    }
}

/// The critical orbit at `c`, started at zero, after `k` of `n` steps:
/// the iterate, its derivative with respect to `c`, and the product of
/// `2 z` over the iterates reached so far, the `n`-th left out.
pub open spec fn scale_orbit<R: Real>(c: Complex<R>, n: int, k: int) -> (
    Complex<R>,
    Complex<R>,
    Complex<R>,
)
    decreases k,
{
    if k <= 0 {
        (Complex::<R>::zero_spec(), Complex::<R>::zero_spec(), Complex::<R>::one_spec())
    } else {
        let (z, dz, a) = scale_orbit(c, n, k - 1);
        let next_z = MulSpec::<Complex<R>>::mul_spec(z, z).add_spec(c);
        let next_dz = MulSpec::<Complex<R>>::mul_spec(
            MulSpec::<R>::mul_spec(z, two_spec::<R>()),
            dz,
        ).add_spec(Complex::<R>::one_spec());
        let next_a = if k < n {
            MulSpec::<Complex<R>>::mul_spec(MulSpec::<R>::mul_spec(a, two_spec::<R>()), next_z)
        } else {
            a
        };
        (next_z, next_dz, next_a)
    }
}

/// The periodic point at a converged centre: its scale is the inverse of
/// the orbit's derivative times the product of `2 z` along the orbit, and
/// there is none when that number is not invertible.
pub open spec fn point_at<R: Real>(position: Complex<R>, n: int) -> Result<
    PeriodicPoint<R>,
    SolveError,
> {
    let (z, dz, a) = scale_orbit(position, n, n);
    let divisor = MulSpec::<Complex<R>>::mul_spec(dz, a);
    if divisor.invertible() {
        Ok(
            PeriodicPoint {
                position,
                scale: DivSpec::<Complex<R>>::div_spec(Complex::<R>::one_spec(), divisor),
                period: n as i32,
            },
        )
    } else {
        Err(SolveError::DivisionByZero)
    }
}

/// A periodic point has a positive period: below one the orbit has no step
/// to take, the divisor of the scale is zero times one, and nothing divides
/// by that.
pub proof fn lemma_point_needs_period<R: Real>(c: Complex<R>, n: int)
    requires
        n < 1,
    ensures
        solve(c, n) is Err,
        forall|position: Complex<R>| #[trigger] point_at(position, n) is Err,
{
    lemma_mul_zero::<Complex<R>>(Complex::<R>::one_spec());
    Complex::<R>::zero_not_invertible();
}

/// What the solver returns from the estimate `c` for period `n`: the point
/// at the centre Newton's iteration converges to within `MAX_STEPS` steps,
/// or the reason there is none.
pub open spec fn solve<R: Real>(c: Complex<R>, n: int) -> Result<PeriodicPoint<R>, SolveError> {
    match newton(c, n, MAX_STEPS as nat) {
        Ok(position) => point_at(position, n),
        Err(e) => Err(e),
    }
}

/// Evaluates the critical orbit at `c` after `n` applications of the map,
/// together with its derivative.
pub fn critical_orbit<R: Real>(c: Complex<R>, n: i32) -> (r: (Complex<R>, Complex<R>))
    ensures
        r == orbit(c, n as int),
{
    let two = R::scientific(2, 0);
    let mut z = c;
    let mut dz = Complex::<R>::one();
    let mut k: i32 = 1;
    while k < n
        invariant
            1 <= k,
            k <= n || n < 1,
            two == two_spec::<R>(),
            (z, dz) == orbit(c, if n < 1 { 1 } else { k as int }),
        decreases n - k,
    {
        dz = z * two * dz + Complex::<R>::one();
        z = z * z + c;
        k = k + 1;
    }
    (z, dz)
}

/// Finds the centre of the hyperbolic component of period `n` near `c`, by
/// at most `MAX_STEPS` Newton steps on the critical orbit.
pub fn find_periodic_point<R: Real>(c: Complex<R>, n: i32) -> (r: Result<
    PeriodicPoint<R>,
    SolveError,
>)
    ensures
        r == solve(c, n as int),
        r is Ok ==> n >= 1,
{
    proof {
        if n < 1 {
            lemma_point_needs_period::<R>(c, n as int);
        }
    }
    let two = R::scientific(2, 0);
    let tolerance = R::scientific(1, -12);
    let mut estimate = c;
    let mut left: u32 = MAX_STEPS;
    let mut found: Option<Complex<R>> = None;
    while left > 0 && found.is_none()
        invariant
            left <= MAX_STEPS,
            two == two_spec::<R>(),
            tolerance == tolerance_spec::<R>(),
            match found {
                Some(position) => newton(c, n as int, MAX_STEPS as nat) == Ok::<
                    Complex<R>,
                    SolveError,
                >(position),
                None => newton(c, n as int, MAX_STEPS as nat) == newton(
                    estimate,
                    n as int,
                    left as nat,
                ),
            },
        decreases left, found.is_none() as int,
    {
        let (z, dz) = critical_orbit(estimate, n);
        if !dz.is_invertible() {
            return Err(SolveError::DivisionByZero);
        }
        let step = z / dz;
        let next = estimate - step;
        if step.abs().lt(&tolerance) {
            found = Some(next);
        } else if two.lt(&z.abs()) {
            return Err(SolveError::Escaped);
        } else {
            estimate = next;
            left = left - 1;
        }
    }
    match found {
        None => Err(SolveError::NotConverged),
        Some(position) => periodic_point_at(position, n),
    }
}

/// Builds the periodic point at a centre that is already known, computing
/// its scale along the critical orbit.
pub fn periodic_point_at<R: Real>(position: Complex<R>, n: i32) -> (r: Result<
    PeriodicPoint<R>,
    SolveError,
>)
    ensures
        r == point_at(position, n as int),
{
    let two = R::scientific(2, 0);
    let mut a = Complex::<R>::one();
    let mut z = Complex::<R>::zero();
    let mut dz = Complex::<R>::zero();
    let mut k: i32 = 0;
    while k < n
        invariant
            0 <= k,
            k <= n || k == 0,
            two == two_spec::<R>(),
            (z, dz, a) == scale_orbit(position, n as int, k as int),
        decreases n - k,
    {
        dz = z * two * dz + Complex::<R>::one();
        z = z * z + position;
        k = k + 1;
        if k < n {
            a = a * two * z;
        }
    }
    let divisor = dz * a;
    if divisor.is_invertible() {
        Ok(PeriodicPoint { position, scale: Complex::<R>::one() / divisor, period: n })
    } else {
        Err(SolveError::DivisionByZero)
    }
}

} // verus!
