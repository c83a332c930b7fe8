//! Local descriptions of the small copies of the Mandelbrot set: the centre
//! of a hyperbolic component of a given period, and the truncated power
//! series of the renormalised dynamics around it.
pub mod algebra;
pub mod binomial;
pub mod complex;
pub mod dual;
pub mod formula;
pub mod iteration;
pub mod laws;
pub mod literal;
pub mod series;
pub mod solver;

pub use crate::binomial::get_all_binom_coefficients;
pub use crate::binomial::get_binom_coefficients;
pub use crate::iteration::mandelbrot_polynomial;
pub use crate::solver::find_periodic_point;
pub use crate::solver::PeriodicPoint;
