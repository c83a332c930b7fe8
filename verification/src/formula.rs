//! A grid of coefficients written out as a polynomial in `c` and `z`.
use crate::algebra::AdditiveGroup;
use crate::algebra::Real;
use crate::algebra::Text;
use crate::complex::Complex;
use crate::literal::decimal;
use crate::literal::decimal_text;
use crate::series::grid_view;
use crate::series::well_formed;
use crate::series::Grid;
use vstd::prelude::*;
use vstd::string::*;

verus! {

/// A variable raised to a power: nothing for the power zero, the bare name
/// for the power one, and else the name, `^` and the power.
pub open spec fn power_text(name: Text, power: int) -> Text {
    if power <= 0 {
        Seq::empty()
    } else if power == 1 {
        name
    } else {
        name + "^"@ + decimal(power as nat)
    }
}

/// Whether a coefficient is written at all: when its magnitude is above
/// zero.
pub open spec fn is_shown<R: Real>(coefficient: Complex<R>) -> bool {
    R::zero_spec().lt_spec(coefficient.abs_spec())
}

/// One term: `+(`, the coefficient, `)`, then the powers of `c` and `z`.
/// A coefficient that is not shown gives no term.
pub open spec fn term_text<R: Real>(coefficient: Complex<R>, c_power: int, z_power: int) -> Text {
    if is_shown(coefficient) {
        "+("@ + coefficient.text_spec() + ")"@ + power_text("c"@, c_power) + power_text(
            "z"@,
            z_power,
        )
    } else {
        Seq::empty()
    }
}

/// The terms of total degree `degree` whose power of `c` is below
/// `c_power`, by rising power of `c`. The entry `(j, degree - j)` of the
/// grid is the coefficient of `c^j z^(degree - j)`.
pub open spec fn degree_text<R: Real>(g: Grid<R>, degree: int, c_power: int) -> Text
    decreases c_power,
{
    if c_power <= 0 {
        Seq::empty()
    } else {
        let j = c_power - 1;
        degree_text(g, degree, j) + term_text(g[j][degree - j], j, degree - j)
    }
}

/// The polynomial up to total degree `degree`: the constant entry, then
/// the terms of each degree from one on.
pub open spec fn formula_text<R: Real>(g: Grid<R>, degree: int) -> Text
    decreases degree,
{
    if degree <= 0 {
        g[0][0].text_spec()
    } else {
        formula_text(g, degree - 1) + degree_text(g, degree, degree + 1)
    }
}

/// Appends a variable raised to a power.
fn append_power(s: &mut String, name: &str, power: usize)
    ensures
        final(s)@ == old(s)@ + power_text(name@, power as int),
{
    if power > 0 {
        s.append(name);
        if power > 1 {
            s.append("^");
            s.append(decimal_text(power).as_str());
        }
    }
}

/// Writes the grid of order `n` as a polynomial: the constant entry, then
/// for each total degree from one to `n` the terms whose coefficient has a
/// magnitude above zero.
pub fn render_formula<R: Real>(g: &Vec<Vec<Complex<R>>>, n: usize) -> (s: String)
    requires
        n < usize::MAX,
        well_formed(g, n + 1),
    ensures
        s@ == formula_text(grid_view(*g), n as int),
{
    let ghost view = grid_view(*g);
    let zero = R::zero();
    assert(g@[0]@.len() == n + 1);
    assert(view[0][0] == g@[0]@[0]);
    let mut s = g[0][0].to_string();
    let mut degree: usize = 1;
    while degree <= n
        invariant
            n < usize::MAX,
            well_formed(g, n + 1),
            view == grid_view(*g),
            zero == R::zero_spec(),
            1 <= degree <= n + 1,
            s@ == formula_text(view, degree - 1),
        decreases n + 1 - degree,
    {
        let ghost before = s@;
        let mut j: usize = 0;
        while j <= degree
            invariant
                n < usize::MAX,
                well_formed(g, n + 1),
                view == grid_view(*g),
                zero == R::zero_spec(),
                1 <= degree <= n,
                j <= degree + 1,
                s@ == before + degree_text(view, degree as int, j as int),
            decreases degree + 1 - j,
        {
            assert(g@[j as int]@.len() == n + 1);
            assert(view[j as int][degree - j] == g@[j as int]@[degree - j]);
            let coefficient = g[j][degree - j];
            let ghost shown = s@;
            if zero.lt(&coefficient.abs()) {
                s.append("+(");
                s.append(coefficient.to_string().as_str());
                s.append(")");
                append_power(&mut s, "c", j);
                append_power(&mut s, "z", degree - j);
            }
            assert(s@ =~= shown + term_text(coefficient, j as int, degree - j));
            assert(s@ =~= before + degree_text(view, degree as int, j + 1));
            j = j + 1;
        }
        assert(s@ =~= formula_text(view, degree as int));
        degree = degree + 1;
    }
    s
}

} // verus!
