//! The truncated power series of the renormalised dynamics around a
//! periodic point, as a square grid of coefficients.
use crate::algebra::lemma_mul_zero;
use crate::algebra::AdditiveGroup;
use crate::algebra::Field;
use crate::algebra::MultiplicativeGroup;
use crate::algebra::Real;
use crate::binomial::binomial;
use crate::binomial::get_all_binom_coefficients;
use crate::binomial::lemma_binomial_bounded;
use crate::binomial::MAX_ROW;
use crate::complex::Complex;
use crate::solver::PeriodicPoint;
use std::ops::Neg;
use vstd::prelude::*;
use vstd::std_specs::ops::AddSpec;
use vstd::std_specs::ops::DivSpec;
use vstd::std_specs::ops::MulSpec;
use vstd::std_specs::ops::NegSpec;
use vstd::string::*;

verus! {

/// A table of coefficients as contracts see it.
pub type Grid<R> = Seq<Seq<Complex<R>>>;

/// Why a series could not be brought into canonical form.
#[derive(Debug, Clone, Copy, PartialEq, Eq, Structural)]
pub enum SeriesError {
    /// The square of the linear coefficient, by which the columns are
    /// scaled, is not invertible.
    ZeroScale,
    /// The number by which the rows are scaled, the square of the linear
    /// coefficient plus the offset, is not invertible.
    ZeroRescale,
}

impl SeriesError {
    /// What the error says.
    pub fn to_string(&self) -> (s: String)
        ensures
            s@ == match *self {
                SeriesError::ZeroScale => "the linear coefficient of the series vanished"@,
                SeriesError::ZeroRescale => "the parameter scale of the series vanished"@,
            },
    {
        match self {
            SeriesError::ZeroScale => String::from_str(
                "the linear coefficient of the series vanished",
            ),
            SeriesError::ZeroRescale => String::from_str(
                "the parameter scale of the series vanished",
            ),
        }
    }
}

/// What a table of vectors holds.
pub open spec fn grid_view<R>(g: Vec<Vec<Complex<R>>>) -> Grid<R> {
    Seq::new(g@.len(), |i: int| g@[i]@)
}

/// The grid the recurrence starts from: `position` at `(0, 0)`, one at
/// `(0, 1)`, and zero everywhere else.
pub open spec fn seed_entry<R: Real>(position: Complex<R>, i: int, j: int) -> Complex<R> {
    if i == 0 && j == 0 {
        position
    } else if i == 0 && j == 1 {
        Complex::<R>::one_spec()
    } else {
        Complex::<R>::zero_spec()
    }
}

/// The sum for the entry `(i, j)` of the square of `g`, within row `k` of
/// the first factor: `acc` plus the products `g[k][l'] * g[i-k][j-l']` for
/// `l'` below `l`, added from the left.
pub open spec fn row_sum<R: Real>(g: Grid<R>, i: int, j: int, k: int, acc: Complex<R>, l: int)
    -> Complex<R>
    decreases l,
{
    if l <= 0 {
        acc
    } else {
        row_sum(g, i, j, k, acc, l - 1).add_spec(g[k][l - 1].mul_spec(g[i - k][j - (l - 1)]))
    }
}

/// The sum for the entry `(i, j)` of the square of `g` over the rows below
/// `k` of the first factor, taken row after row.
pub open spec fn square_sum<R: Real>(g: Grid<R>, i: int, j: int, k: int) -> Complex<R>
    decreases k,
{
    if k <= 0 {
        Complex::<R>::zero_spec()
    } else {
        row_sum(g, i, j, k - 1, square_sum(g, i, j, k - 1), j + 1)
    }
}

/// One step of the recurrence at `(i, j)`: the Cauchy product of `g` with
/// itself, the sum of `g[k][l] * g[i-k][j-l]` over `k <= i` and `l <= j`,
/// plus `position` at `(0, 0)` and one at `(1, 0)`.
pub open spec fn step_entry<R: Real>(g: Grid<R>, position: Complex<R>, i: int, j: int) -> Complex<
    R,
> {
    let product = square_sum(g, i, j, i + 1);
    if i == 0 && j == 0 {
        product.add_spec(position)
    } else if i == 1 && j == 0 {
        product.add_spec(Complex::<R>::one_spec())
    } else {
        product
    }
}

/// The grid of order `n` after `steps` steps of the recurrence.
pub open spec fn recurrence<R: Real>(position: Complex<R>, n: int, steps: int) -> Grid<R>
    decreases steps,
{
    if steps <= 0 {
        Seq::new((n + 1) as nat, |i: int| Seq::new((n + 1) as nat, |j: int| seed_entry(position, i, j)))
    } else {
        let g = recurrence(position, n, steps - 1);
        Seq::new(
            (n + 1) as nat,
            |i: int| Seq::new((n + 1) as nat, |j: int| step_entry(g, position, i, j)),
        )
    }
}

/// The factor of column `j` in the first pass: `a` for the first column,
/// and for each further one the factor before it divided by `a * a`.
pub open spec fn column_factor<R: Real>(a: Complex<R>, j: int) -> Complex<R>
    decreases j,
{
    if j <= 0 {
        a
    } else {
        DivSpec::<Complex<R>>::div_spec(column_factor(a, j - 1), a.mul_spec(a))
    }
}

/// The first pass: every entry times the factor of its column.
pub open spec fn scaled<R: Real>(g: Grid<R>, a: Complex<R>) -> Grid<R> {
    Seq::new(
        g.len(),
        |i: int| Seq::new(g[i].len(), |j: int| g[i][j].mul_spec(column_factor(a, j))),
    )
}

/// The `k`-th power of `-b` for `k >= 1`, multiplied up from the left.
pub open spec fn neg_power<R: Real>(b: Complex<R>, k: int) -> Complex<R>
    decreases k,
{
    if k <= 1 {
        b.neg_spec()
    } else {
        neg_power(b, k - 1).mul_spec(b.neg_spec())
    }
}

/// The entry `(i, j)` while the offset `b` is redistributed: the
/// entry of `g` plus, for each `k` from one to `m`, the term
/// `binomial(j + k, k) * g[i-k][j+k] * (-b)^k`, added from the left.
pub open spec fn shift_sum<R: Real>(g: Grid<R>, b: Complex<R>, i: int, j: int, m: int) -> Complex<
    R,
>
    decreases m,
{
    if m <= 0 {
        g[i][j]
    } else {
        shift_sum(g, b, i, j, m - 1).add_spec(
            MulSpec::<R>::mul_spec(
                g[i - m][j + m],
                R::scientific_spec(binomial((j + m) as nat, m as nat) as i32, 0i32),
            ).mul_spec(neg_power(b, m)),
        )
    }
}

/// The smaller of two integers.
pub open spec fn least(x: int, y: int) -> int {
    if x <= y {
        x
    } else {
        y
    }
}

/// The second pass: the substitution that removes the offset `b`,
/// which moves a share of each entry `(i - k, j + k)` to `(i, j)`.
pub open spec fn shifted<R: Real>(g: Grid<R>, b: Complex<R>) -> Grid<R> {
    Seq::new(
        g.len(),
        |i: int|
            Seq::new(g[i].len(), |j: int| shift_sum(g, b, i, j, least(i, g.len() - 1 - j))),
    )
}

/// The factor of row `i` in the third pass: one for the first row, and for
/// each further one the factor before it divided by `d`.
pub open spec fn row_factor<R: Real>(d: Complex<R>, i: int) -> Complex<R>
    decreases i,
{
    if i <= 0 {
        Complex::<R>::one_spec()
    } else {
        DivSpec::<Complex<R>>::div_spec(row_factor(d, i - 1), d)
    }
}

/// The third pass: every entry times the factor of its row.
pub open spec fn rescaled<R: Real>(g: Grid<R>, d: Complex<R>) -> Grid<R> {
    Seq::new(g.len(), |i: int| Seq::new(g[i].len(), |j: int| g[i][j].mul_spec(row_factor(d, i))))
}

/// The linear coefficient of a grid of order `n`: its entry `(0, 1)`, and
/// zero when the order is too small for the grid to have one.
pub open spec fn linear_coefficient<R: Real>(g: Grid<R>, n: int) -> Complex<R> {
    if n >= 1 {
        g[0][1]
    } else {
        Complex::<R>::zero_spec()
    }
}

/// The series of order `n` at the point `position` of period `period`, in
/// canonical form: the recurrence run `period - 1` times, the columns
/// scaled by the linear coefficient `a`, the offset `b` that is then
/// found at `(1, 0)` removed, and the rows scaled by `a * a + b`. There is
/// none when `a * a` or `a * a + b` is not invertible.
pub open spec fn formula_coefficients<R: Real>(position: Complex<R>, period: int, n: int) -> Result<
    Grid<R>,
    SeriesError,
> {
    let raw = recurrence(position, n, period - 1);
    let a = linear_coefficient(raw, n);
    if !a.mul_spec(a).invertible() {
        Err(SeriesError::ZeroScale)
    } else {
        let first = scaled(raw, a);
        let b = first[1][0];
        let d = a.mul_spec(a).add_spec(b);
        if !d.invertible() {
            Err(SeriesError::ZeroRescale)
        } else {
            Ok(rescaled(shifted(first, b), d))
        }
    }
}

/// Whether a table of vectors is square with `size` rows.
pub open spec fn well_formed<R>(g: &Vec<Vec<Complex<R>>>, size: int) -> bool {
    &&& g@.len() == size
    &&& forall|i: int| 0 <= i < size ==> (#[trigger] g@[i])@.len() == size
}

/// The grid the recurrence starts from.
fn seed_grid<R: Real>(position: Complex<R>, n: usize) -> (g: Vec<Vec<Complex<R>>>)
    requires
        n < usize::MAX,
    ensures
        well_formed(&g, n + 1),
        grid_view(g) == recurrence(position, n as int, 0),
{
    let mut g: Vec<Vec<Complex<R>>> = Vec::new();
    let mut i: usize = 0;
    while i <= n
        invariant
            n < usize::MAX,
            i <= n + 1,
            g@.len() == i,
            forall|r: int| 0 <= r < i ==> (#[trigger] g@[r])@.len() == n + 1,
            forall|r: int, c: int|
                0 <= r < i && 0 <= c <= n ==> #[trigger] g@[r]@[c] == seed_entry(position, r, c),
        decreases n + 1 - i,
    {
        let mut row: Vec<Complex<R>> = Vec::new();
        let mut j: usize = 0;
        while j <= n
            invariant
                n < usize::MAX,
                i <= n,
                j <= n + 1,
                row@.len() == j,
                forall|c: int| 0 <= c < j ==> #[trigger] row@[c] == seed_entry(position, i as int, c),
            decreases n + 1 - j,
        {
            let entry = if i == 0 && j == 0 {
                position
            } else if i == 0 && j == 1 {
                Complex::<R>::one()
            } else {
                Complex::<R>::zero()
            };
            row.push(entry);
            j = j + 1;
        }
        g.push(row);
        i = i + 1;
    }
    assert(grid_view(g) =~~= recurrence(position, n as int, 0));
    g
}

/// The entry `(i, j)` of the Cauchy product of `g` with itself.
fn squared_entry<R: Real>(g: &Vec<Vec<Complex<R>>>, n: usize, i: usize, j: usize) -> (sum: Complex<
    R,
>)
    requires
        n < usize::MAX,
        well_formed(g, n + 1),
        i <= n,
        j <= n,
    ensures
        sum == square_sum(grid_view(*g), i as int, j as int, i + 1),
{
    let ghost view = grid_view(*g);
    let mut sum = Complex::<R>::zero();
    let mut k: usize = 0;
    while k <= i
        invariant
            n < usize::MAX,
            well_formed(g, n + 1),
            view == grid_view(*g),
            i <= n,
            j <= n,
            k <= i + 1,
            sum == square_sum(view, i as int, j as int, k as int),
        decreases i + 1 - k,
    {
        let ghost start = sum;
        let mut l: usize = 0;
        while l <= j
            invariant
                n < usize::MAX,
                well_formed(g, n + 1),
                view == grid_view(*g),
                i <= n,
                j <= n,
                k <= i,
                l <= j + 1,
                sum == row_sum(view, i as int, j as int, k as int, start, l as int),
            decreases j + 1 - l,
        {
            assert(g@[k as int]@.len() == n + 1);
            assert(g@[i - k]@.len() == n + 1);
            assert(view[k as int][l as int] == g@[k as int]@[l as int]);
            assert(view[i - k][j - l] == g@[i - k]@[j - l]);
            sum = sum + g[k][l] * g[i - k][j - l];
            l = l + 1;
        }
        k = k + 1;
    }
    sum
}

/// One step of the recurrence: the square of `g`, plus `position` at
/// `(0, 0)` and one at `(1, 0)`, in a grid of its own.
fn square_step<R: Real>(g: &Vec<Vec<Complex<R>>>, position: Complex<R>, n: usize) -> (next: Vec<
    Vec<Complex<R>>,
>)
    requires
        n < usize::MAX,
        well_formed(g, n + 1),
    ensures
        well_formed(&next, n + 1),
        forall|i: int, j: int|
            0 <= i <= n && 0 <= j <= n ==> #[trigger] next@[i]@[j] == step_entry(
                grid_view(*g),
                position,
                i,
                j,
            ),
{
    let mut next: Vec<Vec<Complex<R>>> = Vec::new();
    let mut i: usize = 0;
    while i <= n
        invariant
            n < usize::MAX,
            well_formed(g, n + 1),
            i <= n + 1,
            next@.len() == i,
            forall|r: int| 0 <= r < i ==> (#[trigger] next@[r])@.len() == n + 1,
            forall|r: int, c: int|
                0 <= r < i && 0 <= c <= n ==> #[trigger] next@[r]@[c] == step_entry(
                    grid_view(*g),
                    position,
                    r,
                    c,
                ),
        decreases n + 1 - i,
    {
        let mut row: Vec<Complex<R>> = Vec::new();
        let mut j: usize = 0;
        while j <= n
            invariant
                n < usize::MAX,
                well_formed(g, n + 1),
                i <= n,
                j <= n + 1,
                row@.len() == j,
                forall|c: int|
                    0 <= c < j ==> #[trigger] row@[c] == step_entry(
                        grid_view(*g),
                        position,
                        i as int,
                        c,
                    ),
            decreases n + 1 - j,
        {
            let product = squared_entry(g, n, i, j);
            let entry = if i == 0 && j == 0 {
                product + position
            } else if i == 1 && j == 0 {
                product + Complex::<R>::one()
            } else {
                product
            };
            row.push(entry);
            j = j + 1;
        }
        next.push(row);
        i = i + 1;
    }
    next
}

/// The first pass: scales column `j` by `column_factor(a, j)`.
fn scale_columns<R: Real>(g: &Vec<Vec<Complex<R>>>, a: Complex<R>, n: usize) -> (out: Vec<
    Vec<Complex<R>>,
>)
    requires
        n < usize::MAX,
        well_formed(g, n + 1),
        a.mul_spec(a).invertible(),
    ensures
        well_formed(&out, n + 1),
        grid_view(out) == scaled(grid_view(*g), a),
{
    let square = a * a;
    let mut factors: Vec<Complex<R>> = Vec::new();
    factors.push(a);
    let mut f: usize = 1;
    while f <= n
        invariant
            n < usize::MAX,
            1 <= f <= n + 1,
            factors@.len() == f,
            square == a.mul_spec(a),
            square.invertible(),
            forall|c: int| 0 <= c < f ==> #[trigger] factors@[c] == column_factor(a, c),
        decreases n + 1 - f,
    {
        let factor = factors[f - 1] / square;
        factors.push(factor);
        f = f + 1;
    }
    let mut out: Vec<Vec<Complex<R>>> = Vec::new();
    let mut i: usize = 0;
    while i <= n
        invariant
            n < usize::MAX,
            well_formed(g, n + 1),
            i <= n + 1,
            factors@.len() == n + 1,
            forall|c: int| 0 <= c <= n ==> #[trigger] factors@[c] == column_factor(a, c),
            out@.len() == i,
            forall|r: int| 0 <= r < i ==> (#[trigger] out@[r])@.len() == n + 1,
            forall|r: int, c: int|
                0 <= r < i && 0 <= c <= n ==> #[trigger] out@[r]@[c] == g@[r]@[c].mul_spec(
                    column_factor(a, c),
                ),
        decreases n + 1 - i,
    {
        let mut row: Vec<Complex<R>> = Vec::new();
        let mut j: usize = 0;
        while j <= n
            invariant
                n < usize::MAX,
                well_formed(g, n + 1),
                i <= n,
                j <= n + 1,
                factors@.len() == n + 1,
                forall|c: int| 0 <= c <= n ==> #[trigger] factors@[c] == column_factor(a, c),
                row@.len() == j,
                forall|c: int|
                    0 <= c < j ==> #[trigger] row@[c] == g@[i as int]@[c].mul_spec(
                        column_factor(a, c),
                    ),
            decreases n + 1 - j,
        {
            assert(g@[i as int]@.len() == n + 1);
            row.push(g[i][j] * factors[j]);
            j = j + 1;
        }
        out.push(row);
        i = i + 1;
    }
    assert(grid_view(out) =~~= scaled(grid_view(*g), a));
    out
}

/// The third pass: scales row `i` by `row_factor(d, i)`.
fn rescale_rows<R: Real>(g: &Vec<Vec<Complex<R>>>, d: Complex<R>, n: usize) -> (out: Vec<
    Vec<Complex<R>>,
>)
    requires
        n < usize::MAX,
        well_formed(g, n + 1),
        d.invertible(),
    ensures
        well_formed(&out, n + 1),
        grid_view(out) == rescaled(grid_view(*g), d),
{
    let mut out: Vec<Vec<Complex<R>>> = Vec::new();
    let mut factor = Complex::<R>::one();
    let mut i: usize = 0;
    while i <= n
        invariant
            n < usize::MAX,
            well_formed(g, n + 1),
            d.invertible(),
            i <= n + 1,
            factor == row_factor(d, i as int),
            out@.len() == i,
            forall|r: int| 0 <= r < i ==> (#[trigger] out@[r])@.len() == n + 1,
            forall|r: int, c: int|
                0 <= r < i && 0 <= c <= n ==> #[trigger] out@[r]@[c] == g@[r]@[c].mul_spec(
                    row_factor(d, r),
                ),
        decreases n + 1 - i,
    {
        let mut row: Vec<Complex<R>> = Vec::new();
        let mut j: usize = 0;
        while j <= n
            invariant
                n < usize::MAX,
                well_formed(g, n + 1),
                i <= n,
                j <= n + 1,
                factor == row_factor(d, i as int),
                row@.len() == j,
                forall|c: int|
                    0 <= c < j ==> #[trigger] row@[c] == g@[i as int]@[c].mul_spec(
                        row_factor(d, i as int),
                    ),
            decreases n + 1 - j,
        {
            assert(g@[i as int]@.len() == n + 1);
            row.push(g[i][j] * factor);
            j = j + 1;
        }
        out.push(row);
        factor = factor / d;
        i = i + 1;
    }
    assert(grid_view(out) =~~= rescaled(grid_view(*g), d));
    out
}

/// Whether `table` is Pascal's triangle down to row `n`.
pub open spec fn is_triangle(table: &Vec<Vec<i32>>, n: int) -> bool {
    &&& table@.len() == n + 1
    &&& forall|i: int| 0 <= i <= n ==> (#[trigger] table@[i])@.len() == i + 1
    &&& forall|i: int, k: int|
        0 <= k <= i <= n ==> #[trigger] table@[i]@[k] == binomial(i as nat, k as nat)
}

/// The entry `(i, j)` after the offset `b` has been removed.
fn shifted_entry<R: Real>(
    g: &Vec<Vec<Complex<R>>>,
    table: &Vec<Vec<i32>>,
    b: Complex<R>,
    n: usize,
    i: usize,
    j: usize,
) -> (sum: Complex<R>)
    requires
        n <= MAX_ROW,
        well_formed(g, n + 1),
        is_triangle(table, n as int),
        i <= n,
        j <= n,
    ensures
        sum == shift_sum(grid_view(*g), b, i as int, j as int, least(i as int, n - j)),
{
    let ghost view = grid_view(*g);
    let last: usize = if i <= n - j {
        i
    } else {
        n - j
    };
    let neg_b = b.neg();
    assert(g@[i as int]@.len() == n + 1);
    assert(view[i as int][j as int] == g@[i as int]@[j as int]);
    let mut sum = g[i][j];
    let mut power = neg_b;
    let mut k: usize = 1;
    while k <= last
        invariant
            n <= MAX_ROW,
            well_formed(g, n + 1),
            is_triangle(table, n as int),
            view == grid_view(*g),
            last <= i <= n,
            last <= n - j,
            j <= n,
            1 <= k <= last + 1,
            neg_b == b.neg_spec(),
            power == neg_power(b, k as int),
            sum == shift_sum(view, b, i as int, j as int, k - 1),
        decreases last + 1 - k,
    {
        proof {
            lemma_binomial_bounded((j + k) as nat, k as nat);
            assert(g@[i - k]@.len() == n + 1);
            assert(view[i - k][j + k] == g@[i - k]@[j + k]);
            assert(table@[j + k]@.len() == j + k + 1);
            assert(table@[j + k]@[k as int] == binomial((j + k) as nat, k as nat));
        }
        let weight = R::scientific(table[j + k][k], 0);
        sum = sum + g[i - k][j + k] * weight * power;
        power = power * neg_b;
        k = k + 1;
    }
    sum
}

/// The second pass: removes the offset `b` from every entry.
fn shift<R: Real>(g: &Vec<Vec<Complex<R>>>, table: &Vec<Vec<i32>>, b: Complex<R>, n: usize) -> (out:
    Vec<Vec<Complex<R>>>)
    requires
        n <= MAX_ROW,
        well_formed(g, n + 1),
        is_triangle(table, n as int),
    ensures
        well_formed(&out, n + 1),
        grid_view(out) == shifted(grid_view(*g), b),
{
    let mut out: Vec<Vec<Complex<R>>> = Vec::new();
    let mut i: usize = 0;
    while i <= n
        invariant
            n <= MAX_ROW,
            well_formed(g, n + 1),
            is_triangle(table, n as int),
            i <= n + 1,
            out@.len() == i,
            forall|r: int| 0 <= r < i ==> (#[trigger] out@[r])@.len() == n + 1,
            forall|r: int, c: int|
                0 <= r < i && 0 <= c <= n ==> #[trigger] out@[r]@[c] == shift_sum(
                    grid_view(*g),
                    b,
                    r,
                    c,
                    least(r, n - c),
                ),
        decreases n + 1 - i,
    {
        let mut row: Vec<Complex<R>> = Vec::new();
        let mut j: usize = 0;
        while j <= n
            invariant
                n <= MAX_ROW,
                well_formed(g, n + 1),
                is_triangle(table, n as int),
                i <= n,
                j <= n + 1,
                row@.len() == j,
                forall|c: int|
                    0 <= c < j ==> #[trigger] row@[c] == shift_sum(
                        grid_view(*g),
                        b,
                        i as int,
                        c,
                        least(i as int, n - c),
                    ),
            decreases n + 1 - j,
        {
            row.push(shifted_entry(g, table, b, n, i, j));
            j = j + 1;
        }
        out.push(row);
        i = i + 1;
    }
    assert(grid_view(out) =~~= shifted(grid_view(*g), b));
    out
}

impl<R: Real> PeriodicPoint<R> {
    /// The coefficients of the series of order `n` around this point: the
    /// polynomial `p` in two variables for which `z -> p(z*z + c, c)`
    /// follows the dynamics near the point, in canonical form. The entry
    /// `(i, j)` of the grid belongs to the powers `i` and `j` of the two
    /// variables. Entries whose powers add up to more than `n` are computed
    /// from a truncated product and carry no meaning.
    pub fn get_formula_coefficients(&self, n: usize) -> (r: Result<
        Vec<Vec<Complex<R>>>,
        SeriesError,
    >)
        requires
            n <= MAX_ROW,
        ensures
            match r {
                Ok(g) => well_formed(&g, n + 1) && formula_coefficients(
                    self.position,
                    self.period as int,
                    n as int,
                ) == Ok::<Grid<R>, SeriesError>(grid_view(g)),
                Err(e) => formula_coefficients(self.position, self.period as int, n as int)
                    == Err::<Grid<R>, SeriesError>(e),
            },
    {
        let table = get_all_binom_coefficients(n);
        let mut raw = seed_grid(self.position, n);
        let mut step: i32 = 1;
        while step < self.period
            invariant
                n <= MAX_ROW,
                1 <= step,
                step <= self.period || self.period < 1,
                well_formed(&raw, n + 1),
                grid_view(raw) == recurrence(
                    self.position,
                    n as int,
                    if self.period < 1 {
                        0
                    } else {
                        step - 1
                    },
                ),
            decreases self.period - step,
        {
            let next = square_step(&raw, self.position, n);
            assert(grid_view(next) =~~= recurrence(self.position, n as int, step as int));
            raw = next;
            step = step + 1;
        }
        assert(grid_view(raw) == recurrence(self.position, n as int, self.period - 1));
        if n == 0 {
            proof {
                lemma_mul_zero::<Complex<R>>(Complex::<R>::zero_spec());
                Complex::<R>::zero_not_invertible();
            }
            return Err(SeriesError::ZeroScale);
        }
        assert(raw@[0]@.len() == n + 1);
        assert(grid_view(raw)[0][1] == raw@[0]@[1]);
        let a = raw[0][1];
        let square = a * a;
        if !square.is_invertible() {
            return Err(SeriesError::ZeroScale);
        }
        let first = scale_columns(&raw, a, n);
        assert(first@[1]@.len() == n + 1);
        assert(grid_view(first)[1][0] == first@[1]@[0]);
        let b = first[1][0];
        let d = square + b;
        if !d.is_invertible() {
            return Err(SeriesError::ZeroRescale);
        }
        let second = shift(&first, &table, b, n);
        let third = rescale_rows(&second, d, n);
        Ok(third)
    }
}

} // verus!
