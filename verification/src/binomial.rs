//! Pascal's triangle in machine integers.
use vstd::prelude::*;

verus! {

/// The number of ways to choose `k` items out of `n`, by the additive
/// recurrence.
pub open spec fn binomial(n: nat, k: nat) -> nat
    decreases n,
{
    if k == 0 {
        1
    } else if n == 0 {
        0
    } else {
        binomial((n - 1) as nat, (k - 1) as nat) + binomial((n - 1) as nat, k)
    }
}

/// The last row of the triangle whose entries all fit in an `i32`.
pub const MAX_ROW: usize = 33;

/// Beyond the diagonal the triangle is empty.
pub proof fn lemma_binomial_beyond(n: nat, k: nat)
    requires
        k > n,
    ensures
        binomial(n, k) == 0,
    decreases n,
{
    if n > 0 {
        lemma_binomial_beyond((n - 1) as nat, (k - 1) as nat);
        lemma_binomial_beyond((n - 1) as nat, k);
    }
}

/// Going down a column the entries never shrink.
pub proof fn lemma_binomial_grows(n: nat, m: nat, k: nat)
    requires
        n <= m,
    ensures
        binomial(n, k) <= binomial(m, k),
    decreases m,
{
    if n < m {
        lemma_binomial_grows(n, (m - 1) as nat, k);
    }
}

/// Along a row, each entry determines the next:
/// `k * C(n, k) == (n - k + 1) * C(n, k - 1)`.
pub proof fn lemma_binomial_step(n: nat, k: nat)
    requires
        1 <= k <= n + 1,
    ensures
        k * binomial(n, k) == (n - k + 1) * binomial(n, (k - 1) as nat),
    decreases n,
{
    if n == 0 {
        lemma_binomial_beyond(0, 1);
    } else {
        let up = binomial((n - 1) as nat, (k - 1) as nat);
        let right = binomial((n - 1) as nat, k);
        if k <= n {
            lemma_binomial_step((n - 1) as nat, k);
            assert(((n - 1) as nat) - k + 1 == n - k);
        } else {
            lemma_binomial_beyond((n - 1) as nat, k);
            lemma_binomial_beyond((n - 1) as nat, (k - 1) as nat);
        }
        assert(k * right == (n - k) * up) by (nonlinear_arith)
            requires
                k <= n ==> k * right == (((n - 1) as nat) - k + 1) * up,
                k <= n ==> ((n - 1) as nat) - k + 1 == n - k,
                k > n ==> right == 0 && up == 0,
        ;
        assert(k * binomial(n, k) == n * up) by (nonlinear_arith)
            requires
                binomial(n, k) == up + right,
                k * right == (n - k) * up,
        ;
        if k >= 2 {
            let left = binomial((n - 1) as nat, (k - 2) as nat);
            lemma_binomial_step((n - 1) as nat, (k - 1) as nat);
            assert((k - 1) * up == (n - k + 1) * left) by (nonlinear_arith)
                requires
                    ((k - 1) as nat) * up == (((n - 1) as nat) - ((k - 1) as nat) + 1) * left,
                    k >= 2,
                    n >= 1,
            ;
            assert((n - k + 1) * binomial(n, (k - 1) as nat) == n * up) by (nonlinear_arith)
                requires
                    binomial(n, (k - 1) as nat) == left + up,
                    (k - 1) * up == (n - k + 1) * left,
            ;
        }
    }
}

/// The largest entry of the triangle down to row `MAX_ROW`.
pub const MAX_ENTRY: i32 = 1166803110;

/// One step along row `MAX_ROW`: the entry after `prev` is the `next` with
/// `k * next == (MAX_ROW + 1 - k) * prev`.
proof fn lemma_last_row_step(k: nat, prev: nat, next: nat)
    requires
        1 <= k <= 33,
        binomial(33, (k - 1) as nat) == prev,
        k * next == (34 - k) * prev,
    ensures
        binomial(33, k) == next,
{
    lemma_binomial_step(33, k);
    let entry = binomial(33, k);
    assert(entry == next) by (nonlinear_arith)
        requires
            1 <= k,
            k * entry == (33 - k + 1) * prev,
            k * next == (34 - k) * prev,
    ;
}

/// Every entry of row `MAX_ROW` is at most `MAX_ENTRY`.
proof fn lemma_last_row_bounded(k: nat)
    ensures
        binomial(MAX_ROW as nat, k) <= MAX_ENTRY,
{
    if k > 33 {
        lemma_binomial_beyond(33, k);
    } else {
        assert(binomial(33, 0) == 1);
        lemma_last_row_step(1, 1, 33);
        lemma_last_row_step(2, 33, 528);
        lemma_last_row_step(3, 528, 5456);
        lemma_last_row_step(4, 5456, 40920);
        lemma_last_row_step(5, 40920, 237336);
        lemma_last_row_step(6, 237336, 1107568);
        lemma_last_row_step(7, 1107568, 4272048);
        lemma_last_row_step(8, 4272048, 13884156);
        lemma_last_row_step(9, 13884156, 38567100);
        lemma_last_row_step(10, 38567100, 92561040);
        lemma_last_row_step(11, 92561040, 193536720);
        lemma_last_row_step(12, 193536720, 354817320);
        lemma_last_row_step(13, 354817320, 573166440);
        lemma_last_row_step(14, 573166440, 818809200);
        lemma_last_row_step(15, 818809200, 1037158320);
        lemma_last_row_step(16, 1037158320, 1166803110);
        lemma_last_row_step(17, 1166803110, 1166803110);
        lemma_last_row_step(18, 1166803110, 1037158320);
        lemma_last_row_step(19, 1037158320, 818809200);
        lemma_last_row_step(20, 818809200, 573166440);
        lemma_last_row_step(21, 573166440, 354817320);
        lemma_last_row_step(22, 354817320, 193536720);
        lemma_last_row_step(23, 193536720, 92561040);
        lemma_last_row_step(24, 92561040, 38567100);
        lemma_last_row_step(25, 38567100, 13884156);
        lemma_last_row_step(26, 13884156, 4272048);
        lemma_last_row_step(27, 4272048, 1107568);
        lemma_last_row_step(28, 1107568, 237336);
        lemma_last_row_step(29, 237336, 40920);
        lemma_last_row_step(30, 40920, 5456);
        lemma_last_row_step(31, 5456, 528);
        lemma_last_row_step(32, 528, 33);
        lemma_last_row_step(33, 33, 1);
        assert(k == 0 || k == 1 || k == 2 || k == 3 || k == 4 || k == 5 || k == 6 || k == 7 || k == 8 || k == 9 || k == 10 || k == 11 || k == 12 || k == 13 || k == 14 || k == 15 || k == 16 || k == 17 || k == 18 || k == 19 || k == 20 || k == 21 || k == 22 || k == 23 || k == 24 || k == 25 || k == 26 || k == 27 || k == 28 || k == 29 || k == 30 || k == 31 || k == 32 || k == 33);
    }
}

/// Down to row `MAX_ROW`, every entry of the triangle is at most
/// `MAX_ENTRY`, and so fits in an `i32`.
pub proof fn lemma_binomial_bounded(n: nat, k: nat)
    requires
        n <= MAX_ROW,
    ensures
        binomial(n, k) <= MAX_ENTRY,
{
    lemma_binomial_grows(n, MAX_ROW as nat, k);
    lemma_last_row_bounded(k);
}

/// Row `n` of the triangle: the entry at `k` is `binomial(n, k)`.
pub fn get_binom_coefficients(n: usize) -> (coeffs: Vec<i32>)
    requires
        n <= MAX_ROW,
    ensures
        coeffs@.len() == n + 1,
        forall|k: int| 0 <= k <= n ==> #[trigger] coeffs@[k] == binomial(n as nat, k as nat),
{
    let mut coeffs: Vec<i32> = Vec::new();
    let mut filled: usize = 0;
    while filled <= n
        invariant
            n <= MAX_ROW,
            filled <= n + 1,
            coeffs@.len() == filled,
            forall|k: int| 0 <= k < filled ==> #[trigger] coeffs@[k] == 0,
        decreases n + 1 - filled,
    {
        coeffs.push(0);
        filled = filled + 1;
    }
    coeffs.set(0, 1);
    assert forall|k: int| 0 <= k <= n implies #[trigger] coeffs@[k] == binomial(0, k as nat) by {
        if k > 0 {
            lemma_binomial_beyond(0, k as nat);
        }
    }
    let mut row: usize = 0;
    while row < n
        invariant
            row <= n <= MAX_ROW,
            coeffs@.len() == n + 1,
            forall|k: int| 0 <= k <= n ==> #[trigger] coeffs@[k] == binomial(row as nat, k as nat),
        decreases n - row,
    {
        let mut j: usize = row + 1;
        assert forall|k: int| j < k <= n implies #[trigger] coeffs@[k] == binomial(
            (row + 1) as nat,
            k as nat,
        ) by {
            lemma_binomial_beyond(row as nat, k as nat);
            lemma_binomial_beyond((row + 1) as nat, k as nat);
        }
        while j >= 1
            invariant
                row < n <= MAX_ROW,
                j <= row + 1,
                coeffs@.len() == n + 1,
                forall|k: int|
                    j < k <= n ==> #[trigger] coeffs@[k] == binomial((row + 1) as nat, k as nat),
                forall|k: int| 0 <= k <= j ==> #[trigger] coeffs@[k] == binomial(row as nat, k as nat),
            decreases j,
        {
            proof {
                lemma_binomial_bounded((row + 1) as nat, j as nat);
                assert(coeffs@[j as int] == binomial(row as nat, j as nat));
                assert(coeffs@[j - 1] == binomial(row as nat, (j - 1) as nat));
            }
            let sum: i32 = coeffs[j] + coeffs[j - 1];
            coeffs.set(j, sum);
            j = j - 1;
        }
        row = row + 1;
    }
    coeffs
}

/// The triangle down to row `n`: row `i` has `i + 1` entries, and the entry
/// at `k` of row `i` is `binomial(i, k)`.
pub fn get_all_binom_coefficients(n: usize) -> (rows: Vec<Vec<i32>>)
    requires
        n <= MAX_ROW,
    ensures
        rows@.len() == n + 1,
        forall|i: int| 0 <= i <= n ==> (#[trigger] rows@[i])@.len() == i + 1,
        forall|i: int, k: int|
            0 <= k <= i <= n ==> #[trigger] rows@[i]@[k] == binomial(i as nat, k as nat),
{
    let mut rows: Vec<Vec<i32>> = Vec::new();
    let mut i: usize = 0;
    while i <= n
        invariant
            n <= MAX_ROW,
            i <= n + 1,
            rows@.len() == i,
            forall|r: int| 0 <= r < i ==> (#[trigger] rows@[r])@.len() == r + 1,
            forall|r: int, k: int|
                0 <= k <= r < i ==> #[trigger] rows@[r]@[k] == binomial(r as nat, k as nat),
        decreases n + 1 - i,
    {
        let row = get_binom_coefficients(i);
        rows.push(row);
        i = i + 1;
    }
    rows
}

} // verus!
