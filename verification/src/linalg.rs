//! Dense linear algebra for the solver: Gaussian elimination with partial
//! pivoting on a square fixed-point matrix stored flat in row-major order.
//!
//! The elimination is specified functionally: `gauss_solution` computes the
//! solver's exact result, step by step, and `solve_linear_system` returns
//! precisely that value.  Each step builds the next matrix from the
//! previous one, so the executable code does the same instead of updating
//! in place.

use vstd::prelude::*;

use crate::fixed::{
    abs_fx, abs_fx_i64, div_fx, div_fx_i64, mul_fx, mul_fx_i64, sub_fx, sub_fx_i64,
};

verus! {

/// Row `r`'s source row once rows `k` and `piv` are swapped.
pub open spec fn swapped_row(k: int, piv: int, r: int) -> int {
    if r == k {
        piv
    } else if r == piv {
        k
    } else {
        r
    }
}

/// The first row with the largest magnitude in column `k` among rows
/// `k..r`, scanning upward: partial pivoting.
pub open spec fn pivot_in(a: Seq<i64>, n: int, k: int, r: int) -> int
    decreases r - k,
{
    if r <= k + 1 {
        k
    } else {
        let prev = pivot_in(a, n, k, r - 1);
        if abs_fx_i64(a[(r - 1) * n + k]) > abs_fx_i64(a[prev * n + k]) {
            r - 1
        } else {
            prev
        }
    }
}

/// The matrix after elimination step `k` with pivot row `piv`: rows `k`
/// and `piv` swapped, then every row below `k` reduced in the columns from
/// `k` on by its multiple of the pivot row.
pub open spec fn step_matrix(a: Seq<i64>, n: int, k: int, piv: int) -> Seq<i64> {
    Seq::new(
        a.len(),
        |idx: int|
            {
                let r = idx / n;
                let c = idx % n;
                let sr = swapped_row(k, piv, r);
                if r > k && c >= k {
                    sub_fx_i64(
                        a[sr * n + c],
                        mul_fx_i64(
                            div_fx_i64(a[sr * n + k], a[piv * n + k]),
                            a[piv * n + c],
                        ),
                    )
                } else {
                    a[sr * n + c]
                }
            },
    )
}

/// The right-hand side after elimination step `k` with pivot row `piv`.
pub open spec fn step_rhs(a: Seq<i64>, b: Seq<i64>, n: int, k: int, piv: int) -> Seq<i64> {
    Seq::new(
        b.len(),
        |r: int|
            {
                let sr = swapped_row(k, piv, r);
                if r > k {
                    sub_fx_i64(
                        b[sr],
                        mul_fx_i64(div_fx_i64(a[sr * n + k], a[piv * n + k]), b[piv]),
                    )
                } else {
                    b[sr]
                }
            },
    )
}

/// The system after the first `k` elimination steps, or `None` when a
/// step met a zero pivot.
pub open spec fn forward_to(a: Seq<i64>, b: Seq<i64>, n: int, k: int) -> Option<
    (Seq<i64>, Seq<i64>),
>
    decreases k,
{
    if k <= 0 {
        Some((a, b))
    } else {
        match forward_to(a, b, n, k - 1) {
            Option::None => None,
            Option::Some((a1, b1)) => {
                let piv = pivot_in(a1, n, k - 1, n);
                if a1[piv * n + (k - 1)] == 0 {
                    None
                } else {
                    Some((step_matrix(a1, n, k - 1, piv), step_rhs(a1, b1, n, k - 1, piv)))
                }
            },
        }
    }
}

/// Once elimination fails, it stays failed through the later steps.
proof fn lemma_forward_none(a: Seq<i64>, b: Seq<i64>, n: int, k: int, j: int)
    requires
        0 <= k <= j,
        forward_to(a, b, n, k) is None,
    ensures
        forward_to(a, b, n, j) is None,
    decreases j - k,
{
    if j > k {
        lemma_forward_none(a, b, n, k, j - 1);
    }
}

/// The solution value of unknown `k` by back substitution on the
/// eliminated system.
pub open spec fn back_substituted(a: Seq<i64>, b: Seq<i64>, n: int, k: int) -> i64
    decreases n - k, 1int, 0int,
{
    if 0 <= k < n {
        div_fx_i64(back_partial(a, b, n, k, n), a[k * n + k])
    } else {
        0
    }
}

/// The accumulator of back substitution for unknown `k` after the columns
/// `k+1 .. c` have been folded in.
pub open spec fn back_partial(a: Seq<i64>, b: Seq<i64>, n: int, k: int, c: int) -> i64
    decreases n - k, 0int, c,
{
    if c <= k + 1 || c > n || k < 0 {
        b[k]
    } else {
        sub_fx_i64(
            back_partial(a, b, n, k, c - 1),
            mul_fx_i64(a[k * n + (c - 1)], back_substituted(a, b, n, c - 1)),
        )
    }
}

/// The exact result of Gaussian elimination with partial pivoting and
/// back substitution on the fixed-point system `a · x = b`: `None` when a
/// zero pivot or a zero diagonal entry is met, otherwise the solution
/// vector.
pub open spec fn gauss_solution(a: Seq<i64>, b: Seq<i64>, n: int) -> Option<Seq<i64>> {
    match forward_to(a, b, n, n) {
        Option::None => None,
        Option::Some((fa, fb)) => {
            if exists|k: int| 0 <= k < n && #[trigger] fa[k * n + k] == 0 {
                None
            } else {
                Some(Seq::new(n as nat, |k: int| back_substituted(fa, fb, n, k)))
            }
        },
    }
}

/// A cell offset stays within the flat matrix.
proof fn lemma_cell_fits(r: int, c: int, n: int)
    requires
        0 <= r < n,
        0 <= c < n,
    ensures
        0 <= r * n + c < n * n,
{
    assert(0 <= r * n + c < n * n) by (nonlinear_arith)
        requires
            0 <= r < n,
            0 <= c < n,
    ;
}

/// The flat index `(r, c)` decomposes back into its row and column.
proof fn lemma_cell_decompose(r: int, c: int, n: int)
    requires
        0 <= r < n,
        0 <= c < n,
    ensures
        (r * n + c) / n == r,
        (r * n + c) % n == c,
        0 <= r * n + c < n * n,
{
    assert((r * n + c) / n == r && (r * n + c) % n == c && 0 <= r * n + c < n * n)
        by (nonlinear_arith)
        requires
            0 <= r < n,
            0 <= c < n,
    ;
}

/// Solves the linear system `a · x = b` for `x`, where `a` is an `n` by
/// `n` matrix stored flat in row-major order.  Returns exactly
/// `gauss_solution(a, b, n)`: `None` when a zero pivot is met, the
/// fixed-point analogue of a singular matrix, and the eliminated,
/// back-substituted solution otherwise.
#[verifier::loop_isolation(false)]
#[verifier::rlimit(100)]
pub fn solve_linear_system(n: usize, a: Vec<i64>, b: Vec<i64>) -> (r: Option<Vec<i64>>)
    requires
        a@.len() == n * n,
        b@.len() == n,
    ensures
        r is Some <==> gauss_solution(a@, b@, n as int) is Some,
        r matches Some(x) ==> Some(x@) == gauss_solution(a@, b@, n as int),
{
    let ghost a0 = a@;
    let ghost b0 = b@;
    let mut a = a;
    let mut b = b;
    let flat_len = a.len();
    proof {
        assert(flat_len == n * n);
        assert(n * n <= usize::MAX);
    }
    let mut k: usize = 0;
    while k < n
        invariant
            0 <= k <= n,
            a@.len() == n * n,
            b@.len() == n,
            forward_to(a0, b0, n as int, k as int) == Some((a@, b@)),
        decreases n - k,
    {
        proof {
            lemma_cell_fits(k as int, k as int, n as int);
        }
        // Partial pivoting: pick the first row with the largest magnitude
        // in column k.
        let mut pivot_row: usize = k;
        let mut pivot_mag: i64 = abs_fx(a[k * n + k]);
        let mut r: usize = k + 1;
        while r < n
            invariant
                k < n,
                k < r <= n,
                k <= pivot_row < n,
                pivot_row as int == pivot_in(a@, n as int, k as int, r as int),
                pivot_mag == abs_fx_i64(a@[pivot_row as int * (n as int) + k as int]),
            decreases n - r,
        {
            proof {
                lemma_cell_fits(r as int, k as int, n as int);
            }
            let mag = abs_fx(a[r * n + k]);
            if mag > pivot_mag {
                pivot_row = r;
                pivot_mag = mag;
            }
            r = r + 1;
        }
        proof {
            lemma_cell_fits(pivot_row as int, k as int, n as int);
        }
        if a[pivot_row * n + k] == 0 {
            proof {
                assert(forward_to(a0, b0, n as int, k as int + 1) is None);
                lemma_forward_none(a0, b0, n as int, k as int + 1, n as int);
            }
            return None;
        }
        // Build the next system: rows k and pivot swapped, rows below k
        // reduced by their multiple of the pivot row.
        let mut next_a: Vec<i64> = Vec::new();
        let mut next_b: Vec<i64> = Vec::new();
        let mut r: usize = 0;
        while r < n
            invariant
                0 <= r <= n,
                k < n,
                pivot_row < n,
                a@.len() == n * n,
                b@.len() == n,
                next_a@.len() == r * n,
                next_b@.len() == r,
                forall|idx: int|
                    0 <= idx < next_a@.len() ==> (#[trigger] next_a@[idx]) == step_matrix(
                        a@,
                        n as int,
                        k as int,
                        pivot_row as int,
                    )[idx],
                forall|idx: int|
                    0 <= idx < next_b@.len() ==> (#[trigger] next_b@[idx]) == step_rhs(
                        a@,
                        b@,
                        n as int,
                        k as int,
                        pivot_row as int,
                    )[idx],
            decreases n - r,
        {
            let source_row: usize = if r == k {
                pivot_row
            } else if r == pivot_row {
                k
            } else {
                r
            };
            proof {
                lemma_cell_fits(source_row as int, k as int, n as int);
            }
            let factor: i64 = if r > k {
                div_fx(a[source_row * n + k], a[pivot_row * n + k])
            } else {
                0
            };
            let mut c: usize = 0;
            while c < n
                invariant
                    0 <= c <= n,
                    r < n,
                    k < n,
                    pivot_row < n,
                    source_row as int == swapped_row(k as int, pivot_row as int, r as int),
                    source_row < n,
                    r > k ==> factor == div_fx_i64(
                        a@[source_row as int * (n as int) + k as int],
                        a@[pivot_row as int * (n as int) + k as int],
                    ),
                    a@.len() == n * n,
                    next_a@.len() == r * n + c,
                    forall|idx: int|
                        0 <= idx < next_a@.len() ==> (#[trigger] next_a@[idx]) == step_matrix(
                            a@,
                            n as int,
                            k as int,
                            pivot_row as int,
                        )[idx],
                decreases n - c,
            {
                proof {
                    lemma_cell_decompose(r as int, c as int, n as int);
                    lemma_cell_fits(source_row as int, c as int, n as int);
                    lemma_cell_fits(pivot_row as int, c as int, n as int);
                }
                let cell: i64 = if r > k && c >= k {
                    sub_fx(a[source_row * n + c], mul_fx(factor, a[pivot_row * n + c]))
                } else {
                    a[source_row * n + c]
                };
                next_a.push(cell);
                c = c + 1;
            }
            let entry: i64 = if r > k {
                sub_fx(b[source_row], mul_fx(factor, b[pivot_row]))
            } else {
                b[source_row]
            };
            next_b.push(entry);
            proof {
                assert((r as int + 1) * (n as int) == r as int * (n as int) + n as int)
                    by (nonlinear_arith);
            }
            r = r + 1;
        }
        proof {
            assert(next_a@ =~= step_matrix(a@, n as int, k as int, pivot_row as int));
            assert(next_b@ =~= step_rhs(a@, b@, n as int, k as int, pivot_row as int));
        }
        a = next_a;
        b = next_b;
        k = k + 1;
    }
    let ghost fa = a@;
    let ghost fb = b@;
    // Back substitution, from the last unknown upward.
    let mut x: Vec<i64> = Vec::new();
    let mut i: usize = 0;
    while i < n
        invariant
            0 <= i <= n,
            x@.len() == i,
        decreases n - i,
    {
        x.push(0);
        i = i + 1;
    }
    let mut k: usize = n;
    while k > 0
        invariant
            0 <= k <= n,
            a@ == fa,
            b@ == fb,
            a@.len() == n * n,
            b@.len() == n,
            x@.len() == n,
            forall|c: int|
                (k as int) <= c < n ==> (#[trigger] fa[c * (n as int) + c]) != 0,
            forall|c: int|
                (k as int) <= c < n ==> (#[trigger] x@[c]) == back_substituted(
                    fa,
                    fb,
                    n as int,
                    c,
                ),
        decreases k,
    {
        k = k - 1;
        let mut acc: i64 = b[k];
        let mut c: usize = k + 1;
        while c < n
            invariant
                k < c <= n,
                k < n,
                a@ == fa,
                b@ == fb,
                x@.len() == n,
                forall|q: int|
                    (k as int) < q < n ==> (#[trigger] fa[q * (n as int) + q]) != 0,
                forall|q: int|
                    (k as int) < q < n ==> (#[trigger] x@[q]) == back_substituted(
                        fa,
                        fb,
                        n as int,
                        q,
                    ),
                acc == back_partial(fa, fb, n as int, k as int, c as int),
            decreases n - c,
        {
            proof {
                lemma_cell_fits(k as int, c as int, n as int);
            }
            acc = sub_fx(acc, mul_fx(a[k * n + c], x[c]));
            c = c + 1;
        }
        proof {
            lemma_cell_fits(k as int, k as int, n as int);
        }
        if a[k * n + k] == 0 {
            proof {
                assert(fa[k as int * (n as int) + k as int] == 0);
            }
            return None;
        }
        let solved = div_fx(acc, a[k * n + k]);
        x.set(k, solved);
        proof {
            assert(x@[k as int] == back_substituted(fa, fb, n as int, k as int));
        }
    }
    proof {
        assert(forall|q: int| 0 <= q < n ==> (#[trigger] fa[q * (n as int) + q]) != 0);
        assert(x@ =~= Seq::new(n as nat, |q: int| back_substituted(fa, fb, n as int, q)));
    }
    Some(x)
}

} // verus!
