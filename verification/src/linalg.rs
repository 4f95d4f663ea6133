//! Small vector and matrix helpers over binary64 bit patterns, together with
//! the two linear-algebra operations the estimators take from nalgebra.

use vstd::prelude::*;

use crate::fp;
use crate::fp::{fadd, F_ZERO};

verus! {

/// An exact copy of a vector of bit patterns.
pub fn copy_vec(v: &Vec<u64>) -> (r: Vec<u64>)
    ensures
        r@ == v@,
{
    let mut r: Vec<u64> = Vec::new();
    for i in 0..v.len()
        invariant
            r@ == v@.subrange(0, i as int),
    {
        r.push(v[i]);
    }
    proof {
        assert(r@ =~= v@);
    }
    r
}

/// An exact copy of a matrix of bit patterns.
pub fn copy_mat(m: &Vec<Vec<u64>>) -> (r: Vec<Vec<u64>>)
    ensures
        r@.len() == m@.len(),
        forall|i: int| 0 <= i < m@.len() ==> #[trigger] r@[i]@ == m@[i]@,
{
    let mut r: Vec<Vec<u64>> = Vec::new();
    for i in 0..m.len()
        invariant
            r@.len() == i,
            forall|k: int| 0 <= k < i ==> #[trigger] r@[k]@ == m@[k]@,
    {
        r.push(copy_vec(&m[i]));
    }
    r
}

/// A vector of this many zero bit patterns.
pub fn zeros(n: usize) -> (r: Vec<u64>)
    ensures
        r@.len() == n,
        forall|i: int| 0 <= i < n ==> r@[i] == F_ZERO,
{
    let mut r: Vec<u64> = Vec::new();
    for i in 0..n
        invariant
            r@.len() == i,
            forall|k: int| 0 <= k < i ==> r@[k] == F_ZERO,
    {
        r.push(F_ZERO);
    }
    r
}

/// An `n` by `n` matrix of zero bit patterns.
pub fn zero_mat(n: usize) -> (r: Vec<Vec<u64>>)
    ensures
        r@.len() == n,
        forall|i: int| 0 <= i < n ==> (#[trigger] r@[i])@.len() == n,
        forall|i: int, j: int| 0 <= i < n && 0 <= j < n ==> #[trigger] r@[i]@[j] == F_ZERO,
{
    let mut r: Vec<Vec<u64>> = Vec::new();
    for i in 0..n
        invariant
            r@.len() == i,
            forall|k: int| 0 <= k < i ==> (#[trigger] r@[k])@.len() == n,
            forall|k: int, j: int| 0 <= k < i && 0 <= j < n ==> #[trigger] r@[k]@[j] == F_ZERO,
    {
        r.push(zeros(n));
    }
    r
}

/// The square matrix with this diagonal and zeros elsewhere.
pub fn diag_matrix(diag: &Vec<u64>) -> (r: Vec<Vec<u64>>)
    ensures
        r@.len() == diag@.len(),
        forall|i: int| 0 <= i < diag@.len() ==> (#[trigger] r@[i])@.len() == diag@.len(),
        forall|i: int, j: int|
            0 <= i < diag@.len() && 0 <= j < diag@.len() ==> #[trigger] r@[i]@[j] == (if i == j {
                diag@[i]
            } else {
                F_ZERO
            }),
{
    let n = diag.len();
    let mut r: Vec<Vec<u64>> = Vec::new();
    for i in 0..n
        invariant
            n == diag@.len(),
            r@.len() == i,
            forall|k: int| 0 <= k < i ==> (#[trigger] r@[k])@.len() == n,
            forall|k: int, j: int|
                0 <= k < i && 0 <= j < n ==> #[trigger] r@[k]@[j] == (if k == j {
                    diag@[k]
                } else {
                    F_ZERO
                }),
    {
        let mut row: Vec<u64> = Vec::new();
        for j in 0..n
            invariant
                n == diag@.len(),
                row@.len() == j,
                forall|k: int| 0 <= k < j ==> row@[k] == (if i == k { diag@[i as int] } else { F_ZERO }),
        {
            if i == j {
                row.push(diag[i]);
            } else {
                row.push(F_ZERO);
            }
        }
        r.push(row);
    }
    r
}


/// The binary64 left fold of `fadd` over `s` from index `i` onward, starting
/// from `acc`: the order in which running sums are accumulated.
pub open spec fn sum_from(s: Seq<u64>, i: int, acc: u64) -> u64
    decreases s.len() - i,
{
    if i < 0 || i >= s.len() {
        acc
    } else {
        sum_from(s, i + 1, fadd(acc, s[i]))
    }
}

/// The running binary64 sum of a vector, left to right, from `start`.
pub fn sum_vec(v: &Vec<u64>, start: u64) -> (r: u64)
    ensures
        r == sum_from(v@, 0, start),
{
    let mut acc = start;
    let n = v.len();
    for i in 0..n
        invariant
            n == v@.len(),
            sum_from(v@, 0, start) == sum_from(v@, i as int, acc),
    {
        acc = fp::add(acc, v[i]);
    }
    acc
}


/// A sequence of vectors, seen as a sequence of sequences.
pub open spec fn rows_view(m: Seq<Vec<u64>>) -> Seq<Seq<u64>> {
    Seq::new(m.len(), |i: int| m[i]@)
}


/// What nalgebra's Cholesky solve returns for this column-major matrix and
/// right-hand side, when the matrix is positive definite.
pub uninterp spec fn chol_solve_of(h: Seq<u64>, n: int, g: Seq<u64>) -> Option<Seq<u64>>;

/// What nalgebra's LU inversion returns for this column-major matrix.
pub uninterp spec fn inverse_of(m: Seq<u64>, n: int) -> Option<Seq<u64>>;

/// An optional vector, seen through its view.
pub open spec fn opt_vec_view(r: Option<Vec<u64>>) -> Option<Seq<u64>> {
    match r {
        Some(v) => Some(v@),
        None => None,
    }
}

/// Relies on nalgebra's `Cholesky::new` and `Cholesky::solve`: the
/// decomposition exists exactly for positive-definite input, and the solve
/// returns a vector of the system's dimension; both are functions of the
/// input bits alone.  (`bytemuck::cast_slice` moves the bits between `u64`
/// and binary64 unchanged; the scalar `one` from `Duration::as_secs_f64`
/// fixes the matrix element type by the exact identity `m * 1`.)
#[verifier::external_body]
pub fn chol_solve(h: &Vec<u64>, n: usize, g: &Vec<u64>) -> (r: Option<Vec<u64>>)
    requires
        h@.len() == n * n,
        g@.len() == n,
    ensures
        opt_vec_view(r) == chol_solve_of(h@, n as int, g@),
        r matches Some(v) ==> v@.len() == n,
{
    let one = std::time::Duration::from_secs(1).as_secs_f64();
    let m = nalgebra::DMatrix::from_column_slice(n, n, bytemuck::cast_slice(h.as_slice())) * one;
    let v = nalgebra::DVector::from_column_slice(bytemuck::cast_slice(g.as_slice())) * one;
    match m.cholesky() {
        Some(chol) => {
            let s = chol.solve(&v);
            Some(bytemuck::cast_slice(s.as_slice()).to_vec())
        },
        None => None,
    }
}

/// Relies on nalgebra's `try_inverse`: inversion by LU decomposition, a
/// function of the input bits alone, failing exactly on matrices its
/// pivoting finds singular.  The result is square of the same dimension.
#[verifier::external_body]
pub fn mat_inverse(m: &Vec<u64>, n: usize) -> (r: Option<Vec<u64>>)
    requires
        m@.len() == n * n,
    ensures
        opt_vec_view(r) == inverse_of(m@, n as int),
        r matches Some(v) ==> v@.len() == n * n,
{
    let one = std::time::Duration::from_secs(1).as_secs_f64();
    let mm = nalgebra::DMatrix::from_column_slice(n, n, bytemuck::cast_slice(m.as_slice())) * one;
    match mm.try_inverse() {
        Some(inv) => Some(bytemuck::cast_slice(inv.as_slice()).to_vec()),
        None => None,
    }
}

} // verus!
