use vstd::prelude::*;

use crate::MatrixError;

verus! {

/// A contiguous run of matrix elements — one row or one column — extracted
/// for a single dot-product call.
#[derive(Debug)]
pub struct Vector {
    pub data: Vec<i64>,
}

impl View for Vector {
    type V = Seq<i64>;

    open spec fn view(&self) -> Seq<i64> {
        self.data@
    }
}

impl Vector {
    pub fn new(data: Vec<i64>) -> (r: Self)
        ensures
            r@ == data@,
    {
        Vector { data }
    }

    pub fn len(&self) -> (r: usize)
        ensures
            r == self@.len(),
    {
        self.data.len()
    }
}

/// The scalar product of the first `n` element pairs of `a` and `b`,
/// accumulated left to right with wrapping `i64` arithmetic.
pub open spec fn wdot_prefix(a: Seq<i64>, b: Seq<i64>, n: int) -> i64
    decreases n,
{
    if n <= 0 {
        0
    } else {
        wdot_prefix(a, b, n - 1).wrapping_add(a[n - 1].wrapping_mul(b[n - 1]))
    }
}

/// The scalar product of two equal-length vectors, starting from the additive
/// identity and accumulating `a[i] * b[i]` in index order.
pub open spec fn wdot(a: Seq<i64>, b: Seq<i64>) -> i64 {
    wdot_prefix(a, b, a.len() as int)
}

/// The dot-product primitive consumed by the workers: pure, no side effects.
///
/// Succeeds on exactly the pairs of equal length; on mismatch it reports both
/// lengths and computes nothing.
pub fn dot_product(a: Vector, b: Vector) -> (r: Result<i64, MatrixError>)
    ensures
        a@.len() == b@.len() ==> r == Ok::<i64, MatrixError>(wdot(a@, b@)),
        a@.len() != b@.len() ==> r == Err::<i64, MatrixError>(
            (MatrixError::LengthMismatch { len_a: a@.len() as usize, len_b: b@.len() as usize }),
        ),
{
    if a.data.len() != b.data.len() {
        return Err(MatrixError::LengthMismatch { len_a: a.data.len(), len_b: b.data.len() });
    }
    let n = a.data.len();
    let mut acc: i64 = 0;
    let mut k: usize = 0;
    while k < n
        invariant
            n == a@.len(),
            n == b@.len(),
            k <= n,
            acc == wdot_prefix(a@, b@, k as int),
        decreases n - k,
    {
        acc = acc.wrapping_add(a.data[k].wrapping_mul(b.data[k]));
        k = k + 1;
    }
    Ok(acc)
}

} // verus!
