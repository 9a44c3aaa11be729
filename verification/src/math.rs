//! 4x4 transform matrices over fixed-width integer entries.
//!
//! A matrix is a flat row-major sequence of 16 entries. Multiplication uses
//! wrapping arithmetic, so it is total: no input is rejected.

use vstd::prelude::*;

verus! {

/// A 4x4 transform matrix, stored row-major: entry (i, j) is at index 4*i + j.
pub struct Mat4 {
    pub entries: Vec<i64>,
}

impl View for Mat4 {
    type V = Seq<i64>;

    open spec fn view(&self) -> Seq<i64> {
        self.entries@
    }
}

impl Mat4 {
    /// A matrix is well formed when it has exactly 16 entries.
    pub open spec fn wf(&self) -> bool {
        self@.len() == 16
    }

    /// The identity transform.
    pub fn identity() -> (r: Mat4)
        ensures
            r@ == mat_identity(),
            r.wf(),
    {
        let entries: Vec<i64> = vec![
            1, 0, 0, 0,
            0, 1, 0, 0,
            0, 0, 1, 0,
            0, 0, 0, 1,
        ];
        proof {
            assert(entries@ =~= mat_identity());
        }
        Mat4 { entries }
    }

    /// An exact copy of this matrix.
    pub fn duplicate(&self) -> (r: Mat4)
        ensures
            r@ == self@,
    {
        let mut entries: Vec<i64> = Vec::new();
        let mut i: usize = 0;
        while i < self.entries.len()
            invariant
                i <= self@.len(),
                entries@ == self@.subrange(0, i as int),
            decreases self@.len() - i,
        {
            entries.push(self.entries[i]);
            proof {
                assert(entries@ =~= self@.subrange(0, i + 1));
            }
            i += 1;
        }
        proof {
            assert(entries@ =~= self@);
        }
        Mat4 { entries }
    }
}

/// The identity matrix: ones on the diagonal, zeroes elsewhere.
pub open spec fn mat_identity() -> Seq<i64> {
    seq![
        1i64, 0i64, 0i64, 0i64,
        0i64, 1i64, 0i64, 0i64,
        0i64, 0i64, 1i64, 0i64,
        0i64, 0i64, 0i64, 1i64,
    ]
}

/// Entry (i, j) of the product of two row-major 4x4 matrices, with wrapping
/// integer arithmetic.
pub open spec fn mat_mul_entry(a: Seq<i64>, b: Seq<i64>, i: int, j: int) -> i64 {
    a[4 * i].wrapping_mul(b[j])
        .wrapping_add(a[4 * i + 1].wrapping_mul(b[4 + j]))
        .wrapping_add(a[4 * i + 2].wrapping_mul(b[8 + j]))
        .wrapping_add(a[4 * i + 3].wrapping_mul(b[12 + j]))
}

/// The row-major product of two 4x4 matrices.
pub open spec fn mat_mul_spec(a: Seq<i64>, b: Seq<i64>) -> Seq<i64> {
    Seq::new(16, |n: int| mat_mul_entry(a, b, n / 4, n % 4))
}

fn mul_entry(a: &Vec<i64>, b: &Vec<i64>, i: usize, j: usize) -> (r: i64)
    requires
        a@.len() == 16,
        b@.len() == 16,
        i < 4,
        j < 4,
    ensures
        r == mat_mul_entry(a@, b@, i as int, j as int),
{
    a[4 * i].wrapping_mul(b[j])
        .wrapping_add(a[4 * i + 1].wrapping_mul(b[4 + j]))
        .wrapping_add(a[4 * i + 2].wrapping_mul(b[8 + j]))
        .wrapping_add(a[4 * i + 3].wrapping_mul(b[12 + j]))
}

/// Multiplies two 4x4 matrices with wrapping integer arithmetic.
pub fn mat_mul(a: &Mat4, b: &Mat4) -> (r: Mat4)
    requires
        a.wf(),
        b.wf(),
    ensures
        r.wf(),
        r@ == mat_mul_spec(a@, b@),
{
    let mut entries: Vec<i64> = Vec::new();
    let mut n: usize = 0;
    while n < 16
        invariant
            a.wf(),
            b.wf(),
            n <= 16,
            entries@.len() == n,
            forall|k: int| 0 <= k < n ==> entries@[k] == mat_mul_spec(a@, b@)[k],
        decreases 16 - n,
    {
        entries.push(mul_entry(&a.entries, &b.entries, n / 4, n % 4));
        n += 1;
    }
    proof {
        assert(entries@ =~= mat_mul_spec(a@, b@));
    }
    Mat4 { entries }
}

} // verus!
