//! Vectors and matrices of fixed-point scalars.
//!
//! A vector is a `Vec<i64>` of fixed-point values and a matrix a
//! `Vec<Vec<i64>>` of rows of equal length. Every operation is pinned to a
//! spec-level model over `Seq<int>`: folds accumulate left to right in the
//! same order as the executable loops.

use vstd::prelude::*;
use crate::fixed::{
    add_fx, fx_add, fx_mul, fx_relu, fx_relu_deriv, fx_sub, mul_fx, relu_deriv_fx, relu_fx,
    sub_fx,
};

verus! {

/// Mathematical view of a fixed-point vector.
pub open spec fn ints(v: Seq<i64>) -> Seq<int> {
    v.map(|i: int, x: i64| x as int)
}

/// Mathematical view of a fixed-point matrix.
pub open spec fn mat_ints(m: Seq<Vec<i64>>) -> Seq<Seq<int>> {
    m.map(|i: int, row: Vec<i64>| ints(row@))
}

/// `m` has exactly `rows` rows of `cols` entries each.
pub open spec fn is_matrix(m: Seq<Seq<int>>, rows: int, cols: int) -> bool {
    &&& m.len() == rows
    &&& forall|i: int| 0 <= i < rows ==> (#[trigger] m[i]).len() == cols
}

/// The all-zero vector of length `n`.
pub open spec fn zero_seq(n: nat) -> Seq<int> {
    Seq::new(n, |i: int| 0int)
}

/// Left-to-right fixed-point dot product of the first `n` entries.
pub open spec fn dot_fx(x: Seq<int>, y: Seq<int>, n: int) -> int
    decreases n,
{
    if n <= 0 {
        0
    } else {
        fx_add(dot_fx(x, y, n - 1), fx_mul(x[n - 1], y[n - 1]))
    }
}

/// Column `j` of a matrix.
pub open spec fn col(w: Seq<Seq<int>>, j: int) -> Seq<int> {
    Seq::new(w.len(), |k: int| w[k][j])
}

/// Affine layer: entry `j` is `x . col(w, j) + b[j]` in fixed point.
pub open spec fn affine_fx(x: Seq<int>, w: Seq<Seq<int>>, b: Seq<int>) -> Seq<int> {
    Seq::new(b.len(), |j: int| fx_add(dot_fx(x, col(w, j), x.len() as int), b[j]))
}

/// Element-wise rectified linear unit.
pub open spec fn relu_seq(s: Seq<int>) -> Seq<int> {
    s.map(|i: int, x: int| fx_relu(x))
}

/// Element-wise derivative factor of the rectified linear unit.
pub open spec fn relu_deriv_seq(s: Seq<int>) -> Seq<int> {
    s.map(|i: int, x: int| fx_relu_deriv(x))
}

/// Element-wise fixed-point difference.
pub open spec fn sub_seq(a: Seq<int>, b: Seq<int>) -> Seq<int> {
    Seq::new(a.len(), |i: int| fx_sub(a[i], b[i]))
}

/// Element-wise fixed-point product.
pub open spec fn mul_seq(a: Seq<int>, b: Seq<int>) -> Seq<int> {
    Seq::new(a.len(), |i: int| fx_mul(a[i], b[i]))
}

/// Element-wise scaling by a fixed-point factor.
pub open spec fn scale_seq(a: Seq<int>, c: int) -> Seq<int> {
    Seq::new(a.len(), |i: int| fx_mul(a[i], c))
}

/// Matrix-vector product taken row by row: entry `i` is `w[i] . v`.
pub open spec fn matvec_rows_fx(w: Seq<Seq<int>>, v: Seq<int>) -> Seq<int> {
    Seq::new(w.len(), |i: int| dot_fx(w[i], v, v.len() as int))
}

/// Outer product scaled by `c`: entry `(i, j)` is `(a[i] * b[j]) * c`.
pub open spec fn outer_scaled_fx(a: Seq<int>, b: Seq<int>, c: int) -> Seq<Seq<int>> {
    Seq::new(a.len(), |i: int| Seq::new(b.len(), |j: int| fx_mul(fx_mul(a[i], b[j]), c)))
}

/// Element-wise matrix difference.
pub open spec fn mat_sub_fx(a: Seq<Seq<int>>, d: Seq<Seq<int>>) -> Seq<Seq<int>> {
    Seq::new(a.len(), |i: int| sub_seq(a[i], d[i]))
}

/// Fixed-point dot product of two vectors of equal length.
pub fn dot(x: &Vec<i64>, y: &Vec<i64>) -> (r: i64)
    requires
        x@.len() == y@.len(),
    ensures
        r as int == dot_fx(ints(x@), ints(y@), x@.len() as int),
{
    let mut acc: i64 = 0;
    let mut k: usize = 0;
    while k < x.len()
        invariant
            x@.len() == y@.len(),
            0 <= k <= x@.len(),
            acc as int == dot_fx(ints(x@), ints(y@), k as int),
        decreases x@.len() - k,
    {
        acc = add_fx(acc, mul_fx(x[k], y[k]));
        k = k + 1;
    }
    acc
}

/// Affine layer applied to `x`: `x . w + b`, column by column.
pub fn affine(x: &Vec<i64>, w: &Vec<Vec<i64>>, b: &Vec<i64>) -> (r: Vec<i64>)
    requires
        w@.len() == x@.len(),
        forall|k: int| 0 <= k < w@.len() ==> (#[trigger] w@[k])@.len() == b@.len(),
    ensures
        ints(r@) == affine_fx(ints(x@), mat_ints(w@), ints(b@)),
{
    let mut r: Vec<i64> = Vec::new();
    let mut j: usize = 0;
    while j < b.len()
        invariant
            w@.len() == x@.len(),
            forall|k: int| 0 <= k < w@.len() ==> (#[trigger] w@[k])@.len() == b@.len(),
            0 <= j <= b@.len(),
            r@.len() == j,
            forall|jj: int| 0 <= jj < j ==> #[trigger] r@[jj] as int
                == affine_fx(ints(x@), mat_ints(w@), ints(b@))[jj],
        decreases b@.len() - j,
    {
        let mut acc: i64 = 0;
        let mut k: usize = 0;
        while k < x.len()
            invariant
                w@.len() == x@.len(),
                forall|kk: int| 0 <= kk < w@.len() ==> (#[trigger] w@[kk])@.len() == b@.len(),
                0 <= j < b@.len(),
                0 <= k <= x@.len(),
                acc as int == dot_fx(ints(x@), col(mat_ints(w@), j as int), k as int),
            decreases x@.len() - k,
        {
            assert(col(mat_ints(w@), j as int)[k as int] == w@[k as int]@[j as int] as int);
            acc = add_fx(acc, mul_fx(x[k], w[k][j]));
            k = k + 1;
        }
        r.push(add_fx(acc, b[j]));
        j = j + 1;
    }
    assert(ints(r@) =~= affine_fx(ints(x@), mat_ints(w@), ints(b@)));
    r
}

/// Element-wise rectified linear unit over a vector.
pub fn relu_vec(v: &Vec<i64>) -> (r: Vec<i64>)
    ensures
        ints(r@) == relu_seq(ints(v@)),
{
    let mut r: Vec<i64> = Vec::new();
    let mut i: usize = 0;
    while i < v.len()
        invariant
            0 <= i <= v@.len(),
            r@.len() == i,
            forall|ii: int| 0 <= ii < i ==> #[trigger] r@[ii] as int == fx_relu(v@[ii] as int),
        decreases v@.len() - i,
    {
        r.push(relu_fx(v[i]));
        i = i + 1;
    }
    assert(ints(r@) =~= relu_seq(ints(v@)));
    r
}

/// A dot product against a vector whose first `n` entries are zero is zero.
pub proof fn lemma_dot_zero(x: Seq<int>, y: Seq<int>, n: int)
    requires
        forall|i: int| 0 <= i < n ==> #[trigger] y[i] == 0,
    ensures
        dot_fx(x, y, n) == 0,
    decreases n,
{
    if n > 0 {
        lemma_dot_zero(x, y, n - 1);
        assert(fx_mul(x[n - 1], 0) == 0);
    }
}

/// Shapes of a fixed-point matrix, read back from its mathematical view.
pub proof fn lemma_mat_dims(m: Seq<Vec<i64>>, rows: int, cols: int)
    requires
        is_matrix(mat_ints(m), rows, cols),
    ensures
        m.len() == rows,
        forall|i: int| 0 <= i < rows ==> (#[trigger] m[i])@.len() == cols,
{
    assert forall|i: int| 0 <= i < rows implies (#[trigger] m[i])@.len() == cols by {
        assert(mat_ints(m)[i] == ints(m[i]@));
    }
}

/// The all-zero fixed-point vector of length `n`.
pub fn zeros(n: usize) -> (r: Vec<i64>)
    ensures
        ints(r@) == zero_seq(n as nat),
{
    let mut r: Vec<i64> = Vec::new();
    let mut i: usize = 0;
    while i < n
        invariant
            0 <= i <= n,
            r@.len() == i,
            forall|ii: int| 0 <= ii < i ==> #[trigger] r@[ii] == 0i64,
        decreases n - i,
    {
        r.push(0);
        i = i + 1;
    }
    assert(ints(r@) =~= zero_seq(n as nat));
    r
}

/// Element-wise derivative factor of the rectified linear unit over a vector.
pub fn relu_deriv_vec(v: &Vec<i64>) -> (r: Vec<i64>)
    ensures
        ints(r@) == relu_deriv_seq(ints(v@)),
{
    let mut r: Vec<i64> = Vec::new();
    let mut i: usize = 0;
    while i < v.len()
        invariant
            0 <= i <= v@.len(),
            r@.len() == i,
            forall|ii: int| 0 <= ii < i ==> #[trigger] r@[ii] as int
                == fx_relu_deriv(v@[ii] as int),
        decreases v@.len() - i,
    {
        r.push(relu_deriv_fx(v[i]));
        i = i + 1;
    }
    assert(ints(r@) =~= relu_deriv_seq(ints(v@)));
    r
}

/// Element-wise product of two vectors of equal length.
pub fn vec_mul(a: &Vec<i64>, b: &Vec<i64>) -> (r: Vec<i64>)
    requires
        a@.len() == b@.len(),
    ensures
        ints(r@) == mul_seq(ints(a@), ints(b@)),
{
    let mut r: Vec<i64> = Vec::new();
    let mut i: usize = 0;
    while i < a.len()
        invariant
            a@.len() == b@.len(),
            0 <= i <= a@.len(),
            r@.len() == i,
            forall|ii: int| 0 <= ii < i ==> #[trigger] r@[ii] as int
                == fx_mul(a@[ii] as int, b@[ii] as int),
        decreases a@.len() - i,
    {
        r.push(mul_fx(a[i], b[i]));
        i = i + 1;
    }
    assert(ints(r@) =~= mul_seq(ints(a@), ints(b@)));
    r
}

/// Element-wise difference of two vectors of equal length.
pub fn vec_sub(a: &Vec<i64>, b: &Vec<i64>) -> (r: Vec<i64>)
    requires
        a@.len() == b@.len(),
    ensures
        ints(r@) == sub_seq(ints(a@), ints(b@)),
{
    let mut r: Vec<i64> = Vec::new();
    let mut i: usize = 0;
    while i < a.len()
        invariant
            a@.len() == b@.len(),
            0 <= i <= a@.len(),
            r@.len() == i,
            forall|ii: int| 0 <= ii < i ==> #[trigger] r@[ii] as int
                == fx_sub(a@[ii] as int, b@[ii] as int),
        decreases a@.len() - i,
    {
        r.push(sub_fx(a[i], b[i]));
        i = i + 1;
    }
    assert(ints(r@) =~= sub_seq(ints(a@), ints(b@)));
    r
}

/// Element-wise scaling of a vector by a fixed-point factor.
pub fn vec_scale(a: &Vec<i64>, c: i64) -> (r: Vec<i64>)
    ensures
        ints(r@) == scale_seq(ints(a@), c as int),
{
    let mut r: Vec<i64> = Vec::new();
    let mut i: usize = 0;
    while i < a.len()
        invariant
            0 <= i <= a@.len(),
            r@.len() == i,
            forall|ii: int| 0 <= ii < i ==> #[trigger] r@[ii] as int
                == fx_mul(a@[ii] as int, c as int),
        decreases a@.len() - i,
    {
        r.push(mul_fx(a[i], c));
        i = i + 1;
    }
    assert(ints(r@) =~= scale_seq(ints(a@), c as int));
    r
}

/// Matrix-vector product taken row by row.
pub fn matvec_rows(w: &Vec<Vec<i64>>, v: &Vec<i64>) -> (r: Vec<i64>)
    requires
        forall|i: int| 0 <= i < w@.len() ==> (#[trigger] w@[i])@.len() == v@.len(),
    ensures
        ints(r@) == matvec_rows_fx(mat_ints(w@), ints(v@)),
{
    let mut r: Vec<i64> = Vec::new();
    let mut i: usize = 0;
    while i < w.len()
        invariant
            forall|ii: int| 0 <= ii < w@.len() ==> (#[trigger] w@[ii])@.len() == v@.len(),
            0 <= i <= w@.len(),
            r@.len() == i,
            forall|ii: int| 0 <= ii < i ==> #[trigger] r@[ii] as int
                == dot_fx(mat_ints(w@)[ii], ints(v@), v@.len() as int),
        decreases w@.len() - i,
    {
        let d = dot(&w[i], v);
        assert(ints(w@[i as int]@) == mat_ints(w@)[i as int]);
        r.push(d);
        i = i + 1;
    }
    assert(ints(r@) =~= matvec_rows_fx(mat_ints(w@), ints(v@)));
    r
}

/// Outer product of two vectors, scaled element-wise by `c`.
pub fn outer_scaled(a: &Vec<i64>, b: &Vec<i64>, c: i64) -> (r: Vec<Vec<i64>>)
    ensures
        mat_ints(r@) == outer_scaled_fx(ints(a@), ints(b@), c as int),
{
    let mut r: Vec<Vec<i64>> = Vec::new();
    let mut i: usize = 0;
    while i < a.len()
        invariant
            0 <= i <= a@.len(),
            r@.len() == i,
            forall|ii: int| 0 <= ii < i ==> ints((#[trigger] r@[ii])@)
                == outer_scaled_fx(ints(a@), ints(b@), c as int)[ii],
        decreases a@.len() - i,
    {
        let mut row: Vec<i64> = Vec::new();
        let mut j: usize = 0;
        while j < b.len()
            invariant
                0 <= i < a@.len(),
                0 <= j <= b@.len(),
                row@.len() == j,
                forall|jj: int| 0 <= jj < j ==> #[trigger] row@[jj] as int
                    == fx_mul(fx_mul(a@[i as int] as int, b@[jj] as int), c as int),
            decreases b@.len() - j,
        {
            row.push(mul_fx(mul_fx(a[i], b[j]), c));
            j = j + 1;
        }
        assert(ints(row@) =~= outer_scaled_fx(ints(a@), ints(b@), c as int)[i as int]);
        r.push(row);
        i = i + 1;
    }
    proof {
        assert forall|ii: int| 0 <= ii < r@.len() implies #[trigger] mat_ints(r@)[ii]
            == outer_scaled_fx(ints(a@), ints(b@), c as int)[ii] by {
            assert(mat_ints(r@)[ii] == ints(r@[ii]@));
        }
        assert(mat_ints(r@) =~= outer_scaled_fx(ints(a@), ints(b@), c as int));
    }
    r
}

/// Element-wise difference of two matrices of equal shape.
pub fn mat_sub(a: &Vec<Vec<i64>>, d: &Vec<Vec<i64>>) -> (r: Vec<Vec<i64>>)
    requires
        a@.len() == d@.len(),
        forall|i: int| 0 <= i < a@.len() ==> (#[trigger] a@[i])@.len() == d@[i]@.len(),
    ensures
        mat_ints(r@) == mat_sub_fx(mat_ints(a@), mat_ints(d@)),
{
    let mut r: Vec<Vec<i64>> = Vec::new();
    let mut i: usize = 0;
    while i < a.len()
        invariant
            a@.len() == d@.len(),
            forall|ii: int| 0 <= ii < a@.len() ==> (#[trigger] a@[ii])@.len() == d@[ii]@.len(),
            0 <= i <= a@.len(),
            r@.len() == i,
            forall|ii: int| 0 <= ii < i ==> ints((#[trigger] r@[ii])@)
                == mat_sub_fx(mat_ints(a@), mat_ints(d@))[ii],
        decreases a@.len() - i,
    {
        let row = vec_sub(&a[i], &d[i]);
        assert(ints(row@) =~= mat_sub_fx(mat_ints(a@), mat_ints(d@))[i as int]);
        r.push(row);
        i = i + 1;
    }
    proof {
        assert forall|ii: int| 0 <= ii < r@.len() implies #[trigger] mat_ints(r@)[ii]
            == mat_sub_fx(mat_ints(a@), mat_ints(d@))[ii] by {
            assert(mat_ints(r@)[ii] == ints(r@[ii]@));
        }
        assert(mat_ints(r@) =~= mat_sub_fx(mat_ints(a@), mat_ints(d@)));
    }
    r
}

} // verus!
