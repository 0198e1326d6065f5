//! Dense three-dimensional tensors of fixed-point scalars, stored flat in
//! row-major order with axes (height, width, channels).

use vstd::prelude::*;
use vstd::pervasive::VecAdditionalExecFns;
use crate::fx::{fx_ok, MAXN};

verus! {

/// A shape is usable when every axis is positive and the element count
/// stays within the engine-wide bound.
pub open spec fn sp_shape_ok(s: (usize, usize, usize)) -> bool {
    1 <= s.0 && 1 <= s.1 && 1 <= s.2 && s.0 * s.1 * s.2 <= MAXN as int
}

/// Element count of a shape.
pub open spec fn sp_tlen(s: (usize, usize, usize)) -> int {
    s.0 * s.1 * s.2
}

/// Row-major flat position of cell `(i, j, k)`.
pub open spec fn sp_idx3(s: (usize, usize, usize), i: int, j: int, k: int) -> int {
    (i * s.1 + j) * s.2 + k
}

/// In-bounds cells map to in-bounds flat positions.
pub proof fn lemma_idx3_bound(s: (usize, usize, usize), i: int, j: int, k: int)
    requires
        0 <= i < s.0,
        0 <= j < s.1,
        0 <= k < s.2,
    ensures
        0 <= sp_idx3(s, i, j, k) < sp_tlen(s),
        0 <= i * s.1 + j < s.0 * s.1,
        s.0 * s.1 <= sp_tlen(s),
{
    assert(0 <= (i * s.1 + j) * s.2 + k < s.0 * s.1 * s.2 && 0 <= i * s.1 + j < s.0 * s.1
        && s.0 * s.1 <= s.0 * s.1 * s.2) by (nonlinear_arith)
        requires
            0 <= i < s.0,
            0 <= j < s.1,
            0 <= k < s.2,
    ;
}

/// A dense 3-D array of fixed-point scalars.
pub struct Tensor3 {
    pub data: Vec<i64>,
    pub shape: (usize, usize, usize),
}

impl Tensor3 {
    /// The tensor's data is exactly as large as its shape announces and
    /// every element is a well-formed scalar.
    pub open spec fn wf(&self) -> bool {
        &&& sp_shape_ok(self.shape)
        &&& self.data@.len() == sp_tlen(self.shape)
        &&& forall|i: int| 0 <= i < self.data@.len() ==> fx_ok(#[trigger] self.data@[i] as int)
    }

    /// The value at cell `(i, j, k)`.
    pub open spec fn at(&self, i: int, j: int, k: int) -> int {
        self.data@[sp_idx3(self.shape, i, j, k)] as int
    }

    /// An all-zero tensor of the given shape.
    pub fn zeros(shape: (usize, usize, usize)) -> (r: Tensor3)
        requires
            sp_shape_ok(shape),
        ensures
            r.wf(),
            r.shape == shape,
            forall|i: int| 0 <= i < r.data@.len() ==> #[trigger] r.data@[i] == 0,
    {
        let n = tlen(shape);
        Tensor3 { data: zero_vec(n), shape }
    }

    pub fn get(&self, i: usize, j: usize, k: usize) -> (r: i64)
        requires
            self.wf(),
            i < self.shape.0,
            j < self.shape.1,
            k < self.shape.2,
        ensures
            r as int == self.at(i as int, j as int, k as int),
            fx_ok(r as int),
    {
        proof {
            lemma_idx3_bound(self.shape, i as int, j as int, k as int);
        }
        let idx = (i * self.shape.1 + j) * self.shape.2 + k;
        self.data[idx]
    }

    pub fn put(&mut self, i: usize, j: usize, k: usize, v: i64)
        requires
            old(self).wf(),
            i < old(self).shape.0,
            j < old(self).shape.1,
            k < old(self).shape.2,
            fx_ok(v as int),
        ensures
            final(self).wf(),
            final(self).shape == old(self).shape,
            final(self).data@ == old(self).data@.update(
                sp_idx3(old(self).shape, i as int, j as int, k as int),
                v,
            ),
    {
        proof {
            lemma_idx3_bound(self.shape, i as int, j as int, k as int);
        }
        let idx = (i * self.shape.1 + j) * self.shape.2 + k;
        self.data.set(idx, v);
    }
}

/// Element count of a shape, computed without overflow.
pub fn tlen(shape: (usize, usize, usize)) -> (r: usize)
    requires
        sp_shape_ok(shape),
    ensures
        r as int == sp_tlen(shape),
        1 <= r <= MAXN,
{
    proof {
        assert(shape.0 * shape.1 <= shape.0 * shape.1 * shape.2 && 1 <= shape.0 * shape.1
            * shape.2) by (nonlinear_arith)
            requires shape.2 >= 1 && shape.0 >= 1 && shape.1 >= 1;
    }
    shape.0 * shape.1 * shape.2
}

/// Distinct cells occupy distinct flat positions.
pub proof fn lemma_idx3_inj(s: (usize, usize, usize), a: int, b: int, c: int, i: int, j: int, k: int)
    requires
        0 <= a < s.0,
        0 <= b < s.1,
        0 <= c < s.2,
        0 <= i < s.0,
        0 <= j < s.1,
        0 <= k < s.2,
        sp_idx3(s, a, b, c) == sp_idx3(s, i, j, k),
    ensures
        a == i && b == j && c == k,
{
    assert(a == i && b == j && c == k) by (nonlinear_arith)
        requires
            0 <= a < s.0,
            0 <= b < s.1,
            0 <= c < s.2,
            0 <= i < s.0,
            0 <= j < s.1,
            0 <= k < s.2,
            (a * s.1 + b) * s.2 + c == (i * s.1 + j) * s.2 + k,
    ;
}

/// Recover the cell behind a flat position.
pub fn decode3(p: usize, s: (usize, usize, usize)) -> (r: (usize, usize, usize))
    requires
        sp_shape_ok(s),
        p < sp_tlen(s),
    ensures
        r.0 < s.0,
        r.1 < s.1,
        r.2 < s.2,
        sp_idx3(s, r.0 as int, r.1 as int, r.2 as int) == p,
{
    let k = p % s.2;
    let q1 = p / s.2;
    let j = q1 % s.1;
    let i = q1 / s.1;
    proof {
        assert(p == q1 * s.2 + k && 0 <= k < s.2) by (nonlinear_arith)
            requires q1 == p as int / s.2 as int && k == p as int % s.2 as int && s.2 >= 1 && p
                >= 0;
        assert(q1 == i * s.1 + j && 0 <= j < s.1) by (nonlinear_arith)
            requires i == q1 as int / s.1 as int && j == q1 as int % s.1 as int && s.1 >= 1 && q1
                >= 0;
        assert(i < s.0) by (nonlinear_arith)
            requires
                p < s.0 * s.1 * s.2,
                p == (i * s.1 + j) * s.2 + k,
                0 <= j < s.1,
                0 <= k < s.2,
                s.1 >= 1,
                s.2 >= 1,
                i >= 0,
        ;
    }
    (i, j, k)
}

/// Row-major flat position within a matrix of `cols` columns.
pub open spec fn sp_idx2(cols: usize, i: int, j: int) -> int {
    i * cols + j
}

/// In-bounds matrix cells map to in-bounds flat positions.
pub proof fn lemma_idx2_bound(rows: usize, cols: usize, i: int, j: int)
    requires
        0 <= i < rows,
        0 <= j < cols,
    ensures
        0 <= sp_idx2(cols, i, j) < rows * cols,
{
    assert(0 <= i * cols + j < rows * cols) by (nonlinear_arith)
        requires
            0 <= i < rows,
            0 <= j < cols,
    ;
}

/// Distinct matrix cells occupy distinct flat positions.
pub proof fn lemma_idx2_inj(cols: usize, a: int, b: int, i: int, j: int)
    requires
        0 <= b < cols,
        0 <= j < cols,
        0 <= a,
        0 <= i,
        sp_idx2(cols, a, b) == sp_idx2(cols, i, j),
    ensures
        a == i && b == j,
{
    assert(a == i && b == j) by (nonlinear_arith)
        requires
            0 <= b < cols,
            0 <= j < cols,
            0 <= a,
            0 <= i,
            a * cols + b == i * cols + j,
    ;
}

/// Recover the matrix cell behind a flat position.
pub fn decode2(p: usize, rows: usize, cols: usize) -> (r: (usize, usize))
    requires
        rows >= 1,
        cols >= 1,
        p < rows * cols,
        rows * cols <= MAXN,
    ensures
        r.0 < rows,
        r.1 < cols,
        sp_idx2(cols, r.0 as int, r.1 as int) == p,
{
    let j = p % cols;
    let i = p / cols;
    proof {
        assert(p == i * cols + j && 0 <= j < cols) by (nonlinear_arith)
            requires i == p as int / cols as int && j == p as int % cols as int && cols >= 1 && p
                >= 0;
        assert(i < rows) by (nonlinear_arith)
            requires
                p < rows * cols,
                p == i * cols + j,
                0 <= j < cols,
                cols >= 1,
                i >= 0,
        ;
    }
    (i, j)
}

/// Row-major flat position within a kernel stack of `f` filters, each
/// `ksz * ksz * ch` weights.
pub open spec fn sp_idx4(ksz: usize, ch: usize, f: int, ki: int, kj: int, c: int) -> int {
    ((f * ksz + ki) * ksz + kj) * ch + c
}

/// In-bounds kernel coordinates map to in-bounds flat positions.
pub proof fn lemma_idx4_bound(
    nf: usize,
    ksz: usize,
    ch: usize,
    f: int,
    ki: int,
    kj: int,
    c: int,
)
    requires
        0 <= f < nf,
        0 <= ki < ksz,
        0 <= kj < ksz,
        0 <= c < ch,
    ensures
        0 <= sp_idx4(ksz, ch, f, ki, kj, c) < nf * ksz * ksz * ch,
        0 <= (f * ksz + ki) * ksz + kj < nf * ksz * ksz,
        0 <= f * ksz + ki < nf * ksz,
{
    assert(0 <= ((f * ksz + ki) * ksz + kj) * ch + c < nf * ksz * ksz * ch && 0 <= (f * ksz + ki)
        * ksz + kj < nf * ksz * ksz && 0 <= f * ksz + ki < nf * ksz) by (nonlinear_arith)
        requires
            0 <= f < nf,
            0 <= ki < ksz,
            0 <= kj < ksz,
            0 <= c < ch,
    ;
}

/// Distinct kernel coordinates occupy distinct flat positions.
pub proof fn lemma_idx4_inj(
    ksz: usize,
    ch: usize,
    a: int,
    b: int,
    c: int,
    d: int,
    f: int,
    ki: int,
    kj: int,
    cc: int,
)
    requires
        0 <= b < ksz,
        0 <= c < ksz,
        0 <= d < ch,
        0 <= ki < ksz,
        0 <= kj < ksz,
        0 <= cc < ch,
        0 <= a,
        0 <= f,
        sp_idx4(ksz, ch, a, b, c, d) == sp_idx4(ksz, ch, f, ki, kj, cc),
    ensures
        a == f && b == ki && c == kj && d == cc,
{
    assert(a == f && b == ki && c == kj && d == cc) by (nonlinear_arith)
        requires
            0 <= b < ksz,
            0 <= c < ksz,
            0 <= d < ch,
            0 <= ki < ksz,
            0 <= kj < ksz,
            0 <= cc < ch,
            0 <= a,
            0 <= f,
            ((a * ksz + b) * ksz + c) * ch + d == ((f * ksz + ki) * ksz + kj) * ch + cc,
    ;
}

/// Recover the kernel coordinates behind a flat position.
pub fn decode4(p: usize, nf: usize, ksz: usize, ch: usize) -> (r: (usize, usize, usize, usize))
    requires
        nf >= 1,
        ksz >= 1,
        ch >= 1,
        p < nf * ksz * ksz * ch,
        nf * ksz * ksz * ch <= MAXN,
    ensures
        r.0 < nf,
        r.1 < ksz,
        r.2 < ksz,
        r.3 < ch,
        sp_idx4(ksz, ch, r.0 as int, r.1 as int, r.2 as int, r.3 as int) == p,
{
    let c = p % ch;
    let q1 = p / ch;
    let kj = q1 % ksz;
    let q2 = q1 / ksz;
    let ki = q2 % ksz;
    let f = q2 / ksz;
    proof {
        assert(p == q1 * ch + c && 0 <= c < ch) by (nonlinear_arith)
            requires q1 == p as int / ch as int && c == p as int % ch as int && ch >= 1 && p >= 0;
        assert(q1 == q2 * ksz + kj && 0 <= kj < ksz) by (nonlinear_arith)
            requires q2 == q1 as int / ksz as int && kj == q1 as int % ksz as int && ksz >= 1
                && q1 >= 0;
        assert(q2 == f * ksz + ki && 0 <= ki < ksz) by (nonlinear_arith)
            requires f == q2 as int / ksz as int && ki == q2 as int % ksz as int && ksz >= 1 && q2
                >= 0;
        assert(((f * ksz + ki) * ksz + kj) * ch + c == p && f < nf) by (nonlinear_arith)
            requires
                p < nf * ksz * ksz * ch,
                q2 == f * ksz + ki,
                q1 == q2 * ksz + kj,
                p == q1 * ch + c,
                0 <= ki < ksz,
                0 <= kj < ksz,
                0 <= c < ch,
                ksz >= 1,
                ch >= 1,
                f >= 0,
        ;
    }
    (f, ki, kj, c)
}

/// A fresh vector holding the same scalars.
pub fn copy_vec(v: &Vec<i64>) -> (r: Vec<i64>)
    ensures
        r@ == v@,
{
    let mut r: Vec<i64> = Vec::new();
    let mut i: usize = 0;
    while i < v.len()
        invariant
            i <= v@.len(),
            r@ == v@.subrange(0, i as int),
        decreases v@.len() - i,
    {
        r.push(v[i]);
        proof {
            assert(v@.subrange(0, i + 1) =~= v@.subrange(0, i as int).push(v@[i as int]));
        }
        i += 1;
    }
    proof {
        assert(v@.subrange(0, v@.len() as int) =~= v@);
    }
    r
}

/// An all-zero vector of indices of the given length.
pub fn zero_usize_vec(n: usize) -> (r: Vec<usize>)
    ensures
        r@.len() == n,
        forall|i: int| 0 <= i < n ==> #[trigger] r@[i] == 0,
{
    let mut r: Vec<usize> = Vec::new();
    let mut i: usize = 0;
    while i < n
        invariant
            i <= n,
            r@.len() == i,
            forall|k: int| 0 <= k < i ==> #[trigger] r@[k] == 0,
        decreases n - i,
    {
        r.push(0);
        i += 1;
    }
    r
}

/// An all-zero vector of the given length.
pub fn zero_vec(n: usize) -> (r: Vec<i64>)
    ensures
        r@.len() == n,
        forall|i: int| 0 <= i < n ==> #[trigger] r@[i] == 0,
{
    let mut r: Vec<i64> = Vec::new();
    let mut i: usize = 0;
    while i < n
        invariant
            i <= n,
            r@.len() == i,
            forall|k: int| 0 <= k < i ==> #[trigger] r@[k] == 0,
        decreases n - i,
    {
        r.push(0);
        i += 1;
    }
    r
}

} // verus!
