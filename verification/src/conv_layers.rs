//! The convolutional layer: a 3-D tensor to 3-D tensor cross-correlation
//! with learnable filters, "valid" boundary and a configurable stride.
//!
//! Every accumulation folds with the saturating `sp_add`, so each output
//! cell is pinned down exactly by a spec-level fold in the same order the
//! loops run.

use vstd::prelude::*;
use vstd::pervasive::VecAdditionalExecFns;
use vstd::arithmetic::div_mod::lemma_fundamental_div_mod;
use crate::fx::{fx_add, fx_divn, fx_mul, fx_ok, sp_add, sp_divn, sp_mul};
use crate::host::rand_weight;
use crate::optimizer::{compute_deltas, sp_alg_ok, sp_delta, sp_new_m, sp_new_v, sp_tick, Moments, OptimizerAlg};
use crate::tensor::{
    copy_vec, decode3, decode4, lemma_idx3_bound, lemma_idx3_inj, lemma_idx4_bound,
    lemma_idx4_inj, sp_idx3, sp_idx4, sp_shape_ok, tlen, zero_vec, Tensor3,
};
use crate::fx::MAXN;

verus! {

/// Spatial extent of a valid convolution along one axis.
pub open spec fn sp_odim(n: int, k: int, s: int) -> int {
    (n - k) / s + 1
}

/// Output positions land inside the input: `o * s + d < n` whenever
/// `o < sp_odim(n, k, s)` and `d < k`.
pub proof fn lemma_window_in_bounds(n: int, k: int, s: int, o: int, d: int)
    requires
        1 <= s,
        1 <= k <= n,
        0 <= o < sp_odim(n, k, s),
        0 <= d < k,
    ensures
        0 <= o * s + d < n,
{
    lemma_fundamental_div_mod(n - k, s);
    assert(o * s <= ((n - k) / s) * s) by (nonlinear_arith)
        requires o <= (n - k) / s && s >= 1 && 0 <= o;
    assert(((n - k) / s) * s <= n - k) by (nonlinear_arith)
        requires n - k == s * ((n - k) / s) + (n - k) % s && (n - k) % s >= 0;
    assert(o * s >= 0) by (nonlinear_arith)
        requires o >= 0 && s >= 1;
}

/// Kernel weight at filter `f`, offset `(ki, kj)`, channel `c`.
pub open spec fn sp_kw(ker: Seq<i64>, ksz: usize, ch: usize, f: int, ki: int, kj: int, c: int) -> int {
    ker[sp_idx4(ksz, ch, f, ki, kj, c)] as int
}

/// Partial window fold over the first `nc` channels at kernel offset
/// `(ki, kj)`.
pub open spec fn sp_fwd_c(
    ker: Seq<i64>,
    ksz: usize,
    stride: usize,
    x: Tensor3,
    f: int,
    oi: int,
    oj: int,
    ki: int,
    kj: int,
    nc: int,
) -> int
    decreases nc,
{
    if nc <= 0 {
        0
    } else {
        sp_add(
            sp_fwd_c(ker, ksz, stride, x, f, oi, oj, ki, kj, nc - 1),
            sp_mul(
                sp_kw(ker, ksz, x.shape.2, f, ki, kj, nc - 1),
                x.at(oi * stride + ki, oj * stride + kj, nc - 1),
            ),
        )
    }
}

/// Partial window fold over the first `nkj` kernel columns.
pub open spec fn sp_fwd_kj(
    ker: Seq<i64>,
    ksz: usize,
    stride: usize,
    x: Tensor3,
    f: int,
    oi: int,
    oj: int,
    ki: int,
    nkj: int,
) -> int
    decreases nkj,
{
    if nkj <= 0 {
        0
    } else {
        sp_add(
            sp_fwd_kj(ker, ksz, stride, x, f, oi, oj, ki, nkj - 1),
            sp_fwd_c(ker, ksz, stride, x, f, oi, oj, ki, nkj - 1, x.shape.2 as int),
        )
    }
}

/// Partial window fold over the first `nki` kernel rows.
pub open spec fn sp_fwd_ki(
    ker: Seq<i64>,
    ksz: usize,
    stride: usize,
    x: Tensor3,
    f: int,
    oi: int,
    oj: int,
    nki: int,
) -> int
    decreases nki,
{
    if nki <= 0 {
        0
    } else {
        sp_add(
            sp_fwd_ki(ker, ksz, stride, x, f, oi, oj, nki - 1),
            sp_fwd_kj(ker, ksz, stride, x, f, oi, oj, nki - 1, ksz as int),
        )
    }
}

/// One output cell of the forward pass: the filter's bias plus the full
/// window fold.
pub open spec fn sp_conv_cell(
    ker: Seq<i64>,
    bias: int,
    ksz: usize,
    stride: usize,
    x: Tensor3,
    f: int,
    oi: int,
    oj: int,
) -> int {
    sp_add(bias, sp_fwd_ki(ker, ksz, stride, x, f, oi, oj, ksz as int))
}

/// Partial fold of the kernel-gradient sum over output columns.
pub open spec fn sp_kg_oj(
    x: Tensor3,
    e: Tensor3,
    stride: usize,
    f: int,
    ki: int,
    kj: int,
    c: int,
    oi: int,
    noj: int,
) -> int
    decreases noj,
{
    if noj <= 0 {
        0
    } else {
        sp_add(
            sp_kg_oj(x, e, stride, f, ki, kj, c, oi, noj - 1),
            sp_mul(x.at(oi * stride + ki, (noj - 1) * stride + kj, c), e.at(oi, noj - 1, f)),
        )
    }
}

/// Partial fold of the kernel-gradient sum over output rows.
pub open spec fn sp_kg_oi(
    x: Tensor3,
    e: Tensor3,
    stride: usize,
    f: int,
    ki: int,
    kj: int,
    c: int,
    noi: int,
) -> int
    decreases noi,
{
    if noi <= 0 {
        0
    } else {
        sp_add(
            sp_kg_oi(x, e, stride, f, ki, kj, c, noi - 1),
            sp_kg_oj(x, e, stride, f, ki, kj, c, noi - 1, e.shape.1 as int),
        )
    }
}

/// The gradient contribution of one mini-batch sample to one kernel
/// weight: the cached input cross-correlated with the incoming error.
pub open spec fn sp_kgrad(x: Tensor3, e: Tensor3, stride: usize, f: int, ki: int, kj: int, c: int) -> int {
    sp_kg_oi(x, e, stride, f, ki, kj, c, e.shape.0 as int)
}

/// Partial fold of one filter's bias gradient over output columns.
pub open spec fn sp_bg_oj(e: Tensor3, f: int, oi: int, noj: int) -> int
    decreases noj,
{
    if noj <= 0 {
        0
    } else {
        sp_add(sp_bg_oj(e, f, oi, noj - 1), e.at(oi, noj - 1, f))
    }
}

/// Partial fold of one filter's bias gradient over output rows.
pub open spec fn sp_bg_oi(e: Tensor3, f: int, noi: int) -> int
    decreases noi,
{
    if noi <= 0 {
        0
    } else {
        sp_add(sp_bg_oi(e, f, noi - 1), sp_bg_oj(e, f, noi - 1, e.shape.1 as int))
    }
}

/// The gradient contribution of one sample to one filter's bias: the error
/// summed over all spatial positions of that filter.
pub open spec fn sp_bgrad(e: Tensor3, f: int) -> int {
    sp_bg_oi(e, f, e.shape.0 as int)
}

/// One term of the propagated error: the kernel weight times the error at
/// the output position whose window covers `(xi, xj)` at offset
/// `(ki, kj)`, or zero when no such position exists.
pub open spec fn sp_be_term(
    ker: Seq<i64>,
    ksz: usize,
    ch: usize,
    stride: usize,
    e: Tensor3,
    xi: int,
    xj: int,
    c: int,
    f: int,
    ki: int,
    kj: int,
) -> int {
    if xi >= ki && xj >= kj && (xi - ki) % (stride as int) == 0 && (xj - kj) % (stride as int)
        == 0 && (xi - ki) / (stride as int) < e.shape.0 && (xj - kj) / (stride as int)
        < e.shape.1 {
        sp_mul(
            sp_kw(ker, ksz, ch, f, ki, kj, c),
            e.at((xi - ki) / (stride as int), (xj - kj) / (stride as int), f),
        )
    } else {
        0
    }
}

/// Partial fold of the propagated error over kernel columns.
pub open spec fn sp_be_kj(
    ker: Seq<i64>,
    ksz: usize,
    ch: usize,
    stride: usize,
    e: Tensor3,
    xi: int,
    xj: int,
    c: int,
    f: int,
    ki: int,
    nkj: int,
) -> int
    decreases nkj,
{
    if nkj <= 0 {
        0
    } else {
        sp_add(
            sp_be_kj(ker, ksz, ch, stride, e, xi, xj, c, f, ki, nkj - 1),
            sp_be_term(ker, ksz, ch, stride, e, xi, xj, c, f, ki, nkj - 1),
        )
    }
}

/// Partial fold of the propagated error over kernel rows.
pub open spec fn sp_be_ki(
    ker: Seq<i64>,
    ksz: usize,
    ch: usize,
    stride: usize,
    e: Tensor3,
    xi: int,
    xj: int,
    c: int,
    f: int,
    nki: int,
) -> int
    decreases nki,
{
    if nki <= 0 {
        0
    } else {
        sp_add(
            sp_be_ki(ker, ksz, ch, stride, e, xi, xj, c, f, nki - 1),
            sp_be_kj(ker, ksz, ch, stride, e, xi, xj, c, f, nki - 1, ksz as int),
        )
    }
}

/// Partial fold of the propagated error over filters.
pub open spec fn sp_be_f(
    ker: Seq<i64>,
    ksz: usize,
    ch: usize,
    stride: usize,
    e: Tensor3,
    xi: int,
    xj: int,
    c: int,
    nf: int,
) -> int
    decreases nf,
{
    if nf <= 0 {
        0
    } else {
        sp_add(
            sp_be_f(ker, ksz, ch, stride, e, xi, xj, c, nf - 1),
            sp_be_ki(ker, ksz, ch, stride, e, xi, xj, c, nf - 1, ksz as int),
        )
    }
}

/// One cell of the error handed to the previous layer: contributions of
/// every filter and kernel offset whose window covers the cell, mapped
/// back through the stride.
pub open spec fn sp_conv_berr(
    ker: Seq<i64>,
    ksz: usize,
    ch: usize,
    stride: usize,
    e: Tensor3,
    xi: int,
    xj: int,
    c: int,
) -> int {
    sp_be_f(ker, ksz, ch, stride, e, xi, xj, c, e.shape.2 as int)
}

/// A 3-D tensor to 3-D tensor convolution with learnable filters, their
/// gradient accumulators, cached activations for the backward pass, and
/// private optimizer moment state.
pub struct ConvLayer {
    pub input_size: (usize, usize, usize),
    pub kernel_size: usize,
    pub stride: usize,
    pub num_filters: usize,
    pub output_size: (usize, usize, usize),
    pub kernels: Vec<i64>,
    pub biases: Vec<i64>,
    pub kernel_changes: Vec<i64>,
    pub bias_changes: Vec<i64>,
    pub input: Tensor3,
    pub output: Tensor3,
    pub kmoments: Moments,
    pub bmoments: Moments,
    pub optimizer: OptimizerAlg,
}

impl ConvLayer {
    /// Number of kernel weights.
    pub open spec fn ksize(&self) -> int {
        self.num_filters * self.kernel_size * self.kernel_size * self.input_size.2
    }

    pub open spec fn wf(&self) -> bool {
        &&& sp_shape_ok(self.input_size)
        &&& sp_shape_ok(self.output_size)
        &&& 1 <= self.kernel_size <= self.input_size.0
        &&& self.kernel_size <= self.input_size.1
        &&& 1 <= self.stride
        &&& 1 <= self.num_filters
        &&& self.output_size.0 as int == sp_odim(
            self.input_size.0 as int,
            self.kernel_size as int,
            self.stride as int,
        )
        &&& self.output_size.1 as int == sp_odim(
            self.input_size.1 as int,
            self.kernel_size as int,
            self.stride as int,
        )
        &&& self.output_size.2 == self.num_filters
        &&& self.ksize() <= MAXN
        &&& self.kernels@.len() == self.ksize()
        &&& self.kernel_changes@.len() == self.ksize()
        &&& self.biases@.len() == self.num_filters
        &&& self.bias_changes@.len() == self.num_filters
        &&& forall|i: int| 0 <= i < self.kernels@.len() ==> fx_ok(#[trigger] self.kernels@[i] as int)
        &&& forall|i: int|
            0 <= i < self.kernel_changes@.len() ==> fx_ok(#[trigger] self.kernel_changes@[i] as int)
        &&& forall|i: int| 0 <= i < self.biases@.len() ==> fx_ok(#[trigger] self.biases@[i] as int)
        &&& forall|i: int|
            0 <= i < self.bias_changes@.len() ==> fx_ok(#[trigger] self.bias_changes@[i] as int)
        &&& self.input.wf()
        &&& self.input.shape == self.input_size
        &&& self.output.wf()
        &&& self.output.shape == self.output_size
        &&& self.kmoments.wf(self.ksize())
        &&& self.bmoments.wf(self.num_filters as int)
        &&& sp_alg_ok(self.optimizer)
    }

    /// Build a layer with randomly initialised kernels, zero biases, zero
    /// gradient accumulators and fresh moment state. The output shape
    /// follows the valid-convolution formula.
    pub fn new(
        input_size: (usize, usize, usize),
        kernel_size: usize,
        stride: usize,
        num_filters: usize,
        optimizer: OptimizerAlg,
    ) -> (r: ConvLayer)
        requires
            sp_shape_ok(input_size),
            1 <= kernel_size <= input_size.0,
            kernel_size <= input_size.1,
            1 <= stride,
            1 <= num_filters,
            num_filters * kernel_size * kernel_size * input_size.2 <= MAXN,
            sp_odim(input_size.0 as int, kernel_size as int, stride as int) * sp_odim(
                input_size.1 as int,
                kernel_size as int,
                stride as int,
            ) * num_filters <= MAXN,
            sp_alg_ok(optimizer),
        ensures
            r.wf(),
            r.input_size == input_size,
            r.kernel_size == kernel_size,
            r.stride == stride,
            r.num_filters == num_filters,
            r.output_size.0 as int == sp_odim(input_size.0 as int, kernel_size as int, stride as int),
            r.output_size.1 as int == sp_odim(input_size.1 as int, kernel_size as int, stride as int),
            r.output_size.2 == num_filters,
            r.optimizer == optimizer,
            forall|i: int| 0 <= i < r.kernel_changes@.len() ==> #[trigger] r.kernel_changes@[i] == 0,
            forall|i: int| 0 <= i < r.bias_changes@.len() ==> #[trigger] r.bias_changes@[i] == 0,
            forall|i: int| 0 <= i < r.biases@.len() ==> #[trigger] r.biases@[i] == 0,
            forall|i: int| 0 <= i < r.output.data@.len() ==> #[trigger] r.output.data@[i] == 0,
            r.kmoments.t == 0,
            r.bmoments.t == 0,
    {
        proof {
            assert(num_filters * kernel_size >= 1 && num_filters * kernel_size * kernel_size >= 1
                && num_filters * kernel_size * kernel_size <= num_filters * kernel_size
                * kernel_size * input_size.2 && num_filters * kernel_size <= num_filters
                * kernel_size * kernel_size * input_size.2) by (nonlinear_arith)
                requires
                    num_filters >= 1,
                    kernel_size >= 1,
                    input_size.2 >= 1,
            ;
        }
        let oh = (input_size.0 - kernel_size) / stride + 1;
        let ow = (input_size.1 - kernel_size) / stride + 1;
        let output_size = (oh, ow, num_filters);
        proof {
            assert(oh >= 1 && ow >= 1) by {
                vstd::arithmetic::div_mod::lemma_div_pos_is_pos(
                    input_size.0 - kernel_size,
                    stride as int,
                );
                vstd::arithmetic::div_mod::lemma_div_pos_is_pos(
                    input_size.1 - kernel_size,
                    stride as int,
                );
            }
        }
        let ksize = num_filters * kernel_size * kernel_size * input_size.2;
        ConvLayer {
            input_size,
            kernel_size,
            stride,
            num_filters,
            output_size,
            kernels: rand_vec(ksize),
            biases: zero_vec(num_filters),
            kernel_changes: zero_vec(ksize),
            bias_changes: zero_vec(num_filters),
            input: Tensor3::zeros(input_size),
            output: Tensor3::zeros(output_size),
            kmoments: Moments::zeros(ksize),
            bmoments: Moments::zeros(num_filters),
            optimizer,
        }
    }
}

impl ConvLayer {
    /// Kernel weight at filter `f`, offset `(ki, kj)`, channel `c`.
    fn kw(&self, f: usize, ki: usize, kj: usize, c: usize) -> (r: i64)
        requires
            self.wf(),
            f < self.num_filters,
            ki < self.kernel_size,
            kj < self.kernel_size,
            c < self.input_size.2,
        ensures
            r as int == sp_kw(
                self.kernels@,
                self.kernel_size,
                self.input_size.2,
                f as int,
                ki as int,
                kj as int,
                c as int,
            ),
            fx_ok(r as int),
    {
        proof {
            lemma_idx4_bound(
                self.num_filters,
                self.kernel_size,
                self.input_size.2,
                f as int,
                ki as int,
                kj as int,
                c as int,
            );
            assert(self.num_filters * self.kernel_size <= self.ksize() && self.num_filters
                * self.kernel_size * self.kernel_size <= self.ksize()) by (nonlinear_arith)
                requires
                    self.kernel_size >= 1,
                    self.input_size.2 >= 1,
                    self.num_filters >= 1,
                    self.ksize() == self.num_filters * self.kernel_size * self.kernel_size
                        * self.input_size.2,
            ;
        }
        self.kernels[((f * self.kernel_size + ki) * self.kernel_size + kj) * self.input_size.2
            + c]
    }

    /// One output cell of the forward pass.
    #[verifier::loop_isolation(false)]
    fn cell(&self, x: &Tensor3, f: usize, oi: usize, oj: usize) -> (r: i64)
        requires
            self.wf(),
            x.wf(),
            x.shape == self.input_size,
            f < self.num_filters,
            oi < self.output_size.0,
            oj < self.output_size.1,
        ensures
            r as int == sp_conv_cell(
                self.kernels@,
                self.biases@[f as int] as int,
                self.kernel_size,
                self.stride,
                *x,
                f as int,
                oi as int,
                oj as int,
            ),
            fx_ok(r as int),
    {
        let ksz = self.kernel_size;
        let ch = self.input_size.2;
        let mut acc_ki: i64 = 0;
        let mut ki: usize = 0;
        while ki < ksz
            invariant
                ki <= ksz,
                fx_ok(acc_ki as int),
                acc_ki as int == sp_fwd_ki(
                    self.kernels@,
                    ksz,
                    self.stride,
                    *x,
                    f as int,
                    oi as int,
                    oj as int,
                    ki as int,
                ),
            decreases ksz - ki,
        {
            let mut acc_kj: i64 = 0;
            let mut kj: usize = 0;
            while kj < ksz
                invariant
                    kj <= ksz,
                    ki < ksz,
                    fx_ok(acc_kj as int),
                    acc_kj as int == sp_fwd_kj(
                        self.kernels@,
                        ksz,
                        self.stride,
                        *x,
                        f as int,
                        oi as int,
                        oj as int,
                        ki as int,
                        kj as int,
                    ),
                decreases ksz - kj,
            {
                let mut acc_c: i64 = 0;
                let mut c: usize = 0;
                while c < ch
                    invariant
                        c <= ch,
                        kj < ksz,
                        ki < ksz,
                        fx_ok(acc_c as int),
                        acc_c as int == sp_fwd_c(
                            self.kernels@,
                            ksz,
                            self.stride,
                            *x,
                            f as int,
                            oi as int,
                            oj as int,
                            ki as int,
                            kj as int,
                            c as int,
                        ),
                    decreases ch - c,
                {
                    proof {
                        lemma_window_in_bounds(
                            self.input_size.0 as int,
                            ksz as int,
                            self.stride as int,
                            oi as int,
                            ki as int,
                        );
                        lemma_window_in_bounds(
                            self.input_size.1 as int,
                            ksz as int,
                            self.stride as int,
                            oj as int,
                            kj as int,
                        );
                    }
                    let xv = x.get(oi * self.stride + ki, oj * self.stride + kj, c);
                    let t = fx_mul(self.kw(f, ki, kj, c), xv);
                    acc_c = fx_add(acc_c, t);
                    c += 1;
                }
                acc_kj = fx_add(acc_kj, acc_c);
                kj += 1;
            }
            acc_ki = fx_add(acc_ki, acc_kj);
            ki += 1;
        }
        fx_add(self.biases[f], acc_ki)
    }

    /// Cross-correlate each filter over the input with the configured
    /// stride and valid boundary, add the filter's bias, and cache both the
    /// input and the produced output for the backward pass.
    #[verifier::loop_isolation(false)]
    pub fn forward_propagate(&mut self, input: Tensor3) -> (r: Tensor3)
        requires
            old(self).wf(),
            input.wf(),
            input.shape == old(self).input_size,
        ensures
            final(self).wf(),
            r.wf(),
            r.shape == old(self).output_size,
            final(self).input == input,
            final(self).output.data@ == r.data@,
            final(self).output.shape == r.shape,
            final(self).kernels == old(self).kernels,
            final(self).biases == old(self).biases,
            final(self).kernel_changes == old(self).kernel_changes,
            final(self).bias_changes == old(self).bias_changes,
            final(self).kmoments == old(self).kmoments,
            final(self).bmoments == old(self).bmoments,
            final(self).optimizer == old(self).optimizer,
            final(self).input_size == old(self).input_size,
            final(self).output_size == old(self).output_size,
            final(self).kernel_size == old(self).kernel_size,
            final(self).stride == old(self).stride,
            final(self).num_filters == old(self).num_filters,
            forall|oi: int, oj: int, f: int|
                0 <= oi < r.shape.0 && 0 <= oj < r.shape.1 && 0 <= f < r.shape.2
                    ==> #[trigger] r.at(oi, oj, f) == sp_conv_cell(
                    old(self).kernels@,
                    old(self).biases@[f] as int,
                    old(self).kernel_size,
                    old(self).stride,
                    input,
                    f,
                    oi,
                    oj,
                ),
    {
        self.input = input;
        let os = self.output_size;
        let total = tlen(os);
        let mut out: Vec<i64> = Vec::new();
        let mut p: usize = 0;
        while p < total
            invariant
                p <= total,
                out@.len() == p,
                forall|i: int| 0 <= i < p ==> fx_ok(#[trigger] out@[i] as int),
                forall|oi: int, oj: int, f: int|
                    0 <= oi < os.0 && 0 <= oj < os.1 && 0 <= f < os.2 && sp_idx3(os, oi, oj, f)
                        < p ==> #[trigger] out@[sp_idx3(os, oi, oj, f)] as int == sp_conv_cell(
                        self.kernels@,
                        self.biases@[f] as int,
                        self.kernel_size,
                        self.stride,
                        self.input,
                        f,
                        oi,
                        oj,
                    ),
            decreases total - p,
        {
            let (oi, oj, f) = decode3(p, os);
            let v = self.cell(&self.input, f, oi, oj);
            out.push(v);
            proof {
                assert forall|a: int, b: int, g: int|
                    0 <= a < os.0 && 0 <= b < os.1 && 0 <= g < os.2 && sp_idx3(os, a, b, g) == p
                        implies a == oi as int && b == oj as int && g == f as int by {
                    lemma_idx3_inj(os, a, b, g, oi as int, oj as int, f as int);
                }
            }
            p += 1;
        }
        proof {
            assert forall|oi: int, oj: int, f: int|
                0 <= oi < os.0 && 0 <= oj < os.1 && 0 <= f < os.2 implies sp_idx3(os, oi, oj, f)
                < total by {
                lemma_idx3_bound(os, oi, oj, f);
            }
        }
        let data2 = copy_vec(&out);
        let r = Tensor3 { data: out, shape: os };
        self.output = Tensor3 { data: data2, shape: os };
        r
    }
}

impl ConvLayer {
    /// Gradient of one kernel weight for this sample: the cached input
    /// cross-correlated with the incoming error.
    #[verifier::loop_isolation(false)]
    fn kgrad_cell(&self, e: &Tensor3, f: usize, ki: usize, kj: usize, c: usize) -> (r: i64)
        requires
            self.wf(),
            e.wf(),
            e.shape == self.output_size,
            f < self.num_filters,
            ki < self.kernel_size,
            kj < self.kernel_size,
            c < self.input_size.2,
        ensures
            r as int == sp_kgrad(self.input, *e, self.stride, f as int, ki as int, kj as int, c as int),
            fx_ok(r as int),
    {
        let oh = e.shape.0;
        let ow = e.shape.1;
        let mut acc_oi: i64 = 0;
        let mut oi: usize = 0;
        while oi < oh
            invariant
                oi <= oh,
                fx_ok(acc_oi as int),
                acc_oi as int == sp_kg_oi(
                    self.input,
                    *e,
                    self.stride,
                    f as int,
                    ki as int,
                    kj as int,
                    c as int,
                    oi as int,
                ),
            decreases oh - oi,
        {
            let mut acc_oj: i64 = 0;
            let mut oj: usize = 0;
            while oj < ow
                invariant
                    oj <= ow,
                    oi < oh,
                    fx_ok(acc_oj as int),
                    acc_oj as int == sp_kg_oj(
                        self.input,
                        *e,
                        self.stride,
                        f as int,
                        ki as int,
                        kj as int,
                        c as int,
                        oi as int,
                        oj as int,
                    ),
                decreases ow - oj,
            {
                proof {
                    lemma_window_in_bounds(
                        self.input_size.0 as int,
                        self.kernel_size as int,
                        self.stride as int,
                        oi as int,
                        ki as int,
                    );
                    lemma_window_in_bounds(
                        self.input_size.1 as int,
                        self.kernel_size as int,
                        self.stride as int,
                        oj as int,
                        kj as int,
                    );
                }
                let xv = self.input.get(oi * self.stride + ki, oj * self.stride + kj, c);
                let ev = e.get(oi, oj, f);
                acc_oj = fx_add(acc_oj, fx_mul(xv, ev));
                oj += 1;
            }
            acc_oi = fx_add(acc_oi, acc_oj);
            oi += 1;
        }
        acc_oi
    }

    /// Gradient of one filter's bias for this sample: the error summed over
    /// that filter's spatial positions.
    #[verifier::loop_isolation(false)]
    fn bgrad_cell(&self, e: &Tensor3, f: usize) -> (r: i64)
        requires
            self.wf(),
            e.wf(),
            e.shape == self.output_size,
            f < self.num_filters,
        ensures
            r as int == sp_bgrad(*e, f as int),
            fx_ok(r as int),
    {
        let oh = e.shape.0;
        let ow = e.shape.1;
        let mut acc_oi: i64 = 0;
        let mut oi: usize = 0;
        while oi < oh
            invariant
                oi <= oh,
                fx_ok(acc_oi as int),
                acc_oi as int == sp_bg_oi(*e, f as int, oi as int),
            decreases oh - oi,
        {
            let mut acc_oj: i64 = 0;
            let mut oj: usize = 0;
            while oj < ow
                invariant
                    oj <= ow,
                    oi < oh,
                    fx_ok(acc_oj as int),
                    acc_oj as int == sp_bg_oj(*e, f as int, oi as int, oj as int),
                decreases ow - oj,
            {
                acc_oj = fx_add(acc_oj, e.get(oi, oj, f));
                oj += 1;
            }
            acc_oi = fx_add(acc_oi, acc_oj);
            oi += 1;
        }
        acc_oi
    }

    /// One cell of the error to hand to the previous layer: the full
    /// correlation of the kernels with the incoming error, mapped back
    /// through the stride.
    #[verifier::loop_isolation(false)]
    fn berr_cell(&self, e: &Tensor3, xi: usize, xj: usize, c: usize) -> (r: i64)
        requires
            self.wf(),
            e.wf(),
            e.shape == self.output_size,
            xi < self.input_size.0,
            xj < self.input_size.1,
            c < self.input_size.2,
        ensures
            r as int == sp_conv_berr(
                self.kernels@,
                self.kernel_size,
                self.input_size.2,
                self.stride,
                *e,
                xi as int,
                xj as int,
                c as int,
            ),
            fx_ok(r as int),
    {
        let nf = e.shape.2;
        let ksz = self.kernel_size;
        let mut acc_f: i64 = 0;
        let mut f: usize = 0;
        while f < nf
            invariant
                f <= nf,
                fx_ok(acc_f as int),
                acc_f as int == sp_be_f(
                    self.kernels@,
                    ksz,
                    self.input_size.2,
                    self.stride,
                    *e,
                    xi as int,
                    xj as int,
                    c as int,
                    f as int,
                ),
            decreases nf - f,
        {
            let mut acc_ki: i64 = 0;
            let mut ki: usize = 0;
            while ki < ksz
                invariant
                    ki <= ksz,
                    f < nf,
                    fx_ok(acc_ki as int),
                    acc_ki as int == sp_be_ki(
                        self.kernels@,
                        ksz,
                        self.input_size.2,
                        self.stride,
                        *e,
                        xi as int,
                        xj as int,
                        c as int,
                        f as int,
                        ki as int,
                    ),
                decreases ksz - ki,
            {
                let mut acc_kj: i64 = 0;
                let mut kj: usize = 0;
                while kj < ksz
                    invariant
                        kj <= ksz,
                        ki < ksz,
                        f < nf,
                        fx_ok(acc_kj as int),
                        acc_kj as int == sp_be_kj(
                            self.kernels@,
                            ksz,
                            self.input_size.2,
                            self.stride,
                            *e,
                            xi as int,
                            xj as int,
                            c as int,
                            f as int,
                            ki as int,
                            kj as int,
                        ),
                    decreases ksz - kj,
                {
                    let mut t: i64 = 0;
                    if xi >= ki && xj >= kj && (xi - ki) % self.stride == 0 && (xj - kj)
                        % self.stride == 0 {
                        let oi = (xi - ki) / self.stride;
                        let oj = (xj - kj) / self.stride;
                        if oi < e.shape.0 && oj < e.shape.1 {
                            t = fx_mul(self.kw(f, ki, kj, c), e.get(oi, oj, f));
                        }
                    }
                    acc_kj = fx_add(acc_kj, t);
                    kj += 1;
                }
                acc_ki = fx_add(acc_ki, acc_kj);
                ki += 1;
            }
            acc_f = fx_add(acc_f, acc_ki);
            f += 1;
        }
        acc_f
    }

    /// Accumulate this sample's kernel and bias gradients into the layer's
    /// accumulators and return the error for the previous layer, shaped
    /// like the configured input whatever the error values are.
    #[verifier::loop_isolation(false)]
    pub fn back_propagate(&mut self, error: Tensor3) -> (r: Tensor3)
        requires
            old(self).wf(),
            error.wf(),
            error.shape == old(self).output_size,
        ensures
            final(self).wf(),
            r.wf(),
            r.shape == old(self).input_size,
            final(self).kernels == old(self).kernels,
            final(self).biases == old(self).biases,
            final(self).input == old(self).input,
            final(self).output == old(self).output,
            final(self).kmoments == old(self).kmoments,
            final(self).bmoments == old(self).bmoments,
            final(self).optimizer == old(self).optimizer,
            final(self).input_size == old(self).input_size,
            final(self).output_size == old(self).output_size,
            final(self).kernel_size == old(self).kernel_size,
            final(self).stride == old(self).stride,
            final(self).num_filters == old(self).num_filters,
            final(self).kernel_changes@.len() == old(self).kernel_changes@.len(),
            final(self).bias_changes@.len() == old(self).bias_changes@.len(),
            forall|f: int, ki: int, kj: int, c: int|
                0 <= f < old(self).num_filters && 0 <= ki < old(self).kernel_size && 0 <= kj
                    < old(self).kernel_size && 0 <= c < old(self).input_size.2
                    ==> #[trigger] final(self).kernel_changes@[sp_idx4(
                    old(self).kernel_size,
                    old(self).input_size.2,
                    f,
                    ki,
                    kj,
                    c,
                )] as int == sp_add(
                    old(self).kernel_changes@[sp_idx4(
                        old(self).kernel_size,
                        old(self).input_size.2,
                        f,
                        ki,
                        kj,
                        c,
                    )] as int,
                    sp_kgrad(old(self).input, error, old(self).stride, f, ki, kj, c),
                ),
            forall|f: int|
                0 <= f < old(self).num_filters ==> #[trigger] final(self).bias_changes@[f] as int
                    == sp_add(old(self).bias_changes@[f] as int, sp_bgrad(error, f)),
            forall|xi: int, xj: int, c: int|
                0 <= xi < r.shape.0 && 0 <= xj < r.shape.1 && 0 <= c < r.shape.2
                    ==> #[trigger] r.at(xi, xj, c) == sp_conv_berr(
                    old(self).kernels@,
                    old(self).kernel_size,
                    old(self).input_size.2,
                    old(self).stride,
                    error,
                    xi,
                    xj,
                    c,
                ),
    {
        let ksz = self.kernel_size;
        let ch = self.input_size.2;
        let nf = self.num_filters;
        // Kernel gradient accumulation.
        let nk = self.kernel_changes.len();
        let mut kc: Vec<i64> = Vec::new();
        let mut p: usize = 0;
        while p < nk
            invariant
                p <= nk,
                kc@.len() == p,
                forall|i: int| 0 <= i < p ==> fx_ok(#[trigger] kc@[i] as int),
                forall|f: int, ki: int, kj: int, c: int|
                    0 <= f < nf && 0 <= ki < ksz && 0 <= kj < ksz && 0 <= c < ch && sp_idx4(
                        ksz,
                        ch,
                        f,
                        ki,
                        kj,
                        c,
                    ) < p ==> #[trigger] kc@[sp_idx4(ksz, ch, f, ki, kj, c)] as int == sp_add(
                        self.kernel_changes@[sp_idx4(ksz, ch, f, ki, kj, c)] as int,
                        sp_kgrad(self.input, error, self.stride, f, ki, kj, c),
                    ),
            decreases nk - p,
        {
            let (f, ki, kj, c) = decode4(p, nf, ksz, ch);
            let g = self.kgrad_cell(&error, f, ki, kj, c);
            kc.push(fx_add(self.kernel_changes[p], g));
            proof {
                assert forall|a: int, b: int, cc: int, dd: int|
                    0 <= a < nf && 0 <= b < ksz && 0 <= cc < ksz && 0 <= dd < ch && sp_idx4(
                        ksz,
                        ch,
                        a,
                        b,
                        cc,
                        dd,
                    ) == p implies a == f as int && b == ki as int && cc == kj as int && dd
                    == c as int by {
                    lemma_idx4_inj(ksz, ch, a, b, cc, dd, f as int, ki as int, kj as int, c as int);
                }
            }
            p += 1;
        }
        proof {
            assert forall|f: int, ki: int, kj: int, c: int|
                0 <= f < nf && 0 <= ki < ksz && 0 <= kj < ksz && 0 <= c < ch implies sp_idx4(
                ksz,
                ch,
                f,
                ki,
                kj,
                c,
            ) < nk by {
                lemma_idx4_bound(nf, ksz, ch, f, ki, kj, c);
            }
        }
        // Bias gradient accumulation.
        let mut bc: Vec<i64> = Vec::new();
        let mut f: usize = 0;
        while f < nf
            invariant
                f <= nf,
                bc@.len() == f,
                forall|i: int| 0 <= i < f ==> fx_ok(#[trigger] bc@[i] as int),
                forall|i: int|
                    0 <= i < f ==> #[trigger] bc@[i] as int == sp_add(
                        self.bias_changes@[i] as int,
                        sp_bgrad(error, i),
                    ),
            decreases nf - f,
        {
            let g = self.bgrad_cell(&error, f);
            bc.push(fx_add(self.bias_changes[f], g));
            f += 1;
        }
        // Error for the previous layer.
        let is = self.input_size;
        let total = tlen(is);
        let mut out: Vec<i64> = Vec::new();
        let mut p: usize = 0;
        while p < total
            invariant
                p <= total,
                out@.len() == p,
                forall|i: int| 0 <= i < p ==> fx_ok(#[trigger] out@[i] as int),
                forall|xi: int, xj: int, c: int|
                    0 <= xi < is.0 && 0 <= xj < is.1 && 0 <= c < is.2 && sp_idx3(is, xi, xj, c)
                        < p ==> #[trigger] out@[sp_idx3(is, xi, xj, c)] as int == sp_conv_berr(
                        self.kernels@,
                        ksz,
                        ch,
                        self.stride,
                        error,
                        xi,
                        xj,
                        c,
                    ),
            decreases total - p,
        {
            let (xi, xj, c) = decode3(p, is);
            let v = self.berr_cell(&error, xi, xj, c);
            out.push(v);
            proof {
                assert forall|a: int, b: int, g: int|
                    0 <= a < is.0 && 0 <= b < is.1 && 0 <= g < is.2 && sp_idx3(is, a, b, g) == p
                        implies a == xi as int && b == xj as int && g == c as int by {
                    lemma_idx3_inj(is, a, b, g, xi as int, xj as int, c as int);
                }
            }
            p += 1;
        }
        proof {
            assert forall|xi: int, xj: int, c: int|
                0 <= xi < is.0 && 0 <= xj < is.1 && 0 <= c < is.2 implies sp_idx3(is, xi, xj, c)
                < total by {
                lemma_idx3_bound(is, xi, xj, c);
            }
        }
        self.kernel_changes = kc;
        self.bias_changes = bc;
        Tensor3 { data: out, shape: is }
    }

    /// Average the accumulated gradients over the mini-batch, turn them
    /// into deltas through the optimizer, apply the deltas to the kernels
    /// and biases, and clear the accumulators for the next batch.
    #[verifier::loop_isolation(false)]
    pub fn update(&mut self, minibatch_size: usize)
        requires
            old(self).wf(),
            minibatch_size >= 1,
        ensures
            final(self).wf(),
            final(self).input == old(self).input,
            final(self).output == old(self).output,
            final(self).optimizer == old(self).optimizer,
            final(self).input_size == old(self).input_size,
            final(self).output_size == old(self).output_size,
            final(self).kernel_size == old(self).kernel_size,
            final(self).stride == old(self).stride,
            final(self).num_filters == old(self).num_filters,
            final(self).kernels@.len() == old(self).kernels@.len(),
            final(self).biases@.len() == old(self).biases@.len(),
            forall|i: int|
                0 <= i < old(self).kernels@.len() ==> #[trigger] final(self).kernels@[i] as int
                    == sp_add(
                    old(self).kernels@[i] as int,
                    sp_delta(
                        old(self).optimizer,
                        old(self).kmoments.m@[i] as int,
                        old(self).kmoments.v@[i] as int,
                        final(self).kmoments.t as nat,
                        sp_divn(old(self).kernel_changes@[i] as int, minibatch_size as int),
                    ),
                ),
            forall|i: int|
                0 <= i < old(self).biases@.len() ==> #[trigger] final(self).biases@[i] as int
                    == sp_add(
                    old(self).biases@[i] as int,
                    sp_delta(
                        old(self).optimizer,
                        old(self).bmoments.m@[i] as int,
                        old(self).bmoments.v@[i] as int,
                        final(self).bmoments.t as nat,
                        sp_divn(old(self).bias_changes@[i] as int, minibatch_size as int),
                    ),
                ),
            final(self).kmoments.t == if old(self).optimizer is Adam {
                sp_tick(old(self).kmoments.t)
            } else {
                old(self).kmoments.t
            },
            forall|i: int|
                0 <= i < old(self).kernels@.len() ==> #[trigger] final(self).kmoments.m@[i] as int
                    == sp_new_m(
                    old(self).optimizer,
                    old(self).kmoments.m@[i] as int,
                    sp_divn(old(self).kernel_changes@[i] as int, minibatch_size as int),
                ),
            forall|i: int|
                0 <= i < old(self).kernels@.len() ==> #[trigger] final(self).kmoments.v@[i] as int
                    == sp_new_v(
                    old(self).optimizer,
                    old(self).kmoments.v@[i] as int,
                    sp_divn(old(self).kernel_changes@[i] as int, minibatch_size as int),
                ),
            forall|i: int|
                0 <= i < old(self).biases@.len() ==> #[trigger] final(self).bmoments.m@[i] as int
                    == sp_new_m(
                    old(self).optimizer,
                    old(self).bmoments.m@[i] as int,
                    sp_divn(old(self).bias_changes@[i] as int, minibatch_size as int),
                ),
            forall|i: int|
                0 <= i < old(self).biases@.len() ==> #[trigger] final(self).bmoments.v@[i] as int
                    == sp_new_v(
                    old(self).optimizer,
                    old(self).bmoments.v@[i] as int,
                    sp_divn(old(self).bias_changes@[i] as int, minibatch_size as int),
                ),
            final(self).bmoments.t == if old(self).optimizer is Adam {
                sp_tick(old(self).bmoments.t)
            } else {
                old(self).bmoments.t
            },
            forall|i: int|
                0 <= i < old(self).kernel_changes@.len() ==> #[trigger] final(self).kernel_changes@[i] == 0,
            forall|i: int|
                0 <= i < old(self).bias_changes@.len() ==> #[trigger] final(self).bias_changes@[i]
                    == 0,
    {
        let alg = self.optimizer;
        let nk = self.kernel_changes.len();
        let mut g: Vec<i64> = Vec::new();
        let mut i: usize = 0;
        while i < nk
            invariant
                i <= nk,
                g@.len() == i,
                forall|k: int| 0 <= k < i ==> fx_ok(#[trigger] g@[k] as int),
                forall|k: int|
                    0 <= k < i ==> #[trigger] g@[k] as int == sp_divn(
                        self.kernel_changes@[k] as int,
                        minibatch_size as int,
                    ),
            decreases nk - i,
        {
            g.push(fx_divn(self.kernel_changes[i], minibatch_size as u64));
            i += 1;
        }
        let d = compute_deltas(alg, &mut self.kmoments, &g);
        let ghost km = self.kmoments;
        let mut i: usize = 0;
        while i < nk
            invariant
                i <= nk,
                self.kernels@.len() == nk,
                self.kmoments == km,
                self.kernel_changes == old(self).kernel_changes,
                self.biases == old(self).biases,
                self.bias_changes == old(self).bias_changes,
                self.bmoments == old(self).bmoments,
                self.input == old(self).input,
                self.output == old(self).output,
                self.optimizer == old(self).optimizer,
                self.input_size == old(self).input_size,
                self.output_size == old(self).output_size,
                self.kernel_size == old(self).kernel_size,
                self.stride == old(self).stride,
                self.num_filters == old(self).num_filters,
                forall|k: int| 0 <= k < nk ==> fx_ok(#[trigger] self.kernels@[k] as int),
                forall|k: int| i <= k < nk ==> #[trigger] self.kernels@[k] == old(self).kernels@[k],
                forall|k: int|
                    0 <= k < i ==> #[trigger] self.kernels@[k] as int == sp_add(
                        old(self).kernels@[k] as int,
                        d@[k] as int,
                    ),
            decreases nk - i,
        {
            let w = fx_add(self.kernels[i], d[i]);
            self.kernels.set(i, w);
            i += 1;
        }
        self.kernel_changes = zero_vec(nk);
        let nb = self.bias_changes.len();
        let mut gb: Vec<i64> = Vec::new();
        let mut i: usize = 0;
        while i < nb
            invariant
                i <= nb,
                gb@.len() == i,
                forall|k: int| 0 <= k < i ==> fx_ok(#[trigger] gb@[k] as int),
                forall|k: int|
                    0 <= k < i ==> #[trigger] gb@[k] as int == sp_divn(
                        self.bias_changes@[k] as int,
                        minibatch_size as int,
                    ),
            decreases nb - i,
        {
            gb.push(fx_divn(self.bias_changes[i], minibatch_size as u64));
            i += 1;
        }
        let db = compute_deltas(alg, &mut self.bmoments, &gb);
        let ghost ks = self.kernels;
        let ghost kc2 = self.kernel_changes;
        let ghost km2 = self.kmoments;
        let ghost bm = self.bmoments;
        let mut i: usize = 0;
        while i < nb
            invariant
                i <= nb,
                self.biases@.len() == nb,
                self.kernels == ks,
                self.kernel_changes == kc2,
                self.kmoments == km2,
                self.bmoments == bm,
                self.bias_changes == old(self).bias_changes,
                self.input == old(self).input,
                self.output == old(self).output,
                self.optimizer == old(self).optimizer,
                self.input_size == old(self).input_size,
                self.output_size == old(self).output_size,
                self.kernel_size == old(self).kernel_size,
                self.stride == old(self).stride,
                self.num_filters == old(self).num_filters,
                forall|k: int| 0 <= k < nb ==> fx_ok(#[trigger] self.biases@[k] as int),
                forall|k: int| i <= k < nb ==> #[trigger] self.biases@[k] == old(self).biases@[k],
                forall|k: int|
                    0 <= k < i ==> #[trigger] self.biases@[k] as int == sp_add(
                        old(self).biases@[k] as int,
                        db@[k] as int,
                    ),
            decreases nb - i,
        {
            let b = fx_add(self.biases[i], db[i]);
            self.biases.set(i, b);
            i += 1;
        }
        self.bias_changes = zero_vec(nb);
    }

    /// Clear the gradient accumulators and the cached output without
    /// touching the learned parameters.
    pub fn zero(&mut self)
        requires
            old(self).wf(),
        ensures
            final(self).wf(),
            final(self).kernels == old(self).kernels,
            final(self).biases == old(self).biases,
            final(self).input == old(self).input,
            final(self).kmoments == old(self).kmoments,
            final(self).bmoments == old(self).bmoments,
            final(self).optimizer == old(self).optimizer,
            final(self).input_size == old(self).input_size,
            final(self).output_size == old(self).output_size,
            final(self).kernel_size == old(self).kernel_size,
            final(self).stride == old(self).stride,
            final(self).num_filters == old(self).num_filters,
            final(self).kernel_changes@.len() == old(self).kernel_changes@.len(),
            final(self).bias_changes@.len() == old(self).bias_changes@.len(),
            final(self).output.shape == old(self).output.shape,
            forall|i: int|
                0 <= i < final(self).kernel_changes@.len() ==> #[trigger] final(self).kernel_changes@[i] == 0,
            forall|i: int|
                0 <= i < final(self).bias_changes@.len() ==> #[trigger] final(self).bias_changes@[i]
                    == 0,
            forall|i: int|
                0 <= i < final(self).output.data@.len() ==> #[trigger] final(self).output.data@[i]
                    == 0,
    {
        let nk = self.kernel_changes.len();
        self.kernel_changes = zero_vec(nk);
        let nb = self.bias_changes.len();
        self.bias_changes = zero_vec(nb);
        self.output = Tensor3::zeros(self.output_size);
    }
}

/// A vector of scalars drawn uniformly from `[-1, 1]`.
fn rand_vec(n: usize) -> (r: Vec<i64>)
    ensures
        r@.len() == n,
        forall|i: int| 0 <= i < n ==> fx_ok(#[trigger] r@[i] as int),
{
    let mut r: Vec<i64> = Vec::new();
    let mut i: usize = 0;
    while i < n
        invariant
            i <= n,
            r@.len() == i,
            forall|k: int| 0 <= k < i ==> fx_ok(#[trigger] r@[k] as int),
        decreases n - i,
    {
        r.push(rand_weight());
        i += 1;
    }
    r
}

} // verus!

