//! The max-pooling layer: per channel, each strided window collapses to
//! its maximum, and the position that produced the maximum is recorded so
//! the backward pass can route gradients to it alone.

use vstd::prelude::*;
use crate::conv_layers::{lemma_window_in_bounds, sp_odim};
use crate::fx::{fx_add, fx_ok, sp_add};
use crate::tensor::{
    decode3, lemma_idx3_bound, lemma_idx3_inj, sp_idx3, sp_shape_ok, sp_tlen, tlen,
    zero_usize_vec, Tensor3,
};

verus! {

/// The input cell a window position `t` (a flat offset below
/// `ksz * ksz`) reaches for output cell `(oi, oj)`.
pub open spec fn sp_win_i(stride: usize, ksz: usize, oi: int, t: int) -> int {
    oi * stride + t / (ksz as int)
}

pub open spec fn sp_win_j(stride: usize, ksz: usize, oj: int, t: int) -> int {
    oj * stride + t % (ksz as int)
}

/// The routed-error term of output cell `(oi, oj)` at input cell
/// `(xi, xj)`: the cell's error if its recorded argmax lies there, else
/// zero.
pub open spec fn sp_route_term(
    mask: Seq<usize>,
    ksz: usize,
    stride: usize,
    e: Tensor3,
    xi: int,
    xj: int,
    c: int,
    oi: int,
    oj: int,
) -> int {
    let m = mask[sp_idx3(e.shape, oi, oj, c)] as int;
    if xi == sp_win_i(stride, ksz, oi, m) && xj == sp_win_j(stride, ksz, oj, m) {
        e.at(oi, oj, c)
    } else {
        0
    }
}

/// Partial fold of the routed error over output columns.
pub open spec fn sp_route_oj(
    mask: Seq<usize>,
    ksz: usize,
    stride: usize,
    e: Tensor3,
    xi: int,
    xj: int,
    c: int,
    oi: int,
    noj: int,
) -> int
    decreases noj,
{
    if noj <= 0 {
        0
    } else {
        sp_add(
            sp_route_oj(mask, ksz, stride, e, xi, xj, c, oi, noj - 1),
            sp_route_term(mask, ksz, stride, e, xi, xj, c, oi, noj - 1),
        )
    }
}

/// Partial fold of the routed error over output rows.
pub open spec fn sp_route_oi(
    mask: Seq<usize>,
    ksz: usize,
    stride: usize,
    e: Tensor3,
    xi: int,
    xj: int,
    c: int,
    noi: int,
) -> int
    decreases noi,
{
    if noi <= 0 {
        0
    } else {
        sp_add(
            sp_route_oi(mask, ksz, stride, e, xi, xj, c, noi - 1),
            sp_route_oj(mask, ksz, stride, e, xi, xj, c, noi - 1, e.shape.1 as int),
        )
    }
}

/// One cell of the error handed to the previous layer: the errors of all
/// output cells whose recorded argmax is this input cell.
pub open spec fn sp_mxpl_berr(
    mask: Seq<usize>,
    ksz: usize,
    stride: usize,
    e: Tensor3,
    xi: int,
    xj: int,
    c: int,
) -> int {
    sp_route_oi(mask, ksz, stride, e, xi, xj, c, e.shape.0 as int)
}

/// A 3-D max-pooling layer with argmax routing; it has no learnable
/// parameters.
pub struct MxplLayer {
    pub input_size: (usize, usize, usize),
    pub kernel_size: usize,
    pub stride: usize,
    pub output_size: (usize, usize, usize),
    pub input: Tensor3,
    pub output: Tensor3,
    pub mask: Vec<usize>,
}

impl MxplLayer {
    pub open spec fn wf(&self) -> bool {
        &&& sp_shape_ok(self.input_size)
        &&& sp_shape_ok(self.output_size)
        &&& 1 <= self.kernel_size <= self.input_size.0
        &&& self.kernel_size <= self.input_size.1
        &&& 1 <= self.stride
        &&& self.output_size.0 as int == sp_odim(
            self.input_size.0 as int,
            self.kernel_size as int,
            self.stride as int,
        )
        &&& self.output_size.1 as int == sp_odim(
            self.input_size.1 as int,
            self.kernel_size as int,
            self.stride as int,
        )
        &&& self.output_size.2 == self.input_size.2
        &&& self.input.wf()
        &&& self.input.shape == self.input_size
        &&& self.output.wf()
        &&& self.output.shape == self.output_size
        &&& self.mask@.len() == sp_tlen(self.output_size)
        &&& forall|i: int|
            0 <= i < self.mask@.len() ==> #[trigger] self.mask@[i] < self.kernel_size
                * self.kernel_size
    }

    /// Build a pooling layer; the output shape follows the
    /// valid-convolution formula with the channel count preserved.
    pub fn new(input_size: (usize, usize, usize), kernel_size: usize, stride: usize) -> (r:
        MxplLayer)
        requires
            sp_shape_ok(input_size),
            1 <= kernel_size <= input_size.0,
            kernel_size <= input_size.1,
            1 <= stride,
        ensures
            r.wf(),
            r.input_size == input_size,
            r.kernel_size == kernel_size,
            r.stride == stride,
            r.output_size.0 as int == sp_odim(input_size.0 as int, kernel_size as int, stride as int),
            r.output_size.1 as int == sp_odim(input_size.1 as int, kernel_size as int, stride as int),
            r.output_size.2 == input_size.2,
            forall|i: int| 0 <= i < r.output.data@.len() ==> #[trigger] r.output.data@[i] == 0,
            forall|i: int| 0 <= i < r.mask@.len() ==> #[trigger] r.mask@[i] == 0,
    {
        let oh = (input_size.0 - kernel_size) / stride + 1;
        let ow = (input_size.1 - kernel_size) / stride + 1;
        proof {
            vstd::arithmetic::div_mod::lemma_div_pos_is_pos(
                input_size.0 - kernel_size,
                stride as int,
            );
            vstd::arithmetic::div_mod::lemma_div_pos_is_pos(
                input_size.1 - kernel_size,
                stride as int,
            );
            vstd::arithmetic::div_mod::lemma_div_nonincreasing(
                input_size.0 - kernel_size,
                stride as int,
            );
            vstd::arithmetic::div_mod::lemma_div_nonincreasing(
                input_size.1 - kernel_size,
                stride as int,
            );
            assert(oh * ow * input_size.2 <= input_size.0 * input_size.1 * input_size.2)
                by (nonlinear_arith)
                requires
                    1 <= oh <= input_size.0,
                    1 <= ow <= input_size.1,
                    input_size.2 >= 1,
            ;
        }
        proof {
            assert(kernel_size * kernel_size >= 1) by (nonlinear_arith)
                requires kernel_size >= 1;
        }
        let output_size = (oh, ow, input_size.2);
        let n = tlen(output_size);
        MxplLayer {
            input_size,
            kernel_size,
            stride,
            output_size,
            input: Tensor3::zeros(input_size),
            output: Tensor3::zeros(output_size),
            mask: zero_usize_vec(n),
        }
    }

    /// The maximum of one window, with the flat offset of the first cell
    /// that attains it.
    #[verifier::loop_isolation(false)]
    fn window_max(&self, x: &Tensor3, oi: usize, oj: usize, c: usize) -> (r: (i64, usize))
        requires
            self.wf(),
            x.wf(),
            x.shape == self.input_size,
            oi < self.output_size.0,
            oj < self.output_size.1,
            c < self.output_size.2,
        ensures
            fx_ok(r.0 as int),
            r.1 < self.kernel_size * self.kernel_size,
            r.0 as int == x.at(
                sp_win_i(self.stride, self.kernel_size, oi as int, r.1 as int),
                sp_win_j(self.stride, self.kernel_size, oj as int, r.1 as int),
                c as int,
            ),
            forall|t: int|
                0 <= t < self.kernel_size * self.kernel_size ==> x.at(
                    sp_win_i(self.stride, self.kernel_size, oi as int, t),
                    sp_win_j(self.stride, self.kernel_size, oj as int, t),
                    c as int,
                ) <= r.0 as int,
            forall|t: int|
                0 <= t < r.1 ==> x.at(
                    sp_win_i(self.stride, self.kernel_size, oi as int, t),
                    sp_win_j(self.stride, self.kernel_size, oj as int, t),
                    c as int,
                ) < r.0 as int,
    {
        let ksz = self.kernel_size;
        proof {
            assert(1 <= ksz * ksz <= self.input_size.0 * self.input_size.1) by (nonlinear_arith)
                requires 1 <= ksz <= self.input_size.0 && ksz <= self.input_size.1;
            assert(self.input_size.0 * self.input_size.1 <= self.input_size.0 * self.input_size.1
                * self.input_size.2) by (nonlinear_arith)
                requires
                    self.input_size.0 >= 1,
                    self.input_size.1 >= 1,
                    self.input_size.2 >= 1,
            ;
            assert(0int / (ksz as int) == 0 && 0int % (ksz as int) == 0);
            lemma_window_in_bounds(
                self.input_size.0 as int,
                ksz as int,
                self.stride as int,
                oi as int,
                0,
            );
            lemma_window_in_bounds(
                self.input_size.1 as int,
                ksz as int,
                self.stride as int,
                oj as int,
                0,
            );
        }
        let kk = ksz * ksz;
        let mut best: i64 = x.get(oi * self.stride, oj * self.stride, c);
        let mut bi: usize = 0;
        let mut t: usize = 1;
        while t < kk
            invariant
                1 <= t <= kk,
                bi < t,
                fx_ok(best as int),
                best as int == x.at(
                    sp_win_i(self.stride, ksz, oi as int, bi as int),
                    sp_win_j(self.stride, ksz, oj as int, bi as int),
                    c as int,
                ),
                forall|q: int|
                    0 <= q < t ==> x.at(
                        sp_win_i(self.stride, ksz, oi as int, q),
                        sp_win_j(self.stride, ksz, oj as int, q),
                        c as int,
                    ) <= best as int,
                forall|q: int|
                    0 <= q < bi ==> x.at(
                        sp_win_i(self.stride, ksz, oi as int, q),
                        sp_win_j(self.stride, ksz, oj as int, q),
                        c as int,
                    ) < best as int,
            decreases kk - t,
        {
            let ki = t / ksz;
            let kj = t % ksz;
            proof {
                assert(ki < ksz && kj < ksz) by (nonlinear_arith)
                    requires
                        ki == t as int / ksz as int,
                        kj == t as int % ksz as int,
                        t < ksz * ksz,
                        ksz >= 1,
                        t >= 0,
                ;
                lemma_window_in_bounds(
                    self.input_size.0 as int,
                    ksz as int,
                    self.stride as int,
                    oi as int,
                    ki as int,
                );
                lemma_window_in_bounds(
                    self.input_size.1 as int,
                    ksz as int,
                    self.stride as int,
                    oj as int,
                    kj as int,
                );
            }
            let v = x.get(oi * self.stride + ki, oj * self.stride + kj, c);
            if v > best {
                best = v;
                bi = t;
            }
            t += 1;
        }
        (best, bi)
    }

    /// Collapse each strided window to its maximum, recording per output
    /// cell which window offset produced it (ties keep the first), and
    /// cache the output.
    #[verifier::loop_isolation(false)]
    pub fn forward_propagate(&mut self, input: Tensor3) -> (r: Tensor3)
        requires
            old(self).wf(),
            input.wf(),
            input.shape == old(self).input_size,
        ensures
            final(self).wf(),
            r.wf(),
            r.shape == old(self).output_size,
            final(self).input == input,
            final(self).output.data@ == r.data@,
            final(self).output.shape == r.shape,
            final(self).input_size == old(self).input_size,
            final(self).output_size == old(self).output_size,
            final(self).kernel_size == old(self).kernel_size,
            final(self).stride == old(self).stride,
            final(self).mask@.len() == sp_tlen(old(self).output_size),
            forall|oi: int, oj: int, c: int|
                0 <= oi < r.shape.0 && 0 <= oj < r.shape.1 && 0 <= c < r.shape.2 ==> {
                    let m = #[trigger] final(self).mask@[sp_idx3(r.shape, oi, oj, c)] as int;
                    &&& m < old(self).kernel_size * old(self).kernel_size
                    &&& r.at(oi, oj, c) == input.at(
                        sp_win_i(old(self).stride, old(self).kernel_size, oi, m),
                        sp_win_j(old(self).stride, old(self).kernel_size, oj, m),
                        c,
                    )
                },
            forall|oi: int, oj: int, c: int, t: int|
                0 <= oi < r.shape.0 && 0 <= oj < r.shape.1 && 0 <= c < r.shape.2 && 0 <= t < old(
                    self,
                ).kernel_size * old(self).kernel_size ==> #[trigger] input.at(
                    sp_win_i(old(self).stride, old(self).kernel_size, oi, t),
                    sp_win_j(old(self).stride, old(self).kernel_size, oj, t),
                    c,
                ) <= r.at(oi, oj, c),
            forall|oi: int, oj: int, c: int, t: int|
                0 <= oi < r.shape.0 && 0 <= oj < r.shape.1 && 0 <= c < r.shape.2 && 0 <= t
                    < final(self).mask@[sp_idx3(r.shape, oi, oj, c)] ==> #[trigger] input.at(
                    sp_win_i(old(self).stride, old(self).kernel_size, oi, t),
                    sp_win_j(old(self).stride, old(self).kernel_size, oj, t),
                    c,
                ) < r.at(oi, oj, c),
    {
        let os = self.output_size;
        let total = tlen(os);
        let ksz = self.kernel_size;
        let stride = self.stride;
        let mut out: Vec<i64> = Vec::new();
        let mut msk: Vec<usize> = Vec::new();
        let mut p: usize = 0;
        while p < total
            invariant
                p <= total,
                out@.len() == p,
                msk@.len() == p,
                forall|i: int| 0 <= i < p ==> fx_ok(#[trigger] out@[i] as int),
                forall|i: int| 0 <= i < p ==> #[trigger] msk@[i] < ksz * ksz,
                forall|oi: int, oj: int, c: int|
                    0 <= oi < os.0 && 0 <= oj < os.1 && 0 <= c < os.2 && sp_idx3(os, oi, oj, c)
                        < p ==> #[trigger] out@[sp_idx3(os, oi, oj, c)] as int == input.at(
                        sp_win_i(stride, ksz, oi, msk@[sp_idx3(os, oi, oj, c)] as int),
                        sp_win_j(stride, ksz, oj, msk@[sp_idx3(os, oi, oj, c)] as int),
                        c,
                    ),
                forall|oi: int, oj: int, c: int, t: int|
                    0 <= oi < os.0 && 0 <= oj < os.1 && 0 <= c < os.2 && sp_idx3(os, oi, oj, c)
                        < p && 0 <= t < ksz * ksz ==> #[trigger] input.at(
                        sp_win_i(stride, ksz, oi, t),
                        sp_win_j(stride, ksz, oj, t),
                        c,
                    ) <= out@[sp_idx3(os, oi, oj, c)] as int,
                forall|oi: int, oj: int, c: int, t: int|
                    0 <= oi < os.0 && 0 <= oj < os.1 && 0 <= c < os.2 && sp_idx3(os, oi, oj, c)
                        < p && 0 <= t < msk@[sp_idx3(os, oi, oj, c)] ==> #[trigger] input.at(
                        sp_win_i(stride, ksz, oi, t),
                        sp_win_j(stride, ksz, oj, t),
                        c,
                    ) < out@[sp_idx3(os, oi, oj, c)] as int,
            decreases total - p,
        {
            let (oi, oj, c) = decode3(p, os);
            let (v, bi) = self.window_max(&input, oi, oj, c);
            out.push(v);
            msk.push(bi);
            proof {
                assert forall|a: int, b: int, g: int|
                    0 <= a < os.0 && 0 <= b < os.1 && 0 <= g < os.2 && sp_idx3(os, a, b, g) == p
                        implies a == oi as int && b == oj as int && g == c as int by {
                    lemma_idx3_inj(os, a, b, g, oi as int, oj as int, c as int);
                }
            }
            p += 1;
        }
        proof {
            assert forall|oi: int, oj: int, c: int|
                0 <= oi < os.0 && 0 <= oj < os.1 && 0 <= c < os.2 implies sp_idx3(os, oi, oj, c)
                < total by {
                lemma_idx3_bound(os, oi, oj, c);
            }
        }
        let data2 = crate::tensor::copy_vec(&out);
        let r = Tensor3 { data: out, shape: os };
        self.output = Tensor3 { data: data2, shape: os };
        self.mask = msk;
        self.input = input;
        r
    }

    /// Route each output cell's error, unchanged, to the input cell its
    /// recorded argmax points at; every other input cell receives zero.
    #[verifier::loop_isolation(false)]
    pub fn back_propagate(&mut self, error: Tensor3) -> (r: Tensor3)
        requires
            old(self).wf(),
            error.wf(),
            error.shape == old(self).output_size,
        ensures
            *final(self) == *old(self),
            r.wf(),
            r.shape == old(self).input_size,
            forall|xi: int, xj: int, c: int|
                0 <= xi < r.shape.0 && 0 <= xj < r.shape.1 && 0 <= c < r.shape.2
                    ==> #[trigger] r.at(xi, xj, c) == sp_mxpl_berr(
                    old(self).mask@,
                    old(self).kernel_size,
                    old(self).stride,
                    error,
                    xi,
                    xj,
                    c,
                ),
    {
        let is = self.input_size;
        let total = tlen(is);
        let mut out: Vec<i64> = Vec::new();
        let mut p: usize = 0;
        while p < total
            invariant
                p <= total,
                out@.len() == p,
                forall|i: int| 0 <= i < p ==> fx_ok(#[trigger] out@[i] as int),
                forall|xi: int, xj: int, c: int|
                    0 <= xi < is.0 && 0 <= xj < is.1 && 0 <= c < is.2 && sp_idx3(is, xi, xj, c)
                        < p ==> #[trigger] out@[sp_idx3(is, xi, xj, c)] as int == sp_mxpl_berr(
                        self.mask@,
                        self.kernel_size,
                        self.stride,
                        error,
                        xi,
                        xj,
                        c,
                    ),
            decreases total - p,
        {
            let (xi, xj, c) = decode3(p, is);
            let v = self.route_cell(&error, xi, xj, c);
            out.push(v);
            proof {
                assert forall|a: int, b: int, g: int|
                    0 <= a < is.0 && 0 <= b < is.1 && 0 <= g < is.2 && sp_idx3(is, a, b, g) == p
                        implies a == xi as int && b == xj as int && g == c as int by {
                    lemma_idx3_inj(is, a, b, g, xi as int, xj as int, c as int);
                }
            }
            p += 1;
        }
        proof {
            assert forall|xi: int, xj: int, c: int|
                0 <= xi < is.0 && 0 <= xj < is.1 && 0 <= c < is.2 implies sp_idx3(is, xi, xj, c)
                < total by {
                lemma_idx3_bound(is, xi, xj, c);
            }
        }
        Tensor3 { data: out, shape: is }
    }

    /// The routed error reaching one input cell.
    #[verifier::loop_isolation(false)]
    fn route_cell(&self, e: &Tensor3, xi: usize, xj: usize, c: usize) -> (r: i64)
        requires
            self.wf(),
            e.wf(),
            e.shape == self.output_size,
            xi < self.input_size.0,
            xj < self.input_size.1,
            c < self.input_size.2,
        ensures
            r as int == sp_mxpl_berr(
                self.mask@,
                self.kernel_size,
                self.stride,
                *e,
                xi as int,
                xj as int,
                c as int,
            ),
            fx_ok(r as int),
    {
        let oh = e.shape.0;
        let ow = e.shape.1;
        let ksz = self.kernel_size;
        let stride = self.stride;
        let mut acc_oi: i64 = 0;
        let mut oi: usize = 0;
        while oi < oh
            invariant
                oi <= oh,
                fx_ok(acc_oi as int),
                acc_oi as int == sp_route_oi(
                    self.mask@,
                    ksz,
                    stride,
                    *e,
                    xi as int,
                    xj as int,
                    c as int,
                    oi as int,
                ),
            decreases oh - oi,
        {
            let mut acc_oj: i64 = 0;
            let mut oj: usize = 0;
            while oj < ow
                invariant
                    oj <= ow,
                    oi < oh,
                    fx_ok(acc_oj as int),
                    acc_oj as int == sp_route_oj(
                        self.mask@,
                        ksz,
                        stride,
                        *e,
                        xi as int,
                        xj as int,
                        c as int,
                        oi as int,
                        oj as int,
                    ),
                decreases ow - oj,
            {
                proof {
                    lemma_idx3_bound(e.shape, oi as int, oj as int, c as int);
                }
                let midx = (oi * e.shape.1 + oj) * e.shape.2 + c;
                let m = self.mask[midx];
                proof {
                    assert((m as int / ksz as int) < ksz && (m as int % ksz as int) < ksz)
                        by (nonlinear_arith)
                        requires m < ksz * ksz && ksz >= 1 && m >= 0;
                    lemma_window_in_bounds(
                        self.input_size.0 as int,
                        ksz as int,
                        stride as int,
                        oi as int,
                        m as int / ksz as int,
                    );
                    lemma_window_in_bounds(
                        self.input_size.1 as int,
                        ksz as int,
                        stride as int,
                        oj as int,
                        m as int % ksz as int,
                    );
                }
                let mut t: i64 = 0;
                if xi == oi * stride + m / ksz && xj == oj * stride + m % ksz {
                    t = e.get(oi, oj, c);
                }
                acc_oj = fx_add(acc_oj, t);
                oj += 1;
            }
            acc_oi = fx_add(acc_oi, acc_oj);
            oi += 1;
        }
        acc_oi
    }

    /// Clear the cached output and the argmax mask; there are no learnable
    /// parameters to touch.
    pub fn zero(&mut self)
        requires
            old(self).wf(),
        ensures
            final(self).wf(),
            final(self).input_size == old(self).input_size,
            final(self).output_size == old(self).output_size,
            final(self).kernel_size == old(self).kernel_size,
            final(self).stride == old(self).stride,
            final(self).input == old(self).input,
            final(self).output.shape == old(self).output.shape,
            final(self).mask@.len() == old(self).mask@.len(),
            forall|i: int|
                0 <= i < final(self).output.data@.len() ==> #[trigger] final(self).output.data@[i]
                    == 0,
            forall|i: int| 0 <= i < final(self).mask@.len() ==> #[trigger] final(self).mask@[i] == 0,
    {
        proof {
            assert(self.kernel_size * self.kernel_size >= 1) by (nonlinear_arith)
                requires self.kernel_size >= 1;
        }
        self.output = Tensor3::zeros(self.output_size);
        let n = self.mask.len();
        self.mask = zero_usize_vec(n);
    }
}

} // verus!
