//! The closed polymorphic container over the three layer kinds, dispatched
//! uniformly by the network.

use vstd::prelude::*;
use crate::activation::{sp_vsum, Activation};
use crate::conv_layers::{sp_bgrad, sp_conv_berr, sp_conv_cell, sp_kgrad, ConvLayer};
use crate::dense_layer::{
    sp_act_at, sp_dense_berr, sp_e1, sp_z_vec, DenseLayer,
};
use crate::fx::{fx_ok, sp_add, sp_div, sp_divn, sp_mul, FX_ONE};
use crate::mxpl::{sp_mxpl_berr, sp_win_i, sp_win_j, MxplLayer};
use crate::optimizer::{sp_delta, sp_tick};
use crate::tensor::{copy_vec, sp_idx2, sp_idx3, sp_idx4, sp_tlen, Tensor3};

verus! {

/// A network layer: convolutional, max-pooling, or fully connected.
pub enum Layer {
    Conv(ConvLayer),
    Mxpl(MxplLayer),
    Dense(DenseLayer),
}

impl Layer {
    pub open spec fn wf(&self) -> bool {
        match self {
            Layer::Conv(l) => l.wf(),
            Layer::Mxpl(l) => l.wf(),
            Layer::Dense(l) => l.wf(),
        }
    }

    /// The 3-D shape this layer consumes; for a dense layer, the shape its
    /// flattened input came from.
    pub open spec fn in_shape(&self) -> (usize, usize, usize) {
        match self {
            Layer::Conv(l) => l.input_size,
            Layer::Mxpl(l) => l.input_size,
            Layer::Dense(l) => l.transition_shape,
        }
    }

    /// The 3-D shape this layer produces; a dense layer's output is flat.
    pub open spec fn out_shape(&self) -> (usize, usize, usize) {
        match self {
            Layer::Conv(l) => l.output_size,
            Layer::Mxpl(l) => l.output_size,
            Layer::Dense(l) => (l.output_size, 1, 1),
        }
    }

    /// A small tag distinguishing the kinds in specifications.
    pub open spec fn kind(&self) -> int {
        match self {
            Layer::Conv(_) => 0,
            Layer::Mxpl(_) => 1,
            Layer::Dense(_) => 2,
        }
    }

    /// The activation of a dense layer; immaterial for the others.
    pub open spec fn act_of(&self) -> Activation {
        match self {
            Layer::Dense(l) => l.activation,
            _ => Activation::Relu,
        }
    }

    /// The dropout probability of a dense layer; none for the others.
    pub open spec fn dropout_of(&self) -> Option<i64> {
        match self {
            Layer::Dense(l) => l.dropout,
            _ => None,
        }
    }

    /// The flat view of the input this layer last consumed.
    pub open spec fn in_data(&self) -> Seq<i64> {
        match self {
            Layer::Conv(l) => l.input.data@,
            Layer::Mxpl(l) => l.input.data@,
            Layer::Dense(l) => l.input@,
        }
    }

    /// The flat view of the output this layer last produced.
    pub open spec fn out_data(&self) -> Seq<i64> {
        match self {
            Layer::Conv(l) => l.output.data@,
            Layer::Mxpl(l) => l.output.data@,
            Layer::Dense(l) => l.output@,
        }
    }

    /// The configuration a pass must not disturb: kind, shapes and, for a
    /// dense layer, its activation.
    pub open spec fn sig(&self) -> (int, (usize, usize, usize), (usize, usize, usize), Activation) {
        (self.kind(), self.in_shape(), self.out_shape(), self.act_of())
    }

    /// Number of scalars this layer hands to the next one.
    pub open spec fn out_len(&self) -> int {
        sp_tlen(self.out_shape())
    }

    /// One forward step: a 3-D layer consumes and produces the tensor, a
    /// dense layer consumes and produces the flat vector; the flat view of
    /// the produced data is always returned alongside.
    pub fn forward_step(&mut self, t: Tensor3, flat: Vec<i64>, training: bool) -> (r: (
        Tensor3,
        Vec<i64>,
    ))
        requires
            old(self).wf(),
            old(self).kind() != 2 ==> t.wf() && t.shape == old(self).in_shape() && t.data@
                == flat@,
            flat@.len() == sp_tlen(old(self).in_shape()),
            forall|i: int| 0 <= i < flat@.len() ==> fx_ok(#[trigger] flat@[i] as int),
        ensures
            final(self).wf(),
            final(self).sig() == old(self).sig(),
            r.1@.len() == sp_tlen(old(self).out_shape()),
            forall|i: int| 0 <= i < r.1@.len() ==> fx_ok(#[trigger] r.1@[i] as int),
            final(self).kind() != 2 ==> r.0.wf() && r.0.shape == old(self).out_shape()
                && r.0.data@ == r.1@,
            (old(self).kind() == 2 && old(self).act_of() is Softmax && (!training || old(
                self,
            ).dropout_of() is None)) ==> FX_ONE - r.1@.len() < sp_vsum(r.1@, r.1@.len() as int)
                <= FX_ONE,
            (old(self).kind() == 2 && old(self).act_of() is Softmax && (!training || old(
                self,
            ).dropout_of() is None)) ==> forall|i: int|
                0 <= i < r.1@.len() ==> 0 <= #[trigger] r.1@[i] <= FX_ONE,
            sp_fwd_exact(*old(self), *final(self), training),
            final(self).in_data() == flat@,
            r.1@ == final(self).out_data(),
    {
        proof {
            reveal(sp_fwd_exact);
        }
        match self {
            Layer::Conv(conv_layer) => {
                let ghost a = *conv_layer;
                let t2 = conv_layer.forward_propagate(t);
                let f2 = copy_vec(&t2.data);
                proof {
                    assert forall|oi: int, oj: int, f: int|
                        0 <= oi < a.output_size.0 && 0 <= oj < a.output_size.1 && 0 <= f
                            < a.output_size.2 implies #[trigger] conv_layer.output.at(oi, oj, f)
                        == sp_conv_cell(
                        a.kernels@,
                        a.biases@[f] as int,
                        a.kernel_size,
                        a.stride,
                        conv_layer.input,
                        f,
                        oi,
                        oj,
                    ) by {
                        assert(t2.at(oi, oj, f) == sp_conv_cell(
                            a.kernels@,
                            a.biases@[f] as int,
                            a.kernel_size,
                            a.stride,
                            t,
                            f,
                            oi,
                            oj,
                        ));
                    }
                }
                (t2, f2)
            },
            Layer::Mxpl(mxpl_layer) => {
                let ghost a = *mxpl_layer;
                let t2 = mxpl_layer.forward_propagate(t);
                let f2 = copy_vec(&t2.data);
                proof {
                    assert forall|oi: int, oj: int, c: int|
                        0 <= oi < a.output_size.0 && 0 <= oj < a.output_size.1 && 0 <= c
                            < a.output_size.2 implies {
                        let m = #[trigger] mxpl_layer.mask@[sp_idx3(a.output_size, oi, oj, c)]
                            as int;
                        &&& m < a.kernel_size * a.kernel_size
                        &&& mxpl_layer.output.at(oi, oj, c) == mxpl_layer.input.at(
                            sp_win_i(a.stride, a.kernel_size, oi, m),
                            sp_win_j(a.stride, a.kernel_size, oj, m),
                            c,
                        )
                    } by {
                        assert(t2.at(oi, oj, c) == t.at(
                            sp_win_i(
                                a.stride,
                                a.kernel_size,
                                oi,
                                mxpl_layer.mask@[sp_idx3(a.output_size, oi, oj, c)] as int,
                            ),
                            sp_win_j(
                                a.stride,
                                a.kernel_size,
                                oj,
                                mxpl_layer.mask@[sp_idx3(a.output_size, oi, oj, c)] as int,
                            ),
                            c,
                        ));
                    }
                    assert forall|oi: int, oj: int, c: int, tt: int|
                        0 <= oi < a.output_size.0 && 0 <= oj < a.output_size.1 && 0 <= c
                            < a.output_size.2 && 0 <= tt < a.kernel_size * a.kernel_size
                            implies #[trigger] mxpl_layer.input.at(
                        sp_win_i(a.stride, a.kernel_size, oi, tt),
                        sp_win_j(a.stride, a.kernel_size, oj, tt),
                        c,
                    ) <= mxpl_layer.output.at(oi, oj, c) by {
                        assert(t.at(
                            sp_win_i(a.stride, a.kernel_size, oi, tt),
                            sp_win_j(a.stride, a.kernel_size, oj, tt),
                            c,
                        ) <= t2.at(oi, oj, c));
                    }
                    assert forall|oi: int, oj: int, c: int, tt: int|
                        0 <= oi < a.output_size.0 && 0 <= oj < a.output_size.1 && 0 <= c
                            < a.output_size.2 && 0 <= tt < mxpl_layer.mask@[sp_idx3(
                            a.output_size,
                            oi,
                            oj,
                            c,
                        )] implies #[trigger] mxpl_layer.input.at(
                        sp_win_i(a.stride, a.kernel_size, oi, tt),
                        sp_win_j(a.stride, a.kernel_size, oj, tt),
                        c,
                    ) < mxpl_layer.output.at(oi, oj, c) by {
                        assert(t.at(
                            sp_win_i(a.stride, a.kernel_size, oi, tt),
                            sp_win_j(a.stride, a.kernel_size, oj, tt),
                            c,
                        ) < t2.at(oi, oj, c));
                    }
                }
                (t2, f2)
            },
            Layer::Dense(dense_layer) => {
                proof {
                    assert(dense_layer.output_size as int * 1 * 1 == dense_layer.output_size as int)
                        by (nonlinear_arith);
                    assert(dense_layer.transition_shape.0 * dense_layer.transition_shape.1
                        * dense_layer.transition_shape.2 == sp_tlen(dense_layer.transition_shape));
                }
                let f2 = dense_layer.forward_propagate(flat, training);
                (t, f2)
            },
        }
    }

    /// One backward step: a 3-D layer consumes and produces the error
    /// tensor, a dense layer consumes the flat error and produces both the
    /// flat error and its tensor view shaped for the layer below.
    pub fn backward_step(&mut self, error: Tensor3, flat_error: Vec<i64>, training: bool) -> (r: (
        Tensor3,
        Vec<i64>,
    ))
        requires
            old(self).wf(),
            old(self).kind() == 2 ==> flat_error@.len() == sp_tlen(old(self).out_shape()) && forall|
                i: int,
            | 0 <= i < flat_error@.len() ==> fx_ok(#[trigger] flat_error@[i] as int),
            old(self).kind() != 2 ==> error.wf() && error.shape == old(self).out_shape(),
        ensures
            final(self).wf(),
            final(self).sig() == old(self).sig(),
            r.0.wf(),
            r.0.shape == old(self).in_shape(),
            old(self).kind() == 2 ==> r.1@.len() == sp_tlen(old(self).in_shape()) && (forall|
                i: int,
            | 0 <= i < r.1@.len() ==> fx_ok(#[trigger] r.1@[i] as int)) && r.0.data@ == r.1@,
            old(self).kind() != 2 ==> sp_bwd_exact(*old(self), *final(self), error, r.0, training),
            old(self).kind() == 2 ==> sp_bwd_dense(
                old(self)->Dense_0,
                final(self)->Dense_0,
                flat_error@,
                r.0,
                training,
            ),
    {
        proof {
            reveal(sp_bwd_exact);
            reveal(sp_bwd_dense);
        }
        match self {
            Layer::Conv(conv_layer) => {
                let e2 = conv_layer.back_propagate(error);
                (e2, Vec::new())
            },
            Layer::Mxpl(mxpl_layer) => {
                let e2 = mxpl_layer.back_propagate(error);
                (e2, Vec::new())
            },
            Layer::Dense(dense_layer) => {
                proof {
                    assert(dense_layer.output_size as int * 1 * 1 == dense_layer.output_size as int)
                        by (nonlinear_arith);
                }
                let f2 = dense_layer.back_propagate(flat_error, training);
                let ts = dense_layer.transition_shape;
                let e2 = Tensor3 { data: copy_vec(&f2), shape: ts };
                (e2, f2)
            },
        }
    }

    /// One update step: apply the accumulated gradient through the
    /// optimizer; max-pooling has nothing to learn.
    pub fn update_step(&mut self, minibatch_size: usize)
        requires
            old(self).wf(),
            minibatch_size >= 1,
        ensures
            final(self).wf(),
            final(self).sig() == old(self).sig(),
            sp_updated(*old(self), *final(self), minibatch_size as int),
    {
        match self {
            Layer::Conv(conv_layer) => conv_layer.update(minibatch_size),
            Layer::Mxpl(_) => {},
            Layer::Dense(dense_layer) => dense_layer.update(minibatch_size),
        }
    }

    /// One reset step: clear per-batch state, leaving parameters alone.
    pub fn zero_step(&mut self)
        requires
            old(self).wf(),
        ensures
            final(self).wf(),
            final(self).sig() == old(self).sig(),
            sp_zeroed(*old(self), *final(self)),
    {
        match self {
            Layer::Conv(conv_layer) => conv_layer.zero(),
            Layer::Mxpl(mxpl_layer) => mxpl_layer.zero(),
            Layer::Dense(dense_layer) => dense_layer.zero(),
        }
    }
}

/// What one forward pass does to a layer, read off its caches: the cached
/// input is what it consumed, the cached output is what it produced, the
/// output cells satisfy the layer kind's exact transform of the cached
/// input, and no learnable state changes.
#[verifier::opaque]
pub open spec fn sp_fwd_exact(pre: Layer, post: Layer, training: bool) -> bool {
    match pre {
        Layer::Conv(a) => match post {
            Layer::Conv(b) => {
                &&& b.kernels == a.kernels
                &&& b.biases == a.biases
                &&& b.kernel_changes == a.kernel_changes
                &&& b.bias_changes == a.bias_changes
                &&& b.kmoments == a.kmoments
                &&& b.bmoments == a.bmoments
                &&& b.optimizer == a.optimizer
                &&& b.input.shape == a.input_size
                &&& b.output.shape == a.output_size
                &&& b.output.data@.len() == sp_tlen(a.output_size)
                &&& forall|oi: int, oj: int, f: int|
                    0 <= oi < a.output_size.0 && 0 <= oj < a.output_size.1 && 0 <= f
                        < a.output_size.2 ==> #[trigger] b.output.at(oi, oj, f) == sp_conv_cell(
                        a.kernels@,
                        a.biases@[f] as int,
                        a.kernel_size,
                        a.stride,
                        b.input,
                        f,
                        oi,
                        oj,
                    )
            },
            _ => false,
        },
        Layer::Mxpl(a) => match post {
            Layer::Mxpl(b) => {
                &&& b.input.shape == a.input_size
                &&& b.output.shape == a.output_size
                &&& b.output.data@.len() == sp_tlen(a.output_size)
                &&& b.mask@.len() == sp_tlen(a.output_size)
                &&& forall|oi: int, oj: int, c: int|
                    0 <= oi < a.output_size.0 && 0 <= oj < a.output_size.1 && 0 <= c
                        < a.output_size.2 ==> {
                        let m = #[trigger] b.mask@[sp_idx3(a.output_size, oi, oj, c)] as int;
                        &&& m < a.kernel_size * a.kernel_size
                        &&& b.output.at(oi, oj, c) == b.input.at(
                            sp_win_i(a.stride, a.kernel_size, oi, m),
                            sp_win_j(a.stride, a.kernel_size, oj, m),
                            c,
                        )
                    }
                &&& forall|oi: int, oj: int, c: int, t: int|
                    0 <= oi < a.output_size.0 && 0 <= oj < a.output_size.1 && 0 <= c
                        < a.output_size.2 && 0 <= t < a.kernel_size * a.kernel_size
                        ==> #[trigger] b.input.at(
                        sp_win_i(a.stride, a.kernel_size, oi, t),
                        sp_win_j(a.stride, a.kernel_size, oj, t),
                        c,
                    ) <= b.output.at(oi, oj, c)
                &&& forall|oi: int, oj: int, c: int, t: int|
                    0 <= oi < a.output_size.0 && 0 <= oj < a.output_size.1 && 0 <= c
                        < a.output_size.2 && 0 <= t < b.mask@[sp_idx3(a.output_size, oi, oj, c)]
                        ==> #[trigger] b.input.at(
                        sp_win_i(a.stride, a.kernel_size, oi, t),
                        sp_win_j(a.stride, a.kernel_size, oj, t),
                        c,
                    ) < b.output.at(oi, oj, c)
            },
            _ => false,
        },
        Layer::Dense(a) => match post {
            Layer::Dense(b) => {
                &&& b.weights == a.weights
                &&& b.biases == a.biases
                &&& b.weight_changes == a.weight_changes
                &&& b.bias_changes == a.bias_changes
                &&& b.wmoments == a.wmoments
                &&& b.bmoments == a.bmoments
                &&& b.optimizer == a.optimizer
                &&& b.input@.len() == a.input_size
                &&& b.output@.len() == a.output_size
                &&& (!training || a.dropout is None) ==> b.mask == a.mask
                &&& (!training || a.dropout is None) ==> forall|i: int|
                    0 <= i < b.output@.len() ==> #[trigger] b.output@[i] as int == sp_act_at(
                        a.activation,
                        sp_z_vec(a.weights@, a.biases@, b.input@, a.input_size, a.output_size as int),
                        i,
                    )
                &&& (training && a.dropout is Some) ==> forall|i: int|
                    0 <= i < b.output@.len() ==> #[trigger] b.output@[i] as int == (if b.mask@[i] {
                        sp_mul(
                            sp_act_at(
                                a.activation,
                                sp_z_vec(
                                    a.weights@,
                                    a.biases@,
                                    b.input@,
                                    a.input_size,
                                    a.output_size as int,
                                ),
                                i,
                            ),
                            sp_div(FX_ONE as int, FX_ONE - a.dropout->0),
                        )
                    } else {
                        0
                    })
            },
            _ => false,
        },
    }
}

/// What one backward pass does to a dense layer, given the incoming flat
/// error: the chained error is accumulated into the weight and bias
/// accumulators while training, nothing else changes, and the produced
/// error is the transposed weight matrix applied to the chained error.
#[verifier::opaque]
pub open spec fn sp_bwd_dense(
    a: DenseLayer,
    b: DenseLayer,
    e_in: Seq<i64>,
    e_out: Tensor3,
    training: bool,
) -> bool {
    &&& b.weights == a.weights
    &&& b.biases == a.biases
    &&& b.input == a.input
    &&& b.output == a.output
    &&& b.mask == a.mask
    &&& b.wmoments == a.wmoments
    &&& b.bmoments == a.bmoments
    &&& b.optimizer == a.optimizer
    &&& b.weight_changes@.len() == a.weight_changes@.len()
    &&& b.bias_changes@.len() == a.bias_changes@.len()
    &&& !training ==> b.weight_changes == a.weight_changes && b.bias_changes == a.bias_changes
    &&& training ==> forall|i: int, j: int|
        0 <= i < a.output_size && 0 <= j < a.input_size ==> #[trigger] b.weight_changes@[sp_idx2(
            a.input_size,
            i,
            j,
        )] as int == sp_add(
            a.weight_changes@[sp_idx2(a.input_size, i, j)] as int,
            sp_mul(sp_e1(e_in, a.output@, a.activation, i), a.input@[j] as int),
        )
    &&& training ==> forall|i: int|
        0 <= i < a.output_size ==> #[trigger] b.bias_changes@[i] as int == sp_add(
            a.bias_changes@[i] as int,
            sp_e1(e_in, a.output@, a.activation, i),
        )
    &&& e_out.shape == a.transition_shape
    &&& e_out.data@.len() == a.input_size
    &&& forall|j: int|
        0 <= j < a.input_size ==> #[trigger] e_out.data@[j] as int == sp_dense_berr(
            a.weights@,
            e_in,
            a.output@,
            a.activation,
            a.input_size,
            j,
            a.output_size as int,
        )
}

/// What one backward pass does to a layer: gradients of this sample are
/// accumulated (conv), nothing happens (pooling), or the dense relation
/// holds; the produced error is the layer kind's exact backward transform
/// of the incoming one.
#[verifier::opaque]
pub open spec fn sp_bwd_exact(
    pre: Layer,
    post: Layer,
    e_in: Tensor3,
    e_out: Tensor3,
    training: bool,
) -> bool {
    match pre {
        Layer::Conv(a) => match post {
            Layer::Conv(b) => {
                &&& b.kernels == a.kernels
                &&& b.biases == a.biases
                &&& b.input == a.input
                &&& b.output == a.output
                &&& b.kmoments == a.kmoments
                &&& b.bmoments == a.bmoments
                &&& b.optimizer == a.optimizer
                &&& b.kernel_changes@.len() == a.kernel_changes@.len()
                &&& b.bias_changes@.len() == a.bias_changes@.len()
                &&& forall|f: int, ki: int, kj: int, c: int|
                    0 <= f < a.num_filters && 0 <= ki < a.kernel_size && 0 <= kj < a.kernel_size
                        && 0 <= c < a.input_size.2 ==> #[trigger] b.kernel_changes@[sp_idx4(
                        a.kernel_size,
                        a.input_size.2,
                        f,
                        ki,
                        kj,
                        c,
                    )] as int == sp_add(
                        a.kernel_changes@[sp_idx4(a.kernel_size, a.input_size.2, f, ki, kj, c)]
                            as int,
                        sp_kgrad(a.input, e_in, a.stride, f, ki, kj, c),
                    )
                &&& forall|f: int|
                    0 <= f < a.num_filters ==> #[trigger] b.bias_changes@[f] as int == sp_add(
                        a.bias_changes@[f] as int,
                        sp_bgrad(e_in, f),
                    )
                &&& e_out.shape == a.input_size
                &&& e_out.data@.len() == sp_tlen(a.input_size)
                &&& forall|xi: int, xj: int, c: int|
                    0 <= xi < a.input_size.0 && 0 <= xj < a.input_size.1 && 0 <= c
                        < a.input_size.2 ==> #[trigger] e_out.at(xi, xj, c) == sp_conv_berr(
                        a.kernels@,
                        a.kernel_size,
                        a.input_size.2,
                        a.stride,
                        e_in,
                        xi,
                        xj,
                        c,
                    )
            },
            _ => false,
        },
        Layer::Mxpl(a) => match post {
            Layer::Mxpl(b) => {
                &&& b == a
                &&& e_out.shape == a.input_size
                &&& e_out.data@.len() == sp_tlen(a.input_size)
                &&& forall|xi: int, xj: int, c: int|
                    0 <= xi < a.input_size.0 && 0 <= xj < a.input_size.1 && 0 <= c
                        < a.input_size.2 ==> #[trigger] e_out.at(xi, xj, c) == sp_mxpl_berr(
                        a.mask@,
                        a.kernel_size,
                        a.stride,
                        e_in,
                        xi,
                        xj,
                        c,
                    )
            },
            _ => false,
        },
        Layer::Dense(a) => match post {
            Layer::Dense(b) => sp_bwd_dense(a, b, e_in.data@, e_out, training),
            _ => false,
        },
    }
}

/// The learnable state of two layers is identical: parameters, gradient
/// accumulators and optimizer moments; a pooling layer has none.
pub open spec fn params_eq(a: Layer, b: Layer) -> bool {
    match a {
        Layer::Conv(x) => match b {
            Layer::Conv(y) => {
                &&& y.kernels == x.kernels
                &&& y.biases == x.biases
                &&& y.kernel_changes == x.kernel_changes
                &&& y.bias_changes == x.bias_changes
                &&& y.kmoments == x.kmoments
                &&& y.bmoments == x.bmoments
            },
            _ => false,
        },
        Layer::Mxpl(_) => b is Mxpl,
        Layer::Dense(x) => match b {
            Layer::Dense(y) => {
                &&& y.weights == x.weights
                &&& y.biases == x.biases
                &&& y.weight_changes == x.weight_changes
                &&& y.bias_changes == x.bias_changes
                &&& y.wmoments == x.wmoments
                &&& y.bmoments == x.bmoments
            },
            _ => false,
        },
    }
}

/// A forward pass leaves the learnable state untouched.
pub proof fn lemma_fwd_exact_params(pre: Layer, post: Layer, training: bool)
    requires
        sp_fwd_exact(pre, post, training),
    ensures
        params_eq(pre, post),
{
    reveal(sp_fwd_exact);
}

/// The dense backward relation, lifted to the layer chain: a tensor whose
/// flat view is the incoming error witnesses the uniform backward step.
pub proof fn lemma_bwd_dense_exact(
    pre: Layer,
    post: Layer,
    e_in: Tensor3,
    e_out: Tensor3,
    flat: Seq<i64>,
    training: bool,
)
    requires
        pre is Dense,
        post is Dense,
        e_in.data@ == flat,
        sp_bwd_dense(pre->Dense_0, post->Dense_0, flat, e_out, training),
    ensures
        sp_bwd_exact(pre, post, e_in, e_out, training),
{
    reveal(sp_bwd_exact);
}

/// What a reset does to a layer: the gradient accumulators and the cached
/// output become all zero, every learned parameter and moment estimate is
/// untouched, and a pooling layer keeps nothing but cleared caches.
pub open spec fn sp_zeroed(pre: Layer, post: Layer) -> bool {
    match pre {
        Layer::Conv(a) => match post {
            Layer::Conv(b) => {
                &&& b.kernels == a.kernels
                &&& b.biases == a.biases
                &&& b.input == a.input
                &&& b.kmoments == a.kmoments
                &&& b.bmoments == a.bmoments
                &&& forall|i: int|
                    0 <= i < b.kernel_changes@.len() ==> #[trigger] b.kernel_changes@[i] == 0
                &&& forall|i: int|
                    0 <= i < b.bias_changes@.len() ==> #[trigger] b.bias_changes@[i] == 0
                &&& forall|i: int| 0 <= i < b.output.data@.len() ==> #[trigger] b.output.data@[i] == 0
            },
            _ => false,
        },
        Layer::Mxpl(a) => match post {
            Layer::Mxpl(b) => {
                &&& forall|i: int| 0 <= i < b.output.data@.len() ==> #[trigger] b.output.data@[i] == 0
                &&& forall|i: int| 0 <= i < b.mask@.len() ==> #[trigger] b.mask@[i] == 0
            },
            _ => false,
        },
        Layer::Dense(a) => match post {
            Layer::Dense(b) => {
                &&& b.weights == a.weights
                &&& b.biases == a.biases
                &&& b.input == a.input
                &&& b.mask == a.mask
                &&& b.wmoments == a.wmoments
                &&& b.bmoments == a.bmoments
                &&& forall|i: int|
                    0 <= i < b.weight_changes@.len() ==> #[trigger] b.weight_changes@[i] == 0
                &&& forall|i: int|
                    0 <= i < b.bias_changes@.len() ==> #[trigger] b.bias_changes@[i] == 0
                &&& forall|i: int| 0 <= i < b.output@.len() ==> #[trigger] b.output@[i] == 0
            },
            _ => false,
        },
    }
}

/// What one mini-batch update does to a layer: every learnable parameter
/// moves by the optimizer's delta for its averaged accumulated gradient,
/// the accumulators are cleared, and a pooling layer is untouched.
pub open spec fn sp_updated(pre: Layer, post: Layer, batch: int) -> bool {
    match pre {
        Layer::Conv(a) => match post {
            Layer::Conv(b) => {
                &&& b.kernels@.len() == a.kernels@.len()
                &&& b.biases@.len() == a.biases@.len()
                &&& forall|i: int|
                    0 <= i < a.kernels@.len() ==> #[trigger] b.kernels@[i] as int == sp_add(
                        a.kernels@[i] as int,
                        sp_delta(
                            a.optimizer,
                            a.kmoments.m@[i] as int,
                            a.kmoments.v@[i] as int,
                            b.kmoments.t as nat,
                            sp_divn(a.kernel_changes@[i] as int, batch),
                        ),
                    )
                &&& forall|i: int|
                    0 <= i < a.biases@.len() ==> #[trigger] b.biases@[i] as int == sp_add(
                        a.biases@[i] as int,
                        sp_delta(
                            a.optimizer,
                            a.bmoments.m@[i] as int,
                            a.bmoments.v@[i] as int,
                            b.bmoments.t as nat,
                            sp_divn(a.bias_changes@[i] as int, batch),
                        ),
                    )
                &&& b.kmoments.t == if a.optimizer is Adam {
                    sp_tick(a.kmoments.t)
                } else {
                    a.kmoments.t
                }
                &&& forall|i: int|
                    0 <= i < b.kernel_changes@.len() ==> #[trigger] b.kernel_changes@[i] == 0
                &&& forall|i: int|
                    0 <= i < b.bias_changes@.len() ==> #[trigger] b.bias_changes@[i] == 0
            },
            _ => false,
        },
        Layer::Mxpl(_) => post == pre,
        Layer::Dense(a) => match post {
            Layer::Dense(b) => {
                &&& b.weights@.len() == a.weights@.len()
                &&& b.biases@.len() == a.biases@.len()
                &&& forall|i: int|
                    0 <= i < a.weights@.len() ==> #[trigger] b.weights@[i] as int == sp_add(
                        a.weights@[i] as int,
                        sp_delta(
                            a.optimizer,
                            a.wmoments.m@[i] as int,
                            a.wmoments.v@[i] as int,
                            b.wmoments.t as nat,
                            sp_divn(a.weight_changes@[i] as int, batch),
                        ),
                    )
                &&& forall|i: int|
                    0 <= i < a.biases@.len() ==> #[trigger] b.biases@[i] as int == sp_add(
                        a.biases@[i] as int,
                        sp_delta(
                            a.optimizer,
                            a.bmoments.m@[i] as int,
                            a.bmoments.v@[i] as int,
                            b.bmoments.t as nat,
                            sp_divn(a.bias_changes@[i] as int, batch),
                        ),
                    )
                &&& b.wmoments.t == if a.optimizer is Adam {
                    sp_tick(a.wmoments.t)
                } else {
                    a.wmoments.t
                }
                &&& forall|i: int|
                    0 <= i < b.weight_changes@.len() ==> #[trigger] b.weight_changes@[i] == 0
                &&& forall|i: int|
                    0 <= i < b.bias_changes@.len() ==> #[trigger] b.bias_changes@[i] == 0
            },
            _ => false,
        },
    }
}

} // verus!
