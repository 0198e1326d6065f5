//! The fully-connected layer: an affine transform over a flattened vector,
//! the configured activation, and optional inverted dropout while training.

use vstd::prelude::*;
use vstd::pervasive::VecAdditionalExecFns;
use crate::activation::{
    backward, forward, lemma_softmax_sum, lemma_vsum_eq, sp_relu, sp_relu_deriv, sp_sigmoid,
    sp_sigmoid_deriv, sp_softmax, sp_vsum, Activation,
};
use crate::fx::{
    fx_add, fx_div, fx_divn, fx_mul, fx_ok, sp_add, sp_div, sp_divn, sp_mul, FX_ONE, MAXN,
};
use crate::host::{rand_below, rand_weight};
use crate::optimizer::{compute_deltas, sp_alg_ok, sp_delta, sp_new_m, sp_new_v, sp_tick, Moments, OptimizerAlg};
use crate::tensor::{
    copy_vec, decode2, lemma_idx2_bound, lemma_idx2_inj, sp_idx2, sp_shape_ok, sp_tlen, zero_vec,
};

verus! {

/// Partial fold of one pre-activation entry over the first `nj` inputs.
pub open spec fn sp_z_j(w: Seq<i64>, x: Seq<i64>, cols: usize, i: int, nj: int) -> int
    decreases nj,
{
    if nj <= 0 {
        0
    } else {
        sp_add(
            sp_z_j(w, x, cols, i, nj - 1),
            sp_mul(w[sp_idx2(cols, i, nj - 1)] as int, x[nj - 1] as int),
        )
    }
}

/// One pre-activation entry: the row's weights folded over the input, plus
/// the bias.
pub open spec fn sp_dense_z(w: Seq<i64>, b: Seq<i64>, x: Seq<i64>, cols: usize, i: int) -> int {
    sp_add(b[i] as int, sp_z_j(w, x, cols, i, cols as int))
}

/// The whole pre-activation vector.
pub open spec fn sp_z_vec(w: Seq<i64>, b: Seq<i64>, x: Seq<i64>, cols: usize, n: int) -> Seq<i64> {
    Seq::new(n as nat, |i: int| sp_dense_z(w, b, x, cols, i) as i64)
}

/// The activation applied to entry `i` of a pre-activation vector.
pub open spec fn sp_act_at(a: Activation, zv: Seq<i64>, i: int) -> int {
    match a {
        Activation::Relu => sp_relu(zv[i] as int),
        Activation::Sigmoid => sp_sigmoid(zv[i] as int),
        Activation::Softmax => sp_softmax(zv)[i],
    }
}

/// The activation's derivative evaluated on the activated value `out[i]`;
/// all ones for softmax, whose loss gradient is combined upstream.
pub open spec fn sp_deriv_at(a: Activation, out: Seq<i64>, i: int) -> int {
    match a {
        Activation::Relu => sp_relu_deriv(out[i] as int),
        Activation::Sigmoid => sp_sigmoid_deriv(out[i] as int),
        Activation::Softmax => FX_ONE as int,
    }
}

/// The error entry after chaining through the activation derivative.
pub open spec fn sp_e1(err: Seq<i64>, out: Seq<i64>, a: Activation, i: int) -> int {
    sp_mul(err[i] as int, sp_deriv_at(a, out, i))
}

/// Partial fold of one propagated-error entry over the first `ni` output
/// rows: the transposed weight matrix applied to the chained error.
pub open spec fn sp_dense_berr(
    w: Seq<i64>,
    err: Seq<i64>,
    out: Seq<i64>,
    a: Activation,
    cols: usize,
    j: int,
    ni: int,
) -> int
    decreases ni,
{
    if ni <= 0 {
        0
    } else {
        sp_add(
            sp_dense_berr(w, err, out, a, cols, j, ni - 1),
            sp_mul(w[sp_idx2(cols, ni - 1, j)] as int, sp_e1(err, out, a, ni - 1)),
        )
    }
}

/// A fully-connected layer with learnable weights and biases, gradient
/// accumulators, cached input and output, a dropout mask re-sampled every
/// training-mode forward pass, and private optimizer moment state.
pub struct DenseLayer {
    pub input_size: usize,
    pub output_size: usize,
    pub weights: Vec<i64>,
    pub biases: Vec<i64>,
    pub weight_changes: Vec<i64>,
    pub bias_changes: Vec<i64>,
    pub activation: Activation,
    pub dropout: Option<i64>,
    pub transition_shape: (usize, usize, usize),
    pub input: Vec<i64>,
    pub output: Vec<i64>,
    pub mask: Vec<bool>,
    pub wmoments: Moments,
    pub bmoments: Moments,
    pub optimizer: OptimizerAlg,
}

impl DenseLayer {
    pub open spec fn wf(&self) -> bool {
        &&& 1 <= self.input_size <= MAXN
        &&& 1 <= self.output_size <= MAXN
        &&& self.output_size * self.input_size <= MAXN
        &&& self.weights@.len() == self.output_size * self.input_size
        &&& self.biases@.len() == self.output_size
        &&& self.weight_changes@.len() == self.output_size * self.input_size
        &&& self.bias_changes@.len() == self.output_size
        &&& self.input@.len() == self.input_size
        &&& self.output@.len() == self.output_size
        &&& self.mask@.len() == self.output_size
        &&& forall|i: int| 0 <= i < self.weights@.len() ==> fx_ok(#[trigger] self.weights@[i] as int)
        &&& forall|i: int| 0 <= i < self.biases@.len() ==> fx_ok(#[trigger] self.biases@[i] as int)
        &&& forall|i: int|
            0 <= i < self.weight_changes@.len() ==> fx_ok(#[trigger] self.weight_changes@[i] as int)
        &&& forall|i: int|
            0 <= i < self.bias_changes@.len() ==> fx_ok(#[trigger] self.bias_changes@[i] as int)
        &&& forall|i: int| 0 <= i < self.input@.len() ==> fx_ok(#[trigger] self.input@[i] as int)
        &&& forall|i: int| 0 <= i < self.output@.len() ==> fx_ok(#[trigger] self.output@[i] as int)
        &&& sp_shape_ok(self.transition_shape)
        &&& sp_tlen(self.transition_shape) == self.input_size
        &&& match self.dropout {
            Some(p) => 0 <= p < FX_ONE,
            None => true,
        }
        &&& self.wmoments.wf(self.output_size * self.input_size)
        &&& self.bmoments.wf(self.output_size as int)
        &&& sp_alg_ok(self.optimizer)
    }

    /// Build a layer with randomly initialised weights, zero biases, zero
    /// accumulators and fresh moment state. `transition_shape` records the
    /// 3-D shape the flattened input came from.
    pub fn new(
        input_size: usize,
        output_size: usize,
        activation: Activation,
        optimizer: OptimizerAlg,
        dropout: Option<i64>,
        transition_shape: (usize, usize, usize),
    ) -> (r: DenseLayer)
        requires
            1 <= input_size <= MAXN,
            1 <= output_size <= MAXN,
            output_size * input_size <= MAXN,
            sp_shape_ok(transition_shape),
            sp_tlen(transition_shape) == input_size,
            match dropout {
                Some(p) => 0 <= p < FX_ONE,
                None => true,
            },
            sp_alg_ok(optimizer),
        ensures
            r.wf(),
            r.input_size == input_size,
            r.output_size == output_size,
            r.activation == activation,
            r.optimizer == optimizer,
            r.dropout == dropout,
            r.transition_shape == transition_shape,
            forall|i: int| 0 <= i < r.weight_changes@.len() ==> #[trigger] r.weight_changes@[i] == 0,
            forall|i: int| 0 <= i < r.bias_changes@.len() ==> #[trigger] r.bias_changes@[i] == 0,
            forall|i: int| 0 <= i < r.biases@.len() ==> #[trigger] r.biases@[i] == 0,
            forall|i: int| 0 <= i < r.output@.len() ==> #[trigger] r.output@[i] == 0,
    {
        let nw = output_size * input_size;
        let mut weights: Vec<i64> = Vec::new();
        let mut i: usize = 0;
        while i < nw
            invariant
                i <= nw,
                weights@.len() == i,
                forall|k: int| 0 <= k < i ==> fx_ok(#[trigger] weights@[k] as int),
            decreases nw - i,
        {
            weights.push(rand_weight());
            i += 1;
        }
        let mut mask: Vec<bool> = Vec::new();
        let mut i: usize = 0;
        while i < output_size
            invariant
                i <= output_size,
                mask@.len() == i,
            decreases output_size - i,
        {
            mask.push(true);
            i += 1;
        }
        DenseLayer {
            input_size,
            output_size,
            weights,
            biases: zero_vec(output_size),
            weight_changes: zero_vec(nw),
            bias_changes: zero_vec(output_size),
            activation,
            dropout,
            transition_shape,
            input: zero_vec(input_size),
            output: zero_vec(output_size),
            mask,
            wmoments: Moments::zeros(nw),
            bmoments: Moments::zeros(output_size),
            optimizer,
        }
    }

    /// One pre-activation entry.
    #[verifier::loop_isolation(false)]
    fn z_at(&self, x: &Vec<i64>, i: usize) -> (r: i64)
        requires
            self.wf(),
            x@.len() == self.input_size,
            forall|k: int| 0 <= k < x@.len() ==> fx_ok(#[trigger] x@[k] as int),
            i < self.output_size,
        ensures
            r as int == sp_dense_z(self.weights@, self.biases@, x@, self.input_size, i as int),
            fx_ok(r as int),
    {
        let cols = self.input_size;
        let mut acc: i64 = 0;
        let mut j: usize = 0;
        while j < cols
            invariant
                j <= cols,
                fx_ok(acc as int),
                acc as int == sp_z_j(self.weights@, x@, cols, i as int, j as int),
            decreases cols - j,
        {
            proof {
                lemma_idx2_bound(self.output_size, cols, i as int, j as int);
            }
            let t = fx_mul(self.weights[i * cols + j], x[j]);
            acc = fx_add(acc, t);
            j += 1;
        }
        fx_add(self.biases[i], acc)
    }

    /// Compute `W x + b`, apply the activation, then — while training with
    /// dropout configured — zero each unit with probability `p` and rescale
    /// the survivors by `1 / (1 - p)`. The input and the produced output
    /// are cached; at inference the dropout stage is the identity and the
    /// mask is untouched.
    #[verifier::loop_isolation(false)]
    pub fn forward_propagate(&mut self, input: Vec<i64>, training: bool) -> (r: Vec<i64>)
        requires
            old(self).wf(),
            input@.len() == old(self).input_size,
            forall|k: int| 0 <= k < input@.len() ==> fx_ok(#[trigger] input@[k] as int),
        ensures
            final(self).wf(),
            r@.len() == old(self).output_size,
            forall|i: int| 0 <= i < r@.len() ==> fx_ok(#[trigger] r@[i] as int),
            final(self).input@ == input@,
            final(self).output@ == r@,
            final(self).weights == old(self).weights,
            final(self).biases == old(self).biases,
            final(self).weight_changes == old(self).weight_changes,
            final(self).bias_changes == old(self).bias_changes,
            final(self).wmoments == old(self).wmoments,
            final(self).bmoments == old(self).bmoments,
            final(self).optimizer == old(self).optimizer,
            final(self).activation == old(self).activation,
            final(self).dropout == old(self).dropout,
            final(self).transition_shape == old(self).transition_shape,
            final(self).input_size == old(self).input_size,
            final(self).output_size == old(self).output_size,
            (!training || old(self).dropout is None) ==> final(self).mask == old(self).mask,
            (!training || old(self).dropout is None) ==> forall|i: int|
                0 <= i < r@.len() ==> #[trigger] r@[i] as int == sp_act_at(
                    old(self).activation,
                    sp_z_vec(
                        old(self).weights@,
                        old(self).biases@,
                        input@,
                        old(self).input_size,
                        old(self).output_size as int,
                    ),
                    i,
                ),
            (training && old(self).dropout is Some) ==> forall|i: int|
                0 <= i < r@.len() ==> #[trigger] r@[i] as int == (if final(self).mask@[i] {
                    sp_mul(
                        sp_act_at(
                            old(self).activation,
                            sp_z_vec(
                                old(self).weights@,
                                old(self).biases@,
                                input@,
                                old(self).input_size,
                                old(self).output_size as int,
                            ),
                            i,
                        ),
                        sp_div(FX_ONE as int, FX_ONE - old(self).dropout->0),
                    )
                } else {
                    0
                }),
            ((!training || old(self).dropout is None) && old(self).activation is Softmax)
                ==> FX_ONE - r@.len() < sp_vsum(r@, r@.len() as int) <= FX_ONE,
            ((!training || old(self).dropout is None) && old(self).activation is Softmax)
                ==> forall|i: int| 0 <= i < r@.len() ==> 0 <= #[trigger] r@[i] <= FX_ONE,
    {
        let n = self.output_size;
        let ghost zspec = sp_z_vec(
            self.weights@,
            self.biases@,
            input@,
            self.input_size,
            self.output_size as int,
        );
        let mut z: Vec<i64> = Vec::new();
        let mut i: usize = 0;
        while i < n
            invariant
                i <= n,
                z@.len() == i,
                forall|k: int| 0 <= k < i ==> #[trigger] z@[k] == zspec[k],
                forall|k: int| 0 <= k < i ==> fx_ok(#[trigger] z@[k] as int),
            decreases n - i,
        {
            z.push(self.z_at(&input, i));
            i += 1;
        }
        proof {
            assert(z@ =~= zspec);
        }
        let a = forward(z, self.activation);
        let out: Vec<i64>;
        if training && self.dropout.is_some() {
            let p = match self.dropout {
                Some(p) => p,
                None => 0,
            };
            let inv = fx_div(FX_ONE, FX_ONE - p);
            let mut o: Vec<i64> = Vec::new();
            let mut mk: Vec<bool> = Vec::new();
            let mut i: usize = 0;
            while i < n
                invariant
                    i <= n,
                    a@.len() == n,
                    fx_ok(inv as int),
                    inv as int == sp_div(FX_ONE as int, FX_ONE - p),
                    self.dropout == Some(p),
                    forall|k: int| 0 <= k < n ==> fx_ok(#[trigger] a@[k] as int),
                    forall|k: int| 0 <= k < n ==> #[trigger] a@[k] as int == sp_act_at(
                        self.activation,
                        zspec,
                        k,
                    ),
                    o@.len() == i,
                    mk@.len() == i,
                    forall|k: int| 0 <= k < i ==> fx_ok(#[trigger] o@[k] as int),
                    forall|k: int|
                        0 <= k < i ==> #[trigger] o@[k] as int == (if mk@[k] {
                            sp_mul(
                                sp_act_at(self.activation, zspec, k),
                                sp_div(FX_ONE as int, FX_ONE - p),
                            )
                        } else {
                            0
                        }),
                decreases n - i,
            {
                let u = rand_below(0x100_0000) as i64;
                if u < p {
                    o.push(0);
                    mk.push(false);
                } else {
                    o.push(fx_mul(a[i], inv));
                    mk.push(true);
                }
                i += 1;
            }
            self.mask = mk;
            out = o;
        } else {
            proof {
                if self.activation is Softmax {
                    lemma_softmax_sum(zspec);
                    lemma_vsum_eq(a@, sp_softmax(zspec), n as int);
                }
            }
            out = a;
        }
        let cache = copy_vec(&out);
        self.output = cache;
        self.input = input;
        out
    }

    /// Chain the incoming error through the activation derivative; while
    /// training, accumulate the outer product of the chained error and the
    /// cached input into the weight accumulator and the chained error into
    /// the bias accumulator; hand `transpose(W) * error` backwards.
    #[verifier::loop_isolation(false)]
    pub fn back_propagate(&mut self, error: Vec<i64>, training: bool) -> (r: Vec<i64>)
        requires
            old(self).wf(),
            error@.len() == old(self).output_size,
            forall|k: int| 0 <= k < error@.len() ==> fx_ok(#[trigger] error@[k] as int),
        ensures
            final(self).wf(),
            r@.len() == old(self).input_size,
            forall|j: int| 0 <= j < r@.len() ==> fx_ok(#[trigger] r@[j] as int),
            forall|j: int|
                0 <= j < r@.len() ==> #[trigger] r@[j] as int == sp_dense_berr(
                    old(self).weights@,
                    error@,
                    old(self).output@,
                    old(self).activation,
                    old(self).input_size,
                    j,
                    old(self).output_size as int,
                ),
            final(self).weights == old(self).weights,
            final(self).biases == old(self).biases,
            final(self).input == old(self).input,
            final(self).output == old(self).output,
            final(self).mask == old(self).mask,
            final(self).wmoments == old(self).wmoments,
            final(self).bmoments == old(self).bmoments,
            final(self).optimizer == old(self).optimizer,
            final(self).activation == old(self).activation,
            final(self).dropout == old(self).dropout,
            final(self).transition_shape == old(self).transition_shape,
            final(self).input_size == old(self).input_size,
            final(self).output_size == old(self).output_size,
            !training ==> final(self).weight_changes == old(self).weight_changes,
            !training ==> final(self).bias_changes == old(self).bias_changes,
            training ==> final(self).weight_changes@.len() == old(self).weight_changes@.len()
                && forall|i: int, j: int|
                0 <= i < old(self).output_size && 0 <= j < old(self).input_size
                    ==> #[trigger] final(self).weight_changes@[sp_idx2(old(self).input_size, i, j)]
                    as int == sp_add(
                    old(self).weight_changes@[sp_idx2(old(self).input_size, i, j)] as int,
                    sp_mul(
                        sp_e1(error@, old(self).output@, old(self).activation, i),
                        old(self).input@[j] as int,
                    ),
                ),
            training ==> forall|i: int|
                0 <= i < old(self).output_size ==> #[trigger] final(self).bias_changes@[i] as int
                    == sp_add(
                    old(self).bias_changes@[i] as int,
                    sp_e1(error@, old(self).output@, old(self).activation, i),
                ),
    {
        let n = self.output_size;
        let cols = self.input_size;
        let outc = copy_vec(&self.output);
        let d = backward(outc, self.activation);
        let mut e1: Vec<i64> = Vec::new();
        let mut i: usize = 0;
        while i < n
            invariant
                i <= n,
                d@.len() == n,
                forall|k: int| 0 <= k < n ==> fx_ok(#[trigger] d@[k] as int),
                forall|k: int| 0 <= k < n ==> #[trigger] d@[k] as int == sp_deriv_at(
                    self.activation,
                    self.output@,
                    k,
                ),
                e1@.len() == i,
                forall|k: int| 0 <= k < i ==> fx_ok(#[trigger] e1@[k] as int),
                forall|k: int| 0 <= k < i ==> #[trigger] e1@[k] as int == sp_e1(
                    error@,
                    self.output@,
                    self.activation,
                    k,
                ),
            decreases n - i,
        {
            e1.push(fx_mul(error[i], d[i]));
            i += 1;
        }
        if training {
            let nw = self.weight_changes.len();
            let mut wc: Vec<i64> = Vec::new();
            let mut p: usize = 0;
            while p < nw
                invariant
                    p <= nw,
                    wc@.len() == p,
                    e1@.len() == n,
                    forall|k: int| 0 <= k < n ==> fx_ok(#[trigger] e1@[k] as int),
                    forall|k: int| 0 <= k < n ==> #[trigger] e1@[k] as int == sp_e1(
                        error@,
                        self.output@,
                        self.activation,
                        k,
                    ),
                    forall|k: int| 0 <= k < p ==> fx_ok(#[trigger] wc@[k] as int),
                    forall|i2: int, j2: int|
                        0 <= i2 < n && 0 <= j2 < cols && sp_idx2(cols, i2, j2) < p
                            ==> #[trigger] wc@[sp_idx2(cols, i2, j2)] as int == sp_add(
                            self.weight_changes@[sp_idx2(cols, i2, j2)] as int,
                            sp_mul(
                                sp_e1(error@, self.output@, self.activation, i2),
                                self.input@[j2] as int,
                            ),
                        ),
                decreases nw - p,
            {
                let (i2, j2) = decode2(p, n, cols);
                let t = fx_mul(e1[i2], self.input[j2]);
                wc.push(fx_add(self.weight_changes[p], t));
                proof {
                    assert forall|a2: int, b2: int|
                        0 <= a2 < n && 0 <= b2 < cols && sp_idx2(cols, a2, b2) == p implies a2
                        == i2 as int && b2 == j2 as int by {
                        lemma_idx2_inj(cols, a2, b2, i2 as int, j2 as int);
                    }
                }
                p += 1;
            }
            proof {
                assert forall|i2: int, j2: int| 0 <= i2 < n && 0 <= j2 < cols implies sp_idx2(
                    cols,
                    i2,
                    j2,
                ) < nw by {
                    lemma_idx2_bound(n, cols, i2, j2);
                }
            }
            let mut bc: Vec<i64> = Vec::new();
            let mut i: usize = 0;
            while i < n
                invariant
                    i <= n,
                    bc@.len() == i,
                    e1@.len() == n,
                    forall|k: int| 0 <= k < n ==> fx_ok(#[trigger] e1@[k] as int),
                    forall|k: int| 0 <= k < n ==> #[trigger] e1@[k] as int == sp_e1(
                        error@,
                        self.output@,
                        self.activation,
                        k,
                    ),
                    forall|k: int| 0 <= k < i ==> fx_ok(#[trigger] bc@[k] as int),
                    forall|k: int|
                        0 <= k < i ==> #[trigger] bc@[k] as int == sp_add(
                            self.bias_changes@[k] as int,
                            sp_e1(error@, self.output@, self.activation, k),
                        ),
                decreases n - i,
            {
                bc.push(fx_add(self.bias_changes[i], e1[i]));
                i += 1;
            }
            self.weight_changes = wc;
            self.bias_changes = bc;
        }
        let ghost snap = *self;
        let mut r: Vec<i64> = Vec::new();
        let mut j: usize = 0;
        while j < cols
            invariant
                j <= cols,
                *self == snap,
                e1@.len() == n,
                forall|k: int| 0 <= k < n ==> fx_ok(#[trigger] e1@[k] as int),
                forall|k: int| 0 <= k < n ==> #[trigger] e1@[k] as int == sp_e1(
                    error@,
                    self.output@,
                    self.activation,
                    k,
                ),
                r@.len() == j,
                forall|k: int| 0 <= k < j ==> fx_ok(#[trigger] r@[k] as int),
                forall|k: int|
                    0 <= k < j ==> #[trigger] r@[k] as int == sp_dense_berr(
                        self.weights@,
                        error@,
                        self.output@,
                        self.activation,
                        cols,
                        k,
                        n as int,
                    ),
            decreases cols - j,
        {
            let mut acc: i64 = 0;
            let mut i: usize = 0;
            while i < n
                invariant
                    i <= n,
                    j < cols,
                    fx_ok(acc as int),
                    acc as int == sp_dense_berr(
                        self.weights@,
                        error@,
                        self.output@,
                        self.activation,
                        cols,
                        j as int,
                        i as int,
                    ),
                decreases n - i,
            {
                proof {
                    lemma_idx2_bound(n, cols, i as int, j as int);
                }
                let t = fx_mul(self.weights[i * cols + j], e1[i]);
                acc = fx_add(acc, t);
                i += 1;
            }
            r.push(acc);
            j += 1;
        }
        r
    }

    /// Average the accumulated gradients over the mini-batch, turn them
    /// into deltas through the optimizer, apply the deltas to the weights
    /// and biases, and clear the accumulators for the next batch.
    #[verifier::loop_isolation(false)]
    pub fn update(&mut self, minibatch_size: usize)
        requires
            old(self).wf(),
            minibatch_size >= 1,
        ensures
            final(self).wf(),
            final(self).input == old(self).input,
            final(self).output == old(self).output,
            final(self).mask == old(self).mask,
            final(self).optimizer == old(self).optimizer,
            final(self).activation == old(self).activation,
            final(self).dropout == old(self).dropout,
            final(self).transition_shape == old(self).transition_shape,
            final(self).input_size == old(self).input_size,
            final(self).output_size == old(self).output_size,
            final(self).weights@.len() == old(self).weights@.len(),
            final(self).biases@.len() == old(self).biases@.len(),
            forall|i: int|
                0 <= i < old(self).weights@.len() ==> #[trigger] final(self).weights@[i] as int
                    == sp_add(
                    old(self).weights@[i] as int,
                    sp_delta(
                        old(self).optimizer,
                        old(self).wmoments.m@[i] as int,
                        old(self).wmoments.v@[i] as int,
                        final(self).wmoments.t as nat,
                        sp_divn(old(self).weight_changes@[i] as int, minibatch_size as int),
                    ),
                ),
            forall|i: int|
                0 <= i < old(self).biases@.len() ==> #[trigger] final(self).biases@[i] as int
                    == sp_add(
                    old(self).biases@[i] as int,
                    sp_delta(
                        old(self).optimizer,
                        old(self).bmoments.m@[i] as int,
                        old(self).bmoments.v@[i] as int,
                        final(self).bmoments.t as nat,
                        sp_divn(old(self).bias_changes@[i] as int, minibatch_size as int),
                    ),
                ),
            final(self).wmoments.t == if old(self).optimizer is Adam {
                sp_tick(old(self).wmoments.t)
            } else {
                old(self).wmoments.t
            },
            forall|i: int|
                0 <= i < old(self).weights@.len() ==> #[trigger] final(self).wmoments.m@[i] as int
                    == sp_new_m(
                    old(self).optimizer,
                    old(self).wmoments.m@[i] as int,
                    sp_divn(old(self).weight_changes@[i] as int, minibatch_size as int),
                ),
            forall|i: int|
                0 <= i < old(self).weights@.len() ==> #[trigger] final(self).wmoments.v@[i] as int
                    == sp_new_v(
                    old(self).optimizer,
                    old(self).wmoments.v@[i] as int,
                    sp_divn(old(self).weight_changes@[i] as int, minibatch_size as int),
                ),
            forall|i: int|
                0 <= i < old(self).biases@.len() ==> #[trigger] final(self).bmoments.m@[i] as int
                    == sp_new_m(
                    old(self).optimizer,
                    old(self).bmoments.m@[i] as int,
                    sp_divn(old(self).bias_changes@[i] as int, minibatch_size as int),
                ),
            forall|i: int|
                0 <= i < old(self).biases@.len() ==> #[trigger] final(self).bmoments.v@[i] as int
                    == sp_new_v(
                    old(self).optimizer,
                    old(self).bmoments.v@[i] as int,
                    sp_divn(old(self).bias_changes@[i] as int, minibatch_size as int),
                ),
            final(self).bmoments.t == if old(self).optimizer is Adam {
                sp_tick(old(self).bmoments.t)
            } else {
                old(self).bmoments.t
            },
            forall|i: int|
                0 <= i < old(self).weight_changes@.len() ==> #[trigger] final(self).weight_changes@[i] == 0,
            forall|i: int|
                0 <= i < old(self).bias_changes@.len() ==> #[trigger] final(self).bias_changes@[i]
                    == 0,
    {
        let alg = self.optimizer;
        let nw = self.weight_changes.len();
        let mut g: Vec<i64> = Vec::new();
        let mut i: usize = 0;
        while i < nw
            invariant
                i <= nw,
                g@.len() == i,
                forall|k: int| 0 <= k < i ==> fx_ok(#[trigger] g@[k] as int),
                forall|k: int|
                    0 <= k < i ==> #[trigger] g@[k] as int == sp_divn(
                        self.weight_changes@[k] as int,
                        minibatch_size as int,
                    ),
            decreases nw - i,
        {
            g.push(fx_divn(self.weight_changes[i], minibatch_size as u64));
            i += 1;
        }
        let d = compute_deltas(alg, &mut self.wmoments, &g);
        let ghost wm = self.wmoments;
        let mut i: usize = 0;
        while i < nw
            invariant
                i <= nw,
                self.weights@.len() == nw,
                self.wmoments == wm,
                self.weight_changes == old(self).weight_changes,
                self.biases == old(self).biases,
                self.bias_changes == old(self).bias_changes,
                self.bmoments == old(self).bmoments,
                self.input == old(self).input,
                self.output == old(self).output,
                self.mask == old(self).mask,
                self.optimizer == old(self).optimizer,
                self.activation == old(self).activation,
                self.dropout == old(self).dropout,
                self.transition_shape == old(self).transition_shape,
                self.input_size == old(self).input_size,
                self.output_size == old(self).output_size,
                forall|k: int| 0 <= k < nw ==> fx_ok(#[trigger] self.weights@[k] as int),
                forall|k: int| i <= k < nw ==> #[trigger] self.weights@[k] == old(self).weights@[k],
                forall|k: int|
                    0 <= k < i ==> #[trigger] self.weights@[k] as int == sp_add(
                        old(self).weights@[k] as int,
                        d@[k] as int,
                    ),
            decreases nw - i,
        {
            let w = fx_add(self.weights[i], d[i]);
            self.weights.set(i, w);
            i += 1;
        }
        self.weight_changes = zero_vec(nw);
        let nb = self.bias_changes.len();
        let mut gb: Vec<i64> = Vec::new();
        let mut i: usize = 0;
        while i < nb
            invariant
                i <= nb,
                gb@.len() == i,
                forall|k: int| 0 <= k < i ==> fx_ok(#[trigger] gb@[k] as int),
                forall|k: int|
                    0 <= k < i ==> #[trigger] gb@[k] as int == sp_divn(
                        self.bias_changes@[k] as int,
                        minibatch_size as int,
                    ),
            decreases nb - i,
        {
            gb.push(fx_divn(self.bias_changes[i], minibatch_size as u64));
            i += 1;
        }
        let db = compute_deltas(alg, &mut self.bmoments, &gb);
        let ghost ws = self.weights;
        let ghost wc2 = self.weight_changes;
        let ghost wm2 = self.wmoments;
        let ghost bm = self.bmoments;
        let mut i: usize = 0;
        while i < nb
            invariant
                i <= nb,
                self.biases@.len() == nb,
                self.weights == ws,
                self.weight_changes == wc2,
                self.wmoments == wm2,
                self.bmoments == bm,
                self.bias_changes == old(self).bias_changes,
                self.input == old(self).input,
                self.output == old(self).output,
                self.mask == old(self).mask,
                self.optimizer == old(self).optimizer,
                self.activation == old(self).activation,
                self.dropout == old(self).dropout,
                self.transition_shape == old(self).transition_shape,
                self.input_size == old(self).input_size,
                self.output_size == old(self).output_size,
                forall|k: int| 0 <= k < nb ==> fx_ok(#[trigger] self.biases@[k] as int),
                forall|k: int| i <= k < nb ==> #[trigger] self.biases@[k] == old(self).biases@[k],
                forall|k: int|
                    0 <= k < i ==> #[trigger] self.biases@[k] as int == sp_add(
                        old(self).biases@[k] as int,
                        db@[k] as int,
                    ),
            decreases nb - i,
        {
            let b = fx_add(self.biases[i], db[i]);
            self.biases.set(i, b);
            i += 1;
        }
        self.bias_changes = zero_vec(nb);
    }

    /// Clear the gradient accumulators and the cached output without
    /// touching the learned parameters.
    pub fn zero(&mut self)
        requires
            old(self).wf(),
        ensures
            final(self).wf(),
            final(self).weights == old(self).weights,
            final(self).biases == old(self).biases,
            final(self).input == old(self).input,
            final(self).mask == old(self).mask,
            final(self).wmoments == old(self).wmoments,
            final(self).bmoments == old(self).bmoments,
            final(self).optimizer == old(self).optimizer,
            final(self).activation == old(self).activation,
            final(self).dropout == old(self).dropout,
            final(self).transition_shape == old(self).transition_shape,
            final(self).input_size == old(self).input_size,
            final(self).output_size == old(self).output_size,
            final(self).weight_changes@.len() == old(self).weight_changes@.len(),
            final(self).bias_changes@.len() == old(self).bias_changes@.len(),
            final(self).output@.len() == old(self).output@.len(),
            forall|i: int|
                0 <= i < final(self).weight_changes@.len() ==> #[trigger] final(self).weight_changes@[i] == 0,
            forall|i: int|
                0 <= i < final(self).bias_changes@.len() ==> #[trigger] final(self).bias_changes@[i]
                    == 0,
            forall|i: int|
                0 <= i < final(self).output@.len() ==> #[trigger] final(self).output@[i] == 0,
    {
        let nw = self.weight_changes.len();
        self.weight_changes = zero_vec(nw);
        let nb = self.bias_changes.len();
        self.bias_changes = zero_vec(nb);
        let no = self.output.len();
        self.output = zero_vec(no);
    }
}

} // verus!
