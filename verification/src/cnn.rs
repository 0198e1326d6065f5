//! The network orchestrator: an ordered sequence of layers with a fixed
//! input shape, driving forward and backward passes, mini-batch updates,
//! the epoch loop and the accuracy histories.

use vstd::prelude::*;
use vstd::string::StringExecFns;
use crate::activation::{sp_vsum, Activation};
use crate::conv_layers::{sp_odim, ConvLayer};
use crate::dense_layer::DenseLayer;
use crate::fx::{fx_ok, fx_sub, sp_sub, FX_ONE, MAXN};
use crate::host::{now_secs, rand_below};
use crate::layer::{
    lemma_bwd_dense_exact, lemma_fwd_exact_params, params_eq, sp_bwd_exact, sp_fwd_exact,
    sp_updated, sp_zeroed, Layer,
};
use crate::mxpl::MxplLayer;
use crate::optimizer::{sp_alg_ok, OptimizerAlg};
use crate::tensor::{copy_vec, sp_shape_ok, sp_tlen, tlen, Tensor3};
use crate::utils::{Dataset, SavingStrategy};

verus! {

/// The caller-chosen knobs a network is created with.
pub struct Hyperparameters {
    pub batch_size: usize,
    pub epochs: usize,
    pub optimizer: OptimizerAlg,
    pub saving_strategy: SavingStrategy,
    pub name: String,
    pub verbose: bool,
}

impl Default for Hyperparameters {
    /// Mini-batches of 32, ten epochs, the adaptive-moment rule with
    /// decay rates 0.9 and 0.999 in fixed point, no checkpointing.
    fn default() -> (r: Hyperparameters)
        ensures
            r.batch_size == 32,
            r.epochs == 10,
            r.optimizer == OptimizerAlg::Adam(15099494, 16760438, 0),
            r.saving_strategy is Never,
            r.name@ == "model"@,
            r.verbose == true,
    {
        Hyperparameters {
            batch_size: 32,
            epochs: 10,
            optimizer: OptimizerAlg::Adam(15099494, 16760438, 0),
            saving_strategy: SavingStrategy::Never,
            name: String::from_str("model"),
            verbose: true,
        }
    }
}

/// The layer shapes chain: each layer consumes exactly what the one
/// before it produces, and nothing 3-D follows a dense layer.
pub open spec fn chain_ok(layers: Seq<Layer>, input_shape: (usize, usize, usize)) -> bool {
    &&& forall|i: int| 0 <= i < layers.len() ==> (#[trigger] layers[i]).wf()
    &&& (layers.len() > 0 ==> layers[0].in_shape() == input_shape)
    &&& forall|i: int|
        1 <= i < layers.len() ==> (#[trigger] layers[i]).in_shape() == layers[i - 1].out_shape()
    &&& forall|i: int|
        0 <= i < layers.len() - 1 && (#[trigger] layers[i]).kind() == 2 ==> layers[i + 1].kind()
            == 2
}

/// The running maximum of the first `n` entries, starting from zero.
pub open spec fn sp_acc_val(s: Seq<i64>, n: int) -> int
    decreases n,
{
    if n <= 0 {
        0
    } else {
        let p = sp_acc_val(s, n - 1);
        if s[n - 1] > p { s[n - 1] as int } else { p }
    }
}

/// The index of the first entry strictly above every earlier one and
/// zero, mirroring the prediction rule: index zero when nothing is
/// positive.
pub open spec fn sp_acc_idx(s: Seq<i64>, n: int) -> int
    decreases n,
{
    if n <= 0 {
        0
    } else {
        if s[n - 1] > sp_acc_val(s, n - 1) { n - 1 } else { sp_acc_idx(s, n - 1) }
    }
}

/// The error signal the network feeds its last (dense) layer: the
/// predicted vector minus the one-hot encoding of the true label.
pub open spec fn sp_initial_error(last: Layer, label: int, e: Tensor3) -> bool {
    &&& e.shape == last.out_shape()
    &&& e.data@.len() == sp_tlen(last.out_shape())
    &&& forall|i: int|
        0 <= i < e.data@.len() ==> #[trigger] e.data@[i] as int == sp_sub(
            last->Dense_0.output@[i] as int,
            if i == label {
                FX_ONE as int
            } else {
                0
            },
        )
}

/// Layers `k` and above each took one exact backward step: layer `j`
/// turned error `errs[j + 1 - k]` into `errs[j - k]`.
#[verifier::opaque]
pub open spec fn sp_chain_from(
    pre: Seq<Layer>,
    post: Seq<Layer>,
    k: int,
    errs: Seq<Tensor3>,
    training: bool,
) -> bool {
    forall|j: int|
        k <= j < pre.len() ==> #[trigger] sp_bwd_exact(
            pre[j],
            post[j],
            errs[j + 1 - k],
            errs[j - k],
            training,
        )
}

/// One more layer's backward step extends the chain downwards.
proof fn lemma_chain_extend(
    pre: Seq<Layer>,
    post0: Seq<Layer>,
    post1: Seq<Layer>,
    k: int,
    t0: Seq<Tensor3>,
    e_new: Tensor3,
    training: bool,
)
    requires
        0 <= k < pre.len(),
        post0.len() == pre.len(),
        post1.len() == pre.len(),
        sp_chain_from(pre, post0, k + 1, t0, training),
        forall|j: int| k < j < pre.len() ==> #[trigger] post1[j] == post0[j],
        sp_bwd_exact(pre[k], post1[k], t0[0], e_new, training),
        t0.len() >= pre.len() - k,
    ensures
        sp_chain_from(pre, post1, k, seq![e_new].add(t0), training),
{
    reveal(sp_chain_from);
    let t1 = seq![e_new].add(t0);
    assert forall|j: int|
        k <= j < pre.len() implies #[trigger] sp_bwd_exact(
        pre[j],
        post1[j],
        t1[j + 1 - k],
        t1[j - k],
        training,
    ) by {
        if j == k {
            assert(t1[0] == e_new && t1[1] == t0[0]);
        } else {
            assert(t1[j + 1 - k] == t0[j - k]);
            assert(t1[j - k] == t0[j - k - 1]);
            assert(j - k == j + 1 - (k + 1) && j - k - 1 == j - (k + 1));
            assert(sp_bwd_exact(pre[j], post0[j], t0[j + 1 - (k + 1)], t0[j - (k + 1)], training));
            assert(post1[j] == post0[j]);
        }
    }
}

/// One backward pass over the whole network: some chain of error tensors
/// starts at the loss gradient and steps through every layer's exact
/// backward transform, in reverse order.
pub open spec fn sp_backprop_chain(
    pre: Seq<Layer>,
    post: Seq<Layer>,
    label: int,
    errs: Seq<Tensor3>,
    training: bool,
) -> bool {
    &&& pre.len() > 0
    &&& post.len() == pre.len()
    &&& errs.len() == pre.len() + 1
    &&& sp_initial_error(pre[pre.len() - 1], label, errs[pre.len() as int])
    &&& sp_chain_from(pre, post, 0, errs, training)
}

/// A network whose layers each stayed well formed with unchanged
/// configuration is itself still well formed.
proof fn lemma_arch_wf(cur: &CNN, orig: &CNN)
    requires
        orig.wf(),
        cur.same_arch(orig),
        forall|i: int| 0 <= i < cur.layers@.len() ==> (#[trigger] cur.layers@[i]).wf(),
    ensures
        cur.wf(),
{
    assert forall|i: int|
        1 <= i < cur.layers@.len() implies (#[trigger] cur.layers@[i]).in_shape() == cur.layers@[
        i - 1].out_shape() by {
        assert(cur.layers@[i].sig() == orig.layers@[i].sig());
        assert(cur.layers@[i - 1].sig() == orig.layers@[i - 1].sig());
    }
    assert forall|i: int|
        0 <= i < cur.layers@.len() - 1 && (#[trigger] cur.layers@[i]).kind() == 2 implies cur
        .layers@[i + 1].kind() == 2 by {
        assert(cur.layers@[i].sig() == orig.layers@[i].sig());
        assert(cur.layers@[i + 1].sig() == orig.layers@[i + 1].sig());
    }
    if cur.layers@.len() > 0 {
        assert(cur.layers@[0].sig() == orig.layers@[0].sig());
    }
}

/// The fraction `correct / n` as a fixed-point scalar.
fn ratio(correct: u64, n: usize) -> (r: i64)
    requires
        1 <= n <= 0xFFFF_FFFFusize,
        correct <= n,
    ensures
        0 <= r <= FX_ONE,
{
    proof {
        assert(correct * 0x100_0000u64 <= 0xFFFF_FFFFu64 * 0x100_0000u64) by (nonlinear_arith)
            requires correct <= 0xFFFF_FFFFu64;
        vstd::arithmetic::div_mod::lemma_div_pos_is_pos(
            correct as int * 0x100_0000,
            n as int,
        );
        assert(correct as int * 0x100_0000 <= n as int * 0x100_0000) by (nonlinear_arith)
            requires correct <= n;
        vstd::arithmetic::div_mod::lemma_div_is_ordered(
            correct as int * 0x100_0000,
            n as int * 0x100_0000,
            n as int,
        );
        assert(n as int * 0x100_0000 == 0x100_0000 * n as int) by (nonlinear_arith);
        vstd::arithmetic::div_mod::lemma_div_by_multiple(0x100_0000, n as int);
    }
    let q: u64 = (correct * 0x100_0000u64) / (n as u64);
    q as i64
}

/// A convolutional neural network: layers, input shape, histories and
/// training hyperparameters. Accuracies are fixed-point fractions.
pub struct CNN {
    pub layers: Vec<Layer>,
    pub layer_order: Vec<String>,
    pub minibatch_size: usize,
    pub creation_time: u64,
    pub saving_strategy: SavingStrategy,
    pub training_history: Vec<i64>,
    pub testing_history: Vec<i64>,
    pub time_history: Vec<u64>,
    pub name: String,
    pub verbose: bool,
    pub optimizer: OptimizerAlg,
    pub epochs: usize,
    pub input_shape: (usize, usize, usize),
}

impl CNN {
    pub open spec fn wf(&self) -> bool {
        &&& self.minibatch_size >= 1
        &&& sp_alg_ok(self.optimizer)
        &&& self.layer_order@.len() == self.layers@.len()
        &&& chain_ok(self.layers@, self.input_shape)
        &&& (self.layers@.len() > 0 ==> sp_shape_ok(self.input_shape))
    }

    /// Number of scalars the forward pass hands out.
    pub open spec fn out_len(&self) -> int {
        if self.layers@.len() == 0 {
            sp_tlen(self.input_shape)
        } else {
            self.layers@.last().out_len()
        }
    }

    /// The 3-D shape the next layer to be added would consume.
    pub open spec fn next_in_shape(&self) -> (usize, usize, usize) {
        if self.layers@.len() == 0 {
            self.input_shape
        } else {
            self.layers@.last().out_shape()
        }
    }

    /// The cached output of the final (dense) layer.
    pub open spec fn last_output(&self) -> Seq<i64> {
        match self.layers@.last() {
            Layer::Dense(d) => d.output@,
            _ => Seq::empty(),
        }
    }

    /// All layer configurations (kind, shapes, activation) are unchanged.
    pub open spec fn same_arch(&self, other: &CNN) -> bool {
        &&& self.layers@.len() == other.layers@.len()
        &&& forall|i: int|
            0 <= i < self.layers@.len() ==> (#[trigger] self.layers@[i]).sig()
                == other.layers@[i].sig()
        &&& self.input_shape == other.input_shape
        &&& self.layer_order == other.layer_order
        &&& self.minibatch_size == other.minibatch_size
        &&& self.saving_strategy == other.saving_strategy
        &&& self.name == other.name
        &&& self.verbose == other.verbose
        &&& self.optimizer == other.optimizer
        &&& self.epochs == other.epochs
        &&& self.creation_time == other.creation_time
    }

    /// A fresh network with no layers and the input shape unset.
    pub fn new(params: Hyperparameters) -> (r: CNN)
        requires
            params.batch_size >= 1,
            sp_alg_ok(params.optimizer),
        ensures
            r.wf(),
            r.layers@.len() == 0,
            r.layer_order@.len() == 0,
            r.minibatch_size == params.batch_size,
            r.saving_strategy == params.saving_strategy,
            r.training_history@.len() == 0,
            r.testing_history@.len() == 0,
            r.time_history@.len() == 0,
            r.name == params.name,
            r.verbose == params.verbose,
            r.optimizer == params.optimizer,
            r.epochs == params.epochs,
            r.input_shape == (0usize, 0usize, 0usize),
    {
        let creation_time = now_secs();
        CNN {
            layers: Vec::new(),
            layer_order: Vec::new(),
            minibatch_size: params.batch_size,
            creation_time,
            saving_strategy: params.saving_strategy,
            training_history: Vec::new(),
            testing_history: Vec::new(),
            time_history: Vec::new(),
            name: params.name,
            verbose: params.verbose,
            optimizer: params.optimizer,
            epochs: params.epochs,
            input_shape: (0, 0, 0),
        }
    }

    /// Fix the input shape; missing trailing dimensions default to one.
    /// Must happen before any layer is added.
    pub fn set_input_shape(&mut self, input_shape: Vec<usize>)
        requires
            old(self).wf(),
            old(self).layers@.len() == 0,
            input_shape@.len() >= 1,
        ensures
            final(self).wf(),
            final(self).layers@.len() == 0,
            final(self).input_shape.0 == input_shape@[0],
            final(self).input_shape.1 == if input_shape@.len() >= 2 {
                input_shape@[1]
            } else {
                1usize
            },
            final(self).input_shape.2 == if input_shape@.len() >= 3 {
                input_shape@[2]
            } else {
                1usize
            },
            final(self).layers == old(self).layers,
            final(self).layer_order == old(self).layer_order,
            final(self).minibatch_size == old(self).minibatch_size,
            final(self).saving_strategy == old(self).saving_strategy,
            final(self).training_history == old(self).training_history,
            final(self).testing_history == old(self).testing_history,
            final(self).time_history == old(self).time_history,
            final(self).name == old(self).name,
            final(self).verbose == old(self).verbose,
            final(self).optimizer == old(self).optimizer,
            final(self).epochs == old(self).epochs,
            final(self).creation_time == old(self).creation_time,
    {
        let d0 = input_shape[0];
        let d1 = if input_shape.len() >= 2 {
            input_shape[1]
        } else {
            1
        };
        let d2 = if input_shape.len() >= 3 {
            input_shape[2]
        } else {
            1
        };
        self.input_shape = (d0, d1, d2);
    }

    /// Append a convolutional layer with the given filter count and
    /// kernel size (stride one) behind the current last layer.
    pub fn add_conv_layer(&mut self, num_filters: usize, kernel_size: usize)
        requires
            old(self).wf(),
            sp_shape_ok(old(self).input_shape),
            old(self).layers@.len() > 0 ==> old(self).layers@.last().kind() != 2,
            1 <= kernel_size <= old(self).next_in_shape().0,
            kernel_size <= old(self).next_in_shape().1,
            1 <= num_filters,
            num_filters * kernel_size * kernel_size * old(self).next_in_shape().2 <= MAXN,
            sp_odim(old(self).next_in_shape().0 as int, kernel_size as int, 1) * sp_odim(
                old(self).next_in_shape().1 as int,
                kernel_size as int,
                1,
            ) * num_filters <= MAXN,
        ensures
            final(self).wf(),
            final(self).layers@.len() == old(self).layers@.len() + 1,
            forall|i: int|
                0 <= i < old(self).layers@.len() ==> final(self).layers@[i] == old(self).layers@[i],
            final(self).layers@.last() is Conv,
            final(self).layers@.last().in_shape() == old(self).next_in_shape(),
            final(self).layers@.last().out_shape().0 as int == sp_odim(
                old(self).next_in_shape().0 as int,
                kernel_size as int,
                1,
            ),
            final(self).layers@.last().out_shape().1 as int == sp_odim(
                old(self).next_in_shape().1 as int,
                kernel_size as int,
                1,
            ),
            final(self).layers@.last().out_shape().2 == num_filters,
            ({
                let c = final(self).layers@.last()->Conv_0;
                &&& c.kernel_size == kernel_size
                &&& c.stride == 1
                &&& c.num_filters == num_filters
                &&& c.optimizer == old(self).optimizer
                &&& forall|i: int|
                    0 <= i < c.kernel_changes@.len() ==> #[trigger] c.kernel_changes@[i] == 0
                &&& forall|i: int|
                    0 <= i < c.bias_changes@.len() ==> #[trigger] c.bias_changes@[i] == 0
                &&& forall|i: int| 0 <= i < c.biases@.len() ==> #[trigger] c.biases@[i] == 0
            }),
            final(self).layer_order@.len() == old(self).layer_order@.len() + 1,
            final(self).layer_order@.last()@ == "conv"@,
            final(self).input_shape == old(self).input_shape,
            final(self).optimizer == old(self).optimizer,
            final(self).training_history == old(self).training_history,
            final(self).testing_history == old(self).testing_history,
    {
        let input_size = self.next_in();
        let conv_layer = ConvLayer::new(input_size, kernel_size, 1, num_filters, self.optimizer);
        self.layers.push(Layer::Conv(conv_layer));
        self.layer_order.push(String::from_str("conv"));
    }

    /// Append a max-pooling layer with the given kernel size (stride two)
    /// behind the current last layer.
    pub fn add_mxpl_layer(&mut self, kernel_size: usize)
        requires
            old(self).wf(),
            sp_shape_ok(old(self).input_shape),
            old(self).layers@.len() > 0 ==> old(self).layers@.last().kind() != 2,
            1 <= kernel_size <= old(self).next_in_shape().0,
            kernel_size <= old(self).next_in_shape().1,
        ensures
            final(self).wf(),
            final(self).layers@.len() == old(self).layers@.len() + 1,
            forall|i: int|
                0 <= i < old(self).layers@.len() ==> final(self).layers@[i] == old(self).layers@[i],
            final(self).layers@.last() is Mxpl,
            final(self).layers@.last().in_shape() == old(self).next_in_shape(),
            final(self).layers@.last().out_shape().0 as int == sp_odim(
                old(self).next_in_shape().0 as int,
                kernel_size as int,
                2,
            ),
            final(self).layers@.last().out_shape().1 as int == sp_odim(
                old(self).next_in_shape().1 as int,
                kernel_size as int,
                2,
            ),
            final(self).layers@.last().out_shape().2 == old(self).next_in_shape().2,
            ({
                let m = final(self).layers@.last()->Mxpl_0;
                &&& m.kernel_size == kernel_size
                &&& m.stride == 2
                &&& forall|i: int| 0 <= i < m.mask@.len() ==> #[trigger] m.mask@[i] == 0
                &&& forall|i: int|
                    0 <= i < m.output.data@.len() ==> #[trigger] m.output.data@[i] == 0
            }),
            final(self).layer_order@.len() == old(self).layer_order@.len() + 1,
            final(self).layer_order@.last()@ == "mxpl"@,
            final(self).input_shape == old(self).input_shape,
            final(self).training_history == old(self).training_history,
            final(self).testing_history == old(self).testing_history,
    {
        let input_size = self.next_in();
        let mxpl_layer = MxplLayer::new(input_size, kernel_size, 2);
        self.layers.push(Layer::Mxpl(mxpl_layer));
        self.layer_order.push(String::from_str("mxpl"));
    }

    /// Append a fully-connected layer; its input size is the flattened
    /// product of the previous layer's output shape.
    pub fn add_dense_layer(
        &mut self,
        output_size: usize,
        activation: Activation,
        dropout: Option<i64>,
    )
        requires
            old(self).wf(),
            sp_shape_ok(old(self).input_shape),
            1 <= output_size <= MAXN,
            output_size * sp_tlen(old(self).next_in_shape()) <= MAXN,
            match dropout {
                Some(p) => 0 <= p < FX_ONE,
                None => true,
            },
        ensures
            final(self).wf(),
            final(self).layers@.len() == old(self).layers@.len() + 1,
            forall|i: int|
                0 <= i < old(self).layers@.len() ==> final(self).layers@[i] == old(self).layers@[i],
            final(self).layers@.last() is Dense,
            final(self).layers@.last().in_shape() == old(self).next_in_shape(),
            final(self).layers@.last().out_shape() == (output_size, 1usize, 1usize),
            final(self).layers@.last().act_of() == activation,
            ({
                let d = final(self).layers@.last()->Dense_0;
                &&& d.output_size == output_size
                &&& d.input_size == sp_tlen(old(self).next_in_shape())
                &&& d.activation == activation
                &&& d.dropout == dropout
                &&& d.optimizer == old(self).optimizer
                &&& forall|i: int|
                    0 <= i < d.weight_changes@.len() ==> #[trigger] d.weight_changes@[i] == 0
                &&& forall|i: int|
                    0 <= i < d.bias_changes@.len() ==> #[trigger] d.bias_changes@[i] == 0
                &&& forall|i: int| 0 <= i < d.biases@.len() ==> #[trigger] d.biases@[i] == 0
            }),
            final(self).layer_order@.len() == old(self).layer_order@.len() + 1,
            final(self).layer_order@.last()@ == "dense"@,
            final(self).input_shape == old(self).input_shape,
            final(self).training_history == old(self).training_history,
            final(self).testing_history == old(self).testing_history,
    {
        let transition_shape = self.next_in();
        let input_size = tlen(transition_shape);
        proof {
            assert(input_size * output_size == output_size * input_size) by (nonlinear_arith);
            assert(input_size <= output_size * input_size) by (nonlinear_arith)
                requires output_size >= 1 && input_size >= 0;
        }
        let fcl_layer = DenseLayer::new(
            input_size,
            output_size,
            activation,
            self.optimizer,
            dropout,
            transition_shape,
        );
        self.layers.push(Layer::Dense(fcl_layer));
        self.layer_order.push(String::from_str("dense"));
    }

    /// Run one sample through every layer in order and return the final
    /// flat output. With a softmax-activated dense layer at the end and
    /// `training` off, the output sums to one within one rounding unit
    /// per entry.
    #[verifier::rlimit(100)]
    pub fn forward_propagate(&mut self, image: Tensor3, training: bool) -> (r: Vec<i64>)
        requires
            old(self).wf(),
            image.wf(),
            image.shape == old(self).input_shape,
        ensures
            final(self).wf(),
            final(self).same_arch(old(self)),
            final(self).training_history == old(self).training_history,
            final(self).testing_history == old(self).testing_history,
            final(self).time_history == old(self).time_history,
            r@.len() == old(self).out_len(),
            forall|i: int| 0 <= i < r@.len() ==> fx_ok(#[trigger] r@[i] as int),
            (old(self).layers@.len() > 0 && old(self).layers@.last().kind() == 2
                && old(self).layers@.last().act_of() is Softmax && (!training || old(
                self,
            ).layers@.last().dropout_of() is None)) ==> FX_ONE - r@.len() < sp_vsum(
                r@,
                r@.len() as int,
            ) <= FX_ONE,
            (old(self).layers@.len() > 0 && old(self).layers@.last().kind() == 2
                && old(self).layers@.last().act_of() is Softmax && (!training || old(
                self,
            ).layers@.last().dropout_of() is None)) ==> forall|i: int|
                0 <= i < r@.len() ==> 0 <= #[trigger] r@[i] <= FX_ONE,
            final(self).layers@.len() > 0 && final(self).layers@.last().kind() == 2
                ==> final(self).last_output() == r@,
            forall|k: int|
                0 <= k < old(self).layers@.len() ==> sp_fwd_exact(
                    old(self).layers@[k],
                    #[trigger] final(self).layers@[k],
                    training,
                ),
            old(self).layers@.len() > 0 ==> final(self).layers@[0].in_data() == image.data@,
            forall|k: int|
                1 <= k < old(self).layers@.len() ==> #[trigger] final(self).layers@[k].in_data()
                    == final(self).layers@[k - 1].out_data(),
            old(self).layers@.len() > 0 ==> r@ == final(self).layers@.last().out_data(),
            old(self).layers@.len() == 0 ==> r@ == image.data@,
    {
        let ghost img = image;
        let n = self.layers.len();
        let mut t: Tensor3 = image;
        let mut flat: Vec<i64> = copy_vec(&t.data);
        let mut k: usize = 0;
        while k < n
            invariant
                k <= n,
                old(self).wf(),
                img.wf(),
                img.shape == old(self).input_shape,
                n == old(self).layers@.len(),
                n == self.layers@.len(),
                forall|i: int| 0 <= i < n ==> (#[trigger] self.layers@[i]).wf(),
                self.same_arch(old(self)),
                self.training_history == old(self).training_history,
                self.testing_history == old(self).testing_history,
                self.time_history == old(self).time_history,
                forall|j: int| k <= j < n ==> #[trigger] self.layers@[j] == old(self).layers@[j],
                forall|j: int|
                    0 <= j < k ==> sp_fwd_exact(
                        old(self).layers@[j],
                        #[trigger] self.layers@[j],
                        training,
                    ),
                flat@.len() == if k < n {
                    sp_tlen(old(self).layers@[k as int].in_shape())
                } else {
                    old(self).out_len()
                },
                forall|i: int| 0 <= i < flat@.len() ==> fx_ok(#[trigger] flat@[i] as int),
                k < n && old(self).layers@[k as int].kind() != 2 ==> t.wf() && t.shape == old(
                    self,
                ).layers@[k as int].in_shape() && t.data@ == flat@,
                (k > 0 && old(self).layers@[k - 1].kind() == 2 && old(self).layers@[k
                    - 1].act_of() is Softmax && (!training || old(self).layers@[k - 1].dropout_of()
                    is None)) ==> FX_ONE - flat@.len() < sp_vsum(flat@, flat@.len() as int)
                    <= FX_ONE,
                (k > 0 && old(self).layers@[k - 1].kind() == 2 && old(self).layers@[k
                    - 1].act_of() is Softmax && (!training || old(self).layers@[k - 1].dropout_of()
                    is None)) ==> forall|i: int|
                    0 <= i < flat@.len() ==> 0 <= #[trigger] flat@[i] <= FX_ONE,
                k == 0 ==> flat@ == img.data@,
                k > 0 ==> self.layers@[0].in_data() == img.data@,
                k > 0 ==> flat@ == self.layers@[k - 1].out_data(),
                forall|j: int|
                    1 <= j < k ==> #[trigger] self.layers@[j].in_data() == self.layers@[j
                        - 1].out_data(),
            decreases n - k,
        {
            let layer = &mut self.layers[k];
            let stepped = layer.forward_step(t, flat, training);
            t = stepped.0;
            flat = stepped.1;
            k += 1;
            proof {
                if k < n {
                    assert(old(self).layers@[k as int].in_shape() == old(self).layers@[k
                        - 1].out_shape());
                    if old(self).layers@[k as int].kind() != 2 {
                        assert(old(self).layers@[k - 1].kind() != 2);
                    }
                }
            }
        }
        proof {
            lemma_arch_wf(self, old(self));
            if n > 0 {
                assert(self.layers@.last() == self.layers@[n - 1]);
                assert(old(self).layers@.last() == old(self).layers@[n - 1]);
            }
        }
        flat
    }

    /// The loss gradient at the output: the predicted vector minus the
    /// one-hot encoding of the true label. The last layer must be dense.
    pub fn last_layer_error(&mut self, label: usize) -> (r: Vec<i64>)
        requires
            old(self).wf(),
            old(self).layers@.len() >= 1,
            old(self).layers@.last().kind() == 2,
        ensures
            *final(self) == *old(self),
            r@.len() == old(self).last_output().len(),
            forall|i: int|
                0 <= i < r@.len() ==> #[trigger] r@[i] as int == sp_sub(
                    old(self).last_output()[i] as int,
                    if i == label {
                        FX_ONE as int
                    } else {
                        0
                    },
                ),
            forall|i: int| 0 <= i < r@.len() ==> fx_ok(#[trigger] r@[i] as int),
    {
        let out = self.output();
        let n = out.len();
        let mut r: Vec<i64> = Vec::new();
        let mut i: usize = 0;
        while i < n
            invariant
                i <= n,
                n == out@.len(),
                out@ == self.last_output(),
                forall|q: int| 0 <= q < n ==> fx_ok(#[trigger] out@[q] as int),
                r@.len() == i,
                forall|q: int|
                    0 <= q < i ==> #[trigger] r@[q] as int == sp_sub(
                        out@[q] as int,
                        if q == label {
                            FX_ONE as int
                        } else {
                            0
                        },
                    ),
                forall|q: int| 0 <= q < i ==> fx_ok(#[trigger] r@[q] as int),
            decreases n - i,
        {
            let desired: i64 = if i == label {
                FX_ONE
            } else {
                0
            };
            r.push(fx_sub(out[i], desired));
            i += 1;
        }
        r
    }

    /// Drive the loss gradient backwards through every layer, letting
    /// each one accumulate its own gradients on the way.
    #[verifier::rlimit(100)]
    pub fn back_propagate(&mut self, label: usize, training: bool)
        requires
            old(self).wf(),
            old(self).layers@.len() >= 1,
            old(self).layers@.last().kind() == 2,
        ensures
            final(self).wf(),
            final(self).same_arch(old(self)),
            final(self).training_history == old(self).training_history,
            final(self).testing_history == old(self).testing_history,
            final(self).time_history == old(self).time_history,
            exists|errs: Seq<Tensor3>|
                sp_backprop_chain(
                    old(self).layers@,
                    final(self).layers@,
                    label as int,
                    errs,
                    training,
                ),
    {
        let n = self.layers.len();
        let mut flat_error: Vec<i64> = self.last_layer_error(label);
        let mut error: Tensor3 = Tensor3 { data: crate::tensor::zero_vec(1), shape: (1, 1, 1) };
        proof {
            assert(self.layers@.last().out_len() == self.layers@.last().out_shape().0 as int
                * 1 * 1);
            assert(self.layers@.last().out_shape().0 as int * 1 * 1 == self.layers@.last(
            ).out_shape().0 as int) by (nonlinear_arith);
            assert(old(self).layers@.last() == old(self).layers@[n - 1]);
        }
        let ghost e0 = Tensor3 { data: flat_error, shape: old(self).layers@[n - 1].out_shape() };
        let ghost mut trace: Seq<Tensor3> = seq![e0];
        proof {
            assert(sp_initial_error(old(self).layers@[n - 1], label as int, e0));
            assert(sp_chain_from(old(self).layers@, self.layers@, n as int, trace, training)) by {
                reveal(sp_chain_from);
            }
        }
        let mut k: usize = n;
        while k > 0
            invariant
                k <= n,
                old(self).wf(),
                old(self).layers@.len() >= 1,
                old(self).layers@.last().kind() == 2,
                n == old(self).layers@.len(),
                n == self.layers@.len(),
                forall|i: int| 0 <= i < n ==> (#[trigger] self.layers@[i]).wf(),
                self.same_arch(old(self)),
                self.training_history == old(self).training_history,
                self.testing_history == old(self).testing_history,
                self.time_history == old(self).time_history,
                forall|j: int| 0 <= j < k ==> #[trigger] self.layers@[j] == old(self).layers@[j],
                trace.len() == n - k + 1,
                sp_initial_error(old(self).layers@[n - 1], label as int, trace[trace.len() - 1]),
                sp_chain_from(old(self).layers@, self.layers@, k as int, trace, training),
                k > 0 && old(self).layers@[k - 1].kind() == 2 ==> flat_error@.len() == sp_tlen(
                    old(self).layers@[k - 1].out_shape(),
                ) && (forall|i: int|
                    0 <= i < flat_error@.len() ==> fx_ok(#[trigger] flat_error@[i] as int))
                    && trace[0].data@ == flat_error@ && trace[0].shape == old(self).layers@[k
                    - 1].out_shape(),
                k > 0 && old(self).layers@[k - 1].kind() != 2 ==> error.wf() && error.shape
                    == old(self).layers@[k - 1].out_shape() && error == trace[0],
            decreases k,
        {
            k -= 1;
            let ghost pre = self.layers@[k as int];
            let ghost pre_layers = self.layers@;
            let layer = &mut self.layers[k];
            let stepped = layer.backward_step(error, flat_error, training);
            proof {
                if pre.kind() == 2 {
                    assert(pre is Dense && self.layers@[k as int] is Dense);
                    lemma_bwd_dense_exact(
                        pre,
                        self.layers@[k as int],
                        trace[0],
                        stepped.0,
                        flat_error@,
                        training,
                    );
                }
                assert(sp_bwd_exact(pre, self.layers@[k as int], trace[0], stepped.0, training));
                let ghost t0 = trace;
                lemma_chain_extend(
                    old(self).layers@,
                    pre_layers,
                    self.layers@,
                    k as int,
                    t0,
                    stepped.0,
                    training,
                );
                trace = seq![stepped.0].add(t0);
                assert(trace[trace.len() - 1] == t0[t0.len() - 1]);
                if k > 0 {
                    assert(old(self).layers@[k as int].in_shape() == old(self).layers@[k
                        - 1].out_shape());
                    if old(self).layers@[k - 1].kind() == 2 {
                        assert(old(self).layers@[k as int].kind() == 2);
                    }
                }
            }
            error = stepped.0;
            flat_error = stepped.1;
        }
        proof {
            lemma_arch_wf(self, old(self));
            assert(sp_backprop_chain(
                old(self).layers@,
                self.layers@,
                label as int,
                trace,
                training,
            ));
        }
    }

    /// Apply every layer's accumulated gradient through the optimizer;
    /// max-pooling layers have nothing to learn.
    #[verifier::loop_isolation(false)]
    pub fn update(&mut self, minibatch_size: usize)
        requires
            old(self).wf(),
            minibatch_size >= 1,
        ensures
            final(self).wf(),
            final(self).same_arch(old(self)),
            final(self).training_history == old(self).training_history,
            final(self).testing_history == old(self).testing_history,
            final(self).time_history == old(self).time_history,
            forall|i: int|
                0 <= i < old(self).layers@.len() ==> sp_updated(
                    old(self).layers@[i],
                    #[trigger] final(self).layers@[i],
                    minibatch_size as int,
                ),
    {
        let n = self.layers.len();
        let mut k: usize = 0;
        while k < n
            invariant
                k <= n,
                n == self.layers@.len(),
                self.wf(),
                self.same_arch(old(self)),
                self.training_history == old(self).training_history,
                self.testing_history == old(self).testing_history,
                self.time_history == old(self).time_history,
                forall|i: int| k <= i < n ==> #[trigger] self.layers@[i] == old(self).layers@[i],
                forall|i: int|
                    0 <= i < k ==> sp_updated(
                        old(self).layers@[i],
                        #[trigger] self.layers@[i],
                        minibatch_size as int,
                    ),
            decreases n - k,
        {
            let layer = &mut self.layers[k];
            layer.update_step(minibatch_size);
            k += 1;
        }
    }

    /// A copy of the final dense layer's cached output vector.
    pub fn output(&self) -> (r: Vec<i64>)
        requires
            self.wf(),
            self.layers@.len() >= 1,
            self.layers@.last().kind() == 2,
        ensures
            r@ == self.last_output(),
            forall|i: int| 0 <= i < r@.len() ==> fx_ok(#[trigger] r@[i] as int),
    {
        match &self.layers[self.layers.len() - 1] {
            Layer::Dense(dense_layer) => copy_vec(&dense_layer.output),
            _ => vstd::pervasive::unreached(),
        }
    }

    /// One when the strictly largest positive output entry sits at the
    /// true label's index (first wins on ties, index zero when nothing is
    /// positive), zero otherwise.
    #[verifier::loop_isolation(false)]
    pub fn get_accuracy(&self, label: usize) -> (r: i64)
        requires
            self.wf(),
            self.layers@.len() >= 1,
            self.layers@.last().kind() == 2,
        ensures
            r == if sp_acc_idx(self.last_output(), self.last_output().len() as int) == label {
                FX_ONE as int
            } else {
                0
            },
    {
        let output = self.output();
        let n = output.len();
        let mut best: i64 = 0;
        let mut best_idx: usize = 0;
        let mut j: usize = 0;
        while j < n
            invariant
                j <= n,
                n == output@.len(),
                output@ == self.last_output(),
                best as int == sp_acc_val(output@, j as int),
                best_idx as int == sp_acc_idx(output@, j as int),
                fx_ok(best as int),
            decreases n - j,
        {
            if output[j] > best {
                best = output[j];
                best_idx = j;
            }
            j += 1;
        }
        if best_idx == label {
            FX_ONE
        } else {
            0
        }
    }

    /// Reset every layer's per-batch state: gradient accumulators and
    /// cached outputs, leaving learned parameters alone.
    #[verifier::loop_isolation(false)]
    pub fn zero(&mut self)
        requires
            old(self).wf(),
        ensures
            final(self).wf(),
            final(self).same_arch(old(self)),
            final(self).training_history == old(self).training_history,
            final(self).testing_history == old(self).testing_history,
            final(self).time_history == old(self).time_history,
            forall|i: int|
                0 <= i < old(self).layers@.len() ==> sp_zeroed(
                    old(self).layers@[i],
                    #[trigger] final(self).layers@[i],
                ),
    {
        let n = self.layers.len();
        let mut k: usize = 0;
        while k < n
            invariant
                k <= n,
                n == self.layers@.len(),
                self.wf(),
                self.same_arch(old(self)),
                self.training_history == old(self).training_history,
                self.testing_history == old(self).testing_history,
                self.time_history == old(self).time_history,
                forall|i: int| k <= i < n ==> #[trigger] self.layers@[i] == old(self).layers@[i],
                forall|i: int|
                    0 <= i < k ==> sp_zeroed(old(self).layers@[i], #[trigger] self.layers@[i]),
            decreases n - k,
        {
            let layer = &mut self.layers[k];
            layer.zero_step();
            k += 1;
        }
    }

    /// One training epoch: draw as many samples, uniformly with
    /// replacement, as the training set holds; forward- and
    /// back-propagate each; apply the averaged gradients after every
    /// mini-batch. Returns the fraction of correct predictions as a
    /// fixed-point scalar. The sampling policy deliberately departs from a
    /// shuffled full pass.
    #[verifier::loop_isolation(false)]
    /// One iteration of the training loop: draw one training sample
    /// uniformly with replacement, forward- and back-propagate it, and
    /// apply the averaged gradients when sample `i` closes a mini-batch.
    /// Returns one (in fixed point) when the prediction was correct.
    #[verifier::loop_isolation(false)]
    pub fn train_sample(&mut self, data: &Dataset, i: usize) -> (acc: i64)
        requires
            old(self).wf(),
            old(self).layers@.len() >= 1,
            old(self).layers@.last().kind() == 2,
            data.wf(old(self).input_shape),
            1 <= data.trn@.len() <= 0xFFFF_FFFFusize,
        ensures
            final(self).wf(),
            final(self).same_arch(old(self)),
            final(self).training_history == old(self).training_history,
            final(self).testing_history == old(self).testing_history,
            final(self).time_history == old(self).time_history,
            acc == 0 || acc == FX_ONE,
    {
        let n = data.trn.len();
        let idx = rand_below(n);
        let sample_image = &data.trn[idx].image;
        let image = Tensor3 { data: copy_vec(&sample_image.data), shape: sample_image.shape };
        let label = data.classes[data.trn[idx].label];
        self.forward_propagate(image, true);
        self.back_propagate(label, true);
        let acc = self.get_accuracy(label);
        if i % self.minibatch_size == self.minibatch_size - 1 {
            let mb = self.minibatch_size;
            self.update(mb);
        }
        acc
    }

    #[verifier::loop_isolation(false)]
    pub fn train_epoch(&mut self, data: &Dataset) -> (acc: i64)
        requires
            old(self).wf(),
            old(self).layers@.len() >= 1,
            old(self).layers@.last().kind() == 2,
            data.wf(old(self).input_shape),
            1 <= data.trn@.len() <= 0xFFFF_FFFFusize,
        ensures
            final(self).wf(),
            final(self).same_arch(old(self)),
            final(self).training_history == old(self).training_history,
            final(self).testing_history == old(self).testing_history,
            final(self).time_history == old(self).time_history,
            0 <= acc <= FX_ONE,
    {
        let n = data.trn.len();
        let mut correct: u64 = 0;
        let mut i: usize = 0;
        while i < n
            invariant
                i <= n,
                n == data.trn@.len(),
                data.wf(self.input_shape),
                self.wf(),
                self.layers@.len() >= 1,
                self.layers@.last().kind() == 2,
                self.same_arch(old(self)),
                self.training_history == old(self).training_history,
                self.testing_history == old(self).testing_history,
                self.time_history == old(self).time_history,
                correct <= i,
            decreases n - i,
        {
            if self.train_sample(data, i) == FX_ONE {
                correct = correct + 1;
            }
            i += 1;
        }
        ratio(correct, n)
    }

    /// One held-out evaluation pass: draw as many test samples, uniformly
    /// with replacement, as the test set holds, forward-propagating with
    /// training off; nothing is learned. Returns the accuracy fraction.
    #[verifier::loop_isolation(false)]
    pub fn evaluate(&mut self, data: &Dataset) -> (acc: i64)
        requires
            old(self).wf(),
            old(self).layers@.len() >= 1,
            old(self).layers@.last().kind() == 2,
            data.wf(old(self).input_shape),
            1 <= data.tst@.len() <= 0xFFFF_FFFFusize,
        ensures
            final(self).wf(),
            final(self).same_arch(old(self)),
            final(self).training_history == old(self).training_history,
            final(self).testing_history == old(self).testing_history,
            final(self).time_history == old(self).time_history,
            0 <= acc <= FX_ONE,
            forall|k: int|
                0 <= k < old(self).layers@.len() ==> params_eq(
                    old(self).layers@[k],
                    #[trigger] final(self).layers@[k],
                ),
    {
        let n = data.tst.len();
        let mut correct: u64 = 0;
        let mut i: usize = 0;
        while i < n
            invariant
                i <= n,
                n == data.tst@.len(),
                data.wf(self.input_shape),
                self.wf(),
                self.layers@.len() >= 1,
                self.layers@.last().kind() == 2,
                self.same_arch(old(self)),
                self.training_history == old(self).training_history,
                self.testing_history == old(self).testing_history,
                self.time_history == old(self).time_history,
                correct <= i,
                forall|k: int|
                    0 <= k < self.layers@.len() ==> params_eq(
                        old(self).layers@[k],
                        #[trigger] self.layers@[k],
                    ),
            decreases n - i,
        {
            let idx = rand_below(n);
            let sample_image = &data.tst[idx].image;
            let image = Tensor3 {
                data: copy_vec(&sample_image.data),
                shape: sample_image.shape,
            };
            let label = data.classes[data.tst[idx].label];
            let ghost prev = self.layers@;
            self.forward_propagate(image, false);
            proof {
                assert forall|k: int|
                    0 <= k < self.layers@.len() implies params_eq(
                    old(self).layers@[k],
                    #[trigger] self.layers@[k],
                ) by {
                    lemma_fwd_exact_params(prev[k], self.layers@[k], false);
                }
            }
            if self.get_accuracy(label) == FX_ONE {
                correct = correct + 1;
            }
            i += 1;
        }
        ratio(correct, n)
    }

    /// Append one epoch's training accuracy, testing accuracy and elapsed
    /// wall time to the histories.
    pub fn record_epoch(&mut self, train_acc: i64, test_acc: i64, elapsed_secs: u64)
        requires
            old(self).wf(),
        ensures
            final(self).wf(),
            final(self).same_arch(old(self)),
            final(self).training_history@ == old(self).training_history@.push(train_acc),
            final(self).testing_history@ == old(self).testing_history@.push(test_acc),
            final(self).time_history@ == old(self).time_history@.push(elapsed_secs),
            final(self).layers == old(self).layers,
    {
        self.training_history.push(train_acc);
        self.testing_history.push(test_acc);
        self.time_history.push(elapsed_secs);
    }

    /// Whether, at the end of an epoch with these accuracies, a checkpoint
    /// should be written, and whether it should be a full snapshot. The
    /// first component says to save at all; the fraction-of-an-epoch
    /// policy triggers inside an epoch and asks for nothing here.
    pub fn save_decision(&self, train_acc: i64, test_acc: i64, best_train: i64, best_test: i64)
        -> (r: (bool, bool))
        ensures
            match self.saving_strategy {
                SavingStrategy::EveryEpoch(full) => r.0 && r.1 == full,
                SavingStrategy::EveryNthEpoch(_, _) => !r.0,
                SavingStrategy::BestTrainingAccuracy(full) => r.0 && r.1 == (full && train_acc
                    > best_train),
                SavingStrategy::BestTestingAccuracy(full) => r.0 && r.1 == (full && test_acc
                    > best_test),
                SavingStrategy::Never => !r.0,
            },
    {
        match self.saving_strategy {
            SavingStrategy::EveryEpoch(full) => (true, full),
            SavingStrategy::EveryNthEpoch(_, _) => (false, false),
            SavingStrategy::BestTrainingAccuracy(full) => (true, full && train_acc > best_train),
            SavingStrategy::BestTestingAccuracy(full) => (true, full && test_acc > best_test),
            SavingStrategy::Never => (false, false),
        }
    }

    /// Whether, after processing sample `i` of an epoch over `trn_size`
    /// samples, the fraction-of-an-epoch policy asks for a checkpoint:
    /// every `floor(trn_size * fraction)` samples, and whether it should
    /// be a full snapshot. Every other policy asks for nothing here.
    pub fn save_mid_epoch(&self, i: usize, trn_size: usize) -> (r: (bool, bool))
        requires
            trn_size <= 0xFFFF_FFFFusize,
            match self.saving_strategy {
                SavingStrategy::EveryNthEpoch(_, frac) => 0 <= frac <= FX_ONE,
                _ => true,
            },
        ensures
            match self.saving_strategy {
                SavingStrategy::EveryNthEpoch(full, frac) => {
                    let every = trn_size as int * frac as int / (FX_ONE as int);
                    r.0 == (every > 0 && i as int % every == every - 1) && r.1 == full
                },
                _ => !r.0,
            },
    {
        match self.saving_strategy {
            SavingStrategy::EveryNthEpoch(full, frac) => {
                proof {
                    assert(trn_size as int * frac as int <= 0xFFFF_FFFFu64 * 0x100_0000u64)
                        by (nonlinear_arith)
                        requires trn_size <= 0xFFFF_FFFFusize && 0 <= frac <= 0x100_0000i64;
                    assert(trn_size as int * frac as int >= 0) by (nonlinear_arith)
                        requires trn_size >= 0 && frac >= 0;
                }
                let every: u64 = (trn_size as u64) * (frac as u64) / 0x100_0000u64;
                if every > 0 && (i as u64) % every == every - 1 {
                    (true, full)
                } else {
                    (false, full)
                }
            },
            SavingStrategy::EveryEpoch(_) => (false, false),
            SavingStrategy::BestTrainingAccuracy(_) => (false, false),
            SavingStrategy::BestTestingAccuracy(_) => (false, false),
            SavingStrategy::Never => (false, false),
        }
    }

    /// The full training run: for each configured epoch, one training
    /// epoch over the training set, one evaluation pass over the test set,
    /// and a history record with the elapsed wall time. Checkpointing is
    /// the caller's concern, advised by `save_decision`.
    #[verifier::loop_isolation(false)]
    pub fn train(&mut self, data: &Dataset)
        requires
            old(self).wf(),
            old(self).layers@.len() >= 1,
            old(self).layers@.last().kind() == 2,
            data.wf(old(self).input_shape),
            1 <= data.trn@.len() <= 0xFFFF_FFFFusize,
            1 <= data.tst@.len() <= 0xFFFF_FFFFusize,
        ensures
            final(self).wf(),
            final(self).same_arch(old(self)),
            final(self).training_history@.len() == old(self).training_history@.len() + old(
                self,
            ).epochs,
            final(self).testing_history@.len() == old(self).testing_history@.len() + old(
                self,
            ).epochs,
            final(self).time_history@.len() == old(self).time_history@.len() + old(self).epochs,
            forall|i: int|
                0 <= i < old(self).training_history@.len() ==> #[trigger] final(self).training_history@[i] == old(self).training_history@[i],
            forall|i: int|
                0 <= i < old(self).testing_history@.len() ==> #[trigger] final(self).testing_history@[i] == old(self).testing_history@[i],
            forall|i: int|
                old(self).training_history@.len() <= i < final(self).training_history@.len()
                    ==> 0 <= #[trigger] final(self).training_history@[i] <= FX_ONE,
            forall|i: int|
                old(self).testing_history@.len() <= i < final(self).testing_history@.len()
                    ==> 0 <= #[trigger] final(self).testing_history@[i] <= FX_ONE,
    {
        let t0 = self.creation_time;
        let total = self.epochs;
        let mut e: usize = 0;
        while e < total
            invariant
                e <= total,
                total == self.epochs,
                data.wf(self.input_shape),
                self.wf(),
                self.layers@.len() >= 1,
                self.layers@.last().kind() == 2,
                self.same_arch(old(self)),
                self.training_history@.len() == old(self).training_history@.len() + e,
                self.testing_history@.len() == old(self).testing_history@.len() + e,
                self.time_history@.len() == old(self).time_history@.len() + e,
                forall|i: int|
                    0 <= i < old(self).training_history@.len() ==> #[trigger] self
                        .training_history@[i] == old(self).training_history@[i],
                forall|i: int|
                    0 <= i < old(self).testing_history@.len() ==> #[trigger] self
                        .testing_history@[i] == old(self).testing_history@[i],
                forall|i: int|
                    old(self).training_history@.len() <= i < self.training_history@.len() ==> 0
                        <= #[trigger] self.training_history@[i] <= FX_ONE,
                forall|i: int|
                    old(self).testing_history@.len() <= i < self.testing_history@.len() ==> 0
                        <= #[trigger] self.testing_history@[i] <= FX_ONE,
            decreases total - e,
        {
            let train_acc = self.train_epoch(data);
            let test_acc = self.evaluate(data);
            let now = now_secs();
            let elapsed = if now >= t0 {
                now - t0
            } else {
                0
            };
            self.record_epoch(train_acc, test_acc, elapsed);
            e += 1;
        }
    }

    /// The 3-D shape the next layer would consume.
    fn next_in(&self) -> (r: (usize, usize, usize))
        requires
            self.wf(),
        ensures
            r == self.next_in_shape(),
            self.layers@.len() > 0 ==> sp_shape_ok(r),
    {
        if self.layers.len() == 0 {
            self.input_shape
        } else {
            match &self.layers[self.layers.len() - 1] {
                Layer::Conv(l) => l.output_size,
                Layer::Mxpl(l) => l.output_size,
                Layer::Dense(l) => (l.output_size, 1, 1),
            }
        }
    }
}

} // verus!
