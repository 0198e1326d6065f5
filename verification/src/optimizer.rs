//! Parameter update rules: plain gradient descent and the adaptive-moment
//! rule with bias-corrected first and second moment estimates.

use vstd::prelude::*;
use vstd::pervasive::VecAdditionalExecFns;
use crate::fx::{
    fx_add, fx_div, fx_mul, fx_ok, fx_sqrt, lemma_sp_div_nonneg, lemma_sp_mul_nonneg,
    lemma_sp_mul_square, lemma_sp_mul_upper, sp_add, sp_div, sp_mul, sp_sqrt, FX_MAX, FX_ONE,
};
use crate::tensor::zero_vec;

verus! {

/// Learning rate used by the adaptive-moment rule (0.001 in fixed point).
pub const ADAM_LR: i64 = 16777;

/// The update rule a layer was constructed with: plain gradient descent
/// with a learning rate, or adaptive-moment with two decay rates and a
/// numerical-stability epsilon.
#[derive(Clone, Copy, Debug)]
pub enum OptimizerAlg {
    SGD(i64),
    Adam(i64, i64, i64),
}

/// The rule's parameters are well-formed scalars; decay rates are
/// probabilities strictly below one.
pub open spec fn sp_alg_ok(a: OptimizerAlg) -> bool {
    match a {
        OptimizerAlg::SGD(lr) => fx_ok(lr as int),
        OptimizerAlg::Adam(b1, b2, eps) => 0 <= b1 < FX_ONE && 0 <= b2 < FX_ONE && 0 <= eps
            <= FX_MAX,
    }
}

/// Truncating fixed-point power: `b^t`.
pub open spec fn sp_pow(b: int, t: nat) -> int
    decreases t,
{
    if t == 0 { FX_ONE as int } else { sp_mul(sp_pow(b, (t - 1) as nat), b) }
}

/// For a decay rate below one, every positive power stays between zero and
/// the rate itself.
pub proof fn lemma_pow_bounds(b: int, t: nat)
    requires
        0 <= b < FX_ONE as int,
        t >= 1,
    ensures
        0 <= sp_pow(b, t) <= b,
    decreases t,
{
    if t == 1 {
        assert(sp_pow(b, 1) == sp_mul(sp_pow(b, 0), b));
        assert(sp_pow(b, 0) == FX_ONE as int);
        lemma_sp_mul_upper(FX_ONE as int, b);
    } else {
        lemma_pow_bounds(b, (t - 1) as nat);
        assert(0 <= sp_pow(b, (t - 1) as nat) <= b < FX_ONE as int);
        lemma_sp_mul_upper(sp_pow(b, (t - 1) as nat), b);
        assert(sp_pow(b, t) == sp_mul(sp_pow(b, (t - 1) as nat), b));
    }
}

/// Truncating fixed-point power of a decay rate.
pub fn fx_pow(b: i64, t: u64) -> (r: i64)
    requires
        0 <= b < FX_ONE,
    ensures
        r as int == sp_pow(b as int, t as nat),
        0 <= r <= FX_ONE,
        t >= 1 ==> r <= b,
{
    let mut acc: i64 = FX_ONE;
    let mut i: u64 = 0;
    while i < t
        invariant
            i <= t,
            0 <= b < FX_ONE,
            acc as int == sp_pow(b as int, i as nat),
            0 <= acc <= FX_ONE,
            i >= 1 ==> acc <= b,
        decreases t - i,
    {
        proof {
            lemma_sp_mul_upper(acc as int, b as int);
        }
        acc = fx_mul(acc, b);
        i += 1;
    }
    acc
}

/// Per-parameter first and second moment estimates with the step counter,
/// owned by the layer whose parameters they describe.
pub struct Moments {
    pub m: Vec<i64>,
    pub v: Vec<i64>,
    pub t: u64,
}

impl Moments {
    pub open spec fn wf(&self, n: int) -> bool {
        &&& self.m@.len() == n
        &&& self.v@.len() == n
        &&& forall|i: int| 0 <= i < n ==> fx_ok(#[trigger] self.m@[i] as int)
        &&& forall|i: int| 0 <= i < n ==> 0 <= #[trigger] self.v@[i] <= FX_MAX
    }

    /// Fresh all-zero moment state for `n` parameters.
    pub fn zeros(n: usize) -> (r: Moments)
        ensures
            r.wf(n as int),
            r.t == 0,
            forall|i: int| 0 <= i < n ==> #[trigger] r.m@[i] == 0,
            forall|i: int| 0 <= i < n ==> #[trigger] r.v@[i] == 0,
    {
        Moments { m: zero_vec(n), v: zero_vec(n), t: 0 }
    }
}

/// The step counter advances by one and saturates at the largest `u64`.
pub open spec fn sp_tick(t: u64) -> u64 {
    if t == u64::MAX { t } else { (t + 1) as u64 }
}

/// New first-moment estimate after seeing gradient `g`.
pub open spec fn sp_new_m(alg: OptimizerAlg, m: int, g: int) -> int {
    match alg {
        OptimizerAlg::SGD(_) => m,
        OptimizerAlg::Adam(b1, _, _) => sp_add(sp_mul(b1 as int, m), sp_mul(FX_ONE - b1, g)),
    }
}

/// New second-moment estimate after seeing gradient `g`.
pub open spec fn sp_new_v(alg: OptimizerAlg, v: int, g: int) -> int {
    match alg {
        OptimizerAlg::SGD(_) => v,
        OptimizerAlg::Adam(_, b2, _) => sp_add(
            sp_mul(b2 as int, v),
            sp_mul(FX_ONE - b2, sp_mul(g, g)),
        ),
    }
}

/// The parameter delta produced at step `t1` for gradient `g`, given the
/// moment estimates before the step.
pub open spec fn sp_delta(alg: OptimizerAlg, m0: int, v0: int, t1: nat, g: int) -> int {
    match alg {
        OptimizerAlg::SGD(lr) => -sp_mul(lr as int, g),
        OptimizerAlg::Adam(b1, b2, eps) => {
            let m1 = sp_new_m(alg, m0, g);
            let v1 = sp_new_v(alg, v0, g);
            let mh = sp_div(m1, FX_ONE - sp_pow(b1 as int, t1));
            let vh = sp_div(v1, FX_ONE - sp_pow(b2 as int, t1));
            let den = sp_add(sp_sqrt(vh * FX_ONE), eps as int);
            if den == 0 { 0 } else { -sp_div(sp_mul(ADAM_LR as int, mh), den) }
        },
    }
}

/// A parameter that received a gradient whose scaled product with the
/// learning rate is nonzero is changed by a plain gradient-descent update,
/// provided the moved value stays inside the representable range (a step
/// that saturates, or one whose product truncates to zero, may leave the
/// parameter where it was). The layers' `update` contracts state that each
/// new parameter equals `sp_add(old, sp_delta(..))`, which this law shows
/// to differ from the old value.
pub proof fn lemma_sgd_update_changes(w: i64, lr: i64, g: i64, m0: int, v0: int, t: nat)
    requires
        fx_ok(w as int),
        sp_mul(lr as int, g as int) != 0,
        fx_ok(w - sp_mul(lr as int, g as int)),
    ensures
        sp_add(w as int, sp_delta(OptimizerAlg::SGD(lr), m0, v0, t, g as int)) != w as int,
{
}

/// Advance the moment state by one step for gradient vector `g` and return
/// the per-parameter deltas to add to the parameters.
pub fn compute_deltas(alg: OptimizerAlg, st: &mut Moments, g: &Vec<i64>) -> (d: Vec<i64>)
    requires
        sp_alg_ok(alg),
        old(st).wf(g@.len() as int),
        forall|i: int| 0 <= i < g@.len() ==> fx_ok(#[trigger] g@[i] as int),
    ensures
        final(st).wf(g@.len() as int),
        d@.len() == g@.len(),
        forall|i: int| 0 <= i < d@.len() ==> fx_ok(#[trigger] d@[i] as int),
        final(st).t == if alg is Adam { sp_tick(old(st).t) } else { old(st).t },
        forall|i: int|
            0 <= i < g@.len() ==> #[trigger] final(st).m@[i] as int == sp_new_m(
                alg,
                old(st).m@[i] as int,
                g@[i] as int,
            ),
        forall|i: int|
            0 <= i < g@.len() ==> #[trigger] final(st).v@[i] as int == sp_new_v(
                alg,
                old(st).v@[i] as int,
                g@[i] as int,
            ),
        forall|i: int|
            0 <= i < g@.len() ==> #[trigger] d@[i] as int == sp_delta(
                alg,
                old(st).m@[i] as int,
                old(st).v@[i] as int,
                final(st).t as nat,
                g@[i] as int,
            ),
{
    let n = g.len();
    let mut d: Vec<i64> = Vec::new();
    match alg {
        OptimizerAlg::SGD(lr) => {
            let mut i: usize = 0;
            while i < n
                invariant
                    i <= n,
                    n == g@.len(),
                    fx_ok(lr as int),
                    forall|k: int| 0 <= k < n ==> fx_ok(#[trigger] g@[k] as int),
                    d@.len() == i,
                    forall|k: int| 0 <= k < i ==> #[trigger] d@[k] as int == -sp_mul(
                        lr as int,
                        g@[k] as int,
                    ),
                    forall|k: int| 0 <= k < i ==> fx_ok(#[trigger] d@[k] as int),
                decreases n - i,
            {
                d.push(-fx_mul(lr, g[i]));
                i += 1;
            }
            d
        },
        OptimizerAlg::Adam(b1, b2, eps) => {
            if st.t < u64::MAX {
                st.t = st.t + 1;
            }
            let t1 = st.t;
            proof {
                lemma_pow_bounds(b1 as int, t1 as nat);
                lemma_pow_bounds(b2 as int, t1 as nat);
            }
            let c1 = FX_ONE - fx_pow(b1, t1);
            let c2 = FX_ONE - fx_pow(b2, t1);
            let mut i: usize = 0;
            while i < n
                invariant
                    i <= n,
                    n == g@.len(),
                    0 <= b1 < FX_ONE,
                    0 <= b2 < FX_ONE,
                    0 <= eps <= FX_MAX,
                    alg == OptimizerAlg::Adam(b1, b2, eps),
                    t1 == st.t,
                    st.t == sp_tick(old(st).t),
                    t1 >= 1,
                    c1 as int == FX_ONE - sp_pow(b1 as int, t1 as nat),
                    c2 as int == FX_ONE - sp_pow(b2 as int, t1 as nat),
                    0 < c1 <= FX_ONE,
                    0 < c2 <= FX_ONE,
                    forall|k: int| 0 <= k < n ==> fx_ok(#[trigger] g@[k] as int),
                    st.m@.len() == n,
                    st.v@.len() == n,
                    forall|k: int| 0 <= k < n ==> fx_ok(#[trigger] st.m@[k] as int),
                    forall|k: int| 0 <= k < n ==> 0 <= #[trigger] st.v@[k] <= FX_MAX,
                    forall|k: int| i <= k < n ==> #[trigger] st.m@[k] == old(st).m@[k],
                    forall|k: int| i <= k < n ==> #[trigger] st.v@[k] == old(st).v@[k],
                    forall|k: int|
                        0 <= k < i ==> #[trigger] st.m@[k] as int == sp_new_m(
                            alg,
                            old(st).m@[k] as int,
                            g@[k] as int,
                        ),
                    forall|k: int|
                        0 <= k < i ==> #[trigger] st.v@[k] as int == sp_new_v(
                            alg,
                            old(st).v@[k] as int,
                            g@[k] as int,
                        ),
                    d@.len() == i,
                    forall|k: int| 0 <= k < i ==> fx_ok(#[trigger] d@[k] as int),
                    forall|k: int|
                        0 <= k < i ==> #[trigger] d@[k] as int == sp_delta(
                            alg,
                            old(st).m@[k] as int,
                            old(st).v@[k] as int,
                            t1 as nat,
                            g@[k] as int,
                        ),
                decreases n - i,
            {
                let m0 = st.m[i];
                let v0 = st.v[i];
                let gi = g[i];
                let m1 = fx_add(fx_mul(b1, m0), fx_mul(FX_ONE - b1, gi));
                proof {
                    lemma_sp_mul_nonneg(b2 as int, v0 as int);
                    lemma_sp_mul_square(gi as int);
                    lemma_sp_mul_nonneg(FX_ONE - b2 as int, sp_mul(gi as int, gi as int));
                }
                let v1 = fx_add(fx_mul(b2, v0), fx_mul(FX_ONE - b2, fx_mul(gi, gi)));
                st.m.set(i, m1);
                st.v.set(i, v1);
                let mh = fx_div(m1, c1);
                proof {
                    lemma_sp_div_nonneg(v1 as int, c2 as int);
                }
                let vh = fx_div(v1, c2);
                let sq = fx_sqrt(vh);
                let den = fx_add(sq, eps);
                let di: i64 = if den == 0 {
                    0
                } else {
                    -fx_div(fx_mul(ADAM_LR, mh), den)
                };
                d.push(di);
                i += 1;
            }
            d
        },
    }
}

} // verus!
