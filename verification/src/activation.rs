//! Stateless activation functions over fixed-point vectors: forward values
//! and the derivatives used when chaining gradients backwards.

use vstd::prelude::*;
use vstd::arithmetic::div_mod::{
    lemma_div_is_ordered, lemma_div_is_ordered_by_denominator, lemma_div_pos_is_pos,
    lemma_fundamental_div_mod,
};
use crate::fx::{
    exp_unit, fx_mul, fx_ok, fx_sub, lemma_exp_unit_bounds, lemma_exp_unit_zero, sp_exp_unit,
    sp_mul, sp_sub, FX_ONE, MAXN,
};

verus! {

/// The activation kinds a dense layer can be configured with.
#[derive(Clone, Copy, Debug)]
pub enum Activation {
    Relu,
    Sigmoid,
    Softmax,
}

pub open spec fn sp_relu(x: int) -> int {
    if x > 0 { x } else { 0 }
}

/// The rectifier derivative: one (in fixed point) where the value is
/// positive, zero elsewhere.
pub open spec fn sp_relu_deriv(x: int) -> int {
    if x > 0 { FX_ONE as int } else { 0 }
}

/// The logistic function `1 / (1 + e^-x)`, evaluated through `sp_exp_unit`
/// on the nonpositive side so the exponential never exceeds one.
pub open spec fn sp_sigmoid(x: int) -> int {
    if x >= 0 {
        (FX_ONE as int * FX_ONE as int) / (FX_ONE as int + sp_exp_unit(-x))
    } else {
        (sp_exp_unit(x) * FX_ONE as int) / (FX_ONE as int + sp_exp_unit(x))
    }
}

/// The derivative of the logistic function expressed over the activated
/// value `y`: `y * (1 - y)`.
pub open spec fn sp_sigmoid_deriv(y: int) -> int {
    sp_mul(y, sp_sub(FX_ONE as int, y))
}

/// Maximum entry of a nonempty vector.
pub open spec fn sp_vmax(v: Seq<i64>) -> int
    recommends v.len() >= 1,
    decreases v.len(),
{
    if v.len() <= 1 {
        v[0] as int
    } else {
        let m = sp_vmax(v.drop_last());
        if v.last() as int > m { v.last() as int } else { m }
    }
}

/// The shifted exponentials softmax is built from.
pub open spec fn sp_exps(v: Seq<i64>) -> Seq<int> {
    Seq::new(v.len(), |i: int| sp_exp_unit(v[i] - sp_vmax(v)))
}

/// Sum of the first `n` entries of a sequence of integers.
pub open spec fn sp_isum(s: Seq<int>, n: int) -> int
    decreases n,
{
    if n <= 0 { 0 } else { sp_isum(s, n - 1) + s[n - 1] }
}

/// Sum of the first `n` entries of a vector of scalars.
pub open spec fn sp_vsum(s: Seq<i64>, n: int) -> int
    decreases n,
{
    if n <= 0 { 0 } else { sp_vsum(s, n - 1) + s[n - 1] }
}

/// Two pointwise-equal prefixes have the same sum.
pub proof fn lemma_vsum_eq(a: Seq<i64>, b: Seq<int>, n: int)
    requires
        forall|i: int| 0 <= i < n ==> #[trigger] a[i] as int == b[i],
    ensures
        sp_vsum(a, n) == sp_isum(b, n),
    decreases n,
{
    if n > 0 {
        lemma_vsum_eq(a, b, n - 1);
    }
}

/// Softmax: each shifted exponential, normalised by their total.
pub open spec fn sp_softmax(v: Seq<i64>) -> Seq<int> {
    let e = sp_exps(v);
    let t = sp_isum(e, v.len() as int);
    Seq::new(v.len(), |i: int| (e[i] * FX_ONE as int) / t)
}

proof fn lemma_vmax_props(v: Seq<i64>)
    requires
        v.len() >= 1,
    ensures
        forall|i: int| 0 <= i < v.len() ==> #[trigger] (v[i] as int) <= sp_vmax(v),
        exists|i: int| 0 <= i < v.len() && v[i] as int == sp_vmax(v),
    decreases v.len(),
{
    if v.len() == 1 {
        assert(v[0] as int == sp_vmax(v));
    } else {
        let w = v.drop_last();
        lemma_vmax_props(w);
        assert forall|i: int| 0 <= i < v.len() implies #[trigger] (v[i] as int) <= sp_vmax(v) by {
            if i < v.len() - 1 {
                assert(w[i] == v[i]);
            }
        }
        if v.last() as int > sp_vmax(w) {
            assert(v[v.len() - 1] as int == sp_vmax(v));
        } else {
            let j = choose|i: int| 0 <= i < w.len() && w[i] as int == sp_vmax(w);
            assert(v[j] as int == sp_vmax(v));
        }
    }
}

proof fn lemma_isum_lower(s: Seq<int>, j: int, n: int)
    requires
        0 <= j < n <= s.len(),
        forall|i: int| 0 <= i < s.len() ==> 0 <= #[trigger] s[i],
    ensures
        s[j] <= sp_isum(s, n),
        0 <= sp_isum(s, n),
    decreases n,
{
    if j == n - 1 {
        lemma_isum_nonneg(s, n - 1);
    } else {
        lemma_isum_lower(s, j, n - 1);
    }
}

proof fn lemma_isum_nonneg(s: Seq<int>, n: int)
    requires
        n <= s.len(),
        forall|i: int| 0 <= i < s.len() ==> 0 <= #[trigger] s[i],
    ensures
        0 <= sp_isum(s, n),
    decreases n,
{
    if n > 0 {
        lemma_isum_nonneg(s, n - 1);
    }
}

proof fn lemma_floor_sum(e: Seq<int>, p: Seq<int>, t: int, k: int)
    requires
        t > 0,
        0 <= k <= e.len(),
        p.len() == e.len(),
        forall|i: int| 0 <= i < e.len() ==> 0 <= #[trigger] e[i],
        forall|i: int| 0 <= i < e.len() ==> #[trigger] p[i] == (e[i] * FX_ONE as int) / t,
    ensures
        t * sp_isum(p, k) <= FX_ONE as int * sp_isum(e, k),
        k > 0 ==> FX_ONE as int * sp_isum(e, k) < t * (sp_isum(p, k) + k),
    decreases k,
{
    if k > 0 {
        lemma_floor_sum(e, p, t, k - 1);
        let ek = e[k - 1];
        let pk = p[k - 1];
        lemma_fundamental_div_mod(ek * FX_ONE as int, t);
        assert(t * pk <= ek * FX_ONE as int && ek * (FX_ONE as int) < t * pk + t)
            by (nonlinear_arith)
            requires
                pk == (ek * FX_ONE as int) / t,
                t > 0,
                ek >= 0,
        ;
        let sp = sp_isum(p, k - 1);
        let se = sp_isum(e, k - 1);
        assert(t * (sp + pk) == t * sp + t * pk) by (nonlinear_arith);
        assert(FX_ONE as int * (se + ek) == FX_ONE as int * se + FX_ONE as int * ek)
            by (nonlinear_arith);
        assert(t * ((sp + pk) + k) == t * (sp + (k - 1)) + t * pk + t) by (nonlinear_arith);
        assert(FX_ONE as int * se <= t * (sp + (k - 1)));
    }
}

/// The entries of a softmax vector are nonnegative and their total lies
/// within `len` rounding units below one.
pub proof fn lemma_softmax_sum(v: Seq<i64>)
    requires
        v.len() >= 1,
        forall|i: int| 0 <= i < v.len() ==> fx_ok(#[trigger] v[i] as int),
    ensures
        FX_ONE as int - v.len() < sp_isum(sp_softmax(v), v.len() as int),
        sp_isum(sp_softmax(v), v.len() as int) <= FX_ONE as int,
        forall|i: int| 0 <= i < v.len() ==> 0 <= #[trigger] sp_softmax(v)[i] <= FX_ONE as int,
{
    let n = v.len() as int;
    let e = sp_exps(v);
    let t = sp_isum(e, n);
    let p = sp_softmax(v);
    lemma_vmax_props(v);
    let m = sp_vmax(v);
    let jm = choose|i: int| 0 <= i < v.len() && v[i] as int == m;
    assert(fx_ok(m));
    assert forall|i: int| 0 <= i < e.len() implies 0 <= #[trigger] e[i] <= FX_ONE as int by {
        lemma_exp_unit_bounds(v[i] - m);
    }
    lemma_exp_unit_zero();
    assert(e[jm] == FX_ONE as int);
    lemma_isum_lower(e, jm, n);
    assert(t >= FX_ONE as int);
    lemma_floor_sum(e, p, t, n);
    let sp = sp_isum(p, n);
    assert(sp <= FX_ONE as int) by (nonlinear_arith)
        requires
            t > 0,
            t * sp <= FX_ONE as int * t,
    ;
    assert(FX_ONE as int - n < sp) by (nonlinear_arith)
        requires
            t > 0,
            FX_ONE as int * t < t * (sp + n),
    ;
    assert forall|i: int| 0 <= i < v.len() implies 0 <= #[trigger] p[i] <= FX_ONE as int by {
        lemma_div_pos_is_pos(e[i] * FX_ONE as int, t);
        assert(e[i] * FX_ONE as int <= FX_ONE as int * FX_ONE as int) by (nonlinear_arith)
            requires 0 <= e[i] <= FX_ONE as int;
        lemma_div_is_ordered(e[i] * FX_ONE as int, FX_ONE as int * FX_ONE as int, t);
        lemma_div_is_ordered_by_denominator(
            FX_ONE as int * FX_ONE as int,
            FX_ONE as int,
            t,
        );
        assert(FX_ONE as int * FX_ONE as int / (FX_ONE as int) == FX_ONE as int);
    }
}

/// Fixed-point logistic function.
pub fn sigmoid(x: i64) -> (r: i64)
    requires
        fx_ok(x as int),
    ensures
        r as int == sp_sigmoid(x as int),
        0 <= r <= FX_ONE,
{
    if x >= 0 {
        let e = exp_unit(-x);
        let num: u64 = (FX_ONE as u64) * (FX_ONE as u64);
        let den: u64 = (FX_ONE + e) as u64;
        let q: u64 = num / den;
        proof {
            lemma_div_is_ordered_by_denominator(
                FX_ONE as int * FX_ONE as int,
                FX_ONE as int,
                FX_ONE as int + e as int,
            );
            assert(FX_ONE as int * FX_ONE as int / (FX_ONE as int) == FX_ONE as int);
            lemma_div_pos_is_pos(FX_ONE as int * FX_ONE as int, FX_ONE as int + e as int);
        }
        q as i64
    } else {
        let e = exp_unit(x);
        let num: u64 = (e as u64) * (FX_ONE as u64);
        let den: u64 = (FX_ONE + e) as u64;
        let q: u64 = num / den;
        proof {
            assert(e as int * FX_ONE as int <= FX_ONE as int * FX_ONE as int)
                by (nonlinear_arith)
                requires 0 <= e as int <= FX_ONE as int;
            lemma_div_is_ordered(
                e as int * FX_ONE as int,
                FX_ONE as int * FX_ONE as int,
                FX_ONE as int + e as int,
            );
            lemma_div_is_ordered_by_denominator(
                FX_ONE as int * FX_ONE as int,
                FX_ONE as int,
                FX_ONE as int + e as int,
            );
            assert(FX_ONE as int * FX_ONE as int / (FX_ONE as int) == FX_ONE as int);
            lemma_div_pos_is_pos(e as int * FX_ONE as int, FX_ONE as int + e as int);
        }
        q as i64
    }
}

/// Softmax of a nonempty vector: exponentials of max-shifted entries,
/// normalised by their total.
fn softmax_vec(v: &Vec<i64>) -> (r: Vec<i64>)
    requires
        1 <= v@.len() <= MAXN,
        forall|i: int| 0 <= i < v@.len() ==> fx_ok(#[trigger] v@[i] as int),
    ensures
        r@.len() == v@.len(),
        forall|i: int| 0 <= i < r@.len() ==> #[trigger] r@[i] as int == sp_softmax(v@)[i],
        forall|i: int| 0 <= i < r@.len() ==> 0 <= #[trigger] r@[i] <= FX_ONE,
{
    let n = v.len();
    let mut m: i64 = v[0];
    let mut i: usize = 1;
    while i < n
        invariant
            1 <= i <= n,
            n == v@.len(),
            forall|k: int| 0 <= k < v@.len() ==> fx_ok(#[trigger] v@[k] as int),
            m as int == sp_vmax(v@.subrange(0, i as int)),
            fx_ok(m as int),
        decreases n - i,
    {
        proof {
            assert(v@.subrange(0, i as int + 1).drop_last() =~= v@.subrange(0, i as int));
            assert(v@.subrange(0, i as int + 1).last() == v@[i as int]);
        }
        if v[i] > m {
            m = v[i];
        }
        i += 1;
    }
    proof {
        assert(v@.subrange(0, n as int) =~= v@);
        lemma_vmax_props(v@);
    }
    let ghost es = sp_exps(v@);
    let mut e: Vec<i64> = Vec::new();
    let mut i: usize = 0;
    while i < n
        invariant
            i <= n,
            n == v@.len(),
            forall|k: int| 0 <= k < v@.len() ==> fx_ok(#[trigger] v@[k] as int),
            forall|k: int| 0 <= k < v@.len() ==> #[trigger] (v@[k] as int) <= m as int,
            m as int == sp_vmax(v@),
            fx_ok(m as int),
            es == sp_exps(v@),
            e@.len() == i,
            forall|k: int| 0 <= k < i ==> #[trigger] e@[k] as int == es[k],
            forall|k: int| 0 <= k < i ==> 0 <= #[trigger] e@[k] <= FX_ONE,
        decreases n - i,
    {
        let x = v[i] - m;
        let ex = exp_unit(x);
        e.push(ex);
        i += 1;
    }
    let mut t: i64 = 0;
    let mut i: usize = 0;
    while i < n
        invariant
            i <= n,
            n == v@.len(),
            e@.len() == n,
            es == sp_exps(v@),
            forall|k: int| 0 <= k < n ==> #[trigger] e@[k] as int == es[k],
            forall|k: int| 0 <= k < n ==> 0 <= #[trigger] e@[k] <= FX_ONE,
            n <= MAXN,
            t as int == sp_isum(es, i as int),
            0 <= t as int <= i as int * FX_ONE as int,
        decreases n - i,
    {
        proof {
            assert((i as int + 1) * FX_ONE as int == i as int * FX_ONE as int + FX_ONE as int)
                by (nonlinear_arith);
            assert((i as int + 1) * FX_ONE as int <= MAXN as int * FX_ONE as int)
                by (nonlinear_arith)
                requires i as int + 1 <= MAXN as int;
        }
        t = t + e[i];
        i += 1;
    }
    proof {
        lemma_exp_unit_zero();
        let jm = choose|k: int| 0 <= k < v@.len() && v@[k] as int == sp_vmax(v@);
        assert(es[jm] == FX_ONE as int);
        assert forall|k: int| 0 <= k < es.len() implies 0 <= #[trigger] es[k] by {
            lemma_exp_unit_bounds(v@[k] - sp_vmax(v@));
        }
        lemma_isum_lower(es, jm, n as int);
        assert(t >= FX_ONE);
    }
    let mut r: Vec<i64> = Vec::new();
    let mut i: usize = 0;
    while i < n
        invariant
            i <= n,
            n == v@.len(),
            e@.len() == n,
            es == sp_exps(v@),
            forall|k: int| 0 <= k < n ==> #[trigger] e@[k] as int == es[k],
            forall|k: int| 0 <= k < n ==> 0 <= #[trigger] e@[k] <= FX_ONE,
            t >= FX_ONE,
            t as int == sp_isum(es, n as int),
            r@.len() == i,
            forall|k: int| 0 <= k < i ==> #[trigger] r@[k] as int == sp_softmax(v@)[k],
            forall|k: int| 0 <= k < i ==> 0 <= #[trigger] r@[k] <= FX_ONE,
        decreases n - i,
    {
        proof {
            assert(e@[i as int] as int * FX_ONE as int <= FX_ONE as int * FX_ONE as int)
                by (nonlinear_arith)
                requires 0 <= e@[i as int] as int <= FX_ONE as int;
        }
        let num: u64 = (e[i] as u64) * (FX_ONE as u64);
        let q: u64 = num / (t as u64);
        proof {
            lemma_div_pos_is_pos(e@[i as int] as int * FX_ONE as int, t as int);
            lemma_div_is_ordered(
                e@[i as int] as int * FX_ONE as int,
                FX_ONE as int * FX_ONE as int,
                t as int,
            );
            lemma_div_is_ordered_by_denominator(
                FX_ONE as int * FX_ONE as int,
                FX_ONE as int,
                t as int,
            );
            assert(FX_ONE as int * FX_ONE as int / (FX_ONE as int) == FX_ONE as int);
        }
        r.push(q as i64);
        i += 1;
    }
    r
}

/// Apply an activation to a whole vector.
pub fn forward(v: Vec<i64>, a: Activation) -> (r: Vec<i64>)
    requires
        forall|i: int| 0 <= i < v@.len() ==> fx_ok(#[trigger] v@[i] as int),
        a is Softmax ==> 1 <= v@.len() <= MAXN,
    ensures
        r@.len() == v@.len(),
        forall|i: int| 0 <= i < r@.len() ==> fx_ok(#[trigger] r@[i] as int),
        a is Relu ==> forall|i: int| 0 <= i < r@.len() ==> #[trigger] r@[i] as int == sp_relu(
            v@[i] as int,
        ),
        a is Sigmoid ==> forall|i: int| 0 <= i < r@.len() ==> #[trigger] r@[i] as int
            == sp_sigmoid(v@[i] as int),
        a is Softmax ==> forall|i: int| 0 <= i < r@.len() ==> #[trigger] r@[i] as int
            == sp_softmax(v@)[i],
{
    match a {
        Activation::Relu => {
            let n = v.len();
            let mut r: Vec<i64> = Vec::new();
            let mut i: usize = 0;
            while i < n
                invariant
                    i <= n,
                    n == v@.len(),
                    forall|k: int| 0 <= k < v@.len() ==> fx_ok(#[trigger] v@[k] as int),
                    r@.len() == i,
                    forall|k: int| 0 <= k < i ==> #[trigger] r@[k] as int == sp_relu(v@[k] as int),
                    forall|k: int| 0 <= k < i ==> fx_ok(#[trigger] r@[k] as int),
                decreases n - i,
            {
                let x = v[i];
                r.push(if x > 0 { x } else { 0 });
                i += 1;
            }
            r
        },
        Activation::Sigmoid => {
            let n = v.len();
            let mut r: Vec<i64> = Vec::new();
            let mut i: usize = 0;
            while i < n
                invariant
                    i <= n,
                    n == v@.len(),
                    forall|k: int| 0 <= k < v@.len() ==> fx_ok(#[trigger] v@[k] as int),
                    r@.len() == i,
                    forall|k: int| 0 <= k < i ==> #[trigger] r@[k] as int == sp_sigmoid(
                        v@[k] as int,
                    ),
                    forall|k: int| 0 <= k < i ==> fx_ok(#[trigger] r@[k] as int),
                decreases n - i,
            {
                r.push(sigmoid(v[i]));
                i += 1;
            }
            r
        },
        Activation::Softmax => softmax_vec(&v),
    }
}

/// Apply an activation's derivative to a whole vector. For the rectifier
/// and the logistic function the argument is the activated value; softmax
/// deliberately returns all ones, because the network computes the combined
/// softmax and cross-entropy gradient upstream.
pub fn backward(v: Vec<i64>, a: Activation) -> (r: Vec<i64>)
    requires
        forall|i: int| 0 <= i < v@.len() ==> fx_ok(#[trigger] v@[i] as int),
    ensures
        r@.len() == v@.len(),
        forall|i: int| 0 <= i < r@.len() ==> fx_ok(#[trigger] r@[i] as int),
        a is Relu ==> forall|i: int| 0 <= i < r@.len() ==> #[trigger] r@[i] as int
            == sp_relu_deriv(v@[i] as int),
        a is Sigmoid ==> forall|i: int| 0 <= i < r@.len() ==> #[trigger] r@[i] as int
            == sp_sigmoid_deriv(v@[i] as int),
        a is Softmax ==> forall|i: int| 0 <= i < r@.len() ==> #[trigger] r@[i] as int
            == FX_ONE as int,
{
    let n = v.len();
    let mut r: Vec<i64> = Vec::new();
    let mut i: usize = 0;
    while i < n
        invariant
            i <= n,
            n == v@.len(),
            forall|k: int| 0 <= k < v@.len() ==> fx_ok(#[trigger] v@[k] as int),
            r@.len() == i,
            forall|k: int| 0 <= k < i ==> fx_ok(#[trigger] r@[k] as int),
            a is Relu ==> forall|k: int| 0 <= k < i ==> #[trigger] r@[k] as int == sp_relu_deriv(
                v@[k] as int,
            ),
            a is Sigmoid ==> forall|k: int| 0 <= k < i ==> #[trigger] r@[k] as int
                == sp_sigmoid_deriv(v@[k] as int),
            a is Softmax ==> forall|k: int| 0 <= k < i ==> #[trigger] r@[k] as int
                == FX_ONE as int,
        decreases n - i,
    {
        let x = v[i];
        let d = match a {
            Activation::Relu => if x > 0 { FX_ONE } else { 0 },
            Activation::Sigmoid => fx_mul(x, fx_sub(FX_ONE, x)),
            Activation::Softmax => FX_ONE,
        };
        r.push(d);
        i += 1;
    }
    r
}

} // verus!
