//! Saturating fixed-point scalar arithmetic.
//!
//! Every numeric value handled by the network is an `i64` holding a real
//! number scaled by `FX_ONE` (24 fractional bits). All operations truncate
//! toward zero and saturate at `FX_MAX`, so no operation can overflow and
//! every result is pinned down exactly by the matching spec function.

use vstd::prelude::*;
use vstd::arithmetic::div_mod::{lemma_div_is_ordered, lemma_div_multiples_vanish};

verus! {

/// Scale factor: the fixed-point representation of 1.0.
pub const FX_ONE: i64 = 0x100_0000;

/// Saturation bound: every stored scalar lies in `[-FX_MAX, FX_MAX]`.
pub const FX_MAX: i64 = 0x100_0000_0000;

/// Wide internal scale used by `exp_unit` (48 fractional bits).
pub const FX_WIDE: i64 = 0x1_0000_0000_0000;

/// Largest element count of any tensor or vector the engine handles; keeps
/// every accumulated sum within `i64`.
pub const MAXN: usize = 0x10_0000;

/// A scalar is well formed when it lies within the saturation bounds.
pub open spec fn fx_ok(x: int) -> bool {
    -(FX_MAX as int) <= x <= FX_MAX as int
}

pub open spec fn sp_abs(x: int) -> int {
    if x >= 0 { x } else { -x }
}

/// Saturate a mathematical integer into the representable range.
pub open spec fn sp_clip(x: int) -> int {
    if x > FX_MAX as int {
        FX_MAX as int
    } else if x < -(FX_MAX as int) {
        -(FX_MAX as int)
    } else {
        x
    }
}

/// Division truncating toward zero (the scheme used by every scaled op),
/// defined for positive divisors.
pub open spec fn sp_tz(x: int, d: int) -> int
    recommends d > 0,
{
    if x >= 0 { x / d } else { -((-x) / d) }
}

pub open spec fn sp_add(a: int, b: int) -> int {
    sp_clip(a + b)
}

pub open spec fn sp_sub(a: int, b: int) -> int {
    sp_clip(a - b)
}

/// Scaled product: `(a * b) / FX_ONE`, truncated toward zero, saturated.
pub open spec fn sp_mul(a: int, b: int) -> int {
    sp_clip(sp_tz(a * b, FX_ONE as int))
}

/// Scaled quotient: `(a * FX_ONE) / b`, truncated toward zero, saturated.
pub open spec fn sp_div(a: int, b: int) -> int
    recommends b != 0,
{
    if b > 0 {
        sp_clip(sp_tz(a * FX_ONE, b))
    } else {
        sp_clip(-sp_tz(a * FX_ONE, -b))
    }
}

/// Plain integer division of a scalar by a positive count (mini-batch size),
/// truncated toward zero.
pub open spec fn sp_divn(x: int, n: int) -> int
    recommends n > 0,
{
    sp_tz(x, n)
}

proof fn lemma_abs_mul(a: int, b: int)
    ensures
        sp_abs(a) * sp_abs(b) == sp_abs(a * b),
        a * b >= 0 <==> (a >= 0 && b >= 0) || (a <= 0 && b <= 0),
{
    assert(sp_abs(a) * sp_abs(b) == sp_abs(a * b) && (a * b >= 0 <==> (a >= 0 && b >= 0) || (a
        <= 0 && b <= 0))) by (nonlinear_arith);
}

/// Saturate an `i64` into the representable range.
pub fn clip(x: i64) -> (r: i64)
    ensures
        r as int == sp_clip(x as int),
        fx_ok(r as int),
{
    if x > FX_MAX {
        FX_MAX
    } else if x < -FX_MAX {
        -FX_MAX
    } else {
        x
    }
}

/// Magnitude of a well-formed scalar.
fn mag(x: i64) -> (r: u64)
    requires
        fx_ok(x as int),
    ensures
        r as int == sp_abs(x as int),
{
    if x < 0 { (-x) as u64 } else { x as u64 }
}

/// Saturating addition.
pub fn fx_add(a: i64, b: i64) -> (r: i64)
    requires
        fx_ok(a as int),
        fx_ok(b as int),
    ensures
        r as int == sp_add(a as int, b as int),
        fx_ok(r as int),
{
    clip(a + b)
}

/// Saturating subtraction.
pub fn fx_sub(a: i64, b: i64) -> (r: i64)
    requires
        fx_ok(a as int),
        fx_ok(b as int),
    ensures
        r as int == sp_sub(a as int, b as int),
        fx_ok(r as int),
{
    clip(a - b)
}

/// Saturating scaled multiplication.
pub fn fx_mul(a: i64, b: i64) -> (r: i64)
    requires
        fx_ok(a as int),
        fx_ok(b as int),
    ensures
        r as int == sp_mul(a as int, b as int),
        fx_ok(r as int),
{
    let neg: bool = (a < 0) != (b < 0);
    let ma: u128 = mag(a) as u128;
    let mb: u128 = mag(b) as u128;
    proof {
        lemma_abs_mul(a as int, b as int);
        assert(ma * mb <= 0x100_0000_0000u128 * 0x100_0000_0000u128) by (nonlinear_arith)
            requires ma <= 0x100_0000_0000u128 && mb <= 0x100_0000_0000u128;
    }
    let q: u128 = (ma * mb) / (FX_ONE as u128);
    proof {
        lemma_div_is_ordered(
            (ma * mb) as int,
            0x100_0000_0000int * 0x100_0000_0000int,
            FX_ONE as int,
        );
    }
    let qi: i64 = q as i64;
    if neg {
        proof {
            assert(sp_tz(a as int * b as int, FX_ONE as int) == -(qi as int));
        }
        clip(-qi)
    } else {
        proof {
            assert(sp_tz(a as int * b as int, FX_ONE as int) == qi as int);
        }
        clip(qi)
    }
}

/// Saturating scaled division; the divisor must be nonzero.
pub fn fx_div(a: i64, b: i64) -> (r: i64)
    requires
        fx_ok(a as int),
        fx_ok(b as int),
        b != 0,
    ensures
        r as int == sp_div(a as int, b as int),
        fx_ok(r as int),
{
    let neg: bool = (a < 0) != (b < 0);
    let ma: u128 = mag(a) as u128;
    let mb: u128 = mag(b) as u128;
    let q: u128 = (ma * (FX_ONE as u128)) / mb;
    proof {
        lemma_abs_mul(a as int, FX_ONE as int);
        assert(ma * (FX_ONE as u128) <= 0x100_0000_0000u128 * 0x100_0000u128)
            by (nonlinear_arith)
            requires ma <= 0x100_0000_0000u128;
    }
    let qc: i64 = if q > FX_MAX as u128 { FX_MAX } else { q as i64 };
    proof {
        let sa = sp_abs(a as int) * FX_ONE as int;
        let sb = sp_abs(b as int);
        assert(q as int == sa / sb);
        if b > 0 {
            if a >= 0 {
                assert(sp_tz(a as int * FX_ONE as int, b as int) == q as int);
            } else {
                assert(sp_tz(a as int * FX_ONE as int, b as int) == -(q as int));
            }
        } else {
            if a >= 0 {
                assert(sp_tz(a as int * FX_ONE as int, -(b as int)) == q as int);
            } else {
                assert(sp_tz(a as int * FX_ONE as int, -(b as int)) == -(q as int));
            }
        }
    }
    if neg {
        if qc == FX_MAX {
            -FX_MAX
        } else {
            -qc
        }
    } else {
        qc
    }
}

/// Truncated division of a scalar by a positive count.
pub fn fx_divn(x: i64, n: u64) -> (r: i64)
    requires
        fx_ok(x as int),
        n >= 1,
    ensures
        r as int == sp_divn(x as int, n as int),
        fx_ok(r as int),
{
    let m: u64 = mag(x);
    let q: u64 = m / n;
    proof {
        lemma_div_is_ordered(q as int, m as int, 1);
        assert(q <= m);
    }
    if x < 0 {
        -(q as i64)
    } else {
        q as i64
    }
}

/// The (unique) integer square root of a nonnegative integer.
pub open spec fn sp_sqrt(x: int) -> int
    recommends x >= 0,
{
    choose|r: int| 0 <= r && #[trigger] (r * r) <= x && x < (r + 1) * (r + 1)
}

proof fn lemma_sqrt_unique(x: int, r1: int, r2: int)
    requires
        0 <= r1 && r1 * r1 <= x && x < (r1 + 1) * (r1 + 1),
        0 <= r2 && r2 * r2 <= x && x < (r2 + 1) * (r2 + 1),
    ensures
        r1 == r2,
{
    assert(r1 == r2) by (nonlinear_arith)
        requires
            0 <= r1 && r1 * r1 <= x && x < (r1 + 1) * (r1 + 1),
            0 <= r2 && r2 * r2 <= x && x < (r2 + 1) * (r2 + 1);
}

/// Integer square root by bisection.
fn isqrt(x: u128) -> (r: u64)
    requires
        x <= 0x1_0000_0000_0000_0000u128,
    ensures
        r as int * r as int <= x as int,
        (x as int) < (r as int + 1) * (r as int + 1),
{
    let mut lo: u64 = 0;
    let mut hi: u64 = 0x1_0000_0000;
    proof {
        assert((0x1_0000_0000u64 as int + 1) * (0x1_0000_0000u64 as int + 1) > x as int)
            by (nonlinear_arith)
            requires x <= 0x1_0000_0000_0000_0000u128;
    }
    while lo < hi
        invariant
            lo <= hi <= 0x1_0000_0000,
            lo as int * lo as int <= x as int,
            (x as int) < (hi as int + 1) * (hi as int + 1),
        decreases hi - lo,
    {
        let mid: u64 = lo + (hi - lo + 1) / 2;
        proof {
            assert((mid as u128) * (mid as u128) <= 0x1_0000_0000u128 * 0x1_0000_0000u128)
                by (nonlinear_arith)
                requires mid <= 0x1_0000_0000u64;
        }
        let sq: u128 = (mid as u128) * (mid as u128);
        if sq <= x {
            lo = mid;
        } else {
            hi = mid - 1;
        }
    }
    lo
}

/// Fixed-point square root: the integer square root of `v * FX_ONE`, which
/// is the scaled representation of the real square root (rounded down).
pub fn fx_sqrt(v: i64) -> (r: i64)
    requires
        0 <= v <= FX_MAX,
    ensures
        r as int == sp_sqrt(v as int * FX_ONE as int),
        0 <= r <= FX_MAX,
{
    let p: u128 = (v as u128) * (FX_ONE as u128);
    proof {
        assert((v as u128) * (FX_ONE as u128) <= 0x100_0000_0000u128 * 0x100_0000u128)
            by (nonlinear_arith)
            requires v as u128 <= 0x100_0000_0000u128;
    }
    let r: u64 = isqrt(p);
    proof {
        let x = v as int * FX_ONE as int;
        assert(0 <= r as int && r as int * r as int <= x && x < (r as int + 1) * (r as int + 1));
        lemma_sqrt_unique(x, r as int, sp_sqrt(x));
        assert(r as int * r as int <= 0x100_0000_0000 * 0x100_0000);
        assert(r as int <= FX_MAX as int) by (nonlinear_arith)
            requires
                r as int >= 0,
                r as int * r as int <= 0x100_0000_0000 * 0x100_0000;
    }
    r as i64
}

/// One squaring step at the wide scale.
pub open spec fn sp_sq_step(y: int) -> int {
    (y * y) / (FX_WIDE as int)
}

/// `n` squaring steps applied to `y`.
pub open spec fn sp_sq_iter(y: int, n: nat) -> int
    decreases n,
{
    if n == 0 { y } else { sp_sq_iter(sp_sq_step(y), (n - 1) as nat) }
}

/// The exponential of a nonpositive scalar, computed as
/// `(1 + x / 2^24)^(2^24)` at the wide scale and truncated back.
pub open spec fn sp_exp_unit(x: int) -> int {
    sp_sq_iter(FX_WIDE as int + x, 24) / (FX_ONE as int)
}

proof fn lemma_sq_iter_step(y: int, n: nat)
    ensures
        sp_sq_iter(y, n + 1) == sp_sq_step(sp_sq_iter(y, n)),
    decreases n,
{
    assert(sp_sq_iter(y, n + 1) == sp_sq_iter(sp_sq_step(y), n));
    if n == 0 {
        assert(sp_sq_iter(y, 1) == sp_sq_step(y));
    } else {
        lemma_sq_iter_step(sp_sq_step(y), (n - 1) as nat);
        assert(sp_sq_iter(y, n) == sp_sq_iter(sp_sq_step(y), (n - 1) as nat));
    }
}

proof fn lemma_sq_step_bounds(y: int)
    requires
        0 <= y <= FX_WIDE as int,
    ensures
        0 <= sp_sq_step(y) <= FX_WIDE as int,
{
    assert(y * y <= FX_WIDE as int * FX_WIDE as int) by (nonlinear_arith)
        requires 0 <= y <= FX_WIDE as int;
    assert(y * y >= 0) by (nonlinear_arith)
        requires y >= 0;
    lemma_div_is_ordered(y * y, FX_WIDE as int * FX_WIDE as int, FX_WIDE as int);
    lemma_div_multiples_vanish(FX_WIDE as int, FX_WIDE as int);
}

/// A scaled product of nonnegative factors is nonnegative.
pub proof fn lemma_sp_mul_nonneg(a: int, b: int)
    requires
        a >= 0,
        b >= 0,
    ensures
        sp_mul(a, b) >= 0,
{
    assert(a * b >= 0) by (nonlinear_arith)
        requires a >= 0 && b >= 0;
    if a * b > 0 {
        vstd::arithmetic::div_mod::lemma_div_pos_is_pos(a * b, FX_ONE as int);
    }
}

/// A scaled square is nonnegative.
pub proof fn lemma_sp_mul_square(g: int)
    ensures
        sp_mul(g, g) >= 0,
{
    assert(g * g >= 0) by (nonlinear_arith);
    if g * g > 0 {
        vstd::arithmetic::div_mod::lemma_div_pos_is_pos(g * g, FX_ONE as int);
    }
}

/// A scaled quotient of a nonnegative value by a positive one is
/// nonnegative.
pub proof fn lemma_sp_div_nonneg(a: int, b: int)
    requires
        a >= 0,
        b > 0,
    ensures
        sp_div(a, b) >= 0,
{
    assert(a * FX_ONE as int >= 0) by (nonlinear_arith)
        requires a >= 0;
    vstd::arithmetic::div_mod::lemma_div_pos_is_pos(a * FX_ONE as int, b);
}

/// Multiplying by a factor of at most one cannot raise a nonnegative value.
pub proof fn lemma_sp_mul_upper(a: int, b: int)
    requires
        0 <= a <= FX_ONE as int,
        0 <= b <= FX_MAX as int,
    ensures
        sp_mul(a, b) <= b,
        sp_mul(a, b) >= 0,
{
    lemma_sp_mul_nonneg(a, b);
    assert(a * b <= FX_ONE as int * b) by (nonlinear_arith)
        requires 0 <= a <= FX_ONE as int && b >= 0;
    lemma_div_is_ordered(a * b, FX_ONE as int * b, FX_ONE as int);
    assert(FX_ONE as int * b == b * FX_ONE as int) by (nonlinear_arith);
    vstd::arithmetic::div_mod::lemma_div_by_multiple(b, FX_ONE as int);
}

proof fn lemma_sq_iter_fixed(n: nat)
    ensures
        sp_sq_iter(FX_WIDE as int, n) == FX_WIDE as int,
    decreases n,
{
    if n > 0 {
        lemma_div_multiples_vanish(FX_WIDE as int, FX_WIDE as int);
        lemma_sq_iter_fixed((n - 1) as nat);
    }
}

/// At zero the fixed-point exponential is exactly one.
pub proof fn lemma_exp_unit_zero()
    ensures
        sp_exp_unit(0) == FX_ONE as int,
{
    lemma_sq_iter_fixed(24);
}

proof fn lemma_sq_iter_bounds(y: int, n: nat)
    requires
        0 <= y <= FX_WIDE as int,
    ensures
        0 <= sp_sq_iter(y, n) <= FX_WIDE as int,
    decreases n,
{
    if n > 0 {
        lemma_sq_step_bounds(y);
        lemma_sq_iter_bounds(sp_sq_step(y), (n - 1) as nat);
    }
}

/// The fixed-point exponential of a nonpositive argument lies in `[0, FX_ONE]`.
pub proof fn lemma_exp_unit_bounds(x: int)
    requires
        -2 * (FX_MAX as int) <= x <= 0,
    ensures
        0 <= sp_exp_unit(x) <= FX_ONE as int,
{
    lemma_sq_iter_bounds(FX_WIDE as int + x, 24);
    lemma_div_is_ordered(sp_sq_iter(FX_WIDE as int + x, 24), FX_WIDE as int, FX_ONE as int);
    assert(FX_WIDE as int / FX_ONE as int == FX_ONE as int);
    assert(sp_sq_iter(FX_WIDE as int + x, 24) / (FX_ONE as int) >= 0) by {
        vstd::arithmetic::div_mod::lemma_div_pos_is_pos(
            sp_sq_iter(FX_WIDE as int + x, 24),
            FX_ONE as int,
        );
    }
}

/// Fixed-point `e^x` for `x <= 0`. The result lies in `[0, FX_ONE]` and is
/// exactly `FX_ONE` at `x == 0`.
pub fn exp_unit(x: i64) -> (r: i64)
    requires
        -2 * (FX_MAX as int) <= x as int <= 0,
    ensures
        r as int == sp_exp_unit(x as int),
        0 <= r <= FX_ONE,
        x == 0 ==> r == FX_ONE,
{
    let y0: i64 = FX_WIDE + x;
    let mut y: u128 = y0 as u128;
    let mut i: usize = 0;
    while i < 24
        invariant
            i <= 24,
            0 <= y <= FX_WIDE as u128,
            y as int == sp_sq_iter(y0 as int, i as nat),
            x == 0 ==> y == FX_WIDE as u128,
        decreases 24 - i,
    {
        proof {
            lemma_sq_step_bounds(y as int);
            lemma_sq_iter_step(y0 as int, i as nat);
            assert(y * y <= (FX_WIDE as u128) * (FX_WIDE as u128)) by (nonlinear_arith)
                requires y <= FX_WIDE as u128;
            if x == 0 {
                lemma_div_multiples_vanish(FX_WIDE as int, FX_WIDE as int);
            }
        }
        y = (y * y) / (FX_WIDE as u128);
        i += 1;
    }
    let r: u128 = y / (FX_ONE as u128);
    proof {
        lemma_div_is_ordered(y as int, FX_WIDE as int, FX_ONE as int);
        assert(FX_WIDE as int / FX_ONE as int == FX_ONE as int);
    }
    r as i64
}

} // verus!
