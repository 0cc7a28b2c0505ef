//! Fixed-point arithmetic for the kernel's real-valued quantities.
//!
//! Signals, weights, pressures, fitness and confidence are all scaled
//! integers: the real value `1.0` is stored as [`SCALE`].  Products and sums
//! saturate at the `i64` range, and every operation has an exact
//! specification, so the kernel's rules (strict pressure reduction, decay,
//! smoothing) can be stated without floating point.

use vstd::prelude::*;

verus! {

/// The fixed-point unit: a real value `x` is stored as `x * SCALE`.
pub const SCALE: i64 = 1_000_000_000;

/// Strict-improvement tolerance: one fixed-point unit, i.e. `1e-9`.
pub const EPSILON: i64 = 1;

/// Magnitude of an integer.
pub open spec fn mag(a: int) -> int {
    if a < 0 {
        -a
    } else {
        a
    }
}

/// Clamp a non-negative magnitude to the largest representable value.
pub open spec fn clamp_mag(m: int) -> int {
    if m > i64::MAX {
        i64::MAX as int
    } else {
        m
    }
}

/// Clamp an integer to the `i64` range.
pub open spec fn clamp64(x: int) -> int {
    if x > i64::MAX {
        i64::MAX as int
    } else if x < i64::MIN {
        i64::MIN as int
    } else {
        x
    }
}

/// Saturating fixed-point product: `a * b / SCALE`, truncated toward zero,
/// with the magnitude clamped to `i64::MAX`.
pub open spec fn smul(a: int, b: int) -> int {
    let m = clamp_mag((mag(a) * mag(b)) / (SCALE as int));
    if (a < 0) == (b < 0) {
        m
    } else {
        -m
    }
}

/// Saturating sum.
pub open spec fn sadd(a: int, b: int) -> int {
    clamp64(a + b)
}

/// Saturating difference.
pub open spec fn ssub(a: int, b: int) -> int {
    clamp64(a - b)
}

/// Exponential decay with half-life `h`, as a factor in `[0, SCALE]`.
///
/// `dt / h` whole half-lives each halve the factor exactly; the remainder
/// is interpolated linearly between neighbouring powers of two.  `h == 0`
/// is the sentinel for "decay disabled" and yields the identity factor.
pub open spec fn spec_decay_factor(dt: int, h: int) -> int {
    if h <= 0 {
        SCALE as int
    } else {
        let base = halvings(SCALE as int, (dt / h) as nat);
        base - (base * (dt % h)) / (2 * h)
    }
}

/// `x` halved (rounding down) `k` times.
pub open spec fn halvings(x: int, k: nat) -> int
    decreases k,
{
    if k == 0 {
        x
    } else {
        halvings(x, (k - 1) as nat) / 2
    }
}

/// The decayed value of `v` after `dt` milliseconds at half-life `h`.
pub open spec fn spec_decayed(v: int, dt: int, h: int) -> int {
    smul(v, spec_decay_factor(dt, h))
}

/// Exponential-moving-average blend of `old_v` toward `new_v` with
/// coefficient `alpha` (scaled): `old + alpha * (new - old)`.
pub open spec fn spec_ema(alpha: int, old_v: int, new_v: int) -> int {
    sadd(old_v, smul(alpha, ssub(new_v, old_v)))
}

/// Saturating addition.
pub fn add_sat(a: i64, b: i64) -> (r: i64)
    ensures
        r as int == sadd(a as int, b as int),
{
    match a.checked_add(b) {
        Some(v) => v,
        None => if a > 0 {
            i64::MAX
        } else {
            i64::MIN
        },
    }
}

/// Saturating subtraction.
pub fn sub_sat(a: i64, b: i64) -> (r: i64)
    ensures
        r as int == ssub(a as int, b as int),
{
    match a.checked_sub(b) {
        Some(v) => v,
        None => if a >= 0 {
            i64::MAX
        } else {
            i64::MIN
        },
    }
}

/// Magnitude of an `i64`, widened so that `i64::MIN` is representable.
fn mag_u128(a: i64) -> (m: u128)
    ensures
        m as int == mag(a as int),
{
    if a >= 0 {
        a as u128
    } else {
        let w: i128 = a as i128;
        (-w) as u128
    }
}

/// Saturating fixed-point multiplication.
pub fn mul_scaled(a: i64, b: i64) -> (r: i64)
    ensures
        r as int == smul(a as int, b as int),
{
    let neg: bool = (a < 0) != (b < 0);
    let ma: u128 = mag_u128(a);
    let mb: u128 = mag_u128(b);
    proof {
        assert(ma * mb <= 0x8000_0000_0000_0000u128 * 0x8000_0000_0000_0000u128)
            by (nonlinear_arith)
            requires
                ma <= 0x8000_0000_0000_0000u128,
                mb <= 0x8000_0000_0000_0000u128,
        ;
    }
    let p: u128 = ma * mb;
    let q: u128 = p / 1_000_000_000u128;
    let m: i64 = if q > i64::MAX as u128 {
        i64::MAX
    } else {
        q as i64
    };
    if neg {
        -m
    } else {
        m
    }
}

/// Multiplying by the unit factor is the identity.
pub proof fn lemma_smul_identity(a: int)
    requires
        -i64::MAX <= a <= i64::MAX,
    ensures
        smul(a, SCALE as int) == a,
{
    vstd::arithmetic::div_mod::lemma_div_multiples_vanish(mag(a), SCALE as int);
    assert(mag(a) * (SCALE as int) == (SCALE as int) * mag(a)) by (nonlinear_arith);
}

/// Multiplying by a zero factor yields zero.
pub proof fn lemma_smul_zero(a: int)
    ensures
        smul(a, 0) == 0,
{
    assert(mag(a) * 0 == 0) by (nonlinear_arith);
}

/// The fixed-point product of non-negative factors is non-negative, and
/// bounded by the first factor when the second is at most the unit.
pub proof fn lemma_smul_factor_bounds(a: int, f: int)
    requires
        0 <= a <= i64::MAX,
        0 <= f <= SCALE as int,
    ensures
        0 <= smul(a, f) <= a,
{
    let p = a * f;
    assert(0 <= p) by (nonlinear_arith)
        requires
            p == a * f,
            0 <= a,
            0 <= f,
    ;
    assert(p <= a * (SCALE as int)) by (nonlinear_arith)
        requires
            p == a * f,
            0 <= a,
            f <= SCALE as int,
    ;
    vstd::arithmetic::div_mod::lemma_div_is_ordered(p, a * (SCALE as int), SCALE as int);
    vstd::arithmetic::div_mod::lemma_div_multiples_vanish(a, SCALE as int);
    assert(a * (SCALE as int) == (SCALE as int) * a) by (nonlinear_arith);
    vstd::arithmetic::div_mod::lemma_div_pos_is_pos(p, SCALE as int);
}

/// Once halving reaches zero it stays there.
proof fn lemma_halvings_zero(x: int, j: nat, k: nat)
    requires
        halvings(x, j) == 0,
        j <= k,
    ensures
        halvings(x, k) == 0,
    decreases k - j,
{
    if j < k {
        lemma_halvings_zero(x, j, (k - 1) as nat);
    }
}

/// Every prefix of halvings of a non-negative value stays non-negative
/// and never grows.
proof fn lemma_halvings_bounded(x: int, k: nat)
    requires
        0 <= x,
    ensures
        0 <= halvings(x, k) <= x,
    decreases k,
{
    if k > 0 {
        lemma_halvings_bounded(x, (k - 1) as nat);
    }
}

/// Halving `k+1` times is halving once, then `k` times.
proof fn lemma_halvings_shift(x: int, k: nat)
    ensures
        halvings(x, (k + 1) as nat) == halvings(x / 2, k),
    decreases k,
{
    if k == 0 {
        assert(halvings(x, 1) == halvings(x, 0) / 2);
    } else {
        lemma_halvings_shift(x, (k - 1) as nat);
        assert(halvings(x, (k + 1) as nat) == halvings(x, k) / 2);
        assert(halvings(x / 2, k) == halvings(x / 2, (k - 1) as nat) / 2);
    }
}

/// Halving a value below `2^k` at least `k` times exhausts it.
proof fn lemma_halvings_underflow(x: int, k: nat)
    requires
        0 <= x < vstd::arithmetic::power2::pow2(k),
    ensures
        halvings(x, k) == 0,
    decreases k,
{
    if k == 0 {
        assert(vstd::arithmetic::power2::pow2(0) == 1) by {
            vstd::arithmetic::power2::lemma2_to64();
        }
    } else {
        let h = vstd::arithmetic::power2::pow2((k - 1) as nat);
        vstd::arithmetic::power2::lemma_pow2_unfold(k);
        vstd::arithmetic::power2::lemma_pow2_pos((k - 1) as nat);
        vstd::arithmetic::div_mod::lemma_multiply_divide_lt(x, 2, h as int);
        vstd::arithmetic::div_mod::lemma_div_pos_is_pos(x, 2);
        lemma_halvings_shift(x, (k - 1) as nat);
        lemma_halvings_underflow(x / 2, (k - 1) as nat);
    }
}

/// Exponential decay factor for `dt` milliseconds at half-life `half_life`.
pub fn decay_factor(dt: u64, half_life: u64) -> (f: i64)
    ensures
        f as int == spec_decay_factor(dt as int, half_life as int),
        0 <= f <= SCALE,
        half_life == 0 ==> f == SCALE,
        dt == 0 ==> f == SCALE,
{
    if half_life == 0 {
        return SCALE;
    }
    let k: u64 = dt / half_life;
    let rem: u64 = dt % half_life;
    proof {
        if dt == 0 {
            vstd::arithmetic::div_mod::lemma_div_of0(half_life as int);
            vstd::arithmetic::div_mod::lemma_small_mod(0, half_life as nat);
        }
    }
    let cap: u64 = if k > 40 {
        40
    } else {
        k
    };
    let mut base: u64 = 1_000_000_000;
    let mut i: u64 = 0;
    while i < cap
        invariant
            i <= cap,
            base as int == halvings(SCALE as int, i as nat),
            0 <= base <= 1_000_000_000,
        decreases cap - i,
    {
        proof {
            lemma_halvings_bounded(SCALE as int, (i + 1) as nat);
        }
        base = base / 2;
        i = i + 1;
    }
    proof {
        if k > 40 {
            vstd::arithmetic::power2::lemma2_to64();
            lemma_halvings_underflow(SCALE as int, 32);
            lemma_halvings_zero(SCALE as int, 32, 40);
            lemma_halvings_zero(SCALE as int, 40, k as nat);
        }
    }
    proof {
        assert((base as int) * (rem as int) <= 1_000_000_000 * 0xffff_ffff_ffff_ffffu64)
            by (nonlinear_arith)
            requires
                0 <= (base as int) <= 1_000_000_000,
                0 <= (rem as int) <= 0xffff_ffff_ffff_ffffu64,
        ;
    }
    let num: u128 = (base as u128) * (rem as u128);
    let den: u128 = 2 * (half_life as u128);
    let frac: u128 = num / den;
    proof {
        assert(num < (den as int) * ((base as int) + 1)) by (nonlinear_arith)
            requires
                num == (base as int) * (rem as int),
                0 <= (rem as int),
                (rem as int) < (den as int),
                0 <= (base as int),
        ;
        vstd::arithmetic::div_mod::lemma_multiply_divide_lt(num as int, den as int, (base as int) + 1);
        vstd::arithmetic::div_mod::lemma_div_pos_is_pos(num as int, den as int);
        if rem == 0 {
            assert(num == (base as int) * 0 == 0) by (nonlinear_arith)
                requires
                    num == (base as int) * (rem as int),
                    rem == 0,
            ;
            vstd::arithmetic::div_mod::lemma_div_of0(den as int);
        }
    }
    let f: u64 = base - frac as u64;
    f as i64
}

/// Blending a value with itself is the identity: the smoothed signal does
/// not drift when measurements repeat.
pub proof fn lemma_ema_fixpoint(alpha: int, v: int)
    requires
        i64::MIN <= v <= i64::MAX,
    ensures
        spec_ema(alpha, v, v) == v,
{
    lemma_smul_zero(alpha);
}

/// Exponential-moving-average blend.
pub fn ema_blend(alpha: i64, old_v: i64, new_v: i64) -> (r: i64)
    ensures
        r as int == spec_ema(alpha as int, old_v as int, new_v as int),
        new_v == old_v ==> r == old_v,
{
    proof {
        if new_v == old_v {
            lemma_ema_fixpoint(alpha as int, old_v as int);
        }
    }
    add_sat(old_v, mul_scaled(alpha, sub_sat(new_v, old_v)))
}

} // verus!
