//! Fixed-point square root, gaussian and trigonometric kernels.
//!
//! The brush kernel needs `exp(-x)`, the stamp rotation needs `sin`/`cos`,
//! and speeds and distances need a square root. Each is computed here as an
//! exact integer function (a truncated series, the Bhaskara I approximation,
//! and the integer square root), with a spec-level mirror so that every
//! caller's contract can name the precise value.

use vstd::prelude::*;
use vstd::arithmetic::div_mod::lemma_fundamental_div_mod;
use vstd::arithmetic::div_mod::lemma_fundamental_div_mod_converse_mod;
use vstd::arithmetic::div_mod::lemma_mod_division_less_than_divisor;
use vstd::arithmetic::div_mod::lemma_div_multiples_vanish;
use vstd::arithmetic::div_mod::lemma_mul_hoist_inequality;
use crate::fx::ONE;
use crate::fx::BIG;
use crate::fx::tdiv_s;
use crate::fx::fmul_s;
use crate::fx::fdiv_s;
use crate::fx::clamp01_s;
use crate::fx::fmul;
use crate::fx::fdiv;
use crate::fx::tdivq;
use crate::fx::clamp01;
use crate::fx::lemma_tdiv_bounds;
use crate::fx::lemma_tdiv_mono;
use crate::fx::lemma_fmul_le_left;
use crate::fx::lemma_fmul_mono_right;
use crate::fx::lemma_fmul_nonneg;
use crate::fx::lemma_fmul_range;

verus! {

/// pi in Q16.16.
pub const PI_FX: i64 = 205887;

/// 2*pi, kept as exactly twice `PI_FX` so that the two half-waves of the
/// sine partition a full period.
pub const TWO_PI_FX: i64 = 2 * PI_FX;

/// pi/2 in Q16.16.
pub const PI_HALF_FX: i64 = 102944;

/// exp(-1) in Q16.16.
pub const EXP_NEG1: i64 = 24109;

/// Integer square root: the unique `r` with `r * r <= n < (r + 1) * (r + 1)`.
pub open spec fn isqrt_s(n: nat) -> nat
    decreases n,
{
    if n == 0 {
        0
    } else {
        let p = isqrt_s((n - 1) as nat);
        if (p + 1) * (p + 1) <= n {
            p + 1
        } else {
            p
        }
    }
}

pub proof fn lemma_isqrt_bracket(n: nat)
    ensures
        isqrt_s(n) * isqrt_s(n) <= n,
        n < (isqrt_s(n) + 1) * (isqrt_s(n) + 1),
    decreases n,
{
    if n == 0 {
        assert(isqrt_s(0) == 0);
        assert((0 + 1) * (0 + 1) == 1) by (nonlinear_arith);
    } else {
        lemma_isqrt_bracket((n - 1) as nat);
        let p = isqrt_s((n - 1) as nat);
        if (p + 1) * (p + 1) <= n {
            assert(isqrt_s(n) == p + 1);
            assert(n - 1 < (p + 1) * (p + 1));
            assert(n == (p + 1) * (p + 1));
            assert((p + 1 + 1) * (p + 1 + 1) > (p + 1) * (p + 1)) by (nonlinear_arith);
        } else {
            assert(isqrt_s(n) == p);
        }
    }
}

pub proof fn lemma_isqrt_unique(n: nat, r: nat)
    requires
        r * r <= n,
        n < (r + 1) * (r + 1),
    ensures
        r == isqrt_s(n),
{
    lemma_isqrt_bracket(n);
    let s = isqrt_s(n);
    if r < s {
        assert((r + 1) * (r + 1) <= s * s) by (nonlinear_arith)
            requires
                r + 1 <= s,
        ;
    }
    if s < r {
        assert((s + 1) * (s + 1) <= r * r) by (nonlinear_arith)
            requires
                s + 1 <= r,
        ;
    }
}

/// Binary-search integer square root.
pub fn isqrt(n: u128) -> (r: u64)
    requires
        n < 0x1_0000_0000_0000_0000_0000_0000,
    ensures
        r == isqrt_s(n as nat),
        r <= 0x1_0000_0000_0000,
{
    let mut lo: u64 = 0;
    let mut hi: u64 = 0x1_0000_0000_0000;
    proof {
        assert((0x1_0000_0000_0000 as nat) * (0x1_0000_0000_0000 as nat)
            == 0x1_0000_0000_0000_0000_0000_0000) by (nonlinear_arith);
    }
    while hi - lo > 1
        invariant
            lo < hi,
            hi <= 0x1_0000_0000_0000,
            (lo as nat) * (lo as nat) <= n as nat,
            (n as nat) < (hi as nat) * (hi as nat),
        decreases hi - lo,
    {
        let mid: u64 = lo + (hi - lo) / 2;
        proof {
            assert((mid as nat) * (mid as nat) < 0x1_0000_0000_0000_0000_0000_0000)
                by (nonlinear_arith)
                requires
                    mid < 0x1_0000_0000_0000,
            ;
        }
        let sq: u128 = (mid as u128) * (mid as u128);
        if sq <= n {
            lo = mid;
        } else {
            hi = mid;
        }
    }
    proof {
        lemma_isqrt_unique(n as nat, lo as nat);
    }
    lo
}

/// Fixed-point square root of a non-negative Q16.16 value.
pub open spec fn fsqrt_s(x: int) -> int {
    isqrt_s((x * (ONE as int)) as nat) as int
}

pub fn fsqrt(x: i64) -> (r: i64)
    requires
        0 <= x <= 0x100_0000_0000_0000,
    ensures
        r == fsqrt_s(x as int),
        0 <= r <= 0x1_0000_0000_0000,
{
    let n: u128 = (x as u128) * 65536;
    let r: u64 = isqrt(n);
    r as i64
}

/// Truncated alternating series for exp(-f) with f in [0, ONE].
pub open spec fn exp_frac_s(f: int) -> int {
    let f2 = fmul_s(f, f);
    let f3 = fmul_s(f2, f);
    let f4 = fmul_s(f2, f2);
    ONE - f + tdiv_s(f2, 2) - tdiv_s(f3, 6) + tdiv_s(f4, 24)
}

/// exp(-1)^n.
pub open spec fn exp_pow_s(n: nat) -> int
    decreases n,
{
    if n == 0 {
        ONE as int
    } else {
        fmul_s(exp_pow_s((n - 1) as nat), EXP_NEG1 as int)
    }
}

/// exp(-x) for a non-negative Q16.16 argument: the integer and fractional
/// parts are handled separately, and anything beyond 16 is flushed to zero.
pub open spec fn exp_neg_s(x: int) -> int {
    if x >= 16 * (ONE as int) {
        0
    } else {
        let n = x / (ONE as int);
        let f = x % (ONE as int);
        fmul_s(exp_frac_s(f), exp_pow_s(n as nat))
    }
}

pub proof fn lemma_exp_frac_range(f: int)
    requires
        0 <= f <= ONE as int,
    ensures
        0 <= exp_frac_s(f) <= ONE as int,
{
    let f2 = fmul_s(f, f);
    let f3 = fmul_s(f2, f);
    let f4 = fmul_s(f2, f2);
    lemma_fmul_le_left(f, f);
    lemma_fmul_le_left(f2, f);
    lemma_fmul_le_left(f2, f2);
    lemma_fmul_mono_right(f2, f2, f);
    lemma_tdiv_bounds(f2, 2);
    lemma_tdiv_bounds(f3, 6);
    lemma_tdiv_bounds(f4, 24);
    // each grouped pair of terms keeps the whole sum inside [0, ONE]
    lemma_tdiv_mono(f2, f, 2);
    lemma_tdiv_bounds(f, 2);
    lemma_tdiv_mono(f4, f3, 24);
    assert(tdiv_s(f3, 24) <= tdiv_s(f3, 6)) by {
        if f3 > 0 {
            vstd::arithmetic::div_mod::lemma_div_is_ordered_by_denominator(f3, 6, 24);
        }
    }
    assert(tdiv_s(f4, 24) <= tdiv_s(f3, 6));
    assert(tdiv_s(f3, 6) <= tdiv_s(f2, 2)) by {
        lemma_tdiv_mono(f3, f2, 6);
        if f2 > 0 {
            vstd::arithmetic::div_mod::lemma_div_is_ordered_by_denominator(f2, 2, 6);
        }
    }
    assert(tdiv_s(f2, 2) <= tdiv_s(f, 2) <= f);
}

pub proof fn lemma_exp_pow_range(n: nat)
    ensures
        0 <= exp_pow_s(n) <= ONE as int,
    decreases n,
{
    if n == 0 {
    } else {
        lemma_exp_pow_range((n - 1) as nat);
        lemma_fmul_le_left(exp_pow_s((n - 1) as nat), EXP_NEG1 as int);
    }
}

pub proof fn lemma_exp_neg_range(x: int)
    requires
        0 <= x,
    ensures
        0 <= exp_neg_s(x) <= ONE as int,
{
    if x < 16 * (ONE as int) {
        let n = x / (ONE as int);
        let f = x % (ONE as int);
        lemma_mod_division_less_than_divisor(x, ONE as int);
        lemma_exp_frac_range(f);
        lemma_exp_pow_range(n as nat);
        lemma_fmul_le_left(exp_frac_s(f), exp_pow_s(n as nat));
    }
}

pub fn exp_neg(x: i64) -> (r: i64)
    requires
        0 <= x <= BIG,
    ensures
        r == exp_neg_s(x as int),
        0 <= r <= ONE,
{
    proof {
        lemma_exp_neg_range(x as int);
    }
    if x >= 16 * ONE {
        return 0;
    }
    let n: i64 = tdivq(x, ONE);
    let f: i64 = x - n * ONE;
    proof {
        lemma_fundamental_div_mod(x as int, ONE as int);
        lemma_mod_division_less_than_divisor(x as int, ONE as int);
        assert(f == x as int % (ONE as int));
    }
    let f2: i64 = fmul(f, f);
    proof {
        lemma_fmul_le_left(f as int, f as int);
    }
    let f3: i64 = fmul(f2, f);
    let f4: i64 = fmul(f2, f2);
    proof {
        lemma_fmul_le_left(f2 as int, f as int);
        lemma_fmul_le_left(f2 as int, f2 as int);
        lemma_tdiv_bounds(f2 as int, 2);
        lemma_tdiv_bounds(f3 as int, 6);
        lemma_tdiv_bounds(f4 as int, 24);
    }
    let p: i64 = ONE - f + tdivq(f2, 2) - tdivq(f3, 6) + tdivq(f4, 24);
    let mut acc: i64 = ONE;
    let mut i: i64 = 0;
    while i < n
        invariant
            0 <= i <= n < 16,
            acc == exp_pow_s(i as nat),
            0 <= acc <= ONE,
        decreases n - i,
    {
        acc = fmul(acc, EXP_NEG1);
        proof {
            lemma_fmul_le_left(exp_pow_s(i as nat), EXP_NEG1 as int);
        }
        i = i + 1;
    }
    fmul(p, acc)
}

/// Euclidean remainder by a positive modulus, for either sign of `a`.
pub fn emod(a: i64, b: i64) -> (r: i64)
    requires
        1 <= b,
        -0x7fff_ffff_ffff_ffff <= a,
    ensures
        r == a as int % (b as int),
        0 <= r < b,
{
    if a >= 0 {
        let r: u64 = (a as u64) % (b as u64);
        proof {
            lemma_mod_division_less_than_divisor(a as int, b as int);
        }
        r as i64
    } else {
        let m: u64 = (-a) as u64;
        let q: u64 = m / (b as u64);
        let r0: u64 = m % (b as u64);
        proof {
            lemma_fundamental_div_mod(m as int, b as int);
            lemma_mod_division_less_than_divisor(m as int, b as int);
        }
        if r0 == 0 {
            proof {
                assert(a as int == (-(q as int)) * (b as int) + 0) by (nonlinear_arith)
                    requires
                        m == q * b + r0,
                        r0 == 0,
                        a as int == -(m as int),
                ;
                lemma_fundamental_div_mod_converse_mod(a as int, b as int, -(q as int), 0);
            }
            0
        } else {
            proof {
                assert(a as int == (-(q as int) - 1) * (b as int) + (b - r0)) by (nonlinear_arith)
                    requires
                        m == q * b + r0,
                        a as int == -(m as int),
                ;
                lemma_fundamental_div_mod_converse_mod(
                    a as int,
                    b as int,
                    -(q as int) - 1,
                    b as int - r0 as int,
                );
            }
            b - (r0 as i64)
        }
    }
}

/// Bhaskara I approximation of sine on the half-period `[0, PI_FX]`.
pub open spec fn sin_half_s(m: int) -> int {
    let t = fmul_s(m, PI_FX - m);
    fdiv_s(16 * t, 5 * fmul_s(PI_FX as int, PI_FX as int) - 4 * t)
}

/// Sine of a Q16.16 radian argument, reduced to one period.
pub open spec fn sin_s(x: int) -> int {
    let m = x % (TWO_PI_FX as int);
    if m < PI_FX {
        sin_half_s(m)
    } else {
        -sin_half_s(m - PI_FX)
    }
}

/// Cosine as the shifted sine.
pub open spec fn cos_s(x: int) -> int {
    sin_s(x + PI_HALF_FX)
}

/// Bounds for the pieces of the Bhaskara quotient: the numerator term and
/// the denominator both stay comfortably inside the helper domains.
pub proof fn lemma_sin_den_range(m: int)
    requires
        0 <= m <= PI_FX as int,
    ensures
        0 <= fmul_s(m, PI_FX - m),
        4 * fmul_s(m, PI_FX - m) <= fmul_s(PI_FX as int, PI_FX as int),
        1 <= fmul_s(PI_FX as int, PI_FX as int) <= 700000,
{
    let t = fmul_s(m, PI_FX - m);
    let p = (PI_FX as int) * (PI_FX as int);
    lemma_fmul_nonneg(m, PI_FX - m);
    assert(4 * (m * (PI_FX - m)) <= (PI_FX as int) * (PI_FX as int)) by (nonlinear_arith)
        requires
            0 <= m <= PI_FX as int,
    ;
    lemma_mul_hoist_inequality(4, m * (PI_FX - m), ONE as int);
    lemma_tdiv_bounds(m * (PI_FX - m), ONE as int);
    lemma_tdiv_mono(4 * (m * (PI_FX - m)), p, ONE as int);
    assert((205887 as int) * (205887 as int) == 42389456769) by (nonlinear_arith);
    assert(p == 42389456769);
    lemma_tdiv_mono(65536, p, ONE as int);
    lemma_div_multiples_vanish(1, ONE as int);
    lemma_tdiv_mono(p, 45875200000, ONE as int);
    lemma_div_multiples_vanish(700000, ONE as int);
    assert(700000 * (ONE as int) == 45875200000) by (nonlinear_arith);
    assert(1 * (ONE as int) == 65536) by (nonlinear_arith);
}

pub proof fn lemma_sin_half_range(m: int)
    requires
        0 <= m <= PI_FX as int,
    ensures
        0 <= sin_half_s(m) <= ONE as int,
{
    let t = fmul_s(m, PI_FX - m);
    let pi2 = fmul_s(PI_FX as int, PI_FX as int);
    lemma_sin_den_range(m);
    let den = 5 * pi2 - 4 * t;
    // numerator 16*t is at most den, so the quotient is at most ONE
    assert(16 * t <= den);
    lemma_tdiv_mono(16 * t * (ONE as int), den * (ONE as int), den);
    assert(16 * t * (ONE as int) <= den * (ONE as int)) by (nonlinear_arith)
        requires
            16 * t <= den,
    ;
    lemma_div_multiples_vanish(den, den);
    assert(den * (ONE as int) == (ONE as int) * den) by (nonlinear_arith);
    lemma_div_multiples_vanish(ONE as int, den);
    lemma_tdiv_bounds(16 * t * (ONE as int), den);
    assert(16 * t * (ONE as int) >= 0) by (nonlinear_arith)
        requires
            t >= 0,
    ;
}


pub fn sin_fx(x: i64) -> (r: i64)
    requires
        -BIG <= x <= BIG,
    ensures
        r == sin_s(x as int),
        -ONE <= r <= ONE,
{
    let m: i64 = emod(x, TWO_PI_FX);
    let arg: i64 = if m < PI_FX {
        m
    } else {
        m - PI_FX
    };
    proof {
        lemma_sin_half_range(arg as int);
        lemma_sin_den_range(arg as int);
    }
    let t: i64 = fmul(arg, PI_FX - arg);
    let pi2: i64 = fmul(PI_FX, PI_FX);
    let den: i64 = 5 * pi2 - 4 * t;
    let s: i64 = fdiv(16 * t, den);
    if m < PI_FX {
        s
    } else {
        -s
    }
}

pub fn cos_fx(x: i64) -> (r: i64)
    requires
        -BIG + 0x2_0000 <= x <= BIG - 0x2_0000,
    ensures
        r == cos_s(x as int),
        -ONE <= r <= ONE,
{
    sin_fx(x + PI_HALF_FX)
}

/// Hermite smoothstep between two edges, in Q16.16.
pub open spec fn smoothstep_s(e0: int, e1: int, x: int) -> int {
    let t = clamp01_s(fdiv_s(x - e0, e1 - e0));
    fmul_s(fmul_s(t, t), 3 * (ONE as int) - 2 * t)
}

pub fn smoothstep(e0: i64, e1: i64, x: i64) -> (r: i64)
    requires
        1 <= e1 - e0 <= 0x1_0000_0000,
        -BIG <= x - e0 <= BIG,
    ensures
        r == smoothstep_s(e0 as int, e1 as int, x as int),
        0 <= r <= 3 * ONE,
{
    let t: i64 = clamp01(fdiv(x - e0, e1 - e0));
    let t2: i64 = fmul(t, t);
    proof {
        lemma_fmul_le_left(t as int, t as int);
        lemma_fmul_nonneg(t2 as int, 3 * (ONE as int) - 2 * t as int);
        lemma_fmul_range(t2 as int, 3 * (ONE as int) - 2 * t as int, ONE as int, 3 * (ONE as int));
    }
    fmul(t2, 3 * ONE - 2 * t)
}

} // verus!
