//! Q16.16 fixed-point arithmetic: the number format every field of the
//! simulation is stored in, together with the lemmas the passes need.
//!
//! A quantity `1.0` is stored as `ONE == 65536`. All executable operations
//! mirror a spec-level definition exactly (`fmul` computes `fmul_s`, and so
//! on), so the contracts of the engine can state per-cell results as pure
//! functions of the prior state.

use vstd::prelude::*;
use vstd::arithmetic::div_mod::lemma_div_is_ordered;
use vstd::arithmetic::div_mod::lemma_div_is_ordered_by_denominator;
use vstd::arithmetic::div_mod::lemma_div_multiples_vanish;
use vstd::arithmetic::div_mod::lemma_div_nonincreasing;
use vstd::arithmetic::div_mod::lemma_div_pos_is_pos;
use vstd::arithmetic::mul::lemma_mul_left_inequality;

verus! {

/// 1.0 in Q16.16.
pub const ONE: i64 = 65536;

/// 0.5 in Q16.16.
pub const HALF: i64 = 32768;

/// Saturation bound for stored field values: 16384.0, far above anything a
/// physically meaningful state reaches.
pub const LIM: i64 = 0x4000_0000;

/// Domain bound for the wide operand of the arithmetic helpers.
pub const BIG: i64 = 0x1000_0000_0000;

/// Truncating (round-toward-zero) division, the semantics every fixed-point
/// operation here uses. `b` must be positive.
pub open spec fn tdiv_s(a: int, b: int) -> int {
    if a >= 0 {
        a / b
    } else {
        -((-a) / b)
    }
}

/// Fixed-point product: `a * b` scaled back down by `ONE`.
pub open spec fn fmul_s(a: int, b: int) -> int {
    tdiv_s(a * b, ONE as int)
}

/// Fixed-point quotient: `a / b` scaled up by `ONE`.
pub open spec fn fdiv_s(a: int, b: int) -> int {
    tdiv_s(a * (ONE as int), b)
}

/// Two-sided saturation to `[-LIM, LIM]`.
pub open spec fn clip_s(v: int) -> int {
    if v < -(LIM as int) {
        -(LIM as int)
    } else if v > LIM as int {
        LIM as int
    } else {
        v
    }
}

/// One-sided saturation to `v <= LIM` (used where non-negativity is already
/// guaranteed by the formula itself).
pub open spec fn cap_s(v: int) -> int {
    if v > LIM as int {
        LIM as int
    } else {
        v
    }
}

/// Clamp to the unit interval `[0, ONE]`.
pub open spec fn clamp01_s(v: int) -> int {
    if v < 0 {
        0
    } else if v > ONE as int {
        ONE as int
    } else {
        v
    }
}

/// Clamp to an arbitrary interval.
pub open spec fn clamp_s(v: int, lo: int, hi: int) -> int {
    if v < lo {
        lo
    } else if v > hi {
        hi
    } else {
        v
    }
}

pub open spec fn min_i(a: int, b: int) -> int {
    if a < b {
        a
    } else {
        b
    }
}

pub open spec fn max_i(a: int, b: int) -> int {
    if a > b {
        a
    } else {
        b
    }
}

/// Truncating division of a wide intermediate by a positive divisor.
pub fn tdiv128(a: i128, b: i128) -> (r: i128)
    requires
        1 <= b <= 0x1_0000_0000_0000_0000,
        -0x4000_0000_0000_0000_0000_0000_0000_0000 <= a
            <= 0x4000_0000_0000_0000_0000_0000_0000_0000,
    ensures
        r == tdiv_s(a as int, b as int),
{
    if a >= 0 {
        ((a as u128) / (b as u128)) as i128
    } else {
        let m: u128 = (-a) as u128;
        let q: u128 = m / (b as u128);
        -(q as i128)
    }
}

/// Truncating division on `i64`, positive divisor.
pub fn tdivq(a: i64, b: i64) -> (r: i64)
    requires
        1 <= b,
        -0x7fff_ffff_ffff_ffff <= a,
    ensures
        r == tdiv_s(a as int, b as int),
{
    if a >= 0 {
        ((a as u64) / (b as u64)) as i64
    } else {
        let m: u64 = (-a) as u64;
        let q: u64 = m / (b as u64);
        proof {
            lemma_div_nonincreasing(m as int, b as int);
            lemma_div_pos_is_pos(m as int, b as int);
        }
        -(q as i64)
    }
}

/// Fixed-point multiply; the wide operand comes first.
pub fn fmul(a: i64, b: i64) -> (r: i64)
    requires
        -BIG <= a <= BIG,
        -LIM <= b <= LIM,
    ensures
        r == fmul_s(a as int, b as int),
        -0x400_0000_0000_0000 <= r <= 0x400_0000_0000_0000,
{
    proof {
        lemma_abs_product_le(a as int, b as int, BIG as int, LIM as int);
    }
    let p: i128 = (a as i128) * (b as i128);
    proof {
        lemma_tdiv_bounds(p as int, ONE as int);
    }
    let q: i128 = tdiv128(p, 65536);
    q as i64
}

/// Fixed-point divide by a positive divisor.
pub fn fdiv(a: i64, b: i64) -> (r: i64)
    requires
        -BIG <= a <= BIG,
        1 <= b <= 0x1_0000_0000_0000,
    ensures
        r == fdiv_s(a as int, b as int),
        -0x1000_0000_0000_0000 <= r <= 0x1000_0000_0000_0000,
{
    let p: i128 = (a as i128) * 65536;
    proof {
        lemma_tdiv_bounds(p as int, b as int);
    }
    let q: i128 = tdiv128(p, b as i128);
    q as i64
}

/// Two-sided saturation to `[-LIM, LIM]`.
pub fn clip(v: i64) -> (r: i64)
    ensures
        r == clip_s(v as int),
{
    if v < -LIM {
        -LIM
    } else if v > LIM {
        LIM
    } else {
        v
    }
}

/// One-sided saturation to `v <= LIM`.
pub fn cap_lim(v: i64) -> (r: i64)
    ensures
        r == cap_s(v as int),
{
    if v > LIM {
        LIM
    } else {
        v
    }
}

/// Clamp to `[0, ONE]`.
pub fn clamp01(v: i64) -> (r: i64)
    ensures
        r == clamp01_s(v as int),
{
    if v < 0 {
        0
    } else if v > ONE {
        ONE
    } else {
        v
    }
}

/// Clamp to `[lo, hi]`.
pub fn clamp_to(v: i64, lo: i64, hi: i64) -> (r: i64)
    ensures
        r == clamp_s(v as int, lo as int, hi as int),
{
    if v < lo {
        lo
    } else if v > hi {
        hi
    } else {
        v
    }
}

pub fn fmin(a: i64, b: i64) -> (r: i64)
    ensures
        r == min_i(a as int, b as int),
{
    if a < b {
        a
    } else {
        b
    }
}

pub fn fmax(a: i64, b: i64) -> (r: i64)
    ensures
        r == max_i(a as int, b as int),
{
    if a > b {
        a
    } else {
        b
    }
}

/// `|a * b| <= ca * cb` from `|a| <= ca`, `|b| <= cb`.
pub proof fn lemma_abs_product_le(a: int, b: int, ca: int, cb: int)
    requires
        -ca <= a <= ca,
        -cb <= b <= cb,
    ensures
        -(ca * cb) <= a * b <= ca * cb,
{
    assert(-(ca * cb) <= a * b <= ca * cb) by (nonlinear_arith)
        requires
            -ca <= a <= ca,
            -cb <= b <= cb,
    ;
}

/// Sign and magnitude of truncating division: the quotient lies between 0
/// and the dividend.
pub proof fn lemma_tdiv_bounds(a: int, b: int)
    requires
        1 <= b,
    ensures
        a >= 0 ==> 0 <= tdiv_s(a, b) <= a,
        a < 0 ==> a <= tdiv_s(a, b) <= 0,
{
    if a >= 0 {
        lemma_div_nonincreasing(a, b);
        lemma_div_pos_is_pos(a, b);
    } else {
        lemma_div_nonincreasing(-a, b);
        lemma_div_pos_is_pos(-a, b);
    }
}

/// Truncating division is monotone in the dividend.
pub proof fn lemma_tdiv_mono(a1: int, a2: int, b: int)
    requires
        a1 <= a2,
        1 <= b,
    ensures
        tdiv_s(a1, b) <= tdiv_s(a2, b),
{
    if a1 >= 0 {
        lemma_div_is_ordered(a1, a2, b);
    } else if a2 < 0 {
        lemma_div_is_ordered(-a2, -a1, b);
    } else {
        lemma_tdiv_bounds(a1, b);
        lemma_tdiv_bounds(a2, b);
    }
}

/// Multiplying by a factor in `[0, ONE]` shrinks a non-negative value.
pub proof fn lemma_fmul_le_left(a: int, b: int)
    requires
        0 <= a,
        0 <= b <= ONE as int,
    ensures
        0 <= fmul_s(a, b) <= a,
{
    if a == 0 {
        assert(a * b == 0 && a * (ONE as int) == 0) by (nonlinear_arith)
            requires
                a == 0,
        ;
    } else {
        lemma_mul_left_inequality(a, b, ONE as int);
    }
    assert(a * b <= a * (ONE as int));
    lemma_tdiv_mono(a * b, a * (ONE as int), ONE as int);
    lemma_div_multiples_vanish(a, ONE as int);
    assert(a * (ONE as int) == (ONE as int) * a) by (nonlinear_arith);
    lemma_tdiv_bounds(a * b, ONE as int);
    assert(a * b >= 0) by (nonlinear_arith)
        requires
            a >= 0,
            b >= 0,
    ;
}

/// Multiplying by exactly `ONE` is the identity.
pub proof fn lemma_fmul_one(a: int)
    ensures
        fmul_s(a, ONE as int) == a,
{
    lemma_div_multiples_vanish(a, ONE as int);
    lemma_div_multiples_vanish(-a, ONE as int);
    assert(a * (ONE as int) == (ONE as int) * a) by (nonlinear_arith);
    assert((-a) * (ONE as int) == (ONE as int) * (-a)) by (nonlinear_arith);
    assert(-(a * (ONE as int)) == (-a) * (ONE as int)) by (nonlinear_arith);
}

/// General range bound: `|fmul_s(a, b)| <= tdiv_s(ca * cb, ONE)`.
pub proof fn lemma_fmul_range(a: int, b: int, ca: int, cb: int)
    requires
        -ca <= a <= ca,
        -cb <= b <= cb,
    ensures
        tdiv_s(-(ca * cb), ONE as int) <= fmul_s(a, b) <= tdiv_s(ca * cb, ONE as int),
{
    lemma_abs_product_le(a, b, ca, cb);
    lemma_tdiv_mono(a * b, ca * cb, ONE as int);
    lemma_tdiv_mono(-(ca * cb), a * b, ONE as int);
}

/// The product of two factors of magnitude at most `ONE` keeps that
/// magnitude.
pub proof fn lemma_fmul_unit(a: int, b: int)
    requires
        -(ONE as int) <= a <= ONE as int,
        -(ONE as int) <= b <= ONE as int,
    ensures
        -(ONE as int) <= fmul_s(a, b) <= ONE as int,
{
    lemma_fmul_range(a, b, ONE as int, ONE as int);
    assert((ONE as int) * (ONE as int) == 4294967296) by (nonlinear_arith);
    lemma_div_multiples_vanish(ONE as int, ONE as int);
    assert((ONE as int) * (ONE as int) == 4294967296);
    assert(tdiv_s(4294967296, ONE as int) == ONE as int);
    assert(tdiv_s(-4294967296, ONE as int) == -(ONE as int));
}

/// A fixed-point square is non-negative.
pub proof fn lemma_fmul_sq_nonneg(a: int)
    ensures
        0 <= fmul_s(a, a),
{
    assert(a * a >= 0) by (nonlinear_arith);
    lemma_tdiv_bounds(a * a, ONE as int);
}

/// Non-negative factors give a non-negative product.
pub proof fn lemma_fmul_nonneg(a: int, b: int)
    requires
        0 <= a,
        0 <= b,
    ensures
        0 <= fmul_s(a, b),
{
    assert(a * b >= 0) by (nonlinear_arith)
        requires
            a >= 0,
            b >= 0,
    ;
    lemma_tdiv_bounds(a * b, ONE as int);
}

/// Fixed-point multiplication is monotone in the factor, for a non-negative
/// base.
pub proof fn lemma_fmul_mono_right(a: int, b1: int, b2: int)
    requires
        0 <= a,
        b1 <= b2,
    ensures
        fmul_s(a, b1) <= fmul_s(a, b2),
{
    if a == 0 {
        assert(a * b1 == 0 && a * b2 == 0) by (nonlinear_arith)
            requires
                a == 0,
        ;
    } else {
        lemma_mul_left_inequality(a, b1, b2);
    }
    lemma_tdiv_mono(a * b1, a * b2, ONE as int);
}

/// Magnitude bound for a fixed-point quotient, through a lower bound `d` on
/// the divisor.
pub proof fn lemma_fdiv_abs(a: int, ca: int, b: int, d: int)
    requires
        -ca <= a <= ca,
        0 <= ca,
        1 <= d <= b,
    ensures
        -tdiv_s(ca * (ONE as int), d) <= fdiv_s(a, b) <= tdiv_s(ca * (ONE as int), d),
{
    lemma_tdiv_mono(a * (ONE as int), ca * (ONE as int), b);
    lemma_tdiv_mono(-(ca * (ONE as int)), a * (ONE as int), b);
    lemma_div_is_ordered_by_denominator(ca * (ONE as int), d, b);
    lemma_tdiv_bounds(ca * (ONE as int), d);
    lemma_tdiv_bounds(ca * (ONE as int), b);
}

/// Dividing `ca * ONE` by `HALF` is exactly doubling.
pub proof fn lemma_tdiv_half(ca: int)
    requires
        0 <= ca,
    ensures
        tdiv_s(ca * (ONE as int), HALF as int) == 2 * ca,
{
    lemma_div_multiples_vanish(2 * ca, HALF as int);
    assert(ca * (ONE as int) == (HALF as int) * (2 * ca)) by (nonlinear_arith);
}


} // verus!
