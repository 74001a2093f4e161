//! The library's global guarantees, each proved from the pass and stamp
//! specifications: determinism of the paper, exact mass conservation of
//! deposition, non-negativity of advection, locality of the stamp
//! footprint, the fade stamp's identity and hard cap, and pairwise water
//! conservation of capillary diffusion.

use vstd::prelude::*;
use vstd::arithmetic::div_mod::lemma_div_denominator;
use vstd::arithmetic::div_mod::lemma_div_multiples_vanish;
use vstd::arithmetic::div_mod::lemma_fundamental_div_mod;
use vstd::arithmetic::div_mod::lemma_mod_division_less_than_divisor;
use crate::fx::ONE;
use crate::fx::HALF;
use crate::fx::LIM;
use crate::fx::tdiv_s;
use crate::fx::fmul_s;
use crate::fx::cap_s;
use crate::fx::min_i;
use crate::fx::lemma_tdiv_bounds;
use crate::fx::lemma_tdiv_mono;
use crate::fx::lemma_fmul_le_left;
use crate::fx::lemma_fmul_nonneg;
use crate::fx::lemma_fmul_one;
use crate::fx::lemma_fmul_mono_right;
use crate::engine::WatercolorEngine;
use crate::model::FieldsModel;
use crate::paper::paper_cell_s;
use crate::brush::DepositParams;
use crate::brush::DepositCell;
use crate::brush::deposit_cell_s;
use crate::brush::dist_s;
use crate::brush::inside_s;
use crate::brush::FadeParams;
use crate::brush::FadeCell;
use crate::brush::fade_cell_s;
use crate::sim::dep_cell_s;
use crate::sim::adv_cell_s;
use crate::sim::interior_s;
use crate::sim::cap_xfer_s;
use crate::params::C_WET_P;
use crate::params::C_CAP_MIN;
use crate::params::B_FADE_CAP;

verus! {

/// Procedural paper generation is deterministic: two engines whose paper
/// fields satisfy the constructor's contract for the same dimensions carry
/// bit-identical fields.
pub proof fn lemma_paper_deterministic(a: WatercolorEngine, b: WatercolorEngine)
    requires
        a.width == b.width,
        a.total == b.total,
        a.paper_h@.len() == a.total,
        b.paper_h@.len() == b.total,
        forall|k: int| 0 <= k < a.total ==> a.paper_h@[k] == paper_cell_s(k, a.width as int),
        forall|k: int| 0 <= k < b.total ==> b.paper_h@[k] == paper_cell_s(k, b.width as int),
    ensures
        a.paper_h@ == b.paper_h@,
{
    assert forall|i: int| 0 <= i < a.total implies a.paper_h@[i] == b.paper_h@[i] by {
        assert(a.paper_h@[i] == paper_cell_s(i, a.width as int));
        assert(b.paper_h@[i] == paper_cell_s(i, b.width as int));
    }
    assert(a.paper_h@ =~= b.paper_h@);
}

/// Deposition is mass-conserving per cell and channel: what leaves the
/// suspended channel arrives in the deposited channel exactly, whenever
/// the deposit is far from its saturation bound (the sum of the two
/// channels within `LIM`).
pub proof fn lemma_deposition_mass_conserving(
    f: FieldsModel,
    paper: Seq<i64>,
    adhesion: i64,
    granularity: i64,
    dt: i64,
    k: int,
)
    requires
        0 <= k < f.gr.len(),
        0 <= f.gr[k] && f.dr[k] + f.gr[k] <= LIM && 0 <= f.dr[k],
        0 <= f.gg[k] && f.dg[k] + f.gg[k] <= LIM && 0 <= f.dg[k],
        0 <= f.gb[k] && f.db[k] + f.gb[k] <= LIM && 0 <= f.db[k],
        0 <= adhesion <= ONE,
        0 <= granularity <= ONE,
        0 <= dt <= 4 * ONE,
        0 <= paper[k] <= ONE,
    ensures
        ({
            let c = dep_cell_s(f, paper, adhesion, granularity, dt, k);
            &&& c.gr + c.dr == f.gr[k] + f.dr[k]
            &&& c.gg + c.dg == f.gg[k] + f.dg[k]
            &&& c.gb + c.db == f.gb[k] + f.db[k]
        }),
{
    reveal(dep_cell_s);
    if f.h[k] >= C_WET_P {
        let speed = crate::trig::fsqrt_s(
            fmul_s(f.u[k] as int, f.u[k] as int) + fmul_s(f.v[k] as int, f.v[k] as int),
        );
        let inv_speed = crate::fx::fdiv_s(ONE as int, speed + HALF);
        let gran = ONE + fmul_s(
            fmul_s(granularity as int, ONE - paper[k]),
            crate::params::C_GRAN as int,
        );
        let rate = min_i(
            fmul_s(fmul_s(fmul_s(adhesion as int, inv_speed), gran), dt as int),
            crate::params::C_DEP_CAP as int,
        );
        // the rate is non-negative and capped at one half, so each
        // transfer is at most the suspended amount and the deposit stays
        // below saturation
        crate::fx::lemma_fmul_sq_nonneg(f.u[k] as int);
        crate::fx::lemma_fmul_sq_nonneg(f.v[k] as int);
        lemma_tdiv_bounds((ONE as int) * (ONE as int), speed + HALF);
        lemma_fmul_nonneg(granularity as int, ONE - paper[k]);
        lemma_fmul_nonneg(
            fmul_s(granularity as int, ONE - paper[k]),
            crate::params::C_GRAN as int,
        );
        lemma_fmul_nonneg(adhesion as int, inv_speed);
        lemma_fmul_nonneg(fmul_s(adhesion as int, inv_speed), gran);
        lemma_fmul_nonneg(fmul_s(fmul_s(adhesion as int, inv_speed), gran), dt as int);
        assert(0 <= rate <= ONE as int);
        let ar = fmul_s(f.gr[k] as int, rate);
        let ag = fmul_s(f.gg[k] as int, rate);
        let ab = fmul_s(f.gb[k] as int, rate);
        lemma_fmul_le_left(f.gr[k] as int, rate);
        lemma_fmul_le_left(f.gg[k] as int, rate);
        lemma_fmul_le_left(f.gb[k] as int, rate);
        assert(cap_s(f.dr[k] + ar) == f.dr[k] + ar);
        assert(cap_s(f.dg[k] + ag) == f.dg[k] + ag);
        assert(cap_s(f.db[k] + ab) == f.db[k] + ab);
    }
}

/// Advection never produces negative water or pigment from non-negative
/// inputs: a bilinear combination of non-negative samples with
/// non-negative weights, scaled by a factor in `[0, 1]`, stays
/// non-negative.
pub proof fn lemma_advection_nonnegative(
    f: FieldsModel,
    w: int,
    hgt: int,
    dt: i64,
    evaporation: i64,
    k: int,
)
    requires
        1 <= w,
        1 <= hgt,
        f.h.len() == w * hgt,
        f.gr.len() == w * hgt,
        f.gg.len() == w * hgt,
        f.gb.len() == w * hgt,
        0 <= k < w * hgt,
        forall|i: int| 0 <= i < f.h.len() ==> 0 <= #[trigger] f.h[i],
        forall|i: int| 0 <= i < f.gr.len() ==> 0 <= #[trigger] f.gr[i],
        forall|i: int| 0 <= i < f.gg.len() ==> 0 <= #[trigger] f.gg[i],
        forall|i: int| 0 <= i < f.gb.len() ==> 0 <= #[trigger] f.gb[i],
        0 <= evaporation <= ONE,
    ensures
        ({
            let c = adv_cell_s(f, w, hgt, dt, evaporation, k);
            c.h >= 0 && c.gr >= 0 && c.gg >= 0 && c.gb >= 0
        }),
{
    reveal(adv_cell_s);
    if interior_s(w, hgt, k) && f.h[k] > 0 {
        let i = k / w;
        let j = k % w;
        let pi = crate::fx::clamp_s(
            i * ONE - fmul_s(f.u[k] as int, dt as int),
            ONE as int,
            (hgt - 2) * ONE,
        );
        let pj = crate::fx::clamp_s(
            j * ONE - fmul_s(f.v[k] as int, dt as int),
            ONE as int,
            (w - 2) * ONE,
        );
        let i0 = pi / (ONE as int);
        let j0 = pj / (ONE as int);
        let si = pi - i0 * ONE;
        let sj = pj - j0 * ONE;
        assert((hgt - 2) * ONE >= 1 * ONE && (w - 2) * ONE >= 1 * ONE) by (nonlinear_arith)
            requires
                3 <= hgt,
                3 <= w,
        ;
        lemma_fundamental_div_mod(pi, ONE as int);
        lemma_fundamental_div_mod(pj, ONE as int);
        lemma_mod_division_less_than_divisor(pi, ONE as int);
        lemma_mod_division_less_than_divisor(pj, ONE as int);
        lemma_tdiv_mono(1 * (ONE as int), pi, ONE as int);
        lemma_tdiv_mono(pi, (hgt - 2) * ONE, ONE as int);
        lemma_tdiv_mono(1 * (ONE as int), pj, ONE as int);
        lemma_tdiv_mono(pj, (w - 2) * ONE, ONE as int);
        lemma_div_multiples_vanish(1, ONE as int);
        lemma_div_multiples_vanish(hgt - 2, ONE as int);
        lemma_div_multiples_vanish(w - 2, ONE as int);
        assert((hgt - 2) * ONE == (ONE as int) * (hgt - 2)) by (nonlinear_arith);
        assert((w - 2) * ONE == (ONE as int) * (w - 2)) by (nonlinear_arith);
        assert(1 * (ONE as int) == (ONE as int) * 1) by (nonlinear_arith);
        let w00 = fmul_s(ONE - si, ONE - sj);
        let w10 = fmul_s(si, ONE - sj);
        let w01 = fmul_s(ONE - si, sj);
        let w11 = fmul_s(si, sj);
        lemma_fmul_nonneg(ONE - si, ONE - sj);
        lemma_fmul_nonneg(si, ONE - sj);
        lemma_fmul_nonneg(ONE - si, sj);
        lemma_fmul_nonneg(si, sj);
        let k00 = i0 * w + j0;
        let k10 = (i0 + 1) * w + j0;
        let k01 = i0 * w + (j0 + 1);
        let k11 = (i0 + 1) * w + (j0 + 1);
        assert(0 <= k00 && k11 < w * hgt && k10 < w * hgt && k01 < w * hgt && 0 <= k10 && 0 <= k01
            && 0 <= k11) by (nonlinear_arith)
            requires
                1 <= i0 <= hgt - 2,
                1 <= j0 <= w - 2,
                1 <= w,
                3 <= hgt,
                k00 == i0 * w + j0,
                k10 == (i0 + 1) * w + j0,
                k01 == i0 * w + (j0 + 1),
                k11 == (i0 + 1) * w + (j0 + 1),
        ;
        lemma_fmul_nonneg(f.h[k00] as int, w00);
        lemma_fmul_nonneg(f.h[k10] as int, w10);
        lemma_fmul_nonneg(f.h[k01] as int, w01);
        lemma_fmul_nonneg(f.h[k11] as int, w11);
        lemma_fmul_nonneg(f.gr[k00] as int, w00);
        lemma_fmul_nonneg(f.gr[k10] as int, w10);
        lemma_fmul_nonneg(f.gr[k01] as int, w01);
        lemma_fmul_nonneg(f.gr[k11] as int, w11);
        lemma_fmul_nonneg(f.gg[k00] as int, w00);
        lemma_fmul_nonneg(f.gg[k10] as int, w10);
        lemma_fmul_nonneg(f.gg[k01] as int, w01);
        lemma_fmul_nonneg(f.gg[k11] as int, w11);
        lemma_fmul_nonneg(f.gb[k00] as int, w00);
        lemma_fmul_nonneg(f.gb[k10] as int, w10);
        lemma_fmul_nonneg(f.gb[k01] as int, w01);
        lemma_fmul_nonneg(f.gb[k11] as int, w11);
        let sh = fmul_s(f.h[k00] as int, w00) + fmul_s(f.h[k10] as int, w10) + fmul_s(
            f.h[k01] as int,
            w01,
        ) + fmul_s(f.h[k11] as int, w11);
        lemma_fmul_nonneg(sh, ONE - evaporation as int);
    }
}

/// A deposit stamp strictly outside the ellipse footprint leaves the
/// target cell's fields unchanged.
pub proof fn lemma_deposit_outside_footprint(
    h: i64,
    gr: i64,
    gg: i64,
    gb: i64,
    mask: i64,
    paper: i64,
    x: int,
    y: int,
    p: DepositParams,
)
    requires
        dist_s(p.g, x - p.g.cx, y - p.g.cy) > p.g.radius,
    ensures
        deposit_cell_s(h, gr, gg, gb, mask, paper, x, y, p) == (DepositCell {
            h,
            gr,
            gg,
            gb,
            mask,
        }),
{
    reveal(deposit_cell_s);
    assert(!inside_s(p.g, x - p.g.cx, y - p.g.cy));
}

/// A fade stamp of strength zero is a no-op on every cell.
pub proof fn lemma_fade_zero_noop(f: FieldsModel, paper: Seq<i64>, w: int, p: FadeParams, k: int)
    requires
        p.strength == 0,
    ensures
        fade_cell_s(f, paper, w, p, k) == (FadeCell {
            h: f.h[k],
            mask: f.mask[k],
            gr: f.gr[k],
            gg: f.gg[k],
            gb: f.gb[k],
            dr: f.dr[k],
            dg: f.dg[k],
            db: f.db[k],
        }),
{
    reveal(fade_cell_s);
    let x = k % w;
    let y = k / w;
    let di = x - p.g.cx;
    let dj = y - p.g.cy;
    if inside_s(p.g, di, dj) {
        let gaussian = crate::brush::gauss_s(p.g, di, dj);
        assert(fmul_s(0, gaussian) == 0) by {
            assert((0 as int) * gaussian == 0) by (nonlinear_arith);
        }
        let paper_response = crate::params::B_FADE_PAPER_BASE + fmul_s(
            crate::params::B_FADE_PAPER_SPAN as int,
            ONE - paper[k],
        );
        assert(fmul_s(0, paper_response) == 0) by {
            assert((0 as int) * paper_response == 0) by (nonlinear_arith);
        }
        assert(fmul_s(0, p.press as int) == 0) by {
            assert((0 as int) * (p.press as int) == 0) by (nonlinear_arith);
        }
        let wet = min_i(f.h[k] as int, ONE as int);
        let wet_boost = ONE + fmul_s(wet, crate::params::B_FADE_WET as int);
        assert(fmul_s(0, wet_boost) == 0) by {
            assert((0 as int) * wet_boost == 0) by (nonlinear_arith);
        }
        assert(fmul_s(0, crate::params::B_FADE_GAIN as int) == 0) by {
            assert((0 as int) * (crate::params::B_FADE_GAIN as int) == 0) by (nonlinear_arith);
        }
        assert(fmul_s(0, crate::params::B_FADE_DEP as int) == 0) by {
            assert((0 as int) * (crate::params::B_FADE_DEP as int) == 0) by (nonlinear_arith);
        }
        assert(fmul_s(0, crate::params::B_FADE_WATER as int) == 0) by {
            assert((0 as int) * (crate::params::B_FADE_WATER as int) == 0) by (nonlinear_arith);
        }
        assert(fmul_s(0, crate::params::B_FADE_MASK as int) == 0) by {
            assert((0 as int) * (crate::params::B_FADE_MASK as int) == 0) by (nonlinear_arith);
        }
        lemma_fmul_one(f.h[k] as int);
        lemma_fmul_one(f.mask[k] as int);
        lemma_fmul_one(f.gr[k] as int);
        lemma_fmul_one(f.gg[k] as int);
        lemma_fmul_one(f.gb[k] as int);
        lemma_fmul_one(f.dr[k] as int);
        lemma_fmul_one(f.dg[k] as int);
        lemma_fmul_one(f.db[k] as int);
    }
}

/// The fade factor is hard-capped at three quarters: one fade stamp keeps
/// at least a quarter of the suspended pigment of every cell, and never
/// adds any.
pub proof fn lemma_fade_cap(f: FieldsModel, paper: Seq<i64>, w: int, p: FadeParams, k: int)
    requires
        0 <= f.gr[k],
        0 <= f.gg[k],
        0 <= f.gb[k],
    ensures
        ({
            let c = fade_cell_s(f, paper, w, p, k);
            &&& tdiv_s(f.gr[k] as int, 4) <= c.gr <= f.gr[k]
            &&& tdiv_s(f.gg[k] as int, 4) <= c.gg <= f.gg[k]
            &&& tdiv_s(f.gb[k] as int, 4) <= c.gb <= f.gb[k]
        }),
{
    reveal(fade_cell_s);
    lemma_tdiv_bounds(f.gr[k] as int, 4);
    lemma_tdiv_bounds(f.gg[k] as int, 4);
    lemma_tdiv_bounds(f.gb[k] as int, 4);
    let x = k % w;
    let y = k / w;
    let di = x - p.g.cx;
    let dj = y - p.g.cy;
    if inside_s(p.g, di, dj) {
        let gaussian = crate::brush::gauss_s(p.g, di, dj);
        let paper_response = crate::params::B_FADE_PAPER_BASE + fmul_s(
            crate::params::B_FADE_PAPER_SPAN as int,
            ONE - paper[k],
        );
        let wet = min_i(f.h[k] as int, ONE as int);
        let wet_boost = ONE + fmul_s(wet, crate::params::B_FADE_WET as int);
        let f1 = fmul_s(p.strength as int, gaussian);
        let f2 = fmul_s(f1, paper_response);
        let f3 = fmul_s(f2, p.press as int);
        let f4 = fmul_s(f3, wet_boost);
        let fade = crate::fx::clamp_s(
            fmul_s(f4, crate::params::B_FADE_GAIN as int),
            0,
            B_FADE_CAP as int,
        );
        let keep = ONE - fade;
        assert(16384 <= keep <= ONE as int);
        lemma_keep_quarter(f.gr[k] as int, keep);
        lemma_keep_quarter(f.gg[k] as int, keep);
        lemma_keep_quarter(f.gb[k] as int, keep);
    }
}

/// Scaling a non-negative value by a factor of at least one quarter keeps
/// at least a quarter of it.
proof fn lemma_keep_quarter(a: int, keep: int)
    requires
        0 <= a,
        16384 <= keep <= ONE as int,
    ensures
        tdiv_s(a, 4) <= fmul_s(a, keep) <= a,
{
    lemma_fmul_le_left(a, keep);
    lemma_fmul_mono_right(a, 16384, keep);
    assert(fmul_s(a, 16384) == tdiv_s(a, 4)) by {
        assert(a * 16384 >= 0) by (nonlinear_arith)
            requires
                a >= 0,
        ;
        lemma_div_denominator(a * 16384, 16384, 4);
        assert((ONE as int) == 16384 * 4);
        lemma_div_multiples_vanish(a, 16384);
        assert(a * 16384 == 16384 * a) by (nonlinear_arith);
        lemma_tdiv_bounds(a, 4);
    }
}

/// Capillary diffusion is locally conservative: one transfer between a
/// cell and its neighbour leaves the sum of their water heights unchanged,
/// and every other cell's water untouched.
pub proof fn lemma_capillary_conserves_pair(f: FieldsModel, paper: Seq<i64>, k: int, n: int)
    requires
        0 <= k < f.h.len(),
        0 <= n < f.h.len(),
        k != n,
        0 <= f.h[k] <= LIM,
        0 <= f.h[n] <= LIM,
        0 <= paper[n] <= ONE,
    ensures
        ({
            let f2 = cap_xfer_s(f, paper, k, n);
            &&& f2.h[k] + f2.h[n] == f.h[k] + f.h[n]
            &&& forall|m: int|
                0 <= m < f.h.len() && m != k && m != n ==> #[trigger] f2.h[m] == f.h[m]
        }),
{
    reveal(cap_xfer_s);
    if f.h[n] < f.h[k] {
        let diff = fmul_s(f.h[k] - f.h[n], crate::params::C_CAP_RATE as int);
        let factor = ONE - fmul_s(paper[n] as int, HALF as int);
        let cap_rate = fmul_s(diff, factor);
        lemma_fmul_le_left(f.h[k] - f.h[n], crate::params::C_CAP_RATE as int);
        lemma_fmul_le_left(paper[n] as int, HALF as int);
        lemma_fmul_le_left(diff, factor);
        if cap_rate > C_CAP_MIN {
        }
    }
}

} // verus!
