//! The brush stamp engine: geometry shared by all four stamp kinds.
//!
//! A stamp is centred on a cell, rotated by the brush angle, and squashed
//! across the stroke direction (an anisotropic ellipse). Cells inside the
//! ellipse receive a gaussian weight of their distance; cells outside it,
//! or outside the bounding square, are untouched. A deterministic spatial
//! hash ("bristle noise") modulates the deposit stamp.

use vstd::prelude::*;
use vstd::arithmetic::div_mod::lemma_div_nonincreasing;
use vstd::arithmetic::div_mod::lemma_mod_division_less_than_divisor;
use crate::fx::ONE;
use crate::fx::HALF;
use crate::fx::LIM;
use crate::fx::tdiv_s;
use crate::fx::fmul_s;
use crate::fx::fdiv_s;
use crate::fx::cap_s;
use crate::fx::max_i;
use crate::fx::min_i;
use crate::fx::fmul;
use crate::fx::fdiv;
use crate::fx::tdivq;
use crate::fx::fmax;
use crate::fx::fmin;
use crate::fx::cap_lim;
use crate::model::FieldsModel;
use crate::engine::WatercolorEngine;
use crate::engine::in_lim;
use crate::fx::clamp_s;
use crate::fx::clamp_to;
use crate::fx::clip_s;
use crate::fx::clip;
use crate::params::B_PAPER_BASE;
use crate::params::B_PAPER_SPAN;
use crate::params::B_EDGE_LO;
use crate::params::B_EDGE_HI;
use crate::params::B_EDGE_GAIN;
use crate::params::B_WET_SPREAD;
use crate::params::B_WATER_GAIN;
use crate::params::B_PIG_GAIN;
use crate::params::B_FADE_PAPER_BASE;
use crate::params::B_FADE_PAPER_SPAN;
use crate::params::B_FADE_WET;
use crate::params::B_FADE_GAIN;
use crate::params::B_FADE_CAP;
use crate::params::B_FADE_DEP;
use crate::params::B_FADE_WATER;
use crate::params::B_FADE_MASK;
use crate::params::B_BLEND_CAP;
use crate::params::B_BLEND_MIN;
use crate::params::B_BLEND_WATER;
use crate::params::B_FLOW_LO;
use crate::params::B_FLOW_HI;
use crate::params::B_WATER_ADD;
use crate::params::B_FLOW_GAIN;
use crate::params::B_LIFT_GAIN;
use crate::params::B_LIFT_CAP;
use crate::params::B_FLOW_MAX;
use crate::params::C_EPS;
use crate::trig::smoothstep_s;
use crate::trig::smoothstep;
use crate::trig::sin_s;
use crate::trig::cos_s;
use crate::trig::sin_fx;
use crate::trig::cos_fx;
use crate::fx::clamp01_s;
use crate::fx::clamp01;
use crate::fx::lemma_tdiv_bounds;
use crate::fx::lemma_tdiv_mono;
use crate::fx::lemma_tdiv_half;
use crate::fx::lemma_fmul_le_left;
use crate::fx::lemma_fmul_nonneg;
use crate::fx::lemma_fmul_sq_nonneg;
use crate::fx::lemma_fmul_range;
use crate::fx::lemma_fmul_mono_right;
use crate::fx::lemma_fdiv_abs;
use crate::trig::fsqrt_s;
use crate::trig::fsqrt;
use crate::trig::exp_neg_s;
use crate::trig::exp_neg;
use crate::params::B_SIGMA;
use crate::params::B_ASPECT;
use crate::params::B_BRISTLE_BASE;
use crate::params::B_BRISTLE_SPAN;

verus! {

/// The precomputed geometry of one stamp: centre cell, radius (Q16.16),
/// bounding half-width in cells, gaussian denominator, and the rotation.
#[derive(Clone, Copy)]
pub struct StampGeom {
    pub cx: i64,
    pub cy: i64,
    pub radius: i64,
    pub span: i64,
    pub sigma2: i64,
    pub cos_a: i64,
    pub sin_a: i64,
}

/// The radius of a stamp of the given size: never below half a cell.
pub open spec fn radius_s(size: int) -> int {
    max_i(size, HALF as int)
}

/// The bounding half-width in cells: the radius rounded up.
pub open spec fn span_s(radius: int) -> int {
    tdiv_s(radius + ONE - 1, ONE as int)
}

/// The squared gaussian sigma, `(0.45 * radius)^2`.
pub open spec fn sigma2_s(radius: int) -> int {
    fmul_s(fmul_s(radius, B_SIGMA as int), fmul_s(radius, B_SIGMA as int))
}

/// The geometry a well-formed stamp call carries.
pub open spec fn geom_wf(g: StampGeom) -> bool {
    &&& -0x2000_0000 <= g.cx <= 0x2000_0000
    &&& -0x2000_0000 <= g.cy <= 0x2000_0000
    &&& HALF <= g.radius <= 0x100_0000
    &&& 1 <= g.span <= 256
    &&& g.span == span_s(g.radius as int)
    &&& 3000 <= g.sigma2 <= LIM
    &&& g.sigma2 == sigma2_s(g.radius as int)
    &&& -ONE <= g.cos_a <= ONE
    &&& -ONE <= g.sin_a <= ONE
}

/// The stamp offset rotated into brush coordinates, x component.
pub open spec fn rot_x_s(g: StampGeom, di: int, dj: int) -> int {
    fmul_s(di * ONE, g.cos_a as int) + fmul_s(dj * ONE, g.sin_a as int)
}

/// The rotated y component, stretched across the stroke by the aspect
/// ratio.
pub open spec fn rot_y_s(g: StampGeom, di: int, dj: int) -> int {
    fdiv_s(-fmul_s(di * ONE, g.sin_a as int) + fmul_s(dj * ONE, g.cos_a as int), B_ASPECT as int)
}

/// Squared anisotropic distance of a cell offset from the stamp centre.
pub open spec fn dist_sq_s(g: StampGeom, di: int, dj: int) -> int {
    fmul_s(rot_x_s(g, di, dj), rot_x_s(g, di, dj)) + fmul_s(
        rot_y_s(g, di, dj),
        rot_y_s(g, di, dj),
    )
}

/// Anisotropic distance.
pub open spec fn dist_s(g: StampGeom, di: int, dj: int) -> int {
    fsqrt_s(dist_sq_s(g, di, dj))
}

/// Whether the cell offset lies inside the stamp footprint: inside the
/// bounding square and not beyond the ellipse radius.
pub open spec fn inside_s(g: StampGeom, di: int, dj: int) -> bool {
    &&& -g.span <= di <= g.span
    &&& -g.span <= dj <= g.span
    &&& dist_s(g, di, dj) <= g.radius
}

/// The gaussian weight of a cell offset.
pub open spec fn gauss_s(g: StampGeom, di: int, dj: int) -> int {
    exp_neg_s(fdiv_s(dist_sq_s(g, di, dj), 2 * g.sigma2))
}

/// The spatial bristle hash of a cell.
pub open spec fn bristle_hash_s(x: int, y: int) -> u32 {
    ((x * 73856093) as u32) ^ ((y * 19349663) as u32)
}

/// The bristle factor: 0.6 plus 0.4 spread from the hash, so within
/// `[0.6, 1.0)` of full transfer.
pub open spec fn bristle_s(x: int, y: int) -> int {
    B_BRISTLE_BASE + fmul_s((bristle_hash_s(x, y) >> 16) as int, B_BRISTLE_SPAN as int)
}

/// The geometry a stamp built from these arguments carries.
pub open spec fn geom_s(cx: i64, cy: i64, size: i64, cos_a: i64, sin_a: i64) -> StampGeom {
    StampGeom {
        cx,
        cy,
        radius: radius_s(size as int) as i64,
        span: span_s(radius_s(size as int)) as i64,
        sigma2: sigma2_s(radius_s(size as int)) as i64,
        cos_a,
        sin_a,
    }
}

/// Builds the stamp geometry from the centre, brush size and rotation.
pub fn make_geom(cx: i64, cy: i64, size: i64, cos_a: i64, sin_a: i64) -> (g: StampGeom)
    requires
        -0x2000_0000 <= cx <= 0x2000_0000,
        -0x2000_0000 <= cy <= 0x2000_0000,
        0 <= size <= 0x100_0000,
        -ONE <= cos_a <= ONE,
        -ONE <= sin_a <= ONE,
    ensures
        geom_wf(g),
        g == geom_s(cx, cy, size, cos_a, sin_a),
{
    let radius: i64 = fmax(size, HALF);
    let span: i64 = tdivq(radius + ONE - 1, ONE);
    proof {
        // 1 <= span <= 256
        lemma_tdiv_mono(ONE as int, radius as int + ONE - 1, ONE as int);
        vstd::arithmetic::div_mod::lemma_div_multiples_vanish(1, ONE as int);
        lemma_tdiv_mono(radius as int + ONE - 1, 257 * (ONE as int) - 1, ONE as int);
        vstd::arithmetic::div_mod::lemma_fundamental_div_mod_converse(
            257 * (ONE as int) - 1,
            ONE as int,
            256,
            ONE as int - 1,
        );
    }
    let sigma: i64 = fmul(radius, B_SIGMA);
    proof {
        // 14745 <= sigma <= 7549696, from HALF <= radius <= 0x100_0000
        lemma_fmul_nonneg(radius as int, B_SIGMA as int);
        lemma_fmul_swap_mono(HALF as int, radius as int, B_SIGMA as int);
        lemma_fmul_swap_mono(radius as int, 0x100_0000, B_SIGMA as int);
        assert((HALF as int) * (B_SIGMA as int) == 966361088) by (nonlinear_arith);
        vstd::arithmetic::div_mod::lemma_fundamental_div_mod_converse(
            966361088,
            ONE as int,
            14745,
            32768,
        );
        assert(0x100_0000 * (B_SIGMA as int) == (ONE as int) * 7549696) by (nonlinear_arith);
        vstd::arithmetic::div_mod::lemma_div_multiples_vanish(7549696, ONE as int);
    }
    let sigma2: i64 = fmul(sigma, sigma);
    proof {
        // 3317 <= sigma2 <= LIM
        lemma_fmul_nonneg(sigma as int, sigma as int);
        lemma_fmul_swap_mono(14745, sigma as int, sigma as int);
        lemma_fmul_mono_right(14745, 14745, sigma as int);
        assert((14745 as int) * (14745 as int) == 217415025) by (nonlinear_arith);
        vstd::arithmetic::div_mod::lemma_fundamental_div_mod_converse(
            217415025,
            ONE as int,
            3317,
            32113,
        );
        lemma_fmul_range(sigma as int, sigma as int, 7549696, 7549696);
        assert(7549696 * 7549696 <= (ONE as int) * (LIM as int)) by (nonlinear_arith);
        lemma_tdiv_mono((7549696 as int) * 7549696, (ONE as int) * (LIM as int), ONE as int);
        vstd::arithmetic::div_mod::lemma_div_multiples_vanish(LIM as int, ONE as int);
    }
    StampGeom { cx, cy, radius, span, sigma2, cos_a, sin_a }
}

/// Evaluates the stamp kernel at a cell offset inside the bounding square:
/// whether the cell is inside the ellipse, its gaussian weight, and its
/// anisotropic distance.
pub fn kernel_eval(g: &StampGeom, di: i64, dj: i64) -> (r: (bool, i64, i64))
    requires
        geom_wf(*g),
        -g.span <= di <= g.span,
        -g.span <= dj <= g.span,
    ensures
        r.0 == inside_s(*g, di as int, dj as int),
        r.1 == gauss_s(*g, di as int, dj as int),
        0 <= r.1 <= ONE,
        r.2 == dist_s(*g, di as int, dj as int),
        0 <= r.2 <= 0x800_0000,
{
    let fi: i64 = di * ONE;
    let fj: i64 = dj * ONE;
    let mx1: i64 = fmul(fi, g.cos_a);
    let mx2: i64 = fmul(fj, g.sin_a);
    let my1: i64 = fmul(fi, g.sin_a);
    let my2: i64 = fmul(fj, g.cos_a);
    proof {
        lemma_fmul_range(fi as int, g.cos_a as int, 0x100_0000, ONE as int);
        lemma_fmul_range(fj as int, g.sin_a as int, 0x100_0000, ONE as int);
        lemma_fmul_range(fi as int, g.sin_a as int, 0x100_0000, ONE as int);
        lemma_fmul_range(fj as int, g.cos_a as int, 0x100_0000, ONE as int);
        vstd::arithmetic::div_mod::lemma_div_multiples_vanish(0x100_0000, ONE as int);
        assert((0x100_0000 as int) * (ONE as int) == (ONE as int) * 0x100_0000);
    }
    let rx: i64 = mx1 + mx2;
    let ry: i64 = fdiv(-my1 + my2, B_ASPECT);
    proof {
        lemma_fdiv_abs(-my1 + my2 as int, 0x200_0000, B_ASPECT as int, HALF as int);
        lemma_tdiv_half(0x200_0000);
    }
    let sx: i64 = fmul(rx, rx);
    let sy: i64 = fmul(ry, ry);
    proof {
        lemma_fmul_sq_nonneg(rx as int);
        lemma_fmul_sq_nonneg(ry as int);
        lemma_fmul_range(rx as int, rx as int, 0x200_0000, 0x200_0000);
        lemma_fmul_range(ry as int, ry as int, 0x400_0000, 0x400_0000);
        assert((0x200_0000 as int) * 0x200_0000 == (ONE as int) * 0x4_0000_0000)
            by (nonlinear_arith);
        assert((0x400_0000 as int) * 0x400_0000 == (ONE as int) * 0x10_0000_0000)
            by (nonlinear_arith);
        vstd::arithmetic::div_mod::lemma_div_multiples_vanish(0x4_0000_0000, ONE as int);
        vstd::arithmetic::div_mod::lemma_div_multiples_vanish(0x10_0000_0000, ONE as int);
    }
    let dsq: i64 = sx + sy;
    let dist: i64 = fsqrt(dsq);
    proof {
        crate::trig::lemma_isqrt_bracket((dsq * (ONE as int)) as nat);
        assert(dist as int <= 0x800_0000) by (nonlinear_arith)
            requires
                (dist as int) * (dist as int) <= (dsq as int) * (ONE as int),
                0 <= dist,
                0 <= dsq <= 0x14_0000_0000,
        ;
    }
    let xarg: i64 = fdiv(dsq, 2 * g.sigma2);
    proof {
        lemma_fdiv_abs(dsq as int, 0x14_0000_0000, 2 * g.sigma2 as int, 4096);
        assert((0x14_0000_0000 as int) * (ONE as int) == 4096 * 0x140_0000_0000)
            by (nonlinear_arith);
        vstd::arithmetic::div_mod::lemma_div_multiples_vanish(0x140_0000_0000, 4096);
        lemma_tdiv_bounds(dsq as int * (ONE as int), 2 * g.sigma2 as int);
    }
    let gauss: i64 = exp_neg(xarg);
    let inside: bool = dist <= g.radius;
    (inside, gauss, dist)
}

/// The deterministic bristle factor of a cell, from its spatial hash.
pub fn bristle_at(x: usize, y: usize) -> (r: i64)
    requires
        x <= 0x1000_0000,
        y <= 0x1000_0000,
    ensures
        r == bristle_s(x as int, y as int),
        B_BRISTLE_BASE <= r <= 65535,
{
    let hx: u32 = ((x as u64) * 73856093) as u32;
    let hy: u32 = ((y as u64) * 19349663) as u32;
    let hash: u32 = hx ^ hy;
    let rb: i64 = (hash >> 16u32) as i64;
    proof {
        assert(hash >> 16u32 < 65536) by (bit_vector);
        lemma_fmul_nonneg(rb as int, B_BRISTLE_SPAN as int);
        lemma_fmul_swap_mono(rb as int, 65535, B_BRISTLE_SPAN as int);
        assert((65535 as int) * (B_BRISTLE_SPAN as int) == 1717934490) by (nonlinear_arith);
        vstd::arithmetic::div_mod::lemma_fundamental_div_mod_converse(
            1717934490,
            ONE as int,
            26213,
            39322,
        );
    }
    B_BRISTLE_BASE + fmul(rb, B_BRISTLE_SPAN)
}

/// The arguments of one deposit stamp: geometry, the water and pigment
/// amounts, the brush colour, and the effective pressure.
#[derive(Clone, Copy)]
pub struct DepositParams {
    pub g: StampGeom,
    pub water: i64,
    pub pigment: i64,
    pub cr: i64,
    pub cg: i64,
    pub cb: i64,
    pub press: i64,
}

pub open spec fn deposit_params_wf(p: DepositParams) -> bool {
    &&& geom_wf(p.g)
    &&& 0 <= p.water <= LIM
    &&& 0 <= p.pigment <= LIM
    &&& 0 <= p.cr <= ONE
    &&& 0 <= p.cg <= ONE
    &&& 0 <= p.cb <= ONE
    &&& 0 <= p.press <= ONE
}

/// What one deposit stamp leaves in one cell.
pub struct DepositCell {
    pub h: i64,
    pub gr: i64,
    pub gg: i64,
    pub gb: i64,
    pub mask: i64,
}

/// The deposit stamp at cell `(x, y)`: inside the footprint, water is added
/// (faster into already-wet cells), pigment is added with an edge-darkening
/// boost, and the cell is marked wet; outside, nothing changes. The gaussian
/// weight is shaped by the paper response (ink pools in valleys), the
/// bristle noise and the pressure.
#[verifier::opaque]
pub open spec fn deposit_cell_s(
    h: i64,
    gr: i64,
    gg: i64,
    gb: i64,
    mask: i64,
    paper: i64,
    x: int,
    y: int,
    p: DepositParams,
) -> DepositCell {
    let di = x - p.g.cx;
    let dj = y - p.g.cy;
    if inside_s(p.g, di, dj) {
        let gaussian = gauss_s(p.g, di, dj);
        let bristle = bristle_s(x, y);
        let paper_response = B_PAPER_BASE + fmul_s(B_PAPER_SPAN as int, ONE - paper);
        let norm = fdiv_s(dist_s(p.g, di, dj), p.g.radius as int);
        let edge = ONE + fmul_s(
            smoothstep_s(B_EDGE_LO as int, B_EDGE_HI as int, norm),
            B_EDGE_GAIN as int,
        );
        let wet = min_i(h as int, ONE as int);
        let spread = ONE + fmul_s(wet, B_WET_SPREAD as int);
        let bf = fmul_s(fmul_s(fmul_s(gaussian, paper_response), bristle), p.press as int);
        let dh = fmul_s(fmul_s(fmul_s(p.water as int, bf), spread), B_WATER_GAIN as int);
        let pf = fmul_s(fmul_s(fmul_s(p.pigment as int, bf), edge), B_PIG_GAIN as int);
        DepositCell {
            h: cap_s(h + dh) as i64,
            gr: cap_s(gr + fmul_s(pf, ONE - p.cr)) as i64,
            gg: cap_s(gg + fmul_s(pf, ONE - p.cg)) as i64,
            gb: cap_s(gb + fmul_s(pf, ONE - p.cb)) as i64,
            mask: ONE,
        }
    } else {
        DepositCell { h, gr, gg, gb, mask }
    }
}

/// The deposit stamp at cell index `k` of a grid `w` wide.
pub open spec fn deposit_cell_at(
    f: FieldsModel,
    paper: Seq<i64>,
    w: int,
    p: DepositParams,
    k: int,
) -> DepositCell {
    deposit_cell_s(f.h[k], f.gr[k], f.gg[k], f.gb[k], f.mask[k], paper[k], k % w, k / w, p)
}

/// The whole-grid effect of one deposit stamp.
pub open spec fn deposit_map_s(
    f: FieldsModel,
    paper: Seq<i64>,
    w: int,
    p: DepositParams,
) -> FieldsModel {
    FieldsModel {
        h: Seq::new(f.h.len(), |k: int| deposit_cell_at(f, paper, w, p, k).h),
        mask: Seq::new(f.mask.len(), |k: int| deposit_cell_at(f, paper, w, p, k).mask),
        gr: Seq::new(f.gr.len(), |k: int| deposit_cell_at(f, paper, w, p, k).gr),
        gg: Seq::new(f.gg.len(), |k: int| deposit_cell_at(f, paper, w, p, k).gg),
        gb: Seq::new(f.gb.len(), |k: int| deposit_cell_at(f, paper, w, p, k).gb),
        ..f
    }
}

/// Executes the deposit stamp on one cell, returning the new
/// `(h, gr, gg, gb, mask)`.
#[verifier::rlimit(50)]
fn deposit_cell_exec(
    h0: i64,
    gr0: i64,
    gg0: i64,
    gb0: i64,
    mask0: i64,
    paper: i64,
    x: usize,
    y: usize,
    p: DepositParams,
) -> (c: (i64, i64, i64, i64, i64))
    requires
        deposit_params_wf(p),
        0 <= h0 <= LIM,
        0 <= gr0 <= LIM,
        0 <= gg0 <= LIM,
        0 <= gb0 <= LIM,
        0 <= mask0 <= ONE,
        0 <= paper <= ONE,
        x <= 0x1000_0000,
        y <= 0x1000_0000,
    ensures
        ({
            let cell = deposit_cell_s(h0, gr0, gg0, gb0, mask0, paper, x as int, y as int, p);
            c.0 == cell.h && c.1 == cell.gr && c.2 == cell.gg && c.3 == cell.gb && c.4 == cell.mask
        }),
        0 <= c.0 <= LIM,
        0 <= c.1 <= LIM,
        0 <= c.2 <= LIM,
        0 <= c.3 <= LIM,
        0 <= c.4 <= ONE,
{
    proof {
        reveal(deposit_cell_s);
    }
    let di: i64 = (x as i64) - p.g.cx;
    let dj: i64 = (y as i64) - p.g.cy;
    if !(-p.g.span <= di && di <= p.g.span && -p.g.span <= dj && dj <= p.g.span) {
        return (h0, gr0, gg0, gb0, mask0);
    }
    let ke: (bool, i64, i64) = kernel_eval(&p.g, di, dj);
    if !ke.0 {
        return (h0, gr0, gg0, gb0, mask0);
    }
    let gaussian: i64 = ke.1;
    let dist: i64 = ke.2;
    let bristle: i64 = bristle_at(x, y);
    let paper_response: i64 = B_PAPER_BASE + fmul(B_PAPER_SPAN, ONE - paper);
    proof {
        lemma_fmul_le_left(B_PAPER_SPAN as int, ONE - paper as int);
    }
    let norm: i64 = fdiv(dist, p.g.radius);
    proof {
        lemma_fdiv_abs(dist as int, 0x800_0000, p.g.radius as int, HALF as int);
        lemma_tdiv_half(0x800_0000);
        lemma_tdiv_bounds(dist as int * (ONE as int), p.g.radius as int);
    }
    let edge: i64 = ONE + fmul(smoothstep(B_EDGE_LO, B_EDGE_HI, norm), B_EDGE_GAIN);
    proof {
        lemma_fmul_le_left(
            smoothstep_s(B_EDGE_LO as int, B_EDGE_HI as int, norm as int),
            B_EDGE_GAIN as int,
        );
    }
    let wet: i64 = fmin(h0, ONE);
    let spread: i64 = ONE + fmul(wet, B_WET_SPREAD);
    proof {
        lemma_fmul_le_left(wet as int, B_WET_SPREAD as int);
    }
    let bf1: i64 = fmul(gaussian, paper_response);
    proof {
        lemma_fmul_le_left(gaussian as int, paper_response as int);
    }
    let bf2: i64 = fmul(bf1, bristle);
    proof {
        lemma_fmul_le_left(bf1 as int, bristle as int);
    }
    let bf: i64 = fmul(bf2, p.press);
    proof {
        lemma_fmul_le_left(bf2 as int, p.press as int);
    }
    let dh1: i64 = fmul(p.water, bf);
    proof {
        lemma_fmul_le_left(p.water as int, bf as int);
    }
    let dh2: i64 = fmul(dh1, spread);
    proof {
        lemma_fmul_nonneg(dh1 as int, spread as int);
        lemma_fmul_range(dh1 as int, spread as int, LIM as int, 2 * (ONE as int));
        assert((LIM as int) * (2 * (ONE as int)) == (ONE as int) * (2 * (LIM as int)))
            by (nonlinear_arith);
        vstd::arithmetic::div_mod::lemma_div_multiples_vanish(2 * (LIM as int), ONE as int);
    }
    let dh: i64 = fmul(dh2, B_WATER_GAIN);
    proof {
        lemma_fmul_le_left(dh2 as int, B_WATER_GAIN as int);
    }
    let pf1: i64 = fmul(p.pigment, bf);
    proof {
        lemma_fmul_le_left(p.pigment as int, bf as int);
    }
    let pf2: i64 = fmul(pf1, edge);
    proof {
        lemma_fmul_nonneg(pf1 as int, edge as int);
        lemma_fmul_range(pf1 as int, edge as int, LIM as int, 4 * (ONE as int));
        assert((LIM as int) * (4 * (ONE as int)) == (ONE as int) * (4 * (LIM as int)))
            by (nonlinear_arith);
        vstd::arithmetic::div_mod::lemma_div_multiples_vanish(4 * (LIM as int), ONE as int);
    }
    let pf: i64 = fmul(pf2, B_PIG_GAIN);
    proof {
        lemma_fmul_le_left(pf2 as int, B_PIG_GAIN as int);
        lemma_fmul_le_left(pf as int, ONE - p.cr as int);
        lemma_fmul_le_left(pf as int, ONE - p.cg as int);
        lemma_fmul_le_left(pf as int, ONE - p.cb as int);
    }
    let hh: i64 = cap_lim(h0 + dh);
    let vgr: i64 = cap_lim(gr0 + fmul(pf, ONE - p.cr));
    let vgg: i64 = cap_lim(gg0 + fmul(pf, ONE - p.cg));
    let vgb: i64 = cap_lim(gb0 + fmul(pf, ONE - p.cb));
    (hh, vgr, vgg, vgb, ONE)
}

impl WatercolorEngine {
    /// Applies one deposit stamp: the whole-grid effect is exactly
    /// `deposit_map_s`, and nothing else of the engine moves.
    pub(crate) fn deposit_stamp(&mut self, p: DepositParams)
        requires
            old(self).wf(),
            deposit_params_wf(p),
        ensures
            final(self).wf(),
            final(self).model() == deposit_map_s(
                old(self).model(),
                old(self).paper_h@,
                old(self).width as int,
                p,
            ),
            old(self).same_frame(*final(self)),
    {
        let w: usize = self.width;
        let total: usize = self.total;
        proof {
            assert(self.width <= self.total) by (nonlinear_arith)
                requires
                    self.total == self.width * self.height,
                    1 <= self.width,
                    1 <= self.height,
            ;
        }
        let mut nh: Vec<i64> = Vec::new();
        let mut ngr: Vec<i64> = Vec::new();
        let mut ngg: Vec<i64> = Vec::new();
        let mut ngb: Vec<i64> = Vec::new();
        let mut nmask: Vec<i64> = Vec::new();
        let mut k: usize = 0;
        while k < total
            invariant
                *self == *old(self),
                self.wf(),
                deposit_params_wf(p),
                w == self.width,
                total == self.total,
                w <= total,
                k <= total,
                nh@.len() == k,
                ngr@.len() == k,
                ngg@.len() == k,
                ngb@.len() == k,
                nmask@.len() == k,
                forall|m: int|
                    0 <= m < k ==> #[trigger] nh@[m] == deposit_cell_at(
                        self.model(),
                        self.paper_h@,
                        w as int,
                        p,
                        m,
                    ).h,
                forall|m: int|
                    0 <= m < k ==> #[trigger] ngr@[m] == deposit_cell_at(
                        self.model(),
                        self.paper_h@,
                        w as int,
                        p,
                        m,
                    ).gr,
                forall|m: int|
                    0 <= m < k ==> #[trigger] ngg@[m] == deposit_cell_at(
                        self.model(),
                        self.paper_h@,
                        w as int,
                        p,
                        m,
                    ).gg,
                forall|m: int|
                    0 <= m < k ==> #[trigger] ngb@[m] == deposit_cell_at(
                        self.model(),
                        self.paper_h@,
                        w as int,
                        p,
                        m,
                    ).gb,
                forall|m: int|
                    0 <= m < k ==> #[trigger] nmask@[m] == deposit_cell_at(
                        self.model(),
                        self.paper_h@,
                        w as int,
                        p,
                        m,
                    ).mask,
                forall|m: int| 0 <= m < k ==> 0 <= #[trigger] nh@[m] <= LIM,
                forall|m: int| 0 <= m < k ==> 0 <= #[trigger] ngr@[m] <= LIM,
                forall|m: int| 0 <= m < k ==> 0 <= #[trigger] ngg@[m] <= LIM,
                forall|m: int| 0 <= m < k ==> 0 <= #[trigger] ngb@[m] <= LIM,
                forall|m: int| 0 <= m < k ==> 0 <= #[trigger] nmask@[m] <= ONE,
            decreases total - k,
        {
            let x: usize = k % w;
            let y: usize = k / w;
            proof {
                lemma_mod_division_less_than_divisor(k as int, w as int);
                lemma_div_nonincreasing(k as int, w as int);
            }
            let c: (i64, i64, i64, i64, i64) = deposit_cell_exec(
                self.h[k],
                self.gr[k],
                self.gg[k],
                self.gb[k],
                self.mask[k],
                self.paper_h[k],
                x,
                y,
                p,
            );
            nh.push(c.0);
            ngr.push(c.1);
            ngg.push(c.2);
            ngb.push(c.3);
            nmask.push(c.4);
            k = k + 1;
        }
        self.h = nh;
        self.gr = ngr;
        self.gg = ngg;
        self.gb = ngb;
        self.mask = nmask;
        proof {
            let m0 = old(self).model();
            let paper0 = old(self).paper_h@;
            let w0 = old(self).width as int;
            let mm = deposit_map_s(m0, paper0, w0, p);
            assert forall|i: int| 0 <= i < m0.h.len() implies #[trigger] mm.h[i] == nh@[i] by {
                assert(nh@[i] == deposit_cell_at(m0, paper0, w0, p, i).h);
            }
            assert forall|i: int| 0 <= i < m0.gr.len() implies #[trigger] mm.gr[i] == ngr@[i] by {
                assert(ngr@[i] == deposit_cell_at(m0, paper0, w0, p, i).gr);
            }
            assert forall|i: int| 0 <= i < m0.gg.len() implies #[trigger] mm.gg[i] == ngg@[i] by {
                assert(ngg@[i] == deposit_cell_at(m0, paper0, w0, p, i).gg);
            }
            assert forall|i: int| 0 <= i < m0.gb.len() implies #[trigger] mm.gb[i] == ngb@[i] by {
                assert(ngb@[i] == deposit_cell_at(m0, paper0, w0, p, i).gb);
            }
            assert forall|i: int|
                0 <= i < m0.mask.len() implies #[trigger] mm.mask[i] == nmask@[i] by {
                assert(nmask@[i] == deposit_cell_at(m0, paper0, w0, p, i).mask);
            }
            assert(mm.h =~= nh@);
            assert(mm.gr =~= ngr@);
            assert(mm.gg =~= ngg@);
            assert(mm.gb =~= ngb@);
            assert(mm.mask =~= nmask@);
            assert(final(self).model() =~= mm);
        }
    }
}

/// The arguments of one fade stamp.
#[derive(Clone, Copy)]
pub struct FadeParams {
    pub g: StampGeom,
    pub strength: i64,
    pub press: i64,
}

pub open spec fn fade_params_wf(p: FadeParams) -> bool {
    &&& geom_wf(p.g)
    &&& 0 <= p.strength <= ONE
    &&& 0 <= p.press <= ONE
}

/// What one fade stamp leaves in one cell.
pub struct FadeCell {
    pub h: i64,
    pub mask: i64,
    pub gr: i64,
    pub gg: i64,
    pub gb: i64,
    pub dr: i64,
    pub dg: i64,
    pub db: i64,
}

/// The fade stamp at cell index `k`: inside the footprint a fade factor —
/// gaussian weight shaped by paper response, pressure and a wet boost,
/// hard-capped at 0.75 — scales suspended pigment down, deposits down more
/// gently, and water and the wet mask down gentler still.
#[verifier::opaque]
pub open spec fn fade_cell_s(
    f: FieldsModel,
    paper: Seq<i64>,
    w: int,
    p: FadeParams,
    k: int,
) -> FadeCell {
    let x = k % w;
    let y = k / w;
    let di = x - p.g.cx;
    let dj = y - p.g.cy;
    if inside_s(p.g, di, dj) {
        let gaussian = gauss_s(p.g, di, dj);
        let paper_response = B_FADE_PAPER_BASE + fmul_s(B_FADE_PAPER_SPAN as int, ONE - paper[k]);
        let wet = min_i(f.h[k] as int, ONE as int);
        let wet_boost = ONE + fmul_s(wet, B_FADE_WET as int);
        let f1 = fmul_s(p.strength as int, gaussian);
        let f2 = fmul_s(f1, paper_response);
        let f3 = fmul_s(f2, p.press as int);
        let f4 = fmul_s(f3, wet_boost);
        let fade = clamp_s(fmul_s(f4, B_FADE_GAIN as int), 0, B_FADE_CAP as int);
        let keep = ONE - fade;
        let dkeep = ONE - fmul_s(fade, B_FADE_DEP as int);
        let hkeep = ONE - fmul_s(fade, B_FADE_WATER as int);
        let mkeep = ONE - fmul_s(fade, B_FADE_MASK as int);
        FadeCell {
            h: fmul_s(f.h[k] as int, hkeep) as i64,
            mask: fmul_s(f.mask[k] as int, mkeep) as i64,
            gr: fmul_s(f.gr[k] as int, keep) as i64,
            gg: fmul_s(f.gg[k] as int, keep) as i64,
            gb: fmul_s(f.gb[k] as int, keep) as i64,
            dr: fmul_s(f.dr[k] as int, dkeep) as i64,
            dg: fmul_s(f.dg[k] as int, dkeep) as i64,
            db: fmul_s(f.db[k] as int, dkeep) as i64,
        }
    } else {
        FadeCell {
            h: f.h[k],
            mask: f.mask[k],
            gr: f.gr[k],
            gg: f.gg[k],
            gb: f.gb[k],
            dr: f.dr[k],
            dg: f.dg[k],
            db: f.db[k],
        }
    }
}

/// The whole-grid effect of one fade stamp.
pub open spec fn fade_map_s(
    f: FieldsModel,
    paper: Seq<i64>,
    w: int,
    p: FadeParams,
) -> FieldsModel {
    FieldsModel {
        h: Seq::new(f.h.len(), |k: int| fade_cell_s(f, paper, w, p, k).h),
        mask: Seq::new(f.mask.len(), |k: int| fade_cell_s(f, paper, w, p, k).mask),
        gr: Seq::new(f.gr.len(), |k: int| fade_cell_s(f, paper, w, p, k).gr),
        gg: Seq::new(f.gg.len(), |k: int| fade_cell_s(f, paper, w, p, k).gg),
        gb: Seq::new(f.gb.len(), |k: int| fade_cell_s(f, paper, w, p, k).gb),
        dr: Seq::new(f.dr.len(), |k: int| fade_cell_s(f, paper, w, p, k).dr),
        dg: Seq::new(f.dg.len(), |k: int| fade_cell_s(f, paper, w, p, k).dg),
        db: Seq::new(f.db.len(), |k: int| fade_cell_s(f, paper, w, p, k).db),
        ..f
    }
}

/// The arguments of one blend stamp.
#[derive(Clone, Copy)]
pub struct BlendParams {
    pub g: StampGeom,
    pub strength: i64,
    pub press: i64,
}

pub open spec fn blend_params_wf(p: BlendParams) -> bool {
    &&& geom_wf(p.g)
    &&& 0 <= p.strength <= ONE
    &&& 0 <= p.press <= ONE
}

/// What one blend stamp leaves in one cell.
pub struct BlendCell {
    pub h: i64,
    pub mask: i64,
    pub gr: i64,
    pub gg: i64,
    pub gb: i64,
    pub dr: i64,
    pub dg: i64,
    pub db: i64,
}

/// The blend stamp at cell index `k`: away from a one-cell border and
/// inside the footprint, each pigment channel moves toward the 3-by-3
/// neighbourhood average of the pre-stamp state by the blend factor, and a
/// small water bump wets the cell. All averages read the prior fields, so
/// partially blended neighbours are never seen.
#[verifier::opaque]
pub open spec fn blend_cell_s(
    f: FieldsModel,
    paper: Seq<i64>,
    w: int,
    hgt: int,
    p: BlendParams,
    k: int,
) -> BlendCell {
    let x = k % w;
    let y = k / w;
    let di = x - p.g.cx;
    let dj = y - p.g.cy;
    let blend = clamp_s(
        fmul_s(fmul_s(p.strength as int, gauss_s(p.g, di, dj)), p.press as int),
        0,
        B_BLEND_CAP as int,
    );
    if 2 <= x && x + 2 <= w && 2 <= y && y + 2 <= hgt && inside_s(p.g, di, dj) && blend
        > B_BLEND_MIN {
        let avg_gr = tdiv_s(sum9_s(f.gr, w, k), 9);
        let avg_gg = tdiv_s(sum9_s(f.gg, w, k), 9);
        let avg_gb = tdiv_s(sum9_s(f.gb, w, k), 9);
        let avg_dr = tdiv_s(sum9_s(f.dr, w, k), 9);
        let avg_dg = tdiv_s(sum9_s(f.dg, w, k), 9);
        let avg_db = tdiv_s(sum9_s(f.db, w, k), 9);
        BlendCell {
            h: cap_s(f.h[k] + fmul_s(blend, B_BLEND_WATER as int)) as i64,
            mask: ONE,
            gr: cap_s(fmul_s(f.gr[k] as int, ONE - blend) + fmul_s(avg_gr, blend)) as i64,
            gg: cap_s(fmul_s(f.gg[k] as int, ONE - blend) + fmul_s(avg_gg, blend)) as i64,
            gb: cap_s(fmul_s(f.gb[k] as int, ONE - blend) + fmul_s(avg_gb, blend)) as i64,
            dr: cap_s(fmul_s(f.dr[k] as int, ONE - blend) + fmul_s(avg_dr, blend)) as i64,
            dg: cap_s(fmul_s(f.dg[k] as int, ONE - blend) + fmul_s(avg_dg, blend)) as i64,
            db: cap_s(fmul_s(f.db[k] as int, ONE - blend) + fmul_s(avg_db, blend)) as i64,
        }
    } else {
        BlendCell {
            h: f.h[k],
            mask: f.mask[k],
            gr: f.gr[k],
            gg: f.gg[k],
            gb: f.gb[k],
            dr: f.dr[k],
            dg: f.dg[k],
            db: f.db[k],
        }
    }
}

/// The 3-by-3 neighbourhood sum of a field around interior cell `k`.
pub open spec fn sum9_s(s: Seq<i64>, w: int, k: int) -> int {
    s[k - w - 1] + s[k - w] + s[k - w + 1] + s[k - 1] + s[k] + s[k + 1] + s[k + w - 1] + s[k + w]
        + s[k + w + 1]
}

/// The whole-grid effect of one blend stamp.
pub open spec fn blend_map_s(
    f: FieldsModel,
    paper: Seq<i64>,
    w: int,
    hgt: int,
    p: BlendParams,
) -> FieldsModel {
    FieldsModel {
        h: Seq::new(f.h.len(), |k: int| blend_cell_s(f, paper, w, hgt, p, k).h),
        mask: Seq::new(f.mask.len(), |k: int| blend_cell_s(f, paper, w, hgt, p, k).mask),
        gr: Seq::new(f.gr.len(), |k: int| blend_cell_s(f, paper, w, hgt, p, k).gr),
        gg: Seq::new(f.gg.len(), |k: int| blend_cell_s(f, paper, w, hgt, p, k).gg),
        gb: Seq::new(f.gb.len(), |k: int| blend_cell_s(f, paper, w, hgt, p, k).gb),
        dr: Seq::new(f.dr.len(), |k: int| blend_cell_s(f, paper, w, hgt, p, k).dr),
        dg: Seq::new(f.dg.len(), |k: int| blend_cell_s(f, paper, w, hgt, p, k).dg),
        db: Seq::new(f.db.len(), |k: int| blend_cell_s(f, paper, w, hgt, p, k).db),
        ..f
    }
}

/// The arguments of one water-only stamp.
#[derive(Clone, Copy)]
pub struct WaterParams {
    pub g: StampGeom,
    pub water: i64,
    pub flow: i64,
    pub press: i64,
}

pub open spec fn water_params_wf(p: WaterParams) -> bool {
    &&& geom_wf(p.g)
    &&& 0 <= p.water <= LIM
    &&& 0 <= p.flow <= B_FLOW_MAX
    &&& 0 <= p.press <= ONE
}

/// What one water stamp leaves in one cell.
pub struct WaterCell {
    pub h: i64,
    pub u: i64,
    pub v: i64,
    pub mask: i64,
    pub gr: i64,
    pub gg: i64,
    pub gb: i64,
    pub dr: i64,
    pub dg: i64,
    pub db: i64,
}

/// The water-only stamp at cell index `k`: away from a one-cell border and
/// inside the footprint, water is added, the velocity is nudged radially by
/// the flow strength (strongest near the stamp edge), and a fraction of the
/// deposited pigment is lifted back into suspension — the one path that
/// decreases a deposit.
#[verifier::opaque]
pub open spec fn water_cell_s(
    f: FieldsModel,
    paper: Seq<i64>,
    w: int,
    hgt: int,
    p: WaterParams,
    k: int,
) -> WaterCell {
    let x = k % w;
    let y = k / w;
    let di = x - p.g.cx;
    let dj = y - p.g.cy;
    if 2 <= x && x + 2 <= w && 2 <= y && y + 2 <= hgt && inside_s(p.g, di, dj) {
        let gaussian = gauss_s(p.g, di, dj);
        let radial_x = fdiv_s(di * ONE, p.g.radius as int + C_EPS);
        let radial_y = fdiv_s(dj * ONE, p.g.radius as int + C_EPS);
        let edge = smoothstep_s(
            B_FLOW_LO as int,
            B_FLOW_HI as int,
            fdiv_s(dist_s(p.g, di, dj), p.g.radius as int),
        );
        let add_water = fmul_s(
            fmul_s(fmul_s(p.water as int, gaussian), p.press as int),
            B_WATER_ADD as int,
        );
        let nudge_u = fmul_s(fmul_s(fmul_s(radial_x, p.flow as int), edge), B_FLOW_GAIN as int);
        let nudge_v = fmul_s(fmul_s(fmul_s(radial_y, p.flow as int), edge), B_FLOW_GAIN as int);
        let lift = min_i(
            fmul_s(fmul_s(gaussian, p.flow as int), B_LIFT_GAIN as int),
            B_LIFT_CAP as int,
        );
        let move_r = fmul_s(f.dr[k] as int, lift);
        let move_g = fmul_s(f.dg[k] as int, lift);
        let move_b = fmul_s(f.db[k] as int, lift);
        WaterCell {
            h: cap_s(f.h[k] + add_water) as i64,
            u: clip_s(f.u[k] + nudge_u) as i64,
            v: clip_s(f.v[k] + nudge_v) as i64,
            mask: ONE,
            gr: cap_s(f.gr[k] + move_r) as i64,
            gg: cap_s(f.gg[k] + move_g) as i64,
            gb: cap_s(f.gb[k] + move_b) as i64,
            dr: (f.dr[k] - move_r) as i64,
            dg: (f.dg[k] - move_g) as i64,
            db: (f.db[k] - move_b) as i64,
        }
    } else {
        WaterCell {
            h: f.h[k],
            u: f.u[k],
            v: f.v[k],
            mask: f.mask[k],
            gr: f.gr[k],
            gg: f.gg[k],
            gb: f.gb[k],
            dr: f.dr[k],
            dg: f.dg[k],
            db: f.db[k],
        }
    }
}

/// The whole-grid effect of one water stamp.
pub open spec fn water_map_s(
    f: FieldsModel,
    paper: Seq<i64>,
    w: int,
    hgt: int,
    p: WaterParams,
) -> FieldsModel {
    FieldsModel {
        h: Seq::new(f.h.len(), |k: int| water_cell_s(f, paper, w, hgt, p, k).h),
        u: Seq::new(f.u.len(), |k: int| water_cell_s(f, paper, w, hgt, p, k).u),
        v: Seq::new(f.v.len(), |k: int| water_cell_s(f, paper, w, hgt, p, k).v),
        mask: Seq::new(f.mask.len(), |k: int| water_cell_s(f, paper, w, hgt, p, k).mask),
        gr: Seq::new(f.gr.len(), |k: int| water_cell_s(f, paper, w, hgt, p, k).gr),
        gg: Seq::new(f.gg.len(), |k: int| water_cell_s(f, paper, w, hgt, p, k).gg),
        gb: Seq::new(f.gb.len(), |k: int| water_cell_s(f, paper, w, hgt, p, k).gb),
        dr: Seq::new(f.dr.len(), |k: int| water_cell_s(f, paper, w, hgt, p, k).dr),
        dg: Seq::new(f.dg.len(), |k: int| water_cell_s(f, paper, w, hgt, p, k).dg),
        db: Seq::new(f.db.len(), |k: int| water_cell_s(f, paper, w, hgt, p, k).db),
        ..f
    }
}

/// Executes the fade stamp on one cell.
#[verifier::rlimit(50)]
fn fade_cell_exec(e: &WatercolorEngine, k: usize, p: FadeParams) -> (c: FadeCell)
    requires
        e.wf(),
        k < e.total,
        fade_params_wf(p),
    ensures
        c == fade_cell_s(e.model(), e.paper_h@, e.width as int, p, k as int),
        0 <= c.h <= LIM,
        0 <= c.mask <= ONE,
        0 <= c.gr <= LIM,
        0 <= c.gg <= LIM,
        0 <= c.gb <= LIM,
        0 <= c.dr <= LIM,
        0 <= c.dg <= LIM,
        0 <= c.db <= LIM,
{
    proof {
        reveal(fade_cell_s);
        assert(e.width <= e.total) by (nonlinear_arith)
            requires
                e.total == e.width * e.height,
                1 <= e.width,
                1 <= e.height,
        ;
    }
    let w: usize = e.width;
    let x: usize = k % w;
    let y: usize = k / w;
    proof {
        lemma_mod_division_less_than_divisor(k as int, w as int);
        lemma_div_nonincreasing(k as int, w as int);
    }
    let di: i64 = (x as i64) - p.g.cx;
    let dj: i64 = (y as i64) - p.g.cy;
    let h0: i64 = e.h[k];
    let mask0: i64 = e.mask[k];
    let gr0: i64 = e.gr[k];
    let gg0: i64 = e.gg[k];
    let gb0: i64 = e.gb[k];
    let dr0: i64 = e.dr[k];
    let dg0: i64 = e.dg[k];
    let db0: i64 = e.db[k];
    let id = FadeCell { h: h0, mask: mask0, gr: gr0, gg: gg0, gb: gb0, dr: dr0, dg: dg0, db: db0 };
    if !(-p.g.span <= di && di <= p.g.span && -p.g.span <= dj && dj <= p.g.span) {
        return id;
    }
    let ke: (bool, i64, i64) = kernel_eval(&p.g, di, dj);
    if !ke.0 {
        return id;
    }
    let gaussian: i64 = ke.1;
    let paper: i64 = e.paper_h[k];
    let paper_response: i64 = B_FADE_PAPER_BASE + fmul(B_FADE_PAPER_SPAN, ONE - paper);
    proof {
        lemma_fmul_le_left(B_FADE_PAPER_SPAN as int, ONE - paper as int);
    }
    let wet: i64 = fmin(h0, ONE);
    let wet_boost: i64 = ONE + fmul(wet, B_FADE_WET);
    proof {
        lemma_fmul_le_left(wet as int, B_FADE_WET as int);
    }
    let f1: i64 = fmul(p.strength, gaussian);
    proof {
        lemma_fmul_le_left(p.strength as int, gaussian as int);
    }
    let f2: i64 = fmul(f1, paper_response);
    proof {
        lemma_fmul_le_left(f1 as int, paper_response as int);
    }
    let f3: i64 = fmul(f2, p.press);
    proof {
        lemma_fmul_le_left(f2 as int, p.press as int);
    }
    let f4: i64 = fmul(f3, wet_boost);
    proof {
        lemma_fmul_nonneg(f3 as int, wet_boost as int);
        lemma_fmul_range(f3 as int, wet_boost as int, ONE as int, 2 * (ONE as int));
        assert((ONE as int) * (2 * (ONE as int)) == (ONE as int) * (2 * (ONE as int)));
        vstd::arithmetic::div_mod::lemma_div_multiples_vanish(2 * (ONE as int), ONE as int);
    }
    let fade: i64 = clamp_to(fmul(f4, B_FADE_GAIN), 0, B_FADE_CAP);
    let keep: i64 = ONE - fade;
    let dk1: i64 = fmul(fade, B_FADE_DEP);
    let hk1: i64 = fmul(fade, B_FADE_WATER);
    let mk1: i64 = fmul(fade, B_FADE_MASK);
    proof {
        lemma_fmul_le_left(fade as int, B_FADE_DEP as int);
        lemma_fmul_le_left(fade as int, B_FADE_WATER as int);
        lemma_fmul_le_left(fade as int, B_FADE_MASK as int);
    }
    let dkeep: i64 = ONE - dk1;
    let hkeep: i64 = ONE - hk1;
    let mkeep: i64 = ONE - mk1;
    proof {
        lemma_fmul_le_left(h0 as int, hkeep as int);
        lemma_fmul_le_left(mask0 as int, mkeep as int);
        lemma_fmul_le_left(gr0 as int, keep as int);
        lemma_fmul_le_left(gg0 as int, keep as int);
        lemma_fmul_le_left(gb0 as int, keep as int);
        lemma_fmul_le_left(dr0 as int, dkeep as int);
        lemma_fmul_le_left(dg0 as int, dkeep as int);
        lemma_fmul_le_left(db0 as int, dkeep as int);
    }
    FadeCell {
        h: fmul(h0, hkeep),
        mask: fmul(mask0, mkeep),
        gr: fmul(gr0, keep),
        gg: fmul(gg0, keep),
        gb: fmul(gb0, keep),
        dr: fmul(dr0, dkeep),
        dg: fmul(dg0, dkeep),
        db: fmul(db0, dkeep),
    }
}

/// Executes the blend stamp on one cell.
#[verifier::rlimit(80)]
fn blend_cell_exec(e: &WatercolorEngine, k: usize, p: BlendParams) -> (c: BlendCell)
    requires
        e.wf(),
        k < e.total,
        blend_params_wf(p),
    ensures
        c == blend_cell_s(e.model(), e.paper_h@, e.width as int, e.height as int, p, k as int),
        0 <= c.h <= LIM,
        0 <= c.mask <= ONE,
        0 <= c.gr <= LIM,
        0 <= c.gg <= LIM,
        0 <= c.gb <= LIM,
        0 <= c.dr <= LIM,
        0 <= c.dg <= LIM,
        0 <= c.db <= LIM,
{
    proof {
        reveal(blend_cell_s);
        assert(e.width <= e.total) by (nonlinear_arith)
            requires
                e.total == e.width * e.height,
                1 <= e.width,
                1 <= e.height,
        ;
    }
    let w: usize = e.width;
    let hgt: usize = e.height;
    let x: usize = k % w;
    let y: usize = k / w;
    proof {
        lemma_mod_division_less_than_divisor(k as int, w as int);
        lemma_div_nonincreasing(k as int, w as int);
    }
    let di: i64 = (x as i64) - p.g.cx;
    let dj: i64 = (y as i64) - p.g.cy;
    let id = BlendCell {
        h: e.h[k],
        mask: e.mask[k],
        gr: e.gr[k],
        gg: e.gg[k],
        gb: e.gb[k],
        dr: e.dr[k],
        dg: e.dg[k],
        db: e.db[k],
    };
    if !(2 <= x && x + 2 <= w && 2 <= y && y + 2 <= hgt) {
        return id;
    }
    if !(-p.g.span <= di && di <= p.g.span && -p.g.span <= dj && dj <= p.g.span) {
        return id;
    }
    let ke: (bool, i64, i64) = kernel_eval(&p.g, di, dj);
    if !ke.0 {
        return id;
    }
    let b1: i64 = fmul(p.strength, ke.1);
    proof {
        lemma_fmul_le_left(p.strength as int, ke.1 as int);
    }
    let b2: i64 = fmul(b1, p.press);
    proof {
        lemma_fmul_le_left(b1 as int, p.press as int);
    }
    let blend: i64 = clamp_to(b2, 0, B_BLEND_CAP);
    if !(blend > B_BLEND_MIN) {
        return id;
    }
    proof {
        vstd::arithmetic::div_mod::lemma_fundamental_div_mod(k as int, w as int);
        assert((w as int) * (y as int) >= 2 * (w as int) && (w as int) * (y as int) <= (
        w as int) * ((hgt as int) - 2)) by (nonlinear_arith)
            requires
                2 <= y,
                (y as int) + 2 <= hgt as int,
                1 <= w,
        ;
        assert((w as int) * ((hgt as int) - 2) == (w as int) * (hgt as int) - 2 * (w as int))
            by (nonlinear_arith);
        assert((w as int) * (hgt as int) == (hgt as int) * (w as int)) by (nonlinear_arith);
    }
    let kmw: usize = k - w;
    let kpw: usize = k + w;
    let avg_gr: i64 = avg9(&e.gr, kmw, k, kpw);
    let avg_gg: i64 = avg9(&e.gg, kmw, k, kpw);
    let avg_gb: i64 = avg9(&e.gb, kmw, k, kpw);
    let avg_dr: i64 = avg9(&e.dr, kmw, k, kpw);
    let avg_dg: i64 = avg9(&e.dg, kmw, k, kpw);
    let avg_db: i64 = avg9(&e.db, kmw, k, kpw);
    proof {
        lemma_fmul_le_left(e.gr@[k as int] as int, ONE - blend as int);
        lemma_fmul_le_left(e.gg@[k as int] as int, ONE - blend as int);
        lemma_fmul_le_left(e.gb@[k as int] as int, ONE - blend as int);
        lemma_fmul_le_left(e.dr@[k as int] as int, ONE - blend as int);
        lemma_fmul_le_left(e.dg@[k as int] as int, ONE - blend as int);
        lemma_fmul_le_left(e.db@[k as int] as int, ONE - blend as int);
        lemma_fmul_le_left(avg_gr as int, blend as int);
        lemma_fmul_le_left(avg_gg as int, blend as int);
        lemma_fmul_le_left(avg_gb as int, blend as int);
        lemma_fmul_le_left(avg_dr as int, blend as int);
        lemma_fmul_le_left(avg_dg as int, blend as int);
        lemma_fmul_le_left(avg_db as int, blend as int);
        lemma_fmul_le_left(blend as int, B_BLEND_WATER as int);
    }
    BlendCell {
        h: cap_lim(e.h[k] + fmul(blend, B_BLEND_WATER)),
        mask: ONE,
        gr: cap_lim(fmul(e.gr[k], ONE - blend) + fmul(avg_gr, blend)),
        gg: cap_lim(fmul(e.gg[k], ONE - blend) + fmul(avg_gg, blend)),
        gb: cap_lim(fmul(e.gb[k], ONE - blend) + fmul(avg_gb, blend)),
        dr: cap_lim(fmul(e.dr[k], ONE - blend) + fmul(avg_dr, blend)),
        dg: cap_lim(fmul(e.dg[k], ONE - blend) + fmul(avg_dg, blend)),
        db: cap_lim(fmul(e.db[k], ONE - blend) + fmul(avg_db, blend)),
    }
}

/// The truncated 3-by-3 neighbourhood average of a field, given the row
/// base indices.
fn avg9(s: &Vec<i64>, kmw: usize, k: usize, kpw: usize) -> (r: i64)
    requires
        in_lim(s@),
        kmw + 1 < s@.len(),
        k + 1 < s@.len(),
        kpw + 1 < s@.len(),
        1 <= kmw,
        1 <= k,
        1 <= kpw,
    ensures
        r == tdiv_s(
            s@[kmw as int - 1] + s@[kmw as int] + s@[kmw as int + 1] + s@[k as int - 1]
                + s@[k as int] + s@[k as int + 1] + s@[kpw as int - 1] + s@[kpw as int]
                + s@[kpw as int + 1],
            9,
        ),
        0 <= r <= LIM,
{
    let n: usize = s.len();
    proof {
        assert(0 <= s@[kmw as int - 1] <= LIM);
        assert(0 <= s@[kmw as int] <= LIM);
        assert(0 <= s@[kmw as int + 1] <= LIM);
        assert(0 <= s@[k as int - 1] <= LIM);
        assert(0 <= s@[k as int] <= LIM);
        assert(0 <= s@[k as int + 1] <= LIM);
        assert(0 <= s@[kpw as int - 1] <= LIM);
        assert(0 <= s@[kpw as int] <= LIM);
        assert(0 <= s@[kpw as int + 1] <= LIM);
    }
    let sum: i64 = s[kmw - 1] + s[kmw] + s[kmw + 1] + s[k - 1] + s[k] + s[k + 1] + s[kpw - 1]
        + s[kpw] + s[kpw + 1];
    proof {
        lemma_tdiv_bounds(sum as int, 9);
        lemma_tdiv_mono(sum as int, 9 * (LIM as int), 9);
        vstd::arithmetic::div_mod::lemma_div_multiples_vanish(LIM as int, 9);
    }
    tdivq(sum, 9)
}

/// Executes the water stamp on one cell.
#[verifier::rlimit(80)]
fn water_cell_exec(e: &WatercolorEngine, k: usize, p: WaterParams) -> (c: WaterCell)
    requires
        e.wf(),
        k < e.total,
        water_params_wf(p),
    ensures
        c == water_cell_s(e.model(), e.paper_h@, e.width as int, e.height as int, p, k as int),
        0 <= c.h <= LIM,
        -LIM <= c.u <= LIM,
        -LIM <= c.v <= LIM,
        0 <= c.mask <= ONE,
        0 <= c.gr <= LIM,
        0 <= c.gg <= LIM,
        0 <= c.gb <= LIM,
        0 <= c.dr <= LIM,
        0 <= c.dg <= LIM,
        0 <= c.db <= LIM,
{
    proof {
        reveal(water_cell_s);
        assert(e.width <= e.total) by (nonlinear_arith)
            requires
                e.total == e.width * e.height,
                1 <= e.width,
                1 <= e.height,
        ;
    }
    let w: usize = e.width;
    let hgt: usize = e.height;
    let x: usize = k % w;
    let y: usize = k / w;
    proof {
        lemma_mod_division_less_than_divisor(k as int, w as int);
        lemma_div_nonincreasing(k as int, w as int);
    }
    let di: i64 = (x as i64) - p.g.cx;
    let dj: i64 = (y as i64) - p.g.cy;
    let id = WaterCell {
        h: e.h[k],
        u: e.u[k],
        v: e.v[k],
        mask: e.mask[k],
        gr: e.gr[k],
        gg: e.gg[k],
        gb: e.gb[k],
        dr: e.dr[k],
        dg: e.dg[k],
        db: e.db[k],
    };
    if !(2 <= x && x + 2 <= w && 2 <= y && y + 2 <= hgt) {
        return id;
    }
    if !(-p.g.span <= di && di <= p.g.span && -p.g.span <= dj && dj <= p.g.span) {
        return id;
    }
    let ke: (bool, i64, i64) = kernel_eval(&p.g, di, dj);
    if !ke.0 {
        return id;
    }
    let gaussian: i64 = ke.1;
    let dist: i64 = ke.2;
    let radial_x: i64 = fdiv(di * ONE, p.g.radius + C_EPS);
    let radial_y: i64 = fdiv(dj * ONE, p.g.radius + C_EPS);
    proof {
        lemma_fdiv_abs(di as int * ONE, 0x100_0000, p.g.radius as int + C_EPS, HALF as int);
        lemma_fdiv_abs(dj as int * ONE, 0x100_0000, p.g.radius as int + C_EPS, HALF as int);
        lemma_tdiv_half(0x100_0000);
    }
    let norm: i64 = fdiv(dist, p.g.radius);
    proof {
        lemma_fdiv_abs(dist as int, 0x800_0000, p.g.radius as int, HALF as int);
        lemma_tdiv_half(0x800_0000);
        lemma_tdiv_bounds(dist as int * (ONE as int), p.g.radius as int);
    }
    let edge: i64 = smoothstep(B_FLOW_LO, B_FLOW_HI, norm);
    let aw1: i64 = fmul(p.water, gaussian);
    proof {
        lemma_fmul_le_left(p.water as int, gaussian as int);
    }
    let aw2: i64 = fmul(aw1, p.press);
    proof {
        lemma_fmul_le_left(aw1 as int, p.press as int);
    }
    let add_water: i64 = fmul(aw2, B_WATER_ADD);
    proof {
        lemma_fmul_le_left(aw2 as int, B_WATER_ADD as int);
    }
    let nu1: i64 = fmul(radial_x, p.flow);
    let nv1: i64 = fmul(radial_y, p.flow);
    proof {
        lemma_fmul_range(radial_x as int, p.flow as int, 0x200_0000, B_FLOW_MAX as int);
        lemma_fmul_range(radial_y as int, p.flow as int, 0x200_0000, B_FLOW_MAX as int);
        assert((0x200_0000 as int) * (B_FLOW_MAX as int) == (ONE as int) * 0x400_0000)
            by (nonlinear_arith);
        vstd::arithmetic::div_mod::lemma_div_multiples_vanish(0x400_0000, ONE as int);
    }
    let nu2: i64 = fmul(nu1, edge);
    let nv2: i64 = fmul(nv1, edge);
    proof {
        lemma_fmul_range(nu1 as int, edge as int, 0x400_0000, 3 * (ONE as int));
        lemma_fmul_range(nv1 as int, edge as int, 0x400_0000, 3 * (ONE as int));
        assert((0x400_0000 as int) * (3 * (ONE as int)) == (ONE as int) * 0xC00_0000)
            by (nonlinear_arith);
        vstd::arithmetic::div_mod::lemma_div_multiples_vanish(0xC00_0000, ONE as int);
    }
    let nudge_u: i64 = fmul(nu2, B_FLOW_GAIN);
    let nudge_v: i64 = fmul(nv2, B_FLOW_GAIN);
    proof {
        lemma_fmul_range(nu2 as int, B_FLOW_GAIN as int, 0xC00_0000, ONE as int);
        lemma_fmul_range(nv2 as int, B_FLOW_GAIN as int, 0xC00_0000, ONE as int);
        assert((0xC00_0000 as int) * (ONE as int) == (ONE as int) * 0xC00_0000);
        vstd::arithmetic::div_mod::lemma_div_multiples_vanish(0xC00_0000, ONE as int);
    }
    let l1: i64 = fmul(gaussian, p.flow);
    proof {
        lemma_fmul_nonneg(gaussian as int, p.flow as int);
        lemma_fmul_range(gaussian as int, p.flow as int, ONE as int, B_FLOW_MAX as int);
        assert((ONE as int) * (B_FLOW_MAX as int) == (ONE as int) * (2 * (ONE as int)));
        vstd::arithmetic::div_mod::lemma_div_multiples_vanish(2 * (ONE as int), ONE as int);
    }
    let l2: i64 = fmul(l1, B_LIFT_GAIN);
    proof {
        lemma_fmul_le_left(l1 as int, B_LIFT_GAIN as int);
    }
    let lift: i64 = fmin(l2, B_LIFT_CAP);
    let move_r: i64 = fmul(e.dr[k], lift);
    let move_g: i64 = fmul(e.dg[k], lift);
    let move_b: i64 = fmul(e.db[k], lift);
    proof {
        lemma_fmul_le_left(e.dr@[k as int] as int, lift as int);
        lemma_fmul_le_left(e.dg@[k as int] as int, lift as int);
        lemma_fmul_le_left(e.db@[k as int] as int, lift as int);
    }
    WaterCell {
        h: cap_lim(e.h[k] + add_water),
        u: clip(e.u[k] + nudge_u),
        v: clip(e.v[k] + nudge_v),
        mask: ONE,
        gr: cap_lim(e.gr[k] + move_r),
        gg: cap_lim(e.gg[k] + move_g),
        gb: cap_lim(e.gb[k] + move_b),
        dr: e.dr[k] - move_r,
        dg: e.dg[k] - move_g,
        db: e.db[k] - move_b,
    }
}

impl WatercolorEngine {
    /// Applies one fade stamp: the whole-grid effect is exactly
    /// `fade_map_s`, and nothing else of the engine moves.
    pub(crate) fn fade_stamp(&mut self, p: FadeParams)
        requires
            old(self).wf(),
            fade_params_wf(p),
        ensures
            final(self).wf(),
            final(self).model() == fade_map_s(
                old(self).model(),
                old(self).paper_h@,
                old(self).width as int,
                p,
            ),
            old(self).same_frame(*final(self)),
    {
        let w: usize = self.width;
        let total: usize = self.total;
        let mut nh: Vec<i64> = Vec::new();
        let mut nmask: Vec<i64> = Vec::new();
        let mut ngr: Vec<i64> = Vec::new();
        let mut ngg: Vec<i64> = Vec::new();
        let mut ngb: Vec<i64> = Vec::new();
        let mut ndr: Vec<i64> = Vec::new();
        let mut ndg: Vec<i64> = Vec::new();
        let mut ndb: Vec<i64> = Vec::new();
        let mut k: usize = 0;
        while k < total
            invariant
                *self == *old(self),
                self.wf(),
                fade_params_wf(p),
                w == self.width,
                total == self.total,
                k <= total,
                nh@.len() == k,
                nmask@.len() == k,
                ngr@.len() == k,
                ngg@.len() == k,
                ngb@.len() == k,
                ndr@.len() == k,
                ndg@.len() == k,
                ndb@.len() == k,
                forall|m: int|
                    0 <= m < k ==> #[trigger] nh@[m] == fade_cell_s(
                        self.model(), self.paper_h@, w as int, p,
                        m,
                    ).h,
                forall|m: int|
                    0 <= m < k ==> #[trigger] nmask@[m] == fade_cell_s(
                        self.model(), self.paper_h@, w as int, p,
                        m,
                    ).mask,
                forall|m: int|
                    0 <= m < k ==> #[trigger] ngr@[m] == fade_cell_s(
                        self.model(), self.paper_h@, w as int, p,
                        m,
                    ).gr,
                forall|m: int|
                    0 <= m < k ==> #[trigger] ngg@[m] == fade_cell_s(
                        self.model(), self.paper_h@, w as int, p,
                        m,
                    ).gg,
                forall|m: int|
                    0 <= m < k ==> #[trigger] ngb@[m] == fade_cell_s(
                        self.model(), self.paper_h@, w as int, p,
                        m,
                    ).gb,
                forall|m: int|
                    0 <= m < k ==> #[trigger] ndr@[m] == fade_cell_s(
                        self.model(), self.paper_h@, w as int, p,
                        m,
                    ).dr,
                forall|m: int|
                    0 <= m < k ==> #[trigger] ndg@[m] == fade_cell_s(
                        self.model(), self.paper_h@, w as int, p,
                        m,
                    ).dg,
                forall|m: int|
                    0 <= m < k ==> #[trigger] ndb@[m] == fade_cell_s(
                        self.model(), self.paper_h@, w as int, p,
                        m,
                    ).db,
                forall|m: int| 0 <= m < k ==> 0 <= #[trigger] nh@[m] <= LIM,
                forall|m: int| 0 <= m < k ==> 0 <= #[trigger] nmask@[m] <= ONE,
                forall|m: int| 0 <= m < k ==> 0 <= #[trigger] ngr@[m] <= LIM,
                forall|m: int| 0 <= m < k ==> 0 <= #[trigger] ngg@[m] <= LIM,
                forall|m: int| 0 <= m < k ==> 0 <= #[trigger] ngb@[m] <= LIM,
                forall|m: int| 0 <= m < k ==> 0 <= #[trigger] ndr@[m] <= LIM,
                forall|m: int| 0 <= m < k ==> 0 <= #[trigger] ndg@[m] <= LIM,
                forall|m: int| 0 <= m < k ==> 0 <= #[trigger] ndb@[m] <= LIM,
            decreases total - k,
        {
            let c: FadeCell = fade_cell_exec(self, k, p);
            nh.push(c.h);
            nmask.push(c.mask);
            ngr.push(c.gr);
            ngg.push(c.gg);
            ngb.push(c.gb);
            ndr.push(c.dr);
            ndg.push(c.dg);
            ndb.push(c.db);
            k = k + 1;
        }
        self.h = nh;
        self.mask = nmask;
        self.gr = ngr;
        self.gg = ngg;
        self.gb = ngb;
        self.dr = ndr;
        self.dg = ndg;
        self.db = ndb;
        proof {
            let m0 = old(self).model();
            let paper0 = old(self).paper_h@;
            let w0 = old(self).width as int;
            let mm = fade_map_s(m0, paper0, w0, p);
            assert forall|i: int| 0 <= i < m0.h.len() implies #[trigger] mm.h[i]
                == nh@[i] by {
                assert(nh@[i] == fade_cell_s(m0, paper0, w0, p, i).h);
            }
            assert forall|i: int| 0 <= i < m0.mask.len() implies #[trigger] mm.mask[i]
                == nmask@[i] by {
                assert(nmask@[i] == fade_cell_s(m0, paper0, w0, p, i).mask);
            }
            assert forall|i: int| 0 <= i < m0.gr.len() implies #[trigger] mm.gr[i]
                == ngr@[i] by {
                assert(ngr@[i] == fade_cell_s(m0, paper0, w0, p, i).gr);
            }
            assert forall|i: int| 0 <= i < m0.gg.len() implies #[trigger] mm.gg[i]
                == ngg@[i] by {
                assert(ngg@[i] == fade_cell_s(m0, paper0, w0, p, i).gg);
            }
            assert forall|i: int| 0 <= i < m0.gb.len() implies #[trigger] mm.gb[i]
                == ngb@[i] by {
                assert(ngb@[i] == fade_cell_s(m0, paper0, w0, p, i).gb);
            }
            assert forall|i: int| 0 <= i < m0.dr.len() implies #[trigger] mm.dr[i]
                == ndr@[i] by {
                assert(ndr@[i] == fade_cell_s(m0, paper0, w0, p, i).dr);
            }
            assert forall|i: int| 0 <= i < m0.dg.len() implies #[trigger] mm.dg[i]
                == ndg@[i] by {
                assert(ndg@[i] == fade_cell_s(m0, paper0, w0, p, i).dg);
            }
            assert forall|i: int| 0 <= i < m0.db.len() implies #[trigger] mm.db[i]
                == ndb@[i] by {
                assert(ndb@[i] == fade_cell_s(m0, paper0, w0, p, i).db);
            }
            assert(mm.h =~= nh@);
            assert(mm.mask =~= nmask@);
            assert(mm.gr =~= ngr@);
            assert(mm.gg =~= ngg@);
            assert(mm.gb =~= ngb@);
            assert(mm.dr =~= ndr@);
            assert(mm.dg =~= ndg@);
            assert(mm.db =~= ndb@);
            assert(final(self).model() =~= mm);
        }
    }
}
impl WatercolorEngine {
    /// Applies one blend stamp: the whole-grid effect is exactly
    /// `blend_map_s`, and nothing else of the engine moves.
    pub(crate) fn blend_stamp(&mut self, p: BlendParams)
        requires
            old(self).wf(),
            blend_params_wf(p),
        ensures
            final(self).wf(),
            final(self).model() == blend_map_s(
                old(self).model(),
                old(self).paper_h@,
                old(self).width as int,
                old(self).height as int,
                p,
            ),
            old(self).same_frame(*final(self)),
    {
        let w: usize = self.width;
        let hgt: usize = self.height;
        let total: usize = self.total;
        let mut nh: Vec<i64> = Vec::new();
        let mut nmask: Vec<i64> = Vec::new();
        let mut ngr: Vec<i64> = Vec::new();
        let mut ngg: Vec<i64> = Vec::new();
        let mut ngb: Vec<i64> = Vec::new();
        let mut ndr: Vec<i64> = Vec::new();
        let mut ndg: Vec<i64> = Vec::new();
        let mut ndb: Vec<i64> = Vec::new();
        let mut k: usize = 0;
        while k < total
            invariant
                *self == *old(self),
                self.wf(),
                blend_params_wf(p),
                w == self.width,
                hgt == self.height,
                total == self.total,
                k <= total,
                nh@.len() == k,
                nmask@.len() == k,
                ngr@.len() == k,
                ngg@.len() == k,
                ngb@.len() == k,
                ndr@.len() == k,
                ndg@.len() == k,
                ndb@.len() == k,
                forall|m: int|
                    0 <= m < k ==> #[trigger] nh@[m] == blend_cell_s(
                        self.model(), self.paper_h@, w as int, hgt as int, p,
                        m,
                    ).h,
                forall|m: int|
                    0 <= m < k ==> #[trigger] nmask@[m] == blend_cell_s(
                        self.model(), self.paper_h@, w as int, hgt as int, p,
                        m,
                    ).mask,
                forall|m: int|
                    0 <= m < k ==> #[trigger] ngr@[m] == blend_cell_s(
                        self.model(), self.paper_h@, w as int, hgt as int, p,
                        m,
                    ).gr,
                forall|m: int|
                    0 <= m < k ==> #[trigger] ngg@[m] == blend_cell_s(
                        self.model(), self.paper_h@, w as int, hgt as int, p,
                        m,
                    ).gg,
                forall|m: int|
                    0 <= m < k ==> #[trigger] ngb@[m] == blend_cell_s(
                        self.model(), self.paper_h@, w as int, hgt as int, p,
                        m,
                    ).gb,
                forall|m: int|
                    0 <= m < k ==> #[trigger] ndr@[m] == blend_cell_s(
                        self.model(), self.paper_h@, w as int, hgt as int, p,
                        m,
                    ).dr,
                forall|m: int|
                    0 <= m < k ==> #[trigger] ndg@[m] == blend_cell_s(
                        self.model(), self.paper_h@, w as int, hgt as int, p,
                        m,
                    ).dg,
                forall|m: int|
                    0 <= m < k ==> #[trigger] ndb@[m] == blend_cell_s(
                        self.model(), self.paper_h@, w as int, hgt as int, p,
                        m,
                    ).db,
                forall|m: int| 0 <= m < k ==> 0 <= #[trigger] nh@[m] <= LIM,
                forall|m: int| 0 <= m < k ==> 0 <= #[trigger] nmask@[m] <= ONE,
                forall|m: int| 0 <= m < k ==> 0 <= #[trigger] ngr@[m] <= LIM,
                forall|m: int| 0 <= m < k ==> 0 <= #[trigger] ngg@[m] <= LIM,
                forall|m: int| 0 <= m < k ==> 0 <= #[trigger] ngb@[m] <= LIM,
                forall|m: int| 0 <= m < k ==> 0 <= #[trigger] ndr@[m] <= LIM,
                forall|m: int| 0 <= m < k ==> 0 <= #[trigger] ndg@[m] <= LIM,
                forall|m: int| 0 <= m < k ==> 0 <= #[trigger] ndb@[m] <= LIM,
            decreases total - k,
        {
            let c: BlendCell = blend_cell_exec(self, k, p);
            nh.push(c.h);
            nmask.push(c.mask);
            ngr.push(c.gr);
            ngg.push(c.gg);
            ngb.push(c.gb);
            ndr.push(c.dr);
            ndg.push(c.dg);
            ndb.push(c.db);
            k = k + 1;
        }
        self.h = nh;
        self.mask = nmask;
        self.gr = ngr;
        self.gg = ngg;
        self.gb = ngb;
        self.dr = ndr;
        self.dg = ndg;
        self.db = ndb;
        proof {
            let m0 = old(self).model();
            let paper0 = old(self).paper_h@;
            let w0 = old(self).width as int;
            let hgt0 = old(self).height as int;
            let mm = blend_map_s(m0, paper0, w0, hgt0, p);
            assert forall|i: int| 0 <= i < m0.h.len() implies #[trigger] mm.h[i]
                == nh@[i] by {
                assert(nh@[i] == blend_cell_s(m0, paper0, w0, hgt0, p, i).h);
            }
            assert forall|i: int| 0 <= i < m0.mask.len() implies #[trigger] mm.mask[i]
                == nmask@[i] by {
                assert(nmask@[i] == blend_cell_s(m0, paper0, w0, hgt0, p, i).mask);
            }
            assert forall|i: int| 0 <= i < m0.gr.len() implies #[trigger] mm.gr[i]
                == ngr@[i] by {
                assert(ngr@[i] == blend_cell_s(m0, paper0, w0, hgt0, p, i).gr);
            }
            assert forall|i: int| 0 <= i < m0.gg.len() implies #[trigger] mm.gg[i]
                == ngg@[i] by {
                assert(ngg@[i] == blend_cell_s(m0, paper0, w0, hgt0, p, i).gg);
            }
            assert forall|i: int| 0 <= i < m0.gb.len() implies #[trigger] mm.gb[i]
                == ngb@[i] by {
                assert(ngb@[i] == blend_cell_s(m0, paper0, w0, hgt0, p, i).gb);
            }
            assert forall|i: int| 0 <= i < m0.dr.len() implies #[trigger] mm.dr[i]
                == ndr@[i] by {
                assert(ndr@[i] == blend_cell_s(m0, paper0, w0, hgt0, p, i).dr);
            }
            assert forall|i: int| 0 <= i < m0.dg.len() implies #[trigger] mm.dg[i]
                == ndg@[i] by {
                assert(ndg@[i] == blend_cell_s(m0, paper0, w0, hgt0, p, i).dg);
            }
            assert forall|i: int| 0 <= i < m0.db.len() implies #[trigger] mm.db[i]
                == ndb@[i] by {
                assert(ndb@[i] == blend_cell_s(m0, paper0, w0, hgt0, p, i).db);
            }
            assert(mm.h =~= nh@);
            assert(mm.mask =~= nmask@);
            assert(mm.gr =~= ngr@);
            assert(mm.gg =~= ngg@);
            assert(mm.gb =~= ngb@);
            assert(mm.dr =~= ndr@);
            assert(mm.dg =~= ndg@);
            assert(mm.db =~= ndb@);
            assert(final(self).model() =~= mm);
        }
    }
}
impl WatercolorEngine {
    /// Applies one water stamp: the whole-grid effect is exactly
    /// `water_map_s`, and nothing else of the engine moves.
    pub(crate) fn water_stamp(&mut self, p: WaterParams)
        requires
            old(self).wf(),
            water_params_wf(p),
        ensures
            final(self).wf(),
            final(self).model() == water_map_s(
                old(self).model(),
                old(self).paper_h@,
                old(self).width as int,
                old(self).height as int,
                p,
            ),
            old(self).same_frame(*final(self)),
    {
        let w: usize = self.width;
        let hgt: usize = self.height;
        let total: usize = self.total;
        let mut nh: Vec<i64> = Vec::new();
        let mut nu: Vec<i64> = Vec::new();
        let mut nv: Vec<i64> = Vec::new();
        let mut nmask: Vec<i64> = Vec::new();
        let mut ngr: Vec<i64> = Vec::new();
        let mut ngg: Vec<i64> = Vec::new();
        let mut ngb: Vec<i64> = Vec::new();
        let mut ndr: Vec<i64> = Vec::new();
        let mut ndg: Vec<i64> = Vec::new();
        let mut ndb: Vec<i64> = Vec::new();
        let mut k: usize = 0;
        while k < total
            invariant
                *self == *old(self),
                self.wf(),
                water_params_wf(p),
                w == self.width,
                hgt == self.height,
                total == self.total,
                k <= total,
                nh@.len() == k,
                nu@.len() == k,
                nv@.len() == k,
                nmask@.len() == k,
                ngr@.len() == k,
                ngg@.len() == k,
                ngb@.len() == k,
                ndr@.len() == k,
                ndg@.len() == k,
                ndb@.len() == k,
                forall|m: int|
                    0 <= m < k ==> #[trigger] nh@[m] == water_cell_s(
                        self.model(), self.paper_h@, w as int, hgt as int, p,
                        m,
                    ).h,
                forall|m: int|
                    0 <= m < k ==> #[trigger] nu@[m] == water_cell_s(
                        self.model(), self.paper_h@, w as int, hgt as int, p,
                        m,
                    ).u,
                forall|m: int|
                    0 <= m < k ==> #[trigger] nv@[m] == water_cell_s(
                        self.model(), self.paper_h@, w as int, hgt as int, p,
                        m,
                    ).v,
                forall|m: int|
                    0 <= m < k ==> #[trigger] nmask@[m] == water_cell_s(
                        self.model(), self.paper_h@, w as int, hgt as int, p,
                        m,
                    ).mask,
                forall|m: int|
                    0 <= m < k ==> #[trigger] ngr@[m] == water_cell_s(
                        self.model(), self.paper_h@, w as int, hgt as int, p,
                        m,
                    ).gr,
                forall|m: int|
                    0 <= m < k ==> #[trigger] ngg@[m] == water_cell_s(
                        self.model(), self.paper_h@, w as int, hgt as int, p,
                        m,
                    ).gg,
                forall|m: int|
                    0 <= m < k ==> #[trigger] ngb@[m] == water_cell_s(
                        self.model(), self.paper_h@, w as int, hgt as int, p,
                        m,
                    ).gb,
                forall|m: int|
                    0 <= m < k ==> #[trigger] ndr@[m] == water_cell_s(
                        self.model(), self.paper_h@, w as int, hgt as int, p,
                        m,
                    ).dr,
                forall|m: int|
                    0 <= m < k ==> #[trigger] ndg@[m] == water_cell_s(
                        self.model(), self.paper_h@, w as int, hgt as int, p,
                        m,
                    ).dg,
                forall|m: int|
                    0 <= m < k ==> #[trigger] ndb@[m] == water_cell_s(
                        self.model(), self.paper_h@, w as int, hgt as int, p,
                        m,
                    ).db,
                forall|m: int| 0 <= m < k ==> 0 <= #[trigger] nh@[m] <= LIM,
                forall|m: int| 0 <= m < k ==> -LIM <= #[trigger] nu@[m] <= LIM,
                forall|m: int| 0 <= m < k ==> -LIM <= #[trigger] nv@[m] <= LIM,
                forall|m: int| 0 <= m < k ==> 0 <= #[trigger] nmask@[m] <= ONE,
                forall|m: int| 0 <= m < k ==> 0 <= #[trigger] ngr@[m] <= LIM,
                forall|m: int| 0 <= m < k ==> 0 <= #[trigger] ngg@[m] <= LIM,
                forall|m: int| 0 <= m < k ==> 0 <= #[trigger] ngb@[m] <= LIM,
                forall|m: int| 0 <= m < k ==> 0 <= #[trigger] ndr@[m] <= LIM,
                forall|m: int| 0 <= m < k ==> 0 <= #[trigger] ndg@[m] <= LIM,
                forall|m: int| 0 <= m < k ==> 0 <= #[trigger] ndb@[m] <= LIM,
            decreases total - k,
        {
            let c: WaterCell = water_cell_exec(self, k, p);
            nh.push(c.h);
            nu.push(c.u);
            nv.push(c.v);
            nmask.push(c.mask);
            ngr.push(c.gr);
            ngg.push(c.gg);
            ngb.push(c.gb);
            ndr.push(c.dr);
            ndg.push(c.dg);
            ndb.push(c.db);
            k = k + 1;
        }
        self.h = nh;
        self.u = nu;
        self.v = nv;
        self.mask = nmask;
        self.gr = ngr;
        self.gg = ngg;
        self.gb = ngb;
        self.dr = ndr;
        self.dg = ndg;
        self.db = ndb;
        proof {
            let m0 = old(self).model();
            let paper0 = old(self).paper_h@;
            let w0 = old(self).width as int;
            let hgt0 = old(self).height as int;
            let mm = water_map_s(m0, paper0, w0, hgt0, p);
            assert forall|i: int| 0 <= i < m0.h.len() implies #[trigger] mm.h[i]
                == nh@[i] by {
                assert(nh@[i] == water_cell_s(m0, paper0, w0, hgt0, p, i).h);
            }
            assert forall|i: int| 0 <= i < m0.u.len() implies #[trigger] mm.u[i]
                == nu@[i] by {
                assert(nu@[i] == water_cell_s(m0, paper0, w0, hgt0, p, i).u);
            }
            assert forall|i: int| 0 <= i < m0.v.len() implies #[trigger] mm.v[i]
                == nv@[i] by {
                assert(nv@[i] == water_cell_s(m0, paper0, w0, hgt0, p, i).v);
            }
            assert forall|i: int| 0 <= i < m0.mask.len() implies #[trigger] mm.mask[i]
                == nmask@[i] by {
                assert(nmask@[i] == water_cell_s(m0, paper0, w0, hgt0, p, i).mask);
            }
            assert forall|i: int| 0 <= i < m0.gr.len() implies #[trigger] mm.gr[i]
                == ngr@[i] by {
                assert(ngr@[i] == water_cell_s(m0, paper0, w0, hgt0, p, i).gr);
            }
            assert forall|i: int| 0 <= i < m0.gg.len() implies #[trigger] mm.gg[i]
                == ngg@[i] by {
                assert(ngg@[i] == water_cell_s(m0, paper0, w0, hgt0, p, i).gg);
            }
            assert forall|i: int| 0 <= i < m0.gb.len() implies #[trigger] mm.gb[i]
                == ngb@[i] by {
                assert(ngb@[i] == water_cell_s(m0, paper0, w0, hgt0, p, i).gb);
            }
            assert forall|i: int| 0 <= i < m0.dr.len() implies #[trigger] mm.dr[i]
                == ndr@[i] by {
                assert(ndr@[i] == water_cell_s(m0, paper0, w0, hgt0, p, i).dr);
            }
            assert forall|i: int| 0 <= i < m0.dg.len() implies #[trigger] mm.dg[i]
                == ndg@[i] by {
                assert(ndg@[i] == water_cell_s(m0, paper0, w0, hgt0, p, i).dg);
            }
            assert forall|i: int| 0 <= i < m0.db.len() implies #[trigger] mm.db[i]
                == ndb@[i] by {
                assert(ndb@[i] == water_cell_s(m0, paper0, w0, hgt0, p, i).db);
            }
            assert(mm.h =~= nh@);
            assert(mm.u =~= nu@);
            assert(mm.v =~= nv@);
            assert(mm.mask =~= nmask@);
            assert(mm.gr =~= ngr@);
            assert(mm.gg =~= ngg@);
            assert(mm.gb =~= ngb@);
            assert(mm.dr =~= ndr@);
            assert(mm.dg =~= ndg@);
            assert(mm.db =~= ndb@);
            assert(final(self).model() =~= mm);
        }
    }
}
/// The stamp parameters `apply_brush` derives from its arguments.
pub open spec fn brush_params_s(
    cx: i64,
    cy: i64,
    size: i64,
    water: i64,
    pigment: i64,
    r: i64,
    g: i64,
    b: i64,
    angle: i64,
    pressure: i64,
) -> DepositParams {
    DepositParams {
        g: geom_s(cx, cy, size, cos_s(angle as int) as i64, sin_s(angle as int) as i64),
        water,
        pigment,
        cr: r,
        cg: g,
        cb: b,
        press: pressure,
    }
}

/// The stamp parameters `apply_fade_brush` derives from its arguments; the
/// strength is clamped to the unit interval.
pub open spec fn fade_brush_params_s(
    cx: i64,
    cy: i64,
    size: i64,
    fade_strength: i64,
    angle: i64,
    pressure: i64,
) -> FadeParams {
    FadeParams {
        g: geom_s(cx, cy, size, cos_s(angle as int) as i64, sin_s(angle as int) as i64),
        strength: clamp01_s(fade_strength as int) as i64,
        press: pressure,
    }
}

/// The stamp parameters `apply_blend_brush` derives from its arguments; the
/// strength is clamped to the unit interval.
pub open spec fn blend_brush_params_s(
    cx: i64,
    cy: i64,
    size: i64,
    blend_strength: i64,
    angle: i64,
    pressure: i64,
) -> BlendParams {
    BlendParams {
        g: geom_s(cx, cy, size, cos_s(angle as int) as i64, sin_s(angle as int) as i64),
        strength: clamp01_s(blend_strength as int) as i64,
        press: pressure,
    }
}

/// The stamp parameters `apply_water_brush` derives from its arguments; the
/// flow strength is clamped to `[0, 2]`.
pub open spec fn water_brush_params_s(
    cx: i64,
    cy: i64,
    size: i64,
    water_amount: i64,
    flow_strength: i64,
    angle: i64,
    pressure: i64,
) -> WaterParams {
    WaterParams {
        g: geom_s(cx, cy, size, cos_s(angle as int) as i64, sin_s(angle as int) as i64),
        water: water_amount,
        flow: clamp_s(flow_strength as int, 0, B_FLOW_MAX as int) as i64,
        press: pressure,
    }
}

impl WatercolorEngine {
    /// Stamps water and pigment at `(cx, cy)`: the deposit brush. `angle`
    /// is the brush rotation in Q16.16 radians; colour channels and
    /// pressure are unit-interval values.
    pub fn apply_brush(
        &mut self,
        cx: i64,
        cy: i64,
        size: i64,
        water: i64,
        pigment_amount: i64,
        r: i64,
        g: i64,
        b: i64,
        angle: i64,
        pressure: i64,
    )
        requires
            old(self).wf(),
            -0x2000_0000 <= cx <= 0x2000_0000,
            -0x2000_0000 <= cy <= 0x2000_0000,
            0 <= size <= 0x100_0000,
            0 <= water <= LIM,
            0 <= pigment_amount <= LIM,
            0 <= r <= ONE,
            0 <= g <= ONE,
            0 <= b <= ONE,
            -0x800_0000_0000 <= angle <= 0x800_0000_0000,
            0 <= pressure <= ONE,
        ensures
            final(self).wf(),
            final(self).model() == deposit_map_s(
                old(self).model(),
                old(self).paper_h@,
                old(self).width as int,
                brush_params_s(cx, cy, size, water, pigment_amount, r, g, b, angle, pressure),
            ),
            old(self).same_frame(*final(self)),
    {
        let cos_a: i64 = cos_fx(angle);
        let sin_a: i64 = sin_fx(angle);
        let geom: StampGeom = make_geom(cx, cy, size, cos_a, sin_a);
        let p = DepositParams {
            g: geom,
            water,
            pigment: pigment_amount,
            cr: r,
            cg: g,
            cb: b,
            press: pressure,
        };
        self.deposit_stamp(p);
    }

    /// Stamps a fade at `(cx, cy)`: pigment, water and the wet mask are
    /// scaled down inside the footprint. The strength may be given outside
    /// the unit interval; it is clamped.
    pub fn apply_fade_brush(
        &mut self,
        cx: i64,
        cy: i64,
        size: i64,
        fade_strength: i64,
        angle: i64,
        pressure: i64,
    )
        requires
            old(self).wf(),
            -0x2000_0000 <= cx <= 0x2000_0000,
            -0x2000_0000 <= cy <= 0x2000_0000,
            0 <= size <= 0x100_0000,
            -0x800_0000_0000 <= angle <= 0x800_0000_0000,
            0 <= pressure <= ONE,
        ensures
            final(self).wf(),
            final(self).model() == fade_map_s(
                old(self).model(),
                old(self).paper_h@,
                old(self).width as int,
                fade_brush_params_s(cx, cy, size, fade_strength, angle, pressure),
            ),
            old(self).same_frame(*final(self)),
    {
        let cos_a: i64 = cos_fx(angle);
        let sin_a: i64 = sin_fx(angle);
        let geom: StampGeom = make_geom(cx, cy, size, cos_a, sin_a);
        let p = FadeParams { g: geom, strength: clamp01(fade_strength), press: pressure };
        self.fade_stamp(p);
    }

    /// Stamps a blend at `(cx, cy)`: pigment moves toward its local
    /// neighbourhood average inside the footprint. The strength may be
    /// given outside the unit interval; it is clamped.
    pub fn apply_blend_brush(
        &mut self,
        cx: i64,
        cy: i64,
        size: i64,
        blend_strength: i64,
        angle: i64,
        pressure: i64,
    )
        requires
            old(self).wf(),
            -0x2000_0000 <= cx <= 0x2000_0000,
            -0x2000_0000 <= cy <= 0x2000_0000,
            0 <= size <= 0x100_0000,
            -0x800_0000_0000 <= angle <= 0x800_0000_0000,
            0 <= pressure <= ONE,
        ensures
            final(self).wf(),
            final(self).model() == blend_map_s(
                old(self).model(),
                old(self).paper_h@,
                old(self).width as int,
                old(self).height as int,
                blend_brush_params_s(cx, cy, size, blend_strength, angle, pressure),
            ),
            old(self).same_frame(*final(self)),
    {
        let cos_a: i64 = cos_fx(angle);
        let sin_a: i64 = sin_fx(angle);
        let geom: StampGeom = make_geom(cx, cy, size, cos_a, sin_a);
        let p = BlendParams { g: geom, strength: clamp01(blend_strength), press: pressure };
        self.blend_stamp(p);
    }

    /// Stamps water only at `(cx, cy)`: water is added, flow is nudged
    /// radially, and dried deposits are partly lifted back into suspension.
    /// The flow strength may be given outside `[0, 2]`; it is clamped.
    pub fn apply_water_brush(
        &mut self,
        cx: i64,
        cy: i64,
        size: i64,
        water_amount: i64,
        flow_strength: i64,
        angle: i64,
        pressure: i64,
    )
        requires
            old(self).wf(),
            -0x2000_0000 <= cx <= 0x2000_0000,
            -0x2000_0000 <= cy <= 0x2000_0000,
            0 <= size <= 0x100_0000,
            0 <= water_amount <= LIM,
            -0x800_0000_0000 <= angle <= 0x800_0000_0000,
            0 <= pressure <= ONE,
        ensures
            final(self).wf(),
            final(self).model() == water_map_s(
                old(self).model(),
                old(self).paper_h@,
                old(self).width as int,
                old(self).height as int,
                water_brush_params_s(cx, cy, size, water_amount, flow_strength, angle, pressure),
            ),
            old(self).same_frame(*final(self)),
    {
        let cos_a: i64 = cos_fx(angle);
        let sin_a: i64 = sin_fx(angle);
        let geom: StampGeom = make_geom(cx, cy, size, cos_a, sin_a);
        let p = WaterParams {
            g: geom,
            water: water_amount,
            flow: clamp_to(flow_strength, 0, B_FLOW_MAX),
            press: pressure,
        };
        self.water_stamp(p);
    }
}

/// Monotonicity of the fixed product in its first factor.
pub proof fn lemma_fmul_swap_mono(a1: int, a2: int, b: int)
    requires
        a1 <= a2,
        0 <= b,
    ensures
        fmul_s(a1, b) <= fmul_s(a2, b),
{
    assert(a1 * b <= a2 * b) by (nonlinear_arith)
        requires
            a1 <= a2,
            0 <= b,
    ;
    lemma_tdiv_mono(a1 * b, a2 * b, ONE as int);
}

} // verus!
