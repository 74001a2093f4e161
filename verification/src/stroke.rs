//! Stroke interpolation: a two-point stroke becomes a sequence of point
//! stamps along the segment, with pressure derived from the stroke
//! velocity, a linear attenuation over the stroke, and a deterministic
//! positional jitter. Each stroke is specified as a fold of the point
//! stamp's whole-grid map over the samples.

use vstd::prelude::*;
use vstd::arithmetic::div_mod::lemma_div_multiples_vanish;
use crate::fx::ONE;
use crate::fx::HALF;
use crate::fx::LIM;
use crate::fx::tdiv_s;
use crate::fx::fmul_s;
use crate::fx::fdiv_s;
use crate::fx::clamp_s;
use crate::fx::clamp01_s;
use crate::fx::max_i;
use crate::fx::fmul;
use crate::fx::fdiv;
use crate::fx::tdivq;
use crate::fx::fmax;
use crate::fx::clamp_to;
use crate::fx::clamp01;
use crate::fx::lemma_tdiv_bounds;
use crate::fx::lemma_tdiv_mono;
use crate::fx::lemma_fmul_le_left;
use crate::fx::lemma_fmul_nonneg;
use crate::fx::lemma_fmul_range;
use crate::trig::isqrt_s;
use crate::trig::isqrt;
use crate::trig::lemma_isqrt_bracket;
use crate::trig::sin_s;
use crate::trig::cos_s;
use crate::trig::sin_fx;
use crate::trig::cos_fx;
use crate::engine::WatercolorEngine;
use crate::model::FieldsModel;
use crate::brush::StampGeom;
use crate::brush::geom_s;
use crate::brush::make_geom;
use crate::brush::DepositParams;
use crate::brush::deposit_map_s;
use crate::brush::FadeParams;
use crate::brush::fade_map_s;
use crate::brush::BlendParams;
use crate::brush::blend_map_s;
use crate::brush::WaterParams;
use crate::brush::water_map_s;
use crate::params::S_VEL;
use crate::params::S_PRESS_LO;
use crate::params::S_STEP;
use crate::params::S_ATTEN;
use crate::params::S_J1;
use crate::params::S_J2;
use crate::params::S_J3;
use crate::params::S_J4;
use crate::params::B_FLOW_MAX;

verus! {

/// The stroke length in Q16.16, from the integer cell displacement.
pub open spec fn stroke_len_s(dx: int, dy: int) -> int {
    isqrt_s(((dx * dx + dy * dy) * (ONE as int) * (ONE as int)) as nat) as int
}

/// Cosine of the stroke direction: the displacement normalised, with the
/// empty stroke pointing along the x axis.
pub open spec fn dir_cos_s(dx: int, dy: int) -> int {
    if dx == 0 && dy == 0 {
        ONE as int
    } else {
        fdiv_s(dx * ONE, stroke_len_s(dx, dy))
    }
}

/// Sine of the stroke direction.
pub open spec fn dir_sin_s(dx: int, dy: int) -> int {
    if dx == 0 && dy == 0 {
        0
    } else {
        fdiv_s(dy * ONE, stroke_len_s(dx, dy))
    }
}

/// The stroke pressure: fast strokes press lighter, clamped to
/// `[0.2, 1.0]`.
pub open spec fn stroke_press_s(velocity: i64) -> int {
    clamp_s(
        fdiv_s(ONE as int, ONE + fmul_s(velocity as int, S_VEL as int)),
        S_PRESS_LO as int,
        ONE as int,
    )
}

/// How many segments the stroke is split into: the length over the step
/// size (a fraction of the brush size), rounded up, at least one.
pub open spec fn stroke_steps_s(dx: int, dy: int, size: i64) -> int {
    let step = max_i(fmul_s(size as int, S_STEP as int), HALF as int);
    max_i(tdiv_s(stroke_len_s(dx, dy) + step - 1, step), 1)
}

/// The attenuation of sample `s`: amounts taper linearly to 0.8 over the
/// stroke.
pub open spec fn atten_s(steps: int, s: int) -> int {
    ONE - fmul_s(tdiv_s(s * ONE, steps), S_ATTEN as int)
}

/// The centre cell of sample `s`: the interpolated position plus the
/// deterministic sine/cosine jitter, truncated to a cell.
pub open spec fn sample_pos_s(
    x0: int,
    y0: int,
    dx: int,
    dy: int,
    steps: int,
    s: int,
) -> (int, int) {
    let t = tdiv_s(s * ONE, steps);
    let xf = x0 * ONE + fmul_s(dx * ONE, t);
    let yf = y0 * ONE + fmul_s(dy * ONE, t);
    let jx = tdiv_s(fmul_s(sin_s(S_J1 * xf + S_J2 * yf), HALF as int), ONE as int);
    let jy = tdiv_s(fmul_s(cos_s(S_J3 * xf + S_J4 * yf), HALF as int), ONE as int);
    (tdiv_s(xf, ONE as int) + jx, tdiv_s(yf, ONE as int) + jy)
}

/// Computes the direction, pressure and segment count of a stroke.
#[verifier::rlimit(100)]
fn stroke_setup(x0: i64, y0: i64, x1: i64, y1: i64, size: i64, velocity: i64) -> (r: (
    i64,
    i64,
    i64,
    i64,
))
    requires
        -0x8_0000 <= x0 <= 0x8_0000,
        -0x8_0000 <= y0 <= 0x8_0000,
        -0x8_0000 <= x1 <= 0x8_0000,
        -0x8_0000 <= y1 <= 0x8_0000,
        0 <= size <= 0x100_0000,
        0 <= velocity <= LIM,
    ensures
        r.0 == dir_cos_s(x1 - x0 as int, y1 - y0 as int),
        r.1 == dir_sin_s(x1 - x0 as int, y1 - y0 as int),
        r.2 == stroke_press_s(velocity),
        r.3 == stroke_steps_s(x1 - x0 as int, y1 - y0 as int, size),
        -ONE <= r.0 <= ONE,
        -ONE <= r.1 <= ONE,
        S_PRESS_LO <= r.2 <= ONE,
        1 <= r.3 <= 0x40_0000_0000,
{
    let dx: i64 = x1 - x0;
    let dy: i64 = y1 - y0;
    proof {
        assert(0 <= dx * dx <= 0x100_0000_0000 && 0 <= dy * dy <= 0x100_0000_0000)
            by (nonlinear_arith)
            requires
                -0x10_0000 <= dx <= 0x10_0000,
                -0x10_0000 <= dy <= 0x10_0000,
        ;
    }
    let sq: i64 = dx * dx + dy * dy;
    let n: u128 = (sq as u128) * 0x1_0000_0000;
    proof {
        assert((sq as int) * (ONE as int) * (ONE as int) == (sq as int) * 0x1_0000_0000)
            by (nonlinear_arith);
    }
    let len64: u64 = isqrt(n);
    let len: i64 = len64 as i64;
    proof {
        lemma_isqrt_bracket(n as nat);
        assert(len as int <= 0x20_0000_0000) by (nonlinear_arith)
            requires
                (len as int) * (len as int) <= n as int,
                n as int <= 0x200_0000_0000_0000_0000,
                0 <= len as int,
        ;
    }
    let mut cos_a: i64 = ONE;
    let mut sin_a: i64 = 0;
    if !(dx == 0 && dy == 0) {
        proof {
            // a non-empty displacement gives a length of at least one cell
            assert(sq >= 1) by (nonlinear_arith)
                requires
                    !(dx == 0 && dy == 0),
                    sq == dx * dx + dy * dy,
            ;
            assert(n >= 0x1_0000_0000) by (nonlinear_arith)
                requires
                    sq >= 1,
                    n == (sq as int) * 0x1_0000_0000,
            ;
            assert(len as int >= ONE as int) by (nonlinear_arith)
                requires
                    (n as int) < ((len as int) + 1) * ((len as int) + 1),
                    n >= 0x1_0000_0000,
                    0 <= len as int <= 0x1_0000_0000_0000,
            ;
            // |dx| * ONE <= len, so the normalised components stay inside
            // the unit interval
            assert((dx as int * ONE) * (dx as int * ONE) <= n as int) by (nonlinear_arith)
                requires
                    n as int == ((dx as int) * (dx as int) + (dy as int) * (dy as int)) * (
                    ONE as int) * (ONE as int),
            ;
            assert((dy as int * ONE) * (dy as int * ONE) <= n as int) by (nonlinear_arith)
                requires
                    n as int == ((dx as int) * (dx as int) + (dy as int) * (dy as int)) * (
                    ONE as int) * (ONE as int),
            ;
            assert(-(len as int) <= dx as int * ONE <= len as int) by (nonlinear_arith)
                requires
                    (dx as int * ONE) * (dx as int * ONE) <= n as int,
                    (n as int) < ((len as int) + 1) * ((len as int) + 1),
                    0 <= len,
            ;
            assert(-(len as int) <= dy as int * ONE <= len as int) by (nonlinear_arith)
                requires
                    (dy as int * ONE) * (dy as int * ONE) <= n as int,
                    (n as int) < ((len as int) + 1) * ((len as int) + 1),
                    0 <= len,
            ;
            lemma_tdiv_mono((dx as int * ONE) * (ONE as int), (len as int) * (ONE as int),
                len as int);
            lemma_tdiv_mono((-(len as int)) * (ONE as int), (dx as int * ONE) * (ONE as int),
                len as int);
            lemma_tdiv_mono((dy as int * ONE) * (ONE as int), (len as int) * (ONE as int),
                len as int);
            lemma_tdiv_mono((-(len as int)) * (ONE as int), (dy as int * ONE) * (ONE as int),
                len as int);
            lemma_div_multiples_vanish(ONE as int, len as int);
            assert((len as int) * (ONE as int) == (len as int) * (ONE as int));
            assert((-(len as int)) * (ONE as int) == -((len as int) * (ONE as int)))
                by (nonlinear_arith);
        }
        cos_a = fdiv(dx * ONE, len);
        sin_a = fdiv(dy * ONE, len);
    }
    let pv: i64 = fmul(velocity, S_VEL);
    proof {
        lemma_fmul_le_left(velocity as int, S_VEL as int);
        lemma_fmul_nonneg(velocity as int, S_VEL as int);
        lemma_tdiv_bounds((ONE as int) * (ONE as int), ONE + pv as int);
    }
    let press: i64 = clamp_to(fdiv(ONE, ONE + pv), S_PRESS_LO, ONE);
    let step: i64 = fmax(fmul(size, S_STEP), HALF);
    proof {
        lemma_fmul_le_left(size as int, S_STEP as int);
        lemma_fmul_nonneg(size as int, S_STEP as int);
        lemma_tdiv_bounds(len as int + step as int - 1, step as int);
    }
    let steps: i64 = fmax(tdivq(len + step - 1, step), 1);
    (cos_a, sin_a, press, steps)
}

/// Computes the centre cell and attenuation of sample `s`.
#[verifier::rlimit(100)]
fn stroke_sample(x0: i64, y0: i64, dx: i64, dy: i64, steps: i64, s: i64) -> (r: (i64, i64, i64))
    requires
        -0x8_0000 <= x0 <= 0x8_0000,
        -0x8_0000 <= y0 <= 0x8_0000,
        -0x10_0000 <= dx <= 0x10_0000,
        -0x10_0000 <= dy <= 0x10_0000,
        1 <= steps <= 0x40_0000_0000,
        0 <= s <= steps,
    ensures
        r.0 == sample_pos_s(x0 as int, y0 as int, dx as int, dy as int, steps as int, s as int).0,
        r.1 == sample_pos_s(x0 as int, y0 as int, dx as int, dy as int, steps as int, s as int).1,
        r.2 == atten_s(steps as int, s as int),
        -0x2000_0000 <= r.0 <= 0x2000_0000,
        -0x2000_0000 <= r.1 <= 0x2000_0000,
        0 <= r.2 <= ONE,
{
    let t: i64 = tdivq(s * ONE, steps);
    proof {
        lemma_tdiv_bounds((s as int) * (ONE as int), steps as int);
        lemma_tdiv_mono((s as int) * (ONE as int), (steps as int) * (ONE as int), steps as int);
        lemma_div_multiples_vanish(ONE as int, steps as int);
        assert((s as int) * (ONE as int) <= (steps as int) * (ONE as int)) by (nonlinear_arith)
            requires
                0 <= s <= steps,
        ;
        assert((s as int) * (ONE as int) >= 0) by (nonlinear_arith)
            requires
                0 <= s,
        ;
    }
    let fx1: i64 = fmul(dx * ONE, t);
    let fy1: i64 = fmul(dy * ONE, t);
    proof {
        lemma_fmul_range(dx as int * ONE, t as int, 0x10_0000_0000, ONE as int);
        lemma_fmul_range(dy as int * ONE, t as int, 0x10_0000_0000, ONE as int);
        lemma_div_multiples_vanish(0x10_0000_0000, ONE as int);
        assert((0x10_0000_0000 as int) * (ONE as int) == (ONE as int) * 0x10_0000_0000)
            by (nonlinear_arith);
    }
    let xf: i64 = x0 * ONE + fx1;
    let yf: i64 = y0 * ONE + fy1;
    let jsin: i64 = sin_fx(S_J1 * xf + S_J2 * yf);
    let jcos: i64 = cos_fx(S_J3 * xf + S_J4 * yf);
    let jxm: i64 = fmul(jsin, HALF);
    let jym: i64 = fmul(jcos, HALF);
    proof {
        lemma_fmul_range(jsin as int, HALF as int, ONE as int, HALF as int);
        lemma_fmul_range(jcos as int, HALF as int, ONE as int, HALF as int);
        lemma_tdiv_bounds((ONE as int) * (HALF as int), ONE as int);
        lemma_tdiv_bounds(jxm as int, ONE as int);
        lemma_tdiv_bounds(jym as int, ONE as int);
        lemma_tdiv_bounds(xf as int, ONE as int);
        lemma_tdiv_bounds(yf as int, ONE as int);
        lemma_tdiv_mono(-0x20_0000_0000, xf as int, ONE as int);
        lemma_tdiv_mono(xf as int, 0x20_0000_0000, ONE as int);
        lemma_tdiv_mono(-0x20_0000_0000, yf as int, ONE as int);
        lemma_tdiv_mono(yf as int, 0x20_0000_0000, ONE as int);
        lemma_div_multiples_vanish(0x20_0000, ONE as int);
        assert(0x20_0000_0000 == (ONE as int) * 0x20_0000);
    }
    let jx: i64 = tdivq(jxm, ONE);
    let jy: i64 = tdivq(jym, ONE);
    let cx: i64 = tdivq(xf, ONE) + jx;
    let cy: i64 = tdivq(yf, ONE) + jy;
    let at: i64 = fmul(t, S_ATTEN);
    proof {
        lemma_fmul_le_left(t as int, S_ATTEN as int);
        lemma_fmul_nonneg(t as int, S_ATTEN as int);
    }
    (cx, cy, ONE - at)
}

/// The raw arguments of one brush stroke.
#[derive(Clone, Copy)]
pub struct BrushStrokeArgs {
    pub x0: i64,
    pub y0: i64,
    pub x1: i64,
    pub y1: i64,
    pub size: i64,
    pub water: i64,
    pub pigment: i64,
    pub cr: i64,
    pub cg: i64,
    pub cb: i64,
    pub velocity: i64,
}

/// The stamp parameters of sample `s` of a brush stroke.
pub open spec fn brush_stroke_params_s(a: BrushStrokeArgs, s: int) -> DepositParams {
    let dx = a.x1 - a.x0;
    let dy = a.y1 - a.y0;
    let steps = stroke_steps_s(dx, dy, a.size);
    let press = stroke_press_s(a.velocity);
    let at = atten_s(steps, s);
    let pos = sample_pos_s(a.x0 as int, a.y0 as int, dx, dy, steps, s);
    DepositParams {
        g: geom_s(
            pos.0 as i64,
            pos.1 as i64,
            a.size,
            dir_cos_s(dx, dy) as i64,
            dir_sin_s(dx, dy) as i64,
        ),
        water: fmul_s(a.water as int, at) as i64,
        pigment: fmul_s(a.pigment as int, at) as i64,
        cr: a.cr,
        cg: a.cg,
        cb: a.cb,
        press: fmul_s(press, at) as i64,
    }
}

/// The first `ns` samples of a brush stroke, folded over the grid.
pub open spec fn brush_stroke_upto_s(
    f: FieldsModel,
    paper: Seq<i64>,
    w: int,
    a: BrushStrokeArgs,
    ns: nat,
) -> FieldsModel
    decreases ns,
{
    if ns == 0 {
        f
    } else {
        deposit_map_s(
            brush_stroke_upto_s(f, paper, w, a, (ns - 1) as nat),
            paper,
            w,
            brush_stroke_params_s(a, ns - 1),
        )
    }
}

/// The raw arguments of one fade stroke.
#[derive(Clone, Copy)]
pub struct FadeStrokeArgs {
    pub x0: i64,
    pub y0: i64,
    pub x1: i64,
    pub y1: i64,
    pub size: i64,
    pub strength: i64,
    pub velocity: i64,
}

/// The stamp parameters of sample `s` of a fade stroke.
pub open spec fn fade_stroke_params_s(a: FadeStrokeArgs, s: int) -> FadeParams {
    let dx = a.x1 - a.x0;
    let dy = a.y1 - a.y0;
    let steps = stroke_steps_s(dx, dy, a.size);
    let press = stroke_press_s(a.velocity);
    let at = atten_s(steps, s);
    let pos = sample_pos_s(a.x0 as int, a.y0 as int, dx, dy, steps, s);
    FadeParams {
        g: geom_s(
            pos.0 as i64,
            pos.1 as i64,
            a.size,
            dir_cos_s(dx, dy) as i64,
            dir_sin_s(dx, dy) as i64,
        ),
        strength: clamp01_s(fmul_s(a.strength as int, at)) as i64,
        press: fmul_s(press, at) as i64,
    }
}

/// The first `ns` samples of a fade stroke, folded over the grid.
pub open spec fn fade_stroke_upto_s(
    f: FieldsModel,
    paper: Seq<i64>,
    w: int,
    a: FadeStrokeArgs,
    ns: nat,
) -> FieldsModel
    decreases ns,
{
    if ns == 0 {
        f
    } else {
        fade_map_s(
            fade_stroke_upto_s(f, paper, w, a, (ns - 1) as nat),
            paper,
            w,
            fade_stroke_params_s(a, ns - 1),
        )
    }
}

/// The raw arguments of one blend stroke.
#[derive(Clone, Copy)]
pub struct BlendStrokeArgs {
    pub x0: i64,
    pub y0: i64,
    pub x1: i64,
    pub y1: i64,
    pub size: i64,
    pub strength: i64,
    pub velocity: i64,
}

/// The stamp parameters of sample `s` of a blend stroke.
pub open spec fn blend_stroke_params_s(a: BlendStrokeArgs, s: int) -> BlendParams {
    let dx = a.x1 - a.x0;
    let dy = a.y1 - a.y0;
    let steps = stroke_steps_s(dx, dy, a.size);
    let press = stroke_press_s(a.velocity);
    let at = atten_s(steps, s);
    let pos = sample_pos_s(a.x0 as int, a.y0 as int, dx, dy, steps, s);
    BlendParams {
        g: geom_s(
            pos.0 as i64,
            pos.1 as i64,
            a.size,
            dir_cos_s(dx, dy) as i64,
            dir_sin_s(dx, dy) as i64,
        ),
        strength: clamp01_s(fmul_s(a.strength as int, at)) as i64,
        press: fmul_s(press, at) as i64,
    }
}

/// The first `ns` samples of a blend stroke, folded over the grid.
pub open spec fn blend_stroke_upto_s(
    f: FieldsModel,
    paper: Seq<i64>,
    w: int,hgt: int,
    a: BlendStrokeArgs,
    ns: nat,
) -> FieldsModel
    decreases ns,
{
    if ns == 0 {
        f
    } else {
        blend_map_s(
            blend_stroke_upto_s(f, paper, w, hgt, a, (ns - 1) as nat),
            paper,
            w,
            hgt,
            blend_stroke_params_s(a, ns - 1),
        )
    }
}

/// The raw arguments of one water stroke.
#[derive(Clone, Copy)]
pub struct WaterStrokeArgs {
    pub x0: i64,
    pub y0: i64,
    pub x1: i64,
    pub y1: i64,
    pub size: i64,
    pub water: i64,
    pub flow: i64,
    pub velocity: i64,
}

/// The stamp parameters of sample `s` of a water stroke.
pub open spec fn water_stroke_params_s(a: WaterStrokeArgs, s: int) -> WaterParams {
    let dx = a.x1 - a.x0;
    let dy = a.y1 - a.y0;
    let steps = stroke_steps_s(dx, dy, a.size);
    let press = stroke_press_s(a.velocity);
    let at = atten_s(steps, s);
    let pos = sample_pos_s(a.x0 as int, a.y0 as int, dx, dy, steps, s);
    WaterParams {
        g: geom_s(
            pos.0 as i64,
            pos.1 as i64,
            a.size,
            dir_cos_s(dx, dy) as i64,
            dir_sin_s(dx, dy) as i64,
        ),
        water: fmul_s(a.water as int, at) as i64,
        flow: clamp_s(fmul_s(a.flow as int, at), 0, B_FLOW_MAX as int) as i64,
        press: fmul_s(press, at) as i64,
    }
}

/// The first `ns` samples of a water stroke, folded over the grid.
pub open spec fn water_stroke_upto_s(
    f: FieldsModel,
    paper: Seq<i64>,
    w: int,hgt: int,
    a: WaterStrokeArgs,
    ns: nat,
) -> FieldsModel
    decreases ns,
{
    if ns == 0 {
        f
    } else {
        water_map_s(
            water_stroke_upto_s(f, paper, w, hgt, a, (ns - 1) as nat),
            paper,
            w,
            hgt,
            water_stroke_params_s(a, ns - 1),
        )
    }
}

impl WatercolorEngine {
    /// Paints a deposit-brush stroke from `(x0, y0)` to `(x1, y1)`: the
    /// whole-grid effect is the fold of the deposit stamp over the stroke
    /// samples.
    pub fn apply_brush_stroke(
        &mut self,
        x0: i64,
        y0: i64,
        x1: i64,
        y1: i64,
        size: i64,
        water: i64,
        pigment_amount: i64,
        r: i64,
        g: i64,
        b: i64,
        velocity: i64,
    )
        requires
            old(self).wf(),
            -0x8_0000 <= x0 <= 0x8_0000,
            -0x8_0000 <= y0 <= 0x8_0000,
            -0x8_0000 <= x1 <= 0x8_0000,
            -0x8_0000 <= y1 <= 0x8_0000,
            0 <= size <= 0x100_0000,
            0 <= water <= LIM,
            0 <= pigment_amount <= LIM,
            0 <= r <= ONE,
            0 <= g <= ONE,
            0 <= b <= ONE,
            0 <= velocity <= LIM,
        ensures
            final(self).wf(),
            final(self).model() == brush_stroke_upto_s(
                old(self).model(),
                old(self).paper_h@,
                old(self).width as int,
                (BrushStrokeArgs {
            x0,
            y0,
            x1,
            y1,
            size,
            water,
            pigment: pigment_amount,
            cr: r,
            cg: g,
            cb: b,
            velocity,
        }),
                (stroke_steps_s(x1 - x0 as int, y1 - y0 as int, size) + 1) as nat,
            ),
            old(self).same_frame(*final(self)),
    {
        let a = BrushStrokeArgs {
            x0,
            y0,
            x1,
            y1,
            size,
            water,
            pigment: pigment_amount,
            cr: r,
            cg: g,
            cb: b,
            velocity,
        };
        let dx: i64 = x1 - x0;
        let dy: i64 = y1 - y0;
        let setup: (i64, i64, i64, i64) = stroke_setup(x0, y0, x1, y1, size, velocity);
        let steps: i64 = setup.3;
        let mut s: i64 = 0;
        while s <= steps
            invariant
                self.wf(),
                old(self).wf(),
                0 <= s <= steps + 1,
                old(self).same_frame(*self),
                a == (BrushStrokeArgs {
            x0,
            y0,
            x1,
            y1,
            size,
            water,
            pigment: pigment_amount,
            cr: r,
            cg: g,
            cb: b,
            velocity,
        }),
                -0x8_0000 <= x0 <= 0x8_0000 && -0x8_0000 <= y0 <= 0x8_0000,
                -0x8_0000 <= x1 <= 0x8_0000 && -0x8_0000 <= y1 <= 0x8_0000,
                dx == x1 - x0 && dy == y1 - y0,
                0 <= size <= 0x100_0000,
                0 <= water <= LIM,
                0 <= pigment_amount <= LIM,
                0 <= r <= ONE,
                0 <= g <= ONE,
                0 <= b <= ONE,
                0 <= velocity <= LIM,
                setup.0 == dir_cos_s(dx as int, dy as int),
                setup.1 == dir_sin_s(dx as int, dy as int),
                setup.2 == stroke_press_s(velocity),
                steps == stroke_steps_s(dx as int, dy as int, size),
                -ONE <= setup.0 <= ONE && -ONE <= setup.1 <= ONE,
                S_PRESS_LO <= setup.2 <= ONE,
                1 <= steps <= 0x40_0000_0000,
                self.model() == brush_stroke_upto_s(
                    old(self).model(),
                    old(self).paper_h@,
                    self.width as int,
                    a,
                    s as nat,
                ),
            decreases steps + 1 - s,
        {
            let samp: (i64, i64, i64) = stroke_sample(x0, y0, dx, dy, steps, s);
            let pw: i64 = fmul(a.water, samp.2);
            let pp: i64 = fmul(a.pigment, samp.2);
            let pr: i64 = fmul(setup.2, samp.2);
            proof {
                lemma_fmul_le_left(a.water as int, samp.2 as int);
                lemma_fmul_le_left(a.pigment as int, samp.2 as int);
                lemma_fmul_le_left(setup.2 as int, samp.2 as int);
                lemma_fmul_nonneg(setup.2 as int, samp.2 as int);
            }
            let geom: StampGeom = make_geom(samp.0, samp.1, a.size, setup.0, setup.1);
            let p = DepositParams {
                g: geom,
                water: pw,
                pigment: pp,
                cr: a.cr,
                cg: a.cg,
                cb: a.cb,
                press: pr,
            };
            proof {
                assert(p == brush_stroke_params_s(a, s as int));
            }
            self.deposit_stamp(p);
            s = s + 1;
        }
    }

    /// Paints a fade-brush stroke: the whole-grid effect is the fold of
    /// the fade stamp over the stroke samples.
    pub fn apply_fade_brush_stroke(
        &mut self,
        x0: i64,
        y0: i64,
        x1: i64,
        y1: i64,
        size: i64,
        fade_strength: i64,
        velocity: i64,
    )
        requires
            old(self).wf(),
            -0x8_0000 <= x0 <= 0x8_0000,
            -0x8_0000 <= y0 <= 0x8_0000,
            -0x8_0000 <= x1 <= 0x8_0000,
            -0x8_0000 <= y1 <= 0x8_0000,
            0 <= size <= 0x100_0000,
            -LIM <= fade_strength <= LIM,
            0 <= velocity <= LIM,
        ensures
            final(self).wf(),
            final(self).model() == fade_stroke_upto_s(
                old(self).model(),
                old(self).paper_h@,
                old(self).width as int,
                (FadeStrokeArgs { x0, y0, x1, y1, size, strength: fade_strength, velocity }),
                (stroke_steps_s(x1 - x0 as int, y1 - y0 as int, size) + 1) as nat,
            ),
            old(self).same_frame(*final(self)),
    {
        let a = FadeStrokeArgs { x0, y0, x1, y1, size, strength: fade_strength, velocity };
        let dx: i64 = x1 - x0;
        let dy: i64 = y1 - y0;
        let setup: (i64, i64, i64, i64) = stroke_setup(x0, y0, x1, y1, size, velocity);
        let steps: i64 = setup.3;
        let mut s: i64 = 0;
        while s <= steps
            invariant
                self.wf(),
                old(self).wf(),
                0 <= s <= steps + 1,
                old(self).same_frame(*self),
                a == (FadeStrokeArgs { x0, y0, x1, y1, size, strength: fade_strength, velocity }),
                -0x8_0000 <= x0 <= 0x8_0000 && -0x8_0000 <= y0 <= 0x8_0000,
                -0x8_0000 <= x1 <= 0x8_0000 && -0x8_0000 <= y1 <= 0x8_0000,
                dx == x1 - x0 && dy == y1 - y0,
                0 <= size <= 0x100_0000,
                -LIM <= fade_strength <= LIM,
                0 <= velocity <= LIM,
                setup.0 == dir_cos_s(dx as int, dy as int),
                setup.1 == dir_sin_s(dx as int, dy as int),
                setup.2 == stroke_press_s(velocity),
                steps == stroke_steps_s(dx as int, dy as int, size),
                -ONE <= setup.0 <= ONE && -ONE <= setup.1 <= ONE,
                S_PRESS_LO <= setup.2 <= ONE,
                1 <= steps <= 0x40_0000_0000,
                self.model() == fade_stroke_upto_s(
                    old(self).model(),
                    old(self).paper_h@,
                    self.width as int,
                    a,
                    s as nat,
                ),
            decreases steps + 1 - s,
        {
            let samp: (i64, i64, i64) = stroke_sample(x0, y0, dx, dy, steps, s);
            let ps: i64 = clamp01(fmul(a.strength, samp.2));
            let pr: i64 = fmul(setup.2, samp.2);
            proof {
                lemma_fmul_le_left(setup.2 as int, samp.2 as int);
                lemma_fmul_nonneg(setup.2 as int, samp.2 as int);
            }
            let geom: StampGeom = make_geom(samp.0, samp.1, a.size, setup.0, setup.1);
            let p = FadeParams { g: geom, strength: ps, press: pr };
            proof {
                assert(p == fade_stroke_params_s(a, s as int));
            }
            self.fade_stamp(p);
            s = s + 1;
        }
    }

    /// Paints a blend-brush stroke: the whole-grid effect is the fold of
    /// the blend stamp over the stroke samples.
    pub fn apply_blend_brush_stroke(
        &mut self,
        x0: i64,
        y0: i64,
        x1: i64,
        y1: i64,
        size: i64,
        blend_strength: i64,
        velocity: i64,
    )
        requires
            old(self).wf(),
            -0x8_0000 <= x0 <= 0x8_0000,
            -0x8_0000 <= y0 <= 0x8_0000,
            -0x8_0000 <= x1 <= 0x8_0000,
            -0x8_0000 <= y1 <= 0x8_0000,
            0 <= size <= 0x100_0000,
            -LIM <= blend_strength <= LIM,
            0 <= velocity <= LIM,
        ensures
            final(self).wf(),
            final(self).model() == blend_stroke_upto_s(
                old(self).model(),
                old(self).paper_h@,
                old(self).width as int,
                old(self).height as int,
                (BlendStrokeArgs { x0, y0, x1, y1, size, strength: blend_strength, velocity }),
                (stroke_steps_s(x1 - x0 as int, y1 - y0 as int, size) + 1) as nat,
            ),
            old(self).same_frame(*final(self)),
    {
        let a = BlendStrokeArgs { x0, y0, x1, y1, size, strength: blend_strength, velocity };
        let dx: i64 = x1 - x0;
        let dy: i64 = y1 - y0;
        let setup: (i64, i64, i64, i64) = stroke_setup(x0, y0, x1, y1, size, velocity);
        let steps: i64 = setup.3;
        let mut s: i64 = 0;
        while s <= steps
            invariant
                self.wf(),
                old(self).wf(),
                0 <= s <= steps + 1,
                old(self).same_frame(*self),
                a == (BlendStrokeArgs { x0, y0, x1, y1, size, strength: blend_strength, velocity }),
                -0x8_0000 <= x0 <= 0x8_0000 && -0x8_0000 <= y0 <= 0x8_0000,
                -0x8_0000 <= x1 <= 0x8_0000 && -0x8_0000 <= y1 <= 0x8_0000,
                dx == x1 - x0 && dy == y1 - y0,
                0 <= size <= 0x100_0000,
                -LIM <= blend_strength <= LIM,
                0 <= velocity <= LIM,
                setup.0 == dir_cos_s(dx as int, dy as int),
                setup.1 == dir_sin_s(dx as int, dy as int),
                setup.2 == stroke_press_s(velocity),
                steps == stroke_steps_s(dx as int, dy as int, size),
                -ONE <= setup.0 <= ONE && -ONE <= setup.1 <= ONE,
                S_PRESS_LO <= setup.2 <= ONE,
                1 <= steps <= 0x40_0000_0000,
                self.model() == blend_stroke_upto_s(
                    old(self).model(),
                    old(self).paper_h@,
                    self.width as int,
                        self.height as int,
                    a,
                    s as nat,
                ),
            decreases steps + 1 - s,
        {
            let samp: (i64, i64, i64) = stroke_sample(x0, y0, dx, dy, steps, s);
            let ps: i64 = clamp01(fmul(a.strength, samp.2));
            let pr: i64 = fmul(setup.2, samp.2);
            proof {
                lemma_fmul_le_left(setup.2 as int, samp.2 as int);
                lemma_fmul_nonneg(setup.2 as int, samp.2 as int);
            }
            let geom: StampGeom = make_geom(samp.0, samp.1, a.size, setup.0, setup.1);
            let p = BlendParams { g: geom, strength: ps, press: pr };
            proof {
                assert(p == blend_stroke_params_s(a, s as int));
            }
            self.blend_stamp(p);
            s = s + 1;
        }
    }

    /// Paints a water-brush stroke: the whole-grid effect is the fold of
    /// the water stamp over the stroke samples.
    pub fn apply_water_brush_stroke(
        &mut self,
        x0: i64,
        y0: i64,
        x1: i64,
        y1: i64,
        size: i64,
        water_amount: i64,
        flow_strength: i64,
        velocity: i64,
    )
        requires
            old(self).wf(),
            -0x8_0000 <= x0 <= 0x8_0000,
            -0x8_0000 <= y0 <= 0x8_0000,
            -0x8_0000 <= x1 <= 0x8_0000,
            -0x8_0000 <= y1 <= 0x8_0000,
            0 <= size <= 0x100_0000,
            0 <= water_amount <= LIM,
            -LIM <= flow_strength <= LIM,
            0 <= velocity <= LIM,
        ensures
            final(self).wf(),
            final(self).model() == water_stroke_upto_s(
                old(self).model(),
                old(self).paper_h@,
                old(self).width as int,
                old(self).height as int,
                (WaterStrokeArgs { x0, y0, x1, y1, size, water: water_amount, flow: flow_strength, velocity }),
                (stroke_steps_s(x1 - x0 as int, y1 - y0 as int, size) + 1) as nat,
            ),
            old(self).same_frame(*final(self)),
    {
        let a = WaterStrokeArgs { x0, y0, x1, y1, size, water: water_amount, flow: flow_strength, velocity };
        let dx: i64 = x1 - x0;
        let dy: i64 = y1 - y0;
        let setup: (i64, i64, i64, i64) = stroke_setup(x0, y0, x1, y1, size, velocity);
        let steps: i64 = setup.3;
        let mut s: i64 = 0;
        while s <= steps
            invariant
                self.wf(),
                old(self).wf(),
                0 <= s <= steps + 1,
                old(self).same_frame(*self),
                a == (WaterStrokeArgs { x0, y0, x1, y1, size, water: water_amount, flow: flow_strength, velocity }),
                -0x8_0000 <= x0 <= 0x8_0000 && -0x8_0000 <= y0 <= 0x8_0000,
                -0x8_0000 <= x1 <= 0x8_0000 && -0x8_0000 <= y1 <= 0x8_0000,
                dx == x1 - x0 && dy == y1 - y0,
                0 <= size <= 0x100_0000,
                0 <= water_amount <= LIM,
                -LIM <= flow_strength <= LIM,
                0 <= velocity <= LIM,
                setup.0 == dir_cos_s(dx as int, dy as int),
                setup.1 == dir_sin_s(dx as int, dy as int),
                setup.2 == stroke_press_s(velocity),
                steps == stroke_steps_s(dx as int, dy as int, size),
                -ONE <= setup.0 <= ONE && -ONE <= setup.1 <= ONE,
                S_PRESS_LO <= setup.2 <= ONE,
                1 <= steps <= 0x40_0000_0000,
                self.model() == water_stroke_upto_s(
                    old(self).model(),
                    old(self).paper_h@,
                    self.width as int,
                        self.height as int,
                    a,
                    s as nat,
                ),
            decreases steps + 1 - s,
        {
            let samp: (i64, i64, i64) = stroke_sample(x0, y0, dx, dy, steps, s);
            let pw: i64 = fmul(a.water, samp.2);
            let pf: i64 = clamp_to(fmul(a.flow, samp.2), 0, B_FLOW_MAX);
            let pr: i64 = fmul(setup.2, samp.2);
            proof {
                lemma_fmul_le_left(a.water as int, samp.2 as int);
                lemma_fmul_le_left(setup.2 as int, samp.2 as int);
                lemma_fmul_nonneg(setup.2 as int, samp.2 as int);
            }
            let geom: StampGeom = make_geom(samp.0, samp.1, a.size, setup.0, setup.1);
            let p = WaterParams { g: geom, water: pw, flow: pf, press: pr };
            proof {
                assert(p == water_stroke_params_s(a, s as int));
            }
            self.water_stamp(p);
            s = s + 1;
        }
    }

}

} // verus!
