//! The compositor: deposited and suspended pigment over a white substrate,
//! a gloss boost where the surface is wet, and an optional paper-texture
//! overlay, written as 8-bit RGBA.

use vstd::prelude::*;
use crate::fx::ONE;
use crate::fx::HALF;
use crate::fx::fmul_s;
use crate::fx::clamp01_s;
use crate::fx::clamp_s;
use crate::fx::tdiv_s;
use crate::fx::min_i;
use crate::fx::max_i;
use crate::fx::fmul;
use crate::fx::clamp01;
use crate::fx::clamp_to;
use crate::fx::tdivq;
use crate::fx::fmin;
use crate::fx::fmax;
use crate::fx::lemma_tdiv_bounds;
use crate::fx::lemma_tdiv_mono;
use crate::fx::lemma_fmul_le_left;
use crate::fx::lemma_fmul_nonneg;
use crate::fx::lemma_fmul_range;
use crate::engine::WatercolorEngine;
use crate::model::FieldsModel;
use crate::params::R_SUSPENDED;
use crate::params::R_GLOSS_MIN;
use crate::params::R_GLOSS;
use crate::params::R_TEX_FADE;
use crate::params::R_TEX_FLOOR;
use crate::params::R_TEX_BASE;
use crate::params::R_TEX_GRAN;
use crate::params::R_TEX_CONTRAST;

verus! {

/// The three colour bytes of one rendered cell.
pub struct RenderCell {
    pub r: u8,
    pub g: u8,
    pub b: u8,
}

/// The colour one byte channel takes: subtractive mixing against white,
/// clamped to one byte after scaling.
pub open spec fn byte_of_s(out: int) -> u8 {
    tdiv_s(clamp_s(out * 255, 0, 255 * (ONE as int)), ONE as int) as u8
}

/// The compositor at cell `k`: each channel is white minus the deposited
/// pigment and a weighted share of the suspended pigment; wet cells gain a
/// small gloss, and with the texture overlay on, the smoothed paper field
/// modulates the result, fading under heavy paint.
#[verifier::opaque]
pub open spec fn render_cell_s(
    f: FieldsModel,
    paper_render: Seq<i64>,
    granularity: i64,
    show_texture: bool,
    k: int,
) -> RenderCell {
    let total_r = f.dr[k] + fmul_s(f.gr[k] as int, R_SUSPENDED as int);
    let total_g = f.dg[k] + fmul_s(f.gg[k] as int, R_SUSPENDED as int);
    let total_b = f.db[k] + fmul_s(f.gb[k] as int, R_SUSPENDED as int);
    let or0 = clamp01_s(ONE - total_r);
    let og0 = clamp01_s(ONE - total_g);
    let ob0 = clamp01_s(ONE - total_b);
    let wetness = min_i(f.h[k] as int, ONE as int);
    let gloss = ONE + fmul_s(wetness, R_GLOSS as int);
    let or1 = if wetness > R_GLOSS_MIN {
        min_i(fmul_s(or0, gloss), ONE as int)
    } else {
        or0
    };
    let og1 = if wetness > R_GLOSS_MIN {
        min_i(fmul_s(og0, gloss), ONE as int)
    } else {
        og0
    };
    let ob1 = if wetness > R_GLOSS_MIN {
        min_i(fmul_s(ob0, gloss), ONE as int)
    } else {
        ob0
    };
    if show_texture {
        let has_paint = min_i(total_r + total_g + total_b, ONE as int);
        let tex_fade = max_i(ONE - fmul_s(has_paint, R_TEX_FADE as int), R_TEX_FLOOR as int);
        let tex_strength = fmul_s(
            R_TEX_BASE + fmul_s(granularity as int, R_TEX_GRAN as int),
            tex_fade,
        );
        let tex = ONE + fmul_s(
            fmul_s(paper_render[k] - HALF, tex_strength),
            R_TEX_CONTRAST as int,
        );
        RenderCell {
            r: byte_of_s(fmul_s(or1, tex)),
            g: byte_of_s(fmul_s(og1, tex)),
            b: byte_of_s(fmul_s(ob1, tex)),
        }
    } else {
        RenderCell { r: byte_of_s(or1), g: byte_of_s(og1), b: byte_of_s(ob1) }
    }
}

/// Scales a unit-bounded channel to one byte, truncating.
fn byte_of(out: i64) -> (r: u8)
    requires
        -0x1_0000_0000 <= out <= 0x1_0000_0000,
    ensures
        r == byte_of_s(out as int),
{
    let scaled: i64 = clamp_to(out * 255, 0, 255 * ONE);
    proof {
        lemma_tdiv_bounds(scaled as int, ONE as int);
        lemma_tdiv_mono(scaled as int, 255 * (ONE as int), ONE as int);
        vstd::arithmetic::div_mod::lemma_div_multiples_vanish(255, ONE as int);
        assert(255 * (ONE as int) == (ONE as int) * 255);
    }
    tdivq(scaled, ONE) as u8
}

/// Executes the compositor on one cell.
#[verifier::rlimit(100)]
fn render_cell_exec(e: &WatercolorEngine, k: usize) -> (c: RenderCell)
    requires
        e.wf(),
        k < e.total,
    ensures
        c == render_cell_s(e.model(), e.paper_render@, e.granularity, e.show_texture, k as int),
{
    proof {
        reveal(render_cell_s);
    }
    let tr: i64 = e.dr[k] + fmul(e.gr[k], R_SUSPENDED);
    let tg: i64 = e.dg[k] + fmul(e.gg[k], R_SUSPENDED);
    let tb: i64 = e.db[k] + fmul(e.gb[k], R_SUSPENDED);
    proof {
        lemma_fmul_le_left(e.gr@[k as int] as int, R_SUSPENDED as int);
        lemma_fmul_le_left(e.gg@[k as int] as int, R_SUSPENDED as int);
        lemma_fmul_le_left(e.gb@[k as int] as int, R_SUSPENDED as int);
    }
    let or0: i64 = clamp01(ONE - tr);
    let og0: i64 = clamp01(ONE - tg);
    let ob0: i64 = clamp01(ONE - tb);
    let wetness: i64 = fmin(e.h[k], ONE);
    let gloss: i64 = ONE + fmul(wetness, R_GLOSS);
    proof {
        lemma_fmul_le_left(wetness as int, R_GLOSS as int);
        lemma_fmul_nonneg(wetness as int, R_GLOSS as int);
    }
    let mut or1: i64 = or0;
    let mut og1: i64 = og0;
    let mut ob1: i64 = ob0;
    if wetness > R_GLOSS_MIN {
        proof {
            lemma_fmul_nonneg(or0 as int, gloss as int);
            lemma_fmul_nonneg(og0 as int, gloss as int);
            lemma_fmul_nonneg(ob0 as int, gloss as int);
            lemma_fmul_range(or0 as int, gloss as int, ONE as int, 2 * (ONE as int));
            lemma_fmul_range(og0 as int, gloss as int, ONE as int, 2 * (ONE as int));
            lemma_fmul_range(ob0 as int, gloss as int, ONE as int, 2 * (ONE as int));
            vstd::arithmetic::div_mod::lemma_div_multiples_vanish(2 * (ONE as int), ONE as int);
            assert((ONE as int) * (2 * (ONE as int)) == (ONE as int) * (2 * (ONE as int)));
        }
        or1 = fmin(fmul(or0, gloss), ONE);
        og1 = fmin(fmul(og0, gloss), ONE);
        ob1 = fmin(fmul(ob0, gloss), ONE);
    }
    if e.show_texture {
        let has_paint: i64 = fmin(tr + tg + tb, ONE);
        let tf1: i64 = fmul(has_paint, R_TEX_FADE);
        proof {
            lemma_fmul_le_left(has_paint as int, R_TEX_FADE as int);
            lemma_fmul_nonneg(has_paint as int, R_TEX_FADE as int);
        }
        let tex_fade: i64 = fmax(ONE - tf1, R_TEX_FLOOR);
        let ts1: i64 = R_TEX_BASE + fmul(e.granularity, R_TEX_GRAN);
        proof {
            lemma_fmul_le_left(e.granularity as int, R_TEX_GRAN as int);
            lemma_fmul_nonneg(e.granularity as int, R_TEX_GRAN as int);
        }
        let tex_strength: i64 = fmul(ts1, tex_fade);
        proof {
            lemma_fmul_le_left(ts1 as int, tex_fade as int);
            lemma_fmul_nonneg(ts1 as int, tex_fade as int);
        }
        let ti1: i64 = fmul(e.paper_render[k] - HALF, tex_strength);
        proof {
            lemma_fmul_range(
                e.paper_render@[k as int] as int - HALF,
                tex_strength as int,
                HALF as int,
                7209,
            );
            lemma_tdiv_bounds((HALF as int) * 7209, ONE as int);
        }
        let ti2: i64 = fmul(ti1, R_TEX_CONTRAST);
        proof {
            lemma_fmul_range(ti1 as int, R_TEX_CONTRAST as int, 0x1_0000, R_TEX_CONTRAST as int);
            lemma_tdiv_bounds((0x1_0000 as int) * (R_TEX_CONTRAST as int), ONE as int);
        }
        let tex: i64 = ONE + ti2;
        let fr: i64 = fmul(or1, tex);
        let fg: i64 = fmul(og1, tex);
        let fb: i64 = fmul(ob1, tex);
        proof {
            lemma_fmul_range(or1 as int, tex as int, ONE as int, 2 * (ONE as int));
            lemma_fmul_range(og1 as int, tex as int, ONE as int, 2 * (ONE as int));
            lemma_fmul_range(ob1 as int, tex as int, ONE as int, 2 * (ONE as int));
            vstd::arithmetic::div_mod::lemma_div_multiples_vanish(2 * (ONE as int), ONE as int);
            assert((ONE as int) * (2 * (ONE as int)) == (ONE as int) * (2 * (ONE as int)));
        }
        RenderCell { r: byte_of(fr), g: byte_of(fg), b: byte_of(fb) }
    } else {
        RenderCell { r: byte_of(or1), g: byte_of(og1), b: byte_of(ob1) }
    }
}

/// An element-for-element copy of a byte buffer.
fn clone_bytes(src: &Vec<u8>) -> (v: Vec<u8>)
    ensures
        v@ == src@,
{
    let mut v: Vec<u8> = Vec::new();
    let mut k: usize = 0;
    while k < src.len()
        invariant
            k <= src@.len(),
            v@.len() == k,
            forall|m: int| 0 <= m < k ==> v@[m] == src@[m],
        decreases src@.len() - k,
    {
        v.push(src[k]);
        k = k + 1;
    }
    proof {
        assert(v@ =~= src@);
    }
    v
}

impl WatercolorEngine {
    /// Composites the current state into the RGBA pixel buffer and returns
    /// a copy of it: four bytes per cell, row-major, alpha always opaque.
    /// Every cell's bytes are exactly `render_cell_s` of the current state.
    pub fn render(&mut self) -> (out: Vec<u8>)
        requires
            old(self).wf(),
        ensures
            final(self).wf(),
            final(self).model() == old(self).model(),
            old(self).same_core(*final(self)),
            final(self).show_texture == old(self).show_texture,
            final(self).iterations == old(self).iterations,
            final(self).seed == old(self).seed,
            final(self).pixels@.len() == 4 * old(self).total,
            forall|m: int|
                0 <= m < old(self).total ==> #[trigger] final(self).pixels@[4 * m]
                    == render_cell_s(
                    old(self).model(),
                    old(self).paper_render@,
                    old(self).granularity,
                    old(self).show_texture,
                    m,
                ).r,
            forall|m: int|
                0 <= m < old(self).total ==> #[trigger] final(self).pixels@[4 * m + 1]
                    == render_cell_s(
                    old(self).model(),
                    old(self).paper_render@,
                    old(self).granularity,
                    old(self).show_texture,
                    m,
                ).g,
            forall|m: int|
                0 <= m < old(self).total ==> #[trigger] final(self).pixels@[4 * m + 2]
                    == render_cell_s(
                    old(self).model(),
                    old(self).paper_render@,
                    old(self).granularity,
                    old(self).show_texture,
                    m,
                ).b,
            forall|m: int|
                0 <= m < old(self).total ==> #[trigger] final(self).pixels@[4 * m + 3] == 255u8,
            out@ == final(self).pixels@,
    {
        let total: usize = self.total;
        let mut npix: Vec<u8> = Vec::new();
        let mut k: usize = 0;
        while k < total
            invariant
                *self == *old(self),
                self.wf(),
                total == self.total,
                k <= total,
                npix@.len() == 4 * k,
                forall|m: int|
                    0 <= m < k ==> #[trigger] npix@[4 * m] == render_cell_s(
                        self.model(),
                        self.paper_render@,
                        self.granularity,
                        self.show_texture,
                        m,
                    ).r,
                forall|m: int|
                    0 <= m < k ==> #[trigger] npix@[4 * m + 1] == render_cell_s(
                        self.model(),
                        self.paper_render@,
                        self.granularity,
                        self.show_texture,
                        m,
                    ).g,
                forall|m: int|
                    0 <= m < k ==> #[trigger] npix@[4 * m + 2] == render_cell_s(
                        self.model(),
                        self.paper_render@,
                        self.granularity,
                        self.show_texture,
                        m,
                    ).b,
                forall|m: int|
                    0 <= m < k ==> #[trigger] npix@[4 * m + 3] == 255u8,
            decreases total - k,
        {
            let c: RenderCell = render_cell_exec(self, k);
            npix.push(c.r);
            npix.push(c.g);
            npix.push(c.b);
            npix.push(255);
            proof {
                assert(npix@[4 * (k as int)] == c.r);
                assert(npix@[4 * (k as int) + 1] == c.g);
                assert(npix@[4 * (k as int) + 2] == c.b);
                assert(npix@[4 * (k as int) + 3] == 255u8);
            }
            k = k + 1;
        }
        self.pixels = npix;
        clone_bytes(&self.pixels)
    }
}

} // verus!
