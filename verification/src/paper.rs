//! The paper texture model: a deterministic procedural roughness field.
//!
//! Every cell draws once from a 32-bit xorshift generator and adds four
//! octaves of sine/cosine spatial terms, so the same dimensions always
//! reproduce the same field bit for bit. The smoothed render-only variant
//! and the external texture load live with the engine methods.

use vstd::prelude::*;
use vstd::arithmetic::div_mod::lemma_div_nonincreasing;
use vstd::arithmetic::div_mod::lemma_mod_division_less_than_divisor;
use vstd::arithmetic::div_mod::lemma_div_multiples_vanish;
use vstd::arithmetic::div_mod::lemma_div_is_ordered;
use vstd::arithmetic::mul::lemma_mul_inequality;
use crate::fx::HALF;
use crate::fx::tdiv_s;
use crate::fx::tdivq;
use crate::fx::lemma_tdiv_bounds;
use crate::fx::lemma_tdiv_mono;
use crate::fx::lemma_fmul_range;
use crate::engine::WatercolorEngine;
use crate::params::P_COMPRESS;
use crate::params::T_LUMA_R;
use crate::params::T_LUMA_G;
use crate::params::T_LUMA_B;
use crate::fx::ONE;
use crate::fx::fmul_s;
use crate::fx::clamp01_s;
use crate::fx::fmul;
use crate::fx::clamp01;
use crate::fx::lemma_fmul_unit;
use crate::trig::sin_s;
use crate::trig::cos_s;
use crate::trig::sin_fx;
use crate::trig::cos_fx;
use crate::params::P_BASE;
use crate::params::P_NOISE;
use crate::params::P_F1;
use crate::params::P_F2;
use crate::params::P_F3;
use crate::params::P_F4;
use crate::params::P_F5;
use crate::params::P_F6;
use crate::params::P_W1;
use crate::params::P_W2;
use crate::params::P_W3;

verus! {

/// The fixed seed the procedural paper starts from.
pub const PAPER_SEED: u32 = 42;

/// One step of the 32-bit xorshift generator.
pub open spec fn xorshift_s(s0: u32) -> u32 {
    let s1 = s0 ^ (s0 << 13);
    let s2 = s1 ^ (s1 >> 17);
    s2 ^ (s2 << 5)
}

pub fn xorshift(s: u32) -> (r: u32)
    ensures
        r == xorshift_s(s),
{
    let s1: u32 = s ^ (s << 13u32);
    let s2: u32 = s1 ^ (s1 >> 17u32);
    s2 ^ (s2 << 5u32)
}

/// The generator state after `n` draws.
pub open spec fn seed_at(n: nat) -> u32
    decreases n,
{
    if n == 0 {
        PAPER_SEED
    } else {
        xorshift_s(seed_at((n - 1) as nat))
    }
}

/// The procedural roughness of cell `k` on a grid `w` cells wide: the base
/// level, one noise draw (cell `k` uses the state after `k + 1` draws), and
/// three trigonometric octaves, clamped to the unit interval.
pub open spec fn paper_cell_s(k: int, w: int) -> int {
    let i = k / w;
    let j = k % w;
    let r = (seed_at((k + 1) as nat) >> 16) as int;
    let n1 = fmul_s(r, P_NOISE as int);
    let n2 = fmul_s(fmul_s(sin_s(i * P_F1), cos_s(j * P_F2)), P_W1 as int);
    let n3 = fmul_s(fmul_s(cos_s(i * P_F3), sin_s(j * P_F4)), P_W2 as int);
    let n4 = fmul_s(sin_s(i * P_F5) + cos_s(j * P_F6), P_W3 as int);
    clamp01_s(P_BASE + n1 + n2 + n3 + n4)
}

/// Builds the whole procedural paper field, returning the cells and the
/// final generator state.
#[verifier::rlimit(60)]
pub fn generate_paper(w: usize, h: usize) -> (out: (Vec<i64>, u32))
    requires
        1 <= w,
        1 <= h,
        w * h <= 0x1000_0000,
    ensures
        out.0@.len() == w * h,
        forall|k: int|
            0 <= k < w * h ==> out.0@[k] == paper_cell_s(k, w as int),
        forall|k: int| 0 <= k < w * h ==> 0 <= #[trigger] out.0@[k] <= ONE,
        out.1 == seed_at((w * h) as nat),
{
    let total: usize = w * h;
    proof {
        assert(w <= w * h && h <= w * h) by (nonlinear_arith)
            requires
                1 <= w,
                1 <= h,
        ;
    }
    let mut v: Vec<i64> = Vec::new();
    let mut seed: u32 = PAPER_SEED;
    let mut k: usize = 0;
    while k < total
        invariant
            k <= total,
            total == w * h,
            total <= 0x1000_0000,
            1 <= w <= total,
            v@.len() == k,
            seed == seed_at(k as nat),
            forall|m: int| 0 <= m < k ==> v@[m] == paper_cell_s(m, w as int),
            forall|m: int| 0 <= m < k ==> 0 <= #[trigger] v@[m] <= ONE,
        decreases total - k,
    {
        let i: usize = k / w;
        let j: usize = k % w;
        proof {
            lemma_div_nonincreasing(k as int, w as int);
            lemma_mod_division_less_than_divisor(k as int, w as int);
        }
        seed = xorshift(seed);
        let r: i64 = (seed >> 16u32) as i64;
        let n1: i64 = fmul(r, P_NOISE);
        let t1: i64 = fmul(sin_fx((i as i64) * P_F1), cos_fx((j as i64) * P_F2));
        let t2: i64 = fmul(cos_fx((i as i64) * P_F3), sin_fx((j as i64) * P_F4));
        proof {
            lemma_fmul_unit(sin_s((i as i64) * P_F1 as int), cos_s((j as i64) * P_F2 as int));
            lemma_fmul_unit(cos_s((i as i64) * P_F3 as int), sin_s((j as i64) * P_F4 as int));
        }
        let n2: i64 = fmul(t1, P_W1);
        let n3: i64 = fmul(t2, P_W2);
        let n4: i64 = fmul(sin_fx((i as i64) * P_F5) + cos_fx((j as i64) * P_F6), P_W3);
        let value: i64 = clamp01(P_BASE + n1 + n2 + n3 + n4);
        proof {
            assert(seed == seed_at((k + 1) as nat));
            assert(value == paper_cell_s(k as int, w as int));
        }
        v.push(value);
        k = k + 1;
    }
    (v, seed)
}


/// One cell of the smoothed render map: the 3-by-3 box average of the
/// roughness field (clamped at the grid edges), contrast-compressed around
/// the middle grey.
#[verifier::opaque]
pub open spec fn blur_cell_s(paper: Seq<i64>, w: int, hgt: int, k: int) -> i64 {
    let x = k % w;
    let y = k / w;
    let t1 = if y >= 1 && x >= 1 { paper[k - w - 1] } else { 0 };
    let t2 = if y >= 1 { paper[k - w] } else { 0 };
    let t3 = if y >= 1 && x + 2 <= w { paper[k - w + 1] } else { 0 };
    let t4 = if x >= 1 { paper[k - 1] } else { 0 };
    let t5 = paper[k];
    let t6 = if x + 2 <= w { paper[k + 1] } else { 0 };
    let t7 = if y + 2 <= hgt && x >= 1 { paper[k + w - 1] } else { 0 };
    let t8 = if y + 2 <= hgt { paper[k + w] } else { 0 };
    let t9 = if y + 2 <= hgt && x + 2 <= w { paper[k + w + 1] } else { 0 };
    let c1: int = if y >= 1 && x >= 1 { 1 } else { 0 };
    let c2: int = if y >= 1 { 1 } else { 0 };
    let c3: int = if y >= 1 && x + 2 <= w { 1 } else { 0 };
    let c4: int = if x >= 1 { 1 } else { 0 };
    let c6: int = if x + 2 <= w { 1 } else { 0 };
    let c7: int = if y + 2 <= hgt && x >= 1 { 1 } else { 0 };
    let c8: int = if y + 2 <= hgt { 1 } else { 0 };
    let c9: int = if y + 2 <= hgt && x + 2 <= w { 1 } else { 0 };
    let sum = t1 + t2 + t3 + t4 + t5 + t6 + t7 + t8 + t9;
    let cnt = c1 + c2 + c3 + c4 + 1 + c6 + c7 + c8 + c9;
    let avg = tdiv_s(sum, cnt);
    let compressed = HALF + fmul_s(avg - HALF, P_COMPRESS as int);
    clamp01_s(compressed) as i64
}

/// One cell of an externally loaded texture: the nearest-neighbour source
/// pixel, converted to luma and normalised; a cell whose source bytes lie
/// beyond the buffer keeps its prior roughness.
#[verifier::opaque]
pub open spec fn tex_cell_s(
    paper: Seq<i64>,
    data: Seq<u8>,
    w: int,
    hgt: int,
    tw: int,
    th: int,
    k: int,
) -> i64 {
    let x = k % w;
    let y = k / w;
    let src_x = (x * tw) / w;
    let src_y = (y * th) / hgt;
    let src_idx = (src_y * tw + src_x) * 4;
    if src_idx + 2 < data.len() {
        tdiv_s(
            (data[src_idx] as int) * T_LUMA_R + (data[src_idx + 1] as int) * T_LUMA_G + (data[
                src_idx + 2] as int) * T_LUMA_B,
            255,
        ) as i64
    } else {
        paper[k]
    }
}

/// Executes the blur on one cell.
#[verifier::rlimit(100)]
fn blur_cell_exec(paper: &Vec<i64>, w: usize, hgt: usize, k: usize) -> (r: i64)
    requires
        paper@.len() == w * hgt,
        crate::engine::in_unit(paper@),
        k < w * hgt,
        1 <= w,
        1 <= hgt,
        w * hgt <= 0x1000_0000,
    ensures
        r == blur_cell_s(paper@, w as int, hgt as int, k as int),
        0 <= r <= ONE,
{
    proof {
        reveal(blur_cell_s);
        assert(w <= w * hgt && hgt <= w * hgt) by (nonlinear_arith)
            requires
                1 <= w,
                1 <= hgt,
        ;
    }
    let n: usize = paper.len();
    let x: usize = k % w;
    let y: usize = k / w;
    proof {
        lemma_mod_division_less_than_divisor(k as int, w as int);
        lemma_div_nonincreasing(k as int, w as int);
        vstd::arithmetic::div_mod::lemma_fundamental_div_mod(k as int, w as int);
        assert((y as int) < hgt as int) by (nonlinear_arith)
            requires
                (k as int) == (w as int) * (y as int) + (x as int),
                0 <= x as int,
                (k as int) < (w as int) * (hgt as int),
                1 <= w,
                0 <= y as int,
        ;
        assert((w as int) * (y as int) <= (w as int) * ((hgt as int) - 1)) by (nonlinear_arith)
            requires
                (y as int) <= (hgt as int) - 1,
                1 <= w,
        ;
        assert((w as int) * ((hgt as int) - 1) == (w as int) * (hgt as int) - (w as int))
            by (nonlinear_arith);
        if y >= 1 {
            assert((w as int) * (y as int) >= (w as int) * 1) by (nonlinear_arith)
                requires
                    1 <= y,
                    1 <= w,
            ;
        }
        if y + 2 <= hgt {
            assert((w as int) * (y as int) <= (w as int) * ((hgt as int) - 2)) by (nonlinear_arith)
                requires
                    (y as int) <= (hgt as int) - 2,
                    1 <= w,
            ;
            assert((w as int) * ((hgt as int) - 2) == (w as int) * (hgt as int) - 2 * (w as int))
                by (nonlinear_arith);
        }
    }
    let t1: i64 = if y >= 1 && x >= 1 { paper[k - w - 1] } else { 0 };
    let t2: i64 = if y >= 1 { paper[k - w] } else { 0 };
    let t3: i64 = if y >= 1 && x + 2 <= w { paper[k - w + 1] } else { 0 };
    let t4: i64 = if x >= 1 { paper[k - 1] } else { 0 };
    let t5: i64 = paper[k];
    let t6: i64 = if x + 2 <= w { paper[k + 1] } else { 0 };
    let t7: i64 = if y + 2 <= hgt && x >= 1 { paper[k + w - 1] } else { 0 };
    let t8: i64 = if y + 2 <= hgt { paper[k + w] } else { 0 };
    let t9: i64 = if y + 2 <= hgt && x + 2 <= w { paper[k + w + 1] } else { 0 };
    let c1: i64 = if y >= 1 && x >= 1 { 1 } else { 0 };
    let c2: i64 = if y >= 1 { 1 } else { 0 };
    let c3: i64 = if y >= 1 && x + 2 <= w { 1 } else { 0 };
    let c4: i64 = if x >= 1 { 1 } else { 0 };
    let c6: i64 = if x + 2 <= w { 1 } else { 0 };
    let c7: i64 = if y + 2 <= hgt && x >= 1 { 1 } else { 0 };
    let c8: i64 = if y + 2 <= hgt { 1 } else { 0 };
    let c9: i64 = if y + 2 <= hgt && x + 2 <= w { 1 } else { 0 };
    let sum: i64 = t1 + t2 + t3 + t4 + t5 + t6 + t7 + t8 + t9;
    let cnt: i64 = c1 + c2 + c3 + c4 + 1 + c6 + c7 + c8 + c9;
    let avg: i64 = tdivq(sum, cnt);
    proof {
        assert(0 <= t1 <= 65536 * c1);
        assert(0 <= t2 <= 65536 * c2);
        assert(0 <= t3 <= 65536 * c3);
        assert(0 <= t4 <= 65536 * c4);
        assert(0 <= t6 <= 65536 * c6);
        assert(0 <= t7 <= 65536 * c7);
        assert(0 <= t8 <= 65536 * c8);
        assert(0 <= t9 <= 65536 * c9);
        assert(sum as int <= (cnt as int) * (ONE as int)) by (nonlinear_arith)
            requires
                sum as int <= 65536 * (cnt as int),
                cnt as int >= 1,
        ;
        lemma_tdiv_bounds(sum as int, cnt as int);
        lemma_tdiv_mono(sum as int, (cnt as int) * (ONE as int), cnt as int);
        lemma_div_multiples_vanish(ONE as int, cnt as int);
    }
    let ci: i64 = fmul(avg - HALF, P_COMPRESS);
    proof {
        lemma_fmul_range(avg as int - HALF, P_COMPRESS as int, HALF as int, P_COMPRESS as int);
        lemma_tdiv_bounds((HALF as int) * (P_COMPRESS as int), ONE as int);
    }
    clamp01(HALF + ci)
}

/// Executes the texture sampling on one cell.
#[verifier::rlimit(50)]
fn tex_cell_exec(
    paper: &Vec<i64>,
    data: &Vec<u8>,
    w: usize,
    hgt: usize,
    tw: usize,
    th: usize,
    k: usize,
) -> (r: i64)
    requires
        paper@.len() == w * hgt,
        crate::engine::in_unit(paper@),
        k < w * hgt,
        1 <= w,
        1 <= hgt,
        w * hgt <= 0x1000_0000,
        tw <= 0x1000_0000,
        th <= 0x1000_0000,
    ensures
        r == tex_cell_s(paper@, data@, w as int, hgt as int, tw as int, th as int, k as int),
        0 <= r <= ONE,
{
    proof {
        reveal(tex_cell_s);
        assert(w <= w * hgt && hgt <= w * hgt) by (nonlinear_arith)
            requires
                1 <= w,
                1 <= hgt,
        ;
    }
    let x: usize = k % w;
    let y: usize = k / w;
    proof {
        lemma_mod_division_less_than_divisor(k as int, w as int);
        lemma_div_nonincreasing(k as int, w as int);
        vstd::arithmetic::div_mod::lemma_fundamental_div_mod(k as int, w as int);
        assert((y as int) < hgt as int) by (nonlinear_arith)
            requires
                (k as int) == (w as int) * (y as int) + (x as int),
                0 <= x as int,
                (k as int) < (w as int) * (hgt as int),
                1 <= w,
                0 <= y as int,
        ;
        vstd::arithmetic::mul::lemma_mul_nonnegative(x as int, tw as int);
        vstd::arithmetic::mul::lemma_mul_nonnegative(y as int, th as int);
        assert((x as int) * (tw as int) <= 0x1000_0000 * 0x1000_0000) by (nonlinear_arith)
            requires
                0 <= x as int <= 0x1000_0000,
                0 <= tw as int <= 0x1000_0000,
        ;
        assert((y as int) * (th as int) <= 0x1000_0000 * 0x1000_0000) by (nonlinear_arith)
            requires
                0 <= y as int <= 0x1000_0000,
                0 <= th as int <= 0x1000_0000,
        ;
        lemma_mul_inequality(x as int, w as int, tw as int);
        lemma_mul_inequality(y as int, hgt as int, th as int);
        lemma_div_is_ordered((x as int) * (tw as int), (w as int) * (tw as int), w as int);
        lemma_div_is_ordered((y as int) * (th as int), (hgt as int) * (th as int), hgt as int);
        assert((w as int) * (tw as int) == (tw as int) * (w as int)) by (nonlinear_arith);
        assert((hgt as int) * (th as int) == (th as int) * (hgt as int)) by (nonlinear_arith);
        lemma_div_multiples_vanish(tw as int, w as int);
        lemma_div_multiples_vanish(th as int, hgt as int);
        lemma_tdiv_bounds((x as int) * (tw as int), w as int);
        lemma_tdiv_bounds((y as int) * (th as int), hgt as int);
    }
    let src_x: u64 = ((x as u64) * (tw as u64)) / (w as u64);
    let src_y: u64 = ((y as u64) * (th as u64)) / (hgt as u64);
    proof {
        assert((src_y as int) * (tw as int) <= 0x1000_0000 * 0x1000_0000) by (nonlinear_arith)
            requires
                0 <= src_y as int <= 0x1000_0000,
                0 <= tw as int <= 0x1000_0000,
        ;
        vstd::arithmetic::mul::lemma_mul_nonnegative(src_y as int, tw as int);
    }
    let src_idx: u64 = (src_y * (tw as u64) + src_x) * 4;
    if src_idx + 2 < data.len() as u64 {
        let si: usize = src_idx as usize;
        let num: i64 = (data[si] as i64) * T_LUMA_R + (data[si + 1] as i64) * T_LUMA_G + (
        data[si + 2] as i64) * T_LUMA_B;
        proof {
            lemma_tdiv_bounds(num as int, 255);
            lemma_tdiv_mono(num as int, 255 * (ONE as int), 255);
            lemma_div_multiples_vanish(ONE as int, 255);
            assert(255 * (ONE as int) == (255 as int) * (ONE as int));
        }
        tdivq(num, 255)
    } else {
        paper[k]
    }
}

impl WatercolorEngine {
    /// Rebuilds the smoothed render-only variant of the paper field: each
    /// cell is exactly `blur_cell_s` of the roughness field.
    pub(crate) fn rebuild_paper_render_map(&mut self)
        requires
            old(self).wf(),
        ensures
            final(self).wf(),
            *final(self) == (WatercolorEngine { paper_render: final(self).paper_render, ..*old(self) }),
            final(self).paper_render@.len() == old(self).total,
            forall|m: int|
                0 <= m < old(self).total ==> #[trigger] final(self).paper_render@[m]
                    == blur_cell_s(
                    old(self).paper_h@,
                    old(self).width as int,
                    old(self).height as int,
                    m,
                ),
    {
        let w: usize = self.width;
        let hgt: usize = self.height;
        let total: usize = self.total;
        let mut np: Vec<i64> = Vec::new();
        let mut k: usize = 0;
        while k < total
            invariant
                *self == *old(self),
                self.wf(),
                w == self.width,
                hgt == self.height,
                total == self.total,
                k <= total,
                np@.len() == k,
                forall|m: int|
                    0 <= m < k ==> #[trigger] np@[m] == blur_cell_s(
                        self.paper_h@,
                        w as int,
                        hgt as int,
                        m,
                    ),
                forall|m: int| 0 <= m < k ==> 0 <= #[trigger] np@[m] <= ONE,
            decreases total - k,
        {
            let r: i64 = blur_cell_exec(&self.paper_h, w, hgt, k);
            np.push(r);
            k = k + 1;
        }
        self.paper_render = np;
    }

    /// Loads an external RGBA image as the paper roughness field:
    /// nearest-neighbour resampled to the grid, converted to luma, each
    /// cell exactly `tex_cell_s`; cells whose source lies beyond the buffer
    /// keep their prior value. The render map is then rebuilt from the new
    /// field.
    pub fn load_paper_texture(&mut self, data: &Vec<u8>, tex_w: u32, tex_h: u32)
        requires
            old(self).wf(),
            tex_w <= 0x1000_0000,
            tex_h <= 0x1000_0000,
        ensures
            final(self).wf(),
            *final(self) == (WatercolorEngine {
                paper_h: final(self).paper_h,
                paper_render: final(self).paper_render,
                ..*old(self)
            }),
            final(self).paper_h@.len() == old(self).total,
            forall|m: int|
                0 <= m < old(self).total ==> #[trigger] final(self).paper_h@[m] == tex_cell_s(
                    old(self).paper_h@,
                    data@,
                    old(self).width as int,
                    old(self).height as int,
                    tex_w as int,
                    tex_h as int,
                    m,
                ),
            final(self).paper_render@.len() == old(self).total,
            forall|m: int|
                0 <= m < old(self).total ==> #[trigger] final(self).paper_render@[m]
                    == blur_cell_s(
                    final(self).paper_h@,
                    old(self).width as int,
                    old(self).height as int,
                    m,
                ),
    {
        let w: usize = self.width;
        let hgt: usize = self.height;
        let total: usize = self.total;
        let tw: usize = tex_w as usize;
        let th: usize = tex_h as usize;
        let mut np: Vec<i64> = Vec::new();
        let mut k: usize = 0;
        while k < total
            invariant
                *self == *old(self),
                self.wf(),
                w == self.width,
                hgt == self.height,
                total == self.total,
                tw == tex_w && tw <= 0x1000_0000,
                th == tex_h && th <= 0x1000_0000,
                k <= total,
                np@.len() == k,
                forall|m: int|
                    0 <= m < k ==> #[trigger] np@[m] == tex_cell_s(
                        self.paper_h@,
                        data@,
                        w as int,
                        hgt as int,
                        tw as int,
                        th as int,
                        m,
                    ),
                forall|m: int| 0 <= m < k ==> 0 <= #[trigger] np@[m] <= ONE,
            decreases total - k,
        {
            let r: i64 = tex_cell_exec(&self.paper_h, data, w, hgt, tw, th, k);
            np.push(r);
            k = k + 1;
        }
        self.paper_h = np;
        self.rebuild_paper_render_map();
    }
}

} // verus!
