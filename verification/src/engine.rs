//! The grid field store and the engine's lifecycle: construction, reset,
//! parameter setters and dimension accessors.
//!
//! All per-cell fields are dense row-major vectors of length
//! `width * height`, indexed `idx = y * width + x`. The well-formedness
//! predicate `wf` ties every field to that length and bounds every stored
//! value; every operation of the engine preserves it.

use vstd::prelude::*;
use crate::fx::ONE;
use crate::fx::LIM;
use crate::paper::generate_paper;
use crate::paper::paper_cell_s;
use crate::paper::seed_at;
use crate::params::D_DT;
use crate::params::D_EVAPORATION;
use crate::params::D_VISCOSITY;
use crate::params::D_PRESSURE;
use crate::params::D_ADHESION;
use crate::params::D_GRANULARITY;

verus! {

/// Every value of a non-negative field lies in `[0, LIM]`.
pub open spec fn in_lim(s: Seq<i64>) -> bool {
    forall|k: int| 0 <= k < s.len() ==> 0 <= #[trigger] s[k] <= LIM
}

/// Every value of a signed field lies in `[-LIM, LIM]`.
pub open spec fn in_sym(s: Seq<i64>) -> bool {
    forall|k: int| 0 <= k < s.len() ==> -LIM <= #[trigger] s[k] <= LIM
}

/// Every value of a unit-interval field lies in `[0, ONE]`.
pub open spec fn in_unit(s: Seq<i64>) -> bool {
    forall|k: int| 0 <= k < s.len() ==> 0 <= #[trigger] s[k] <= ONE
}

/// A watercolor simulation over one grid: water film, velocity, pressure,
/// wetness mask, suspended and deposited pigment per RGB channel, the paper
/// roughness field with its smoothed render variant, and the output pixels.
/// All scalar quantities are Q16.16 fixed point.
pub struct WatercolorEngine {
    pub width: usize,
    pub height: usize,
    pub total: usize,
    /// Free water film thickness.
    pub h: Vec<i64>,
    /// Water velocity, x component.
    pub u: Vec<i64>,
    /// Water velocity, y component.
    pub v: Vec<i64>,
    /// Pressure accumulator of the relaxation pass.
    pub p: Vec<i64>,
    /// Has-been-wetted mask.
    pub mask: Vec<i64>,
    /// Suspended pigment, per channel.
    pub gr: Vec<i64>,
    pub gg: Vec<i64>,
    pub gb: Vec<i64>,
    /// Deposited pigment, per channel.
    pub dr: Vec<i64>,
    pub dg: Vec<i64>,
    pub db: Vec<i64>,
    /// Paper roughness, and its smoothed render-only variant.
    pub paper_h: Vec<i64>,
    pub paper_render: Vec<i64>,
    /// RGBA output buffer, 4 bytes per cell.
    pub pixels: Vec<u8>,
    pub dt: i64,
    pub evaporation: i64,
    pub viscosity: i64,
    pub pressure: i64,
    pub iterations: u32,
    pub adhesion: i64,
    pub granularity: i64,
    pub show_texture: bool,
    pub seed: u32,
}

impl WatercolorEngine {
    /// Well-formedness: coherent dimensions, equal field lengths, and every
    /// stored value inside its band.
    pub open spec fn wf(&self) -> bool {
        &&& 1 <= self.width
        &&& 1 <= self.height
        &&& self.total == self.width * self.height
        &&& self.total <= 0x1000_0000
        &&& self.h@.len() == self.total
        &&& self.u@.len() == self.total
        &&& self.v@.len() == self.total
        &&& self.p@.len() == self.total
        &&& self.mask@.len() == self.total
        &&& self.gr@.len() == self.total
        &&& self.gg@.len() == self.total
        &&& self.gb@.len() == self.total
        &&& self.dr@.len() == self.total
        &&& self.dg@.len() == self.total
        &&& self.db@.len() == self.total
        &&& self.paper_h@.len() == self.total
        &&& self.paper_render@.len() == self.total
        &&& self.pixels@.len() == 4 * self.total
        &&& in_lim(self.h@)
        &&& in_sym(self.u@)
        &&& in_sym(self.v@)
        &&& in_sym(self.p@)
        &&& in_unit(self.mask@)
        &&& in_lim(self.gr@)
        &&& in_lim(self.gg@)
        &&& in_lim(self.gb@)
        &&& in_lim(self.dr@)
        &&& in_lim(self.dg@)
        &&& in_lim(self.db@)
        &&& in_unit(self.paper_h@)
        &&& in_unit(self.paper_render@)
        &&& 0 <= self.dt <= 4 * ONE
        &&& 0 <= self.evaporation <= ONE
        &&& 0 <= self.viscosity <= ONE
        &&& 0 <= self.pressure <= 1024 * ONE
        &&& 0 <= self.adhesion <= ONE
        &&& 0 <= self.granularity <= ONE
    }

    /// Builds an engine over a `w` by `h` grid. The paper field is
    /// generated procedurally from the fixed seed, so it is a pure function
    /// of the dimensions: two engines of the same size always carry a
    /// bit-identical `paper_h`. The grid must be non-empty and small enough
    /// for its pixel buffer to be addressable.
    pub fn new(w: u32, h: u32) -> (engine: WatercolorEngine)
        requires
            1 <= w,
            1 <= h,
            w * h <= 0x1000_0000,
        ensures
            engine.wf(),
            engine.width == w,
            engine.height == h,
            forall|k: int|
                0 <= k < w * h ==> engine.paper_h@[k] == paper_cell_s(k, w as int),
            engine.paper_render@ == engine.paper_h@,
            forall|k: int|
                0 <= k < w * h ==> engine.h@[k] == 0 && engine.u@[k] == 0 && engine.v@[k] == 0
                    && engine.p@[k] == 0 && #[trigger] engine.mask@[k] == 0,
            forall|k: int|
                0 <= k < w * h ==> engine.gr@[k] == 0 && engine.gg@[k] == 0 && engine.gb@[k] == 0
                    && engine.dr@[k] == 0 && engine.dg@[k] == 0 && #[trigger] engine.db@[k] == 0,
            forall|k: int| 0 <= k < 4 * (w * h) ==> engine.pixels@[k] == 255,
            engine.dt == D_DT && engine.evaporation == D_EVAPORATION && engine.viscosity
                == D_VISCOSITY && engine.pressure == D_PRESSURE && engine.iterations == 10
                && engine.adhesion == D_ADHESION && engine.granularity == D_GRANULARITY
                && engine.show_texture,
            engine.seed == seed_at((w * h) as nat),
    {
        let width: usize = w as usize;
        let height: usize = h as usize;
        let total: usize = width * height;
        let gen: (Vec<i64>, u32) = generate_paper(width, height);
        let paper_h: Vec<i64> = gen.0;
        let paper_render: Vec<i64> = clone_field(&paper_h);
        WatercolorEngine {
            width,
            height,
            total,
            h: zero_field(total),
            u: zero_field(total),
            v: zero_field(total),
            p: zero_field(total),
            mask: zero_field(total),
            gr: zero_field(total),
            gg: zero_field(total),
            gb: zero_field(total),
            dr: zero_field(total),
            dg: zero_field(total),
            db: zero_field(total),
            paper_h,
            paper_render,
            pixels: opaque_pixels(total),
            dt: D_DT,
            evaporation: D_EVAPORATION,
            viscosity: D_VISCOSITY,
            pressure: D_PRESSURE,
            iterations: 10,
            adhesion: D_ADHESION,
            granularity: D_GRANULARITY,
            show_texture: true,
            seed: gen.1,
        }
    }

    pub fn get_width(&self) -> (r: u32)
        requires
            self.width <= 0xffff_ffff,
        ensures
            r == self.width,
    {
        self.width as u32
    }

    pub fn get_height(&self) -> (r: u32)
        requires
            self.height <= 0xffff_ffff,
        ensures
            r == self.height,
    {
        self.height as u32
    }

    /// The water film height at cell `(x, y)`.
    pub fn water_at(&self, x: usize, y: usize) -> (r: i64)
        requires
            self.wf(),
            x < self.width,
            y < self.height,
        ensures
            r == self.h@[y * self.width + x],
    {
        proof {
            lemma_cell_index(self.width as int, self.height as int, x as int, y as int);
        }
        self.h[y * self.width + x]
    }

    /// The wet mask at cell `(x, y)`.
    pub fn mask_at(&self, x: usize, y: usize) -> (r: i64)
        requires
            self.wf(),
            x < self.width,
            y < self.height,
        ensures
            r == self.mask@[y * self.width + x],
    {
        proof {
            lemma_cell_index(self.width as int, self.height as int, x as int, y as int);
        }
        self.mask[y * self.width + x]
    }

    /// The suspended pigment at cell `(x, y)`, per channel.
    pub fn suspended_at(&self, x: usize, y: usize) -> (r: (i64, i64, i64))
        requires
            self.wf(),
            x < self.width,
            y < self.height,
        ensures
            r.0 == self.gr@[y * self.width + x],
            r.1 == self.gg@[y * self.width + x],
            r.2 == self.gb@[y * self.width + x],
    {
        proof {
            lemma_cell_index(self.width as int, self.height as int, x as int, y as int);
        }
        let k: usize = y * self.width + x;
        (self.gr[k], self.gg[k], self.gb[k])
    }

    /// The deposited pigment at cell `(x, y)`, per channel.
    pub fn deposited_at(&self, x: usize, y: usize) -> (r: (i64, i64, i64))
        requires
            self.wf(),
            x < self.width,
            y < self.height,
        ensures
            r.0 == self.dr@[y * self.width + x],
            r.1 == self.dg@[y * self.width + x],
            r.2 == self.db@[y * self.width + x],
    {
        proof {
            lemma_cell_index(self.width as int, self.height as int, x as int, y as int);
        }
        let k: usize = y * self.width + x;
        (self.dr[k], self.dg[k], self.db[k])
    }

    /// The paper roughness at cell `(x, y)`.
    pub fn paper_at(&self, x: usize, y: usize) -> (r: i64)
        requires
            self.wf(),
            x < self.width,
            y < self.height,
        ensures
            r == self.paper_h@[y * self.width + x],
    {
        proof {
            lemma_cell_index(self.width as int, self.height as int, x as int, y as int);
        }
        self.paper_h[y * self.width + x]
    }

    /// Sets the physics parameters; everything else is untouched.
    pub fn set_physics(
        &mut self,
        dt: i64,
        evaporation: i64,
        viscosity: i64,
        pressure: i64,
        iterations: u32,
    )
        requires
            0 <= dt <= 4 * ONE,
            0 <= evaporation <= ONE,
            0 <= viscosity <= ONE,
            0 <= pressure <= 1024 * ONE,
        ensures
            *final(self) == (WatercolorEngine {
                dt,
                evaporation,
                viscosity,
                pressure,
                iterations,
                ..*old(self)
            }),
            old(self).wf() ==> final(self).wf(),
    {
        self.dt = dt;
        self.evaporation = evaporation;
        self.viscosity = viscosity;
        self.pressure = pressure;
        self.iterations = iterations;
    }

    /// Sets the pigment parameters; everything else is untouched.
    pub fn set_pigment_props(&mut self, adhesion: i64, granularity: i64)
        requires
            0 <= adhesion <= ONE,
            0 <= granularity <= ONE,
        ensures
            *final(self) == (WatercolorEngine { adhesion, granularity, ..*old(self) }),
            old(self).wf() ==> final(self).wf(),
    {
        self.adhesion = adhesion;
        self.granularity = granularity;
    }

    /// Switches the paper-texture overlay of the compositor.
    pub fn set_show_texture(&mut self, show: bool)
        ensures
            *final(self) == (WatercolorEngine { show_texture: show, ..*old(self) }),
            old(self).wf() ==> final(self).wf(),
    {
        self.show_texture = show;
    }

    /// Zeroes every dynamic field; the paper fields, the pixel buffer and
    /// all parameters keep their values.
    pub fn reset(&mut self)
        requires
            old(self).wf(),
        ensures
            final(self).wf(),
            final(self).width == old(self).width,
            final(self).height == old(self).height,
            final(self).total == old(self).total,
            forall|k: int|
                0 <= k < final(self).total ==> {
                    &&& final(self).h@[k] == 0
                    &&& final(self).u@[k] == 0
                    &&& final(self).v@[k] == 0
                    &&& final(self).p@[k] == 0
                    &&& #[trigger] final(self).mask@[k] == 0
                },
            forall|k: int|
                0 <= k < final(self).total ==> {
                    &&& final(self).gr@[k] == 0
                    &&& final(self).gg@[k] == 0
                    &&& final(self).gb@[k] == 0
                    &&& final(self).dr@[k] == 0
                    &&& final(self).dg@[k] == 0
                    &&& #[trigger] final(self).db@[k] == 0
                },
            final(self).paper_h == old(self).paper_h,
            final(self).paper_render == old(self).paper_render,
            final(self).pixels == old(self).pixels,
            final(self).dt == old(self).dt,
            final(self).evaporation == old(self).evaporation,
            final(self).viscosity == old(self).viscosity,
            final(self).pressure == old(self).pressure,
            final(self).iterations == old(self).iterations,
            final(self).adhesion == old(self).adhesion,
            final(self).granularity == old(self).granularity,
            final(self).show_texture == old(self).show_texture,
            final(self).seed == old(self).seed,
    {
        let total: usize = self.total;
        self.h = zero_field(total);
        self.u = zero_field(total);
        self.v = zero_field(total);
        self.p = zero_field(total);
        self.mask = zero_field(total);
        self.gr = zero_field(total);
        self.gg = zero_field(total);
        self.gb = zero_field(total);
        self.dr = zero_field(total);
        self.dg = zero_field(total);
        self.db = zero_field(total);
    }
}

/// A cell coordinate inside the grid gives an index inside every field.
pub proof fn lemma_cell_index(w: int, hgt: int, x: int, y: int)
    requires
        1 <= w,
        1 <= hgt,
        0 <= x < w,
        0 <= y < hgt,
    ensures
        0 <= y * w + x < w * hgt,
{
    assert(0 <= y * w + x < w * hgt) by (nonlinear_arith)
        requires
            1 <= w,
            0 <= x < w,
            0 <= y <= hgt - 1,
    ;
}

/// A fresh all-zero field of `n` cells.
pub fn zero_field(n: usize) -> (v: Vec<i64>)
    ensures
        v@.len() == n,
        forall|k: int| 0 <= k < n ==> v@[k] == 0,
{
    let mut v: Vec<i64> = Vec::new();
    let mut k: usize = 0;
    while k < n
        invariant
            k <= n,
            v@.len() == k,
            forall|m: int| 0 <= m < k ==> v@[m] == 0,
        decreases n - k,
    {
        v.push(0);
        k = k + 1;
    }
    v
}

/// An element-for-element copy of a field.
pub fn clone_field(src: &Vec<i64>) -> (v: Vec<i64>)
    ensures
        v@ == src@,
{
    let mut v: Vec<i64> = Vec::new();
    let mut k: usize = 0;
    while k < src.len()
        invariant
            k <= src@.len(),
            v@.len() == k,
            forall|m: int| 0 <= m < k ==> v@[m] == src@[m],
        decreases src@.len() - k,
    {
        v.push(src[k]);
        k = k + 1;
    }
    proof {
        assert(v@ =~= src@);
    }
    v
}

/// A fully opaque white pixel buffer for `n` cells.
pub fn opaque_pixels(n: usize) -> (v: Vec<u8>)
    requires
        n <= 0x1000_0000,
    ensures
        v@.len() == 4 * n,
        forall|k: int| 0 <= k < 4 * n ==> v@[k] == 255,
{
    let mut v: Vec<u8> = Vec::new();
    let mut k: usize = 0;
    while k < 4 * n
        invariant
            n <= 0x1000_0000,
            k <= 4 * n,
            v@.len() == k,
            forall|m: int| 0 <= m < k ==> v@[m] == 255,
        decreases 4 * n - k,
    {
        v.push(255);
        k = k + 1;
    }
    v
}

} // verus!
