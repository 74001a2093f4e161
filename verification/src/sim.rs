//! The simulation step pipeline: six ordered sub-passes over the grid.
//!
//! Velocity derivation, pressure relaxation and semi-Lagrangian advection
//! are independent per-cell maps; deposition is a per-cell transfer;
//! capillary diffusion and the back-run are sequential folds that move
//! quantities between neighbouring cells. Each pass is specified as a
//! total function on the `FieldsModel`, and `step` is their composition.

use vstd::prelude::*;
use vstd::pervasive::VecAdditionalExecFns;
use vstd::arithmetic::div_mod::lemma_div_nonincreasing;
use vstd::arithmetic::div_mod::lemma_mod_division_less_than_divisor;
use vstd::arithmetic::div_mod::lemma_fundamental_div_mod;
use vstd::arithmetic::div_mod::lemma_div_multiples_vanish;
use crate::fx::ONE;
use crate::fx::HALF;
use crate::fx::LIM;
use crate::fx::fmul_s;
use crate::fx::fdiv_s;
use crate::fx::cap_s;
use crate::fx::clip_s;
use crate::fx::clamp_s;
use crate::fx::min_i;
use crate::fx::fmul;
use crate::fx::fdiv;
use crate::fx::tdivq;
use crate::fx::fmin;
use crate::fx::cap_lim;
use crate::fx::clip;
use crate::fx::clamp_to;
use crate::fx::lemma_tdiv_bounds;
use crate::fx::lemma_tdiv_mono;
use crate::fx::lemma_fmul_le_left;
use crate::fx::lemma_fmul_nonneg;
use crate::fx::lemma_fmul_range;
use crate::fx::lemma_fdiv_abs;
use crate::fx::lemma_tdiv_half;
use crate::engine::WatercolorEngine;
use crate::model::FieldsModel;
use crate::params::C_WET_VEL;
use crate::params::C_SLOPE;
use crate::params::C_WET_P;
use crate::params::C_EVAP_GAIN;
use crate::params::C_DIV_HALF;
use crate::params::C_GRAN;
use crate::params::C_DEP_CAP;
use crate::params::C_WET_CAP;
use crate::params::C_CAP_RATE;
use crate::params::C_CAP_MIN;
use crate::params::C_CAP_PIG;
use crate::params::C_EPS;
use crate::params::C_CAP_MASK;
use crate::params::C_DRY_LO;
use crate::params::C_DRY_HI;
use crate::params::C_PUSH;
use crate::trig::fsqrt_s;
use crate::trig::fsqrt;

verus! {

/// Whether cell `k` lies strictly inside the one-cell border.
pub open spec fn interior_s(w: int, hgt: int, k: int) -> bool {
    &&& 1 <= k % w <= w - 2
    &&& 1 <= k / w <= hgt - 2
}

/// Index bounds that hold for every interior cell: its four neighbours are
/// in range.
pub proof fn lemma_interior_bounds(w: int, hgt: int, k: int)
    requires
        1 <= w,
        1 <= hgt,
        0 <= k,
        interior_s(w, hgt, k),
    ensures
        w + 1 <= k,
        k + w + 1 < w * hgt,
{
    lemma_fundamental_div_mod(k, w);
    assert(w * (k / w) >= w * 1 && w * (k / w) <= w * (hgt - 2)) by (nonlinear_arith)
        requires
            1 <= k / w <= hgt - 2,
            1 <= w,
    ;
    assert(w * (hgt - 2) == w * hgt - 2 * w) by (nonlinear_arith);
}

/// What the velocity pass leaves in one cell.
pub struct VelCell {
    pub u: i64,
    pub v: i64,
}

/// The velocity pass at cell `k`: for wet interior cells the central
/// gradient of water-plus-paper height accelerates the flow downhill, and
/// friction then damps it; dry and border cells keep their velocity.
#[verifier::opaque]
pub open spec fn vel_cell_s(
    f: FieldsModel,
    paper: Seq<i64>,
    w: int,
    hgt: int,
    dt: i64,
    viscosity: i64,
    k: int,
) -> VelCell {
    if interior_s(w, hgt, k) && f.h[k] >= C_WET_VEL {
        let friction = ONE - viscosity;
        let dhdx = (f.h[k + 1] + paper[k + 1]) - (f.h[k - 1] + paper[k - 1]);
        let dhdy = (f.h[k + w] + paper[k + w]) - (f.h[k - w] + paper[k - w]);
        let du = fmul_s(fmul_s(dhdx, C_SLOPE as int), dt as int);
        let dv = fmul_s(fmul_s(dhdy, C_SLOPE as int), dt as int);
        VelCell {
            u: clip_s(fmul_s(f.u[k] - du, friction as int)) as i64,
            v: clip_s(fmul_s(f.v[k] - dv, friction as int)) as i64,
        }
    } else {
        VelCell { u: f.u[k], v: f.v[k] }
    }
}

/// The whole-grid effect of the velocity pass.
pub open spec fn vel_map_s(
    f: FieldsModel,
    paper: Seq<i64>,
    w: int,
    hgt: int,
    dt: i64,
    viscosity: i64,
) -> FieldsModel {
    FieldsModel {
        u: Seq::new(f.u.len(), |k: int| vel_cell_s(f, paper, w, hgt, dt, viscosity, k).u),
        v: Seq::new(f.v.len(), |k: int| vel_cell_s(f, paper, w, hgt, dt, viscosity, k).v),
        ..f
    }
}

/// Executes the velocity pass on one cell.
#[verifier::rlimit(50)]
fn vel_cell_exec(e: &WatercolorEngine, k: usize) -> (c: VelCell)
    requires
        e.wf(),
        k < e.total,
    ensures
        c == vel_cell_s(
            e.model(),
            e.paper_h@,
            e.width as int,
            e.height as int,
            e.dt,
            e.viscosity,
            k as int,
        ),
        -LIM <= c.u <= LIM,
        -LIM <= c.v <= LIM,
{
    proof {
        reveal(vel_cell_s);
        assert(e.width <= e.total) by (nonlinear_arith)
            requires
                e.total == e.width * e.height,
                1 <= e.width,
                1 <= e.height,
        ;
    }
    let w: usize = e.width;
    let hgt: usize = e.height;
    let x: usize = k % w;
    let y: usize = k / w;
    proof {
        lemma_mod_division_less_than_divisor(k as int, w as int);
        lemma_div_nonincreasing(k as int, w as int);
    }
    if !(1 <= x && x + 2 <= w && 1 <= y && y + 2 <= hgt && e.h[k] >= C_WET_VEL) {
        return VelCell { u: e.u[k], v: e.v[k] };
    }
    proof {
        lemma_interior_bounds(w as int, hgt as int, k as int);
    }
    let friction: i64 = ONE - e.viscosity;
    let dhdx: i64 = (e.h[k + 1] + e.paper_h[k + 1]) - (e.h[k - 1] + e.paper_h[k - 1]);
    let dhdy: i64 = (e.h[k + w] + e.paper_h[k + w]) - (e.h[k - w] + e.paper_h[k - w]);
    let du: i64 = fmul(fmul(dhdx, C_SLOPE), e.dt);
    let dv: i64 = fmul(fmul(dhdy, C_SLOPE), e.dt);
    proof {
        lemma_fmul_range(dhdx as int, C_SLOPE as int, 0x8000_0000, C_SLOPE as int);
        lemma_fmul_range(dhdy as int, C_SLOPE as int, 0x8000_0000, C_SLOPE as int);
        lemma_tdiv_bounds(0x8000_0000 * (C_SLOPE as int), ONE as int);
        lemma_fmul_range(fmul_s(dhdx as int, C_SLOPE as int), e.dt as int, 0xC_0000_0000, 4 * (
        ONE as int));
        lemma_fmul_range(fmul_s(dhdy as int, C_SLOPE as int), e.dt as int, 0xC_0000_0000, 4 * (
        ONE as int));
        lemma_tdiv_bounds((0xC_0000_0000 as int) * (4 * (ONE as int)), ONE as int);
    }
    let um: i64 = e.u[k] - du;
    let vm: i64 = e.v[k] - dv;
    proof {
        lemma_fmul_range(um as int, friction as int, 0x100_0000_0000, ONE as int);
        lemma_fmul_range(vm as int, friction as int, 0x100_0000_0000, ONE as int);
        lemma_tdiv_bounds((0x100_0000_0000 as int) * (ONE as int), ONE as int);
    }
    VelCell { u: clip(fmul(um, friction)), v: clip(fmul(vm, friction)) }
}

/// The pressure relaxation at cell `k`, one sweep: the local divergence of
/// the velocity drains the pressure accumulator, and wet unmasked cells
/// additionally lose pressure to evaporation.
#[verifier::opaque]
pub open spec fn relax_cell_s(
    f: FieldsModel,
    w: int,
    hgt: int,
    pressure: i64,
    evaporation: i64,
    k: int,
) -> i64 {
    if interior_s(w, hgt, k) {
        let div = fmul_s(f.u[k + 1] - f.u[k - 1] + f.v[k + w] - f.v[k - w], C_DIV_HALF as int);
        let p1 = f.p[k] - fmul_s(div, pressure as int);
        let p2 = if f.h[k] > C_WET_P {
            p1 - fmul_s(fmul_s(evaporation as int, ONE - f.mask[k]), C_EVAP_GAIN as int)
        } else {
            p1
        };
        clip_s(p2) as i64
    } else {
        f.p[k]
    }
}

/// One whole-grid sweep of the pressure relaxation.
pub open spec fn relax_pass_s(
    f: FieldsModel,
    w: int,
    hgt: int,
    pressure: i64,
    evaporation: i64,
) -> FieldsModel {
    FieldsModel {
        p: Seq::new(f.p.len(), |k: int| relax_cell_s(f, w, hgt, pressure, evaporation, k)),
        ..f
    }
}

/// `n` sweeps of the pressure relaxation.
pub open spec fn relax_iter_s(
    f: FieldsModel,
    w: int,
    hgt: int,
    pressure: i64,
    evaporation: i64,
    n: nat,
) -> FieldsModel
    decreases n,
{
    if n == 0 {
        f
    } else {
        relax_pass_s(
            relax_iter_s(f, w, hgt, pressure, evaporation, (n - 1) as nat),
            w,
            hgt,
            pressure,
            evaporation,
        )
    }
}

/// Executes one relaxation sweep on one cell.
#[verifier::rlimit(50)]
fn relax_cell_exec(e: &WatercolorEngine, k: usize) -> (r: i64)
    requires
        e.wf(),
        k < e.total,
    ensures
        r == relax_cell_s(
            e.model(),
            e.width as int,
            e.height as int,
            e.pressure,
            e.evaporation,
            k as int,
        ),
        -LIM <= r <= LIM,
{
    proof {
        reveal(relax_cell_s);
        assert(e.width <= e.total) by (nonlinear_arith)
            requires
                e.total == e.width * e.height,
                1 <= e.width,
                1 <= e.height,
        ;
    }
    let w: usize = e.width;
    let hgt: usize = e.height;
    let x: usize = k % w;
    let y: usize = k / w;
    proof {
        lemma_mod_division_less_than_divisor(k as int, w as int);
        lemma_div_nonincreasing(k as int, w as int);
    }
    if !(1 <= x && x + 2 <= w && 1 <= y && y + 2 <= hgt) {
        return e.p[k];
    }
    proof {
        lemma_interior_bounds(w as int, hgt as int, k as int);
    }
    let div: i64 = fmul(e.u[k + 1] - e.u[k - 1] + e.v[k + w] - e.v[k - w], C_DIV_HALF);
    let dp: i64 = fmul(div, e.pressure);
    proof {
        lemma_fmul_range(
            e.u@[k as int + 1] - e.u@[k as int - 1] + e.v@[k as int + w as int] - e.v@[k as int
                - w as int],
            C_DIV_HALF as int,
            0x1_0000_0000,
            C_DIV_HALF as int,
        );
        lemma_tdiv_bounds((0x1_0000_0000 as int) * (C_DIV_HALF as int), ONE as int);
        lemma_fmul_range(div as int, e.pressure as int, 0x1_0000_0000, 1024 * (ONE as int));
        lemma_tdiv_bounds((0x1_0000_0000 as int) * (1024 * (ONE as int)), ONE as int);
    }
    let p1: i64 = e.p[k] - dp;
    let p2: i64 = if e.h[k] > C_WET_P {
        let ev1: i64 = fmul(e.evaporation, ONE - e.mask[k]);
        proof {
            lemma_fmul_le_left(e.evaporation as int, ONE - e.mask@[k as int] as int);
            lemma_fmul_nonneg(e.evaporation as int, ONE - e.mask@[k as int] as int);
        }
        let ev: i64 = fmul(ev1, C_EVAP_GAIN);
        proof {
            lemma_fmul_range(ev1 as int, C_EVAP_GAIN as int, ONE as int, C_EVAP_GAIN as int);
            lemma_tdiv_bounds((ONE as int) * (C_EVAP_GAIN as int), ONE as int);
        }
        p1 - ev
    } else {
        p1
    };
    clip(p2)
}

impl WatercolorEngine {
    /// Derives the water velocity from the height gradients: the
    /// whole-grid effect is exactly `vel_map_s`.
    pub fn update_velocities(&mut self)
        requires
            old(self).wf(),
        ensures
            final(self).wf(),
            final(self).model() == vel_map_s(
                old(self).model(),
                old(self).paper_h@,
                old(self).width as int,
                old(self).height as int,
                old(self).dt,
                old(self).viscosity,
            ),
            old(self).same_frame(*final(self)),
    {
        let total: usize = self.total;
        let mut nu: Vec<i64> = Vec::new();
        let mut nv: Vec<i64> = Vec::new();
        let mut k: usize = 0;
        while k < total
            invariant
                *self == *old(self),
                self.wf(),
                total == self.total,
                k <= total,
                nu@.len() == k,
                nv@.len() == k,
                forall|m: int|
                    0 <= m < k ==> #[trigger] nu@[m] == vel_cell_s(
                        self.model(),
                        self.paper_h@,
                        self.width as int,
                        self.height as int,
                        self.dt,
                        self.viscosity,
                        m,
                    ).u,
                forall|m: int|
                    0 <= m < k ==> #[trigger] nv@[m] == vel_cell_s(
                        self.model(),
                        self.paper_h@,
                        self.width as int,
                        self.height as int,
                        self.dt,
                        self.viscosity,
                        m,
                    ).v,
                forall|m: int| 0 <= m < k ==> -LIM <= #[trigger] nu@[m] <= LIM,
                forall|m: int| 0 <= m < k ==> -LIM <= #[trigger] nv@[m] <= LIM,
            decreases total - k,
        {
            let c: VelCell = vel_cell_exec(self, k);
            nu.push(c.u);
            nv.push(c.v);
            k = k + 1;
        }
        self.u = nu;
        self.v = nv;
        proof {
            let m0 = old(self).model();
            let mm = vel_map_s(
                m0,
                old(self).paper_h@,
                old(self).width as int,
                old(self).height as int,
                old(self).dt,
                old(self).viscosity,
            );
            assert forall|i: int| 0 <= i < m0.u.len() implies #[trigger] mm.u[i] == nu@[i] by {
                assert(nu@[i] == vel_cell_s(
                    m0,
                    old(self).paper_h@,
                    old(self).width as int,
                    old(self).height as int,
                    old(self).dt,
                    old(self).viscosity,
                    i,
                ).u);
            }
            assert forall|i: int| 0 <= i < m0.v.len() implies #[trigger] mm.v[i] == nv@[i] by {
                assert(nv@[i] == vel_cell_s(
                    m0,
                    old(self).paper_h@,
                    old(self).width as int,
                    old(self).height as int,
                    old(self).dt,
                    old(self).viscosity,
                    i,
                ).v);
            }
            assert(mm.u =~= nu@);
            assert(mm.v =~= nv@);
            assert(final(self).model() =~= mm);
        }
    }

    /// Relaxes the pressure accumulator for the configured number of
    /// sweeps: the whole-grid effect is exactly `relax_iter_s`.
    pub fn relax_divergence(&mut self)
        requires
            old(self).wf(),
        ensures
            final(self).wf(),
            final(self).model() == relax_iter_s(
                old(self).model(),
                old(self).width as int,
                old(self).height as int,
                old(self).pressure,
                old(self).evaporation,
                old(self).iterations as nat,
            ),
            old(self).same_frame(*final(self)),
    {
        let total: usize = self.total;
        let iterations: u32 = self.iterations;
        let mut it: u32 = 0;
        while it < iterations
            invariant
                old(self).wf(),
                self.wf(),
                it <= iterations,
                total == self.total,
                iterations == self.iterations,
                old(self).same_frame(*self),
                self.h == old(self).h,
                self.u == old(self).u,
                self.v == old(self).v,
                self.mask == old(self).mask,
                self.gr == old(self).gr,
                self.gg == old(self).gg,
                self.gb == old(self).gb,
                self.dr == old(self).dr,
                self.dg == old(self).dg,
                self.db == old(self).db,
                self.model() == relax_iter_s(
                    old(self).model(),
                    old(self).width as int,
                    old(self).height as int,
                    old(self).pressure,
                    old(self).evaporation,
                    it as nat,
                ),
            decreases iterations - it,
        {
            let mut np: Vec<i64> = Vec::new();
            let mut k: usize = 0;
            while k < total
                invariant
                    self.wf(),
                    total == self.total,
                    k <= total,
                    np@.len() == k,
                    forall|m: int|
                        0 <= m < k ==> #[trigger] np@[m] == relax_cell_s(
                            self.model(),
                            self.width as int,
                            self.height as int,
                            self.pressure,
                            self.evaporation,
                            m,
                        ),
                    forall|m: int| 0 <= m < k ==> -LIM <= #[trigger] np@[m] <= LIM,
                decreases total - k,
            {
                let r: i64 = relax_cell_exec(self, k);
                np.push(r);
                k = k + 1;
            }
            proof {
                let mc = self.model();
                let mm = relax_pass_s(
                    mc,
                    self.width as int,
                    self.height as int,
                    self.pressure,
                    self.evaporation,
                );
                assert forall|i: int| 0 <= i < mc.p.len() implies #[trigger] mm.p[i] == np@[i] by {
                    assert(np@[i] == relax_cell_s(
                        mc,
                        self.width as int,
                        self.height as int,
                        self.pressure,
                        self.evaporation,
                        i,
                    ));
                }
                assert(mm.p =~= np@);
            }
            let ghost pre = self.model();
            self.p = np;
            proof {
                assert(self.model() =~= relax_pass_s(
                    pre,
                    self.width as int,
                    self.height as int,
                    self.pressure,
                    self.evaporation,
                ));
            }
            it = it + 1;
        }
    }
}


/// What the advection pass leaves in one cell.
pub struct AdvCell {
    pub h: i64,
    pub gr: i64,
    pub gg: i64,
    pub gb: i64,
}

/// The semi-Lagrangian advection at cell `k`: a wet interior cell
/// back-traces its source position against the velocity, bilinearly samples
/// water and suspended pigment there from the prior state, and evaporation
/// scales the water; every other cell is left empty, as the fresh target
/// buffers are.
#[verifier::opaque]
pub open spec fn adv_cell_s(
    f: FieldsModel,
    w: int,
    hgt: int,
    dt: i64,
    evaporation: i64,
    k: int,
) -> AdvCell {
    if interior_s(w, hgt, k) && f.h[k] > 0 {
        let i = k / w;
        let j = k % w;
        let pi = clamp_s(i * ONE - fmul_s(f.u[k] as int, dt as int), ONE as int, (hgt - 2) * ONE);
        let pj = clamp_s(j * ONE - fmul_s(f.v[k] as int, dt as int), ONE as int, (w - 2) * ONE);
        let i0 = pi / (ONE as int);
        let j0 = pj / (ONE as int);
        let si = pi - i0 * ONE;
        let sj = pj - j0 * ONE;
        let w00 = fmul_s(ONE - si, ONE - sj);
        let w10 = fmul_s(si, ONE - sj);
        let w01 = fmul_s(ONE - si, sj);
        let w11 = fmul_s(si, sj);
        let k00 = i0 * w + j0;
        let k10 = (i0 + 1) * w + j0;
        let k01 = i0 * w + (j0 + 1);
        let k11 = (i0 + 1) * w + (j0 + 1);
        let sh = fmul_s(f.h[k00] as int, w00) + fmul_s(f.h[k10] as int, w10) + fmul_s(
            f.h[k01] as int,
            w01,
        ) + fmul_s(f.h[k11] as int, w11);
        let sr = fmul_s(f.gr[k00] as int, w00) + fmul_s(f.gr[k10] as int, w10) + fmul_s(
            f.gr[k01] as int,
            w01,
        ) + fmul_s(f.gr[k11] as int, w11);
        let sg = fmul_s(f.gg[k00] as int, w00) + fmul_s(f.gg[k10] as int, w10) + fmul_s(
            f.gg[k01] as int,
            w01,
        ) + fmul_s(f.gg[k11] as int, w11);
        let sb = fmul_s(f.gb[k00] as int, w00) + fmul_s(f.gb[k10] as int, w10) + fmul_s(
            f.gb[k01] as int,
            w01,
        ) + fmul_s(f.gb[k11] as int, w11);
        AdvCell {
            h: cap_s(fmul_s(sh, ONE - evaporation as int)) as i64,
            gr: cap_s(sr) as i64,
            gg: cap_s(sg) as i64,
            gb: cap_s(sb) as i64,
        }
    } else {
        AdvCell { h: 0, gr: 0, gg: 0, gb: 0 }
    }
}

/// The whole-grid effect of the advection pass.
pub open spec fn adv_map_s(
    f: FieldsModel,
    w: int,
    hgt: int,
    dt: i64,
    evaporation: i64,
) -> FieldsModel {
    FieldsModel {
        h: Seq::new(f.h.len(), |k: int| adv_cell_s(f, w, hgt, dt, evaporation, k).h),
        gr: Seq::new(f.gr.len(), |k: int| adv_cell_s(f, w, hgt, dt, evaporation, k).gr),
        gg: Seq::new(f.gg.len(), |k: int| adv_cell_s(f, w, hgt, dt, evaporation, k).gg),
        gb: Seq::new(f.gb.len(), |k: int| adv_cell_s(f, w, hgt, dt, evaporation, k).gb),
        ..f
    }
}

/// Executes the advection pass on one cell.
#[verifier::rlimit(100)]
fn adv_cell_exec(e: &WatercolorEngine, k: usize) -> (c: AdvCell)
    requires
        e.wf(),
        k < e.total,
    ensures
        c == adv_cell_s(
            e.model(),
            e.width as int,
            e.height as int,
            e.dt,
            e.evaporation,
            k as int,
        ),
        0 <= c.h <= LIM,
        0 <= c.gr <= LIM,
        0 <= c.gg <= LIM,
        0 <= c.gb <= LIM,
{
    proof {
        reveal(adv_cell_s);
        assert(e.width <= e.total && e.height <= e.total) by (nonlinear_arith)
            requires
                e.total == e.width * e.height,
                1 <= e.width,
                1 <= e.height,
        ;
    }
    let w: usize = e.width;
    let hgt: usize = e.height;
    let x: usize = k % w;
    let y: usize = k / w;
    proof {
        lemma_mod_division_less_than_divisor(k as int, w as int);
        lemma_div_nonincreasing(k as int, w as int);
    }
    if !(1 <= x && x + 2 <= w && 1 <= y && y + 2 <= hgt && e.h[k] > 0) {
        return AdvCell { h: 0, gr: 0, gg: 0, gb: 0 };
    }
    let du: i64 = fmul(e.u[k], e.dt);
    let dv: i64 = fmul(e.v[k], e.dt);
    proof {
        lemma_fmul_range(e.u@[k as int] as int, e.dt as int, LIM as int, 4 * (ONE as int));
        lemma_fmul_range(e.v@[k as int] as int, e.dt as int, LIM as int, 4 * (ONE as int));
        lemma_tdiv_bounds((LIM as int) * (4 * (ONE as int)), ONE as int);
    }
    let pi: i64 = clamp_to((y as i64) * ONE - du, ONE, ((hgt - 2) as i64) * ONE);
    let pj: i64 = clamp_to((x as i64) * ONE - dv, ONE, ((w - 2) as i64) * ONE);
    let i0: i64 = tdivq(pi, ONE);
    let j0: i64 = tdivq(pj, ONE);
    proof {
        lemma_tdiv_mono(ONE as int, pi as int, ONE as int);
        lemma_tdiv_mono(pi as int, ((hgt - 2) as int) * ONE, ONE as int);
        lemma_tdiv_mono(ONE as int, pj as int, ONE as int);
        lemma_tdiv_mono(pj as int, ((w - 2) as int) * ONE, ONE as int);
        lemma_div_multiples_vanish(1, ONE as int);
        lemma_div_multiples_vanish((hgt - 2) as int, ONE as int);
        lemma_div_multiples_vanish((w - 2) as int, ONE as int);
        assert(((hgt - 2) as int) * ONE == (ONE as int) * ((hgt - 2) as int)) by (nonlinear_arith);
        assert(((w - 2) as int) * ONE == (ONE as int) * ((w - 2) as int)) by (nonlinear_arith);
        lemma_fundamental_div_mod(pi as int, ONE as int);
        lemma_fundamental_div_mod(pj as int, ONE as int);
        lemma_mod_division_less_than_divisor(pi as int, ONE as int);
        lemma_mod_division_less_than_divisor(pj as int, ONE as int);
    }
    let si: i64 = pi - i0 * ONE;
    let sj: i64 = pj - j0 * ONE;
    let w00: i64 = fmul(ONE - si, ONE - sj);
    let w10: i64 = fmul(si, ONE - sj);
    let w01: i64 = fmul(ONE - si, sj);
    let w11: i64 = fmul(si, sj);
    proof {
        lemma_fmul_le_left(ONE - si as int, ONE - sj as int);
        lemma_fmul_le_left(si as int, ONE - sj as int);
        lemma_fmul_le_left(ONE - si as int, sj as int);
        lemma_fmul_le_left(si as int, sj as int);
        assert((i0 as int) * (w as int) + (j0 as int) + (w as int) + 1 < (w as int) * (hgt as int))
            by (nonlinear_arith)
            requires
                1 <= i0 as int <= (hgt as int) - 2,
                1 <= j0 as int <= (w as int) - 2,
                1 <= w as int,
                3 <= hgt as int,
        ;
        assert((i0 as int) * (w as int) >= 0) by (nonlinear_arith)
            requires
                1 <= i0 as int,
                1 <= w as int,
        ;
        assert(((i0 + 1) as int) * (w as int) == (i0 as int) * (w as int) + (w as int))
            by (nonlinear_arith);
    }
    let k00: usize = (i0 as usize) * w + (j0 as usize);
    let k10: usize = k00 + w;
    let k01: usize = k00 + 1;
    let k11: usize = k00 + w + 1;
    let sh: i64 = fmul(e.h[k00], w00) + fmul(e.h[k10], w10) + fmul(e.h[k01], w01) + fmul(
        e.h[k11],
        w11,
    );
    let sr: i64 = fmul(e.gr[k00], w00) + fmul(e.gr[k10], w10) + fmul(e.gr[k01], w01) + fmul(
        e.gr[k11],
        w11,
    );
    let sg: i64 = fmul(e.gg[k00], w00) + fmul(e.gg[k10], w10) + fmul(e.gg[k01], w01) + fmul(
        e.gg[k11],
        w11,
    );
    let sb: i64 = fmul(e.gb[k00], w00) + fmul(e.gb[k10], w10) + fmul(e.gb[k01], w01) + fmul(
        e.gb[k11],
        w11,
    );
    proof {
        lemma_fmul_le_left(e.h@[k00 as int] as int, w00 as int);
        lemma_fmul_le_left(e.h@[k10 as int] as int, w10 as int);
        lemma_fmul_le_left(e.h@[k01 as int] as int, w01 as int);
        lemma_fmul_le_left(e.h@[k11 as int] as int, w11 as int);
        lemma_fmul_le_left(e.gr@[k00 as int] as int, w00 as int);
        lemma_fmul_le_left(e.gr@[k10 as int] as int, w10 as int);
        lemma_fmul_le_left(e.gr@[k01 as int] as int, w01 as int);
        lemma_fmul_le_left(e.gr@[k11 as int] as int, w11 as int);
        lemma_fmul_le_left(e.gg@[k00 as int] as int, w00 as int);
        lemma_fmul_le_left(e.gg@[k10 as int] as int, w10 as int);
        lemma_fmul_le_left(e.gg@[k01 as int] as int, w01 as int);
        lemma_fmul_le_left(e.gg@[k11 as int] as int, w11 as int);
        lemma_fmul_le_left(e.gb@[k00 as int] as int, w00 as int);
        lemma_fmul_le_left(e.gb@[k10 as int] as int, w10 as int);
        lemma_fmul_le_left(e.gb@[k01 as int] as int, w01 as int);
        lemma_fmul_le_left(e.gb@[k11 as int] as int, w11 as int);
        lemma_fmul_le_left(sh as int, ONE - e.evaporation as int);
    }
    AdvCell {
        h: cap_lim(fmul(sh, ONE - e.evaporation)),
        gr: cap_lim(sr),
        gg: cap_lim(sg),
        gb: cap_lim(sb),
    }
}

/// What the deposition pass leaves in one cell.
pub struct DepCell {
    pub gr: i64,
    pub gg: i64,
    pub gb: i64,
    pub dr: i64,
    pub dg: i64,
    pub db: i64,
}

/// The deposition at cell `k`: where enough water stands, a rate — highest
/// for slow water over rough paper (granulation) — moves suspended pigment
/// into the deposit, the exact amount leaving one channel arriving in the
/// other.
#[verifier::opaque]
pub open spec fn dep_cell_s(
    f: FieldsModel,
    paper: Seq<i64>,
    adhesion: i64,
    granularity: i64,
    dt: i64,
    k: int,
) -> DepCell {
    if f.h[k] >= C_WET_P {
        let speed = fsqrt_s(
            fmul_s(f.u[k] as int, f.u[k] as int) + fmul_s(f.v[k] as int, f.v[k] as int),
        );
        let inv_speed = fdiv_s(ONE as int, speed + HALF);
        let gran = ONE + fmul_s(fmul_s(granularity as int, ONE - paper[k]), C_GRAN as int);
        let rate = min_i(
            fmul_s(fmul_s(fmul_s(adhesion as int, inv_speed), gran), dt as int),
            C_DEP_CAP as int,
        );
        let ar = fmul_s(f.gr[k] as int, rate);
        let ag = fmul_s(f.gg[k] as int, rate);
        let ab = fmul_s(f.gb[k] as int, rate);
        DepCell {
            gr: (f.gr[k] - ar) as i64,
            gg: (f.gg[k] - ag) as i64,
            gb: (f.gb[k] - ab) as i64,
            dr: cap_s(f.dr[k] + ar) as i64,
            dg: cap_s(f.dg[k] + ag) as i64,
            db: cap_s(f.db[k] + ab) as i64,
        }
    } else {
        DepCell { gr: f.gr[k], gg: f.gg[k], gb: f.gb[k], dr: f.dr[k], dg: f.dg[k], db: f.db[k] }
    }
}

/// The whole-grid effect of the deposition pass.
pub open spec fn dep_map_s(
    f: FieldsModel,
    paper: Seq<i64>,
    adhesion: i64,
    granularity: i64,
    dt: i64,
) -> FieldsModel {
    FieldsModel {
        gr: Seq::new(f.gr.len(), |k: int| dep_cell_s(f, paper, adhesion, granularity, dt, k).gr),
        gg: Seq::new(f.gg.len(), |k: int| dep_cell_s(f, paper, adhesion, granularity, dt, k).gg),
        gb: Seq::new(f.gb.len(), |k: int| dep_cell_s(f, paper, adhesion, granularity, dt, k).gb),
        dr: Seq::new(f.dr.len(), |k: int| dep_cell_s(f, paper, adhesion, granularity, dt, k).dr),
        dg: Seq::new(f.dg.len(), |k: int| dep_cell_s(f, paper, adhesion, granularity, dt, k).dg),
        db: Seq::new(f.db.len(), |k: int| dep_cell_s(f, paper, adhesion, granularity, dt, k).db),
        ..f
    }
}

/// Executes the deposition pass on one cell.
#[verifier::rlimit(100)]
fn dep_cell_exec(e: &WatercolorEngine, k: usize) -> (c: DepCell)
    requires
        e.wf(),
        k < e.total,
    ensures
        c == dep_cell_s(e.model(), e.paper_h@, e.adhesion, e.granularity, e.dt, k as int),
        0 <= c.gr <= LIM,
        0 <= c.gg <= LIM,
        0 <= c.gb <= LIM,
        0 <= c.dr <= LIM,
        0 <= c.dg <= LIM,
        0 <= c.db <= LIM,
{
    proof {
        reveal(dep_cell_s);
    }
    if !(e.h[k] >= C_WET_P) {
        return DepCell {
            gr: e.gr[k],
            gg: e.gg[k],
            gb: e.gb[k],
            dr: e.dr[k],
            dg: e.dg[k],
            db: e.db[k],
        };
    }
    let su: i64 = fmul(e.u[k], e.u[k]);
    let sv: i64 = fmul(e.v[k], e.v[k]);
    proof {
        crate::fx::lemma_fmul_sq_nonneg(e.u@[k as int] as int);
        crate::fx::lemma_fmul_sq_nonneg(e.v@[k as int] as int);
        lemma_fmul_range(e.u@[k as int] as int, e.u@[k as int] as int, LIM as int, LIM as int);
        lemma_fmul_range(e.v@[k as int] as int, e.v@[k as int] as int, LIM as int, LIM as int);
        assert((LIM as int) * (LIM as int) == (ONE as int) * 0x1000_0000_0000)
            by (nonlinear_arith);
        lemma_div_multiples_vanish(0x1000_0000_0000, ONE as int);
    }
    let speed: i64 = fsqrt(su + sv);
    proof {
        crate::trig::lemma_isqrt_bracket((((su + sv) as int) * (ONE as int)) as nat);
        assert(speed as int <= 0x1_0000_0000) by (nonlinear_arith)
            requires
                (speed as int) * (speed as int) <= ((su + sv) as int) * (ONE as int),
                0 <= speed,
                0 <= (su + sv) as int <= 0x2000_0000_0000,
        ;
    }
    let inv_speed: i64 = fdiv(ONE, speed + HALF);
    proof {
        lemma_fdiv_abs(ONE as int, ONE as int, speed as int + HALF, HALF as int);
        lemma_tdiv_half(ONE as int);
        lemma_tdiv_bounds((ONE as int) * (ONE as int), speed as int + HALF);
    }
    let g1: i64 = fmul(e.granularity, ONE - e.paper_h[k]);
    proof {
        lemma_fmul_le_left(e.granularity as int, ONE - e.paper_h@[k as int] as int);
    }
    let g2: i64 = fmul(g1, C_GRAN);
    proof {
        lemma_fmul_nonneg(g1 as int, C_GRAN as int);
        lemma_fmul_range(g1 as int, C_GRAN as int, ONE as int, C_GRAN as int);
        assert((ONE as int) * (C_GRAN as int) == (ONE as int) * (C_GRAN as int));
        lemma_div_multiples_vanish(C_GRAN as int, ONE as int);
    }
    let gran: i64 = ONE + g2;
    let t1: i64 = fmul(e.adhesion, inv_speed);
    proof {
        lemma_fmul_nonneg(e.adhesion as int, inv_speed as int);
        lemma_fmul_range(e.adhesion as int, inv_speed as int, ONE as int, 2 * (ONE as int));
        lemma_div_multiples_vanish(2 * (ONE as int), ONE as int);
        assert((ONE as int) * (2 * (ONE as int)) == (ONE as int) * (2 * (ONE as int)));
    }
    let t2: i64 = fmul(t1, gran);
    proof {
        lemma_fmul_nonneg(t1 as int, gran as int);
        lemma_fmul_range(t1 as int, gran as int, 2 * (ONE as int), 163840);
        assert((2 * (ONE as int)) * 163840 == (ONE as int) * 327680) by (nonlinear_arith);
        lemma_div_multiples_vanish(327680, ONE as int);
    }
    let t3: i64 = fmul(t2, e.dt);
    proof {
        lemma_fmul_nonneg(t2 as int, e.dt as int);
        lemma_fmul_range(t2 as int, e.dt as int, 327680, 4 * (ONE as int));
        assert((327680 as int) * (4 * (ONE as int)) == (ONE as int) * 1310720)
            by (nonlinear_arith);
        lemma_div_multiples_vanish(1310720, ONE as int);
    }
    let rate: i64 = fmin(t3, C_DEP_CAP);
    let ar: i64 = fmul(e.gr[k], rate);
    let ag: i64 = fmul(e.gg[k], rate);
    let ab: i64 = fmul(e.gb[k], rate);
    proof {
        lemma_fmul_le_left(e.gr@[k as int] as int, rate as int);
        lemma_fmul_le_left(e.gg@[k as int] as int, rate as int);
        lemma_fmul_le_left(e.gb@[k as int] as int, rate as int);
    }
    DepCell {
        gr: e.gr[k] - ar,
        gg: e.gg[k] - ag,
        gb: e.gb[k] - ab,
        dr: cap_lim(e.dr[k] + ar),
        dg: cap_lim(e.dg[k] + ag),
        db: cap_lim(e.db[k] + ab),
    }
}

impl WatercolorEngine {
    /// Advects water and suspended pigment semi-Lagrangianly into fresh
    /// buffers: the whole-grid effect is exactly `adv_map_s`.
    pub fn move_fluid(&mut self)
        requires
            old(self).wf(),
        ensures
            final(self).wf(),
            final(self).model() == adv_map_s(
                old(self).model(),
                old(self).width as int,
                old(self).height as int,
                old(self).dt,
                old(self).evaporation,
            ),
            old(self).same_frame(*final(self)),
    {
        let total: usize = self.total;
        let mut nh: Vec<i64> = Vec::new();
        let mut ngr: Vec<i64> = Vec::new();
        let mut ngg: Vec<i64> = Vec::new();
        let mut ngb: Vec<i64> = Vec::new();
        let mut k: usize = 0;
        while k < total
            invariant
                *self == *old(self),
                self.wf(),
                total == self.total,
                k <= total,
                nh@.len() == k,
                ngr@.len() == k,
                ngg@.len() == k,
                ngb@.len() == k,
                forall|m: int|
                    0 <= m < k ==> #[trigger] nh@[m] == adv_cell_s(
                        self.model(),
                        self.width as int,
                        self.height as int,
                        self.dt,
                        self.evaporation,
                        m,
                    ).h,
                forall|m: int|
                    0 <= m < k ==> #[trigger] ngr@[m] == adv_cell_s(
                        self.model(),
                        self.width as int,
                        self.height as int,
                        self.dt,
                        self.evaporation,
                        m,
                    ).gr,
                forall|m: int|
                    0 <= m < k ==> #[trigger] ngg@[m] == adv_cell_s(
                        self.model(),
                        self.width as int,
                        self.height as int,
                        self.dt,
                        self.evaporation,
                        m,
                    ).gg,
                forall|m: int|
                    0 <= m < k ==> #[trigger] ngb@[m] == adv_cell_s(
                        self.model(),
                        self.width as int,
                        self.height as int,
                        self.dt,
                        self.evaporation,
                        m,
                    ).gb,
                forall|m: int| 0 <= m < k ==> 0 <= #[trigger] nh@[m] <= LIM,
                forall|m: int| 0 <= m < k ==> 0 <= #[trigger] ngr@[m] <= LIM,
                forall|m: int| 0 <= m < k ==> 0 <= #[trigger] ngg@[m] <= LIM,
                forall|m: int| 0 <= m < k ==> 0 <= #[trigger] ngb@[m] <= LIM,
            decreases total - k,
        {
            let c: AdvCell = adv_cell_exec(self, k);
            nh.push(c.h);
            ngr.push(c.gr);
            ngg.push(c.gg);
            ngb.push(c.gb);
            k = k + 1;
        }
        self.h = nh;
        self.gr = ngr;
        self.gg = ngg;
        self.gb = ngb;
        proof {
            let m0 = old(self).model();
            let mm = adv_map_s(
                old(self).model(),
                old(self).width as int,
                old(self).height as int,
                old(self).dt,
                old(self).evaporation,
            );
            assert forall|i: int| 0 <= i < m0.h.len() implies #[trigger] mm.h[i]
                == nh@[i] by {
                assert(nh@[i] == adv_cell_s(
                    old(self).model(),
                    old(self).width as int,
                    old(self).height as int,
                    old(self).dt,
                    old(self).evaporation,
                    i,
                ).h);
            }
            assert forall|i: int| 0 <= i < m0.gr.len() implies #[trigger] mm.gr[i]
                == ngr@[i] by {
                assert(ngr@[i] == adv_cell_s(
                    old(self).model(),
                    old(self).width as int,
                    old(self).height as int,
                    old(self).dt,
                    old(self).evaporation,
                    i,
                ).gr);
            }
            assert forall|i: int| 0 <= i < m0.gg.len() implies #[trigger] mm.gg[i]
                == ngg@[i] by {
                assert(ngg@[i] == adv_cell_s(
                    old(self).model(),
                    old(self).width as int,
                    old(self).height as int,
                    old(self).dt,
                    old(self).evaporation,
                    i,
                ).gg);
            }
            assert forall|i: int| 0 <= i < m0.gb.len() implies #[trigger] mm.gb[i]
                == ngb@[i] by {
                assert(ngb@[i] == adv_cell_s(
                    old(self).model(),
                    old(self).width as int,
                    old(self).height as int,
                    old(self).dt,
                    old(self).evaporation,
                    i,
                ).gb);
            }
            assert(mm.h =~= nh@);
            assert(mm.gr =~= ngr@);
            assert(mm.gg =~= ngg@);
            assert(mm.gb =~= ngb@);
            assert(final(self).model() =~= mm);
        }
    }
}
impl WatercolorEngine {
    /// Transfers suspended pigment into the deposit where water stands:
    /// the whole-grid effect is exactly `dep_map_s`.
    pub fn deposition(&mut self)
        requires
            old(self).wf(),
        ensures
            final(self).wf(),
            final(self).model() == dep_map_s(
                old(self).model(),
                old(self).paper_h@,
                old(self).adhesion,
                old(self).granularity,
                old(self).dt,
            ),
            old(self).same_frame(*final(self)),
    {
        let total: usize = self.total;
        let mut ngr: Vec<i64> = Vec::new();
        let mut ngg: Vec<i64> = Vec::new();
        let mut ngb: Vec<i64> = Vec::new();
        let mut ndr: Vec<i64> = Vec::new();
        let mut ndg: Vec<i64> = Vec::new();
        let mut ndb: Vec<i64> = Vec::new();
        let mut k: usize = 0;
        while k < total
            invariant
                *self == *old(self),
                self.wf(),
                total == self.total,
                k <= total,
                ngr@.len() == k,
                ngg@.len() == k,
                ngb@.len() == k,
                ndr@.len() == k,
                ndg@.len() == k,
                ndb@.len() == k,
                forall|m: int|
                    0 <= m < k ==> #[trigger] ngr@[m] == dep_cell_s(
                        self.model(),
                        self.paper_h@,
                        self.adhesion,
                        self.granularity,
                        self.dt,
                        m,
                    ).gr,
                forall|m: int|
                    0 <= m < k ==> #[trigger] ngg@[m] == dep_cell_s(
                        self.model(),
                        self.paper_h@,
                        self.adhesion,
                        self.granularity,
                        self.dt,
                        m,
                    ).gg,
                forall|m: int|
                    0 <= m < k ==> #[trigger] ngb@[m] == dep_cell_s(
                        self.model(),
                        self.paper_h@,
                        self.adhesion,
                        self.granularity,
                        self.dt,
                        m,
                    ).gb,
                forall|m: int|
                    0 <= m < k ==> #[trigger] ndr@[m] == dep_cell_s(
                        self.model(),
                        self.paper_h@,
                        self.adhesion,
                        self.granularity,
                        self.dt,
                        m,
                    ).dr,
                forall|m: int|
                    0 <= m < k ==> #[trigger] ndg@[m] == dep_cell_s(
                        self.model(),
                        self.paper_h@,
                        self.adhesion,
                        self.granularity,
                        self.dt,
                        m,
                    ).dg,
                forall|m: int|
                    0 <= m < k ==> #[trigger] ndb@[m] == dep_cell_s(
                        self.model(),
                        self.paper_h@,
                        self.adhesion,
                        self.granularity,
                        self.dt,
                        m,
                    ).db,
                forall|m: int| 0 <= m < k ==> 0 <= #[trigger] ngr@[m] <= LIM,
                forall|m: int| 0 <= m < k ==> 0 <= #[trigger] ngg@[m] <= LIM,
                forall|m: int| 0 <= m < k ==> 0 <= #[trigger] ngb@[m] <= LIM,
                forall|m: int| 0 <= m < k ==> 0 <= #[trigger] ndr@[m] <= LIM,
                forall|m: int| 0 <= m < k ==> 0 <= #[trigger] ndg@[m] <= LIM,
                forall|m: int| 0 <= m < k ==> 0 <= #[trigger] ndb@[m] <= LIM,
            decreases total - k,
        {
            let c: DepCell = dep_cell_exec(self, k);
            ngr.push(c.gr);
            ngg.push(c.gg);
            ngb.push(c.gb);
            ndr.push(c.dr);
            ndg.push(c.dg);
            ndb.push(c.db);
            k = k + 1;
        }
        self.gr = ngr;
        self.gg = ngg;
        self.gb = ngb;
        self.dr = ndr;
        self.dg = ndg;
        self.db = ndb;
        proof {
            let m0 = old(self).model();
            let mm = dep_map_s(
                old(self).model(),
                old(self).paper_h@,
                old(self).adhesion,
                old(self).granularity,
                old(self).dt,
            );
            assert forall|i: int| 0 <= i < m0.gr.len() implies #[trigger] mm.gr[i]
                == ngr@[i] by {
                assert(ngr@[i] == dep_cell_s(
                    old(self).model(),
                    old(self).paper_h@,
                    old(self).adhesion,
                    old(self).granularity,
                    old(self).dt,
                    i,
                ).gr);
            }
            assert forall|i: int| 0 <= i < m0.gg.len() implies #[trigger] mm.gg[i]
                == ngg@[i] by {
                assert(ngg@[i] == dep_cell_s(
                    old(self).model(),
                    old(self).paper_h@,
                    old(self).adhesion,
                    old(self).granularity,
                    old(self).dt,
                    i,
                ).gg);
            }
            assert forall|i: int| 0 <= i < m0.gb.len() implies #[trigger] mm.gb[i]
                == ngb@[i] by {
                assert(ngb@[i] == dep_cell_s(
                    old(self).model(),
                    old(self).paper_h@,
                    old(self).adhesion,
                    old(self).granularity,
                    old(self).dt,
                    i,
                ).gb);
            }
            assert forall|i: int| 0 <= i < m0.dr.len() implies #[trigger] mm.dr[i]
                == ndr@[i] by {
                assert(ndr@[i] == dep_cell_s(
                    old(self).model(),
                    old(self).paper_h@,
                    old(self).adhesion,
                    old(self).granularity,
                    old(self).dt,
                    i,
                ).dr);
            }
            assert forall|i: int| 0 <= i < m0.dg.len() implies #[trigger] mm.dg[i]
                == ndg@[i] by {
                assert(ndg@[i] == dep_cell_s(
                    old(self).model(),
                    old(self).paper_h@,
                    old(self).adhesion,
                    old(self).granularity,
                    old(self).dt,
                    i,
                ).dg);
            }
            assert forall|i: int| 0 <= i < m0.db.len() implies #[trigger] mm.db[i]
                == ndb@[i] by {
                assert(ndb@[i] == dep_cell_s(
                    old(self).model(),
                    old(self).paper_h@,
                    old(self).adhesion,
                    old(self).granularity,
                    old(self).dt,
                    i,
                ).db);
            }
            assert(mm.gr =~= ngr@);
            assert(mm.gg =~= ngg@);
            assert(mm.gb =~= ngb@);
            assert(mm.dr =~= ndr@);
            assert(mm.dg =~= ndg@);
            assert(mm.db =~= ndb@);
            assert(final(self).model() =~= mm);
        }
    }
}

/// One capillary transfer between cell `k` and its neighbour `n`: if the
/// neighbour is strictly drier, water seeps over (damped by the
/// neighbour's paper roughness), a proportional share of suspended pigment
/// follows, and the neighbour's wet mask is bumped. The water moved out of
/// `k` arrives in `n` exactly.
#[verifier::opaque]
pub open spec fn cap_xfer_s(f: FieldsModel, paper: Seq<i64>, k: int, n: int) -> FieldsModel {
    if f.h[n] < f.h[k] {
        let diff = fmul_s(f.h[k] - f.h[n], C_CAP_RATE as int);
        let cap_rate = fmul_s(diff, ONE - fmul_s(paper[n] as int, HALF as int));
        if cap_rate > C_CAP_MIN {
            let h1 = f.h.update(n, (f.h[n] + cap_rate) as i64).update(
                k,
                (f.h[k] - cap_rate) as i64,
            );
            let ratio = fdiv_s(fmul_s(cap_rate, C_CAP_PIG as int), h1[k] + C_EPS);
            FieldsModel {
                h: h1,
                gr: f.gr.update(n, cap_s(f.gr[n] + fmul_s(f.gr[k] as int, ratio)) as i64),
                gg: f.gg.update(n, cap_s(f.gg[n] + fmul_s(f.gg[k] as int, ratio)) as i64),
                gb: f.gb.update(n, cap_s(f.gb[n] + fmul_s(f.gb[k] as int, ratio)) as i64),
                mask: f.mask.update(n, min_i(f.mask[n] + C_CAP_MASK, ONE as int) as i64),
                ..f
            }
        } else {
            f
        }
    } else {
        f
    }
}

/// The capillary step of one cell: a wet-enough interior cell feeds each
/// of its four neighbours in turn, the wetness test made once up front.
pub open spec fn cap_cell_s(f: FieldsModel, paper: Seq<i64>, w: int, hgt: int, k: int) -> FieldsModel {
    if interior_s(w, hgt, k) && f.h[k] >= C_WET_CAP {
        let f1 = cap_xfer_s(f, paper, k, k - w);
        let f2 = cap_xfer_s(f1, paper, k, k + w);
        let f3 = cap_xfer_s(f2, paper, k, k - 1);
        cap_xfer_s(f3, paper, k, k + 1)
    } else {
        f
    }
}

/// The capillary pass folded over the first `n` cells in row-major order.
pub open spec fn cap_upto_s(f: FieldsModel, paper: Seq<i64>, w: int, hgt: int, n: nat) -> FieldsModel
    decreases n,
{
    if n == 0 {
        f
    } else {
        cap_cell_s(cap_upto_s(f, paper, w, hgt, (n - 1) as nat), paper, w, hgt, n - 1)
    }
}

/// The back-run step of one cell: a cell inside the drying band pushes a
/// small fixed fraction of its suspended pigment into the deposit of its
/// single wettest neighbour, if one is strictly wetter.
#[verifier::opaque]
pub open spec fn back_cell_s(f: FieldsModel, w: int, hgt: int, k: int) -> FieldsModel {
    if interior_s(w, hgt, k) && C_DRY_LO <= f.h[k] <= C_DRY_HI {
        let n1 = if f.h[k - w] > f.h[k] { k - w } else { k };
        let n2 = if f.h[k + w] > f.h[n1] { k + w } else { n1 };
        let n3 = if f.h[k - 1] > f.h[n2] { k - 1 } else { n2 };
        let n4 = if f.h[k + 1] > f.h[n3] { k + 1 } else { n3 };
        if n4 != k {
            FieldsModel {
                dr: f.dr.update(n4, cap_s(f.dr[n4] + fmul_s(f.gr[k] as int, C_PUSH as int)) as i64),
                dg: f.dg.update(n4, cap_s(f.dg[n4] + fmul_s(f.gg[k] as int, C_PUSH as int)) as i64),
                db: f.db.update(n4, cap_s(f.db[n4] + fmul_s(f.gb[k] as int, C_PUSH as int)) as i64),
                ..f
            }
        } else {
            f
        }
    } else {
        f
    }
}

/// The back-run pass folded over the first `n` cells in row-major order.
pub open spec fn back_upto_s(f: FieldsModel, w: int, hgt: int, n: nat) -> FieldsModel
    decreases n,
{
    if n == 0 {
        f
    } else {
        back_cell_s(back_upto_s(f, w, hgt, (n - 1) as nat), w, hgt, n - 1)
    }
}

impl WatercolorEngine {
    /// Performs one capillary transfer from cell `k` toward neighbour `n`.
    #[verifier::rlimit(100)]
    fn cap_xfer_exec(&mut self, k: usize, n: usize)
        requires
            old(self).wf(),
            k < old(self).total,
            n < old(self).total,
            k != n,
        ensures
            final(self).wf(),
            final(self).model() == cap_xfer_s(
                old(self).model(),
                old(self).paper_h@,
                k as int,
                n as int,
            ),
            old(self).same_frame(*final(self)),
    {
        proof {
            reveal(cap_xfer_s);
        }
        let hk: i64 = self.h[k];
        let hn: i64 = self.h[n];
        if !(hn < hk) {
            proof {
                assert(final(self).model() =~= cap_xfer_s(
                    old(self).model(),
                    old(self).paper_h@,
                    k as int,
                    n as int,
                ));
            }
            return ;
        }
        let diff: i64 = fmul(hk - hn, C_CAP_RATE);
        let pf: i64 = fmul(self.paper_h[n], HALF);
        proof {
            lemma_fmul_le_left((hk - hn) as int, C_CAP_RATE as int);
            lemma_fmul_le_left(self.paper_h@[n as int] as int, HALF as int);
        }
        let factor: i64 = ONE - pf;
        let cap_rate: i64 = fmul(diff, factor);
        proof {
            lemma_fmul_le_left(diff as int, factor as int);
        }
        if !(cap_rate > C_CAP_MIN) {
            proof {
                assert(final(self).model() =~= cap_xfer_s(
                    old(self).model(),
                    old(self).paper_h@,
                    k as int,
                    n as int,
                ));
            }
            return ;
        }
        proof {
            // 49 * cap_rate <= hk - hn, so the donor keeps far more water
            // than the carried-pigment numerator below
            let d = hk as int - hn as int;
            vstd::arithmetic::mul::lemma_mul_nonnegative(d, C_CAP_RATE as int);
            vstd::arithmetic::div_mod::lemma_mul_hoist_inequality(49, d * (C_CAP_RATE as int), ONE as int);
            assert(49 * (d * (C_CAP_RATE as int)) == d * 64239) by (nonlinear_arith);
            assert(d * 64239 <= d * 65536) by (nonlinear_arith)
                requires
                    d >= 0,
            ;
            lemma_tdiv_mono(d * 64239, d * 65536, ONE as int);
            lemma_div_multiples_vanish(d, ONE as int);
            assert(d * 65536 == (ONE as int) * d);
            assert(49 * (diff as int) <= d);
        }
        self.h.set(n, hn + cap_rate);
        self.h.set(k, hk - cap_rate);
        let capnum: i64 = fmul(cap_rate, C_CAP_PIG);
        proof {
            lemma_fmul_le_left(cap_rate as int, C_CAP_PIG as int);
        }
        let hk2: i64 = self.h[k];
        let den: i64 = hk2 + C_EPS;
        proof {
            assert(capnum <= den);
            lemma_tdiv_mono((capnum as int) * (ONE as int), (den as int) * (ONE as int), den as int);
            lemma_div_multiples_vanish(ONE as int, den as int);
            assert((den as int) * (ONE as int) == (den as int) * (ONE as int));
            lemma_tdiv_bounds((capnum as int) * (ONE as int), den as int);
        }
        let ratio: i64 = fdiv(capnum, den);
        let mr: i64 = fmul(self.gr[k], ratio);
        let mg: i64 = fmul(self.gg[k], ratio);
        let mb: i64 = fmul(self.gb[k], ratio);
        proof {
            lemma_fmul_le_left(self.gr@[k as int] as int, ratio as int);
            lemma_fmul_le_left(self.gg@[k as int] as int, ratio as int);
            lemma_fmul_le_left(self.gb@[k as int] as int, ratio as int);
        }
        let vgr: i64 = cap_lim(self.gr[n] + mr);
        let vgg: i64 = cap_lim(self.gg[n] + mg);
        let vgb: i64 = cap_lim(self.gb[n] + mb);
        let vm: i64 = fmin(self.mask[n] + C_CAP_MASK, ONE);
        self.gr.set(n, vgr);
        self.gg.set(n, vgg);
        self.gb.set(n, vgb);
        self.mask.set(n, vm);
        proof {
            assert(final(self).model() =~= cap_xfer_s(
                old(self).model(),
                old(self).paper_h@,
                k as int,
                n as int,
            ));
        }
    }

    /// Seeps water sideways from wet cells into strictly drier neighbours:
    /// the whole-grid effect is exactly `cap_upto_s` over all cells.
    #[verifier::rlimit(50)]
    pub fn capillary_flow(&mut self)
        requires
            old(self).wf(),
        ensures
            final(self).wf(),
            final(self).model() == cap_upto_s(
                old(self).model(),
                old(self).paper_h@,
                old(self).width as int,
                old(self).height as int,
                old(self).total as nat,
            ),
            old(self).same_frame(*final(self)),
    {
        let w: usize = self.width;
        let hgt: usize = self.height;
        let total: usize = self.total;
        let mut k: usize = 0;
        while k < total
            invariant
                old(self).wf(),
                self.wf(),
                w == self.width,
                hgt == self.height,
                total == self.total,
                k <= total,
                old(self).same_frame(*self),
                self.model() == cap_upto_s(
                    old(self).model(),
                    old(self).paper_h@,
                    w as int,
                    hgt as int,
                    k as nat,
                ),
            decreases total - k,
        {
            let x: usize = k % w;
            let y: usize = k / w;
            proof {
                lemma_mod_division_less_than_divisor(k as int, w as int);
                lemma_div_nonincreasing(k as int, w as int);
                assert(self.width <= self.total) by (nonlinear_arith)
                    requires
                        self.total == self.width * self.height,
                        1 <= self.width,
                        1 <= self.height,
                ;
            }
            let ghost pre = self.model();
            if 1 <= x && x + 2 <= w && 1 <= y && y + 2 <= hgt && self.h[k] >= C_WET_CAP {
                proof {
                    lemma_interior_bounds(w as int, hgt as int, k as int);
                }
                self.cap_xfer_exec(k, k - w);
                self.cap_xfer_exec(k, k + w);
                self.cap_xfer_exec(k, k - 1);
                self.cap_xfer_exec(k, k + 1);
            }
            proof {
                assert(self.model() == cap_cell_s(
                    pre,
                    old(self).paper_h@,
                    w as int,
                    hgt as int,
                    k as int,
                ));
            }
            k = k + 1;
        }
    }

    /// Performs the back-run step of one cell.
    #[verifier::rlimit(100)]
    fn back_cell_exec(&mut self, k: usize)
        requires
            old(self).wf(),
            k < old(self).total,
        ensures
            final(self).wf(),
            final(self).model() == back_cell_s(
                old(self).model(),
                old(self).width as int,
                old(self).height as int,
                k as int,
            ),
            old(self).same_frame(*final(self)),
    {
        proof {
            reveal(back_cell_s);
        }
        let w: usize = self.width;
        let hgt: usize = self.height;
        let x: usize = k % w;
        let y: usize = k / w;
        proof {
            lemma_mod_division_less_than_divisor(k as int, w as int);
            lemma_div_nonincreasing(k as int, w as int);
            assert(self.width <= self.total) by (nonlinear_arith)
                requires
                    self.total == self.width * self.height,
                    1 <= self.width,
                    1 <= self.height,
            ;
        }
        if !(1 <= x && x + 2 <= w && 1 <= y && y + 2 <= hgt && C_DRY_LO <= self.h[k] && self.h[k]
            <= C_DRY_HI) {
            proof {
                assert(final(self).model() =~= back_cell_s(
                    old(self).model(),
                    old(self).width as int,
                    old(self).height as int,
                    k as int,
                ));
            }
            return ;
        }
        proof {
            lemma_interior_bounds(w as int, hgt as int, k as int);
        }
        let mut mn: usize = k;
        if self.h[k - w] > self.h[mn] {
            mn = k - w;
        }
        if self.h[k + w] > self.h[mn] {
            mn = k + w;
        }
        if self.h[k - 1] > self.h[mn] {
            mn = k - 1;
        }
        if self.h[k + 1] > self.h[mn] {
            mn = k + 1;
        }
        if mn != k {
            let pr: i64 = fmul(self.gr[k], C_PUSH);
            let pg: i64 = fmul(self.gg[k], C_PUSH);
            let pb: i64 = fmul(self.gb[k], C_PUSH);
            proof {
                lemma_fmul_le_left(self.gr@[k as int] as int, C_PUSH as int);
                lemma_fmul_le_left(self.gg@[k as int] as int, C_PUSH as int);
                lemma_fmul_le_left(self.gb@[k as int] as int, C_PUSH as int);
            }
            let vdr: i64 = cap_lim(self.dr[mn] + pr);
            let vdg: i64 = cap_lim(self.dg[mn] + pg);
            let vdb: i64 = cap_lim(self.db[mn] + pb);
            self.dr.set(mn, vdr);
            self.dg.set(mn, vdg);
            self.db.set(mn, vdb);
        }
        proof {
            assert(final(self).model() =~= back_cell_s(
                old(self).model(),
                old(self).width as int,
                old(self).height as int,
                k as int,
            ));
        }
    }

    /// Pushes pigment from drying cells toward their wettest neighbour:
    /// the whole-grid effect is exactly `back_upto_s` over all cells.
    #[verifier::rlimit(50)]
    pub fn back_run(&mut self)
        requires
            old(self).wf(),
        ensures
            final(self).wf(),
            final(self).model() == back_upto_s(
                old(self).model(),
                old(self).width as int,
                old(self).height as int,
                old(self).total as nat,
            ),
            old(self).same_frame(*final(self)),
    {
        let total: usize = self.total;
        let mut k: usize = 0;
        while k < total
            invariant
                old(self).wf(),
                self.wf(),
                total == self.total,
                k <= total,
                old(self).same_frame(*self),
                self.model() == back_upto_s(
                    old(self).model(),
                    old(self).width as int,
                    old(self).height as int,
                    k as nat,
                ),
            decreases total - k,
        {
            self.back_cell_exec(k);
            k = k + 1;
        }
    }

    /// Advances the simulation one tick: velocity derivation, pressure
    /// relaxation, advection, deposition, capillary diffusion and the
    /// back-run, in that fixed order, unconditionally.
    pub fn step(&mut self)
        requires
            old(self).wf(),
        ensures
            final(self).wf(),
            final(self).model() == step_s(
                old(self).model(),
                old(self).paper_h@,
                old(self).width as int,
                old(self).height as int,
                old(self).dt,
                old(self).evaporation,
                old(self).viscosity,
                old(self).pressure,
                old(self).iterations,
                old(self).adhesion,
                old(self).granularity,
            ),
            old(self).same_frame(*final(self)),
    {
        self.update_velocities();
        self.relax_divergence();
        self.move_fluid();
        self.deposition();
        self.capillary_flow();
        self.back_run();
    }
}

/// One whole simulation tick: the six sub-passes composed in order.
pub open spec fn step_s(
    f: FieldsModel,
    paper: Seq<i64>,
    w: int,
    hgt: int,
    dt: i64,
    evaporation: i64,
    viscosity: i64,
    pressure: i64,
    iterations: u32,
    adhesion: i64,
    granularity: i64,
) -> FieldsModel {
    let f1 = vel_map_s(f, paper, w, hgt, dt, viscosity);
    let f2 = relax_iter_s(f1, w, hgt, pressure, evaporation, iterations as nat);
    let f3 = adv_map_s(f2, w, hgt, dt, evaporation);
    let f4 = dep_map_s(f3, paper, adhesion, granularity, dt);
    let f5 = cap_upto_s(f4, paper, w, hgt, (w * hgt) as nat);
    back_upto_s(f5, w, hgt, (w * hgt) as nat)
}

} // verus!
