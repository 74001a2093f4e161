//! The named Q16.16 coefficients of the simulation, each the fixed-point
//! rendering of the corresponding decimal constant (value * 65536, rounded).

use vstd::prelude::*;

verus! {

// --- paper texture generation ---

/// 0.45: base level of the procedural paper height.
pub const P_BASE: i64 = 29491;

/// 0.25: weight of the per-cell noise draw.
pub const P_NOISE: i64 = 16384;

/// 0.05 and 0.07: spatial frequencies of the first octave.
pub const P_F1: i64 = 3277;

pub const P_F2: i64 = 4588;

/// 0.15 and 0.11: spatial frequencies of the second octave.
pub const P_F3: i64 = 9830;

pub const P_F4: i64 = 7209;

/// 0.3 and 0.25: spatial frequencies of the third octave.
pub const P_F5: i64 = 19661;

pub const P_F6: i64 = 16384;

/// 0.08, 0.04, 0.02: octave weights.
pub const P_W1: i64 = 5243;

pub const P_W2: i64 = 2621;

pub const P_W3: i64 = 1311;

/// 0.35: contrast compression of the smoothed render map.
pub const P_COMPRESS: i64 = 22938;

// --- default physics ---

/// 0.15: default time step.
pub const D_DT: i64 = 9830;

/// 0.002: default evaporation.
pub const D_EVAPORATION: i64 = 131;

/// 0.05: default viscosity.
pub const D_VISCOSITY: i64 = 3277;

/// 5.0: default pressure coefficient.
pub const D_PRESSURE: i64 = 327680;

/// 0.05: default adhesion.
pub const D_ADHESION: i64 = 3277;

/// 0.8: default granularity.
pub const D_GRANULARITY: i64 = 52429;

// --- brush kernel ---

/// 0.45: gaussian sigma as a fraction of the brush radius.
pub const B_SIGMA: i64 = 29491;

/// 0.7: anisotropic aspect ratio of the stamp ellipse.
pub const B_ASPECT: i64 = 45875;

/// 0.6 base and 0.4 spread of the bristle noise factor.
pub const B_BRISTLE_BASE: i64 = 39322;

pub const B_BRISTLE_SPAN: i64 = 26214;

/// 0.6 + 0.4 * (1 - paper): paper response of the deposit stamp.
pub const B_PAPER_BASE: i64 = 39322;

pub const B_PAPER_SPAN: i64 = 26214;

/// 0.5 and 0.95: edge-darkening smoothstep band.
pub const B_EDGE_LO: i64 = 32768;

pub const B_EDGE_HI: i64 = 62259;

/// 0.6: edge-darkening gain.
pub const B_EDGE_GAIN: i64 = 39322;

/// 0.4: wet-on-wet spread gain.
pub const B_WET_SPREAD: i64 = 26214;

/// 0.7: water transfer of the deposit stamp.
pub const B_WATER_GAIN: i64 = 45875;

/// 0.5: pigment transfer of the deposit stamp.
pub const B_PIG_GAIN: i64 = 32768;

/// 0.7 + 0.3 * (1 - paper): paper response of the fade stamp.
pub const B_FADE_PAPER_BASE: i64 = 45875;

pub const B_FADE_PAPER_SPAN: i64 = 19661;

/// 0.6: wet boost of the fade stamp.
pub const B_FADE_WET: i64 = 39322;

/// 0.5 overall gain and 0.75 hard cap of the fade factor.
pub const B_FADE_GAIN: i64 = 32768;

pub const B_FADE_CAP: i64 = 49152;

/// 0.8, 0.25, 0.5: how strongly fade attacks deposits, water and the mask.
pub const B_FADE_DEP: i64 = 52429;

pub const B_FADE_WATER: i64 = 16384;

pub const B_FADE_MASK: i64 = 32768;

/// 0.85 cap and 0.001 threshold of the blend factor.
pub const B_BLEND_CAP: i64 = 55706;

pub const B_BLEND_MIN: i64 = 66;

/// 0.04: water bump added by the blend stamp.
pub const B_BLEND_WATER: i64 = 2621;

/// 0.2 and 1.0: smoothstep band of the water-stamp flow nudge.
pub const B_FLOW_LO: i64 = 13107;

pub const B_FLOW_HI: i64 = 65536;

/// 0.45: water transfer of the water stamp.
pub const B_WATER_ADD: i64 = 29491;

/// 0.04: velocity nudge gain of the water stamp.
pub const B_FLOW_GAIN: i64 = 2621;

/// 0.06 gain and 0.2 cap of the deposit re-lift.
pub const B_LIFT_GAIN: i64 = 3932;

pub const B_LIFT_CAP: i64 = 13107;

/// 2.0: upper clamp of the flow strength.
pub const B_FLOW_MAX: i64 = 131072;

// --- stroke interpolation ---

/// 0.08: velocity damping of the stroke pressure.
pub const S_VEL: i64 = 5243;

/// 0.2: lower clamp of the stroke pressure.
pub const S_PRESS_LO: i64 = 13107;

/// 0.3: step size as a fraction of the brush size.
pub const S_STEP: i64 = 19661;

/// 0.2: attenuation over the stroke length.
pub const S_ATTEN: i64 = 13107;

/// 17, 31, 23, 13: frequencies of the positional jitter.
pub const S_J1: i64 = 17;

pub const S_J2: i64 = 31;

pub const S_J3: i64 = 23;

pub const S_J4: i64 = 13;

// --- simulation passes ---

/// 0.001: wetness threshold of the velocity pass.
pub const C_WET_VEL: i64 = 66;

/// 1.5: slope response of the velocity pass.
pub const C_SLOPE: i64 = 98304;

/// 0.01: wetness threshold of the pressure evaporation term and of
/// deposition.
pub const C_WET_P: i64 = 655;

/// 5.0: gain of the pressure evaporation term.
pub const C_EVAP_GAIN: i64 = 327680;

/// 0.5: divergence averaging factor.
pub const C_DIV_HALF: i64 = 32768;

/// 1.5: granulation gain of the deposition rate.
pub const C_GRAN: i64 = 98304;

/// 0.5: upper clamp of the deposition rate.
pub const C_DEP_CAP: i64 = 32768;

/// 0.02: wetness threshold of capillary flow.
pub const C_WET_CAP: i64 = 1311;

/// 0.02: capillary transfer fraction.
pub const C_CAP_RATE: i64 = 1311;

/// 0.0001: minimum capillary transfer.
pub const C_CAP_MIN: i64 = 7;

/// 0.3 carried-pigment fraction and 0.001 denominator epsilon.
pub const C_CAP_PIG: i64 = 19661;

pub const C_EPS: i64 = 66;

/// 0.1: wet-mask bump given to a capillary neighbor.
pub const C_CAP_MASK: i64 = 6554;

/// 0.005 and 0.05: the drying band of the back-run pass.
pub const C_DRY_LO: i64 = 328;

pub const C_DRY_HI: i64 = 3277;

/// 0.005: back-run push fraction.
pub const C_PUSH: i64 = 328;

// --- compositor ---

/// 0.4: weight of suspended pigment in the composite.
pub const R_SUSPENDED: i64 = 26214;

/// 0.05 wetness threshold and 0.08 gain of the gloss boost.
pub const R_GLOSS_MIN: i64 = 3277;

pub const R_GLOSS: i64 = 5243;

/// 0.85 fade and 0.12 floor of the texture overlay.
pub const R_TEX_FADE: i64 = 55706;

pub const R_TEX_FLOOR: i64 = 7864;

/// 0.03 base and 0.08 granularity gain of the texture strength.
pub const R_TEX_BASE: i64 = 1966;

pub const R_TEX_GRAN: i64 = 5243;

/// 1.8: texture contrast multiplier.
pub const R_TEX_CONTRAST: i64 = 117965;

/// 0.3, 0.59, 0.11: luma weights of an external texture.
pub const T_LUMA_R: i64 = 19661;

pub const T_LUMA_G: i64 = 38666;

pub const T_LUMA_B: i64 = 7209;

} // verus!
