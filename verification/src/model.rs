//! The mathematical view of the engine's dynamic state.
//!
//! Each brush stamp and each simulation pass is specified as a total
//! function from one `FieldsModel` to the next, so that strokes and the
//! full `step` compose exactly in contracts.

use vstd::prelude::*;
use crate::engine::WatercolorEngine;

verus! {

/// The dynamic fields as plain sequences: water, velocity, pressure, mask,
/// and the six pigment channels.
#[verifier::ext_equal]
pub struct FieldsModel {
    pub h: Seq<i64>,
    pub u: Seq<i64>,
    pub v: Seq<i64>,
    pub p: Seq<i64>,
    pub mask: Seq<i64>,
    pub gr: Seq<i64>,
    pub gg: Seq<i64>,
    pub gb: Seq<i64>,
    pub dr: Seq<i64>,
    pub dg: Seq<i64>,
    pub db: Seq<i64>,
}

impl WatercolorEngine {
    /// The dynamic fields of this engine as one mathematical value.
    pub open spec fn model(&self) -> FieldsModel {
        FieldsModel {
            h: self.h@,
            u: self.u@,
            v: self.v@,
            p: self.p@,
            mask: self.mask@,
            gr: self.gr@,
            gg: self.gg@,
            gb: self.gb@,
            dr: self.dr@,
            dg: self.dg@,
            db: self.db@,
        }
    }

    /// Everything a stamp or a simulation pass leaves alone: dimensions,
    /// the paper fields, the pixel buffer, and all parameters.
    pub open spec fn same_frame(&self, post: Self) -> bool {
        &&& self.same_core(post)
        &&& post.pixels == self.pixels
    }

    /// As `same_frame`, but without the pixel buffer: what the compositor
    /// leaves alone.
    pub open spec fn same_core(&self, post: Self) -> bool {
        &&& post.width == self.width
        &&& post.height == self.height
        &&& post.total == self.total
        &&& post.paper_h == self.paper_h
        &&& post.paper_render == self.paper_render
        &&& post.dt == self.dt
        &&& post.evaporation == self.evaporation
        &&& post.viscosity == self.viscosity
        &&& post.pressure == self.pressure
        &&& post.iterations == self.iterations
        &&& post.adhesion == self.adhesion
        &&& post.granularity == self.granularity
        &&& post.show_texture == self.show_texture
        &&& post.seed == self.seed
    }
}

} // verus!
