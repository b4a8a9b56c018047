use vstd::prelude::*;

use crate::gen_shape::{DrawCmd, ShapeCmd};
use crate::linear_samplers::SamplerData;
use crate::scalar::{Scalar, ScalarArith};

verus! {

/// A color, as the renderer takes it: four 8-bit channels.
#[derive(Clone, Copy, PartialEq, Eq, Structural, Debug)]
pub struct Rgba {
    pub r: u8,
    pub g: u8,
    pub b: u8,
    pub a: u8,
}

/// A filled circle with a radial color gradient; its parameters are fixed
/// values, so drawing it samples nothing.
pub struct Circle {
    pub outer_color: Rgba,
    pub inner_color: Rgba,
    pub radius: Scalar,
}

impl Circle {
    /// The draw command for this circle at `pos`: the context is untouched.
    pub fn draw<A: ScalarArith>(&mut self, data: &mut SamplerData<A>, pos: (i32, i32)) -> (cmd:
        DrawCmd)
        ensures
            *final(self) == *old(self),
            *final(data) == *old(data),
            cmd == (DrawCmd {
                x: pos.0,
                y: pos.1,
                shape: ShapeCmd::Circle {
                    radius: old(self).radius,
                    inner_color: old(self).inner_color,
                    outer_color: old(self).outer_color,
                },
            }),
    {
        DrawCmd {
            x: pos.0,
            y: pos.1,
            shape: ShapeCmd::Circle {
                radius: self.radius,
                inner_color: self.inner_color,
                outer_color: self.outer_color,
            },
        }
    }
}

} // verus!
