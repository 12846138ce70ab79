use vstd::prelude::*;
use crate::profile::{calculate_color, quantize, ColorDepthData};

verus! {

/// One RGBA pixel, four bytes in R, G, B, A order; the generators make every
/// pixel opaque.
#[derive(Clone, Copy, Debug, PartialEq, Eq, Structural)]
pub struct Pixel {
    pub r: u8,
    pub g: u8,
    pub b: u8,
    pub a: u8,
}

/// The opaque pixel shown for raw channel indices `(r, g, b)` out of `0..=steps`.
pub open spec fn indexed_pixel(r: int, g: int, b: int, steps: int) -> Pixel {
    Pixel {
        r: quantize(r, steps) as u8,
        g: quantize(g, steps) as u8,
        b: quantize(b, steps) as u8,
        a: 255,
    }
}

impl Pixel {
    /// An opaque pixel of the given 8-bit channel values.
    pub fn new_raw(r: u8, g: u8, b: u8) -> (p: Pixel)
        ensures
            p == (Pixel { r, g, b, a: 255 }),
    {
        Pixel { r, g, b, a: 255 }
    }

    /// The opaque pixel of raw channel indices `(r, g, b)` under a profile.
    pub fn new_indexed(r: u8, g: u8, b: u8, color_depth_data: &ColorDepthData) -> (p: Pixel)
        requires
            color_depth_data.wf(),
            r <= color_depth_data.spec_steps(),
            g <= color_depth_data.spec_steps(),
            b <= color_depth_data.spec_steps(),
        ensures
            p == indexed_pixel(r as int, g as int, b as int, color_depth_data.spec_steps() as int),
    {
        Pixel {
            a: 255,
            r: calculate_color(r, color_depth_data),
            g: calculate_color(g, color_depth_data),
            b: calculate_color(b, color_depth_data),
        }
    }
}

} // verus!
