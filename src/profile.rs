use vstd::prelude::*;

verus! {

/// A quantisation tier: how many bits of colour the buffer enumerates.
#[derive(Clone, Copy, Debug, PartialEq, Eq, Structural)]
pub enum ColorDepth {
    Bit24,
    Bit21,
    Bit18,
    Bit15,
    Bit12,
    Bit9,
    Bit6,
}

/// The largest raw channel index of a tier.
pub open spec fn depth_steps(depth: ColorDepth) -> u8 {
    match depth {
        ColorDepth::Bit24 => 255,
        ColorDepth::Bit21 => 127,
        ColorDepth::Bit18 => 63,
        ColorDepth::Bit15 => 31,
        ColorDepth::Bit12 => 15,
        ColorDepth::Bit9 => 7,
        ColorDepth::Bit6 => 3,
    }
}

/// The buffer width of a tier.
pub open spec fn depth_width(depth: ColorDepth) -> u16 {
    match depth {
        ColorDepth::Bit24 => 4096,
        ColorDepth::Bit21 => 2048,
        ColorDepth::Bit18 => 512,
        ColorDepth::Bit15 => 256,
        ColorDepth::Bit12 => 64,
        ColorDepth::Bit9 => 32,
        ColorDepth::Bit6 => 8,
    }
}

/// The buffer height of a tier.
pub open spec fn depth_height(depth: ColorDepth) -> u16 {
    match depth {
        ColorDepth::Bit24 => 4096,
        ColorDepth::Bit21 => 1024,
        ColorDepth::Bit18 => 512,
        ColorDepth::Bit15 => 128,
        ColorDepth::Bit12 => 64,
        ColorDepth::Bit9 => 16,
        ColorDepth::Bit6 => 8,
    }
}

/// Number of colours when each of the three channels takes the indices `0..=steps`.
pub open spec fn color_count(steps: u8) -> int {
    let n = steps as int + 1;
    n * n * n
}

/// The 8-bit value shown for raw channel index `index` out of `0..=steps`.
pub open spec fn quantize(index: int, steps: int) -> int {
    index * 255 / steps
}

/// Geometry and quantisation of one colour depth.
pub struct ColorDepthData {
    width: u16,
    height: u16,
    steps: u8,
}

impl ColorDepthData {
    pub closed spec fn spec_width(&self) -> u16 {
        self.width
    }

    pub closed spec fn spec_height(&self) -> u16 {
        self.height
    }

    pub closed spec fn spec_steps(&self) -> u8 {
        self.steps
    }

    /// Whether this profile is the profile of `depth`.
    pub open spec fn is_profile_of(&self, depth: ColorDepth) -> bool {
        &&& self.spec_width() == depth_width(depth)
        &&& self.spec_height() == depth_height(depth)
        &&& self.spec_steps() == depth_steps(depth)
    }

    /// The buffer exactly holds every colour once, and the steps are positive.
    pub open spec fn wf(&self) -> bool {
        &&& self.spec_steps() > 0
        &&& color_count(self.spec_steps()) == self.spec_width() as int * self.spec_height() as int
    }

    pub fn width(&self) -> (r: u16)
        ensures
            r == self.spec_width(),
    {
        self.width
    }

    pub fn height(&self) -> (r: u16)
        ensures
            r == self.spec_height(),
    {
        self.height
    }

    pub fn steps(&self) -> (r: u8)
        ensures
            r == self.spec_steps(),
    {
        self.steps
    }

    pub fn max_colors(&self) -> (r: u32)
        ensures
            r == self.spec_width() as int * self.spec_height() as int,
    {
        proof {
            vstd::arithmetic::mul::lemma_mul_upper_bound(
                self.width as int, 0xffff, self.height as int, 0xffff);
        }
        self.width as u32 * self.height as u32
    }

    pub fn new(color_depth: ColorDepth) -> (r: ColorDepthData)
        ensures
            r.is_profile_of(color_depth),
            r.wf(),
    {
        match color_depth {
            ColorDepth::Bit24 => ColorDepthData { width: 4096, height: 4096, steps: 255 },
            ColorDepth::Bit21 => ColorDepthData { width: 2048, height: 1024, steps: 127 },
            ColorDepth::Bit18 => ColorDepthData { width: 512, height: 512, steps: 63 },
            ColorDepth::Bit15 => ColorDepthData { width: 256, height: 128, steps: 31 },
            ColorDepth::Bit12 => ColorDepthData { width: 64, height: 64, steps: 15 },
            ColorDepth::Bit9 => ColorDepthData { width: 32, height: 16, steps: 7 },
            ColorDepth::Bit6 => ColorDepthData { width: 8, height: 8, steps: 3 },
        }
    }
}

/// Shown 8-bit value of raw channel index `index` out of `0..=steps`:
/// `floor(index * 255 / steps)`.
pub fn calculate_color_raw(index: u8, steps: u8) -> (r: u8)
    requires
        0 < steps,
        index <= steps,
    ensures
        r == quantize(index as int, steps as int),
{
    let num: u32 = index as u32 * 255;
    proof {
        assert(num as int / steps as int <= 255) by (nonlinear_arith)
            requires num == index as int * 255, index <= steps, 0 < steps;
    }
    (num / steps as u32) as u8
}

/// Shown 8-bit value of raw channel index `index` under this profile.
pub fn calculate_color(index: u8, color_depth_data: &ColorDepthData) -> (r: u8)
    requires
        color_depth_data.wf(),
        index <= color_depth_data.spec_steps(),
    ensures
        r == quantize(index as int, color_depth_data.spec_steps() as int),
{
    calculate_color_raw(index, color_depth_data.steps())
}

} // verus!
