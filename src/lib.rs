//! Exhaustive RGB colour buffers: every colour of a quantised colour depth,
//! exactly once, in one of several orders.
pub mod generate;
pub mod laws;
pub mod pixel;
pub mod profile;

pub use generate::{GenerationMethod, PixelMap};
pub use pixel::Pixel;
pub use profile::{calculate_color, calculate_color_raw, ColorDepth, ColorDepthData};
