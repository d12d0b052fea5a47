//! Send data to APA102 LEDs (also known as DotStar LEDs), and to SK9822 LEDs
//! which share their protocol.
//!
//! The crate turns colors into the LEDs' native pixel (8-bit red, green and
//! blue plus a 5-bit hardware brightness) and pixels into the bytes of a
//! frame. Colors with an 8-bit brightness are converted with FastLED's
//! pseudo-13-bit gamma algorithm, which trades resolution between the 5-bit
//! hardware brightness and the color channels to keep color detail at low
//! brightness.
use vstd::prelude::*;

pub mod asynch;
pub mod bitshift;
pub mod math;
pub mod pixel;
pub mod pseudo13;
pub mod writer;

pub use bitshift::{brightness_bitshifter16, brightness_bitshifter8};
pub use math::{map16_to_8, scale16by8};
pub use asynch::Apa102Async;
pub use pixel::{Apa102Pixel, MAX_BRIGHTNESS, RGB16, RGB8};
pub use pseudo13::{five_bit_bitshift, five_bit_hd_gamma_bitshift, gamma16};
pub use writer::{
    end_frame_length, pixel_frame, Apa102, EncoderState, EndFrame, FrameEncoder, FrameLayout, Segment,
};

verus! {

/// What order to transmit pixel colors in. The standard order is
/// [`PixelOrder::BGR`]; in practice some LEDs swap the colors around.
#[derive(Copy, Clone, Debug, PartialEq, Eq, Structural)]
pub enum PixelOrder {
    RGB,
    RBG,
    GRB,
    GBR,
    BRG,
    BGR,
}

impl Default for PixelOrder {
    fn default() -> (r: PixelOrder)
        ensures
            r == PixelOrder::BGR,
    {
        PixelOrder::BGR
    }
}

} // verus!
