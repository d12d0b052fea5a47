use crate::pseudo13::{
    corrected_gamma, five_bit_bitshift, five_bit_bitshift_spec, five_bit_hd_gamma_bitshift,
};
use vstd::prelude::*;

verus! {

/// An RGB color with 8 bits per channel.
#[derive(Copy, Clone, Debug, Default, PartialEq, Eq, Structural)]
pub struct RGB8 {
    pub r: u8,
    pub g: u8,
    pub b: u8,
}

/// An RGB color with 16 bits per channel.
#[derive(Copy, Clone, Debug, Default, PartialEq, Eq, Structural)]
pub struct RGB16 {
    pub r: u16,
    pub g: u16,
    pub b: u16,
}

/// A single APA102 pixel: 8 bits each for red, green and blue, plus a 5-bit
/// hardware brightness.
///
/// The brightness is held in a `u8`. The encoders of this crate never put
/// more than 31 in it; when a pixel is written to the wire only the low five
/// bits of the field are sent, so a larger value is masked, never spilled
/// into the frame's marker bits.
#[derive(Copy, Clone, Debug, Default, PartialEq, Eq, Structural, PartialOrd, Ord)]
pub struct Apa102Pixel {
    pub red: u8,
    pub green: u8,
    pub blue: u8,
    pub brightness: u8,
}

/// The largest 5-bit brightness.
pub const MAX_BRIGHTNESS: u8 = 31;

impl Apa102Pixel {
    /// Whether the brightness fits in five bits.
    pub open spec fn wf(self) -> bool {
        self.brightness <= MAX_BRIGHTNESS
    }

    /// A pixel with the given color at the maximum brightness.
    pub open spec fn from_rgb8_spec(c: RGB8) -> Apa102Pixel {
        Apa102Pixel { red: c.r, green: c.g, blue: c.b, brightness: MAX_BRIGHTNESS }
    }
}

impl From<RGB8> for Apa102Pixel {
    /// The color is copied as it is and the brightness is set to the maximum (31).
    fn from(c: RGB8) -> (r: Apa102Pixel)
        ensures
            r == Apa102Pixel::from_rgb8_spec(c),
    {
        Apa102Pixel { red: c.r, green: c.g, blue: c.b, brightness: MAX_BRIGHTNESS }
    }
}

impl vstd::std_specs::convert::FromSpecImpl<RGB8> for Apa102Pixel {
    open spec fn obeys_from_spec() -> bool {
        true
    }

    open spec fn from_spec(c: RGB8) -> Apa102Pixel {
        Apa102Pixel::from_rgb8_spec(c)
    }
}

impl Apa102Pixel {
    /// Convert an [`RGB8`] to an [`Apa102Pixel`] at a brightness level from 0 to
    /// 255, with FastLED's pseudo-13-bit gamma algorithm, which uses the
    /// dynamic range of the APA102 protocol to keep color detail at low
    /// brightness:
    ///
    /// RGB8 + 8-bit brightness → RGB16 + 5-bit brightness → RGB8 + 5-bit brightness
    ///
    /// An optional color correction is applied between the gamma correction
    /// and the bit shifting.
    pub fn from_rgb8_with_brightness(rgb8: RGB8, brightness: u8, color_correction: Option<&RGB8>) -> (r: Self)
        ensures
            r == five_bit_bitshift_spec(corrected_gamma(rgb8, color_correction), brightness),
            r.wf(),
    {
        five_bit_hd_gamma_bitshift(&rgb8, brightness, color_correction)
    }

    /// Convert an [`RGB16`] to an [`Apa102Pixel`] at a brightness level from
    /// 0 to 255 with FastLED's pseudo-13-bit algorithm. No gamma correction is
    /// applied: the color is taken to be gamma-corrected already.
    pub fn from_rgb16_with_brightness(rgb16: RGB16, brightness: u8) -> (r: Self)
        ensures
            r == five_bit_bitshift_spec(rgb16, brightness),
            r.wf(),
    {
        five_bit_bitshift(rgb16, brightness)
    }
}

} // verus!
