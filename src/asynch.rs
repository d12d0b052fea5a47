use crate::writer::{EndFrame, FrameLayout};
use crate::PixelOrder;
use vstd::prelude::*;

verus! {

/// A writer for APA102 LEDs on a bus `SPI`, for 8-bit colors at full
/// hardware brightness, with an end frame of a set length and polarity.
pub struct Apa102Async<SPI> {
    spi: SPI,
    end_frame_length: u8,
    invert_end_frame: bool,
    pixel_order: PixelOrder,
}

impl<SPI> Apa102Async<SPI> {
    /// The bus the writer owns.
    pub closed spec fn spi_spec(&self) -> SPI {
        self.spi
    }

    /// The layout of the writer's frames: no reset frame, and an end frame
    /// of `end_frame_length` bytes, `0xFF` bytes when inverted and zero
    /// bytes otherwise.
    pub closed spec fn layout_spec(&self) -> FrameLayout {
        FrameLayout {
            pixel_order: self.pixel_order,
            reset_frame: false,
            end_frame: EndFrame::Fixed {
                length: self.end_frame_length as usize,
                high: self.invert_end_frame,
            },
        }
    }

    /// A writer whose end frame is 32 zero bits, with pixels in
    /// [`PixelOrder::BGR`] order. [`Apa102Async::new_with_options`] sets the
    /// size and polarity of the end frame and the pixel order.
    pub fn new(spi: SPI) -> (r: Self)
        ensures
            r.spi_spec() == spi,
            r.layout_spec() == (FrameLayout {
                pixel_order: PixelOrder::BGR,
                reset_frame: false,
                end_frame: EndFrame::Fixed { length: 4, high: false },
            }),
    {
        Apa102Async { spi, end_frame_length: 4, invert_end_frame: false, pixel_order: PixelOrder::BGR }
    }

    /// A writer with an end frame of `end_frame_length` bytes, `0xFF` bytes
    /// when `invert_end_frame` holds and zero bytes otherwise.
    pub fn new_with_options(
        spi: SPI,
        end_frame_length: u8,
        invert_end_frame: bool,
        pixel_order: PixelOrder,
    ) -> (r: Self)
        ensures
            r.spi_spec() == spi,
            r.layout_spec() == (FrameLayout {
                pixel_order,
                reset_frame: false,
                end_frame: EndFrame::Fixed { length: end_frame_length as usize, high: invert_end_frame },
            }),
    {
        Apa102Async { spi, end_frame_length, invert_end_frame, pixel_order }
    }

    /// Free the owned bus, consuming the writer.
    pub fn free(self) -> (r: SPI)
        ensures
            r == self.spi_spec(),
    {
        self.spi
    }

    /// The bus, to write a frame to it.
    pub fn spi_mut(&mut self) -> (r: &mut SPI)
        ensures
            *r == old(self).spi_spec(),
            final(self).spi_spec() == *final(r),
            final(self).layout_spec() == old(self).layout_spec(),
    {
        &mut self.spi
    }

    /// The layout of the writer's frames.
    pub fn layout(&self) -> (r: FrameLayout)
        ensures
            r == self.layout_spec(),
    {
        FrameLayout {
            pixel_order: self.pixel_order,
            reset_frame: false,
            end_frame: EndFrame::Fixed {
                length: self.end_frame_length as usize,
                high: self.invert_end_frame,
            },
        }
    }
}

} // verus!
