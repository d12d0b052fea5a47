use crate::pixel::Apa102Pixel;
use crate::PixelOrder;
use vstd::prelude::*;

verus! {

/// How the end frame that follows the pixels is sized.
#[derive(Copy, Clone, Debug, PartialEq, Eq, Structural)]
pub enum EndFrame {
    /// `length` bytes, each `0xFF` when `high` holds and `0x00` otherwise.
    Fixed { length: usize, high: bool },
    /// `ceil(n / 16)` zero bytes, where `n` is the number of pixels written
    /// in the frame: for strips whose length is only known from the data.
    PixelCount,
}

/// The shape of a frame around its pixels.
#[derive(Copy, Clone, Debug, PartialEq, Eq, Structural)]
pub struct FrameLayout {
    /// The order in which the color bytes of each pixel are sent.
    pub pixel_order: PixelOrder,
    /// Send four zero bytes after the pixels, before the end frame. SK9822
    /// LEDs need it to show an update at once; APA102 LEDs ignore it.
    pub reset_frame: bool,
    /// The end frame.
    pub end_frame: EndFrame,
}

/// One write to the bus: a 4-byte frame or a single end-frame byte.
#[derive(Copy, Clone, Debug)]
pub enum Segment {
    Frame([u8; 4]),
    Byte(u8),
}

impl Segment {
    /// The bytes of the segment, in wire order.
    pub open spec fn bytes(self) -> Seq<u8> {
        match self {
            Segment::Frame(a) => a@,
            Segment::Byte(b) => seq![b],
        }
    }
}

/// The four zero bytes that start a frame (and make the reset frame).
pub open spec fn zero_frame() -> Seq<u8> {
    seq![0u8, 0u8, 0u8, 0u8]
}

/// The three color bytes of a pixel in the given order.
pub open spec fn color_bytes(p: Apa102Pixel, order: PixelOrder) -> Seq<u8> {
    match order {
        PixelOrder::RGB => seq![p.red, p.green, p.blue],
        PixelOrder::RBG => seq![p.red, p.blue, p.green],
        PixelOrder::GRB => seq![p.green, p.red, p.blue],
        PixelOrder::GBR => seq![p.green, p.blue, p.red],
        PixelOrder::BRG => seq![p.blue, p.red, p.green],
        PixelOrder::BGR => seq![p.blue, p.green, p.red],
    }
}

/// The first byte of a pixel frame: three marker bits, then the low five
/// bits of the brightness.
pub open spec fn header_byte(p: Apa102Pixel) -> u8 {
    0xe0u8 | (p.brightness & 0x1fu8)
}

/// The four bytes that carry one pixel.
pub open spec fn pixel_frame_spec(p: Apa102Pixel, order: PixelOrder) -> Seq<u8> {
    seq![header_byte(p)] + color_bytes(p, order)
}

/// The pixel frames of a sequence of pixels, one after another.
pub open spec fn pixel_frames(pixels: Seq<Apa102Pixel>, order: PixelOrder) -> Seq<u8>
    decreases pixels.len(),
{
    if pixels.len() == 0 {
        seq![]
    } else {
        pixel_frames(pixels.drop_last(), order) + pixel_frame_spec(pixels.last(), order)
    }
}

/// `ceil(n / 16)`: the end-frame bytes that `n` LEDs need, half a clock
/// edge per LED and eight per byte.
pub open spec fn end_frame_length_spec(n: nat) -> nat {
    (n + 15) / 16
}

/// The number of end-frame bytes of a layout, after `n` pixels.
pub open spec fn end_length(layout: FrameLayout, n: nat) -> nat {
    match layout.end_frame {
        EndFrame::Fixed { length, high: _ } => length as nat,
        EndFrame::PixelCount => end_frame_length_spec(n),
    }
}

/// The value of each end-frame byte of a layout.
pub open spec fn end_fill(layout: FrameLayout) -> u8 {
    match layout.end_frame {
        EndFrame::Fixed { length: _, high } => if high { 0xffu8 } else { 0u8 },
        EndFrame::PixelCount => 0u8,
    }
}

/// The first `k` end-frame bytes of a layout.
pub open spec fn end_bytes(layout: FrameLayout, k: nat) -> Seq<u8> {
    Seq::new(k, |i: int| end_fill(layout))
}

/// A frame up to its end frame: the start frame, the pixel frames and the
/// reset frame where the layout has one.
pub open spec fn frame_head(layout: FrameLayout, pixels: Seq<Apa102Pixel>) -> Seq<u8> {
    zero_frame() + pixel_frames(pixels, layout.pixel_order) + if layout.reset_frame {
        zero_frame()
    } else {
        seq![]
    }
}

/// Every byte of the frame that shows `pixels` on a strip.
pub open spec fn frame_bytes(layout: FrameLayout, pixels: Seq<Apa102Pixel>) -> Seq<u8> {
    frame_head(layout, pixels) + end_bytes(layout, end_length(layout, pixels.len()))
}

/// Whatever the order, a pixel frame is the header byte, `0b111` above the
/// low five bits of the brightness, followed by the pixel's red, green and
/// blue bytes, each once: the color bytes are a permutation of the three
/// channels, placed as the order's name spells them.
pub proof fn lemma_pixel_frame_permutes_channels(p: Apa102Pixel, order: PixelOrder)
    ensures
        pixel_frame_spec(p, order).len() == 4,
        pixel_frame_spec(p, order)[0] == header_byte(p),
        header_byte(p) & 0xe0u8 == 0xe0u8,
        header_byte(p) & 0x1fu8 == p.brightness & 0x1fu8,
        color_bytes(p, order).to_multiset() =~= seq![p.red, p.green, p.blue].to_multiset(),
{
    let b = p.brightness;
    assert((0xe0u8 | (b & 0x1fu8)) & 0xe0u8 == 0xe0u8) by (bit_vector);
    assert((0xe0u8 | (b & 0x1fu8)) & 0x1fu8 == b & 0x1fu8) by (bit_vector);
    broadcast use vstd::seq_lib::group_to_multiset_ensures;
    let c = color_bytes(p, order);
    assert(c =~= seq![c[0]].push(c[1]).push(c[2]));
    assert(seq![p.red, p.green, p.blue] =~= seq![p.red].push(p.green).push(p.blue));
    assert(seq![c[0]] =~= Seq::<u8>::empty().push(c[0]));
    assert(seq![p.red] =~= Seq::<u8>::empty().push(p.red));
}

/// The pixel frames of `n` pixels take `4 * n` bytes.
proof fn lemma_pixel_frames_len(pixels: Seq<Apa102Pixel>, order: PixelOrder)
    ensures
        pixel_frames(pixels, order).len() == 4 * pixels.len(),
    decreases pixels.len(),
{
    if pixels.len() > 0 {
        lemma_pixel_frames_len(pixels.drop_last(), order);
    }
}

/// A frame of `n` pixels takes 4 bytes of start frame, 4 bytes for each
/// pixel, 4 bytes of reset frame where the layout has one, and its end
/// frame: `ceil(n / 16)` bytes when the end frame follows the pixel count.
pub proof fn lemma_frame_length(layout: FrameLayout, pixels: Seq<Apa102Pixel>)
    ensures
        frame_bytes(layout, pixels).len() == 4 + 4 * pixels.len() + (if layout.reset_frame {
            4int
        } else {
            0int
        }) + end_length(layout, pixels.len()),
        layout.end_frame == EndFrame::PixelCount ==> end_length(layout, pixels.len())
            == end_frame_length_spec(pixels.len()),
{
    lemma_pixel_frames_len(pixels, layout.pixel_order);
}

/// The `k`-th pixel frame sits at bytes `4k .. 4k + 4` of the pixel frames.
proof fn lemma_pixel_frames_index(pixels: Seq<Apa102Pixel>, order: PixelOrder, k: int)
    requires
        0 <= k < pixels.len(),
    ensures
        pixel_frames(pixels, order).subrange(4 * k, 4 * k + 4) == pixel_frame_spec(pixels[k], order),
    decreases pixels.len(),
{
    let init = pixels.drop_last();
    lemma_pixel_frames_len(init, order);
    lemma_pixel_frames_len(pixels, order);
    let whole = pixel_frames(pixels, order);
    let front = pixel_frames(init, order);
    assert(whole == front + pixel_frame_spec(pixels.last(), order));
    if k < pixels.len() - 1 {
        lemma_pixel_frames_index(init, order, k);
        assert(whole.subrange(4 * k, 4 * k + 4) =~= front.subrange(4 * k, 4 * k + 4));
    } else {
        assert(whole.subrange(4 * k, 4 * k + 4) =~= pixel_frame_spec(pixels.last(), order));
    }
}

/// Where each part of a frame sits: the start frame in bytes `0 .. 4`; the
/// frame of pixel `k`, in the layout's channel order, in bytes
/// `4 + 4k .. 8 + 4k`; then the reset frame where the layout has one; then
/// the end frame, every byte of it the layout's end-frame byte.
pub proof fn lemma_frame_layout(layout: FrameLayout, pixels: Seq<Apa102Pixel>)
    ensures
        ({
            let bytes = frame_bytes(layout, pixels);
            let n = pixels.len() as int;
            let head = 4 + 4 * n + if layout.reset_frame { 4int } else { 0int };
            &&& bytes.len() == head + end_length(layout, pixels.len())
            &&& bytes.subrange(0, 4) == zero_frame()
            &&& forall|k: int|
                0 <= k < n ==> #[trigger] bytes.subrange(4 + 4 * k, 8 + 4 * k) == pixel_frame_spec(
                    pixels[k],
                    layout.pixel_order,
                )
            &&& layout.reset_frame ==> bytes.subrange(4 + 4 * n, 8 + 4 * n) == zero_frame()
            &&& forall|i: int| head <= i < bytes.len() ==> #[trigger] bytes[i] == end_fill(layout)
        }),
{
    let bytes = frame_bytes(layout, pixels);
    let n = pixels.len() as int;
    let frames = pixel_frames(pixels, layout.pixel_order);
    lemma_frame_length(layout, pixels);
    lemma_pixel_frames_len(pixels, layout.pixel_order);
    let reset: Seq<u8> = if layout.reset_frame { zero_frame() } else { seq![] };
    let tail = end_bytes(layout, end_length(layout, pixels.len()));
    assert(bytes =~= zero_frame() + frames + reset + tail);
    assert(bytes.subrange(0, 4) =~= zero_frame());
    assert forall|k: int| 0 <= k < n implies #[trigger] bytes.subrange(4 + 4 * k, 8 + 4 * k)
        == pixel_frame_spec(pixels[k], layout.pixel_order) by {
        lemma_pixel_frames_index(pixels, layout.pixel_order, k);
        assert(bytes.subrange(4 + 4 * k, 8 + 4 * k) =~= frames.subrange(4 * k, 4 * k + 4));
    }
    if layout.reset_frame {
        assert(bytes.subrange(4 + 4 * n, 8 + 4 * n) =~= zero_frame());
    }
}

/// `ceil(num_leds / 16)`, the end-frame bytes that a strip of `num_leds`
/// LEDs needs.
pub fn end_frame_length(num_leds: usize) -> (r: usize)
    ensures
        r == end_frame_length_spec(num_leds as nat),
{
    num_leds / 16 + if num_leds % 16 != 0 { 1 } else { 0 }
}

/// The four bytes that carry one pixel: `0b111` and the brightness's low
/// five bits, then the color bytes in the given order.
pub fn pixel_frame(pixel: Apa102Pixel, order: PixelOrder) -> (r: [u8; 4])
    ensures
        r@ == pixel_frame_spec(pixel, order),
{
    let header: u8 = 0b11100000 | (pixel.brightness & 0b00011111);
    let frame: [u8; 4] = match order {
        PixelOrder::RGB => [header, pixel.red, pixel.green, pixel.blue],
        PixelOrder::RBG => [header, pixel.red, pixel.blue, pixel.green],
        PixelOrder::GRB => [header, pixel.green, pixel.red, pixel.blue],
        PixelOrder::GBR => [header, pixel.green, pixel.blue, pixel.red],
        PixelOrder::BRG => [header, pixel.blue, pixel.red, pixel.green],
        PixelOrder::BGR => [header, pixel.blue, pixel.green, pixel.red],
    };
    assert(frame@ =~= pixel_frame_spec(pixel, order));
    frame
}

/// Where a [`FrameEncoder`] stands in its frame.
#[derive(Copy, Clone, Debug, PartialEq, Eq, Structural)]
pub enum EncoderState {
    /// Nothing was sent yet.
    NotStarted,
    /// The start frame was sent; pixels may follow.
    Pixels,
    /// The pixels are over; the reset and end frames are being sent.
    Trailer,
    /// The whole frame was sent.
    Done,
}

enum Phase {
    NotStarted,
    Pixels,
    Reset { end_left: usize },
    End { left: usize },
    Done,
}

/// The decisions of writing one frame to a strip, as a state machine: it
/// says which bytes go to the bus next, and the caller writes them.
///
/// Call [`FrameEncoder::start`] once, then [`FrameEncoder::pixel`] for each
/// pixel in order, then [`FrameEncoder::next_trailer`] until it returns
/// `None`. Each returned array or segment is one write to the bus. What was
/// handed out is at every point a prefix of [`frame_bytes`] of the pixels
/// given so far, and all of it once `next_trailer` returns `None`.
pub struct FrameEncoder {
    layout: FrameLayout,
    phase: Phase,
    pixel_count: usize,
    pixels: Ghost<Seq<Apa102Pixel>>,
    sent: Ghost<Seq<u8>>,
}

impl FrameEncoder {
    /// The layout of the frame.
    pub closed spec fn layout_spec(&self) -> FrameLayout {
        self.layout
    }

    /// The pixels given so far.
    pub closed spec fn pixels(&self) -> Seq<Apa102Pixel> {
        self.pixels@
    }

    /// The bytes handed out so far, in order.
    pub closed spec fn sent(&self) -> Seq<u8> {
        self.sent@
    }

    /// Where the encoder stands.
    pub closed spec fn state_spec(&self) -> EncoderState {
        match self.phase {
            Phase::NotStarted => EncoderState::NotStarted,
            Phase::Pixels => EncoderState::Pixels,
            Phase::Reset { .. } => EncoderState::Trailer,
            Phase::End { .. } => EncoderState::Trailer,
            Phase::Done => EncoderState::Done,
        }
    }

    /// The internal invariant: the phase and the bytes sent agree with the
    /// layout and the pixels.
    pub closed spec fn wf(&self) -> bool {
        let n = self.pixels@.len();
        let frames = zero_frame() + pixel_frames(self.pixels@, self.layout.pixel_order);
        &&& self.pixel_count == n
        &&& match self.phase {
            Phase::NotStarted => self.sent@ == Seq::<u8>::empty() && n == 0,
            Phase::Pixels => self.sent@ == frames,
            Phase::Reset { end_left } => {
                &&& self.layout.reset_frame
                &&& end_left == end_length(self.layout, n)
                &&& self.sent@ == frames
            },
            Phase::End { left } => {
                &&& left <= end_length(self.layout, n)
                &&& self.sent@ == frame_head(self.layout, self.pixels@) + end_bytes(
                    self.layout,
                    (end_length(self.layout, n) - left) as nat,
                )
            },
            Phase::Done => self.sent@ == frame_bytes(self.layout, self.pixels@),
        }
    }

    /// What was handed out is a prefix of the frame of the pixels so far.
    proof fn lemma_sent_is_prefix(&self)
        requires
            self.wf(),
        ensures
            self.sent().is_prefix_of(frame_bytes(self.layout_spec(), self.pixels())),
    {
        let n = self.pixels@.len();
        let head = frame_head(self.layout, self.pixels@);
        let total = end_length(self.layout, n);
        let whole = frame_bytes(self.layout, self.pixels@);
        match self.phase {
            Phase::NotStarted => {
                assert(self.sent@ =~= whole.subrange(0, 0));
            },
            Phase::Pixels => {
                assert(self.sent@ =~= whole.subrange(0, self.sent@.len() as int));
            },
            Phase::Reset { .. } => {
                assert(self.sent@ =~= whole.subrange(0, self.sent@.len() as int));
            },
            Phase::End { left } => {
                let k = (total - left) as nat;
                assert(end_bytes(self.layout, k) =~= end_bytes(self.layout, total).subrange(0, k as int));
                assert(self.sent@ =~= whole.subrange(0, self.sent@.len() as int));
            },
            Phase::Done => {
                assert(self.sent@ =~= whole.subrange(0, self.sent@.len() as int));
            },
        }
    }

    /// An encoder for one frame of the given layout.
    pub fn new(layout: FrameLayout) -> (r: Self)
        ensures
            r.wf(),
            r.state_spec() == EncoderState::NotStarted,
            r.layout_spec() == layout,
            r.pixels() == Seq::<Apa102Pixel>::empty(),
            r.sent() == Seq::<u8>::empty(),
    {
        FrameEncoder {
            layout,
            phase: Phase::NotStarted,
            pixel_count: 0,
            pixels: Ghost(Seq::empty()),
            sent: Ghost(Seq::empty()),
        }
    }

    /// The layout of the frame.
    pub fn layout(&self) -> (r: FrameLayout)
        ensures
            r == self.layout_spec(),
    {
        self.layout
    }

    /// Where the encoder stands.
    pub fn state(&self) -> (r: EncoderState)
        ensures
            r == self.state_spec(),
    {
        match self.phase {
            Phase::NotStarted => EncoderState::NotStarted,
            Phase::Pixels => EncoderState::Pixels,
            Phase::Reset { .. } => EncoderState::Trailer,
            Phase::End { .. } => EncoderState::Trailer,
            Phase::Done => EncoderState::Done,
        }
    }

    /// The number of pixels given so far.
    pub fn pixel_count(&self) -> (r: usize)
        requires
            self.wf(),
        ensures
            r == self.pixels().len(),
    {
        self.pixel_count
    }

    /// Begin the frame: returns the start frame, four zero bytes.
    pub fn start(&mut self) -> (r: [u8; 4])
        requires
            old(self).wf(),
            old(self).state_spec() == EncoderState::NotStarted,
        ensures
            final(self).wf(),
            final(self).state_spec() == EncoderState::Pixels,
            final(self).layout_spec() == old(self).layout_spec(),
            final(self).pixels() == old(self).pixels(),
            r@ == zero_frame(),
            final(self).sent() == old(self).sent() + r@,
            final(self).sent().is_prefix_of(frame_bytes(final(self).layout_spec(), final(self).pixels())),
    {
        let frame: [u8; 4] = [0x00, 0x00, 0x00, 0x00];
        assert(frame@ =~= zero_frame());
        self.phase = Phase::Pixels;
        self.sent = Ghost(self.sent@ + frame@);
        proof {
            reveal_with_fuel(pixel_frames, 1);
            assert(self.sent@ =~= zero_frame() + pixel_frames(self.pixels@, self.layout.pixel_order));
            self.lemma_sent_is_prefix();
        }
        frame
    }

    /// Add a pixel to the frame: returns its four bytes.
    pub fn pixel(&mut self, pixel: Apa102Pixel) -> (r: [u8; 4])
        requires
            old(self).wf(),
            old(self).state_spec() == EncoderState::Pixels,
            old(self).pixels().len() < usize::MAX,
        ensures
            final(self).wf(),
            final(self).state_spec() == EncoderState::Pixels,
            final(self).layout_spec() == old(self).layout_spec(),
            final(self).pixels() == old(self).pixels().push(pixel),
            r@ == pixel_frame_spec(pixel, old(self).layout_spec().pixel_order),
            final(self).sent() == old(self).sent() + r@,
            final(self).sent().is_prefix_of(frame_bytes(final(self).layout_spec(), final(self).pixels())),
    {
        let frame = pixel_frame(pixel, self.layout.pixel_order);
        let ghost old_pixels = self.pixels@;
        self.pixels = Ghost(self.pixels@.push(pixel));
        self.sent = Ghost(self.sent@ + frame@);
        self.pixel_count = self.pixel_count + 1;
        proof {
            assert(self.pixels@.drop_last() =~= old_pixels);
            assert(self.sent@ =~= zero_frame() + pixel_frames(self.pixels@, self.layout.pixel_order));
            self.lemma_sent_is_prefix();
        }
        frame
    }

    /// After the last pixel: returns the next segment of the reset and end
    /// frames, or `None` once the whole frame was handed out.
    pub fn next_trailer(&mut self) -> (r: Option<Segment>)
        requires
            old(self).wf(),
            old(self).state_spec() != EncoderState::NotStarted,
        ensures
            final(self).wf(),
            final(self).layout_spec() == old(self).layout_spec(),
            final(self).pixels() == old(self).pixels(),
            final(self).sent().is_prefix_of(frame_bytes(final(self).layout_spec(), final(self).pixels())),
            match r {
                Some(seg) => {
                    &&& final(self).state_spec() == EncoderState::Trailer
                    &&& final(self).sent() == old(self).sent() + seg.bytes()
                    &&& match seg {
                        // the reset frame, in one write, right after the pixels
                        Segment::Frame(a) => {
                            &&& a@ == zero_frame()
                            &&& final(self).layout_spec().reset_frame
                            &&& final(self).sent() == frame_head(final(self).layout_spec(), final(self).pixels())
                        },
                        // one end-frame byte per write
                        Segment::Byte(b) => b == end_fill(final(self).layout_spec()),
                    }
                },
                None => {
                    &&& final(self).state_spec() == EncoderState::Done
                    &&& final(self).sent() == old(self).sent()
                    &&& final(self).sent() == frame_bytes(final(self).layout_spec(), final(self).pixels())
                },
            },
    {
        if let Phase::Pixels = self.phase {
            let end_left = match self.layout.end_frame {
                EndFrame::Fixed { length, high: _ } => length,
                EndFrame::PixelCount => end_frame_length(self.pixel_count),
            };
            if self.layout.reset_frame {
                self.phase = Phase::Reset { end_left };
            } else {
                self.phase = Phase::End { left: end_left };
                proof {
                    assert(self.sent@ =~= frame_head(self.layout, self.pixels@) + end_bytes(self.layout, 0));
                }
            }
        }
        let r = match self.phase {
            Phase::Reset { end_left } => {
                let frame: [u8; 4] = [0x00, 0x00, 0x00, 0x00];
                assert(frame@ =~= zero_frame());
                self.phase = Phase::End { left: end_left };
                self.sent = Ghost(self.sent@ + frame@);
                proof {
                    assert(self.sent@ =~= frame_head(self.layout, self.pixels@) + end_bytes(self.layout, 0));
                }
                Some(Segment::Frame(frame))
            },
            Phase::End { left } => {
                if left == 0 {
                    self.phase = Phase::Done;
                    None
                } else {
                    let fill: u8 = match self.layout.end_frame {
                        EndFrame::Fixed { length: _, high } => if high { 0xff } else { 0x00 },
                        EndFrame::PixelCount => 0x00,
                    };
                    let ghost k = (end_length(self.layout, self.pixels@.len()) - left) as nat;
                    self.phase = Phase::End { left: left - 1 };
                    self.sent = Ghost(self.sent@ + seq![fill]);
                    proof {
                        assert(end_bytes(self.layout, k).push(fill) =~= end_bytes(self.layout, k + 1));
                        assert(self.sent@ =~= frame_head(self.layout, self.pixels@) + end_bytes(self.layout, k + 1));
                    }
                    Some(Segment::Byte(fill))
                }
            },
            _ => None,
        };
        proof {
            self.lemma_sent_is_prefix();
        }
        r
    }
}

/// A writer for APA102 LEDs on a bus `SPI`: its frames carry one pixel per
/// LED, optionally a reset frame for SK9822 LEDs, and an end frame sized for
/// the strip.
pub struct Apa102<SPI> {
    spi: SPI,
    end_frame_length_bytes: usize,
    pixel_order: PixelOrder,
    reset_frame: bool,
}

impl<SPI> Apa102<SPI> {
    /// The bus the writer owns.
    pub closed spec fn spi_spec(&self) -> SPI {
        self.spi
    }

    /// The layout of the writer's frames.
    pub closed spec fn layout_spec(&self) -> FrameLayout {
        FrameLayout {
            pixel_order: self.pixel_order,
            reset_frame: self.reset_frame,
            end_frame: EndFrame::Fixed { length: self.end_frame_length_bytes, high: false },
        }
    }

    /// A writer for a strip of `num_leds` APA102 LEDs. The standard pixel
    /// order is [`PixelOrder::BGR`]; some LED chips need another. Each frame
    /// has the start frame, the pixels and an end frame of
    /// `ceil(num_leds / 16)` zero bytes, with no reset frame:
    /// [`Apa102::new_with_options`] adds the one that SK9822 LEDs need.
    pub fn new(spi: SPI, num_leds: usize, pixel_order: PixelOrder) -> (r: Self)
        ensures
            r.spi_spec() == spi,
            r.layout_spec() == (FrameLayout {
                pixel_order,
                reset_frame: false,
                end_frame: EndFrame::Fixed {
                    length: end_frame_length_spec(num_leds as nat) as usize,
                    high: false,
                },
            }),
    {
        let end_frame_length_bytes = end_frame_length(num_leds);
        Apa102 { spi, end_frame_length_bytes, pixel_order, reset_frame: false }
    }

    /// A writer for a strip of `num_leds` LEDs that sends the reset frame
    /// only when `reset_frame` holds: SK9822 LEDs need it to show an update
    /// at once, APA102 LEDs do without. The end frame has
    /// `ceil(num_leds / 16)` zero bytes.
    pub fn new_with_options(spi: SPI, num_leds: usize, pixel_order: PixelOrder, reset_frame: bool) -> (r: Self)
        ensures
            r.spi_spec() == spi,
            r.layout_spec() == (FrameLayout {
                pixel_order,
                reset_frame,
                end_frame: EndFrame::Fixed {
                    length: end_frame_length_spec(num_leds as nat) as usize,
                    high: false,
                },
            }),
    {
        let end_frame_length_bytes = end_frame_length(num_leds);
        Apa102 { spi, end_frame_length_bytes, pixel_order, reset_frame }
    }

    /// Free the owned bus, consuming the writer.
    pub fn free(self) -> (r: SPI)
        ensures
            r == self.spi_spec(),
    {
        self.spi
    }

    /// The bus, to write a frame to it.
    pub fn spi_mut(&mut self) -> (r: &mut SPI)
        ensures
            *r == old(self).spi_spec(),
            final(self).spi_spec() == *final(r),
            final(self).layout_spec() == old(self).layout_spec(),
    {
        &mut self.spi
    }

    /// The layout of the writer's frames.
    pub fn layout(&self) -> (r: FrameLayout)
        ensures
            r == self.layout_spec(),
    {
        FrameLayout {
            pixel_order: self.pixel_order,
            reset_frame: self.reset_frame,
            end_frame: EndFrame::Fixed { length: self.end_frame_length_bytes, high: false },
        }
    }
}

} // verus!
