use apa102_spi::{
    end_frame_length, pixel_frame, Apa102, Apa102Async, Apa102Pixel, EncoderState, EndFrame, FrameEncoder,
    FrameLayout, PixelOrder, Segment, RGB8,
};

/// Drive an encoder over `pixels` and record each write the bus would get.
fn record(layout: FrameLayout, pixels: &[Apa102Pixel]) -> Vec<Vec<u8>> {
    let mut enc = FrameEncoder::new(layout);
    let mut writes = vec![enc.start().to_vec()];
    for p in pixels {
        writes.push(enc.pixel(*p).to_vec());
    }
    while let Some(seg) = enc.next_trailer() {
        match seg {
            Segment::Frame(a) => writes.push(a.to_vec()),
            Segment::Byte(b) => writes.push(vec![b]),
        }
    }
    assert_eq!(enc.state(), EncoderState::Done);
    assert_eq!(enc.next_trailer().is_none(), true);
    writes
}

fn px(red: u8, green: u8, blue: u8, brightness: u8) -> Apa102Pixel {
    Apa102Pixel { red, green, blue, brightness }
}

#[test]
fn seventeen_pixels_with_pixel_count_end_frame() {
    let layout = FrameLayout {
        pixel_order: PixelOrder::BGR,
        reset_frame: false,
        end_frame: EndFrame::PixelCount,
    };
    let pixels: Vec<Apa102Pixel> = (0..17u8).map(|i| px(i, 2 * i, 3 * i, i % 32)).collect();
    let writes = record(layout, &pixels);
    assert_eq!(writes.len(), 1 + 17 + 2);
    assert_eq!(writes[0], vec![0, 0, 0, 0]);
    for (i, p) in pixels.iter().enumerate() {
        assert_eq!(writes[1 + i], vec![0xe0 | p.brightness, p.blue, p.green, p.red]);
    }
    assert_eq!(writes[18], vec![0]);
    assert_eq!(writes[19], vec![0]);
    let total: usize = writes.iter().map(|w| w.len()).sum();
    assert_eq!(total, 74);
}

#[test]
fn channel_orders_place_each_channel_once() {
    let p = px(0x11, 0x22, 0x33, 0x05);
    let cases = [
        (PixelOrder::RGB, [0x11, 0x22, 0x33]),
        (PixelOrder::RBG, [0x11, 0x33, 0x22]),
        (PixelOrder::GRB, [0x22, 0x11, 0x33]),
        (PixelOrder::GBR, [0x22, 0x33, 0x11]),
        (PixelOrder::BRG, [0x33, 0x11, 0x22]),
        (PixelOrder::BGR, [0x33, 0x22, 0x11]),
    ];
    for (order, colors) in cases {
        let frame = pixel_frame(p, order);
        assert_eq!(frame[0], 0xe5);
        assert_eq!([frame[1], frame[2], frame[3]], colors);
        let mut sorted = [frame[1], frame[2], frame[3]];
        sorted.sort();
        assert_eq!(sorted, [0x11, 0x22, 0x33]);
    }
}

#[test]
fn brightness_above_five_bits_is_masked() {
    let frame = pixel_frame(px(1, 2, 3, 0xff), PixelOrder::RGB);
    assert_eq!(frame, [0xff, 1, 2, 3]);
    let frame = pixel_frame(px(1, 2, 3, 0x20), PixelOrder::RGB);
    assert_eq!(frame, [0xe0, 1, 2, 3]);
}

#[test]
fn end_frame_length_rounds_up() {
    assert_eq!(end_frame_length(0), 0);
    assert_eq!(end_frame_length(1), 1);
    assert_eq!(end_frame_length(16), 1);
    assert_eq!(end_frame_length(17), 2);
    assert_eq!(end_frame_length(usize::MAX), usize::MAX / 16 + 1);
}

#[test]
fn apa102_frame_has_sized_end_frame_and_no_reset_frame() {
    let w = Apa102::new((), 17, PixelOrder::default());
    let layout = w.layout();
    assert_eq!(
        layout,
        FrameLayout {
            pixel_order: PixelOrder::BGR,
            reset_frame: false,
            end_frame: EndFrame::Fixed { length: 2, high: false },
        }
    );
    let writes = record(layout, &[px(1, 2, 3, 31)]);
    assert_eq!(writes, vec![vec![0, 0, 0, 0], vec![0xff, 3, 2, 1], vec![0], vec![0]]);
}

#[test]
fn apa102_seventeen_leds_send_seventy_four_bytes() {
    let w = Apa102::new((), 17, PixelOrder::BGR);
    let pixels: Vec<Apa102Pixel> = (0..17u8).map(|i| px(i, i, i, 31)).collect();
    let writes = record(w.layout(), &pixels);
    let total: usize = writes.iter().map(|w| w.len()).sum();
    assert_eq!(total, 74);
}

#[test]
fn apa102_with_reset_frame_for_sk9822() {
    let w = Apa102::new_with_options((), 17, PixelOrder::BGR, true);
    let writes = record(w.layout(), &[px(1, 2, 3, 31)]);
    assert_eq!(
        writes,
        vec![vec![0, 0, 0, 0], vec![0xff, 3, 2, 1], vec![0, 0, 0, 0], vec![0], vec![0]]
    );
}

#[test]
fn apa102_free_returns_the_bus() {
    let mut w = Apa102::new(7u32, 3, PixelOrder::RGB);
    *w.spi_mut() += 1;
    assert_eq!(w.free(), 8);
}

#[test]
fn apa102_async_defaults() {
    let w = Apa102Async::new(5u8);
    assert_eq!(
        w.layout(),
        FrameLayout {
            pixel_order: PixelOrder::BGR,
            reset_frame: false,
            end_frame: EndFrame::Fixed { length: 4, high: false },
        }
    );
    assert_eq!(w.free(), 5);
}

#[test]
fn apa102_async_end_frame_polarity() {
    let w = Apa102Async::new_with_options((), 3, false, PixelOrder::GRB);
    let writes = record(w.layout(), &[Apa102Pixel::from(RGB8 { r: 10, g: 20, b: 30 })]);
    assert_eq!(
        writes,
        vec![vec![0, 0, 0, 0], vec![0xff, 20, 10, 30], vec![0], vec![0], vec![0]]
    );
    let w = Apa102Async::new_with_options((), 2, true, PixelOrder::RGB);
    let writes = record(w.layout(), &[]);
    assert_eq!(writes, vec![vec![0, 0, 0, 0], vec![0xff], vec![0xff]]);
}

#[test]
fn apa102_async_default_frame_writes() {
    let w = Apa102Async::new(());
    let writes = record(w.layout(), &[Apa102Pixel::from(RGB8 { r: 1, g: 2, b: 3 })]);
    assert_eq!(
        writes,
        vec![vec![0, 0, 0, 0], vec![0xff, 3, 2, 1], vec![0], vec![0], vec![0], vec![0]]
    );
}

#[test]
fn apa102_without_reset_frame_sends_seventy_four_bytes_for_seventeen_pixels() {
    let w = Apa102::new_with_options((), 17, PixelOrder::BGR, false);
    let pixels: Vec<Apa102Pixel> = (0..17u8).map(|i| px(i, i, i, 31)).collect();
    let writes = record(w.layout(), &pixels);
    assert_eq!(writes.len(), 1 + 17 + 2);
    let total: usize = writes.iter().map(|w| w.len()).sum();
    assert_eq!(total, 74);
    assert_eq!(writes[18], vec![0]);
    assert_eq!(writes[19], vec![0]);
}

#[test]
fn rgb8_converts_at_full_brightness() {
    assert_eq!(Apa102Pixel::from(RGB8 { r: 255, g: 0, b: 7 }), px(255, 0, 7, 31));
}

#[test]
fn pixel_order_default_is_bgr() {
    assert_eq!(PixelOrder::default(), PixelOrder::BGR);
}

#[test]
fn encoder_counts_pixels_and_keeps_layout() {
    let layout = FrameLayout {
        pixel_order: PixelOrder::RGB,
        reset_frame: true,
        end_frame: EndFrame::PixelCount,
    };
    let mut enc = FrameEncoder::new(layout);
    assert_eq!(enc.state(), EncoderState::NotStarted);
    enc.start();
    assert_eq!(enc.state(), EncoderState::Pixels);
    for _ in 0..33 {
        enc.pixel(px(0, 0, 0, 0));
    }
    assert_eq!(enc.pixel_count(), 33);
    assert_eq!(enc.layout(), layout);
    let mut trailer = Vec::new();
    while let Some(seg) = enc.next_trailer() {
        assert_eq!(enc.state(), EncoderState::Trailer);
        match seg {
            Segment::Frame(a) => trailer.extend_from_slice(&a),
            Segment::Byte(b) => trailer.push(b),
        }
    }
    assert_eq!(trailer, vec![0, 0, 0, 0, 0, 0, 0]);
}
