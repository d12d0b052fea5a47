use apa102_spi::{brightness_bitshifter16, brightness_bitshifter8};

#[test]
fn test_brightness_bitshifter8_random() {
    let mut count = 0;
    for _ in 0..10000 {
        let mut brightness_src = 0b10000000 >> fastrand::u8(..) % 6;
        let mut brightness_dst = fastrand::u8(..);
        let product = brightness_src as u16 * brightness_dst as u16;
        let shifts = brightness_bitshifter8(&mut brightness_src, &mut brightness_dst, 7);
        let new_product = brightness_src as u16 * brightness_dst as u16;
        assert_eq!(product, new_product);
        if shifts > 0 {
            count += 1;
        }
    }
    assert!(count > 0);
}

#[test]
fn test_brightness_bitshifter8_fixed_data() {
    // brightness_bitshifter8 is always called with brightness_src = 0b00010000
    let test_data: [[[u8; 2]; 2]; 7] = [
        [[0b00010000, 0b00000000], [0b00010000, 0b00000000]],
        [[0b00010000, 0b00000001], [0b00000001, 0b00010000]],
        [[0b00010000, 0b00000100], [0b00000001, 0b01000000]],
        [[0b00010000, 0b00010000], [0b00000010, 0b10000000]],
        [[0b00010000, 0b00001010], [0b00000001, 0b10100000]],
        [[0b00010000, 0b00101010], [0b00000100, 0b10101000]],
        [[0b00010000, 0b11101010], [0b00010000, 0b11101010]],
    ];

    for data in test_data {
        let mut brightness_src = data[0][0];
        let mut brightness_dst = data[0][1];
        let shifts = brightness_bitshifter8(&mut brightness_src, &mut brightness_dst, 4);
        assert_eq!(
            brightness_src, data[1][0],
            "input src {} dst {}; output src {} dst {}; shifts {}",
            data[0][0], data[0][1], brightness_src, brightness_dst, shifts
        );
        assert_eq!(
            brightness_dst, data[1][1],
            "input src {} dst {}; output src {} dst {}; shifts {}",
            data[0][0], data[0][1], brightness_src, brightness_dst, shifts
        );
    }
}

#[test]
fn test_brightness_bitshifter16_steps2() {
    let mut brightness_src = 0x1 << 1;
    let mut brightness_dst = 0x1 << 2;
    let max_shifts = 8;

    let shifts = brightness_bitshifter16(&mut brightness_src, &mut brightness_dst, max_shifts, 2);

    assert_eq!(shifts, 1);
    assert_eq!(brightness_src, 1);
    assert_eq!(brightness_dst, 0x1 << 4);
}

#[test]
fn test_brightness_bitshifter16_steps1() {
    let mut brightness_src = 0x1 << 1;
    let mut brightness_dst = 0x1 << 1;
    let max_shifts = 8;

    let shifts = brightness_bitshifter16(&mut brightness_src, &mut brightness_dst, max_shifts, 1);

    assert_eq!(shifts, 1);
    assert_eq!(brightness_src, 1);
    assert_eq!(brightness_dst, 0x1 << 2);
}

#[test]
fn test_brightness_bitshifter16_random() {
    let mut count = 0;
    for _ in 0..10000 {
        let mut brightness_src = 0b10000000 >> (fastrand::u8(..) % 8);
        let mut brightness_dst = fastrand::u16(..);
        let product = (brightness_src as u32 >> 8) * brightness_dst as u32;
        let max_shifts = 8;
        let steps = 2;

        let shifts =
            brightness_bitshifter16(&mut brightness_src, &mut brightness_dst, max_shifts, steps);

        let new_product = (brightness_src as u32 >> 8) * brightness_dst as u32;
        assert_eq!(product, new_product);
        if shifts > 0 {
            count += 1;
        }
    }
    assert!(count > 0);
}

#[test]
fn test_brightness_bitshifter16_fixed_data() {
    // brightness_bitshifter16 is always called with brightness_src between 0b00000001 - 0b00010000
    let test_data: [[[u16; 2]; 2]; 9] = [
        [[0b00000001, 0b0000000000000000], [0b00000001, 0b0000000000000000]],
        [[0b00000001, 0b0000000000000001], [0b00000001, 0b0000000000000001]],
        [[0b00000001, 0b0000000000000010], [0b00000001, 0b0000000000000010]],
        [[0b00000010, 0b0000000000000001], [0b00000001, 0b0000000000000100]],
        [[0b00001010, 0b0000000000001010], [0b00000101, 0b0000000000101000]],
        [[0b00010000, 0b0000111000100100], [0b00000100, 0b1110001001000000]],
        [[0b00010000, 0b0011100010010010], [0b00001000, 0b1110001001001000]],
        [[0b00010000, 0b0110001001001110], [0b00010000, 0b0110001001001110]],
        [[0b00010000, 0b1110001001001110], [0b00010000, 0b1110001001001110]],
    ];

    for data in test_data {
        let mut brightness_src = data[0][0] as u8;
        let mut brightness_dst = data[0][1];
        let shifts = brightness_bitshifter16(&mut brightness_src, &mut brightness_dst, 4, 2);
        assert_eq!(
            brightness_src, data[1][0] as u8,
            "input src {} dst {}; output src {} dst {}; shifts (by 2 bits) {}",
            data[0][0], data[0][1], brightness_src, brightness_dst, shifts
        );
        assert_eq!(
            brightness_dst, data[1][1],
            "input src {} dst {}; output src {} dst {}; shifts (by 2 bits) {}",
            data[0][0], data[0][1], brightness_src, brightness_dst, shifts
        );
    }
}

#[test]
fn bitshifter8_keeps_product_for_every_power_of_two_source() {
    for k in 0..8u32 {
        for dst in 0..=255u8 {
            for max_shifts in 0..=7u8 {
                let mut src: u8 = 1 << k;
                let mut d = dst;
                let before = src as u32 * dst as u32;
                let shifts = brightness_bitshifter8(&mut src, &mut d, max_shifts);
                assert_eq!(src as u32 * d as u32, before);
                assert!(shifts <= max_shifts);
                if dst == 0 {
                    assert_eq!(shifts, 0);
                }
            }
        }
    }
}

#[test]
fn bitshifter8_zero_source_makes_no_shift() {
    let mut src = 0u8;
    let mut dst = 5u8;
    assert_eq!(brightness_bitshifter8(&mut src, &mut dst, 7), 0);
    assert_eq!((src, dst), (0, 5));
}

#[test]
fn bitshifter8_stops_at_max_shifts() {
    let mut src = 0b10000000u8;
    let mut dst = 1u8;
    assert_eq!(brightness_bitshifter8(&mut src, &mut dst, 3), 3);
    assert_eq!((src, dst), (0b00010000, 0b00001000));
}

#[test]
fn bitshifter16_scales_product_by_extra_steps() {
    for k in 0..8u32 {
        for dst in [1u16, 3, 0x00ff, 0x0f00, 0x1234, 0x7fff, 0xffff] {
            for steps in 1..=2u8 {
                let mut src: u8 = 1 << k;
                let mut d = dst;
                let src0 = src as u64;
                let shifts = brightness_bitshifter16(&mut src, &mut d, 8, steps) as u64;
                assert_eq!(src as u64 * (1u64 << shifts), src0);
                assert_eq!(d as u64, dst as u64 * (1u64 << (shifts * steps as u64)));
                assert_eq!(
                    src as u64 * d as u64 * (1u64 << shifts),
                    src0 * dst as u64 * (1u64 << (shifts * steps as u64))
                );
            }
        }
    }
}

#[test]
fn bitshifter16_zero_inputs_make_no_shift() {
    let mut src = 0u8;
    let mut dst = 0x10u16;
    assert_eq!(brightness_bitshifter16(&mut src, &mut dst, 4, 2), 0);
    assert_eq!((src, dst), (0, 0x10));
    let mut src = 0x10u8;
    let mut dst = 0u16;
    assert_eq!(brightness_bitshifter16(&mut src, &mut dst, 4, 2), 0);
    assert_eq!((src, dst), (0x10, 0));
}

#[test]
fn bitshifter16_odd_source_makes_no_shift() {
    let mut src = 3u8;
    let mut dst = 1u16;
    assert_eq!(brightness_bitshifter16(&mut src, &mut dst, 4, 2), 0);
    assert_eq!((src, dst), (3, 1));
}

#[test]
fn bitshifter16_wide_steps_never_shift() {
    let mut src = 0x10u8;
    let mut dst = 1u16;
    assert_eq!(brightness_bitshifter16(&mut src, &mut dst, 4, 16), 0);
    assert_eq!((src, dst), (0x10, 1));
    let mut src = 0x10u8;
    let mut dst = 1u16;
    assert_eq!(brightness_bitshifter16(&mut src, &mut dst, 4, 15), 1);
    assert_eq!((src, dst), (0x08, 0x8000));
}
