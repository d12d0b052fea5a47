use crate::bitshift::{
    bitshifter16_shifts, bitshifter8_shifts, brightness_bitshifter16, brightness_bitshifter8,
    lemma_bitshifter16_keeps_product,
};
use crate::math::{map16_to_8, map16_to_8_spec, scale16by8, scale16by8_spec};
use crate::pixel::{Apa102Pixel, RGB16, RGB8};
use vstd::arithmetic::power2::{
    lemma2_to64, lemma_pow2_pos, lemma_pow2_strictly_increases, pow2,
};
use vstd::bits::lemma_u16_shl_is_mul;
use vstd::prelude::*;

verus! {

/// The gamma curve (power 2.8) from 8-bit channel values to 16-bit values.
pub open spec fn gamma_table() -> Seq<u16> {
    seq![
        0, 0, 0, 1, 1, 2, 4, 6, 8, 11, 14,
        18, 23, 29, 35, 41, 49, 57, 67, 77, 88, 99,
        112, 126, 141, 156, 173, 191, 210, 230, 251, 274, 297,
        322, 348, 375, 404, 433, 464, 497, 531, 566, 602, 640,
        680, 721, 763, 807, 853, 899, 948, 998, 1050, 1103, 1158,
        1215, 1273, 1333, 1394, 1458, 1523, 1590, 1658, 1729, 1801, 1875,
        1951, 2029, 2109, 2190, 2274, 2359, 2446, 2536, 2627, 2720, 2816,
        2913, 3012, 3114, 3217, 3323, 3431, 3541, 3653, 3767, 3883, 4001,
        4122, 4245, 4370, 4498, 4627, 4759, 4893, 5030, 5169, 5310, 5453,
        5599, 5747, 5898, 6051, 6206, 6364, 6525, 6688, 6853, 7021, 7191,
        7364, 7539, 7717, 7897, 8080, 8266, 8454, 8645, 8838, 9034, 9233,
        9434, 9638, 9845, 10055, 10267, 10482, 10699, 10920, 11143, 11369, 11598,
        11829, 12064, 12301, 12541, 12784, 13030, 13279, 13530, 13785, 14042, 14303,
        14566, 14832, 15102, 15374, 15649, 15928, 16209, 16493, 16781, 17071, 17365,
        17661, 17961, 18264, 18570, 18879, 19191, 19507, 19825, 20147, 20472, 20800,
        21131, 21466, 21804, 22145, 22489, 22837, 23188, 23542, 23899, 24260, 24625,
        24992, 25363, 25737, 26115, 26496, 26880, 27268, 27659, 28054, 28452, 28854,
        29259, 29667, 30079, 30495, 30914, 31337, 31763, 32192, 32626, 33062, 33503,
        33947, 34394, 34846, 35300, 35759, 36221, 36687, 37156, 37629, 38106, 38586,
        39071, 39558, 40050, 40545, 41045, 41547, 42054, 42565, 43079, 43597, 44119,
        44644, 45174, 45707, 46245, 46786, 47331, 47880, 48432, 48989, 49550, 50114,
        50683, 51255, 51832, 52412, 52996, 53585, 54177, 54773, 55374, 55978, 56587,
        57199, 57816, 58436, 59061, 59690, 60323, 60960, 61601, 62246, 62896, 63549,
        64207, 64869, 65535,
    ]
}

/// Look up the 16-bit gamma-expanded value of an 8-bit channel value.
pub fn gamma16(value: u8) -> (r: u16)
    ensures
        r == gamma_table()[value as int],
{
    let table: [u16; 256] = [
        0, 0, 0, 1, 1, 2, 4, 6, 8, 11, 14,
        18, 23, 29, 35, 41, 49, 57, 67, 77, 88, 99,
        112, 126, 141, 156, 173, 191, 210, 230, 251, 274, 297,
        322, 348, 375, 404, 433, 464, 497, 531, 566, 602, 640,
        680, 721, 763, 807, 853, 899, 948, 998, 1050, 1103, 1158,
        1215, 1273, 1333, 1394, 1458, 1523, 1590, 1658, 1729, 1801, 1875,
        1951, 2029, 2109, 2190, 2274, 2359, 2446, 2536, 2627, 2720, 2816,
        2913, 3012, 3114, 3217, 3323, 3431, 3541, 3653, 3767, 3883, 4001,
        4122, 4245, 4370, 4498, 4627, 4759, 4893, 5030, 5169, 5310, 5453,
        5599, 5747, 5898, 6051, 6206, 6364, 6525, 6688, 6853, 7021, 7191,
        7364, 7539, 7717, 7897, 8080, 8266, 8454, 8645, 8838, 9034, 9233,
        9434, 9638, 9845, 10055, 10267, 10482, 10699, 10920, 11143, 11369, 11598,
        11829, 12064, 12301, 12541, 12784, 13030, 13279, 13530, 13785, 14042, 14303,
        14566, 14832, 15102, 15374, 15649, 15928, 16209, 16493, 16781, 17071, 17365,
        17661, 17961, 18264, 18570, 18879, 19191, 19507, 19825, 20147, 20472, 20800,
        21131, 21466, 21804, 22145, 22489, 22837, 23188, 23542, 23899, 24260, 24625,
        24992, 25363, 25737, 26115, 26496, 26880, 27268, 27659, 28054, 28452, 28854,
        29259, 29667, 30079, 30495, 30914, 31337, 31763, 32192, 32626, 33062, 33503,
        33947, 34394, 34846, 35300, 35759, 36221, 36687, 37156, 37629, 38106, 38586,
        39071, 39558, 40050, 40545, 41045, 41547, 42054, 42565, 43079, 43597, 44119,
        44644, 45174, 45707, 46245, 46786, 47331, 47880, 48432, 48989, 49550, 50114,
        50683, 51255, 51832, 52412, 52996, 53585, 54177, 54773, 55374, 55978, 56587,
        57199, 57816, 58436, 59061, 59690, 60323, 60960, 61601, 62246, 62896, 63549,
        64207, 64869, 65535,
    ];
    assert(table@ =~= gamma_table());
    table[value as usize]
}

/// The gamma curve never decreases.
pub proof fn lemma_gamma_table_non_decreasing(i: int, j: int)
    requires
        0 <= i <= j < 256,
    ensures
        gamma_table()[i] <= gamma_table()[j],
    decreases j - i,
{
    if i < j {
        let t = gamma_table();
        assert(forall|k: int| 0 <= k < 255 ==> #[trigger] t[k] <= t[k + 1]);
        lemma_gamma_table_non_decreasing(i, j - 1);
    }
}

/// The largest of the three channels.
pub open spec fn max_channel(c: RGB16) -> u16 {
    let m = if c.r >= c.g { c.r } else { c.g };
    if m >= c.b { m } else { c.b }
}

/// One output channel: the 16-bit channel shifted left by `shifts` bits,
/// scaled by `level / 255` and mapped to 8 bits.
pub open spec fn channel_out(x: u16, shifts: nat, level: u8) -> u8 {
    map16_to_8_spec(scale16by8_spec((x * pow2(shifts)) as u16, level))
}

/// FastLED's pseudo-13-bit conversion of an already gamma-corrected 16-bit
/// color and an 8-bit brightness into an APA102 pixel.
///
/// A zero brightness gives a dark pixel at brightness 0, and black gives a
/// dark pixel at the brightness clamped to five bits. Otherwise the hardware
/// brightness starts at 16 and gives up to four bits to the requested
/// brightness (the 8-bit shifter), then up to four more to the color
/// channels, two channel bits for each of its own (the 16-bit shifter, run on
/// the largest channel); the channels are shifted left by that shift count,
/// scaled by the requested brightness and mapped to 8 bits, and the hardware
/// brightness `v`, a power of two, is sent as `2 * v - 1`, all bits below
/// its leading one set.
pub open spec fn five_bit_bitshift_spec(c: RGB16, brightness: u8) -> Apa102Pixel {
    if brightness == 0 {
        Apa102Pixel { red: 0, green: 0, blue: 0, brightness: 0 }
    } else if c.r == 0 && c.g == 0 && c.b == 0 {
        Apa102Pixel {
            red: 0,
            green: 0,
            blue: 0,
            brightness: if brightness <= 31 { brightness } else { 31 },
        }
    } else {
        let k1 = bitshifter8_shifts(16, brightness, 4);
        let v5 = 16nat / pow2(k1);
        let level = (brightness * pow2(k1)) as u8;
        let k2 = bitshifter16_shifts(v5 as u8, max_channel(c), 4, 2);
        let hw = v5 / pow2(k2);
        Apa102Pixel {
            red: channel_out(c.r, k2, level),
            green: channel_out(c.g, k2, level),
            blue: channel_out(c.b, k2, level),
            brightness: (2 * hw - 1) as u8,
        }
    }
}

proof fn lemma_boost_channel(x: u16, m: u16, k: u8, boosted_max: nat)
    requires
        x <= m,
        k <= 4,
        boosted_max == m * pow2((k * 2) as nat),
        boosted_max <= 0xffff,
    ensures
        x * pow2(k as nat) <= 0xffff,
        x << k == x * pow2(k as nat),
{
    lemma_pow2_pos(k as nat);
    if k > 0 {
        lemma_pow2_strictly_increases(k as nat, (k * 2) as nat);
    }
    assert(x * pow2(k as nat) <= m * pow2((k * 2) as nat)) by (nonlinear_arith)
        requires x <= m, pow2(k as nat) <= pow2((k * 2) as nat);
    lemma_u16_shl_is_mul(x, k as u16);
    assert(x << k == x << (k as u16)) by (bit_vector);
}

proof fn lemma_scale_by_full(x: u16)
    ensures
        scale16by8_spec(x, 255) == x,
{
    assert((x as int * 256) / 256 == x) by (nonlinear_arith);
}

/// Convert an already gamma-corrected 16-bit color and an 8-bit brightness
/// into an APA102 pixel with FastLED's pseudo-13-bit algorithm.
pub fn five_bit_bitshift(in_color: RGB16, brightness: u8) -> (r: Apa102Pixel)
    ensures
        r == five_bit_bitshift_spec(in_color, brightness),
        r.wf(),
{
    let mut in_color = in_color;
    let mut brightness = brightness;
    if brightness == 0 {
        return Apa102Pixel { red: 0, green: 0, blue: 0, brightness: 0 };
    }
    if in_color.r == 0 && in_color.g == 0 && in_color.b == 0 {
        return Apa102Pixel {
            red: 0,
            green: 0,
            blue: 0,
            brightness: if brightness <= 0b00011111 {
                brightness
            } else {
                0b00011111
            },
        };
    }
    let ghost c0 = in_color;
    proof {
        lemma2_to64();
    }

    // Start the hardware brightness at its middle bit, then boost the
    // requested brightness by swapping power with it.
    let mut v5: u8 = 0b00010000;
    let k1 = brightness_bitshifter8(&mut v5, &mut brightness, 4);
    let ghost v5_mid = v5;
    // At most four shifts: the hardware brightness is still a power of two.
    proof {
        if k1 == 0 {
            assert(pow2(k1 as nat) == 1);
        } else if k1 == 1 {
            assert(pow2(k1 as nat) == 2);
        } else if k1 == 2 {
            assert(pow2(k1 as nat) == 4);
        } else if k1 == 3 {
            assert(pow2(k1 as nat) == 8);
        } else {
            assert(pow2(k1 as nat) == 16);
        }
    }
    assert(v5 == 16 || v5 == 8 || v5 == 4 || v5 == 2 || v5 == 1);

    // Boost the color channels by swapping power with the hardware brightness.
    let mut max_component: u16 = in_color.r.max(in_color.g).max(in_color.b);
    assert(max_component == max_channel(c0));
    let ghost m0 = max_component;
    let shifts = brightness_bitshifter16(&mut v5, &mut max_component, 4, 2);
    proof {
        assert(v5 * pow2(shifts as nat) == v5_mid) by {
            lemma_bitshifter16_keeps_product(v5_mid, m0, 4, 2);
        }
        lemma_boost_channel(c0.r, m0, shifts, max_component as nat);
        lemma_boost_channel(c0.g, m0, shifts, max_component as nat);
        lemma_boost_channel(c0.b, m0, shifts, max_component as nat);
    }
    if shifts > 0 {
        in_color.r <<= shifts;
        assert(in_color.r == c0.r * pow2(shifts as nat));
        in_color.g <<= shifts;
        assert(in_color.g == c0.g * pow2(shifts as nat));
        in_color.b <<= shifts;
        assert(in_color.b == c0.b * pow2(shifts as nat));
    } else {
        assert(pow2(shifts as nat) == 1);
        assert(c0.r * 1 == c0.r && c0.g * 1 == c0.g && c0.b * 1 == c0.b);
    }

    // Scale by the final brightness.
    if brightness != u8::MAX {
        in_color.r = scale16by8(in_color.r, brightness);
        in_color.g = scale16by8(in_color.g, brightness);
        in_color.b = scale16by8(in_color.b, brightness);
    } else {
        proof {
            lemma_scale_by_full(in_color.r);
            lemma_scale_by_full(in_color.g);
            lemma_scale_by_full(in_color.b);
        }
    }

    // Brighten the hardware brightness by turning on its low order bits:
    // it is a power of two, so `v5 - 1` holds exactly the bits below it.
    let ghost hw = v5;
    assert(hw == 16 || hw == 8 || hw == 4 || hw == 2 || hw == 1) by (nonlinear_arith)
        requires
            hw * pow2(shifts as nat) == v5_mid,
            v5_mid == 16 || v5_mid == 8 || v5_mid == 4 || v5_mid == 2 || v5_mid == 1,
            pow2(shifts as nat) == 1 || pow2(shifts as nat) == 2 || pow2(shifts as nat) == 4
                || pow2(shifts as nat) == 8 || pow2(shifts as nat) == 16,
    ;
    if v5 > 1 {
        v5 = v5 | (v5 - 1);
    }
    assert(v5 == 2 * hw - 1) by (bit_vector)
        requires
            hw == 16u8 || hw == 8u8 || hw == 4u8 || hw == 2u8 || hw == 1u8,
            v5 == (if hw > 1 { hw | ((hw - 1) as u8) } else { hw }),
    ;
    Apa102Pixel {
        red: map16_to_8(in_color.r),
        green: map16_to_8(in_color.g),
        blue: map16_to_8(in_color.b),
        brightness: v5,
    }
}

/// The 16-bit color that the gamma curve gives for an 8-bit color, each
/// channel then scaled by its correction factor where one is given.
pub open spec fn corrected_gamma(c: RGB8, correction: Option<&RGB8>) -> RGB16 {
    let g = RGB16 {
        r: gamma_table()[c.r as int],
        g: gamma_table()[c.g as int],
        b: gamma_table()[c.b as int],
    };
    match correction {
        Some(k) => RGB16 {
            r: scale16by8_spec(g.r, k.r),
            g: scale16by8_spec(g.g, k.g),
            b: scale16by8_spec(g.b, k.b),
        },
        None => g,
    }
}

/// Convert an 8-bit color and an 8-bit brightness into an APA102 pixel:
/// gamma-correct the color to 16 bits, apply the optional per-channel color
/// correction, then run FastLED's pseudo-13-bit algorithm.
pub fn five_bit_hd_gamma_bitshift(colors: &RGB8, brightness: u8, color_correction: Option<&RGB8>) -> (r: Apa102Pixel)
    ensures
        r == five_bit_bitshift_spec(corrected_gamma(*colors, color_correction), brightness),
        r.wf(),
{
    if brightness == 0 {
        return Apa102Pixel { red: 0, blue: 0, green: 0, brightness: 0 };
    }
    let mut rgb16 = RGB16 { r: gamma16(colors.r), g: gamma16(colors.g), b: gamma16(colors.b) };
    if let Some(color_correction) = color_correction {
        if color_correction.r != u8::MAX {
            rgb16.r = scale16by8(rgb16.r, color_correction.r);
        } else {
            proof {
                lemma_scale_by_full(rgb16.r);
            }
        }
        if color_correction.g != u8::MAX {
            rgb16.g = scale16by8(rgb16.g, color_correction.g);
        } else {
            proof {
                lemma_scale_by_full(rgb16.g);
            }
        }
        if color_correction.b != u8::MAX {
            rgb16.b = scale16by8(rgb16.b, color_correction.b);
        } else {
            proof {
                lemma_scale_by_full(rgb16.b);
            }
        }
    }
    five_bit_bitshift(rgb16, brightness)
}

} // verus!
