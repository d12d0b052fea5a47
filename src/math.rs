use vstd::prelude::*;

verus! {

/// `value * (scale + 1) / 256`, and zero for a zero scale.
pub open spec fn scale16by8_spec(value: u16, scale: u8) -> u16 {
    if scale == 0 {
        0
    } else {
        ((value as int * (scale as int + 1)) / 256) as u16
    }
}

/// `(value + 128) / 256`, saturating at `0xFF` from `0xFF00` upward.
pub open spec fn map16_to_8_spec(value: u16) -> u8 {
    if value >= 0xff00 {
        0xff
    } else {
        ((value as int + 128) / 256) as u8
    }
}

/// Scale a 16-bit value by an 8-bit fraction whose denominator is `u8::MAX`,
/// in integer arithmetic: `value * (scale + 1) >> 8`.
pub fn scale16by8(value: u16, scale: u8) -> (r: u16)
    ensures
        r == scale16by8_spec(value, scale),
        r <= value,
{
    if scale == 0 {
        return 0;
    }
    assert(value as u32 * (1 + scale as u32) <= 0xffff * 256) by (nonlinear_arith)
        requires value <= 0xffff, scale <= 0xff;
    let product: u32 = value as u32 * (1 + scale as u32);
    assert(product >> 8u32 == product / 256) by (bit_vector);
    proof {
        assert(product / 256 <= value) by (nonlinear_arith)
            requires product == value as int * (scale as int + 1), scale <= 255;
    }
    (product >> 8) as u16
}

/// Map a 16-bit value onto the 8-bit range, rounding to nearest.
pub fn map16_to_8(value: u16) -> (r: u8)
    ensures
        r == map16_to_8_spec(value),
{
    if value >= 0xff00 {
        return 0xff;
    }
    let sum: u16 = value + 128;
    assert(sum >> 8u16 == sum / 256) by (bit_vector);
    (sum >> 8) as u8
}

/// Halving both factors multiplies their halvings: `0xFFFF >> i` scaled by
/// `0xFF >> j` is `0xFFFF >> (i + j)`, for every `i + j <= 7`.
pub proof fn lemma_scale16by8_halvings(i: u16, j: u16)
    requires
        i + j <= 7,
    ensures
        scale16by8_spec(0xffffu16 >> i, (0xffu16 >> j) as u8) == 0xffffu16 >> ((i + j) as u16),
{
    let v: u16 = 0xffffu16 >> i;
    let s: u16 = 0xffu16 >> j;
    assert(s != 0 && s <= 0xff && (s as u8) as u16 == s) by (bit_vector)
        requires s == 0xffu16 >> j, j <= 7;
    let t: u32 = ((s as u32) + 1) as u32;
    let p: u32 = ((v as u32) * t) as u32;
    assert((p >> 8u32) as u16 == 0xffffu16 >> ((i + j) as u16)) by (bit_vector)
        requires
            v == 0xffffu16 >> i,
            s == 0xffu16 >> j,
            t == ((s as u32) + 1) as u32,
            p == ((v as u32) * t) as u32,
            i + j <= 7,
    ;
    assert(v as int * t as int <= 0xffff * 0x100) by (nonlinear_arith)
        requires v <= 0xffff, t <= 0x100;
    assert(p == v as int * (s as int + 1));
    assert(p >> 8u32 == p / 256) by (bit_vector);
}

} // verus!
