use vstd::arithmetic::div_mod::lemma_div_denominator;
use vstd::arithmetic::power2::{
    is_pow2, lemma2_to64, lemma_pow2_adds, lemma_pow2_pos, lemma_pow2_strictly_increases, lemma_pow2_unfold, pow2};
use vstd::bits::{lemma_u16_mul_pow2_le_max_iff_max_shr, lemma_u16_shl_is_mul};
use vstd::prelude::*;

verus! {

/// How many one-bit moves the 8-bit shifter makes from `(src, dst)` with
/// `budget` moves left: it moves while `src > 1`, the top bit of `dst` is
/// clear and the budget lasts.
pub open spec fn shift8_moves(src: nat, dst: nat, budget: nat) -> nat
    decreases budget,
{
    if budget == 0 || src <= 1 || dst >= 0x80 {
        0
    } else {
        1 + shift8_moves(src / 2, dst * 2, (budget - 1) as nat)
    }
}

/// The number of shifts `brightness_bitshifter8` performs.
pub open spec fn bitshifter8_shifts(src: u8, dst: u8, max_shifts: u8) -> nat {
    if src == 0 || dst == 0 {
        0
    } else {
        shift8_moves(src as nat, dst as nat, max_shifts as nat)
    }
}

/// Whether `dst`, shifted left by `steps` bits (by one bit when `steps` is
/// zero), keeps all of its bits in 16 bits.
pub open spec fn room16(dst: nat, steps: nat) -> bool {
    dst * pow2(if steps == 0 { 1 } else { steps }) <= 0xffff
}

/// How many moves the 16-bit shifter makes from `(src, dst)` with `budget`
/// moves left: each move halves `src` and shifts `dst` left by `steps` bits;
/// it moves while `src` is even, `dst` has room and the budget lasts.
pub open spec fn shift16_moves(src: nat, dst: nat, steps: nat, budget: nat) -> nat
    decreases budget,
{
    if budget == 0 || src % 2 == 1 || !room16(dst, steps) {
        0
    } else {
        1 + shift16_moves(src / 2, dst * pow2(steps), steps, (budget - 1) as nat)
    }
}

/// The number of shifts `brightness_bitshifter16` performs.
pub open spec fn bitshifter16_shifts(src: u8, dst: u16, max_shifts: u8, steps: u8) -> nat {
    if src == 0 || dst == 0 {
        0
    } else {
        shift16_moves(src as nat, dst as nat, steps as nat, max_shifts as nat)
    }
}

proof fn lemma_halve_step(x: nat, k: nat)
    ensures
        x / pow2(k) / 2 == x / pow2(k + 1),
{
    lemma_pow2_pos(k);
    lemma_pow2_unfold(k + 1);
    lemma_div_denominator(x as int, pow2(k) as int, 2);
    assert(pow2(k) * 2 == 2 * pow2(k)) by (nonlinear_arith);
}

proof fn lemma_moves16_divide_src(src: nat, dst: nat, steps: nat, budget: nat)
    ensures
        pow2(shift16_moves(src, dst, steps, budget)) > 0,
        (src / pow2(shift16_moves(src, dst, steps, budget))) * pow2(
            shift16_moves(src, dst, steps, budget),
        ) == src,
    decreases budget,
{
    let m = shift16_moves(src, dst, steps, budget);
    lemma_pow2_pos(m);
    if budget == 0 || src % 2 == 1 || !room16(dst, steps) {
        lemma2_to64();
    } else {
        lemma_moves16_divide_src(src / 2, dst * pow2(steps), steps, (budget - 1) as nat);
        let m1 = shift16_moves(src / 2, dst * pow2(steps), steps, (budget - 1) as nat);
        assert(m == m1 + 1);
        lemma_pow2_unfold(m);
        lemma_pow2_pos(m1);
        lemma_div_denominator(src as int, 2, pow2(m1) as int);
        let q = src / pow2(m);
        assert(q == (src / 2) / pow2(m1)) by (nonlinear_arith)
            requires q == src / pow2(m), src / (2 * pow2(m1)) == (src / 2) / pow2(m1), pow2(m) == 2 * pow2(m1);
        assert(q * pow2(m) == (q * pow2(m1)) * 2) by (nonlinear_arith)
            requires pow2(m) == 2 * pow2(m1);
    }
}

proof fn lemma_moves8_divide_src(src: nat, dst: nat, budget: nat)
    requires
        is_pow2(src as int),
    ensures
        pow2(shift8_moves(src, dst, budget)) > 0,
        (src / pow2(shift8_moves(src, dst, budget))) * pow2(shift8_moves(src, dst, budget)) == src,
    decreases budget,
{
    let m = shift8_moves(src, dst, budget);
    lemma_pow2_pos(m);
    reveal(is_pow2);
    if budget == 0 || src <= 1 || dst >= 0x80 {
        lemma2_to64();
        assert(m == 0);
        assert(pow2(m) == 1);
    } else {
        assert(src % 2 == 0 && is_pow2((src / 2) as int));
        lemma_moves8_divide_src(src / 2, dst * 2, (budget - 1) as nat);
        let m1 = shift8_moves(src / 2, dst * 2, (budget - 1) as nat);
        assert(m == m1 + 1);
        lemma_pow2_unfold(m);
        lemma_pow2_pos(m1);
        lemma_div_denominator(src as int, 2, pow2(m1) as int);
        let q = src / pow2(m);
        assert(q == (src / 2) / pow2(m1)) by (nonlinear_arith)
            requires q == src / pow2(m), src / (2 * pow2(m1)) == (src / 2) / pow2(m1), pow2(m) == 2 * pow2(m1);
        assert(q * pow2(m) == (q * pow2(m1)) * 2) by (nonlinear_arith)
            requires pow2(m) == 2 * pow2(m1);
        assert(q * pow2(m1) == src / 2);
        assert(q * pow2(m) == src);
    }
}

/// The 8-bit shifter moves brightness without changing the product of the
/// two values: when the source is a power of two, `src * dst` before the
/// shifts equals the product of the shifted values after them. When either
/// value is zero it makes no shift.
pub proof fn lemma_bitshifter8_keeps_product(src: u8, dst: u8, max_shifts: u8)
    ensures
        src == 0 || dst == 0 ==> bitshifter8_shifts(src, dst, max_shifts) == 0,
        is_pow2(src as int) ==> ({
            let r = bitshifter8_shifts(src, dst, max_shifts);
            (src as nat / pow2(r)) * (dst as nat * pow2(r)) == src as nat * dst as nat
        }),
{
    let r = bitshifter8_shifts(src, dst, max_shifts);
    if is_pow2(src as int) {
        if dst == 0 {
            lemma2_to64();
            assert(r == 0);
        } else {
            reveal(is_pow2);
            assert(src != 0);
            assert(r == shift8_moves(src as nat, dst as nat, max_shifts as nat));
            lemma_moves8_divide_src(src as nat, dst as nat, max_shifts as nat);
            let q = src as nat / pow2(r);
            assert(q * pow2(r) == src as nat);
            assert(q * (dst as nat * pow2(r)) == (q * pow2(r)) * dst as nat) by (nonlinear_arith);
        }
    }
}

/// The 16-bit shifter only halves an even source, so the source after the
/// shifts times `2^shifts` is the source before them, while the destination
/// is multiplied by `2^(shifts * steps)`: the product `src * dst` is kept up
/// to the factor `2^(shifts * (steps - 1))` (exactly for one step per shift).
/// When either value is zero it makes no shift.
pub proof fn lemma_bitshifter16_keeps_product(src: u8, dst: u16, max_shifts: u8, steps: u8)
    ensures
        src == 0 || dst == 0 ==> bitshifter16_shifts(src, dst, max_shifts, steps) == 0,
        ({
            let r = bitshifter16_shifts(src, dst, max_shifts, steps);
            &&& (src as nat / pow2(r)) * pow2(r) == src as nat
            &&& (src as nat / pow2(r)) * (dst as nat * pow2(r * steps as nat)) * pow2(r) == src as nat
                * dst as nat * pow2(r * steps as nat)
            &&& steps == 1 ==> (src as nat / pow2(r)) * (dst as nat * pow2(r)) == src as nat * dst as nat
        }),
{
    let r = bitshifter16_shifts(src, dst, max_shifts, steps);
    if src == 0 || dst == 0 {
        lemma2_to64();
    } else {
        lemma_moves16_divide_src(src as nat, dst as nat, steps as nat, max_shifts as nat);
    }
    let q = src as nat / pow2(r);
    let d = dst as nat * pow2(r * steps as nat);
    assert(q * d * pow2(r) == (q * pow2(r)) * d) by (nonlinear_arith);
    assert(q * pow2(r) == src as nat);
    assert(d * src as nat == src as nat * dst as nat * pow2(r * steps as nat)) by (nonlinear_arith)
        requires d == dst as nat * pow2(r * steps as nat);
    if steps == 1 {
        assert(r * 1 == r);
        assert(q * (dst as nat * pow2(r)) == (q * pow2(r)) * dst as nat) by (nonlinear_arith);
    }
}

/// Steal brightness from `brightness_src` and give it to `brightness_dst`:
/// halve the source and double the destination while the source is above one,
/// the destination's top bit is clear and fewer than `max_shifts` shifts were
/// made. Nothing moves when either value is zero. Returns the number of shifts.
pub fn brightness_bitshifter8(brightness_src: &mut u8, brightness_dst: &mut u8, max_shifts: u8) -> (r: u8)
    ensures
        r == bitshifter8_shifts(*old(brightness_src), *old(brightness_dst), max_shifts),
        r <= max_shifts,
        *final(brightness_src) == *old(brightness_src) as nat / pow2(r as nat),
        *final(brightness_dst) == *old(brightness_dst) as nat * pow2(r as nat),
{
    if *brightness_dst == 0 || *brightness_src == 0 {
        proof {
            lemma2_to64();
        }
        return 0;
    }
    let ghost src0 = *brightness_src as nat;
    let ghost dst0 = *brightness_dst as nat;
    proof {
        lemma2_to64();
    }
    let mut shifts: u8 = 0;
    while shifts < max_shifts && *brightness_src > 1
        invariant
            src0 > 0,
            dst0 > 0,
            shifts <= max_shifts,
            *brightness_src == src0 / pow2(shifts as nat),
            *brightness_dst == dst0 * pow2(shifts as nat),
            shift8_moves(src0, dst0, max_shifts as nat) == shifts + shift8_moves(
                *brightness_src as nat,
                *brightness_dst as nat,
                (max_shifts - shifts) as nat,
            ),
        ensures
            shifts == shift8_moves(src0, dst0, max_shifts as nat),
            *brightness_src == src0 / pow2(shifts as nat),
            *brightness_dst == dst0 * pow2(shifts as nat),
        decreases max_shifts - shifts,
    {
        let d: u8 = *brightness_dst;
        assert((d & 0x80 > 0) == (d >= 0x80)) by (bit_vector);
        if *brightness_dst & 0b10000000 > 0 {
            // the next shift would overflow
            break;
        }
        assert(d << 1u8 == d * 2) by (bit_vector)
            requires d < 0x80;
        let s: u8 = *brightness_src;
        assert(s >> 1u8 == s / 2) by (bit_vector);
        proof {
            lemma_halve_step(src0, shifts as nat);
            lemma_pow2_unfold(shifts as nat + 1);
            assert(dst0 * pow2(shifts as nat + 1) == dst0 * pow2(shifts as nat) * 2) by (nonlinear_arith)
                requires pow2(shifts as nat + 1) == 2 * pow2(shifts as nat);
        }
        *brightness_src >>= 1;
        *brightness_dst <<= 1;
        shifts += 1;
    }
    shifts
}

/// The overflow mask of the 16-bit shifter: the top `n` bits of a `u16`.
pub open spec fn top_bits_mask(n: u16) -> u16 {
    if n >= 16 {
        0xffff
    } else {
        !(0xffffu16 >> n)
    }
}

proof fn lemma_top_bits_mask_step(m: u16, i: u16)
    requires
        1 <= i < 0x100,
        m == top_bits_mask(i),
    ensures
        ((m >> 1u16) | 0x8000u16) == top_bits_mask((i + 1) as u16),
{
    assert(((m >> 1u16) | 0x8000u16) == (if ((i + 1) as u16) >= 16 {
        0xffffu16
    } else {
        !(0xffffu16 >> ((i + 1) as u16))
    })) by (bit_vector)
        requires
            1 <= i < 0x100,
            m == (if i >= 16 { 0xffffu16 } else { !(0xffffu16 >> i) }),
    ;
}

proof fn lemma_top_bits_mask_room(dst: u16, n: u16)
    requires
        1 <= n < 0x100,
    ensures
        ((dst & top_bits_mask(n)) > 0) == !(dst * pow2(n as nat) <= 0xffff),
{
    lemma2_to64();
    if n < 16 {
        assert(((dst & !(0xffffu16 >> n)) > 0) == !(dst <= (0xffffu16 >> n))) by (bit_vector)
            requires n < 16;
        lemma_u16_mul_pow2_le_max_iff_max_shr(dst, n, 0xffff);
    } else {
        assert(((dst & 0xffffu16) > 0) == (dst != 0)) by (bit_vector);
        if n > 16 {
            lemma_pow2_strictly_increases(16, n as nat);
        }
        assert(dst * pow2(n as nat) <= 0xffff <==> dst == 0) by (nonlinear_arith)
            requires pow2(n as nat) >= 0x10000;
    }
}

/// Steal brightness from `brightness_src` and give it to `brightness_dst`:
/// halve the source and shift the destination left by `steps` bits while the
/// source is even, the shift keeps every bit of the destination and fewer than
/// `max_shifts` shifts were made. Nothing moves when either value is zero.
/// Returns the number of shifts of the source; the destination was shifted by
/// `steps` times as many bits.
pub fn brightness_bitshifter16(
    brightness_src: &mut u8,
    brightness_dst: &mut u16,
    max_shifts: u8,
    steps: u8,
) -> (r: u8)
    ensures
        r == bitshifter16_shifts(*old(brightness_src), *old(brightness_dst), max_shifts, steps),
        r <= max_shifts,
        *final(brightness_src) == *old(brightness_src) as nat / pow2(r as nat),
        *final(brightness_src) as nat * pow2(r as nat) == *old(brightness_src) as nat,
        *final(brightness_dst) == *old(brightness_dst) as nat * pow2((r * steps) as nat),
{
    proof {
        lemma2_to64();
        lemma_bitshifter16_keeps_product(*brightness_src, *brightness_dst, max_shifts, steps);
    }
    assert(0u8 * steps == 0) by (nonlinear_arith);
    if *brightness_dst == 0 || *brightness_src == 0 {
        assert(pow2((0u8 * steps) as nat) == 1);
        assert(pow2(0) == 1);
        assert(*brightness_src as nat / 1 == *brightness_src);
        return 0;
    }
    let ghost src0 = *brightness_src as nat;
    let ghost dst0 = *brightness_dst as nat;
    let ghost n: u16 = if steps == 0 { 1 } else { steps as u16 };
    let mut overflow_mask: u16 = 0b1000000000000000;
    let mut i: u8 = 1;
    assert(!(0xffffu16 >> 1u16) == 0x8000u16) by (bit_vector);
    while i < steps
        invariant
            1 <= i,
            i <= steps || i == 1,
            overflow_mask == top_bits_mask(i as u16),
        decreases steps - i,
    {
        proof {
            lemma_top_bits_mask_step(overflow_mask, i as u16);
        }
        overflow_mask >>= 1;
        overflow_mask |= 0b1000000000000000;
        i += 1;
    }
    let underflow_mask: u8 = 0x1;

    let mut shifts: u8 = 0;
    assert(pow2((shifts * steps) as nat) == 1);
    while shifts < max_shifts
        invariant
            src0 > 0,
            dst0 > 0,
            n == (if steps == 0 { 1 } else { steps as u16 }),
            overflow_mask == top_bits_mask(n),
            underflow_mask == 1,
            shifts <= max_shifts,
            *brightness_dst > 0,
            *brightness_src == src0 / pow2(shifts as nat),
            *brightness_dst == dst0 * pow2((shifts * steps) as nat),
            shift16_moves(src0, dst0, steps as nat, max_shifts as nat) == shifts + shift16_moves(
                *brightness_src as nat,
                *brightness_dst as nat,
                steps as nat,
                (max_shifts - shifts) as nat,
            ),
        ensures
            shifts == shift16_moves(src0, dst0, steps as nat, max_shifts as nat),
            *brightness_src == src0 / pow2(shifts as nat),
            *brightness_dst == dst0 * pow2((shifts * steps) as nat),
        decreases max_shifts - shifts,
    {
        let s: u8 = *brightness_src;
        let d: u16 = *brightness_dst;
        assert(((s & 1u8) > 0) == (s % 2 == 1)) by (bit_vector);
        if *brightness_src & underflow_mask > 0 {
            break;
        }
        proof {
            lemma_top_bits_mask_room(d, n);
        }
        if *brightness_dst & overflow_mask > 0 {
            // the next shift would overflow
            break;
        }
        assert(s >> 1u8 == s / 2) by (bit_vector);
        proof {
            lemma2_to64();
            lemma_halve_step(src0, shifts as nat);
            lemma_pow2_pos(steps as nat);
            if steps == 0 {
                assert(d << 0u8 == d) by (bit_vector);
            } else {
                if steps > 16 {
                    lemma_pow2_strictly_increases(16, steps as nat);
                }
                if steps >= 16 {
                    assert(d * pow2(steps as nat) >= pow2(steps as nat)) by (nonlinear_arith)
                        requires d >= 1;
                }
                assert(steps < 16);
                lemma_u16_shl_is_mul(d, steps as u16);
                assert(d << steps == d << (steps as u16)) by (bit_vector);
            }
            lemma_pow2_adds((shifts * steps) as nat, steps as nat);
            assert((shifts * steps) as nat + steps as nat == ((shifts + 1) * steps) as nat) by (nonlinear_arith);
            assert(dst0 * pow2((shifts * steps) as nat) * pow2(steps as nat) == dst0 * (pow2((shifts * steps) as nat) * pow2(steps as nat))) by (nonlinear_arith);
            assert(d * pow2(steps as nat) > 0) by (nonlinear_arith)
                requires d > 0, pow2(steps as nat) > 0;
        }
        *brightness_src >>= 1;
        *brightness_dst <<= steps;
        shifts += 1;
    }
    shifts
}

} // verus!
