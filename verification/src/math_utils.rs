use vstd::prelude::*;

verus! {

broadcast use vstd::layout::layout_of_primitives;

/// Largest value of a signed 24-bit sample.
pub const S24_MAX: i32 = 8388607;

/// Smallest value of a signed 24-bit sample.
pub const S24_MIN: i32 = -8388608;

/// Sign extension of a 24-bit sample held in the low bits of an `i32`:
/// when bit 23 is set, the eight high bits are set too.
pub open spec fn spec_s24_to_i32(s: i32) -> i32 {
    if s & 0x80_0000i32 != 0 {
        s | (0xFFi32 << 24u32)
    } else {
        s
    }
}

/// The value of a sample clamped to the signed 24-bit range.
pub open spec fn spec_clamp_s24(s: int) -> int {
    if s < S24_MIN {
        S24_MIN as int
    } else if s > S24_MAX {
        S24_MAX as int
    } else {
        s
    }
}

/// Sign-extends a 24-bit sample to a 32-bit one.
pub fn s24_to_i32(s: &i32) -> (r: i32)
    ensures
        r == spec_s24_to_i32(*s),
        // a raw 24-bit word reads as its two's complement value
        0 <= *s < 0x100_0000 ==> r == (if *s >= 0x80_0000 { *s - 0x100_0000 } else { *s as int }),
        // a sample already in the signed 24-bit range is left as it is
        S24_MIN <= *s <= S24_MAX ==> r == *s,
{
    let v: i32 = *s;
    if (v & (1i32 << 23u32)) != 0 {
        let shift: usize = core::mem::size_of::<i32>() * 8 - 8;
        assert(shift == 24);
        let r: i32 = v | (0xFFi32 << shift);
        assert(0 <= v < 0x100_0000 && v & 0x80_0000i32 != 0 ==> v | (0xFFi32 << 24u32) == v - 0x100_0000) by (bit_vector);
        assert(S24_MIN <= v <= S24_MAX && v & 0x80_0000i32 != 0 ==> v | (0xFFi32 << 24u32) == v) by (bit_vector);
        assert(1i32 << 23u32 == 0x80_0000i32) by (bit_vector);
        assert((0xFFi32 << shift) == (0xFFi32 << 24u32));
        r
    } else {
        assert(1i32 << 23u32 == 0x80_0000i32) by (bit_vector);
        assert(0 <= v < 0x100_0000 && v & 0x80_0000i32 == 0 ==> v < 0x80_0000) by (bit_vector);
        assert(S24_MIN <= v <= S24_MAX && v & 0x80_0000i32 == 0 ==> v >= 0) by (bit_vector);
        v
    }
}

/// Clamps a sample to the signed 24-bit range.
pub fn clamp_s24(s: &mut i32)
    ensures
        *final(s) == spec_clamp_s24(*old(s) as int),
        -8388608 <= *old(s) <= 8388607 ==> *final(s) == *old(s),
        *old(s) < -8388608 ==> *final(s) == -8388608,
        *old(s) > 8388607 ==> *final(s) == 8388607,
{
    if *s < S24_MIN {
        *s = S24_MIN;
    } else if *s > S24_MAX {
        *s = S24_MAX;
    }
}


/// Sign extension is idempotent: a sample that has been sign-extended reads
/// the same when sign-extended again.
pub proof fn lemma_s24_to_i32_idempotent(s: i32)
    ensures
        spec_s24_to_i32(spec_s24_to_i32(s)) == spec_s24_to_i32(s),
{
    assert(spec_s24_to_i32(spec_s24_to_i32(s)) == spec_s24_to_i32(s)) by (bit_vector);
}

/// Clamping leaves a sample that already lies in the signed 24-bit range
/// as it is, and takes a sample below or above it to the nearest end.
pub proof fn lemma_clamp_s24_law(s: int)
    ensures
        -8388608 <= s <= 8388607 ==> spec_clamp_s24(s) == s,
        s < -8388608 ==> spec_clamp_s24(s) == -8388608,
        s > 8388607 ==> spec_clamp_s24(s) == 8388607,
{
}

/// A clamped sample lies in the 24-bit range, and clamping it again leaves it
/// as it is.
pub proof fn lemma_clamp_s24_in_range(s: int)
    ensures
        S24_MIN <= spec_clamp_s24(s) <= S24_MAX,
        spec_clamp_s24(spec_clamp_s24(s)) == spec_clamp_s24(s),
{
}

} // verus!
