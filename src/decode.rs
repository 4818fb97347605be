//! Bit-field extraction from a 32-bit instruction word.
use vstd::prelude::*;

verus! {

/// The operator code: bits 31 to 28.
pub open spec fn opcode_of(w: u32) -> nat {
    (w as nat) / 0x1000_0000
}

/// Register field A of a standard instruction: bits 8 to 6.
pub open spec fn field_a_of(w: u32) -> nat {
    ((w as nat) / 64) % 8
}

/// Register field B of a standard instruction: bits 5 to 3.
pub open spec fn field_b_of(w: u32) -> nat {
    ((w as nat) / 8) % 8
}

/// Register field C of a standard instruction: bits 2 to 0.
pub open spec fn field_c_of(w: u32) -> nat {
    (w as nat) % 8
}

/// Destination register of a literal load: bits 27 to 25.
pub open spec fn literal_reg_of(w: u32) -> nat {
    ((w as nat) / 0x200_0000) % 8
}

/// Immediate value of a literal load: bits 24 to 0.
pub open spec fn literal_value_of(w: u32) -> nat {
    (w as nat) % 0x200_0000
}

pub fn opcode(w: u32) -> (r: u32)
    ensures
        r as nat == opcode_of(w),
        r < 16,
{
    let r = w >> 28u32;
    assert(w >> 28u32 == w / 0x1000_0000u32) by (bit_vector);
    assert(w / 0x1000_0000u32 < 16u32) by (bit_vector);
    r
}

pub fn field_a(w: u32) -> (r: usize)
    ensures
        r as nat == field_a_of(w),
        r < 8,
{
    assert((w >> 6u32) & 7u32 == (w / 64u32) % 8u32) by (bit_vector);
    ((w >> 6u32) & 7u32) as usize
}

pub fn field_b(w: u32) -> (r: usize)
    ensures
        r as nat == field_b_of(w),
        r < 8,
{
    assert((w >> 3u32) & 7u32 == (w / 8u32) % 8u32) by (bit_vector);
    ((w >> 3u32) & 7u32) as usize
}

pub fn field_c(w: u32) -> (r: usize)
    ensures
        r as nat == field_c_of(w),
        r < 8,
{
    assert(w & 7u32 == w % 8u32) by (bit_vector);
    (w & 7u32) as usize
}

pub fn literal_reg(w: u32) -> (r: usize)
    ensures
        r as nat == literal_reg_of(w),
        r < 8,
{
    assert((w >> 25u32) & 7u32 == (w / 0x200_0000u32) % 8u32) by (bit_vector);
    ((w >> 25u32) & 7u32) as usize
}

pub fn literal_value(w: u32) -> (r: u32)
    ensures
        r as nat == literal_value_of(w),
        r < 0x200_0000,
{
    assert(w & 0x1FF_FFFFu32 == w % 0x200_0000u32) by (bit_vector);
    w & 0x1FF_FFFFu32
}

} // verus!
