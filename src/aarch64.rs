//! The AArch64 backend. The accumulator lives in `x0`; `x1` holds the
//! constant two and `x2` a zero addend.
use vstd::prelude::*;
use crate::insn::Insn;

verus! {

/// The four bytes of an instruction word, least significant first.
pub open spec fn le_bytes(w: u32) -> Seq<u8> {
    seq![
        (w % 0x100) as u8,
        ((w / 0x100) % 0x100) as u8,
        ((w / 0x1_0000) % 0x100) as u8,
        (w / 0x100_0000) as u8,
    ]
}

/// Lays out an instruction word in memory, least significant byte first.
fn arm_u32_insn_to_bytes(encoded: u32) -> (r: Vec<u8>)
    ensures
        r@ == le_bytes(encoded),
{
    proof {
        assert(encoded & 0xff == encoded % 0x100) by (bit_vector);
        assert((encoded & 0xff00) >> 8 == (encoded / 0x100) % 0x100) by (bit_vector);
        assert((encoded & 0xff0000) >> 16 == (encoded / 0x1_0000) % 0x100) by (bit_vector);
        assert((encoded & 0xff000000) >> 24 == encoded / 0x100_0000) by (bit_vector);
    }
    let r = vec![
        (encoded & 0xff) as u8,
        ((encoded & 0xff00) >> 8) as u8,
        ((encoded & 0xff0000) >> 16) as u8,
        ((encoded & 0xff000000) >> 24) as u8,
    ];
    assert(r@ =~= le_bytes(encoded));
    r
}

/// MOVZ w0, 0 (writing `w0` clears the upper half of `x0`).
fn reset_accum() -> (r: Vec<u8>)
    ensures
        r@ == le_bytes(0x5280_0000),
{
    arm_u32_insn_to_bytes(0x52800000)
}

/// RET x30.
fn func_return() -> (r: Vec<u8>)
    ensures
        r@ == le_bytes(0xD65F_03C0),
{
    assert(0xD65F0000u32 | (30u32 << 5u32) == 0xD65F03C0u32) by (bit_vector);
    arm_u32_insn_to_bytes(0xD65F0000 | (30 << 5))
}

/// ADDS x0, x0, 1.
fn incr() -> (r: Vec<u8>)
    ensures
        r@ == le_bytes(0xB100_0400),
{
    assert(0xB1000000u32 | (0x01u32 << 10u32) == 0xB1000400u32) by (bit_vector);
    arm_u32_insn_to_bytes(0xB1000000 | (0x01 << 10))
}

/// SUBS x0, x0, 1.
fn decr() -> (r: Vec<u8>)
    ensures
        r@ == le_bytes(0xF100_0400),
{
    assert(0xF1000000u32 | (0x01u32 << 10u32) == 0xF1000400u32) by (bit_vector);
    arm_u32_insn_to_bytes(0xF1000000 | (0x01 << 10))
}

/// MOVZ w1, 2 (writing `w1` clears the upper half of `x1`).
fn load_two_into_x1() -> (r: Vec<u8>)
    ensures
        r@ == le_bytes(0x5280_0041),
{
    assert(0x52800000u32 | (0x02u32 << 5u32) | 0x01u32 == 0x52800041u32) by (bit_vector);
    arm_u32_insn_to_bytes(0x52800000 | (0x02 << 5) | 0x01)
}

/// MOVZ w1, 2; MOVZ w2, 0; MADD x0, x0, x1, x2.
fn double() -> (r: Vec<u8>)
    ensures
        r@ == le_bytes(0x5280_0041) + le_bytes(0x5280_0002) + le_bytes(0x9B01_0800),
{
    let mut insns = load_two_into_x1();
    assert(0x52800000u32 | 0x02u32 == 0x52800002u32) by (bit_vector);
    let mut zero = arm_u32_insn_to_bytes(0x52800000 | 0x02);
    insns.append(&mut zero);
    assert(0x9B000000u32 | (0x01u32 << 16u32) | (0x02u32 << 10u32) == 0x9B010800u32)
        by (bit_vector);
    let mut madd = arm_u32_insn_to_bytes(0x9B000000 | (0x01 << 16) | (0x02 << 10));
    insns.append(&mut madd);
    insns
}

/// MOVZ w1, 2; SDIV x0, x0, x1 (rounds toward zero).
fn halve() -> (r: Vec<u8>)
    ensures
        r@ == le_bytes(0x5280_0041) + le_bytes(0x9AC1_0C00),
{
    let mut insns = load_two_into_x1();
    assert(0x9AC00C00u32 | (0x01u32 << 16u32) == 0x9AC10C00u32) by (bit_vector);
    let mut sdiv = arm_u32_insn_to_bytes(0x9AC00C00 | (0x01 << 16));
    insns.append(&mut sdiv);
    insns
}

/// The AArch64 machine code for one instruction.
pub open spec fn a64_bytes(insn: Insn) -> Seq<u8> {
    match insn {
        Insn::Reset => le_bytes(0x5280_0000),
        Insn::Return => le_bytes(0xD65F_03C0),
        Insn::Incr => le_bytes(0xB100_0400),
        Insn::Decr => le_bytes(0xF100_0400),
        Insn::Double => le_bytes(0x5280_0041) + le_bytes(0x5280_0002) + le_bytes(0x9B01_0800),
        Insn::Halve => le_bytes(0x5280_0041) + le_bytes(0x9AC1_0C00),
    }
}

/// The AArch64 machine code for one instruction.
pub fn native_insns(insn: &Insn) -> (r: Vec<u8>)
    ensures
        r@ == a64_bytes(*insn),
{
    match insn {
        Insn::Reset => reset_accum(),
        Insn::Return => func_return(),
        Insn::Incr => incr(),
        Insn::Decr => decr(),
        Insn::Double => double(),
        Insn::Halve => halve(),
    }
}

} // verus!
