//! The x86-64 backend. The accumulator lives in `rax`, `rcx` is the scratch
//! register, and `rdx` takes the high half of products and dividends.
use vstd::prelude::*;
use crate::insn::Insn;

verus! {

/// A flag bit of the REX prefix byte (`0100WRXB`).
#[derive(PartialEq, Eq, Debug, Clone, Copy, Structural)]
pub enum Rex {
    /// 64-bit operand size.
    W,
    /// Extension of the ModRM `reg` field.
    R,
    /// Extension of the SIB `index` field.
    X,
    /// Extension of the ModRM `r/m` field or the SIB `base` field.
    B,
}

/// `bit` when `on` holds, else zero.
pub open spec fn flag(on: bool, bit: u8) -> u8 {
    if on {
        bit
    } else {
        0
    }
}

/// The REX byte with the fixed high nibble `0100` and each flag set that
/// `opts` names.
pub open spec fn rex_byte(opts: Seq<Rex>) -> u8 {
    0x40u8 | flag(opts.contains(Rex::W), 0x08) | flag(opts.contains(Rex::R), 0x04) | flag(
        opts.contains(Rex::X),
        0x02,
    ) | flag(opts.contains(Rex::B), 0x01)
}

/// A field of the ModRM byte (`mm rrr bbb`).
#[derive(PartialEq, Eq, Debug, Clone, Copy, Structural)]
pub enum ModRM {
    /// The addressing mode: two bits at the top.
    Mod(u8),
    /// The register operand or opcode extension: three bits in the middle.
    Reg(u8),
    /// The register or memory operand: three bits at the bottom.
    RM(u8),
}

/// The bits that one field contributes; a value wider than its field is
/// cut to the field's width.
pub open spec fn field_bits(p: ModRM) -> u8 {
    match p {
        ModRM::Mod(m) => ((m & 0x03) << 6u8) as u8,
        ModRM::Reg(r) => ((r & 0x07) << 3u8) as u8,
        ModRM::RM(b) => b & 0x07,
    }
}

/// The ModRM byte made of the first `n` fields of `parts`; fields left out
/// are zero.
pub open spec fn modrm_upto(parts: Seq<ModRM>, n: nat) -> u8
    decreases n,
{
    if n == 0 {
        0
    } else {
        modrm_upto(parts, (n - 1) as nat) | field_bits(parts[n - 1])
    }
}

/// The ModRM byte made of all of `parts`.
pub open spec fn modrm_byte(parts: Seq<ModRM>) -> u8 {
    modrm_upto(parts, parts.len())
}

proof fn lemma_rex_flags(w: bool, r: bool, x: bool, b: bool)
    ensures
        0x40u8 | flag(w, 8) | flag(r, 4) | flag(x, 2) | flag(b, 1) | 0x08u8 == 0x40u8 | flag(true, 8)
            | flag(r, 4) | flag(x, 2) | flag(b, 1),
        0x40u8 | flag(w, 8) | flag(r, 4) | flag(x, 2) | flag(b, 1) | 0x04u8 == 0x40u8 | flag(w, 8)
            | flag(true, 4) | flag(x, 2) | flag(b, 1),
        0x40u8 | flag(w, 8) | flag(r, 4) | flag(x, 2) | flag(b, 1) | 0x02u8 == 0x40u8 | flag(w, 8)
            | flag(r, 4) | flag(true, 2) | flag(b, 1),
        0x40u8 | flag(w, 8) | flag(r, 4) | flag(x, 2) | flag(b, 1) | 0x01u8 == 0x40u8 | flag(w, 8)
            | flag(r, 4) | flag(x, 2) | flag(true, 1),
{
    assert(0x40u8 | flag(w, 8) | flag(r, 4) | flag(x, 2) | flag(b, 1) | 0x08u8 == 0x40u8 | flag(
        true,
        8,
    ) | flag(r, 4) | flag(x, 2) | flag(b, 1)) by (bit_vector);
    assert(0x40u8 | flag(w, 8) | flag(r, 4) | flag(x, 2) | flag(b, 1) | 0x04u8 == 0x40u8 | flag(
        w,
        8,
    ) | flag(true, 4) | flag(x, 2) | flag(b, 1)) by (bit_vector);
    assert(0x40u8 | flag(w, 8) | flag(r, 4) | flag(x, 2) | flag(b, 1) | 0x02u8 == 0x40u8 | flag(
        w,
        8,
    ) | flag(r, 4) | flag(true, 2) | flag(b, 1)) by (bit_vector);
    assert(0x40u8 | flag(w, 8) | flag(r, 4) | flag(x, 2) | flag(b, 1) | 0x01u8 == 0x40u8 | flag(
        w,
        8,
    ) | flag(r, 4) | flag(x, 2) | flag(true, 1)) by (bit_vector);
}

/// Builds a REX prefix byte with the given flags set.
pub fn rex(opts: &[Rex]) -> (r: u8)
    ensures
        r == rex_byte(opts@),
{
    let mut rex: u8 = 0b01000000;
    let mut i: usize = 0;
    proof {
        assert(opts@.take(0) =~= Seq::<Rex>::empty());
        assert(0x40u8 | 0u8 | 0u8 | 0u8 | 0u8 == 0x40u8) by (bit_vector);
    }
    while i < opts.len()
        invariant
            i <= opts@.len(),
            rex == rex_byte(opts@.take(i as int)),
        decreases opts@.len() - i,
    {
        let opt = opts[i];
        let ghost pre = opts@.take(i as int);
        let ghost post = opts@.take(i + 1);
        proof {
            assert(post =~= pre.push(opt));
            assert forall|o: Rex| post.contains(o) == (pre.contains(o) || o == opt) by {
                if post.contains(o) {
                    let k = choose|k: int| 0 <= k < post.len() && post[k] == o;
                    if k < pre.len() {
                        assert(pre[k] == o);
                    }
                }
                if pre.contains(o) {
                    let k = choose|k: int| 0 <= k < pre.len() && pre[k] == o;
                    assert(post[k] == o);
                }
                if o == opt {
                    assert(post[pre.len() as int] == o);
                }
            }
            lemma_rex_flags(
                pre.contains(Rex::W),
                pre.contains(Rex::R),
                pre.contains(Rex::X),
                pre.contains(Rex::B),
            );
        }
        let bit: u8 = match opt {
            Rex::W => 0x08,
            Rex::R => 0x04,
            Rex::X => 0x02,
            Rex::B => 0x01,
        };
        rex = rex | bit;
        i = i + 1;
    }
    proof {
        assert(opts@.take(opts@.len() as int) =~= opts@);
    }
    rex
}

/// Builds a ModRM byte from the given fields; each is cut to its width.
pub fn modrm(parts: &[ModRM]) -> (r: u8)
    ensures
        r == modrm_byte(parts@),
{
    let mut modrm: u8 = 0x0;
    let mut i: usize = 0;
    while i < parts.len()
        invariant
            i <= parts@.len(),
            modrm == modrm_upto(parts@, i as nat),
        decreases parts@.len() - i,
    {
        match parts[i] {
            ModRM::Mod(m) => {
                modrm = modrm | ((m & 0b00000011) << 6u8);
            },
            ModRM::Reg(r) => {
                modrm = modrm | ((r & 0b00000111) << 3u8);
            },
            ModRM::RM(b) => {
                modrm = modrm | (b & 0b00000111);
            },
        }
        i = i + 1;
    }
    modrm
}

proof fn lemma_field_bits()
    ensures
        field_bits(ModRM::Mod(3)) == 0xC0u8,
        field_bits(ModRM::Reg(0)) == 0u8,
        field_bits(ModRM::Reg(5)) == 0x28u8,
        field_bits(ModRM::Reg(7)) == 0x38u8,
        field_bits(ModRM::RM(0)) == 0u8,
        field_bits(ModRM::RM(1)) == 1u8,
{
    assert((3u8 & 0x03u8) << 6u8 == 0xC0u8) by (bit_vector);
    assert((0u8 & 0x07u8) << 3u8 == 0u8) by (bit_vector);
    assert((5u8 & 0x07u8) << 3u8 == 0x28u8) by (bit_vector);
    assert((7u8 & 0x07u8) << 3u8 == 0x38u8) by (bit_vector);
    assert(0u8 & 0x07u8 == 0u8) by (bit_vector);
    assert(1u8 & 0x07u8 == 1u8) by (bit_vector);
}

proof fn lemma_rex_w()
    ensures
        rex_byte(seq![Rex::W]) == 0x48u8,
{
    let s = seq![Rex::W];
    assert(s[0] == Rex::W);
    assert(s.contains(Rex::W));
    assert(!s.contains(Rex::R));
    assert(!s.contains(Rex::X));
    assert(!s.contains(Rex::B));
    assert(0x40u8 | 0x08u8 | 0u8 | 0u8 | 0u8 == 0x48u8) by (bit_vector);
}

/// XOR rax, rax (`REX.W 31 /r`).
fn reset_accum() -> (r: Vec<u8>)
    ensures
        r@ == seq![0x48u8, 0x31, 0xC0],
{
    let opts = [Rex::W];
    let parts = [ModRM::Mod(0x3), ModRM::Reg(0x00)];
    let w = rex(&opts);
    let m = modrm(&parts);
    proof {
        assert(opts@ =~= seq![Rex::W]);
        assert(parts@ =~= seq![ModRM::Mod(0x3), ModRM::Reg(0x00)]);
        lemma_rex_w();
        lemma_field_bits();
        reveal_with_fuel(modrm_upto, 3);
        assert(0u8 | 0xC0u8 | 0u8 == 0xC0u8) by (bit_vector);
        assert(w == 0x48u8);
        assert(m == 0xC0u8);
    }
    let r = vec![w, 0x31, m];
    assert(r@ =~= seq![0x48u8, 0x31, 0xC0]);
    r
}

/// RET (`C3`).
fn func_return() -> (r: Vec<u8>)
    ensures
        r@ == seq![0xC3u8],
{
    let r = vec![0xC3];
    assert(r@ =~= seq![0xC3u8]);
    r
}

/// ADD rax, 1 (`REX.W 83 /0 ib`).
fn incr() -> (r: Vec<u8>)
    ensures
        r@ == seq![0x48u8, 0x83, 0xC0, 0x01],
{
    let opts = [Rex::W];
    let parts = [ModRM::Mod(0x3)];
    let w = rex(&opts);
    let m = modrm(&parts);
    proof {
        assert(opts@ =~= seq![Rex::W]);
        assert(parts@ =~= seq![ModRM::Mod(0x3)]);
        lemma_rex_w();
        lemma_field_bits();
        reveal_with_fuel(modrm_upto, 2);
        assert(0u8 | 0xC0u8 == 0xC0u8) by (bit_vector);
    }
    let r = vec![w, 0x83, m, 0x01];
    assert(r@ =~= seq![0x48u8, 0x83, 0xC0, 0x01]);
    r
}

/// SUB rax, 1 (`REX.W 81 /5 id`).
fn decr() -> (r: Vec<u8>)
    ensures
        r@ == seq![0x48u8, 0x81, 0xE8, 0x01, 0x00, 0x00, 0x00],
{
    let opts = [Rex::W];
    let parts = [ModRM::Mod(0x3), ModRM::Reg(0x05), ModRM::RM(0x00)];
    let w = rex(&opts);
    let m = modrm(&parts);
    proof {
        assert(opts@ =~= seq![Rex::W]);
        assert(parts@ =~= seq![ModRM::Mod(0x3), ModRM::Reg(0x05), ModRM::RM(0x00)]);
        lemma_rex_w();
        lemma_field_bits();
        reveal_with_fuel(modrm_upto, 4);
        assert(0u8 | 0xC0u8 | 0x28u8 | 0u8 == 0xE8u8) by (bit_vector);
    }
    let r = vec![w, 0x81, m, 0x01, 0x00, 0x00, 0x00];
    assert(r@ =~= seq![0x48u8, 0x81, 0xE8, 0x01, 0x00, 0x00, 0x00]);
    r
}

/// MOV rcx, 2 (`REX.W C7 /0 id`).
fn load_two_into_rcx() -> (r: Vec<u8>)
    ensures
        r@ == seq![0x48u8, 0xC7, 0xC1, 0x02, 0x00, 0x00, 0x00],
{
    let opts = [Rex::W];
    let parts = [ModRM::Mod(0x3), ModRM::RM(0x01)];
    let w = rex(&opts);
    let m = modrm(&parts);
    proof {
        assert(opts@ =~= seq![Rex::W]);
        assert(parts@ =~= seq![ModRM::Mod(0x3), ModRM::RM(0x01)]);
        lemma_rex_w();
        lemma_field_bits();
        reveal_with_fuel(modrm_upto, 3);
        assert(0u8 | 0xC0u8 | 1u8 == 0xC1u8) by (bit_vector);
    }
    let r = vec![w, 0xC7, m, 0x02, 0x00, 0x00, 0x00];
    assert(r@ =~= seq![0x48u8, 0xC7, 0xC1, 0x02, 0x00, 0x00, 0x00]);
    r
}

/// MOV rcx, 2, then IMUL rcx (`REX.W F7 /5`): `rdx:rax` becomes `rax * rcx`.
fn double() -> (r: Vec<u8>)
    ensures
        r@ == seq![0x48u8, 0xC7, 0xC1, 0x02, 0x00, 0x00, 0x00, 0x48, 0xF7, 0xE9],
{
    let mut insns = load_two_into_rcx();
    let opts = [Rex::W];
    let parts = [ModRM::Mod(0x3), ModRM::Reg(0x05), ModRM::RM(0x01)];
    let w = rex(&opts);
    let m = modrm(&parts);
    proof {
        assert(opts@ =~= seq![Rex::W]);
        assert(parts@ =~= seq![ModRM::Mod(0x3), ModRM::Reg(0x05), ModRM::RM(0x01)]);
        lemma_rex_w();
        lemma_field_bits();
        reveal_with_fuel(modrm_upto, 4);
        assert(0u8 | 0xC0u8 | 0x28u8 | 1u8 == 0xE9u8) by (bit_vector);
    }
    insns.push(w);
    insns.push(0xF7);
    insns.push(m);
    assert(insns@ =~= seq![0x48u8, 0xC7, 0xC1, 0x02, 0x00, 0x00, 0x00, 0x48, 0xF7, 0xE9]);
    insns
}

/// MOV rcx, 2, then CQO (`REX.W 99`), which fills `rdx` with the sign of
/// `rax`, then IDIV rcx (`REX.W F7 /7`): `rax` becomes the quotient of
/// `rdx:rax` by `rcx`, rounded toward zero.
fn halve() -> (r: Vec<u8>)
    ensures
        r@ == seq![0x48u8, 0xC7, 0xC1, 0x02, 0x00, 0x00, 0x00, 0x48, 0x99, 0x48, 0xF7, 0xF9],
{
    let mut insns = load_two_into_rcx();
    let opts = [Rex::W];
    let parts = [ModRM::Mod(0x3), ModRM::Reg(0x07), ModRM::RM(0x01)];
    let w = rex(&opts);
    let m = modrm(&parts);
    proof {
        assert(opts@ =~= seq![Rex::W]);
        assert(parts@ =~= seq![ModRM::Mod(0x3), ModRM::Reg(0x07), ModRM::RM(0x01)]);
        lemma_rex_w();
        lemma_field_bits();
        reveal_with_fuel(modrm_upto, 4);
        assert(0u8 | 0xC0u8 | 0x38u8 | 1u8 == 0xF9u8) by (bit_vector);
    }
    insns.push(w);
    insns.push(0x99);
    insns.push(w);
    insns.push(0xF7);
    insns.push(m);
    assert(insns@ =~= seq![0x48u8, 0xC7, 0xC1, 0x02, 0x00, 0x00, 0x00, 0x48, 0x99, 0x48, 0xF7, 0xF9]);
    insns
}

/// The x86-64 machine code for one instruction.
pub open spec fn x86_bytes(insn: Insn) -> Seq<u8> {
    match insn {
        Insn::Reset => seq![0x48u8, 0x31, 0xC0],
        Insn::Return => seq![0xC3u8],
        Insn::Incr => seq![0x48u8, 0x83, 0xC0, 0x01],
        Insn::Decr => seq![0x48u8, 0x81, 0xE8, 0x01, 0x00, 0x00, 0x00],
        Insn::Double => seq![0x48u8, 0xC7, 0xC1, 0x02, 0x00, 0x00, 0x00, 0x48, 0xF7, 0xE9],
        Insn::Halve => seq![
            0x48u8, 0xC7, 0xC1, 0x02, 0x00, 0x00, 0x00, 0x48, 0x99, 0x48, 0xF7, 0xF9,
        ],
    }
}

/// The x86-64 machine code for one instruction.
pub fn native_insns(insn: &Insn) -> (r: Vec<u8>)
    ensures
        r@ == x86_bytes(*insn),
{
    match insn {
        Insn::Reset => reset_accum(),
        Insn::Return => func_return(),
        Insn::Incr => incr(),
        Insn::Decr => decr(),
        Insn::Double => double(),
        Insn::Halve => halve(),
    }
}

} // verus!
