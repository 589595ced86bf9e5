//! What the generated code computes. For each backend this models the
//! fragment of the instruction set that it emits, decoded from the bytes
//! themselves, over the three registers that the code touches, and proves
//! that the code of a program returns the program's value.
use vstd::prelude::*;
use crate::insn::{Insn, half, run_from, stays_within, step, value};
use crate::codegen::{Aarch64, Backend, X86_64, body_bytes, generated, lemma_body_concat};
use crate::x86_64::x86_bytes;
use crate::aarch64::{a64_bytes, le_bytes};

verus! {

/// 2 to the 64th.
pub open spec fn two64() -> int {
    0x1_0000_0000_0000_0000
}

/// A 64-bit register holds this value: the integer congruent to `x` modulo
/// 2^64 in the signed range.
pub open spec fn wrap64(x: int) -> int {
    (x + 0x8000_0000_0000_0000) % two64() - 0x8000_0000_0000_0000
}

/// Whether `x` fits a signed 64-bit register.
pub open spec fn fits64(x: int) -> bool {
    i64::MIN <= x <= i64::MAX
}

/// A byte read as a signed 8-bit immediate.
pub open spec fn sext8(b: u8) -> int {
    if b < 0x80 {
        b as int
    } else {
        b - 0x100
    }
}

/// Four bytes of `code` from `k` on, least significant first, read as a
/// signed 32-bit immediate.
pub open spec fn imm32(code: Seq<u8>, k: int) -> int {
    let v = code[k] + 0x100 * code[k + 1] + 0x1_0000 * code[k + 2] + 0x100_0000 * code[k + 3];
    if v < 0x8000_0000 {
        v
    } else {
        v - 0x1_0000_0000
    }
}

/// Signed division that rounds toward zero, as IDIV does.
pub open spec fn tdiv(a: int, b: int) -> int {
    let q = abs(a) / abs(b);
    if (a < 0) != (b < 0) {
        -q
    } else {
        q
    }
}

/// The absolute value of `a`.
pub open spec fn abs(a: int) -> int {
    if a < 0 {
        -a
    } else {
        a
    }
}

/// The registers `rax`, `rcx` and `rdx`, as signed values.
pub type Regs = (int, int, int);

/// What running `code` from `r` returns: `Some` of `rax` at the first RET,
/// `None` where the code holds an instruction outside the fragment or
/// faults (a division by zero or a quotient that does not fit).
pub open spec fn x86_exec(r: Regs, code: Seq<u8>) -> Option<int>
    decreases code.len(),
{
    let (rax, rcx, rdx) = r;
    if code.len() >= 1 && code[0] == 0xC3 {
        // RET
        Some(rax)
    } else if code.len() >= 3 && code[0] == 0x48 && code[1] == 0x31 && code[2] == 0xC0 {
        // XOR rax, rax
        x86_exec((0, rcx, rdx), code.skip(3))
    } else if code.len() >= 4 && code[0] == 0x48 && code[1] == 0x83 && code[2] == 0xC0 {
        // ADD rax, imm8
        x86_exec((wrap64(rax + sext8(code[3])), rcx, rdx), code.skip(4))
    } else if code.len() >= 7 && code[0] == 0x48 && code[1] == 0x81 && code[2] == 0xE8 {
        // SUB rax, imm32
        x86_exec((wrap64(rax - imm32(code, 3)), rcx, rdx), code.skip(7))
    } else if code.len() >= 7 && code[0] == 0x48 && code[1] == 0xC7 && code[2] == 0xC1 {
        // MOV rcx, imm32
        x86_exec((rax, imm32(code, 3), rdx), code.skip(7))
    } else if code.len() >= 3 && code[0] == 0x48 && code[1] == 0xF7 && code[2] == 0xE9 {
        // IMUL rcx: rdx:rax = rax * rcx
        let p = rax * rcx;
        x86_exec((wrap64(p), rcx, p / two64()), code.skip(3))
    } else if code.len() >= 2 && code[0] == 0x48 && code[1] == 0x99 {
        // CQO: rdx = the sign of rax
        x86_exec((rax, rcx, if rax < 0 { -1 } else { 0 }), code.skip(2))
    } else if code.len() >= 3 && code[0] == 0x48 && code[1] == 0xF7 && code[2] == 0xF9 {
        // IDIV rcx: rax = rdx:rax / rcx, rdx = the remainder
        let n = rdx * two64() + rax % two64();
        if rcx == 0 || !fits64(tdiv(n, rcx)) {
            None
        } else {
            let q = tdiv(n, rcx);
            x86_exec((q, rcx, n - q * rcx), code.skip(3))
        }
    } else {
        None
    }
}

/// The registers after the code of one instruction other than `Return`.
pub open spec fn x86_after(r: Regs, i: Insn) -> Regs {
    let (rax, rcx, rdx) = r;
    match i {
        Insn::Reset => (0, rcx, rdx),
        Insn::Incr => (rax + 1, rcx, rdx),
        Insn::Decr => (rax - 1, rcx, rdx),
        Insn::Double => (rax * 2, 2, (rax * 2) / two64()),
        Insn::Halve => (half(rax), 2, rax - half(rax) * 2),
        Insn::Return => r,
    }
}

proof fn lemma_wrap_fits(x: int)
    requires
        fits64(x),
    ensures
        wrap64(x) == x,
{
    assert(0 <= x + 0x8000_0000_0000_0000 < two64());
    vstd::arithmetic::div_mod::lemma_small_mod(
        (x + 0x8000_0000_0000_0000) as nat,
        two64() as nat,
    );
}

proof fn lemma_x86_reset(r: Regs, tail: Seq<u8>)
    ensures
        x86_exec(r, x86_bytes(Insn::Reset) + tail) == x86_exec(x86_after(r, Insn::Reset), tail),
{
    let code = x86_bytes(Insn::Reset) + tail;
    assert(code.skip(3) =~= tail);
}

proof fn lemma_x86_incr(r: Regs, tail: Seq<u8>)
    requires
        fits64(r.0 + 1),
    ensures
        x86_exec(r, x86_bytes(Insn::Incr) + tail) == x86_exec(x86_after(r, Insn::Incr), tail),
{
    let code = x86_bytes(Insn::Incr) + tail;
    assert(code.skip(4) =~= tail);
    assert(sext8(code[3]) == 1);
    lemma_wrap_fits(r.0 + 1);
}

proof fn lemma_x86_decr(r: Regs, tail: Seq<u8>)
    requires
        fits64(r.0 - 1),
    ensures
        x86_exec(r, x86_bytes(Insn::Decr) + tail) == x86_exec(x86_after(r, Insn::Decr), tail),
{
    let code = x86_bytes(Insn::Decr) + tail;
    assert(code.skip(7) =~= tail);
    assert(imm32(code, 3) == 1);
    lemma_wrap_fits(r.0 - 1);
}

proof fn lemma_x86_double(r: Regs, tail: Seq<u8>)
    requires
        fits64(r.0 * 2),
    ensures
        x86_exec(r, x86_bytes(Insn::Double) + tail) == x86_exec(x86_after(r, Insn::Double), tail),
{
    let code = x86_bytes(Insn::Double) + tail;
    let (rax, rcx, rdx) = r;
    let mid = code.skip(7);
    assert(mid =~= seq![0x48u8, 0xF7, 0xE9] + tail);
    assert(imm32(code, 3) == 2);
    assert(mid.skip(3) =~= tail);
    lemma_wrap_fits(rax * 2);
    assert(x86_exec(r, code) == x86_exec((rax, 2, rdx), mid));
}

proof fn lemma_x86_halve(r: Regs, tail: Seq<u8>)
    requires
        fits64(r.0),
    ensures
        x86_exec(r, x86_bytes(Insn::Halve) + tail) == x86_exec(x86_after(r, Insn::Halve), tail),
{
    let code = x86_bytes(Insn::Halve) + tail;
    let (rax, rcx, rdx) = r;
    let mid = code.skip(7);
    let mid2 = mid.skip(2);
    assert(mid =~= seq![0x48u8, 0x99, 0x48, 0xF7, 0xF9] + tail);
    assert(mid2 =~= seq![0x48u8, 0xF7, 0xF9] + tail);
    assert(mid2.skip(3) =~= tail);
    assert(imm32(code, 3) == 2);
    let sign = if rax < 0 {
        -1int
    } else {
        0int
    };
    assert(x86_exec(r, code) == x86_exec((rax, 2, rdx), mid));
    assert(x86_exec((rax, 2, rdx), mid) == x86_exec((rax, 2, sign), mid2));
    let n = sign * two64() + rax % two64();
    if rax < 0 {
        vstd::arithmetic::div_mod::lemma_small_mod((rax + two64()) as nat, two64() as nat);
        vstd::arithmetic::div_mod::lemma_mod_add_multiples_vanish(rax, two64());
    } else {
        vstd::arithmetic::div_mod::lemma_small_mod(rax as nat, two64() as nat);
    }
    assert(n == rax);
    assert(tdiv(n, 2) == half(rax));
}

/// The code of one instruction other than `Return`, followed by any code,
/// runs as that code run from the registers the instruction leaves.
proof fn lemma_x86_insn(r: Regs, i: Insn, tail: Seq<u8>)
    requires
        i != Insn::Return,
        i != Insn::Reset ==> fits64(r.0),
        fits64(step(r.0, i)),
    ensures
        x86_exec(r, x86_bytes(i) + tail) == x86_exec(x86_after(r, i), tail),
        x86_after(r, i).0 == step(r.0, i),
{
    match i {
        Insn::Reset => lemma_x86_reset(r, tail),
        Insn::Incr => lemma_x86_incr(r, tail),
        Insn::Decr => lemma_x86_decr(r, tail),
        Insn::Double => lemma_x86_double(r, tail),
        Insn::Halve => lemma_x86_halve(r, tail),
        Insn::Return => {},
    }
}

/// From registers whose `rax` is the accumulator, the code of the program
/// `s` followed by a RET returns what the program computes.
proof fn lemma_x86_body(r: Regs, s: Seq<Insn>)
    requires
        fits64(r.0),
        stays_within(r.0, s, i64::MIN as int, i64::MAX as int),
    ensures
        x86_exec(r, body_bytes::<X86_64>(s) + X86_64::insn_bytes(Insn::Return)) == Some(
            run_from(r.0, s),
        ),
    decreases s.len(),
{
    let ret = X86_64::insn_bytes(Insn::Return);
    if s.len() == 0 {
        assert(body_bytes::<X86_64>(s) + ret =~= ret);
    } else {
        let first = seq![s[0]];
        let rest = s.drop_first();
        assert(first + rest =~= s);
        lemma_body_concat::<X86_64>(first, rest);
        assert(first.drop_last() =~= Seq::<Insn>::empty());
        reveal_with_fuel(body_bytes, 2);
        assert(body_bytes::<X86_64>(first) =~= x86_bytes(s[0]));
        let tail = body_bytes::<X86_64>(rest) + ret;
        assert(body_bytes::<X86_64>(s) + ret =~= x86_bytes(s[0]) + tail);
        if s[0] == Insn::Return {
            assert((x86_bytes(s[0]) + tail)[0] == 0xC3);
        } else {
            assert(stays_within(step(r.0, s[0]), rest, i64::MIN as int, i64::MAX as int));
            lemma_x86_insn(r, s[0], tail);
            lemma_x86_body(x86_after(r, s[0]), rest);
        }
    }
}

/// The x86-64 code of a program returns the program's value, whatever the
/// registers held on entry, for every program whose accumulator stays
/// within the signed 64-bit range.
pub proof fn lemma_x86_computes_value(s: Seq<Insn>, entry: Regs)
    requires
        stays_within(0, s, i64::MIN as int, i64::MAX as int),
    ensures
        x86_exec(entry, generated::<X86_64>(s)) == Some(value(s)),
{
    let reset = X86_64::insn_bytes(Insn::Reset);
    let tail = body_bytes::<X86_64>(s) + X86_64::insn_bytes(Insn::Return);
    assert(generated::<X86_64>(s) =~= reset + tail);
    lemma_x86_insn(entry, Insn::Reset, tail);
    lemma_x86_body(x86_after(entry, Insn::Reset), s);
}

/// The registers `x0`, `x1` and `x2`, as signed values.
pub type ArmRegs = (int, int, int);

/// The instruction word in the first four bytes of `code`, least
/// significant byte first.
pub open spec fn word_at(code: Seq<u8>) -> int {
    code[0] + 0x100 * code[1] + 0x1_0000 * code[2] + 0x100_0000 * code[3]
}

/// Register `n` of `r`, for the three registers that the model holds.
pub open spec fn reg(r: ArmRegs, n: int) -> int {
    if n == 0 {
        r.0
    } else if n == 1 {
        r.1
    } else {
        r.2
    }
}

/// `r` with register `n` set to `v`.
pub open spec fn set_reg(r: ArmRegs, n: int, v: int) -> ArmRegs {
    if n == 0 {
        (v, r.1, r.2)
    } else if n == 1 {
        (r.0, v, r.2)
    } else {
        (r.0, r.1, v)
    }
}

/// What running `code` from `r` returns: `Some` of `x0` at the first
/// `RET x30`, `None` where the code holds an instruction outside the
/// fragment or names a register other than `x0`, `x1` or `x2`.
pub open spec fn a64_exec(r: ArmRegs, code: Seq<u8>) -> Option<int>
    decreases code.len(),
{
    if code.len() < 4 {
        None
    } else {
        let w = word_at(code);
        let rd = w % 32;
        let rn = (w / 0x20) % 32;
        let ra = (w / 0x400) % 32;
        let rm = (w / 0x1_0000) % 32;
        let imm12 = (w / 0x400) % 0x1000;
        let imm16 = (w / 0x20) % 0x1_0000;
        let rest = code.skip(4);
        if w == 0xD65F_03C0 {
            // RET x30
            Some(r.0)
        } else if rd > 2 || rn > 2 && w / 0x20_0000 != 0x294 {
            None
        } else if w / 0x20_0000 == 0x294 {
            // MOVZ wd, imm16 (the upper half of xd is cleared)
            a64_exec(set_reg(r, rd, imm16), rest)
        } else if w / 0x40_0000 == 0x2C4 {
            // ADDS xd, xn, imm12
            a64_exec(set_reg(r, rd, wrap64(reg(r, rn) + imm12)), rest)
        } else if w / 0x40_0000 == 0x3C4 {
            // SUBS xd, xn, imm12
            a64_exec(set_reg(r, rd, wrap64(reg(r, rn) - imm12)), rest)
        } else if w / 0x20_0000 == 0x4D8 && (w / 0x8000) % 2 == 0 && rm <= 2 && ra <= 2 {
            // MADD xd, xn, xm, xa
            a64_exec(set_reg(r, rd, wrap64(reg(r, ra) + reg(r, rn) * reg(r, rm))), rest)
        } else if w / 0x20_0000 == 0x4D6 && (w / 0x400) % 64 == 3 && rm <= 2 {
            // SDIV xd, xn, xm (a zero divisor gives zero)
            let q = if reg(r, rm) == 0 {
                0
            } else {
                wrap64(tdiv(reg(r, rn), reg(r, rm)))
            };
            a64_exec(set_reg(r, rd, q), rest)
        } else {
            None
        }
    }
}

/// The registers after the code of one instruction other than `Return`.
pub open spec fn a64_after(r: ArmRegs, i: Insn) -> ArmRegs {
    match i {
        Insn::Reset => (0, r.1, r.2),
        Insn::Incr => (r.0 + 1, r.1, r.2),
        Insn::Decr => (r.0 - 1, r.1, r.2),
        Insn::Double => (r.0 * 2, 2, 0),
        Insn::Halve => (half(r.0), 2, r.2),
        Insn::Return => r,
    }
}

proof fn lemma_word(w: u32, tail: Seq<u8>)
    ensures
        word_at(le_bytes(w) + tail) == w,
        (le_bytes(w) + tail).skip(4) == tail,
{
    let code = le_bytes(w) + tail;
    assert(code.skip(4) =~= tail);
    let b0 = w % 0x100;
    let b1 = (w / 0x100) % 0x100;
    let b2 = (w / 0x1_0000) % 0x100;
    let b3 = w / 0x100_0000;
    assert(w == b0 + 0x100 * b1 + 0x1_0000 * b2 + 0x100_0000 * b3) by (bit_vector)
        requires
            b0 == w % 0x100,
            b1 == (w / 0x100) % 0x100,
            b2 == (w / 0x1_0000) % 0x100,
            b3 == w / 0x100_0000,
    ;
}

proof fn lemma_a64_reset(r: ArmRegs, tail: Seq<u8>)
    ensures
        a64_exec(r, a64_bytes(Insn::Reset) + tail) == a64_exec(a64_after(r, Insn::Reset), tail),
{
    lemma_word(0x5280_0000, tail);
}

proof fn lemma_a64_incr(r: ArmRegs, tail: Seq<u8>)
    requires
        fits64(r.0 + 1),
    ensures
        a64_exec(r, a64_bytes(Insn::Incr) + tail) == a64_exec(a64_after(r, Insn::Incr), tail),
{
    lemma_word(0xB100_0400, tail);
    lemma_wrap_fits(r.0 + 1);
}

proof fn lemma_a64_decr(r: ArmRegs, tail: Seq<u8>)
    requires
        fits64(r.0 - 1),
    ensures
        a64_exec(r, a64_bytes(Insn::Decr) + tail) == a64_exec(a64_after(r, Insn::Decr), tail),
{
    lemma_word(0xF100_0400, tail);
    lemma_wrap_fits(r.0 - 1);
}

proof fn lemma_a64_double(r: ArmRegs, tail: Seq<u8>)
    requires
        fits64(r.0 * 2),
    ensures
        a64_exec(r, a64_bytes(Insn::Double) + tail) == a64_exec(a64_after(r, Insn::Double), tail),
{
    let t2 = le_bytes(0x9B01_0800) + tail;
    let t1 = le_bytes(0x5280_0002) + t2;
    assert(a64_bytes(Insn::Double) + tail =~= le_bytes(0x5280_0041) + t1);
    lemma_word(0x5280_0041, t1);
    lemma_word(0x5280_0002, t2);
    lemma_word(0x9B01_0800, tail);
    lemma_wrap_fits(r.0 * 2);
    assert(a64_exec(r, le_bytes(0x5280_0041) + t1) == a64_exec((r.0, 2, r.2), t1));
    assert(a64_exec((r.0, 2, r.2), t1) == a64_exec((r.0, 2, 0), t2));
}

proof fn lemma_a64_halve(r: ArmRegs, tail: Seq<u8>)
    requires
        fits64(r.0),
    ensures
        a64_exec(r, a64_bytes(Insn::Halve) + tail) == a64_exec(a64_after(r, Insn::Halve), tail),
{
    let t1 = le_bytes(0x9AC1_0C00) + tail;
    assert(a64_bytes(Insn::Halve) + tail =~= le_bytes(0x5280_0041) + t1);
    lemma_word(0x5280_0041, t1);
    lemma_word(0x9AC1_0C00, tail);
    lemma_wrap_fits(half(r.0));
    assert(a64_exec(r, le_bytes(0x5280_0041) + t1) == a64_exec((r.0, 2, r.2), t1));
    assert(tdiv(r.0, 2) == half(r.0));
}

/// The code of one instruction other than `Return`, followed by any code,
/// runs as that code run from the registers the instruction leaves.
proof fn lemma_a64_insn(r: ArmRegs, i: Insn, tail: Seq<u8>)
    requires
        i != Insn::Return,
        i != Insn::Reset ==> fits64(r.0),
        fits64(step(r.0, i)),
    ensures
        a64_exec(r, a64_bytes(i) + tail) == a64_exec(a64_after(r, i), tail),
        a64_after(r, i).0 == step(r.0, i),
{
    match i {
        Insn::Reset => lemma_a64_reset(r, tail),
        Insn::Incr => lemma_a64_incr(r, tail),
        Insn::Decr => lemma_a64_decr(r, tail),
        Insn::Double => lemma_a64_double(r, tail),
        Insn::Halve => lemma_a64_halve(r, tail),
        Insn::Return => {},
    }
}

/// From registers whose `x0` is the accumulator, the code of the program
/// `s` followed by a RET returns what the program computes.
proof fn lemma_a64_body(r: ArmRegs, s: Seq<Insn>)
    requires
        fits64(r.0),
        stays_within(r.0, s, i64::MIN as int, i64::MAX as int),
    ensures
        a64_exec(r, body_bytes::<Aarch64>(s) + Aarch64::insn_bytes(Insn::Return)) == Some(
            run_from(r.0, s),
        ),
    decreases s.len(),
{
    let ret = Aarch64::insn_bytes(Insn::Return);
    if s.len() == 0 {
        assert(body_bytes::<Aarch64>(s) + ret =~= ret + Seq::<u8>::empty());
        lemma_word(0xD65F_03C0, Seq::<u8>::empty());
    } else {
        let first = seq![s[0]];
        let rest = s.drop_first();
        assert(first + rest =~= s);
        lemma_body_concat::<Aarch64>(first, rest);
        assert(first.drop_last() =~= Seq::<Insn>::empty());
        reveal_with_fuel(body_bytes, 2);
        assert(body_bytes::<Aarch64>(first) =~= a64_bytes(s[0]));
        let tail = body_bytes::<Aarch64>(rest) + ret;
        assert(body_bytes::<Aarch64>(s) + ret =~= a64_bytes(s[0]) + tail);
        if s[0] == Insn::Return {
            lemma_word(0xD65F_03C0, tail);
        } else {
            assert(stays_within(step(r.0, s[0]), rest, i64::MIN as int, i64::MAX as int));
            lemma_a64_insn(r, s[0], tail);
            lemma_a64_body(a64_after(r, s[0]), rest);
        }
    }
}

/// The AArch64 code of a program returns the program's value, whatever the
/// registers held on entry, for every program whose accumulator stays
/// within the signed 64-bit range.
pub proof fn lemma_a64_computes_value(s: Seq<Insn>, entry: ArmRegs)
    requires
        stays_within(0, s, i64::MIN as int, i64::MAX as int),
    ensures
        a64_exec(entry, generated::<Aarch64>(s)) == Some(value(s)),
{
    let reset = Aarch64::insn_bytes(Insn::Reset);
    let tail = body_bytes::<Aarch64>(s) + Aarch64::insn_bytes(Insn::Return);
    assert(generated::<Aarch64>(s) =~= reset + tail);
    lemma_a64_insn(entry, Insn::Reset, tail);
    lemma_a64_body(a64_after(entry, Insn::Reset), s);
}

} // verus!
