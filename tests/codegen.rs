use calcjit::codegen::{jit, Aarch64, X86_64};
use calcjit::insn::Insn;
use calcjit::x86_64::{modrm, rex, ModRM, Rex};

#[test]
fn rex_flags() {
    assert_eq!(0x40, rex(&[]));
    assert_eq!(0x48, rex(&[Rex::W]));
    assert_eq!(0x4F, rex(&[Rex::W, Rex::R, Rex::X, Rex::B]));
    assert_eq!(0x45, rex(&[Rex::B, Rex::R, Rex::B]));
}

#[test]
fn modrm_fields() {
    assert_eq!(0x00, modrm(&[]));
    assert_eq!(0xC0, modrm(&[ModRM::Mod(3)]));
    assert_eq!(0xE8, modrm(&[ModRM::Mod(3), ModRM::Reg(5), ModRM::RM(0)]));
    assert_eq!(0xF9, modrm(&[ModRM::Mod(3), ModRM::Reg(7), ModRM::RM(1)]));
}

#[test]
fn modrm_cuts_wide_values() {
    assert_eq!(0xC0, modrm(&[ModRM::Mod(7)]));
    assert_eq!(0x08, modrm(&[ModRM::Reg(9)]));
    assert_eq!(0x01, modrm(&[ModRM::RM(9)]));
}

#[test]
fn x86_emitters() {
    let native_insns = calcjit::x86_64::native_insns;
    assert_eq!(native_insns(&Insn::Reset), vec![0x48, 0x31, 0xC0]);
    assert_eq!(native_insns(&Insn::Return), vec![0xC3]);
    assert_eq!(native_insns(&Insn::Incr), vec![0x48, 0x83, 0xC0, 0x01]);
    assert_eq!(native_insns(&Insn::Decr), vec![0x48, 0x81, 0xE8, 0x01, 0, 0, 0]);
    assert_eq!(
        native_insns(&Insn::Double),
        vec![0x48, 0xC7, 0xC1, 0x02, 0, 0, 0, 0x48, 0xF7, 0xE9]
    );
    assert_eq!(
        native_insns(&Insn::Halve),
        vec![0x48, 0xC7, 0xC1, 0x02, 0, 0, 0, 0x48, 0x99, 0x48, 0xF7, 0xF9]
    );
}

#[test]
fn aarch64_emitters() {
    let native_insns = calcjit::aarch64::native_insns;
    assert_eq!(native_insns(&Insn::Reset), vec![0x00, 0x00, 0x80, 0x52]);
    assert_eq!(native_insns(&Insn::Return), vec![0xC0, 0x03, 0x5F, 0xD6]);
    assert_eq!(native_insns(&Insn::Incr), vec![0x00, 0x04, 0x00, 0xB1]);
    assert_eq!(native_insns(&Insn::Decr), vec![0x00, 0x04, 0x00, 0xF1]);
    assert_eq!(
        native_insns(&Insn::Double),
        vec![0x41, 0x00, 0x80, 0x52, 0x02, 0x00, 0x80, 0x52, 0x00, 0x08, 0x01, 0x9B]
    );
    assert_eq!(
        native_insns(&Insn::Halve),
        vec![0x41, 0x00, 0x80, 0x52, 0x00, 0x0C, 0xC1, 0x9A]
    );
}

#[test]
fn jit_empty_program() {
    assert_eq!(jit::<X86_64>(&Vec::new()), vec![0x48, 0x31, 0xC0, 0xC3]);
    assert_eq!(
        jit::<Aarch64>(&Vec::new()),
        vec![0x00, 0x00, 0x80, 0x52, 0xC0, 0x03, 0x5F, 0xD6]
    );
}

#[test]
fn jit_wraps_program_in_reset_and_return() {
    let code = jit::<X86_64>(&vec![Insn::Incr, Insn::Double, Insn::Double]);
    let mut expected = vec![0x48, 0x31, 0xC0, 0x48, 0x83, 0xC0, 0x01];
    for _ in 0..2 {
        expected.extend([0x48, 0xC7, 0xC1, 0x02, 0, 0, 0, 0x48, 0xF7, 0xE9]);
    }
    expected.push(0xC3);
    assert_eq!(code, expected);
}

#[test]
fn jit_keeps_instruction_order() {
    let a = jit::<Aarch64>(&vec![Insn::Decr, Insn::Incr]);
    assert_eq!(
        a,
        vec![
            0x00, 0x00, 0x80, 0x52, 0x00, 0x04, 0x00, 0xF1, 0x00, 0x04, 0x00, 0xB1, 0xC0, 0x03,
            0x5F, 0xD6
        ]
    );
}

#[test]
fn jit_is_deterministic() {
    let program = vec![Insn::Decr, Insn::Double, Insn::Halve, Insn::Incr];
    assert_eq!(jit::<X86_64>(&program), jit::<X86_64>(&program));
    assert_eq!(jit::<Aarch64>(&program), jit::<Aarch64>(&program));
}
