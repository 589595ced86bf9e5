use calcjit::codegen::{jit, X86_64};
use calcjit::insn::Insn;
use calcjit::region::{load, ExecError};

#[test]
fn load_holds_the_code() {
    let code = jit::<X86_64>(&vec![
        Insn::Incr,
        Insn::Double,
        Insn::Double,
        Insn::Double,
        Insn::Decr,
        Insn::Decr,
        Insn::Halve,
    ]);
    let region = load(&code).expect("mmap failure.");
    assert_eq!(region.code(), &code[..]);
    assert_eq!(region.mapping().size(), code.len());
}

#[test]
fn load_single_byte() {
    let region = load(&vec![0xC3]).expect("mmap failure.");
    assert_eq!(region.code(), &[0xC3]);
}

#[test]
fn load_empty_code_fails_to_allocate() {
    assert!(matches!(load(&Vec::new()), Err(ExecError::Allocation(_))));
}
