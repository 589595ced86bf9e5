//! A tiny accumulator language compiled to native machine code.
//!
//! `insn` holds the abstract instruction set, its tokenizer and its
//! reference interpreter; `x86_64` and `aarch64` are the two code
//! generation backends; `codegen` joins a program into one buffer of
//! machine code; `region` loads such a buffer into memory that passes
//! from writable to read-only to executable; `machine` models what the
//! generated code computes on each architecture and proves that it returns
//! what the interpreter does.

pub mod insn;
pub mod x86_64;
pub mod aarch64;
pub mod codegen;
pub mod region;
pub mod machine;
