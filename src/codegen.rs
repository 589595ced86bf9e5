//! Joins a program into one buffer of machine code for a chosen backend.
use vstd::prelude::*;
use crate::insn::Insn;
use crate::x86_64::x86_bytes;
use crate::aarch64::a64_bytes;

verus! {

/// What a code generation backend provides: the machine code of each
/// abstract instruction, for one target architecture.
pub trait Backend {
    /// The bytes that `emit` hands out for `insn`.
    spec fn insn_bytes(insn: Insn) -> Seq<u8>;

    /// The machine code for one instruction.
    fn emit(insn: &Insn) -> (r: Vec<u8>)
        ensures
            r@ == Self::insn_bytes(*insn),
    ;
}

/// The x86-64 backend.
pub struct X86_64;

/// The AArch64 backend.
pub struct Aarch64;

impl Backend for X86_64 {
    open spec fn insn_bytes(insn: Insn) -> Seq<u8> {
        x86_bytes(insn)
    }

    fn emit(insn: &Insn) -> (r: Vec<u8>) {
        crate::x86_64::native_insns(insn)
    }
}

impl Backend for Aarch64 {
    open spec fn insn_bytes(insn: Insn) -> Seq<u8> {
        a64_bytes(insn)
    }

    fn emit(insn: &Insn) -> (r: Vec<u8>) {
        crate::aarch64::native_insns(insn)
    }
}

/// The machine code of the instructions of `s`, one after another.
pub open spec fn body_bytes<B: Backend>(s: Seq<Insn>) -> Seq<u8>
    decreases s.len(),
{
    if s.len() == 0 {
        Seq::empty()
    } else {
        body_bytes::<B>(s.drop_last()) + B::insn_bytes(s.last())
    }
}

/// The machine code of a whole program: a `Reset`, the program's own
/// instructions, then a `Return`.
pub open spec fn generated<B: Backend>(s: Seq<Insn>) -> Seq<u8> {
    B::insn_bytes(Insn::Reset) + body_bytes::<B>(s) + B::insn_bytes(Insn::Return)
}

/// Compiles a program into one callable function: the accumulator is reset,
/// each instruction runs in order, and the accumulator is returned.
pub fn jit<B: Backend>(insn_seq: &Vec<Insn>) -> (r: Vec<u8>)
    ensures
        r@ == generated::<B>(insn_seq@),
{
    let mut native_insns = B::emit(&Insn::Reset);
    let mut i: usize = 0;
    while i < insn_seq.len()
        invariant
            i <= insn_seq@.len(),
            native_insns@ == B::insn_bytes(Insn::Reset) + body_bytes::<B>(
                insn_seq@.take(i as int),
            ),
        decreases insn_seq@.len() - i,
    {
        let mut bytes = B::emit(&insn_seq[i]);
        proof {
            assert(insn_seq@.take(i + 1).drop_last() =~= insn_seq@.take(i as int));
            assert(B::insn_bytes(Insn::Reset) + body_bytes::<B>(insn_seq@.take(i as int))
                + bytes@ =~= B::insn_bytes(Insn::Reset) + (body_bytes::<B>(
                insn_seq@.take(i as int),
            ) + bytes@));
        }
        native_insns.append(&mut bytes);
        i = i + 1;
    }
    let mut ret = B::emit(&Insn::Return);
    native_insns.append(&mut ret);
    proof {
        assert(insn_seq@.take(insn_seq@.len() as int) =~= insn_seq@);
    }
    native_insns
}

/// The code for any program starts with exactly the code of `Reset`, ends
/// with exactly the code of `Return`, and holds only the program's own
/// instructions between them.
pub proof fn lemma_prologue_epilogue<B: Backend>(s: Seq<Insn>)
    ensures
        ({
            let g = generated::<B>(s);
            let pro = B::insn_bytes(Insn::Reset);
            let epi = B::insn_bytes(Insn::Return);
            &&& g.len() == pro.len() + body_bytes::<B>(s).len() + epi.len()
            &&& g.take(pro.len() as int) == pro
            &&& g.skip(g.len() - epi.len()) == epi
            &&& g.subrange(pro.len() as int, g.len() - epi.len()) == body_bytes::<B>(s)
        }),
{
    let g = generated::<B>(s);
    let pro = B::insn_bytes(Insn::Reset);
    let epi = B::insn_bytes(Insn::Return);
    assert(g.take(pro.len() as int) =~= pro);
    assert(g.skip(g.len() - epi.len()) =~= epi);
    assert(g.subrange(pro.len() as int, g.len() - epi.len()) =~= body_bytes::<B>(s));
}

/// The code of a program followed by more instructions is the code of the
/// first part followed by the code of the second.
pub proof fn lemma_body_concat<B: Backend>(a: Seq<Insn>, b: Seq<Insn>)
    ensures
        body_bytes::<B>(a + b) == body_bytes::<B>(a) + body_bytes::<B>(b),
    decreases b.len(),
{
    if b.len() == 0 {
        assert(a + b =~= a);
        assert(body_bytes::<B>(a) + body_bytes::<B>(b) =~= body_bytes::<B>(a));
    } else {
        assert((a + b).drop_last() =~= a + b.drop_last());
        assert((a + b).last() == b.last());
        lemma_body_concat::<B>(a, b.drop_last());
        assert(body_bytes::<B>(a) + body_bytes::<B>(b.drop_last()) + B::insn_bytes(b.last())
            =~= body_bytes::<B>(a) + (body_bytes::<B>(b.drop_last()) + B::insn_bytes(b.last())));
    }
}

/// Code generation is a function of the program alone: equal programs give
/// byte-identical code, and so does each instruction's emitter.
pub proof fn lemma_deterministic<B: Backend>(s: Seq<Insn>, t: Seq<Insn>)
    requires
        s == t,
    ensures
        generated::<B>(s) == generated::<B>(t),
        forall|k: int| 0 <= k < s.len() ==> B::insn_bytes(s[k]) == B::insn_bytes(t[k]),
{
}

} // verus!
