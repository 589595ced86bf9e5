use vstd::prelude::*;

verus! {

/// One abstract instruction over the accumulator.
#[derive(PartialEq, Eq, Debug, Clone, Copy, Structural)]
pub enum Insn {
    /// Sets the accumulator to zero (emitted by the compiler only).
    Reset,
    /// Hands the accumulator back to the caller (emitted by the compiler only).
    Return,
    /// `+`: adds one.
    Incr,
    /// `-`: subtracts one.
    Decr,
    /// `*`: multiplies by two.
    Double,
    /// `/`: divides by two, rounding toward zero.
    Halve,
}

/// The instruction that a program character stands for, if any.
pub open spec fn char_insn(c: char) -> Option<Insn> {
    if c == '+' {
        Some(Insn::Incr)
    } else if c == '-' {
        Some(Insn::Decr)
    } else if c == '*' {
        Some(Insn::Double)
    } else if c == '/' {
        Some(Insn::Halve)
    } else {
        None
    }
}

/// The instructions of a program text: one per recognised character, in
/// order; every other character is dropped.
pub open spec fn parse_spec(s: Seq<char>) -> Seq<Insn>
    decreases s.len(),
{
    if s.len() == 0 {
        Seq::empty()
    } else {
        let rest = parse_spec(s.drop_last());
        match char_insn(s.last()) {
            Some(i) => rest.push(i),
            None => rest,
        }
    }
}

/// Division by two that rounds toward zero, as signed machine division does.
pub open spec fn half(a: int) -> int {
    if a >= 0 {
        a / 2
    } else {
        -((-a) / 2)
    }
}

/// The accumulator after one instruction other than `Return`.
pub open spec fn step(acc: int, i: Insn) -> int {
    match i {
        Insn::Reset => 0,
        Insn::Return => acc,
        Insn::Incr => acc + 1,
        Insn::Decr => acc - 1,
        Insn::Double => acc * 2,
        Insn::Halve => half(acc),
    }
}

/// The accumulator after running `s` from `acc`; a `Return` ends the run.
pub open spec fn run_from(acc: int, s: Seq<Insn>) -> int
    decreases s.len(),
{
    if s.len() == 0 || s[0] == Insn::Return {
        acc
    } else {
        run_from(step(acc, s[0]), s.drop_first())
    }
}

/// The value of a program: its run from an accumulator of zero.
pub open spec fn value(s: Seq<Insn>) -> int {
    run_from(0, s)
}

/// Every accumulator value that a run of `s` from `acc` passes through,
/// the first and the last included, lies within `lo ..= hi`.
pub open spec fn stays_within(acc: int, s: Seq<Insn>, lo: int, hi: int) -> bool
    decreases s.len(),
{
    lo <= acc <= hi && (s.len() == 0 || s[0] == Insn::Return || stays_within(
        step(acc, s[0]),
        s.drop_first(),
        lo,
        hi,
    ))
}

/// Reads a program text: `+`, `-`, `*` and `/` become `Incr`, `Decr`,
/// `Double` and `Halve`; any other character is ignored.
pub fn parse(program: &str) -> (r: Vec<Insn>)
    ensures
        r@ == parse_spec(program@),
{
    let n = program.unicode_len();
    let mut out: Vec<Insn> = Vec::new();
    let mut i: usize = 0;
    while i < n
        invariant
            n == program@.len(),
            i <= n,
            out@ == parse_spec(program@.take(i as int)),
        decreases n - i,
    {
        let ch = program.get_char(i);
        proof {
            assert(program@.take(i + 1).drop_last() == program@.take(i as int));
        }
        if ch == '+' {
            out.push(Insn::Incr);
        } else if ch == '-' {
            out.push(Insn::Decr);
        } else if ch == '*' {
            out.push(Insn::Double);
        } else if ch == '/' {
            out.push(Insn::Halve);
        }
        i = i + 1;
    }
    proof {
        assert(program@.take(n as int) == program@);
    }
    out
}

/// Runs a program on an unsigned accumulator that starts at zero and
/// returns its final value. A `Return` ends the run early.
pub fn interpret(insn_seq: &Vec<Insn>) -> (r: u64)
    requires
        stays_within(0, insn_seq@, 0, u64::MAX as int),
    ensures
        r == value(insn_seq@),
{
    let mut accum: u64 = 0;
    let mut i: usize = 0;
    proof {
        assert(insn_seq@.skip(0) == insn_seq@);
    }
    while i < insn_seq.len()
        invariant
            i <= insn_seq@.len(),
            run_from(accum as int, insn_seq@.skip(i as int)) == value(insn_seq@),
            stays_within(accum as int, insn_seq@.skip(i as int), 0, u64::MAX as int),
        ensures
            accum == value(insn_seq@),
        decreases insn_seq@.len() - i,
    {
        let ghost rest = insn_seq@.skip(i as int);
        proof {
            assert(rest[0] == insn_seq@[i as int]);
            assert(rest.drop_first() == insn_seq@.skip(i + 1));
            if rest[0] != Insn::Return {
                assert(stays_within(step(accum as int, rest[0]), rest.drop_first(), 0, u64::MAX as int));
            }
        }
        match insn_seq[i] {
            Insn::Reset => {
                accum = 0;
            },
            Insn::Return => {
                break ;
            },
            Insn::Incr => {
                accum = accum + 1;
            },
            Insn::Decr => {
                accum = accum - 1;
            },
            Insn::Double => {
                accum = accum * 2;
            },
            Insn::Halve => {
                accum = accum / 2;
            },
        }
        i = i + 1;
    }
    accum
}

} // verus!
