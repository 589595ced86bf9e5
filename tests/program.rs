use calcjit::insn::{interpret, parse, Insn};

#[test]
fn test_canonical() {
    let program = "+ + * - /";
    let instructions = parse(program);
    assert_eq!(5, instructions.len());
    assert_eq!(Insn::Incr, instructions[0]);
    assert_eq!(Insn::Incr, instructions[1]);
    assert_eq!(Insn::Double, instructions[2]);
    assert_eq!(Insn::Decr, instructions[3]);
    assert_eq!(Insn::Halve, instructions[4]);

    let int_result = interpret(&instructions);
    assert_eq!(1, int_result);
}

#[test]
fn parse_drops_other_characters() {
    assert_eq!(parse("a+b/c x*-"), vec![Insn::Incr, Insn::Halve, Insn::Double, Insn::Decr]);
}

#[test]
fn parse_empty_program() {
    assert!(parse("").is_empty());
    assert!(parse("hello world").is_empty());
}

#[test]
fn interpret_empty_is_zero() {
    assert_eq!(0, interpret(&Vec::new()));
}

#[test]
fn interpret_scenarios() {
    assert_eq!(1, interpret(&vec![Insn::Incr]));
    assert_eq!(4, interpret(&vec![Insn::Incr, Insn::Double, Insn::Double]));
    assert_eq!(
        3,
        interpret(&vec![
            Insn::Incr,
            Insn::Double,
            Insn::Double,
            Insn::Double,
            Insn::Decr,
            Insn::Decr,
            Insn::Halve,
        ])
    );
}

#[test]
fn interpret_halve_rounds_down() {
    assert_eq!(1, interpret(&parse("+++/")));
    assert_eq!(0, interpret(&parse("+/")));
}

#[test]
fn interpret_stops_at_return() {
    assert_eq!(2, interpret(&vec![Insn::Incr, Insn::Incr, Insn::Return, Insn::Incr]));
}

#[test]
fn interpret_reset_clears() {
    assert_eq!(1, interpret(&vec![Insn::Incr, Insn::Double, Insn::Reset, Insn::Incr]));
}
