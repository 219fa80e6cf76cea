use belt_machine::ast::{
    Alignment, BeltConstantOp, BeltPos, ConstantOp, ConstantOrLabel, Directive, ImmediateOp,
    Instruction, RegOp, Symbol, UnaryOp, ZeroOp,
};
use belt_machine::parser::parse;

fn parse_one_instruction(input: &str) -> Instruction {
    let program = parse(input).expect("expected the line to parse");
    assert_eq!(program.symbols.len(), 1);
    match program.symbols.into_iter().next().unwrap() {
        Symbol::Instruction(instruction) => instruction,
        other => panic!("{:?} is not an instruction!", other),
    }
}

#[test]
fn test_parse_belt_constant_instructions() {
    assert_eq!(
        parse_one_instruction("and b0 0x1234"),
        Instruction::BeltConstant {
            op: BeltConstantOp::And,
            pos: BeltPos(0),
            constant: ConstantOrLabel::Constant(0x1234),
        }
    );
    assert_eq!(
        parse_one_instruction("or b1 666"),
        Instruction::BeltConstant {
            op: BeltConstantOp::Or,
            pos: BeltPos(1),
            constant: ConstantOrLabel::Constant(666),
        }
    );
    assert_eq!(
        parse_one_instruction("xor b2 0b1100"),
        Instruction::BeltConstant {
            op: BeltConstantOp::Xor,
            pos: BeltPos(2),
            constant: ConstantOrLabel::Constant(0b1100),
        }
    );
    assert_eq!(
        parse_one_instruction("and b3 somewhere"),
        Instruction::BeltConstant {
            op: BeltConstantOp::And,
            pos: BeltPos(3),
            constant: ConstantOrLabel::Label(String::from("somewhere")),
        }
    );
}

#[test]
fn test_parse_constant_instructions() {
    assert_eq!(
        parse_one_instruction("lc 0xDEF0"),
        Instruction::Constant {
            op: ConstantOp::LoadConstant,
            constant: ConstantOrLabel::Constant(0xDEF0),
        }
    );
    assert_eq!(
        parse_one_instruction("lm 0x0042"),
        Instruction::Constant {
            op: ConstantOp::LoadFromMemory,
            constant: ConstantOrLabel::Constant(0x0042),
        }
    );
    assert_eq!(
        parse_one_instruction("call label1"),
        Instruction::Constant {
            op: ConstantOp::Call,
            constant: ConstantOrLabel::Label(String::from("label1")),
        }
    );
    assert_eq!(
        parse_one_instruction("call 0x1234"),
        Instruction::Constant {
            op: ConstantOp::Call,
            constant: ConstantOrLabel::Constant(0x1234),
        }
    );
    assert_eq!(
        parse_one_instruction("jump 0x4321"),
        Instruction::Constant {
            op: ConstantOp::Jump,
            constant: ConstantOrLabel::Constant(0x4321),
        }
    );
}

#[test]
fn test_parse_immediate_instructions() {
    assert_eq!(
        parse_one_instruction("sl b3 4"),
        Instruction::Immediate { op: ImmediateOp::ShiftLeft, pos: BeltPos(3), imm: 4 }
    );
    assert_eq!(
        parse_one_instruction("sr b4 5"),
        Instruction::Immediate { op: ImmediateOp::ShiftRight, pos: BeltPos(4), imm: 5 }
    );
    assert_eq!(
        parse_one_instruction("ret b0 2"),
        Instruction::Immediate { op: ImmediateOp::Ret, pos: BeltPos(0), imm: 2 }
    );
}

#[test]
fn test_parse_register_instructions() {
    assert_eq!(
        parse_one_instruction("add b5 b6"),
        Instruction::Register { op: RegOp::Add, pos1: BeltPos(5), pos2: BeltPos(6) }
    );
    assert_eq!(
        parse_one_instruction("sub b7 b8"),
        Instruction::Register { op: RegOp::Sub, pos1: BeltPos(7), pos2: BeltPos(8) }
    );
    assert_eq!(
        parse_one_instruction("mul b9 b10"),
        Instruction::Register { op: RegOp::Mul, pos1: BeltPos(9), pos2: BeltPos(10) }
    );
    assert_eq!(
        parse_one_instruction("and b5 b6"),
        Instruction::Register { op: RegOp::And, pos1: BeltPos(5), pos2: BeltPos(6) }
    );
    assert_eq!(
        parse_one_instruction("or b7 b8"),
        Instruction::Register { op: RegOp::Or, pos1: BeltPos(7), pos2: BeltPos(8) }
    );
    assert_eq!(
        parse_one_instruction("xor b9 b10"),
        Instruction::Register { op: RegOp::Xor, pos1: BeltPos(9), pos2: BeltPos(10) }
    );
    assert_eq!(
        parse_one_instruction("div b11 b12"),
        Instruction::Register { op: RegOp::Div, pos1: BeltPos(11), pos2: BeltPos(12) }
    );
    assert_eq!(
        parse_one_instruction("save b13 b0"),
        Instruction::Register { op: RegOp::Save, pos1: BeltPos(13), pos2: BeltPos(0) }
    );
    assert_eq!(
        parse_one_instruction("sr b14 b0"),
        Instruction::Register { op: RegOp::ShiftRight, pos1: BeltPos(14), pos2: BeltPos(0) }
    );
    assert_eq!(
        parse_one_instruction("sl b15 b0"),
        Instruction::Register { op: RegOp::ShiftLeft, pos1: BeltPos(15), pos2: BeltPos(0) }
    );
}

#[test]
fn test_parse_unary_instructions() {
    assert_eq!(
        parse_one_instruction("load b3"),
        Instruction::Unary { op: UnaryOp::Load, pos: BeltPos(3) }
    );
    assert_eq!(
        parse_one_instruction("push b1"),
        Instruction::Unary { op: UnaryOp::Push, pos: BeltPos(1) }
    );
    assert_eq!(
        parse_one_instruction("jump b2"),
        Instruction::Unary { op: UnaryOp::Jump, pos: BeltPos(2) }
    );
}

#[test]
fn test_parse_zero_instructions() {
    assert_eq!(parse_one_instruction("nop"), Instruction::Zero { op: ZeroOp::Nop });
    assert_eq!(parse_one_instruction("pop"), Instruction::Zero { op: ZeroOp::Pop });
    assert_eq!(parse_one_instruction("break"), Instruction::Zero { op: ZeroOp::Break });
}

#[test]
fn test_parse_malformed_instructions() {
    for input in [
        "and b0 0x12345",
        "or b1 666a",
        "xor b2 0b1100a",
        "lc 0xDEF0a",
        "sl b3 4a",
        "sr b4 5a",
        "sl b3 16",
        "add b5 b6a",
        "sub b7 b8a",
        "mul b9 b10a",
        "div b11 b12a",
        "save b13 b0a",
        "sr b14 b0a",
        "sl b15 b0a",
        "load b3a",
        "load b16",
        "frobnicate b0",
        "nop 5",
        "add b1",
        "lc",
        "@",
    ] {
        assert!(parse(input).is_err(), "no errors found for {:?}", input);
    }
}

#[test]
fn test_parse_labels() {
    let program = parse("label1:").unwrap();
    assert_eq!(program.symbols, vec![Symbol::Label(String::from("label1"))]);
    let program = parse("start:").unwrap();
    assert_eq!(program.symbols, vec![Symbol::Label(String::from("start"))]);
    let program = parse("my_label:").unwrap();
    assert_eq!(program.symbols, vec![Symbol::Label(String::from("my_label"))]);
}

#[test]
fn test_parse_directives() {
    for (input, value) in [(".balign 0", 0), (".balign 4", 4), (".balign 8", 8), (
        ".balign 16",
        16,
    )] {
        let program = parse(input).unwrap();
        assert_eq!(
            program.symbols,
            vec![Symbol::Directive(Directive::Alignment(Alignment { alignment: value }))],
            "directive {:?}",
            input
        );
    }
}

#[test]
fn test_parse_directive_out_of_range() {
    assert!(parse(".balign 20").is_err());
    assert!(parse(".balign -1").is_err());
    assert!(parse(".balign17").is_err());
}

#[test]
fn test_parse_label_with_following_symbol() {
    let program = parse("label1: \n.balign 4").unwrap();
    assert_eq!(program.symbols.len(), 2);
    assert_eq!(program.symbols[0], Symbol::Label(String::from("label1")));
    assert_eq!(
        program.symbols[1],
        Symbol::Directive(Directive::Alignment(Alignment { alignment: 4 }))
    );

    let program = parse("start: \nnop").unwrap();
    assert_eq!(program.symbols.len(), 2);
    assert_eq!(program.symbols[0], Symbol::Label(String::from("start")));
    assert_eq!(program.symbols[1], Symbol::Instruction(Instruction::Zero { op: ZeroOp::Nop }));

    let program = parse("my_label: \nlc 0x1234").unwrap();
    assert_eq!(program.symbols.len(), 2);
    assert_eq!(program.symbols[0], Symbol::Label(String::from("my_label")));
    assert_eq!(
        program.symbols[1],
        Symbol::Instruction(Instruction::Constant {
            op: ConstantOp::LoadConstant,
            constant: ConstantOrLabel::Constant(0x1234),
        })
    );
}

#[test]
fn test_parse_blank_lines_and_comments_skipped() {
    let program = parse("nop\n\n  \npop // trailing words\n/* a block\ncomment */\nbreak").unwrap();
    assert_eq!(
        program.symbols,
        vec![
            Symbol::Instruction(Instruction::Zero { op: ZeroOp::Nop }),
            Symbol::Instruction(Instruction::Zero { op: ZeroOp::Pop }),
            Symbol::Instruction(Instruction::Zero { op: ZeroOp::Break }),
        ]
    );
}

#[test]
fn test_parse_collects_every_bad_line() {
    let errors = parse("nop\nbogus one\npop\nanother bad line\n").unwrap_err();
    assert_eq!(errors.len(), 2);
    // The first diagnostic points into the second source line.
    assert!(errors[0].start >= 4);
    assert!(errors[0].end <= 13);
    assert!(errors[1].start > errors[0].end);
}

#[test]
fn test_parse_empty_source() {
    let program = parse("").unwrap();
    assert_eq!(program.symbols.len(), 0);
}
