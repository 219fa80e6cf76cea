use belt_machine::ast::{
    BeltConstantOp, BeltPos, BranchOp, ConstantOp, ConstantOrLabel, ImmediateOp, Instruction,
    RegOp, UnaryOp, ZeroOp,
};
use belt_machine::machine::{BeltMachine, ExecutionResult};

fn machine_with_program(program: &[Instruction]) -> BeltMachine {
    let mut m = BeltMachine::new();
    let mut addr: usize = 0;
    for instr in program {
        let (first, second_optional) = instr.encode();
        m.memory[addr] = first;
        addr += 1;
        if let Some(second) = second_optional {
            m.memory[addr] = second;
            addr += 1;
        }
    }
    m
}

#[test]
fn test_belt_constant_and() {
    let mut m = machine_with_program(&[
        Instruction::Constant {
            op: ConstantOp::LoadConstant,
            constant: ConstantOrLabel::Constant(0x00FF),
        },
        Instruction::BeltConstant {
            op: BeltConstantOp::And,
            pos: BeltPos(0),
            constant: ConstantOrLabel::Constant(0x0F0F),
        },
    ]);
    assert_eq!(m.step(), ExecutionResult::Continue); // load
    assert_eq!(m.step(), ExecutionResult::Continue); // and
    assert_eq!(m.belt.peek_belt(0), &0x000F);
}

#[test]
fn test_register_add() {
    let mut m = machine_with_program(&[
        Instruction::Constant {
            op: ConstantOp::LoadConstant,
            constant: ConstantOrLabel::Constant(5),
        },
        Instruction::Constant {
            op: ConstantOp::LoadConstant,
            constant: ConstantOrLabel::Constant(7),
        },
        Instruction::Register { op: RegOp::Add, pos1: BeltPos(0), pos2: BeltPos(1) },
    ]);
    m.step();
    m.step();
    assert_eq!(m.step(), ExecutionResult::Continue);
    assert_eq!(m.belt.peek_belt(0), &12);
}

#[test]
fn test_branch_eq_taken() {
    let mut m = machine_with_program(&[
        Instruction::Constant {
            op: ConstantOp::LoadConstant,
            constant: ConstantOrLabel::Constant(42),
        },
        Instruction::Constant {
            op: ConstantOp::LoadConstant,
            constant: ConstantOrLabel::Constant(42),
        },
        Instruction::Branch {
            op: BranchOp::BranchEq,
            pos1: BeltPos(0),
            pos2: BeltPos(1),
            addr: 0x1234,
        },
    ]);
    m.step();
    m.step();
    assert_eq!(m.step(), ExecutionResult::Jump { dest: 0x1234 });
}

#[test]
fn test_branch_eq_not_taken() {
    let mut m = machine_with_program(&[
        Instruction::Constant {
            op: ConstantOp::LoadConstant,
            constant: ConstantOrLabel::Constant(1),
        },
        Instruction::Constant {
            op: ConstantOp::LoadConstant,
            constant: ConstantOrLabel::Constant(2),
        },
        Instruction::Branch {
            op: BranchOp::BranchEq,
            pos1: BeltPos(0),
            pos2: BeltPos(1),
            addr: 0x1234,
        },
    ]);
    m.step();
    m.step();
    assert_eq!(m.step(), ExecutionResult::Continue);
}

#[test]
fn test_load_memory() {
    let mut m = machine_with_program(&[
        Instruction::Constant {
            op: ConstantOp::LoadConstant,
            constant: ConstantOrLabel::Constant(0x0042),
        },
        Instruction::Unary { op: UnaryOp::Load, pos: BeltPos(0) },
    ]);
    m.memory[0x0042] = 0xABCD;
    m.step();
    assert_eq!(m.step(), ExecutionResult::Continue);
    assert_eq!(m.belt.peek_belt(0), &0xABCD);
}

#[test]
fn test_save_memory() {
    let mut m = machine_with_program(&[
        Instruction::Constant {
            op: ConstantOp::LoadConstant,
            constant: ConstantOrLabel::Constant(0x00FF),
        },
        Instruction::Constant {
            op: ConstantOp::LoadConstant,
            constant: ConstantOrLabel::Constant(0x0042),
        },
        Instruction::Register { op: RegOp::Save, pos1: BeltPos(1), pos2: BeltPos(0) },
    ]);
    m.step();
    m.step();
    assert_eq!(m.step(), ExecutionResult::Continue);
    assert_eq!(m.memory[0x0042], 0x00FF);
}

#[test]
fn test_stack_push_pop() {
    let mut m = machine_with_program(&[
        Instruction::Constant {
            op: ConstantOp::LoadConstant,
            constant: ConstantOrLabel::Constant(0xBEEF),
        },
        Instruction::Unary { op: UnaryOp::Push, pos: BeltPos(0) },
        Instruction::Zero { op: ZeroOp::Pop },
    ]);
    m.step();
    m.step();
    assert_eq!(m.step(), ExecutionResult::Continue);
    assert_eq!(m.belt.peek_belt(0), &0xBEEF);
}

#[test]
fn test_div_by_zero_fail() {
    let mut m = machine_with_program(&[
        Instruction::Constant {
            op: ConstantOp::LoadConstant,
            constant: ConstantOrLabel::Constant(10),
        },
        Instruction::Constant {
            op: ConstantOp::LoadConstant,
            constant: ConstantOrLabel::Constant(0),
        },
        Instruction::Register { op: RegOp::Div, pos1: BeltPos(1), pos2: BeltPos(0) },
    ]);
    m.step();
    m.step();
    assert_eq!(m.step(), ExecutionResult::Fail);
}

#[test]
fn test_jump() {
    let mut m = machine_with_program(&[
        Instruction::Constant {
            op: ConstantOp::LoadConstant,
            constant: ConstantOrLabel::Constant(0x1234),
        },
        Instruction::Unary { op: UnaryOp::Jump, pos: BeltPos(0) },
    ]);
    m.step();
    assert_eq!(m.step(), ExecutionResult::Jump { dest: 0x1234 });
}

#[test]
fn test_ret_simple() {
    let mut m = machine_with_program(&[
        Instruction::Constant {
            op: ConstantOp::LoadConstant,
            constant: ConstantOrLabel::Constant(0x00FF),
        },
        Instruction::Immediate { op: ImmediateOp::Ret, pos: BeltPos(0), imm: 1 },
    ]);
    m.step();

    m.stack_push(0x1111);
    for i in 1..=16 {
        m.stack_push(i);
    }

    assert_eq!(m.step(), ExecutionResult::Jump { dest: 0x1111 });
    assert_eq!(m.belt.peek_belt(0), &0x00FF);
    assert_eq!(m.pc, 0x1111)
}

#[test]
fn test_nop() {
    let mut m = machine_with_program(&[Instruction::Zero { op: ZeroOp::Nop }]);
    assert_eq!(m.step(), ExecutionResult::Continue);
}

#[test]
fn test_break() {
    let mut m = machine_with_program(&[Instruction::Zero { op: ZeroOp::Break }]);
    assert_eq!(m.step(), ExecutionResult::Stop);
}

#[test]
fn test_div_by_zero_leaves_pc_and_belt() {
    let mut m = machine_with_program(&[
        Instruction::Constant {
            op: ConstantOp::LoadConstant,
            constant: ConstantOrLabel::Constant(10),
        },
        Instruction::Constant {
            op: ConstantOp::LoadConstant,
            constant: ConstantOrLabel::Constant(0),
        },
        Instruction::Register { op: RegOp::Div, pos1: BeltPos(1), pos2: BeltPos(0) },
    ]);
    m.step();
    m.step();
    let pc_before = m.pc;
    assert_eq!(m.step(), ExecutionResult::Fail);
    assert_eq!(m.pc, pc_before);
    assert_eq!(m.belt.peek_belt(0), &0);
    assert_eq!(m.belt.peek_belt(1), &10);
}

#[test]
fn test_nop_advances_pc_by_one() {
    let mut m = machine_with_program(&[
        Instruction::Zero { op: ZeroOp::Nop },
        Instruction::Zero { op: ZeroOp::Nop },
    ]);
    assert_eq!(m.pc, 0);
    assert_eq!(m.step(), ExecutionResult::Continue);
    assert_eq!(m.pc, 1);
}

#[test]
fn test_break_leaves_pc() {
    let mut m = machine_with_program(&[Instruction::Zero { op: ZeroOp::Break }]);
    assert_eq!(m.step(), ExecutionResult::Stop);
    assert_eq!(m.pc, 0);
}

#[test]
fn test_call_spills_belt_and_jumps() {
    let mut m = machine_with_program(&[Instruction::Constant {
        op: ConstantOp::Call,
        constant: ConstantOrLabel::Constant(0x0200),
    }]);
    // Give the belt recognisable contents: push 1, 2, ..., 16.
    for v in 1..=16 {
        m.belt.push_belt(v);
    }
    let sp_before = m.sp;
    assert_eq!(m.step(), ExecutionResult::Jump { dest: 0x0200 });
    assert_eq!(m.pc, 0x0200);
    assert_eq!(m.sp, sp_before.wrapping_sub(16));
    // Slot i (age i) was spilled at sp - i: peek(0) == 16 at sp, the oldest
    // value 1 at sp - 15.
    assert_eq!(m.memory[sp_before as usize], 16);
    assert_eq!(m.memory[(sp_before as usize) - 15], 1);
}

#[test]
fn test_call_then_ret_restores_belt() {
    let mut m = machine_with_program(&[Instruction::Constant {
        op: ConstantOp::Call,
        constant: ConstantOrLabel::Constant(0x0100),
    }]);
    for v in 100..=115 {
        m.belt.push_belt(v);
    }
    // The convention: the caller pushes the return address, then calls;
    // the call spills the belt below it on the stack.
    m.stack_push(0x0002);
    let ret_code = Instruction::Immediate { op: ImmediateOp::Ret, pos: BeltPos(0), imm: 2 };
    let (w, _) = ret_code.encode();
    m.memory[0x0100] = w;

    assert_eq!(m.step(), ExecutionResult::Jump { dest: 0x0100 });

    // The callee computes two results.
    m.belt.push_belt(0xAAAA);
    m.belt.push_belt(0xBBBB);

    assert_eq!(m.step(), ExecutionResult::Jump { dest: 0x0002 });
    assert_eq!(m.pc, 0x0002);
    // The two most recent callee values lead the belt.
    assert_eq!(m.belt.peek_belt(0), &0xBBBB);
    assert_eq!(m.belt.peek_belt(1), &0xAAAA);
    // Behind them, the caller's belt as it was: pre-call peek(0) == 115.
    assert_eq!(m.belt.peek_belt(2), &115);
    assert_eq!(m.belt.peek_belt(3), &114);
    assert_eq!(m.belt.peek_belt(15), &102);
}

#[test]
fn test_shift_instructions() {
    let mut m = machine_with_program(&[
        Instruction::Constant {
            op: ConstantOp::LoadConstant,
            constant: ConstantOrLabel::Constant(0x0001),
        },
        Instruction::Immediate { op: ImmediateOp::ShiftLeft, pos: BeltPos(0), imm: 4 },
        Instruction::Immediate { op: ImmediateOp::ShiftRight, pos: BeltPos(0), imm: 2 },
    ]);
    m.step();
    assert_eq!(m.step(), ExecutionResult::Continue);
    assert_eq!(m.belt.peek_belt(0), &0x0010);
    assert_eq!(m.step(), ExecutionResult::Continue);
    assert_eq!(m.belt.peek_belt(0), &0x0004);
}

#[test]
fn test_garbage_memory_stops() {
    let mut m = BeltMachine::new();
    m.memory[0] = 0xFFFF;
    assert_eq!(m.step(), ExecutionResult::Stop);
    assert_eq!(m.pc, 0);
}
