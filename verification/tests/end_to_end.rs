use belt_machine::ast::{BranchOp, BeltPos, Instruction, Symbol};
use belt_machine::machine::{BeltMachine, ExecutionResult};
use belt_machine::parser::parse;

/// Assemble source text and load the encoded words into a fresh machine at
/// address 0.
fn assemble_into_machine(source: &str) -> BeltMachine {
    let program = parse(source).expect("expected the program to assemble");
    let mut m = BeltMachine::new();
    let mut addr: usize = 0;
    for symbol in &program.symbols {
        if let Symbol::Instruction(instruction) = symbol {
            let (first, second) = instruction.encode();
            m.memory[addr] = first;
            addr += 1;
            if let Some(second) = second {
                m.memory[addr] = second;
                addr += 1;
            }
        }
    }
    m
}

#[test]
fn test_scenario_load_and_mask() {
    let mut m = assemble_into_machine("lc 0x00FF\nand b0 0x0F0F");
    assert_eq!(m.step(), ExecutionResult::Continue);
    assert_eq!(m.step(), ExecutionResult::Continue);
    assert_eq!(m.belt.peek_belt(0), &0x000F);
}

#[test]
fn test_scenario_add_two_constants() {
    let mut m = assemble_into_machine("lc 5\nlc 7\nadd b0 b1");
    assert_eq!(m.step(), ExecutionResult::Continue);
    assert_eq!(m.step(), ExecutionResult::Continue);
    assert_eq!(m.step(), ExecutionResult::Continue);
    assert_eq!(m.belt.peek_belt(0), &12);
}

#[test]
fn test_scenario_branch_on_equal_values() {
    // Equal values: the branch transfers control to the encoded target.
    let mut m = assemble_into_machine("lc 9\nlc 9");
    let (w, second) = Instruction::Branch {
        op: BranchOp::BranchEq,
        pos1: BeltPos(0),
        pos2: BeltPos(1),
        addr: 0x0040,
    }
    .encode();
    m.memory[4] = w;
    m.memory[5] = second.unwrap();
    m.step();
    m.step();
    assert_eq!(m.step(), ExecutionResult::Jump { dest: 0x0040 });
    assert_eq!(m.pc, 0x0040);

    // Unequal values: the branch falls through.
    let mut m = assemble_into_machine("lc 9\nlc 8");
    m.memory[4] = w;
    m.memory[5] = 0x0040;
    m.step();
    m.step();
    assert_eq!(m.step(), ExecutionResult::Continue);
    assert_eq!(m.pc, 6);
}

#[test]
fn test_scenario_store_then_load_roundtrip() {
    let source = "lc 0xBEEF\nlc 0x0100\nsave b1 b0\nlc 0x0100\nload b0";
    let mut m = assemble_into_machine(source);
    for _ in 0..5 {
        assert_eq!(m.step(), ExecutionResult::Continue);
    }
    assert_eq!(m.memory[0x0100], 0xBEEF);
    assert_eq!(m.belt.peek_belt(0), &0xBEEF);
}

#[test]
fn test_scenario_shift_pipeline() {
    let mut m = assemble_into_machine("lc 3\nsl b0 4\nsr b0 2");
    assert_eq!(m.step(), ExecutionResult::Continue);
    assert_eq!(m.step(), ExecutionResult::Continue);
    assert_eq!(m.belt.peek_belt(0), &0x30);
    assert_eq!(m.step(), ExecutionResult::Continue);
    assert_eq!(m.belt.peek_belt(0), &0x0C);
}
