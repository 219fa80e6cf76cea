//! The belt assembly abstract syntax: programs, symbols, directives and the
//! instruction forms of the six operand shapes.

use vstd::prelude::*;

verus! {

/// An assembled program: the symbols of the source, in source line order.
#[derive(Debug)]
pub struct Program {
    pub symbols: Vec<Symbol>,
}

/// One line of a program: an instruction, a label definition, or a directive.
#[derive(Clone, Debug, PartialEq)]
pub enum Symbol {
    Instruction(Instruction),
    Label(String),
    Directive(Directive),
}

/// Request that the next emitted item start on the given boundary.
/// The alignment value is 0 to 16; enforcement is a linker concern.
#[derive(PartialEq, Eq, Structural, Copy, Clone, Debug)]
pub struct Alignment {
    pub alignment: usize,
}

/// An assembler directive.
#[derive(Clone, Debug, PartialEq)]
pub enum Directive {
    Alignment(Alignment),
}

/// Operations combining a belt value with a 16-bit constant.
#[derive(PartialEq, Eq, Structural, Copy, Clone, Debug)]
pub enum BeltConstantOp {
    And,
    Or,
    Xor,
}

/// Operations taking a single 16-bit constant or address.
#[derive(PartialEq, Eq, Structural, Copy, Clone, Debug)]
pub enum ConstantOp {
    LoadFromMemory,
    LoadConstant,
    Call,
    Jump,
}

/// Operations taking a belt position and a 4-bit immediate.
#[derive(PartialEq, Eq, Structural, Copy, Clone, Debug)]
pub enum ImmediateOp {
    ShiftLeft,
    ShiftRight,
    Ret,
}

/// Operations combining two belt values.
#[derive(PartialEq, Eq, Structural, Copy, Clone, Debug)]
pub enum RegOp {
    Add,
    Sub,
    And,
    Or,
    Xor,
    Mul,
    Div,
    Save,
    ShiftLeft,
    ShiftRight,
}

/// Conditional branches comparing two belt values.
#[derive(PartialEq, Eq, Structural, Copy, Clone, Debug)]
pub enum BranchOp {
    BranchLower,
    BranchLowerEq,
    BranchEq,
}

/// Operations taking a single belt position.
#[derive(PartialEq, Eq, Structural, Copy, Clone, Debug)]
pub enum UnaryOp {
    Load,
    Push,
    Jump,
}

/// Operations taking no operands.
#[derive(PartialEq, Eq, Structural, Copy, Clone, Debug)]
pub enum ZeroOp {
    Nop,
    Pop,
    Break,
}

/// A belt slot named by relative age: 0 is the most recently pushed value.
/// Valid positions are 0 to 15.
#[derive(PartialEq, Eq, Structural, Clone, Copy, Debug)]
pub struct BeltPos(pub u8);

/// A constant-bearing operand: either a resolved 16-bit value, or a symbolic
/// label awaiting a resolution pass. Encoding requires a resolved constant.
#[derive(PartialEq, Clone, Debug)]
pub enum ConstantOrLabel {
    Constant(u16),
    Label(String),
}

/// A belt-machine instruction, one variant per operand shape.
#[derive(PartialEq, Clone, Debug)]
pub enum Instruction {
    BeltConstant { op: BeltConstantOp, pos: BeltPos, constant: ConstantOrLabel },
    Constant { op: ConstantOp, constant: ConstantOrLabel },
    Immediate { op: ImmediateOp, pos: BeltPos, imm: u8 },
    Register { op: RegOp, pos1: BeltPos, pos2: BeltPos },
    Branch { op: BranchOp, pos1: BeltPos, pos2: BeltPos, addr: u16 },
    Unary { op: UnaryOp, pos: BeltPos },
    Zero { op: ZeroOp },
}

/// Whether every constant-bearing operand of the instruction is a resolved
/// constant, so the instruction can be encoded and executed.
pub open spec fn resolved(i: Instruction) -> bool {
    match i {
        Instruction::BeltConstant { constant, .. } => constant is Constant,
        Instruction::Constant { constant, .. } => constant is Constant,
        _ => true,
    }
}

/// Whether the instruction may be handed to the execution engine: constants
/// are resolved, and an immediate operand is within the range the engine
/// supports (a return count of at most 16, a shift count of at most 15).
pub open spec fn executable(i: Instruction) -> bool {
    &&& resolved(i)
    &&& match i {
        Instruction::Immediate { op, imm, .. } => match op {
            ImmediateOp::Ret => imm <= 16,
            _ => imm <= 15,
        },
        _ => true,
    }
}

/// The ghost shape of a constant-bearing operand: a label as its character
/// sequence.
pub ghost enum ConstModel {
    Constant(u16),
    Label(Seq<char>),
}

/// The ghost shape of an instruction: operand payloads as mathematics.
pub ghost enum InstrModel {
    BeltConstant { op: BeltConstantOp, pos: BeltPos, constant: ConstModel },
    Constant { op: ConstantOp, constant: ConstModel },
    Immediate { op: ImmediateOp, pos: BeltPos, imm: u8 },
    Register { op: RegOp, pos1: BeltPos, pos2: BeltPos },
    Branch { op: BranchOp, pos1: BeltPos, pos2: BeltPos, addr: u16 },
    Unary { op: UnaryOp, pos: BeltPos },
    Zero { op: ZeroOp },
}

/// The ghost shape of a symbol: a label as its character sequence, a
/// directive as its alignment value.
pub ghost enum SymbolModel {
    Instruction(InstrModel),
    Label(Seq<char>),
    Directive(int),
}

impl View for ConstantOrLabel {
    type V = ConstModel;

    open spec fn view(&self) -> ConstModel {
        match self {
            ConstantOrLabel::Constant(c) => ConstModel::Constant(*c),
            ConstantOrLabel::Label(l) => ConstModel::Label(l@),
        }
    }
}

impl View for Instruction {
    type V = InstrModel;

    open spec fn view(&self) -> InstrModel {
        match self {
            Instruction::BeltConstant { op, pos, constant } => InstrModel::BeltConstant {
                op: *op,
                pos: *pos,
                constant: constant@,
            },
            Instruction::Constant { op, constant } => InstrModel::Constant {
                op: *op,
                constant: constant@,
            },
            Instruction::Immediate { op, pos, imm } => InstrModel::Immediate {
                op: *op,
                pos: *pos,
                imm: *imm,
            },
            Instruction::Register { op, pos1, pos2 } => InstrModel::Register {
                op: *op,
                pos1: *pos1,
                pos2: *pos2,
            },
            Instruction::Branch { op, pos1, pos2, addr } => InstrModel::Branch {
                op: *op,
                pos1: *pos1,
                pos2: *pos2,
                addr: *addr,
            },
            Instruction::Unary { op, pos } => InstrModel::Unary { op: *op, pos: *pos },
            Instruction::Zero { op } => InstrModel::Zero { op: *op },
        }
    }
}

impl View for Symbol {
    type V = SymbolModel;

    open spec fn view(&self) -> SymbolModel {
        match self {
            Symbol::Instruction(i) => SymbolModel::Instruction(i@),
            Symbol::Label(l) => SymbolModel::Label(l@),
            Symbol::Directive(d) => match d {
                Directive::Alignment(a) => SymbolModel::Directive(a.alignment as int),
            },
        }
    }
}

} // verus!
