//! The RISC-V-style instruction representation: the parallel front end's
//! data model. Programs in this form are parsed and inspected only; no
//! execution engine consumes them.

use vstd::prelude::*;

verus! {

/// A parsed RISC-V-style program: its symbols in source order.
#[derive(Debug)]
pub struct Program {
    pub symbols: Vec<Symbol>,
}

/// One line of a program.
#[derive(Debug)]
pub enum Symbol {
    Instruction(Instruction),
    Comment,
    Directive(Directive),
}

/// Request that the next emitted item start on the given boundary.
#[derive(Debug)]
pub struct Alignment {
    pub alignment: usize,
}

/// An assembler directive.
#[derive(Debug)]
pub enum Directive {
    Alignment(Alignment),
    Other(String),
}

/// The immediate-operand opcodes.
#[derive(PartialEq, Eq, Structural, Copy, Clone, Debug)]
pub enum IOpcode {
    Addi,
    Slti,
    Sltiu,
    Xori,
    Ori,
    Andi,
    Slli,
    Srli,
    Srai,
}

/// The register-register opcodes.
#[derive(PartialEq, Eq, Structural, Copy, Clone, Debug)]
pub enum ROpcode {
    Add,
    Sub,
    Sll,
    Slt,
    Sltu,
    Xor,
    Srl,
    Sra,
    Or,
    And,
}

/// The store opcodes.
#[derive(PartialEq, Eq, Structural, Copy, Clone, Debug)]
pub enum SOpcode {
    Sb,
    Sh,
    Sw,
}

/// The load opcodes.
#[derive(PartialEq, Eq, Structural, Copy, Clone, Debug)]
pub enum LOpcode {
    Lb,
    Lh,
    Lw,
}

/// The conditional-branch opcodes.
#[derive(PartialEq, Eq, Structural, Copy, Clone, Debug)]
pub enum BOpcode {
    Beq,
    Bne,
    Blt,
    Bge,
    Bltu,
    Bgeu,
}

/// The jump-and-link opcode.
#[derive(PartialEq, Eq, Structural, Copy, Clone, Debug)]
pub enum JOpcode {
    Jal,
}

/// The upper-immediate opcodes.
#[derive(PartialEq, Eq, Structural, Copy, Clone, Debug)]
pub enum UOpcode {
    Lui,
    Auipc,
}

/// A 12-bit immediate operand.
#[derive(PartialEq, Eq, Structural, Copy, Clone, Debug)]
pub struct IImmediate(pub i16);

/// A 12-bit load/store offset.
#[derive(PartialEq, Eq, Structural, Copy, Clone, Debug)]
pub struct LSImmediate(pub i16);

/// A 20-bit upper immediate.
#[derive(PartialEq, Eq, Structural, Copy, Clone, Debug)]
pub struct UImmediate(pub i32);

/// A 13-bit branch offset (even).
#[derive(PartialEq, Eq, Structural, Copy, Clone, Debug)]
pub struct BImmediate(pub i16);

/// A 21-bit jump offset.
#[derive(PartialEq, Eq, Structural, Copy, Clone, Debug)]
pub struct JImmediate(pub i32);

/// One of the 32 integer registers, by index.
#[derive(PartialEq, Eq, Structural, Copy, Clone, Debug)]
pub struct Register(u8);

impl Register {
    /// The index this register names.
    pub closed spec fn index_spec(&self) -> u8 {
        self.0
    }

    /// The register with the given index.
    pub fn from_index(value: u8) -> (r: Register)
        ensures
            r.index_spec() == value,
    {
        Register(value)
    }
}

/// A RISC-V-style instruction, one variant per encoding format.
#[derive(Debug)]
pub enum Instruction {
    IType { opcode: IOpcode, rd: Register, rs1: Register, imm: IImmediate },
    UType { opcode: UOpcode, rd: Register, imm: UImmediate },
    RType { opcode: ROpcode, rd: Register, rs1: Register, rs2: Register },
    JType { opcode: JOpcode, rd: Register, imm: JImmediate },
    BType { opcode: BOpcode, rs1: Register, rs2: Register, imm: BImmediate },
    SType { opcode: SOpcode, rs1: Register, rs2: Register, imm: LSImmediate },
    LType { opcode: LOpcode, rd: Register, rs1: Register, imm: LSImmediate },
}

/// The bit width and signedness of an I-type opcode's immediate operand.
pub open spec fn immediate_properties_spec(op: IOpcode) -> (u32, bool) {
    match op {
        IOpcode::Addi => (12, true),
        IOpcode::Slti => (12, true),
        IOpcode::Sltiu => (12, false),
        IOpcode::Xori => (12, true),
        IOpcode::Ori => (12, true),
        IOpcode::Andi => (12, true),
        IOpcode::Slli => (5, false),
        IOpcode::Srli => (5, false),
        IOpcode::Srai => (5, false),
    }
}

impl IOpcode {
    /// The bit width (always positive) and signedness that this opcode's
    /// immediate operand is range-checked against.
    pub fn immediate_properties(&self) -> (r: (u32, bool))
        ensures
            r == immediate_properties_spec(*self),
            r.0 >= 1,
    {
        match self {
            IOpcode::Addi => (12, true),
            IOpcode::Slti => (12, true),
            IOpcode::Sltiu => (12, false),
            IOpcode::Xori => (12, true),
            IOpcode::Ori => (12, true),
            IOpcode::Andi => (12, true),
            IOpcode::Slli => (5, false),
            IOpcode::Srli => (5, false),
            IOpcode::Srai => (5, false),
        }
    }
}

} // verus!
