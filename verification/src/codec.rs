//! The instruction codec: the bit-exact mapping between an [`Instruction`]
//! and one or two 16-bit machine words.
//!
//! A first word is laid out `[main_op:4][sub_op:4][operand1:4][operand2:4]`,
//! from bit 15 down to bit 0. Main opcodes 1 (BeltConstant), 2 (Constant) and
//! 5 (Branch) are followed by a second word holding the 16-bit constant or
//! address. Reserved opcodes, and non-zero bits in operand slots a class
//! leaves unused, make decoding fail; that is how the machine recognises
//! garbage memory.

use vstd::prelude::*;

use crate::ast::{
    BeltConstantOp, BeltPos, BranchOp, ConstantOp, ConstantOrLabel, ImmediateOp, Instruction,
    RegOp, UnaryOp, ZeroOp, executable, resolved,
};

verus! {

/// The main opcode: bits 15 to 12 of a first word.
pub open spec fn main_op_of(w: u16) -> u16 {
    (w >> 12) & 0xF
}

/// The sub opcode: bits 11 to 8 of a first word.
pub open spec fn sub_op_of(w: u16) -> u16 {
    (w >> 8) & 0xF
}

/// The first operand nibble: bits 7 to 4 of a first word.
pub open spec fn op1_of(w: u16) -> u16 {
    (w >> 4) & 0xF
}

/// The second operand nibble: bits 3 to 0 of a first word.
pub open spec fn op2_of(w: u16) -> u16 {
    w & 0xF
}

/// What decoding a word buffer yields: the instruction at the front of the
/// buffer and the number of words it occupies, or `None` when the buffer is
/// empty, too short for a two-word instruction, or holds no valid encoding.
pub open spec fn decode_spec(buf: Seq<u16>) -> Option<(Instruction, usize)> {
    if buf.len() == 0 {
        None
    } else {
        let w = buf[0];
        let sub_op = sub_op_of(w);
        let pos1 = op1_of(w) as u8;
        let pos2 = op2_of(w) as u8;
        match main_op_of(w) {
            1u16 => if buf.len() < 2 || pos2 != 0 {
                None
            } else {
                let op = if sub_op == 0 {
                    Some(BeltConstantOp::And)
                } else if sub_op == 1 {
                    Some(BeltConstantOp::Or)
                } else if sub_op == 2 {
                    Some(BeltConstantOp::Xor)
                } else {
                    None
                };
                match op {
                    Some(op) => Some(
                        (
                            Instruction::BeltConstant {
                                op,
                                pos: BeltPos(pos1),
                                constant: ConstantOrLabel::Constant(buf[1]),
                            },
                            2usize,
                        ),
                    ),
                    None => None,
                }
            },
            2u16 => if buf.len() < 2 || pos1 != 0 || pos2 != 0 {
                None
            } else {
                let op = if sub_op == 0 {
                    Some(ConstantOp::LoadFromMemory)
                } else if sub_op == 1 {
                    Some(ConstantOp::LoadConstant)
                } else if sub_op == 2 {
                    Some(ConstantOp::Call)
                } else if sub_op == 3 {
                    Some(ConstantOp::Jump)
                } else {
                    None
                };
                match op {
                    Some(op) => Some(
                        (
                            Instruction::Constant {
                                op,
                                constant: ConstantOrLabel::Constant(buf[1]),
                            },
                            2usize,
                        ),
                    ),
                    None => None,
                }
            },
            3u16 => {
                let op = if sub_op == 0 {
                    Some(ImmediateOp::ShiftLeft)
                } else if sub_op == 1 {
                    Some(ImmediateOp::ShiftRight)
                } else if sub_op == 2 {
                    Some(ImmediateOp::Ret)
                } else {
                    None
                };
                match op {
                    Some(op) => Some(
                        (Instruction::Immediate { op, pos: BeltPos(pos1), imm: pos2 }, 1usize),
                    ),
                    None => None,
                }
            },
            4u16 => {
                let op = if sub_op == 0 {
                    Some(RegOp::Add)
                } else if sub_op == 1 {
                    Some(RegOp::Sub)
                } else if sub_op == 2 {
                    Some(RegOp::And)
                } else if sub_op == 3 {
                    Some(RegOp::Or)
                } else if sub_op == 4 {
                    Some(RegOp::Xor)
                } else if sub_op == 5 {
                    Some(RegOp::Mul)
                } else if sub_op == 6 {
                    Some(RegOp::Div)
                } else if sub_op == 7 {
                    Some(RegOp::Save)
                } else if sub_op == 8 {
                    Some(RegOp::ShiftLeft)
                } else if sub_op == 9 {
                    Some(RegOp::ShiftRight)
                } else {
                    None
                };
                match op {
                    Some(op) => Some(
                        (
                            Instruction::Register {
                                op,
                                pos1: BeltPos(pos1),
                                pos2: BeltPos(pos2),
                            },
                            1usize,
                        ),
                    ),
                    None => None,
                }
            },
            5u16 => if buf.len() < 2 {
                None
            } else {
                let op = if sub_op == 0 {
                    Some(BranchOp::BranchLower)
                } else if sub_op == 1 {
                    Some(BranchOp::BranchLowerEq)
                } else if sub_op == 2 {
                    Some(BranchOp::BranchEq)
                } else {
                    None
                };
                match op {
                    Some(op) => Some(
                        (
                            Instruction::Branch {
                                op,
                                pos1: BeltPos(pos1),
                                pos2: BeltPos(pos2),
                                addr: buf[1],
                            },
                            2usize,
                        ),
                    ),
                    None => None,
                }
            },
            6u16 => if pos2 != 0 {
                None
            } else {
                let op = if sub_op == 0 {
                    Some(UnaryOp::Load)
                } else if sub_op == 1 {
                    Some(UnaryOp::Push)
                } else if sub_op == 2 {
                    Some(UnaryOp::Jump)
                } else {
                    None
                };
                match op {
                    Some(op) => Some(
                        (Instruction::Unary { op, pos: BeltPos(pos1) }, 1usize),
                    ),
                    None => None,
                }
            },
            7u16 => if pos1 != 0 || pos2 != 0 {
                None
            } else {
                let op = if sub_op == 0 {
                    Some(ZeroOp::Nop)
                } else if sub_op == 1 {
                    Some(ZeroOp::Pop)
                } else if sub_op == 2 {
                    Some(ZeroOp::Break)
                } else {
                    None
                };
                match op {
                    Some(op) => Some((Instruction::Zero { op }, 1usize)),
                    None => None,
                }
            },
            _ => None,
        }
    }
}

/// What encoding an instruction yields: the first word, and the second word
/// for the classes that carry a constant or address. Meaningful only for a
/// resolved instruction; an unresolved label has no encoding.
pub open spec fn encode_spec(i: Instruction) -> (u16, Option<u16>) {
    match i {
        Instruction::BeltConstant { op, pos, constant } => {
            let sub_op: u16 = match op {
                BeltConstantOp::And => 0,
                BeltConstantOp::Or => 1,
                BeltConstantOp::Xor => 2,
            };
            let c: u16 = match constant {
                ConstantOrLabel::Constant(c) => c,
                ConstantOrLabel::Label(_) => 0,
            };
            (1u16 << 12 | sub_op << 8 | (pos.0 as u16) << 4 | 0u16, Some(c))
        },
        Instruction::Constant { op, constant } => {
            let sub_op: u16 = match op {
                ConstantOp::LoadFromMemory => 0,
                ConstantOp::LoadConstant => 1,
                ConstantOp::Call => 2,
                ConstantOp::Jump => 3,
            };
            let c: u16 = match constant {
                ConstantOrLabel::Constant(c) => c,
                ConstantOrLabel::Label(_) => 0,
            };
            (2u16 << 12 | sub_op << 8 | 0u16 << 4 | 0u16, Some(c))
        },
        Instruction::Immediate { op, pos, imm } => {
            let sub_op: u16 = match op {
                ImmediateOp::ShiftLeft => 0,
                ImmediateOp::ShiftRight => 1,
                ImmediateOp::Ret => 2,
            };
            (3u16 << 12 | sub_op << 8 | (pos.0 as u16) << 4 | imm as u16, None)
        },
        Instruction::Register { op, pos1, pos2 } => {
            let sub_op: u16 = match op {
                RegOp::Add => 0,
                RegOp::Sub => 1,
                RegOp::And => 2,
                RegOp::Or => 3,
                RegOp::Xor => 4,
                RegOp::Mul => 5,
                RegOp::Div => 6,
                RegOp::Save => 7,
                RegOp::ShiftLeft => 8,
                RegOp::ShiftRight => 9,
            };
            (4u16 << 12 | sub_op << 8 | (pos1.0 as u16) << 4 | (pos2.0 as u16), None)
        },
        Instruction::Branch { op, pos1, pos2, addr } => {
            let sub_op: u16 = match op {
                BranchOp::BranchLower => 0,
                BranchOp::BranchLowerEq => 1,
                BranchOp::BranchEq => 2,
            };
            (5u16 << 12 | sub_op << 8 | (pos1.0 as u16) << 4 | (pos2.0 as u16), Some(addr))
        },
        Instruction::Unary { op, pos } => {
            let sub_op: u16 = match op {
                UnaryOp::Load => 0,
                UnaryOp::Push => 1,
                UnaryOp::Jump => 2,
            };
            (6u16 << 12 | sub_op << 8 | (pos.0 as u16) << 4 | 0u16, None)
        },
        Instruction::Zero { op } => {
            let sub_op: u16 = match op {
                ZeroOp::Nop => 0,
                ZeroOp::Pop => 1,
                ZeroOp::Break => 2,
            };
            (7u16 << 12 | sub_op << 8 | 0u16 << 4 | 0u16, None)
        },
    }
}

/// The four nibbles of a word are each below 16 and reassemble to the word.
proof fn lemma_nibbles(w: u16)
    by (bit_vector)
    ensures
        (w >> 12) & 0xF < 16,
        (w >> 8) & 0xF < 16,
        (w >> 4) & 0xF < 16,
        w & 0xF < 16,
        ((w >> 12) & 0xF) << 12 | ((w >> 8) & 0xF) << 8 | ((w >> 4) & 0xF) << 4 | (w & 0xF) == w,
{
}

/// Every word that decodes successfully re-encodes to exactly the words it
/// was decoded from: the first word is reproduced bit for bit, and the second
/// word is reproduced precisely when the instruction occupies two words.
/// A decoded instruction is moreover always executable.
pub proof fn lemma_decode_encode_round_trip(w: u16, s: u16)
    ensures
        match decode_spec(seq![w, s]) {
            Some((instr, n)) => {
                &&& encode_spec(instr).0 == w
                &&& encode_spec(instr).1 == (if n == 2 { Some(s) } else { None::<u16> })
                &&& executable(instr)
                &&& 1 <= n <= 2
            },
            None => true,
        },
{
    lemma_nibbles(w);
    let buf = seq![w, s];
    assert(buf.len() == 2);
    assert(buf[0] == w);
    assert(buf[1] == s);
}

impl Instruction {
    /// Decode the instruction at the front of `buf`, returning it with the
    /// number of words it occupies, or `None` when the buffer is empty, too
    /// short, or holds no valid encoding. Total: no input makes it fail in
    /// any other way.
    pub fn decode(buf: &[u16]) -> (r: Option<(Instruction, usize)>)
        ensures
            r == decode_spec(buf@),
            match r {
                Some((instr, n)) => executable(instr) && 1 <= n <= 2,
                None => true,
            },
    {
        proof {
            if buf@.len() > 0 {
                lemma_nibbles(buf@[0]);
            }
        }
        if buf.len() == 0 {
            return None;
        }
        let word = buf[0];
        let main_op = (word >> 12) & 0xF;
        let sub_op = (word >> 8) & 0xF;
        let pos1 = ((word >> 4) & 0xF) as u8;
        let pos2 = (word & 0xF) as u8;

        let instr = match main_op {
            1 => {
                if buf.len() < 2 {
                    return None;
                }
                if pos2 != 0 {
                    return None;
                }
                let op = match sub_op {
                    0 => BeltConstantOp::And,
                    1 => BeltConstantOp::Or,
                    2 => BeltConstantOp::Xor,
                    _ => {
                        return None;
                    },
                };
                Instruction::BeltConstant {
                    op,
                    pos: BeltPos(pos1),
                    constant: ConstantOrLabel::Constant(buf[1]),
                }
            },
            2 => {
                if buf.len() < 2 {
                    return None;
                }
                if pos1 != 0 || pos2 != 0 {
                    return None;
                }
                let op = match sub_op {
                    0 => ConstantOp::LoadFromMemory,
                    1 => ConstantOp::LoadConstant,
                    2 => ConstantOp::Call,
                    3 => ConstantOp::Jump,
                    _ => {
                        return None;
                    },
                };
                Instruction::Constant { op, constant: ConstantOrLabel::Constant(buf[1]) }
            },
            3 => {
                let op = match sub_op {
                    0 => ImmediateOp::ShiftLeft,
                    1 => ImmediateOp::ShiftRight,
                    2 => ImmediateOp::Ret,
                    _ => {
                        return None;
                    },
                };
                Instruction::Immediate { op, pos: BeltPos(pos1), imm: pos2 }
            },
            4 => {
                let op = match sub_op {
                    0 => RegOp::Add,
                    1 => RegOp::Sub,
                    2 => RegOp::And,
                    3 => RegOp::Or,
                    4 => RegOp::Xor,
                    5 => RegOp::Mul,
                    6 => RegOp::Div,
                    7 => RegOp::Save,
                    8 => RegOp::ShiftLeft,
                    9 => RegOp::ShiftRight,
                    _ => {
                        return None;
                    },
                };
                Instruction::Register { op, pos1: BeltPos(pos1), pos2: BeltPos(pos2) }
            },
            5 => {
                if buf.len() < 2 {
                    return None;
                }
                let op = match sub_op {
                    0 => BranchOp::BranchLower,
                    1 => BranchOp::BranchLowerEq,
                    2 => BranchOp::BranchEq,
                    _ => {
                        return None;
                    },
                };
                Instruction::Branch {
                    op,
                    pos1: BeltPos(pos1),
                    pos2: BeltPos(pos2),
                    addr: buf[1],
                }
            },
            6 => {
                if pos2 != 0 {
                    return None;
                }
                let op = match sub_op {
                    0 => UnaryOp::Load,
                    1 => UnaryOp::Push,
                    2 => UnaryOp::Jump,
                    _ => {
                        return None;
                    },
                };
                Instruction::Unary { op, pos: BeltPos(pos1) }
            },
            7 => {
                if pos1 != 0 || pos2 != 0 {
                    return None;
                }
                let op = match sub_op {
                    0 => ZeroOp::Nop,
                    1 => ZeroOp::Pop,
                    2 => ZeroOp::Break,
                    _ => {
                        return None;
                    },
                };
                Instruction::Zero { op }
            },
            _ => {
                return None;
            },
        };

        let words_consumed: usize = if main_op == 1 || main_op == 2 || main_op == 5 {
            2
        } else {
            1
        };
        Some((instr, words_consumed))
    }

    /// Encode the instruction into its first word, and its second word for
    /// the classes that carry a constant or address. Every constant-bearing
    /// operand must already be resolved.
    pub fn encode(&self) -> (r: (u16, Option<u16>))
        requires
            resolved(*self),
        ensures
            r == encode_spec(*self),
    {
        match self {
            Instruction::BeltConstant { op, pos, constant } => {
                let sub_op: u16 = match op {
                    BeltConstantOp::And => 0,
                    BeltConstantOp::Or => 1,
                    BeltConstantOp::Xor => 2,
                };
                let c: u16 = match constant {
                    ConstantOrLabel::Constant(c) => *c,
                    ConstantOrLabel::Label(_) => vstd::pervasive::unreached(),
                };
                (1u16 << 12 | sub_op << 8 | (pos.0 as u16) << 4 | 0u16, Some(c))
            },
            Instruction::Constant { op, constant } => {
                let sub_op: u16 = match op {
                    ConstantOp::LoadFromMemory => 0,
                    ConstantOp::LoadConstant => 1,
                    ConstantOp::Call => 2,
                    ConstantOp::Jump => 3,
                };
                let c: u16 = match constant {
                    ConstantOrLabel::Constant(c) => *c,
                    ConstantOrLabel::Label(_) => vstd::pervasive::unreached(),
                };
                (2u16 << 12 | sub_op << 8 | 0u16 << 4 | 0u16, Some(c))
            },
            Instruction::Immediate { op, pos, imm } => {
                let sub_op: u16 = match op {
                    ImmediateOp::ShiftLeft => 0,
                    ImmediateOp::ShiftRight => 1,
                    ImmediateOp::Ret => 2,
                };
                (3u16 << 12 | sub_op << 8 | (pos.0 as u16) << 4 | (*imm as u16), None)
            },
            Instruction::Register { op, pos1, pos2 } => {
                let sub_op: u16 = match op {
                    RegOp::Add => 0,
                    RegOp::Sub => 1,
                    RegOp::And => 2,
                    RegOp::Or => 3,
                    RegOp::Xor => 4,
                    RegOp::Mul => 5,
                    RegOp::Div => 6,
                    RegOp::Save => 7,
                    RegOp::ShiftLeft => 8,
                    RegOp::ShiftRight => 9,
                };
                (4u16 << 12 | sub_op << 8 | (pos1.0 as u16) << 4 | (pos2.0 as u16), None)
            },
            Instruction::Branch { op, pos1, pos2, addr } => {
                let sub_op: u16 = match op {
                    BranchOp::BranchLower => 0,
                    BranchOp::BranchLowerEq => 1,
                    BranchOp::BranchEq => 2,
                };
                (5u16 << 12 | sub_op << 8 | (pos1.0 as u16) << 4 | (pos2.0 as u16), Some(*addr))
            },
            Instruction::Unary { op, pos } => {
                let sub_op: u16 = match op {
                    UnaryOp::Load => 0,
                    UnaryOp::Push => 1,
                    UnaryOp::Jump => 2,
                };
                (6u16 << 12 | sub_op << 8 | (pos.0 as u16) << 4 | 0u16, None)
            },
            Instruction::Zero { op } => {
                let sub_op: u16 = match op {
                    ZeroOp::Nop => 0,
                    ZeroOp::Pop => 1,
                    ZeroOp::Break => 2,
                };
                (7u16 << 12 | sub_op << 8 | 0u16 << 4 | 0u16, None)
            },
        }
    }
}

} // verus!
