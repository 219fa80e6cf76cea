//! The belt-machine execution engine: a belt, a 64K-word memory, a program
//! counter and a downward-growing stack pointer, with a fetch/decode/execute
//! step function.
//!
//! The semantics of every instruction is given by the spec-level machine
//! model ([`MachineModel`], [`exec_model`], [`step_model`]); each executable
//! method is proved to implement its slice of the model exactly. All 16-bit
//! arithmetic wraps; division alone fails explicitly on a zero divisor.

use vstd::prelude::*;
use vstd::wrapping::u16_specs;

use crate::ast::{
    BeltConstantOp, BeltPos, BranchOp, ConstantOp, ConstantOrLabel, ImmediateOp, Instruction,
    RegOp, UnaryOp, ZeroOp, executable,
};
use crate::belt::{Belt, BELT_SIZE, pushed};
use crate::codec::decode_spec;

verus! {

/// The number of 16-bit words of machine memory.
pub const MEM_SIZE: usize = 65536;

/// The initial program counter.
pub const PC_START: u16 = 0x0;

/// The initial stack pointer; the stack grows downward from the top of
/// memory.
pub const SP_START: u16 = 0xFFFF;

/// What one execution step reports: fall through to the next instruction,
/// transfer control, halt in an orderly way, or fail (division by zero).
#[derive(PartialEq, Eq, Structural, Copy, Clone, Debug)]
pub enum ExecutionResult {
    Continue,
    Jump { dest: u16 },
    Stop,
    Fail,
}

/// The machine state as mathematics: the belt's logical content (newest
/// value first), the memory image, and the two machine registers.
#[verifier::ext_equal]
pub ghost struct MachineModel {
    pub belt: Seq<u16>,
    pub mem: Seq<u16>,
    pub pc: u16,
    pub sp: u16,
}

/// Dimensional well-formedness of a model: a full belt and a full memory.
pub open spec fn model_wf(m: MachineModel) -> bool {
    &&& m.belt.len() == BELT_SIZE
    &&& m.mem.len() == MEM_SIZE
}

/// The belt value at the given age, wrapping modulo the capacity.
pub open spec fn peek16(b: Seq<u16>, pos: u8) -> u16 {
    b[(pos as int) % (BELT_SIZE as int)]
}

/// How far `a` lies below `sp`, in wrapping 16-bit address arithmetic:
/// the unique `d` in `0..65536` with `a + d == sp` modulo `2^16`.
pub open spec fn wdist(sp: u16, a: int) -> int {
    if a <= sp {
        sp - a
    } else {
        sp + 0x10000 - a
    }
}

/// The memory after `Call` spills the belt: the 16 belt values occupy the 16
/// addresses from `sp` downward (slot `i` at `sp - i`, wrapping); the rest
/// is unchanged.
pub open spec fn spilled_mem(m: MachineModel) -> Seq<u16> {
    Seq::new(
        MEM_SIZE as nat,
        |a: int|
            if wdist(m.sp, a) < BELT_SIZE {
                m.belt[wdist(m.sp, a)]
            } else {
                m.mem[a]
            },
    )
}

/// The belt after `Ret(imm)`: the `imm` most recent callee values stay in
/// front, and behind them the 16 words popped off the stack, the deepest
/// (popped last) in front, each read at `sp + 16 - t` for restored slot
/// `t = j - imm`.
pub open spec fn ret_belt(m: MachineModel, imm: u8) -> Seq<u16> {
    Seq::new(
        BELT_SIZE as nat,
        |j: int|
            if j < imm {
                m.belt[j]
            } else {
                m.mem[u16_specs::wrapping_add(m.sp, (16 - (j - imm)) as u16) as int]
            },
    )
}

/// The model of a `BeltConstant` instruction: combine the belt value at
/// `pos` with the constant and push the result.
pub open spec fn exec_belt_constant_model(
    m: MachineModel,
    op: BeltConstantOp,
    pos: BeltPos,
    c: u16,
) -> (MachineModel, ExecutionResult) {
    let v = peek16(m.belt, pos.0);
    let result = match op {
        BeltConstantOp::And => v & c,
        BeltConstantOp::Or => v | c,
        BeltConstantOp::Xor => v ^ c,
    };
    (MachineModel { belt: pushed(m.belt, result), ..m }, ExecutionResult::Continue)
}

/// The model of a `Constant` instruction: load from memory or as a literal,
/// call (spilling the whole belt to the stack), or jump unconditionally.
pub open spec fn exec_constant_model(m: MachineModel, op: ConstantOp, c: u16) -> (
    MachineModel,
    ExecutionResult,
) {
    match op {
        ConstantOp::LoadFromMemory => (
            MachineModel { belt: pushed(m.belt, m.mem[c as int]), ..m },
            ExecutionResult::Continue,
        ),
        ConstantOp::LoadConstant => (
            MachineModel { belt: pushed(m.belt, c), ..m },
            ExecutionResult::Continue,
        ),
        ConstantOp::Call => (
            MachineModel {
                mem: spilled_mem(m),
                sp: u16_specs::wrapping_sub(m.sp, 16),
                ..m
            },
            ExecutionResult::Jump { dest: c },
        ),
        ConstantOp::Jump => (m, ExecutionResult::Jump { dest: c }),
    }
}

/// The model of an `Immediate` instruction: shift the belt value at `pos`
/// by the immediate, or return: restore the spilled caller belt from the
/// stack, keep the `imm` most recent callee values in front, and jump to
/// the return address popped beneath the spilled belt.
pub open spec fn exec_immediate_model(
    m: MachineModel,
    op: ImmediateOp,
    pos: BeltPos,
    imm: u8,
) -> (MachineModel, ExecutionResult) {
    let v = peek16(m.belt, pos.0);
    match op {
        ImmediateOp::ShiftLeft => (
            MachineModel { belt: pushed(m.belt, v << imm), ..m },
            ExecutionResult::Continue,
        ),
        ImmediateOp::ShiftRight => (
            MachineModel { belt: pushed(m.belt, v >> imm), ..m },
            ExecutionResult::Continue,
        ),
        ImmediateOp::Ret => (
            MachineModel {
                belt: ret_belt(m, imm),
                sp: u16_specs::wrapping_add(m.sp, 17),
                ..m
            },
            ExecutionResult::Jump {
                dest: m.mem[u16_specs::wrapping_add(m.sp, 17) as int],
            },
        ),
    }
}

/// The model of a `Register` instruction: combine the belt values at the two
/// positions and push the result, except `Save`, which stores the first
/// value at the address given by the second, and `Div`, which fails on a
/// zero divisor leaving the machine untouched. Add, subtract and multiply
/// wrap; shift counts are taken modulo 16.
pub open spec fn exec_register_model(
    m: MachineModel,
    op: RegOp,
    pos1: BeltPos,
    pos2: BeltPos,
) -> (MachineModel, ExecutionResult) {
    let v1 = peek16(m.belt, pos1.0);
    let v2 = peek16(m.belt, pos2.0);
    match op {
        RegOp::Add => (
            MachineModel { belt: pushed(m.belt, u16_specs::wrapping_add(v1, v2)), ..m },
            ExecutionResult::Continue,
        ),
        RegOp::Sub => (
            MachineModel { belt: pushed(m.belt, u16_specs::wrapping_sub(v1, v2)), ..m },
            ExecutionResult::Continue,
        ),
        RegOp::Mul => (
            MachineModel { belt: pushed(m.belt, u16_specs::wrapping_mul(v1, v2)), ..m },
            ExecutionResult::Continue,
        ),
        RegOp::Div => if v2 == 0 {
            (m, ExecutionResult::Fail)
        } else {
            (
                MachineModel { belt: pushed(m.belt, v1 / v2), ..m },
                ExecutionResult::Continue,
            )
        },
        RegOp::And => (
            MachineModel { belt: pushed(m.belt, v1 & v2), ..m },
            ExecutionResult::Continue,
        ),
        RegOp::Or => (
            MachineModel { belt: pushed(m.belt, v1 | v2), ..m },
            ExecutionResult::Continue,
        ),
        RegOp::Xor => (
            MachineModel { belt: pushed(m.belt, v1 ^ v2), ..m },
            ExecutionResult::Continue,
        ),
        RegOp::Save => (
            MachineModel { mem: m.mem.update(v2 as int, v1), ..m },
            ExecutionResult::Continue,
        ),
        RegOp::ShiftLeft => (
            MachineModel { belt: pushed(m.belt, u16_specs::wrapping_shl(v1, v2 as u32)), ..m },
            ExecutionResult::Continue,
        ),
        RegOp::ShiftRight => (
            MachineModel { belt: pushed(m.belt, u16_specs::wrapping_shr(v1, v2 as u32)), ..m },
            ExecutionResult::Continue,
        ),
    }
}

/// The model of a `Branch` instruction: compare the two belt values and
/// either transfer control to the target address or fall through.
pub open spec fn exec_branch_model(
    m: MachineModel,
    op: BranchOp,
    pos1: BeltPos,
    pos2: BeltPos,
    addr: u16,
) -> (MachineModel, ExecutionResult) {
    let v1 = peek16(m.belt, pos1.0);
    let v2 = peek16(m.belt, pos2.0);
    let taken = match op {
        BranchOp::BranchLower => v1 < v2,
        BranchOp::BranchLowerEq => v1 <= v2,
        BranchOp::BranchEq => v1 == v2,
    };
    if taken {
        (m, ExecutionResult::Jump { dest: addr })
    } else {
        (m, ExecutionResult::Continue)
    }
}

/// The model of a `Unary` instruction: load indirect through the belt value,
/// jump to it, or push it onto the explicit stack.
pub open spec fn exec_unary_model(m: MachineModel, op: UnaryOp, pos: BeltPos) -> (
    MachineModel,
    ExecutionResult,
) {
    let v = peek16(m.belt, pos.0);
    match op {
        UnaryOp::Load => (
            MachineModel { belt: pushed(m.belt, m.mem[v as int]), ..m },
            ExecutionResult::Continue,
        ),
        UnaryOp::Jump => (m, ExecutionResult::Jump { dest: v }),
        UnaryOp::Push => (
            MachineModel {
                mem: m.mem.update(m.sp as int, v),
                sp: u16_specs::wrapping_sub(m.sp, 1),
                ..m
            },
            ExecutionResult::Continue,
        ),
    }
}

/// The model of a `Zero` instruction: do nothing, pop the explicit stack
/// onto the belt, or halt.
pub open spec fn exec_zero_model(m: MachineModel, op: ZeroOp) -> (MachineModel, ExecutionResult) {
    match op {
        ZeroOp::Nop => (m, ExecutionResult::Continue),
        ZeroOp::Pop => (
            MachineModel {
                belt: pushed(m.belt, m.mem[u16_specs::wrapping_add(m.sp, 1) as int]),
                sp: u16_specs::wrapping_add(m.sp, 1),
                ..m
            },
            ExecutionResult::Continue,
        ),
        ZeroOp::Break => (m, ExecutionResult::Stop),
    }
}

/// The model of executing one decoded instruction. The program counter is
/// never touched here; [`step_model`] applies the result to it. Meaningful
/// for executable instructions; an unresolved label has no execution.
pub open spec fn exec_model(m: MachineModel, instr: Instruction) -> (
    MachineModel,
    ExecutionResult,
) {
    match instr {
        Instruction::BeltConstant { op, pos, constant } => match constant {
            ConstantOrLabel::Constant(c) => exec_belt_constant_model(m, op, pos, c),
            ConstantOrLabel::Label(_) => (m, ExecutionResult::Stop),
        },
        Instruction::Constant { op, constant } => match constant {
            ConstantOrLabel::Constant(c) => exec_constant_model(m, op, c),
            ConstantOrLabel::Label(_) => (m, ExecutionResult::Stop),
        },
        Instruction::Immediate { op, pos, imm } => exec_immediate_model(m, op, pos, imm),
        Instruction::Register { op, pos1, pos2 } => exec_register_model(m, op, pos1, pos2),
        Instruction::Branch { op, pos1, pos2, addr } => exec_branch_model(m, op, pos1, pos2, addr),
        Instruction::Unary { op, pos } => exec_unary_model(m, op, pos),
        Instruction::Zero { op } => exec_zero_model(m, op),
    }
}

/// The model of one fetch/decode/execute step: fetch the two words at
/// `pc` and `pc + 1` (wrapping), decode, execute, and advance the program
/// counter by the words consumed on `Continue`, set it on `Jump`, and leave
/// the whole machine untouched on decode failure (`Stop`) or `Fail`.
pub open spec fn step_model(m: MachineModel) -> (MachineModel, ExecutionResult) {
    let w1 = m.mem[m.pc as int];
    let w2 = m.mem[u16_specs::wrapping_add(m.pc, 1) as int];
    match decode_spec(seq![w1, w2]) {
        Some((instr, size)) => {
            let (m2, r) = exec_model(m, instr);
            match r {
                ExecutionResult::Continue => (
                    MachineModel { pc: u16_specs::wrapping_add(m2.pc, size as u16), ..m2 },
                    r,
                ),
                ExecutionResult::Jump { dest } => (MachineModel { pc: dest, ..m2 }, r),
                ExecutionResult::Stop => (m2, r),
                ExecutionResult::Fail => (m2, r),
            }
        },
        None => (m, ExecutionResult::Stop),
    }
}

/// The virtual machine. The fields are deliberately open for inspection by
/// a driver or a test harness; the structural invariant [`BeltMachine::wf`]
/// must be preserved by any direct mutation.
#[derive(Debug)]
pub struct BeltMachine {
    pub belt: Belt,
    pub memory: Vec<u16>,
    pub pc: u16,
    pub sp: u16,
}

impl BeltMachine {
    /// The structural invariant: a well-formed belt and a full memory image.
    pub open spec fn wf(&self) -> bool {
        &&& self.belt.wf()
        &&& self.memory@.len() == MEM_SIZE
    }

    /// The machine state as mathematics.
    pub open spec fn model(&self) -> MachineModel {
        MachineModel { belt: self.belt@, mem: self.memory@, pc: self.pc, sp: self.sp }
    }

    /// A well-formed machine has a well-formed model.
    pub proof fn lemma_model_wf(&self)
        requires
            self.wf(),
        ensures
            model_wf(self.model()),
    {
        self.belt.lemma_view_len();
    }

    /// A fresh machine: zeroed belt and memory, the program counter at
    /// `PC_START`, the stack pointer at `SP_START`.
    pub fn new() -> (r: Self)
        ensures
            r.wf(),
            r.model().belt == Seq::new(BELT_SIZE as nat, |i: int| 0u16),
            r.model().mem == Seq::new(MEM_SIZE as nat, |i: int| 0u16),
            r.pc == PC_START,
            r.sp == SP_START,
    {
        let mut memory: Vec<u16> = Vec::new();
        let mut i: usize = 0;
        while i < MEM_SIZE
            invariant
                i <= MEM_SIZE,
                memory@.len() == i,
                forall|j: int| 0 <= j < i ==> memory@[j] == 0u16,
            decreases MEM_SIZE - i,
        {
            memory.push(0);
            i = i + 1;
        }
        proof {
            assert(memory@ =~= Seq::new(MEM_SIZE as nat, |i: int| 0u16));
        }
        Self { belt: Belt::default(), memory, pc: PC_START, sp: SP_START }
    }

    /// A machine built from an explicit snapshot: belt slots (most recent
    /// first), a full memory image, and the two registers.
    pub fn with_state(belt: [u16; 16], memory: [u16; 65536], pc: u16, sp: u16) -> (r: Self)
        ensures
            r.wf(),
            r.model().belt == belt@,
            r.model().mem == memory@,
            r.pc == pc,
            r.sp == sp,
    {
        let mut mem: Vec<u16> = Vec::new();
        let mut i: usize = 0;
        while i < MEM_SIZE
            invariant
                i <= MEM_SIZE,
                mem@.len() == i,
                forall|j: int| 0 <= j < i ==> mem@[j] == memory@[j],
            decreases MEM_SIZE - i,
        {
            mem.push(memory[i]);
            i = i + 1;
        }
        proof {
            assert(mem@ =~= memory@);
        }
        Self { belt: Belt::with_state(belt), memory: mem, pc, sp }
    }

    /// One fetch/decode/execute step, exactly as [`step_model`] describes.
    pub fn step(&mut self) -> (r: ExecutionResult)
        requires
            old(self).wf(),
        ensures
            final(self).wf(),
            final(self).model() == step_model(old(self).model()).0,
            r == step_model(old(self).model()).1,
    {
        let first_word = self.memory[self.pc as usize];
        let second_word = self.memory[self.pc.wrapping_add(1) as usize];
        let buf: [u16; 2] = [first_word, second_word];
        proof {
            assert(buf@ =~= seq![first_word, second_word]);
        }
        let instruction = Instruction::decode(buf.as_slice());
        if let Some((instruction, size)) = instruction {
            let exec_result = self.execute_instruction(instruction);
            match exec_result {
                ExecutionResult::Continue => {
                    self.pc = self.pc.wrapping_add(size as u16);
                },
                ExecutionResult::Jump { dest } => {
                    self.pc = dest;
                },
                ExecutionResult::Stop | ExecutionResult::Fail => {},
            }
            exec_result
        } else {
            ExecutionResult::Stop
        }
    }

    /// Execute one decoded instruction, exactly as [`exec_model`] describes.
    /// The program counter is left alone; `step` applies the result to it.
    pub fn execute_instruction(&mut self, instruction: Instruction) -> (r: ExecutionResult)
        requires
            old(self).wf(),
            executable(instruction),
        ensures
            final(self).wf(),
            final(self).model() == exec_model(old(self).model(), instruction).0,
            r == exec_model(old(self).model(), instruction).1,
            final(self).pc == old(self).pc,
    {
        match instruction {
            Instruction::BeltConstant { op, pos, constant } => match constant {
                ConstantOrLabel::Constant(c) => self.execute_belt_constant(op, pos, c),
                ConstantOrLabel::Label(_) => vstd::pervasive::unreached(),
            },
            Instruction::Constant { op, constant } => match constant {
                ConstantOrLabel::Constant(c) => self.execute_constant(op, c),
                ConstantOrLabel::Label(_) => vstd::pervasive::unreached(),
            },
            Instruction::Immediate { op, pos, imm } => self.execute_immediate(op, pos, imm),
            Instruction::Register { op, pos1, pos2 } => self.execute_register(op, pos1, pos2),
            Instruction::Branch { op, pos1, pos2, addr } => self.execute_branch(
                op,
                pos1,
                pos2,
                addr,
            ),
            Instruction::Unary { op, pos } => self.execute_unary(op, pos),
            Instruction::Zero { op } => self.execute_zeroop(op),
        }
    }

    /// Execute a `Unary` instruction, exactly as [`exec_unary_model`]
    /// describes.
    pub fn execute_unary(&mut self, op: UnaryOp, pos: BeltPos) -> (r: ExecutionResult)
        requires
            old(self).wf(),
        ensures
            final(self).wf(),
            final(self).model() == exec_unary_model(old(self).model(), op, pos).0,
            r == exec_unary_model(old(self).model(), op, pos).1,
    {
        let BeltPos(pos) = pos;
        let pos = pos as usize;
        match op {
            UnaryOp::Load => {
                let addr = *self.belt.peek_belt(pos);
                let value = self.memory[addr as usize];
                self.belt.push_belt(value);
                ExecutionResult::Continue
            },
            UnaryOp::Jump => ExecutionResult::Jump { dest: *self.belt.peek_belt(pos) },
            UnaryOp::Push => {
                let value = *self.belt.peek_belt(pos);
                self.stack_push(value);
                ExecutionResult::Continue
            },
        }
    }

    /// Execute a `Zero` instruction, exactly as [`exec_zero_model`]
    /// describes.
    pub fn execute_zeroop(&mut self, op: ZeroOp) -> (r: ExecutionResult)
        requires
            old(self).wf(),
        ensures
            final(self).wf(),
            final(self).model() == exec_zero_model(old(self).model(), op).0,
            r == exec_zero_model(old(self).model(), op).1,
    {
        match op {
            ZeroOp::Nop => ExecutionResult::Continue,
            ZeroOp::Pop => {
                let value = self.stack_pop();
                self.belt.push_belt(value);
                ExecutionResult::Continue
            },
            ZeroOp::Break => ExecutionResult::Stop,
        }
    }

    /// Execute a `BeltConstant` instruction, exactly as
    /// [`exec_belt_constant_model`] describes.
    fn execute_belt_constant(&mut self, op: BeltConstantOp, pos: BeltPos, constant: u16) -> (r:
        ExecutionResult)
        requires
            old(self).wf(),
        ensures
            final(self).wf(),
            final(self).model() == exec_belt_constant_model(
                old(self).model(),
                op,
                pos,
                constant,
            ).0,
            r == exec_belt_constant_model(old(self).model(), op, pos, constant).1,
    {
        let BeltPos(pos) = pos;
        let value = *self.belt.peek_belt(pos as usize);
        let result = match op {
            BeltConstantOp::And => value & constant,
            BeltConstantOp::Or => value | constant,
            BeltConstantOp::Xor => value ^ constant,
        };
        self.belt.push_belt(result);
        ExecutionResult::Continue
    }

    /// Execute a `Register` instruction, exactly as [`exec_register_model`]
    /// describes.
    fn execute_register(&mut self, op: RegOp, pos1: BeltPos, pos2: BeltPos) -> (r:
        ExecutionResult)
        requires
            old(self).wf(),
        ensures
            final(self).wf(),
            final(self).model() == exec_register_model(old(self).model(), op, pos1, pos2).0,
            r == exec_register_model(old(self).model(), op, pos1, pos2).1,
    {
        let BeltPos(pos1) = pos1;
        let BeltPos(pos2) = pos2;
        let value1 = *self.belt.peek_belt(pos1 as usize);
        let value2 = *self.belt.peek_belt(pos2 as usize);

        let result_value = match op {
            RegOp::Add => value1.wrapping_add(value2),
            RegOp::Sub => value1.wrapping_sub(value2),
            RegOp::Mul => value1.wrapping_mul(value2),
            RegOp::Div => {
                if value2 == 0 {
                    return ExecutionResult::Fail;
                }
                value1 / value2
            },
            RegOp::And => value1 & value2,
            RegOp::Or => value1 | value2,
            RegOp::Xor => value1 ^ value2,
            RegOp::Save => {
                self.memory[value2 as usize] = value1;
                return ExecutionResult::Continue;
            },
            RegOp::ShiftLeft => value1.wrapping_shl(value2 as u32),
            RegOp::ShiftRight => value1.wrapping_shr(value2 as u32),
        };

        self.belt.push_belt(result_value);
        ExecutionResult::Continue
    }

    /// Execute an `Immediate` instruction, exactly as
    /// [`exec_immediate_model`] describes. A shift count must be at most 15
    /// and a return count at most 16.
    fn execute_immediate(&mut self, op: ImmediateOp, pos: BeltPos, imm: u8) -> (r:
        ExecutionResult)
        requires
            old(self).wf(),
            op is Ret ==> imm <= 16,
            !(op is Ret) ==> imm <= 15,
        ensures
            final(self).wf(),
            final(self).model() == exec_immediate_model(old(self).model(), op, pos, imm).0,
            r == exec_immediate_model(old(self).model(), op, pos, imm).1,
    {
        let BeltPos(pos) = pos;
        let value = *self.belt.peek_belt(pos as usize);

        match op {
            ImmediateOp::ShiftLeft => {
                let result = value << imm;
                self.belt.push_belt(result);
                ExecutionResult::Continue
            },
            ImmediateOp::ShiftRight => {
                let result = value >> imm;
                self.belt.push_belt(result);
                ExecutionResult::Continue
            },
            ImmediateOp::Ret => {
                proof {
                    self.lemma_model_wf();
                }
                let ghost m0 = self.model();

                // Snapshot the callee belt before it is overwritten.
                let mut saved: Vec<u16> = Vec::new();
                let mut i: usize = 0;
                while i < BELT_SIZE
                    invariant
                        old(self).wf(),
                        *self == *old(self),
                        m0 == old(self).model(),
                        model_wf(m0),
                        i <= BELT_SIZE,
                        saved@.len() == i,
                        forall|j: int| 0 <= j < i ==> saved@[j] == m0.belt[j],
                    decreases BELT_SIZE - i,
                {
                    proof {
                        self.belt.lemma_view_len();
                    }
                    saved.push(*self.belt.peek_belt(i));
                    i = i + 1;
                }

                // Pop the spilled caller belt back, oldest value first.
                let mut k: usize = 0;
                proof {
                    // The loop invariant's shape with no value popped yet.
                    assert(self.belt@ =~= Seq::new(
                        BELT_SIZE as nat,
                        |j: int|
                            if j < 0 {
                                m0.mem[0]
                            } else {
                                m0.belt[j]
                            },
                    ));
                }
                while k < BELT_SIZE
                    invariant
                        self.wf(),
                        m0 == old(self).model(),
                        model_wf(m0),
                        k <= BELT_SIZE,
                        self.memory@ == m0.mem,
                        self.pc == m0.pc,
                        self.sp == u16_specs::wrapping_add(m0.sp, k as u16),
                        self.belt@ == Seq::new(
                            BELT_SIZE as nat,
                            |j: int|
                                if j < k {
                                    m0.mem[u16_specs::wrapping_add(m0.sp, (k - j) as u16) as int]
                                } else {
                                    m0.belt[j - k]
                                },
                        ),
                    decreases BELT_SIZE - k,
                {
                    let val = self.stack_pop();
                    self.belt.push_belt(val);
                    proof {
                        assert(u16_specs::wrapping_add(
                            u16_specs::wrapping_add(m0.sp, k as u16),
                            1,
                        ) == u16_specs::wrapping_add(m0.sp, (k + 1) as u16));
                        assert(self.belt@ =~= Seq::new(
                            BELT_SIZE as nat,
                            |j: int|
                                if j < k + 1 {
                                    m0.mem[u16_specs::wrapping_add(
                                        m0.sp,
                                        (k + 1 - j) as u16,
                                    ) as int]
                                } else {
                                    m0.belt[j - (k + 1)]
                                },
                        ));
                    }
                    k = k + 1;
                }

                let ghost restored = self.belt@;

                // Re-push the `imm` most recent callee values, oldest first.
                let mut i: usize = imm as usize;
                proof {
                    // The loop invariant's shape with no value re-pushed yet.
                    assert(self.belt@ =~= Seq::new(
                        BELT_SIZE as nat,
                        |j: int|
                            if j < imm - (imm as usize) {
                                saved@[imm as usize + j]
                            } else {
                                restored[j - (imm - (imm as usize))]
                            },
                    ));
                }
                while i > 0
                    invariant
                        self.wf(),
                        m0 == old(self).model(),
                        model_wf(m0),
                        i <= imm,
                        imm <= 16,
                        saved@.len() == BELT_SIZE,
                        forall|j: int| 0 <= j < BELT_SIZE ==> saved@[j] == m0.belt[j],
                        restored.len() == BELT_SIZE,
                        self.memory@ == m0.mem,
                        self.pc == m0.pc,
                        self.sp == u16_specs::wrapping_add(m0.sp, 16),
                        self.belt@ == Seq::new(
                            BELT_SIZE as nat,
                            |j: int|
                                if j < imm - i {
                                    saved@[i + j]
                                } else {
                                    restored[j - (imm - i)]
                                },
                        ),
                    decreases i,
                {
                    i = i - 1;
                    let v = saved[i];
                    self.belt.push_belt(v);
                    proof {
                        assert(self.belt@ =~= Seq::new(
                            BELT_SIZE as nat,
                            |j: int|
                                if j < imm - i {
                                    saved@[i + j]
                                } else {
                                    restored[j - (imm - i)]
                                },
                        ));
                    }
                }

                let dest = self.stack_pop();
                proof {
                    assert(u16_specs::wrapping_add(u16_specs::wrapping_add(m0.sp, 16), 1)
                        == u16_specs::wrapping_add(m0.sp, 17));
                    assert(self.belt@ =~= ret_belt(m0, imm));
                }
                ExecutionResult::Jump { dest }
            },
        }
    }

    /// Execute a `Branch` instruction, exactly as [`exec_branch_model`]
    /// describes.
    fn execute_branch(&mut self, op: BranchOp, pos1: BeltPos, pos2: BeltPos, target_addr: u16) -> (r:
        ExecutionResult)
        requires
            old(self).wf(),
        ensures
            final(self).wf(),
            final(self).model() == exec_branch_model(
                old(self).model(),
                op,
                pos1,
                pos2,
                target_addr,
            ).0,
            r == exec_branch_model(old(self).model(), op, pos1, pos2, target_addr).1,
    {
        let BeltPos(pos1) = pos1;
        let BeltPos(pos2) = pos2;
        let value1 = *self.belt.peek_belt(pos1 as usize);
        let value2 = *self.belt.peek_belt(pos2 as usize);

        let branch_taken = match op {
            BranchOp::BranchLower => value1 < value2,
            BranchOp::BranchLowerEq => value1 <= value2,
            BranchOp::BranchEq => value1 == value2,
        };

        if branch_taken {
            ExecutionResult::Jump { dest: target_addr }
        } else {
            ExecutionResult::Continue
        }
    }

    /// Execute a `Constant` instruction, exactly as [`exec_constant_model`]
    /// describes.
    fn execute_constant(&mut self, op: ConstantOp, constant: u16) -> (r: ExecutionResult)
        requires
            old(self).wf(),
        ensures
            final(self).wf(),
            final(self).model() == exec_constant_model(old(self).model(), op, constant).0,
            r == exec_constant_model(old(self).model(), op, constant).1,
    {
        match op {
            ConstantOp::LoadFromMemory => {
                let value = self.memory[constant as usize];
                self.belt.push_belt(value);
                ExecutionResult::Continue
            },
            ConstantOp::LoadConstant => {
                self.belt.push_belt(constant);
                ExecutionResult::Continue
            },
            ConstantOp::Call => {
                let ghost m0 = self.model();
                proof {
                    self.lemma_model_wf();
                }
                let mut i: usize = 0;
                while i < BELT_SIZE
                    invariant
                        self.wf(),
                        m0 == old(self).model(),
                        model_wf(m0),
                        i <= BELT_SIZE,
                        self.belt@ == m0.belt,
                        self.pc == m0.pc,
                        self.sp == u16_specs::wrapping_sub(m0.sp, i as u16),
                        self.memory@ == Seq::new(
                            MEM_SIZE as nat,
                            |a: int|
                                if wdist(m0.sp, a) < i {
                                    m0.belt[wdist(m0.sp, a)]
                                } else {
                                    m0.mem[a]
                                },
                        ),
                    decreases BELT_SIZE - i,
                {
                    let v = *self.belt.peek_belt(i);
                    self.stack_push(v);
                    proof {
                        assert(wdist(m0.sp, u16_specs::wrapping_sub(m0.sp, i as u16) as int)
                            == i);
                        assert(u16_specs::wrapping_sub(
                            u16_specs::wrapping_sub(m0.sp, i as u16),
                            1,
                        ) == u16_specs::wrapping_sub(m0.sp, (i + 1) as u16));
                        assert(self.memory@ =~= Seq::new(
                            MEM_SIZE as nat,
                            |a: int|
                                if wdist(m0.sp, a) < i + 1 {
                                    m0.belt[wdist(m0.sp, a)]
                                } else {
                                    m0.mem[a]
                                },
                        ));
                    }
                    i = i + 1;
                }
                proof {
                    assert(self.memory@ =~= spilled_mem(m0));
                }
                ExecutionResult::Jump { dest: constant }
            },
            ConstantOp::Jump => ExecutionResult::Jump { dest: constant },
        }
    }

    /// Pop the explicit stack: the stack pointer moves up one address
    /// (wrapping) and the word there is returned. Memory and belt are
    /// untouched.
    pub fn stack_pop(&mut self) -> (r: u16)
        requires
            old(self).wf(),
        ensures
            final(self).wf(),
            final(self).sp == u16_specs::wrapping_add(old(self).sp, 1),
            r == old(self).memory@[final(self).sp as int],
            final(self).memory == old(self).memory,
            final(self).belt == old(self).belt,
            final(self).pc == old(self).pc,
    {
        self.sp = self.sp.wrapping_add(1);
        self.memory[self.sp as usize]
    }

    /// Push onto the explicit stack: the value is written at the stack
    /// pointer, which then moves down one address (wrapping).
    pub fn stack_push(&mut self, value: u16)
        requires
            old(self).wf(),
        ensures
            final(self).wf(),
            final(self).sp == u16_specs::wrapping_sub(old(self).sp, 1),
            final(self).memory@ == old(self).memory@.update(old(self).sp as int, value),
            final(self).belt == old(self).belt,
            final(self).pc == old(self).pc,
    {
        self.memory[self.sp as usize] = value;
        self.sp = self.sp.wrapping_sub(1);
    }
}

impl Default for BeltMachine {
    /// The same machine as [`BeltMachine::new`].
    fn default() -> (r: Self)
        ensures
            r.wf(),
            r.model().belt == Seq::new(BELT_SIZE as nat, |i: int| 0u16),
            r.model().mem == Seq::new(MEM_SIZE as nat, |i: int| 0u16),
            r.pc == PC_START,
            r.sp == SP_START,
    {
        Self::new()
    }
}

/// The stack word `k` addresses above the stack pointer of `m`, in
/// wrapping address arithmetic.
pub open spec fn stack_word(m: MachineModel, k: int) -> u16 {
    m.mem[u16_specs::wrapping_add(m.sp, k as u16) as int]
}

/// Division fail-stop at the instruction level: a `Register`/`Div` whose
/// divisor slot holds zero yields `Fail` and leaves the whole machine state
/// untouched.
pub proof fn lemma_div_by_zero_fail(m: MachineModel, pos1: BeltPos, pos2: BeltPos)
    requires
        model_wf(m),
        peek16(m.belt, pos2.0) == 0,
    ensures
        exec_model(m, Instruction::Register { op: RegOp::Div, pos1, pos2 }) == (
            m,
            ExecutionResult::Fail,
        ),
{
}

/// Division fail-stop at the step level: when the words at the program
/// counter decode to a `Register`/`Div` whose divisor slot holds zero, the
/// step returns `Fail` and the machine, the program counter included, is
/// exactly as it was.
pub proof fn lemma_div_fail_stop(m: MachineModel)
    requires
        model_wf(m),
        ({
            let w1 = m.mem[m.pc as int];
            let w2 = m.mem[u16_specs::wrapping_add(m.pc, 1) as int];
            decode_spec(seq![w1, w2]) matches Some((
                Instruction::Register { op: RegOp::Div, pos1, pos2 },
                n,
            )) && peek16(m.belt, pos2.0) == 0
        }),
    ensures
        step_model(m) == (m, ExecutionResult::Fail),
{
}

/// `Zero { Break }` halts: when the words at the program counter decode to
/// it, the step returns `Stop` and the machine is exactly as it was.
pub proof fn lemma_break_halts(m: MachineModel)
    requires
        model_wf(m),
        ({
            let w1 = m.mem[m.pc as int];
            let w2 = m.mem[u16_specs::wrapping_add(m.pc, 1) as int];
            decode_spec(seq![w1, w2]) matches Some((Instruction::Zero { op: ZeroOp::Break }, n))
        }),
    ensures
        step_model(m) == (m, ExecutionResult::Stop),
{
}

/// `Zero { Nop }` continues: when the words at the program counter decode to
/// it, the step returns `Continue` and advances the program counter by
/// exactly one word, leaving belt, memory and stack pointer untouched.
pub proof fn lemma_nop_advances(m: MachineModel)
    requires
        model_wf(m),
        ({
            let w1 = m.mem[m.pc as int];
            let w2 = m.mem[u16_specs::wrapping_add(m.pc, 1) as int];
            decode_spec(seq![w1, w2]) matches Some((Instruction::Zero { op: ZeroOp::Nop }, n))
        }),
    ensures
        step_model(m) == (
            MachineModel { pc: u16_specs::wrapping_add(m.pc, 1), ..m },
            ExecutionResult::Continue,
        ),
{
}

/// Call/Ret round trip. `Call(addr)` spills the 16 belt slots onto the
/// stack. For any later (callee) state `mc` whose stack pointer is where
/// the call left it and whose 17 stack words above it are untouched,
/// `Ret(n)` restores the caller belt behind the `n` most recent callee
/// values -- slot `j` holds the callee value `mc.belt[j]` for `j < n` and
/// the pre-call value `m1.belt[j - n]` for `j >= n` -- and resumes at the
/// address that lay on top of the stack before the call.
pub proof fn lemma_call_ret_round_trip(m1: MachineModel, addr: u16, mc: MachineModel, n: u8)
    requires
        model_wf(m1),
        model_wf(mc),
        n <= 16,
        ({
            let m2 = exec_model(
                m1,
                Instruction::Constant {
                    op: ConstantOp::Call,
                    constant: ConstantOrLabel::Constant(addr),
                },
            ).0;
            &&& mc.sp == m2.sp
            &&& forall|k: int| 1 <= k <= 17 ==> #[trigger] stack_word(mc, k) == stack_word(m2, k)
        }),
    ensures
        ({
            let ret = Instruction::Immediate { op: ImmediateOp::Ret, pos: BeltPos(0), imm: n };
            let m3 = exec_model(mc, ret).0;
            let r3 = exec_model(mc, ret).1;
            &&& r3 == (ExecutionResult::Jump {
                dest: m1.mem[u16_specs::wrapping_add(m1.sp, 1) as int],
            })
            &&& m3.sp == u16_specs::wrapping_add(m1.sp, 1)
            &&& forall|j: int| 0 <= j < n ==> m3.belt[j] == mc.belt[j]
            &&& forall|j: int| n <= j < BELT_SIZE ==> m3.belt[j] == m1.belt[j - n]
            &&& m3.mem == mc.mem
            &&& m3.pc == mc.pc
        }),
{
    let m2 = exec_model(
        m1,
        Instruction::Constant { op: ConstantOp::Call, constant: ConstantOrLabel::Constant(addr) },
    ).0;
    assert(m2.sp == u16_specs::wrapping_sub(m1.sp, 16));
    assert(m2.mem == spilled_mem(m1));
    let ret = Instruction::Immediate { op: ImmediateOp::Ret, pos: BeltPos(0), imm: n };
    let m3 = exec_model(mc, ret).0;
    assert(m3.belt == ret_belt(mc, n));
    assert(m3.sp == u16_specs::wrapping_add(mc.sp, 17));
    assert(m3.sp == u16_specs::wrapping_add(m1.sp, 1));

    // The return address: 17 words above the callee stack pointer, one word
    // above the caller's, outside the spilled belt region.
    let a17 = u16_specs::wrapping_add(mc.sp, 17);
    assert(stack_word(mc, 17) == stack_word(m2, 17));
    assert(mc.mem[a17 as int] == m2.mem[a17 as int]);
    assert(a17 == u16_specs::wrapping_add(m1.sp, 1));
    assert(wdist(m1.sp, a17 as int) == 0xFFFF);
    assert(m2.mem[a17 as int] == m1.mem[a17 as int]);

    // The restored slots: each read 1 to 16 words above the callee stack
    // pointer, inside the spilled belt region, at distance `j - n` from the
    // caller's stack pointer.
    assert forall|j: int| n <= j < BELT_SIZE implies m3.belt[j] == m1.belt[j - n] by {
        let k = 16 - (j - n);
        assert(1 <= k <= 16);
        let ak = u16_specs::wrapping_add(mc.sp, k as u16);
        assert(stack_word(mc, k) == stack_word(m2, k));
        assert(m3.belt[j] == mc.mem[ak as int]);
        assert(mc.mem[ak as int] == m2.mem[ak as int]);
        assert(wdist(m1.sp, ak as int) == j - n);
        assert(m2.mem[ak as int] == m1.belt[j - n]);
    }
}

} // verus!
