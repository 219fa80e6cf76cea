//! The grammar: one symbol per source line.
//!
//! Each line is an instruction, a label definition (`name:`), or an
//! alignment directive (`.balign 0..=16`); blank lines are skipped.
//! Instruction recognition is mnemonic-driven: the leading word picks the
//! instruction class, and the remaining tokens are read positionally with
//! the operand widths that class fixes (belt registers, 4-bit immediates,
//! 16-bit constants). Where a constant is expected, a bare identifier is
//! accepted as a label reference awaiting resolution. A malformed line
//! fails as a whole with a diagnostic pointing at the offending token, and
//! parsing goes on with the next line: the diagnostics of all bad lines
//! are returned together.

use vstd::prelude::*;

use crate::ast::{
    Alignment, BeltConstantOp, BeltPos, ConstModel, ConstantOp, ConstantOrLabel, Directive,
    ImmediateOp, InstrModel, Instruction, Program, RegOp, Symbol, SymbolModel, UnaryOp, ZeroOp,
};
use crate::lexer::{SpannedToken, SpannedTokenModel, Token, TokenModel, is_dec_digit, tokenize, lex_spec};
use crate::numlit::{IntParsingError, parse_int, parse_int_spec};

verus! {

/// A diagnostic: the character span of the offending token (empty when a
/// line simply ended too early) and a human-readable expectation.
#[derive(Clone, Debug, PartialEq)]
pub struct ParseError {
    pub start: usize,
    pub end: usize,
    pub message: String,
}

/// What one line parses to: nothing (blank), one symbol, or a failure
/// with the span it points at.
pub ghost enum LineOut {
    Skip,
    Sym(SymbolModel),
    Fail { start: int, end: int },
}

/// A label token's text without its trailing `:` (the empty text kept as
/// it is).
pub open spec fn strip_colon(t: Seq<char>) -> Seq<char> {
    if t.len() == 0 {
        t
    } else {
        t.subrange(0, t.len() - 1)
    }
}

/// The numeric value of a register token's text `b0` to `b15` (0 when the
/// text has another shape, which the lexer never produces).
pub open spec fn reg_value(t: Seq<char>) -> u8 {
    if t.len() == 2 && is_dec_digit(t[1]) {
        ((t[1] as u32) - ('0' as u32)) as u8
    } else if t.len() == 3 && is_dec_digit(t[1]) && is_dec_digit(t[2]) {
        (((t[1] as u32) - ('0' as u32)) * 10 + ((t[2] as u32) - ('0' as u32))) as u8
    } else {
        0
    }
}

/// The value of a 16-bit unsigned constant literal, if the text is one.
pub open spec fn lit_u16(t: Seq<char>) -> Option<u16> {
    match parse_int_spec(t, 16, false) {
        Ok(v) => Some(v as u16),
        Err(_) => None,
    }
}

/// The value of a 4-bit unsigned immediate literal, if the text is one.
pub open spec fn lit_u4(t: Seq<char>) -> Option<u8> {
    match parse_int_spec(t, 4, false) {
        Ok(v) => Some(v as u8),
        Err(_) => None,
    }
}

/// A failure pointing at the token at `idx`, or just past the line's last
/// token when the line ends before `idx`.
pub open spec fn fail_after(line: Seq<SpannedTokenModel>, idx: int) -> LineOut {
    if 0 <= idx < line.len() {
        LineOut::Fail { start: line[idx].start, end: line[idx].end }
    } else if line.len() > 0 {
        LineOut::Fail { start: line.last().end, end: line.last().end }
    } else {
        LineOut::Fail { start: 0, end: 0 }
    }
}

/// A zero-operand instruction line: the mnemonic alone.
pub open spec fn zero_instr(line: Seq<SpannedTokenModel>, op: ZeroOp) -> LineOut {
    if line.len() == 1 {
        LineOut::Sym(SymbolModel::Instruction(InstrModel::Zero { op }))
    } else {
        fail_after(line, 1)
    }
}

/// A unary instruction line: the mnemonic and one belt register.
pub open spec fn unary_instr(line: Seq<SpannedTokenModel>, op: UnaryOp) -> LineOut {
    if line.len() < 2 {
        fail_after(line, 1)
    } else {
        match line[1].token {
            TokenModel::Register(t) => if line.len() == 2 {
                LineOut::Sym(
                    SymbolModel::Instruction(
                        InstrModel::Unary { op, pos: BeltPos(reg_value(t)) },
                    ),
                )
            } else {
                fail_after(line, 2)
            },
            _ => fail_after(line, 1),
        }
    }
}

/// A register instruction line: the mnemonic and two belt registers.
pub open spec fn reg_instr(line: Seq<SpannedTokenModel>, op: RegOp) -> LineOut {
    if line.len() < 2 {
        fail_after(line, 1)
    } else {
        match line[1].token {
            TokenModel::Register(t1) => if line.len() < 3 {
                fail_after(line, 2)
            } else {
                match line[2].token {
                    TokenModel::Register(t2) => if line.len() == 3 {
                        LineOut::Sym(
                            SymbolModel::Instruction(
                                InstrModel::Register {
                                    op,
                                    pos1: BeltPos(reg_value(t1)),
                                    pos2: BeltPos(reg_value(t2)),
                                },
                            ),
                        )
                    } else {
                        fail_after(line, 3)
                    },
                    _ => fail_after(line, 2),
                }
            },
            _ => fail_after(line, 1),
        }
    }
}

/// An `and`/`or`/`xor` line: a belt register, then either a 16-bit constant
/// or label (the belt-constant shape) or a second register (the register
/// shape).
pub open spec fn belt_constant_instr(
    line: Seq<SpannedTokenModel>,
    bop: BeltConstantOp,
    rop: RegOp,
) -> LineOut {
    if line.len() < 2 {
        fail_after(line, 1)
    } else {
        match line[1].token {
            TokenModel::Register(t1) => if line.len() < 3 {
                fail_after(line, 2)
            } else {
                match line[2].token {
                    TokenModel::Number(t) => match lit_u16(t) {
                        Some(c) => if line.len() == 3 {
                            LineOut::Sym(
                                SymbolModel::Instruction(
                                    InstrModel::BeltConstant {
                                        op: bop,
                                        pos: BeltPos(reg_value(t1)),
                                        constant: ConstModel::Constant(c),
                                    },
                                ),
                            )
                        } else {
                            fail_after(line, 3)
                        },
                        None => fail_after(line, 2),
                    },
                    TokenModel::Text(t) => if line.len() == 3 {
                        LineOut::Sym(
                            SymbolModel::Instruction(
                                InstrModel::BeltConstant {
                                    op: bop,
                                    pos: BeltPos(reg_value(t1)),
                                    constant: ConstModel::Label(t),
                                },
                            ),
                        )
                    } else {
                        fail_after(line, 3)
                    },
                    TokenModel::Register(t2) => if line.len() == 3 {
                        LineOut::Sym(
                            SymbolModel::Instruction(
                                InstrModel::Register {
                                    op: rop,
                                    pos1: BeltPos(reg_value(t1)),
                                    pos2: BeltPos(reg_value(t2)),
                                },
                            ),
                        )
                    } else {
                        fail_after(line, 3)
                    },
                    _ => fail_after(line, 2),
                }
            },
            _ => fail_after(line, 1),
        }
    }
}

/// A constant-class line: the mnemonic and one 16-bit constant or label.
pub open spec fn constant_instr(line: Seq<SpannedTokenModel>, op: ConstantOp) -> LineOut {
    if line.len() < 2 {
        fail_after(line, 1)
    } else {
        match line[1].token {
            TokenModel::Number(t) => match lit_u16(t) {
                Some(c) => if line.len() == 2 {
                    LineOut::Sym(
                        SymbolModel::Instruction(
                            InstrModel::Constant { op, constant: ConstModel::Constant(c) },
                        ),
                    )
                } else {
                    fail_after(line, 2)
                },
                None => fail_after(line, 1),
            },
            TokenModel::Text(t) => if line.len() == 2 {
                LineOut::Sym(
                    SymbolModel::Instruction(
                        InstrModel::Constant { op, constant: ConstModel::Label(t) },
                    ),
                )
            } else {
                fail_after(line, 2)
            },
            _ => fail_after(line, 1),
        }
    }
}

/// A `jump` line: to a belt register (the unary shape) or to a 16-bit
/// constant or label (the constant shape).
pub open spec fn jump_instr(line: Seq<SpannedTokenModel>) -> LineOut {
    if line.len() >= 2 && line[1].token is Register {
        unary_instr(line, UnaryOp::Jump)
    } else {
        constant_instr(line, ConstantOp::Jump)
    }
}

/// An `sl`/`sr` line: a belt register, then either a 4-bit immediate (the
/// immediate shape) or a second register (the register shape).
pub open spec fn imm_instr(line: Seq<SpannedTokenModel>, iop: ImmediateOp, rop: RegOp) -> LineOut {
    if line.len() < 2 {
        fail_after(line, 1)
    } else {
        match line[1].token {
            TokenModel::Register(t1) => if line.len() < 3 {
                fail_after(line, 2)
            } else {
                match line[2].token {
                    TokenModel::Number(t) => match lit_u4(t) {
                        Some(v) => if line.len() == 3 {
                            LineOut::Sym(
                                SymbolModel::Instruction(
                                    InstrModel::Immediate {
                                        op: iop,
                                        pos: BeltPos(reg_value(t1)),
                                        imm: v,
                                    },
                                ),
                            )
                        } else {
                            fail_after(line, 3)
                        },
                        None => fail_after(line, 2),
                    },
                    TokenModel::Register(t2) => if line.len() == 3 {
                        LineOut::Sym(
                            SymbolModel::Instruction(
                                InstrModel::Register {
                                    op: rop,
                                    pos1: BeltPos(reg_value(t1)),
                                    pos2: BeltPos(reg_value(t2)),
                                },
                            ),
                        )
                    } else {
                        fail_after(line, 3)
                    },
                    _ => fail_after(line, 2),
                }
            },
            _ => fail_after(line, 1),
        }
    }
}

/// A `ret` line: a belt register and a 4-bit return count.
pub open spec fn ret_instr(line: Seq<SpannedTokenModel>) -> LineOut {
    if line.len() < 2 {
        fail_after(line, 1)
    } else {
        match line[1].token {
            TokenModel::Register(t1) => if line.len() < 3 {
                fail_after(line, 2)
            } else {
                match line[2].token {
                    TokenModel::Number(t) => match lit_u4(t) {
                        Some(v) => if line.len() == 3 {
                            LineOut::Sym(
                                SymbolModel::Instruction(
                                    InstrModel::Immediate {
                                        op: ImmediateOp::Ret,
                                        pos: BeltPos(reg_value(t1)),
                                        imm: v,
                                    },
                                ),
                            )
                        } else {
                            fail_after(line, 3)
                        },
                        None => fail_after(line, 2),
                    },
                    _ => fail_after(line, 2),
                }
            },
            _ => fail_after(line, 1),
        }
    }
}

/// A directive line: `.balign` and an alignment value 0 to 16.
pub open spec fn directive_line(line: Seq<SpannedTokenModel>, t: Seq<char>) -> LineOut {
    if t != ".balign"@ {
        fail_after(line, 0)
    } else if line.len() < 2 {
        fail_after(line, 1)
    } else {
        match line[1].token {
            TokenModel::Number(nt) => match parse_int_spec(nt, 16, false) {
                Ok(v) => if v <= 16 {
                    if line.len() == 2 {
                        LineOut::Sym(SymbolModel::Directive(v as int))
                    } else {
                        fail_after(line, 2)
                    }
                } else {
                    fail_after(line, 1)
                },
                Err(_) => fail_after(line, 1),
            },
            _ => fail_after(line, 1),
        }
    }
}

/// What one line of tokens parses to. An empty line is skipped; a label
/// token alone defines a label (its `:` stripped); a directive token leads
/// a directive; a leading identifier picks the instruction class by the
/// mnemonic table; anything else fails at its first token.
pub open spec fn parse_line(line: Seq<SpannedTokenModel>) -> LineOut {
    if line.len() == 0 {
        LineOut::Skip
    } else {
        match line[0].token {
            TokenModel::Label(t) => if line.len() == 1 {
                LineOut::Sym(SymbolModel::Label(strip_colon(t)))
            } else {
                fail_after(line, 1)
            },
            TokenModel::Directive(t) => directive_line(line, t),
            TokenModel::Text(t) => if t == "nop"@ {
                zero_instr(line, ZeroOp::Nop)
            } else if t == "pop"@ {
                zero_instr(line, ZeroOp::Pop)
            } else if t == "break"@ {
                zero_instr(line, ZeroOp::Break)
            } else if t == "and"@ {
                belt_constant_instr(line, BeltConstantOp::And, RegOp::And)
            } else if t == "or"@ {
                belt_constant_instr(line, BeltConstantOp::Or, RegOp::Or)
            } else if t == "xor"@ {
                belt_constant_instr(line, BeltConstantOp::Xor, RegOp::Xor)
            } else if t == "lc"@ {
                constant_instr(line, ConstantOp::LoadConstant)
            } else if t == "lm"@ {
                constant_instr(line, ConstantOp::LoadFromMemory)
            } else if t == "call"@ {
                constant_instr(line, ConstantOp::Call)
            } else if t == "jump"@ {
                jump_instr(line)
            } else if t == "sl"@ {
                imm_instr(line, ImmediateOp::ShiftLeft, RegOp::ShiftLeft)
            } else if t == "sr"@ {
                imm_instr(line, ImmediateOp::ShiftRight, RegOp::ShiftRight)
            } else if t == "ret"@ {
                ret_instr(line)
            } else if t == "add"@ {
                reg_instr(line, RegOp::Add)
            } else if t == "sub"@ {
                reg_instr(line, RegOp::Sub)
            } else if t == "mul"@ {
                reg_instr(line, RegOp::Mul)
            } else if t == "div"@ {
                reg_instr(line, RegOp::Div)
            } else if t == "save"@ {
                reg_instr(line, RegOp::Save)
            } else if t == "load"@ {
                unary_instr(line, UnaryOp::Load)
            } else if t == "push"@ {
                unary_instr(line, UnaryOp::Push)
            } else {
                fail_after(line, 0)
            },
            _ => fail_after(line, 0),
        }
    }
}

/// The index of the first newline token at or after `i`, or the end.
pub open spec fn next_newline(toks: Seq<SpannedTokenModel>, i: int) -> int
    decreases toks.len() - i when 0 <= i <= toks.len()
{
    if i < toks.len() && !(toks[i].token is NewLine) {
        next_newline(toks, i + 1)
    } else {
        i
    }
}

/// `next_newline` stays within `(i, toks.len()]`'s bounds.
pub proof fn lemma_next_newline_bounds(toks: Seq<SpannedTokenModel>, i: int)
    requires
        0 <= i <= toks.len(),
    ensures
        i <= next_newline(toks, i) <= toks.len(),
    decreases toks.len() - i,
{
    if i < toks.len() && !(toks[i].token is NewLine) {
        lemma_next_newline_bounds(toks, i + 1);
    }
}

/// The symbols and diagnostics of the token stream from `i` on: each
/// newline-delimited line contributes its symbol or its failure span, in
/// order.
pub open spec fn parse_from(toks: Seq<SpannedTokenModel>, i: int) -> (
    Seq<SymbolModel>,
    Seq<(int, int)>,
)
    decreases toks.len() - i when 0 <= i <= toks.len() via parse_from_decreases
{
    if i >= toks.len() {
        (Seq::empty(), Seq::empty())
    } else {
        let j = next_newline(toks, i);
        let line = toks.subrange(i, j);
        let rest = if j < toks.len() {
            parse_from(toks, j + 1)
        } else {
            (Seq::empty(), Seq::empty())
        };
        match parse_line(line) {
            LineOut::Skip => rest,
            LineOut::Sym(sm) => (seq![sm] + rest.0, rest.1),
            LineOut::Fail { start, end } => (rest.0, seq![(start, end)] + rest.1),
        }
    }
}

#[via_fn]
proof fn parse_from_decreases(toks: Seq<SpannedTokenModel>, i: int) {
    if i < toks.len() {
        lemma_next_newline_bounds(toks, i);
    }
}

/// The full pipeline's model: the symbols and diagnostics of the source.
pub open spec fn parse_spec(src: Seq<char>) -> (Seq<SymbolModel>, Seq<(int, int)>) {
    parse_from(lex_spec(src), 0)
}

/// Whether two string slices hold the same characters.
fn str_eq(a: &str, b: &str) -> (r: bool)
    ensures
        r == (a@ == b@),
{
    let na = a.unicode_len();
    let nb = b.unicode_len();
    if na != nb {
        return false;
    }
    let mut k: usize = 0;
    while k < na
        invariant
            na == a@.len(),
            na == b@.len(),
            k <= na,
            forall|q: int| 0 <= q < k ==> a@[q] == b@[q],
        decreases na - k,
    {
        if a.get_char(k) != b.get_char(k) {
            return false;
        }
        k = k + 1;
    }
    proof {
        assert(a@ =~= b@);
    }
    true
}

/// The numeric value of a register token's text.
fn reg_value_exec(t: &String) -> (v: u8)
    ensures
        v == reg_value(t@),
{
    let s = t.as_str();
    let n = s.unicode_len();
    if n == 2 {
        let c1 = s.get_char(1) as u32;
        if 48 <= c1 && c1 <= 57 {
            (c1 - 48) as u8
        } else {
            0
        }
    } else if n == 3 {
        let c1 = s.get_char(1) as u32;
        let c2 = s.get_char(2) as u32;
        if 48 <= c1 && c1 <= 57 && 48 <= c2 && c2 <= 57 {
            ((c1 - 48) * 10 + (c2 - 48)) as u8
        } else {
            0
        }
    } else {
        0
    }
}

/// A diagnostic pointing at the token at `idx` of the line `i..j`, or just
/// past the line's last token when the line ends before `idx`.
fn err_at(toks: &Vec<SpannedToken>, i: usize, j: usize, idx: usize, msg: &str) -> (e: ParseError)
    requires
        i < j <= toks@.len(),
        i <= idx,
    ensures
        ({
            let line = toks@.map_values(|t: SpannedToken| t@).subrange(i as int, j as int);
            fail_after(line, idx - i) == (LineOut::Fail {
                start: e.start as int,
                end: e.end as int,
            })
        }),
{
    if idx < j {
        ParseError {
            start: toks[idx].start,
            end: toks[idx].end,
            message: String::from_str(msg),
        }
    } else {
        let epos = toks[j - 1].end;
        ParseError { start: epos, end: epos, message: String::from_str(msg) }
    }
}

/// A label token's text without its trailing `:`.
fn strip_colon_exec(t: &String) -> (r: String)
    ensures
        r@ == strip_colon(t@),
{
    let s = t.as_str();
    let n = s.unicode_len();
    if n == 0 {
        String::new()
    } else {
        String::from_str(s.substring_char(0, n - 1))
    }
}

/// A 16-bit unsigned constant from a number token's text, or `None`.
fn lit_u16_exec(t: &String) -> (r: Option<u16>)
    ensures
        r == lit_u16(t@),
{
    proof {
        vstd::arithmetic::power2::lemma2_to64();
    }
    match parse_int(t.as_str(), 16, false) {
        Ok(v) => Some(v as u16),
        Err(_) => None,
    }
}

/// A 4-bit unsigned immediate from a number token's text, or `None`.
fn lit_u4_exec(t: &String) -> (r: Option<u8>)
    ensures
        r == lit_u4(t@),
{
    proof {
        vstd::arithmetic::power2::lemma2_to64();
    }
    match parse_int(t.as_str(), 4, false) {
        Ok(v) => Some(v as u8),
        Err(_) => None,
    }
}

/// Parse the line of tokens `i..j`, yielding nothing for a blank line, one
/// symbol, or the diagnostic [`parse_line`] assigns it.
fn parse_line_exec(toks: &Vec<SpannedToken>, i: usize, j: usize) -> (r: Result<
    Option<Symbol>,
    ParseError,
>)
    requires
        i <= j <= toks@.len(),
    ensures
        ({
            let line = toks@.map_values(|t: SpannedToken| t@).subrange(i as int, j as int);
            match r {
                Ok(sym) => match sym {
                    Some(sym) => parse_line(line) == LineOut::Sym(sym@),
                    None => parse_line(line) is Skip,
                },
                Err(e) => parse_line(line) == (LineOut::Fail {
                    start: e.start as int,
                    end: e.end as int,
                }),
            }
        }),
{
    let ghost line = toks@.map_values(|t: SpannedToken| t@).subrange(i as int, j as int);
    let m = j - i;
    if m == 0 {
        return Ok(None);
    }
    match &toks[i].token {
        Token::Label(t) => {
            if m == 1 {
                Ok(Some(Symbol::Label(strip_colon_exec(t))))
            } else {
                Err(err_at(toks, i, j, i + 1, "expected the label definition alone on its line"))
            }
        },
        Token::Directive(t) => {
            if !str_eq(t.as_str(), ".balign") {
                return Err(err_at(toks, i, j, i, "unknown directive"));
            }
            if m < 2 {
                return Err(err_at(toks, i, j, i + 1, "expected an alignment value"));
            }
            match &toks[i + 1].token {
                Token::Number(nt) => match parse_int(nt.as_str(), 16, false) {
                    Ok(v) => {
                        proof {
                            vstd::arithmetic::power2::lemma2_to64();
                            assert(0 <= v <= 65535);
                        }
                        if v <= 16 {
                            if m == 2 {
                                Ok(
                                    Some(
                                        Symbol::Directive(
                                            Directive::Alignment(
                                                Alignment { alignment: v as usize },
                                            ),
                                        ),
                                    ),
                                )
                            } else {
                                Err(
                                    err_at(
                                        toks,
                                        i,
                                        j,
                                        i + 2,
                                        "unexpected token after directive",
                                    ),
                                )
                            }
                        } else {
                            Err(err_at(toks, i, j, i + 1, "alignment must be between 0 and 16"))
                        }
                    },
                    Err(_) => Err(
                        err_at(toks, i, j, i + 1, "alignment must be between 0 and 16"),
                    ),
                },
                _ => Err(err_at(toks, i, j, i + 1, "expected an alignment value")),
            }
        },
        Token::Text(t) => {
            let ts = t.as_str();
            if str_eq(ts, "nop") {
                zero_exec(toks, i, j, ZeroOp::Nop)
            } else if str_eq(ts, "pop") {
                zero_exec(toks, i, j, ZeroOp::Pop)
            } else if str_eq(ts, "break") {
                zero_exec(toks, i, j, ZeroOp::Break)
            } else if str_eq(ts, "and") {
                belt_constant_exec(toks, i, j, BeltConstantOp::And, RegOp::And)
            } else if str_eq(ts, "or") {
                belt_constant_exec(toks, i, j, BeltConstantOp::Or, RegOp::Or)
            } else if str_eq(ts, "xor") {
                belt_constant_exec(toks, i, j, BeltConstantOp::Xor, RegOp::Xor)
            } else if str_eq(ts, "lc") {
                constant_exec(toks, i, j, ConstantOp::LoadConstant)
            } else if str_eq(ts, "lm") {
                constant_exec(toks, i, j, ConstantOp::LoadFromMemory)
            } else if str_eq(ts, "call") {
                constant_exec(toks, i, j, ConstantOp::Call)
            } else if str_eq(ts, "jump") {
                let second_is_reg = if m >= 2 {
                    match &toks[i + 1].token {
                        Token::Register(_) => true,
                        _ => false,
                    }
                } else {
                    false
                };
                if second_is_reg {
                    unary_exec(toks, i, j, UnaryOp::Jump)
                } else {
                    constant_exec(toks, i, j, ConstantOp::Jump)
                }
            } else if str_eq(ts, "sl") {
                imm_exec(toks, i, j, ImmediateOp::ShiftLeft, RegOp::ShiftLeft)
            } else if str_eq(ts, "sr") {
                imm_exec(toks, i, j, ImmediateOp::ShiftRight, RegOp::ShiftRight)
            } else if str_eq(ts, "ret") {
                ret_exec(toks, i, j)
            } else if str_eq(ts, "add") {
                reg_exec(toks, i, j, RegOp::Add)
            } else if str_eq(ts, "sub") {
                reg_exec(toks, i, j, RegOp::Sub)
            } else if str_eq(ts, "mul") {
                reg_exec(toks, i, j, RegOp::Mul)
            } else if str_eq(ts, "div") {
                reg_exec(toks, i, j, RegOp::Div)
            } else if str_eq(ts, "save") {
                reg_exec(toks, i, j, RegOp::Save)
            } else if str_eq(ts, "load") {
                unary_exec(toks, i, j, UnaryOp::Load)
            } else if str_eq(ts, "push") {
                unary_exec(toks, i, j, UnaryOp::Push)
            } else {
                Err(err_at(toks, i, j, i, "unknown mnemonic"))
            }
        },
        _ => Err(err_at(toks, i, j, i, "expected an instruction, label, or directive")),
    }
}

/// A zero-operand instruction line.
fn zero_exec(toks: &Vec<SpannedToken>, i: usize, j: usize, op: ZeroOp) -> (r: Result<
    Option<Symbol>,
    ParseError,
>)
    requires
        i < j <= toks@.len(),
    ensures
        ({
            let line = toks@.map_values(|t: SpannedToken| t@).subrange(i as int, j as int);
            match r {
                Ok(sym) => match sym {
                    Some(sym) => zero_instr(line, op) == LineOut::Sym(sym@),
                    None => false,
                },
                Err(e) => zero_instr(line, op) == (LineOut::Fail {
                    start: e.start as int,
                    end: e.end as int,
                }),
            }
        }),
{
    if j - i == 1 {
        Ok(Some(Symbol::Instruction(Instruction::Zero { op })))
    } else {
        Err(err_at(toks, i, j, i + 1, "unexpected token after instruction"))
    }
}

/// A unary instruction line.
fn unary_exec(toks: &Vec<SpannedToken>, i: usize, j: usize, op: UnaryOp) -> (r: Result<
    Option<Symbol>,
    ParseError,
>)
    requires
        i < j <= toks@.len(),
    ensures
        ({
            let line = toks@.map_values(|t: SpannedToken| t@).subrange(i as int, j as int);
            match r {
                Ok(sym) => match sym {
                    Some(sym) => unary_instr(line, op) == LineOut::Sym(sym@),
                    None => false,
                },
                Err(e) => unary_instr(line, op) == (LineOut::Fail {
                    start: e.start as int,
                    end: e.end as int,
                }),
            }
        }),
{
    if j - i < 2 {
        return Err(err_at(toks, i, j, i + 1, "expected a belt register"));
    }
    match &toks[i + 1].token {
        Token::Register(t) => {
            if j - i == 2 {
                Ok(
                    Some(
                        Symbol::Instruction(
                            Instruction::Unary { op, pos: BeltPos(reg_value_exec(t)) },
                        ),
                    ),
                )
            } else {
                Err(err_at(toks, i, j, i + 2, "unexpected token after instruction"))
            }
        },
        _ => Err(err_at(toks, i, j, i + 1, "expected a belt register")),
    }
}

/// A register instruction line.
fn reg_exec(toks: &Vec<SpannedToken>, i: usize, j: usize, op: RegOp) -> (r: Result<
    Option<Symbol>,
    ParseError,
>)
    requires
        i < j <= toks@.len(),
    ensures
        ({
            let line = toks@.map_values(|t: SpannedToken| t@).subrange(i as int, j as int);
            match r {
                Ok(sym) => match sym {
                    Some(sym) => reg_instr(line, op) == LineOut::Sym(sym@),
                    None => false,
                },
                Err(e) => reg_instr(line, op) == (LineOut::Fail {
                    start: e.start as int,
                    end: e.end as int,
                }),
            }
        }),
{
    if j - i < 2 {
        return Err(err_at(toks, i, j, i + 1, "expected a belt register"));
    }
    match &toks[i + 1].token {
        Token::Register(t1) => {
            if j - i < 3 {
                return Err(err_at(toks, i, j, i + 2, "expected a belt register"));
            }
            match &toks[i + 2].token {
                Token::Register(t2) => {
                    if j - i == 3 {
                        Ok(
                            Some(
                                Symbol::Instruction(
                                    Instruction::Register {
                                        op,
                                        pos1: BeltPos(reg_value_exec(t1)),
                                        pos2: BeltPos(reg_value_exec(t2)),
                                    },
                                ),
                            ),
                        )
                    } else {
                        Err(err_at(toks, i, j, i + 3, "unexpected token after instruction"))
                    }
                },
                _ => Err(err_at(toks, i, j, i + 2, "expected a belt register")),
            }
        },
        _ => Err(err_at(toks, i, j, i + 1, "expected a belt register")),
    }
}

/// An `and`/`or`/`xor` line, of the belt-constant or the register shape.
fn belt_constant_exec(
    toks: &Vec<SpannedToken>,
    i: usize,
    j: usize,
    bop: BeltConstantOp,
    rop: RegOp,
) -> (r: Result<Option<Symbol>, ParseError>)
    requires
        i < j <= toks@.len(),
    ensures
        ({
            let line = toks@.map_values(|t: SpannedToken| t@).subrange(i as int, j as int);
            match r {
                Ok(sym) => match sym {
                    Some(sym) => belt_constant_instr(line, bop, rop) == LineOut::Sym(sym@),
                    None => false,
                },
                Err(e) => belt_constant_instr(line, bop, rop) == (LineOut::Fail {
                    start: e.start as int,
                    end: e.end as int,
                }),
            }
        }),
{
    if j - i < 2 {
        return Err(err_at(toks, i, j, i + 1, "expected a belt register"));
    }
    match &toks[i + 1].token {
        Token::Register(t1) => {
            if j - i < 3 {
                return Err(err_at(toks, i, j, i + 2, "expected a constant, label, or register"));
            }
            let pos = BeltPos(reg_value_exec(t1));
            match &toks[i + 2].token {
                Token::Number(t) => match lit_u16_exec(t) {
                    Some(c) => {
                        if j - i == 3 {
                            Ok(
                                Some(
                                    Symbol::Instruction(
                                        Instruction::BeltConstant {
                                            op: bop,
                                            pos,
                                            constant: ConstantOrLabel::Constant(c),
                                        },
                                    ),
                                ),
                            )
                        } else {
                            Err(
                                err_at(toks, i, j, i + 3, "unexpected token after instruction"),
                            )
                        }
                    },
                    None => Err(
                        err_at(toks, i, j, i + 2, "expected an unsigned 16-bit constant"),
                    ),
                },
                Token::Text(t) => {
                    if j - i == 3 {
                        Ok(
                            Some(
                                Symbol::Instruction(
                                    Instruction::BeltConstant {
                                        op: bop,
                                        pos,
                                        constant: ConstantOrLabel::Label(
                                            String::from_str(t.as_str()),
                                        ),
                                    },
                                ),
                            ),
                        )
                    } else {
                        Err(err_at(toks, i, j, i + 3, "unexpected token after instruction"))
                    }
                },
                Token::Register(t2) => {
                    if j - i == 3 {
                        Ok(
                            Some(
                                Symbol::Instruction(
                                    Instruction::Register {
                                        op: rop,
                                        pos1: pos,
                                        pos2: BeltPos(reg_value_exec(t2)),
                                    },
                                ),
                            ),
                        )
                    } else {
                        Err(err_at(toks, i, j, i + 3, "unexpected token after instruction"))
                    }
                },
                _ => Err(err_at(toks, i, j, i + 2, "expected a constant, label, or register")),
            }
        },
        _ => Err(err_at(toks, i, j, i + 1, "expected a belt register")),
    }
}

/// A constant-class line.
fn constant_exec(toks: &Vec<SpannedToken>, i: usize, j: usize, op: ConstantOp) -> (r: Result<
    Option<Symbol>,
    ParseError,
>)
    requires
        i < j <= toks@.len(),
    ensures
        ({
            let line = toks@.map_values(|t: SpannedToken| t@).subrange(i as int, j as int);
            match r {
                Ok(sym) => match sym {
                    Some(sym) => constant_instr(line, op) == LineOut::Sym(sym@),
                    None => false,
                },
                Err(e) => constant_instr(line, op) == (LineOut::Fail {
                    start: e.start as int,
                    end: e.end as int,
                }),
            }
        }),
{
    if j - i < 2 {
        return Err(err_at(toks, i, j, i + 1, "expected a constant or label"));
    }
    match &toks[i + 1].token {
        Token::Number(t) => match lit_u16_exec(t) {
            Some(c) => {
                if j - i == 2 {
                    Ok(
                        Some(
                            Symbol::Instruction(
                                Instruction::Constant {
                                    op,
                                    constant: ConstantOrLabel::Constant(c),
                                },
                            ),
                        ),
                    )
                } else {
                    Err(err_at(toks, i, j, i + 2, "unexpected token after instruction"))
                }
            },
            None => Err(err_at(toks, i, j, i + 1, "expected an unsigned 16-bit constant")),
        },
        Token::Text(t) => {
            if j - i == 2 {
                Ok(
                    Some(
                        Symbol::Instruction(
                            Instruction::Constant {
                                op,
                                constant: ConstantOrLabel::Label(String::from_str(t.as_str())),
                            },
                        ),
                    ),
                )
            } else {
                Err(err_at(toks, i, j, i + 2, "unexpected token after instruction"))
            }
        },
        _ => Err(err_at(toks, i, j, i + 1, "expected a constant or label")),
    }
}

/// An `sl`/`sr` line, of the immediate or the register shape.
fn imm_exec(
    toks: &Vec<SpannedToken>,
    i: usize,
    j: usize,
    iop: ImmediateOp,
    rop: RegOp,
) -> (r: Result<Option<Symbol>, ParseError>)
    requires
        i < j <= toks@.len(),
    ensures
        ({
            let line = toks@.map_values(|t: SpannedToken| t@).subrange(i as int, j as int);
            match r {
                Ok(sym) => match sym {
                    Some(sym) => imm_instr(line, iop, rop) == LineOut::Sym(sym@),
                    None => false,
                },
                Err(e) => imm_instr(line, iop, rop) == (LineOut::Fail {
                    start: e.start as int,
                    end: e.end as int,
                }),
            }
        }),
{
    if j - i < 2 {
        return Err(err_at(toks, i, j, i + 1, "expected a belt register"));
    }
    match &toks[i + 1].token {
        Token::Register(t1) => {
            if j - i < 3 {
                return Err(err_at(toks, i, j, i + 2, "expected an immediate or register"));
            }
            let pos = BeltPos(reg_value_exec(t1));
            match &toks[i + 2].token {
                Token::Number(t) => match lit_u4_exec(t) {
                    Some(v) => {
                        if j - i == 3 {
                            Ok(
                                Some(
                                    Symbol::Instruction(
                                        Instruction::Immediate { op: iop, pos, imm: v },
                                    ),
                                ),
                            )
                        } else {
                            Err(
                                err_at(toks, i, j, i + 3, "unexpected token after instruction"),
                            )
                        }
                    },
                    None => Err(
                        err_at(toks, i, j, i + 2, "expected an unsigned 4-bit immediate"),
                    ),
                },
                Token::Register(t2) => {
                    if j - i == 3 {
                        Ok(
                            Some(
                                Symbol::Instruction(
                                    Instruction::Register {
                                        op: rop,
                                        pos1: pos,
                                        pos2: BeltPos(reg_value_exec(t2)),
                                    },
                                ),
                            ),
                        )
                    } else {
                        Err(err_at(toks, i, j, i + 3, "unexpected token after instruction"))
                    }
                },
                _ => Err(err_at(toks, i, j, i + 2, "expected an immediate or register")),
            }
        },
        _ => Err(err_at(toks, i, j, i + 1, "expected a belt register")),
    }
}

/// A `ret` line: a belt register and a 4-bit return count.
fn ret_exec(toks: &Vec<SpannedToken>, i: usize, j: usize) -> (r: Result<
    Option<Symbol>,
    ParseError,
>)
    requires
        i < j <= toks@.len(),
    ensures
        ({
            let line = toks@.map_values(|t: SpannedToken| t@).subrange(i as int, j as int);
            match r {
                Ok(sym) => match sym {
                    Some(sym) => ret_instr(line) == LineOut::Sym(sym@),
                    None => false,
                },
                Err(e) => ret_instr(line) == (LineOut::Fail {
                    start: e.start as int,
                    end: e.end as int,
                }),
            }
        }),
{
    if j - i < 2 {
        return Err(err_at(toks, i, j, i + 1, "expected a belt register"));
    }
    match &toks[i + 1].token {
        Token::Register(t1) => {
            if j - i < 3 {
                return Err(err_at(toks, i, j, i + 2, "expected an unsigned 4-bit immediate"));
            }
            match &toks[i + 2].token {
                Token::Number(t) => match lit_u4_exec(t) {
                    Some(v) => {
                        if j - i == 3 {
                            Ok(
                                Some(
                                    Symbol::Instruction(
                                        Instruction::Immediate {
                                            op: ImmediateOp::Ret,
                                            pos: BeltPos(reg_value_exec(t1)),
                                            imm: v,
                                        },
                                    ),
                                ),
                            )
                        } else {
                            Err(
                                err_at(toks, i, j, i + 3, "unexpected token after instruction"),
                            )
                        }
                    },
                    None => Err(
                        err_at(toks, i, j, i + 2, "expected an unsigned 4-bit immediate"),
                    ),
                },
                _ => Err(err_at(toks, i, j, i + 2, "expected an unsigned 4-bit immediate")),
            }
        },
        _ => Err(err_at(toks, i, j, i + 1, "expected a belt register")),
    }
}

/// The index of the first newline token at or after `i`, or the end.
fn next_newline_exec(toks: &Vec<SpannedToken>, i: usize) -> (j: usize)
    requires
        i <= toks@.len(),
    ensures
        j as int == next_newline(toks@.map_values(|t: SpannedToken| t@), i as int),
        i <= j <= toks@.len(),
{
    let ghost tv = toks@.map_values(|t: SpannedToken| t@);
    let n = toks.len();
    let mut k = i;
    while k < n && !is_newline(&toks[k].token)
        invariant
            i <= k <= n,
            n == toks@.len(),
            tv == toks@.map_values(|t: SpannedToken| t@),
            next_newline(tv, i as int) == next_newline(tv, k as int),
        decreases n - k,
    {
        k = k + 1;
    }
    k
}

/// Whether the token is a newline.
fn is_newline(t: &Token) -> (b: bool)
    ensures
        b == (t@ is NewLine),
{
    match t {
        Token::NewLine => true,
        _ => false,
    }
}

/// Parse a whole source text into a program, lexing it and reading one
/// symbol per line, exactly as [`parse_spec`] lays down: `Ok` with the
/// symbols of every line in order when no line fails, and otherwise the
/// diagnostics of all failing lines together, each carrying the span of
/// the token at fault.
pub fn parse(program_text: &str) -> (r: Result<Program, Vec<ParseError>>)
    ensures
        ({
            let out = parse_spec(program_text@);
            match r {
                Ok(p) => out.1.len() == 0 && p.symbols@.map_values(|sym: Symbol| sym@) == out.0,
                Err(es) => es@.len() > 0 && es@.map_values(
                    |e: ParseError| (e.start as int, e.end as int),
                ) == out.1,
            }
        }),
{
    let toks = tokenize(program_text);
    let ghost tv = toks@.map_values(|t: SpannedToken| t@);
    let n = toks.len();
    let mut symbols: Vec<Symbol> = Vec::new();
    let mut errors: Vec<ParseError> = Vec::new();
    let mut i: usize = 0;
    while i < n
        invariant
            n == toks@.len(),
            tv == toks@.map_values(|t: SpannedToken| t@),
            i <= n,
            parse_from(tv, 0).0 == symbols@.map_values(|sym: Symbol| sym@) + parse_from(
                tv,
                i as int,
            ).0,
            parse_from(tv, 0).1 == errors@.map_values(
                |e: ParseError| (e.start as int, e.end as int),
            ) + parse_from(tv, i as int).1,
        decreases n - i,
    {
        let ghost i0 = i as int;
        let ghost sv0 = symbols@.map_values(|sym: Symbol| sym@);
        let ghost ev0 = errors@.map_values(|e: ParseError| (e.start as int, e.end as int));
        proof {
            lemma_next_newline_bounds(tv, i0);
        }
        let j = next_newline_exec(&toks, i);
        let ghost rest = if (j as int) < tv.len() {
            parse_from(tv, j as int + 1)
        } else {
            (Seq::<SymbolModel>::empty(), Seq::<(int, int)>::empty())
        };
        match parse_line_exec(&toks, i, j) {
            Ok(sym_opt) => match sym_opt {
                Some(sym) => {
                    symbols.push(sym);
                    proof {
                        assert(symbols@.map_values(|sym: Symbol| sym@) =~= sv0 + seq![sym@]);
                        assert(sv0 + (seq![sym@] + rest.0) =~= (sv0 + seq![sym@]) + rest.0);
                    }
                },
                None => {},
            },
            Err(e) => {
                let ghost sp = (e.start as int, e.end as int);
                errors.push(e);
                proof {
                    assert(errors@.map_values(|e: ParseError| (e.start as int, e.end as int))
                        =~= ev0 + seq![sp]);
                    assert(ev0 + (seq![sp] + rest.1) =~= (ev0 + seq![sp]) + rest.1);
                }
            },
        }
        if j < n {
            i = j + 1;
        } else {
            i = n;
        }
    }
    if errors.len() == 0 {
        proof {
            assert(parse_from(tv, 0).1 =~= Seq::<(int, int)>::empty());
        }
        Ok(Program { symbols })
    } else {
        Err(errors)
    }
}

} // verus!
