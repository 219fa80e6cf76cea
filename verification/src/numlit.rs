//! The numeric literal parser: decimal, `0x`/`0X` hex, `0b`/`0B` binary and
//! `0o`/`0O` octal integer literals, with an optional leading `-` and
//! underscore digit separators, checked against an explicit bit width and
//! signedness.
//!
//! A width of `w` bits admits `0 ..= 2^w - 1` unsigned and
//! `-2^(w-1) ..= 2^(w-1) - 1` signed; zero is always valid. The same
//! utility serves every operand slot of the assembler, whatever its width.

use vstd::arithmetic::power2::{
    lemma2_to64, lemma_pow2_pos, lemma_pow2_strictly_increases, lemma_pow2_unfold, pow2,
};
use vstd::prelude::*;

verus! {

/// Why a literal was rejected: malformed digits, a minus sign on an
/// unsigned operand, or a well-formed value outside the operand's range
/// (carrying that range).
#[derive(PartialEq, Eq, Structural, Copy, Clone, Debug)]
pub enum IntParsingError {
    FromStrRadixError,
    NegativeUnsignedError,
    OutOfRangeError { min: i64, max: i64 },
}

/// Whether `c` is a digit of the given base (2, 8, 10 or 16); base 16 also
/// admits the letters `a`-`f` and `A`-`F`.
pub open spec fn is_digit_of(c: char, base: int) -> bool {
    ||| (('0' as u32) <= (c as u32) && (c as u32) - ('0' as u32) < base && (c as u32) <= ('9'
        as u32))
    ||| (base == 16 && ('a' as u32) <= (c as u32) <= ('f' as u32))
    ||| (base == 16 && ('A' as u32) <= (c as u32) <= ('F' as u32))
}

/// The numeric value of a digit character (0 for anything else).
pub open spec fn digit_val(c: char) -> int {
    if ('0' as u32) <= (c as u32) <= ('9' as u32) {
        (c as u32) - ('0' as u32)
    } else if ('a' as u32) <= (c as u32) <= ('f' as u32) {
        (c as u32) - ('a' as u32) + 10
    } else if ('A' as u32) <= (c as u32) <= ('F' as u32) {
        (c as u32) - ('A' as u32) + 10
    } else {
        0
    }
}

/// Whether every character of `s` is a digit of the base.
pub open spec fn all_digits(s: Seq<char>, base: int) -> bool
    decreases s.len(),
{
    if s.len() == 0 {
        true
    } else {
        all_digits(s.drop_last(), base) && is_digit_of(s.last(), base)
    }
}

/// The value of a digit string in the given base, most significant first.
pub open spec fn digits_val(s: Seq<char>, base: int) -> int
    decreases s.len(),
{
    if s.len() == 0 {
        0
    } else {
        digits_val(s.drop_last(), base) * base + digit_val(s.last())
    }
}

/// `s` with every underscore removed.
pub open spec fn strip_underscores(s: Seq<char>) -> Seq<char>
    decreases s.len(),
{
    if s.len() == 0 {
        Seq::empty()
    } else if s.last() == '_' {
        strip_underscores(s.drop_last())
    } else {
        strip_underscores(s.drop_last()).push(s.last())
    }
}

/// The smallest value a literal of this width and signedness may hold.
pub open spec fn lit_min(width: nat, signed: bool) -> int {
    if signed {
        -pow2((width - 1) as nat)
    } else {
        0
    }
}

/// The largest value a literal of this width and signedness may hold.
pub open spec fn lit_max(width: nat, signed: bool) -> int {
    if signed {
        pow2((width - 1) as nat) - 1
    } else {
        pow2(width) - 1
    }
}

/// The base named by the prefix of `t` (the literal after its sign), and
/// the digit part after that prefix: `0x`/`0X` is hex, `0b`/`0B` binary,
/// `0o`/`0O` octal, anything else decimal with no prefix.
pub open spec fn split_base(t: Seq<char>) -> (int, Seq<char>) {
    if t.len() >= 2 && t[0] == '0' && (t[1] == 'x' || t[1] == 'X') {
        (16, t.skip(2))
    } else if t.len() >= 2 && t[0] == '0' && (t[1] == 'b' || t[1] == 'B') {
        (2, t.skip(2))
    } else if t.len() >= 2 && t[0] == '0' && (t[1] == 'o' || t[1] == 'O') {
        (8, t.skip(2))
    } else {
        (10, t)
    }
}

/// What parsing a literal yields, in full. A leading `-` on an unsigned
/// operand is `NegativeUnsignedError`. A literal that does not consist of a
/// sign, an optional base prefix and at least one digit of that base
/// (underscores stripped, and none at the very front) is
/// `FromStrRadixError`. A well-formed value outside the range the width
/// and signedness admit is `OutOfRangeError` carrying that range. Anything
/// else is `Ok` with the value.
pub open spec fn parse_int_spec(s: Seq<char>, width: nat, signed: bool) -> Result<
    i64,
    IntParsingError,
> {
    let neg = s.len() > 0 && s[0] == '-';
    let t = if neg {
        s.skip(1)
    } else {
        s
    };
    if neg && !signed {
        Err(IntParsingError::NegativeUnsignedError)
    } else if t.len() > 0 && t[0] == '_' {
        Err(IntParsingError::FromStrRadixError)
    } else {
        let base = split_base(t).0;
        let ds = strip_underscores(split_base(t).1);
        if ds.len() == 0 || !all_digits(ds, base) {
            Err(IntParsingError::FromStrRadixError)
        } else {
            let v = if neg {
                -digits_val(ds, base)
            } else {
                digits_val(ds, base)
            };
            if lit_min(width, signed) <= v <= lit_max(width, signed) {
                Ok(v as i64)
            } else {
                Err(
                    IntParsingError::OutOfRangeError {
                        min: lit_min(width, signed) as i64,
                        max: lit_max(width, signed) as i64,
                    },
                )
            }
        }
    }
}

/// A digit string's value is never negative.
proof fn lemma_digits_val_nonneg(s: Seq<char>, base: int)
    requires
        base >= 2,
    ensures
        digits_val(s, base) >= 0,
    decreases s.len(),
{
    if s.len() > 0 {
        lemma_digits_val_nonneg(s.drop_last(), base);
        let p = digits_val(s.drop_last(), base);
        assert(p * base >= 0) by (nonlinear_arith)
            requires
                p >= 0,
                base >= 2,
        ;
    }
}

/// Whether `c` is a digit of the given base.
fn digit_in(c: char, base: u32) -> (b: bool)
    ensures
        b == is_digit_of(c, base as int),
{
    let cv = c as u32;
    (48 <= cv && cv <= 57 && cv - 48 < base) || (base == 16 && 97 <= cv && cv <= 102) || (base
        == 16 && 65 <= cv && cv <= 70)
}

/// The numeric value of a digit character.
fn digit_value(c: char) -> (v: u32)
    ensures
        v == digit_val(c),
{
    let cv = c as u32;
    if 48 <= cv && cv <= 57 {
        cv - 48
    } else if 97 <= cv && cv <= 102 {
        cv - 87
    } else if 65 <= cv && cv <= 70 {
        cv - 55
    } else {
        0
    }
}

/// `2^e`, for exponents up to 32.
fn pow2_exec(e: u32) -> (p: u64)
    requires
        e <= 32,
    ensures
        p == pow2(e as nat),
{
    proof {
        lemma2_to64();
    }
    let mut p: u64 = 1;
    let mut k: u32 = 0;
    while k < e
        invariant
            k <= e <= 32,
            p == pow2(k as nat),
        decreases e - k,
    {
        proof {
            lemma2_to64();
            if (k as nat) < 32 {
                lemma_pow2_strictly_increases(k as nat, 32);
            }
            lemma_pow2_unfold((k + 1) as nat);
        }
        p = p * 2;
        k = k + 1;
    }
    p
}

/// Parse an integer literal against a bit width (1 to 32) and a signedness
/// flag, exactly as [`parse_int_spec`] lays down: `Ok` with the value when
/// the literal is well formed and within the range the width admits, and
/// otherwise the error that names what went wrong.
pub fn parse_int(input: &str, width: u32, signed: bool) -> (r: Result<i64, IntParsingError>)
    requires
        1 <= width <= 32,
    ensures
        r == parse_int_spec(input@, width as nat, signed),
{
    let n = input.unicode_len();
    let mut chars: Vec<char> = Vec::new();
    let mut ci: usize = 0;
    while ci < n
        invariant
            n == input@.len(),
            ci <= n,
            chars@.len() == ci,
            forall|j: int| 0 <= j < ci ==> chars@[j] == input@[j],
        decreases n - ci,
    {
        chars.push(input.get_char(ci));
        ci = ci + 1;
    }
    proof {
        assert(chars@ =~= input@);
    }
    parse_int_chars(&chars, width, signed)
}

/// The bound above which an accumulated magnitude is certainly out of
/// range for any width up to 32 bits.
const MAG_CAP: u64 = 0x1_0000_0000;

/// [`parse_int`] on an explicit character sequence.
fn parse_int_chars(chars: &Vec<char>, width: u32, signed: bool) -> (r: Result<
    i64,
    IntParsingError,
>)
    requires
        1 <= width <= 32,
    ensures
        r == parse_int_spec(chars@, width as nat, signed),
{
    let ghost s = chars@;
    let n = chars.len();
    let neg = n > 0 && chars[0] == '-';
    let start: usize = if neg {
        1
    } else {
        0
    };
    let ghost t = if neg {
        s.skip(1)
    } else {
        s
    };
    proof {
        assert(t.len() == n - start);
        assert(forall|j: int| 0 <= j < t.len() ==> t[j] == s[start + j]);
    }
    if neg && !signed {
        return Err(IntParsingError::NegativeUnsignedError);
    }
    if start < n && chars[start] == '_' {
        return Err(IntParsingError::FromStrRadixError);
    }

    let (base, dstart): (u32, usize) = if n - start >= 2 && chars[start] == '0' && (chars[start
        + 1] == 'x' || chars[start + 1] == 'X') {
        (16, start + 2)
    } else if n - start >= 2 && chars[start] == '0' && (chars[start + 1] == 'b' || chars[start
        + 1] == 'B') {
        (2, start + 2)
    } else if n - start >= 2 && chars[start] == '0' && (chars[start + 1] == 'o' || chars[start
        + 1] == 'O') {
        (8, start + 2)
    } else {
        (10, start)
    };
    let ghost d = split_base(t).1;
    proof {
        assert(base as int == split_base(t).0);
        assert(d.len() == n - dstart);
        assert(forall|j: int| 0 <= j < d.len() ==> d[j] == s[dstart + j]);
    }

    // One pass over the digit part: strip underscores, check digits, and
    // accumulate the magnitude, capping once it can no longer be in range.
    let mut acc: u64 = 0;
    let mut big = false;
    let mut ok = true;
    let mut count: usize = 0;
    let mut j: usize = dstart;
    while j < n
        invariant
            1 <= width <= 32,
            2 <= base <= 16,
            dstart <= j <= n,
            n == chars@.len(),
            s == chars@,
            d.len() == n - dstart,
            forall|q: int| 0 <= q < d.len() ==> d[q] == s[dstart + q],
            count <= j,
            count == strip_underscores(d.take(j - dstart)).len(),
            ok == all_digits(strip_underscores(d.take(j - dstart)), base as int),
            !big ==> acc == digits_val(strip_underscores(d.take(j - dstart)), base as int),
            !big ==> acc < MAG_CAP,
            big ==> digits_val(strip_underscores(d.take(j - dstart)), base as int) >= MAG_CAP,
        decreases n - j,
    {
        let c = chars[j];
        let ghost fs = strip_underscores(d.take(j - dstart));
        proof {
            assert(d.take(j + 1 - dstart).drop_last() =~= d.take(j - dstart));
            assert(d.take(j + 1 - dstart).last() == c);
            lemma_digits_val_nonneg(fs, base as int);
        }
        if c != '_' {
            if !digit_in(c, base) {
                ok = false;
            }
            let dv = digit_value(c);
            proof {
                let fs2 = strip_underscores(d.take(j + 1 - dstart));
                assert(fs2 == fs.push(c));
                assert(fs2.drop_last() =~= fs);
                assert(digits_val(fs2, base as int) == digits_val(fs, base as int) * (
                base as int) + digit_val(c));
                if big {
                    let p = digits_val(fs, base as int);
                    assert(p * (base as int) >= p) by (nonlinear_arith)
                        requires
                            p >= MAG_CAP as int,
                            base >= 2,
                    ;
                }
            }
            if big {
            } else {
                proof {
                    assert(acc < MAG_CAP);
                    assert(base <= 16);
                    assert(acc * (base as u64) <= (MAG_CAP - 1) * 16) by (nonlinear_arith)
                        requires
                            acc < MAG_CAP,
                            base <= 16,
                    ;
                }
                let next = acc * (base as u64) + (dv as u64);
                if next >= MAG_CAP {
                    big = true;
                } else {
                    acc = next;
                }
            }
            count = count + 1;
        } else {
            proof {
                assert(strip_underscores(d.take(j + 1 - dstart)) =~= strip_underscores(
                    d.take(j - dstart),
                ));
            }
        }
        j = j + 1;
    }
    proof {
        assert(d.take(n - dstart) =~= d);
    }

    if count == 0 || !ok {
        return Err(IntParsingError::FromStrRadixError);
    }

    // The admissible range for this width and signedness.
    let (min, max): (i64, i64) = if signed {
        let half = pow2_exec(width - 1);
        proof {
            lemma_pow2_strictly_increases((width - 1) as nat, 32);
            lemma2_to64();
        }
        (-(half as i64), half as i64 - 1)
    } else {
        let full = pow2_exec(width);
        proof {
            if width < 32 {
                lemma_pow2_strictly_increases(width as nat, 32);
            }
            lemma2_to64();
        }
        (0, full as i64 - 1)
    };
    proof {
        assert(min as int == lit_min(width as nat, signed));
        assert(max as int == lit_max(width as nat, signed));
        lemma_pow2_pos((width - 1) as nat);
    }

    if big {
        return Err(IntParsingError::OutOfRangeError { min, max });
    }
    let v: i64 = if neg {
        -(acc as i64)
    } else {
        acc as i64
    };
    if min <= v && v <= max {
        Ok(v)
    } else {
        Err(IntParsingError::OutOfRangeError { min, max })
    }
}

} // verus!
