//! The lexer: belt-assembly source text to a flat token stream.
//!
//! Tokens are matched longest-first: numbers (with optional sign and
//! `0x`/`0b`/`0o` base prefixes), bare identifiers, belt registers `b0` to
//! `b15`, `.`-led directives, `name:` label definitions, and newlines.
//! Spaces, tabs, `//` line comments and `/* */` block comments are skipped
//! silently. A register reading is preferred over a bare identifier of the
//! same length, and a trailing `:` turns an identifier into a label. Input
//! that matches no rule yields an explicit `Error` token for that character
//! rather than aborting, so one bad character never stops the rest of the
//! file from lexing.

use vstd::prelude::*;

verus! {

/// One token of belt-assembly source. The payload strings hold the exact
/// source text of the token (a directive keeps its `.`, a label its `:`).
#[derive(Clone, Debug, PartialEq)]
pub enum Token {
    Error,
    Number(String),
    Text(String),
    Register(String),
    Directive(String),
    Label(String),
    NewLine,
}

/// A token together with the character span it occupies in the source.
#[derive(Clone, Debug, PartialEq)]
pub struct SpannedToken {
    pub token: Token,
    pub start: usize,
    pub end: usize,
}

/// The ghost shape of a token: payloads as character sequences.
pub ghost enum TokenModel {
    Error,
    Number(Seq<char>),
    Text(Seq<char>),
    Register(Seq<char>),
    Directive(Seq<char>),
    Label(Seq<char>),
    NewLine,
}

/// The ghost shape of a spanned token.
#[verifier::ext_equal]
pub ghost struct SpannedTokenModel {
    pub token: TokenModel,
    pub start: int,
    pub end: int,
}

impl View for Token {
    type V = TokenModel;

    open spec fn view(&self) -> TokenModel {
        match self {
            Token::Error => TokenModel::Error,
            Token::Number(t) => TokenModel::Number(t@),
            Token::Text(t) => TokenModel::Text(t@),
            Token::Register(t) => TokenModel::Register(t@),
            Token::Directive(t) => TokenModel::Directive(t@),
            Token::Label(t) => TokenModel::Label(t@),
            Token::NewLine => TokenModel::NewLine,
        }
    }
}

impl View for SpannedToken {
    type V = SpannedTokenModel;

    open spec fn view(&self) -> SpannedTokenModel {
        SpannedTokenModel { token: self.token@, start: self.start as int, end: self.end as int }
    }
}

/// Whether `c` can continue an identifier (letters, digits, `_`, `-`).
pub open spec fn is_ident_char(c: char) -> bool {
    ||| ('a' as u32) <= (c as u32) <= ('z' as u32)
    ||| ('A' as u32) <= (c as u32) <= ('Z' as u32)
    ||| ('0' as u32) <= (c as u32) <= ('9' as u32)
    ||| c == '_'
    ||| c == '-'
}

/// Whether `c` can start an identifier (a letter).
pub open spec fn is_letter(c: char) -> bool {
    ||| ('a' as u32) <= (c as u32) <= ('z' as u32)
    ||| ('A' as u32) <= (c as u32) <= ('Z' as u32)
}

/// Whether `c` is a decimal digit.
pub open spec fn is_dec_digit(c: char) -> bool {
    ('0' as u32) <= (c as u32) <= ('9' as u32)
}

/// Whether `c` can continue a directive name (letters, `_`, `-`).
pub open spec fn is_directive_char(c: char) -> bool {
    is_letter(c) || c == '_' || c == '-'
}

/// Whether `c` is a digit of the base (2, 8, 10 or 16) as the token rules
/// see it: `0-9` bounded by the base, and `a-f`/`A-F` for base 16.
pub open spec fn is_base_digit(c: char, base: int) -> bool {
    ||| (is_dec_digit(c) && (c as u32) - ('0' as u32) < base)
    ||| (base == 16 && ('a' as u32) <= (c as u32) <= ('f' as u32))
    ||| (base == 16 && ('A' as u32) <= (c as u32) <= ('F' as u32))
}

/// The end of the run of characters satisfying the identifier-continuation
/// rule, starting at `i`.
pub open spec fn ident_run_end(s: Seq<char>, i: int) -> int
    decreases s.len() - i when 0 <= i <= s.len()
{
    if i < s.len() && is_ident_char(s[i]) {
        ident_run_end(s, i + 1)
    } else {
        i
    }
}

/// The end of the run of directive-name characters starting at `i`.
pub open spec fn directive_run_end(s: Seq<char>, i: int) -> int
    decreases s.len() - i when 0 <= i <= s.len()
{
    if i < s.len() && is_directive_char(s[i]) {
        directive_run_end(s, i + 1)
    } else {
        i
    }
}

/// The end of the run of digits of `base` starting at `i`.
pub open spec fn digit_run_end(s: Seq<char>, i: int, base: int) -> int
    decreases s.len() - i when 0 <= i <= s.len()
{
    if i < s.len() && is_base_digit(s[i], base) {
        digit_run_end(s, i + 1, base)
    } else {
        i
    }
}

/// The position of the next newline at or after `i`, or the end of input.
pub open spec fn line_end(s: Seq<char>, i: int) -> int
    decreases s.len() - i when 0 <= i <= s.len()
{
    if i < s.len() && s[i] != '\n' {
        line_end(s, i + 1)
    } else {
        i
    }
}

/// The first position `j` at or after `i` where `*/` begins, or `None`.
pub open spec fn block_comment_close(s: Seq<char>, i: int) -> Option<int>
    decreases s.len() - i when 0 <= i <= s.len()
{
    if i + 2 > s.len() {
        None
    } else if s[i] == '*' && s[i + 1] == '/' {
        Some(i)
    } else {
        block_comment_close(s, i + 1)
    }
}

/// Where a number token starting at the digit position `k` ends: a `0x`,
/// `0b` or `0o` prefix with at least one digit of its base takes the run of
/// those digits; otherwise the token is the run of decimal digits. There
/// must be a decimal digit at `k` for any number to begin.
pub open spec fn number_end(s: Seq<char>, k: int) -> int {
    if k + 2 < s.len() && s[k] == '0' && (s[k + 1] == 'x' || s[k + 1] == 'X') && is_base_digit(
        s[k + 2],
        16,
    ) {
        digit_run_end(s, k + 2, 16)
    } else if k + 2 < s.len() && s[k] == '0' && (s[k + 1] == 'b' || s[k + 1] == 'B')
        && is_base_digit(s[k + 2], 2) {
        digit_run_end(s, k + 2, 2)
    } else if k + 2 < s.len() && s[k] == '0' && (s[k + 1] == 'o' || s[k + 1] == 'O')
        && is_base_digit(s[k + 2], 8) {
        digit_run_end(s, k + 2, 8)
    } else {
        digit_run_end(s, k, 10)
    }
}

/// Whether the characters `s[i..j]` read as a belt register: `b` followed
/// by a decimal numeral 0 to 15 (one digit, or `1` then `0`-`5`).
pub open spec fn is_register_text(s: Seq<char>, i: int, j: int) -> bool {
    &&& i < j <= s.len()
    &&& s[i] == 'b'
    &&& if j - i == 2 {
        is_dec_digit(s[i + 1])
    } else if j - i == 3 {
        s[i + 1] == '1' && ('0' as u32) <= (s[i + 2] as u32) <= ('5' as u32)
    } else {
        false
    }
}

/// What the lexer finds at position `i` (not at end of input): either
/// nothing to report and a new position (whitespace and comments), or one
/// token with its span and the position after it.
pub open spec fn next_lex(s: Seq<char>, i: int) -> (Option<SpannedTokenModel>, int) {
    let c = s[i];
    if c == ' ' || c == '\t' {
        (None, i + 1)
    } else if c == '\n' {
        (Some(SpannedTokenModel { token: TokenModel::NewLine, start: i, end: i + 1 }), i + 1)
    } else if c == '/' && i + 1 < s.len() && s[i + 1] == '/' {
        (None, line_end(s, i + 2))
    } else if c == '/' && i + 1 < s.len() && s[i + 1] == '*' {
        match block_comment_close(s, i + 2) {
            Some(j) => (None, j + 2),
            None => (
                Some(SpannedTokenModel { token: TokenModel::Error, start: i, end: i + 1 }),
                i + 1,
            ),
        }
    } else if c == '.' && i + 1 < s.len() && is_directive_char(s[i + 1]) {
        let j = directive_run_end(s, i + 1);
        (
            Some(
                SpannedTokenModel {
                    token: TokenModel::Directive(s.subrange(i, j)),
                    start: i,
                    end: j,
                },
            ),
            j,
        )
    } else if is_dec_digit(c) {
        let j = number_end(s, i);
        (
            Some(
                SpannedTokenModel { token: TokenModel::Number(s.subrange(i, j)), start: i, end: j },
            ),
            j,
        )
    } else if (c == '+' || c == '-') && i + 1 < s.len() && is_dec_digit(s[i + 1]) {
        let j = number_end(s, i + 1);
        (
            Some(
                SpannedTokenModel { token: TokenModel::Number(s.subrange(i, j)), start: i, end: j },
            ),
            j,
        )
    } else if is_letter(c) {
        let j = ident_run_end(s, i + 1);
        if j < s.len() && s[j] == ':' {
            (
                Some(
                    SpannedTokenModel {
                        token: TokenModel::Label(s.subrange(i, j + 1)),
                        start: i,
                        end: j + 1,
                    },
                ),
                j + 1,
            )
        } else if is_register_text(s, i, j) {
            (
                Some(
                    SpannedTokenModel {
                        token: TokenModel::Register(s.subrange(i, j)),
                        start: i,
                        end: j,
                    },
                ),
                j,
            )
        } else {
            (
                Some(
                    SpannedTokenModel { token: TokenModel::Text(s.subrange(i, j)), start: i, end: j },
                ),
                j,
            )
        }
    } else {
        (Some(SpannedTokenModel { token: TokenModel::Error, start: i, end: i + 1 }), i + 1)
    }
}

/// `ident_run_end` stays within `(i, s.len()]`'s bounds.
pub proof fn lemma_ident_run_end_bounds(s: Seq<char>, i: int)
    requires
        0 <= i <= s.len(),
    ensures
        i <= ident_run_end(s, i) <= s.len(),
    decreases s.len() - i,
{
    if i < s.len() && is_ident_char(s[i]) {
        lemma_ident_run_end_bounds(s, i + 1);
    }
}

/// `directive_run_end` stays within `(i, s.len()]`'s bounds.
pub proof fn lemma_directive_run_end_bounds(s: Seq<char>, i: int)
    requires
        0 <= i <= s.len(),
    ensures
        i <= directive_run_end(s, i) <= s.len(),
    decreases s.len() - i,
{
    if i < s.len() && is_directive_char(s[i]) {
        lemma_directive_run_end_bounds(s, i + 1);
    }
}

/// `digit_run_end` stays within `(i, s.len()]`'s bounds.
pub proof fn lemma_digit_run_end_bounds(s: Seq<char>, i: int, base: int)
    requires
        0 <= i <= s.len(),
    ensures
        i <= digit_run_end(s, i, base) <= s.len(),
    decreases s.len() - i,
{
    if i < s.len() && is_base_digit(s[i], base) {
        lemma_digit_run_end_bounds(s, i + 1, base);
    }
}

/// `line_end` stays within `(i, s.len()]`'s bounds.
pub proof fn lemma_line_end_bounds(s: Seq<char>, i: int)
    requires
        0 <= i <= s.len(),
    ensures
        i <= line_end(s, i) <= s.len(),
    decreases s.len() - i,
{
    if i < s.len() && s[i] != '\n' {
        lemma_line_end_bounds(s, i + 1);
    }
}

/// A block comment close found at or after `i` lies within bounds.
pub proof fn lemma_block_comment_close_bounds(s: Seq<char>, i: int)
    requires
        0 <= i <= s.len(),
    ensures
        match block_comment_close(s, i) {
            Some(j) => i <= j && j + 2 <= s.len(),
            None => true,
        },
    decreases s.len() - i,
{
    if i + 2 > s.len() {
    } else if s[i] == '*' && s[i + 1] == '/' {
    } else {
        lemma_block_comment_close_bounds(s, i + 1);
    }
}

/// `number_end` starting at a decimal digit moves strictly forward and
/// stays in bounds.
pub proof fn lemma_number_end_bounds(s: Seq<char>, k: int)
    requires
        0 <= k < s.len(),
        is_dec_digit(s[k]),
    ensures
        k < number_end(s, k) <= s.len(),
{
    assert(is_base_digit(s[k], 10));
    assert(digit_run_end(s, k, 10) == digit_run_end(s, k + 1, 10));
    lemma_digit_run_end_bounds(s, k + 1, 10);
    if k + 2 < s.len() && s[k] == '0' && (s[k + 1] == 'x' || s[k + 1] == 'X') && is_base_digit(
        s[k + 2],
        16,
    ) {
        lemma_digit_run_end_bounds(s, k + 2, 16);
    } else if k + 2 < s.len() && s[k] == '0' && (s[k + 1] == 'b' || s[k + 1] == 'B')
        && is_base_digit(s[k + 2], 2) {
        lemma_digit_run_end_bounds(s, k + 2, 2);
    } else if k + 2 < s.len() && s[k] == '0' && (s[k + 1] == 'o' || s[k + 1] == 'O')
        && is_base_digit(s[k + 2], 8) {
        lemma_digit_run_end_bounds(s, k + 2, 8);
    }
}

/// The lexer's single step always moves strictly forward, within bounds.
pub proof fn lemma_next_lex_bounds(s: Seq<char>, i: int)
    requires
        0 <= i < s.len(),
    ensures
        i < next_lex(s, i).1 <= s.len(),
{
    let c = s[i];
    if c == ' ' || c == '\t' || c == '\n' {
    } else if c == '/' && i + 1 < s.len() && s[i + 1] == '/' {
        lemma_line_end_bounds(s, i + 2);
    } else if c == '/' && i + 1 < s.len() && s[i + 1] == '*' {
        lemma_block_comment_close_bounds(s, i + 2);
    } else if c == '.' && i + 1 < s.len() && is_directive_char(s[i + 1]) {
        lemma_directive_run_end_bounds(s, i + 1);
    } else if is_dec_digit(c) {
        lemma_number_end_bounds(s, i);
    } else if (c == '+' || c == '-') && i + 1 < s.len() && is_dec_digit(s[i + 1]) {
        lemma_number_end_bounds(s, i + 1);
    } else if is_letter(c) {
        lemma_ident_run_end_bounds(s, i + 1);
    }
}

/// The token stream of `s` from position `i` on.
pub open spec fn lex_from(s: Seq<char>, i: int) -> Seq<SpannedTokenModel>
    decreases s.len() - i when 0 <= i <= s.len() via lex_from_decreases
{
    if i >= s.len() {
        Seq::empty()
    } else {
        let (t, j) = next_lex(s, i);
        match t {
            Some(tok) => seq![tok] + lex_from(s, j),
            None => lex_from(s, j),
        }
    }
}

#[via_fn]
proof fn lex_from_decreases(s: Seq<char>, i: int) {
    if i < s.len() {
        lemma_next_lex_bounds(s, i);
    }
}


/// Whether `c` can continue an identifier.
fn ident_char_exec(c: char) -> (b: bool)
    ensures
        b == is_ident_char(c),
{
    let cv = c as u32;
    (97 <= cv && cv <= 122) || (65 <= cv && cv <= 90) || (48 <= cv && cv <= 57) || c == '_' || c
        == '-'
}

/// Whether `c` is a letter.
fn letter_exec(c: char) -> (b: bool)
    ensures
        b == is_letter(c),
{
    let cv = c as u32;
    (97 <= cv && cv <= 122) || (65 <= cv && cv <= 90)
}

/// Whether `c` is a decimal digit.
fn dec_digit_exec(c: char) -> (b: bool)
    ensures
        b == is_dec_digit(c),
{
    let cv = c as u32;
    48 <= cv && cv <= 57
}

/// Whether `c` can continue a directive name.
fn directive_char_exec(c: char) -> (b: bool)
    ensures
        b == is_directive_char(c),
{
    letter_exec(c) || c == '_' || c == '-'
}

/// Whether `c` is a digit of the base.
fn base_digit_exec(c: char, base: u32) -> (b: bool)
    ensures
        b == is_base_digit(c, base as int),
{
    let cv = c as u32;
    (48 <= cv && cv <= 57 && cv - 48 < base) || (base == 16 && 97 <= cv && cv <= 102) || (base
        == 16 && 65 <= cv && cv <= 70)
}

/// The end of the identifier-character run starting at `i`.
fn ident_run_end_exec(chars: &Vec<char>, i: usize) -> (j: usize)
    requires
        i <= chars@.len(),
    ensures
        j == ident_run_end(chars@, i as int),
        i <= j <= chars@.len(),
{
    let n = chars.len();
    let mut k = i;
    while k < n && ident_char_exec(chars[k])
        invariant
            i <= k <= n,
            n == chars@.len(),
            ident_run_end(chars@, i as int) == ident_run_end(chars@, k as int),
        decreases n - k,
    {
        k = k + 1;
    }
    k
}

/// The end of the directive-character run starting at `i`.
fn directive_run_end_exec(chars: &Vec<char>, i: usize) -> (j: usize)
    requires
        i <= chars@.len(),
    ensures
        j == directive_run_end(chars@, i as int),
        i <= j <= chars@.len(),
{
    let n = chars.len();
    let mut k = i;
    while k < n && directive_char_exec(chars[k])
        invariant
            i <= k <= n,
            n == chars@.len(),
            directive_run_end(chars@, i as int) == directive_run_end(chars@, k as int),
        decreases n - k,
    {
        k = k + 1;
    }
    k
}

/// The end of the run of digits of `base` starting at `i`.
fn digit_run_end_exec(chars: &Vec<char>, i: usize, base: u32) -> (j: usize)
    requires
        i <= chars@.len(),
    ensures
        j == digit_run_end(chars@, i as int, base as int),
        i <= j <= chars@.len(),
{
    let n = chars.len();
    let mut k = i;
    while k < n && base_digit_exec(chars[k], base)
        invariant
            i <= k <= n,
            n == chars@.len(),
            digit_run_end(chars@, i as int, base as int) == digit_run_end(
                chars@,
                k as int,
                base as int,
            ),
        decreases n - k,
    {
        k = k + 1;
    }
    k
}

/// The position of the next newline at or after `i`, or the end of input.
fn line_end_exec(chars: &Vec<char>, i: usize) -> (j: usize)
    requires
        i <= chars@.len(),
    ensures
        j == line_end(chars@, i as int),
        i <= j <= chars@.len(),
{
    let n = chars.len();
    let mut k = i;
    while k < n && chars[k] != '\n'
        invariant
            i <= k <= n,
            n == chars@.len(),
            line_end(chars@, i as int) == line_end(chars@, k as int),
        decreases n - k,
    {
        k = k + 1;
    }
    k
}

/// The first position at or after `i` where `*/` begins, if any.
fn block_comment_close_exec(chars: &Vec<char>, i: usize) -> (r: Option<usize>)
    requires
        i <= chars@.len(),
    ensures
        match r {
            Some(j) => Some(j as int) == block_comment_close(chars@, i as int) && i <= j && j + 2
                <= chars@.len(),
            None => block_comment_close(chars@, i as int) is None,
        },
{
    let n = chars.len();
    let mut k = i;
    while k < n && k + 1 < n
        invariant
            i <= k <= n,
            n == chars@.len(),
            block_comment_close(chars@, i as int) == block_comment_close(chars@, k as int),
        decreases n - k,
    {
        if chars[k] == '*' && chars[k + 1] == '/' {
            return Some(k);
        }
        k = k + 1;
    }
    None
}

/// Where the number token whose digits start at `k` ends.
fn number_end_exec(chars: &Vec<char>, k: usize) -> (j: usize)
    requires
        k < chars@.len(),
        is_dec_digit(chars@[k as int]),
    ensures
        j == number_end(chars@, k as int),
        k < j <= chars@.len(),
{
    proof {
        lemma_number_end_bounds(chars@, k as int);
    }
    let n = chars.len();
    if n - k > 2 && chars[k] == '0' && (chars[k + 1] == 'x' || chars[k + 1] == 'X')
        && base_digit_exec(chars[k + 2], 16) {
        digit_run_end_exec(chars, k + 2, 16)
    } else if n - k > 2 && chars[k] == '0' && (chars[k + 1] == 'b' || chars[k + 1] == 'B')
        && base_digit_exec(chars[k + 2], 2) {
        digit_run_end_exec(chars, k + 2, 2)
    } else if n - k > 2 && chars[k] == '0' && (chars[k + 1] == 'o' || chars[k + 1] == 'O')
        && base_digit_exec(chars[k + 2], 8) {
        digit_run_end_exec(chars, k + 2, 8)
    } else {
        digit_run_end_exec(chars, k, 10)
    }
}

/// Whether the characters `i..j` read as a belt register `b0` to `b15`.
fn is_register_text_exec(chars: &Vec<char>, i: usize, j: usize) -> (b: bool)
    requires
        j <= chars@.len(),
    ensures
        b == is_register_text(chars@, i as int, j as int),
{
    if !(i < j && chars[i] == 'b') {
        return false;
    }
    if j - i == 2 {
        dec_digit_exec(chars[i + 1])
    } else if j - i == 3 {
        let cv = chars[i + 2] as u32;
        chars[i + 1] == '1' && 48 <= cv && cv <= 53
    } else {
        false
    }
}

/// The source text of the characters `start..end`, as an owned string.
fn span_text(src: &str, start: usize, end: usize) -> (t: String)
    requires
        start <= end <= src@.len(),
    ensures
        t@ == src@.subrange(start as int, end as int),
{
    String::from_str(src.substring_char(start, end))
}

/// Lex the whole source into its token stream, exactly as [`lex_spec`]
/// lays down. Total: every input yields a token list, a character that
/// matches no rule appearing as an `Error` token rather than stopping the
/// rest of the file from lexing.
pub fn tokenize(src: &str) -> (toks: Vec<SpannedToken>)
    ensures
        toks@.map_values(|t: SpannedToken| t@) == lex_spec(src@),
{
    let ghost s = src@;
    let n = src.unicode_len();
    let mut chars: Vec<char> = Vec::new();
    let mut ci: usize = 0;
    while ci < n
        invariant
            n == src@.len(),
            ci <= n,
            chars@.len() == ci,
            forall|q: int| 0 <= q < ci ==> chars@[q] == src@[q],
        decreases n - ci,
    {
        chars.push(src.get_char(ci));
        ci = ci + 1;
    }
    proof {
        assert(chars@ =~= s);
    }

    let mut toks: Vec<SpannedToken> = Vec::new();
    let mut i: usize = 0;
    while i < n
        invariant
            n == s.len(),
            chars@ == s,
            s == src@,
            i <= n,
            toks@.map_values(|t: SpannedToken| t@) + lex_from(s, i as int) == lex_spec(s),
        decreases n - i,
    {
        let ghost i0 = i as int;
        let ghost toks0 = toks@;
        proof {
            lemma_next_lex_bounds(s, i0);
        }
        let c = chars[i];
        if c == ' ' || c == '\t' {
            i = i + 1;
        } else if c == '\n' {
            toks.push(SpannedToken { token: Token::NewLine, start: i, end: i + 1 });
            i = i + 1;
        } else if c == '/' && i + 1 < n && chars[i + 1] == '/' {
            i = line_end_exec(&chars, i + 2);
        } else if c == '/' && i + 1 < n && chars[i + 1] == '*' {
            match block_comment_close_exec(&chars, i + 2) {
                Some(j) => {
                    i = j + 2;
                },
                None => {
                    toks.push(SpannedToken { token: Token::Error, start: i, end: i + 1 });
                    i = i + 1;
                },
            }
        } else if c == '.' && i + 1 < n && directive_char_exec(chars[i + 1]) {
            let j = directive_run_end_exec(&chars, i + 1);
            toks.push(
                SpannedToken { token: Token::Directive(span_text(src, i, j)), start: i, end: j },
            );
            i = j;
        } else if dec_digit_exec(c) {
            let j = number_end_exec(&chars, i);
            toks.push(
                SpannedToken { token: Token::Number(span_text(src, i, j)), start: i, end: j },
            );
            i = j;
        } else if (c == '+' || c == '-') && i + 1 < n && dec_digit_exec(chars[i + 1]) {
            let j = number_end_exec(&chars, i + 1);
            toks.push(
                SpannedToken { token: Token::Number(span_text(src, i, j)), start: i, end: j },
            );
            i = j;
        } else if letter_exec(c) {
            let j = ident_run_end_exec(&chars, i + 1);
            if j < n && chars[j] == ':' {
                toks.push(
                    SpannedToken {
                        token: Token::Label(span_text(src, i, j + 1)),
                        start: i,
                        end: j + 1,
                    },
                );
                i = j + 1;
            } else if is_register_text_exec(&chars, i, j) {
                toks.push(
                    SpannedToken {
                        token: Token::Register(span_text(src, i, j)),
                        start: i,
                        end: j,
                    },
                );
                i = j;
            } else {
                toks.push(
                    SpannedToken { token: Token::Text(span_text(src, i, j)), start: i, end: j },
                );
                i = j;
            }
        } else {
            toks.push(SpannedToken { token: Token::Error, start: i, end: i + 1 });
            i = i + 1;
        }
        proof {
            let stepped = next_lex(s, i0);
            assert(i as int == stepped.1);
            match stepped.0 {
                Some(tok) => {
                    assert(toks@.map_values(|t: SpannedToken| t@) =~= toks0.map_values(
                        |t: SpannedToken| t@,
                    ) + seq![tok]);
                },
                None => {
                    assert(toks@ == toks0);
                },
            }
        }
    }
    proof {
        assert(toks@.map_values(|t: SpannedToken| t@) =~= lex_spec(s));
    }
    toks
}

/// The token stream of the whole source.
pub open spec fn lex_spec(s: Seq<char>) -> Seq<SpannedTokenModel> {
    lex_from(s, 0)
}

} // verus!
