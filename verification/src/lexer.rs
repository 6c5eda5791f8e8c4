//! The lexer: consumes source text character by character and produces one
//! token per call. Whitespace is skipped; once the input is exhausted the
//! lexer returns `Eof` forever without moving.
//!
//! The scanning rules are specified by [`lex_token`], a function from a
//! character sequence and a position to the token found there and the
//! position after it; `next_token` is proved to follow it exactly.

use vstd::prelude::*;
use crate::text::{chars_to_string, string_to_chars};
use crate::token::{Token, TokenV};
use crate::value::str_to_string;

verus! {

broadcast use {vstd::std_specs::vec::group_vec_axioms, vstd::seq::group_seq_axioms};

/// The characters skipped between tokens.
pub open spec fn is_space(c: char) -> bool {
    c == ' ' || c == '\t' || c == '\n' || c == '\r'
}

/// The decimal digits.
pub open spec fn is_digit(c: char) -> bool {
    48 <= c as u32 && c as u32 <= 57
}

/// The characters that may start an identifier or keyword.
pub open spec fn is_ident_start(c: char) -> bool {
    (65 <= c as u32 && c as u32 <= 90) || (97 <= c as u32 && c as u32 <= 122) || c == '_'
}

/// Whether a character outside the ASCII range counts as alphanumeric.
/// Unicode decides; the classification is named, not restated.
pub uninterp spec fn is_alnum_beyond_ascii(c: char) -> bool;

/// Whether a character is alphanumeric: the ASCII letters and digits, and
/// beyond ASCII whatever Unicode classifies as alphanumeric.
pub open spec fn is_alnum(c: char) -> bool {
    if (c as u32) < 128 {
        (65 <= c as u32 && c as u32 <= 90) || (97 <= c as u32 && c as u32 <= 122) || is_digit(c)
    } else {
        is_alnum_beyond_ascii(c)
    }
}

/// Relies on char::is_alphanumeric: within ASCII it accepts exactly the
/// letters and digits; beyond ASCII it decides the named classification.
#[verifier::external_body]
fn unicode_alnum(c: char) -> (r: bool)
    ensures
        c as u32 >= 128 ==> r == is_alnum_beyond_ascii(c),
        r == is_alnum(c),
{
    c.is_alphanumeric()
}

/// The characters that may continue an identifier or keyword: anything
/// alphanumeric, or an underscore.
pub open spec fn is_ident_char(c: char) -> bool {
    is_alnum(c) || c == '_'
}

/// The first position at or after `pos` holding no whitespace.
pub open spec fn skip_ws(s: Seq<char>, pos: int) -> int
    decreases s.len() - pos,
{
    if pos < 0 || pos >= s.len() {
        pos
    } else if is_space(s[pos]) {
        skip_ws(s, pos + 1)
    } else {
        pos
    }
}

/// The first position at or after `pos` holding no digit.
pub open spec fn scan_digits_end(s: Seq<char>, pos: int) -> int
    decreases s.len() - pos,
{
    if pos < 0 || pos >= s.len() {
        pos
    } else if is_digit(s[pos]) {
        scan_digits_end(s, pos + 1)
    } else {
        pos
    }
}

/// The first position at or after `pos` holding no identifier character.
pub open spec fn scan_ident_end(s: Seq<char>, pos: int) -> int
    decreases s.len() - pos,
{
    if pos < 0 || pos >= s.len() {
        pos
    } else if is_ident_char(s[pos]) {
        scan_ident_end(s, pos + 1)
    } else {
        pos
    }
}

/// The position of the next double quote at or after `pos`, or the end of
/// the input when none follows.
pub open spec fn scan_string_end(s: Seq<char>, pos: int) -> int
    decreases s.len() - pos,
{
    if pos < 0 || pos >= s.len() {
        pos
    } else if s[pos] == '"' {
        pos
    } else {
        scan_string_end(s, pos + 1)
    }
}

/// The numeric value of a digit sequence.
pub open spec fn digits_val(s: Seq<char>) -> int
    decreases s,
{
    if s.len() == 0 {
        0
    } else {
        digits_val(s.drop_last()) * 10 + (s.last() as u32 - 48)
    }
}

/// The end of a numeric literal starting at `pos`: its digits, then at most
/// one decimal point followed by more digits.
pub open spec fn num_end(s: Seq<char>, pos: int) -> int {
    let d1 = scan_digits_end(s, pos);
    if 0 <= d1 < s.len() && s[d1] == '.' {
        scan_digits_end(s, d1 + 1)
    } else {
        d1
    }
}

/// The token value of a numeric literal starting at `pos`: the value of its
/// digits before any decimal point, clipped to the largest 64-bit signed
/// value. Digits after the point are consumed but contribute nothing: the
/// token model stores an integer.
pub open spec fn num_value(s: Seq<char>, pos: int) -> i64 {
    let v = digits_val(s.subrange(pos, scan_digits_end(s, pos)));
    if v > i64::MAX {
        i64::MAX
    } else {
        v as i64
    }
}

/// The keyword named by the text, or an identifier token holding it.
pub open spec fn keyword_token(text: Seq<char>) -> TokenV {
    if text == "let"@ {
        TokenV::Let
    } else if text == "print"@ {
        TokenV::Print
    } else if text == "true"@ {
        TokenV::True
    } else if text == "false"@ {
        TokenV::False
    } else if text == "if"@ {
        TokenV::If
    } else if text == "else"@ {
        TokenV::Else
    } else if text == "while"@ {
        TokenV::While
    } else if text == "break"@ {
        TokenV::Break
    } else if text == "func"@ {
        TokenV::Func
    } else if text == "return"@ {
        TokenV::Return
    } else if text == "or"@ {
        TokenV::Or
    } else if text == "and"@ {
        TokenV::And
    } else if text == "nil"@ {
        TokenV::Nil
    } else {
        TokenV::Identifier(text)
    }
}

/// What scanning a string literal from the quote at `pos` yields: the text
/// up to the next quote and the position after it, or an unknown-character
/// token at the end of the input when the literal is unterminated.
pub open spec fn str_lit_spec(s: Seq<char>, pos: int) -> (TokenV, int) {
    let start = if 0 <= pos < s.len() {
        pos + 1
    } else {
        pos
    };
    let e = scan_string_end(s, start);
    if 0 <= e < s.len() {
        (TokenV::StringLiteral(s.subrange(start, e)), e + 1)
    } else {
        (TokenV::Unknown('"'), e)
    }
}

/// What scanning an identifier or keyword from `pos` yields.
pub open spec fn ident_spec(s: Seq<char>, pos: int) -> (TokenV, int) {
    let e = scan_ident_end(s, pos);
    (keyword_token(s.subrange(pos, e)), e)
}

/// What scanning a numeric literal from `pos` yields.
pub open spec fn num_spec(s: Seq<char>, pos: int) -> (TokenV, int) {
    (TokenV::Number(num_value(s, pos)), num_end(s, pos))
}

/// One step of the lexer: the token found at or after `pos` once whitespace
/// is skipped, and the position just past it. At or past the end of the
/// input the result is `Eof` at the skip position, so lexing at the end is
/// idempotent.
pub open spec fn lex_token(s: Seq<char>, pos: int) -> (TokenV, int) {
    let p = skip_ws(s, pos);
    if p < 0 || p >= s.len() {
        (TokenV::Eof, p)
    } else {
        let c = s[p];
        if c == '=' {
            if p + 1 < s.len() && s[p + 1] == '=' {
                (TokenV::Equal, p + 2)
            } else {
                (TokenV::Assign, p + 1)
            }
        } else if c == '+' {
            (TokenV::Plus, p + 1)
        } else if c == '-' {
            (TokenV::Minus, p + 1)
        } else if c == '*' {
            (TokenV::Multiply, p + 1)
        } else if c == '/' {
            (TokenV::Divide, p + 1)
        } else if c == '<' {
            (TokenV::LessThan, p + 1)
        } else if c == '>' {
            (TokenV::GreaterThan, p + 1)
        } else if c == '(' {
            (TokenV::LeftParen, p + 1)
        } else if c == ')' {
            (TokenV::RightParen, p + 1)
        } else if c == '[' {
            (TokenV::LeftBracket, p + 1)
        } else if c == ']' {
            (TokenV::RightBracket, p + 1)
        } else if c == ',' {
            (TokenV::Comma, p + 1)
        } else if c == '{' {
            (TokenV::LeftCurly, p + 1)
        } else if c == '}' {
            (TokenV::RightCurly, p + 1)
        } else if c == ':' {
            (TokenV::Colon, p + 1)
        } else if c == ';' {
            (TokenV::Semicolon, p + 1)
        } else if c == '"' {
            str_lit_spec(s, p)
        } else if is_digit(c) {
            num_spec(s, p)
        } else if is_ident_start(c) {
            ident_spec(s, p)
        } else {
            (TokenV::Unknown(c), p + 1)
        }
    }
}

/// Decides whether a character is whitespace.
fn is_space_c(c: char) -> (r: bool)
    ensures
        r == is_space(c),
{
    c == ' ' || c == '\t' || c == '\n' || c == '\r'
}

/// Decides whether a character is a decimal digit.
fn is_digit_c(c: char) -> (r: bool)
    ensures
        r == is_digit(c),
{
    let u = c as u32;
    48 <= u && u <= 57
}

/// Decides whether a character may start an identifier.
fn is_ident_start_c(c: char) -> (r: bool)
    ensures
        r == is_ident_start(c),
{
    let u = c as u32;
    (65 <= u && u <= 90) || (97 <= u && u <= 122) || c == '_'
}

/// Decides whether a character may continue an identifier.
fn is_ident_char_c(c: char) -> (r: bool)
    ensures
        r == is_ident_char(c),
{
    unicode_alnum(c) || c == '_'
}

/// Decides whether a string equals a literal.
fn string_eq_lit(t: &String, lit: &str) -> (r: bool)
    ensures
        r == (t@ == lit@),
{
    let l = str_to_string(lit);
    *t == l
}

/// The lexer: the source as characters and a cursor into it.
pub struct Lexer {
    input: Vec<char>,
    position: usize,
}

impl Lexer {
    /// The source text being scanned.
    pub closed spec fn src(&self) -> Seq<char> {
        self.input@
    }

    /// The cursor: the position scanning continues from.
    pub closed spec fn pos(&self) -> int {
        self.position as int
    }

    /// Well-formedness: the cursor never passes the end of the input.
    /// `new` establishes it and every method preserves it.
    pub closed spec fn wf(&self) -> bool {
        self.position <= self.input@.len()
    }

    /// Makes a lexer at the start of the given source text.
    pub fn new(input: String) -> (l: Lexer)
        ensures
            l.wf(),
            l.src() == input@,
            l.pos() == 0,
    {
        let chars = string_to_chars(input.as_str());
        Lexer { input: chars, position: 0 }
    }

    /// Moves the cursor one character forward; at the end of the input it
    /// stays put.
    pub fn advance(&mut self)
        requires
            old(self).wf(),
        ensures
            final(self).wf(),
            final(self).src() == old(self).src(),
            final(self).pos() == if old(self).pos() < old(self).src().len() {
                old(self).pos() + 1
            } else {
                old(self).pos()
            },
    {
        if self.position < self.input.len() {
            self.position = self.position + 1;
        }
    }

    /// The character after the current one, without consuming anything.
    pub fn peek(&self) -> (r: Option<char>)
        ensures
            r == if self.pos() + 1 < self.src().len() {
                Some(self.src()[self.pos() + 1])
            } else {
                Option::<char>::None
            },
    {
        if self.position < self.input.len() && self.position + 1 < self.input.len() {
            Some(self.input[self.position + 1])
        } else {
            None
        }
    }

    /// Produces the next token, following [`lex_token`] exactly: whitespace
    /// is skipped, the token at the cursor is scanned, and the cursor moves
    /// just past it. At the end of the input this returns `Eof` without
    /// moving, on every call.
    #[verifier::loop_isolation(false)]
    pub fn next_token(&mut self) -> (t: Token)
        requires
            old(self).wf(),
        ensures
            final(self).wf(),
            final(self).src() == old(self).src(),
            (t@, final(self).pos()) == lex_token(old(self).src(), old(self).pos()),
    {
        while self.position < self.input.len() && is_space_c(self.input[self.position])
            invariant
                self.wf(),
                self.src() == old(self).src(),
                self.position <= self.input.len(),
                skip_ws(self.src(), old(self).pos()) == skip_ws(self.src(), self.pos()),
            decreases self.input.len() - self.position,
        {
            self.position = self.position + 1;
        }
        let ghost s = self.src();
        let ghost p = self.pos();
        proof {
            assert(skip_ws(s, p) == p);
            assert(p == skip_ws(s, old(self).pos()));
        }
        if self.position >= self.input.len() {
            return Token::Eof;
        }
        let c = self.input[self.position];
        if c == '=' {
            if self.position + 1 < self.input.len() && self.input[self.position + 1] == '=' {
                self.position = self.position + 2;
                Token::Equal
            } else {
                self.position = self.position + 1;
                Token::Assign
            }
        } else if c == '+' {
            self.position = self.position + 1;
            Token::Plus
        } else if c == '-' {
            self.position = self.position + 1;
            Token::Minus
        } else if c == '*' {
            self.position = self.position + 1;
            Token::Multiply
        } else if c == '/' {
            self.position = self.position + 1;
            Token::Divide
        } else if c == '<' {
            self.position = self.position + 1;
            Token::LessThan
        } else if c == '>' {
            self.position = self.position + 1;
            Token::GreaterThan
        } else if c == '(' {
            self.position = self.position + 1;
            Token::LeftParen
        } else if c == ')' {
            self.position = self.position + 1;
            Token::RightParen
        } else if c == '[' {
            self.position = self.position + 1;
            Token::LeftBracket
        } else if c == ']' {
            self.position = self.position + 1;
            Token::RightBracket
        } else if c == ',' {
            self.position = self.position + 1;
            Token::Comma
        } else if c == '{' {
            self.position = self.position + 1;
            Token::LeftCurly
        } else if c == '}' {
            self.position = self.position + 1;
            Token::RightCurly
        } else if c == ':' {
            self.position = self.position + 1;
            Token::Colon
        } else if c == ';' {
            self.position = self.position + 1;
            Token::Semicolon
        } else if c == '"' {
            self.string_literal()
        } else if is_digit_c(c) {
            self.number()
        } else if is_ident_start_c(c) {
            let r = self.identifier_or_keyword();
            r.unwrap()
        } else {
            self.position = self.position + 1;
            Token::Unknown(c)
        }
    }

    /// Scans a string literal: skips the opening quote, takes characters
    /// verbatim up to the closing quote, and consumes that quote; with no
    /// closing quote it consumes the rest of the input and reports an
    /// unknown-character token instead.
    #[verifier::loop_isolation(false)]
    pub fn string_literal(&mut self) -> (t: Token)
        requires
            old(self).wf(),
        ensures
            final(self).wf(),
            final(self).src() == old(self).src(),
            (t@, final(self).pos()) == str_lit_spec(old(self).src(), old(self).pos()),
    {
        self.advance();
        let ghost s = self.src();
        let ghost start = self.pos();
        let mut text: Vec<char> = Vec::new();
        while self.position < self.input.len() && self.input[self.position] != '"'
            invariant
                self.wf(),
                self.src() == s,
                start <= self.pos() <= s.len(),
                scan_string_end(s, start) == scan_string_end(s, self.pos()),
                text@ == s.subrange(start, self.pos()),
            decreases self.input.len() - self.position,
        {
            text.push(self.input[self.position]);
            self.position = self.position + 1;
            proof {
                assert(text@ =~= s.subrange(start, self.pos()));
            }
        }
        proof {
            assert(scan_string_end(s, self.pos()) == self.pos());
        }
        if self.position < self.input.len() {
            self.position = self.position + 1;
            Token::StringLiteral(chars_to_string(&text))
        } else {
            Token::Unknown('"')
        }
    }

    /// Scans a numeric literal: its digits, then at most one decimal point
    /// and the digits after it. The token's value is the integer named by
    /// the digits before the point, clipped to the largest 64-bit signed
    /// value.
    #[verifier::loop_isolation(false)]
    pub fn number(&mut self) -> (t: Token)
        requires
            old(self).wf(),
            0 <= old(self).pos() < old(self).src().len(),
            is_digit(old(self).src()[old(self).pos()]),
        ensures
            final(self).wf(),
            final(self).src() == old(self).src(),
            (t@, final(self).pos()) == num_spec(old(self).src(), old(self).pos()),
    {
        let ghost s = self.src();
        let ghost p0 = self.pos();
        let mut val: u64 = 0;
        let mut sat: bool = false;
        while self.position < self.input.len() && is_digit_c(self.input[self.position])
            invariant
                self.wf(),
                self.src() == s,
                p0 <= self.pos() <= s.len(),
                scan_digits_end(s, p0) == scan_digits_end(s, self.pos()),
                !sat ==> val as int == digits_val(s.subrange(p0, self.pos())) && val <= i64::MAX
                    as u64,
                sat ==> digits_val(s.subrange(p0, self.pos())) > i64::MAX as int,
            decreases self.input.len() - self.position,
        {
            let c = self.input[self.position];
            let d: u64 = ((c as u32) - 48) as u64;
            let ghost before = s.subrange(p0, self.pos());
            let ghost after = s.subrange(p0, self.pos() + 1);
            proof {
                assert(after.drop_last() =~= before);
                assert(after.last() == s[self.pos()]);
            }
            if !sat {
                if val > (i64::MAX as u64 - d) / 10 {
                    sat = true;
                    proof {
                        lemma_digit_step(val as int, d as int);
                    }
                } else {
                    proof {
                        lemma_digit_step(val as int, d as int);
                    }
                    val = val * 10 + d;
                }
            }
            self.position = self.position + 1;
        }
        proof {
            assert(scan_digits_end(s, self.pos()) == self.pos());
        }
        let value: i64 = if sat {
            i64::MAX
        } else {
            val as i64
        };
        if self.position < self.input.len() && {
            let c = self.input[self.position];
            c == '.'
        } {
            self.position = self.position + 1;
            let ghost dot = self.pos();
            while self.position < self.input.len() && is_digit_c(self.input[self.position])
                invariant
                    self.wf(),
                    self.src() == s,
                    dot <= self.pos() <= s.len(),
                    scan_digits_end(s, dot) == scan_digits_end(s, self.pos()),
                decreases self.input.len() - self.position,
            {
                self.position = self.position + 1;
            }
            proof {
                assert(scan_digits_end(s, self.pos()) == self.pos());
            }
        }
        Token::Number(value)
    }

    /// Scans an identifier: a maximal run of identifier characters, matched
    /// against the keyword table; text matching no keyword becomes an
    /// identifier token.
    #[verifier::loop_isolation(false)]
    pub fn identifier_or_keyword(&mut self) -> (r: Option<Token>)
        requires
            old(self).wf(),
        ensures
            final(self).wf(),
            final(self).src() == old(self).src(),
            r matches Some(t) && (t@, final(self).pos()) == ident_spec(
                old(self).src(),
                old(self).pos(),
            ),
    {
        let ghost s = self.src();
        let ghost p0 = self.pos();
        let mut text: Vec<char> = Vec::new();
        while self.position < self.input.len() && is_ident_char_c(self.input[self.position])
            invariant
                self.wf(),
                self.src() == s,
                p0 <= self.pos() <= s.len(),
                scan_ident_end(s, p0) == scan_ident_end(s, self.pos()),
                text@ == s.subrange(p0, self.pos()),
            decreases self.input.len() - self.position,
        {
            text.push(self.input[self.position]);
            self.position = self.position + 1;
            proof {
                assert(text@ =~= s.subrange(p0, self.pos()));
            }
        }
        proof {
            assert(scan_ident_end(s, self.pos()) == self.pos());
        }
        let t = chars_to_string(&text);
        let tok = if string_eq_lit(&t, "let") {
            Token::Let
        } else if string_eq_lit(&t, "print") {
            Token::Print
        } else if string_eq_lit(&t, "true") {
            Token::True
        } else if string_eq_lit(&t, "false") {
            Token::False
        } else if string_eq_lit(&t, "if") {
            Token::If
        } else if string_eq_lit(&t, "else") {
            Token::Else
        } else if string_eq_lit(&t, "while") {
            Token::While
        } else if string_eq_lit(&t, "break") {
            Token::Break
        } else if string_eq_lit(&t, "func") {
            Token::Func
        } else if string_eq_lit(&t, "return") {
            Token::Return
        } else if string_eq_lit(&t, "or") {
            Token::Or
        } else if string_eq_lit(&t, "and") {
            Token::And
        } else if string_eq_lit(&t, "nil") {
            Token::Nil
        } else {
            Token::Identifier(t)
        };
        Some(tok)
    }
}

/// Steps the saturation test of the digit accumulator: the accumulated
/// value exceeds the cutoff exactly when appending the digit would leave
/// the 64-bit signed range.
proof fn lemma_digit_step(val: int, d: int)
    requires
        0 <= val,
        0 <= d < 10,
    ensures
        val > (0x7fffffffffffffff - d) / 10 ==> val * 10 + d > 0x7fffffffffffffff,
        val <= (0x7fffffffffffffff - d) / 10 ==> val * 10 + d <= 0x7fffffffffffffff,
{
    let m: int = 0x7fffffffffffffff;
    vstd::arithmetic::div_mod::lemma_fundamental_div_mod(m - d, 10);
    let q = (m - d) / 10;
    let r = (m - d) % 10;
    assert(m - d == 10 * q + r);
    if val > q {
        assert(val * 10 >= (q + 1) * 10) by (nonlinear_arith)
            requires
                val >= q + 1,
        ;
    } else if val <= q {
        assert(val * 10 <= q * 10) by (nonlinear_arith)
            requires
                val <= q,
        ;
    }
}

/// Skipping whitespace stays within the input and lands on the end or on a
/// non-whitespace character.
pub proof fn lemma_skip_ws_bounds(s: Seq<char>, pos: int)
    requires
        0 <= pos <= s.len(),
    ensures
        pos <= skip_ws(s, pos) <= s.len(),
        skip_ws(s, pos) < s.len() ==> !is_space(s[skip_ws(s, pos)]),
    decreases s.len() - pos,
{
    if pos < s.len() && is_space(s[pos]) {
        lemma_skip_ws_bounds(s, pos + 1);
    }
}

/// Scanning digits stays within the input.
pub proof fn lemma_scan_digits_bounds(s: Seq<char>, pos: int)
    requires
        0 <= pos <= s.len(),
    ensures
        pos <= scan_digits_end(s, pos) <= s.len(),
    decreases s.len() - pos,
{
    if pos < s.len() && is_digit(s[pos]) {
        lemma_scan_digits_bounds(s, pos + 1);
    }
}

/// Scanning identifier characters stays within the input.
pub proof fn lemma_scan_ident_bounds(s: Seq<char>, pos: int)
    requires
        0 <= pos <= s.len(),
    ensures
        pos <= scan_ident_end(s, pos) <= s.len(),
    decreases s.len() - pos,
{
    if pos < s.len() && is_ident_char(s[pos]) {
        lemma_scan_ident_bounds(s, pos + 1);
    }
}

/// Scanning for a closing quote stays within the input.
pub proof fn lemma_scan_string_bounds(s: Seq<char>, pos: int)
    requires
        0 <= pos <= s.len(),
    ensures
        pos <= scan_string_end(s, pos) <= s.len(),
    decreases s.len() - pos,
{
    if pos < s.len() && s[pos] != '"' {
        lemma_scan_string_bounds(s, pos + 1);
    }
}

/// One lexing step stays within the input, consumes at least one character
/// for every token but `Eof`, and reports `Eof` exactly at the end.
pub proof fn lemma_lex_token_bounds(s: Seq<char>, pos: int)
    requires
        0 <= pos <= s.len(),
    ensures
        pos <= lex_token(s, pos).1 <= s.len(),
        !(lex_token(s, pos).0 is Eof) ==> lex_token(s, pos).1 > pos,
        lex_token(s, pos).0 is Eof ==> lex_token(s, pos).1 == s.len(),
{
    lemma_skip_ws_bounds(s, pos);
    let p = skip_ws(s, pos);
    if p < s.len() {
        let c = s[p];
        if c == '"' {
            lemma_scan_string_bounds(s, p + 1);
        } else if is_digit(c) {
            lemma_scan_digits_bounds(s, p + 1);
            let d1 = scan_digits_end(s, p);
            assert(d1 == scan_digits_end(s, p + 1));
            assert(d1 > p);
            if 0 <= d1 < s.len() && s[d1] == '.' {
                lemma_scan_digits_bounds(s, d1 + 1);
            }
        } else if c == '=' {
        } else if is_ident_start(c) {
            lemma_scan_ident_bounds(s, p + 1);
            assert(scan_ident_end(s, p) == scan_ident_end(s, p + 1));
            assert(scan_ident_end(s, p) > p);
        }
    }
}

/// Once the lexer reports `Eof` it reports `Eof` forever: lexing again from
/// the position an `Eof` left behind yields `Eof` at that same position.
pub proof fn lemma_eof_idempotent(s: Seq<char>, pos: int)
    requires
        0 <= pos <= s.len(),
        lex_token(s, pos).0 is Eof,
    ensures
        lex_token(s, lex_token(s, pos).1) == (TokenV::Eof, lex_token(s, pos).1),
{
    lemma_lex_token_bounds(s, pos);
}


/// All tokens of a source text from a position on, ending with the `Eof`
/// the lexer settles at.
pub open spec fn lex_all(s: Seq<char>, pos: int) -> Seq<TokenV>
    decreases s.len() - pos
        when 0 <= pos <= s.len()
        via lex_all_decreases
{
    let (t, p) = lex_token(s, pos);
    if t is Eof {
        seq![TokenV::Eof]
    } else {
        seq![t] + lex_all(s, p)
    }
}

#[via_fn]
proof fn lex_all_decreases(s: Seq<char>, pos: int) {
    lemma_lex_token_bounds(s, pos);
}

/// Lexes a whole source text into its token sequence, `Eof` included.
#[verifier::loop_isolation(false)]
pub fn tokenize(source: String) -> (r: Vec<Token>)
    ensures
        crate::parser::toks_view(r) == lex_all(source@, 0),
{
    let ghost src = source@;
    let mut lx = Lexer::new(source);
    let mut tokens: Vec<Token> = Vec::new();
    loop
        invariant
            lx.wf(),
            lx.src() == src,
            0 <= lx.pos() <= src.len(),
            crate::parser::toks_view(tokens) + lex_all(src, lx.pos()) == lex_all(src, 0),
        decreases src.len() - lx.pos(),
    {
        let ghost pos0 = lx.pos();
        let t = lx.next_token();
        proof {
            lemma_lex_token_bounds(src, pos0);
        }
        let done = matches!(t, Token::Eof);
        let ghost tv = t@;
        let ghost before = crate::parser::toks_view(tokens);
        tokens.push(t);
        proof {
            assert(crate::parser::toks_view(tokens) =~= before.push(tv));
        }
        if done {
            proof {
                assert(before.push(tv) =~= before + seq![TokenV::Eof]);
                assert(crate::parser::toks_view(tokens) =~= lex_all(src, 0));
            }
            break;
        }
        proof {
            assert(lex_all(src, pos0) == seq![tv] + lex_all(src, lx.pos()));
            assert(before.push(tv) + lex_all(src, lx.pos()) =~= before + lex_all(src, pos0));
            assert(crate::parser::toks_view(tokens) + lex_all(src, lx.pos()) =~= lex_all(src, 0));
        }
    }
    tokens
}


/// Rendering then scanning is the identity: the decimal digits of a number
/// name exactly that number, so a rendered literal lexes back to its value.
pub proof fn lemma_digits_roundtrip(m: nat)
    ensures
        digits_val(crate::value::dec_digits(m)) == m,
    decreases m,
{
    let ds = crate::value::dec_digits(m);
    if m < 10 {
        assert(ds =~= seq![crate::value::digit_char(m as int)]);
        assert(ds.drop_last() =~= Seq::<char>::empty());
        assert((crate::value::digit_char(m as int)) as u32 == 48 + m);
        assert(ds.len() == 1);
        assert(ds.last() == crate::value::digit_char(m as int));
        assert(digits_val(ds) == digits_val(ds.drop_last()) * 10 + (ds.last() as u32 - 48));
        assert(digits_val(ds.drop_last()) == 0);
        assert(digits_val(ds) == m);
    } else {
        lemma_digits_roundtrip(m / 10);
        assert(ds.drop_last() =~= crate::value::dec_digits(m / 10));
        assert(ds.last() == crate::value::digit_char((m % 10) as int));
        assert((crate::value::digit_char((m % 10) as int)) as u32 == 48 + m % 10);
        vstd::arithmetic::div_mod::lemma_fundamental_div_mod(m as int, 10);
        assert(ds.len() > 0);
        assert(digits_val(ds) == digits_val(ds.drop_last()) * 10 + (ds.last() as u32 - 48));
        assert(digits_val(ds) == m);
    }
}


/// Scanning a run of digits stops exactly where the digits stop.
proof fn lemma_scan_digits_run(s: Seq<char>, pos: int, end: int)
    requires
        0 <= pos <= end <= s.len(),
        forall|i: int| pos <= i < end ==> is_digit(#[trigger] s[i]),
        end == s.len() || !is_digit(s[end]),
    ensures
        scan_digits_end(s, pos) == end,
    decreases end - pos,
{
    if pos < end {
        lemma_scan_digits_run(s, pos + 1, end);
    }
}

/// A rendered number consists of digits, at least one.
proof fn lemma_dec_digits_are_digits(m: nat)
    ensures
        crate::value::dec_digits(m).len() >= 1,
        forall|i: int| 0 <= i < crate::value::dec_digits(m).len() ==> is_digit(
            #[trigger] crate::value::dec_digits(m)[i],
        ),
    decreases m,
{
    let ds = crate::value::dec_digits(m);
    if m < 10 {
        assert(ds =~= seq![crate::value::digit_char(m as int)]);
        assert((crate::value::digit_char(m as int)) as u32 == 48 + m);
    } else {
        lemma_dec_digits_are_digits(m / 10);
        assert(ds.drop_last() =~= crate::value::dec_digits(m / 10));
        assert(ds.last() == crate::value::digit_char((m % 10) as int));
        assert((crate::value::digit_char((m % 10) as int)) as u32 == 48 + m % 10);
        assert(forall|i: int| 0 <= i < ds.len() - 1 ==> is_digit(#[trigger] ds[i]));
    }
}

/// Lexing `print N;` for a non-negative literal N yields exactly the
/// keyword, the number with value N, the semicolon, and `Eof`.
pub proof fn lemma_lex_print_literal(n: i64, src: Seq<char>)
    requires
        n >= 0,
        src == "print "@ + crate::value::dec_digits(n as nat) + ";"@,
    ensures
        lex_all(src, 0) == seq![
            TokenV::Print,
            TokenV::Number(n),
            TokenV::Semicolon,
            TokenV::Eof,
        ],
{
    reveal_strlit("print ");
    reveal_strlit(";");
    reveal_strlit("let");
    reveal_strlit("print");
    let ds = crate::value::dec_digits(n as nat);
    let dl = ds.len() as int;
    lemma_dec_digits_are_digits(n as nat);
    lemma_digits_roundtrip(n as nat);
    assert(src.len() == 7 + dl);
    assert(src[0] == 'p' && src[1] == 'r' && src[2] == 'i' && src[3] == 'n' && src[4] == 't'
        && src[5] == ' ');
    assert(forall|i: int| 6 <= i < 6 + dl ==> src[i] == ds[i - 6] && is_digit(#[trigger] src[i]));
    assert(src[6 + dl] == ';');
    // the keyword
    assert(skip_ws(src, 0) == 0);
    assert(scan_ident_end(src, 5) == 5);
    assert(scan_ident_end(src, 4) == 5);
    assert(scan_ident_end(src, 3) == 5);
    assert(scan_ident_end(src, 2) == 5);
    assert(scan_ident_end(src, 1) == 5);
    assert(scan_ident_end(src, 0) == 5);
    assert(src.subrange(0, 5) =~= "print"@);
    assert("print"@ != "let"@);
    assert(keyword_token(src.subrange(0, 5)) == TokenV::Print);
    assert(lex_token(src, 0) == (TokenV::Print, 5int));
    // the number
    assert(skip_ws(src, 5) == skip_ws(src, 6));
    assert(!is_space(src[6]));
    assert(skip_ws(src, 6) == 6);
    lemma_scan_digits_run(src, 6, 6 + dl);
    assert(num_end(src, 6) == 6 + dl);
    assert(src.subrange(6, 6 + dl) =~= ds);
    assert(digits_val(src.subrange(6, 6 + dl)) == n);
    assert(num_value(src, 6) == n);
    assert(lex_token(src, 5) == (TokenV::Number(n), (6 + dl) as int));
    // the semicolon and the end
    assert(skip_ws(src, 6 + dl) == 6 + dl);
    assert(lex_token(src, 6 + dl) == (TokenV::Semicolon, (7 + dl) as int));
    assert(skip_ws(src, 7 + dl) == 7 + dl);
    assert(lex_token(src, 7 + dl) == (TokenV::Eof, (7 + dl) as int));
    assert(lex_all(src, 7 + dl) =~= seq![TokenV::Eof]);
    assert(lex_all(src, 6 + dl) =~= seq![TokenV::Semicolon, TokenV::Eof]);
    assert(lex_all(src, 5) =~= seq![TokenV::Number(n), TokenV::Semicolon, TokenV::Eof]);
    assert(lex_all(src, 0) =~= seq![
        TokenV::Print,
        TokenV::Number(n),
        TokenV::Semicolon,
        TokenV::Eof,
    ]);
}

} // verus!
