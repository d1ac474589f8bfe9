//! Spec-level model of tokenization.
//!
//! The functions here define, over the source text as a `Seq<char>`, what
//! the lexer must produce: where whitespace ends, where each class of run
//! ends, the numeric value of a literal, and the classification of one
//! token scanned at a given position. The exec lexer's contracts say that
//! it returns exactly what [`scan_token_spec`] demands; the proof
//! functions at the end state the stream-level laws (coverage of the
//! input, strictly increasing positions, span lengths, and the
//! value/formatting round trip for integer literals).

use vstd::prelude::*;
use vstd::arithmetic::div_mod::{
    lemma_fundamental_div_mod_converse_div, lemma_fundamental_div_mod_converse_mod,
};

use crate::token::{kind_len_spec, ErrorModel, TokenKindModel, TokenModel};

verus! {

/// A scanned item: a token or a lexical error.
pub type ScanItem = core::result::Result<TokenModel, ErrorModel>;

// ---------------------------------------------------------------------
// Character classes
// ---------------------------------------------------------------------
/// Horizontal or vertical whitespace skipped between tokens.
pub open spec fn is_ws(c: char) -> bool {
    c == ' ' || c == '\r' || c == '\n' || c == '\t'
}

/// ASCII letter.
pub open spec fn is_letter(c: char) -> bool {
    ('a' <= c && c <= 'z') || ('A' <= c && c <= 'Z')
}

/// A character that may start an identifier. The caret is accepted here
/// but not as a continuation character.
pub open spec fn is_ident_start(c: char) -> bool {
    is_letter(c) || c == '_' || c == '^'
}

/// A character that may continue an identifier.
pub open spec fn is_ident_cont(c: char) -> bool {
    is_letter(c) || c == '_' || is_dec_digit(c)
}

/// ASCII decimal digit.
pub open spec fn is_dec_digit(c: char) -> bool {
    '0' <= c && c <= '9'
}

/// The digit separator, permitted inside numeric literals.
pub open spec fn is_sep(c: char) -> bool {
    c == '\''
}

/// A valid digit in the given radix (2, 10 or 16).
pub open spec fn digit_ok(c: char, base: nat) -> bool {
    if base == 16 {
        is_dec_digit(c) || ('a' <= c && c <= 'f') || ('A' <= c && c <= 'F')
    } else if base == 10 {
        is_dec_digit(c)
    } else {
        c == '0' || c == '1'
    }
}

/// Numeric value of a digit character.
pub open spec fn digit_val(c: char) -> nat {
    if '0' <= c && c <= '9' {
        ((c as int) - ('0' as int)) as nat
    } else if 'a' <= c && c <= 'f' {
        ((c as int) - ('a' as int) + 10) as nat
    } else if 'A' <= c && c <= 'F' {
        ((c as int) - ('A' as int) + 10) as nat
    } else {
        0
    }
}

// ---------------------------------------------------------------------
// Run ends
// ---------------------------------------------------------------------
/// First index at or after `i` holding a non-whitespace character.
pub open spec fn skip_ws_end(t: Seq<char>, i: nat) -> nat
    decreases t.len() - i,
{
    if i < t.len() && is_ws(t[i as int]) {
        skip_ws_end(t, i + 1)
    } else {
        i
    }
}

/// End of an identifier-continuation run starting at `i`.
pub open spec fn ident_run_end(t: Seq<char>, i: nat) -> nat
    decreases t.len() - i,
{
    if i < t.len() && is_ident_cont(t[i as int]) {
        ident_run_end(t, i + 1)
    } else {
        i
    }
}

/// End of a run of digits (in the given radix) and separators starting
/// at `i`.
pub open spec fn num_run_end(t: Seq<char>, i: nat, base: nat) -> nat
    decreases t.len() - i,
{
    if i < t.len() && (digit_ok(t[i as int], base) || is_sep(t[i as int])) {
        num_run_end(t, i + 1, base)
    } else {
        i
    }
}

/// End of the floating-point part starting at `i`: decimal digits, and at
/// most one `e`/`E` exponent marker (when `in_exp` is still false)
/// optionally followed by a single sign.
pub open spec fn float_run_end(t: Seq<char>, i: nat, in_exp: bool) -> nat
    decreases t.len() - i,
{
    if i < t.len() && is_dec_digit(t[i as int]) {
        float_run_end(t, i + 1, in_exp)
    } else if i < t.len() && (t[i as int] == 'e' || t[i as int] == 'E') && !in_exp {
        if i + 1 < t.len() && (t[(i + 1) as int] == '+' || t[(i + 1) as int] == '-') {
            float_run_end(t, i + 2, true)
        } else {
            float_run_end(t, i + 1, true)
        }
    } else {
        i
    }
}

/// End of a run of plain decimal digits (no separators) starting at `i`.
pub open spec fn dig_end(t: Seq<char>, i: nat) -> nat
    decreases t.len() - i,
{
    if i < t.len() && is_dec_digit(t[i as int]) {
        dig_end(t, i + 1)
    } else {
        i
    }
}

// ---------------------------------------------------------------------
// Digit sequences: count and value
// ---------------------------------------------------------------------
/// Number of digit characters in `s` (separators do not count).
pub open spec fn digit_count(s: Seq<char>, base: nat) -> nat
    decreases s.len(),
{
    if s.len() == 0 {
        0
    } else {
        digit_count(s.drop_last(), base) + if digit_ok(s.last(), base) {
            1nat
        } else {
            0nat
        }
    }
}

/// Value of the digit characters of `s` read in the given radix;
/// separators and other non-digits contribute nothing.
pub open spec fn digits_val(s: Seq<char>, base: nat) -> nat
    decreases s.len(),
{
    if s.len() == 0 {
        0
    } else if digit_ok(s.last(), base) {
        digits_val(s.drop_last(), base) * base + digit_val(s.last())
    } else {
        digits_val(s.drop_last(), base)
    }
}

// ---------------------------------------------------------------------
// Floating-point literal grammar
// ---------------------------------------------------------------------
/// The exponent part: `e`/`E`, an optional single sign, then at least one
/// digit reaching the end of the lexeme.
pub open spec fn valid_exp(s: Seq<char>, i: nat) -> bool {
    &&& i < s.len()
    &&& (s[i as int] == 'e' || s[i as int] == 'E')
    &&& {
        let k: nat = if i + 1 < s.len() && (s[(i + 1) as int] == '+' || s[(i + 1) as int]
            == '-') {
            i + 2
        } else {
            i + 1
        };
        let m = dig_end(s, k);
        m > k && m == s.len()
    }
}

/// What may follow the fractional digits: the end, or an exponent.
pub open spec fn valid_float_tail(s: Seq<char>, j: nat) -> bool {
    j == s.len() || valid_exp(s, j)
}

/// What may follow the integer digits: the end, a decimal point with
/// optional fractional digits, or an exponent.
pub open spec fn valid_float_rest(s: Seq<char>, i: nat) -> bool {
    if i == s.len() {
        true
    } else if s[i as int] == '.' {
        valid_float_tail(s, dig_end(s, i + 1))
    } else {
        valid_exp(s, i)
    }
}

/// A well-formed floating-point lexeme: one or more integer digits, an
/// optional `.` with optional fractional digits, an optional exponent
/// with at least one digit — and no digit separators. This is the float
/// grammar `str::parse::<f64>` documents for unsigned finite literals.
pub open spec fn valid_float(s: Seq<char>) -> bool {
    let i = dig_end(s, 0);
    i > 0 && valid_float_rest(s, i)
}

// ---------------------------------------------------------------------
// Scanning one token
// ---------------------------------------------------------------------
/// Result of scanning the float form whose lexeme spans `[start, e)`.
pub open spec fn float_result(t: Seq<char>, start: nat, e: nat) -> (ScanItem, nat) {
    let lex = t.subrange(start as int, e as int);
    if valid_float(lex) {
        (Ok(TokenModel { position: start, kind: TokenKindModel::Float(lex) }), e)
    } else {
        (Err(ErrorModel::FloatParsingError(lex, start)), e)
    }
}

/// Scan a decimal literal whose first digit stands at `start`; transfers
/// to float form at a decimal point or an exponent marker.
pub open spec fn scan_number_dec(t: Seq<char>, start: nat) -> (ScanItem, nat) {
    let d = num_run_end(t, start + 1, 10);
    if d < t.len() && t[d as int] == '.' {
        float_result(t, start, float_run_end(t, d + 1, false))
    } else if d < t.len() && (t[d as int] == 'e' || t[d as int] == 'E') {
        float_result(t, start, float_run_end(t, d, false))
    } else {
        let lex = t.subrange(start as int, d as int);
        if is_sep(t[(d - 1) as int]) {
            (Err(ErrorModel::IntegerSeparatorAtEnd(lex, start)), d)
        } else if digits_val(lex, 10) > u64::MAX {
            (Err(ErrorModel::IntegerExceedingLimit(lex, start)), d)
        } else {
            (
                Ok(
                    TokenModel {
                        position: start,
                        kind: TokenKindModel::Integer(lex, digits_val(lex, 10) as u64),
                    },
                ),
                d,
            )
        }
    }
}

/// The largest number of digits a literal of the given radix may carry:
/// 16 hexadecimal digits or 64 binary digits fill the 64-bit value.
pub open spec fn radix_digit_limit(base: nat) -> nat {
    if base == 16 {
        16
    } else {
        64
    }
}

/// Scan a radix literal: `start` points at the `0` of the `0x`/`0b`
/// prefix, digits run from `start + 2`.
pub open spec fn scan_radix(t: Seq<char>, start: nat, base: nat) -> (ScanItem, nat) {
    let d = num_run_end(t, start + 2, base);
    let lex = t.subrange(start as int, d as int);
    let digits = t.subrange((start + 2) as int, d as int);
    let n = digit_count(digits, base);
    if n == 0 {
        (Err(ErrorModel::IntegerNoValue(lex, start)), d)
    } else if n > radix_digit_limit(base) {
        (Err(ErrorModel::IntegerExceedingLimit(lex, start)), d)
    } else if is_sep(t[(d - 1) as int]) {
        (Err(ErrorModel::IntegerSeparatorAtEnd(lex, start)), d)
    } else {
        (
            Ok(
                TokenModel {
                    position: start,
                    kind: TokenKindModel::Integer(lex, digits_val(digits, base) as u64),
                },
            ),
            d,
        )
    }
}

/// A fixed token of one character at `i`.
pub open spec fn one_char_token(k: TokenKindModel, i: nat) -> (ScanItem, nat) {
    (Ok(TokenModel { position: i, kind: k }), i + 1)
}

/// A fixed token of one character at `i`, or of two characters when the
/// character at `i + 1` is `ext`.
pub open spec fn two_char_token(
    t: Seq<char>,
    i: nat,
    ext: char,
    one: TokenKindModel,
    two: TokenKindModel,
) -> (ScanItem, nat) {
    if i + 1 < t.len() && t[(i + 1) as int] == ext {
        (Ok(TokenModel { position: i, kind: two }), i + 2)
    } else {
        (Ok(TokenModel { position: i, kind: one }), i + 1)
    }
}

/// Classification of the token starting at the non-whitespace character
/// at `i`; yields the scanned item and the position after it.
pub open spec fn scan_at(t: Seq<char>, i: nat) -> (ScanItem, nat) {
    let c = t[i as int];
    if is_ident_start(c) {
        let e = ident_run_end(t, i + 1);
        (
            Ok(
                TokenModel {
                    position: i,
                    kind: TokenKindModel::Identifier(t.subrange(i as int, e as int)),
                },
            ),
            e,
        )
    } else if c == '0' && i + 1 < t.len() && (t[(i + 1) as int] == 'x' || t[(i + 1) as int]
        == 'X') {
        scan_radix(t, i, 16)
    } else if c == '0' && i + 1 < t.len() && (t[(i + 1) as int] == 'b' || t[(i + 1) as int]
        == 'B') {
        scan_radix(t, i, 2)
    } else if is_dec_digit(c) {
        scan_number_dec(t, i)
    } else if c == '{' {
        one_char_token(TokenKindModel::BracesLeft, i)
    } else if c == '}' {
        one_char_token(TokenKindModel::BracesRight, i)
    } else if c == ':' {
        one_char_token(TokenKindModel::Colon, i)
    } else if c == '=' {
        two_char_token(t, i, '=', TokenKindModel::Assign, TokenKindModel::Equals)
    } else if c == '!' {
        two_char_token(t, i, '=', TokenKindModel::ExclMark, TokenKindModel::NotEqual)
    } else if c == '>' {
        two_char_token(t, i, '=', TokenKindModel::Greater, TokenKindModel::GreaterThan)
    } else if c == '<' {
        two_char_token(t, i, '=', TokenKindModel::Less, TokenKindModel::LessThan)
    } else if c == '+' {
        two_char_token(t, i, '=', TokenKindModel::Plus, TokenKindModel::Increment)
    } else if c == '-' {
        two_char_token(t, i, '=', TokenKindModel::Minus, TokenKindModel::Decrement)
    } else if c == '*' {
        two_char_token(t, i, '=', TokenKindModel::Star, TokenKindModel::Multiply)
    } else if c == '/' {
        two_char_token(t, i, '=', TokenKindModel::Slash, TokenKindModel::Divide)
    } else if c == '&' {
        two_char_token(t, i, '&', TokenKindModel::Ampersand, TokenKindModel::LogicalAnd)
    } else if c == '|' {
        two_char_token(t, i, '|', TokenKindModel::Vert, TokenKindModel::LogicalOr)
    } else if c == '%' {
        one_char_token(TokenKindModel::PerCent, i)
    } else if c == '#' {
        one_char_token(TokenKindModel::Hash, i)
    } else if c == '$' {
        one_char_token(TokenKindModel::Dollar, i)
    } else if c == '"' {
        one_char_token(TokenKindModel::DoubleQuote, i)
    } else if c == '\'' {
        two_char_token(t, i, '\'', TokenKindModel::SingleQuote, TokenKindModel::SingleQuote2)
    } else if c == '?' {
        one_char_token(TokenKindModel::QuestionTag, i)
    } else if c == ',' {
        one_char_token(TokenKindModel::Comma, i)
    } else if c == '.' {
        if i + 1 < t.len() && t[(i + 1) as int] == '.' {
            if i + 2 < t.len() && t[(i + 2) as int] == '=' {
                (Ok(TokenModel { position: i, kind: TokenKindModel::RangeIncl }), i + 3)
            } else {
                (Ok(TokenModel { position: i, kind: TokenKindModel::Range }), i + 2)
            }
        } else {
            one_char_token(TokenKindModel::Dot, i)
        }
    } else if c == '~' {
        one_char_token(TokenKindModel::Tilde, i)
    } else if c == '[' {
        two_char_token(t, i, '[', TokenKindModel::BracketLeft, TokenKindModel::DoubleBracketLeft)
    } else if c == ']' {
        two_char_token(
            t,
            i,
            ']',
            TokenKindModel::BracketRight,
            TokenKindModel::DoubleBracketRight,
        )
    } else if c == '(' {
        one_char_token(TokenKindModel::ParensLeft, i)
    } else if c == ')' {
        one_char_token(TokenKindModel::ParensRight, i)
    } else {
        (Err(ErrorModel::UnknownToken(t.subrange(i as int, (i + 1) as int), i)), i + 1)
    }
}

/// Scan one token from position `from`: skip whitespace, then classify;
/// `None` when only whitespace remains.
pub open spec fn scan_token_spec(t: Seq<char>, from: nat) -> Option<(ScanItem, nat)> {
    let j = skip_ws_end(t, from);
    if j >= t.len() {
        None
    } else {
        Some(scan_at(t, j))
    }
}

/// The item the next `peek`/`next` from position `from` yields.
pub open spec fn spec_peek(t: Seq<char>, from: nat) -> Option<ScanItem> {
    match scan_token_spec(t, from) {
        None => None,
        Some((item, _)) => Some(item),
    }
}

/// The start position an item reports.
pub open spec fn item_pos(item: ScanItem) -> nat {
    match item {
        Ok(tm) => tm.position,
        Err(e) => match e {
            ErrorModel::IntegerNoValue(_, p) => p,
            ErrorModel::IntegerSeparatorAtEnd(_, p) => p,
            ErrorModel::IntegerExceedingLimit(_, p) => p,
            ErrorModel::FloatParsingError(_, p) => p,
            ErrorModel::UnknownToken(_, p) => p,
        },
    }
}

/// The exact source text a token kind stands for.
pub open spec fn kind_text(k: TokenKindModel) -> Seq<char> {
    match k {
        TokenKindModel::Identifier(s) => s,
        TokenKindModel::Integer(s, _) => s,
        TokenKindModel::Float(s) => s,
        TokenKindModel::BracesLeft => seq!['{'],
        TokenKindModel::BracesRight => seq!['}'],
        TokenKindModel::Equals => seq!['=', '='],
        TokenKindModel::Assign => seq!['='],
        TokenKindModel::Colon => seq![':'],
        TokenKindModel::ExclMark => seq!['!'],
        TokenKindModel::NotEqual => seq!['!', '='],
        TokenKindModel::Greater => seq!['>'],
        TokenKindModel::GreaterThan => seq!['>', '='],
        TokenKindModel::Less => seq!['<'],
        TokenKindModel::LessThan => seq!['<', '='],
        TokenKindModel::Plus => seq!['+'],
        TokenKindModel::Increment => seq!['+', '='],
        TokenKindModel::Minus => seq!['-'],
        TokenKindModel::Decrement => seq!['-', '='],
        TokenKindModel::Star => seq!['*'],
        TokenKindModel::Multiply => seq!['*', '='],
        TokenKindModel::Slash => seq!['/'],
        TokenKindModel::Divide => seq!['/', '='],
        TokenKindModel::Ampersand => seq!['&'],
        TokenKindModel::LogicalAnd => seq!['&', '&'],
        TokenKindModel::Vert => seq!['|'],
        TokenKindModel::LogicalOr => seq!['|', '|'],
        TokenKindModel::PerCent => seq!['%'],
        TokenKindModel::Hash => seq!['#'],
        TokenKindModel::Dollar => seq!['$'],
        TokenKindModel::DoubleQuote => seq!['"'],
        TokenKindModel::SingleQuote => seq!['\''],
        TokenKindModel::SingleQuote2 => seq!['\'', '\''],
        TokenKindModel::QuestionTag => seq!['?'],
        TokenKindModel::Comma => seq![','],
        TokenKindModel::Dot => seq!['.'],
        TokenKindModel::Range => seq!['.', '.'],
        TokenKindModel::RangeIncl => seq!['.', '.', '='],
        TokenKindModel::Tilde => seq!['~'],
        TokenKindModel::BracketLeft => seq!['['],
        TokenKindModel::DoubleBracketLeft => seq!['[', '['],
        TokenKindModel::BracketRight => seq![']'],
        TokenKindModel::DoubleBracketRight => seq![']', ']'],
        TokenKindModel::ParensLeft => seq!['('],
        TokenKindModel::ParensRight => seq![')'],
    }
}

/// The exact source text an item stands for: the token's text, or the
/// error's offending lexeme.
pub open spec fn item_text(item: ScanItem) -> Seq<char> {
    match item {
        Ok(tm) => kind_text(tm.kind),
        Err(e) => match e {
            ErrorModel::IntegerNoValue(s, _) => s,
            ErrorModel::IntegerSeparatorAtEnd(s, _) => s,
            ErrorModel::IntegerExceedingLimit(s, _) => s,
            ErrorModel::FloatParsingError(s, _) => s,
            ErrorModel::UnknownToken(s, _) => s,
        },
    }
}

// ---------------------------------------------------------------------
// Bounds of the runs
// ---------------------------------------------------------------------
pub proof fn lemma_skip_ws_end(t: Seq<char>, i: nat)
    requires
        i <= t.len(),
    ensures
        i <= skip_ws_end(t, i) <= t.len(),
        forall|k: int| i <= k < skip_ws_end(t, i) ==> is_ws(t[k]),
        skip_ws_end(t, i) < t.len() ==> !is_ws(t[skip_ws_end(t, i) as int]),
    decreases t.len() - i,
{
    if i < t.len() && is_ws(t[i as int]) {
        lemma_skip_ws_end(t, i + 1);
    }
}

pub proof fn lemma_ident_run_end(t: Seq<char>, i: nat)
    requires
        i <= t.len(),
    ensures
        i <= ident_run_end(t, i) <= t.len(),
    decreases t.len() - i,
{
    if i < t.len() && is_ident_cont(t[i as int]) {
        lemma_ident_run_end(t, i + 1);
    }
}

pub proof fn lemma_num_run_end(t: Seq<char>, i: nat, base: nat)
    requires
        i <= t.len(),
    ensures
        i <= num_run_end(t, i, base) <= t.len(),
    decreases t.len() - i,
{
    if i < t.len() && (digit_ok(t[i as int], base) || is_sep(t[i as int])) {
        lemma_num_run_end(t, i + 1, base);
    }
}

pub proof fn lemma_float_run_end(t: Seq<char>, i: nat, in_exp: bool)
    requires
        i <= t.len(),
    ensures
        i <= float_run_end(t, i, in_exp) <= t.len(),
    decreases t.len() - i,
{
    if i < t.len() && is_dec_digit(t[i as int]) {
        lemma_float_run_end(t, i + 1, in_exp);
    } else if i < t.len() && (t[i as int] == 'e' || t[i as int] == 'E') && !in_exp {
        if i + 1 < t.len() && (t[(i + 1) as int] == '+' || t[(i + 1) as int] == '-') {
            lemma_float_run_end(t, i + 2, true);
        } else {
            lemma_float_run_end(t, i + 1, true);
        }
    }
}

// ---------------------------------------------------------------------
// Digit values: bounds and the formatting round trip
// ---------------------------------------------------------------------
/// `base` raised to the power `n`.
pub open spec fn pow_b(base: nat, n: nat) -> nat
    decreases n,
{
    if n == 0 {
        1
    } else {
        base * pow_b(base, (n - 1) as nat)
    }
}

/// In the three radices in use, every valid digit's value lies below the
/// radix.
pub proof fn lemma_digit_val_lt(c: char, base: nat)
    requires
        base == 2 || base == 10 || base == 16,
        digit_ok(c, base),
    ensures
        digit_val(c) < base,
{
}

/// A run holds at least as many characters as digits.
pub proof fn lemma_digit_count_le(s: Seq<char>, base: nat)
    ensures
        digit_count(s, base) <= s.len(),
    decreases s.len(),
{
    if s.len() > 0 {
        lemma_digit_count_le(s.drop_last(), base);
    }
}

/// The value of a digit run lies below the radix raised to the number of
/// its digits.
pub proof fn lemma_digits_val_bound(s: Seq<char>, base: nat)
    requires
        base == 2 || base == 10 || base == 16,
    ensures
        digits_val(s, base) < pow_b(base, digit_count(s, base)),
    decreases s.len(),
{
    if s.len() == 0 {
    } else {
        lemma_digits_val_bound(s.drop_last(), base);
        if digit_ok(s.last(), base) {
            lemma_digit_val_lt(s.last(), base);
            let v = digits_val(s.drop_last(), base);
            let p = pow_b(base, digit_count(s.drop_last(), base));
            let d = digit_val(s.last());
            assert(v * base + d < p * base) by (nonlinear_arith)
                requires
                    v < p,
                    d < base,
                    base >= 2,
            ;
        }
    }
}

pub proof fn lemma_pow_b_mono(base: nat, m: nat, n: nat)
    requires
        base >= 1,
        m <= n,
    ensures
        pow_b(base, m) <= pow_b(base, n),
    decreases n,
{
    if m < n {
        lemma_pow_b_mono(base, m, (n - 1) as nat);
        let p = pow_b(base, (n - 1) as nat);
        assert(p <= base * p) by (nonlinear_arith)
            requires
                base >= 1,
                p >= 0,
        ;
    }
}

/// The powers of the radices that bound a 64-bit literal: 16 hex digits
/// or 64 binary digits fill the value range exactly.
pub proof fn lemma_pow_limits()
    ensures
        pow_b(16, 15) == 0x1000000000000000,
        pow_b(16, 16) == 0x10000000000000000,
        pow_b(2, 63) == 0x8000000000000000,
        pow_b(2, 64) == 0x10000000000000000,
{
    reveal_with_fuel(pow_b, 65);
}

/// The canonical digit character for a value below the radix: lower-case
/// letters for values ten and up.
pub open spec fn char_of_digit(d: nat) -> char {
    if d < 10 {
        (d + 48) as char
    } else {
        (d + 87) as char
    }
}

/// The canonical digit string of a value in the given radix: no leading
/// zeros, no separators, lower-case digit letters.
pub open spec fn fmt_digits(v: nat, base: nat) -> Seq<char>
    decreases v,
    when base >= 2
    via fmt_digits_decreases
{
    if v < base {
        seq![char_of_digit(v)]
    } else {
        fmt_digits(v / base, base).push(char_of_digit(v % base))
    }
}

#[via_fn]
proof fn fmt_digits_decreases(v: nat, base: nat) {
    if v >= base {
        vstd::arithmetic::div_mod::lemma_div_is_strictly_smaller(v as int, base as int);
    }
}

/// A digit string as the canonical formatting produces it: nonempty, only
/// canonical digits of the radix, and no leading zero unless it is the
/// single digit `0`.
pub open spec fn canonical_digits(s: Seq<char>, base: nat) -> bool {
    &&& s.len() > 0
    &&& forall|k: int|
        0 <= k < s.len() ==> digit_ok(#[trigger] s[k], base) && !('A' <= s[k] && s[k] <= 'F')
    &&& (s.len() == 1 || s[0] != '0')
}

/// Digit characters survive the value/character round trip.
pub proof fn lemma_char_digit_roundtrip(c: char, base: nat)
    requires
        base == 2 || base == 10 || base == 16,
        digit_ok(c, base),
        !('A' <= c && c <= 'F'),
    ensures
        char_of_digit(digit_val(c)) == c,
{
}

/// A canonical digit string of a nonzero leading digit has a nonzero
/// value.
proof fn lemma_canonical_val_pos(s: Seq<char>, base: nat)
    requires
        base == 2 || base == 10 || base == 16,
        canonical_digits(s, base),
        s[0] != '0',
    ensures
        digits_val(s, base) >= 1,
    decreases s.len(),
{
    if s.len() == 1 {
        assert(digit_val(s.last()) >= 1);
    } else {
        let s0 = s.drop_last();
        assert(canonical_digits(s0, base));
        lemma_canonical_val_pos(s0, base);
        let v = digits_val(s0, base);
        assert(v * base >= base) by (nonlinear_arith)
            requires
                v >= 1,
                base >= 2,
        ;
    }
}

/// Round trip between parsing and formatting: reading a canonical digit
/// string in its radix and formatting the value again reproduces the
/// string. For an integer literal without separators this says the
/// parsed value fed back through radix formatting yields the literal
/// itself (hex literals modulo the `0x` prefix and letter case).
pub proof fn lemma_digits_roundtrip(s: Seq<char>, base: nat)
    requires
        base == 2 || base == 10 || base == 16,
        canonical_digits(s, base),
    ensures
        fmt_digits(digits_val(s, base), base) == s,
    decreases s.len(),
{
    let v = digits_val(s, base);
    lemma_digit_val_lt(s.last(), base);
    lemma_char_digit_roundtrip(s.last(), base);
    if s.len() == 1 {
        assert(fmt_digits(v, base) =~= s);
    } else {
        let s0 = s.drop_last();
        let v0 = digits_val(s0, base);
        let d = digit_val(s.last());
        assert(canonical_digits(s0, base));
        lemma_canonical_val_pos(s0, base);
        assert(v0 * base >= base) by (nonlinear_arith)
            requires
                v0 >= 1,
                base >= 2,
        ;
        lemma_fundamental_div_mod_converse_div(v as int, base as int, v0 as int, d as int);
        lemma_fundamental_div_mod_converse_mod(v as int, base as int, v0 as int, d as int);
        lemma_digits_roundtrip(s0, base);
        assert(fmt_digits(v, base) =~= s);
    }
}

/// Formatting a value and reading the digits back yields the value.
pub proof fn lemma_fmt_digits_val(v: nat, base: nat)
    requires
        base == 2 || base == 10 || base == 16,
    ensures
        digits_val(fmt_digits(v, base), base) == v,
    decreases v,
{
    if v < base {
        assert(digit_ok(char_of_digit(v), base));
        assert(digit_val(char_of_digit(v)) == v);
        let s = fmt_digits(v, base);
        assert(s.len() == 1);
        assert(s.last() == char_of_digit(v));
        assert(s.drop_last() =~= Seq::<char>::empty());
        assert(digits_val(s.drop_last(), base) == 0);
        assert(digits_val(s, base) == 0 * base + digit_val(char_of_digit(v)));
    } else {
        vstd::arithmetic::div_mod::lemma_div_is_strictly_smaller(v as int, base as int);
        lemma_fmt_digits_val(v / base, base);
        vstd::arithmetic::div_mod::lemma_fundamental_div_mod(v as int, base as int);
        let d = v % base;
        assert(digit_ok(char_of_digit(d), base));
        assert(digit_val(char_of_digit(d)) == d);
        let s = fmt_digits(v, base);
        assert(s == fmt_digits(v / base, base).push(char_of_digit(d)));
        assert(s.last() == char_of_digit(d));
        assert(s.drop_last() =~= fmt_digits(v / base, base));
        assert(digits_val(s, base) == digits_val(s.drop_last(), base) * base + d);
        assert(digits_val(s.drop_last(), base) == v / base);
        assert((v / base) * base + d == v) by (nonlinear_arith)
            requires
                base >= 2,
                v == base * (v / base) + v % base,
                d == v % base,
        ;
    }
}

// ---------------------------------------------------------------------
// Stream-level laws
// ---------------------------------------------------------------------
/// A token kind's display length is the length of its source text.
pub proof fn lemma_kind_len_text(k: TokenKindModel)
    ensures
        kind_len_spec(k) == kind_text(k).len(),
{
}

/// One classification step: the item starts exactly at `i`, consumes at
/// least one character, and the consumed span is exactly the item's
/// source text.
pub proof fn lemma_scan_at(t: Seq<char>, i: nat)
    requires
        i < t.len(),
    ensures
        ({
            let (item, end) = scan_at(t, i);
            &&& item_pos(item) == i
            &&& i < end <= t.len()
            &&& t.subrange(i as int, end as int) == item_text(item)
        }),
{
    let c = t[i as int];
    let (item, end) = scan_at(t, i);
    if is_ident_start(c) {
        lemma_ident_run_end(t, i + 1);
    } else if c == '0' && i + 1 < t.len() && (t[(i + 1) as int] == 'x' || t[(i + 1) as int]
        == 'X') {
        lemma_num_run_end(t, i + 2, 16);
    } else if c == '0' && i + 1 < t.len() && (t[(i + 1) as int] == 'b' || t[(i + 1) as int]
        == 'B') {
        lemma_num_run_end(t, i + 2, 2);
    } else if is_dec_digit(c) {
        lemma_num_run_end(t, i + 1, 10);
        let d = num_run_end(t, i + 1, 10);
        if d < t.len() && t[d as int] == '.' {
            lemma_float_run_end(t, d + 1, false);
        } else if d < t.len() && (t[d as int] == 'e' || t[d as int] == 'E') {
            lemma_float_run_end(t, d, false);
        }
    } else {
        // Fixed tokens: the consumed span spells the operator.
        assert(t.subrange(i as int, end as int) =~= item_text(item));
    }
}

/// One full scan step from `from`: either only whitespace remains, or an
/// item is produced whose position lies at or after `from`, preceded
/// only by whitespace, and whose source text is exactly the span it
/// consumed; for a token the span length is the kind's display length.
pub proof fn lemma_scan_step(t: Seq<char>, from: nat)
    requires
        from <= t.len(),
    ensures
        match scan_token_spec(t, from) {
            None => forall|k: int| from <= k < t.len() ==> is_ws(t[k]),
            Some((item, end)) => {
                &&& from <= item_pos(item) < end <= t.len()
                &&& forall|k: int| from <= k < item_pos(item) ==> is_ws(t[k])
                &&& t.subrange(item_pos(item) as int, end as int) == item_text(item)
                &&& t.subrange(from as int, end as int) == t.subrange(
                    from as int,
                    item_pos(item) as int,
                ) + item_text(item)
                &&& (item matches Ok(tm) ==> end == item_pos(item) + kind_len_spec(tm.kind))
            },
        },
{
    lemma_skip_ws_end(t, from);
    let j = skip_ws_end(t, from);
    if j < t.len() {
        lemma_scan_at(t, j);
        let (item, end) = scan_at(t, j);
        assert(t.subrange(from as int, end as int) =~= t.subrange(from as int, j as int)
            + t.subrange(j as int, end as int));
        if item is Ok {
            lemma_kind_len_text(item->Ok_0.kind);
        }
    }
}

/// Token positions strictly increase across successive scans, and each
/// position is the scalar-value offset of the item's first character.
pub proof fn lemma_positions_increase(t: Seq<char>, from: nat)
    requires
        from <= t.len(),
        scan_token_spec(t, from) is Some,
        scan_token_spec(t, (scan_token_spec(t, from)->0).1) is Some,
    ensures
        item_pos((scan_token_spec(t, (scan_token_spec(t, from)->0).1)->0).0) > item_pos(
            (scan_token_spec(t, from)->0).0,
        ),
{
    lemma_scan_step(t, from);
    lemma_scan_step(t, (scan_token_spec(t, from)->0).1);
}

/// The consumed spans of successive scan steps, each running from one
/// scan position to the next; the last piece is the trailing whitespace.
pub open spec fn scan_pieces(t: Seq<char>, from: nat) -> Seq<Seq<char>>
    decreases t.len() - from,
    when from <= t.len()
{
    match scan_token_spec(t, from) {
        None => seq![t.subrange(from as int, t.len() as int)],
        Some((item, end)) => if from < end <= t.len() {
            // The guard always holds: a scanned item ends past its
            // start; it keeps the recursion well-founded.
            seq![t.subrange(from as int, end as int)] + scan_pieces(t, end)
        } else {
            seq![]
        },
    }
}

/// Concatenating the consumed spans of all scan steps reconstructs the
/// remaining source text exactly. Together with [`lemma_scan_step`] —
/// each span is the skipped whitespace followed by the item's lexeme —
/// this says that the token stream, interleaved with the skipped
/// whitespace, reconstructs the input.
pub proof fn lemma_pieces_reconstruct(t: Seq<char>, from: nat)
    requires
        from <= t.len(),
    ensures
        scan_pieces(t, from).flatten() == t.subrange(from as int, t.len() as int),
    decreases t.len() - from,
{
    match scan_token_spec(t, from) {
        None => {
            let p = scan_pieces(t, from);
            assert(p.drop_first() =~= Seq::<Seq<char>>::empty());
            assert(p.drop_first().flatten() =~= Seq::<char>::empty());
            assert(p.flatten() =~= t.subrange(from as int, t.len() as int));
        },
        Some((item, end)) => {
            lemma_scan_step(t, from);
            lemma_pieces_reconstruct(t, end);
            let p = scan_pieces(t, from);
            assert(p.drop_first() =~= scan_pieces(t, end));
            assert(p.flatten() == p.first() + p.drop_first().flatten());
            assert(p.flatten() =~= t.subrange(from as int, t.len() as int));
        },
    }
}

} // verus!
