//! The tokenizer: drives the character scanner to classify runs of
//! characters into tokens, and offers a peekable stream of
//! token-or-error results.
//!
//! Every function's contract ties its result to the spec-level scanner
//! in [`crate::scanning`]: `next` returns exactly the item
//! [`scan_token_spec`] demands at the current position, and `peek`
//! returns the same item without consuming it.

use vstd::prelude::*;
use vstd::pervasive::unreached;
use vstd::string::StrSliceExecFns;

use crate::chscan::ChScanner;
use crate::scanning::{
    dig_end, digit_count, digit_ok, digit_val, digits_val, float_result, float_run_end,
    ident_run_end, is_dec_digit, is_ident_cont, is_ident_start, is_ws, item_pos,
    lemma_digit_count_le, lemma_digit_val_lt, lemma_digits_val_bound, lemma_pow_b_mono,
    lemma_pow_limits, lemma_scan_step, num_run_end, pow_b, scan_at, scan_number_dec,
    scan_radix, scan_token_spec, skip_ws_end, spec_peek, two_char_token, valid_exp,
    valid_float, ScanItem,
};
use crate::token::{
    make_token, result_view, Error, ErrorModel, Result, Token, TokenKind, TokenKindModel, TokenModel,
};

verus! {

/// A lexical error, under the name the parser wraps it by.
pub type LexerError<'a> = crate::token::Error<'a>;

/// The model of an optional token-or-error result.
pub open spec fn opt_result_view(r: Option<Result<'_>>) -> Option<ScanItem> {
    match r {
        None => None,
        Some(x) => Some(result_view(x)),
    }
}

/// The position at which the next item from `from` starts, or the text
/// length when only whitespace remains.
pub open spec fn next_item_pos(t: Seq<char>, from: nat) -> nat {
    match scan_token_spec(t, from) {
        None => t.len(),
        Some((item, _)) => item_pos(item),
    }
}

// ---------------------------------------------------------------------
// Exec character classification
// ---------------------------------------------------------------------
fn ws_char(c: char) -> (b: bool)
    ensures
        b == is_ws(c),
{
    c == ' ' || c == '\r' || c == '\n' || c == '\t'
}

fn ident_start_char(c: char) -> (b: bool)
    ensures
        b == is_ident_start(c),
{
    let u = c as u32;
    (97 <= u && u <= 122) || (65 <= u && u <= 90) || c == '_' || c == '^'
}

fn ident_cont_char(c: char) -> (b: bool)
    ensures
        b == is_ident_cont(c),
{
    let u = c as u32;
    (97 <= u && u <= 122) || (65 <= u && u <= 90) || c == '_' || (48 <= u && u <= 57)
}

fn dec_digit_char(c: char) -> (b: bool)
    ensures
        b == is_dec_digit(c),
{
    let u = c as u32;
    48 <= u && u <= 57
}

fn radix_digit_char(c: char, base: u64) -> (b: bool)
    requires
        base == 2 || base == 16,
    ensures
        b == digit_ok(c, base as nat),
{
    let u = c as u32;
    if base == 16 {
        (48 <= u && u <= 57) || (97 <= u && u <= 102) || (65 <= u && u <= 70)
    } else {
        c == '0' || c == '1'
    }
}

fn digit_value(c: char) -> (v: u64)
    ensures
        v == digit_val(c),
{
    let u = c as u32;
    if 48 <= u && u <= 57 {
        (u - 48) as u64
    } else if 97 <= u && u <= 102 {
        (u - 97 + 10) as u64
    } else if 65 <= u && u <= 70 {
        (u - 65 + 10) as u64
    } else {
        0
    }
}

// ---------------------------------------------------------------------
// Floating-point lexeme validation
// ---------------------------------------------------------------------
/// First index at or after `from` holding a non-digit character.
fn dig_end_exec(s: &str, from: usize, n: usize) -> (r: usize)
    requires
        n == s@.len(),
        from <= n,
    ensures
        r == dig_end(s@, from as nat),
        from <= r <= n,
{
    let mut i: usize = from;
    loop
        invariant
            from <= i <= n,
            n == s@.len(),
            dig_end(s@, from as nat) == dig_end(s@, i as nat),
        decreases n - i,
    {
        if i < n && dec_digit_char(s.get_char(i)) {
            i = i + 1;
        } else {
            return i;
        }
    }
}

/// Whether the characters from `i` form a valid exponent part reaching
/// the end of the lexeme.
fn exp_valid_exec(s: &str, i: usize, n: usize) -> (b: bool)
    requires
        n == s@.len(),
        i <= n,
    ensures
        b == valid_exp(s@, i as nat),
{
    if i >= n {
        return false;
    }
    let c = s.get_char(i);
    if !(c == 'e' || c == 'E') {
        return false;
    }
    let k: usize = if i + 1 < n {
        let c2 = s.get_char(i + 1);
        if c2 == '+' || c2 == '-' {
            i + 2
        } else {
            i + 1
        }
    } else {
        i + 1
    };
    let m = dig_end_exec(s, k, n);
    m > k && m == n
}

/// Whether `s` is a well-formed floating-point lexeme (see
/// [`valid_float`]).
fn float_lexeme_valid(s: &str) -> (b: bool)
    ensures
        b == valid_float(s@),
{
    let n = s.unicode_len();
    let i = dig_end_exec(s, 0, n);
    if i == 0 {
        return false;
    }
    if i == n {
        return true;
    }
    if s.get_char(i) == '.' {
        let j = dig_end_exec(s, i + 1, n);
        if j == n {
            true
        } else {
            exp_valid_exec(s, j, n)
        }
    } else {
        exp_valid_exec(s, i, n)
    }
}

// ---------------------------------------------------------------------
// The tokenizer
// ---------------------------------------------------------------------
/// Tokenizer over a source text: a lazy, peekable stream of
/// token-or-error results.
pub struct Lexer<'a> {
    scanner: ChScanner<'a>,
    peeked: Option<Option<Result<'a>>>,
    peek_from: Ghost<nat>,
}

impl<'a> Lexer<'a> {
    /// The scanned text.
    pub closed spec fn src(self) -> Seq<char> {
        self.scanner.src()
    }

    /// The position of the first character not yet consumed through
    /// `next`: a pending peeked item is not consumed.
    pub closed spec fn cur(self) -> nat {
        match self.peeked {
            None => self.scanner.cursor(),
            Some(_) => self.peek_from@,
        }
    }

    /// Whether a peeked item is pending: `next` will hand it out
    /// without scanning again.
    pub closed spec fn has_pending(self) -> bool {
        self.peeked is Some
    }

    /// Internal invariant: the scanner is well-formed and a pending
    /// peeked item is exactly what a scan from `cur` yields, with the
    /// scanner standing right after it.
    pub closed spec fn inv(self) -> bool {
        &&& self.scanner.wf()
        &&& match self.peeked {
            None => true,
            Some(item) => {
                &&& self.peek_from@ <= self.scanner.cursor()
                &&& match scan_token_spec(self.src(), self.peek_from@) {
                    None => item is None && self.scanner.cursor() == self.src().len(),
                    Some((it, end)) => {
                        &&& item matches Some(x) && result_view(x) == it
                        &&& self.scanner.cursor() == end
                    },
                }
            },
        }
    }

    /// Well-formedness: the internal invariant, and the cursor inside
    /// the text.
    pub open spec fn wf(self) -> bool {
        &&& self.inv()
        &&& self.cur() <= self.src().len()
        &&& self.src().len() <= usize::MAX
    }

    /// Creates a new `Lexer` for the given text.
    pub fn new_from_str(text: &'a str) -> (l: Self)
        ensures
            l.wf(),
            l.src() == text@,
            l.cur() == 0,
    {
        Lexer { scanner: ChScanner::new_from_str(text), peeked: None, peek_from: Ghost(0) }
    }

    /// Returns the next token or error without consuming it. Peeking is
    /// idempotent: any number of `peek` calls yield the same item, and
    /// consume nothing.
    pub fn peek(&mut self) -> (r: Option<Result<'a>>)
        requires
            old(self).wf(),
        ensures
            final(self).wf(),
            final(self).src() == old(self).src(),
            final(self).cur() == old(self).cur(),
            final(self).has_pending(),
            opt_result_view(r) == spec_peek(old(self).src(), old(self).cur()),
    {
        if self.peeked.is_none() {
            let ghost c = self.scanner.cursor();
            let item = self.scan_token();
            proof {
                lemma_scan_step(self.scanner.src(), c);
            }
            self.peeked = Some(item);
            self.peek_from = Ghost(c);
        }
        match &self.peeked {
            Some(item) => *item,
            None => unreached(),
        }
    }

    /// Returns and consumes the next token or error: the previously
    /// peeked item if one is pending, else a fresh scan. `None` means
    /// the end of the input, not an error.
    pub fn next(&mut self) -> (r: Option<Result<'a>>)
        requires
            old(self).wf(),
        ensures
            final(self).wf(),
            final(self).src() == old(self).src(),
            match scan_token_spec(old(self).src(), old(self).cur()) {
                None => {
                    &&& r is None
                    &&& final(self).cur() == old(self).src().len()
                },
                Some((item, end)) => {
                    &&& r matches Some(x) && result_view(x) == item
                    &&& final(self).cur() == end
                },
            },
    {
        match self.peeked {
            Some(p) => {
                self.peeked = None;
                p
            },
            None => self.scan_token(),
        }
    }

    /// The position at which the next token or error starts, or the
    /// text length when only whitespace remains.
    pub fn curr_pos(&mut self) -> (p: usize)
        requires
            old(self).wf(),
        ensures
            final(self).wf(),
            final(self).src() == old(self).src(),
            final(self).cur() == old(self).cur(),
            p == next_item_pos(old(self).src(), old(self).cur()),
    {
        let r = self.peek();
        match r {
            Some(Ok(t)) => t.position,
            Some(Err(e)) => match e {
                Error::IntegerNoValue(_, p) => p,
                Error::IntegerSeparatorAtEnd(_, p) => p,
                Error::IntegerExceedingLimit(_, p) => p,
                Error::FloatParsingError(_, p) => p,
                Error::UnknownToken(_, p) => p,
            },
            None => self.scanner.position(),
        }
    }

    /// Skips whitespace, sets the marker at the first non-whitespace
    /// character and scans one token from it.
    fn scan_token(&mut self) -> (r: Option<Result<'a>>)
        requires
            old(self).wf(),
            old(self).peeked is None,
        ensures
            final(self).wf(),
            final(self).peeked is None,
            final(self).src() == old(self).src(),
            match scan_token_spec(old(self).src(), old(self).scanner.cursor()) {
                None => {
                    &&& r is None
                    &&& final(self).scanner.cursor() == old(self).src().len()
                },
                Some((item, end)) => {
                    &&& r matches Some(x) && result_view(x) == item
                    &&& final(self).scanner.cursor() == end
                },
            },
    {
        let ghost t = self.scanner.src();
        let ghost c0 = self.scanner.cursor();
        loop
            invariant
                t == old(self).src(),
                c0 == old(self).scanner.cursor(),
                self.scanner.wf(),
                self.peeked is None,
                self.scanner.src() == t,
                self.scanner.cursor() <= t.len(),
                skip_ws_end(t, c0) == skip_ws_end(t, self.scanner.cursor()),
            decreases t.len() - self.scanner.cursor(),
        {
            self.scanner.set_marker();
            match self.scanner.next() {
                None => {
                    return None;
                },
                Some(ch) => {
                    if !ws_char(ch) {
                        return self.scan_init_char(ch);
                    }
                },
            }
        }
    }

    /// Classifies one token from its first character `ch`, which the
    /// scanner has just consumed and the marker stands on.
    fn scan_init_char(&mut self, ch: char) -> (r: Option<Result<'a>>)
        requires
            old(self).scanner.wf(),
            old(self).scanner.cursor() >= 1,
            old(self).scanner.marker_pos() == Some((old(self).scanner.cursor() - 1) as nat),
            ch == old(self).scanner.src()[old(self).scanner.cursor() - 1],
        ensures
            final(self).scanner.wf(),
            final(self).src() == old(self).src(),
            final(self).peeked == old(self).peeked,
            final(self).peek_from == old(self).peek_from,
            ({
                let (item, end) = scan_at(old(self).src(), (old(self).scanner.cursor() - 1) as nat);
                &&& r matches Some(x) && result_view(x) == item
                &&& final(self).scanner.cursor() == end
            }),
    {
        if ident_start_char(ch) {
            self.scan_identifier()
        } else if ch == '0' {
            let nx = self.scanner.peek();
            match nx {
                Some(c2) => {
                    if c2 == 'x' || c2 == 'X' {
                        self.scan_hex_integer()
                    } else if c2 == 'b' || c2 == 'B' {
                        self.scan_bin_integer()
                    } else {
                        self.scan_dec(ch)
                    }
                },
                None => self.scan_dec(ch),
            }
        } else if dec_digit_char(ch) {
            self.scan_dec(ch)
        } else if ch == '{' {
            Some(Ok(make_token(self.scanner.pos_marker(), TokenKind::BracesLeft)))
        } else if ch == '}' {
            Some(Ok(make_token(self.scanner.pos_marker(), TokenKind::BracesRight)))
        } else if ch == ':' {
            Some(Ok(make_token(self.scanner.pos_marker(), TokenKind::Colon)))
        } else if ch == '=' {
            self.scan_two('=', TokenKind::Assign, TokenKind::Equals)
        } else if ch == '!' {
            self.scan_two('=', TokenKind::ExclMark, TokenKind::NotEqual)
        } else if ch == '>' {
            self.scan_two('=', TokenKind::Greater, TokenKind::GreaterThan)
        } else if ch == '<' {
            self.scan_two('=', TokenKind::Less, TokenKind::LessThan)
        } else if ch == '+' {
            self.scan_two('=', TokenKind::Plus, TokenKind::Increment)
        } else if ch == '-' {
            self.scan_two('=', TokenKind::Minus, TokenKind::Decrement)
        } else if ch == '*' {
            self.scan_two('=', TokenKind::Star, TokenKind::Multiply)
        } else if ch == '/' {
            self.scan_two('=', TokenKind::Slash, TokenKind::Divide)
        } else if ch == '&' {
            self.scan_two('&', TokenKind::Ampersand, TokenKind::LogicalAnd)
        } else if ch == '|' {
            self.scan_two('|', TokenKind::Vert, TokenKind::LogicalOr)
        } else if ch == '%' {
            Some(Ok(make_token(self.scanner.pos_marker(), TokenKind::PerCent)))
        } else if ch == '#' {
            Some(Ok(make_token(self.scanner.pos_marker(), TokenKind::Hash)))
        } else if ch == '$' {
            Some(Ok(make_token(self.scanner.pos_marker(), TokenKind::Dollar)))
        } else if ch == '"' {
            Some(Ok(make_token(self.scanner.pos_marker(), TokenKind::DoubleQuote)))
        } else if ch == '\'' {
            self.scan_two('\'', TokenKind::SingleQuote, TokenKind::SingleQuote2)
        } else if ch == '?' {
            Some(Ok(make_token(self.scanner.pos_marker(), TokenKind::QuestionTag)))
        } else if ch == ',' {
            Some(Ok(make_token(self.scanner.pos_marker(), TokenKind::Comma)))
        } else if ch == '.' {
            let pos = self.scanner.pos_marker();
            let nx = self.scanner.peek();
            match nx {
                Some(c2) => {
                    if c2 == '.' {
                        self.scanner.next();
                        let nx2 = self.scanner.peek();
                        match nx2 {
                            Some(c3) => {
                                if c3 == '=' {
                                    self.scanner.next();
                                    Some(Ok(make_token(pos, TokenKind::RangeIncl)))
                                } else {
                                    Some(Ok(make_token(pos, TokenKind::Range)))
                                }
                            },
                            None => Some(Ok(make_token(pos, TokenKind::Range))),
                        }
                    } else {
                        Some(Ok(make_token(pos, TokenKind::Dot)))
                    }
                },
                None => Some(Ok(make_token(pos, TokenKind::Dot))),
            }
        } else if ch == '~' {
            Some(Ok(make_token(self.scanner.pos_marker(), TokenKind::Tilde)))
        } else if ch == '[' {
            self.scan_two('[', TokenKind::BracketLeft, TokenKind::DoubleBracketLeft)
        } else if ch == ']' {
            self.scan_two(']', TokenKind::BracketRight, TokenKind::DoubleBracketRight)
        } else if ch == '(' {
            Some(Ok(make_token(self.scanner.pos_marker(), TokenKind::ParensLeft)))
        } else if ch == ')' {
            Some(Ok(make_token(self.scanner.pos_marker(), TokenKind::ParensRight)))
        } else {
            let lex = self.scanner.str_from_marker();
            let pos = self.scanner.pos_marker();
            Some(Err(Error::UnknownToken(lex, pos)))
        }
    }

    /// Emits the one-character token `one`, or consumes one further
    /// character and emits `two` when the next character is `ext`.
    fn scan_two(&mut self, ext: char, one: TokenKind<'a>, two: TokenKind<'a>) -> (r: Option<
        Result<'a>,
    >)
        requires
            old(self).scanner.wf(),
            old(self).scanner.cursor() >= 1,
            old(self).scanner.marker_pos() == Some((old(self).scanner.cursor() - 1) as nat),
        ensures
            final(self).scanner.wf(),
            final(self).src() == old(self).src(),
            final(self).peeked == old(self).peeked,
            final(self).peek_from == old(self).peek_from,
            ({
                let (item, end) = two_char_token(
                    old(self).src(),
                    (old(self).scanner.cursor() - 1) as nat,
                    ext,
                    one@,
                    two@,
                );
                &&& r matches Some(x) && result_view(x) == item
                &&& final(self).scanner.cursor() == end
            }),
    {
        let pos = self.scanner.pos_marker();
        let nx = self.scanner.peek();
        match nx {
            Some(c2) => {
                if c2 == ext {
                    self.scanner.next();
                    Some(Ok(make_token(pos, two)))
                } else {
                    Some(Ok(make_token(pos, one)))
                }
            },
            None => Some(Ok(make_token(pos, one))),
        }
    }

    /// Scans the tail of an identifier whose first character the marker
    /// stands on.
    fn scan_identifier(&mut self) -> (r: Option<Result<'a>>)
        requires
            old(self).scanner.wf(),
            old(self).scanner.cursor() >= 1,
            old(self).scanner.marker_pos() == Some((old(self).scanner.cursor() - 1) as nat),
        ensures
            final(self).scanner.wf(),
            final(self).src() == old(self).src(),
            final(self).peeked == old(self).peeked,
            final(self).peek_from == old(self).peek_from,
            ({
                let t = old(self).src();
                let j = (old(self).scanner.cursor() - 1) as nat;
                let e = ident_run_end(t, j + 1);
                &&& r matches Some(x) && result_view(x) == Ok::<TokenModel, ErrorModel>(
                    TokenModel {
                        position: j,
                        kind: TokenKindModel::Identifier(t.subrange(j as int, e as int)),
                    },
                )
                &&& final(self).scanner.cursor() == e
            }),
    {
        let ghost t = self.scanner.src();
        let ghost j = (self.scanner.cursor() - 1) as nat;
        loop
            invariant
                t == old(self).src(),
                j == (old(self).scanner.cursor() - 1) as nat,
                self.scanner.wf(),
                self.scanner.src() == t,
                self.scanner.marker_pos() == Some(j),
                j + 1 <= self.scanner.cursor() <= t.len(),
                self.peeked == old(self).peeked,
                self.peek_from == old(self).peek_from,
                ident_run_end(t, j + 1) == ident_run_end(t, self.scanner.cursor()),
            ensures
                self.scanner.cursor() == ident_run_end(t, j + 1),
            decreases t.len() - self.scanner.cursor(),
        {
            match self.scanner.peek() {
                Some(c) => {
                    if ident_cont_char(c) {
                        self.scanner.next();
                    } else {
                        break;
                    }
                },
                None => {
                    break;
                },
            }
        }
        let pos = self.scanner.pos_marker();
        let lex = self.scanner.str_from_marker();
        Some(Ok(make_token(pos, TokenKind::Identifier(lex))))
    }

    /// Scans a decimal literal whose first digit `initial` the marker
    /// stands on; transfers to float scanning at a decimal point or an
    /// exponent marker.
    fn scan_dec(&mut self, initial: char) -> (r: Option<Result<'a>>)
        requires
            old(self).scanner.wf(),
            old(self).scanner.cursor() >= 1,
            old(self).scanner.marker_pos() == Some((old(self).scanner.cursor() - 1) as nat),
            initial == old(self).scanner.src()[old(self).scanner.cursor() - 1],
            is_dec_digit(initial),
        ensures
            final(self).scanner.wf(),
            final(self).src() == old(self).src(),
            final(self).peeked == old(self).peeked,
            final(self).peek_from == old(self).peek_from,
            ({
                let (item, end) = scan_number_dec(
                    old(self).src(),
                    (old(self).scanner.cursor() - 1) as nat,
                );
                &&& r matches Some(x) && result_view(x) == item
                &&& final(self).scanner.cursor() == end
            }),
    {
        let ghost t = self.scanner.src();
        let ghost j = (self.scanner.cursor() - 1) as nat;
        let mut val: u64 = digit_value(initial);
        let mut overflow: bool = false;
        proof {
            assert(t.subrange(j as int, (j + 1) as int) =~= seq![t[j as int]]);
            assert(t.subrange(j as int, (j + 1) as int).drop_last() =~= Seq::<char>::empty());
            assert(digits_val(Seq::<char>::empty(), 10) == 0);
            assert(digits_val(t.subrange(j as int, (j + 1) as int), 10) == digit_val(t[j as int]));
        }
        loop
            invariant
                t == old(self).src(),
                j == (old(self).scanner.cursor() - 1) as nat,
                self.scanner.wf(),
                self.scanner.src() == t,
                self.scanner.marker_pos() == Some(j),
                j + 1 <= self.scanner.cursor() <= t.len(),
                self.peeked == old(self).peeked,
                self.peek_from == old(self).peek_from,
                num_run_end(t, j + 1, 10) == num_run_end(t, self.scanner.cursor(), 10),
                overflow == (digits_val(t.subrange(j as int, self.scanner.cursor() as int), 10)
                    > u64::MAX),
                !overflow ==> val == digits_val(
                    t.subrange(j as int, self.scanner.cursor() as int),
                    10,
                ),
            ensures
                self.scanner.cursor() == num_run_end(t, j + 1, 10),
                self.scanner.cursor() == t.len() || (t[self.scanner.cursor() as int] != '.'
                    && t[self.scanner.cursor() as int] != 'e' && t[self.scanner.cursor() as int]
                    != 'E'),
            decreases t.len() - self.scanner.cursor(),
        {
            let ghost c = self.scanner.cursor();
            let ghost s0 = t.subrange(j as int, c as int);
            match self.scanner.peek() {
                None => {
                    break;
                },
                Some(ch) => {
                    if dec_digit_char(ch) {
                        proof {
                            assert(t.subrange(j as int, (c + 1) as int) =~= s0.push(t[c as int]));
                            assert(s0.push(t[c as int]).drop_last() =~= s0);
                            if overflow {
                                assert(digits_val(s0, 10) * 10 + digit_val(ch) > u64::MAX)
                                    by (nonlinear_arith)
                                    requires
                                        digits_val(s0, 10) > u64::MAX,
                                        digit_val(ch) >= 0,
                                ;
                            }
                        }
                        if !overflow {
                            let d = digit_value(ch);
                            match val.checked_mul(10) {
                                Some(m) => match m.checked_add(d) {
                                    Some(nv) => {
                                        val = nv;
                                    },
                                    None => {
                                        overflow = true;
                                    },
                                },
                                None => {
                                    overflow = true;
                                },
                            }
                        }
                        self.scanner.next();
                    } else if ch == '\'' {
                        proof {
                            assert(t.subrange(j as int, (c + 1) as int) =~= s0.push(t[c as int]));
                            assert(s0.push(t[c as int]).drop_last() =~= s0);
                        }
                        self.scanner.next();
                    } else if ch == '.' {
                        self.scanner.next();
                        return self.scan_float();
                    } else if ch == 'e' || ch == 'E' {
                        return self.scan_float();
                    } else {
                        break;
                    }
                },
            }
        }
        let pos = self.scanner.pos_marker();
        let lex = self.scanner.str_from_marker();
        let n1 = lex.unicode_len();
        let last = lex.get_char(n1 - 1);
        if last == '\'' {
            Some(Err(Error::IntegerSeparatorAtEnd(lex, pos)))
        } else if overflow {
            Some(Err(Error::IntegerExceedingLimit(lex, pos)))
        } else {
            Some(Ok(make_token(pos, TokenKind::Integer(lex, val))))
        }
    }

    /// Scans the remainder of a floating-point literal: decimal digits,
    /// at most one exponent marker with an optional sign. The lexeme
    /// runs from the marker; it becomes a float token when it satisfies
    /// the float grammar and a parsing error otherwise.
    fn scan_float(&mut self) -> (r: Option<Result<'a>>)
        requires
            old(self).scanner.wf(),
            old(self).scanner.marker_pos() is Some,
        ensures
            final(self).scanner.wf(),
            final(self).src() == old(self).src(),
            final(self).peeked == old(self).peeked,
            final(self).peek_from == old(self).peek_from,
            ({
                let j = old(self).scanner.marker_pos()->0;
                let e = float_run_end(old(self).src(), old(self).scanner.cursor(), false);
                let (item, end) = float_result(old(self).src(), j, e);
                &&& r matches Some(x) && result_view(x) == item
                &&& final(self).scanner.cursor() == e
            }),
    {
        let ghost t = self.scanner.src();
        let ghost j = self.scanner.marker_pos()->0;
        let ghost c0 = self.scanner.cursor();
        let mut in_exp: bool = false;
        loop
            invariant
                t == old(self).src(),
                j == old(self).scanner.marker_pos()->0,
                c0 == old(self).scanner.cursor(),
                self.scanner.wf(),
                self.scanner.src() == t,
                self.scanner.marker_pos() == Some(j),
                self.scanner.cursor() <= t.len(),
                self.peeked == old(self).peeked,
                self.peek_from == old(self).peek_from,
                float_run_end(t, c0, false) == float_run_end(t, self.scanner.cursor(), in_exp),
            ensures
                self.scanner.cursor() == float_run_end(t, c0, false),
            decreases t.len() - self.scanner.cursor(), (if in_exp { 0int } else { 1int }),
        {
            match self.scanner.peek() {
                None => {
                    break;
                },
                Some(ch) => {
                    if dec_digit_char(ch) {
                        self.scanner.next();
                    } else if (ch == 'e' || ch == 'E') && !in_exp {
                        in_exp = true;
                        self.scanner.next();
                        match self.scanner.peek() {
                            Some(c2) => {
                                if c2 == '+' || c2 == '-' {
                                    self.scanner.next();
                                }
                            },
                            None => {},
                        }
                    } else {
                        break;
                    }
                },
            }
        }
        let pos = self.scanner.pos_marker();
        let lex = self.scanner.str_from_marker();
        if float_lexeme_valid(lex) {
            Some(Ok(make_token(pos, TokenKind::Float(lex))))
        } else {
            Some(Err(Error::FloatParsingError(lex, pos)))
        }
    }

    /// Scans a hexadecimal literal: the marker stands on the `0` of the
    /// consumed `0`, and the `x` is about to be consumed.
    fn scan_hex_integer(&mut self) -> (r: Option<Result<'a>>)
        requires
            old(self).scanner.wf(),
            old(self).scanner.cursor() >= 1,
            old(self).scanner.cursor() < old(self).scanner.src().len(),
            old(self).scanner.marker_pos() == Some((old(self).scanner.cursor() - 1) as nat),
        ensures
            final(self).scanner.wf(),
            final(self).src() == old(self).src(),
            final(self).peeked == old(self).peeked,
            final(self).peek_from == old(self).peek_from,
            ({
                let (item, end) = scan_radix(
                    old(self).src(),
                    (old(self).scanner.cursor() - 1) as nat,
                    16,
                );
                &&& r matches Some(x) && result_view(x) == item
                &&& final(self).scanner.cursor() == end
            }),
    {
        self.scan_radix_integer(16)
    }

    /// Scans a binary literal: the marker stands on the `0` of the
    /// consumed `0`, and the `b` is about to be consumed.
    fn scan_bin_integer(&mut self) -> (r: Option<Result<'a>>)
        requires
            old(self).scanner.wf(),
            old(self).scanner.cursor() >= 1,
            old(self).scanner.cursor() < old(self).scanner.src().len(),
            old(self).scanner.marker_pos() == Some((old(self).scanner.cursor() - 1) as nat),
        ensures
            final(self).scanner.wf(),
            final(self).src() == old(self).src(),
            final(self).peeked == old(self).peeked,
            final(self).peek_from == old(self).peek_from,
            ({
                let (item, end) = scan_radix(
                    old(self).src(),
                    (old(self).scanner.cursor() - 1) as nat,
                    2,
                );
                &&& r matches Some(x) && result_view(x) == item
                &&& final(self).scanner.cursor() == end
            }),
    {
        self.scan_radix_integer(2)
    }

    /// Shared radix-literal scan: consumes the prefix letter, then
    /// accumulates digits of the radix, skipping separators, and
    /// classifies the result.
    fn scan_radix_integer(&mut self, base: u64) -> (r: Option<Result<'a>>)
        requires
            base == 2 || base == 16,
            old(self).scanner.wf(),
            old(self).scanner.cursor() >= 1,
            old(self).scanner.cursor() < old(self).scanner.src().len(),
            old(self).scanner.marker_pos() == Some((old(self).scanner.cursor() - 1) as nat),
        ensures
            final(self).scanner.wf(),
            final(self).src() == old(self).src(),
            final(self).peeked == old(self).peeked,
            final(self).peek_from == old(self).peek_from,
            ({
                let (item, end) = scan_radix(
                    old(self).src(),
                    (old(self).scanner.cursor() - 1) as nat,
                    base as nat,
                );
                &&& r matches Some(x) && result_view(x) == item
                &&& final(self).scanner.cursor() == end
            }),
    {
        let ghost t = self.scanner.src();
        let ghost j = (self.scanner.cursor() - 1) as nat;
        let ghost b = base as nat;
        self.scanner.next();  // the x/X or b/B of the prefix
        let limit: usize = if base == 16 {
            16
        } else {
            64
        };
        let mut val: u64 = 0;
        let mut ndig: usize = 0;
        proof {
            assert(t.subrange((j + 2) as int, (j + 2) as int) =~= Seq::<char>::empty());
        }
        loop
            invariant
                base == 2 || base == 16,
                b == base as nat,
                limit == (if base == 16 { 16int } else { 64int }),
                t == old(self).src(),
                j == (old(self).scanner.cursor() - 1) as nat,
                self.scanner.wf(),
                self.scanner.src() == t,
                self.scanner.marker_pos() == Some(j),
                j + 2 <= self.scanner.cursor() <= t.len(),
                self.peeked == old(self).peeked,
                self.peek_from == old(self).peek_from,
                num_run_end(t, j + 2, b) == num_run_end(t, self.scanner.cursor(), b),
                ndig == digit_count(t.subrange((j + 2) as int, self.scanner.cursor() as int), b),
                ndig <= limit ==> val == digits_val(
                    t.subrange((j + 2) as int, self.scanner.cursor() as int),
                    b,
                ),
            ensures
                self.scanner.cursor() == num_run_end(t, j + 2, b),
            decreases t.len() - self.scanner.cursor(),
        {
            let ghost c = self.scanner.cursor();
            let ghost s0 = t.subrange((j + 2) as int, c as int);
            match self.scanner.peek() {
                None => {
                    break;
                },
                Some(ch) => {
                    if radix_digit_char(ch, base) {
                        proof {
                            assert(t.subrange((j + 2) as int, (c + 1) as int) =~= s0.push(
                                t[c as int],
                            ));
                            assert(s0.push(t[c as int]).drop_last() =~= s0);
                            lemma_digit_count_le(s0, b);
                        }
                        if ndig < limit {
                            let d = digit_value(ch);
                            proof {
                                lemma_digits_val_bound(s0, b);
                                lemma_pow_b_mono(b, ndig as nat, (limit - 1) as nat);
                                lemma_digit_val_lt(ch, b);
                                lemma_pow_limits();
                                assert(val * base + digit_val(ch) < pow_b(b, (limit - 1) as nat)
                                    * base) by (nonlinear_arith)
                                    requires
                                        val < pow_b(b, (limit - 1) as nat),
                                        digit_val(ch) < b,
                                        b == base,
                                        base >= 2,
                                ;
                            }
                            val = val * base + d;
                        }
                        ndig = ndig + 1;
                        self.scanner.next();
                    } else if ch == '\'' {
                        proof {
                            assert(t.subrange((j + 2) as int, (c + 1) as int) =~= s0.push(
                                t[c as int],
                            ));
                            assert(s0.push(t[c as int]).drop_last() =~= s0);
                        }
                        self.scanner.next();
                    } else {
                        break;
                    }
                },
            }
        }
        let pos = self.scanner.pos_marker();
        let lex = self.scanner.str_from_marker();
        if ndig == 0 {
            Some(Err(Error::IntegerNoValue(lex, pos)))
        } else if ndig > limit {
            Some(Err(Error::IntegerExceedingLimit(lex, pos)))
        } else {
            let n1 = lex.unicode_len();
            let last = lex.get_char(n1 - 1);
            proof {
                lemma_digits_val_bound(
                    t.subrange((j + 2) as int, self.scanner.cursor() as int),
                    b,
                );
                lemma_pow_b_mono(b, ndig as nat, (if base == 16 { 16nat } else { 64nat }));
                lemma_pow_limits();
            }
            if last == '\'' {
                Some(Err(Error::IntegerSeparatorAtEnd(lex, pos)))
            } else {
                Some(Ok(make_token(pos, TokenKind::Integer(lex, val))))
            }
        }
    }
}

} // verus!
