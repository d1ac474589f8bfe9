//! Parsing helpers over the token stream: expected-token primitives and
//! the small grammar rules built on them.
//!
//! The parser consumes the tokenizer strictly through `peek` and `next`;
//! a lexical error is wrapped as a cause inside this module's own error
//! taxonomy. Contracts are stated against spec-level step functions
//! (`expect_ident_result`, `fqn_spec`) defined over the scanning model.

pub mod ast;

use vstd::prelude::*;
use vstd::string::{StrSliceExecFns, StringExecFns};

use crate::lexer::{next_item_pos, Lexer, LexerError};
use crate::parser::ast::FileLocation;
use crate::scanning::{lemma_scan_step, scan_token_spec, spec_peek};
use crate::token::{
    kind_display_spec, kind_len_spec, Token, TokenKind, TokenKindModel, TokenModel,
};

verus! {

/// A parse error: a wrapped lexical error, or an expectation that the
/// next token did not meet, carrying its position, display length and a
/// description.
#[derive(Debug, Clone)]
pub enum Error<'a> {
    Lexer(LexerError<'a>),
    UnexpectedEndOfFile,
    ExpectedIdentifier(usize, usize, String),
    ExpectedKeyword(usize, usize, String),
    ExpectedToken(usize, String),
}

/// Spec-level model of a parse error.
pub enum ErrorModel {
    Lexer(crate::token::ErrorModel),
    UnexpectedEndOfFile,
    ExpectedIdentifier(nat, nat, Seq<char>),
    ExpectedKeyword(nat, nat, Seq<char>),
    ExpectedToken(nat, Seq<char>),
}

impl<'a> View for Error<'a> {
    type V = ErrorModel;

    open spec fn view(&self) -> ErrorModel {
        match self {
            Error::Lexer(e) => ErrorModel::Lexer(e@),
            Error::UnexpectedEndOfFile => ErrorModel::UnexpectedEndOfFile,
            Error::ExpectedIdentifier(p, l, d) => ErrorModel::ExpectedIdentifier(
                *p as nat,
                *l as nat,
                d@,
            ),
            Error::ExpectedKeyword(p, l, d) => ErrorModel::ExpectedKeyword(
                *p as nat,
                *l as nat,
                d@,
            ),
            Error::ExpectedToken(p, d) => ErrorModel::ExpectedToken(*p as nat, d@),
        }
    }
}

impl<'a> From<LexerError<'a>> for Error<'a> {
    /// Wraps a lexical error.
    fn from(value: LexerError<'a>) -> (r: Self) {
        Error::Lexer(value)
    }
}

impl<'a> vstd::std_specs::convert::FromSpecImpl<LexerError<'a>> for Error<'a> {
    open spec fn obeys_from_spec() -> bool {
        true
    }

    open spec fn from_spec(t: LexerError<'a>) -> Self {
        Error::Lexer(t)
    }
}

pub type Result<'a, T> = core::result::Result<T, Error<'a>>;

/// What `expect_identifier` yields at position `from`: the identifier's
/// lexeme, position and token, or the parse error.
pub open spec fn expect_ident_result(t: Seq<char>, from: nat) -> core::result::Result<
    (Seq<char>, nat, TokenModel),
    ErrorModel,
> {
    match spec_peek(t, from) {
        None => Err(ErrorModel::UnexpectedEndOfFile),
        Some(item) => match item {
            Err(e) => Err(ErrorModel::Lexer(e)),
            Ok(tm) => match tm.kind {
                TokenKindModel::Identifier(s) => Ok((s, tm.position, tm)),
                k => Err(
                    ErrorModel::ExpectedIdentifier(
                        tm.position,
                        kind_len_spec(k),
                        kind_display_spec(k),
                    ),
                ),
            },
        },
    }
}

/// The stream position after `expect_identifier` at `from`: identifiers
/// and lexical errors are consumed, anything else is left pending.
pub open spec fn expect_ident_next(t: Seq<char>, from: nat) -> nat {
    match spec_peek(t, from) {
        None => from,
        Some(item) => match item {
            Err(_) => scan_end(t, from),
            Ok(tm) => if tm.kind is Identifier {
                scan_end(t, from)
            } else {
                from
            },
        },
    }
}

/// The position right after the item scanned at `from`, or the text
/// length when only whitespace remains.
pub open spec fn scan_end(t: Seq<char>, from: nat) -> nat {
    match scan_token_spec(t, from) {
        None => t.len(),
        Some((_, e)) => e,
    }
}

/// The description carried by an `ExpectedKeyword` error when another
/// token stood where the keyword was expected.
pub open spec fn keyword_token_msg(kw: Seq<char>, d: Seq<char>) -> Seq<char> {
    "Expected keyword '"@ + kw + "' but got token '"@ + d + "' instead "@
}

/// The description carried by an `ExpectedKeyword` error when another
/// identifier stood where the keyword was expected.
pub open spec fn keyword_ident_msg(kw: Seq<char>, d: Seq<char>) -> Seq<char> {
    "Expected keyword '"@ + kw + "' but got identifier '"@ + d + "' instead "@
}

/// What `expect_keyword` yields at position `from` for keyword `kw`:
/// the keyword's position, or the parse error.
pub open spec fn expect_keyword_result(t: Seq<char>, from: nat, kw: Seq<char>) -> core::result::Result<
    nat,
    ErrorModel,
> {
    match expect_ident_result(t, from) {
        Ok((s, p, tm)) => if s == kw {
            Ok(p)
        } else {
            Err(
                ErrorModel::ExpectedKeyword(
                    p,
                    kind_len_spec(tm.kind),
                    keyword_ident_msg(kw, kind_display_spec(tm.kind)),
                ),
            )
        },
        Err(e) => match e {
            ErrorModel::ExpectedIdentifier(p, l, d) => Err(
                ErrorModel::ExpectedKeyword(p, l, keyword_token_msg(kw, d)),
            ),
            _ => Err(e),
        },
    }
}

/// Spec-level result of parsing an FQN: the components (lexeme and
/// position each), the wildcard flag, the end of the consumed span, and
/// the stream position afterwards.
pub struct FqnModel {
    pub components: Seq<(Seq<char>, nat)>,
    pub is_wildcard: bool,
    pub end: nat,
    pub next: nat,
}

/// Whether the next token at `from` is a dot.
pub open spec fn next_is_dot(t: Seq<char>, from: nat) -> bool {
    spec_peek(t, from) matches Some(Ok(tm)) && tm.kind is Dot
}

/// Whether the next token at `from` is a star.
pub open spec fn next_is_star(t: Seq<char>, from: nat) -> bool {
    spec_peek(t, from) matches Some(Ok(tm)) && tm.kind is Star
}

/// What `parse_fqn` yields at position `from`:
/// `Identifier ('.' Identifier)* ('.' '*')?`, or the first failing
/// identifier expectation, with the stream position after the failure.
pub open spec fn fqn_spec(t: Seq<char>, from: nat) -> core::result::Result<
    FqnModel,
    (ErrorModel, nat),
>
    decreases t.len() - from,
    when from <= t.len()
{
    match expect_ident_result(t, from) {
        Err(e) => Err((e, expect_ident_next(t, from))),
        Ok((s, p, tm)) => {
            let e1 = expect_ident_next(t, from);
            if next_is_dot(t, e1) {
                let e2 = scan_end(t, e1);
                if next_is_star(t, e2) {
                    Ok(
                        FqnModel {
                            components: seq![(s, p)],
                            is_wildcard: true,
                            end: next_item_pos(t, e2) + 1,
                            next: scan_end(t, e2),
                        },
                    )
                } else if from < e2 <= t.len() {
                    // The guard always holds: a scanned token ends past
                    // its start; it keeps the recursion well-founded.
                    match fqn_spec(t, e2) {
                        Ok(f) => Ok(
                            FqnModel {
                                components: seq![(s, p)] + f.components,
                                is_wildcard: f.is_wildcard,
                                end: f.end,
                                next: f.next,
                            },
                        ),
                        Err(x) => Err(x),
                    }
                } else {
                    Err((ErrorModel::UnexpectedEndOfFile, e2))
                }
            } else {
                Ok(
                    FqnModel {
                        components: seq![(s, p)],
                        is_wildcard: false,
                        end: p + s.len(),
                        next: e1,
                    },
                )
            }
        },
    }
}

/// Appending one component and then a tail is appending the combined
/// tail.
proof fn lemma_components_assoc(
    a: Seq<(Seq<char>, nat)>,
    x: (Seq<char>, nat),
    b: Seq<(Seq<char>, nat)>,
)
    ensures
        (a + seq![x]) + b == a + (seq![x] + b),
{
    assert((a + seq![x]) + b =~= a + (seq![x] + b));
}

/// Unfolds `fqn_spec` one step along the continue path: an identifier,
/// a dot, and no star hand the rest of the name to the recursive call.
proof fn lemma_fqn_unfold_continue(t: Seq<char>, from: nat, s: Seq<char>, p: nat, tm: TokenModel)
    requires
        from <= t.len(),
        expect_ident_result(t, from) == Ok::<(Seq<char>, nat, TokenModel), ErrorModel>(
            (s, p, tm),
        ),
        next_is_dot(t, expect_ident_next(t, from)),
        !next_is_star(t, scan_end(t, expect_ident_next(t, from))),
        from < scan_end(t, expect_ident_next(t, from)) <= t.len(),
    ensures
        ({
            let e2 = scan_end(t, expect_ident_next(t, from));
            fqn_spec(t, from) == match fqn_spec(t, e2) {
                Ok(f) => Ok::<FqnModel, (ErrorModel, nat)>(
                    FqnModel {
                        components: seq![(s, p)] + f.components,
                        is_wildcard: f.is_wildcard,
                        end: f.end,
                        next: f.next,
                    },
                ),
                Err(x) => Err::<FqnModel, (ErrorModel, nat)>(x),
            }
        }),
{
}

/// Bounds of one scan step, phrased over the compact step functions.
proof fn lemma_step_bounds(t: Seq<char>, from: nat)
    requires
        from <= t.len(),
    ensures
        from <= next_item_pos(t, from) <= t.len(),
        scan_end(t, from) <= t.len(),
        spec_peek(t, from) is Some ==> from <= next_item_pos(t, from) < scan_end(t, from),
        spec_peek(t, from) matches Some(Ok(tm)) ==> scan_end(t, from) == next_item_pos(t, from)
            + kind_len_spec(tm.kind),
        spec_peek(t, from) is None ==> scan_end(t, from) == t.len() && next_item_pos(t, from)
            == t.len(),
{
    lemma_scan_step(t, from);
}

/// Unfolds `fqn_spec` when the identifier expectation fails.
proof fn lemma_fqn_unfold_err(t: Seq<char>, from: nat)
    requires
        from <= t.len(),
        expect_ident_result(t, from) is Err,
    ensures
        fqn_spec(t, from) == Err::<FqnModel, (ErrorModel, nat)>(
            (expect_ident_result(t, from)->Err_0, expect_ident_next(t, from)),
        ),
{
}

/// Unfolds `fqn_spec` when the identifier is the last component: no dot
/// follows.
proof fn lemma_fqn_unfold_last(t: Seq<char>, from: nat, s: Seq<char>, p: nat, tm: TokenModel)
    requires
        from <= t.len(),
        expect_ident_result(t, from) == Ok::<(Seq<char>, nat, TokenModel), ErrorModel>(
            (s, p, tm),
        ),
        !next_is_dot(t, expect_ident_next(t, from)),
    ensures
        fqn_spec(t, from) == Ok::<FqnModel, (ErrorModel, nat)>(
            FqnModel {
                components: seq![(s, p)],
                is_wildcard: false,
                end: p + s.len(),
                next: expect_ident_next(t, from),
            },
        ),
{
}

/// Unfolds `fqn_spec` along the wildcard exit: a dot and a star close
/// the name.
proof fn lemma_fqn_unfold_star(t: Seq<char>, from: nat, s: Seq<char>, p: nat, tm: TokenModel)
    requires
        from <= t.len(),
        expect_ident_result(t, from) == Ok::<(Seq<char>, nat, TokenModel), ErrorModel>(
            (s, p, tm),
        ),
        next_is_dot(t, expect_ident_next(t, from)),
        next_is_star(t, scan_end(t, expect_ident_next(t, from))),
    ensures
        ({
            let e2 = scan_end(t, expect_ident_next(t, from));
            fqn_spec(t, from) == Ok::<FqnModel, (ErrorModel, nat)>(
                FqnModel {
                    components: seq![(s, p)],
                    is_wildcard: true,
                    end: next_item_pos(t, e2) + 1,
                    next: scan_end(t, e2),
                },
            )
        }),
{
}

/// The spec view of an FQN component list.
pub open spec fn components_view(s: Seq<(&str, usize)>) -> Seq<(Seq<char>, nat)> {
    s.map_values(|c: (&str, usize)| (c.0@, c.1 as nat))
}

/// Parser for the modeling language: drives the lexer and keeps no
/// state of its own.
pub struct Parser<'a> {
    lexer: Lexer<'a>,
}

impl<'a> Parser<'a> {
    /// The parsed text.
    pub closed spec fn src(self) -> Seq<char> {
        self.lexer.src()
    }

    /// The position of the first character not yet consumed.
    pub closed spec fn cur(self) -> nat {
        self.lexer.cur()
    }

    /// Well-formedness of the underlying lexer.
    pub closed spec fn wf(self) -> bool {
        self.lexer.wf()
    }

    /// Constructs a new parser over the given text.
    pub fn new_from_str(text: &'a str) -> (p: Self)
        ensures
            p.wf(),
            p.src() == text@,
            p.cur() == 0,
    {
        Parser { lexer: Lexer::new_from_str(text) }
    }

    /// Takes the next token, which must be an identifier, and returns
    /// its lexeme, position and token. A pending non-identifier token is
    /// not consumed; a lexical error is consumed and wrapped.
    pub fn expect_identifier(&mut self) -> (r: Result<'a, (&'a str, usize, Token<'a>)>)
        requires
            old(self).wf(),
        ensures
            final(self).wf(),
            final(self).src() == old(self).src(),
            final(self).cur() == expect_ident_next(old(self).src(), old(self).cur()),
            match expect_ident_result(old(self).src(), old(self).cur()) {
                Ok((s, p, tm)) => r matches Ok(x) && x.0@ == s && x.1 == p && x.2@ == tm,
                Err(e) => r matches Err(x) && x@ == e,
            },
    {
        let pk = self.lexer.peek();
        match pk {
            None => Err(Error::UnexpectedEndOfFile),
            Some(Err(err)) => {
                self.lexer.next();
                Err(Error::from(err))
            },
            Some(Ok(tk)) => match tk.kind {
                TokenKind::Identifier(id) => {
                    self.lexer.next();
                    Ok((id, tk.position, tk))
                },
                _ => Err(
                    Error::ExpectedIdentifier(
                        tk.position,
                        tk.kind.len(),
                        tk.kind.display_string(),
                    ),
                ),
            },
        }
    }

    /// Takes the next token, which must be the identifier `keyword`,
    /// and returns its position. Consumption follows
    /// `expect_identifier`: any identifier is consumed, right or wrong.
    pub fn expect_keyword(&mut self, keyword: &str) -> (r: Result<'a, usize>)
        requires
            old(self).wf(),
        ensures
            final(self).wf(),
            final(self).src() == old(self).src(),
            final(self).cur() == expect_ident_next(old(self).src(), old(self).cur()),
            match expect_keyword_result(old(self).src(), old(self).cur(), keyword@) {
                Ok(p) => r matches Ok(x) && x == p,
                Err(e) => r matches Err(x) && x@ == e,
            },
    {
        match self.expect_identifier() {
            Err(err) => match err {
                Error::UnexpectedEndOfFile => Err(err),
                Error::Lexer(_) => Err(err),
                Error::ExpectedIdentifier(pos, len, s) => Err(
                    Error::ExpectedKeyword(
                        pos,
                        len,
                        String::from_str("Expected keyword '").concat(keyword).concat(
                            "' but got token '",
                        ).concat(s.as_str()).concat("' instead "),
                    ),
                ),
                _ => Err(err),
            },
            Ok((id, pos, token)) => {
                if String::from_str(id) == String::from_str(keyword) {
                    Ok(pos)
                } else {
                    Err(
                        Error::ExpectedKeyword(
                            pos,
                            token.kind.len(),
                            String::from_str("Expected keyword '").concat(keyword).concat(
                                "' but got identifier '",
                            ).concat(token.kind.display_string().as_str()).concat("' instead "),
                        ),
                    )
                }
            },
        }
    }

    /// Parses the `package` keyword that opens a model file.
    pub fn parse_package(&mut self) -> (r: Result<'a, ()>)
        requires
            old(self).wf(),
        ensures
            final(self).wf(),
            final(self).src() == old(self).src(),
            final(self).cur() == expect_ident_next(old(self).src(), old(self).cur()),
            match expect_keyword_result(old(self).src(), old(self).cur(), "package"@) {
                Ok(_) => r is Ok,
                Err(e) => r matches Err(x) && x@ == e,
            },
    {
        match self.expect_keyword("package") {
            Ok(_) => Ok(()),
            Err(e) => Err(e),
        }
    }

    /// Consumes the next token when it is a dot, returning its
    /// position; leaves anything else pending.
    fn opt_dot(&mut self) -> (r: Option<usize>)
        requires
            old(self).wf(),
        ensures
            final(self).wf(),
            final(self).src() == old(self).src(),
            if next_is_dot(old(self).src(), old(self).cur()) {
                &&& r matches Some(p) && p == next_item_pos(old(self).src(), old(self).cur())
                &&& final(self).cur() == scan_end(old(self).src(), old(self).cur())
            } else {
                &&& r is None
                &&& final(self).cur() == old(self).cur()
            },
    {
        let pk = self.lexer.peek();
        match pk {
            Some(Ok(tk)) => match tk.kind {
                TokenKind::Dot => {
                    self.lexer.next();
                    Some(tk.position)
                },
                _ => None,
            },
            _ => None,
        }
    }

    /// Consumes the next token when it is a star, returning its
    /// position; leaves anything else pending.
    fn opt_star(&mut self) -> (r: Option<usize>)
        requires
            old(self).wf(),
        ensures
            final(self).wf(),
            final(self).src() == old(self).src(),
            if next_is_star(old(self).src(), old(self).cur()) {
                &&& r matches Some(p) && p == next_item_pos(old(self).src(), old(self).cur())
                &&& final(self).cur() == scan_end(old(self).src(), old(self).cur())
            } else {
                &&& r is None
                &&& final(self).cur() == old(self).cur()
            },
    {
        let pk = self.lexer.peek();
        match pk {
            Some(Ok(tk)) => match tk.kind {
                TokenKind::Star => {
                    self.lexer.next();
                    Some(tk.position)
                },
                _ => None,
            },
            _ => None,
        }
    }

    /// Parses a fully qualified name:
    /// `Identifier ('.' Identifier)* ('.' '*')?`. On success the
    /// returned FQN carries each component with its position, the
    /// wildcard flag, and the exact source span.
    #[verifier::rlimit(100)]
    pub fn parse_fqn(&mut self) -> (r: Result<'a, ast::FQN<'a>>)
        requires
            old(self).wf(),
        ensures
            final(self).wf(),
            final(self).src() == old(self).src(),
            match fqn_spec(old(self).src(), old(self).cur()) {
                Ok(f) => {
                    &&& r matches Ok(q)
                    &&& components_view(q.components@) == f.components
                    &&& q.is_wildcard == f.is_wildcard
                    &&& q.location.start == next_item_pos(old(self).src(), old(self).cur())
                    &&& q.location.start + q.location.len == f.end
                    &&& final(self).cur() == f.next
                },
                Err((e, nx)) => {
                    &&& r matches Err(x) && x@ == e
                    &&& final(self).cur() == nx
                },
            },
    {
        let ghost t = self.lexer.src();
        let ghost from0 = self.lexer.cur();
        let mut components: Vec<(&'a str, usize)> = Vec::new();
        let mut is_wildcard: bool = false;
        let start = self.lexer.curr_pos();
        let mut end: usize = start;
        proof {
            lemma_step_bounds(t, from0);
            assert(components_view(components@) =~= Seq::<(Seq<char>, nat)>::empty());
        }
        loop
            invariant_except_break
                is_wildcard == false,
                components@.len() == 0 ==> self.lexer.cur() == from0 && end == start,
                components@.len() > 0 ==> start <= end <= self.lexer.cur(),
                match fqn_spec(t, self.lexer.cur()) {
                    Ok(f) => fqn_spec(t, from0) == Ok::<FqnModel, (ErrorModel, nat)>(
                        FqnModel {
                            components: components_view(components@) + f.components,
                            is_wildcard: f.is_wildcard,
                            end: f.end,
                            next: f.next,
                        },
                    ),
                    Err(x) => fqn_spec(t, from0) == Err::<FqnModel, (ErrorModel, nat)>(x),
                },
            invariant
                t == old(self).src(),
                from0 == old(self).cur(),
                from0 <= t.len(),
                self.lexer.wf(),
                self.lexer.src() == t,
                self.lexer.cur() <= t.len(),
                start == next_item_pos(t, from0),
                start <= t.len(),
            ensures
                self.lexer.wf(),
                self.lexer.src() == t,
                self.lexer.cur() <= t.len(),
                start <= end,
                fqn_spec(t, from0) == Ok::<FqnModel, (ErrorModel, nat)>(
                    FqnModel {
                        components: components_view(components@),
                        is_wildcard: is_wildcard,
                        end: end as nat,
                        next: self.lexer.cur(),
                    },
                ),
            decreases t.len() - self.lexer.cur(),
        {
            let ghost cur0 = self.lexer.cur();
            let ghost comps0 = components@;
            match self.expect_identifier() {
                Err(e) => {
                    proof {
                        lemma_fqn_unfold_err(t, cur0);
                    }
                    return Err(e);
                },
                Ok((id, pos, tok)) => {
                    proof {
                        lemma_step_bounds(t, cur0);
                    }
                    let l = id.unicode_len();
                    end = pos + l;
                    components.push((id, pos));
                    let ghost comp = (id@, pos as nat);
                    let ghost cur1 = self.lexer.cur();
                    proof {
                        assert(components_view(components@) =~= components_view(comps0)
                            + seq![comp]);
                        assert(expect_ident_result(t, cur0) == Ok::<
                            (Seq<char>, nat, TokenModel),
                            ErrorModel,
                        >((id@, pos as nat, tok@)));
                        assert(cur1 == expect_ident_next(t, cur0));
                    }
                    match self.opt_dot() {
                        None => {
                            proof {
                                lemma_fqn_unfold_last(t, cur0, id@, pos as nat, tok@);
                            }
                            break;
                        },
                        Some(_) => {
                            let ghost cur2 = self.lexer.cur();
                            proof {
                                lemma_step_bounds(t, cur1);
                                assert(cur2 == scan_end(t, cur1));
                            }
                            match self.opt_star() {
                                Some(sp) => {
                                    proof {
                                        lemma_step_bounds(t, cur2);
                                        lemma_fqn_unfold_star(t, cur0, id@, pos as nat, tok@);
                                    }
                                    is_wildcard = true;
                                    end = sp + 1;
                                    break;
                                },
                                None => {
                                    proof {
                                        lemma_step_bounds(t, cur2);
                                        assert(cur0 < cur2 <= t.len());
                                        lemma_fqn_unfold_continue(t, cur0, id@, pos as nat, tok@);
                                        match fqn_spec(t, cur2) {
                                            Ok(f2) => lemma_components_assoc(
                                                components_view(comps0),
                                                comp,
                                                f2.components,
                                            ),
                                            Err(_) => {},
                                        }
                                    }
                                },
                            }
                        },
                    }
                },
            }
        }
        let len_loc = end - start;
        Ok(ast::FQN { location: FileLocation::make(start, len_loc), components, is_wildcard })
    }
}

} // verus!
