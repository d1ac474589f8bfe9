//! Token and error data model.
//!
//! Exec tokens borrow their lexeme as a slice of the scanned source text.
//! Each exec type has a spec-level model (`TokenModel`, `TokenKindModel`,
//! `ErrorModel`) in which lexemes are character sequences; the models are
//! what the lexer's contracts and the scanning model speak about.

use vstd::prelude::*;
use vstd::string::{StrSliceExecFns, StringExecFns};

verus! {

/// Spec-level model of a token kind: lexemes are character sequences.
pub enum TokenKindModel {
    Identifier(Seq<char>),
    Integer(Seq<char>, u64),
    Float(Seq<char>),
    BracesLeft,
    BracesRight,
    Equals,
    Assign,
    Colon,
    ExclMark,
    NotEqual,
    Greater,
    GreaterThan,
    Less,
    LessThan,
    Plus,
    Increment,
    Minus,
    Decrement,
    Star,
    Multiply,
    Slash,
    Divide,
    Ampersand,
    LogicalAnd,
    Vert,
    LogicalOr,
    PerCent,
    Hash,
    Dollar,
    DoubleQuote,
    SingleQuote,
    SingleQuote2,
    QuestionTag,
    Comma,
    Dot,
    Range,
    RangeIncl,
    Tilde,
    BracketLeft,
    DoubleBracketLeft,
    BracketRight,
    DoubleBracketRight,
    ParensLeft,
    ParensRight,
}

/// Spec-level model of a token: start position and kind.
pub struct TokenModel {
    pub position: nat,
    pub kind: TokenKindModel,
}

/// Spec-level model of a lexical error: offending lexeme and start position.
pub enum ErrorModel {
    IntegerNoValue(Seq<char>, nat),
    IntegerSeparatorAtEnd(Seq<char>, nat),
    IntegerExceedingLimit(Seq<char>, nat),
    FloatParsingError(Seq<char>, nat),
    UnknownToken(Seq<char>, nat),
}

/// A lexical error: the offending lexeme text and its start position.
#[derive(Clone, Copy, Debug, PartialEq, Eq)]
pub enum Error<'a> {
    /// A radix prefix (`0x`/`0b`) was scanned but no digits followed.
    IntegerNoValue(&'a str, usize),
    /// The digit separator was the last character of the literal.
    IntegerSeparatorAtEnd(&'a str, usize),
    /// The literal's magnitude exceeds the integer width for its radix.
    IntegerExceedingLimit(&'a str, usize),
    /// A numeric literal took floating-point form but the assembled
    /// lexeme is not a well-formed floating-point literal.
    FloatParsingError(&'a str, usize),
    /// The character does not start any recognized token.
    UnknownToken(&'a str, usize),
}

pub type Result<'a> = core::result::Result<Token<'a>, Error<'a>>;

/// A classified token: its start position (in Unicode scalar values from
/// the start of the input) and its kind.
#[derive(Clone, Copy, Debug, PartialEq, Eq)]
pub struct Token<'a> {
    pub position: usize,
    pub kind: TokenKind<'a>,
}

/// The kind of a token. Identifiers and literals carry their lexeme as a
/// slice of the source text.
#[derive(Clone, Copy, Debug, PartialEq, Eq)]
pub enum TokenKind<'a> {
    Identifier(&'a str),
    Integer(&'a str, u64),
    /// A floating-point literal. The numeric value is deliberately not
    /// carried here: the lexeme satisfies the float grammar checked by
    /// the lexer (see [`crate::scanning::valid_float`]), which is what
    /// `str::parse::<f64>` documents it accepts, so a caller that wants
    /// the value parses the lexeme.
    Float(&'a str),
    BracesLeft,
    BracesRight,
    Equals,
    Assign,
    Colon,
    ExclMark,
    NotEqual,
    Greater,
    GreaterThan,
    Less,
    LessThan,
    Plus,
    Increment,
    Minus,
    Decrement,
    Star,
    Multiply,
    Slash,
    Divide,
    Ampersand,
    LogicalAnd,
    Vert,
    LogicalOr,
    PerCent,
    Hash,
    Dollar,
    DoubleQuote,
    SingleQuote,
    SingleQuote2,
    QuestionTag,
    Comma,
    Dot,
    Range,
    RangeIncl,
    Tilde,
    BracketLeft,
    DoubleBracketLeft,
    BracketRight,
    DoubleBracketRight,
    ParensLeft,
    ParensRight,
}

impl<'a> View for TokenKind<'a> {
    type V = TokenKindModel;

    open spec fn view(&self) -> TokenKindModel {
        match self {
            TokenKind::Identifier(s) => TokenKindModel::Identifier(s@),
            TokenKind::Integer(s, v) => TokenKindModel::Integer(s@, *v),
            TokenKind::Float(s) => TokenKindModel::Float(s@),
            TokenKind::BracesLeft => TokenKindModel::BracesLeft,
            TokenKind::BracesRight => TokenKindModel::BracesRight,
            TokenKind::Equals => TokenKindModel::Equals,
            TokenKind::Assign => TokenKindModel::Assign,
            TokenKind::Colon => TokenKindModel::Colon,
            TokenKind::ExclMark => TokenKindModel::ExclMark,
            TokenKind::NotEqual => TokenKindModel::NotEqual,
            TokenKind::Greater => TokenKindModel::Greater,
            TokenKind::GreaterThan => TokenKindModel::GreaterThan,
            TokenKind::Less => TokenKindModel::Less,
            TokenKind::LessThan => TokenKindModel::LessThan,
            TokenKind::Plus => TokenKindModel::Plus,
            TokenKind::Increment => TokenKindModel::Increment,
            TokenKind::Minus => TokenKindModel::Minus,
            TokenKind::Decrement => TokenKindModel::Decrement,
            TokenKind::Star => TokenKindModel::Star,
            TokenKind::Multiply => TokenKindModel::Multiply,
            TokenKind::Slash => TokenKindModel::Slash,
            TokenKind::Divide => TokenKindModel::Divide,
            TokenKind::Ampersand => TokenKindModel::Ampersand,
            TokenKind::LogicalAnd => TokenKindModel::LogicalAnd,
            TokenKind::Vert => TokenKindModel::Vert,
            TokenKind::LogicalOr => TokenKindModel::LogicalOr,
            TokenKind::PerCent => TokenKindModel::PerCent,
            TokenKind::Hash => TokenKindModel::Hash,
            TokenKind::Dollar => TokenKindModel::Dollar,
            TokenKind::DoubleQuote => TokenKindModel::DoubleQuote,
            TokenKind::SingleQuote => TokenKindModel::SingleQuote,
            TokenKind::SingleQuote2 => TokenKindModel::SingleQuote2,
            TokenKind::QuestionTag => TokenKindModel::QuestionTag,
            TokenKind::Comma => TokenKindModel::Comma,
            TokenKind::Dot => TokenKindModel::Dot,
            TokenKind::Range => TokenKindModel::Range,
            TokenKind::RangeIncl => TokenKindModel::RangeIncl,
            TokenKind::Tilde => TokenKindModel::Tilde,
            TokenKind::BracketLeft => TokenKindModel::BracketLeft,
            TokenKind::DoubleBracketLeft => TokenKindModel::DoubleBracketLeft,
            TokenKind::BracketRight => TokenKindModel::BracketRight,
            TokenKind::DoubleBracketRight => TokenKindModel::DoubleBracketRight,
            TokenKind::ParensLeft => TokenKindModel::ParensLeft,
            TokenKind::ParensRight => TokenKindModel::ParensRight,
        }
    }
}

impl<'a> View for Token<'a> {
    type V = TokenModel;

    open spec fn view(&self) -> TokenModel {
        TokenModel { position: self.position as nat, kind: self.kind@ }
    }
}

impl<'a> View for Error<'a> {
    type V = ErrorModel;

    open spec fn view(&self) -> ErrorModel {
        match self {
            Error::IntegerNoValue(s, p) => ErrorModel::IntegerNoValue(s@, *p as nat),
            Error::IntegerSeparatorAtEnd(s, p) => ErrorModel::IntegerSeparatorAtEnd(
                s@,
                *p as nat,
            ),
            Error::IntegerExceedingLimit(s, p) => ErrorModel::IntegerExceedingLimit(
                s@,
                *p as nat,
            ),
            Error::FloatParsingError(s, p) => ErrorModel::FloatParsingError(s@, *p as nat),
            Error::UnknownToken(s, p) => ErrorModel::UnknownToken(s@, *p as nat),
        }
    }
}

/// The model of a token-or-error result.
pub open spec fn result_view(r: Result<'_>) -> core::result::Result<TokenModel, ErrorModel> {
    match r {
        Ok(t) => Ok(t@),
        Err(e) => Err(e@),
    }
}

/// Builds a token from a start position and a kind.
pub fn make_token<'a>(position: usize, kind: TokenKind<'a>) -> (t: Token<'a>)
    ensures
        t.position == position,
        t.kind == kind,
{
    Token { position, kind }
}

/// Display length of a token kind model: the number of source characters
/// the token consumed.
pub open spec fn kind_len_spec(k: TokenKindModel) -> nat {
    match k {
        TokenKindModel::Identifier(s) => s.len(),
        TokenKindModel::Integer(s, _) => s.len(),
        TokenKindModel::Float(s) => s.len(),
        TokenKindModel::Equals => 2,
        TokenKindModel::NotEqual => 2,
        TokenKindModel::GreaterThan => 2,
        TokenKindModel::LessThan => 2,
        TokenKindModel::Increment => 2,
        TokenKindModel::Decrement => 2,
        TokenKindModel::Multiply => 2,
        TokenKindModel::Divide => 2,
        TokenKindModel::LogicalAnd => 2,
        TokenKindModel::LogicalOr => 2,
        TokenKindModel::SingleQuote2 => 2,
        TokenKindModel::Range => 2,
        TokenKindModel::RangeIncl => 3,
        TokenKindModel::DoubleBracketLeft => 2,
        TokenKindModel::DoubleBracketRight => 2,
        _ => 1,
    }
}

/// The display text of a token kind model: the operator in quotes, or
/// the class name with the lexeme in quotes.
pub open spec fn kind_display_spec(k: TokenKindModel) -> Seq<char> {
    match k {
        TokenKindModel::Identifier(s) => "Identifier '"@ + s + "'"@,
        TokenKindModel::Integer(s, _) => "Integer '"@ + s + "'"@,
        TokenKindModel::Float(s) => "Float '"@ + s + "'"@,
        TokenKindModel::BracesLeft => "'{'"@,
        TokenKindModel::BracesRight => "'}'"@,
        TokenKindModel::Equals => "'=='"@,
        TokenKindModel::Assign => "'='"@,
        TokenKindModel::Colon => "':'"@,
        TokenKindModel::ExclMark => "'!'"@,
        TokenKindModel::NotEqual => "'!='"@,
        TokenKindModel::Greater => "'>'"@,
        TokenKindModel::GreaterThan => "'>='"@,
        TokenKindModel::Less => "'<'"@,
        TokenKindModel::LessThan => "'<='"@,
        TokenKindModel::Plus => "'+'"@,
        TokenKindModel::Increment => "'+='"@,
        TokenKindModel::Minus => "'-'"@,
        TokenKindModel::Decrement => "'-='"@,
        TokenKindModel::Star => "'*'"@,
        TokenKindModel::Multiply => "'*='"@,
        TokenKindModel::Slash => "'/'"@,
        TokenKindModel::Divide => "'/='"@,
        TokenKindModel::Ampersand => "'&'"@,
        TokenKindModel::LogicalAnd => "'&&'"@,
        TokenKindModel::Vert => "'|'"@,
        TokenKindModel::LogicalOr => "'||'"@,
        TokenKindModel::PerCent => "'%'"@,
        TokenKindModel::Hash => "'#'"@,
        TokenKindModel::Dollar => "'$'"@,
        TokenKindModel::DoubleQuote => "'\"\"'"@,
        TokenKindModel::SingleQuote => "'''"@,
        TokenKindModel::SingleQuote2 => "''''"@,
        TokenKindModel::QuestionTag => "'?'"@,
        TokenKindModel::Comma => "','"@,
        TokenKindModel::Dot => "'.'"@,
        TokenKindModel::Range => "'..'"@,
        TokenKindModel::RangeIncl => "'..='"@,
        TokenKindModel::Tilde => "'~'"@,
        TokenKindModel::BracketLeft => "'['"@,
        TokenKindModel::DoubleBracketLeft => "'[['"@,
        TokenKindModel::BracketRight => "']'"@,
        TokenKindModel::DoubleBracketRight => "']]'"@,
        TokenKindModel::ParensLeft => "'('"@,
        TokenKindModel::ParensRight => "')'"@,
    }
}

impl<'a> TokenKind<'a> {
    /// The display text of this token kind, as a fresh string.
    pub fn display_string(&self) -> (r: String)
        ensures
            r@ == kind_display_spec(self@),
    {
        match self {
            TokenKind::Identifier(s) => String::from_str("Identifier '").concat(s).concat("'"),
            TokenKind::Integer(s, _) => String::from_str("Integer '").concat(s).concat("'"),
            TokenKind::Float(s) => String::from_str("Float '").concat(s).concat("'"),
            TokenKind::BracesLeft => String::from_str("'{'"),
            TokenKind::BracesRight => String::from_str("'}'"),
            TokenKind::Equals => String::from_str("'=='"),
            TokenKind::Assign => String::from_str("'='"),
            TokenKind::Colon => String::from_str("':'"),
            TokenKind::ExclMark => String::from_str("'!'"),
            TokenKind::NotEqual => String::from_str("'!='"),
            TokenKind::Greater => String::from_str("'>'"),
            TokenKind::GreaterThan => String::from_str("'>='"),
            TokenKind::Less => String::from_str("'<'"),
            TokenKind::LessThan => String::from_str("'<='"),
            TokenKind::Plus => String::from_str("'+'"),
            TokenKind::Increment => String::from_str("'+='"),
            TokenKind::Minus => String::from_str("'-'"),
            TokenKind::Decrement => String::from_str("'-='"),
            TokenKind::Star => String::from_str("'*'"),
            TokenKind::Multiply => String::from_str("'*='"),
            TokenKind::Slash => String::from_str("'/'"),
            TokenKind::Divide => String::from_str("'/='"),
            TokenKind::Ampersand => String::from_str("'&'"),
            TokenKind::LogicalAnd => String::from_str("'&&'"),
            TokenKind::Vert => String::from_str("'|'"),
            TokenKind::LogicalOr => String::from_str("'||'"),
            TokenKind::PerCent => String::from_str("'%'"),
            TokenKind::Hash => String::from_str("'#'"),
            TokenKind::Dollar => String::from_str("'$'"),
            TokenKind::DoubleQuote => String::from_str("'\"\"'"),
            TokenKind::SingleQuote => String::from_str("'''"),
            TokenKind::SingleQuote2 => String::from_str("''''"),
            TokenKind::QuestionTag => String::from_str("'?'"),
            TokenKind::Comma => String::from_str("','"),
            TokenKind::Dot => String::from_str("'.'"),
            TokenKind::Range => String::from_str("'..'"),
            TokenKind::RangeIncl => String::from_str("'..='"),
            TokenKind::Tilde => String::from_str("'~'"),
            TokenKind::BracketLeft => String::from_str("'['"),
            TokenKind::DoubleBracketLeft => String::from_str("'[['"),
            TokenKind::BracketRight => String::from_str("']'"),
            TokenKind::DoubleBracketRight => String::from_str("']]'"),
            TokenKind::ParensLeft => String::from_str("'('"),
            TokenKind::ParensRight => String::from_str("')'"),
        }
    }

    /// The number of source characters this token consumed.
    pub fn len(&self) -> (n: usize)
        ensures
            n == kind_len_spec(self@),
    {
        match self {
            TokenKind::Identifier(s) => s.unicode_len(),
            TokenKind::Integer(s, _) => s.unicode_len(),
            TokenKind::Float(s) => s.unicode_len(),
            TokenKind::Equals => 2,
            TokenKind::NotEqual => 2,
            TokenKind::GreaterThan => 2,
            TokenKind::LessThan => 2,
            TokenKind::Increment => 2,
            TokenKind::Decrement => 2,
            TokenKind::Multiply => 2,
            TokenKind::Divide => 2,
            TokenKind::LogicalAnd => 2,
            TokenKind::LogicalOr => 2,
            TokenKind::SingleQuote2 => 2,
            TokenKind::Range => 2,
            TokenKind::RangeIncl => 3,
            TokenKind::DoubleBracketLeft => 2,
            TokenKind::DoubleBracketRight => 2,
            _ => 1,
        }
    }
}

} // verus!
