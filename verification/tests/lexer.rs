use dsl_lexer::lexer::Lexer;
use dsl_lexer::token::{Error, Token, TokenKind};

type LexItem<'a> = Option<Result<Token<'a>, Error<'a>>>;

fn assert_token(result: LexItem<'_>, pos: usize, kind: TokenKind<'_>) {
    assert!(result.is_some());
    assert!(result.as_ref().unwrap().is_ok());
    let token: Token = result.unwrap().unwrap();
    assert_eq!(token.position, pos);
    assert_eq!(token.kind, kind);
}

fn assert_token_float(result: LexItem<'_>, pos: usize, s: &str, val: f64) {
    assert!(result.is_some());
    assert!(result.as_ref().unwrap().is_ok());
    let token: Token = result.unwrap().unwrap();
    assert_eq!(token.position, pos);
    match token.kind {
        TokenKind::Float(lexeme) => {
            assert_eq!(lexeme, s);
            assert_eq!(lexeme.parse::<f64>().unwrap(), val);
        },
        k => {
            panic!("Wrong token: \n  left: {:?}\n", k);
        },
    }
}

#[test]
fn peek() {
    let mut lexer = Lexer::new_from_str("id2 23 4223.3");

    assert_token(lexer.peek(), 0, TokenKind::Identifier("id2"));
    assert_token(lexer.peek(), 0, TokenKind::Identifier("id2"));
    assert_token(lexer.next(), 0, TokenKind::Identifier("id2"));

    assert_token(lexer.peek(), 4, TokenKind::Integer("23", 23));
    assert_token(lexer.next(), 4, TokenKind::Integer("23", 23));

    assert_token_float(lexer.peek(), 7, "4223.3", 4223.3f64);
    assert_token_float(lexer.next(), 7, "4223.3", 4223.3f64);
    assert!(lexer.peek().is_none());
    assert!(lexer.next().is_none());
}

#[test]
fn tests_identifier() {
    let mut lexer = Lexer::new_from_str("id1 _name_23  \n\rAnotherId23fier \tvariable_A ");

    assert_token(lexer.next(), 0, TokenKind::Identifier("id1"));
    assert_token(lexer.next(), 4, TokenKind::Identifier("_name_23"));
    assert_token(lexer.next(), 16, TokenKind::Identifier("AnotherId23fier"));
    assert_token(lexer.next(), 33, TokenKind::Identifier("variable_A"));
    assert!(lexer.next().is_none());
}

/// checks that identifier is finished when EOF directly follows
#[test]
fn identifier_direct_end() {
    let mut lexer = Lexer::new_from_str(" id1");

    assert_token(lexer.next(), 1, TokenKind::Identifier("id1"));
    assert!(lexer.next().is_none());
}

#[test]
fn braces() {
    let mut lexer = Lexer::new_from_str(" { a_name \t}{{");

    assert_token(lexer.next(), 1, TokenKind::BracesLeft);
    assert_token(lexer.next(), 3, TokenKind::Identifier("a_name"));
    assert_token(lexer.next(), 11, TokenKind::BracesRight);
    assert_token(lexer.next(), 12, TokenKind::BracesLeft);
    assert_token(lexer.next(), 13, TokenKind::BracesLeft);
    assert!(lexer.next().is_none());
}

#[test]
fn exclmark_and_notequal() {
    let mut lexer = Lexer::new_from_str("!b != ");

    assert_token(lexer.next(), 0, TokenKind::ExclMark);
    assert_token(lexer.next(), 1, TokenKind::Identifier("b"));

    assert_token(lexer.next(), 3, TokenKind::NotEqual);
    assert!(lexer.next().is_none());
}

#[test]
fn less_and_than() {
    let mut lexer = Lexer::new_from_str("x <= b y<c");

    assert_token(lexer.next(), 0, TokenKind::Identifier("x"));
    assert_token(lexer.next(), 2, TokenKind::LessThan);
    assert_token(lexer.next(), 5, TokenKind::Identifier("b"));

    assert_token(lexer.next(), 7, TokenKind::Identifier("y"));
    assert_token(lexer.next(), 8, TokenKind::Less);
    assert_token(lexer.next(), 9, TokenKind::Identifier("c"));
    assert!(lexer.next().is_none())
}

#[test]
fn greater_and_than() {
    let mut lexer = Lexer::new_from_str("x >= b y>c");

    assert_token(lexer.next(), 0, TokenKind::Identifier("x"));
    assert_token(lexer.next(), 2, TokenKind::GreaterThan);
    assert_token(lexer.next(), 5, TokenKind::Identifier("b"));

    assert_token(lexer.next(), 7, TokenKind::Identifier("y"));
    assert_token(lexer.next(), 8, TokenKind::Greater);
    assert_token(lexer.next(), 9, TokenKind::Identifier("c"));
    assert!(lexer.next().is_none())
}

#[test]
fn equals_and_assign() {
    let mut lexer = Lexer::new_from_str(" a=b x1== _val ");

    assert_token(lexer.next(), 1, TokenKind::Identifier("a"));
    assert_token(lexer.next(), 2, TokenKind::Assign);
    assert_token(lexer.next(), 3, TokenKind::Identifier("b"));

    assert_token(lexer.next(), 5, TokenKind::Identifier("x1"));
    assert_token(lexer.next(), 7, TokenKind::Equals);
    assert_token(lexer.next(), 10, TokenKind::Identifier("_val"));
    assert!(lexer.next().is_none());
}

#[test]
fn arithmetic_operators() {
    let mut lexer = Lexer::new_from_str("+ += - -= * *= / /=");

    assert_token(lexer.next(), 0, TokenKind::Plus);
    assert_token(lexer.next(), 2, TokenKind::Increment);
    assert_token(lexer.next(), 5, TokenKind::Minus);
    assert_token(lexer.next(), 7, TokenKind::Decrement);
    assert_token(lexer.next(), 10, TokenKind::Star);
    assert_token(lexer.next(), 12, TokenKind::Multiply);
    assert_token(lexer.next(), 15, TokenKind::Slash);
    assert_token(lexer.next(), 17, TokenKind::Divide);
    assert!(lexer.next().is_none());
}

#[test]
fn logical_operators() {
    let mut lexer = Lexer::new_from_str("& && | ||");

    assert_token(lexer.next(), 0, TokenKind::Ampersand);
    assert_token(lexer.next(), 2, TokenKind::LogicalAnd);
    assert_token(lexer.next(), 5, TokenKind::Vert);
    assert_token(lexer.next(), 7, TokenKind::LogicalOr);
}

#[test]
fn single_tokens() {
    let mut lexer = Lexer::new_from_str("%#$\"' ''?,~");

    assert_token(lexer.next(), 0, TokenKind::PerCent);
    assert_token(lexer.next(), 1, TokenKind::Hash);
    assert_token(lexer.next(), 2, TokenKind::Dollar);
    assert_token(lexer.next(), 3, TokenKind::DoubleQuote);
    assert_token(lexer.next(), 4, TokenKind::SingleQuote);
    assert_token(lexer.next(), 6, TokenKind::SingleQuote2);
    assert_token(lexer.next(), 8, TokenKind::QuestionTag);
    assert_token(lexer.next(), 9, TokenKind::Comma);
    assert_token(lexer.next(), 10, TokenKind::Tilde);
}

#[test]
fn dot_and_ranges() {
    let mut lexer = Lexer::new_from_str(". .. ..=");

    assert_token(lexer.next(), 0, TokenKind::Dot);
    assert_token(lexer.next(), 2, TokenKind::Range);
    assert_token(lexer.next(), 5, TokenKind::RangeIncl);
}

#[test]
fn brackets() {
    let mut lexer = Lexer::new_from_str("[ [[ ]] ]");

    assert_token(lexer.next(), 0, TokenKind::BracketLeft);
    assert_token(lexer.next(), 2, TokenKind::DoubleBracketLeft);

    assert_token(lexer.next(), 5, TokenKind::DoubleBracketRight);
    assert_token(lexer.next(), 8, TokenKind::BracketRight);
}

#[test]
fn parentheses() {
    let mut lexer = Lexer::new_from_str("()");

    assert_token(lexer.next(), 0, TokenKind::ParensLeft);
    assert_token(lexer.next(), 1, TokenKind::ParensRight);
}

#[test]
fn hex_integer() {
    let mut lexer = Lexer::new_from_str("0x0 0Xa1 0xfff'123 0xa9'b3'66");

    assert_token(lexer.next(), 0, TokenKind::Integer("0x0", 0u64));
    assert_token(lexer.next(), 4, TokenKind::Integer("0Xa1", 161u64));
    assert_token(lexer.next(), 9, TokenKind::Integer("0xfff'123", 0xfff123));
    assert_token(lexer.next(), 19, TokenKind::Integer("0xa9'b3'66", 0xa9b366))
}

#[test]
fn hex_integer_failures() {
    let mut lexer = Lexer::new_from_str("0x 0xaf' 0x0123456789abcdef1");

    assert_eq!(lexer.next().unwrap().unwrap_err(), Error::IntegerNoValue("0x", 0));
    assert_eq!(lexer.next().unwrap().unwrap_err(), Error::IntegerSeparatorAtEnd("0xaf'", 3));
    assert_eq!(
        lexer.next().unwrap().unwrap_err(),
        Error::IntegerExceedingLimit("0x0123456789abcdef1", 9)
    );
}

#[test]
fn bin_integer() {
    let mut lexer = Lexer::new_from_str("0b1 0B10 0b111'101 0b111'10'01");

    assert_token(lexer.next(), 0, TokenKind::Integer("0b1", 1));
    assert_token(lexer.next(), 4, TokenKind::Integer("0B10", 2));
    assert_token(lexer.next(), 9, TokenKind::Integer("0b111'101", 0b111101));
    assert_token(lexer.next(), 19, TokenKind::Integer("0b111'10'01", 0b1111001))
}

#[test]
fn bin_integer_failures() {
    let mut lexer = Lexer::new_from_str("0b 0b11'");

    assert_eq!(lexer.next().unwrap().unwrap_err(), Error::IntegerNoValue("0b", 0));
    assert_eq!(lexer.next().unwrap().unwrap_err(), Error::IntegerSeparatorAtEnd("0b11'", 3));
}

#[test]
fn dec_integer() {
    let mut lexer = Lexer::new_from_str("0412 242 90'800'333");

    assert_token(lexer.next(), 0, TokenKind::Integer("0412", 412));
    assert_token(lexer.next(), 5, TokenKind::Integer("242", 242));
    assert_token(lexer.next(), 9, TokenKind::Integer("90'800'333", 90800333))
}

#[test]
fn dec_integer_failures() {
    let mut lexer = Lexer::new_from_str("6'333' 18'446'744'073'709'551'616");

    assert_eq!(lexer.next().unwrap().unwrap_err(), Error::IntegerSeparatorAtEnd("6'333'", 0));
    assert_eq!(
        lexer.next().unwrap().unwrap_err(),
        Error::IntegerExceedingLimit("18'446'744'073'709'551'616", 7)
    );
}

#[test]
fn float() {
    let mut lexer = Lexer::new_from_str("2.1418 0.82 1e22 0.34e-4 1.22e+2");

    assert_token_float(lexer.next(), 0, "2.1418", 2.1418f64);
    assert_token_float(lexer.next(), 7, "0.82", 0.82f64);
    assert_token_float(lexer.next(), 12, "1e22", 1e22f64);
    assert_token_float(lexer.next(), 17, "0.34e-4", 0.34e-4);
    assert_token_float(lexer.next(), 25, "1.22e+2", 1.22e2);
}
