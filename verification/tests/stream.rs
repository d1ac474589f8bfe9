use dsl_lexer::lexer::Lexer;
use dsl_lexer::token::{Error, Token, TokenKind};

/// The source text a token stands for.
fn text_of(kind: &TokenKind<'_>) -> String {
    match kind {
        TokenKind::Identifier(s) => (*s).to_string(),
        TokenKind::Integer(s, _) => (*s).to_string(),
        TokenKind::Float(s) => (*s).to_string(),
        TokenKind::NotEqual => "!=".to_string(),
        TokenKind::ExclMark => "!".to_string(),
        TokenKind::Range => "..".to_string(),
        TokenKind::RangeIncl => "..=".to_string(),
        TokenKind::LessThan => "<=".to_string(),
        k => panic!("kind not used by these inputs: {:?}", k),
    }
}

/// Concatenating each token's lexeme, interleaved with the skipped
/// whitespace, reconstructs the input exactly.
#[test]
fn lexemes_reconstruct_input() {
    let input = "  id2\t23 4223.3 !=\n.. x ";
    let chars: Vec<char> = input.chars().collect();
    let mut lexer = Lexer::new_from_str(input);
    let mut out = String::new();
    loop {
        match lexer.next() {
            None => break,
            Some(item) => {
                let token: Token = item.unwrap();
                while out.chars().count() < token.position {
                    let c = chars[out.chars().count()];
                    assert!(c == ' ' || c == '\t' || c == '\r' || c == '\n');
                    out.push(c);
                }
                out.push_str(&text_of(&token.kind));
            },
        }
    }
    while out.chars().count() < chars.len() {
        let c = chars[out.chars().count()];
        assert!(c == ' ' || c == '\t' || c == '\r' || c == '\n');
        out.push(c);
    }
    assert_eq!(out, input);
}

/// Token positions strictly increase and equal the scalar-value offset
/// of the token's first character.
#[test]
fn positions_increase() {
    let input = "a bb  ccc != 12 3.5";
    let expected_positions = [0usize, 2, 6, 10, 13, 16];
    let mut lexer = Lexer::new_from_str(input);
    let mut last: Option<usize> = None;
    let mut idx = 0usize;
    loop {
        match lexer.next() {
            None => break,
            Some(item) => {
                let token = item.unwrap();
                if let Some(p) = last {
                    assert!(token.position > p);
                }
                assert_eq!(token.position, expected_positions[idx]);
                last = Some(token.position);
                idx += 1;
            },
        }
    }
    assert_eq!(idx, expected_positions.len());
}

/// Peeking any number of times yields the same item and consumes
/// nothing; `next` then returns the peeked item.
#[test]
fn peek_idempotent() {
    let mut lexer = Lexer::new_from_str(".. ..=");
    let p1 = lexer.peek();
    let p2 = lexer.peek();
    let p3 = lexer.peek();
    assert_eq!(p1, p2);
    assert_eq!(p2, p3);
    assert_eq!(lexer.next(), p1);
    let q1 = lexer.peek();
    assert_eq!(lexer.peek(), q1);
    assert_eq!(lexer.next(), q1);
    assert!(lexer.peek().is_none());
    assert!(lexer.peek().is_none());
    assert!(lexer.next().is_none());
}

/// The parsed value of an integer literal without separators, formatted
/// back in the literal's radix, reproduces the literal's digits.
#[test]
fn integer_roundtrip() {
    let mut lexer = Lexer::new_from_str("90800333 0xa1f 0b1011");
    match lexer.next().unwrap().unwrap().kind {
        TokenKind::Integer(s, v) => {
            assert_eq!(s, "90800333");
            assert_eq!(format!("{}", v), s);
        },
        k => panic!("expected integer, got {:?}", k),
    }
    match lexer.next().unwrap().unwrap().kind {
        TokenKind::Integer(s, v) => {
            assert_eq!(s, "0xa1f");
            assert_eq!(format!("{:x}", v), &s[2..]);
        },
        k => panic!("expected integer, got {:?}", k),
    }
    match lexer.next().unwrap().unwrap().kind {
        TokenKind::Integer(s, v) => {
            assert_eq!(s, "0b1011");
            assert_eq!(format!("{:b}", v), &s[2..]);
        },
        k => panic!("expected integer, got {:?}", k),
    }
}

#[test]
fn range_tokens() {
    let mut lexer = Lexer::new_from_str(".. ..=");
    let t1 = lexer.next().unwrap().unwrap();
    assert_eq!(t1.position, 0);
    assert_eq!(t1.kind, TokenKind::Range);
    let t2 = lexer.next().unwrap().unwrap();
    assert_eq!(t2.position, 3);
    assert_eq!(t2.kind, TokenKind::RangeIncl);
    assert!(lexer.next().is_none());
}

#[test]
fn notequal_then_exclmark() {
    let mut lexer = Lexer::new_from_str("!= !");
    let t1 = lexer.next().unwrap().unwrap();
    assert_eq!(t1.position, 0);
    assert_eq!(t1.kind, TokenKind::NotEqual);
    let t2 = lexer.next().unwrap().unwrap();
    assert_eq!(t2.position, 3);
    assert_eq!(t2.kind, TokenKind::ExclMark);
    assert!(lexer.next().is_none());
}

#[test]
fn float_parsing_errors() {
    let mut lexer = Lexer::new_from_str("1e 2'3.5");
    assert_eq!(lexer.next().unwrap().unwrap_err(), Error::FloatParsingError("1e", 0));
    assert_eq!(lexer.next().unwrap().unwrap_err(), Error::FloatParsingError("2'3.5", 3));
    assert!(lexer.next().is_none());
}

#[test]
fn unknown_token() {
    let mut lexer = Lexer::new_from_str("@ab");
    assert_eq!(lexer.next().unwrap().unwrap_err(), Error::UnknownToken("@", 0));
    let t = lexer.next().unwrap().unwrap();
    assert_eq!(t.kind, TokenKind::Identifier("ab"));
    assert_eq!(t.position, 1);
}

#[test]
fn empty_and_whitespace_input() {
    let mut lexer = Lexer::new_from_str("");
    assert!(lexer.peek().is_none());
    assert!(lexer.next().is_none());
    let mut ws = Lexer::new_from_str(" \t\r\n ");
    assert!(ws.next().is_none());
}

#[test]
fn caret_starts_identifier_only() {
    let mut lexer = Lexer::new_from_str("^name a^b");
    let t1 = lexer.next().unwrap().unwrap();
    assert_eq!(t1.kind, TokenKind::Identifier("^name"));
    let t2 = lexer.next().unwrap().unwrap();
    assert_eq!(t2.kind, TokenKind::Identifier("a"));
    let t3 = lexer.next().unwrap().unwrap();
    assert_eq!(t3.kind, TokenKind::Identifier("^b"));
    assert_eq!(t3.position, 7);
    assert!(lexer.next().is_none());
}

#[test]
fn token_display_length() {
    assert_eq!(TokenKind::Identifier("abc").len(), 3);
    assert_eq!(TokenKind::Integer("0x1f", 31).len(), 4);
    assert_eq!(TokenKind::Float("1.5").len(), 3);
    assert_eq!(TokenKind::Assign.len(), 1);
    assert_eq!(TokenKind::Equals.len(), 2);
    assert_eq!(TokenKind::RangeIncl.len(), 3);
    assert_eq!(TokenKind::DoubleQuote.len(), 1);
    assert_eq!(TokenKind::SingleQuote2.len(), 2);
}

#[test]
fn token_display_text() {
    assert_eq!(TokenKind::Equals.display_string(), "'=='");
    assert_eq!(TokenKind::Identifier("x").display_string(), "Identifier 'x'");
    assert_eq!(TokenKind::Integer("23", 23).display_string(), "Integer '23'");
}

/// A token's span matches the consumed characters exactly:
/// `position + kind.len()` is where the next token begins.
#[test]
fn spans_tile_the_input() {
    let input = "ab!=cd ..= 12";
    let mut lexer = Lexer::new_from_str(input);
    let mut expected_next = 0usize;
    let starts = [0usize, 2, 4, 7, 11];
    let lens = [2usize, 2, 2, 3, 2];
    let mut idx = 0usize;
    loop {
        match lexer.next() {
            None => break,
            Some(item) => {
                let token = item.unwrap();
                assert!(token.position >= expected_next);
                assert_eq!(token.position, starts[idx]);
                assert_eq!(token.kind.len(), lens[idx]);
                expected_next = token.position + token.kind.len();
                idx += 1;
            },
        }
    }
    assert_eq!(idx, starts.len());
}
