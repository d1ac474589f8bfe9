use dsl_lexer::parser::ast::{FileLocation, FQN};
use dsl_lexer::parser::Parser;
use dsl_lexer::token::TokenKind;

#[test]
fn fqn() {
    let mut parser = Parser::new_from_str("ab.def._2.f de.titnc.*");

    assert_eq!(
        parser.parse_fqn().expect("FQN #1 returned err"),
        FQN {
            is_wildcard: false,
            components: vec![("ab", 0), ("def", 3), ("_2", 7), ("f", 10)],
            location: FileLocation { start: 0, len: 11 },
        }
    );
    assert_eq!(
        parser.parse_fqn().expect("FQN #2 returned err"),
        FQN {
            is_wildcard: true,
            components: vec![("de", 12), ("titnc", 15)],
            location: FileLocation { start: 12, len: 10 },
        }
    )
}

#[test]
fn package() {
    let _parser = Parser::new_from_str("package ab.def._2.f");
}

#[test]
fn exp_token() {
    let mut parser = Parser::new_from_str("name 12 ! <=\npackage");

    let r = parser.expect_identifier().ok();

    assert!(r.is_some())
}

fn assert_id(parser: &mut Parser<'_>, id: &str, pos: usize) {
    let result = parser.expect_identifier().expect("Expected OK, got Err");
    assert_eq!(result.0, id);
    assert_eq!(result.1, pos);
    assert_eq!(result.2.position, pos);
    if let TokenKind::Identifier(s) = result.2.kind {
        assert_eq!(s, id);
    } else {
        panic!("Expected token identifier, got something else {:?}", result.2.kind)
    }
}

#[test]
fn util_identifier() {
    let mut parser = Parser::new_from_str("name \nvariable 12");

    assert_id(&mut parser, "name", 0);
    assert_id(&mut parser, "variable", 6);
    assert!(parser.expect_identifier().is_err());
}

fn assert_keyword(parser: &mut Parser<'_>, kw: &str, pos: usize) {
    if let Ok(result) = parser.expect_keyword(kw) {
        assert_eq!(result, pos)
    } else {
        panic!("Expected keyword '{:?}', got error.", kw)
    }
}

#[test]
fn keyword() {
    let mut parser = Parser::new_from_str("package struct 42");

    assert_keyword(&mut parser, "package", 0);
    assert_keyword(&mut parser, "struct", 8);
    assert!(parser.expect_keyword("x").is_err());
}
