use dsl_lexer::chscan::ChScanner;

#[test]
fn empty_text() {
    let mut sc = ChScanner::new_from_str("");
    assert_eq!(sc.position(), 0usize);
    assert_eq!(sc.peek(), None);
    assert_eq!(sc.next(), None);
    assert_eq!(sc.position(), 0usize);
    assert_eq!(sc.peek(), None);
    assert_eq!(sc.next(), None);
}

#[test]
fn string1() {
    let mut sc = ChScanner::new_from_str("abc12\u{2018}");
    assert_eq!(sc.position(), 0usize);
    assert_eq!(sc.next(), Some('a'));

    assert_eq!(sc.position(), 1usize);
    assert_eq!(sc.peek(), Some('b'));
    assert_eq!(sc.position(), 1usize);
    assert_eq!(sc.next(), Some('b'));

    assert_eq!(sc.position(), 2usize);
    assert_eq!(sc.peek(), Some('c'));
    assert_eq!(sc.position(), 2usize);
    assert_eq!(sc.peek(), Some('c'));
    assert_eq!(sc.position(), 2usize);
    assert_eq!(sc.next(), Some('c'));

    assert_eq!(sc.next(), Some('1'));
    assert_eq!(sc.next(), Some('2'));
    assert_eq!(sc.next(), Some('\u{2018}'));

    assert_eq!(sc.position(), 6);
    assert_eq!(sc.peek(), None);
    assert_eq!(sc.position(), 6);
    assert_eq!(sc.peek(), None);
    assert_eq!(sc.next(), None);
    assert_eq!(sc.position(), 6);
    assert_eq!(sc.peek(), None);
    assert_eq!(sc.next(), None);
}

#[test]
fn test_marker() {
    let mut scanner = ChScanner::new_from_str("A\ntest.");
    assert_eq!(scanner.next(), Some('A'));
    assert_eq!(scanner.next(), Some('\n'));
    assert!(!scanner.is_marker_set());
    scanner.set_marker();
    assert!(scanner.is_marker_set());
    scanner.next();
    scanner.next();
    scanner.next();
    scanner.next();
    assert_eq!(scanner.str_from_marker(), "test");
}

#[test]
fn test_marker_peek_end() {
    let mut scanner = ChScanner::new_from_str("A\ntest.");
    assert_eq!(scanner.next(), Some('A'));
    assert_eq!(scanner.next(), Some('\n'));
    assert!(!scanner.is_marker_set());
    scanner.set_marker();
    assert!(scanner.is_marker_set());
    scanner.next();
    scanner.next();
    scanner.next();
    scanner.next();
    scanner.peek();
    assert_eq!(scanner.str_from_marker(), "test");
}

#[test]
fn test_marker_peek_start() {
    let mut scanner = ChScanner::new_from_str("A\ntest.");
    assert_eq!(scanner.next(), Some('A'));
    assert_eq!(scanner.next(), Some('\n'));
    assert!(!scanner.is_marker_set());
    scanner.set_marker();
    scanner.peek();
    assert!(scanner.is_marker_set());
    scanner.next();
    scanner.next();
    scanner.next();
    scanner.next();
    assert_eq!(scanner.str_from_marker(), "test");
}

#[test]
fn test_marker_empty() {
    let mut scanner = ChScanner::new_from_str("A\ntest.");
    scanner.next();
    scanner.next();
    scanner.set_marker();
    assert_eq!(scanner.str_from_marker(), "");
}

#[test]
fn marker_position_and_clear() {
    let mut scanner = ChScanner::new_from_str("one two");
    scanner.next();
    scanner.next();
    scanner.set_marker();
    assert_eq!(scanner.pos_marker(), 2);
    scanner.next();
    assert_eq!(scanner.pos_marker(), 2);
    assert_eq!(scanner.str_from_marker(), "e");
    scanner.clr_marker();
    assert!(!scanner.is_marker_set());
}
