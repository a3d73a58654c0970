//! Tests for the cursor over the bytes of a line.

use rsj::lex::{byte_is_digit, byte_is_letter, byte_is_space, contains_byte, Lex};

#[test]
fn peek_and_take() {
    let mut lex = Lex::new(b"ab");
    assert!(!lex.is_end());
    assert_eq!(lex.remaining(), 2);
    assert_eq!(lex.peek(), b'a');
    assert_eq!(lex.try_peek(), Some(b'a'));
    assert_eq!(lex.take(), b'a');
    assert_eq!(lex.try_take(), Some(b'b'));
    assert!(lex.is_end());
    assert_eq!(lex.try_peek(), None);
    assert_eq!(lex.try_take(), None);
    assert_eq!(lex.remaining(), 0);
}

#[test]
fn empty_input_is_at_its_end() {
    let mut lex = Lex::new(b"");
    assert!(lex.is_end());
    assert_eq!(lex.lookahead(0), None);
    assert!(lex.starts_with(b""));
    assert!(!lex.starts_with(b"a"));
    lex.drop();
    lex.advance();
    lex.drop_whitespace();
    lex.drop_line();
    assert!(lex.is_end());
    assert_eq!(lex.take_any(b"abc"), None);
    assert!(!lex.take_if(b'a'));
}

#[test]
fn take_any_takes_only_listed_bytes() {
    let mut lex = Lex::new(b"+.x");
    assert_eq!(lex.take_any(b"-*"), None);
    assert_eq!(lex.take_any(b"#$%&*+-/<=>?@"), Some(b'+'));
    assert_eq!(lex.take_any(b".:"), Some(b'.'));
    assert_eq!(lex.take_any(b".:"), None);
    assert_eq!(lex.peek(), b'x');
}

#[test]
fn take_if_takes_one_byte() {
    let mut lex = Lex::new(b"()");
    assert!(!lex.take_if(b')'));
    assert!(lex.take_if(b'('));
    assert!(lex.take_if(b')'));
    assert!(!lex.take_if(b')'));
}

#[test]
fn lookahead_does_not_move() {
    let lex = Lex::new(b"i.3");
    assert_eq!(lex.lookahead(0), Some(b'i'));
    assert_eq!(lex.lookahead(1), Some(b'.'));
    assert_eq!(lex.lookahead(2), Some(b'3'));
    assert_eq!(lex.lookahead(3), None);
    assert_eq!(lex.lookahead(usize::MAX), None);
    assert_eq!(lex.peek(), b'i');
}

#[test]
fn drop_whitespace_stops_at_a_word() {
    let mut lex = Lex::new(b" \t\r\n\x0c x ");
    lex.drop_whitespace();
    assert_eq!(lex.peek(), b'x');
    lex.drop_whitespace();
    assert_eq!(lex.peek(), b'x');
    lex.drop();
    lex.drop_whitespace();
    assert!(lex.is_end());
}

#[test]
fn drop_line_stops_after_the_line_feed() {
    let mut lex = Lex::new(b"NB. one\ntwo\n");
    lex.drop_line();
    assert!(lex.starts_with(b"two"));
    lex.drop_line();
    assert!(lex.is_end());
    let mut lex = Lex::new(b"no line feed");
    lex.drop_line();
    assert!(lex.is_end());
}

#[test]
fn starts_with_looks_at_the_cursor() {
    let mut lex = Lex::new(b"xNB.");
    assert!(!lex.starts_with(b"NB."));
    assert!(lex.starts_with(b"x"));
    assert!(lex.starts_with(b"xNB."));
    assert!(!lex.starts_with(b"xNB.!"));
    lex.drop();
    assert!(lex.starts_with(b"NB."));
    assert!(lex.starts_with(b""));
}

#[test]
fn classes_of_bytes() {
    for b in 0..=255u8 {
        assert_eq!(byte_is_space(b), b.is_ascii_whitespace(), "{}", b);
        assert_eq!(byte_is_digit(b), b.is_ascii_digit(), "{}", b);
        assert_eq!(byte_is_letter(b), b.is_ascii_alphabetic(), "{}", b);
        assert_eq!(contains_byte(b".:", b), b == b'.' || b == b':');
    }
}
