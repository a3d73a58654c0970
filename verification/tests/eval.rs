//! Tests for evaluating lines and sentences.

use rsj::atom::Atom;
use rsj::error::Error;
use rsj::eval::Session;
use rsj::noun::Noun;
use rsj::primitive;
use rsj::scan::scan_sentence;
use rsj::word::{display_sentence, Word};

fn eval(line: &str) -> String {
    Session::new().eval_text(line)
}

#[test]
fn empty_line_prints_nothing() {
    assert_eq!(eval(""), "");
    assert_eq!(eval("   "), "");
    assert_eq!(eval("NB. only a comment"), "");
}

#[test]
fn numeric_literals_round_trip() {
    assert_eq!(eval("123.45"), "123.45");
    assert_eq!(eval("_1"), "_1");
    assert_eq!(eval("_"), "_");
    assert_eq!(eval("__"), "__");
    assert_eq!(eval("  0.456789 "), "0.456789");
    assert_eq!(eval("123"), "123");
}

#[test]
fn list_of_numbers_round_trips() {
    assert_eq!(eval("1 2 3 _4.56 _99 __"), "1 2 3 _4.56 _99 __");
    let sentence = scan_sentence("  1 2 3 _4.56 _99 __").unwrap();
    assert_eq!(sentence.len(), 1);
    assert!(matches!(sentence[0], Word::Noun(Noun::Array(_))));
    assert_eq!(display_sentence(&sentence), "1 2 3 _4.56 _99 __");
}

#[test]
fn sentences_are_written_with_single_spaces() {
    let sentence = scan_sentence("  1 2   +  (3)  ").unwrap();
    assert_eq!(display_sentence(&sentence), "1 2 + ( 3 )");
    assert_eq!(display_sentence(&scan_sentence("").unwrap()), "");
    assert_eq!(display_sentence(&scan_sentence("i.").unwrap()), "i.");
}

#[test]
fn underscore_inside_a_number_is_a_parse_error() {
    let text = eval("1_000");
    assert!(text.starts_with("error: ParseNumber("), "{}", text);
    assert!(text.ends_with(')'));
}

#[test]
fn dyads_on_atoms() {
    assert_eq!(eval("3 + 4"), "7");
    assert_eq!(eval("3 - 4"), "_1");
    assert_eq!(eval("3 * 4"), "12");
    assert_eq!(eval("3 % 4"), "0.75");
}

#[test]
fn evaluation_runs_from_right_to_left() {
    assert_eq!(eval("2 * 3 + 4"), "14");
    assert_eq!(eval("10 - 3 - 2"), "9");
    assert_eq!(eval("- - 3"), "3");
    assert_eq!(eval("2 - - 3"), "5");
}

#[test]
fn parentheses_group() {
    assert_eq!(eval("(3)"), "3");
    assert_eq!(eval("(2 * 3) + 4"), "10");
    assert_eq!(eval("2 * (3 + 4)"), "14");
    assert_eq!(eval("- (1 2 3)"), "_1 _2 _3");
    assert_eq!(eval("((5))"), "5");
}

#[test]
fn an_atom_is_paired_with_every_atom_of_a_list() {
    assert_eq!(eval("1 2 3 + 10"), "11 12 13");
    assert_eq!(eval("10 + 1 2 3"), "11 12 13");
    assert_eq!(eval("10 - 1 2 3"), "9 8 7");
    assert_eq!(eval("1 2 3 - 10"), "_9 _8 _7");
}

#[test]
fn lists_of_one_length_are_paired_atom_by_atom() {
    assert_eq!(eval("1 2 3 + 4 5 6"), "5 7 9");
    assert_eq!(eval("1 2 3 * 4 5 6"), "4 10 18");
}

#[test]
fn lists_of_different_lengths_are_a_length_error() {
    assert_eq!(eval("1 2 + 1 2 3"), "error: Length");
    assert_eq!(eval("1 2 3 % 1 2"), "error: Length");
}

#[test]
fn division_by_zero() {
    assert_eq!(eval("0 % 0"), "0");
    assert_eq!(eval("1 % 0"), "_");
    assert_eq!(eval("_1 % 0"), "_");
    assert_eq!(eval("1 % _"), "0");
    assert_eq!(eval("1 % __"), "0");
    assert_eq!(eval("0 % 5"), "0");
    assert_eq!(eval("% 0"), "_");
    assert_eq!(eval("% 4"), "0.25");
}

#[test]
fn product_with_zero_is_zero() {
    assert_eq!(eval("_ * 0"), "0");
    assert_eq!(eval("0 * _"), "0");
    assert_eq!(eval("__ * 0"), "0");
    assert_eq!(eval("0 * 0"), "0");
    assert_eq!(eval("0 * 1 2 _"), "0 0 0");
}

#[test]
fn signum() {
    assert_eq!(eval("* 0"), "0");
    assert_eq!(eval("* 5"), "1");
    assert_eq!(eval("* _5"), "_1");
    assert_eq!(eval("* __"), "_1");
    assert_eq!(eval("* _3 0 3"), "_1 0 1");
}

#[test]
fn negate() {
    assert_eq!(eval("- 3"), "_3");
    assert_eq!(eval("- _"), "__");
    assert_eq!(eval("- 1 _2 3"), "_1 2 _3");
    assert_eq!(eval("- 0"), "0");
}

#[test]
fn not_is_defined_from_zero_to_one() {
    assert_eq!(eval("-. 0"), "1");
    assert_eq!(eval("-. 1"), "0");
    assert_eq!(eval("-. 0.25"), "0.75");
    assert_eq!(eval("-. 2"), "error: Domain");
    assert_eq!(eval("-. _1"), "error: Domain");
    assert_eq!(eval("-. 0 1 0.5"), "1 0 0.5");
    assert_eq!(eval("-. 0 2 1"), "error: Domain");
}

#[test]
fn tally_and_shape() {
    assert_eq!(eval("# 1 2 3"), "3");
    assert_eq!(eval("# 5"), "1");
    assert_eq!(eval("$ 1 2 3"), "3");
    assert_eq!(eval("$ 5"), "");
    assert_eq!(eval("# $ 5"), "0");
    assert_eq!(eval("# $ 1 2 3"), "1");
}

#[test]
fn integers() {
    assert_eq!(eval("i. 4"), "0 1 2 3");
    assert_eq!(eval("i. 0"), "");
    assert_eq!(eval("i. 1"), "0");
    assert_eq!(eval("i. 2.9"), "0 1");
    assert_eq!(eval("# i. 1000"), "1000");
    assert_eq!(eval("i. _1"), "error: Unimplemented(\"i. negative\")");
    assert_eq!(eval("i. 1 2"), "error: Unimplemented(\"integers from list\")");
    assert_eq!(eval("i. 1e9"), "error: OutOfMemory");
    assert_eq!(eval("i. _"), "error: OutOfMemory");
}

#[test]
fn the_size_limit_itself_is_allowed() {
    assert_eq!(rsj::ARRAY_SIZE_LIMIT, 100_000_000);
    assert_eq!(eval("i. 100000001"), "error: OutOfMemory");
}

#[test]
fn forms_that_are_not_there() {
    assert_eq!(
        eval("+ 3"),
        "error: Unimplemented(\"Monad::Unimplemented\")"
    );
    assert_eq!(
        eval("3 $ 4"),
        "error: Unimplemented(\"Dyad::Unimplemented\")"
    );
    assert_eq!(eval("<. 3"), "error: Unimplemented(\"primitive\")");
}

#[test]
fn what_does_not_reduce_is_a_syntax_error() {
    assert_eq!(eval("1 +"), "error: SyntaxError");
    assert_eq!(eval("("), "error: SyntaxError");
    assert_eq!(eval(")"), "error: SyntaxError");
    assert_eq!(eval("(1"), "error: SyntaxError");
    assert_eq!(eval("1 (2)"), "error: SyntaxError");
    assert_eq!(eval("+ +"), "error: SyntaxError");
}

#[test]
fn a_lone_verb_is_its_own_result() {
    assert_eq!(eval("+"), "+");
    assert_eq!(eval("i."), "i.");
    assert_eq!(eval("(-.)"), "-.");
    let mut session = Session::new();
    let result = session.eval_sentence(&vec![Word::Verb(primitive::PLUS)]);
    assert!(matches!(result, Ok(Some(Word::Verb(primitive::PLUS)))));
}

#[test]
fn unknown_text_is_an_error() {
    assert_eq!(eval("abc"), "error: Unexpected('a')");
    assert_eq!(eval("!"), "error: Unexpected('!')");
    assert_eq!(eval("'"), "error: Unexpected('\\'')");
    assert_eq!(eval("3 + [4]"), "error: Unexpected('[')");
    assert_eq!(eval("\u{e9}"), "error: Unexpected('\u{c3}')");
}

#[test]
fn eval_sentence_of_nothing_is_nothing() {
    let mut session = Session::new();
    assert!(matches!(session.eval_sentence(&vec![]), Ok(None)));
}

#[test]
fn eval_sentence_applies_a_dyad() {
    let mut session = Session::new();
    let three = Word::Noun(Noun::Atom(Atom::from_real(3.0f64.to_bits())));
    let four = Word::Noun(Noun::Atom(Atom::from_real(4.0f64.to_bits())));
    let seven = Word::Noun(Noun::Atom(Atom::from_real(7.0f64.to_bits())));
    let result = session
        .eval_sentence(&vec![three, Word::Verb(primitive::PLUS), four])
        .unwrap();
    assert_eq!(result, Some(seven));
}

#[test]
fn eval_sentence_reports_errors() {
    let mut session = Session::new();
    let two = Word::Noun(Noun::Atom(Atom::from_real(2.0f64.to_bits())));
    let result = session.eval_sentence(&vec![Word::Verb(primitive::MINUS_DOT), two]);
    assert!(matches!(result, Err(Error::Domain)));
    let result = session.eval_sentence(&vec![Word::OpenParen]);
    assert!(matches!(result, Err(Error::SyntaxError)));
}

#[test]
fn long_lists_are_cut_at_the_output_width() {
    let text = eval("i. 100");
    assert!(text.starts_with("0 1 2 3 4 5 6 7 8 9 10 11 "));
    assert!(text.ends_with(" ..."));
    assert_eq!(
        text,
        "0 1 2 3 4 5 6 7 8 9 10 11 12 13 14 15 16 17 18 19 20 21 22 23 24 25 26 27 28 ..."
    );
    assert_eq!(text.len(), 80);
}

#[test]
fn errors_leave_the_session_usable() {
    let mut session = Session::new();
    assert_eq!(session.eval_text("1 2 + 1 2 3"), "error: Length");
    assert_eq!(session.eval_text("1 + 1"), "2");
}
