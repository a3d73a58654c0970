//! Scan source text into words.
//!
//! Scanning proceeds left to right and produces a list of "words" which might be constant nouns,
//! verbs, etc. Comments are dropped at this stage.
//!
//! The most interesting thing about the grammar is that a space separated list of numbers is a
//! single "word": this accounts for how `* 1 2 3` "knows" to multiply all the numbers: they're
//! effectively a single word which constitutes the argument.

use vstd::prelude::*;
use vstd::string::StringSliceAdditionalSpecFns;
use crate::atom::{canonical_atom, same_parts, Atom};
use crate::double;
use crate::error::{parse_error_text, Error, ErrorKind};
use crate::lex::{
    has_prefix_at, is_digit, is_letter, lemma_line_end, lemma_spaces_end, line_end, spaces_end,
    byte_is_digit, byte_is_letter, Lex,
};
use crate::noun::{Noun, Value};
use crate::primitive::{lookup, Primitive};
use crate::word::{tokens, Sentence, Token, Word};

verus! {

/// The bytes that begin the name of a primitive.
pub open spec fn symbols() -> Seq<u8> {
    seq![
        0x23u8,
        0x24u8,
        0x25u8,
        0x26u8,
        0x2au8,
        0x2bu8,
        0x2du8,
        0x2fu8,
        0x3cu8,
        0x3du8,
        0x3eu8,
        0x3fu8,
        0x40u8,
    ]
}

/// The bytes that may end the name of a primitive: `.` and `:`.
pub open spec fn inflections() -> Seq<u8> {
    seq![0x2eu8, 0x3au8]
}

/// The three bytes `NB.`, which begin a comment.
pub open spec fn comment_mark() -> Seq<u8> {
    seq![0x4eu8, 0x42u8, 0x2eu8]
}

/// True of the bytes that a number is made of: digits, `.`, `e` and `_`.
pub open spec fn is_number_byte(b: u8) -> bool {
    is_digit(b) || b == 0x2e || b == 0x65 || b == 0x5f
}

/// True of the bytes that a number may begin with: digits and `_`.
pub open spec fn starts_number(b: u8) -> bool {
    is_digit(b) || b == 0x5f
}

/// The first position at or after `pos` where a word may begin: blank space
/// and comments, which run from `NB.` to the end of their line, lie before it.
pub open spec fn blank_end(input: Seq<u8>, pos: int) -> int
    decreases input.len() - pos,
{
    let p = spaces_end(input, pos);
    if 0 <= pos <= p && p < input.len() && has_prefix_at(input, p, comment_mark()) {
        proof {
            lemma_line_end(input, p);
        }
        blank_end(input, line_end(input, p))
    } else {
        p
    }
}

/// The first position at or after `pos` that holds no byte of a number.
pub open spec fn number_end(input: Seq<u8>, pos: int) -> int
    decreases input.len() - pos,
{
    if 0 <= pos < input.len() && is_number_byte(input[pos]) {
        number_end(input, pos + 1)
    } else {
        pos
    }
}

/// The bytes from `pos` up to `end`, with a minus sign in place of each underscore.
pub open spec fn number_text(input: Seq<u8>, pos: int, end: int) -> Seq<u8> {
    Seq::new(
        (end - pos) as nat,
        |i: int|
            if input[pos + i] == 0x5f {
                0x2du8
            } else {
                input[pos + i]
            },
    )
}

/// The complex number that `num_complex` reads from `text`, or else how the
/// error that it reports describes itself.
pub uninterp spec fn parsed_number(text: Seq<u8>) -> Result<(u64, u64), Seq<char>>;

/// The number that `text` stands for, where every underscore has become a
/// minus sign already: a lone sign is infinity, two are negative infinity,
/// and anything else is read as a complex number.
pub open spec fn number_value(text: Seq<u8>) -> Result<Atom, ErrorKind> {
    if text == seq![0x2du8] {
        Ok(Atom::from_real(double::INFINITY))
    } else if text == seq![0x2du8, 0x2du8] {
        Ok(Atom::from_real(double::NEG_INFINITY))
    } else {
        match parsed_number(text) {
            Ok(parts) => Ok(canonical_atom(parts)),
            Err(detail) => Err(ErrorKind::ParseNumber(detail)),
        }
    }
}

/// The number that begins at `pos`, and the position after it. A letter
/// right behind the bytes of the number is an error.
pub open spec fn number_at(input: Seq<u8>, pos: int) -> Result<(Atom, int), ErrorKind> {
    let end = number_end(input, pos);
    if 0 <= end < input.len() && is_letter(input[end]) {
        Err(ErrorKind::Unexpected(input[end] as char))
    } else {
        match number_value(number_text(input, pos, end)) {
            Ok(a) => Ok((a, end)),
            Err(e) => Err(e),
        }
    }
}

/// The numbers that follow one another from `pos` on with only blank space
/// between them, behind those of `acc`, and the position after them and the
/// blank space that follows them.
pub open spec fn numbers_from(input: Seq<u8>, pos: int, acc: Seq<Atom>) -> Result<
    (Seq<Atom>, int),
    ErrorKind,
>
    decreases input.len() - pos,
{
    if 0 <= pos < input.len() && starts_number(input[pos]) {
        match number_at(input, pos) {
            Err(e) => Err(e),
            Ok((a, end)) => {
                proof {
                    lemma_number_end(input, pos);
                    lemma_spaces_end(input, end);
                }
                numbers_from(input, spaces_end(input, end), acc.push(a))
            },
        }
    } else {
        Ok((acc, pos))
    }
}

/// The noun that begins at `pos`: one number is an atom, several are a list.
/// Where no number begins, the byte there is unexpected.
pub open spec fn noun_at(input: Seq<u8>, pos: int) -> Result<Option<(Token, int)>, ErrorKind> {
    match numbers_from(input, pos, Seq::empty()) {
        Err(e) => Err(e),
        Ok((atoms, end)) => if atoms.len() == 1 {
            Ok(Some((Token::Noun(Value::Atom(atoms[0])), end)))
        } else if atoms.len() > 1 {
            Ok(Some((Token::Noun(Value::List(atoms)), end)))
        } else {
            Err(ErrorKind::Unexpected(input[pos] as char))
        },
    }
}

/// The verb that is spelled `name`, which ends at `end`.
pub open spec fn verb_named(name: Seq<u8>, end: int) -> Result<Option<(Token, int)>, ErrorKind> {
    match lookup(name) {
        Some(p) => Ok(Some((Token::Verb(p), end))),
        None => Err(ErrorKind::Unimplemented("primitive")),
    }
}

/// The word that begins at `pos`, which holds neither blank space nor a
/// comment, and the position after the word.
///
/// A symbol, with a `.` or `:` behind it if there is one, and a letter with
/// a `.` or `:` behind it name a primitive. Parentheses are words of their
/// own. Anything else must be a run of numbers.
pub open spec fn word_at(input: Seq<u8>, pos: int) -> Result<Option<(Token, int)>, ErrorKind> {
    let c = input[pos];
    let inflected = pos + 1 < input.len() && inflections().contains(input[pos + 1]);
    if symbols().contains(c) {
        if inflected {
            verb_named(input.subrange(pos, pos + 2), pos + 2)
        } else {
            verb_named(input.subrange(pos, pos + 1), pos + 1)
        }
    } else if is_letter(c) && inflected {
        verb_named(input.subrange(pos, pos + 2), pos + 2)
    } else if c == 0x28 {
        Ok(Some((Token::OpenParen, pos + 1)))
    } else if c == 0x29 {
        Ok(Some((Token::CloseParen, pos + 1)))
    } else {
        noun_at(input, pos)
    }
}

/// The next word at or after `pos` and the position after it, or nothing if
/// only blank space and comments are left.
pub open spec fn word_from(input: Seq<u8>, pos: int) -> Result<Option<(Token, int)>, ErrorKind> {
    let start = blank_end(input, pos);
    if 0 <= start < input.len() {
        word_at(input, start)
    } else {
        Ok(None)
    }
}

/// The words from `pos` on, behind those of `acc`.
pub open spec fn words_from(input: Seq<u8>, pos: int, acc: Seq<Token>) -> Result<
    Seq<Token>,
    ErrorKind,
>
    decreases input.len() - pos,
{
    if 0 <= pos <= input.len() {
        match word_from(input, pos) {
            Err(e) => Err(e),
            Ok(None) => Ok(acc),
            Ok(Some((t, next))) => {
                proof {
                    lemma_word_from(input, pos);
                }
                words_from(input, next, acc.push(t))
            },
        }
    } else {
        Ok(acc)
    }
}

/// The words of a line of text.
pub open spec fn scanned(input: Seq<u8>) -> Result<Seq<Token>, ErrorKind> {
    words_from(input, 0, Seq::empty())
}

/// What came of scanning: what the words stand for, or the kind of the error.
pub open spec fn sentence_outcome(r: Result<Sentence, Error>) -> Result<Seq<Token>, ErrorKind> {
    match r {
        Ok(words) => Ok(tokens(words@)),
        Err(e) => Err(e@),
    }
}

/// The bytes of a number end within the input, and behind its first byte.
pub proof fn lemma_number_end(input: Seq<u8>, pos: int)
    requires
        0 <= pos <= input.len(),
    ensures
        pos <= number_end(input, pos) <= input.len(),
        pos < input.len() && is_number_byte(input[pos]) ==> pos < number_end(input, pos),
        forall|i: int| pos <= i < number_end(input, pos) ==> is_number_byte(#[trigger] input[i]),
        number_end(input, pos) < input.len() ==> !is_number_byte(input[number_end(input, pos)]),
    decreases input.len() - pos,
{
    if pos < input.len() && is_number_byte(input[pos]) {
        lemma_number_end(input, pos + 1);
    }
}

/// Blank space and comments end within the input.
pub proof fn lemma_blank_end(input: Seq<u8>, pos: int)
    requires
        0 <= pos <= input.len(),
    ensures
        pos <= blank_end(input, pos) <= input.len(),
    decreases input.len() - pos,
{
    lemma_spaces_end(input, pos);
    let p = spaces_end(input, pos);
    if p < input.len() && has_prefix_at(input, p, comment_mark()) {
        lemma_line_end(input, p);
        lemma_blank_end(input, line_end(input, p));
    }
}

/// A run of numbers ends within the input, and behind `pos` if it holds a number.
pub proof fn lemma_numbers_from(input: Seq<u8>, pos: int, acc: Seq<Atom>)
    requires
        0 <= pos <= input.len(),
    ensures
        match numbers_from(input, pos, acc) {
            Ok((atoms, end)) => {
                &&& pos <= end <= input.len()
                &&& acc.len() <= atoms.len()
                &&& acc.len() < atoms.len() ==> pos < end
            },
            Err(_) => true,
        },
    decreases input.len() - pos,
{
    if pos < input.len() && starts_number(input[pos]) {
        match number_at(input, pos) {
            Err(_) => {},
            Ok((a, end)) => {
                lemma_number_end(input, pos);
                lemma_spaces_end(input, end);
                lemma_numbers_from(input, spaces_end(input, end), acc.push(a));
            },
        }
    }
}

/// Every word takes up at least one byte, and ends within the input.
pub proof fn lemma_word_from(input: Seq<u8>, pos: int)
    requires
        0 <= pos <= input.len(),
    ensures
        match word_from(input, pos) {
            Ok(Some((_, next))) => pos < next <= input.len(),
            _ => true,
        },
{
    lemma_blank_end(input, pos);
    let start = blank_end(input, pos);
    if start < input.len() {
        lemma_numbers_from(input, start, Seq::empty());
    }
}

/// True if no word can begin with the byte at `pos`: it is no symbol, no
/// parenthesis, no digit and no underscore, and no letter with a `.` or `:`
/// behind it.
pub open spec fn begins_no_word(input: Seq<u8>, pos: int) -> bool {
    let c = input[pos];
    &&& !symbols().contains(c)
    &&& !(is_letter(c) && pos + 1 < input.len() && inflections().contains(input[pos + 1]))
    &&& c != 0x28
    &&& c != 0x29
    &&& !starts_number(c)
}

/// Text whose first byte after blank space and comments can begin no word
/// does not scan: that byte is reported as unexpected.
pub proof fn lemma_unexpected_byte(input: Seq<u8>)
    requires
        0 <= blank_end(input, 0) < input.len(),
        begins_no_word(input, blank_end(input, 0)),
    ensures
        scanned(input) == Err::<Seq<Token>, ErrorKind>(
            ErrorKind::Unexpected(input[blank_end(input, 0)] as char),
        ),
{
    let start = blank_end(input, 0);
    assert(numbers_from(input, start, Seq::empty()) == Ok::<(Seq<Atom>, int), ErrorKind>(
        (Seq::empty(), start),
    ));
}

/// `num_complex`'s `FromStr` for `Complex64`, on the text that the bytes spell.
/// Whether it reads a number, and which number, or else which error it
/// reports, depends on the text alone.
#[verifier::external_body]
fn parse_number(text: &Vec<u8>) -> (r: Result<
    Atom,
    num_complex::ParseComplexError<std::num::ParseFloatError>,
>)
    ensures
        match r {
            Ok(a) => parsed_number(text@) matches Ok(parts) && same_parts(a@, parts),
            Err(e) => parsed_number(text@) == Err::<(u64, u64), Seq<char>>(parse_error_text(e)),
        },
{
    match String::from_utf8_lossy(text).parse::<num_complex::Complex64>() {
        Ok(c) => Ok(Atom { re: c.re.to_bits(), im: c.im.to_bits() }),
        Err(e) => Err(e),
    }
}

/// Scans a line of text into a sentence.
pub fn scan_sentence(s: &str) -> (r: Result<Sentence, Error>)
    ensures
        sentence_outcome(r) == scanned(s.spec_bytes()),
{
    let mut lex = Lex::new(s.as_bytes());
    let mut sentence: Sentence = Vec::new();
    assert(tokens(sentence@) =~= Seq::<Token>::empty());
    loop
        invariant_except_break
            lex.wf(),
            lex.input() == s.spec_bytes(),
            words_from(lex.input(), lex.position(), tokens(sentence@)) == scanned(s.spec_bytes()),
        ensures
            scanned(s.spec_bytes()) == Ok::<Seq<Token>, ErrorKind>(tokens(sentence@)),
        decreases lex.input().len() - lex.position(),
    {
        let ghost before = tokens(sentence@);
        match scan_word(&mut lex) {
            Ok(Some(word)) => {
                sentence.push(word);
                assert(tokens(sentence@) =~= before.push(word@));
            },
            Ok(None) => {
                break ;
            },
            Err(e) => {
                return Err(e);
            },
        }
    }
    Ok(sentence)
}

/// Attempts to scan one word.
///
/// There are three possible outcomes:
/// 1. `Ok(Some(x))` -- successfully read one.
/// 2. `Ok(None)` -- nothing but blank space and comments is left.
/// 3. `Err(..)` -- part of a word is here but it's invalid.
pub fn scan_word(lex: &mut Lex) -> (r: Result<Option<Word>, Error>)
    requires
        old(lex).wf(),
    ensures
        final(lex).wf(),
        final(lex).input() == old(lex).input(),
        match r {
            Ok(Some(w)) => word_from(old(lex).input(), old(lex).position()) == Ok::<
                Option<(Token, int)>,
                ErrorKind,
            >(Some((w@, final(lex).position()))) && old(lex).position() < final(lex).position(),
            Ok(None) => word_from(old(lex).input(), old(lex).position()) == Ok::<
                Option<(Token, int)>,
                ErrorKind,
            >(None),
            Err(e) => word_from(old(lex).input(), old(lex).position()) == Err::<
                Option<(Token, int)>,
                ErrorKind,
            >(e@),
        },
{
    let mark: [u8; 3] = [0x4eu8, 0x42u8, 0x2eu8];
    assert(mark@ =~= comment_mark());
    loop
        invariant_except_break
            lex.wf(),
            lex.input() == old(lex).input(),
            old(lex).position() <= lex.position(),
            mark@ == comment_mark(),
            blank_end(lex.input(), lex.position()) == blank_end(
                old(lex).input(),
                old(lex).position(),
            ),
        ensures
            lex.wf(),
            lex.input() == old(lex).input(),
            old(lex).position() <= lex.position(),
            lex.position() == blank_end(old(lex).input(), old(lex).position()),
            !lex.at_end(),
        decreases lex.input().len() - lex.position(),
    {
        proof {
            lemma_spaces_end(lex.input(), lex.position());
        }
        lex.drop_whitespace();
        if lex.is_end() {
            return Ok(None);
        }
        if lex.starts_with(&mark) {
            proof {
                lemma_line_end(lex.input(), lex.position());
            }
            lex.drop_line();
        } else {
            break ;
        }
    }
    let ghost start = lex.position();
    let symbols: [u8; 13] = [
        0x23u8,
        0x24u8,
        0x25u8,
        0x26u8,
        0x2au8,
        0x2bu8,
        0x2du8,
        0x2fu8,
        0x3cu8,
        0x3du8,
        0x3eu8,
        0x3fu8,
        0x40u8,
    ];
    let inflections: [u8; 2] = [0x2eu8, 0x3au8];
    assert(symbols@ =~= self::symbols());
    assert(inflections@ =~= self::inflections());
    if let Some(sym) = lex.take_any(&symbols) {
        let mut s: Vec<u8> = vec![sym];
        if let Some(dots) = lex.take_any(&inflections) {
            s.push(dots);
            assert(s@ =~= lex.input().subrange(start, start + 2));
        } else {
            assert(s@ =~= lex.input().subrange(start, start + 1));
        }
        return match Primitive::by_name(s.as_slice()) {
            Ok(p) => Ok(Some(Word::Verb(p))),
            Err(e) => Err(e),
        };
    } else if byte_is_letter(lex.peek()) {
        if let Some(dots) = lex.lookahead(1) {
            if dots == 0x2e || dots == 0x3a {
                let s: Vec<u8> = vec![lex.take(), lex.take()];
                assert(s@ =~= lex.input().subrange(start, start + 2));
                return match Primitive::by_name(s.as_slice()) {
                    Ok(p) => Ok(Some(Word::Verb(p))),
                    Err(e) => Err(e),
                };
            }
        }
    } else if lex.take_if(0x28) {
        return Ok(Some(Word::OpenParen));
    } else if lex.take_if(0x29) {
        return Ok(Some(Word::CloseParen));
    }
    scan_noun(lex)
}

/// Takes as many contiguous numbers as there are as one list-of-numbers "word".
fn scan_noun(lex: &mut Lex) -> (r: Result<Option<Word>, Error>)
    requires
        old(lex).wf(),
        !old(lex).at_end(),
    ensures
        final(lex).wf(),
        final(lex).input() == old(lex).input(),
        match r {
            Ok(Some(w)) => noun_at(old(lex).input(), old(lex).position()) == Ok::<
                Option<(Token, int)>,
                ErrorKind,
            >(Some((w@, final(lex).position()))) && old(lex).position() < final(lex).position(),
            Ok(None) => false,
            Err(e) => noun_at(old(lex).input(), old(lex).position()) == Err::<
                Option<(Token, int)>,
                ErrorKind,
            >(e@),
        },
{
    let mut numbers: Vec<Atom> = Vec::new();
    loop
        invariant_except_break
            lex.wf(),
            lex.input() == old(lex).input(),
            old(lex).position() <= lex.position(),
            numbers@.len() > 0 ==> old(lex).position() < lex.position(),
            numbers@.len() == 0 ==> old(lex).position() == lex.position(),
            numbers_from(lex.input(), lex.position(), numbers@) == numbers_from(
                old(lex).input(),
                old(lex).position(),
                Seq::empty(),
            ),
        ensures
            lex.wf(),
            lex.input() == old(lex).input(),
            numbers@.len() > 0 ==> old(lex).position() < lex.position(),
            numbers@.len() == 0 ==> old(lex).position() == lex.position(),
            numbers_from(old(lex).input(), old(lex).position(), Seq::empty()) == Ok::<
                (Seq<Atom>, int),
                ErrorKind,
            >((numbers@, lex.position())),
        decreases lex.input().len() - lex.position(),
    {
        let ghost at = lex.position();
        match scan_number(lex) {
            Ok(Some(number)) => {
                numbers.push(number);
                proof {
                    lemma_spaces_end(lex.input(), lex.position());
                }
                lex.drop_whitespace();
            },
            Ok(None) => {
                break ;
            },
            Err(e) => {
                return Err(e);
            },
        }
    }
    if numbers.len() == 1 {
        Ok(Some(Word::Noun(Noun::Atom(numbers.remove(0)))))
    } else if numbers.len() > 0 {
        Ok(Some(Word::Noun(Noun::from_vec(numbers))))
    } else {
        Err(Error::Unexpected(lex.peek() as char))
    }
}

/// Take one number, if there is one.
pub fn scan_number(lex: &mut Lex) -> (r: Result<Option<Atom>, Error>)
    requires
        old(lex).wf(),
    ensures
        final(lex).wf(),
        final(lex).input() == old(lex).input(),
        old(lex).at_end() || !starts_number(old(lex).current()) ==> r == Ok::<Option<Atom>, Error>(
            None,
        ) && final(lex).position() == old(lex).position(),
        !old(lex).at_end() && starts_number(old(lex).current()) ==> match r {
            Ok(Some(a)) => number_at(old(lex).input(), old(lex).position()) == Ok::<
                (Atom, int),
                ErrorKind,
            >((a, final(lex).position())) && old(lex).position() < final(lex).position(),
            Ok(None) => false,
            Err(e) => number_at(old(lex).input(), old(lex).position()) == Err::<
                (Atom, int),
                ErrorKind,
            >(e@),
        },
{
    if lex.is_end() {
        return Ok(None);
    }
    if byte_is_digit(lex.peek()) || lex.peek() == 0x5f {
        let ghost start = lex.position();
        let mut text: Vec<u8> = Vec::new();
        loop
            invariant_except_break
                lex.wf(),
                lex.input() == old(lex).input(),
                start == old(lex).position(),
                start <= lex.position(),
                !old(lex).at_end(),
                starts_number(old(lex).current()),
                number_end(lex.input(), lex.position()) == number_end(lex.input(), start),
                text@ == number_text(lex.input(), start, lex.position()),
            ensures
                lex.wf(),
                lex.input() == old(lex).input(),
                start == old(lex).position(),
                lex.position() == number_end(lex.input(), start),
                lex.at_end() || !is_letter(lex.current()),
                text@ == number_text(lex.input(), start, lex.position()),
            decreases lex.input().len() - lex.position(),
        {
            let ghost before = text@;
            match lex.try_peek() {
                Some(c) => {
                    if c == 0x2e || byte_is_digit(c) || c == 0x65 {
                        // This will accept '123.13.12313', which then fails
                        // to parse as a number.
                        text.push(lex.take());
                        assert(text@ =~= number_text(lex.input(), start, lex.position()));
                    } else if c == 0x5f {
                        lex.drop();
                        text.push(0x2d);
                        assert(text@ =~= number_text(lex.input(), start, lex.position()));
                    } else if byte_is_letter(c) {
                        return Err(Error::Unexpected(c as char));
                    } else {
                        break ;
                    }
                },
                None => {
                    break ;
                },
            }
        }
        proof {
            lemma_number_end(lex.input(), start);
        }
        let number = if text.len() == 1 && text[0] == 0x2d {
            assert(text@ =~= seq![0x2du8]);
            Atom::from_real(double::INFINITY)
        } else if text.len() == 2 && text[0] == 0x2d && text[1] == 0x2d {
            assert(text@ =~= seq![0x2du8, 0x2du8]);
            Atom::from_real(double::NEG_INFINITY)
        } else {
            assert(text@ != seq![0x2du8]) by {
                if text@ == seq![0x2du8] {
                    assert(seq![0x2du8].len() == 1);
                    assert(seq![0x2du8][0] == 0x2du8);
                }
            }
            assert(text@ != seq![0x2du8, 0x2du8]) by {
                if text@ == seq![0x2du8, 0x2du8] {
                    assert(seq![0x2du8, 0x2du8].len() == 2);
                    assert(seq![0x2du8, 0x2du8][0] == 0x2du8);
                    assert(seq![0x2du8, 0x2du8][1] == 0x2du8);
                }
            }
            match parse_number(&text) {
                Ok(a) => Atom::new(double::canonical(a.re), double::canonical(a.im)),
                Err(e) => {
                    return Err(Error::ParseNumber(e));
                },
            }
        };
        Ok(Some(number))
    } else {
        Ok(None)  // Doesn't look like a number
    }
}

} // verus!
