//! Evaluate sentences.
//!
//! Evaluation proceeds from right to left over a stack of words, looking at
//! each position for a pattern that can be evaluated and replaced by its
//! result. A cursor marks the position; after every step it moves one word to
//! the left, so that a result can at once take part in the next pattern.

use vstd::prelude::*;
use vstd::string::StringSliceAdditionalSpecFns;
use crate::error::{error_text, Error, ErrorKind};
use crate::atom::Atom;
use crate::double;
use crate::noun::{Noun, Value};
use crate::primitive::Primitive;
use crate::scan::{begins_no_word, blank_end, lemma_unexpected_byte, scan_sentence, scanned};
use crate::text::{chars_of, string_of};
use crate::verb::{dyad_spec, monad_spec, Verb};
use crate::word::{clone_sentence, token_text, tokens, Sentence, Token, Word};

verus! {

/// True if the words at `cursor` are a verb and a noun, and nothing to the
/// left of them could be the verb's other operand: the sentence starts there,
/// or a verb or an open parenthesis stands before them.
pub open spec fn monad_applies(stack: Seq<Token>, cursor: int) -> bool {
    &&& 0 <= cursor
    &&& cursor + 1 < stack.len()
    &&& cursor == 0 || stack[cursor - 1] is Verb || stack[cursor - 1] is OpenParen
    &&& stack[cursor] is Verb
    &&& stack[cursor + 1] is Noun
}

/// True if the words at `cursor` are a noun, a verb and a noun.
pub open spec fn dyad_applies(stack: Seq<Token>, cursor: int) -> bool {
    &&& 0 <= cursor
    &&& cursor + 2 < stack.len()
    &&& stack[cursor] is Noun
    &&& stack[cursor + 1] is Verb
    &&& stack[cursor + 2] is Noun
}

/// True if the words at `cursor` are a noun or a verb in parentheses.
pub open spec fn paren_applies(stack: Seq<Token>, cursor: int) -> bool {
    &&& 0 <= cursor
    &&& cursor + 2 < stack.len()
    &&& stack[cursor] is OpenParen
    &&& stack[cursor + 1] is Verb || stack[cursor + 1] is Noun
    &&& stack[cursor + 2] is CloseParen
}

/// The stack after the monad rule: where it applies, the verb and the noun
/// at `cursor` give way to what the verb makes of the noun.
pub open spec fn after_monad(stack: Seq<Token>, cursor: int) -> Result<Seq<Token>, ErrorKind> {
    if monad_applies(stack, cursor) {
        match monad_spec(stack[cursor]->Verb_0, stack[cursor + 1]->Noun_0) {
            Ok(v) => Ok(stack.update(cursor, Token::Noun(v)).remove(cursor + 1)),
            Err(e) => Err(e),
        }
    } else {
        Ok(stack)
    }
}

/// The stack and the cursor after the dyad rule or, where that does not
/// apply, the parenthesis rule. The dyad rule puts what the verb makes of the
/// two nouns in the place of the three words. The parenthesis rule drops the
/// parentheses and leaves the cursor after the word that was between them.
pub open spec fn after_dyad_or_paren(stack: Seq<Token>, cursor: int) -> Result<
    (Seq<Token>, int),
    ErrorKind,
> {
    if dyad_applies(stack, cursor) {
        match dyad_spec(
            stack[cursor + 1]->Verb_0,
            stack[cursor]->Noun_0,
            stack[cursor + 2]->Noun_0,
        ) {
            Ok(v) => Ok(
                (stack.update(cursor, Token::Noun(v)).remove(cursor + 1).remove(cursor + 1), cursor),
            ),
            Err(e) => Err(e),
        }
    } else if paren_applies(stack, cursor) {
        Ok((stack.remove(cursor).remove(cursor + 1), cursor + 1))
    } else {
        Ok((stack, cursor))
    }
}

/// What is left of the stack when the rules have been tried at `cursor` and
/// then at every position to its left, down to the start of the sentence.
pub open spec fn reduced(stack: Seq<Token>, cursor: int) -> Result<Seq<Token>, ErrorKind>
    decreases stack.len() + cursor,
{
    if cursor < 0 || cursor > stack.len() {
        Ok(stack)
    } else {
        match after_monad(stack, cursor) {
            Err(e) => Err(e),
            Ok(first) => match after_dyad_or_paren(first, cursor) {
                Err(e) => Err(e),
                Ok((second, next)) => if next == 0 {
                    Ok(second)
                } else {
                    reduced(second, next - 1)
                },
            },
        }
    }
}

/// The result of a sentence: nothing for an empty sentence, the one noun or
/// verb that it reduces to, or a syntax error if anything else is left.
pub open spec fn evaluated(sentence: Seq<Token>) -> Result<Option<Token>, ErrorKind> {
    match reduced(sentence, sentence.len() as int) {
        Err(e) => Err(e),
        Ok(stack) => if stack.len() == 0 {
            Ok(None)
        } else if stack.len() == 1 && (stack[0] is Noun || stack[0] is Verb) {
            Ok(Some(stack[0]))
        } else {
            Err(ErrorKind::SyntaxError)
        },
    }
}

/// The result of a line of text: that of the sentence that it scans to.
pub open spec fn interpreted(input: Seq<u8>) -> Result<Option<Token>, ErrorKind> {
    match scanned(input) {
        Ok(sentence) => evaluated(sentence),
        Err(e) => Err(e),
    }
}

/// What is printed for a line of text: its result, on one line of at most
/// `OUTPUT_WIDTH` columns; nothing, where the line has no result; or the
/// word `error` and what went wrong.
pub open spec fn line_text(input: Seq<u8>) -> Seq<char> {
    match interpreted(input) {
        Ok(Some(t)) => token_text(t, Some(OUTPUT_WIDTH)),
        Ok(None) => Seq::empty(),
        Err(e) => "error: "@ + error_text(e),
    }
}

/// What came of a sentence: what its result stands for, or the kind of the error.
pub open spec fn word_outcome(r: Result<Option<Word>, Error>) -> Result<Option<Token>, ErrorKind> {
    match r {
        Ok(Some(w)) => Ok(Some(w@)),
        Ok(None) => Ok(None),
        Err(e) => Err(e@),
    }
}

/// The number of columns that a result may take up.
pub const OUTPUT_WIDTH: usize = 80;

/// An interpreter session.
#[derive(Debug)]
pub struct Session {}

impl Default for Session {
    fn default() -> (s: Session)
        ensures
            s == (Session {  }),
    {
        Session {  }
    }
}

impl Session {
    pub fn new() -> (s: Session)
        ensures
            s == (Session {  }),
    {
        Session {  }
    }

    /// Evaluate one line (as text) and return the result (as text).
    pub fn eval_text(&mut self, line: &str) -> (r: String)
        ensures
            r@ == line_text(line.spec_bytes()),
            *final(self) == *old(self),
    {
        let outcome = match scan_sentence(line) {
            Ok(sentence) => self.eval_sentence(&sentence),
            Err(e) => Err(e),
        };
        match outcome {
            Ok(Some(word)) => word.display(Some(OUTPUT_WIDTH)),
            Ok(None) => String::new(),
            Err(err) => {
                let mut text = chars_of("error: ");
                let mut detail = err.text();
                text.append(&mut detail);
                string_of(&text)
            },
        }
    }

    /// Evaluate a parsed sentence and return the result.
    pub fn eval_sentence(&mut self, sentence: &Sentence) -> (r: Result<Option<Word>, Error>)
        ensures
            word_outcome(r) == evaluated(tokens(sentence@)),
            *final(self) == *old(self),
    {
        let mut stack: Vec<Word> = clone_sentence(sentence);
        // We're currently trying to evaluate the words from the cursor on.
        let mut cursor: usize = stack.len();
        loop
            invariant_except_break
                cursor <= stack.len(),
                reduced(tokens(stack@), cursor as int) == reduced(
                    tokens(sentence@),
                    sentence@.len() as int,
                ),
            ensures
                reduced(tokens(sentence@), sentence@.len() as int) == Ok::<Seq<Token>, ErrorKind>(
                    tokens(stack@),
                ),
            decreases stack.len() + cursor,
        {
            match monad_step(&mut stack, cursor) {
                Ok(()) => {},
                Err(e) => {
                    return Err(e);
                },
            }
            match dyad_or_paren_step(&mut stack, cursor) {
                Ok(next) => {
                    cursor = next;
                },
                Err(e) => {
                    return Err(e);
                },
            }
            if cursor == 0 {
                break ;
            } else {
                cursor -= 1;
            }
        }
        if stack.len() == 0 {
            Ok(None)
        } else if stack.len() == 1 {
            let w = stack.remove(0);
            if is_noun_or_verb(&w) {
                Ok(Some(w))
            } else {
                Err(Error::SyntaxError)
            }
        } else {
            // If the stack wasn't reduced to a single word that's probably
            // because it contains some grammar that's either invalid, or at least not
            // implemented yet.
            Err(Error::SyntaxError)
        }
    }
}

/// Replacing a word replaces what it stands for.
proof fn lemma_tokens_update(words: Seq<Word>, i: int, w: Word)
    requires
        0 <= i < words.len(),
    ensures
        tokens(words.update(i, w)) == tokens(words).update(i, w@),
{
    assert(tokens(words.update(i, w)) =~= tokens(words).update(i, w@));
}

/// Removing a word removes what it stands for.
proof fn lemma_tokens_remove(words: Seq<Word>, i: int)
    requires
        0 <= i < words.len(),
    ensures
        tokens(words.remove(i)) == tokens(words).remove(i),
{
    assert(tokens(words.remove(i)) =~= tokens(words).remove(i));
}

/// Tries the monad rule at `cursor`:
/// START ^ VERB:v NOUN:y ..., VERB ^ VERB:v NOUN:y or OPENPAREN ^ VERB:v NOUN:y
/// become the result of applying v to y.
fn monad_step(stack: &mut Vec<Word>, cursor: usize) -> (r: Result<(), Error>)
    requires
        cursor <= old(stack)@.len(),
    ensures
        match r {
            Ok(()) => after_monad(tokens(old(stack)@), cursor as int) == Ok::<
                Seq<Token>,
                ErrorKind,
            >(tokens(final(stack)@)),
            Err(e) => after_monad(tokens(old(stack)@), cursor as int) == Err::<
                Seq<Token>,
                ErrorKind,
            >(e@),
        },
{
    if stack.len() - cursor > 1 && (cursor == 0 || is_verb_or_open(&stack[cursor - 1])) {
        let found: Option<Result<Noun, Error>> = match (&stack[cursor], &stack[cursor + 1]) {
            (Word::Verb(v), Word::Noun(y)) => Some(v.monad(y)),
            _ => None,
        };
        match found {
            Some(Ok(noun)) => {
                let word = Word::Noun(noun);
                proof {
                    lemma_tokens_update(stack@, cursor as int, word);
                    lemma_tokens_remove(stack@.update(cursor as int, word), cursor + 1);
                }
                stack.set(cursor, word);
                stack.remove(cursor + 1);
                Ok(())
            },
            Some(Err(e)) => Err(e),
            None => Ok(()),
        }
    } else {
        Ok(())
    }
}

/// Tries the dyad rule at `cursor`, where NOUN:x VERB:v NOUN:y become the
/// result of applying v to x and y, and else the parenthesis rule, where
/// OPEN w CLOSE becomes w. Returns where the cursor then stands.
fn dyad_or_paren_step(stack: &mut Vec<Word>, cursor: usize) -> (r: Result<usize, Error>)
    requires
        cursor <= old(stack)@.len(),
    ensures
        match r {
            Ok(next) => after_dyad_or_paren(tokens(old(stack)@), cursor as int) == Ok::<
                (Seq<Token>, int),
                ErrorKind,
            >((tokens(final(stack)@), next as int)) && next <= final(stack)@.len(),
            Err(e) => after_dyad_or_paren(tokens(old(stack)@), cursor as int) == Err::<
                (Seq<Token>, int),
                ErrorKind,
            >(e@),
        },
{
    if stack.len() - cursor > 2 {
        let found: Option<Result<Noun, Error>> = match (
            &stack[cursor],
            &stack[cursor + 1],
            &stack[cursor + 2],
        ) {
            (Word::Noun(x), Word::Verb(v), Word::Noun(y)) => Some(v.dyad(x, y)),
            _ => None,
        };
        match found {
            Some(Ok(noun)) => {
                let word = Word::Noun(noun);
                proof {
                    lemma_tokens_update(stack@, cursor as int, word);
                    lemma_tokens_remove(stack@.update(cursor as int, word), cursor + 1);
                    lemma_tokens_remove(
                        stack@.update(cursor as int, word).remove(cursor + 1),
                        cursor + 1,
                    );
                }
                stack.set(cursor, word);
                stack.remove(cursor + 1);
                stack.remove(cursor + 1);
                Ok(cursor)
            },
            Some(Err(e)) => Err(e),
            None => {
                if is_open(&stack[cursor]) && is_noun_or_verb(&stack[cursor + 1]) && is_close(
                    &stack[cursor + 2],
                ) {
                    proof {
                        lemma_tokens_remove(stack@, cursor as int);
                        lemma_tokens_remove(stack@.remove(cursor as int), cursor + 1);
                    }
                    stack.remove(cursor);
                    stack.remove(cursor + 1);
                    Ok(cursor + 1)
                } else {
                    Ok(cursor)
                }
            },
        }
    } else {
        Ok(cursor)
    }
}

/// Tells whether a word is a verb or an open parenthesis.
fn is_verb_or_open(w: &Word) -> (r: bool)
    ensures
        r == (w@ is Verb || w@ is OpenParen),
{
    match w {
        Word::Verb(_) => true,
        Word::OpenParen => true,
        _ => false,
    }
}

/// Tells whether a word is a noun or a verb.
fn is_noun_or_verb(w: &Word) -> (r: bool)
    ensures
        r == (w@ is Noun || w@ is Verb),
{
    match w {
        Word::Noun(_) => true,
        Word::Verb(_) => true,
        _ => false,
    }
}

/// Tells whether a word is an open parenthesis.
fn is_open(w: &Word) -> (r: bool)
    ensures
        r == (w@ is OpenParen),
{
    match w {
        Word::OpenParen => true,
        _ => false,
    }
}

/// Tells whether a word is a close parenthesis.
fn is_close(w: &Word) -> (r: bool)
    ensures
        r == (w@ is CloseParen),
{
    match w {
        Word::CloseParen => true,
        _ => false,
    }
}

/// Whatever goes wrong with a line, while it is scanned or while it is
/// evaluated, what is printed for it begins with `error: ` and goes on with
/// what went wrong.
pub proof fn lemma_errors_are_reported(input: Seq<u8>)
    requires
        interpreted(input) is Err,
    ensures
        line_text(input) == "error: "@ + error_text(interpreted(input)->Err_0),
        line_text(input).len() >= 7,
        line_text(input).subrange(0, 7) == "error: "@,
{
    reveal_strlit("error: ");
    assert(line_text(input).subrange(0, 7) =~= "error: "@);
}

/// A line that does not scan is not evaluated: what is printed for it is the
/// scanner's error.
pub proof fn lemma_scan_errors_are_reported(input: Seq<u8>)
    requires
        scanned(input) is Err,
    ensures
        line_text(input) == "error: "@ + error_text(scanned(input)->Err_0),
{
}

/// For a line whose first byte after blank space and comments can begin no
/// word, an error is printed that names that byte as unexpected.
pub proof fn lemma_unknown_text_is_an_error(input: Seq<u8>)
    requires
        0 <= blank_end(input, 0) < input.len(),
        begins_no_word(input, blank_end(input, 0)),
    ensures
        line_text(input) == "error: "@ + error_text(
            ErrorKind::Unexpected(input[blank_end(input, 0)] as char),
        ),
{
    lemma_unexpected_byte(input);
}

/// An empty sentence has no result.
pub proof fn lemma_empty_sentence()
    ensures
        evaluated(Seq::empty()) == Ok::<Option<Token>, ErrorKind>(None),
{
    reveal_with_fuel(reduced, 2);
}

/// A sentence of one noun or one verb evaluates to that word, and a lone
/// parenthesis is a syntax error.
pub proof fn lemma_one_word_sentence(t: Token)
    ensures
        evaluated(seq![t]) == if t is Noun || t is Verb {
            Ok::<Option<Token>, ErrorKind>(Some(t))
        } else {
            Err::<Option<Token>, ErrorKind>(ErrorKind::SyntaxError)
        },
{
    reveal_with_fuel(reduced, 3);
    let sentence = seq![t];
    assert(after_monad(sentence, 1) == Ok::<Seq<Token>, ErrorKind>(sentence));
    assert(after_monad(sentence, 0) == Ok::<Seq<Token>, ErrorKind>(sentence));
}

/// A sentence of a verb and a noun evaluates to what the verb, as a monad,
/// makes of the noun.
pub proof fn lemma_monad_sentence(v: Primitive, y: Value)
    ensures
        evaluated(seq![Token::Verb(v), Token::Noun(y)]) == match monad_spec(v, y) {
            Ok(r) => Ok::<Option<Token>, ErrorKind>(Some(Token::Noun(r))),
            Err(e) => Err::<Option<Token>, ErrorKind>(e),
        },
{
    reveal_with_fuel(reduced, 4);
    let sentence = seq![Token::Verb(v), Token::Noun(y)];
    assert(after_monad(sentence, 2) == Ok::<Seq<Token>, ErrorKind>(sentence));
    assert(after_monad(sentence, 1) == Ok::<Seq<Token>, ErrorKind>(sentence));
    assert(monad_applies(sentence, 0));
    match monad_spec(v, y) {
        Ok(r) => {
            let result = seq![Token::Noun(r)];
            assert(sentence.update(0, Token::Noun(r)).remove(1) =~= result);
            assert(after_monad(sentence, 0) == Ok::<Seq<Token>, ErrorKind>(result));
            assert(reduced(sentence, 0) == Ok::<Seq<Token>, ErrorKind>(result));
        },
        Err(e) => {
            assert(reduced(sentence, 0) == Err::<Seq<Token>, ErrorKind>(e));
        },
    }
}

/// A sentence of a noun, a verb and a noun evaluates to what the verb, as a
/// dyad, makes of the two nouns.
pub proof fn lemma_dyad_sentence(x: Value, v: Primitive, y: Value)
    ensures
        evaluated(seq![Token::Noun(x), Token::Verb(v), Token::Noun(y)]) == match dyad_spec(
            v,
            x,
            y,
        ) {
            Ok(r) => Ok::<Option<Token>, ErrorKind>(Some(Token::Noun(r))),
            Err(e) => Err::<Option<Token>, ErrorKind>(e),
        },
{
    reveal_with_fuel(reduced, 5);
    let sentence = seq![Token::Noun(x), Token::Verb(v), Token::Noun(y)];
    assert(after_monad(sentence, 3) == Ok::<Seq<Token>, ErrorKind>(sentence));
    assert(after_monad(sentence, 2) == Ok::<Seq<Token>, ErrorKind>(sentence));
    assert(after_monad(sentence, 1) == Ok::<Seq<Token>, ErrorKind>(sentence));
    assert(after_monad(sentence, 0) == Ok::<Seq<Token>, ErrorKind>(sentence));
    assert(dyad_applies(sentence, 0));
    match dyad_spec(v, x, y) {
        Ok(r) => {
            let result = seq![Token::Noun(r)];
            assert(sentence.update(0, Token::Noun(r)).remove(1).remove(1) =~= result);
            assert(after_dyad_or_paren(sentence, 0) == Ok::<(Seq<Token>, int), ErrorKind>(
                (result, 0),
            ));
            assert(reduced(sentence, 0) == Ok::<Seq<Token>, ErrorKind>(result));
        },
        Err(e) => {
            assert(reduced(sentence, 0) == Err::<Seq<Token>, ErrorKind>(e));
        },
    }
}

/// The sentence `0 % 0` evaluates to zero, and `1 % 0` to positive infinity.
pub proof fn lemma_division_by_zero_sentences()
    ensures
        evaluated(
            seq![
                Token::Noun(Value::Atom(Atom::zero())),
                Token::Verb(Primitive::Percent),
                Token::Noun(Value::Atom(Atom::zero())),
            ],
        ) == Ok::<Option<Token>, ErrorKind>(Some(Token::Noun(Value::Atom(Atom::zero())))),
        evaluated(
            seq![
                Token::Noun(Value::Atom(Atom::one())),
                Token::Verb(Primitive::Percent),
                Token::Noun(Value::Atom(Atom::zero())),
            ],
        ) == Ok::<Option<Token>, ErrorKind>(
            Some(Token::Noun(Value::Atom(Atom::from_real(double::INFINITY)))),
        ),
{
    lemma_dyad_sentence(Value::Atom(Atom::zero()), Primitive::Percent, Value::Atom(Atom::zero()));
    lemma_dyad_sentence(Value::Atom(Atom::one()), Primitive::Percent, Value::Atom(Atom::zero()));
}

/// The sentence of an atom, the verb `*` and zero evaluates to zero,
/// whatever the atom is, and so does zero times the atom.
pub proof fn lemma_times_zero_sentence(x: Atom, zero: Atom)
    requires
        zero.is_zero(),
    ensures
        evaluated(
            seq![
                Token::Noun(Value::Atom(x)),
                Token::Verb(Primitive::Star),
                Token::Noun(Value::Atom(zero)),
            ],
        ) == Ok::<Option<Token>, ErrorKind>(Some(Token::Noun(Value::Atom(Atom::zero())))),
        evaluated(
            seq![
                Token::Noun(Value::Atom(zero)),
                Token::Verb(Primitive::Star),
                Token::Noun(Value::Atom(x)),
            ],
        ) == Ok::<Option<Token>, ErrorKind>(Some(Token::Noun(Value::Atom(Atom::zero())))),
{
    lemma_dyad_sentence(Value::Atom(x), Primitive::Star, Value::Atom(zero));
    lemma_dyad_sentence(Value::Atom(zero), Primitive::Star, Value::Atom(x));
}

} // verus!
