//! Words and sentences.
//!
//! The most interesting thing about the grammar is that a space separated list of numbers is a
//! single "word": this accounts for how `* 1 2 3` "knows" to multiply all the numbers: they're
//! effectively a single word which constitutes the argument.

use vstd::prelude::*;
use crate::noun::{value_text, Noun, Value};
use crate::primitive::{bytes_text, Primitive};
use crate::text::string_of;

verus! {

/// A sentence (like a statement) of code, on a single line.
pub type Sentence = Vec<Word>;

/// A single word.
///
/// Note that a list of numbers counts as a single word, even though it contains spaces.
/// So `1 2 3 + 4 5 6` is three words.
#[derive(Debug, PartialEq)]
pub enum Word {
    Noun(Noun),
    Verb(Primitive),
    OpenParen,
    CloseParen,
}

/// What a word stands for.
pub enum Token {
    Noun(Value),
    Verb(Primitive),
    OpenParen,
    CloseParen,
}

/// What the words of a sentence stand for, in order.
pub open spec fn tokens(words: Seq<Word>) -> Seq<Token> {
    Seq::new(words.len(), |i: int| words[i]@)
}

/// How a word is written within `limit` columns.
pub open spec fn token_text(t: Token, limit: Option<usize>) -> Seq<char> {
    match t {
        Token::Noun(v) => value_text(v, limit),
        Token::Verb(p) => bytes_text(p.spec_name()),
        Token::OpenParen => seq!['('],
        Token::CloseParen => seq![')'],
    }
}

impl View for Word {
    type V = Token;

    open spec fn view(&self) -> Token {
        match *self {
            Word::Noun(n) => Token::Noun(n@),
            Word::Verb(p) => Token::Verb(p),
            Word::OpenParen => Token::OpenParen,
            Word::CloseParen => Token::CloseParen,
        }
    }
}

impl Clone for Word {
    fn clone(&self) -> (w: Word)
        ensures
            w@ == self@,
    {
        match self {
            Word::Noun(n) => Word::Noun(n.clone()),
            Word::Verb(p) => Word::Verb(*p),
            Word::OpenParen => Word::OpenParen,
            Word::CloseParen => Word::CloseParen,
        }
    }
}

impl Word {
    /// Writes the word on one line, within `limit` columns if there is a limit.
    pub fn text(&self, limit: Option<usize>) -> (text: Vec<char>)
        ensures
            text@ == token_text(self@, limit),
    {
        match self {
            Word::Noun(n) => n.display(limit),
            Word::Verb(p) => p.text(),
            Word::OpenParen => vec!['('],
            Word::CloseParen => vec![')'],
        }
    }

    /// The word as a string, within `limit` columns if there is a limit.
    pub fn display(&self, limit: Option<usize>) -> (s: String)
        ensures
            s@ == token_text(self@, limit),
    {
        string_of(&self.text(limit))
    }
}

/// How a sentence is written: its words in full, with one space between them.
pub open spec fn sentence_text(words: Seq<Token>) -> Seq<char>
    decreases words.len(),
{
    if words.len() == 0 {
        seq![]
    } else if words.len() == 1 {
        token_text(words[0], None)
    } else {
        sentence_text(words.drop_last()) + seq![' '] + token_text(words.last(), None)
    }
}

/// Writes a sentence on one line.
pub fn display_sentence(sentence: &Sentence) -> (s: String)
    ensures
        s@ == sentence_text(tokens(sentence@)),
{
    let mut text: Vec<char> = Vec::new();
    let mut i: usize = 0;
    while i < sentence.len()
        invariant
            i <= sentence.len(),
            text@ == sentence_text(tokens(sentence@).take(i as int)),
        decreases sentence.len() - i,
    {
        let ghost before = text@;
        if i > 0 {
            text.push(' ');
        }
        let mut word = sentence[i].text(None);
        text.append(&mut word);
        proof {
            let done = tokens(sentence@).take(i + 1);
            assert(done.drop_last() =~= tokens(sentence@).take(i as int));
            assert(done.last() == sentence@[i as int]@);
            if i > 0 {
                assert(text@ =~= before + seq![' '] + token_text(done.last(), None));
            } else {
                assert(text@ =~= token_text(done[0], None));
            }
        }
        i += 1;
    }
    assert(tokens(sentence@).take(i as int) =~= tokens(sentence@));
    string_of(&text)
}

/// A copy of a sentence, word for word.
pub fn clone_sentence(sentence: &Sentence) -> (copy: Sentence)
    ensures
        tokens(copy@) == tokens(sentence@),
{
    let mut copy: Vec<Word> = Vec::new();
    let mut i: usize = 0;
    while i < sentence.len()
        invariant
            i <= sentence.len(),
            copy@.len() == i,
            forall|j: int| 0 <= j < i ==> copy@[j]@ == sentence@[j]@,
        decreases sentence.len() - i,
    {
        copy.push(sentence[i].clone());
        i += 1;
    }
    assert(tokens(copy@) =~= tokens(sentence@));
    copy
}

} // verus!
