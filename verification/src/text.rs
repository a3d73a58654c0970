//! Text as sequences of characters.

use vstd::prelude::*;
use vstd::std_specs::iter::IteratorSpec;

verus! {

/// How a character is printed for debugging: in single quotes, with an
/// escape where it needs one.
pub uninterp spec fn char_debug_text(c: char) -> Seq<char>;

/// How a string is printed for debugging: in double quotes, with escapes
/// where it needs them.
pub uninterp spec fn str_debug_text(s: Seq<char>) -> Seq<char>;

/// `String`'s `FromIterator` for characters: the string of the given characters.
#[verifier::external_body]
pub(crate) fn string_of(chars: &Vec<char>) -> (s: String)
    ensures
        s@ == chars@,
{
    chars.iter().collect()
}

/// The characters of a string, in order.
pub fn chars_of(s: &str) -> (chars: Vec<char>)
    ensures
        chars@ == s@,
{
    let mut chars: Vec<char> = Vec::new();
    let mut rest = s.chars();
    loop
        invariant_except_break
            rest.obeys_prophetic_iter_laws(),
            rest.decrease() is Some,
            chars@ + rest.remaining() == s@,
        ensures
            chars@ == s@,
        decreases rest.decrease()->0,
    {
        let ghost before = rest.remaining();
        match rest.next() {
            Some(c) => {
                chars.push(c);
                assert(chars@ + rest.remaining() =~= s@);
            },
            None => {
                assert(chars@ + rest.remaining() =~= chars@);
                break ;
            },
        }
    }
    chars
}

/// Tells whether two strings hold the same characters.
pub fn same_text(a: &str, b: &str) -> (r: bool)
    ensures
        r == (a@ == b@),
{
    let x = a.to_owned();
    let y = b.to_owned();
    x == y
}

/// The `Debug` form of a character.
#[verifier::external_body]
pub(crate) fn debug_char(c: char) -> (text: Vec<char>)
    ensures
        text@ == char_debug_text(c),
{
    format!("{:?}", c).chars().collect()
}

/// The `Debug` form of a string.
#[verifier::external_body]
pub(crate) fn debug_str(s: &str) -> (text: Vec<char>)
    ensures
        text@ == str_debug_text(s@),
{
    format!("{:?}", s).chars().collect()
}

} // verus!
