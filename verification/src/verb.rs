//! Verbs (like functions or operators).
//!
//! Verbs have the interesting behavior that they can be applied either as a "monad"
//! with a single right argument (like a prefix operator), or as a "dyad" with left and right
//! arguments (like an infix operator).

use vstd::prelude::*;
use crate::error::{Error, ErrorKind};
use crate::noun::{Noun, Value};
use crate::primitive::{bytes_text, noun_outcome, Primitive};
use crate::text::{same_text, string_of};

verus! {

/// What a primitive makes of the noun on its right.
pub open spec fn monad_spec(v: Primitive, y: Value) -> Result<Value, ErrorKind> {
    v.monad_form().spec_apply(y)
}

/// What a primitive makes of the nouns on its left and right.
pub open spec fn dyad_spec(v: Primitive, x: Value, y: Value) -> Result<Value, ErrorKind> {
    v.dyad_form().spec_apply(x, y)
}

/// A builtin verb, known by its name alone.
#[derive(Clone, Copy, Debug, PartialEq)]
pub struct Inherent(pub &'static str);

impl Inherent {
    /// Lookup an inherent verb by name. The only one is `+`.
    pub fn lookup(name: &str) -> (r: Option<Inherent>)
        ensures
            r == if name@ == "+"@ {
                Some(Inherent("+"))
            } else {
                None
            },
    {
        if same_text(name, "+") {
            Some(Inherent("+"))
        } else {
            None
        }
    }

    /// The name of this verb.
    pub fn display(&self) -> (s: String)
        ensures
            s@ == self.0@,
    {
        self.0.to_owned()
    }
}

/// A verb, whether inherent (built-in) or derived.
pub trait Verb {
    /// The text that stands for this verb.
    fn display(&self) -> String;

    /// Evaluate this verb as a monad.
    fn monad(&self, y: &Noun) -> Result<Noun, Error>;

    /// Evaluate this verb as a dyad.
    fn dyad(&self, x: &Noun, y: &Noun) -> Result<Noun, Error>;
}

impl Verb for Primitive {
    fn display(&self) -> (s: String)
        ensures
            s@ == bytes_text(self.spec_name()),
    {
        string_of(&self.text())
    }

    fn monad(&self, y: &Noun) -> (r: Result<Noun, Error>)
        ensures
            noun_outcome(r) == monad_spec(*self, y@),
    {
        self.monad_form().apply(y)
    }

    fn dyad(&self, x: &Noun, y: &Noun) -> (r: Result<Noun, Error>)
        ensures
            noun_outcome(r) == dyad_spec(*self, x@, y@),
    {
        self.dyad_form().apply(x, y)
    }
}

} // verus!
