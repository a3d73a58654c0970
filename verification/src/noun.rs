//! Nouns: the values of the language.

use vstd::prelude::*;
use crate::array::{atoms_text, Array};
use crate::atom::{atom_text, Atom};

verus! {

/// A value: a single atom or a list of atoms.
///
/// An atom and a list of one atom are different values.
#[derive(Debug, PartialEq)]
pub enum Noun {
    Atom(Atom),
    Array(Array),
}

/// What a noun stands for: an atom, or the atoms of a list in order.
pub enum Value {
    Atom(Atom),
    List(Seq<Atom>),
}

/// How a value is written within `limit` columns. A single atom is never cut short.
pub open spec fn value_text(v: Value, limit: Option<usize>) -> Seq<char> {
    match v {
        Value::Atom(a) => atom_text(a@),
        Value::List(atoms) => atoms_text(atoms, limit),
    }
}

impl View for Noun {
    type V = Value;

    open spec fn view(&self) -> Value {
        match *self {
            Noun::Atom(a) => Value::Atom(a),
            Noun::Array(array) => Value::List(array@),
        }
    }
}

impl Clone for Noun {
    fn clone(&self) -> (n: Noun)
        ensures
            n@ == self@,
    {
        match self {
            Noun::Atom(a) => Noun::Atom(*a),
            Noun::Array(array) => Noun::Array(array.clone()),
        }
    }
}

impl Noun {
    /// The noun of a list of atoms.
    pub fn from_vec(v: Vec<Atom>) -> (n: Noun)
        ensures
            n@ == Value::List(v@),
    {
        Noun::Array(Array::from_vec(v))
    }

    /// Writes the noun on one line, within `limit` columns if there is a limit.
    pub fn display(&self, limit: Option<usize>) -> (text: Vec<char>)
        ensures
            text@ == value_text(self@, limit),
    {
        match self {
            Noun::Atom(a) => a.display(),
            Noun::Array(array) => array.display(limit),
        }
    }
}

} // verus!
