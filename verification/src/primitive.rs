//! Primitive (built-in) verbs.
//!
//! Every primitive has a name and may be applied as a monad, to the noun on
//! its right, or as a dyad, to the nouns on either side. Each of the two
//! forms is implemented at one rank: per atom, or on the whole noun.

use vstd::prelude::*;
use crate::array::Array;
use crate::atom::Atom;
use crate::double;
use crate::error::{Error, ErrorKind};
use crate::noun::{Noun, Value};
use crate::text::{chars_of, debug_str, str_debug_text, string_of};
use crate::ARRAY_SIZE_LIMIT;

verus! {

/// The monads that work on one atom at a time.
#[derive(Clone, Copy, Debug, PartialEq, Eq, Structural)]
pub enum AtomMonad {
    /// `- y`
    Negate,
    /// `-. y`
    Not,
    /// `% y`
    Reciprocal,
    /// `* y`
    Signum,
}

/// The monads that work on a whole noun.
#[derive(Clone, Copy, Debug, PartialEq, Eq, Structural)]
pub enum NounMonad {
    /// `$ y`
    ShapeOf,
    /// `# y`
    Tally,
    /// `i. y`
    Integers,
}

/// The dyads that work on one pair of atoms at a time.
#[derive(Clone, Copy, Debug, PartialEq, Eq, Structural)]
pub enum AtomDyad {
    /// `x - y`
    Minus,
    /// `x + y`
    Plus,
    /// `x % y`
    Divide,
    /// `x * y`
    Times,
}

/// A primitive monad implementation which is applicable at one of several possible ranks.
#[derive(Clone, Copy, Debug, PartialEq, Eq, Structural)]
pub enum Monad {
    /// A monad that applies per-atom.
    Zero(AtomMonad),
    /// A monad that takes the whole noun.
    Infinite(NounMonad),
    Unimplemented,
}

/// A primitive dyad implementation.
#[derive(Clone, Copy, Debug, PartialEq, Eq, Structural)]
pub enum Dyad {
    /// Per atom on both sides (0, 0).
    Zero(AtomDyad),
    Unimplemented,
}

/// A builtin primitive verb, such as `-` or `i.`.
#[derive(Clone, Copy, Debug, PartialEq, Eq, Structural)]
pub enum Primitive {
    Dollar,
    Minus,
    MinusDot,
    Number,
    Percent,
    Star,
    Plus,
    IDot,
}

pub const DOLLAR: Primitive = Primitive::Dollar;

pub const MINUS: Primitive = Primitive::Minus;

pub const MINUS_DOT: Primitive = Primitive::MinusDot;

pub const NUMBER: Primitive = Primitive::Number;

pub const PERCENT: Primitive = Primitive::Percent;

pub const STAR: Primitive = Primitive::Star;

pub const PLUS: Primitive = Primitive::Plus;

pub const I_DOT: Primitive = Primitive::IDot;

/// All implemented primitives.
pub const PRIMITIVES: [Primitive; 8] = [DOLLAR, MINUS, MINUS_DOT, NUMBER, PERCENT, STAR, PLUS, I_DOT];

/// What came of a noun: its value, or the kind of the error.
pub open spec fn noun_outcome(r: Result<Noun, Error>) -> Result<Value, ErrorKind> {
    match r {
        Ok(n) => Ok(n@),
        Err(e) => Err(e@),
    }
}

/// What came of an atom: the atom, or the kind of the error.
pub open spec fn atom_outcome(r: Result<Atom, Error>) -> Result<Atom, ErrorKind> {
    match r {
        Ok(a) => Ok(a),
        Err(e) => Err(e@),
    }
}

/// The first error among `results` from index `i` on, if there is one.
pub open spec fn first_error(results: Seq<Result<Atom, ErrorKind>>, i: int) -> Option<ErrorKind>
    decreases results.len() - i,
{
    if i < 0 || i >= results.len() {
        None
    } else {
        match results[i] {
            Err(e) => Some(e),
            Ok(_) => first_error(results, i + 1),
        }
    }
}

/// All the atoms of `results` if every one is there, and else the first error:
/// no part of a result is kept once one atom has failed.
pub open spec fn collected(results: Seq<Result<Atom, ErrorKind>>) -> Result<Value, ErrorKind> {
    match first_error(results, 0) {
        Some(e) => Err(e),
        None => Ok(Value::List(Seq::new(results.len(), |i: int| results[i]->Ok_0))),
    }
}

/// `- y`
pub open spec fn negate_spec(y: Atom) -> Result<Atom, ErrorKind> {
    Ok(y.negation())
}

/// `* y`: zero for zero, and otherwise one with the sign of a real `y`.
pub open spec fn signum_spec(y: Atom) -> Result<Atom, ErrorKind> {
    match y.try_to_f64() {
        Some(re) => if double::is_zero(re) {
            Ok(Atom::zero())
        } else {
            Ok(Atom::from_real(double::signum(re)))
        },
        None => Err(ErrorKind::Unimplemented("signum of complex")),
    }
}

/// `x - y`
pub open spec fn minus_spec(x: Atom, y: Atom) -> Result<Atom, ErrorKind> {
    Ok(x.difference(&y))
}

/// `x + y`
pub open spec fn plus_spec(x: Atom, y: Atom) -> Result<Atom, ErrorKind> {
    Ok(x.sum(&y))
}

/// `x % y`: zero divided by anything is zero, with the sign of the divisor;
/// anything else divided by a real zero is infinity with the sign of that
/// zero, and divided by a real infinity is zero with its sign.
pub open spec fn divide_spec(x: Atom, y: Atom) -> Result<Atom, ErrorKind> {
    if x.is_zero() {
        Ok(Atom::from_real(double::with_sign_of(double::ZERO, y.re)))
    } else if double::is_zero(y.im) && double::is_zero(y.re) {
        Ok(Atom::from_real(double::with_sign_of(double::INFINITY, y.re)))
    } else if double::is_zero(y.im) && double::is_infinite(y.re) {
        Ok(Atom::from_real(double::with_sign_of(double::ZERO, y.re)))
    } else {
        Ok(x.quotient(&y))
    }
}

/// `x * y`: zero if either side is zero, whatever the other is.
pub open spec fn times_spec(x: Atom, y: Atom) -> Result<Atom, ErrorKind> {
    if x.is_zero() || y.is_zero() {
        Ok(Atom::zero())
    } else {
        Ok(x.product(&y))
    }
}

/// `-. y`: one less `y`, for a real `y` from zero to one.
pub open spec fn not_spec(y: Atom) -> Result<Atom, ErrorKind> {
    match y.try_to_f64() {
        Some(re) => if double::is_zero(re) {
            Ok(Atom::one())
        } else if re == double::ONE {
            Ok(Atom::zero())
        } else if double::is_proper_fraction(re) {
            Ok(Atom::from_real(double::minus(double::ONE, re)))
        } else {
            Err(ErrorKind::Domain)
        },
        None => Err(ErrorKind::Domain),
    }
}

/// `% y`: one divided by `y`.
pub open spec fn reciprocal_spec(y: Atom) -> Result<Atom, ErrorKind> {
    divide_spec(Atom::one(), y)
}

/// `# y`: the number of items in `y`, which is one for an atom.
pub open spec fn tally_spec(y: Value) -> Result<Value, ErrorKind> {
    match y {
        Value::Atom(_) => Ok(Value::Atom(Atom::one())),
        Value::List(atoms) => Ok(Value::Atom(Atom::from_count(atoms.len() as usize))),
    }
}

/// `$ y`: the list of the lengths of the axes of `y`: empty for an atom, and
/// the number of items for a list.
pub open spec fn shape_of_spec(y: Value) -> Result<Value, ErrorKind> {
    match y {
        Value::Atom(_) => Ok(Value::List(Seq::empty())),
        Value::List(atoms) => Ok(Value::List(seq![Atom::from_count(atoms.len() as usize)])),
    }
}

/// `i. y`: the counts from zero up to, and without, the whole part of a real
/// atom `y` that is not negative. More than `ARRAY_SIZE_LIMIT` of them are
/// refused.
pub open spec fn integers_spec(y: Value) -> Result<Value, ErrorKind> {
    match y {
        Value::Atom(a) => match a.try_to_f64() {
            Some(re) => if double::is_below_zero(re) {
                Err(ErrorKind::Unimplemented("i. negative"))
            } else if double::truncated(re) > ARRAY_SIZE_LIMIT {
                Err(ErrorKind::OutOfMemory)
            } else {
                Ok(
                    Value::List(
                        Seq::new(
                            double::truncated(re) as nat,
                            |i: int| Atom::from_count(i as usize),
                        ),
                    ),
                )
            },
            None => Err(ErrorKind::Domain),
        },
        Value::List(_) => Err(ErrorKind::Unimplemented("integers from list")),
    }
}

fn negate(y: &Atom) -> (r: Result<Atom, Error>)
    ensures
        atom_outcome(r) == negate_spec(*y),
{
    Ok(y.negation())
}

fn signum(y: &Atom) -> (r: Result<Atom, Error>)
    ensures
        atom_outcome(r) == signum_spec(*y),
{
    if let Some(re) = y.try_to_f64() {
        // The signum of zero is zero, not one.
        if double::is_zero(re) {
            Ok(Atom::zero())
        } else {
            Ok(Atom::from_real(double::signum(re)))
        }
    } else {
        // Should be a point on the unit circle on the line from the origin to y.
        Err(Error::Unimplemented("signum of complex"))
    }
}

fn minus(x: &Atom, y: &Atom) -> (r: Result<Atom, Error>)
    ensures
        atom_outcome(r) == minus_spec(*x, *y),
{
    Ok(x.difference(y))
}

/// Add atoms.
fn plus(x: &Atom, y: &Atom) -> (r: Result<Atom, Error>)
    ensures
        atom_outcome(r) == plus_spec(*x, *y),
{
    Ok(x.sum(y))
}

/// `x % y` divide
fn divide(x: &Atom, y: &Atom) -> (r: Result<Atom, Error>)
    ensures
        atom_outcome(r) == divide_spec(*x, *y),
{
    // As a special case, `0 % 0 = 0`.
    if x.is_zero() {
        return Ok(Atom::from_real(double::with_sign_of(double::ZERO, y.re)));
    }
    if double::is_zero(y.im) {
        if double::is_zero(y.re) {
            // The quotient is a signed infinity, not the not-a-number that
            // plain division gives.
            return Ok(Atom::from_real(double::with_sign_of(double::INFINITY, y.re)));
        } else if double::is_infinite(y.re) {
            return Ok(Atom::from_real(double::with_sign_of(double::ZERO, y.re)));
        }
    }
    Ok(x.quotient(y))
}

fn times(x: &Atom, y: &Atom) -> (r: Result<Atom, Error>)
    ensures
        atom_outcome(r) == times_spec(*x, *y),
{
    if x.is_zero() || y.is_zero() {
        // Multiplying even infinity by 0 is 0.
        Ok(Atom::zero())
    } else {
        Ok(x.product(y))
    }
}

fn not(y: &Atom) -> (r: Result<Atom, Error>)
    ensures
        atom_outcome(r) == not_spec(*y),
{
    match y.try_to_f64() {
        Some(re) => {
            if double::is_zero(re) {
                Ok(Atom::one())
            } else if re == double::ONE {
                Ok(Atom::zero())
            } else if double::is_proper_fraction(re) {
                Ok(Atom::from_real(double::minus(double::ONE, re)))
            } else {
                Err(Error::Domain)
            }
        },
        None => Err(Error::Domain),
    }
}

fn reciprocal(y: &Atom) -> (r: Result<Atom, Error>)
    ensures
        atom_outcome(r) == reciprocal_spec(*y),
{
    divide(&Atom::one(), y)
}

/// Count the items in y.
fn tally(y: &Noun) -> (r: Result<Noun, Error>)
    ensures
        noun_outcome(r) == tally_spec(y@),
{
    match y {
        Noun::Atom(_) => Ok(Noun::Atom(Atom::one())),
        Noun::Array(a) => Ok(Noun::Atom(Atom::from_count(a.number_items()))),
    }
}

/// Return a list describing the shape of y.
fn shape_of(y: &Noun) -> (r: Result<Noun, Error>)
    ensures
        noun_outcome(r) == shape_of_spec(y@),
{
    match y {
        Noun::Atom(_) => Ok(Noun::Array(Array::empty())),
        Noun::Array(a) => {
            Ok(Noun::Array(a.shape()))
        },
    }
}

fn integers(y: &Noun) -> (r: Result<Noun, Error>)
    ensures
        noun_outcome(r) == integers_spec(y@),
{
    match y {
        Noun::Atom(a) => {
            if let Some(re) = a.try_to_f64() {
                if double::is_below_zero(re) {
                    return Err(Error::Unimplemented("i. negative"));
                }
                let n: u64 = double::truncate(re);
                if n > ARRAY_SIZE_LIMIT as u64 {
                    return Err(Error::OutOfMemory);
                }
                let n: usize = n as usize;
                let mut atoms: Vec<Atom> = Vec::new();
                let mut i: usize = 0;
                while i < n
                    invariant
                        i <= n,
                        atoms@.len() == i,
                        forall|j: int| 0 <= j < i ==> atoms@[j] == Atom::from_count(j as usize),
                    decreases n - i,
                {
                    atoms.push(Atom::from_count(i));
                    i += 1;
                }
                let array = Array::from_vec(atoms);
                assert(array@ =~= Seq::new(n as nat, |i: int| Atom::from_count(i as usize)));
                Ok(Noun::Array(array))
            } else {
                Err(Error::Domain)
            }
        },
        _ => Err(Error::Unimplemented("integers from list")),
    }
}

impl AtomMonad {
    /// What this monad makes of the atom `y`.
    pub open spec fn spec_apply(&self, y: Atom) -> Result<Atom, ErrorKind> {
        match *self {
            AtomMonad::Negate => negate_spec(y),
            AtomMonad::Not => not_spec(y),
            AtomMonad::Reciprocal => reciprocal_spec(y),
            AtomMonad::Signum => signum_spec(y),
        }
    }

    /// Applies this monad to the atom `y`.
    pub fn apply(&self, y: &Atom) -> (r: Result<Atom, Error>)
        ensures
            atom_outcome(r) == self.spec_apply(*y),
    {
        match self {
            AtomMonad::Negate => negate(y),
            AtomMonad::Not => not(y),
            AtomMonad::Reciprocal => reciprocal(y),
            AtomMonad::Signum => signum(y),
        }
    }
}

impl NounMonad {
    /// What this monad makes of the noun `y`.
    pub open spec fn spec_apply(&self, y: Value) -> Result<Value, ErrorKind> {
        match *self {
            NounMonad::ShapeOf => shape_of_spec(y),
            NounMonad::Tally => tally_spec(y),
            NounMonad::Integers => integers_spec(y),
        }
    }

    /// Applies this monad to the noun `y`.
    pub fn apply(&self, y: &Noun) -> (r: Result<Noun, Error>)
        ensures
            noun_outcome(r) == self.spec_apply(y@),
    {
        match self {
            NounMonad::ShapeOf => shape_of(y),
            NounMonad::Tally => tally(y),
            NounMonad::Integers => integers(y),
        }
    }
}

impl AtomDyad {
    /// What this dyad makes of the atoms `x` and `y`.
    pub open spec fn spec_apply(&self, x: Atom, y: Atom) -> Result<Atom, ErrorKind> {
        match *self {
            AtomDyad::Minus => minus_spec(x, y),
            AtomDyad::Plus => plus_spec(x, y),
            AtomDyad::Divide => divide_spec(x, y),
            AtomDyad::Times => times_spec(x, y),
        }
    }

    /// Applies this dyad to the atoms `x` and `y`.
    pub fn apply(&self, x: &Atom, y: &Atom) -> (r: Result<Atom, Error>)
        ensures
            atom_outcome(r) == self.spec_apply(*x, *y),
    {
        match self {
            AtomDyad::Minus => minus(x, y),
            AtomDyad::Plus => plus(x, y),
            AtomDyad::Divide => divide(x, y),
            AtomDyad::Times => times(x, y),
        }
    }
}

impl Monad {
    /// What this monad makes of the noun `y`: a monad of rank zero is applied
    /// to an atom, or to every atom of a list, and one of infinite rank to
    /// the noun as a whole.
    pub open spec fn spec_apply(&self, y: Value) -> Result<Value, ErrorKind> {
        match *self {
            Monad::Zero(f) => match y {
                Value::Atom(a) => match f.spec_apply(a) {
                    Ok(r) => Ok(Value::Atom(r)),
                    Err(e) => Err(e),
                },
                Value::List(atoms) => collected(
                    Seq::new(atoms.len(), |i: int| f.spec_apply(atoms[i])),
                ),
            },
            Monad::Infinite(f) => f.spec_apply(y),
            Monad::Unimplemented => Err(ErrorKind::Unimplemented("Monad::Unimplemented")),
        }
    }

    /// Apply this monad to the y noun, at the appropriate rank.
    pub fn apply(&self, y: &Noun) -> (r: Result<Noun, Error>)
        ensures
            noun_outcome(r) == self.spec_apply(y@),
    {
        match self {
            Monad::Zero(f) => match y {
                Noun::Atom(a) => match f.apply(a) {
                    Ok(r) => Ok(Noun::Atom(r)),
                    Err(e) => Err(e),
                },
                Noun::Array(array) => each_atom(*f, &array.iter_atoms()),
            },
            Monad::Infinite(f) => f.apply(y),
            Monad::Unimplemented => Err(Error::Unimplemented("Monad::Unimplemented")),
        }
    }
}

impl Dyad {
    /// What this dyad makes of the nouns `x` and `y`. Two atoms give an atom.
    /// Two lists must be of one length, and give the list of what their atoms
    /// give pair by pair. An atom and a list give the list of what the atom
    /// gives with each atom of the list.
    pub open spec fn spec_apply(&self, x: Value, y: Value) -> Result<Value, ErrorKind> {
        match *self {
            Dyad::Zero(f) => match (x, y) {
                (Value::Atom(ax), Value::Atom(ay)) => match f.spec_apply(ax, ay) {
                    Ok(r) => Ok(Value::Atom(r)),
                    Err(e) => Err(e),
                },
                (Value::List(xs), Value::List(ys)) => if xs.len() == ys.len() {
                    collected(Seq::new(xs.len(), |i: int| f.spec_apply(xs[i], ys[i])))
                } else {
                    Err(ErrorKind::Length)
                },
                (Value::Atom(ax), Value::List(ys)) => collected(
                    Seq::new(ys.len(), |i: int| f.spec_apply(ax, ys[i])),
                ),
                (Value::List(xs), Value::Atom(ay)) => collected(
                    Seq::new(xs.len(), |i: int| f.spec_apply(xs[i], ay)),
                ),
            },
            Dyad::Unimplemented => Err(ErrorKind::Unimplemented("Dyad::Unimplemented")),
        }
    }

    /// Apply this dyad to the x and y nouns, at the appropriate rank.
    pub fn apply(&self, x: &Noun, y: &Noun) -> (r: Result<Noun, Error>)
        ensures
            noun_outcome(r) == self.spec_apply(x@, y@),
    {
        match self {
            Dyad::Zero(f) => match (x, y) {
                (Noun::Atom(ax), Noun::Atom(ay)) => match f.apply(ax, ay) {
                    Ok(r) => Ok(Noun::Atom(r)),
                    Err(e) => Err(e),
                },
                (Noun::Array(ax), Noun::Array(ay)) => {
                    // Element-wise: the arrays must agree exactly in shape.
                    if ax.number_items() == ay.number_items() {
                        pairwise(*f, &ax.iter_atoms(), &ay.iter_atoms())
                    } else {
                        Err(Error::Length)
                    }
                },
                (Noun::Atom(ax), Noun::Array(ay)) => atom_with_each(*f, ax, &ay.iter_atoms()),
                (Noun::Array(ax), Noun::Atom(ay)) => each_with_atom(*f, &ax.iter_atoms(), ay),
            },
            Dyad::Unimplemented => Err(Error::Unimplemented("Dyad::Unimplemented")),
        }
    }
}

/// Applies `f` to each atom of a list.
fn each_atom(f: AtomMonad, ys: &Vec<Atom>) -> (r: Result<Noun, Error>)
    ensures
        noun_outcome(r) == collected(Seq::new(ys@.len(), |i: int| f.spec_apply(ys@[i]))),
{
    let ghost results = Seq::new(ys@.len(), |i: int| f.spec_apply(ys@[i]));
    let mut out: Vec<Atom> = Vec::new();
    let mut i: usize = 0;
    while i < ys.len()
        invariant
            i <= ys.len(),
            results.len() == ys@.len(),
            forall|j: int| 0 <= j < ys@.len() ==> #[trigger] results[j] == f.spec_apply(ys@[j]),
            out@.len() == i,
            forall|j: int| 0 <= j < i ==> results[j] == Ok::<Atom, ErrorKind>(out@[j]),
            first_error(results, 0) == first_error(results, i as int),
        decreases ys.len() - i,
    {
        match f.apply(&ys[i]) {
            Ok(r) => out.push(r),
            Err(e) => {
                assert(first_error(results, i as int) == Some(e@));
                assert(results =~= Seq::new(ys@.len(), |i: int| f.spec_apply(ys@[i])));
                return Err(e);
            },
        }
        i += 1;
    }
    let done = Array::from_vec(out);
    assert(done@ =~= Seq::new(results.len(), |i: int| results[i]->Ok_0));
    Ok(Noun::Array(done))
}

/// Applies `f` to the atoms of two lists of one length, pair by pair.
fn pairwise(f: AtomDyad, xs: &Vec<Atom>, ys: &Vec<Atom>) -> (r: Result<Noun, Error>)
    requires
        xs@.len() == ys@.len(),
    ensures
        noun_outcome(r) == collected(Seq::new(xs@.len(), |i: int| f.spec_apply(xs@[i], ys@[i]))),
{
    let ghost results = Seq::new(xs@.len(), |i: int| f.spec_apply(xs@[i], ys@[i]));
    let mut out: Vec<Atom> = Vec::new();
    let mut i: usize = 0;
    while i < xs.len()
        invariant
            i <= xs.len(),
            xs@.len() == ys@.len(),
            results.len() == xs@.len(),
            forall|j: int|
                0 <= j < xs@.len() ==> #[trigger] results[j] == f.spec_apply(xs@[j], ys@[j]),
            out@.len() == i,
            forall|j: int| 0 <= j < i ==> results[j] == Ok::<Atom, ErrorKind>(out@[j]),
            first_error(results, 0) == first_error(results, i as int),
        decreases xs.len() - i,
    {
        match f.apply(&xs[i], &ys[i]) {
            Ok(r) => out.push(r),
            Err(e) => {
                assert(first_error(results, i as int) == Some(e@));
                assert(results =~= Seq::new(xs@.len(), |i: int| f.spec_apply(xs@[i], ys@[i])));
                return Err(e);
            },
        }
        i += 1;
    }
    let done = Array::from_vec(out);
    assert(done@ =~= Seq::new(results.len(), |i: int| results[i]->Ok_0));
    Ok(Noun::Array(done))
}

/// Applies `f` to the atom `x` and each atom of a list.
fn atom_with_each(f: AtomDyad, x: &Atom, ys: &Vec<Atom>) -> (r: Result<Noun, Error>)
    ensures
        noun_outcome(r) == collected(Seq::new(ys@.len(), |i: int| f.spec_apply(*x, ys@[i]))),
{
    let ghost results = Seq::new(ys@.len(), |i: int| f.spec_apply(*x, ys@[i]));
    let mut out: Vec<Atom> = Vec::new();
    let mut i: usize = 0;
    while i < ys.len()
        invariant
            i <= ys.len(),
            results.len() == ys@.len(),
            forall|j: int| 0 <= j < ys@.len() ==> #[trigger] results[j] == f.spec_apply(*x, ys@[j]),
            out@.len() == i,
            forall|j: int| 0 <= j < i ==> results[j] == Ok::<Atom, ErrorKind>(out@[j]),
            first_error(results, 0) == first_error(results, i as int),
        decreases ys.len() - i,
    {
        match f.apply(x, &ys[i]) {
            Ok(r) => out.push(r),
            Err(e) => {
                assert(first_error(results, i as int) == Some(e@));
                assert(results =~= Seq::new(ys@.len(), |i: int| f.spec_apply(*x, ys@[i])));
                return Err(e);
            },
        }
        i += 1;
    }
    let done = Array::from_vec(out);
    assert(done@ =~= Seq::new(results.len(), |i: int| results[i]->Ok_0));
    Ok(Noun::Array(done))
}

/// Applies `f` to each atom of a list and the atom `y`.
fn each_with_atom(f: AtomDyad, xs: &Vec<Atom>, y: &Atom) -> (r: Result<Noun, Error>)
    ensures
        noun_outcome(r) == collected(Seq::new(xs@.len(), |i: int| f.spec_apply(xs@[i], *y))),
{
    let ghost results = Seq::new(xs@.len(), |i: int| f.spec_apply(xs@[i], *y));
    let mut out: Vec<Atom> = Vec::new();
    let mut i: usize = 0;
    while i < xs.len()
        invariant
            i <= xs.len(),
            results.len() == xs@.len(),
            forall|j: int| 0 <= j < xs@.len() ==> #[trigger] results[j] == f.spec_apply(xs@[j], *y),
            out@.len() == i,
            forall|j: int| 0 <= j < i ==> results[j] == Ok::<Atom, ErrorKind>(out@[j]),
            first_error(results, 0) == first_error(results, i as int),
        decreases xs.len() - i,
    {
        match f.apply(&xs[i], y) {
            Ok(r) => out.push(r),
            Err(e) => {
                assert(first_error(results, i as int) == Some(e@));
                assert(results =~= Seq::new(xs@.len(), |i: int| f.spec_apply(xs@[i], *y)));
                return Err(e);
            },
        }
        i += 1;
    }
    let done = Array::from_vec(out);
    assert(done@ =~= Seq::new(results.len(), |i: int| results[i]->Ok_0));
    Ok(Noun::Array(done))
}

/// Tells whether two byte strings are the same.
pub fn bytes_equal(a: &[u8], b: &[u8]) -> (r: bool)
    ensures
        r == (a@ == b@),
{
    if a.len() != b.len() {
        return false;
    }
    let mut i: usize = 0;
    while i < a.len()
        invariant
            i <= a.len(),
            a.len() == b.len(),
            forall|j: int| 0 <= j < i ==> a@[j] == b@[j],
        decreases a.len() - i,
    {
        if a[i] != b[i] {
            return false;
        }
        i += 1;
    }
    assert(a@ =~= b@);
    true
}

/// The first primitive of the table, from index `i` on, that is spelled `name`.
pub open spec fn lookup_from(name: Seq<u8>, i: int) -> Option<Primitive>
    decreases PRIMITIVES@.len() - i,
{
    if i < 0 || i >= PRIMITIVES@.len() {
        None
    } else if PRIMITIVES@[i].spec_name() == name {
        Some(PRIMITIVES@[i])
    } else {
        lookup_from(name, i + 1)
    }
}

/// The primitive that is spelled `name`, if there is one.
pub open spec fn lookup(name: Seq<u8>) -> Option<Primitive> {
    lookup_from(name, 0)
}

/// The characters that stand for the given bytes, one for one.
pub open spec fn bytes_text(bytes: Seq<u8>) -> Seq<char> {
    Seq::new(bytes.len(), |i: int| bytes[i] as char)
}

impl Primitive {
    /// The spelling of this primitive.
    pub open spec fn spec_name(&self) -> Seq<u8> {
        match *self {
            Primitive::Dollar => seq![0x24u8],
            Primitive::Minus => seq![0x2du8],
            Primitive::MinusDot => seq![0x2du8, 0x2eu8],
            Primitive::Number => seq![0x23u8],
            Primitive::Percent => seq![0x25u8],
            Primitive::Star => seq![0x2au8],
            Primitive::Plus => seq![0x2bu8],
            Primitive::IDot => seq![0x69u8, 0x2eu8],
        }
    }

    /// The spelling of this primitive.
    pub fn name(&self) -> (n: &'static [u8])
        ensures
            n@ == self.spec_name(),
    {
        match self {
            Primitive::Dollar => {
                let n: &'static [u8; 1] = &[0x24u8];
                assert(n@ =~= self.spec_name());
                n
            },
            Primitive::Minus => {
                let n: &'static [u8; 1] = &[0x2du8];
                assert(n@ =~= self.spec_name());
                n
            },
            Primitive::MinusDot => {
                let n: &'static [u8; 2] = &[0x2du8, 0x2eu8];
                assert(n@ =~= self.spec_name());
                n
            },
            Primitive::Number => {
                let n: &'static [u8; 1] = &[0x23u8];
                assert(n@ =~= self.spec_name());
                n
            },
            Primitive::Percent => {
                let n: &'static [u8; 1] = &[0x25u8];
                assert(n@ =~= self.spec_name());
                n
            },
            Primitive::Star => {
                let n: &'static [u8; 1] = &[0x2au8];
                assert(n@ =~= self.spec_name());
                n
            },
            Primitive::Plus => {
                let n: &'static [u8; 1] = &[0x2bu8];
                assert(n@ =~= self.spec_name());
                n
            },
            Primitive::IDot => {
                let n: &'static [u8; 2] = &[0x69u8, 0x2eu8];
                assert(n@ =~= self.spec_name());
                n
            },
        }
    }

    /// How this primitive is applied to one noun.
    pub open spec fn spec_monad_form(&self) -> Monad {
        match *self {
            Primitive::Dollar => Monad::Infinite(NounMonad::ShapeOf),
            Primitive::Minus => Monad::Zero(AtomMonad::Negate),
            Primitive::MinusDot => Monad::Zero(AtomMonad::Not),
            Primitive::Number => Monad::Infinite(NounMonad::Tally),
            Primitive::Percent => Monad::Zero(AtomMonad::Reciprocal),
            Primitive::Star => Monad::Zero(AtomMonad::Signum),
            Primitive::Plus => Monad::Unimplemented,
            Primitive::IDot => Monad::Infinite(NounMonad::Integers),
        }
    }

    /// How this primitive is applied to one noun.
    #[verifier::when_used_as_spec(spec_monad_form)]
    pub fn monad_form(&self) -> (m: Monad)
        ensures
            m == self.spec_monad_form(),
    {
        match self {
            Primitive::Dollar => Monad::Infinite(NounMonad::ShapeOf),
            Primitive::Minus => Monad::Zero(AtomMonad::Negate),
            Primitive::MinusDot => Monad::Zero(AtomMonad::Not),
            Primitive::Number => Monad::Infinite(NounMonad::Tally),
            Primitive::Percent => Monad::Zero(AtomMonad::Reciprocal),
            Primitive::Star => Monad::Zero(AtomMonad::Signum),
            Primitive::Plus => Monad::Unimplemented,
            Primitive::IDot => Monad::Infinite(NounMonad::Integers),
        }
    }

    /// How this primitive is applied to two nouns.
    pub open spec fn spec_dyad_form(&self) -> Dyad {
        match *self {
            Primitive::Dollar => Dyad::Unimplemented,
            Primitive::Minus => Dyad::Zero(AtomDyad::Minus),
            Primitive::MinusDot => Dyad::Unimplemented,
            Primitive::Number => Dyad::Unimplemented,
            Primitive::Percent => Dyad::Zero(AtomDyad::Divide),
            Primitive::Star => Dyad::Zero(AtomDyad::Times),
            Primitive::Plus => Dyad::Zero(AtomDyad::Plus),
            Primitive::IDot => Dyad::Unimplemented,
        }
    }

    /// How this primitive is applied to two nouns.
    #[verifier::when_used_as_spec(spec_dyad_form)]
    pub fn dyad_form(&self) -> (d: Dyad)
        ensures
            d == self.spec_dyad_form(),
    {
        match self {
            Primitive::Dollar => Dyad::Unimplemented,
            Primitive::Minus => Dyad::Zero(AtomDyad::Minus),
            Primitive::MinusDot => Dyad::Unimplemented,
            Primitive::Number => Dyad::Unimplemented,
            Primitive::Percent => Dyad::Zero(AtomDyad::Divide),
            Primitive::Star => Dyad::Zero(AtomDyad::Times),
            Primitive::Plus => Dyad::Zero(AtomDyad::Plus),
            Primitive::IDot => Dyad::Unimplemented,
        }
    }

    /// Looks a primitive up by its spelling, which must match exactly.
    pub fn lookup(name: &[u8]) -> (r: Option<Primitive>)
        ensures
            r == self::lookup(name@),
    {
        let mut i: usize = 0;
        while i < PRIMITIVES.len()
            invariant
                i <= PRIMITIVES@.len(),
                self::lookup(name@) == lookup_from(name@, i as int),
            decreases PRIMITIVES@.len() - i,
        {
            let prim = PRIMITIVES[i];
            if bytes_equal(name, prim.name()) {
                return Some(prim);
            }
            i += 1;
        }
        None
    }

    /// Looks a primitive up by its spelling; an unknown spelling is an
    /// unimplemented primitive.
    pub fn by_name(s: &[u8]) -> (r: Result<Primitive, Error>)
        ensures
            match r {
                Ok(p) => self::lookup(s@) == Some(p),
                Err(e) => self::lookup(s@) is None && e@ == ErrorKind::Unimplemented("primitive"),
            },
    {
        match Primitive::lookup(s) {
            Some(p) => Ok(p),
            None => Err(Error::Unimplemented("primitive")),
        }
    }

    /// The primitive as it is printed for debugging: as a structure with its name.
    pub fn debug(&self) -> (s: String)
        ensures
            s@ == "Primitive { name: "@ + str_debug_text(bytes_text(self.spec_name())) + " }"@,
    {
        let name = string_of(&self.text());
        let mut text = chars_of("Primitive { name: ");
        let mut quoted = debug_str(name.as_str());
        let mut close = chars_of(" }");
        text.append(&mut quoted);
        text.append(&mut close);
        string_of(&text)
    }

    /// Writes the spelling of this primitive.
    pub fn text(&self) -> (text: Vec<char>)
        ensures
            text@ == bytes_text(self.spec_name()),
    {
        let name = self.name();
        let mut text: Vec<char> = Vec::new();
        let mut i: usize = 0;
        while i < name.len()
            invariant
                i <= name.len(),
                text@.len() == i,
                forall|j: int| 0 <= j < i ==> text@[j] == name@[j] as char,
            decreases name.len() - i,
        {
            text.push(name[i] as char);
            i += 1;
        }
        assert(text@ =~= bytes_text(name@));
        text
    }
}

/// Every primitive is found again by its own spelling.
pub proof fn lemma_lookup_name(p: Primitive)
    ensures
        lookup(p.spec_name()) == Some(p),
{
    reveal_with_fuel(lookup_from, 9);
    assert(PRIMITIVES@.len() == 8);
    assert(seq![0x2du8, 0x2eu8].len() == 2);
    assert(seq![0x69u8, 0x2eu8].len() == 2);
    assert(seq![0x2du8, 0x2eu8][1] == 0x2eu8);
    assert(seq![0x24u8][0] == 0x24u8);
    assert(seq![0x2du8][0] == 0x2du8);
    assert(seq![0x23u8][0] == 0x23u8);
    assert(seq![0x25u8][0] == 0x25u8);
    assert(seq![0x2au8][0] == 0x2au8);
    assert(seq![0x2bu8][0] == 0x2bu8);
    assert(seq![0x69u8, 0x2eu8][0] == 0x69u8);
    assert(seq![0x2du8, 0x2eu8][0] == 0x2du8);
}

/// What a lookup finds is spelled as was asked.
pub proof fn lemma_lookup_found(name: Seq<u8>, p: Primitive)
    requires
        lookup(name) == Some(p),
    ensures
        p.spec_name() == name,
{
    reveal_with_fuel(lookup_from, 9);
}

/// Where every result from index `i` on is there, no error is found; and an
/// error that is found from index `i` on is the result at some index.
pub proof fn lemma_first_error(results: Seq<Result<Atom, ErrorKind>>, i: int)
    requires
        0 <= i <= results.len(),
    ensures
        (forall|j: int| i <= j < results.len() ==> results[j] is Ok) <==> first_error(results, i)
            is None,
        first_error(results, i) matches Some(e) ==> exists|j: int|
            i <= j < results.len() && results[j] == Err::<Atom, ErrorKind>(e),
    decreases results.len() - i,
{
    if i < results.len() {
        lemma_first_error(results, i + 1);
    }
}

/// A dyad of rank zero refuses two lists of different lengths with a length error.
pub proof fn lemma_lists_must_agree(f: AtomDyad, xs: Seq<Atom>, ys: Seq<Atom>)
    requires
        xs.len() != ys.len(),
    ensures
        Dyad::Zero(f).spec_apply(Value::List(xs), Value::List(ys)) == Err::<Value, ErrorKind>(
            ErrorKind::Length,
        ),
{
}

/// None of the dyads of rank zero fails on any pair of atoms.
pub proof fn lemma_atom_dyads_succeed(f: AtomDyad, x: Atom, y: Atom)
    ensures
        f.spec_apply(x, y) is Ok,
{
}

/// A dyad of rank zero applied to two lists of one length gives the list of
/// what it makes of their atoms pair by pair.
pub proof fn lemma_lists_pairwise(f: AtomDyad, xs: Seq<Atom>, ys: Seq<Atom>)
    requires
        xs.len() == ys.len(),
    ensures
        Dyad::Zero(f).spec_apply(Value::List(xs), Value::List(ys)) == Ok::<Value, ErrorKind>(
            Value::List(Seq::new(xs.len(), |i: int| f.spec_apply(xs[i], ys[i])->Ok_0)),
        ),
{
    let results = Seq::new(xs.len(), |i: int| f.spec_apply(xs[i], ys[i]));
    assert forall|i: int| 0 <= i < results.len() implies results[i] is Ok by {
        lemma_atom_dyads_succeed(f, xs[i], ys[i]);
    }
    lemma_first_error(results, 0);
    assert(Seq::new(results.len(), |i: int| results[i]->Ok_0) =~= Seq::new(
        xs.len(),
        |i: int| f.spec_apply(xs[i], ys[i])->Ok_0,
    ));
}

/// A dyad of rank zero applied to an atom and a list pairs the atom with
/// every atom of the list: the result is a list of the same length, whose
/// items are what the dyad makes of the atom and the item in that place. The
/// same holds with the list on the left and the atom on the right.
pub proof fn lemma_atom_is_broadcast(f: AtomDyad, a: Atom, list: Seq<Atom>)
    ensures
        Dyad::Zero(f).spec_apply(Value::Atom(a), Value::List(list)) == Ok::<Value, ErrorKind>(
            Value::List(Seq::new(list.len(), |i: int| f.spec_apply(a, list[i])->Ok_0)),
        ),
        Dyad::Zero(f).spec_apply(Value::List(list), Value::Atom(a)) == Ok::<Value, ErrorKind>(
            Value::List(Seq::new(list.len(), |i: int| f.spec_apply(list[i], a)->Ok_0)),
        ),
{
    let right = Seq::new(list.len(), |i: int| f.spec_apply(a, list[i]));
    assert forall|i: int| 0 <= i < right.len() implies right[i] is Ok by {
        lemma_atom_dyads_succeed(f, a, list[i]);
    }
    lemma_first_error(right, 0);
    assert(Seq::new(right.len(), |i: int| right[i]->Ok_0) =~= Seq::new(
        list.len(),
        |i: int| f.spec_apply(a, list[i])->Ok_0,
    ));
    let left = Seq::new(list.len(), |i: int| f.spec_apply(list[i], a));
    assert forall|i: int| 0 <= i < left.len() implies left[i] is Ok by {
        lemma_atom_dyads_succeed(f, list[i], a);
    }
    lemma_first_error(left, 0);
    assert(Seq::new(left.len(), |i: int| left[i]->Ok_0) =~= Seq::new(
        list.len(),
        |i: int| f.spec_apply(list[i], a)->Ok_0,
    ));
}

/// Zero divided by zero is zero.
pub proof fn lemma_zero_by_zero()
    ensures
        divide_spec(
            Atom::zero(),
            Atom::zero(),
        ) == Ok::<Atom, ErrorKind>(Atom::zero()),
{
}

/// One divided by zero is positive infinity.
pub proof fn lemma_one_by_zero()
    ensures
        divide_spec(Atom::one(), Atom::zero()) == Ok::<Atom, ErrorKind>(
            Atom::from_real(double::INFINITY),
        ),
{
}

/// Any atom but zero, divided by a real zero, is infinity with the sign of that zero.
pub proof fn lemma_by_zero(x: Atom, y: Atom)
    requires
        !x.is_zero(),
        double::is_zero(y.re),
        double::is_zero(y.im),
    ensures
        divide_spec(x, y) == Ok::<Atom, ErrorKind>(
            Atom::from_real(double::with_sign_of(double::INFINITY, y.re)),
        ),
{
}

/// The product of any atom and zero is exactly zero, also where the atom is
/// infinite or not a number.
pub proof fn lemma_times_zero(x: Atom, zero: Atom)
    requires
        zero.is_zero(),
    ensures
        times_spec(x, zero) == Ok::<Atom, ErrorKind>(Atom::zero()),
        times_spec(zero, x) == Ok::<Atom, ErrorKind>(Atom::zero()),
{
}

} // verus!
