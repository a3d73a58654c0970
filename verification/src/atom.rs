//! Atoms: single complex numbers.

use vstd::prelude::*;
use vstd::std_specs::cmp::PartialEqSpecImpl;
use vstd::std_specs::convert::FromSpecImpl;
use crate::double;
use crate::double::Double;

verus! {

#[verifier::external_type_specification]
#[verifier::external_body]
#[verifier::reject_recursive_types(T)]
pub struct ExComplex<T>(num_complex::Complex<T>);

/// A complex number, held as the bit patterns of its real and imaginary parts.
#[derive(Debug, Clone, Copy)]
pub struct Atom {
    /// The bits of the real part.
    pub re: u64,
    /// The bits of the imaginary part.
    pub im: u64,
}

impl View for Atom {
    type V = (u64, u64);

    open spec fn view(&self) -> (u64, u64) {
        (self.re, self.im)
    }
}

/// The bit patterns of the real and the imaginary part of a complex number.
pub uninterp spec fn complex_parts(c: num_complex::Complex64) -> (u64, u64);

/// The negation of a complex number, as `num_complex` computes it.
pub uninterp spec fn complex_negation(y: (u64, u64)) -> (u64, u64);

/// The sum of two complex numbers, as `num_complex` computes it.
pub uninterp spec fn complex_sum(x: (u64, u64), y: (u64, u64)) -> (u64, u64);

/// The difference of two complex numbers, as `num_complex` computes it.
pub uninterp spec fn complex_difference(x: (u64, u64), y: (u64, u64)) -> (u64, u64);

/// The product of two complex numbers, as `num_complex` computes it.
pub uninterp spec fn complex_product(x: (u64, u64), y: (u64, u64)) -> (u64, u64);

/// The quotient of two complex numbers, as `num_complex` computes it.
pub uninterp spec fn complex_quotient(x: (u64, u64), y: (u64, u64)) -> (u64, u64);

/// The atom with the given pair of parts.
pub open spec fn atom_of(parts: (u64, u64)) -> Atom {
    Atom { re: parts.0, im: parts.1 }
}

/// True if the parts of `a` and `b` are the same numbers, or not numbers alike.
pub open spec fn same_parts(a: (u64, u64), b: (u64, u64)) -> bool {
    double::same_number(a.0, b.0) && double::same_number(a.1, b.1)
}

/// The atom with the given pair of parts, with one bit pattern for every
/// part that is not a number.
pub open spec fn canonical_atom(parts: (u64, u64)) -> Atom {
    Atom { re: double::canonical(parts.0), im: double::canonical(parts.1) }
}

/// How an atom is written: the real part alone where the imaginary part is
/// zero, and otherwise the real part with the imaginary part right behind it.
pub open spec fn atom_text(a: (u64, u64)) -> Seq<char> {
    if double::is_zero(a.1) {
        double::display_text(a.0)
    } else {
        double::display_text(a.0) + double::display_text(a.1)
    }
}

/// The fields `re` and `im` of a `num_complex::Complex64`, each as its bits.
#[verifier::external_body]
fn parts_of(c: &num_complex::Complex64) -> (parts: (u64, u64))
    ensures
        parts == complex_parts(*c),
{
    (c.re.to_bits(), c.im.to_bits())
}

/// `num_complex`'s `Neg` for `Complex64`; as numbers, the parts of the result
/// depend on the operand's bits alone.
#[verifier::external_body]
fn negated(y: &Atom) -> (r: Atom)
    ensures
        same_parts(r@, complex_negation(y@)),
{
    let c = -num_complex::Complex64::new(Double::from_bits(y.re), Double::from_bits(y.im));
    Atom { re: c.re.to_bits(), im: c.im.to_bits() }
}

/// `num_complex`'s `Add` for `Complex64`; as numbers, the parts of the result
/// depend on the operands' bits alone.
#[verifier::external_body]
fn added(x: &Atom, y: &Atom) -> (r: Atom)
    ensures
        same_parts(r@, complex_sum(x@, y@)),
{
    let a = num_complex::Complex64::new(Double::from_bits(x.re), Double::from_bits(x.im));
    let b = num_complex::Complex64::new(Double::from_bits(y.re), Double::from_bits(y.im));
    let c = a + b;
    Atom { re: c.re.to_bits(), im: c.im.to_bits() }
}

/// `num_complex`'s `Sub` for `Complex64`; as numbers, the parts of the result
/// depend on the operands' bits alone.
#[verifier::external_body]
fn subtracted(x: &Atom, y: &Atom) -> (r: Atom)
    ensures
        same_parts(r@, complex_difference(x@, y@)),
{
    let a = num_complex::Complex64::new(Double::from_bits(x.re), Double::from_bits(x.im));
    let b = num_complex::Complex64::new(Double::from_bits(y.re), Double::from_bits(y.im));
    let c = a - b;
    Atom { re: c.re.to_bits(), im: c.im.to_bits() }
}

/// `num_complex`'s `Mul` for `Complex64`; as numbers, the parts of the result
/// depend on the operands' bits alone.
#[verifier::external_body]
fn multiplied(x: &Atom, y: &Atom) -> (r: Atom)
    ensures
        same_parts(r@, complex_product(x@, y@)),
{
    let a = num_complex::Complex64::new(Double::from_bits(x.re), Double::from_bits(x.im));
    let b = num_complex::Complex64::new(Double::from_bits(y.re), Double::from_bits(y.im));
    let c = a * b;
    Atom { re: c.re.to_bits(), im: c.im.to_bits() }
}

/// `num_complex`'s `Div` for `Complex64`; as numbers, the parts of the result
/// depend on the operands' bits alone.
#[verifier::external_body]
fn divided(x: &Atom, y: &Atom) -> (r: Atom)
    ensures
        same_parts(r@, complex_quotient(x@, y@)),
{
    let a = num_complex::Complex64::new(Double::from_bits(x.re), Double::from_bits(x.im));
    let b = num_complex::Complex64::new(Double::from_bits(y.re), Double::from_bits(y.im));
    let c = a / b;
    Atom { re: c.re.to_bits(), im: c.im.to_bits() }
}

impl Atom {
    /// The atom with the given real and imaginary parts.
    pub fn new(re: u64, im: u64) -> (a: Atom)
        ensures
            a@ == (re, im),
    {
        Atom { re, im }
    }

    /// The atom of a real number.
    pub open spec fn spec_from_real(re: u64) -> Atom {
        Atom { re, im: double::ZERO }
    }

    /// The atom of a real number.
    #[verifier::when_used_as_spec(spec_from_real)]
    pub fn from_real(re: u64) -> (a: Atom)
        ensures
            a == Atom::spec_from_real(re),
    {
        Atom { re, im: double::ZERO }
    }

    /// The atom zero.
    pub open spec fn spec_zero() -> Atom {
        Atom { re: double::ZERO, im: double::ZERO }
    }

    /// The atom zero.
    #[verifier::when_used_as_spec(spec_zero)]
    pub fn zero() -> (a: Atom)
        ensures
            a == Atom::spec_zero(),
    {
        Atom { re: double::ZERO, im: double::ZERO }
    }

    /// The atom one.
    pub open spec fn spec_one() -> Atom {
        Atom { re: double::ONE, im: double::ZERO }
    }

    /// The atom one.
    #[verifier::when_used_as_spec(spec_one)]
    pub fn one() -> (a: Atom)
        ensures
            a == Atom::spec_one(),
    {
        Atom { re: double::ONE, im: double::ZERO }
    }

    /// The atom of a count.
    pub open spec fn spec_from_count(n: usize) -> Atom {
        Atom { re: double::of_count(n as u64), im: double::ZERO }
    }

    /// The atom of a count.
    #[verifier::when_used_as_spec(spec_from_count)]
    pub fn from_count(n: usize) -> (a: Atom)
        ensures
            a == Atom::spec_from_count(n),
    {
        Atom { re: double::from_count(n as u64), im: double::ZERO }
    }

    /// `num_complex::Complex64::new`, on the numbers that the bits of the two
    /// parts stand for: a complex number with the same bits.
    #[verifier::external_body]
    pub fn to_complex(&self) -> (c: num_complex::Complex64)
        ensures
            complex_parts(c) == self@,
    {
        num_complex::Complex64::new(Double::from_bits(self.re), Double::from_bits(self.im))
    }

    /// True if both parts are zero.
    pub open spec fn spec_is_zero(&self) -> bool {
        double::is_zero(self.re) && double::is_zero(self.im)
    }

    /// Tells whether both parts are zero.
    #[verifier::when_used_as_spec(spec_is_zero)]
    pub fn is_zero(&self) -> (r: bool)
        ensures
            r == self.spec_is_zero(),
    {
        double::is_zero(self.re) && double::is_zero(self.im)
    }

    /// The real part, if the imaginary part is zero.
    pub open spec fn spec_try_to_f64(&self) -> Option<u64> {
        if double::is_zero(self.im) {
            Some(self.re)
        } else {
            None
        }
    }

    /// Return the bits of the real part if this atom is a real number.
    #[verifier::when_used_as_spec(spec_try_to_f64)]
    pub fn try_to_f64(&self) -> (r: Option<u64>)
        ensures
            r == self.spec_try_to_f64(),
    {
        if double::is_zero(self.im) {
            Some(self.re)
        } else {
            None
        }
    }

    /// This atom, with one bit pattern for every part that is not a number.
    fn canonical(self) -> (r: Atom)
        ensures
            r == canonical_atom(self@),
    {
        Atom { re: double::canonical(self.re), im: double::canonical(self.im) }
    }

    /// The negation of this atom.
    pub open spec fn spec_negation(&self) -> Atom {
        canonical_atom(complex_negation(self@))
    }

    /// The negation of this atom.
    #[verifier::when_used_as_spec(spec_negation)]
    pub fn negation(&self) -> (r: Atom)
        ensures
            r == self.spec_negation(),
    {
        negated(self).canonical()
    }

    /// The sum of this atom and `y`.
    pub open spec fn spec_sum(&self, y: &Atom) -> Atom {
        canonical_atom(complex_sum(self@, y@))
    }

    /// The sum of this atom and `y`.
    #[verifier::when_used_as_spec(spec_sum)]
    pub fn sum(&self, y: &Atom) -> (r: Atom)
        ensures
            r == self.spec_sum(y),
    {
        added(self, y).canonical()
    }

    /// The difference of this atom and `y`.
    pub open spec fn spec_difference(&self, y: &Atom) -> Atom {
        canonical_atom(complex_difference(self@, y@))
    }

    /// The difference of this atom and `y`.
    #[verifier::when_used_as_spec(spec_difference)]
    pub fn difference(&self, y: &Atom) -> (r: Atom)
        ensures
            r == self.spec_difference(y),
    {
        subtracted(self, y).canonical()
    }

    /// The product of this atom and `y`.
    pub open spec fn spec_product(&self, y: &Atom) -> Atom {
        canonical_atom(complex_product(self@, y@))
    }

    /// The product of this atom and `y`.
    #[verifier::when_used_as_spec(spec_product)]
    pub fn product(&self, y: &Atom) -> (r: Atom)
        ensures
            r == self.spec_product(y),
    {
        multiplied(self, y).canonical()
    }

    /// The quotient of this atom and `y`.
    pub open spec fn spec_quotient(&self, y: &Atom) -> Atom {
        canonical_atom(complex_quotient(self@, y@))
    }

    /// The quotient of this atom and `y`.
    #[verifier::when_used_as_spec(spec_quotient)]
    pub fn quotient(&self, y: &Atom) -> (r: Atom)
        ensures
            r == self.spec_quotient(y),
    {
        divided(self, y).canonical()
    }

    /// Writes this atom as the language writes it.
    pub fn display(&self) -> (text: Vec<char>)
        ensures
            text@ == atom_text(self@),
    {
        let mut text = double::display(self.re);
        if !double::is_zero(self.im) {
            let mut imaginary = double::display(self.im);
            text.append(&mut imaginary);
        }
        text
    }
}

impl From<num_complex::Complex64> for Atom {
    fn from(c: num_complex::Complex64) -> (a: Atom) {
        let parts = parts_of(&c);
        Atom { re: parts.0, im: parts.1 }
    }
}

impl FromSpecImpl<num_complex::Complex64> for Atom {
    open spec fn obeys_from_spec() -> bool {
        true
    }

    open spec fn from_spec(c: num_complex::Complex64) -> Atom {
        atom_of(complex_parts(c))
    }
}

impl PartialEq for Atom {
    fn eq(&self, other: &Atom) -> (r: bool) {
        double::equal(self.re, other.re) && double::equal(self.im, other.im)
    }
}

impl PartialEqSpecImpl for Atom {
    open spec fn obeys_eq_spec() -> bool {
        true
    }

    open spec fn eq_spec(&self, other: &Atom) -> bool {
        double::equal(self.re, other.re) && double::equal(self.im, other.im)
    }
}

} // verus!
