//! Array objects.

use vstd::prelude::*;
use crate::atom::{atom_text, Atom};

verus! {

/// A list of atoms.
///
/// Arrays potentially have n dimensions, although only 1-dimensional arrays are
/// supported for now. They are backed by an `ndarray` array, and every array
/// of this type is built from a vector, so it has exactly one axis.
#[verifier::external_body]
#[derive(Debug, PartialEq)]
pub struct Array(ndarray::ArrayD<Atom>);

/// The atoms that an array holds, in order.
pub uninterp spec fn array_atoms(a: Array) -> Seq<Atom>;

impl View for Array {
    type V = Seq<Atom>;

    open spec fn view(&self) -> Seq<Atom> {
        array_atoms(*self)
    }
}

/// The three dots that stand for the atoms left out of a line.
pub open spec fn ellipsis() -> Seq<char> {
    seq!['.', '.', '.']
}

/// The text of the atoms from index `i` on, where `col` characters have been
/// written already. Atoms are separated by one space. With a limit, an atom
/// other than the first is replaced by an ellipsis, which ends the line, as
/// soon as three dots or the atom itself would reach the limit.
pub open spec fn atoms_text_from(atoms: Seq<Atom>, i: int, col: int, limit: Option<usize>) -> Seq<
    char,
>
    decreases atoms.len() - i,
{
    if i < 0 || i >= atoms.len() {
        seq![]
    } else if i == 0 {
        atom_text(atoms[0]@) + atoms_text_from(atoms, 1, col + atom_text(atoms[0]@).len(), limit)
    } else {
        let word = atom_text(atoms[i]@);
        if limit matches Some(l) && (col + 1 + 3 >= l || col + 1 + word.len() >= l) {
            seq![' '] + ellipsis()
        } else {
            seq![' '] + word + atoms_text_from(atoms, i + 1, col + 1 + word.len(), limit)
        }
    }
}

/// How a list of atoms is written within `limit` columns.
pub open spec fn atoms_text(atoms: Seq<Atom>, limit: Option<usize>) -> Seq<char> {
    atoms_text_from(atoms, 0, 0, limit)
}

impl Clone for Array {
    /// `ndarray`'s `Clone` for an owned array: a new array of the same items.
    #[verifier::external_body]
    fn clone(&self) -> (a: Array)
        ensures
            array_atoms(a) == array_atoms(*self),
    {
        Array(self.0.clone())
    }
}

impl Array {
    /// Construct an array by taking ownership of a vector of atoms.
    ///
    /// `ndarray::Array1::from` makes a one-dimensional array of the vector's
    /// items in their order, and `into_dyn` keeps them.
    #[verifier::external_body]
    pub fn from_vec(v: Vec<Atom>) -> (a: Array)
        ensures
            array_atoms(a) == v@,
    {
        Array(ndarray::Array1::from(v).into_dyn())
    }

    /// The atoms in the array, in order.
    ///
    /// `ndarray::ArrayBase::iter` visits the items of a one-dimensional array
    /// from first to last.
    #[verifier::external_body]
    pub fn iter_atoms(&self) -> (v: Vec<Atom>)
        ensures
            v@ == array_atoms(*self),
    {
        self.0.iter().copied().collect()
    }

    /// Return the number of _items_ in the array: the cells whose rank is one lower than the rank of the
    /// array.
    ///
    /// Since only 1d arrays are supported at the moment this is just the atoms:
    /// `ndarray::ArrayBase::len` counts them.
    #[verifier::external_body]
    pub fn number_items(&self) -> (n: usize)
        ensures
            n == array_atoms(*self).len(),
    {
        self.0.len()
    }

    /// The length of each axis. `ndarray::ArrayBase::shape` gives one length for
    /// an array with one axis: the number of its items.
    #[verifier::external_body]
    fn axes(&self) -> (v: Vec<usize>)
        ensures
            v@ == seq![array_atoms(*self).len() as usize],
    {
        self.0.shape().to_vec()
    }

    /// Return the shape of the array, as another array.
    pub fn shape(&self) -> (s: Array)
        ensures
            s@ == seq![Atom::spec_from_count(self@.len() as usize)],
    {
        let axes = self.axes();
        let mut atoms: Vec<Atom> = Vec::new();
        let mut i: usize = 0;
        while i < axes.len()
            invariant
                i <= axes.len(),
                atoms@.len() == i,
                forall|j: int| 0 <= j < i ==> atoms@[j] == Atom::spec_from_count(axes@[j]),
            decreases axes.len() - i,
        {
            atoms.push(Atom::from_count(axes[i]));
            i += 1;
        }
        assert(atoms@ =~= seq![Atom::spec_from_count(self@.len() as usize)]);
        Array::from_vec(atoms)
    }

    /// Return an empty (1-d) array.
    pub fn empty() -> (a: Array)
        ensures
            a@ == Seq::<Atom>::empty(),
    {
        Array::from_vec(Vec::new())
    }

    /// Writes the array on one line, within `limit` columns if there is a limit.
    pub fn display(&self, limit: Option<usize>) -> (text: Vec<char>)
        ensures
            text@ == atoms_text(self@, limit),
    {
        let atoms = self.iter_atoms();
        let mut text: Vec<char> = Vec::new();
        let mut i: usize = 0;
        while i < atoms.len()
            invariant_except_break
                i <= atoms.len(),
                atoms_text(atoms@, limit) == text@ + atoms_text_from(
                    atoms@,
                    i as int,
                    text@.len() as int,
                    limit,
                ),
            ensures
                text@ == atoms_text(atoms@, limit),
            decreases atoms.len() - i,
        {
            let ghost before = text@;
            let mut word = atoms[i].display();
            if i > 0 {
                text.push(' ');
                if let Some(l) = limit {
                    let col: usize = text.len();
                    if col >= l || l - col <= 3 || l - col <= word.len() {
                        text.push('.');
                        text.push('.');
                        text.push('.');
                        assert(text@ =~= before + (seq![' '] + ellipsis()));
                        break;
                    }
                }
            }
            text.append(&mut word);
            proof {
                let word_text = atom_text(atoms@[i as int]@);
                if i == 0 {
                    assert(text@ =~= before + word_text);
                } else {
                    assert(text@ =~= before + (seq![' '] + word_text));
                }
                let rest = atoms_text_from(atoms@, i + 1, text@.len() as int, limit);
                assert(atoms_text(atoms@, limit) =~= text@ + rest);
            }
            i += 1;
        }
        text
    }
}

/// The atoms written one after another with a space between them, none left out.
pub open spec fn listing(atoms: Seq<Atom>) -> Seq<char> {
    atoms_text(atoms, None)
}

/// How many atoms are written, counting from index `i`, where `col`
/// characters have been written already: all of them, or those before the
/// first atom that gives way to an ellipsis.
pub open spec fn shown_from(atoms: Seq<Atom>, i: int, col: int, limit: Option<usize>) -> int
    decreases atoms.len() - i,
{
    if i < 0 || i >= atoms.len() {
        atoms.len() as int
    } else if i == 0 {
        shown_from(atoms, 1, col + atom_text(atoms[0]@).len(), limit)
    } else {
        let word = atom_text(atoms[i]@);
        if limit matches Some(l) && (col + 1 + 3 >= l || col + 1 + word.len() >= l) {
            i
        } else {
            shown_from(atoms, i + 1, col + 1 + word.len(), limit)
        }
    }
}

/// How many atoms of a list are written within `limit` columns.
pub open spec fn shown(atoms: Seq<Atom>, limit: Option<usize>) -> int {
    shown_from(atoms, 0, 0, limit)
}

/// A space and an ellipsis where atoms were left out, and nothing where none was.
pub open spec fn cut_mark(left_out: bool) -> Seq<char> {
    if left_out {
        seq![' '] + ellipsis()
    } else {
        seq![]
    }
}

/// The listing of the first `n + 1` atoms, from index `i` on, is that of the
/// first `n` followed by the atom at `n`, after a space if it is not the first.
proof fn lemma_listing_from_take(atoms: Seq<Atom>, n: int, i: int, col: int)
    requires
        0 <= i <= n < atoms.len(),
    ensures
        atoms_text_from(atoms.take(n + 1), i, col, None) == atoms_text_from(
            atoms.take(n),
            i,
            col,
            None,
        ) + (if n == 0 {
            atom_text(atoms[n]@)
        } else {
            seq![' '] + atom_text(atoms[n]@)
        }),
    decreases n - i,
{
    let more = atoms.take(n + 1);
    let fewer = atoms.take(n);
    let last = if n == 0 {
        atom_text(atoms[n]@)
    } else {
        seq![' '] + atom_text(atoms[n]@)
    };
    if i == n {
        assert(atoms_text_from(more, n + 1, col + atom_text(more[n]@).len(), None) =~= seq![]);
        assert(atoms_text_from(more, n + 1, col + 1 + atom_text(more[n]@).len(), None) =~= seq![]);
        assert(atoms_text_from(fewer, i, col, None) =~= seq![]);
        assert(atoms_text_from(more, i, col, None) =~= atoms_text_from(fewer, i, col, None) + last);
    } else {
        let word = atom_text(atoms[i]@);
        assert(more[i] == atoms[i]);
        assert(fewer[i] == atoms[i]);
        if i == 0 {
            lemma_listing_from_take(atoms, n, 1, col + word.len());
            assert(atoms_text_from(more, i, col, None) =~= atoms_text_from(fewer, i, col, None)
                + last);
        } else {
            lemma_listing_from_take(atoms, n, i + 1, col + 1 + word.len());
            assert(atoms_text_from(more, i, col, None) =~= atoms_text_from(fewer, i, col, None)
                + last);
        }
    }
}

/// The listing of the first `n + 1` atoms is that of the first `n` followed
/// by the atom at `n`, after a space if it is not the first.
pub proof fn lemma_listing_take(atoms: Seq<Atom>, n: int)
    requires
        0 <= n < atoms.len(),
    ensures
        listing(atoms.take(n + 1)) == listing(atoms.take(n)) + (if n == 0 {
            atom_text(atoms[n]@)
        } else {
            seq![' '] + atom_text(atoms[n]@)
        }),
        n == 0 ==> listing(atoms.take(n)) == Seq::<char>::empty(),
{
    lemma_listing_from_take(atoms, n, 0, 0);
    if n == 0 {
        assert(atoms_text_from(atoms.take(0), 0, 0, None) =~= seq![]);
    }
}

/// What is written from index `i` on, behind the listing of the atoms before it.
proof fn lemma_cut_from(atoms: Seq<Atom>, i: int, l: usize)
    requires
        1 <= i <= atoms.len(),
    ensures
        ({
            let col = listing(atoms.take(i)).len() as int;
            let k = shown_from(atoms, i, col, Some(l));
            &&& i <= k <= atoms.len()
            &&& listing(atoms.take(i)) + atoms_text_from(atoms, i, col, Some(l)) == listing(
                atoms.take(k),
            ) + cut_mark(k < atoms.len())
            &&& k > i ==> listing(atoms.take(k)).len() < l
            &&& k < atoms.len() ==> {
                ||| listing(atoms.take(k)).len() + 1 + 3 >= l
                ||| listing(atoms.take(k)).len() + 1 + atom_text(atoms[k]@).len() >= l
            }
        }),
    decreases atoms.len() - i,
{
    let before = listing(atoms.take(i));
    let col = before.len() as int;
    if i == atoms.len() {
        assert(atoms_text_from(atoms, i, col, Some(l)) =~= seq![]);
        assert(before + atoms_text_from(atoms, i, col, Some(l)) =~= before + cut_mark(false));
    } else {
        let word = atom_text(atoms[i]@);
        if col + 1 + 3 >= l || col + 1 + word.len() >= l {
            assert(before + atoms_text_from(atoms, i, col, Some(l)) =~= before + cut_mark(true));
        } else {
            lemma_listing_take(atoms, i);
            let next = listing(atoms.take(i + 1));
            assert(next =~= before + (seq![' '] + word));
            assert(next.len() == col + 1 + word.len());
            lemma_cut_from(atoms, i + 1, l);
            let k = shown_from(atoms, i + 1, next.len() as int, Some(l));
            assert(before + atoms_text_from(atoms, i, col, Some(l)) =~= next + atoms_text_from(
                atoms,
                i + 1,
                next.len() as int,
                Some(l),
            ));
        }
    }
}

/// A list of one atom is written as that atom, in full, whatever the limit.
pub proof fn lemma_one_atom_in_full(a: Atom, limit: Option<usize>)
    ensures
        atoms_text(seq![a], limit) == atom_text(a@),
        shown(seq![a], limit) == 1,
{
    let atoms = seq![a];
    let word = atom_text(a@);
    assert(atoms_text_from(atoms, 1, word.len() as int, limit) =~= seq![]);
    assert(atoms_text(atoms, limit) =~= word);
    assert(shown_from(atoms, 1, word.len() as int, limit) == 1);
}

/// Within a limit, a list is written as the listing of its first atoms,
/// with a space and an ellipsis behind them if any atom is left out. The first
/// atom is always written. An atom after it is left out, and so are all that
/// follow, as soon as it or the ellipsis in its place would reach the limit.
/// So where more than one atom is written, they stay below the limit.
pub proof fn lemma_display_within_limit(atoms: Seq<Atom>, l: usize)
    requires
        atoms.len() > 0,
    ensures
        ({
            let k = shown(atoms, Some(l));
            &&& 1 <= k <= atoms.len()
            &&& atoms_text(atoms, Some(l)) == listing(atoms.take(k)) + cut_mark(k < atoms.len())
            &&& k > 1 ==> listing(atoms.take(k)).len() < l
            &&& k < atoms.len() ==> {
                ||| listing(atoms.take(k)).len() + 1 + 3 >= l
                ||| listing(atoms.take(k)).len() + 1 + atom_text(atoms[k]@).len() >= l
            }
        }),
{
    let word = atom_text(atoms[0]@);
    lemma_listing_take(atoms, 0);
    assert(listing(atoms.take(1)) =~= word);
    lemma_cut_from(atoms, 1, l);
    assert(atoms_text(atoms, Some(l)) =~= listing(atoms.take(1)) + atoms_text_from(
        atoms,
        1,
        word.len() as int,
        Some(l),
    ));
}

/// Without a limit, no atom is left out.
pub proof fn lemma_display_without_limit(atoms: Seq<Atom>)
    ensures
        shown(atoms, None) == atoms.len(),
{
    lemma_shown_all(atoms, 0, 0);
}

/// Without a limit, every atom from index `i` on is written.
proof fn lemma_shown_all(atoms: Seq<Atom>, i: int, col: int)
    ensures
        shown_from(atoms, i, col, None) == atoms.len(),
    decreases atoms.len() - i,
{
    if 0 <= i < atoms.len() {
        let word = atom_text(atoms[i]@);
        if i == 0 {
            lemma_shown_all(atoms, 1, col + word.len());
        } else {
            lemma_shown_all(atoms, i + 1, col + 1 + word.len());
        }
    }
}

} // verus!
