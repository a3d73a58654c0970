//! Tests for the primitive verbs and how they are applied.

use num_complex::Complex64;
use rsj::array::Array;
use rsj::atom::Atom;
use rsj::error::Error;
use rsj::noun::Noun;
use rsj::primitive::{
    bytes_equal, AtomDyad, AtomMonad, Dyad, Monad, NounMonad, Primitive, PRIMITIVES,
};
use rsj::verb::{Inherent, Verb};

fn atom(x: f64) -> Atom {
    Atom::from(Complex64::new(x, 0.0))
}

fn list(numbers: &[f64]) -> Noun {
    Noun::from_vec(numbers.iter().map(|x| atom(*x)).collect())
}

#[test]
fn primitive_debug_repr() {
    let add = Primitive::by_name(b"+").unwrap();
    assert_eq!(add.debug(), r#"Primitive { name: "+" }"#);
}

#[test]
fn every_primitive_is_found_by_its_name() {
    assert_eq!(PRIMITIVES.len(), 8);
    for p in PRIMITIVES {
        assert_eq!(Primitive::by_name(p.name()).unwrap(), p);
        assert_eq!(Primitive::lookup(p.name()), Some(p));
    }
    assert_eq!(Primitive::lookup(b"-"), Some(rsj::primitive::MINUS));
    assert_eq!(Primitive::lookup(b"<."), None);
}

#[test]
fn names_are_spelled_as_written() {
    assert_eq!(rsj::primitive::DOLLAR.name(), b"$");
    assert_eq!(rsj::primitive::MINUS.name(), b"-");
    assert_eq!(rsj::primitive::MINUS_DOT.name(), b"-.");
    assert_eq!(rsj::primitive::NUMBER.name(), b"#");
    assert_eq!(rsj::primitive::PERCENT.name(), b"%");
    assert_eq!(rsj::primitive::STAR.name(), b"*");
    assert_eq!(rsj::primitive::PLUS.name(), b"+");
    assert_eq!(rsj::primitive::I_DOT.name(), b"i.");
    assert_eq!(rsj::primitive::I_DOT.display(), "i.");
    assert_eq!(
        rsj::primitive::MINUS_DOT.text(),
        vec!['-', '.']
    );
}

#[test]
fn lookup_is_exact() {
    assert!(matches!(
        Primitive::by_name(b"+."),
        Err(Error::Unimplemented("primitive"))
    ));
    assert!(matches!(
        Primitive::by_name(b""),
        Err(Error::Unimplemented("primitive"))
    ));
    assert!(matches!(
        Primitive::by_name(b"i"),
        Err(Error::Unimplemented("primitive"))
    ));
    assert!(matches!(
        Primitive::by_name(b" +"),
        Err(Error::Unimplemented("primitive"))
    ));
    assert!(bytes_equal(b"i.", b"i."));
    assert!(!bytes_equal(b"i.", b"i:"));
    assert!(!bytes_equal(b"i.", b"i"));
}

#[test]
fn forms_of_the_primitives() {
    assert_eq!(
        rsj::primitive::PLUS.monad_form(),
        Monad::Unimplemented
    );
    assert_eq!(
        rsj::primitive::PLUS.dyad_form(),
        Dyad::Zero(AtomDyad::Plus)
    );
    assert_eq!(
        rsj::primitive::NUMBER.monad_form(),
        Monad::Infinite(NounMonad::Tally)
    );
    assert_eq!(rsj::primitive::NUMBER.dyad_form(), Dyad::Unimplemented);
    assert_eq!(
        rsj::primitive::STAR.monad_form(),
        Monad::Zero(AtomMonad::Signum)
    );
}

#[test]
fn monad_of_rank_zero_maps_over_a_list() {
    let negate = Monad::Zero(AtomMonad::Negate);
    assert_eq!(
        negate.apply(&list(&[1.0, -2.0])).unwrap(),
        list(&[-1.0, 2.0])
    );
    assert_eq!(
        negate.apply(&Noun::Atom(atom(3.0))).unwrap(),
        Noun::Atom(atom(-3.0))
    );
    assert_eq!(negate.apply(&list(&[])).unwrap(), list(&[]));
}

#[test]
fn the_first_failure_ends_the_application() {
    let not = Monad::Zero(AtomMonad::Not);
    assert!(matches!(
        not.apply(&list(&[0.0, 5.0, 1.0])),
        Err(Error::Domain)
    ));
    let complex = Noun::from_vec(vec![atom(1.0), Atom::from(Complex64::new(0.0, 1.0))]);
    assert!(matches!(
        Monad::Zero(AtomMonad::Signum).apply(&complex),
        Err(Error::Unimplemented("signum of complex"))
    ));
    assert!(matches!(
        not.apply(&Noun::Atom(Atom::from(Complex64::new(0.5, 1.0)))),
        Err(Error::Domain)
    ));
}

#[test]
fn unimplemented_forms_fail() {
    assert!(matches!(
        Monad::Unimplemented.apply(&list(&[1.0])),
        Err(Error::Unimplemented("Monad::Unimplemented"))
    ));
    assert!(matches!(
        Dyad::Unimplemented.apply(&list(&[1.0]), &list(&[1.0])),
        Err(Error::Unimplemented("Dyad::Unimplemented"))
    ));
}

#[test]
fn dyad_on_lists_of_different_lengths_is_a_length_error() {
    let plus = Dyad::Zero(AtomDyad::Plus);
    assert!(matches!(
        plus.apply(&list(&[1.0, 2.0]), &list(&[1.0, 2.0, 3.0])),
        Err(Error::Length)
    ));
    assert!(matches!(
        plus.apply(&list(&[]), &list(&[1.0])),
        Err(Error::Length)
    ));
}

#[test]
fn dyad_pairs_an_atom_with_every_item() {
    let minus = Dyad::Zero(AtomDyad::Minus);
    assert_eq!(
        minus
            .apply(&Noun::Atom(atom(10.0)), &list(&[1.0, 2.0, 3.0]))
            .unwrap(),
        list(&[9.0, 8.0, 7.0])
    );
    assert_eq!(
        minus
            .apply(&list(&[1.0, 2.0, 3.0]), &Noun::Atom(atom(10.0)))
            .unwrap(),
        list(&[-9.0, -8.0, -7.0])
    );
    assert_eq!(
        minus
            .apply(&list(&[1.0, 2.0, 3.0]), &list(&[3.0, 2.0, 1.0]))
            .unwrap(),
        list(&[-2.0, 0.0, 2.0])
    );
    assert_eq!(
        minus
            .apply(&Noun::Atom(atom(1.0)), &Noun::Atom(atom(3.0)))
            .unwrap(),
        Noun::Atom(atom(-2.0))
    );
}

#[test]
fn an_atom_and_a_list_of_one_atom_are_different() {
    assert_ne!(list(&[1.0]), Noun::Atom(atom(1.0)));
    let plus = Dyad::Zero(AtomDyad::Plus);
    assert_eq!(
        plus.apply(&list(&[1.0]), &Noun::Atom(atom(1.0))).unwrap(),
        list(&[2.0])
    );
}

#[test]
fn division_of_atoms() {
    let divide = AtomDyad::Divide;
    let bits = |r: Result<Atom, Error>| -> (u64, u64) {
        let a = r.unwrap();
        (a.re, a.im)
    };
    assert_eq!(bits(divide.apply(&atom(0.0), &atom(0.0))), (0, 0));
    assert_eq!(
        bits(divide.apply(&atom(0.0), &atom(-3.0))),
        ((-0.0f64).to_bits(), 0)
    );
    assert_eq!(
        bits(divide.apply(&atom(1.0), &atom(0.0))),
        (f64::INFINITY.to_bits(), 0)
    );
    assert_eq!(
        bits(divide.apply(&atom(1.0), &atom(-0.0))),
        (f64::NEG_INFINITY.to_bits(), 0)
    );
    assert_eq!(
        bits(divide.apply(&atom(1.0), &atom(f64::NEG_INFINITY))),
        ((-0.0f64).to_bits(), 0)
    );
    assert_eq!(
        bits(divide.apply(&atom(1.0), &atom(f64::INFINITY))),
        (0, 0)
    );
    assert_eq!(divide.apply(&atom(1.0), &atom(4.0)).unwrap(), atom(0.25));
    assert_eq!(
        AtomMonad::Reciprocal.apply(&atom(8.0)).unwrap(),
        atom(0.125)
    );
}

#[test]
fn product_with_zero_is_exactly_zero() {
    let times = AtomDyad::Times;
    for x in [f64::INFINITY, f64::NEG_INFINITY, f64::NAN, 3.0, -0.0] {
        let a = times.apply(&atom(x), &atom(0.0)).unwrap();
        assert_eq!((a.re, a.im), (0, 0));
        let a = times.apply(&atom(-0.0), &atom(x)).unwrap();
        assert_eq!((a.re, a.im), (0, 0));
    }
    assert_eq!(times.apply(&atom(3.0), &atom(4.0)).unwrap(), atom(12.0));
}

#[test]
fn whole_noun_monads() {
    assert_eq!(
        NounMonad::Tally.apply(&list(&[5.0, 6.0])).unwrap(),
        Noun::Atom(atom(2.0))
    );
    assert_eq!(
        NounMonad::Tally.apply(&Noun::Atom(atom(9.0))).unwrap(),
        Noun::Atom(atom(1.0))
    );
    assert_eq!(
        NounMonad::ShapeOf.apply(&list(&[5.0, 6.0])).unwrap(),
        list(&[2.0])
    );
    assert_eq!(
        NounMonad::ShapeOf.apply(&Noun::Atom(atom(9.0))).unwrap(),
        Noun::Array(Array::empty())
    );
    assert_eq!(
        NounMonad::Integers.apply(&Noun::Atom(atom(3.0))).unwrap(),
        list(&[0.0, 1.0, 2.0])
    );
    assert_eq!(
        NounMonad::Integers
            .apply(&Noun::Atom(atom(f64::NAN)))
            .unwrap(),
        list(&[])
    );
    assert!(matches!(
        NounMonad::Integers.apply(&Noun::Atom(Atom::from(Complex64::new(3.0, 1.0)))),
        Err(Error::Domain)
    ));
}

#[test]
fn verbs_apply_their_forms() {
    let minus = rsj::primitive::MINUS;
    assert_eq!(
        minus.monad(&Noun::Atom(atom(2.0))).unwrap(),
        Noun::Atom(atom(-2.0))
    );
    assert_eq!(
        minus
            .dyad(&Noun::Atom(atom(2.0)), &Noun::Atom(atom(5.0)))
            .unwrap(),
        Noun::Atom(atom(-3.0))
    );
    assert_eq!(minus.display(), "-");
}

#[test]
fn inherent_verbs_are_looked_up_by_name() {
    assert_eq!(Inherent::lookup("+"), Some(Inherent("+")));
    assert_eq!(Inherent::lookup("-"), None);
    assert_eq!(Inherent::lookup(""), None);
    assert_eq!(Inherent::lookup("++"), None);
    assert_eq!(Inherent::lookup("+").unwrap().display(), "+");
}

#[test]
fn atoms_turn_into_complex_numbers_and_back() {
    for (re, im) in [(1.5, -2.0), (0.0, -0.0), (f64::INFINITY, 3.0)] {
        let c = Complex64::new(re, im);
        let a = Atom::from(c);
        assert_eq!((a.re, a.im), (re.to_bits(), im.to_bits()));
        assert_eq!(a.to_complex(), c);
        assert_eq!(Atom::from(a.to_complex()), a);
    }
    let nan = Atom::new(0x7ff8_0000_0000_0001, 0xfff0_0000_0000_0002);
    let back = Atom::from(nan.to_complex());
    assert_eq!((back.re, back.im), (nan.re, nan.im));
}
