//! Tests that hold the bit patterns of numbers against the machine's own numbers.

use rsj::atom::Atom;
use rsj::double;

fn samples() -> Vec<f64> {
    vec![
        0.0,
        -0.0,
        1.0,
        -1.0,
        0.5,
        -0.5,
        0.25,
        0.999_999_999_999_999_9,
        1.000_000_000_000_000_2,
        2.0,
        -2.0,
        123.45,
        -4.56,
        1e21,
        -1e21,
        1e-7,
        5e-324,
        -5e-324,
        f64::MAX,
        f64::MIN,
        f64::MIN_POSITIVE,
        f64::INFINITY,
        f64::NEG_INFINITY,
        f64::NAN,
        -f64::NAN,
        f64::from_bits(0x7ff0_0000_0000_0001),
        f64::from_bits(0xffff_ffff_ffff_ffff),
    ]
}

#[test]
fn constants_are_the_bits_of_the_numbers() {
    assert_eq!(double::ZERO, 0.0f64.to_bits());
    assert_eq!(double::SIGN_BIT, (-0.0f64).to_bits());
    assert_eq!(double::ONE, 1.0f64.to_bits());
    assert_eq!(double::INFINITY, f64::INFINITY.to_bits());
    assert_eq!(double::NEG_INFINITY, f64::NEG_INFINITY.to_bits());
    assert!(f64::from_bits(double::NAN).is_nan());
}

#[test]
fn classes_agree_with_the_machine() {
    for x in samples() {
        let bits = x.to_bits();
        assert_eq!(double::is_nan(bits), x.is_nan(), "{:?}", x);
        assert_eq!(double::is_infinite(bits), x.is_infinite(), "{:?}", x);
        assert_eq!(double::is_zero(bits), x == 0.0, "{:?}", x);
        assert_eq!(double::is_below_zero(bits), x < 0.0, "{:?}", x);
        assert_eq!(
            double::is_proper_fraction(bits),
            x > 0.0 && x < 1.0,
            "{:?}",
            x
        );
    }
}

#[test]
fn equality_agrees_with_the_machine() {
    for x in samples() {
        for y in samples() {
            assert_eq!(
                double::equal(x.to_bits(), y.to_bits()),
                x == y,
                "{:?} {:?}",
                x,
                y
            );
        }
    }
}

#[test]
fn sign_copying_agrees_with_the_machine() {
    for x in samples() {
        for y in samples() {
            assert_eq!(
                double::with_sign_of(x.to_bits(), y.to_bits()),
                x.copysign(y).to_bits(),
                "{:?} {:?}",
                x,
                y
            );
        }
    }
}

#[test]
fn signum_agrees_with_the_machine() {
    for x in samples() {
        let s = double::signum(x.to_bits());
        if x.is_nan() {
            assert!(f64::from_bits(s).is_nan());
        } else {
            assert_eq!(s, x.signum().to_bits(), "{:?}", x);
        }
    }
}

#[test]
fn numbers_are_written_in_the_shortest_form() {
    let text = |x: f64| -> String { double::display(x.to_bits()).into_iter().collect() };
    assert_eq!(text(1.0), "1");
    assert_eq!(text(0.0), "0");
    assert_eq!(text(-0.0), "0");
    assert_eq!(text(-2.5), "_2.5");
    assert_eq!(text(123.45), "123.45");
    assert_eq!(text(0.1 + 0.2), "0.30000000000000004");
    assert_eq!(text(1e21), "1e21");
    assert_eq!(text(-1e-7), "_1e_7");
    assert_eq!(text(100.0), "100");
    assert_eq!(text(f64::INFINITY), "_");
    assert_eq!(text(f64::NEG_INFINITY), "__");
    assert_eq!(text(f64::NAN), "NaN");
}

#[test]
fn atoms_are_written_by_their_parts() {
    let text = |a: Atom| -> String { a.display().into_iter().collect() };
    assert_eq!(text(Atom::from_real(1.5f64.to_bits())), "1.5");
    assert_eq!(text(Atom::new(1.5f64.to_bits(), (-0.0f64).to_bits())), "1.5");
    assert_eq!(text(Atom::new(1.0f64.to_bits(), 2.0f64.to_bits())), "12");
    assert_eq!(text(Atom::zero()), "0");
    assert_eq!(text(Atom::one()), "1");
}

#[test]
fn atoms_are_equal_as_numbers() {
    let a = |re: f64, im: f64| Atom::new(re.to_bits(), im.to_bits());
    assert_eq!(a(1.0, 0.0), a(1.0, -0.0));
    assert_eq!(a(0.0, 0.0), a(-0.0, -0.0));
    assert_ne!(a(1.0, 0.0), a(1.0, 1.0));
    assert_ne!(a(f64::NAN, 0.0), a(f64::NAN, 0.0));
    assert_eq!(Atom::zero(), a(0.0, 0.0));
    assert_eq!(Atom::one(), a(1.0, 0.0));
}

#[test]
fn atom_questions() {
    let a = |re: f64, im: f64| Atom::new(re.to_bits(), im.to_bits());
    assert!(Atom::zero().is_zero());
    assert!(a(-0.0, 0.0).is_zero());
    assert!(!a(0.0, 1.0).is_zero());
    assert!(!a(f64::NAN, 0.0).is_zero());
    assert_eq!(a(2.5, 0.0).try_to_f64(), Some(2.5f64.to_bits()));
    assert_eq!(a(2.5, -0.0).try_to_f64(), Some(2.5f64.to_bits()));
    assert_eq!(a(2.5, 1.0).try_to_f64(), None);
}

#[test]
fn atom_arithmetic_is_complex_arithmetic() {
    let a = |re: f64, im: f64| Atom::new(re.to_bits(), im.to_bits());
    let x = a(1.0, 2.0);
    let y = a(3.0, -1.0);
    assert_eq!(x.sum(&y), a(4.0, 1.0));
    assert_eq!(x.difference(&y), a(-2.0, 3.0));
    assert_eq!(x.product(&y), a(5.0, 5.0));
    assert_eq!(a(5.0, 5.0).quotient(&y), a(1.0, 2.0));
    assert_eq!(x.negation(), a(-1.0, -2.0));
    assert_eq!(Atom::from_count(7), a(7.0, 0.0));
    assert_eq!(Atom::from_count(0), Atom::zero());
}
