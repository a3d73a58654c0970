//! Test printing values.

use rsj::array::Array;
use rsj::atom::Atom;
use rsj::noun::Noun;
use rsj::word::Word;

fn array(numbers: &[f64]) -> Array {
    Array::from_vec(numbers.iter().map(|x| Atom::from_real(x.to_bits())).collect())
}

fn print(a: &Array, limit: Option<usize>) -> String {
    a.display(limit).into_iter().collect()
}

/// A sequence of numbers of many sizes that is the same on every run.
fn numbers(seed: u64, count: usize) -> Vec<f64> {
    let mut state = seed;
    let mut out = Vec::new();
    for _ in 0..count {
        state = state
            .wrapping_mul(6364136223846793005)
            .wrapping_add(1442695040888963407);
        let x = match state >> 61 {
            0 => f64::from_bits(state),
            1 => (state >> 40) as f64,
            2 => -((state >> 50) as f64),
            3 => (state >> 11) as f64 / (1u64 << 53) as f64,
            4 => f64::INFINITY,
            5 => 0.0,
            6 => ((state >> 32) as f64) * 1e-3,
            _ => f64::NEG_INFINITY,
        };
        out.push(x);
    }
    out
}

#[test]
fn number_array_print_length_limited() {
    let lim = 80;
    for seed in 0..400u64 {
        let a = numbers(seed, (seed % 40) as usize);
        let p = print(&array(&a), Some(lim));
        // A single number alone is always printed, even if it's very long.
        if a.len() == 1 {
            assert!(!p.ends_with("..."));
            assert!(!p.contains(' '));
        } else if let Some(b) = p.strip_suffix(" ...") {
            // If we only managed to print one number, it's OK if it's more
            // than lim. Otherwise, the whole line should be under lim.
            if b.contains(' ') {
                assert!(b.len() <= lim);
            }
        } else {
            assert!(
                p.len() <= lim,
                "with no elipsis the line should be shorter than the lim"
            );
        }
    }
}

#[test]
fn short_arrays_are_printed_in_full() {
    assert_eq!(print(&array(&[1.0, 2.0, 3.0]), Some(80)), "1 2 3");
    assert_eq!(print(&array(&[1.0, 2.0, 3.0]), None), "1 2 3");
    assert_eq!(print(&array(&[]), Some(80)), "");
    assert_eq!(print(&Array::empty(), None), "");
}

#[test]
fn a_single_number_is_never_cut() {
    assert_eq!(print(&array(&[123456.789]), Some(4)), "123456.789");
    assert_eq!(print(&array(&[123456.789]), Some(0)), "123456.789");
    assert_eq!(print(&array(&[1.0]), Some(1)), "1");
}

#[test]
fn the_ellipsis_comes_when_the_limit_would_be_reached() {
    let a = array(&[1.0, 2.0, 3.0, 4.0, 5.0, 6.0]);
    // "1 2 3" takes five columns, and a space and three dots reach the limit of nine.
    assert_eq!(print(&a, Some(9)), "1 2 3 ...");
    assert_eq!(print(&a, Some(10)), "1 2 3 4 ...");
    assert_eq!(print(&a, Some(12)), "1 2 3 4 5 ...");
    assert_eq!(print(&a, Some(13)), "1 2 3 4 5 ...");
    assert_eq!(print(&a, Some(14)), "1 2 3 4 5 6");
    assert_eq!(print(&a, Some(1)), "1 ...");
    assert_eq!(print(&a, Some(0)), "1 ...");
    assert_eq!(print(&a, None), "1 2 3 4 5 6");
}

#[test]
fn a_long_number_gives_way_to_the_ellipsis() {
    let a = array(&[1.0, 123456.789, 2.0]);
    assert_eq!(print(&a, Some(12)), "1 ...");
    assert_eq!(print(&a, Some(13)), "1 123456.789 ...");
    assert_eq!(print(&a, Some(16)), "1 123456.789 ...");
    assert_eq!(print(&a, Some(17)), "1 123456.789 2");
}

#[test]
fn without_a_limit_nothing_is_cut() {
    let a: Vec<f64> = (0..200).map(|i| i as f64).collect();
    let p = print(&array(&a), None);
    assert!(p.ends_with("198 199"));
    assert_eq!(p.split(' ').count(), 200);
}

#[test]
fn nouns_and_words_are_written_like_their_values() {
    let list = Noun::from_vec(vec![
        Atom::from_real(1.0f64.to_bits()),
        Atom::from_real((-2.0f64).to_bits()),
    ]);
    assert_eq!(list.display(None).into_iter().collect::<String>(), "1 _2");
    assert_eq!(Word::Noun(list).display(Some(80)), "1 _2");
    assert_eq!(Word::OpenParen.display(None), "(");
    assert_eq!(Word::CloseParen.display(None), ")");
    assert_eq!(Word::Verb(rsj::primitive::MINUS_DOT).display(None), "-.");
    let atom = Noun::Atom(Atom::from_real(123456.789f64.to_bits()));
    assert_eq!(Word::Noun(atom).display(Some(3)), "123456.789");
}

#[test]
fn arrays_know_their_items() {
    let a = array(&[1.0, 2.0, 3.0]);
    assert_eq!(a.number_items(), 3);
    assert_eq!(a.iter_atoms().len(), 3);
    assert_eq!(a.iter_atoms()[1], Atom::from_real(2.0f64.to_bits()));
    assert_eq!(a.shape(), array(&[3.0]));
    assert_eq!(Array::empty().number_items(), 0);
    assert_eq!(Array::empty().shape(), array(&[0.0]));
    assert_eq!(a.clone(), a);
    assert_ne!(a, array(&[1.0, 2.0]));
    assert_ne!(a, array(&[1.0, 2.0, 4.0]));
}
