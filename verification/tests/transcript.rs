//! Tests for transcripts and for documents with examples.

use rsj::eval::Session;
use rsj::markdown::{reinsert_indents, Chunk, CodeBlockKind, Literate, Mark};
use rsj::transcript::{has_overindented_input, rerun, split_lines};

const MD: &str = "# Literate J in Markdown

Introductory text.

       3 + 4
    7

And closing text.
";

fn lines(text: &str) -> Vec<String> {
    let chars: Vec<char> = text.chars().collect();
    split_lines(&chars)
        .into_iter()
        .map(|l| l.into_iter().collect())
        .collect()
}

#[test]
fn extract_and_recombine_examples() {
    let literate = Literate::parse(MD).unwrap();
    assert_eq!(
        &literate.reassemble(),
        MD,
        "chunks recombine to exacply match the input"
    );
    let examples: Vec<&Chunk> = literate
        .chunks
        .iter()
        .filter(|i| matches!(i, Chunk::J(_, _)))
        .collect();
    assert_eq!(examples.len(), 1);
    match &examples[0] {
        &Chunk::J(text, kind) => {
            assert_eq!(*kind, CodeBlockKind::Indented);
            assert_eq!(
                text, &"   3 + 4\n7\n",
                "first line of input is indented with J prompt; others are flush"
            );
        }
        _ => panic!(),
    }
    assert_eq!(
        literate.extract_transcript().unwrap(),
        "   3 + 4
7
"
    );
}

#[test]
fn lines_are_split_as_the_standard_library_splits_them() {
    for text in [
        "",
        "\n",
        "a",
        "a\n",
        "a\nb",
        "a\n\nb\n",
        "a\r\nb\r\n",
        "a\r",
        "\r\n",
        "a\rb\n",
        "\n\n",
        "   3 + 4\n7\n",
        "caf\u{e9}\r\nna\u{ef}ve",
    ] {
        let expected: Vec<String> = text.lines().map(|l| l.to_string()).collect();
        assert_eq!(lines(text), expected, "{:?}", text);
    }
}

#[test]
fn rerun_evaluates_every_line_of_input() {
    let mut session = Session::new();
    assert_eq!(
        rerun(&mut session, "   3 + 4\n7\n").unwrap(),
        "   3 + 4\n7\n"
    );
    assert_eq!(
        rerun(&mut session, "   3 + 4\nstale\n   1 2 3 * 2\n").unwrap(),
        "   3 + 4\n7\n   1 2 3 * 2\n2 4 6\n"
    );
    assert_eq!(rerun(&mut session, "").unwrap(), "");
    assert_eq!(
        rerun(&mut session, "no input here\n").unwrap(),
        ""
    );
}

#[test]
fn rerun_prints_an_empty_line_for_no_result() {
    let mut session = Session::new();
    assert_eq!(
        rerun(&mut session, "   NB. a comment").unwrap(),
        "   NB. a comment\n\n"
    );
    assert_eq!(rerun(&mut session, "   ").unwrap(), "   \n\n");
}

#[test]
fn rerun_records_errors() {
    let mut session = Session::new();
    assert_eq!(
        rerun(&mut session, "   1 2 + 1 2 3\n   1 + 1\n").unwrap(),
        "   1 2 + 1 2 3\nerror: Length\n   1 + 1\n2\n"
    );
}

#[test]
fn overindented_input_is_found() {
    assert!(!has_overindented_input("   3 + 4\n7\n"));
    assert!(has_overindented_input("    3 + 4\n7\n"));
    assert!(has_overindented_input("   1\n1\n     2\n"));
    assert!(!has_overindented_input(""));
    assert!(!has_overindented_input("  \n"));
    assert!(!has_overindented_input("   \n"));
    assert!(has_overindented_input("    "));
}

#[test]
fn indents_are_put_before_all_lines_but_the_first() {
    assert_eq!(reinsert_indents("   3 + 4\n7\n"), "   3 + 4\n    7\n");
    assert_eq!(reinsert_indents("one"), "one\n");
    assert_eq!(reinsert_indents(""), "");
    assert_eq!(reinsert_indents("a\n\nb"), "a\n    \n    b\n");
}

#[test]
fn documents_are_run_chunk_by_chunk() {
    let literate = Literate {
        chunks: vec![
            Chunk::Other("Text.\n\n    ".to_string()),
            Chunk::J("   3 + 4\n8\n".to_string(), CodeBlockKind::Indented),
            Chunk::Other("\nMore.\n\n".to_string()),
            Chunk::J(
                "   i. 3\n".to_string(),
                CodeBlockKind::Fenced("j".to_string()),
            ),
            Chunk::Other("\n".to_string()),
        ],
    };
    assert!(literate.is_runnable());
    assert_eq!(
        literate.reassemble(),
        "Text.\n\n       3 + 4\n    8\n\nMore.\n\n```j\n   i. 3\n```\n"
    );
    assert_eq!(
        literate.run(&mut Session::new()).unwrap(),
        "Text.\n\n       3 + 4\n    7\n\nMore.\n\n```j\n   i. 3\n0 1 2\n```\n"
    );
    assert_eq!(
        literate.extract_transcript().unwrap(),
        "   3 + 4\n8\n   i. 3\n"
    );
}

#[test]
fn documents_with_overindented_input_are_not_runnable() {
    let literate = Literate {
        chunks: vec![
            Chunk::Other("    3 + 4 is no code here".to_string()),
            Chunk::J("    3 + 4\n".to_string(), CodeBlockKind::Indented),
        ],
    };
    assert!(!literate.is_runnable());
    let fine = Literate {
        chunks: vec![Chunk::Other("    3 + 4 is no code here".to_string())],
    };
    assert!(fine.is_runnable());
}

#[test]
fn a_document_that_is_up_to_date_runs_to_itself() {
    let literate = Literate::parse(MD).unwrap();
    assert!(literate.is_runnable());
    assert_eq!(literate.run(&mut Session::new()).unwrap(), MD);
}

#[test]
fn fenced_examples_are_found() {
    let md = "Intro\n\n```j\n   2 * 3\n5\n```\n\nOutro\n";
    let literate = Literate::parse(md).unwrap();
    assert_eq!(
        literate.chunks,
        vec![
            Chunk::Other("Intro\n\n".to_string()),
            Chunk::J(
                "   2 * 3\n5\n".to_string(),
                CodeBlockKind::Fenced("j".to_string())
            ),
            Chunk::Other("\n\nOutro\n".to_string()),
        ]
    );
    assert_eq!(literate.reassemble(), md);
    assert_eq!(
        literate.run(&mut Session::new()).unwrap(),
        "Intro\n\n```j\n   2 * 3\n6\n```\n\nOutro\n"
    );
}

#[test]
fn marks_divide_a_document() {
    let md = "ab\u{e9}cd";
    let marks = vec![
        Mark::Other,
        Mark::Text("ignored".to_string()),
        Mark::IndentedStart(2),
        Mark::Text("x".to_string()),
        Mark::Text("y".to_string()),
        Mark::CodeEnd(4),
    ];
    let literate = Literate::from_marks(md, &marks).unwrap();
    assert_eq!(
        literate.chunks,
        vec![
            Chunk::Other("ab".to_string()),
            Chunk::J("xy".to_string(), CodeBlockKind::Indented),
            Chunk::Other("cd".to_string()),
        ]
    );
    assert_eq!(Literate::from_marks("", &vec![]).unwrap().chunks, vec![]);
    assert_eq!(
        Literate::from_marks("ab", &vec![]).unwrap().chunks,
        vec![Chunk::Other("ab".to_string())]
    );
}

#[test]
fn marks_that_do_not_fit_are_refused() {
    let md = "ab\u{e9}cd";
    // A block within a block.
    let nested = vec![Mark::IndentedStart(0), Mark::IndentedStart(1)];
    assert_eq!(Literate::from_marks(md, &nested), None);
    // An end without a beginning.
    assert_eq!(Literate::from_marks(md, &vec![Mark::CodeEnd(1)]), None);
    // A block that does not end.
    assert_eq!(Literate::from_marks(md, &vec![Mark::IndentedStart(1)]), None);
    // A beginning within a character.
    let split = vec![Mark::IndentedStart(3), Mark::CodeEnd(4)];
    assert_eq!(Literate::from_marks(md, &split), None);
    // An end within a character.
    let split = vec![Mark::IndentedStart(1), Mark::CodeEnd(3)];
    assert_eq!(Literate::from_marks(md, &split), None);
    // A beginning behind the end of the document.
    let far = vec![Mark::IndentedStart(9), Mark::CodeEnd(9)];
    assert_eq!(Literate::from_marks(md, &far), None);
}
