//! Handle transcripts: lines of input behind a prompt, each followed by the
//! line that it evaluates to.

use vstd::prelude::*;
use vstd::utf8::encode_utf8;
use crate::error::Error;
use crate::eval::{line_text, Session};
use crate::text::{chars_of, string_of};

verus! {

/// The index of the first line feed at or after `pos`, or the length of
/// `text` if no line feed follows.
pub open spec fn line_break(text: Seq<char>, pos: int) -> int
    decreases text.len() - pos,
{
    if 0 <= pos < text.len() && text[pos] != '\n' {
        line_break(text, pos + 1)
    } else {
        pos
    }
}

/// The line that runs from `pos` up to the line break at `end`. The
/// carriage return of a line that ends in a carriage return and a line feed
/// is no part of the line.
pub open spec fn line_between(text: Seq<char>, pos: int, end: int) -> Seq<char> {
    if pos < end < text.len() && text[end - 1] == '\r' {
        text.subrange(pos, end - 1)
    } else {
        text.subrange(pos, end)
    }
}

/// The lines of `text` from `pos` on. Each line ends at a line feed or at
/// the end of the text; no line follows a line feed that ends the text.
pub open spec fn lines_from(text: Seq<char>, pos: int) -> Seq<Seq<char>>
    decreases text.len() - pos,
{
    if 0 <= pos < text.len() {
        let end = line_break(text, pos);
        if end < text.len() {
            proof {
                lemma_line_break(text, pos);
            }
            seq![line_between(text, pos, end)] + lines_from(text, end + 1)
        } else {
            seq![line_between(text, pos, end)]
        }
    } else {
        seq![]
    }
}

/// The lines of `text`.
pub open spec fn lines(text: Seq<char>) -> Seq<Seq<char>> {
    lines_from(text, 0)
}

/// True of a line of input: one that begins with the prompt of three spaces.
pub open spec fn is_input(line: Seq<char>) -> bool {
    line.len() >= 3 && line[0] == ' ' && line[1] == ' ' && line[2] == ' '
}

/// True of a line of input with a fourth space behind the prompt.
pub open spec fn is_overindented(line: Seq<char>) -> bool {
    is_input(line) && line.len() >= 4 && line[3] == ' '
}

/// True if one of the lines is a line of input with a space behind the prompt.
pub open spec fn any_overindented(lines: Seq<Seq<char>>) -> bool {
    exists|i: int| 0 <= i < lines.len() && is_overindented(#[trigger] lines[i])
}

/// What a line of a transcript becomes when it is run again: a line of
/// input is followed by the line that it evaluates to, and any other line
/// is dropped.
pub open spec fn rerun_line(line: Seq<char>) -> Seq<char> {
    if is_input(line) {
        line + seq!['\n'] + line_text(encode_utf8(line.skip(3))) + seq!['\n']
    } else {
        seq![]
    }
}

/// What the lines of a transcript become when they are run again.
pub open spec fn rerun_lines(lines: Seq<Seq<char>>) -> Seq<char>
    decreases lines.len(),
{
    if lines.len() == 0 {
        seq![]
    } else {
        rerun_lines(lines.drop_last()) + rerun_line(lines.last())
    }
}

/// A line break lies at or after the position that it is sought from, and
/// no line feed lies between the two.
pub proof fn lemma_line_break(text: Seq<char>, pos: int)
    requires
        0 <= pos <= text.len(),
    ensures
        pos <= line_break(text, pos) <= text.len(),
        forall|i: int| pos <= i < line_break(text, pos) ==> #[trigger] text[i] != '\n',
        line_break(text, pos) < text.len() ==> text[line_break(text, pos)] == '\n',
    decreases text.len() - pos,
{
    if pos < text.len() && text[pos] != '\n' {
        lemma_line_break(text, pos + 1);
    }
}

/// Splits text into its lines.
pub fn split_lines(text: &Vec<char>) -> (r: Vec<Vec<char>>)
    ensures
        r@.len() == lines(text@).len(),
        forall|i: int| 0 <= i < r@.len() ==> (#[trigger] r@[i])@ == lines(text@)[i],
{
    let mut r: Vec<Vec<char>> = Vec::new();
    let mut pos: usize = 0;
    while pos < text.len()
        invariant
            pos <= text.len(),
            lines(text@).len() == r@.len() + lines_from(text@, pos as int).len(),
            forall|i: int| 0 <= i < r@.len() ==> (#[trigger] r@[i])@ == lines(text@)[i],
            forall|i: int|
                0 <= i < lines_from(text@, pos as int).len() ==> lines(text@)[r@.len() + i]
                    == #[trigger] lines_from(text@, pos as int)[i],
        decreases text.len() - pos,
    {
        let ghost rest = lines_from(text@, pos as int);
        let mut end: usize = pos;
        while end < text.len() && text[end] != '\n'
            invariant
                pos <= end <= text.len(),
                line_break(text@, end as int) == line_break(text@, pos as int),
            decreases text.len() - end,
        {
            end += 1;
        }
        let stop: usize = if pos < end && end < text.len() && text[end - 1] == '\r' {
            end - 1
        } else {
            end
        };
        let mut line: Vec<char> = Vec::new();
        let mut i: usize = pos;
        while i < stop
            invariant
                pos <= i <= stop <= text.len(),
                line@ == text@.subrange(pos as int, i as int),
            decreases stop - i,
        {
            line.push(text[i]);
            assert(line@ =~= text@.subrange(pos as int, i + 1));
            i += 1;
        }
        assert(line@ == line_between(text@, pos as int, end as int));
        let next: usize = if end < text.len() {
            end + 1
        } else {
            end
        };
        proof {
            let after = lines_from(text@, next as int);
            assert(rest =~= seq![line@] + after);
            assert(rest[0] == line@);
            assert forall|i: int| 0 <= i < after.len() implies lines(text@)[r@.len() + 1 + i]
                == #[trigger] after[i] by {
                assert(rest[i + 1] == after[i]);
            }
        }
        r.push(line);
        pos = next;
    }
    r
}

/// Tells whether a line begins with the prompt of three spaces.
fn line_is_input(line: &Vec<char>) -> (r: bool)
    ensures
        r == is_input(line@),
{
    line.len() >= 3 && line[0] == ' ' && line[1] == ' ' && line[2] == ' '
}

/// Tells whether any line of input in a transcript has a space behind its
/// prompt. Such a transcript cannot be run again.
pub fn has_overindented_input(ts: &str) -> (r: bool)
    ensures
        r == any_overindented(lines(ts@)),
{
    let text = chars_of(ts);
    let all = split_lines(&text);
    let mut i: usize = 0;
    while i < all.len()
        invariant
            i <= all.len(),
            all@.len() == lines(ts@).len(),
            forall|j: int| 0 <= j < all@.len() ==> (#[trigger] all@[j])@ == lines(ts@)[j],
            forall|j: int| 0 <= j < i ==> !is_overindented(#[trigger] lines(ts@)[j]),
        decreases all.len() - i,
    {
        let line = &all[i];
        if line_is_input(line) && line.len() >= 4 && line[3] == ' ' {
            assert(is_overindented(lines(ts@)[i as int]));
            return true;
        }
        i += 1;
    }
    false
}

/// Runs a transcript again: every line of input is evaluated, and the
/// result is the lines of input, each followed by the line that it
/// evaluates to. The old lines of output are dropped.
///
/// No line of input may have a space behind the prompt.
pub fn rerun(session: &mut Session, ts: &str) -> (r: Result<String, Error>)
    requires
        !any_overindented(lines(ts@)),
    ensures
        r matches Ok(out) && out@ == rerun_lines(lines(ts@)),
        *final(session) == *old(session),
{
    let text = chars_of(ts);
    let all = split_lines(&text);
    let mut out: Vec<char> = Vec::new();
    let mut i: usize = 0;
    while i < all.len()
        invariant
            i <= all.len(),
            all@.len() == lines(ts@).len(),
            forall|j: int| 0 <= j < all@.len() ==> (#[trigger] all@[j])@ == lines(ts@)[j],
            out@ == rerun_lines(lines(ts@).take(i as int)),
        decreases all.len() - i,
    {
        let line = &all[i];
        let ghost before = out@;
        if line_is_input(line) {
            let mut input: Vec<char> = Vec::new();
            let mut j: usize = 3;
            while j < line.len()
                invariant
                    3 <= j <= line.len(),
                    input@ == line@.subrange(3, j as int),
                decreases line.len() - j,
            {
                input.push(line[j]);
                assert(input@ =~= line@.subrange(3, j + 1));
                j += 1;
            }
            assert(input@ =~= line@.skip(3));
            let sentence = string_of(&input);
            let output = session.eval_text(sentence.as_str());
            let mut echo = line.clone();
            let mut result = chars_of(output.as_str());
            out.append(&mut echo);
            out.push('\n');
            out.append(&mut result);
            out.push('\n');
            assert(out@ =~= before + rerun_line(line@));
        }
        proof {
            let done = lines(ts@).take(i + 1);
            assert(done.drop_last() =~= lines(ts@).take(i as int));
            assert(done.last() == line@);
            assert(out@ =~= rerun_lines(done.drop_last()) + rerun_line(done.last()));
        }
        i += 1;
    }
    assert(lines(ts@).take(i as int) =~= lines(ts@));
    Ok(string_of(&out))
}

} // verus!
