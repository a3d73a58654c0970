//! Code within code blocks in Markdown documents.
//!
//! A document is held as a series of chunks: the code blocks, which are
//! transcripts, and the text between them. Running the document runs every
//! transcript again and puts the chunks together as they were.

use pulldown_cmark::CodeBlockKind as Kind;
use pulldown_cmark::{Event, Tag};
use vstd::prelude::*;
use vstd::string::StringSliceAdditionalSpecFns;
use vstd::utf8::{decode_utf8, encode_utf8_decode_utf8, is_char_boundary};
use crate::error::{Error, ErrorKind};
use crate::eval::Session;
use crate::text::{chars_of, string_of};
use crate::transcript::{
    any_overindented, has_overindented_input, lines, rerun, rerun_lines, split_lines,
};

verus! {

/// How a code block is set apart from the text around it.
#[derive(Debug, PartialEq, Eq)]
pub enum CodeBlockKind {
    /// Every line of the block is indented by four spaces.
    Indented,
    /// The block stands between two fences of three backticks; the first
    /// fence is followed by these tags.
    Fenced(String),
}

/// A section of a markdown file.
#[derive(Debug, PartialEq, Eq)]
pub enum Chunk {
    /// A chunk of input and output lines, left-aligned.
    J(String, CodeBlockKind),
    /// Any other markdown text.
    Other(String),
}

/// A parsed Markdown file containing examples.
#[derive(Debug, PartialEq, Eq)]
pub struct Literate {
    pub chunks: Vec<Chunk>,
}

/// What the parser of Markdown reports of a document, as far as code blocks
/// are concerned.
#[derive(Debug, PartialEq, Eq)]
pub enum Mark {
    /// An indented code block begins at this offset, in bytes.
    IndentedStart(usize),
    /// A fenced code block with these tags begins at this offset.
    FencedStart(String, usize),
    /// A code block ends at this offset.
    CodeEnd(usize),
    /// A piece of text.
    Text(String),
    /// Anything else.
    Other,
}

/// What a mark holds, as text.
pub enum MarkView {
    IndentedStart(int),
    FencedStart(Seq<char>, int),
    CodeEnd(int),
    Text(Seq<char>),
    Other,
}

impl View for Mark {
    type V = MarkView;

    open spec fn view(&self) -> MarkView {
        match *self {
            Mark::IndentedStart(start) => MarkView::IndentedStart(start as int),
            Mark::FencedStart(tags, start) => MarkView::FencedStart(tags@, start as int),
            Mark::CodeEnd(end) => MarkView::CodeEnd(end as int),
            Mark::Text(text) => MarkView::Text(text@),
            Mark::Other => MarkView::Other,
        }
    }
}

/// What the marks hold, in order.
pub open spec fn mark_views(marks: Seq<Mark>) -> Seq<MarkView> {
    Seq::new(marks.len(), |i: int| marks[i]@)
}

/// The marks that `pulldown_cmark` reports for a document.
pub uninterp spec fn parsed_marks(md: Seq<char>) -> Seq<MarkView>;

/// How far the division of a document into chunks has come.
pub struct Progress {
    /// Everything before this offset has been moved into chunks.
    pub prev: int,
    /// The kind of the code block that is open, if one is.
    pub open: Option<BlockView>,
    /// All the text of the open code block so far.
    pub code: Seq<char>,
    /// The chunks so far.
    pub chunks: Seq<ChunkView>,
}

/// True if the bytes from `from` up to `to` can be cut out of a text: both
/// offsets lie within it and between two characters.
pub open spec fn can_cut(bytes: Seq<u8>, from: int, to: int) -> bool {
    &&& 0 <= from <= to <= bytes.len()
    &&& is_char_boundary(bytes, to)
    &&& is_char_boundary(bytes.subrange(0, to), from)
}

/// The text that the bytes from `from` up to `to` spell.
pub open spec fn text_between(bytes: Seq<u8>, from: int, to: int) -> Seq<char> {
    decode_utf8(bytes.subrange(from, to))
}

/// The progress after one more mark, or nothing where the mark does not fit.
///
/// Where a code block begins, the text since the last one becomes a chunk;
/// no block may be open already. Where a code block ends, the text that was
/// gathered since it began becomes a chunk; a block must be open. Text is
/// gathered while a block is open.
pub open spec fn after_mark(bytes: Seq<u8>, p: Progress, mark: MarkView) -> Option<Progress> {
    match mark {
        MarkView::IndentedStart(start) => block_opened(bytes, p, BlockView::Indented, start),
        MarkView::FencedStart(tags, start) => block_opened(bytes, p, BlockView::Fenced(tags), start),
        MarkView::CodeEnd(end) => match p.open {
            Some(kind) => Some(
                Progress {
                    prev: end,
                    open: None,
                    code: seq![],
                    chunks: p.chunks.push(ChunkView::J(p.code, kind)),
                },
            ),
            None => None,
        },
        MarkView::Text(text) => if p.open is Some {
            Some(Progress { code: p.code + text, ..p })
        } else {
            Some(p)
        },
        MarkView::Other => Some(p),
    }
}

/// The progress after the mark that begins a code block at `start`.
pub open spec fn block_opened(bytes: Seq<u8>, p: Progress, kind: BlockView, start: int) -> Option<
    Progress,
> {
    if p.open is Some {
        None
    } else if start > p.prev {
        if can_cut(bytes, p.prev, start) {
            Some(
                Progress {
                    open: Some(kind),
                    chunks: p.chunks.push(ChunkView::Other(text_between(bytes, p.prev, start))),
                    ..p
                },
            )
        } else {
            None
        }
    } else {
        Some(Progress { open: Some(kind), ..p })
    }
}

/// The progress after all the marks, or nothing where one of them does not fit.
pub open spec fn after_marks(bytes: Seq<u8>, marks: Seq<MarkView>) -> Option<Progress>
    decreases marks.len(),
{
    if marks.len() == 0 {
        Some(Progress { prev: 0, open: None, code: seq![], chunks: seq![] })
    } else {
        match after_marks(bytes, marks.drop_last()) {
            Some(p) => after_mark(bytes, p, marks.last()),
            None => None,
        }
    }
}

/// The chunks that a document with the given marks divides into: its code
/// blocks, and between, before and after them all the rest of the text.
/// There are none where the marks do not fit the document.
pub open spec fn chunked(bytes: Seq<u8>, marks: Seq<MarkView>) -> Option<Seq<ChunkView>> {
    match after_marks(bytes, marks) {
        Some(p) => if p.open is Some {
            None
        } else if p.prev < bytes.len() {
            if can_cut(bytes, p.prev, bytes.len() as int) {
                Some(
                    p.chunks.push(
                        ChunkView::Other(text_between(bytes, p.prev, bytes.len() as int)),
                    ),
                )
            } else {
                None
            }
        } else {
            Some(p.chunks)
        },
        None => None,
    }
}

/// How a code block is set apart, as text.
pub enum BlockView {
    Indented,
    Fenced(Seq<char>),
}

/// What a chunk holds, as text.
pub enum ChunkView {
    J(Seq<char>, BlockView),
    Other(Seq<char>),
}

impl View for CodeBlockKind {
    type V = BlockView;

    open spec fn view(&self) -> BlockView {
        match *self {
            CodeBlockKind::Indented => BlockView::Indented,
            CodeBlockKind::Fenced(tags) => BlockView::Fenced(tags@),
        }
    }
}

impl View for Chunk {
    type V = ChunkView;

    open spec fn view(&self) -> ChunkView {
        match *self {
            Chunk::J(text, kind) => ChunkView::J(text@, kind@),
            Chunk::Other(text) => ChunkView::Other(text@),
        }
    }
}

impl View for Literate {
    type V = Seq<ChunkView>;

    open spec fn view(&self) -> Seq<ChunkView> {
        Seq::new(self.chunks@.len(), |i: int| self.chunks@[i]@)
    }
}

/// The lines one below the other, each ended by a line feed, and all but the
/// first behind four spaces.
pub open spec fn indented_lines(lines: Seq<Seq<char>>) -> Seq<char>
    decreases lines.len(),
{
    if lines.len() == 0 {
        seq![]
    } else if lines.len() == 1 {
        lines.last() + seq!['\n']
    } else {
        indented_lines(lines.drop_last()) + seq![' ', ' ', ' ', ' '] + lines.last() + seq!['\n']
    }
}

/// The fence of three backticks.
pub open spec fn fence() -> Seq<char> {
    seq!['`', '`', '`']
}

/// A code block as it stands in a document: an indented block has four
/// spaces before every line but the first, whose indentation is part of the
/// text before the block; a fenced block stands between its fences.
pub open spec fn block_text(code: Seq<char>, kind: BlockView) -> Seq<char> {
    match kind {
        BlockView::Indented => indented_lines(lines(code)),
        BlockView::Fenced(tags) => fence() + tags + seq!['\n'] + code + fence(),
    }
}

/// A chunk as it stands in a document.
pub open spec fn chunk_text(chunk: ChunkView) -> Seq<char> {
    match chunk {
        ChunkView::J(code, kind) => block_text(code, kind),
        ChunkView::Other(text) => text,
    }
}

/// A chunk as it stands in a document once its transcript has been run again.
pub open spec fn chunk_rerun_text(chunk: ChunkView) -> Seq<char> {
    match chunk {
        ChunkView::J(code, kind) => block_text(rerun_lines(lines(code)), kind),
        ChunkView::Other(text) => text,
    }
}

/// The transcript of a chunk: its code, and nothing for other text.
pub open spec fn chunk_transcript(chunk: ChunkView) -> Seq<char> {
    match chunk {
        ChunkView::J(code, _) => code,
        ChunkView::Other(_) => seq![],
    }
}

/// The chunks put together as a document.
pub open spec fn document_text(chunks: Seq<ChunkView>) -> Seq<char>
    decreases chunks.len(),
{
    if chunks.len() == 0 {
        seq![]
    } else {
        document_text(chunks.drop_last()) + chunk_text(chunks.last())
    }
}

/// The chunks put together as a document, with every transcript run again.
pub open spec fn document_rerun_text(chunks: Seq<ChunkView>) -> Seq<char>
    decreases chunks.len(),
{
    if chunks.len() == 0 {
        seq![]
    } else {
        document_rerun_text(chunks.drop_last()) + chunk_rerun_text(chunks.last())
    }
}

/// The transcripts of all the chunks, one after another.
pub open spec fn document_transcript(chunks: Seq<ChunkView>) -> Seq<char>
    decreases chunks.len(),
{
    if chunks.len() == 0 {
        seq![]
    } else {
        document_transcript(chunks.drop_last()) + chunk_transcript(chunks.last())
    }
}

/// True if the transcript of some chunk has a line of input with a space
/// behind its prompt.
pub open spec fn any_chunk_overindented(chunks: Seq<ChunkView>) -> bool {
    exists|i: int|
        0 <= i < chunks.len() && (#[trigger] chunks[i] matches ChunkView::J(code, _)
            && any_overindented(lines(code)))
}

/// Once a mark does not fit, the marks that follow change nothing.
proof fn lemma_marks_stay_unfit(bytes: Seq<u8>, marks: Seq<MarkView>, n: int)
    requires
        0 <= n <= marks.len(),
        after_marks(bytes, marks.take(n)) is None,
    ensures
        after_marks(bytes, marks) is None,
    decreases marks.len() - n,
{
    if n < marks.len() {
        assert(marks.take(n + 1).drop_last() =~= marks.take(n));
        lemma_marks_stay_unfit(bytes, marks, n + 1);
    } else {
        assert(marks.take(n) =~= marks);
    }
}

/// Writes a code block as it stands in a document.
fn write_block(out: &mut Vec<char>, code: &str, kind: &CodeBlockKind)
    ensures
        final(out)@ == old(out)@ + block_text(code@, kind@),
{
    let ghost before = out@;
    match kind {
        CodeBlockKind::Indented => {
            // This might be wrong if it's indented more than one level.
            let mut block = chars_of(reinsert_indents(code).as_str());
            out.append(&mut block);
        },
        CodeBlockKind::Fenced(tags) => {
            let mut first = chars_of(tags.as_str());
            let mut body = chars_of(code);
            out.push('`');
            out.push('`');
            out.push('`');
            out.append(&mut first);
            out.push('\n');
            out.append(&mut body);
            out.push('`');
            out.push('`');
            out.push('`');
            assert(out@ =~= before + block_text(code@, kind@));
        },
    }
}

/// `pulldown_cmark::Parser::into_offset_iter`: the events of a document with
/// the range of bytes that each comes from. Of each event the mark keeps
/// what concerns code blocks. What is reported depends on the document alone.
#[verifier::external_body]
fn markdown_marks(md: &str) -> (marks: Vec<Mark>)
    ensures
        mark_views(marks@) == parsed_marks(md@),
{
    let mut marks = Vec::new();
    for (event, range) in pulldown_cmark::Parser::new(md).into_offset_iter() {
        marks.push(match event {
            Event::Start(Tag::CodeBlock(Kind::Indented)) => Mark::IndentedStart(range.start),
            Event::Start(Tag::CodeBlock(Kind::Fenced(tags))) => {
                Mark::FencedStart(tags.to_string(), range.start)
            },
            Event::End(Tag::CodeBlock(_)) => Mark::CodeEnd(range.end),
            Event::Text(text) => Mark::Text(text.to_string()),
            _ => Mark::Other,
        });
    }
    marks
}

/// Cuts the bytes from `from` up to `to` out of a text, if they can be cut.
fn cut<'a>(md: &'a str, from: usize, to: usize) -> (r: Option<&'a str>)
    ensures
        match r {
            Some(piece) => can_cut(md.spec_bytes(), from as int, to as int) && piece@
                == text_between(md.spec_bytes(), from as int, to as int),
            None => !can_cut(md.spec_bytes(), from as int, to as int),
        },
{
    if from > to || to > md.as_bytes().len() {
        return None;
    }
    if !md.is_char_boundary(to) {
        return None;
    }
    let (head, _) = md.split_at(to);
    assert(head.spec_bytes() == md.spec_bytes().subrange(0, to as int));
    if !head.is_char_boundary(from) {
        return None;
    }
    let (_, piece) = head.split_at(from);
    proof {
        let bytes = md.spec_bytes().subrange(from as int, to as int);
        assert(head.spec_bytes().subrange(from as int, head.spec_bytes().len() as int) =~= bytes);
        assert(piece.spec_bytes() == bytes);
        encode_utf8_decode_utf8(piece@);
    }
    Some(piece)
}

/// The chunks so far, and what is known of the code block that is open.
struct Parsing {
    prev: usize,
    open: Option<CodeBlockKind>,
    code: String,
    chunks: Vec<Chunk>,
}

impl View for Parsing {
    type V = Progress;

    closed spec fn view(&self) -> Progress {
        Progress {
            prev: self.prev as int,
            open: match self.open {
                Some(kind) => Some(kind@),
                None => None,
            },
            code: self.code@,
            chunks: Seq::new(self.chunks@.len(), |i: int| self.chunks@[i]@),
        }
    }
}

/// Opens a code block at `start`, after the text since the last one.
fn open_block(md: &str, state: Parsing, kind: CodeBlockKind, start: usize) -> (r: Option<Parsing>)
    ensures
        match r {
            Some(next) => block_opened(md.spec_bytes(), state@, kind@, start as int) == Some(next@),
            None => block_opened(md.spec_bytes(), state@, kind@, start as int) is None,
        },
{
    let Parsing { prev, open, code, mut chunks } = state;
    if open.is_some() {
        return None;
    }
    let ghost before = Seq::new(chunks@.len(), |i: int| chunks@[i]@);
    if start > prev {
        match cut(md, prev, start) {
            Some(piece) => {
                chunks.push(Chunk::Other(piece.to_owned()));
                let next = Parsing { prev, open: Some(kind), code, chunks };
                assert(next@.chunks =~= before.push(
                    ChunkView::Other(text_between(md.spec_bytes(), prev as int, start as int)),
                ));
                Some(next)
            },
            None => None,
        }
    } else {
        let next = Parsing { prev, open: Some(kind), code, chunks };
        assert(next@.chunks =~= before);
        Some(next)
    }
}

/// Takes one more mark into account.
fn take_mark(md: &str, state: Parsing, mark: &Mark) -> (r: Option<Parsing>)
    ensures
        match r {
            Some(next) => after_mark(md.spec_bytes(), state@, mark@) == Some(next@),
            None => after_mark(md.spec_bytes(), state@, mark@) is None,
        },
{
    match mark {
        Mark::IndentedStart(start) => open_block(md, state, CodeBlockKind::Indented, *start),
        Mark::FencedStart(tags, start) => open_block(
            md,
            state,
            CodeBlockKind::Fenced(tags.clone()),
            *start,
        ),
        Mark::CodeEnd(end) => {
            let Parsing { prev, open, code, mut chunks } = state;
            let ghost before = Seq::new(chunks@.len(), |i: int| chunks@[i]@);
            match open {
                Some(kind) => {
                    let ghost chunk = ChunkView::J(code@, kind@);
                    chunks.push(Chunk::J(code, kind));
                    let next = Parsing { prev: *end, open: None, code: String::new(), chunks };
                    assert(next@.chunks =~= before.push(chunk));
                    Some(next)
                },
                None => None,
            }
        },
        Mark::Text(text) => {
            let Parsing { prev, open, mut code, chunks } = state;
            let ghost before = Seq::new(chunks@.len(), |i: int| chunks@[i]@);
            if open.is_some() {
                code.append(text.as_str());
            }
            let next = Parsing { prev, open, code, chunks };
            assert(next@.chunks =~= before);
            Some(next)
        },
        Mark::Other => Some(state),
    }
}

impl Literate {
    /// Divides a document with the given marks into chunks, if the marks fit
    /// the document.
    pub fn from_marks(md: &str, marks: &Vec<Mark>) -> (r: Option<Literate>)
        ensures
            match r {
                Some(literate) => chunked(md.spec_bytes(), mark_views(marks@)) == Some(literate@),
                None => chunked(md.spec_bytes(), mark_views(marks@)) is None,
            },
    {
        let ghost all = mark_views(marks@);
        let mut state = Parsing { prev: 0, open: None, code: String::new(), chunks: Vec::new() };
        assert(state@.chunks =~= seq![]);
        let mut i: usize = 0;
        while i < marks.len()
            invariant
                i <= marks.len(),
                all == mark_views(marks@),
                after_marks(md.spec_bytes(), all.take(i as int)) == Some(state@),
            decreases marks.len() - i,
        {
            proof {
                assert(all.take(i + 1).drop_last() =~= all.take(i as int));
                assert(all.take(i + 1).last() == marks@[i as int]@);
            }
            match take_mark(md, state, &marks[i]) {
                Some(next) => {
                    state = next;
                },
                None => {
                    proof {
                        lemma_marks_stay_unfit(md.spec_bytes(), all, i + 1);
                    }
                    return None;
                },
            }
            i += 1;
        }
        assert(all.take(i as int) =~= all);
        let Parsing { prev, open, code, mut chunks } = state;
        let ghost before = Seq::new(chunks@.len(), |i: int| chunks@[i]@);
        assert(before == state@.chunks);
        if open.is_some() {
            return None;
        }
        let end: usize = md.as_bytes().len();
        if prev < end {
            match cut(md, prev, end) {
                Some(piece) => {
                    chunks.push(Chunk::Other(piece.to_owned()));
                },
                None => {
                    return None;
                },
            }
        }
        let literate = Literate { chunks };
        assert(literate@ =~= chunked(md.spec_bytes(), all)->0);
        Some(literate)
    }

    /// Parse markdown text into a series of chunks that are either examples, or
    /// any other text.
    ///
    /// The resulting chunks, when concatenated, should exactly reproduce the markdown input.
    /// Where the code blocks that the parser of Markdown reports do not follow
    /// one another, or do not lie between characters of the document, the
    /// document is refused.
    pub fn parse(md: &str) -> (r: Result<Literate, Error>)
        ensures
            match r {
                Ok(literate) => chunked(md.spec_bytes(), parsed_marks(md@)) == Some(literate@),
                Err(e) => chunked(md.spec_bytes(), parsed_marks(md@)) is None && e@
                    == ErrorKind::Unimplemented("nested code blocks"),
            },
    {
        match Literate::from_marks(md, &markdown_marks(md)) {
            Some(literate) => Ok(literate),
            None => Err(Error::Unimplemented("nested code blocks")),
        }
    }

    /// Tells whether the examples can be run: whether no line of input in
    /// them has a space behind the prompt.
    pub fn is_runnable(&self) -> (r: bool)
        ensures
            r == !any_chunk_overindented(self@),
    {
        let mut i: usize = 0;
        while i < self.chunks.len()
            invariant
                i <= self.chunks.len(),
                forall|j: int|
                    0 <= j < i ==> !(#[trigger] self@[j] matches ChunkView::J(code, _)
                        && any_overindented(lines(code))),
            decreases self.chunks.len() - i,
        {
            if let Chunk::J(example, _) = &self.chunks[i] {
                if has_overindented_input(example.as_str()) {
                    assert(self@[i as int] == self.chunks@[i as int]@);
                    return false;
                }
            }
            assert(self@[i as int] == self.chunks@[i as int]@);
            i += 1;
        }
        true
    }

    /// Return the transcript of all the examples.
    pub fn extract_transcript(&self) -> (r: Result<String, Error>)
        ensures
            r matches Ok(s) && s@ == document_transcript(self@),
    {
        let mut out: Vec<char> = Vec::new();
        let mut i: usize = 0;
        while i < self.chunks.len()
            invariant
                i <= self.chunks.len(),
                out@ == document_transcript(self@.take(i as int)),
            decreases self.chunks.len() - i,
        {
            let ghost before = out@;
            if let Chunk::J(example, _) = &self.chunks[i] {
                let mut code = chars_of(example.as_str());
                out.append(&mut code);
            }
            proof {
                let done = self@.take(i + 1);
                assert(done.drop_last() =~= self@.take(i as int));
                assert(done.last() == self.chunks@[i as int]@);
                assert(out@ =~= before + chunk_transcript(done.last()));
            }
            i += 1;
        }
        assert(self@.take(i as int) =~= self@);
        Ok(string_of(&out))
    }

    /// Run all the examples and return the resulting reassembled document.
    ///
    /// No line of input in any example may have a space behind the prompt.
    pub fn run(&self, session: &mut Session) -> (r: Result<String, Error>)
        requires
            !any_chunk_overindented(self@),
        ensures
            r matches Ok(s) && s@ == document_rerun_text(self@),
            *final(session) == *old(session),
    {
        let mut out: Vec<char> = Vec::new();
        let mut i: usize = 0;
        while i < self.chunks.len()
            invariant
                i <= self.chunks.len(),
                !any_chunk_overindented(self@),
                out@ == document_rerun_text(self@.take(i as int)),
            decreases self.chunks.len() - i,
        {
            let ghost before = out@;
            match &self.chunks[i] {
                Chunk::J(j, kind) => {
                    assert(self@[i as int] == self.chunks@[i as int]@);
                    let chunk_out = match rerun(session, j.as_str()) {
                        Ok(text) => text,
                        Err(e) => {
                            return Err(e);
                        },
                    };
                    write_block(&mut out, chunk_out.as_str(), kind);
                },
                Chunk::Other(md) => {
                    let mut text = chars_of(md.as_str());
                    out.append(&mut text);
                },
            }
            proof {
                let done = self@.take(i + 1);
                assert(done.drop_last() =~= self@.take(i as int));
                assert(done.last() == self.chunks@[i as int]@);
                assert(out@ =~= before + chunk_rerun_text(done.last()));
            }
            i += 1;
        }
        assert(self@.take(i as int) =~= self@);
        Ok(string_of(&out))
    }

    /// Reassemble text and examples into a Markdown doc.
    ///
    /// If all the examples are up-to-date this should recreate the input exactly.
    pub fn reassemble(&self) -> (s: String)
        ensures
            s@ == document_text(self@),
    {
        let mut out: Vec<char> = Vec::new();
        let mut i: usize = 0;
        while i < self.chunks.len()
            invariant
                i <= self.chunks.len(),
                out@ == document_text(self@.take(i as int)),
            decreases self.chunks.len() - i,
        {
            let ghost before = out@;
            match &self.chunks[i] {
                Chunk::Other(text) => {
                    let mut text = chars_of(text.as_str());
                    out.append(&mut text);
                },
                Chunk::J(text, kind) => {
                    write_block(&mut out, text.as_str(), kind);
                },
            }
            proof {
                let done = self@.take(i + 1);
                assert(done.drop_last() =~= self@.take(i as int));
                assert(done.last() == self.chunks@[i as int]@);
                assert(out@ =~= before + chunk_text(done.last()));
            }
            i += 1;
        }
        assert(self@.take(i as int) =~= self@);
        string_of(&out)
    }
}

/// Puts four spaces before every line but the first, and a line feed behind
/// every line.
pub fn reinsert_indents(ijs: &str) -> (s: String)
    ensures
        s@ == indented_lines(lines(ijs@)),
{
    let text = chars_of(ijs);
    let all = split_lines(&text);
    let mut out: Vec<char> = Vec::new();
    let mut i: usize = 0;
    while i < all.len()
        invariant
            i <= all.len(),
            all@.len() == lines(ijs@).len(),
            forall|j: int| 0 <= j < all@.len() ==> (#[trigger] all@[j])@ == lines(ijs@)[j],
            out@ == indented_lines(lines(ijs@).take(i as int)),
        decreases all.len() - i,
    {
        let ghost before = out@;
        if i > 0 {
            out.push(' ');
            out.push(' ');
            out.push(' ');
            out.push(' ');
        }
        let mut line = all[i].clone();
        out.append(&mut line);
        out.push('\n');
        proof {
            let done = lines(ijs@).take(i + 1);
            assert(done.drop_last() =~= lines(ijs@).take(i as int));
            assert(done.last() == all@[i as int]@);
            if i > 0 {
                assert(out@ =~= before + seq![' ', ' ', ' ', ' '] + done.last() + seq!['\n']);
            } else {
                assert(out@ =~= done.last() + seq!['\n']);
            }
        }
        i += 1;
    }
    assert(lines(ijs@).take(i as int) =~= lines(ijs@));
    string_of(&out)
}

} // verus!
