//! A cursor over the bytes being scanned, with lookahead.

use vstd::prelude::*;

verus! {

/// True of the bytes that count as blank space between words:
/// space, tab, line feed, form feed and carriage return.
pub open spec fn is_space(b: u8) -> bool {
    b == 0x20 || b == 0x09 || b == 0x0a || b == 0x0c || b == 0x0d
}

/// True of the ASCII decimal digits.
pub open spec fn is_digit(b: u8) -> bool {
    0x30 <= b <= 0x39
}

/// True of the ASCII letters.
pub open spec fn is_letter(b: u8) -> bool {
    (0x41 <= b <= 0x5a) || (0x61 <= b <= 0x7a)
}

/// The first position at or after `pos` that holds no blank space,
/// or the length of `input` if only blank space follows.
pub open spec fn spaces_end(input: Seq<u8>, pos: int) -> int
    decreases input.len() - pos,
{
    if 0 <= pos < input.len() && is_space(input[pos]) {
        spaces_end(input, pos + 1)
    } else {
        pos
    }
}

/// The position just after the first line feed at or after `pos`,
/// or the length of `input` if no line feed follows.
pub open spec fn line_end(input: Seq<u8>, pos: int) -> int
    decreases input.len() - pos,
{
    if 0 <= pos < input.len() {
        if input[pos] == 0x0a {
            pos + 1
        } else {
            line_end(input, pos + 1)
        }
    } else {
        pos
    }
}

/// True if `input` holds exactly the bytes of `s` from `pos` on.
pub open spec fn has_prefix_at(input: Seq<u8>, pos: int, s: Seq<u8>) -> bool {
    0 <= pos && pos + s.len() <= input.len() && input.subrange(pos, pos + s.len()) == s
}

/// Everything from `pos` up to `spaces_end` is blank space, and what follows is not.
pub proof fn lemma_spaces_end(input: Seq<u8>, pos: int)
    requires
        0 <= pos <= input.len(),
    ensures
        pos <= spaces_end(input, pos) <= input.len(),
        forall|i: int| pos <= i < spaces_end(input, pos) ==> is_space(#[trigger] input[i]),
        spaces_end(input, pos) < input.len() ==> !is_space(input[spaces_end(input, pos)]),
    decreases input.len() - pos,
{
    if pos < input.len() && is_space(input[pos]) {
        lemma_spaces_end(input, pos + 1);
    }
}

/// No line feed lies between `pos` and `line_end`, except as the last byte skipped.
pub proof fn lemma_line_end(input: Seq<u8>, pos: int)
    requires
        0 <= pos <= input.len(),
    ensures
        pos <= line_end(input, pos) <= input.len(),
        pos < input.len() ==> pos < line_end(input, pos),
        forall|i: int| pos <= i < line_end(input, pos) - 1 ==> #[trigger] input[i] != 0x0a,
        line_end(input, pos) < input.len() ==> input[line_end(input, pos) - 1] == 0x0a,
    decreases input.len() - pos,
{
    if pos < input.len() && input[pos] != 0x0a {
        lemma_line_end(input, pos + 1);
    }
}

/// Tells whether `b` is blank space.
pub fn byte_is_space(b: u8) -> (r: bool)
    ensures
        r == is_space(b),
{
    b == 0x20 || b == 0x09 || b == 0x0a || b == 0x0c || b == 0x0d
}

/// Tells whether `b` is a decimal digit.
pub fn byte_is_digit(b: u8) -> (r: bool)
    ensures
        r == is_digit(b),
{
    0x30 <= b && b <= 0x39
}

/// Tells whether `b` is a letter.
pub fn byte_is_letter(b: u8) -> (r: bool)
    ensures
        r == is_letter(b),
{
    (0x41 <= b && b <= 0x5a) || (0x61 <= b && b <= 0x7a)
}

/// Tells whether `b` occurs in `s`.
pub fn contains_byte(s: &[u8], b: u8) -> (r: bool)
    ensures
        r == s@.contains(b),
{
    let mut i: usize = 0;
    while i < s.len()
        invariant
            i <= s.len(),
            forall|j: int| 0 <= j < i ==> s@[j] != b,
        decreases s.len() - i,
    {
        if s[i] == b {
            return true;
        }
        i += 1;
    }
    false
}

/// A stream of bytes from the text being scanned, with lookahead.
pub struct Lex<'buf> {
    buf: &'buf [u8],
    /// Position of the cursor within `buf`.
    pos: usize,
}

impl<'buf> Lex<'buf> {
    /// The whole text that is being scanned.
    pub closed spec fn input(&self) -> Seq<u8> {
        self.buf@
    }

    /// How many bytes have been consumed.
    pub closed spec fn position(&self) -> int {
        self.pos as int
    }

    /// The cursor never passes the end of the text.
    pub open spec fn wf(&self) -> bool {
        0 <= self.position() <= self.input().len()
    }

    /// True once every byte has been consumed.
    pub open spec fn at_end(&self) -> bool {
        self.position() >= self.input().len()
    }

    /// The byte under the cursor.
    pub open spec fn current(&self) -> u8
        recommends
            !self.at_end(),
    {
        self.input()[self.position()]
    }

    /// A cursor at the start of `buf`.
    pub fn new(buf: &'buf [u8]) -> (lex: Lex<'buf>)
        ensures
            lex.wf(),
            lex.input() == buf@,
            lex.position() == 0,
    {
        Lex { buf, pos: 0 }
    }

    /// True if at the end of the input.
    pub fn is_end(&self) -> (r: bool)
        ensures
            r == self.at_end(),
    {
        self.pos >= self.buf.len()
    }

    /// The number of bytes that are left.
    pub fn remaining(&self) -> (n: usize)
        requires
            self.wf(),
        ensures
            n == self.input().len() - self.position(),
    {
        self.buf.len() - self.pos
    }

    /// Moves the cursor one byte on; at the end of the input it stays.
    pub fn advance(&mut self)
        requires
            old(self).wf(),
        ensures
            final(self).wf(),
            final(self).input() == old(self).input(),
            final(self).position() == if old(self).at_end() {
                old(self).position()
            } else {
                old(self).position() + 1
            },
    {
        if self.pos < self.buf.len() {
            self.pos += 1;
        }
    }

    /// Look at the next byte without consuming it.
    #[must_use]
    pub fn peek(&self) -> (b: u8)
        requires
            self.wf(),
            !self.at_end(),
        ensures
            b == self.current(),
    {
        self.buf[self.pos]
    }

    /// Peek the next byte if there is one, or `None` at the end.
    #[must_use]
    pub fn try_peek(&self) -> (r: Option<u8>)
        requires
            self.wf(),
        ensures
            r == if self.at_end() { None } else { Some(self.current()) },
    {
        if self.is_end() {
            None
        } else {
            Some(self.peek())
        }
    }

    /// If the next byte is any byte from `s`, consume and return it.
    #[must_use]
    pub fn take_any(&mut self, s: &[u8]) -> (r: Option<u8>)
        requires
            old(self).wf(),
        ensures
            final(self).wf(),
            final(self).input() == old(self).input(),
            r == if !old(self).at_end() && s@.contains(old(self).current()) {
                Some(old(self).current())
            } else {
                None
            },
            final(self).position() == if r is Some {
                old(self).position() + 1
            } else {
                old(self).position()
            },
    {
        if let Some(ch) = self.try_peek() {
            if contains_byte(s, ch) {
                self.advance();
                Some(ch)
            } else {
                None
            }
        } else {
            None
        }
    }

    /// Take and return the next byte.
    #[must_use]
    pub fn take(&mut self) -> (b: u8)
        requires
            old(self).wf(),
            !old(self).at_end(),
        ensures
            final(self).wf(),
            final(self).input() == old(self).input(),
            final(self).position() == old(self).position() + 1,
            b == old(self).current(),
    {
        let c = self.buf[self.pos];
        self.pos += 1;
        c
    }

    /// Take the next byte, or `None` at the end of the input.
    pub fn try_take(&mut self) -> (r: Option<u8>)
        requires
            old(self).wf(),
        ensures
            final(self).wf(),
            final(self).input() == old(self).input(),
            r == if old(self).at_end() { None } else { Some(old(self).current()) },
            final(self).position() == if old(self).at_end() {
                old(self).position()
            } else {
                old(self).position() + 1
            },
    {
        if self.is_end() {
            None
        } else {
            Some(self.take())
        }
    }

    /// Discard the current byte.
    pub fn drop(&mut self)
        requires
            old(self).wf(),
        ensures
            final(self).wf(),
            final(self).input() == old(self).input(),
            final(self).position() == if old(self).at_end() {
                old(self).position()
            } else {
                old(self).position() + 1
            },
    {
        self.advance();
    }

    /// Consume the next byte and return true if it's equal to `b`.
    #[must_use]
    pub fn take_if(&mut self, b: u8) -> (r: bool)
        requires
            old(self).wf(),
        ensures
            final(self).wf(),
            final(self).input() == old(self).input(),
            r == (!old(self).at_end() && old(self).current() == b),
            final(self).position() == if r {
                old(self).position() + 1
            } else {
                old(self).position()
            },
    {
        if self.pos < self.buf.len() && self.buf[self.pos] == b {
            self.pos += 1;
            true
        } else {
            false
        }
    }

    /// Return the byte that's `n` positions ahead of the cursor, if
    /// there is one.
    pub fn lookahead(&self, n: usize) -> (r: Option<u8>)
        requires
            self.wf(),
        ensures
            r == if self.position() + n < self.input().len() {
                Some(self.input()[self.position() + n])
            } else {
                None
            },
    {
        if n < self.buf.len() - self.pos {
            Some(self.buf[self.pos + n])
        } else {
            None
        }
    }

    /// Drop any leading whitespace.
    pub fn drop_whitespace(&mut self)
        requires
            old(self).wf(),
        ensures
            final(self).wf(),
            final(self).input() == old(self).input(),
            final(self).position() == spaces_end(old(self).input(), old(self).position()),
    {
        while self.pos < self.buf.len() && byte_is_space(self.buf[self.pos])
            invariant
                self.wf(),
                self.input() == old(self).input(),
                old(self).position() <= self.position(),
                spaces_end(self.input(), self.position()) == spaces_end(
                    old(self).input(),
                    old(self).position(),
                ),
            decreases self.buf.len() - self.pos,
        {
            self.pos += 1;
        }
    }

    /// Drop the rest of this line.
    pub fn drop_line(&mut self)
        requires
            old(self).wf(),
        ensures
            final(self).wf(),
            final(self).input() == old(self).input(),
            final(self).position() == line_end(old(self).input(), old(self).position()),
    {
        while self.pos < self.buf.len()
            invariant
                self.wf(),
                self.input() == old(self).input(),
                line_end(self.input(), self.position()) == line_end(
                    old(self).input(),
                    old(self).position(),
                ),
            decreases self.buf.len() - self.pos,
        {
            let c = self.buf[self.pos];
            self.pos += 1;
            if c == 0x0a {
                return;
            }
        }
    }

    /// Test if the next few bytes match `s`.
    #[must_use]
    pub fn starts_with(&self, s: &[u8]) -> (r: bool)
        requires
            self.wf(),
        ensures
            r == has_prefix_at(self.input(), self.position(), s@),
    {
        if s.len() > self.buf.len() - self.pos {
            return false;
        }
        let mut i: usize = 0;
        while i < s.len()
            invariant
                self.wf(),
                i <= s.len(),
                self.pos + s.len() <= self.buf.len(),
                forall|j: int| 0 <= j < i ==> self.buf@[self.pos + j] == s@[j],
            decreases s.len() - i,
        {
            if self.buf[self.pos + i] != s[i] {
                assert(self.input().subrange(self.position(), self.position() + s@.len())[i as int]
                    != s@[i as int]);
                return false;
            }
            i += 1;
        }
        assert(self.input().subrange(self.position(), self.position() + s@.len()) =~= s@);
        true
    }
}

} // verus!
