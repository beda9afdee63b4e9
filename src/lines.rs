//! Line-by-line reading of a file's contents, read once when the file is
//! opened and handed out one line per call.

use vstd::prelude::*;
use vstd::utf8::{decode_utf8, valid_utf8};
use crate::error::{FailureKind, IoFailure};
use crate::text::{len_field, utf8_text, Str};

verus! {

/// The line terminator.
pub const NEWLINE: u8 = 10;

/// Where the line that starts at `pos` ends: just past the first newline
/// at or after `pos`, or at the end of `content` when none follows.
pub open spec fn line_end(content: Seq<u8>, pos: int) -> int
    decreases content.len() - pos,
{
    if pos >= content.len() {
        content.len() as int
    } else if content[pos] == NEWLINE {
        pos + 1
    } else {
        line_end(content, pos + 1)
    }
}

/// A line that starts inside `content` is not empty, stays inside
/// `content`, holds no newline but as its last byte, and ends with one
/// unless it reaches the end of `content`.
pub proof fn lemma_line_end_bounds(content: Seq<u8>, pos: int)
    requires
        0 <= pos < content.len(),
    ensures
        pos < line_end(content, pos) <= content.len(),
        forall|j: int| pos <= j < line_end(content, pos) - 1 ==> content[j] != NEWLINE,
        line_end(content, pos) < content.len() ==> content[line_end(content, pos) - 1] == NEWLINE,
    decreases content.len() - pos,
{
    if content[pos] != NEWLINE {
        if pos + 1 < content.len() {
            lemma_line_end_bounds(content, pos + 1);
        } else {
            assert(line_end(content, pos + 1) == content.len());
        }
    }
}

#[via_fn]
proof fn lines_from_decreases(content: Seq<u8>, pos: int) {
    if 0 <= pos < content.len() {
        lemma_line_end_bounds(content, pos);
    }
}

/// The lines of `content` from `pos` on, each with its terminator.
pub open spec fn lines_from(content: Seq<u8>, pos: int) -> Seq<Seq<u8>>
    decreases content.len() - pos via lines_from_decreases
{
    if 0 <= pos < content.len() {
        let e = line_end(content, pos);
        seq![content.subrange(pos, e)] + lines_from(content, e)
    } else {
        Seq::empty()
    }
}

/// The lines of a whole file's contents.
pub open spec fn lines_of(content: Seq<u8>) -> Seq<Seq<u8>> {
    lines_from(content, 0)
}

/// The lines from `pos` on, joined, are the contents from `pos` on; each is
/// non-empty, holds a newline only as its last byte, and all but the last
/// end with one.
proof fn lemma_lines_from_cover(content: Seq<u8>, pos: int)
    requires
        0 <= pos <= content.len(),
    ensures
        lines_from(content, pos).flatten() == content.subrange(pos, content.len() as int),
        forall|i: int|
            0 <= i < lines_from(content, pos).len() ==> #[trigger] lines_from(content, pos)[i].len()
                > 0,
        forall|i: int, j: int|
            0 <= i < lines_from(content, pos).len() && 0 <= j < lines_from(content, pos)[i].len()
                - 1 ==> #[trigger] lines_from(content, pos)[i][j] != NEWLINE,
        forall|i: int|
            0 <= i < lines_from(content, pos).len() - 1 ==> #[trigger] lines_from(
                content,
                pos,
            )[i].last() == NEWLINE,
    decreases content.len() - pos,
{
    if pos < content.len() {
        let e = line_end(content, pos);
        lemma_line_end_bounds(content, pos);
        lemma_lines_from_cover(content, e);
        let line = content.subrange(pos, e);
        let rest = lines_from(content, e);
        let all = lines_from(content, pos);
        assert(all == seq![line] + rest);
        assert(all.drop_first() =~= rest);
        assert(all.first() == line);
        assert(content.subrange(pos, content.len() as int) =~= line + content.subrange(
            e,
            content.len() as int,
        ));
        assert forall|i: int| 0 <= i < all.len() implies #[trigger] all[i].len() > 0 by {
            if i > 0 {
                assert(all[i] == rest[i - 1]);
            }
        }
        assert forall|i: int, j: int|
            0 <= i < all.len() && 0 <= j < all[i].len() - 1 implies #[trigger] all[i][j]
            != NEWLINE by {
            if i > 0 {
                assert(all[i] == rest[i - 1]);
            } else {
                assert(all[i][j] == content[pos + j]);
            }
        }
        assert forall|i: int| 0 <= i < all.len() - 1 implies #[trigger] all[i].last()
            == NEWLINE by {
            if i > 0 {
                assert(all[i] == rest[i - 1]);
            } else {
                assert(rest.len() > 0);
                assert(e < content.len());
            }
        }
    } else {
        assert(content.subrange(pos, content.len() as int) =~= Seq::<u8>::empty());
    }
}

/// Reading a file line by line gives back exactly its contents: the lines,
/// joined in the order they are handed out, are the contents; each line is
/// non-empty and keeps its terminator; a newline stands only at the end of
/// a line, and every line but the last ends with one.
pub proof fn lemma_lines_reproduce_content(content: Seq<u8>)
    ensures
        lines_of(content).flatten() == content,
        forall|i: int| 0 <= i < lines_of(content).len() ==> #[trigger] lines_of(content)[i].len() > 0,
        forall|i: int, j: int|
            0 <= i < lines_of(content).len() && 0 <= j < lines_of(content)[i].len() - 1
                ==> #[trigger] lines_of(content)[i][j] != NEWLINE,
        forall|i: int|
            0 <= i < lines_of(content).len() - 1 ==> #[trigger] lines_of(content)[i].last()
                == NEWLINE,
{
    lemma_lines_from_cover(content, 0);
    assert(content.subrange(0, content.len() as int) =~= content);
}

/// Whether `r` hands out `line` as it should: its decoded text with its
/// byte length, or an invalid-data failure when it is not UTF-8.
pub open spec fn line_result(line: Seq<u8>, r: Result<Option<Str>, IoFailure>) -> bool {
    if valid_utf8(line) {
        &&& r is Ok
        &&& r->Ok_0 is Some
        &&& r->Ok_0->0.str@ == decode_utf8(line)
        &&& r->Ok_0->0.len == len_field(line.len())
    } else {
        r == Err::<Option<Str>, IoFailure>(
            IoFailure { kind: FailureKind::InvalidData, os_code: None },
        )
    }
}

/// An open file's contents with a cursor at the start of the next line.
pub struct LineIterator {
    content: Vec<u8>,
    pos: usize,
}

impl LineIterator {
    #[verifier::type_invariant]
    spec fn cursor_inside(&self) -> bool {
        self.pos <= self.content.len()
    }

    /// The file's contents.
    pub closed spec fn content(&self) -> Seq<u8> {
        self.content@
    }

    /// The offset of the next line in the contents.
    pub closed spec fn position(&self) -> int {
        self.pos as int
    }

    /// The lines that the next calls will hand out, in order.
    pub open spec fn remaining(&self) -> Seq<Seq<u8>> {
        lines_from(self.content(), self.position())
    }

    /// Whether every line has been handed out.
    pub open spec fn is_exhausted(&self) -> bool {
        self.position() >= self.content().len()
    }

    /// An iterator at the first line of `content`.
    pub fn new(content: Vec<u8>) -> (r: LineIterator)
        ensures
            r.content() == content@,
            r.position() == 0,
            r.remaining() == lines_of(content@),
    {
        LineIterator { content, pos: 0 }
    }

    /// Hands out the next line with its terminator, or `None` once every
    /// line has been handed out. A line that is not UTF-8 is consumed and
    /// reported as invalid data.
    pub fn next_line(&mut self) -> (r: Result<Option<Str>, IoFailure>)
        ensures
            final(self).content() == old(self).content(),
            old(self).is_exhausted() <==> old(self).remaining().len() == 0,
            old(self).is_exhausted() ==> (r matches Ok(None)) && final(self).position()
                == old(self).position(),
            !old(self).is_exhausted() ==> {
                &&& final(self).position() == line_end(old(self).content(), old(self).position())
                &&& final(self).remaining() == old(self).remaining().drop_first()
                &&& line_result(old(self).remaining()[0], r)
            },
    {
        proof {
            use_type_invariant(&*self);
        }
        let ghost c = self.content@;
        let start = self.pos;
        if start >= self.content.len() {
            return Ok(None);
        }
        let mut end = start;
        let mut done = false;
        while !done && end < self.content.len()
            invariant
                c == self.content@,
                start < c.len(),
                start <= end <= c.len(),
                done ==> line_end(c, start as int) == end,
                !done ==> line_end(c, start as int) == line_end(c, end as int),
            decreases c.len() - end,
        {
            if self.content[end] == NEWLINE {
                done = true;
            }
            end = end + 1;
        }
        let ghost line = c.subrange(start as int, end as int);
        proof {
            lemma_line_end_bounds(c, start as int);
            assert(old(self).remaining() =~= seq![line] + lines_from(c, end as int));
            assert(old(self).remaining().drop_first() =~= lines_from(c, end as int));
        }
        self.pos = end;
        let bytes = vstd::slice::slice_subrange(self.content.as_slice(), start, end);
        match utf8_text(bytes) {
            Some(s) => {
                proof {
                    vstd::utf8::decode_utf8_encode_utf8(line);
                }
                Ok(Some(Str::new(s)))
            },
            None => Err(IoFailure::of_kind(FailureKind::InvalidData)),
        }
    }
}

} // verus!
