//! The lines of a text, as key files are read.

use crate::format::has_prefix;
use vstd::prelude::*;

verus! {

/// Line feed.
pub const LF: u8 = 0x0a;

/// Carriage return.
pub const CR: u8 = 0x0d;

/// The index of the first line feed in `text`, or the length of `text`
/// where it holds none.
pub open spec fn line_end(text: Seq<u8>) -> int
    decreases text.len(),
{
    if text.len() == 0 || text[0] == LF {
        0
    } else {
        1 + line_end(text.drop_first())
    }
}

/// A line without the carriage return that stood before its line feed.
pub open spec fn without_cr(line: Seq<u8>) -> Seq<u8> {
    if line.len() > 0 && line.last() == CR {
        line.drop_last()
    } else {
        line
    }
}

/// The lines of `text`. A line ends at a line feed, or at a carriage return
/// directly followed by one; neither belongs to the line. What follows the
/// last line feed is a line of its own unless it is empty, and it keeps a
/// carriage return at its end.
pub open spec fn lines_of(text: Seq<u8>) -> Seq<Seq<u8>>
    decreases text.len(),
{
    let end = line_end(text);
    if text.len() == 0 {
        Seq::empty()
    } else if 0 <= end < text.len() {
        seq![without_cr(text.subrange(0, end))] + lines_of(
            text.subrange(end + 1, text.len() as int),
        )
    } else {
        seq![text]
    }
}

/// The texts that a vector of lines holds.
pub open spec fn texts(lines: Seq<Vec<u8>>) -> Seq<Seq<u8>> {
    lines.map_values(|line: Vec<u8>| line@)
}

/// `line_end` lies within `text`; no line feed stands before it, and one
/// stands at it unless it is the end of `text`.
pub proof fn lemma_line_end(text: Seq<u8>)
    ensures
        0 <= line_end(text) <= text.len(),
        forall|j: int| 0 <= j < line_end(text) ==> text[j] != LF,
        line_end(text) < text.len() ==> text[line_end(text)] == LF,
    decreases text.len(),
{
    if text.len() == 0 || text[0] == LF {
    } else {
        let rest = text.drop_first();
        lemma_line_end(rest);
        assert forall|j: int| 0 <= j < line_end(text) implies text[j] != LF by {
            if j > 0 {
                assert(text[j] == rest[j - 1]);
            }
        }
        if line_end(text) < text.len() {
            assert(text[line_end(text)] == rest[line_end(rest)]);
        }
    }
}

/// `line_end` is the only index before which `text` holds no line feed and
/// at which it ends or holds one.
pub proof fn lemma_line_end_unique(text: Seq<u8>, end: int)
    requires
        0 <= end <= text.len(),
        forall|j: int| 0 <= j < end ==> text[j] != LF,
        end < text.len() ==> text[end] == LF,
    ensures
        line_end(text) == end,
{
    lemma_line_end(text);
    let found = line_end(text);
    if found < end {
        assert(text[found] == LF);
    } else if end < found {
        assert(text[end] != LF);
    }
}

/// No line holds a line feed.
pub proof fn lemma_lines_hold_no_lf(text: Seq<u8>, i: int)
    requires
        0 <= i < lines_of(text).len(),
    ensures
        !lines_of(text)[i].contains(LF),
    decreases text.len(),
{
    lemma_line_end(text);
    let end = line_end(text);
    if end < text.len() {
        let head = text.subrange(0, end);
        if i == 0 {
            assert forall|j: int| 0 <= j < without_cr(head).len() implies without_cr(head)[j]
                != LF by {
                assert(without_cr(head)[j] == text[j]);
            }
        } else {
            let rest = text.subrange(end + 1, text.len() as int);
            lemma_lines_hold_no_lf(rest, i - 1);
            assert(lines_of(text)[i] == lines_of(rest)[i - 1]);
        }
    } else {
        assert(lines_of(text)[i] == text);
    }
}

/// Finds the line that begins at `start`: where it stops, and where the
/// text after it begins. What begins at `start` has that line as its
/// first, and after it the lines of the text that follows.
fn line_at(text: &[u8], start: usize) -> (bounds: (usize, usize))
    requires
        start < text.len(),
    ensures
        start <= bounds.0 <= bounds.1 <= text.len(),
        start < bounds.1,
        lines_of(text@.subrange(start as int, text@.len() as int)) == seq![
            text@.subrange(start as int, bounds.0 as int),
        ] + lines_of(text@.subrange(bounds.1 as int, text@.len() as int)),
{
    let ghost rest = text@.subrange(start as int, text@.len() as int);
    let mut end: usize = start;
    while end < text.len() && text[end] != LF
        invariant
            start <= end <= text.len(),
            forall|j: int| start <= j < end ==> text[j] != LF,
        decreases text.len() - end,
    {
        end += 1;
    }
    proof {
        assert forall|j: int| 0 <= j < end - start implies rest[j] != LF by {
            assert(rest[j] == text[start + j]);
        }
        lemma_line_end_unique(rest, end - start);
    }
    let terminated = end < text.len();
    let mut stop: usize = end;
    if terminated && stop > start && text[stop - 1] == CR {
        stop -= 1;
    }
    let next: usize = if terminated {
        end + 1
    } else {
        end
    };
    proof {
        let head = rest.subrange(0, end - start);
        let line = text@.subrange(start as int, stop as int);
        assert(head =~= text@.subrange(start as int, end as int));
        if terminated {
            assert(line =~= without_cr(head)) by {
                if head.len() > 0 {
                    assert(head.last() == text[end - 1]);
                }
            }
            assert(rest.subrange(end - start + 1, rest.len() as int) =~= text@.subrange(
                end + 1,
                text@.len() as int,
            ));
        } else {
            assert(line =~= rest);
            assert(lines_of(text@.subrange(text@.len() as int, text@.len() as int))
                =~= Seq::<Seq<u8>>::empty());
            assert(seq![rest] + Seq::<Seq<u8>>::empty() =~= seq![rest]);
        }
    }
    (stop, next)
}

/// Splits `text` into its lines.
pub fn split_lines(text: &[u8]) -> (lines: Vec<Vec<u8>>)
    ensures
        texts(lines@) == lines_of(text@),
{
    let mut lines: Vec<Vec<u8>> = Vec::new();
    let mut start: usize = 0;
    assert(text@.subrange(0, text@.len() as int) =~= text@);
    assert(texts(lines@) + lines_of(text@) =~= lines_of(text@));
    while start < text.len()
        invariant
            start <= text.len(),
            lines_of(text@) == texts(lines@) + lines_of(
                text@.subrange(start as int, text@.len() as int),
            ),
        decreases text.len() - start,
    {
        let ghost before = lines@;
        let (stop, next) = line_at(text, start);
        let line = vstd::slice::slice_to_vec(vstd::slice::slice_subrange(text, start, stop));
        lines.push(line);
        assert(texts(lines@) =~= texts(before) + seq![line@]);
        start = next;
    }
    assert(lines_of(text@.subrange(start as int, text@.len() as int)) =~= Seq::<
        Seq<u8>,
    >::empty());
    lines
}

/// Tells whether `line` is one of the lines of `text`.
pub fn has_line(text: &[u8], line: &[u8]) -> (found: bool)
    ensures
        found == lines_of(text@).contains(line@),
{
    let mut start: usize = 0;
    assert(text@.subrange(0, text@.len() as int) =~= text@);
    while start < text.len()
        invariant
            start <= text.len(),
            lines_of(text@).contains(line@) == lines_of(
                text@.subrange(start as int, text@.len() as int),
            ).contains(line@),
        decreases text.len() - start,
    {
        let ghost rest = lines_of(text@.subrange(start as int, text@.len() as int));
        let (stop, next) = line_at(text, start);
        let here = vstd::slice::slice_subrange(text, start, stop);
        let ghost after = lines_of(text@.subrange(next as int, text@.len() as int));
        proof {
            assert(rest == seq![here@] + after);
            assert(rest[0] == here@);
            if after.contains(line@) {
                let at = choose|at: int| 0 <= at < after.len() && after[at] == line@;
                assert(rest[at + 1] == line@);
            }
            if rest.contains(line@) && here@ != line@ {
                let at = choose|at: int| 0 <= at < rest.len() && rest[at] == line@;
                assert(after[at - 1] == line@);
            }
        }
        if here.len() == line.len() && has_prefix(here, line) {
            assert(here@.subrange(0, line@.len() as int) =~= here@);
            return true;
        }
        assert(here@ != line@) by {
            if here@.len() == line@.len() {
                assert(here@.subrange(0, line@.len() as int) =~= here@);
            }
        }
        start = next;
    }
    assert(lines_of(text@.subrange(start as int, text@.len() as int)) =~= Seq::<
        Seq<u8>,
    >::empty());
    false
}

} // verus!
