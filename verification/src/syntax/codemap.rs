//! Spans of source code and maps from lines to byte positions.

use vstd::prelude::*;
use vstd::string::*;

verus! {

/// A structure representing the start and end byte positions of a token
/// or span of code.
#[derive(Copy, Clone, Debug, PartialEq, Eq, Structural)]
pub struct Span {
    /// The byte position of the starting character in this `Span`.
    pub start: usize,
    /// The byte position of the ending character in this `Span`.
    pub end: usize,
}

impl Span {
    /// Create a code span that ranges from `start` to `end`, inclusively.
    pub fn from(start: usize, end: usize) -> (r: Self)
        ensures
            r == (Span { start, end }),
    {
        Span { start, end }
    }

    /// Create a code span at `pos` that occupies a single character.
    pub fn at(pos: usize) -> (r: Self)
        ensures
            r == (Span { start: pos, end: pos }),
    {
        Span { start: pos, end: pos }
    }

    /// The number of positions the span covers, both ends included.
    pub fn len(&self) -> (r: usize)
        requires
            self.start <= self.end,
            self.end - self.start < usize::MAX,
        ensures
            r == self.end - self.start + 1,
    {
        (self.end - self.start) + 1
    }

    /// The smallest span that covers both: it starts at the earlier of the
    /// two starts and ends at the later of the two ends.
    pub fn join(&self, other: &Self) -> (r: Self)
        ensures
            r.start == if self.start <= other.start { self.start } else { other.start },
            r.end == if self.end >= other.end { self.end } else { other.end },
    {
        Span {
            start: if self.start <= other.start { self.start } else { other.start },
            end: if self.end >= other.end { self.end } else { other.end },
        }
    }

    /// Whether `other` lies within this span.
    pub fn contains(&self, other: &Self) -> (r: bool)
        ensures
            r == (self.start <= other.start && self.end >= other.end),
    {
        self.start <= other.start && self.end >= other.end
    }
}

/// The starts of the lines of the bytes `b[0..i]`: 0, and the position
/// after each line feed.
pub open spec fn line_starts_upto(b: Seq<u8>, i: int) -> Seq<usize>
    decreases i,
{
    if i <= 0 {
        seq![0usize]
    } else if b[i - 1] == 0x0a {
        line_starts_upto(b, i - 1).push(i as usize)
    } else {
        line_starts_upto(b, i - 1)
    }
}

/// The starts of the lines of the bytes `b`.
pub open spec fn line_starts(b: Seq<u8>) -> Seq<usize> {
    line_starts_upto(b, b.len() as int)
}

/// A record of a source file, containing a mapping between line beginnings and
/// byte positions.
pub struct CodeMap<'a> {
    /// The bounds of this codemap.
    span: Span,
    source: &'a str,
    lines: Vec<usize>,
}

impl<'a> CodeMap<'a> {
    /// The bounds of the source.
    pub closed spec fn spec_span(&self) -> Span {
        self.span
    }

    /// The source text.
    pub closed spec fn spec_source(&self) -> Seq<char> {
        self.source@
    }

    /// The byte positions at which the lines of the source begin.
    pub closed spec fn spec_lines(&self) -> Seq<usize> {
        self.lines@
    }

    /// The byte positions at which the lines of the source begin.
    pub fn lines(&self) -> (r: &Vec<usize>)
        ensures
            r@ == self.spec_lines(),
    {
        &self.lines
    }

    /// The map of `source`: its bounds, from 0 to its length in bytes, and
    /// the starts of its lines.
    pub fn new(source: &'a str) -> (r: Self)
        ensures
            r.spec_span() == (Span { start: 0, end: source.spec_bytes().len() as usize }),
            r.spec_source() == source@,
            r.spec_lines() == line_starts(source.spec_bytes()),
    {
        let bytes = source.as_bytes();
        let end = source.len();
        let mut lines: Vec<usize> = Vec::new();
        lines.push(0);
        let mut i: usize = 0;
        assert(lines@ =~= line_starts_upto(bytes@, 0));
        while i < bytes.len()
            invariant
                i <= bytes@.len(),
                lines@ == line_starts_upto(bytes@, i as int),
            decreases bytes@.len() - i,
        {
            if bytes[i] == 0x0a {
                lines.push(i + 1);
            }
            i = i + 1;
        }
        CodeMap { span: Span::from(0, end), source, lines }
    }
}

} // verus!

verus! {

/// The starts of the lines: the first line starts at 0, the starts
/// increase, every other start comes just after a line feed, and every
/// line feed is followed by a start.
pub proof fn lemma_line_starts(b: Seq<u8>, i: int)
    requires
        0 <= i <= b.len(),
        b.len() <= usize::MAX,
    ensures
        line_starts_upto(b, i).len() >= 1,
        line_starts_upto(b, i)[0] == 0,
        forall|k: int|
            0 <= k < line_starts_upto(b, i).len() - 1 ==> line_starts_upto(b, i)[k]
                < #[trigger] line_starts_upto(b, i)[k + 1],
        forall|k: int|
            1 <= k < line_starts_upto(b, i).len() ==> 0 < #[trigger] line_starts_upto(b, i)[k] <= i
                && b[line_starts_upto(b, i)[k] - 1] == 0x0a,
        forall|m: int|
            0 <= m < i && b[m] == 0x0a ==> #[trigger] line_starts_upto(b, i).contains(
                (m + 1) as usize,
            ),
    decreases i,
{
    if i > 0 {
        lemma_line_starts(b, i - 1);
        let prev = line_starts_upto(b, i - 1);
        let cur = line_starts_upto(b, i);
        if b[i - 1] == 0x0a {
            assert(cur == prev.push(i as usize));
            assert forall|k: int| 0 <= k < cur.len() - 1 implies cur[k] < #[trigger] cur[k + 1] by {
                if k + 1 < prev.len() {
                    assert(prev[k] < prev[k + 1]);
                } else if k >= 1 {
                    assert(0 < prev[k] <= i - 1);
                } else {
                    assert(prev[0] == 0);
                }
            }
            assert forall|m: int| 0 <= m < i && b[m] == 0x0a implies #[trigger] cur.contains(
                (m + 1) as usize,
            ) by {
                if m == i - 1 {
                    assert(cur[cur.len() - 1] == (m + 1) as usize);
                } else {
                    assert(prev.contains((m + 1) as usize));
                    let k = choose|k: int| 0 <= k < prev.len() && prev[k] == (m + 1) as usize;
                    assert(cur[k] == prev[k]);
                }
            }
        } else {
            assert(cur == prev);
            assert forall|m: int| 0 <= m < i && b[m] == 0x0a implies #[trigger] cur.contains(
                (m + 1) as usize,
            ) by {
                assert(m != i - 1);
                assert(prev.contains((m + 1) as usize));
            }
        }
    }
}

} // verus!
