//! Mapping byte offsets of a source to lines and columns.
use vstd::prelude::*;

verus! {

/// A single source line: its index (0-based), the byte range of the line in the source
/// (without the newline), the number of leading spaces and tabs, and the line's bytes.
#[derive(Debug, Clone, Copy)]
pub struct Line<'rk> {
    pub index: usize,
    pub start: usize,
    pub end: usize,
    pub indent: usize,
    pub text: &'rk [u8],
}

/// The lines of a source, for resolving byte offsets to lines and columns.
#[derive(Clone)]
pub struct LineIndex<'rk> {
    lines: Vec<Line<'rk>>,
    source: Ghost<Seq<u8>>,
}

/// A space or a tab: the bytes that make up indentation.
pub open spec fn is_indent_byte(b: u8) -> bool {
    b == 32u8 || b == 9u8
}

/// `indent` is the number of leading spaces and tabs of `text`.
pub open spec fn is_indent_of(text: Seq<u8>, indent: int) -> bool {
    &&& 0 <= indent <= text.len()
    &&& forall|k: int| 0 <= k < indent ==> is_indent_byte(#[trigger] text[k])
    &&& indent < text.len() ==> !is_indent_byte(text[indent])
}

/// `l` is the line with index `i` of `src`, apart from where it ends.
pub open spec fn line_ok(src: Seq<u8>, l: Line, i: int) -> bool {
    &&& l.index == i
    &&& l.start <= l.end <= src.len()
    &&& l.text@ == src.subrange(l.start as int, l.end as int)
    &&& forall|k: int| l.start <= k < l.end ==> #[trigger] src[k] != 10u8
    &&& is_indent_of(l.text@, l.indent as int)
}

/// Line `i` is followed by a newline, and line `i + 1` starts right after it.
pub open spec fn newline_after(src: Seq<u8>, lines: Seq<Line>, i: int) -> bool {
    &&& lines[i].end < src.len()
    &&& src[lines[i].end as int] == 10u8
    &&& lines[i + 1].start == lines[i].end + 1
}

/// `lines` are the pieces of `src` between newlines, in order.
pub open spec fn is_line_split(src: Seq<u8>, lines: Seq<Line>) -> bool {
    &&& 1 <= lines.len() <= usize::MAX
    &&& lines[0].start == 0
    &&& lines.last().end == src.len()
    &&& forall|i: int| 0 <= i < lines.len() ==> line_ok(src, #[trigger] lines[i], i)
    &&& forall|i: int| 0 <= i < lines.len() - 1 ==> #[trigger] newline_after(src, lines, i)
    &&& forall|i: int, j: int|
        0 <= i < j < lines.len() ==> (#[trigger] lines[i]).end < (#[trigger] lines[j]).start
}

/// The `(start, end)` byte ranges of the lines of `src[start..]`, the current line having
/// started at `start` and the scan having reached `pos`.
pub open spec fn ranges_from(src: Seq<u8>, start: int, pos: int) -> Seq<(int, int)>
    decreases src.len() - pos,
{
    if pos >= src.len() {
        seq![(start, src.len() as int)]
    } else if src[pos] == 10u8 {
        seq![(start, pos)] + ranges_from(src, pos + 1, pos + 1)
    } else {
        ranges_from(src, start, pos + 1)
    }
}

/// The `(start, end)` byte ranges of the lines of `src`: the pieces between newlines,
/// newlines excluded. A source always has at least one (maybe empty) line.
pub open spec fn line_ranges(src: Seq<u8>) -> Seq<(int, int)> {
    ranges_from(src, 0, 0)
}

/// The byte ranges of a list of lines.
pub open spec fn spans(lines: Seq<Line>) -> Seq<(int, int)> {
    Seq::new(lines.len(), |i: int| (lines[i].start as int, lines[i].end as int))
}

/// The index of the line that contains `offset`: the last line that starts at or before it.
/// Offsets past the end of the source belong to the last line.
pub open spec fn line_of(ranges: Seq<(int, int)>, offset: int) -> int
    decreases ranges.len(),
{
    if ranges.len() <= 1 {
        0
    } else if ranges.last().0 <= offset {
        ranges.len() - 1
    } else {
        line_of(ranges.drop_last(), offset)
    }
}

/// Line `r` starts at or before `offset`, and the next line, if any, after it.
pub open spec fn holds_offset(ranges: Seq<(int, int)>, r: int, offset: int) -> bool {
    &&& 0 <= r < ranges.len()
    &&& ranges[r].0 <= offset
    &&& r + 1 < ranges.len() ==> offset < ranges[r + 1].0
}

/// The lines' starts increase.
pub open spec fn starts_increase(ranges: Seq<(int, int)>) -> bool {
    forall|i: int, j: int| 0 <= i < j < ranges.len() ==> (#[trigger] ranges[i]).0 < (#[trigger] ranges[j]).0
}

/// The line that `line_of` picks holds the offset.
pub proof fn lemma_line_of(ranges: Seq<(int, int)>, offset: int)
    requires
        ranges.len() >= 1,
        ranges[0].0 <= offset,
    ensures
        holds_offset(ranges, line_of(ranges, offset), offset),
    decreases ranges.len(),
{
    if ranges.len() > 1 && ranges.last().0 > offset {
        lemma_line_of(ranges.drop_last(), offset);
    }
}

/// Only one line holds an offset.
pub proof fn lemma_line_of_unique(ranges: Seq<(int, int)>, offset: int, r: int)
    requires
        ranges.len() >= 1,
        ranges[0].0 <= offset,
        starts_increase(ranges),
        holds_offset(ranges, r, offset),
    ensures
        r == line_of(ranges, offset),
{
    lemma_line_of(ranges, offset);
    let l = line_of(ranges, offset);
    if r < l {
        assert(ranges[r + 1].0 <= ranges[l].0);
    } else if l < r {
        assert(ranges[l + 1].0 <= ranges[r].0);
    }
}

proof fn lemma_split_starts(src: Seq<u8>, lines: Seq<Line>)
    requires
        is_line_split(src, lines),
    ensures
        starts_increase(spans(lines)),
{
    assert forall|i: int, j: int| 0 <= i < j < spans(lines).len() implies (#[trigger] spans(
        lines,
    )[i]).0 < (#[trigger] spans(lines)[j]).0 by {
        assert(line_ok(src, lines[i], i));
        assert(lines[i].end < lines[j].start);
    }
}

/// Every offset belongs to exactly the line that `line_of` names.
pub proof fn lemma_split_line_of(src: Seq<u8>, lines: Seq<Line>, offset: int)
    requires
        is_line_split(src, lines),
        0 <= offset,
    ensures
        holds_offset(spans(lines), line_of(spans(lines), offset), offset),
        forall|r: int| holds_offset(spans(lines), r, offset) ==> r == line_of(spans(lines), offset),
{
    lemma_split_starts(src, lines);
    lemma_line_of(spans(lines), offset);
    assert forall|r: int| holds_offset(spans(lines), r, offset) implies r == line_of(
        spans(lines),
        offset,
    ) by {
        lemma_line_of_unique(spans(lines), offset, r);
    }
}

proof fn lemma_ranges_from(src: Seq<u8>, start: int, pos: int)
    requires
        0 <= start <= pos <= src.len(),
    ensures
        ranges_from(src, start, pos).len() >= 1,
        forall|i: int|
            0 <= i < ranges_from(src, start, pos).len() ==> start <= (#[trigger] ranges_from(
                src,
                start,
                pos,
            )[i]).0 <= ranges_from(src, start, pos)[i].1 <= src.len(),
    decreases src.len() - pos,
{
    if pos < src.len() {
        if src[pos] == 10u8 {
            lemma_ranges_from(src, pos + 1, pos + 1);
            let rest = ranges_from(src, pos + 1, pos + 1);
            assert forall|i: int| 0 <= i < ranges_from(src, start, pos).len() implies start <= (
            #[trigger] ranges_from(src, start, pos)[i]).0 <= ranges_from(src, start, pos)[i].1
                <= src.len() by {
                if i > 0 {
                    assert(ranges_from(src, start, pos)[i] == rest[i - 1]);
                }
            }
        } else {
            lemma_ranges_from(src, start, pos + 1);
        }
    }
}

/// The number of newlines of `src` at or after byte `pos`.
pub open spec fn newlines_from(src: Seq<u8>, pos: int) -> nat
    decreases src.len() - pos,
{
    if pos < 0 || pos >= src.len() {
        0
    } else if src[pos] == 10u8 {
        1 + newlines_from(src, pos + 1)
    } else {
        newlines_from(src, pos + 1)
    }
}

/// The number of newlines of `src`.
pub open spec fn newline_count(src: Seq<u8>) -> nat {
    newlines_from(src, 0)
}

proof fn lemma_ranges_count(src: Seq<u8>, start: int, pos: int)
    requires
        0 <= start <= pos <= src.len(),
    ensures
        ranges_from(src, start, pos).len() == 1 + newlines_from(src, pos),
    decreases src.len() - pos,
{
    if pos < src.len() {
        if src[pos] == 10u8 {
            lemma_ranges_count(src, pos + 1, pos + 1);
        } else {
            lemma_ranges_count(src, start, pos + 1);
        }
    }
}

/// A source has one line more than it has newlines.
pub proof fn lemma_line_count(src: Seq<u8>)
    ensures
        line_ranges(src).len() == 1 + newline_count(src),
{
    lemma_ranges_count(src, 0, 0);
}

/// Every line range lies within the source, and there is at least one line.
pub proof fn lemma_line_ranges(src: Seq<u8>)
    ensures
        line_ranges(src).len() >= 1,
        forall|i: int|
            0 <= i < line_ranges(src).len() ==> 0 <= (#[trigger] line_ranges(src)[i]).0
                <= line_ranges(src)[i].1 <= src.len(),
{
    lemma_ranges_from(src, 0, 0);
}

proof fn lemma_ranges_from_ordered(src: Seq<u8>, start: int, pos: int)
    requires
        0 <= start <= pos <= src.len(),
    ensures
        forall|i: int, j: int|
            0 <= i < j < ranges_from(src, start, pos).len() ==> (#[trigger] ranges_from(src, start, pos)[i]).1
                < (#[trigger] ranges_from(src, start, pos)[j]).0,
    decreases src.len() - pos,
{
    if pos < src.len() {
        if src[pos] == 10u8 {
            lemma_ranges_from_ordered(src, pos + 1, pos + 1);
            lemma_ranges_from(src, pos + 1, pos + 1);
            let rest = ranges_from(src, pos + 1, pos + 1);
            let all = ranges_from(src, start, pos);
            assert(all == seq![(start, pos)] + rest);
            assert forall|i: int, j: int| 0 <= i < j < all.len() implies (#[trigger] all[i]).1 < (#[trigger] all[j]).0 by {
                assert(all[j] == rest[j - 1]);
                if i > 0 {
                    assert(all[i] == rest[i - 1]);
                }
            }
        } else {
            lemma_ranges_from_ordered(src, start, pos + 1);
            assert(ranges_from(src, start, pos) == ranges_from(src, start, pos + 1));
        }
    }
}

proof fn lemma_ranges_from_first(src: Seq<u8>, start: int, pos: int)
    requires
        0 <= start <= pos <= src.len(),
    ensures
        ranges_from(src, start, pos)[0].0 == start,
    decreases src.len() - pos,
{
    if pos < src.len() && src[pos] != 10u8 {
        lemma_ranges_from_first(src, start, pos + 1);
    }
}

/// The first line starts at the start of the source.
pub proof fn lemma_first_line_start(src: Seq<u8>)
    ensures
        line_ranges(src)[0].0 == 0,
{
    lemma_ranges_from_first(src, 0, 0);
}

/// Each line ends before the next ones start.
pub proof fn lemma_line_ranges_ordered(src: Seq<u8>, i: int, j: int)
    requires
        0 <= i < j < line_ranges(src).len(),
    ensures
        line_ranges(src)[i].1 < line_ranges(src)[j].0,
{
    lemma_ranges_from_ordered(src, 0, 0);
}

/// The bytes of line `i` of `src`.
pub open spec fn line_text(src: Seq<u8>, i: int) -> Seq<u8> {
    src.subrange(line_ranges(src)[i].0, line_ranges(src)[i].1)
}

/// `line` is one of the lines of `src`, with its index, range and text.
pub open spec fn is_line_of(src: Seq<u8>, line: Line) -> bool {
    &&& 0 <= line.index < line_ranges(src).len()
    &&& line.start == line_ranges(src)[line.index as int].0
    &&& line.end == line_ranges(src)[line.index as int].1
    &&& line.text@ == line_text(src, line.index as int)
    &&& is_indent_of(line.text@, line.indent as int)
}

/// The number of leading spaces and tabs of `text`.
fn leading_indent(text: &[u8]) -> (n: usize)
    ensures
        is_indent_of(text@, n as int),
{
    let mut n: usize = 0;
    while n < text.len() && (text[n] == 32u8 || text[n] == 9u8)
        invariant
            0 <= n <= text@.len(),
            forall|k: int| 0 <= k < n ==> is_indent_byte(#[trigger] text@[k]),
        decreases text@.len() - n,
    {
        n = n + 1;
    }
    n
}

impl<'rk> View for LineIndex<'rk> {
    type V = Seq<Line<'rk>>;

    closed spec fn view(&self) -> Seq<Line<'rk>> {
        self.lines@
    }
}

impl<'rk> LineIndex<'rk> {
    /// The source that this index describes.
    pub closed spec fn source(&self) -> Seq<u8> {
        self.source@
    }

    /// The lines are the newline-separated pieces of the source.
    pub open spec fn wf(&self) -> bool {
        &&& is_line_split(self.source(), self@)
        &&& spans(self@) == line_ranges(self.source())
    }

    /// The index of the line holding `offset`.
    pub open spec fn line_of(&self, offset: int) -> int {
        line_of(spans(self@), offset)
    }

    /// Where the line holding `offset` starts.
    pub open spec fn start_of(&self, offset: int) -> int {
        self@[self.line_of(offset)].start as int
    }

    /// The 1-based column of `offset` fits in a `usize`.
    pub open spec fn column_fits(&self, offset: int) -> bool {
        offset - self.start_of(offset) + 1 <= usize::MAX
    }

    /// The 1-based column of `offset`.
    pub open spec fn spec_column_number(&self, offset: int) -> int {
        offset - self.start_of(offset) + 1
    }

    /// Every line of a well-formed index is a line of its source, and the lines cover
    /// the source's line ranges.
    pub proof fn lemma_lines(&self)
        requires
            self.wf(),
        ensures
            self@.len() == line_ranges(self.source()).len(),
            forall|i: int| 0 <= i < self@.len() ==> #[trigger] is_line_of(self.source(), self@[i]) && self@[i].index == i,
            forall|i: int| 0 <= i < self@.len() - 1 ==> #[trigger] newline_after(self.source(), self@, i),
    {
        assert forall|i: int| 0 <= i < self@.len() implies #[trigger] is_line_of(self.source(), self@[i]) && self@[i].index == i by {
            assert(line_ok(self.source(), self@[i], i));
            assert(spans(self@)[i] == line_ranges(self.source())[i]);
        }
    }

    /// Build a LineIndex from source bytes.
    pub fn from_source(source: &'rk [u8]) -> (r: LineIndex<'rk>)
        requires
            source@.len() < usize::MAX,
        ensures
            r.wf(),
            r.source() == source@,
            r@.len() == 1 + newline_count(source@),
    {
        proof {
            lemma_line_count(source@);
        }
        let mut lines: Vec<Line<'rk>> = Vec::new();
        let mut start: usize = 0;
        let mut pos: usize = 0;
        while pos < source.len()
            invariant
                0 <= start <= pos <= source@.len(),
                source@.len() < usize::MAX,
                lines@.len() <= pos,
                lines@.len() == 0 ==> start == 0,
                lines@.len() > 0 ==> lines@[0].start == 0,
                lines@.len() > 0 ==> lines@.last().end < source@.len() && source@[lines@.last().end as int] == 10u8 && start == lines@.last().end + 1,
                forall|i: int| 0 <= i < lines@.len() ==> line_ok(source@, #[trigger] lines@[i], i),
                forall|i: int| 0 <= i < lines@.len() - 1 ==> #[trigger] newline_after(source@, lines@, i),
                forall|i: int, j: int|
                    0 <= i < j < lines@.len() ==> (#[trigger] lines@[i]).end < (#[trigger] lines@[j]).start,
                forall|k: int| start <= k < pos ==> #[trigger] source@[k] != 10u8,
                spans(lines@) + ranges_from(source@, start as int, pos as int) == line_ranges(source@),
            decreases source@.len() - pos,
        {
            let ghost sp_before = spans(lines@);
            let ghost rf_before = ranges_from(source@, start as int, pos as int);
            if source[pos] == 10u8 {
                let text = &source[start..pos];
                let indent = leading_indent(text);
                let ghost old_lines = lines@;
                lines.push(Line { index: lines.len(), start, end: pos, indent, text });
                proof {
                    assert forall|i: int| 0 <= i < lines@.len() - 1 implies #[trigger] newline_after(
                        source@,
                        lines@,
                        i,
                    ) by {
                        if i < old_lines.len() - 1 {
                            assert(newline_after(source@, old_lines, i));
                        }
                    }
                    assert forall|i: int, j: int|
                        0 <= i < j < lines@.len() implies (#[trigger] lines@[i]).end
                        < (#[trigger] lines@[j]).start by {
                        if j == lines@.len() - 1 && i < j {
                            if i < old_lines.len() - 1 {
                                assert(old_lines[i].end < old_lines.last().start) by {
                                    assert(old_lines[i] == lines@[i]);
                                }
                            }
                            assert(line_ok(source@, old_lines.last(), old_lines.len() - 1));
                        }
                    }
                }
                proof {
                    assert(spans(lines@) =~= sp_before.push((start as int, pos as int)));
                    assert(rf_before == seq![(start as int, pos as int)] + ranges_from(
                        source@,
                        pos + 1,
                        pos + 1,
                    ));
                    assert(spans(lines@) + ranges_from(source@, pos + 1, pos + 1) =~= sp_before
                        + rf_before);
                }
                start = pos + 1;
            }
            pos = pos + 1;
        }
        let ghost sp_before = spans(lines@);
        let text = &source[start..source.len()];
        let indent = leading_indent(text);
        let ghost old_lines = lines@;
        lines.push(Line { index: lines.len(), start, end: source.len(), indent, text });
        proof {
            assert forall|i: int| 0 <= i < lines@.len() - 1 implies #[trigger] newline_after(
                source@,
                lines@,
                i,
            ) by {
                if i < old_lines.len() - 1 {
                    assert(newline_after(source@, old_lines, i));
                }
            }
            assert forall|i: int, j: int|
                0 <= i < j < lines@.len() implies (#[trigger] lines@[i]).end < (#[trigger] lines@[j]).start by {
                if j == lines@.len() - 1 && i < j {
                    if i < old_lines.len() - 1 {
                        assert(old_lines[i].end < old_lines.last().start) by {
                            assert(old_lines[i] == lines@[i]);
                        }
                    }
                    assert(line_ok(source@, old_lines.last(), old_lines.len() - 1));
                }
            }
        }
        proof {
            assert(ranges_from(source@, start as int, pos as int) == seq![(start as int, source@.len() as int)]);
            assert(spans(lines@) =~= sp_before.push((start as int, source@.len() as int)));
            assert(spans(lines@) =~= line_ranges(source@));
        }
        LineIndex { lines, source: Ghost(source@) }
    }

    /// Get all lines.
    pub fn lines(&self) -> (r: &[Line<'rk>])
        ensures
            r@ == self@,
    {
        self.lines.as_slice()
    }

    /// Get the line index (0-indexed) for a byte offset.
    pub fn line_index(&self, offset: usize) -> (r: usize)
        requires
            self.wf(),
        ensures
            r == self.line_of(offset as int),
            r < self@.len(),
    {
        let mut lo: usize = 0;
        let mut hi: usize = self.lines.len();
        while hi - lo > 1
            invariant
                self.wf(),
                0 <= lo < hi <= self@.len(),
                self@[lo as int].start <= offset,
                hi < self@.len() ==> offset < self@[hi as int].start,
            decreases hi - lo,
        {
            let mid = lo + (hi - lo) / 2;
            if self.lines[mid].start <= offset {
                lo = mid;
            } else {
                hi = mid;
            }
        }
        proof {
            lemma_split_line_of(self.source(), self@, offset as int);
        }
        lo
    }

    /// Get the line number (1-indexed) for a byte offset.
    pub fn line_number(&self, offset: usize) -> (r: usize)
        requires
            self.wf(),
        ensures
            r == self.line_of(offset as int) + 1,
    {
        self.line_index(offset) + 1
    }

    /// Get the column number (1-indexed) for a byte offset.
    pub fn column_number(&self, offset: usize) -> (r: usize)
        requires
            self.wf(),
            self.column_fits(offset as int),
        ensures
            r == self.spec_column_number(offset as int),
    {
        let line_index = self.line_index(offset);
        proof {
            lemma_split_line_of(self.source(), self@, offset as int);
        }
        let line_start = self.lines[line_index].start;
        offset - line_start + 1
    }

    /// Get both line and column (1-indexed) for a byte offset.
    pub fn line_column(&self, offset: usize) -> (r: (usize, usize))
        requires
            self.wf(),
            self.column_fits(offset as int),
        ensures
            r.0 == self.line_of(offset as int) + 1,
            r.1 == self.spec_column_number(offset as int),
    {
        let line_index = self.line_index(offset);
        proof {
            lemma_split_line_of(self.source(), self@, offset as int);
        }
        let line_start = self.lines[line_index].start;
        (line_index + 1, offset - line_start + 1)
    }

    /// Get the byte range for the line containing the given offset.
    /// Returns (line_start, next_line_start) where next_line_start is None for the last line.
    pub fn line_range(&self, offset: usize) -> (r: (usize, Option<usize>))
        requires
            self.wf(),
        ensures
            r.0 == self.start_of(offset as int),
            r.1 == (if self.line_of(offset as int) + 1 < self@.len() {
                Some(self@[self.line_of(offset as int) + 1].start)
            } else {
                None::<usize>
            }),
    {
        let line_index = self.line_index(offset);
        let line_start = self.lines[line_index].start;
        let next_line_start = if line_index + 1 < self.lines.len() {
            Some(self.lines[line_index + 1].start)
        } else {
            None
        };
        (line_start, next_line_start)
    }

    /// Check if two byte offsets are on the same line.
    pub fn are_on_same_line(&self, pos1: usize, pos2: usize) -> (r: bool)
        requires
            self.wf(),
        ensures
            r == (self.line_of(pos1 as int) == self.line_of(pos2 as int)),
    {
        let (curr_line_start, next_line_start) = self.line_range(pos1);
        let r = curr_line_start <= pos2 && match next_line_start {
            Some(next) => pos2 < next,
            None => true,
        };
        proof {
            lemma_split_line_of(self.source(), self@, pos1 as int);
            lemma_split_line_of(self.source(), self@, pos2 as int);
            if r {
                assert(holds_offset(spans(self@), self.line_of(pos1 as int), pos2 as int));
            }
        }
        r
    }

    /// Get the line content for a given line index (0-indexed).
    pub fn line(&self, line_index: usize) -> (r: Option<&'rk [u8]>)
        ensures
            r == (if line_index < self@.len() {
                Some(self@[line_index as int].text)
            } else {
                None
            }),
    {
        if line_index < self.lines.len() {
            Some(self.lines[line_index].text)
        } else {
            None
        }
    }

    /// Get the line content for a given byte offset.
    pub fn line_at(&self, offset: usize) -> (r: &'rk [u8])
        requires
            self.wf(),
        ensures
            r == self@[self.line_of(offset as int)].text,
    {
        let line_index = self.line_index(offset);
        self.lines[line_index].text
    }

    /// Check if the offset is at the beginning of its line (ignoring leading whitespace).
    pub fn is_first_on_line(&self, offset: usize) -> (r: bool)
        requires
            self.wf(),
            offset <= self.source().len(),
        ensures
            r == (forall|k: int|
                self.start_of(offset as int) <= k < offset ==> is_indent_byte(
                    #[trigger] self.source()[k],
                )),
    {
        let line_index = self.line_index(offset);
        proof {
            lemma_split_line_of(self.source(), self@, offset as int);
            assert(line_ok(self.source(), self@[line_index as int], line_index as int));
            if line_index + 1 < self@.len() {
                assert(newline_after(self.source(), self@, line_index as int));
            }
        }
        let line = &self.lines[line_index];
        let n = offset - line.start;
        let mut k: usize = 0;
        while k < n
            invariant
                self.wf(),
                n == offset - line.start,
                line.start + n <= line.end,
                line.end <= self.source().len(),
                line.text@ == self.source().subrange(line.start as int, line.end as int),
                line.start == self.start_of(offset as int),
                0 <= k <= n,
                forall|j: int|
                    line.start <= j < line.start + k ==> is_indent_byte(#[trigger] self.source()[j]),
            decreases n - k,
        {
            assert(line.text@.len() == line.end - line.start);
            let b = line.text[k];
            assert(b == self.source()[line.start + k]);
            if !(b == 32u8 || b == 9u8) {
                return false;
            }
            k = k + 1;
        }
        true
    }

    /// Calculate the column offset from pos1 to pos2 (negative if pos2 is left of pos1).
    pub fn column_offset_between(&self, pos1: usize, pos2: usize) -> (r: i32)
        requires
            self.wf(),
            self.spec_column_number(pos1 as int) <= i32::MAX,
            self.spec_column_number(pos2 as int) <= i32::MAX,
        ensures
            r == self.spec_column_number(pos2 as int) - self.spec_column_number(pos1 as int),
    {
        let col1 = self.column_number(pos1) as i32;
        let col2 = self.column_number(pos2) as i32;
        col2 - col1
    }

    /// The offsets can be resolved one after another: their starts lie on lines that do not
    /// go back, and every end lies at or after the start of its start's line.
    pub open spec fn batch_ok(&self, offsets: Seq<(usize, usize)>) -> bool {
        &&& forall|j: int, k: int|
            0 <= j < k < offsets.len() ==> self.line_of((#[trigger] offsets[j]).0 as int)
                <= self.line_of((#[trigger] offsets[k]).0 as int)
        &&& forall|k: int|
            0 <= k < offsets.len() ==> self.start_of((#[trigger] offsets[k]).0 as int)
                <= offsets[k].1
        &&& forall|k: int|
            0 <= k < offsets.len() ==> self.column_fits((#[trigger] offsets[k]).0 as int)
                && self.column_fits(offsets[k].1 as int)
    }

    /// Line and column of both ends of a range.
    pub open spec fn spec_line_column_pair(&self, o: (usize, usize)) -> (usize, usize, usize, usize) {
        (
            (self.line_of(o.0 as int) + 1) as usize,
            (self.line_of(o.1 as int) + 1) as usize,
            self.spec_column_number(o.0 as int) as usize,
            self.spec_column_number(o.1 as int) as usize,
        )
    }

    /// Line and column of both ends of a range, and the indentation of the start's line.
    pub open spec fn spec_line_info(&self, o: (usize, usize)) -> (usize, usize, usize, usize, usize) {
        (
            (self.line_of(o.0 as int) + 1) as usize,
            (self.line_of(o.1 as int) + 1) as usize,
            self.spec_column_number(o.0 as int) as usize,
            self.spec_column_number(o.1 as int) as usize,
            self@[self.line_of(o.0 as int)].indent,
        )
    }

    /// Advance a line cursor to the line holding `offset`.
    fn advance_to(&self, cur: usize, offset: usize) -> (r: usize)
        requires
            self.wf(),
            cur < self@.len(),
            self@[cur as int].start <= offset,
        ensures
            r == self.line_of(offset as int),
            cur <= r,
    {
        let mut c = cur;
        while c + 1 < self.lines.len() && self.lines[c + 1].start <= offset
            invariant
                self.wf(),
                cur <= c < self@.len(),
                self@[c as int].start <= offset,
            decreases self@.len() - c,
        {
            c = c + 1;
        }
        proof {
            lemma_split_line_of(self.source(), self@, offset as int);
            assert(holds_offset(spans(self@), c as int, offset as int));
        }
        c
    }

    /// Resolve one range, the cursor standing on a line at or before its start's line.
    fn resolve(&self, cur: usize, start: usize, end: usize) -> (r: (usize, (usize, usize, usize, usize, usize)))
        requires
            self.wf(),
            cur <= self.line_of(start as int),
            self.start_of(start as int) <= end,
            self.column_fits(start as int),
            self.column_fits(end as int),
        ensures
            r.0 == self.line_of(start as int),
            r.1 == self.spec_line_info((start, end)),
    {
        proof {
            lemma_split_line_of(self.source(), self@, start as int);
            lemma_split_line_of(self.source(), self@, end as int);
            lemma_split_starts(self.source(), self@);
            if cur < self.line_of(start as int) {
                assert(self@[cur as int].start < self@[self.line_of(start as int)].start);
            }
        }
        let c = self.advance_to(cur, start);
        let line_start_offset = self.lines[c].start;
        let e = self.advance_to(c, end);
        let end_line_start_offset = self.lines[e].start;
        (c, (c + 1, e + 1, start - line_start_offset + 1, end - end_line_start_offset + 1, self.lines[c].indent))
    }

    /// Batch resolve offsets to (line, column) pairs.
    pub fn batch_line_column(&self, offsets: &[(usize, usize)]) -> (r: Vec<(usize, usize, usize, usize)>)
        requires
            self.wf(),
            self.batch_ok(offsets@),
        ensures
            r@.len() == offsets@.len(),
            forall|k: int| 0 <= k < offsets@.len() ==> #[trigger] r@[k] == self.spec_line_column_pair(offsets@[k]),
    {
        let mut results: Vec<(usize, usize, usize, usize)> = Vec::with_capacity(offsets.len());
        let mut cur: usize = 0;
        let mut k: usize = 0;
        while k < offsets.len()
            invariant
                self.wf(),
                self.batch_ok(offsets@),
                0 <= k <= offsets@.len(),
                results@.len() == k,
                k > 0 ==> cur == self.line_of(offsets@[k - 1].0 as int),
                k == 0 ==> cur == 0,
                forall|j: int| 0 <= j < k ==> #[trigger] results@[j] == self.spec_line_column_pair(offsets@[j]),
            decreases offsets@.len() - k,
        {
            let (start, end) = offsets[k];
            proof {
                if k > 0 {
                    assert(self.line_of(offsets@[k - 1].0 as int) <= self.line_of(offsets@[k as int].0 as int));
                }
                lemma_split_line_of(self.source(), self@, start as int);
            }
            let (c, info) = self.resolve(cur, start, end);
            cur = c;
            results.push((info.0, info.1, info.2, info.3));
            k = k + 1;
        }
        results
    }

    /// Batch resolve offsets to (line, column, indentation) tuples: the line and column of
    /// both ends, and the indentation of the start's line.
    pub fn batch_line_info(&self, offsets: &[(usize, usize)]) -> (r: Vec<(usize, usize, usize, usize, usize)>)
        requires
            self.wf(),
            self.batch_ok(offsets@),
        ensures
            r@.len() == offsets@.len(),
            forall|k: int| 0 <= k < offsets@.len() ==> #[trigger] r@[k] == self.spec_line_info(offsets@[k]),
    {
        let mut results: Vec<(usize, usize, usize, usize, usize)> = Vec::with_capacity(offsets.len());
        self.batch_line_info_into(offsets, &mut results);
        results
    }

    /// Batch resolve offsets into the provided output vector, which is cleared first.
    pub fn batch_line_info_into(&self, offsets: &[(usize, usize)], out: &mut Vec<(usize, usize, usize, usize, usize)>)
        requires
            self.wf(),
            self.batch_ok(offsets@),
        ensures
            final(out)@.len() == offsets@.len(),
            forall|k: int| 0 <= k < offsets@.len() ==> #[trigger] final(out)@[k] == self.spec_line_info(offsets@[k]),
    {
        out.clear();
        out.reserve(offsets.len());
        let mut cur: usize = 0;
        let mut k: usize = 0;
        while k < offsets.len()
            invariant
                self.wf(),
                self.batch_ok(offsets@),
                0 <= k <= offsets@.len(),
                out@.len() == k,
                k > 0 ==> cur == self.line_of(offsets@[k - 1].0 as int),
                k == 0 ==> cur == 0,
                forall|j: int| 0 <= j < k ==> #[trigger] out@[j] == self.spec_line_info(offsets@[j]),
            decreases offsets@.len() - k,
        {
            let (start, end) = offsets[k];
            proof {
                if k > 0 {
                    assert(self.line_of(offsets@[k - 1].0 as int) <= self.line_of(offsets@[k as int].0 as int));
                }
                lemma_split_line_of(self.source(), self@, start as int);
            }
            let (c, info) = self.resolve(cur, start, end);
            cur = c;
            out.push(info);
            k = k + 1;
        }
    }

    /// Get the byte offset of a line start (0-indexed line).
    pub fn line_start(&self, line_index: usize) -> (r: Option<usize>)
        ensures
            r == (if line_index < self@.len() {
                Some(self@[line_index as int].start)
            } else {
                None
            }),
    {
        if line_index < self.lines.len() {
            Some(self.lines[line_index].start)
        } else {
            None
        }
    }

    /// Get the byte offset where the line starts for a given byte offset.
    pub fn line_start_offset(&self, offset: usize) -> (r: usize)
        requires
            self.wf(),
        ensures
            r == self.start_of(offset as int),
    {
        let line_index = self.line_index(offset);
        self.lines[line_index].start
    }

    /// Get the byte offset where the line ends (before newline) for a given byte offset.
    pub fn line_end_offset(&self, offset: usize) -> (r: usize)
        requires
            self.wf(),
        ensures
            r == self@[self.line_of(offset as int)].end,
    {
        let line_index = self.line_index(offset);
        if line_index + 1 < self.lines.len() {
            proof {
                assert(newline_after(self.source(), self@, line_index as int));
            }
            let next = self.lines[line_index + 1].start;
            if next > 0 { next - 1 } else { 0 }
        } else {
            self.lines[line_index].end
        }
    }

    /// Get the number of lines.
    pub fn line_count(&self) -> (r: usize)
        ensures
            r == self@.len(),
    {
        self.lines.len()
    }

    /// The number of leading spaces and tabs on the line holding the offset
    /// (a tab counts as one).
    pub fn indentation(&self, offset: usize) -> (r: usize)
        requires
            self.wf(),
        ensures
            r == self@[self.line_of(offset as int)].indent,
    {
        let line_index = self.line_index(offset);
        self.lines[line_index].indent
    }

    /// The 0-based position of the offset within its line, counting each byte as 1.
    pub fn column(&self, offset: usize) -> (r: usize)
        requires
            self.wf(),
        ensures
            r == offset - self.start_of(offset as int),
    {
        let line_index = self.line_index(offset);
        proof {
            lemma_split_line_of(self.source(), self@, offset as int);
        }
        let line_start = self.lines[line_index].start;
        offset - line_start
    }
}

} // verus!
