//! Parsing contexts, for keeping track of source code spans.

use crate::text::{decimal, push_decimal};
use vstd::prelude::*;
use vstd::string::*;
use vstd::utf8::*;

verus! {

/// The arena type that tree nodes are allocated in. Nothing is known of what
/// it holds.
#[verifier::external_type_specification]
#[verifier::external_body]
pub struct ExBump<const MIN_ALIGN: usize>(bumpalo::Bump<MIN_ALIGN>);

/// `bumpalo::Bump::new` builds an empty arena; the contract claims nothing
/// about it.
pub assume_specification[ bumpalo::Bump::<1>::new ]() -> (arena: bumpalo::Bump<1>);

/// A scanning position: a byte offset with the zero-indexed line and column
/// of the character that starts there.
pub struct Position {
    pub offset: int,
    pub line: int,
    pub col: int,
}

/// The position before any byte has been consumed.
pub open spec fn origin() -> Position {
    Position { offset: 0, line: 0, col: 0 }
}

/// The position after consuming one more byte `b`: a line feed starts a new
/// line, every other byte that begins a character moves one column to the
/// right, and the trailing bytes of a multi-byte character move nothing.
pub open spec fn step(p: Position, b: u8) -> Position {
    if b == 0x0a {
        Position { offset: p.offset + 1, line: p.line + 1, col: 0 }
    } else if is_continuation_byte(b) {
        Position { offset: p.offset + 1, line: p.line, col: p.col }
    } else {
        Position { offset: p.offset + 1, line: p.line, col: p.col + 1 }
    }
}

/// The position reached after consuming the first `offset` bytes of `s`.
pub open spec fn position_at(s: Seq<u8>, offset: int) -> Position
    decreases offset,
{
    if offset <= 0 {
        origin()
    } else {
        step(position_at(s, offset - 1), s[offset - 1])
    }
}

/// A position's line and column never add up to more than its offset.
pub proof fn lemma_position_bounds(s: Seq<u8>, offset: int)
    requires
        0 <= offset,
    ensures
        position_at(s, offset).offset == offset,
        0 <= position_at(s, offset).line,
        0 <= position_at(s, offset).col,
        position_at(s, offset).line + position_at(s, offset).col <= offset,
    decreases offset,
{
    if offset > 0 {
        lemma_position_bounds(s, offset - 1);
    }
}

/// True when `p` is a place in `s` where a character starts (or the end of
/// `s`) together with the line and column that belong to it.
pub open spec fn is_position(s: Seq<u8>, p: Position) -> bool {
    &&& 0 <= p.offset <= s.len()
    &&& is_char_boundary(s, p.offset)
    &&& p == position_at(s, p.offset)
}

/// What the span table records for one span: the byte range, and the line
/// and column at which the range starts.
pub struct SpanRecord {
    pub start: int,
    pub end: int,
    pub line: int,
    pub col: int,
}

/// The record of the span that runs from `start` to the offset `end`.
pub open spec fn record_between(start: Position, end: int) -> SpanRecord {
    SpanRecord { start: start.offset, end: end, line: start.line, col: start.col }
}

/// True when `r` delimits whole characters of `s` and carries the line and
/// column of its first byte.
pub open spec fn is_record(s: Seq<u8>, r: SpanRecord) -> bool {
    &&& 0 <= r.start <= r.end <= s.len()
    &&& is_char_boundary(s, r.start)
    &&& is_char_boundary(s, r.end)
    &&& r.line == position_at(s, r.start).line
    &&& r.col == position_at(s, r.start).col
}

/// In valid UTF-8 an offset is a character boundary exactly when it is the
/// end of the text or the byte there is not a continuation byte.
pub proof fn lemma_boundary(s: Seq<u8>, i: int)
    requires
        valid_utf8(s),
        0 <= i <= s.len(),
    ensures
        is_char_boundary(s, i) <==> (i == s.len() || !is_continuation_byte(s[i])),
{
    if i == s.len() {
        is_char_boundary_start_end_of_seq(s);
    } else {
        is_char_boundary_iff_not_is_continuation_byte(s, i);
    }
}

/// In valid UTF-8 the offset just behind an ASCII byte is a character
/// boundary.
pub proof fn lemma_boundary_after_ascii(s: Seq<u8>, i: int)
    requires
        valid_utf8(s),
        0 <= i < s.len(),
        s[i] <= 0x7f,
    ensures
        is_char_boundary(s, i + 1),
{
    lemma_boundary(s, i);
    valid_utf8_split(s, i);
    let t = s.subrange(i, s.len() as int);
    assert(t[0] == s[i]);
    assert(valid_utf8(t));
    assert(length_of_first_scalar(t) == 1);
    let u = pop_first_scalar(t);
    assert(valid_utf8(u));
    assert(u =~= s.subrange(i + 1, s.len() as int));
    if i + 1 < s.len() {
        assert(u[0] == s[i + 1]);
        assert(valid_first_scalar(u));
    }
    lemma_boundary(s, i + 1);
}

/// A boundary of the whole text that lies inside a prefix cut at another
/// boundary is a boundary of that prefix.
pub proof fn lemma_boundary_in_prefix(s: Seq<u8>, start: int, end: int)
    requires
        valid_utf8(s),
        0 <= start <= end <= s.len(),
        is_char_boundary(s, start),
        is_char_boundary(s, end),
    ensures
        valid_utf8(s.subrange(0, end)),
        is_char_boundary(s.subrange(0, end), start),
{
    valid_utf8_split(s, end);
    let head = s.subrange(0, end);
    lemma_boundary(s, start);
    lemma_boundary(head, start);
    if start < end {
        assert(head[start] == s[start]);
    }
}

/// How a place is shown to a reader: `[line:col]`, both counted from one.
pub open spec fn coords_text(line: int, col: int) -> Seq<char> {
    "["@ + decimal((line + 1) as nat) + ":"@ + decimal((col + 1) as nat) + "]"@
}

/// Appends `[line:col]`, both counted from one, to `out`.
pub fn push_coords(out: &mut String, line: u32, col: u32)
    ensures
        final(out)@ == old(out)@ + coords_text(line as int, col as int),
{
    out.append("[");
    push_decimal(out, line as u64 + 1);
    out.append(":");
    push_decimal(out, col as u64 + 1);
    out.append("]");
    proof {
        assert(out@ =~= old(out)@ + coords_text(line as int, col as int));
    }
}

/// The position after consuming the bytes `t` from the position `p`.
pub open spec fn walk_bytes(p: Position, t: Seq<u8>) -> Position
    decreases t.len(),
{
    if t.len() == 0 {
        p
    } else {
        step(walk_bytes(p, t.drop_last()), t.last())
    }
}

/// The line and column after one more character `c` from line and column
/// `at`: a line feed starts a new line, any other character moves one
/// column to the right.
pub open spec fn step_char(at: (int, int), c: char) -> (int, int) {
    if c == '\n' {
        (at.0 + 1, 0)
    } else {
        (at.0, at.1 + 1)
    }
}

/// The line and column after the characters `chars` from line and column
/// `at`.
pub open spec fn walk_chars(at: (int, int), chars: Seq<char>) -> (int, int)
    decreases chars.len(),
{
    if chars.len() == 0 {
        at
    } else {
        walk_chars(step_char(at, chars[0]), chars.drop_first())
    }
}

proof fn lemma_walk_bytes_concat(p: Position, t: Seq<u8>, u: Seq<u8>)
    ensures
        walk_bytes(p, t + u) == walk_bytes(walk_bytes(p, t), u),
    decreases u.len(),
{
    if u.len() == 0 {
        assert(t + u =~= t);
    } else {
        lemma_walk_bytes_concat(p, t, u.drop_last());
        assert((t + u).drop_last() =~= t + u.drop_last());
    }
}

proof fn lemma_walk_bytes_between(s: Seq<u8>, a: int, b: int)
    requires
        0 <= a <= b <= s.len(),
    ensures
        position_at(s, b) == walk_bytes(position_at(s, a), s.subrange(a, b)),
    decreases b - a,
{
    if a < b {
        lemma_walk_bytes_between(s, a, b - 1);
        assert(s.subrange(a, b).drop_last() =~= s.subrange(a, b - 1));
    }
}

proof fn lemma_line_feed_byte(t: Seq<u8>)
    requires
        valid_utf8(t),
        t.len() > 0,
    ensures
        !is_continuation_byte(t[0]),
        (decode_first_scalar(t) as char == '\n') <==> t[0] == 0x0a,
{
    let c = decode_first_scalar(t) as char;
    decode_utf8_first_scalar(t);
    assert(10u32 & 0x7f == 10u32) by (bit_vector);
    assert(10u8 & 0x7f == 10u8) by (bit_vector);
    if c == '\n' {
        assert(encode_scalar(c as u32).len() == 1);
        assert(take_first_scalar(t)[0] == t[0]);
    }
}

proof fn lemma_walk_first_scalar(p: Position, t: Seq<u8>)
    requires
        valid_utf8(t),
        t.len() > 0,
    ensures
        ({
            let q = walk_bytes(p, take_first_scalar(t));
            (q.line, q.col) == step_char((p.line, p.col), decode_first_scalar(t) as char)
        }),
{
    lemma_line_feed_byte(t);
    let head = take_first_scalar(t);
    let k = length_of_first_scalar(t);
    assert(head.len() == k);
    reveal_with_fuel(walk_bytes, 5);
    assert(head.drop_last().len() == k - 1);
    if k >= 2 {
        assert(head.last() == t[k - 1]);
        assert(head.drop_last().drop_last().len() == k - 2);
        if k >= 3 {
            assert(head.drop_last().last() == t[k - 2]);
            if k >= 4 {
                assert(head.drop_last().drop_last().last() == t[k - 3]);
                assert(head.drop_last().drop_last().drop_last().last() == t[0]);
            } else {
                assert(head.drop_last().drop_last().last() == t[0]);
            }
        } else {
            assert(head.drop_last().last() == t[0]);
        }
    } else {
        assert(head.last() == t[0]);
    }
}

proof fn lemma_walk_bytes_is_walk_chars(p: Position, t: Seq<u8>)
    requires
        valid_utf8(t),
    ensures
        ({
            let q = walk_bytes(p, t);
            (q.line, q.col) == walk_chars((p.line, p.col), decode_utf8(t))
        }),
    decreases t.len(),
{
    if t.len() > 0 {
        let head = take_first_scalar(t);
        let rest = pop_first_scalar(t);
        let c = decode_first_scalar(t) as char;
        lemma_walk_first_scalar(p, t);
        assert(t =~= head + rest);
        lemma_walk_bytes_concat(p, head, rest);
        lemma_walk_bytes_is_walk_chars(walk_bytes(p, head), rest);
        assert(decode_utf8(t).drop_first() =~= decode_utf8(rest));
        assert(decode_utf8(t)[0] == c);
    }
}

/// Lines and columns count characters: between two character boundaries of
/// a text the position moves as its characters say, one after the other,
/// however many bytes each of them takes.
pub proof fn lemma_position_counts_characters(s: Seq<u8>, a: int, b: int)
    requires
        valid_utf8(s),
        0 <= a <= b <= s.len(),
        is_char_boundary(s, a),
        is_char_boundary(s, b),
    ensures
        (position_at(s, b).line, position_at(s, b).col) == walk_chars(
            (position_at(s, a).line, position_at(s, a).col),
            decode_utf8(s.subrange(a, b)),
        ),
{
    lemma_walk_bytes_between(s, a, b);
    lemma_boundary_in_prefix(s, a, b);
    let head = s.subrange(0, b);
    valid_utf8_split(head, a);
    assert(head.subrange(a, head.len() as int) =~= s.subrange(a, b));
    lemma_walk_bytes_is_walk_chars(position_at(s, a), s.subrange(a, b));
}

/// A span of a context lies inside the source, and its text is exactly the
/// source between its two ends: the bytes there are the text of whole
/// characters, and those characters spell the same bytes again.
pub proof fn lemma_span_round_trip(ctx: &Context, span: Span)
    requires
        ctx.wf(),
        ctx.owns(span),
    ensures
        0 <= ctx.record(span).start <= ctx.record(span).end <= ctx.bytes().len(),
        valid_utf8(ctx.span_bytes(span)),
        encode_utf8(decode_utf8(ctx.span_bytes(span))) == ctx.span_bytes(span),
{
    let s = ctx.bytes();
    let r = ctx.record(span);
    assert(is_record(s, ctx.records()[span.index()]));
    encode_utf8_valid_utf8(ctx.source_view());
    lemma_boundary_in_prefix(s, r.start, r.end);
    let head = s.subrange(0, r.end);
    valid_utf8_split(head, r.start);
    assert(head.subrange(r.start, head.len() as int) =~= ctx.span_bytes(span));
    decode_utf8_encode_utf8(ctx.span_bytes(span));
}

/// True when a source text is short enough for a context: lines and columns
/// are 32-bit numbers, counted from one for a reader.
pub open spec fn scannable(source: Seq<char>) -> bool {
    encode_utf8(source).len() < u32::MAX
}

/// Tests whether a source text is short enough for a context.
pub fn is_scannable(source: &str) -> (ok: bool)
    ensures
        ok == scannable(source@),
{
    source.as_bytes().len() < u32::MAX as usize
}

/// A source code span.
///
/// Internally this is just an ID; in order to obtain information about the
/// span, it must be queried from a corresponding [`Context`].
#[derive(Copy, Clone, Debug, PartialEq, Eq)]
pub struct Span(u32);

/// A position in the source code marking the start of a `Span`.
#[derive(Copy, Clone, Default, Debug)]
pub struct Mark {
    offset: usize,
    line: u32,
    col: u32,
}

/// Internal representation of information associated with a span.
#[derive(Debug)]
pub struct RawSpan {
    range: (usize, usize),
    line: u32,
    col: u32,
}

/// State for generating spans: the table that `Span`s index into, and the
/// cursor for tracking marks and creating spans.
#[derive(Debug)]
pub struct SpanState {
    raw_spans: Vec<RawSpan>,
    cursor: Mark,
}

/// A parsing context.
///
/// Keeps track of memory allocation, source code spans, and miscellaneous
/// book-keeping for an AST.
#[derive(Debug)]
pub struct Context {
    path: String,
    source: String,
    // All AST nodes are allocated on this arena, so that all nodes can simply
    // contain references and slices directly.
    pub(crate) arena: bumpalo::Bump<1>,
    spans: SpanState,
}

impl View for Mark {
    type V = Position;

    closed spec fn view(&self) -> Position {
        Position { offset: self.offset as int, line: self.line as int, col: self.col as int }
    }
}

impl View for RawSpan {
    type V = SpanRecord;

    closed spec fn view(&self) -> SpanRecord {
        SpanRecord {
            start: self.range.0 as int,
            end: self.range.1 as int,
            line: self.line as int,
            col: self.col as int,
        }
    }
}

impl Span {
    /// The place of this span's record in the table of its context.
    pub closed spec fn index(self) -> int {
        self.0 as int
    }
}

impl Span {
    /// Returns the byte range for this span.
    pub fn range(self, ctx: &Context) -> (range: (usize, usize))
        requires
            ctx.owns(self),
        ensures
            range.0 == ctx.record(self).start,
            range.1 == ctx.record(self).end,
            ctx.wf() ==> range.0 <= range.1 <= ctx.bytes().len(),
    {
        proof {
            if ctx.wf() {
                assert(is_record(ctx.bytes(), ctx.records()[self.index()]));
            }
        }
        ctx.spans.raw_spans[self.0 as usize].range
    }

    /// Returns the textual contents of this span as a string slice: exactly
    /// the bytes of the source that lie in the span's range.
    pub fn text(self, ctx: &Context) -> (text: &str)
        requires
            ctx.wf(),
            ctx.owns(self),
        ensures
            text.spec_bytes() == ctx.span_bytes(self),
            text@ == decode_utf8(ctx.span_bytes(self)),
    {
        let (start, end) = self.range(ctx);
        proof {
            assert(is_record(ctx.bytes(), ctx.records()[self.index()]));
            encode_utf8_valid_utf8(ctx.source_view());
            lemma_boundary_in_prefix(ctx.bytes(), start as int, end as int);
        }
        let (head, _) = ctx.source.as_str().split_at(end);
        let (_, text) = head.split_at(start);
        proof {
            assert(text.spec_bytes() =~= ctx.span_bytes(self));
            encode_utf8_decode_utf8(text@);
        }
        text
    }

    /// Returns the coordinates (line and column) that this span starts at.
    ///
    /// Line and column are zero-indexed; you may want to one-index them for
    /// pretty-printing.
    pub fn coords(self, ctx: &Context) -> (coords: (u32, u32))
        requires
            ctx.owns(self),
        ensures
            coords.0 == ctx.record(self).line,
            coords.1 == ctx.record(self).col,
    {
        let raw = &ctx.spans.raw_spans[self.0 as usize];
        (raw.line, raw.col)
    }

    /// The place where this span starts, for a reader: the path of the
    /// source followed by `[line:col]`, both counted from one.
    pub fn display(self, ctx: &Context) -> (text: String)
        requires
            ctx.owns(self),
        ensures
            text@ == ctx.path_view() + coords_text(ctx.record(self).line, ctx.record(self).col),
    {
        let (line, col) = self.coords(ctx);
        let mut text = String::new();
        text.append(ctx.path());
        push_coords(&mut text, line, col);
        text
    }

    /// The place where this span starts, for a reader, without the path:
    /// `[line:col]`, both counted from one.
    pub fn display_range(self, ctx: &Context) -> (text: String)
        requires
            ctx.owns(self),
        ensures
            text@ == coords_text(ctx.record(self).line, ctx.record(self).col),
    {
        let (line, col) = self.coords(ctx);
        let mut text = String::new();
        push_coords(&mut text, line, col);
        text
    }

    /// See [`Span::coords()`].
    pub fn line_number(self, ctx: &Context) -> (line: u32)
        requires
            ctx.owns(self),
        ensures
            line == ctx.record(self).line,
    {
        self.coords(ctx).0
    }

    /// See [`Span::coords()`].
    pub fn col_number(self, ctx: &Context) -> (col: u32)
        requires
            ctx.owns(self),
        ensures
            col == ctx.record(self).col,
    {
        self.coords(ctx).1
    }
}

impl Context {
    /// The display path that the context was made with.
    pub closed spec fn path_view(&self) -> Seq<char> {
        self.path@
    }

    /// The source text, character by character.
    pub closed spec fn source_view(&self) -> Seq<char> {
        self.source@
    }

    /// The source text as the bytes that offsets count.
    pub open spec fn bytes(&self) -> Seq<u8> {
        encode_utf8(self.source_view())
    }

    /// Where the cursor stands.
    pub closed spec fn cursor(&self) -> Position {
        self.spans.cursor@
    }

    /// The span table: one record per span handed out so far, in order.
    pub closed spec fn records(&self) -> Seq<SpanRecord> {
        self.spans.raw_spans@.map_values(|r: RawSpan| r@)
    }

    /// True when `span` was handed out by this context.
    pub open spec fn owns(&self, span: Span) -> bool {
        0 <= span.index() < self.records().len()
    }

    /// The record that `span` stands for.
    pub open spec fn record(&self, span: Span) -> SpanRecord {
        self.records()[span.index()]
    }

    /// The bytes of the source text that `span` delimits.
    pub open spec fn span_bytes(&self, span: Span) -> Seq<u8> {
        self.bytes().subrange(self.record(span).start, self.record(span).end)
    }

    /// The invariant of a context: the text is short enough for one-indexed
    /// lines and columns to fit their type, the cursor is a position of the
    /// text, and so is the start of every recorded span.
    pub open spec fn wf(&self) -> bool {
        &&& self.bytes().len() < u32::MAX
        &&& is_position(self.bytes(), self.cursor())
        &&& forall|i: int|
            0 <= i < self.records().len() ==> is_record(self.bytes(), #[trigger] self.records()[i])
    }

    /// Creates a new parsing context over the given path and source.
    pub fn new(path: String, source: String) -> (ctx: Context)
        requires
            scannable(source@),
        ensures
            ctx.wf(),
            ctx.path_view() == path@,
            ctx.source_view() == source@,
            ctx.cursor() == origin(),
            ctx.records() == Seq::<SpanRecord>::empty(),
    {
        let ctx = Context {
            path,
            source,
            arena: bumpalo::Bump::new(),
            spans: SpanState { raw_spans: Vec::new(), cursor: Mark { offset: 0, line: 0, col: 0 } },
        };
        proof {
            encode_utf8_valid_utf8(ctx.source_view());
            is_char_boundary_start_end_of_seq(ctx.bytes());
            assert(ctx.records() =~= Seq::<SpanRecord>::empty());
        }
        ctx
    }

    /// Returns the path to the source file.
    pub fn path(&self) -> (path: &str)
        ensures
            path@ == self.path_view(),
    {
        self.path.as_str()
    }

    /// Returns the contents of the source file.
    pub fn source(&self) -> (source: &str)
        ensures
            source@ == self.source_view(),
            source.spec_bytes() == self.bytes(),
    {
        self.source.as_str()
    }

    /// The byte offset of the cursor.
    pub fn offset(&self) -> (offset: usize)
        ensures
            offset == self.cursor().offset,
    {
        self.spans.cursor.offset
    }

    /// The zero-indexed column of the cursor.
    pub fn column(&self) -> (col: u32)
        ensures
            col == self.cursor().col,
    {
        self.spans.cursor.col
    }

    /// The zero-indexed line of the cursor.
    pub fn line(&self) -> (line: u32)
        ensures
            line == self.cursor().line,
    {
        self.spans.cursor.line
    }

    /// The column of the cursor, counted from one.
    pub fn human_column(&self) -> (col: u32)
        requires
            self.wf(),
        ensures
            col == self.cursor().col + 1,
    {
        proof {
            lemma_position_bounds(self.bytes(), self.cursor().offset);
        }
        self.column() + 1
    }

    /// The line of the cursor, counted from one.
    pub fn human_line(&self) -> (line: u32)
        requires
            self.wf(),
        ensures
            line == self.cursor().line + 1,
    {
        proof {
            lemma_position_bounds(self.bytes(), self.cursor().offset);
        }
        self.line() + 1
    }

    /// The part of the source that the cursor has not passed yet.
    pub fn unread(&self) -> (rest: &str)
        requires
            self.wf(),
        ensures
            rest.spec_bytes() == self.bytes().subrange(
                self.cursor().offset,
                self.bytes().len() as int,
            ),
            rest@ == decode_utf8(rest.spec_bytes()),
    {
        let (_, rest) = self.source.as_str().split_at(self.spans.cursor.offset);
        proof {
            encode_utf8_decode_utf8(rest@);
        }
        rest
    }

    /// Creates a new mark pointing to the current position in the source.
    pub fn mark(&self) -> (mark: Mark)
        ensures
            mark@ == self.cursor(),
    {
        self.spans.cursor
    }

    /// Creates a new span using the given mark as the starting point and
    /// the cursor as the end. The span is appended to the table and nothing
    /// else changes.
    pub fn span(&mut self, start: Mark) -> (span: Span)
        requires
            old(self).wf(),
            is_position(old(self).bytes(), start@),
            start@.offset <= old(self).cursor().offset,
            old(self).records().len() <= u32::MAX,
        ensures
            final(self).wf(),
            final(self).path_view() == old(self).path_view(),
            final(self).source_view() == old(self).source_view(),
            final(self).cursor() == old(self).cursor(),
            final(self).records() == old(self).records().push(
                record_between(start@, old(self).cursor().offset),
            ),
            span.index() == old(self).records().len(),
    {
        let end = self.spans.cursor.offset;
        let index: u32 = self.spans.raw_spans.len() as u32;
        self.spans.raw_spans.push(RawSpan { range: (start.offset, end), line: start.line, col: start.col });
        proof {
            assert(self.records() =~= old(self).records().push(
                record_between(start@, old(self).cursor().offset),
            ));
        }
        Span(index)
    }

    /// Advances the cursor over the next `len` bytes of the source, which
    /// must end where a character ends.
    pub fn advance_cursor(&mut self, len: usize)
        requires
            old(self).wf(),
            old(self).cursor().offset + len <= old(self).bytes().len(),
            is_char_boundary(old(self).bytes(), old(self).cursor().offset + len),
        ensures
            final(self).wf(),
            final(self).path_view() == old(self).path_view(),
            final(self).source_view() == old(self).source_view(),
            final(self).records() == old(self).records(),
            final(self).cursor() == position_at(
                old(self).bytes(),
                old(self).cursor().offset + len,
            ),
            final(self).cursor().offset == old(self).cursor().offset + len,
    {
        let bytes = self.source.as_str().as_bytes();
        let start = self.spans.cursor.offset;
        let end = start + len;
        let mut line = self.spans.cursor.line;
        let mut col = self.spans.cursor.col;
        let mut i = start;
        while i < end
            invariant
                start <= i <= end <= bytes@.len() < u32::MAX,
                *self == *old(self),
                bytes@ == self.bytes(),
                end == old(self).cursor().offset + len,
                is_char_boundary(bytes@, end as int),
                line == position_at(bytes@, i as int).line,
                col == position_at(bytes@, i as int).col,
            decreases end - i,
        {
            proof {
                lemma_position_bounds(bytes@, i + 1);
            }
            let b = bytes[i];
            if b == 0x0a {
                line += 1;
                col = 0;
            } else if !(0x80 <= b && b <= 0xbf) {
                col += 1;
            }
            i += 1;
        }
        proof {
            lemma_position_bounds(bytes@, end as int);
        }
        self.spans.cursor = Mark { offset: end, line, col };
        proof {
            assert(self.records() == old(self).records());
        }
    }

    /// Creates a new mark, advances the cursor, and returns a span
    /// representing the new marking plus cursor advancement.
    pub fn next_span(&mut self, len: usize) -> (span: Span)
        requires
            old(self).wf(),
            old(self).cursor().offset + len <= old(self).bytes().len(),
            is_char_boundary(old(self).bytes(), old(self).cursor().offset + len),
            old(self).records().len() <= u32::MAX,
        ensures
            final(self).wf(),
            final(self).path_view() == old(self).path_view(),
            final(self).source_view() == old(self).source_view(),
            final(self).cursor() == position_at(
                old(self).bytes(),
                old(self).cursor().offset + len,
            ),
            final(self).records() == old(self).records().push(
                record_between(old(self).cursor(), old(self).cursor().offset + len),
            ),
            span.index() == old(self).records().len(),
    {
        let start = self.mark();
        self.advance_cursor(len);
        proof {
            lemma_position_bounds(self.bytes(), start@.offset + len);
        }
        self.span(start)
    }
}

/// The errors of loading a source text. Their codes start with B0.
#[derive(Debug, Clone, Copy, PartialEq, Eq)]
pub enum Error {
    MissingFile,
    UnreadableFile,
}

impl Error {
    /// The number of the error within the loading errors.
    pub open spec fn code_view(self) -> int {
        match self {
            Error::MissingFile => 0,
            Error::UnreadableFile => 1,
        }
    }

    /// The text of the error: its code and what it means.
    pub open spec fn describe_view(self) -> Seq<char> {
        match self {
            Error::MissingFile => "B0-0000 - Missing file"@,
            Error::UnreadableFile => "B0-0001 - Unable to read file"@,
        }
    }

    /// The number of the error within the loading errors.
    pub fn code(&self) -> (code: u32)
        ensures
            code == self.code_view(),
    {
        match self {
            Error::MissingFile => 0x0000,
            Error::UnreadableFile => 0x0001,
        }
    }

    /// The text of the error: its code and what it means.
    pub fn describe(&self) -> (text: &'static str)
        ensures
            text@ == self.describe_view(),
    {
        match self {
            Error::MissingFile => "B0-0000 - Missing file",
            Error::UnreadableFile => "B0-0001 - Unable to read file",
        }
    }
}

} // verus!
