//! Conversions between zero-based character offsets into a source string and
//! (line, character) coordinates, together with range arithmetic.
//!
//! A source splits into lines at `'\n'`; each terminator is counted as the
//! last character of the line it ends, so a line of length `n` occupies
//! `n + 1` offsets when it is terminated.

use vstd::prelude::*;

verus! {

/// Line index of the position reached after walking `o` characters of `s`:
/// the number of newlines among the first `o` characters.
pub open spec fn line_of(s: Seq<char>, o: int) -> int
    decreases o,
{
    if o <= 0 {
        0
    } else {
        line_of(s, o - 1) + if s[o - 1] == '\n' {
            1int
        } else {
            0int
        }
    }
}

/// Column of the position reached after walking `o` characters of `s`:
/// the number of characters since the last newline.
pub open spec fn char_of(s: Seq<char>, o: int) -> int
    decreases o,
{
    if o <= 0 {
        0
    } else if s[o - 1] == '\n' {
        0
    } else {
        char_of(s, o - 1) + 1
    }
}

/// Offset just past the first newline at or after `from`, or the length of
/// `s` when no newline follows.
pub open spec fn next_line_start(s: Seq<char>, from: int) -> int
    decreases s.len() - from,
{
    if from < 0 || from >= s.len() {
        s.len() as int
    } else if s[from] == '\n' {
        from + 1
    } else {
        next_line_start(s, from + 1)
    }
}

/// Offset at which line `l` of `s` begins; the length of `s` when `s` has
/// fewer lines.
pub open spec fn line_start(s: Seq<char>, l: int) -> int
    decreases l,
{
    if l <= 0 {
        0
    } else {
        next_line_start(s, line_start(s, l - 1))
    }
}

/// An offset past the end of the source is clamped to its length.
pub open spec fn clamped(s: Seq<char>, o: int) -> int {
    if o <= s.len() {
        o
    } else {
        s.len() as int
    }
}

/// The position an offset into `s` denotes.
pub open spec fn spec_position_from_offset(s: Seq<char>, o: int) -> CustomPosition {
    CustomPosition {
        line: line_of(s, clamped(s, o)) as u32,
        character: char_of(s, clamped(s, o)) as u32,
    }
}

/// The offset a position into `s` denotes.
pub open spec fn spec_offset_of(s: Seq<char>, p: CustomPosition) -> int {
    line_start(s, p.line as int) + p.character
}

/// Strict lexicographic order on positions: by line, then by character.
pub open spec fn pos_lt(a: CustomPosition, b: CustomPosition) -> bool {
    a.line < b.line || (a.line == b.line && a.character < b.character)
}

/// What `CustomRange::contains` decides: a strict open interval, so neither
/// boundary position is contained.
pub open spec fn range_contains(r: CustomRange, p: CustomPosition) -> bool {
    pos_lt(r.start, p) && pos_lt(p, r.end)
}

pub proof fn lemma_line_char_bounds(s: Seq<char>, o: int)
    requires
        0 <= o,
    ensures
        0 <= line_of(s, o) <= o,
        0 <= char_of(s, o) <= o,
    decreases o,
{
    if o > 0 {
        lemma_line_char_bounds(s, o - 1);
    }
}

pub proof fn lemma_next_line_start_bounds(s: Seq<char>, from: int)
    ensures
        next_line_start(s, from) <= s.len(),
        from <= next_line_start(s, from) || from > s.len(),
    decreases s.len() - from,
{
    if 0 <= from < s.len() && s[from] != '\n' {
        lemma_next_line_start_bounds(s, from + 1);
    }
}

pub proof fn lemma_line_start_bounds(s: Seq<char>, l: int)
    ensures
        0 <= line_start(s, l) <= s.len(),
    decreases l,
{
    if l > 0 {
        lemma_line_start_bounds(s, l - 1);
        lemma_next_line_start_bounds(s, line_start(s, l - 1));
    }
}

/// When `s` holds no newline from `p` up to `q`, the next line starts just
/// past `q` if `q` is a newline, and never within `s` if `q` is its end.
proof fn lemma_next_line_start_skip(s: Seq<char>, p: int, q: int)
    requires
        0 <= p <= q <= s.len(),
        forall|j: int| p <= j < q ==> s[j] != '\n',
        q == s.len() || s[q] == '\n',
    ensures
        next_line_start(s, p) == if q == s.len() {
            s.len() as int
        } else {
            q + 1
        },
    decreases q - p,
{
    if p < q {
        lemma_next_line_start_skip(s, p + 1, q);
    }
}

/// Walking `o` characters and then seeking the start of the line reached
/// lands exactly `char_of(s, o)` characters before `o`; the characters
/// walked since that line start hold no newline.
pub proof fn lemma_offset_decomposition(s: Seq<char>, o: int)
    requires
        0 <= o <= s.len(),
    ensures
        line_start(s, line_of(s, o)) + char_of(s, o) == o,
        forall|j: int| o - char_of(s, o) <= j < o ==> s[j] != '\n',
    decreases o,
{
    lemma_line_char_bounds(s, o);
    if o > 0 {
        lemma_offset_decomposition(s, o - 1);
        lemma_line_char_bounds(s, o - 1);
        if s[o - 1] == '\n' {
            let l = line_of(s, o - 1);
            lemma_line_start_bounds(s, l);
            lemma_next_line_start_skip(s, line_start(s, l), o - 1);
            assert(line_start(s, l + 1) == next_line_start(s, line_start(s, l)));
        }
    }
}

/// Past the last line of `s`, every line start is clamped to its end.
pub proof fn lemma_line_start_past_end(s: Seq<char>, l: int)
    requires
        line_of(s, s.len() as int) < l,
    ensures
        line_start(s, l) == s.len(),
    decreases l,
{
    let last = line_of(s, s.len() as int);
    lemma_line_char_bounds(s, s.len() as int);
    if l - 1 == last {
        lemma_offset_decomposition(s, s.len() as int);
        lemma_next_line_start_skip(s, line_start(s, last), s.len() as int);
    } else {
        lemma_line_start_past_end(s, l - 1);
        lemma_next_line_start_skip(s, s.len() as int, s.len() as int);
    }
}

/// Offset-to-position followed by position-to-offset is the identity on
/// in-range offsets.
pub proof fn lemma_offset_position_inverse(s: Seq<char>, o: int)
    requires
        0 <= o <= s.len(),
        s.len() <= u32::MAX,
    ensures
        spec_offset_of(s, spec_position_from_offset(s, o)) == o,
{
    lemma_line_char_bounds(s, o);
    lemma_offset_decomposition(s, o);
}

/// Round-trip stability: converting an in-range offset to a position, that
/// position back to an offset, and the offset to a position again gives the
/// position the single conversion gives.
pub proof fn lemma_position_roundtrip(s: Seq<char>, o: int)
    requires
        0 <= o <= s.len(),
        s.len() <= u32::MAX,
    ensures
        spec_position_from_offset(s, spec_offset_of(s, spec_position_from_offset(s, o)))
            == spec_position_from_offset(s, o),
{
    lemma_offset_position_inverse(s, o);
}

/// A range never contains its own boundary positions, and contains every
/// position strictly between them.
pub proof fn lemma_contains_is_strict(r: CustomRange, p: CustomPosition)
    ensures
        p == r.start ==> !range_contains(r, p),
        p == r.end ==> !range_contains(r, p),
        pos_lt(r.start, p) && pos_lt(p, r.end) ==> range_contains(r, p),
{
}

/// A zero-based (line, character) coordinate within a source string.
#[derive(PartialEq, Eq, Structural, Clone, Copy, Debug, Hash)]
pub struct CustomPosition {
    pub line: u32,
    pub character: u32,
}

impl CustomPosition {
    pub fn new(line: u32, character: u32) -> (r: Self)
        ensures
            r == (CustomPosition { line, character }),
    {
        Self { line, character }
    }

    /// A position taken from an externally supplied one-indexed line/column
    /// marker, kept one-indexed; see `CustomRange::from_span` for the
    /// normalization to zero-based coordinates.
    pub fn from_marker(line: usize, column: usize) -> (r: Self)
        requires
            line <= u32::MAX,
            column <= u32::MAX,
        ensures
            r == (CustomPosition { line: line as u32, character: column as u32 }),
    {
        Self { line: line as u32, character: column as u32 }
    }

    /// Creates a new position from a zero-based offset given a source string.
    /// An offset past the end of the source clamps to its final position.
    pub fn from_offset(offset: u32, source: &str) -> (r: Self)
        ensures
            r == spec_position_from_offset(source@, offset as int),
    {
        if offset == 0 {
            return Self::new(0, 0);
        }
        let n = source.unicode_len();
        let mut i: usize = 0;
        let mut line: u32 = 0;
        let mut character: u32 = 0;
        while i < n && i < offset as usize
            invariant
                0 <= i <= n,
                i <= offset,
                n == source@.len(),
                line == line_of(source@, i as int),
                character == char_of(source@, i as int),
            decreases n - i,
        {
            proof {
                lemma_line_char_bounds(source@, i as int);
            }
            let c = source.get_char(i);
            if c == '\n' {
                line = line + 1;
                character = 0;
            } else {
                character = character + 1;
            }
            i = i + 1;
        }
        Self { line, character }
    }

    /// Converts a position to a zero-based offset given a source string.
    /// This is the inverse of [`Self::from_offset`].
    pub fn to_offset(&self, source: &str) -> (r: u32)
        requires
            spec_offset_of(source@, *self) <= u32::MAX,
        ensures
            r == spec_offset_of(source@, *self),
    {
        let n = source.unicode_len();
        let mut i: usize = 0;
        let mut l: u32 = 0;
        while l < self.line && i < n
            invariant
                0 <= i <= n,
                n == source@.len(),
                l <= self.line,
                l == line_of(source@, i as int),
                l < self.line ==> i == line_start(source@, l as int) + char_of(source@, i as int),
                l == self.line ==> i == line_start(source@, l as int),
            decreases n - i,
        {
            proof {
                lemma_line_char_bounds(source@, i as int);
                lemma_offset_decomposition(source@, i as int);
                lemma_offset_decomposition(source@, i + 1);
            }
            let c = source.get_char(i);
            if c == '\n' {
                l = l + 1;
            }
            i = i + 1;
        }
        proof {
            if l < self.line {
                lemma_offset_decomposition(source@, i as int);
                lemma_line_start_past_end(source@, self.line as int);
            }
            lemma_line_start_bounds(source@, self.line as int);
        }
        (i as u32) + self.character
    }

    pub fn set_line(&mut self, line: u32) -> (r: Self)
        ensures
            *final(self) == (CustomPosition { line, character: old(self).character }),
            r == *final(self),
    {
        self.line = line;
        *self
    }

    pub fn add_line(&mut self, line: u32) -> (r: Self)
        requires
            old(self).line + line <= u32::MAX,
        ensures
            final(self).line == old(self).line + line,
            final(self).character == old(self).character,
            r == *final(self),
    {
        self.line = self.line + line;
        *self
    }

    pub fn subtract_line(&mut self, line: u32) -> (r: Self)
        requires
            line <= old(self).line,
        ensures
            final(self).line == old(self).line - line,
            final(self).character == old(self).character,
            r == *final(self),
    {
        self.line = self.line - line;
        *self
    }

    pub fn set_character(&mut self, character: u32) -> (r: Self)
        ensures
            *final(self) == (CustomPosition { line: old(self).line, character }),
            r == *final(self),
    {
        self.character = character;
        *self
    }

    pub fn add_character(&mut self, character: u32) -> (r: Self)
        requires
            old(self).character + character <= u32::MAX,
        ensures
            final(self).line == old(self).line,
            final(self).character == old(self).character + character,
            r == *final(self),
    {
        self.character = self.character + character;
        *self
    }

    pub fn subtract_character(&mut self, character: u32) -> (r: Self)
        requires
            character <= old(self).character,
        ensures
            final(self).line == old(self).line,
            final(self).character == old(self).character - character,
            r == *final(self),
    {
        self.character = self.character - character;
        *self
    }

    /// Componentwise sum of two positions.
    pub fn add(&self, other: &Self) -> (r: Self)
        requires
            self.line + other.line <= u32::MAX,
            self.character + other.character <= u32::MAX,
        ensures
            r.line == self.line + other.line,
            r.character == self.character + other.character,
    {
        Self { line: self.line + other.line, character: self.character + other.character }
    }

    /// The position `offset` characters past this one in `source`.
    pub fn add_offset(&self, offset: u32, source: &str) -> (r: Self)
        requires
            spec_offset_of(source@, *self) + offset <= u32::MAX,
        ensures
            r == spec_position_from_offset(source@, spec_offset_of(source@, *self) + offset),
    {
        Self::from_offset(self.to_offset(source) + offset, source)
    }

    /// Lexicographic comparison: by line, then by character.
    pub fn compare(&self, other: &Self) -> (r: core::cmp::Ordering)
        ensures
            r == core::cmp::Ordering::Less <==> pos_lt(*self, *other),
            r == core::cmp::Ordering::Greater <==> pos_lt(*other, *self),
            r == core::cmp::Ordering::Equal <==> *self == *other,
    {
        if self.line < other.line {
            core::cmp::Ordering::Less
        } else if self.line > other.line {
            core::cmp::Ordering::Greater
        } else if self.character < other.character {
            core::cmp::Ordering::Less
        } else if self.character > other.character {
            core::cmp::Ordering::Greater
        } else {
            core::cmp::Ordering::Equal
        }
    }

    /// The range starting here and ending `offset` characters further on.
    pub fn create_range_with_offset(&self, offset: u32, source: &str) -> (r: CustomRange)
        requires
            spec_offset_of(source@, *self) + offset <= u32::MAX,
        ensures
            r.start == *self,
            r.end == spec_position_from_offset(
                source@,
                spec_offset_of(source@, *self) + offset,
            ),
    {
        CustomRange::new(*self, self.add_offset(offset, source))
    }
}

/// A half-open span of source text between two positions.
#[derive(PartialEq, Eq, Structural, Clone, Copy, Debug, Hash)]
pub struct CustomRange {
    pub start: CustomPosition,
    pub end: CustomPosition,
}

impl CustomRange {
    pub fn new(start: CustomPosition, end: CustomPosition) -> (r: Self)
        ensures
            r == (CustomRange { start, end }),
    {
        Self { start, end }
    }

    /// The number of characters the range covers in `source`, clamped to 1
    /// when the range is inverted (a defensive case, never an expected state).
    pub fn length(&self, source: &str) -> (r: u32)
        requires
            spec_offset_of(source@, self.start) <= u32::MAX,
            spec_offset_of(source@, self.end) <= u32::MAX,
            !pos_lt(self.end, self.start) ==> spec_offset_of(source@, self.start) <= spec_offset_of(
                source@,
                self.end,
            ),
        ensures
            r == if pos_lt(self.end, self.start) {
                1int
            } else {
                spec_offset_of(source@, self.end) - spec_offset_of(source@, self.start)
            },
    {
        if matches!(self.start.compare(&self.end), core::cmp::Ordering::Greater) {
            return 1;
        }
        self.end.to_offset(source) - self.start.to_offset(source)
    }

    /// The range denoted by a half-open offset span into `source`.
    pub fn from_range(range: &core::ops::Range<usize>, source: &str) -> (r: Self)
        requires
            range.start <= u32::MAX,
            range.end <= u32::MAX,
        ensures
            r.start == spec_position_from_offset(source@, range.start as int),
            r.end == spec_position_from_offset(source@, range.end as int),
    {
        Self {
            start: CustomPosition::from_offset(range.start as u32, source),
            end: CustomPosition::from_offset(range.end as u32, source),
        }
    }

    /// The range denoted by an external parse-tree node's span: a pair of
    /// optional one-indexed (line, column) markers, normalized here to the
    /// zero-based coordinates the rest of the model uses. A missing start
    /// marker denotes (0, 1) and a missing end marker (0, 0), matching the
    /// defaults of the span supplier.
    pub fn from_span(start: Option<(usize, usize)>, end: Option<(usize, usize)>) -> (r: Self)
        requires
            start matches Some(m) ==> 1 <= m.0 && 1 <= m.1 && m.0 <= u32::MAX && m.1 <= u32::MAX,
            end matches Some(m) ==> 1 <= m.0 && 1 <= m.1 && m.0 <= u32::MAX && m.1 <= u32::MAX,
        ensures
            r.start == match start {
                Some(m) => CustomPosition { line: (m.0 - 1) as u32, character: (m.1 - 1) as u32 },
                None => CustomPosition { line: 0, character: 1 },
            },
            r.end == match end {
                Some(m) => CustomPosition { line: (m.0 - 1) as u32, character: (m.1 - 1) as u32 },
                None => CustomPosition { line: 0, character: 0 },
            },
    {
        let s = match start {
            Some((line, column)) => CustomPosition::from_marker(line - 1, column - 1),
            None => CustomPosition::from_marker(0, 1),
        };
        let e = match end {
            Some((line, column)) => CustomPosition::from_marker(line - 1, column - 1),
            None => CustomPosition::from_marker(0, 0),
        };
        Self { start: s, end: e }
    }

    /// The text of `source` the range covers.
    pub fn get_from(&self, source: &str) -> (r: String)
        requires
            spec_offset_of(source@, self.start) <= spec_offset_of(source@, self.end),
            spec_offset_of(source@, self.end) <= source@.len(),
            source@.len() <= u32::MAX,
        ensures
            r@ == source@.subrange(
                spec_offset_of(source@, self.start),
                spec_offset_of(source@, self.end),
            ),
    {
        let start = self.start.to_offset(source);
        let end = self.end.to_offset(source);
        source.substring_char(start as usize, end as usize).to_owned()
    }

    pub fn set_start(&mut self, start: CustomPosition) -> (r: Self)
        ensures
            *final(self) == (CustomRange { start, end: old(self).end }),
            r == *final(self),
    {
        self.start = start;
        *self
    }

    pub fn set_end(&mut self, end: CustomPosition) -> (r: Self)
        ensures
            *final(self) == (CustomRange { start: old(self).start, end }),
            r == *final(self),
    {
        self.end = end;
        *self
    }

    /// Componentwise sum of two ranges.
    pub fn add(&self, other: &Self) -> (r: Self)
        requires
            self.start.line + other.start.line <= u32::MAX,
            self.start.character + other.start.character <= u32::MAX,
            self.end.line + other.end.line <= u32::MAX,
            self.end.character + other.end.character <= u32::MAX,
        ensures
            r.start.line == self.start.line + other.start.line,
            r.start.character == self.start.character + other.start.character,
            r.end.line == self.end.line + other.end.line,
            r.end.character == self.end.character + other.end.character,
    {
        Self { start: self.start.add(&other.start), end: self.end.add(&other.end) }
    }

    pub fn add_offset_to_start(&self, offset: u32, source: &str) -> (r: Self)
        requires
            spec_offset_of(source@, self.start) + offset <= u32::MAX,
        ensures
            r.start == spec_position_from_offset(
                source@,
                spec_offset_of(source@, self.start) + offset,
            ),
            r.end == self.end,
    {
        Self { start: self.start.add_offset(offset, source), end: self.end }
    }

    pub fn add_offset_to_end(&self, offset: u32, source: &str) -> (r: Self)
        requires
            spec_offset_of(source@, self.end) + offset <= u32::MAX,
        ensures
            r.start == self.start,
            r.end == spec_position_from_offset(
                source@,
                spec_offset_of(source@, self.end) + offset,
            ),
    {
        Self { start: self.start, end: self.end.add_offset(offset, source) }
    }

    pub fn add_offset(&self, offset: u32, source: &str) -> (r: Self)
        requires
            spec_offset_of(source@, self.start) + offset <= u32::MAX,
            spec_offset_of(source@, self.end) + offset <= u32::MAX,
        ensures
            r.start == spec_position_from_offset(
                source@,
                spec_offset_of(source@, self.start) + offset,
            ),
            r.end == spec_position_from_offset(
                source@,
                spec_offset_of(source@, self.end) + offset,
            ),
    {
        Self {
            start: self.start.add_offset(offset, source),
            end: self.end.add_offset(offset, source),
        }
    }

    /// Strict open-interval membership: boundary positions are not contained.
    pub fn contains(&self, position: &CustomPosition) -> (r: bool)
        ensures
            r == range_contains(*self, *position),
    {
        matches!(self.start.compare(position), core::cmp::Ordering::Less) && matches!(
            self.end.compare(position),
            core::cmp::Ordering::Greater,
        )
    }
}

} // verus!
