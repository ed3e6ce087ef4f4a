//! Editor geometry in whole pixels and the mapping between display columns
//! and byte offsets of a row's text.
use vstd::prelude::*;
use vstd::string::*;
use crate::text::{
    byte_len, byte_offset_of, byte_offsets, char_len_utf8, char_utf8_width, chars_of,
    lemma_byte_offset_step, lemma_byte_offset_strict, utf8_len,
};

verus! {

/// Column at which rows are soft-wrapped by default.
pub const DEFAULT_SOFT_WRAP_COLUMN: usize = 100;
/// Number of rows a new view shows.
pub const DEFAULT_VIEWPORT_ROWS: usize = 20;

/// Pixel lengths of the editor layout.
pub const EDITOR_PADDING: i32 = 16;
pub const HEADER_HEIGHT: i32 = 28;
pub const LINE_HEIGHT: i32 = 24;
pub const LINE_NUMBER_WIDTH: i32 = 48;
pub const CONTENT_GAP: i32 = 12;
pub const DISPLAY_COLUMN_WIDTH: i32 = 8;
pub const CARET_WIDTH: i32 = 2;
pub const SCROLLBAR_WIDTH: i32 = 6;
pub const SCROLLBAR_GAP: i32 = 8;

/// A position in window pixels.
#[derive(Clone, Copy, Debug, PartialEq, Eq)]
pub struct Point {
    pub x: i32,
    pub y: i32,
}

/// A width and height in pixels.
#[derive(Clone, Copy, Debug, PartialEq, Eq)]
pub struct Size {
    pub width: i32,
    pub height: i32,
}

/// A rectangle in window pixels.
#[derive(Clone, Copy, Debug, PartialEq, Eq)]
pub struct Bounds {
    pub origin: Point,
    pub size: Size,
}

/// Number of characters of `s` that start before byte `b`.
pub open spec fn column_for_byte(s: Seq<char>, b: int) -> nat
    decreases s.len(),
{
    if s.len() == 0 || b <= 0 {
        0
    } else {
        1 + column_for_byte(s.drop_first(), b - char_utf8_width(s[0]))
    }
}

/// The largest character boundary of `s` that is not after byte `b`.
pub open spec fn floor_boundary(s: Seq<char>, b: int) -> nat
    decreases s.len(),
{
    if s.len() == 0 || b < char_utf8_width(s[0]) {
        0
    } else {
        char_utf8_width(s[0]) + floor_boundary(s.drop_first(), b - char_utf8_width(s[0]))
    }
}

/// `n / d` rounded to the nearest integer, halves away from zero, for `n >= 0`.
pub open spec fn round_div(n: int, d: int) -> int {
    (2 * n + d) / (2 * d)
}

proof fn lemma_skip_step<A>(s: Seq<A>, i: int)
    requires
        0 <= i < s.len(),
    ensures
        s.skip(i).drop_first() =~= s.skip(i + 1),
        s.skip(i)[0] == s[i],
        s.skip(i).len() > 0,
{
}

/// Byte offset of the character at `display_column`, or the byte length of
/// the text when the column is the character count; `None` past the end.
pub fn byte_offset_for_display_column(text: &str, display_column: usize) -> (r: Option<usize>)
    ensures
        r is Some <==> display_column <= text@.len(),
        r matches Some(b) ==> b == byte_offset_of(text@, display_column as int),
{
    let chars = chars_of(text);
    if display_column > chars.len() {
        return None;
    }
    let total = byte_len(text);
    let offsets = byte_offsets(&chars, total);
    Some(offsets[display_column])
}

/// Byte offset of the character at `display_column`, or the byte length of
/// the text when the column is at or past the end.
pub fn byte_offset_for_display_column_or_end(text: &str, display_column: usize) -> (r: usize)
    ensures
        r == (if display_column <= text@.len() {
            byte_offset_of(text@, display_column as int)
        } else {
            utf8_len(text@)
        }),
{
    match byte_offset_for_display_column(text, display_column) {
        Some(offset) => offset,
        None => byte_len(text),
    }
}

/// Number of characters of `chars` that start before byte `byte_offset`.
pub fn column_for_byte_in(chars: &Vec<char>, byte_offset: usize) -> (r: usize)
    ensures
        r == column_for_byte(chars@, byte_offset as int),
        r <= chars@.len(),
{
    let mut i: usize = 0;
    let mut offset: usize = 0;
    assert(chars@.skip(0) =~= chars@);
    while i < chars.len() && offset < byte_offset
        invariant
            i <= chars@.len(),
            offset <= byte_offset || i == 0,
            column_for_byte(chars@, byte_offset as int) == i + column_for_byte(
                chars@.skip(i as int),
                byte_offset - offset,
            ),
        decreases chars@.len() - i,
    {
        proof {
            lemma_skip_step(chars@, i as int);
        }
        let w = char_len_utf8(chars[i]);
        if byte_offset - offset < w {
            proof {
                let rest = chars@.skip(i + 1);
                assert(column_for_byte(rest, byte_offset - offset - w) == 0);
            }
            return i + 1;
        }
        offset = offset + w;
        i = i + 1;
    }
    proof {
        if i == chars@.len() {
            assert(chars@.skip(i as int).len() == 0);
        }
    }
    i
}

/// Display column of the character that holds byte `byte_offset`: the
/// number of characters that start before it.
pub fn display_column_for_byte_offset(text: &str, byte_offset: usize) -> (r: usize)
    ensures
        r == column_for_byte(text@, byte_offset as int),
        r <= text@.len(),
{
    let chars = chars_of(text);
    column_for_byte_in(&chars, byte_offset)
}

/// The display columns of the part of `range` (bytes of the buffer) on a
/// display row covering `row_source_range` with text `row_text`.
pub open spec fn display_range_spec(
    row_text: Seq<char>,
    row_source_range: std::ops::Range<usize>,
    range: std::ops::Range<usize>,
) -> Option<std::ops::Range<usize>> {
    if range.start < row_source_range.end && row_source_range.start < range.end && max_usize(
        range.start,
        row_source_range.start,
    ) < min_usize(range.end, row_source_range.end) {
        Some(
            std::ops::Range {
                start: column_for_byte(
                    row_text,
                    max_usize(range.start, row_source_range.start) - row_source_range.start,
                ) as usize,
                end: column_for_byte(
                    row_text,
                    min_usize(range.end, row_source_range.end) - row_source_range.start,
                ) as usize,
            },
        )
    } else {
        None
    }
}

/// Display columns of the part of `range` (bytes of the buffer) that falls on
/// a display row covering `row_source_range` with text `row_text`; `None`
/// when they do not overlap.
pub fn display_range_for_source_range(
    row_text: &str,
    row_source_range: &std::ops::Range<usize>,
    range: std::ops::Range<usize>,
) -> (r: Option<std::ops::Range<usize>>)
    ensures
        r == display_range_spec(row_text@, *row_source_range, range),
        r is Some <==> (range.start < row_source_range.end && row_source_range.start < range.end
            && max_usize(range.start, row_source_range.start) < min_usize(
            range.end,
            row_source_range.end,
        )),
        r matches Some(cols) ==> cols.start == column_for_byte(
            row_text@,
            max_usize(range.start, row_source_range.start) - row_source_range.start,
        ) && cols.end == column_for_byte(
            row_text@,
            min_usize(range.end, row_source_range.end) - row_source_range.start,
        ),
{
    if range.end <= row_source_range.start || range.start >= row_source_range.end {
        return None;
    }
    let start = if range.start > row_source_range.start {
        range.start
    } else {
        row_source_range.start
    };
    let end = if range.end < row_source_range.end {
        range.end
    } else {
        row_source_range.end
    };
    if start < end {
        let chars = chars_of(row_text);
        let start_column = column_for_byte_in(&chars, start - row_source_range.start);
        let end_column = column_for_byte_in(&chars, end - row_source_range.start);
        Some(start_column..end_column)
    } else {
        None
    }
}

pub open spec fn max_usize(a: usize, b: usize) -> int {
    if a > b {
        a as int
    } else {
        b as int
    }
}

pub open spec fn min_usize(a: usize, b: usize) -> int {
    if a < b {
        a as int
    } else {
        b as int
    }
}

/// Number of characters of `s` that end at or before byte `b`: the column
/// of the largest character boundary not after `b`.
pub open spec fn floor_column(s: Seq<char>, b: int) -> nat
    decreases s.len(),
{
    if s.len() == 0 || b < char_utf8_width(s[0]) {
        0
    } else {
        1 + floor_column(s.drop_first(), b - char_utf8_width(s[0]))
    }
}

/// The largest character boundary of `chars` at or before byte `offset`,
/// and its column.
pub fn floor_boundary_in(chars: &Vec<char>, offset: usize) -> (r: (usize, usize))
    requires
        utf8_len(chars@) <= usize::MAX,
    ensures
        r.0 == floor_boundary(chars@, offset as int),
        r.1 == floor_column(chars@, offset as int),
        r.0 == byte_offset_of(chars@, r.1 as int),
        r.1 <= chars@.len(),
{
    let mut i: usize = 0;
    let mut boundary: usize = 0;
    let mut remaining: usize = offset;
    assert(chars@.skip(0) =~= chars@);
    assert(chars@.take(0) =~= Seq::<char>::empty());
    while i < chars.len()
        invariant
            i <= chars@.len(),
            utf8_len(chars@) <= usize::MAX,
            boundary == byte_offset_of(chars@, i as int),
            floor_boundary(chars@, offset as int) == boundary + floor_boundary(
                chars@.skip(i as int),
                remaining as int,
            ),
            floor_column(chars@, offset as int) == i + floor_column(
                chars@.skip(i as int),
                remaining as int,
            ),
        decreases chars@.len() - i,
    {
        proof {
            lemma_skip_step(chars@, i as int);
            lemma_byte_offset_step(chars@, i as int);
            lemma_byte_offset_strict(chars@, i + 1, chars@.len() as int);
        }
        let w = char_len_utf8(chars[i]);
        if remaining < w {
            return (boundary, i);
        }
        remaining = remaining - w;
        boundary = boundary + w;
        i = i + 1;
    }
    proof {
        assert(chars@.skip(i as int).len() == 0);
    }
    (boundary, i)
}

/// The largest character boundary of `text` at or before `offset` (the
/// byte length of the text when `offset` is past it).
pub fn floor_char_boundary(text: &str, offset: usize) -> (r: usize)
    ensures
        r == floor_boundary(text@, offset as int),
        r == byte_offset_of(text@, floor_column(text@, offset as int) as int),
{
    let chars = chars_of(text);
    // A string's byte length fits in `usize`, and it is the UTF-8 length.
    let _length = byte_len(text);
    floor_boundary_in(&chars, offset).0
}

/// Sort key of an overlay marker drawn at one column: the cursor goes
/// innermost, then selection ends, marked-range ends, and starts.
pub fn marker_priority(marker: char) -> (r: usize)
    ensures
        r == marker_rank(marker),
{
    match marker {
        '|' => 0,
        ']' => 1,
        '}' => 2,
        '[' => 3,
        '{' => 4,
        _ => 5,
    }
}

pub open spec fn marker_rank(marker: char) -> nat {
    if marker == '|' {
        0
    } else if marker == ']' {
        1
    } else if marker == '}' {
        2
    } else if marker == '[' {
        3
    } else if marker == '{' {
        4
    } else {
        5
    }
}

/// "on" or "off".
pub fn availability_label(available: bool) -> (r: &'static str)
    ensures
        available ==> r@ == "on"@,
        !available ==> r@ == "off"@,
{
    if available {
        "on"
    } else {
        "off"
    }
}

/// Left edge of the text area, relative to the editor element.
pub open spec fn text_origin_x() -> int {
    EDITOR_PADDING + LINE_NUMBER_WIDTH + CONTENT_GAP
}

/// Top edge of the first row, relative to the editor element.
pub open spec fn rows_origin_y() -> int {
    EDITOR_PADDING + HEADER_HEIGHT
}

/// Visible row under a mouse position: the rows above the first count as it.
pub open spec fn visible_row_at(position: Point) -> int {
    if position.y <= rows_origin_y() {
        0
    } else {
        (position.y - rows_origin_y()) / (LINE_HEIGHT as int)
    }
}

/// Display column edge nearest to a mouse position; left of the text, the first.
pub open spec fn display_column_at(position: Point) -> int {
    if position.x <= text_origin_x() {
        0
    } else {
        round_div(position.x - text_origin_x(), DISPLAY_COLUMN_WIDTH as int)
    }
}

/// Visible row and display column under a mouse position: rows by floor,
/// columns by rounding to the nearest column edge.
pub fn visible_display_point_for_mouse_position(position: Point) -> (r: (usize, usize))
    ensures
        r.0 == visible_row_at(position),
        r.1 == display_column_at(position),
{
    let row_origin = scrollbar_track_top();
    let column_origin = EDITOR_PADDING + LINE_NUMBER_WIDTH + CONTENT_GAP;
    let row: usize = if position.y <= row_origin {
        0
    } else {
        ((position.y - row_origin) / LINE_HEIGHT) as usize
    };
    let column: usize = if position.x <= column_origin {
        0
    } else {
        let dx = (position.x as i64) - (column_origin as i64);
        ((2 * dx + DISPLAY_COLUMN_WIDTH as i64) / (2 * DISPLAY_COLUMN_WIDTH as i64)) as usize
    };
    (row, column)
}

/// Width of the text area: the default wrap column in display columns.
pub fn editor_text_width() -> (r: i32)
    ensures
        r == DISPLAY_COLUMN_WIDTH * DEFAULT_SOFT_WRAP_COLUMN,
{
    DISPLAY_COLUMN_WIDTH * (DEFAULT_SOFT_WRAP_COLUMN as i32)
}

/// Left edge of the scrollbar track.
pub fn scrollbar_track_left() -> (r: i32)
    ensures
        r == text_origin_x() + DISPLAY_COLUMN_WIDTH * DEFAULT_SOFT_WRAP_COLUMN + SCROLLBAR_GAP,
{
    EDITOR_PADDING + LINE_NUMBER_WIDTH + CONTENT_GAP + editor_text_width() + SCROLLBAR_GAP
}

/// Top edge of the scrollbar track, level with the first row.
pub fn scrollbar_track_top() -> (r: i32)
    ensures
        r == rows_origin_y(),
{
    EDITOR_PADDING + HEADER_HEIGHT
}

/// Bounds, inside an editor element at `element_bounds`, of the display
/// columns `columns` on visible row `visible_row`: a caret-wide box for an
/// empty range.
pub fn bounds_for_visible_display_range(
    element_bounds: Bounds,
    visible_row: usize,
    columns: std::ops::Range<usize>,
) -> (r: Bounds)
    requires
        element_bounds.origin.x + text_origin_x() + DISPLAY_COLUMN_WIDTH * columns.start
            <= i32::MAX,
        element_bounds.origin.y + rows_origin_y() + LINE_HEIGHT * visible_row <= i32::MAX,
        DISPLAY_COLUMN_WIDTH * (columns.end - columns.start) <= i32::MAX,
    ensures
        r.origin.x == element_bounds.origin.x + text_origin_x() + DISPLAY_COLUMN_WIDTH
            * columns.start,
        r.origin.y == element_bounds.origin.y + rows_origin_y() + LINE_HEIGHT * visible_row,
        r.size.width == (if columns.end <= columns.start {
            CARET_WIDTH as int
        } else {
            DISPLAY_COLUMN_WIDTH * (columns.end - columns.start)
        }),
        r.size.height == LINE_HEIGHT,
{
    let column_count = columns.end.saturating_sub(columns.start);
    let width: i32 = if column_count == 0 {
        CARET_WIDTH
    } else {
        DISPLAY_COLUMN_WIDTH * (column_count as i32)
    };
    let x: i64 = element_bounds.origin.x as i64 + (EDITOR_PADDING + LINE_NUMBER_WIDTH
        + CONTENT_GAP) as i64 + (DISPLAY_COLUMN_WIDTH as i64) * (columns.start as i64);
    let y: i64 = element_bounds.origin.y as i64 + (EDITOR_PADDING + HEADER_HEIGHT) as i64
        + (LINE_HEIGHT as i64) * (visible_row as i64);
    Bounds {
        origin: Point { x: x as i32, y: y as i32 },
        size: Size { width, height: LINE_HEIGHT },
    }
}

} // verus!
