//! Clipboard rules: copying whole lines when nothing is selected, pasting
//! whole lines before the current line, and spreading pasted lines over
//! several selections.
use vstd::prelude::*;
use vstd::string::*;
use crate::command::Selection;
use crate::layout::{floor_boundary_in, floor_column};
use crate::text::{
    byte_len, byte_offset_of, byte_offsets, char_utf8_width, chars_of, lemma_byte_offset_step,
    lemma_byte_offset_strict, str_eq, string_from_chars, utf8_len,
};
use std::ops::Range;

verus! {

/// Column where the line holding column `c` starts.
pub open spec fn line_start_col(s: Seq<char>, c: int) -> int
    decreases c,
{
    if c <= 0 {
        0
    } else if s[c - 1] == '\n' {
        c
    } else {
        line_start_col(s, c - 1)
    }
}

/// Column of the newline that ends the line holding column `c`, or the
/// character count when that line is the last.
pub open spec fn line_end_col(s: Seq<char>, c: int) -> int
    decreases s.len() - c,
{
    if c >= s.len() {
        s.len() as int
    } else if s[c] == '\n' {
        c
    } else {
        line_end_col(s, c + 1)
    }
}

/// Start and end columns of the line that holds byte `offset` (rounded down
/// to a character boundary).
pub open spec fn line_columns(s: Seq<char>, offset: int) -> (int, int) {
    let c = floor_column(s, offset) as int;
    (line_start_col(s, c), line_end_col(s, c))
}

/// Bytes of the line's text, without its newline.
pub open spec fn copy_range_of(s: Seq<char>, line: (int, int)) -> (int, int) {
    (byte_offset_of(s, line.0) as int, byte_offset_of(s, line.1) as int)
}

/// Bytes removed when the line is cut: the line with its newline, or, for
/// the last line, with the newline before it.
pub open spec fn delete_range_of(s: Seq<char>, line: (int, int)) -> (int, int) {
    let start = byte_offset_of(s, line.0) as int;
    if line.1 < s.len() {
        (start, byte_offset_of(s, line.1) as int + 1)
    } else if start > 0 {
        (start - 1, utf8_len(s) as int)
    } else {
        (start, utf8_len(s) as int)
    }
}

/// Columns of the line of `chars` that holds byte `offset`.
fn line_columns_in(chars: &Vec<char>, offset: usize) -> (r: (usize, usize))
    requires
        utf8_len(chars@) <= usize::MAX,
    ensures
        r.0 == line_columns(chars@, offset as int).0,
        r.1 == line_columns(chars@, offset as int).1,
        r.0 <= r.1 <= chars@.len(),
        r.1 < chars@.len() ==> chars@[r.1 as int] == '\n',
        r.0 > 0 ==> chars@[r.0 - 1] == '\n',
{
    let c = floor_boundary_in(chars, offset).1;
    let mut start = c;
    while start > 0 && chars[start - 1] != '\n'
        invariant
            start <= c <= chars@.len(),
            line_start_col(chars@, c as int) == line_start_col(chars@, start as int),
        decreases start,
    {
        start = start - 1;
    }
    let mut end = c;
    while end < chars.len() && chars[end] != '\n'
        invariant
            c <= end <= chars@.len(),
            line_end_col(chars@, c as int) == line_end_col(chars@, end as int),
        decreases chars@.len() - end,
    {
        end = end + 1;
    }
    (start, end)
}

/// The copy and delete byte ranges of the line `line` of `chars`.
fn line_ranges_in(chars: &Vec<char>, offsets: &Vec<usize>, total: usize, line: (usize, usize))
    -> (r: (Range<usize>, Range<usize>))
    requires
        total == utf8_len(chars@),
        offsets@.len() == chars@.len() + 1,
        forall|k: int| 0 <= k <= chars@.len() ==> offsets@[k] == byte_offset_of(chars@, k),
        line.0 <= line.1 <= chars@.len(),
        line.1 < chars@.len() ==> chars@[line.1 as int] == '\n',
    ensures
        r.0.start == copy_range_of(chars@, (line.0 as int, line.1 as int)).0,
        r.0.end == copy_range_of(chars@, (line.0 as int, line.1 as int)).1,
        r.1.start == delete_range_of(chars@, (line.0 as int, line.1 as int)).0,
        r.1.end == delete_range_of(chars@, (line.0 as int, line.1 as int)).1,
{
    let line_start = offsets[line.0];
    let line_end = offsets[line.1];
    let delete_range = if line.1 < chars.len() {
        proof {
            lemma_byte_offset_step(chars@, line.1 as int);
            lemma_byte_offset_strict(chars@, line.1 + 1, chars@.len() as int);
        }
        line_start..line_end + 1
    } else if line_start > 0 {
        line_start - 1..total
    } else {
        line_start..total
    };
    (line_start..line_end, delete_range)
}

/// The line that holds byte `offset`: the bytes of its text, and the bytes
/// to remove when it is cut.
pub fn current_line_ranges(text: &str, offset: usize) -> (r: (Range<usize>, Range<usize>))
    ensures
        r.0.start == copy_range_of(text@, line_columns(text@, offset as int)).0,
        r.0.end == copy_range_of(text@, line_columns(text@, offset as int)).1,
        r.1.start == delete_range_of(text@, line_columns(text@, offset as int)).0,
        r.1.end == delete_range_of(text@, line_columns(text@, offset as int)).1,
{
    let chars = chars_of(text);
    let total = byte_len(text);
    let offsets = byte_offsets(&chars, total);
    let line = line_columns_in(&chars, offset);
    line_ranges_in(&chars, &offsets, total, line)
}

/// Some offset of `offsets` lies on the line of `s` that starts at column `c`.
pub open spec fn holds_line(s: Seq<char>, offsets: Seq<usize>, c: int) -> bool {
    exists|k: int| 0 <= k < offsets.len() && #[trigger] line_columns(s, offsets[k] as int).0 == c
}

/// The start columns below `n` of the lines that hold one of `offsets`,
/// each once, in increasing order.
pub open spec fn held_line_starts(s: Seq<char>, offsets: Seq<usize>, n: int) -> Seq<int>
    decreases n,
{
    if n <= 0 {
        Seq::empty()
    } else if holds_line(s, offsets, n - 1) {
        held_line_starts(s, offsets, n - 1).push(n - 1)
    } else {
        held_line_starts(s, offsets, n - 1)
    }
}

/// The start columns of all lines of `s` that hold one of `offsets`.
pub open spec fn selected_lines(s: Seq<char>, offsets: Seq<usize>) -> Seq<int> {
    held_line_starts(s, offsets, s.len() + 1int)
}

/// The clipboard text for copying the lines that start at `starts`: each
/// line's text followed by a newline.
pub open spec fn lines_text(s: Seq<char>, starts: Seq<int>) -> Seq<char>
    decreases starts.len(),
{
    if starts.len() == 0 {
        Seq::empty()
    } else {
        lines_text(s, starts.drop_last()) + s.subrange(
            starts.last(),
            line_end_col(s, starts.last()),
        ) + seq!['\n']
    }
}

/// Every line start held by an offset is listed once, in increasing order,
/// and nothing else is.
pub proof fn lemma_held_line_starts(s: Seq<char>, offsets: Seq<usize>, n: int)
    ensures
        forall|i: int, j: int|
            #![trigger held_line_starts(s, offsets, n)[i], held_line_starts(s, offsets, n)[j]]
            0 <= i < j < held_line_starts(s, offsets, n).len() ==> held_line_starts(
                s,
                offsets,
                n,
            )[i] < held_line_starts(s, offsets, n)[j],
        forall|c: int|
            #![trigger held_line_starts(s, offsets, n).contains(c)]
            0 <= c < n ==> (holds_line(s, offsets, c) <==> held_line_starts(
                s,
                offsets,
                n,
            ).contains(c)),
        forall|i: int|
            #![trigger held_line_starts(s, offsets, n)[i]]
            0 <= i < held_line_starts(s, offsets, n).len() ==> 0 <= held_line_starts(
                s,
                offsets,
                n,
            )[i] < n,
    decreases n,
{
    if n > 0 {
        lemma_held_line_starts(s, offsets, n - 1);
        let prev = held_line_starts(s, offsets, n - 1);
        let cur = held_line_starts(s, offsets, n);
        if holds_line(s, offsets, n - 1) {
            assert(cur == prev.push(n - 1));
            assert(cur[cur.len() - 1] == n - 1);
            assert forall|c: int| 0 <= c < n implies (holds_line(s, offsets, c) <==> cur.contains(
                c,
            )) by {
                if c < n - 1 && prev.contains(c) {
                    let i = choose|i: int| 0 <= i < prev.len() && prev[i] == c;
                    assert(cur[i] == c);
                }
                if cur.contains(c) && c < n - 1 {
                    let i = choose|i: int| 0 <= i < cur.len() && cur[i] == c;
                    assert(i < prev.len());
                    assert(prev[i] == c);
                }
            }
        }
    }
}

proof fn lemma_floor_column_bound(s: Seq<char>, b: int)
    ensures
        floor_column(s, b) <= s.len(),
    decreases s.len(),
{
    if s.len() > 0 && b >= char_utf8_width(s[0]) {
        lemma_floor_column_bound(s.drop_first(), b - char_utf8_width(s[0]));
    }
}

/// A line starts at or before any of its columns and ends where they do.
proof fn lemma_line_start_end(s: Seq<char>, c: int)
    requires
        0 <= c <= s.len(),
    ensures
        0 <= line_start_col(s, c) <= c,
        line_end_col(s, line_start_col(s, c)) == line_end_col(s, c),
    decreases c,
{
    if c > 0 && s[c - 1] != '\n' {
        lemma_line_start_end(s, c - 1);
    }
}

/// The line starting at column `c` is the line that `line_columns` finds
/// for some offset of `offsets`.
pub open spec fn is_offset_line(s: Seq<char>, offsets: Seq<usize>, c: int) -> bool {
    exists|k: int|
        0 <= k < offsets.len() && #[trigger] line_columns(s, offsets[k] as int) == (
            c,
            line_end_col(s, c),
        )
}

/// Some range of `r` starts at `b`.
pub open spec fn some_range_starts_at(r: Seq<Range<usize>>, b: int) -> bool {
    exists|i: int| 0 <= i < r.len() && #[trigger] r[i].start == b
}

/// Byte `b` is where `current_line_ranges` starts the line of some offset
/// of `offsets`.
pub open spec fn is_offset_line_start(s: Seq<char>, offsets: Seq<usize>, b: int) -> bool {
    exists|k: int|
        0 <= k < offsets.len() && copy_range_of(s, #[trigger] line_columns(s, offsets[k] as int)).0
            == b
}

/// The lines that a line copy or a line-wise paste takes are the lines of
/// the offsets that `current_line_ranges` finds: each such line once, in
/// text order, and no other.
pub proof fn lemma_selected_lines_are_offset_lines(s: Seq<char>, offsets: Seq<usize>)
    ensures
        forall|i: int, j: int|
            #![trigger selected_lines(s, offsets)[i], selected_lines(s, offsets)[j]]
            0 <= i < j < selected_lines(s, offsets).len() ==> selected_lines(s, offsets)[i]
                < selected_lines(s, offsets)[j] && byte_offset_of(s, selected_lines(s, offsets)[i])
                < byte_offset_of(s, selected_lines(s, offsets)[j]),
        forall|i: int|
            #![trigger selected_lines(s, offsets)[i]]
            0 <= i < selected_lines(s, offsets).len() ==> is_offset_line(
                s,
                offsets,
                selected_lines(s, offsets)[i],
            ),
        forall|k: int|
            #![trigger offsets[k]]
            0 <= k < offsets.len() ==> selected_lines(s, offsets).contains(
                line_columns(s, offsets[k] as int).0,
            ) && line_columns(s, offsets[k] as int).1 == line_end_col(
                s,
                line_columns(s, offsets[k] as int).0,
            ),
{
    let sel = selected_lines(s, offsets);
    let n = s.len() + 1int;
    lemma_held_line_starts(s, offsets, n);
    assert forall|i: int, j: int|
        #![trigger sel[i], sel[j]]
        0 <= i < j < sel.len() implies sel[i] < sel[j] && byte_offset_of(s, sel[i])
            < byte_offset_of(s, sel[j]) by {
        lemma_byte_offset_strict(s, sel[i], sel[j]);
    }
    assert forall|i: int| #![trigger sel[i]] 0 <= i < sel.len() implies is_offset_line(
        s,
        offsets,
        sel[i],
    ) by {
        assert(sel.contains(sel[i]));
        assert(holds_line(s, offsets, sel[i]));
        let k = choose|k: int|
            0 <= k < offsets.len() && #[trigger] line_columns(s, offsets[k] as int).0 == sel[i];
        let fc = floor_column(s, offsets[k] as int) as int;
        lemma_floor_column_bound(s, offsets[k] as int);
        lemma_line_start_end(s, fc);
        assert(line_columns(s, offsets[k] as int) == (sel[i], line_end_col(s, sel[i])));
    }
    assert forall|k: int| #![trigger offsets[k]] 0 <= k < offsets.len() implies sel.contains(
        line_columns(s, offsets[k] as int).0,
    ) && line_columns(s, offsets[k] as int).1 == line_end_col(
        s,
        line_columns(s, offsets[k] as int).0,
    ) by {
        let fc = floor_column(s, offsets[k] as int) as int;
        lemma_floor_column_bound(s, offsets[k] as int);
        lemma_line_start_end(s, fc);
        assert(holds_line(s, offsets, line_columns(s, offsets[k] as int).0));
    }
}

/// Column of the newline ending the line that starts at column `c`, or the
/// character count.
fn line_end_in(chars: &Vec<char>, c: usize) -> (end: usize)
    requires
        c <= chars@.len(),
    ensures
        end == line_end_col(chars@, c as int),
        c <= end <= chars@.len(),
        end < chars@.len() ==> chars@[end as int] == '\n',
{
    let mut end = c;
    while end < chars.len() && chars[end] != '\n'
        invariant
            c <= end <= chars@.len(),
            line_end_col(chars@, c as int) == line_end_col(chars@, end as int),
        decreases chars@.len() - end,
    {
        end = end + 1;
    }
    end
}

/// The start columns of the lines of `chars` that hold one of `offsets`.
fn selected_lines_in(chars: &Vec<char>, offsets: &Vec<usize>) -> (starts: Vec<usize>)
    requires
        utf8_len(chars@) <= usize::MAX,
    ensures
        starts@.len() == selected_lines(chars@, offsets@).len(),
        forall|i: int|
            0 <= i < starts@.len() ==> starts@[i] == selected_lines(chars@, offsets@)[i],
{
    let n = chars.len();
    let mut marks: Vec<bool> = Vec::new();
    while marks.len() <= n
        invariant
            marks@.len() <= n + 1,
            forall|c: int| 0 <= c < marks@.len() ==> !marks@[c],
        decreases n + 1 - marks@.len(),
    {
        marks.push(false);
    }
    let mut k: usize = 0;
    while k < offsets.len()
        invariant
            k <= offsets@.len(),
            n == chars@.len(),
            utf8_len(chars@) <= usize::MAX,
            marks@.len() == n + 1,
            forall|c: int|
                0 <= c <= n ==> (marks@[c] <==> exists|m: int|
                    0 <= m < k && #[trigger] line_columns(chars@, offsets@[m] as int).0 == c),
        decreases offsets@.len() - k,
    {
        let line = line_columns_in(chars, offsets[k]);
        marks.set(line.0, true);
        proof {
            assert forall|c: int| 0 <= c <= n implies (marks@[c] <==> exists|m: int|
                0 <= m < k + 1 && #[trigger] line_columns(chars@, offsets@[m] as int).0 == c) by {
                if c == line.0 {
                    assert(line_columns(chars@, offsets@[k as int] as int).0 == c);
                }
            }
        }
        k = k + 1;
    }
    let mut starts: Vec<usize> = Vec::new();
    let mut c: usize = 0;
    while c < n
        invariant
            c <= n,
            n == chars@.len(),
            marks@.len() == n + 1,
            forall|d: int| 0 <= d <= n ==> (marks@[d] <==> holds_line(chars@, offsets@, d)),
            starts@.len() == held_line_starts(chars@, offsets@, c as int).len(),
            forall|i: int|
                0 <= i < starts@.len() ==> starts@[i] == held_line_starts(
                    chars@,
                    offsets@,
                    c as int,
                )[i],
        decreases n - c,
    {
        if marks[c] {
            starts.push(c);
        }
        c = c + 1;
    }
    if marks[n] {
        starts.push(n);
    }
    starts
}

/// For copying or cutting with empty selections: the text of every line
/// holding one of `offsets`, each line once and in order, each followed by
/// a newline; and the byte ranges that cutting those lines removes.
pub fn current_line_clipboard_text_and_delete_ranges(text: &str, offsets: &Vec<usize>) -> (r: (
    String,
    Vec<Range<usize>>,
))
    ensures
        r.0@ == lines_text(text@, selected_lines(text@, offsets@)),
        r.1@.len() == selected_lines(text@, offsets@).len(),
        forall|i: int|
            #![trigger r.1@[i]]
            0 <= i < r.1@.len() ==> {
                let c = selected_lines(text@, offsets@)[i];
                let line = (c, line_end_col(text@, c));
                r.1@[i].start == delete_range_of(text@, line).0 && r.1@[i].end == delete_range_of(
                    text@,
                    line,
                ).1
            },
        // Each copied line is the line `current_line_ranges` finds for some
        // offset, and each offset's line is copied.
        forall|i: int|
            #![trigger selected_lines(text@, offsets@)[i]]
            0 <= i < selected_lines(text@, offsets@).len() ==> is_offset_line(
                text@,
                offsets@,
                selected_lines(text@, offsets@)[i],
            ),
        forall|k: int|
            #![trigger offsets@[k]]
            0 <= k < offsets@.len() ==> selected_lines(text@, offsets@).contains(
                line_columns(text@, offsets@[k] as int).0,
            ),
{
    let chars = chars_of(text);
    let total = byte_len(text);
    let byte_offsets = byte_offsets(&chars, total);
    let starts = selected_lines_in(&chars, offsets);
    let ghost lines = selected_lines(text@, offsets@);
    proof {
        lemma_held_line_starts(text@, offsets@, text@.len() + 1int);
    }
    let mut clipboard_text = String::new();
    let mut delete_ranges: Vec<Range<usize>> = Vec::new();
    let mut i: usize = 0;
    assert(lines.take(0) =~= Seq::<int>::empty());
    while i < starts.len()
        invariant
            i <= starts@.len(),
            chars@ == text@,
            total == utf8_len(chars@),
            lines == selected_lines(text@, offsets@),
            starts@.len() == lines.len(),
            forall|j: int| #![trigger starts@[j]] 0 <= j < starts@.len() ==> starts@[j] == lines[j],
            forall|j: int| #![trigger lines[j]] 0 <= j < lines.len() ==> 0 <= lines[j] <= chars@.len(),
            byte_offsets@.len() == chars@.len() + 1,
            forall|k: int|
                0 <= k <= chars@.len() ==> byte_offsets@[k] == byte_offset_of(chars@, k),
            clipboard_text@ == lines_text(text@, lines.take(i as int)),
            delete_ranges@.len() == i,
            forall|j: int|
                #![trigger delete_ranges@[j]]
                0 <= j < i ==> {
                    let line = (lines[j], line_end_col(text@, lines[j]));
                    delete_ranges@[j].start == delete_range_of(text@, line).0
                        && delete_ranges@[j].end == delete_range_of(text@, line).1
                },
        decreases starts@.len() - i,
    {
        let start = starts[i];
        let end = line_end_in(&chars, start);
        let ranges = line_ranges_in(&chars, &byte_offsets, total, (start, end));
        let line_text = string_from_chars(&chars, start, end);
        clipboard_text.append(line_text.as_str());
        clipboard_text.append("\n");
        proof {
            reveal_strlit("\n");
            assert(lines.take(i + 1).drop_last() =~= lines.take(i as int));
            assert(lines.take(i + 1).last() == start);
            assert(clipboard_text@ =~= lines_text(text@, lines.take(i + 1)));
        }
        delete_ranges.push(ranges.1);
        i = i + 1;
    }
    assert(lines.take(lines.len() as int) =~= lines);
    proof {
        lemma_selected_lines_are_offset_lines(text@, offsets@);
    }
    (clipboard_text, delete_ranges)
}

/// A paste of `text` goes in as whole lines: the text is what the last
/// line copy put on the clipboard (`line_copy`), ends with a newline, and
/// no selection covers any text.
pub open spec fn linewise_paste_spec(text: Seq<char>, selections: Seq<Selection>, line_copy: Option<Seq<char>>) -> bool {
    &&& line_copy == Some(text)
    &&& text.len() > 0
    &&& text.last() == '\n'
    &&& forall|i: int| 0 <= i < selections.len() ==> selections[i].start == selections[i].end
}

/// Whether a paste of `text` goes in as whole lines: the text is what the
/// last line copy put on the clipboard, ends with a newline, and no
/// selection covers any text.
pub fn is_linewise_paste(text: &str, selections: &Vec<Selection>, linewise_clipboard_text: Option<
    &str,
>) -> (r: bool)
    ensures
        r == (linewise_clipboard_text matches Some(t) && t@ == text@ && text@.len() > 0
            && text@.last() == '\n' && forall|i: int|
            0 <= i < selections@.len() ==> selections@[i].start == selections@[i].end),
{
    let same = match linewise_clipboard_text {
        Some(clipboard) => str_eq(clipboard, text),
        None => false,
    };
    if !same {
        return false;
    }
    let chars = chars_of(text);
    if chars.len() == 0 || chars[chars.len() - 1] != '\n' {
        return false;
    }
    let mut i: usize = 0;
    while i < selections.len()
        invariant
            i <= selections@.len(),
            forall|j: int| 0 <= j < i ==> selections@[j].start == selections@[j].end,
        decreases selections@.len() - i,
    {
        if !selections[i].is_empty() {
            return false;
        }
        i = i + 1;
    }
    true
}

/// Number of newlines in `s`.
pub open spec fn newline_count(s: Seq<char>) -> nat
    decreases s.len(),
{
    if s.len() == 0 {
        0
    } else {
        newline_count(s.drop_last()) + if s.last() == '\n' {
            1nat
        } else {
            0nat
        }
    }
}

/// The pieces joined with newlines.
pub open spec fn join_lines(pieces: Seq<Seq<char>>) -> Seq<char>
    decreases pieces.len(),
{
    if pieces.len() == 0 {
        Seq::empty()
    } else if pieces.len() == 1 {
        pieces[0]
    } else {
        join_lines(pieces.drop_last()) + seq!['\n'] + pieces.last()
    }
}

/// The pieces one after another.
pub open spec fn concat_pieces(pieces: Seq<Seq<char>>) -> Seq<char>
    decreases pieces.len(),
{
    if pieces.len() == 0 {
        Seq::empty()
    } else {
        concat_pieces(pieces.drop_last()) + pieces.last()
    }
}

pub open spec fn string_views(v: Seq<String>) -> Seq<Seq<char>> {
    Seq::new(v.len(), |i: int| v[i]@)
}

/// Number of pieces that splitting after each newline gives.
pub open spec fn inclusive_piece_count(s: Seq<char>) -> nat {
    newline_count(s) + if s.len() > 0 && s.last() != '\n' {
        1nat
    } else {
        0nat
    }
}

/// `pieces` split `s` at its newlines, which they leave out.
pub open spec fn is_newline_split(s: Seq<char>, pieces: Seq<Seq<char>>) -> bool {
    &&& join_lines(pieces) == s
    &&& forall|i: int, j: int| 0 <= i < pieces.len() && 0 <= j < pieces[i].len() ==> pieces[i][j] != '\n'
}

/// `pieces` split `s` after each of its newlines, which they keep.
pub open spec fn is_inclusive_split(s: Seq<char>, pieces: Seq<Seq<char>>) -> bool {
    &&& concat_pieces(pieces) == s
    &&& forall|i: int| 0 <= i < pieces.len() ==> pieces[i].len() > 0
    &&& forall|i: int, j: int|
        0 <= i < pieces.len() && 0 <= j < pieces[i].len() - 1 ==> pieces[i][j] != '\n'
    &&& forall|i: int| 0 <= i < pieces.len() - 1 ==> pieces[i].last() == '\n'
}

fn split_lines(chars: &Vec<char>) -> (pieces: Vec<String>)
    ensures
        is_newline_split(chars@, string_views(pieces@)),
        pieces@.len() == newline_count(chars@) + 1,
{
    let mut pieces: Vec<String> = Vec::new();
    let mut current_start: usize = 0;
    let mut i: usize = 0;
    assert(chars@.take(0) =~= Seq::<char>::empty());
    while i < chars.len()
        invariant
            current_start <= i <= chars@.len(),
            join_lines(string_views(pieces@).push(chars@.subrange(current_start as int, i as int)))
                == chars@.take(i as int),
            forall|a: int, b: int|
                0 <= a < pieces@.len() && 0 <= b < pieces@[a]@.len() ==> pieces@[a]@[b] != '\n',
            forall|b: int| current_start <= b < i ==> chars@[b] != '\n',
            pieces@.len() == newline_count(chars@.take(i as int)),
        decreases chars@.len() - i,
    {
        let ghost views_before = string_views(pieces@);
        let ghost current_before = chars@.subrange(current_start as int, i as int);
        assert(chars@.take(i + 1).drop_last() =~= chars@.take(i as int));
        assert(chars@.take(i + 1) =~= chars@.take(i as int).push(chars@[i as int]));
        if chars[i] == '\n' {
            let piece = string_from_chars(chars, current_start, i);
            pieces.push(piece);
            current_start = i + 1;
            proof {
                assert(string_views(pieces@) =~= views_before.push(current_before));
                let next = string_views(pieces@).push(Seq::<char>::empty());
                assert(next.drop_last() =~= string_views(pieces@));
                assert(chars@.subrange(current_start as int, i + 1) =~= Seq::<char>::empty());
                assert(join_lines(next) =~= join_lines(views_before.push(current_before))
                    + seq!['\n']);
            }
        } else {
            proof {
                let next = views_before.push(chars@.subrange(current_start as int, i + 1));
                assert(chars@.subrange(current_start as int, i + 1) =~= current_before.push(
                    chars@[i as int],
                ));
                assert(next.drop_last() =~= views_before);
                assert(views_before.push(current_before).drop_last() =~= views_before);
                if views_before.len() == 0 {
                    assert(join_lines(next) =~= join_lines(views_before.push(current_before)).push(
                        chars@[i as int],
                    ));
                } else {
                    assert(join_lines(next) =~= join_lines(views_before.push(current_before)).push(
                        chars@[i as int],
                    ));
                }
            }
        }
        i = i + 1;
    }
    let ghost views_before = string_views(pieces@);
    let last = string_from_chars(chars, current_start, chars.len());
    pieces.push(last);
    proof {
        assert(string_views(pieces@) =~= views_before.push(
            chars@.subrange(current_start as int, chars@.len() as int),
        ));
        assert(chars@.take(chars@.len() as int) =~= chars@);
    }
    pieces
}

fn split_lines_inclusive(chars: &Vec<char>) -> (pieces: Vec<String>)
    ensures
        is_inclusive_split(chars@, string_views(pieces@)),
        pieces@.len() == inclusive_piece_count(chars@),
{
    let mut pieces: Vec<String> = Vec::new();
    let mut current_start: usize = 0;
    let mut i: usize = 0;
    assert(chars@.take(0) =~= Seq::<char>::empty());
    while i < chars.len()
        invariant
            current_start <= i <= chars@.len(),
            concat_pieces(string_views(pieces@)) + chars@.subrange(current_start as int, i as int)
                == chars@.take(i as int),
            forall|a: int| 0 <= a < pieces@.len() ==> pieces@[a]@.len() > 0,
            forall|a: int, b: int|
                0 <= a < pieces@.len() && 0 <= b < pieces@[a]@.len() - 1 ==> pieces@[a]@[b]
                    != '\n',
            forall|a: int| 0 <= a < pieces@.len() ==> pieces@[a]@.last() == '\n',
            forall|b: int| current_start <= b < i ==> chars@[b] != '\n',
            pieces@.len() == newline_count(chars@.take(i as int)),
            (current_start < i) <==> (i > 0 && chars@[i - 1] != '\n'),
        decreases chars@.len() - i,
    {
        let ghost views_before = string_views(pieces@);
        let ghost current_before = chars@.subrange(current_start as int, i as int);
        assert(chars@.take(i + 1).drop_last() =~= chars@.take(i as int));
        assert(chars@.take(i + 1) =~= chars@.take(i as int).push(chars@[i as int]));
        assert(chars@.subrange(current_start as int, i + 1) =~= current_before.push(
            chars@[i as int],
        ));
        if chars[i] == '\n' {
            let piece = string_from_chars(chars, current_start, i + 1);
            pieces.push(piece);
            current_start = i + 1;
            proof {
                assert(string_views(pieces@) =~= views_before.push(current_before.push('\n')));
                assert(string_views(pieces@).drop_last() =~= views_before);
                assert(chars@.subrange(current_start as int, i + 1) =~= Seq::<char>::empty());
            }
        }
        i = i + 1;
    }
    if current_start < chars.len() {
        let ghost views_before = string_views(pieces@);
        let last = string_from_chars(chars, current_start, chars.len());
        pieces.push(last);
        proof {
            assert(string_views(pieces@) =~= views_before.push(
                chars@.subrange(current_start as int, chars@.len() as int),
            ));
            assert(string_views(pieces@).drop_last() =~= views_before);
        }
    } else {
        assert(chars@.subrange(current_start as int, chars@.len() as int) =~= Seq::<
            char,
        >::empty());
    }
    assert(chars@.take(chars@.len() as int) =~= chars@);
    pieces
}

/// For a paste over several selections: one piece of `text` per selection
/// when the text splits into exactly as many pieces, at its newlines (left
/// out), or after them when `linewise` (kept). `None` for a single
/// selection or a different number of pieces.
pub fn distributed_paste_replacements(text: &str, selection_count: usize, linewise: bool) -> (r:
    Option<Vec<String>>)
    ensures
        r is Some <==> selection_count > 1 && selection_count == (if linewise {
            inclusive_piece_count(text@)
        } else {
            newline_count(text@) + 1
        }),
        r matches Some(pieces) ==> pieces@.len() == selection_count && (if linewise {
            is_inclusive_split(text@, string_views(pieces@))
        } else {
            is_newline_split(text@, string_views(pieces@))
        }),
{
    if selection_count <= 1 {
        return None;
    }
    let chars = chars_of(text);
    let replacements = if linewise {
        split_lines_inclusive(&chars)
    } else {
        split_lines(&chars)
    };
    if replacements.len() == selection_count {
        Some(replacements)
    } else {
        None
    }
}

/// For a line-wise paste: an empty range at the start of each line that
/// holds one of `offsets`, each line once, in order.
pub fn line_start_ranges_for_offsets(text: &str, offsets: &Vec<usize>) -> (r: Vec<Range<usize>>)
    ensures
        r@.len() == selected_lines(text@, offsets@).len(),
        forall|i: int|
            #![trigger r@[i]]
            0 <= i < r@.len() ==> r@[i].start == byte_offset_of(
                text@,
                selected_lines(text@, offsets@)[i],
            ) && r@[i].end == r@[i].start,
        // The starts are those `current_line_ranges` gives for the offsets,
        // each once, ascending.
        forall|i: int, j: int| #![trigger r@[i], r@[j]] 0 <= i < j < r@.len() ==> r@[i].start < r@[j].start,
        forall|i: int|
            #![trigger r@[i]]
            0 <= i < r@.len() ==> is_offset_line_start(text@, offsets@, r@[i].start as int),
        forall|k: int|
            #![trigger offsets@[k]]
            0 <= k < offsets@.len() ==> some_range_starts_at(
                r@,
                copy_range_of(text@, line_columns(text@, offsets@[k] as int)).0,
            ),
{
    let chars = chars_of(text);
    let total = byte_len(text);
    let byte_offsets = byte_offsets(&chars, total);
    let starts = selected_lines_in(&chars, offsets);
    let ghost lines = selected_lines(text@, offsets@);
    proof {
        lemma_held_line_starts(text@, offsets@, text@.len() + 1int);
    }
    let mut ranges: Vec<Range<usize>> = Vec::new();
    let mut i: usize = 0;
    while i < starts.len()
        invariant
            i <= starts@.len(),
            chars@ == text@,
            lines == selected_lines(text@, offsets@),
            starts@.len() == lines.len(),
            forall|j: int| #![trigger starts@[j]] 0 <= j < starts@.len() ==> starts@[j] == lines[j],
            forall|j: int| #![trigger lines[j]] 0 <= j < lines.len() ==> 0 <= lines[j] <= chars@.len(),
            byte_offsets@.len() == chars@.len() + 1,
            forall|k: int|
                0 <= k <= chars@.len() ==> byte_offsets@[k] == byte_offset_of(chars@, k),
            ranges@.len() == i,
            forall|j: int|
                #![trigger ranges@[j]]
                0 <= j < i ==> ranges@[j].start == byte_offset_of(text@, lines[j])
                    && ranges@[j].end == ranges@[j].start,
        decreases starts@.len() - i,
    {
        let start = byte_offsets[starts[i]];
        ranges.push(start..start);
        i = i + 1;
    }
    proof {
        lemma_selected_lines_are_offset_lines(text@, offsets@);
        assert forall|i: int|
            #![trigger ranges@[i]]
            0 <= i < ranges@.len() implies is_offset_line_start(
                text@,
                offsets@,
                ranges@[i].start as int,
            ) by {
            assert(is_offset_line(text@, offsets@, lines[i]));
            let k = choose|k: int|
                0 <= k < offsets@.len() && #[trigger] line_columns(text@, offsets@[k] as int) == (
                    lines[i],
                    line_end_col(text@, lines[i]),
                );
            assert(ranges@[i].start == copy_range_of(text@, line_columns(text@, offsets@[k] as int)).0);
        }
        assert forall|k: int|
            #![trigger offsets@[k]]
            0 <= k < offsets@.len() implies some_range_starts_at(
                ranges@,
                copy_range_of(text@, line_columns(text@, offsets@[k] as int)).0,
            ) by {
            let c = line_columns(text@, offsets@[k] as int).0;
            assert(lines.contains(c));
            let i = choose|i: int| 0 <= i < lines.len() && lines[i] == c;
            assert(ranges@[i].start == copy_range_of(text@, line_columns(text@, offsets@[k] as int)).0);
        }
        assert forall|i: int, j: int|
            #![trigger ranges@[i], ranges@[j]]
            0 <= i < j < ranges@.len() implies ranges@[i].start < ranges@[j].start by {
            assert(byte_offset_of(text@, lines[i]) < byte_offset_of(text@, lines[j]));
        }
    }
    ranges
}

} // verus!
