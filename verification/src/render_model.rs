//! What the editor shows: the header, each visible line with its cursors,
//! selections and IME-marked ranges, and the scrollbar.
use vstd::prelude::*;
use vstd::string::*;
use crate::layout::availability_label;
use crate::text::{chars_of, string_from_chars, string_push};
use std::ops::Range;

verus! {

/// The editor as it is drawn: title, state flags, visible lines and scrollbar.
#[derive(Clone, Debug, PartialEq, Eq)]
pub struct RenderedEditor {
    pub title: String,
    pub is_dirty: bool,
    pub can_undo: bool,
    pub can_redo: bool,
    pub lines: Vec<RenderedLine>,
    pub scrollbar: Option<RenderedScrollbar>,
}

pub open spec fn label_view(available: bool) -> Seq<char> {
    if available {
        "on"@
    } else {
        "off"@
    }
}

impl RenderedEditor {
    /// The title, preceded by `* ` when the buffer has unsaved changes and by
    /// two spaces otherwise.
    pub fn header_text(&self) -> (r: String)
        ensures
            r@ == (if self.is_dirty {
                "* "@
            } else {
                "  "@
            }) + self.title@,
    {
        let mut text = if self.is_dirty {
            String::from_str("* ")
        } else {
            String::from_str("  ")
        };
        text.append(self.title.as_str());
        text
    }

    /// `undo:<on|off> redo:<on|off>`.
    pub fn command_status_text(&self) -> (r: String)
        ensures
            r@ == "undo:"@ + label_view(self.can_undo) + " redo:"@ + label_view(self.can_redo),
    {
        let mut text = String::from_str("undo:");
        text.append(availability_label(self.can_undo));
        text.append(" redo:");
        text.append(availability_label(self.can_redo));
        text
    }
}

/// The scrollbar next to the visible rows: one cell per visible row.
#[derive(Clone, Copy, Debug, PartialEq, Eq)]
pub struct RenderedScrollbar {
    pub first_visible_row: usize,
    pub visible_rows: usize,
    pub total_rows: usize,
    pub hovered_row: Option<usize>,
    pub pressed: bool,
}

/// How one scrollbar cell is drawn.
#[derive(Clone, Copy, Debug, PartialEq, Eq)]
pub struct RenderedScrollbarRowState {
    pub thumb: bool,
    pub hovered: bool,
    pub pressed: bool,
}

pub open spec fn max_nat(a: int, b: int) -> int {
    if a > b {
        a
    } else {
        b
    }
}

pub open spec fn min_int(a: int, b: int) -> int {
    if a < b {
        a
    } else {
        b
    }
}

/// `a / b` rounded up.
pub open spec fn ceil_div(a: int, b: int) -> int {
    (a + b - 1) / b
}

impl RenderedScrollbar {
    /// Rows of the track at least one visible.
    pub open spec fn track_rows(self) -> int {
        max_nat(self.visible_rows as int, 1)
    }

    /// Length of the thumb: the visible share of the track, at least one cell.
    pub open spec fn thumb_len(self) -> int {
        max_nat(ceil_div(self.track_rows() * self.track_rows(), self.total_rows as int), 1)
    }

    /// Highest cell the thumb can start at.
    pub open spec fn max_thumb_start(self) -> int {
        max_nat(self.track_rows() - self.thumb_len(), 0)
    }

    /// Rows the viewport can scroll by, at least one.
    pub open spec fn scrollable_rows(self) -> int {
        max_nat(self.total_rows - self.track_rows(), 1)
    }

    /// First cell of the thumb: the scroll position scaled onto the track,
    /// rounded to the nearest cell.
    pub open spec fn thumb_start(self) -> int {
        (min_int(self.first_visible_row as int, self.scrollable_rows()) * self.max_thumb_start()
            + self.scrollable_rows() / 2) / self.scrollable_rows()
    }

    /// The thumb cells, as `(start, end)`.
    pub open spec fn thumb_spec(self) -> (int, int) {
        if self.total_rows <= self.visible_rows {
            (0, self.track_rows())
        } else {
            (self.thumb_start(), self.thumb_start() + self.thumb_len())
        }
    }

    /// The products the thumb computation forms fit in a `usize`.
    pub open spec fn thumb_fits(self) -> bool {
        self.total_rows <= self.visible_rows || (self.track_rows() * self.track_rows()
            <= usize::MAX && min_int(self.first_visible_row as int, self.scrollable_rows())
            * self.max_thumb_start() + self.scrollable_rows() / 2 <= usize::MAX)
    }

    /// The cells of the track covered by the thumb.
    pub fn thumb_rows(&self) -> (r: Range<usize>)
        requires
            self.thumb_fits(),
        ensures
            r.start == self.thumb_spec().0,
            r.end == self.thumb_spec().1,
    {
        if self.total_rows <= self.visible_rows {
            return 0..if self.visible_rows > 1 {
                self.visible_rows
            } else {
                1
            };
        }
        let visible_rows = if self.visible_rows > 1 {
            self.visible_rows
        } else {
            1
        };
        let square = visible_rows * visible_rows;
        proof {
            lemma_ceil_div(square as int, self.total_rows as int);
        }
        let quotient = square / self.total_rows;
        let ceil = if square % self.total_rows == 0 {
            quotient
        } else {
            quotient + 1
        };
        let thumb_len = if ceil > 1 {
            ceil
        } else {
            1
        };
        let max_start = visible_rows.saturating_sub(thumb_len);
        let scrollable = {
            let rows = self.total_rows.saturating_sub(visible_rows);
            if rows > 1 {
                rows
            } else {
                1
            }
        };
        let first = if self.first_visible_row < scrollable {
            self.first_visible_row
        } else {
            scrollable
        };
        let thumb_start = (first * max_start + scrollable / 2) / scrollable;
        proof {
            lemma_thumb_bounds(*self);
        }
        thumb_start..thumb_start + thumb_len
    }

    /// How cell `row` is drawn: inside the thumb, under the mouse, pressed.
    pub fn row_state(&self, row: usize) -> (r: RenderedScrollbarRowState)
        requires
            self.thumb_fits(),
        ensures
            r.hovered == (self.hovered_row == Some(row)),
            r.thumb == (self.thumb_spec().0 <= row < self.thumb_spec().1),
            r.pressed == (self.pressed && self.hovered_row == Some(row)),
    {
        let hovered = match self.hovered_row {
            Some(hovered_row) => hovered_row == row,
            None => false,
        };
        let thumb_rows = self.thumb_rows();
        let thumb = thumb_rows.start <= row && row < thumb_rows.end;
        let pressed = self.pressed && hovered;
        RenderedScrollbarRowState { thumb, hovered, pressed }
    }
}

/// Rounding a quotient up adds one exactly when the division leaves a rest.
pub proof fn lemma_ceil_div(sq: int, t: int)
    requires
        sq >= 0,
        t >= 1,
    ensures
        ceil_div(sq, t) == (if sq % t == 0 {
            sq / t
        } else {
            sq / t + 1
        }),
        sq % t != 0 ==> sq / t + 1 <= sq,
        ceil_div(sq, t) <= sq,
{
    vstd::arithmetic::div_mod::lemma_fundamental_div_mod(sq, t);
    vstd::arithmetic::div_mod::lemma_mod_pos_bound(sq, t);
    vstd::arithmetic::div_mod::lemma_div_pos_is_pos(sq, t);
    let q = sq / t;
    let r = sq % t;
    assert(sq == q * t + r) by (nonlinear_arith)
        requires
            sq == t * q + r,
    {
    }
    if r == 0 {
        assert(sq + t - 1 == q * t + (t - 1));
        vstd::arithmetic::div_mod::lemma_fundamental_div_mod_converse(sq + t - 1, t, q, t - 1);
    } else {
        assert(sq + t - 1 == (q + 1) * t + (r - 1)) by (nonlinear_arith)
            requires
                sq == q * t + r,
        {
        }
        vstd::arithmetic::div_mod::lemma_fundamental_div_mod_converse(
            sq + t - 1,
            t,
            q + 1,
            r - 1,
        );
        assert(q + 1 <= sq) by (nonlinear_arith)
            requires
                sq == q * t + r,
                q >= 0,
                t > r,
                r >= 1,
        {
        }
    }
    assert(q <= sq) by (nonlinear_arith)
        requires
            sq == q * t + r,
            q >= 0,
            t >= 1,
            r >= 0,
    {
    }
}

/// The thumb lies inside the track and is at least one cell long whenever the
/// document is taller than the viewport.
pub proof fn lemma_thumb_bounds(scrollbar: RenderedScrollbar)
    requires
        scrollbar.total_rows > scrollbar.visible_rows,
    ensures
        1 <= scrollbar.thumb_len() <= scrollbar.track_rows(),
        0 <= scrollbar.thumb_start() <= scrollbar.max_thumb_start(),
        scrollbar.thumb_start() + scrollbar.thumb_len() <= scrollbar.track_rows(),
        scrollbar.first_visible_row == 0 ==> scrollbar.thumb_spec().0 == 0,
        scrollbar.first_visible_row >= scrollbar.total_rows - scrollbar.track_rows()
            ==> scrollbar.thumb_spec().1 == scrollbar.track_rows(),
{
    let v = scrollbar.track_rows();
    let t = scrollbar.total_rows as int;
    assert(t >= v);
    assert(ceil_div(v * v, t) <= v) by (nonlinear_arith)
        requires
            t >= v,
            v >= 1,
    {
        assert(v * v + t - 1 < (v + 1) * t);
        vstd::arithmetic::div_mod::lemma_div_by_multiple_is_strongly_ordered(
            v * v + t - 1,
            (v + 1) * t,
            v + 1,
            t,
        );
    }
    assert(ceil_div(v * v, t) >= 0) by (nonlinear_arith)
        requires
            t >= 1,
            v >= 1,
    {
    }
    let s = scrollbar.scrollable_rows();
    let m = min_int(scrollbar.first_visible_row as int, s);
    let ms = scrollbar.max_thumb_start();
    assert((m * ms + s / 2) / s <= ms) by (nonlinear_arith)
        requires
            0 <= m <= s,
            s >= 1,
            ms >= 0,
    {
        assert(m * ms <= s * ms);
        assert(m * ms + s / 2 < s * (ms + 1));
        vstd::arithmetic::div_mod::lemma_div_by_multiple_is_strongly_ordered(
            m * ms + s / 2,
            s * (ms + 1),
            ms + 1,
            s,
        );
    }
    assert((m * ms + s / 2) / s >= 0) by (nonlinear_arith)
        requires
            0 <= m,
            s >= 1,
            ms >= 0,
    {
    }
    if scrollbar.first_visible_row == 0 {
        assert(m == 0);
        assert(m * ms == 0) by (nonlinear_arith)
            requires
                m == 0,
        {
        }
        vstd::arithmetic::div_mod::lemma_fundamental_div_mod_converse(s / 2, s, 0, s / 2);
    }
    if scrollbar.first_visible_row >= t - v {
        if m == s {
            assert(m * ms + s / 2 == ms * s + s / 2) by (nonlinear_arith)
                requires
                    m == s,
            {
            }
            vstd::arithmetic::div_mod::lemma_fundamental_div_mod_converse(
                m * ms + s / 2,
                s,
                ms,
                s / 2,
            );
        } else {
            assert(ms == 0);
            assert(m * ms == 0) by (nonlinear_arith)
                requires
                    ms == 0,
            {
            }
            vstd::arithmetic::div_mod::lemma_fundamental_div_mod_converse(s / 2, s, 0, s / 2);
        }
    }
}

/// The thumb sits at the top of the track when the viewport is at the top
/// of the document, and at the bottom when the viewport shows its end.
pub proof fn lemma_thumb_ends(scrollbar: RenderedScrollbar)
    ensures
        scrollbar.first_visible_row == 0 ==> scrollbar.thumb_spec().0 == 0,
        scrollbar.first_visible_row >= scrollbar.total_rows - scrollbar.track_rows()
            ==> scrollbar.thumb_spec().1 == scrollbar.track_rows(),
{
    if scrollbar.total_rows > scrollbar.visible_rows {
        lemma_thumb_bounds(scrollbar);
    }
}

/// When the document is longer than the viewport, the thumb's length is the
/// visible share of the track, `visible_rows² / total_rows` cells, rounded
/// up: the least length that covers that share.
pub proof fn lemma_thumb_length(scrollbar: RenderedScrollbar)
    requires
        scrollbar.total_rows > scrollbar.visible_rows,
    ensures
        ({
            let len = scrollbar.thumb_spec().1 - scrollbar.thumb_spec().0;
            let v = scrollbar.track_rows();
            &&& len >= 1
            &&& len * scrollbar.total_rows >= v * v
            &&& len > 1 ==> (len - 1) * scrollbar.total_rows < v * v
        }),
{
    let v = scrollbar.track_rows();
    let t = scrollbar.total_rows as int;
    let sq = v * v;
    assert(sq >= 1) by (nonlinear_arith)
        requires
            v >= 1,
            sq == v * v,
    {
    }
    lemma_ceil_div(sq, t);
    vstd::arithmetic::div_mod::lemma_fundamental_div_mod(sq, t);
    vstd::arithmetic::div_mod::lemma_mod_pos_bound(sq, t);
    vstd::arithmetic::div_mod::lemma_div_pos_is_pos(sq, t);
    let q = sq / t;
    let r = sq % t;
    let c = ceil_div(sq, t);
    assert(sq == q * t + r) by (nonlinear_arith)
        requires
            sq == t * q + r,
    {
    }
    assert(c >= 1) by {
        if q == 0 {
            vstd::arithmetic::mul::lemma_mul_basics(t);
        }
    }
    assert(c * t >= sq && (c > 1 ==> (c - 1) * t < sq)) by (nonlinear_arith)
        requires
            sq == q * t + r,
            0 <= r < t,
            q >= 0,
            c == (if r == 0 {
                q
            } else {
                q + 1
            }),
    {
    }
    assert(scrollbar.thumb_len() == c);
}

/// Scrolling further down never moves the thumb up.
pub proof fn lemma_thumb_start_monotone(a: RenderedScrollbar, b: RenderedScrollbar)
    requires
        a.visible_rows == b.visible_rows,
        a.total_rows == b.total_rows,
        a.total_rows > a.visible_rows,
        a.first_visible_row <= b.first_visible_row,
    ensures
        a.thumb_spec().0 <= b.thumb_spec().0,
{
    let s = a.scrollable_rows();
    let ms = a.max_thumb_start();
    lemma_thumb_bounds(a);
    let ma = min_int(a.first_visible_row as int, s);
    let mb = min_int(b.first_visible_row as int, s);
    assert(ma * ms + s / 2 <= mb * ms + s / 2) by (nonlinear_arith)
        requires
            ma <= mb,
            ms >= 0,
    {
    }
    vstd::arithmetic::div_mod::lemma_div_is_ordered(ma * ms + s / 2, mb * ms + s / 2, s);
}


/// Number of entries of `s` equal to `c`.
pub open spec fn count_value(s: Seq<usize>, c: int) -> nat
    decreases s.len(),
{
    if s.len() == 0 {
        0
    } else {
        count_value(s.drop_last(), c) + if s.last() == c {
            1nat
        } else {
            0nat
        }
    }
}

/// Number of ranges of `rs` that start at `c`.
pub open spec fn count_starts(rs: Seq<Range<usize>>, c: int) -> nat
    decreases rs.len(),
{
    if rs.len() == 0 {
        0
    } else {
        count_starts(rs.drop_last(), c) + if rs.last().start == c {
            1nat
        } else {
            0nat
        }
    }
}

/// Number of ranges of `rs` that end at `c`.
pub open spec fn count_ends(rs: Seq<Range<usize>>, c: int) -> nat
    decreases rs.len(),
{
    if rs.len() == 0 {
        0
    } else {
        count_ends(rs.drop_last(), c) + if rs.last().end == c {
            1nat
        } else {
            0nat
        }
    }
}

/// Some range of `rs` overlaps the columns `a..b`.
pub open spec fn overlaps(rs: Seq<Range<usize>>, a: int, b: int) -> bool {
    exists|i: int| 0 <= i < rs.len() && rs[i].start < b && rs[i].end > a
}

/// `k` copies of `ch`.
pub open spec fn repeat_char(ch: char, k: nat) -> Seq<char> {
    Seq::new(k, |i: int| ch)
}

/// Number of entries of `v` equal to `c`.
pub fn count_value_in(v: &Vec<usize>, c: usize) -> (k: usize)
    ensures
        k == count_value(v@, c as int),
        k <= v@.len(),
{
    let mut k: usize = 0;
    let mut i: usize = 0;
    while i < v.len()
        invariant
            i <= v@.len(),
            k <= i,
            k == count_value(v@.take(i as int), c as int),
        decreases v@.len() - i,
    {
        assert(v@.take(i + 1).drop_last() =~= v@.take(i as int));
        if v[i] == c {
            k = k + 1;
        }
        i = i + 1;
    }
    assert(v@.take(v@.len() as int) =~= v@);
    k
}

/// Number of ranges of `v` that start at `c` (or end at `c` when `ends`).
pub fn count_range_edges_in(v: &Vec<Range<usize>>, c: usize, ends: bool) -> (k: usize)
    ensures
        !ends ==> k == count_starts(v@, c as int),
        ends ==> k == count_ends(v@, c as int),
        k <= v@.len(),
{
    let mut k: usize = 0;
    let mut i: usize = 0;
    while i < v.len()
        invariant
            i <= v@.len(),
            k <= i,
            !ends ==> k == count_starts(v@.take(i as int), c as int),
            ends ==> k == count_ends(v@.take(i as int), c as int),
        decreases v@.len() - i,
    {
        assert(v@.take(i + 1).drop_last() =~= v@.take(i as int));
        let edge = if ends {
            v[i].end
        } else {
            v[i].start
        };
        if edge == c {
            k = k + 1;
        }
        i = i + 1;
    }
    assert(v@.take(v@.len() as int) =~= v@);
    k
}

/// Whether some range of `v` overlaps the columns `a..b`.
pub fn overlaps_in(v: &Vec<Range<usize>>, a: usize, b: usize) -> (r: bool)
    ensures
        r == overlaps(v@, a as int, b as int),
{
    let mut i: usize = 0;
    while i < v.len()
        invariant
            i <= v@.len(),
            forall|j: int| 0 <= j < i ==> !(v@[j].start < b && v@[j].end > a),
        decreases v@.len() - i,
    {
        if v[i].start < b && v[i].end > a {
            return true;
        }
        i = i + 1;
    }
    false
}

/// Appends `k` copies of `ch` to `out`.
pub fn push_repeat(out: &mut String, ch: char, k: usize)
    ensures
        final(out)@ == old(out)@ + repeat_char(ch, k as nat),
{
    let mut j: usize = 0;
    while j < k
        invariant
            j <= k,
            out@ == old(out)@ + repeat_char(ch, j as nat),
        decreases k - j,
    {
        string_push(out, ch);
        assert(repeat_char(ch, (j + 1) as nat) =~= repeat_char(ch, j as nat).push(ch));
        assert(old(out)@ + repeat_char(ch, (j + 1) as nat) =~= (old(out)@ + repeat_char(
            ch,
            j as nat,
        )).push(ch));
        j = j + 1;
    }
}

/// One display row of the editor: its text, the columns of its cursors and
/// the display columns covered by selections and by IME composition.
#[derive(Clone, Debug, PartialEq, Eq)]
pub struct RenderedLine {
    pub line_number: usize,
    pub text: String,
    pub continuation: bool,
    pub cursor_columns: Vec<usize>,
    pub active_cursor_columns: Vec<usize>,
    pub selection_ranges: Vec<Range<usize>>,
    pub marked_ranges: Vec<Range<usize>>,
}

/// A run of text, or a zero-width cursor, drawn with one style.
#[derive(Clone, Debug, PartialEq, Eq)]
pub struct RenderedLineFragment {
    pub text: String,
    pub selected: bool,
    pub marked: bool,
    pub cursor: bool,
    pub active_cursor: bool,
}

/// The value of a [`RenderedLineFragment`].
pub struct FragmentView {
    pub text: Seq<char>,
    pub selected: bool,
    pub marked: bool,
    pub cursor: bool,
    pub active_cursor: bool,
}

impl View for RenderedLineFragment {
    type V = FragmentView;

    open spec fn view(&self) -> FragmentView {
        FragmentView {
            text: self.text@,
            selected: self.selected,
            marked: self.marked,
            cursor: self.cursor,
            active_cursor: self.active_cursor,
        }
    }
}

pub open spec fn fragment_views(v: Seq<RenderedLineFragment>) -> Seq<FragmentView> {
    Seq::new(v.len(), |i: int| v[i]@)
}

/// The texts of `fragments`, one after another.
pub open spec fn fragments_text(fragments: Seq<FragmentView>) -> Seq<char>
    decreases fragments.len(),
{
    if fragments.len() == 0 {
        Seq::empty()
    } else {
        fragments_text(fragments.drop_last()) + fragments.last().text
    }
}

proof fn lemma_fragments_text_concat(a: Seq<FragmentView>, b: Seq<FragmentView>)
    ensures
        fragments_text(a + b) == fragments_text(a) + fragments_text(b),
    decreases b.len(),
{
    if b.len() == 0 {
        assert(a + b =~= a);
        assert(fragments_text(a) + Seq::<char>::empty() =~= fragments_text(a));
    } else {
        assert((a + b).drop_last() =~= a + b.drop_last());
        lemma_fragments_text_concat(a, b.drop_last());
        assert(fragments_text(a) + fragments_text(b) =~= fragments_text(a) + fragments_text(
            b.drop_last(),
        ) + b.last().text);
    }
}

impl RenderedLine {
    proof fn lemma_cursor_fragments_text(self, c: int)
        ensures
            fragments_text(self.cursor_fragments(c)) == Seq::<char>::empty(),
    {
        let fs = self.cursor_fragments(c);
        assert forall|k: int| 0 <= k <= fs.len() implies fragments_text(#[trigger] fs.take(k))
            == Seq::<char>::empty() by {
            lemma_prefix_text_empty(fs, k);
        }
        assert(fs.take(fs.len() as int) =~= fs);
    }

    proof fn lemma_fragments_after_text(self, start: int, c: int)
        requires
            0 <= start < c,
            start < self.text@.len(),
            c <= self.text@.len() + 1,
        ensures
            fragments_text(self.fragments_after(start, c)) == self.text@.subrange(
                start,
                self.text@.len() as int,
            ),
        decreases self.text@.len() - c,
    {
        let n = self.text@.len() as int;
        if c >= n {
            lemma_fragments_text_concat(seq![self.text_fragment(start, n)], self.cursor_fragments(n));
            self.lemma_cursor_fragments_text(n);
            lemma_fragments_text_single(self.text_fragment(start, n));
        } else if self.is_boundary(c) {
            let head = seq![self.text_fragment(start, c)] + self.cursor_fragments(c);
            self.lemma_fragments_after_text(c, c + 1);
            lemma_fragments_text_concat(head, self.fragments_after(c, c + 1));
            lemma_fragments_text_concat(seq![self.text_fragment(start, c)], self.cursor_fragments(c));
            self.lemma_cursor_fragments_text(c);
            lemma_fragments_text_single(self.text_fragment(start, c));
            assert(self.text@.subrange(start, c) + self.text@.subrange(c, n) =~= self.text@.subrange(
                start,
                n,
            ));
        } else {
            self.lemma_fragments_after_text(start, c + 1);
        }
    }

    /// The visual fragments of a line, read one after another, give back
    /// its text: cursors add nothing and no character is lost or repeated.
    pub proof fn lemma_visual_fragments_text(self)
        ensures
            fragments_text(self.visual_fragments_spec()) == self.text@,
    {
        self.lemma_cursor_fragments_text(0);
        if self.text@.len() == 0 {
            if self.all_fragments().len() == 0 {
                lemma_fragments_text_single(empty_fragment_view());
            }
            assert(self.text@ =~= Seq::<char>::empty());
        } else {
            self.lemma_fragments_after_text(0, 1);
            lemma_fragments_text_concat(self.cursor_fragments(0), self.fragments_after(0, 1));
            assert(self.text@.subrange(0, self.text@.len() as int) =~= self.text@);
            assert(Seq::<char>::empty() + self.text@ =~= self.text@);
        }
    }
}

/// Number of cursor fragments among `fragments`.
pub open spec fn cursor_fragment_count(fragments: Seq<FragmentView>) -> nat
    decreases fragments.len(),
{
    if fragments.len() == 0 {
        0
    } else {
        cursor_fragment_count(fragments.drop_last()) + if fragments.last().cursor {
            1nat
        } else {
            0nat
        }
    }
}

/// Number of entries of `s` that are at most `n`.
pub open spec fn count_at_most(s: Seq<usize>, n: int) -> nat
    decreases s.len(),
{
    if s.len() == 0 {
        0
    } else {
        count_at_most(s.drop_last(), n) + if s.last() <= n {
            1nat
        } else {
            0nat
        }
    }
}

/// A cursor fragment has no text and no selection or composition style; a
/// text fragment is no cursor.
pub open spec fn fragment_flags_ok(f: FragmentView) -> bool {
    if f.cursor {
        f.text == Seq::<char>::empty() && !f.selected && !f.marked
    } else {
        !f.active_cursor
    }
}

/// Number of entries of `s` equal to one of `a..=n`.
pub open spec fn cursor_sum(s: Seq<usize>, a: int, n: int) -> nat
    decreases n + 1 - a,
{
    if a > n {
        0
    } else {
        count_value(s, a) + cursor_sum(s, a + 1, n)
    }
}

proof fn lemma_cursor_sum_split(s: Seq<usize>, a: int, n: int)
    ensures
        s.len() == 0 ==> cursor_sum(s, a, n) == 0,
        s.len() > 0 ==> cursor_sum(s, a, n) == cursor_sum(s.drop_last(), a, n) + if a <= s.last()
            <= n {
            1nat
        } else {
            0nat
        },
    decreases n + 1 - a,
{
    if a <= n {
        lemma_cursor_sum_split(s, a + 1, n);
    }
}

proof fn lemma_cursor_sum_count(s: Seq<usize>, n: int)
    requires
        n >= 0,
    ensures
        cursor_sum(s, 0, n) == count_at_most(s, n),
    decreases s.len(),
{
    lemma_cursor_sum_split(s, 0, n);
    if s.len() > 0 {
        lemma_cursor_sum_count(s.drop_last(), n);
    }
}

proof fn lemma_cursor_count_concat(a: Seq<FragmentView>, b: Seq<FragmentView>)
    ensures
        cursor_fragment_count(a + b) == cursor_fragment_count(a) + cursor_fragment_count(b),
    decreases b.len(),
{
    if b.len() == 0 {
        assert(a + b =~= a);
    } else {
        assert((a + b).drop_last() =~= a + b.drop_last());
        lemma_cursor_count_concat(a, b.drop_last());
    }
}

proof fn lemma_all_cursors_count(fs: Seq<FragmentView>, k: int)
    requires
        0 <= k <= fs.len(),
        forall|i: int| 0 <= i < fs.len() ==> fs[i].cursor,
    ensures
        cursor_fragment_count(fs.take(k)) == k,
    decreases k,
{
    if k > 0 {
        assert(fs.take(k).drop_last() =~= fs.take(k - 1));
        lemma_all_cursors_count(fs, k - 1);
    }
}

proof fn lemma_cursor_count_single(f: FragmentView)
    ensures
        cursor_fragment_count(seq![f]) == if f.cursor {
            1nat
        } else {
            0nat
        },
{
    assert(seq![f].drop_last() =~= Seq::<FragmentView>::empty());
    reveal_with_fuel(cursor_fragment_count, 2);
}

impl RenderedLine {
    proof fn lemma_cursor_fragments_shape(self, c: int)
        ensures
            cursor_fragment_count(self.cursor_fragments(c)) == count_value(self.cursor_columns@, c),
            forall|i: int|
                0 <= i < self.cursor_fragments(c).len() ==> fragment_flags_ok(
                    #[trigger] self.cursor_fragments(c)[i],
                ),
    {
        let fs = self.cursor_fragments(c);
        lemma_all_cursors_count(fs, fs.len() as int);
        assert(fs.take(fs.len() as int) =~= fs);
    }

    proof fn lemma_fragments_after_shape(self, start: int, c: int)
        requires
            0 <= start < c <= self.text@.len(),
        ensures
            self.fragments_after(start, c).len() > 0,
            cursor_fragment_count(self.fragments_after(start, c)) == cursor_sum(
                self.cursor_columns@,
                c,
                self.text@.len() as int,
            ),
            forall|i: int|
                0 <= i < self.fragments_after(start, c).len() ==> fragment_flags_ok(
                    #[trigger] self.fragments_after(start, c)[i],
                ),
        decreases self.text@.len() - c,
    {
        let n = self.text@.len() as int;
        if c >= n {
            let head = seq![self.text_fragment(start, n)];
            let tail = self.cursor_fragments(n);
            lemma_cursor_count_concat(head, tail);
            lemma_cursor_count_single(self.text_fragment(start, n));
            self.lemma_cursor_fragments_shape(n);
            assert(cursor_sum(self.cursor_columns@, n + 1, n) == 0);
            assert forall|i: int| 0 <= i < (head + tail).len() implies fragment_flags_ok(
                #[trigger] (head + tail)[i],
            ) by {
                if i >= 1 {
                    assert((head + tail)[i] == tail[i - 1]);
                }
            }
        } else if self.is_boundary(c) {
            let head = seq![self.text_fragment(start, c)];
            let mid = self.cursor_fragments(c);
            let rest = self.fragments_after(c, c + 1);
            self.lemma_fragments_after_shape(c, c + 1);
            lemma_cursor_count_concat(head + mid, rest);
            lemma_cursor_count_concat(head, mid);
            lemma_cursor_count_single(self.text_fragment(start, c));
            self.lemma_cursor_fragments_shape(c);
            assert forall|i: int| 0 <= i < (head + mid + rest).len() implies fragment_flags_ok(
                #[trigger] (head + mid + rest)[i],
            ) by {
                if i >= 1 && i < 1 + mid.len() {
                    assert((head + mid + rest)[i] == mid[i - 1]);
                } else if i >= 1 + mid.len() {
                    assert((head + mid + rest)[i] == rest[i - 1 - mid.len()]);
                }
            }
        } else {
            self.lemma_fragments_after_shape(start, c + 1);
            assert(count_value(self.cursor_columns@, c) == 0);
        }
    }

    /// The visual fragments of a line: at least one; one cursor fragment
    /// for each cursor column at or before the end of the text (none past
    /// it); cursor fragments carry no text and are neither selected nor
    /// marked; text fragments are no cursors.
    pub proof fn lemma_visual_fragments_shape(self)
        ensures
            self.visual_fragments_spec().len() > 0,
            cursor_fragment_count(self.visual_fragments_spec()) == count_at_most(
                self.cursor_columns@,
                self.text@.len() as int,
            ),
            forall|i: int|
                0 <= i < self.visual_fragments_spec().len() ==> fragment_flags_ok(
                    #[trigger] self.visual_fragments_spec()[i],
                ),
    {
        let n = self.text@.len() as int;
        self.lemma_cursor_fragments_shape(0);
        lemma_cursor_sum_count(self.cursor_columns@, n);
        if n == 0 {
            assert(cursor_sum(self.cursor_columns@, 1, 0) == 0);
            if self.all_fragments().len() == 0 {
                lemma_cursor_count_single(empty_fragment_view());
            }
        } else {
            let head = self.cursor_fragments(0);
            let rest = self.fragments_after(0, 1);
            self.lemma_fragments_after_shape(0, 1);
            lemma_cursor_count_concat(head, rest);
            assert forall|i: int| 0 <= i < (head + rest).len() implies fragment_flags_ok(
                #[trigger] (head + rest)[i],
            ) by {
                if i >= head.len() {
                    assert((head + rest)[i] == rest[i - head.len()]);
                }
            }
        }
    }
}

/// One fragment's text is its own.
proof fn lemma_fragments_text_single(f: FragmentView)
    ensures
        fragments_text(seq![f]) == f.text,
{
    assert(seq![f].drop_last() =~= Seq::<FragmentView>::empty());
    reveal_with_fuel(fragments_text, 2);
    assert(Seq::<char>::empty() + f.text =~= f.text);
}

/// A prefix of fragments without text has no text.
proof fn lemma_prefix_text_empty(fs: Seq<FragmentView>, k: int)
    requires
        0 <= k <= fs.len(),
        forall|i: int| 0 <= i < fs.len() ==> fs[i].text == Seq::<char>::empty(),
    ensures
        fragments_text(fs.take(k)) == Seq::<char>::empty(),
    decreases k,
{
    if k > 0 {
        assert(fs.take(k).drop_last() =~= fs.take(k - 1));
        lemma_prefix_text_empty(fs, k - 1);
        assert(Seq::<char>::empty() + fs[k - 1].text =~= Seq::<char>::empty());
    }
}

pub open spec fn empty_fragment_view() -> FragmentView {
    FragmentView {
        text: Seq::empty(),
        selected: false,
        marked: false,
        cursor: false,
        active_cursor: false,
    }
}

/// What an overlay drawn over a line's text stands for.
#[derive(Clone, Copy, Debug, PartialEq, Eq)]
pub enum RenderedLineOverlayKind {
    Selection,
    Marked,
    Cursor { active: bool },
}

/// A box drawn over `column_span` display columns from `start_column`.
#[derive(Clone, Copy, Debug, PartialEq, Eq)]
pub struct RenderedLineOverlay {
    pub start_column: usize,
    pub column_span: usize,
    pub kind: RenderedLineOverlayKind,
}

impl RenderedLine {
    /// The markers drawn at column `c`, left to right: marked-range starts,
    /// selection starts, marked-range ends, selection ends, cursors.
    pub open spec fn markers_at(self, c: int) -> Seq<char> {
        repeat_char('{', count_starts(self.marked_ranges@, c)) + repeat_char(
            '[',
            count_starts(self.selection_ranges@, c),
        ) + repeat_char('}', count_ends(self.marked_ranges@, c)) + repeat_char(
            ']',
            count_ends(self.selection_ranges@, c),
        ) + repeat_char('|', count_value(self.cursor_columns@, c))
    }

    /// The text from column `i` on, with the markers of each column before
    /// the character at that column.
    pub open spec fn overlay_text_from(self, i: int) -> Seq<char>
        decreases self.text@.len() - i,
    {
        if i >= self.text@.len() {
            self.markers_at(self.text@.len() as int)
        } else {
            self.markers_at(i) + seq![self.text@[i]] + self.overlay_text_from(i + 1)
        }
    }

    /// `|` at column `c` when some cursor is there.
    pub open spec fn cursor_mark_at(self, c: int) -> Seq<char> {
        if count_value(self.cursor_columns@, c) > 0 {
            seq!['|']
        } else {
            Seq::empty()
        }
    }

    /// The text from column `i` on, with one `|` before each column that
    /// holds a cursor.
    pub open spec fn cursor_text_from(self, i: int) -> Seq<char>
        decreases self.text@.len() - i,
    {
        if i >= self.text@.len() {
            self.cursor_mark_at(self.text@.len() as int)
        } else {
            self.cursor_mark_at(i) + seq![self.text@[i]] + self.cursor_text_from(i + 1)
        }
    }

    /// The text with `|` at each cursor column (cursors past the end of the
    /// text are not drawn; several cursors at one column give one `|`).
    pub fn text_with_cursors(&self) -> (r: String)
        ensures
            r@ == self.cursor_text_from(0),
    {
        let chars = chars_of(self.text.as_str());
        let n = chars.len();
        let mut out = String::new();
        let mut i: usize = 0;
        while i < n
            invariant
                i <= n,
                n == chars@.len(),
                chars@ == self.text@,
                self.cursor_text_from(0) == out@ + self.cursor_text_from(i as int),
            decreases n - i,
        {
            let ghost before = out@;
            if count_value_in(&self.cursor_columns, i) > 0 {
                string_push(&mut out, '|');
            }
            string_push(&mut out, chars[i]);
            assert(out@ == before + self.cursor_mark_at(i as int) + seq![self.text@[i as int]]);
            assert(self.cursor_text_from(i as int) == self.cursor_mark_at(i as int) + seq![
                self.text@[i as int],
            ] + self.cursor_text_from(i + 1));
            assert(out@ + self.cursor_text_from(i + 1) =~= before + self.cursor_text_from(
                i as int,
            ));
            i = i + 1;
        }
        if count_value_in(&self.cursor_columns, n) > 0 {
            string_push(&mut out, '|');
        }
        out
    }

    /// Appends the markers drawn at column `c` to `out`.
    fn push_markers(&self, out: &mut String, c: usize)
        ensures
            final(out)@ == old(out)@ + self.markers_at(c as int),
    {
        push_repeat(out, '{', count_range_edges_in(&self.marked_ranges, c, false));
        push_repeat(out, '[', count_range_edges_in(&self.selection_ranges, c, false));
        push_repeat(out, '}', count_range_edges_in(&self.marked_ranges, c, true));
        push_repeat(out, ']', count_range_edges_in(&self.selection_ranges, c, true));
        push_repeat(out, '|', count_value_in(&self.cursor_columns, c));
        assert(final(out)@ =~= old(out)@ + self.markers_at(c as int));
    }

    /// The text with the overlays written into it: `[`/`]` around
    /// selections, `{`/`}` around marked ranges and `|` at cursors. Markers
    /// past the end of the text are not drawn.
    pub fn text_with_overlays(&self) -> (r: String)
        ensures
            r@ == self.overlay_text_from(0),
    {
        let chars = chars_of(self.text.as_str());
        let n = chars.len();
        let mut out = String::new();
        let mut i: usize = 0;
        while i < n
            invariant
                i <= n,
                n == chars@.len(),
                chars@ == self.text@,
                self.overlay_text_from(0) == out@ + self.overlay_text_from(i as int),
            decreases n - i,
        {
            let ghost before = out@;
            self.push_markers(&mut out, i);
            string_push(&mut out, chars[i]);
            assert(self.overlay_text_from(i as int) == self.markers_at(i as int) + seq![
                self.text@[i as int],
            ] + self.overlay_text_from(i + 1));
            assert(out@ + self.overlay_text_from(i + 1) =~= before + self.overlay_text_from(
                i as int,
            ));
            i = i + 1;
        }
        self.push_markers(&mut out, n);
        out
    }

    /// Column `c` starts or ends a fragment: the line's ends, the edges of
    /// selections and marked ranges, and cursor columns.
    pub open spec fn is_boundary(self, c: int) -> bool {
        let n = self.text@.len();
        c == 0 || c == n || (0 <= c <= n && count_starts(self.selection_ranges@, c) + count_ends(
            self.selection_ranges@,
            c,
        ) + count_starts(self.marked_ranges@, c) + count_ends(self.marked_ranges@, c)
            + count_value(self.cursor_columns@, c) > 0)
    }

    /// One zero-width fragment per cursor at column `c`; the first is the
    /// active cursor when an active cursor is at `c`.
    pub open spec fn cursor_fragments(self, c: int) -> Seq<FragmentView> {
        Seq::new(
            count_value(self.cursor_columns@, c),
            |k: int|
                FragmentView {
                    text: Seq::empty(),
                    selected: false,
                    marked: false,
                    cursor: true,
                    active_cursor: k == 0 && count_value(self.active_cursor_columns@, c) > 0,
                },
        )
    }

    /// The text of columns `a..b`, selected or marked when some selection or
    /// marked range overlaps it.
    pub open spec fn text_fragment(self, a: int, b: int) -> FragmentView {
        FragmentView {
            text: self.text@.subrange(a, b),
            selected: overlaps(self.selection_ranges@, a, b),
            marked: overlaps(self.marked_ranges@, a, b),
            cursor: false,
            active_cursor: false,
        }
    }

    /// Fragments of the line after boundary `start`, whose cursors are
    /// already placed, scanning columns from `c`.
    pub open spec fn fragments_after(self, start: int, c: int) -> Seq<FragmentView>
        decreases self.text@.len() - c,
    {
        let n = self.text@.len() as int;
        if c >= n {
            seq![self.text_fragment(start, n)] + self.cursor_fragments(n)
        } else if self.is_boundary(c) {
            seq![self.text_fragment(start, c)] + self.cursor_fragments(c) + self.fragments_after(
                c,
                c + 1,
            )
        } else {
            self.fragments_after(start, c + 1)
        }
    }

    /// Cursors and text runs of the line, left to right.
    pub open spec fn all_fragments(self) -> Seq<FragmentView> {
        if self.text@.len() == 0 {
            self.cursor_fragments(0)
        } else {
            self.cursor_fragments(0) + self.fragments_after(0, 1)
        }
    }

    pub open spec fn visual_fragments_spec(self) -> Seq<FragmentView> {
        if self.all_fragments().len() == 0 {
            seq![empty_fragment_view()]
        } else {
            self.all_fragments()
        }
    }

    fn is_boundary_exec(&self, c: usize, n: usize) -> (r: bool)
        requires
            n == self.text@.len(),
            0 < c < n,
        ensures
            r == self.is_boundary(c as int),
    {
        let a = count_range_edges_in(&self.selection_ranges, c, false);
        let b = count_range_edges_in(&self.selection_ranges, c, true);
        let d = count_range_edges_in(&self.marked_ranges, c, false);
        let e = count_range_edges_in(&self.marked_ranges, c, true);
        let f = count_value_in(&self.cursor_columns, c);
        a > 0 || b > 0 || d > 0 || e > 0 || f > 0
    }

    /// Splits the line into runs of text with one style each, with a
    /// zero-width fragment for every cursor placed between them.
    pub fn visual_fragments(&self) -> (r: Vec<RenderedLineFragment>)
        ensures
            fragment_views(r@) == self.visual_fragments_spec(),
    {
        let chars = chars_of(self.text.as_str());
        let n = chars.len();
        let mut fragments: Vec<RenderedLineFragment> = Vec::new();
        assert(fragment_views(fragments@) =~= Seq::<FragmentView>::empty());
        self.push_cursor_fragment(0, &mut fragments);
        if n > 0 {
            let mut start: usize = 0;
            let mut c: usize = 1;
            while c < n
                invariant
                    1 <= c <= n,
                    start < c,
                    n == chars@.len(),
                    chars@ == self.text@,
                    self.all_fragments() == fragment_views(fragments@) + self.fragments_after(
                        start as int,
                        c as int,
                    ),
                decreases n - c,
            {
                let ghost before = fragment_views(fragments@);
                if self.is_boundary_exec(c, n) {
                    let fragment = self.text_fragment_exec(&chars, start, c);
                    fragments.push(fragment);
                    assert(fragment_views(fragments@) =~= before.push(fragment@));
                    self.push_cursor_fragment(c, &mut fragments);
                    assert(fragment_views(fragments@) + self.fragments_after(c as int, c + 1)
                        =~= before + self.fragments_after(start as int, c as int));
                    start = c;
                }
                c = c + 1;
            }
            let ghost before = fragment_views(fragments@);
            let fragment = self.text_fragment_exec(&chars, start, n);
            fragments.push(fragment);
            assert(fragment_views(fragments@) =~= before.push(fragment@));
            self.push_cursor_fragment(n, &mut fragments);
            assert(fragment_views(fragments@) =~= before + self.fragments_after(
                start as int,
                c as int,
            ));
        } else {
            assert(self.all_fragments() =~= fragment_views(fragments@));
        }
        if fragments.len() == 0 {
            fragments.push(
                RenderedLineFragment {
                    text: String::new(),
                    selected: false,
                    marked: false,
                    cursor: false,
                    active_cursor: false,
                },
            );
            assert(fragment_views(fragments@) =~= seq![empty_fragment_view()]);
        }
        fragments
    }

    fn text_fragment_exec(&self, chars: &Vec<char>, start: usize, end: usize) -> (r:
        RenderedLineFragment)
        requires
            chars@ == self.text@,
            start < end <= chars@.len(),
        ensures
            r@ == self.text_fragment(start as int, end as int),
    {
        RenderedLineFragment {
            text: string_from_chars(chars, start, end),
            selected: self.range_is_selected(start..end),
            marked: self.range_is_marked(start..end),
            cursor: false,
            active_cursor: false,
        }
    }

    /// Appends one cursor fragment per cursor at `column`.
    pub fn push_cursor_fragment(&self, column: usize, fragments: &mut Vec<RenderedLineFragment>)
        ensures
            fragment_views(final(fragments)@) == fragment_views(old(fragments)@)
                + self.cursor_fragments(column as int),
    {
        let cursor_count = count_value_in(&self.cursor_columns, column);
        let active_cursor = count_value_in(&self.active_cursor_columns, column) > 0;
        let mut cursor_index: usize = 0;
        while cursor_index < cursor_count
            invariant
                cursor_index <= cursor_count,
                cursor_count == count_value(self.cursor_columns@, column as int),
                active_cursor == (count_value(self.active_cursor_columns@, column as int) > 0),
                fragment_views(fragments@) == fragment_views(old(fragments)@)
                    + self.cursor_fragments(column as int).take(cursor_index as int),
            decreases cursor_count - cursor_index,
        {
            let ghost before = fragments@;
            fragments.push(
                RenderedLineFragment {
                    text: String::new(),
                    selected: false,
                    marked: false,
                    cursor: true,
                    active_cursor: active_cursor && cursor_index == 0,
                },
            );
            assert(fragments@[fragments@.len() - 1]@ == self.cursor_fragments(
                column as int,
            )[cursor_index as int]);
            assert(fragment_views(fragments@) =~= fragment_views(before).push(
                fragments@[fragments@.len() - 1]@,
            ));
            assert(self.cursor_fragments(column as int).take(cursor_index + 1)
                =~= self.cursor_fragments(column as int).take(cursor_index as int).push(
                self.cursor_fragments(column as int)[cursor_index as int],
            ));
            assert(fragment_views(fragments@) =~= fragment_views(old(fragments)@)
                + self.cursor_fragments(column as int).take(cursor_index + 1));
            cursor_index = cursor_index + 1;
        }
        assert(self.cursor_fragments(column as int).take(cursor_count as int)
            =~= self.cursor_fragments(column as int));
    }

    /// Some selection overlaps the columns `range`.
    pub fn range_is_selected(&self, range: Range<usize>) -> (r: bool)
        ensures
            r == overlaps(self.selection_ranges@, range.start as int, range.end as int),
    {
        overlaps_in(&self.selection_ranges, range.start, range.end)
    }

    /// Some marked range overlaps the columns `range`.
    pub fn range_is_marked(&self, range: Range<usize>) -> (r: bool)
        ensures
            r == overlaps(self.marked_ranges@, range.start as int, range.end as int),
    {
        overlaps_in(&self.marked_ranges, range.start, range.end)
    }

    /// Overlay `j` is the cursor box for its column: zero-width, active when
    /// no cursor box from index `k` before it has the same column and an
    /// active cursor is at that column.
    pub open spec fn cursor_overlay_ok(self, overlays: Seq<RenderedLineOverlay>, k: int, j: int) -> bool {
        overlays[j].column_span == 0 && overlays[j].kind == (RenderedLineOverlayKind::Cursor {
            active: (forall|l: int|
                k <= l < j ==> overlays[l].start_column != overlays[j].start_column) && count_value(
                self.active_cursor_columns@,
                overlays[j].start_column as int,
            ) > 0,
        })
    }

    /// Columns of the cursor overlays among `overlays`, which start at index `k`.
    pub open spec fn overlay_columns(overlays: Seq<RenderedLineOverlay>, k: int) -> Seq<usize> {
        overlays.subrange(k, overlays.len() as int).map_values(
            |o: RenderedLineOverlay| o.start_column,
        )
    }

    /// Boxes drawn over the text: one per selection and per marked range, in
    /// their order, then one per cursor by ascending column. A cursor box is
    /// the active one when it is the first at its column and an active cursor
    /// is there.
    pub fn overlays(&self) -> (r: Vec<RenderedLineOverlay>)
        ensures
            ({
                let sel = self.selection_ranges@;
                let marked = self.marked_ranges@;
                let k = sel.len() + marked.len();
                &&& r@.len() == k + self.cursor_columns@.len()
                &&& forall|i: int|
                    0 <= i < sel.len() ==> r@[i] == (RenderedLineOverlay {
                        start_column: sel[i].start,
                        column_span: span_of(sel[i]),
                        kind: RenderedLineOverlayKind::Selection,
                    })
                &&& forall|i: int|
                    0 <= i < marked.len() ==> r@[sel.len() + i] == (RenderedLineOverlay {
                        start_column: marked[i].start,
                        column_span: span_of(marked[i]),
                        kind: RenderedLineOverlayKind::Marked,
                    })
                &&& sorted(Self::overlay_columns(r@, k as int))
                &&& Self::overlay_columns(r@, k as int).to_multiset()
                    == self.cursor_columns@.to_multiset()
                &&& forall|i: int|
                    k <= i < r@.len() ==> r@[i].column_span == 0 && r@[i].kind == (
                    RenderedLineOverlayKind::Cursor {
                        active: (forall|j: int|
                            k <= j < i ==> r@[j].start_column != r@[i].start_column) && count_value(
                            self.active_cursor_columns@,
                            r@[i].start_column as int,
                        ) > 0,
                    })
            }),
    {
        let mut overlays: Vec<RenderedLineOverlay> = Vec::new();
        let mut i: usize = 0;
        while i < self.selection_ranges.len()
            invariant
                i <= self.selection_ranges@.len(),
                overlays@.len() == i,
                forall|j: int|
                    0 <= j < i ==> overlays@[j] == (RenderedLineOverlay {
                        start_column: self.selection_ranges@[j].start,
                        column_span: span_of(self.selection_ranges@[j]),
                        kind: RenderedLineOverlayKind::Selection,
                    }),
            decreases self.selection_ranges@.len() - i,
        {
            let range = &self.selection_ranges[i];
            overlays.push(
                RenderedLineOverlay {
                    start_column: range.start,
                    column_span: range.end.saturating_sub(range.start),
                    kind: RenderedLineOverlayKind::Selection,
                },
            );
            i = i + 1;
        }
        let sel_len = self.selection_ranges.len();
        let mut i: usize = 0;
        while i < self.marked_ranges.len()
            invariant
                sel_len == self.selection_ranges@.len(),
                i <= self.marked_ranges@.len(),
                overlays@.len() == sel_len + i,
                forall|j: int|
                    0 <= j < sel_len ==> overlays@[j] == (RenderedLineOverlay {
                        start_column: self.selection_ranges@[j].start,
                        column_span: span_of(self.selection_ranges@[j]),
                        kind: RenderedLineOverlayKind::Selection,
                    }),
                forall|j: int|
                    0 <= j < i ==> overlays@[sel_len + j] == (RenderedLineOverlay {
                        start_column: self.marked_ranges@[j].start,
                        column_span: span_of(self.marked_ranges@[j]),
                        kind: RenderedLineOverlayKind::Marked,
                    }),
            decreases self.marked_ranges@.len() - i,
        {
            let range = &self.marked_ranges[i];
            overlays.push(
                RenderedLineOverlay {
                    start_column: range.start,
                    column_span: range.end.saturating_sub(range.start),
                    kind: RenderedLineOverlayKind::Marked,
                },
            );
            i = i + 1;
        }
        let k = overlays.len();
        let sorted_columns = sorted_copy(&self.cursor_columns);
        let mut i: usize = 0;
        while i < sorted_columns.len()
            invariant
                sel_len == self.selection_ranges@.len(),
                k == sel_len + self.marked_ranges@.len(),
                sorted(sorted_columns@),
                sorted_columns@.len() == self.cursor_columns@.len(),
                i <= sorted_columns@.len(),
                overlays@.len() == k + i,
                forall|j: int|
                    0 <= j < sel_len ==> overlays@[j] == (RenderedLineOverlay {
                        start_column: self.selection_ranges@[j].start,
                        column_span: span_of(self.selection_ranges@[j]),
                        kind: RenderedLineOverlayKind::Selection,
                    }),
                forall|j: int|
                    0 <= j < self.marked_ranges@.len() ==> overlays@[sel_len + j] == (
                    RenderedLineOverlay {
                        start_column: self.marked_ranges@[j].start,
                        column_span: span_of(self.marked_ranges@[j]),
                        kind: RenderedLineOverlayKind::Marked,
                    }),
                forall|j: int| 0 <= j < i ==> overlays@[k + j].start_column == sorted_columns@[j],
                forall|j: int|
                    k <= j < k + i ==> #[trigger] self.cursor_overlay_ok(overlays@, k as int, j),
            decreases sorted_columns@.len() - i,
        {
            let column = sorted_columns[i];
            let first_at_column = i == 0 || sorted_columns[i - 1] != column;
            proof {
                if first_at_column {
                    assert forall|l: int| k <= l < k + i implies overlays@[l].start_column
                        != column by {
                        assert(sorted_columns@[l - k] <= sorted_columns@[i - 1]);
                        assert(sorted_columns@[i - 1] <= sorted_columns@[i as int]);
                    }
                } else {
                    assert(overlays@[k + i - 1].start_column == column);
                }
            }
            let active = first_at_column && count_value_in(&self.active_cursor_columns, column)
                > 0;
            let ghost before = overlays@;
            overlays.push(
                RenderedLineOverlay {
                    start_column: column,
                    column_span: 0,
                    kind: RenderedLineOverlayKind::Cursor { active },
                },
            );
            proof {
                assert forall|j: int| k <= j < k + i + 1 implies #[trigger] self.cursor_overlay_ok(
                    overlays@,
                    k as int,
                    j,
                ) by {
                    assert forall|l: int| k <= l < j implies overlays@[l] == before[l] by {}
                    if j < k + i {
                        assert(self.cursor_overlay_ok(before, k as int, j));
                        assert(overlays@[j] == before[j]);
                    } else if first_at_column {
                        assert forall|l: int| k <= l < j implies overlays@[l].start_column
                            != column by {
                            assert(before[l].start_column != column);
                        }
                    } else {
                        assert(overlays@[k + i - 1].start_column == column);
                    }
                }
            }
            i = i + 1;
        }
        proof {
            assert(Self::overlay_columns(overlays@, k as int) =~= sorted_columns@);
            assert forall|j: int| k <= j < overlays@.len() implies overlays@[j].column_span == 0
                && overlays@[j].kind == (RenderedLineOverlayKind::Cursor {
                active: (forall|l: int|
                    k <= l < j ==> overlays@[l].start_column != overlays@[j].start_column)
                    && count_value(self.active_cursor_columns@, overlays@[j].start_column as int)
                    > 0,
            }) by {
                assert(self.cursor_overlay_ok(overlays@, k as int, j));
            }
        }
        overlays
    }
}

/// Columns covered by `range`; none when it is reversed.
pub open spec fn span_of(range: Range<usize>) -> usize {
    if range.end > range.start {
        (range.end - range.start) as usize
    } else {
        0
    }
}

/// `s` is in ascending order.
pub open spec fn sorted(s: Seq<usize>) -> bool {
    forall|i: int, j: int| 0 <= i <= j < s.len() ==> s[i] <= s[j]
}

/// The entries of `v` in ascending order.
pub fn sorted_copy(v: &Vec<usize>) -> (r: Vec<usize>)
    ensures
        sorted(r@),
        r@.to_multiset() == v@.to_multiset(),
        r@.len() == v@.len(),
{
    broadcast use vstd::seq_lib::group_to_multiset_ensures;

    let mut r: Vec<usize> = Vec::new();
    let mut i: usize = 0;
    assert(v@.take(0) =~= Seq::<usize>::empty());
    while i < v.len()
        invariant
            i <= v@.len(),
            sorted(r@),
            r@.len() == i,
            r@.to_multiset() == v@.take(i as int).to_multiset(),
        decreases v@.len() - i,
    {
        let x = v[i];
        let mut p: usize = 0;
        while p < r.len() && r[p] <= x
            invariant
                p <= r@.len(),
                forall|j: int| 0 <= j < p ==> r@[j] <= x,
            decreases r@.len() - p,
        {
            p = p + 1;
        }
        let ghost old_r = r@;
        r.insert(p, x);
        proof {
            vstd::seq_lib::to_multiset_insert(old_r, p as int, x);
            assert(v@.take(i + 1) =~= v@.take(i as int).push(x));
            vstd::seq_lib::to_multiset_build(v@.take(i as int), x);
            assert forall|a: int, b: int| 0 <= a <= b < r@.len() implies r@[a] <= r@[b] by {
                if p < old_r.len() {
                    assert(old_r[p as int] > x);
                }
                if a < p && b > p {
                    assert(old_r[a] <= x);
                    assert(old_r[b - 1] >= old_r[p as int]);
                }
                if a == p && b > p {
                    assert(old_r[b - 1] >= old_r[p as int]);
                }
            }
        }
        i = i + 1;
    }
    assert(v@.take(v@.len() as int) =~= v@);
    r
}

} // verus!
