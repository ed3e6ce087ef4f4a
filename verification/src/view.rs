//! The editor view's own state: the viewport over the display rows, the
//! scrollbar and mouse interactions, IME composition and the cursor blink.
//!
//! The editor itself (text, selections, display rows) is owned by the
//! caller; functions here take what they need of it as plain values and say
//! what the caller has to do with the editor.
use vstd::prelude::*;
use crate::layout::{
    Point, DEFAULT_VIEWPORT_ROWS, LINE_HEIGHT, SCROLLBAR_GAP, SCROLLBAR_WIDTH, rows_origin_y,
    round_div, scrollbar_track_left, scrollbar_track_top, text_origin_x, visible_row_at,
    display_column_at, visible_display_point_for_mouse_position, DISPLAY_COLUMN_WIDTH,
    DEFAULT_SOFT_WRAP_COLUMN,
};
use crate::render_model::RenderedScrollbar;
use crate::command::{EditorCommand, Modifiers, Selection};
use crate::layout::{display_range_spec, display_range_for_source_range, column_for_byte};
use crate::render_model::{RenderedEditor, RenderedLine, min_int};
use crate::input::{utf16_range_to_utf8, utf16_column, min_nat, max_nat};
use crate::text::{byte_len, byte_offset_of, utf8_len};
use crate::clipboard::{
    distributed_paste_replacements, inclusive_piece_count, is_inclusive_split, is_linewise_paste,
    is_newline_split, line_start_ranges_for_offsets, linewise_paste_spec, newline_count,
    selected_lines, string_views,
};
use std::ops::Range;

verus! {

/// An autoscroll that keeps extending a mouse selection while the pointer
/// is held above or below the visible rows.
#[derive(Clone, Copy, Debug, PartialEq, Eq)]
pub struct DragAutoscroll {
    pub position: Point,
    pub generation: u64,
}

/// A drag of the scrollbar thumb, grabbed `thumb_grab_offset` pixels below
/// its top.
#[derive(Clone, Copy, Debug, PartialEq, Eq)]
pub struct ScrollbarDrag {
    pub thumb_grab_offset: i32,
}

/// A press on the scrollbar track that pages the viewport up (`-1`) or
/// down (`1`) while it is held.
#[derive(Clone, Copy, Debug, PartialEq, Eq)]
pub struct ScrollbarTrackPress {
    pub direction: isize,
    pub generation: u64,
}

/// Where a mouse position falls on the scrollbar: the track cell and the
/// cells of the thumb.
#[derive(Debug, PartialEq, Eq)]
pub struct ScrollbarHit {
    pub visible_row: usize,
    pub thumb_rows: Range<usize>,
}

/// One row of the editor's display: its index, its text, whether it
/// continues a wrapped line, and the bytes of the buffer it shows.
#[derive(Debug, PartialEq, Eq)]
pub struct DisplayRow {
    pub row: usize,
    pub text: String,
    pub continuation: bool,
    pub source_range: Range<usize>,
}

/// A display row and display column.
#[derive(Clone, Copy, Debug, PartialEq, Eq)]
pub struct DisplayPoint {
    pub row: usize,
    pub column: usize,
}

/// The editor operation a command asks of the caller.
#[derive(Clone, Copy, Debug, PartialEq, Eq)]
pub enum EditorStep {
    /// Nothing.
    Nothing,
    /// The editor operation that the command names (typing, deleting,
    /// undo and redo, cursor moves, adding carets, selecting).
    Run(EditorCommand),
    /// Move every cursor by `rows` display rows, extending when `extend`.
    MoveDisplayRows { rows: isize, extend: bool },
    /// Collapse every selection to its head.
    CollapseSelections,
}

/// How a command runs: the editor step, then (in `finish_command`) a page
/// scroll of the viewport in `scroll`'s direction, if any, and whether the
/// active cursor is revealed.
#[derive(Clone, Copy, Debug, PartialEq, Eq)]
pub struct CommandPlan {
    pub step: EditorStep,
    pub scroll: Option<isize>,
    pub reveal_cursor: bool,
}

/// How a paste runs on the editor. For a line-wise paste, `line_starts`
/// holds the empty ranges at the starts of the lines that hold the cursors:
/// the caller selects them, then asks `paste_pieces` with the number of
/// selections it then has. Otherwise it asks with the current number.
#[derive(Debug, PartialEq, Eq)]
pub struct PastePlan {
    pub line_starts: Option<Vec<Range<usize>>>,
}

/// The window the application opens, centered on the screen: its size in
/// pixels and the view it shows.
pub struct WindowPlan<E, C> {
    pub width: i32,
    pub height: i32,
    pub view: EditorView<E, C>,
}

/// What the caller does after a mouse press.
pub enum MouseDownAction<C> {
    /// The press landed on the scrollbar thumb, which the mouse now drags.
    ScrollbarThumb,
    /// The press landed on the scrollbar track: the viewport paged once, and
    /// `press` repeats while it stays the current press.
    ScrollbarTrack(ScrollbarTrackPress),
    /// A triple click: commit `checkpoint`, if any, to the editor's
    /// selection history, then select the line at the display point.
    SelectLine { row: usize, column: usize, checkpoint: Option<C> },
    /// A double click: commit `checkpoint`, if any, then select the word at
    /// the display point.
    SelectWord { row: usize, column: usize, checkpoint: Option<C> },
    /// An alt press: begin a mouse selection (hand the editor's checkpoint
    /// to `begin_mouse_selection_history`) and add a caret at the point.
    AddCaret { row: usize, column: usize },
    /// A plain press: begin a mouse selection and put the selection head at
    /// the point, extending the selection when `extend`.
    SelectPoint { row: usize, column: usize, extend: bool },
}

/// What the caller does after a mouse move.
pub enum MouseMoveAction {
    /// Nothing on the editor: redraw when `notify`, and stop the event
    /// there when `stop`.
    Redraw { notify: bool, stop: bool },
    /// Extend the mouse selection to the display point.
    ExtendSelection { row: usize, column: usize },
    /// Select the rectangle from the anchor point to the head point.
    ExtendRectangle { anchor_row: usize, anchor_column: usize, head_row: usize, head_column: usize },
}

/// What the caller does after a mouse release: when `handled`, commit
/// `checkpoint`, if any, to the editor's selection history and redraw.
pub struct MouseUpAction<C> {
    pub handled: bool,
    pub checkpoint: Option<C>,
}

/// The view of one editor: the editor `E` it shows, and its viewport,
/// mouse, scrollbar, composition and cursor-blink state. `C` is the
/// editor's selection-history checkpoint, held while a mouse selection is
/// in progress.
pub struct EditorView<E, C> {
    pub editor: E,
    pub marked_range: Option<Range<usize>>,
    pub selecting_with_mouse: bool,
    pub mouse_selection_checkpoint: Option<C>,
    pub rectangular_selection_start: Option<(usize, usize)>,
    pub drag_autoscroll: Option<DragAutoscroll>,
    pub drag_autoscroll_generation: u64,
    pub scrollbar_drag: Option<ScrollbarDrag>,
    pub scrollbar_track_press: Option<ScrollbarTrackPress>,
    pub scrollbar_track_press_generation: u64,
    pub hovered_scrollbar_row: Option<usize>,
    pub viewport_start_row: usize,
    pub viewport_rows: usize,
    pub linewise_clipboard_text: Option<String>,
    pub cursor_blink_visible: bool,
    pub cursor_blink_generation: u64,
}

/// `a + d`, held within `0..=usize::MAX`.
pub open spec fn saturating_add_signed_spec(a: usize, d: isize) -> usize {
    if a + d < 0 {
        0
    } else if a + d > usize::MAX {
        usize::MAX
    } else {
        (a + d) as usize
    }
}

/// `a * b`, held within the range of `isize`.
pub open spec fn saturating_mul_spec(a: isize, b: isize) -> isize {
    if a * b < isize::MIN {
        isize::MIN
    } else if a * b > isize::MAX {
        isize::MAX
    } else {
        (a * b) as isize
    }
}

/// `a + d`, saturating at the bounds of `usize` (`usize::saturating_add_signed`).
pub fn saturating_add_signed(a: usize, d: isize) -> (r: usize)
    ensures
        r == saturating_add_signed_spec(a, d),
{
    if d >= 0 {
        let du = d as usize;
        if a > usize::MAX - du {
            usize::MAX
        } else {
            a + du
        }
    } else {
        let magnitude = ((-(d + 1)) as usize) + 1;
        if a >= magnitude {
            a - magnitude
        } else {
            0
        }
    }
}

/// `a * b`, saturating at the bounds of `isize` (`isize::saturating_mul`).
pub fn saturating_mul(a: isize, b: isize) -> (r: isize)
    ensures
        r == saturating_mul_spec(a, b),
{
    let wide_a = a as i128;
    let wide_b = b as i128;
    assert(-0x8000_0000_0000_0000 <= wide_a <= 0x7fff_ffff_ffff_ffff);
    assert(-0x8000_0000_0000_0000 <= wide_b <= 0x7fff_ffff_ffff_ffff);
    assert(-0x4000_0000_0000_0000_0000_0000_0000_0000 <= wide_a * wide_b
        <= 0x4000_0000_0000_0000_0000_0000_0000_0000) by (nonlinear_arith)
        requires
            -0x8000_0000_0000_0000 <= wide_a <= 0x7fff_ffff_ffff_ffff,
            -0x8000_0000_0000_0000 <= wide_b <= 0x7fff_ffff_ffff_ffff,
    ;
    let product = wide_a * wide_b;
    if product < isize::MIN as i128 {
        isize::MIN
    } else if product > isize::MAX as i128 {
        isize::MAX
    } else {
        product as isize
    }
}

impl<E, C> EditorView<E, C> {
    /// Rows of the viewport, at least one.
    pub open spec fn page_rows(self) -> int {
        if self.viewport_rows > 1 {
            self.viewport_rows as int
        } else {
            1
        }
    }

    /// Highest first row that keeps the viewport within `row_count` rows.
    pub open spec fn max_start_row(self, row_count: usize) -> int {
        if row_count > self.page_rows() {
            row_count - self.page_rows()
        } else {
            0
        }
    }

    /// The state of every field but the viewport's first row is that of `other`.
    pub open spec fn same_but_viewport(self, other: Self) -> bool {
        &&& self.editor == other.editor
        &&& self.marked_range == other.marked_range
        &&& self.selecting_with_mouse == other.selecting_with_mouse
        &&& self.mouse_selection_checkpoint == other.mouse_selection_checkpoint
        &&& self.rectangular_selection_start == other.rectangular_selection_start
        &&& self.drag_autoscroll == other.drag_autoscroll
        &&& self.drag_autoscroll_generation == other.drag_autoscroll_generation
        &&& self.scrollbar_drag == other.scrollbar_drag
        &&& self.scrollbar_track_press == other.scrollbar_track_press
        &&& self.scrollbar_track_press_generation == other.scrollbar_track_press_generation
        &&& self.hovered_scrollbar_row == other.hovered_scrollbar_row
        &&& self.viewport_rows == other.viewport_rows
        &&& self.linewise_clipboard_text == other.linewise_clipboard_text
        &&& self.cursor_blink_visible == other.cursor_blink_visible
        &&& self.cursor_blink_generation == other.cursor_blink_generation
    }

    /// A view of `editor` with nothing selected by the mouse, the viewport
    /// at the top with the default height, and the cursor shown.
    pub open spec fn initial(editor: E) -> Self {
        EditorView {
            editor,
            marked_range: None,
            selecting_with_mouse: false,
            mouse_selection_checkpoint: None,
            rectangular_selection_start: None,
            drag_autoscroll: None,
            drag_autoscroll_generation: 0,
            scrollbar_drag: None,
            scrollbar_track_press: None,
            scrollbar_track_press_generation: 0,
            hovered_scrollbar_row: None,
            viewport_start_row: 0,
            viewport_rows: DEFAULT_VIEWPORT_ROWS,
            linewise_clipboard_text: None,
            cursor_blink_visible: true,
            cursor_blink_generation: 0,
        }
    }

    /// A new view of `editor` (see `initial`).
    pub fn new(editor: E) -> (view: Self)
        ensures
            view == Self::initial(editor),
    {
        EditorView {
            editor,
            marked_range: None,
            selecting_with_mouse: false,
            mouse_selection_checkpoint: None,
            rectangular_selection_start: None,
            drag_autoscroll: None,
            drag_autoscroll_generation: 0,
            scrollbar_drag: None,
            scrollbar_track_press: None,
            scrollbar_track_press_generation: 0,
            hovered_scrollbar_row: None,
            viewport_start_row: 0,
            viewport_rows: DEFAULT_VIEWPORT_ROWS,
            linewise_clipboard_text: None,
            cursor_blink_visible: true,
            cursor_blink_generation: 0,
        }
    }

    /// The same view with a viewport of `viewport_rows` rows (at least one).
    pub fn with_viewport_rows(self, viewport_rows: usize) -> (view: Self)
        ensures
            view.viewport_rows == (if viewport_rows > 1 {
                viewport_rows
            } else {
                1
            }),
            view.viewport_start_row == self.viewport_start_row,
            view.same_but_viewport(
                EditorView { viewport_rows: view.viewport_rows, ..self },
            ),
    {
        let mut view = self;
        view.viewport_rows = if viewport_rows > 1 {
            viewport_rows
        } else {
            1
        };
        view
    }

    /// The first visible display row.
    pub fn viewport_start_row(&self) -> (r: usize)
        ensures
            r == self.viewport_start_row,
    {
        self.viewport_start_row
    }

    /// Rows of the viewport, at least one.
    pub fn page_rows_exec(&self) -> (r: usize)
        ensures
            r == self.page_rows(),
    {
        if self.viewport_rows > 1 {
            self.viewport_rows
        } else {
            1
        }
    }

    /// The scrollbar for a display of `row_count` rows: `None` when all of
    /// them fit in the viewport.
    pub open spec fn scrollbar_spec(self, row_count: usize) -> Option<RenderedScrollbar> {
        if row_count > self.page_rows() {
            Some(
                RenderedScrollbar {
                    first_visible_row: self.viewport_start_row,
                    visible_rows: self.page_rows() as usize,
                    total_rows: row_count,
                    hovered_row: match self.hovered_scrollbar_row {
                        Some(row) => if row < self.page_rows() {
                            Some(row)
                        } else {
                            None
                        },
                        None => None,
                    },
                    pressed: self.scrollbar_drag is Some || self.scrollbar_track_press is Some,
                },
            )
        } else {
            None
        }
    }

    /// The scrollbar for a display of `row_count` rows.
    pub fn rendered_scrollbar_for_row_count(&self, row_count: usize) -> (r: Option<
        RenderedScrollbar,
    >)
        ensures
            r == self.scrollbar_spec(row_count),
    {
        let visible_rows = self.page_rows_exec();
        if row_count > visible_rows {
            let hovered_row = match self.hovered_scrollbar_row {
                Some(row) => if row < visible_rows {
                    Some(row)
                } else {
                    None
                },
                None => None,
            };
            Some(
                RenderedScrollbar {
                    first_visible_row: self.viewport_start_row,
                    visible_rows,
                    total_rows: row_count,
                    hovered_row,
                    pressed: self.scrollbar_drag.is_some() || self.scrollbar_track_press.is_some(),
                },
            )
        } else {
            None
        }
    }

    /// Keeps the viewport within a display of `row_count` rows.
    pub fn clamp_viewport(&mut self, row_count: usize)
        ensures
            final(self).viewport_start_row == (if old(self).viewport_start_row
                <= old(self).max_start_row(row_count) {
                old(self).viewport_start_row as int
            } else {
                old(self).max_start_row(row_count)
            }),
            final(self).viewport_start_row <= old(self).max_start_row(row_count),
            final(self).same_but_viewport(*old(self)),
    {
        let page_rows = self.page_rows_exec();
        let max_start = row_count.saturating_sub(page_rows);
        if self.viewport_start_row > max_start {
            self.viewport_start_row = max_start;
        }
    }

    /// Moves the viewport by `rows` rows, then keeps it within the display.
    pub fn scroll_viewport_by_rows(&mut self, rows: isize, row_count: usize)
        ensures
            final(self).viewport_start_row == clamp_start(
                saturating_add_signed_spec(old(self).viewport_start_row, rows) as int,
                old(self).max_start_row(row_count),
            ),
            final(self).same_but_viewport(*old(self)),
    {
        self.viewport_start_row = saturating_add_signed(self.viewport_start_row, rows);
        self.clamp_viewport(row_count);
    }

    /// The first row after moving the viewport one page in `direction`
    /// (up when negative) and keeping it within `row_count` rows.
    pub open spec fn paged_start(self, direction: isize, row_count: usize) -> int {
        clamp_start(
            saturating_add_signed_spec(
                self.viewport_start_row,
                saturating_mul_spec(direction, self.page_rows() as isize),
            ) as int,
            self.max_start_row(row_count),
        )
    }

    /// Moves the viewport by one page up (`direction < 0`) or down.
    pub fn scroll_viewport(&mut self, direction: isize, row_count: usize)
        ensures
            final(self).viewport_start_row == old(self).paged_start(direction, row_count),
            final(self).viewport_start_row <= old(self).max_start_row(row_count),
            final(self).same_but_viewport(*old(self)),
    {
        let page_rows = self.page_rows_exec();
        self.scroll_viewport_by_rows(saturating_mul(direction, page_rows as isize), row_count);
    }

    /// Brings the display row `cursor_row` of the active cursor into the
    /// viewport, scrolling as little as possible, then keeps the viewport
    /// within the display. Without a cursor position nothing changes.
    pub fn reveal_active_cursor(&mut self, cursor_row: Option<usize>, row_count: usize)
        requires
            reveal_fits(old(self).viewport_start_row as int, old(self).page_rows(), cursor_row),
        ensures
            final(self).viewport_start_row == reveal_result(
                old(self).viewport_start_row as int,
                old(self).page_rows(),
                cursor_row,
                old(self).max_start_row(row_count),
            ),
            cursor_row is None ==> final(self).viewport_start_row == old(self).viewport_start_row,
            cursor_row is Some ==> final(self).viewport_start_row <= old(self).max_start_row(row_count),
            final(self).same_but_viewport(*old(self)),
            cursor_row matches Some(row) ==> (row < row_count ==> final(self).viewport_start_row
                <= row < final(self).viewport_start_row + final(self).page_rows()),
    {
        let row = match cursor_row {
            Some(row) => row,
            None => return,
        };
        let page_rows = self.page_rows_exec();
        if row < self.viewport_start_row {
            self.viewport_start_row = row;
        } else {
            let viewport_end = self.viewport_start_row + page_rows;
            if row >= viewport_end {
                self.viewport_start_row = row + 1 - page_rows;
            }
        }
        self.clamp_viewport(row_count);
    }

    /// Begins a press on the scrollbar track in `direction`, under a new
    /// generation; the caller repeats it while it stays the current press.
    pub fn begin_scrollbar_track_press(&mut self, direction: isize) -> (press: ScrollbarTrackPress)
        ensures
            press.direction == direction,
            press.generation == old(self).scrollbar_track_press_generation.wrapping_add(1),
            *final(self) == (EditorView {
                scrollbar_track_press_generation: press.generation,
                scrollbar_track_press: Some(press),
                ..*old(self)
            }),
    {
        self.scrollbar_track_press_generation = self.scrollbar_track_press_generation.wrapping_add(
            1,
        );
        let press = ScrollbarTrackPress {
            direction,
            generation: self.scrollbar_track_press_generation,
        };
        self.scrollbar_track_press = Some(press);
        press
    }

    /// One repeat of a held track press: pages the viewport when `press` is
    /// still the current press, and says whether the viewport moved.
    pub fn repeat_scrollbar_track_press(&mut self, press: ScrollbarTrackPress, row_count: usize) -> (moved: bool)
        ensures
            old(self).scrollbar_track_press != Some(press) ==> *final(self) == *old(self) && !moved,
            old(self).scrollbar_track_press == Some(press) ==> final(self).viewport_start_row
                == clamp_start(
                saturating_add_signed_spec(
                    old(self).viewport_start_row,
                    saturating_mul_spec(press.direction, old(self).page_rows() as isize),
                ) as int,
                old(self).max_start_row(row_count),
            ) && final(self).same_but_viewport(*old(self)),
            moved == (final(self).viewport_start_row != old(self).viewport_start_row),
    {
        let current = match self.scrollbar_track_press {
            Some(current) => current.direction == press.direction && current.generation
                == press.generation,
            None => false,
        };
        if !current {
            return false;
        }
        let before = self.viewport_start_row;
        self.scroll_viewport(press.direction, row_count);
        self.viewport_start_row != before
    }

    /// The first row for the scrollbar thumb dragged so that its top is at
    /// `y - thumb_grab_offset`: the thumb's place on the track, as a share
    /// of where it can go, scaled to the rows the viewport can scroll by and
    /// rounded to the nearest row.
    pub open spec fn scrollbar_drag_start(self, y: i32, thumb_grab_offset: i32, row_count: usize) -> int {
        let scrollbar = self.scrollbar_spec(row_count)->Some_0;
        let thumb_len = scrollbar.thumb_spec().1 - scrollbar.thumb_spec().0;
        let max_thumb_start = if scrollbar.visible_rows > thumb_len {
            scrollbar.visible_rows - thumb_len
        } else {
            0
        };
        let max_thumb_top = LINE_HEIGHT * max_thumb_start;
        let top = y - rows_origin_y() - thumb_grab_offset;
        let thumb_top = if top < 0 {
            0
        } else if top > max_thumb_top {
            max_thumb_top
        } else {
            top
        };
        let scrollable_rows = scrollbar.total_rows - scrollbar.visible_rows;
        if max_thumb_start == 0 {
            0
        } else {
            round_div(thumb_top * scrollable_rows, max_thumb_top)
        }
    }

    /// Scrolls to follow the scrollbar thumb dragged to `y`, grabbed
    /// `thumb_grab_offset` pixels below its top.
    pub fn scroll_viewport_to_scrollbar_y(&mut self, y: i32, thumb_grab_offset: i32, row_count: usize)
        requires
            old(self).scrollbar_spec(row_count) matches Some(scrollbar) ==> scrollbar.thumb_fits(),
        ensures
            old(self).scrollbar_spec(row_count) is None ==> *final(self) == *old(self),
            old(self).scrollbar_spec(row_count) is Some ==> final(self).viewport_start_row
                == clamp_start(
                old(self).scrollbar_drag_start(y, thumb_grab_offset, row_count),
                old(self).max_start_row(row_count),
            ),
            final(self).same_but_viewport(*old(self)),
    {
        let scrollbar = match self.rendered_scrollbar_for_row_count(row_count) {
            Some(scrollbar) => scrollbar,
            None => return,
        };
        let thumb_rows = scrollbar.thumb_rows();
        proof {
            crate::render_model::lemma_thumb_bounds(scrollbar);
        }
        let thumb_len = thumb_rows.end - thumb_rows.start;
        let max_thumb_start = scrollbar.visible_rows.saturating_sub(thumb_len);
        if max_thumb_start == 0 {
            self.viewport_start_row = 0;
            return;
        }
        let max_thumb_top: i128 = (LINE_HEIGHT as i128) * (max_thumb_start as i128);
        let top: i128 = (y as i128) - (scrollbar_track_top() as i128) - (thumb_grab_offset as i128);
        let thumb_top: i128 = if top < 0 {
            0
        } else if top > max_thumb_top {
            max_thumb_top
        } else {
            top
        };
        let scrollable_rows: i128 = (scrollbar.total_rows - scrollbar.visible_rows) as i128;
        assert(0 <= thumb_top <= 0x2_0000_0000);
        assert(0 <= thumb_top * scrollable_rows <= 0x2_0000_0000 * 0x1_0000_0000_0000_0000)
            by (nonlinear_arith)
            requires
                0 <= thumb_top <= 0x2_0000_0000,
                0 <= scrollable_rows <= 0xffff_ffff_ffff_ffff,
        ;
        let numerator = 2 * (thumb_top * scrollable_rows) + max_thumb_top;
        let start = numerator / (2 * max_thumb_top);
        assert(start <= scrollable_rows) by (nonlinear_arith)
            requires
                0 <= thumb_top <= max_thumb_top,
                max_thumb_top > 0,
                scrollable_rows >= 0,
                numerator == 2 * (thumb_top * scrollable_rows) + max_thumb_top,
                start as int == numerator as int / (2 * max_thumb_top as int),
        ;
        self.viewport_start_row = start as usize;
        self.clamp_viewport(row_count);
    }

    /// Scrolls as a thumb drag would that puts the point grabbed
    /// `thumb_grab_row` cells below the thumb's top on track cell
    /// `visible_row`.
    pub fn scroll_viewport_to_scrollbar_row(&mut self, visible_row: usize, thumb_grab_row: usize, row_count: usize)
        requires
            old(self).scrollbar_spec(row_count) matches Some(scrollbar) ==> scrollbar.thumb_fits(),
            rows_origin_y() + LINE_HEIGHT * visible_row <= i32::MAX,
            LINE_HEIGHT * thumb_grab_row <= i32::MAX,
        ensures
            old(self).scrollbar_spec(row_count) is None ==> *final(self) == *old(self),
            old(self).scrollbar_spec(row_count) is Some ==> final(self).viewport_start_row
                == clamp_start(
                old(self).scrollbar_drag_start(
                    (rows_origin_y() + LINE_HEIGHT * visible_row) as i32,
                    (LINE_HEIGHT * thumb_grab_row) as i32,
                    row_count,
                ),
                old(self).max_start_row(row_count),
            ),
            final(self).same_but_viewport(*old(self)),
    {
        let y = scrollbar_track_top() + LINE_HEIGHT * (visible_row as i32);
        let grab = LINE_HEIGHT * (thumb_grab_row as i32);
        self.scroll_viewport_to_scrollbar_y(y, grab, row_count);
    }

    /// The scrollbar cell at height `y`, when it is one of the viewport's rows.
    pub fn scrollbar_visible_row_for_y(&self, y: i32) -> (r: Option<usize>)
        ensures
            r == (if y < rows_origin_y() || (y - rows_origin_y()) / (LINE_HEIGHT as int)
                >= self.page_rows() {
                None::<usize>
            } else {
                Some(((y - rows_origin_y()) / (LINE_HEIGHT as int)) as usize)
            }),
    {
        let row_origin = scrollbar_track_top();
        if y < row_origin {
            return None;
        }
        let visible_row = ((y - row_origin) / LINE_HEIGHT) as usize;
        if visible_row < self.page_rows_exec() {
            Some(visible_row)
        } else {
            None
        }
    }

    /// Whether a position lies across the scrollbar track's width.
    pub open spec fn over_scrollbar_track(position: Point) -> bool {
        let left = text_origin_x() + DISPLAY_COLUMN_WIDTH * DEFAULT_SOFT_WRAP_COLUMN + SCROLLBAR_GAP;
        left <= position.x <= left + SCROLLBAR_WIDTH
    }

    /// The scrollbar cell under a mouse position, if any.
    pub fn scrollbar_visible_row_for_position(&self, position: Point) -> (r: Option<usize>)
        ensures
            !Self::over_scrollbar_track(position) ==> r is None,
            Self::over_scrollbar_track(position) ==> r == (if position.y < rows_origin_y() || (
            position.y - rows_origin_y()) / (LINE_HEIGHT as int) >= self.page_rows() {
                None::<usize>
            } else {
                Some(((position.y - rows_origin_y()) / (LINE_HEIGHT as int)) as usize)
            }),
    {
        let track_left = scrollbar_track_left();
        if position.x < track_left || position.x > track_left + SCROLLBAR_WIDTH {
            return None;
        }
        self.scrollbar_visible_row_for_y(position.y)
    }

    /// A mouse position on one of the scrollbar's cells, for a display of
    /// `row_count` rows that has a scrollbar.
    pub open spec fn hits_scrollbar(self, position: Point, row_count: usize) -> bool {
        &&& self.scrollbar_spec(row_count) is Some
        &&& Self::over_scrollbar_track(position)
        &&& rows_origin_y() <= position.y
        &&& (position.y - rows_origin_y()) / (LINE_HEIGHT as int) < self.page_rows()
    }

    /// The scrollbar cell under a mouse position and the thumb's cells, when
    /// the display of `row_count` rows has a scrollbar.
    pub fn scrollbar_hit_for_position(&self, position: Point, row_count: usize) -> (r: Option<ScrollbarHit>)
        requires
            self.hits_scrollbar(position, row_count) ==> self.scrollbar_spec(row_count)->Some_0.thumb_fits(),
        ensures
            r is Some <==> self.hits_scrollbar(position, row_count),
            r matches Some(hit) ==> hit.visible_row == (position.y - rows_origin_y()) / (LINE_HEIGHT as int)
                && hit.thumb_rows.start == self.scrollbar_spec(row_count)->Some_0.thumb_spec().0
                && hit.thumb_rows.end == self.scrollbar_spec(row_count)->Some_0.thumb_spec().1,
    {
        let visible_row = match self.scrollbar_visible_row_for_position(position) {
            Some(row) => row,
            None => return None,
        };
        let scrollbar = match self.rendered_scrollbar_for_row_count(row_count) {
            Some(scrollbar) => scrollbar,
            None => return None,
        };
        let thumb_rows = scrollbar.thumb_rows();
        Some(ScrollbarHit { visible_row, thumb_rows })
    }

    /// The display point under a mouse position: the visible row below the
    /// viewport's first row, and the nearest column edge.
    pub fn display_point_for_mouse_position(&self, position: Point) -> (r: (usize, usize))
        requires
            self.viewport_start_row + visible_row_at(position) <= usize::MAX,
        ensures
            r.0 == self.viewport_start_row + visible_row_at(position),
            r.1 == display_column_at(position),
    {
        let (visible_row, display_column) = visible_display_point_for_mouse_position(position);
        (self.viewport_start_row + visible_row, display_column)
    }

    /// The direction a drag at `position` autoscrolls: up (`-1`) above the
    /// rows, down (`1`) below the viewport, none inside it.
    pub fn drag_autoscroll_direction_for_position(&self, position: Point) -> (r: Option<isize>)
        ensures
            r == (if position.y < rows_origin_y() {
                Some(-1isize)
            } else if visible_row_at(position) >= self.page_rows() {
                Some(1isize)
            } else {
                None::<isize>
            }),
    {
        let (visible_row, _) = visible_display_point_for_mouse_position(position);
        if position.y < scrollbar_track_top() {
            Some(-1)
        } else if visible_row >= self.page_rows_exec() {
            Some(1)
        } else {
            None
        }
    }

    /// The display point a selection drag at `position` extends to: outside
    /// the viewport the viewport first moves one row that way and the point
    /// is on its first or last row.
    pub fn display_point_for_drag_position(&mut self, position: Point, row_count: usize) -> (r: (usize, usize))
        requires
            drag_fits(*old(self), position),
        ensures
            r.1 == display_column_at(position),
            position.y < rows_origin_y() ==> final(self).viewport_start_row == clamp_start(
                saturating_add_signed_spec(old(self).viewport_start_row, -1isize) as int,
                old(self).max_start_row(row_count),
            ) && r.0 == final(self).viewport_start_row,
            position.y >= rows_origin_y() && visible_row_at(position) >= old(self).page_rows()
                ==> final(self).viewport_start_row == clamp_start(
                saturating_add_signed_spec(old(self).viewport_start_row, 1isize) as int,
                old(self).max_start_row(row_count),
            ) && r.0 == final(self).viewport_start_row + old(self).page_rows() - 1,
            position.y >= rows_origin_y() && visible_row_at(position) < old(self).page_rows()
                ==> *final(self) == *old(self) && r.0 == old(self).viewport_start_row
                + visible_row_at(position),
            final(self).same_but_viewport(*old(self)),
    {
        let (visible_row, display_column) = visible_display_point_for_mouse_position(position);
        let page_rows = self.page_rows_exec();
        match self.drag_autoscroll_direction_for_position(position) {
            Some(direction) => {
                if direction < 0 {
                    self.scroll_viewport_by_rows(-1, row_count);
                    (self.viewport_start_row, display_column)
                } else {
                    self.scroll_viewport_by_rows(1, row_count);
                    (self.viewport_start_row + page_rows - 1, display_column)
                }
            },
            None => (self.viewport_start_row + visible_row, display_column),
        }
    }

    /// The interaction state that a mouse press leaves behind, apart from
    /// the viewport and the checkpoint.
    pub open spec fn interaction_cleared(self) -> bool {
        &&& self.drag_autoscroll is None
        &&& self.scrollbar_drag is None
        &&& self.scrollbar_track_press is None
    }

    /// Handles a press of the left mouse button at `position`, the
    /// `click_count`-th in a row, on a display of `row_count` rows.
    pub fn handle_mouse_down(
        &mut self,
        position: Point,
        click_count: usize,
        modifiers: Modifiers,
        row_count: usize,
    ) -> (action: MouseDownAction<C>)
        requires
            old(self).hits_scrollbar(position, row_count) ==> old(self).scrollbar_spec(
                row_count,
            )->Some_0.thumb_fits(),
            !old(self).hits_scrollbar(position, row_count) ==> old(self).viewport_start_row
                + visible_row_at(position) <= usize::MAX,
        ensures
            final(self).editor == old(self).editor,
            final(self).viewport_rows == old(self).viewport_rows,
            final(self).marked_range == old(self).marked_range,
            final(self).linewise_clipboard_text == old(self).linewise_clipboard_text,
            final(self).cursor_blink_generation == old(self).cursor_blink_generation,
            final(self).cursor_blink_visible == old(self).cursor_blink_visible,
            final(self).drag_autoscroll_generation == old(self).drag_autoscroll_generation,
            final(self).drag_autoscroll is None,
            // On the scrollbar: the thumb is grabbed, or the track pages the viewport.
            action is ScrollbarThumb || action is ScrollbarTrack <==> old(self).hits_scrollbar(
                position,
                row_count,
            ),
            action is ScrollbarThumb || action is ScrollbarTrack ==> {
                let visible_row = (position.y - rows_origin_y()) / (LINE_HEIGHT as int);
                let thumb = old(self).scrollbar_spec(row_count)->Some_0.thumb_spec();
                &&& final(self).hovered_scrollbar_row == Some(visible_row as usize)
                &&& !final(self).selecting_with_mouse
                &&& final(self).mouse_selection_checkpoint is None
                &&& final(self).rectangular_selection_start is None
                &&& (action is ScrollbarThumb <==> thumb.0 <= visible_row < thumb.1)
                &&& action is ScrollbarThumb ==> final(self).scrollbar_drag == Some(
                    ScrollbarDrag {
                        thumb_grab_offset: (position.y - rows_origin_y() - LINE_HEIGHT * thumb.0) as i32,
                    },
                ) && final(self).scrollbar_track_press is None && final(self).viewport_start_row
                    == old(self).viewport_start_row && final(self).scrollbar_track_press_generation
                    == old(self).scrollbar_track_press_generation
                &&& action matches MouseDownAction::ScrollbarTrack(press) ==> {
                    let direction: isize = if visible_row < thumb.0 {
                        -1isize
                    } else {
                        1isize
                    };
                    &&& press.direction == direction
                    &&& press.generation == old(self).scrollbar_track_press_generation.wrapping_add(1)
                    &&& final(self).scrollbar_track_press_generation == press.generation
                    &&& final(self).scrollbar_track_press == Some(press)
                    &&& final(self).scrollbar_drag is None
                    &&& final(self).viewport_start_row == clamp_start(
                        saturating_add_signed_spec(
                            old(self).viewport_start_row,
                            saturating_mul_spec(direction, old(self).page_rows() as isize),
                        ) as int,
                        old(self).max_start_row(row_count),
                    )
                }
            },
            // Elsewhere: the click count and modifiers pick the selection.
            !(action is ScrollbarThumb || action is ScrollbarTrack) ==> {
                let row = (old(self).viewport_start_row + visible_row_at(position)) as usize;
                let column = display_column_at(position) as usize;
                &&& final(self).hovered_scrollbar_row is None
                &&& final(self).interaction_cleared()
                &&& final(self).viewport_start_row == old(self).viewport_start_row
                &&& final(self).scrollbar_track_press_generation == old(
                    self,
                ).scrollbar_track_press_generation
                &&& click_count >= 3 ==> action == MouseDownAction::SelectLine {
                    row,
                    column,
                    checkpoint: old(self).mouse_selection_checkpoint,
                }
                &&& click_count == 2 ==> action == MouseDownAction::SelectWord {
                    row,
                    column,
                    checkpoint: old(self).mouse_selection_checkpoint,
                }
                &&& click_count >= 2 ==> !final(self).selecting_with_mouse
                    && final(self).mouse_selection_checkpoint is None
                    && final(self).rectangular_selection_start is None
                &&& click_count < 2 ==> final(self).selecting_with_mouse
                    && final(self).mouse_selection_checkpoint is None
                &&& click_count < 2 && modifiers.alt && !modifiers.shift ==> action
                    == MouseDownAction::<C>::AddCaret { row, column }
                    && final(self).rectangular_selection_start == Some((row, column))
                &&& click_count < 2 && !(modifiers.alt && !modifiers.shift) ==> action
                    == MouseDownAction::<C>::SelectPoint { row, column, extend: modifiers.shift }
                    && final(self).rectangular_selection_start is None
            },
    {
        if let Some(hit) = self.scrollbar_hit_for_position(position, row_count) {
            proof {
                crate::render_model::lemma_thumb_bounds(self.scrollbar_spec(row_count)->Some_0);
            }
            self.hovered_scrollbar_row = Some(hit.visible_row);
            self.selecting_with_mouse = false;
            self.mouse_selection_checkpoint = None;
            self.rectangular_selection_start = None;
            self.drag_autoscroll = None;
            if hit.thumb_rows.start <= hit.visible_row && hit.visible_row < hit.thumb_rows.end {
                let thumb_top = scrollbar_track_top() + LINE_HEIGHT * (hit.thumb_rows.start as i32);
                self.scrollbar_drag = Some(ScrollbarDrag { thumb_grab_offset: position.y - thumb_top });
                self.scrollbar_track_press = None;
                return MouseDownAction::ScrollbarThumb;
            } else if hit.visible_row < hit.thumb_rows.start {
                self.scroll_viewport(-1, row_count);
                self.scrollbar_drag = None;
                let press = self.begin_scrollbar_track_press(-1);
                return MouseDownAction::ScrollbarTrack(press);
            } else {
                self.scroll_viewport(1, row_count);
                self.scrollbar_drag = None;
                let press = self.begin_scrollbar_track_press(1);
                return MouseDownAction::ScrollbarTrack(press);
            }
        }
        self.hovered_scrollbar_row = None;
        let (row, column) = self.display_point_for_mouse_position(position);
        self.drag_autoscroll = None;
        self.scrollbar_drag = None;
        self.scrollbar_track_press = None;
        if click_count >= 3 {
            let checkpoint = self.take_mouse_selection_checkpoint();
            self.selecting_with_mouse = false;
            self.rectangular_selection_start = None;
            MouseDownAction::SelectLine { row, column, checkpoint }
        } else if click_count == 2 {
            let checkpoint = self.take_mouse_selection_checkpoint();
            self.selecting_with_mouse = false;
            self.rectangular_selection_start = None;
            MouseDownAction::SelectWord { row, column, checkpoint }
        } else if modifiers.alt && !modifiers.shift {
            self.selecting_with_mouse = true;
            self.mouse_selection_checkpoint = None;
            self.rectangular_selection_start = Some((row, column));
            MouseDownAction::AddCaret { row, column }
        } else {
            self.selecting_with_mouse = true;
            self.mouse_selection_checkpoint = None;
            self.rectangular_selection_start = None;
            MouseDownAction::SelectPoint { row, column, extend: modifiers.shift }
        }
    }

    /// Holds the editor's selection-history checkpoint taken as a mouse
    /// selection begins.
    pub fn begin_mouse_selection_history(&mut self, checkpoint: C)
        ensures
            *final(self) == (EditorView { mouse_selection_checkpoint: Some(checkpoint), ..*old(self) }),
    {
        self.mouse_selection_checkpoint = Some(checkpoint);
    }

    /// Hands over the checkpoint of the mouse selection, if any, for the
    /// caller to commit to the editor's selection history.
    pub fn take_mouse_selection_checkpoint(&mut self) -> (checkpoint: Option<C>)
        ensures
            checkpoint == old(self).mouse_selection_checkpoint,
            *final(self) == (EditorView { mouse_selection_checkpoint: None, ..*old(self) }),
    {
        let checkpoint = self.mouse_selection_checkpoint.take();
        checkpoint
    }

    /// The editor operation that extends the mouse selection towards a drag
    /// at `position` (moving the viewport one row when it is outside).
    pub fn drag_extension(&mut self, position: Point, row_count: usize) -> (action: MouseMoveAction)
        requires
            drag_fits(*old(self), position),
        ensures
            final(self).same_but_viewport(*old(self)),
            ({
                let (row, column) = drag_point_spec(*old(self), position, row_count);
                &&& final(self).viewport_start_row == drag_point_start(*old(self), position, row_count)
                &&& (old(self).rectangular_selection_start matches Some(anchor) ==> action
                    == MouseMoveAction::ExtendRectangle {
                    anchor_row: anchor.0,
                    anchor_column: anchor.1,
                    head_row: row,
                    head_column: column,
                })
                &&& (old(self).rectangular_selection_start is None ==> action
                    == MouseMoveAction::ExtendSelection { row, column })
            }),
    {
        let (row, column) = self.display_point_for_drag_position(position, row_count);
        match self.rectangular_selection_start {
            Some((anchor_row, anchor_column)) => MouseMoveAction::ExtendRectangle {
                anchor_row,
                anchor_column,
                head_row: row,
                head_column: column,
            },
            None => MouseMoveAction::ExtendSelection { row, column },
        }
    }

    /// Handles a mouse move to `position` on a display of `row_count` rows.
    pub fn handle_mouse_move(&mut self, position: Point, row_count: usize) -> (action: MouseMoveAction)
        requires
            old(self).scrollbar_drag is Some ==> (old(self).scrollbar_spec(row_count) matches Some(
                scrollbar,
            ) ==> scrollbar.thumb_fits()),
            old(self).scrollbar_drag is None && old(self).selecting_with_mouse ==> drag_fits(
                *old(self),
                position,
            ),
        ensures
            ({
                let hovered = hovered_row_at(*old(self), position);
                let with_hover = EditorView { hovered_scrollbar_row: hovered, ..*old(self) };
                &&& final(self).hovered_scrollbar_row == hovered
                &&& (old(self).scrollbar_drag matches Some(drag) ==> {
                    &&& final(self).same_but_viewport(with_hover)
                    &&& final(self).viewport_start_row == (if with_hover.scrollbar_spec(row_count) is Some {
                        clamp_start(
                            with_hover.scrollbar_drag_start(position.y, drag.thumb_grab_offset, row_count),
                            with_hover.max_start_row(row_count),
                        )
                    } else {
                        old(self).viewport_start_row as int
                    })
                    &&& {
                        let changed = final(self).viewport_start_row != old(self).viewport_start_row
                            || hovered != old(self).hovered_scrollbar_row;
                        action == MouseMoveAction::Redraw { notify: changed, stop: changed }
                    }
                })
                &&& (old(self).scrollbar_drag is None && !old(self).selecting_with_mouse ==> {
                    &&& *final(self) == with_hover
                    &&& action == MouseMoveAction::Redraw {
                        notify: hovered != old(self).hovered_scrollbar_row,
                        stop: false,
                    }
                })
                &&& (old(self).scrollbar_drag is None && old(self).selecting_with_mouse ==> {
                    let (row, column) = drag_point_spec(with_hover, position, row_count);
                    &&& final(self).same_but_viewport(with_hover)
                    &&& final(self).viewport_start_row == drag_point_start(with_hover, position, row_count)
                    &&& (old(self).rectangular_selection_start matches Some(anchor) ==> action
                        == MouseMoveAction::ExtendRectangle {
                        anchor_row: anchor.0,
                        anchor_column: anchor.1,
                        head_row: row,
                        head_column: column,
                    })
                    &&& (old(self).rectangular_selection_start is None ==> action
                        == MouseMoveAction::ExtendSelection { row, column })
                })
            }),
    {
        let previous_hovered = self.hovered_scrollbar_row;
        self.hovered_scrollbar_row = self.scrollbar_visible_row_for_position(position);
        if let Some(drag) = self.scrollbar_drag {
            let before = self.viewport_start_row;
            self.scroll_viewport_to_scrollbar_y(position.y, drag.thumb_grab_offset, row_count);
            let changed = self.viewport_start_row != before || self.hovered_scrollbar_row
                != previous_hovered;
            return MouseMoveAction::Redraw { notify: changed, stop: changed };
        }
        if !self.selecting_with_mouse {
            let notify = self.hovered_scrollbar_row != previous_hovered;
            return MouseMoveAction::Redraw { notify, stop: false };
        }
        self.drag_extension(position, row_count)
    }

    /// Handles the release of the left mouse button at `position`: ends any
    /// mouse selection, drag or track press.
    pub fn handle_mouse_up(&mut self, position: Point) -> (action: MouseUpAction<C>)
        ensures
            ({
                let active = old(self).selecting_with_mouse || old(self).drag_autoscroll is Some
                    || old(self).scrollbar_drag is Some || old(self).scrollbar_track_press is Some;
                &&& action.handled == active
                &&& !active ==> *final(self) == *old(self) && action.checkpoint is None
                &&& active ==> {
                    &&& action.checkpoint == old(self).mouse_selection_checkpoint
                    &&& *final(self) == (EditorView {
                        selecting_with_mouse: false,
                        mouse_selection_checkpoint: None,
                        rectangular_selection_start: None,
                        drag_autoscroll: None,
                        scrollbar_drag: None,
                        scrollbar_track_press: None,
                        hovered_scrollbar_row: hovered_row_at(*old(self), position),
                        ..*old(self)
                    })
                }
            }),
    {
        if self.selecting_with_mouse || self.drag_autoscroll.is_some() || self.scrollbar_drag.is_some()
            || self.scrollbar_track_press.is_some() {
            self.selecting_with_mouse = false;
            let checkpoint = self.take_mouse_selection_checkpoint();
            self.rectangular_selection_start = None;
            self.drag_autoscroll = None;
            self.scrollbar_drag = None;
            self.scrollbar_track_press = None;
            self.hovered_scrollbar_row = self.scrollbar_visible_row_for_position(position);
            MouseUpAction { handled: true, checkpoint }
        } else {
            MouseUpAction { handled: false, checkpoint: None }
        }
    }

    /// After a drag moved the selection to `position`: keeps, starts or
    /// stops the autoscroll. Returns the generation of a newly started
    /// autoscroll, which the caller repeats while it stays current.
    pub fn update_drag_autoscroll(&mut self, position: Point) -> (started: Option<u64>)
        ensures
            ({
                let outside = position.y < rows_origin_y() || visible_row_at(position)
                    >= old(self).page_rows();
                &&& !(old(self).selecting_with_mouse && outside) ==> *final(self) == (EditorView {
                    drag_autoscroll: None,
                    ..*old(self)
                }) && started is None
                &&& old(self).selecting_with_mouse && outside ==> (old(self).drag_autoscroll matches Some(
                    autoscroll,
                ) ==> *final(self) == (EditorView {
                    drag_autoscroll: Some(DragAutoscroll { position, ..autoscroll }),
                    ..*old(self)
                }) && started is None)
                &&& old(self).selecting_with_mouse && outside && old(self).drag_autoscroll is None ==> {
                    let generation = old(self).drag_autoscroll_generation.wrapping_add(1);
                    &&& started == Some(generation)
                    &&& *final(self) == (EditorView {
                        drag_autoscroll_generation: generation,
                        drag_autoscroll: Some(DragAutoscroll { position, generation }),
                        ..*old(self)
                    })
                }
            }),
    {
        if !self.selecting_with_mouse || self.drag_autoscroll_direction_for_position(position).is_none() {
            self.drag_autoscroll = None;
            return None;
        }
        if let Some(autoscroll) = self.drag_autoscroll {
            self.drag_autoscroll = Some(DragAutoscroll { position, generation: autoscroll.generation });
            return None;
        }
        self.drag_autoscroll_generation = self.drag_autoscroll_generation.wrapping_add(1);
        let generation = self.drag_autoscroll_generation;
        self.drag_autoscroll = Some(DragAutoscroll { position, generation });
        Some(generation)
    }

    /// One repeat of the autoscroll of `generation`: the editor operation
    /// that extends the selection towards the held pointer, or `None` when
    /// that autoscroll is no longer current (the repeats then stop).
    pub fn drag_autoscroll_step(&mut self, generation: u64, row_count: usize) -> (step: Option<MouseMoveAction>)
        requires
            old(self).drag_autoscroll matches Some(autoscroll) ==> drag_fits(
                *old(self),
                autoscroll.position,
            ),
        ensures
            ({
                let current = old(self).drag_autoscroll matches Some(a) && a.generation == generation
                    && old(self).selecting_with_mouse;
                &&& !current ==> *final(self) == *old(self) && step is None
                &&& current ==> {
                    let position = old(self).drag_autoscroll->Some_0.position;
                    let (row, column) = drag_point_spec(*old(self), position, row_count);
                    &&& final(self).same_but_viewport(*old(self))
                    &&& final(self).viewport_start_row == drag_point_start(*old(self), position, row_count)
                    &&& (old(self).rectangular_selection_start matches Some(anchor) ==> step
                        == Some(MouseMoveAction::ExtendRectangle {
                        anchor_row: anchor.0,
                        anchor_column: anchor.1,
                        head_row: row,
                        head_column: column,
                    }))
                    &&& (old(self).rectangular_selection_start is None ==> step
                        == Some(MouseMoveAction::ExtendSelection { row, column }))
                }
            }),
    {
        let autoscroll = match self.drag_autoscroll {
            Some(autoscroll) => autoscroll,
            None => return None,
        };
        if autoscroll.generation != generation || !self.selecting_with_mouse {
            return None;
        }
        Some(self.drag_extension(autoscroll.position, row_count))
    }

    /// Ends the autoscroll once a repeat changed neither the viewport nor
    /// the selections.
    pub fn finish_drag_autoscroll_step(&mut self, changed: bool)
        ensures
            changed ==> *final(self) == *old(self),
            !changed ==> *final(self) == (EditorView { drag_autoscroll: None, ..*old(self) }),
    {
        if !changed {
            self.drag_autoscroll = None;
        }
    }

    /// Drops composition and every mouse and scrollbar interaction; the
    /// caller then collapses the editor's selections to their heads.
    pub fn cancel_interaction(&mut self)
        ensures
            *final(self) == (EditorView {
                marked_range: None,
                selecting_with_mouse: false,
                mouse_selection_checkpoint: None,
                rectangular_selection_start: None,
                drag_autoscroll: None,
                scrollbar_drag: None,
                scrollbar_track_press: None,
                ..*old(self)
            }),
    {
        self.marked_range = None;
        self.selecting_with_mouse = false;
        self.mouse_selection_checkpoint = None;
        self.rectangular_selection_start = None;
        self.drag_autoscroll = None;
        self.scrollbar_drag = None;
        self.scrollbar_track_press = None;
    }

    /// Shows the cursor and starts a new blink generation, which the caller
    /// toggles with `cursor_blink_tick` at each interval.
    pub fn restart_cursor_blink(&mut self) -> (generation: u64)
        ensures
            generation == old(self).cursor_blink_generation.wrapping_add(1),
            *final(self) == (EditorView {
                cursor_blink_visible: true,
                cursor_blink_generation: generation,
                ..*old(self)
            }),
    {
        self.cursor_blink_visible = true;
        self.cursor_blink_generation = self.cursor_blink_generation.wrapping_add(1);
        self.cursor_blink_generation
    }

    /// Starts the blink when it never started.
    pub fn ensure_cursor_blink(&mut self) -> (started: Option<u64>)
        ensures
            old(self).cursor_blink_generation != 0 ==> *final(self) == *old(self) && started is None,
            old(self).cursor_blink_generation == 0 ==> started == Some(1u64) && *final(self)
                == (EditorView { cursor_blink_visible: true, cursor_blink_generation: 1, ..*old(self) }),
    {
        if self.cursor_blink_generation == 0 {
            Some(self.restart_cursor_blink())
        } else {
            None
        }
    }

    /// One blink of `generation`: toggles the cursor while that generation
    /// is current; says whether the blinking goes on.
    pub fn cursor_blink_tick(&mut self, generation: u64) -> (go_on: bool)
        ensures
            go_on == (old(self).cursor_blink_generation == generation),
            go_on ==> *final(self) == (EditorView {
                cursor_blink_visible: !old(self).cursor_blink_visible,
                ..*old(self)
            }),
            !go_on ==> *final(self) == *old(self),
    {
        if self.cursor_blink_generation != generation {
            return false;
        }
        self.cursor_blink_visible = !self.cursor_blink_visible;
        true
    }

    /// Number of display rows, out of `row_count`, that the viewport shows.
    pub open spec fn visible_count(self, row_count: int) -> int {
        if self.viewport_start_row >= row_count {
            0
        } else if row_count - self.viewport_start_row < self.page_rows() {
            row_count - self.viewport_start_row
        } else {
            self.page_rows()
        }
    }

    /// The rows that the viewport shows can be numbered from one.
    pub open spec fn numbers_fit(self, rows: Seq<DisplayRow>) -> bool {
        forall|i: int|
            #![trigger rows[i]]
            self.viewport_start_row <= i < self.viewport_start_row + self.visible_count(rows.len() as int)
                ==> rows[i].row < usize::MAX
    }

    /// The rendered rows of the viewport: for each display row it shows, the
    /// row's text and number, the columns of the cursors on it (the active
    /// one apart), and the display columns that non-empty selections and the
    /// IME composition cover on it.
    pub fn rendered_lines_for_display(
        &self,
        rows: &Vec<DisplayRow>,
        cursors: &Vec<DisplayPoint>,
        active_cursor: Option<DisplayPoint>,
        selections: &Vec<Selection>,
    ) -> (lines: Vec<RenderedLine>)
        requires
            self.numbers_fit(rows@),
        ensures
            lines@.len() == self.visible_count(rows@.len() as int),
            forall|i: int|
                #![trigger lines@[i]]
                0 <= i < lines@.len() ==> rendered_line_of(
                    lines@[i],
                    rows@[self.viewport_start_row + i],
                    cursors@,
                    active_cursor,
                    selections@,
                    self.marked_range,
                ),
    {
        let mut lines: Vec<RenderedLine> = Vec::new();
        let page_rows = self.page_rows_exec();
        let start = self.viewport_start_row;
        if start >= rows.len() {
            return lines;
        }
        let count = if rows.len() - start < page_rows {
            rows.len() - start
        } else {
            page_rows
        };
        let mut i: usize = 0;
        while i < count
            invariant
                start == self.viewport_start_row,
                start < rows@.len(),
                count == self.visible_count(rows@.len() as int),
                start + count <= rows@.len(),
                rows@.len() == rows.len(),
                i <= count,
                lines@.len() == i,
                self.numbers_fit(rows@),
                forall|j: int|
                    #![trigger lines@[j]]
                    0 <= j < i ==> rendered_line_of(
                        lines@[j],
                        rows@[start + j],
                        cursors@,
                        active_cursor,
                        selections@,
                        self.marked_range,
                    ),
            decreases count - i,
        {
            let row = &rows[start + i];
            let line = RenderedLine {
                line_number: row.row + 1,
                text: row.text.clone(),
                continuation: row.continuation,
                cursor_columns: cursor_columns_in(cursors, row.row),
                active_cursor_columns: active_columns_in(active_cursor, row.row),
                selection_ranges: selection_ranges_in(&row.text, &row.source_range, selections),
                marked_ranges: marked_ranges_in(&row.text, &row.source_range, &self.marked_range),
            };
            lines.push(line);
            i = i + 1;
        }
        lines
    }

    /// The rendered rows of the viewport (see `rendered_lines_for_display`).
    pub fn rendered_lines(
        &self,
        rows: &Vec<DisplayRow>,
        cursors: &Vec<DisplayPoint>,
        active_cursor: Option<DisplayPoint>,
        selections: &Vec<Selection>,
    ) -> (lines: Vec<RenderedLine>)
        requires
            self.numbers_fit(rows@),
        ensures
            lines@.len() == self.visible_count(rows@.len() as int),
            forall|i: int|
                #![trigger lines@[i]]
                0 <= i < lines@.len() ==> rendered_line_of(
                    lines@[i],
                    rows@[self.viewport_start_row + i],
                    cursors@,
                    active_cursor,
                    selections@,
                    self.marked_range,
                ),
    {
        self.rendered_lines_for_display(rows, cursors, active_cursor, selections)
    }

    /// The editor as it is drawn: the editor's title and state flags, the
    /// rendered rows of the viewport and the scrollbar.
    pub fn rendered_editor(
        &self,
        title: String,
        is_dirty: bool,
        can_undo: bool,
        can_redo: bool,
        rows: &Vec<DisplayRow>,
        cursors: &Vec<DisplayPoint>,
        active_cursor: Option<DisplayPoint>,
        selections: &Vec<Selection>,
    ) -> (r: RenderedEditor)
        requires
            self.numbers_fit(rows@),
        ensures
            r.title == title,
            r.is_dirty == is_dirty,
            r.can_undo == can_undo,
            r.can_redo == can_redo,
            r.scrollbar == self.scrollbar_spec(rows@.len() as usize),
            r.lines@.len() == self.visible_count(rows@.len() as int),
            forall|i: int|
                #![trigger r.lines@[i]]
                0 <= i < r.lines@.len() ==> rendered_line_of(
                    r.lines@[i],
                    rows@[self.viewport_start_row + i],
                    cursors@,
                    active_cursor,
                    selections@,
                    self.marked_range,
                ),
    {
        let lines = self.rendered_lines_for_display(rows, cursors, active_cursor, selections);
        let scrollbar = self.rendered_scrollbar_for_row_count(rows.len());
        RenderedEditor { title, is_dirty, can_undo, can_redo, lines, scrollbar }
    }

    /// The byte range that platform text input addresses: `range_utf16`
    /// converted to bytes of `text`; without one, the composition; without
    /// that, `active_range` (the active selection).
    pub fn input_range_from_utf16(
        &self,
        text: &str,
        range_utf16: Option<Range<usize>>,
        active_range: Range<usize>,
    ) -> (r: Range<usize>)
        ensures
            r == input_range_spec(text@, range_utf16, self.marked_range, active_range),
    {
        match range_utf16 {
            Some(range) => utf16_range_to_utf8(text, range),
            None => match &self.marked_range {
                Some(marked) => marked.start..marked.end,
                None => active_range,
            },
        }
    }

    /// Begins a replacement by text input: drops the composition and returns
    /// the byte range to replace, which the caller selects and overwrites.
    pub fn begin_replace_input(
        &mut self,
        text: &str,
        range_utf16: Option<Range<usize>>,
        active_range: Range<usize>,
    ) -> (r: Range<usize>)
        ensures
            r == input_range_spec(text@, range_utf16, old(self).marked_range, active_range),
            *final(self) == (EditorView { marked_range: None, ..*old(self) }),
    {
        let range = self.input_range_from_utf16(text, range_utf16, active_range);
        self.marked_range = None;
        range
    }

    /// After `new_text` replaced the bytes at `range`: marks the inserted
    /// text as the composition (none when it is empty) and returns the
    /// selection to make, `new_selected_range_utf16` within the inserted
    /// text, or a caret after it.
    pub fn apply_marked_input(
        &mut self,
        range: Range<usize>,
        new_text: &str,
        new_selected_range_utf16: Option<Range<usize>>,
    ) -> (selection: Range<usize>)
        requires
            range.start + utf8_len(new_text@) <= usize::MAX,
        ensures
            final(self).marked_range == (if new_text@.len() == 0 {
                None::<Range<usize>>
            } else {
                Some(Range { start: range.start, end: (range.start + utf8_len(new_text@)) as usize })
            }),
            *final(self) == (EditorView { marked_range: final(self).marked_range, ..*old(self) }),
            new_selected_range_utf16 is None ==> selection.start == range.start + utf8_len(new_text@)
                && selection.end == selection.start,
            new_selected_range_utf16 matches Some(r16) ==> {
                let a = byte_offset_of(new_text@, utf16_column(new_text@, r16.start as int));
                let b = byte_offset_of(new_text@, utf16_column(new_text@, r16.end as int));
                &&& selection.start == range.start + min_nat(a, b)
                &&& selection.end == range.start + max_nat(a, b)
            },
    {
        let length = byte_len(new_text);
        let inserted_end = range.start + length;
        self.marked_range = if length == 0 {
            None
        } else {
            Some(range.start..inserted_end)
        };
        proof {
            if length == 0 {
                assert(new_text@.len() == 0) by {
                    if new_text@.len() > 0 {
                        crate::text::lemma_byte_offset_strict(new_text@, 0, new_text@.len() as int);
                        crate::text::lemma_byte_offset_end(new_text@);
                    }
                }
            } else {
                assert(new_text@.len() != 0) by {
                    if new_text@.len() == 0 {
                        assert(new_text@ =~= Seq::<char>::empty());
                    }
                }
            }
        }
        match new_selected_range_utf16 {
            Some(r16) => {
                let within = utf16_range_to_utf8(new_text, r16);
                proof {
                    crate::input::lemma_utf16_column(new_text@, r16.start as int, 0);
                    crate::input::lemma_utf16_column(new_text@, r16.end as int, 0);
                    crate::text::lemma_byte_offset_strict(
                        new_text@,
                        utf16_column(new_text@, r16.start as int),
                        new_text@.len() as int,
                    );
                    crate::text::lemma_byte_offset_strict(
                        new_text@,
                        utf16_column(new_text@, r16.end as int),
                        new_text@.len() as int,
                    );
                    crate::text::lemma_byte_offset_end(new_text@);
                }
                range.start + within.start..range.start + within.end
            },
            None => inserted_end..inserted_end,
        }
    }

    /// Where the range `range` of the buffer shows on screen, for the
    /// platform's text input: the visible row and display columns of its
    /// part on the first visible display row it reaches, or, for an empty
    /// range, of the caret at display point `caret`. `None` when off screen.
    pub fn input_display_range(
        &self,
        rows: &Vec<DisplayRow>,
        range: Range<usize>,
        caret: DisplayPoint,
    ) -> (r: Option<(usize, Range<usize>)>)
        requires
            self.viewport_start_row + self.page_rows() <= usize::MAX,
            ({
                let k = first_input_row(
                    rows@,
                    range,
                    self.viewport_start_row as int,
                    self.viewport_start_row + self.page_rows(),
                    0,
                );
                range.start < range.end && 0 <= k < rows@.len() ==> rows@[k].source_range.start
                    <= rows@[k].source_range.end
            }),
        ensures
            ({
                let lo = self.viewport_start_row as int;
                let hi = self.viewport_start_row + self.page_rows();
                &&& range.start >= range.end ==> r == (if lo <= caret.row < hi {
                    Some(
                        ((caret.row - lo) as usize, Range { start: caret.column, end: caret.column }),
                    )
                } else {
                    None::<(usize, Range<usize>)>
                })
                &&& range.start < range.end ==> {
                    let k = first_input_row(rows@, range, lo, hi, 0);
                    &&& k == rows@.len() ==> r is None
                    &&& k < rows@.len() ==> r == Some(
                        input_row_columns(rows@[k], range, self.viewport_start_row),
                    )
                }
            }),
    {
        let lo = self.viewport_start_row;
        let hi = self.viewport_start_row + self.page_rows_exec();
        if range.start >= range.end {
            if lo <= caret.row && caret.row < hi {
                return Some((caret.row - lo, caret.column..caret.column));
            }
            return None;
        }
        let mut i: usize = 0;
        while i < rows.len()
            invariant
                i <= rows@.len(),
                lo == self.viewport_start_row,
                hi == self.viewport_start_row + self.page_rows(),
                range.start < range.end,
                ({
                    let k = first_input_row(rows@, range, lo as int, hi as int, 0);
                    0 <= k < rows@.len() ==> rows@[k].source_range.start <= rows@[k].source_range.end
                }),
                first_input_row(rows@, range, lo as int, hi as int, 0) == first_input_row(
                    rows@,
                    range,
                    lo as int,
                    hi as int,
                    i as int,
                ),
            decreases rows@.len() - i,
        {
            let row = &rows[i];
            if lo <= row.row && row.row < hi && !(range.end <= row.source_range.start || range.start
                >= row.source_range.end) {
                let start = if range.start > row.source_range.start {
                    range.start
                } else {
                    row.source_range.start
                };
                let end = if range.end < row.source_range.end {
                    range.end
                } else {
                    row.source_range.end
                };
                let start_column = crate::layout::display_column_for_byte_offset(
                    &row.text,
                    start - row.source_range.start,
                );
                let end_column = crate::layout::display_column_for_byte_offset(
                    &row.text,
                    end - row.source_range.start,
                );
                return Some((row.row - lo, start_column..end_column));
            }
            i = i + 1;
        }
        None
    }

    /// Starts `command`: drops the view's interactions on cancel, and says
    /// what the caller does on the editor before calling `finish_command`.
    pub fn begin_command(&mut self, command: EditorCommand) -> (plan: CommandPlan)
        ensures
            plan == command_plan_spec(*old(self), command),
            command is Cancel ==> *final(self) == (EditorView {
                marked_range: None,
                selecting_with_mouse: false,
                mouse_selection_checkpoint: None,
                rectangular_selection_start: None,
                drag_autoscroll: None,
                scrollbar_drag: None,
                scrollbar_track_press: None,
                ..*old(self)
            }),
            !(command is Cancel) ==> *final(self) == *old(self),
    {
        match command {
            EditorCommand::ScrollUp => CommandPlan {
                step: EditorStep::Nothing,
                scroll: Some(-1),
                reveal_cursor: false,
            },
            EditorCommand::ScrollDown => CommandPlan {
                step: EditorStep::Nothing,
                scroll: Some(1),
                reveal_cursor: false,
            },
            EditorCommand::PageUp { extend } => {
                let page = self.page_rows_isize();
                CommandPlan {
                    step: EditorStep::MoveDisplayRows { rows: -page, extend },
                    scroll: Some(-1),
                    reveal_cursor: true,
                }
            },
            EditorCommand::PageDown { extend } => {
                let page = self.page_rows_isize();
                CommandPlan {
                    step: EditorStep::MoveDisplayRows { rows: page, extend },
                    scroll: Some(1),
                    reveal_cursor: true,
                }
            },
            EditorCommand::Cancel => {
                self.cancel_interaction();
                CommandPlan { step: EditorStep::CollapseSelections, scroll: None, reveal_cursor: true }
            },
            EditorCommand::Copy | EditorCommand::Cut | EditorCommand::Paste => {
                CommandPlan { step: EditorStep::Nothing, scroll: None, reveal_cursor: true }
            },
            _ => CommandPlan { step: EditorStep::Run(command), scroll: None, reveal_cursor: true },
        }
    }

    /// The page height as a signed row count, at most `isize::MAX`.
    pub fn page_rows_isize(&self) -> (r: isize)
        ensures
            r == page_rows_signed(self.page_rows()),
    {
        let page = self.page_rows_exec();
        if page > isize::MAX as usize {
            isize::MAX
        } else {
            page as isize
        }
    }

    /// Ends a command after the caller ran its editor step: pages the
    /// viewport when the plan says so, then reveals the active cursor on
    /// display row `cursor_row` when it says so, within `row_count` rows.
    pub fn finish_command(&mut self, plan: CommandPlan, cursor_row: Option<usize>, row_count: usize)
        requires
            plan.reveal_cursor ==> reveal_fits(
                scrolled_start(*old(self), plan, row_count),
                old(self).page_rows(),
                cursor_row,
            ),
        ensures
            final(self).same_but_viewport(*old(self)),
            final(self).viewport_start_row == finished_start(*old(self), plan, cursor_row, row_count),
            plan.reveal_cursor ==> (cursor_row matches Some(row) ==> (row < row_count
                ==> final(self).viewport_start_row <= row < final(self).viewport_start_row
                + final(self).page_rows())),
            plan.reveal_cursor && cursor_row is Some ==> final(self).viewport_start_row
                <= old(self).max_start_row(row_count),
    {
        if let Some(direction) = plan.scroll {
            self.scroll_viewport(direction, row_count);
        }
        if plan.reveal_cursor {
            self.reveal_active_cursor(cursor_row, row_count);
        }
    }

    /// Starts a paste of `text` over `selections` of the buffer `buffer_text`:
    /// line-wise when `text` is the last line copy, ends with a newline and
    /// no selection covers text; then the new carets go to the starts of the
    /// lines holding the selection heads.
    pub fn begin_paste(&self, text: &str, selections: &Vec<Selection>, buffer_text: &str) -> (plan: PastePlan)
        ensures
            plan.line_starts is Some <==> linewise_paste_spec(
                text@,
                selections@,
                line_copy_view(self.linewise_clipboard_text),
            ),
            plan.line_starts matches Some(starts) ==> {
                let lines = selected_lines(buffer_text@, heads_spec(selections@));
                &&& starts@.len() == lines.len()
                &&& forall|i: int|
                    #![trigger starts@[i]]
                    0 <= i < starts@.len() ==> starts@[i].start == byte_offset_of(buffer_text@, lines[i])
                        && starts@[i].end == starts@[i].start
            },
    {
        let line_copy = match &self.linewise_clipboard_text {
            Some(copy) => Some(copy.as_str()),
            None => None,
        };
        if is_linewise_paste(text, selections, line_copy) {
            let heads = heads_of(selections);
            PastePlan { line_starts: Some(line_start_ranges_for_offsets(buffer_text, &heads)) }
        } else {
            PastePlan { line_starts: None }
        }
    }

    /// The pieces of `text` to insert, one per selection, when the paste
    /// spreads over the `selection_count` selections (split after each
    /// newline for a line-wise paste, at the newlines otherwise); `None`
    /// when the whole text goes in at each selection.
    pub fn paste_pieces(&self, plan: &PastePlan, text: &str, selection_count: usize) -> (r: Option<Vec<String>>)
        ensures
            ({
                let linewise = plan.line_starts is Some;
                &&& r is Some <==> selection_count > 1 && selection_count == (if linewise {
                    inclusive_piece_count(text@)
                } else {
                    newline_count(text@) + 1
                })
                &&& r matches Some(pieces) ==> pieces@.len() == selection_count && (if linewise {
                    is_inclusive_split(text@, string_views(pieces@))
                } else {
                    is_newline_split(text@, string_views(pieces@))
                })
            }),
    {
        distributed_paste_replacements(text, selection_count, plan.line_starts.is_some())
    }

    /// Ends a paste after the caller inserted the text: reveals the active
    /// cursor and forgets the line copy, which the clipboard no longer
    /// stands for.
    pub fn finish_paste(&mut self, cursor_row: Option<usize>, row_count: usize)
        requires
            reveal_fits(old(self).viewport_start_row as int, old(self).page_rows(), cursor_row),
        ensures
            final(self).linewise_clipboard_text is None,
            cursor_row matches Some(row) ==> (row < row_count ==> final(self).viewport_start_row
                <= row < final(self).viewport_start_row + final(self).page_rows()),
            final(self).viewport_start_row == reveal_result(
                old(self).viewport_start_row as int,
                old(self).page_rows(),
                cursor_row,
                old(self).max_start_row(row_count),
            ),
            cursor_row is None ==> final(self).viewport_start_row == old(self).viewport_start_row,
            *final(self) == (EditorView {
                linewise_clipboard_text: None,
                viewport_start_row: final(self).viewport_start_row,
                ..*old(self)
            }),
    {
        self.reveal_active_cursor(cursor_row, row_count);
        self.linewise_clipboard_text = None;
    }
}

/// The first row after `reveal_active_cursor` from first row `start`:
/// unchanged without a cursor; else moved to show the cursor and kept
/// within `max_start`.
pub open spec fn reveal_result(start: int, page_rows: int, cursor_row: Option<usize>, max_start: int) -> int {
    match cursor_row {
        Some(_) => clamp_start(revealed_start(start, page_rows, cursor_row), max_start),
        None => start,
    }
}

/// The first row after revealing a cursor on `cursor_row`: the cursor's row
/// when it is above the viewport, the row that puts it on the last line
/// when it is below, else unchanged.
pub open spec fn revealed_start(start: int, page_rows: int, cursor_row: Option<usize>) -> int {
    match cursor_row {
        Some(row) => if row < start {
            row as int
        } else if row >= start + page_rows {
            row + 1 - page_rows
        } else {
            start
        },
        None => start,
    }
}

/// `start`, lowered to `max_start` when it is past it.
pub open spec fn clamp_start(start: int, max_start: int) -> int {
    if start <= max_start {
        start
    } else {
        max_start
    }
}

/// The scrollbar cell under `position` for `view`, as the hovered row.
pub open spec fn hovered_row_at<E, C>(view: EditorView<E, C>, position: Point) -> Option<usize> {
    if !EditorView::<E, C>::over_scrollbar_track(position) || position.y < rows_origin_y() || (
    position.y - rows_origin_y()) / (LINE_HEIGHT as int) >= view.page_rows() {
        None
    } else {
        Some(((position.y - rows_origin_y()) / (LINE_HEIGHT as int)) as usize)
    }
}

/// The first row of `view`'s viewport after a drag at `position`.
pub open spec fn drag_point_start<E, C>(view: EditorView<E, C>, position: Point, row_count: usize) -> int {
    if position.y < rows_origin_y() {
        clamp_start(
            saturating_add_signed_spec(view.viewport_start_row, -1isize) as int,
            view.max_start_row(row_count),
        )
    } else if visible_row_at(position) >= view.page_rows() {
        clamp_start(
            saturating_add_signed_spec(view.viewport_start_row, 1isize) as int,
            view.max_start_row(row_count),
        )
    } else {
        view.viewport_start_row as int
    }
}

/// The display point a drag at `position` extends the selection to.
pub open spec fn drag_point_spec<E, C>(view: EditorView<E, C>, position: Point, row_count: usize) -> (usize, usize) {
    let start = drag_point_start(view, position, row_count);
    let row = if position.y < rows_origin_y() {
        start
    } else if visible_row_at(position) >= view.page_rows() {
        start + view.page_rows() - 1
    } else {
        start + visible_row_at(position)
    };
    (row as usize, display_column_at(position) as usize)
}


/// `page_rows` as a signed row count, at most `isize::MAX`.
pub open spec fn page_rows_signed(page_rows: int) -> isize {
    if page_rows > isize::MAX {
        isize::MAX
    } else {
        page_rows as isize
    }
}

/// How `command` runs on `view`.
pub open spec fn command_plan_spec<E, C>(view: EditorView<E, C>, command: EditorCommand) -> CommandPlan {
    match command {
        EditorCommand::ScrollUp => CommandPlan {
            step: EditorStep::Nothing,
            scroll: Some(-1isize),
            reveal_cursor: false,
        },
        EditorCommand::ScrollDown => CommandPlan {
            step: EditorStep::Nothing,
            scroll: Some(1isize),
            reveal_cursor: false,
        },
        EditorCommand::PageUp { extend } => CommandPlan {
            step: EditorStep::MoveDisplayRows { rows: (-page_rows_signed(view.page_rows())) as isize, extend },
            scroll: Some(-1isize),
            reveal_cursor: true,
        },
        EditorCommand::PageDown { extend } => CommandPlan {
            step: EditorStep::MoveDisplayRows { rows: page_rows_signed(view.page_rows()), extend },
            scroll: Some(1isize),
            reveal_cursor: true,
        },
        EditorCommand::Cancel => CommandPlan {
            step: EditorStep::CollapseSelections,
            scroll: None,
            reveal_cursor: true,
        },
        EditorCommand::Copy | EditorCommand::Cut | EditorCommand::Paste => CommandPlan {
            step: EditorStep::Nothing,
            scroll: None,
            reveal_cursor: true,
        },
        _ => CommandPlan { step: EditorStep::Run(command), scroll: None, reveal_cursor: true },
    }
}

/// The first row after `finish_command`: paged as the plan says, then
/// moved to reveal the cursor as it says, and kept within the rows.
pub open spec fn finished_start<E, C>(
    view: EditorView<E, C>,
    plan: CommandPlan,
    cursor_row: Option<usize>,
    row_count: usize,
) -> int {
    let paged = scrolled_start(view, plan, row_count);
    if plan.reveal_cursor {
        reveal_result(paged, view.page_rows(), cursor_row, view.max_start_row(row_count))
    } else {
        paged
    }
}

/// The byte range that text input addresses.
pub open spec fn input_range_spec(
    text: Seq<char>,
    range_utf16: Option<Range<usize>>,
    marked_range: Option<Range<usize>>,
    active_range: Range<usize>,
) -> Range<usize> {
    match range_utf16 {
        Some(r16) => {
            let a = byte_offset_of(text, utf16_column(text, r16.start as int));
            let b = byte_offset_of(text, utf16_column(text, r16.end as int));
            Range { start: min_nat(a, b) as usize, end: max_nat(a, b) as usize }
        },
        None => match marked_range {
            Some(marked) => marked,
            None => active_range,
        },
    }
}

/// Index of the first of `rows`, from `i` on, that is visible (its row in
/// `lo..hi`) and shows some byte of `range`; the row count when none does.
pub open spec fn first_input_row(rows: Seq<DisplayRow>, range: Range<usize>, lo: int, hi: int, i: int) -> int
    decreases rows.len() - i,
{
    if i >= rows.len() || i < 0 {
        rows.len() as int
    } else if lo <= rows[i].row < hi && !(range.end <= rows[i].source_range.start || range.start
        >= rows[i].source_range.end) {
        i
    } else {
        first_input_row(rows, range, lo, hi, i + 1)
    }
}

/// The visible row and display columns of the part of `range` on `row`.
pub open spec fn input_row_columns(row: DisplayRow, range: Range<usize>, first_row: usize) -> (usize, Range<usize>) {
    let start = if range.start > row.source_range.start {
        range.start
    } else {
        row.source_range.start
    };
    let end = if range.end < row.source_range.end {
        range.end
    } else {
        row.source_range.end
    };
    (
        (row.row - first_row) as usize,
        Range {
            start: column_for_byte(row.text@, start - row.source_range.start) as usize,
            end: column_for_byte(row.text@, end - row.source_range.start) as usize,
        },
    )
}

/// Columns of the cursors on display row `row`, in order.
pub open spec fn cursor_columns_on(cursors: Seq<DisplayPoint>, row: usize) -> Seq<usize>
    decreases cursors.len(),
{
    if cursors.len() == 0 {
        Seq::empty()
    } else if cursors.last().row == row {
        cursor_columns_on(cursors.drop_last(), row).push(cursors.last().column)
    } else {
        cursor_columns_on(cursors.drop_last(), row)
    }
}

/// The cursor columns drawn on display row `row` are the columns of all the
/// cursors on that row, in the cursors' order: every cursor on the row
/// appears, once for each time it is listed.
pub proof fn lemma_cursor_columns_on_row(cursors: Seq<DisplayPoint>, row: usize)
    ensures
        cursor_columns_on(cursors, row) == cursors.filter(|p: DisplayPoint| p.row == row).map_values(
            |p: DisplayPoint| p.column,
        ),
        forall|i: int|
            0 <= i < cursors.len() && cursors[i].row == row ==> cursor_columns_on(
                cursors,
                row,
            ).contains(#[trigger] cursors[i].column),
    decreases cursors.len(),
{
    let pred = |p: DisplayPoint| p.row == row;
    let f = |p: DisplayPoint| p.column;
    if cursors.len() > 0 {
        lemma_cursor_columns_on_row(cursors.drop_last(), row);
        let sub = cursors.drop_last().filter(pred);
        assert(cursors.filter(pred) == (if pred(cursors.last()) {
            sub.push(cursors.last())
        } else {
            sub
        })) by {
            reveal(Seq::filter);
        }
        if pred(cursors.last()) {
            assert(sub.push(cursors.last()).map_values(f) =~= sub.map_values(f).push(
                f(cursors.last()),
            ));
        }
    } else {
        assert(cursors.filter(pred) =~= Seq::<DisplayPoint>::empty()) by {
            reveal(Seq::filter);
        }
    }
    let cols = cursor_columns_on(cursors, row);
    assert forall|i: int|
        0 <= i < cursors.len() && cursors[i].row == row implies cols.contains(
        #[trigger] cursors[i].column,
    ) by {
        cursors.lemma_filter_contains(pred, i);
        let filtered = cursors.filter(pred);
        let j = choose|j: int| 0 <= j < filtered.len() && filtered[j] == cursors[i];
        assert(cols[j] == cursors[i].column);
    }
}

/// Column of the active cursor when it is on display row `row`.
pub open spec fn active_columns_on(active_cursor: Option<DisplayPoint>, row: usize) -> Seq<usize> {
    match active_cursor {
        Some(cursor) => if cursor.row == row {
            seq![cursor.column]
        } else {
            Seq::empty()
        },
        None => Seq::empty(),
    }
}

/// Display columns that the non-empty `selections` cover on a row with
/// text `text` showing `source_range`, in order.
pub open spec fn selection_ranges_on(text: Seq<char>, source_range: Range<usize>, selections: Seq<Selection>) -> Seq<Range<usize>>
    decreases selections.len(),
{
    if selections.len() == 0 {
        Seq::empty()
    } else {
        let rest = selection_ranges_on(text, source_range, selections.drop_last());
        let s = selections.last();
        if s.start == s.end {
            rest
        } else {
            match display_range_spec(text, source_range, Range { start: s.start, end: s.end }) {
                Some(r) => rest.push(r),
                None => rest,
            }
        }
    }
}

/// Display columns that the composition covers on such a row.
pub open spec fn marked_ranges_on(text: Seq<char>, source_range: Range<usize>, marked_range: Option<Range<usize>>) -> Seq<Range<usize>> {
    match marked_range {
        Some(marked) => match display_range_spec(text, source_range, marked) {
            Some(r) => seq![r],
            None => Seq::empty(),
        },
        None => Seq::empty(),
    }
}

/// `line` renders display row `row` with these cursors, selections and
/// composition.
pub open spec fn rendered_line_of(
    line: RenderedLine,
    row: DisplayRow,
    cursors: Seq<DisplayPoint>,
    active_cursor: Option<DisplayPoint>,
    selections: Seq<Selection>,
    marked_range: Option<Range<usize>>,
) -> bool {
    &&& line.line_number == row.row + 1
    &&& line.text@ == row.text@
    &&& line.continuation == row.continuation
    &&& line.cursor_columns@ == cursor_columns_on(cursors, row.row)
    &&& line.active_cursor_columns@ == active_columns_on(active_cursor, row.row)
    &&& line.selection_ranges@ == selection_ranges_on(row.text@, row.source_range, selections)
    &&& line.marked_ranges@ == marked_ranges_on(row.text@, row.source_range, marked_range)
}

/// Columns of the cursors on display row `row`.
fn cursor_columns_in(cursors: &Vec<DisplayPoint>, row: usize) -> (r: Vec<usize>)
    ensures
        r@ == cursor_columns_on(cursors@, row),
{
    let mut r: Vec<usize> = Vec::new();
    let mut i: usize = 0;
    while i < cursors.len()
        invariant
            i <= cursors@.len(),
            r@ == cursor_columns_on(cursors@.take(i as int), row),
        decreases cursors@.len() - i,
    {
        assert(cursors@.take(i + 1).drop_last() =~= cursors@.take(i as int));
        if cursors[i].row == row {
            r.push(cursors[i].column);
        }
        i = i + 1;
    }
    assert(cursors@.take(cursors@.len() as int) =~= cursors@);
    r
}

/// Column of the active cursor when it is on display row `row`.
fn active_columns_in(active_cursor: Option<DisplayPoint>, row: usize) -> (r: Vec<usize>)
    ensures
        r@ == active_columns_on(active_cursor, row),
{
    let mut r: Vec<usize> = Vec::new();
    if let Some(cursor) = active_cursor {
        if cursor.row == row {
            r.push(cursor.column);
            assert(r@ =~= seq![cursor.column]);
        }
    }
    r
}

/// Display columns that the non-empty `selections` cover on a row.
fn selection_ranges_in(text: &String, source_range: &Range<usize>, selections: &Vec<Selection>) -> (r: Vec<Range<usize>>)
    ensures
        r@ == selection_ranges_on(text@, *source_range, selections@),
{
    let mut r: Vec<Range<usize>> = Vec::new();
    let mut i: usize = 0;
    while i < selections.len()
        invariant
            i <= selections@.len(),
            r@ == selection_ranges_on(text@, *source_range, selections@.take(i as int)),
        decreases selections@.len() - i,
    {
        assert(selections@.take(i + 1).drop_last() =~= selections@.take(i as int));
        let selection = selections[i];
        if selection.start != selection.end {
            if let Some(columns) = display_range_for_source_range(
                text.as_str(),
                source_range,
                selection.start..selection.end,
            ) {
                r.push(columns);
            }
        }
        i = i + 1;
    }
    assert(selections@.take(selections@.len() as int) =~= selections@);
    r
}

/// Display columns that the composition covers on a row.
fn marked_ranges_in(text: &String, source_range: &Range<usize>, marked_range: &Option<Range<usize>>) -> (r: Vec<Range<usize>>)
    ensures
        r@ == marked_ranges_on(text@, *source_range, *marked_range),
{
    let mut r: Vec<Range<usize>> = Vec::new();
    if let Some(marked) = marked_range {
        if let Some(columns) = display_range_for_source_range(
            text.as_str(),
            source_range,
            marked.start..marked.end,
        ) {
            r.push(columns);
            assert(r@ =~= seq![columns]);
        }
    }
    r
}

/// Which selection text input replaces when there is no composition: the
/// active selection, or the start of the buffer when there is none.
pub fn active_input_range(selections: &Vec<Selection>, active_index: usize) -> (r: Range<usize>)
    ensures
        active_index < selections@.len() ==> r == (Range {
            start: selections@[active_index as int].start,
            end: selections@[active_index as int].end,
        }),
        active_index >= selections@.len() ==> r == (Range { start: 0usize, end: 0usize }),
{
    if active_index < selections.len() {
        selections[active_index].start..selections[active_index].end
    } else {
        0..0
    }
}

/// The window the application opens for `editor`: 900 by 600 pixels,
/// centered, showing a new view of it.
pub fn run<E, C>(editor: E) -> (window: WindowPlan<E, C>)
    ensures
        window.width == 900,
        window.height == 600,
        window.view == EditorView::<E, C>::initial(editor),
{
    WindowPlan { width: 900, height: 600, view: EditorView::new(editor) }
}


/// Paging down and then up leaves the viewport where it was, when a whole
/// page of rows lies below it; and so does paging up and then down, when a
/// whole page lies above it.
pub proof fn lemma_page_round_trip<E, C>(view: EditorView<E, C>, row_count: usize)
    requires
        view.page_rows() <= isize::MAX,
        view.viewport_start_row <= view.max_start_row(row_count),
    ensures
        view.viewport_start_row + view.page_rows() <= view.max_start_row(row_count) ==> (EditorView {
            viewport_start_row: view.paged_start(1isize, row_count) as usize,
            ..view
        }).paged_start(-1isize, row_count) == view.viewport_start_row,
        view.viewport_start_row >= view.page_rows() ==> (EditorView {
            viewport_start_row: view.paged_start(-1isize, row_count) as usize,
            ..view
        }).paged_start(1isize, row_count) == view.viewport_start_row,
{
}



/// The first row after the page scroll of `plan`, if any.
pub open spec fn scrolled_start<E, C>(view: EditorView<E, C>, plan: CommandPlan, row_count: usize) -> int {
    match plan.scroll {
        Some(direction) => view.paged_start(direction, row_count),
        None => view.viewport_start_row as int,
    }
}

/// Revealing a cursor on `cursor_row` from first row `start` stays within
/// `usize`: the viewport's end when the cursor is not above it, and the row
/// after the cursor when it is below.
pub open spec fn reveal_fits(start: int, page_rows: int, cursor_row: Option<usize>) -> bool {
    match cursor_row {
        Some(row) => row >= start ==> (start + page_rows <= usize::MAX && (row >= start
            + page_rows ==> row < usize::MAX)),
        None => true,
    }
}

/// A drag at `position` inside the viewport names a row within `usize`.
pub open spec fn drag_fits<E, C>(view: EditorView<E, C>, position: Point) -> bool {
    position.y >= rows_origin_y() && visible_row_at(position) < view.page_rows()
        ==> view.viewport_start_row + visible_row_at(position) <= usize::MAX
}


/// Scrolling a page up or down leaves the editor alone, reveals no cursor,
/// and moves the viewport one page within the display, wherever the cursor is.
pub proof fn lemma_scroll_commands<E, C>(view: EditorView<E, C>, cursor_row: Option<usize>, row_count: usize)
    ensures
        command_plan_spec(view, EditorCommand::ScrollDown).step == EditorStep::Nothing,
        command_plan_spec(view, EditorCommand::ScrollUp).step == EditorStep::Nothing,
        finished_start(view, command_plan_spec(view, EditorCommand::ScrollDown), cursor_row, row_count)
            == view.paged_start(1isize, row_count),
        finished_start(view, command_plan_spec(view, EditorCommand::ScrollUp), cursor_row, row_count)
            == view.paged_start(-1isize, row_count),
        view.paged_start(1isize, row_count) <= view.max_start_row(row_count),
        view.paged_start(-1isize, row_count) <= view.max_start_row(row_count),
{
}

/// Paging moves every cursor by one viewport of display rows (at least one
/// row), up for page-up and down for page-down, extending the selections
/// exactly when the command asks to, then scrolls a page the same way and
/// reveals the cursor.
pub proof fn lemma_page_commands<E, C>(view: EditorView<E, C>, extend: bool)
    ensures
        command_plan_spec(view, EditorCommand::PageUp { extend }).step matches EditorStep::MoveDisplayRows {
            rows,
            extend: e,
        } && e == extend && rows < 0 && -rows == min_int(view.page_rows(), isize::MAX as int),
        command_plan_spec(view, EditorCommand::PageDown { extend }).step matches EditorStep::MoveDisplayRows {
            rows,
            extend: e,
        } && e == extend && rows > 0 && rows == min_int(view.page_rows(), isize::MAX as int),
        command_plan_spec(view, EditorCommand::PageUp { extend }).scroll == Some(-1isize),
        command_plan_spec(view, EditorCommand::PageDown { extend }).scroll == Some(1isize),
        command_plan_spec(view, EditorCommand::PageUp { extend }).reveal_cursor,
        command_plan_spec(view, EditorCommand::PageDown { extend }).reveal_cursor,
{
}

/// The last line copy's text, if any.
pub open spec fn line_copy_view(copy: Option<String>) -> Option<Seq<char>> {
    match copy {
        Some(text) => Some(text@),
        None => None,
    }
}

/// Where the cursors of `selections` are.
pub open spec fn heads_spec(selections: Seq<Selection>) -> Seq<usize> {
    selections.map_values(|s: Selection| s.head_spec())
}

/// Where the cursors of `selections` are.
fn heads_of(selections: &Vec<Selection>) -> (heads: Vec<usize>)
    ensures
        heads@ == heads_spec(selections@),
{
    let mut heads: Vec<usize> = Vec::new();
    let mut i: usize = 0;
    while i < selections.len()
        invariant
            i <= selections@.len(),
            heads@ == heads_spec(selections@.take(i as int)),
        decreases selections@.len() - i,
    {
        heads.push(selections[i].head());
        assert(heads_spec(selections@.take(i + 1)) =~= heads_spec(selections@.take(i as int)).push(
            selections@[i as int].head_spec(),
        ));
        i = i + 1;
    }
    assert(selections@.take(selections@.len() as int) =~= selections@);
    heads
}

} // verus!
