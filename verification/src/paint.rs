//! What is painted for the editor, decided before any pixel geometry: the
//! layer and color of each box drawn over a line, and the colors of the
//! header and the scrollbar cells. Colors are `0xRRGGBB`.
use vstd::prelude::*;
use crate::render_model::{RenderedLineOverlay, RenderedLineOverlayKind, RenderedScrollbarRowState};

verus! {

pub const SELECTION_COLOR: u32 = 0x264f78;
pub const MARKED_COLOR: u32 = 0x3a2f14;
pub const ACTIVE_CURSOR_COLOR: u32 = 0xf0f6fc;
pub const CURSOR_COLOR: u32 = 0x8b949e;
pub const DIRTY_HEADER_COLOR: u32 = 0xffd33d;
pub const CLEAN_HEADER_COLOR: u32 = 0x8b949e;
pub const PRESSED_CELL_COLOR: u32 = 0xf0f6fc;
pub const HOVERED_THUMB_COLOR: u32 = 0x8b949e;
pub const THUMB_COLOR: u32 = 0x6e7681;
pub const HOVERED_TRACK_COLOR: u32 = 0x484f58;
pub const TRACK_COLOR: u32 = 0x30363d;

/// A box to paint over a line, in `color`.
#[derive(Clone, Copy, Debug, PartialEq, Eq)]
pub struct OverlayPaint {
    pub overlay: RenderedLineOverlay,
    pub color: u32,
}

/// The boxes of a line: those painted under the text (selections and
/// compositions) and those painted over it (cursors).
#[derive(Debug, PartialEq, Eq)]
pub struct LinePaints {
    pub background: Vec<OverlayPaint>,
    pub cursors: Vec<OverlayPaint>,
}

/// The color of an overlay's box.
pub open spec fn overlay_color(kind: RenderedLineOverlayKind) -> u32 {
    match kind {
        RenderedLineOverlayKind::Selection => SELECTION_COLOR,
        RenderedLineOverlayKind::Marked => MARKED_COLOR,
        RenderedLineOverlayKind::Cursor { active } => if active {
            ACTIVE_CURSOR_COLOR
        } else {
            CURSOR_COLOR
        },
    }
}

/// The boxes painted under the text, in order.
pub open spec fn background_paints(overlays: Seq<RenderedLineOverlay>) -> Seq<OverlayPaint>
    decreases overlays.len(),
{
    if overlays.len() == 0 {
        Seq::empty()
    } else {
        let rest = background_paints(overlays.drop_last());
        let o = overlays.last();
        if o.kind is Cursor {
            rest
        } else {
            rest.push(OverlayPaint { overlay: o, color: overlay_color(o.kind) })
        }
    }
}

/// The cursor boxes, in order; the active cursor's only while the blink
/// shows it.
pub open spec fn cursor_paints(overlays: Seq<RenderedLineOverlay>, active_cursor_visible: bool) -> Seq<OverlayPaint>
    decreases overlays.len(),
{
    if overlays.len() == 0 {
        Seq::empty()
    } else {
        let rest = cursor_paints(overlays.drop_last(), active_cursor_visible);
        let o = overlays.last();
        match o.kind {
            RenderedLineOverlayKind::Cursor { active } => if active && !active_cursor_visible {
                rest
            } else {
                rest.push(OverlayPaint { overlay: o, color: overlay_color(o.kind) })
            },
            _ => rest,
        }
    }
}

/// Sorts a line's overlays into the boxes painted under and over its text.
pub fn line_paints(overlays: &Vec<RenderedLineOverlay>, active_cursor_visible: bool) -> (r: LinePaints)
    ensures
        r.background@ == background_paints(overlays@),
        r.cursors@ == cursor_paints(overlays@, active_cursor_visible),
{
    let mut background: Vec<OverlayPaint> = Vec::new();
    let mut cursors: Vec<OverlayPaint> = Vec::new();
    let mut i: usize = 0;
    while i < overlays.len()
        invariant
            i <= overlays@.len(),
            background@ == background_paints(overlays@.take(i as int)),
            cursors@ == cursor_paints(overlays@.take(i as int), active_cursor_visible),
        decreases overlays@.len() - i,
    {
        assert(overlays@.take(i + 1).drop_last() =~= overlays@.take(i as int));
        let overlay = overlays[i];
        match overlay.kind {
            RenderedLineOverlayKind::Selection => {
                background.push(OverlayPaint { overlay, color: SELECTION_COLOR });
            },
            RenderedLineOverlayKind::Marked => {
                background.push(OverlayPaint { overlay, color: MARKED_COLOR });
            },
            RenderedLineOverlayKind::Cursor { active } => {
                if !(active && !active_cursor_visible) {
                    let color = if active {
                        ACTIVE_CURSOR_COLOR
                    } else {
                        CURSOR_COLOR
                    };
                    cursors.push(OverlayPaint { overlay, color });
                }
            },
        }
        i = i + 1;
    }
    assert(overlays@.take(overlays@.len() as int) =~= overlays@);
    LinePaints { background, cursors }
}

/// The header's text color: highlighted while there are unsaved changes.
pub fn header_color(is_dirty: bool) -> (r: u32)
    ensures
        r == (if is_dirty {
            DIRTY_HEADER_COLOR
        } else {
            CLEAN_HEADER_COLOR
        }),
{
    if is_dirty {
        DIRTY_HEADER_COLOR
    } else {
        CLEAN_HEADER_COLOR
    }
}

/// The color of a scrollbar cell: pressed first, then the thumb (lighter
/// under the mouse), then the track (lighter under the mouse).
pub fn scrollbar_row_color(state: RenderedScrollbarRowState) -> (r: u32)
    ensures
        r == (if state.pressed {
            PRESSED_CELL_COLOR
        } else if state.thumb && state.hovered {
            HOVERED_THUMB_COLOR
        } else if state.thumb {
            THUMB_COLOR
        } else if state.hovered {
            HOVERED_TRACK_COLOR
        } else {
            TRACK_COLOR
        }),
{
    if state.pressed {
        PRESSED_CELL_COLOR
    } else if state.thumb && state.hovered {
        HOVERED_THUMB_COLOR
    } else if state.thumb {
        THUMB_COLOR
    } else if state.hovered {
        HOVERED_TRACK_COLOR
    } else {
        TRACK_COLOR
    }
}

} // verus!
