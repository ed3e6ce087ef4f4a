use ui::command::Selection;
use ui::input::{utf16_offset_to_utf8, utf16_range_to_utf8, utf8_offset_to_utf16, utf8_range_to_utf16};
use ui::layout::{bounds_for_visible_display_range, Bounds, Point, Size, CARET_WIDTH, CONTENT_GAP, DISPLAY_COLUMN_WIDTH, EDITOR_PADDING, HEADER_HEIGHT, LINE_HEIGHT, LINE_NUMBER_WIDTH};
use ui::view::{active_input_range, DisplayPoint, DisplayRow, EditorView};

#[test]
fn utf16_offsets_convert_to_utf8_boundaries() {
    let text = "a😀c";
    assert_eq!(utf16_offset_to_utf8(text, 0), 0);
    assert_eq!(utf16_offset_to_utf8(text, 1), 1);
    // Inside the surrogate pair the conversion moves on to the next boundary.
    assert_eq!(utf16_offset_to_utf8(text, 2), 5);
    assert_eq!(utf16_offset_to_utf8(text, 3), 5);
    assert_eq!(utf16_offset_to_utf8(text, 4), 6);
    assert_eq!(utf16_offset_to_utf8(text, 40), 6);
    assert_eq!(utf8_offset_to_utf16(text, 1), 1);
    assert_eq!(utf8_offset_to_utf16(text, 3), 3);
    assert_eq!(utf8_offset_to_utf16(text, 5), 3);
    assert_eq!(utf8_offset_to_utf16(text, 6), 4);
    assert_eq!(utf16_range_to_utf8(text, 3..1), 1..5);
    assert_eq!(utf8_range_to_utf16(text, 1..5), 1..3);
}

#[test]
fn offset_conversions_round_trip_at_boundaries() {
    let text = "é😀z\n";
    for utf16 in [0, 1, 3, 4, 5] {
        assert_eq!(utf8_offset_to_utf16(text, utf16_offset_to_utf8(text, utf16)), utf16);
    }
    for utf8 in [0, 2, 6, 7, 8] {
        assert_eq!(utf16_offset_to_utf8(text, utf8_offset_to_utf16(text, utf8)), utf8);
    }
}

#[test]
fn input_gpui_text_input_uses_utf16_replacement_ranges() {
    // In "a😀c" the UTF-16 range 1..3 is the emoji, bytes 1..5.
    let mut view: EditorView<(), ()> = EditorView::new(());
    assert_eq!(view.begin_replace_input("a😀c", Some(1..3), 0..0), 1..5);
    assert_eq!(view.marked_range, None);
}

#[test]
fn input_gpui_text_input_replaces_active_selection() {
    // Without a range or composition, input replaces the active selection.
    let mut view: EditorView<(), ()> = EditorView::new(());
    let selections = vec![Selection { id: 0, start: 1, end: 4, reversed: false }];
    let active = active_input_range(&selections, 0);
    assert_eq!(view.begin_replace_input("hello", None, active), 1..4);
    assert_eq!(active_input_range(&selections, 3), 0..0);
}

#[test]
fn input_gpui_marked_text_tracks_composition_range() {
    // "ac" with the caret at 1: composing "b" marks it and selects after it.
    let mut view: EditorView<(), ()> = EditorView::new(());
    let range = view.input_range_from_utf16("ac", None, 1..1);
    assert_eq!(range, 1..1);
    let selection = view.apply_marked_input(range, "b", Some(1..1));
    assert_eq!(view.marked_range, Some(1..2));
    assert_eq!(selection, 2..2);
    // A later input without a range replaces the composition.
    assert_eq!(view.input_range_from_utf16("abc", None, 2..2), 1..2);
    // An empty composition marks nothing.
    let selection = view.apply_marked_input(1..2, "", None);
    assert_eq!(view.marked_range, None);
    assert_eq!(selection, 1..1);
}

#[test]
fn input_input_range_bounds_use_utf16_and_display_columns() {
    let rows = vec![DisplayRow { row: 0, text: "a😀c".to_string(), continuation: false, source_range: 0..6 }];
    let view: EditorView<(), ()> = EditorView::new(());
    let element_bounds = Bounds { origin: Point { x: 100, y: 50 }, size: Size { width: 400, height: 200 } };

    let range = utf16_range_to_utf8("a😀c", 1..3);
    let (row, columns) = view.input_display_range(&rows, range, DisplayPoint { row: 0, column: 1 }).unwrap();
    assert_eq!(
        bounds_for_visible_display_range(element_bounds, row, columns),
        Bounds {
            origin: Point {
                x: 100 + EDITOR_PADDING + LINE_NUMBER_WIDTH + CONTENT_GAP + DISPLAY_COLUMN_WIDTH,
                y: 50 + EDITOR_PADDING + HEADER_HEIGHT,
            },
            size: Size { width: DISPLAY_COLUMN_WIDTH, height: LINE_HEIGHT },
        }
    );

    let caret = utf16_range_to_utf8("a😀c", 3..3);
    assert_eq!(caret, 5..5);
    let (row, columns) = view.input_display_range(&rows, caret, DisplayPoint { row: 0, column: 2 }).unwrap();
    assert_eq!(
        bounds_for_visible_display_range(element_bounds, row, columns),
        Bounds {
            origin: Point {
                x: 100 + EDITOR_PADDING + LINE_NUMBER_WIDTH + CONTENT_GAP + DISPLAY_COLUMN_WIDTH * 2,
                y: 50 + EDITOR_PADDING + HEADER_HEIGHT,
            },
            size: Size { width: CARET_WIDTH, height: LINE_HEIGHT },
        }
    );
}

#[test]
fn input_input_range_bounds_track_viewport_rows() {
    // "0\n1\n2": three rows, one visible.
    let rows = vec![
        DisplayRow { row: 0, text: "0".to_string(), continuation: false, source_range: 0..1 },
        DisplayRow { row: 1, text: "1".to_string(), continuation: false, source_range: 2..3 },
        DisplayRow { row: 2, text: "2".to_string(), continuation: false, source_range: 4..5 },
    ];
    let mut view: EditorView<(), ()> = EditorView::new(()).with_viewport_rows(1);
    let caret = DisplayPoint { row: 0, column: 0 };

    assert_eq!(view.input_display_range(&rows, 4..5, caret), None);

    let plan = view.begin_command(ui::command::EditorCommand::ScrollDown);
    view.finish_command(plan, None, 3);
    let plan = view.begin_command(ui::command::EditorCommand::ScrollDown);
    view.finish_command(plan, None, 3);

    assert_eq!(view.input_display_range(&rows, 4..5, caret), Some((0, 0..1)));
}


#[test]
fn ui_gpui_text_input_replaces_active_selection() {
    input_gpui_text_input_replaces_active_selection();
}

#[test]
fn ui_gpui_text_input_uses_utf16_replacement_ranges() {
    input_gpui_text_input_uses_utf16_replacement_ranges();
}

#[test]
fn ui_gpui_marked_text_tracks_composition_range() {
    input_gpui_marked_text_tracks_composition_range();
}

#[test]
fn ui_input_range_bounds_use_utf16_and_display_columns() {
    input_input_range_bounds_use_utf16_and_display_columns();
}

#[test]
fn ui_input_range_bounds_track_viewport_rows() {
    input_input_range_bounds_track_viewport_rows();
}
