use ui::command::Selection;
use ui::render_model::{
    RenderedEditor, RenderedLine, RenderedLineFragment, RenderedLineOverlay,
    RenderedLineOverlayKind,
};
use ui::view::{DisplayPoint, DisplayRow, EditorView};
use ui::paint::{line_paints, scrollbar_row_color, header_color, ACTIVE_CURSOR_COLOR, CURSOR_COLOR, MARKED_COLOR, SELECTION_COLOR};
use ui::render_model::RenderedScrollbarRowState;

fn fragment(text: &str, selected: bool, marked: bool, cursor: bool, active: bool) -> RenderedLineFragment {
    RenderedLineFragment { text: text.to_string(), selected, marked, cursor, active_cursor: active }
}

fn line(text: &str, cursors: Vec<usize>, active: Vec<usize>, selections: Vec<std::ops::Range<usize>>, marked: Vec<std::ops::Range<usize>>) -> RenderedLine {
    RenderedLine {
        line_number: 1,
        text: text.to_string(),
        continuation: false,
        cursor_columns: cursors,
        active_cursor_columns: active,
        selection_ranges: selections,
        marked_ranges: marked,
    }
}

/// "abcdef" wrapped at three columns: two display rows.
fn wrapped_rows() -> Vec<DisplayRow> {
    vec![
        DisplayRow { row: 0, text: "abc".to_string(), continuation: false, source_range: 0..3 },
        DisplayRow { row: 1, text: "def".to_string(), continuation: true, source_range: 3..6 },
    ]
}

#[test]
fn render_model_view_builds_rendered_lines_from_display_snapshot() {
    let view: EditorView<(), ()> = EditorView::new(());
    let caret = DisplayPoint { row: 0, column: 0 };
    let selections = vec![Selection { id: 0, start: 0, end: 0, reversed: false }];

    assert_eq!(
        view.rendered_lines(&wrapped_rows(), &vec![caret], Some(caret), &selections),
        vec![
            RenderedLine {
                line_number: 1,
                text: "abc".to_string(),
                continuation: false,
                cursor_columns: vec![0],
                active_cursor_columns: vec![0],
                selection_ranges: Vec::new(),
                marked_ranges: Vec::new(),
            },
            RenderedLine {
                line_number: 2,
                text: "def".to_string(),
                continuation: true,
                cursor_columns: Vec::new(),
                active_cursor_columns: Vec::new(),
                selection_ranges: Vec::new(),
                marked_ranges: Vec::new(),
            },
        ]
    );
}

#[test]
fn render_model_rendered_line_builds_visual_fragments_for_selection_and_cursors() {
    let line = line("abcd", vec![1, 3], vec![3], vec![1..3], Vec::new());

    assert_eq!(
        line.visual_fragments(),
        vec![
            fragment("a", false, false, false, false),
            fragment("", false, false, true, false),
            fragment("bc", true, false, false, false),
            fragment("", false, false, true, true),
            fragment("d", false, false, false, false),
        ]
    );
}

#[test]
fn render_model_rendered_line_overlays_keep_cursors_out_of_text_flow() {
    let line = line("abcd", vec![2], vec![2], vec![1..3], vec![0..1]);

    assert_eq!(
        line.overlays(),
        vec![
            RenderedLineOverlay { start_column: 1, column_span: 2, kind: RenderedLineOverlayKind::Selection },
            RenderedLineOverlay { start_column: 0, column_span: 1, kind: RenderedLineOverlayKind::Marked },
            RenderedLineOverlay {
                start_column: 2,
                column_span: 0,
                kind: RenderedLineOverlayKind::Cursor { active: true },
            },
        ]
    );
}

#[test]
fn view_view_marks_cursor_on_wrapped_display_row() {
    // The cursor at byte 4 of "abcdef" shows on the second row, column 1.
    let view: EditorView<(), ()> = EditorView::new(());
    let caret = DisplayPoint { row: 1, column: 1 };
    let selections = vec![Selection { id: 0, start: 4, end: 4, reversed: false }];
    let lines = view.rendered_lines(&wrapped_rows(), &vec![caret], Some(caret), &selections);

    assert_eq!(lines[0].cursor_columns, Vec::<usize>::new());
    assert_eq!(lines[1].cursor_columns, vec![1]);
    assert_eq!(lines[1].text_with_cursors(), "d|ef");
}

#[test]
fn view_view_marks_all_cursors_on_wrapped_display_rows() {
    let view: EditorView<(), ()> = EditorView::new(());
    let first = DisplayPoint { row: 0, column: 1 };
    let second = DisplayPoint { row: 1, column: 1 };
    let lines = view.rendered_lines(&wrapped_rows(), &vec![first, second], Some(second), &vec![]);

    assert_eq!(lines[0].cursor_columns, vec![1]);
    assert_eq!(lines[1].cursor_columns, vec![1]);
    assert_eq!(lines[0].active_cursor_columns, Vec::<usize>::new());
    assert_eq!(lines[1].active_cursor_columns, vec![1]);
    assert_eq!(lines[0].text_with_cursors(), "a|bc");
    assert_eq!(lines[1].text_with_cursors(), "d|ef");
}

#[test]
fn view_view_marks_selection_ranges_on_wrapped_rows() {
    let view: EditorView<(), ()> = EditorView::new(());
    let head = DisplayPoint { row: 1, column: 1 };
    let selections = vec![Selection { id: 0, start: 1, end: 4, reversed: false }];
    let lines = view.rendered_lines(&wrapped_rows(), &vec![head], Some(head), &selections);

    assert_eq!(lines[0].selection_ranges, vec![1..3]);
    assert_eq!(lines[1].selection_ranges, vec![0..1]);
    assert_eq!(lines[0].text_with_overlays(), "a[bc]");
    assert_eq!(lines[1].text_with_overlays(), "[d]|ef");
}

#[test]
fn input_view_marks_ime_composition_ranges_on_wrapped_rows() {
    let mut view: EditorView<(), ()> = EditorView::new(());
    view.marked_range = Some(1..4);
    let caret = DisplayPoint { row: 0, column: 0 };
    let lines = view.rendered_lines(&wrapped_rows(), &vec![caret], Some(caret), &vec![]);

    assert_eq!(lines[0].marked_ranges, vec![1..3]);
    assert_eq!(lines[1].marked_ranges, vec![0..1]);
    assert_eq!(lines[0].text_with_overlays(), "|a{bc}");
    assert_eq!(lines[1].text_with_overlays(), "{d}ef");
    assert!(lines[0].visual_fragments()[2].marked);
}

#[test]
fn overlay_text_writes_markers_at_the_end_but_not_past_it() {
    assert_eq!(line("abc", vec![3], vec![3], vec![], vec![]).text_with_overlays(), "abc|");
    assert_eq!(line("abc", vec![7], vec![], vec![], vec![]).text_with_overlays(), "abc");
    assert_eq!(line("ab", vec![1, 1], vec![], vec![0..2], vec![]).text_with_cursors(), "a|b");
    assert_eq!(line("ab", vec![1], vec![], vec![0..2], vec![1..2]).text_with_overlays(), "[a{|b}]");
}

#[test]
fn header_and_status_texts_show_state() {
    let editor = RenderedEditor {
        title: "src/main.rs".to_string(),
        is_dirty: true,
        can_undo: true,
        can_redo: false,
        lines: Vec::new(),
        scrollbar: None,
    };
    assert_eq!(editor.header_text(), "* src/main.rs");
    assert_eq!(editor.command_status_text(), "undo:on redo:off");
    let clean = RenderedEditor { is_dirty: false, can_undo: false, can_redo: true, ..editor };
    assert_eq!(clean.header_text(), "  src/main.rs");
    assert_eq!(clean.command_status_text(), "undo:off redo:on");
}

#[test]
fn line_paints_put_cursors_over_text_and_hide_the_blinking_one() {
    let line = line("abcd", vec![2, 3], vec![2], vec![1..3], vec![0..1]);
    let overlays = line.overlays();

    let shown = line_paints(&overlays, true);
    assert_eq!(shown.background.iter().map(|p| p.color).collect::<Vec<_>>(), vec![SELECTION_COLOR, MARKED_COLOR]);
    assert_eq!(shown.cursors.iter().map(|p| (p.overlay.start_column, p.color)).collect::<Vec<_>>(), vec![(2, ACTIVE_CURSOR_COLOR), (3, CURSOR_COLOR)]);

    let hidden = line_paints(&overlays, false);
    assert_eq!(hidden.cursors.iter().map(|p| p.overlay.start_column).collect::<Vec<_>>(), vec![3]);

    assert_eq!(scrollbar_row_color(RenderedScrollbarRowState { thumb: true, hovered: true, pressed: false }), 0x8b949e);
    assert_eq!(scrollbar_row_color(RenderedScrollbarRowState { thumb: false, hovered: false, pressed: false }), 0x30363d);
    assert_eq!(scrollbar_row_color(RenderedScrollbarRowState { thumb: false, hovered: true, pressed: true }), 0xf0f6fc);
    assert_eq!(header_color(true), 0xffd33d);
}

#[test]
fn view_view_marks_active_cursor_separately_from_secondary_cursors() {
    // Cursors at bytes 1 and 4 of "abcdef", the first one active.
    let view: EditorView<(), ()> = EditorView::new(());
    let first = DisplayPoint { row: 0, column: 1 };
    let second = DisplayPoint { row: 1, column: 1 };
    let lines = view.rendered_lines(&wrapped_rows(), &vec![first, second], Some(first), &vec![]);

    assert_eq!(lines[0].cursor_columns, vec![1]);
    assert_eq!(lines[0].active_cursor_columns, vec![1]);
    assert_eq!(lines[1].cursor_columns, vec![1]);
    assert_eq!(lines[1].active_cursor_columns, Vec::<usize>::new());
}

#[test]
fn view_view_marks_multiple_selection_ranges() {
    let rows = vec![DisplayRow { row: 0, text: "abcdef".to_string(), continuation: false, source_range: 0..6 }];
    let view: EditorView<(), ()> = EditorView::new(());
    let head = DisplayPoint { row: 0, column: 4 };
    let selections = vec![
        Selection { id: 0, start: 0, end: 1, reversed: false },
        Selection { id: 1, start: 3, end: 4, reversed: false },
    ];
    let lines = view.rendered_lines(&rows, &vec![DisplayPoint { row: 0, column: 1 }, head], Some(head), &selections);

    assert_eq!(lines[0].selection_ranges, vec![0..1, 3..4]);
}


#[test]
fn ui_view_builds_rendered_lines_from_display_snapshot() {
    render_model_view_builds_rendered_lines_from_display_snapshot();
}

#[test]
fn ui_view_marks_cursor_on_wrapped_display_row() {
    view_view_marks_cursor_on_wrapped_display_row();
}

#[test]
fn ui_view_marks_all_cursors_on_wrapped_display_rows() {
    view_view_marks_all_cursors_on_wrapped_display_rows();
}

#[test]
fn ui_view_marks_active_cursor_separately_from_secondary_cursors() {
    view_view_marks_active_cursor_separately_from_secondary_cursors();
}

#[test]
fn ui_view_marks_selection_ranges_on_wrapped_rows() {
    view_view_marks_selection_ranges_on_wrapped_rows();
}

#[test]
fn ui_view_marks_ime_composition_ranges_on_wrapped_rows() {
    input_view_marks_ime_composition_ranges_on_wrapped_rows();
}

#[test]
fn ui_rendered_line_builds_visual_fragments_for_selection_and_cursors() {
    render_model_rendered_line_builds_visual_fragments_for_selection_and_cursors();
}

#[test]
fn ui_rendered_line_overlays_keep_cursors_out_of_text_flow() {
    render_model_rendered_line_overlays_keep_cursors_out_of_text_flow();
}

#[test]
fn ui_view_marks_multiple_selection_ranges() {
    view_view_marks_multiple_selection_ranges();
}

#[test]
fn visual_fragments_have_one_cursor_per_cursor_column_within_the_text() {
    // Columns 1, 1 and 4 are within "abcd"; column 9 is past its end.
    let rendered = line("abcd", vec![9, 1, 4, 1], vec![4], vec![0..2], vec![]);
    let fragments = rendered.visual_fragments();
    assert_eq!(fragments.iter().filter(|f| f.cursor).count(), 3);
    assert!(fragments.iter().filter(|f| f.cursor).all(|f| f.text.is_empty() && !f.selected && !f.marked));
    assert!(fragments.iter().filter(|f| !f.cursor).all(|f| !f.active_cursor));
    assert_eq!(fragments.iter().map(|f| f.text.as_str()).collect::<String>(), "abcd");
    assert!(!line("", vec![], vec![], vec![], vec![]).visual_fragments().is_empty());
}
