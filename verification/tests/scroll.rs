use ui::command::EditorCommand;
use ui::layout::{scrollbar_track_left, scrollbar_track_top, Point, EDITOR_PADDING, HEADER_HEIGHT, LINE_HEIGHT};
use ui::render_model::{RenderedScrollbar, RenderedScrollbarRowState};
use ui::view::{DisplayRow, EditorView, ScrollbarHit};

fn rows_of(texts: &[&str]) -> Vec<DisplayRow> {
    let mut start = 0;
    texts
        .iter()
        .enumerate()
        .map(|(row, text)| {
            let row = DisplayRow {
                row,
                text: text.to_string(),
                continuation: false,
                source_range: start..start + text.len(),
            };
            start += text.len() + 1;
            row
        })
        .collect()
}

#[test]
fn scroll_rendered_editor_hides_scrollbar_when_all_rows_are_visible() {
    // "0\n1" has two display rows.
    let view: EditorView<(), ()> = EditorView::new(()).with_viewport_rows(2);
    assert_eq!(view.rendered_scrollbar_for_row_count(2), None);
}

#[test]
fn scroll_rendered_editor_exposes_scrollbar_for_scrollable_viewport() {
    // "0\n1\n2\n3\n4" has five display rows.
    let mut view: EditorView<(), ()> = EditorView::new(()).with_viewport_rows(2);
    assert_eq!(
        view.rendered_scrollbar_for_row_count(5),
        Some(RenderedScrollbar {
            first_visible_row: 0,
            visible_rows: 2,
            total_rows: 5,
            hovered_row: None,
            pressed: false,
        })
    );

    let plan = view.begin_command(EditorCommand::ScrollDown);
    view.finish_command(plan, None, 5);
    assert_eq!(
        view.rendered_scrollbar_for_row_count(5),
        Some(RenderedScrollbar {
            first_visible_row: 2,
            visible_rows: 2,
            total_rows: 5,
            hovered_row: None,
            pressed: false,
        })
    );
}

#[test]
fn scroll_scrollbar_thumb_rows_track_viewport_position() {
    let scrollbar = RenderedScrollbar {
        first_visible_row: 0,
        visible_rows: 2,
        total_rows: 5,
        hovered_row: None,
        pressed: false,
    };
    assert_eq!(scrollbar.thumb_rows(), 0..1);

    let scrollbar = RenderedScrollbar {
        first_visible_row: 2,
        visible_rows: 2,
        total_rows: 5,
        hovered_row: None,
        pressed: false,
    };
    assert_eq!(scrollbar.thumb_rows(), 1..2);

    let scrollbar = RenderedScrollbar {
        first_visible_row: 0,
        visible_rows: 10,
        total_rows: 5,
        hovered_row: None,
        pressed: false,
    };
    assert_eq!(scrollbar.thumb_rows(), 0..10);
}

#[test]
fn scroll_scrollbar_row_state_tracks_hover_and_pressed_rows() {
    let scrollbar = RenderedScrollbar {
        first_visible_row: 0,
        visible_rows: 2,
        total_rows: 5,
        hovered_row: Some(0),
        pressed: false,
    };
    assert_eq!(
        scrollbar.row_state(0),
        RenderedScrollbarRowState { thumb: true, hovered: true, pressed: false }
    );
    assert_eq!(
        scrollbar.row_state(1),
        RenderedScrollbarRowState { thumb: false, hovered: false, pressed: false }
    );

    let scrollbar = RenderedScrollbar {
        first_visible_row: 0,
        visible_rows: 2,
        total_rows: 5,
        hovered_row: Some(1),
        pressed: true,
    };
    assert_eq!(
        scrollbar.row_state(1),
        RenderedScrollbarRowState { thumb: false, hovered: true, pressed: true }
    );
}

#[test]
fn scroll_scrollbar_hit_testing_uses_render_track_geometry() {
    let view: EditorView<(), ()> = EditorView::new(()).with_viewport_rows(2);
    let track_x = scrollbar_track_left() + 3;
    let first_row_y = EDITOR_PADDING + HEADER_HEIGHT;
    let second_row_y = first_row_y + LINE_HEIGHT;

    assert_eq!(
        view.scrollbar_hit_for_position(Point { x: track_x, y: first_row_y }, 5),
        Some(ScrollbarHit { visible_row: 0, thumb_rows: 0..1 })
    );
    assert_eq!(
        view.scrollbar_hit_for_position(Point { x: track_x, y: second_row_y }, 5),
        Some(ScrollbarHit { visible_row: 1, thumb_rows: 0..1 })
    );
    assert_eq!(
        view.scrollbar_hit_for_position(Point { x: scrollbar_track_left() - 1, y: first_row_y }, 5),
        None
    );
    assert_eq!(
        view.scrollbar_hit_for_position(Point { x: track_x, y: second_row_y + LINE_HEIGHT }, 5),
        None
    );
}

#[test]
fn scroll_scrollbar_row_mapping_updates_viewport() {
    // "0\n1\n2\n3\n4\n5" has six display rows.
    let mut view: EditorView<(), ()> = EditorView::new(()).with_viewport_rows(2);

    view.scroll_viewport_to_scrollbar_row(1, 0, 6);
    assert_eq!(view.viewport_start_row(), 4);
    assert_eq!(view.rendered_scrollbar_for_row_count(6).unwrap().thumb_rows(), 1..2);

    view.scroll_viewport_to_scrollbar_row(0, 0, 6);
    assert_eq!(view.viewport_start_row(), 0);
    assert_eq!(view.rendered_scrollbar_for_row_count(6).unwrap().thumb_rows(), 0..1);
}

#[test]
fn scroll_scrollbar_pixel_mapping_updates_viewport_between_visible_rows() {
    // Twelve display rows, four visible.
    let mut view: EditorView<(), ()> = EditorView::new(()).with_viewport_rows(4);

    view.scroll_viewport_to_scrollbar_y(scrollbar_track_top() + 5, 0, 12);
    assert_eq!(view.viewport_start_row(), 1);

    view.scroll_viewport_to_scrollbar_y(scrollbar_track_top() + 15, 0, 12);
    assert_eq!(view.viewport_start_row(), 3);

    view.scroll_viewport_to_scrollbar_y(scrollbar_track_top() - 10, 0, 12);
    assert_eq!(view.viewport_start_row(), 0);

    view.scroll_viewport_to_scrollbar_y(scrollbar_track_top() + 100, 0, 12);
    assert_eq!(view.viewport_start_row(), 8);
}

#[test]
fn scroll_view_renders_only_visible_viewport_rows() {
    let rows = rows_of(&["0", "1", "2", "3", "4"]);
    let mut view: EditorView<(), ()> = EditorView::new(()).with_viewport_rows(2);
    let texts = |view: &EditorView<(), ()>| {
        view.rendered_lines(&rows, &vec![], None, &vec![])
            .into_iter()
            .map(|line| line.text)
            .collect::<Vec<_>>()
    };

    assert_eq!(texts(&view), vec!["0".to_string(), "1".to_string()]);

    let plan = view.begin_command(EditorCommand::ScrollDown);
    view.finish_command(plan, None, 5);
    assert_eq!(view.viewport_start_row(), 2);
    assert_eq!(texts(&view), vec!["2".to_string(), "3".to_string()]);

    let plan = view.begin_command(EditorCommand::ScrollDown);
    view.finish_command(plan, None, 5);
    assert_eq!(view.viewport_start_row(), 3);
    assert_eq!(texts(&view), vec!["3".to_string(), "4".to_string()]);
}

#[test]
fn reveal_scrolls_just_enough_to_show_the_cursor() {
    let mut view: EditorView<(), ()> = EditorView::new(()).with_viewport_rows(3);
    view.reveal_active_cursor(Some(7), 10);
    assert_eq!(view.viewport_start_row(), 5);
    view.reveal_active_cursor(Some(6), 10);
    assert_eq!(view.viewport_start_row(), 5);
    view.reveal_active_cursor(Some(2), 10);
    assert_eq!(view.viewport_start_row(), 2);
    // Without a cursor position the viewport stays where it is.
    view.viewport_start_row = 9;
    view.reveal_active_cursor(None, 10);
    assert_eq!(view.viewport_start_row(), 9);
    view.reveal_active_cursor(Some(9), 10);
    assert_eq!(view.viewport_start_row(), 7);
}

#[test]
fn paging_down_then_up_returns_and_clamps_at_the_ends() {
    let mut view: EditorView<(), ()> = EditorView::new(()).with_viewport_rows(4);
    view.scroll_viewport(1, 20);
    assert_eq!(view.viewport_start_row(), 4);
    view.scroll_viewport(-1, 20);
    assert_eq!(view.viewport_start_row(), 0);
    view.scroll_viewport(-1, 20);
    assert_eq!(view.viewport_start_row(), 0);
    view.scroll_viewport_by_rows(100, 20);
    assert_eq!(view.viewport_start_row(), 16);
    view.scroll_viewport_by_rows(isize::MIN, 20);
    assert_eq!(view.viewport_start_row(), 0);
}

#[test]
fn track_press_repeats_only_while_current() {
    let mut view: EditorView<(), ()> = EditorView::new(()).with_viewport_rows(2);
    let press = view.begin_scrollbar_track_press(1);
    assert_eq!(press.generation, 1);
    assert!(view.repeat_scrollbar_track_press(press, 6));
    assert_eq!(view.viewport_start_row(), 2);
    let newer = view.begin_scrollbar_track_press(-1);
    assert!(!view.repeat_scrollbar_track_press(press, 6));
    assert_eq!(view.viewport_start_row(), 2);
    assert!(view.repeat_scrollbar_track_press(newer, 6));
    assert_eq!(view.viewport_start_row(), 0);
    assert!(!view.repeat_scrollbar_track_press(newer, 6));
}


#[test]
fn ui_rendered_editor_hides_scrollbar_when_all_rows_are_visible() {
    scroll_rendered_editor_hides_scrollbar_when_all_rows_are_visible();
}

#[test]
fn ui_rendered_editor_exposes_scrollbar_for_scrollable_viewport() {
    scroll_rendered_editor_exposes_scrollbar_for_scrollable_viewport();
}

#[test]
fn ui_scrollbar_thumb_rows_track_viewport_position() {
    scroll_scrollbar_thumb_rows_track_viewport_position();
}

#[test]
fn ui_scrollbar_row_state_tracks_hover_and_pressed_rows() {
    scroll_scrollbar_row_state_tracks_hover_and_pressed_rows();
}

#[test]
fn ui_scrollbar_hit_testing_uses_render_track_geometry() {
    scroll_scrollbar_hit_testing_uses_render_track_geometry();
}

#[test]
fn ui_scrollbar_row_mapping_updates_viewport() {
    scroll_scrollbar_row_mapping_updates_viewport();
}

#[test]
fn ui_scrollbar_pixel_mapping_updates_viewport_between_visible_rows() {
    scroll_scrollbar_pixel_mapping_updates_viewport_between_visible_rows();
}

#[test]
fn ui_view_renders_only_visible_viewport_rows() {
    scroll_view_renders_only_visible_viewport_rows();
}

#[test]
fn thumb_sits_at_the_track_ends_at_the_document_ends() {
    for total in [3usize, 7, 20, 101] {
        let top = RenderedScrollbar { first_visible_row: 0, visible_rows: 3, total_rows: total, hovered_row: None, pressed: false };
        assert_eq!(top.thumb_rows().start, 0);
        let bottom = RenderedScrollbar { first_visible_row: total.saturating_sub(3), ..top };
        assert_eq!(bottom.thumb_rows().end, 3);
    }
}
