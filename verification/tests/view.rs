use ui::command::Modifiers;
use ui::layout::{
    scrollbar_track_left, Point, CONTENT_GAP, DEFAULT_VIEWPORT_ROWS, DISPLAY_COLUMN_WIDTH,
    EDITOR_PADDING, HEADER_HEIGHT, LINE_HEIGHT, LINE_NUMBER_WIDTH,
};
use ui::view::{run, EditorView, MouseDownAction, MouseMoveAction, ScrollbarDrag};

fn text_point(row: i32, column: i32) -> Point {
    Point {
        x: EDITOR_PADDING + LINE_NUMBER_WIDTH + CONTENT_GAP + DISPLAY_COLUMN_WIDTH * column,
        y: EDITOR_PADDING + HEADER_HEIGHT + LINE_HEIGHT * row,
    }
}

fn track_point(row: i32) -> Point {
    Point { x: scrollbar_track_left() + 3, y: EDITOR_PADDING + HEADER_HEIGHT + LINE_HEIGHT * row + 1 }
}

#[test]
fn run_opens_a_centered_window_with_a_new_view() {
    let window = run::<&str, u32>("editor");
    assert_eq!((window.width, window.height), (900, 600));
    assert_eq!(window.view.editor, "editor");
    assert_eq!(window.view.viewport_rows, DEFAULT_VIEWPORT_ROWS);
    assert_eq!(window.view.viewport_start_row(), 0);
    assert!(window.view.cursor_blink_visible);
}

#[test]
fn with_viewport_rows_keeps_at_least_one_row() {
    let view: EditorView<(), ()> = EditorView::new(()).with_viewport_rows(0);
    assert_eq!(view.viewport_rows, 1);
}

#[test]
fn plain_press_begins_a_mouse_selection_that_release_ends() {
    let mut view: EditorView<(), u32> = EditorView::new(());
    let action = view.handle_mouse_down(text_point(1, 2), 1, Modifiers::default(), 3);
    assert!(matches!(action, MouseDownAction::SelectPoint { row: 1, column: 2, extend: false }));
    assert!(view.selecting_with_mouse);
    view.begin_mouse_selection_history(42);

    let up = view.handle_mouse_up(text_point(1, 2));
    assert!(up.handled);
    assert_eq!(up.checkpoint, Some(42));
    assert!(!view.selecting_with_mouse);
    assert_eq!(view.mouse_selection_checkpoint, None);

    let again = view.handle_mouse_up(text_point(1, 2));
    assert!(!again.handled);
}

#[test]
fn clicks_pick_points_words_lines_and_carets() {
    let mut view: EditorView<(), u32> = EditorView::new(());
    let shift = Modifiers { shift: true, ..Default::default() };
    let alt = Modifiers { alt: true, ..Default::default() };

    assert!(matches!(
        view.handle_mouse_down(text_point(0, 1), 1, shift, 3),
        MouseDownAction::SelectPoint { row: 0, column: 1, extend: true }
    ));
    view.begin_mouse_selection_history(7);
    assert!(matches!(
        view.handle_mouse_down(text_point(0, 1), 2, Modifiers::default(), 3),
        MouseDownAction::SelectWord { row: 0, column: 1, checkpoint: Some(7) }
    ));
    assert!(!view.selecting_with_mouse);
    assert!(matches!(
        view.handle_mouse_down(text_point(2, 0), 3, Modifiers::default(), 3),
        MouseDownAction::SelectLine { row: 2, column: 0, checkpoint: None }
    ));
    assert!(matches!(
        view.handle_mouse_down(text_point(1, 4), 1, alt, 3),
        MouseDownAction::AddCaret { row: 1, column: 4 }
    ));
    assert_eq!(view.rectangular_selection_start, Some((1, 4)));
}

#[test]
fn scrollbar_presses_grab_the_thumb_or_page_the_track() {
    // Six display rows, two visible: the thumb covers the first cell.
    let mut view: EditorView<(), u32> = EditorView::new(()).with_viewport_rows(2);
    assert!(matches!(
        view.handle_mouse_down(track_point(0), 1, Modifiers::default(), 6),
        MouseDownAction::ScrollbarThumb
    ));
    assert_eq!(view.scrollbar_drag, Some(ScrollbarDrag { thumb_grab_offset: 1 }));
    assert_eq!(view.hovered_scrollbar_row, Some(0));

    // Dragging the thumb down one cell scrolls to the end.
    let action = view.handle_mouse_move(track_point(1), 6);
    assert!(matches!(action, MouseMoveAction::Redraw { notify: true, stop: true }));
    assert_eq!(view.viewport_start_row(), 4);
    view.handle_mouse_up(track_point(1));
    assert_eq!(view.scrollbar_drag, None);

    // Now the thumb is on the second cell; a press on the first pages up.
    let action = view.handle_mouse_down(track_point(0), 1, Modifiers::default(), 6);
    match action {
        MouseDownAction::ScrollbarTrack(press) => {
            assert_eq!(press.direction, -1);
            assert_eq!(view.scrollbar_track_press, Some(press));
        }
        _ => panic!("expected a track press"),
    }
    assert_eq!(view.viewport_start_row(), 2);
}

#[test]
fn drag_below_the_viewport_starts_one_autoscroll() {
    let mut view: EditorView<(), u32> = EditorView::new(()).with_viewport_rows(2);
    view.handle_mouse_down(text_point(0, 0), 1, Modifiers::default(), 5);

    let below = text_point(3, 0);
    let action = view.handle_mouse_move(below, 5);
    assert!(matches!(action, MouseMoveAction::ExtendSelection { row: 2, column: 0 }));
    assert_eq!(view.viewport_start_row(), 1);
    let generation = view.update_drag_autoscroll(below).unwrap();
    assert_eq!(view.update_drag_autoscroll(below), None);

    let step = view.drag_autoscroll_step(generation, 5).unwrap();
    assert!(matches!(step, MouseMoveAction::ExtendSelection { row: 3, column: 0 }));
    assert_eq!(view.viewport_start_row(), 2);
    view.finish_drag_autoscroll_step(true);
    assert!(view.drag_autoscroll.is_some());
    view.finish_drag_autoscroll_step(false);
    assert_eq!(view.drag_autoscroll, None);
    assert!(view.drag_autoscroll_step(generation, 5).is_none());
}

#[test]
fn cursor_blink_toggles_only_for_its_generation() {
    let mut view: EditorView<(), ()> = EditorView::new(());
    let generation = view.ensure_cursor_blink().unwrap();
    assert_eq!(view.ensure_cursor_blink(), None);
    assert!(view.cursor_blink_tick(generation));
    assert!(!view.cursor_blink_visible);
    let newer = view.restart_cursor_blink();
    assert!(view.cursor_blink_visible);
    assert!(!view.cursor_blink_tick(generation));
    assert!(view.cursor_blink_visible);
    assert!(view.cursor_blink_tick(newer));
    assert!(view.cursor_blink_tick(newer));
    assert!(view.cursor_blink_visible);
}
