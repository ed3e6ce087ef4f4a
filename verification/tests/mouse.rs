use ui::command::EditorCommand;
use ui::layout::{
    visible_display_point_for_mouse_position, Point, CONTENT_GAP, DISPLAY_COLUMN_WIDTH,
    EDITOR_PADDING, HEADER_HEIGHT, LINE_HEIGHT, LINE_NUMBER_WIDTH,
};
use ui::view::EditorView;

#[test]
fn mouse_mouse_positions_map_to_display_points() {
    assert_eq!(
        visible_display_point_for_mouse_position(Point {
            x: EDITOR_PADDING + LINE_NUMBER_WIDTH + CONTENT_GAP,
            y: EDITOR_PADDING + HEADER_HEIGHT,
        }),
        (0, 0)
    );
    assert_eq!(
        visible_display_point_for_mouse_position(Point {
            x: EDITOR_PADDING + LINE_NUMBER_WIDTH + CONTENT_GAP + DISPLAY_COLUMN_WIDTH * 3,
            y: EDITOR_PADDING + HEADER_HEIGHT + LINE_HEIGHT * 2,
        }),
        (2, 3)
    );
}

#[test]
fn mouse_viewport_offsets_mouse_display_points() {
    // The buffer "0\n1\n2\n3\n4" shows five display rows.
    let mut view: EditorView<(), ()> = EditorView::new(()).with_viewport_rows(2);
    let plan = view.begin_command(EditorCommand::ScrollDown);
    view.finish_command(plan, None, 5);

    assert_eq!(
        view.display_point_for_mouse_position(Point {
            x: EDITOR_PADDING + LINE_NUMBER_WIDTH + CONTENT_GAP,
            y: EDITOR_PADDING + HEADER_HEIGHT,
        }),
        (2, 0)
    );
}

#[test]
fn mouse_drag_beyond_viewport_autoscrolls_and_extends_selection() {
    // Five display rows, two visible; the drag goes below the viewport.
    let mut view: EditorView<(), ()> = EditorView::new(()).with_viewport_rows(2);
    view.selecting_with_mouse = true;

    let (row, column) = view.display_point_for_drag_position(
        Point {
            x: EDITOR_PADDING + LINE_NUMBER_WIDTH + CONTENT_GAP,
            y: EDITOR_PADDING + HEADER_HEIGHT + LINE_HEIGHT * 3,
        },
        5,
    );

    assert_eq!(view.viewport_start_row(), 1);
    assert_eq!((row, column), (2, 0));
}

#[test]
fn columns_round_to_the_nearest_edge_and_clamp_left_and_above() {
    let left = EDITOR_PADDING + LINE_NUMBER_WIDTH + CONTENT_GAP;
    let top = EDITOR_PADDING + HEADER_HEIGHT;
    assert_eq!(visible_display_point_for_mouse_position(Point { x: left + 3, y: top }), (0, 0));
    assert_eq!(visible_display_point_for_mouse_position(Point { x: left + 4, y: top }), (0, 1));
    assert_eq!(visible_display_point_for_mouse_position(Point { x: left + 12, y: top + 23 }), (0, 2));
    assert_eq!(visible_display_point_for_mouse_position(Point { x: 0, y: 0 }), (0, 0));
    assert_eq!(
        visible_display_point_for_mouse_position(Point { x: left, y: top + LINE_HEIGHT }),
        (1, 0)
    );
}


#[test]
fn ui_drag_beyond_viewport_autoscrolls_and_extends_selection() {
    mouse_drag_beyond_viewport_autoscrolls_and_extends_selection();
}

#[test]
fn ui_mouse_positions_map_to_display_points() {
    mouse_mouse_positions_map_to_display_points();
}

#[test]
fn ui_viewport_offsets_mouse_display_points() {
    mouse_viewport_offsets_mouse_display_points();
}
