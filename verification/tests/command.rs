use ui::command::{
    command_for_keystroke, command_outcome, selection_state, CommandOutcome, EditorCommand,
    Keystroke, Modifiers, Selection, ShortcutKey,
};
use ui::layout::{Point, EDITOR_PADDING};
use ui::view::{
    CommandPlan, DragAutoscroll, EditorStep, EditorView, ScrollbarDrag, ScrollbarTrackPress,
};

fn keystroke(spec: &str) -> Keystroke {
    let mut modifiers = Modifiers::default();
    let parts: Vec<&str> = spec.split('-').collect();
    for part in &parts[..parts.len() - 1] {
        match *part {
            "secondary" | "ctrl" => modifiers.control = true,
            "shift" => modifiers.shift = true,
            "alt" => modifiers.alt = true,
            "cmd" => modifiers.platform = true,
            "fn" => modifiers.function = true,
            other => panic!("unknown modifier {other}"),
        }
    }
    Keystroke { modifiers, key: parts[parts.len() - 1].to_string() }
}

fn command(spec: &str) -> Option<EditorCommand> {
    command_for_keystroke(&keystroke(spec), ShortcutKey::Control)
}

#[test]
fn command_keystrokes_map_to_editing_commands() {
    assert_eq!(command("backspace"), Some(EditorCommand::Backspace));
    assert_eq!(command("delete"), Some(EditorCommand::Delete));
    assert_eq!(command("left"), Some(EditorCommand::MoveLeft { extend: false }));
    assert_eq!(command("shift-right"), Some(EditorCommand::MoveRight { extend: true }));
    assert_eq!(command("up"), Some(EditorCommand::MoveUp { extend: false }));
    assert_eq!(command("shift-down"), Some(EditorCommand::MoveDown { extend: true }));
    assert_eq!(command("alt-up"), Some(EditorCommand::AddCaretAbove));
    assert_eq!(command("alt-down"), Some(EditorCommand::AddCaretBelow));
    assert_eq!(command("pageup"), Some(EditorCommand::PageUp { extend: false }));
    assert_eq!(command("shift-pagedown"), Some(EditorCommand::PageDown { extend: true }));
    assert_eq!(command("enter"), Some(EditorCommand::InsertText("\n")));
    assert_eq!(command("escape"), Some(EditorCommand::Cancel));
    assert_eq!(command("secondary-a"), Some(EditorCommand::SelectAll));
    assert_eq!(command("secondary-d"), Some(EditorCommand::SelectNextMatch));
    assert_eq!(command("secondary-shift-d"), Some(EditorCommand::SkipActiveMatch));
    assert_eq!(command("secondary-shift-l"), Some(EditorCommand::SelectAllMatches));
    assert_eq!(command("secondary-c"), Some(EditorCommand::Copy));
    assert_eq!(command("secondary-x"), Some(EditorCommand::Cut));
    assert_eq!(command("secondary-v"), Some(EditorCommand::Paste));
    assert_eq!(command("home"), Some(EditorCommand::MoveToLineStart { extend: false }));
    assert_eq!(command("shift-end"), Some(EditorCommand::MoveToLineEnd { extend: true }));
    assert_eq!(command("secondary-home"), Some(EditorCommand::MoveToDocumentStart { extend: false }));
    assert_eq!(command("secondary-shift-end"), Some(EditorCommand::MoveToDocumentEnd { extend: true }));
    assert_eq!(command("secondary-left"), Some(EditorCommand::MoveToPreviousWord { extend: false }));
    assert_eq!(command("secondary-shift-right"), Some(EditorCommand::MoveToNextWord { extend: true }));
}

#[test]
fn command_modified_printable_keystrokes_do_not_insert_text() {
    assert_eq!(command("alt-a"), None);
    assert_eq!(command("a"), None);
    assert_eq!(command("space"), None);
}

#[test]
fn platform_key_is_the_shortcut_key_on_macos() {
    let cmd_z = keystroke("cmd-z");
    assert_eq!(command_for_keystroke(&cmd_z, ShortcutKey::Platform), Some(EditorCommand::Undo));
    assert_eq!(command_for_keystroke(&cmd_z, ShortcutKey::Control), None);
    assert_eq!(command_for_keystroke(&keystroke("ctrl-z"), ShortcutKey::Platform), None);
    assert_eq!(
        command_for_keystroke(&keystroke("cmd-left"), ShortcutKey::Platform),
        Some(EditorCommand::MoveToPreviousWord { extend: false })
    );
    assert_eq!(command("fn-left"), None);
}

#[test]
fn command_cancel_clears_selection_and_transient_interaction_state() {
    let mut view: EditorView<(), ()> = EditorView::new(());
    view.marked_range = Some(1..2);
    view.selecting_with_mouse = true;
    view.drag_autoscroll = Some(DragAutoscroll {
        position: Point { x: EDITOR_PADDING, y: EDITOR_PADDING },
        generation: 7,
    });
    view.scrollbar_drag = Some(ScrollbarDrag { thumb_grab_offset: 3 });
    view.scrollbar_track_press = Some(ScrollbarTrackPress { direction: 1, generation: 11 });

    let plan = view.begin_command(EditorCommand::Cancel);

    assert_eq!(plan, CommandPlan { step: EditorStep::CollapseSelections, scroll: None, reveal_cursor: true });
    assert_eq!(view.marked_range, None);
    assert!(!view.selecting_with_mouse);
    assert_eq!(view.drag_autoscroll, None);
    assert_eq!(view.scrollbar_drag, None);
    assert_eq!(view.scrollbar_track_press, None);

    // Collapsing "abcdefghi" selections (0, 3) and (8, 5) to their heads
    // moves the cursors, and not the text.
    let before = selection_state(
        &vec![
            Selection { id: 0, start: 0, end: 3, reversed: false },
            Selection { id: 1, start: 5, end: 8, reversed: true },
        ],
        1,
    );
    let after = selection_state(
        &vec![
            Selection { id: 0, start: 3, end: 3, reversed: false },
            Selection { id: 1, start: 5, end: 5, reversed: false },
        ],
        1,
    );
    assert_eq!(
        command_outcome(3, 3, &before, &after),
        CommandOutcome { changed_text: false, moved_cursor: true }
    );
}

#[test]
fn commands_plan_their_editor_steps() {
    let mut view: EditorView<(), ()> = EditorView::new(()).with_viewport_rows(3);
    let plan = view.begin_command(EditorCommand::PageDown { extend: true });
    assert_eq!(
        plan,
        CommandPlan {
            step: EditorStep::MoveDisplayRows { rows: 3, extend: true },
            scroll: Some(1),
            reveal_cursor: true,
        }
    );
    // The cursor moved down a page to row 3; the viewport follows.
    view.finish_command(plan, Some(3), 10);
    assert_eq!(view.viewport_start_row(), 3);
    let plan = view.begin_command(EditorCommand::PageUp { extend: false });
    assert_eq!(
        plan,
        CommandPlan {
            step: EditorStep::MoveDisplayRows { rows: -3, extend: false },
            scroll: Some(-1),
            reveal_cursor: true,
        }
    );
    view.finish_command(plan, Some(0), 10);
    assert_eq!(view.viewport_start_row(), 0);
    let plan = view.begin_command(EditorCommand::ScrollDown);
    assert_eq!(plan, CommandPlan { step: EditorStep::Nothing, scroll: Some(1), reveal_cursor: false });
    view.finish_command(plan, Some(0), 10);
    assert_eq!(view.viewport_start_row(), 3);
    assert_eq!(
        view.begin_command(EditorCommand::InsertChar('x')),
        CommandPlan { step: EditorStep::Run(EditorCommand::InsertChar('x')), scroll: None, reveal_cursor: true }
    );
    assert_eq!(
        view.begin_command(EditorCommand::Paste),
        CommandPlan { step: EditorStep::Nothing, scroll: None, reveal_cursor: true }
    );

    // After the step, the cursor on row 9 is revealed.
    let plan = view.begin_command(EditorCommand::MoveDown { extend: false });
    view.finish_command(plan, Some(9), 10);
    assert_eq!(view.viewport_start_row(), 7);
}

#[test]
fn command_outcomes_compare_versions_and_selection_states() {
    let state = selection_state(&vec![Selection { id: 4, start: 1, end: 2, reversed: false }], 0);
    assert_eq!(state, vec![(4, 1, 2, false), (usize::MAX, 0, 0, false)]);
    assert_eq!(
        command_outcome(1, 2, &state, &state),
        CommandOutcome { changed_text: true, moved_cursor: false }
    );
    let other_active = selection_state(&vec![Selection { id: 4, start: 1, end: 2, reversed: false }], 1);
    assert_eq!(
        command_outcome(1, 1, &state, &other_active),
        CommandOutcome { changed_text: false, moved_cursor: true }
    );
}


#[test]
fn ui_cancel_clears_selection_and_transient_interaction_state() {
    command_cancel_clears_selection_and_transient_interaction_state();
}

#[test]
fn ui_keystrokes_map_to_editing_commands() {
    command_keystrokes_map_to_editing_commands();
}

#[test]
fn ui_modified_printable_keystrokes_do_not_insert_text() {
    command_modified_printable_keystrokes_do_not_insert_text();
}
