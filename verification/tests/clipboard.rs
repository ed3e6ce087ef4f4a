use ui::clipboard::{
    current_line_clipboard_text_and_delete_ranges, current_line_ranges,
    distributed_paste_replacements, is_linewise_paste, line_start_ranges_for_offsets,
};
use ui::view::{EditorView, PastePlan};
use ui::command::{command_for_keystroke, EditorCommand, Keystroke, Modifiers, Selection, ShortcutKey};

fn keystroke(spec: &str) -> Keystroke {
    let mut modifiers = Modifiers::default();
    let parts: Vec<&str> = spec.split('-').collect();
    for part in &parts[..parts.len() - 1] {
        match *part {
            "secondary" | "ctrl" => modifiers.control = true,
            "shift" => modifiers.shift = true,
            "alt" => modifiers.alt = true,
            "cmd" => modifiers.platform = true,
            "fn" => modifiers.function = true,
            other => panic!("unknown modifier {other}"),
        }
    }
    Keystroke { modifiers, key: parts[parts.len() - 1].to_string() }
}

#[test]
fn clipboard_empty_selection_copy_cut_ranges_use_current_lines() {
    assert_eq!(
        current_line_clipboard_text_and_delete_ranges("one\ntwo\nthree", &vec![4]),
        ("two\n".to_string(), vec![4..8])
    );
    assert_eq!(
        current_line_clipboard_text_and_delete_ranges("one\ntwo\nthree", &vec![10]),
        ("three\n".to_string(), vec![7..13])
    );
    assert_eq!(
        current_line_clipboard_text_and_delete_ranges("one\ntwo\nthree", &vec![0, 2, 4]),
        ("one\ntwo\n".to_string(), vec![0..4, 4..8])
    );
}

#[test]
fn clipboard_linewise_paste_targets_current_line_starts() {
    assert_eq!(line_start_ranges_for_offsets("one\ntwo\nthree", &vec![10]), vec![8..8]);
    assert_eq!(line_start_ranges_for_offsets("one\ntwo\nthree", &vec![0, 2, 5]), vec![0..0, 4..4]);
    assert_eq!(line_start_ranges_for_offsets("", &vec![0]), vec![0..0]);
}

#[test]
fn clipboard_distributed_paste_replacements_match_selection_count() {
    assert_eq!(
        distributed_paste_replacements("alpha\nbeta", 2, false),
        Some(vec!["alpha".to_string(), "beta".to_string()])
    );
    assert_eq!(
        distributed_paste_replacements("alpha\nbeta\n", 2, true),
        Some(vec!["alpha\n".to_string(), "beta\n".to_string()])
    );
    assert_eq!(distributed_paste_replacements("alpha\nbeta", 3, false), None);
    assert_eq!(distributed_paste_replacements("alpha\nbeta", 1, false), None);
}

#[test]
fn clipboard_keystrokes_map_to_undo_redo_shortcuts() {
    let key = ShortcutKey::Control;
    assert_eq!(command_for_keystroke(&keystroke("secondary-z"), key), Some(EditorCommand::Undo));
    assert_eq!(command_for_keystroke(&keystroke("secondary-shift-z"), key), Some(EditorCommand::Redo));
    assert_eq!(command_for_keystroke(&keystroke("secondary-y"), key), Some(EditorCommand::Redo));
    assert_eq!(
        command_for_keystroke(&keystroke("secondary-u"), key),
        Some(EditorCommand::UndoSelection)
    );
    assert_eq!(
        command_for_keystroke(&keystroke("secondary-shift-u"), key),
        Some(EditorCommand::RedoSelection)
    );
}

#[test]
fn current_line_ranges_cover_line_and_its_newline() {
    // A middle line: its text, and the text with the newline after it.
    assert_eq!(current_line_ranges("one\ntwo\nthree", 5), (4..7, 4..8));
    // The last line takes the newline before it.
    assert_eq!(current_line_ranges("one\ntwo\nthree", 13), (8..13, 7..13));
    // A single line without newline deletes all of it.
    assert_eq!(current_line_ranges("solo", 2), (0..4, 0..4));
    // Offsets past the end fall on the last line.
    assert_eq!(current_line_ranges("ab\ncd", 99), (3..5, 2..5));
    // An offset inside a multibyte character rounds down to its start.
    assert_eq!(current_line_ranges("x\n😀y", 4), (2..7, 1..7));
}

#[test]
fn line_copies_list_each_line_once_in_order() {
    assert_eq!(
        current_line_clipboard_text_and_delete_ranges("a\nb\nc", &vec![4, 0, 5, 2]),
        ("a\nb\nc\n".to_string(), vec![0..2, 2..4, 3..5])
    );
    assert_eq!(
        current_line_clipboard_text_and_delete_ranges("", &vec![0]),
        ("\n".to_string(), vec![0..0])
    );
    assert_eq!(
        line_start_ranges_for_offsets("a\nb\nc", &vec![5, 0, 3]),
        vec![0..0, 2..2, 4..4]
    );
}

#[test]
fn linewise_paste_needs_the_copied_lines_and_empty_selections() {
    let caret = Selection { id: 0, start: 2, end: 2, reversed: false };
    let range = Selection { id: 1, start: 0, end: 1, reversed: false };
    assert!(is_linewise_paste("one\n", &vec![caret], Some("one\n")));
    assert!(!is_linewise_paste("one\n", &vec![caret], Some("two\n")));
    assert!(!is_linewise_paste("one\n", &vec![caret], None));
    assert!(!is_linewise_paste("one", &vec![caret], Some("one")));
    assert!(!is_linewise_paste("one\n", &vec![caret, range], Some("one\n")));
    assert!(is_linewise_paste("one\n", &vec![], Some("one\n")));
}

#[test]
fn distributed_paste_splits_keep_or_drop_newlines() {
    assert_eq!(
        distributed_paste_replacements("a\n\nb", 3, false),
        Some(vec!["a".to_string(), "".to_string(), "b".to_string()])
    );
    assert_eq!(distributed_paste_replacements("a\nb\n", 3, false).map(|v| v.len()), Some(3));
    assert_eq!(
        distributed_paste_replacements("a\nb", 2, true),
        Some(vec!["a\n".to_string(), "b".to_string()])
    );
    assert_eq!(distributed_paste_replacements("", 2, true), None);
}


#[test]
fn ui_empty_selection_copy_cut_ranges_use_current_lines() {
    clipboard_empty_selection_copy_cut_ranges_use_current_lines();
}

#[test]
fn ui_linewise_paste_targets_current_line_starts() {
    clipboard_linewise_paste_targets_current_line_starts();
}

#[test]
fn ui_distributed_paste_replacements_match_selection_count() {
    clipboard_distributed_paste_replacements_match_selection_count();
}

#[test]
fn ui_keystrokes_map_to_undo_redo_shortcuts() {
    clipboard_keystrokes_map_to_undo_redo_shortcuts();
}

#[test]
fn paste_plan_targets_line_starts_only_for_a_line_copy() {
    let mut view: EditorView<(), ()> = EditorView::new(());
    let carets = vec![
        Selection { id: 0, start: 2, end: 2, reversed: false },
        Selection { id: 1, start: 5, end: 5, reversed: false },
    ];
    // Not the last line copy: the text goes in as it is.
    let plan = view.begin_paste("alpha\nbeta\n", &carets, "one\ntwo\nthree");
    assert_eq!(plan, PastePlan { line_starts: None });
    // Split at its newlines the text has three pieces, not two.
    assert_eq!(view.paste_pieces(&plan, "alpha\nbeta\n", 2), None);

    view.linewise_clipboard_text = Some("alpha\nbeta\n".to_string());
    let plan = view.begin_paste("alpha\nbeta\n", &carets, "one\ntwo\nthree");
    assert_eq!(plan, PastePlan { line_starts: Some(vec![0..0, 4..4]) });
    assert_eq!(
        view.paste_pieces(&plan, "alpha\nbeta\n", 2),
        Some(vec!["alpha\n".to_string(), "beta\n".to_string()])
    );

    // A selection that covers text makes it a plain paste.
    let covering = vec![Selection { id: 0, start: 0, end: 3, reversed: false }];
    assert_eq!(view.begin_paste("alpha\nbeta\n", &covering, "one\ntwo\nthree"), PastePlan { line_starts: None });
}
