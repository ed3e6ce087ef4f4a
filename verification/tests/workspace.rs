use ui::workspace::{ProjectPath, RenderedTab, Workspace};

fn tab(path: &ProjectPath, title: &str, is_active: bool, is_dirty: bool, external: bool) -> RenderedTab {
    RenderedTab {
        path: path.clone(),
        title: title.to_string(),
        is_active,
        is_dirty,
        has_external_change: external,
    }
}

#[test]
fn commands_editor_command_requires_an_active_editor() {
    let workspace: Workspace<()> = Workspace::new();
    let error = workspace.active_editor_index().unwrap_err();
    assert_eq!(error, "workspace has no active editor");
}

#[test]
fn workspace_editor_command_requires_an_active_editor() {
    let workspace: Workspace<()> = Workspace::new();
    assert_eq!(workspace.active_editor_index().unwrap_err(), "workspace has no active editor");
}

#[test]
fn rendered_rendered_workspace_lists_tabs_with_active_and_dirty_state() {
    let first = ProjectPath::new(1, "src/first.rs");
    let second = ProjectPath::new(1, "src/second.rs");
    let mut workspace: Workspace<&str> = Workspace::new();
    workspace.push_editor(first.clone(), "first");
    workspace.push_editor(second.clone(), "second");

    let tabs = vec![
        workspace.tab_for(0, "src/first.rs".to_string(), true, false),
        workspace.tab_for(1, "src/second.rs".to_string(), false, false),
    ];

    assert_eq!(tabs.len(), 2);
    assert_eq!(tabs[0].path, first);
    assert_eq!(tabs[0].label_text(), " *  src/first.rs");
    assert_eq!(tabs[1].path, second);
    assert_eq!(tabs[1].label_text(), ">   src/second.rs");
}

#[test]
fn tab_labels_mark_external_changes() {
    let path = ProjectPath::new(1, "notes.txt");
    assert_eq!(tab(&path, "notes.txt", true, false, true).label_text(), "> ! notes.txt");
    assert_eq!(tab(&path, "notes.txt", true, false, false).label_text(), ">   notes.txt");
    assert_eq!(tab(&path, "notes.txt", false, true, true).label_text(), " *! notes.txt");
}

#[test]
fn workspace_tracks_open_editors_and_switches_the_active_editor() {
    let first = ProjectPath::new(1, "src/first.rs");
    let second = ProjectPath::new(1, "src/second.rs");
    let mut workspace: Workspace<&str> = Workspace::new();

    workspace.push_editor(first.clone(), "first");
    workspace.push_editor(second.clone(), "second");

    assert_eq!(workspace.open_paths(), vec![first.clone(), second.clone()]);
    assert_eq!(workspace.active_path(), Some(&second));
    assert_eq!(workspace.open_editors[workspace.active_editor_index().unwrap()].view, "second");

    workspace.switch_to_editor(&first).unwrap();

    assert_eq!(workspace.active_path(), Some(&first));
    assert_eq!(workspace.open_editors[workspace.active_editor_index().unwrap()].view, "first");
}

#[test]
fn opening_an_already_open_path_switches_to_that_editor() {
    let first = ProjectPath::new(1, "src/first.rs");
    let second = ProjectPath::new(1, "src/second.rs");
    let mut workspace: Workspace<&str> = Workspace::new();

    workspace.push_editor(first.clone(), "first");
    workspace.push_editor(second.clone(), "second");

    assert!(workspace.activate_existing_editor(&first));

    assert_eq!(workspace.open_paths(), vec![first.clone(), second]);
    assert_eq!(workspace.active_path(), Some(&first));
    assert_eq!(workspace.open_editors[workspace.active_editor_index().unwrap()].view, "first");
}

#[test]
fn switching_to_a_closed_path_names_it() {
    let mut workspace: Workspace<&str> = Workspace::new();
    workspace.push_editor(ProjectPath::new(1, "a.rs"), "a");
    let error = workspace.switch_to_editor(&ProjectPath::new(2, "a.rs")).unwrap_err();
    assert_eq!(error, "workspace has no open editor for a.rs");
    assert_eq!(workspace.active_path(), Some(&ProjectPath::new(1, "a.rs")));
    workspace.active_index = Some(5);
    assert_eq!(workspace.active_editor_index().unwrap_err(), "workspace active editor is missing");
}
