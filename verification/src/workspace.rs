//! The workspace: the editors open on files of the project, which of them
//! is active, and the tabs that list them.
use vstd::prelude::*;
use vstd::string::*;
use crate::command::{CommandOutcome, EditorCommand};
use crate::render_model::RenderedEditor;
use crate::text::str_eq;

verus! {

/// A file of the project: the id of its worktree and its path.
#[derive(Clone, Debug, PartialEq, Eq)]
pub struct ProjectPath {
    pub worktree_id: usize,
    pub path: String,
}

/// The value of a [`ProjectPath`].
pub open spec fn path_view(p: ProjectPath) -> (usize, Seq<char>) {
    (p.worktree_id, p.path@)
}

impl ProjectPath {
    /// The file at `path` in worktree `worktree_id`.
    pub fn new(worktree_id: usize, path: &str) -> (r: ProjectPath)
        ensures
            r.worktree_id == worktree_id,
            r.path@ == path@,
    {
        ProjectPath { worktree_id, path: String::from_str(path) }
    }

    /// A copy of this path.
    pub fn duplicate(&self) -> (r: ProjectPath)
        ensures
            path_view(r) == path_view(*self),
    {
        ProjectPath { worktree_id: self.worktree_id, path: self.path.clone() }
    }

    /// Whether both name the same file.
    pub fn same_as(&self, other: &ProjectPath) -> (r: bool)
        ensures
            r == (path_view(*self) == path_view(*other)),
    {
        self.worktree_id == other.worktree_id && str_eq(self.path.as_str(), other.path.as_str())
    }
}

/// A command of the workspace: one for the active editor, or one on the
/// project's files.
#[derive(Clone, Copy, Debug, PartialEq, Eq)]
pub enum WorkspaceCommand {
    Editor(EditorCommand),
    SaveAll,
    CloseActiveEditor,
    SaveAndCloseActiveEditor,
    DiscardAndCloseActiveEditor,
    ReloadActiveEditor,
    ForceReloadActiveEditor,
}

/// What a workspace command did.
#[derive(Clone, Debug, PartialEq, Eq)]
pub struct WorkspaceCommandOutcome {
    pub editor: Option<CommandOutcome>,
    pub saved_paths: Vec<ProjectPath>,
    pub closed_path: Option<ProjectPath>,
    pub reloaded_path: Option<ProjectPath>,
    pub reload_changed_text: bool,
}

/// What reloading an editor from its file did.
#[derive(Clone, Debug, PartialEq, Eq)]
pub struct ReloadOutcome {
    pub path: ProjectPath,
    pub changed_text: bool,
}

/// The workspace as it is drawn: its tabs and the active editor.
#[derive(Clone, Debug, PartialEq, Eq)]
pub struct RenderedWorkspace {
    pub tabs: Vec<RenderedTab>,
    pub active_editor: Option<RenderedEditor>,
}

/// One tab: the editor's file, title and state.
#[derive(Clone, Debug, PartialEq, Eq)]
pub struct RenderedTab {
    pub path: ProjectPath,
    pub title: String,
    pub is_active: bool,
    pub is_dirty: bool,
    pub has_external_change: bool,
}

/// `yes` when `flag` holds, else a space.
pub open spec fn marker(flag: bool, yes: char) -> char {
    if flag {
        yes
    } else {
        ' '
    }
}

impl RenderedTab {
    /// `>` for the active tab, `*` for unsaved changes, `!` for a file
    /// changed on disk (each a space otherwise), a space, then the title.
    pub fn label_text(&self) -> (r: String)
        ensures
            r@ == seq![
                marker(self.is_active, '>'),
                marker(self.is_dirty, '*'),
                marker(self.has_external_change, '!'),
                ' ',
            ] + self.title@,
    {
        let mut label = String::new();
        crate::text::string_push(&mut label, if self.is_active { '>' } else { ' ' });
        crate::text::string_push(&mut label, if self.is_dirty { '*' } else { ' ' });
        crate::text::string_push(&mut label, if self.has_external_change { '!' } else { ' ' });
        crate::text::string_push(&mut label, ' ');
        label.append(self.title.as_str());
        proof {
            assert(label@ =~= seq![
                marker(self.is_active, '>'),
                marker(self.is_dirty, '*'),
                marker(self.has_external_change, '!'),
                ' ',
            ] + self.title@);
        }
        label
    }
}

/// An open editor: the file and the view `V` showing it.
pub struct WorkspaceEditor<V> {
    pub path: ProjectPath,
    pub view: V,
}

/// The open editors, in the order they were opened, and the active one.
pub struct Workspace<V> {
    pub open_editors: Vec<WorkspaceEditor<V>>,
    pub active_index: Option<usize>,
}

/// Index of the first entry of `paths` equal to `key`, from `i` on; the
/// length when there is none.
pub open spec fn first_index(paths: Seq<(usize, Seq<char>)>, key: (usize, Seq<char>), i: int) -> int
    decreases paths.len() - i,
{
    if i < 0 || i >= paths.len() {
        paths.len() as int
    } else if paths[i] == key {
        i
    } else {
        first_index(paths, key, i + 1)
    }
}

impl<V> Workspace<V> {
    /// The files of the open editors, in order.
    pub open spec fn paths(self) -> Seq<(usize, Seq<char>)> {
        self.open_editors@.map_values(|e: WorkspaceEditor<V>| path_view(e.path))
    }

    /// The active editor, when there is one, is one of the open editors.
    pub open spec fn well_formed(self) -> bool {
        self.active_index matches Some(i) ==> i < self.open_editors@.len()
    }

    /// The file of the active editor.
    pub open spec fn active_path_spec(self) -> Option<(usize, Seq<char>)> {
        match self.active_index {
            Some(i) => if i < self.open_editors@.len() {
                Some(path_view(self.open_editors@[i as int].path))
            } else {
                None
            },
            None => None,
        }
    }

    /// A workspace with no open editor.
    pub fn new() -> (w: Self)
        ensures
            w.open_editors@.len() == 0,
            w.active_index is None,
            w.well_formed(),
    {
        Workspace { open_editors: Vec::new(), active_index: None }
    }

    /// Index of the open editor on `path`, if any.
    pub fn position_of(&self, path: &ProjectPath) -> (r: Option<usize>)
        ensures
            ({
                let k = first_index(self.paths(), path_view(*path), 0);
                &&& k == self.paths().len() ==> r is None
                &&& k < self.paths().len() ==> (r matches Some(i) && i == k)
            }),
    {
        let mut i: usize = 0;
        while i < self.open_editors.len()
            invariant
                i <= self.open_editors@.len(),
                first_index(self.paths(), path_view(*path), 0) == first_index(
                    self.paths(),
                    path_view(*path),
                    i as int,
                ),
            decreases self.open_editors@.len() - i,
        {
            if self.open_editors[i].path.same_as(path) {
                return Some(i);
            }
            i = i + 1;
        }
        None
    }

    /// Makes the open editor on `path` active, if there is one; says
    /// whether there was.
    pub fn activate_existing_editor(&mut self, path: &ProjectPath) -> (found: bool)
        requires
            old(self).well_formed(),
        ensures
            final(self).well_formed(),
            final(self).open_editors@ == old(self).open_editors@,
            final(self).paths() == old(self).paths(),
            found == old(self).paths().contains(path_view(*path)),
            found ==> final(self).active_path_spec() == Some(path_view(*path)),
            found ==> (final(self).active_index matches Some(i) && i == first_index(
                old(self).paths(),
                path_view(*path),
                0,
            )),
            !found ==> final(self).active_index == old(self).active_index,
    {
        proof {
            lemma_first_index(self.paths(), path_view(*path), 0);
        }
        match self.position_of(path) {
            Some(index) => {
                self.active_index = Some(index);
                assert(self.paths()[index as int] == path_view(self.open_editors@[index as int].path));
                true
            },
            None => false,
        }
    }

    /// Adds an editor on `path` showing `view`, and makes it active.
    pub fn push_editor(&mut self, path: ProjectPath, view: V)
        requires
            old(self).well_formed(),
        ensures
            final(self).well_formed(),
            final(self).open_editors@.len() == old(self).open_editors@.len() + 1,
            final(self).open_editors@.take(old(self).open_editors@.len() as int) == old(self).open_editors@,
            final(self).open_editors@.last().view == view,
            final(self).paths() == old(self).paths().push(path_view(path)),
            final(self).active_index == Some(old(self).open_editors@.len() as usize),
            final(self).active_path_spec() == Some(path_view(path)),
    {
        let ghost before = self.paths();
        self.open_editors.push(WorkspaceEditor { path, view });
        self.active_index = Some(self.open_editors.len() - 1);
        proof {
            assert(self.paths() =~= before.push(path_view(path)));
        }
    }

    /// The files of the open editors, in order.
    pub fn open_paths(&self) -> (r: Vec<ProjectPath>)
        ensures
            r@.map_values(|p: ProjectPath| path_view(p)) == self.paths(),
    {
        let mut r: Vec<ProjectPath> = Vec::new();
        let mut i: usize = 0;
        while i < self.open_editors.len()
            invariant
                i <= self.open_editors@.len(),
                r@.map_values(|p: ProjectPath| path_view(p)) == self.paths().take(i as int),
            decreases self.open_editors@.len() - i,
        {
            let ghost before = r@;
            let copy = self.open_editors[i].path.duplicate();
            r.push(copy);
            proof {
                assert(r@.map_values(|p: ProjectPath| path_view(p)) =~= before.map_values(
                    |p: ProjectPath| path_view(p),
                ).push(path_view(copy)));
                assert(self.paths().take(i + 1) =~= self.paths().take(i as int).push(
                    self.paths()[i as int],
                ));
            }
            i = i + 1;
        }
        assert(self.paths().take(self.open_editors@.len() as int) =~= self.paths());
        r
    }

    /// The file of the active editor.
    pub fn active_path(&self) -> (r: Option<&ProjectPath>)
        ensures
            r matches Some(p) ==> self.active_path_spec() == Some(path_view(*p)),
            r is None ==> self.active_path_spec() is None,
    {
        match self.active_index {
            Some(index) => if index < self.open_editors.len() {
                Some(&self.open_editors[index].path)
            } else {
                None
            },
            None => None,
        }
    }

    /// Makes the open editor on `path` active; an error naming the path
    /// when no editor is open on it.
    pub fn switch_to_editor(&mut self, path: &ProjectPath) -> (r: Result<(), String>)
        requires
            old(self).well_formed(),
        ensures
            final(self).well_formed(),
            final(self).open_editors@ == old(self).open_editors@,
            final(self).paths() == old(self).paths(),
            r is Ok <==> old(self).paths().contains(path_view(*path)),
            r is Ok ==> final(self).active_path_spec() == Some(path_view(*path)),
            r matches Err(message) ==> message@ == "workspace has no open editor for "@ + path.path@
                && final(self).active_index == old(self).active_index,
    {
        if self.activate_existing_editor(path) {
            Ok(())
        } else {
            let mut message = String::from_str("workspace has no open editor for ");
            message.append(path.path.as_str());
            Err(message)
        }
    }

    /// Index of the active editor, for a command to it: an error when no
    /// editor is active, or when the active one is gone.
    pub fn active_editor_index(&self) -> (r: Result<usize, String>)
        ensures
            self.active_index is None ==> (r matches Err(m) && m@ == "workspace has no active editor"@),
            self.active_index matches Some(i) ==> (i < self.open_editors@.len() ==> r == Ok::<usize, String>(i))
                && (i >= self.open_editors@.len() ==> (r matches Err(m) && m@
                == "workspace active editor is missing"@)),
    {
        match self.active_index {
            None => Err(String::from_str("workspace has no active editor")),
            Some(index) => if index < self.open_editors.len() {
                Ok(index)
            } else {
                Err(String::from_str("workspace active editor is missing"))
            },
        }
    }

    /// The tab of the open editor `index`, with the title and state its
    /// view reports.
    pub fn tab_for(&self, index: usize, title: String, is_dirty: bool, has_external_change: bool) -> (tab: RenderedTab)
        requires
            index < self.open_editors@.len(),
        ensures
            path_view(tab.path) == self.paths()[index as int],
            tab.title == title,
            tab.is_active == (self.active_index == Some(index)),
            tab.is_dirty == is_dirty,
            tab.has_external_change == has_external_change,
    {
        let is_active = match self.active_index {
            Some(active) => active == index,
            None => false,
        };
        RenderedTab {
            path: self.open_editors[index].path.duplicate(),
            title,
            is_active,
            is_dirty,
            has_external_change,
        }
    }
}

/// `first_index` finds the first equal entry, and finds one exactly when
/// the key occurs from `i` on.
pub proof fn lemma_first_index(paths: Seq<(usize, Seq<char>)>, key: (usize, Seq<char>), i: int)
    requires
        0 <= i <= paths.len(),
    ensures
        i <= first_index(paths, key, i) <= paths.len(),
        first_index(paths, key, i) < paths.len() ==> paths[first_index(paths, key, i)] == key,
        forall|j: int| i <= j < first_index(paths, key, i) ==> paths[j] != key,
        (first_index(paths, key, i) < paths.len()) == (exists|j: int| i <= j < paths.len() && paths[j] == key),
    decreases paths.len() - i,
{
    if i < paths.len() && paths[i] != key {
        lemma_first_index(paths, key, i + 1);
        if exists|j: int| i <= j < paths.len() && paths[j] == key {
            let j = choose|j: int| i <= j < paths.len() && paths[j] == key;
            assert(j != i);
        }
    }
}

} // verus!
