//! Editor commands, the keys that trigger them, and what a command changed.
use vstd::prelude::*;
use vstd::string::*;
use crate::text::str_eq;

verus! {

/// An action on the editor that a key, the mouse or the menu asks for.
#[derive(Clone, Copy, Debug, PartialEq, Eq)]
pub enum EditorCommand {
    InsertChar(char),
    InsertText(&'static str),
    Backspace,
    Delete,
    Undo,
    Redo,
    UndoSelection,
    RedoSelection,
    MoveLeft { extend: bool },
    MoveRight { extend: bool },
    MoveUp { extend: bool },
    MoveDown { extend: bool },
    MoveToLineStart { extend: bool },
    MoveToLineEnd { extend: bool },
    MoveToDocumentStart { extend: bool },
    MoveToDocumentEnd { extend: bool },
    MoveToPreviousWord { extend: bool },
    MoveToNextWord { extend: bool },
    AddCaretAbove,
    AddCaretBelow,
    PageUp { extend: bool },
    PageDown { extend: bool },
    ScrollUp,
    ScrollDown,
    SelectAll,
    SelectNextMatch,
    SelectAllMatches,
    SkipActiveMatch,
    Cancel,
    Copy,
    Cut,
    Paste,
}

/// What a command did: whether the text changed and whether any selection,
/// or which selection is active, changed.
#[derive(Clone, Copy, Debug, PartialEq, Eq)]
pub struct CommandOutcome {
    pub changed_text: bool,
    pub moved_cursor: bool,
}

/// The modifier keys held with a key.
#[derive(Clone, Copy, Debug, PartialEq, Eq, Default)]
pub struct Modifiers {
    pub control: bool,
    pub alt: bool,
    pub shift: bool,
    pub platform: bool,
    pub function: bool,
}

/// A key press: the key's name and the modifiers held with it.
#[derive(Clone, Debug, PartialEq, Eq)]
pub struct Keystroke {
    pub modifiers: Modifiers,
    pub key: String,
}

/// Which modifier the platform uses for shortcuts: the command key on macOS,
/// the control key elsewhere.
#[derive(Clone, Copy, Debug, PartialEq, Eq)]
pub enum ShortcutKey {
    Platform,
    Control,
}

/// No modifier but possibly shift: plain editing and navigation keys.
pub open spec fn is_navigation(m: Modifiers) -> bool {
    !m.control && !m.alt && !m.platform && !m.function
}

/// Alt alone: adding carets above or below.
pub open spec fn is_add_caret(m: Modifiers) -> bool {
    m.alt && !m.shift && !m.control && !m.platform && !m.function
}

/// The shortcut modifier alone, possibly with shift.
pub open spec fn is_shortcut_navigation(m: Modifiers, key: ShortcutKey) -> bool {
    !m.alt && !m.function && match key {
        ShortcutKey::Platform => m.platform && !m.control,
        ShortcutKey::Control => m.control && !m.platform,
    }
}

/// The shortcut modifier alone, with shift exactly when `shift`.
pub open spec fn is_shortcut(m: Modifiers, key: ShortcutKey, shift: bool) -> bool {
    m.shift == shift && is_shortcut_navigation(m, key)
}

pub fn navigation_modifiers(modifiers: Modifiers) -> (r: bool)
    ensures
        r == is_navigation(modifiers),
{
    !modifiers.control && !modifiers.alt && !modifiers.platform && !modifiers.function
}

pub fn add_caret_modifiers(modifiers: Modifiers) -> (r: bool)
    ensures
        r == is_add_caret(modifiers),
{
    modifiers.alt && !modifiers.shift && !modifiers.control && !modifiers.platform
        && !modifiers.function
}

pub fn word_modifiers(modifiers: Modifiers, shortcut_key: ShortcutKey) -> (r: bool)
    ensures
        r == is_shortcut_navigation(modifiers, shortcut_key),
{
    shortcut_navigation_modifiers(modifiers, shortcut_key)
}

pub fn document_modifiers(modifiers: Modifiers, shortcut_key: ShortcutKey) -> (r: bool)
    ensures
        r == is_shortcut_navigation(modifiers, shortcut_key),
{
    shortcut_navigation_modifiers(modifiers, shortcut_key)
}

pub fn shortcut_navigation_modifiers(modifiers: Modifiers, shortcut_key: ShortcutKey) -> (r:
    bool)
    ensures
        r == is_shortcut_navigation(modifiers, shortcut_key),
{
    if modifiers.alt || modifiers.function {
        return false;
    }
    match shortcut_key {
        ShortcutKey::Platform => modifiers.platform && !modifiers.control,
        ShortcutKey::Control => modifiers.control && !modifiers.platform,
    }
}

pub fn shortcut_modifiers(modifiers: Modifiers, shortcut_key: ShortcutKey, shift: bool) -> (r:
    bool)
    ensures
        r == is_shortcut(modifiers, shortcut_key, shift),
{
    if modifiers.alt || modifiers.function || modifiers.shift != shift {
        return false;
    }
    match shortcut_key {
        ShortcutKey::Platform => modifiers.platform && !modifiers.control,
        ShortcutKey::Control => modifiers.control && !modifiers.platform,
    }
}

/// Whether the text of `key` is `name`.
pub fn key_is(key: &String, name: &str) -> (r: bool)
    ensures
        r == (key@ == name@),
{
    str_eq(key.as_str(), name)
}

/// The command bound to a key with the given modifiers, if any.
pub open spec fn command_for_key(key: Seq<char>, m: Modifiers, s: ShortcutKey) -> Option<
    EditorCommand,
> {
    if key == "backspace"@ && is_navigation(m) {
        Some(EditorCommand::Backspace)
    } else if key == "delete"@ && is_navigation(m) {
        Some(EditorCommand::Delete)
    } else if key == "left"@ && is_shortcut_navigation(m, s) {
        Some(EditorCommand::MoveToPreviousWord { extend: m.shift })
    } else if key == "right"@ && is_shortcut_navigation(m, s) {
        Some(EditorCommand::MoveToNextWord { extend: m.shift })
    } else if key == "left"@ && is_navigation(m) {
        Some(EditorCommand::MoveLeft { extend: m.shift })
    } else if key == "right"@ && is_navigation(m) {
        Some(EditorCommand::MoveRight { extend: m.shift })
    } else if key == "up"@ && is_add_caret(m) {
        Some(EditorCommand::AddCaretAbove)
    } else if key == "down"@ && is_add_caret(m) {
        Some(EditorCommand::AddCaretBelow)
    } else if key == "up"@ && is_navigation(m) {
        Some(EditorCommand::MoveUp { extend: m.shift })
    } else if key == "down"@ && is_navigation(m) {
        Some(EditorCommand::MoveDown { extend: m.shift })
    } else if key == "pageup"@ && is_navigation(m) {
        Some(EditorCommand::PageUp { extend: m.shift })
    } else if key == "pagedown"@ && is_navigation(m) {
        Some(EditorCommand::PageDown { extend: m.shift })
    } else if key == "home"@ && is_shortcut_navigation(m, s) {
        Some(EditorCommand::MoveToDocumentStart { extend: m.shift })
    } else if key == "end"@ && is_shortcut_navigation(m, s) {
        Some(EditorCommand::MoveToDocumentEnd { extend: m.shift })
    } else if key == "home"@ && is_navigation(m) {
        Some(EditorCommand::MoveToLineStart { extend: m.shift })
    } else if key == "end"@ && is_navigation(m) {
        Some(EditorCommand::MoveToLineEnd { extend: m.shift })
    } else if key == "enter"@ && is_navigation(m) {
        Some(EditorCommand::InsertText("\n"))
    } else if key == "a"@ && is_shortcut(m, s, false) {
        Some(EditorCommand::SelectAll)
    } else if key == "d"@ && is_shortcut(m, s, false) {
        Some(EditorCommand::SelectNextMatch)
    } else if key == "d"@ && is_shortcut(m, s, true) {
        Some(EditorCommand::SkipActiveMatch)
    } else if key == "l"@ && is_shortcut(m, s, true) {
        Some(EditorCommand::SelectAllMatches)
    } else if key == "escape"@ && is_navigation(m) {
        Some(EditorCommand::Cancel)
    } else if key == "c"@ && is_shortcut(m, s, false) {
        Some(EditorCommand::Copy)
    } else if key == "x"@ && is_shortcut(m, s, false) {
        Some(EditorCommand::Cut)
    } else if key == "v"@ && is_shortcut(m, s, false) {
        Some(EditorCommand::Paste)
    } else if key == "z"@ && is_shortcut(m, s, false) {
        Some(EditorCommand::Undo)
    } else if key == "z"@ && is_shortcut(m, s, true) {
        Some(EditorCommand::Redo)
    } else if key == "y"@ && is_shortcut(m, s, false) {
        Some(EditorCommand::Redo)
    } else if key == "u"@ && is_shortcut(m, s, false) {
        Some(EditorCommand::UndoSelection)
    } else if key == "u"@ && is_shortcut(m, s, true) {
        Some(EditorCommand::RedoSelection)
    } else {
        None
    }
}

/// Whether a movement command extends the selection; `None` for commands
/// that move nothing.
pub open spec fn extends_selection(command: EditorCommand) -> Option<bool> {
    match command {
        EditorCommand::MoveLeft { extend } => Some(extend),
        EditorCommand::MoveRight { extend } => Some(extend),
        EditorCommand::MoveUp { extend } => Some(extend),
        EditorCommand::MoveDown { extend } => Some(extend),
        EditorCommand::MoveToLineStart { extend } => Some(extend),
        EditorCommand::MoveToLineEnd { extend } => Some(extend),
        EditorCommand::MoveToDocumentStart { extend } => Some(extend),
        EditorCommand::MoveToDocumentEnd { extend } => Some(extend),
        EditorCommand::MoveToPreviousWord { extend } => Some(extend),
        EditorCommand::MoveToNextWord { extend } => Some(extend),
        EditorCommand::PageUp { extend } => Some(extend),
        EditorCommand::PageDown { extend } => Some(extend),
        _ => None,
    }
}

/// Shift selects: every movement a key asks for extends the selection
/// exactly when shift is held. And each navigation key pressed with no
/// modifier but perhaps shift asks for its own movement.
pub proof fn lemma_shift_extends_movements(key: Seq<char>, m: Modifiers, s: ShortcutKey)
    ensures
        command_for_key(key, m, s) matches Some(command) ==> (extends_selection(command) matches Some(
            extend,
        ) ==> extend == m.shift),
        !m.control && !m.alt && !m.platform && !m.function && key == "left"@ ==> command_for_key(
            key,
            m,
            s,
        ) == Some(EditorCommand::MoveLeft { extend: m.shift }),
        !m.control && !m.alt && !m.platform && !m.function && key == "right"@ ==> command_for_key(
            key,
            m,
            s,
        ) == Some(EditorCommand::MoveRight { extend: m.shift }),
        !m.control && !m.alt && !m.platform && !m.function && key == "up"@ ==> command_for_key(
            key,
            m,
            s,
        ) == Some(EditorCommand::MoveUp { extend: m.shift }),
        !m.control && !m.alt && !m.platform && !m.function && key == "down"@ ==> command_for_key(
            key,
            m,
            s,
        ) == Some(EditorCommand::MoveDown { extend: m.shift }),
        !m.control && !m.alt && !m.platform && !m.function && key == "home"@ ==> command_for_key(
            key,
            m,
            s,
        ) == Some(EditorCommand::MoveToLineStart { extend: m.shift }),
        !m.control && !m.alt && !m.platform && !m.function && key == "end"@ ==> command_for_key(
            key,
            m,
            s,
        ) == Some(EditorCommand::MoveToLineEnd { extend: m.shift }),
        !m.control && !m.alt && !m.platform && !m.function && key == "pageup"@ ==> command_for_key(
            key,
            m,
            s,
        ) == Some(EditorCommand::PageUp { extend: m.shift }),
        !m.control && !m.alt && !m.platform && !m.function && key == "pagedown"@ ==> command_for_key(
            key,
            m,
            s,
        ) == Some(EditorCommand::PageDown { extend: m.shift }),
{
    reveal_strlit("backspace");
    reveal_strlit("delete");
    reveal_strlit("left");
    reveal_strlit("right");
    reveal_strlit("up");
    reveal_strlit("down");
    reveal_strlit("pageup");
    reveal_strlit("pagedown");
    reveal_strlit("home");
    reveal_strlit("end");
    assert("left"@.len() == 4 && "left"@[0] == 'l');
    assert("right"@.len() == 5 && "right"@[0] == 'r');
    assert("up"@.len() == 2 && "down"@.len() == 4 && "down"@[0] == 'd');
    assert("home"@.len() == 4 && "home"@[0] == 'h' && "end"@.len() == 3);
    assert("pageup"@.len() == 6 && "pagedown"@.len() == 8);
    assert("backspace"@.len() == 9 && "delete"@.len() == 6 && "delete"@[0] == 'd');
    if !m.control && !m.alt && !m.platform && !m.function {
        assert(!is_shortcut_navigation(m, s));
    }
}

/// The command bound to `keystroke`; `shortcut_key` is the platform's
/// shortcut modifier.
pub fn command_for_keystroke(keystroke: &Keystroke, shortcut_key: ShortcutKey) -> (r: Option<
    EditorCommand,
>)
    ensures
        r == command_for_key(keystroke.key@, keystroke.modifiers, shortcut_key),
{
    let m = keystroke.modifiers;
    let k = &keystroke.key;
    let s = shortcut_key;
    if key_is(k, "backspace") && navigation_modifiers(m) {
        Some(EditorCommand::Backspace)
    } else if key_is(k, "delete") && navigation_modifiers(m) {
        Some(EditorCommand::Delete)
    } else if key_is(k, "left") && word_modifiers(m, s) {
        Some(EditorCommand::MoveToPreviousWord { extend: m.shift })
    } else if key_is(k, "right") && word_modifiers(m, s) {
        Some(EditorCommand::MoveToNextWord { extend: m.shift })
    } else if key_is(k, "left") && navigation_modifiers(m) {
        Some(EditorCommand::MoveLeft { extend: m.shift })
    } else if key_is(k, "right") && navigation_modifiers(m) {
        Some(EditorCommand::MoveRight { extend: m.shift })
    } else if key_is(k, "up") && add_caret_modifiers(m) {
        Some(EditorCommand::AddCaretAbove)
    } else if key_is(k, "down") && add_caret_modifiers(m) {
        Some(EditorCommand::AddCaretBelow)
    } else if key_is(k, "up") && navigation_modifiers(m) {
        Some(EditorCommand::MoveUp { extend: m.shift })
    } else if key_is(k, "down") && navigation_modifiers(m) {
        Some(EditorCommand::MoveDown { extend: m.shift })
    } else if key_is(k, "pageup") && navigation_modifiers(m) {
        Some(EditorCommand::PageUp { extend: m.shift })
    } else if key_is(k, "pagedown") && navigation_modifiers(m) {
        Some(EditorCommand::PageDown { extend: m.shift })
    } else if key_is(k, "home") && document_modifiers(m, s) {
        Some(EditorCommand::MoveToDocumentStart { extend: m.shift })
    } else if key_is(k, "end") && document_modifiers(m, s) {
        Some(EditorCommand::MoveToDocumentEnd { extend: m.shift })
    } else if key_is(k, "home") && navigation_modifiers(m) {
        Some(EditorCommand::MoveToLineStart { extend: m.shift })
    } else if key_is(k, "end") && navigation_modifiers(m) {
        Some(EditorCommand::MoveToLineEnd { extend: m.shift })
    } else if key_is(k, "enter") && navigation_modifiers(m) {
        Some(EditorCommand::InsertText("\n"))
    } else if key_is(k, "a") && shortcut_modifiers(m, s, false) {
        Some(EditorCommand::SelectAll)
    } else if key_is(k, "d") && shortcut_modifiers(m, s, false) {
        Some(EditorCommand::SelectNextMatch)
    } else if key_is(k, "d") && shortcut_modifiers(m, s, true) {
        Some(EditorCommand::SkipActiveMatch)
    } else if key_is(k, "l") && shortcut_modifiers(m, s, true) {
        Some(EditorCommand::SelectAllMatches)
    } else if key_is(k, "escape") && navigation_modifiers(m) {
        Some(EditorCommand::Cancel)
    } else if key_is(k, "c") && shortcut_modifiers(m, s, false) {
        Some(EditorCommand::Copy)
    } else if key_is(k, "x") && shortcut_modifiers(m, s, false) {
        Some(EditorCommand::Cut)
    } else if key_is(k, "v") && shortcut_modifiers(m, s, false) {
        Some(EditorCommand::Paste)
    } else if key_is(k, "z") && shortcut_modifiers(m, s, false) {
        Some(EditorCommand::Undo)
    } else if key_is(k, "z") && shortcut_modifiers(m, s, true) {
        Some(EditorCommand::Redo)
    } else if key_is(k, "y") && shortcut_modifiers(m, s, false) {
        Some(EditorCommand::Redo)
    } else if key_is(k, "u") && shortcut_modifiers(m, s, false) {
        Some(EditorCommand::UndoSelection)
    } else if key_is(k, "u") && shortcut_modifiers(m, s, true) {
        Some(EditorCommand::RedoSelection)
    } else {
        None
    }
}

/// A selection of the buffer: byte offsets `start <= end`, with the head at
/// `start` when `reversed`.
#[derive(Clone, Copy, Debug, PartialEq, Eq)]
pub struct Selection {
    pub id: usize,
    pub start: usize,
    pub end: usize,
    pub reversed: bool,
}

impl Selection {
    pub open spec fn head_spec(self) -> usize {
        if self.reversed {
            self.start
        } else {
            self.end
        }
    }

    /// Where the cursor of the selection is.
    pub fn head(&self) -> (r: usize)
        ensures
            r == self.head_spec(),
    {
        if self.reversed {
            self.start
        } else {
            self.end
        }
    }

    /// The selection covers no text.
    pub fn is_empty(&self) -> (r: bool)
        ensures
            r == (self.start == self.end),
    {
        self.start == self.end
    }
}

/// The selection state that command outcomes compare: each selection as
/// `(id, start, end, reversed)`, then `(usize::MAX, active index, 0, false)`.
pub open spec fn selection_state_spec(selections: Seq<Selection>, active_index: usize) -> Seq<
    (usize, usize, usize, bool),
> {
    selections.map_values(|s: Selection| (s.id, s.start, s.end, s.reversed)).push(
        (usize::MAX, active_index, 0usize, false),
    )
}

/// The state of the selections and of which one is active.
pub fn selection_state(selections: &Vec<Selection>, active_index: usize) -> (r: Vec<
    (usize, usize, usize, bool),
>)
    ensures
        r@ == selection_state_spec(selections@, active_index),
{
    let mut state: Vec<(usize, usize, usize, bool)> = Vec::new();
    let mut i: usize = 0;
    while i < selections.len()
        invariant
            i <= selections@.len(),
            state@ == selections@.take(i as int).map_values(
                |s: Selection| (s.id, s.start, s.end, s.reversed),
            ),
        decreases selections@.len() - i,
    {
        let s = selections[i];
        state.push((s.id, s.start, s.end, s.reversed));
        assert(selections@.take(i + 1) =~= selections@.take(i as int).push(s));
        assert(state@ =~= selections@.take(i + 1).map_values(
            |s: Selection| (s.id, s.start, s.end, s.reversed),
        ));
        i = i + 1;
    }
    assert(selections@.take(selections@.len() as int) =~= selections@);
    state.push((usize::MAX, active_index, 0, false));
    state
}

/// Whether two selection states are the same.
pub fn same_selection_state(
    a: &Vec<(usize, usize, usize, bool)>,
    b: &Vec<(usize, usize, usize, bool)>,
) -> (r: bool)
    ensures
        r == (a@ == b@),
{
    if a.len() != b.len() {
        return false;
    }
    let mut i: usize = 0;
    while i < a.len()
        invariant
            a@.len() == b@.len(),
            i <= a@.len(),
            forall|j: int| 0 <= j < i ==> a@[j] == b@[j],
        decreases a@.len() - i,
    {
        let x = a[i];
        let y = b[i];
        if x.0 != y.0 || x.1 != y.1 || x.2 != y.2 || x.3 != y.3 {
            return false;
        }
        i = i + 1;
    }
    assert(a@ =~= b@);
    true
}

/// The outcome of a command from the text version and selection state
/// observed before and after it.
pub fn command_outcome(
    before_text_version: u64,
    after_text_version: u64,
    before_selections: &Vec<(usize, usize, usize, bool)>,
    after_selections: &Vec<(usize, usize, usize, bool)>,
) -> (r: CommandOutcome)
    ensures
        r.changed_text == (before_text_version != after_text_version),
        r.moved_cursor == (before_selections@ != after_selections@),
{
    CommandOutcome {
        changed_text: before_text_version != after_text_version,
        moved_cursor: !same_selection_state(before_selections, after_selections),
    }
}

} // verus!
