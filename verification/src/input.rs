//! Keyboard shortcuts: which action a key press stands for, which presses an
//! edit control hands to its parent, and what the main window does with each.
use vstd::prelude::*;

verus! {

/// A keyboard shortcut.
#[derive(Clone, Copy, Debug, PartialEq, Eq, Structural)]
pub enum InputAction {
    /// The key is no shortcut.
    NoAction,
    /// Ctrl+A.
    SelectAll,
    /// Ctrl+C.
    Copy,
    /// Ctrl+V.
    Paste,
    /// Delete.
    Delete,
    /// Ctrl+O.
    OpenFiles,
    /// Ctrl+Shift+O.
    OpenFolder,
}

/// The virtual-key code of Delete.
pub const VK_DELETE: i32 = 0x2E;
/// `WM_KEYDOWN`.
pub const WM_KEYDOWN: u32 = 0x0100;

/// Whether a key-state word says the key is down (its high bit).
pub fn key_is_down(state: i16) -> (r: bool)
    ensures
        r == (state < 0),
{
    state < 0
}

/// The shortcut a key press stands for, given whether Ctrl and Shift are down.
pub fn resolve_key_action(vk: i32, ctrl: bool, shift: bool) -> (r: InputAction)
    ensures
        r == (if vk == 0x41 && ctrl {
            InputAction::SelectAll
        } else if vk == 0x43 && ctrl {
            InputAction::Copy
        } else if vk == 0x56 && ctrl {
            InputAction::Paste
        } else if vk == 0x4F && ctrl && shift {
            InputAction::OpenFolder
        } else if vk == 0x4F && ctrl {
            InputAction::OpenFiles
        } else if vk == VK_DELETE {
            InputAction::Delete
        } else {
            InputAction::NoAction
        }),
{
    if vk == 0x41 && ctrl {
        InputAction::SelectAll
    } else if vk == 0x43 && ctrl {
        InputAction::Copy
    } else if vk == 0x56 && ctrl {
        InputAction::Paste
    } else if vk == 0x4F && ctrl && shift {
        InputAction::OpenFolder
    } else if vk == 0x4F && ctrl {
        InputAction::OpenFiles
    } else if vk == VK_DELETE {
        InputAction::Delete
    } else {
        InputAction::NoAction
    }
}

/// Whether a subclassed control hands a message to its parent as a shortcut:
/// a key press that is select-all, paste, delete, open files or open folder.
pub fn forwards_to_parent(msg: u32, action: InputAction) -> (r: bool)
    ensures
        r == (msg == WM_KEYDOWN && (action == InputAction::SelectAll || action == InputAction::Paste
            || action == InputAction::Delete || action == InputAction::OpenFiles
            || action == InputAction::OpenFolder)),
{
    msg == WM_KEYDOWN && match action {
        InputAction::SelectAll | InputAction::Paste | InputAction::Delete | InputAction::OpenFiles
        | InputAction::OpenFolder => true,
        _ => false,
    }
}

/// Whether a window class name is `Edit`, letter case aside (ASCII).
pub fn is_edit_class(name: &str) -> (r: bool)
    ensures
        r == (name@.len() == 4 && (name@[0] == 'e' || name@[0] == 'E') && (name@[1] == 'd' || name@[1] == 'D')
            && (name@[2] == 'i' || name@[2] == 'I') && (name@[3] == 't' || name@[3] == 'T')),
{
    let cs = crate::text::collect_chars(name);
    if cs.len() != 4 {
        return false;
    }
    (cs[0] == 'e' || cs[0] == 'E') && (cs[1] == 'd' || cs[1] == 'D') && (cs[2] == 'i' || cs[2] == 'I')
        && (cs[3] == 't' || cs[3] == 'T')
}

/// What the main window does with a shortcut.
#[derive(Clone, Copy, Debug, PartialEq, Eq, Structural)]
pub enum ShortcutEffect {
    /// Paste text into the search box the keys came from.
    PasteIntoSource,
    /// Add the files on the clipboard.
    AddFromClipboard,
    /// Open the file picker.
    AddFiles,
    /// Open the folder picker.
    AddFolder,
    /// Delete the selected text of the search box.
    ClearInSource,
    /// Remove the selected rows.
    RemoveSelected,
    /// Select all text of the edit control the keys came from.
    SelectAllInSource,
    /// Select every row of the list.
    SelectAllRows,
    /// Nothing more to do; the keys are taken.
    Consumed,
    /// Not a shortcut of the main window.
    NotHandled,
}

/// The main window's answer to a shortcut, from where the keys came from:
/// the search box, another edit control, the list or the window itself.
/// Before the controls exist only the clipboard, file and delete shortcuts act.
pub fn global_shortcut_effect(
    action: InputAction,
    has_controls: bool,
    from_search: bool,
    from_edit: bool,
    from_list_or_window: bool,
) -> (r: ShortcutEffect)
    ensures
        action == InputAction::Paste ==> r == (if has_controls && from_search {
            ShortcutEffect::PasteIntoSource
        } else {
            ShortcutEffect::AddFromClipboard
        }),
        action == InputAction::OpenFiles ==> r == ShortcutEffect::AddFiles,
        action == InputAction::OpenFolder ==> r == ShortcutEffect::AddFolder,
        action == InputAction::Delete ==> r == (if has_controls && from_search {
            ShortcutEffect::ClearInSource
        } else {
            ShortcutEffect::RemoveSelected
        }),
        action == InputAction::SelectAll ==> r == (if !has_controls {
            ShortcutEffect::Consumed
        } else if from_search || from_edit {
            ShortcutEffect::SelectAllInSource
        } else if from_list_or_window {
            ShortcutEffect::SelectAllRows
        } else {
            ShortcutEffect::Consumed
        }),
        action == InputAction::Copy || action == InputAction::NoAction ==> r == ShortcutEffect::NotHandled,
{
    match action {
        InputAction::Paste => {
            if has_controls && from_search {
                ShortcutEffect::PasteIntoSource
            } else {
                ShortcutEffect::AddFromClipboard
            }
        },
        InputAction::OpenFiles => ShortcutEffect::AddFiles,
        InputAction::OpenFolder => ShortcutEffect::AddFolder,
        InputAction::Delete => {
            if has_controls && from_search {
                ShortcutEffect::ClearInSource
            } else {
                ShortcutEffect::RemoveSelected
            }
        },
        InputAction::SelectAll => {
            if !has_controls {
                ShortcutEffect::Consumed
            } else if from_search || from_edit {
                ShortcutEffect::SelectAllInSource
            } else if from_list_or_window {
                ShortcutEffect::SelectAllRows
            } else {
                ShortcutEffect::Consumed
            }
        },
        _ => ShortcutEffect::NotHandled,
    }
}

} // verus!
