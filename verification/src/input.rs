//! Mapping raw keyboard events to semantic commands. A raw event arrives
//! as a plain [`KeyInput`] value (the terminal layer converts its own
//! event type into this one); the mapping depends only on the current
//! interaction mode and focus, in a fixed priority order. Hotkeys come in
//! alias sets so several keyboard layouts drive the same action, and are
//! suppressed wherever the mode treats the key as literal text.

use vstd::prelude::*;
use crate::state::{FocusArea, UiMode};
use crate::text::{pop_char, push_char};

verus! {

/// A key, reduced to what the controller reads.
#[derive(Debug, Clone, Copy, PartialEq, Eq, Structural)]
pub enum KeyCode {
    Char(char),
    Up,
    Down,
    Tab,
    BackTab,
    Enter,
    Backspace,
    Esc,
    Other,
}

/// Whether the key went down, repeated, or came up.
#[derive(Debug, Clone, Copy, PartialEq, Eq, Structural)]
pub enum KeyEventKind {
    Press,
    Repeat,
    Release,
}

/// One keyboard event: the key, the transition kind, and whether a
/// control modifier was held.
#[derive(Debug, Clone, Copy, PartialEq, Eq, Structural)]
pub struct KeyInput {
    pub code: KeyCode,
    pub kind: KeyEventKind,
    pub ctrl: bool,
}

/// One semantic command for the event loop.
#[derive(Debug, Clone, Copy, PartialEq, Eq, Structural)]
pub enum AppCommand {
    MoveUp,
    MoveDown,
    ScrollMessagesUp,
    ScrollMessagesDown,
    FocusNext,
    FocusPrev,
    EnterCompose,
    ExitComposeOrSearch,
    SubmitMessage,
    StartSearch,
    ToggleSortMode,
    Backspace,
    InsertChar(char),
    Quit,
    Noop,
}

/// The quit alias set: one trigger character per keyboard layout, taken
/// case-insensitively for ASCII.
pub open spec fn spec_is_quit_char(c: char) -> bool {
    c == 'q' || c == 'Q' || c == '\u{439}'
}

/// The compose alias set.
pub open spec fn spec_is_compose_char(c: char) -> bool {
    c == 'i' || c == 'I' || c == '\u{448}'
}

/// The sort alias set.
pub open spec fn spec_is_sort_char(c: char) -> bool {
    c == 's' || c == 'S' || c == '\u{44b}'
}

/// The search alias set.
pub open spec fn spec_is_search_char(c: char) -> bool {
    c == '/' || c == '.'
}

/// Whether the event is a character of the quit alias set.
pub open spec fn spec_is_quit_hotkey(key: KeyInput) -> bool {
    match key.code {
        KeyCode::Char(c) => spec_is_quit_char(c),
        _ => false,
    }
}

/// Whether the event is a character of the quit alias set.
pub fn is_quit_hotkey(key: KeyInput) -> (r: bool)
    ensures
        r == spec_is_quit_hotkey(key),
{
    match key.code {
        KeyCode::Char(c) => c == 'q' || c == 'Q' || c == '\u{439}',
        _ => false,
    }
}

fn is_quit_char(c: char) -> (r: bool)
    ensures
        r == spec_is_quit_char(c),
{
    c == 'q' || c == 'Q' || c == '\u{439}'
}

fn is_compose_char(c: char) -> (r: bool)
    ensures
        r == spec_is_compose_char(c),
{
    c == 'i' || c == 'I' || c == '\u{448}'
}

fn is_sort_char(c: char) -> (r: bool)
    ensures
        r == spec_is_sort_char(c),
{
    c == 's' || c == 'S' || c == '\u{44b}'
}

fn is_search_char(c: char) -> (r: bool)
    ensures
        r == spec_is_search_char(c),
{
    c == '/' || c == '.'
}

/// The command a raw event maps to, given the mode and focus in effect.
///
/// Priority order: non-press events map to nothing; focus cycling; the
/// directional keys act by focus (selection in the chats pane, transcript
/// scrolling in the messages pane, nothing in the input pane); activation
/// submits only in compose mode; erase and escape; then the hotkey alias
/// sets, each suppressed wherever the mode takes the key as literal text
/// (compose mode takes every character; search mode keeps the compose,
/// sort and quit characters typable in the query, yielding only the
/// search hotkey; the sort hotkey additionally asks for chats focus); any
/// other character is inserted.
pub open spec fn spec_map_key_event(key: KeyInput, ui_mode: UiMode, focus: FocusArea) -> AppCommand {
    if key.kind != KeyEventKind::Press {
        AppCommand::Noop
    } else {
        match key.code {
            KeyCode::BackTab => AppCommand::FocusPrev,
            KeyCode::Tab => AppCommand::FocusNext,
            KeyCode::Up => match focus {
                FocusArea::Chats => AppCommand::MoveUp,
                FocusArea::Messages => AppCommand::ScrollMessagesUp,
                FocusArea::Input => AppCommand::Noop,
            },
            KeyCode::Down => match focus {
                FocusArea::Chats => AppCommand::MoveDown,
                FocusArea::Messages => AppCommand::ScrollMessagesDown,
                FocusArea::Input => AppCommand::Noop,
            },
            KeyCode::Enter => if ui_mode == UiMode::Compose {
                AppCommand::SubmitMessage
            } else {
                AppCommand::Noop
            },
            KeyCode::Backspace => AppCommand::Backspace,
            KeyCode::Esc => AppCommand::ExitComposeOrSearch,
            KeyCode::Char(c) => if spec_is_search_char(c) && ui_mode != UiMode::Compose {
                AppCommand::StartSearch
            } else if spec_is_sort_char(c) && ui_mode == UiMode::Normal && focus
                == FocusArea::Chats {
                AppCommand::ToggleSortMode
            } else if spec_is_compose_char(c) && ui_mode == UiMode::Normal {
                AppCommand::EnterCompose
            } else if spec_is_quit_char(c) && ui_mode == UiMode::Normal {
                AppCommand::Quit
            } else {
                AppCommand::InsertChar(c)
            },
            KeyCode::Other => AppCommand::Noop,
        }
    }
}

/// Map a raw keyboard event to its semantic command.
pub fn map_key_event(key: KeyInput, ui_mode: UiMode, focus: FocusArea) -> (r: AppCommand)
    ensures
        r == spec_map_key_event(key, ui_mode, focus),
{
    match key.kind {
        KeyEventKind::Press => {},
        _ => {
            return AppCommand::Noop;
        },
    }
    match key.code {
        KeyCode::BackTab => AppCommand::FocusPrev,
        KeyCode::Tab => AppCommand::FocusNext,
        KeyCode::Up => match focus {
            FocusArea::Chats => AppCommand::MoveUp,
            FocusArea::Messages => AppCommand::ScrollMessagesUp,
            FocusArea::Input => AppCommand::Noop,
        },
        KeyCode::Down => match focus {
            FocusArea::Chats => AppCommand::MoveDown,
            FocusArea::Messages => AppCommand::ScrollMessagesDown,
            FocusArea::Input => AppCommand::Noop,
        },
        KeyCode::Enter => {
            if ui_mode == UiMode::Compose {
                AppCommand::SubmitMessage
            } else {
                AppCommand::Noop
            }
        },
        KeyCode::Backspace => AppCommand::Backspace,
        KeyCode::Esc => AppCommand::ExitComposeOrSearch,
        KeyCode::Char(c) => {
            if is_search_char(c) && ui_mode != UiMode::Compose {
                AppCommand::StartSearch
            } else if is_sort_char(c) && ui_mode == UiMode::Normal && focus == FocusArea::Chats {
                AppCommand::ToggleSortMode
            } else if is_compose_char(c) && ui_mode == UiMode::Normal {
                AppCommand::EnterCompose
            } else if is_quit_char(c) && ui_mode == UiMode::Normal {
                AppCommand::Quit
            } else {
                AppCommand::InsertChar(c)
            }
        },
        KeyCode::Other => AppCommand::Noop,
    }
}

/// What a key does on the login screen.
#[derive(Debug, Clone, Copy, PartialEq, Eq, Structural)]
pub enum AuthKeyAction {
    Submit,
    Quit,
    Noop,
}

/// Apply one key to the login input buffer: activation submits, erase
/// edits, a quit alias (or a control-c, or escape) quits, any other
/// character is typed into the buffer.
pub fn handle_auth_key(key: KeyInput, input: &mut String) -> (r: AuthKeyAction)
    ensures
        key.kind != KeyEventKind::Press ==> r == AuthKeyAction::Noop && final(input)@ == old(
            input,
        )@,
        key.kind == KeyEventKind::Press ==> match key.code {
            KeyCode::Enter => r == AuthKeyAction::Submit && final(input)@ == old(input)@,
            KeyCode::Backspace => r == AuthKeyAction::Noop && final(input)@ == (if old(
                input,
            )@.len() > 0 {
                old(input)@.drop_last()
            } else {
                old(input)@
            }),
            KeyCode::Char(c) => {
                if spec_is_quit_char(c) || (c == 'c' && key.ctrl) {
                    r == AuthKeyAction::Quit && final(input)@ == old(input)@
                } else {
                    r == AuthKeyAction::Noop && final(input)@ == old(input)@.push(c)
                }
            },
            KeyCode::Esc => r == AuthKeyAction::Quit && final(input)@ == old(input)@,
            _ => r == AuthKeyAction::Noop && final(input)@ == old(input)@,
        },
{
    match key.kind {
        KeyEventKind::Press => {},
        _ => {
            return AuthKeyAction::Noop;
        },
    }
    match key.code {
        KeyCode::Enter => AuthKeyAction::Submit,
        KeyCode::Backspace => {
            pop_char(input);
            AuthKeyAction::Noop
        },
        KeyCode::Char(c) => {
            if is_quit_char(c) {
                AuthKeyAction::Quit
            } else if c == 'c' && key.ctrl {
                AuthKeyAction::Quit
            } else {
                push_char(input, c);
                AuthKeyAction::Noop
            }
        },
        KeyCode::Esc => AuthKeyAction::Quit,
        _ => AuthKeyAction::Noop,
    }
}

} // verus!
