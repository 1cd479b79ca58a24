//! Key bindings: which application action a key press stands for.

use vstd::prelude::*;

verus! {

/// What the user asked the application to do.
#[derive(Debug, Clone, PartialEq, Eq)]
pub enum AppAction {
    NoAction,
    Quit,
    Cancel,
    NextTab,
    PrevTab,
    SwitchTab(usize),
    NewTab,
    CloseTab,
    ScrollUp(usize),
    ScrollDown(usize),
    ScrollToTop,
    ScrollToBottom,
    Reconnect,
    ToggleStatusBar,
    Help,
    SubmitLine,
    Backspace,
    InsertChar(char),
    InsertString(String),
    CopySelection,
    PasteClipboard,
    HistoryUp,
    HistoryDown,
    AutoComplete,
    ReverseSearch,
    ToggleScrollback,
    CtrlC,
    CtrlZ,
}

/// The key of a key press.
#[derive(Debug, Clone, Copy, PartialEq, Eq, Structural)]
pub enum KeyCode {
    Char(char),
    Esc,
    Tab,
    Up,
    Down,
    PageUp,
    PageDown,
    Home,
    End,
    Insert,
    Enter,
    Backspace,
    F(u8),
    /// Any other key.
    Other,
}

/// The modifiers held during a key press.
#[derive(Debug, Clone, Copy, PartialEq, Eq, Structural)]
pub struct KeyModifiers {
    pub control: bool,
    pub shift: bool,
    pub alt: bool,
}

/// A key press.
#[derive(Debug, Clone, Copy, PartialEq, Eq, Structural)]
pub struct KeyEvent {
    pub code: KeyCode,
    pub modifiers: KeyModifiers,
}

/// The tab that Ctrl and a digit `1` to `9` switches to.
pub open spec fn digit_tab(c: char) -> Option<usize> {
    if c == '1' {
        Some(0)
    } else if c == '2' {
        Some(1)
    } else if c == '3' {
        Some(2)
    } else if c == '4' {
        Some(3)
    } else if c == '5' {
        Some(4)
    } else if c == '6' {
        Some(5)
    } else if c == '7' {
        Some(6)
    } else if c == '8' {
        Some(7)
    } else if c == '9' {
        Some(8)
    } else {
        None
    }
}

/// The action bound to a key press. The bindings are tried in order, so
/// that e.g. Ctrl+Shift+C (copy) is found before Ctrl+C (interrupt).
pub open spec fn key_action(k: KeyEvent) -> AppAction {
    let ctrl = k.modifiers.control;
    let shift = k.modifiers.shift;
    let alt = k.modifiers.alt;
    match k.code {
        KeyCode::Char(c) => if c == 'q' && ctrl {
            AppAction::Quit
        } else if ctrl && digit_tab(c) is Some {
            AppAction::SwitchTab(digit_tab(c)->0)
        } else if c == 't' && ctrl {
            AppAction::NewTab
        } else if c == 'w' && ctrl {
            AppAction::CloseTab
        } else if c == 'c' && ctrl && shift {
            AppAction::CopySelection
        } else if c == 'c' && ctrl {
            AppAction::CtrlC
        } else if c == 'z' && ctrl {
            AppAction::CtrlZ
        } else if c == 'v' && ctrl {
            AppAction::PasteClipboard
        } else if c == 'r' && ctrl {
            AppAction::ReverseSearch
        } else if ctrl || alt {
            AppAction::NoAction
        } else {
            AppAction::InsertChar(c)
        },
        KeyCode::Esc => AppAction::Cancel,
        KeyCode::Tab => if ctrl {
            if shift {
                AppAction::PrevTab
            } else {
                AppAction::NextTab
            }
        } else {
            AppAction::AutoComplete
        },
        KeyCode::Up => if shift {
            AppAction::ScrollUp(1)
        } else if ctrl {
            AppAction::ScrollUp(5)
        } else {
            AppAction::HistoryUp
        },
        KeyCode::Down => if shift {
            AppAction::ScrollDown(1)
        } else if ctrl {
            AppAction::ScrollDown(5)
        } else {
            AppAction::HistoryDown
        },
        KeyCode::PageUp => AppAction::ScrollUp(20),
        KeyCode::PageDown => AppAction::ScrollDown(20),
        KeyCode::Home => if shift {
            AppAction::ScrollToTop
        } else {
            AppAction::NoAction
        },
        KeyCode::End => if shift {
            AppAction::ScrollToBottom
        } else {
            AppAction::NoAction
        },
        KeyCode::F(n) => if n == 5 {
            AppAction::Reconnect
        } else if n == 9 {
            AppAction::ToggleStatusBar
        } else if n == 1 {
            AppAction::Help
        } else {
            AppAction::NoAction
        },
        KeyCode::Insert => if shift {
            AppAction::PasteClipboard
        } else {
            AppAction::NoAction
        },
        KeyCode::Enter => AppAction::SubmitLine,
        KeyCode::Backspace => AppAction::Backspace,
        KeyCode::Other => AppAction::NoAction,
    }
}

fn digit_tab_exec(c: char) -> (r: Option<usize>)
    ensures
        r == digit_tab(c),
{
    if c == '1' {
        Some(0)
    } else if c == '2' {
        Some(1)
    } else if c == '3' {
        Some(2)
    } else if c == '4' {
        Some(3)
    } else if c == '5' {
        Some(4)
    } else if c == '6' {
        Some(5)
    } else if c == '7' {
        Some(6)
    } else if c == '8' {
        Some(7)
    } else if c == '9' {
        Some(8)
    } else {
        None
    }
}

/// The action bound to the key press `key` (see `key_action`).
pub fn handle_key(key: KeyEvent) -> (a: AppAction)
    ensures
        a == key_action(key),
{
    let mods = key.modifiers;
    let ctrl = mods.control;
    let shift = mods.shift;
    match key.code {
        KeyCode::Char(c) => {
            if c == 'q' && ctrl {
                AppAction::Quit
            } else if ctrl && digit_tab_exec(c).is_some() {
                match digit_tab_exec(c) {
                    Some(n) => AppAction::SwitchTab(n),
                    None => AppAction::NoAction,
                }
            } else if c == 't' && ctrl {
                AppAction::NewTab
            } else if c == 'w' && ctrl {
                AppAction::CloseTab
            } else if c == 'c' && ctrl && shift {
                AppAction::CopySelection
            } else if c == 'c' && ctrl {
                AppAction::CtrlC
            } else if c == 'z' && ctrl {
                AppAction::CtrlZ
            } else if c == 'v' && ctrl {
                AppAction::PasteClipboard
            } else if c == 'r' && ctrl {
                AppAction::ReverseSearch
            } else if ctrl || mods.alt {
                AppAction::NoAction
            } else {
                AppAction::InsertChar(c)
            }
        },
        KeyCode::Esc => AppAction::Cancel,
        KeyCode::Tab => {
            if ctrl {
                if shift {
                    AppAction::PrevTab
                } else {
                    AppAction::NextTab
                }
            } else {
                AppAction::AutoComplete
            }
        },
        KeyCode::Up => {
            if shift {
                AppAction::ScrollUp(1)
            } else if ctrl {
                AppAction::ScrollUp(5)
            } else {
                AppAction::HistoryUp
            }
        },
        KeyCode::Down => {
            if shift {
                AppAction::ScrollDown(1)
            } else if ctrl {
                AppAction::ScrollDown(5)
            } else {
                AppAction::HistoryDown
            }
        },
        KeyCode::PageUp => AppAction::ScrollUp(20),
        KeyCode::PageDown => AppAction::ScrollDown(20),
        KeyCode::Home => {
            if shift {
                AppAction::ScrollToTop
            } else {
                AppAction::NoAction
            }
        },
        KeyCode::End => {
            if shift {
                AppAction::ScrollToBottom
            } else {
                AppAction::NoAction
            }
        },
        KeyCode::F(n) => {
            if n == 5 {
                AppAction::Reconnect
            } else if n == 9 {
                AppAction::ToggleStatusBar
            } else if n == 1 {
                AppAction::Help
            } else {
                AppAction::NoAction
            }
        },
        KeyCode::Insert => {
            if shift {
                AppAction::PasteClipboard
            } else {
                AppAction::NoAction
            }
        },
        KeyCode::Enter => AppAction::SubmitLine,
        KeyCode::Backspace => AppAction::Backspace,
        KeyCode::Other => AppAction::NoAction,
    }
}

/// Law: a character typed without Ctrl or Alt is inserted as it is.
pub proof fn lemma_plain_char_inserts(c: char, shift: bool)
    ensures
        key_action(
            KeyEvent {
                code: KeyCode::Char(c),
                modifiers: KeyModifiers { control: false, shift, alt: false },
            },
        ) == AppAction::InsertChar(c),
{
}

/// Law: Ctrl with a digit from 1 to 9 switches to the tab of that number
/// (counted from 1).
pub proof fn lemma_ctrl_digit_switches(c: char, shift: bool, alt: bool)
    requires
        '1' <= c <= '9',
    ensures
        key_action(
            KeyEvent {
                code: KeyCode::Char(c),
                modifiers: KeyModifiers { control: true, shift, alt },
            },
        ) == AppAction::SwitchTab(((c as u32) - ('1' as u32)) as usize),
{
    assert(c == '1' || c == '2' || c == '3' || c == '4' || c == '5' || c == '6' || c == '7' || c
        == '8' || c == '9') by {
        assert('1' as u32 <= c as u32 <= '9' as u32);
    }
}

/// Law: with Ctrl held, `c` copies when Shift is held too and interrupts
/// otherwise.
pub proof fn lemma_copy_before_interrupt(alt: bool)
    ensures
        key_action(
            KeyEvent {
                code: KeyCode::Char('c'),
                modifiers: KeyModifiers { control: true, shift: true, alt },
            },
        ) == AppAction::CopySelection,
        key_action(
            KeyEvent {
                code: KeyCode::Char('c'),
                modifiers: KeyModifiers { control: true, shift: false, alt },
            },
        ) == AppAction::CtrlC,
{
}

} // verus!
