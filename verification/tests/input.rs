use agent_term_cli::input::{handle_key, AppAction, KeyCode, KeyEvent, KeyModifiers};

fn key(code: KeyCode, control: bool, shift: bool, alt: bool) -> KeyEvent {
    KeyEvent { code, modifiers: KeyModifiers { control, shift, alt } }
}

#[test]
fn control_bindings() {
    assert_eq!(handle_key(key(KeyCode::Char('q'), true, false, false)), AppAction::Quit);
    assert_eq!(handle_key(key(KeyCode::Char('t'), true, false, false)), AppAction::NewTab);
    assert_eq!(handle_key(key(KeyCode::Char('w'), true, false, false)), AppAction::CloseTab);
    assert_eq!(handle_key(key(KeyCode::Char('1'), true, false, false)), AppAction::SwitchTab(0));
    assert_eq!(handle_key(key(KeyCode::Char('9'), true, false, false)), AppAction::SwitchTab(8));
    assert_eq!(handle_key(key(KeyCode::Char('z'), true, false, false)), AppAction::CtrlZ);
    assert_eq!(handle_key(key(KeyCode::Char('v'), true, false, false)), AppAction::PasteClipboard);
    assert_eq!(handle_key(key(KeyCode::Char('r'), true, false, false)), AppAction::ReverseSearch);
    assert_eq!(handle_key(key(KeyCode::Char('x'), true, false, false)), AppAction::NoAction);
    assert_eq!(handle_key(key(KeyCode::Char('x'), false, false, true)), AppAction::NoAction);
}

#[test]
fn copy_is_checked_before_interrupt() {
    assert_eq!(handle_key(key(KeyCode::Char('c'), true, true, false)), AppAction::CopySelection);
    assert_eq!(handle_key(key(KeyCode::Char('c'), true, false, false)), AppAction::CtrlC);
}

#[test]
fn plain_characters_are_inserted() {
    assert_eq!(handle_key(key(KeyCode::Char('a'), false, false, false)), AppAction::InsertChar('a'));
    assert_eq!(handle_key(key(KeyCode::Char('Q'), false, true, false)), AppAction::InsertChar('Q'));
    assert_eq!(handle_key(key(KeyCode::Char('1'), false, false, false)), AppAction::InsertChar('1'));
}

#[test]
fn navigation_bindings() {
    assert_eq!(handle_key(key(KeyCode::Tab, true, false, false)), AppAction::NextTab);
    assert_eq!(handle_key(key(KeyCode::Tab, true, true, false)), AppAction::PrevTab);
    assert_eq!(handle_key(key(KeyCode::Tab, false, false, false)), AppAction::AutoComplete);
    assert_eq!(handle_key(key(KeyCode::Up, false, true, false)), AppAction::ScrollUp(1));
    assert_eq!(handle_key(key(KeyCode::Up, true, false, false)), AppAction::ScrollUp(5));
    assert_eq!(handle_key(key(KeyCode::Up, true, true, false)), AppAction::ScrollUp(1));
    assert_eq!(handle_key(key(KeyCode::Up, false, false, false)), AppAction::HistoryUp);
    assert_eq!(handle_key(key(KeyCode::Down, false, true, false)), AppAction::ScrollDown(1));
    assert_eq!(handle_key(key(KeyCode::Down, true, false, false)), AppAction::ScrollDown(5));
    assert_eq!(handle_key(key(KeyCode::Down, false, false, false)), AppAction::HistoryDown);
    assert_eq!(handle_key(key(KeyCode::PageUp, false, false, false)), AppAction::ScrollUp(20));
    assert_eq!(handle_key(key(KeyCode::PageDown, false, false, false)), AppAction::ScrollDown(20));
    assert_eq!(handle_key(key(KeyCode::Home, false, true, false)), AppAction::ScrollToTop);
    assert_eq!(handle_key(key(KeyCode::Home, false, false, false)), AppAction::NoAction);
    assert_eq!(handle_key(key(KeyCode::End, false, true, false)), AppAction::ScrollToBottom);
    assert_eq!(handle_key(key(KeyCode::Insert, false, true, false)), AppAction::PasteClipboard);
    assert_eq!(handle_key(key(KeyCode::Insert, false, false, false)), AppAction::NoAction);
}

#[test]
fn other_keys() {
    assert_eq!(handle_key(key(KeyCode::Esc, false, false, false)), AppAction::Cancel);
    assert_eq!(handle_key(key(KeyCode::Enter, false, false, false)), AppAction::SubmitLine);
    assert_eq!(handle_key(key(KeyCode::Backspace, false, false, false)), AppAction::Backspace);
    assert_eq!(handle_key(key(KeyCode::F(5), false, false, false)), AppAction::Reconnect);
    assert_eq!(handle_key(key(KeyCode::F(9), false, false, false)), AppAction::ToggleStatusBar);
    assert_eq!(handle_key(key(KeyCode::F(1), false, false, false)), AppAction::Help);
    assert_eq!(handle_key(key(KeyCode::F(2), false, false, false)), AppAction::NoAction);
    assert_eq!(handle_key(key(KeyCode::Other, true, true, true)), AppAction::NoAction);
}
