use agent_term_cli::app::{App, Effect, PromptMode};
use agent_term_cli::config::{Config, GeneralConfig, TerminalConfig};
use agent_term_cli::input::AppAction;
use agent_term_cli::tab::TabState;

fn terminal(name: &str, url: &str) -> TerminalConfig {
    TerminalConfig {
        name: name.to_string(),
        url: url.to_string(),
        token: "tok".to_string(),
        shell: Some("bash".to_string()),
        cols: Some(80),
        rows: Some(24),
    }
}

fn app_with(names: &[&str]) -> App {
    let config = Config {
        general: GeneralConfig::defaults(false),
        terminals: names.iter().map(|n| terminal(n, "http://h")).collect(),
    };
    App::new(config, "cfg.toml".to_string())
}

#[test]
fn new_app_has_one_tab_per_terminal() {
    let app = app_with(&["a", "b"]);
    assert_eq!(app.tabs.len(), 2);
    assert_eq!(app.tabs[1].name, "b");
    assert_eq!(app.tabs[0].state, TabState::Disconnected);
    assert_eq!(app.tabs[0].scrollback.max_lines, 10_000);
    assert_eq!(app.active_tab, 0);
    assert!(app.running && app.show_status_bar && !app.show_help);
    assert_eq!(app.active_tab().map(|t| t.name.clone()), Some("a".to_string()));
}

#[test]
fn tab_switching_wraps_around() {
    let mut app = app_with(&["a", "b", "c"]);
    app.handle_action(AppAction::PrevTab);
    assert_eq!(app.active_tab, 2);
    app.handle_action(AppAction::NextTab);
    assert_eq!(app.active_tab, 0);
    app.handle_action(AppAction::SwitchTab(1));
    assert_eq!(app.active_tab, 1);
    app.handle_action(AppAction::SwitchTab(7));
    assert_eq!(app.active_tab, 1);
}

#[test]
fn help_screen_swallows_next_action() {
    let mut app = app_with(&["a"]);
    app.handle_action(AppAction::Help);
    assert!(app.show_help);
    assert_eq!(app.handle_action(AppAction::Quit), Effect::Nothing);
    assert!(!app.show_help);
    assert!(app.running);
    app.handle_action(AppAction::Quit);
    assert!(!app.running);
}

#[test]
fn typing_and_submitting_a_line() {
    let mut app = app_with(&["a"]);
    app.tabs[0].on_session_started("s1".to_string());
    app.handle_action(AppAction::InsertChar('l'));
    app.handle_action(AppAction::InsertChar('s'));
    assert_eq!(app.tabs[0].input_buffer, "ls");
    assert_eq!(app.tabs[0].cursor_x, 2);
    app.handle_action(AppAction::Backspace);
    assert_eq!(app.tabs[0].input_buffer, "l");
    assert_eq!(app.tabs[0].cursor_x, 1);
    app.handle_action(AppAction::InsertString("s -la".to_string()));
    let e = app.handle_action(AppAction::SubmitLine);
    assert_eq!(
        e,
        Effect::SendInput { tab: 0, session_id: "s1".to_string(), text: "ls -la\r".to_string() }
    );
    assert_eq!(app.tabs[0].input_buffer, "");
    assert_eq!(app.tabs[0].cursor_x, 0);
    assert_eq!(app.tabs[0].history.all(), vec!["ls -la"]);
}

#[test]
fn submitting_while_disconnected_does_nothing() {
    let mut app = app_with(&["a"]);
    app.handle_action(AppAction::InsertChar('x'));
    assert_eq!(app.handle_action(AppAction::SubmitLine), Effect::Nothing);
    assert_eq!(app.tabs[0].input_buffer, "x");
    assert!(app.tabs[0].history.is_empty());
}

#[test]
fn history_navigation_and_completion() {
    let mut app = app_with(&["a"]);
    app.tabs[0].history.push("echo héllo".to_string());
    app.tabs[0].history.push("ls".to_string());
    app.handle_action(AppAction::InsertChar('e'));
    app.handle_action(AppAction::HistoryUp);
    assert_eq!(app.tabs[0].input_buffer, "ls");
    app.handle_action(AppAction::HistoryUp);
    assert_eq!(app.tabs[0].input_buffer, "echo héllo");
    assert_eq!(app.tabs[0].cursor_x, 11);
    app.handle_action(AppAction::HistoryDown);
    assert_eq!(app.tabs[0].input_buffer, "ls");
    app.handle_action(AppAction::HistoryDown);
    assert_eq!(app.tabs[0].input_buffer, "ls");
    app.tabs[0].input_buffer = "ec".to_string();
    app.handle_action(AppAction::AutoComplete);
    assert_eq!(app.tabs[0].input_buffer, "echo héllo");
    assert_eq!(app.tabs[0].cursor_x, 11);
}

#[test]
fn control_keys_are_sent_to_active_sessions() {
    let mut app = app_with(&["a"]);
    assert_eq!(app.handle_action(AppAction::CtrlC), Effect::Nothing);
    app.tabs[0].on_session_started("s".to_string());
    assert_eq!(
        app.handle_action(AppAction::CtrlC),
        Effect::SendInput { tab: 0, session_id: "s".to_string(), text: "\x03".to_string() }
    );
    assert_eq!(
        app.handle_action(AppAction::CtrlZ),
        Effect::SendInput { tab: 0, session_id: "s".to_string(), text: "\x1a".to_string() }
    );
}

#[test]
fn paste_is_cleaned() {
    let mut app = app_with(&["a"]);
    assert_eq!(app.handle_action(AppAction::PasteClipboard), Effect::ReadClipboard);
    assert_eq!(app.paste_clipboard("x"), Effect::Nothing);
    app.tabs[0].on_session_started("s".to_string());
    assert_eq!(
        app.paste_clipboard("a\r\nb"),
        Effect::SendInput { tab: 0, session_id: "s".to_string(), text: "a\r\rb".to_string() }
    );
}

#[test]
fn reconnect_only_disconnected_tabs_with_url() {
    let mut app = app_with(&["a"]);
    assert_eq!(app.handle_action(AppAction::Reconnect), Effect::Reconnect { tab: 0 });
    app.tabs[0].on_session_started("s".to_string());
    assert_eq!(app.handle_action(AppAction::Reconnect), Effect::Nothing);
    let mut empty = app_with(&[]);
    assert_eq!(empty.handle_action(AppAction::Reconnect), Effect::Nothing);
}

#[test]
fn scrolling_actions_reach_the_active_tab() {
    let mut app = app_with(&["a"]);
    app.tabs[0].scrollback.append_lines(vec!["1".to_string(), "2".to_string()]);
    app.handle_action(AppAction::ScrollUp(1));
    assert_eq!(app.tabs[0].scrollback.cursor, 1);
    app.handle_action(AppAction::ToggleScrollback);
    assert_eq!(app.tabs[0].scrollback.cursor, 0);
    app.handle_action(AppAction::ToggleScrollback);
    assert_eq!(app.tabs[0].scrollback.cursor, 2);
    app.handle_action(AppAction::ScrollDown(5));
    assert_eq!(app.tabs[0].scrollback.cursor, 0);
    app.handle_action(AppAction::ScrollToTop);
    assert_eq!(app.tabs[0].scrollback.cursor, 2);
    app.handle_action(AppAction::ScrollToBottom);
    assert_eq!(app.tabs[0].scrollback.cursor, 0);
}

#[test]
fn prompt_opens_a_new_tab() {
    let mut app = app_with(&["Tab 1"]);
    app.handle_action(AppAction::NewTab);
    assert_eq!(app.prompt_mode, Some(PromptMode::Url));
    assert_eq!(app.prompt_shell, "bash");
    assert_eq!(app.handle_action(AppAction::SubmitLine), Effect::Nothing);
    assert_eq!(app.prompt_mode, Some(PromptMode::Url));
    for c in " http://h:9/ ".chars() {
        app.handle_action(AppAction::InsertChar(c));
    }
    app.handle_action(AppAction::Backspace);
    assert_eq!(app.prompt_cursor, 12);
    app.handle_action(AppAction::SubmitLine);
    assert_eq!(app.prompt_mode, Some(PromptMode::Token));
    assert_eq!(app.prompt_cursor, 0);
    app.handle_action(AppAction::InsertChar('k'));
    app.handle_action(AppAction::SubmitLine);
    assert_eq!(app.prompt_mode, Some(PromptMode::Shell));
    assert_eq!(app.prompt_cursor, 4);
    app.handle_action(AppAction::Backspace);
    app.handle_action(AppAction::Backspace);
    app.handle_action(AppAction::Backspace);
    app.handle_action(AppAction::Backspace);
    let e = app.handle_action(AppAction::SubmitLine);
    assert_eq!(e, Effect::OpenTab { tab: 1 });
    assert_eq!(app.prompt_mode, None);
    assert_eq!(app.active_tab, 1);
    let t = &app.tabs[1];
    assert_eq!(t.name, "Tab 2");
    assert_eq!(t.config.url, "http://h:9/");
    assert_eq!(t.config.token, "k");
    assert_eq!(t.config.shell, None);
    assert_eq!((t.config.cols, t.config.rows), (Some(120), Some(40)));
}

#[test]
fn prompt_quit_and_help() {
    let mut app = app_with(&[]);
    app.handle_action(AppAction::NewTab);
    app.handle_action(AppAction::Help);
    assert_eq!(app.prompt_mode, None);
    assert!(!app.show_help);
    app.handle_action(AppAction::NewTab);
    app.handle_action(AppAction::Quit);
    assert_eq!(app.prompt_mode, None);
    assert!(!app.running);
}

#[test]
fn next_tab_name_skips_used_numbers() {
    let app = app_with(&["Tab 2", "x", "Tab 1", "Tab 4"]);
    assert_eq!(app.find_next_tab_name(), "Tab 3");
    let app = app_with(&[]);
    assert_eq!(app.find_next_tab_name(), "Tab 1");
}

#[test]
fn closing_tabs() {
    let mut app = app_with(&["a", "b"]);
    app.handle_action(AppAction::SwitchTab(1));
    assert_eq!(app.handle_action(AppAction::CloseTab), Effect::CloseTab { tab: 1 });
    assert_eq!(app.active_tab, 0);
    assert!(app.running);
    assert_eq!(app.handle_action(AppAction::CloseTab), Effect::CloseTab { tab: 0 });
    assert!(app.tabs.is_empty());
    assert!(!app.running);
    assert_eq!(app.handle_action(AppAction::CloseTab), Effect::Nothing);
}

#[test]
fn toggle_status_bar() {
    let mut app = app_with(&["a"]);
    app.handle_action(AppAction::ToggleStatusBar);
    assert!(!app.show_status_bar);
    app.handle_action(AppAction::ToggleStatusBar);
    assert!(app.show_status_bar);
}

#[test]
fn active_tab_mut_reaches_the_active_tab() {
    let mut app = app_with(&["a", "b"]);
    app.handle_action(AppAction::SwitchTab(1));
    if let Some(t) = app.active_tab_mut() {
        t.input_buffer = "z".to_string();
    }
    assert_eq!(app.tabs[1].input_buffer, "z");
    assert_eq!(app.tabs[0].input_buffer, "");
    let mut empty = app_with(&[]);
    assert!(empty.active_tab_mut().is_none());
}

#[test]
fn copy_writes_the_screen_to_the_clipboard() {
    let mut app = app_with(&["a"]);
    app.tabs[0].on_session_started("s".to_string());
    app.tabs[0].update_screen(agent_term_cli::client::ScreenOutput {
        output: "$ ls\nfile\n".to_string(),
        mode: "screen".to_string(),
        metadata: None,
    });
    assert_eq!(
        app.handle_action(AppAction::CopySelection),
        Effect::WriteClipboard { text: "$ ls\nfile".to_string() }
    );
    let mut empty = app_with(&[]);
    assert_eq!(empty.handle_action(AppAction::CopySelection), Effect::Nothing);
}

#[test]
fn reverse_search_finds_older_matches() {
    let mut app = app_with(&["a"]);
    for c in ["cargo build", "ls", "cargo test", "pwd"] {
        app.tabs[0].history.push(c.to_string());
    }
    app.tabs[0].input_buffer = "cargo".to_string();
    app.handle_action(AppAction::ReverseSearch);
    assert_eq!(app.tabs[0].input_buffer, "cargo test");
    assert_eq!(app.tabs[0].cursor_x, 10);
    app.handle_action(AppAction::ReverseSearch);
    assert_eq!(app.tabs[0].input_buffer, "cargo build");
    app.handle_action(AppAction::ReverseSearch);
    assert_eq!(app.tabs[0].input_buffer, "cargo build");
    app.handle_action(AppAction::HistoryDown);
    assert_eq!(app.tabs[0].input_buffer, "ls");
}
