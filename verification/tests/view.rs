use agent_term_cli::config::TerminalConfig;
use agent_term_cli::tab::{Tab, TabState};
use agent_term_cli::view::{status_padding, clip, screen_view, status_left, status_right, tab_title, terminal_notice};

fn tab() -> Tab {
    Tab::new(
        TerminalConfig {
            name: "srv".to_string(),
            url: "http://h".to_string(),
            token: String::new(),
            shell: Some("zsh".to_string()),
            cols: None,
            rows: Some(30),
        },
        100,
    )
}

#[test]
fn titles() {
    let mut t = tab();
    assert_eq!(tab_title(&t, true), "* [srv: zsh ⚠]");
    t.state = TabState::Active;
    assert_eq!(tab_title(&t, false), "  [srv: zsh]");
    t.state = TabState::Connecting;
    t.config.shell = None;
    assert_eq!(tab_title(&t, false), "  [srv: ? ...]");
    t.state = TabState::Reconnecting;
    t.scrollback.append_lines(vec!["a".to_string()]);
    t.scrollback.scroll_up(1);
    assert_eq!(tab_title(&t, false), "  [srv: ? ↻ ↑]");
}

#[test]
fn status_texts() {
    let mut t = tab();
    t.state = TabState::Active;
    assert_eq!(status_left(&t), " Tab srv | zsh | Connected ");
    t.history.push("ls".to_string());
    assert_eq!(status_right(&t), "120x30 | History: 1 ");
    t.scrollback.append_lines(vec!["a".to_string(), "b".to_string(), "c".to_string()]);
    t.scrollback.scroll_up(1);
    assert_eq!(status_right(&t), "120x30 | History: 1 📜 2/3 ");
    t.state = TabState::Starting;
    assert_eq!(status_left(&t), " Tab srv | zsh | Starting... ");
}

#[test]
fn screen_lines_and_cursor() {
    let mut t = tab();
    t.scrollback.append_lines(vec!["hello world".to_string(), "x".to_string()]);
    t.input_buffer = "pwd".to_string();
    t.cursor_x = 3;
    let v = screen_view(&t, 5, 4);
    assert_eq!(v.lines, vec!["hello".to_string(), "x".to_string()]);
    assert_eq!(v.input, Some("pwd".to_string()));
    assert_eq!(v.padding, 1);
    assert_eq!(v.cursor, Some((5, 3)));
    t.scrollback.scroll_up(1);
    let v = screen_view(&t, 80, 1);
    assert_eq!(v.lines, vec!["hello world".to_string()]);
    assert_eq!(v.input, None);
    assert_eq!(v.padding, 0);
    assert_eq!(v.cursor, None);
}

#[test]
fn clipping() {
    assert_eq!(clip("héllo", 2), "hé");
    assert_eq!(clip("ab", 5), "ab");
}

#[test]
fn notices_for_inactive_tabs() {
    let mut t = tab();
    assert_eq!(terminal_notice(&t, false), Some("Disconnected. Press F5 to reconnect.".to_string()));
    assert_eq!(terminal_notice(&t, true), Some("Connecting to server...".to_string()));
    t.state = TabState::Starting;
    assert_eq!(terminal_notice(&t, false), Some("Connecting to http://h...".to_string()));
    t.state = TabState::Reconnecting;
    assert_eq!(terminal_notice(&t, false), Some("Reconnecting...".to_string()));
    t.state = TabState::Active;
    assert_eq!(terminal_notice(&t, false), None);
}

#[test]
fn status_padding_fills_the_width() {
    assert_eq!(status_padding(20, &"ab".to_string(), &"é".to_string()), 16);
    assert_eq!(status_padding(4, &"ab".to_string(), &"cd".to_string()), 0);
}
