use agent_term_cli::client::{ScreenMetadata, ScreenOutput};
use agent_term_cli::config::TerminalConfig;
use agent_term_cli::tab::{ConnectError, Scrollback, Tab, TabState};

fn lines(v: &[&str]) -> Vec<String> {
    v.iter().map(|s| s.to_string()).collect()
}

fn config(url: &str) -> TerminalConfig {
    TerminalConfig {
        name: "srv".to_string(),
        url: url.to_string(),
        token: "t".to_string(),
        shell: None,
        cols: None,
        rows: None,
    }
}

fn screen(text: &str) -> ScreenOutput {
    ScreenOutput { output: text.to_string(), mode: "screen".to_string(), metadata: None }
}

fn contents(s: &Scrollback) -> Vec<String> {
    s.lines.iter().cloned().collect()
}

#[test]
fn append_lines_keeps_only_newest() {
    let mut s = Scrollback::new(3);
    s.append_lines(lines(&["a", "b"]));
    s.append_lines(lines(&["c", "d"]));
    assert_eq!(contents(&s), lines(&["b", "c", "d"]));
    assert_eq!(s.scroll_position(), (0, 3));
}

#[test]
fn scroll_up_is_clamped_and_scroll_down_saturates() {
    let mut s = Scrollback::new(10);
    s.append_lines(lines(&["1", "2", "3", "4"]));
    s.scroll_up(3);
    assert_eq!(s.cursor, 3);
    s.scroll_up(10);
    assert_eq!(s.cursor, 4);
    s.scroll_up(usize::MAX);
    assert_eq!(s.cursor, 4);
    s.scroll_down(1);
    assert_eq!(s.cursor, 3);
    s.scroll_down(100);
    assert_eq!(s.cursor, 0);
    assert!(s.is_at_bottom());
    s.scroll_to_top();
    assert_eq!(s.cursor, 4);
    assert!(!s.is_at_bottom());
    s.scroll_to_bottom();
    assert!(s.is_at_bottom());
}

#[test]
fn scroll_up_then_down_returns() {
    let mut s = Scrollback::new(10);
    s.append_lines(lines(&["1", "2", "3", "4", "5"]));
    s.scroll_up(2);
    s.scroll_down(2);
    assert_eq!(s.cursor, 0);
}

#[test]
fn visible_lines_windows() {
    let mut s = Scrollback::new(10);
    s.append_lines(lines(&["1", "2", "3", "4", "5"]));
    assert_eq!(s.visible_lines(2), vec!["4", "5"]);
    assert_eq!(s.visible_lines(10), vec!["1", "2", "3", "4", "5"]);
    s.scroll_up(1);
    assert_eq!(s.visible_lines(2), vec!["3", "4"]);
    s.scroll_up(3);
    assert_eq!(s.visible_lines(2), vec!["1"]);
    s.scroll_to_top();
    assert!(s.visible_lines(2).is_empty());
}

#[test]
fn first_screen_goes_into_scrollback() {
    let mut t = Tab::new(config("http://h"), 100);
    let meta = ScreenMetadata { rows: 2, cols: 80, cursor_x: 7, cursor_y: 1, is_alternate_buffer: false };
    t.update_screen(ScreenOutput {
        output: "$ ls\r\nfile\n".to_string(),
        mode: "screen".to_string(),
        metadata: Some(meta),
    });
    assert_eq!(contents(&t.scrollback), lines(&["$ ls", "file"]));
    assert_eq!(t.screen_buffer, lines(&["$ ls", "file"]));
    assert_eq!(t.cursor_x, 7);
    assert_eq!(t.last_screen, Some("$ ls\r\nfile\n".to_string()));
}

#[test]
fn unchanged_screen_adds_nothing() {
    let mut t = Tab::new(config("http://h"), 100);
    t.update_screen(screen("a\nb"));
    t.update_screen(screen("a\nb"));
    assert_eq!(contents(&t.scrollback), lines(&["a", "b"]));
}

#[test]
fn growing_screen_appends_new_lines_only() {
    let mut t = Tab::new(config("http://h"), 100);
    t.update_screen(screen("a\nb"));
    t.update_screen(screen("a\nb\nc\nd"));
    assert_eq!(contents(&t.scrollback), lines(&["a", "b", "c", "d"]));
}

#[test]
fn redrawn_screen_replaces_the_tail() {
    let mut t = Tab::new(config("http://h"), 100);
    t.scrollback.append_lines(lines(&["old"]));
    t.update_screen(screen("a\nb"));
    t.update_screen(screen("x\ny"));
    assert_eq!(contents(&t.scrollback), lines(&["old", "x", "y"]));
}

#[test]
fn cursor_column_comes_from_first_screen_only() {
    let mut t = Tab::new(config("http://h"), 100);
    let meta = |x| Some(ScreenMetadata { rows: 1, cols: 1, cursor_x: x, cursor_y: 0, is_alternate_buffer: false });
    t.update_screen(ScreenOutput { output: "a".to_string(), mode: "screen".to_string(), metadata: meta(3) });
    t.update_screen(ScreenOutput { output: "ab".to_string(), mode: "screen".to_string(), metadata: meta(9) });
    assert_eq!(t.cursor_x, 3);
    assert_eq!(t.screen_metadata.map(|m| m.cursor_x), Some(9));
}

#[test]
fn connecting_without_url_fails() {
    let mut t = Tab::new(config(""), 10);
    assert_eq!(t.begin_connect(), Err(ConnectError::NoUrl));
    assert_eq!(t.state, TabState::Disconnected);
    assert_eq!(ConnectError::NoUrl.message(), "No URL configured");
}

#[test]
fn connecting_steps() {
    let mut t = Tab::new(config("http://h"), 10);
    assert_eq!(t.begin_connect(), Ok(()));
    assert_eq!(t.state, TabState::Connecting);
    assert_eq!(t.on_health_checked(false), Err(ConnectError::Unreachable));
    assert_eq!(t.state, TabState::Disconnected);
    assert_eq!(ConnectError::Unreachable.message(), "Server unreachable");
    assert_eq!(t.begin_connect(), Ok(()));
    assert_eq!(t.on_health_checked(true), Ok(()));
    assert_eq!(t.state, TabState::Starting);
    assert_eq!(t.session_params(), ("bash".to_string(), 120, 40));
    t.on_session_started("s1".to_string());
    assert_eq!(t.state, TabState::Active);
    assert_eq!(t.poll_session(), Some("s1".to_string()));
}

#[test]
fn session_params_use_configured_values() {
    let mut c = config("http://h");
    c.shell = Some("zsh".to_string());
    c.cols = Some(80);
    c.rows = Some(24);
    let t = Tab::new(c, 10);
    assert_eq!(t.session_params(), ("zsh".to_string(), 80, 24));
    assert_eq!((t.cols(), t.rows()), (80, 24));
}

#[test]
fn lost_session_disconnects() {
    let mut t = Tab::new(config("http://h"), 10);
    t.on_session_started("s1".to_string());
    t.on_poll_error("timeout");
    assert_eq!(t.state, TabState::Active);
    t.on_poll_error("MCP error -32000: Session not found: s1");
    assert_eq!(t.state, TabState::Disconnected);
    assert_eq!(t.session_id, None);
    assert_eq!(t.poll_session(), None);
}

#[test]
fn broken_pipe_disconnects() {
    let mut t = Tab::new(config("http://h"), 10);
    t.on_session_started("s1".to_string());
    t.on_poll_error("write failed: broken pipe");
    assert_eq!(t.state, TabState::Disconnected);
}

#[test]
fn end_session_clears_screen_and_returns_session() {
    let mut t = Tab::new(config("http://h"), 10);
    t.on_session_started("s9".to_string());
    t.update_screen(screen("x"));
    t.input_buffer = "abc".to_string();
    t.cursor_x = 3;
    assert_eq!(t.end_session(), Some("s9".to_string()));
    assert_eq!(t.state, TabState::Disconnected);
    assert!(t.screen_buffer.is_empty());
    assert_eq!(t.last_screen, None);
    assert_eq!(t.input_buffer, "");
    assert_eq!(t.cursor_x, 0);
    assert_eq!(contents(&t.scrollback), lines(&["x"]));
    assert_eq!(t.disconnect(), None);
}

#[test]
fn resize_records_size() {
    let mut t = Tab::new(config("http://h"), 10);
    t.resize(100, 30);
    assert_eq!((t.cols(), t.rows()), (100, 30));
}
