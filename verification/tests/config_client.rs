use agent_term_cli::client::{
    cursor_of, cursor_reply, health_url, normalize_url, rpc_result, tool_reply_text, ClientError,
    McpEndpoint, RpcError,
};
use agent_term_cli::config::{
    default_cols, default_poll_ms, default_rows, default_scrollback, default_shell, Config,
    GeneralConfig,
};

#[test]
fn defaults() {
    assert_eq!(default_shell(false), "bash");
    assert_eq!(default_shell(true), "cmd");
    assert_eq!(default_cols(), 120);
    assert_eq!(default_rows(), 40);
    assert_eq!(default_poll_ms(), 100);
    assert_eq!(default_scrollback(), 10_000);
    let g = GeneralConfig::defaults(false);
    assert_eq!(g.default_shell, "bash");
    assert_eq!((g.default_cols, g.default_rows, g.poll_interval_ms, g.scrollback_lines), (120, 40, 100, 10_000));
    let c = Config::defaults(true);
    assert_eq!(c.general.default_shell, "cmd");
    assert!(c.terminals.is_empty());
}

#[test]
fn history_file_names_are_sanitized() {
    assert_eq!(Config::history_file_name("Tab 1"), "Tab_1.json");
    assert_eq!(Config::history_file_name("my-srv_2"), "my-srv_2.json");
    assert_eq!(Config::history_file_name("a/b:c"), "a_b_c.json");
    assert_eq!(Config::history_file_name("café"), "café.json");
    assert_eq!(Config::history_file_name(""), ".json");
    assert_eq!(Config::history_file_name("../a b"), "___a_b.json");
    assert_eq!(Config::history_file_name("my-server"), "my-server.json");
    assert_eq!(Config::history_file_name("C:\\x"), "C__x.json");
}

#[test]
fn config_locations_per_platform() {
    let s = |x: &str| Some(x.to_string());
    assert_eq!(
        Config::default_path(true, false, s("C:\\Users\\u\\AppData\\Roaming"), None, None),
        "C:\\Users\\u\\AppData\\Roaming\\agent-term-cli\\config.toml"
    );
    assert_eq!(Config::config_dir(true, false, None, None, None), ".\\agent-term-cli");
    assert_eq!(Config::config_dir(true, false, s("D:"), None, None), "D:agent-term-cli");
    assert_eq!(
        Config::default_path(false, true, None, s("/Users/u"), None),
        "/Users/u/Library/Application Support/agent-term-cli/config.toml"
    );
    assert_eq!(
        Config::default_path(false, false, None, s("/home/u"), None),
        "/home/u/.config/agent-term-cli/config.toml"
    );
    assert_eq!(
        Config::default_path(false, false, None, s("/home/u"), s("/xdg/")),
        "/xdg/agent-term-cli/config.toml"
    );
    assert_eq!(Config::config_dir(false, false, None, None, None), "./.config/agent-term-cli");
    assert_eq!(
        Config::history_path("Tab 1", false, false, None, s("/home/u"), None),
        "/home/u/.config/agent-term-cli/history/Tab_1.json"
    );
    assert_eq!(
        Config::history_path("x", true, false, s("C:\\A"), None, None),
        "C:\\A\\agent-term-cli\\history\\x.json"
    );
}

#[test]
fn urls_are_normalized_to_the_mcp_endpoint() {
    assert_eq!(normalize_url("http://localhost:8080"), "http://localhost:8080/mcp");
    assert_eq!(normalize_url("http://localhost:8080/"), "http://localhost:8080/mcp");
    assert_eq!(normalize_url("http://localhost:8080/mcp"), "http://localhost:8080/mcp");
    assert_eq!(normalize_url("http://localhost:8080/mcp//"), "http://localhost:8080/mcp");
    assert_eq!(normalize_url(""), "/mcp");
    let once = normalize_url("http://x/api/");
    assert_eq!(normalize_url(&once), once);
}

#[test]
fn health_url_replaces_the_mcp_path() {
    assert_eq!(health_url("http://h:1/mcp"), "http://h:1/health");
    assert_eq!(health_url("http://h:1/mcp/mcp"), "http://h:1/health");
    assert_eq!(health_url("http://h:1/"), "http://h:1/health");
    let e = McpEndpoint::new("http://h:1", "tok");
    assert_eq!(e.url, "http://h:1/mcp");
    assert_eq!(e.health_url(), "http://h:1/health");
    assert_eq!(e.authorization(), "Bearer tok");
}

#[test]
fn request_ids_count_up_from_one() {
    let mut e = McpEndpoint::new("http://h", "");
    assert_eq!(e.next_id(), 1);
    assert_eq!(e.next_id(), 2);
    assert_eq!(e.next_request_id, 3);
}

#[test]
fn replies_are_read_as_error_result_or_missing() {
    let err = RpcError { code: -32601, message: "Method not found".to_string() };
    let r: Result<u8, ClientError> = rpc_result(Some(err), Some(1));
    assert_eq!(r, Err(ClientError::Rpc { code: -32601, message: "Method not found".to_string() }));
    assert_eq!(r.unwrap_err().message(), "MCP error -32601: Method not found");
    let ok: Result<u8, ClientError> = rpc_result(None, Some(5));
    assert_eq!(ok, Ok(5));
    let missing: Result<u8, ClientError> = rpc_result(None, None);
    assert_eq!(missing, Err(ClientError::MissingResult));
    assert_eq!(ClientError::MissingResult.message(), "MCP response missing 'result'");
    assert_eq!(ClientError::InvalidResponse("read_screen".to_string()).message(), "Invalid read_screen response");
    assert_eq!(ClientError::Transport("refused".to_string()).message(), "refused");
    assert_eq!(ClientError::Rpc { code: 7, message: "m".to_string() }.message(), "MCP error 7: m");
    assert_eq!(ClientError::Rpc { code: i64::MIN, message: "m".to_string() }.message(), "MCP error -9223372036854775808: m");
}

#[test]
fn tool_reply_text_needs_text() {
    assert_eq!(tool_reply_text(Some("{}".to_string()), "read_screen"), Ok("{}".to_string()));
    let e = tool_reply_text(None, "get_cursor");
    assert_eq!(e, Err(ClientError::InvalidResponse("get_cursor".to_string())));
    assert_eq!(e.unwrap_err().message(), "Invalid get_cursor response");
}

#[test]
fn cursor_from_reply() {
    assert_eq!(
        cursor_reply(r#"{"cursor":{"x":3,"y":4},"currentLine":"$ "}"#),
        Ok((3, 4, "$ ".to_string()))
    );
    assert_eq!(cursor_reply("{}"), Ok((0, 0, String::new())));
    assert_eq!(cursor_reply(r#"{"cursor":{"x":"3","y":-1},"currentLine":7}"#), Ok((0, 0, String::new())));
    assert_eq!(cursor_reply(r#"{"cursor":{"y":9}}"#), Ok((0, 9, String::new())));
    match cursor_reply("not json") {
        Err(ClientError::Decode(m)) => assert!(!m.is_empty()),
        other => panic!("unexpected {:?}", other),
    }
}

#[test]
fn cursor_defaults() {
    assert_eq!(cursor_of(Some(12), Some(5), Some("ls".to_string())), (12, 5, "ls".to_string()));
    assert_eq!(cursor_of(None, None, None), (0, 0, String::new()));
    assert_eq!(cursor_of(None, Some(1), None), (0, 1, String::new()));
}
