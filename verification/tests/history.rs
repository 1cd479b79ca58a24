use agent_term_cli::history::CommandHistory;

#[test]
fn test_push_and_autocomplete() {
    let mut h = CommandHistory::new(100);
    h.push("dir".to_string());
    h.push("dir /s".to_string());
    h.push("echo hello".to_string());

    assert_eq!(h.len(), 3);
    assert_eq!(h.autocomplete("di").len(), 2);
    assert_eq!(h.autocomplete_unique("ech"), Some("echo hello".to_string()));
}

#[test]
fn test_up_down() {
    let mut h = CommandHistory::new(100);
    h.push("first".to_string());
    h.push("second".to_string());
    h.push("third".to_string());

    assert_eq!(h.up(), Some("third"));
    assert_eq!(h.up(), Some("second"));
    assert_eq!(h.up(), Some("first"));
    assert_eq!(h.up(), None);

    assert_eq!(h.down(), Some("second".to_string()));
    assert_eq!(h.down(), Some("third".to_string()));
    assert_eq!(h.down(), Some(String::new()));
}

#[test]
fn test_autocomplete_unique_unicode() {
    let mut h = CommandHistory::new(100);
    h.push("café".to_string());
    h.push("caféine".to_string());

    assert_eq!(h.autocomplete_unique("café"), Some("café".to_string()));
}

#[test]
fn push_ignores_empty_and_repeated_commands() {
    let mut h = CommandHistory::new(10);
    h.push(String::new());
    assert!(h.is_empty());
    h.push("ls".to_string());
    h.push("ls".to_string());
    assert_eq!(h.all(), vec!["ls"]);
    h.push("pwd".to_string());
    h.push("ls".to_string());
    assert_eq!(h.all(), vec!["ls", "pwd", "ls"]);
}

#[test]
fn push_drops_oldest_beyond_bound() {
    let mut h = CommandHistory::new(2);
    h.push("a".to_string());
    h.push("b".to_string());
    h.push("c".to_string());
    assert_eq!(h.all(), vec!["b", "c"]);
    assert_eq!(h.len(), 2);
    assert_eq!(h.max_history(), 2);
}

#[test]
fn push_with_zero_bound_keeps_nothing() {
    let mut h = CommandHistory::new(0);
    h.push("a".to_string());
    assert_eq!(h.len(), 0);
}

#[test]
fn up_on_empty_history_is_none() {
    let mut h = CommandHistory::new(5);
    assert_eq!(h.up(), None);
    assert_eq!(h.down(), None);
}

#[test]
fn down_without_navigation_is_none() {
    let mut h = CommandHistory::new(5);
    h.push("a".to_string());
    assert_eq!(h.down(), None);
}

#[test]
fn up_then_down_returns_the_saved_draft() {
    let mut h = CommandHistory::new(5);
    h.push("make".to_string());
    h.save_current_input("mak");
    assert_eq!(h.up(), Some("make"));
    assert_eq!(h.down(), Some("mak".to_string()));
    assert_eq!(h.down(), None);
}

#[test]
fn reset_index_restarts_navigation_at_newest() {
    let mut h = CommandHistory::new(5);
    h.push("a".to_string());
    h.push("b".to_string());
    assert_eq!(h.up(), Some("b"));
    assert_eq!(h.up(), Some("a"));
    h.reset_index();
    assert_eq!(h.up(), Some("b"));
}

#[test]
fn autocomplete_lists_newest_first_and_ignores_empty_prefix() {
    let mut h = CommandHistory::new(10);
    h.push("git status".to_string());
    h.push("ls".to_string());
    h.push("git log".to_string());
    assert_eq!(h.autocomplete("git"), vec!["git log", "git status"]);
    assert!(h.autocomplete("").is_empty());
    assert!(h.autocomplete("x").is_empty());
}

#[test]
fn autocomplete_unique_gives_common_prefix() {
    let mut h = CommandHistory::new(10);
    h.push("cargo build".to_string());
    h.push("cargo bench".to_string());
    h.push("cargo test".to_string());
    assert_eq!(h.autocomplete_unique("cargo b"), Some("cargo b".to_string()));
    assert_eq!(h.autocomplete_unique("car"), Some("cargo ".to_string()));
    assert_eq!(h.autocomplete_unique("cargo t"), Some("cargo test".to_string()));
    assert_eq!(h.autocomplete_unique("npm"), None);
    assert_eq!(h.autocomplete_unique(""), None);
}

#[test]
fn from_parts_keeps_commands_in_order() {
    let h = CommandHistory::from_parts(vec!["x".to_string(), "y".to_string()], 7);
    assert_eq!(h.all(), vec!["x", "y"]);
    assert_eq!(h.max_history(), 7);
}

#[test]
fn reverse_search_keeps_the_query_as_draft() {
    let mut h = CommandHistory::new(10);
    h.push("make all".to_string());
    h.push("ls".to_string());
    assert_eq!(h.reverse_search("mak"), Some("make all"));
    assert_eq!(h.reverse_search("ignored"), None);
    assert_eq!(h.down(), Some("ls".to_string()));
    assert_eq!(h.down(), Some("mak".to_string()));
    assert_eq!(h.reverse_search("zzz"), None);
    assert_eq!(h.up(), Some("ls"));
}

#[test]
fn k_ups_and_downs_restore_the_draft() {
    let mut h = CommandHistory::new(10);
    for c in ["a", "b", "c"] {
        h.push(c.to_string());
    }
    h.save_current_input("draft");
    for _ in 0..3 {
        h.up();
    }
    for _ in 0..2 {
        h.down();
    }
    assert_eq!(h.down(), Some("draft".to_string()));
    assert_eq!(h.down(), None);
}
