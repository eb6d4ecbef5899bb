//! Tests for the configuration record and the text-input history.

use apclient::config::Config;
use apclient::text_input_history::TextInputHistory;

#[test]
fn config_accessors() {
    let mut config = Config::new(
        "wss://multiworld.example:38281".to_string(),
        "bob".to_string(),
        "seed-1".to_string(),
        "3.0.0".to_string(),
        Some("hunter2".to_string()),
    );
    assert_eq!(config.url(), "wss://multiworld.example:38281");
    assert_eq!(config.slot(), "bob");
    assert_eq!(config.seed(), "seed-1");
    assert_eq!(config.client_version(), "3.0.0");
    assert_eq!(config.password().map(|p| p.as_str()), Some("hunter2"));
    config.set_url("wss://other.example".to_string());
    assert_eq!(config.url(), "wss://other.example");
    assert_eq!(config.slot(), "bob");
}

#[test]
fn history_remembers_newest_first() {
    let mut history = TextInputHistory::new();
    history.add("first".to_string());
    history.add("second".to_string());
    assert_eq!(history.history, vec!["second", "first"]);
    assert!(history.cursor.is_none());
}

#[test]
fn history_navigation() {
    let mut history = TextInputHistory::new();
    history.add("oldest".to_string());
    history.add("newest".to_string());
    // Browsing up walks toward older lines.
    assert_eq!(history.navigate(true).as_deref(), Some("newest"));
    assert_eq!(history.navigate(true).as_deref(), Some("oldest"));
    // Past the oldest line nothing changes.
    assert_eq!(history.navigate(true), None);
    assert_eq!(history.cursor, Some(1));
    // Browsing down walks back, then leaves browsing.
    assert_eq!(history.navigate(false).as_deref(), Some("newest"));
    assert_eq!(history.navigate(false), None);
    assert!(history.cursor.is_none());
}

#[test]
fn history_is_bounded() {
    let mut history = TextInputHistory::new();
    for k in 0..600 {
        history.add(format!("line {k}"));
    }
    assert_eq!(history.history.len(), 500);
    assert_eq!(history.history[0], "line 599");
    assert_eq!(history.history[499], "line 100");
}
