use raven::runtime::{AgentSlot, IdTable, Runtime, Session};
use raven::tui::{parse_control_input, ControlInput, RunnerCommand};
use raven::web::{fetch_outcome, fetch_url_error, search_outcome, search_url, unconfigured_search_output};

#[test]
fn fetch_requires_http_scheme() {
    assert_eq!(fetch_url_error("https://example.com"), None);
    assert_eq!(fetch_url_error("http://example.com"), None);
    assert_eq!(
        fetch_url_error("ftp://example.com"),
        Some("URL must start with http:// or https://".to_string())
    );
}

#[test]
fn fetch_outcome_cuts_long_bodies() {
    let ok = fetch_outcome(true, "200 OK", "hello");
    assert!(ok.success);
    assert_eq!(ok.output, "hello");
    assert_eq!(ok.error, None);
    let long = "a".repeat(100_005);
    let cut = fetch_outcome(false, "404 Not Found", &long);
    assert!(!cut.success);
    assert_eq!(cut.error.as_deref(), Some("HTTP 404 Not Found"));
    assert!(cut.output.ends_with(" (truncated from 100005 bytes to 100000)"));
    assert_eq!(cut.output.len(), 100_000 + " (truncated from 100005 bytes to 100000)".len());
    let s = search_outcome(true, "200 OK", &long);
    assert!(s.output.ends_with(" (truncated)"));
}

#[test]
fn search_url_fills_every_placeholder() {
    assert_eq!(
        search_url("https://s.example/?q={query}&again={query}", "rust lang"),
        "https://s.example/?q=rust%20lang&again=rust%20lang"
    );
    assert_eq!(search_url("https://s.example/", "x"), "https://s.example/");
    assert!(unconfigured_search_output("cats").ends_with("Query was: cats"));
}

#[test]
fn sessions_keep_messages_and_metadata() {
    let mut s: Session<String> = Session::with_label(1, "test-session", 10);
    assert_eq!(s.label.as_deref(), Some("test-session"));
    s.add_message("A".to_string(), 11);
    s.add_message("B".to_string(), 12);
    s.add_message("C".to_string(), 13);
    assert_eq!(s.message_count(), 3);
    assert!(s.updated_at >= s.created_at);
    assert_eq!(s.messages_since(1), &["B".to_string(), "C".to_string()]);
    assert!(s.messages_since(10).is_empty());
    s.set_metadata("key1", "value1");
    s.set_metadata("key1", "value2");
    assert_eq!(s.get_metadata("key1"), Some("value2"));
    assert_eq!(s.get_metadata("nonexistent"), None);
    s.clear_messages(14);
    assert_eq!(s.message_count(), 0);
}

#[test]
fn runtime_tables() {
    let mut rt: Runtime<Session<String>, u8> = Runtime::new();
    assert_eq!(rt.default_max_iterations, 100);
    rt.sessions.insert(1, Session::new(1, 0));
    rt.agents.insert(7, AgentSlot { name: "coder".to_string(), agent: 0 });
    rt.agents.insert(8, AgentSlot { name: "coder".to_string(), agent: 1 });
    rt.agents.insert(9, AgentSlot { name: "other".to_string(), agent: 2 });
    assert_eq!(rt.find_agents_by_name("coder"), vec![7, 8]);
    let s = rt.summary();
    assert_eq!((s.sessions, s.agents, s.sub_agents), (1, 3, 0));
    assert!(rt.agents.remove(8).is_some());
    assert!(rt.agents.get(8).is_none());
    assert_eq!(rt.agents.get(9).unwrap().agent, 2);
    let rt = rt.with_default_max_iterations(5);
    assert_eq!(rt.default_max_iterations, 5);

    let mut t: IdTable<&str> = IdTable::new();
    t.insert(1, "a");
    t.insert(1, "b");
    assert_eq!(t.len(), 1);
    assert_eq!(t.get(1), Some(&"b"));
    assert_eq!(t.ids(), vec![1]);
    assert_eq!(t.list(), vec![&"b"]);
}

#[test]
fn control_commands() {
    assert_eq!(parse_control_input("hello there"), ControlInput::NotCommand);
    assert_eq!(parse_control_input("  /pause "), ControlInput::Send(RunnerCommand::Pause));
    assert_eq!(parse_control_input("/RESUME"), ControlInput::Send(RunnerCommand::Resume));
    assert_eq!(parse_control_input("/cancel"), ControlInput::AskCancel);
    assert_eq!(parse_control_input("/help"), ControlInput::Help);
    assert_eq!(parse_control_input("/nope"), ControlInput::Unknown);
    assert_eq!(
        parse_control_input("/redirect focus tests"),
        ControlInput::Send(RunnerCommand::Redirect("focus tests".to_string()))
    );
    assert_eq!(
        parse_control_input("/redirect"),
        ControlInput::Usage("Usage: /redirect <new instruction>".to_string())
    );
    assert_eq!(
        parse_control_input("/prio abc123 2"),
        ControlInput::Send(RunnerCommand::Reprioritise {
            agent_id_prefix: "abc123".to_string(),
            priority: 2
        })
    );
    assert_eq!(
        parse_control_input("/priority abc123 x"),
        ControlInput::Usage("Priority must be a number.".to_string())
    );
    assert_eq!(
        parse_control_input("/prio abc123"),
        ControlInput::Usage("Usage: /prio <agent-id-prefix> <priority>".to_string())
    );
}
