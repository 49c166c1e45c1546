use raven::runtime::{task_result_note, Agent, Runtime, Session};

type Rt = Runtime<Session<String>, u8>;


#[test]
fn test_session_creation() {
    let session: Session<String> = Session::new(7, 100);
    assert!(session.messages.is_empty());
    assert_eq!(session.message_count(), 0);
    assert_ne!(session.id.to_string(), "");
    assert_eq!(session.created_at, 100);
    assert_eq!(session.updated_at, 100);
}

#[test]
fn test_session_with_label() {
    let session: Session<String> = Session::with_label(1, "test-session", 0);
    assert_eq!(session.label.as_deref(), Some("test-session"));
}

#[test]
fn test_add_message() {
    let mut session: Session<String> = Session::new(1, 5);
    session.add_message("Hello".to_string(), 6);
    assert_eq!(session.message_count(), 1);
    assert!(session.updated_at >= session.created_at);
}

#[test]
fn test_clear_messages() {
    let mut session: Session<String> = Session::new(1, 0);
    session.add_message("Hello".to_string(), 1);
    session.add_message("Hi there".to_string(), 2);
    assert_eq!(session.message_count(), 2);
    session.clear_messages(3);
    assert_eq!(session.message_count(), 0);
}

#[test]
fn test_messages_since() {
    let mut session: Session<String> = Session::new(1, 0);
    session.add_message("A".to_string(), 1);
    session.add_message("B".to_string(), 2);
    session.add_message("C".to_string(), 3);

    let since = session.messages_since(1);
    assert_eq!(since.len(), 2);
    assert_eq!(since[0], "B");
    assert_eq!(since[1], "C");

    let since = session.messages_since(10);
    assert!(since.is_empty());
}

#[test]
fn test_metadata() {
    let mut session: Session<String> = Session::new(1, 0);
    session.set_metadata("key1", "value1");
    assert_eq!(session.get_metadata("key1"), Some("value1"));
    assert_eq!(session.get_metadata("nonexistent"), None);
    session.set_metadata("key1", "value2");
    assert_eq!(session.get_metadata("key1"), Some("value2"));
}

#[test]
fn test_runtime_session_management() {
    let mut rt: Rt = Runtime::new();
    assert_eq!(rt.session_count(), 0);

    let id = rt.create_session(42, 0);
    assert_eq!(rt.session_count(), 1);

    let fetched = rt.get_session(id);
    assert!(fetched.is_some());
    assert_eq!(fetched.unwrap().id, id);

    let deleted = rt.delete_session(id);
    assert!(deleted.is_some());
    assert_eq!(rt.session_count(), 0);
}

#[test]
fn test_runtime_session_with_label() {
    let mut rt: Rt = Runtime::new();
    let id = rt.create_session_with_label(3, "test-session", 0);
    let session = rt.get_session(id).unwrap();
    assert_eq!(session.label, Some("test-session".into()));
}

#[test]
fn test_runtime_agent_management() {
    let mut rt: Rt = Runtime::new();
    assert_eq!(rt.agent_count(), 0);

    let id: u128 = 9;
    rt.register_agent(id, "worker-1", 0);
    assert_eq!(rt.agent_count(), 1);

    let fetched = rt.get_agent(id);
    assert!(fetched.is_some());
    assert_eq!(fetched.unwrap().name, "worker-1");

    let removed = rt.remove_agent(id);
    assert!(removed.is_some());
    assert_eq!(rt.agent_count(), 0);
}

#[test]
fn test_runtime_find_agents_by_name() {
    let mut rt: Rt = Runtime::new();
    rt.register_agent(1, "builder", 0);
    rt.register_agent(2, "builder", 0);
    rt.register_agent(3, "tester", 0);

    let builders = rt.find_agents_by_name("builder");
    assert_eq!(builders.len(), 2);
    assert_eq!(builders, vec![1, 2]);
}

#[test]
fn test_runtime_sub_agents() {
    let mut rt: Rt = Runtime::new();
    let id = rt.spawn_sub_agent(77, "sub-worker", 0);

    assert_eq!(rt.sub_agent_count(), 1);
    assert!(rt.get_sub_agent(id).is_some());
    assert_eq!(rt.list_sub_agents().len(), 1);

    let removed = rt.remove_sub_agent(id);
    assert!(removed.is_some());
    assert_eq!(rt.sub_agent_count(), 0);
}

#[test]
fn submitting_to_an_unknown_agent_names_it() {
    let mut rt: Rt = Runtime::new();
    rt.register_agent(1, "executor", 5);
    assert_eq!(rt.submit_task(1).unwrap().agent, 5);
    let e = rt.submit_task(7).unwrap_err();
    assert_eq!(e, "Agent 00000000-0000-0000-0000-000000000007 not found");
}

#[test]
fn task_results_are_noted_in_the_given_session() {
    let mut rt: Runtime<Session<String>, u8> = Runtime::new();
    rt.create_session(1, 0);
    rt.create_session(2, 0);
    rt.record_task_result(Some(1), task_result_note("Done"), 10);
    rt.record_task_result(None, task_result_note("ignored"), 11);
    rt.record_task_result(Some(99), task_result_note("nowhere"), 12);
    let s = rt.get_session(1).unwrap();
    assert_eq!(s.messages, vec!["Task result: Done".to_string()]);
    assert_eq!(s.updated_at, 10);
    assert!(rt.get_session(2).unwrap().messages.is_empty());
    assert_eq!(rt.list_sessions().len(), 2);
    assert_eq!(rt.list_agents().len(), 0);
}

#[test]
fn test_runtime_summary() {
    let mut rt: Rt = Runtime::new();
    rt.register_agent(1, "a", 0);
    rt.register_agent(2, "b", 0);
    rt.create_session(5, 0);

    let s = rt.summary();
    assert_eq!(s.agents, 2);
    assert_eq!(s.sessions, 1);
    assert_eq!(rt.default_max_iterations, 100);
    let rt = rt.with_default_max_iterations(7);
    assert_eq!(rt.default_max_iterations, 7);
}

#[test]
fn test_agent_creation() {
    let agent: Agent<&str, &str, ()> = Agent::new(11, "test-agent", "engine", "mock", vec![]);
    assert!(!agent.id.to_string().is_empty());
    assert_eq!(agent.name, "test-agent");
    assert!(agent.tools().is_empty());
    assert_eq!(*agent.provider(), "mock");
    assert_eq!(*agent.engine(), "engine");
}

#[test]
fn test_agent_tool_management() {
    let mut agent: Agent<(), (), u8> = Agent::new(1, "test", (), (), vec![]);
    agent.add_tool("mock-tool".to_string(), 1);
    assert_eq!(agent.tools().len(), 1);
    assert!(agent.has_tool("mock-tool"));
    assert!(!agent.has_tool("other"));

    agent.remove_tool("mock-tool");
    assert_eq!(agent.tools().len(), 0);
}

#[test]
fn remove_tool_drops_every_tool_of_that_name() {
    let mut agent: Agent<(), (), u8> = Agent::new(1, "test", (), (), vec![]);
    agent.add_tool("a".to_string(), 1);
    agent.add_tool("b".to_string(), 2);
    agent.add_tool("a".to_string(), 3);
    agent.add_tool("c".to_string(), 4);
    agent.remove_tool("a");
    let left: Vec<(String, u8)> = agent.tools().to_vec();
    assert_eq!(left, vec![("b".to_string(), 2), ("c".to_string(), 4)]);
}
