use raven::chat::{
    chat_reply, convert_messages, AnthropicProvider, FunctionSchema, LocalProvider, Message,
    MessageContent, OpenAiCompatProvider, Role, ToolCall, FunctionCall,
};
use raven::data::JsonValue;

fn conv(v: &serde_json::Value) -> JsonValue {
    match v {
        serde_json::Value::Null => JsonValue::Null,
        serde_json::Value::Bool(b) => JsonValue::Bool(*b),
        serde_json::Value::Number(n) => JsonValue::Number(n.to_string()),
        serde_json::Value::String(s) => JsonValue::Str(s.clone()),
        serde_json::Value::Array(a) => JsonValue::Array(a.iter().map(conv).collect()),
        serde_json::Value::Object(m) => {
            JsonValue::Object(m.iter().map(|(k, v)| (k.clone(), conv(v))).collect())
        }
    }
}

fn json(text: &str) -> JsonValue {
    conv(&serde_json::from_str(text).unwrap())
}

fn get<'a>(v: &'a JsonValue, key: &str) -> Option<&'a JsonValue> {
    match v {
        JsonValue::Object(ms) => ms.iter().find(|(k, _)| k == key).map(|(_, v)| v),
        _ => None,
    }
}

fn at(v: &JsonValue, i: usize) -> Option<&JsonValue> {
    match v {
        JsonValue::Array(items) => items.get(i),
        _ => None,
    }
}

fn text(v: Option<&JsonValue>) -> Option<&str> {
    match v {
        Some(JsonValue::Str(s)) => Some(s.as_str()),
        _ => None,
    }
}

fn keys(v: &JsonValue) -> Vec<&str> {
    match v {
        JsonValue::Object(ms) => ms.iter().map(|(k, _)| k.as_str()).collect(),
        _ => vec![],
    }
}

#[test]
fn test_provider_name() {
    let provider = OpenAiCompatProvider::new("test", "http://localhost:11434/v1", None);
    assert_eq!(provider.name(), "test");
}

#[test]
fn test_build_request_basic() {
    let provider = OpenAiCompatProvider::new("test", "http://localhost:11434/v1", None);
    let messages = vec![Message::user("Hello")];
    let body = provider.build_request("llama3", &messages, vec![], None);

    assert_eq!(text(get(&body, "model")), Some("llama3"));
    let first = at(get(&body, "messages").unwrap(), 0).unwrap();
    assert_eq!(text(get(first, "role")), Some("user"));
    assert_eq!(text(get(first, "content")), Some("Hello"));
}

#[test]
fn test_build_request_with_tools() {
    let provider = OpenAiCompatProvider::new("test", "http://localhost:11434/v1", None);
    let schema = FunctionSchema {
        name: "test_tool".into(),
        description: "A test tool".into(),
        parameters: json(r#"{"type": "object", "properties": {}}"#),
    };
    let body = provider.build_request("gpt-4", &[Message::user("Use the tool")], vec![schema], None);

    let tools = get(&body, "tools").unwrap();
    assert!(matches!(tools, JsonValue::Array(_)));
    let function = get(at(tools, 0).unwrap(), "function").unwrap();
    assert_eq!(text(get(function, "name")), Some("test_tool"));
    assert_eq!(text(get(at(tools, 0).unwrap(), "type")), Some("function"));
}

#[test]
fn request_carries_tool_calls_names_and_limits() {
    let provider = OpenAiCompatProvider::new("p", "http://h/v1///", Some("k".into()));
    assert_eq!(provider.chat_url(), "http://h/v1/chat/completions");
    assert_eq!(provider.models_url(), "http://h/v1/models");
    assert_eq!(provider.auth_header().as_deref(), Some("Bearer k"));
    let call = ToolCall {
        id: "c1".into(),
        call_type: "function".into(),
        function: FunctionCall { name: "shell".into(), arguments: "{\"command\":\"ls\"}".into() },
    };
    let assistant = Message {
        role: Role::Assistant,
        content: MessageContent::ToolCalls { content: None, tool_calls: vec![call] },
        name: None,
        tool_call_id: None,
    };
    let mut result = Message::with_text(Role::Tool, "file.txt");
    result.tool_call_id = Some("c1".into());
    let body = provider.build_request("m", &[Message::system("be brief"), assistant, result], vec![], Some(256));
    assert_eq!(keys(&body), vec!["model", "messages", "max_tokens"]);
    assert!(matches!(get(&body, "max_tokens"), Some(JsonValue::Number(n)) if n == "256"));
    let msgs = get(&body, "messages").unwrap();
    let a = at(msgs, 1).unwrap();
    assert_eq!(keys(a), vec!["role", "tool_calls"]);
    let c = at(get(a, "tool_calls").unwrap(), 0).unwrap();
    assert_eq!(text(get(c, "id")), Some("c1"));
    assert_eq!(text(get(get(c, "function").unwrap(), "arguments")), Some("{\"command\":\"ls\"}"));
    let t = at(msgs, 2).unwrap();
    assert_eq!(keys(t), vec!["role", "content", "tool_call_id"]);
    assert_eq!(text(get(t, "role")), Some("tool"));
}

#[test]
fn reply_with_text_and_usage() {
    let reply = json(
        r#"{"model":"gpt-4o","choices":[{"message":{"role":"assistant","content":"Hi"},"finish_reason":"stop"}],
            "usage":{"prompt_tokens":3,"completion_tokens":1,"total_tokens":4}}"#,
    );
    let r = chat_reply(&reply, "asked");
    assert!(matches!(&r.message.content, MessageContent::Text { content } if content == "Hi"));
    assert_eq!(r.usage.total_tokens, 4);
    assert_eq!(r.usage.prompt_tokens, 3);
    assert_eq!(r.finish_reason.as_deref(), Some("stop"));
    assert_eq!(r.model, "gpt-4o");
}

#[test]
fn reply_falls_back_to_reasoning_and_asked_model() {
    let reply = json(r#"{"choices":[{"message":{"content":"","reasoning_content":"thinking"}}]}"#);
    let r = chat_reply(&reply, "deepseek");
    assert!(matches!(&r.message.content, MessageContent::Text { content } if content == "thinking"));
    assert_eq!(r.model, "deepseek");
    assert_eq!(r.usage.total_tokens, 0);
    assert_eq!(r.finish_reason, None);
    let reply = json(r#"{"choices":[{"message":{"content":"null"}}]}"#);
    let r = chat_reply(&reply, "m");
    assert!(matches!(&r.message.content, MessageContent::Text { content } if content.is_empty()));
}

#[test]
fn reply_with_tool_calls() {
    let reply = json(
        r#"{"choices":[{"message":{"content":null,"tool_calls":[
            {"id":"call_1","type":"function","function":{"name":"git","arguments":"{\"command\":\"status\"}"}},
            {"function":{}}]}}]}"#,
    );
    let r = chat_reply(&reply, "m");
    match &r.message.content {
        MessageContent::ToolCalls { content, tool_calls } => {
            assert_eq!(content, &None);
            assert_eq!(tool_calls.len(), 2);
            assert_eq!(tool_calls[0].id, "call_1");
            assert_eq!(tool_calls[0].function.name, "git");
            assert_eq!(tool_calls[1].id, "");
            assert_eq!(tool_calls[1].function.arguments, "{}");
        }
        other => panic!("unexpected content {other:?}"),
    }
    assert_eq!(r.message.role, Role::Assistant);
}

#[test]
fn model_lists() {
    let provider = OpenAiCompatProvider::new("groq", "https://api.groq.com/v1", None);
    let models = provider.models_from(&json(r#"{"data":[{"id":"llama"},{"object":"model"}]}"#));
    assert_eq!(models.len(), 2);
    assert_eq!(models[0].id, "llama");
    assert_eq!(models[1].id, "unknown");
    assert_eq!(models[0].provider, "groq");
    assert_eq!(models[0].context_length, 32768);

    let local = LocalProvider::ollama();
    assert_eq!(local.models_url(), "http://localhost:11434/v1/models");
    let none = local.models_from(None);
    assert_eq!(none.len(), 1);
    assert_eq!(none[0].id, "local-model");
    assert_eq!(none[0].context_length, 8192);
    let listed = local.models_from(Some(&json(r#"{"data":[{"id":"qwen"}]}"#)));
    assert_eq!(listed[0].id, "qwen");
    assert_eq!(listed[0].provider, "local");
    assert_eq!(local.chat_provider().name(), "local-compat");
}

#[test]
fn anthropic_conversion_and_reply() {
    let messages = vec![
        Message::system("one"),
        Message::user("hi"),
        Message::system("two"),
        Message::with_text(Role::Tool, "result"),
        Message::assistant("ok"),
    ];
    let (system, turns) = convert_messages(&messages);
    assert_eq!(system.as_deref(), Some("one\ntwo"));
    assert_eq!(turns.len(), 3);
    assert_eq!(text(get(&turns[1], "role")), Some("user"));
    assert_eq!(text(get(&turns[1], "content")), Some("result"));
    assert_eq!(text(get(&turns[2], "role")), Some("assistant"));
    let (system, _) = convert_messages(&[Message::user("x")]);
    assert_eq!(system, None);

    let p = AnthropicProvider::new("key");
    assert_eq!(p.name(), "anthropic");
    assert_eq!(p.messages_url(), "https://api.anthropic.com/v1/messages");
    let body = p.build_request("m", &messages);
    assert_eq!(keys(&body), vec!["model", "max_tokens", "messages"]);
    let reply = json(r#"{"content":[{"type":"text","text":"Hello"}],"stop_reason":"end_turn"}"#);
    let r = p.chat_reply(&reply, "m");
    assert!(matches!(&r.message.content, MessageContent::Text { content } if content == "Hello"));
    assert_eq!(r.finish_reason.as_deref(), Some("end_turn"));
}

#[test]
fn provider_conveniences() {
    let msgs = raven::chat::completion_messages("sys", "question");
    assert_eq!(msgs.len(), 2);
    assert_eq!(msgs[0].role, Role::System);
    assert_eq!(msgs[1].text(), Some("question"));
    let reply = json(r#"{"choices":[{"message":{"content":"answer"}}]}"#);
    assert_eq!(raven::chat::answer_text(&chat_reply(&reply, "m")), "answer");
    let models = OpenAiCompatProvider::new("p", "u", None)
        .models_from(&json(r#"{"data":[{"id":"a"},{"id":"b"}]}"#));
    assert_eq!(raven::chat::default_model(&models).as_deref(), Some("a"));
    assert_eq!(raven::chat::default_model(&[]), None);
    assert!(raven::chat::model_available(&models, "b"));
    assert!(!raven::chat::model_available(&models, "c"));
}
