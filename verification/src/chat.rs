//! Chat messages and the OpenAI-compatible wire format: the request body a
//! provider sends, and what it reads back from the reply and from the
//! model list. The HTTP exchange itself belongs to the caller.
use vstd::prelude::*;
use crate::data::{find_member, member_index, JsonValue};
use crate::text::{chars_of, dec, owned, parse_u64, parse_u64_spec, push_all, slice_of, str_eq, string_of, u64_to_string};

verus! {

/// Who speaks a message.
#[derive(Debug, Clone, Copy, PartialEq, Eq)]
pub enum Role {
    System,
    User,
    Assistant,
    Tool,
}

/// The wire name of a role.
pub open spec fn role_name(r: Role) -> Seq<char> {
    match r {
        Role::System => "system"@,
        Role::User => "user"@,
        Role::Assistant => "assistant"@,
        Role::Tool => "tool"@,
    }
}

impl Role {
    /// The wire name of the role.
    pub fn as_str(self) -> (r: &'static str)
        ensures
            r@ == role_name(self),
    {
        match self {
            Role::System => "system",
            Role::User => "user",
            Role::Assistant => "assistant",
            Role::Tool => "tool",
        }
    }
}

/// A function the model asks to call.
#[derive(Debug, Clone)]
pub struct FunctionCall {
    pub name: String,
    /// The arguments as JSON text.
    pub arguments: String,
}

/// A tool call in an assistant message.
#[derive(Debug, Clone)]
pub struct ToolCall {
    pub id: String,
    pub call_type: String,
    pub function: FunctionCall,
}

/// What a message says.
#[derive(Debug, Clone)]
pub enum MessageContent {
    Text { content: String },
    ToolCalls { content: Option<String>, tool_calls: Vec<ToolCall> },
    AssistantWithTools { content: Option<String>, tool_calls: Vec<ToolCall> },
}

/// One message of a conversation.
#[derive(Debug, Clone)]
pub struct Message {
    pub role: Role,
    pub content: MessageContent,
    pub name: Option<String>,
    pub tool_call_id: Option<String>,
}

impl Message {
    /// A plain text message from `role`.
    pub fn with_text(role: Role, text: &str) -> (r: Message)
        ensures
            r.role == role,
            r.content matches MessageContent::Text { content } && content@ == text@,
            r.name is None,
            r.tool_call_id is None,
    {
        Message {
            role,
            content: MessageContent::Text { content: owned(text) },
            name: None,
            tool_call_id: None,
        }
    }

    /// A user message.
    pub fn user(text: &str) -> (r: Message)
        ensures
            r.role == Role::User,
            r.content matches MessageContent::Text { content } && content@ == text@,
            r.name is None,
            r.tool_call_id is None,
    {
        Message::with_text(Role::User, text)
    }

    /// An assistant message.
    pub fn assistant(text: &str) -> (r: Message)
        ensures
            r.role == Role::Assistant,
            r.content matches MessageContent::Text { content } && content@ == text@,
            r.name is None,
            r.tool_call_id is None,
    {
        Message::with_text(Role::Assistant, text)
    }

    /// A system message.
    pub fn system(text: &str) -> (r: Message)
        ensures
            r.role == Role::System,
            r.content matches MessageContent::Text { content } && content@ == text@,
            r.name is None,
            r.tool_call_id is None,
    {
        Message::with_text(Role::System, text)
    }
}

/// Token counts of one exchange.
#[derive(Debug, Clone, Copy, PartialEq, Eq)]
pub struct TokenUsage {
    pub prompt_tokens: u32,
    pub completion_tokens: u32,
    pub total_tokens: u32,
}

/// A provider's answer.
#[derive(Debug)]
pub struct ChatResponse {
    pub message: Message,
    pub usage: TokenUsage,
    pub finish_reason: Option<String>,
    pub model: String,
}

/// A model a provider offers.
#[derive(Debug, Clone)]
pub struct ModelInfo {
    pub id: String,
    pub provider: String,
    pub context_length: u32,
    pub supports_tools: bool,
    pub supports_vision: bool,
}

// ── reading JSON ─────────────────────────────────────────────────────

/// The referenced value, if any.
pub open spec fn deref_opt(o: Option<&JsonValue>) -> Option<JsonValue> {
    match o {
        Some(v) => Some(*v),
        None => None,
    }
}

/// The member `k` of an object (`value[k]`), if the value is an object
/// that has it.
pub open spec fn key_of(v: Option<JsonValue>, k: Seq<char>) -> Option<JsonValue> {
    match v {
        Some(JsonValue::Object(m)) => match member_index(m@, k) {
            Some(i) => Some(m@[i].1),
            None => None,
        },
        _ => None,
    }
}

/// The element `i` of an array (`value[i]`), if the value is an array
/// that long.
pub open spec fn at_index(v: Option<JsonValue>, i: int) -> Option<JsonValue> {
    match v {
        Some(JsonValue::Array(items)) => if 0 <= i < items@.len() {
            Some(items@[i])
        } else {
            None
        },
        _ => None,
    }
}

/// The text of a string value (`as_str`).
pub open spec fn text_of(v: Option<JsonValue>) -> Option<Seq<char>> {
    match v {
        Some(JsonValue::Str(s)) => Some(s@),
        _ => None,
    }
}

/// The value of a number that is a non-negative integer (`as_u64`).
pub open spec fn u64_of(v: Option<JsonValue>) -> Option<u64> {
    match v {
        Some(JsonValue::Number(t)) => parse_u64_spec(t@),
        _ => None,
    }
}

fn get_key<'a>(v: Option<&'a JsonValue>, k: &str) -> (r: Option<&'a JsonValue>)
    ensures
        deref_opt(r) == key_of(deref_opt(v), k@),
{
    match v {
        Some(JsonValue::Object(m)) => match find_member(m, k) {
            Some(i) => Some(&m[i].1),
            None => None,
        },
        _ => None,
    }
}

fn get_index<'a>(v: Option<&'a JsonValue>, i: usize) -> (r: Option<&'a JsonValue>)
    ensures
        deref_opt(r) == at_index(deref_opt(v), i as int),
{
    match v {
        Some(JsonValue::Array(items)) => if i < items.len() {
            Some(&items[i])
        } else {
            None
        },
        _ => None,
    }
}

fn get_text(v: Option<&JsonValue>) -> (r: Option<String>)
    ensures
        match r {
            Some(s) => text_of(deref_opt(v)) == Some(s@),
            None => text_of(deref_opt(v)) is None,
        },
{
    match v {
        Some(JsonValue::Str(s)) => Some(owned(s.as_str())),
        _ => None,
    }
}

fn get_u64(v: Option<&JsonValue>) -> (r: Option<u64>)
    ensures
        r == u64_of(deref_opt(v)),
{
    match v {
        Some(JsonValue::Number(t)) => parse_u64(t.as_str()),
        _ => None,
    }
}

fn text_or(v: Option<&JsonValue>, default: &str) -> (r: String)
    ensures
        r@ == match text_of(deref_opt(v)) {
            Some(s) => s,
            None => default@,
        },
{
    match get_text(v) {
        Some(s) => s,
        None => owned(default),
    }
}

// ── the reply ────────────────────────────────────────────────────────

/// The first choice of a reply.
pub open spec fn first_choice(json: JsonValue) -> Option<JsonValue> {
    at_index(key_of(Some(json), "choices"@), 0)
}

/// The text of a reply's message: its `content` unless that is empty or
/// the word `null`, else its `reasoning_content`.
pub open spec fn reply_text(msg: Option<JsonValue>) -> Option<Seq<char>> {
    match text_of(key_of(msg, "content"@)) {
        Some(s) => if s != ""@ && s != "null"@ {
            Some(s)
        } else {
            text_of(key_of(msg, "reasoning_content"@))
        },
        None => text_of(key_of(msg, "reasoning_content"@)),
    }
}

/// The text of a value, or `default`.
pub open spec fn text_or_default(v: Option<JsonValue>, default: Seq<char>) -> Seq<char> {
    match text_of(v) {
        Some(s) => s,
        None => default,
    }
}

/// `call` is the tool call that `v` describes: missing texts read as empty,
/// missing arguments as `{}`.
pub open spec fn call_from(v: JsonValue, call: ToolCall) -> bool {
    &&& call.id@ == text_or_default(key_of(Some(v), "id"@), ""@)
    &&& call.call_type@ == "function"@
    &&& call.function.name@ == text_or_default(key_of(key_of(Some(v), "function"@), "name"@), ""@)
    &&& call.function.arguments@ == text_or_default(
        key_of(key_of(Some(v), "function"@), "arguments"@),
        "{}"@,
    )
}

/// The tool calls of a reply's message, when its `tool_calls` is an array.
pub open spec fn calls_listed(msg: Option<JsonValue>) -> Seq<JsonValue> {
    match key_of(msg, "tool_calls"@) {
        Some(JsonValue::Array(items)) => items@,
        _ => seq![],
    }
}

/// A count of the usage object, or 0; wider counts are cut to 32 bits.
pub open spec fn count_of(usage: Option<JsonValue>, k: Seq<char>) -> u32 {
    match u64_of(key_of(usage, k)) {
        Some(n) => n as u32,
        None => 0,
    }
}

fn tool_call_from(v: &JsonValue) -> (r: ToolCall)
    ensures
        call_from(*v, r),
{
    let f = get_key(Some(v), "function");
    proof {
        reveal_strlit("");
    }
    ToolCall {
        id: text_or(get_key(Some(v), "id"), ""),
        call_type: owned("function"),
        function: FunctionCall {
            name: text_or(get_key(f, "name"), ""),
            arguments: text_or(get_key(f, "arguments"), "{}"),
        },
    }
}

fn count(usage: Option<&JsonValue>, k: &str) -> (r: u32)
    ensures
        r == count_of(deref_opt(usage), k@),
{
    match get_u64(get_key(usage, k)) {
        Some(n) => n as u32,
        None => 0,
    }
}

/// `m` is the message a reply's `msg` carries: with its tool calls when
/// it lists any, else as plain text (empty when it has none).
pub open spec fn reply_message_is(msg: Option<JsonValue>, m: Message) -> bool {
    let calls = calls_listed(msg);
    &&& m.role == Role::Assistant
    &&& m.name is None
    &&& m.tool_call_id is None
    &&& if calls.len() > 0 {
        m.content matches MessageContent::ToolCalls { content, tool_calls } && {
            &&& match content {
                Some(c) => reply_text(msg) == Some(c@),
                None => reply_text(msg) is None,
            }
            &&& tool_calls@.len() == calls.len()
            &&& forall|i: int| 0 <= i < calls.len() ==> call_from(calls[i], #[trigger] tool_calls@[i])
        }
    } else {
        m.content matches MessageContent::Text { content } && content@ == match reply_text(msg) {
            Some(c) => c,
            None => ""@,
        }
    }
}

/// `u` is the usage a reply reports: the counts of its `usage` object, or
/// all zero when it has none.
pub open spec fn reply_usage_is(json: JsonValue, u: TokenUsage) -> bool {
    let usage = key_of(Some(json), "usage"@);
    match usage {
        Some(JsonValue::Object(_)) => {
            &&& u.prompt_tokens == count_of(usage, "prompt_tokens"@)
            &&& u.completion_tokens == count_of(usage, "completion_tokens"@)
            &&& u.total_tokens == count_of(usage, "total_tokens"@)
        },
        _ => u == TokenUsage { prompt_tokens: 0, completion_tokens: 0, total_tokens: 0 },
    }
}

fn reply_content(msg: Option<&JsonValue>) -> (r: Option<String>)
    ensures
        match r {
            Some(c) => reply_text(deref_opt(msg)) == Some(c@),
            None => reply_text(deref_opt(msg)) is None,
        },
{
    match get_text(get_key(msg, "content")) {
        Some(s) => {
            proof {
                reveal_strlit("");
            }
            if !str_eq(s.as_str(), "") && !str_eq(s.as_str(), "null") {
                Some(s)
            } else {
                get_text(get_key(msg, "reasoning_content"))
            }
        },
        None => get_text(get_key(msg, "reasoning_content")),
    }
}

fn reply_message(msg: Option<&JsonValue>) -> (r: Message)
    ensures
        reply_message_is(deref_opt(msg), r),
{
    let content = reply_content(msg);
    let mut tool_calls: Vec<ToolCall> = Vec::new();
    let ghost calls = calls_listed(deref_opt(msg));
    if let Some(JsonValue::Array(items)) = get_key(msg, "tool_calls") {
        let mut i: usize = 0;
        while i < items.len()
            invariant
                i <= items@.len(),
                calls == items@,
                tool_calls@.len() == i,
                forall|j: int| 0 <= j < i ==> call_from(items@[j], #[trigger] tool_calls@[j]),
            decreases items@.len() - i,
        {
            tool_calls.push(tool_call_from(&items[i]));
            i = i + 1;
        }
    }
    if tool_calls.len() > 0 {
        Message {
            role: Role::Assistant,
            content: MessageContent::ToolCalls { content, tool_calls },
            name: None,
            tool_call_id: None,
        }
    } else {
        proof {
            reveal_strlit("");
        }
        match content {
            Some(c) => Message::assistant(c.as_str()),
            None => Message::assistant(""),
        }
    }
}

fn reply_usage(json: &JsonValue) -> (r: TokenUsage)
    ensures
        reply_usage_is(*json, r),
{
    let u = get_key(Some(json), "usage");
    match u {
        Some(JsonValue::Object(_)) => TokenUsage {
            prompt_tokens: count(u, "prompt_tokens"),
            completion_tokens: count(u, "completion_tokens"),
            total_tokens: count(u, "total_tokens"),
        },
        _ => TokenUsage { prompt_tokens: 0, completion_tokens: 0, total_tokens: 0 },
    }
}

/// What an OpenAI-compatible chat reply says: the first choice's message,
/// with its tool calls when it lists any, the token usage, the finish
/// reason, and the model that answered (`model` when the reply names
/// none).
pub fn chat_reply(json: &JsonValue, model: &str) -> (r: ChatResponse)
    ensures
        reply_message_is(key_of(first_choice(*json), "message"@), r.message),
        reply_usage_is(*json, r.usage),
        match r.finish_reason {
            Some(f) => text_of(key_of(first_choice(*json), "finish_reason"@)) == Some(f@),
            None => text_of(key_of(first_choice(*json), "finish_reason"@)) is None,
        },
        r.model@ == text_or_default(key_of(Some(*json), "model"@), model@),
{
    let choice = get_index(get_key(Some(json), "choices"), 0);
    ChatResponse {
        message: reply_message(get_key(choice, "message")),
        usage: reply_usage(json),
        finish_reason: get_text(get_key(choice, "finish_reason")),
        model: text_or(get_key(Some(json), "model"), model),
    }
}

// ── the request ──────────────────────────────────────────────────────

/// A function a model may call: its name, what it does, and the JSON
/// schema of its parameters.
#[derive(Debug)]
pub struct FunctionSchema {
    pub name: String,
    pub description: String,
    pub parameters: JsonValue,
}

/// The first member named `key` is at position `k`.
proof fn lemma_member_at(ms: Seq<(String, JsonValue)>, k: int, key: Seq<char>)
    requires
        0 <= k < ms.len(),
        ms[k].0@ == key,
        forall|j: int| 0 <= j < k ==> ms[j].0@ != key,
    ensures
        member_index(ms, key) == Some(k),
{
    let c = choose|c: int|
        0 <= c < ms.len() && ms[c].0@ == key && forall|j: int| 0 <= j < c ==> ms[j].0@ != key;
    assert(0 <= k < ms.len() && ms[k].0@ == key && forall|j: int| 0 <= j < k ==> ms[j].0@ != key);
    if c < k {
        assert(ms[c].0@ != key);
    } else if c > k {
        assert(ms[k].0@ != key);
    }
}

/// No member is named `key`.
proof fn lemma_member_absent(ms: Seq<(String, JsonValue)>, key: Seq<char>)
    requires
        forall|j: int| 0 <= j < ms.len() ==> ms[j].0@ != key,
    ensures
        member_index(ms, key) is None,
{
}

/// The names of an object's members.
pub open spec fn member_names(v: Option<JsonValue>) -> Seq<Seq<char>> {
    match v {
        Some(JsonValue::Object(ms)) => ms@.map_values(|m: (String, JsonValue)| m.0@),
        _ => seq![],
    }
}

/// `v` is the wire form of the tool call `c`.
pub open spec fn call_json_is(v: Option<JsonValue>, c: ToolCall) -> bool {
    &&& member_names(v) == seq!["id"@, "type"@, "function"@]
    &&& text_of(key_of(v, "id"@)) == Some(c.id@)
    &&& text_of(key_of(v, "type"@)) == Some("function"@)
    &&& member_names(key_of(v, "function"@)) == seq!["name"@, "arguments"@]
    &&& text_of(key_of(key_of(v, "function"@), "name"@)) == Some(c.function.name@)
    &&& text_of(key_of(key_of(v, "function"@), "arguments"@)) == Some(c.function.arguments@)
}

/// The optional members a message carries, in wire order.
pub open spec fn message_keys(m: Message) -> Seq<Seq<char>> {
    let body = match m.content {
        MessageContent::Text { .. } => seq!["content"@],
        MessageContent::ToolCalls { content, tool_calls } | MessageContent::AssistantWithTools {
            content,
            tool_calls,
        } => (if content is Some {
            seq!["content"@]
        } else {
            seq![]
        }) + (if tool_calls@.len() > 0 {
            seq!["tool_calls"@]
        } else {
            seq![]
        }),
    };
    seq!["role"@] + body + (if m.name is Some {
        seq!["name"@]
    } else {
        seq![]
    }) + (if m.tool_call_id is Some {
        seq!["tool_call_id"@]
    } else {
        seq![]
    })
}

/// `v` is the wire form of the message `m`: its role, its text, its tool
/// calls when it has any, its name and the id of the call it answers.
pub open spec fn message_json_is(v: Option<JsonValue>, m: Message) -> bool {
    &&& member_names(v) == message_keys(m)
    &&& text_of(key_of(v, "role"@)) == Some(role_name(m.role))
    &&& match m.content {
        MessageContent::Text { content } => text_of(key_of(v, "content"@)) == Some(content@),
        MessageContent::ToolCalls { content, tool_calls } | MessageContent::AssistantWithTools {
            content,
            tool_calls,
        } => {
            &&& match content {
                Some(c) => text_of(key_of(v, "content"@)) == Some(c@),
                None => true,
            }
            &&& tool_calls@.len() > 0 ==> {
                &&& key_of(v, "tool_calls"@) matches Some(JsonValue::Array(items))
                &&& items@.len() == tool_calls@.len()
                &&& forall|i: int|
                    0 <= i < tool_calls@.len() ==> call_json_is(
                        at_index(key_of(v, "tool_calls"@), i),
                        #[trigger] tool_calls@[i],
                    )
            }
        },
    }
    &&& match m.name {
        Some(n) => text_of(key_of(v, "name"@)) == Some(n@),
        None => true,
    }
    &&& match m.tool_call_id {
        Some(t) => text_of(key_of(v, "tool_call_id"@)) == Some(t@),
        None => true,
    }
}

/// `v` is the wire form of a tool the model may call: `type` is
/// `function`, and `function` holds the name, the description and the
/// parameter schema.
pub open spec fn tool_json_is(v: Option<JsonValue>, name: Seq<char>, description: Seq<char>, parameters: JsonValue) -> bool {
    &&& member_names(v) == seq!["type"@, "function"@]
    &&& text_of(key_of(v, "type"@)) == Some("function"@)
    &&& member_names(key_of(v, "function"@)) == seq!["name"@, "description"@, "parameters"@]
    &&& text_of(key_of(key_of(v, "function"@), "name"@)) == Some(name)
    &&& text_of(key_of(key_of(v, "function"@), "description"@)) == Some(description)
    &&& key_of(key_of(v, "function"@), "parameters"@) == Some(parameters)
}

proof fn lemma_keys_differ()
    ensures
        "role"@ != "content"@,
        "role"@ != "tool_calls"@,
        "role"@ != "name"@,
        "role"@ != "tool_call_id"@,
        "content"@ != "tool_calls"@,
        "content"@ != "name"@,
        "content"@ != "tool_call_id"@,
        "tool_calls"@ != "name"@,
        "tool_calls"@ != "tool_call_id"@,
        "name"@ != "tool_call_id"@,
        "id"@ != "type"@,
        "id"@ != "function"@,
        "type"@ != "function"@,
        "name"@ != "arguments"@,
        "name"@ != "description"@,
        "name"@ != "parameters"@,
        "description"@ != "parameters"@,
        "model"@ != "messages"@,
        "model"@ != "tools"@,
        "model"@ != "max_tokens"@,
        "messages"@ != "tools"@,
        "messages"@ != "max_tokens"@,
        "tools"@ != "max_tokens"@,
        "max_tokens"@ != "messages"@,
{
    reveal_strlit("role");
    reveal_strlit("content");
    reveal_strlit("tool_calls");
    reveal_strlit("name");
    reveal_strlit("tool_call_id");
    reveal_strlit("id");
    reveal_strlit("type");
    reveal_strlit("function");
    reveal_strlit("arguments");
    reveal_strlit("description");
    reveal_strlit("parameters");
    reveal_strlit("model");
    reveal_strlit("messages");
    reveal_strlit("tools");
    reveal_strlit("max_tokens");
    assert("role"@[0] != "content"@[0]);
    assert("role"@[0] != "name"@[0]);
    assert("content"@[0] != "name"@[0]);
    assert("id"@[0] != "type"@[0]);
    assert("name"@[0] != "arguments"@[0]);
    assert("name"@[0] != "description"@[0]);
    assert("name"@[0] != "parameters"@[0]);
    assert("description"@[0] != "parameters"@[0]);
    assert("model"@[1] != "messages"@[1]);
    assert("tool_calls"@.len() != "tool_call_id"@.len());
    assert("model"@[0] != "tools"@[0]);
    assert("tools"@.len() != "max_tokens"@.len());
}

fn text_json(s: &str) -> (r: JsonValue)
    ensures
        r matches JsonValue::Str(t) && t@ == s@,
{
    JsonValue::Str(owned(s))
}

fn call_json(c: &ToolCall) -> (r: JsonValue)
    ensures
        call_json_is(Some(r), *c),
{
    let mut f: Vec<(String, JsonValue)> = Vec::new();
    f.push((owned("name"), text_json(c.function.name.as_str())));
    f.push((owned("arguments"), text_json(c.function.arguments.as_str())));
    let mut ms: Vec<(String, JsonValue)> = Vec::new();
    ms.push((owned("id"), text_json(c.id.as_str())));
    ms.push((owned("type"), text_json("function")));
    ms.push((owned("function"), JsonValue::Object(f)));
    proof {
        lemma_keys_differ();
        lemma_member_at(f@, 0, "name"@);
        lemma_member_at(f@, 1, "arguments"@);
        lemma_member_at(ms@, 0, "id"@);
        lemma_member_at(ms@, 1, "type"@);
        lemma_member_at(ms@, 2, "function"@);
        assert(f@.map_values(|m: (String, JsonValue)| m.0@) =~= seq!["name"@, "arguments"@]);
        assert(ms@.map_values(|m: (String, JsonValue)| m.0@) =~= seq!["id"@, "type"@, "function"@]);
    }
    JsonValue::Object(ms)
}

fn calls_json(calls: &Vec<ToolCall>) -> (r: JsonValue)
    ensures
        r matches JsonValue::Array(items) && items@.len() == calls@.len() && forall|i: int|
            0 <= i < calls@.len() ==> call_json_is(Some(items@[i]), #[trigger] calls@[i]),
{
    let mut items: Vec<JsonValue> = Vec::new();
    let mut i: usize = 0;
    while i < calls.len()
        invariant
            i <= calls@.len(),
            items@.len() == i,
            forall|j: int| 0 <= j < i ==> call_json_is(Some(items@[j]), #[trigger] calls@[j]),
        decreases calls@.len() - i,
    {
        items.push(call_json(&calls[i]));
        i = i + 1;
    }
    JsonValue::Array(items)
}

/// The wire form of one message.
pub fn message_json(m: &Message) -> (r: JsonValue)
    ensures
        message_json_is(Some(r), *m),
{
    let mut ms: Vec<(String, JsonValue)> = Vec::new();
    ms.push((owned("role"), text_json(m.role.as_str())));
    let ghost at_role = ms@;
    match &m.content {
        MessageContent::Text { content } => {
            ms.push((owned("content"), text_json(content.as_str())));
        },
        MessageContent::ToolCalls { content, tool_calls } | MessageContent::AssistantWithTools {
            content,
            tool_calls,
        } => {
            if let Some(c) = content {
                ms.push((owned("content"), text_json(c.as_str())));
            }
            if tool_calls.len() > 0 {
                ms.push((owned("tool_calls"), calls_json(tool_calls)));
            }
        },
    }
    let ghost at_body = ms@;
    if let Some(n) = &m.name {
        ms.push((owned("name"), text_json(n.as_str())));
    }
    let ghost at_name = ms@;
    if let Some(t) = &m.tool_call_id {
        ms.push((owned("tool_call_id"), text_json(t.as_str())));
    }
    proof {
        lemma_keys_differ();
        let names = ms@.map_values(|x: (String, JsonValue)| x.0@);
        assert(names =~= message_keys(*m));
        assert forall|key: Seq<char>, k: int|
            0 <= k < ms@.len() && ms@[k].0@ == key && (forall|j: int| 0 <= j < k ==> ms@[j].0@ != key)
                implies member_index(ms@, key) == Some(k) by {
            lemma_member_at(ms@, k, key);
        }
        assert(names[0] == "role"@);
        if m.content is Text {
            assert(names[1] == "content"@);
        }
        if m.content is ToolCalls {
            let content = m.content->ToolCalls_content;
            let tool_calls = m.content->ToolCalls_tool_calls;
            if content is Some {
                assert(names[1] == "content"@);
            }
            if tool_calls@.len() > 0 {
                let k = if content is Some { 2int } else { 1int };
                assert(names[k] == "tool_calls"@);
            }
        }
        if m.content is AssistantWithTools {
            let content = m.content->AssistantWithTools_content;
            let tool_calls = m.content->AssistantWithTools_tool_calls;
            if content is Some {
                assert(names[1] == "content"@);
            }
            if tool_calls@.len() > 0 {
                let k = if content is Some { 2int } else { 1int };
                assert(names[k] == "tool_calls"@);
            }
        }
        if m.name is Some {
            assert(names[at_body.len() as int] == "name"@);
        }
        if m.tool_call_id is Some {
            assert(names[at_name.len() as int] == "tool_call_id"@);
        }
    }
    JsonValue::Object(ms)
}

/// The wire names of a request's members, in order.
pub open spec fn request_keys(has_tools: bool, max_tokens: Option<u32>) -> Seq<Seq<char>> {
    seq!["model"@, "messages"@] + (if has_tools {
        seq!["tools"@]
    } else {
        seq![]
    }) + (if max_tokens is Some {
        seq!["max_tokens"@]
    } else {
        seq![]
    })
}

/// `v` is the request body: the model, each message in order, the tools
/// when there are any, and the token limit when one is set.
pub open spec fn request_json_is(
    v: JsonValue,
    model: Seq<char>,
    messages: Seq<Message>,
    tools: Seq<FunctionSchema>,
    max_tokens: Option<u32>,
) -> bool {
    &&& member_names(Some(v)) == request_keys(tools.len() > 0, max_tokens)
    &&& text_of(key_of(Some(v), "model"@)) == Some(model)
    &&& key_of(Some(v), "messages"@) matches Some(JsonValue::Array(items))
    &&& items@.len() == messages.len()
    &&& forall|i: int| 0 <= i < messages.len() ==> message_json_is(Some(items@[i]), #[trigger] messages[i])
    &&& tools.len() > 0 ==> {
        &&& key_of(Some(v), "tools"@) matches Some(JsonValue::Array(ts))
        &&& ts@.len() == tools.len()
        &&& forall|i: int|
            0 <= i < tools.len() ==> tool_json_is(
                Some(ts@[i]),
                (#[trigger] tools[i]).name@,
                tools[i].description@,
                tools[i].parameters,
            )
    }
    &&& match max_tokens {
        Some(n) => key_of(Some(v), "max_tokens"@) matches Some(JsonValue::Number(t)) && t@ == dec(n as nat),
        None => true,
    }
}

fn tool_json(t: FunctionSchema) -> (r: JsonValue)
    ensures
        tool_json_is(Some(r), t.name@, t.description@, t.parameters),
{
    let FunctionSchema { name, description, parameters } = t;
    let mut f: Vec<(String, JsonValue)> = Vec::new();
    f.push((owned("name"), JsonValue::Str(name)));
    f.push((owned("description"), JsonValue::Str(description)));
    f.push((owned("parameters"), parameters));
    let mut ms: Vec<(String, JsonValue)> = Vec::new();
    ms.push((owned("type"), text_json("function")));
    ms.push((owned("function"), JsonValue::Object(f)));
    proof {
        lemma_keys_differ();
        lemma_member_at(f@, 0, "name"@);
        lemma_member_at(f@, 1, "description"@);
        lemma_member_at(f@, 2, "parameters"@);
        lemma_member_at(ms@, 0, "type"@);
        lemma_member_at(ms@, 1, "function"@);
        assert(f@.map_values(|m: (String, JsonValue)| m.0@) =~= seq!["name"@, "description"@, "parameters"@]);
        assert(ms@.map_values(|m: (String, JsonValue)| m.0@) =~= seq!["type"@, "function"@]);
    }
    JsonValue::Object(ms)
}

/// The request body for `model` over `messages`, offering `tools` and
/// capping the answer at `max_tokens` when set. Sampling settings are
/// added by the caller.
pub fn request_body(model: &str, messages: &[Message], tools: Vec<FunctionSchema>, max_tokens: Option<u32>) -> (r: JsonValue)
    ensures
        request_json_is(r, model@, messages@, tools@, max_tokens),
{
    let ghost all_tools = tools@;
    let mut items: Vec<JsonValue> = Vec::new();
    let mut i: usize = 0;
    while i < messages.len()
        invariant
            i <= messages@.len(),
            items@.len() == i,
            forall|j: int| 0 <= j < i ==> message_json_is(Some(items@[j]), #[trigger] messages@[j]),
        decreases messages@.len() - i,
    {
        items.push(message_json(&messages[i]));
        i = i + 1;
    }
    let mut ms: Vec<(String, JsonValue)> = Vec::new();
    ms.push((owned("model"), text_json(model)));
    ms.push((owned("messages"), JsonValue::Array(items)));
    let has_tools = tools.len() > 0;
    if has_tools {
        let mut rest = tools;
        let mut ts: Vec<JsonValue> = Vec::new();
        while rest.len() > 0
            invariant
                ts@.len() + rest@.len() == all_tools.len(),
                rest@ == all_tools.skip(ts@.len() as int),
                forall|j: int|
                    0 <= j < ts@.len() ==> tool_json_is(
                        Some(ts@[j]),
                        (#[trigger] all_tools[j]).name@,
                        all_tools[j].description@,
                        all_tools[j].parameters,
                    ),
            decreases rest@.len(),
        {
            let ghost k = ts@.len();
            let t = rest.remove(0);
            assert(t == all_tools[k as int]);
            ts.push(tool_json(t));
            assert(rest@ =~= all_tools.skip(ts@.len() as int));
        }
        ms.push((owned("tools"), JsonValue::Array(ts)));
    }
    let ghost before_limit = ms@;
    if let Some(n) = max_tokens {
        ms.push((owned("max_tokens"), JsonValue::Number(u64_to_string(n as u64))));
    }
    proof {
        lemma_keys_differ();
        let names = ms@.map_values(|x: (String, JsonValue)| x.0@);
        assert(names =~= request_keys(has_tools, max_tokens));
        lemma_member_at(ms@, 0, "model"@);
        lemma_member_at(ms@, 1, "messages"@);
        if has_tools {
            lemma_member_at(ms@, 2, "tools"@);
        }
        if max_tokens is Some {
            lemma_member_at(ms@, before_limit.len() as int, "max_tokens"@);
        }
    }
    JsonValue::Object(ms)
}

// ── providers ────────────────────────────────────────────────────────

/// `s` without its trailing slashes (`trim_end_matches('/')`).
pub open spec fn without_trailing_slashes(s: Seq<char>) -> Seq<char>
    decreases s.len(),
{
    if s.len() > 0 && s.last() == '/' {
        without_trailing_slashes(s.drop_last())
    } else {
        s
    }
}

fn trim_slashes(s: &str) -> (r: String)
    ensures
        r@ == without_trailing_slashes(s@),
{
    let cs = chars_of(s);
    let mut end: usize = cs.len();
    assert(cs@.subrange(0, cs@.len() as int) =~= cs@);
    while end > 0 && cs[end - 1] == '/'
        invariant
            end <= cs@.len(),
            without_trailing_slashes(cs@) == without_trailing_slashes(cs@.subrange(0, end as int)),
        decreases end,
    {
        assert(cs@.subrange(0, end as int).drop_last() =~= cs@.subrange(0, end - 1));
        end = end - 1;
    }
    let kept = slice_of(cs.as_slice(), 0, end);
    string_of(kept.as_slice())
}

/// The models a `/models` reply lists under `data`.
pub open spec fn listed_models(json: Option<JsonValue>) -> Seq<JsonValue> {
    match key_of(json, "data"@) {
        Some(JsonValue::Array(items)) => items@,
        _ => seq![],
    }
}

/// `m` describes the model `id` of `provider`, which takes tools but not
/// images.
pub open spec fn model_is(m: ModelInfo, id: Seq<char>, provider: Seq<char>, context_length: u32) -> bool {
    &&& m.id@ == id
    &&& m.provider@ == provider
    &&& m.context_length == context_length
    &&& m.supports_tools
    &&& !m.supports_vision
}

fn model_info(id: String, provider: &str, context_length: u32) -> (r: ModelInfo)
    ensures
        model_is(r, id@, provider@, context_length),
{
    ModelInfo { id, provider: owned(provider), context_length, supports_tools: true, supports_vision: false }
}

/// The models a `/models` reply lists, each under its `id` (`default_id`
/// when it has none).
fn models_listed(json: Option<&JsonValue>, default_id: &str, provider: &str, context_length: u32) -> (r: Vec<ModelInfo>)
    ensures
        r@.len() == listed_models(deref_opt(json)).len(),
        forall|i: int|
            0 <= i < r@.len() ==> model_is(
                #[trigger] r@[i],
                text_or_default(key_of(Some(listed_models(deref_opt(json))[i]), "id"@), default_id@),
                provider@,
                context_length,
            ),
{
    let mut out: Vec<ModelInfo> = Vec::new();
    if let Some(JsonValue::Array(items)) = get_key(json, "data") {
        let mut i: usize = 0;
        while i < items.len()
            invariant
                i <= items@.len(),
                items@ == listed_models(deref_opt(json)),
                out@.len() == i,
                forall|j: int|
                    0 <= j < i ==> model_is(
                        #[trigger] out@[j],
                        text_or_default(key_of(Some(items@[j]), "id"@), default_id@),
                        provider@,
                        context_length,
                    ),
            decreases items@.len() - i,
        {
            out.push(model_info(text_or(get_key(Some(&items[i]), "id"), default_id), provider, context_length));
            i = i + 1;
        }
    }
    out
}

/// A provider that speaks the OpenAI chat-completions protocol.
pub struct OpenAiCompatProvider {
    name: String,
    base_url: String,
    api_key: Option<String>,
}

impl OpenAiCompatProvider {
    /// The provider's name.
    pub closed spec fn name_spec(&self) -> Seq<char> {
        self.name@
    }

    /// The endpoint's base address, without trailing slashes.
    pub closed spec fn base_url_spec(&self) -> Seq<char> {
        self.base_url@
    }

    /// The API key, if any.
    pub closed spec fn api_key_spec(&self) -> Option<Seq<char>> {
        match self.api_key {
            Some(k) => Some(k@),
            None => None,
        }
    }

    /// A provider named `name` at `base_url`.
    pub fn new(name: &str, base_url: &str, api_key: Option<String>) -> (r: OpenAiCompatProvider)
        ensures
            r.name_spec() == name@,
            r.base_url_spec() == without_trailing_slashes(base_url@),
            r.api_key_spec() == match api_key {
                Some(k) => Some(k@),
                None => None::<Seq<char>>,
            },
    {
        OpenAiCompatProvider { name: owned(name), base_url: trim_slashes(base_url), api_key }
    }

    /// The provider's name.
    pub fn name(&self) -> (r: &str)
        ensures
            r@ == self.name_spec(),
    {
        self.name.as_str()
    }

    /// Where chat requests go.
    pub fn chat_url(&self) -> (r: String)
        ensures
            r@ == self.base_url_spec() + "/chat/completions"@,
    {
        let mut r = owned(self.base_url.as_str());
        push_all(&mut r, "/chat/completions");
        r
    }

    /// Where the model list comes from.
    pub fn models_url(&self) -> (r: String)
        ensures
            r@ == self.base_url_spec() + "/models"@,
    {
        let mut r = owned(self.base_url.as_str());
        push_all(&mut r, "/models");
        r
    }

    /// The `Authorization` header value, when there is a key.
    pub fn auth_header(&self) -> (r: Option<String>)
        ensures
            match self.api_key_spec() {
                Some(k) => r matches Some(h) && h@ == "Bearer "@ + k,
                None => r is None,
            },
    {
        match &self.api_key {
            Some(k) => {
                let mut h = owned("Bearer ");
                push_all(&mut h, k.as_str());
                Some(h)
            },
            None => None,
        }
    }

    /// The chat request body (see [`request_body`]).
    pub fn build_request(&self, model: &str, messages: &[Message], tools: Vec<FunctionSchema>, max_tokens: Option<u32>) -> (r: JsonValue)
        ensures
            request_json_is(r, model@, messages@, tools@, max_tokens),
    {
        request_body(model, messages, tools, max_tokens)
    }

    /// The models a `/models` reply lists, each as a tool-capable model of
    /// this provider with a 32768-token context; `unknown` stands for a
    /// missing id.
    pub fn models_from(&self, json: &JsonValue) -> (r: Vec<ModelInfo>)
        ensures
            r@.len() == listed_models(Some(*json)).len(),
            forall|i: int|
                0 <= i < r@.len() ==> model_is(
                    #[trigger] r@[i],
                    text_or_default(key_of(Some(listed_models(Some(*json))[i]), "id"@), "unknown"@),
                    self.name_spec(),
                    32768,
                ),
    {
        models_listed(Some(json), "unknown", self.name.as_str(), 32768)
    }
}

/// A provider for a model served on this machine (Ollama, llama.cpp).
pub struct LocalProvider {
    base_url: String,
}

/// The model a local server is assumed to offer when it lists none.
pub open spec fn default_local_model(m: ModelInfo) -> bool {
    model_is(m, "local-model"@, "local"@, 8192)
}

impl LocalProvider {
    /// The server's base address, without trailing slashes.
    pub closed spec fn base_url_spec(&self) -> Seq<char> {
        self.base_url@
    }

    /// A provider for the server at `base_url`.
    pub fn new(base_url: &str) -> (r: LocalProvider)
        ensures
            r.base_url_spec() == without_trailing_slashes(base_url@),
    {
        LocalProvider { base_url: trim_slashes(base_url) }
    }

    /// Ollama at its usual address.
    pub fn ollama() -> (r: LocalProvider)
        ensures
            r.base_url_spec() == without_trailing_slashes("http://localhost:11434/v1"@),
    {
        LocalProvider::new("http://localhost:11434/v1")
    }

    /// A llama.cpp server at its usual address.
    pub fn llama_cpp() -> (r: LocalProvider)
        ensures
            r.base_url_spec() == without_trailing_slashes("http://localhost:8080/v1"@),
    {
        LocalProvider::new("http://localhost:8080/v1")
    }

    /// The provider's name.
    pub fn name(&self) -> (r: &'static str)
        ensures
            r@ == "local"@,
    {
        "local"
    }

    /// Where the model list comes from.
    pub fn models_url(&self) -> (r: String)
        ensures
            r@ == self.base_url_spec() + "/models"@,
    {
        let mut r = owned(self.base_url.as_str());
        push_all(&mut r, "/models");
        r
    }

    /// The models the server offers: those its `/models` reply lists (each
    /// with an 8192-token context, `local-model` standing for a missing
    /// id), or the one default model when the request failed (`None`) or
    /// the reply lists none.
    pub fn models_from(&self, json: Option<&JsonValue>) -> (r: Vec<ModelInfo>)
        ensures
            listed_models(deref_opt(json)).len() == 0 ==> r@.len() == 1 && default_local_model(r@[0]),
            listed_models(deref_opt(json)).len() > 0 ==> {
                &&& r@.len() == listed_models(deref_opt(json)).len()
                &&& forall|i: int|
                    0 <= i < r@.len() ==> model_is(
                        #[trigger] r@[i],
                        text_or_default(key_of(Some(listed_models(deref_opt(json))[i]), "id"@), "local-model"@),
                        "local"@,
                        8192,
                    )
            },
    {
        let models = models_listed(json, "local-model", "local", 8192);
        if models.len() == 0 {
            let mut one: Vec<ModelInfo> = Vec::new();
            one.push(model_info(owned("local-model"), "local", 8192));
            one
        } else {
            models
        }
    }

    /// The OpenAI-compatible provider that carries this server's chats.
    pub fn chat_provider(&self) -> (r: OpenAiCompatProvider)
        ensures
            r.name_spec() == "local-compat"@,
            r.base_url_spec() == without_trailing_slashes(self.base_url_spec()),
            r.api_key_spec() is None,
    {
        OpenAiCompatProvider::new("local-compat", self.base_url.as_str(), None)
    }
}

// ── Anthropic ────────────────────────────────────────────────────────

/// The text a message carries, if any.
pub open spec fn message_text(m: Message) -> Option<Seq<char>> {
    match m.content {
        MessageContent::Text { content } => Some(content@),
        MessageContent::ToolCalls { content, .. } | MessageContent::AssistantWithTools { content, .. } => match content {
            Some(c) => Some(c@),
            None => None,
        },
    }
}

impl Message {
    /// The text the message carries, if any.
    pub fn text(&self) -> (r: Option<&str>)
        ensures
            match r {
                Some(t) => message_text(*self) == Some(t@),
                None => message_text(*self) is None,
            },
    {
        match &self.content {
            MessageContent::Text { content } => Some(content.as_str()),
            MessageContent::ToolCalls { content, .. } | MessageContent::AssistantWithTools { content, .. } => match content {
                Some(c) => Some(c.as_str()),
                None => None,
            },
        }
    }
}

/// A message's text, empty when it has none.
pub open spec fn text_or_empty(m: Message) -> Seq<char> {
    match message_text(m) {
        Some(t) => t,
        None => ""@,
    }
}

/// The texts of the system messages, in order.
pub open spec fn system_texts(ms: Seq<Message>) -> Seq<Seq<char>>
    decreases ms.len(),
{
    if ms.len() == 0 {
        seq![]
    } else if ms.last().role == Role::System {
        system_texts(ms.drop_last()).push(text_or_empty(ms.last()))
    } else {
        system_texts(ms.drop_last())
    }
}

/// The messages other than system messages, in order.
pub open spec fn turns(ms: Seq<Message>) -> Seq<Message>
    decreases ms.len(),
{
    if ms.len() == 0 {
        seq![]
    } else if ms.last().role == Role::System {
        turns(ms.drop_last())
    } else {
        turns(ms.drop_last()).push(ms.last())
    }
}

/// Texts joined with line breaks between them.
pub open spec fn join_lines(parts: Seq<Seq<char>>) -> Seq<char>
    decreases parts.len(),
{
    if parts.len() == 0 {
        seq![]
    } else if parts.len() == 1 {
        parts[0]
    } else {
        join_lines(parts.drop_last()) + "\n"@ + parts.last()
    }
}

/// The role Anthropic is told for a message: tool results go as the user.
pub open spec fn anthropic_role(r: Role) -> Seq<char> {
    match r {
        Role::Assistant => "assistant"@,
        _ => "user"@,
    }
}

/// `v` is the Anthropic form of the message `m`: its role and its text.
pub open spec fn turn_json_is(v: Option<JsonValue>, m: Message) -> bool {
    &&& member_names(v) == seq!["role"@, "content"@]
    &&& text_of(key_of(v, "role"@)) == Some(anthropic_role(m.role))
    &&& text_of(key_of(v, "content"@)) == Some(text_or_empty(m))
}

fn turn_json(m: &Message) -> (r: JsonValue)
    ensures
        turn_json_is(Some(r), *m),
{
    let role = match m.role {
        Role::Assistant => "assistant",
        _ => "user",
    };
    proof {
        reveal_strlit("");
    }
    let content = match m.text() {
        Some(t) => t,
        None => "",
    };
    let mut ms: Vec<(String, JsonValue)> = Vec::new();
    ms.push((owned("role"), text_json(role)));
    ms.push((owned("content"), text_json(content)));
    proof {
        lemma_keys_differ();
        lemma_member_at(ms@, 0, "role"@);
        lemma_member_at(ms@, 1, "content"@);
        assert(ms@.map_values(|x: (String, JsonValue)| x.0@) =~= seq!["role"@, "content"@]);
    }
    JsonValue::Object(ms)
}

/// Splits a conversation the way Anthropic takes it: the system messages'
/// texts joined by line breaks (none when that is empty), and the other
/// messages in order.
pub fn convert_messages(messages: &[Message]) -> (r: (Option<String>, Vec<JsonValue>))
    ensures
        ({
            let joined = join_lines(system_texts(messages@));
            match r.0 {
                Some(s) => s@ == joined && joined.len() > 0,
                None => joined.len() == 0,
            }
        }),
        r.1@.len() == turns(messages@).len(),
        forall|i: int| 0 <= i < r.1@.len() ==> turn_json_is(Some(#[trigger] r.1@[i]), turns(messages@)[i]),
{
    let mut system = String::new();
    let mut count: usize = 0;
    let mut out: Vec<JsonValue> = Vec::new();
    let mut i: usize = 0;
    proof {
        assert(messages@.take(0) =~= Seq::<Message>::empty());
    }
    while i < messages.len()
        invariant
            i <= messages@.len(),
            count == system_texts(messages@.take(i as int)).len(),
            system@ == join_lines(system_texts(messages@.take(i as int))),
            out@.len() == turns(messages@.take(i as int)).len(),
            forall|j: int| 0 <= j < out@.len() ==> turn_json_is(Some(#[trigger] out@[j]), turns(messages@.take(i as int))[j]),
            count <= i,
        decreases messages@.len() - i,
    {
        let m = &messages[i];
        let ghost pre = messages@.take(i as int);
        assert(messages@.take(i + 1).drop_last() =~= pre);
        assert(messages@.take(i + 1).last() == *m);
        if matches!(m.role, Role::System) {
            proof {
                reveal_strlit("");
            }
            let t = match m.text() {
                Some(t) => t,
                None => "",
            };
            if count > 0 {
                push_all(&mut system, "\n");
            }
            push_all(&mut system, t);
            count = count + 1;
            proof {
                let parts = system_texts(messages@.take(i + 1));
                assert(parts == system_texts(pre).push(text_or_empty(*m)));
                if parts.len() == 1 {
                    assert(system_texts(pre).len() == 0);
                    assert(join_lines(system_texts(pre)) =~= Seq::<char>::empty());
                    assert(system@ =~= parts[0]);
                } else {
                    assert(parts.drop_last() =~= system_texts(pre));
                }
            }
        } else {
            let ghost before = out@;
            out.push(turn_json(m));
            proof {
                assert(turns(messages@.take(i + 1)) == turns(pre).push(*m));
            }
        }
        i = i + 1;
    }
    proof {
        assert(messages@.take(messages@.len() as int) =~= messages@);
    }
    if count == 0 {
        assert(system_texts(messages@).len() == 0);
        (None, out)
    } else {
        let ghost joined = join_lines(system_texts(messages@));
        if str_eq(system.as_str(), "") {
            proof {
                reveal_strlit("");
            }
            (None, out)
        } else {
            proof {
                reveal_strlit("");
                if joined.len() == 0 {
                    assert(system@ =~= ""@);
                }
            }
            (Some(system), out)
        }
    }
}

/// The Anthropic API.
pub struct AnthropicProvider {
    api_key: String,
    base_url: String,
}

impl AnthropicProvider {
    /// The API key.
    pub closed spec fn api_key_spec(&self) -> Seq<char> {
        self.api_key@
    }

    /// The API's base address.
    pub closed spec fn base_url_spec(&self) -> Seq<char> {
        self.base_url@
    }

    /// A provider with `api_key` at the public API address.
    pub fn new(api_key: &str) -> (r: AnthropicProvider)
        ensures
            r.api_key_spec() == api_key@,
            r.base_url_spec() == "https://api.anthropic.com/v1"@,
    {
        AnthropicProvider { api_key: owned(api_key), base_url: owned("https://api.anthropic.com/v1") }
    }

    /// The provider's name.
    pub fn name(&self) -> (r: &'static str)
        ensures
            r@ == "anthropic"@,
    {
        "anthropic"
    }

    /// The API key, sent as `x-api-key`.
    pub fn api_key(&self) -> (r: &str)
        ensures
            r@ == self.api_key_spec(),
    {
        self.api_key.as_str()
    }

    /// Where messages are posted.
    pub fn messages_url(&self) -> (r: String)
        ensures
            r@ == self.base_url_spec() + "/messages"@,
    {
        let mut r = owned(self.base_url.as_str());
        push_all(&mut r, "/messages");
        r
    }

    /// The request body: the model, a 4096-token cap and the non-system
    /// messages. The joined system text is not sent.
    pub fn build_request(&self, model: &str, messages: &[Message]) -> (r: JsonValue)
        ensures
            member_names(Some(r)) == seq!["model"@, "max_tokens"@, "messages"@],
            text_of(key_of(Some(r), "model"@)) == Some(model@),
            key_of(Some(r), "max_tokens"@) matches Some(JsonValue::Number(t)) && t@ == dec(4096),
            key_of(Some(r), "messages"@) matches Some(JsonValue::Array(items)) && items@.len() == turns(messages@).len()
                && forall|i: int| 0 <= i < items@.len() ==> turn_json_is(Some(#[trigger] items@[i]), turns(messages@)[i]),
    {
        let (_system, turns_json) = convert_messages(messages);
        let mut ms: Vec<(String, JsonValue)> = Vec::new();
        ms.push((owned("model"), text_json(model)));
        ms.push((owned("max_tokens"), JsonValue::Number(u64_to_string(4096))));
        ms.push((owned("messages"), JsonValue::Array(turns_json)));
        proof {
            lemma_keys_differ();
            lemma_member_at(ms@, 0, "model"@);
            lemma_member_at(ms@, 1, "max_tokens"@);
            lemma_member_at(ms@, 2, "messages"@);
            assert(ms@.map_values(|x: (String, JsonValue)| x.0@) =~= seq!["model"@, "max_tokens"@, "messages"@]);
        }
        JsonValue::Object(ms)
    }

    /// What an Anthropic reply says: the text of its first content block
    /// (empty when there is none) as the assistant's message, its stop
    /// reason, and `model`; no usage is read.
    pub fn chat_reply(&self, json: &JsonValue, model: &str) -> (r: ChatResponse)
        ensures
            r.message.role == Role::Assistant,
            r.message.content matches MessageContent::Text { content } && content@ == text_or_default(
                key_of(at_index(key_of(Some(*json), "content"@), 0), "text"@),
                ""@,
            ),
            r.message.name is None && r.message.tool_call_id is None,
            r.usage == (TokenUsage { prompt_tokens: 0, completion_tokens: 0, total_tokens: 0 }),
            match r.finish_reason {
                Some(f) => text_of(key_of(Some(*json), "stop_reason"@)) == Some(f@),
                None => text_of(key_of(Some(*json), "stop_reason"@)) is None,
            },
            r.model@ == model@,
    {
        let text = text_or(get_key(get_index(get_key(Some(json), "content"), 0), "text"), "");
        ChatResponse {
            message: Message::assistant(text.as_str()),
            usage: TokenUsage { prompt_tokens: 0, completion_tokens: 0, total_tokens: 0 },
            finish_reason: get_text(get_key(Some(json), "stop_reason")),
            model: owned(model),
        }
    }
}

// ── conveniences over any provider ───────────────────────────────────

/// The conversation a one-shot completion sends: the system prompt, then
/// the user's message.
pub fn completion_messages(system_prompt: &str, user_message: &str) -> (r: Vec<Message>)
    ensures
        r@.len() == 2,
        r@[0].role == Role::System && message_text(r@[0]) == Some(system_prompt@),
        r@[1].role == Role::User && message_text(r@[1]) == Some(user_message@),
        r@[0].name is None && r@[0].tool_call_id is None,
        r@[1].name is None && r@[1].tool_call_id is None,
{
    let mut r: Vec<Message> = Vec::new();
    r.push(Message::system(system_prompt));
    r.push(Message::user(user_message));
    r
}

/// The text of an answer, empty when it carries none.
pub fn answer_text(response: &ChatResponse) -> (r: String)
    ensures
        r@ == text_or_empty(response.message),
{
    proof {
        reveal_strlit("");
    }
    match response.message.text() {
        Some(t) => owned(t),
        None => owned(""),
    }
}

/// The first model a provider lists, its default.
pub fn default_model(models: &[ModelInfo]) -> (r: Option<String>)
    ensures
        match r {
            Some(id) => models@.len() > 0 && id@ == models@[0].id@,
            None => models@.len() == 0,
        },
{
    if models.len() > 0 {
        Some(owned(models[0].id.as_str()))
    } else {
        None
    }
}

/// Whether a provider lists the model `model`.
pub fn model_available(models: &[ModelInfo], model: &str) -> (r: bool)
    ensures
        r == exists|i: int| 0 <= i < models@.len() && #[trigger] models@[i].id@ == model@,
{
    let mut i: usize = 0;
    while i < models.len()
        invariant
            i <= models@.len(),
            forall|j: int| 0 <= j < i ==> #[trigger] models@[j].id@ != model@,
        decreases models@.len() - i,
    {
        if str_eq(models[i].id.as_str(), model) {
            return true;
        }
        i = i + 1;
    }
    false
}

} // verus!
