//! State types of the terminal UI and the pure helpers it renders with:
//! panels, roles, stages, key bindings, progress bars and truncation.
use vstd::prelude::*;
use crate::text::{
    chars_of, idx_of, is_whitespace, is_ws, lemma_idx_of, owned, parse_u64, parse_u64_spec, push_all, push_char, slice_of,
    split_words, str_eq, string_of, trim, trim_chars, words,
};

verus! {

/// `std::time::Instant`, carried through UI state as an opaque value.
#[verifier::external_type_specification]
#[verifier::external_body]
pub struct ExInstant(std::time::Instant);

// ── panels ───────────────────────────────────────────────────────────

/// The numbered tabs of the UI.
#[derive(Debug, Clone, Copy, PartialEq, Eq)]
pub enum Panel {
    Chat,
    Agents,
    TaskGraph,
    Locks,
    Tools,
    Logs,
    History,
    Conflicts,
}

/// Position of a panel in tab order (0-based).
pub open spec fn panel_index(p: Panel) -> int {
    match p {
        Panel::Chat => 0,
        Panel::Agents => 1,
        Panel::TaskGraph => 2,
        Panel::Locks => 3,
        Panel::Tools => 4,
        Panel::Logs => 5,
        Panel::History => 6,
        Panel::Conflicts => 7,
    }
}

/// The panel at a position in tab order.
pub open spec fn panel_at(i: int) -> Panel {
    if i == 0 {
        Panel::Chat
    } else if i == 1 {
        Panel::Agents
    } else if i == 2 {
        Panel::TaskGraph
    } else if i == 3 {
        Panel::Locks
    } else if i == 4 {
        Panel::Tools
    } else if i == 5 {
        Panel::Logs
    } else if i == 6 {
        Panel::History
    } else {
        Panel::Conflicts
    }
}

impl Panel {
    /// All panels in tab order.
    pub const ALL: [Panel; 8] = [
        Panel::Chat,
        Panel::Agents,
        Panel::TaskGraph,
        Panel::Locks,
        Panel::Tools,
        Panel::Logs,
        Panel::History,
        Panel::Conflicts,
    ];

    /// The tab title.
    pub fn name(&self) -> (r: &'static str)
        ensures
            r@ == match *self {
                Panel::Chat => "Chat"@,
                Panel::Agents => "Agents"@,
                Panel::TaskGraph => "Task Graph"@,
                Panel::Locks => "Files/Locks"@,
                Panel::Tools => "Tools"@,
                Panel::Logs => "Logs/Audit"@,
                Panel::History => "History"@,
                Panel::Conflicts => "Conflicts"@,
            },
    {
        match self {
            Panel::Chat => "Chat",
            Panel::Agents => "Agents",
            Panel::TaskGraph => "Task Graph",
            Panel::Locks => "Files/Locks",
            Panel::Tools => "Tools",
            Panel::Logs => "Logs/Audit",
            Panel::History => "History",
            Panel::Conflicts => "Conflicts",
        }
    }

    /// The tab number (1-based), the key that selects it with Alt.
    pub fn number(&self) -> (r: usize)
        ensures
            r == panel_index(*self) + 1,
    {
        match self {
            Panel::Chat => 1,
            Panel::Agents => 2,
            Panel::TaskGraph => 3,
            Panel::Locks => 4,
            Panel::Tools => 5,
            Panel::Logs => 6,
            Panel::History => 7,
            Panel::Conflicts => 8,
        }
    }

    /// The next tab, wrapping around.
    pub fn next(&self) -> (r: Panel)
        ensures
            r == panel_at((panel_index(*self) + 1) % 8),
    {
        match self {
            Panel::Chat => Panel::Agents,
            Panel::Agents => Panel::TaskGraph,
            Panel::TaskGraph => Panel::Locks,
            Panel::Locks => Panel::Tools,
            Panel::Tools => Panel::Logs,
            Panel::Logs => Panel::History,
            Panel::History => Panel::Conflicts,
            Panel::Conflicts => Panel::Chat,
        }
    }

    /// The previous tab, wrapping around.
    pub fn prev(&self) -> (r: Panel)
        ensures
            r == panel_at((panel_index(*self) + 7) % 8),
    {
        match self {
            Panel::Chat => Panel::Conflicts,
            Panel::Agents => Panel::Chat,
            Panel::TaskGraph => Panel::Agents,
            Panel::Locks => Panel::TaskGraph,
            Panel::Tools => Panel::Locks,
            Panel::Logs => Panel::Tools,
            Panel::History => Panel::Logs,
            Panel::Conflicts => Panel::History,
        }
    }
}

/// Moving to the next tab and back returns to the same tab, and eight
/// steps in either direction go all the way round.
pub proof fn lemma_panel_cycle(p: Panel)
    ensures
        panel_at((panel_index(panel_at((panel_index(p) + 1) % 8)) + 7) % 8) == p,
        panel_at((panel_index(panel_at((panel_index(p) + 7) % 8)) + 1) % 8) == p,
        panel_at(panel_index(p)) == p,
        0 <= panel_index(p) < 8,
{
}

// ── messages and logs ────────────────────────────────────────────────

/// Who wrote a chat message.
#[derive(Debug, Clone, Copy, PartialEq, Eq)]
pub enum MessageRole {
    User,
    Agent,
    System,
}

/// A chat message.
#[derive(Debug)]
pub struct ChatMessage {
    pub role: MessageRole,
    pub content: String,
    pub timestamp: std::time::Instant,
    pub run_id: Option<String>,
}

/// Severity of a log entry.
#[derive(Debug, Clone, Copy, PartialEq, Eq)]
pub enum LogLevel {
    Trace,
    Debug,
    Info,
    Warn,
    Error,
}

impl LogLevel {
    /// The level's label.
    pub fn name(&self) -> (r: &'static str)
        ensures
            r@ == match *self {
                LogLevel::Trace => "TRACE"@,
                LogLevel::Debug => "DEBUG"@,
                LogLevel::Info => "INFO"@,
                LogLevel::Warn => "WARN"@,
                LogLevel::Error => "ERROR"@,
            },
    {
        match self {
            LogLevel::Trace => "TRACE",
            LogLevel::Debug => "DEBUG",
            LogLevel::Info => "INFO",
            LogLevel::Warn => "WARN",
            LogLevel::Error => "ERROR",
        }
    }
}

/// A log line.
#[derive(Debug)]
pub struct LogEntry {
    pub timestamp: std::time::Instant,
    pub level: LogLevel,
    pub source: String,
    pub message: String,
}

// ── orchestration snapshot ───────────────────────────────────────────

/// What the UI shows of the orchestration state.
#[derive(Debug, Clone, Default)]
pub struct OrchSnapshot {
    pub active_runs: Vec<RunInfo>,
    pub agents: Vec<AgentInfo>,
    pub locks: Vec<LockInfo>,
    pub write_queue: Vec<QueueInfo>,
    pub conflicts: Vec<ConflictInfo>,
    pub tool_calls: Vec<ToolCallInfo>,
    pub task_graph_nodes: Vec<GraphNode>,
    pub task_graph_edges: Vec<GraphEdge>,
}

impl OrchSnapshot {
    /// An empty snapshot.
    pub fn empty() -> (r: OrchSnapshot)
        ensures
            r.active_runs@.len() == 0,
            r.agents@.len() == 0,
            r.locks@.len() == 0,
            r.write_queue@.len() == 0,
            r.conflicts@.len() == 0,
            r.tool_calls@.len() == 0,
            r.task_graph_nodes@.len() == 0,
            r.task_graph_edges@.len() == 0,
    {
        OrchSnapshot {
            active_runs: Vec::new(),
            agents: Vec::new(),
            locks: Vec::new(),
            write_queue: Vec::new(),
            conflicts: Vec::new(),
            tool_calls: Vec::new(),
            task_graph_nodes: Vec::new(),
            task_graph_edges: Vec::new(),
        }
    }
}

/// A run of the orchestrator.
#[derive(Debug, Clone)]
pub struct RunInfo {
    pub run_id: String,
    pub goal: String,
    pub status: String,
    pub task_count: usize,
    pub done_count: usize,
    pub failed_count: usize,
}

/// An agent of a run.
#[derive(Debug, Clone)]
pub struct AgentInfo {
    pub agent_id: String,
    pub label: String,
    pub goal: String,
    pub phase: String,
    pub current_task: String,
    pub current_tool_call: Option<String>,
    pub read_files: Vec<String>,
    pub write_files: Vec<String>,
    pub held_locks: Vec<String>,
    pub queued_write_locks: Vec<String>,
    pub retry_count: u32,
    pub tool_calls: u64,
    pub progress_pct: u32,
    pub locked_file: Option<String>,
    pub last_update: String,
    pub last_error: Option<String>,
    pub stage: String,
    pub heartbeat: String,
    pub elapsed_secs: u64,
    pub last_event_age_secs: Option<u64>,
    pub blocked_reason: Option<String>,
}

/// A file lock.
#[derive(Debug, Clone)]
pub struct LockInfo {
    pub file_path: String,
    pub lock_type: String,
    pub holder: String,
    pub queued_waiters: usize,
}

/// A queued write-lock request.
#[derive(Debug, Clone)]
pub struct QueueInfo {
    pub file_path: String,
    pub position: usize,
    pub requester: String,
}

/// Two agents that want the same file.
#[derive(Debug, Clone)]
pub struct ConflictInfo {
    pub file_path: String,
    pub agent_a: String,
    pub agent_b: String,
}

/// A tool call made by an agent.
#[derive(Debug, Clone)]
pub struct ToolCallInfo {
    pub tool_name: String,
    pub agent_id: String,
    pub duration_ms: u64,
    pub success: bool,
    pub summary: String,
}

/// A node of the task graph.
#[derive(Debug, Clone)]
pub struct GraphNode {
    pub id: String,
    pub label: String,
    pub goal: String,
    pub status: String,
    pub agent_id: Option<String>,
    pub children: Vec<String>,
    pub depth: usize,
}

/// An edge of the task graph.
#[derive(Debug, Clone)]
pub struct GraphEdge {
    pub from: String,
    pub to: String,
    pub label: String,
}

/// A skill as the UI lists it.
#[derive(Debug, Clone)]
pub struct SkillDisplay {
    pub name: String,
    pub description: String,
    pub required_tools: Vec<String>,
    pub recommended_tools: Vec<String>,
}

/// A provider as the UI lists it.
#[derive(Debug, Clone)]
pub struct ProviderDisplay {
    pub name: String,
    pub provider_type: String,
    pub model: String,
    pub healthy: bool,
    pub fallback_order: usize,
}

/// A dangerous action waiting for the user's answer.
#[derive(Debug, Clone)]
pub enum PendingDangerAction {
    CancelActiveRun,
}

/// A request for approval.
#[derive(Debug, Clone)]
pub struct ApprovalRequest {
    pub title: String,
    pub details: String,
    pub action: PendingDangerAction,
}

/// What the UI knows of a running agent; times are milliseconds of the
/// UI's monotonic clock.
#[derive(Debug, Clone)]
pub struct LiveAgentStatus {
    pub agent_id: String,
    pub label: String,
    pub stage: String,
    pub detail: String,
    pub current_call: Option<String>,
    pub elapsed_ms: u64,
    pub first_seen_at: u64,
    pub last_event_at: u64,
    pub model_wait_notice_sent: bool,
}

/// Whether a run is going.
#[derive(Debug, Clone, Copy, PartialEq, Eq)]
pub enum RunMode {
    Idle,
    Running,
    Paused,
}

/// The mode as the status bar shows it.
pub fn mode_label(mode: RunMode) -> (r: &'static str)
    ensures
        r@ == match mode {
            RunMode::Idle => "IDLE"@,
            RunMode::Running => "RUNNING"@,
            RunMode::Paused => "PAUSED"@,
        },
{
    match mode {
        RunMode::Idle => "IDLE",
        RunMode::Running => "RUNNING",
        RunMode::Paused => "PAUSED",
    }
}

// ── palette ──────────────────────────────────────────────────────────

/// The colours of the interface.
#[derive(Debug, Clone, Copy, PartialEq, Eq)]
pub enum ThemeColor {
    Background,
    Surface,
    Foreground,
    Accent,
    Green,
    Yellow,
    Red,
    Muted,
    Dim,
    Cyan,
    Magenta,
}

impl ThemeColor {
    /// The colour's red, green and blue parts.
    pub fn rgb(self) -> (r: (u8, u8, u8))
        ensures
            r == match self {
                ThemeColor::Background => (22u8, 24u8, 38u8),
                ThemeColor::Surface => (30u8, 33u8, 48u8),
                ThemeColor::Foreground => (212u8, 216u8, 236u8),
                ThemeColor::Accent => (137u8, 180u8, 250u8),
                ThemeColor::Green => (166u8, 227u8, 161u8),
                ThemeColor::Yellow => (249u8, 226u8, 175u8),
                ThemeColor::Red => (243u8, 139u8, 168u8),
                ThemeColor::Muted => (88u8, 91u8, 112u8),
                ThemeColor::Dim => (49u8, 50u8, 68u8),
                ThemeColor::Cyan => (148u8, 226u8, 213u8),
                ThemeColor::Magenta => (203u8, 166u8, 247u8),
            },
    {
        match self {
            ThemeColor::Background => (22, 24, 38),
            ThemeColor::Surface => (30, 33, 48),
            ThemeColor::Foreground => (212, 216, 236),
            ThemeColor::Accent => (137, 180, 250),
            ThemeColor::Green => (166, 227, 161),
            ThemeColor::Yellow => (249, 226, 175),
            ThemeColor::Red => (243, 139, 168),
            ThemeColor::Muted => (88, 91, 112),
            ThemeColor::Dim => (49, 50, 68),
            ThemeColor::Cyan => (148, 226, 213),
            ThemeColor::Magenta => (203, 166, 247),
        }
    }
}

/// The mode as the status bar shows it, with its colour.
pub fn mode_str(mode: RunMode) -> (r: (&'static str, ThemeColor))
    ensures
        r.0@ == match mode {
            RunMode::Idle => "IDLE"@,
            RunMode::Running => "RUNNING"@,
            RunMode::Paused => "PAUSED"@,
        },
        r.1 == match mode {
            RunMode::Idle => ThemeColor::Muted,
            RunMode::Running => ThemeColor::Green,
            RunMode::Paused => ThemeColor::Yellow,
        },
{
    let color = match mode {
        RunMode::Idle => ThemeColor::Muted,
        RunMode::Running => ThemeColor::Green,
        RunMode::Paused => ThemeColor::Yellow,
    };
    (mode_label(mode), color)
}

/// The colour the UI draws an agent phase in.
pub open spec fn phase_color(phase: Seq<char>) -> ThemeColor {
    if phase == "running"@ || phase == "done"@ || phase == "complete"@ {
        ThemeColor::Green
    } else if phase == "planning"@ || phase == "decomposing"@ || phase == "spawning_agents"@
        || phase == "building"@ {
        ThemeColor::Accent
    } else if phase == "running_tool"@ {
        ThemeColor::Cyan
    } else if phase == "waiting_for_model"@ || phase == "approval_needed"@ || phase == "retrying"@
        || phase == "paused"@ || phase == "blocked"@ {
        ThemeColor::Yellow
    } else if phase == "failed"@ || phase == "cancelled"@ || phase == "canceled"@ {
        ThemeColor::Red
    } else {
        ThemeColor::Muted
    }
}

/// The marker and colour of an agent phase.
pub fn phase_icon(phase: &str) -> (r: (&'static str, ThemeColor))
    ensures
        r.0@ == phase_marker(phase@),
        r.1 == phase_color(phase@),
{
    let color = if str_eq(phase, "running") || str_eq(phase, "done") || str_eq(phase, "complete") {
        ThemeColor::Green
    } else if str_eq(phase, "planning") || str_eq(phase, "decomposing") || str_eq(phase, "spawning_agents")
        || str_eq(phase, "building") {
        ThemeColor::Accent
    } else if str_eq(phase, "running_tool") {
        ThemeColor::Cyan
    } else if str_eq(phase, "waiting_for_model") || str_eq(phase, "approval_needed") || str_eq(phase, "retrying")
        || str_eq(phase, "paused") || str_eq(phase, "blocked") {
        ThemeColor::Yellow
    } else if str_eq(phase, "failed") || str_eq(phase, "cancelled") || str_eq(phase, "canceled") {
        ThemeColor::Red
    } else {
        ThemeColor::Muted
    };
    (phase_icon_text(phase), color)
}

/// Text cut to fit a column (see [`truncated`]).
pub fn truncate(value: &str, width: usize) -> (r: String)
    ensures
        r@ == truncated(value@, width as nat),
{
    truncate_for_message(value, width)
}

// ── agent stages ─────────────────────────────────────────────────────

/// What an agent is doing.
#[derive(Debug, Clone, Copy, PartialEq, Eq)]
pub enum AgentStage {
    Planning,
    Decomposing,
    SpawningAgents,
    WaitingForModel,
    RunningTool,
    WaitingForLock,
    ApprovalNeeded,
    Retrying,
    Failed,
    Done,
    Paused,
    Cancelled,
}

/// The label of a stage.
pub open spec fn stage_label(s: AgentStage) -> Seq<char> {
    match s {
        AgentStage::Planning => "planning"@,
        AgentStage::Decomposing => "decomposing"@,
        AgentStage::SpawningAgents => "spawning_agents"@,
        AgentStage::WaitingForModel => "waiting_for_model"@,
        AgentStage::RunningTool => "running_tool"@,
        AgentStage::WaitingForLock => "waiting_for_lock"@,
        AgentStage::ApprovalNeeded => "approval_needed"@,
        AgentStage::Retrying => "retrying"@,
        AgentStage::Failed => "failed"@,
        AgentStage::Done => "done"@,
        AgentStage::Paused => "paused"@,
        AgentStage::Cancelled => "cancelled"@,
    }
}

impl AgentStage {
    /// The stage's label.
    pub fn label(self) -> (r: &'static str)
        ensures
            r@ == stage_label(self),
    {
        match self {
            AgentStage::Planning => "planning",
            AgentStage::Decomposing => "decomposing",
            AgentStage::SpawningAgents => "spawning_agents",
            AgentStage::WaitingForModel => "waiting_for_model",
            AgentStage::RunningTool => "running_tool",
            AgentStage::WaitingForLock => "waiting_for_lock",
            AgentStage::ApprovalNeeded => "approval_needed",
            AgentStage::Retrying => "retrying",
            AgentStage::Failed => "failed",
            AgentStage::Done => "done",
            AgentStage::Paused => "paused",
            AgentStage::Cancelled => "cancelled",
        }
    }
}

/// Progress percentage shown for an agent phase.
pub open spec fn phase_progress(phase: Seq<char>) -> u32 {
    if phase == "queued"@ {
        0
    } else if phase == "decomposing"@ {
        5
    } else if phase == "spawning_agents"@ || phase == "waiting_for_lock"@ || phase
        == "approval_needed"@ {
        10
    } else if phase == "blocked"@ {
        20
    } else if phase == "planning"@ {
        25
    } else if phase == "waiting_for_model"@ {
        45
    } else if phase == "running_tool"@ {
        60
    } else if phase == "retrying"@ {
        65
    } else if phase == "running"@ {
        50
    } else if phase == "reviewing"@ {
        90
    } else if phase == "done"@ || phase == "failed"@ || phase == "cancelled"@ {
        100
    } else {
        0
    }
}

/// Progress percentage shown for an agent phase.
pub fn progress_for_phase(phase: &str) -> (r: u32)
    ensures
        r == phase_progress(phase@),
{
    if str_eq(phase, "queued") {
        0
    } else if str_eq(phase, "decomposing") {
        5
    } else if str_eq(phase, "spawning_agents") || str_eq(phase, "waiting_for_lock") || str_eq(
        phase,
        "approval_needed",
    ) {
        10
    } else if str_eq(phase, "blocked") {
        20
    } else if str_eq(phase, "planning") {
        25
    } else if str_eq(phase, "waiting_for_model") {
        45
    } else if str_eq(phase, "running_tool") {
        60
    } else if str_eq(phase, "retrying") {
        65
    } else if str_eq(phase, "running") {
        50
    } else if str_eq(phase, "reviewing") {
        90
    } else if str_eq(phase, "done") || str_eq(phase, "failed") || str_eq(phase, "cancelled") {
        100
    } else {
        0
    }
}

/// The ASCII marker the UI draws for an agent phase.
pub open spec fn phase_marker(phase: Seq<char>) -> Seq<char> {
    if phase == "running"@ {
        "[>]"@
    } else if phase == "planning"@ || phase == "decomposing"@ || phase == "spawning_agents"@ {
        "[*]"@
    } else if phase == "waiting_for_model"@ {
        "[M]"@
    } else if phase == "running_tool"@ {
        "[T]"@
    } else if phase == "approval_needed"@ {
        "[A]"@
    } else if phase == "retrying"@ {
        "[R]"@
    } else if phase == "done"@ || phase == "complete"@ {
        "[v]"@
    } else if phase == "failed"@ {
        "[X]"@
    } else if phase == "paused"@ {
        "[||]"@
    } else if phase == "cancelled"@ || phase == "canceled"@ {
        "[=]"@
    } else if phase == "queued"@ || phase == "pending"@ {
        "[.]"@
    } else if phase == "blocked"@ {
        "[B]"@
    } else if phase == "building"@ {
        "[*]"@
    } else {
        "[?]"@
    }
}

/// The ASCII marker the UI draws for an agent phase.
pub fn phase_icon_text(phase: &str) -> (r: &'static str)
    ensures
        r@ == phase_marker(phase@),
{
    if str_eq(phase, "running") {
        "[>]"
    } else if str_eq(phase, "planning") || str_eq(phase, "decomposing") || str_eq(
        phase,
        "spawning_agents",
    ) {
        "[*]"
    } else if str_eq(phase, "waiting_for_model") {
        "[M]"
    } else if str_eq(phase, "running_tool") {
        "[T]"
    } else if str_eq(phase, "approval_needed") {
        "[A]"
    } else if str_eq(phase, "retrying") {
        "[R]"
    } else if str_eq(phase, "done") || str_eq(phase, "complete") {
        "[v]"
    } else if str_eq(phase, "failed") {
        "[X]"
    } else if str_eq(phase, "paused") {
        "[||]"
    } else if str_eq(phase, "cancelled") || str_eq(phase, "canceled") {
        "[=]"
    } else if str_eq(phase, "queued") || str_eq(phase, "pending") {
        "[.]"
    } else if str_eq(phase, "blocked") {
        "[B]"
    } else if str_eq(phase, "building") {
        "[*]"
    } else {
        "[?]"
    }
}

// ── text helpers ─────────────────────────────────────────────────────

/// A progress bar `[====    ]` of `width` cells with `pct` percent filled.
pub open spec fn progress_bar(pct: nat, width: nat) -> Seq<char> {
    let filled = if pct * width / 100 < width { pct * width / 100 } else { width };
    seq!['['] + Seq::new(filled, |i: int| '=') + Seq::new((width - filled) as nat, |i: int| ' ')
        + seq![']']
}

/// Renders a progress bar.
pub fn make_progress_bar(pct: u32, width: usize) -> (r: String)
    requires
        pct as int * width as int <= usize::MAX,
    ensures
        r@ == progress_bar(pct as nat, width as nat),
{
    let prod: usize = pct as usize * width;
    let q = prod / 100;
    let filled = if q < width { q } else { width };
    let mut s = String::new();
    push_char(&mut s, '[');
    let mut i: usize = 0;
    while i < filled
        invariant
            i <= filled,
            s@ == seq!['['] + Seq::new(i as nat, |k: int| '='),
        decreases filled - i,
    {
        push_char(&mut s, '=');
        i = i + 1;
        assert(s@ =~= seq!['['] + Seq::new(i as nat, |k: int| '='));
    }
    let mut j: usize = 0;
    while j < width - filled
        invariant
            filled <= width,
            j <= width - filled,
            s@ == seq!['['] + Seq::new(filled as nat, |k: int| '=') + Seq::new(
                j as nat,
                |k: int| ' ',
            ),
        decreases width - filled - j,
    {
        push_char(&mut s, ' ');
        j = j + 1;
        assert(s@ =~= seq!['['] + Seq::new(filled as nat, |k: int| '=') + Seq::new(
            j as nat,
            |k: int| ' ',
        ));
    }
    push_char(&mut s, ']');
    s
}

/// `value` cut to `width` characters; when it is longer and `width > 3`,
/// cut to `width - 3` characters followed by `...`.
pub open spec fn truncated(value: Seq<char>, width: nat) -> Seq<char> {
    if value.len() > width && width > 3 {
        value.take(width - 3) + "..."@
    } else if value.len() > width {
        value.take(width as int)
    } else {
        value
    }
}

/// Cuts text for display (see [`truncated`]).
pub fn truncate_for_message(value: &str, width: usize) -> (r: String)
    ensures
        r@ == truncated(value@, width as nat),
{
    proof {
        reveal_strlit("...");
    }
    let cs = chars_of(value);
    if cs.len() > width && width > 3 {
        let mut s = string_of(crate::text::slice_of(cs.as_slice(), 0, width - 3).as_slice());
        push_char(&mut s, '.');
        push_char(&mut s, '.');
        push_char(&mut s, '.');
        assert(s@ =~= value@.take(width - 3) + "..."@);
        s
    } else if cs.len() > width {
        let s = string_of(crate::text::slice_of(cs.as_slice(), 0, width).as_slice());
        assert(s@ =~= value@.take(width as int));
        s
    } else {
        owned(value)
    }
}

/// The first eight characters of an id.
pub fn short_id(id: &str) -> (r: String)
    ensures
        r@ == if id@.len() > 8 { id@.take(8) } else { id@ },
{
    let cs = chars_of(id);
    if cs.len() > 8 {
        let s = string_of(crate::text::slice_of(cs.as_slice(), 0, 8).as_slice());
        assert(s@ =~= id@.take(8));
        s
    } else {
        owned(id)
    }
}

/// The spinner character for an elapsed time: it turns every 250 ms.
pub open spec fn spinner_char(elapsed_ms: nat) -> Seq<char> {
    let k = (elapsed_ms / 250) % 4;
    if k == 0 {
        "|"@
    } else if k == 1 {
        "/"@
    } else if k == 2 {
        "-"@
    } else {
        "\\"@
    }
}

/// The spinner frame for an elapsed time in milliseconds.
pub fn spinner_frame(elapsed_ms: u128) -> (r: &'static str)
    ensures
        r@ == spinner_char(elapsed_ms as nat),
{
    let k = (elapsed_ms / 250) % 4;
    if k == 0 {
        "|"
    } else if k == 1 {
        "/"
    } else if k == 2 {
        "-"
    } else {
        "\\"
    }
}

// ── key bindings ─────────────────────────────────────────────────────

/// Modifier bits as crossterm numbers them.
pub const SHIFT: u8 = 1u8;

/// The Control modifier bit.
pub const CONTROL: u8 = 2u8;

/// The Alt modifier bit.
pub const ALT: u8 = 4u8;

/// A key without its modifiers.
#[derive(Debug, Clone, Copy, PartialEq, Eq)]
pub enum KeyCode {
    Char(char),
    Enter,
    Backspace,
    Delete,
    Left,
    Right,
    Home,
    End,
    Tab,
    BackTab,
    Up,
    Down,
    PageUp,
    PageDown,
    Esc,
    Other,
}

/// What the UI does in answer to input.
#[derive(Debug, Clone, PartialEq, Eq)]
pub enum Action {
    Submit,
    NextPanel,
    PrevPanel,
    FocusPanel(Panel),
    ScrollUp,
    ScrollDown,
    ToggleHelp,
    ToggleSearch,
    CancelSearch,
    Quit,
    Tick,
    InsertChar(char),
    InsertNewline,
    DeletePrev,
    DeleteNext,
    MoveCursorLeft,
    MoveCursorRight,
    MoveCursorHome,
    MoveCursorEnd,
    RefreshOrch,
}

/// The action bound to a key with the given modifier bits.
pub open spec fn key_binding(code: KeyCode, modifiers: u8) -> Option<Action> {
    if modifiers == CONTROL {
        match code {
            KeyCode::Char('d') => Some(Action::Quit),
            KeyCode::Char('f') => Some(Action::ToggleSearch),
            _ => None,
        }
    } else if modifiers == ALT {
        match code {
            KeyCode::Char(c) => if '1' <= c && c <= '8' {
                Some(Action::FocusPanel(panel_at((c as int) - ('1' as int))))
            } else {
                None
            },
            _ => None,
        }
    } else if code == KeyCode::Enter && (modifiers & (SHIFT | ALT)) != 0 {
        Some(Action::InsertNewline)
    } else {
        match code {
            KeyCode::Enter => Some(Action::Submit),
            KeyCode::Char('?') => Some(Action::ToggleHelp),
            KeyCode::Char(c) => Some(Action::InsertChar(c)),
            KeyCode::Backspace => Some(Action::DeletePrev),
            KeyCode::Delete => Some(Action::DeleteNext),
            KeyCode::Left => Some(Action::MoveCursorLeft),
            KeyCode::Right => Some(Action::MoveCursorRight),
            KeyCode::Home => Some(Action::MoveCursorHome),
            KeyCode::End => Some(Action::MoveCursorEnd),
            KeyCode::Tab => Some(Action::NextPanel),
            KeyCode::BackTab => Some(Action::PrevPanel),
            KeyCode::Up | KeyCode::PageUp => Some(Action::ScrollUp),
            KeyCode::Down | KeyCode::PageDown => Some(Action::ScrollDown),
            KeyCode::Esc => Some(Action::CancelSearch),
            KeyCode::Other => None,
        }
    }
}

/// The action bound to a key press.
pub fn handle_key(code: KeyCode, modifiers: u8) -> (r: Option<Action>)
    ensures
        r == key_binding(code, modifiers),
{
    if modifiers == CONTROL {
        return match code {
            KeyCode::Char('d') => Some(Action::Quit),
            KeyCode::Char('f') => Some(Action::ToggleSearch),
            _ => None,
        };
    }
    if modifiers == ALT {
        return match code {
            KeyCode::Char('1') => Some(Action::FocusPanel(Panel::Chat)),
            KeyCode::Char('2') => Some(Action::FocusPanel(Panel::Agents)),
            KeyCode::Char('3') => Some(Action::FocusPanel(Panel::TaskGraph)),
            KeyCode::Char('4') => Some(Action::FocusPanel(Panel::Locks)),
            KeyCode::Char('5') => Some(Action::FocusPanel(Panel::Tools)),
            KeyCode::Char('6') => Some(Action::FocusPanel(Panel::Logs)),
            KeyCode::Char('7') => Some(Action::FocusPanel(Panel::History)),
            KeyCode::Char('8') => Some(Action::FocusPanel(Panel::Conflicts)),
            _ => None,
        };
    }
    if matches!(code, KeyCode::Enter) && (modifiers & (SHIFT | ALT)) != 0 {
        return Some(Action::InsertNewline);
    }
    match code {
        KeyCode::Enter => Some(Action::Submit),
        KeyCode::Char('?') => Some(Action::ToggleHelp),
        KeyCode::Char(c) => Some(Action::InsertChar(c)),
        KeyCode::Backspace => Some(Action::DeletePrev),
        KeyCode::Delete => Some(Action::DeleteNext),
        KeyCode::Left => Some(Action::MoveCursorLeft),
        KeyCode::Right => Some(Action::MoveCursorRight),
        KeyCode::Home => Some(Action::MoveCursorHome),
        KeyCode::End => Some(Action::MoveCursorEnd),
        KeyCode::Tab => Some(Action::NextPanel),
        KeyCode::BackTab => Some(Action::PrevPanel),
        KeyCode::Up | KeyCode::PageUp => Some(Action::ScrollUp),
        KeyCode::Down | KeyCode::PageDown => Some(Action::ScrollDown),
        KeyCode::Esc => Some(Action::CancelSearch),
        KeyCode::Other => None,
    }
}


// ── runner control ───────────────────────────────────────────────────

/// What the UI asks of a running orchestration.
#[derive(Debug, Clone, PartialEq, Eq)]
pub enum RunnerCommand {
    Pause,
    Resume,
    Cancel,
    Redirect(String),
    Reprioritise { agent_id_prefix: String, priority: u32 },
}

/// What a running orchestration tells the UI.
#[derive(Debug, Clone, PartialEq, Eq)]
pub enum RunnerEvent {
    RunStage { run_id: String, stage: AgentStage, detail: String, elapsed_ms: u64 },
    RunStarted { run_id: String, goal: String, task_count: usize },
    AgentQueued { agent_id: String, label: String, reason: String },
    AgentStarted { agent_id: String, label: String, task: String },
    AgentStage { agent_id: String, label: String, stage: AgentStage, detail: String, elapsed_ms: u64 },
    AgentFinished { agent_id: String, label: String, success: bool, summary: String },
    RunPaused { run_id: String },
    RunResumed { run_id: String },
    RunRedirected { run_id: String, message: String },
    RunCancelled { run_id: String },
    RunFinished { run_id: String, success: bool, summary: String },
    Reprioritised { agent_id: String, priority: u32 },
    Error { message: String },
}

/// What a line typed into the UI asks for.
#[derive(Debug, Clone, PartialEq, Eq)]
pub enum ControlInput {
    /// Not a `/` command: a goal or a follow-up message.
    NotCommand,
    /// Send this command to the active run.
    Send(RunnerCommand),
    /// Cancelling needs the user's approval first.
    AskCancel,
    /// Show the help.
    Help,
    /// Explain the right usage, or why the input was refused.
    Usage(String),
    /// A command the UI does not know.
    Unknown,
}

/// ASCII letters lowered, everything else kept.
pub open spec fn ascii_lower(s: Seq<char>) -> Seq<char> {
    s.map_values(|c: char| lower_ascii(c))
}

/// An ASCII capital lowered; any other character kept.
pub open spec fn lower_ascii(c: char) -> char {
    if 'A' <= c && c <= 'Z' {
        (((c as u8) + 32) as u8) as char
    } else {
        c
    }
}

fn lower_char(c: char) -> (r: char)
    ensures
        r == lower_ascii(c),
{
    if 'A' <= c && c <= 'Z' {
        let b: u8 = (c as u8) + 32;
        b as char
    } else {
        c
    }
}

fn ascii_lower_chars(cs: &[char]) -> (r: Vec<char>)
    ensures
        r@ == ascii_lower(cs@),
{
    let mut out: Vec<char> = Vec::new();
    let mut i: usize = 0;
    while i < cs.len()
        invariant
            i <= cs@.len(),
            out@ == ascii_lower(cs@.take(i as int)),
        decreases cs@.len() - i,
    {
        out.push(lower_char(cs[i]));
        i = i + 1;
        assert(out@ =~= ascii_lower(cs@.take(i as int)));
    }
    assert(cs@.take(i as int) =~= cs@);
    out
}

/// Index of the first whitespace character, or the length.
pub open spec fn first_ws(s: Seq<char>) -> int
    decreases s.len(),
{
    if s.len() == 0 {
        0
    } else if is_ws(s[0]) {
        0
    } else {
        1 + first_ws(s.drop_first())
    }
}

proof fn lemma_first_ws(s: Seq<char>)
    ensures
        0 <= first_ws(s) <= s.len(),
        forall|k: int| 0 <= k < first_ws(s) ==> !is_ws(#[trigger] s[k]),
        first_ws(s) < s.len() ==> is_ws(s[first_ws(s)]),
    decreases s.len(),
{
    if s.len() > 0 && !is_ws(s[0]) {
        lemma_first_ws(s.drop_first());
        assert forall|k: int| 0 <= k < first_ws(s) implies !is_ws(#[trigger] s[k]) by {
            if k > 0 {
                assert(s[k] == s.drop_first()[k - 1]);
            }
        }
    }
}

/// `u32` parsing as `str::parse::<u32>` does it.
pub open spec fn parse_u32_spec(s: Seq<char>) -> Option<u32> {
    match parse_u64_spec(s) {
        Some(v) => if v <= u32::MAX { Some(v as u32) } else { None },
        None => None,
    }
}

/// The command a trimmed input names: the word after `/`, lowered.
pub open spec fn command_name(body: Seq<char>) -> Seq<char> {
    ascii_lower(body.take(first_ws(body)))
}

/// What follows the command name, trimmed.
pub open spec fn command_rest(body: Seq<char>) -> Seq<char> {
    if first_ws(body) < body.len() {
        trim(body.skip(first_ws(body) + 1))
    } else {
        seq![]
    }
}

/// What a typed line asks for.
pub open spec fn control_of(input: Seq<char>) -> ControlInputModel {
    let t = trim(input);
    if !(t.len() > 0 && t[0] == '/') {
        ControlInputModel::NotCommand
    } else {
        let body = t.drop_first();
        let name = command_name(body);
        let rest = command_rest(body);
        if name == "pause"@ {
            ControlInputModel::Pause
        } else if name == "resume"@ {
            ControlInputModel::Resume
        } else if name == "cancel"@ {
            ControlInputModel::AskCancel
        } else if name == "redirect"@ {
            if rest.len() == 0 {
                ControlInputModel::Usage("Usage: /redirect <new instruction>"@)
            } else {
                ControlInputModel::Redirect(rest)
            }
        } else if name == "prio"@ || name == "priority"@ || name == "reprioritise"@ || name
            == "reprioritize"@ {
            let args = words(rest);
            if args.len() != 2 {
                ControlInputModel::Usage("Usage: /prio <agent-id-prefix> <priority>"@)
            } else {
                match parse_u32_spec(args[1]) {
                    Some(p) => ControlInputModel::Reprioritise(args[0], p),
                    None => ControlInputModel::Usage("Priority must be a number."@),
                }
            }
        } else if name == "help"@ {
            ControlInputModel::Help
        } else {
            ControlInputModel::Unknown
        }
    }
}

/// Model of a [`ControlInput`].
pub enum ControlInputModel {
    NotCommand,
    Pause,
    Resume,
    AskCancel,
    Redirect(Seq<char>),
    Reprioritise(Seq<char>, u32),
    Help,
    Usage(Seq<char>),
    Unknown,
}

/// The model of a parsed control input.
pub open spec fn control_view(c: ControlInput) -> ControlInputModel {
    match c {
        ControlInput::NotCommand => ControlInputModel::NotCommand,
        ControlInput::Send(RunnerCommand::Pause) => ControlInputModel::Pause,
        ControlInput::Send(RunnerCommand::Resume) => ControlInputModel::Resume,
        ControlInput::Send(RunnerCommand::Cancel) => ControlInputModel::Unknown,
        ControlInput::Send(RunnerCommand::Redirect(m)) => ControlInputModel::Redirect(m@),
        ControlInput::Send(RunnerCommand::Reprioritise { agent_id_prefix, priority }) => ControlInputModel::Reprioritise(
            agent_id_prefix@,
            priority,
        ),
        ControlInput::AskCancel => ControlInputModel::AskCancel,
        ControlInput::Help => ControlInputModel::Help,
        ControlInput::Usage(m) => ControlInputModel::Usage(m@),
        ControlInput::Unknown => ControlInputModel::Unknown,
    }
}

fn parse_u32(s: &[char]) -> (r: Option<u32>)
    ensures
        r == parse_u32_spec(s@),
{
    let text = string_of(s);
    match parse_u64(text.as_str()) {
        Some(v) => if v <= 4294967295u64 {
            Some(v as u32)
        } else {
            None
        },
        None => None,
    }
}

fn chars_eq(a: &[char], b: &str) -> (r: bool)
    ensures
        r == (a@ == b@),
{
    let bs = chars_of(b);
    crate::text::seq_eq(a, bs.as_slice())
}

/// Reads a line typed into the UI: a `/` command (its name matched
/// without regard to ASCII case) or anything else.
pub fn parse_control_input(input: &str) -> (r: ControlInput)
    ensures
        control_view(r) == control_of(input@),
        r != ControlInput::Send(RunnerCommand::Cancel),
{
    proof {
        reveal_strlit("/");
    }
    let cs = chars_of(input);
    let t = trim_chars(cs.as_slice());
    if !(t.len() > 0 && t[0] == '/') {
        return ControlInput::NotCommand;
    }
    let body = slice_of(t.as_slice(), 1, t.len());
    assert(body@ =~= trim(input@).drop_first());
    proof {
        lemma_first_ws(body@);
    }
    let mut k: usize = 0;
    while k < body.len() && !is_whitespace(body[k])
        invariant
            k <= body@.len(),
            k <= first_ws(body@),
            0 <= first_ws(body@) <= body@.len(),
            forall|x: int| 0 <= x < first_ws(body@) ==> !is_ws(#[trigger] body@[x]),
            first_ws(body@) < body@.len() ==> is_ws(body@[first_ws(body@)]),
        decreases body@.len() - k,
    {
        k = k + 1;
    }
    assert(k == first_ws(body@));
    let head = slice_of(body.as_slice(), 0, k);
    let name = ascii_lower_chars(head.as_slice());
    assert(name@ == command_name(body@));
    let rest = if k < body.len() {
        let tail = slice_of(body.as_slice(), k + 1, body.len());
        trim_chars(tail.as_slice())
    } else {
        Vec::new()
    };
    assert(rest@ =~= command_rest(body@));
    if chars_eq(name.as_slice(), "pause") {
        ControlInput::Send(RunnerCommand::Pause)
    } else if chars_eq(name.as_slice(), "resume") {
        ControlInput::Send(RunnerCommand::Resume)
    } else if chars_eq(name.as_slice(), "cancel") {
        ControlInput::AskCancel
    } else if chars_eq(name.as_slice(), "redirect") {
        if rest.len() == 0 {
            ControlInput::Usage(owned("Usage: /redirect <new instruction>"))
        } else {
            ControlInput::Send(RunnerCommand::Redirect(string_of(rest.as_slice())))
        }
    } else if chars_eq(name.as_slice(), "prio") || chars_eq(name.as_slice(), "priority") || chars_eq(
        name.as_slice(),
        "reprioritise",
    ) || chars_eq(name.as_slice(), "reprioritize") {
        let args = split_words(rest.as_slice());
        assert(args@.len() == words(rest@).len());
        if args.len() != 2 {
            ControlInput::Usage(owned("Usage: /prio <agent-id-prefix> <priority>"))
        } else {
            assert(args@[1]@ == words(rest@)[1]);
            assert(args@[0]@ == words(rest@)[0]);
            match parse_u32(args[1].as_slice()) {
                Some(p) => ControlInput::Send(
                    RunnerCommand::Reprioritise {
                        agent_id_prefix: string_of(args[0].as_slice()),
                        priority: p,
                    },
                ),
                None => ControlInput::Usage(owned("Priority must be a number.")),
            }
        }
    } else if chars_eq(name.as_slice(), "help") {
        ControlInput::Help
    } else {
        ControlInput::Unknown
    }
}

} // verus!
