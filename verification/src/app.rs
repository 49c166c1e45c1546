//! The terminal UI's application state and how it reacts to the user's
//! actions, to what the user submits, and to the events of a running
//! orchestration.
//!
//! The input line is edited at a byte offset, as `String` indexes it; the
//! specifications speak of characters and relate the offset to them
//! through the UTF-8 width of each character. Time is handed in as
//! milliseconds of a monotonic clock.
use vstd::prelude::*;
use vstd::string::StringSliceAdditionalSpecFns;
use crate::text::{
    chars_of, dec, owned, push_all, str_eq, str_less, str_lt, string_of, trim, trim_str, u64_to_string, views,
};
use crate::tui::{
    panel_at, panel_index, phase_progress, progress_for_phase, short_id, spinner_char, spinner_frame, stage_label,
    truncate_for_message, truncated, parse_control_input, control_of, control_view, Action, AgentInfo,
    ControlInput, ControlInputModel, PendingDangerAction, RunnerCommand, RunnerEvent, AgentStage, ApprovalRequest, ChatMessage, LiveAgentStatus, LogEntry, LogLevel, MessageRole,
    OrchSnapshot, Panel, ProviderDisplay, RunMode, SkillDisplay, key_binding, KeyCode, ALT, CONTROL,
};

verus! {

broadcast use vstd::utf8::char_is_scalar;

// ── UTF-8 widths ─────────────────────────────────────────────────────

/// How many bytes UTF-8 spends on `c`.
pub open spec fn char_width(c: char) -> nat {
    if (c as u32) < 0x80 {
        1
    } else if (c as u32) < 0x800 {
        2
    } else if (c as u32) < 0x10000 {
        3
    } else {
        4
    }
}

/// How many bytes UTF-8 spends on `s`.
pub open spec fn utf8_len(s: Seq<char>) -> nat
    decreases s.len(),
{
    if s.len() == 0 {
        0
    } else {
        char_width(s[0]) + utf8_len(s.drop_first())
    }
}

/// How many whole characters of `s` fit in its first `b` bytes.
pub open spec fn char_pos(s: Seq<char>, b: int) -> nat
    decreases s.len(),
{
    if s.len() == 0 || b < char_width(s[0]) {
        0
    } else {
        1 + char_pos(s.drop_first(), b - char_width(s[0]))
    }
}

/// Whether byte offset `b` of `s` falls between two characters.
pub open spec fn on_boundary(s: Seq<char>, b: int) -> bool {
    b == utf8_len(s.take(char_pos(s, b) as int))
}

/// The byte count of a concatenation is the sum of the byte counts.
pub proof fn lemma_utf8_len_concat(a: Seq<char>, b: Seq<char>)
    ensures
        utf8_len(a + b) == utf8_len(a) + utf8_len(b),
    decreases a.len(),
{
    if a.len() == 0 {
        assert(a + b =~= b);
    } else {
        assert((a + b).drop_first() =~= a.drop_first() + b);
        lemma_utf8_len_concat(a.drop_first(), b);
    }
}

/// `str::len` counts the bytes that [`utf8_len`] counts.
pub proof fn lemma_utf8_len_is_byte_len(s: Seq<char>)
    ensures
        utf8_len(s) == vstd::utf8::encode_utf8(s).len(),
    decreases s.len(),
{
    if s.len() > 0 {
        let v = s[0] as u32;
        vstd::utf8::char_is_scalar(s[0]);
        assert(vstd::utf8::is_scalar(v));
        assert(vstd::utf8::encode_scalar(v).len() == char_width(s[0]));
        lemma_utf8_len_is_byte_len(s.drop_first());
    }
}

/// The byte count of a prefix one character longer.
pub proof fn lemma_utf8_len_take_step(s: Seq<char>, k: int)
    requires
        0 <= k < s.len(),
    ensures
        utf8_len(s.take(k + 1)) == utf8_len(s.take(k)) + char_width(s[k]),
{
    assert(s.take(k + 1) =~= s.take(k) + seq![s[k]]);
    lemma_utf8_len_concat(s.take(k), seq![s[k]]);
    assert(seq![s[k]].drop_first() =~= Seq::<char>::empty());
    assert(seq![s[k]][0] == s[k]);
    assert(utf8_len(Seq::<char>::empty()) == 0);
    assert(utf8_len(seq![s[k]]) == char_width(s[k]) + utf8_len(seq![s[k]].drop_first()));
}

/// Prefix byte counts grow with the prefix and reach the whole count.
pub proof fn lemma_utf8_len_take_mono(s: Seq<char>, j: int, k: int)
    requires
        0 <= j <= k <= s.len(),
    ensures
        utf8_len(s.take(j)) <= utf8_len(s.take(k)),
        j < k ==> utf8_len(s.take(j)) < utf8_len(s.take(k)),
    decreases k - j,
{
    if j < k {
        lemma_utf8_len_take_step(s, k - 1);
        lemma_utf8_len_take_mono(s, j, k - 1);
    }
}

/// The character position of a prefix's byte count is the prefix length.
pub proof fn lemma_char_pos_of_prefix(s: Seq<char>, j: int)
    requires
        0 <= j <= s.len(),
    ensures
        char_pos(s, utf8_len(s.take(j)) as int) == j,
        on_boundary(s, utf8_len(s.take(j)) as int),
    decreases j,
{
    if j == 0 {
        assert(s.take(0) =~= Seq::<char>::empty());
    } else {
        let t = s.drop_first();
        assert(s.take(j).drop_first() =~= t.take(j - 1));
        assert(s.take(j)[0] == s[0]);
        lemma_char_pos_of_prefix(t, j - 1);
    }
}

/// `char_pos` never passes the end.
pub proof fn lemma_char_pos_bound(s: Seq<char>, b: int)
    ensures
        char_pos(s, b) <= s.len(),
    decreases s.len(),
{
    if s.len() > 0 && b >= char_width(s[0]) {
        lemma_char_pos_bound(s.drop_first(), b - char_width(s[0]));
    }
}

/// `char::len_utf8`.
pub fn utf8_width(c: char) -> (r: usize)
    ensures
        r == char_width(c),
{
    let v = c as u32;
    if v < 0x80 {
        1
    } else if v < 0x800 {
        2
    } else if v < 0x10000 {
        3
    } else {
        4
    }
}

/// The character position of byte offset `b` in `cs`, with the byte count
/// of the characters before it.
fn locate(cs: &[char], b: usize) -> (r: (usize, usize))
    ensures
        r.0 == char_pos(cs@, b as int),
        r.1 == utf8_len(cs@.take(r.0 as int)),
        r.0 <= cs@.len(),
{
    let mut k: usize = 0;
    let mut acc: usize = 0;
    assert(cs@.skip(0) =~= cs@);
    assert(cs@.take(0) =~= Seq::<char>::empty());
    while k < cs.len() && utf8_width(cs[k]) <= b - acc
        invariant
            k <= cs@.len(),
            acc <= b,
            acc == utf8_len(cs@.take(k as int)),
            char_pos(cs@, b as int) == k + char_pos(cs@.skip(k as int), b - acc),
        decreases cs@.len() - k,
    {
        proof {
            let rest = cs@.skip(k as int);
            assert(rest[0] == cs@[k as int]);
            assert(rest.drop_first() =~= cs@.skip(k + 1));
            lemma_utf8_len_take_step(cs@, k as int);
        }
        acc = acc + utf8_width(cs[k]);
        k = k + 1;
    }
    proof {
        let rest = cs@.skip(k as int);
        if k < cs.len() {
            assert(rest[0] == cs@[k as int]);
        } else {
            assert(rest.len() == 0);
        }
    }
    (k, acc)
}

/// `str::len`, in the terms of [`utf8_len`].
fn byte_len(s: &String) -> (r: usize)
    requires
        utf8_len(s@) <= usize::MAX,
    ensures
        r == utf8_len(s@),
{
    proof {
        lemma_utf8_len_is_byte_len(s@);
    }
    let t = s.as_str();
    assert(t@ == s@);
    assert(t.spec_bytes() == vstd::utf8::encode_utf8(t@));
    t.len()
}

// ── the input line ───────────────────────────────────────────────────

/// `s` with `c` inserted before character `k`.
pub open spec fn insert_at(s: Seq<char>, k: int, c: char) -> Seq<char> {
    s.take(k) + seq![c] + s.skip(k)
}

/// `s` without character `k`.
pub open spec fn remove_at(s: Seq<char>, k: int) -> Seq<char> {
    s.take(k) + s.skip(k + 1)
}

/// Largest input line, in bytes, that still takes more characters.
pub const MAX_INPUT_BYTES: usize = 4096;

/// Largest search query, in bytes, that still takes more characters.
pub const MAX_QUERY_BYTES: usize = 256;

fn build(cs: &[char], k: usize, mid: Option<char>, skip_one: bool) -> (r: String)
    requires
        k <= cs@.len(),
        skip_one ==> k < cs@.len(),
    ensures
        r@ == cs@.take(k as int) + (match mid {
            Some(c) => seq![c],
            None => Seq::<char>::empty(),
        }) + cs@.skip(if skip_one { k + 1 } else { k as int }),
{
    let mut out: Vec<char> = Vec::new();
    let mut i: usize = 0;
    while i < k
        invariant
            i <= k <= cs@.len(),
            skip_one ==> k < cs@.len(),
            out@ == cs@.take(i as int),
        decreases k - i,
    {
        out.push(cs[i]);
        i = i + 1;
        assert(out@ =~= cs@.take(i as int));
    }
    let ghost pre = out@;
    match mid {
        Some(c) => out.push(c),
        None => {},
    }
    let ghost with_mid = out@;
    let mut j: usize = k;
    if skip_one {
        assert(k < cs.len());
        j = k + 1;
    }
    let ghost start = j as int;
    while j < cs.len()
        invariant
            0 <= start <= j <= cs@.len(),
            out@ == with_mid + cs@.subrange(start, j as int),
        decreases cs@.len() - j,
    {
        out.push(cs[j]);
        j = j + 1;
        assert(out@ =~= with_mid + cs@.subrange(start, j as int));
    }
    assert(cs@.subrange(start, cs@.len() as int) =~= cs@.skip(start));
    assert(with_mid =~= pre + (match mid {
        Some(c) => seq![c],
        None => Seq::<char>::empty(),
    }));
    string_of(out.as_slice())
}


// ── live agents ──────────────────────────────────────────────────────

/// Model of a [`LiveAgentStatus`].
pub struct LiveView {
    pub agent_id: Seq<char>,
    pub label: Seq<char>,
    pub stage: Seq<char>,
    pub detail: Seq<char>,
    pub current_call: Option<Seq<char>>,
    pub elapsed_ms: u64,
    pub first_seen_at: u64,
    pub last_event_at: u64,
    pub model_wait_notice_sent: bool,
}

/// The characters of an optional string.
pub open spec fn opt_view(o: Option<String>) -> Option<Seq<char>> {
    match o {
        Some(s) => Some(s@),
        None => None,
    }
}

/// The model of a live status.
pub open spec fn live_view(l: LiveAgentStatus) -> LiveView {
    LiveView {
        agent_id: l.agent_id@,
        label: l.label@,
        stage: l.stage@,
        detail: l.detail@,
        current_call: opt_view(l.current_call),
        elapsed_ms: l.elapsed_ms,
        first_seen_at: l.first_seen_at,
        last_event_at: l.last_event_at,
        model_wait_notice_sent: l.model_wait_notice_sent,
    }
}

/// The model of the live table.
pub open spec fn live_table(ls: Seq<LiveAgentStatus>) -> Seq<LiveView> {
    ls.map_values(|l: LiveAgentStatus| live_view(l))
}

/// The first entry of the table for `id`.
pub open spec fn live_index(t: Seq<LiveView>, id: Seq<char>) -> Option<int> {
    if exists|i: int| 0 <= i < t.len() && t[i].agent_id == id {
        Some(choose|i: int| 0 <= i < t.len() && t[i].agent_id == id && forall|j: int| 0 <= j < i ==> t[j].agent_id != id)
    } else {
        None
    }
}

/// Milliseconds from `then` to `now` on the monotonic clock (none when
/// the clock reads earlier).
pub open spec fn since(now: u64, then: u64) -> u64 {
    if now >= then {
        (now - then) as u64
    } else {
        0
    }
}

/// What an agent in `stage` is calling.
pub open spec fn call_for(stage: AgentStage, detail: Seq<char>) -> Option<Seq<char>> {
    match stage {
        AgentStage::WaitingForModel => Some("model"@),
        AgentStage::RunningTool => Some(detail),
        AgentStage::WaitingForLock => Some("file_lock"@),
        AgentStage::ApprovalNeeded => Some("approval"@),
        AgentStage::Planning | AgentStage::Decomposing | AgentStage::SpawningAgents => Some(stage_label(stage)),
        _ => None,
    }
}

/// An entry after a stage report: what it was (or a fresh one) with the
/// new label, stage, detail, call and times.
pub open spec fn live_entry_after(
    prev: Option<LiveView>,
    id: Seq<char>,
    label: Seq<char>,
    stage: AgentStage,
    detail: Seq<char>,
    elapsed_ms: u64,
    now: u64,
) -> LiveView {
    let first = match prev {
        Some(p) => p.first_seen_at,
        None => now,
    };
    let sent = match prev {
        Some(p) => p.model_wait_notice_sent,
        None => false,
    };
    LiveView {
        agent_id: id,
        label,
        stage: stage_label(stage),
        detail,
        current_call: call_for(stage, detail),
        elapsed_ms: if elapsed_ms >= since(now, first) { elapsed_ms } else { since(now, first) },
        first_seen_at: first,
        last_event_at: now,
        model_wait_notice_sent: sent || wait_announced(prev, stage, elapsed_ms),
    }
}

/// Whether a stage report is the first long model wait of its agent, which
/// the chat announces.
pub open spec fn wait_announced(prev: Option<LiveView>, stage: AgentStage, elapsed_ms: u64) -> bool {
    &&& stage == AgentStage::WaitingForModel
    &&& elapsed_ms >= 10_000
    &&& !(match prev {
        Some(p) => p.model_wait_notice_sent,
        None => false,
    })
}

/// The table after a stage report for `id`: its entry updated in place,
/// or a new entry at the end.
pub open spec fn live_after(
    t: Seq<LiveView>,
    id: Seq<char>,
    label: Seq<char>,
    stage: AgentStage,
    detail: Seq<char>,
    elapsed_ms: u64,
    now: u64,
) -> Seq<LiveView> {
    match live_index(t, id) {
        Some(i) => t.update(i, live_entry_after(Some(t[i]), id, label, stage, detail, elapsed_ms, now)),
        None => t.push(live_entry_after(None, id, label, stage, detail, elapsed_ms, now)),
    }
}

/// Whether the report announces a long model wait, given the table.
pub open spec fn announces(t: Seq<LiveView>, id: Seq<char>, stage: AgentStage, elapsed_ms: u64) -> bool {
    wait_announced(
        match live_index(t, id) {
            Some(i) => Some(t[i]),
            None => None,
        },
        stage,
        elapsed_ms,
    )
}

fn find_live(ls: &Vec<LiveAgentStatus>, id: &str) -> (r: Option<usize>)
    ensures
        match r {
            Some(i) => live_index(live_table(ls@), id@) == Some(i as int) && i < ls@.len(),
            None => live_index(live_table(ls@), id@) is None,
        },
{
    let ghost t = live_table(ls@);
    let mut i: usize = 0;
    while i < ls.len()
        invariant
            i <= ls@.len(),
            t == live_table(ls@),
            forall|j: int| 0 <= j < i ==> t[j].agent_id != id@,
        decreases ls@.len() - i,
    {
        if str_eq(ls[i].agent_id.as_str(), id) {
            proof {
                assert(t[i as int].agent_id == id@);
                let c = choose|c: int| 0 <= c < t.len() && t[c].agent_id == id@ && forall|j: int| 0 <= j < c ==> t[j].agent_id != id@;
                if c < i {
                } else if c > i {
                    assert(t[i as int].agent_id != id@);
                }
            }
            return Some(i);
        }
        i = i + 1;
    }
    None
}

fn call_for_exec(stage: AgentStage, detail: &str) -> (r: Option<String>)
    ensures
        opt_view(r) == call_for(stage, detail@),
{
    match stage {
        AgentStage::WaitingForModel => Some(owned("model")),
        AgentStage::RunningTool => Some(owned(detail)),
        AgentStage::WaitingForLock => Some(owned("file_lock")),
        AgentStage::ApprovalNeeded => Some(owned("approval")),
        AgentStage::Planning | AgentStage::Decomposing | AgentStage::SpawningAgents => Some(owned(stage.label())),
        _ => None,
    }
}

fn since_exec(now: u64, then: u64) -> (r: u64)
    ensures
        r == since(now, then),
{
    if now >= then {
        now - then
    } else {
        0
    }
}


// ── the agents panel ─────────────────────────────────────────────────

/// Model of an [`AgentInfo`].
pub struct AgentView {
    pub agent_id: Seq<char>,
    pub label: Seq<char>,
    pub goal: Seq<char>,
    pub phase: Seq<char>,
    pub current_task: Seq<char>,
    pub current_tool_call: Option<Seq<char>>,
    pub read_files: Seq<Seq<char>>,
    pub write_files: Seq<Seq<char>>,
    pub held_locks: Seq<Seq<char>>,
    pub queued_write_locks: Seq<Seq<char>>,
    pub retry_count: u32,
    pub tool_calls: u64,
    pub progress_pct: u32,
    pub locked_file: Option<Seq<char>>,
    pub last_update: Seq<char>,
    pub last_error: Option<Seq<char>>,
    pub stage: Seq<char>,
    pub heartbeat: Seq<char>,
    pub elapsed_secs: u64,
    pub last_event_age_secs: Option<u64>,
    pub blocked_reason: Option<Seq<char>>,
}

/// The model of an agent row.
pub open spec fn agent_view(a: AgentInfo) -> AgentView {
    AgentView {
        agent_id: a.agent_id@,
        label: a.label@,
        goal: a.goal@,
        phase: a.phase@,
        current_task: a.current_task@,
        current_tool_call: opt_view(a.current_tool_call),
        read_files: views(a.read_files@),
        write_files: views(a.write_files@),
        held_locks: views(a.held_locks@),
        queued_write_locks: views(a.queued_write_locks@),
        retry_count: a.retry_count,
        tool_calls: a.tool_calls,
        progress_pct: a.progress_pct,
        locked_file: opt_view(a.locked_file),
        last_update: a.last_update@,
        last_error: opt_view(a.last_error),
        stage: a.stage@,
        heartbeat: a.heartbeat@,
        elapsed_secs: a.elapsed_secs,
        last_event_age_secs: a.last_event_age_secs,
        blocked_reason: opt_view(a.blocked_reason),
    }
}

/// The models of a list of agent rows.
pub open spec fn agent_rows(s: Seq<AgentInfo>) -> Seq<AgentView> {
    s.map_values(|a: AgentInfo| agent_view(a))
}

/// Whether an agent in this stage is held up.
pub open spec fn is_blocking(stage: Seq<char>) -> bool {
    stage == "waiting_for_lock"@ || stage == "approval_needed"@ || stage == "failed"@
}

/// A row with what the live table knows of its agent laid over it.
pub open spec fn overlay(a: AgentView, l: LiveView, spin: Seq<char>, now: u64) -> AgentView {
    AgentView {
        stage: l.stage,
        phase: l.stage,
        current_tool_call: l.current_call,
        last_update: l.detail,
        heartbeat: spin,
        elapsed_secs: if l.elapsed_ms / 1000 >= a.elapsed_secs { (l.elapsed_ms / 1000) as u64 } else { a.elapsed_secs },
        last_event_age_secs: Some((since(now, l.last_event_at) / 1000) as u64),
        blocked_reason: if is_blocking(l.stage) { Some(l.detail) } else { None },
        progress_pct: if phase_progress(l.stage) >= a.progress_pct { phase_progress(l.stage) } else { a.progress_pct },
        last_error: if l.stage == "failed"@ { Some(l.detail) } else { a.last_error },
        ..a
    }
}

/// A row for a live agent that the snapshot does not list.
pub open spec fn fresh_row(l: LiveView, spin: Seq<char>, now: u64) -> AgentView {
    AgentView {
        agent_id: l.agent_id,
        label: l.label,
        goal: Seq::<char>::empty(),
        phase: l.stage,
        current_task: l.detail,
        current_tool_call: l.current_call,
        read_files: Seq::<Seq<char>>::empty(),
        write_files: Seq::<Seq<char>>::empty(),
        held_locks: Seq::<Seq<char>>::empty(),
        queued_write_locks: Seq::<Seq<char>>::empty(),
        retry_count: 0,
        tool_calls: 0,
        progress_pct: phase_progress(l.stage),
        locked_file: None,
        last_update: l.detail,
        last_error: if l.stage == "failed"@ { Some(l.detail) } else { None },
        stage: l.stage,
        heartbeat: spin,
        elapsed_secs: (l.elapsed_ms / 1000) as u64,
        last_event_age_secs: Some((since(now, l.last_event_at) / 1000) as u64),
        blocked_reason: if is_blocking(l.stage) { Some(l.detail) } else { None },
    }
}

/// The snapshot's rows, each overlaid by its agent's live entry.
pub open spec fn overlaid(rows: Seq<AgentView>, t: Seq<LiveView>, spin: Seq<char>, now: u64) -> Seq<AgentView> {
    rows.map_values(
        |a: AgentView|
            match live_index(t, a.agent_id) {
                Some(i) => overlay(a, t[i], spin, now),
                None => a,
            },
    )
}

/// Whether some row belongs to agent `id`.
pub open spec fn listed(rows: Seq<AgentView>, id: Seq<char>) -> bool {
    exists|i: int| 0 <= i < rows.len() && rows[i].agent_id == id
}

/// Rows for the live entries that no row of `rows` lists, in table order.
pub open spec fn unlisted(rows: Seq<AgentView>, t: Seq<LiveView>, spin: Seq<char>, now: u64) -> Seq<AgentView>
    decreases t.len(),
{
    if t.len() == 0 {
        Seq::<AgentView>::empty()
    } else if listed(rows, t.last().agent_id) {
        unlisted(rows, t.drop_last(), spin, now)
    } else {
        unlisted(rows, t.drop_last(), spin, now).push(fresh_row(t.last(), spin, now))
    }
}

/// The position at which a row labelled `l` goes into rows sorted by
/// label: after every row whose label is not above `l`.
pub open spec fn label_slot(s: Seq<AgentView>, l: Seq<char>) -> int
    decreases s.len(),
{
    if s.len() == 0 {
        0
    } else if str_lt(l, s[0].label) {
        0
    } else {
        1 + label_slot(s.drop_first(), l)
    }
}

/// Rows sorted by label, rows of equal label in their original order
/// (a stable sort).
pub open spec fn sort_by_label(s: Seq<AgentView>) -> Seq<AgentView>
    decreases s.len(),
{
    if s.len() == 0 {
        s
    } else {
        let done = sort_by_label(s.drop_last());
        done.insert(label_slot(done, s.last().label), s.last())
    }
}

proof fn lemma_label_slot_bound(s: Seq<AgentView>, l: Seq<char>)
    ensures
        0 <= label_slot(s, l) <= s.len(),
        forall|k: int| 0 <= k < label_slot(s, l) ==> !str_lt(l, #[trigger] s[k].label),
        label_slot(s, l) < s.len() ==> str_lt(l, s[label_slot(s, l)].label),
    decreases s.len(),
{
    if s.len() > 0 && !str_lt(l, s[0].label) {
        lemma_label_slot_bound(s.drop_first(), l);
        assert forall|k: int| 0 <= k < label_slot(s, l) implies !str_lt(l, #[trigger] s[k].label) by {
            if k > 0 {
                assert(s[k] == s.drop_first()[k - 1]);
            }
        }
    }
}

proof fn lemma_sort_len(s: Seq<AgentView>)
    ensures
        sort_by_label(s).len() == s.len(),
    decreases s.len(),
{
    if s.len() > 0 {
        lemma_sort_len(s.drop_last());
        lemma_label_slot_bound(sort_by_label(s.drop_last()), s.last().label);
    }
}

/// The slot of `label` among the rows of `v`.
fn find_slot(v: &Vec<AgentInfo>, label: &str) -> (r: usize)
    ensures
        r == label_slot(agent_rows(v@), label@),
{
    let ghost rows = agent_rows(v@);
    let mut i: usize = 0;
    proof {
        lemma_label_slot_bound(rows, label@);
        assert(rows.skip(0) =~= rows);
    }
    while i < v.len() && !str_less(label, v[i].label.as_str())
        invariant
            i <= v@.len(),
            rows == agent_rows(v@),
            label_slot(rows, label@) == i + label_slot(rows.skip(i as int), label@),
        decreases v@.len() - i,
    {
        proof {
            let rest = rows.skip(i as int);
            assert(rest[0] == rows[i as int]);
            assert(rest.drop_first() =~= rows.skip(i + 1));
        }
        i = i + 1;
    }
    proof {
        let rest = rows.skip(i as int);
        if i < v.len() {
            assert(rest[0] == rows[i as int]);
        }
    }
    i
}

/// Sorts rows by label, keeping rows of equal label in order.
fn sort_rows(rows: Vec<AgentInfo>) -> (r: Vec<AgentInfo>)
    ensures
        agent_rows(r@) == sort_by_label(agent_rows(rows@)),
{
    let ghost all = agent_rows(rows@);
    let mut src = rows;
    let mut out: Vec<AgentInfo> = Vec::new();
    let ghost mut n: int = 0;
    proof {
        assert(all.take(0) =~= Seq::<AgentView>::empty());
        assert(src@ =~= rows@.skip(0));
    }
    while src.len() > 0
        invariant
            0 <= n <= rows@.len(),
            all == agent_rows(rows@),
            src@ == rows@.skip(n),
            agent_rows(out@) == sort_by_label(all.take(n)),
        decreases src@.len(),
    {
        let a = src.remove(0);
        proof {
            assert(a == rows@[n]);
            assert(src@ =~= rows@.skip(n + 1));
        }
        let slot = find_slot(&out, a.label.as_str());
        let ghost before = agent_rows(out@);
        proof {
            lemma_label_slot_bound(before, a.label@);
        }
        out.insert(slot, a);
        proof {
            assert(all.take(n + 1).drop_last() =~= all.take(n));
            assert(all.take(n + 1).last() == agent_view(a));
            assert(agent_rows(out@) =~= before.insert(slot as int, agent_view(a)));
            n = n + 1;
        }
    }
    proof {
        assert(all.take(n) =~= all);
    }
    out
}


fn clone_opt(o: &Option<String>) -> (r: Option<String>)
    ensures
        opt_view(r) == opt_view(*o),
{
    match o {
        Some(s) => Some(s.clone()),
        None => None,
    }
}

fn blocking_exec(stage: &str) -> (r: bool)
    ensures
        r == is_blocking(stage@),
{
    str_eq(stage, "waiting_for_lock") || str_eq(stage, "approval_needed") || str_eq(stage, "failed")
}

/// Lays the live entry `l` over row `a`.
fn overlay_row(a: &mut AgentInfo, l: &LiveAgentStatus, spin: &str, now: u64)
    ensures
        agent_view(*final(a)) == overlay(agent_view(*old(a)), live_view(*l), spin@, now),
{
    a.stage = l.stage.clone();
    a.phase = l.stage.clone();
    a.current_tool_call = clone_opt(&l.current_call);
    a.last_update = l.detail.clone();
    a.heartbeat = owned(spin);
    let secs = l.elapsed_ms / 1000;
    if secs >= a.elapsed_secs {
        a.elapsed_secs = secs;
    }
    a.last_event_age_secs = Some(since_exec(now, l.last_event_at) / 1000);
    a.blocked_reason = if blocking_exec(l.stage.as_str()) {
        Some(l.detail.clone())
    } else {
        None
    };
    let p = progress_for_phase(l.stage.as_str());
    if p >= a.progress_pct {
        a.progress_pct = p;
    }
    if str_eq(l.stage.as_str(), "failed") {
        a.last_error = Some(l.detail.clone());
    }
}

/// A new row for the live entry `l`.
fn fresh_row_exec(l: &LiveAgentStatus, spin: &str, now: u64) -> (r: AgentInfo)
    ensures
        agent_view(r) == fresh_row(live_view(*l), spin@, now),
{
    let r = AgentInfo {
        agent_id: l.agent_id.clone(),
        label: l.label.clone(),
        goal: String::new(),
        phase: l.stage.clone(),
        current_task: l.detail.clone(),
        current_tool_call: clone_opt(&l.current_call),
        read_files: Vec::new(),
        write_files: Vec::new(),
        held_locks: Vec::new(),
        queued_write_locks: Vec::new(),
        retry_count: 0,
        tool_calls: 0,
        progress_pct: progress_for_phase(l.stage.as_str()),
        locked_file: None,
        last_update: l.detail.clone(),
        last_error: if str_eq(l.stage.as_str(), "failed") {
            Some(l.detail.clone())
        } else {
            None
        },
        stage: l.stage.clone(),
        heartbeat: owned(spin),
        elapsed_secs: l.elapsed_ms / 1000,
        last_event_age_secs: Some(since_exec(now, l.last_event_at) / 1000),
        blocked_reason: if blocking_exec(l.stage.as_str()) {
            Some(l.detail.clone())
        } else {
            None
        },
    };
    assert(views(r.read_files@) =~= Seq::<Seq<char>>::empty());
    assert(views(r.write_files@) =~= Seq::<Seq<char>>::empty());
    assert(views(r.held_locks@) =~= Seq::<Seq<char>>::empty());
    assert(views(r.queued_write_locks@) =~= Seq::<Seq<char>>::empty());
    r
}

/// Whether some row of `rows` belongs to agent `id`.
fn listed_exec(rows: &Vec<AgentInfo>, id: &str) -> (r: bool)
    ensures
        r == listed(agent_rows(rows@), id@),
{
    let ghost rs = agent_rows(rows@);
    let mut i: usize = 0;
    while i < rows.len()
        invariant
            i <= rows@.len(),
            rs == agent_rows(rows@),
            forall|j: int| 0 <= j < i ==> rs[j].agent_id != id@,
        decreases rows@.len() - i,
    {
        if str_eq(rows[i].agent_id.as_str(), id) {
            assert(rs[i as int].agent_id == id@);
            return true;
        }
        i = i + 1;
    }
    false
}


proof fn lemma_listed_by_ids(a: Seq<AgentView>, b: Seq<AgentView>, id: Seq<char>)
    requires
        a.len() == b.len(),
        forall|i: int| 0 <= i < a.len() ==> a[i].agent_id == b[i].agent_id,
    ensures
        listed(a, id) == listed(b, id),
{
    if listed(a, id) {
        let i = choose|i: int| 0 <= i < a.len() && a[i].agent_id == id;
        assert(b[i].agent_id == id);
    }
    if listed(b, id) {
        let i = choose|i: int| 0 <= i < b.len() && b[i].agent_id == id;
        assert(a[i].agent_id == id);
    }
}


/// The rows of `src`, each overlaid by its agent's live entry.
fn overlay_rows(src: Vec<AgentInfo>, live: &Vec<LiveAgentStatus>, spin: &str, now: u64) -> (r: Vec<AgentInfo>)
    ensures
        agent_rows(r@) == overlaid(agent_rows(src@), live_table(live@), spin@, now),
{
    let ghost t = live_table(live@);
    let ghost orig = src@;
    let ghost rows0 = agent_rows(orig);
    let mut src = src;
    let mut done: Vec<AgentInfo> = Vec::new();
    let ghost mut n: int = 0;
    proof {
        assert(src@ =~= orig.skip(0));
        assert(agent_rows(done@) =~= overlaid(rows0.take(0), t, spin@, now));
    }
    while src.len() > 0
        invariant
            0 <= n <= orig.len(),
            rows0 == agent_rows(orig),
            src@ == orig.skip(n),
            t == live_table(live@),
            agent_rows(done@) == overlaid(rows0.take(n), t, spin@, now),
        decreases src@.len(),
    {
        let mut a = src.remove(0);
        proof {
            assert(a == orig[n]);
            assert(src@ =~= orig.skip(n + 1));
        }
        let ghost av = agent_view(a);
        match find_live(live, a.agent_id.as_str()) {
            Some(i) => {
                proof {
                    assert(t[i as int] == live_view(live@[i as int]));
                }
                overlay_row(&mut a, &live[i], spin, now);
            },
            None => {},
        }
        proof {
            assert(agent_view(a) == (match live_index(t, av.agent_id) {
                Some(x) => overlay(av, t[x], spin@, now),
                None => av,
            }));
        }
        let ghost prev = agent_rows(done@);
        done.push(a);
        proof {
            assert(agent_rows(done@) =~= prev.push(agent_view(a)));
            assert(rows0.take(n + 1) =~= rows0.take(n).push(av));
            assert(overlaid(rows0.take(n + 1), t, spin@, now) =~= overlaid(rows0.take(n), t, spin@, now).push(
                agent_view(a),
            ));
            n = n + 1;
        }
    }
    proof {
        assert(rows0.take(n) =~= rows0);
    }
    done
}

/// Rows for the live entries that no row of `rows0` lists; `done` has the
/// same agent ids as `rows0`, row by row.
fn unlisted_rows(
    done: &Vec<AgentInfo>,
    Ghost(rows0): Ghost<Seq<AgentView>>,
    live: &Vec<LiveAgentStatus>,
    spin: &str,
    now: u64,
) -> (r: Vec<AgentInfo>)
    requires
        agent_rows(done@) == overlaid(rows0, live_table(live@), spin@, now),
    ensures
        agent_rows(r@) == unlisted(rows0, live_table(live@), spin@, now),
{
    let ghost t = live_table(live@);
    let ghost over = agent_rows(done@);
    proof {
        assert(t.take(0) =~= Seq::<LiveView>::empty());
        assert forall|i: int| 0 <= i < rows0.len() implies rows0[i].agent_id == over[i].agent_id by {
            assert(over[i] == (match live_index(t, rows0[i].agent_id) {
                Some(x) => overlay(rows0[i], t[x], spin@, now),
                None => rows0[i],
            }));
        }
    }
    let mut extra: Vec<AgentInfo> = Vec::new();
    let mut j: usize = 0;
    while j < live.len()
        invariant
            j <= live@.len(),
            t == live_table(live@),
            over == agent_rows(done@),
            over.len() == rows0.len(),
            forall|i: int| 0 <= i < rows0.len() ==> rows0[i].agent_id == over[i].agent_id,
            agent_rows(extra@) == unlisted(rows0, t.take(j as int), spin@, now),
        decreases live@.len() - j,
    {
        let ghost before = agent_rows(extra@);
        let l = &live[j];
        proof {
            assert(t.take(j + 1).drop_last() =~= t.take(j as int));
            assert(t.take(j + 1).last() == live_view(*l));
            lemma_listed_by_ids(rows0, over, l.agent_id@);
        }
        if !listed_exec(done, l.agent_id.as_str()) {
            extra.push(fresh_row_exec(l, spin, now));
            proof {
                assert(agent_rows(extra@) =~= before.push(fresh_row(live_view(*l), spin@, now)));
            }
        }
        j = j + 1;
    }
    proof {
        assert(t.take(j as int) =~= t);
    }
    extra
}


// ── status texts ─────────────────────────────────────────────────────

/// The first eight characters of an id.
pub open spec fn short(id: Seq<char>) -> Seq<char> {
    if id.len() > 8 {
        id.take(8)
    } else {
        id
    }
}

/// The warning that no runner event came for 15 seconds.
pub open spec fn stale_text(stage: Seq<char>) -> Seq<char> {
    "No runner event for 15s. Last known stage: "@ + (if stage.len() == 0 {
        "unknown"@
    } else {
        stage
    }) + ". The run may be blocked or waiting on external I/O."@
}

/// Whether a run is going or paused.
pub open spec fn is_live_mode(m: RunMode) -> bool {
    m == RunMode::Running || m == RunMode::Paused
}

/// Whether the tick should warn that the runner has gone quiet.
pub open spec fn goes_stale(mode: RunMode, emitted: bool, last: Option<u64>, now: u64) -> bool {
    &&& is_live_mode(mode)
    &&& !emitted
    &&& last matches Some(t)
    &&& since(now, last->0) >= 15_000
}


/// The ids of `runs` other than `id`, in order.
fn retain_other(runs: &Vec<String>, id: &str) -> (r: Vec<String>)
    ensures
        views(r@) == views(runs@).filter(|x: Seq<char>| x != id@),
{
    let ghost vs = views(runs@);
    let ghost pred = |x: Seq<char>| x != id@;
    let mut out: Vec<String> = Vec::new();
    let mut i: usize = 0;
    proof {
        assert(vs.take(0) =~= Seq::<Seq<char>>::empty());
    }
    while i < runs.len()
        invariant
            i <= runs@.len(),
            vs == views(runs@),
            pred == (|x: Seq<char>| x != id@),
            views(out@) == vs.take(i as int).filter(pred),
        decreases runs@.len() - i,
    {
        proof {
            assert(vs.take(i + 1) =~= vs.take(i as int).push(vs[i as int]));
            vs.take(i as int).lemma_filter_push(vs[i as int], pred);
        }
        if !str_eq(runs[i].as_str(), id) {
            let ghost before = views(out@);
            out.push(runs[i].clone());
            proof {
                assert(views(out@) =~= before.push(vs[i as int]));
            }
        }
        i = i + 1;
    }
    proof {
        assert(vs.take(i as int) =~= vs);
    }
    out
}


// ── runner events ────────────────────────────────────────────────────

/// `true` or `false`.
pub open spec fn bool_text(b: bool) -> Seq<char> {
    if b {
        "true"@
    } else {
        "false"@
    }
}

/// `s` with each underscore replaced by a space.
pub open spec fn spaced(s: Seq<char>) -> Seq<char> {
    s.map_values(|c: char| if c == '_' { ' ' } else { c })
}

/// What the UI remembers as the runner's last stage after an event.
pub open spec fn note_text(e: RunnerEvent) -> Seq<char> {
    match e {
        RunnerEvent::RunStage { stage, detail, .. } => stage_label(stage) + ": "@ + detail@,
        RunnerEvent::AgentStage { stage, detail, .. } => stage_label(stage) + ": "@ + detail@,
        RunnerEvent::RunStarted { .. } => "run started"@,
        RunnerEvent::AgentQueued { reason, .. } => "agent queued: "@ + reason@,
        RunnerEvent::AgentStarted { label, .. } => "agent "@ + label@ + " started"@,
        RunnerEvent::AgentFinished { label, success, .. } => "agent "@ + label@ + " finished success="@ + bool_text(
            success,
        ),
        RunnerEvent::RunPaused { .. } => "run paused"@,
        RunnerEvent::RunResumed { .. } => "run resumed"@,
        RunnerEvent::RunRedirected { .. } => "run redirected"@,
        RunnerEvent::RunCancelled { .. } => "run cancelled"@,
        RunnerEvent::RunFinished { success, .. } => "run finished success="@ + bool_text(success),
        RunnerEvent::Reprioritised { agent_id, priority } => "agent "@ + short(agent_id@) + " priority -> "@ + dec(
            priority as nat,
        ),
        RunnerEvent::Error { message } => "error: "@ + message@,
    }
}

/// The level of the log line for an agent's stage.
pub open spec fn stage_level(stage: AgentStage) -> LogLevel {
    match stage {
        AgentStage::Failed => LogLevel::Error,
        AgentStage::WaitingForLock | AgentStage::ApprovalNeeded => LogLevel::Warn,
        _ => LogLevel::Info,
    }
}

/// The log line an event writes, if any.
pub open spec fn event_log(e: RunnerEvent) -> Option<(LogLevel, Seq<char>, Seq<char>)> {
    match e {
        RunnerEvent::RunStage { run_id, stage, detail, .. } => Some(
            (LogLevel::Info, "orchestration"@, "Run "@ + short(run_id@) + " "@ + stage_label(stage) + ": "@ + detail@),
        ),
        RunnerEvent::RunStarted { run_id, task_count, .. } => Some(
            (
                LogLevel::Info,
                "orchestration"@,
                "Run "@ + run_id@ + " started with "@ + dec(task_count as nat) + " task(s)"@,
            ),
        ),
        RunnerEvent::AgentQueued { agent_id, label, reason } => Some(
            (LogLevel::Info, "locks"@, label@ + " queued ("@ + short(agent_id@) + "): "@ + reason@),
        ),
        RunnerEvent::AgentStarted { agent_id, label, task } => Some(
            (LogLevel::Info, "agent"@, label@ + " ("@ + short(agent_id@) + ") started: "@ + task@),
        ),
        RunnerEvent::AgentStage { agent_id, label, stage, detail, .. } => Some(
            (
                stage_level(stage),
                "agent"@,
                label@ + " ("@ + short(agent_id@) + ") "@ + stage_label(stage) + ": "@ + detail@,
            ),
        ),
        RunnerEvent::AgentFinished { agent_id, label, success, summary } => Some(
            (
                if success { LogLevel::Info } else { LogLevel::Warn },
                "agent"@,
                label@ + " ("@ + short(agent_id@) + ") finished: "@ + summary@,
            ),
        ),
        RunnerEvent::RunRedirected { run_id, message } => Some(
            (LogLevel::Info, "orchestration"@, "Run "@ + short(run_id@) + " redirected: "@ + message@),
        ),
        RunnerEvent::Reprioritised { agent_id, priority } => Some(
            (LogLevel::Info, "orchestration"@, short(agent_id@) + " priority -> "@ + dec(priority as nat)),
        ),
        RunnerEvent::Error { message } => Some((LogLevel::Error, "runner"@, message@)),
        _ => None,
    }
}

/// The chat message an event adds, if any; `announce` says whether an
/// agent's model wait is to be announced.
pub open spec fn event_message(e: RunnerEvent, announce: bool) -> Option<(MessageRole, Seq<char>)> {
    match e {
        RunnerEvent::RunStage { stage, detail, .. } => Some(
            (MessageRole::Agent, spaced(stage_label(stage)) + ": "@ + detail@),
        ),
        RunnerEvent::RunStarted { goal, task_count, .. } => Some(
            (MessageRole::Agent, "Running "@ + dec(task_count as nat) + " task(s) for: "@ + goal@),
        ),
        RunnerEvent::AgentQueued { label, reason, .. } => Some(
            (MessageRole::Agent, label@ + " is waiting: "@ + reason@),
        ),
        RunnerEvent::AgentStarted { label, task, .. } => Some(
            (MessageRole::Agent, label@ + " started: "@ + truncated(task@, 96)),
        ),
        RunnerEvent::AgentStage { label, stage, detail, .. } => match stage {
            AgentStage::WaitingForModel => if announce {
                Some((MessageRole::Agent, label@ + ": "@ + detail@))
            } else {
                None
            },
            AgentStage::Failed => Some((MessageRole::System, label@ + " failed: "@ + detail@)),
            AgentStage::Done => Some((MessageRole::Agent, label@ + " done: "@ + truncated(detail@, 120))),
            AgentStage::WaitingForLock | AgentStage::ApprovalNeeded => Some(
                (MessageRole::System, label@ + " blocked: "@ + detail@),
            ),
            _ => None,
        },
        RunnerEvent::RunPaused { run_id } => Some((MessageRole::System, "Run "@ + short(run_id@) + " paused."@)),
        RunnerEvent::RunResumed { run_id } => Some((MessageRole::System, "Run "@ + short(run_id@) + " resumed."@)),
        RunnerEvent::RunCancelled { run_id } => Some(
            (MessageRole::System, "Run "@ + short(run_id@) + " cancelled."@),
        ),
        RunnerEvent::RunFinished { run_id, success, summary } => Some(
            (
                if success { MessageRole::Agent } else { MessageRole::System },
                "Final summary for "@ + short(run_id@) + ":\n"@ + summary@,
            ),
        ),
        RunnerEvent::Error { message } => Some((MessageRole::System, "Runner error: "@ + message@)),
        _ => None,
    }
}

/// The live table after an event.
pub open spec fn live_for(t: Seq<LiveView>, e: RunnerEvent, now: u64) -> Seq<LiveView> {
    match e {
        RunnerEvent::AgentQueued { agent_id, label, reason } => live_after(
            t,
            agent_id@,
            label@,
            AgentStage::WaitingForLock,
            reason@,
            0,
            now,
        ),
        RunnerEvent::AgentStarted { agent_id, label, .. } => live_after(
            t,
            agent_id@,
            label@,
            AgentStage::Planning,
            "agent started; entering loop"@,
            0,
            now,
        ),
        RunnerEvent::AgentStage { agent_id, label, stage, detail, elapsed_ms } => live_after(
            t,
            agent_id@,
            label@,
            stage,
            detail@,
            elapsed_ms,
            now,
        ),
        RunnerEvent::AgentFinished { agent_id, label, success, summary } => live_after(
            t,
            agent_id@,
            label@,
            if success { AgentStage::Done } else { AgentStage::Failed },
            summary@,
            0,
            now,
        ),
        _ => t,
    }
}

/// Whether an event announces a long model wait, given the table before it.
pub open spec fn event_announces(t: Seq<LiveView>, e: RunnerEvent) -> bool {
    match e {
        RunnerEvent::AgentStage { agent_id, stage, elapsed_ms, .. } => announces(t, agent_id@, stage, elapsed_ms),
        _ => false,
    }
}

/// The run mode after an event.
pub open spec fn mode_for(m: RunMode, e: RunnerEvent) -> RunMode {
    match e {
        RunnerEvent::RunStarted { .. } => RunMode::Running,
        RunnerEvent::RunPaused { .. } => RunMode::Paused,
        RunnerEvent::RunResumed { .. } => RunMode::Running,
        RunnerEvent::RunCancelled { .. } => RunMode::Idle,
        RunnerEvent::RunFinished { .. } => RunMode::Idle,
        _ => m,
    }
}

/// Whether an event ends the run.
pub open spec fn ends_run(e: RunnerEvent) -> bool {
    e is RunCancelled || e is RunFinished
}

/// Whether an event counts as an error.
pub open spec fn counts_error(e: RunnerEvent) -> bool {
    match e {
        RunnerEvent::AgentStage { stage, .. } => stage == AgentStage::Failed,
        RunnerEvent::Error { .. } => true,
        _ => false,
    }
}

/// `Some(x)` as a one-element sequence, `None` as an empty one.
pub open spec fn opt_seq<T>(o: Option<T>) -> Seq<T> {
    match o {
        Some(x) => seq![x],
        None => Seq::<T>::empty(),
    }
}

/// The log after an optional line.
pub open spec fn log_with(ls: Seq<(LogLevel, Seq<char>, Seq<char>)>, e: Option<(LogLevel, Seq<char>, Seq<char>)>) -> Seq<
    (LogLevel, Seq<char>, Seq<char>),
> {
    match e {
        Some(l) => log_after(ls, l),
        None => ls,
    }
}


fn spaced_exec(s: &str) -> (r: String)
    ensures
        r@ == spaced(s@),
{
    let cs = chars_of(s);
    let mut out: Vec<char> = Vec::new();
    let mut i: usize = 0;
    while i < cs.len()
        invariant
            i <= cs@.len(),
            cs@ == s@,
            out@ == spaced(s@.take(i as int)),
        decreases cs@.len() - i,
    {
        let c = cs[i];
        out.push(if c == '_' { ' ' } else { c });
        i = i + 1;
        assert(out@ =~= spaced(s@.take(i as int)));
    }
    assert(s@.take(i as int) =~= s@);
    string_of(out.as_slice())
}

fn bool_str(b: bool) -> (r: &'static str)
    ensures
        r@ == bool_text(b),
{
    if b {
        "true"
    } else {
        "false"
    }
}

/// Concatenates the pieces.
fn join2(a: &str, b: &str) -> (r: String)
    ensures
        r@ == a@ + b@,
{
    let mut s = owned(a);
    push_all(&mut s, b);
    s
}

fn join3(a: &str, b: &str, c: &str) -> (r: String)
    ensures
        r@ == a@ + b@ + c@,
{
    let mut s = join2(a, b);
    push_all(&mut s, c);
    s
}

fn join4(a: &str, b: &str, c: &str, d: &str) -> (r: String)
    ensures
        r@ == a@ + b@ + c@ + d@,
{
    let mut s = join3(a, b, c);
    push_all(&mut s, d);
    s
}

fn join5(a: &str, b: &str, c: &str, d: &str, e: &str) -> (r: String)
    ensures
        r@ == a@ + b@ + c@ + d@ + e@,
{
    let mut s = join4(a, b, c, d);
    push_all(&mut s, e);
    s
}

fn join6(a: &str, b: &str, c: &str, d: &str, e: &str, f: &str) -> (r: String)
    ensures
        r@ == a@ + b@ + c@ + d@ + e@ + f@,
{
    let mut s = join5(a, b, c, d, e);
    push_all(&mut s, f);
    s
}

fn note_text_exec(e: &RunnerEvent) -> (r: String)
    ensures
        r@ == note_text(*e),
{
    match e {
        RunnerEvent::RunStage { stage, detail, .. } => join3(stage.label(), ": ", detail.as_str()),
        RunnerEvent::AgentStage { stage, detail, .. } => join3(stage.label(), ": ", detail.as_str()),
        RunnerEvent::RunStarted { .. } => owned("run started"),
        RunnerEvent::AgentQueued { reason, .. } => join2("agent queued: ", reason.as_str()),
        RunnerEvent::AgentStarted { label, .. } => join3("agent ", label.as_str(), " started"),
        RunnerEvent::AgentFinished { label, success, .. } => join4(
            "agent ",
            label.as_str(),
            " finished success=",
            bool_str(*success),
        ),
        RunnerEvent::RunPaused { .. } => owned("run paused"),
        RunnerEvent::RunResumed { .. } => owned("run resumed"),
        RunnerEvent::RunRedirected { .. } => owned("run redirected"),
        RunnerEvent::RunCancelled { .. } => owned("run cancelled"),
        RunnerEvent::RunFinished { success, .. } => join2("run finished success=", bool_str(*success)),
        RunnerEvent::Reprioritised { agent_id, priority } => join4(
            "agent ",
            short_id(agent_id.as_str()).as_str(),
            " priority -> ",
            u64_to_string(*priority as u64).as_str(),
        ),
        RunnerEvent::Error { message } => join2("error: ", message.as_str()),
    }
}

fn stage_level_exec(stage: AgentStage) -> (r: LogLevel)
    ensures
        r == stage_level(stage),
{
    match stage {
        AgentStage::Failed => LogLevel::Error,
        AgentStage::WaitingForLock | AgentStage::ApprovalNeeded => LogLevel::Warn,
        _ => LogLevel::Info,
    }
}

fn event_log_exec(e: &RunnerEvent) -> (r: Option<(LogLevel, &'static str, String)>)
    ensures
        match r {
            Some((l, s, m)) => event_log(*e) == Some((l, s@, m@)),
            None => event_log(*e) is None,
        },
{
    match e {
        RunnerEvent::RunStage { run_id, stage, detail, .. } => Some(
            (
                LogLevel::Info,
                "orchestration",
                join6("Run ", short_id(run_id.as_str()).as_str(), " ", stage.label(), ": ", detail.as_str()),
            ),
        ),
        RunnerEvent::RunStarted { run_id, task_count, .. } => Some(
            (
                LogLevel::Info,
                "orchestration",
                join5(
                    "Run ",
                    run_id.as_str(),
                    " started with ",
                    u64_to_string(*task_count as u64).as_str(),
                    " task(s)",
                ),
            ),
        ),
        RunnerEvent::AgentQueued { agent_id, label, reason } => Some(
            (
                LogLevel::Info,
                "locks",
                join5(label.as_str(), " queued (", short_id(agent_id.as_str()).as_str(), "): ", reason.as_str()),
            ),
        ),
        RunnerEvent::AgentStarted { agent_id, label, task } => Some(
            (
                LogLevel::Info,
                "agent",
                join5(label.as_str(), " (", short_id(agent_id.as_str()).as_str(), ") started: ", task.as_str()),
            ),
        ),
        RunnerEvent::AgentStage { agent_id, label, stage, detail, .. } => {
            let head = join4(label.as_str(), " (", short_id(agent_id.as_str()).as_str(), ") ");
            Some((stage_level_exec(*stage), "agent", join4(head.as_str(), stage.label(), ": ", detail.as_str())))
        },
        RunnerEvent::AgentFinished { agent_id, label, success, summary } => Some(
            (
                if *success {
                    LogLevel::Info
                } else {
                    LogLevel::Warn
                },
                "agent",
                join5(label.as_str(), " (", short_id(agent_id.as_str()).as_str(), ") finished: ", summary.as_str()),
            ),
        ),
        RunnerEvent::RunRedirected { run_id, message } => Some(
            (
                LogLevel::Info,
                "orchestration",
                join4("Run ", short_id(run_id.as_str()).as_str(), " redirected: ", message.as_str()),
            ),
        ),
        RunnerEvent::Reprioritised { agent_id, priority } => Some(
            (
                LogLevel::Info,
                "orchestration",
                join3(short_id(agent_id.as_str()).as_str(), " priority -> ", u64_to_string(*priority as u64).as_str()),
            ),
        ),
        RunnerEvent::Error { message } => Some((LogLevel::Error, "runner", message.clone())),
        _ => None,
    }
}

fn event_message_exec(e: &RunnerEvent, announce: bool) -> (r: Option<(MessageRole, String)>)
    ensures
        match r {
            Some((role, m)) => event_message(*e, announce) == Some((role, m@)),
            None => event_message(*e, announce) is None,
        },
{
    match e {
        RunnerEvent::RunStage { stage, detail, .. } => Some(
            (MessageRole::Agent, join3(spaced_exec(stage.label()).as_str(), ": ", detail.as_str())),
        ),
        RunnerEvent::RunStarted { goal, task_count, .. } => Some(
            (
                MessageRole::Agent,
                join4("Running ", u64_to_string(*task_count as u64).as_str(), " task(s) for: ", goal.as_str()),
            ),
        ),
        RunnerEvent::AgentQueued { label, reason, .. } => Some(
            (MessageRole::Agent, join3(label.as_str(), " is waiting: ", reason.as_str())),
        ),
        RunnerEvent::AgentStarted { label, task, .. } => Some(
            (
                MessageRole::Agent,
                join3(label.as_str(), " started: ", truncate_for_message(task.as_str(), 96).as_str()),
            ),
        ),
        RunnerEvent::AgentStage { label, stage, detail, .. } => match stage {
            AgentStage::WaitingForModel => if announce {
                Some((MessageRole::Agent, join3(label.as_str(), ": ", detail.as_str())))
            } else {
                None
            },
            AgentStage::Failed => Some((MessageRole::System, join3(label.as_str(), " failed: ", detail.as_str()))),
            AgentStage::Done => Some(
                (
                    MessageRole::Agent,
                    join3(label.as_str(), " done: ", truncate_for_message(detail.as_str(), 120).as_str()),
                ),
            ),
            AgentStage::WaitingForLock | AgentStage::ApprovalNeeded => Some(
                (MessageRole::System, join3(label.as_str(), " blocked: ", detail.as_str())),
            ),
            _ => None,
        },
        RunnerEvent::RunPaused { run_id } => Some(
            (MessageRole::System, join3("Run ", short_id(run_id.as_str()).as_str(), " paused.")),
        ),
        RunnerEvent::RunResumed { run_id } => Some(
            (MessageRole::System, join3("Run ", short_id(run_id.as_str()).as_str(), " resumed.")),
        ),
        RunnerEvent::RunCancelled { run_id } => Some(
            (MessageRole::System, join3("Run ", short_id(run_id.as_str()).as_str(), " cancelled.")),
        ),
        RunnerEvent::RunFinished { run_id, success, summary } => Some(
            (
                if *success {
                    MessageRole::Agent
                } else {
                    MessageRole::System
                },
                join4("Final summary for ", short_id(run_id.as_str()).as_str(), ":\n", summary.as_str()),
            ),
        ),
        RunnerEvent::Error { message } => Some((MessageRole::System, join2("Runner error: ", message.as_str()))),
        _ => None,
    }
}


// ── submitting ───────────────────────────────────────────────────────

/// What follows a command that the active run accepted.
#[derive(Debug, Clone, Copy, PartialEq, Eq)]
pub enum AfterSend {
    Pause,
    Resume,
    Redirect,
    Reprioritise,
    Steer,
    Cancel,
}

/// The chat message that confirms a command.
pub open spec fn after_message(a: AfterSend) -> (MessageRole, Seq<char>) {
    match a {
        AfterSend::Pause => (
            MessageRole::System,
            "Pause requested: no new agents will start. In-flight model/tool calls may still finish."@,
        ),
        AfterSend::Resume => (MessageRole::System, "Resume requested for active run."@),
        AfterSend::Redirect => (MessageRole::Agent, "Redirected active run."@),
        AfterSend::Reprioritise => (MessageRole::Agent, "Reprioritised matching active agent(s)."@),
        AfterSend::Steer => (MessageRole::Agent, "Steered the active run with your latest message."@),
        AfterSend::Cancel => (MessageRole::System, "Cancel approved."@),
    }
}

/// The status line after a command.
pub open spec fn after_status(a: AfterSend) -> Seq<char> {
    match a {
        AfterSend::Pause => "pause requested"@,
        AfterSend::Resume => "resume requested"@,
        AfterSend::Redirect => "redirect requested"@,
        AfterSend::Reprioritise => "reprioritise requested"@,
        AfterSend::Steer => "redirected active run"@,
        AfterSend::Cancel => "cancel approved"@,
    }
}

/// The run mode after a command.
pub open spec fn after_mode(m: RunMode, a: AfterSend) -> RunMode {
    match a {
        AfterSend::Pause => RunMode::Paused,
        AfterSend::Resume => RunMode::Running,
        _ => m,
    }
}

/// What the caller does after a submission or an answer.
#[derive(Debug)]
pub enum SubmitStep {
    /// Nothing more.
    Done,
    /// Refresh the orchestration view.
    Refresh,
    /// Send the command to the active run; once it is accepted, call
    /// [`App::command_sent`] with the second field.
    Send(RunnerCommand, AfterSend),
    /// Start a run for the goal; then call [`App::run_started`].
    Start(String),
}

/// The command and follow-up of a control input that sends one.
pub open spec fn control_command(c: ControlInputModel) -> Option<AfterSend> {
    match c {
        ControlInputModel::Pause => Some(AfterSend::Pause),
        ControlInputModel::Resume => Some(AfterSend::Resume),
        ControlInputModel::Redirect(_) => Some(AfterSend::Redirect),
        ControlInputModel::Reprioritise(_, _) => Some(AfterSend::Reprioritise),
        _ => None,
    }
}

/// The approval request for cancelling run `run`.
pub open spec fn cancel_details(active: Option<String>) -> Seq<char> {
    "Approve cancelling run "@ + (match active {
        Some(r) => short(r@),
        None => "-"@,
    }) + ". Press y to approve or n to deny."@
}

/// The chat messages a control input adds after the user's line, given
/// whether a run's command channel is held.
pub open spec fn control_messages(c: ControlInputModel, attached: bool) -> Seq<(MessageRole, Seq<char>)> {
    match control_command(c) {
        Some(a) => if attached {
            Seq::<(MessageRole, Seq<char>)>::empty()
        } else {
            seq![(MessageRole::System, "No active run to control."@), after_message(a)]
        },
        None => match c {
            ControlInputModel::AskCancel => seq![
                (MessageRole::System, "Cancel requires approval. Press y to approve or n to deny."@),
            ],
            ControlInputModel::Usage(m) => seq![(MessageRole::System, m)],
            ControlInputModel::Unknown => seq![
                (MessageRole::System, "Unknown command. Use /pause, /resume, /cancel, /redirect, /prio, or /help."@),
            ],
            _ => Seq::<(MessageRole, Seq<char>)>::empty(),
        },
    }
}

/// Whether a run is live and its command channel held.
pub open spec fn has_active_run(attached: bool, mode: RunMode) -> bool {
    attached && is_live_mode(mode)
}


impl RunnerEvent {
    /// Whether the event ends the run's event stream.
    pub fn is_terminal(&self) -> (r: bool)
        ensures
            r == ends_run(*self),
    {
        matches!(self, RunnerEvent::RunCancelled { .. }) || matches!(self, RunnerEvent::RunFinished { .. })
    }
}


// ── laws of the input line and the agents panel ─────────────────────

/// Typing a character and then deleting the character before the cursor
/// gives back the line and the cursor as they were.
pub proof fn law_type_then_backspace(u: UiView, c: char)
    requires
        !u.is_searching,
        0 <= u.cursor,
        on_boundary(u.input, u.cursor),
        utf8_len(u.input) < MAX_INPUT_BYTES,
    ensures
        ui_step(ui_step(u, Action::InsertChar(c)), Action::DeletePrev) == u,
{
    let s = u.input;
    let k = char_pos(s, u.cursor) as int;
    lemma_char_pos_bound(s, u.cursor);
    let u1 = ui_step(u, Action::InsertChar(c));
    let t = insert_at(s, k, c);
    assert(u1.input == t);
    assert(t.take(k + 1) =~= s.take(k) + seq![c]);
    lemma_utf8_len_concat(s.take(k), seq![c]);
    assert(seq![c].drop_first() =~= Seq::<char>::empty());
    assert(utf8_len(Seq::<char>::empty()) == 0);
    assert(utf8_len(seq![c]) == char_width(c) + utf8_len(seq![c].drop_first()));
    lemma_char_pos_of_prefix(t, k + 1);
    assert(char_pos(u1.input, u1.cursor) == k + 1);
    assert(remove_at(t, k) =~= s);
    assert(t.take(k) =~= s.take(k));
    let u2 = ui_step(u1, Action::DeletePrev);
    assert(u2.input == s);
    assert(u2.cursor == u.cursor);
}

/// Backspace deletes the character before the cursor and Delete the one
/// under it. With any modifiers but Ctrl or Alt alone, pressing Backspace
/// right after typing a character gives back the line and the cursor as
/// they were; Delete never moves the cursor, and at the end of the line it
/// changes nothing.
pub proof fn law_delete_keys(u: UiView, c: char, m: u8)
    requires
        !u.is_searching,
        0 <= u.cursor,
        on_boundary(u.input, u.cursor),
        utf8_len(u.input) < MAX_INPUT_BYTES,
        m != CONTROL,
        m != ALT,
    ensures
        (key_binding(KeyCode::Backspace, m) matches Some(a) && ui_step(
            ui_step(u, Action::InsertChar(c)),
            a,
        ) == u),
        (key_binding(KeyCode::Delete, m) matches Some(d) && ui_step(u, d).cursor == u.cursor && (
        u.cursor == utf8_len(u.input) ==> ui_step(u, d) == u)),
{
    assert(key_binding(KeyCode::Backspace, m) == Some(Action::DeletePrev));
    assert(key_binding(KeyCode::Delete, m) == Some(Action::DeleteNext));
    law_type_then_backspace(u, c);
}

/// Moving the cursor one character left and then one right puts it back.
pub proof fn law_left_then_right(u: UiView)
    requires
        !u.is_searching,
        0 < u.cursor,
        on_boundary(u.input, u.cursor),
    ensures
        ui_step(ui_step(u, Action::MoveCursorLeft), Action::MoveCursorRight) == u,
{
    let s = u.input;
    let k = char_pos(s, u.cursor) as int;
    lemma_char_pos_bound(s, u.cursor);
    if k == 0 {
        assert(s.take(0) =~= Seq::<char>::empty());
        assert(false);
    }
    let u1 = ui_step(u, Action::MoveCursorLeft);
    lemma_char_pos_of_prefix(s, k - 1);
    lemma_utf8_len_take_mono(s, k - 1, s.len() as int);
    assert(s.take(s.len() as int) =~= s);
    lemma_utf8_len_take_step(s, k - 1);
    assert(u1.cursor < utf8_len(s));
    assert(char_pos(u1.input, u1.cursor) == k - 1);
}

/// Whether rows are in label order.
pub open spec fn label_sorted(s: Seq<AgentView>) -> bool {
    forall|i: int, j: int| 0 <= i < j < s.len() ==> !str_lt(#[trigger] s[j].label, #[trigger] s[i].label)
}

/// The agents panel is always in label order, and sorting keeps every row.
pub proof fn law_sorted_by_label(s: Seq<AgentView>)
    ensures
        label_sorted(sort_by_label(s)),
        sort_by_label(s).len() == s.len(),
    decreases s.len(),
{
    if s.len() > 0 {
        law_sorted_by_label(s.drop_last());
        let d = sort_by_label(s.drop_last());
        let x = s.last();
        let l = x.label;
        lemma_label_slot_bound(d, l);
        let p = label_slot(d, l);
        let r = d.insert(p, x);
        assert forall|i: int, j: int| 0 <= i < j < r.len() implies !str_lt(#[trigger] r[j].label, #[trigger] r[i].label) by {
            if j < p {
                assert(r[i] == d[i] && r[j] == d[j]);
            } else if i > p {
                assert(r[i] == d[i - 1] && r[j] == d[j - 1]);
            } else if j == p {
                // r[i] = d[i] with i < p, so !(l < d[i].label); r[j] = x
                assert(r[i] == d[i] && r[j] == x);
                if str_lt(l, d[i].label) {
                    assert(false);
                }
                crate::text::lemma_str_lt_total(l, d[i].label);
                if str_lt(l, d[i].label) {
                } else if l == d[i].label {
                    crate::text::lemma_str_lt_irreflexive(l);
                } else {
                    crate::text::lemma_str_lt_asymmetric(d[i].label, l);
                }
            } else if i == p {
                // r[i] = x, r[j] = d[j - 1] with j - 1 >= p
                assert(r[i] == x && r[j] == d[j - 1]);
                assert(str_lt(l, d[p].label));
                if j - 1 > p {
                    assert(!str_lt(d[j - 1].label, d[p].label));
                    crate::text::lemma_str_lt_total(d[p].label, d[j - 1].label);
                    if d[p].label == d[j - 1].label {
                    } else if str_lt(d[p].label, d[j - 1].label) {
                        crate::text::lemma_str_lt_transitive(l, d[p].label, d[j - 1].label);
                    }
                }
                crate::text::lemma_str_lt_asymmetric(l, d[j - 1].label);
            } else {
                // i < p < j
                assert(r[i] == d[i] && r[j] == d[j - 1]);
            }
        }
    }
}


/// No agent has two entries in the live table.
pub open spec fn unique_live(t: Seq<LiveView>) -> bool {
    forall|i: int, j: int| 0 <= i < t.len() && 0 <= j < t.len() && i != j ==> #[trigger] t[i].agent_id
        != #[trigger] t[j].agent_id
}

/// A stage report keeps one entry per agent, and afterwards the agent's
/// entry holds what the report said.
pub proof fn law_live_report_recorded(
    t: Seq<LiveView>,
    id: Seq<char>,
    label: Seq<char>,
    stage: AgentStage,
    detail: Seq<char>,
    elapsed_ms: u64,
    now: u64,
)
    requires
        unique_live(t),
    ensures
        unique_live(live_after(t, id, label, stage, detail, elapsed_ms, now)),
        ({
            let t2 = live_after(t, id, label, stage, detail, elapsed_ms, now);
            &&& live_index(t2, id) matches Some(i)
            &&& t2[i].label == label
            &&& t2[i].stage == stage_label(stage)
            &&& t2[i].detail == detail
            &&& t2[i].last_event_at == now
            &&& t2[i].elapsed_ms >= elapsed_ms
        }),
{
    let t2 = live_after(t, id, label, stage, detail, elapsed_ms, now);
    match live_index(t, id) {
        Some(i) => {
            let c = choose|c: int| 0 <= c < t.len() && t[c].agent_id == id && forall|j: int| 0 <= j < c ==> t[j].agent_id != id;
            assert(t2[i].agent_id == id);
            assert forall|a: int, b: int| 0 <= a < t2.len() && 0 <= b < t2.len() && a != b implies #[trigger] t2[a].agent_id
                != #[trigger] t2[b].agent_id by {
                assert(t2[a].agent_id == t[a].agent_id);
                assert(t2[b].agent_id == t[b].agent_id);
            }
            let c2 = choose|c: int| 0 <= c < t2.len() && t2[c].agent_id == id && forall|j: int| 0 <= j < c ==> t2[j].agent_id != id;
            if c2 != i {
                assert(t2[c2].agent_id == t[c2].agent_id);
            }
        },
        None => {
            let n = t.len() as int;
            assert(t2[n].agent_id == id);
            assert forall|a: int, b: int| 0 <= a < t2.len() && 0 <= b < t2.len() && a != b implies #[trigger] t2[a].agent_id
                != #[trigger] t2[b].agent_id by {
                if a < n && b < n {
                    assert(t2[a] == t[a] && t2[b] == t[b]);
                } else if a < n {
                    assert(t2[a] == t[a]);
                } else {
                    assert(t2[b] == t[b]);
                }
            }
            let c2 = choose|c: int| 0 <= c < t2.len() && t2[c].agent_id == id && forall|j: int| 0 <= j < c ==> t2[j].agent_id != id;
            if c2 < n {
                assert(t2[c2] == t[c2]);
            }
            assert(forall|j: int| 0 <= j < n ==> t2[j] == t[j]);
        },
    }
}

// ── the application state ────────────────────────────────────────────

/// `std::time::Instant::now`, used to stamp messages and log lines for
/// display. Nothing is claimed of the reading.
#[verifier::external_body]
fn instant_now() -> std::time::Instant {
    std::time::Instant::now()
}

/// Most log lines kept; older ones are dropped first.
pub const MAX_LOG_ENTRIES: usize = 500;

/// Everything the terminal UI shows and edits. Times are milliseconds of
/// the UI's monotonic clock; `runner_attached` and `runner_listening` say
/// whether a run's command and event channels are held.
#[derive(Debug)]
pub struct App {
    pub db_path: String,
    pub messages: Vec<ChatMessage>,
    pub input: String,
    pub cursor: usize,
    pub focused_panel: Panel,
    pub side_scroll: usize,
    pub chat_scroll: usize,
    pub show_help: bool,
    pub should_quit: bool,
    pub orch: OrchSnapshot,
    pub running_runs: Vec<String>,
    pub mode: RunMode,
    pub last_tick: u64,
    pub log_entries: Vec<LogEntry>,
    pub skill_displays: Vec<SkillDisplay>,
    pub provider_displays: Vec<ProviderDisplay>,
    pub search_query: String,
    pub is_searching: bool,
    pub provider_name: String,
    pub model_name: String,
    pub elapsed_ms: u64,
    pub tool_call_count: u64,
    pub error_count: u64,
    pub last_action: String,
    pub runner_attached: bool,
    pub runner_listening: bool,
    pub active_run_id: Option<String>,
    pub pending_approval: Option<ApprovalRequest>,
    pub max_iterations: u32,
    pub last_runner_event_at: Option<u64>,
    pub last_runner_stage: String,
    pub stale_warning_emitted: bool,
    pub offline_run_notice_emitted: bool,
    pub live_agents: Vec<LiveAgentStatus>,
}

/// The role and text of each message.
pub open spec fn said(ms: Seq<ChatMessage>) -> Seq<(MessageRole, Seq<char>)> {
    ms.map_values(|m: ChatMessage| (m.role, m.content@))
}

/// The level, source and text of each log line.
pub open spec fn logged(ls: Seq<LogEntry>) -> Seq<(LogLevel, Seq<char>, Seq<char>)> {
    ls.map_values(|l: LogEntry| (l.level, l.source@, l.message@))
}

/// The log after appending one line: the last [`MAX_LOG_ENTRIES`] lines.
pub open spec fn log_after(ls: Seq<(LogLevel, Seq<char>, Seq<char>)>, e: (LogLevel, Seq<char>, Seq<char>)) -> Seq<
    (LogLevel, Seq<char>, Seq<char>),
> {
    let all = ls.push(e);
    if all.len() > 500 {
        all.skip(all.len() - 500)
    } else {
        all
    }
}

/// The part of the state that key actions edit.
pub struct UiView {
    pub input: Seq<char>,
    pub cursor: int,
    pub focused_panel: Panel,
    pub side_scroll: int,
    pub chat_scroll: int,
    pub show_help: bool,
    pub should_quit: bool,
    pub search_query: Seq<char>,
    pub is_searching: bool,
}

/// What a key action does to the editable state.
pub open spec fn ui_step(u: UiView, a: Action) -> UiView {
    let k = char_pos(u.input, u.cursor) as int;
    match a {
        Action::NextPanel => UiView { focused_panel: panel_at((panel_index(u.focused_panel) + 1) % 8), side_scroll: 0, ..u },
        Action::PrevPanel => UiView { focused_panel: panel_at((panel_index(u.focused_panel) + 7) % 8), side_scroll: 0, ..u },
        Action::FocusPanel(p) => UiView { focused_panel: p, side_scroll: 0, ..u },
        Action::ScrollUp => if u.focused_panel == Panel::Chat {
            UiView { chat_scroll: if u.chat_scroll > 0 { u.chat_scroll - 1 } else { 0 }, ..u }
        } else {
            UiView { side_scroll: if u.side_scroll > 0 { u.side_scroll - 1 } else { 0 }, ..u }
        },
        Action::ScrollDown => if u.focused_panel == Panel::Chat {
            UiView { chat_scroll: if u.chat_scroll < usize::MAX { u.chat_scroll + 1 } else { u.chat_scroll }, ..u }
        } else {
            UiView { side_scroll: if u.side_scroll < usize::MAX { u.side_scroll + 1 } else { u.side_scroll }, ..u }
        },
        Action::ToggleHelp => UiView { show_help: !u.show_help, ..u },
        Action::ToggleSearch => UiView {
            is_searching: !u.is_searching,
            search_query: if u.is_searching { Seq::<char>::empty() } else { u.search_query },
            ..u
        },
        Action::CancelSearch => if u.is_searching {
            UiView { is_searching: false, search_query: Seq::<char>::empty(), ..u }
        } else if u.show_help {
            UiView { show_help: false, ..u }
        } else {
            UiView { should_quit: true, ..u }
        },
        Action::Quit => UiView { should_quit: true, ..u },
        Action::InsertChar(c) => if u.is_searching {
            if utf8_len(u.search_query) < MAX_QUERY_BYTES {
                UiView { search_query: u.search_query.push(c), ..u }
            } else {
                u
            }
        } else if utf8_len(u.input) < MAX_INPUT_BYTES {
            UiView { input: insert_at(u.input, k, c), cursor: u.cursor + char_width(c), ..u }
        } else {
            u
        },
        Action::InsertNewline => if !u.is_searching && utf8_len(u.input) < MAX_INPUT_BYTES {
            UiView { input: insert_at(u.input, k, '\n'), cursor: u.cursor + 1, ..u }
        } else {
            u
        },
        Action::DeletePrev => if u.is_searching {
            UiView {
                search_query: if u.search_query.len() > 0 { u.search_query.drop_last() } else { u.search_query },
                ..u
            }
        } else if u.cursor > 0 {
            UiView { input: remove_at(u.input, k - 1), cursor: utf8_len(u.input.take(k - 1)) as int, ..u }
        } else {
            u
        },
        Action::DeleteNext => if !u.is_searching && u.cursor < utf8_len(u.input) {
            UiView { input: remove_at(u.input, k), ..u }
        } else {
            u
        },
        Action::MoveCursorLeft => if u.is_searching {
            u
        } else if k > 0 {
            UiView { cursor: utf8_len(u.input.take(k - 1)) as int, ..u }
        } else {
            UiView { cursor: 0, ..u }
        },
        Action::MoveCursorRight => if !u.is_searching && u.cursor < utf8_len(u.input) {
            UiView { cursor: u.cursor + char_width(u.input[k]), ..u }
        } else {
            u
        },
        Action::MoveCursorHome => UiView { cursor: 0, ..u },
        Action::MoveCursorEnd => UiView { cursor: utf8_len(u.input) as int, ..u },
        _ => u,
    }
}

/// `b` and `r` are the state and step after submitting the input line of `a` at `now` (see [`App::submit_goal`]).
pub open spec fn submitted(a: App, b: App, now: u64, r: SubmitStep) -> bool {
    &&& (b.input@.len() == 0)
    &&& (b.cursor == 0)
    &&& (trim(a.input@).len() == 0 ==> r is Done && b == (App {
        input: b.input,
        cursor: 0,
        ..a
    }))
    &&& (trim(a.input@).len() > 0 && control_of(trim(a.input@)) is NotCommand ==> if has_active_run(
        a.runner_attached,
        a.mode,
    ) {
        &&& r matches SubmitStep::Send(RunnerCommand::Redirect(g), AfterSend::Steer) && g@ == trim(
            a.input@,
        )
        &&& said(b.messages@) == said(a.messages@).push(
            (MessageRole::User, trim(a.input@)),
        )
        &&& b == (App { input: b.input, cursor: 0, messages: b.messages, ..a })
    } else {
        &&& r matches SubmitStep::Start(g) && g@ == trim(a.input@)
        &&& said(b.messages@) == said(a.messages@).push(
            (MessageRole::User, trim(a.input@)),
        ).push(
            (MessageRole::Agent, "Creating run, decomposing the goal, and loading execution resources..."@),
        )
        &&& b.mode == RunMode::Running
        &&& b.elapsed_ms == 0
        &&& b.last_runner_event_at == Some(now)
        &&& b.last_runner_stage@ == "creating run"@
        &&& !b.stale_warning_emitted
        &&& b.live_agents@.len() == 0
        &&& b.last_action@ == "creating run"@
        &&& b == (App {
            input: b.input,
            cursor: 0,
            messages: b.messages,
            mode: RunMode::Running,
            elapsed_ms: 0,
            last_runner_event_at: Some(now),
            last_runner_stage: b.last_runner_stage,
            stale_warning_emitted: false,
            live_agents: b.live_agents,
            last_action: b.last_action,
            ..a
        })
    })
    &&& (trim(a.input@).len() > 0 && !(control_of(trim(a.input@)) is NotCommand) ==> {
        let c = control_of(trim(a.input@));
        &&& said(b.messages@) == said(a.messages@).push(
            (MessageRole::User, trim(a.input@)),
        ) + control_messages(c, a.runner_attached)
        &&& match control_command(c) {
            Some(k) => if a.runner_attached {
                &&& r matches SubmitStep::Send(cmd, after) && after == k && control_view(ControlInput::Send(cmd)) == c
                &&& b.mode == a.mode
                &&& b.last_action == a.last_action
            } else {
                &&& r is Refresh
                &&& b.mode == after_mode(a.mode, k)
                &&& b.last_action@ == after_status(k)
            },
            None => {
                &&& r is Refresh
                &&& b.mode == a.mode
                &&& c is AskCancel ==> b.last_action@ == "cancel approval pending"@
                &&& !(c is AskCancel) ==> b.last_action == a.last_action
            },
        }
        &&& c is AskCancel ==> (b.pending_approval matches Some(req) && req.title@
            == "Cancel active run?"@ && req.details@ == cancel_details(a.active_run_id))
        &&& !(c is AskCancel) ==> b.pending_approval == a.pending_approval
        &&& b.show_help == (a.show_help || c is Help)
        &&& b == (App {
            input: b.input,
            cursor: 0,
            messages: b.messages,
            mode: b.mode,
            last_action: b.last_action,
            pending_approval: b.pending_approval,
            show_help: b.show_help,
            ..a
        })
    })
}

/// `b` and `r` are the state and step after answering yes to `a`'s pending request (see [`App::approve_pending`]).
pub open spec fn approved(a: App, b: App, r: SubmitStep) -> bool {
    &&& (b.pending_approval is None)
    &&& (a.pending_approval is None ==> r is Done && b == a)
    &&& (a.pending_approval is Some && a.runner_attached ==> {
        &&& r matches SubmitStep::Send(RunnerCommand::Cancel, AfterSend::Cancel)
        &&& b == (App { pending_approval: None, ..a })
    })
    &&& (a.pending_approval is Some && !a.runner_attached ==> {
        &&& r is Done
        &&& said(b.messages@) == said(a.messages@).push(
            (MessageRole::System, "No active run to control."@),
        ).push((MessageRole::System, "Cancel approved."@))
        &&& b.last_action@ == "cancel approved"@
        &&& b == (App {
            pending_approval: None,
            messages: b.messages,
            last_action: b.last_action,
            ..a
        })
    })
}

/// `b` is the state after answering no to `a`'s pending request (see [`App::deny_pending`]).
pub open spec fn denied(a: App, b: App) -> bool {
    &&& (b.pending_approval is None)
    &&& (said(b.messages@) == said(a.messages@).push((MessageRole::System, "Request denied."@)))
    &&& (b.last_action@ == "approval denied"@)
    &&& (b == (App {
        pending_approval: None,
        messages: b.messages,
        last_action: b.last_action,
        ..a
    }))
}

/// `b` is `a` after a tick at `now`: a running run's time advances by
/// half a second, a run quiet for 15 seconds is warned about once (in the
/// chat, in the log and as the last action), and the agents panel is
/// refreshed from the live table; nothing else changes.
pub open spec fn ticked(a: App, b: App, now: u64) -> bool {
    &&& b.elapsed_ms == if a.mode == RunMode::Running {
        if a.elapsed_ms <= u64::MAX - 500 {
            (a.elapsed_ms + 500) as u64
        } else {
            u64::MAX
        }
    } else {
        a.elapsed_ms
    }
    &&& b.last_tick == now
    &&& b.stale_warning_emitted == (a.stale_warning_emitted || goes_stale(
        a.mode,
        a.stale_warning_emitted,
        a.last_runner_event_at,
        now,
    ))
    &&& said(b.messages@) == if goes_stale(
        a.mode,
        a.stale_warning_emitted,
        a.last_runner_event_at,
        now,
    ) {
        said(a.messages@).push((MessageRole::System, stale_text(a.last_runner_stage@)))
    } else {
        said(a.messages@)
    }
    &&& agent_rows(b.orch.agents@) == sort_by_label(
        overlaid(
            agent_rows(a.orch.agents@),
            live_table(a.live_agents@),
            spinner_char(b.elapsed_ms as nat),
            now,
        ) + unlisted(
            agent_rows(a.orch.agents@),
            live_table(a.live_agents@),
            spinner_char(b.elapsed_ms as nat),
            now,
        ),
    )
    &&& b == (App {
        elapsed_ms: b.elapsed_ms,
        last_tick: b.last_tick,
        stale_warning_emitted: b.stale_warning_emitted,
        log_entries: b.log_entries,
        messages: b.messages,
        last_action: b.last_action,
        orch: OrchSnapshot { agents: b.orch.agents, ..a.orch },
        ..a
    })
    &&& goes_stale(a.mode, a.stale_warning_emitted, a.last_runner_event_at, now) ==> {
        &&& logged(b.log_entries@) == log_after(
            logged(a.log_entries@),
            (LogLevel::Warn, "orchestration"@, stale_text(a.last_runner_stage@)),
        )
        &&& b.last_action@ == "no event for 15s"@
    }
    &&& !goes_stale(a.mode, a.stale_warning_emitted, a.last_runner_event_at, now) ==> {
        &&& b.log_entries == a.log_entries
        &&& b.last_action == a.last_action
    }
}

impl App {
    /// The editable part of the state.
    pub open spec fn ui(&self) -> UiView {
        UiView {
            input: self.input@,
            cursor: self.cursor as int,
            focused_panel: self.focused_panel,
            side_scroll: self.side_scroll as int,
            chat_scroll: self.chat_scroll as int,
            show_help: self.show_help,
            should_quit: self.should_quit,
            search_query: self.search_query@,
            is_searching: self.is_searching,
        }
    }

    /// The cursor sits between two characters of the input, and the input
    /// and the query fit in memory.
    pub open spec fn wf(&self) -> bool {
        &&& on_boundary(self.input@, self.cursor as int)
        &&& utf8_len(self.input@) < usize::MAX - 4
        &&& utf8_len(self.search_query@) < usize::MAX - 4
    }

    /// An idle state with nothing typed, the chat panel in front and no
    /// run attached.
    pub fn new(db_path: String) -> (r: App)
        ensures
            r.wf(),
            r.db_path == db_path,
            r.messages@.len() == 0,
            r.input@.len() == 0,
            r.cursor == 0,
            r.focused_panel == Panel::Chat,
            !r.show_help,
            !r.should_quit,
            r.mode == RunMode::Idle,
            r.search_query@.len() == 0,
            !r.is_searching,
            !r.runner_attached,
            !r.runner_listening,
            r.active_run_id is None,
            r.pending_approval is None,
            r.max_iterations == 100,
            r.live_agents@.len() == 0,
            r.orch.agents@.len() == 0,
    {
        let r = App {
            db_path,
            messages: Vec::new(),
            input: String::new(),
            cursor: 0,
            focused_panel: Panel::Chat,
            side_scroll: 0,
            chat_scroll: 0,
            show_help: false,
            should_quit: false,
            orch: OrchSnapshot::empty(),
            running_runs: Vec::new(),
            mode: RunMode::Idle,
            last_tick: 0,
            log_entries: Vec::new(),
            skill_displays: Vec::new(),
            provider_displays: Vec::new(),
            search_query: String::new(),
            is_searching: false,
            provider_name: String::new(),
            model_name: String::new(),
            elapsed_ms: 0,
            tool_call_count: 0,
            error_count: 0,
            last_action: String::new(),
            runner_attached: false,
            runner_listening: false,
            active_run_id: None,
            pending_approval: None,
            max_iterations: 100,
            last_runner_event_at: None,
            last_runner_stage: String::new(),
            stale_warning_emitted: false,
            offline_run_notice_emitted: false,
            live_agents: Vec::new(),
        };
        proof {
            assert(r.input@.take(0) =~= Seq::<char>::empty());
            assert(utf8_len(r.input@) == 0);
            assert(utf8_len(r.search_query@) == 0);
        }
        r
    }


    /// The greeting the chat opens with.
    pub fn welcome(&mut self)
        ensures
            said(final(self).messages@) == said(old(self).messages@).push(
                (MessageRole::System, "Raven Agent - type a goal to start an orchestration run, or press ? for help."@),
            ),
            *final(self) == (App { messages: final(self).messages, ..*old(self) }),
    {
        self.add_message(
            MessageRole::System,
            owned("Raven Agent - type a goal to start an orchestration run, or press ? for help."),
        );
    }

    /// Appends a chat message.
    pub fn add_message(&mut self, role: MessageRole, content: String)
        ensures
            said(final(self).messages@) == said(old(self).messages@).push((role, content@)),
            final(self).messages@.last().run_id is None,
            *final(self) == (App { messages: final(self).messages, ..*old(self) }),
    {
        let ghost before = said(self.messages@);
        self.messages.push(ChatMessage { role, content, timestamp: instant_now(), run_id: None });
        assert(said(self.messages@) =~= before.push((role, content@)));
    }

    /// Appends a log line, dropping the oldest beyond [`MAX_LOG_ENTRIES`].
    pub fn add_log(&mut self, level: LogLevel, source: &str, message: String)
        ensures
            logged(final(self).log_entries@) == log_after(logged(old(self).log_entries@), (level, source@, message@)),
            *final(self) == (App { log_entries: final(self).log_entries, ..*old(self) }),
    {
        let ghost want = logged(self.log_entries@).push((level, source@, message@));
        self.log_entries.push(LogEntry { timestamp: instant_now(), level, source: owned(source), message });
        assert(logged(self.log_entries@) =~= want);
        let ghost mut dropped: int = 0;
        while self.log_entries.len() > MAX_LOG_ENTRIES
            invariant
                0 <= dropped <= want.len(),
                logged(self.log_entries@) == want.skip(dropped),
                dropped > 0 ==> want.len() - dropped >= MAX_LOG_ENTRIES,
                *self == (App { log_entries: self.log_entries, ..*old(self) }),
            decreases self.log_entries@.len(),
        {
            let ghost cur = self.log_entries@;
            proof {
                assert(logged(cur).len() == cur.len());
                assert(want.skip(dropped).len() == want.len() - dropped);
            }
            self.log_entries.remove(0);
            proof {
                assert(self.log_entries@ =~= cur.skip(1));
                assert(logged(self.log_entries@) =~= logged(cur).skip(1));
                assert(want.skip(dropped).skip(1) =~= want.skip(dropped + 1));
                dropped = dropped + 1;
            }
        }
        proof {
            if want.len() > 500 {
                assert(dropped == want.len() - 500);
            } else {
                assert(dropped == 0);
                assert(want.skip(0) =~= want);
            }
        }
    }


    /// Records a stage report of agent `agent_id` in the live table and
    /// says whether the chat should announce a long model wait.
    pub fn update_live_agent_status(
        &mut self,
        agent_id: &str,
        label: &str,
        stage: AgentStage,
        detail: &str,
        elapsed_ms: u64,
        now: u64,
    ) -> (r: bool)
        ensures
            r == announces(live_table(old(self).live_agents@), agent_id@, stage, elapsed_ms),
            live_table(final(self).live_agents@) == live_after(
                live_table(old(self).live_agents@),
                agent_id@,
                label@,
                stage,
                detail@,
                elapsed_ms,
                now,
            ),
            *final(self) == (App { live_agents: final(self).live_agents, ..*old(self) }),
    {
        let ghost t = live_table(self.live_agents@);
        let idx = find_live(&self.live_agents, agent_id);
        let (first, sent0, i) = match idx {
            Some(i) => (self.live_agents[i].first_seen_at, self.live_agents[i].model_wait_notice_sent, i),
            None => (now, false, self.live_agents.len()),
        };
        let since_first = since_exec(now, first);
        let announce = matches!(stage, AgentStage::WaitingForModel) && elapsed_ms >= 10_000 && !sent0;
        let entry = LiveAgentStatus {
            agent_id: owned(agent_id),
            label: owned(label),
            stage: owned(stage.label()),
            detail: owned(detail),
            current_call: call_for_exec(stage, detail),
            elapsed_ms: if elapsed_ms >= since_first { elapsed_ms } else { since_first },
            first_seen_at: first,
            last_event_at: now,
            model_wait_notice_sent: sent0 || announce,
        };
        proof {
            let prev = match live_index(t, agent_id@) {
                Some(j) => Some(t[j]),
                None => None,
            };
            if let Some(j) = idx {
                assert(t[j as int] == live_view(self.live_agents@[j as int]));
            }
            assert(live_view(entry) == live_entry_after(prev, agent_id@, label@, stage, detail@, elapsed_ms, now));
        }
        if i < self.live_agents.len() {
            self.live_agents.set(i, entry);
            proof {
                assert(live_table(self.live_agents@) =~= t.update(i as int, live_view(entry)));
            }
        } else {
            self.live_agents.push(entry);
            proof {
                assert(live_table(self.live_agents@) =~= t.push(live_view(entry)));
            }
        }
        announce
    }


    /// Lays the live table over the agents panel: rows of agents with a
    /// live entry take its stage, detail and times; live agents without a
    /// row get one; the rows end up sorted by label.
    pub fn apply_live_agent_overlays(&mut self, now: u64)
        ensures
            agent_rows(final(self).orch.agents@) == sort_by_label(
                overlaid(
                    agent_rows(old(self).orch.agents@),
                    live_table(old(self).live_agents@),
                    spinner_char(old(self).elapsed_ms as nat),
                    now,
                ) + unlisted(
                    agent_rows(old(self).orch.agents@),
                    live_table(old(self).live_agents@),
                    spinner_char(old(self).elapsed_ms as nat),
                    now,
                ),
            ),
            *final(self) == (App {
                orch: OrchSnapshot { agents: final(self).orch.agents, ..old(self).orch },
                ..*old(self)
            }),
    {
        let spin = spinner_frame(self.elapsed_ms as u128);
        let ghost rows0 = agent_rows(self.orch.agents@);
        let mut src: Vec<AgentInfo> = Vec::new();
        std::mem::swap(&mut src, &mut self.orch.agents);
        let mut done = overlay_rows(src, &self.live_agents, spin, now);
        let mut extra = unlisted_rows(&done, Ghost(rows0), &self.live_agents, spin, now);
        let ghost extra_rows = agent_rows(extra@);
        let ghost done_rows = agent_rows(done@);
        done.append(&mut extra);
        proof {
            assert(agent_rows(done@) =~= done_rows + extra_rows);
        }
        self.orch.agents = sort_rows(done);
    }


    /// Warns once when a run has sent no event for 15 seconds.
    pub fn check_stale_runner_event(&mut self, now: u64)
        ensures
            goes_stale(old(self).mode, old(self).stale_warning_emitted, old(self).last_runner_event_at, now) ==> {
                &&& final(self).stale_warning_emitted
                &&& logged(final(self).log_entries@) == log_after(
                    logged(old(self).log_entries@),
                    (LogLevel::Warn, "orchestration"@, stale_text(old(self).last_runner_stage@)),
                )
                &&& said(final(self).messages@) == said(old(self).messages@).push(
                    (MessageRole::System, stale_text(old(self).last_runner_stage@)),
                )
                &&& final(self).last_action@ == "no event for 15s"@
            },
            !goes_stale(old(self).mode, old(self).stale_warning_emitted, old(self).last_runner_event_at, now)
                ==> *final(self) == *old(self),
            *final(self) == (App {
                stale_warning_emitted: final(self).stale_warning_emitted,
                log_entries: final(self).log_entries,
                messages: final(self).messages,
                last_action: final(self).last_action,
                ..*old(self)
            }),
    {
        let live = matches!(self.mode, RunMode::Running) || matches!(self.mode, RunMode::Paused);
        if !live || self.stale_warning_emitted {
            return;
        }
        let last = match self.last_runner_event_at {
            Some(t) => t,
            None => {
                return;
            },
        };
        if since_exec(now, last) >= 15_000 {
            self.stale_warning_emitted = true;
            let mut message = owned("No runner event for 15s. Last known stage: ");
            if self.last_runner_stage.as_str().is_empty() {
                crate::text::push_all(&mut message, "unknown");
            } else {
                crate::text::push_all(&mut message, self.last_runner_stage.as_str());
            }
            crate::text::push_all(&mut message, ". The run may be blocked or waiting on external I/O.");
            assert(message@ =~= stale_text(self.last_runner_stage@));
            self.add_log(LogLevel::Warn, "orchestration", message.clone());
            self.add_message(MessageRole::System, message);
            self.last_action = owned("no event for 15s");
        }
    }

    /// The clock's tick (see [`ticked`]).
    pub fn tick(&mut self, now: u64)
        ensures
            ticked(*old(self), *final(self), now),
    {
        if matches!(self.mode, RunMode::Running) {
            self.elapsed_ms = self.elapsed_ms.saturating_add(500);
        }
        self.last_tick = now;
        self.check_stale_runner_event(now);
        self.apply_live_agent_overlays(now);
    }

    /// Applies a key action: editing, navigation and the tick. Submitting
    /// and answering a request go through [`App::handle_action`].
    pub fn dispatch(&mut self, action: Action, now: u64)
        requires
            old(self).wf(),
        ensures
            final(self).wf(),
            action != Action::Tick ==> final(self).ui() == ui_step(old(self).ui(), action),
            action != Action::Tick ==> *final(self) == (App {
                input: final(self).input,
                cursor: final(self).cursor,
                focused_panel: final(self).focused_panel,
                side_scroll: final(self).side_scroll,
                chat_scroll: final(self).chat_scroll,
                show_help: final(self).show_help,
                should_quit: final(self).should_quit,
                search_query: final(self).search_query,
                is_searching: final(self).is_searching,
                ..*old(self)
            }),
            action == Action::Tick ==> final(self).ui() == old(self).ui(),
            action == Action::Tick ==> ticked(*old(self), *final(self), now),
    {
        match action {
            Action::Tick => self.tick(now),
            _ => self.edit(&action),
        }
    }

    /// The end of a run that failed: it leaves the running runs and its
    /// command channel is dropped; the error is logged and shown, and the
    /// UI goes idle when no run is left.
    pub fn on_run_failed(&mut self, run_id: &str, error: &str)
        requires
            old(self).error_count < u64::MAX,
        ensures
            views(final(self).running_runs@) == views(old(self).running_runs@).filter(|r: Seq<char>| r != run_id@),
            !final(self).runner_attached,
            final(self).error_count == old(self).error_count + 1,
            logged(final(self).log_entries@) == log_after(
                logged(old(self).log_entries@),
                (LogLevel::Error, "orchestration"@, error@),
            ),
            said(final(self).messages@) == said(old(self).messages@).push(
                (MessageRole::System, "Failed: "@ + error@),
            ),
            final(self).mode == if views(final(self).running_runs@).len() == 0 {
                RunMode::Idle
            } else {
                old(self).mode
            },
            *final(self) == (App {
                running_runs: final(self).running_runs,
                runner_attached: false,
                error_count: final(self).error_count,
                log_entries: final(self).log_entries,
                messages: final(self).messages,
                mode: final(self).mode,
                ..*old(self)
            }),
    {
        self.running_runs = retain_other(&self.running_runs, run_id);
        self.runner_attached = false;
        self.error_count = self.error_count + 1;
        self.add_log(LogLevel::Error, "orchestration", owned(error));
        let mut m = owned("Failed: ");
        crate::text::push_all(&mut m, error);
        self.add_message(MessageRole::System, m);
        if self.running_runs.len() == 0 {
            self.mode = RunMode::Idle;
        }
    }


    /// Takes in an event of the running orchestration: the live table,
    /// the log, the chat, the run's mode and ids follow it, and the agents
    /// panel is refreshed from the live table.
    pub fn apply_runner_event(&mut self, event: RunnerEvent, now: u64)
        requires
            old(self).error_count < u64::MAX,
        ensures
            final(self).last_runner_event_at == Some(now),
            !final(self).stale_warning_emitted,
            final(self).last_runner_stage@ == note_text(event),
            live_table(final(self).live_agents@) == live_for(live_table(old(self).live_agents@), event, now),
            logged(final(self).log_entries@) == log_with(logged(old(self).log_entries@), event_log(event)),
            said(final(self).messages@) == said(old(self).messages@) + opt_seq(
                event_message(event, event_announces(live_table(old(self).live_agents@), event)),
            ),
            final(self).mode == mode_for(old(self).mode, event),
            final(self).active_run_id == match event {
                RunnerEvent::RunStarted { run_id, .. } => Some(run_id),
                RunnerEvent::RunCancelled { .. } | RunnerEvent::RunFinished { .. } => None,
                _ => old(self).active_run_id,
            },
            views(final(self).running_runs@) == match event {
                RunnerEvent::RunStarted { run_id, .. } => seq![run_id@],
                RunnerEvent::RunCancelled { run_id } => views(old(self).running_runs@).filter(
                    |r: Seq<char>| r != run_id@,
                ),
                RunnerEvent::RunFinished { run_id, .. } => views(old(self).running_runs@).filter(
                    |r: Seq<char>| r != run_id@,
                ),
                _ => views(old(self).running_runs@),
            },
            final(self).runner_attached == (old(self).runner_attached && !ends_run(event)),
            final(self).runner_listening == (old(self).runner_listening && !ends_run(event)),
            final(self).error_count == old(self).error_count + if counts_error(event) {
                1int
            } else {
                0int
            },
            final(self).last_action@ == match event {
                RunnerEvent::RunStage { stage, elapsed_ms, .. } => stage_label(stage) + " "@ + dec(elapsed_ms as nat)
                    + "ms"@,
                _ => old(self).last_action@,
            },
            agent_rows(final(self).orch.agents@) == sort_by_label(
                overlaid(
                    agent_rows(old(self).orch.agents@),
                    live_for(live_table(old(self).live_agents@), event, now),
                    spinner_char(old(self).elapsed_ms as nat),
                    now,
                ) + unlisted(
                    agent_rows(old(self).orch.agents@),
                    live_for(live_table(old(self).live_agents@), event, now),
                    spinner_char(old(self).elapsed_ms as nat),
                    now,
                ),
            ),
            *final(self) == (App {
                last_runner_event_at: final(self).last_runner_event_at,
                stale_warning_emitted: final(self).stale_warning_emitted,
                last_runner_stage: final(self).last_runner_stage,
                live_agents: final(self).live_agents,
                log_entries: final(self).log_entries,
                messages: final(self).messages,
                mode: final(self).mode,
                active_run_id: final(self).active_run_id,
                running_runs: final(self).running_runs,
                runner_attached: final(self).runner_attached,
                runner_listening: final(self).runner_listening,
                error_count: final(self).error_count,
                last_action: final(self).last_action,
                orch: OrchSnapshot { agents: final(self).orch.agents, ..old(self).orch },
                ..*old(self)
            }),
    {
        let announce = self.record_live(&event, now);
        self.last_runner_event_at = Some(now);
        self.stale_warning_emitted = false;
        self.last_runner_stage = note_text_exec(&event);
        self.report_event(&event, announce);
        self.apply_run_fields(&event);
        self.apply_live_agent_overlays(now);
    }

    /// Writes the log line and the chat message of an event.
    fn report_event(&mut self, event: &RunnerEvent, announce: bool)
        ensures
            logged(final(self).log_entries@) == log_with(logged(old(self).log_entries@), event_log(*event)),
            said(final(self).messages@) == said(old(self).messages@) + opt_seq(event_message(*event, announce)),
            *final(self) == (App {
                log_entries: final(self).log_entries,
                messages: final(self).messages,
                ..*old(self)
            }),
    {
        match event_log_exec(event) {
            Some((level, source, message)) => self.add_log(level, source, message),
            None => {},
        }
        let ghost said0 = said(self.messages@);
        match event_message_exec(event, announce) {
            Some((role, message)) => self.add_message(role, message),
            None => {},
        }
        assert(said(self.messages@) =~= said0 + opt_seq(event_message(*event, announce)));
    }

    /// The run's mode, ids, channels, error count and last action after an
    /// event.
    fn apply_run_fields(&mut self, event: &RunnerEvent)
        requires
            old(self).error_count < u64::MAX,
        ensures
            final(self).mode == mode_for(old(self).mode, *event),
            final(self).active_run_id == match *event {
                RunnerEvent::RunStarted { run_id, .. } => Some(run_id),
                RunnerEvent::RunCancelled { .. } | RunnerEvent::RunFinished { .. } => None,
                _ => old(self).active_run_id,
            },
            views(final(self).running_runs@) == match *event {
                RunnerEvent::RunStarted { run_id, .. } => seq![run_id@],
                RunnerEvent::RunCancelled { run_id } => views(old(self).running_runs@).filter(
                    |r: Seq<char>| r != run_id@,
                ),
                RunnerEvent::RunFinished { run_id, .. } => views(old(self).running_runs@).filter(
                    |r: Seq<char>| r != run_id@,
                ),
                _ => views(old(self).running_runs@),
            },
            final(self).runner_attached == (old(self).runner_attached && !ends_run(*event)),
            final(self).runner_listening == (old(self).runner_listening && !ends_run(*event)),
            final(self).error_count == old(self).error_count + if counts_error(*event) {
                1int
            } else {
                0int
            },
            final(self).last_action@ == match *event {
                RunnerEvent::RunStage { stage, elapsed_ms, .. } => stage_label(stage) + " "@ + dec(elapsed_ms as nat)
                    + "ms"@,
                _ => old(self).last_action@,
            },
            *final(self) == (App {
                mode: final(self).mode,
                active_run_id: final(self).active_run_id,
                running_runs: final(self).running_runs,
                runner_attached: final(self).runner_attached,
                runner_listening: final(self).runner_listening,
                error_count: final(self).error_count,
                last_action: final(self).last_action,
                ..*old(self)
            }),
    {
        match event {
            RunnerEvent::RunStage { stage, elapsed_ms, .. } => {
                self.last_action = join4(stage.label(), " ", u64_to_string(*elapsed_ms).as_str(), "ms");
            },
            RunnerEvent::RunStarted { run_id, .. } => {
                self.active_run_id = Some(run_id.clone());
                let mut v: Vec<String> = Vec::new();
                v.push(run_id.clone());
                assert(views(v@) =~= seq![run_id@]);
                self.running_runs = v;
                self.mode = RunMode::Running;
            },
            RunnerEvent::AgentStage { stage, .. } => {
                if matches!(stage, AgentStage::Failed) {
                    self.error_count = self.error_count + 1;
                }
            },
            RunnerEvent::RunPaused { .. } => {
                self.mode = RunMode::Paused;
            },
            RunnerEvent::RunResumed { .. } => {
                self.mode = RunMode::Running;
            },
            RunnerEvent::RunCancelled { run_id } => {
                self.mode = RunMode::Idle;
                self.running_runs = retain_other(&self.running_runs, run_id.as_str());
                self.runner_attached = false;
                self.runner_listening = false;
                self.active_run_id = None;
            },
            RunnerEvent::RunFinished { run_id, .. } => {
                self.mode = RunMode::Idle;
                self.runner_attached = false;
                self.runner_listening = false;
                self.active_run_id = None;
                self.running_runs = retain_other(&self.running_runs, run_id.as_str());
            },
            RunnerEvent::Error { .. } => {
                self.error_count = self.error_count + 1;
            },
            _ => {},
        }
    }

    /// Records what an event says of an agent in the live table; says
    /// whether a long model wait is to be announced.
    fn record_live(&mut self, event: &RunnerEvent, now: u64) -> (r: bool)
        ensures
            r == event_announces(live_table(old(self).live_agents@), *event),
            live_table(final(self).live_agents@) == live_for(live_table(old(self).live_agents@), *event, now),
            *final(self) == (App { live_agents: final(self).live_agents, ..*old(self) }),
    {
        match event {
            RunnerEvent::AgentQueued { agent_id, label, reason } => {
                self.update_live_agent_status(
                    agent_id.as_str(),
                    label.as_str(),
                    AgentStage::WaitingForLock,
                    reason.as_str(),
                    0,
                    now,
                );
                false
            },
            RunnerEvent::AgentStarted { agent_id, label, .. } => {
                self.update_live_agent_status(
                    agent_id.as_str(),
                    label.as_str(),
                    AgentStage::Planning,
                    "agent started; entering loop",
                    0,
                    now,
                );
                false
            },
            RunnerEvent::AgentStage { agent_id, label, stage, detail, elapsed_ms } => {
                self.update_live_agent_status(agent_id.as_str(), label.as_str(), *stage, detail.as_str(), *elapsed_ms, now)
            },
            RunnerEvent::AgentFinished { agent_id, label, success, summary } => {
                self.update_live_agent_status(
                    agent_id.as_str(),
                    label.as_str(),
                    if *success {
                        AgentStage::Done
                    } else {
                        AgentStage::Failed
                    },
                    summary.as_str(),
                    0,
                    now,
                );
                false
            },
            _ => false,
        }
    }


    /// Applies what follows a command that the active run accepted.
    pub fn command_sent(&mut self, after: AfterSend)
        ensures
            said(final(self).messages@) == said(old(self).messages@).push(after_message(after)),
            final(self).last_action@ == after_status(after),
            final(self).mode == after_mode(old(self).mode, after),
            *final(self) == (App {
                messages: final(self).messages,
                last_action: final(self).last_action,
                mode: final(self).mode,
                ..*old(self)
            }),
    {
        match after {
            AfterSend::Pause => {
                self.mode = RunMode::Paused;
                self.add_message(
                    MessageRole::System,
                    owned("Pause requested: no new agents will start. In-flight model/tool calls may still finish."),
                );
                self.last_action = owned("pause requested");
            },
            AfterSend::Resume => {
                self.mode = RunMode::Running;
                self.add_message(MessageRole::System, owned("Resume requested for active run."));
                self.last_action = owned("resume requested");
            },
            AfterSend::Redirect => {
                self.add_message(MessageRole::Agent, owned("Redirected active run."));
                self.last_action = owned("redirect requested");
            },
            AfterSend::Reprioritise => {
                self.add_message(MessageRole::Agent, owned("Reprioritised matching active agent(s)."));
                self.last_action = owned("reprioritise requested");
            },
            AfterSend::Steer => {
                self.add_message(MessageRole::Agent, owned("Steered the active run with your latest message."));
                self.last_action = owned("redirected active run");
            },
            AfterSend::Cancel => {
                self.add_message(MessageRole::System, owned("Cancel approved."));
                self.last_action = owned("cancel approved");
            },
        }
    }

    /// Handles a slash command: a command for the active run is handed
    /// out to be sent (or, with no run attached, reported and applied),
    /// `/cancel` asks for approval, `/help` opens the help.
    fn handle_control(&mut self, ctl: ControlInput) -> (r: SubmitStep)
        requires
            !(control_view(ctl) is NotCommand),
            ctl != ControlInput::Send(RunnerCommand::Cancel),
        ensures
            said(final(self).messages@) == said(old(self).messages@) + control_messages(
                control_view(ctl),
                old(self).runner_attached,
            ),
            match control_command(control_view(ctl)) {
                Some(a) => if old(self).runner_attached {
                    &&& r matches SubmitStep::Send(cmd, after) && after == a && ctl == ControlInput::Send(cmd)
                    &&& final(self).mode == old(self).mode
                    &&& final(self).last_action == old(self).last_action
                } else {
                    &&& r is Refresh
                    &&& final(self).mode == after_mode(old(self).mode, a)
                    &&& final(self).last_action@ == after_status(a)
                },
                None => {
                    &&& r is Refresh
                    &&& final(self).mode == old(self).mode
                    &&& control_view(ctl) is AskCancel ==> final(self).last_action@ == "cancel approval pending"@
                    &&& !(control_view(ctl) is AskCancel) ==> final(self).last_action == old(self).last_action
                },
            },
            control_view(ctl) is AskCancel ==> (final(self).pending_approval matches Some(req) && req.title@
                == "Cancel active run?"@ && req.details@ == cancel_details(old(self).active_run_id)
                && req.action == PendingDangerAction::CancelActiveRun),
            !(control_view(ctl) is AskCancel) ==> final(self).pending_approval == old(self).pending_approval,
            final(self).show_help == (old(self).show_help || control_view(ctl) is Help),
            *final(self) == (App {
                messages: final(self).messages,
                mode: final(self).mode,
                last_action: final(self).last_action,
                pending_approval: final(self).pending_approval,
                show_help: final(self).show_help,
                ..*old(self)
            }),
    {
        let ghost said0 = said(self.messages@);
        match ctl {
            ControlInput::Send(cmd) => {
                let after = match &cmd {
                    RunnerCommand::Pause => AfterSend::Pause,
                    RunnerCommand::Resume => AfterSend::Resume,
                    RunnerCommand::Redirect(_) => AfterSend::Redirect,
                    _ => AfterSend::Reprioritise,
                };
                if self.runner_attached {
                    SubmitStep::Send(cmd, after)
                } else {
                    self.add_message(MessageRole::System, owned("No active run to control."));
                    self.command_sent(after);
                    assert(said(self.messages@) =~= said0 + control_messages(control_view(ControlInput::Send(cmd)), false));
                    SubmitStep::Refresh
                }
            },
            ControlInput::AskCancel => {
                let run = match &self.active_run_id {
                    Some(r) => short_id(r.as_str()),
                    None => owned("-"),
                };
                let details = join3("Approve cancelling run ", run.as_str(), ". Press y to approve or n to deny.");
                self.pending_approval = Some(
                    ApprovalRequest {
                        title: owned("Cancel active run?"),
                        details,
                        action: PendingDangerAction::CancelActiveRun,
                    },
                );
                self.add_message(
                    MessageRole::System,
                    owned("Cancel requires approval. Press y to approve or n to deny."),
                );
                self.last_action = owned("cancel approval pending");
                assert(said(self.messages@) =~= said0 + control_messages(ControlInputModel::AskCancel, self.runner_attached));
                SubmitStep::Refresh
            },
            ControlInput::Help => {
                self.show_help = true;
                assert(said(self.messages@) =~= said0 + control_messages(ControlInputModel::Help, self.runner_attached));
                SubmitStep::Refresh
            },
            ControlInput::Usage(m) => {
                let ghost mv = m@;
                self.add_message(MessageRole::System, m);
                assert(said(self.messages@) =~= said0 + control_messages(ControlInputModel::Usage(mv), self.runner_attached));
                SubmitStep::Refresh
            },
            _ => {
                self.add_message(
                    MessageRole::System,
                    owned("Unknown command. Use /pause, /resume, /cancel, /redirect, /prio, or /help."),
                );
                assert(said(self.messages@) =~= said0 + control_messages(ControlInputModel::Unknown, self.runner_attached));
                SubmitStep::Refresh
            },
        }
    }


    /// Takes the input line: the caller gets it trimmed, and the line is
    /// emptied.
    fn take_input(&mut self) -> (r: String)
        ensures
            r@ == trim(old(self).input@),
            final(self).input@.len() == 0,
            final(self).cursor == 0,
            final(self).wf() == (utf8_len(old(self).search_query@) < usize::MAX - 4),
            *final(self) == (App { input: final(self).input, cursor: 0, ..*old(self) }),
    {
        let goal = trim_str(self.input.as_str());
        self.input = String::new();
        self.cursor = 0;
        proof {
            assert(self.input@.take(0) =~= Seq::<char>::empty());
            assert(utf8_len(self.input@) == 0);
        }
        goal
    }

    /// Submits the input line. An empty line does nothing. The line goes
    /// into the chat; a slash command is handled as such; with a live run
    /// attached the line steers it; otherwise a new run is to be started.
    pub fn submit_goal(&mut self, now: u64) -> (r: SubmitStep)
        requires
            old(self).wf(),
        ensures
            final(self).wf(),
            submitted(*old(self), *final(self), now, r),
    {
        let goal = self.take_input();
        if goal.as_str().is_empty() {
            return SubmitStep::Done;
        }
        self.add_message(MessageRole::User, goal.clone());
        let ctl = parse_control_input(goal.as_str());
        match ctl {
            ControlInput::NotCommand => {
                let live = matches!(self.mode, RunMode::Running) || matches!(self.mode, RunMode::Paused);
                if self.runner_attached && live {
                    SubmitStep::Send(RunnerCommand::Redirect(goal), AfterSend::Steer)
                } else {
                    self.mode = RunMode::Running;
                    self.elapsed_ms = 0;
                    self.last_runner_event_at = Some(now);
                    self.last_runner_stage = owned("creating run");
                    self.stale_warning_emitted = false;
                    self.live_agents = Vec::new();
                    self.last_action = owned("creating run");
                    self.add_message(
                        MessageRole::Agent,
                        owned("Creating run, decomposing the goal, and loading execution resources..."),
                    );
                    SubmitStep::Start(goal)
                }
            },
            other => self.handle_control(other),
        }
    }


    /// Answers "yes" to the pending request. Cancelling the run is handed
    /// out to be sent (with no run attached it is reported and confirmed
    /// at once); with no request pending nothing happens.
    pub fn approve_pending(&mut self) -> (r: SubmitStep)
        ensures
            approved(*old(self), *final(self), r),
    {
        let request = self.pending_approval.take();
        match request {
            None => SubmitStep::Done,
            Some(_) => {
                if self.runner_attached {
                    SubmitStep::Send(RunnerCommand::Cancel, AfterSend::Cancel)
                } else {
                    self.add_message(MessageRole::System, owned("No active run to control."));
                    self.command_sent(AfterSend::Cancel);
                    SubmitStep::Done
                }
            },
        }
    }

    /// Answers "no" to the pending request.
    pub fn deny_pending(&mut self)
        ensures
            denied(*old(self), *final(self)),
    {
        self.pending_approval = None;
        self.add_message(MessageRole::System, owned("Request denied."));
        self.last_action = owned("approval denied");
    }

    /// Records a run that was started for `goal`: it becomes the active
    /// run and its channels are held.
    pub fn run_started(&mut self, run_id: &str, goal: &str)
        ensures
            final(self).active_run_id matches Some(id) && id@ == run_id@,
            views(final(self).running_runs@) == seq![run_id@],
            final(self).runner_attached,
            final(self).runner_listening,
            final(self).last_action@ == "started run "@ + short(run_id@),
            said(final(self).messages@) == said(old(self).messages@).push(
                (
                    MessageRole::Agent,
                    "Started run "@ + run_id@ + ". Use /pause, /resume, /cancel, /redirect, or /prio."@,
                ),
            ),
            logged(final(self).log_entries@) == log_after(
                logged(old(self).log_entries@),
                (LogLevel::Info, "orchestration"@, "Started run "@ + run_id@ + ": "@ + goal@),
            ),
            *final(self) == (App {
                active_run_id: final(self).active_run_id,
                running_runs: final(self).running_runs,
                runner_attached: true,
                runner_listening: true,
                last_action: final(self).last_action,
                messages: final(self).messages,
                log_entries: final(self).log_entries,
                ..*old(self)
            }),
    {
        self.active_run_id = Some(owned(run_id));
        let mut v: Vec<String> = Vec::new();
        v.push(owned(run_id));
        assert(views(v@) =~= seq![run_id@]);
        self.running_runs = v;
        self.runner_attached = true;
        self.runner_listening = true;
        self.last_action = join2("started run ", short_id(run_id).as_str());
        self.add_message(
            MessageRole::Agent,
            join3("Started run ", run_id, ". Use /pause, /resume, /cancel, /redirect, or /prio."),
        );
        self.add_log(LogLevel::Info, "orchestration", join4("Started run ", run_id, ": ", goal));
    }

    /// Takes in a user action: submitting, answering a pending request
    /// with y or n, or anything else through [`App::dispatch`].
    pub fn handle_action(&mut self, action: Action, now: u64) -> (r: SubmitStep)
        requires
            old(self).wf(),
        ensures
            final(self).wf(),
            action == Action::Submit ==> submitted(*old(self), *final(self), now, r),
            (action == Action::InsertChar('y') || action == Action::InsertChar('Y')) && old(self).pending_approval
                is Some ==> approved(*old(self), *final(self), r),
            (action == Action::InsertChar('n') || action == Action::InsertChar('N')) && old(self).pending_approval
                is Some ==> r is Done && denied(*old(self), *final(self)),
            action == Action::Tick ==> r is Done && ticked(*old(self), *final(self), now),
            action != Action::Submit && action != Action::Tick && !((action == Action::InsertChar('n') || action
                == Action::InsertChar('N') || action == Action::InsertChar('y') || action == Action::InsertChar('Y'))
                && old(self).pending_approval is Some) ==> {
                &&& r is Done
                &&& final(self).ui() == ui_step(old(self).ui(), action)
                &&& *final(self) == (App {
                    input: final(self).input,
                    cursor: final(self).cursor,
                    focused_panel: final(self).focused_panel,
                    side_scroll: final(self).side_scroll,
                    chat_scroll: final(self).chat_scroll,
                    show_help: final(self).show_help,
                    should_quit: final(self).should_quit,
                    search_query: final(self).search_query,
                    is_searching: final(self).is_searching,
                    ..*old(self)
                })
            },
    {
        match action {
            Action::Submit => self.submit_goal(now),
            Action::InsertChar(c) => {
                if self.pending_approval.is_some() && (c == 'y' || c == 'Y') {
                    self.approve_pending()
                } else if self.pending_approval.is_some() && (c == 'n' || c == 'N') {
                    self.deny_pending();
                    SubmitStep::Done
                } else {
                    self.dispatch(Action::InsertChar(c), now);
                    SubmitStep::Done
                }
            },
            other => {
                self.dispatch(other, now);
                SubmitStep::Done
            },
        }
    }

    /// Applies a key action other than submitting, answering a request or
    /// the clock's tick.
    pub fn edit(&mut self, action: &Action)
        requires
            old(self).wf(),
        ensures
            final(self).wf(),
            final(self).ui() == ui_step(old(self).ui(), *action),
            *final(self) == (App {
                input: final(self).input,
                cursor: final(self).cursor,
                focused_panel: final(self).focused_panel,
                side_scroll: final(self).side_scroll,
                chat_scroll: final(self).chat_scroll,
                show_help: final(self).show_help,
                should_quit: final(self).should_quit,
                search_query: final(self).search_query,
                is_searching: final(self).is_searching,
                ..*old(self)
            }),
    {
        match action {
            Action::InsertChar(_) | Action::InsertNewline | Action::DeletePrev | Action::DeleteNext
            | Action::MoveCursorLeft | Action::MoveCursorRight | Action::MoveCursorHome | Action::MoveCursorEnd => {
                self.edit_text(action)
            },
            _ => self.navigate(action),
        }
    }

    /// Panels, scrolling, help, search and quitting.
    fn navigate(&mut self, action: &Action)
        requires
            old(self).wf(),
            !(action is InsertChar || action is InsertNewline || action is DeletePrev || action is DeleteNext
                || action is MoveCursorLeft || action is MoveCursorRight || action is MoveCursorHome
                || action is MoveCursorEnd),
        ensures
            final(self).wf(),
            final(self).ui() == ui_step(old(self).ui(), *action),
            *final(self) == (App {
                input: final(self).input,
                cursor: final(self).cursor,
                focused_panel: final(self).focused_panel,
                side_scroll: final(self).side_scroll,
                chat_scroll: final(self).chat_scroll,
                show_help: final(self).show_help,
                should_quit: final(self).should_quit,
                search_query: final(self).search_query,
                is_searching: final(self).is_searching,
                ..*old(self)
            }),
    {
        match action {
            Action::NextPanel => {
                self.focused_panel = self.focused_panel.next();
                self.side_scroll = 0;
            },
            Action::PrevPanel => {
                self.focused_panel = self.focused_panel.prev();
                self.side_scroll = 0;
            },
            Action::FocusPanel(p) => {
                self.focused_panel = *p;
                self.side_scroll = 0;
            },
            Action::ScrollUp => {
                if matches!(self.focused_panel, Panel::Chat) {
                    self.chat_scroll = self.chat_scroll.saturating_sub(1);
                } else {
                    self.side_scroll = self.side_scroll.saturating_sub(1);
                }
            },
            Action::ScrollDown => {
                if matches!(self.focused_panel, Panel::Chat) {
                    self.chat_scroll = self.chat_scroll.saturating_add(1);
                } else {
                    self.side_scroll = self.side_scroll.saturating_add(1);
                }
            },
            Action::ToggleHelp => {
                self.show_help = !self.show_help;
            },
            Action::ToggleSearch => {
                self.is_searching = !self.is_searching;
                if !self.is_searching {
                    self.search_query = String::new();
                }
            },
            Action::CancelSearch => {
                if self.is_searching {
                    self.is_searching = false;
                    self.search_query = String::new();
                } else if self.show_help {
                    self.show_help = false;
                } else {
                    self.should_quit = true;
                }
            },
            Action::Quit => {
                self.should_quit = true;
            },
            _ => {},
        }
    }

    /// Typing and moving in the input line or the search query.
    fn edit_text(&mut self, action: &Action)
        requires
            old(self).wf(),
            action is InsertChar || action is InsertNewline || action is DeletePrev || action is DeleteNext
                || action is MoveCursorLeft || action is MoveCursorRight || action is MoveCursorHome
                || action is MoveCursorEnd,
        ensures
            final(self).wf(),
            final(self).ui() == ui_step(old(self).ui(), *action),
            *final(self) == (App {
                input: final(self).input,
                cursor: final(self).cursor,
                focused_panel: final(self).focused_panel,
                side_scroll: final(self).side_scroll,
                chat_scroll: final(self).chat_scroll,
                show_help: final(self).show_help,
                should_quit: final(self).should_quit,
                search_query: final(self).search_query,
                is_searching: final(self).is_searching,
                ..*old(self)
            }),
    {
        match action {
            Action::InsertChar(c) => {
                if self.is_searching {
                    if byte_len(&self.search_query) < MAX_QUERY_BYTES {
                        self.push_query(*c);
                    }
                } else if byte_len(&self.input) < MAX_INPUT_BYTES {
                    self.insert_char(*c);
                }
            },
            Action::InsertNewline => {
                if !self.is_searching && byte_len(&self.input) < MAX_INPUT_BYTES {
                    self.insert_char('\n');
                }
            },
            Action::DeletePrev => {
                if self.is_searching {
                    self.pop_query();
                } else if self.cursor > 0 {
                    self.delete_prev();
                }
            },
            Action::DeleteNext => {
                if !self.is_searching && self.cursor < byte_len(&self.input) {
                    self.delete_next();
                }
            },
            Action::MoveCursorLeft => {
                if !self.is_searching {
                    self.move_left();
                }
            },
            Action::MoveCursorRight => {
                if !self.is_searching && self.cursor < byte_len(&self.input) {
                    self.move_right();
                }
            },
            Action::MoveCursorHome => {
                self.cursor = 0;
                proof {
                    assert(self.input@.take(0) =~= Seq::<char>::empty());
                }
            },
            Action::MoveCursorEnd => {
                self.cursor = byte_len(&self.input);
                proof {
                    lemma_char_pos_of_prefix(self.input@, self.input@.len() as int);
                    assert(self.input@.take(self.input@.len() as int) =~= self.input@);
                }
            },
            _ => {},
        }
    }

    /// Appends `c` to the search query.
    fn push_query(&mut self, c: char)
        requires
            old(self).wf(),
            utf8_len(old(self).search_query@) < MAX_QUERY_BYTES,
        ensures
            final(self).wf(),
            final(self).ui() == (UiView { search_query: old(self).search_query@.push(c), ..old(self).ui() }),
            *final(self) == (App {
                input: final(self).input,
                cursor: final(self).cursor,
                focused_panel: final(self).focused_panel,
                side_scroll: final(self).side_scroll,
                chat_scroll: final(self).chat_scroll,
                show_help: final(self).show_help,
                should_quit: final(self).should_quit,
                search_query: final(self).search_query,
                is_searching: final(self).is_searching,
                ..*old(self)
            }),
    {
        let ghost q0 = self.search_query@;
        let mut q = chars_of(self.search_query.as_str());
        q.push(c);
        self.search_query = string_of(q.as_slice());
        proof {
            lemma_utf8_len_concat(q0, seq![c]);
            assert(seq![c].drop_first() =~= Seq::<char>::empty());
            assert(utf8_len(Seq::<char>::empty()) == 0);
            assert(utf8_len(seq![c]) == char_width(c) + utf8_len(seq![c].drop_first()));
            assert(q0 + seq![c] =~= q0.push(c));
        }
    }

    /// Drops the last character of the search query, if any.
    fn pop_query(&mut self)
        requires
            old(self).wf(),
        ensures
            final(self).wf(),
            final(self).ui() == (UiView {
                search_query: if old(self).search_query@.len() > 0 {
                    old(self).search_query@.drop_last()
                } else {
                    old(self).search_query@
                },
                ..old(self).ui()
            }),
            *final(self) == (App {
                input: final(self).input,
                cursor: final(self).cursor,
                focused_panel: final(self).focused_panel,
                side_scroll: final(self).side_scroll,
                chat_scroll: final(self).chat_scroll,
                show_help: final(self).show_help,
                should_quit: final(self).should_quit,
                search_query: final(self).search_query,
                is_searching: final(self).is_searching,
                ..*old(self)
            }),
    {
        let ghost q0 = self.search_query@;
        let mut q = chars_of(self.search_query.as_str());
        if q.len() > 0 {
            q.pop();
            self.search_query = string_of(q.as_slice());
            proof {
                lemma_utf8_len_concat(q0.drop_last(), seq![q0.last()]);
                assert(q0.drop_last() + seq![q0.last()] =~= q0);
            }
        }
    }

    /// Deletes the character before the cursor.
    fn delete_prev(&mut self)
        requires
            old(self).wf(),
            !old(self).is_searching,
            old(self).cursor > 0,
        ensures
            final(self).wf(),
            final(self).ui() == ui_step(old(self).ui(), Action::DeletePrev),
            *final(self) == (App {
                input: final(self).input,
                cursor: final(self).cursor,
                focused_panel: final(self).focused_panel,
                side_scroll: final(self).side_scroll,
                chat_scroll: final(self).chat_scroll,
                show_help: final(self).show_help,
                should_quit: final(self).should_quit,
                search_query: final(self).search_query,
                is_searching: final(self).is_searching,
                ..*old(self)
            }),
    {
        let ghost s = self.input@;
        let cs = chars_of(self.input.as_str());
        let (k, _) = locate(cs.as_slice(), self.cursor);
        proof {
            if k == 0 {
                assert(s.take(0) =~= Seq::<char>::empty());
            }
        }
        let p = self.prefix_bytes(cs.as_slice(), k - 1);
        self.input = build(cs.as_slice(), k - 1, None, true);
        self.cursor = p;
        proof {
            assert(self.input@ =~= remove_at(s, k - 1));
            assert(self.input@.take(k - 1) =~= s.take(k - 1));
            lemma_char_pos_of_prefix(self.input@, k - 1);
            assert(self.input@ =~= s.take(k - 1) + s.skip(k as int));
            lemma_utf8_len_concat(s.take(k - 1), s.skip(k as int));
            lemma_utf8_len_concat(s.take(k - 1), s.skip(k - 1));
            assert(s =~= s.take(k - 1) + s.skip(k - 1));
            assert(s.skip(k - 1) =~= seq![s[k - 1]] + s.skip(k as int));
            lemma_utf8_len_concat(seq![s[k - 1]], s.skip(k as int));
        }
    }

    /// Deletes the character after the cursor.
    fn delete_next(&mut self)
        requires
            old(self).wf(),
            !old(self).is_searching,
            old(self).cursor < utf8_len(old(self).input@),
        ensures
            final(self).wf(),
            final(self).ui() == ui_step(old(self).ui(), Action::DeleteNext),
            *final(self) == (App {
                input: final(self).input,
                cursor: final(self).cursor,
                focused_panel: final(self).focused_panel,
                side_scroll: final(self).side_scroll,
                chat_scroll: final(self).chat_scroll,
                show_help: final(self).show_help,
                should_quit: final(self).should_quit,
                search_query: final(self).search_query,
                is_searching: final(self).is_searching,
                ..*old(self)
            }),
    {
        let ghost s = self.input@;
        let cs = chars_of(self.input.as_str());
        let (k, _) = locate(cs.as_slice(), self.cursor);
        proof {
            if k as int == s.len() {
                assert(s.take(k as int) =~= s);
            }
        }
        self.input = build(cs.as_slice(), k, None, true);
        proof {
            assert(self.input@ =~= remove_at(s, k as int));
            assert(self.input@.take(k as int) =~= s.take(k as int));
            lemma_char_pos_of_prefix(self.input@, k as int);
            lemma_utf8_len_concat(s.take(k as int), s.skip(k + 1));
            assert(s =~= s.take(k as int) + s.skip(k as int));
            lemma_utf8_len_concat(s.take(k as int), s.skip(k as int));
            assert(s.skip(k as int) =~= seq![s[k as int]] + s.skip(k + 1));
            lemma_utf8_len_concat(seq![s[k as int]], s.skip(k + 1));
        }
    }

    /// Moves the cursor one character left.
    fn move_left(&mut self)
        requires
            old(self).wf(),
            !old(self).is_searching,
        ensures
            final(self).wf(),
            final(self).ui() == ui_step(old(self).ui(), Action::MoveCursorLeft),
            *final(self) == (App {
                input: final(self).input,
                cursor: final(self).cursor,
                focused_panel: final(self).focused_panel,
                side_scroll: final(self).side_scroll,
                chat_scroll: final(self).chat_scroll,
                show_help: final(self).show_help,
                should_quit: final(self).should_quit,
                search_query: final(self).search_query,
                is_searching: final(self).is_searching,
                ..*old(self)
            }),
    {
        let cs = chars_of(self.input.as_str());
        let (k, _) = locate(cs.as_slice(), self.cursor);
        if k > 0 {
            self.cursor = self.prefix_bytes(cs.as_slice(), k - 1);
            proof {
                lemma_char_pos_of_prefix(self.input@, k - 1);
            }
        } else {
            self.cursor = 0;
            proof {
                assert(self.input@.take(0) =~= Seq::<char>::empty());
            }
        }
    }

    /// Moves the cursor one character right.
    fn move_right(&mut self)
        requires
            old(self).wf(),
            !old(self).is_searching,
            old(self).cursor < utf8_len(old(self).input@),
        ensures
            final(self).wf(),
            final(self).ui() == ui_step(old(self).ui(), Action::MoveCursorRight),
            *final(self) == (App {
                input: final(self).input,
                cursor: final(self).cursor,
                focused_panel: final(self).focused_panel,
                side_scroll: final(self).side_scroll,
                chat_scroll: final(self).chat_scroll,
                show_help: final(self).show_help,
                should_quit: final(self).should_quit,
                search_query: final(self).search_query,
                is_searching: final(self).is_searching,
                ..*old(self)
            }),
    {
        let cs = chars_of(self.input.as_str());
        let (k, _) = locate(cs.as_slice(), self.cursor);
        proof {
            if k as int == self.input@.len() {
                assert(self.input@.take(k as int) =~= self.input@);
            }
            lemma_utf8_len_take_step(self.input@, k as int);
            lemma_utf8_len_take_mono(self.input@, k + 1, self.input@.len() as int);
            assert(self.input@.take(self.input@.len() as int) =~= self.input@);
            lemma_char_pos_of_prefix(self.input@, k + 1);
        }
        self.cursor = self.cursor + utf8_width(cs[k]);
    }

    /// The byte count of the first `k` characters of the input.
    fn prefix_bytes(&self, cs: &[char], k: usize) -> (r: usize)
        requires
            cs@ == self.input@,
            k <= cs@.len(),
            utf8_len(self.input@) < usize::MAX,
        ensures
            r == utf8_len(self.input@.take(k as int)),
    {
        proof {
            lemma_utf8_len_take_mono(self.input@, k as int, self.input@.len() as int);
            assert(self.input@.take(self.input@.len() as int) =~= self.input@);
        }
        let mut i: usize = 0;
        let mut acc: usize = 0;
        assert(cs@.take(0) =~= Seq::<char>::empty());
        while i < k
            invariant
                i <= k <= cs@.len(),
                cs@ == self.input@,
                acc == utf8_len(cs@.take(i as int)),
                utf8_len(cs@.take(k as int)) < usize::MAX,
            decreases k - i,
        {
            proof {
                lemma_utf8_len_take_step(cs@, i as int);
                lemma_utf8_len_take_mono(cs@, i + 1, k as int);
            }
            acc = acc + utf8_width(cs[i]);
            i = i + 1;
        }
        acc
    }

    /// Inserts `c` at the cursor and moves the cursor past it.
    fn insert_char(&mut self, c: char)
        requires
            old(self).wf(),
            utf8_len(old(self).input@) < MAX_INPUT_BYTES,
        ensures
            final(self).wf(),
            final(self).input@ == insert_at(
                old(self).input@,
                char_pos(old(self).input@, old(self).cursor as int) as int,
                c,
            ),
            final(self).cursor == old(self).cursor + char_width(c),
            final(self).ui() == (UiView { input: final(self).input@, cursor: final(self).cursor as int, ..old(self).ui() }),
            *final(self) == (App {
                input: final(self).input,
                cursor: final(self).cursor,
                focused_panel: final(self).focused_panel,
                side_scroll: final(self).side_scroll,
                chat_scroll: final(self).chat_scroll,
                show_help: final(self).show_help,
                should_quit: final(self).should_quit,
                search_query: final(self).search_query,
                is_searching: final(self).is_searching,
                ..*old(self)
            }),
    {
        let ghost s = self.input@;
        let cs = chars_of(self.input.as_str());
        let (k, _) = locate(cs.as_slice(), self.cursor);
        proof {
            lemma_char_pos_bound(s, self.cursor as int);
            lemma_utf8_len_take_mono(s, k as int, s.len() as int);
            assert(s.take(s.len() as int) =~= s);
        }
        self.input = build(cs.as_slice(), k, Some(c), false);
        self.cursor = self.cursor + utf8_width(c);
        proof {
            let t = self.input@;
            assert(t =~= insert_at(s, k as int, c));
            assert(t.take(k + 1) =~= s.take(k as int) + seq![c]);
            lemma_utf8_len_concat(s.take(k as int), seq![c]);
            assert(seq![c].drop_first() =~= Seq::<char>::empty());
            assert(utf8_len(Seq::<char>::empty()) == 0);
            assert(utf8_len(seq![c]) == char_width(c) + utf8_len(seq![c].drop_first()));
            lemma_char_pos_of_prefix(t, k + 1);
            assert(t =~= (s.take(k as int) + seq![c]) + s.skip(k as int));
            lemma_utf8_len_concat(s.take(k as int) + seq![c], s.skip(k as int));
            assert(s =~= s.take(k as int) + s.skip(k as int));
            lemma_utf8_len_concat(s.take(k as int), s.skip(k as int));
        }
    }
}

} // verus!
