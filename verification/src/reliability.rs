//! Per-tool reliability samples: redacted outcome classes kept in a bounded
//! window per tool, and the counts taken over them.
//!
//! A sample keeps only its outcome class, duration and completion time.
use vstd::prelude::*;
use crate::fallback::distinct;
use crate::text::{owned, str_eq, views};

verus! {

/// The clock, in milliseconds since the Unix epoch.
///
/// Calls `chrono::Utc::now().timestamp_millis()`; nothing is claimed of the
/// value.
#[verifier::external_body]
fn now_millis() -> (r: i64) {
    chrono::Utc::now().timestamp_millis()
}

/// Redacted class of a tool attempt.
#[derive(Debug, Clone, Copy, PartialEq, Eq)]
pub enum ReliabilityOutcome {
    Success,
    PolicyDenial,
    ValidationFailure,
    TransportFailure,
    ToolFailure,
}

/// The stored name of an outcome class.
pub open spec fn outcome_name(o: ReliabilityOutcome) -> Seq<char> {
    match o {
        ReliabilityOutcome::Success => "success"@,
        ReliabilityOutcome::PolicyDenial => "policy_denial"@,
        ReliabilityOutcome::ValidationFailure => "validation_failure"@,
        ReliabilityOutcome::TransportFailure => "transport_failure"@,
        ReliabilityOutcome::ToolFailure => "tool_failure"@,
    }
}

/// The outcome class stored under a name, if any.
pub open spec fn outcome_of(s: Seq<char>) -> Option<ReliabilityOutcome> {
    if s == "success"@ {
        Some(ReliabilityOutcome::Success)
    } else if s == "policy_denial"@ {
        Some(ReliabilityOutcome::PolicyDenial)
    } else if s == "validation_failure"@ {
        Some(ReliabilityOutcome::ValidationFailure)
    } else if s == "transport_failure"@ {
        Some(ReliabilityOutcome::TransportFailure)
    } else if s == "tool_failure"@ {
        Some(ReliabilityOutcome::ToolFailure)
    } else {
        None
    }
}

impl ReliabilityOutcome {
    /// The stored name of the class.
    pub fn as_str(self) -> (r: &'static str)
        ensures
            r@ == outcome_name(self),
    {
        match self {
            ReliabilityOutcome::Success => "success",
            ReliabilityOutcome::PolicyDenial => "policy_denial",
            ReliabilityOutcome::ValidationFailure => "validation_failure",
            ReliabilityOutcome::TransportFailure => "transport_failure",
            ReliabilityOutcome::ToolFailure => "tool_failure",
        }
    }

    /// The class stored under `value`; `None` for an unknown name.
    pub fn parse(value: &str) -> (r: Option<ReliabilityOutcome>)
        ensures
            r == outcome_of(value@),
    {
        if str_eq(value, "success") {
            Some(ReliabilityOutcome::Success)
        } else if str_eq(value, "policy_denial") {
            Some(ReliabilityOutcome::PolicyDenial)
        } else if str_eq(value, "validation_failure") {
            Some(ReliabilityOutcome::ValidationFailure)
        } else if str_eq(value, "transport_failure") {
            Some(ReliabilityOutcome::TransportFailure)
        } else if str_eq(value, "tool_failure") {
            Some(ReliabilityOutcome::ToolFailure)
        } else {
            None
        }
    }

    /// Whether the attempt succeeded.
    pub fn is_success(self) -> (r: bool)
        ensures
            r == (self == ReliabilityOutcome::Success),
    {
        matches!(self, ReliabilityOutcome::Success)
    }
}

/// Reading back the stored name of a class gives the class, and only a
/// stored name reads back as a class.
pub proof fn lemma_outcome_roundtrip(o: ReliabilityOutcome, s: Seq<char>)
    ensures
        outcome_of(outcome_name(o)) == Some(o),
        outcome_of(s) == Some(o) ==> s == outcome_name(o),
{
    reveal_strlit("success");
    reveal_strlit("policy_denial");
    reveal_strlit("validation_failure");
    reveal_strlit("transport_failure");
    reveal_strlit("tool_failure");
    assert("success"@.len() == 7);
    assert("policy_denial"@.len() == 13);
    assert("validation_failure"@.len() == 18);
    assert("transport_failure"@.len() == 17);
    assert("tool_failure"@.len() == 12);
}

/// What kind of error a failed tool call reported; only the kind is kept.
#[derive(Debug, Clone, Copy, PartialEq, Eq)]
pub enum ToolErrorKind {
    PermissionDenied,
    Validation,
    Serialization,
    Network,
    Timeout,
    RateLimit,
    Provider,
    /// A tool error caused by a JSON error.
    ToolJson,
    /// Any other error.
    Other,
}

/// The outcome class of an error kind.
pub open spec fn error_class(k: ToolErrorKind) -> ReliabilityOutcome {
    match k {
        ToolErrorKind::PermissionDenied => ReliabilityOutcome::PolicyDenial,
        ToolErrorKind::Validation | ToolErrorKind::Serialization | ToolErrorKind::ToolJson => ReliabilityOutcome::ValidationFailure,
        ToolErrorKind::Network | ToolErrorKind::Timeout | ToolErrorKind::RateLimit | ToolErrorKind::Provider => ReliabilityOutcome::TransportFailure,
        ToolErrorKind::Other => ReliabilityOutcome::ToolFailure,
    }
}

/// Classifies a tool error by its kind, never by its text.
pub fn classify_tool_error(kind: ToolErrorKind) -> (r: ReliabilityOutcome)
    ensures
        r == error_class(kind),
{
    match kind {
        ToolErrorKind::PermissionDenied => ReliabilityOutcome::PolicyDenial,
        ToolErrorKind::Validation | ToolErrorKind::Serialization | ToolErrorKind::ToolJson => ReliabilityOutcome::ValidationFailure,
        ToolErrorKind::Network | ToolErrorKind::Timeout | ToolErrorKind::RateLimit | ToolErrorKind::Provider => ReliabilityOutcome::TransportFailure,
        ToolErrorKind::Other => ReliabilityOutcome::ToolFailure,
    }
}

/// An error is classed by where it arose: a refused permission is a policy
/// denial; bad input or output a validation failure; the network, a
/// timeout, a rate limit or the provider a transport failure; anything else
/// a failure of the tool. No error is ever classed as a success.
pub proof fn law_error_classes(k: ToolErrorKind)
    ensures
        error_class(k) != ReliabilityOutcome::Success,
        error_class(k) == ReliabilityOutcome::TransportFailure <==> (k == ToolErrorKind::Network || k
            == ToolErrorKind::Timeout || k == ToolErrorKind::RateLimit || k == ToolErrorKind::Provider),
        error_class(k) == ReliabilityOutcome::PolicyDenial <==> k == ToolErrorKind::PermissionDenied,
        error_class(k) == ReliabilityOutcome::ValidationFailure <==> (k == ToolErrorKind::Validation || k
            == ToolErrorKind::Serialization || k == ToolErrorKind::ToolJson),
        error_class(k) == ReliabilityOutcome::ToolFailure <==> k == ToolErrorKind::Other,
{
}

/// One redacted tool attempt.
#[derive(Debug, Clone, Copy, PartialEq, Eq)]
pub struct CallRecord {
    pub outcome: ReliabilityOutcome,
    pub duration_ms: u64,
    /// When the attempt completed (milliseconds since the epoch).
    pub timestamp: i64,
}

impl CallRecord {
    /// A sample completed at `timestamp`.
    pub fn at(outcome: ReliabilityOutcome, duration_ms: u64, timestamp: i64) -> (r: CallRecord)
        ensures
            r == (CallRecord { outcome, duration_ms, timestamp }),
    {
        CallRecord { outcome, duration_ms, timestamp }
    }

    /// A sample completed now, by the clock.
    pub fn new(outcome: ReliabilityOutcome, duration_ms: u64) -> (r: CallRecord)
        ensures
            r.outcome == outcome,
            r.duration_ms == duration_ms,
    {
        CallRecord::at(outcome, duration_ms, now_millis())
    }

    /// A successful sample completed now.
    pub fn success(duration_ms: u64) -> (r: CallRecord)
        ensures
            r.outcome == ReliabilityOutcome::Success,
            r.duration_ms == duration_ms,
    {
        CallRecord::new(ReliabilityOutcome::Success, duration_ms)
    }

    /// A failed sample completed now; the error text is not kept.
    pub fn failure(duration_ms: u64, _error: &str) -> (r: CallRecord)
        ensures
            r.outcome == ReliabilityOutcome::ToolFailure,
            r.duration_ms == duration_ms,
    {
        CallRecord::new(ReliabilityOutcome::ToolFailure, duration_ms)
    }
}

/// The last `w` samples of `s` (all of them when there are fewer).
pub open spec fn window(s: Seq<CallRecord>, w: nat) -> Seq<CallRecord> {
    if s.len() > w {
        s.skip(s.len() - w)
    } else {
        s
    }
}

/// Keeps only the last `window_size` samples.
pub fn trim(records: &mut Vec<CallRecord>, window_size: usize)
    ensures
        final(records)@ == window(old(records)@, window_size as nat),
{
    if records.len() > window_size {
        let drop = records.len() - window_size;
        let mut kept: Vec<CallRecord> = Vec::new();
        let mut i: usize = drop;
        while i < records.len()
            invariant
                drop <= i <= records@.len(),
                kept@ == records@.subrange(drop as int, i as int),
            decreases records@.len() - i,
        {
            kept.push(records[i]);
            i = i + 1;
            assert(kept@ =~= records@.subrange(drop as int, i as int));
        }
        *records = kept;
    }
}

/// A window never holds more than its size, and it holds the latest samples.
pub proof fn lemma_window_bounded(s: Seq<CallRecord>, w: nat)
    ensures
        window(s, w).len() <= w || window(s, w) == s,
        window(s, w).len() == if s.len() > w {
            w
        } else {
            s.len()
        },
        forall|k: int|
            0 <= k < window(s, w).len() ==> #[trigger] window(s, w)[k] == s[s.len() - window(s, w).len() + k],
{
}

/// Counts over a tool's samples.
#[derive(Debug, Clone, Copy, PartialEq, Eq)]
pub struct ReliabilityCounts {
    pub total_calls: usize,
    pub success_count: usize,
    pub failure_count: usize,
    pub policy_denial_count: usize,
    pub validation_failure_count: usize,
    pub transport_failure_count: usize,
    pub tool_failure_count: usize,
    /// Sum of the durations, for the average.
    pub total_duration_ms: u128,
    /// Samples still to come before the window is full.
    pub calls_until_mature: usize,
    /// Completion time of the latest sample.
    pub latest_timestamp: Option<i64>,
}

/// How many samples have outcome `o`.
pub open spec fn count_of(s: Seq<CallRecord>, o: ReliabilityOutcome) -> nat
    decreases s.len(),
{
    if s.len() == 0 {
        0
    } else {
        count_of(s.drop_last(), o) + if s.last().outcome == o {
            1nat
        } else {
            0nat
        }
    }
}

/// The sum of the durations.
pub open spec fn duration_sum(s: Seq<CallRecord>) -> nat
    decreases s.len(),
{
    if s.len() == 0 {
        0
    } else {
        duration_sum(s.drop_last()) + s.last().duration_ms as nat
    }
}

proof fn lemma_count_le(s: Seq<CallRecord>, o: ReliabilityOutcome)
    ensures
        count_of(s, o) <= s.len(),
    decreases s.len(),
{
    if s.len() > 0 {
        lemma_count_le(s.drop_last(), o);
    }
}

proof fn lemma_duration_bound(s: Seq<CallRecord>)
    ensures
        duration_sum(s) <= s.len() * 0xffff_ffff_ffff_ffffnat,
    decreases s.len(),
{
    if s.len() > 0 {
        lemma_duration_bound(s.drop_last());
        assert(s.len() * 0xffff_ffff_ffff_ffffnat == (s.len() - 1) * 0xffff_ffff_ffff_ffffnat + 0xffff_ffff_ffff_ffffnat) by (nonlinear_arith);
    }
}

/// Samples that agree in outcome and duration, place by place, have the
/// same outcome counts and the same duration sum.
proof fn lemma_counts_by_class(a: Seq<CallRecord>, b: Seq<CallRecord>)
    requires
        a.len() == b.len(),
        forall|i: int| 0 <= i < a.len() ==> a[i].outcome == b[i].outcome && a[i].duration_ms == b[i].duration_ms,
    ensures
        forall|o: ReliabilityOutcome| count_of(a, o) == count_of(b, o),
        duration_sum(a) == duration_sum(b),
    decreases a.len(),
{
    if a.len() > 0 {
        lemma_counts_by_class(a.drop_last(), b.drop_last());
        assert(a.last().outcome == b.last().outcome && a.last().duration_ms == b.last().duration_ms) by {
            assert(a[a.len() - 1] == a.last());
            assert(b[b.len() - 1] == b.last());
        }
        assert forall|o: ReliabilityOutcome| count_of(a, o) == count_of(b, o) by {
            assert(count_of(a.drop_last(), o) == count_of(b.drop_last(), o));
        }
    }
}

/// The error text of a failure is not kept: two failures of the same
/// duration leave the same counts behind (total, each class, failures,
/// duration sum, calls still to come); only the latest completion time can
/// tell them apart.
pub proof fn law_error_text_not_kept(s: Seq<CallRecord>, r1: CallRecord, r2: CallRecord, w: nat)
    requires
        r1.outcome == r2.outcome,
        r1.duration_ms == r2.duration_ms,
    ensures
        counts_of(window(s.push(r1), w), w) == (ReliabilityCounts {
            latest_timestamp: counts_of(window(s.push(r1), w), w).latest_timestamp,
            ..counts_of(window(s.push(r2), w), w)
        }),
{
    let a = window(s.push(r1), w);
    let b = window(s.push(r2), w);
    assert(a.len() == b.len());
    assert forall|i: int| 0 <= i < a.len() implies a[i].outcome == b[i].outcome && a[i].duration_ms == b[i].duration_ms by {
        if s.push(r1).len() > w {
            assert(a[i] == s.push(r1)[i + (s.len() + 1 - w)]);
            assert(b[i] == s.push(r2)[i + (s.len() + 1 - w)]);
        }
    }
    lemma_counts_by_class(a, b);
}

/// What the counts over `s` are, for a window of `w`.
pub open spec fn counts_of(s: Seq<CallRecord>, w: nat) -> ReliabilityCounts {
    let success = count_of(s, ReliabilityOutcome::Success);
    ReliabilityCounts {
        total_calls: s.len() as usize,
        success_count: success as usize,
        failure_count: (s.len() - success) as usize,
        policy_denial_count: count_of(s, ReliabilityOutcome::PolicyDenial) as usize,
        validation_failure_count: count_of(s, ReliabilityOutcome::ValidationFailure) as usize,
        transport_failure_count: count_of(s, ReliabilityOutcome::TransportFailure) as usize,
        tool_failure_count: count_of(s, ReliabilityOutcome::ToolFailure) as usize,
        total_duration_ms: duration_sum(s) as u128,
        calls_until_mature: if w > s.len() {
            (w - s.len()) as usize
        } else {
            0
        },
        latest_timestamp: if s.len() == 0 {
            None
        } else {
            Some(s.last().timestamp)
        },
    }
}

/// The counts over a tool's samples.
pub fn count_samples(s: &[CallRecord], window_size: usize) -> (r: ReliabilityCounts)
    requires
        s@.len() < 0x1_0000_0000_0000_0000,
    ensures
        r == counts_of(s@, window_size as nat),
{
    let mut success: usize = 0;
    let mut policy: usize = 0;
    let mut validation: usize = 0;
    let mut transport: usize = 0;
    let mut tool: usize = 0;
    let mut dur: u128 = 0;
    let mut i: usize = 0;
    while i < s.len()
        invariant
            i <= s@.len(),
            s@.len() < 0x1_0000_0000_0000_0000,
            success == count_of(s@.take(i as int), ReliabilityOutcome::Success),
            policy == count_of(s@.take(i as int), ReliabilityOutcome::PolicyDenial),
            validation == count_of(s@.take(i as int), ReliabilityOutcome::ValidationFailure),
            transport == count_of(s@.take(i as int), ReliabilityOutcome::TransportFailure),
            tool == count_of(s@.take(i as int), ReliabilityOutcome::ToolFailure),
            dur == duration_sum(s@.take(i as int)),
        decreases s@.len() - i,
    {
        let ghost t0 = s@.take(i as int);
        let ghost t1 = s@.take(i + 1);
        proof {
            assert(t1.drop_last() =~= t0);
            lemma_count_le(t0, ReliabilityOutcome::Success);
            lemma_count_le(t0, ReliabilityOutcome::PolicyDenial);
            lemma_count_le(t0, ReliabilityOutcome::ValidationFailure);
            lemma_count_le(t0, ReliabilityOutcome::TransportFailure);
            lemma_count_le(t0, ReliabilityOutcome::ToolFailure);
            lemma_duration_bound(t0);
            assert(t0.len() * 0xffff_ffff_ffff_ffffnat + 0xffff_ffff_ffff_ffffnat <= 0x1_0000_0000_0000_0000nat * 0xffff_ffff_ffff_ffffnat) by (nonlinear_arith)
                requires
                    t0.len() < 0x1_0000_0000_0000_0000,
            ;
        }
        let r = s[i];
        match r.outcome {
            ReliabilityOutcome::Success => success = success + 1,
            ReliabilityOutcome::PolicyDenial => policy = policy + 1,
            ReliabilityOutcome::ValidationFailure => validation = validation + 1,
            ReliabilityOutcome::TransportFailure => transport = transport + 1,
            ReliabilityOutcome::ToolFailure => tool = tool + 1,
        }
        dur = dur + r.duration_ms as u128;
        i = i + 1;
    }
    proof {
        assert(s@.take(i as int) =~= s@);
        lemma_count_le(s@, ReliabilityOutcome::Success);
    }
    let total = s.len();
    ReliabilityCounts {
        total_calls: total,
        success_count: success,
        failure_count: total - success,
        policy_denial_count: policy,
        validation_failure_count: validation,
        transport_failure_count: transport,
        tool_failure_count: tool,
        total_duration_ms: dur,
        calls_until_mature: if window_size > total {
            window_size - total
        } else {
            0
        },
        latest_timestamp: if total == 0 {
            None
        } else {
            Some(s[total - 1].timestamp)
        },
    }
}

/// Every sample has exactly one class.
pub proof fn lemma_classes_partition(s: Seq<CallRecord>)
    ensures
        count_of(s, ReliabilityOutcome::Success) + count_of(s, ReliabilityOutcome::PolicyDenial)
            + count_of(s, ReliabilityOutcome::ValidationFailure) + count_of(
            s,
            ReliabilityOutcome::TransportFailure,
        ) + count_of(s, ReliabilityOutcome::ToolFailure) == s.len(),
    decreases s.len(),
{
    if s.len() > 0 {
        lemma_classes_partition(s.drop_last());
    }
}

/// The names of a tracker's entries.
pub open spec fn tracked_names(es: Seq<(String, Vec<CallRecord>)>) -> Seq<Seq<char>> {
    es.map_values(|e: (String, Vec<CallRecord>)| e.0@)
}

/// The samples recorded for `name` (none when it was never recorded).
pub open spec fn samples_in(es: Seq<(String, Vec<CallRecord>)>, name: Seq<char>) -> Seq<CallRecord> {
    if exists|i: int| 0 <= i < es.len() && es[i].0@ == name {
        es[choose|i: int| 0 <= i < es.len() && es[i].0@ == name].1@
    } else {
        seq![]
    }
}

/// The total number of samples.
pub open spec fn total_samples(es: Seq<(String, Vec<CallRecord>)>) -> nat
    decreases es.len(),
{
    if es.len() == 0 {
        0
    } else {
        total_samples(es.drop_last()) + es.last().1@.len()
    }
}

/// Replacing one entry changes the total by the difference of the two
/// entries' sample counts.
proof fn lemma_total_update(es: Seq<(String, Vec<CallRecord>)>, i: int, e: (String, Vec<CallRecord>))
    requires
        0 <= i < es.len(),
    ensures
        total_samples(es.update(i, e)) == total_samples(es) - es[i].1@.len() + e.1@.len(),
    decreases es.len(),
{
    let u = es.update(i, e);
    if i == es.len() - 1 {
        assert(u.drop_last() =~= es.drop_last());
    } else {
        lemma_total_update(es.drop_last(), i, e);
        assert(u.drop_last() =~= es.drop_last().update(i, e));
    }
}

/// The names of the tools that have samples, in entry order.
pub open spec fn names_with_samples(es: Seq<(String, Vec<CallRecord>)>) -> Seq<Seq<char>>
    decreases es.len(),
{
    if es.len() == 0 {
        seq![]
    } else if es.last().1@.len() > 0 {
        names_with_samples(es.drop_last()).push(es.last().0@)
    } else {
        names_with_samples(es.drop_last())
    }
}

/// How many tools have samples.
pub open spec fn tools_with_samples(es: Seq<(String, Vec<CallRecord>)>) -> nat
    decreases es.len(),
{
    if es.len() == 0 {
        0
    } else {
        tools_with_samples(es.drop_last()) + if es.last().1@.len() > 0 {
            1nat
        } else {
            0nat
        }
    }
}

/// The samples of each tool, each kept to the latest `window_size`.
pub struct ReliabilityTracker {
    window_size: usize,
    records: Vec<(String, Vec<CallRecord>)>,
}

impl ReliabilityTracker {
    /// The samples kept for `name`.
    pub closed spec fn samples(&self, name: Seq<char>) -> Seq<CallRecord> {
        samples_in(self.records@, name)
    }

    /// The window size.
    pub closed spec fn window_spec(&self) -> nat {
        self.window_size as nat
    }

    /// The entries, one per tool name.
    pub closed spec fn entries(&self) -> Seq<(String, Vec<CallRecord>)> {
        self.records@
    }

    /// Each tool has one entry, holding at most the window.
    pub closed spec fn wf(&self) -> bool {
        &&& distinct(tracked_names(self.records@))
        &&& forall|i: int| 0 <= i < self.records@.len() ==> (#[trigger] self.records@[i]).1@.len() <= self.window_size
    }

    /// A tracker with no samples.
    pub fn new(window_size: usize) -> (r: ReliabilityTracker)
        ensures
            r.wf(),
            r.window_spec() == window_size,
            forall|n: Seq<char>| r.samples(n).len() == 0,
            r.entries().len() == 0,
    {
        ReliabilityTracker { window_size, records: Vec::new() }
    }

    fn index_of(&self, name: &str) -> (r: Option<usize>)
        requires
            self.wf(),
        ensures
            match r {
                Some(i) => i < self.records@.len() && self.records@[i as int].0@ == name@ && self.samples(name@) == self.records@[i as int].1@,
                None => forall|i: int| 0 <= i < self.records@.len() ==> (#[trigger] self.records@[i]).0@ != name@,
            },
    {
        let mut i: usize = 0;
        while i < self.records.len()
            invariant
                i <= self.records@.len(),
                distinct(tracked_names(self.records@)),
                forall|k: int| 0 <= k < i ==> (#[trigger] self.records@[k]).0@ != name@,
            decreases self.records@.len() - i,
        {
            if str_eq(self.records[i].0.as_str(), name) {
                proof {
                    let es = self.records@;
                    let c = choose|k: int| 0 <= k < es.len() && es[k].0@ == name@;
                    if c != i as int {
                        assert(tracked_names(es)[c] != tracked_names(es)[i as int]);
                    }
                }
                return Some(i);
            }
            i = i + 1;
        }
        None
    }

    /// Adds a sample for `name`, keeping only the latest `window_size`.
    pub fn record(&mut self, name: &str, record: CallRecord)
        requires
            old(self).wf(),
        ensures
            final(self).wf(),
            final(self).window_spec() == old(self).window_spec(),
            final(self).samples(name@) == window(old(self).samples(name@).push(record), old(self).window_spec()),
            forall|n: Seq<char>| n != name@ ==> final(self).samples(n) == old(self).samples(n),
            total_samples(final(self).entries()) == total_samples(old(self).entries()) + if old(self).samples(
                name@,
            ).len() < old(self).window_spec() {
                1int
            } else {
                0int
            },
    {
        let ghost before = self.records@;
        match self.index_of(name) {
            Some(i) => {
                let (n, mut samples) = self.records.remove(i);
                samples.push(record);
                trim(&mut samples, self.window_size);
                self.records.insert(i, (n, samples));
                proof {
                    let now = self.records@;
                    assert(now =~= before.update(i as int, now[i as int]));
                    assert(tracked_names(now) =~= tracked_names(before));
                    lemma_samples_update(before, i as int, now[i as int]);
                    lemma_total_update(before, i as int, now[i as int]);
                    assert(before[i as int].1@.len() <= self.window_size);
                }
            },
            None => {
                let mut samples: Vec<CallRecord> = Vec::new();
                samples.push(record);
                trim(&mut samples, self.window_size);
                self.records.push((owned(name), samples));
                proof {
                    let now = self.records@;
                    assert(now =~= before.push(now[before.len() as int]));
                    assert(samples_in(before, name@) =~= seq![]);
                    assert(seq![record] =~= Seq::<CallRecord>::empty().push(record));
                    lemma_samples_push(before, now[before.len() as int]);
                    assert(now.drop_last() =~= before);
                }
            },
        }
    }

    /// Adds a sample of class `outcome` completed now.
    pub fn record_outcome(&mut self, name: &str, outcome: ReliabilityOutcome, duration_ms: u64)
        requires
            old(self).wf(),
        ensures
            final(self).wf(),
            final(self).window_spec() == old(self).window_spec(),
            exists|r: CallRecord|
                r.outcome == outcome && r.duration_ms == duration_ms && final(self).samples(name@)
                    == window(old(self).samples(name@).push(r), old(self).window_spec()),
            forall|n: Seq<char>| n != name@ ==> final(self).samples(n) == old(self).samples(n),
    {
        let r = CallRecord::new(outcome, duration_ms);
        self.record(name, r);
    }

    /// Adds a successful sample completed now.
    pub fn record_success(&mut self, name: &str, duration_ms: u64)
        requires
            old(self).wf(),
        ensures
            final(self).wf(),
            final(self).window_spec() == old(self).window_spec(),
            exists|r: CallRecord|
                r.outcome == ReliabilityOutcome::Success && r.duration_ms == duration_ms && final(self).samples(name@)
                    == window(old(self).samples(name@).push(r), old(self).window_spec()),
            forall|n: Seq<char>| n != name@ ==> final(self).samples(n) == old(self).samples(n),
    {
        self.record_outcome(name, ReliabilityOutcome::Success, duration_ms);
    }

    /// Adds a failed sample completed now; the error text is not kept.
    pub fn record_failure(&mut self, name: &str, duration_ms: u64, error: &str)
        requires
            old(self).wf(),
        ensures
            final(self).wf(),
            final(self).window_spec() == old(self).window_spec(),
            exists|r: CallRecord|
                r.outcome == ReliabilityOutcome::ToolFailure && r.duration_ms == duration_ms && final(self).samples(name@)
                    == window(old(self).samples(name@).push(r), old(self).window_spec()),
            forall|n: Seq<char>| n != name@ ==> final(self).samples(n) == old(self).samples(n),
    {
        let r = CallRecord::failure(duration_ms, error);
        self.record(name, r);
    }

    /// The samples kept for `name`.
    pub fn samples_for(&self, name: &str) -> (r: &[CallRecord])
        requires
            self.wf(),
        ensures
            r@ == self.samples(name@),
    {
        match self.index_of(name) {
            Some(i) => self.records[i].1.as_slice(),
            None => {
                assert(self.samples(name@) =~= seq![]);
                &[]
            },
        }
    }

    /// The counts over the samples kept for `name`.
    pub fn get(&self, name: &str) -> (r: ReliabilityCounts)
        requires
            self.wf(),
        ensures
            r == counts_of(self.samples(name@), self.window_spec()),
    {
        let s = self.samples_for(name);
        proof {
            if let Some(i) = (if exists|i: int| 0 <= i < self.records@.len() && self.records@[i].0@ == name@ {
                Some(choose|i: int| 0 <= i < self.records@.len() && self.records@[i].0@ == name@)
            } else {
                None::<int>
            }) {
                assert(self.records@[i].1@.len() <= self.window_size);
            }
        }
        count_samples(s, self.window_size)
    }

    /// Forgets the samples of `name`.
    pub fn reset(&mut self, name: &str)
        requires
            old(self).wf(),
        ensures
            final(self).wf(),
            final(self).window_spec() == old(self).window_spec(),
            final(self).samples(name@).len() == 0,
            forall|n: Seq<char>| n != name@ ==> final(self).samples(n) == old(self).samples(n),
    {
        let ghost before = self.records@;
        if let Some(i) = self.index_of(name) {
            self.records.remove(i);
            proof {
                lemma_samples_remove(before, i as int);
            }
        }
    }

    /// Forgets every sample.
    pub fn reset_all(&mut self)
        requires
            old(self).wf(),
        ensures
            final(self).wf(),
            final(self).window_spec() == old(self).window_spec(),
            forall|n: Seq<char>| final(self).samples(n).len() == 0,
            final(self).entries().len() == 0,
    {
        self.records = Vec::new();
    }

    /// How many tools have samples.
    pub fn tool_count(&self) -> (r: usize)
        ensures
            r == tools_with_samples(self.entries()),
    {
        let mut c: usize = 0;
        let mut i: usize = 0;
        while i < self.records.len()
            invariant
                i <= self.records@.len(),
                c == tools_with_samples(self.records@.take(i as int)),
                c <= i,
            decreases self.records@.len() - i,
        {
            assert(self.records@.take(i + 1).drop_last() =~= self.records@.take(i as int));
            if self.records[i].1.len() > 0 {
                c = c + 1;
            }
            i = i + 1;
        }
        assert(self.records@.take(i as int) =~= self.records@);
        c
    }

    /// The names of the tools that have samples, in the order in which
    /// each was first recorded.
    pub fn tool_names(&self) -> (r: Vec<String>)
        ensures
            views(r@) == names_with_samples(self.entries()),
    {
        let mut names: Vec<String> = Vec::new();
        let mut i: usize = 0;
        while i < self.records.len()
            invariant
                i <= self.records@.len(),
                views(names@) == names_with_samples(self.records@.take(i as int)),
            decreases self.records@.len() - i,
        {
            assert(self.records@.take(i + 1).drop_last() =~= self.records@.take(i as int));
            if self.records[i].1.len() > 0 {
                let ghost before = names@;
                names.push(owned(self.records[i].0.as_str()));
                assert(views(names@) =~= views(before).push(self.records@[i as int].0@));
            }
            i = i + 1;
        }
        assert(self.records@.take(i as int) =~= self.records@);
        names
    }

    /// How many samples are kept in all.
    pub fn sample_count(&self) -> (r: usize)
        requires
            total_samples(self.entries()) <= usize::MAX,
        ensures
            r == total_samples(self.entries()),
    {
        let mut c: usize = 0;
        let mut i: usize = 0;
        while i < self.records.len()
            invariant
                i <= self.records@.len(),
                c == total_samples(self.records@.take(i as int)),
                total_samples(self.records@) <= usize::MAX,
            decreases self.records@.len() - i,
        {
            assert(self.records@.take(i + 1).drop_last() =~= self.records@.take(i as int));
            proof {
                lemma_total_prefix(self.records@, i + 1);
            }
            c = c + self.records[i].1.len();
            i = i + 1;
        }
        assert(self.records@.take(i as int) =~= self.records@);
        c
    }

    /// Loads stored samples, in storage order; each is added as by
    /// [`Self::record`], so each tool keeps its latest `window_size`.
    pub fn load(&mut self, samples: &Vec<(String, CallRecord)>)
        requires
            old(self).wf(),
        ensures
            final(self).wf(),
            final(self).window_spec() == old(self).window_spec(),
            forall|n: Seq<char>|
                #[trigger] final(self).samples(n) == window(
                    old(self).samples(n) + samples_named(samples@, n),
                    old(self).window_spec(),
                ),
    {
        let mut i: usize = 0;
        while i < samples.len()
            invariant
                i <= samples@.len(),
                self.wf(),
                self.window_spec() == old(self).window_spec(),
                forall|n: Seq<char>|
                    #[trigger] self.samples(n) == window(
                        old(self).samples(n) + samples_named(samples@.take(i as int), n),
                        old(self).window_spec(),
                    ),
            decreases samples@.len() - i,
        {
            let ghost mid = *self;
            self.record(samples[i].0.as_str(), samples[i].1);
            proof {
                let w = old(self).window_spec();
                let x = samples@[i as int];
                assert(samples@.take(i + 1).drop_last() =~= samples@.take(i as int));
                assert forall|n: Seq<char>|
                    #[trigger] self.samples(n) == window(
                        old(self).samples(n) + samples_named(samples@.take(i + 1), n),
                        w,
                    ) by {
                    let before = old(self).samples(n) + samples_named(samples@.take(i as int), n);
                    if n == x.0@ {
                        lemma_window_push(before, x.1, w);
                        assert(before.push(x.1) =~= old(self).samples(n) + samples_named(
                            samples@.take(i + 1),
                            n,
                        ));
                    } else {
                        assert(samples_named(samples@.take(i + 1), n) == samples_named(
                            samples@.take(i as int),
                            n,
                        ));
                    }
                }
            }
            i = i + 1;
        }
        assert(samples@.take(samples@.len() as int) =~= samples@);
    }
}

/// The samples of `pairs` whose tool is `name`, in order.
pub open spec fn samples_named(pairs: Seq<(String, CallRecord)>, name: Seq<char>) -> Seq<CallRecord>
    decreases pairs.len(),
{
    if pairs.len() == 0 {
        seq![]
    } else if pairs.last().0@ == name {
        samples_named(pairs.drop_last(), name).push(pairs.last().1)
    } else {
        samples_named(pairs.drop_last(), name)
    }
}

/// Trimming before a push keeps the same window as trimming after it.
proof fn lemma_window_push(s: Seq<CallRecord>, x: CallRecord, w: nat)
    ensures
        window(window(s, w).push(x), w) == window(s.push(x), w),
{
    if s.len() > w {
        assert(window(s, w).push(x) =~= s.push(x).skip(s.len() - w));
        assert(window(window(s, w).push(x), w) =~= window(s.push(x), w));
    } else {
        assert(window(s, w) == s);
    }
}

proof fn lemma_total_prefix(es: Seq<(String, Vec<CallRecord>)>, t: int)
    requires
        0 <= t <= es.len(),
    ensures
        total_samples(es.take(t)) <= total_samples(es),
    decreases es.len() - t,
{
    if t < es.len() {
        lemma_total_prefix(es, t + 1);
        assert(es.take(t + 1).drop_last() =~= es.take(t));
    } else {
        assert(es.take(t) =~= es);
    }
}

proof fn lemma_samples_update(es: Seq<(String, Vec<CallRecord>)>, i: int, e: (String, Vec<CallRecord>))
    requires
        distinct(tracked_names(es)),
        0 <= i < es.len(),
        e.0@ == es[i].0@,
    ensures
        distinct(tracked_names(es.update(i, e))),
        samples_in(es.update(i, e), e.0@) == e.1@,
        forall|n: Seq<char>| n != e.0@ ==> samples_in(es.update(i, e), n) == samples_in(es, n),
{
    let now = es.update(i, e);
    assert(tracked_names(now) =~= tracked_names(es));
    let c = choose|k: int| 0 <= k < now.len() && now[k].0@ == e.0@;
    assert(now[i].0@ == e.0@);
    if c != i {
        assert(tracked_names(es)[c] != tracked_names(es)[i]);
    }
    assert forall|n: Seq<char>| n != e.0@ implies samples_in(now, n) == samples_in(es, n) by {
        if exists|k: int| 0 <= k < es.len() && es[k].0@ == n {
            let k = choose|k: int| 0 <= k < es.len() && es[k].0@ == n;
            assert(k != i);
            assert(now[k] == es[k]);
            let k2 = choose|k2: int| 0 <= k2 < now.len() && now[k2].0@ == n;
            assert(k2 != i);
            assert(now[k2] == es[k2]);
            if k2 != k {
                assert(tracked_names(es)[k2] != tracked_names(es)[k]);
            }
        } else {
            assert forall|k: int| 0 <= k < now.len() implies now[k].0@ != n by {
                if k != i {
                    assert(now[k] == es[k]);
                }
            }
        }
    }
}

proof fn lemma_samples_push(es: Seq<(String, Vec<CallRecord>)>, e: (String, Vec<CallRecord>))
    requires
        distinct(tracked_names(es)),
        forall|k: int| 0 <= k < es.len() ==> (#[trigger] es[k]).0@ != e.0@,
    ensures
        distinct(tracked_names(es.push(e))),
        samples_in(es.push(e), e.0@) == e.1@,
        forall|n: Seq<char>| n != e.0@ ==> samples_in(es.push(e), n) == samples_in(es, n),
{
    let now = es.push(e);
    let tn = tracked_names(now);
    assert(tn =~= tracked_names(es).push(e.0@));
    assert forall|a: int, b: int| 0 <= a < tn.len() && 0 <= b < tn.len() && a != b implies tn[a] != tn[b] by {
        if a == es.len() {
            assert(es[b].0@ != e.0@);
        } else if b == es.len() {
            assert(es[a].0@ != e.0@);
        } else {
            assert(tracked_names(es)[a] != tracked_names(es)[b]);
        }
    }
    let c = choose|k: int| 0 <= k < now.len() && now[k].0@ == e.0@;
    assert(now[es.len() as int].0@ == e.0@);
    if c != es.len() {
        assert(now[c] == es[c]);
    }
    assert forall|n: Seq<char>| n != e.0@ implies samples_in(now, n) == samples_in(es, n) by {
        if exists|k: int| 0 <= k < es.len() && es[k].0@ == n {
            let k = choose|k: int| 0 <= k < es.len() && es[k].0@ == n;
            assert(now[k] == es[k]);
            let k2 = choose|k2: int| 0 <= k2 < now.len() && now[k2].0@ == n;
            assert(k2 < es.len());
            assert(now[k2] == es[k2]);
            if k2 != k {
                assert(tracked_names(es)[k2] != tracked_names(es)[k]);
            }
        } else {
            assert forall|k: int| 0 <= k < now.len() implies now[k].0@ != n by {
                if k < es.len() {
                    assert(now[k] == es[k]);
                }
            }
        }
    }
}

proof fn lemma_samples_remove(es: Seq<(String, Vec<CallRecord>)>, i: int)
    requires
        distinct(tracked_names(es)),
        0 <= i < es.len(),
    ensures
        distinct(tracked_names(es.remove(i))),
        samples_in(es.remove(i), es[i].0@).len() == 0,
        forall|n: Seq<char>| n != es[i].0@ ==> samples_in(es.remove(i), n) == samples_in(es, n),
{
    let now = es.remove(i);
    let name = es[i].0@;
    let tn = tracked_names(now);
    let to = tracked_names(es);
    assert forall|a: int, b: int| 0 <= a < tn.len() && 0 <= b < tn.len() && a != b implies tn[a] != tn[b] by {
        let a2 = if a < i { a } else { a + 1 };
        let b2 = if b < i { b } else { b + 1 };
        assert(tn[a] == to[a2]);
        assert(tn[b] == to[b2]);
    }
    assert forall|k: int| 0 <= k < now.len() implies now[k].0@ != name by {
        let k2 = if k < i { k } else { k + 1 };
        assert(now[k] == es[k2]);
        assert(to[k2] != to[i]);
    }
    assert forall|n: Seq<char>| n != name implies samples_in(now, n) == samples_in(es, n) by {
        if exists|k: int| 0 <= k < es.len() && es[k].0@ == n {
            let k = choose|k: int| 0 <= k < es.len() && es[k].0@ == n;
            assert(k != i);
            let kn = if k < i { k } else { k - 1 };
            assert(now[kn] == es[k]);
            let k2 = choose|k2: int| 0 <= k2 < now.len() && now[k2].0@ == n;
            let k3 = if k2 < i { k2 } else { k2 + 1 };
            assert(now[k2] == es[k3]);
            if k3 != k {
                assert(to[k3] != to[k]);
            }
        } else {
            assert forall|k: int| 0 <= k < now.len() implies now[k].0@ != n by {
                let k2 = if k < i { k } else { k + 1 };
                assert(now[k] == es[k2]);
            }
        }
    }
}

} // verus!
