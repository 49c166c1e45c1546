//! The row form in which the job store keeps a scheduled job: the id as
//! hyphenated UUID text, times as RFC 3339 text and the numbers as the
//! store's signed 64-bit integers. Writing a job gives a row; reading a
//! row gives the job back, or the reason it cannot be read.
use vstd::prelude::*;
use crate::cron::{MIN_TIMESTAMP, MAX_TIMESTAMP};
use crate::reliability::{lemma_outcome_roundtrip, outcome_name, outcome_of, CallRecord, ReliabilityOutcome};
use crate::scheduler::PersistedJob;
use crate::skills::opt_view;
use crate::text::{owned, push_all};

verus! {

/// What chrono's `DateTime::parse_from_rfc3339` makes of a text: the
/// instant in whole Unix seconds and in whole Unix milliseconds, or the
/// text of its parse error.
pub uninterp spec fn rfc3339_instant(text: Seq<char>) -> Result<(i64, i64), Seq<char>>;

/// The text that chrono's `to_rfc3339` writes for the UTC instant
/// `secs` seconds and `nanos` nanoseconds after the epoch.
pub uninterp spec fn rfc3339_text(secs: i64, nanos: u32) -> Seq<char>;

/// What uuid's `Uuid::parse_str` makes of a text: the UUID as an integer,
/// or the text of its parse error.
pub uninterp spec fn uuid_parsed(text: Seq<char>) -> Result<u128, Seq<char>>;

/// The hyphenated text that uuid's `Display` writes for a UUID.
pub uninterp spec fn uuid_hyphenated(id: u128) -> Seq<char>;

/// Calls chrono's `DateTime::parse_from_rfc3339` and keeps the instant's
/// `timestamp()` and `timestamp_millis()`, or the parse error's text. The
/// contract claims only that the outcome is a function of the text.
#[verifier::external_body]
fn parse_rfc3339(text: &str) -> (r: Result<(i64, i64), String>)
    ensures
        match r {
            Ok(t) => rfc3339_instant(text@) == Ok::<(i64, i64), Seq<char>>(t),
            Err(e) => rfc3339_instant(text@) == Err::<(i64, i64), Seq<char>>(e@),
        },
{
    match chrono::DateTime::parse_from_rfc3339(text) {
        Ok(dt) => Ok((dt.timestamp(), dt.timestamp_millis())),
        Err(e) => Err(e.to_string()),
    }
}

/// First second of the year 0, the earliest instant whose RFC 3339 text
/// has a four-digit year.
pub const RFC3339_MIN: i64 = -62167219200i64;

/// Last second of the year 9999, the latest instant whose RFC 3339 text
/// has a four-digit year.
pub const RFC3339_MAX: i64 = 253402300799i64;

/// Calls chrono's `DateTime::from_timestamp(secs, nanos)` and
/// `to_rfc3339`. The contract claims that the text is a function of the
/// instant and, for an instant in the years 0 to 9999, that chrono's
/// RFC 3339 parser reads the same instant back from it: there the writer
/// emits a four-digit year and as many fraction digits as the nanoseconds
/// need, and the parser accepts such text. Outside those years the writer
/// emits a signed year of other width, which the parser rejects; nothing
/// is claimed of reading those back. `requires` keeps the instant within
/// what chrono's `DateTime<Utc>` holds, where `from_timestamp` gives
/// `Some`, and leaves out leap-second nanoseconds.
#[verifier::external_body]
fn format_rfc3339(secs: i64, nanos: u32) -> (r: String)
    requires
        MIN_TIMESTAMP <= secs <= MAX_TIMESTAMP,
        nanos < 1_000_000_000,
    ensures
        r@ == rfc3339_text(secs, nanos),
        RFC3339_MIN <= secs <= RFC3339_MAX ==> rfc3339_instant(r@) == (Ok::<(i64, i64), Seq<char>>(
            (secs, (secs * 1000 + nanos / 1_000_000) as i64),
        )),
{
    chrono::DateTime::from_timestamp(secs, nanos).unwrap().to_rfc3339()
}

/// Calls uuid's `Uuid::parse_str` and keeps `as_u128()`, or the parse
/// error's text. The contract claims only that the outcome is a function
/// of the text.
#[verifier::external_body]
fn parse_uuid(text: &str) -> (r: Result<u128, String>)
    ensures
        match r {
            Ok(id) => uuid_parsed(text@) == Ok::<u128, Seq<char>>(id),
            Err(e) => uuid_parsed(text@) == Err::<u128, Seq<char>>(e@),
        },
{
    match uuid::Uuid::parse_str(text) {
        Ok(u) => Ok(u.as_u128()),
        Err(e) => Err(e.to_string()),
    }
}

/// Calls uuid's `Uuid::from_u128(id).to_string()`. The contract claims that
/// the text is a function of `id` and that `Uuid::parse_str` reads the
/// same UUID back from it, as uuid documents for every format it writes.
#[verifier::external_body]
fn format_uuid(id: u128) -> (r: String)
    ensures
        r@ == uuid_hyphenated(id),
        uuid_parsed(r@) == (Ok::<u128, Seq<char>>(id)),
{
    uuid::Uuid::from_u128(id).to_string()
}

/// One stored job as the store's columns hold it.
#[derive(Debug, Clone)]
pub struct JobRow {
    pub id: String,
    pub name: String,
    pub cron_expr: String,
    pub task_goal: Option<String>,
    pub max_iterations: i64,
    pub enabled: i64,
    pub last_run: Option<String>,
    pub next_run: Option<String>,
    pub run_count: i64,
    pub created_at: String,
}

/// An optional time column read as an instant: a text that does not parse
/// reads as no time at all.
pub open spec fn time_column(text: Option<Seq<char>>) -> Option<i64> {
    match text {
        Some(s) => match rfc3339_instant(s) {
            Ok(t) => Some(t.0),
            Err(_) => None,
        },
        None => None,
    }
}

/// Why a row cannot be read, if it cannot: its creation time is checked
/// first, then its id.
pub open spec fn row_error(row: JobRow) -> Option<Seq<char>> {
    match rfc3339_instant(row.created_at@) {
        Err(m) => Some("Invalid created_at: "@ + m),
        Ok(_) => match uuid_parsed(row.id@) {
            Err(m) => Some("Invalid job id '"@ + row.id@ + "': "@ + m),
            Ok(_) => None,
        },
    }
}

/// `job` is what reading `row` gives.
pub open spec fn reads_as(row: JobRow, job: PersistedJob) -> bool {
    &&& uuid_parsed(row.id@) == Ok::<u128, Seq<char>>(job.id)
    &&& rfc3339_instant(row.created_at@) matches Ok(t) && t.0 == job.created_at
    &&& job.name@ == row.name@
    &&& job.cron_expr@ == row.cron_expr@
    &&& opt_view(job.task_goal) == opt_view(row.task_goal)
    &&& job.max_iterations == row.max_iterations as u32
    &&& job.enabled == (row.enabled != 0)
    &&& job.last_run == time_column(opt_view(row.last_run))
    &&& job.next_run == time_column(opt_view(row.next_run))
    &&& job.run_count == row.run_count as u64
}

/// A time that chrono's `DateTime<Utc>` can hold.
pub open spec fn in_range(t: i64) -> bool {
    MIN_TIMESTAMP <= t <= MAX_TIMESTAMP
}

/// A time whose written text reads back: one in the years 0 to 9999.
pub open spec fn readable(t: i64) -> bool {
    RFC3339_MIN <= t <= RFC3339_MAX
}

/// The job's times all read back once written.
pub open spec fn round_trips(job: PersistedJob) -> bool {
    &&& readable(job.created_at)
    &&& (job.last_run matches Some(t) ==> readable(t))
    &&& (job.next_run matches Some(t) ==> readable(t))
}

/// The job's times can all be written.
pub open spec fn writable(job: PersistedJob) -> bool {
    &&& in_range(job.created_at)
    &&& (job.last_run matches Some(t) ==> in_range(t))
    &&& (job.next_run matches Some(t) ==> in_range(t))
}

fn copy_opt(o: &Option<String>) -> (r: Option<String>)
    ensures
        opt_view(r) == opt_view(*o),
{
    match o {
        Some(s) => Some(owned(s.as_str())),
        None => None,
    }
}

/// An optional time as the store writes it.
pub fn write_time(t: &Option<i64>) -> (r: Option<String>)
    requires
        *t matches Some(x) ==> in_range(x),
    ensures
        match *t {
            Some(x) => r matches Some(s) && s@ == rfc3339_text(x, 0) && (readable(x) ==> time_column(Some(s@))
                == Some(x)),
            None => r is None,
        },
{
    match t {
        Some(x) => Some(format_rfc3339(*x, 0)),
        None => None,
    }
}

fn read_time(text: &Option<String>) -> (r: Option<i64>)
    ensures
        r == time_column(opt_view(*text)),
{
    match text {
        Some(s) => match parse_rfc3339(s.as_str()) {
            Ok(t) => Some(t.0),
            Err(_) => None,
        },
        None => None,
    }
}

/// A job id as the store writes it.
pub fn id_text(id: u128) -> (r: String)
    ensures
        r@ == uuid_hyphenated(id),
        uuid_parsed(r@) == (Ok::<u128, Seq<char>>(id)),
{
    format_uuid(id)
}

/// The row that saving `job` writes: the id as hyphenated text, times as
/// RFC 3339 text, `enabled` as 1 or 0, and the counts as signed integers.
/// When every time lies in the years 0 to 9999, reading that row gives the
/// job back.
pub fn encode_job(job: &PersistedJob) -> (r: JobRow)
    requires
        writable(*job),
    ensures
        r.id@ == uuid_hyphenated(job.id),
        r.name@ == job.name@,
        r.cron_expr@ == job.cron_expr@,
        opt_view(r.task_goal) == opt_view(job.task_goal),
        r.max_iterations == job.max_iterations as i64,
        r.enabled == (if job.enabled { 1i64 } else { 0i64 }),
        r.last_run matches Some(s) ==> job.last_run matches Some(t) && s@ == rfc3339_text(t, 0),
        r.last_run is None <==> job.last_run is None,
        r.next_run matches Some(s) ==> job.next_run matches Some(t) && s@ == rfc3339_text(t, 0),
        r.next_run is None <==> job.next_run is None,
        r.run_count == job.run_count as i64,
        r.created_at@ == rfc3339_text(job.created_at, 0),
        round_trips(*job) ==> row_error(r) is None && reads_as(r, *job),
{
    let id = format_uuid(job.id);
    let created_at = format_rfc3339(job.created_at, 0);
    let last_run = write_time(&job.last_run);
    let next_run = write_time(&job.next_run);
    let run_count: u64 = job.run_count;
    let stored: i64 = run_count as i64;
    assert((run_count as i64) as u64 == run_count) by (bit_vector);
    let max_iterations: u32 = job.max_iterations;
    let row = JobRow {
        id,
        name: owned(job.name.as_str()),
        cron_expr: owned(job.cron_expr.as_str()),
        task_goal: copy_opt(&job.task_goal),
        max_iterations: max_iterations as i64,
        enabled: if job.enabled { 1 } else { 0 },
        last_run,
        next_run,
        run_count: stored,
        created_at,
    };
    assert((max_iterations as i64) as u32 == max_iterations) by (bit_vector);
    row
}

/// The job a row holds, or why it cannot be read: an unreadable creation
/// time or id is an error, an unreadable last or next run reads as none.
pub fn decode_row(row: &JobRow) -> (r: Result<PersistedJob, String>)
    ensures
        r is Ok <==> row_error(*row) is None,
        r matches Ok(job) ==> reads_as(*row, job),
        r matches Err(e) ==> row_error(*row) == Some(e@),
{
    let last_run = read_time(&row.last_run);
    let next_run = read_time(&row.next_run);
    let created_at = match parse_rfc3339(row.created_at.as_str()) {
        Ok(t) => t.0,
        Err(m) => {
            let mut e = owned("Invalid created_at: ");
            push_all(&mut e, m.as_str());
            return Err(e);
        },
    };
    let id = match parse_uuid(row.id.as_str()) {
        Ok(id) => id,
        Err(m) => {
            let mut e = owned("Invalid job id '");
            push_all(&mut e, row.id.as_str());
            push_all(&mut e, "': ");
            push_all(&mut e, m.as_str());
            return Err(e);
        },
    };
    Ok(
        PersistedJob {
            id,
            name: owned(row.name.as_str()),
            cron_expr: owned(row.cron_expr.as_str()),
            task_goal: copy_opt(&row.task_goal),
            max_iterations: row.max_iterations as u32,
            enabled: row.enabled != 0,
            last_run,
            next_run,
            run_count: row.run_count as u64,
            created_at,
        },
    )
}

/// Every row read as a job, in order. The first row that cannot be read
/// ends the load with its error.
pub fn decode_rows(rows: &Vec<JobRow>) -> (r: Result<Vec<PersistedJob>, String>)
    ensures
        r is Ok <==> forall|i: int| 0 <= i < rows.len() ==> row_error(#[trigger] rows[i]) is None,
        r matches Ok(jobs) ==> jobs.len() == rows.len() && forall|i: int|
            0 <= i < rows.len() ==> reads_as(rows[i], #[trigger] jobs[i]),
        r matches Err(e) ==> exists|k: int|
            0 <= k < rows.len() && row_error(#[trigger] rows[k]) == Some(e@) && forall|i: int|
                0 <= i < k ==> row_error(#[trigger] rows[i]) is None,
{
    let mut jobs: Vec<PersistedJob> = Vec::new();
    let mut k: usize = 0;
    while k < rows.len()
        invariant
            k <= rows.len(),
            jobs.len() == k,
            forall|i: int| 0 <= i < k ==> row_error(#[trigger] rows[i]) is None,
            forall|i: int| 0 <= i < k ==> reads_as(rows[i], #[trigger] jobs[i]),
        decreases rows.len() - k,
    {
        match decode_row(&rows[k]) {
            Ok(job) => {
                jobs.push(job);
            },
            Err(e) => {
                return Err(e);
            },
        }
        k = k + 1;
    }
    Ok(jobs)
}

/// One stored reliability sample as the store's columns hold it.
#[derive(Debug, Clone)]
pub struct SampleRow {
    pub tool_name: String,
    pub outcome: String,
    pub duration_ms: u64,
    pub timestamp: String,
}

/// Earliest sample time, in milliseconds, that chrono's `DateTime<Utc>`
/// holds.
pub const MIN_MILLIS: i64 = -8334601315200000i64;

/// Latest whole second, in milliseconds, that chrono's `DateTime<Utc>`
/// holds.
pub const MAX_MILLIS: i64 = 8210266876799000i64;

/// The whole seconds of a time in milliseconds, rounded down.
pub open spec fn secs_of(ms: i64) -> int {
    ms as int / 1000
}

/// The nanoseconds past the whole second of a time in milliseconds.
pub open spec fn nanos_of(ms: i64) -> int {
    (ms as int % 1000) * 1_000_000
}

/// What a sample row reads as: nothing for an outcome name the store does
/// not know, the reason for an unreadable time, or the sample.
pub open spec fn sample_of(row: SampleRow) -> Option<Result<CallRecord, Seq<char>>> {
    match outcome_of(row.outcome@) {
        None => None,
        Some(o) => match rfc3339_instant(row.timestamp@) {
            Err(m) => Some(Err("invalid reliability timestamp: "@ + m)),
            Ok(t) => Some(Ok(CallRecord { outcome: o, duration_ms: row.duration_ms, timestamp: t.1 })),
        },
    }
}

/// The samples a list of rows reads as, each with its tool name, or the
/// first row's error.
pub open spec fn samples_from(rows: Seq<SampleRow>) -> Result<Seq<(Seq<char>, CallRecord)>, Seq<char>>
    decreases rows.len(),
{
    if rows.len() == 0 {
        Ok(seq![])
    } else {
        match samples_from(rows.drop_last()) {
            Err(e) => Err(e),
            Ok(v) => match sample_of(rows.last()) {
                None => Ok(v),
                Some(Err(m)) => Err(m),
                Some(Ok(rec)) => Ok(v.push((rows.last().tool_name@, rec))),
            },
        }
    }
}

/// The tool names of the pairs by their text, beside their samples.
pub open spec fn pairs_view(v: Seq<(String, CallRecord)>) -> Seq<(Seq<char>, CallRecord)> {
    v.map_values(|p: (String, CallRecord)| (p.0@, p.1))
}

/// The row that storing a sample of tool `name` writes: the outcome by
/// its stored name and the completion time as RFC 3339 text. When that
/// time lies in the years 0 to 9999, reading the row gives the sample back.
pub fn encode_sample(name: &str, record: &CallRecord) -> (r: SampleRow)
    requires
        MIN_MILLIS <= record.timestamp <= MAX_MILLIS,
    ensures
        r.tool_name@ == name@,
        r.outcome@ == outcome_name(record.outcome),
        r.duration_ms == record.duration_ms,
        r.timestamp@ == rfc3339_text(secs_of(record.timestamp) as i64, nanos_of(record.timestamp) as u32),
        RFC3339_MIN <= secs_of(record.timestamp) <= RFC3339_MAX ==> sample_of(r) == Some(
            Ok::<CallRecord, Seq<char>>(*record),
        ),
{
    let ms: i64 = record.timestamp;
    let shifted: u64 = (ms - MIN_MILLIS) as u64;
    let secs: i64 = (shifted / 1000) as i64 + MIN_MILLIS / 1000;
    let rest: u32 = (shifted % 1000) as u32;
    assert(secs == secs_of(ms) && rest == ms as int % 1000) by (nonlinear_arith)
        requires
            shifted == ms - MIN_MILLIS,
            secs == shifted / 1000 + MIN_MILLIS / 1000,
            rest == shifted % 1000,
            MIN_MILLIS == -8334601315200 * 1000,
            MIN_MILLIS <= ms,
    ;
    let nanos: u32 = rest * 1_000_000;
    let timestamp = format_rfc3339(secs, nanos);
    assert(secs * 1000 + nanos / 1_000_000 == ms) by (nonlinear_arith)
        requires
            secs == ms as int / 1000,
            nanos == (ms as int % 1000) * 1_000_000,
    ;
    proof {
        lemma_outcome_roundtrip(record.outcome, outcome_name(record.outcome));
    }
    SampleRow {
        tool_name: owned(name),
        outcome: owned(record.outcome.as_str()),
        duration_ms: record.duration_ms,
        timestamp,
    }
}

/// The samples the rows hold, in order, each with its tool name. A row
/// whose outcome name is unknown is passed over; the first row whose time
/// cannot be read ends the load with its error.
pub fn decode_samples(rows: &Vec<SampleRow>) -> (r: Result<Vec<(String, CallRecord)>, String>)
    ensures
        match samples_from(rows@) {
            Ok(v) => r matches Ok(out) && pairs_view(out@) == v,
            Err(e) => r matches Err(m) && m@ == e,
        },
{
    let mut out: Vec<(String, CallRecord)> = Vec::new();
    let mut k: usize = 0;
    assert(rows@.take(0) =~= Seq::<SampleRow>::empty());
    assert(pairs_view(out@) =~= Seq::<(Seq<char>, CallRecord)>::empty());
    while k < rows.len()
        invariant
            k <= rows.len(),
            samples_from(rows@.take(k as int)) == Ok::<Seq<(Seq<char>, CallRecord)>, Seq<char>>(
                pairs_view(out@),
            ),
        decreases rows.len() - k,
    {
        let row = &rows[k];
        proof {
            assert(rows@.take(k + 1).drop_last() =~= rows@.take(k as int));
        }
        match ReliabilityOutcome::parse(row.outcome.as_str()) {
            None => {},
            Some(outcome) => match parse_rfc3339(row.timestamp.as_str()) {
                Err(m) => {
                    let mut e = owned("invalid reliability timestamp: ");
                    push_all(&mut e, m.as_str());
                    proof {
                        lemma_error_sticks(rows@, k as int + 1);
                    }
                    return Err(e);
                },
                Ok(t) => {
                    let ghost before = out@;
                    out.push(
                        (owned(row.tool_name.as_str()), CallRecord { outcome, duration_ms: row.duration_ms, timestamp: t.1 }),
                    );
                    proof {
                        assert(pairs_view(out@) =~= pairs_view(before).push(
                            (row.tool_name@, out@.last().1),
                        ));
                    }
                },
            },
        }
        k = k + 1;
    }
    assert(rows@.take(rows@.len() as int) =~= rows@);
    Ok(out)
}

/// Once a prefix of the rows reads as an error, the whole list reads as
/// that error.
proof fn lemma_error_sticks(rows: Seq<SampleRow>, k: int)
    requires
        0 <= k <= rows.len(),
        samples_from(rows.take(k)) is Err,
    ensures
        samples_from(rows) == samples_from(rows.take(k)),
    decreases rows.len() - k,
{
    if k < rows.len() {
        assert(rows.take(k + 1).drop_last() =~= rows.take(k));
        lemma_error_sticks(rows, k + 1);
    } else {
        assert(rows.take(k) =~= rows);
    }
}

} // verus!
