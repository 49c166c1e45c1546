//! Scheduler bookkeeping: jobs with cron schedules, which of them are due,
//! and how a run starts and finishes.
//!
//! Timers, task spawning and persistence belong to the caller, which hands
//! in the current time (seconds since the Unix epoch) and fresh ids.
use vstd::prelude::*;
use crate::cron::{
    is_next_occurrence, next_minute, schedule_ok, schedule_result, CronField, FieldModel, Schedule,
    ScheduleModel, MAX_TIMESTAMP, MIN_TIMESTAMP, SEARCH_HORIZON,
};
use crate::text::{owned, push_all};

verus! {

/// A time at which a schedule can be evaluated and searched ahead from.
pub open spec fn time_ok(t: int) -> bool {
    MIN_TIMESTAMP <= t && t + SEARCH_HORIZON <= MAX_TIMESTAMP
}

/// Iterations an agent task gets unless configured otherwise.
pub const DEFAULT_MAX_ITERATIONS: u32 = 100u32;

/// What a job that runs an agent task asks of the runtime.
#[derive(Debug, Clone)]
pub struct SchedulerJobConfig {
    /// The goal handed to the agent.
    pub task_goal: String,
    /// Iteration limit of the agent loop.
    pub max_iterations: u32,
}

impl SchedulerJobConfig {
    /// A config with the default iteration limit.
    pub fn new(task_goal: &str) -> (r: SchedulerJobConfig)
        ensures
            r.task_goal@ == task_goal@,
            r.max_iterations == DEFAULT_MAX_ITERATIONS,
    {
        SchedulerJobConfig { task_goal: owned(task_goal), max_iterations: DEFAULT_MAX_ITERATIONS }
    }

    /// The same config with another iteration limit.
    pub fn with_max_iterations(self, max: u32) -> (r: SchedulerJobConfig)
        ensures
            r.task_goal == self.task_goal,
            r.max_iterations == max,
    {
        SchedulerJobConfig { task_goal: self.task_goal, max_iterations: max }
    }
}

/// The scheduler's settings.
#[derive(Debug, Clone)]
pub struct SchedulerConfig {
    /// Whether the host loop may start at all.
    pub enabled: bool,
    /// Seconds between two checks for due jobs.
    pub check_interval_secs: u64,
    /// How many runs the host loop lets go at once.
    pub max_concurrent: u32,
    /// Where jobs are persisted, if anywhere.
    pub db_path: Option<String>,
}

/// A scheduled job: its schedule and its run bookkeeping.
#[derive(Debug, Clone)]
pub struct Job {
    pub id: u128,
    pub name: String,
    pub schedule: Schedule,
    pub enabled: bool,
    /// When the job last started (seconds since the epoch).
    pub last_run: Option<i64>,
    /// When the job is due next.
    pub next_run: Option<i64>,
    /// The task id of the last run.
    pub last_task_id: Option<u128>,
    pub run_count: u64,
    /// Runs of this job allowed at once (0: no limit).
    pub max_concurrent: u32,
    /// Runs of this job in flight.
    pub running_count: u32,
    /// The agent goal, for jobs run through the runtime.
    pub task_goal: Option<String>,
    pub max_iterations: u32,
    pub created_at: i64,
}

/// `j` is a freshly created job.
pub open spec fn new_job_ok(
    j: Job,
    id: u128,
    name: Seq<char>,
    schedule: ScheduleModel,
    now: int,
) -> bool {
    &&& j.id == id
    &&& j.name@ == name
    &&& j.schedule@ == schedule
    &&& j.enabled
    &&& j.last_run is None
    &&& is_next_occurrence(schedule, now, j.next_run)
    &&& j.last_task_id is None
    &&& j.run_count == 0
    &&& j.max_concurrent == 1
    &&& j.running_count == 0
    &&& j.task_goal is None
    &&& j.max_iterations == DEFAULT_MAX_ITERATIONS
    &&& j.created_at == now
}

/// Whether `j` is due at `now`.
pub open spec fn job_due(j: Job, now: int) -> bool {
    j.enabled && (j.next_run matches Some(t) && t <= now)
}

/// `j2` is `j` after a run started at `now` with task `task_id`.
pub open spec fn after_start(j: Job, j2: Job, task_id: u128, now: int) -> bool {
    &&& j2.id == j.id
    &&& j2.name == j.name
    &&& j2.schedule == j.schedule
    &&& j2.enabled == j.enabled
    &&& j2.last_run == Some(now as i64)
    &&& is_next_occurrence(j.schedule@, now, j2.next_run)
    &&& j2.last_task_id == Some(task_id)
    &&& j2.run_count == j.run_count + 1
    &&& j2.max_concurrent == j.max_concurrent
    &&& j2.running_count == j.running_count + 1
    &&& j2.task_goal == j.task_goal
    &&& j2.max_iterations == j.max_iterations
    &&& j2.created_at == j.created_at
}

/// `j2` is `j` after one of its runs finished.
pub open spec fn after_finish(j: Job, j2: Job) -> bool {
    j2 == Job { running_count: if j.running_count == 0 { 0 } else { (j.running_count - 1) as u32 }, ..j }
}

impl Job {
    /// The schedule can be evaluated.
    pub open spec fn wf(&self) -> bool {
        schedule_ok(self.schedule@)
    }

    /// A new enabled job that has never run, due at the schedule's next
    /// occurrence after `now`.
    pub fn new(id: u128, name: &str, schedule: Schedule, now: i64) -> (r: Job)
        requires
            schedule_ok(schedule@),
            time_ok(now as int),
        ensures
            r.wf(),
            new_job_ok(r, id, name@, schedule@, now as int),
    {
        let next_run = schedule.next_occurrence(now);
        Job {
            id,
            name: owned(name),
            schedule,
            enabled: true,
            last_run: None,
            next_run,
            last_task_id: None,
            run_count: 0,
            max_concurrent: 1,
            running_count: 0,
            task_goal: None,
            max_iterations: DEFAULT_MAX_ITERATIONS,
            created_at: now,
        }
    }

    /// Whether the job is enabled and its next run is not after `now`.
    pub fn is_due(&self, now: i64) -> (r: bool)
        ensures
            r == job_due(*self, now as int),
    {
        match self.next_run {
            Some(t) => self.enabled && t <= now,
            None => false,
        }
    }

    /// Sets the next run to the schedule's next occurrence after `now`.
    pub fn calculate_next_run(&mut self, now: i64)
        requires
            old(self).wf(),
            time_ok(now as int),
        ensures
            is_next_occurrence(old(self).schedule@, now as int, final(self).next_run),
            *final(self) == (Job { next_run: final(self).next_run, ..*old(self) }),
    {
        self.next_run = self.schedule.next_occurrence(now);
    }

    /// Records a run started at `now` with task `task_id`.
    pub fn mark_run(&mut self, task_id: u128, now: i64)
        requires
            old(self).wf(),
            time_ok(now as int),
            old(self).run_count < u64::MAX,
        ensures
            final(self).last_run == Some(now),
            final(self).last_task_id == Some(task_id),
            final(self).run_count == old(self).run_count + 1,
            is_next_occurrence(old(self).schedule@, now as int, final(self).next_run),
            *final(self) == (Job {
                last_run: final(self).last_run,
                last_task_id: final(self).last_task_id,
                run_count: final(self).run_count,
                next_run: final(self).next_run,
                ..*old(self)
            }),
    {
        self.last_run = Some(now);
        self.last_task_id = Some(task_id);
        self.run_count = self.run_count + 1;
        self.calculate_next_run(now);
    }
}

/// A job that has just started is not due again at the same instant:
/// its next run lies in a later minute.
pub proof fn lemma_started_job_not_due(j: Job, j2: Job, task_id: u128, now: int)
    requires
        after_start(j, j2, task_id, now),
    ensures
        !job_due(j2, now),
{
    if let Some(t) = j2.next_run {
        assert(next_minute(now) > now);
    }
}

/// Finishing a run undoes what starting it did to the count of runs in
/// flight.
pub proof fn lemma_start_finish_restores_running(
    j: Job,
    j2: Job,
    j3: Job,
    task_id: u128,
    now: int,
)
    requires
        after_start(j, j2, task_id, now),
        after_finish(j2, j3),
    ensures
        j3.running_count == j.running_count,
        j3.run_count == j.run_count + 1,
{
}

// ── the job table ────────────────────────────────────────────────────

/// The index of the job with id `id`, if there is one.
pub open spec fn position(jobs: Seq<Job>, id: u128) -> Option<int> {
    if exists|i: int| 0 <= i < jobs.len() && jobs[i].id == id {
        Some(choose|i: int| 0 <= i < jobs.len() && jobs[i].id == id)
    } else {
        None
    }
}

/// No two jobs share an id.
pub open spec fn ids_unique(jobs: Seq<Job>) -> bool {
    forall|i: int, k: int|
        0 <= i < jobs.len() && 0 <= k < jobs.len() && i != k ==> jobs[i].id != jobs[k].id
}

/// `jobs` with `j` in the place of the job with its id, or appended.
pub open spec fn placed(jobs: Seq<Job>, j: Job) -> Seq<Job> {
    match position(jobs, j.id) {
        Some(i) => jobs.update(i, j),
        None => jobs.push(j),
    }
}

/// The ids of the jobs due at `now`, in table order.
pub open spec fn due_ids(jobs: Seq<Job>, now: int) -> Seq<u128>
    decreases jobs.len(),
{
    if jobs.len() == 0 {
        seq![]
    } else {
        let rest = due_ids(jobs.drop_last(), now);
        if job_due(jobs.last(), now) {
            rest.push(jobs.last().id)
        } else {
            rest
        }
    }
}

/// Why a scheduler call failed.
#[derive(Debug, Clone, PartialEq, Eq)]
pub enum SchedulerError {
    /// A setting or a request is invalid.
    Config(String),
    /// The scheduler cannot do what it was asked.
    Internal(String),
}

/// The runtime as a job run sees it.
#[derive(Debug, Clone, Copy, PartialEq, Eq)]
pub enum RuntimeAgent {
    /// No runtime is configured.
    NoRuntime,
    /// A runtime is configured but has no registered agent.
    NoAgent,
    /// The runtime's first registered agent.
    Agent(u128),
}

/// How a started run is carried out.
#[derive(Debug, Clone, PartialEq, Eq)]
pub enum Dispatch {
    /// Run the job's own task.
    Closure,
    /// Submit an agent task to the runtime.
    Runtime { agent_id: u128, goal: String, max_iterations: u32 },
}

/// What became of a request to start a job's run.
#[derive(Debug, Clone, PartialEq, Eq)]
pub enum RunStart {
    /// No job has that id.
    Missing,
    /// The job has as many runs in flight as it allows.
    AtCapacity,
    /// The job runs an agent task but no runtime is configured.
    NeedsRuntime,
    /// The job runs an agent task but the runtime has no agent.
    NeedsAgent,
    /// The run started.
    Started(Dispatch),
}

/// The dispatch a startable job gets.
pub open spec fn dispatch_for(j: Job, runtime: RuntimeAgent, d: Dispatch) -> bool {
    match (runtime, j.task_goal) {
        (RuntimeAgent::Agent(a), Some(g)) => d == Dispatch::Runtime {
            agent_id: a,
            goal: g,
            max_iterations: j.max_iterations,
        },
        _ => d == Dispatch::Closure,
    }
}

/// The outcome a start request has, leaving aside the started job's new
/// state.
pub open spec fn start_outcome(j: Job, runtime: RuntimeAgent, r: RunStart) -> bool {
    if j.max_concurrent > 0 && j.running_count >= j.max_concurrent {
        r == RunStart::AtCapacity
    } else if j.task_goal is Some && runtime == RuntimeAgent::NoRuntime {
        r == RunStart::NeedsRuntime
    } else if j.task_goal is Some && runtime == RuntimeAgent::NoAgent {
        r == RunStart::NeedsAgent
    } else {
        r matches RunStart::Started(d) && dispatch_for(j, runtime, d)
    }
}

/// The dispatch a job started under `runtime` gets.
pub open spec fn dispatch_value(j: Job, runtime: RuntimeAgent) -> Dispatch {
    match (runtime, j.task_goal) {
        (RuntimeAgent::Agent(a), Some(g)) => Dispatch::Runtime {
            agent_id: a,
            goal: g,
            max_iterations: j.max_iterations,
        },
        _ => Dispatch::Closure,
    }
}

/// The outcome a start request for `j` has.
pub open spec fn outcome_for(j: Job, runtime: RuntimeAgent) -> RunStart {
    if j.max_concurrent > 0 && j.running_count >= j.max_concurrent {
        RunStart::AtCapacity
    } else if j.task_goal is Some && runtime == RuntimeAgent::NoRuntime {
        RunStart::NeedsRuntime
    } else if j.task_goal is Some && runtime == RuntimeAgent::NoAgent {
        RunStart::NeedsAgent
    } else {
        RunStart::Started(dispatch_value(j, runtime))
    }
}

/// An outcome that stops a manual tick.
pub open spec fn blocks(o: RunStart) -> bool {
    o is NeedsRuntime || o is NeedsAgent
}

/// The job with id `id`.
pub open spec fn job_of(jobs: Seq<Job>, id: u128) -> Job {
    jobs[position(jobs, id).unwrap()]
}

/// The ids among `ids` whose job would start, in order.
pub open spec fn started_ids(jobs: Seq<Job>, ids: Seq<u128>, runtime: RuntimeAgent) -> Seq<u128>
    decreases ids.len(),
{
    if ids.len() == 0 {
        seq![]
    } else {
        let rest = started_ids(jobs, ids.drop_last(), runtime);
        if outcome_for(job_of(jobs, ids.last()), runtime) is Started {
            rest.push(ids.last())
        } else {
            rest
        }
    }
}

/// A run that a manual tick started.
#[derive(Debug, Clone, PartialEq, Eq)]
pub struct StartedRun {
    pub job_id: u128,
    pub task_id: u128,
    pub dispatch: Dispatch,
}

/// What a manual tick did: how many jobs were due, the runs it started,
/// in order, and the error that stopped it, if one did.
#[derive(Debug, Clone, PartialEq, Eq)]
pub struct PendingRuns {
    pub due: usize,
    pub started: Vec<StartedRun>,
    pub error: Option<SchedulerError>,
}

/// The job ids of the started runs.
pub open spec fn run_ids(runs: Seq<StartedRun>) -> Seq<u128> {
    runs.map_values(|x: StartedRun| x.job_id)
}

/// A manual tick at `now` over `jobs` looked at the first `s` due jobs:
/// none of them blocked, it stopped at the job after them exactly when it
/// reports an error, and it started the runs of those that could start.
pub open spec fn tick_stopped_at(jobs: Seq<Job>, now: int, runtime: RuntimeAgent, s: int, r: PendingRuns) -> bool {
    let d = due_ids(jobs, now);
    &&& 0 <= s <= d.len()
    &&& forall|k: int| 0 <= k < s ==> !blocks(#[trigger] outcome_for(job_of(jobs, d[k]), runtime))
    &&& (r.error is None <==> s == d.len())
    &&& s < d.len() ==> match outcome_for(job_of(jobs, d[s]), runtime) {
        RunStart::NeedsRuntime => r.error matches Some(SchedulerError::Config(m)) && m@
            == needs_runtime_msg(job_of(jobs, d[s]).name@),
        RunStart::NeedsAgent => r.error matches Some(SchedulerError::Internal(m)) && m@
            == needs_agent_msg(job_of(jobs, d[s]).name@),
        _ => false,
    }
    &&& run_ids(r.started@) == started_ids(jobs, d.take(s), runtime)
}

/// A fresh random task id: uuid's `Uuid::new_v4()` as an integer. Nothing
/// is claimed of the value.
#[verifier::external_body]
fn new_task_id() -> (r: u128) {
    uuid::Uuid::new_v4().as_u128()
}

/// The due ids are ids of jobs in the table, each once.
proof fn lemma_due_ids(jobs: Seq<Job>, now: int)
    requires
        ids_unique(jobs),
    ensures
        forall|k: int| 0 <= k < due_ids(jobs, now).len() ==> #[trigger] position(jobs, due_ids(jobs, now)[k]) is Some,
        forall|a: int, b: int|
            0 <= a < b < due_ids(jobs, now).len() ==> due_ids(jobs, now)[a] != due_ids(jobs, now)[b],
    decreases jobs.len(),
{
    if jobs.len() > 0 {
        let init = jobs.drop_last();
        assert(ids_unique(init));
        lemma_due_ids(init, now);
        let d0 = due_ids(init, now);
        assert forall|k: int| 0 <= k < d0.len() implies #[trigger] position(jobs, d0[k]) is Some by {
            assert(position(init, d0[k]) is Some);
            let p = choose|p: int| 0 <= p < init.len() && init[p].id == d0[k];
            assert(jobs[p].id == d0[k]);
        }
        assert forall|k: int| 0 <= k < d0.len() implies d0[k] != jobs.last().id by {
            assert(position(init, d0[k]) is Some);
            let p = choose|p: int| 0 <= p < init.len() && init[p].id == d0[k];
            assert(jobs[p].id == d0[k]);
            assert(jobs[p].id != jobs[jobs.len() - 1].id);
        }
        assert(position(jobs, jobs.last().id) is Some) by {
            assert(jobs[jobs.len() - 1].id == jobs.last().id);
        }
    }
}

/// Every id that `started_ids` keeps is one of `ids`.
proof fn lemma_started_within(jobs: Seq<Job>, ids: Seq<u128>, runtime: RuntimeAgent)
    ensures
        forall|x: u128| #[trigger] started_ids(jobs, ids, runtime).contains(x) ==> ids.contains(x),
    decreases ids.len(),
{
    if ids.len() > 0 {
        lemma_started_within(jobs, ids.drop_last(), runtime);
        assert forall|x: u128| #[trigger] started_ids(jobs, ids, runtime).contains(x) implies ids.contains(x) by {
            if started_ids(jobs, ids.drop_last(), runtime).contains(x) {
                let i = choose|i: int| 0 <= i < ids.drop_last().len() && ids.drop_last()[i] == x;
                assert(ids[i] == x);
            } else {
                assert(ids[ids.len() - 1] == x);
            }
        }
    }
}

/// How a finished run is recorded.
#[derive(Debug, Clone, Copy, PartialEq, Eq)]
pub enum JobRunStatus {
    Running,
    Succeeded,
    Failed,
}

/// What the host loop does on `start`.
#[derive(Debug, Clone, Copy, PartialEq, Eq)]
pub enum StartAction {
    /// The scheduler is disabled; nothing starts.
    Disabled,
    /// The loop already runs.
    AlreadyRunning,
    /// The loop starts now.
    Started,
}

/// The jobs and the state of the host loop.
pub struct Scheduler {
    jobs: Vec<Job>,
    config: SchedulerConfig,
    running: bool,
}

impl Scheduler {
    /// The jobs, in table order.
    pub closed spec fn jobs(&self) -> Seq<Job> {
        self.jobs@
    }

    /// Whether the host loop runs.
    pub closed spec fn is_running_spec(&self) -> bool {
        self.running
    }

    /// The settings.
    pub closed spec fn config_spec(&self) -> SchedulerConfig {
        self.config
    }

    /// Ids are unique and every schedule can be evaluated.
    pub open spec fn wf(&self) -> bool {
        &&& ids_unique(self.jobs())
        &&& forall|i: int| 0 <= i < self.jobs().len() ==> (#[trigger] self.jobs()[i]).wf()
    }

    /// A scheduler with no jobs and the loop stopped.
    pub fn new(config: SchedulerConfig) -> (r: Scheduler)
        ensures
            r.wf(),
            r.jobs() == Seq::<Job>::empty(),
            !r.is_running_spec(),
            r.config_spec() == config,
    {
        Scheduler { jobs: Vec::new(), config, running: false }
    }

    /// The settings.
    pub fn config(&self) -> (r: &SchedulerConfig)
        ensures
            *r == self.config_spec(),
    {
        &self.config
    }

    /// Whether the host loop runs.
    pub fn is_running(&self) -> (r: bool)
        ensures
            r == self.is_running_spec(),
    {
        self.running
    }

    /// The number of jobs.
    pub fn job_count(&self) -> (r: usize)
        ensures
            r == self.jobs().len(),
    {
        self.jobs.len()
    }

    /// All jobs, in table order.
    pub fn list_jobs(&self) -> (r: &Vec<Job>)
        ensures
            r@ == self.jobs(),
    {
        &self.jobs
    }

    fn index_of(&self, id: u128) -> (r: Option<usize>)
        requires
            ids_unique(self.jobs()),
        ensures
            match r {
                Some(i) => position(self.jobs(), id) == Some(i as int),
                None => position(self.jobs(), id) is None,
            },
    {
        let mut i: usize = 0;
        while i < self.jobs.len()
            invariant
                i <= self.jobs@.len(),
                ids_unique(self.jobs@),
                forall|k: int| 0 <= k < i ==> self.jobs@[k].id != id,
            decreases self.jobs@.len() - i,
        {
            if self.jobs[i].id == id {
                let ghost c = choose|k: int| 0 <= k < self.jobs@.len() && self.jobs@[k].id == id;
                assert(0 <= i < self.jobs@.len() && self.jobs@[i as int].id == id);
                proof {
                    assert(self.jobs@[c].id == id);
                    if c != i as int {
                        assert(self.jobs@[c].id != self.jobs@[i as int].id);
                    }
                }
                return Some(i);
            }
            i = i + 1;
        }
        None
    }

    /// The job with id `id`.
    pub fn get_job(&self, id: u128) -> (r: Option<&Job>)
        requires
            self.wf(),
        ensures
            r == match position(self.jobs(), id) {
                Some(i) => Some(&self.jobs()[i]),
                None => None,
            },
    {
        match self.index_of(id) {
            Some(i) => Some(&self.jobs[i]),
            None => None,
        }
    }

    fn put(&mut self, job: Job)
        requires
            old(self).wf(),
            job.wf(),
        ensures
            final(self).wf(),
            final(self).jobs() == placed(old(self).jobs(), job),
            final(self).running == old(self).running,
            final(self).config == old(self).config,
    {
        let ghost j = job;
        match self.index_of(job.id) {
            Some(i) => {
                self.jobs.remove(i);
                self.jobs.insert(i, job);
                assert(self.jobs@ =~= old(self).jobs@.update(i as int, j));
            },
            None => {
                self.jobs.push(job);
            },
        }
    }

    /// Adds a job named `name` with the schedule `expression`, due at its
    /// next occurrence after `now`, under the fresh id `id`: the table
    /// grows by that one job.
    pub fn add_job(&mut self, id: u128, name: &str, expression: &str, now: i64) -> (r: Result<
        u128,
        SchedulerError,
    >)
        requires
            old(self).wf(),
            time_ok(now as int),
            position(old(self).jobs(), id) is None,
        ensures
            final(self).wf(),
            final(self).is_running_spec() == old(self).is_running_spec(),
            final(self).config_spec() == old(self).config_spec(),
            match schedule_result(expression@) {
                Err(e) => {
                    &&& r matches Err(SchedulerError::Config(m))
                    &&& m@ == invalid_schedule_msg(expression@, e)
                    &&& final(self).jobs() == old(self).jobs()
                },
                Ok(s) => {
                    &&& r == Ok::<u128, SchedulerError>(id)
                    &&& exists|j: Job|
                        new_job_ok(j, id, name@, s, now as int) && final(self).jobs() == old(self).jobs().push(j)
                },
            },
    {
        let schedule = match Schedule::parse(expression) {
            Ok(s) => s,
            Err(e) => {
                return Err(SchedulerError::Config(invalid_schedule(expression, e.as_str())));
            },
        };
        let job = Job::new(id, name, schedule, now);
        let ghost j = job;
        self.put(job);
        assert(new_job_ok(j, id, name@, j.schedule@, now as int));
        Ok(id)
    }

    /// Adds a job that runs an agent task with the goal and iteration
    /// limit of `config`, under the fresh id `id`: the table grows by that
    /// one job.
    pub fn add_job_with_config(
        &mut self,
        id: u128,
        name: &str,
        expression: &str,
        config: SchedulerJobConfig,
        now: i64,
    ) -> (r: Result<u128, SchedulerError>)
        requires
            old(self).wf(),
            time_ok(now as int),
            position(old(self).jobs(), id) is None,
        ensures
            final(self).wf(),
            final(self).is_running_spec() == old(self).is_running_spec(),
            final(self).config_spec() == old(self).config_spec(),
            match schedule_result(expression@) {
                Err(e) => {
                    &&& r matches Err(SchedulerError::Config(m))
                    &&& m@ == invalid_schedule_msg(expression@, e)
                    &&& final(self).jobs() == old(self).jobs()
                },
                Ok(s) => {
                    &&& r == Ok::<u128, SchedulerError>(id)
                    &&& exists|j: Job|
                        new_job_ok(
                            Job { task_goal: None, max_iterations: DEFAULT_MAX_ITERATIONS, ..j },
                            id,
                            name@,
                            s,
                            now as int,
                        ) && j.task_goal == Some(config.task_goal) && j.max_iterations
                            == config.max_iterations && final(self).jobs() == old(self).jobs().push(j)
                },
            },
    {
        let schedule = match Schedule::parse(expression) {
            Ok(s) => s,
            Err(e) => {
                return Err(SchedulerError::Config(invalid_schedule(expression, e.as_str())));
            },
        };
        let mut job = Job::new(id, name, schedule, now);
        let ghost j0 = job;
        job.task_goal = Some(config.task_goal);
        job.max_iterations = config.max_iterations;
        let ghost j = job;
        assert(Job { task_goal: None, max_iterations: DEFAULT_MAX_ITERATIONS, ..j } == j0);
        self.put(job);
        Ok(id)
    }

    /// Removes the job with id `id`; whether there was one.
    pub fn remove_job(&mut self, id: u128) -> (r: bool)
        requires
            old(self).wf(),
        ensures
            final(self).wf(),
            final(self).is_running_spec() == old(self).is_running_spec(),
            final(self).config_spec() == old(self).config_spec(),
            r == position(old(self).jobs(), id) is Some,
            final(self).jobs() == match position(old(self).jobs(), id) {
                Some(i) => old(self).jobs().remove(i),
                None => old(self).jobs(),
            },
            position(final(self).jobs(), id) is None,
    {
        match self.index_of(id) {
            Some(i) => {
                self.jobs.remove(i);
                assert forall|k: int| 0 <= k < self.jobs@.len() implies self.jobs@[k].id != id by {
                    if k < i {
                        assert(self.jobs@[k] == old(self).jobs@[k]);
                    } else {
                        assert(self.jobs@[k] == old(self).jobs@[k + 1]);
                    }
                }
                true
            },
            None => false,
        }
    }

    /// Enables or disables the job with id `id`; whether there was one.
    pub fn set_job_enabled(&mut self, id: u128, enabled: bool) -> (r: bool)
        requires
            old(self).wf(),
        ensures
            final(self).wf(),
            final(self).is_running_spec() == old(self).is_running_spec(),
            final(self).config_spec() == old(self).config_spec(),
            r == position(old(self).jobs(), id) is Some,
            final(self).jobs() == match position(old(self).jobs(), id) {
                Some(i) => old(self).jobs().update(i, Job { enabled, ..old(self).jobs()[i] }),
                None => old(self).jobs(),
            },
    {
        match self.index_of(id) {
            Some(i) => {
                let mut job = self.jobs.remove(i);
                job.enabled = enabled;
                self.jobs.insert(i, job);
                assert(self.jobs@ =~= old(self).jobs@.update(
                    i as int,
                    Job { enabled, ..old(self).jobs@[i as int] },
                ));
                true
            },
            None => false,
        }
    }

    /// The ids of the jobs due at `now`, in table order.
    pub fn due_job_ids(&self, now: i64) -> (r: Vec<u128>)
        ensures
            r@ == due_ids(self.jobs(), now as int),
    {
        let mut out: Vec<u128> = Vec::new();
        let mut i: usize = 0;
        while i < self.jobs.len()
            invariant
                i <= self.jobs@.len(),
                out@ == due_ids(self.jobs@.take(i as int), now as int),
            decreases self.jobs@.len() - i,
        {
            assert(self.jobs@.take(i + 1).drop_last() =~= self.jobs@.take(i as int));
            if self.jobs[i].is_due(now) {
                out.push(self.jobs[i].id);
            }
            i = i + 1;
        }
        assert(self.jobs@.take(i as int) =~= self.jobs@);
        out
    }

    /// A manual tick: starts every job due at `now`, in table order, each
    /// under a fresh task id. A job at its concurrency limit is passed
    /// over; the first job that needs a runtime or an agent that is not
    /// there stops the tick with the error naming it, the runs started
    /// before it standing.
    pub fn run_pending(&mut self, now: i64, runtime: RuntimeAgent) -> (r: PendingRuns)
        requires
            old(self).wf(),
            time_ok(now as int),
            forall|i: int|
                0 <= i < old(self).jobs().len() ==> (#[trigger] old(self).jobs()[i]).run_count
                    < u64::MAX && old(self).jobs()[i].running_count < u32::MAX,
        ensures
            final(self).wf(),
            final(self).is_running_spec() == old(self).is_running_spec(),
            final(self).config_spec() == old(self).config_spec(),
            r.due == due_ids(old(self).jobs(), now as int).len(),
            exists|s: int| #[trigger] tick_stopped_at(old(self).jobs(), now as int, runtime, s, r),
            forall|i: int| 0 <= i < r.started@.len() ==> {
                let run = #[trigger] r.started@[i];
                &&& position(old(self).jobs(), run.job_id) matches Some(p)
                &&& after_start(old(self).jobs()[p], final(self).jobs()[p], run.task_id, now as int)
                &&& run.dispatch == dispatch_value(old(self).jobs()[p], runtime)
            },
            final(self).jobs().len() == old(self).jobs().len(),
            forall|p: int|
                0 <= p < old(self).jobs().len() ==> (#[trigger] final(self).jobs()[p]).id == old(self).jobs()[p].id,
            forall|p: int|
                0 <= p < old(self).jobs().len() && !run_ids(r.started@).contains(old(self).jobs()[p].id)
                    ==> #[trigger] final(self).jobs()[p] == old(self).jobs()[p],
    {
        let due = self.due_job_ids(now);
        let ghost jobs0 = self.jobs@;
        let ghost d = due@;
        proof {
            lemma_due_ids(jobs0, now as int);
        }
        let mut started: Vec<StartedRun> = Vec::new();
        let mut k: usize = 0;
        let mut error: Option<SchedulerError> = None;
        assert(d.take(0) =~= Seq::<u128>::empty());
        assert(run_ids(started@) =~= Seq::<u128>::empty());
        while k < due.len()
            invariant_except_break
                error is None,
            invariant
                0 <= k <= due@.len(),
                d == due@,
                d == due_ids(jobs0, now as int),
                jobs0 == old(self).jobs(),
                self.wf(),
                self.is_running_spec() == old(self).is_running_spec(),
                self.config_spec() == old(self).config_spec(),
                time_ok(now as int),
                forall|x: int| 0 <= x < d.len() ==> #[trigger] position(jobs0, d[x]) is Some,
                forall|a: int, b: int| 0 <= a < b < d.len() ==> d[a] != d[b],
                forall|i: int| 0 <= i < jobs0.len() ==> (#[trigger] jobs0[i]).run_count < u64::MAX
                    && jobs0[i].running_count < u32::MAX,
                self.jobs().len() == jobs0.len(),
                forall|p: int| 0 <= p < jobs0.len() ==> (#[trigger] self.jobs()[p]).id == jobs0[p].id,
                forall|x: int| 0 <= x < k ==> !blocks(#[trigger] outcome_for(job_of(jobs0, d[x]), runtime)),
                run_ids(started@) == started_ids(jobs0, d.take(k as int), runtime),
                forall|i: int| 0 <= i < started@.len() ==> {
                    let run = #[trigger] started@[i];
                    &&& position(jobs0, run.job_id) matches Some(p)
                    &&& after_start(jobs0[p], self.jobs()[p], run.task_id, now as int)
                    &&& run.dispatch == dispatch_value(jobs0[p], runtime)
                },
                forall|p: int|
                    0 <= p < jobs0.len() && !run_ids(started@).contains(jobs0[p].id) ==> #[trigger] self.jobs()[p] == jobs0[p],
            ensures
                error is Some ==> k < d.len() && match outcome_for(job_of(jobs0, d[k as int]), runtime) {
                    RunStart::NeedsRuntime => error matches Some(SchedulerError::Config(m)) && m@
                        == needs_runtime_msg(job_of(jobs0, d[k as int]).name@),
                    RunStart::NeedsAgent => error matches Some(SchedulerError::Internal(m)) && m@
                        == needs_agent_msg(job_of(jobs0, d[k as int]).name@),
                    _ => false,
                },
                error is None ==> k == d.len(),
            decreases due@.len() - k,
        {
            let id = due[k];
            let ghost before = self.jobs();
            let ghost p = position(jobs0, id).unwrap();
            proof {
                assert(position(jobs0, d[k as int]) is Some);
                lemma_started_within(jobs0, d.take(k as int), runtime);
                assert(!d.take(k as int).contains(id)) by {
                    if d.take(k as int).contains(id) {
                        let a = choose|a: int| 0 <= a < k && d.take(k as int)[a] == id;
                        assert(d[a] == d[k as int]);
                    }
                }
                assert(!run_ids(started@).contains(id));
                assert(self.jobs()[p] == jobs0[p]);
                assert(position(before, id) == Some(p)) by {
                    assert(before[p].id == id);
                    let q = choose|q: int| 0 <= q < before.len() && before[q].id == id;
                    if q != p {
                        assert(before[q].id != before[p].id);
                    }
                }
                assert(job_of(jobs0, id) == jobs0[p]);
                assert(d.take(k + 1).drop_last() =~= d.take(k as int));
            }
            let task_id = new_task_id();
            let name = owned(self.jobs[self.index_of(id).unwrap()].name.as_str());
            let outcome = self.start_run(id, task_id, now, runtime);
            match outcome {
                RunStart::Started(dispatch) => {
                    let ghost old_started = started@;
                    started.push(StartedRun { job_id: id, task_id, dispatch });
                    proof {
                        assert(self.jobs() == before.update(p, self.jobs()[p]));
                        assert(run_ids(started@) =~= run_ids(old_started).push(id));
                        assert forall|i: int| 0 <= i < started@.len() implies {
                            let run = #[trigger] started@[i];
                            &&& position(jobs0, run.job_id) matches Some(q)
                            &&& after_start(jobs0[q], self.jobs()[q], run.task_id, now as int)
                            &&& run.dispatch == dispatch_value(jobs0[q], runtime)
                        } by {
                            if i < old_started.len() {
                                let run = started@[i];
                                assert(run == old_started[i]);
                                let q = position(jobs0, run.job_id).unwrap();
                                assert(run_ids(old_started)[i] == run.job_id);
                                assert(q != p);
                            }
                        }
                        assert forall|q: int|
                            0 <= q < jobs0.len() && !run_ids(started@).contains(jobs0[q].id) implies #[trigger] self.jobs()[q] == jobs0[q] by {
                            assert(run_ids(started@)[started@.len() - 1] == id);
                            if q == p {
                                assert(run_ids(started@).contains(jobs0[p].id));
                            } else {
                                assert(!run_ids(old_started).contains(jobs0[q].id)) by {
                                    if run_ids(old_started).contains(jobs0[q].id) {
                                        let j = choose|j: int| 0 <= j < run_ids(old_started).len() && run_ids(old_started)[j] == jobs0[q].id;
                                        assert(run_ids(started@)[j] == jobs0[q].id);
                                    }
                                }
                            }
                        }
                    }
                },
                RunStart::AtCapacity | RunStart::Missing => {},
                _ => {
                    error = manual_tick_error(&outcome, name.as_str());
                    break;
                },
            }
            k = k + 1;
        }
        assert(error is None ==> d.take(k as int) =~= d);
        let r = PendingRuns { due: due.len(), started, error };
        assert(tick_stopped_at(jobs0, now as int, runtime, k as int, r));
        r
    }

    /// Starts a run of the job with id `id` at `now` with task id `task_id`,
    /// unless the job is missing, at its concurrency limit, or needs a
    /// runtime or agent that is not there. A started run is recorded on
    /// the job and counted as in flight.
    pub fn start_run(&mut self, id: u128, task_id: u128, now: i64, runtime: RuntimeAgent) -> (r:
        RunStart)
        requires
            old(self).wf(),
            time_ok(now as int),
            forall|i: int|
                0 <= i < old(self).jobs().len() && (#[trigger] old(self).jobs()[i]).id == id
                    ==> old(self).jobs()[i].run_count < u64::MAX && old(self).jobs()[i].running_count
                    < u32::MAX,
        ensures
            final(self).wf(),
            final(self).is_running_spec() == old(self).is_running_spec(),
            final(self).config_spec() == old(self).config_spec(),
            match position(old(self).jobs(), id) {
                None => r == RunStart::Missing && final(self).jobs() == old(self).jobs(),
                Some(i) => {
                    &&& start_outcome(old(self).jobs()[i], runtime, r)
                    &&& if r is Started {
                        &&& final(self).jobs().len() == old(self).jobs().len()
                        &&& after_start(old(self).jobs()[i], final(self).jobs()[i], task_id, now as int)
                        &&& final(self).jobs() == old(self).jobs().update(i, final(self).jobs()[i])
                    } else {
                        final(self).jobs() == old(self).jobs()
                    }
                },
            },
    {
        let i = match self.index_of(id) {
            Some(i) => i,
            None => return RunStart::Missing,
        };
        let ghost j = self.jobs@[i as int];
        assert(j.wf());
        let job_ref = &self.jobs[i];
        if job_ref.max_concurrent > 0 && job_ref.running_count >= job_ref.max_concurrent {
            return RunStart::AtCapacity;
        }
        let has_goal = job_ref.task_goal.is_some();
        if has_goal && matches!(runtime, RuntimeAgent::NoRuntime) {
            return RunStart::NeedsRuntime;
        }
        if has_goal && matches!(runtime, RuntimeAgent::NoAgent) {
            return RunStart::NeedsAgent;
        }
        let mut job = self.jobs.remove(i);
        job.mark_run(task_id, now);
        job.running_count = job.running_count + 1;
        let dispatch = match (runtime, &job.task_goal) {
            (RuntimeAgent::Agent(a), Some(g)) => Dispatch::Runtime {
                agent_id: a,
                goal: g.clone(),
                max_iterations: job.max_iterations,
            },
            _ => Dispatch::Closure,
        };
        let ghost j2 = job;
        self.jobs.insert(i, job);
        assert(self.jobs@ =~= old(self).jobs@.update(i as int, j2));
        assert forall|a: int, b: int|
            0 <= a < self.jobs@.len() && 0 <= b < self.jobs@.len() && a != b implies self.jobs@[a].id
            != self.jobs@[b].id by {
            assert(old(self).jobs@[a].id == self.jobs@[a].id);
            assert(old(self).jobs@[b].id == self.jobs@[b].id);
        }
        RunStart::Started(dispatch)
    }

    /// Records that a run of the job with id `id` finished.
    pub fn finish_run(&mut self, id: u128)
        requires
            old(self).wf(),
        ensures
            final(self).wf(),
            final(self).is_running_spec() == old(self).is_running_spec(),
            final(self).config_spec() == old(self).config_spec(),
            match position(old(self).jobs(), id) {
                None => final(self).jobs() == old(self).jobs(),
                Some(i) => {
                    &&& final(self).jobs().len() == old(self).jobs().len()
                    &&& after_finish(old(self).jobs()[i], final(self).jobs()[i])
                    &&& final(self).jobs() == old(self).jobs().update(i, final(self).jobs()[i])
                },
            },
    {
        if let Some(i) = self.index_of(id) {
            let mut job = self.jobs.remove(i);
            job.running_count = if job.running_count == 0 {
                0
            } else {
                job.running_count - 1
            };
            let ghost j2 = job;
            self.jobs.insert(i, job);
            assert(self.jobs@ =~= old(self).jobs@.update(i as int, j2));
            assert forall|a: int, b: int|
                0 <= a < self.jobs@.len() && 0 <= b < self.jobs@.len() && a != b implies self.jobs@[a].id
                != self.jobs@[b].id by {
                assert(old(self).jobs@[a].id == self.jobs@[a].id);
                assert(old(self).jobs@[b].id == self.jobs@[b].id);
            }
        }
    }

    /// Decides whether the host loop starts: not when the scheduler is
    /// disabled or already running; an error when the check interval is
    /// zero. A start marks the loop as running.
    pub fn start(&mut self) -> (r: Result<StartAction, SchedulerError>)
        ensures
            final(self).jobs() == old(self).jobs(),
            final(self).config_spec() == old(self).config_spec(),
            !old(self).config_spec().enabled ==> r == Ok::<StartAction, SchedulerError>(
                StartAction::Disabled,
            ) && final(self).is_running_spec() == old(self).is_running_spec(),
            old(self).config_spec().enabled && old(self).config_spec().check_interval_secs == 0
                ==> (r matches Err(SchedulerError::Config(m)) && m@ == interval_msg())
                && final(self).is_running_spec() == old(self).is_running_spec(),
            old(self).config_spec().enabled && old(self).config_spec().check_interval_secs != 0
                && old(self).is_running_spec() ==> r == Ok::<StartAction, SchedulerError>(
                StartAction::AlreadyRunning,
            ) && final(self).is_running_spec(),
            old(self).config_spec().enabled && old(self).config_spec().check_interval_secs != 0
                && !old(self).is_running_spec() ==> r == Ok::<StartAction, SchedulerError>(
                StartAction::Started,
            ) && final(self).is_running_spec(),
    {
        if !self.config.enabled {
            return Ok(StartAction::Disabled);
        }
        if self.config.check_interval_secs == 0 {
            return Err(SchedulerError::Config(
                owned("scheduler.check_interval_secs must be greater than zero"),
            ));
        }
        if self.running {
            return Ok(StartAction::AlreadyRunning);
        }
        self.running = true;
        Ok(StartAction::Started)
    }

    /// Marks the host loop as stopped.
    pub fn stop(&mut self)
        ensures
            final(self).jobs() == old(self).jobs(),
            final(self).config_spec() == old(self).config_spec(),
            !final(self).is_running_spec(),
    {
        self.running = false;
    }

    /// How many runs the host loop lets go at once: the configured limit,
    /// and at least one.
    pub fn host_permits(&self) -> (r: u32)
        ensures
            r == if self.config_spec().max_concurrent > 1 {
                self.config_spec().max_concurrent
            } else {
                1
            },
    {
        if self.config.max_concurrent > 1 {
            self.config.max_concurrent
        } else {
            1
        }
    }

    /// Loads persisted jobs into the table, in order, each as
    /// [`PersistedJob::into_job`] gives it and replacing a job with the same
    /// id; `now` fills in a missing next run, and a stored next run is kept,
    /// so a job that was overdue is still due. Returns how many were loaded.
    pub fn load_persisted(&mut self, persisted: Vec<PersistedJob>, now: i64) -> (r: usize)
        requires
            old(self).wf(),
            time_ok(now as int),
        ensures
            final(self).wf(),
            r == persisted@.len(),
            final(self).is_running_spec() == old(self).is_running_spec(),
            final(self).config_spec() == old(self).config_spec(),
            exists|loaded: Seq<Job>|
                {
                    &&& loaded.len() == persisted@.len()
                    &&& forall|k: int|
                        0 <= k < loaded.len() ==> loaded_from(persisted@[k], #[trigger] loaded[k], now as int)
                    &&& final(self).jobs() == #[trigger] place_all(old(self).jobs(), loaded)
                },
            final(self).jobs().len() <= old(self).jobs().len() + persisted@.len(),
            forall|k: int|
                0 <= k < persisted@.len() ==> position(final(self).jobs(), (#[trigger] persisted@[k]).id)
                    is Some,
    {
        let count = persisted.len();
        let mut i: usize = 0;
        let mut rest = persisted;
        let ghost all = rest@;
        let ghost mut loaded: Seq<Job> = Seq::empty();
        while rest.len() > 0
            invariant
                loaded.len() == i,
                forall|k: int| 0 <= k < i ==> loaded_from(all[k], #[trigger] loaded[k], now as int),
                self.jobs@ == place_all(old(self).jobs@, loaded),
                self.wf(),
                time_ok(now as int),
                i + rest@.len() == all.len(),
                all.len() == count,
                rest@ == all.skip(i as int),
                self.running == old(self).running,
                self.config == old(self).config,
                self.jobs@.len() <= old(self).jobs@.len() + i,
                forall|k: int| 0 <= k < i ==> position(self.jobs@, (#[trigger] all[k]).id) is Some,
            decreases rest@.len(),
        {
            let p = rest.remove(0);
            let ghost before = self.jobs@;
            assert(p == all[i as int]);
            let job = p.into_job(now);
            let ghost jid = job.id;
            let ghost lj = job;
            self.put(job);
            proof {
                assert(loaded.push(lj).drop_last() =~= loaded);
                loaded = loaded.push(lj);
                assert forall|k: int| 0 <= k < i + 1 implies position(
                    self.jobs@,
                    (#[trigger] all[k]).id,
                ) is Some by {
                    lemma_placed_keeps(before, job, all[k].id);
                }
                assert(rest@ =~= all.skip(i + 1));
            }
            i = i + 1;
        }
        assert(place_all(old(self).jobs@, loaded) == self.jobs@);
        count
    }
}

/// `j` is the job that loading `p` at `now` gives (see
/// [`PersistedJob::into_job`]).
pub open spec fn loaded_from(p: PersistedJob, j: Job, now: int) -> bool {
    &&& j.wf()
    &&& j.id == p.id
    &&& j.name == p.name
    &&& j.schedule@ == match schedule_result(p.cron_expr@) {
        Ok(s) => s,
        Err(_) => every_minute(),
    }
    &&& j.enabled == p.enabled
    &&& j.last_run == p.last_run
    &&& (p.next_run is Some ==> j.next_run == p.next_run)
    &&& (p.next_run is None ==> is_next_occurrence(j.schedule@, now, j.next_run))
    &&& j.last_task_id is None
    &&& j.run_count == p.run_count
    &&& j.max_concurrent == 1
    &&& j.running_count == 0
    &&& j.task_goal == p.task_goal
    &&& j.max_iterations == p.max_iterations
    &&& j.created_at == p.created_at
}

/// `jobs` with each of `js` placed in turn (see [`placed`]).
pub open spec fn place_all(jobs: Seq<Job>, js: Seq<Job>) -> Seq<Job>
    decreases js.len(),
{
    if js.len() == 0 {
        jobs
    } else {
        placed(place_all(jobs, js.drop_last()), js.last())
    }
}

/// Placing a job keeps every id that was there and adds its own.
pub proof fn lemma_placed_keeps(jobs: Seq<Job>, j: Job, id: u128)
    requires
        position(jobs, id) is Some || id == j.id,
    ensures
        position(placed(jobs, j), id) is Some,
{
    let p = placed(jobs, j);
    if id == j.id {
        match position(jobs, j.id) {
            Some(i) => {
                assert(p[i].id == id);
            },
            None => {
                assert(p[jobs.len() as int].id == id);
            },
        }
    } else {
        let i = choose|i: int| 0 <= i < jobs.len() && jobs[i].id == id;
        match position(jobs, j.id) {
            Some(x) => {
                assert(p[i].id == id);
            },
            None => {
                assert(p[i].id == id);
            },
        }
    }
}

/// Adding a job makes it retrievable: afterwards the table holds exactly
/// one job with its id, and it is the one that was added.
pub proof fn lemma_placed_then_found(jobs: Seq<Job>, j: Job)
    requires
        ids_unique(jobs),
    ensures
        ids_unique(placed(jobs, j)),
        position(placed(jobs, j), j.id) matches Some(i) && placed(jobs, j)[i] == j,
{
    let p = placed(jobs, j);
    match position(jobs, j.id) {
        Some(i) => {
            assert(p[i].id == j.id);
            let c = choose|k: int| 0 <= k < p.len() && p[k].id == j.id;
            assert(c == i);
        },
        None => {
            let n = jobs.len() as int;
            assert(p[n].id == j.id);
            let c = choose|k: int| 0 <= k < p.len() && p[k].id == j.id;
            if c != n {
                assert(jobs[c].id == j.id);
            }
        },
    }
}

/// Text of the error for an expression that does not parse.
pub open spec fn invalid_schedule_msg(expression: Seq<char>, e: Seq<char>) -> Seq<char> {
    "Invalid schedule '"@ + expression + "': "@ + e
}

/// Text of the error for a zero check interval.
pub open spec fn interval_msg() -> Seq<char> {
    "scheduler.check_interval_secs must be greater than zero"@
}

fn invalid_schedule(expression: &str, e: &str) -> (r: String)
    ensures
        r@ == invalid_schedule_msg(expression@, e@),
{
    let mut m = owned("Invalid schedule '");
    push_all(&mut m, expression);
    push_all(&mut m, "': ");
    push_all(&mut m, e);
    m
}

/// Text of the error for a job that needs a runtime none is configured.
pub open spec fn needs_runtime_msg(name: Seq<char>) -> Seq<char> {
    "Scheduled job '"@ + name + "' requires a runtime, but none is configured"@
}

/// Text of the error for a job whose runtime has no agent.
pub open spec fn needs_agent_msg(name: Seq<char>) -> Seq<char> {
    "Scheduled job '"@ + name + "' cannot run because the runtime has no registered agent"@
}

/// The error a manual tick reports for a job it cannot start, when any:
/// a missing runtime is a configuration error, a runtime without agents an
/// internal one.
pub fn manual_tick_error(start: &RunStart, name: &str) -> (r: Option<SchedulerError>)
    ensures
        match *start {
            RunStart::NeedsRuntime => r matches Some(SchedulerError::Config(m)) && m@
                == needs_runtime_msg(name@),
            RunStart::NeedsAgent => r matches Some(SchedulerError::Internal(m)) && m@
                == needs_agent_msg(name@),
            _ => r is None,
        },
{
    match start {
        RunStart::NeedsRuntime => {
            let mut m = owned("Scheduled job '");
            push_all(&mut m, name);
            push_all(&mut m, "' requires a runtime, but none is configured");
            Some(SchedulerError::Config(m))
        },
        RunStart::NeedsAgent => {
            let mut m = owned("Scheduled job '");
            push_all(&mut m, name);
            push_all(&mut m, "' cannot run because the runtime has no registered agent");
            Some(SchedulerError::Internal(m))
        },
        _ => None,
    }
}

/// How the outcome of a run is recorded: success, an unsuccessful task
/// result, or the error it failed with.
pub fn completion_status(outcome: &Result<bool, String>) -> (r: (JobRunStatus, Option<String>))
    ensures
        match *outcome {
            Ok(true) => r.0 == JobRunStatus::Succeeded && r.1 is None,
            Ok(false) => {
                &&& r.0 == JobRunStatus::Failed
                &&& r.1 matches Some(m) && m@ == "runtime returned an unsuccessful task result"@
            },
            Err(e) => {
                &&& r.0 == JobRunStatus::Failed
                &&& r.1 matches Some(m) && m@ == e@
            },
        },
{
    match outcome {
        Ok(true) => (JobRunStatus::Succeeded, None),
        Ok(false) => (
            JobRunStatus::Failed,
            Some(owned("runtime returned an unsuccessful task result")),
        ),
        Err(e) => (JobRunStatus::Failed, Some(owned(e.as_str()))),
    }
}

// ── persistence ──────────────────────────────────────────────────────

/// A job as it is stored: its schedule kept as the expression.
#[derive(Debug, Clone)]
pub struct PersistedJob {
    pub id: u128,
    pub name: String,
    pub cron_expr: String,
    pub task_goal: Option<String>,
    pub max_iterations: u32,
    pub enabled: bool,
    pub last_run: Option<i64>,
    pub next_run: Option<i64>,
    pub run_count: u64,
    pub created_at: i64,
}

/// The schedule that fires every minute, stood in for an expression that
/// no longer parses.
pub open spec fn every_minute() -> ScheduleModel {
    ScheduleModel {
        expression: "* * * * *"@,
        minute: FieldModel::Wildcard,
        hour: FieldModel::Wildcard,
        day_of_month: FieldModel::Wildcard,
        month: FieldModel::Wildcard,
        day_of_week: FieldModel::Wildcard,
    }
}

fn every_minute_schedule() -> (r: Schedule)
    ensures
        r@ == every_minute(),
{
    Schedule {
        expression: owned("* * * * *"),
        minute: CronField::Wildcard,
        hour: CronField::Wildcard,
        day_of_month: CronField::Wildcard,
        month: CronField::Wildcard,
        day_of_week: CronField::Wildcard,
    }
}

impl PersistedJob {
    /// The stored form of a job.
    pub fn from_job(job: &Job) -> (r: PersistedJob)
        ensures
            r.id == job.id,
            r.name@ == job.name@,
            r.cron_expr@ == job.schedule@.expression,
            r.task_goal == job.task_goal,
            r.max_iterations == job.max_iterations,
            r.enabled == job.enabled,
            r.last_run == job.last_run,
            r.next_run == job.next_run,
            r.run_count == job.run_count,
            r.created_at == job.created_at,
    {
        PersistedJob {
            id: job.id,
            name: job.name.clone(),
            cron_expr: owned(job.schedule.expression.as_str()),
            task_goal: match &job.task_goal {
                Some(g) => Some(g.clone()),
                None => None,
            },
            max_iterations: job.max_iterations,
            enabled: job.enabled,
            last_run: job.last_run,
            next_run: job.next_run,
            run_count: job.run_count,
            created_at: job.created_at,
        }
    }

    /// The job again, with no run in flight. An expression that does not
    /// parse becomes the every-minute schedule; a missing next run is
    /// computed from `now`.
    pub fn into_job(self, now: i64) -> (r: Job)
        requires
            time_ok(now as int),
        ensures
            r.wf(),
            r.id == self.id,
            r.name == self.name,
            r.schedule@ == match schedule_result(self.cron_expr@) {
                Ok(s) => s,
                Err(_) => every_minute(),
            },
            r.enabled == self.enabled,
            r.last_run == self.last_run,
            self.next_run is Some ==> r.next_run == self.next_run,
            self.next_run is None ==> is_next_occurrence(r.schedule@, now as int, r.next_run),
            r.last_task_id is None,
            r.run_count == self.run_count,
            r.max_concurrent == 1,
            r.running_count == 0,
            r.task_goal == self.task_goal,
            r.max_iterations == self.max_iterations,
            r.created_at == self.created_at,
    {
        let schedule = match Schedule::parse(self.cron_expr.as_str()) {
            Ok(s) => s,
            Err(_) => every_minute_schedule(),
        };
        let mut job = Job {
            id: self.id,
            name: self.name,
            schedule,
            enabled: self.enabled,
            last_run: self.last_run,
            next_run: self.next_run,
            last_task_id: None,
            run_count: self.run_count,
            max_concurrent: 1,
            running_count: 0,
            task_goal: self.task_goal,
            max_iterations: self.max_iterations,
            created_at: self.created_at,
        };
        if job.next_run.is_none() {
            job.calculate_next_run(now);
        }
        job
    }
}

/// A schedule that parsing gives keeps the text it was parsed from, so
/// parsing that text again gives the same schedule.
pub proof fn law_parsed_schedule_reparses(e: Seq<char>)
    ensures
        schedule_result(e) matches Ok(m) ==> m.expression == e && schedule_result(m.expression)
            == Ok::<ScheduleModel, Seq<char>>(m),
{
}

/// Storing a job whose schedule was parsed from some text, and loading it
/// back, keeps what was stored: id, name, schedule, enabled flag, run
/// times and count, goal, iteration limit and creation time. Only the
/// in-flight bookkeeping starts afresh.
pub proof fn lemma_persist_roundtrip(e: Seq<char>, j: Job, p: PersistedJob, back: Job, now: int)
    requires
        j.wf(),
        schedule_result(e) == Ok::<ScheduleModel, Seq<char>>(j.schedule@),
        j.next_run is Some,
        p.id == j.id && p.name@ == j.name@ && p.cron_expr@ == j.schedule@.expression
            && p.task_goal == j.task_goal && p.max_iterations == j.max_iterations && p.enabled
            == j.enabled && p.last_run == j.last_run && p.next_run == j.next_run && p.run_count
            == j.run_count && p.created_at == j.created_at,
        back.id == p.id && back.name == p.name && back.schedule@ == match schedule_result(
            p.cron_expr@,
        ) {
            Ok(s) => s,
            Err(_) => every_minute(),
        } && back.enabled == p.enabled && back.last_run == p.last_run && (p.next_run is Some
            ==> back.next_run == p.next_run) && back.run_count == p.run_count && back.task_goal
            == p.task_goal && back.max_iterations == p.max_iterations && back.created_at
            == p.created_at,
    ensures
        back.id == j.id,
        back.name@ == j.name@,
        back.schedule@ == j.schedule@,
        back.enabled == j.enabled,
        back.last_run == j.last_run,
        back.next_run == j.next_run,
        back.run_count == j.run_count,
        back.task_goal == j.task_goal,
        back.max_iterations == j.max_iterations,
        back.created_at == j.created_at,
{
    law_parsed_schedule_reparses(e);
}

} // verus!
