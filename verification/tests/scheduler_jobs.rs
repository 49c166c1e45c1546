use raven::cron::Schedule;
use raven::scheduler::{
    completion_status, manual_tick_error, Dispatch, Job, JobRunStatus, PersistedJob, RunStart,
    RuntimeAgent, Scheduler, SchedulerConfig, SchedulerError, SchedulerJobConfig, StartAction,
};

// 2025-01-06T09:30:00Z, a Monday.
const MONDAY_0930: i64 = 1736155800;

fn config(enabled: bool, interval: u64) -> SchedulerConfig {
    SchedulerConfig { enabled, check_interval_secs: interval, max_concurrent: 2, db_path: None }
}

#[test]
fn test_job_creation() {
    let sched = Schedule::parse("0 * * * *").unwrap();
    let job = Job::new(1, "test-job", sched, MONDAY_0930);
    assert_eq!(job.name, "test-job");
    assert!(job.enabled);
    assert!(job.last_run.is_none());
    assert!(job.next_run.is_some());
    assert_eq!(job.run_count, 0);
    // next top of the hour
    assert_eq!(job.next_run, Some(1736157600));
}

#[test]
fn test_job_is_due() {
    let sched = Schedule::parse("* * * * *").unwrap();
    let mut job = Job::new(2, "due-test", sched, MONDAY_0930);
    let past = MONDAY_0930 - 60;
    job.next_run = Some(past);
    assert!(job.is_due(MONDAY_0930));

    job.enabled = false;
    assert!(!job.is_due(MONDAY_0930));
}

#[test]
fn test_job_mark_run() {
    let sched = Schedule::parse("0 * * * *").unwrap();
    let mut job = Job::new(3, "mark-test", sched, MONDAY_0930);
    let task_id = 77u128;
    job.mark_run(task_id, MONDAY_0930);
    assert!(job.last_run.is_some());
    assert_eq!(job.last_task_id, Some(task_id));
    assert_eq!(job.run_count, 1);
}

#[test]
fn job_config_defaults() {
    let c = SchedulerJobConfig::new("summarise the logs");
    assert_eq!(c.task_goal, "summarise the logs");
    assert_eq!(c.max_iterations, 100);
    let c = c.with_max_iterations(7);
    assert_eq!(c.max_iterations, 7);
    assert_eq!(c.task_goal, "summarise the logs");
}

#[test]
fn add_list_and_remove_jobs() {
    let mut s = Scheduler::new(config(true, 1));
    let id = s.add_job(10, "test", "* * * * *", MONDAY_0930).unwrap();
    assert_eq!(id, 10);
    assert_eq!(s.job_count(), 1);
    assert_eq!(s.list_jobs()[0].name, "test");
    assert!(s.get_job(10).is_some());
    assert!(s.remove_job(10));
    assert!(!s.remove_job(10));
    assert!(s.get_job(10).is_none());
    assert_eq!(s.job_count(), 0);
}

#[test]
fn invalid_schedule_is_a_config_error() {
    let mut s = Scheduler::new(config(true, 1));
    let err = s.add_job(1, "bad", "not a cron", MONDAY_0930).unwrap_err();
    assert_eq!(
        err,
        SchedulerError::Config(
            "Invalid schedule 'not a cron': Invalid cron expression 'not a cron': expected 5 fields, got 3"
                .to_string()
        )
    );
    assert_eq!(s.job_count(), 0);
}

#[test]
fn each_added_job_gets_its_own_entry() {
    let mut s = Scheduler::new(config(true, 1));
    assert_eq!(s.add_job(5, "first", "* * * * *", MONDAY_0930), Ok(5));
    assert_eq!(s.add_job(6, "second", "0 * * * *", MONDAY_0930), Ok(6));
    assert_eq!(s.job_count(), 2);
    assert_eq!(s.get_job(5).unwrap().name, "first");
    assert_eq!(s.get_job(6).unwrap().name, "second");
    assert!(s.get_job(6).unwrap().enabled);
    // a refused schedule leaves the table as it was
    assert!(s.add_job(7, "bad", "not-a-cron", MONDAY_0930).is_err());
    assert_eq!(s.job_count(), 2);
}

#[test]
fn enable_disable_and_due_ids() {
    let mut s = Scheduler::new(config(true, 1));
    s.add_job(1, "a", "* * * * *", MONDAY_0930).unwrap();
    s.add_job(2, "b", "* * * * *", MONDAY_0930).unwrap();
    let later = MONDAY_0930 + 120;
    assert_eq!(s.due_job_ids(MONDAY_0930), Vec::<u128>::new());
    assert_eq!(s.due_job_ids(later), vec![1, 2]);
    assert!(s.set_job_enabled(1, false));
    assert!(!s.set_job_enabled(99, false));
    assert_eq!(s.due_job_ids(later), vec![2]);
}

#[test]
fn start_and_finish_runs() {
    let mut s = Scheduler::new(config(true, 1));
    s.add_job(1, "a", "* * * * *", MONDAY_0930).unwrap();
    let later = MONDAY_0930 + 120;
    let r = s.start_run(1, 500, later, RuntimeAgent::NoRuntime);
    assert_eq!(r, RunStart::Started(Dispatch::Closure));
    let job = s.get_job(1).unwrap();
    assert_eq!(job.run_count, 1);
    assert_eq!(job.running_count, 1);
    assert_eq!(job.last_task_id, Some(500));
    assert_eq!(job.last_run, Some(later));
    assert!(!job.is_due(later));
    // max_concurrent is 1
    assert_eq!(s.start_run(1, 501, later + 60, RuntimeAgent::NoRuntime), RunStart::AtCapacity);
    s.finish_run(1);
    assert_eq!(s.get_job(1).unwrap().running_count, 0);
    s.finish_run(1);
    assert_eq!(s.get_job(1).unwrap().running_count, 0);
    assert_eq!(s.start_run(9, 1, later, RuntimeAgent::NoRuntime), RunStart::Missing);
}

#[test]
fn configured_job_needs_runtime_and_agent() {
    let mut s = Scheduler::new(config(true, 1));
    let cfg = SchedulerJobConfig::new("check the build").with_max_iterations(5);
    s.add_job_with_config(1, "agent-job", "* * * * *", cfg, MONDAY_0930).unwrap();
    let later = MONDAY_0930 + 120;
    let r = s.start_run(1, 1, later, RuntimeAgent::NoRuntime);
    assert_eq!(r, RunStart::NeedsRuntime);
    assert_eq!(
        manual_tick_error(&r, "agent-job"),
        Some(SchedulerError::Config(
            "Scheduled job 'agent-job' requires a runtime, but none is configured".to_string()
        ))
    );
    let r = s.start_run(1, 1, later, RuntimeAgent::NoAgent);
    assert_eq!(r, RunStart::NeedsAgent);
    assert_eq!(
        manual_tick_error(&r, "agent-job"),
        Some(SchedulerError::Internal(
            "Scheduled job 'agent-job' cannot run because the runtime has no registered agent"
                .to_string()
        ))
    );
    assert_eq!(s.get_job(1).unwrap().run_count, 0);
    let r = s.start_run(1, 2, later, RuntimeAgent::Agent(42));
    assert_eq!(
        r,
        RunStart::Started(Dispatch::Runtime {
            agent_id: 42,
            goal: "check the build".to_string(),
            max_iterations: 5
        })
    );
    assert_eq!(manual_tick_error(&r, "agent-job"), None);
}

#[test]
fn start_checks_config() {
    let mut s = Scheduler::new(config(false, 1));
    assert_eq!(s.start(), Ok(StartAction::Disabled));
    assert!(!s.is_running());
    let mut s = Scheduler::new(config(true, 0));
    assert_eq!(
        s.start(),
        Err(SchedulerError::Config(
            "scheduler.check_interval_secs must be greater than zero".to_string()
        ))
    );
    let mut s = Scheduler::new(config(true, 1));
    assert_eq!(s.start(), Ok(StartAction::Started));
    assert!(s.is_running());
    assert_eq!(s.start(), Ok(StartAction::AlreadyRunning));
    s.stop();
    assert!(!s.is_running());
    assert_eq!(s.host_permits(), 2);
    let s = Scheduler::new(SchedulerConfig {
        enabled: true,
        check_interval_secs: 1,
        max_concurrent: 0,
        db_path: None,
    });
    assert_eq!(s.host_permits(), 1);
}

#[test]
fn completion_statuses() {
    assert_eq!(completion_status(&Ok(true)), (JobRunStatus::Succeeded, None));
    assert_eq!(
        completion_status(&Ok(false)),
        (
            JobRunStatus::Failed,
            Some("runtime returned an unsuccessful task result".to_string())
        )
    );
    assert_eq!(
        completion_status(&Err("boom".to_string())),
        (JobRunStatus::Failed, Some("boom".to_string()))
    );
}

#[test]
fn persisted_job_roundtrip() {
    let mut s = Scheduler::new(config(true, 1));
    let cfg = SchedulerJobConfig::new("Run nightly");
    s.add_job_with_config(7, "nightly", "0 2 * * *", cfg, MONDAY_0930).unwrap();
    let job = s.get_job(7).unwrap();
    let p = PersistedJob::from_job(job);
    assert_eq!(p.cron_expr, "0 2 * * *");
    assert_eq!(p.task_goal.as_deref(), Some("Run nightly"));
    let back = p.clone().into_job(MONDAY_0930);
    assert_eq!(back.id, 7);
    assert_eq!(back.name, "nightly");
    assert_eq!(back.schedule.expression, "0 2 * * *");
    assert_eq!(back.next_run, job.next_run);
    assert_eq!(back.max_iterations, 100);

    let mut broken = p;
    broken.cron_expr = "garbage".to_string();
    broken.next_run = None;
    let back = broken.into_job(MONDAY_0930);
    assert_eq!(back.schedule.expression, "* * * * *");
    assert_eq!(back.next_run, Some(MONDAY_0930 + 60));

    let mut fresh = Scheduler::new(config(true, 1));
    let loaded = fresh.load_persisted(vec![PersistedJob::from_job(s.get_job(7).unwrap())], MONDAY_0930);
    assert_eq!(loaded, 1);
    assert_eq!(fresh.get_job(7).unwrap().name, "nightly");
}

#[test]
fn manual_tick_starts_due_jobs_until_one_needs_a_runtime() {
    let mut s = Scheduler::new(config(true, 1));
    s.add_job(1, "plain", "* * * * *", MONDAY_0930).unwrap();
    let cfg = SchedulerJobConfig::new("check the build");
    s.add_job_with_config(2, "agent-job", "* * * * *", cfg, MONDAY_0930).unwrap();
    s.add_job(3, "later", "* * * * *", MONDAY_0930).unwrap();
    s.add_job(4, "hourly", "0 * * * *", MONDAY_0930).unwrap();
    let later = MONDAY_0930 + 120;

    let r = s.run_pending(later, RuntimeAgent::NoRuntime);
    assert_eq!(r.due, 3);
    assert_eq!(r.started.len(), 1);
    assert_eq!(r.started[0].job_id, 1);
    assert_eq!(r.started[0].dispatch, Dispatch::Closure);
    assert_eq!(
        r.error,
        Some(SchedulerError::Config(
            "Scheduled job 'agent-job' requires a runtime, but none is configured".to_string()
        ))
    );
    assert_eq!(s.get_job(1).unwrap().run_count, 1);
    assert_eq!(s.get_job(1).unwrap().last_task_id, Some(r.started[0].task_id));
    assert_eq!(s.get_job(2).unwrap().run_count, 0);
    assert_eq!(s.get_job(3).unwrap().run_count, 0);

    // with an agent the rest start; job 1 already ran and is not due
    let r = s.run_pending(later, RuntimeAgent::Agent(42));
    assert_eq!(r.error, None);
    let ids: Vec<u128> = r.started.iter().map(|x| x.job_id).collect();
    assert_eq!(ids, vec![2, 3]);
    assert_eq!(
        r.started[0].dispatch,
        Dispatch::Runtime { agent_id: 42, goal: "check the build".to_string(), max_iterations: 100 }
    );
    assert_eq!(s.get_job(4).unwrap().run_count, 0);
}

#[test]
fn overdue_stored_job_is_due_after_restart() {
    // The job was due an hour before the restart and never ran.
    let mut s = Scheduler::new(config(true, 1));
    s.add_job(9, "hourly", "0 * * * *", MONDAY_0930 - 7200).unwrap();
    let mut p = PersistedJob::from_job(s.get_job(9).unwrap());
    p.next_run = Some(MONDAY_0930 - 3600);

    // A stale entry with the same id is replaced by the stored one.
    let mut restarted = Scheduler::new(config(true, 1));
    restarted.add_job(9, "stale", "0 2 * * *", MONDAY_0930).unwrap();
    let loaded = restarted.load_persisted(vec![p], MONDAY_0930);
    assert_eq!(loaded, 1);
    let job = restarted.get_job(9).unwrap();
    assert_eq!(job.name, "hourly");
    assert_eq!(job.next_run, Some(MONDAY_0930 - 3600));
    assert!(job.is_due(MONDAY_0930));
    assert_eq!(restarted.due_job_ids(MONDAY_0930), vec![9]);
}
