use raven::app::{AfterSend, App, SubmitStep};
use raven::tui::{Action, AgentStage, Panel, PendingDangerAction, RunMode, RunnerCommand, RunnerEvent};

fn app() -> App {
    App::new("/tmp/t".to_string())
}

fn has_message(app: &App, needle: &str) -> bool {
    app.messages.iter().any(|m| m.content.contains(needle))
}

#[test]
fn test_action_input_editing() {
    let mut app = app();
    app.dispatch(Action::InsertChar('h'), 0);
    app.dispatch(Action::InsertChar('i'), 0);
    assert_eq!(app.input, "hi");
    app.dispatch(Action::DeletePrev, 0);
    assert_eq!(app.input, "h");
    app.dispatch(Action::MoveCursorHome, 0);
    assert_eq!(app.cursor, 0);
    app.dispatch(Action::MoveCursorEnd, 0);
    assert_eq!(app.cursor, 1);
}

#[test]
fn test_unicode_input_editing_uses_character_boundaries() {
    let mut app = app();
    app.dispatch(Action::InsertChar('é'), 0);
    app.dispatch(Action::InsertChar('🦅'), 0);
    assert_eq!(app.input, "é🦅");
    assert_eq!(app.cursor, app.input.len());
    app.dispatch(Action::MoveCursorLeft, 0);
    app.dispatch(Action::DeleteNext, 0);
    assert_eq!(app.input, "é");
    app.dispatch(Action::DeletePrev, 0);
    assert!(app.input.is_empty());
}

#[test]
fn cursor_moves_by_whole_characters() {
    let mut app = app();
    for c in ['a', 'ß', '€', '😀'] {
        app.dispatch(Action::InsertChar(c), 0);
    }
    assert_eq!(app.cursor, 1 + 2 + 3 + 4);
    app.dispatch(Action::MoveCursorLeft, 0);
    assert_eq!(app.cursor, 6);
    app.dispatch(Action::MoveCursorLeft, 0);
    assert_eq!(app.cursor, 3);
    app.dispatch(Action::InsertChar('x'), 0);
    assert_eq!(app.input, "aßx€😀");
    assert_eq!(app.cursor, 4);
    app.dispatch(Action::MoveCursorRight, 0);
    assert_eq!(app.cursor, 7);
    app.dispatch(Action::DeletePrev, 0);
    assert_eq!(app.input, "aßx😀");
    assert_eq!(app.cursor, 4);
    app.dispatch(Action::MoveCursorHome, 0);
    app.dispatch(Action::MoveCursorLeft, 0);
    assert_eq!(app.cursor, 0);
    app.dispatch(Action::DeletePrev, 0);
    assert_eq!(app.input, "aßx😀");
}

#[test]
fn input_stops_growing_at_its_limit() {
    let mut app = app();
    for _ in 0..5000 {
        app.dispatch(Action::InsertChar('a'), 0);
    }
    assert_eq!(app.input.len(), 4096);
    app.dispatch(Action::InsertNewline, 0);
    assert_eq!(app.input.len(), 4096);
    app.is_searching = true;
    for _ in 0..300 {
        app.dispatch(Action::InsertChar('q'), 0);
    }
    assert_eq!(app.search_query.len(), 256);
}

#[test]
fn test_multiline_input_editing() {
    let mut app = app();
    app.dispatch(Action::InsertChar('a'), 0);
    app.dispatch(Action::InsertNewline, 0);
    app.dispatch(Action::InsertChar('b'), 0);
    assert_eq!(app.input, "a\nb");
}

#[test]
fn test_action_panel_nav() {
    let mut app = app();
    assert_eq!(app.focused_panel, Panel::Chat);
    app.dispatch(Action::NextPanel, 0);
    assert_eq!(app.focused_panel, Panel::Agents);
    app.dispatch(Action::PrevPanel, 0);
    assert_eq!(app.focused_panel, Panel::Chat);
}

#[test]
fn scrolling_follows_the_focused_panel() {
    let mut app = app();
    app.dispatch(Action::ScrollUp, 0);
    assert_eq!(app.chat_scroll, 0);
    app.dispatch(Action::ScrollDown, 0);
    app.dispatch(Action::ScrollDown, 0);
    assert_eq!(app.chat_scroll, 2);
    app.dispatch(Action::FocusPanel(Panel::Logs), 0);
    app.dispatch(Action::ScrollDown, 0);
    assert_eq!(app.side_scroll, 1);
    assert_eq!(app.chat_scroll, 2);
    app.dispatch(Action::NextPanel, 0);
    assert_eq!(app.side_scroll, 0);
    assert_eq!(app.focused_panel, Panel::History);
}

#[test]
fn test_action_quit() {
    let mut app = app();
    assert!(!app.should_quit);
    app.dispatch(Action::Quit, 0);
    assert!(app.should_quit);
}

#[test]
fn test_action_toggle_help() {
    let mut app = app();
    assert!(!app.show_help);
    app.dispatch(Action::ToggleHelp, 0);
    assert!(app.show_help);
}

#[test]
fn test_search_mode() {
    let mut app = app();
    app.is_searching = true;
    app.dispatch(Action::InsertChar('e'), 0);
    app.dispatch(Action::InsertChar('r'), 0);
    assert_eq!(app.search_query, "er");
    app.dispatch(Action::DeletePrev, 0);
    assert_eq!(app.search_query, "e");
}

#[test]
fn test_toggle_search() {
    let mut app = app();
    assert!(!app.is_searching);
    app.dispatch(Action::ToggleSearch, 0);
    assert!(app.is_searching);
    app.is_searching = true;
    app.search_query = "test".into();
    app.dispatch(Action::ToggleSearch, 0);
    assert!(!app.is_searching);
    assert!(app.search_query.is_empty());
}

#[test]
fn test_esc_cancels_search() {
    let mut app = app();
    app.is_searching = true;
    app.search_query = "query".into();
    app.dispatch(Action::CancelSearch, 0);
    assert!(!app.is_searching);
    assert!(app.search_query.is_empty());
}

#[test]
fn test_esc_closes_help() {
    let mut app = app();
    app.show_help = true;
    app.dispatch(Action::CancelSearch, 0);
    assert!(!app.show_help);
    assert!(!app.should_quit);
}

#[test]
fn test_esc_quits_when_idle() {
    let mut app = app();
    assert!(!app.is_searching);
    assert!(!app.show_help);
    app.dispatch(Action::CancelSearch, 0);
    assert!(app.should_quit);
}

#[test]
fn test_cancel_command_requires_approval() {
    let mut app = app();
    app.active_run_id = Some("1234567890".into());
    app.runner_attached = true;
    app.mode = RunMode::Running;
    app.input = "/cancel".into();
    let step = app.submit_goal(0);
    assert!(matches!(step, SubmitStep::Refresh));
    let req = app.pending_approval.as_ref().expect("approval pending");
    assert_eq!(req.title, "Cancel active run?");
    assert_eq!(req.details, "Approve cancelling run 12345678. Press y to approve or n to deny.");
    assert!(matches!(req.action, PendingDangerAction::CancelActiveRun));
    app.deny_pending();
    assert!(app.pending_approval.is_none());
    assert!(has_message(&app, "Request denied."));
    assert_eq!(app.last_action, "approval denied");
}

#[test]
fn test_cancel_during_model_wait_targets_active_runner() {
    let mut app = app();
    app.active_run_id = Some("1234567890".into());
    app.runner_attached = true;
    app.mode = RunMode::Running;
    app.apply_runner_event(
        RunnerEvent::AgentStage {
            agent_id: "agent-wait".into(),
            label: "main".into(),
            stage: AgentStage::WaitingForModel,
            detail: "waiting for model... 10s elapsed (planning/decomposition)".into(),
            elapsed_ms: 10_000,
        },
        1_000,
    );

    app.input = "/cancel".into();
    app.submit_goal(1_000);
    assert!(app.pending_approval.is_some());

    let step = app.approve_pending();
    let after = match step {
        SubmitStep::Send(RunnerCommand::Cancel, after) => after,
        other => panic!("expected a cancel to send, got {:?}", other),
    };
    app.command_sent(after);

    assert!(has_message(&app, "waiting for model... 10s elapsed"));
    assert!(has_message(&app, "Cancel approved."));
}

#[test]
fn test_followup_message_redirects_active_run() {
    let mut app = app();
    app.active_run_id = Some("1234567890".into());
    app.runner_attached = true;
    app.mode = RunMode::Running;
    app.input = "focus on docs first".into();

    let step = app.submit_goal(0);
    match step {
        SubmitStep::Send(RunnerCommand::Redirect(message), AfterSend::Steer) => {
            assert_eq!(message, "focus on docs first")
        },
        other => panic!("expected a redirect, got {:?}", other),
    }
    app.command_sent(AfterSend::Steer);
    assert!(app.orch.active_runs.is_empty());
    assert!(has_message(&app, "Steered the active run with your latest message."));
}

#[test]
fn test_active_run_control_commands_are_sent_to_runner() {
    let mut app = app();
    app.active_run_id = Some("1234567890".into());
    app.runner_attached = true;
    app.mode = RunMode::Running;

    app.input = "/pause".into();
    assert!(matches!(app.submit_goal(0), SubmitStep::Send(RunnerCommand::Pause, AfterSend::Pause)));
    app.command_sent(AfterSend::Pause);
    assert_eq!(app.mode, RunMode::Paused);

    app.input = "/resume".into();
    assert!(matches!(app.submit_goal(0), SubmitStep::Send(RunnerCommand::Resume, AfterSend::Resume)));
    app.command_sent(AfterSend::Resume);
    assert_eq!(app.mode, RunMode::Running);

    app.input = "/redirect focus tests".into();
    assert!(matches!(
        app.submit_goal(0),
        SubmitStep::Send(RunnerCommand::Redirect(message), AfterSend::Redirect) if message == "focus tests"
    ));

    app.input = "/prio abc123 2".into();
    assert!(matches!(
        app.submit_goal(0),
        SubmitStep::Send(
            RunnerCommand::Reprioritise { agent_id_prefix, priority },
            AfterSend::Reprioritise
        ) if agent_id_prefix == "abc123" && priority == 2
    ));
}

#[test]
fn control_commands_without_a_runner_are_reported() {
    let mut app = app();
    app.input = "  /pause  ".into();
    assert!(matches!(app.submit_goal(0), SubmitStep::Refresh));
    assert!(has_message(&app, "No active run to control."));
    assert_eq!(app.mode, RunMode::Paused);
    assert_eq!(app.last_action, "pause requested");
    app.input = "/prio x y".into();
    app.submit_goal(0);
    assert!(has_message(&app, "Priority must be a number."));
    app.input = "/bogus".into();
    app.submit_goal(0);
    assert!(has_message(&app, "Unknown command."));
    app.input = "/help".into();
    app.submit_goal(0);
    assert!(app.show_help);
    app.input = "   ".into();
    assert!(matches!(app.submit_goal(0), SubmitStep::Done));
}

#[test]
fn submitting_a_goal_starts_a_run() {
    let mut app = app();
    app.input = "  build the thing ".into();
    app.cursor = app.input.len();
    let step = app.submit_goal(42);
    match step {
        SubmitStep::Start(goal) => assert_eq!(goal, "build the thing"),
        other => panic!("expected a start, got {:?}", other),
    }
    assert!(app.input.is_empty());
    assert_eq!(app.cursor, 0);
    assert_eq!(app.mode, RunMode::Running);
    assert_eq!(app.last_runner_event_at, Some(42));
    assert_eq!(app.last_runner_stage, "creating run");
    app.run_started("run-123456789", "build the thing");
    assert_eq!(app.active_run_id.as_deref(), Some("run-123456789"));
    assert!(app.runner_attached);
    assert_eq!(app.last_action, "started run run-1234");
    assert!(has_message(&app, "Started run run-123456789. Use /pause"));
    assert_eq!(app.messages[0].content, "build the thing");
}

#[test]
fn handle_action_routes_answers() {
    let mut app = app();
    app.runner_attached = true;
    app.mode = RunMode::Running;
    app.input = "/cancel".into();
    app.handle_action(Action::Submit, 0);
    assert!(app.pending_approval.is_some());
    assert!(matches!(app.handle_action(Action::InsertChar('y'), 0), SubmitStep::Send(RunnerCommand::Cancel, _)));
    assert!(app.pending_approval.is_none());
    assert!(app.input.is_empty());
    app.handle_action(Action::InsertChar('n'), 0);
    assert_eq!(app.input, "n");
}

#[test]
fn test_runner_stage_event_adds_chat_feedback() {
    let mut app = app();
    app.apply_runner_event(
        RunnerEvent::RunStage {
            run_id: "run-12345678".into(),
            stage: AgentStage::Decomposing,
            detail: "decomposed goal into 3 task(s)".into(),
            elapsed_ms: 12,
        },
        5,
    );

    assert!(app.last_runner_event_at.is_some());
    assert!(app.last_runner_stage.contains("decomposing"));
    assert!(has_message(&app, "decomposed goal into 3 task(s)"));
    assert_eq!(app.last_action, "decomposing 12ms");
    assert_eq!(app.log_entries[0].message, "Run run-1234 decomposing: decomposed goal into 3 task(s)");
}

#[test]
fn test_model_wait_stage_updates_live_agent_panel_and_chat() {
    let mut app = app();
    app.mode = RunMode::Running;
    app.apply_runner_event(
        RunnerEvent::AgentStage {
            agent_id: "agent-12345678".into(),
            label: "task-1".into(),
            stage: AgentStage::WaitingForModel,
            detail: "waiting for model... 10s elapsed (planning/decomposition)".into(),
            elapsed_ms: 10_000,
        },
        0,
    );

    assert_eq!(app.orch.agents.len(), 1);
    let agent = &app.orch.agents[0];
    assert_eq!(agent.phase, "waiting_for_model");
    assert_eq!(agent.current_tool_call.as_deref(), Some("model"));
    assert_eq!(agent.elapsed_secs, 10);
    assert!(agent.last_update.contains("waiting for model"));
    assert!(has_message(&app, "waiting for model... 10s elapsed"));
}

#[test]
fn test_fake_slow_provider_equivalent_keeps_agent_state_fresh() {
    let mut app = app();
    app.mode = RunMode::Running;
    for elapsed_ms in [0u64, 1_000, 10_000, 45_000, 90_000] {
        app.apply_runner_event(
            RunnerEvent::AgentStage {
                agent_id: "agent-slow".into(),
                label: "slow-agent".into(),
                stage: AgentStage::WaitingForModel,
                detail: format!("waiting for model... {}s elapsed", elapsed_ms / 1000),
                elapsed_ms,
            },
            elapsed_ms,
        );
    }

    let agent = &app.orch.agents[0];
    assert_eq!(agent.phase, "waiting_for_model");
    assert_eq!(agent.elapsed_secs, 90);
    assert_eq!(agent.last_event_age_secs, Some(0));
    assert!(agent.last_update.contains("90s elapsed"));
    assert!(!app.stale_warning_emitted);
    let announced = app.messages.iter().filter(|m| m.content.contains("slow-agent: waiting")).count();
    assert_eq!(announced, 1);
}

#[test]
fn test_no_runner_event_for_15s_warns_with_last_stage() {
    let mut app = app();
    app.mode = RunMode::Running;
    app.last_runner_event_at = Some(1_000);
    app.last_runner_stage = "waiting_for_model: planning".into();

    app.dispatch(Action::Tick, 17_000);

    assert!(app.stale_warning_emitted);
    assert!(has_message(&app, "No runner event for 15s. Last known stage"));
    assert!(has_message(&app, "waiting_for_model: planning"));
    assert_eq!(app.elapsed_ms, 500);
    let count = app.messages.len();
    app.dispatch(Action::Tick, 40_000);
    assert_eq!(app.messages.len(), count);
}

#[test]
fn test_submit_progress_sequence_to_result_updates_ui() {
    let mut app = app();
    app.runner_attached = true;
    app.runner_listening = true;
    let events = vec![
        RunnerEvent::RunStarted { run_id: "run-12345678".into(), goal: "demo goal".into(), task_count: 1 },
        RunnerEvent::AgentStarted {
            agent_id: "agent-12345678".into(),
            label: "main".into(),
            task: "demo goal".into(),
        },
        RunnerEvent::AgentStage {
            agent_id: "agent-12345678".into(),
            label: "main".into(),
            stage: AgentStage::WaitingForModel,
            detail: "model call in progress... 1s elapsed (action/tool selection)".into(),
            elapsed_ms: 1_000,
        },
        RunnerEvent::AgentStage {
            agent_id: "agent-12345678".into(),
            label: "main".into(),
            stage: AgentStage::RunningTool,
            detail: "model requested tool call(s): file_read".into(),
            elapsed_ms: 1_500,
        },
        RunnerEvent::AgentFinished {
            agent_id: "agent-12345678".into(),
            label: "main".into(),
            success: true,
            summary: "done".into(),
        },
        RunnerEvent::RunFinished { run_id: "run-12345678".into(), success: true, summary: "final done".into() },
    ];
    for (i, e) in events.into_iter().enumerate() {
        let terminal = e.is_terminal();
        app.apply_runner_event(e, i as u64 * 100);
        assert_eq!(terminal, i == 5);
    }

    assert_eq!(app.mode, RunMode::Idle);
    assert!(!app.runner_attached);
    assert!(!app.runner_listening);
    assert!(app.active_run_id.is_none());
    assert!(has_message(&app, "Running 1 task(s) for: demo goal"));
    assert!(has_message(&app, "Final summary for run-1234"));
    assert_eq!(app.orch.agents[0].phase, "done");
    assert_eq!(app.orch.agents[0].progress_pct, 100);
}

#[test]
fn test_blocker_and_error_events_surface_in_ui() {
    let mut app = app();
    app.mode = RunMode::Running;

    app.apply_runner_event(
        RunnerEvent::AgentQueued {
            agent_id: "agent-lock".into(),
            label: "writer".into(),
            reason: "Waiting for write lock on 'src/lib.rs'".into(),
        },
        0,
    );
    app.apply_runner_event(
        RunnerEvent::AgentStage {
            agent_id: "agent-approval".into(),
            label: "danger".into(),
            stage: AgentStage::ApprovalNeeded,
            detail: "approval required for shell".into(),
            elapsed_ms: 0,
        },
        0,
    );
    app.apply_runner_event(
        RunnerEvent::AgentStage {
            agent_id: "agent-fail".into(),
            label: "tool-user".into(),
            stage: AgentStage::Failed,
            detail: "tool failed: missing file".into(),
            elapsed_ms: 500,
        },
        0,
    );

    assert!(app.orch.agents.iter().any(|agent| {
        agent.phase == "waiting_for_lock"
            && agent.blocked_reason.as_deref().unwrap_or_default().contains("write lock")
    }));
    assert!(app.orch.agents.iter().any(|agent| {
        agent.phase == "approval_needed"
            && agent.blocked_reason.as_deref().unwrap_or_default().contains("approval required")
    }));
    assert!(has_message(&app, "tool-user failed: tool failed"));
    assert_eq!(app.error_count, 1);
    let labels: Vec<&str> = app.orch.agents.iter().map(|a| a.label.as_str()).collect();
    assert_eq!(labels, vec!["danger", "tool-user", "writer"]);
}

#[test]
fn run_failure_goes_idle_when_no_run_is_left() {
    let mut app = app();
    app.mode = RunMode::Running;
    app.runner_attached = true;
    app.running_runs = vec!["a".into(), "b".into()];
    app.on_run_failed("a", "boom");
    assert_eq!(app.running_runs, vec!["b".to_string()]);
    assert_eq!(app.mode, RunMode::Running);
    assert!(!app.runner_attached);
    app.on_run_failed("b", "bang");
    assert_eq!(app.mode, RunMode::Idle);
    assert_eq!(app.error_count, 2);
    assert!(has_message(&app, "Failed: bang"));
}

#[test]
fn log_keeps_the_latest_five_hundred_lines() {
    let mut app = app();
    for i in 0..520 {
        app.add_log(raven::tui::LogLevel::Info, "test", format!("line {i}"));
    }
    assert_eq!(app.log_entries.len(), 500);
    assert_eq!(app.log_entries[0].message, "line 20");
    assert_eq!(app.log_entries[499].message, "line 519");
}

#[test]
fn enter_starts_a_run_or_steers_the_active_one() {
    let mut app = app();
    app.input = "  build the thing ".into();
    match app.handle_action(Action::Submit, 7) {
        SubmitStep::Start(goal) => assert_eq!(goal, "build the thing"),
        _ => panic!("a run should start"),
    }
    assert_eq!(app.mode, RunMode::Running);
    assert_eq!(app.last_runner_event_at, Some(7));
    assert!(has_message(&app, "build the thing"));
    assert!(has_message(&app, "Creating run"));

    app.runner_attached = true;
    app.input = "focus on the tests".into();
    match app.handle_action(Action::Submit, 8) {
        SubmitStep::Send(RunnerCommand::Redirect(goal), AfterSend::Steer) => {
            assert_eq!(goal, "focus on the tests")
        }
        _ => panic!("the active run should be steered"),
    }
    assert!(app.input.is_empty());

    app.input = "/cancel".into();
    app.handle_action(Action::Submit, 9);
    assert!(app.pending_approval.is_some());
    assert!(matches!(app.handle_action(Action::InsertChar('N'), 9), SubmitStep::Done));
    assert!(app.pending_approval.is_none());
    assert!(has_message(&app, "Request denied."));
    assert_eq!(app.last_action, "approval denied");
}
