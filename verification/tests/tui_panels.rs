use raven::tui::{
    handle_key, make_progress_bar, mode_label, mode_str, phase_icon, phase_icon_text, truncate, ThemeColor, progress_for_phase, short_id,
    spinner_frame, truncate_for_message, Action, AgentStage, ChatMessage, KeyCode, LogLevel,
    MessageRole, OrchSnapshot, Panel, RunMode, ALT, CONTROL, SHIFT,
};

#[test]
fn test_panel_names() {
    assert_eq!(Panel::Chat.name(), "Chat");
    assert_eq!(Panel::Agents.name(), "Agents");
    assert_eq!(Panel::TaskGraph.name(), "Task Graph");
    assert_eq!(Panel::Locks.name(), "Files/Locks");
    assert_eq!(Panel::Tools.name(), "Tools");
    assert_eq!(Panel::Logs.name(), "Logs/Audit");
    assert_eq!(Panel::History.name(), "History");
    assert_eq!(Panel::Conflicts.name(), "Conflicts");
}

#[test]
fn test_panel_count() {
    assert_eq!(Panel::ALL.len(), 8);
}

#[test]
fn test_panel_next() {
    assert_eq!(Panel::Chat.next(), Panel::Agents);
    assert_eq!(Panel::Agents.next(), Panel::TaskGraph);
    assert_eq!(Panel::Conflicts.next(), Panel::Chat);
}

#[test]
fn test_panel_prev() {
    assert_eq!(Panel::Chat.prev(), Panel::Conflicts);
}

#[test]
fn test_panel_numbers() {
    assert_eq!(Panel::Chat.number(), 1);
    assert_eq!(Panel::Agents.number(), 2);
    assert_eq!(Panel::Conflicts.number(), 8);
}

#[test]
fn test_mode() {
    assert_eq!(mode_label(RunMode::Idle), "IDLE");
    assert_eq!(mode_label(RunMode::Running), "RUNNING");
}

#[test]
fn test_phase_icon() {
    assert_eq!(phase_icon_text("running"), "[>]");
    assert_eq!(phase_icon_text("failed"), "[X]");
    assert_eq!(phase_icon_text("done"), "[v]");
}

#[test]
fn test_message_roles() {
    let msg = ChatMessage {
        role: MessageRole::User,
        content: "hello".into(),
        timestamp: std::time::Instant::now(),
        run_id: None,
    };
    assert_eq!(msg.role, MessageRole::User);
}

#[test]
fn test_orch_snapshot_default() {
    let s = OrchSnapshot::default();
    assert!(s.agents.is_empty());
    assert!(s.locks.is_empty());
    assert!(s.conflicts.is_empty());
}

#[test]
fn test_progress_bar() {
    assert_eq!(make_progress_bar(0, 8), "[        ]");
    assert_eq!(make_progress_bar(50, 8), "[====    ]");
    assert_eq!(make_progress_bar(100, 8), "[========]");
}

#[test]
fn test_evt_enter() {
    assert_eq!(handle_key(KeyCode::Enter, 0), Some(Action::Submit));
}

#[test]
fn test_evt_tab() {
    assert_eq!(handle_key(KeyCode::Tab, 0), Some(Action::NextPanel));
}

#[test]
fn test_evt_esc() {
    assert_eq!(handle_key(KeyCode::Esc, 0), Some(Action::CancelSearch));
}

#[test]
fn test_evt_alt_1_jumps_to_chat() {
    assert_eq!(
        handle_key(KeyCode::Char('1'), ALT),
        Some(Action::FocusPanel(Panel::Chat))
    );
}

#[test]
fn test_evt_alt_8_jumps_to_conflicts() {
    assert_eq!(
        handle_key(KeyCode::Char('8'), ALT),
        Some(Action::FocusPanel(Panel::Conflicts))
    );
}

#[test]
fn test_evt_shift_enter_inserts_newline() {
    assert_eq!(handle_key(KeyCode::Enter, SHIFT), Some(Action::InsertNewline));
}

#[test]
fn test_evt_slash_is_input_for_commands() {
    assert_eq!(handle_key(KeyCode::Char('/'), 0), Some(Action::InsertChar('/')));
}

#[test]
fn test_evt_ctrl_f_toggles_search() {
    assert_eq!(handle_key(KeyCode::Char('f'), CONTROL), Some(Action::ToggleSearch));
}

#[test]
fn panel_cycle_returns_to_start() {
    for p in Panel::ALL.iter() {
        assert_eq!(p.next().prev(), *p);
        assert_eq!(p.prev().next(), *p);
    }
    let mut p = Panel::Chat;
    for _ in 0..8 {
        p = p.next();
    }
    assert_eq!(p, Panel::Chat);
}

#[test]
fn stage_and_level_labels() {
    assert_eq!(AgentStage::WaitingForModel.label(), "waiting_for_model");
    assert_eq!(AgentStage::Cancelled.label(), "cancelled");
    assert_eq!(LogLevel::Warn.name(), "WARN");
    assert_eq!(LogLevel::Trace.name(), "TRACE");
}

#[test]
fn phase_progress_values() {
    assert_eq!(progress_for_phase("planning"), 25);
    assert_eq!(progress_for_phase("reviewing"), 90);
    assert_eq!(progress_for_phase("cancelled"), 100);
    assert_eq!(progress_for_phase("something-else"), 0);
    assert_eq!(phase_icon_text("canceled"), "[=]");
    assert_eq!(phase_icon_text("whatever"), "[?]");
}

#[test]
fn text_helpers() {
    assert_eq!(make_progress_bar(33, 3), "[   ]");
    assert_eq!(make_progress_bar(150, 4), "[====]");
    assert_eq!(truncate_for_message("abcdefgh", 6), "abc...");
    assert_eq!(truncate_for_message("abcdefgh", 3), "abc");
    assert_eq!(truncate_for_message("abc", 6), "abc");
    assert_eq!(short_id("abcdefghijk"), "abcdefgh");
    assert_eq!(short_id("abc"), "abc");
    assert!(!spinner_frame(0).is_empty());
}

#[test]
fn phase_markers_and_colours() {
    assert_eq!(phase_icon("running"), ("[>]", ThemeColor::Green));
    assert_eq!(phase_icon("spawning_agents"), ("[*]", ThemeColor::Accent));
    assert_eq!(phase_icon("running_tool"), ("[T]", ThemeColor::Cyan));
    assert_eq!(phase_icon("paused"), ("[||]", ThemeColor::Yellow));
    assert_eq!(phase_icon("canceled"), ("[=]", ThemeColor::Red));
    assert_eq!(phase_icon("whatever"), ("[?]", ThemeColor::Muted));
    assert_eq!(mode_str(RunMode::Running), ("RUNNING", ThemeColor::Green));
    assert_eq!(mode_str(RunMode::Idle).1, ThemeColor::Muted);
    assert_eq!(ThemeColor::Accent.rgb(), (137, 180, 250));
    assert_eq!(truncate("abcdefgh", 6), "abc...");
    assert_eq!(truncate("abcdefgh", 3), "abc");
    assert_eq!(truncate("abc", 6), "abc");
}
