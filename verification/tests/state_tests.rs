use std::time::{SystemTime, UNIX_EPOCH};

use zeo_systray::protocol::{BackgroundTask, Event, EventKind};
use zeo_systray::state::{SessionStatus, Timestamp, TrayState, HISTORY_LIMIT};

fn event(kind: EventKind, session: &str, background: Vec<&str>) -> Event {
    Event {
        kind,
        session_id: session.into(),
        cwd: format!("/home/user/{session}"),
        project: session.into(),
        title: None,
        agent_type: None,
        message: None,
        background: background
            .into_iter()
            .map(|kind| BackgroundTask {
                kind: kind.into(),
                status: "running".into(),
            })
            .collect(),
    }
}

fn now() -> Timestamp {
    let since = SystemTime::now().duration_since(UNIX_EPOCH).expect("clock after 1970");
    Timestamp {
        before_epoch: false,
        secs: since.as_secs(),
        nanos: since.subsec_nanos(),
    }
}

#[test]
fn stop_with_background_work_is_not_done() {
    let mut state = TrayState::default();
    state.apply(event(EventKind::Stop, "a", vec!["shell"]));
    assert_eq!(state.aggregate(), SessionStatus::Background);
}

#[test]
fn stop_without_background_work_is_done() {
    let mut state = TrayState::default();
    state.apply(event(EventKind::Stop, "a", vec![]));
    assert_eq!(state.aggregate(), SessionStatus::Done);
}

#[test]
fn one_session_needing_you_outranks_every_other_state() {
    let mut state = TrayState::default();
    state.apply(event(EventKind::SessionStart, "a", vec![]));
    state.apply(event(EventKind::Stop, "b", vec!["shell"]));
    state.apply(event(EventKind::StopFailure, "c", vec![]));
    state.apply(event(EventKind::PermissionRequest, "d", vec![]));
    assert_eq!(state.aggregate(), SessionStatus::NeedsYou);
}

#[test]
fn session_end_removes_the_session() {
    let mut state = TrayState::default();
    state.apply(event(EventKind::SessionStart, "a", vec![]));
    assert!(!state.is_empty());
    state.apply(event(EventKind::SessionEnd, "a", vec![]));
    assert!(state.is_empty());
}

#[test]
fn clear_finished_keeps_work_that_is_still_live() {
    let mut state = TrayState::default();
    state.apply(event(EventKind::Stop, "done", vec![]));
    state.apply(event(EventKind::Stop, "busy", vec!["subagent"]));
    state.clear_finished();
    let left: Vec<_> = state.sessions().iter().map(|s| s.project.clone()).collect();
    assert_eq!(left, vec!["busy"]);
}

#[test]
fn a_session_updates_in_place_rather_than_duplicating() {
    let mut state = TrayState::default();
    state.apply(event(EventKind::SessionStart, "a", vec![]));
    state.apply(event(EventKind::Stop, "a", vec![]));
    assert_eq!(state.sessions().iter().count(), 1);
    assert_eq!(state.aggregate(), SessionStatus::Done);
}

#[test]
fn starting_a_session_raises_no_notification() {
    let mut state = TrayState::default();
    assert!(state
        .apply(event(EventKind::SessionStart, "a", vec![]))
        .is_none());
}

#[test]
fn every_notified_event_lands_in_the_history() {
    let mut state = TrayState::default();
    state.apply(event(EventKind::Stop, "a", vec![]));
    state.apply(event(EventKind::PermissionRequest, "b", vec![]));
    assert_eq!(state.history().len(), 2);
    // Most recent first.
    assert_eq!(state.history()[0].session_id, "b");
}

#[test]
fn events_that_do_not_notify_leave_no_history() {
    let mut state = TrayState::default();
    state.apply(event(EventKind::SessionStart, "a", vec![]));
    assert!(state.history().is_empty());
}

#[test]
fn muting_suppresses_the_popup_but_still_records() {
    let mut state = TrayState::default();
    state.set_muted(true);
    let notification = state.apply(event(EventKind::Stop, "a", vec![]));
    assert!(notification.is_none());
    assert_eq!(state.history().len(), 1);
}

#[test]
fn the_history_is_capped() {
    let mut state = TrayState::default();
    for i in 0..(HISTORY_LIMIT + 5) {
        state.apply(event(EventKind::Stop, &format!("s{i}"), vec![]));
    }
    assert_eq!(state.history().len(), HISTORY_LIMIT);
}

#[test]
fn a_permission_request_is_critical_and_a_finished_turn_is_not() {
    let mut state = TrayState::default();
    let critical = state.apply(event(EventKind::PermissionRequest, "a", vec![]));
    let ordinary = state.apply(event(EventKind::Stop, "b", vec![]));
    assert!(critical.expect("notified").critical);
    assert!(!ordinary.expect("notified").critical);
}

#[test]
fn history_labels_read_as_relative_time() {
    let mut state = TrayState::default();
    state.apply(event(EventKind::Stop, "proj", vec![]));
    let entry = &state.history()[0];
    assert!(entry.menu_label(now()).ends_with("(just now)"));
    let current = now();
    let later = Timestamp {
        before_epoch: false,
        secs: current.secs + 7_200,
        nanos: current.nanos,
    };
    assert!(entry.menu_label(later).ends_with("(2h ago)"));
}

// ---- further cases ----

#[test]
fn history_label_reads_minutes_and_the_whole_line() {
    let mut state = TrayState::default();
    let at = Timestamp { before_epoch: false, secs: 1_000, nanos: 500 };
    state.apply_at(event(EventKind::StopFailure, "proj", vec![]), at);
    let entry = &state.history()[0];
    assert_eq!(entry.at, at);
    assert_eq!(
        entry.menu_label(Timestamp { before_epoch: false, secs: 1_000 + 3 * 60 + 59, nanos: 900 }),
        "proj — failed (3m ago)"
    );
    // 60 seconds less one nanosecond is still under a minute.
    assert_eq!(
        entry.menu_label(Timestamp { before_epoch: false, secs: 1_060, nanos: 499 }),
        "proj — failed (just now)"
    );
    assert_eq!(
        entry.menu_label(Timestamp { before_epoch: false, secs: 1_060, nanos: 500 }),
        "proj — failed (1m ago)"
    );
    // A clock that went backwards reads as "just now".
    assert_eq!(
        entry.menu_label(Timestamp { before_epoch: false, secs: 10, nanos: 0 }),
        "proj — failed (just now)"
    );
    assert_eq!(
        entry.menu_label(Timestamp { before_epoch: false, secs: 1_000 + 25 * 3_600, nanos: 500 }),
        "proj — failed (25h ago)"
    );
}

#[test]
fn notifications_say_what_happened() {
    let mut state = TrayState::default();
    let mut titled = event(EventKind::Stop, "a", vec!["shell"]);
    titled.title = Some("Wire up the tray".into());
    let n = state.apply(titled).expect("a finished turn notifies");
    assert_eq!(n.summary, "Wire up the tray: turn finished");
    assert_eq!(n.body, "Background work is still running.");
    assert_eq!(n.icon, "system-run");
    assert_eq!(n.history_summary, "finished, background work running");
    assert_eq!(n.session_id, "a");
    assert_eq!(n.cwd, "/home/user/a");
    assert_eq!(state.history()[0].label, "Wire up the tray");

    let n = state.apply(event(EventKind::Stop, "b", vec![])).expect("notifies");
    assert_eq!(n.summary, "b: done");
    assert_eq!(n.icon, "user-idle");

    let n = state.apply(event(EventKind::StopFailure, "c", vec![])).expect("notifies");
    assert_eq!(n.summary, "c: failed");
    assert_eq!(n.body, "The turn ended with an error.");
    assert_eq!(n.icon, "dialog-error");

    let n = state.apply(event(EventKind::PermissionRequest, "d", vec![])).expect("notifies");
    assert_eq!(n.summary, "d: permission needed");
    assert_eq!(n.icon, "dialog-question");

    let mut asking = event(EventKind::Notification, "e", vec![]);
    asking.message = Some("The agent needs your input".into());
    let n = state.apply(asking).expect("notifies");
    assert_eq!(n.summary, "e");
    assert_eq!(n.body, "The agent needs your input");
    assert!(n.critical);
    assert_eq!(n.history_summary, "needs your attention");

    let n = state.apply(event(EventKind::Notification, "f", vec![])).expect("notifies");
    assert_eq!(n.body, "The agent needs your attention.");

    assert!(state.apply(event(EventKind::SubagentStop, "a", vec![])).is_none());
    assert!(state.apply(event(EventKind::SessionEnd, "a", vec![])).is_none());
    assert_eq!(state.history().len(), 6);
}

#[test]
fn a_subagent_finishing_leaves_the_session_running() {
    let mut state = TrayState::default();
    state.apply(event(EventKind::PermissionRequest, "a", vec![]));
    state.apply(event(EventKind::SubagentStop, "a", vec![]));
    assert_eq!(state.aggregate(), SessionStatus::Running);
}

#[test]
fn sessions_keep_their_first_order_and_update_in_place() {
    let mut state = TrayState::default();
    state.apply(event(EventKind::SessionStart, "a", vec![]));
    state.apply(event(EventKind::SessionStart, "b", vec![]));
    state.apply(event(EventKind::StopFailure, "a", vec![]));
    state.apply(event(EventKind::SessionStart, "c", vec![]));
    let ids: Vec<_> = state.sessions().iter().map(|s| s.session_id.clone()).collect();
    assert_eq!(ids, vec!["a", "b", "c"]);
    assert_eq!(state.sessions()[0].status, SessionStatus::Failed);
    state.remove("b");
    let ids: Vec<_> = state.sessions().iter().map(|s| s.session_id.clone()).collect();
    assert_eq!(ids, vec!["a", "c"]);
    state.remove("nobody");
    assert_eq!(state.sessions().len(), 2);
}

#[test]
fn an_empty_tray_is_done_and_says_so() {
    let state = TrayState::default();
    assert!(state.is_empty());
    assert_eq!(state.aggregate(), SessionStatus::Done);
    assert_eq!(state.summary(), "No agent sessions");
    assert!(!state.muted());
}

#[test]
fn the_summary_counts_the_states_that_matter() {
    let mut state = TrayState::default();
    state.apply(event(EventKind::SessionStart, "a", vec![]));
    state.apply(event(EventKind::SessionStart, "b", vec![]));
    state.apply(event(EventKind::PermissionRequest, "c", vec![]));
    state.apply(event(EventKind::Stop, "d", vec!["shell"]));
    state.apply(event(EventKind::Stop, "e", vec![]));
    assert_eq!(state.summary(), "1 need you, 2 running, 1 in background");

    let mut idle = TrayState::default();
    idle.apply(event(EventKind::Stop, "x", vec![]));
    idle.apply(event(EventKind::StopFailure, "y", vec![]));
    assert_eq!(idle.summary(), "2 session(s) idle");
}

#[test]
fn menu_lines_name_the_session_and_its_work() {
    let mut state = TrayState::default();
    let mut e = event(EventKind::Stop, "a", vec!["shell", "subagent"]);
    e.title = Some("Patch the panel".into());
    state.apply(e);
    state.apply(event(EventKind::SessionStart, "b", vec![]));
    let lines: Vec<_> = state.sessions().iter().map(|s| s.menu_label()).collect();
    assert_eq!(
        lines,
        vec!["Patch the panel — background work (shell, subagent)", "b — running"]
    );
}

#[test]
fn clearing_the_history_keeps_the_sessions() {
    let mut state = TrayState::default();
    state.apply(event(EventKind::Stop, "a", vec![]));
    state.clear_history();
    assert!(state.history().is_empty());
    assert_eq!(state.sessions().len(), 1);
}

#[test]
fn status_names_and_labels() {
    assert_eq!(SessionStatus::Done.icon_name(), "user-idle");
    assert_eq!(SessionStatus::Running.icon_name(), "system-run");
    assert_eq!(SessionStatus::Background.label(), "background work");
    assert_eq!(SessionStatus::NeedsYou.label(), "needs you");
    assert_eq!(SessionStatus::NeedsYou.severity(), 4);
    assert!(SessionStatus::Failed > SessionStatus::Background);
}

#[test]
fn ages_are_measured_across_the_epoch() {
    let mut state = TrayState::default();
    let at = Timestamp { before_epoch: true, secs: 10, nanos: 250 };
    state.apply_at(event(EventKind::Stop, "old", vec![]), at);
    let entry = &state.history()[0];
    assert_eq!(entry.at, at);
    // 10.00000025 s before the epoch to 3589 s after it: 3599.00000025 s.
    assert_eq!(
        entry.menu_label(Timestamp { before_epoch: false, secs: 3_589, nanos: 0 }),
        "old — done (59m ago)"
    );
    // ... and to 3590 s after it: just over an hour.
    assert_eq!(
        entry.menu_label(Timestamp { before_epoch: false, secs: 3_590, nanos: 0 }),
        "old — done (1h ago)"
    );
    assert_eq!(
        entry.menu_label(Timestamp { before_epoch: true, secs: 5, nanos: 0 }),
        "old — done (just now)"
    );
}

#[test]
fn a_removed_session_comes_back_at_the_end() {
    let mut state = TrayState::default();
    state.apply(event(EventKind::SessionStart, "a", vec![]));
    state.apply(event(EventKind::SessionStart, "b", vec![]));
    state.apply(event(EventKind::Stop, "a", vec![]));
    state.clear_finished();
    state.apply(event(EventKind::SessionStart, "a", vec![]));
    state.apply(event(EventKind::Stop, "b", vec!["shell"]));
    let ids: Vec<_> = state.sessions().iter().map(|s| s.session_id.clone()).collect();
    assert_eq!(ids, vec!["b", "a"]);
    assert_eq!(state.sessions()[0].status, SessionStatus::Background);
    assert_eq!(state.sessions()[0].background, vec!["shell"]);
}

#[test]
fn the_history_restarts_after_clearing() {
    let mut state = TrayState::default();
    state.apply(event(EventKind::Stop, "a", vec![]));
    state.clear_history();
    state.set_muted(true);
    state.apply(event(EventKind::StopFailure, "b", vec![]));
    state.apply(event(EventKind::SessionStart, "c", vec![]));
    state.remove("b");
    state.apply(event(EventKind::PermissionRequest, "d", vec![]));
    let ids: Vec<_> = state.history().iter().map(|h| h.session_id.clone()).collect();
    assert_eq!(ids, vec!["d", "b"]);
    assert_eq!(state.history()[1].summary, "failed");
}
