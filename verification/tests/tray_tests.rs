use zeo_systray::daemon::seed_demo;
use zeo_systray::icon::{IconSet, BUNDLED};
use zeo_systray::protocol::{Event, EventKind};
use zeo_systray::state::{SessionStatus, TrayState};
use zeo_systray::text::{decimal_string, join};
use zeo_systray::tray::{AgentTray, ItemStatus, MenuAction, MenuEntry, TITLE};

fn event(kind: EventKind, session: &str) -> Event {
    Event {
        kind,
        session_id: session.into(),
        cwd: format!("/home/user/{session}"),
        project: session.into(),
        title: None,
        agent_type: None,
        message: None,
        background: Vec::new(),
    }
}

fn labels(menu: &[MenuEntry]) -> Vec<String> {
    menu.iter()
        .map(|entry| match entry {
            MenuEntry::Item { label, .. } => label.clone(),
            MenuEntry::Separator => "---".into(),
        })
        .collect()
}

#[test]
fn icons_default_to_the_bundled_mark() {
    let icons = IconSet::from_settings(None, None);
    assert_eq!(icons.base, BUNDLED);
    assert_eq!(icons.theme_path, "");
    let icons = IconSet::from_settings(Some("dev.zed.Zed-Nightly".into()), Some("/tmp/t".into()));
    assert_eq!(icons.base, "dev.zed.Zed-Nightly");
    assert_eq!(icons.theme_path, "/tmp/t");
}

#[test]
fn only_unusual_states_carry_a_badge() {
    assert_eq!(SessionStatus::Running.overlay_icon_name(), "");
    assert_eq!(SessionStatus::Done.overlay_icon_name(), "");
    assert_eq!(SessionStatus::Background.overlay_icon_name(), "system-run");
    assert_eq!(SessionStatus::Failed.overlay_icon_name(), "dialog-error");
    assert_eq!(SessionStatus::NeedsYou.overlay_icon_name(), "dialog-question");
}

#[test]
fn an_empty_tray_has_one_inert_row() {
    let tray = AgentTray::new(TrayState::default(), IconSet::from_settings(None, None));
    assert_eq!(tray.icon_name(), "zeo-systray");
    assert_eq!(tray.attention_icon_name(), "zeo-systray");
    assert_eq!(tray.icon_theme_path(), "");
    assert_eq!(tray.overlay_icon_name(), "");
    assert_eq!(tray.status(), ItemStatus::Active);
    assert_eq!(TITLE, "Agent sessions");
    let menu = tray.menu();
    assert_eq!(labels(&menu), vec!["No agent sessions", "---", "Clear finished", "Quit"]);
    match &menu[0] {
        MenuEntry::Item { enabled, action, icon_name, .. } => {
            assert!(!enabled);
            assert_eq!(*action, MenuAction::Nothing);
            assert_eq!(icon_name, "");
        }
        MenuEntry::Separator => panic!("expected an item"),
    }
    match &menu[2] {
        MenuEntry::Item { enabled, action, icon_name, .. } => {
            assert!(enabled);
            assert_eq!(*action, MenuAction::ClearFinished);
            assert_eq!(icon_name, "edit-clear-history");
        }
        MenuEntry::Separator => panic!("expected an item"),
    }
}

#[test]
fn attention_is_reserved_for_a_blocked_session() {
    let mut state = TrayState::default();
    state.apply(event(EventKind::StopFailure, "a"));
    let tray = AgentTray::new(state, IconSet::from_settings(None, None));
    assert_eq!(tray.status(), ItemStatus::Active);
    assert_eq!(tray.overlay_icon_name(), "dialog-error");

    let mut state = TrayState::default();
    state.apply(event(EventKind::StopFailure, "a"));
    state.apply(event(EventKind::PermissionRequest, "b"));
    let tray = AgentTray::new(state, IconSet::from_settings(None, None));
    assert_eq!(tray.status(), ItemStatus::NeedsAttention);
    assert_eq!(tray.overlay_icon_name(), "dialog-question");
}

#[test]
fn the_menu_lists_sessions_and_clear_finished_drops_the_done_ones() {
    let mut state = TrayState::default();
    state.apply(event(EventKind::Stop, "a"));
    state.apply(event(EventKind::SessionStart, "b"));
    let mut tray = AgentTray::new(state, IconSet::from_settings(None, None));
    assert_eq!(
        labels(&tray.menu()),
        vec!["a — done", "b — running", "---", "Clear finished", "Quit"]
    );
    assert!(!tray.activate(MenuAction::ClearFinished));
    assert_eq!(labels(&tray.menu()), vec!["b — running", "---", "Clear finished", "Quit"]);
    assert!(!tray.activate(MenuAction::Nothing));
    assert!(tray.activate(MenuAction::Quit));
    assert_eq!(tray.state.sessions().len(), 1);
}

#[test]
fn the_demo_seeds_three_sessions() {
    let mut state = TrayState::default();
    seed_demo(&mut state);
    let projects: Vec<_> = state.sessions().iter().map(|s| s.project.clone()).collect();
    assert_eq!(projects, vec!["zeo", "zeo-systray", "bentoo"]);
    assert_eq!(state.aggregate(), SessionStatus::NeedsYou);
    assert_eq!(state.history().len(), 2);
    assert_eq!(state.history()[0].label, "Bump the ebuild");
    assert_eq!(state.summary(), "1 need you, 1 running, 1 in background");
}

#[test]
fn numbers_and_lists_render_as_format_does() {
    assert_eq!(decimal_string(0), "0");
    assert_eq!(decimal_string(7), "7");
    assert_eq!(decimal_string(120), "120");
    assert_eq!(decimal_string(u64::MAX), u64::MAX.to_string());
    assert_eq!(join(&vec![], ", "), "");
    assert_eq!(join(&vec!["a".to_string()], ", "), "a");
    assert_eq!(join(&vec!["a".to_string(), "b".to_string(), "c".to_string()], ", "), "a, b, c");
}

#[test]
fn events_reach_the_tray_through_apply() {
    let mut tray = AgentTray::new(TrayState::default(), IconSet::from_settings(None, None));
    assert!(tray.apply(event(EventKind::SessionStart, "a")).is_none());
    let n = tray.apply(event(EventKind::PermissionRequest, "a")).expect("notifies");
    assert!(n.critical);
    assert_eq!(tray.status(), ItemStatus::NeedsAttention);
    assert_eq!(labels(&tray.menu()), vec!["a — needs you", "---", "Clear finished", "Quit"]);
    assert_eq!(tray.icon_name(), "zeo-systray");
}
