//! The hook payload is JSON; here it is read into a `HookInput` the way the
//! hook reads it (unknown fields ignored, missing optional fields defaulted),
//! and the event is written out the way the hook puts it on the socket.

use serde_json::Value;
use zeo_systray::protocol::{Event, EventKind, HookBackgroundTask, HookInput};

fn text(v: &Value, key: &str) -> Option<String> {
    v.get(key).and_then(Value::as_str).map(str::to_owned)
}

fn hook_input(raw: &str) -> Result<HookInput, String> {
    let v: Value = serde_json::from_str(raw).map_err(|e| e.to_string())?;
    let hook_event_name = text(&v, "hook_event_name").ok_or("missing hook_event_name")?;
    let session_id = text(&v, "session_id").ok_or("missing session_id")?;
    let background_tasks = v
        .get("background_tasks")
        .and_then(Value::as_array)
        .map(|tasks| {
            tasks
                .iter()
                .map(|task| HookBackgroundTask {
                    kind: text(task, "type").unwrap_or_default(),
                    status: text(task, "status").unwrap_or_default(),
                })
                .collect()
        })
        .unwrap_or_default();
    Ok(HookInput {
        hook_event_name,
        session_id,
        cwd: text(&v, "cwd").unwrap_or_default(),
        session_title: text(&v, "session_title"),
        agent_type: text(&v, "agent_type"),
        message: text(&v, "message"),
        background_tasks,
    })
}

fn optional(value: &Option<String>) -> Value {
    match value {
        Some(s) => Value::String(s.clone()),
        None => Value::Null,
    }
}

fn wire(event: &Event) -> String {
    let mut object = serde_json::Map::new();
    object.insert("kind".into(), Value::String(format!("{:?}", event.kind)));
    object.insert("session_id".into(), Value::String(event.session_id.clone()));
    object.insert("cwd".into(), Value::String(event.cwd.clone()));
    object.insert("project".into(), Value::String(event.project.clone()));
    object.insert("title".into(), optional(&event.title));
    object.insert("agent_type".into(), optional(&event.agent_type));
    object.insert("message".into(), optional(&event.message));
    let background = event
        .background
        .iter()
        .map(|task| {
            let mut t = serde_json::Map::new();
            t.insert("kind".into(), Value::String(task.kind.clone()));
            t.insert("status".into(), Value::String(task.status.clone()));
            Value::Object(t)
        })
        .collect();
    object.insert("background".into(), Value::Array(background));
    serde_json::to_string(&Value::Object(object)).expect("event serialises")
}

/// The privacy boundary, as a regression test: the serialised datagram must
/// not contain `last_assistant_message`, a task's `command` or the
/// transcript path.
#[test]
fn secrets_in_the_hook_payload_never_reach_the_socket() {
    let raw = r#"{
        "hook_event_name": "Stop",
        "session_id": "s1",
        "cwd": "/home/user/project",
        "transcript_path": "/home/user/.agent/projects/x.jsonl",
        "last_assistant_message": "TOKEN-sk-ant-do-not-leak",
        "background_tasks": [
            { "id": "t1", "type": "shell", "status": "running",
              "command": "curl -H 'Authorization: Bearer LEAKME' https://x" }
        ]
    }"#;

    let input = hook_input(raw).expect("payload parses");
    let event = input.into_event().expect("Stop is forwarded");
    let wire = wire(&event);

    assert!(!wire.contains("TOKEN-sk-ant-do-not-leak"));
    assert!(!wire.contains("LEAKME"));
    assert!(!wire.contains("curl"));
    assert!(!wire.contains("transcript_path"));
    // What it *does* carry: enough to name the session and count the work.
    assert!(wire.contains("/home/user/project"));
    assert_eq!(event.project, "project");
    assert_eq!(event.background.len(), 1);
    assert_eq!(event.background[0].kind, "shell");
}

/// Display text is allowed through for Notification only.
#[test]
fn display_text_crosses_only_for_notification() {
    let with_message = |hook: &str| {
        let raw = format!(
            r#"{{"hook_event_name":"{hook}","session_id":"s","cwd":"/tmp/p","message":"hello"}}"#
        );
        hook_input(&raw)
            .expect("parses")
            .into_event()
            .expect("forwarded")
            .message
    };

    assert_eq!(with_message("Notification").as_deref(), Some("hello"));
    assert_eq!(with_message("Stop"), None);
    assert_eq!(with_message("PermissionRequest"), None);
}

/// Events we do not act on are dropped before the socket is touched.
#[test]
fn unknown_events_are_not_forwarded() {
    let raw = r#"{"hook_event_name":"PreToolUse","session_id":"s","cwd":"/tmp/p"}"#;
    let input = hook_input(raw).expect("parses");
    assert!(input.into_event().is_none());
}

/// An unknown field must never turn into a failed notification.
#[test]
fn unknown_fields_do_not_break_parsing() {
    let raw = r#"{"hook_event_name":"Stop","session_id":"s","cwd":"/tmp/p",
                  "some_field_invented_next_year": {"nested": true}}"#;
    let input = hook_input(raw).expect("parses");
    assert!(input.into_event().is_some());
}

// ---- further cases ----

fn payload(name: &str, cwd: &str) -> HookInput {
    HookInput {
        hook_event_name: name.into(),
        session_id: "s".into(),
        cwd: cwd.into(),
        session_title: Some("Title".into()),
        agent_type: Some("explorer".into()),
        message: Some("hello".into()),
        background_tasks: vec![HookBackgroundTask {
            kind: "subagent".into(),
            status: "running".into(),
        }],
    }
}

#[test]
fn every_forwarded_hook_name_maps_to_its_kind() {
    let names = [
        ("SessionStart", EventKind::SessionStart),
        ("Stop", EventKind::Stop),
        ("StopFailure", EventKind::StopFailure),
        ("PermissionRequest", EventKind::PermissionRequest),
        ("Notification", EventKind::Notification),
        ("SubagentStop", EventKind::SubagentStop),
        ("SessionEnd", EventKind::SessionEnd),
    ];
    for (name, kind) in names {
        assert_eq!(EventKind::from_hook_name(name), Some(kind));
    }
    assert_eq!(EventKind::from_hook_name("stop"), None);
    assert_eq!(EventKind::from_hook_name(""), None);
    assert_eq!(EventKind::from_hook_name("PreToolUse"), None);
}

#[test]
fn the_event_carries_identifiers_title_and_task_labels() {
    let event = payload("SubagentStop", "/home/user/zeo/").into_event().expect("forwarded");
    assert_eq!(event.kind, EventKind::SubagentStop);
    assert_eq!(event.session_id, "s");
    assert_eq!(event.cwd, "/home/user/zeo/");
    assert_eq!(event.project, "zeo");
    assert_eq!(event.title.as_deref(), Some("Title"));
    assert_eq!(event.agent_type.as_deref(), Some("explorer"));
    assert_eq!(event.message, None);
    assert_eq!(event.background[0].status, "running");
}

#[test]
fn a_cwd_without_a_final_component_is_its_own_project() {
    assert_eq!(payload("Stop", "/").into_event().expect("forwarded").project, "/");
    assert_eq!(payload("Stop", "").into_event().expect("forwarded").project, "");
    assert_eq!(payload("Stop", "/srv/..").into_event().expect("forwarded").project, "/srv/..");
}

#[test]
fn narrowing_takes_the_final_component_as_given() {
    let event = payload("Notification", "/a/b")
        .narrow(Some("label".into()))
        .expect("forwarded");
    assert_eq!(event.project, "label");
    assert_eq!(event.message.as_deref(), Some("hello"));
    let event = payload("Notification", "/a/b").narrow(None).expect("forwarded");
    assert_eq!(event.project, "/a/b");
    assert!(payload("PostToolUse", "/a/b").narrow(None).is_none());
}
