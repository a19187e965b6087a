//! What travels between the hook and the daemon.
//!
//! [`HookInput`] is what the agent hands the hook on stdin, narrowed to the
//! fields this program reads; [`Event`] is the much smaller thing put on the
//! socket. The gap between them is the privacy boundary of the program: a hook
//! payload can carry `last_assistant_message`, tool inputs and transcript
//! paths, and none of those has a field here. Only identifiers, the working
//! directory and a project label, the session title, the subagent type,
//! background-task labels and — for `Notification` alone — the text the agent
//! wrote for display cross the socket.
//! [`HookInput::into_event`] states exactly which field of the event comes from
//! which field of the payload.

use vstd::prelude::*;

use crate::text::same_text;

verus! {

/// Socket file name under `$XDG_RUNTIME_DIR`.
pub const SOCKET_NAME: &'static str = "zeo-systray.sock";

/// The hook events the daemon acts on. Anything else the agent emits is
/// dropped by the hook before it reaches the socket.
#[derive(Debug, Clone, Copy, PartialEq, Eq, Structural)]
pub enum EventKind {
    SessionStart,
    Stop,
    StopFailure,
    PermissionRequest,
    Notification,
    SubagentStop,
    SessionEnd,
}

/// The event kind a hook's `hook_event_name` stands for, if it is one we forward.
pub open spec fn kind_named(name: Seq<char>) -> Option<EventKind> {
    if name == "SessionStart"@ {
        Some(EventKind::SessionStart)
    } else if name == "Stop"@ {
        Some(EventKind::Stop)
    } else if name == "StopFailure"@ {
        Some(EventKind::StopFailure)
    } else if name == "PermissionRequest"@ {
        Some(EventKind::PermissionRequest)
    } else if name == "Notification"@ {
        Some(EventKind::Notification)
    } else if name == "SubagentStop"@ {
        Some(EventKind::SubagentStop)
    } else if name == "SessionEnd"@ {
        Some(EventKind::SessionEnd)
    } else {
        None
    }
}

impl EventKind {
    /// Maps the hook's `hook_event_name` onto the subset we forward.
    pub fn from_hook_name(name: &str) -> (r: Option<Self>)
        ensures
            r == kind_named(name@),
    {
        if same_text(name, "SessionStart") {
            Some(EventKind::SessionStart)
        } else if same_text(name, "Stop") {
            Some(EventKind::Stop)
        } else if same_text(name, "StopFailure") {
            Some(EventKind::StopFailure)
        } else if same_text(name, "PermissionRequest") {
            Some(EventKind::PermissionRequest)
        } else if same_text(name, "Notification") {
            Some(EventKind::Notification)
        } else if same_text(name, "SubagentStop") {
            Some(EventKind::SubagentStop)
        } else if same_text(name, "SessionEnd") {
            Some(EventKind::SessionEnd)
        } else {
            None
        }
    }
}

/// A background task still in flight when the turn ended. Only its label and
/// status are kept, never its command line.
#[derive(Debug, Clone)]
pub struct BackgroundTask {
    pub kind: String,
    pub status: String,
}

/// The mathematical value of a background task (also that of a
/// [`HookBackgroundTask`]).
pub struct TaskView {
    pub kind: Seq<char>,
    pub status: Seq<char>,
}

impl View for BackgroundTask {
    type V = TaskView;

    open spec fn view(&self) -> TaskView {
        TaskView { kind: self.kind@, status: self.status@ }
    }
}

impl DeepView for BackgroundTask {
    type V = TaskView;

    open spec fn deep_view(&self) -> TaskView {
        self@
    }
}

/// One datagram on the socket.
#[derive(Debug, Clone)]
pub struct Event {
    pub kind: EventKind,
    pub session_id: String,
    /// Working directory: how the user recognises a session. A path, not content.
    pub cwd: String,
    /// Last path component of `cwd`, precomputed by the hook.
    pub project: String,
    /// Session title when the agent supplies one.
    pub title: Option<String>,
    /// Subagent type, when the payload carries one.
    pub agent_type: Option<String>,
    /// Text the agent wrote for display; `Notification` only.
    pub message: Option<String>,
    /// Background work still running when the turn ended.
    pub background: Vec<BackgroundTask>,
}

/// The mathematical value of an [`Event`].
pub struct EventView {
    pub kind: EventKind,
    pub session_id: Seq<char>,
    pub cwd: Seq<char>,
    pub project: Seq<char>,
    pub title: Option<Seq<char>>,
    pub agent_type: Option<Seq<char>>,
    pub message: Option<Seq<char>>,
    pub background: Seq<TaskView>,
}

impl View for Event {
    type V = EventView;

    open spec fn view(&self) -> EventView {
        EventView {
            kind: self.kind,
            session_id: self.session_id@,
            cwd: self.cwd@,
            project: self.project@,
            title: self.title.deep_view(),
            agent_type: self.agent_type.deep_view(),
            message: self.message.deep_view(),
            background: self.background.deep_view(),
        }
    }
}

impl DeepView for Event {
    type V = EventView;

    open spec fn deep_view(&self) -> EventView {
        self@
    }
}

/// The hook payload, narrowed to the fields this program reads. Every other
/// field of the payload is dropped when it is read, so none can reach the
/// socket.
#[derive(Debug)]
pub struct HookInput {
    pub hook_event_name: String,
    pub session_id: String,
    pub cwd: String,
    pub session_title: Option<String>,
    pub agent_type: Option<String>,
    pub message: Option<String>,
    pub background_tasks: Vec<HookBackgroundTask>,
}

/// A background task as the hook payload describes it (its `type` and `status`).
#[derive(Debug)]
pub struct HookBackgroundTask {
    pub kind: String,
    pub status: String,
}

impl View for HookBackgroundTask {
    type V = TaskView;

    open spec fn view(&self) -> TaskView {
        TaskView { kind: self.kind@, status: self.status@ }
    }
}

impl DeepView for HookBackgroundTask {
    type V = TaskView;

    open spec fn deep_view(&self) -> TaskView {
        self@
    }
}

/// The mathematical value of a [`HookInput`].
pub struct HookInputView {
    pub hook_event_name: Seq<char>,
    pub session_id: Seq<char>,
    pub cwd: Seq<char>,
    pub session_title: Option<Seq<char>>,
    pub agent_type: Option<Seq<char>>,
    pub message: Option<Seq<char>>,
    pub background_tasks: Seq<TaskView>,
}

impl View for HookInput {
    type V = HookInputView;

    open spec fn view(&self) -> HookInputView {
        HookInputView {
            hook_event_name: self.hook_event_name@,
            session_id: self.session_id@,
            cwd: self.cwd@,
            session_title: self.session_title.deep_view(),
            agent_type: self.agent_type.deep_view(),
            message: self.message.deep_view(),
            background_tasks: self.background_tasks.deep_view(),
        }
    }
}

/// The final component of `path` as `std::path::Path::file_name` yields it
/// (`None` for a path ending in `..`, for `/`, and for the empty path).
pub uninterp spec fn final_component(path: Seq<char>) -> Option<Seq<char>>;

/// The final component of a path.
///
/// Trusted: calls `std::path::Path::file_name` on `path` and turns the
/// component into a `String` with `to_string_lossy`, which leaves it unchanged
/// since it is a part of a `str`. The contract names the result and says
/// nothing more of it.
#[verifier::external_body]
pub(crate) fn file_name_of(path: &str) -> (r: Option<String>)
    ensures
        r.deep_view() == final_component(path@),
{
    match std::path::Path::new(path).file_name() {
        Some(name) => Some(name.to_string_lossy().into_owned()),
        None => None,
    }
}

/// The project label for a working directory, given its final component.
pub open spec fn project_label(cwd: Seq<char>, file_name: Option<Seq<char>>) -> Seq<char> {
    match file_name {
        Some(name) => name,
        None => cwd,
    }
}

/// The event a payload narrows to, given the final component of its `cwd`:
/// `None` for a hook event that is not forwarded; otherwise identifiers, the
/// working directory, the project label, the title, the agent type, the task
/// labels and, for `Notification` only, the display message.
pub open spec fn narrowed(h: HookInputView, file_name: Option<Seq<char>>) -> Option<EventView> {
    match kind_named(h.hook_event_name) {
        None => None,
        Some(kind) => Some(
            EventView {
                kind,
                session_id: h.session_id,
                cwd: h.cwd,
                project: project_label(h.cwd, file_name),
                title: h.session_title,
                agent_type: h.agent_type,
                message: if kind == EventKind::Notification {
                    h.message
                } else {
                    None
                },
                background: h.background_tasks,
            },
        ),
    }
}

/// The event a payload narrows to.
pub open spec fn forwarded(h: HookInputView) -> Option<EventView> {
    narrowed(h, final_component(h.cwd))
}

impl HookInput {
    /// Narrows a hook payload into the event we are willing to forward.
    ///
    /// Returns `None` for events we do not act on, so the caller can exit
    /// without touching the socket at all.
    pub fn into_event(self) -> (r: Option<Event>)
        ensures
            r.deep_view() == forwarded(self@),
    {
        let file_name = file_name_of(self.cwd.as_str());
        self.narrow(file_name)
    }

    /// [`HookInput::into_event`] with the final component of `cwd` given:
    /// the project label is `file_name`, or the whole `cwd` when it has none.
    pub fn narrow(self, file_name: Option<String>) -> (r: Option<Event>)
        ensures
            r.deep_view() == narrowed(self@, file_name.deep_view()),
    {
        let kind = match EventKind::from_hook_name(self.hook_event_name.as_str()) {
            Some(kind) => kind,
            None => return None,
        };
        let project = match file_name {
            Some(name) => name,
            None => self.cwd.clone(),
        };
        let message = match kind {
            EventKind::Notification => self.message,
            _ => None,
        };
        let mut background: Vec<BackgroundTask> = Vec::new();
        let n = self.background_tasks.len();
        let mut i: usize = 0;
        while i < n
            invariant
                n == self.background_tasks.len(),
                i <= n,
                background.deep_view() =~= self.background_tasks.deep_view().take(i as int),
            decreases n - i,
        {
            let task = &self.background_tasks[i];
            let ghost before = background.deep_view();
            background.push(BackgroundTask { kind: task.kind.clone(), status: task.status.clone() });
            proof {
                assert(background.deep_view() =~= before.push(self.background_tasks[i as int]@));
                assert(self.background_tasks.deep_view().take(i + 1) =~= self.background_tasks.deep_view().take(i as int).push(self.background_tasks[i as int]@));
            }
            i = i + 1;
        }
        proof {
            assert(self.background_tasks.deep_view().take(n as int) =~= self.background_tasks.deep_view());
        }
        Some(
            Event {
                kind,
                session_id: self.session_id,
                cwd: self.cwd,
                project,
                title: self.session_title,
                agent_type: self.agent_type,
                message,
                background,
            },
        )
    }
}

/// Display text crosses the socket for a `Notification` only: every other
/// forwarded event carries no message, whatever the payload held.
pub proof fn law_message_only_for_notification(h: HookInputView, file_name: Option<Seq<char>>)
    ensures
        narrowed(h, file_name) matches Some(e) ==> (e.message is Some ==> e.kind
            == EventKind::Notification),
        narrowed(h, file_name) matches Some(e) ==> (e.kind == EventKind::Notification ==> e.message
            == h.message),
{
}

/// A payload is forwarded exactly when its hook event is one of the seven we
/// act on; anything else is dropped before the socket is touched.
pub proof fn law_only_known_events_are_forwarded(h: HookInputView, file_name: Option<Seq<char>>)
    ensures
        narrowed(h, file_name) is Some <==> kind_named(h.hook_event_name) is Some,
{
}


/// The hook names forwarded, each to its own kind, and nothing else: any
/// other name is dropped.
pub proof fn law_hook_names(name: Seq<char>)
    ensures
        kind_named("SessionStart"@) == Some(EventKind::SessionStart),
        kind_named("Stop"@) == Some(EventKind::Stop),
        kind_named("StopFailure"@) == Some(EventKind::StopFailure),
        kind_named("PermissionRequest"@) == Some(EventKind::PermissionRequest),
        kind_named("Notification"@) == Some(EventKind::Notification),
        kind_named("SubagentStop"@) == Some(EventKind::SubagentStop),
        kind_named("SessionEnd"@) == Some(EventKind::SessionEnd),
        name != "SessionStart"@ && name != "Stop"@ && name != "StopFailure"@ && name
            != "PermissionRequest"@ && name != "Notification"@ && name != "SubagentStop"@ && name
            != "SessionEnd"@ ==> kind_named(name) is None,
{
    reveal_strlit("SessionStart");
    reveal_strlit("Stop");
    reveal_strlit("StopFailure");
    reveal_strlit("PermissionRequest");
    reveal_strlit("Notification");
    reveal_strlit("SubagentStop");
    reveal_strlit("SessionEnd");
    assert("SessionStart"@.len() == 12);
    assert("Stop"@.len() == 4);
    assert("StopFailure"@.len() == 11);
    assert("PermissionRequest"@.len() == 17);
    assert("Notification"@.len() == 12);
    assert("SubagentStop"@.len() == 12);
    assert("SessionEnd"@.len() == 10);
    assert("SessionStart"@[1] != "SubagentStop"@[1]);
    assert("Notification"@[0] != "SubagentStop"@[0]);
    assert("Notification"@[0] != "SessionStart"@[0]);
}

/// A forwarded event carries the payload's identifiers, working directory,
/// title, subagent type and every background task, the same tasks in the
/// same order; its project is the final component of the working directory,
/// or the whole directory when it has none.
pub proof fn law_forwarded_fields(h: HookInputView, file_name: Option<Seq<char>>)
    ensures
        narrowed(h, file_name) matches Some(e) ==> {
            &&& e.session_id == h.session_id
            &&& e.cwd == h.cwd
            &&& e.title == h.session_title
            &&& e.agent_type == h.agent_type
            &&& e.background.len() == h.background_tasks.len()
            &&& forall|i: int|
                0 <= i < e.background.len() ==> #[trigger] e.background[i]
                    == h.background_tasks[i]
            &&& file_name matches Some(name) ==> e.project == name
            &&& file_name is None ==> e.project == h.cwd
            &&& Some(e.kind) == kind_named(h.hook_event_name)
        },
{
}

} // verus!
