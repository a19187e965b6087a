//! What the daemon knows, and how many sessions collapse into one icon.
//!
//! Nothing here is persisted: this is a view of the sessions that are alive,
//! not a store. Sessions keep the order in which they first appeared, so the
//! menu does not reshuffle on every update; each session id occurs at most
//! once. The notification history is kept most recent first and capped at
//! [`HISTORY_LIMIT`] entries.

use vstd::prelude::*;

use crate::protocol::{Event, EventKind, EventView, TaskView};
use crate::text::{decimal, decimal_string, join, joined, same_text};

verus! {

/// Where a single session currently stands. The order of the variants is the
/// order of severity: `Done` is the least, `NeedsYou` the worst.
#[derive(Debug, Clone, Copy, PartialEq, Eq, Structural, PartialOrd, Ord, Hash)]
pub enum SessionStatus {
    /// Finished, nothing left running.
    Done,
    /// Working.
    Running,
    /// Finished the turn, but left background work behind.
    Background,
    /// Ended with an error.
    Failed,
    /// Blocked on the user: a permission request, or the agent asking for input.
    NeedsYou,
}

/// The rank of a status in the order of severity (the order of the variants).
pub open spec fn severity(s: SessionStatus) -> nat {
    match s {
        SessionStatus::Done => 0,
        SessionStatus::Running => 1,
        SessionStatus::Background => 2,
        SessionStatus::Failed => 3,
        SessionStatus::NeedsYou => 4,
    }
}

/// Freedesktop icon name of a status.
pub open spec fn status_icon(s: SessionStatus) -> Seq<char> {
    match s {
        SessionStatus::Done => "user-idle"@,
        SessionStatus::Running => "system-run"@,
        SessionStatus::Background => "system-run"@,
        SessionStatus::Failed => "dialog-error"@,
        SessionStatus::NeedsYou => "dialog-question"@,
    }
}

/// Human-readable name of a status.
pub open spec fn status_label(s: SessionStatus) -> Seq<char> {
    match s {
        SessionStatus::Done => "done"@,
        SessionStatus::Running => "running"@,
        SessionStatus::Background => "background work"@,
        SessionStatus::Failed => "failed"@,
        SessionStatus::NeedsYou => "needs you"@,
    }
}

impl SessionStatus {
    /// Rank in the order of severity.
    pub fn severity(self) -> (r: u8)
        ensures
            r == severity(self),
    {
        match self {
            SessionStatus::Done => 0,
            SessionStatus::Running => 1,
            SessionStatus::Background => 2,
            SessionStatus::Failed => 3,
            SessionStatus::NeedsYou => 4,
        }
    }

    /// Freedesktop icon name for this status, so the icon follows the theme.
    pub fn icon_name(self) -> (r: &'static str)
        ensures
            r@ == status_icon(self),
    {
        match self {
            SessionStatus::Done => "user-idle",
            SessionStatus::Running => "system-run",
            SessionStatus::Background => "system-run",
            SessionStatus::Failed => "dialog-error",
            SessionStatus::NeedsYou => "dialog-question",
        }
    }

    /// What the status reads as in a menu line.
    pub fn label(self) -> (r: &'static str)
        ensures
            r@ == status_label(self),
    {
        match self {
            SessionStatus::Done => "done",
            SessionStatus::Running => "running",
            SessionStatus::Background => "background work",
            SessionStatus::Failed => "failed",
            SessionStatus::NeedsYou => "needs you",
        }
    }
}

/// The session title when there is one, else the project label.
pub open spec fn head_of(title: Option<Seq<char>>, project: Seq<char>) -> Seq<char> {
    match title {
        Some(t) => t,
        None => project,
    }
}

fn head_text<'a>(title: &'a Option<String>, project: &'a String) -> (r: &'a str)
    ensures
        r@ == head_of(title.deep_view(), project@),
{
    match title {
        Some(t) => t.as_str(),
        None => project.as_str(),
    }
}

#[derive(Debug, Clone)]
pub struct Session {
    pub session_id: String,
    pub project: String,
    /// Passed to the opener when the row is clicked.
    pub cwd: String,
    pub title: Option<String>,
    pub status: SessionStatus,
    /// Labels of background tasks still in flight, e.g. `shell`, `subagent`.
    pub background: Vec<String>,
}

/// The mathematical value of a [`Session`].
pub struct SessionView {
    pub session_id: Seq<char>,
    pub project: Seq<char>,
    pub cwd: Seq<char>,
    pub title: Option<Seq<char>>,
    pub status: SessionStatus,
    pub background: Seq<Seq<char>>,
}

impl View for Session {
    type V = SessionView;

    open spec fn view(&self) -> SessionView {
        SessionView {
            session_id: self.session_id@,
            project: self.project@,
            cwd: self.cwd@,
            title: self.title.deep_view(),
            status: self.status,
            background: self.background.deep_view(),
        }
    }
}

impl DeepView for Session {
    type V = SessionView;

    open spec fn deep_view(&self) -> SessionView {
        self@
    }
}

/// One menu line for a session: `head — status`, followed by
/// ` (label, label)` when background tasks are in flight.
pub open spec fn session_line(s: SessionView) -> Seq<char> {
    let base = head_of(s.title, s.project) + " — "@ + status_label(s.status);
    if s.background.len() == 0 {
        base
    } else {
        base + " ("@ + joined(s.background, ", "@) + ")"@
    }
}

impl Session {
    /// One menu line: what the user reads to tell sessions apart.
    pub fn menu_label(&self) -> (r: String)
        ensures
            r@ == session_line(self@),
    {
        let mut r = head_text(&self.title, &self.project).to_owned();
        r.append(" — ");
        r.append(self.status.label());
        if self.background.len() > 0 {
            r.append(" (");
            let tasks = join(&self.background, ", ");
            r.append(tasks.as_str());
            r.append(")");
        }
        r
    }
}

/// A point in time: its distance from the Unix epoch in whole seconds and
/// nanoseconds, and on which side of the epoch it lies.
#[derive(Debug, Clone, Copy, PartialEq, Eq, Structural)]
pub struct Timestamp {
    pub before_epoch: bool,
    pub secs: u64,
    pub nanos: u32,
}

/// Nanoseconds since the epoch (negative before it).
pub open spec fn instant(t: Timestamp) -> int {
    if t.before_epoch {
        -(t.secs * 1_000_000_000 + t.nanos)
    } else {
        t.secs * 1_000_000_000 + t.nanos
    }
}

/// Whole seconds from `earlier` to `now`, or 0 when `now` is not after it.
pub open spec fn elapsed_secs(now: Timestamp, earlier: Timestamp) -> int {
    if instant(now) >= instant(earlier) {
        (instant(now) - instant(earlier)) / 1_000_000_000
    } else {
        0
    }
}

/// The age of a history line: `just now` under a minute, then whole minutes
/// under an hour, then whole hours.
pub open spec fn age_text(elapsed: int) -> Seq<char> {
    if elapsed < 60 {
        "just now"@
    } else if elapsed < 3_600 {
        decimal((elapsed / 60) as nat) + "m ago"@
    } else {
        decimal((elapsed / 3_600) as nat) + "h ago"@
    }
}

/// Current time.
///
/// Trusted: calls `std::time::SystemTime::now` and measures it against
/// `UNIX_EPOCH` with `duration_since`; when the clock is before the epoch,
/// the distance is that of the error (`SystemTimeError::duration`). The
/// contract claims only that the nanoseconds are below one second, as
/// `Duration::subsec_nanos` documents.
#[verifier::external_body]
fn current_time() -> (t: Timestamp)
    ensures
        t.nanos < 1_000_000_000,
{
    match std::time::SystemTime::now().duration_since(std::time::UNIX_EPOCH) {
        Ok(d) => Timestamp { before_epoch: false, secs: d.as_secs(), nanos: d.subsec_nanos() },
        Err(e) => Timestamp {
            before_epoch: true,
            secs: e.duration().as_secs(),
            nanos: e.duration().subsec_nanos(),
        },
    }
}

fn instant_of(t: Timestamp) -> (r: i128)
    ensures
        r == instant(t),
        -0x10_0000_0000_0000_0000_0000_0000 < r < 0x10_0000_0000_0000_0000_0000_0000,
{
    let magnitude: i128 = t.secs as i128 * 1_000_000_000 + t.nanos as i128;
    if t.before_epoch {
        -magnitude
    } else {
        magnitude
    }
}

fn elapsed_between(now: Timestamp, earlier: Timestamp) -> (r: u128)
    ensures
        r == elapsed_secs(now, earlier),
        r < 0x1_0000_0000_0000_0000_0000,
{
    let a = instant_of(earlier);
    let b = instant_of(now);
    if b >= a {
        ((b - a) as u128) / 1_000_000_000
    } else {
        0
    }
}

/// One line in the notification history.
#[derive(Debug, Clone)]
pub struct HistoryEntry {
    pub at: Timestamp,
    pub label: String,
    pub summary: String,
    pub session_id: String,
    pub cwd: String,
}

/// The mathematical value of a [`HistoryEntry`].
pub struct HistoryView {
    pub at: Timestamp,
    pub label: Seq<char>,
    pub summary: Seq<char>,
    pub session_id: Seq<char>,
    pub cwd: Seq<char>,
}

impl View for HistoryEntry {
    type V = HistoryView;

    open spec fn view(&self) -> HistoryView {
        HistoryView {
            at: self.at,
            label: self.label@,
            summary: self.summary@,
            session_id: self.session_id@,
            cwd: self.cwd@,
        }
    }
}

impl DeepView for HistoryEntry {
    type V = HistoryView;

    open spec fn deep_view(&self) -> HistoryView {
        self@
    }
}

/// `label — summary (age)`, the age taken at `now`.
pub open spec fn history_line(h: HistoryView, now: Timestamp) -> Seq<char> {
    h.label + " — "@ + h.summary + " ("@ + age_text(elapsed_secs(now, h.at)) + ")"@
}

impl HistoryEntry {
    /// `project — what happened (3m ago)`: relative rather than a clock time.
    pub fn menu_label(&self, now: Timestamp) -> (r: String)
        ensures
            r@ == history_line(self@, now),
    {
        let elapsed = elapsed_between(now, self.at);
        let ago = if elapsed < 60 {
            "just now".to_owned()
        } else if elapsed < 3_600 {
            let mut s = decimal_string((elapsed / 60) as u64);
            s.append("m ago");
            s
        } else {
            let mut s = decimal_string((elapsed / 3_600) as u64);
            s.append("h ago");
            s
        };
        let mut r = self.label.clone();
        r.append(" — ");
        r.append(self.summary.as_str());
        r.append(" (");
        r.append(ago.as_str());
        r.append(")");
        r
    }
}


/// How many events the history keeps: enough to cover a working stretch,
/// short enough that the submenu stays readable without scrolling.
pub const HISTORY_LIMIT: usize = 20;

/// A desktop notification to raise.
pub struct Notification {
    pub summary: String,
    pub body: String,
    pub icon: &'static str,
    /// Critical notifications are not dismissed on a timer by the desktop;
    /// reserved for the cases where the agent is stopped until a person acts.
    pub critical: bool,
    /// The same event, phrased for a one-line history row.
    pub history_summary: String,
    pub session_id: String,
    pub cwd: String,
}

/// The mathematical value of a [`Notification`].
pub struct NotificationView {
    pub summary: Seq<char>,
    pub body: Seq<char>,
    pub icon: Seq<char>,
    pub critical: bool,
    pub history_summary: Seq<char>,
    pub session_id: Seq<char>,
    pub cwd: Seq<char>,
}

impl View for Notification {
    type V = NotificationView;

    open spec fn view(&self) -> NotificationView {
        NotificationView {
            summary: self.summary@,
            body: self.body@,
            icon: self.icon@,
            critical: self.critical,
            history_summary: self.history_summary@,
            session_id: self.session_id@,
            cwd: self.cwd@,
        }
    }
}

impl DeepView for Notification {
    type V = NotificationView;

    open spec fn deep_view(&self) -> NotificationView {
        self@
    }
}

/// A notification about `e`, whose session now stands at `status`.
pub open spec fn notice(
    e: EventView,
    status: SessionStatus,
    summary: Seq<char>,
    body: Seq<char>,
    history_summary: Seq<char>,
    critical: bool,
) -> NotificationView {
    NotificationView {
        summary,
        body,
        icon: status_icon(status),
        critical,
        history_summary,
        session_id: e.session_id,
        cwd: e.cwd,
    }
}

/// Which transitions deserve a desktop notification, and what it says. A
/// session starting, a subagent finishing and a session ending raise none.
/// Only a permission request and a notification are critical.
pub open spec fn notice_for(e: EventView, status: SessionStatus) -> Option<NotificationView> {
    let label = head_of(e.title, e.project);
    match e.kind {
        EventKind::Stop => if status == SessionStatus::Background {
            Some(
                notice(
                    e,
                    status,
                    label + ": turn finished"@,
                    "Background work is still running."@,
                    "finished, background work running"@,
                    false,
                ),
            )
        } else {
            Some(
                notice(
                    e,
                    status,
                    label + ": done"@,
                    "The agent finished its turn."@,
                    "done"@,
                    false,
                ),
            )
        },
        EventKind::StopFailure => Some(
            notice(
                e,
                status,
                label + ": failed"@,
                "The turn ended with an error."@,
                "failed"@,
                false,
            ),
        ),
        EventKind::PermissionRequest => Some(
            notice(
                e,
                status,
                label + ": permission needed"@,
                "The agent is waiting for your decision."@,
                "needs a permission decision"@,
                true,
            ),
        ),
        EventKind::Notification => Some(
            notice(
                e,
                status,
                label,
                match e.message {
                    Some(m) => m,
                    None => "The agent needs your attention."@,
                },
                "needs your attention"@,
                true,
            ),
        ),
        _ => None,
    }
}

fn copy_text(o: &Option<String>) -> (r: Option<String>)
    ensures
        r.deep_view() == o.deep_view(),
{
    match o {
        Some(s) => Some(s.clone()),
        None => None,
    }
}

fn joined_text(a: &str, b: &str) -> (r: String)
    ensures
        r@ == a@ + b@,
{
    let mut r = a.to_owned();
    r.append(b);
    r
}

fn make_notification(
    event: &Event,
    status: SessionStatus,
    summary: String,
    body: &str,
    history_summary: &str,
    critical: bool,
) -> (r: Notification)
    ensures
        r@ == notice(event@, status, summary@, body@, history_summary@, critical),
{
    Notification {
        summary,
        body: body.to_owned(),
        icon: status.icon_name(),
        critical,
        history_summary: history_summary.to_owned(),
        session_id: event.session_id.clone(),
        cwd: event.cwd.clone(),
    }
}

/// Decides whether a transition deserves a desktop notification.
///
/// Deliberately quiet: notifying on every event is how a tray becomes the
/// thing people mute.
pub fn notification_for(event: &Event, status: SessionStatus) -> (r: Option<Notification>)
    ensures
        r.deep_view() == notice_for(event@, status),
{
    let label = head_text(&event.title, &event.project);
    match event.kind {
        EventKind::Stop => {
            if status == SessionStatus::Background {
                Some(
                    make_notification(
                        event,
                        status,
                        joined_text(label, ": turn finished"),
                        "Background work is still running.",
                        "finished, background work running",
                        false,
                    ),
                )
            } else {
                Some(
                    make_notification(
                        event,
                        status,
                        joined_text(label, ": done"),
                        "The agent finished its turn.",
                        "done",
                        false,
                    ),
                )
            }
        },
        EventKind::StopFailure => Some(
            make_notification(
                event,
                status,
                joined_text(label, ": failed"),
                "The turn ended with an error.",
                "failed",
                false,
            ),
        ),
        EventKind::PermissionRequest => Some(
            make_notification(
                event,
                status,
                joined_text(label, ": permission needed"),
                "The agent is waiting for your decision.",
                "needs a permission decision",
                true,
            ),
        ),
        EventKind::Notification => {
            let body = match &event.message {
                Some(m) => m.as_str(),
                None => "The agent needs your attention.",
            };
            Some(
                make_notification(
                    event,
                    status,
                    label.to_owned(),
                    body,
                    "needs your attention",
                    true,
                ),
            )
        },
        _ => None,
    }
}

/// What the daemon knows: the live sessions in the order they first appeared,
/// the notification history (most recent first) and whether popups are muted.
#[derive(Debug)]
pub struct TrayState {
    sessions: Vec<Session>,
    history: Vec<HistoryEntry>,
    /// Suppresses desktop notifications while leaving the icon and the
    /// history live.
    muted: bool,
}

/// The mathematical value of a [`TrayState`].
pub struct TrayModel {
    pub sessions: Seq<SessionView>,
    pub history: Seq<HistoryView>,
    pub muted: bool,
}

impl TrayState {
    /// The contents of the state.
    pub closed spec fn model(&self) -> TrayModel {
        TrayModel {
            sessions: self.sessions.deep_view(),
            history: self.history.deep_view(),
            muted: self.muted,
        }
    }

    /// The invariant of the state: each session id occurs once, and the
    /// history holds at most [`HISTORY_LIMIT`] entries.
    pub open spec fn wf(&self) -> bool {
        model_wf(self@)
    }

    #[verifier::type_invariant]
    spec fn keeps_invariant(&self) -> bool {
        model_wf(self.model())
    }
}

impl View for TrayState {
    type V = TrayModel;

    open spec fn view(&self) -> TrayModel {
        self.model()
    }
}

/// No session id occurs twice.
pub open spec fn distinct_ids(ss: Seq<SessionView>) -> bool {
    forall|i: int, j: int|
        #![trigger ss[i], ss[j]]
        0 <= i < ss.len() && 0 <= j < ss.len() && i != j ==> ss[i].session_id != ss[j].session_id
}

/// The invariant of a tray model.
pub open spec fn model_wf(m: TrayModel) -> bool {
    &&& distinct_ids(m.sessions)
    &&& m.history.len() <= HISTORY_LIMIT
}

/// The status a session takes on an event (other than `SessionEnd`, which
/// removes it). A subagent finishing does not mean the session did.
pub open spec fn status_after(kind: EventKind, has_background: bool) -> SessionStatus {
    match kind {
        EventKind::SessionStart => SessionStatus::Running,
        EventKind::Stop => if has_background {
            SessionStatus::Background
        } else {
            SessionStatus::Done
        },
        EventKind::StopFailure => SessionStatus::Failed,
        EventKind::PermissionRequest => SessionStatus::NeedsYou,
        EventKind::Notification => SessionStatus::NeedsYou,
        EventKind::SubagentStop => SessionStatus::Running,
        EventKind::SessionEnd => SessionStatus::Done,
    }
}

/// The session an event describes.
pub open spec fn session_for(e: EventView, status: SessionStatus) -> SessionView {
    SessionView {
        session_id: e.session_id,
        project: e.project,
        cwd: e.cwd,
        title: e.title,
        status,
        background: e.background.map_values(|t: TaskView| t.kind),
    }
}

/// Whether a session with this id is present.
pub open spec fn has_session(ss: Seq<SessionView>, id: Seq<char>) -> bool {
    exists|i: int| 0 <= i < ss.len() && #[trigger] ss[i].session_id == id
}

/// The position of the session with this id (meaningful when present).
pub open spec fn session_index(ss: Seq<SessionView>, id: Seq<char>) -> int {
    choose|i: int| 0 <= i < ss.len() && #[trigger] ss[i].session_id == id
}

/// `s` replaces the session with the same id, in place; a new id is appended.
pub open spec fn upserted(ss: Seq<SessionView>, s: SessionView) -> Seq<SessionView> {
    if has_session(ss, s.session_id) {
        ss.update(session_index(ss, s.session_id), s)
    } else {
        ss.push(s)
    }
}

/// The sessions other than the one with this id, in order.
pub open spec fn without_session(ss: Seq<SessionView>, id: Seq<char>) -> Seq<SessionView> {
    ss.filter(|s: SessionView| s.session_id != id)
}

/// The sessions that are still doing something, in order.
pub open spec fn live_sessions(ss: Seq<SessionView>) -> Seq<SessionView> {
    ss.filter(|s: SessionView| s.status != SessionStatus::Done)
}

/// The history line recorded for a notification about `e` at time `at`.
pub open spec fn entry_for(e: EventView, n: NotificationView, at: Timestamp) -> HistoryView {
    HistoryView {
        at,
        label: head_of(e.title, e.project),
        summary: n.history_summary,
        session_id: e.session_id,
        cwd: e.cwd,
    }
}

/// The first [`HISTORY_LIMIT`] entries.
pub open spec fn capped(h: Seq<HistoryView>) -> Seq<HistoryView> {
    if h.len() > HISTORY_LIMIT {
        h.take(HISTORY_LIMIT as int)
    } else {
        h
    }
}

/// The state after folding in event `e` at time `at`. `SessionEnd` removes
/// the session; every other event sets the session's status and details
/// (in place when it is known, appended otherwise) and, when it deserves a
/// notification, records a history line in front — muted or not.
pub open spec fn applied(m: TrayModel, e: EventView, at: Timestamp) -> TrayModel {
    if e.kind == EventKind::SessionEnd {
        TrayModel { sessions: without_session(m.sessions, e.session_id), history: m.history, muted: m.muted }
    } else {
        let status = status_after(e.kind, e.background.len() > 0);
        TrayModel {
            sessions: upserted(m.sessions, session_for(e, status)),
            history: match notice_for(e, status) {
                Some(n) => capped(seq![entry_for(e, n, at)] + m.history),
                None => m.history,
            },
            muted: m.muted,
        }
    }
}

/// The notification raised on event `e`: none while muted, none for
/// `SessionEnd`, otherwise the one the transition deserves.
pub open spec fn raised(m: TrayModel, e: EventView) -> Option<NotificationView> {
    if e.kind == EventKind::SessionEnd || m.muted {
        None
    } else {
        notice_for(e, status_after(e.kind, e.background.len() > 0))
    }
}

/// The worst status among the sessions; `Done` when there are none.
pub open spec fn worst(ss: Seq<SessionView>) -> SessionStatus
    decreases ss.len(),
{
    if ss.len() == 0 {
        SessionStatus::Done
    } else {
        let rest = worst(ss.drop_last());
        if severity(ss.last().status) > severity(rest) {
            ss.last().status
        } else {
            rest
        }
    }
}

/// How many sessions stand at `st`.
pub open spec fn count_of(ss: Seq<SessionView>, st: SessionStatus) -> nat
    decreases ss.len(),
{
    if ss.len() == 0 {
        0
    } else {
        count_of(ss.drop_last(), st) + if ss.last().status == st {
            1nat
        } else {
            0nat
        }
    }
}

/// `"{n}{suffix}"` when `n > 0`, nothing otherwise.
pub open spec fn part_if(n: nat, suffix: Seq<char>) -> Seq<Seq<char>> {
    if n > 0 {
        seq![decimal(n) + suffix]
    } else {
        Seq::empty()
    }
}

/// The tooltip text: the counts of sessions needing you, running and in
/// background, or how many sessions are idle when none of those.
pub open spec fn summary_text(ss: Seq<SessionView>) -> Seq<char> {
    if ss.len() == 0 {
        "No agent sessions"@
    } else {
        let parts = part_if(count_of(ss, SessionStatus::NeedsYou), " need you"@) + part_if(
            count_of(ss, SessionStatus::Running),
            " running"@,
        ) + part_if(count_of(ss, SessionStatus::Background), " in background"@);
        if parts.len() == 0 {
            decimal(ss.len()) + " session(s) idle"@
        } else {
            joined(parts, ", "@)
        }
    }
}


fn task_labels(tasks: &Vec<crate::protocol::BackgroundTask>) -> (r: Vec<String>)
    ensures
        r.deep_view() == tasks.deep_view().map_values(|t: TaskView| t.kind),
{
    let mut r: Vec<String> = Vec::new();
    let n = tasks.len();
    let mut i: usize = 0;
    while i < n
        invariant
            n == tasks.len(),
            i <= n,
            r.deep_view() =~= tasks.deep_view().take(i as int).map_values(|t: TaskView| t.kind),
        decreases n - i,
    {
        let ghost before = r.deep_view();
        r.push(tasks[i].kind.clone());
        proof {
            assert(r.deep_view() =~= before.push(tasks[i as int].kind@));
            assert(tasks.deep_view().take(i + 1) =~= tasks.deep_view().take(i as int).push(
                tasks[i as int]@,
            ));
        }
        i = i + 1;
    }
    proof {
        assert(tasks.deep_view().take(n as int) =~= tasks.deep_view());
    }
    r
}

/// Filtering keeps session ids distinct, and keeps only sessions that were there.
pub(crate) proof fn lemma_filter_distinct(ss: Seq<SessionView>, pred: spec_fn(SessionView) -> bool)
    requires
        distinct_ids(ss),
    ensures
        distinct_ids(ss.filter(pred)),
        forall|k: int| 0 <= k < ss.filter(pred).len() ==> ss.contains(#[trigger] ss.filter(pred)[k]),
    decreases ss.len(),
{
    reveal(Seq::filter);
    if ss.len() > 0 {
        let init = ss.drop_last();
        assert(distinct_ids(init)) by {
            assert forall|i: int, j: int|
                0 <= i < init.len() && 0 <= j < init.len() && i != j implies #[trigger] init[i].session_id
                != #[trigger] init[j].session_id by {
                assert(init[i] == ss[i] && init[j] == ss[j]);
            }
        }
        lemma_filter_distinct(init, pred);
        let sub = init.filter(pred);
        let out = ss.filter(pred);
        assert forall|k: int| 0 <= k < sub.len() implies #[trigger] sub[k].session_id != ss.last().session_id by {
            assert(init.contains(sub[k]));
            let m = choose|m: int| 0 <= m < init.len() && init[m] == sub[k];
            assert(ss[m] == init[m]);
            assert(ss[ss.len() - 1] == ss.last());
        }
        assert forall|k: int| 0 <= k < sub.len() implies ss.contains(#[trigger] sub[k]) by {
            assert(init.contains(sub[k]));
            let m = choose|m: int| 0 <= m < init.len() && init[m] == sub[k];
            assert(ss[m] == init[m]);
        }
        if pred(ss.last()) {
            assert(out == sub.push(ss.last()));
            assert forall|k: int| 0 <= k < out.len() implies ss.contains(#[trigger] out[k]) by {
                if k < sub.len() {
                    assert(out[k] == sub[k]);
                } else {
                    assert(ss[ss.len() - 1] == out[k]);
                }
            }
            assert forall|i: int, j: int|
                0 <= i < out.len() && 0 <= j < out.len() && i != j implies #[trigger] out[i].session_id
                != #[trigger] out[j].session_id by {
                if i < sub.len() && j < sub.len() {
                    assert(out[i] == sub[i] && out[j] == sub[j]);
                } else if i < sub.len() {
                    assert(out[i] == sub[i]);
                } else {
                    assert(out[j] == sub[j]);
                }
            }
        } else {
            assert(out == sub);
        }
    }
}

/// Which sessions a sweep drops: the one with a given id, or the finished ones.
enum Sweep<'a> {
    Session(&'a str),
    Finished,
}

/// Whether a sweep keeps a session.
spec fn sweep_keeps(sweep: Sweep, s: SessionView) -> bool {
    match sweep {
        Sweep::Session(id) => s.session_id != id@,
        Sweep::Finished => s.status != SessionStatus::Done,
    }
}

fn keeps(sweep: &Sweep, s: &Session) -> (r: bool)
    ensures
        r == sweep_keeps(*sweep, s@),
{
    match sweep {
        Sweep::Session(id) => !same_text(s.session_id.as_str(), id),
        Sweep::Finished => s.status != SessionStatus::Done,
    }
}

/// Keeps the sessions the sweep keeps, in order.
fn sweep_sessions(sessions: &mut Vec<Session>, sweep: Sweep)
    ensures
        final(sessions).deep_view() == old(sessions).deep_view().filter(
            |s: SessionView| sweep_keeps(sweep, s),
        ),
{
    let ghost old_ss = sessions.deep_view();
    let ghost pred = |s: SessionView| sweep_keeps(sweep, s);
    let n = sessions.len();
    let mut i: usize = 0;
    let mut j: usize = 0;
    while j < n
        invariant
            n == old_ss.len(),
            j <= n,
            sessions.deep_view() =~= old_ss.take(j as int).filter(pred) + old_ss.skip(j as int),
            i == old_ss.take(j as int).filter(pred).len(),
            pred == (|s: SessionView| sweep_keeps(sweep, s)),
        decreases n - j,
    {
        let ghost kept = old_ss.take(j as int).filter(pred);
        let ghost cur = sessions.deep_view();
        proof {
            assert(sessions@.len() == cur.len());
            assert(old_ss.skip(j as int).len() == n - j);
            assert(cur[i as int] == old_ss[j as int]);
            assert(old_ss.take(j + 1) =~= old_ss.take(j as int).push(old_ss[j as int]));
            old_ss.take(j as int).lemma_filter_push(old_ss[j as int], pred);
        }
        if keeps(&sweep, &sessions[i]) {
            proof {
                assert(kept.push(old_ss[j as int]) + old_ss.skip(j + 1) =~= cur);
            }
            i = i + 1;
        } else {
            sessions.remove(i);
            proof {
                assert(sessions.deep_view() =~= cur.remove(i as int));
                assert(cur.remove(i as int) =~= kept + old_ss.skip(j + 1));
            }
        }
        j = j + 1;
    }
    proof {
        assert(old_ss.take(n as int) =~= old_ss);
        assert(old_ss.skip(n as int) =~= Seq::<SessionView>::empty());
        assert(sessions.deep_view() =~= old_ss.filter(pred));
    }
}

/// Replaces the session with the same id in place, or appends a new one.
fn upsert(sessions: &mut Vec<Session>, s: Session)
    requires
        distinct_ids(old(sessions).deep_view()),
    ensures
        final(sessions).deep_view() == upserted(old(sessions).deep_view(), s@),
        distinct_ids(final(sessions).deep_view()),
{
    let ghost old_ss = sessions.deep_view();
    let n = sessions.len();
    let mut i: usize = 0;
    while i < n
        invariant
            n == sessions.len(),
            i <= n,
            sessions.deep_view() == old_ss,
            old_ss == old(sessions).deep_view(),
            distinct_ids(old_ss),
            forall|k: int| 0 <= k < i ==> #[trigger] old_ss[k].session_id != s.session_id@,
        decreases n - i,
    {
        if sessions[i].session_id == s.session_id {
            proof {
                assert(old_ss[i as int].session_id == s.session_id@);
                assert(has_session(old_ss, s.session_id@));
                let k = session_index(old_ss, s.session_id@);
                assert(old_ss[k].session_id == s.session_id@);
                assert(k == i);
            }
            let ghost sv = s@;
            sessions.set(i, s);
            proof {
                assert(sessions.deep_view() =~= old_ss.update(i as int, sv));
                assert(session_index(old_ss, sv.session_id) == i);
                assert(upserted(old_ss, sv) == old_ss.update(i as int, sv));
                let out = sessions.deep_view();
                assert forall|a: int, b: int|
                    0 <= a < out.len() && 0 <= b < out.len() && a != b implies #[trigger] out[a].session_id
                    != #[trigger] out[b].session_id by {
                    if a != i && b != i {
                        assert(out[a] == old_ss[a] && out[b] == old_ss[b]);
                    } else if a == i {
                        assert(out[b] == old_ss[b]);
                        assert(old_ss[a] == old_ss[i as int]);
                    } else {
                        assert(out[a] == old_ss[a]);
                    }
                }
            }
            return;
        }
        i = i + 1;
    }
    proof {
        assert(!has_session(old_ss, s.session_id@));
    }
    let ghost sv = s@;
    sessions.push(s);
    proof {
        assert(sessions.deep_view() =~= old_ss.push(sv));
        let out = sessions.deep_view();
        assert forall|a: int, b: int|
            0 <= a < out.len() && 0 <= b < out.len() && a != b implies #[trigger] out[a].session_id
            != #[trigger] out[b].session_id by {
            if a < n && b < n {
                assert(out[a] == old_ss[a] && out[b] == old_ss[b]);
            } else if a < n {
                assert(out[a] == old_ss[a]);
            } else {
                assert(out[b] == old_ss[b]);
            }
        }
    }
}


fn status_for(kind: EventKind, has_background: bool) -> (r: SessionStatus)
    ensures
        r == status_after(kind, has_background),
{
    match kind {
        EventKind::SessionStart => SessionStatus::Running,
        EventKind::Stop => if has_background {
            SessionStatus::Background
        } else {
            SessionStatus::Done
        },
        EventKind::StopFailure => SessionStatus::Failed,
        EventKind::PermissionRequest => SessionStatus::NeedsYou,
        EventKind::Notification => SessionStatus::NeedsYou,
        EventKind::SubagentStop => SessionStatus::Running,
        EventKind::SessionEnd => SessionStatus::Done,
    }
}

fn count_status(ss: &Vec<Session>, st: SessionStatus) -> (r: usize)
    ensures
        r == count_of(ss.deep_view(), st),
{
    let n = ss.len();
    let mut r: usize = 0;
    let mut i: usize = 0;
    while i < n
        invariant
            n == ss.len(),
            i <= n,
            r <= i,
            r == count_of(ss.deep_view().take(i as int), st),
        decreases n - i,
    {
        proof {
            assert(ss.deep_view().take(i + 1).drop_last() =~= ss.deep_view().take(i as int));
        }
        if ss[i].status == st {
            r = r + 1;
        }
        i = i + 1;
    }
    proof {
        assert(ss.deep_view().take(n as int) =~= ss.deep_view());
    }
    r
}

fn counted(n: usize, suffix: &str) -> (r: String)
    ensures
        r@ == decimal(n as nat) + suffix@,
{
    let mut r = decimal_string(n as u64);
    r.append(suffix);
    r
}

impl Default for TrayState {
    /// An empty state: no sessions, no history, not muted.
    fn default() -> (r: Self)
        ensures
            r@ == (TrayModel { sessions: Seq::empty(), history: Seq::empty(), muted: false }),
            r.wf(),
    {
        let r = TrayState { sessions: Vec::new(), history: Vec::new(), muted: false };
        proof {
            assert(r@.sessions =~= Seq::<SessionView>::empty());
            assert(r@.history =~= Seq::<HistoryView>::empty());
        }
        r
    }
}

impl TrayState {
    /// Folds one event into the state. Returns a notification to raise, if
    /// this transition is one worth interrupting the user for.
    ///
    /// The history line, if any, is stamped with the current time.
    pub fn apply(&mut self, event: Event) -> (r: Option<Notification>)
        ensures
            final(self).wf(),
            exists|at: Timestamp|
                at.nanos < 1_000_000_000 && #[trigger] applied(old(self)@, event@, at) == final(self)@,
            r.deep_view() == raised(old(self)@, event@),
    {
        proof {
            use_type_invariant(&*self);
        }
        let at = current_time();
        self.apply_at(event, at)
    }

    /// [`TrayState::apply`] with the time of the event given.
    pub fn apply_at(&mut self, event: Event, at: Timestamp) -> (r: Option<Notification>)
        ensures
            final(self).wf(),
            final(self)@ == applied(old(self)@, event@, at),
            r.deep_view() == raised(old(self)@, event@),
    {
        proof {
            use_type_invariant(&*self);
        }
        if event.kind == EventKind::SessionEnd {
            self.remove(event.session_id.as_str());
            return None;
        }
        let status = status_for(event.kind, event.background.len() > 0);
        let session = Session {
            session_id: event.session_id.clone(),
            project: event.project.clone(),
            cwd: event.cwd.clone(),
            title: copy_text(&event.title),
            status,
            background: task_labels(&event.background),
        };
        let mut sessions: Vec<Session> = Vec::new();
        std::mem::swap(&mut sessions, &mut self.sessions);
        upsert(&mut sessions, session);
        self.sessions = sessions;
        let notification = notification_for(&event, status);
        let ghost before = self.history.deep_view();
        match &notification {
            Some(n) => {
                let entry = HistoryEntry {
                    at,
                    label: head_text(&event.title, &event.project).to_owned(),
                    summary: n.history_summary.clone(),
                    session_id: event.session_id.clone(),
                    cwd: event.cwd.clone(),
                };
                let ghost ev = entry@;
                let mut history: Vec<HistoryEntry> = Vec::new();
                std::mem::swap(&mut history, &mut self.history);
                history.truncate(HISTORY_LIMIT - 1);
                history.insert(0, entry);
                proof {
                    assert(history.deep_view() =~= capped(seq![ev] + before));
                }
                self.history = history;
            },
            None => {},
        }
        if self.muted {
            None
        } else {
            notification
        }
    }

    /// Forgets the session with this id.
    pub fn remove(&mut self, session_id: &str)
        ensures
            final(self).wf(),
            final(self)@ == (TrayModel {
                sessions: without_session(old(self)@.sessions, session_id@),
                history: old(self)@.history,
                muted: old(self)@.muted,
            }),
    {
        proof {
            use_type_invariant(&*self);
        }
        proof {
            lemma_filter_distinct(self@.sessions, |s: SessionView| s.session_id != session_id@);
        }
        let mut sessions: Vec<Session> = Vec::new();
        std::mem::swap(&mut sessions, &mut self.sessions);
        sweep_sessions(&mut sessions, Sweep::Session(session_id));
        proof {
            assert((|s: SessionView| sweep_keeps(Sweep::Session(session_id), s)) =~= (|s: SessionView|
                s.session_id != session_id@));
        }
        self.sessions = sessions;
    }

    /// Drops every session that is no longer doing anything.
    pub fn clear_finished(&mut self)
        ensures
            final(self).wf(),
            final(self)@ == (TrayModel {
                sessions: live_sessions(old(self)@.sessions),
                history: old(self)@.history,
                muted: old(self)@.muted,
            }),
    {
        proof {
            use_type_invariant(&*self);
        }
        proof {
            lemma_filter_distinct(self@.sessions, |s: SessionView| s.status != SessionStatus::Done);
        }
        let mut sessions: Vec<Session> = Vec::new();
        std::mem::swap(&mut sessions, &mut self.sessions);
        sweep_sessions(&mut sessions, Sweep::Finished);
        proof {
            assert((|s: SessionView| sweep_keeps(Sweep::Finished, s)) =~= (|s: SessionView|
                s.status != SessionStatus::Done));
        }
        self.sessions = sessions;
    }

    /// Whether desktop notifications are suppressed.
    pub fn muted(&self) -> (r: bool)
        ensures
            self.wf(),
            r == self@.muted,
    {
        proof {
            use_type_invariant(self);
        }
        self.muted
    }

    /// Suppresses (or restores) desktop notifications; the icon and the
    /// history stay live either way.
    pub fn set_muted(&mut self, muted: bool)
        ensures
            final(self).wf(),
            final(self)@ == (TrayModel {
                sessions: old(self)@.sessions,
                history: old(self)@.history,
                muted,
            }),
    {
        proof {
            use_type_invariant(&*self);
        }
        self.muted = muted;
    }

    /// Whether no session is known.
    pub fn is_empty(&self) -> (r: bool)
        ensures
            self.wf(),
            r == (self@.sessions.len() == 0),
    {
        proof {
            use_type_invariant(self);
        }
        self.sessions.len() == 0
    }

    /// The sessions, in the order they first appeared.
    pub fn sessions(&self) -> (r: &[Session])
        ensures
            self.wf(),
            r@.map_values(|s: Session| s@) == self@.sessions,
    {
        proof {
            use_type_invariant(self);
        }
        let r = self.sessions.as_slice();
        proof {
            assert(r@.map_values(|s: Session| s@) =~= self@.sessions);
        }
        r
    }

    /// The notification history, most recent first.
    pub fn history(&self) -> (r: &[HistoryEntry])
        ensures
            self.wf(),
            r@.map_values(|h: HistoryEntry| h@) == self@.history,
    {
        proof {
            use_type_invariant(self);
        }
        let r = self.history.as_slice();
        proof {
            assert(r@.map_values(|h: HistoryEntry| h@) =~= self@.history);
        }
        r
    }

    /// Empties the notification history.
    pub fn clear_history(&mut self)
        ensures
            final(self).wf(),
            final(self)@ == (TrayModel {
                sessions: old(self)@.sessions,
                history: Seq::empty(),
                muted: old(self)@.muted,
            }),
    {
        proof {
            use_type_invariant(&*self);
        }
        self.history = Vec::new();
        proof {
            assert(self@.history =~= Seq::<HistoryView>::empty());
        }
    }

    /// The single status the icon shows for every session at once: the
    /// worst of them, `Done` when there are none.
    pub fn aggregate(&self) -> (r: SessionStatus)
        ensures
            self.wf(),
            r == worst(self@.sessions),
    {
        proof {
            use_type_invariant(self);
        }
        let ghost ss = self@.sessions;
        let n = self.sessions.len();
        let mut r = SessionStatus::Done;
        let mut i: usize = 0;
        while i < n
            invariant
                n == self.sessions.len(),
                ss == self.sessions.deep_view(),
                i <= n,
                r == worst(ss.take(i as int)),
            decreases n - i,
        {
            proof {
                assert(ss.take(i + 1).drop_last() =~= ss.take(i as int));
                assert(ss.take(i + 1).last() == ss[i as int]);
            }
            let st = self.sessions[i].status;
            if st.severity() > r.severity() {
                r = st;
            }
            i = i + 1;
        }
        proof {
            assert(ss.take(n as int) =~= ss);
        }
        r
    }

    /// The tooltip text: how many sessions need you, are running and are in
    /// background, or how many are idle.
    pub fn summary(&self) -> (r: String)
        ensures
            self.wf(),
            r@ == summary_text(self@.sessions),
    {
        proof {
            use_type_invariant(self);
        }
        proof {
            reveal_strlit("No agent sessions");
        }
        if self.sessions.len() == 0 {
            return "No agent sessions".to_owned();
        }
        let ghost ss = self@.sessions;
        let needs_you = count_status(&self.sessions, SessionStatus::NeedsYou);
        let running = count_status(&self.sessions, SessionStatus::Running);
        let background = count_status(&self.sessions, SessionStatus::Background);
        let mut parts: Vec<String> = Vec::new();
        if needs_you > 0 {
            parts.push(counted(needs_you, " need you"));
        }
        proof {
            assert(parts.deep_view() =~= part_if(needs_you as nat, " need you"@));
        }
        let ghost p1 = parts.deep_view();
        if running > 0 {
            parts.push(counted(running, " running"));
        }
        proof {
            assert(parts.deep_view() =~= p1 + part_if(running as nat, " running"@));
        }
        let ghost p2 = parts.deep_view();
        if background > 0 {
            parts.push(counted(background, " in background"));
        }
        proof {
            assert(parts.deep_view() =~= p2 + part_if(background as nat, " in background"@));
        }
        if parts.len() == 0 {
            counted(self.sessions.len(), " session(s) idle")
        } else {
            join(&parts, ", ")
        }
    }
}


/// With several sessions, the icon shows the worst state: every session's
/// status is at most as severe as the aggregate, the aggregate is the status
/// of some session, and it is `Done` when there is no session.
pub proof fn law_aggregate_is_the_worst(ss: Seq<SessionView>)
    ensures
        forall|i: int| 0 <= i < ss.len() ==> severity(#[trigger] ss[i].status) <= severity(worst(ss)),
        ss.len() == 0 ==> worst(ss) == SessionStatus::Done,
        ss.len() > 0 ==> exists|i: int| 0 <= i < ss.len() && #[trigger] ss[i].status == worst(ss),
    decreases ss.len(),
{
    if ss.len() > 0 {
        let init = ss.drop_last();
        law_aggregate_is_the_worst(init);
        assert forall|i: int| 0 <= i < ss.len() implies severity(#[trigger] ss[i].status) <= severity(
            worst(ss),
        ) by {
            if i < ss.len() - 1 {
                assert(ss[i] == init[i]);
            }
        }
        if severity(ss.last().status) > severity(worst(init)) {
            assert(ss[ss.len() - 1].status == worst(ss));
        } else if init.len() == 0 {
            assert(ss[ss.len() - 1].status == worst(ss));
        } else {
            let k = choose|k: int| 0 <= k < init.len() && #[trigger] init[k].status == worst(init);
            assert(ss[k] == init[k]);
        }
    }
}

/// One session needing you outranks every other state.
pub proof fn law_blocked_session_outranks_all(ss: Seq<SessionView>, i: int)
    requires
        0 <= i < ss.len(),
        ss[i].status == SessionStatus::NeedsYou,
    ensures
        worst(ss) == SessionStatus::NeedsYou,
{
    law_aggregate_is_the_worst(ss);
    assert(severity(ss[i].status) <= severity(worst(ss)));
}

/// An event other than `SessionEnd` leaves exactly one session with its id,
/// describing the event with the status it implies; that session takes the
/// place of an earlier one with the same id, or is appended after all others.
/// Every other session stays where it was, unchanged.
pub proof fn law_a_session_updates_in_place(m: TrayModel, e: EventView, at: Timestamp)
    requires
        distinct_ids(m.sessions),
        e.kind != EventKind::SessionEnd,
    ensures
        ({
            let r = applied(m, e, at).sessions;
            let s = session_for(e, status_after(e.kind, e.background.len() > 0));
            &&& distinct_ids(r)
            &&& has_session(r, e.session_id)
            &&& forall|i: int| 0 <= i < r.len() && #[trigger] r[i].session_id == e.session_id ==> r[i] == s
            &&& r.len() == m.sessions.len() + if has_session(m.sessions, e.session_id) {
                0int
            } else {
                1int
            }
            &&& !has_session(m.sessions, e.session_id) ==> r[m.sessions.len() as int] == s
            &&& forall|i: int|
                0 <= i < m.sessions.len() ==> #[trigger] r[i].session_id == m.sessions[i].session_id
            &&& forall|i: int|
                0 <= i < m.sessions.len() && #[trigger] m.sessions[i].session_id != e.session_id
                    ==> r[i] == m.sessions[i]
        }),
{
    let r = applied(m, e, at).sessions;
    let s = session_for(e, status_after(e.kind, e.background.len() > 0));
    let ss = m.sessions;
    if has_session(ss, e.session_id) {
        let k = session_index(ss, e.session_id);
        assert(r == ss.update(k, s));
        assert(r[k].session_id == e.session_id);
        assert forall|i: int| 0 <= i < r.len() && #[trigger] r[i].session_id == e.session_id implies r[i]
            == s by {
            if i != k {
                assert(r[i] == ss[i]);
                assert(ss[i].session_id != ss[k].session_id);
            }
        }
        assert forall|i: int| 0 <= i < ss.len() implies #[trigger] r[i].session_id == ss[i].session_id by {
            if i == k {
                assert(r[i] == s);
            } else {
                assert(r[i] == ss[i]);
            }
        }
        assert forall|a: int, b: int|
            0 <= a < r.len() && 0 <= b < r.len() && a != b implies #[trigger] r[a].session_id
            != #[trigger] r[b].session_id by {
            assert(r[a].session_id == ss[a].session_id);
            assert(r[b].session_id == ss[b].session_id);
        }
    } else {
        assert(r == ss.push(s));
        assert(r[ss.len() as int].session_id == e.session_id);
        assert forall|i: int| 0 <= i < r.len() && #[trigger] r[i].session_id == e.session_id implies r[i]
            == s by {
            if i < ss.len() {
                assert(r[i] == ss[i]);
            }
        }
        assert forall|i: int| 0 <= i < ss.len() implies #[trigger] r[i].session_id == ss[i].session_id by {
            assert(r[i] == ss[i]);
        }
        assert forall|a: int, b: int|
            0 <= a < r.len() && 0 <= b < r.len() && a != b implies #[trigger] r[a].session_id
            != #[trigger] r[b].session_id by {
            if a < ss.len() && b < ss.len() {
                assert(r[a] == ss[a] && r[b] == ss[b]);
            } else if a < ss.len() {
                assert(r[a] == ss[a]);
            } else {
                assert(r[b] == ss[b]);
            }
        }
    }
}

/// `SessionEnd` removes the session: none with its id is left, nothing is
/// raised and the history is unchanged.
pub proof fn law_session_end_removes_the_session(m: TrayModel, e: EventView, at: Timestamp)
    requires
        e.kind == EventKind::SessionEnd,
    ensures
        !has_session(applied(m, e, at).sessions, e.session_id),
        applied(m, e, at).history == m.history,
        raised(m, e) is None,
{
    let pred = |s: SessionView| s.session_id != e.session_id;
    let r = m.sessions.filter(pred);
    assert forall|i: int| 0 <= i < r.len() implies #[trigger] r[i].session_id != e.session_id by {
        m.sessions.lemma_filter_pred(pred, i);
    }
}

/// Clearing finished sessions drops exactly the `Done` ones: none is left,
/// and every session still doing something stays.
pub proof fn law_clear_finished_keeps_live_work(ss: Seq<SessionView>)
    ensures
        forall|i: int|
            0 <= i < live_sessions(ss).len() ==> #[trigger] live_sessions(ss)[i].status
                != SessionStatus::Done,
        forall|i: int|
            0 <= i < ss.len() && #[trigger] ss[i].status != SessionStatus::Done ==> live_sessions(
                ss,
            ).contains(ss[i]),
{
    let pred = |s: SessionView| s.status != SessionStatus::Done;
    assert forall|i: int| 0 <= i < live_sessions(ss).len() implies #[trigger] live_sessions(ss)[i].status
        != SessionStatus::Done by {
        ss.lemma_filter_pred(pred, i);
    }
    assert forall|i: int| 0 <= i < ss.len() && #[trigger] ss[i].status != SessionStatus::Done implies live_sessions(
        ss,
    ).contains(ss[i]) by {
        ss.lemma_filter_contains(pred, i);
    }
}

/// Deliberately quiet: a session starting, a subagent finishing and a
/// session ending raise no notification and leave no history line.
pub proof fn law_quiet_events_leave_no_trace(m: TrayModel, e: EventView, at: Timestamp)
    requires
        e.kind == EventKind::SessionStart || e.kind == EventKind::SubagentStop || e.kind
            == EventKind::SessionEnd,
    ensures
        raised(m, e) is None,
        applied(m, e, at).history == m.history,
{
}

/// Every event that deserves a notification lands in the history, most
/// recent first and whether muted or not, and the history keeps at most
/// [`HISTORY_LIMIT`] lines.
pub proof fn law_notified_events_are_recorded(m: TrayModel, e: EventView, at: Timestamp)
    requires
        e.kind != EventKind::SessionEnd,
        notice_for(e, status_after(e.kind, e.background.len() > 0)) is Some,
        m.history.len() <= HISTORY_LIMIT,
    ensures
        HISTORY_LIMIT == 20,
        ({
            let n = notice_for(e, status_after(e.kind, e.background.len() > 0))->0;
            let h = applied(m, e, at).history;
            &&& h[0] == entry_for(e, n, at)
            &&& h.len() == if m.history.len() < HISTORY_LIMIT {
                m.history.len() + 1int
            } else {
                HISTORY_LIMIT as int
            }
            &&& forall|i: int| 1 <= i < h.len() ==> #[trigger] h[i] == m.history[i - 1]
        }),
{
}

/// Muting silences the popup, never the record: a muted state raises
/// nothing, and folds every event into the sessions and the history exactly
/// as an unmuted one does.
pub proof fn law_muting_silences_only_the_popup(m: TrayModel, e: EventView, at: Timestamp)
    ensures
        raised(TrayModel { sessions: m.sessions, history: m.history, muted: true }, e) is None,
        applied(TrayModel { sessions: m.sessions, history: m.history, muted: true }, e, at).sessions
            == applied(TrayModel { sessions: m.sessions, history: m.history, muted: false }, e, at).sessions,
        applied(TrayModel { sessions: m.sessions, history: m.history, muted: true }, e, at).history
            == applied(TrayModel { sessions: m.sessions, history: m.history, muted: false }, e, at).history,
        !m.muted ==> raised(m, e) == if e.kind == EventKind::SessionEnd {
            None
        } else {
            notice_for(e, status_after(e.kind, e.background.len() > 0))
        },
{
}

/// A notification is critical (not dismissed on a timer) exactly when the
/// agent is stopped until a person acts: a permission request or a request
/// for input.
pub proof fn law_only_blocking_events_are_critical(e: EventView, status: SessionStatus)
    ensures
        notice_for(e, status) matches Some(n) ==> (n.critical <==> (e.kind
            == EventKind::PermissionRequest || e.kind == EventKind::Notification)),
        notice_for(e, status) is Some <==> (e.kind == EventKind::Stop || e.kind
            == EventKind::StopFailure || e.kind == EventKind::PermissionRequest || e.kind
            == EventKind::Notification),
{
}


/// The status a session takes is the documented one for the event's kind:
/// a session starting or a subagent finishing leaves it running; a finished
/// turn is in background while tasks remain and done otherwise; a failed
/// turn is failed; a permission request or a request for input needs you.
pub proof fn law_status_follows_the_event_kind(m: TrayModel, e: EventView, at: Timestamp)
    requires
        distinct_ids(m.sessions),
        e.kind != EventKind::SessionEnd,
    ensures
        forall|i: int|
            0 <= i < applied(m, e, at).sessions.len() && #[trigger] applied(
                m,
                e,
                at,
            ).sessions[i].session_id == e.session_id ==> {
                let st = applied(m, e, at).sessions[i].status;
                &&& (e.kind == EventKind::SessionStart || e.kind == EventKind::SubagentStop) ==> st
                    == SessionStatus::Running
                &&& (e.kind == EventKind::Stop && e.background.len() > 0) ==> st
                    == SessionStatus::Background
                &&& (e.kind == EventKind::Stop && e.background.len() == 0) ==> st
                    == SessionStatus::Done
                &&& e.kind == EventKind::StopFailure ==> st == SessionStatus::Failed
                &&& (e.kind == EventKind::PermissionRequest || e.kind == EventKind::Notification)
                    ==> st == SessionStatus::NeedsYou
            },
{
    law_a_session_updates_in_place(m, e, at);
}

/// A notification's icon is that of the state the session is left in: the
/// question badge when someone is needed, the error badge for a failure,
/// the running icon for a turn that left work behind, the idle icon for a
/// finished one.
pub proof fn law_notification_icons(m: TrayModel, e: EventView)
    ensures
        raised(m, e) matches Some(n) ==> {
            &&& (e.kind == EventKind::PermissionRequest || e.kind == EventKind::Notification) ==> n.icon
                == "dialog-question"@
            &&& e.kind == EventKind::StopFailure ==> n.icon == "dialog-error"@
            &&& (e.kind == EventKind::Stop && e.background.len() > 0) ==> n.icon == "system-run"@
            &&& (e.kind == EventKind::Stop && e.background.len() == 0) ==> n.icon == "user-idle"@
        },
{
}

/// The rank of severity follows the declared order of the statuses:
/// `Done < Running < Background < Failed < NeedsYou`, and no two statuses
/// share a rank.
pub proof fn law_severity_follows_the_declared_order()
    ensures
        severity(SessionStatus::Done) < severity(SessionStatus::Running),
        severity(SessionStatus::Running) < severity(SessionStatus::Background),
        severity(SessionStatus::Background) < severity(SessionStatus::Failed),
        severity(SessionStatus::Failed) < severity(SessionStatus::NeedsYou),
        forall|a: SessionStatus, b: SessionStatus| severity(a) == severity(b) ==> a == b,
{
}

/// Whether some session stands at `st`.
pub open spec fn has_status(ss: Seq<SessionView>, st: SessionStatus) -> bool {
    exists|i: int| 0 <= i < ss.len() && #[trigger] ss[i].status == st
}

/// The aggregate, worst first: `NeedsYou` if any session needs you, else
/// `Failed` if any failed, else `Background` if any left work behind, else
/// `Running` if any runs, else `Done`.
pub proof fn law_aggregate_by_precedence(ss: Seq<SessionView>)
    ensures
        has_status(ss, SessionStatus::NeedsYou) ==> worst(ss) == SessionStatus::NeedsYou,
        !has_status(ss, SessionStatus::NeedsYou) && has_status(ss, SessionStatus::Failed) ==> worst(ss)
            == SessionStatus::Failed,
        !has_status(ss, SessionStatus::NeedsYou) && !has_status(ss, SessionStatus::Failed)
            && has_status(ss, SessionStatus::Background) ==> worst(ss) == SessionStatus::Background,
        !has_status(ss, SessionStatus::NeedsYou) && !has_status(ss, SessionStatus::Failed)
            && !has_status(ss, SessionStatus::Background) && has_status(ss, SessionStatus::Running)
            ==> worst(ss) == SessionStatus::Running,
        !has_status(ss, SessionStatus::NeedsYou) && !has_status(ss, SessionStatus::Failed)
            && !has_status(ss, SessionStatus::Background) && !has_status(ss, SessionStatus::Running)
            ==> worst(ss) == SessionStatus::Done,
{
    law_aggregate_is_the_worst(ss);
    law_severity_follows_the_declared_order();
    if ss.len() > 0 {
        let k = choose|k: int| 0 <= k < ss.len() && #[trigger] ss[k].status == worst(ss);
        assert(has_status(ss, worst(ss)));
        if has_status(ss, SessionStatus::NeedsYou) {
            let i = choose|i: int| 0 <= i < ss.len() && #[trigger] ss[i].status == SessionStatus::NeedsYou;
            assert(severity(ss[i].status) <= severity(worst(ss)));
        } else if has_status(ss, SessionStatus::Failed) {
            let i = choose|i: int| 0 <= i < ss.len() && #[trigger] ss[i].status == SessionStatus::Failed;
            assert(severity(ss[i].status) <= severity(worst(ss)));
        } else if has_status(ss, SessionStatus::Background) {
            let i = choose|i: int|
                0 <= i < ss.len() && #[trigger] ss[i].status == SessionStatus::Background;
            assert(severity(ss[i].status) <= severity(worst(ss)));
        } else if has_status(ss, SessionStatus::Running) {
            let i = choose|i: int| 0 <= i < ss.len() && #[trigger] ss[i].status == SessionStatus::Running;
            assert(severity(ss[i].status) <= severity(worst(ss)));
        }
    }
}

/// The words of the statuses: each status reads differently, as `done`,
/// `running`, `background work`, `failed` and `needs you`.
pub proof fn law_status_labels()
    ensures
        forall|a: SessionStatus, b: SessionStatus| a != b ==> status_label(a) != status_label(b),
        status_label(SessionStatus::Done) == "done"@,
        status_label(SessionStatus::Running) == "running"@,
        status_label(SessionStatus::Background) == "background work"@,
        status_label(SessionStatus::Failed) == "failed"@,
        status_label(SessionStatus::NeedsYou) == "needs you"@,
{
    reveal_strlit("done");
    reveal_strlit("running");
    reveal_strlit("background work");
    reveal_strlit("failed");
    reveal_strlit("needs you");
    assert("done"@.len() == 4);
    assert("running"@.len() == 7);
    assert("background work"@.len() == 15);
    assert("failed"@.len() == 6);
    assert("needs you"@.len() == 9);
    assert("done"@[0] != "failed"@[0]);
}

/// A session's menu line names it (its title, else its project), then the
/// word of its status, then the labels of its background tasks in brackets.
pub proof fn law_session_line_parts(s: SessionView)
    ensures
        s.background.len() == 0 ==> session_line(s) == head_of(s.title, s.project) + " — "@
            + status_label(s.status),
        s.background.len() > 0 ==> session_line(s) == head_of(s.title, s.project) + " — "@
            + status_label(s.status) + " ("@ + joined(s.background, ", "@) + ")"@,
        s.status == SessionStatus::Failed && s.background.len() == 0 ==> session_line(s) == head_of(
            s.title,
            s.project,
        ) + " — "@ + "failed"@,
{
    law_status_labels();
}

/// The icons of the statuses: the idle icon when done, the running icon while
/// working or in background, the error badge on failure and the question
/// badge when someone is needed.
pub proof fn law_status_icons()
    ensures
        status_icon(SessionStatus::Done) == "user-idle"@,
        status_icon(SessionStatus::Running) == "system-run"@,
        status_icon(SessionStatus::Background) == "system-run"@,
        status_icon(SessionStatus::Failed) == "dialog-error"@,
        status_icon(SessionStatus::NeedsYou) == "dialog-question"@,
{
}


/// How many sessions stand at `st` is the length of the list of those that do.
pub proof fn law_count_is_the_number_at_a_status(ss: Seq<SessionView>, st: SessionStatus)
    ensures
        count_of(ss, st) == ss.filter(|s: SessionView| s.status == st).len(),
    decreases ss.len(),
{
    reveal(Seq::filter);
    if ss.len() > 0 {
        law_count_is_the_number_at_a_status(ss.drop_last(), st);
    }
}

proof fn lemma_joined_up_to_three(a: Seq<char>, b: Seq<char>, c: Seq<char>, sep: Seq<char>)
    ensures
        joined(seq![a], sep) == a,
        joined(seq![a, b], sep) == a + sep + b,
        joined(seq![a, b, c], sep) == a + sep + b + sep + c,
{
    assert(seq![a, b].drop_last() =~= seq![a]);
    assert(seq![a, b, c].drop_last() =~= seq![a, b]);
    assert(seq![a, b].drop_last().drop_last() =~= Seq::<Seq<char>>::empty());
    reveal_with_fuel(joined, 3);
}

/// The tooltip text, from the numbers of sessions that need you (`n`), are
/// running (`r`) and are in background (`b`): each positive number is given,
/// in that order and separated by commas; when none is positive, how many
/// sessions are idle; and with no session at all, "No agent sessions".
pub proof fn law_summary_reports_every_count(ss: Seq<SessionView>)
    ensures
        ({
            let n = ss.filter(|s: SessionView| s.status == SessionStatus::NeedsYou).len();
            let r = ss.filter(|s: SessionView| s.status == SessionStatus::Running).len();
            let b = ss.filter(|s: SessionView| s.status == SessionStatus::Background).len();
            let need = decimal(n) + " need you"@;
            let run = decimal(r) + " running"@;
            let bg = decimal(b) + " in background"@;
            let sep = ", "@;
            &&& ss.len() == 0 ==> summary_text(ss) == "No agent sessions"@
            &&& ss.len() > 0 && n == 0 && r == 0 && b == 0 ==> summary_text(ss) == decimal(ss.len())
                + " session(s) idle"@
            &&& ss.len() > 0 && n > 0 && r > 0 && b > 0 ==> summary_text(ss) == need + sep + run + sep
                + bg
            &&& ss.len() > 0 && n > 0 && r > 0 && b == 0 ==> summary_text(ss) == need + sep + run
            &&& ss.len() > 0 && n > 0 && r == 0 && b > 0 ==> summary_text(ss) == need + sep + bg
            &&& ss.len() > 0 && n == 0 && r > 0 && b > 0 ==> summary_text(ss) == run + sep + bg
            &&& ss.len() > 0 && n > 0 && r == 0 && b == 0 ==> summary_text(ss) == need
            &&& ss.len() > 0 && n == 0 && r > 0 && b == 0 ==> summary_text(ss) == run
            &&& ss.len() > 0 && n == 0 && r == 0 && b > 0 ==> summary_text(ss) == bg
        }),
{
    law_count_is_the_number_at_a_status(ss, SessionStatus::NeedsYou);
    law_count_is_the_number_at_a_status(ss, SessionStatus::Running);
    law_count_is_the_number_at_a_status(ss, SessionStatus::Background);
    let n = count_of(ss, SessionStatus::NeedsYou);
    let r = count_of(ss, SessionStatus::Running);
    let b = count_of(ss, SessionStatus::Background);
    let need = decimal(n) + " need you"@;
    let run = decimal(r) + " running"@;
    let bg = decimal(b) + " in background"@;
    let parts = part_if(n, " need you"@) + part_if(r, " running"@) + part_if(b, " in background"@);
    lemma_joined_up_to_three(need, run, bg, ", "@);
    lemma_joined_up_to_three(need, bg, bg, ", "@);
    lemma_joined_up_to_three(run, bg, bg, ", "@);
    lemma_joined_up_to_three(run, run, run, ", "@);
    lemma_joined_up_to_three(bg, bg, bg, ", "@);
    if n > 0 && r > 0 && b > 0 {
        assert(parts =~= seq![need, run, bg]);
    } else if n > 0 && r > 0 {
        assert(parts =~= seq![need, run]);
    } else if n > 0 && b > 0 {
        assert(parts =~= seq![need, bg]);
    } else if r > 0 && b > 0 {
        assert(parts =~= seq![run, bg]);
    } else if n > 0 {
        assert(parts =~= seq![need]);
    } else if r > 0 {
        assert(parts =~= seq![run]);
    } else if b > 0 {
        assert(parts =~= seq![bg]);
    } else {
        assert(parts =~= Seq::<Seq<char>>::empty());
    }
}


/// The whole seconds elapsed are the largest number of seconds that fit
/// between the two instants, and none when `now` is not later.
pub proof fn law_elapsed_seconds(now: Timestamp, earlier: Timestamp)
    ensures
        instant(now) < instant(earlier) ==> elapsed_secs(now, earlier) == 0,
        instant(now) >= instant(earlier) ==> elapsed_secs(now, earlier) * 1_000_000_000 <= instant(now)
            - instant(earlier) < (elapsed_secs(now, earlier) + 1) * 1_000_000_000,
{
}

/// The age of a history line reads "just now" for less than a minute, then
/// whole minutes ("3m ago") below an hour, then whole hours ("2h ago").
pub proof fn law_ages(elapsed: int)
    ensures
        elapsed < 60 ==> age_text(elapsed) == "just now"@,
        60 <= elapsed < 3_600 ==> age_text(elapsed) == decimal((elapsed / 60) as nat) + "m ago"@
            && 1 <= elapsed / 60 < 60,
        3_600 <= elapsed ==> age_text(elapsed) == decimal((elapsed / 3_600) as nat) + "h ago"@ && 1
            <= elapsed / 3_600,
{
}

/// A history line reads `label — summary (age)`, where the age is taken from
/// the seconds elapsed since the line was recorded; it is recorded with the
/// session's title, else its project, and the notification's short summary.
pub proof fn law_history_lines(h: HistoryView, now: Timestamp, e: EventView, n: NotificationView, at: Timestamp)
    ensures
        history_line(h, now) == h.label + " — "@ + h.summary + " ("@ + age_text(
            elapsed_secs(now, h.at),
        ) + ")"@,
        entry_for(e, n, at).label == (match e.title {
            Some(t) => t,
            None => e.project,
        }),
        entry_for(e, n, at).summary == n.history_summary,
        entry_for(e, n, at).at == at,
        entry_for(e, n, at).session_id == e.session_id,
        entry_for(e, n, at).cwd == e.cwd,
{
}

/// What each notification says. Its title names the session (title, else
/// project): ": turn finished" when work is left behind, ": done",
/// ": failed", ": permission needed", or the name alone for a request for
/// input, whose body is the agent's message when it sent one.
pub proof fn law_notification_texts(e: EventView, status: SessionStatus)
    ensures
        ({
            let label = match e.title {
                Some(t) => t,
                None => e.project,
            };
            notice_for(e, status) matches Some(n) ==> {
                &&& n.session_id == e.session_id
                &&& n.cwd == e.cwd
                &&& (e.kind == EventKind::Stop && status == SessionStatus::Background) ==> n.summary
                    == label + ": turn finished"@ && n.body == "Background work is still running."@
                    && n.history_summary == "finished, background work running"@
                &&& (e.kind == EventKind::Stop && status != SessionStatus::Background) ==> n.summary
                    == label + ": done"@ && n.body == "The agent finished its turn."@
                    && n.history_summary == "done"@
                &&& e.kind == EventKind::StopFailure ==> n.summary == label + ": failed"@ && n.body
                    == "The turn ended with an error."@ && n.history_summary == "failed"@
                &&& e.kind == EventKind::PermissionRequest ==> n.summary == label
                    + ": permission needed"@ && n.body == "The agent is waiting for your decision."@
                    && n.history_summary == "needs a permission decision"@
                &&& e.kind == EventKind::Notification ==> n.summary == label && n.body == (match e.message {
                    Some(m) => m,
                    None => "The agent needs your attention."@,
                }) && n.history_summary == "needs your attention"@
            }
        }),
{
}


/// The session an event leaves under its id carries the event's project,
/// working directory and title, and the labels of its background tasks, in
/// order.
pub proof fn law_session_describes_its_event(m: TrayModel, e: EventView, at: Timestamp)
    requires
        distinct_ids(m.sessions),
        e.kind != EventKind::SessionEnd,
    ensures
        forall|i: int|
            0 <= i < applied(m, e, at).sessions.len() && #[trigger] applied(
                m,
                e,
                at,
            ).sessions[i].session_id == e.session_id ==> {
                let s = applied(m, e, at).sessions[i];
                &&& s.project == e.project
                &&& s.cwd == e.cwd
                &&& s.title == e.title
                &&& s.background.len() == e.background.len()
                &&& forall|k: int| 0 <= k < s.background.len() ==> #[trigger] s.background[k]
                    == e.background[k].kind
            },
{
    law_a_session_updates_in_place(m, e, at);
}

/// Removing a session by id leaves no session with that id and keeps every
/// other session; nothing else appears.
pub proof fn law_remove_keeps_the_others(ss: Seq<SessionView>, id: Seq<char>)
    ensures
        !has_session(without_session(ss, id), id),
        forall|i: int|
            0 <= i < ss.len() && #[trigger] ss[i].session_id != id ==> without_session(ss, id).contains(
                ss[i],
            ),
        forall|k: int|
            0 <= k < without_session(ss, id).len() ==> ss.contains(
                #[trigger] without_session(ss, id)[k],
            ),
{
    let pred = |s: SessionView| s.session_id != id;
    let r = ss.filter(pred);
    assert forall|k: int| 0 <= k < r.len() implies #[trigger] r[k].session_id != id by {
        ss.lemma_filter_pred(pred, k);
    }
    assert forall|i: int| 0 <= i < ss.len() && #[trigger] ss[i].session_id != id implies r.contains(
        ss[i],
    ) by {
        ss.lemma_filter_contains(pred, i);
    }
    assert forall|k: int| 0 <= k < r.len() implies ss.contains(#[trigger] r[k]) by {
        assert(r.contains(r[k]));
        ss.lemma_filter_contains_rev(pred, r[k]);
    }
}

} // verus!
