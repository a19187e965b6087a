//! The daemon's own logic: the demo sessions it can start with.
//!
//! The socket loop, the D-Bus tray and the desktop notifications are outside
//! work and live in the program around this library; what the loop decides
//! for each datagram is [`TrayState::apply`](crate::state::TrayState::apply).

use vstd::prelude::*;

use crate::protocol::{file_name_of, final_component, BackgroundTask, Event, EventKind, EventView, TaskView};
use crate::state::{applied, Timestamp, TrayModel, TrayState};

verus! {

/// Largest datagram the daemon accepts. Events are small; anything near
/// this is a bug or someone probing the socket.
pub const MAX_DATAGRAM: usize = 65536;

/// The model after folding in `es` in order, the `i`-th at time `ats[i]`.
pub open spec fn applied_all(m: TrayModel, es: Seq<EventView>, ats: Seq<Timestamp>) -> TrayModel
    decreases es.len(),
{
    if es.len() == 0 || ats.len() == 0 {
        m
    } else {
        applied_all(applied(m, es[0], ats[0]), es.drop_first(), ats.drop_first())
    }
}

/// A demo event: the project is the final component of `cwd` (empty when
/// it has none), and it carries a title and no message.
pub open spec fn demo_view(
    kind: EventKind,
    id: Seq<char>,
    cwd: Seq<char>,
    title: Seq<char>,
    background: Seq<TaskView>,
) -> EventView {
    EventView {
        kind,
        session_id: id,
        cwd,
        project: match final_component(cwd) {
            Some(name) => name,
            None => Seq::empty(),
        },
        title: Some(title),
        agent_type: None,
        message: None,
        background,
    }
}

/// The sessions shown by `daemon --demo`: one running, one finished with a
/// shell still in the background, one waiting for a permission decision.
pub open spec fn demo_events() -> Seq<EventView> {
    seq![
        demo_view(
            EventKind::SessionStart,
            "demo-1"@,
            "/home/user/Projects/zeo"@,
            "Patch the agent panel"@,
            Seq::empty(),
        ),
        demo_view(
            EventKind::Stop,
            "demo-2"@,
            "/home/user/Projects/zeo-systray"@,
            "Wire up the tray"@,
            seq![TaskView { kind: "shell"@, status: "running"@ }],
        ),
        demo_view(
            EventKind::PermissionRequest,
            "demo-3"@,
            "/home/user/Projects/bentoo"@,
            "Bump the ebuild"@,
            Seq::empty(),
        ),
    ]
}

fn demo_event(
    kind: EventKind,
    id: &str,
    cwd: &str,
    title: &str,
    background: Vec<BackgroundTask>,
) -> (r: Event)
    ensures
        r@ == demo_view(kind, id@, cwd@, title@, background.deep_view()),
{
    let project = match file_name_of(cwd) {
        Some(name) => name,
        None => String::new(),
    };
    Event {
        kind,
        session_id: id.to_owned(),
        cwd: cwd.to_owned(),
        project,
        title: Some(title.to_owned()),
        agent_type: None,
        message: None,
        background,
    }
}

/// Fills the tray with plausible sessions so the icon and menu can be seen
/// on a real desktop before any hook is wired up.
pub fn seed_demo(state: &mut TrayState)
    ensures
        exists|ats: Seq<Timestamp>|
            ats.len() == 3 && #[trigger] applied_all(old(state)@, demo_events(), ats) == final(state)@,
{
    let ghost s0 = state@;
    let mut shell: Vec<BackgroundTask> = Vec::new();
    shell.push(BackgroundTask { kind: "shell".to_owned(), status: "running".to_owned() });
    proof {
        assert(shell.deep_view() =~= seq![TaskView { kind: "shell"@, status: "running"@ }]);
    }
    let none_first: Vec<BackgroundTask> = Vec::new();
    let none_third: Vec<BackgroundTask> = Vec::new();
    proof {
        assert(none_first.deep_view() =~= Seq::<TaskView>::empty());
        assert(none_third.deep_view() =~= Seq::<TaskView>::empty());
    }
    let first = demo_event(
        EventKind::SessionStart,
        "demo-1",
        "/home/user/Projects/zeo",
        "Patch the agent panel",
        none_first,
    );
    let second = demo_event(
        EventKind::Stop,
        "demo-2",
        "/home/user/Projects/zeo-systray",
        "Wire up the tray",
        shell,
    );
    let third = demo_event(
        EventKind::PermissionRequest,
        "demo-3",
        "/home/user/Projects/bentoo",
        "Bump the ebuild",
        none_third,
    );
    let ghost es = seq![first@, second@, third@];
    proof {
        assert(es =~= demo_events());
    }
    state.apply(first);
    let ghost s1 = state@;
    let ghost a1 = choose|at: Timestamp| at.nanos < 1_000_000_000 && #[trigger] applied(s0, es[0], at) == s1;
    state.apply(second);
    let ghost s2 = state@;
    let ghost a2 = choose|at: Timestamp| at.nanos < 1_000_000_000 && #[trigger] applied(s1, es[1], at) == s2;
    state.apply(third);
    let ghost s3 = state@;
    let ghost a3 = choose|at: Timestamp| at.nanos < 1_000_000_000 && #[trigger] applied(s2, es[2], at) == s3;
    proof {
        let ats = seq![a1, a2, a3];
        reveal_with_fuel(applied_all, 4);
        assert(es.drop_first() =~= seq![es[1], es[2]]);
        assert(es.drop_first().drop_first() =~= seq![es[2]]);
        assert(ats.drop_first() =~= seq![a2, a3]);
        assert(ats.drop_first().drop_first() =~= seq![a3]);
        assert(seq![es[2]].drop_first() =~= Seq::<EventView>::empty());
        assert(seq![a3].drop_first() =~= Seq::<Timestamp>::empty());
        assert(applied_all(s0, es, ats) == s3);
    }
}

} // verus!
