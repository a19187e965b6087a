//! What a tray state holds after any sequence of calls from the empty state.
//!
//! Each method of [`TrayState`](crate::state::TrayState) states its effect
//! on one state exactly; the laws here state what follows for a whole
//! sequence of calls: which sessions are listed, in which order and with
//! which details, and what the notification history holds.

use vstd::prelude::*;

use crate::protocol::{EventKind, EventView};
use crate::state::{
    law_a_session_updates_in_place, applied, capped, distinct_ids, entry_for, has_session, lemma_filter_distinct, live_sessions,
    notice_for, session_for, status_after, without_session, HistoryView, SessionStatus,
    SessionView, Timestamp, TrayModel, HISTORY_LIMIT,
};

verus! {

/// One call on a tray state: `apply` (or `apply_at`) of an event at a time,
/// `remove`, `clear_finished`, `clear_history` or `set_muted`.
pub enum Call {
    Apply(EventView, Timestamp),
    Remove(Seq<char>),
    ClearFinished,
    ClearHistory,
    SetMuted(bool),
}

/// The state of `TrayState::default()`.
pub open spec fn empty_model() -> TrayModel {
    TrayModel { sessions: Seq::empty(), history: Seq::empty(), muted: false }
}

/// The state after one call, as the call's contract states it.
pub open spec fn after(m: TrayModel, c: Call) -> TrayModel {
    match c {
        Call::Apply(e, at) => applied(m, e, at),
        Call::Remove(id) => TrayModel {
            sessions: without_session(m.sessions, id),
            history: m.history,
            muted: m.muted,
        },
        Call::ClearFinished => TrayModel {
            sessions: live_sessions(m.sessions),
            history: m.history,
            muted: m.muted,
        },
        Call::ClearHistory => TrayModel { sessions: m.sessions, history: Seq::empty(), muted: m.muted },
        Call::SetMuted(muted) => TrayModel { sessions: m.sessions, history: m.history, muted },
    }
}

/// The state reached from the empty state by `calls`, in order.
pub open spec fn run(calls: Seq<Call>) -> TrayModel
    decreases calls.len(),
{
    if calls.len() == 0 {
        empty_model()
    } else {
        after(run(calls.drop_last()), calls.last())
    }
}

/// Whether the call applies an event about session `id` other than `SessionEnd`.
pub open spec fn opens(c: Call, id: Seq<char>) -> bool {
    match c {
        Call::Apply(e, _) => e.kind != EventKind::SessionEnd && e.session_id == id,
        _ => false,
    }
}

/// The last event about session `id`, other than `SessionEnd`, among `calls`.
pub open spec fn latest(calls: Seq<Call>, id: Seq<char>) -> Option<EventView>
    decreases calls.len(),
{
    if calls.len() == 0 {
        None
    } else {
        match calls.last() {
            Call::Apply(e, _) => if e.kind != EventKind::SessionEnd && e.session_id == id {
                Some(e)
            } else {
                latest(calls.drop_last(), id)
            },
            _ => latest(calls.drop_last(), id),
        }
    }
}

/// The session that the last event about `id` describes.
pub open spec fn described(calls: Seq<Call>, id: Seq<char>) -> Option<SessionView> {
    match latest(calls, id) {
        Some(e) => Some(session_for(e, status_after(e.kind, e.background.len() > 0))),
        None => None,
    }
}

/// Whether call `c`, made after `calls`, removes session `id`: a
/// `SessionEnd` about it, `remove` of it, or `clear_finished` while its last
/// event left it `Done`.
pub open spec fn closes(calls: Seq<Call>, c: Call, id: Seq<char>) -> bool {
    match c {
        Call::Apply(e, _) => e.kind == EventKind::SessionEnd && e.session_id == id,
        Call::Remove(x) => x == id,
        Call::ClearFinished => match described(calls, id) {
            Some(s) => s.status == SessionStatus::Done,
            None => false,
        },
        _ => false,
    }
}

/// Whether session `id` is listed after `calls`: an event other than
/// `SessionEnd` applied it, and no call removed it since.
pub open spec fn present(calls: Seq<Call>, id: Seq<char>) -> bool
    decreases calls.len(),
{
    if calls.len() == 0 {
        false
    } else {
        opens(calls.last(), id) || (present(calls.drop_last(), id) && !closes(
            calls.drop_last(),
            calls.last(),
            id,
        ))
    }
}

/// The position in `calls` of the call that put session `id` in the list:
/// the first event about it after it was last removed (-1 when not listed).
pub open spec fn opened_at(calls: Seq<Call>, id: Seq<char>) -> int
    decreases calls.len(),
{
    if calls.len() == 0 {
        -1
    } else if present(calls.drop_last(), id) && !closes(calls.drop_last(), calls.last(), id) {
        opened_at(calls.drop_last(), id)
    } else if opens(calls.last(), id) {
        calls.len() - 1
    } else {
        -1
    }
}

/// The sessions listed after `calls` are exactly the ones present; each id
/// occurs once; each session is the one its last event describes; and they
/// come in the order in which they were put in the list, so that an update
/// never moves a row.
pub open spec fn sessions_follow(calls: Seq<Call>, r: Seq<SessionView>) -> bool {
    &&& distinct_ids(r)
    &&& forall|id: Seq<char>|
        #![trigger has_session(r, id)]
        #![trigger present(calls, id)]
        has_session(r, id) <==> present(calls, id)
    &&& forall|i: int| 0 <= i < r.len() ==> described(calls, #[trigger] r[i].session_id) == Some(r[i])
    &&& forall|i: int| 0 <= i < r.len() ==> 0 <= opened_at(calls, #[trigger] r[i].session_id) < calls.len()
    &&& forall|i: int, j: int|
        #![trigger r[i], r[j]]
        0 <= i < j < r.len() ==> opened_at(calls, r[i].session_id) < opened_at(calls, r[j].session_id)
}

/// The notification history without its cap: one line per applied event
/// that deserved a notification (muted or not) since the last
/// `clear_history`, most recent first.
pub open spec fn notified_entries(calls: Seq<Call>) -> Seq<HistoryView>
    decreases calls.len(),
{
    if calls.len() == 0 {
        Seq::empty()
    } else {
        match calls.last() {
            Call::ClearHistory => Seq::empty(),
            Call::Apply(e, at) => if e.kind != EventKind::SessionEnd {
                match notice_for(e, status_after(e.kind, e.background.len() > 0)) {
                    Some(n) => seq![entry_for(e, n, at)] + notified_entries(calls.drop_last()),
                    None => notified_entries(calls.drop_last()),
                }
            } else {
                notified_entries(calls.drop_last())
            },
            _ => notified_entries(calls.drop_last()),
        }
    }
}

proof fn lemma_capped_prepend(x: HistoryView, h: Seq<HistoryView>)
    ensures
        capped(seq![x] + capped(h)) == capped(seq![x] + h),
{
    if h.len() > HISTORY_LIMIT {
        assert(capped(seq![x] + capped(h)) =~= capped(seq![x] + h));
    }
}

/// After any sequence of calls from the empty state, muted or not, the
/// history lists the events that deserved a notification since the last
/// `clear_history`, most recent first, keeping the latest [`HISTORY_LIMIT`].
pub proof fn law_history_follows_the_calls(calls: Seq<Call>)
    ensures
        run(calls).history == capped(notified_entries(calls)),
        run(calls).history.len() <= HISTORY_LIMIT,
    decreases calls.len(),
{
    if calls.len() > 0 {
        let init = calls.drop_last();
        law_history_follows_the_calls(init);
        match calls.last() {
            Call::Apply(e, at) => {
                if e.kind != EventKind::SessionEnd {
                    match notice_for(e, status_after(e.kind, e.background.len() > 0)) {
                        Some(n) => {
                            lemma_capped_prepend(entry_for(e, n, at), notified_entries(init));
                        },
                        None => {},
                    }
                }
            },
            Call::ClearHistory => {
                assert(capped(Seq::<HistoryView>::empty()) =~= Seq::<HistoryView>::empty());
            },
            _ => {},
        }
    }
}


/// Filtering keeps sessions in an order that a key of their ids increases along.
proof fn lemma_filter_sorted(
    ss: Seq<SessionView>,
    pred: spec_fn(SessionView) -> bool,
    key: spec_fn(Seq<char>) -> int,
)
    requires
        forall|i: int, j: int|
            #![trigger ss[i], ss[j]]
            0 <= i < j < ss.len() ==> key(ss[i].session_id) < key(ss[j].session_id),
    ensures
        forall|i: int, j: int|
            #![trigger ss.filter(pred)[i], ss.filter(pred)[j]]
            0 <= i < j < ss.filter(pred).len() ==> key(ss.filter(pred)[i].session_id) < key(
                ss.filter(pred)[j].session_id,
            ),
    decreases ss.len(),
{
    reveal(Seq::filter);
    if ss.len() > 0 {
        let init = ss.drop_last();
        assert forall|i: int, j: int|
            #![trigger init[i], init[j]]
            0 <= i < j < init.len() implies key(init[i].session_id) < key(init[j].session_id) by {
            assert(init[i] == ss[i] && init[j] == ss[j]);
        }
        lemma_filter_sorted(init, pred, key);
        let sub = init.filter(pred);
        let out = ss.filter(pred);
        if pred(ss.last()) {
            assert(out == sub.push(ss.last()));
            assert forall|i: int, j: int|
                #![trigger out[i], out[j]]
                0 <= i < j < out.len() implies key(out[i].session_id) < key(out[j].session_id) by {
                assert(out[i] == sub[i]);
                if j < sub.len() {
                    assert(out[j] == sub[j]);
                } else {
                    assert(sub.contains(sub[i]));
                    init.lemma_filter_contains_rev(pred, sub[i]);
                    let m = choose|m: int| 0 <= m < init.len() && init[m] == sub[i];
                    assert(ss[m] == init[m]);
                    assert(ss[ss.len() - 1] == out[j]);
                }
            }
        } else {
            assert(out == sub);
        }
    }
}

/// A step that only keeps some of the sessions (`SessionEnd`, `remove`,
/// `clear_finished`): the sessions follow the calls after it.
proof fn lemma_step_sweep(calls: Seq<Call>, pred: spec_fn(SessionView) -> bool)
    requires
        calls.len() > 0,
        sessions_follow(calls.drop_last(), run(calls.drop_last()).sessions),
        run(calls).sessions == run(calls.drop_last()).sessions.filter(pred),
        forall|y: Seq<char>| !opens(calls.last(), y),
        forall|i: int|
            0 <= i < run(calls.drop_last()).sessions.len() ==> (pred(
                #[trigger] run(calls.drop_last()).sessions[i],
            ) <==> !closes(
                calls.drop_last(),
                calls.last(),
                run(calls.drop_last()).sessions[i].session_id,
            )),
    ensures
        sessions_follow(calls, run(calls).sessions),
{
    let init = calls.drop_last();
    let c = calls.last();
    let r0 = run(init).sessions;
    let r = run(calls).sessions;
    lemma_filter_distinct(r0, pred);
    assert forall|y: Seq<char>| latest(calls, y) == latest(init, y) by {
        assert(!opens(c, y));
    }
    assert forall|y: Seq<char>| #[trigger] present(calls, y) == (present(init, y) && !closes(init, c, y)) by {
        assert(!opens(c, y));
    }
    assert forall|y: Seq<char>|
        present(init, y) && !closes(init, c, y) implies #[trigger] opened_at(calls, y) == opened_at(
        init,
        y,
    ) by {}
    // Every listed session comes from the earlier list and passes the sweep.
    assert forall|k: int| 0 <= k < r.len() implies exists|m: int|
        0 <= m < r0.len() && r0[m] == #[trigger] r[k] && pred(r0[m]) by {
        assert(r.contains(r[k]));
        r0.lemma_filter_contains_rev(pred, r[k]);
        r0.lemma_filter_pred(pred, k);
    }
    assert forall|y: Seq<char>|
        #![trigger has_session(r, y)]
        #![trigger present(calls, y)]
        has_session(r, y) <==> present(calls, y) by {
        if has_session(r, y) {
            let k = choose|k: int| 0 <= k < r.len() && #[trigger] r[k].session_id == y;
            let m = choose|m: int| 0 <= m < r0.len() && r0[m] == #[trigger] r[k] && pred(r0[m]);
            assert(r0[m].session_id == y);
            assert(has_session(r0, y));
        }
        if present(calls, y) {
            assert(has_session(r0, y));
            let m = choose|m: int| 0 <= m < r0.len() && #[trigger] r0[m].session_id == y;
            assert(pred(r0[m]));
            r0.lemma_filter_contains(pred, m);
            let k = choose|k: int| 0 <= k < r.len() && r[k] == r0[m];
            assert(r[k].session_id == y);
        }
    }
    assert forall|k: int| 0 <= k < r.len() implies described(calls, #[trigger] r[k].session_id) == Some(
        r[k],
    ) && 0 <= opened_at(calls, r[k].session_id) < calls.len() by {
        let m = choose|m: int| 0 <= m < r0.len() && r0[m] == #[trigger] r[k] && pred(r0[m]);
        assert(described(init, r0[m].session_id) == Some(r0[m]));
        assert(0 <= opened_at(init, r0[m].session_id) < init.len());
        assert(has_session(r0, r0[m].session_id));
    }
    lemma_filter_sorted(r0, pred, |id: Seq<char>| opened_at(init, id));
    assert forall|i: int, j: int|
        #![trigger r[i], r[j]]
        0 <= i < j < r.len() implies opened_at(calls, r[i].session_id) < opened_at(
        calls,
        r[j].session_id,
    ) by {
        let mi = choose|m: int| 0 <= m < r0.len() && r0[m] == #[trigger] r[i] && pred(r0[m]);
        let mj = choose|m: int| 0 <= m < r0.len() && r0[m] == #[trigger] r[j] && pred(r0[m]);
        assert(has_session(r0, r0[mi].session_id));
        assert(has_session(r0, r0[mj].session_id));
    }
}

/// A step that keeps every session as it is (`clear_history`, `set_muted`).
proof fn lemma_step_quiet(calls: Seq<Call>)
    requires
        calls.len() > 0,
        sessions_follow(calls.drop_last(), run(calls.drop_last()).sessions),
        run(calls).sessions == run(calls.drop_last()).sessions,
        forall|y: Seq<char>| !#[trigger] opens(calls.last(), y),
        forall|y: Seq<char>| !#[trigger] closes(calls.drop_last(), calls.last(), y),
    ensures
        sessions_follow(calls, run(calls).sessions),
{
    let init = calls.drop_last();
    let c = calls.last();
    let r = run(calls).sessions;
    assert forall|y: Seq<char>|
        latest(calls, y) == latest(init, y) && #[trigger] present(calls, y) == present(init, y)
            && opened_at(calls, y) == opened_at(init, y) by {
        assert(!opens(c, y) && !closes(init, c, y));
    }
    assert forall|y: Seq<char>|
        #![trigger has_session(r, y)]
        #![trigger present(calls, y)]
        has_session(r, y) <==> present(calls, y) by {
        assert(present(calls, y) == present(init, y));
    }
    assert forall|k: int| 0 <= k < r.len() implies described(calls, #[trigger] r[k].session_id) == Some(
        r[k],
    ) && 0 <= opened_at(calls, r[k].session_id) < calls.len() by {
        assert(described(init, r[k].session_id) == Some(r[k]));
        assert(opened_at(calls, r[k].session_id) == opened_at(init, r[k].session_id));
    }
    assert forall|i: int, j: int|
        #![trigger r[i], r[j]]
        0 <= i < j < r.len() implies opened_at(calls, r[i].session_id) < opened_at(
        calls,
        r[j].session_id,
    ) by {
        assert(opened_at(calls, r[i].session_id) == opened_at(init, r[i].session_id));
        assert(opened_at(calls, r[j].session_id) == opened_at(init, r[j].session_id));
    }
}


/// A step that applies an event other than `SessionEnd`: the sessions
/// follow the calls after it.
proof fn lemma_step_open(calls: Seq<Call>, e: EventView, at: Timestamp)
    requires
        calls.len() > 0,
        calls.last() == Call::Apply(e, at),
        e.kind != EventKind::SessionEnd,
        sessions_follow(calls.drop_last(), run(calls.drop_last()).sessions),
    ensures
        sessions_follow(calls, run(calls).sessions),
{
    let init = calls.drop_last();
    let c = calls.last();
    let r0 = run(init).sessions;
    let r = run(calls).sessions;
    let x = e.session_id;
    let s = session_for(e, status_after(e.kind, e.background.len() > 0));
    law_a_session_updates_in_place(run(init), e, at);
    assert(r == applied(run(init), e, at).sessions);
    assert forall|y: Seq<char>|
        y != x implies latest(calls, y) == latest(init, y) && #[trigger] present(calls, y) == present(
        init,
        y,
    ) && opened_at(calls, y) == opened_at(init, y) by {
        assert(!opens(c, y) && !closes(init, c, y));
    }
    assert(latest(calls, x) == Some(e));
    assert(present(calls, x));
    assert(!closes(init, c, x));
    assert(present(init, x) ==> opened_at(calls, x) == opened_at(init, x));
    assert(!present(init, x) ==> opened_at(calls, x) == calls.len() - 1);
    assert forall|y: Seq<char>|
        #![trigger has_session(r, y)]
        #![trigger present(calls, y)]
        has_session(r, y) <==> present(calls, y) by {
        if y != x {
            if has_session(r, y) {
                let k = choose|k: int| 0 <= k < r.len() && #[trigger] r[k].session_id == y;
                if k < r0.len() {
                    assert(r0[k].session_id == y);
                    assert(has_session(r0, y));
                } else {
                    assert(r[r0.len() as int] == s);
                }
            }
            if present(calls, y) {
                assert(has_session(r0, y));
                let m = choose|m: int| 0 <= m < r0.len() && #[trigger] r0[m].session_id == y;
                assert(r[m].session_id == y);
            }
        }
    }
    // Every session at a new position is the event's session.
    assert forall|k: int| r0.len() <= k < r.len() implies #[trigger] r[k] == s by {
        assert(r[r0.len() as int] == s);
    }
    assert forall|k: int| 0 <= k < r.len() implies described(calls, #[trigger] r[k].session_id) == Some(
        r[k],
    ) && 0 <= opened_at(calls, r[k].session_id) < calls.len() by {
        if r[k].session_id == x {
            assert(r[k] == s);
            if present(init, x) {
                assert(has_session(r0, x));
                let m = choose|m: int| 0 <= m < r0.len() && #[trigger] r0[m].session_id == x;
                assert(0 <= opened_at(init, r0[m].session_id) < init.len());
            }
        } else {
            assert(k < r0.len());
            assert(r[k] == r0[k]);
            assert(described(init, r0[k].session_id) == Some(r0[k]));
            assert(0 <= opened_at(init, r0[k].session_id) < init.len());
        }
    }
    assert forall|m: int| 0 <= m < r0.len() implies opened_at(calls, #[trigger] r0[m].session_id)
        == opened_at(init, r0[m].session_id) by {
        assert(has_session(r0, r0[m].session_id));
    }
    assert forall|i: int, j: int|
        #![trigger r[i], r[j]]
        0 <= i < j < r.len() implies opened_at(calls, r[i].session_id) < opened_at(
        calls,
        r[j].session_id,
    ) by {
        assert(r[i].session_id == r0[i].session_id);
        assert(opened_at(calls, r0[i].session_id) == opened_at(init, r0[i].session_id));
        assert(0 <= opened_at(init, r0[i].session_id) < init.len());
        if j < r0.len() {
            assert(r[j].session_id == r0[j].session_id);
            assert(opened_at(calls, r0[j].session_id) == opened_at(init, r0[j].session_id));
            assert(opened_at(init, r0[i].session_id) < opened_at(init, r0[j].session_id));
        } else {
            assert(r[j] == s);
            assert(!has_session(r0, x));
            assert(r0[i].session_id != x);
        }
    }
}

/// After any sequence of calls from the empty state, the sessions follow the
/// calls: each id occurs once; the ids listed are exactly those an event
/// other than `SessionEnd` applied and that were not removed since (by
/// `SessionEnd`, `remove`, or `clear_finished` while `Done`); each session is
/// what its last event describes; and the sessions come in the order in which
/// they were put in the list, so an update never moves a row.
pub proof fn law_sessions_follow_the_calls(calls: Seq<Call>)
    ensures
        sessions_follow(calls, run(calls).sessions),
    decreases calls.len(),
{
    if calls.len() == 0 {
        let r = run(calls).sessions;
        assert(r =~= Seq::<SessionView>::empty());
        assert forall|y: Seq<char>|
            #![trigger has_session(r, y)]
            #![trigger present(calls, y)]
            has_session(r, y) <==> present(calls, y) by {}
    } else {
        let init = calls.drop_last();
        law_sessions_follow_the_calls(init);
        let r0 = run(init).sessions;
        match calls.last() {
            Call::Apply(e, at) => {
                if e.kind != EventKind::SessionEnd {
                    lemma_step_open(calls, e, at);
                } else {
                    let pred = |s: SessionView| s.session_id != e.session_id;
                    assert forall|y: Seq<char>| !#[trigger] opens(calls.last(), y) by {}
                    lemma_step_sweep(calls, pred);
                }
            },
            Call::Remove(x) => {
                let pred = |s: SessionView| s.session_id != x;
                assert forall|y: Seq<char>| !#[trigger] opens(calls.last(), y) by {}
                lemma_step_sweep(calls, pred);
            },
            Call::ClearFinished => {
                let pred = |s: SessionView| s.status != SessionStatus::Done;
                assert forall|y: Seq<char>| !#[trigger] opens(calls.last(), y) by {}
                assert forall|i: int| 0 <= i < r0.len() implies (pred(#[trigger] r0[i]) <==> !closes(
                    init,
                    calls.last(),
                    r0[i].session_id,
                )) by {
                    assert(described(init, r0[i].session_id) == Some(r0[i]));
                }
                lemma_step_sweep(calls, pred);
            },
            Call::ClearHistory => {
                assert forall|y: Seq<char>| !#[trigger] opens(calls.last(), y) by {}
                assert forall|y: Seq<char>| !#[trigger] closes(init, calls.last(), y) by {}
                lemma_step_quiet(calls);
            },
            Call::SetMuted(_) => {
                assert forall|y: Seq<char>| !#[trigger] opens(calls.last(), y) by {}
                assert forall|y: Seq<char>| !#[trigger] closes(init, calls.last(), y) by {}
                lemma_step_quiet(calls);
            },
        }
    }
}

} // verus!
