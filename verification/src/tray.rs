//! What the StatusNotifierItem shows, decided from the tray state.
//!
//! The D-Bus side (the `ksni::Tray` implementation) lives in the program
//! around this library and asks [`AgentTray`] for every value it publishes:
//! the icon names, the item status, the tooltip and the menu.

use vstd::prelude::*;

use crate::icon::{status_overlay, IconSet};
use crate::protocol::Event;
use crate::state::{
    applied, live_sessions, model_wf, raised, session_line, status_icon, worst, Notification,
    SessionStatus, SessionView, Timestamp, TrayModel, TrayState,
};

verus! {

/// Title of the item and of its tooltip.
pub const TITLE: &'static str = "Agent sessions";

/// The tray: the state it draws and the icons it draws with.
pub struct AgentTray {
    pub state: TrayState,
    icons: IconSet,
}

/// How the item asks for attention. `NeedsAttention` is what makes a host
/// such as Plasma highlight the item.
#[derive(Debug, Clone, Copy, PartialEq, Eq, Structural)]
pub enum ItemStatus {
    Active,
    NeedsAttention,
}

/// What a menu entry does when activated.
#[derive(Debug, Clone, Copy, PartialEq, Eq, Structural)]
pub enum MenuAction {
    Nothing,
    ClearFinished,
    Quit,
}

/// One entry of the tray menu.
#[derive(Debug)]
pub enum MenuEntry {
    Item { label: String, icon_name: String, enabled: bool, action: MenuAction },
    Separator,
}

/// The mathematical value of a [`MenuEntry`].
pub enum MenuEntryView {
    Item { label: Seq<char>, icon_name: Seq<char>, enabled: bool, action: MenuAction },
    Separator,
}

impl View for MenuEntry {
    type V = MenuEntryView;

    open spec fn view(&self) -> MenuEntryView {
        match self {
            MenuEntry::Item { label, icon_name, enabled, action } => MenuEntryView::Item {
                label: label@,
                icon_name: icon_name@,
                enabled: *enabled,
                action: *action,
            },
            MenuEntry::Separator => MenuEntryView::Separator,
        }
    }
}

impl DeepView for MenuEntry {
    type V = MenuEntryView;

    open spec fn deep_view(&self) -> MenuEntryView {
        self@
    }
}

/// The inert menu row of a session: its menu line and its status icon.
pub open spec fn session_row(s: SessionView) -> MenuEntryView {
    MenuEntryView::Item {
        label: session_line(s),
        icon_name: status_icon(s.status),
        enabled: false,
        action: MenuAction::Nothing,
    }
}

/// The menu: one inert row per session (or a single inert "No agent
/// sessions" row), a separator, then "Clear finished" and "Quit".
pub open spec fn menu_of(ss: Seq<SessionView>) -> Seq<MenuEntryView> {
    let rows = if ss.len() == 0 {
        seq![
            MenuEntryView::Item {
                label: "No agent sessions"@,
                icon_name: ""@,
                enabled: false,
                action: MenuAction::Nothing,
            },
        ]
    } else {
        ss.map_values(|s: SessionView| session_row(s))
    };
    rows + seq![
        MenuEntryView::Separator,
        MenuEntryView::Item {
            label: "Clear finished"@,
            icon_name: "edit-clear-history"@,
            enabled: true,
            action: MenuAction::ClearFinished,
        },
        MenuEntryView::Item {
            label: "Quit"@,
            icon_name: "application-exit"@,
            enabled: true,
            action: MenuAction::Quit,
        },
    ]
}

impl AgentTray {
    /// The contents of the state the tray draws.
    pub closed spec fn state_view(&self) -> TrayModel {
        self.state@
    }

    /// The base icon name.
    pub closed spec fn base_icon(&self) -> Seq<char> {
        self.icons.base@
    }

    /// The extra icon search directory.
    pub closed spec fn theme_dir(&self) -> Seq<char> {
        self.icons.theme_path@
    }

    pub fn new(state: TrayState, icons: IconSet) -> (r: Self)
        ensures
            r.state_view() == state@,
            r.base_icon() == icons.base@,
            r.theme_dir() == icons.theme_path@,
    {
        AgentTray { state, icons }
    }

    /// The base icon is the brand, not the status: an icon that changes
    /// shape every turn is hard to find in a full tray.
    pub fn icon_name(&self) -> (r: String)
        ensures
            r@ == self.base_icon(),
    {
        self.icons.base.clone()
    }

    /// Extra theme directory; empty in a normal installation.
    pub fn icon_theme_path(&self) -> (r: String)
        ensures
            r@ == self.theme_dir(),
    {
        self.icons.theme_path.clone()
    }

    /// The badge for the aggregate status; empty for the states not worth
    /// flagging.
    pub fn overlay_icon_name(&self) -> (r: String)
        ensures
            r@ == status_overlay(worst(self.state_view().sessions)),
    {
        self.state.aggregate().overlay_icon_name().to_owned()
    }

    /// `NeedsAttention` is reserved for the one state where a person is
    /// actually blocked.
    pub fn status(&self) -> (r: ItemStatus)
        ensures
            r == (if worst(self.state_view().sessions) == SessionStatus::NeedsYou {
                ItemStatus::NeedsAttention
            } else {
                ItemStatus::Active
            }),
    {
        match self.state.aggregate() {
            SessionStatus::NeedsYou => ItemStatus::NeedsAttention,
            _ => ItemStatus::Active,
        }
    }

    /// Keeps the brand while the host is highlighting the item.
    pub fn attention_icon_name(&self) -> (r: String)
        ensures
            r@ == self.base_icon(),
    {
        self.icons.base.clone()
    }

    /// The menu entries, top to bottom.
    pub fn menu(&self) -> (r: Vec<MenuEntry>)
        ensures
            r.deep_view() == menu_of(self.state_view().sessions),
    {
        let ghost ss = self.state@.sessions;
        let sessions = self.state.sessions();
        let mut items: Vec<MenuEntry> = Vec::new();
        if sessions.len() == 0 {
            items.push(
                MenuEntry::Item {
                    label: "No agent sessions".to_owned(),
                    icon_name: String::new(),
                    enabled: false,
                    action: MenuAction::Nothing,
                },
            );
            proof {
                reveal_strlit("");
                assert(sessions@.map_values(|s: crate::state::Session| s@).len() == 0);
                assert(""@ =~= Seq::<char>::empty());
                assert(items.deep_view() =~= seq![
                    MenuEntryView::Item {
                        label: "No agent sessions"@,
                        icon_name: ""@,
                        enabled: false,
                        action: MenuAction::Nothing,
                    },
                ]);
            }
        } else {
            let n = sessions.len();
            let mut i: usize = 0;
            while i < n
                invariant
                    n == sessions@.len(),
                    sessions@.map_values(|s: crate::state::Session| s@) == ss,
                    i <= n,
                    items.deep_view() =~= ss.take(i as int).map_values(|s: SessionView| session_row(s)),
                decreases n - i,
            {
                let ghost before = items.deep_view();
                let s = &sessions[i];
                proof {
                    assert(s@ == ss[i as int]);
                }
                items.push(
                    MenuEntry::Item {
                        label: s.menu_label(),
                        icon_name: s.status.icon_name().to_owned(),
                        enabled: false,
                        action: MenuAction::Nothing,
                    },
                );
                proof {
                    assert(items.deep_view() =~= before.push(session_row(ss[i as int])));
                    assert(ss.take(i + 1) =~= ss.take(i as int).push(ss[i as int]));
                }
                i = i + 1;
            }
            proof {
                assert(ss.take(n as int) =~= ss);
            }
        }
        let ghost rows = items.deep_view();
        proof {
            if ss.len() == 0 {
                assert(rows =~= seq![
                    MenuEntryView::Item {
                        label: "No agent sessions"@,
                        icon_name: ""@,
                        enabled: false,
                        action: MenuAction::Nothing,
                    },
                ]);
            } else {
                assert(rows =~= ss.map_values(|s: SessionView| session_row(s)));
            }
        }
        items.push(MenuEntry::Separator);
        let ghost a = items.deep_view();
        proof {
            assert(a =~= rows.push(MenuEntryView::Separator));
        }
        items.push(
            MenuEntry::Item {
                label: "Clear finished".to_owned(),
                icon_name: "edit-clear-history".to_owned(),
                enabled: true,
                action: MenuAction::ClearFinished,
            },
        );
        let ghost b = items.deep_view();
        proof {
            assert(b =~= a.push(MenuEntryView::Item {
                label: "Clear finished"@,
                icon_name: "edit-clear-history"@,
                enabled: true,
                action: MenuAction::ClearFinished,
            }));
        }
        items.push(
            MenuEntry::Item {
                label: "Quit".to_owned(),
                icon_name: "application-exit".to_owned(),
                enabled: true,
                action: MenuAction::Quit,
            },
        );
        proof {
            assert(items.deep_view() =~= b.push(MenuEntryView::Item {
                label: "Quit"@,
                icon_name: "application-exit"@,
                enabled: true,
                action: MenuAction::Quit,
            }));
        }
        proof {
            assert(items.deep_view() =~= menu_of(ss));
        }
        items
    }

    /// Folds one event into the tray's state (see [`TrayState::apply`]); the
    /// icons stay as they are.
    pub fn apply(&mut self, event: Event) -> (r: Option<Notification>)
        ensures
            model_wf(final(self).state_view()),
            exists|at: Timestamp|
                at.nanos < 1_000_000_000 && #[trigger] applied(old(self).state_view(), event@, at)
                    == final(self).state_view(),
            r.deep_view() == raised(old(self).state_view(), event@),
            final(self).base_icon() == old(self).base_icon(),
            final(self).theme_dir() == old(self).theme_dir(),
    {
        self.state.apply(event)
    }

    /// [`AgentTray::apply`] with the time of the event given.
    pub fn apply_at(&mut self, event: Event, at: Timestamp) -> (r: Option<Notification>)
        ensures
            model_wf(final(self).state_view()),
            final(self).state_view() == applied(old(self).state_view(), event@, at),
            r.deep_view() == raised(old(self).state_view(), event@),
            final(self).base_icon() == old(self).base_icon(),
            final(self).theme_dir() == old(self).theme_dir(),
    {
        self.state.apply_at(event, at)
    }

    /// Carries out a menu action. Returns whether the program should quit;
    /// "Clear finished" drops the finished sessions, the other entries change
    /// nothing.
    pub fn activate(&mut self, action: MenuAction) -> (quit: bool)
        ensures
            quit == (action == MenuAction::Quit),
            final(self).base_icon() == old(self).base_icon(),
            final(self).theme_dir() == old(self).theme_dir(),
            action == MenuAction::ClearFinished ==> final(self).state_view() == (TrayModel {
                sessions: live_sessions(old(self).state_view().sessions),
                history: old(self).state_view().history,
                muted: old(self).state_view().muted,
            }),
            action != MenuAction::ClearFinished ==> final(self).state_view() == old(self).state_view(),
    {
        match action {
            MenuAction::ClearFinished => {
                self.state.clear_finished();
                false
            },
            MenuAction::Quit => true,
            MenuAction::Nothing => false,
        }
    }
}

/// The item asks for attention exactly when some session is blocked on the
/// user.
pub proof fn law_attention_means_someone_is_blocked(ss: Seq<SessionView>)
    ensures
        worst(ss) == SessionStatus::NeedsYou <==> exists|i: int|
            0 <= i < ss.len() && #[trigger] ss[i].status == SessionStatus::NeedsYou,
{
    crate::state::law_aggregate_is_the_worst(ss);
    if exists|i: int| 0 <= i < ss.len() && #[trigger] ss[i].status == SessionStatus::NeedsYou {
        let i = choose|i: int| 0 <= i < ss.len() && #[trigger] ss[i].status == SessionStatus::NeedsYou;
        crate::state::law_blocked_session_outranks_all(ss, i);
    }
}


/// The menu has one inert row per session, in order, showing its menu line
/// and status icon (or a single inert "No agent sessions" row), followed by a
/// separator, "Clear finished" and "Quit", the only entries that act.
pub proof fn law_menu_rows(ss: Seq<SessionView>)
    ensures
        ({
            let menu = menu_of(ss);
            let rows = if ss.len() == 0 { 1int } else { ss.len() as int };
            &&& menu.len() == rows + 3
            &&& ss.len() == 0 ==> menu[0] == MenuEntryView::Item {
                label: "No agent sessions"@,
                icon_name: Seq::empty(),
                enabled: false,
                action: MenuAction::Nothing,
            }
            &&& forall|i: int|
                0 <= i < ss.len() ==> #[trigger] menu[i] == MenuEntryView::Item {
                    label: session_line(ss[i]),
                    icon_name: status_icon(ss[i].status),
                    enabled: false,
                    action: MenuAction::Nothing,
                }
            &&& menu[rows] == MenuEntryView::Separator
            &&& menu[rows + 1] == MenuEntryView::Item {
                label: "Clear finished"@,
                icon_name: "edit-clear-history"@,
                enabled: true,
                action: MenuAction::ClearFinished,
            }
            &&& menu[rows + 2] == MenuEntryView::Item {
                label: "Quit"@,
                icon_name: "application-exit"@,
                enabled: true,
                action: MenuAction::Quit,
            }
        }),
{
    reveal_strlit("");
    let front = if ss.len() == 0 {
        seq![
            MenuEntryView::Item {
                label: "No agent sessions"@,
                icon_name: ""@,
                enabled: false,
                action: MenuAction::Nothing,
            },
        ]
    } else {
        ss.map_values(|s: SessionView| session_row(s))
    };
    let tail = seq![
        MenuEntryView::Separator,
        MenuEntryView::Item {
            label: "Clear finished"@,
            icon_name: "edit-clear-history"@,
            enabled: true,
            action: MenuAction::ClearFinished,
        },
        MenuEntryView::Item {
            label: "Quit"@,
            icon_name: "application-exit"@,
            enabled: true,
            action: MenuAction::Quit,
        },
    ];
    let menu = menu_of(ss);
    assert(menu == front + tail);
    assert(""@ =~= Seq::<char>::empty());
    let rows = front.len() as int;
    assert(menu[rows] == tail[0]);
    assert(menu[rows + 1] == tail[1]);
    assert(menu[rows + 2] == tail[2]);
    assert forall|i: int| 0 <= i < ss.len() implies #[trigger] menu[i] == session_row(ss[i]) by {
        assert(menu[i] == front[i]);
    }
}

} // verus!
