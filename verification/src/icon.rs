//! Which icon the tray shows.
//!
//! The item has a *base* icon that says whose tray this is, and an *overlay*
//! badge that says what is happening. The base is a matter of taste: the
//! bundled mark by default, or any icon name of the user's theme.

use vstd::prelude::*;

use crate::state::{status_icon, SessionStatus};

verus! {

/// Icon name for the bundled mark, installed as
/// `hicolor/scalable/apps/zeo-systray.svg`.
pub const BUNDLED: &'static str = "zeo-systray";

#[derive(Debug, Clone)]
pub struct IconSet {
    /// Base icon name — the identity of the tray.
    pub base: String,
    /// Extra directory prepended to the theme search path. Lets the daemon
    /// run from a build tree, before anything is installed system-wide.
    pub theme_path: String,
}

impl IconSet {
    /// The icon set for the given settings (`ZEO_SYSTRAY_ICON` and
    /// `ZEO_SYSTRAY_ICON_PATH`, when set): the bundled mark and no extra
    /// search directory by default.
    pub fn from_settings(icon: Option<String>, icon_path: Option<String>) -> (r: IconSet)
        ensures
            r.base@ == (match icon {
                Some(name) => name@,
                None => BUNDLED@,
            }),
            r.theme_path@ == (match icon_path {
                Some(dir) => dir@,
                None => Seq::<char>::empty(),
            }),
    {
        let base = match icon {
            Some(name) => name,
            None => BUNDLED.to_owned(),
        };
        let theme_path = match icon_path {
            Some(dir) => dir,
            None => String::new(),
        };
        IconSet { base, theme_path }
    }
}

/// The badge drawn over the base icon for a status; empty for no badge.
/// `Running` and `Done` carry none: a badge on every turn is noise.
pub open spec fn status_overlay(s: SessionStatus) -> Seq<char> {
    match s {
        SessionStatus::Running => ""@,
        SessionStatus::Done => ""@,
        SessionStatus::Background => "system-run"@,
        SessionStatus::Failed => "dialog-error"@,
        SessionStatus::NeedsYou => "dialog-question"@,
    }
}

impl SessionStatus {
    /// Small badge drawn over the base icon; empty for no badge.
    pub fn overlay_icon_name(self) -> (r: &'static str)
        ensures
            r@ == status_overlay(self),
    {
        match self {
            SessionStatus::Running => "",
            SessionStatus::Done => "",
            SessionStatus::Background => "system-run",
            SessionStatus::Failed => "dialog-error",
            SessionStatus::NeedsYou => "dialog-question",
        }
    }
}

/// Only the states worth a glance carry a badge: running and idle have none,
/// every other state has one.
pub proof fn law_only_unusual_states_are_badged(s: SessionStatus)
    ensures
        status_overlay(s).len() == 0 <==> (s == SessionStatus::Running || s == SessionStatus::Done),
{
    reveal_strlit("");
    reveal_strlit("system-run");
    reveal_strlit("dialog-error");
    reveal_strlit("dialog-question");
}


/// A badge, when there is one, is the status's own icon: the running icon
/// for work left behind, the error badge for a failure, the question badge
/// when someone is needed.
pub proof fn law_badge_is_the_status_icon(s: SessionStatus)
    ensures
        s != SessionStatus::Running && s != SessionStatus::Done ==> status_overlay(s) == status_icon(s),
        status_overlay(SessionStatus::Background) == "system-run"@,
        status_overlay(SessionStatus::Failed) == "dialog-error"@,
        status_overlay(SessionStatus::NeedsYou) == "dialog-question"@,
        status_overlay(SessionStatus::Running) == Seq::<char>::empty(),
        status_overlay(SessionStatus::Done) == Seq::<char>::empty(),
{
    reveal_strlit("");
}

} // verus!
