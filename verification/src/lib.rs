//! A desktop tray indicator for coding-agent sessions: the verified core.
//!
//! The hook side narrows a hook payload into an [`protocol::Event`]; the daemon
//! side folds events into a [`state::TrayState`] and derives from it the icon,
//! the tooltip, the menu and the desktop notifications. Everything that talks
//! to the outside world (stdin, the socket, D-Bus, the environment, process
//! spawning) lives in the program around this library.

pub mod calls;
pub mod daemon;
pub mod icon;
pub mod open;
pub mod protocol;
pub mod state;
pub mod text;
pub mod tray;
