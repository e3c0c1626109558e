//! The system tray menu: its actions and labels. The tray itself (a
//! StatusNotifierItem) and the channel that carries its actions are run by
//! the application.

use vstd::prelude::*;

verus! {

/// What the user picked in the tray menu.
#[derive(Debug, Clone, Copy, PartialEq, Eq, Structural)]
pub enum TrayAction {
    ShowWindow,
    NextWallpaper,
    TogglePause,
    Quit,
}

/// Title of the tray tool tip: `Papery - Paused` or `Papery - Running`.
pub fn tool_tip_title(paused: bool) -> (r: String)
    ensures
        r@ == if paused { "Papery - Paused"@ } else { "Papery - Running"@ },
{
    if paused {
        "Papery - Paused".to_string()
    } else {
        "Papery - Running".to_string()
    }
}

/// Label of the pause entry of the tray menu: `Resume` while paused,
/// `Pause` otherwise.
pub fn pause_label(paused: bool) -> (r: String)
    ensures
        r@ == if paused { "Resume"@ } else { "Pause"@ },
{
    if paused {
        "Resume".to_string()
    } else {
        "Pause".to_string()
    }
}

} // verus!
