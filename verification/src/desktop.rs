//! The desktop shell's decisions around Background sync: with the hub on, the
//! app outlives its window as a menu-bar agent that keeps syncing; with it off,
//! closing the last window quits. The shell performs what these decide.
use vstd::prelude::*;
use crate::link::eq_str;

verus! {

/// What turning Background sync on or off does to the shell.
#[derive(Debug, Clone, Copy, PartialEq, Eq)]
pub struct SyncEffects {
    /// Whether the tray icon is shown (only while the hub is on, so it is not
    /// menu-bar clutter otherwise).
    pub tray_visible: bool,
    /// Whether the app is registered to launch at login.
    pub launch_at_login: bool,
    /// Whether the process exits now: the hub was turned off while running
    /// with no window, so nothing is left to keep it around for.
    pub exit: bool,
}

/// What the app menu's Quit (Cmd+Q) does.
#[derive(Debug, Clone, Copy, PartialEq, Eq)]
pub enum QuitAction {
    /// Close the main window; the agent lives on.
    CloseWindow,
    /// Quit the process.
    Exit,
}

/// The tray menu's entries, by what they do.
#[derive(Debug, Clone, Copy, PartialEq, Eq)]
pub enum TrayAction {
    /// "Open Vellum": bring the main window back.
    Show,
    /// "Turn off background sync".
    StopSync,
    /// "Quit Vellum": a hard quit.
    Quit,
    /// Anything else (the disabled status line).
    Ignore,
}

/// Whether Background sync is on, as the running shell remembers it.
pub struct Hub {
    live_sync: bool,
}

impl Hub {
    pub closed spec fn live(&self) -> bool {
        self.live_sync
    }

    /// The setting starts off until the frontend or a login launch turns it on.
    pub fn new() -> (h: Hub)
        ensures
            !h.live(),
    {
        Hub { live_sync: false }
    }

    pub fn is_live(&self) -> (b: bool)
        ensures
            b == self.live(),
    {
        self.live_sync
    }

    /// Remember the setting and say what follows from it: the tray icon and
    /// launch-at-login follow it, and turning it off with no window open
    /// exits.
    pub fn set_background_sync(&mut self, enabled: bool, windows_open: bool) -> (fx: SyncEffects)
        ensures
            final(self).live() == enabled,
            fx.tray_visible == enabled,
            fx.launch_at_login == enabled,
            fx.exit == (!enabled && !windows_open),
    {
        self.live_sync = enabled;
        SyncEffects { tray_visible: enabled, launch_at_login: enabled, exit: !enabled && !windows_open }
    }

    /// Whether a request to exit is prevented. An implicit exit (the last
    /// window closed, or Cmd+Q) carries no code and is prevented while the hub
    /// is on; an explicit exit carries a code and never is.
    pub fn prevents_exit(&self, code: Option<i32>) -> (b: bool)
        ensures
            b == (code is None && self.live()),
    {
        code.is_none() && self.live_sync
    }

    /// Cmd+Q: with the hub on, only the window closes.
    pub fn on_menu_quit(&self) -> (a: QuitAction)
        ensures
            self.live() ==> a == QuitAction::CloseWindow,
            !self.live() ==> a == QuitAction::Exit,
    {
        if self.live_sync {
            QuitAction::CloseWindow
        } else {
            QuitAction::Exit
        }
    }
}

/// The tray menu entry with id `id`.
pub fn tray_action(id: &str) -> (a: TrayAction)
    ensures
        id@ == "show"@ ==> a == TrayAction::Show,
        id@ == "stop"@ ==> a == TrayAction::StopSync,
        id@ == "quit"@ ==> a == TrayAction::Quit,
        id@ != "show"@ && id@ != "stop"@ && id@ != "quit"@ ==> a == TrayAction::Ignore,
{
    proof {
        reveal_strlit("show");
        reveal_strlit("stop");
        reveal_strlit("quit");
        assert("show"@[1] != "stop"@[1] && "show"@[0] != "quit"@[0] && "stop"@[0] != "quit"@[0]);
    }
    if eq_str(id, "show") {
        TrayAction::Show
    } else if eq_str(id, "stop") {
        TrayAction::StopSync
    } else if eq_str(id, "quit") {
        TrayAction::Quit
    } else {
        TrayAction::Ignore
    }
}

/// Whether the process was started at login (its arguments hold
/// `--autostart`), in which case it runs window-less as a menu-bar agent.
pub fn started_at_login(args: &Vec<String>) -> (b: bool)
    ensures
        b == exists|i: int| 0 <= i < args@.len() && #[trigger] args@[i]@ == "--autostart"@,
{
    let mut i: usize = 0;
    while i < args.len()
        invariant
            i <= args@.len(),
            forall|k: int| 0 <= k < i ==> #[trigger] args@[k]@ != "--autostart"@,
        decreases args@.len() - i,
    {
        if eq_str(args[i].as_str(), "--autostart") {
            return true;
        }
        i = i + 1;
    }
    false
}

} // verus!
