//! Hotkey settings, written in the global-hotkey syntax such as
//! `CmdOrCtrl+Shift+KeyA` (`CmdOrCtrl` is Command on macOS and Ctrl elsewhere).
use vstd::prelude::*;

verus! {

/// The three capture hotkeys.
#[derive(Debug)]
pub struct HotkeyConfig {
    /// Region capture.
    pub region: String,
    /// Full-screen capture.
    pub fullscreen: String,
    /// Window capture.
    pub window: String,
}

impl HotkeyConfig {
    /// The three hotkey strings.
    pub open spec fn view_strings(&self) -> (Seq<char>, Seq<char>, Seq<char>) {
        (self.region@, self.fullscreen@, self.window@)
    }
}

/// The hotkeys a fresh configuration has.
pub open spec fn default_hotkey_strings() -> (Seq<char>, Seq<char>, Seq<char>) {
    ("CmdOrCtrl+Shift+KeyA"@, "CmdOrCtrl+Shift+KeyF"@, "CmdOrCtrl+Shift+KeyW"@)
}

impl Default for HotkeyConfig {
    fn default() -> (c: Self)
        ensures
            c.view_strings() == default_hotkey_strings(),
    {
        HotkeyConfig {
            region: "CmdOrCtrl+Shift+KeyA".to_owned(),
            fullscreen: "CmdOrCtrl+Shift+KeyF".to_owned(),
            window: "CmdOrCtrl+Shift+KeyW".to_owned(),
        }
    }
}

impl Clone for HotkeyConfig {
    fn clone(&self) -> (c: Self)
        ensures
            c == *self,
    {
        HotkeyConfig {
            region: self.region.clone(),
            fullscreen: self.fullscreen.clone(),
            window: self.window.clone(),
        }
    }
}

} // verus!
