//! The decisions of the application loop.
//!
//! The application stays hidden and idle until a global hotkey or the tray asks
//! for a capture; a capture starts only when no session and no settings window
//! is open, and it is the kind of capture that was asked for. Each frame,
//! `on_tick` takes the pending events and says what to do.
use vstd::prelude::*;

use crate::hotkey::HotkeyAction;
use crate::tray::TrayAction;

verus! {

/// What asked for a capture: the start of the program, the tray menu, or one of the
/// three global hotkeys.
#[derive(Clone, Copy, Debug, PartialEq, Eq, Structural)]
pub enum CaptureRequest {
    /// The program was started: it opens the capture overlay at once.
    Launch,
    Tray,
    Hotkey(HotkeyAction),
}

/// What the loop knows between frames.
#[derive(Clone, Copy, Debug, PartialEq, Eq, Structural)]
pub struct AppFlags {
    /// A capture session (the overlay) is open.
    pub session_active: bool,
    /// The settings window is open.
    pub settings_open: bool,
    /// A capture that was asked for and has not started yet; the latest request wins.
    pub pending: Option<CaptureRequest>,
}

/// What the loop does in a frame.
#[derive(Clone, Copy, Debug, PartialEq, Eq, Structural)]
pub enum TickAction {
    /// Nothing.
    Stay,
    /// Close the application.
    Exit,
    /// Open the settings window.
    OpenSettings,
    /// Hide the window and start the capture session that was asked for.
    StartSession(CaptureRequest),
}

/// The state at launch: nothing is open and a capture is pending, so the first frame
/// opens the capture overlay.
pub fn launch_flags() -> (f: AppFlags)
    ensures
        f == (AppFlags {
            session_active: false,
            settings_open: false,
            pending: Some(CaptureRequest::Launch),
        }),
{
    AppFlags { session_active: false, settings_open: false, pending: Some(CaptureRequest::Launch) }
}

/// The flags after the hotkey and tray events of a frame, before a session may start.
pub open spec fn flags_after_events(
    s: AppFlags,
    hotkey: Option<HotkeyAction>,
    tray: Option<TrayAction>,
) -> AppFlags {
    let pending = match hotkey {
        Some(a) if !s.session_active => Some(CaptureRequest::Hotkey(a)),
        _ => s.pending,
    };
    match tray {
        Some(TrayAction::Capture) if !s.session_active && !s.settings_open => AppFlags {
            pending: Some(CaptureRequest::Tray),
            ..s
        },
        Some(TrayAction::Settings) if !s.session_active => AppFlags {
            pending: pending,
            settings_open: true,
            ..s
        },
        _ => AppFlags { pending: pending, ..s },
    }
}

/// The flags and the action of a frame.
pub open spec fn tick(s: AppFlags, hotkey: Option<HotkeyAction>, tray: Option<TrayAction>) -> (
    AppFlags,
    TickAction,
) {
    let e = flags_after_events(s, hotkey, tray);
    if tray == Some(TrayAction::Exit) {
        (e, TickAction::Exit)
    } else if e.pending is Some && !e.session_active && !e.settings_open {
        (AppFlags { pending: None, ..e }, TickAction::StartSession(e.pending->0))
    } else if tray == Some(TrayAction::Settings) && !s.session_active {
        (e, TickAction::OpenSettings)
    } else {
        (e, TickAction::Stay)
    }
}

/// Handles one frame: a hotkey asks for its kind of capture when no session is open;
/// the tray asks for a capture when nothing is open, opens the settings when no
/// session is open, or exits; then a pending capture starts when nothing is open.
pub fn on_tick(s: AppFlags, hotkey: Option<HotkeyAction>, tray: Option<TrayAction>) -> (r: (
    AppFlags,
    TickAction,
))
    ensures
        r == tick(s, hotkey, tray),
{
    let mut flags = s;
    let mut action = TickAction::Stay;
    match hotkey {
        Some(a) => {
            if !flags.session_active {
                flags.pending = Some(CaptureRequest::Hotkey(a));
            }
        },
        None => {},
    }
    match tray {
        Some(TrayAction::Capture) => {
            if !flags.session_active && !flags.settings_open {
                flags.pending = Some(CaptureRequest::Tray);
            }
        },
        Some(TrayAction::Settings) => {
            if !flags.session_active {
                flags.settings_open = true;
                action = TickAction::OpenSettings;
            }
        },
        Some(TrayAction::Exit) => {
            return (flags, TickAction::Exit);
        },
        None => {},
    }
    if !flags.session_active && !flags.settings_open {
        match flags.pending {
            Some(req) => {
                flags.pending = None;
                action = TickAction::StartSession(req);
            },
            None => {},
        }
    }
    (flags, action)
}

/// A session is never started while one is open or while the settings window is
/// open, a started capture is no longer pending, and a hotkey pressed while idle
/// starts its own kind of capture in that frame.
pub proof fn law_start_only_when_idle(
    s: AppFlags,
    hotkey: Option<HotkeyAction>,
    tray: Option<TrayAction>,
)
    ensures
        tick(s, hotkey, tray).1 is StartSession ==> !s.session_active && !s.settings_open
            && tick(s, hotkey, tray).0.pending is None,
        tick(s, hotkey, tray).1 == TickAction::OpenSettings ==> !s.session_active,
        s.session_active ==> tick(s, hotkey, tray).1 == TickAction::Stay || tick(
            s,
            hotkey,
            tray,
        ).1 == TickAction::Exit,
        tick(s, hotkey, tray).0.session_active == s.session_active,
        hotkey is Some && !s.session_active && !s.settings_open && tray is None ==> tick(
            s,
            hotkey,
            tray,
        ).1 == TickAction::StartSession(CaptureRequest::Hotkey(hotkey->0)),
{
}

} // verus!
