use hijessy::app::{launch_flags, on_tick, AppFlags, CaptureRequest, TickAction};
use hijessy::hotkey::HotkeyAction;
use hijessy::overlay::{session_start, SelectionMode, SessionStart};
use hijessy::tray::TrayAction;

fn flags(session: bool, settings: bool, pending: Option<CaptureRequest>) -> AppFlags {
    AppFlags { session_active: session, settings_open: settings, pending }
}

const REGION: Option<HotkeyAction> = Some(HotkeyAction::Region);

#[test]
fn hotkey_starts_a_capture_when_idle() {
    let (f, a) = on_tick(flags(false, false, None), REGION, None);
    assert_eq!(a, TickAction::StartSession(CaptureRequest::Hotkey(HotkeyAction::Region)));
    assert_eq!(f.pending, None);
}

#[test]
fn each_hotkey_starts_its_own_capture() {
    for kind in [HotkeyAction::Region, HotkeyAction::FullScreen, HotkeyAction::Window] {
        let (_, a) = on_tick(flags(false, false, None), Some(kind), None);
        assert_eq!(a, TickAction::StartSession(CaptureRequest::Hotkey(kind)));
    }
}

#[test]
fn hotkey_is_ignored_during_a_session() {
    let (f, a) = on_tick(flags(true, false, None), REGION, None);
    assert_eq!(a, TickAction::Stay);
    assert_eq!(f, flags(true, false, None));
}

#[test]
fn hotkey_waits_while_settings_are_open() {
    let full = CaptureRequest::Hotkey(HotkeyAction::FullScreen);
    let (f, a) = on_tick(flags(false, true, None), Some(HotkeyAction::FullScreen), None);
    assert_eq!(a, TickAction::Stay);
    assert_eq!(f.pending, Some(full));
    // Once the settings close, the pending capture starts.
    let (f2, a2) = on_tick(AppFlags { settings_open: false, ..f }, None, None);
    assert_eq!(a2, TickAction::StartSession(full));
    assert_eq!(f2.pending, None);
}

#[test]
fn tray_capture_only_when_nothing_is_open() {
    assert_eq!(
        on_tick(flags(false, false, None), None, Some(TrayAction::Capture)).1,
        TickAction::StartSession(CaptureRequest::Tray)
    );
    assert_eq!(
        on_tick(flags(false, true, None), None, Some(TrayAction::Capture)),
        (flags(false, true, None), TickAction::Stay)
    );
    assert_eq!(on_tick(flags(true, false, None), None, Some(TrayAction::Capture)).1, TickAction::Stay);
}

#[test]
fn tray_settings_open_unless_a_session_runs() {
    assert_eq!(
        on_tick(flags(false, false, None), None, Some(TrayAction::Settings)),
        (flags(false, true, None), TickAction::OpenSettings)
    );
    assert_eq!(
        on_tick(flags(true, false, None), None, Some(TrayAction::Settings)),
        (flags(true, false, None), TickAction::Stay)
    );
    // A hotkey in the same frame stays pending behind the settings window.
    let region = Some(CaptureRequest::Hotkey(HotkeyAction::Region));
    assert_eq!(
        on_tick(flags(false, false, None), REGION, Some(TrayAction::Settings)),
        (flags(false, true, region), TickAction::OpenSettings)
    );
}

#[test]
fn tray_exit_closes() {
    let region = Some(CaptureRequest::Hotkey(HotkeyAction::Region));
    assert_eq!(
        on_tick(flags(false, false, None), REGION, Some(TrayAction::Exit)),
        (flags(false, false, region), TickAction::Exit)
    );
    assert_eq!(on_tick(flags(true, true, None), None, Some(TrayAction::Exit)).1, TickAction::Exit);
}

#[test]
fn sessions_open_as_their_hotkey_asks() {
    assert_eq!(
        session_start(CaptureRequest::Hotkey(HotkeyAction::FullScreen)),
        SessionStart { mode: SelectionMode::FullScreen, locked: true, whole_image: true }
    );
    assert_eq!(
        session_start(CaptureRequest::Hotkey(HotkeyAction::Region)),
        SessionStart { mode: SelectionMode::Custom, locked: false, whole_image: false }
    );
    let window = SessionStart { mode: SelectionMode::Window, locked: false, whole_image: false };
    assert_eq!(session_start(CaptureRequest::Hotkey(HotkeyAction::Window)), window);
    assert_eq!(session_start(CaptureRequest::Tray), window);
}

#[test]
fn the_overlay_opens_at_launch() {
    let f = launch_flags();
    assert_eq!(f, flags(false, false, Some(CaptureRequest::Launch)));
    let (next, a) = on_tick(f, None, None);
    assert_eq!(a, TickAction::StartSession(CaptureRequest::Launch));
    assert_eq!(next.pending, None);
    let window = SessionStart { mode: SelectionMode::Window, locked: false, whole_image: false };
    assert_eq!(session_start(CaptureRequest::Launch), window);
}
