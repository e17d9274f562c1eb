use global_hotkey::hotkey::HotKey;
use hijessy::hotkey::{collect_hotkeys, parse_hotkeys, HotkeyAction, HotkeyField, HotkeyIds};
use hijessy::config::HotkeyConfig;
use hijessy::overlay::icons::Icon;
use hijessy::capture::PixelRect;
use hijessy::overlay::{
    crop_selection, frame_end, outcome_effects, windows_on_image, FrameEnd, NumberSequence,
    SessionOutcome, Tool, ToolbarEnd,
};
use hijessy::raster::Raster;
use hijessy::tray::{icon_rgba, TrayAction};
use image::{Rgba, RgbaImage};

#[test]
fn tray_icon_pixels() {
    let px = icon_rgba();
    assert_eq!(px.len(), 16 * 16 * 4);
    let at = |x: usize, y: usize| &px[(y * 16 + x) * 4..(y * 16 + x) * 4 + 4];
    assert_eq!(at(2, 2), &[43, 127, 255, 255]);
    assert_eq!(at(13, 7), &[43, 127, 255, 255]);
    assert_eq!(at(7, 7), &[43, 127, 255, 255]);
    assert_eq!(at(3, 3), &[0, 0, 0, 0]);
    assert_eq!(at(1, 1), &[0, 0, 0, 0]);
    assert_eq!(at(14, 14), &[0, 0, 0, 0]);
    assert_eq!(px.iter().filter(|&&b| b == 43).count(), 44 + 36);
    let _ = TrayAction::Exit;
}

#[test]
fn hotkey_events_map_to_actions() {
    let ids = HotkeyIds { region_id: 1, fullscreen_id: 2, window_id: 3 };
    assert_eq!(ids.action_for(true, 1), Some(HotkeyAction::Region));
    assert_eq!(ids.action_for(true, 2), Some(HotkeyAction::FullScreen));
    assert_eq!(ids.action_for(true, 3), Some(HotkeyAction::Window));
    assert_eq!(ids.action_for(false, 1), None);
    assert_eq!(ids.action_for(true, 4), None);
}

#[test]
fn default_hotkeys_parse_and_bad_ones_are_named() {
    let parsed = parse_hotkeys(&HotkeyConfig::default()).ok().unwrap();
    let ids = parsed.ids();
    assert_ne!(ids.region_id, ids.fullscreen_id);
    assert_ne!(ids.fullscreen_id, ids.window_id);
    let mut cfg = HotkeyConfig::default();
    cfg.fullscreen = "Shift+NoSuchKey".to_owned();
    cfg.window = "++".to_owned();
    let err = parse_hotkeys(&cfg).err().unwrap();
    assert_eq!(err.field, HotkeyField::FullScreen);
    assert_eq!(err.text, "Shift+NoSuchKey");
    assert!(err.reason.contains("NoSuchKey"));
    cfg.fullscreen = "Ctrl+Shift+F".to_owned();
    let err = parse_hotkeys(&cfg).err().unwrap();
    assert_eq!(err.field, HotkeyField::Window);
    assert_eq!(err.text, "++");
    assert!(err.reason.contains("empty token"));
}

#[test]
fn style_panel_opens_for_drawing_tools() {
    assert!(!Tool::Select.shows_style_panel());
    assert!(Tool::Mosaic.shows_style_panel());
    assert_eq!(Tool::default(), Tool::Select);
    assert_ne!(Icon::Undo, Icon::Redo);
}

#[test]
fn outcome_effects_follow_the_outcome() {
    let img = || Raster { image: RgbaImage::new(1, 1) };
    let e = outcome_effects(&SessionOutcome::Confirm(img()), true);
    assert!(e.copy_to_clipboard && !e.save_to_file && e.end_session);
    let e = outcome_effects(&SessionOutcome::Confirm(img()), false);
    assert!(!e.copy_to_clipboard && e.end_session);
    let e = outcome_effects(&SessionOutcome::Save(img()), true);
    assert!(!e.copy_to_clipboard && e.save_to_file && e.end_session);
    let e = outcome_effects(&SessionOutcome::Cancel, true);
    assert!(!e.copy_to_clipboard && !e.save_to_file && e.end_session);
    let e = outcome_effects(&SessionOutcome::Pending, true);
    assert!(!e.end_session);
}

#[test]
fn selection_is_cut_to_the_image() {
    let mut img = RgbaImage::new(10, 8);
    for y in 0..8 {
        for x in 0..10 {
            img.put_pixel(x, y, Rgba([x as u8, y as u8, 0, 255]));
        }
    }
    let r = Raster { image: img };
    let out = crop_selection(&r, 6, 5, 10, 2).unwrap().image;
    assert_eq!(out.dimensions(), (4, 2));
    assert_eq!(*out.get_pixel(0, 0), Rgba([6, 5, 0, 255]));
    assert_eq!(*out.get_pixel(3, 1), Rgba([9, 6, 0, 255]));
    assert!(crop_selection(&r, 10, 0, 5, 5).is_none());
    assert!(crop_selection(&r, 0, 0, 0, 5).is_none());
    assert!(crop_selection(&r, 20, 20, 5, 5).is_none());
}

#[test]
fn stamped_numbers_count_up_from_one() {
    let mut seq = NumberSequence::new();
    assert!(seq.can_take());
    assert_eq!(seq.take(), 1);
    assert_eq!(seq.take(), 2);
    assert_eq!(seq.take(), 3);
    assert!(seq.can_take());
}

#[test]
fn windows_are_moved_into_the_image_and_outside_ones_dropped() {
    let ws = vec![
        PixelRect::new(100, 50, 200, 100),  // inside
        PixelRect::new(-500, 0, 400, 300),  // ends at x = -100 on screen: left of the monitor
        PixelRect::new(1900, 0, 300, 300),  // starts at image x = 1800: right of the image
        PixelRect::new(50, -50, 100, 100),  // overlaps the top-left corner
        PixelRect::new(0, 0, 100, 10),      // ends exactly at the image's left edge
    ];
    let r = windows_on_image(&ws, 100, 0, 1800, 1000);
    assert_eq!(
        r,
        vec![PixelRect::new(0, 50, 200, 100), PixelRect::new(-50, -50, 100, 100)]
    );
}

#[test]
fn frame_end_follows_toolbar_then_escape_then_enter() {
    assert_eq!(frame_end(None, false, false, false, false, false), FrameEnd::Pending);
    assert_eq!(frame_end(Some(ToolbarEnd::Save), true, false, false, true, false), FrameEnd::ToolbarSave);
    assert_eq!(frame_end(Some(ToolbarEnd::Save), false, false, false, true, false), FrameEnd::Pending);
    assert_eq!(frame_end(Some(ToolbarEnd::Confirm), true, false, false, true, false), FrameEnd::ToolbarConfirm);
    assert_eq!(frame_end(Some(ToolbarEnd::Cancel), false, false, false, false, false), FrameEnd::Cancel);
    // Esc overrides the toolbar; Enter on a fixed selection overrides both.
    assert_eq!(frame_end(Some(ToolbarEnd::Save), true, true, false, true, false), FrameEnd::Cancel);
    assert_eq!(frame_end(Some(ToolbarEnd::Cancel), false, true, true, true, true), FrameEnd::EnterConfirm);
    // Enter does nothing before the selection is fixed or without an image.
    assert_eq!(frame_end(None, false, false, true, false, true), FrameEnd::Pending);
    assert_eq!(frame_end(None, false, true, true, true, false), FrameEnd::Cancel);
}

#[test]
fn each_parsed_hotkey_goes_to_its_own_action() {
    let cfg = HotkeyConfig::default();
    let a: HotKey = "Shift+KeyA".parse().unwrap();
    let f: HotKey = "Alt+KeyF".parse().unwrap();
    let w: HotKey = "Shift+Alt+KeyW".parse().unwrap();
    let p = collect_hotkeys(&cfg, Ok(a), Ok(f), Ok(w)).ok().unwrap();
    assert_eq!((p.region, p.fullscreen, p.window), (a, f, w));
    let ids = p.ids();
    assert_eq!((ids.region_id, ids.fullscreen_id, ids.window_id), (a.id(), f.id(), w.id()));
    assert_eq!(ids.action_for(true, f.id()), Some(HotkeyAction::FullScreen));

    let e = collect_hotkeys(&cfg, Ok(a), Err("bad f".to_owned()), Err("bad w".to_owned()))
        .err()
        .unwrap();
    assert_eq!(e.field, HotkeyField::FullScreen);
    assert_eq!(e.text, cfg.fullscreen);
    assert_eq!(e.reason, "bad f");

    // The parsed default hotkeys carry the ids of their own strings.
    let parsed = parse_hotkeys(&cfg).ok().unwrap();
    let region: HotKey = cfg.region.parse().unwrap();
    let full: HotKey = cfg.fullscreen.parse().unwrap();
    let window: HotKey = cfg.window.parse().unwrap();
    let ids = parsed.ids();
    assert_eq!((ids.region_id, ids.fullscreen_id, ids.window_id), (region.id(), full.id(), window.id()));
}
