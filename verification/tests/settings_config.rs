use std::path::PathBuf;

use hijessy::config::{config_base, Config, ConfigBase, HotkeyConfig};
use hijessy::fonts::{candidates, first_parsing, FontPlatform};
use hijessy::settings::{SaveStep, SettingsAction, SettingsPanel};

#[test]
fn default_hotkeys() {
    let h = HotkeyConfig::default();
    assert_eq!(h.region, "CmdOrCtrl+Shift+KeyA");
    assert_eq!(h.fullscreen, "CmdOrCtrl+Shift+KeyF");
    assert_eq!(h.window, "CmdOrCtrl+Shift+KeyW");
}

#[test]
fn default_config_with_a_directory() {
    let c = Config::with_save_dir(PathBuf::from("/tmp/shots"));
    assert_eq!(c.save_dir, PathBuf::from("/tmp/shots"));
    assert_eq!(c.image_format, "png");
    assert!(c.auto_clipboard);
    assert_eq!(c.hotkeys.window, "CmdOrCtrl+Shift+KeyW");
    let copy = c.clone();
    assert_eq!(copy.save_dir, c.save_dir);
    assert_eq!(copy.hotkeys.region, c.hotkeys.region);
}

#[test]
fn settings_panel_edits_a_copy() {
    let c = Config::with_save_dir(PathBuf::from("/pics"));
    let mut p = SettingsPanel::new(&c);
    assert!(p.error().is_none());
    p.draft_mut().image_format = "jpg".to_owned();
    p.set_error("bad hotkey".to_owned());
    assert_eq!(p.error().map(|s| s.as_str()), Some("bad hotkey"));
    assert_eq!(c.image_format, "png");
    match p.request_save() {
        SettingsAction::Save(saved) => {
            assert_eq!(saved.image_format, "jpg");
            assert_eq!(saved.save_dir, PathBuf::from("/pics"));
        }
        _ => panic!("expected a save"),
    }
    assert!(p.error().is_none());
    assert_eq!(p.draft().image_format, "jpg");
    let _ = SettingsAction::Close;
    let _ = SettingsAction::NoAction;
}

#[test]
fn font_candidates_per_platform() {
    let mac = candidates(FontPlatform::MacOs);
    assert_eq!(mac.len(), 4);
    assert_eq!(mac[0], ("/System/Library/Fonts/PingFang.ttc", 0));
    let win = candidates(FontPlatform::Windows);
    assert_eq!(win[3], ("C:/Windows/Fonts/segoeui.ttf", 0));
    let unix = candidates(FontPlatform::Unix);
    assert_eq!(unix.len(), 5);
    assert_eq!(unix[4], ("/usr/share/fonts/truetype/dejavu/DejaVuSans.ttf", 0));
}

#[test]
fn the_first_candidate_that_parses_is_loaded() {
    let defs = eframe::egui::FontDefinitions::default();
    let ubuntu = defs.font_data["Ubuntu-Light"].font.to_vec();
    let hack = defs.font_data["Hack"].font.to_vec();
    let files = vec![
        (b"not a font".to_vec(), 0),
        (ubuntu.clone(), 0),
        (hack, 0),
    ];
    let (i, loaded) = first_parsing(&files).unwrap();
    assert_eq!(i, 1);
    assert_eq!(loaded.bytes, ubuntu);
    assert_eq!(loaded.index, 0);
    assert!(first_parsing(&vec![(vec![0u8; 16], 0), (b"OTTO".to_vec(), 0)]).is_none());
    assert!(first_parsing(&Vec::new()).is_none());
}

#[test]
fn saving_registers_hotkeys_then_writes_then_applies() {
    let cfg = Config::with_save_dir(PathBuf::from("/tmp/shots"));
    let mut panel = SettingsPanel::new(&cfg);
    assert_eq!(panel.after_hotkeys(Err("busy".to_owned())), SaveStep::Stay);
    assert_eq!(panel.error().unwrap(), "快捷键无效或已被占用：busy");
    assert_eq!(panel.after_hotkeys(Ok(())), SaveStep::WriteConfig);
    assert_eq!(panel.after_write(Err("disk full".to_owned())), SaveStep::Stay);
    assert_eq!(panel.error().unwrap(), "保存配置失败：disk full");
    assert_eq!(panel.after_write(Ok(())), SaveStep::Apply);
    assert_eq!(panel.draft().save_dir, PathBuf::from("/tmp/shots"));
}

#[test]
fn config_directory_falls_back_in_order() {
    assert_eq!(config_base(true, true), ConfigBase::XdgConfigHome);
    assert_eq!(config_base(true, false), ConfigBase::XdgConfigHome);
    assert_eq!(config_base(false, true), ConfigBase::HomeDotConfig);
    assert_eq!(config_base(false, false), ConfigBase::CurrentDir);
}
