//! Application settings: output directory, image format, clipboard switch, hotkeys.
use vstd::prelude::*;
use std::path::PathBuf;

pub mod hotkeys;

pub use hotkeys::HotkeyConfig;
use hotkeys::default_hotkey_strings;

verus! {

#[verifier::external_type_specification]
#[verifier::external_body]
pub struct ExPathBuf(PathBuf);

/// `<PathBuf as Clone>::clone`: a copy of the path.
#[verifier::external_body]
fn copy_path(p: &PathBuf) -> (r: PathBuf)
    ensures
        r == *p,
{
    p.clone()
}

/// The settings of the application.
#[derive(Debug)]
pub struct Config {
    /// Directory where screenshots are saved.
    pub save_dir: PathBuf,
    /// Image format of saved screenshots: "png" or "jpg".
    pub image_format: String,
    /// Whether a confirmed screenshot goes to the clipboard.
    pub auto_clipboard: bool,
    /// Global hotkeys.
    pub hotkeys: HotkeyConfig,
}

impl Config {
    /// The default settings, saving into `save_dir`: PNG, clipboard on, default hotkeys.
    pub fn with_save_dir(save_dir: PathBuf) -> (c: Self)
        ensures
            c.save_dir == save_dir,
            c.image_format@ == "png"@,
            c.auto_clipboard,
            c.hotkeys.view_strings() == default_hotkey_strings(),
    {
        Config {
            save_dir,
            image_format: "png".to_owned(),
            auto_clipboard: true,
            hotkeys: HotkeyConfig::default(),
        }
    }
}

impl Clone for Config {
    fn clone(&self) -> (c: Self)
        ensures
            c == *self,
    {
        Config {
            save_dir: copy_path(&self.save_dir),
            image_format: self.image_format.clone(),
            auto_clipboard: self.auto_clipboard,
            hotkeys: self.hotkeys.clone(),
        }
    }
}

/// Where the configuration directory is found.
#[derive(Clone, Copy, Debug, PartialEq, Eq, Structural)]
pub enum ConfigBase {
    /// `$XDG_CONFIG_HOME`.
    XdgConfigHome,
    /// `.config` under the home directory.
    HomeDotConfig,
    /// The current directory, `.`.
    CurrentDir,
}

/// The base of the configuration path: `$XDG_CONFIG_HOME` when it is set, else
/// `.config` under the home directory when that is known, else the current directory.
/// The file is `<base>/hijessy/config.toml`.
pub fn config_base(xdg_set: bool, home_known: bool) -> (b: ConfigBase)
    ensures
        b == if xdg_set {
            ConfigBase::XdgConfigHome
        } else if home_known {
            ConfigBase::HomeDotConfig
        } else {
            ConfigBase::CurrentDir
        },
{
    if xdg_set {
        ConfigBase::XdgConfigHome
    } else if home_known {
        ConfigBase::HomeDotConfig
    } else {
        ConfigBase::CurrentDir
    }
}

} // verus!
