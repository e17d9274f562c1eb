//! Global hotkeys: parsing the configured strings and telling which capture a
//! pressed hotkey asks for.
use vstd::prelude::*;
use global_hotkey::hotkey::HotKey;

use crate::config::HotkeyConfig;

verus! {

#[verifier::external_type_specification]
#[verifier::external_body]
pub struct ExHotKey(HotKey);

/// The capture a hotkey asks for.
#[derive(Clone, Copy, Debug, PartialEq, Eq, Structural)]
pub enum HotkeyAction {
    Region,
    FullScreen,
    Window,
}

/// Which of the three configured hotkeys a parse error is about.
#[derive(Clone, Copy, Debug, PartialEq, Eq, Structural)]
pub enum HotkeyField {
    Region,
    FullScreen,
    Window,
}

/// A configured hotkey string that global-hotkey could not parse.
#[derive(Debug)]
pub struct HotkeyParseFailure {
    /// The setting the string came from.
    pub field: HotkeyField,
    /// The string itself.
    pub text: String,
    /// What the parser said.
    pub reason: String,
}

/// The identifiers of the three registered hotkeys.
#[derive(Clone, Copy, Debug, PartialEq, Eq, Structural)]
pub struct HotkeyIds {
    pub region_id: u32,
    pub fullscreen_id: u32,
    pub window_id: u32,
}

/// The three parsed hotkeys, ready to be registered.
pub struct ParsedHotkeys {
    pub region: HotKey,
    pub fullscreen: HotKey,
    pub window: HotKey,
}

/// The identifier a hotkey carries.
pub uninterp spec fn hotkey_code(k: HotKey) -> u32;

/// `HotKey::id`: the identifier stored in the hotkey.
#[verifier::external_body]
fn hotkey_id(k: &HotKey) -> (id: u32)
    ensures
        id == hotkey_code(*k),
{
    k.id()
}

/// What global-hotkey's parser says is wrong with a hotkey string: `None` when the
/// string parses, else the message of its error. Which strings parse, and the
/// messages, do not depend on the platform.
pub uninterp spec fn hotkey_parse_error(text: Seq<char>) -> Option<Seq<char>>;

/// `<HotKey as FromStr>::from_str`. Whether it succeeds, and the message of its error,
/// are named by `hotkey_parse_error`. The hotkey it returns is not stated: the
/// modifier `CmdOrCtrl` is read as Command on macOS and as Ctrl elsewhere.
#[verifier::external_body]
fn parse_hotkey(text: &str) -> (r: Result<HotKey, String>)
    ensures
        match r {
            Ok(_) => hotkey_parse_error(text@) is None,
            Err(m) => hotkey_parse_error(text@) == Some(m@),
        },
{
    match text.parse::<HotKey>() {
        Ok(k) => Ok(k),
        Err(e) => Err(e.to_string()),
    }
}

/// The first of the three configured strings, in the order region, full screen,
/// window, that does not parse: its setting, the string and the parser's message.
pub open spec fn first_hotkey_failure(cfg: HotkeyConfig) -> Option<
    (HotkeyField, Seq<char>, Seq<char>),
> {
    match hotkey_parse_error(cfg.region@) {
        Some(m) => Some((HotkeyField::Region, cfg.region@, m)),
        None => match hotkey_parse_error(cfg.fullscreen@) {
            Some(m) => Some((HotkeyField::FullScreen, cfg.fullscreen@, m)),
            None => match hotkey_parse_error(cfg.window@) {
                Some(m) => Some((HotkeyField::Window, cfg.window@, m)),
                None => None,
            },
        },
    }
}

/// The first of the three parse results, in the order region, full screen, window,
/// that failed: its setting, the configured string and the parser's message.
pub open spec fn first_failed(
    cfg: HotkeyConfig,
    region: Result<HotKey, String>,
    fullscreen: Result<HotKey, String>,
    window: Result<HotKey, String>,
) -> Option<(HotkeyField, Seq<char>, Seq<char>)> {
    match region {
        Err(m) => Some((HotkeyField::Region, cfg.region@, m@)),
        Ok(_) => match fullscreen {
            Err(m) => Some((HotkeyField::FullScreen, cfg.fullscreen@, m@)),
            Ok(_) => match window {
                Err(m) => Some((HotkeyField::Window, cfg.window@, m@)),
                Ok(_) => None,
            },
        },
    }
}

/// Binds the results of parsing the region, full-screen and window strings of `cfg`
/// to their actions: each parsed hotkey goes to its own action, and the first failure,
/// in that order, is reported with its setting, its string and the parser's message.
pub fn collect_hotkeys(
    cfg: &HotkeyConfig,
    region: Result<HotKey, String>,
    fullscreen: Result<HotKey, String>,
    window: Result<HotKey, String>,
) -> (r: Result<ParsedHotkeys, HotkeyParseFailure>)
    ensures
        match first_failed(*cfg, region, fullscreen, window) {
            Some((field, text, reason)) => r matches Err(e) && e.field == field && e.text@
                == text && e.reason@ == reason,
            None => r matches Ok(p) && p.region == region->Ok_0 && p.fullscreen
                == fullscreen->Ok_0 && p.window == window->Ok_0,
        },
{
    let region = match region {
        Ok(k) => k,
        Err(reason) => {
            return Err(
                HotkeyParseFailure { field: HotkeyField::Region, text: cfg.region.clone(), reason },
            );
        },
    };
    let fullscreen = match fullscreen {
        Ok(k) => k,
        Err(reason) => {
            return Err(
                HotkeyParseFailure {
                    field: HotkeyField::FullScreen,
                    text: cfg.fullscreen.clone(),
                    reason,
                },
            );
        },
    };
    let window = match window {
        Ok(k) => k,
        Err(reason) => {
            return Err(
                HotkeyParseFailure { field: HotkeyField::Window, text: cfg.window.clone(), reason },
            );
        },
    };
    Ok(ParsedHotkeys { region, fullscreen, window })
}

/// Parses the three configured hotkeys and binds each to its action
/// (`collect_hotkeys`); the first string, in the order region, full screen, window,
/// that does not parse is reported.
pub fn parse_hotkeys(cfg: &HotkeyConfig) -> (r: Result<ParsedHotkeys, HotkeyParseFailure>)
    ensures
        match first_hotkey_failure(*cfg) {
            None => r is Ok,
            Some((field, text, reason)) => r matches Err(e) && e.field == field && e.text@
                == text && e.reason@ == reason,
        },
{
    let region = parse_hotkey(cfg.region.as_str());
    let fullscreen = parse_hotkey(cfg.fullscreen.as_str());
    let window = parse_hotkey(cfg.window.as_str());
    collect_hotkeys(cfg, region, fullscreen, window)
}

impl ParsedHotkeys {
    /// The identifiers of the three hotkeys.
    pub fn ids(&self) -> (ids: HotkeyIds)
        ensures
            ids.region_id == hotkey_code(self.region),
            ids.fullscreen_id == hotkey_code(self.fullscreen),
            ids.window_id == hotkey_code(self.window),
    {
        HotkeyIds {
            region_id: hotkey_id(&self.region),
            fullscreen_id: hotkey_id(&self.fullscreen),
            window_id: hotkey_id(&self.window),
        }
    }
}

/// The action of a hotkey event, in the order region, full screen, window.
pub open spec fn action_of(ids: HotkeyIds, pressed: bool, id: u32) -> Option<HotkeyAction> {
    if !pressed {
        None
    } else if id == ids.region_id {
        Some(HotkeyAction::Region)
    } else if id == ids.fullscreen_id {
        Some(HotkeyAction::FullScreen)
    } else if id == ids.window_id {
        Some(HotkeyAction::Window)
    } else {
        None
    }
}

impl HotkeyIds {
    /// The capture a hotkey event asks for: only presses count, and only of one of the
    /// three registered hotkeys. Releases and other hotkeys give `None`.
    pub fn action_for(&self, pressed: bool, id: u32) -> (a: Option<HotkeyAction>)
        ensures
            a == action_of(*self, pressed, id),
    {
        if !pressed {
            return None;
        }
        if id == self.region_id {
            return Some(HotkeyAction::Region);
        }
        if id == self.fullscreen_id {
            return Some(HotkeyAction::FullScreen);
        }
        if id == self.window_id {
            return Some(HotkeyAction::Window);
        }
        None
    }
}

} // verus!
