//! The settings panel: a draft of the configuration that the user edits, and the
//! error shown when saving it failed.
use vstd::prelude::*;

use crate::config::Config;

verus! {

/// What the settings panel asks of the application.
pub enum SettingsAction {
    NoAction,
    Save(Config),
    Close,
}

/// The next step of saving the settings.
#[derive(Clone, Copy, Debug, PartialEq, Eq, Structural)]
pub enum SaveStep {
    /// The hotkeys were registered: write the configuration file.
    WriteConfig,
    /// The file was written: use the new configuration and close the panel.
    Apply,
    /// A step failed: the panel stays open and shows why.
    Stay,
}

/// The message shown when the new hotkeys cannot be registered.
pub open spec fn hotkey_error_text(reason: Seq<char>) -> Seq<char> {
    "快捷键无效或已被占用："@ + reason
}

/// The message shown when the configuration file cannot be written.
pub open spec fn write_error_text(reason: Seq<char>) -> Seq<char> {
    "保存配置失败："@ + reason
}

/// `prefix` followed by `reason`.
fn prefixed(prefix: &str, reason: &str) -> (s: String)
    ensures
        s@ == prefix@ + reason@,
{
    let mut s = prefix.to_owned();
    s.append(reason);
    s
}

/// The state of the settings panel.
pub struct SettingsPanel {
    draft: Config,
    error: Option<String>,
}

impl SettingsPanel {
    /// The configuration being edited.
    pub closed spec fn draft_config(&self) -> Config {
        self.draft
    }

    /// The error on display, if any.
    pub closed spec fn error_text(&self) -> Option<String> {
        self.error
    }

    /// A panel editing a copy of `config`, with no error.
    pub fn new(config: &Config) -> (p: Self)
        ensures
            p.draft_config() == *config,
            p.error_text() is None,
    {
        SettingsPanel { draft: config.clone(), error: None }
    }

    /// Shows `error`; the draft stays.
    pub fn set_error(&mut self, error: String)
        ensures
            final(self).error_text() == Some(error),
            final(self).draft_config() == old(self).draft_config(),
    {
        self.error = Some(error);
    }

    /// The configuration being edited.
    pub fn draft(&self) -> (c: &Config)
        ensures
            *c == self.draft_config(),
    {
        &self.draft
    }

    /// The configuration being edited, for the editing widgets; the error stays.
    pub fn draft_mut(&mut self) -> (c: &mut Config)
        ensures
            *c == old(self).draft_config(),
            final(self).draft_config() == *final(c),
            final(self).error_text() == old(self).error_text(),
    {
        &mut self.draft
    }

    /// The error on display, if any.
    pub fn error(&self) -> (e: Option<&String>)
        ensures
            match self.error_text() {
                Some(s) => e == Some(&s),
                None => e is None,
            },
    {
        self.error.as_ref()
    }

    /// The save button: the error is cleared and a copy of the draft is handed out to be saved.
    pub fn request_save(&mut self) -> (a: SettingsAction)
        ensures
            final(self).error_text() is None,
            final(self).draft_config() == old(self).draft_config(),
            a == SettingsAction::Save(old(self).draft_config()),
    {
        self.error = None;
        SettingsAction::Save(self.draft.clone())
    }
    /// After the new hotkeys were registered (`Ok`) or refused: the file is written
    /// next, or the panel shows why the hotkeys were refused.
    pub fn after_hotkeys(&mut self, registered: Result<(), String>) -> (step: SaveStep)
        ensures
            final(self).draft_config() == old(self).draft_config(),
            match registered {
                Ok(()) => step == SaveStep::WriteConfig && final(self).error_text()
                    == old(self).error_text(),
                Err(reason) => step == SaveStep::Stay && (final(self).error_text() matches Some(t)
                    && t@ == hotkey_error_text(reason@)),
            },
    {
        match registered {
            Ok(()) => SaveStep::WriteConfig,
            Err(reason) => {
                self.error = Some(prefixed("快捷键无效或已被占用：", reason.as_str()));
                SaveStep::Stay
            },
        }
    }

    /// After the configuration file was written (`Ok`) or not: the new configuration
    /// is used, or the panel shows why the file was not written.
    pub fn after_write(&mut self, written: Result<(), String>) -> (step: SaveStep)
        ensures
            final(self).draft_config() == old(self).draft_config(),
            match written {
                Ok(()) => step == SaveStep::Apply && final(self).error_text()
                    == old(self).error_text(),
                Err(reason) => step == SaveStep::Stay && (final(self).error_text() matches Some(t)
                    && t@ == write_error_text(reason@)),
            },
    {
        match written {
            Ok(()) => SaveStep::Apply,
            Err(reason) => {
                self.error = Some(prefixed("保存配置失败：", reason.as_str()));
                SaveStep::Stay
            },
        }
    }
}

} // verus!
