//! The reconciler for the host that loads one plugin file: the file is
//! installed by writing the canonical plugin text, and removed by deleting it.

use crate::error::PulseError;
use crate::hooks::{
    file_after, file_holds, file_present, holds_text, home_dir, is_present, join_path, joined,
    one_unit_status, undetected, unit_status, Action, ActionView, FileState, FileWrite, HookStatus,
    Outcome, StatusView, ToolHook,
};
use std::path::PathBuf;
use vstd::prelude::*;

verus! {

/// What was found of the host: its configuration directory and its plugin file.
#[derive(Debug)]
pub struct PluginFiles {
    /// The configuration directory is there: the host is on this machine.
    pub config_dir_exists: bool,
    /// What reading the plugin file gave.
    pub plugin: FileState,
}

/// The integration target that loads one plugin file.
#[derive(Debug, Clone)]
pub struct OpenCodeHook {
    config_dir: PathBuf,
    plugin_path: PathBuf,
    plugin_source: String,
}

/// The state that `status` reports of a plugin file.
pub open spec fn plugin_state(hook: OpenCodeHook, observed: PluginFiles) -> StatusView {
    if !observed.config_dir_exists {
        undetected("OpenCode"@, hook.dir())
    } else {
        let installed = is_present(observed.plugin@);
        unit_status(
            "OpenCode"@,
            "pulse-plugin"@,
            hook.file(),
            installed,
            false,
            if installed && !holds_text(observed.plugin@, hook.source()) {
                Some("Plugin installed but outdated"@)
            } else {
                None
            },
        )
    }
}

/// What `connect` returns for a plugin file: where the file does not hold
/// the canonical text, it is to be written and the status says so.
pub open spec fn plugin_connected(hook: OpenCodeHook, observed: PluginFiles) -> (
    StatusView,
    ActionView,
) {
    if !observed.config_dir_exists {
        (undetected("OpenCode"@, hook.dir()), ActionView::Nothing)
    } else {
        let current = holds_text(observed.plugin@, hook.source());
        (
            unit_status("OpenCode"@, "pulse-plugin"@, hook.file(), true, !current, None),
            if current {
                ActionView::Nothing
            } else {
                ActionView::Write(seq![(hook.file(), hook.source())])
            },
        )
    }
}

/// What `disconnect` returns for a plugin file: where the file is there, it
/// is to be deleted and the status says so.
pub open spec fn plugin_disconnected(hook: OpenCodeHook, observed: PluginFiles) -> (
    StatusView,
    ActionView,
) {
    if !observed.config_dir_exists {
        (undetected("OpenCode"@, hook.dir()), ActionView::Nothing)
    } else {
        let installed = is_present(observed.plugin@);
        (
            unit_status("OpenCode"@, "pulse-plugin"@, hook.file(), false, installed, None),
            if installed {
                ActionView::RemoveFile(hook.file())
            } else {
                ActionView::Nothing
            },
        )
    }
}

impl OpenCodeHook {
    /// The configuration directory of the host.
    pub closed spec fn dir(self) -> PathBuf {
        self.config_dir
    }

    /// The plugin file that this target manages.
    pub closed spec fn file(self) -> PathBuf {
        self.plugin_path
    }

    /// The canonical text of the plugin.
    pub closed spec fn source(self) -> Seq<char> {
        self.plugin_source@
    }

    /// The target with the given configuration directory and plugin file,
    /// for the canonical plugin text `plugin_source`.
    pub fn at(config_dir: PathBuf, plugin_path: PathBuf, plugin_source: String) -> (hook:
        OpenCodeHook)
        ensures
            hook.dir() == config_dir,
            hook.file() == plugin_path,
            hook.source() == plugin_source@,
    {
        OpenCodeHook { config_dir, plugin_path, plugin_source }
    }

    /// The target of the user whose home directory is `home`, or the error
    /// `HomeDirNotFound` where there is none.
    pub fn in_home(home: Option<PathBuf>, plugin_source: String) -> (outcome: Result<
        OpenCodeHook,
        PulseError,
    >)
        ensures
            match home {
                Some(base) => {
                    &&& outcome matches Ok(hook)
                    &&& hook.dir() == joined(base, ".config/opencode"@)
                    &&& hook.file() == joined(
                        joined(hook.dir(), "plugins"@),
                        "pulse-plugin.ts"@,
                    )
                    &&& hook.source() == plugin_source@
                },
                None => outcome matches Err(error) && error is HomeDirNotFound,
            },
    {
        match home {
            Some(base) => {
                let config_dir = join_path(&base, ".config/opencode");
                let plugins = join_path(&config_dir, "plugins");
                let plugin_path = join_path(&plugins, "pulse-plugin.ts");
                Ok(OpenCodeHook { config_dir, plugin_path, plugin_source })
            },
            None => Err(PulseError::HomeDirNotFound),
        }
    }

    /// The target of the current user, for the canonical plugin text
    /// `plugin_source`: its paths lie below the user's home directory,
    /// whichever that turns out to be. Without a home directory the error is
    /// `HomeDirNotFound`.
    pub fn new(plugin_source: String) -> (outcome: Result<OpenCodeHook, PulseError>)
        ensures
            match outcome {
                Ok(hook) => {
                    &&& exists|home: PathBuf|
                        hook.dir() == #[trigger] joined(home, ".config/opencode"@)
                    &&& hook.file() == joined(
                        joined(hook.dir(), "plugins"@),
                        "pulse-plugin.ts"@,
                    )
                    &&& hook.source() == plugin_source@
                },
                Err(error) => error is HomeDirNotFound,
            },
    {
        let home = home_dir();
        let ghost found = home;
        let outcome = OpenCodeHook::in_home(home, plugin_source);
        proof {
            if let Some(base) = found {
                assert(outcome->Ok_0.dir() == joined(base, ".config/opencode"@));
            }
        }
        outcome
    }

    /// The configuration directory of the host.
    pub fn config_dir(&self) -> (path: PathBuf)
        ensures
            path == self.dir(),
    {
        self.config_dir.clone()
    }

    /// The plugin file that this target manages.
    pub fn plugin_path(&self) -> (path: PathBuf)
        ensures
            path == self.file(),
    {
        self.plugin_path.clone()
    }

    /// The canonical text of the plugin.
    pub fn plugin_source(&self) -> (text: &str)
        ensures
            text@ == self.source(),
    {
        self.plugin_source.as_str()
    }

    /// Whether the host is on this machine.
    pub fn is_detected(&self, observed: &PluginFiles) -> (detected: bool)
        ensures
            detected == observed.config_dir_exists,
    {
        observed.config_dir_exists
    }

    /// Whether the plugin file is there.
    pub fn plugin_installed(&self, observed: &PluginFiles) -> (installed: bool)
        ensures
            installed == is_present(observed.plugin@),
    {
        file_present(&observed.plugin)
    }

    /// Whether the plugin file holds the canonical text.
    pub fn plugin_matches(&self, observed: &PluginFiles) -> (current: bool)
        ensures
            current == holds_text(observed.plugin@, self.source()),
    {
        file_holds(&observed.plugin, self.plugin_source.as_str())
    }
}

impl ToolHook for OpenCodeHook {
    type Observation = PluginFiles;

    open spec fn found(observed: PluginFiles) -> bool {
        observed.config_dir_exists
    }

    open spec fn name(&self) -> Seq<char> {
        "OpenCode"@
    }

    fn tool_name(&self) -> (name: &'static str) {
        "OpenCode"
    }

    /// The state of the plugin file: installed where the file is there, with
    /// a message where it does not hold the canonical text.
    fn status(&self, observed: PluginFiles) -> (outcome: Result<HookStatus, PulseError>)
        ensures
            outcome matches Ok(status) && status@ == plugin_state(*self, observed),
    {
        if !self.is_detected(&observed) {
            return Ok(HookStatus::not_detected("OpenCode", self.config_dir.clone()));
        }
        let installed = self.plugin_installed(&observed);
        let up_to_date = installed && self.plugin_matches(&observed);
        let message = if installed && !up_to_date {
            Some("Plugin installed but outdated".to_owned())
        } else {
            None
        };
        Ok(
            one_unit_status(
                "OpenCode",
                "pulse-plugin",
                self.plugin_path.clone(),
                installed,
                false,
                message,
            ),
        )
    }

    /// Asks for the canonical text to be written unless the file holds it.
    fn connect(&self, observed: PluginFiles) -> (outcome: Result<Outcome, PulseError>)
        ensures
            outcome matches Ok(done) && (done.status@, done.action@) == plugin_connected(
                *self,
                observed,
            ),
    {
        if !self.is_detected(&observed) {
            return Ok(
                Outcome {
                    status: HookStatus::not_detected("OpenCode", self.config_dir.clone()),
                    action: Action::Nothing,
                },
            );
        }
        let already_current = self.plugin_installed(&observed) && self.plugin_matches(&observed);
        let mut action = Action::Nothing;
        if !already_current {
            let mut files: Vec<FileWrite> = Vec::new();
            files.push(
                FileWrite { path: self.plugin_path.clone(), contents: self.plugin_source.clone() },
            );
            action = Action::Write(files);
            assert(action@->Write_0 =~= seq![(self.file(), self.source())]);
        }
        Ok(
            Outcome {
                status: one_unit_status(
                    "OpenCode",
                    "pulse-plugin",
                    self.plugin_path.clone(),
                    true,
                    !already_current,
                    None,
                ),
                action,
            },
        )
    }

    /// Asks for the plugin file to be deleted where it is there.
    fn disconnect(&self, observed: PluginFiles) -> (outcome: Result<Outcome, PulseError>)
        ensures
            outcome matches Ok(done) && (done.status@, done.action@) == plugin_disconnected(
                *self,
                observed,
            ),
    {
        if !self.is_detected(&observed) {
            return Ok(
                Outcome {
                    status: HookStatus::not_detected("OpenCode", self.config_dir.clone()),
                    action: Action::Nothing,
                },
            );
        }
        let was_installed = self.plugin_installed(&observed);
        let action = if was_installed {
            Action::RemoveFile(self.plugin_path.clone())
        } else {
            Action::Nothing
        };
        Ok(
            Outcome {
                status: one_unit_status(
                    "OpenCode",
                    "pulse-plugin",
                    self.plugin_path.clone(),
                    false,
                    was_installed,
                    None,
                ),
                action,
            },
        )
    }
}

/// Installing brings the plugin file to the canonical text and says so: on a
/// detected host whose file does not hold the canonical text, `connect`
/// reports a modification and asks for a write after which the file holds
/// it; on a host whose file holds it, `connect` reports no modification and
/// asks for nothing. So a second `connect` never modifies.
pub proof fn law_plugin_upgrade(
    hook: OpenCodeHook,
    observed: PluginFiles,
    later: PluginFiles,
)
    requires
        observed.config_dir_exists,
        later.config_dir_exists,
        later.plugin@ == file_after(
            observed.plugin@,
            hook.file(),
            plugin_connected(hook, observed).1,
        ),
    ensures
        plugin_connected(hook, observed).0.modified == !holds_text(
            observed.plugin@,
            hook.source(),
        ),
        holds_text(later.plugin@, hook.source()),
        !plugin_connected(hook, later).0.modified,
        plugin_connected(hook, later).1 is Nothing,
{
    let files = seq![(hook.file(), hook.source())];
    assert(files.last() == (hook.file(), hook.source()));
}

} // verus!
