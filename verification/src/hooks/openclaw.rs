//! The reconciler for the host that loads a hook from a directory of its
//! own: a description and a handler script, installed and removed together.

use crate::error::PulseError;
use crate::hooks::{
    file_after, file_holds, file_present, holds_text, home_dir, is_present, join_path, joined,
    one_unit_status, undetected, unit_status, Action, ActionView, FileState, FileWrite, HookStatus,
    Outcome, StatusView, ToolHook,
};
use std::path::PathBuf;
use vstd::prelude::*;

verus! {

/// What was found of the host: its configuration directory and the two
/// files of the hook.
#[derive(Debug)]
pub struct HookFiles {
    /// The configuration directory is there: the host is on this machine.
    pub config_dir_exists: bool,
    /// What reading the description gave.
    pub hook_md: FileState,
    /// What reading the handler script gave.
    pub handler_ts: FileState,
}

/// The integration target that loads a hook from a directory of its own.
#[derive(Debug, Clone)]
pub struct OpenClawHook {
    config_dir: PathBuf,
    hook_dir: PathBuf,
    hook_md_path: PathBuf,
    handler_ts_path: PathBuf,
    hook_md_source: String,
    handler_ts_source: String,
}

/// Both files of the hook are there. One of them alone does not count.
pub open spec fn both_present(observed: HookFiles) -> bool {
    is_present(observed.hook_md@) && is_present(observed.handler_ts@)
}

/// Something of the hook is there: one of its files, or both.
pub open spec fn any_present(observed: HookFiles) -> bool {
    is_present(observed.hook_md@) || is_present(observed.handler_ts@)
}

/// Both files of the hook hold their canonical text.
pub open spec fn both_current(hook: OpenClawHook, observed: HookFiles) -> bool {
    holds_text(observed.hook_md@, hook.description()) && holds_text(
        observed.handler_ts@,
        hook.handler(),
    )
}

/// The state that `status` reports of the hook's files.
pub open spec fn hook_state(hook: OpenClawHook, observed: HookFiles) -> StatusView {
    if !observed.config_dir_exists {
        undetected("OpenClaw"@, hook.dir())
    } else {
        let installed = both_present(observed);
        unit_status(
            "OpenClaw"@,
            "pulse-hook"@,
            hook.hook_dir_path(),
            installed,
            false,
            if installed && !both_current(hook, observed) {
                Some("Hook installed but outdated"@)
            } else {
                None
            },
        )
    }
}

/// The two files of the hook with their canonical text, in the order in
/// which they are written.
pub open spec fn canonical_files(hook: OpenClawHook) -> Seq<(PathBuf, Seq<char>)> {
    seq![(hook.description_path(), hook.description()), (hook.handler_path(), hook.handler())]
}

/// What `connect` returns for the hook's files: unless both hold their
/// canonical text, both are to be written and the status says so.
pub open spec fn hook_connected(hook: OpenClawHook, observed: HookFiles) -> (
    StatusView,
    ActionView,
) {
    if !observed.config_dir_exists {
        (undetected("OpenClaw"@, hook.dir()), ActionView::Nothing)
    } else {
        let current = both_current(hook, observed);
        (
            unit_status("OpenClaw"@, "pulse-hook"@, hook.hook_dir_path(), true, !current, None),
            if current {
                ActionView::Nothing
            } else {
                ActionView::Write(canonical_files(hook))
            },
        )
    }
}

/// What `disconnect` returns for the hook's files: where one of them is
/// there, or both, the hook's directory is to be deleted and the status says
/// so. The hook counts as removed either way.
pub open spec fn hook_disconnected(hook: OpenClawHook, observed: HookFiles) -> (
    StatusView,
    ActionView,
) {
    if !observed.config_dir_exists {
        (undetected("OpenClaw"@, hook.dir()), ActionView::Nothing)
    } else {
        let present = any_present(observed);
        (
            unit_status("OpenClaw"@, "pulse-hook"@, hook.hook_dir_path(), false, present, None),
            if present {
                ActionView::RemoveDir(hook.hook_dir_path())
            } else {
                ActionView::Nothing
            },
        )
    }
}

impl OpenClawHook {
    /// The configuration directory of the host.
    pub closed spec fn dir(self) -> PathBuf {
        self.config_dir
    }

    /// The directory that this target owns.
    pub closed spec fn hook_dir_path(self) -> PathBuf {
        self.hook_dir
    }

    /// The file of the description.
    pub closed spec fn description_path(self) -> PathBuf {
        self.hook_md_path
    }

    /// The file of the handler script.
    pub closed spec fn handler_path(self) -> PathBuf {
        self.handler_ts_path
    }

    /// The canonical text of the description.
    pub closed spec fn description(self) -> Seq<char> {
        self.hook_md_source@
    }

    /// The canonical text of the handler script.
    pub closed spec fn handler(self) -> Seq<char> {
        self.handler_ts_source@
    }

    /// The target with the given configuration directory, the given
    /// directory of its own, and the two files `HOOK.md` and `handler.ts` in
    /// that directory, for the canonical texts given.
    pub fn at(
        config_dir: PathBuf,
        hook_dir: PathBuf,
        hook_md_source: String,
        handler_ts_source: String,
    ) -> (hook: OpenClawHook)
        ensures
            hook.dir() == config_dir,
            hook.hook_dir_path() == hook_dir,
            hook.description_path() == joined(hook_dir, "HOOK.md"@),
            hook.handler_path() == joined(hook_dir, "handler.ts"@),
            hook.description() == hook_md_source@,
            hook.handler() == handler_ts_source@,
    {
        let hook_md_path = join_path(&hook_dir, "HOOK.md");
        let handler_ts_path = join_path(&hook_dir, "handler.ts");
        OpenClawHook {
            config_dir,
            hook_dir,
            hook_md_path,
            handler_ts_path,
            hook_md_source,
            handler_ts_source,
        }
    }

    /// The target of the user whose home directory is `home`, for the
    /// canonical texts given, or the error `HomeDirNotFound` where there is
    /// no home directory.
    pub fn in_home(home: Option<PathBuf>, hook_md_source: String, handler_ts_source: String) -> (outcome:
        Result<OpenClawHook, PulseError>)
        ensures
            match home {
                Some(base) => {
                    &&& outcome matches Ok(hook)
                    &&& hook.dir() == joined(base, ".openclaw"@)
                    &&& hook.hook_dir_path() == joined(joined(hook.dir(), "hooks"@), "pulse-hook"@)
                    &&& hook.description_path() == joined(hook.hook_dir_path(), "HOOK.md"@)
                    &&& hook.handler_path() == joined(hook.hook_dir_path(), "handler.ts"@)
                    &&& hook.description() == hook_md_source@
                    &&& hook.handler() == handler_ts_source@
                },
                None => outcome matches Err(error) && error is HomeDirNotFound,
            },
    {
        match home {
            Some(base) => {
                let config_dir = join_path(&base, ".openclaw");
                let hooks = join_path(&config_dir, "hooks");
                let hook_dir = join_path(&hooks, "pulse-hook");
                let hook_md_path = join_path(&hook_dir, "HOOK.md");
                let handler_ts_path = join_path(&hook_dir, "handler.ts");
                Ok(
                    OpenClawHook {
                        config_dir,
                        hook_dir,
                        hook_md_path,
                        handler_ts_path,
                        hook_md_source,
                        handler_ts_source,
                    },
                )
            },
            None => Err(PulseError::HomeDirNotFound),
        }
    }

    /// The target of the current user, for the canonical texts given: its
    /// paths lie below the user's home directory, whichever that turns out to
    /// be. Without a home directory the error is `HomeDirNotFound`.
    pub fn new(hook_md_source: String, handler_ts_source: String) -> (outcome: Result<
        OpenClawHook,
        PulseError,
    >)
        ensures
            match outcome {
                Ok(hook) => {
                    &&& exists|home: PathBuf| hook.dir() == #[trigger] joined(home, ".openclaw"@)
                    &&& hook.hook_dir_path() == joined(joined(hook.dir(), "hooks"@), "pulse-hook"@)
                    &&& hook.description_path() == joined(hook.hook_dir_path(), "HOOK.md"@)
                    &&& hook.handler_path() == joined(hook.hook_dir_path(), "handler.ts"@)
                    &&& hook.description() == hook_md_source@
                    &&& hook.handler() == handler_ts_source@
                },
                Err(error) => error is HomeDirNotFound,
            },
    {
        let home = home_dir();
        let ghost found = home;
        let outcome = OpenClawHook::in_home(home, hook_md_source, handler_ts_source);
        proof {
            if let Some(base) = found {
                assert(outcome->Ok_0.dir() == joined(base, ".openclaw"@));
            }
        }
        outcome
    }

    /// The configuration directory of the host.
    pub fn config_dir(&self) -> (path: PathBuf)
        ensures
            path == self.dir(),
    {
        self.config_dir.clone()
    }

    /// The directory that this target owns.
    pub fn hook_dir(&self) -> (path: PathBuf)
        ensures
            path == self.hook_dir_path(),
    {
        self.hook_dir.clone()
    }

    /// The file of the description.
    pub fn hook_md_path(&self) -> (path: PathBuf)
        ensures
            path == self.description_path(),
    {
        self.hook_md_path.clone()
    }

    /// The file of the handler script.
    pub fn handler_ts_path(&self) -> (path: PathBuf)
        ensures
            path == self.handler_path(),
    {
        self.handler_ts_path.clone()
    }

    /// Whether the host is on this machine.
    pub fn is_detected(&self, observed: &HookFiles) -> (detected: bool)
        ensures
            detected == observed.config_dir_exists,
    {
        observed.config_dir_exists
    }

    /// Whether both files of the hook are there.
    pub fn files_installed(&self, observed: &HookFiles) -> (installed: bool)
        ensures
            installed == both_present(*observed),
    {
        file_present(&observed.hook_md) && file_present(&observed.handler_ts)
    }

    /// Whether one of the files of the hook is there, or both.
    pub fn files_present(&self, observed: &HookFiles) -> (present: bool)
        ensures
            present == any_present(*observed),
    {
        file_present(&observed.hook_md) || file_present(&observed.handler_ts)
    }

    /// Whether both files of the hook hold their canonical text.
    pub fn files_match(&self, observed: &HookFiles) -> (current: bool)
        ensures
            current == both_current(*self, *observed),
    {
        let md_ok = file_holds(&observed.hook_md, self.hook_md_source.as_str());
        let ts_ok = file_holds(&observed.handler_ts, self.handler_ts_source.as_str());
        md_ok && ts_ok
    }
}

impl ToolHook for OpenClawHook {
    type Observation = HookFiles;

    open spec fn found(observed: HookFiles) -> bool {
        observed.config_dir_exists
    }

    open spec fn name(&self) -> Seq<char> {
        "OpenClaw"@
    }

    fn tool_name(&self) -> (name: &'static str) {
        "OpenClaw"
    }

    /// The state of the hook: installed where both files are there, with a
    /// message unless both hold their canonical text.
    fn status(&self, observed: HookFiles) -> (outcome: Result<HookStatus, PulseError>)
        ensures
            outcome matches Ok(status) && status@ == hook_state(*self, observed),
    {
        if !self.is_detected(&observed) {
            return Ok(HookStatus::not_detected("OpenClaw", self.config_dir.clone()));
        }
        let installed = self.files_installed(&observed);
        let up_to_date = installed && self.files_match(&observed);
        let message = if installed && !up_to_date {
            Some("Hook installed but outdated".to_owned())
        } else {
            None
        };
        Ok(
            one_unit_status(
                "OpenClaw",
                "pulse-hook",
                self.hook_dir.clone(),
                installed,
                false,
                message,
            ),
        )
    }

    /// Asks for both files to be written unless both hold their canonical text.
    fn connect(&self, observed: HookFiles) -> (outcome: Result<Outcome, PulseError>)
        ensures
            outcome matches Ok(done) && (done.status@, done.action@) == hook_connected(
                *self,
                observed,
            ),
    {
        if !self.is_detected(&observed) {
            return Ok(
                Outcome {
                    status: HookStatus::not_detected("OpenClaw", self.config_dir.clone()),
                    action: Action::Nothing,
                },
            );
        }
        let already_current = self.files_installed(&observed) && self.files_match(&observed);
        let mut action = Action::Nothing;
        if !already_current {
            let mut files: Vec<FileWrite> = Vec::new();
            files.push(
                FileWrite { path: self.hook_md_path.clone(), contents: self.hook_md_source.clone() },
            );
            files.push(
                FileWrite {
                    path: self.handler_ts_path.clone(),
                    contents: self.handler_ts_source.clone(),
                },
            );
            action = Action::Write(files);
            assert(action@->Write_0 =~= canonical_files(*self));
        }
        Ok(
            Outcome {
                status: one_unit_status(
                    "OpenClaw",
                    "pulse-hook",
                    self.hook_dir.clone(),
                    true,
                    !already_current,
                    None,
                ),
                action,
            },
        )
    }

    /// Asks for the hook's directory to be deleted where one of its files is
    /// there, or both.
    fn disconnect(&self, observed: HookFiles) -> (outcome: Result<Outcome, PulseError>)
        ensures
            outcome matches Ok(done) && (done.status@, done.action@) == hook_disconnected(
                *self,
                observed,
            ),
    {
        if !self.is_detected(&observed) {
            return Ok(
                Outcome {
                    status: HookStatus::not_detected("OpenClaw", self.config_dir.clone()),
                    action: Action::Nothing,
                },
            );
        }
        let was_present = self.files_present(&observed);
        let action = if was_present {
            Action::RemoveDir(self.hook_dir.clone())
        } else {
            Action::Nothing
        };
        Ok(
            Outcome {
                status: one_unit_status(
                    "OpenClaw",
                    "pulse-hook",
                    self.hook_dir.clone(),
                    false,
                    was_present,
                    None,
                ),
                action,
            },
        )
    }
}

/// Installing brings both files to their canonical text and says so: on a
/// detected host, `connect` reports a modification exactly when the two
/// files do not both hold their canonical text, and after what it asks for
/// both do, where the two files are different files. On such a host
/// `connect` reports no modification and asks for nothing. So a second
/// `connect` never modifies.
pub proof fn law_hook_upgrade(hook: OpenClawHook, observed: HookFiles, later: HookFiles)
    requires
        observed.config_dir_exists,
        later.config_dir_exists,
        hook.description_path() != hook.handler_path(),
        later.hook_md@ == file_after(
            observed.hook_md@,
            hook.description_path(),
            hook_connected(hook, observed).1,
        ),
        later.handler_ts@ == file_after(
            observed.handler_ts@,
            hook.handler_path(),
            hook_connected(hook, observed).1,
        ),
    ensures
        hook_connected(hook, observed).0.modified == !both_current(hook, observed),
        both_current(hook, later),
        !hook_connected(hook, later).0.modified,
        hook_connected(hook, later).1 is Nothing,
{
    let files = canonical_files(hook);
    assert(files.last() == (hook.handler_path(), hook.handler()));
    assert(files.drop_last() =~= seq![(hook.description_path(), hook.description())]);
    assert(files.drop_last().last() == (hook.description_path(), hook.description()));
    reveal_with_fuel(crate::hooks::written, 3);
}

} // verus!
