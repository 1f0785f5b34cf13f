//! What every integration target has in common: the status that each
//! operation reports, what an operation asks the caller to do to the files,
//! and the contract that the three targets meet.

pub mod catalogue;
pub mod claude_code;
pub mod laws;

pub mod openclaw;
pub mod opencode;
pub mod span;

use crate::error::PulseError;
use crate::json::str_equal;
use std::path::PathBuf;
use vstd::prelude::*;

verus! {

#[verifier::external_type_specification]
#[verifier::external_body]
pub struct ExPathBuf(PathBuf);

/// The text that `Path::display` writes for a path.
pub uninterp spec fn displayed(path: PathBuf) -> Seq<char>;

/// `Path::display`, collected into a string: the path as text, with what is
/// not Unicode replaced. The text depends on the path alone.
#[verifier::external_body]
pub(crate) fn path_text(path: &PathBuf) -> (text: String)
    ensures
        text@ == displayed(*path),
{
    path.display().to_string()
}

/// The path that `Path::join` makes of a path and a relative part.
pub uninterp spec fn joined(base: PathBuf, part: Seq<char>) -> PathBuf;

/// `Path::join`: the path `base` with `part` adjoined. The result depends on
/// the two arguments alone.
#[verifier::external_body]
pub(crate) fn join_path(base: &PathBuf, part: &str) -> (path: PathBuf)
    ensures
        path == joined(*base, part@),
{
    base.join(part)
}

/// `dirs::home_dir`: the home directory of the user, where the system can
/// tell it. Nothing is known of the outcome beforehand.
#[verifier::external_body]
pub(crate) fn home_dir() -> (home: Option<PathBuf>) {
    dirs::home_dir()
}

/// `PathBuf::clone`: the copy is the same path.
pub assume_specification[ <PathBuf as Clone>::clone ](path: &PathBuf) -> (copy: PathBuf)
    ensures
        copy == *path,
;

/// What was found of one file.
#[derive(Debug)]
pub enum FileState {
    /// There is no such file.
    Missing,
    /// The file is there, and reading it failed with this error.
    Unreadable(std::io::Error),
    /// The file is there, with this text.
    Contents(String),
}

/// A file to be written, after the directories above it have been made.
#[derive(Debug, Clone, PartialEq)]
pub struct FileWrite {
    pub path: PathBuf,
    pub contents: String,
}

/// What the caller has to do to the files after an operation.
#[derive(Debug, Clone, PartialEq)]
pub enum Action {
    /// Nothing: the files are as they should be.
    Nothing,
    /// Write these files, in order.
    Write(Vec<FileWrite>),
    /// Delete this file.
    RemoveFile(PathBuf),
    /// Delete this directory with all that is in it.
    RemoveDir(PathBuf),
}

/// The mathematical value of an `Action`.
pub enum ActionView {
    Nothing,
    Write(Seq<(PathBuf, Seq<char>)>),
    RemoveFile(PathBuf),
    RemoveDir(PathBuf),
}

impl View for Action {
    type V = ActionView;

    open spec fn view(&self) -> ActionView {
        match self {
            Action::Nothing => ActionView::Nothing,
            Action::Write(files) => ActionView::Write(
                Seq::new(files@.len(), |i: int| (files@[i].path, files@[i].contents@)),
            ),
            Action::RemoveFile(path) => ActionView::RemoveFile(*path),
            Action::RemoveDir(path) => ActionView::RemoveDir(*path),
        }
    }
}

/// What an operation reports of a target.
#[derive(Debug, Clone)]
pub struct HookStatus {
    pub tool: &'static str,
    pub detected: bool,
    pub connected: bool,
    pub modified: bool,
    pub path: Option<PathBuf>,
    pub message: Option<String>,
    pub installed_hooks: usize,
    pub total_hooks: usize,
    pub installed_hook_names: Vec<String>,
}

/// The mathematical value of a `HookStatus`.
pub struct StatusView {
    pub tool: Seq<char>,
    pub detected: bool,
    pub connected: bool,
    pub modified: bool,
    pub path: Option<PathBuf>,
    pub message: Option<Seq<char>>,
    pub installed_hooks: nat,
    pub total_hooks: nat,
    pub installed_hook_names: Seq<Seq<char>>,
}

/// The characters of each string of a list.
pub open spec fn texts_of(names: Seq<String>) -> Seq<Seq<char>> {
    Seq::new(names.len(), |i: int| names[i]@)
}

impl View for HookStatus {
    type V = StatusView;

    open spec fn view(&self) -> StatusView {
        StatusView {
            tool: self.tool@,
            detected: self.detected,
            connected: self.connected,
            modified: self.modified,
            path: self.path,
            message: match self.message {
                Some(text) => Some(text@),
                None => None,
            },
            installed_hooks: self.installed_hooks as nat,
            total_hooks: self.total_hooks as nat,
            installed_hook_names: texts_of(self.installed_hook_names@),
        }
    }
}

impl StatusView {
    /// What holds of every status: an undetected target is neither connected
    /// nor modified and has nothing installed, and a connected one has
    /// everything installed.
    pub open spec fn consistent(self) -> bool {
        &&& !self.detected ==> !self.connected && !self.modified && self.installed_hooks == 0
        &&& self.connected ==> self.installed_hooks == self.total_hooks
    }
}

/// The status of a target that is not on this machine.
pub open spec fn undetected(tool: Seq<char>, path: PathBuf) -> StatusView {
    StatusView {
        tool,
        detected: false,
        connected: false,
        modified: false,
        path: Some(path),
        message: Some("Tool not detected. Expected settings at "@ + displayed(path)),
        installed_hooks: 0,
        total_hooks: 0,
        installed_hook_names: Seq::empty(),
    }
}

impl HookStatus {
    /// The status of a target that is not on this machine: nothing is
    /// installed, and the message names the place that was looked at.
    pub fn not_detected(tool: &'static str, path: PathBuf) -> (status: HookStatus)
        ensures
            status@ == undetected(tool@, path),
    {
        let mut message = "Tool not detected. Expected settings at ".to_owned();
        let place = path_text(&path);
        message.append(place.as_str());
        let status = HookStatus {
            tool,
            detected: false,
            connected: false,
            modified: false,
            path: Some(path),
            message: Some(message),
            installed_hooks: 0,
            total_hooks: 0,
            installed_hook_names: Vec::new(),
        };
        assert(status@.installed_hook_names =~= Seq::<Seq<char>>::empty());
        status
    }
}

/// A status together with what the caller has to do to the files.
#[derive(Debug, Clone)]
pub struct Outcome {
    pub status: HookStatus,
    pub action: Action,
}

/// What a file holds, as far as a reconciler looks at it.
pub enum FileView {
    Missing,
    Unreadable,
    Contents(Seq<char>),
}

impl View for FileState {
    type V = FileView;

    open spec fn view(&self) -> FileView {
        match self {
            FileState::Missing => FileView::Missing,
            FileState::Unreadable(_) => FileView::Unreadable,
            FileState::Contents(text) => FileView::Contents(text@),
        }
    }
}

/// The file is there, readable or not.
pub open spec fn is_present(file: FileView) -> bool {
    !(file is Missing)
}

/// The file is there and holds exactly `text`.
pub open spec fn holds_text(file: FileView, text: Seq<char>) -> bool {
    file == FileView::Contents(text)
}

/// The status of a detected host with one installable unit called `unit`.
pub open spec fn unit_status(
    tool: Seq<char>,
    unit: Seq<char>,
    path: PathBuf,
    installed: bool,
    modified: bool,
    message: Option<Seq<char>>,
) -> StatusView {
    StatusView {
        tool,
        detected: true,
        connected: installed,
        modified,
        path: Some(path),
        message,
        installed_hooks: if installed {
            1
        } else {
            0
        },
        total_hooks: 1,
        installed_hook_names: if installed {
            seq![unit]
        } else {
            Seq::empty()
        },
    }
}

/// Whether a file is there.
pub fn file_present(file: &FileState) -> (present: bool)
    ensures
        present == is_present(file@),
{
    match file {
        FileState::Missing => false,
        _ => true,
    }
}

/// Whether a file is there and holds exactly `text`.
pub fn file_holds(file: &FileState, text: &str) -> (same: bool)
    ensures
        same == holds_text(file@, text@),
{
    match file {
        FileState::Contents(found) => str_equal(found.as_str(), text),
        _ => false,
    }
}

/// Builds the status of a detected host with one installable unit.
pub fn one_unit_status(
    tool: &'static str,
    unit: &str,
    path: PathBuf,
    installed: bool,
    modified: bool,
    message: Option<String>,
) -> (status: HookStatus)
    ensures
        status@ == unit_status(
            tool@,
            unit@,
            path,
            installed,
            modified,
            match message {
                Some(text) => Some(text@),
                None => None,
            },
        ),
{
    let mut names: Vec<String> = Vec::new();
    if installed {
        names.push(unit.to_owned());
    }
    let status = HookStatus {
        tool,
        detected: true,
        connected: installed,
        modified,
        path: Some(path),
        message,
        installed_hooks: if installed {
            1
        } else {
            0
        },
        total_hooks: 1,
        installed_hook_names: names,
    };
    proof {
        if installed {
            assert(status@.installed_hook_names =~= seq![unit@]);
        } else {
            assert(status@.installed_hook_names =~= Seq::<Seq<char>>::empty());
        }
    }
    status
}

/// A file after the caller has done what `action` asks of the file
/// at `path`: a write leaves the text written, a deletion leaves nothing.
pub open spec fn file_after(file: FileView, path: PathBuf, action: ActionView) -> FileView {
    match action {
        ActionView::Nothing => file,
        ActionView::Write(files) => written(file, path, files),
        ActionView::RemoveFile(target) => if target == path {
            FileView::Missing
        } else {
            file
        },
        ActionView::RemoveDir(_) => file,
    }
}

/// The file at `path` after the files of `files` have been written in order.
pub open spec fn written(
    file: FileView,
    path: PathBuf,
    files: Seq<(PathBuf, Seq<char>)>,
) -> FileView
    decreases files.len(),
{
    if files.len() == 0 {
        file
    } else if files.last().0 == path {
        FileView::Contents(files.last().1)
    } else {
        written(file, path, files.drop_last())
    }
}

/// The contract of an integration target.
///
/// An operation is handed what was observed of the host's files and returns
/// the status to report; `connect` and `disconnect` also return what the
/// caller has to do to the files. No operation touches a file itself.
pub trait ToolHook {
    /// What has to be observed of the host before an operation.
    type Observation;

    /// The observation found the host on this machine.
    spec fn found(observed: Self::Observation) -> bool;

    /// The name under which the target is reported.
    spec fn name(&self) -> Seq<char>;

    /// The name under which the target is reported.
    fn tool_name(&self) -> (name: &'static str)
        ensures
            name@ == self.name(),
    ;

    /// Reports the state of the target and asks for no change.
    fn status(&self, observed: Self::Observation) -> (outcome: Result<HookStatus, PulseError>)
        ensures
            !Self::found(observed) ==> outcome is Ok,
            outcome matches Ok(status) ==> {
                &&& status@.consistent()
                &&& status@.tool == self.name()
                &&& !status@.modified
                &&& status@.detected ==> Self::found(observed)
            },
    ;

    /// Installs what is missing. An undetected host is reported, not changed.
    fn connect(&self, observed: Self::Observation) -> (outcome: Result<Outcome, PulseError>)
        ensures
            !Self::found(observed) ==> outcome is Ok,
            outcome matches Ok(done) ==> {
                &&& done.status@.consistent()
                &&& done.status@.tool == self.name()
                &&& done.status@.detected == Self::found(observed)
                &&& done.status@.detected ==> done.status@.connected
                &&& done.status@.modified <==> !(done.action@ is Nothing)
            },
    ;

    /// Removes what was installed. An undetected host is reported, not changed.
    fn disconnect(&self, observed: Self::Observation) -> (outcome: Result<Outcome, PulseError>)
        ensures
            !Self::found(observed) ==> outcome is Ok,
            outcome matches Ok(done) ==> {
                &&& done.status@.consistent()
                &&& done.status@.tool == self.name()
                &&& done.status@.detected == Self::found(observed)
                &&& !done.status@.connected
                &&& done.status@.modified <==> !(done.action@ is Nothing)
            },
    ;
}

} // verus!
