//! The `connect` command: what it reports of each target.

use crate::hooks::{displayed, path_text, texts_of, HookStatus, StatusView};
use crate::text::{decimal, decimal_text, join_texts, joined_texts};
use vstd::prelude::*;

verus! {

/// The place of a status in brackets, after a blank, or nothing where the
/// status names no place.
pub open spec fn path_suffix(status: StatusView) -> Seq<char> {
    match status.path {
        Some(path) => " ("@ + displayed(path) + ")"@,
        None => Seq::empty(),
    }
}

/// What is said of a target that is not on this machine.
pub open spec fn absence(status: StatusView) -> Seq<char> {
    match status.message {
        Some(message) => message,
        None => "Tool not detected on this machine"@,
    }
}

/// The lines on the hooks of a target: how many are installed, which ones,
/// and what to do where some are missing. Nothing for a target without hooks.
pub open spec fn detail_lines(status: StatusView) -> Seq<Seq<char>> {
    if status.total_hooks == 0 {
        Seq::empty()
    } else {
        let count = seq![
            "    "@ + decimal(status.installed_hooks) + "/"@ + decimal(status.total_hooks)
                + " hooks installed"@,
        ];
        let named = if status.installed_hook_names.len() > 0 {
            count.push("    "@ + joined_texts(status.installed_hook_names, ", "@))
        } else {
            count
        };
        if status.installed_hooks < status.total_hooks {
            named.push("    Run `pulse connect` to install missing hooks"@)
        } else {
            named
        }
    }
}

/// What `connect` says of the outcome for a detected target.
pub open spec fn connect_verdict(status: StatusView) -> Seq<char> {
    if status.connected {
        if status.modified {
            ": hooks installed"@
        } else {
            ": already connected"@
        }
    } else {
        ": unable to inject hooks"@
    }
}

/// The lines that `connect` reports of one target.
pub open spec fn connect_lines(status: StatusView) -> Seq<Seq<char>> {
    if !status.detected {
        seq!["- "@ + status.tool + ": "@ + absence(status)]
    } else {
        seq!["- "@ + status.tool + connect_verdict(status) + path_suffix(status)] + detail_lines(
            status,
        )
    }
}

/// The place of a status in brackets, after a blank.
pub fn format_path_suffix(status: &HookStatus) -> (suffix: String)
    ensures
        suffix@ == path_suffix(status@),
{
    match &status.path {
        Some(path) => {
            let mut suffix = " (".to_owned();
            suffix.append(path_text(path).as_str());
            suffix.append(")");
            suffix
        },
        None => String::new(),
    }
}

/// The line on a target that is not on this machine, after `lead`.
pub fn absence_line(lead: &str, status: &HookStatus) -> (line: String)
    ensures
        line@ == lead@ + status@.tool + ": "@ + absence(status@),
{
    let mut line = lead.to_owned();
    line.append(status.tool);
    line.append(": ");
    match &status.message {
        Some(message) => line.append(message.as_str()),
        None => line.append("Tool not detected on this machine"),
    }
    line
}

/// The lines on the hooks of a target.
pub fn hook_details(status: &HookStatus) -> (lines: Vec<String>)
    ensures
        texts_of(lines@) == detail_lines(status@),
{
    let mut lines: Vec<String> = Vec::new();
    if status.total_hooks == 0 {
        assert(texts_of(lines@) =~= Seq::<Seq<char>>::empty());
        return lines;
    }
    let mut count = "    ".to_owned();
    count.append(decimal_text(status.installed_hooks).as_str());
    count.append("/");
    count.append(decimal_text(status.total_hooks).as_str());
    count.append(" hooks installed");
    lines.push(count);
    if status.installed_hook_names.len() > 0 {
        let mut named = "    ".to_owned();
        named.append(join_texts(&status.installed_hook_names, ", ").as_str());
        lines.push(named);
    }
    if status.installed_hooks < status.total_hooks {
        lines.push("    Run `pulse connect` to install missing hooks".to_owned());
    }
    assert(texts_of(lines@) =~= detail_lines(status@));
    lines
}

/// The lines that `connect` reports of one target: whether its hooks were
/// installed, were there already or could not be installed, and the details
/// of its hooks; for a target that is not on this machine, why.
pub fn connect_summary(status: &HookStatus) -> (lines: Vec<String>)
    ensures
        texts_of(lines@) == connect_lines(status@),
{
    let mut lines: Vec<String> = Vec::new();
    if !status.detected {
        lines.push(absence_line("- ", status));
        assert(texts_of(lines@) =~= connect_lines(status@));
        return lines;
    }
    let mut head = "- ".to_owned();
    head.append(status.tool);
    if status.connected {
        if status.modified {
            head.append(": hooks installed");
        } else {
            head.append(": already connected");
        }
    } else {
        head.append(": unable to inject hooks");
    }
    head.append(format_path_suffix(status).as_str());
    lines.push(head);
    let mut details = hook_details(status);
    let ghost first = texts_of(lines@);
    let ghost rest = texts_of(details@);
    lines.append(&mut details);
    assert(texts_of(lines@) =~= first + rest);
    lines
}

/// Some target of the list is on this machine and connected.
pub open spec fn any_connected(statuses: Seq<HookStatus>) -> bool {
    exists|i: int|
        0 <= i < statuses.len() && (#[trigger] statuses[i]).detected && statuses[i].connected
}

/// Whether some target of the list is on this machine and connected.
pub fn some_connected(statuses: &Vec<HookStatus>) -> (found: bool)
    ensures
        found == any_connected(statuses@),
{
    let mut i: usize = 0;
    while i < statuses.len()
        invariant
            i <= statuses.len(),
            forall|j: int|
                0 <= j < i ==> !((#[trigger] statuses@[j]).detected && statuses@[j].connected),
        decreases statuses.len() - i,
    {
        if statuses[i].detected && statuses[i].connected {
            return true;
        }
        i = i + 1;
    }
    false
}

} // verus!
