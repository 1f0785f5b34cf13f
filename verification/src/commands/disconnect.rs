//! The `disconnect` command: what it reports of each target.

use crate::commands::connect::{absence, absence_line, format_path_suffix, path_suffix};
use crate::hooks::{HookStatus, StatusView};
use vstd::prelude::*;

verus! {

/// What `disconnect` says of the outcome for a detected target.
pub open spec fn disconnect_verdict(status: StatusView) -> Seq<char> {
    if status.connected {
        ": hooks still present"@
    } else if status.modified {
        ": hooks removed"@
    } else {
        ": no hooks to remove"@
    }
}

/// The line that `disconnect` reports of one target.
pub open spec fn disconnect_line(status: StatusView) -> Seq<char> {
    if !status.detected {
        "- "@ + status.tool + ": "@ + absence(status)
    } else {
        "- "@ + status.tool + disconnect_verdict(status) + path_suffix(status)
    }
}

/// The line that `disconnect` reports of one target: whether its hooks are
/// still there, were removed, or were not there; for a target that is not on
/// this machine, why.
pub fn disconnect_summary(status: &HookStatus) -> (line: String)
    ensures
        line@ == disconnect_line(status@),
{
    if !status.detected {
        return absence_line("- ", status);
    }
    let mut line = "- ".to_owned();
    line.append(status.tool);
    if status.connected {
        line.append(": hooks still present");
    } else if status.modified {
        line.append(": hooks removed");
    } else {
        line.append(": no hooks to remove");
    }
    line.append(format_path_suffix(status).as_str());
    line
}

} // verus!
