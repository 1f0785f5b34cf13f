//! The `status` command: what it reports of each target and of the key.

use crate::commands::connect::{absence, absence_line, format_path_suffix, path_suffix};
use crate::hooks::{HookStatus, StatusView};
use vstd::prelude::*;
use vstd::string::StrSliceExecFns;

verus! {

/// The line that `status` reports of one target.
pub open spec fn status_line(status: StatusView) -> Seq<char> {
    if !status.detected {
        "  - "@ + status.tool + ": "@ + absence(status)
    } else if status.connected {
        "  - "@ + status.tool + ": connected"@ + path_suffix(status)
    } else {
        "  - "@ + status.tool + ": disconnected"@ + path_suffix(status)
    }
}

/// The line that `status` reports of one target: connected or not, and
/// where; for a target that is not on this machine, why.
pub fn hook_status_line(status: &HookStatus) -> (line: String)
    ensures
        line@ == status_line(status@),
{
    if !status.detected {
        return absence_line("  - ", status);
    }
    let mut line = "  - ".to_owned();
    line.append(status.tool);
    if status.connected {
        line.append(": connected");
    } else {
        line.append(": disconnected");
    }
    line.append(format_path_suffix(status).as_str());
    line
}

/// A key as it is shown: its first four characters and three stars, or a
/// word for a key that is empty.
pub open spec fn masked(key: Seq<char>) -> Seq<char> {
    if key.len() == 0 {
        "(empty)"@
    } else if key.len() <= 4 {
        key + "***"@
    } else {
        key.subrange(0, 4) + "***"@
    }
}

/// A key as it is shown, so that it cannot be read off the screen.
pub fn mask_key(key: &str) -> (shown: String)
    ensures
        shown@ == masked(key@),
{
    if key.is_empty() {
        return "(empty)".to_owned();
    }
    let length = key.unicode_len();
    let shown_length: usize = if length <= 4 {
        length
    } else {
        4
    };
    let mut shown = key.substring_char(0, shown_length).to_owned();
    proof {
        if length <= 4 {
            assert(key@.subrange(0, length as int) =~= key@);
        }
    }
    shown.append("***");
    shown
}

} // verus!
