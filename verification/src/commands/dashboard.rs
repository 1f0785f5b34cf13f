//! The `dashboard` command: what it is given, and how it shortens what a
//! server answered.

use crate::text::{collapse_whitespace, collapsed, cut_at, cut_of};
use vstd::prelude::*;
use vstd::string::StringSliceAdditionalSpecFns;
use vstd::utf8::encode_utf8;

verus! {

/// The arguments of the `dashboard` command.
#[derive(Debug)]
pub struct DashboardArgs {
    /// Trace service URL (defaults to configured value)
    pub api_url: Option<String>,
    /// Dashboard frontend URL to open after local login handoff
    pub dashboard_url: Option<String>,
    /// Print the login URL instead of opening a browser
    pub no_open: bool,
}

/// What a server answered, on one line and of bounded length: every run of
/// whitespace is one blank, and a text of more than 240 bytes is cut there,
/// or just before where that would cut a character, and ends in three dots.
pub open spec fn compacted(body: Seq<char>) -> Seq<char> {
    let line = collapsed(body);
    if encode_utf8(line).len() <= 240 {
        line
    } else {
        cut_of(line, 240) + "..."@
    }
}

/// Brings what a server answered on one line of bounded length.
pub fn compact_body(body: &str) -> (line: String)
    ensures
        line@ == compacted(body@),
{
    let collapsed = collapse_whitespace(body);
    if collapsed.as_str().as_bytes().len() <= 240 {
        collapsed
    } else {
        let mut line = cut_at(collapsed.as_str(), 240).to_owned();
        line.append("...");
        line
    }
}

} // verus!
