//! The `setup` command: what it is given, how it shows a key, and how it
//! finds the session in what a server sent.

use crate::json::str_equal;
use crate::text::{
    find_char_from, find_chars, first_stands_at, from_chars, matches_at, next_char, stands_at,
    to_chars, trim, trim_of,
};
use vstd::prelude::*;
use vstd::string::StringSliceAdditionalSpecFns;
use vstd::utf8::{decode_utf8, encode_utf8, is_char_boundary};

verus! {

/// The arguments of the `setup` command.
#[derive(Debug)]
pub struct SetupArgs {
    /// Trace service URL (defaults to http://localhost:3000)
    pub api_url: Option<String>,
    /// User display name
    pub name: Option<String>,
    /// Account email
    pub email: Option<String>,
    /// Account password
    pub password: Option<String>,
    /// Configure local mode with generated/reused local credentials
    pub local: bool,
    /// Print the full API key in setup output
    pub show_api_key: bool,
    /// Project name (creates if missing)
    pub project_name: Option<String>,
    /// Server command to start when local service is not reachable
    pub server_command: String,
    /// Do not attempt to start pulse-server automatically
    pub no_start_server: bool,
    /// Skip automatic `pulse connect` at the end
    pub no_connect: bool,
}

/// A key as it is shown: in full where that is asked for; else a word for
/// an empty key and for a key of at most 12 bytes, and the first 8 and the
/// last 4 bytes of a longer one with three dots between them. A key that
/// cannot be cut at these places without cutting a character is hidden.
pub open spec fn shown_key(api_key: Seq<char>, show_full: bool) -> Seq<char> {
    let trimmed = trim_of(api_key);
    let bytes = encode_utf8(trimmed);
    if show_full {
        api_key
    } else if trimmed.len() == 0 {
        "(empty)"@
    } else if bytes.len() <= 12 {
        "(hidden)"@
    } else if is_char_boundary(bytes, 8) && is_char_boundary(bytes, bytes.len() - 4) {
        decode_utf8(bytes.subrange(0, 8)) + "..."@ + decode_utf8(
            bytes.subrange(bytes.len() - 4, bytes.len() as int),
        )
    } else {
        "(hidden)"@
    }
}

/// Writes a key so that it can be recognised and not read.
pub fn format_api_key_for_display(api_key: &str, show_full: bool) -> (shown: String)
    ensures
        shown@ == shown_key(api_key@, show_full),
{
    broadcast use vstd::utf8::encode_utf8_decode_utf8;

    if show_full {
        return api_key.to_owned();
    }
    let trimmed = trim(api_key);
    if trimmed.is_empty() {
        return "(empty)".to_owned();
    }
    let length = trimmed.as_bytes().len();
    if length <= 12 {
        return "(hidden)".to_owned();
    }
    if !trimmed.is_char_boundary(8) || !trimmed.is_char_boundary(length - 4) {
        return "(hidden)".to_owned();
    }
    let (head, _) = trimmed.split_at(8);
    let (_, tail) = trimmed.split_at(length - 4);
    assert(encode_utf8(head@) == trimmed.spec_bytes().subrange(0, 8));
    assert(encode_utf8(tail@) == trimmed.spec_bytes().subrange(length - 4, length as int));
    let mut shown = head.to_owned();
    shown.append("...");
    shown.append(tail);
    shown
}

/// The pair of name and value of the session cookie in a `Set-Cookie`
/// header: from the first place where the cookie's name and `=` stand, up to
/// the next semicolon, without whitespace around it. `None` where the name
/// does not stand in the header.
pub open spec fn cookie_pair(header: Seq<char>) -> Option<Seq<char>> {
    let prefix = "better-auth.session_token="@;
    if exists|i: int| first_stands_at(header, prefix, i) {
        let start = choose|i: int| first_stands_at(header, prefix, i);
        let pair = trim_of(header.subrange(start, next_char(header, ';', start)));
        if stands_at(pair, prefix, 0) && pair.len() > 0 {
            Some(pair)
        } else {
            None
        }
    } else {
        None
    }
}

/// Finds the session cookie in a `Set-Cookie` header.
pub fn extract_cookie_pair(set_cookie: &str) -> (pair: Option<String>)
    ensures
        crate::http::text_of(pair) == cookie_pair(set_cookie@),
{
    let header = to_chars(set_cookie);
    let prefix = to_chars("better-auth.session_token=");
    match find_chars(&header, &prefix) {
        Some(start) => {
            proof {
                let chosen = choose|i: int| first_stands_at(header@, prefix@, i);
                if chosen < start {
                    assert(!stands_at(header@, prefix@, chosen));
                }
                if start < chosen {
                    assert(!stands_at(header@, prefix@, start as int));
                }
            }
            let end = find_char_from(&header, ';', start);
            let piece = from_chars(&header, start, end);
            let pair = trim(piece.as_str());
            let found = to_chars(pair);
            if matches_at(&found, &prefix, 0) && !pair.is_empty() {
                Some(pair.to_owned())
            } else {
                None
            }
        },
        None => None,
    }
}

/// Whether the project named `name` is the one that is asked for: the two
/// names are the same but for whitespace around them.
pub open spec fn names_project(name: Seq<char>, wanted: Seq<char>) -> bool {
    trim_of(name) == trim_of(wanted)
}

/// The first project of the list that is the one asked for, by its position.
pub fn find_project(names: &Vec<String>, wanted: &str) -> (found: Option<usize>)
    ensures
        match found {
            Some(i) => {
                &&& i < names@.len()
                &&& names_project(names@[i as int]@, wanted@)
                &&& forall|j: int| 0 <= j < i ==> !names_project(#[trigger] names@[j]@, wanted@)
            },
            None => forall|j: int|
                0 <= j < names@.len() ==> !names_project(#[trigger] names@[j]@, wanted@),
        },
{
    let target = trim(wanted);
    let mut i: usize = 0;
    while i < names.len()
        invariant
            i <= names.len(),
            target@ == trim_of(wanted@),
            forall|j: int| 0 <= j < i ==> !names_project(#[trigger] names@[j]@, wanted@),
        decreases names.len() - i,
    {
        if str_equal(trim(names[i].as_str()), target) {
            return Some(i);
        }
        i = i + 1;
    }
    None
}

/// What to do next while waiting for a service to come up.
#[derive(Debug, PartialEq, Eq, Clone, Copy)]
pub enum WaitStep {
    /// Ask the service once more.
    Probe,
    /// The time is over.
    GiveUp,
}

/// Whether to ask once more after `elapsed_ms` of a wait of `timeout_ms`:
/// the service is asked as long as the time waited is not over the limit, so
/// also at the limit itself.
pub fn wait_step(elapsed_ms: u64, timeout_ms: u64) -> (step: WaitStep)
    ensures
        step == if elapsed_ms <= timeout_ms {
            WaitStep::Probe
        } else {
            WaitStep::GiveUp
        },
{
    if elapsed_ms <= timeout_ms {
        WaitStep::Probe
    } else {
        WaitStep::GiveUp
    }
}

/// The time waited after one more pause of `interval_ms`. It stops growing
/// at the largest number rather than starting over.
pub fn waited(elapsed_ms: u64, interval_ms: u64) -> (total: u64)
    ensures
        total == if elapsed_ms + interval_ms <= u64::MAX {
            (elapsed_ms + interval_ms) as u64
        } else {
            u64::MAX
        },
{
    if interval_ms <= u64::MAX - elapsed_ms {
        elapsed_ms + interval_ms
    } else {
        u64::MAX
    }
}

} // verus!
