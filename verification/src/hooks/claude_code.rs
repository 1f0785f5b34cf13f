//! The reconciler for the host whose settings are one JSON document: it
//! installs, counts and removes the catalogue's hooks in the document's
//! `hooks` section, and touches nothing else in it.

use crate::error::PulseError;
use crate::hooks::catalogue::{
    all_installed, any_installed, Catalogue, catalogue_of, entries_at, entries_have_command,
    entry_has_command, entry_is_hollow, entry_without, event_of, events_or_empty, group_records,
    hooks_section, install_all, install_one, installed_doc, installed_in, installed_names,
    is_emptied, is_installed, lemma_after_uninstall, lemma_empty_section, lemma_install_again,
    lemma_install_all, lemma_install_changes, lemma_names_full, lemma_names_none,
    lemma_uninstall_again, lemma_uninstall_changes, lemma_uninstalled, new_group, new_record,
    pruned, record_has_command, records_have_command, refusal, remove_one, ROOT_NOT_OBJECT,
    runs_other, stays, stripped, uninstall_all, uninstalled_doc, well_shaped, with_command,
};
use crate::hooks::{
    home_dir, join_path, texts_of, undetected, Action, ActionView, FileState, FileWrite, HookStatus,
    Outcome, StatusView, ToolHook,
};
use crate::json::{
    lemma_view_unfold, parsed, pretty_text, str_equal, values_of, Json, JsonObject, JsonValue,
};
use std::path::PathBuf;
use vstd::prelude::*;

verus! {

/// The source under which events are reported that name no other.
pub const CLAUDE_SOURCE: &'static str = "claude_code";

/// The hooks that must be installed: event name and command, in order.
pub const HOOK_DEFINITIONS: [(&'static str, &'static str); 10] = [
    ("PreToolUse", "pulse emit pre_tool_use"),
    ("PostToolUse", "pulse emit post_tool_use"),
    ("PostToolUseFailure", "pulse emit post_tool_use_failure"),
    ("SessionStart", "pulse emit session_start"),
    ("SessionEnd", "pulse emit session_end"),
    ("Stop", "pulse emit stop"),
    ("SubagentStart", "pulse emit subagent_start"),
    ("SubagentStop", "pulse emit subagent_stop"),
    ("UserPromptSubmit", "pulse emit user_prompt_submit"),
    ("Notification", "pulse emit notification"),
];

/// Whether a hook record runs exactly `command`.
pub fn record_runs(record: &Json, command: &str) -> (runs: bool)
    ensures
        runs == record_has_command(record@, command@),
{
    match record.get("command") {
        Some(value) => match value.as_str() {
            Some(text) => str_equal(text, command),
            None => false,
        },
        None => false,
    }
}

/// Whether a group entry holds a record that runs exactly `command`.
pub fn entry_contains_command(entry: &Json, command: &str) -> (found: bool)
    ensures
        found == entry_has_command(entry@, command@),
{
    match entry.get("hooks") {
        Some(hooks) => match hooks.as_array() {
            Some(records) => {
                let mut i: usize = 0;
                while i < records.len()
                    invariant
                        i <= records.len(),
                        group_records(entry@) == Some(values_of(records@)),
                        forall|j: int|
                            0 <= j < i ==> !record_has_command(
                                #[trigger] values_of(records@)[j],
                                command@,
                            ),
                    decreases records.len() - i,
                {
                    if record_runs(&records[i], command) {
                        assert(record_has_command(values_of(records@)[i as int], command@));
                        return true;
                    }
                    i = i + 1;
                }
                false
            },
            None => false,
        },
        None => false,
    }
}

/// Whether a group entry holds no record: its `hooks` member is an empty
/// array, or is no array, or the entry is no object.
pub fn entry_is_empty(entry: &Json) -> (hollow: bool)
    ensures
        hollow == entry_is_hollow(entry@),
{
    match entry.get("hooks") {
        Some(hooks) => match hooks.as_array() {
            Some(records) => records.len() == 0,
            None => true,
        },
        None => true,
    }
}

/// Moves the records that do not run `command` into a new list, in order,
/// and tells whether any record was left behind.
fn keep_other_records(records: Vec<Json>, command: &str) -> (kept: (Vec<Json>, bool))
    ensures
        values_of(kept.0@) == values_of(records@).filter(runs_other(command@)),
        kept.1 == records_have_command(values_of(records@), command@),
{
    let mut records = records;
    let ghost given = values_of(records@);
    let mut kept: Vec<Json> = Vec::new();
    let mut dropped = false;
    let mut i: usize = 0;
    proof {
        assert(given.take(0) =~= Seq::<JsonValue>::empty());
        reveal(Seq::filter);
        assert(values_of(kept@) =~= given.take(0).filter(runs_other(command@)));
    }
    while i < records.len()
        invariant
            i <= records.len(),
            records.len() == given.len(),
            forall|j: int| i <= j < records.len() ==> (#[trigger] records@[j])@ == given[j],
            values_of(kept@) == given.take(i as int).filter(runs_other(command@)),
            dropped == records_have_command(given.take(i as int), command@),
        decreases records.len() - i,
    {
        let mut record = Json::Null;
        core::mem::swap(&mut records[i], &mut record);
        proof {
            let before = given.take(i as int);
            let after = given.take(i as int + 1);
            assert(after =~= before.push(given[i as int]));
            before.lemma_filter_push(given[i as int], runs_other(command@));
            if records_have_command(before, command@) {
                let j = choose|j: int|
                    0 <= j < before.len() && record_has_command(#[trigger] before[j], command@);
                assert(record_has_command(after[j], command@));
            }
            if records_have_command(after, command@) && !record_has_command(
                given[i as int],
                command@,
            ) {
                let j = choose|j: int|
                    0 <= j < after.len() && record_has_command(#[trigger] after[j], command@);
                assert(record_has_command(before[j], command@));
            }
            if record_has_command(given[i as int], command@) {
                assert(record_has_command(after[i as int], command@));
            }
        }
        if record_runs(&record, command) {
            dropped = true;
        } else {
            proof {
                assert(values_of(kept@.push(record)) =~= values_of(kept@).push(record@));
            }
            kept.push(record);
        }
        i = i + 1;
    }
    proof {
        assert(given.take(i as int) =~= given);
    }
    (kept, dropped)
}

/// Takes the records that run exactly `command` out of a group entry, and
/// tells whether there was one. Records of other commands stay, in order.
pub fn remove_command(entry: &mut Json, command: &str) -> (removed: bool)
    ensures
        final(entry)@ == entry_without(old(entry)@, command@),
        removed == entry_has_command(old(entry)@, command@),
{
    let has_records = match entry.get("hooks") {
        Some(hooks) => hooks.as_array().is_some(),
        None => false,
    };
    if !has_records {
        return false;
    }
    let mut taken = Json::Null;
    core::mem::swap(entry, &mut taken);
    proof {
        lemma_view_unfold(taken);
    }
    match taken {
        Json::Object(mut object) => {
            let ghost members = object@;
            match object.remove("hooks") {
                Some(Json::Array(records)) => {
                    proof {
                        lemma_view_unfold(Json::Array(records));
                    }
                    let (kept, removed) = keep_other_records(records, command);
                    let list = Json::Array(kept);
                    proof {
                        lemma_view_unfold(list);
                    }
                    object.insert("hooks".to_owned(), list);
                    proof {
                        assert(object@ =~= members.insert("hooks"@, list@));
                    }
                    *entry = Json::Object(object);
                    proof {
                        lemma_view_unfold(*entry);
                    }
                    removed
                },
                Some(other) => {
                    object.insert("hooks".to_owned(), other);
                    *entry = Json::Object(object);
                    false
                },
                None => {
                    *entry = Json::Object(object);
                    false
                },
            }
        },
        other => {
            *entry = other;
            false
        },
    }
}

/// Builds the group entry that is installed for `command`.
fn new_hook_group(command: &str) -> (group: Json)
    ensures
        group@ == new_group(command@),
{
    let mut record = JsonObject::new();
    record.insert("type".to_owned(), Json::text("command"));
    record.insert("async".to_owned(), Json::Bool(true));
    record.insert("command".to_owned(), Json::text(command));
    let record = Json::Object(record);
    let mut records: Vec<Json> = Vec::new();
    records.push(record);
    let records = Json::Array(records);
    let mut group = JsonObject::new();
    group.insert("matcher".to_owned(), Json::text(""));
    group.insert("hooks".to_owned(), records);
    let group = Json::Object(group);
    proof {
        reveal_strlit("");
        lemma_view_unfold(record);
        lemma_view_unfold(records);
        lemma_view_unfold(group);
        assert(""@ =~= Seq::<char>::empty());
        assert(records@->Array_0 =~= seq![new_record(command@)]);
    }
    group
}

/// Whether some group entry of the list holds a record that runs `command`.
pub fn entries_contain_command(entries: &Vec<Json>, command: &str) -> (found: bool)
    ensures
        found == entries_have_command(values_of(entries@), command@),
{
    let mut i: usize = 0;
    while i < entries.len()
        invariant
            i <= entries.len(),
            forall|j: int|
                0 <= j < i ==> !entry_has_command(#[trigger] values_of(entries@)[j], command@),
        decreases entries.len() - i,
    {
        if entry_contains_command(&entries[i], command) {
            assert(entry_has_command(values_of(entries@)[i as int], command@));
            return true;
        }
        i = i + 1;
    }
    false
}

/// Makes sure that some group entry of an event runs `command`: where none
/// does, a new group is added at the end. Tells whether it added one.
pub fn ensure_command(events: &mut Vec<Json>, command: &str) -> (added: bool)
    ensures
        values_of(final(events)@) == with_command(values_of(old(events)@), command@),
        added == !entries_have_command(values_of(old(events)@), command@),
{
    if entries_contain_command(events, command) {
        return false;
    }
    let group = new_hook_group(command);
    proof {
        assert(values_of(events@.push(group)) =~= values_of(events@).push(group@));
    }
    events.push(group);
    true
}

/// Removes `command` from the group entries of an event: the entries that
/// held records of this command alone go, and each other entry loses the
/// records that run it.
fn prune_entries(entries: Vec<Json>, command: &str) -> (kept: Vec<Json>)
    ensures
        values_of(kept@) == pruned(values_of(entries@), command@),
{
    let mut entries = entries;
    let ghost given = values_of(entries@);
    let ghost strip = stripped(command@);
    let ghost keep = stays(command@);
    let mut kept: Vec<Json> = Vec::new();
    let mut i: usize = 0;
    proof {
        assert(given.take(0) =~= Seq::<JsonValue>::empty());
        reveal(Seq::filter);
        assert(values_of(kept@) =~= pruned(given.take(0), command@));
    }
    while i < entries.len()
        invariant
            i <= entries.len(),
            entries.len() == given.len(),
            strip == stripped(command@),
            keep == stays(command@),
            forall|j: int| i <= j < entries.len() ==> (#[trigger] entries@[j])@ == given[j],
            values_of(kept@) == pruned(given.take(i as int), command@),
        decreases entries.len() - i,
    {
        let mut entry = Json::Null;
        core::mem::swap(&mut entries[i], &mut entry);
        let hit = remove_command(&mut entry, command);
        let emptied = hit && entry_is_empty(&entry);
        proof {
            let before = given.take(i as int);
            let after = given.take(i as int + 1);
            assert(after =~= before.push(given[i as int]));
            before.lemma_filter_push(given[i as int], keep);
            assert(emptied == is_emptied(given[i as int], command@));
            if !emptied {
                assert(before.filter(keep).push(given[i as int]).map_values(strip)
                    =~= before.filter(keep).map_values(strip).push(entry@));
                assert(values_of(kept@.push(entry)) =~= values_of(kept@).push(entry@));
            }
        }
        if !emptied {
            kept.push(entry);
        }
        i = i + 1;
    }
    proof {
        assert(given.take(i as int) =~= given);
    }
    kept
}

/// Whether the section holds an array under every event of the catalogue
/// that it has.
fn events_well_shaped(events: &JsonObject, catalogue: &[(&'static str, &'static str)]) -> (ok: bool)
    ensures
        ok == well_shaped(events@, catalogue_of(catalogue@)),
{
    let mut i: usize = 0;
    while i < catalogue.len()
        invariant
            i <= catalogue.len(),
            forall|k: int|
                0 <= k < i && events@.contains_key((#[trigger] catalogue_of(catalogue@)[k]).0)
                    ==> events@[catalogue_of(catalogue@)[k].0] is Array,
        decreases catalogue.len() - i,
    {
        match events.get(catalogue[i].0) {
            Some(stored) => {
                if stored.as_array().is_none() {
                    assert(events@.contains_key(catalogue_of(catalogue@)[i as int].0));
                    return false;
                }
            },
            None => {},
        }
        i = i + 1;
    }
    true
}

/// Installs one hook in the section, and tells whether it added a group.
fn install_event(events: &mut JsonObject, event: &str, command: &str) -> (added: bool)
    ensures
        final(events)@ == install_one(old(events)@, (event@, command@)),
        added == !is_installed(old(events)@, (event@, command@)),
{
    let ghost before = events@;
    let mut entries: Vec<Json> = Vec::new();
    match events.remove(event) {
        Some(Json::Array(stored)) => {
            proof {
                lemma_view_unfold(Json::Array(stored));
            }
            entries = stored;
        },
        Some(other) => {
            proof {
                assert(values_of(entries@) =~= Seq::<JsonValue>::empty());
            }
        },
        None => {
            proof {
                assert(values_of(entries@) =~= Seq::<JsonValue>::empty());
            }
        },
    }
    assert(values_of(entries@) == entries_at(before, event@));
    let added = ensure_command(&mut entries, command);
    let list = Json::Array(entries);
    proof {
        lemma_view_unfold(list);
    }
    events.insert(event.to_owned(), list);
    proof {
        assert(events@ =~= install_one(before, (event@, command@)));
    }
    added
}

/// Installs the hooks of `catalogue` that the document lacks.
///
/// On success the result tells whether the document changed, which is the
/// case exactly when some hook of the catalogue was not installed before. A
/// document in which nothing is missing is left as it is, and so is a
/// malformed one, which is refused.
pub fn install_hooks(value: &mut Json, catalogue: &[(&'static str, &'static str)]) -> (outcome:
    Result<bool, PulseError>)
    ensures
        match outcome {
            Ok(changed) => {
                &&& refusal(old(value)@, catalogue_of(catalogue@)) is None
                &&& final(value)@ == installed_doc(old(value)@, catalogue_of(catalogue@))
                &&& changed == !all_installed(
                    events_or_empty(old(value)@),
                    catalogue_of(catalogue@),
                )
                &&& changed == (final(value)@ != old(value)@)
            },
            Err(error) => {
                &&& refusal(old(value)@, catalogue_of(catalogue@)) is Some
                &&& error.words() == refusal(old(value)@, catalogue_of(catalogue@))
                &&& final(value)@ == old(value)@
            },
        },
{
    let ghost cat = catalogue_of(catalogue@);
    match value.as_object() {
        None => {
            return Err(PulseError::message(ROOT_NOT_OBJECT));
        },
        Some(root) => match root.get("hooks") {
            Some(hooks) => match hooks.as_object() {
                None => {
                    return Err(PulseError::message("`hooks` field must be a JSON object"));
                },
                Some(events) => {
                    if !events_well_shaped(events, catalogue) {
                        return Err(PulseError::message("Hook event entries must be arrays"));
                    }
                },
            },
            None => {},
        },
    }
    let mut taken = Json::Null;
    core::mem::swap(value, &mut taken);
    proof {
        lemma_view_unfold(taken);
    }
    match taken {
        Json::Object(mut root) => {
            let ghost members = root@;
            let mut events = JsonObject::new();
            let mut had_section = false;
            match root.remove("hooks") {
                Some(Json::Object(stored)) => {
                    proof {
                        lemma_view_unfold(Json::Object(stored));
                    }
                    events = stored;
                    had_section = true;
                },
                Some(other) => {},
                None => {},
            }
            let ghost start = events@;
            assert(start == events_or_empty(old(value)@));
            assert(had_section == (old(value)@.member("hooks"@) is Some));
            let mut changed = false;
            let mut i: usize = 0;
            assert(cat.take(0) =~= Seq::<(Seq<char>, Seq<char>)>::empty());
            while i < catalogue.len()
                invariant
                    i <= catalogue.len(),
                    cat == catalogue_of(catalogue@),
                    events@ == install_all(start, cat.take(i as int)),
                    changed == !all_installed(start, cat.take(i as int)),
                decreases catalogue.len() - i,
            {
                let added = install_event(&mut events, catalogue[i].0, catalogue[i].1);
                proof {
                    let front = cat.take(i as int);
                    let next = cat.take(i as int + 1);
                    assert(next.drop_last() =~= front);
                    assert(next.last() == cat[i as int]);
                    lemma_install_all(start, front, cat[i as int]);
                    if all_installed(start, front) {
                        if is_installed(start, cat[i as int]) {
                            assert forall|k: int| 0 <= k < next.len() implies is_installed(
                                start,
                                #[trigger] next[k],
                            ) by {
                                if k < i {
                                    assert(is_installed(start, front[k]));
                                }
                            }
                        } else {
                            assert(!is_installed(start, next[i as int]));
                            if front.contains(cat[i as int]) {
                                let k = choose|k: int|
                                    0 <= k < front.len() && front[k] == cat[i as int];
                                assert(is_installed(start, front[k]));
                            }
                        }
                    } else {
                        let k = choose|k: int|
                            0 <= k < front.len() && !is_installed(start, #[trigger] front[k]);
                        assert(!is_installed(start, next[k]));
                    }
                }
                if added {
                    changed = true;
                }
                i = i + 1;
            }
            assert(cat.take(i as int) =~= cat);
            if changed || had_section {
                let section = Json::Object(events);
                proof {
                    lemma_view_unfold(section);
                    if !changed {
                        lemma_install_again(start, cat);
                    }
                }
                root.insert("hooks".to_owned(), section);
                proof {
                    assert(root@ =~= members.insert("hooks"@, section@));
                    if !changed {
                        assert(root@ =~= members);
                    }
                }
            } else {
                proof {
                    assert(root@ =~= members);
                }
            }
            *value = Json::Object(root);
            proof {
                lemma_view_unfold(*value);
                lemma_install_changes(old(value)@, cat);
            }
            Ok(changed)
        },
        other => {
            *value = other;
            Ok(false)
        },
    }
}

/// Uninstalls one hook from the section, and tells whether it was installed.
/// Where the event is left without an entry, its key goes.
fn remove_event(events: &mut JsonObject, event: &str, command: &str) -> (removed: bool)
    ensures
        final(events)@ == remove_one(old(events)@, (event@, command@)),
        removed == is_installed(old(events)@, (event@, command@)),
{
    let ghost before = events@;
    let installed = match events.get(event) {
        Some(stored) => match stored.as_array() {
            Some(entries) => entries_contain_command(entries, command),
            None => false,
        },
        None => false,
    };
    proof {
        if !installed {
            assert(entries_at(before, event@) =~= Seq::<JsonValue>::empty()
                || !entries_have_command(entries_at(before, event@), command@));
        }
    }
    if !installed {
        return false;
    }
    match events.remove(event) {
        Some(Json::Array(stored)) => {
            proof {
                lemma_view_unfold(Json::Array(stored));
            }
            let kept = prune_entries(stored, command);
            if kept.len() > 0 {
                let list = Json::Array(kept);
                proof {
                    lemma_view_unfold(list);
                }
                events.insert(event.to_owned(), list);
                proof {
                    assert(events@ =~= remove_one(before, (event@, command@)));
                }
            } else {
                proof {
                    assert(events@ =~= remove_one(before, (event@, command@)));
                }
            }
            true
        },
        Some(other) => {
            events.insert(event.to_owned(), other);
            true
        },
        None => true,
    }
}

/// Removes the hooks of `catalogue` from the document, and nothing else.
///
/// A malformed document is refused and left as it is. Else every record
/// that runs the command of a hook under that hook's event goes; a group
/// entry that this leaves without a record goes; an event that this leaves
/// without an entry loses its key; and a section that this leaves without a
/// key is dropped from the document. What held no record, no entry or no key
/// before stays. The result tells whether the document changed, which is the
/// case exactly when some hook of the catalogue was installed.
pub fn uninstall_hooks(value: &mut Json, catalogue: &[(&'static str, &'static str)]) -> (outcome:
    Result<bool, PulseError>)
    ensures
        match outcome {
            Ok(changed) => {
                &&& refusal(old(value)@, catalogue_of(catalogue@)) is None
                &&& final(value)@ == uninstalled_doc(old(value)@, catalogue_of(catalogue@))
                &&& changed == any_installed(
                    events_or_empty(old(value)@),
                    catalogue_of(catalogue@),
                )
                &&& changed == (final(value)@ != old(value)@)
            },
            Err(error) => {
                &&& refusal(old(value)@, catalogue_of(catalogue@)) is Some
                &&& error.words() == refusal(old(value)@, catalogue_of(catalogue@))
                &&& final(value)@ == old(value)@
            },
        },
{
    let ghost cat = catalogue_of(catalogue@);
    match value.as_object() {
        None => {
            return Err(PulseError::message(ROOT_NOT_OBJECT));
        },
        Some(root) => match root.get("hooks") {
            Some(hooks) => match hooks.as_object() {
                None => {
                    return Err(PulseError::message("`hooks` field must be a JSON object"));
                },
                Some(events) => {
                    if !events_well_shaped(events, catalogue) {
                        return Err(PulseError::message("Hook event entries must be arrays"));
                    }
                },
            },
            None => {
                proof {
                    lemma_empty_section(cat);
                }
                return Ok(false);
            },
        },
    }
    let mut taken = Json::Null;
    core::mem::swap(value, &mut taken);
    proof {
        lemma_view_unfold(taken);
    }
    match taken {
        Json::Object(mut root) => {
            let ghost members = root@;
            let mut events = JsonObject::new();
            match root.remove("hooks") {
                Some(Json::Object(stored)) => {
                    proof {
                        lemma_view_unfold(Json::Object(stored));
                    }
                    events = stored;
                },
                Some(other) => {},
                None => {},
            }
            let ghost start = events@;
            assert(hooks_section(old(value)@) == Some(start));
            let mut changed = false;
            let mut i: usize = 0;
            assert(cat.take(0) =~= Seq::<(Seq<char>, Seq<char>)>::empty());
            while i < catalogue.len()
                invariant
                    i <= catalogue.len(),
                    cat == catalogue_of(catalogue@),
                    events@ == uninstall_all(start, cat.take(i as int)),
                    changed == any_installed(start, cat.take(i as int)),
                decreases catalogue.len() - i,
            {
                let removed = remove_event(&mut events, catalogue[i].0, catalogue[i].1);
                proof {
                    let front = cat.take(i as int);
                    let next = cat.take(i as int + 1);
                    assert(next.drop_last() =~= front);
                    assert(next.last() == cat[i as int]);
                    lemma_uninstalled(start, front, cat[i as int]);
                    if any_installed(start, front) {
                        let k = choose|k: int|
                            0 <= k < front.len() && is_installed(start, #[trigger] front[k]);
                        assert(is_installed(start, next[k]));
                    }
                    if removed {
                        assert(is_installed(start, next[i as int]));
                    }
                    if any_installed(start, next) && !removed {
                        let k = choose|k: int|
                            0 <= k < next.len() && is_installed(start, #[trigger] next[k]);
                        if k < i {
                            assert(is_installed(start, front[k]));
                        } else {
                            assert(front.contains(cat[i as int]));
                            let j = choose|j: int|
                                0 <= j < front.len() && front[j] == cat[i as int];
                            assert(is_installed(start, front[j]));
                        }
                    }
                }
                if removed {
                    changed = true;
                }
                i = i + 1;
            }
            assert(cat.take(i as int) =~= cat);
            if changed && events.is_empty() {
                proof {
                    assert(root@ =~= members.remove("hooks"@));
                }
            } else {
                let section = Json::Object(events);
                proof {
                    lemma_view_unfold(section);
                    if !changed {
                        lemma_uninstall_again(start, cat);
                    }
                }
                root.insert("hooks".to_owned(), section);
                proof {
                    assert(root@ =~= members.insert("hooks"@, section@));
                    if !changed {
                        assert(root@ =~= members);
                    }
                }
            }
            *value = Json::Object(root);
            proof {
                lemma_view_unfold(*value);
                lemma_uninstall_changes(old(value)@, cat);
            }
            Ok(changed)
        },
        other => {
            *value = other;
            Ok(false)
        },
    }
}

/// Counts the hooks of `catalogue` that are installed in the document.
///
/// The result holds the number of installed hooks, the size of the
/// catalogue, and the events of the installed hooks in catalogue order. A
/// hook counts as installed when, under its event, some group entry holds a
/// record with exactly its command.
pub fn count_installed(value: &Json, catalogue: &[(&'static str, &'static str)]) -> (counts: (
    usize,
    usize,
    Vec<String>,
))
    ensures
        counts.0 == counts.2@.len(),
        counts.1 == catalogue@.len(),
        texts_of(counts.2@) == installed_names(
            events_or_empty(value@),
            catalogue_of(catalogue@),
        ),
{
    let ghost cat = catalogue_of(catalogue@);
    let ghost section = events_or_empty(value@);
    let total = catalogue.len();
    let mut names: Vec<String> = Vec::new();
    let hooks = match value.get("hooks") {
        Some(hooks) => hooks.as_object(),
        None => None,
    };
    let mut i: usize = 0;
    proof {
        assert(cat.take(0) =~= Seq::<(Seq<char>, Seq<char>)>::empty());
        reveal(Seq::filter);
        assert(texts_of(names@) =~= installed_names(section, cat.take(0)));
    }
    while i < catalogue.len()
        invariant
            i <= catalogue.len(),
            cat == catalogue_of(catalogue@),
            match hooks {
                Some(events) => section == events@,
                None => section == Map::<Seq<char>, JsonValue>::empty(),
            },
            names@.len() <= i,
            texts_of(names@) == installed_names(section, cat.take(i as int)),
        decreases catalogue.len() - i,
    {
        let present = match hooks {
            Some(events) => match events.get(catalogue[i].0) {
                Some(stored) => match stored.as_array() {
                    Some(entries) => entries_contain_command(entries, catalogue[i].1),
                    None => false,
                },
                None => false,
            },
            None => false,
        };
        proof {
            let front = cat.take(i as int);
            let next = cat.take(i as int + 1);
            assert(next =~= front.push(cat[i as int]));
            front.lemma_filter_push(cat[i as int], installed_in(section));
            if !present {
                assert(entries_at(section, cat[i as int].0) =~= Seq::<JsonValue>::empty()
                    || !entries_have_command(entries_at(section, cat[i as int].0), cat[i as int].1));
            }
            assert(present == is_installed(section, cat[i as int]));
            if present {
                assert(front.filter(installed_in(section)).push(cat[i as int]).map_values(
                    event_of(),
                ) =~= installed_names(section, front).push(cat[i as int].0));
            }
        }
        if present {
            let name = catalogue[i].0.to_owned();
            proof {
                assert(texts_of(names@.push(name)) =~= texts_of(names@).push(name@));
            }
            names.push(name);
        }
        i = i + 1;
    }
    proof {
        assert(cat.take(i as int) =~= cat);
    }
    (names.len(), total, names)
}

/// The catalogue of this target.
pub open spec fn claude_catalogue() -> Catalogue {
    catalogue_of(HOOK_DEFINITIONS@)
}

/// The settings file of the host, as it was found.
#[derive(Debug)]
pub struct SettingsFile {
    /// The file is there: the host is on this machine.
    pub exists: bool,
    /// What reading the file gave.
    pub contents: FileState,
}

/// The document that `connect` and `disconnect` work on: the one read from
/// the file, or an empty object where the file has gone since it was seen.
/// `None` where the file cannot be read or its text is not JSON.
pub open spec fn read_document(contents: FileState) -> Option<JsonValue> {
    match contents {
        FileState::Missing => Some(JsonValue::Object(Map::empty())),
        FileState::Unreadable(_) => None,
        FileState::Contents(text) => parsed(text@),
    }
}

/// The status of a detected host whose settings are the document `doc`.
pub open spec fn settled(
    tool: Seq<char>,
    path: PathBuf,
    doc: JsonValue,
    modified: bool,
) -> StatusView {
    let names = installed_names(events_or_empty(doc), claude_catalogue());
    StatusView {
        tool,
        detected: true,
        connected: names.len() == claude_catalogue().len(),
        modified,
        path: Some(path),
        message: None,
        installed_hooks: names.len(),
        total_hooks: claude_catalogue().len(),
        installed_hook_names: names,
    }
}

/// What an operation that turned the settings into `after` returns: the
/// status of `after`, and the file to write where the operation counts as a
/// change.
pub open spec fn rewritten(
    tool: Seq<char>,
    path: PathBuf,
    after: JsonValue,
    changed: bool,
    status: StatusView,
    action: ActionView,
) -> bool {
    &&& status == settled(tool, path, after, changed)
    &&& if changed {
        &&& action matches ActionView::Write(files)
        &&& files.len() == 1
        &&& files[0].0 == path
        &&& pretty_text(after) == Some(files[0].1)
    } else {
        action is Nothing
    }
}

/// The integration target whose settings are one JSON document.
#[derive(Debug, Clone)]
pub struct ClaudeCodeHook {
    tool: &'static str,
    settings_path: PathBuf,
}

impl ClaudeCodeHook {
    /// The settings file of the host.
    pub closed spec fn path(self) -> PathBuf {
        self.settings_path
    }

    /// The name under which the target is reported.
    pub closed spec fn label(self) -> Seq<char> {
        self.tool@
    }

    /// The target that is reported as `tool` and whose settings file is
    /// `settings_path`.
    pub fn at(tool: &'static str, settings_path: PathBuf) -> (hook: ClaudeCodeHook)
        ensures
            hook.label() == tool@,
            hook.path() == settings_path,
    {
        ClaudeCodeHook { tool, settings_path }
    }

    /// The target of the user whose home directory is `home`, with its
    /// settings file at `settings_file` below that directory, or the error
    /// `HomeDirNotFound` where there is no home directory.
    pub fn in_home(tool: &'static str, home: Option<PathBuf>, settings_file: &str) -> (outcome:
        Result<ClaudeCodeHook, PulseError>)
        ensures
            match home {
                Some(dir) => {
                    &&& outcome matches Ok(hook)
                    &&& hook.label() == tool@
                    &&& hook.path() == crate::hooks::joined(dir, settings_file@)
                },
                None => outcome matches Err(error) && error is HomeDirNotFound,
            },
    {
        match home {
            Some(dir) => Ok(
                ClaudeCodeHook { tool, settings_path: join_path(&dir, settings_file) },
            ),
            None => Err(PulseError::HomeDirNotFound),
        }
    }

    /// The target of the current user, with its settings file at
    /// `settings_file` below the user's home directory, whichever that turns
    /// out to be. Without a home directory the error is `HomeDirNotFound`.
    pub fn new(tool: &'static str, settings_file: &str) -> (outcome: Result<
        ClaudeCodeHook,
        PulseError,
    >)
        ensures
            match outcome {
                Ok(hook) => {
                    &&& hook.label() == tool@
                    &&& exists|home: PathBuf|
                        hook.path() == #[trigger] crate::hooks::joined(home, settings_file@)
                },
                Err(error) => error is HomeDirNotFound,
            },
    {
        let home = home_dir();
        let ghost found = home;
        let outcome = ClaudeCodeHook::in_home(tool, home, settings_file);
        proof {
            if let Some(base) = found {
                assert(outcome->Ok_0.path() == crate::hooks::joined(base, settings_file@));
            }
        }
        outcome
    }

    /// The settings file of the host.
    pub fn settings_path(&self) -> (path: PathBuf)
        ensures
            path == self.path(),
    {
        self.settings_path.clone()
    }

    /// Installs the hooks of this target's catalogue that the document lacks.
    pub fn insert_hooks(value: &mut Json) -> (outcome: Result<bool, PulseError>)
        ensures
            match outcome {
                Ok(changed) => {
                    &&& refusal(old(value)@, claude_catalogue()) is None
                    &&& final(value)@ == installed_doc(old(value)@, claude_catalogue())
                    &&& changed == !all_installed(
                        events_or_empty(old(value)@),
                        claude_catalogue(),
                    )
                    &&& changed == (final(value)@ != old(value)@)
                },
                Err(error) => {
                    &&& refusal(old(value)@, claude_catalogue()) is Some
                    &&& error.words() == refusal(old(value)@, claude_catalogue())
                    &&& final(value)@ == old(value)@
                },
            },
    {
        install_hooks(value, &HOOK_DEFINITIONS)
    }

    /// Removes the hooks of this target's catalogue from the document.
    pub fn remove_hooks(value: &mut Json) -> (outcome: Result<bool, PulseError>)
        ensures
            match outcome {
                Ok(changed) => {
                    &&& refusal(old(value)@, claude_catalogue()) is None
                    &&& final(value)@ == uninstalled_doc(old(value)@, claude_catalogue())
                    &&& changed == any_installed(events_or_empty(old(value)@), claude_catalogue())
                    &&& changed == (final(value)@ != old(value)@)
                },
                Err(error) => {
                    &&& refusal(old(value)@, claude_catalogue()) is Some
                    &&& error.words() == refusal(old(value)@, claude_catalogue())
                    &&& final(value)@ == old(value)@
                },
            },
    {
        uninstall_hooks(value, &HOOK_DEFINITIONS)
    }

    /// The status of the detected host whose settings are `value`.
    pub fn document_status(&self, value: &Json, modified: bool) -> (status: HookStatus)
        ensures
            status@ == settled(self.label(), self.path(), value@, modified),
    {
        let (installed, total, names) = installed_hook_counts(value);
        HookStatus {
            tool: self.tool,
            detected: true,
            connected: installed == total,
            modified,
            path: Some(self.settings_path.clone()),
            message: None,
            installed_hooks: installed,
            total_hooks: total,
            installed_hook_names: names,
        }
    }

    /// Reads the document that `connect` and `disconnect` work on.
    fn load(contents: FileState) -> (outcome: Result<Json, PulseError>)
        ensures
            match outcome {
                Ok(value) => read_document(contents) == Some(value@),
                Err(error) => read_document(contents) is None && match contents {
                    FileState::Unreadable(cause) => error == PulseError::Io(cause),
                    _ => error is Json,
                },
            },
    {
        match contents {
            FileState::Missing => {
                let empty = Json::Object(JsonObject::new());
                proof {
                    lemma_view_unfold(empty);
                }
                Ok(empty)
            },
            FileState::Unreadable(cause) => Err(PulseError::Io(cause)),
            FileState::Contents(text) => Json::from_text(text.as_str()),
        }
    }

    /// What to return after the settings have become `value`.
    fn settle(&self, value: &Json, changed: bool) -> (outcome: Result<Outcome, PulseError>)
        ensures
            outcome matches Ok(done) && rewritten(
                self.label(),
                self.path(),
                value@,
                changed,
                done.status@,
                done.action@,
            ),
    {
        let mut action = Action::Nothing;
        if changed {
            let contents = value.to_pretty_text()?;
            let mut files: Vec<FileWrite> = Vec::new();
            files.push(FileWrite { path: self.settings_path.clone(), contents });
            action = Action::Write(files);
        }
        Ok(Outcome { status: self.document_status(value, changed), action })
    }

    /// The state of the host, from its settings file.
    fn current_status(&self, observed: SettingsFile) -> (outcome: Result<HookStatus, PulseError>)
        ensures
            match outcome {
                Ok(status) => match observed.contents {
                    FileState::Contents(text) if observed.exists => parsed(text@) matches Some(doc)
                        && status@ == settled(self.label(), self.path(), doc, false),
                    FileState::Unreadable(_) => !observed.exists && status@ == undetected(
                        self.label(),
                        self.path(),
                    ),
                    _ => status@ == undetected(self.label(), self.path()),
                },
                Err(error) => observed.exists && match observed.contents {
                    FileState::Unreadable(cause) => error == PulseError::Io(cause),
                    FileState::Contents(text) => parsed(text@) is None && error is Json,
                    FileState::Missing => false,
                },
            },
    {
        if !observed.exists {
            return Ok(HookStatus::not_detected(self.tool, self.settings_path.clone()));
        }
        match observed.contents {
            FileState::Missing => Ok(
                HookStatus::not_detected(self.tool, self.settings_path.clone()),
            ),
            FileState::Unreadable(cause) => Err(PulseError::Io(cause)),
            FileState::Contents(text) => {
                let value = Json::from_text(text.as_str())?;
                Ok(self.document_status(&value, false))
            },
        }
    }
}

/// Counts the hooks of this target's catalogue that are installed in the
/// document: how many, out of how many, and the events of those that are.
pub fn installed_hook_counts(value: &Json) -> (counts: (usize, usize, Vec<String>))
    ensures
        counts.0 == counts.2@.len(),
        counts.1 == claude_catalogue().len(),
        texts_of(counts.2@) == installed_names(events_or_empty(value@), claude_catalogue()),
{
    count_installed(value, &HOOK_DEFINITIONS)
}

impl ToolHook for ClaudeCodeHook {
    type Observation = SettingsFile;

    open spec fn found(observed: SettingsFile) -> bool {
        observed.exists
    }

    open spec fn name(&self) -> Seq<char> {
        self.label()
    }

    fn tool_name(&self) -> (name: &'static str) {
        self.tool
    }

    /// The status of the host: undetected where the settings file is not
    /// there, else the count of the catalogue's hooks in the document.
    fn status(&self, observed: SettingsFile) -> (outcome: Result<HookStatus, PulseError>)
        ensures
            match outcome {
                Ok(status) => match observed.contents {
                    FileState::Contents(text) if observed.exists => parsed(text@) matches Some(doc)
                        && status@ == settled(self.label(), self.path(), doc, false),
                    FileState::Unreadable(_) => !observed.exists && status@ == undetected(
                        self.label(),
                        self.path(),
                    ),
                    _ => status@ == undetected(self.label(), self.path()),
                },
                Err(error) => observed.exists && match observed.contents {
                    FileState::Unreadable(cause) => error == PulseError::Io(cause),
                    FileState::Contents(text) => parsed(text@) is None && error is Json,
                    FileState::Missing => false,
                },
            },
    {
        self.current_status(observed)
    }

    /// Installs the catalogue's hooks that the settings lack, and asks for
    /// the file to be written where one was added.
    fn connect(&self, observed: SettingsFile) -> (outcome: Result<Outcome, PulseError>)
        ensures
            match outcome {
                Ok(done) => if observed.exists {
                    &&& read_document(observed.contents) matches Some(doc)
                    &&& refusal(doc, claude_catalogue()) is None
                    &&& rewritten(
                        self.label(),
                        self.path(),
                        installed_doc(doc, claude_catalogue()),
                        !all_installed(events_or_empty(doc), claude_catalogue()),
                        done.status@,
                        done.action@,
                    )
                } else {
                    &&& done.status@ == undetected(self.label(), self.path())
                    &&& done.action@ is Nothing
                },
                Err(error) => observed.exists && match read_document(observed.contents) {
                    None => match observed.contents {
                        FileState::Unreadable(cause) => error == PulseError::Io(cause),
                        _ => error is Json,
                    },
                    Some(doc) => match refusal(doc, claude_catalogue()) {
                        Some(words) => error.words() == Some(words),
                        None => false,
                    },
                },
            },
    {
        if !observed.exists {
            return Ok(
                Outcome {
                    status: HookStatus::not_detected(self.tool, self.settings_path.clone()),
                    action: Action::Nothing,
                },
            );
        }
        let mut value = ClaudeCodeHook::load(observed.contents)?;
        let ghost doc = value@;
        let changed = ClaudeCodeHook::insert_hooks(&mut value)?;
        proof {
            let cat = claude_catalogue();
            if !all_installed(events_or_empty(doc), cat) {
                let after = install_all(events_or_empty(doc), cat);
                assert(events_or_empty(value@) == after);
                assert forall|k: int| 0 <= k < cat.len() implies is_installed(
                    after,
                    #[trigger] cat[k],
                ) by {
                    lemma_install_all(events_or_empty(doc), cat, cat[k]);
                    assert(cat.contains(cat[k]));
                }
            }
            lemma_names_full(events_or_empty(value@), cat);
        }
        self.settle(&value, changed)
    }

    /// Removes the catalogue's hooks from the settings, and asks for the
    /// file to be written where that counts as a change.
    fn disconnect(&self, observed: SettingsFile) -> (outcome: Result<Outcome, PulseError>)
        ensures
            match outcome {
                Ok(done) => if observed.exists {
                    &&& read_document(observed.contents) matches Some(doc)
                    &&& refusal(doc, claude_catalogue()) is None
                    &&& rewritten(
                        self.label(),
                        self.path(),
                        uninstalled_doc(doc, claude_catalogue()),
                        any_installed(events_or_empty(doc), claude_catalogue()),
                        done.status@,
                        done.action@,
                    )
                } else {
                    &&& done.status@ == undetected(self.label(), self.path())
                    &&& done.action@ is Nothing
                },
                Err(error) => observed.exists && match read_document(observed.contents) {
                    None => match observed.contents {
                        FileState::Unreadable(cause) => error == PulseError::Io(cause),
                        _ => error is Json,
                    },
                    Some(doc) => match refusal(doc, claude_catalogue()) {
                        Some(words) => error.words() == Some(words),
                        None => false,
                    },
                },
            },
    {
        if !observed.exists {
            return Ok(
                Outcome {
                    status: HookStatus::not_detected(self.tool, self.settings_path.clone()),
                    action: Action::Nothing,
                },
            );
        }
        let mut value = ClaudeCodeHook::load(observed.contents)?;
        let ghost doc = value@;
        let changed = ClaudeCodeHook::remove_hooks(&mut value)?;
        proof {
            let cat = claude_catalogue();
            lemma_after_uninstall(doc, cat);
            lemma_names_none(events_or_empty(value@), cat);
            assert(cat.len() == 10);
        }
        self.settle(&value, changed)
    }
}

} // verus!
