//! A catalogue of hooks and the hooks section of a settings document: what
//! it means for a hook to be installed, what installing and removing a
//! catalogue makes of a section, and what follows from that.

use crate::json::JsonValue;
use vstd::prelude::*;

verus! {

/// What is said of a settings file that holds no object.
pub const ROOT_NOT_OBJECT: &'static str = "settings file must contain a JSON object";

/// A catalogue of hooks: pairs of an event name and a command.
pub type Catalogue = Seq<(Seq<char>, Seq<char>)>;

/// The hooks section of a document: from event name to what is stored under it.
pub type Events = Map<Seq<char>, JsonValue>;

/// The catalogue that a list of definitions stands for.
pub open spec fn catalogue_of(defs: Seq<(&'static str, &'static str)>) -> Catalogue {
    Seq::new(defs.len(), |i: int| (defs[i].0@, defs[i].1@))
}

/// A hook record runs exactly the command `command`.
pub open spec fn record_has_command(record: JsonValue, command: Seq<char>) -> bool {
    record.member("command"@) == Some(JsonValue::Text(command))
}

/// The hook records of a group entry: `None` unless the entry is an object
/// whose `hooks` member is an array.
pub open spec fn group_records(entry: JsonValue) -> Option<Seq<JsonValue>> {
    match entry.member("hooks"@) {
        Some(JsonValue::Array(records)) => Some(records),
        _ => None,
    }
}

/// Some record among `records` runs `command`.
pub open spec fn records_have_command(records: Seq<JsonValue>, command: Seq<char>) -> bool {
    exists|i: int| 0 <= i < records.len() && record_has_command(#[trigger] records[i], command)
}

/// A group entry holds a record that runs `command`.
pub open spec fn entry_has_command(entry: JsonValue, command: Seq<char>) -> bool {
    match group_records(entry) {
        Some(records) => records_have_command(records, command),
        None => false,
    }
}

/// A group entry holds no record at all: its record list is empty or missing.
pub open spec fn entry_is_hollow(entry: JsonValue) -> bool {
    match group_records(entry) {
        Some(records) => records.len() == 0,
        None => true,
    }
}

/// Some group entry among `entries` holds a record that runs `command`.
pub open spec fn entries_have_command(entries: Seq<JsonValue>, command: Seq<char>) -> bool {
    exists|i: int| 0 <= i < entries.len() && entry_has_command(#[trigger] entries[i], command)
}

/// The record that runs `command`, as it is installed.
pub open spec fn new_record(command: Seq<char>) -> JsonValue {
    JsonValue::Object(
        Map::<Seq<char>, JsonValue>::empty().insert("type"@, JsonValue::Text("command"@)).insert(
            "async"@,
            JsonValue::Bool(true),
        ).insert("command"@, JsonValue::Text(command)),
    )
}

/// The group entry that is installed for `command`: an empty matcher and the
/// one record that runs the command.
pub open spec fn new_group(command: Seq<char>) -> JsonValue {
    JsonValue::Object(
        Map::<Seq<char>, JsonValue>::empty().insert("matcher"@, JsonValue::Text(Seq::empty())).insert(
            "hooks"@,
            JsonValue::Array(seq![new_record(command)]),
        ),
    )
}

/// The test that keeps every record but those that run `command`.
pub open spec fn runs_other(command: Seq<char>) -> spec_fn(JsonValue) -> bool {
    |record: JsonValue| !record_has_command(record, command)
}

/// A group entry after the records that run `command` have left it. An entry
/// without a record list stays as it is.
pub open spec fn entry_without(entry: JsonValue, command: Seq<char>) -> JsonValue {
    match group_records(entry) {
        Some(records) => JsonValue::Object(
            entry->Object_0.insert("hooks"@, JsonValue::Array(records.filter(runs_other(command)))),
        ),
        None => entry,
    }
}

/// The group entries after `command` has been made sure of: unchanged where
/// one of them runs it already, with the new group at the end where none does.
pub open spec fn with_command(entries: Seq<JsonValue>, command: Seq<char>) -> Seq<JsonValue> {
    if entries_have_command(entries, command) {
        entries
    } else {
        entries.push(new_group(command))
    }
}

/// The step that takes the records running `command` out of a group entry.
pub open spec fn stripped(command: Seq<char>) -> spec_fn(JsonValue) -> JsonValue {
    |entry: JsonValue| entry_without(entry, command)
}

/// A group entry is emptied by the removal of `command`: it holds a record
/// that runs the command, and no record of another command.
pub open spec fn is_emptied(entry: JsonValue, command: Seq<char>) -> bool {
    entry_has_command(entry, command) && entry_is_hollow(entry_without(entry, command))
}

/// The test that keeps the group entries that the removal of `command` does
/// not empty.
pub open spec fn stays(command: Seq<char>) -> spec_fn(JsonValue) -> bool {
    |entry: JsonValue| !is_emptied(entry, command)
}

/// The group entries of an event after `command` has been removed: the
/// entries that this empties go, and each other entry loses the records that
/// run the command. An entry that held no record before stays as it is.
pub open spec fn pruned(entries: Seq<JsonValue>, command: Seq<char>) -> Seq<JsonValue> {
    entries.filter(stays(command)).map_values(stripped(command))
}

/// The group entries stored under `event`: none where the key is missing or
/// holds no array.
pub open spec fn entries_at(events: Events, event: Seq<char>) -> Seq<JsonValue> {
    if events.contains_key(event) && events[event] is Array {
        events[event]->Array_0
    } else {
        Seq::empty()
    }
}

/// The hook `def` is installed: some group entry under its event runs its command.
pub open spec fn is_installed(events: Events, def: (Seq<char>, Seq<char>)) -> bool {
    entries_have_command(entries_at(events, def.0), def.1)
}

/// Every hook of the catalogue is installed.
pub open spec fn all_installed(events: Events, catalogue: Catalogue) -> bool {
    forall|k: int| 0 <= k < catalogue.len() ==> is_installed(events, #[trigger] catalogue[k])
}

/// Some hook of the catalogue is installed.
pub open spec fn any_installed(events: Events, catalogue: Catalogue) -> bool {
    exists|k: int| 0 <= k < catalogue.len() && is_installed(events, #[trigger] catalogue[k])
}

/// Under every event of the catalogue that the section has, it holds an array.
pub open spec fn well_shaped(events: Events, catalogue: Catalogue) -> bool {
    forall|k: int|
        0 <= k < catalogue.len() && events.contains_key((#[trigger] catalogue[k]).0)
            ==> events[catalogue[k].0] is Array
}

/// The section after one hook has been installed.
pub open spec fn install_one(events: Events, def: (Seq<char>, Seq<char>)) -> Events {
    if is_installed(events, def) {
        events
    } else {
        events.insert(def.0, JsonValue::Array(entries_at(events, def.0).push(new_group(def.1))))
    }
}

/// The section after the hooks of the catalogue have been installed, in order.
pub open spec fn install_all(events: Events, catalogue: Catalogue) -> Events
    decreases catalogue.len(),
{
    if catalogue.len() == 0 {
        events
    } else {
        install_one(install_all(events, catalogue.drop_last()), catalogue.last())
    }
}

/// The section after one hook has been uninstalled. Where the hook is not
/// installed, the section is as before. Else the entries of its event are
/// pruned, and where that leaves the event without an entry, its key goes.
pub open spec fn remove_one(events: Events, def: (Seq<char>, Seq<char>)) -> Events {
    if is_installed(events, def) {
        let left = pruned(entries_at(events, def.0), def.1);
        if left.len() == 0 {
            events.remove(def.0)
        } else {
            events.insert(def.0, JsonValue::Array(left))
        }
    } else {
        events
    }
}

/// The section after the catalogue has been uninstalled, hook by hook.
pub open spec fn uninstall_all(events: Events, catalogue: Catalogue) -> Events
    decreases catalogue.len(),
{
    if catalogue.len() == 0 {
        events
    } else {
        remove_one(uninstall_all(events, catalogue.drop_last()), catalogue.last())
    }
}

/// `event` is an event of the catalogue.
pub open spec fn names_event(catalogue: Catalogue, event: Seq<char>) -> bool {
    exists|k: int| 0 <= k < catalogue.len() && (#[trigger] catalogue[k]).0 == event
}

/// The group that is installed for a command runs that command and no other.
pub proof fn lemma_new_group(command: Seq<char>, other: Seq<char>)
    ensures
        group_records(new_group(command)) == Some(seq![new_record(command)]),
        entry_has_command(new_group(command), other) <==> other == command,
        !entry_is_hollow(new_group(command)),
{
    let records = seq![new_record(command)];
    assert(record_has_command(records[0], command));
    if entry_has_command(new_group(command), other) {
        let i = choose|i: int|
            0 <= i < records.len() && record_has_command(#[trigger] records[i], other);
        assert(records[i] == new_record(command));
    }
}

/// After the records that run `command` have left a group entry, it runs
/// exactly the other commands that it ran before.
pub proof fn lemma_entry_without(entry: JsonValue, command: Seq<char>, other: Seq<char>)
    ensures
        entry_has_command(entry_without(entry, command), other) <==> other != command
            && entry_has_command(entry, other),
        group_records(entry_without(entry, command)) == match group_records(entry) {
            Some(records) => Some(records.filter(runs_other(command))),
            None => None,
        },
{
    match group_records(entry) {
        Some(records) => {
            let keep = runs_other(command);
            let kept = records.filter(keep);
            assert(group_records(entry_without(entry, command)) == Some(kept));
            if records_have_command(kept, other) {
                let j = choose|j: int|
                    0 <= j < kept.len() && record_has_command(#[trigger] kept[j], other);
                records.lemma_filter_pred(keep, j);
                assert(kept.contains(kept[j]));
                records.lemma_filter_contains_rev(keep, kept[j]);
                let i = choose|i: int| 0 <= i < records.len() && records[i] == kept[j];
                assert(record_has_command(records[i], other));
            }
            if other != command && records_have_command(records, other) {
                let i = choose|i: int|
                    0 <= i < records.len() && record_has_command(#[trigger] records[i], other);
                assert(keep(records[i]));
                records.lemma_filter_contains(keep, i);
                let j = choose|j: int| 0 <= j < kept.len() && kept[j] == records[i];
                assert(record_has_command(kept[j], other));
            }
        },
        None => {},
    }
}

/// A group entry that does not run `command` is as it was after the
/// command's records have left it.
pub proof fn lemma_entry_untouched(entry: JsonValue, command: Seq<char>)
    requires
        !entry_has_command(entry, command),
    ensures
        entry_without(entry, command) == entry,
{
    match group_records(entry) {
        Some(records) => {
            let keep = runs_other(command);
            assert forall|i: int| 0 <= i < records.len() implies keep(#[trigger] records[i]) by {
                assert(!record_has_command(records[i], command));
            }
            lemma_filter_keeps_all(records, keep);
            assert(entry->Object_0.insert("hooks"@, JsonValue::Array(records))
                =~= entry->Object_0);
        },
        None => {},
    }
}

/// A filter that every item passes keeps the sequence as it is.
pub proof fn lemma_filter_keeps_all(items: Seq<JsonValue>, keep: spec_fn(JsonValue) -> bool)
    requires
        forall|i: int| 0 <= i < items.len() ==> keep(#[trigger] items[i]),
    ensures
        items.filter(keep) == items,
    decreases items.len(),
{
    if items.len() == 0 {
        reveal(Seq::filter);
    } else {
        let front = items.drop_last();
        assert forall|i: int| 0 <= i < front.len() implies keep(#[trigger] front[i]) by {
            assert(keep(items[i]));
        }
        lemma_filter_keeps_all(front, keep);
        assert(keep(items[items.len() - 1]));
        assert(items =~= front.push(items.last()));
        front.lemma_filter_push(items.last(), keep);
    }
}

/// After `command` has been removed from the entries of an event, they run
/// exactly the other commands that they ran before.
pub proof fn lemma_pruned(entries: Seq<JsonValue>, command: Seq<char>, other: Seq<char>)
    ensures
        entries_have_command(pruned(entries, command), other) <==> other != command
            && entries_have_command(entries, other),
{
    let kept = entries.filter(stays(command));
    let out = pruned(entries, command);
    if entries_have_command(out, other) {
        let j = choose|j: int| 0 <= j < out.len() && entry_has_command(#[trigger] out[j], other);
        assert(kept.contains(kept[j]));
        entries.lemma_filter_contains_rev(stays(command), kept[j]);
        let i = choose|i: int| 0 <= i < entries.len() && entries[i] == kept[j];
        lemma_entry_without(entries[i], command, other);
        assert(entry_has_command(entries[i], other));
    }
    if other != command && entries_have_command(entries, other) {
        let i = choose|i: int|
            0 <= i < entries.len() && entry_has_command(#[trigger] entries[i], other);
        lemma_entry_without(entries[i], command, other);
        assert(stays(command)(entries[i]));
        entries.lemma_filter_contains(stays(command), i);
        let j = choose|j: int| 0 <= j < kept.len() && kept[j] == entries[i];
        assert(entry_has_command(out[j], other));
    }
}

/// After a hook has been installed, the installed hooks are that one and
/// those that were installed before.
pub proof fn lemma_install_one(events: Events, def: (Seq<char>, Seq<char>), other: (
    Seq<char>,
    Seq<char>,
))
    ensures
        is_installed(install_one(events, def), other) <==> other == def || is_installed(
            events,
            other,
        ),
{
    if !is_installed(events, def) {
        let before = entries_at(events, def.0);
        let after = before.push(new_group(def.1));
        let next = install_one(events, def);
        assert(entries_at(next, def.0) == after);
        lemma_new_group(def.1, other.1);
        if other.0 == def.0 {
            if entries_have_command(after, other.1) {
                let i = choose|i: int|
                    0 <= i < after.len() && entry_has_command(#[trigger] after[i], other.1);
                if i < before.len() {
                    assert(entry_has_command(before[i], other.1));
                }
            }
            if entries_have_command(before, other.1) {
                let i = choose|i: int|
                    0 <= i < before.len() && entry_has_command(#[trigger] before[i], other.1);
                assert(entry_has_command(after[i], other.1));
            }
            if other.1 == def.1 {
                assert(entry_has_command(after[before.len() as int], other.1));
            }
        } else {
            assert(entries_at(next, other.0) == entries_at(events, other.0));
        }
    }
}

/// After a catalogue has been installed, the installed hooks are those of
/// the catalogue and those that were installed before.
pub proof fn lemma_install_all(events: Events, catalogue: Catalogue, other: (Seq<char>, Seq<char>))
    ensures
        is_installed(install_all(events, catalogue), other) <==> catalogue.contains(other)
            || is_installed(events, other),
    decreases catalogue.len(),
{
    if catalogue.len() > 0 {
        let front = catalogue.drop_last();
        lemma_install_all(events, front, other);
        lemma_install_one(install_all(events, front), catalogue.last(), other);
        if front.contains(other) {
            let i = choose|i: int| 0 <= i < front.len() && front[i] == other;
            assert(catalogue[i] == other);
        }
        if catalogue.contains(other) {
            let i = choose|i: int| 0 <= i < catalogue.len() && catalogue[i] == other;
            if i < front.len() {
                assert(front[i] == other);
            }
        }
    }
}

/// After a hook has been uninstalled, the installed hooks are those that
/// were installed before, but for that one.
pub proof fn lemma_remove_one(events: Events, def: (Seq<char>, Seq<char>), other: (
    Seq<char>,
    Seq<char>,
))
    ensures
        is_installed(remove_one(events, def), other) <==> other != def && is_installed(
            events,
            other,
        ),
{
    let next = remove_one(events, def);
    if is_installed(events, def) {
        let left = pruned(entries_at(events, def.0), def.1);
        lemma_pruned(entries_at(events, def.0), def.1, other.1);
        if left.len() == 0 {
            assert(entries_at(next, def.0) =~= left);
        } else {
            assert(entries_at(next, def.0) == left);
        }
        if other.0 != def.0 {
            assert(entries_at(next, other.0) == entries_at(events, other.0));
        }
    }
}

/// After a catalogue has been uninstalled, the installed hooks are those
/// that were installed before and are not in the catalogue.
pub proof fn lemma_uninstalled(events: Events, catalogue: Catalogue, other: (
    Seq<char>,
    Seq<char>,
))
    ensures
        is_installed(uninstall_all(events, catalogue), other) <==> !catalogue.contains(other)
            && is_installed(events, other),
    decreases catalogue.len(),
{
    if catalogue.len() > 0 {
        let front = catalogue.drop_last();
        lemma_uninstalled(events, front, other);
        lemma_remove_one(uninstall_all(events, front), catalogue.last(), other);
        if front.contains(other) {
            let i = choose|i: int| 0 <= i < front.len() && front[i] == other;
            assert(catalogue[i] == other);
        }
        if catalogue.contains(other) {
            let i = choose|i: int| 0 <= i < catalogue.len() && catalogue[i] == other;
            if i < front.len() {
                assert(front[i] == other);
            }
        }
    }
}

/// Installing a catalogue whose hooks are all installed changes nothing.
pub proof fn lemma_install_again(events: Events, catalogue: Catalogue)
    requires
        all_installed(events, catalogue),
    ensures
        install_all(events, catalogue) == events,
    decreases catalogue.len(),
{
    if catalogue.len() > 0 {
        let front = catalogue.drop_last();
        assert forall|k: int| 0 <= k < front.len() implies is_installed(
            events,
            #[trigger] front[k],
        ) by {
            assert(is_installed(events, catalogue[k]));
        }
        lemma_install_again(events, front);
        assert(is_installed(events, catalogue[catalogue.len() - 1]));
    }
}

/// Uninstalling a catalogue of which no hook is installed changes nothing.
pub proof fn lemma_uninstall_again(events: Events, catalogue: Catalogue)
    requires
        !any_installed(events, catalogue),
    ensures
        uninstall_all(events, catalogue) == events,
    decreases catalogue.len(),
{
    if catalogue.len() > 0 {
        let front = catalogue.drop_last();
        assert forall|k: int| 0 <= k < front.len() implies !is_installed(
            events,
            #[trigger] front[k],
        ) by {
            assert(!is_installed(events, catalogue[k]));
        }
        lemma_uninstall_again(events, front);
        assert(!is_installed(events, catalogue[catalogue.len() - 1]));
    }
}

/// The hooks section of a document, where it has one that is an object.
pub open spec fn hooks_section(doc: JsonValue) -> Option<Events> {
    match doc.member("hooks"@) {
        Some(JsonValue::Object(events)) => Some(events),
        _ => None,
    }
}

/// The hooks section of a document, read as empty where there is none.
pub open spec fn events_or_empty(doc: JsonValue) -> Events {
    match hooks_section(doc) {
        Some(events) => events,
        None => Map::empty(),
    }
}

/// Why a document is refused, in words: it is no object, its `hooks` member
/// is no object, or an event of the catalogue holds something else than an
/// array. `None` for a document that is accepted; one without a `hooks`
/// member is.
pub open spec fn refusal(doc: JsonValue, catalogue: Catalogue) -> Option<Seq<char>> {
    if !(doc is Object) {
        Some(ROOT_NOT_OBJECT@)
    } else if doc.member("hooks"@) is Some && hooks_section(doc) is None {
        Some("`hooks` field must be a JSON object"@)
    } else if !well_shaped(events_or_empty(doc), catalogue) {
        Some("Hook event entries must be arrays"@)
    } else {
        None
    }
}

/// The document after the catalogue has been installed. Where every hook is
/// installed already, it is as before. Else its `hooks` member holds the
/// section with the hooks installed, and every other member is as before.
pub open spec fn installed_doc(doc: JsonValue, catalogue: Catalogue) -> JsonValue {
    if all_installed(events_or_empty(doc), catalogue) {
        doc
    } else {
        JsonValue::Object(
            doc->Object_0.insert(
                "hooks"@,
                JsonValue::Object(install_all(events_or_empty(doc), catalogue)),
            ),
        )
    }
}

/// The document after the catalogue has been uninstalled. Where no hook of
/// it is installed, the document is as before. Else the section loses the
/// catalogue's hooks, and where that leaves nothing in it, the `hooks`
/// member goes as well.
pub open spec fn uninstalled_doc(doc: JsonValue, catalogue: Catalogue) -> JsonValue {
    let events = events_or_empty(doc);
    if !any_installed(events, catalogue) {
        doc
    } else {
        let left = uninstall_all(events, catalogue);
        if left == Map::<Seq<char>, JsonValue>::empty() {
            JsonValue::Object(doc->Object_0.remove("hooks"@))
        } else {
            JsonValue::Object(doc->Object_0.insert("hooks"@, JsonValue::Object(left)))
        }
    }
}

/// The test that keeps the hooks that are installed in `events`.
pub open spec fn installed_in(events: Events) -> spec_fn((Seq<char>, Seq<char>)) -> bool {
    |def: (Seq<char>, Seq<char>)| is_installed(events, def)
}

/// The step from a hook to the name of its event.
pub open spec fn event_of() -> spec_fn((Seq<char>, Seq<char>)) -> Seq<char> {
    |def: (Seq<char>, Seq<char>)| def.0
}

/// The events of the catalogue's hooks that are installed, in catalogue order.
pub open spec fn installed_names(events: Events, catalogue: Catalogue) -> Seq<Seq<char>> {
    catalogue.filter(installed_in(events)).map_values(event_of())
}

/// Where every hook of the catalogue is installed, the names are the events
/// of all of them.
pub proof fn lemma_names_all(events: Events, catalogue: Catalogue)
    requires
        all_installed(events, catalogue),
    ensures
        catalogue.filter(installed_in(events)) == catalogue,
        installed_names(events, catalogue) == catalogue.map_values(event_of()),
        installed_names(events, catalogue).len() == catalogue.len(),
    decreases catalogue.len(),
{
    if catalogue.len() > 0 {
        let front = catalogue.drop_last();
        let last = catalogue.last();
        assert forall|k: int| 0 <= k < front.len() implies is_installed(
            events,
            #[trigger] front[k],
        ) by {
            assert(is_installed(events, catalogue[k]));
        }
        lemma_names_all(events, front);
        assert(is_installed(events, catalogue[catalogue.len() - 1]));
        assert(catalogue =~= front.push(last));
        front.lemma_filter_push(last, installed_in(events));
    } else {
        reveal(Seq::filter);
    }
}

/// Where no hook of the catalogue is installed, there are no names.
pub proof fn lemma_names_none(events: Events, catalogue: Catalogue)
    requires
        !any_installed(events, catalogue),
    ensures
        catalogue.filter(installed_in(events)) == Seq::<(Seq<char>, Seq<char>)>::empty(),
        installed_names(events, catalogue) == Seq::<Seq<char>>::empty(),
    decreases catalogue.len(),
{
    if catalogue.len() > 0 {
        let front = catalogue.drop_last();
        let last = catalogue.last();
        assert forall|k: int| 0 <= k < front.len() implies !is_installed(
            events,
            #[trigger] front[k],
        ) by {
            assert(!is_installed(events, catalogue[k]));
        }
        lemma_names_none(events, front);
        assert(!is_installed(events, catalogue[catalogue.len() - 1]));
        assert(catalogue =~= front.push(last));
        front.lemma_filter_push(last, installed_in(events));
    } else {
        reveal(Seq::filter);
    }
    assert(installed_names(events, catalogue) =~= Seq::<Seq<char>>::empty());
}

/// The names have as many entries as the catalogue exactly when every hook
/// of the catalogue is installed.
pub proof fn lemma_names_full(events: Events, catalogue: Catalogue)
    ensures
        installed_names(events, catalogue).len() <= catalogue.len(),
        installed_names(events, catalogue).len() == catalogue.len() <==> all_installed(
            events,
            catalogue,
        ),
{
    catalogue.lemma_filter_len(installed_in(events));
    if all_installed(events, catalogue) {
        lemma_names_all(events, catalogue);
    } else {
        let k = choose|k: int|
            0 <= k < catalogue.len() && !is_installed(events, #[trigger] catalogue[k]);
        lemma_filter_short(events, catalogue, k);
    }
}

/// A catalogue with a hook that is not installed has fewer installed hooks
/// than hooks.
proof fn lemma_filter_short(events: Events, catalogue: Catalogue, k: int)
    requires
        0 <= k < catalogue.len(),
        !is_installed(events, catalogue[k]),
    ensures
        catalogue.filter(installed_in(events)).len() < catalogue.len(),
    decreases catalogue.len(),
{
    let front = catalogue.drop_last();
    let last = catalogue.last();
    assert(catalogue =~= front.push(last));
    front.lemma_filter_push(last, installed_in(events));
    front.lemma_filter_len(installed_in(events));
    if k < front.len() {
        assert(front[k] == catalogue[k]);
        lemma_filter_short(events, front, k);
    }
}

/// After a catalogue has been uninstalled from a section, none of its hooks
/// is installed in what is left.
pub proof fn lemma_uninstall_all(events: Events, catalogue: Catalogue)
    ensures
        !any_installed(uninstall_all(events, catalogue), catalogue),
{
    assert forall|k: int| 0 <= k < catalogue.len() implies !is_installed(
        uninstall_all(events, catalogue),
        #[trigger] catalogue[k],
    ) by {
        lemma_uninstalled(events, catalogue, catalogue[k]);
        assert(catalogue.contains(catalogue[k]));
    }
}

/// A section without a key has no hook installed.
pub proof fn lemma_empty_section(catalogue: Catalogue)
    ensures
        !any_installed(Map::<Seq<char>, JsonValue>::empty(), catalogue),
{
    assert forall|k: int| 0 <= k < catalogue.len() implies !is_installed(
        Map::<Seq<char>, JsonValue>::empty(),
        #[trigger] catalogue[k],
    ) by {
        assert(entries_at(Map::<Seq<char>, JsonValue>::empty(), catalogue[k].0) =~= Seq::<
            JsonValue,
        >::empty());
    }
}

/// After a catalogue has been uninstalled from a document, none of its hooks
/// is installed in it.
pub proof fn lemma_after_uninstall(doc: JsonValue, catalogue: Catalogue)
    ensures
        !any_installed(events_or_empty(uninstalled_doc(doc, catalogue)), catalogue),
{
    let events = events_or_empty(doc);
    if any_installed(events, catalogue) {
        let left = uninstall_all(events, catalogue);
        lemma_uninstall_all(events, catalogue);
        lemma_empty_section(catalogue);
        assert(events_or_empty(uninstalled_doc(doc, catalogue)) == left);
    }
}

/// Installing changes a document exactly when some hook of the catalogue
/// was not installed in it.
pub proof fn lemma_install_changes(doc: JsonValue, catalogue: Catalogue)
    requires
        doc is Object,
    ensures
        installed_doc(doc, catalogue) != doc <==> !all_installed(events_or_empty(doc), catalogue),
{
    let events = events_or_empty(doc);
    if !all_installed(events, catalogue) {
        let k = choose|k: int|
            0 <= k < catalogue.len() && !is_installed(events, #[trigger] catalogue[k]);
        lemma_install_all(events, catalogue, catalogue[k]);
        assert(catalogue.contains(catalogue[k]));
        assert(events_or_empty(installed_doc(doc, catalogue)) == install_all(events, catalogue));
    }
}

/// Uninstalling changes a document exactly when some hook of the catalogue
/// was installed in it.
pub proof fn lemma_uninstall_changes(doc: JsonValue, catalogue: Catalogue)
    requires
        doc is Object,
    ensures
        uninstalled_doc(doc, catalogue) != doc <==> any_installed(events_or_empty(doc), catalogue),
{
    let events = events_or_empty(doc);
    if any_installed(events, catalogue) {
        lemma_after_uninstall(doc, catalogue);
        let k = choose|k: int|
            0 <= k < catalogue.len() && is_installed(events, #[trigger] catalogue[k]);
        assert(!is_installed(events_or_empty(uninstalled_doc(doc, catalogue)), catalogue[k]));
    }
}

} // verus!
