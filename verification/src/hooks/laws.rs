//! What holds of installing and uninstalling a catalogue of hooks, for every
//! document and every catalogue.

use crate::hooks::catalogue::{
    all_installed, any_installed, Catalogue, entries_at, entry_has_command, entry_without,
    Events, events_or_empty, group_records, hooks_section, install_all, install_one,
    installed_doc, installed_names, is_emptied, is_installed, lemma_after_uninstall,
    lemma_empty_section, lemma_entry_untouched, lemma_entry_without, lemma_install_again,
    lemma_install_all, lemma_install_changes, lemma_names_full, lemma_names_none,
    lemma_new_group, lemma_uninstall_changes, names_event, new_group, new_record, pruned,
    record_has_command, refusal, remove_one, runs_other, stays, uninstall_all, uninstalled_doc,
    well_shaped,
};
use crate::json::JsonValue;
use vstd::prelude::*;

verus! {

/// Installing keeps an array under every event of the catalogue.
proof fn lemma_install_keeps_shape(events: Events, catalogue: Catalogue, whole: Catalogue)
    requires
        well_shaped(events, whole),
    ensures
        well_shaped(install_all(events, catalogue), whole),
    decreases catalogue.len(),
{
    if catalogue.len() > 0 {
        lemma_install_keeps_shape(events, catalogue.drop_last(), whole);
    }
}

/// Uninstalling keeps an array under every event of the catalogue.
proof fn lemma_uninstall_keeps_shape(events: Events, catalogue: Catalogue, whole: Catalogue)
    requires
        well_shaped(events, whole),
    ensures
        well_shaped(uninstall_all(events, catalogue), whole),
    decreases catalogue.len(),
{
    if catalogue.len() > 0 {
        lemma_uninstall_keeps_shape(events, catalogue.drop_last(), whole);
    }
}

/// After a catalogue has been installed, every hook of it is installed.
proof fn lemma_installed(events: Events, catalogue: Catalogue)
    ensures
        all_installed(install_all(events, catalogue), catalogue),
{
    assert forall|k: int| 0 <= k < catalogue.len() implies is_installed(
        install_all(events, catalogue),
        #[trigger] catalogue[k],
    ) by {
        lemma_install_all(events, catalogue, catalogue[k]);
        assert(catalogue.contains(catalogue[k]));
    }
}

/// The section of a document after the catalogue has been installed in it.
proof fn lemma_installed_section(doc: JsonValue, catalogue: Catalogue)
    requires
        doc is Object,
    ensures
        events_or_empty(installed_doc(doc, catalogue)) == install_all(
            events_or_empty(doc),
            catalogue,
        ),
{
    if all_installed(events_or_empty(doc), catalogue) {
        lemma_install_again(events_or_empty(doc), catalogue);
    }
}

/// Installing into a document that is accepted leaves every hook of the
/// catalogue installed: the count of installed hooks is the size of the
/// catalogue. An empty object is accepted, whatever the catalogue.
pub proof fn law_install_is_complete(doc: JsonValue, catalogue: Catalogue)
    requires
        refusal(doc, catalogue) is None,
    ensures
        all_installed(events_or_empty(installed_doc(doc, catalogue)), catalogue),
        installed_names(events_or_empty(installed_doc(doc, catalogue)), catalogue).len()
            == catalogue.len(),
        refusal(JsonValue::Object(Map::empty()), catalogue) is None,
{
    lemma_installed_section(doc, catalogue);
    lemma_installed(events_or_empty(doc), catalogue);
    lemma_names_full(events_or_empty(installed_doc(doc, catalogue)), catalogue);
}

/// Installing twice is installing once: the document after the first
/// installation is accepted again, nothing is missing in it, so the second
/// installation reports no change and leaves the document as it is.
pub proof fn law_install_is_idempotent(doc: JsonValue, catalogue: Catalogue)
    requires
        refusal(doc, catalogue) is None,
    ensures
        refusal(installed_doc(doc, catalogue), catalogue) is None,
        all_installed(events_or_empty(installed_doc(doc, catalogue)), catalogue),
        installed_doc(installed_doc(doc, catalogue), catalogue) == installed_doc(doc, catalogue),
{
    lemma_installed_section(doc, catalogue);
    lemma_install_keeps_shape(events_or_empty(doc), catalogue, catalogue);
    lemma_installed(events_or_empty(doc), catalogue);
}

/// After uninstalling, no hook of the catalogue is installed: the count of
/// installed hooks is 0.
pub proof fn law_uninstall_is_complete(doc: JsonValue, catalogue: Catalogue)
    requires
        refusal(doc, catalogue) is None,
    ensures
        !any_installed(events_or_empty(uninstalled_doc(doc, catalogue)), catalogue),
        installed_names(events_or_empty(uninstalled_doc(doc, catalogue)), catalogue).len() == 0,
{
    lemma_after_uninstall(doc, catalogue);
    lemma_names_none(events_or_empty(uninstalled_doc(doc, catalogue)), catalogue);
}

/// Uninstalling twice is uninstalling once: the document after the first
/// time is accepted again, no hook of the catalogue is installed in it, so
/// the second time reports no change and leaves the document as it is.
pub proof fn law_uninstall_is_idempotent(doc: JsonValue, catalogue: Catalogue)
    requires
        refusal(doc, catalogue) is None,
    ensures
        refusal(uninstalled_doc(doc, catalogue), catalogue) is None,
        !any_installed(events_or_empty(uninstalled_doc(doc, catalogue)), catalogue),
        uninstalled_doc(uninstalled_doc(doc, catalogue), catalogue) == uninstalled_doc(
            doc,
            catalogue,
        ),
{
    lemma_after_uninstall(doc, catalogue);
    let events = events_or_empty(doc);
    if any_installed(events, catalogue) {
        lemma_uninstall_keeps_shape(events, catalogue, catalogue);
        let left = uninstall_all(events, catalogue);
        if left != Map::<Seq<char>, JsonValue>::empty() {
            assert(hooks_section(uninstalled_doc(doc, catalogue)) == Some(left));
        }
    }
}

/// Uninstalling from a document without a `hooks` member changes nothing and
/// reports no change, whatever else the document holds.
pub proof fn law_uninstall_without_hooks(doc: JsonValue, catalogue: Catalogue)
    requires
        doc is Object,
        doc.member("hooks"@) is None,
    ensures
        refusal(doc, catalogue) is None,
        uninstalled_doc(doc, catalogue) == doc,
        !any_installed(events_or_empty(doc), catalogue),
{
    lemma_empty_section(catalogue);
}

/// The result of installing and of uninstalling tells whether the document
/// changed: it did exactly when a hook of the catalogue was missing, when
/// installing, and exactly when one was installed, when uninstalling.
pub proof fn law_change_is_reported(doc: JsonValue, catalogue: Catalogue)
    requires
        refusal(doc, catalogue) is None,
    ensures
        installed_doc(doc, catalogue) != doc <==> !all_installed(events_or_empty(doc), catalogue),
        uninstalled_doc(doc, catalogue) != doc <==> any_installed(events_or_empty(doc), catalogue),
{
    lemma_install_changes(doc, catalogue);
    lemma_uninstall_changes(doc, catalogue);
}

/// Under each key of the section stands an array of at least one group,
/// every group installed for a hook of `whole` under that key, none of them
/// for a hook of `done`.
spec fn only_groups(events: Events, whole: Catalogue, done: Catalogue) -> bool {
    forall|event: Seq<char>| #[trigger]
        events.contains_key(event) ==> {
            &&& events[event] is Array
            &&& events[event]->Array_0.len() > 0
            &&& forall|i: int|
                0 <= i < events[event]->Array_0.len() ==> placed(
                    #[trigger] events[event]->Array_0[i],
                    event,
                    whole,
                    done,
                )
        }
}

/// `entry` is the group installed for a hook of `whole` under `event`, and
/// that hook is not in `done`.
spec fn placed(entry: JsonValue, event: Seq<char>, whole: Catalogue, done: Catalogue) -> bool {
    exists|k: int|
        0 <= k < whole.len() && (#[trigger] whole[k]).0 == event && entry == new_group(whole[k].1)
            && !done.contains(whole[k])
}

/// The group installed for one command stays as it is when another command
/// is removed from it, and is emptied when its own command is removed.
proof fn lemma_group_without(command: Seq<char>, other: Seq<char>)
    ensures
        other != command ==> entry_without(new_group(command), other) == new_group(command),
        other != command ==> !is_emptied(new_group(command), other),
        is_emptied(new_group(command), command),
{
    lemma_new_group(command, other);
    lemma_new_group(command, command);
    let records = seq![new_record(command)];
    let none = Seq::<JsonValue>::empty();
    assert(records =~= none.push(new_record(command)));
    reveal(Seq::filter);
    assert(none.filter(runs_other(command)) =~= none);
    none.lemma_filter_push(new_record(command), runs_other(command));
    assert(record_has_command(new_record(command), command));
    assert(records.filter(runs_other(command)) =~= none);
    lemma_entry_without(new_group(command), command, command);
    if other != command {
        lemma_entry_untouched(new_group(command), other);
    }
}

/// Installing into a section of installed groups gives a section of
/// installed groups.
proof fn lemma_only_groups_installed(events: Events, catalogue: Catalogue, whole: Catalogue)
    requires
        only_groups(events, whole, Seq::empty()),
        forall|k: int| 0 <= k < catalogue.len() ==> whole.contains(#[trigger] catalogue[k]),
    ensures
        only_groups(install_all(events, catalogue), whole, Seq::empty()),
    decreases catalogue.len(),
{
    if catalogue.len() > 0 {
        let front = catalogue.drop_last();
        let def = catalogue.last();
        assert forall|k: int| 0 <= k < front.len() implies whole.contains(#[trigger] front[k]) by {
            assert(whole.contains(catalogue[k]));
        }
        lemma_only_groups_installed(events, front, whole);
        let before = install_all(events, front);
        let after = install_one(before, def);
        assert(whole.contains(catalogue[catalogue.len() - 1]));
        let at = choose|k: int| 0 <= k < whole.len() && whole[k] == def;
        let none = Seq::<(Seq<char>, Seq<char>)>::empty();
        assert forall|event: Seq<char>| #[trigger] after.contains_key(event) implies {
            &&& after[event] is Array
            &&& after[event]->Array_0.len() > 0
            &&& forall|i: int|
                0 <= i < after[event]->Array_0.len() ==> placed(
                    #[trigger] after[event]->Array_0[i],
                    event,
                    whole,
                    none,
                )
        } by {
            if event == def.0 && !is_installed(before, def) {
                assert(whole[at].0 == event);
                let old_entries = entries_at(before, def.0);
                assert forall|i: int| 0 <= i < after[event]->Array_0.len() implies placed(
                    #[trigger] after[event]->Array_0[i],
                    event,
                    whole,
                    none,
                ) by {
                    if i < old_entries.len() {
                        assert(before.contains_key(event));
                        assert(placed(before[event]->Array_0[i], event, whole, none));
                    } else {
                        assert(after[event]->Array_0[i] == new_group(whole[at].1));
                    }
                }
            } else {
                assert(before.contains_key(event));
            }
        }
    }
}

/// One more hook in `done` leaves a group placed that is not the group of
/// that hook.
proof fn lemma_placed_more(
    entry: JsonValue,
    event: Seq<char>,
    whole: Catalogue,
    done: Catalogue,
    def: (Seq<char>, Seq<char>),
)
    requires
        placed(entry, event, whole, done),
        !(def.0 == event && entry == new_group(def.1)),
    ensures
        placed(entry, event, whole, done.push(def)),
{
    let more = done.push(def);
    let k = choose|k: int|
        0 <= k < whole.len() && (#[trigger] whole[k]).0 == event && entry == new_group(whole[k].1)
            && !done.contains(whole[k]);
    if more.contains(whole[k]) {
        let m = choose|m: int| 0 <= m < more.len() && more[m] == whole[k];
        if m < done.len() {
            assert(done[m] == whole[k]);
        }
    }
}

/// Uninstalling a hook from a section of installed groups takes the group of
/// that hook away and leaves the others.
proof fn lemma_only_groups_removed(
    events: Events,
    def: (Seq<char>, Seq<char>),
    whole: Catalogue,
    done: Catalogue,
)
    requires
        only_groups(events, whole, done),
    ensures
        only_groups(remove_one(events, def), whole, done.push(def)),
{
    let after = remove_one(events, def);
    let more = done.push(def);
    assert forall|event: Seq<char>| #[trigger] after.contains_key(event) implies {
        &&& after[event] is Array
        &&& after[event]->Array_0.len() > 0
        &&& forall|i: int|
            0 <= i < after[event]->Array_0.len() ==> placed(
                #[trigger] after[event]->Array_0[i],
                event,
                whole,
                more,
            )
    } by {
        assert(events.contains_key(event));
        let entries = events[event]->Array_0;
        if event == def.0 && is_installed(events, def) {
            let kept = entries.filter(stays(def.1));
            let out = pruned(entries, def.1);
            assert(after[event]->Array_0 == out);
            assert forall|i: int| 0 <= i < out.len() implies placed(
                #[trigger] out[i],
                event,
                whole,
                more,
            ) by {
                assert(kept.contains(kept[i]));
                entries.lemma_filter_contains_rev(stays(def.1), kept[i]);
                entries.lemma_filter_pred(stays(def.1), i);
                let j = choose|j: int| 0 <= j < entries.len() && entries[j] == kept[i];
                assert(placed(entries[j], event, whole, done));
                let k = choose|k: int|
                    0 <= k < whole.len() && (#[trigger] whole[k]).0 == event && entries[j]
                        == new_group(whole[k].1) && !done.contains(whole[k]);
                lemma_group_without(whole[k].1, def.1);
                assert(whole[k].1 != def.1);
                assert(out[i] == entries[j]);
                lemma_group_without(def.1, def.1);
                lemma_placed_more(out[i], event, whole, done, def);
            }
        } else {
            assert forall|i: int| 0 <= i < entries.len() implies placed(
                #[trigger] entries[i],
                event,
                whole,
                more,
            ) by {
                assert(placed(entries[i], event, whole, done));
                if def.0 == event && entries[i] == new_group(def.1) {
                    lemma_new_group(def.1, def.1);
                    assert(entry_has_command(entries[i], def.1));
                    assert(is_installed(events, def));
                }
                lemma_placed_more(entries[i], event, whole, done, def);
            }
        }
    }
}

/// Uninstalling a catalogue from a section of installed groups leaves the
/// groups of the hooks that are not in it.
proof fn lemma_only_groups_uninstalled(events: Events, catalogue: Catalogue, whole: Catalogue)
    requires
        only_groups(events, whole, Seq::empty()),
    ensures
        only_groups(uninstall_all(events, catalogue), whole, catalogue),
    decreases catalogue.len(),
{
    if catalogue.len() > 0 {
        let front = catalogue.drop_last();
        lemma_only_groups_uninstalled(events, front, whole);
        lemma_only_groups_removed(uninstall_all(events, front), catalogue.last(), whole, front);
        assert(front.push(catalogue.last()) =~= catalogue);
    } else {
        assert(catalogue =~= Seq::<(Seq<char>, Seq<char>)>::empty());
    }
}

/// Installing a catalogue into an empty section and uninstalling it again
/// leaves an empty section.
proof fn lemma_install_then_uninstall(catalogue: Catalogue)
    ensures
        uninstall_all(install_all(Map::empty(), catalogue), catalogue) == Map::<
            Seq<char>,
            JsonValue,
        >::empty(),
{
    let none = Seq::<(Seq<char>, Seq<char>)>::empty();
    let empty = Map::<Seq<char>, JsonValue>::empty();
    assert(only_groups(empty, catalogue, none));
    assert forall|k: int| 0 <= k < catalogue.len() implies catalogue.contains(
        #[trigger] catalogue[k],
    ) by {}
    lemma_only_groups_installed(empty, catalogue, catalogue);
    let full = install_all(empty, catalogue);
    lemma_only_groups_uninstalled(full, catalogue, catalogue);
    let left = uninstall_all(full, catalogue);
    assert forall|event: Seq<char>| !left.contains_key(event) by {
        if left.contains_key(event) {
            let entries = left[event]->Array_0;
            assert(placed(entries[0], event, catalogue, catalogue));
            let k = choose|k: int|
                0 <= k < catalogue.len() && (#[trigger] catalogue[k]).0 == event && entries[0]
                    == new_group(catalogue[k].1) && !catalogue.contains(catalogue[k]);
            assert(catalogue.contains(catalogue[k]));
        }
    }
    assert(left =~= empty);
}

/// Installing into a document without a `hooks` member and uninstalling
/// again gives the document back: the hooks section that was made for the
/// catalogue goes with its last entry.
pub proof fn law_install_then_uninstall(doc: JsonValue, catalogue: Catalogue)
    requires
        doc is Object,
        doc.member("hooks"@) is None,
    ensures
        refusal(doc, catalogue) is None,
        refusal(installed_doc(doc, catalogue), catalogue) is None,
        uninstalled_doc(installed_doc(doc, catalogue), catalogue) == doc,
{
    let empty = Map::<Seq<char>, JsonValue>::empty();
    assert(events_or_empty(doc) == empty);
    lemma_empty_section(catalogue);
    let once = installed_doc(doc, catalogue);
    if all_installed(empty, catalogue) {
        assert(once == doc);
    } else {
        let full = install_all(empty, catalogue);
        assert(hooks_section(once) == Some(full));
        lemma_install_keeps_shape(empty, catalogue, catalogue);
        lemma_install_then_uninstall(catalogue);
        lemma_installed(empty, catalogue);
        let k = choose|k: int|
            0 <= k < catalogue.len() && !is_installed(empty, #[trigger] catalogue[k]);
        assert(is_installed(full, catalogue[k]));
        assert(any_installed(full, catalogue));
        assert(once->Object_0.remove("hooks"@) =~= doc->Object_0);
    }
}

/// The section holds `record` in some group entry under `event`.
pub open spec fn holds_record(events: Events, event: Seq<char>, record: JsonValue) -> bool {
    exists|i: int, j: int|
        0 <= i < entries_at(events, event).len() && 0 <= j < records_at(events, event, i).len()
            && #[trigger] records_at(events, event, i)[j] == record
}

/// The records of the group entry at position `i` under `event`: none where
/// the entry has no record list.
pub open spec fn records_at(events: Events, event: Seq<char>, i: int) -> Seq<JsonValue> {
    match group_records(entries_at(events, event)[i]) {
        Some(records) => records,
        None => Seq::empty(),
    }
}

/// `record` runs the command of no hook that the catalogue has for `event`.
pub open spec fn is_foreign(catalogue: Catalogue, event: Seq<char>, record: JsonValue) -> bool {
    forall|k: int|
        0 <= k < catalogue.len() && (#[trigger] catalogue[k]).0 == event ==> !record_has_command(
            record,
            catalogue[k].1,
        )
}

/// Uninstalling one hook leaves every record that does not run its command
/// under its event.
proof fn lemma_remove_keeps_record(
    events: Events,
    def: (Seq<char>, Seq<char>),
    event: Seq<char>,
    record: JsonValue,
)
    requires
        holds_record(events, event, record),
        def.0 == event ==> !record_has_command(record, def.1),
    ensures
        holds_record(remove_one(events, def), event, record),
{
    let (i, j) = choose|i: int, j: int|
        0 <= i < entries_at(events, event).len() && 0 <= j < records_at(events, event, i).len()
            && #[trigger] records_at(events, event, i)[j] == record;
    let after = remove_one(events, def);
    if def.0 == event && is_installed(events, def) {
        let entries = entries_at(events, event);
        let records = records_at(events, event, i);
        let kept_entries = entries.filter(stays(def.1));
        let out = pruned(entries, def.1);
        lemma_entry_without(entries[i], def.1, def.1);
        let kept = records.filter(runs_other(def.1));
        assert(group_records(entry_without(entries[i], def.1)) == Some(kept));
        assert(runs_other(def.1)(records[j]));
        records.lemma_filter_contains(runs_other(def.1), j);
        let n = choose|n: int| 0 <= n < kept.len() && kept[n] == records[j];
        assert(stays(def.1)(entries[i]));
        entries.lemma_filter_contains(stays(def.1), i);
        let m = choose|m: int| 0 <= m < kept_entries.len() && kept_entries[m] == entries[i];
        assert(out[m] == entry_without(entries[i], def.1));
        assert(out.len() > 0);
        assert(entries_at(after, event) == out);
        assert(records_at(after, event, m)[n] == record);
    } else {
        assert(entries_at(after, event) == entries_at(events, event));
        assert(records_at(after, event, i)[j] == record);
    }
}

/// Uninstalling a catalogue leaves every record that is foreign to it.
proof fn lemma_uninstall_keeps_record(
    events: Events,
    catalogue: Catalogue,
    whole: Catalogue,
    event: Seq<char>,
    record: JsonValue,
)
    requires
        holds_record(events, event, record),
        is_foreign(whole, event, record),
        forall|k: int| 0 <= k < catalogue.len() ==> whole.contains(#[trigger] catalogue[k]),
    ensures
        holds_record(uninstall_all(events, catalogue), event, record),
    decreases catalogue.len(),
{
    if catalogue.len() > 0 {
        let front = catalogue.drop_last();
        let def = catalogue.last();
        assert forall|k: int| 0 <= k < front.len() implies whole.contains(#[trigger] front[k]) by {
            assert(whole.contains(catalogue[k]));
        }
        lemma_uninstall_keeps_record(events, front, whole, event, record);
        assert(whole.contains(catalogue[catalogue.len() - 1]));
        let at = choose|k: int| 0 <= k < whole.len() && whole[k] == def;
        assert(whole[at].0 == event ==> !record_has_command(record, whole[at].1));
        lemma_remove_keeps_record(uninstall_all(events, front), def, event, record);
    }
}

/// Installing a catalogue leaves every record where it is.
proof fn lemma_install_keeps_record(
    events: Events,
    catalogue: Catalogue,
    event: Seq<char>,
    record: JsonValue,
)
    requires
        holds_record(events, event, record),
    ensures
        holds_record(install_all(events, catalogue), event, record),
    decreases catalogue.len(),
{
    if catalogue.len() > 0 {
        let front = catalogue.drop_last();
        let def = catalogue.last();
        lemma_install_keeps_record(events, front, event, record);
        let before = install_all(events, front);
        let after = install_one(before, def);
        let (i, j) = choose|i: int, j: int|
            0 <= i < entries_at(before, event).len() && 0 <= j < records_at(before, event, i).len()
                && #[trigger] records_at(before, event, i)[j] == record;
        if def.0 == event && !is_installed(before, def) {
            assert(entries_at(after, event) == entries_at(before, event).push(new_group(def.1)));
        } else {
            assert(entries_at(after, event) == entries_at(before, event));
        }
        assert(records_at(after, event, i)[j] == record);
    }
}

/// Hooks of others survive: a record under an event that runs no command
/// which the catalogue has for that event is still there after installing
/// the catalogue, and still there after uninstalling it.
pub proof fn law_foreign_records_survive(
    doc: JsonValue,
    catalogue: Catalogue,
    event: Seq<char>,
    record: JsonValue,
)
    requires
        doc is Object,
        holds_record(events_or_empty(doc), event, record),
        is_foreign(catalogue, event, record),
    ensures
        holds_record(events_or_empty(installed_doc(doc, catalogue)), event, record),
        holds_record(events_or_empty(uninstalled_doc(doc, catalogue)), event, record),
{
    let events = events_or_empty(doc);
    lemma_installed_section(doc, catalogue);
    lemma_install_keeps_record(events, catalogue, event, record);
    assert(entries_at(events, event).len() > 0);
    if any_installed(events, catalogue) {
        assert forall|k: int| 0 <= k < catalogue.len() implies catalogue.contains(
            #[trigger] catalogue[k],
        ) by {}
        lemma_uninstall_keeps_record(events, catalogue, catalogue, event, record);
        let left = uninstall_all(events, catalogue);
        assert(entries_at(left, event).len() > 0);
        assert(left.contains_key(event));
        assert(events_or_empty(uninstalled_doc(doc, catalogue)) == left);
    }
}

/// Installing only adds: what is stored under an event that the catalogue
/// does not name is as before.
proof fn lemma_install_other_events(events: Events, catalogue: Catalogue, event: Seq<char>)
    requires
        !names_event(catalogue, event),
    ensures
        install_all(events, catalogue).contains_key(event) == events.contains_key(event),
        events.contains_key(event) ==> install_all(events, catalogue)[event] == events[event],
    decreases catalogue.len(),
{
    if catalogue.len() > 0 {
        let front = catalogue.drop_last();
        assert forall|k: int| 0 <= k < front.len() implies (#[trigger] front[k]).0 != event by {
            assert(catalogue[k].0 != event);
        }
        lemma_install_other_events(events, front, event);
        assert(catalogue[catalogue.len() - 1].0 != event);
    }
}

/// Uninstalling touches only the events of the catalogue.
proof fn lemma_uninstall_other_events(events: Events, catalogue: Catalogue, event: Seq<char>)
    requires
        !names_event(catalogue, event),
    ensures
        uninstall_all(events, catalogue).contains_key(event) == events.contains_key(event),
        events.contains_key(event) ==> uninstall_all(events, catalogue)[event] == events[event],
    decreases catalogue.len(),
{
    if catalogue.len() > 0 {
        let front = catalogue.drop_last();
        assert forall|k: int| 0 <= k < front.len() implies (#[trigger] front[k]).0 != event by {
            assert(catalogue[k].0 != event);
        }
        lemma_uninstall_other_events(events, front, event);
        assert(catalogue[catalogue.len() - 1].0 != event);
    }
}

/// What the catalogue does not name is left alone: a member of the document
/// other than `hooks`, and what the hooks section stores under an event that
/// is not in the catalogue, are the same after installing and after
/// uninstalling.
pub proof fn law_rest_is_untouched(
    doc: JsonValue,
    catalogue: Catalogue,
    key: Seq<char>,
    event: Seq<char>,
)
    requires
        doc is Object,
        key != "hooks"@,
        !names_event(catalogue, event),
    ensures
        installed_doc(doc, catalogue).member(key) == doc.member(key),
        uninstalled_doc(doc, catalogue).member(key) == doc.member(key),
        JsonValue::Object(events_or_empty(installed_doc(doc, catalogue))).member(event)
            == JsonValue::Object(events_or_empty(doc)).member(event),
        JsonValue::Object(events_or_empty(uninstalled_doc(doc, catalogue))).member(event)
            == JsonValue::Object(events_or_empty(doc)).member(event),
{
    let events = events_or_empty(doc);
    lemma_install_other_events(events, catalogue, event);
    lemma_uninstall_other_events(events, catalogue, event);
    lemma_installed_section(doc, catalogue);
    if any_installed(events, catalogue) {
        let left = uninstall_all(events, catalogue);
        assert(events_or_empty(uninstalled_doc(doc, catalogue)) == left);
    }
}

/// A group entry without records is no hook of anyone's and is left alone:
/// uninstalling a command keeps every entry that held no record before,
/// where it was.
pub proof fn law_empty_groups_stay(entries: Seq<JsonValue>, command: Seq<char>, i: int)
    requires
        0 <= i < entries.len(),
        !entry_has_command(entries[i], command),
    ensures
        pruned(entries, command).contains(entries[i]),
{
    let kept = entries.filter(stays(command));
    assert(stays(command)(entries[i]));
    entries.lemma_filter_contains(stays(command), i);
    let m = choose|m: int| 0 <= m < kept.len() && kept[m] == entries[i];
    lemma_entry_untouched(entries[i], command);
    assert(pruned(entries, command)[m] == entries[i]);
}

} // verus!
