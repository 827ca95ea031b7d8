use vstd::prelude::*;

use crate::entry::{
    default_field, has_key, inserted, key_index, lookup, new_default_field, removed, unique_keys,
    Entry, Field, Fields,
};
use crate::menu::{Choice, Menu};
use crate::text::join;

verus! {

/// What the entry list leads to.
#[derive(PartialEq, Eq, Clone, Debug)]
pub enum ListStep {
    /// Ask for a name and start a new, empty entry.
    AddEntry,
    /// Load the named entry and show it.
    OpenEntry(String),
}

/// What the entry detail leads to.
#[derive(PartialEq, Eq, Clone, Debug)]
pub enum EntryStep {
    /// Back to the entry list, with nothing to commit.
    GoBack,
    /// Ask for a field name and edit that field.
    AddField,
    /// Edit the named field.
    EditField(String),
}

/// What the field detail leads to.
#[derive(PartialEq, Eq, Structural, Clone, Copy, Debug)]
pub enum FieldStep {
    /// Put the field back under its name and return to the entry.
    SaveAndGoBack,
    /// Ask for a new name for the field.
    Rename,
}

/// The entry list: one action to add an entry, then the entries' names.
pub fn entry_list_menu(names: Vec<String>) -> (r: Menu)
    ensures
        r.actions@.len() == 1,
        r.actions@[0]@ == "Add new entry"@,
        r.data@ == names@,
{
    Menu { actions: vec!["Add new entry".to_owned()], data: names }
}

/// The step that a choice from `entry_list_menu(names)` stands for; `None`
/// for a choice that the menu does not hold.
pub fn entry_list_step(names: &Vec<String>, choice: Choice) -> (r: Option<ListStep>)
    ensures
        match choice {
            Choice::Action(i) => if i == 0 {
                r == Some(ListStep::AddEntry)
            } else {
                r is None
            },
            Choice::Data(i) => if i < names@.len() {
                r matches Some(ListStep::OpenEntry(n)) && n@ == names@[i as int]@
            } else {
                r is None
            },
        },
{
    match choice {
        Choice::Action(0) => Some(ListStep::AddEntry),
        Choice::Data(i) => if i < names.len() {
            Some(ListStep::OpenEntry(names[i].clone()))
        } else {
            None
        },
        _ => None,
    }
}

/// The entry detail: going back and adding a field, then the field names.
pub fn entry_menu(entry: &Entry) -> (r: Menu)
    ensures
        r.actions@.len() == 2,
        r.actions@[0]@ == "Go back"@,
        r.actions@[1]@ == "Add field"@,
        r.data@.map_values(|s: String| s@) == entry@.map_values(|p: (Seq<char>, Field)| p.0),
{
    Menu { actions: vec!["Go back".to_owned(), "Add field".to_owned()], data: entry.field_names() }
}

/// The step that a choice from `entry_menu(entry)` stands for.
pub fn entry_step(entry: &Entry, choice: Choice) -> (r: Option<EntryStep>)
    ensures
        match choice {
            Choice::Action(i) => if i == 0 {
                r == Some(EntryStep::GoBack)
            } else if i == 1 {
                r == Some(EntryStep::AddField)
            } else {
                r is None
            },
            Choice::Data(i) => if i < entry@.len() {
                r matches Some(EntryStep::EditField(n)) && n@ == entry@[i as int].0
            } else {
                r is None
            },
        },
{
    match choice {
        Choice::Action(0) => Some(EntryStep::GoBack),
        Choice::Action(1) => Some(EntryStep::AddField),
        Choice::Data(i) => {
            let names = entry.field_names();
            assert(names@.len() == entry@.len()) by {
                assert(names@.map_values(|s: String| s@).len() == entry@.map_values(|p: (Seq<char>, Field)| p.0).len());
            }
            if i < names.len() {
                assert(names@.map_values(|s: String| s@)[i as int] == entry@.map_values(|p: (Seq<char>, Field)| p.0)[i as int]);
                Some(EntryStep::EditField(names[i].clone()))
            } else {
                None
            }
        },
        _ => None,
    }
}

/// The label of the renaming action, which shows the field's name.
pub open spec fn rename_label(name: Seq<char>) -> Seq<char> {
    "Rename field ["@ + name + "]"@
}

/// The field detail: save, rename, and no data items.
pub fn field_menu(name: &str) -> (r: Menu)
    ensures
        r.actions@.len() == 2,
        r.actions@[0]@ == "Save and go back"@,
        r.actions@[1]@ == rename_label(name@),
        r.data@.len() == 0,
{
    let head = join("Rename field [", name);
    let label = join(head.as_str(), "]");
    Menu { actions: vec!["Save and go back".to_owned(), label], data: Vec::new() }
}

/// The step that a choice from `field_menu` stands for.
pub fn field_step(choice: Choice) -> (r: Option<FieldStep>)
    ensures
        choice == Choice::Action(0) ==> r == Some(FieldStep::SaveAndGoBack),
        choice == Choice::Action(1) ==> r == Some(FieldStep::Rename),
        choice != Choice::Action(0) && choice != Choice::Action(1) ==> r is None,
{
    match choice {
        Choice::Action(0) => Some(FieldStep::SaveAndGoBack),
        Choice::Action(1) => Some(FieldStep::Rename),
        _ => None,
    }
}

/// The field that editing `k` starts from: the one listed there, else the default.
pub open spec fn opened_field(s: Fields, k: Seq<char>) -> Field {
    match lookup(s, k) {
        Some(f) => f,
        None => default_field(),
    }
}

/// The name a field takes from the operator's answer: an empty answer keeps
/// the current name.
pub open spec fn renamed_to(current: Seq<char>, answer: Seq<char>) -> Seq<char> {
    if answer.len() == 0 {
        current
    } else {
        answer
    }
}

/// Starts editing the field `name`: takes it out of the entry, or makes a
/// default one when the entry has none of that name.
pub fn open_field(entry: Entry, name: &str) -> (r: (Entry, Field))
    requires
        entry.wf(),
    ensures
        r.0.wf(),
        r.0@ == removed(entry@, name@),
        r.1 == opened_field(entry@, name@),
{
    let mut entry = entry;
    match entry.remove(name) {
        Some(f) => (entry, f),
        None => (entry, new_default_field()),
    }
}

/// Ends editing: the field goes back into the entry under `name`.
pub fn save_field(entry: Entry, name: String, field: Field) -> (r: Entry)
    requires
        entry.wf(),
    ensures
        r.wf(),
        r@ == inserted(entry@, name@, field),
{
    let mut entry = entry;
    entry.insert(name, field);
    entry
}

/// Renames the field being edited: it is put under the new name, which
/// replaces any field listed there, and editing goes on under that name.
/// Returns the entry, the name and the field being edited.
pub fn rename_field(entry: Entry, current: String, answer: String, field: Field) -> (r: (Entry, String, Field))
    requires
        entry.wf(),
    ensures
        r.0.wf(),
        r.1@ == renamed_to(current@, answer@),
        r.0@ == removed(inserted(entry@, r.1@, field), r.1@),
        r.2 == opened_field(inserted(entry@, r.1@, field), r.1@),
        r.2 == field,
{
    let name = if answer.as_str().is_empty() {
        current
    } else {
        answer
    };
    let ghost before = entry@;
    let entry = save_field(entry, name.clone(), field);
    let (entry, f) = open_field(entry, name.as_str());
    proof {
        lemma_saved_field_reopens(before, name@, field);
    }
    (entry, name, f)
}

/// Setting a name keeps every name listed once.
pub proof fn lemma_inserted_unique(s: Fields, k: Seq<char>, f: Field)
    requires
        unique_keys(s),
    ensures
        unique_keys(inserted(s, k, f)),
        has_key(inserted(s, k, f), k),
{
    let t = inserted(s, k, f);
    if has_key(s, k) {
        let i = key_index(s, k);
        assert(t[i].0 == k);
        assert forall|a: int, b: int| 0 <= a < t.len() && 0 <= b < t.len() && (#[trigger] t[a]).0 == (#[trigger] t[b]).0 implies a == b by {
            if a != i {
                assert(t[a] == s[a]);
            }
            if b != i {
                assert(t[b] == s[b]);
            }
        }
    } else {
        assert(t[s.len() as int].0 == k);
        assert forall|a: int, b: int| 0 <= a < t.len() && 0 <= b < t.len() && (#[trigger] t[a]).0 == (#[trigger] t[b]).0 implies a == b by {
            if a < s.len() {
                assert(t[a] == s[a]);
            }
            if b < s.len() {
                assert(t[b] == s[b]);
            }
        }
    }
}

/// A field saved under a name is what editing that name starts from next:
/// adding a field, saving it and opening it again shows the saved field,
/// not the default.
pub proof fn lemma_saved_field_reopens(s: Fields, k: Seq<char>, f: Field)
    requires
        unique_keys(s),
    ensures
        opened_field(inserted(s, k, f), k) == f,
{
    lemma_inserted_unique(s, k, f);
    let t = inserted(s, k, f);
    let j = key_index(t, k);
    let i = if has_key(s, k) { key_index(s, k) } else { s.len() as int };
    assert(t[i].0 == k);
    assert(t[j].0 == k);
    assert(i == j);
}

} // verus!
