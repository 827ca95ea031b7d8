use freepass_cli::entry::{new_default_field, Entry, Field, PasswordTemplate, StoredUsage};
use freepass_cli::menu::{Choice, Menu};
use freepass_cli::navigator::{
    entry_list_menu, entry_list_step, entry_menu, entry_step, field_menu, field_step, open_field,
    rename_field, save_field, EntryStep, FieldStep, ListStep,
};

fn strings(v: &[&str]) -> Vec<String> {
    v.iter().map(|s| s.to_string()).collect()
}

fn stored(secret: &str) -> Field {
    Field::Stored { data: secret.as_bytes().to_vec(), usage: StoredUsage::Password }
}

#[test]
fn labels_carry_markers() {
    let m = Menu { actions: strings(&["X"]), data: strings(&["a", "b"]) };
    assert_eq!(m.labels(), strings(&[">> X", " | a", " | b"]));
}

#[test]
fn data_label_selects_data_item() {
    let m = Menu { actions: strings(&["X"]), data: strings(&["a", "b"]) };
    assert_eq!(m.resolve(" | a"), Some(Choice::Data(0)));
    assert_eq!(m.resolve(" | b"), Some(Choice::Data(1)));
}

#[test]
fn action_label_selects_action() {
    let m = Menu { actions: strings(&["X"]), data: strings(&["a", "b"]) };
    assert_eq!(m.resolve(">> X"), Some(Choice::Action(0)));
}

#[test]
fn same_text_as_action_and_data_stays_apart() {
    let m = Menu { actions: strings(&["a"]), data: strings(&["a"]) };
    assert_eq!(m.resolve(">> a"), Some(Choice::Action(0)));
    assert_eq!(m.resolve(" | a"), Some(Choice::Data(0)));
}

#[test]
fn unknown_label_selects_nothing() {
    let m = Menu { actions: strings(&["X"]), data: strings(&["a"]) };
    assert_eq!(m.resolve("a"), None);
    assert_eq!(m.resolve(">> a"), None);
    assert_eq!(m.resolve(""), None);
}

#[test]
fn entry_list_choices() {
    let names = strings(&["mail", "twitter"]);
    let m = entry_list_menu(names.clone());
    assert_eq!(m.labels(), strings(&[">> Add new entry", " | mail", " | twitter"]));
    assert_eq!(entry_list_step(&names, Choice::Action(0)), Some(ListStep::AddEntry));
    assert_eq!(entry_list_step(&names, Choice::Data(1)), Some(ListStep::OpenEntry("twitter".to_string())));
    assert_eq!(entry_list_step(&names, Choice::Data(2)), None);
    assert_eq!(entry_list_step(&names, Choice::Action(1)), None);
}

#[test]
fn entry_detail_choices() {
    let mut e = Entry::new();
    e.insert("password".to_string(), new_default_field());
    let m = entry_menu(&e);
    assert_eq!(m.labels(), strings(&[">> Go back", ">> Add field", " | password"]));
    assert_eq!(entry_step(&e, Choice::Action(0)), Some(EntryStep::GoBack));
    assert_eq!(entry_step(&e, Choice::Action(1)), Some(EntryStep::AddField));
    assert_eq!(entry_step(&e, Choice::Data(0)), Some(EntryStep::EditField("password".to_string())));
    assert_eq!(entry_step(&e, Choice::Data(1)), None);
}

#[test]
fn field_detail_choices() {
    let m = field_menu("pin");
    assert_eq!(m.labels(), strings(&[">> Save and go back", ">> Rename field [pin]"]));
    assert_eq!(field_step(Choice::Action(0)), Some(FieldStep::SaveAndGoBack));
    assert_eq!(field_step(Choice::Action(1)), Some(FieldStep::Rename));
    assert_eq!(field_step(Choice::Data(0)), None);
}

#[test]
fn new_field_starts_from_default() {
    let (e, f) = open_field(Entry::new(), "pw");
    assert_eq!(f, Field::Derived { counter: 0, site_name: None, template: PasswordTemplate::Maximum });
    assert!(e.field_names().is_empty());
}

#[test]
fn saved_field_reopens_as_saved() {
    let (e, f) = open_field(Entry::new(), "old_password");
    assert_eq!(f, new_default_field());
    let e = save_field(e, "old_password".to_string(), stored("h0rse"));
    assert_eq!(e.field_names(), strings(&["old_password"]));
    let (e, f) = open_field(e, "old_password");
    assert_eq!(f, stored("h0rse"));
    assert!(e.get("old_password").is_none());
}

#[test]
fn save_replaces_field_in_place() {
    let mut e = Entry::new();
    e.insert("a".to_string(), stored("1"));
    e.insert("b".to_string(), stored("2"));
    let e = save_field(e, "a".to_string(), stored("3"));
    assert_eq!(e.field_names(), strings(&["a", "b"]));
    assert_eq!(e.get("a"), Some(&stored("3")));
}

#[test]
fn empty_rename_keeps_the_name() {
    let (e, f) = open_field(Entry::new(), "pin");
    let (e, name, f2) = rename_field(e, "pin".to_string(), String::new(), f.clone());
    assert_eq!(name, "pin");
    assert_eq!(f2, f);
    assert!(e.field_names().is_empty());
}

#[test]
fn rename_moves_the_field() {
    let mut e = Entry::new();
    e.insert("old".to_string(), stored("s3cret"));
    e.insert("other".to_string(), stored("x"));
    let (e, f) = open_field(e, "old");
    let (e, name, f2) = rename_field(e, "old".to_string(), "new".to_string(), f);
    assert_eq!(name, "new");
    assert_eq!(f2, stored("s3cret"));
    assert_eq!(e.field_names(), strings(&["other"]));
    let e = save_field(e, name, f2);
    assert_eq!(e.field_names(), strings(&["other", "new"]));
    assert_eq!(e.get("new"), Some(&stored("s3cret")));
}

#[test]
fn remove_returns_the_field() {
    let mut e = Entry::new();
    e.insert("k".to_string(), stored("v"));
    assert_eq!(e.remove("k"), Some(stored("v")));
    assert_eq!(e.remove("k"), None);
}
