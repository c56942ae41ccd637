use mcgf::load::{dropped_path, load_parsed};
use mcgf::model::{ConfigValue, GuiElement, LayoutDocument, LoadData, Rect};
use mcgf::notify::Notification;
use mcgf::save::{
    home_directory, home_of, proposed_file_name, save_chosen, save_target, save_target_from, save_written,
    SaveTarget, WriteRequest,
};
use mcgf::writer::serialize;

fn document(name: &str) -> LayoutDocument {
    LayoutDocument {
        base_element: GuiElement {
            dimensions: Rect { x: 0, y: 0, width: 100, height: 50 },
            id: "root".to_string(),
            data: vec![],
            name: name.to_string(),
        },
        elements: vec![],
    }
}

#[test]
fn file_name_is_proposed_from_the_name_of_the_root() {
    assert_eq!(proposed_file_name("My GUI"), "My GUI.mcgf");
    assert_eq!(proposed_file_name(""), "unnamed.mcgf");
    assert_eq!(proposed_file_name("a.mcgf"), "a.mcgf.mcgf");
}

#[test]
fn first_save_proposes_the_name_of_the_root() {
    assert_eq!(save_target("", &document("My GUI")).file_name, "My GUI.mcgf");
    assert_eq!(save_target("", &document("")).file_name, "unnamed.mcgf");
}

#[test]
fn first_save_starts_in_the_home_directory() {
    assert_eq!(save_target("", &document("My GUI")).directory, home_directory());
    assert_eq!(
        save_target_from("", "My GUI", Some("/home/u".to_string()), None, String::new()),
        SaveTarget { directory: Some("/home/u".to_string()), file_name: "My GUI.mcgf".to_string() }
    );
    assert_eq!(
        save_target_from("", "", None, Some("ignored".to_string()), "ignored".to_string()),
        SaveTarget { directory: None, file_name: "unnamed.mcgf".to_string() }
    );
}

#[test]
fn later_save_starts_where_the_document_lives() {
    let expected =
        SaveTarget { directory: Some("/home/u".to_string()), file_name: "old.mcgf".to_string() };
    assert_eq!(save_target("/home/u/old.mcgf", &document("My GUI")), expected);
    assert_eq!(save_target("/home/u/old.mcgf", &document("")), expected);
    assert_eq!(save_target("/home/u/old.mcgf", &document("other")), expected);
}

#[test]
fn later_save_without_a_file_name_proposes_the_name_of_the_root() {
    let target = save_target("/home/u/..", &document("My GUI"));
    assert_eq!(target.file_name, "My GUI.mcgf");
    assert_eq!(target.directory, Some("/home/u".to_string()));
    assert_eq!(save_target("/", &document("")).file_name, "unnamed.mcgf");
    assert_eq!(
        save_target_from("/x/..", "n", Some("/home/u".to_string()), None, "/x".to_string()),
        SaveTarget { directory: Some("/x".to_string()), file_name: "n.mcgf".to_string() }
    );
}

#[test]
fn dismissed_save_dialog_writes_nothing() {
    assert_eq!(save_chosen(None, &document("My GUI")), None);
}

#[test]
fn confirmed_save_writes_the_text_of_the_document() {
    let doc = document("My GUI");
    assert_eq!(
        save_chosen(Some("/tmp/out.mcgf".to_string()), &doc),
        Some(WriteRequest { path: "/tmp/out.mcgf".to_string(), contents: serialize(&doc) })
    );
}

#[test]
fn written_save_updates_the_location() {
    let n = save_written("/tmp/out.mcgf".to_string(), Ok(()));
    assert_eq!(n, Notification::UpdateLastLoaded("/tmp/out.mcgf".to_string()));
    assert_eq!(n.event_name(), "update-last-loaded");
}

#[test]
fn failed_save_reports_the_failure() {
    let n = save_written("/tmp/out.mcgf".to_string(), Err("permission denied".to_string()));
    assert_eq!(n, Notification::SaveError("permission denied".to_string()));
    assert_eq!(n.event_name(), "save-error");
}

#[test]
fn loaded_document_is_sent_with_its_location() {
    let mut doc = document("Root");
    doc.elements.push(GuiElement {
        dimensions: Rect { x: 5, y: 6, width: 7, height: 8 },
        id: "child".to_string(),
        data: vec![("text".to_string(), ConfigValue::StringValue("hi".to_string()))],
        name: "Child".to_string(),
    });
    let n = load_parsed("/tmp/a.mcgf".to_string(), Ok(doc.clone()));
    assert_eq!(n.event_name(), "load-success");
    assert_eq!(
        n,
        Notification::LoadSuccess(LoadData {
            last_loaded_location: Some("/tmp/a.mcgf".to_string()),
            data: doc,
        })
    );
}

#[test]
fn malformed_file_is_a_load_error() {
    let parsed = serde_json::from_str::<serde_json::Value>("this is not a layout")
        .map(|_| document(""))
        .map_err(|e| e.to_string());
    let n = load_parsed("/tmp/a.mcgf".to_string(), parsed);
    assert_eq!(n.event_name(), "load-error");
    match n {
        Notification::LoadError(description) => {
            assert!(!description.is_empty());
            assert_eq!(description, "expected ident at line 1 column 2");
        }
        other => panic!("{:?}", other),
    }
}

#[test]
fn unreadable_file_is_a_load_error() {
    let n = load_parsed(
        "/no/such/file.mcgf".to_string(),
        Err("No such file or directory (os error 2)".to_string()),
    );
    assert_eq!(n.event_name(), "load-error");
    assert_eq!(n, Notification::LoadError("No such file or directory (os error 2)".to_string()));
}

#[test]
fn only_the_first_dropped_file_is_loaded() {
    let paths = vec!["/tmp/a.mcgf".to_string(), "/tmp/b.mcgf".to_string()];
    assert_eq!(dropped_path(&paths), Some(&"/tmp/a.mcgf".to_string()));
    assert_eq!(dropped_path(&vec!["/tmp/only.mcgf".to_string()]), Some(&"/tmp/only.mcgf".to_string()));
}

#[test]
fn empty_drop_loads_nothing() {
    assert_eq!(dropped_path(&vec![]), None);
}

#[test]
fn every_notification_has_its_event_name() {
    assert_eq!(Notification::FileSelected(None).event_name(), "file_selected");
    assert_eq!(Notification::SaveError(String::new()).event_name(), "save-error");
    assert_eq!(Notification::UpdateLastLoaded(String::new()).event_name(), "update-last-loaded");
    assert_eq!(Notification::LoadError(String::new()).event_name(), "load-error");
    assert_eq!(
        Notification::LoadSuccess(LoadData { last_loaded_location: None, data: document("") })
            .event_name(),
        "load-success"
    );
}

#[test]
fn text_is_taken_apart_and_put_together_by_characters() {
    let chars = mcgf::text::chars_of("a\u{e9}\u{1f600}b");
    assert_eq!(chars, vec!['a', '\u{e9}', '\u{1f600}', 'b']);
    assert_eq!(mcgf::text::string_of(&chars, 1, 3), "\u{e9}\u{1f600}");
    assert_eq!(mcgf::text::string_of(&chars, 2, 2), "");
    assert_eq!(mcgf::text::string_of(&chars, 0, 4), "a\u{e9}\u{1f600}b");
    assert!(mcgf::text::chars_of("").is_empty());
}

#[test]
fn key_is_looked_for_among_the_first_entries_only() {
    let entries = vec![
        ("a".to_string(), ConfigValue::NumberValue(1)),
        ("b".to_string(), ConfigValue::NumberValue(2)),
    ];
    assert!(mcgf::model::key_among(&entries, 2, &"b".to_string()));
    assert!(!mcgf::model::key_among(&entries, 1, &"b".to_string()));
    assert!(mcgf::model::key_among(&entries, 1, &"a".to_string()));
    assert!(!mcgf::model::key_among(&entries, 0, &"a".to_string()));
    assert!(!mcgf::model::key_among(&entries, 2, &"c".to_string()));
}

#[test]
fn home_is_what_the_lookup_found() {
    assert_eq!(home_of::<()>(Ok(Some("/home/u".to_string()))), Some("/home/u".to_string()));
    assert_eq!(home_of::<()>(Ok(None)), None);
    assert_eq!(home_of(Err("no such user")), None);
    assert_eq!(home_of(Err(2)), None);
}
