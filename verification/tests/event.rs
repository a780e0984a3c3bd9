use todo_list::{Action, Event, RowDisplay, TodoApp, TodoItem};

fn entry(id: u32, description: &str, completed: bool, edit: bool) -> TodoItem {
    TodoItem { id, description: description.to_string(), completed, edit }
}

fn two_entries() -> Vec<TodoItem> {
    vec![entry(1, "buy milk", false, false), entry(2, "pay rent", true, false)]
}

#[test]
fn load_and_save_clicks_ask_for_a_file() {
    let mut app = TodoApp::new();
    app.replace_all(two_entries());
    assert_eq!(app.apply(Event::LoadClicked), Action::ChooseFileToLoad);
    assert_eq!(app.apply(Event::SaveClicked), Action::ChooseFileToSave);
    assert_eq!(app.items(), &two_entries());
    assert_eq!(app.next_id(), 3);
}

#[test]
fn loaded_event_replaces_the_list() {
    let mut app = TodoApp::new();
    assert!(app.add("old").is_ok());
    assert_eq!(app.apply(Event::Loaded { items: two_entries() }), Action::Nothing);
    assert_eq!(app.items(), &two_entries());
    assert_eq!(app.next_id(), 3);
}

#[test]
fn failed_load_leaves_the_state_untouched() {
    let mut app = TodoApp::new();
    app.replace_all(two_entries());
    app.show_add_input();
    app.set_input("draft".to_string());
    assert_eq!(app.apply(Event::LoadClicked), Action::ChooseFileToLoad);
    assert_eq!(app.apply(Event::NothingLoaded), Action::Nothing);
    assert_eq!(app.items(), &two_entries());
    assert_eq!(app.next_id(), 3);
    assert_eq!(app.input(), "draft");
    assert!(app.showing_add_item_input());
    assert!(!app.dark_mode());
}

#[test]
fn save_then_load_yields_the_same_items() {
    let mut app = TodoApp::new();
    app.replace_all(two_entries());
    assert_eq!(app.apply(Event::SaveClicked), Action::ChooseFileToSave);
    let mut document: Vec<serde_json::Value> = Vec::new();
    for it in app.items().iter() {
        let mut object = serde_json::Map::new();
        object.insert("id".to_string(), serde_json::Value::from(it.id));
        object.insert("description".to_string(), serde_json::Value::from(it.description.clone()));
        object.insert("completed".to_string(), serde_json::Value::from(it.completed));
        object.insert("edit".to_string(), serde_json::Value::from(it.edit));
        document.push(serde_json::Value::Object(object));
    }
    let file = serde_json::to_string_pretty(&serde_json::Value::Array(document)).unwrap();

    let mut other = TodoApp::new();
    assert_eq!(other.apply(Event::LoadClicked), Action::ChooseFileToLoad);
    let parsed: serde_json::Value = serde_json::from_str(&file).unwrap();
    let mut items: Vec<TodoItem> = Vec::new();
    for object in parsed.as_array().unwrap() {
        items.push(TodoItem {
            id: u32::try_from(object["id"].as_u64().unwrap()).unwrap(),
            description: object["description"].as_str().unwrap().to_string(),
            completed: object["completed"].as_bool().unwrap(),
            edit: object["edit"].as_bool().unwrap(),
        });
    }
    assert_eq!(other.apply(Event::Loaded { items }), Action::Nothing);
    assert_eq!(other.items().len(), 2);
    assert_eq!(other.items()[0], entry(1, "buy milk", false, false));
    assert_eq!(other.items()[1], entry(2, "pay rent", true, false));
    assert_eq!(other.next_id(), 3);
    other.show_add_input();
    other.set_input("third".to_string());
    assert_eq!(other.confirm_add(), Some(Ok(3)));
}

#[test]
fn theme_event_sets_the_theme() {
    let mut app = TodoApp::new();
    assert_eq!(app.apply(Event::ThemeChosen { dark_mode: true }), Action::Nothing);
    assert!(app.dark_mode());
    assert_eq!(app.apply(Event::ThemeChosen { dark_mode: false }), Action::Nothing);
    assert!(!app.dark_mode());
}

#[test]
fn row_events_change_the_entry_at_their_position() {
    let mut app = TodoApp::new();
    app.replace_all(two_entries());
    assert_eq!(app.apply(Event::CompletedSet { index: 0, completed: true }), Action::Nothing);
    assert_eq!(app.apply(Event::CompletedSet { index: 1, completed: false }), Action::Nothing);
    assert_eq!(app.apply(Event::EditClicked { index: 1 }), Action::Nothing);
    assert_eq!(
        app.apply(Event::DescriptionTyped { index: 1, text: "pay the rent".to_string() }),
        Action::Nothing
    );
    assert_eq!(
        app.apply(Event::DescriptionTyped { index: 0, text: "not editing".to_string() }),
        Action::Nothing
    );
    assert_eq!(app.items()[0], entry(1, "buy milk", true, false));
    assert_eq!(app.items()[1], entry(2, "pay the rent", false, true));
    assert_eq!(app.apply(Event::EditConfirmed { index: 1 }), Action::Nothing);
    assert_eq!(app.items()[1], entry(2, "pay the rent", false, false));
    assert_eq!(app.next_id(), 3);
}

#[test]
fn rows_drawn_event_deletes_the_marked_rows() {
    let mut app = TodoApp::new();
    app.replace_all(vec![
        entry(1, "a", false, false),
        entry(2, "b", false, false),
        entry(3, "c", false, false),
        entry(4, "d", false, false),
    ]);
    assert_eq!(app.apply(Event::RowsDrawn { marked: vec![0, 2, 3] }), Action::Nothing);
    assert_eq!(app.items(), &vec![entry(2, "b", false, false)]);
    assert_eq!(app.apply(Event::RowsDrawn { marked: Vec::new() }), Action::Nothing);
    assert_eq!(app.items(), &vec![entry(2, "b", false, false)]);
    assert_eq!(app.next_id(), 5);
}

#[test]
fn add_events_drive_the_input_row() {
    let mut app = TodoApp::new();
    assert_eq!(app.apply(Event::InputTyped { text: "early".to_string() }), Action::Nothing);
    assert_eq!(app.apply(Event::AddConfirmed), Action::Nothing);
    assert!(app.items().is_empty());
    assert_eq!(app.input(), "");

    assert_eq!(app.apply(Event::AddClicked), Action::Nothing);
    assert!(app.showing_add_item_input());
    assert_eq!(app.apply(Event::InputTyped { text: "   ".to_string() }), Action::Nothing);
    assert_eq!(app.apply(Event::AddConfirmed), Action::Nothing);
    assert!(app.items().is_empty());
    assert!(app.showing_add_item_input());
    assert_eq!(app.input(), "   ");

    assert_eq!(app.apply(Event::InputTyped { text: " water plants ".to_string() }), Action::Nothing);
    assert_eq!(app.apply(Event::AddConfirmed), Action::Nothing);
    assert_eq!(app.items(), &vec![entry(1, "water plants", false, false)]);
    assert!(!app.showing_add_item_input());
    assert_eq!(app.input(), "");
    assert_eq!(app.next_id(), 2);
}

#[test]
fn ids_never_repeat_over_a_session_of_events() {
    let mut app = TodoApp::new();
    let mut seen: Vec<u32> = Vec::new();
    for round in 0..6usize {
        app.apply(Event::AddClicked);
        app.apply(Event::InputTyped { text: format!("entry {}", round) });
        app.apply(Event::AddConfirmed);
        let newest = app.items().last().unwrap().id;
        assert!(seen.iter().all(|id| *id < newest));
        seen.push(newest);
        if round % 2 == 1 {
            app.apply(Event::RowsDrawn { marked: vec![0, app.items().len() - 1] });
        }
    }
    assert_eq!(seen, vec![1, 2, 3, 4, 5, 6]);
    assert_eq!(app.next_id(), 7);
}

#[test]
fn entries_are_drawn_by_their_flags() {
    assert_eq!(entry(1, "a", false, false).display(), RowDisplay::Label { struck: false });
    assert_eq!(entry(1, "a", true, false).display(), RowDisplay::Label { struck: true });
    assert_eq!(entry(1, "a", false, true).display(), RowDisplay::Editor);
    assert_eq!(entry(1, "a", true, true).display(), RowDisplay::Editor);
}
