use chatui::model::{DialogSummary, MessageSummary};
use chatui::state::AppState;

fn dialogs() -> Vec<DialogSummary> {
    vec![
        DialogSummary {
            id: 1,
            title: "a".to_string(),
        },
        DialogSummary {
            id: 2,
            title: "b".to_string(),
        },
    ]
}

fn message(id: i32, text: &str) -> MessageSummary {
    MessageSummary {
        id,
        from: "x".to_string(),
        text: text.to_string(),
        date: "now".to_string(),
    }
}

#[test]
fn selection_bounds_are_clamped() {
    let mut app = AppState::new();
    app.on_dialogs_loaded(dialogs());

    assert!(!app.select_prev());
    assert_eq!(app.selected_dialog_id(), Some(1));

    assert!(app.select_next());
    assert_eq!(app.selected_dialog_id(), Some(2));

    assert!(!app.select_next());
    assert_eq!(app.selected_dialog_id(), Some(2));
}

#[test]
fn selected_dialog_id_updates_with_selection() {
    let mut app = AppState::new();
    app.on_dialogs_loaded(dialogs());

    assert_eq!(app.selected_dialog_id(), Some(1));
    app.select_next();
    assert_eq!(app.selected_dialog_id(), Some(2));
}

#[test]
fn messages_are_stored_by_dialog() {
    let mut app = AppState::new();
    app.on_dialogs_loaded(dialogs());
    app.on_messages_loaded(1, vec![message(1, "hello")]);

    assert_eq!(app.selected_dialog_messages().len(), 1);
    app.select_next();
    assert!(app.selected_dialog_messages().is_empty());
}

#[test]
fn search_filters_visible_dialogs() {
    let mut app = AppState::new();
    app.on_dialogs_loaded(dialogs());

    app.start_search();
    app.insert_char('b');

    assert_eq!(app.visible_dialogs().len(), 1);
    assert_eq!(app.selected_dialog_id(), Some(2));
}

#[test]
fn sorting_can_toggle_to_alphabetical() {
    let mut app = AppState::new();
    app.on_dialogs_loaded(vec![
        DialogSummary {
            id: 1,
            title: "zulu".to_string(),
        },
        DialogSummary {
            id: 2,
            title: "alpha".to_string(),
        },
    ]);

    app.toggle_sort_mode();
    let visible = app.visible_dialogs();
    assert_eq!(visible[0].title, "alpha");
    assert_eq!(visible[1].title, "zulu");
}

#[test]
fn message_scroll_is_bottom_relative() {
    let mut app = AppState::new();
    app.on_dialogs_loaded(dialogs());
    app.on_messages_loaded(
        1,
        vec![message(1, "one"), message(2, "two"), message(3, "three")],
    );

    assert_eq!(app.message_scroll_from_bottom, 0);
    app.scroll_messages_up();
    assert_eq!(app.message_scroll_from_bottom, 1);
    app.scroll_messages_down();
    assert_eq!(app.message_scroll_from_bottom, 0);
}

#[test]
fn message_scroll_resets_when_selecting_another_chat() {
    let mut app = AppState::new();
    app.on_dialogs_loaded(dialogs());
    app.on_messages_loaded(1, vec![message(1, "hello")]);
    app.message_scroll_from_bottom = 1;

    app.select_next();

    assert_eq!(app.message_scroll_from_bottom, 0);
}

#[test]
fn incoming_non_selected_chat_increments_badge() {
    let mut app = AppState::new();
    app.on_dialogs_loaded(dialogs());

    app.on_incoming_message(2, message(10, "hello"));

    assert_eq!(app.dialog_new_message_count(2), 1);
    assert_eq!(app.pending_new_messages_for_selected, 0);
}

#[test]
fn incoming_selected_chat_while_at_bottom_does_not_set_badges() {
    let mut app = AppState::new();
    app.on_dialogs_loaded(dialogs());

    app.on_incoming_message(1, message(10, "hello"));

    assert_eq!(app.dialog_new_message_count(1), 0);
    assert_eq!(app.pending_new_messages_for_selected, 0);
}

#[test]
fn incoming_selected_chat_while_scrolled_up_sets_pending_indicator() {
    let mut app = AppState::new();
    app.on_dialogs_loaded(dialogs());
    app.on_messages_loaded(1, vec![message(1, "first")]);
    app.scroll_messages_up();

    app.on_incoming_message(1, message(10, "hello"));

    assert_eq!(app.pending_new_messages_for_selected, 1);
    assert_eq!(app.dialog_new_message_count(1), 0);
}

#[test]
fn pending_indicator_clears_when_scrolled_to_bottom() {
    let mut app = AppState::new();
    app.on_dialogs_loaded(dialogs());
    app.on_messages_loaded(1, vec![message(1, "first")]);
    app.scroll_messages_up();
    app.on_incoming_message(1, message(10, "hello"));

    app.scroll_messages_down();

    assert_eq!(app.pending_new_messages_for_selected, 0);
}

#[test]
fn dialog_badge_clears_when_messages_loaded() {
    let mut app = AppState::new();
    app.on_dialogs_loaded(dialogs());
    app.on_incoming_message(2, message(10, "hello"));
    app.select_next();

    app.on_messages_loaded(2, vec![message(10, "hello"), message(11, "new")]);

    assert_eq!(app.dialog_new_message_count(2), 0);
}

#[test]
fn duplicate_message_id_is_not_appended_twice() {
    let mut app = AppState::new();
    app.on_dialogs_loaded(dialogs());

    app.on_message_sent(1, message(42, "hello"));
    app.on_incoming_message(1, message(42, "hello"));

    assert_eq!(app.selected_dialog_messages().len(), 1);
}
