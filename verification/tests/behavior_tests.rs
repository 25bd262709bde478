use chatui::input::{handle_auth_key, AuthKeyAction, KeyCode, KeyEventKind, KeyInput};
use chatui::model::{message_display_text, DialogSummary, MediaSummary, MessageSummary};
use chatui::state::{AppState, FocusArea, SortMode, UiMode};
use chatui::viewport::{
    hotkeys_text, list_inner_height, list_inner_width, sort_label, to_u16_saturating,
    total_wrapped_line_count, wrapped_line_count,
};

fn dialog(id: i64, title: &str) -> DialogSummary {
    DialogSummary {
        id,
        title: title.to_string(),
    }
}

fn message(id: i32, text: &str) -> MessageSummary {
    MessageSummary {
        id,
        from: "x".to_string(),
        text: text.to_string(),
        date: "now".to_string(),
    }
}

#[test]
fn recent_sort_preserves_load_order() {
    let mut app = AppState::new();
    app.on_dialogs_loaded(vec![dialog(1, "zulu"), dialog(2, "alpha")]);

    let visible = app.visible_dialogs();
    assert_eq!(visible[0].title, "zulu");
    assert_eq!(visible[1].title, "alpha");

    // a second toggle returns to delivery order
    app.toggle_sort_mode();
    app.toggle_sort_mode();
    let visible = app.visible_dialogs();
    assert_eq!(visible[0].title, "zulu");
}

#[test]
fn alphabetical_sort_breaks_title_ties_by_id() {
    let mut app = AppState::new();
    app.on_dialogs_loaded(vec![dialog(7, "same"), dialog(3, "same"), dialog(5, "same")]);

    app.toggle_sort_mode();
    let visible = app.visible_dialogs();
    assert_eq!(visible[0].id, 3);
    assert_eq!(visible[1].id, 5);
    assert_eq!(visible[2].id, 7);
}

#[test]
fn search_is_case_insensitive() {
    let mut app = AppState::new();
    app.on_dialogs_loaded(vec![dialog(1, "Alpha"), dialog(2, "Beta")]);

    app.start_search();
    app.insert_char('b');

    let visible = app.visible_dialogs();
    assert_eq!(visible.len(), 1);
    assert_eq!(visible[0].id, 2);
    assert_eq!(app.selected_dialog_id(), Some(2));

    assert!(app.matches_query(&dialog(2, "Beta")));
    assert!(!app.matches_query(&dialog(1, "Alpha")));
}

#[test]
fn emptied_search_restores_all_dialogs() {
    let mut app = AppState::new();
    app.on_dialogs_loaded(vec![dialog(1, "a"), dialog(2, "b")]);

    app.start_search();
    app.insert_char('b');
    assert_eq!(app.visible_dialogs().len(), 1);

    app.backspace();
    assert_eq!(app.visible_dialogs().len(), 2);
}

#[test]
fn search_with_no_match_clears_selection() {
    let mut app = AppState::new();
    app.on_dialogs_loaded(vec![dialog(1, "a"), dialog(2, "b")]);

    app.start_search();
    app.insert_char('z');

    assert_eq!(app.visible_dialogs().len(), 0);
    assert_eq!(app.selected_dialog_id(), None);
}

#[test]
fn search_exit_is_two_steps_with_active_query() {
    let mut app = AppState::new();
    app.on_dialogs_loaded(vec![dialog(1, "a"), dialog(2, "b")]);

    app.start_search();
    app.insert_char('b');

    // first escape only clears the query
    app.exit_or_clear_search();
    assert_eq!(app.ui_mode, UiMode::Search);
    assert!(app.search_query.is_empty());
    assert_eq!(app.visible_dialogs().len(), 2);

    // the second escape leaves search mode
    app.exit_or_clear_search();
    assert_eq!(app.ui_mode, UiMode::Normal);
}

#[test]
fn compose_buffer_edits_route_by_mode() {
    let mut app = AppState::new();
    app.on_dialogs_loaded(vec![dialog(1, "a")]);

    // normal mode ignores typed characters
    app.insert_char('x');
    assert!(app.compose_text.is_empty());

    app.enter_compose();
    assert_eq!(app.focus, FocusArea::Input);
    app.insert_char('h');
    app.insert_char('i');
    assert_eq!(app.compose_text, "hi");

    app.backspace();
    assert_eq!(app.compose_text, "h");

    app.exit_compose();
    assert_eq!(app.ui_mode, UiMode::Normal);
}

#[test]
fn begin_send_message_trims_compose_text() {
    let mut app = AppState::new();
    app.on_dialogs_loaded(vec![dialog(1, "a")]);
    app.compose_text = "  hi there  ".to_string();

    let payload = app.begin_send_message();

    assert_eq!(payload, Some((1, "hi there".to_string())));
    assert!(app.is_sending_message);
    assert_eq!(app.last_error, None);
}

#[test]
fn begin_send_message_rejects_blank_text() {
    let mut app = AppState::new();
    app.on_dialogs_loaded(vec![dialog(1, "a")]);
    app.compose_text = "   ".to_string();

    let payload = app.begin_send_message();

    assert_eq!(payload, None);
    assert!(!app.is_sending_message);
    assert_eq!(app.last_error.as_deref(), Some("Message must not be empty"));
}

#[test]
fn begin_send_message_requires_a_selection() {
    let mut app = AppState::new();
    app.compose_text = "hello".to_string();

    let payload = app.begin_send_message();

    assert_eq!(payload, None);
    assert_eq!(app.last_error.as_deref(), Some("No chat selected"));
}

#[test]
fn send_echo_clears_compose_and_error() {
    let mut app = AppState::new();
    app.on_dialogs_loaded(vec![dialog(1, "a")]);
    app.compose_text = "hello".to_string();
    let _ = app.begin_send_message();

    app.on_message_sent(1, message(9, "hello"));

    assert!(!app.is_sending_message);
    assert!(app.compose_text.is_empty());
    assert_eq!(app.last_error, None);
    assert_eq!(app.selected_dialog_messages().len(), 1);
}

#[test]
fn begin_load_marks_transcript_in_flight() {
    let mut app = AppState::new();
    app.on_dialogs_loaded(vec![dialog(1, "a")]);

    assert_eq!(app.begin_load_selected_messages(), Some(1));
    assert!(app.is_loading_messages);
}

#[test]
fn failed_requests_surface_errors_and_roll_flags_back() {
    let mut app = AppState::new();
    app.on_dialogs_loaded(vec![dialog(1, "a")]);

    let _ = app.begin_load_selected_messages();
    app.load_request_failed("failed to request messages: full".to_string());
    assert!(!app.is_loading_messages);
    assert_eq!(
        app.last_error.as_deref(),
        Some("failed to request messages: full")
    );

    app.compose_text = "hello".to_string();
    let _ = app.begin_send_message();
    app.send_request_failed("failed to request message send: full".to_string());
    assert!(!app.is_sending_message);
}

#[test]
fn backend_error_clears_every_in_flight_flag() {
    let mut app = AppState::new();
    assert!(app.is_loading_dialogs);

    app.on_backend_error("boom".to_string());

    assert!(!app.is_loading_dialogs);
    assert!(!app.is_loading_messages);
    assert!(!app.is_sending_message);
    assert_eq!(app.last_error.as_deref(), Some("boom"));
}

#[test]
fn channel_closure_is_fatal() {
    let mut app = AppState::new();

    app.on_channel_closed();

    assert!(app.should_quit);
    assert_eq!(app.last_error.as_deref(), Some("telegram task exited"));
}

#[test]
fn reload_follows_selection_changes_and_empty_transcripts() {
    let mut app = AppState::new();
    app.on_dialogs_loaded(vec![dialog(1, "a"), dialog(2, "b")]);

    // fresh selection with no transcript yet
    assert!(app.should_reload_after_dialogs(None));
    assert!(app.should_reload_after_dialogs(Some(1)));

    app.on_messages_loaded(1, vec![message(1, "hello")]);
    assert!(!app.should_reload_after_dialogs(Some(1)));
    assert!(app.should_reload_after_dialogs(Some(2)));
}

#[test]
fn badge_is_pruned_when_dialog_disappears() {
    let mut app = AppState::new();
    app.on_dialogs_loaded(vec![dialog(1, "a"), dialog(2, "b")]);
    app.on_incoming_message(2, message(10, "hello"));
    assert_eq!(app.dialog_new_message_count(2), 1);

    app.on_dialogs_loaded(vec![dialog(1, "a")]);

    assert_eq!(app.dialog_new_message_count(2), 0);
}

#[test]
fn selection_snaps_to_first_when_selected_dialog_disappears() {
    let mut app = AppState::new();
    app.on_dialogs_loaded(vec![dialog(1, "a"), dialog(2, "b")]);
    app.select_next();
    assert_eq!(app.selected_dialog_id(), Some(2));

    app.on_dialogs_loaded(vec![dialog(1, "a")]);

    assert_eq!(app.selected_dialog_id(), Some(1));
}

#[test]
fn focus_cycles_both_ways() {
    let mut app = AppState::new();
    assert_eq!(app.focus, FocusArea::Chats);
    app.focus_next();
    assert_eq!(app.focus, FocusArea::Messages);
    app.focus_next();
    assert_eq!(app.focus, FocusArea::Input);
    app.focus_next();
    assert_eq!(app.focus, FocusArea::Chats);
    app.focus_prev();
    assert_eq!(app.focus, FocusArea::Input);
}

#[test]
fn selected_dialog_returns_the_selected_entry() {
    let mut app = AppState::new();
    app.on_dialogs_loaded(vec![dialog(1, "a"), dialog(2, "b")]);
    app.select_next();

    let d = app.selected_dialog().expect("a dialog is selected");
    assert_eq!(d.id, 2);
    assert_eq!(d.title, "b");
}

#[test]
fn selected_visible_index_follows_the_view_order() {
    let mut app = AppState::new();
    app.on_dialogs_loaded(vec![dialog(1, "zulu"), dialog(2, "alpha")]);
    assert_eq!(app.selected_visible_index(), Some(0));

    app.toggle_sort_mode();
    // the selection is still dialog 1 ("zulu"), now shown second
    assert_eq!(app.selected_dialog_id(), Some(1));
    assert_eq!(app.selected_visible_index(), Some(1));
}

#[test]
fn display_text_prefers_non_blank_body() {
    assert_eq!(message_display_text("hello", &None), "hello");
    assert_eq!(message_display_text("  ", &None), "");
    assert_eq!(
        message_display_text("", &Some(MediaSummary::Other)),
        "[media]"
    );
    assert_eq!(
        message_display_text(
            " ",
            &Some(MediaSummary::Sticker {
                emoji: " \u{1f600} ".to_string(),
                animated: false,
            })
        ),
        "sticker: \u{1f600}"
    );
    assert_eq!(
        message_display_text(
            "",
            &Some(MediaSummary::Sticker {
                emoji: "".to_string(),
                animated: true,
            })
        ),
        "sticker: animated"
    );
    assert_eq!(
        message_display_text(
            "",
            &Some(MediaSummary::Sticker {
                emoji: " ".to_string(),
                animated: false,
            })
        ),
        "sticker: sticker"
    );
}

#[test]
fn viewport_width_zero_yields_no_rows() {
    assert_eq!(wrapped_line_count("abcd", 0), 0);
    assert_eq!(total_wrapped_line_count(&vec!["abcd".to_string()], 0), 0);
}

#[test]
fn empty_lines_still_occupy_one_row() {
    assert_eq!(wrapped_line_count("", 4), 1);
    assert_eq!(wrapped_line_count("\n", 4), 2);
}

#[test]
fn renderer_helpers_clamp_sizes() {
    assert_eq!(to_u16_saturating(3), 3);
    assert_eq!(to_u16_saturating(70000), u16::MAX);
    assert_eq!(list_inner_height(5), 3);
    assert_eq!(list_inner_height(1), 0);
    assert_eq!(list_inner_width(10), 8);
}

#[test]
fn labels_match_the_modes() {
    assert_eq!(sort_label(SortMode::Recent), "Recent");
    assert_eq!(sort_label(SortMode::Alphabetical), "A-Z");
    assert!(hotkeys_text(UiMode::Compose, FocusArea::Input).contains("Enter send"));
    assert!(hotkeys_text(UiMode::Normal, FocusArea::Chats).contains("sort"));
    assert!(hotkeys_text(UiMode::Search, FocusArea::Chats).contains("Esc clear/exit"));
}

#[test]
fn auth_control_c_quits() {
    let mut input = String::new();
    let k = KeyInput {
        code: KeyCode::Char('c'),
        kind: KeyEventKind::Press,
        ctrl: true,
    };
    assert!(matches!(
        handle_auth_key(k, &mut input),
        AuthKeyAction::Quit
    ));

    // without control, the character is typed
    let plain = KeyInput {
        code: KeyCode::Char('c'),
        kind: KeyEventKind::Press,
        ctrl: false,
    };
    assert!(matches!(
        handle_auth_key(plain, &mut input),
        AuthKeyAction::Noop
    ));
    assert_eq!(input, "c");
}

#[test]
fn auth_backspace_and_release_events() {
    let mut input = "ab".to_string();
    let back = KeyInput {
        code: KeyCode::Backspace,
        kind: KeyEventKind::Press,
        ctrl: false,
    };
    assert!(matches!(
        handle_auth_key(back, &mut input),
        AuthKeyAction::Noop
    ));
    assert_eq!(input, "a");

    // a key release changes nothing
    let release = KeyInput {
        code: KeyCode::Char('z'),
        kind: KeyEventKind::Release,
        ctrl: false,
    };
    assert!(matches!(
        handle_auth_key(release, &mut input),
        AuthKeyAction::Noop
    ));
    assert_eq!(input, "a");
}

#[test]
fn incoming_message_for_unknown_dialog_still_counts() {
    let mut app = AppState::new();
    app.on_dialogs_loaded(vec![dialog(1, "a")]);

    app.on_incoming_message(99, message(5, "hi"));

    assert_eq!(app.dialog_new_message_count(99), 1);
    app.on_incoming_message(99, message(6, "again"));
    assert_eq!(app.dialog_new_message_count(99), 2);
}
