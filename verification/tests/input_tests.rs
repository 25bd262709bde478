use chatui::input::{
    handle_auth_key, map_key_event, AppCommand, AuthKeyAction, KeyCode, KeyEventKind, KeyInput,
};
use chatui::state::{FocusArea, UiMode};

fn key(code: KeyCode) -> KeyInput {
    KeyInput {
        code,
        kind: KeyEventKind::Press,
        ctrl: false,
    }
}

#[test]
fn key_mapping_is_expected() {
    let up = key(KeyCode::Up);
    let down = key(KeyCode::Down);
    let quit = key(KeyCode::Char('q'));
    let tab = key(KeyCode::Tab);
    let slash = key(KeyCode::Char('/'));
    let enter = key(KeyCode::Enter);

    assert_eq!(
        map_key_event(up, UiMode::Normal, FocusArea::Chats),
        AppCommand::MoveUp
    );
    assert_eq!(
        map_key_event(down, UiMode::Normal, FocusArea::Messages),
        AppCommand::ScrollMessagesDown
    );
    assert_eq!(
        map_key_event(quit, UiMode::Normal, FocusArea::Chats),
        AppCommand::Quit
    );
    assert_eq!(
        map_key_event(tab, UiMode::Normal, FocusArea::Chats),
        AppCommand::FocusNext
    );
    assert_eq!(
        map_key_event(slash, UiMode::Normal, FocusArea::Chats),
        AppCommand::StartSearch
    );
    assert_eq!(
        map_key_event(enter, UiMode::Compose, FocusArea::Input),
        AppCommand::SubmitMessage
    );
}

#[test]
fn russian_layout_hotkeys_are_supported() {
    let quit = key(KeyCode::Char('\u{439}'));
    let compose = key(KeyCode::Char('\u{448}'));
    let sort = key(KeyCode::Char('\u{44b}'));
    let search = key(KeyCode::Char('.'));

    assert_eq!(
        map_key_event(quit, UiMode::Normal, FocusArea::Chats),
        AppCommand::Quit
    );
    assert_eq!(
        map_key_event(compose, UiMode::Normal, FocusArea::Chats),
        AppCommand::EnterCompose
    );
    assert_eq!(
        map_key_event(sort, UiMode::Normal, FocusArea::Chats),
        AppCommand::ToggleSortMode
    );
    assert_eq!(
        map_key_event(search, UiMode::Normal, FocusArea::Chats),
        AppCommand::StartSearch
    );
}

#[test]
fn quit_hotkeys_are_text_in_compose_and_search_modes() {
    let quit_en = key(KeyCode::Char('q'));
    let quit_ru = key(KeyCode::Char('\u{439}'));

    assert_eq!(
        map_key_event(quit_en, UiMode::Compose, FocusArea::Input),
        AppCommand::InsertChar('q')
    );
    assert_eq!(
        map_key_event(quit_ru, UiMode::Compose, FocusArea::Input),
        AppCommand::InsertChar('\u{439}')
    );
    assert_eq!(
        map_key_event(quit_en, UiMode::Search, FocusArea::Chats),
        AppCommand::InsertChar('q')
    );
    assert_eq!(
        map_key_event(quit_ru, UiMode::Search, FocusArea::Chats),
        AppCommand::InsertChar('\u{439}')
    );
}

#[test]
fn compose_hotkeys_are_text_in_compose_mode() {
    let compose_en = key(KeyCode::Char('i'));
    let compose_up = key(KeyCode::Char('I'));
    let compose_ru = key(KeyCode::Char('\u{448}'));

    assert_eq!(
        map_key_event(compose_en, UiMode::Compose, FocusArea::Input),
        AppCommand::InsertChar('i')
    );
    assert_eq!(
        map_key_event(compose_up, UiMode::Compose, FocusArea::Input),
        AppCommand::InsertChar('I')
    );
    assert_eq!(
        map_key_event(compose_ru, UiMode::Compose, FocusArea::Input),
        AppCommand::InsertChar('\u{448}')
    );
}

#[test]
fn sort_hotkeys_are_text_in_search_and_compose_modes() {
    let sort_en = key(KeyCode::Char('s'));
    let sort_ru = key(KeyCode::Char('\u{44b}'));

    // search mode forces chats focus; the query can still contain `s`
    assert_eq!(
        map_key_event(sort_en, UiMode::Search, FocusArea::Chats),
        AppCommand::InsertChar('s')
    );
    assert_eq!(
        map_key_event(sort_ru, UiMode::Search, FocusArea::Chats),
        AppCommand::InsertChar('\u{44b}')
    );
    assert_eq!(
        map_key_event(sort_en, UiMode::Compose, FocusArea::Input),
        AppCommand::InsertChar('s')
    );
    // the sort hotkey still works where it should
    assert_eq!(
        map_key_event(sort_en, UiMode::Normal, FocusArea::Chats),
        AppCommand::ToggleSortMode
    );
    // and asks for chats focus
    assert_eq!(
        map_key_event(sort_en, UiMode::Normal, FocusArea::Messages),
        AppCommand::InsertChar('s')
    );
}

#[test]
fn auth_quit_hotkey_supports_russian_alias() {
    let k = key(KeyCode::Char('\u{439}'));
    let action = handle_auth_key(k, &mut String::new());

    assert!(matches!(action, AuthKeyAction::Quit));
}

#[test]
fn auth_regular_chars_are_still_inserted() {
    let mut input = String::new();
    let k = key(KeyCode::Char('\u{444}'));
    let action = handle_auth_key(k, &mut input);

    assert!(matches!(action, AuthKeyAction::Noop));
    assert_eq!(input, "\u{444}");
}
