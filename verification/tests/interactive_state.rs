//! The interactive client's state transitions.

use tmz::cache::CachedConversation;
use tmz::config::AppConfig;
use tmz::models::{presence_status_from, PresenceStatus};
use tmz::tui::{App, Focus, Mode, SideTab};

fn conv(id: &str, name: &str, members: &str) -> CachedConversation {
    CachedConversation {
        id: id.to_string(),
        display_name: name.to_string(),
        thread_type: String::new(),
        product_type: "Chat".to_string(),
        last_message_preview: String::new(),
        last_message_from: String::new(),
        last_activity: "2026-02-17T10:00:00Z".to_string(),
        messages_url: String::new(),
        member_names: members.to_string(),
        raw_json: "{}".to_string(),
    }
}

fn app_with_chats() -> App {
    let mut app = App::new(AppConfig::default());
    app.conversations = vec![
        conv("19:a", "Weekly Sync", "Alex, Kim"),
        conv("19:b", "Random", "Sam"),
        conv("19:c", "alexandra", ""),
    ];
    app.filter_conversations();
    app
}

#[test]
fn new_app_starts_in_normal_mode() {
    let app = App::new(AppConfig::default());
    assert_eq!(app.mode, Mode::Normal);
    assert_eq!(app.focus, Focus::ChatList);
    assert_eq!(app.side_tab, SideTab::Chats);
    assert!(app.running);
    assert!(app.selected_conversation().is_none());
    assert_eq!(app.chat_list_len(), 0);
}

#[test]
fn empty_filter_keeps_every_conversation() {
    let app = app_with_chats();
    assert_eq!(app.chat_list_len(), 3);
    assert_eq!(app.selected_conversation().unwrap().id, "19:a");
}

#[test]
fn filter_matches_names_and_members() {
    let mut app = app_with_chats();
    app.chat_search = "alex".to_string();
    app.filter_conversations();
    // Matches "Alex" in the member list and "alexandra" in a name.
    assert_eq!(app.chat_list_len(), 2);
    assert_eq!(app.selected_conversation().unwrap().id, "19:a");
    app.chat_search = "nothing".to_string();
    app.filter_conversations();
    assert_eq!(app.chat_list_len(), 0);
    assert!(app.selected_conversation().is_none());
}

#[test]
fn filter_folds_beyond_ascii() {
    let mut app = App::new(AppConfig::default());
    app.conversations = vec![conv("19:m", "M\u{dc}LLER group", "")];
    app.chat_search = "m\u{fc}ller".to_string();
    app.filter_conversations();
    assert_eq!(app.chat_list_len(), 1);
}

#[test]
fn filtering_clamps_the_selection() {
    let mut app = app_with_chats();
    app.chat_next();
    app.chat_next();
    assert_eq!(app.chat_selected, 2);
    app.chat_search = "random".to_string();
    app.filter_conversations();
    assert_eq!(app.chat_list_len(), 1);
    assert_eq!(app.chat_selected, 0);
}

#[test]
fn selection_stops_at_both_ends() {
    let mut app = app_with_chats();
    app.chat_prev();
    assert_eq!(app.chat_selected, 0);
    app.chat_next();
    app.chat_next();
    app.chat_next();
    app.chat_next();
    assert_eq!(app.chat_selected, 2);
}

#[test]
fn scrolling_saturates() {
    let mut app = App::new(AppConfig::default());
    app.msg_scroll_up();
    assert_eq!(app.msg_scroll, 0);
    app.msg_scroll_down();
    assert_eq!(app.msg_scroll, 3);
    app.msg_scroll_bottom();
    assert_eq!(app.msg_scroll, usize::MAX);
    app.msg_scroll_down();
    assert_eq!(app.msg_scroll, usize::MAX);
}

#[test]
fn input_edits_at_the_cursor() {
    let mut app = App::new(AppConfig::default());
    app.input_char('h');
    app.input_char('i');
    assert_eq!(app.input, "hi");
    assert_eq!(app.cursor_pos, 2);
    app.input_backspace();
    assert_eq!(app.input, "h");
    assert_eq!(app.cursor_pos, 1);
    app.input_backspace();
    app.input_backspace();
    assert_eq!(app.input, "");
    assert_eq!(app.cursor_pos, 0);
    app.input_char('a');
    app.input_clear();
    assert_eq!(app.input, "");
    assert_eq!(app.cursor_pos, 0);
}

#[test]
fn multibyte_input_is_cursor_safe() {
    let mut app = App::new(AppConfig::default());
    app.input_char('\u{1F44D}');
    app.input_char('!');
    assert_eq!(app.input, "\u{1F44D}!");
    app.input_backspace();
    app.input_backspace();
    assert_eq!(app.input, "");
}

#[test]
fn presence_tags_map_to_statuses() {
    assert_eq!(presence_status_from("Available"), PresenceStatus::Available);
    assert_eq!(presence_status_from("DoNotDisturb"), PresenceStatus::DoNotDisturb);
    assert_eq!(presence_status_from("whatever"), PresenceStatus::Unknown);
}
