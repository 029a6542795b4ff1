use liscov_core::chat_display_state::ChatDisplayState;
use liscov_core::models::{ActiveTab, GuiChatMessage, MessageType};

fn message(author: &str, content: &str) -> GuiChatMessage {
    GuiChatMessage {
        message_type: MessageType::Text,
        author: author.to_string(),
        content: content.to_string(),
        ..Default::default()
    }
}

#[test]
fn display_state_starts_empty_and_following() {
    let state = ChatDisplayState::new();
    assert!(state.messages.is_empty());
    assert!(state.filtered_messages.is_empty());
    assert!(state.auto_scroll_enabled);
    assert!(!state.user_has_scrolled);
    assert_eq!(state.current_tab, ActiveTab::ChatMonitor);
    assert!(!state.show_filter_panel);
    assert!(state.show_timestamps);
    assert_eq!(state.last_message_count, 0);
    assert!(!state.show_test_button);
    assert!(state.should_auto_scroll());
    assert!(!state.has_new_messages());
    assert_eq!(state.get_new_message_count(), 0);
}

#[test]
fn display_state_counts_new_messages_until_seen() {
    let mut state = ChatDisplayState::default();
    state.filtered_messages = vec![message("a", "1"), message("b", "2"), message("c", "3")];
    assert!(state.has_new_messages());
    assert_eq!(state.get_new_message_count(), 3);

    state.update_last_message_count();
    assert_eq!(state.last_message_count, 3);
    assert!(!state.has_new_messages());
    assert_eq!(state.get_new_message_count(), 0);

    state.filtered_messages.push(message("d", "4"));
    assert!(state.has_new_messages());
    assert_eq!(state.get_new_message_count(), 1);
}

#[test]
fn display_state_fewer_messages_than_seen_gives_none_new() {
    let mut state = ChatDisplayState::new();
    state.last_message_count = 5;
    state.filtered_messages = vec![message("a", "1"), message("b", "2")];
    assert!(!state.has_new_messages());
    assert_eq!(state.get_new_message_count(), 0);
}

#[test]
fn display_state_manual_scroll_stops_following() {
    let mut state = ChatDisplayState::new();
    state.user_has_scrolled = true;
    assert!(!state.should_auto_scroll());
    state.user_has_scrolled = false;
    state.auto_scroll_enabled = false;
    assert!(!state.should_auto_scroll());
}

#[test]
fn display_state_reset_forgets_seen_and_scrolling() {
    let mut state = ChatDisplayState::new();
    state.filtered_messages = vec![message("a", "1")];
    state.update_last_message_count();
    state.user_has_scrolled = true;
    state.reset_state();
    assert_eq!(state.last_message_count, 0);
    assert!(!state.user_has_scrolled);
    assert_eq!(state.filtered_messages.len(), 1);
    assert!(state.has_new_messages());
}

#[test]
fn display_state_from_messages_keeps_them() {
    let state = ChatDisplayState::from_external_signals(vec![message("a", "hello")]);
    assert_eq!(state.messages.len(), 1);
    assert_eq!(state.messages[0].content, "hello");
    assert!(state.filtered_messages.is_empty());
}
