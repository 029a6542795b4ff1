use liscov_core::app_state::{CommentCounts, SessionState};
use liscov_core::models::{GuiChatMessage, MessageType};
use liscov_core::monitoring::ServiceState;

fn msg(author: &str) -> GuiChatMessage {
    GuiChatMessage::new_for_test(author, "hello", MessageType::Text, 1)
}

#[test]
fn comment_counts_number_each_authors_messages() {
    let mut s = SessionState::new();
    assert_eq!(s.on_message_added(msg("alice")).comment_count, Some(1));
    assert_eq!(s.on_message_added(msg("bob")).comment_count, Some(1));
    let m = s.on_message_added(msg("alice"));
    assert_eq!(m.comment_count, Some(2));
    assert_eq!(m.author, "alice");
    assert_eq!(m.content, "hello");
    assert_eq!(s.author_comment_counts.get("alice"), 2);
    assert_eq!(s.author_comment_counts.get("carol"), 0);
}

#[test]
fn connection_changes_drive_service_state() {
    let mut s = SessionState::new();
    assert!(s.on_connection_changed(true));
    assert_eq!(s.service_state, ServiceState::Connected);
    assert!(s.is_connected);
    assert!(!s.on_connection_changed(true));
    assert!(!s.on_connection_changed(false));
    assert_eq!(s.service_state, ServiceState::Idle);
    s.on_service_state_changed(ServiceState::Paused);
    s.on_connection_changed(false);
    assert_eq!(s.service_state, ServiceState::Paused);
    s.on_stopping_changed(true);
    assert!(s.is_stopping);
}

#[test]
fn new_page_resets_token_and_counts() {
    let mut s = SessionState::new();
    s.on_message_added(msg("alice"));
    s.on_continuation_token_updated(Some("token".to_string()));
    s.on_current_url_updated(None);
    assert_eq!(s.continuation_token.as_deref(), Some("token"));
    assert_eq!(s.author_comment_counts.get("alice"), 1);
    s.on_current_url_updated(Some("https://www.youtube.com/watch?v=x".to_string()));
    assert_eq!(s.continuation_token, None);
    assert_eq!(s.author_comment_counts.get("alice"), 0);
}

#[test]
fn clearing_messages_restarts_statistics() {
    let mut s = SessionState::new();
    s.on_connection_changed(true);
    s.on_message_added(msg("alice"));
    s.on_messages_cleared();
    assert!(!s.stats_timer_started);
    assert_eq!(s.author_comment_counts.get("alice"), 0);
    assert_eq!(s.on_message_added(msg("alice")).comment_count, Some(1));
    let mut c = CommentCounts::new();
    assert_eq!(c.record("x"), 1);
    assert_eq!(c.record("x"), 2);
    c.clear();
    assert_eq!(c.get("x"), 0);
}
