use liscov_core::message_stream::{DisplayLimit, MessageStream, MessageStreamConfig};
use liscov_core::models::GuiChatMessage;

fn create_test_message(id: usize) -> GuiChatMessage {
    GuiChatMessage {
        timestamp: format!("12:00:{:02}", id % 60),
        author: format!("User{}", id),
        content: format!("Test message {}", id),
        ..Default::default()
    }
}

#[test]
fn test_basic_functionality() {
    let mut stream = MessageStream::with_fixed_limit(3);
    stream.push_message(create_test_message(1));
    stream.push_message(create_test_message(2));
    stream.push_message(create_test_message(3));
    assert_eq!(stream.display_count(), 3);
    assert_eq!(stream.total_count(), 3);
    assert_eq!(stream.archived_count(), 0);
}

#[test]
fn test_archiving() {
    let mut stream = MessageStream::with_fixed_limit(2);
    stream.push_message(create_test_message(1));
    stream.push_message(create_test_message(2));
    stream.push_message(create_test_message(3));
    assert_eq!(stream.display_count(), 2);
    assert_eq!(stream.total_count(), 3);
    assert_eq!(stream.archived_count(), 1);
    let display = stream.display_messages();
    assert_eq!(display[0].author, "User2");
    assert_eq!(display[1].author, "User3");
}

#[test]
fn test_batch_add() {
    let mut stream = MessageStream::with_fixed_limit(2);
    let messages = vec![create_test_message(1), create_test_message(2), create_test_message(3)];
    stream.push_messages(messages);
    assert_eq!(stream.display_count(), 2);
    assert_eq!(stream.total_count(), 3);
    assert_eq!(stream.archived_count(), 1);
}

#[test]
fn test_search() {
    let mut stream = MessageStream::with_fixed_limit(1);
    stream.push_message(create_test_message(1));
    stream.push_message(create_test_message(2));
    let results = stream.search_by_author("User1");
    assert_eq!(results.len(), 1);
    assert_eq!(results[0].author, "User1");
}

#[test]
fn test_stats() {
    let mut stream = MessageStream::with_fixed_limit(2);
    stream.push_message(create_test_message(1));
    stream.push_message(create_test_message(2));
    stream.push_message(create_test_message(3));
    let stats = stream.stats();
    assert_eq!(stats.display_count, 2);
    assert_eq!(stats.archived_count, 1);
    assert_eq!(stats.total_count, 3);
    assert_eq!(stats.effective_reduction_percent, 33);
}

#[test]
fn test_bidirectional_limit_changes() {
    let mut stream = MessageStream::with_fixed_limit(2);
    stream.push_message(create_test_message(1));
    stream.push_message(create_test_message(2));
    stream.push_message(create_test_message(3));
    assert_eq!(stream.display_count(), 2);
    assert_eq!(stream.archived_count(), 1);

    let new_config = MessageStreamConfig {
        display_limit: DisplayLimit::Fixed(50),
        max_display_count: 50,
        ..Default::default()
    };
    stream.update_config(new_config);
    assert_eq!(stream.display_count(), 3);
    assert_eq!(stream.archived_count(), 0);
    let display = stream.display_messages();
    assert_eq!(display[0].author, "User1");
    assert_eq!(display[1].author, "User2");
    assert_eq!(display[2].author, "User3");

    let new_config = MessageStreamConfig {
        display_limit: DisplayLimit::Fixed(1),
        max_display_count: 1,
        ..Default::default()
    };
    stream.update_config(new_config);
    assert_eq!(stream.display_count(), 1);
    assert_eq!(stream.archived_count(), 2);
    let display = stream.display_messages();
    assert_eq!(display[0].author, "User3");
}

#[test]
fn test_unlimited_restore() {
    let mut stream = MessageStream::with_fixed_limit(1);
    for i in 1..=10 {
        stream.push_message(create_test_message(i));
    }
    assert_eq!(stream.display_count(), 1);
    assert_eq!(stream.archived_count(), 9);
    let new_config = MessageStreamConfig {
        display_limit: DisplayLimit::Unlimited,
        max_display_count: usize::MAX,
        ..Default::default()
    };
    stream.update_config(new_config);
    assert_eq!(stream.display_count(), 10);
    assert_eq!(stream.archived_count(), 0);
    let display = stream.display_messages();
    assert_eq!(display[0].author, "User1");
    assert_eq!(display[9].author, "User10");
}

#[test]
fn test_partial_restore() {
    let mut stream = MessageStream::with_fixed_limit(1);
    for i in 1..=5 {
        stream.push_message(create_test_message(i));
    }
    assert_eq!(stream.display_count(), 1);
    assert_eq!(stream.archived_count(), 4);
    let new_config = MessageStreamConfig {
        display_limit: DisplayLimit::Fixed(3),
        max_display_count: 3,
        ..Default::default()
    };
    stream.update_config(new_config);
    assert_eq!(stream.display_count(), 3);
    assert_eq!(stream.archived_count(), 2);
    let display = stream.display_messages();
    assert_eq!(display[0].author, "User3");
    assert_eq!(display[1].author, "User4");
    assert_eq!(display[2].author, "User5");
}

#[test]
fn duplicate_message_is_ignored() {
    let mut stream = MessageStream::with_fixed_limit(5);
    stream.push_message(create_test_message(1));
    stream.push_message(create_test_message(1));
    assert_eq!(stream.display_count(), 1);
    assert_eq!(stream.total_count(), 1);
    stream.clear();
    stream.push_message(create_test_message(1));
    assert_eq!(stream.display_count(), 0);
    assert_eq!(stream.total_count(), 0);
}

#[test]
fn message_id_distinguishes_content() {
    let a = MessageStream::message_id(&create_test_message(1));
    let b = MessageStream::message_id(&create_test_message(2));
    assert_ne!(a, b);
    assert_eq!(a, MessageStream::message_id(&create_test_message(1)));
}

#[test]
fn search_by_content_and_disabled_search() {
    let mut stream = MessageStream::with_fixed_limit(1);
    stream.push_message(create_test_message(1));
    stream.push_message(create_test_message(2));
    stream.push_message(create_test_message(3));
    let found = stream.search_by_content("message 2");
    assert_eq!(found.len(), 1);
    assert_eq!(found[0].author, "User2");
    let config = MessageStreamConfig {
        display_limit: DisplayLimit::Fixed(1),
        archive_search_enabled: false,
        ..Default::default()
    };
    stream.update_config(config);
    assert!(stream.search_by_author("User1").is_empty());
}

#[test]
fn archive_disabled_drops_messages() {
    let config = MessageStreamConfig {
        display_limit: DisplayLimit::Fixed(1),
        enable_archive: false,
        ..Default::default()
    };
    let mut stream = MessageStream::new(config);
    stream.push_message(create_test_message(1));
    stream.push_message(create_test_message(2));
    assert_eq!(stream.archived_count(), 1);
    assert!(stream.search_by_author("User1").is_empty());
    let stats = stream.stats();
    assert_eq!(stats.archive_memory_bytes, 0);
    assert_eq!(stats.effective_reduction_percent, 50);
}

#[test]
fn recent_messages_returns_newest() {
    let mut stream = MessageStream::with_defaults();
    for i in 1..=5 {
        stream.push_message(create_test_message(i));
    }
    let recent = stream.recent_messages(2);
    assert_eq!(recent.len(), 2);
    assert_eq!(recent[0].author, "User4");
    assert_eq!(recent[1].author, "User5");
    assert_eq!(stream.recent_messages(10).len(), 5);
    assert_eq!(stream.display_messages_ref().len(), 5);
    assert_eq!(stream.config().max_display_count, 100);
}

#[test]
fn performance_and_memory_limits() {
    let config = MessageStreamConfig {
        display_limit: DisplayLimit::Performance(30),
        ..Default::default()
    };
    let mut stream = MessageStream::new(config);
    for i in 1..=150 {
        stream.push_message(create_test_message(i));
    }
    assert_eq!(stream.display_count(), 100);
    assert_eq!(stream.archived_count(), 50);
    let config = MessageStreamConfig {
        display_limit: DisplayLimit::Memory(1),
        ..Default::default()
    };
    stream.update_config(config);
    // 1 MB at 300 bytes per message allows 3495 messages: all come back.
    assert_eq!(stream.display_count(), 150);
    assert_eq!(stream.archived_count(), 0);
}
