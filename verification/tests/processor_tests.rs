use liscov_core::message_processor::{
    amount_number_text, DefaultMessageProcessor, DefaultMessageProcessorFactory, MessageProcessorConfig,
};
use liscov_core::models::{GuiChatMessage, MessageType};
use liscov_core::traits::{
    MessageFilterConfig, MessageQuery, MessageSortOrder, MessageStatistics, ProcessingError,
    RepositoryConfig, RepositoryType,
};

fn create_test_message(author: &str, content: &str, message_type: MessageType) -> GuiChatMessage {
    GuiChatMessage {
        timestamp: chrono::Utc::now().format("%H:%M:%S").to_string(),
        message_type,
        author: author.to_string(),
        author_icon_url: None,
        channel_id: "test_channel".to_string(),
        content: content.to_string(),
        runs: Vec::new(),
        metadata: None,
        is_member: false,
        comment_count: None,
        ..Default::default()
    }
}

#[test]
fn test_sanitize_content() {
    let processor = DefaultMessageProcessor::new();
    let result = processor.sanitize_content("Hello, world!");
    assert!(result.is_ok());
    assert_eq!(result.unwrap(), "Hello, world!");
    let long_content = "a".repeat(1500);
    let result = processor.sanitize_content(&long_content);
    assert!(result.is_ok());
    let sanitized = result.unwrap();
    assert!(sanitized.len() <= 1003);
    assert!(sanitized.ends_with("..."));
    let result = processor.sanitize_content("");
    assert!(result.is_err());
    let result = processor.sanitize_content("Hello\x00World\x1F!");
    assert!(result.is_ok());
    assert_eq!(result.unwrap(), "HelloWorld!");
}

#[test]
fn test_sanitize_author() {
    let processor = DefaultMessageProcessor::new();
    let result = processor.sanitize_author("TestUser");
    assert!(result.is_ok());
    assert_eq!(result.unwrap(), "TestUser");
    let result = processor.sanitize_author("");
    assert!(result.is_ok());
    assert_eq!(result.unwrap(), "Unknown");
    let result = processor.sanitize_author("   ");
    assert!(result.is_ok());
    assert_eq!(result.unwrap(), "Unknown");
    let long_author = "a".repeat(150);
    let result = processor.sanitize_author(&long_author);
    assert!(result.is_ok());
    assert!(result.unwrap().len() <= 100);
}

#[test]
fn message_processor_test_spam_detection() {
    let mut config = MessageProcessorConfig::default();
    config.enable_spam_filter = true;
    let processor = DefaultMessageProcessor::with_config(config);
    let normal_message = create_test_message("User", "Hello everyone!", MessageType::Text);
    assert!(!processor.is_spam(&normal_message));
    let spam_message = create_test_message("Spammer", "aaaaaaaaaaaaa", MessageType::Text);
    assert!(processor.is_spam(&spam_message));
    let caps_message = create_test_message("Shouter", "HELLO EVERYONE!!!", MessageType::Text);
    assert!(processor.is_spam(&caps_message));
}

#[test]
fn test_emoji_counting() {
    let processor = DefaultMessageProcessor::new();
    assert_eq!(processor.count_emojis("Hello world"), 0);
    assert!(processor.count_emojis("Hello 😊 world 🎉") > 0);
}

#[test]
fn test_repository_config_default() {
    let config = RepositoryConfig::default();
    assert!(matches!(config.repository_type, RepositoryType::Memory));
    assert_eq!(config.batch_size, 100);
    assert!(config.auto_flush);
}

#[test]
fn sanitize_edge_cases() {
    let processor = DefaultMessageProcessor::new();
    match processor.sanitize_content(" \n\t ") {
        Err(ProcessingError::Validation(m)) => assert_eq!(m, "Empty message content"),
        other => panic!("unexpected {:?}", other),
    }
    assert_eq!(processor.sanitize_content("a\nb\tc\u{7f}").unwrap(), "a\nb\tc");
    let exact = "b".repeat(1000);
    assert_eq!(processor.sanitize_content(&exact).unwrap(), exact);
    assert_eq!(processor.sanitize_author("  Bob\u{1}  ").unwrap(), "Bob");
    let e = ProcessingError::Validation("x".to_string());
    assert_eq!(e.to_message(), "Validation error: x");
}

#[test]
fn spam_thresholds_and_emoji_switch() {
    let processor = DefaultMessageProcessorFactory::create_with_spam_filter();
    let ten = create_test_message("u", "xaaaaaaaaaay", MessageType::Text);
    assert!(!processor.is_spam(&ten));
    let eleven = create_test_message("u", "xaaaaaaaaaaay", MessageType::Text);
    assert!(processor.is_spam(&eleven));
    let four_of_five = create_test_message("u", "ABCDe", MessageType::Text);
    assert!(!processor.is_spam(&four_of_five));
    let default = DefaultMessageProcessorFactory::create_default();
    assert!(!default.is_spam(&eleven));
    let mut config = MessageProcessorConfig::default();
    config.enable_emoji_conversion = false;
    let mut p = DefaultMessageProcessorFactory::create_with_config(config);
    assert_eq!(p.count_emojis("😊😊"), 0);
    p.update_config(MessageProcessorConfig::default());
    assert_eq!(p.count_emojis("😊☀✂x"), 3);
    assert_eq!(p.get_config().max_message_length, 1000);
}

fn parse_amount_string(amount_str: &str) -> Result<f64, ProcessingError> {
    let text = amount_number_text(amount_str)?;
    text.parse::<f64>()
        .map_err(|e| ProcessingError::Format(format!("Failed to parse amount: {}", e)))
}

#[test]
fn test_message_filtering() {
    let processor = DefaultMessageProcessor::new();
    let default_filter = MessageFilterConfig::default();
    let message = create_test_message("User", "Hello", MessageType::Text);
    assert!(processor.filter_message(&message, &default_filter));
    let mut filter = MessageFilterConfig::default();
    filter.include_system_messages = false;
    let system_message = create_test_message("System", "User joined", MessageType::System);
    assert!(!processor.filter_message(&system_message, &filter));
    filter.author_filter = Some("Alice".to_string());
    let alice_message = create_test_message("Alice", "Hello", MessageType::Text);
    let bob_message = create_test_message("Bob", "Hello", MessageType::Text);
    assert!(processor.filter_message(&alice_message, &filter));
    assert!(!processor.filter_message(&bob_message, &filter));
}

#[test]
fn test_statistics_update() {
    let processor = DefaultMessageProcessor::new();
    let mut stats = MessageStatistics::default();
    let text_message = create_test_message("User1", "Hello", MessageType::Text);
    processor.update_statistics(&text_message, &mut stats);
    assert_eq!(stats.total_messages, 1);
    assert_eq!(stats.unique_authors.len(), 1);
    let superchat_message = create_test_message(
        "User2",
        "Thanks!",
        MessageType::SuperChat { amount: "¥500".to_string() },
    );
    processor.update_statistics(&superchat_message, &mut stats);
    assert_eq!(stats.total_messages, 2);
    assert_eq!(stats.unique_authors.len(), 2);
    assert_eq!(stats.super_chat_count, 1);
    let revenue = parse_amount_string("¥500").unwrap();
    assert!(revenue > 0.0);
    processor.update_statistics(&text_message, &mut stats);
    assert_eq!(stats.unique_authors, vec!["User1".to_string(), "User2".to_string()]);
    assert_eq!(stats.total_message_length, 5 + 7 + 5);
}

#[test]
fn test_amount_parsing() {
    assert_eq!(parse_amount_string("¥500").unwrap(), 500.0);
    assert_eq!(parse_amount_string("$25.50").unwrap(), 25.5);
    assert!(parse_amount_string("abc").is_err());
    assert!(parse_amount_string("").is_err());
}

#[test]
fn test_processor_factory() {
    let default_processor = DefaultMessageProcessorFactory::create_default();
    let spam_filter_processor = DefaultMessageProcessorFactory::create_with_spam_filter();
    let test_message = GuiChatMessage {
        timestamp: "12:34:56".to_string(),
        message_type: MessageType::Text,
        author: "testuser".to_string(),
        author_icon_url: None,
        channel_id: "test_channel".to_string(),
        content: "spam spam spam spam spam".to_string(),
        runs: Vec::new(),
        metadata: None,
        is_member: false,
        comment_count: None,
        ..Default::default()
    };
    let filter_config = MessageFilterConfig {
        include_system_messages: false,
        include_super_chat: true,
        include_membership: true,
        author_filter: None,
        content_filter: Some("spam".to_string()),
    };
    let default_result = default_processor.filter_message(&test_message, &filter_config);
    let spam_filter_result = spam_filter_processor.filter_message(&test_message, &filter_config);
    assert_eq!(default_result, true);
    assert_eq!(spam_filter_result, true);
}

#[test]
fn test_message_filter_config_default() {
    let config = MessageFilterConfig::default();
    assert!(!config.include_system_messages);
    assert!(config.include_super_chat);
    assert!(config.include_membership);
    assert!(config.author_filter.is_none());
}

#[test]
fn test_message_query_default() {
    let query = MessageQuery::default();
    assert!(query.limit.is_none());
    assert!(query.offset.is_none());
    assert!(matches!(query.sort_order, MessageSortOrder::Chronological));
}

#[test]
fn test_message_statistics_default() {
    let stats = MessageStatistics::default();
    assert_eq!(stats.total_messages, 0);
    assert_eq!(stats.super_chat_count, 0);
    assert_eq!(stats.total_message_length, 0);
}

#[test]
fn filter_rules_by_kind_and_case() {
    let processor = DefaultMessageProcessor::new();
    let config = MessageFilterConfig {
        include_system_messages: true,
        include_super_chat: false,
        include_membership: false,
        author_filter: Some("ALI".to_string()),
        content_filter: Some("Hel".to_string()),
    };
    let ok = create_test_message("alice", "hello", MessageType::Text);
    assert!(processor.filter_message(&ok, &config));
    let paid = create_test_message("alice", "hello", MessageType::SuperChat { amount: "¥1".to_string() });
    assert!(!processor.filter_message(&paid, &config));
    let sticker = create_test_message("alice", "hello", MessageType::SuperSticker { amount: "¥1".to_string() });
    assert!(processor.filter_message(&sticker, &config));
    let member = create_test_message("alice", "hello", MessageType::Membership { milestone_months: Some(3) });
    assert!(!processor.filter_message(&member, &config));
    let other_text = create_test_message("alice", "bye", MessageType::Text);
    assert!(!processor.filter_message(&other_text, &config));
    assert_eq!(amount_number_text("¥1,500.5").unwrap(), "1500.5");
}
