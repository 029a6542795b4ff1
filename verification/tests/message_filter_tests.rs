use liscov_core::message_filter::{FilterConfig, FilterStats, MessageFilterPlugin};
use liscov_core::models::{GuiChatMessage, MessageType};

fn create_filter_message(content: &str) -> GuiChatMessage {
    GuiChatMessage {
        timestamp: chrono::Utc::now().format("%H:%M:%S").to_string(),
        message_type: MessageType::Text,
        author: content.to_string(),
        channel_id: "test_channel".to_string(),
        content: content.to_string(),
        runs: Vec::new(),
        metadata: None,
        is_member: false,
        ..Default::default()
    }
}

fn plugin_with(config: FilterConfig) -> MessageFilterPlugin {
    let mut plugin = MessageFilterPlugin::new();
    plugin.update_config(config);
    plugin
}

#[test]
fn test_blocked_words_filter() {
    let mut config = FilterConfig::default();
    config.insert_blocked_word("spam".to_string());
    let plugin = plugin_with(config);

    let spam_message = create_filter_message("This is spam content");
    let normal_message = create_filter_message("This is normal content");

    assert!(plugin.should_filter_message(&spam_message));
    assert!(!plugin.should_filter_message(&normal_message));
}

#[test]
fn test_message_length_filter() {
    let mut config = FilterConfig::default();
    config.min_message_length = 5;
    config.max_message_length = 20;
    let plugin = plugin_with(config);

    let short_message = create_filter_message("Hi");
    let long_message = create_filter_message("This is a very long message that exceeds the limit");
    let normal_message = create_filter_message("Normal message");

    assert!(plugin.should_filter_message(&short_message));
    assert!(plugin.should_filter_message(&long_message));
    assert!(!plugin.should_filter_message(&normal_message));
}

#[test]
fn test_superchat_always_allowed() {
    let mut config = FilterConfig::default();
    config.insert_blocked_word("spam".to_string());
    config.always_allow_superchat = true;
    let plugin = plugin_with(config);

    let mut superchat_message = create_filter_message("spam content");
    superchat_message.message_type = MessageType::SuperChat { amount: "¥500".to_string() };

    assert!(!plugin.should_filter_message(&superchat_message));
}

#[test]
fn test_url_filter() {
    let mut config = FilterConfig::default();
    config.filter_urls = true;
    let plugin = plugin_with(config);

    let url_message = create_filter_message("Check this out: https://example.com");
    let normal_message = create_filter_message("Normal message without URL");

    assert!(plugin.should_filter_message(&url_message));
    assert!(!plugin.should_filter_message(&normal_message));
}

#[test]
fn message_filter_plugin_test_spam_detection() {
    let plugin = MessageFilterPlugin::new();

    let spam_consecutive = create_filter_message("aaaaaaaaaaaaa");
    let spam_uppercase = create_filter_message("SPAMMMMMMM");
    let normal_message = create_filter_message("Normal Message");

    assert!(plugin.is_likely_spam(&spam_consecutive));
    assert!(plugin.is_likely_spam(&spam_uppercase));
    assert!(!plugin.is_likely_spam(&normal_message));
}

#[test]
fn filter_word_lists_behave_as_sets() {
    let mut config = FilterConfig::default();
    assert!(config.insert_blocked_word("spam".to_string()));
    assert!(!config.insert_blocked_word("spam".to_string()));
    assert_eq!(config.blocked_words.len(), 1);
    assert!(config.insert_required_word("hello".to_string()));
    assert_eq!(config.required_words.len(), 1);
}

#[test]
fn filter_blocked_words_ignore_case() {
    let mut config = FilterConfig::default();
    config.insert_blocked_word("SPAM".to_string());
    let plugin = plugin_with(config);
    assert!(plugin.should_filter_message(&create_filter_message("so much Spam here")));
}

#[test]
fn filter_required_words() {
    let mut config = FilterConfig::default();
    config.insert_required_word("hello".to_string());
    let plugin = plugin_with(config);
    assert!(!plugin.should_filter_message(&create_filter_message("Hello there")));
    assert!(plugin.should_filter_message(&create_filter_message("Good evening")));
}

#[test]
fn filter_emoji_only_messages() {
    let mut config = FilterConfig::default();
    config.filter_emoji_only = true;
    let plugin = plugin_with(config);
    assert!(plugin.should_filter_message(&create_filter_message("😊 🎉")));
    assert!(!plugin.should_filter_message(&create_filter_message("nice 😊")));
}

#[test]
fn filter_members_always_allowed_when_asked() {
    let mut config = FilterConfig::default();
    config.insert_blocked_word("bot".to_string());
    config.always_allow_members = true;
    let plugin = plugin_with(config);
    let mut message = create_filter_message("a bot message");
    message.is_member = true;
    assert!(!plugin.should_filter_message(&message));
    message.is_member = false;
    assert!(plugin.should_filter_message(&message));
}

#[test]
fn filter_spam_scan_counts_a_leading_nul() {
    let plugin = MessageFilterPlugin::new();
    let ten_nuls = "\0".repeat(10);
    assert!(plugin.is_likely_spam(&create_filter_message(&ten_nuls)));
    assert!(!plugin.is_likely_spam(&create_filter_message(&"b".repeat(10))));
}

#[test]
fn filter_default_blocked_words() {
    let plugin = MessageFilterPlugin::with_default_blocked_words();
    assert!(plugin.should_filter_message(&create_filter_message("this is a scam")));
    assert!(!plugin.should_filter_message(&create_filter_message("this is fine")));
    let info = plugin.info();
    assert_eq!(info.id, "message-filter");
    assert!(info.enabled);
}

#[test]
fn filter_counts_processed_messages() {
    let mut plugin = MessageFilterPlugin::with_default_blocked_words();
    assert!(plugin.process_message(&create_filter_message("spam!")));
    assert!(!plugin.process_message(&create_filter_message("hello")));
    let mut blocked_one = create_filter_message("fake news");
    blocked_one.channel_id = "UC1".to_string();
    let batch = vec![create_filter_message("ok"), blocked_one];
    let ids = plugin.process_messages(&batch);
    assert_eq!(ids, vec!["UC1".to_string()]);
    let stats = plugin.get_stats();
    assert_eq!(stats, FilterStats { processed_count: 4, blocked_count: 2, allowed_count: 2 });
    plugin.reset_stats();
    assert_eq!(plugin.get_stats(), FilterStats::default());
}
