use liscov_core::analytics::{amount_digits, hour_of, AnalyticsConfig, AnalyticsPlugin};
use liscov_core::app_state::CommentCounts;
use liscov_core::models::{GuiChatMessage, MessageType};

fn create_test_message(author: &str, content: &str, message_type: MessageType) -> GuiChatMessage {
    GuiChatMessage::new_for_test(author, content, message_type, 1)
}

fn parse_amount(amount: &str) -> Option<f64> {
    amount_digits(amount).parse().ok()
}

#[test]
fn test_basic_stats_collection() {
    let mut plugin = AnalyticsPlugin::new();
    plugin.analyze_message(&create_test_message("user1", "Hello world!", MessageType::Text));
    plugin.analyze_message(&create_test_message("user2", "Hi there!", MessageType::Text));
    plugin.analyze_message(&create_test_message("user1", "Another message", MessageType::Text));
    let stats = plugin.get_stats();
    assert_eq!(stats.total_messages, 3);
    assert_eq!(stats.unique_viewers, 2);
    assert_eq!(plugin.user_message_count("user1"), 2);
    assert_eq!(plugin.user_message_count("user2"), 1);
}

#[test]
fn test_superchat_amount_parsing() {
    assert_eq!(parse_amount("¥500"), Some(500.0));
    assert_eq!(parse_amount("$12.34"), Some(12.34));
    assert_eq!(parse_amount("€1,000"), Some(1000.0));
    assert_eq!(parse_amount("invalid"), None);
}

#[test]
fn test_superchat_stats() {
    let mut plugin = AnalyticsPlugin::new();
    let superchat = create_test_message(
        "supporter",
        "Thank you!",
        MessageType::SuperChat { amount: "¥500".to_string() },
    );
    plugin.analyze_message(&superchat);
    let total: f64 = match &superchat.message_type {
        MessageType::SuperChat { amount } => parse_amount(amount).unwrap_or(0.0),
        _ => 0.0,
    };
    assert_eq!(total, 500.0);
    let stats = plugin.get_stats();
    assert_eq!(stats.message_types, vec![("super-chat".to_string(), 1)]);
}

#[test]
fn test_average_message_length() {
    let mut plugin = AnalyticsPlugin::new();
    plugin.analyze_message(&create_test_message("user1", "Hi", MessageType::Text));
    plugin.analyze_message(&create_test_message("user2", "Hello world!", MessageType::Text));
    let stats = plugin.get_stats();
    let average = stats.total_message_length as f64 / stats.total_messages as f64;
    assert_eq!(average, 7.0);
}

#[test]
fn test_engagement_rate_calculation() {
    let mut plugin = AnalyticsPlugin::new();
    plugin.analyze_message(&create_test_message("user1", "msg1", MessageType::Text));
    plugin.analyze_message(&create_test_message("user1", "msg2", MessageType::Text));
    plugin.analyze_message(&create_test_message("user1", "msg3", MessageType::Text));
    plugin.analyze_message(&create_test_message("user2", "single", MessageType::Text));
    plugin.analyze_message(&create_test_message("user3", "first", MessageType::Text));
    plugin.analyze_message(&create_test_message("user3", "second", MessageType::Text));
    let stats = plugin.get_stats();
    let rate = stats.active_viewers as f64 / stats.unique_viewers as f64 * 100.0;
    assert!((rate - 66.66666666666667).abs() < 0.001);
}

#[test]
fn amount_digits_drops_signs_and_separators() {
    assert_eq!(amount_digits("¥1,500"), "1500");
    assert_eq!(amount_digits("£2"), "2");
    assert_eq!(amount_digits("abc"), "abc");
    assert_eq!(amount_digits(""), "");
}

#[test]
fn hours_of_the_day_in_utc() {
    assert_eq!(hour_of(0), 0);
    assert_eq!(hour_of(3_600_000_000), 1);
    assert_eq!(hour_of(3_600_000_000 * 25 + 5), 1);
    assert_eq!(hour_of(-1), 23);
    assert_eq!(hour_of(-3_600_000_000), 23);
    assert_eq!(hour_of(-3_600_000_001), 22);
}

#[test]
fn counts_by_kind_hour_and_time() {
    let mut plugin = AnalyticsPlugin::new();
    let t0: i64 = 3_600_000_000 * 5;
    plugin.analyze_message_at(&create_test_message("a", "x", MessageType::Text), t0);
    plugin.analyze_message_at(&create_test_message("b", "yy", MessageType::System), t0 + 3_600_000_000);
    plugin.analyze_message_at(&create_test_message("a", "zzz", MessageType::Text), t0 + 3_600_000_000 + 90_000_000);
    let stats = plugin.get_stats();
    assert_eq!(stats.hourly_distribution[5], 1);
    assert_eq!(stats.hourly_distribution[6], 2);
    assert_eq!(stats.hourly_distribution.iter().sum::<u32>(), 3);
    assert_eq!(stats.peak_hour, Some(6));
    assert_eq!(
        stats.message_types,
        vec![("text".to_string(), 2), ("system".to_string(), 1)]
    );
    assert_eq!(stats.top_chatters, vec![("a".to_string(), 2), ("b".to_string(), 1)]);
    assert_eq!(stats.total_message_length, 6);
    assert_eq!(stats.first_message_micros, Some(t0));
    assert_eq!(stats.last_message_micros, Some(t0 + 3_600_000_000 + 90_000_000));
    assert_eq!(plugin.session_duration_seconds(), 3690);
    assert_eq!(stats.active_viewers, 1);
}

#[test]
fn disabled_plugin_counts_nothing() {
    let mut plugin = AnalyticsPlugin::new();
    let mut config = AnalyticsConfig::default();
    config.enabled = false;
    plugin.update_config(config);
    plugin.analyze_message_at(&create_test_message("a", "x", MessageType::Text), 0);
    let stats = plugin.get_stats();
    assert_eq!(stats.total_messages, 0);
    assert_eq!(stats.peak_hour, None);
    assert!(stats.top_chatters.is_empty());
}

#[test]
fn top_chatters_keep_ten_most_active() {
    let mut plugin = AnalyticsPlugin::new();
    for i in 0..12u32 {
        let name = format!("user{}", i);
        for _ in 0..(i + 1) {
            plugin.analyze_message_at(&create_test_message(&name, "m", MessageType::Text), 0);
        }
    }
    let stats = plugin.get_stats();
    assert_eq!(stats.top_chatters.len(), 10);
    assert_eq!(stats.top_chatters[0], ("user11".to_string(), 12));
    assert_eq!(stats.top_chatters[9], ("user2".to_string(), 3));
    assert_eq!(stats.unique_viewers, 12);
}

#[test]
fn reports_follow_the_interval() {
    let mut plugin = AnalyticsPlugin::new();
    assert!(plugin.should_send_report_at(0));
    plugin.mark_report_sent_at(1_000_000);
    assert!(!plugin.should_send_report_at(300_999_999));
    assert!(plugin.should_send_report_at(301_000_000));
    assert!(!plugin.should_send_report_at(0));
    plugin.reset_stats_at(5);
    assert!(plugin.should_send_report_at(6));
}

#[test]
fn default_settings() {
    let c = AnalyticsConfig::default();
    assert!(c.enabled && c.engagement_analysis && !c.sentiment_analysis && !c.verbose_logging);
    assert_eq!(c.report_interval_seconds, 300);
    assert_eq!(c.data_retention_days, 30);
    let info = AnalyticsPlugin::new().info();
    assert_eq!(info.id, "analytics");
    assert!(info.enabled);
}

#[test]
fn counts_by_name_top_and_above() {
    let mut c = CommentCounts::new();
    c.record("x");
    c.record("y");
    c.record("y");
    c.record("z");
    assert_eq!(c.len(), 3);
    assert_eq!(c.count_above(1), 1);
    assert_eq!(c.count_above(0), 3);
    assert_eq!(c.top(2), vec![("y".to_string(), 2), ("x".to_string(), 1)]);
    assert_eq!(c.top(0), vec![]);
    assert_eq!(c.top(9).len(), 3);
}
