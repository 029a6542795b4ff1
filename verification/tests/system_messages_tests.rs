use liscov_core::models::{GuiChatMessage, MessageType};
use liscov_core::system_messages::{get_system_message_css_class, StreamStats, SystemMessageGenerator};

#[test]
fn test_stream_ended_message_generation() {
    let stats = StreamStats {
        total_messages: 1500,
        stream_duration_minutes: 120,
        consecutive_errors: 0,
        unique_authors: 350,
        superchat_count: 25,
        membership_count: 8,
    };
    let message = SystemMessageGenerator::create_stream_ended_message(stats);
    assert_eq!(message.message_type, MessageType::System);
    assert_eq!(message.author, "📡 System");
    assert!(message.content.contains("配信が終了しました"));
    assert!(message.content.contains("1500件"));
    assert!(message.content.contains("120分"));
    let css_class = get_system_message_css_class(&message);
    assert!(css_class.contains("system"));
    assert!(css_class.contains("stream-ended"));
}

#[test]
fn test_error_warning_message_generation() {
    let message = SystemMessageGenerator::create_error_warning_message(5, "403 Forbidden");
    assert_eq!(message.message_type, MessageType::System);
    assert_eq!(message.author, "⚠️ System Alert");
    assert!(message.content.contains("5回"));
    assert!(message.content.contains("403 Forbidden"));
    let css_class = get_system_message_css_class(&message);
    assert!(css_class.contains("system"));
    assert!(css_class.contains("error-warning"));
}

#[test]
fn test_connection_message_generation() {
    let message = SystemMessageGenerator::create_connection_message(
        true,
        Some("https://www.youtube.com/watch?v=example"),
    );
    assert_eq!(message.message_type, MessageType::System);
    assert!(message.author.contains("✅"));
    assert!(message.content.contains("接続しました"));
    assert!(message.content.contains("https://www.youtube.com/watch?v=example"));
}

#[test]
fn test_stats_collection() {
    let messages = vec![
        GuiChatMessage { message_type: MessageType::Text, author: "user1".to_string(), ..Default::default() },
        GuiChatMessage {
            message_type: MessageType::SuperChat { amount: "100".to_string() },
            author: "user2".to_string(),
            ..Default::default()
        },
        GuiChatMessage { message_type: MessageType::System, author: "System".to_string(), ..Default::default() },
    ];
    let start_time = (chrono::Utc::now() - chrono::Duration::minutes(30)).timestamp_micros();
    let stats = SystemMessageGenerator::collect_stream_stats(&messages, Some(start_time), 3);
    assert_eq!(stats.total_messages, 3);
    assert_eq!(stats.consecutive_errors, 3);
    assert_eq!(stats.unique_authors, 2);
    assert_eq!(stats.superchat_count, 1);
    assert!(stats.stream_duration_minutes >= 29 && stats.stream_duration_minutes <= 31);
}

#[test]
fn short_stream_ended_text_and_exact_counts() {
    let stats = StreamStats { total_messages: 7, ..Default::default() };
    assert_eq!(
        SystemMessageGenerator::stream_ended_content(&stats),
        "🔴 配信が終了しました\n\n📊 総メッセージ数: 7件\n\n✨ 視聴ありがとうございました！"
    );
    let messages = vec![
        GuiChatMessage { author: "a".to_string(), ..Default::default() },
        GuiChatMessage { author: "a".to_string(), ..Default::default() },
        GuiChatMessage {
            author: "b".to_string(),
            message_type: MessageType::Membership { milestone_months: None },
            ..Default::default()
        },
    ];
    let s = SystemMessageGenerator::collect_stream_stats_at(&messages, Some(0), 125_000_000, 0);
    assert_eq!(s.unique_authors, 2);
    assert_eq!(s.membership_count, 1);
    assert_eq!(s.stream_duration_minutes, 2);
    assert_eq!(SystemMessageGenerator::collect_stream_stats_at(&messages, None, 9, 0).stream_duration_minutes, 0);
}

#[test]
fn warning_levels_and_general_message() {
    let c = SystemMessageGenerator::error_warning_content(1, "Timeout");
    assert_eq!(
        c,
        "⚠️ 接続に軽微な問題が発生しています\n\n🔍 詳細:\n• 連続エラー回数: 1回\n• エラータイプ: Timeout\n• 自動復旧を試行中..."
    );
    assert!(SystemMessageGenerator::error_warning_content(8, "x").starts_with("🔴"));
    let m = SystemMessageGenerator::create_general_message("Info", "hello");
    assert_eq!(m.author, "ℹ️ Info");
    assert_eq!(m.content, "hello");
    assert!(m.id.starts_with("system_"));
    assert_eq!(m.id, format!("system_{}", m.timestamp_usec));
    assert_eq!(get_system_message_css_class(&m), "chat-message system");
    let d = SystemMessageGenerator::create_connection_message(false, None);
    assert_eq!(d.author, "❌ System");
    assert_eq!(d.metadata.unwrap().color.unwrap(), "#ef4444");
}

#[test]
fn system_ids_carry_the_microsecond_timestamp() {
    let (id, display, usec) = liscov_core::system_messages::generate_system_id_and_timestamps();
    assert_eq!(id, format!("system_{}", usec));
    assert!(usec.parse::<i64>().is_ok());
    let d: Vec<char> = display.chars().collect();
    assert_eq!(d.len(), 8);
    assert_eq!(d[2], ':');
    assert_eq!(d[5], ':');
}
