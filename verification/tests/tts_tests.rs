use liscov_core::models::{GuiChatMessage, MessageType};
use liscov_core::tts::{format_viewer_message, process_author_name};
use liscov_core::tts::{
    build_talk_url, format_message, get_priority, get_process_name, sanitize_text, BouyomichanConfig,
    TtsBackendType, TtsMessage, TtsPriority, TtsReadingOptions,
};

#[test]
fn test_get_process_name() {
    assert_eq!(get_process_name(TtsBackendType::Bouyomichan), "BouyomiChan.exe");
    assert_eq!(get_process_name(TtsBackendType::Voicevox), "VOICEVOX.exe");
    assert_eq!(get_process_name(TtsBackendType::Disabled), "");
}

#[test]
fn test_priority_ordering() {
    assert!(TtsPriority::Normal < TtsPriority::SuperChat);
    assert!(TtsPriority::SuperChat < TtsPriority::Membership);
}

#[test]
fn test_tts_message_creation() {
    let msg = TtsMessage { text: "テスト".to_string(), priority: TtsPriority::Normal };
    assert_eq!(msg.text, "テスト");
    assert_eq!(msg.priority, TtsPriority::Normal);
}

#[test]
fn test_build_talk_url() {
    let config = BouyomichanConfig::default();
    let url = build_talk_url(&config, "テスト");
    assert!(url.contains("text=%E3%83%86%E3%82%B9%E3%83%88"));
    assert!(url.contains("voice=0"));
    assert!(url.contains("volume=-1"));
    assert!(url.contains("speed=-1"));
    assert!(url.contains("tone=-1"));
}

#[test]
fn test_url_encoding() {
    let config = BouyomichanConfig::default();
    let url = build_talk_url(&config, "こんにちは！");
    assert!(url.contains("text="));
    assert!(!url.contains("こんにちは"));
}

#[test]
fn talk_url_exact() {
    let config = BouyomichanConfig::default();
    assert_eq!(
        build_talk_url(&config, "a b~"),
        "http://localhost:50080/Talk?text=a%20b~&voice=0&volume=-1&speed=-1&tone=-1"
    );
}

#[test]
fn test_sanitize_text() {
    let text = sanitize_text("こんにちは https://example.com テスト");
    assert_eq!(text, "こんにちは テスト");
    let text = sanitize_text("こんにちは    テスト");
    assert_eq!(text, "こんにちは テスト");
}

#[test]
fn test_format_message() {
    let options = TtsReadingOptions {
        read_author_name: true,
        add_honorific: true,
        strip_at_prefix: true,
        strip_handle_suffix: true,
        read_superchat_amount: false,
        max_text_length: 200,
    };
    let message = GuiChatMessage {
        id: "1".to_string(),
        timestamp: "00:00:00".to_string(),
        timestamp_usec: "0".to_string(),
        message_type: MessageType::Text,
        author: "テストユーザー".to_string(),
        author_icon_url: None,
        channel_id: "UC123".to_string(),
        content: "こんにちは".to_string(),
        runs: vec![],
        metadata: None,
        is_member: false,
        comment_count: None,
    };
    let text = format_message(&options, &message);
    assert!(text.contains("テストユーザー"));
    assert!(text.contains("こんにちは"));
}

#[test]
fn reading_text_parts_and_limits() {
    let options = TtsReadingOptions {
        read_author_name: true,
        add_honorific: true,
        strip_at_prefix: true,
        strip_handle_suffix: true,
        read_superchat_amount: true,
        max_text_length: 200,
    };
    let m = GuiChatMessage {
        author: "A".to_string(),
        message_type: MessageType::Membership { milestone_months: Some(6) },
        content: "ok".to_string(),
        ..Default::default()
    };
    assert_eq!(format_message(&options, &m), "A、6ヶ月のメンバーシップ、ok");
    let short = TtsReadingOptions { max_text_length: 3, ..options };
    assert_eq!(format_message(&short, &m), "A、6");
    let gift = GuiChatMessage { message_type: MessageType::MembershipGift { gift_count: 2 }, ..Default::default() };
    let no_author = TtsReadingOptions { read_author_name: false, ..options };
    assert_eq!(format_message(&no_author, &gift), "2人へのメンバーシップギフト");
    assert_eq!(get_priority(&gift), TtsPriority::Membership);
    assert_eq!(TtsBackendType::Voicevox.display_name(), "VOICEVOX");
    assert_eq!(TtsPriority::Membership.level(), 2);
}

#[test]
fn voicevox_request_urls() {
    assert_eq!(
        liscov_core::tts::voicevox_audio_query_url("localhost", 50021, 1, "テスト"),
        "http://localhost:50021/audio_query?speaker=1&text=%E3%83%86%E3%82%B9%E3%83%88"
    );
    assert_eq!(liscov_core::tts::voicevox_synthesis_url("localhost", 50021, -3), "http://localhost:50021/synthesis?speaker=-3");
    assert_eq!(liscov_core::tts::voicevox_version_url("127.0.0.1", 8080), "http://127.0.0.1:8080/version");
    let config = liscov_core::tts::BouyomichanConfig::default();
    assert_eq!(liscov_core::tts::bouyomichan_probe_url(&config), "http://localhost:50080/Talk?text=");
}

#[test]
fn viewer_names_are_processed() {
    let options = TtsReadingOptions {
        read_author_name: true,
        add_honorific: true,
        strip_at_prefix: true,
        strip_handle_suffix: true,
        read_superchat_amount: true,
        max_text_length: 200,
    };
    assert_eq!(process_author_name(&options, "@しょうや-x5y"), "しょうや");
    assert_eq!(process_author_name(&options, "@name-XYZ"), "name-XYZ");
    let keep = TtsReadingOptions { strip_at_prefix: false, strip_handle_suffix: false, ..options };
    assert_eq!(process_author_name(&keep, "@しょうや-x5y"), "@しょうや-x5y");
    let m = GuiChatMessage {
        author: "@viewer-abc".to_string(),
        content: "こんにちは".to_string(),
        message_type: MessageType::SuperChat { amount: "¥500".to_string() },
        ..Default::default()
    };
    assert_eq!(format_viewer_message(&options, None, &m), "viewerさん、¥500のスーパーチャット、こんにちは");
    assert_eq!(format_viewer_message(&options, Some("びゅーあー"), &m), "びゅーあーさん、¥500のスーパーチャット、こんにちは");
    let plain = TtsReadingOptions { add_honorific: false, read_superchat_amount: false, ..options };
    assert_eq!(format_viewer_message(&plain, None, &m), "viewer、こんにちは");
}

#[test]
fn test_default_config() {
    let config = liscov_core::tts::VoicevoxConfig::default();
    assert_eq!(config.host, "localhost");
    assert_eq!(config.port, 50021);
    assert_eq!(config.speaker_id, 1);
}

#[test]
fn tts_config_defaults_and_reading_options() {
    let config = liscov_core::tts::TtsConfig::default();
    assert!(!config.enabled);
    assert_eq!(config.backend, liscov_core::tts::TtsBackendType::Disabled);
    assert_eq!(config.max_text_length, 200);
    assert_eq!(config.queue_size_limit, 50);
    let options = config.reading_options();
    assert!(options.read_author_name && options.add_honorific && options.strip_at_prefix);
    assert_eq!(options.max_text_length, 200);
}
