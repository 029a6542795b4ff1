use liscov_core::theme::{get_button_class, get_connection_status_class, get_message_class, CssClasses};
use liscov_core::models::MessageType;
use liscov_core::utils::{extract_video_id, validate_window_bounds, validate_youtube_url, DebugLevel, WindowConfig};

#[test]
fn test_validate_youtube_url() {
    assert!(validate_youtube_url("https://youtube.com/watch?v=dQw4w9WgXcQ"));
    assert!(validate_youtube_url("https://www.youtube.com/watch?v=dQw4w9WgXcQ"));
    assert!(validate_youtube_url("https://youtu.be/dQw4w9WgXcQ"));
    assert!(!validate_youtube_url("https://example.com"));
}

#[test]
fn test_extract_video_id() {
    assert_eq!(extract_video_id("https://youtube.com/watch?v=dQw4w9WgXcQ"), Some("dQw4w9WgXcQ".to_string()));
    assert_eq!(extract_video_id("https://youtu.be/dQw4w9WgXcQ"), Some("dQw4w9WgXcQ".to_string()));
    assert_eq!(extract_video_id("https://example.com"), None);
}

#[test]
fn video_id_edge_cases() {
    assert_eq!(extract_video_id("https://www.youtube.com/watch?v=abc&t=10"), Some("abc".to_string()));
    assert_eq!(extract_video_id("https://youtu.be/xyz?t=5"), Some("xyz".to_string()));
    assert_eq!(extract_video_id("v="), Some(String::new()));
}

#[test]
fn window_bounds() {
    let mut c = WindowConfig { x: -5, y: 2000, width: 5000, height: 500 };
    validate_window_bounds(&mut c, Some((1920, 1080)));
    assert_eq!(c, WindowConfig { x: 100, y: 100, width: 900, height: 500 });
    let mut c = WindowConfig { x: 10, y: -1, width: 100, height: 100 };
    validate_window_bounds(&mut c, None);
    assert_eq!(c, WindowConfig { x: 10, y: 100, width: 400, height: 300 });
    assert_eq!(DebugLevel::Warn.as_filter(), "warn");
}

#[test]
fn css_classes() {
    assert_eq!(get_message_class(&MessageType::SuperSticker { amount: "¥1".to_string() }), "chat-message superchat");
    assert_eq!(get_message_class(&MessageType::Membership { milestone_months: None }), "chat-message system");
    assert_eq!(get_connection_status_class(true, true), "connection-status connecting");
    assert_eq!(get_connection_status_class(false, false), "connection-status disconnected");
    assert_eq!(get_button_class("danger", true), "btn btn-danger disabled");
    assert_eq!(get_button_class("other", false), "btn btn-primary");
    assert_eq!(CssClasses::CHAT_MESSAGE, "chat-message");
}

#[test]
fn log_file_names() {
    assert_eq!(
        liscov_core::utils::log_file_name("2024-01-02_03-04-05", 0x00ab12ef),
        "liscov_2024-01-02_03-04-05_00ab12ef.log"
    );
    assert!(liscov_core::utils::is_log_file_name("liscov_2024-01-02_03-04-05_00ab12ef.log"));
    assert!(!liscov_core::utils::is_log_file_name("liscov_2024-01-02_03-04-05_00AB12EF.log"));
    assert!(!liscov_core::utils::is_log_file_name("other.log"));
}

#[test]
fn old_log_files_are_chosen() {
    let files = vec![
        ("a".to_string(), 30u128),
        ("b".to_string(), 10u128),
        ("c".to_string(), 20u128),
        ("d".to_string(), 20u128),
    ];
    assert_eq!(liscov_core::utils::log_files_to_delete(&files, 2), vec!["b".to_string(), "d".to_string()]);
    assert!(liscov_core::utils::log_files_to_delete(&files, 4).is_empty());
    assert_eq!(liscov_core::utils::log_files_to_delete(&files, 0).len(), 4);
}

#[test]
fn generated_log_file_names_match_the_pattern() {
    let name = liscov_core::utils::generate_log_filename();
    assert!(name.starts_with("liscov_"));
    assert!(name.ends_with(".log"));
    assert!(liscov_core::utils::is_log_file_name(&name));
}

#[test]
fn generated_log_file_names_carry_a_local_time_stamp() {
    let name = liscov_core::utils::generate_log_filename();
    // liscov_YYYY-MM-DD_HH-MM-SS_xxxxxxxx.log
    assert_eq!(name.len(), "liscov_".len() + 19 + 1 + 8 + ".log".len());
    let stamp: Vec<char> = name["liscov_".len().."liscov_".len() + 19].chars().collect();
    for (i, c) in stamp.iter().enumerate() {
        match i {
            4 | 7 | 13 | 16 => assert_eq!(*c, '-'),
            10 => assert_eq!(*c, '_'),
            _ => assert!(c.is_ascii_digit()),
        }
    }
}
