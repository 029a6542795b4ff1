use liscov_core::monitoring::{
    error_wait_secs, failed_start_message, handle_detection_result, poll_delay_after_response, resume_url,
    timeout_wait_secs, ui_needs_update, MessageReceiverLoop, ServiceState, UiSnapshot,
};
use liscov_core::stream_end_detector::DetectionResult;

#[test]
fn detection_stream_end_sets_idle_and_stops() {
    let step = handle_detection_result(DetectionResult::StreamEnded, "Stream ended".to_string(), Some(5));
    assert_eq!(step.state, ServiceState::Idle);
    assert!(step.stop);
    assert_eq!(step.wait_secs, None);
    let step = handle_detection_result(DetectionResult::AlreadyEnded, "x".to_string(), None);
    assert!(step.stop);
}

#[test]
fn detection_warning_sets_error_and_continues() {
    let step = handle_detection_result(DetectionResult::Warning, "API Error (2): temporary".to_string(), None);
    assert_eq!(step.state, ServiceState::Error("API Error (2): temporary".to_string()));
    assert!(!step.stop);
    let step = handle_detection_result(DetectionResult::Continue, "e".to_string(), Some(0));
    assert_eq!(step.wait_secs, None);
    let step = handle_detection_result(DetectionResult::Continue, "e".to_string(), Some(6));
    assert_eq!(step.wait_secs, Some(6));
}

#[test]
fn poll_pacing_after_responses() {
    assert_eq!(poll_delay_after_response(false, Some(500), 0), 1500);
    assert_eq!(poll_delay_after_response(true, None, 200), 1300);
    assert_eq!(poll_delay_after_response(true, Some(100), 0), 300);
    assert_eq!(poll_delay_after_response(true, Some(5000), 0), 1500);
    assert_eq!(poll_delay_after_response(true, Some(800), 750), 100);
    assert_eq!(poll_delay_after_response(true, Some(800), 5000), 100);
}

#[test]
fn error_backoff() {
    assert_eq!(error_wait_secs("403 Forbidden", 2), None);
    assert_eq!(error_wait_secs("403 Forbidden", 3), Some(9));
    assert_eq!(error_wait_secs("Forbidden", 20), Some(30));
    assert_eq!(error_wait_secs("network down", 4), Some(8));
    assert_eq!(error_wait_secs("network down", 50), Some(20));
    assert_eq!(timeout_wait_secs(1), None);
    assert_eq!(timeout_wait_secs(5), Some(10));
    assert_eq!(timeout_wait_secs(11), Some(20));
}

#[test]
fn receiver_loop_counts_errors() {
    let mut l = MessageReceiverLoop::new();
    assert_eq!(l.next_poll_delay_ms(), 0);
    assert_eq!(l.begin_request(), 1);
    let step = l.on_api_error("HTTP 403", DetectionResult::Continue);
    assert_eq!(step.state, ServiceState::Error("API Error (1): HTTP 403".to_string()));
    assert_eq!(step.wait_secs, None);
    assert_eq!(l.next_poll_delay_ms(), 1500);
    l.on_api_error("HTTP 403", DetectionResult::Continue);
    let step = l.on_timeout(DetectionResult::Warning);
    assert_eq!(step.state, ServiceState::Error("Timeout (3)".to_string()));
    assert_eq!(step.wait_secs, Some(6));
    assert_eq!(l.consecutive_errors(), 3);
    l.on_response(true, Some(1000), 100);
    assert_eq!(l.consecutive_errors(), 0);
    assert_eq!(l.next_poll_delay_ms(), 900);
    assert_eq!(l.request_count(), 1);
    let step = l.on_api_error("x", DetectionResult::StreamEnded);
    assert_eq!(step.state, ServiceState::Idle);
    assert!(step.stop);
}

#[test]
fn resume_url_prefers_last() {
    let last = Some("https://a".to_string());
    let current = Some("https://b".to_string());
    assert_eq!(resume_url(&last, &current), last);
    assert_eq!(resume_url(&None, &current), current);
    assert_eq!(resume_url(&None, &None), None);
    assert_eq!(failed_start_message("boom"), "Failed to initialize live chat: boom");
}

#[test]
fn ui_snapshot_changes() {
    let a = UiSnapshot { message_count: 1, service_state: ServiceState::Connected, is_connected: true, is_stopping: false };
    assert!(ui_needs_update(&None, &a));
    assert!(!ui_needs_update(&Some(a.clone()), &a));
    let mut b = a.clone();
    b.service_state = ServiceState::Error("x".to_string());
    assert!(ui_needs_update(&Some(a.clone()), &b));
    let mut c = b.clone();
    c.service_state = ServiceState::Error("y".to_string());
    assert!(ui_needs_update(&Some(b), &c));
    let mut d = a.clone();
    d.message_count = 2;
    assert!(ui_needs_update(&Some(a), &d));
}

#[test]
fn friendly_start_errors() {
    let m = liscov_core::monitoring::user_friendly_error("continuation not found in page");
    assert!(m.starts_with("❌ YouTubeライブ配信が見つかりません。"));
    assert!(liscov_core::monitoring::user_friendly_error("network unreachable").starts_with("❌ ネットワーク接続エラー"));
    assert!(liscov_core::monitoring::user_friendly_error("rate limit hit").starts_with("❌ API制限に達しました"));
    assert_eq!(liscov_core::monitoring::user_friendly_error("boom"), "❌ 監視開始エラー: boom");
}
