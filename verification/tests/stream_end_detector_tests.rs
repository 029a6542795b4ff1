use liscov_core::stream_end_detector::{
    error_class_name, DetectionResult, DetectorNotice, ErrorType, StreamEndDetector,
};

#[test]
fn test_error_type_classification() {
    assert_eq!(ErrorType::from_error_string("403 Forbidden"), ErrorType::Forbidden);
    assert_eq!(ErrorType::from_error_string("HTTP 403"), ErrorType::Forbidden);
    assert_eq!(ErrorType::from_error_string("404 Not Found"), ErrorType::NotFound);
    assert_eq!(ErrorType::from_error_string("timeout error"), ErrorType::Timeout);
    assert_eq!(ErrorType::from_error_string("network connection failed"), ErrorType::Network);
    match ErrorType::from_error_string("unknown error") {
        ErrorType::Other(s) => assert_eq!(s, "unknown error"),
        _ => panic!("Expected Other variant"),
    }
}

#[test]
fn test_stream_end_detection() {
    let mut detector = StreamEndDetector::new();
    assert_eq!(detector.on_error("403 Forbidden"), DetectionResult::Continue);
    assert_eq!(detector.on_error("403 Forbidden"), DetectionResult::Continue);
    assert_eq!(detector.on_error("403 Forbidden"), DetectionResult::Warning);
    assert_eq!(detector.on_error("403 Forbidden"), DetectionResult::Warning);
    assert_eq!(detector.on_error("403 Forbidden"), DetectionResult::Warning);
    assert_eq!(detector.on_error("403 Forbidden"), DetectionResult::Warning);
    assert_eq!(detector.on_error("403 Forbidden"), DetectionResult::Warning);
    assert_eq!(detector.on_error("403 Forbidden"), DetectionResult::StreamEnded);
    assert!(detector.is_stream_ended());
    assert_eq!(detector.on_error("403 Forbidden"), DetectionResult::AlreadyEnded);
}

#[test]
fn test_success_resets_counter() {
    let mut detector = StreamEndDetector::new();
    detector.on_error("403 Forbidden");
    detector.on_error("403 Forbidden");
    detector.on_error("403 Forbidden");
    assert_eq!(detector.consecutive_errors(), 3);
    detector.on_success();
    assert_eq!(detector.consecutive_errors(), 0);
    assert_eq!(detector.on_error("403 Forbidden"), DetectionResult::Continue);
    assert_eq!(detector.consecutive_errors(), 1);
}

#[test]
fn test_reset_clears_stream_end_flag() {
    let mut detector = StreamEndDetector::new();
    detector.force_stream_ended();
    assert!(detector.is_stream_ended());
    assert!(detector.consecutive_errors() >= 8);
    detector.reset();
    assert!(!detector.is_stream_ended());
    assert_eq!(detector.consecutive_errors(), 0);
}

#[test]
fn test_non_403_errors() {
    let mut detector = StreamEndDetector::new();
    for _ in 0..10 {
        let result = detector.on_error("404 Not Found");
        assert_ne!(result, DetectionResult::StreamEnded);
    }
    assert!(!detector.is_stream_ended());
}

#[test]
fn test_error_display_names() {
    assert_eq!(ErrorType::Forbidden.display_name(), "403 Forbidden");
    assert_eq!(ErrorType::NotFound.display_name(), "404 Not Found");
    assert_eq!(ErrorType::Timeout.display_name(), "Timeout");
    assert_eq!(ErrorType::Network.display_name(), "Network Error");
    assert_eq!(ErrorType::RateLimit.display_name(), "Rate Limit");
    assert_eq!(ErrorType::Other("test".to_string()).display_name(), "Unknown Error");
}

#[test]
fn rate_limit_and_case_insensitive_classification() {
    assert_eq!(ErrorType::from_error_string("Too Many Requests (429)"), ErrorType::RateLimit);
    assert_eq!(ErrorType::from_error_string("RATE LIMIT exceeded"), ErrorType::RateLimit);
    assert_eq!(ErrorType::from_error_string("FORBIDDEN"), ErrorType::Forbidden);
    assert_eq!(error_class_name(4), "Rate Limit");
}

#[test]
fn notices_are_queued_with_rate_limit() {
    let mut d = StreamEndDetector::new_at(0);
    assert_eq!(d.on_error_at("403", 1_000_000), DetectionResult::Continue);
    assert_eq!(d.on_error_at("403", 2_000_000), DetectionResult::Continue);
    assert_eq!(d.on_error_at("403", 3_000_000), DetectionResult::Warning);
    // within thirty seconds of the first warning: no second notice
    assert_eq!(d.on_error_at("403", 4_000_000), DetectionResult::Warning);
    let notices = d.take_notices();
    assert_eq!(
        notices,
        vec![DetectorNotice::ErrorWarning { consecutive_errors: 3, error_class: 0 }]
    );
    // more than thirty seconds later: a new warning
    assert_eq!(d.on_error_at("403", 40_000_000), DetectionResult::Warning);
    assert_eq!(d.take_notices().len(), 1);
    assert!(d.take_notices().is_empty());
}

#[test]
fn errors_lasting_two_minutes_end_the_stream() {
    let mut d = StreamEndDetector::new_at(0);
    assert_eq!(d.on_error_at("timeout", 1_000_000), DetectionResult::Continue);
    assert_eq!(d.on_error_at("timeout", 121_000_001), DetectionResult::StreamEnded);
    assert!(d.is_stream_ended());
    assert_eq!(
        d.take_notices(),
        vec![DetectorNotice::StreamEnded { consecutive_errors: 2, stream_start: Some(0) }]
    );
    assert_eq!(d.stream_duration_minutes_at(180_000_000), 3);
    d.reset_at(5);
    assert_eq!(d.stream_duration_minutes_at(4), 0);
}
