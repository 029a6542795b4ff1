use liscov_core::highlight::HighlightConfig;

#[test]
fn highlight_defaults_and_backup_limits() {
    let c = HighlightConfig::default();
    assert!(c.enabled);
    assert_eq!(c.duration_seconds, 8);
    assert_eq!(c.max_messages, 20);
    assert_eq!(c.get_backup_max_messages(), 10);
    assert_eq!(c.get_backup_check_interval_ms(), 500);
    let odd = HighlightConfig { enabled: true, duration_seconds: 3, max_messages: 7 };
    assert_eq!(odd.get_backup_max_messages(), 4);
    let none = HighlightConfig { enabled: false, duration_seconds: 0, max_messages: 0 };
    assert_eq!(none.get_backup_max_messages(), 0);
}
