use liscov_core::analytics::amount_digits;
use liscov_core::models::{GuiChatMessage, MessageType};
use liscov_core::notification::{
    format_notification_message, NotificationConfig, NotificationKind, NotificationPlugin,
};

fn create_test_message(author: &str, content: &str, message_type: MessageType) -> GuiChatMessage {
    GuiChatMessage::new_for_test(author, content, message_type, 1)
}

fn extract_superchat_amount(message: &GuiChatMessage) -> Option<f64> {
    match &message.message_type {
        MessageType::SuperChat { amount } | MessageType::SuperSticker { amount } => {
            amount_digits(amount).parse().ok()
        }
        _ => None,
    }
}

fn qualifying_amount(message: &GuiChatMessage, min_amount: f64) -> Option<String> {
    match extract_superchat_amount(message) {
        Some(a) if a >= min_amount => Some(format!("{:.0}", a)),
        _ => None,
    }
}

fn with_config(plugin: &mut NotificationPlugin, change: impl FnOnce(&mut NotificationConfig)) {
    let mut config = plugin.current_config().clone();
    change(&mut config);
    plugin.update_config(config);
}

#[test]
fn test_superchat_notification() {
    let mut plugin = NotificationPlugin::new();
    with_config(&mut plugin, |c| c.superchat_notifications = true);
    let min_amount = 500.0;
    let superchat_message = create_test_message(
        "donor",
        "Thank you!",
        MessageType::SuperChat { amount: "¥1000".to_string() },
    );
    let shown = qualifying_amount(&superchat_message, min_amount);
    let notifications = plugin.check_notifications(&superchat_message, shown);
    assert_eq!(notifications.len(), 1);
    if let NotificationKind::SuperChat { amount } = &notifications[0] {
        assert_eq!(amount.parse::<f64>().unwrap(), 1000.0);
    } else {
        panic!("Expected SuperChat notification");
    }
}

#[test]
fn test_keyword_notification() {
    let mut plugin = NotificationPlugin::new();
    with_config(&mut plugin, |c| c.keyword_notifications.push("test".to_string()));
    let keyword_message = create_test_message("user", "This is a test message", MessageType::Text);
    let normal_message = create_test_message("user", "Normal message", MessageType::Text);
    let notifications1 = plugin.check_notifications(&keyword_message, None);
    let notifications2 = plugin.check_notifications(&normal_message, None);
    assert_eq!(notifications1.len(), 1);
    assert_eq!(notifications2.len(), 0);
    if let NotificationKind::KeywordDetected { keyword } = &notifications1[0] {
        assert_eq!(keyword, "test");
    } else {
        panic!("Expected KeywordDetected notification");
    }
}

#[test]
fn test_vip_user_notification() {
    let mut plugin = NotificationPlugin::new();
    with_config(&mut plugin, |c| c.vip_users.push("vipuser".to_string()));
    let vip_message = create_test_message("vipuser", "Hello from VIP", MessageType::Text);
    let normal_message = create_test_message("normaluser", "Hello from normal", MessageType::Text);
    let notifications1 = plugin.check_notifications(&vip_message, None);
    let notifications2 = plugin.check_notifications(&normal_message, None);
    assert_eq!(notifications1.len(), 1);
    assert_eq!(notifications2.len(), 0);
    if let NotificationKind::VipUser { username } = &notifications1[0] {
        assert_eq!(username, "vipuser");
    } else {
        panic!("Expected VipUser notification");
    }
}

#[test]
fn test_cooldown_mechanism() {
    let mut plugin = NotificationPlugin::new();
    with_config(&mut plugin, |c| {
        c.cooldown_seconds = 5;
        c.keyword_notifications.push("test".to_string());
    });
    let message = create_test_message("user", "test message", MessageType::Text);
    let notifications1 = plugin.check_notifications(&message, None);
    assert_eq!(notifications1.len(), 1);
    let notifications2 = plugin.check_notifications(&message, None);
    assert_eq!(notifications2.len(), 0);
}

#[test]
fn test_superchat_amount_extraction() {
    let superchat = create_test_message(
        "user",
        "Thank you!",
        MessageType::SuperChat { amount: "¥1,500".to_string() },
    );
    let normal = create_test_message("user", "Normal message", MessageType::Text);
    assert_eq!(extract_superchat_amount(&superchat), Some(1500.0));
    assert_eq!(extract_superchat_amount(&normal), None);
}

#[test]
fn test_notification_message_formatting() {
    let message = create_test_message("testuser", "Hello world", MessageType::Text);
    let superchat_notification = NotificationKind::SuperChat { amount: format!("{:.0}", 500.0) };
    let keyword_notification = NotificationKind::KeywordDetected { keyword: "test".to_string() };
    let superchat_msg = format_notification_message(&superchat_notification, Some(&message));
    let keyword_msg = format_notification_message(&keyword_notification, Some(&message));
    assert!(superchat_msg.contains("testuser"));
    assert!(superchat_msg.contains("500"));
    assert!(keyword_msg.contains("test"));
    assert!(keyword_msg.contains("Hello world"));
}

#[test]
fn notification_texts_exactly() {
    let m = create_test_message("ann", "hi", MessageType::Text);
    let sc = NotificationKind::SuperChat { amount: "500".to_string() };
    assert_eq!(format_notification_message(&sc, Some(&m)), "💰 annさんから¥500のスーパーチャット: \"hi\"");
    assert_eq!(format_notification_message(&sc, None), "💰 ¥500のスーパーチャットが届きました");
    let nm = NotificationKind::NewMember { username: "bo".to_string() };
    assert_eq!(format_notification_message(&nm, None), "🎉 boさんがメンバーになりました！");
    let vip = NotificationKind::VipUser { username: "ann".to_string() };
    assert_eq!(format_notification_message(&vip, Some(&m)), "⭐ VIPユーザー annさんのメッセージ: \"hi\"");
    let th = NotificationKind::MessageThreshold { count: 1000 };
    assert_eq!(format_notification_message(&th, None), "📊 メッセージ数が1000件に到達しました！");
    let sys = NotificationKind::System { message: "ライブチャット監視を開始しました".to_string() };
    assert_eq!(format_notification_message(&sys, None), "🔔 システム通知: ライブチャット監視を開始しました");
}

#[test]
fn order_members_thresholds_and_cooldowns() {
    let mut plugin = NotificationPlugin::new();
    with_config(&mut plugin, |c| {
        c.message_count_threshold = 2;
        c.keyword_notifications.push("Gift".to_string());
        c.vip_users.push("ann".to_string());
    });
    let member = create_test_message("ann", "a GIFT here", MessageType::Membership { milestone_months: None });
    let n1 = plugin.check_notifications_at(&member, Some("300".to_string()), 0);
    assert_eq!(n1.len(), 4);
    assert!(matches!(&n1[0], NotificationKind::SuperChat { amount } if amount == "300"));
    assert!(matches!(&n1[1], NotificationKind::KeywordDetected { keyword } if keyword == "Gift"));
    assert!(matches!(&n1[2], NotificationKind::VipUser { username } if username == "ann"));
    assert!(matches!(&n1[3], NotificationKind::NewMember { username } if username == "ann"));
    let n2 = plugin.check_notifications_at(&member, None, 9_999_999);
    assert_eq!(n2.len(), 2);
    assert!(matches!(&n2[0], NotificationKind::NewMember { .. }));
    assert!(matches!(&n2[1], NotificationKind::MessageThreshold { count: 2 }));
    let n3 = plugin.check_notifications_at(&member, None, 10_000_000);
    assert_eq!(n3.len(), 3);
    assert_eq!(plugin.get_message_count(), 3);
}

#[test]
fn disabled_plugin_raises_nothing() {
    let mut plugin = NotificationPlugin::new();
    with_config(&mut plugin, |c| c.enabled = false);
    let m = create_test_message("ann", "x", MessageType::Membership { milestone_months: None });
    assert!(plugin.check_notifications(&m, Some("1".to_string())).is_empty());
    assert_eq!(plugin.get_message_count(), 0);
    let c = NotificationConfig::default();
    assert_eq!(c.message_count_threshold, 1000);
    assert_eq!(c.cooldown_seconds, 10);
    assert_eq!(plugin.info().id, "notification");
}

#[test]
fn history_records_text_and_related_message() {
    let mut plugin = NotificationPlugin::new();
    let msg = create_test_message("Alice", "hello", MessageType::Text);
    let text = plugin.send_notification_at(
        NotificationKind::VipUser { username: "Alice".to_string() },
        Some(&msg),
        "id-1".to_string(),
        1_000,
    );
    assert_eq!(text, "⭐ VIPユーザー Aliceさんのメッセージ: \"hello\"");
    let history = plugin.get_notification_history();
    assert_eq!(history.len(), 1);
    assert_eq!(history[0].id, "id-1");
    assert_eq!(history[0].timestamp_micros, 1_000);
    assert_eq!(history[0].message, text);
    assert_eq!(history[0].related_message.as_ref().unwrap().content, "hello");
    assert!(matches!(history[0].notification_type, NotificationKind::VipUser { .. }));
}

#[test]
fn history_keeps_the_newest_hundred() {
    let mut plugin = NotificationPlugin::new();
    for i in 0..105 {
        plugin.send_notification_at(
            NotificationKind::System { message: format!("n{}", i) },
            None,
            format!("id-{}", i),
            i,
        );
    }
    let history = plugin.get_notification_history();
    assert_eq!(history.len(), 100);
    assert_eq!(history[0].id, "id-5");
    assert_eq!(history[99].id, "id-104");
    assert_eq!(history[99].message, "🔔 システム通知: n104");
    assert!(history[0].related_message.is_none());
}

#[test]
fn history_counts_by_kind_and_clears() {
    let mut plugin = NotificationPlugin::new();
    let msg = create_test_message("Bob", "hi", MessageType::Text);
    plugin.send_notification_at(NotificationKind::SuperChat { amount: "500".to_string() }, Some(&msg), "a".to_string(), 1);
    plugin.send_notification_at(NotificationKind::SuperChat { amount: "100".to_string() }, None, "b".to_string(), 2);
    plugin.send_notification_at(NotificationKind::KeywordDetected { keyword: "hi".to_string() }, Some(&msg), "c".to_string(), 3);
    plugin.send_notification_at(NotificationKind::MessageThreshold { count: 10 }, None, "d".to_string(), 4);
    let counts = plugin.notification_type_counts();
    assert_eq!(counts.superchat, 2);
    assert_eq!(counts.keyword, 1);
    assert_eq!(counts.new_member, 0);
    assert_eq!(counts.vip_user, 0);
    assert_eq!(counts.message_threshold, 1);
    assert_eq!(counts.system, 0);
    plugin.clear_notification_history();
    assert!(plugin.get_notification_history().is_empty());
    assert_eq!(plugin.notification_type_counts().superchat, 0);
}
