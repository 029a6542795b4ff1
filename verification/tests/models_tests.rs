use liscov_core::models::{
    argb_to_hex, build_membership_content, extract_badge_info, extract_gift_count,
    extract_milestone_months, extract_superchat_colors, extract_supersticker_colors,
    get_currency_name_ja, messages_since, ActiveTab, AuthorBadge, GuiChatMessage, MessageType,
};

#[test]
fn test_extract_milestone_months_japanese_patterns() {
    assert_eq!(extract_milestone_months("メンバー歴 12 か月", ""), Some(12));
    assert_eq!(extract_milestone_months("メンバー歴 1 か月", ""), Some(1));
    assert_eq!(extract_milestone_months("6か月", ""), Some(6));
    assert_eq!(extract_milestone_months("メンバー歴 24 ヶ月", ""), Some(24));
    assert_eq!(extract_milestone_months("12ヶ月のメンバー", ""), Some(12));
    assert_eq!(extract_milestone_months("メンバー歴 3 カ月", ""), Some(3));
    assert_eq!(extract_milestone_months("", "メンバー歴 6 か月"), Some(6));
    assert_eq!(extract_milestone_months("メンバー歴 12 か月", "メンバー歴 6 か月"), Some(12));
}

#[test]
fn test_extract_milestone_months_english_patterns() {
    assert_eq!(extract_milestone_months("Member for 12 months", ""), Some(12));
    assert_eq!(extract_milestone_months("6 month milestone", ""), Some(6));
    assert_eq!(extract_milestone_months("1 month", ""), Some(1));
    assert_eq!(extract_milestone_months("Member for 1 year", ""), Some(12));
    assert_eq!(extract_milestone_months("2 year membership milestone", ""), Some(24));
    assert_eq!(extract_milestone_months("MEMBER FOR 3 MONTHS", ""), Some(3));
}

#[test]
fn test_extract_milestone_months_no_match() {
    assert_eq!(extract_milestone_months("", "Welcome to the channel!"), None);
    assert_eq!(extract_milestone_months("新規メンバー", "チャンネルへようこそ"), None);
    assert_eq!(extract_milestone_months("", ""), None);
}

#[test]
fn test_build_membership_content_new_member() {
    let content = build_membership_content("", "", "", None);
    assert_eq!(content, "New member!");
    let content = build_membership_content("", "Welcome to the channel!", "", None);
    assert_eq!(content, "Welcome to the channel!");
}

#[test]
fn test_build_membership_content_milestone() {
    let content = build_membership_content("メンバー歴 12 か月", "おめでとうございます", "", Some(12));
    assert_eq!(content, "メンバー歴 12 か月 おめでとうございます");
    let content = build_membership_content("メンバー歴 6 か月", "", "いつもありがとう！", Some(6));
    assert_eq!(content, "メンバー歴 6 か月 : いつもありがとう！");
    let content = build_membership_content("", "", "", Some(12));
    assert_eq!(content, "Membership milestone!");
}

#[test]
fn test_message_type_as_string() {
    let msg_type = MessageType::Membership { milestone_months: None };
    assert_eq!(msg_type.as_string(), "membership");
    let msg_type = MessageType::Membership { milestone_months: Some(12) };
    assert_eq!(msg_type.as_string(), "membership-milestone");
    assert_eq!(MessageType::Text.as_string(), "text");
    assert_eq!(MessageType::SuperChat { amount: "¥500".to_string() }.as_string(), "super-chat");
}

#[test]
fn currency_names() {
    assert_eq!(get_currency_name_ja("¥500"), None);
    assert_eq!(get_currency_name_ja("  ￥1,000 "), None);
    assert_eq!(get_currency_name_ja("500 JPY"), None);
    assert_eq!(get_currency_name_ja("CA$5.00"), Some("カナダドル"));
    assert_eq!(get_currency_name_ja("$5.00"), Some("米ドル"));
    assert_eq!(get_currency_name_ja("A$2.00"), Some("豪ドル"));
    assert_eq!(get_currency_name_ja("€3.00"), Some("ユーロ"));
    assert_eq!(get_currency_name_ja("₪10"), Some("イスラエルシェケル"));
    assert_eq!(get_currency_name_ja("XYZ 1"), Some("不明な外貨"));
}

#[test]
fn gift_counts() {
    assert_eq!(extract_gift_count("5 人にメンバーシップをギフト購入しました"), 5);
    assert_eq!(extract_gift_count("Gifted 10 memberships"), 10);
    assert_eq!(extract_gift_count("sent 3 memberships"), 3);
    assert_eq!(extract_gift_count("thanks"), 1);
}

#[test]
fn colours_and_badges() {
    assert_eq!(argb_to_hex(4278237396), "#00b8d4");
    let c = extract_superchat_colors(4278237396, 4278190080, 4278248959, 4278190080);
    assert_eq!(c.header_background, "#00b8d4");
    assert_eq!(c.body_background, "#00e5ff");
    assert_eq!(c.body_text, "#000000");
    let s = extract_supersticker_colors(4280191205, 4294967295);
    assert_eq!(s.header_background, "#1e88e5");
    assert_eq!(s.body_text, "#ffffff");
    let badges = vec![
        AuthorBadge {
            tooltip: "Member (1 year)".to_string(),
            accessibility_label: "Member (1 year)".to_string(),
            thumbnail_url: Some("https://example.com/badge.png".to_string()),
        },
        AuthorBadge { tooltip: "Moderator".to_string(), accessibility_label: "Moderator".to_string(), thumbnail_url: None },
    ];
    let (names, info, member, moderator, verified) = extract_badge_info(&badges);
    assert_eq!(names, vec!["Member (1 year)".to_string(), "Moderator".to_string()]);
    assert_eq!(info[0].image_url.as_deref(), Some("https://example.com/badge.png"));
    assert!(member && moderator && !verified);
}

#[test]
fn active_tab_texts_and_duplicate() {
    assert_eq!(ActiveTab::default(), ActiveTab::Chat);
    assert_eq!(ActiveTab::SignalAnalysis.to_string(), "Signal Analysis");
    assert_eq!(ActiveTab::DataExport.to_string(), "Export");
    assert_eq!(ActiveTab::Settings.icon(), "⚙️");
    assert_eq!(ActiveTab::Raw.description(), "Save raw responses from YouTube");
    let m = GuiChatMessage { author: "x".to_string(), content: "y".to_string(), ..Default::default() };
    assert_eq!(m.duplicate(), m);
}

#[test]
fn messages_after_those_already_seen() {
    let all: Vec<GuiChatMessage> = ["a", "b", "c", "d"]
        .iter()
        .map(|c| GuiChatMessage { content: c.to_string(), ..Default::default() })
        .collect();
    let since = messages_since(&all, 2);
    let contents: Vec<&str> = since.iter().map(|m| m.content.as_str()).collect();
    assert_eq!(contents, vec!["c", "d"]);
    assert_eq!(messages_since(&all, 0).len(), 4);
    assert!(messages_since(&all, 4).is_empty());
    assert!(messages_since(&all, 9).is_empty());
}

#[test]
fn realtime_updates_hand_over_new_or_all_messages() {
    let all: Vec<GuiChatMessage> = ["a", "b", "c"]
        .iter()
        .map(|c| GuiChatMessage { content: c.to_string(), ..Default::default() })
        .collect();
    assert!(liscov_core::models::realtime_update(&all, 3).is_none());
    let newer = liscov_core::models::realtime_update(&all, 1).unwrap();
    assert_eq!(newer.iter().map(|m| m.content.as_str()).collect::<Vec<_>>(), vec!["b", "c"]);
    let again = liscov_core::models::realtime_update(&all, 7).unwrap();
    assert_eq!(again.len(), 3);
}
