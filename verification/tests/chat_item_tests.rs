use liscov_core::chat_item::{extract_message_text, timestamp_usec_to_display, ChatItem, ChatRun, ItemHeader};
use liscov_core::models::{AuthorBadge, GuiChatMessage, MessageRun, MessageType};

fn header(id: &str, author: &str) -> ItemHeader {
    ItemHeader {
        id: id.to_string(),
        timestamp_usec: "1700000000000000".to_string(),
        author_name: author.to_string(),
        author_photo_url: Some("https://example.com/photo.png".to_string()),
        author_external_channel_id: "UC_author".to_string(),
        author_badges: vec![AuthorBadge {
            tooltip: "メンバー（1 か月）".to_string(),
            accessibility_label: "メンバー（1 か月）".to_string(),
            thumbnail_url: Some("https://example.com/badge.png".to_string()),
        }],
    }
}

fn text(s: &str) -> ChatRun {
    ChatRun::Text { text: s.to_string() }
}

fn is_hms(s: &str) -> bool {
    let b = s.as_bytes();
    b.len() == 8
        && b[2] == b':'
        && b[5] == b':'
        && b.iter().enumerate().all(|(i, c)| i == 2 || i == 5 || c.is_ascii_digit())
}

#[test]
fn text_message_runs_and_content() {
    let item = ChatItem::TextMessage {
        header: header("m1", "Alice"),
        message: vec![
            text("Hello "),
            ChatRun::Emoji {
                emoji_id: "smile".to_string(),
                thumbnail_url: Some("https://example.com/smile.png".to_string()),
                accessibility_label: None,
            },
            ChatRun::Other,
            text("!"),
        ],
    };
    let m = GuiChatMessage::from_chat_item_at(item, "12:34:56".to_string());
    assert_eq!(m.id, "m1");
    assert_eq!(m.timestamp, "12:34:56");
    assert_eq!(m.timestamp_usec, "1700000000000000");
    assert_eq!(m.author, "Alice");
    assert_eq!(m.channel_id, "UC_author");
    assert_eq!(m.author_icon_url.as_deref(), Some("https://example.com/photo.png"));
    assert_eq!(m.message_type, MessageType::Text);
    assert_eq!(m.content, "Hello Emoji: smile!");
    assert_eq!(m.runs.len(), 3);
    assert_eq!(
        m.runs[1],
        MessageRun::Emoji {
            emoji_id: "smile".to_string(),
            image_url: "https://example.com/smile.png".to_string(),
            alt_text: "Emoji: smile".to_string(),
        }
    );
    assert!(m.is_member);
    let md = m.metadata.unwrap();
    assert_eq!(md.badges, vec!["メンバー（1 か月）".to_string()]);
    assert!(md.amount.is_none());
    assert!(md.superchat_colors.is_none());
    assert!(m.comment_count.is_none());
}

#[test]
fn paid_message_uses_colon_fallback_and_colors() {
    let item = ChatItem::PaidMessage {
        header: header("p1", "Bob"),
        message: Some(vec![
            text("Thanks "),
            ChatRun::Emoji { emoji_id: "heart".to_string(), thumbnail_url: None, accessibility_label: None },
        ]),
        purchase_amount: "¥500".to_string(),
        header_background_color: 0xFF1565C0,
        header_text_color: 0xFFFFFFFF,
        body_background_color: 0xFF1E88E5,
        body_text_color: 0xFF000000,
    };
    let m = GuiChatMessage::from_chat_item_at(item, "00:00:01".to_string());
    assert_eq!(m.message_type, MessageType::SuperChat { amount: "¥500".to_string() });
    assert_eq!(m.content, "Thanks :heart: ");
    assert_eq!(
        m.runs[1],
        MessageRun::Emoji {
            emoji_id: "heart".to_string(),
            image_url: String::new(),
            alt_text: ":heart: ".to_string(),
        }
    );
    let md = m.metadata.unwrap();
    assert_eq!(md.amount.as_deref(), Some("¥500"));
    let c = md.superchat_colors.unwrap();
    assert_eq!(c.header_background, "#1565c0");
    assert_eq!(c.header_text, "#ffffff");
    assert_eq!(c.body_background, "#1e88e5");
    assert_eq!(c.body_text, "#000000");
}

#[test]
fn paid_sticker_content_is_fixed() {
    let item = ChatItem::PaidSticker {
        header: header("s1", "Carol"),
        purchase_amount: "¥140".to_string(),
        money_chip_background_color: 0xFF00E5FF,
        money_chip_text_color: 0xDD000000,
    };
    let m = GuiChatMessage::from_chat_item_at(item, "00:00:02".to_string());
    assert_eq!(m.message_type, MessageType::SuperSticker { amount: "¥140".to_string() });
    assert_eq!(m.content, "Super Sticker (¥140)");
    assert!(m.runs.is_empty());
    let c = m.metadata.unwrap().superchat_colors.unwrap();
    assert_eq!(c.header_background, "#00e5ff");
    assert_eq!(c.body_background, "#00e5ff");
    assert_eq!(c.header_text, "#000000");
}

#[test]
fn membership_milestone_item() {
    let item = ChatItem::MembershipItem {
        header: header("ms1", "Dave"),
        header_primary_text: Some(vec![text("メンバー歴 12 か月")]),
        header_subtext: None,
        message: Some(vec![text("おめでとうございます")]),
    };
    let m = GuiChatMessage::from_chat_item_at(item, "00:00:03".to_string());
    assert_eq!(m.message_type, MessageType::Membership { milestone_months: Some(12) });
    assert_eq!(m.content, "メンバー歴 12 か月 : おめでとうございます");
    assert_eq!(m.runs, vec![MessageRun::Text { content: "おめでとうございます".to_string() }]);
    assert!(m.is_member);
}

#[test]
fn gift_purchase_and_redemption_items() {
    let item = ChatItem::SponsorshipsGiftPurchaseAnnouncement {
        header: header("g1", "Erin"),
        header_runs: vec![text("5 人に"), ChatRun::Other, text("メンバーシップをギフトしました")],
    };
    let m = GuiChatMessage::from_chat_item_at(item, "00:00:04".to_string());
    assert_eq!(m.message_type, MessageType::MembershipGift { gift_count: 5 });
    assert_eq!(m.content, "5 人にメンバーシップをギフトしました");

    let item = ChatItem::SponsorshipsGiftRedemptionAnnouncement {
        header: header("g2", "Frank"),
        message: vec![text("was gifted a membership")],
    };
    let m = GuiChatMessage::from_chat_item_at(item, "00:00:05".to_string());
    assert_eq!(m.message_type, MessageType::Membership { milestone_months: None });
    assert_eq!(m.content, "was gifted a membership");
    assert!(m.is_member);
}

#[test]
fn unknown_item_becomes_system_message() {
    let m = GuiChatMessage::unknown_item_at(1234, "01:02:03".to_string());
    assert_eq!(m.id, "system_1234");
    assert_eq!(m.timestamp_usec, "1234");
    assert_eq!(m.author, "System");
    assert_eq!(m.content, "Unknown message type");
    assert_eq!(m.message_type, MessageType::System);
    let m = GuiChatMessage::from_chat_item(ChatItem::Other);
    assert!(m.id.starts_with("system_"));
    assert!(is_hms(&m.timestamp));
}

#[test]
fn shown_time_has_clock_shape() {
    assert!(is_hms(&timestamp_usec_to_display("1700000000000000")));
    assert!(is_hms(&timestamp_usec_to_display("not a number")));
    assert!(is_hms(&timestamp_usec_to_display("-1500000")));
    let m = GuiChatMessage::from_chat_item(ChatItem::TextMessage { header: header("t", "A"), message: vec![] });
    assert!(is_hms(&m.timestamp));
}

#[test]
fn plain_text_skips_emoji() {
    let runs = vec![text("a"), ChatRun::Emoji { emoji_id: "x".to_string(), thumbnail_url: None, accessibility_label: Some("X".to_string()) }, text("b")];
    assert_eq!(extract_message_text(&runs), "ab");
}

#[test]
fn test_messages_are_numbered() {
    let m = GuiChatMessage::new_for_test("User", "Hello", MessageType::Text, 7);
    assert_eq!(m.id, "test_7");
    assert_eq!(m.timestamp, "00:00:00");
    assert_eq!(m.timestamp_usec, "7");
    let blank = GuiChatMessage { content: "x".to_string(), ..Default::default() };
    let filled = blank.with_test_id(9);
    assert_eq!(filled.id, "test_9");
    assert_eq!(filled.timestamp_usec, "9");
    assert_eq!(filled.content, "x");
    let kept = GuiChatMessage { id: "keep".to_string(), ..Default::default() }.with_test_id(3);
    assert_eq!(kept.id, "keep");
}
