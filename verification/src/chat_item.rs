//! Chat items as the live chat API delivers them, reduced to the values the
//! conversion reads, and their conversion into display messages.
use vstd::prelude::*;

use crate::clock::{hms_shape, local_hms_at, local_now_hms, utc_now_hms, utc_now_micros};
use crate::models::{
    argb_hex, build_membership_content, extract_badge_info, extract_gift_count,
    extract_milestone_months, extract_superchat_colors, extract_supersticker_colors, gift_count,
    marks_member, marks_moderator, marks_verified, membership_text, milestone_months, AuthorBadge,
    GuiChatMessage, MessageMetadata, MessageRun, MessageType,
};
use crate::text::{parse_i64, push_decimal_i64, push_str, signed_decimal};

verus! {

/// One part of a message text: plain text, an emoji, or something the
/// conversion does not show.
#[derive(Debug, Clone, PartialEq)]
pub enum ChatRun {
    Text { text: String },
    Emoji {
        emoji_id: String,
        /// URL of the first thumbnail of the emoji image.
        thumbnail_url: Option<String>,
        /// Accessibility label of the emoji image.
        accessibility_label: Option<String>,
    },
    Other,
}

/// What every chat item says of itself and its author.
#[derive(Debug, Clone, PartialEq)]
pub struct ItemHeader {
    pub id: String,
    /// Time of the item in microseconds since the Unix epoch, in decimal.
    pub timestamp_usec: String,
    pub author_name: String,
    /// URL of the first thumbnail of the author's photo.
    pub author_photo_url: Option<String>,
    pub author_external_channel_id: String,
    pub author_badges: Vec<AuthorBadge>,
}

/// A chat item.
#[derive(Debug, Clone, PartialEq)]
pub enum ChatItem {
    TextMessage { header: ItemHeader, message: Vec<ChatRun> },
    PaidMessage {
        header: ItemHeader,
        message: Option<Vec<ChatRun>>,
        purchase_amount: String,
        header_background_color: u64,
        header_text_color: u64,
        body_background_color: u64,
        body_text_color: u64,
    },
    PaidSticker {
        header: ItemHeader,
        purchase_amount: String,
        money_chip_background_color: u64,
        money_chip_text_color: u64,
    },
    MembershipItem {
        header: ItemHeader,
        header_primary_text: Option<Vec<ChatRun>>,
        header_subtext: Option<Vec<ChatRun>>,
        message: Option<Vec<ChatRun>>,
    },
    SponsorshipsGiftPurchaseAnnouncement { header: ItemHeader, header_runs: Vec<ChatRun> },
    SponsorshipsGiftRedemptionAnnouncement { header: ItemHeader, message: Vec<ChatRun> },
    /// Any other kind of item.
    Other,
}

/// The text shown for an emoji without an accessibility label: `Emoji: id`,
/// or `:id: ` in a paid message.
pub open spec fn emoji_fallback(emoji_id: Seq<char>, paid: bool) -> Seq<char> {
    if paid {
        ":"@ + emoji_id + ": "@
    } else {
        "Emoji: "@ + emoji_id
    }
}

/// The text an emoji stands for.
pub open spec fn emoji_alt(emoji_id: Seq<char>, label: Option<String>, paid: bool) -> Seq<char> {
    match label {
        Some(l) => l@,
        None => emoji_fallback(emoji_id, paid),
    }
}

/// What a run adds to the message content.
pub open spec fn piece(run: ChatRun, paid: bool) -> Seq<char> {
    match run {
        ChatRun::Text { text } => text@,
        ChatRun::Emoji { emoji_id, accessibility_label, .. } => emoji_alt(
            emoji_id@,
            accessibility_label,
            paid,
        ),
        ChatRun::Other => Seq::empty(),
    }
}

/// The message content made of a run list.
pub open spec fn pieces(runs: Seq<ChatRun>, paid: bool) -> Seq<char>
    decreases runs.len(),
{
    if runs.len() == 0 {
        Seq::empty()
    } else {
        pieces(runs.drop_last(), paid) + piece(runs.last(), paid)
    }
}

/// The plain text of a run list: its text runs, one after the other.
pub open spec fn plain_text(runs: Seq<ChatRun>) -> Seq<char>
    decreases runs.len(),
{
    if runs.len() == 0 {
        Seq::empty()
    } else {
        plain_text(runs.drop_last()) + match runs.last() {
            ChatRun::Text { text } => text@,
            _ => Seq::empty(),
        }
    }
}

/// `m` is the display run of the chat run `c`.
pub open spec fn shows_run(c: ChatRun, m: MessageRun, paid: bool) -> bool {
    match c {
        ChatRun::Text { text } => m matches MessageRun::Text { content } && content@ == text@,
        ChatRun::Emoji { emoji_id, thumbnail_url, accessibility_label } => m matches MessageRun::Emoji {
            emoji_id: e,
            image_url,
            alt_text,
        } && e@ == emoji_id@ && image_url@ == (match thumbnail_url {
            Some(u) => u@,
            None => Seq::empty(),
        }) && alt_text@ == emoji_alt(emoji_id@, accessibility_label, paid),
        ChatRun::Other => false,
    }
}

/// `dst` are the display runs of `src`: one for each text or emoji run, in
/// order; other runs are left out.
pub open spec fn shows_runs(src: Seq<ChatRun>, dst: Seq<MessageRun>, paid: bool) -> bool
    decreases src.len(),
{
    if src.len() == 0 {
        dst.len() == 0
    } else if src.last() is Other {
        shows_runs(src.drop_last(), dst, paid)
    } else {
        dst.len() > 0 && shows_run(src.last(), dst.last(), paid) && shows_runs(
            src.drop_last(),
            dst.drop_last(),
            paid,
        )
    }
}

/// The runs of an optional run list; none when it is absent.
pub open spec fn runs_of(r: Option<Vec<ChatRun>>) -> Seq<ChatRun> {
    match r {
        Some(v) => v@,
        None => Seq::empty(),
    }
}

/// Some badge marks the author as a member.
pub open spec fn badges_mark_member(badges: Seq<AuthorBadge>) -> bool {
    exists|i: int| 0 <= i < badges.len() && marks_member(
        #[trigger] badges[i].tooltip@,
        badges[i].accessibility_label@,
    )
}

/// The metadata `md` describes the author badges `badges`.
pub open spec fn badge_metadata(badges: Seq<AuthorBadge>, md: MessageMetadata) -> bool {
    &&& md.badges@.len() == badges.len()
    &&& md.badge_info@.len() == badges.len()
    &&& forall|i: int| 0 <= i < badges.len() ==> {
        &&& (#[trigger] md.badges@[i]) == badges[i].tooltip
        &&& md.badge_info@[i].tooltip == badges[i].tooltip
        &&& md.badge_info@[i].image_url == badges[i].thumbnail_url
    }
    &&& md.is_moderator == exists|i: int| 0 <= i < badges.len() && marks_moderator(
        #[trigger] badges[i].tooltip@,
        badges[i].accessibility_label@,
    )
    &&& md.is_verified == exists|i: int| 0 <= i < badges.len() && marks_verified(
        #[trigger] badges[i].tooltip@,
        badges[i].accessibility_label@,
    )
    &&& md.color is None
}

/// What `m` takes from the item header `h`, with `display` as its shown time.
pub open spec fn carries_header(h: ItemHeader, display: Seq<char>, m: GuiChatMessage) -> bool {
    &&& m.id == h.id
    &&& m.timestamp@ == display
    &&& m.timestamp_usec == h.timestamp_usec
    &&& m.author == h.author_name
    &&& m.author_icon_url == h.author_photo_url
    &&& m.channel_id == h.author_external_channel_id
    &&& m.comment_count is None
    &&& m.metadata is Some
    &&& badge_metadata(h.author_badges@, m.metadata->0)
}

/// `m` is the display message of the chat item `item`, shown at time
/// `display`. Items of an other kind are not covered here.
pub open spec fn converted(item: ChatItem, display: Seq<char>, m: GuiChatMessage) -> bool {
    match item {
        ChatItem::TextMessage { header, message } => {
            &&& carries_header(header, display, m)
            &&& m.message_type == MessageType::Text
            &&& m.content@ == pieces(message@, false)
            &&& shows_runs(message@, m.runs@, false)
            &&& m.is_member == badges_mark_member(header.author_badges@)
            &&& m.metadata->0.amount is None
            &&& m.metadata->0.superchat_colors is None
        },
        ChatItem::PaidMessage {
            header,
            message,
            purchase_amount,
            header_background_color,
            header_text_color,
            body_background_color,
            body_text_color,
        } => {
            &&& carries_header(header, display, m)
            &&& m.message_type == MessageType::SuperChat { amount: purchase_amount }
            &&& m.content@ == pieces(runs_of(message), true)
            &&& shows_runs(runs_of(message), m.runs@, true)
            &&& m.is_member == badges_mark_member(header.author_badges@)
            &&& m.metadata->0.amount == Some(purchase_amount)
            &&& m.metadata->0.superchat_colors matches Some(c) && c.header_background@ == argb_hex(
                header_background_color,
            ) && c.header_text@ == argb_hex(header_text_color) && c.body_background@ == argb_hex(
                body_background_color,
            ) && c.body_text@ == argb_hex(body_text_color)
        },
        ChatItem::PaidSticker {
            header,
            purchase_amount,
            money_chip_background_color,
            money_chip_text_color,
        } => {
            &&& carries_header(header, display, m)
            &&& m.message_type == MessageType::SuperSticker { amount: purchase_amount }
            &&& m.content@ == "Super Sticker ("@ + purchase_amount@ + ")"@
            &&& m.runs@.len() == 0
            &&& m.is_member == badges_mark_member(header.author_badges@)
            &&& m.metadata->0.amount == Some(purchase_amount)
            &&& m.metadata->0.superchat_colors matches Some(c) && c.header_background@ == argb_hex(
                money_chip_background_color,
            ) && c.header_text@ == argb_hex(money_chip_text_color) && c.body_background@
                == argb_hex(money_chip_background_color) && c.body_text@ == argb_hex(
                money_chip_text_color,
            )
        },
        ChatItem::MembershipItem { header, header_primary_text, header_subtext, message } => {
            let primary = plain_text(runs_of(header_primary_text));
            let sub = plain_text(runs_of(header_subtext));
            let user = plain_text(runs_of(message));
            let months = milestone_months(primary, sub);
            &&& carries_header(header, display, m)
            &&& m.message_type == MessageType::Membership { milestone_months: months }
            &&& m.content@ == membership_text(primary, sub, user, months)
            &&& shows_runs(runs_of(message), m.runs@, false)
            &&& m.is_member
            &&& m.metadata->0.amount is None
            &&& m.metadata->0.superchat_colors is None
        },
        ChatItem::SponsorshipsGiftPurchaseAnnouncement { header, header_runs } => {
            let text = plain_text(header_runs@);
            &&& carries_header(header, display, m)
            &&& m.message_type == MessageType::MembershipGift { gift_count: gift_count(text) }
            &&& m.content@ == text
            &&& m.runs@.len() == 0
            &&& m.is_member == badges_mark_member(header.author_badges@)
            &&& m.metadata->0.amount is None
            &&& m.metadata->0.superchat_colors is None
        },
        ChatItem::SponsorshipsGiftRedemptionAnnouncement { header, message } => {
            &&& carries_header(header, display, m)
            &&& m.message_type == MessageType::Membership { milestone_months: None }
            &&& m.content@ == plain_text(message@)
            &&& m.runs@.len() == 0
            &&& m.is_member
            &&& m.metadata->0.amount is None
            &&& m.metadata->0.superchat_colors is None
        },
        ChatItem::Other => false,
    }
}

/// The display runs and the content of a run list.
fn convert_runs(runs: &Vec<ChatRun>, paid: bool) -> (r: (Vec<MessageRun>, String))
    ensures
        shows_runs(runs@, r.0@, paid),
        r.1@ == pieces(runs@, paid),
{
    let mut out: Vec<MessageRun> = Vec::new();
    let mut content = String::new();
    let mut i: usize = 0;
    while i < runs.len()
        invariant
            i <= runs@.len(),
            shows_runs(runs@.take(i as int), out@, paid),
            content@ == pieces(runs@.take(i as int), paid),
        decreases runs.len() - i,
    {
        let ghost before = out@;
        proof {
            assert(runs@.take(i + 1).drop_last() =~= runs@.take(i as int));
            assert(runs@.take(i + 1).last() == runs@[i as int]);
        }
        match &runs[i] {
            ChatRun::Text { text } => {
                out.push(MessageRun::Text { content: text.clone() });
                push_str(&mut content, text.as_str());
            },
            ChatRun::Emoji { emoji_id, thumbnail_url, accessibility_label } => {
                let image_url = match thumbnail_url {
                    Some(u) => u.clone(),
                    None => String::new(),
                };
                let alt_text = match accessibility_label {
                    Some(l) => l.clone(),
                    None => {
                        if paid {
                            let mut a = String::from_str(":");
                            push_str(&mut a, emoji_id.as_str());
                            push_str(&mut a, ": ");
                            a
                        } else {
                            let mut a = String::from_str("Emoji: ");
                            push_str(&mut a, emoji_id.as_str());
                            a
                        }
                    },
                };
                push_str(&mut content, alt_text.as_str());
                out.push(MessageRun::Emoji { emoji_id: emoji_id.clone(), image_url, alt_text });
            },
            ChatRun::Other => {},
        }
        proof {
            if !(runs@[i as int] is Other) {
                assert(out@.drop_last() =~= before);
            }
        }
        i += 1;
    }
    assert(runs@.take(runs@.len() as int) =~= runs@);
    (out, content)
}

/// The plain text of a run list: its text runs, one after the other.
pub fn extract_message_text(runs: &[ChatRun]) -> (r: String)
    ensures
        r@ == plain_text(runs@),
{
    let mut out = String::new();
    let mut i: usize = 0;
    while i < runs.len()
        invariant
            i <= runs@.len(),
            out@ == plain_text(runs@.take(i as int)),
        decreases runs.len() - i,
    {
        proof {
            assert(runs@.take(i + 1).drop_last() =~= runs@.take(i as int));
            assert(runs@.take(i + 1).last() == runs@[i as int]);
        }
        match &runs[i] {
            ChatRun::Text { text } => push_str(&mut out, text.as_str()),
            _ => {},
        }
        i += 1;
    }
    assert(runs@.take(runs@.len() as int) =~= runs@);
    out
}

/// The plain text of an optional run list; empty when it is absent.
fn optional_text(runs: &Option<Vec<ChatRun>>) -> (r: String)
    ensures
        r@ == plain_text(runs_of(*runs)),
{
    match runs {
        Some(v) => extract_message_text(v.as_slice()),
        None => {
            assert(plain_text(Seq::<ChatRun>::empty()) =~= Seq::<char>::empty());
            String::new()
        },
    }
}

/// The metadata and member flag of an author's badges, with the given
/// amount and colours.
fn badge_parts(badges: &Vec<AuthorBadge>) -> (r: (Vec<String>, Vec<crate::models::BadgeInfo>, bool, bool, bool))
    ensures
        r.2 == badges_mark_member(badges@),
        badge_metadata(
            badges@,
            MessageMetadata {
                amount: None,
                badges: r.0,
                badge_info: r.1,
                color: None,
                is_moderator: r.3,
                is_verified: r.4,
                superchat_colors: None,
            },
        ),
{
    extract_badge_info(badges.as_slice())
}

/// The local `HH:MM:SS` time of the instant `usec` microseconds after the
/// Unix epoch, when chrono accepts it: it does for every instant within
/// 8 * 10^18 microseconds of the epoch, except an instant before the epoch
/// that is not a whole second, whose part of a second turns into a count of
/// nanoseconds chrono refuses.
fn local_time_of_usec(usec: i64) -> (r: Option<String>)
    ensures
        r matches Some(s) ==> hms_shape(s@),
        -8_000_000_000_000_000_000 <= usec <= 8_000_000_000_000_000_000 && (usec >= 0 || usec % 1_000_000 == 0)
            ==> r is Some,
        usec < 0 && usec % 1_000_000 != 0 ==> r is None,
{
    let secs = usec / 1_000_000;
    let rem = usec % 1_000_000;
    let nsecs = (rem * 1000) as u32;
    proof {
        let rm = rem;
        let ns = nsecs;
        assert(-1_000_000 < rm < 1_000_000);
        if rm >= 0 {
            assert(ns == rm * 1000) by (bit_vector)
                requires
                    0 <= rm < 1_000_000,
                    ns == ((rm * 1000) as u32),
            ;
        } else {
            assert(ns >= 2_000_000_000) by (bit_vector)
                requires
                    -1_000_000 < rm < 0,
                    ns == ((rm * 1000) as u32),
            ;
        }
    }
    local_hms_at(secs, nsecs)
}

/// The shown time of an item: the local time of its microsecond timestamp,
/// or the current local time when the timestamp is not a number chrono
/// accepts.
pub fn timestamp_usec_to_display(timestamp_usec: &str) -> (r: String)
    ensures
        hms_shape(r@),
{
    match parse_i64(timestamp_usec) {
        Some(usec) => match local_time_of_usec(usec) {
            Some(s) => s,
            None => local_now_hms(),
        },
        None => local_now_hms(),
    }
}

impl GuiChatMessage {
    /// The display message of a chat item, shown at time `display`. Items
    /// of an other kind are not accepted here.
    pub fn from_chat_item_at(item: ChatItem, display: String) -> (m: GuiChatMessage)
        requires
            !(item is Other),
        ensures
            converted(item, display@, m),
    {
        match item {
            ChatItem::TextMessage { header, message } => {
                let (runs, content) = convert_runs(&message, false);
                let (badges, badge_info, is_member, is_moderator, is_verified) = badge_parts(
                    &header.author_badges,
                );
                GuiChatMessage {
                    id: header.id,
                    timestamp: display,
                    timestamp_usec: header.timestamp_usec,
                    message_type: MessageType::Text,
                    author: header.author_name,
                    author_icon_url: header.author_photo_url,
                    channel_id: header.author_external_channel_id,
                    content,
                    runs,
                    metadata: Some(
                        MessageMetadata {
                            amount: None,
                            badges,
                            badge_info,
                            color: None,
                            is_moderator,
                            is_verified,
                            superchat_colors: None,
                        },
                    ),
                    is_member,
                    comment_count: None,
                }
            },
            ChatItem::PaidMessage {
                header,
                message,
                purchase_amount,
                header_background_color,
                header_text_color,
                body_background_color,
                body_text_color,
            } => {
                let (badges, badge_info, is_member, is_moderator, is_verified) = badge_parts(
                    &header.author_badges,
                );
                let (runs, content) = match &message {
                    Some(rs) => convert_runs(rs, true),
                    None => {
                        assert(pieces(Seq::<ChatRun>::empty(), true) =~= Seq::<char>::empty());
                        (Vec::new(), String::new())
                    },
                };
                let colors = extract_superchat_colors(
                    header_background_color,
                    header_text_color,
                    body_background_color,
                    body_text_color,
                );
                GuiChatMessage {
                    id: header.id,
                    timestamp: display,
                    timestamp_usec: header.timestamp_usec,
                    message_type: MessageType::SuperChat { amount: purchase_amount.clone() },
                    author: header.author_name,
                    author_icon_url: header.author_photo_url,
                    channel_id: header.author_external_channel_id,
                    content,
                    runs,
                    metadata: Some(
                        MessageMetadata {
                            amount: Some(purchase_amount),
                            badges,
                            badge_info,
                            color: None,
                            is_moderator,
                            is_verified,
                            superchat_colors: Some(colors),
                        },
                    ),
                    is_member,
                    comment_count: None,
                }
            },
            ChatItem::PaidSticker {
                header,
                purchase_amount,
                money_chip_background_color,
                money_chip_text_color,
            } => {
                let (badges, badge_info, is_member, is_moderator, is_verified) = badge_parts(
                    &header.author_badges,
                );
                let colors = extract_supersticker_colors(
                    money_chip_background_color,
                    money_chip_text_color,
                );
                let mut content = String::from_str("Super Sticker (");
                push_str(&mut content, purchase_amount.as_str());
                push_str(&mut content, ")");
                GuiChatMessage {
                    id: header.id,
                    timestamp: display,
                    timestamp_usec: header.timestamp_usec,
                    message_type: MessageType::SuperSticker { amount: purchase_amount.clone() },
                    author: header.author_name,
                    author_icon_url: header.author_photo_url,
                    channel_id: header.author_external_channel_id,
                    content,
                    runs: Vec::new(),
                    metadata: Some(
                        MessageMetadata {
                            amount: Some(purchase_amount),
                            badges,
                            badge_info,
                            color: None,
                            is_moderator,
                            is_verified,
                            superchat_colors: Some(colors),
                        },
                    ),
                    is_member,
                    comment_count: None,
                }
            },
            ChatItem::MembershipItem { header, header_primary_text, header_subtext, message } => {
                let (badges, badge_info, _is_member, is_moderator, is_verified) = badge_parts(
                    &header.author_badges,
                );
                let primary = optional_text(&header_primary_text);
                let sub = optional_text(&header_subtext);
                let user = optional_text(&message);
                let months = extract_milestone_months(primary.as_str(), sub.as_str());
                let content = build_membership_content(
                    primary.as_str(),
                    sub.as_str(),
                    user.as_str(),
                    months,
                );
                let runs = match &message {
                    Some(rs) => convert_runs(rs, false).0,
                    None => Vec::new(),
                };
                GuiChatMessage {
                    id: header.id,
                    timestamp: display,
                    timestamp_usec: header.timestamp_usec,
                    message_type: MessageType::Membership { milestone_months: months },
                    author: header.author_name,
                    author_icon_url: header.author_photo_url,
                    channel_id: header.author_external_channel_id,
                    content,
                    runs,
                    metadata: Some(
                        MessageMetadata {
                            amount: None,
                            badges,
                            badge_info,
                            color: None,
                            is_moderator,
                            is_verified,
                            superchat_colors: None,
                        },
                    ),
                    is_member: true,
                    comment_count: None,
                }
            },
            ChatItem::SponsorshipsGiftPurchaseAnnouncement { header, header_runs } => {
                let (badges, badge_info, is_member, is_moderator, is_verified) = badge_parts(
                    &header.author_badges,
                );
                let text = extract_message_text(header_runs.as_slice());
                let count = extract_gift_count(text.as_str());
                GuiChatMessage {
                    id: header.id,
                    timestamp: display,
                    timestamp_usec: header.timestamp_usec,
                    message_type: MessageType::MembershipGift { gift_count: count },
                    author: header.author_name,
                    author_icon_url: header.author_photo_url,
                    channel_id: header.author_external_channel_id,
                    content: text,
                    runs: Vec::new(),
                    metadata: Some(
                        MessageMetadata {
                            amount: None,
                            badges,
                            badge_info,
                            color: None,
                            is_moderator,
                            is_verified,
                            superchat_colors: None,
                        },
                    ),
                    is_member,
                    comment_count: None,
                }
            },
            ChatItem::SponsorshipsGiftRedemptionAnnouncement { header, message } => {
                let (badges, badge_info, _is_member, is_moderator, is_verified) = badge_parts(
                    &header.author_badges,
                );
                let text = extract_message_text(message.as_slice());
                GuiChatMessage {
                    id: header.id,
                    timestamp: display,
                    timestamp_usec: header.timestamp_usec,
                    message_type: MessageType::Membership { milestone_months: None },
                    author: header.author_name,
                    author_icon_url: header.author_photo_url,
                    channel_id: header.author_external_channel_id,
                    content: text,
                    runs: Vec::new(),
                    metadata: Some(
                        MessageMetadata {
                            amount: None,
                            badges,
                            badge_info,
                            color: None,
                            is_moderator,
                            is_verified,
                            superchat_colors: None,
                        },
                    ),
                    is_member: true,
                    comment_count: None,
                }
            },
            ChatItem::Other => {
                proof {
                    assert(false);
                }
                GuiChatMessage::unknown_item_at(0, String::new())
            },
        }
    }

    /// The system message that stands for an item of an unknown kind, made
    /// at `now_usec` microseconds after the Unix epoch and shown at `display`.
    pub fn unknown_item_at(now_usec: i64, display: String) -> (m: GuiChatMessage)
        ensures
            m.id@ == "system_"@ + signed_decimal(now_usec as int),
            m.timestamp@ == display@,
            m.timestamp_usec@ == signed_decimal(now_usec as int),
            m.message_type == MessageType::System,
            m.author@ == "System"@,
            m.author_icon_url is None,
            m.channel_id@ == Seq::<char>::empty(),
            m.content@ == "Unknown message type"@,
            m.runs@.len() == 0,
            m.metadata is None,
            !m.is_member,
            m.comment_count is None,
    {
        let mut usec = String::new();
        push_decimal_i64(&mut usec, now_usec);
        let mut id = String::from_str("system_");
        push_str(&mut id, usec.as_str());
        GuiChatMessage {
            id,
            timestamp: display,
            timestamp_usec: usec,
            message_type: MessageType::System,
            author: String::from_str("System"),
            author_icon_url: None,
            channel_id: String::new(),
            content: String::from_str("Unknown message type"),
            runs: Vec::new(),
            metadata: None,
            is_member: false,
            comment_count: None,
        }
    }

    /// The display message of a chat item. The shown time is the local time
    /// of the item's timestamp (the current local time when that does not
    /// parse); an item of an unknown kind becomes a system message stamped
    /// with the current UTC time.
    pub fn from_chat_item(item: ChatItem) -> (m: GuiChatMessage)
        ensures
            hms_shape(m.timestamp@),
            !(item is Other) ==> converted(item, m.timestamp@, m),
            item is Other ==> m.message_type == MessageType::System && m.content@
                == "Unknown message type"@ && m.author@ == "System"@ && m.id@ == "system_"@
                + m.timestamp_usec@ && m.metadata is None && !m.is_member && m.runs@.len() == 0,
    {
        let stamp = match &item {
            ChatItem::TextMessage { header, .. } => Some(header.timestamp_usec.clone()),
            ChatItem::PaidMessage { header, .. } => Some(header.timestamp_usec.clone()),
            ChatItem::PaidSticker { header, .. } => Some(header.timestamp_usec.clone()),
            ChatItem::MembershipItem { header, .. } => Some(header.timestamp_usec.clone()),
            ChatItem::SponsorshipsGiftPurchaseAnnouncement { header, .. } => Some(
                header.timestamp_usec.clone(),
            ),
            ChatItem::SponsorshipsGiftRedemptionAnnouncement { header, .. } => Some(
                header.timestamp_usec.clone(),
            ),
            ChatItem::Other => None,
        };
        match stamp {
            Some(usec) => {
                let display = timestamp_usec_to_display(usec.as_str());
                GuiChatMessage::from_chat_item_at(item, display)
            },
            None => {
                let now_usec = utc_now_micros();
                let display = utc_now_hms();
                GuiChatMessage::unknown_item_at(now_usec, display)
            },
        }
    }
}

} // verus!
