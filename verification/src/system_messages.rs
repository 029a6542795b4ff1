//! System messages: stream end, error warnings, connection changes, notices.
use vstd::prelude::*;

use crate::clock::{hms_shape, local_now_hms, utc_now_micros};
use crate::models::{GuiChatMessage, MessageMetadata, MessageType};
use crate::text::{str_eq, decimal, push_decimal, push_decimal_i64, push_str, signed_decimal};

verus! {

/// Kind of a system message.
#[derive(Debug, Clone, PartialEq, Eq, Structural)]
pub enum SystemMessageType {
    StreamEnded,
    ErrorWarning,
    ConnectionChanged,
    General,
}

/// Statistics of a stream, shown when it ends.
#[derive(Debug, Clone, PartialEq, Eq, Structural)]
pub struct StreamStats {
    pub total_messages: usize,
    pub stream_duration_minutes: u64,
    pub consecutive_errors: u32,
    pub unique_authors: usize,
    pub superchat_count: usize,
    pub membership_count: usize,
}

impl Default for StreamStats {
    fn default() -> (r: Self)
        ensures
            r.total_messages == 0,
            r.stream_duration_minutes == 0,
            r.consecutive_errors == 0,
            r.unique_authors == 0,
            r.superchat_count == 0,
            r.membership_count == 0,
    {
        StreamStats {
            total_messages: 0,
            stream_duration_minutes: 0,
            consecutive_errors: 0,
            unique_authors: 0,
            superchat_count: 0,
            membership_count: 0,
        }
    }
}

/// Builder of system messages.
pub struct SystemMessageGenerator;

/// Identifier, display time and microsecond timestamp for a new system
/// message: the timestamp is the decimal text of the current time in
/// microseconds after the Unix epoch, the identifier is `system_` followed
/// by it, and the display time is the local time as `HH:MM:SS`.
pub fn generate_system_id_and_timestamps() -> (r: (String, String, String))
    ensures
        exists|usec: i64| r.2@ == #[trigger] signed_decimal(usec as int),
        r.0@ == "system_"@ + r.2@,
        hms_shape(r.1@),
{
    let usec = utc_now_micros();
    let mut usec_text = String::new();
    push_decimal_i64(&mut usec_text, usec);
    let display = local_now_hms();
    let mut id = String::from_str("system_");
    push_str(&mut id, usec_text.as_str());
    (id, display, usec_text)
}

/// A system message without icon, runs or comment count, in the `system`
/// channel, whose identifier is `system_` followed by its timestamp.
pub open spec fn plain_system(m: GuiChatMessage) -> bool {
    &&& m.message_type == MessageType::System
    &&& m.author_icon_url is None
    &&& m.runs@.len() == 0
    &&& !m.is_member
    &&& m.comment_count is None
    &&& m.channel_id@ == "system"@
    &&& m.id@ == "system_"@ + m.timestamp_usec@
}

/// The message's metadata holds exactly the badge `badge` and the colour
/// `color`, and nothing else.
pub open spec fn tagged(m: GuiChatMessage, badge: Seq<char>, color: Seq<char>) -> bool {
    match m.metadata {
        Some(md) => {
            &&& md.amount is None
            &&& md.badges@.len() == 1
            &&& md.badges@[0]@ == badge
            &&& md.badge_info@.len() == 0
            &&& md.color matches Some(c) && c@ == color
            &&& !md.is_moderator
            &&& !md.is_verified
            &&& md.superchat_colors is None
        },
        None => false,
    }
}

/// A system message with the given author, content, badge and colour.
fn system_message(author: String, content: String, badge: &str, color: &str) -> (m: GuiChatMessage)
    ensures
        m.message_type == MessageType::System,
        m.author == author,
        m.content == content,
        m.channel_id@ == "system"@,
        m.author_icon_url is None,
        m.runs@.len() == 0,
        m.is_member == false,
        m.comment_count is None,
        m.id@ == "system_"@ + m.timestamp_usec@,
        tagged(m, badge@, color@),
{
    let (id, timestamp, timestamp_usec) = generate_system_id_and_timestamps();
    let mut badges: Vec<String> = Vec::new();
    badges.push(String::from_str(badge));
    GuiChatMessage {
        id,
        timestamp,
        timestamp_usec,
        message_type: MessageType::System,
        author,
        author_icon_url: None,
        channel_id: String::from_str("system"),
        content,
        runs: Vec::new(),
        metadata: Some(
            MessageMetadata {
                amount: None,
                badges,
                badge_info: Vec::new(),
                color: Some(String::from_str(color)),
                is_moderator: false,
                is_verified: false,
                superchat_colors: None,
            },
        ),
        is_member: false,
        comment_count: None,
    }
}

/// The text announcing the end of a stream.
pub open spec fn stream_ended_text(stats: StreamStats) -> Seq<char> {
    if stats.stream_duration_minutes > 0 {
        "🔴 配信が終了しました\n\n📊 配信統計:\n• 総メッセージ数: "@ + decimal(stats.total_messages as nat)
            + "件\n• 配信時間: "@ + decimal(stats.stream_duration_minutes as nat) + "分\n• ユニーク投稿者: "@
            + decimal(stats.unique_authors as nat) + "人\n• スーパーチャット: "@ + decimal(
            stats.superchat_count as nat,
        ) + "件\n• 新規メンバー: "@ + decimal(stats.membership_count as nat)
            + "件\n\n✨ 視聴ありがとうございました！"@
    } else {
        "🔴 配信が終了しました\n\n📊 総メッセージ数: "@ + decimal(stats.total_messages as nat)
            + "件\n\n✨ 視聴ありがとうございました！"@
    }
}

/// The level emoji and sentence of an error warning.
pub open spec fn warning_level(consecutive_errors: u32) -> (Seq<char>, Seq<char>) {
    if 1 <= consecutive_errors <= 2 {
        ("⚠️"@, "接続に軽微な問題が発生しています"@)
    } else if 3 <= consecutive_errors <= 4 {
        ("🟡"@, "接続に問題が発生しています（再試行中）"@)
    } else if 5 <= consecutive_errors <= 7 {
        ("🟠"@, "接続問題が継続しています（配信終了の可能性）"@)
    } else {
        ("🔴"@, "重大な接続問題が発生しています"@)
    }
}

/// The text of an error warning.
pub open spec fn warning_text(consecutive_errors: u32, error_type: Seq<char>) -> Seq<char> {
    let (emoji, message) = warning_level(consecutive_errors);
    emoji + " "@ + message + "\n\n🔍 詳細:\n• 連続エラー回数: "@ + decimal(consecutive_errors as nat)
        + "回\n• エラータイプ: "@ + error_type + "\n• 自動復旧を試行中..."@
}

/// The text of a connection change.
pub open spec fn connection_text(is_connected: bool, url: Option<Seq<char>>) -> Seq<char> {
    if is_connected {
        let base = "✅ 配信に接続しました\n\n🔄 ライブチャットの監視を開始します"@;
        match url {
            Some(u) => base + "\n📡 配信URL: "@ + u,
            None => base,
        }
    } else {
        "❌ 配信から切断されました\n\n🔄 必要に応じて再接続してください"@
    }
}

impl SystemMessageGenerator {
    /// The text announcing the end of a stream with the given statistics.
    pub fn stream_ended_content(stats: &StreamStats) -> (s: String)
        ensures
            s@ == stream_ended_text(*stats),
    {
        if stats.stream_duration_minutes > 0 {
            let mut s = String::from_str("🔴 配信が終了しました\n\n📊 配信統計:\n• 総メッセージ数: ");
            push_decimal(&mut s, stats.total_messages as u64);
            push_str(&mut s, "件\n• 配信時間: ");
            push_decimal(&mut s, stats.stream_duration_minutes);
            push_str(&mut s, "分\n• ユニーク投稿者: ");
            push_decimal(&mut s, stats.unique_authors as u64);
            push_str(&mut s, "人\n• スーパーチャット: ");
            push_decimal(&mut s, stats.superchat_count as u64);
            push_str(&mut s, "件\n• 新規メンバー: ");
            push_decimal(&mut s, stats.membership_count as u64);
            push_str(&mut s, "件\n\n✨ 視聴ありがとうございました！");
            s
        } else {
            let mut s = String::from_str("🔴 配信が終了しました\n\n📊 総メッセージ数: ");
            push_decimal(&mut s, stats.total_messages as u64);
            push_str(&mut s, "件\n\n✨ 視聴ありがとうございました！");
            s
        }
    }

    /// A system message announcing the end of the stream.
    pub fn create_stream_ended_message(stats: StreamStats) -> (m: GuiChatMessage)
        ensures
            plain_system(m),
            m.author@ == "📡 System"@,
            m.content@ == stream_ended_text(stats),
            tagged(m, "stream-ended"@, "#ed8936"@),
    {
        let content = Self::stream_ended_content(&stats);
        system_message(String::from_str("📡 System"), content, "stream-ended", "#ed8936")
    }

    /// The text of an error warning after `consecutive_errors` errors.
    pub fn error_warning_content(consecutive_errors: u32, error_type: &str) -> (s: String)
        ensures
            s@ == warning_text(consecutive_errors, error_type@),
    {
        let (emoji, message) = if 1 <= consecutive_errors && consecutive_errors <= 2 {
            ("⚠️", "接続に軽微な問題が発生しています")
        } else if 3 <= consecutive_errors && consecutive_errors <= 4 {
            ("🟡", "接続に問題が発生しています（再試行中）")
        } else if 5 <= consecutive_errors && consecutive_errors <= 7 {
            ("🟠", "接続問題が継続しています（配信終了の可能性）")
        } else {
            ("🔴", "重大な接続問題が発生しています")
        };
        let mut s = String::from_str(emoji);
        push_str(&mut s, " ");
        push_str(&mut s, message);
        push_str(&mut s, "\n\n🔍 詳細:\n• 連続エラー回数: ");
        push_decimal(&mut s, consecutive_errors as u64);
        push_str(&mut s, "回\n• エラータイプ: ");
        push_str(&mut s, error_type);
        push_str(&mut s, "\n• 自動復旧を試行中...");
        s
    }

    /// A system message warning about consecutive errors.
    pub fn create_error_warning_message(consecutive_errors: u32, error_type: &str) -> (m: GuiChatMessage)
        ensures
            plain_system(m),
            m.author@ == "⚠️ System Alert"@,
            m.content@ == warning_text(consecutive_errors, error_type@),
            tagged(m, "error-warning"@, "#ffc107"@),
    {
        let content = Self::error_warning_content(consecutive_errors, error_type);
        system_message(String::from_str("⚠️ System Alert"), content, "error-warning", "#ffc107")
    }

    /// A system message about a connection change.
    pub fn create_connection_message(is_connected: bool, url: Option<&str>) -> (m: GuiChatMessage)
        ensures
            plain_system(m),
            m.author@ == (if is_connected { "✅ System"@ } else { "❌ System"@ }),
            m.content@ == connection_text(
                is_connected,
                match url {
                    Some(u) => Some(u@),
                    None => None,
                },
            ),
            tagged(m, "connection"@, if is_connected { "#22c55e"@ } else { "#ef4444"@ }),
    {
        if is_connected {
            let mut content = String::from_str("✅ 配信に接続しました\n\n🔄 ライブチャットの監視を開始します");
            match url {
                Some(u) => {
                    push_str(&mut content, "\n📡 配信URL: ");
                    push_str(&mut content, u);
                },
                None => {},
            }
            system_message(String::from_str("✅ System"), content, "connection", "#22c55e")
        } else {
            let content = String::from_str("❌ 配信から切断されました\n\n🔄 必要に応じて再接続してください");
            system_message(String::from_str("❌ System"), content, "connection", "#ef4444")
        }
    }

    /// A general system notice titled `title`.
    pub fn create_general_message(title: &str, content: &str) -> (m: GuiChatMessage)
        ensures
            plain_system(m),
            m.author@ == "ℹ️ "@ + title@,
            m.content@ == content@,
            tagged(m, "general"@, "#3b82f6"@),
    {
        let mut author = String::from_str("ℹ️ ");
        push_str(&mut author, title);
        system_message(author, String::from_str(content), "general", "#3b82f6")
    }
}


/// Minutes elapsed from `start` (UTC microseconds) to `now`, rounded down,
/// and 0 when there is no start or it is not in the past.
pub open spec fn duration_minutes(start: Option<i64>, now: i64) -> u64 {
    match start {
        Some(st) => if now - st > 0 {
            ((now - st) / 1000000 / 60) as u64
        } else {
            0
        },
        None => 0,
    }
}

/// Distinct authors of the non-system messages, in order of first appearance.
pub open spec fn distinct_authors(s: Seq<GuiChatMessage>) -> Seq<Seq<char>>
    decreases s.len(),
{
    if s.len() == 0 {
        Seq::empty()
    } else {
        let d = distinct_authors(s.drop_last());
        if s.last().message_type == MessageType::System || d.contains(s.last().author@) {
            d
        } else {
            d.push(s.last().author@)
        }
    }
}

/// Number of Super Chats and Super Stickers in `s`.
pub open spec fn paid_count(s: Seq<GuiChatMessage>) -> nat
    decreases s.len(),
{
    if s.len() == 0 {
        0
    } else {
        paid_count(s.drop_last()) + match s.last().message_type {
            MessageType::SuperChat { .. } => 1nat,
            MessageType::SuperSticker { .. } => 1nat,
            _ => 0nat,
        }
    }
}

/// Number of membership messages in `s`.
pub open spec fn membership_count(s: Seq<GuiChatMessage>) -> nat
    decreases s.len(),
{
    if s.len() == 0 {
        0
    } else {
        membership_count(s.drop_last()) + match s.last().message_type {
            MessageType::Membership { .. } => 1nat,
            _ => 0nat,
        }
    }
}

proof fn lemma_counts_bounded(s: Seq<GuiChatMessage>)
    ensures
        paid_count(s) <= s.len(),
        membership_count(s) <= s.len(),
        distinct_authors(s).len() <= s.len(),
    decreases s.len(),
{
    if s.len() > 0 {
        lemma_counts_bounded(s.drop_last());
    }
}

/// The CSS classes of a system message: `chat-message system`, then
/// `stream-ended` or `error-warning` for each such badge.
pub open spec fn badge_classes(badges: Seq<String>) -> Seq<char>
    decreases badges.len(),
{
    if badges.len() == 0 {
        "chat-message system"@
    } else {
        let b = badges.last()@;
        let prefix = badge_classes(badges.drop_last());
        if b == "stream-ended"@ {
            prefix + " stream-ended"@
        } else if b == "error-warning"@ {
            prefix + " error-warning"@
        } else {
            prefix
        }
    }
}

/// The CSS classes of a system message.
pub open spec fn system_css_class(m: GuiChatMessage) -> Seq<char> {
    match m.metadata {
        Some(md) => badge_classes(md.badges@),
        None => "chat-message system"@,
    }
}

impl SystemMessageGenerator {
    /// Statistics of `messages` at time `now` for a stream that started at
    /// `start_time` (both UTC microseconds).
    pub fn collect_stream_stats_at(
        messages: &[GuiChatMessage],
        start_time: Option<i64>,
        now: i64,
        consecutive_errors: u32,
    ) -> (st: StreamStats)
        ensures
            st.total_messages == messages@.len(),
            st.stream_duration_minutes == duration_minutes(start_time, now),
            st.consecutive_errors == consecutive_errors,
            st.unique_authors == distinct_authors(messages@).len(),
            st.superchat_count == paid_count(messages@),
            st.membership_count == membership_count(messages@),
    {
        let duration: u64 = match start_time {
            Some(st) => {
                let diff: i128 = now as i128 - st as i128;
                if diff > 0 {
                    (diff / 1000000 / 60) as u64
                } else {
                    0
                }
            },
            None => 0,
        };
        let mut authors: Vec<String> = Vec::new();
        let mut paid: usize = 0;
        let mut members: usize = 0;
        let mut i: usize = 0;
        while i < messages.len()
            invariant
                i <= messages@.len(),
                authors@.len() == distinct_authors(messages@.take(i as int)).len(),
                forall|j: int| 0 <= j < authors@.len() ==> (#[trigger] authors@[j])@
                    == distinct_authors(messages@.take(i as int))[j],
                paid == paid_count(messages@.take(i as int)),
                members == membership_count(messages@.take(i as int)),
            decreases messages.len() - i,
        {
            proof {
                assert(messages@.take(i + 1).drop_last() =~= messages@.take(i as int));
                lemma_counts_bounded(messages@.take(i as int));
            }
            let m = &messages[i];
            let is_system = match m.message_type {
                MessageType::System => true,
                _ => false,
            };
            if !is_system {
                let mut found = false;
                let mut k: usize = 0;
                while k < authors.len()
                    invariant
                        k <= authors@.len(),
                        found == exists|j: int| 0 <= j < k && (#[trigger] authors@[j])@ == m.author@,
                    decreases authors.len() - k,
                {
                    if authors[k] == m.author {
                        found = true;
                    }
                    k += 1;
                }
                let ghost d = distinct_authors(messages@.take(i as int));
                assert(found == d.contains(m.author@)) by {
                    if found {
                        let j = choose|j: int| 0 <= j < authors@.len() && (#[trigger] authors@[j])@ == m.author@;
                        assert(d[j] == m.author@);
                    }
                    if d.contains(m.author@) {
                        let j = choose|j: int| 0 <= j < d.len() && d[j] == m.author@;
                        assert(authors@[j]@ == m.author@);
                    }
                }
                if !found {
                    authors.push(m.author.clone());
                }
                match m.message_type {
                    MessageType::SuperChat { .. } => {
                        paid += 1;
                    },
                    MessageType::SuperSticker { .. } => {
                        paid += 1;
                    },
                    MessageType::Membership { .. } => {
                        members += 1;
                    },
                    _ => {},
                }
            }
            i += 1;
        }
        assert(messages@.take(messages@.len() as int) =~= messages@);
        StreamStats {
            total_messages: messages.len(),
            stream_duration_minutes: duration,
            consecutive_errors,
            unique_authors: authors.len(),
            superchat_count: paid,
            membership_count: members,
        }
    }

    /// Statistics of `messages` for a stream that started at `start_time`
    /// (UTC microseconds), measured against the current time.
    pub fn collect_stream_stats(messages: &[GuiChatMessage], start_time: Option<i64>, consecutive_errors: u32) -> (st: StreamStats)
        ensures
            st.total_messages == messages@.len(),
            st.consecutive_errors == consecutive_errors,
            st.unique_authors == distinct_authors(messages@).len(),
            st.superchat_count == paid_count(messages@),
            st.membership_count == membership_count(messages@),
            start_time is None ==> st.stream_duration_minutes == 0,
    {
        let now = utc_now_micros();
        Self::collect_stream_stats_at(messages, start_time, now, consecutive_errors)
    }
}

/// The CSS classes of a system message.
pub fn get_system_message_css_class(message: &GuiChatMessage) -> (s: String)
    ensures
        s@ == system_css_class(*message),
{
    let mut s = String::from_str("chat-message system");
    match &message.metadata {
        Some(md) => {
            let mut i: usize = 0;
            while i < md.badges.len()
                invariant
                    i <= md.badges@.len(),
                    s@ == badge_classes(md.badges@.take(i as int)),
                decreases md.badges@.len() - i,
            {
                assert(md.badges@.take(i + 1).drop_last() =~= md.badges@.take(i as int));
                let b = md.badges[i].as_str();
                if str_eq(b, "stream-ended") {
                    push_str(&mut s, " stream-ended");
                } else if str_eq(b, "error-warning") {
                    push_str(&mut s, " error-warning");
                }
                i += 1;
            }
            assert(md.badges@.take(md.badges@.len() as int) =~= md.badges@);
        },
        None => {},
    }
    s
}

/// The paid-message count of a stream's statistics is the number of its
/// messages whose type is Super Chat or Super Sticker: adding such a message
/// raises it by one, adding any other leaves it.
/// (`collect_stream_stats_at` gives `paid_count` of the messages.)
pub proof fn lemma_paid_count_counts_paid_messages(s: Seq<GuiChatMessage>, m: GuiChatMessage)
    ensures
        paid_count(s) == s.filter(|x: GuiChatMessage| x.message_type is SuperChat || x.message_type is SuperSticker).len(),
        paid_count(s.push(m)) == paid_count(s) + if m.message_type is SuperChat || m.message_type is SuperSticker {
            1nat
        } else {
            0nat
        },
    decreases s.len(),
{
    assert(s.push(m).drop_last() =~= s);
    if s.len() > 0 {
        lemma_paid_count_counts_paid_messages(s.drop_last(), s.last());
        reveal(Seq::filter);
        assert(s.drop_last().push(s.last()) =~= s);
    } else {
        reveal(Seq::filter);
    }
}

/// The membership count of a stream's statistics is the number of its
/// messages that announce a new membership (a gift of memberships is not
/// one): adding such a message raises it by one, adding any other leaves
/// it. (`collect_stream_stats_at` gives `membership_count` of the messages.)
pub proof fn lemma_membership_count_counts_memberships(s: Seq<GuiChatMessage>, m: GuiChatMessage)
    ensures
        membership_count(s) == s.filter(|x: GuiChatMessage| x.message_type is Membership).len(),
        membership_count(s.push(m)) == membership_count(s) + if m.message_type is Membership {
            1nat
        } else {
            0nat
        },
    decreases s.len(),
{
    assert(s.push(m).drop_last() =~= s);
    reveal(Seq::filter);
    if s.len() > 0 {
        lemma_membership_count_counts_memberships(s.drop_last(), s.last());
        assert(s.drop_last().push(s.last()) =~= s);
    }
}

} // verus!
