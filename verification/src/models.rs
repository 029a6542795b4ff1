//! Chat message data model and the pure helpers that build message content.
use vstd::prelude::*;

use crate::patterns::{first_capture, regex_group1};
use crate::text::{push_decimal, parse_u32, parse_u32_text, seq_contains, str_contains, chars_end_with, chars_start_with, seq_ends_with, 
    decimal, lowercase, push_hex2, push_str, seq_starts_with, str_to_chars,
    to_lowercase, trim_chars, trim_seq, hex2,
};

verus! {

/// One chat message as shown in the user interface.
#[derive(Debug, Clone, PartialEq, Default)]
pub struct GuiChatMessage {
    /// Unique identifier of the message.
    pub id: String,
    /// Display timestamp (HH:MM:SS).
    pub timestamp: String,
    /// Original timestamp in microseconds, used for sorting.
    pub timestamp_usec: String,
    pub message_type: MessageType,
    pub author: String,
    /// Icon URL of the author.
    pub author_icon_url: Option<String>,
    pub channel_id: String,
    pub content: String,
    /// Text and emoji parts of the message.
    pub runs: Vec<MessageRun>,
    pub metadata: Option<MessageMetadata>,
    /// Whether the author is a channel member.
    pub is_member: bool,
    /// Number of comments of this author in the current stream.
    pub comment_count: Option<u32>,
}

/// One part of a message: text or an emoji.
#[derive(Debug, Clone, PartialEq)]
pub enum MessageRun {
    Text { content: String },
    Emoji { emoji_id: String, image_url: String, alt_text: String },
}

impl Default for MessageRun {
    fn default() -> (r: Self)
        ensures
            r matches MessageRun::Text { content } && content@ == Seq::<char>::empty(),
    {
        MessageRun::Text { content: String::new() }
    }
}

/// Kind of a chat message.
#[derive(Debug, Clone, PartialEq, Default)]
pub enum MessageType {
    #[default]
    Text,
    SuperChat { amount: String },
    SuperSticker { amount: String },
    /// Membership event: `None` is a new member, `Some(n)` an `n`-month milestone.
    Membership { milestone_months: Option<u32> },
    /// Gifted memberships.
    MembershipGift { gift_count: u32 },
    System,
}

/// Badge of an author.
#[derive(Debug, Clone, PartialEq, Default)]
pub struct BadgeInfo {
    pub tooltip: String,
    pub image_url: Option<String>,
}

/// Colours of a Super Chat or Super Sticker, as `#rrggbb`.
#[derive(Debug, Clone, PartialEq, Default)]
pub struct SuperChatColors {
    pub header_background: String,
    pub header_text: String,
    pub body_background: String,
    pub body_text: String,
}

/// Additional data of a message.
#[derive(Debug, Clone, PartialEq, Default)]
pub struct MessageMetadata {
    pub amount: Option<String>,
    pub badges: Vec<String>,
    pub badge_info: Vec<BadgeInfo>,
    pub color: Option<String>,
    pub is_moderator: bool,
    pub is_verified: bool,
    pub superchat_colors: Option<SuperChatColors>,
}

/// A copy of an optional string.
pub fn copy_opt_string(s: &Option<String>) -> (r: Option<String>)
    ensures
        r == *s,
{
    match s {
        Some(x) => Some(x.clone()),
        None => None,
    }
}

/// A copy of a list of strings.
pub fn copy_strings(v: &Vec<String>) -> (r: Vec<String>)
    ensures
        r@ == v@,
{
    let mut r: Vec<String> = Vec::new();
    let mut i: usize = 0;
    while i < v.len()
        invariant
            i <= v@.len(),
            r@ == v@.take(i as int),
        decreases v.len() - i,
    {
        r.push(v[i].clone());
        assert(v@.take(i as int).push(v@[i as int]) =~= v@.take(i + 1));
        i += 1;
    }
    assert(v@.take(v@.len() as int) =~= v@);
    r
}

impl MessageRun {
    /// A copy of this run.
    pub fn duplicate(&self) -> (r: Self)
        ensures
            r == *self,
    {
        match self {
            MessageRun::Text { content } => MessageRun::Text { content: content.clone() },
            MessageRun::Emoji { emoji_id, image_url, alt_text } => MessageRun::Emoji {
                emoji_id: emoji_id.clone(),
                image_url: image_url.clone(),
                alt_text: alt_text.clone(),
            },
        }
    }
}

/// A copy of a list of runs.
pub fn copy_runs(v: &Vec<MessageRun>) -> (r: Vec<MessageRun>)
    ensures
        r@ == v@,
{
    let mut r: Vec<MessageRun> = Vec::new();
    let mut i: usize = 0;
    while i < v.len()
        invariant
            i <= v@.len(),
            r@ == v@.take(i as int),
        decreases v.len() - i,
    {
        r.push(v[i].duplicate());
        assert(v@.take(i as int).push(v@[i as int]) =~= v@.take(i + 1));
        i += 1;
    }
    assert(v@.take(v@.len() as int) =~= v@);
    r
}

impl BadgeInfo {
    /// A copy of this badge.
    pub fn duplicate(&self) -> (r: Self)
        ensures
            r == *self,
    {
        BadgeInfo { tooltip: self.tooltip.clone(), image_url: copy_opt_string(&self.image_url) }
    }
}

/// A copy of a list of badges.
pub fn copy_badges(v: &Vec<BadgeInfo>) -> (r: Vec<BadgeInfo>)
    ensures
        r@ == v@,
{
    let mut r: Vec<BadgeInfo> = Vec::new();
    let mut i: usize = 0;
    while i < v.len()
        invariant
            i <= v@.len(),
            r@ == v@.take(i as int),
        decreases v.len() - i,
    {
        r.push(v[i].duplicate());
        assert(v@.take(i as int).push(v@[i as int]) =~= v@.take(i + 1));
        i += 1;
    }
    assert(v@.take(v@.len() as int) =~= v@);
    r
}

impl SuperChatColors {
    /// A copy of these colours.
    pub fn duplicate(&self) -> (r: Self)
        ensures
            r == *self,
    {
        SuperChatColors {
            header_background: self.header_background.clone(),
            header_text: self.header_text.clone(),
            body_background: self.body_background.clone(),
            body_text: self.body_text.clone(),
        }
    }
}

impl MessageMetadata {
    /// Two metadata values hold the same data.
    pub open spec fn same_as(self, other: Self) -> bool {
        &&& self.amount == other.amount
        &&& self.badges@ == other.badges@
        &&& self.badge_info@ == other.badge_info@
        &&& self.color == other.color
        &&& self.is_moderator == other.is_moderator
        &&& self.is_verified == other.is_verified
        &&& self.superchat_colors == other.superchat_colors
    }

    /// A copy of this metadata.
    pub fn duplicate(&self) -> (r: Self)
        ensures
            r.same_as(*self),
    {
        MessageMetadata {
            amount: copy_opt_string(&self.amount),
            badges: copy_strings(&self.badges),
            badge_info: copy_badges(&self.badge_info),
            color: copy_opt_string(&self.color),
            is_moderator: self.is_moderator,
            is_verified: self.is_verified,
            superchat_colors: match &self.superchat_colors {
                Some(c) => Some(c.duplicate()),
                None => None,
            },
        }
    }
}

impl MessageType {
    /// A copy of this message type.
    pub fn duplicate(&self) -> (r: Self)
        ensures
            r == *self,
    {
        match self {
            MessageType::Text => MessageType::Text,
            MessageType::SuperChat { amount } => MessageType::SuperChat { amount: amount.clone() },
            MessageType::SuperSticker { amount } => MessageType::SuperSticker {
                amount: amount.clone(),
            },
            MessageType::Membership { milestone_months } => MessageType::Membership {
                milestone_months: *milestone_months,
            },
            MessageType::MembershipGift { gift_count } => MessageType::MembershipGift {
                gift_count: *gift_count,
            },
            MessageType::System => MessageType::System,
        }
    }

    /// The CSS-style name of this message type.
    pub open spec fn class_name(self) -> Seq<char> {
        match self {
            MessageType::Text => "text"@,
            MessageType::SuperChat { .. } => "super-chat"@,
            MessageType::SuperSticker { .. } => "super-sticker"@,
            MessageType::Membership { milestone_months } => if milestone_months is Some {
                "membership-milestone"@
            } else {
                "membership"@
            },
            MessageType::MembershipGift { .. } => "membership-gift"@,
            MessageType::System => "system"@,
        }
    }

    /// The name of this message type ("text", "super-chat", ...).
    pub fn as_string(&self) -> (r: String)
        ensures
            r@ == self.class_name(),
    {
        match self {
            MessageType::Text => String::from_str("text"),
            MessageType::SuperChat { .. } => String::from_str("super-chat"),
            MessageType::SuperSticker { .. } => String::from_str("super-sticker"),
            MessageType::Membership { milestone_months } => {
                if milestone_months.is_some() {
                    String::from_str("membership-milestone")
                } else {
                    String::from_str("membership")
                }
            },
            MessageType::MembershipGift { .. } => String::from_str("membership-gift"),
            MessageType::System => String::from_str("system"),
        }
    }
}

impl GuiChatMessage {
    /// Two messages hold the same data.
    pub open spec fn same_as(self, other: Self) -> bool {
        &&& self.id == other.id
        &&& self.timestamp == other.timestamp
        &&& self.timestamp_usec == other.timestamp_usec
        &&& self.message_type == other.message_type
        &&& self.author == other.author
        &&& self.author_icon_url == other.author_icon_url
        &&& self.channel_id == other.channel_id
        &&& self.content == other.content
        &&& self.runs@ == other.runs@
        &&& match (self.metadata, other.metadata) {
            (Some(a), Some(b)) => a.same_as(b),
            (None, None) => true,
            _ => false,
        }
        &&& self.is_member == other.is_member
        &&& self.comment_count == other.comment_count
    }

    /// A copy of this message.
    pub fn duplicate(&self) -> (r: Self)
        ensures
            r.same_as(*self),
    {
        GuiChatMessage {
            id: self.id.clone(),
            timestamp: self.timestamp.clone(),
            timestamp_usec: self.timestamp_usec.clone(),
            message_type: self.message_type.duplicate(),
            author: self.author.clone(),
            author_icon_url: copy_opt_string(&self.author_icon_url),
            channel_id: self.channel_id.clone(),
            content: self.content.clone(),
            runs: copy_runs(&self.runs),
            metadata: match &self.metadata {
                Some(m) => Some(m.duplicate()),
                None => None,
            },
            is_member: self.is_member,
            comment_count: self.comment_count,
        }
    }
}

impl GuiChatMessage {
    /// A message for tests, numbered `counter`: identifier `test_<counter>`,
    /// shown at `00:00:00`, with `counter` as its timestamp; the other fields
    /// empty.
    pub fn new_for_test(author: &str, content: &str, message_type: MessageType, counter: u64) -> (m:
        Self)
        ensures
            m.id@ == "test_"@ + decimal(counter as nat),
            m.timestamp@ == "00:00:00"@,
            m.timestamp_usec@ == decimal(counter as nat),
            m.message_type == message_type,
            m.author@ == author@,
            m.content@ == content@,
            m.author_icon_url is None,
            m.channel_id@ == Seq::<char>::empty(),
            m.runs@.len() == 0,
            m.metadata is None,
            !m.is_member,
            m.comment_count is None,
    {
        let mut number = String::new();
        push_decimal(&mut number, counter);
        let mut id = String::from_str("test_");
        push_str(&mut id, number.as_str());
        GuiChatMessage {
            id,
            timestamp: String::from_str("00:00:00"),
            timestamp_usec: number,
            message_type,
            author: String::from_str(author),
            author_icon_url: None,
            channel_id: String::new(),
            content: String::from_str(content),
            runs: Vec::new(),
            metadata: None,
            is_member: false,
            comment_count: None,
        }
    }

    /// This message with its empty identifier, shown time and timestamp
    /// filled in for tests from `counter`, as `new_for_test` fills them.
    pub fn with_test_id(self, counter: u64) -> (m: Self)
        ensures
            m.id@ == (if self.id@.len() == 0 { "test_"@ + decimal(counter as nat) } else { self.id@ }),
            m.timestamp@ == (if self.timestamp@.len() == 0 { "00:00:00"@ } else { self.timestamp@ }),
            m.timestamp_usec@ == (if self.timestamp_usec@.len() == 0 {
                decimal(counter as nat)
            } else {
                self.timestamp_usec@
            }),
            m.message_type == self.message_type,
            m.author == self.author,
            m.author_icon_url == self.author_icon_url,
            m.channel_id == self.channel_id,
            m.content == self.content,
            m.runs == self.runs,
            m.metadata == self.metadata,
            m.is_member == self.is_member,
            m.comment_count == self.comment_count,
    {
        let mut m = self;
        let mut number = String::new();
        push_decimal(&mut number, counter);
        if m.id.as_str().unicode_len() == 0 {
            let mut id = String::from_str("test_");
            push_str(&mut id, number.as_str());
            m.id = id;
        }
        if m.timestamp.as_str().unicode_len() == 0 {
            m.timestamp = String::from_str("00:00:00");
        }
        if m.timestamp_usec.as_str().unicode_len() == 0 {
            m.timestamp_usec = number;
        }
        m
    }
}

/// Two message lists hold the same messages in the same order.
pub open spec fn same_messages(a: Seq<GuiChatMessage>, b: Seq<GuiChatMessage>) -> bool {
    a.len() == b.len() && forall|i: int| 0 <= i < a.len() ==> (#[trigger] a[i]).same_as(b[i])
}

/// A copy of a list of messages.
pub fn copy_messages(v: &[GuiChatMessage]) -> (r: Vec<GuiChatMessage>)
    ensures
        same_messages(r@, v@),
{
    let mut r: Vec<GuiChatMessage> = Vec::new();
    let mut i: usize = 0;
    while i < v.len()
        invariant
            i <= v@.len(),
            r@.len() == i,
            forall|j: int| 0 <= j < i ==> (#[trigger] r@[j]).same_as(v@[j]),
        decreases v.len() - i,
    {
        r.push(v[i].duplicate());
        i += 1;
    }
    r
}

/// Copies of the messages after the first `last_count`: those that came
/// since a reader last saw `last_count` of them (none when there are no
/// more than that).
pub fn messages_since(v: &[GuiChatMessage], last_count: usize) -> (r: Vec<GuiChatMessage>)
    ensures
        last_count < v@.len() ==> same_messages(r@, v@.skip(last_count as int)),
        last_count >= v@.len() ==> r@.len() == 0,
{
    let mut r: Vec<GuiChatMessage> = Vec::new();
    let mut i: usize = last_count;
    while i < v.len()
        invariant
            last_count <= i,
            last_count < v@.len() ==> i <= v@.len(),
            last_count >= v@.len() ==> i == last_count,
            r@.len() == i - last_count,
            forall|j: int| 0 <= j < r@.len() ==> (#[trigger] r@[j]).same_as(v@[last_count + j]),
        decreases v.len() - i,
    {
        r.push(v[i].duplicate());
        i += 1;
    }
    r
}

/// What a reader that last saw `last_count` messages is handed of `v`:
/// nothing when the count is unchanged, the newest messages when more came,
/// and the whole list again when there are fewer (they were cleared).
pub fn realtime_update(v: &[GuiChatMessage], last_count: usize) -> (r: Option<Vec<GuiChatMessage>>)
    ensures
        v@.len() == last_count ==> r is None,
        v@.len() > last_count ==> (r matches Some(u) && same_messages(u@, v@.skip(last_count as int))),
        v@.len() < last_count ==> (r matches Some(u) && same_messages(u@, v@)),
{
    let n = v.len();
    if n == last_count {
        None
    } else if n > last_count {
        Some(messages_since(v, last_count))
    } else {
        Some(copy_messages(v))
    }
}

/// The Japanese name of the currency of an amount text (already trimmed);
/// `None` for Japanese yen, which needs no name.
pub open spec fn currency_name(t: Seq<char>) -> Option<Seq<char>> {
    if seq_starts_with(t, "¥"@) || seq_starts_with(t, "￥"@) || seq_ends_with(t, "JPY"@) {
        None
    } else if seq_starts_with(t, "CA$"@) || seq_starts_with(t, "C$"@) {
        Some("カナダドル"@)
    } else if seq_starts_with(t, "A$"@) || seq_starts_with(t, "AU$"@) || seq_starts_with(t, "AUD"@) {
        Some("豪ドル"@)
    } else if seq_starts_with(t, "HK$"@) || seq_starts_with(t, "HKD"@) {
        Some("香港ドル"@)
    } else if seq_starts_with(t, "NT$"@) || seq_starts_with(t, "NTD"@) || seq_starts_with(t, "TWD"@) {
        Some("台湾ドル"@)
    } else if seq_starts_with(t, "S$"@) || seq_starts_with(t, "SGD"@) {
        Some("シンガポールドル"@)
    } else if seq_starts_with(t, "NZ$"@) || seq_starts_with(t, "NZD"@) {
        Some("NZドル"@)
    } else if seq_starts_with(t, "MX$"@) || seq_starts_with(t, "MXN"@) {
        Some("メキシコペソ"@)
    } else if seq_starts_with(t, "R$"@) || seq_starts_with(t, "BRL"@) {
        Some("ブラジルレアル"@)
    } else if seq_starts_with(t, "$"@) || seq_starts_with(t, "USD"@) {
        Some("米ドル"@)
    } else if seq_starts_with(t, "€"@) || seq_starts_with(t, "EUR"@) {
        Some("ユーロ"@)
    } else if seq_starts_with(t, "£"@) || seq_starts_with(t, "GBP"@) {
        Some("英ポンド"@)
    } else if seq_starts_with(t, "₩"@) || seq_starts_with(t, "KRW"@) {
        Some("韓国ウォン"@)
    } else if seq_starts_with(t, "₹"@) || seq_starts_with(t, "INR"@) {
        Some("インドルピー"@)
    } else if seq_starts_with(t, "₱"@) || seq_starts_with(t, "PHP"@) {
        Some("フィリピンペソ"@)
    } else if seq_starts_with(t, "฿"@) || seq_starts_with(t, "THB"@) {
        Some("タイバーツ"@)
    } else if seq_starts_with(t, "RM"@) || seq_starts_with(t, "MYR"@) {
        Some("マレーシアリンギット"@)
    } else if seq_starts_with(t, "Rp"@) || seq_starts_with(t, "IDR"@) {
        Some("インドネシアルピア"@)
    } else if seq_starts_with(t, "CHF"@) {
        Some("スイスフラン"@)
    } else if seq_starts_with(t, "SEK"@) {
        Some("スウェーデンクローナ"@)
    } else if seq_starts_with(t, "NOK"@) {
        Some("ノルウェークローネ"@)
    } else if seq_starts_with(t, "DKK"@) {
        Some("デンマーククローネ"@)
    } else if seq_starts_with(t, "PLN"@) || seq_starts_with(t, "zł"@) {
        Some("ポーランドズロチ"@)
    } else if seq_starts_with(t, "CZK"@) || seq_starts_with(t, "Kč"@) {
        Some("チェココルナ"@)
    } else if seq_starts_with(t, "HUF"@) || seq_starts_with(t, "Ft"@) {
        Some("ハンガリーフォリント"@)
    } else if seq_starts_with(t, "RUB"@) || seq_starts_with(t, "₽"@) {
        Some("ロシアルーブル"@)
    } else if seq_starts_with(t, "TRY"@) || seq_starts_with(t, "₺"@) {
        Some("トルコリラ"@)
    } else if seq_starts_with(t, "ZAR"@) {
        Some("南アフリカランド"@)
    } else if seq_starts_with(t, "ARS"@) {
        Some("アルゼンチンペソ"@)
    } else if seq_starts_with(t, "CLP"@) {
        Some("チリペソ"@)
    } else if seq_starts_with(t, "COP"@) {
        Some("コロンビアペソ"@)
    } else if seq_starts_with(t, "PEN"@) {
        Some("ペルーソル"@)
    } else if seq_starts_with(t, "VND"@) || seq_starts_with(t, "₫"@) {
        Some("ベトナムドン"@)
    } else if seq_starts_with(t, "EGP"@) {
        Some("エジプトポンド"@)
    } else if seq_starts_with(t, "SAR"@) {
        Some("サウジアラビアリヤル"@)
    } else if seq_starts_with(t, "AED"@) {
        Some("UAEディルハム"@)
    } else if seq_starts_with(t, "ILS"@) || seq_starts_with(t, "₪"@) {
        Some("イスラエルシェケル"@)
    } else {
        Some("不明な外貨"@)
    }
}

/// The Japanese name of the currency of an amount text such as `$5.00`;
/// `None` for Japanese yen. Unknown currencies are `不明な外貨`.
pub fn get_currency_name_ja(amount: &str) -> (r: Option<&'static str>)
    ensures
        match r {
            Some(n) => currency_name(trim_seq(amount@)) == Some(n@),
            None => currency_name(trim_seq(amount@)) is None,
        },
{
    let all = str_to_chars(amount);
    let t = trim_chars(all.as_slice());
    let t = t.as_slice();
    if chars_start_with(t, "¥") || chars_start_with(t, "￥") || chars_end_with(t, "JPY") {
        None
    } else if chars_start_with(t, "CA$") || chars_start_with(t, "C$") {
        Some("カナダドル")
    } else if chars_start_with(t, "A$") || chars_start_with(t, "AU$") || chars_start_with(t, "AUD") {
        Some("豪ドル")
    } else if chars_start_with(t, "HK$") || chars_start_with(t, "HKD") {
        Some("香港ドル")
    } else if chars_start_with(t, "NT$") || chars_start_with(t, "NTD") || chars_start_with(t, "TWD") {
        Some("台湾ドル")
    } else if chars_start_with(t, "S$") || chars_start_with(t, "SGD") {
        Some("シンガポールドル")
    } else if chars_start_with(t, "NZ$") || chars_start_with(t, "NZD") {
        Some("NZドル")
    } else if chars_start_with(t, "MX$") || chars_start_with(t, "MXN") {
        Some("メキシコペソ")
    } else if chars_start_with(t, "R$") || chars_start_with(t, "BRL") {
        Some("ブラジルレアル")
    } else if chars_start_with(t, "$") || chars_start_with(t, "USD") {
        Some("米ドル")
    } else if chars_start_with(t, "€") || chars_start_with(t, "EUR") {
        Some("ユーロ")
    } else if chars_start_with(t, "£") || chars_start_with(t, "GBP") {
        Some("英ポンド")
    } else if chars_start_with(t, "₩") || chars_start_with(t, "KRW") {
        Some("韓国ウォン")
    } else if chars_start_with(t, "₹") || chars_start_with(t, "INR") {
        Some("インドルピー")
    } else if chars_start_with(t, "₱") || chars_start_with(t, "PHP") {
        Some("フィリピンペソ")
    } else if chars_start_with(t, "฿") || chars_start_with(t, "THB") {
        Some("タイバーツ")
    } else if chars_start_with(t, "RM") || chars_start_with(t, "MYR") {
        Some("マレーシアリンギット")
    } else if chars_start_with(t, "Rp") || chars_start_with(t, "IDR") {
        Some("インドネシアルピア")
    } else if chars_start_with(t, "CHF") {
        Some("スイスフラン")
    } else if chars_start_with(t, "SEK") {
        Some("スウェーデンクローナ")
    } else if chars_start_with(t, "NOK") {
        Some("ノルウェークローネ")
    } else if chars_start_with(t, "DKK") {
        Some("デンマーククローネ")
    } else if chars_start_with(t, "PLN") || chars_start_with(t, "zł") {
        Some("ポーランドズロチ")
    } else if chars_start_with(t, "CZK") || chars_start_with(t, "Kč") {
        Some("チェココルナ")
    } else if chars_start_with(t, "HUF") || chars_start_with(t, "Ft") {
        Some("ハンガリーフォリント")
    } else if chars_start_with(t, "RUB") || chars_start_with(t, "₽") {
        Some("ロシアルーブル")
    } else if chars_start_with(t, "TRY") || chars_start_with(t, "₺") {
        Some("トルコリラ")
    } else if chars_start_with(t, "ZAR") {
        Some("南アフリカランド")
    } else if chars_start_with(t, "ARS") {
        Some("アルゼンチンペソ")
    } else if chars_start_with(t, "CLP") {
        Some("チリペソ")
    } else if chars_start_with(t, "COP") {
        Some("コロンビアペソ")
    } else if chars_start_with(t, "PEN") {
        Some("ペルーソル")
    } else if chars_start_with(t, "VND") || chars_start_with(t, "₫") {
        Some("ベトナムドン")
    } else if chars_start_with(t, "EGP") {
        Some("エジプトポンド")
    } else if chars_start_with(t, "SAR") {
        Some("サウジアラビアリヤル")
    } else if chars_start_with(t, "AED") {
        Some("UAEディルハム")
    } else if chars_start_with(t, "ILS") || chars_start_with(t, "₪") {
        Some("イスラエルシェケル")
    } else {
        Some("不明な外貨")
    }
}


/// A tab of the main window.
#[derive(Debug, Clone, Copy, PartialEq, Eq, Structural)]
pub enum ActiveTab {
    Chat,
    Export,
    Raw,
    Revenue,
    SignalAnalysis,
    ChatMonitor,
    RevenueAnalytics,
    DataExport,
    Settings,
}

impl Default for ActiveTab {
    fn default() -> (r: Self)
        ensures
            r == ActiveTab::Chat,
    {
        ActiveTab::Chat
    }
}

impl ActiveTab {
    /// The tab's label.
    pub open spec fn label(self) -> Seq<char> {
        match self {
            ActiveTab::Chat | ActiveTab::ChatMonitor => "Chat"@,
            ActiveTab::Export | ActiveTab::DataExport => "Export"@,
            ActiveTab::Raw => "Raw"@,
            ActiveTab::Revenue | ActiveTab::RevenueAnalytics => "Revenue"@,
            ActiveTab::SignalAnalysis => "Signal Analysis"@,
            ActiveTab::Settings => "Settings"@,
        }
    }

    /// The tab's icon.
    pub open spec fn icon_text(self) -> Seq<char> {
        match self {
            ActiveTab::Chat | ActiveTab::ChatMonitor => "💬"@,
            ActiveTab::Export | ActiveTab::DataExport => "📥"@,
            ActiveTab::Raw => "📄"@,
            ActiveTab::Revenue | ActiveTab::RevenueAnalytics => "💰"@,
            ActiveTab::SignalAnalysis => "📊"@,
            ActiveTab::Settings => "⚙️"@,
        }
    }

    /// The tab's description.
    pub open spec fn description_text(self) -> Seq<char> {
        match self {
            ActiveTab::Chat | ActiveTab::ChatMonitor => "Monitor real-time YouTube live chat messages"@,
            ActiveTab::Export | ActiveTab::DataExport => "Export and save chat data in various formats"@,
            ActiveTab::Raw => "Save raw responses from YouTube"@,
            ActiveTab::Revenue | ActiveTab::RevenueAnalytics =>
                "Track SuperChat revenue and membership earnings"@,
            ActiveTab::SignalAnalysis => "Analyze chat data for patterns and insights"@,
            ActiveTab::Settings => "Application settings and configuration"@,
        }
    }

    /// The tab's label.
    pub fn to_string(&self) -> (r: &'static str)
        ensures
            r@ == self.label(),
    {
        match self {
            ActiveTab::Chat => "Chat",
            ActiveTab::Export => "Export",
            ActiveTab::Raw => "Raw",
            ActiveTab::Revenue => "Revenue",
            ActiveTab::SignalAnalysis => "Signal Analysis",
            ActiveTab::ChatMonitor => "Chat",
            ActiveTab::RevenueAnalytics => "Revenue",
            ActiveTab::DataExport => "Export",
            ActiveTab::Settings => "Settings",
        }
    }

    /// The tab's icon.
    pub fn icon(&self) -> (r: &'static str)
        ensures
            r@ == self.icon_text(),
    {
        match self {
            ActiveTab::Chat => "💬",
            ActiveTab::Export => "📥",
            ActiveTab::Raw => "📄",
            ActiveTab::Revenue => "💰",
            ActiveTab::SignalAnalysis => "📊",
            ActiveTab::ChatMonitor => "💬",
            ActiveTab::RevenueAnalytics => "💰",
            ActiveTab::DataExport => "📥",
            ActiveTab::Settings => "⚙️",
        }
    }

    /// The tab's description.
    pub fn description(&self) -> (r: &'static str)
        ensures
            r@ == self.description_text(),
    {
        match self {
            ActiveTab::Chat => "Monitor real-time YouTube live chat messages",
            ActiveTab::Export => "Export and save chat data in various formats",
            ActiveTab::Raw => "Save raw responses from YouTube",
            ActiveTab::Revenue => "Track SuperChat revenue and membership earnings",
            ActiveTab::SignalAnalysis => "Analyze chat data for patterns and insights",
            ActiveTab::ChatMonitor => "Monitor real-time YouTube live chat messages",
            ActiveTab::RevenueAnalytics => "Track SuperChat revenue and membership earnings",
            ActiveTab::DataExport => "Export and save chat data in various formats",
            ActiveTab::Settings => "Application settings and configuration",
        }
    }
}

/// Non-empty parts joined by single spaces.
pub open spec fn join_spaced(parts: Seq<Seq<char>>) -> Seq<char>
    decreases parts.len(),
{
    if parts.len() == 0 {
        Seq::empty()
    } else if parts.len() == 1 {
        parts[0]
    } else {
        join_spaced(parts.drop_last()) + " "@ + parts.last()
    }
}

/// The parts of a membership message's content.
pub open spec fn membership_parts(primary: Seq<char>, sub: Seq<char>, user: Seq<char>) -> Seq<Seq<char>> {
    let p1: Seq<Seq<char>> = if primary.len() > 0 { seq![primary] } else { Seq::empty() };
    let p2: Seq<Seq<char>> = if sub.len() > 0 { p1.push(sub) } else { p1 };
    if user.len() > 0 {
        if p2.len() > 0 { p2.push(": "@ + user) } else { p2.push(user) }
    } else {
        p2
    }
}

/// The content of a membership message.
pub open spec fn membership_text(
    primary: Seq<char>,
    sub: Seq<char>,
    user: Seq<char>,
    milestone_months: Option<u32>,
) -> Seq<char> {
    let parts = membership_parts(primary, sub, user);
    if parts.len() == 0 {
        if milestone_months is Some { "Membership milestone!"@ } else { "New member!"@ }
    } else {
        join_spaced(parts)
    }
}

/// The content of a membership message: the header text, the sub text and
/// `: ` with the member's message, joined by spaces; a default text when all
/// are empty.
pub fn build_membership_content(
    header_primary: &str,
    header_sub: &str,
    user_message: &str,
    milestone_months: Option<u32>,
) -> (r: String)
    ensures
        r@ == membership_text(header_primary@, header_sub@, user_message@, milestone_months),
{
    let ghost parts = membership_parts(header_primary@, header_sub@, user_message@);
    let mut out = String::new();
    let mut any = false;
    let ghost mut done: Seq<Seq<char>> = Seq::empty();
    if !header_primary.is_empty() {
        push_str(&mut out, header_primary);
        any = true;
        proof {
            done = done.push(header_primary@);
            assert(out@ =~= join_spaced(done));
        }
    }
    assert(any == (done.len() > 0) && out@ == join_spaced(done));
    if !header_sub.is_empty() {
        let ghost prev = done;
        if any {
            push_str(&mut out, " ");
        }
        push_str(&mut out, header_sub);
        proof {
            done = done.push(header_sub@);
            assert(done.drop_last() =~= prev);
            assert(out@ =~= join_spaced(done));
        }
        any = true;
    }
    assert(any == (done.len() > 0) && out@ == join_spaced(done));
    if !user_message.is_empty() {
        let ghost prev = done;
        if any {
            push_str(&mut out, " ");
            push_str(&mut out, ": ");
            push_str(&mut out, user_message);
            proof {
                done = done.push(": "@ + user_message@);
                assert(done.drop_last() =~= prev);
                assert(out@ =~= join_spaced(done));
            }
        } else {
            push_str(&mut out, user_message);
            proof {
                done = done.push(user_message@);
                assert(out@ =~= join_spaced(done));
            }
        }
        any = true;
    }
    assert(done =~= parts);
    if !any {
        if milestone_months.is_some() {
            String::from_str("Membership milestone!")
        } else {
            String::from_str("New member!")
        }
    } else {
        out
    }
}

/// `#rrggbb` for the red, green and blue bytes of an ARGB colour value.
pub open spec fn argb_hex(argb: u64) -> Seq<char> {
    "#"@ + hex2((argb / 65536 % 256) as nat) + hex2((argb / 256 % 256) as nat) + hex2((argb % 256) as nat)
}

/// `#rrggbb` for an ARGB colour value.
pub fn argb_to_hex(argb: u64) -> (r: String)
    ensures
        r@ == argb_hex(argb),
{
    let mut s = String::from_str("#");
    push_hex2(&mut s, argb / 65536 % 256);
    push_hex2(&mut s, argb / 256 % 256);
    push_hex2(&mut s, argb % 256);
    s
}

/// The colours of a Super Chat.
pub fn extract_superchat_colors(
    header_background_color: u64,
    header_text_color: u64,
    body_background_color: u64,
    body_text_color: u64,
) -> (c: SuperChatColors)
    ensures
        c.header_background@ == argb_hex(header_background_color),
        c.header_text@ == argb_hex(header_text_color),
        c.body_background@ == argb_hex(body_background_color),
        c.body_text@ == argb_hex(body_text_color),
{
    SuperChatColors {
        header_background: argb_to_hex(header_background_color),
        header_text: argb_to_hex(header_text_color),
        body_background: argb_to_hex(body_background_color),
        body_text: argb_to_hex(body_text_color),
    }
}

/// The colours of a Super Sticker: header and body share the money chip's.
pub fn extract_supersticker_colors(money_chip_background_color: u64, money_chip_text_color: u64) -> (c:
    SuperChatColors)
    ensures
        c.header_background@ == argb_hex(money_chip_background_color),
        c.header_text@ == argb_hex(money_chip_text_color),
        c.body_background@ == argb_hex(money_chip_background_color),
        c.body_text@ == argb_hex(money_chip_text_color),
{
    let bg = argb_to_hex(money_chip_background_color);
    let text = argb_to_hex(money_chip_text_color);
    SuperChatColors { header_background: bg.clone(), header_text: text.clone(), body_background: bg, body_text: text }
}

/// A badge of an author as the chat API describes it.
#[derive(Debug, Clone, PartialEq, Default)]
pub struct AuthorBadge {
    pub tooltip: String,
    pub accessibility_label: String,
    /// URL of the first thumbnail of the badge's custom image.
    pub thumbnail_url: Option<String>,
}

/// A badge marks a member: its tooltip names a member or new member, or its
/// accessibility label names a member.
pub open spec fn marks_member(tooltip: Seq<char>, label: Seq<char>) -> bool {
    seq_contains(tooltip, "メンバー"@) || seq_contains(tooltip, "Member"@) || seq_contains(label, "メンバー"@)
        || seq_contains(label, "Member"@) || seq_contains(tooltip, "新規メンバー"@) || seq_contains(
        tooltip,
        "New member"@,
    )
}

/// A badge marks a moderator.
pub open spec fn marks_moderator(tooltip: Seq<char>, label: Seq<char>) -> bool {
    seq_contains(tooltip, "モデレーター"@) || seq_contains(tooltip, "Moderator"@) || seq_contains(
        label,
        "モデレーター"@,
    ) || seq_contains(label, "Moderator"@)
}

/// A badge marks a verified author.
pub open spec fn marks_verified(tooltip: Seq<char>, label: Seq<char>) -> bool {
    seq_contains(tooltip, "認証"@) || seq_contains(tooltip, "Verified"@) || seq_contains(label, "認証"@)
        || seq_contains(label, "Verified"@)
}

/// Badge texts, badge details and the member, moderator and verified flags
/// of an author's badges.
pub fn extract_badge_info(author_badges: &[AuthorBadge]) -> (r: (Vec<String>, Vec<BadgeInfo>, bool, bool, bool))
    ensures
        r.0@.len() == author_badges@.len(),
        r.1@.len() == author_badges@.len(),
        forall|i: int| 0 <= i < author_badges@.len() ==> {
            &&& (#[trigger] r.0@[i]) == author_badges@[i].tooltip
            &&& r.1@[i].tooltip == author_badges@[i].tooltip
            &&& r.1@[i].image_url == author_badges@[i].thumbnail_url
        },
        r.2 == exists|i: int| 0 <= i < author_badges@.len() && marks_member(
            #[trigger] author_badges@[i].tooltip@,
            author_badges@[i].accessibility_label@,
        ),
        r.3 == exists|i: int| 0 <= i < author_badges@.len() && marks_moderator(
            #[trigger] author_badges@[i].tooltip@,
            author_badges@[i].accessibility_label@,
        ),
        r.4 == exists|i: int| 0 <= i < author_badges@.len() && marks_verified(
            #[trigger] author_badges@[i].tooltip@,
            author_badges@[i].accessibility_label@,
        ),
{
    let mut badges: Vec<String> = Vec::new();
    let mut info: Vec<BadgeInfo> = Vec::new();
    let mut is_member = false;
    let mut is_moderator = false;
    let mut is_verified = false;
    let mut i: usize = 0;
    while i < author_badges.len()
        invariant
            i <= author_badges@.len(),
            badges@.len() == i,
            info@.len() == i,
            forall|j: int| 0 <= j < i ==> {
                &&& (#[trigger] badges@[j]) == author_badges@[j].tooltip
                &&& info@[j].tooltip == author_badges@[j].tooltip
                &&& info@[j].image_url == author_badges@[j].thumbnail_url
            },
            is_member == exists|j: int| 0 <= j < i && marks_member(
                #[trigger] author_badges@[j].tooltip@,
                author_badges@[j].accessibility_label@,
            ),
            is_moderator == exists|j: int| 0 <= j < i && marks_moderator(
                #[trigger] author_badges@[j].tooltip@,
                author_badges@[j].accessibility_label@,
            ),
            is_verified == exists|j: int| 0 <= j < i && marks_verified(
                #[trigger] author_badges@[j].tooltip@,
                author_badges@[j].accessibility_label@,
            ),
        decreases author_badges.len() - i,
    {
        let b = &author_badges[i];
        let tooltip = b.tooltip.as_str();
        let label = b.accessibility_label.as_str();
        badges.push(b.tooltip.clone());
        info.push(BadgeInfo { tooltip: b.tooltip.clone(), image_url: copy_opt_string(&b.thumbnail_url) });
        let member = str_contains(tooltip, "メンバー") || str_contains(tooltip, "Member")
            || str_contains(label, "メンバー") || str_contains(label, "Member")
            || str_contains(tooltip, "新規メンバー") || str_contains(tooltip, "New member");
        let moderator = str_contains(tooltip, "モデレーター") || str_contains(tooltip, "Moderator")
            || str_contains(label, "モデレーター") || str_contains(label, "Moderator");
        let verified = str_contains(tooltip, "認証") || str_contains(tooltip, "Verified")
            || str_contains(label, "認証") || str_contains(label, "Verified");
        if member {
            is_member = true;
        }
        if moderator {
            is_moderator = true;
        }
        if verified {
            is_verified = true;
        }
        proof {
            assert(moderator == marks_moderator(
                author_badges@[i as int].tooltip@,
                author_badges@[i as int].accessibility_label@,
            ));
            assert(verified == marks_verified(
                author_badges@[i as int].tooltip@,
                author_badges@[i as int].accessibility_label@,
            ));
            assert(member == marks_member(
                author_badges@[i as int].tooltip@,
                author_badges@[i as int].accessibility_label@,
            ));
        }
        i += 1;
    }
    (badges, info, is_member, is_moderator, is_verified)
}


/// A positive number captured by `pattern` in `text`.
pub open spec fn captured_count(pattern: Seq<char>, text: Seq<char>) -> Option<u32> {
    match regex_group1(pattern, text) {
        Some(g) => match parse_u32_text(g) {
            Some(n) => if n > 0 { Some(n) } else { None },
            None => None,
        },
        None => None,
    }
}

/// A positive number captured by `pattern` in `text`.
pub fn capture_count(pattern: &str, text: &str) -> (r: Option<u32>)
    ensures
        r == captured_count(pattern@, text@),
{
    match first_capture(pattern, text) {
        Some(g) => match parse_u32(g.as_str()) {
            Some(n) => if n > 0 {
                Some(n)
            } else {
                None
            },
            None => None,
        },
        None => None,
    }
}

/// The first present value of a sequence of options.
pub open spec fn first_some(s: Seq<Option<u32>>) -> Option<u32>
    decreases s.len(),
{
    if s.len() == 0 {
        None
    } else if s[0] is Some {
        s[0]
    } else {
        first_some(s.drop_first())
    }
}

/// The milestone month count of a membership header: the Japanese patterns
/// on the header texts joined by a space, then the English ones on its
/// lower-case form, where a count of years means twelve times as many months.
pub open spec fn milestone_months(primary: Seq<char>, sub: Seq<char>) -> Option<u32> {
    let combined = primary + " "@ + sub;
    let lower = lowercase(combined);
    first_some(
        seq![
            captured_count("(\\d+)\\s*か月"@, combined),
            captured_count("(\\d+)\\s*ヶ月"@, combined),
            captured_count("(\\d+)\\s*カ月"@, combined),
            captured_count("メンバー歴\\s*(\\d+)"@, combined),
            captured_count("(\\d+)\\s*month"@, lower),
            match captured_count("(\\d+)\\s*year"@, lower) {
                Some(n) => Some(n.wrapping_mul(12)),
                None => None,
            },
            captured_count("member\\s+for\\s+(\\d+)"@, lower),
        ],
    )
}

/// The milestone month count in a membership header, if any.
pub fn extract_milestone_months(header_primary: &str, header_sub: &str) -> (r: Option<u32>)
    ensures
        r == milestone_months(header_primary@, header_sub@),
{
    let mut combined = String::from_str(header_primary);
    push_str(&mut combined, " ");
    push_str(&mut combined, header_sub);
    let lower = to_lowercase(combined.as_str());
    let c = combined.as_str();
    let l = lower.as_str();
    let ghost cs = header_primary@ + " "@ + header_sub@;
    assert(combined@ =~= cs);
    let ghost opts = seq![
        captured_count("(\\d+)\\s*か月"@, cs),
        captured_count("(\\d+)\\s*ヶ月"@, cs),
        captured_count("(\\d+)\\s*カ月"@, cs),
        captured_count("メンバー歴\\s*(\\d+)"@, cs),
        captured_count("(\\d+)\\s*month"@, lowercase(cs)),
        match captured_count("(\\d+)\\s*year"@, lowercase(cs)) {
            Some(n) => Some(n.wrapping_mul(12)),
            None => None,
        },
        captured_count("member\\s+for\\s+(\\d+)"@, lowercase(cs)),
    ];
    assert(opts.drop_first() =~= opts.subrange(1, 7));
    assert(opts.subrange(1, 7).drop_first() =~= opts.subrange(2, 7));
    assert(opts.subrange(2, 7).drop_first() =~= opts.subrange(3, 7));
    assert(opts.subrange(3, 7).drop_first() =~= opts.subrange(4, 7));
    assert(opts.subrange(4, 7).drop_first() =~= opts.subrange(5, 7));
    assert(opts.subrange(5, 7).drop_first() =~= opts.subrange(6, 7));
    assert(opts.subrange(6, 7).drop_first() =~= Seq::<Option<u32>>::empty());
    proof {
        reveal_with_fuel(first_some, 8);
    }
    let r = capture_count("(\\d+)\\s*か月", c);
    if r.is_some() {
        return r;
    }
    let r = capture_count("(\\d+)\\s*ヶ月", c);
    if r.is_some() {
        return r;
    }
    let r = capture_count("(\\d+)\\s*カ月", c);
    if r.is_some() {
        return r;
    }
    let r = capture_count("メンバー歴\\s*(\\d+)", c);
    if r.is_some() {
        return r;
    }
    let r = capture_count("(\\d+)\\s*month", l);
    if r.is_some() {
        return r;
    }
    let r = capture_count("(\\d+)\\s*year", l);
    if let Some(n) = r {
        return Some(n.wrapping_mul(12));
    }
    capture_count("member\\s+for\\s+(\\d+)", l)
}

/// The number of gifted memberships in a gift header; 1 when no pattern
/// gives a positive number.
pub open spec fn gift_count(header: Seq<char>) -> u32 {
    let lower = lowercase(header);
    match first_some(
        seq![
            captured_count("(\\d+)\\s*人に"@, header),
            captured_count("[Gg]ifted\\s+(\\d+)"@, lower),
            captured_count("(\\d+)\\s+membership"@, lower),
        ],
    ) {
        Some(n) => n,
        None => 1,
    }
}

/// The number of gifted memberships in a gift header.
pub fn extract_gift_count(header_text: &str) -> (r: u32)
    ensures
        r == gift_count(header_text@),
{
    let ghost opts = seq![
        captured_count("(\\d+)\\s*人に"@, header_text@),
        captured_count("[Gg]ifted\\s+(\\d+)"@, lowercase(header_text@)),
        captured_count("(\\d+)\\s+membership"@, lowercase(header_text@)),
    ];
    assert(opts.drop_first() =~= opts.subrange(1, 3));
    assert(opts.subrange(1, 3).drop_first() =~= opts.subrange(2, 3));
    assert(opts.subrange(2, 3).drop_first() =~= Seq::<Option<u32>>::empty());
    proof {
        reveal_with_fuel(first_some, 4);
    }
    if let Some(n) = capture_count("(\\d+)\\s*人に", header_text) {
        return n;
    }
    let lower = to_lowercase(header_text);
    if let Some(n) = capture_count("[Gg]ifted\\s+(\\d+)", lower.as_str()) {
        return n;
    }
    if let Some(n) = capture_count("(\\d+)\\s+membership", lower.as_str()) {
        return n;
    }
    1
}

/// A badge whose tooltip or accessibility label names a moderator, in
/// Japanese (`モデレーター`) or in English (`Moderator`), makes its author a
/// moderator, whatever the other badges say; a badge that names a member or
/// a verified author likewise sets those flags. (`extract_badge_info` gives
/// these flags as the three `exists` clauses of its contract.)
pub proof fn lemma_badge_flags(badges: Seq<AuthorBadge>, i: int)
    requires
        0 <= i < badges.len(),
    ensures
        (seq_contains(badges[i].tooltip@, "モデレーター"@) || seq_contains(badges[i].accessibility_label@, "モデレーター"@)
            || seq_contains(badges[i].tooltip@, "Moderator"@) || seq_contains(
            badges[i].accessibility_label@,
            "Moderator"@,
        )) ==> exists|j: int| 0 <= j < badges.len() && marks_moderator(
            #[trigger] badges[j].tooltip@,
            badges[j].accessibility_label@,
        ),
        (seq_contains(badges[i].tooltip@, "メンバー"@) || seq_contains(badges[i].accessibility_label@, "メンバー"@)
            || seq_contains(badges[i].tooltip@, "Member"@) || seq_contains(badges[i].accessibility_label@, "Member"@))
            ==> exists|j: int| 0 <= j < badges.len() && marks_member(
            #[trigger] badges[j].tooltip@,
            badges[j].accessibility_label@,
        ),
        (seq_contains(badges[i].tooltip@, "認証"@) || seq_contains(badges[i].accessibility_label@, "認証"@)
            || seq_contains(badges[i].tooltip@, "Verified"@) || seq_contains(badges[i].accessibility_label@, "Verified"@))
            ==> exists|j: int| 0 <= j < badges.len() && marks_verified(
            #[trigger] badges[j].tooltip@,
            badges[j].accessibility_label@,
        ),
{
    assert(marks_moderator(badges[i].tooltip@, badges[i].accessibility_label@) == (seq_contains(badges[i].tooltip@, "モデレーター"@) || seq_contains(badges[i].accessibility_label@, "モデレーター"@)
        || seq_contains(badges[i].tooltip@, "Moderator"@) || seq_contains(badges[i].accessibility_label@, "Moderator"@)));
}

} // verus!
