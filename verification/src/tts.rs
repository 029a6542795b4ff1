//! Text-to-speech: backend kinds, reading priorities, the text read aloud
//! for a message, and the request URL of the BouyomiChan backend.
use vstd::prelude::*;

use crate::models::{GuiChatMessage, MessageType};
use crate::plugin_system::PluginInfo;
use crate::patterns::{regex_compiles, regex_replaced_first, replace_all, replace_first, replaced_or_kept};
use crate::text::{
    chars_to_string, decimal, push_decimal, push_decimal_i64, push_str, signed_decimal,
    str_to_chars, trim_chars, trim_seq,
};
use vstd::utf8::encode_utf8;

verus! {

/// Kind of speech backend.
#[derive(Debug, Clone, Copy, PartialEq, Eq, Structural, Default)]
pub enum TtsBackendType {
    /// Speech is off.
    #[default]
    Disabled,
    Bouyomichan,
    Voicevox,
}

impl TtsBackendType {
    /// The backend's Japanese display name.
    pub open spec fn label(self) -> Seq<char> {
        match self {
            TtsBackendType::Disabled => "無効"@,
            TtsBackendType::Bouyomichan => "棒読みちゃん"@,
            TtsBackendType::Voicevox => "VOICEVOX"@,
        }
    }

    /// The backend's Japanese display name.
    pub fn display_name(&self) -> (r: &'static str)
        ensures
            r@ == self.label(),
    {
        match self {
            TtsBackendType::Disabled => "無効",
            TtsBackendType::Bouyomichan => "棒読みちゃん",
            TtsBackendType::Voicevox => "VOICEVOX",
        }
    }
}

/// Executable name of a backend's process.
pub open spec fn process_name(backend: TtsBackendType) -> Seq<char> {
    match backend {
        TtsBackendType::Bouyomichan => "BouyomiChan.exe"@,
        TtsBackendType::Voicevox => "VOICEVOX.exe"@,
        TtsBackendType::Disabled => ""@,
    }
}

/// Executable name of a backend's process (empty for none).
pub fn get_process_name(backend: TtsBackendType) -> (r: &'static str)
    ensures
        r@ == process_name(backend),
{
    match backend {
        TtsBackendType::Bouyomichan => "BouyomiChan.exe",
        TtsBackendType::Voicevox => "VOICEVOX.exe",
        TtsBackendType::Disabled => "",
    }
}

/// Settings of the BouyomiChan backend.
#[derive(Debug, Clone)]
pub struct BouyomichanConfig {
    pub host: String,
    pub port: u16,
    /// Voice (0 is the default voice).
    pub voice: i32,
    /// Volume (-1 is the default).
    pub volume: i32,
    /// Speed (-1 is the default).
    pub speed: i32,
    /// Tone (-1 is the default).
    pub tone: i32,
    pub auto_launch: bool,
    /// Path of the executable; found automatically when `None`.
    pub executable_path: Option<String>,
    pub auto_close_on_exit: bool,
}

impl Default for BouyomichanConfig {
    fn default() -> (c: Self)
        ensures
            c.host@ == "localhost"@,
            c.port == 50080,
            c.voice == 0,
            c.volume == -1,
            c.speed == -1,
            c.tone == -1,
            !c.auto_launch,
            c.executable_path is None,
            !c.auto_close_on_exit,
    {
        BouyomichanConfig {
            host: String::from_str("localhost"),
            port: 50080,
            voice: 0,
            volume: -1,
            speed: -1,
            tone: -1,
            auto_launch: false,
            executable_path: None,
            auto_close_on_exit: false,
        }
    }
}

/// Settings of the VOICEVOX backend. (The voice scales, floating-point
/// numbers, are kept by the caller, who sends them to the engine.)
#[derive(Debug, Clone)]
pub struct VoicevoxConfig {
    pub host: String,
    pub port: u16,
    /// The speaking character and style.
    pub speaker_id: i32,
    pub auto_launch: bool,
    /// Path of the executable; found automatically when `None`.
    pub executable_path: Option<String>,
    pub auto_close_on_exit: bool,
}

impl Default for VoicevoxConfig {
    fn default() -> (c: Self)
        ensures
            c.host@ == "localhost"@,
            c.port == 50021,
            c.speaker_id == 1,
            !c.auto_launch,
            c.executable_path is None,
            !c.auto_close_on_exit,
    {
        VoicevoxConfig {
            host: String::from_str("localhost"),
            port: 50021,
            speaker_id: 1,
            auto_launch: false,
            executable_path: None,
            auto_close_on_exit: false,
        }
    }
}

/// Settings of the speech plugin.
#[derive(Debug, Clone)]
pub struct TtsConfig {
    pub enabled: bool,
    pub backend: TtsBackendType,
    pub bouyomichan: BouyomichanConfig,
    pub voicevox: VoicevoxConfig,
    pub read_author_name: bool,
    pub add_honorific: bool,
    pub strip_at_prefix: bool,
    pub strip_handle_suffix: bool,
    pub read_superchat_amount: bool,
    /// Longest text read, in characters.
    pub max_text_length: usize,
    /// Most messages waiting to be read.
    pub queue_size_limit: usize,
}

impl Default for TtsConfig {
    /// Off, no backend, names read with さん, handles cleaned, amounts read,
    /// 200 characters at most, 50 messages waiting at most.
    fn default() -> (c: Self)
        ensures
            !c.enabled,
            c.backend == TtsBackendType::Disabled,
            c.bouyomichan.port == 50080,
            c.voicevox.port == 50021,
            c.read_author_name,
            c.add_honorific,
            c.strip_at_prefix,
            c.strip_handle_suffix,
            c.read_superchat_amount,
            c.max_text_length == 200,
            c.queue_size_limit == 50,
    {
        TtsConfig {
            enabled: false,
            backend: TtsBackendType::Disabled,
            bouyomichan: BouyomichanConfig::default(),
            voicevox: VoicevoxConfig::default(),
            read_author_name: true,
            add_honorific: true,
            strip_at_prefix: true,
            strip_handle_suffix: true,
            read_superchat_amount: true,
            max_text_length: 200,
            queue_size_limit: 50,
        }
    }
}

impl TtsConfig {
    /// What is read for each message under these settings.
    pub fn reading_options(&self) -> (o: TtsReadingOptions)
        ensures
            o.read_author_name == self.read_author_name,
            o.add_honorific == self.add_honorific,
            o.strip_at_prefix == self.strip_at_prefix,
            o.strip_handle_suffix == self.strip_handle_suffix,
            o.read_superchat_amount == self.read_superchat_amount,
            o.max_text_length == self.max_text_length,
    {
        TtsReadingOptions {
            read_author_name: self.read_author_name,
            add_honorific: self.add_honorific,
            strip_at_prefix: self.strip_at_prefix,
            strip_handle_suffix: self.strip_handle_suffix,
            read_superchat_amount: self.read_superchat_amount,
            max_text_length: self.max_text_length,
        }
    }
}

/// Reading priority; later variants come first.
#[derive(Debug, Clone, Copy, PartialEq, Eq, PartialOrd, Ord, Structural)]
pub enum TtsPriority {
    Normal,
    SuperChat,
    Membership,
}

impl TtsPriority {
    /// The priority's rank: Normal 0, SuperChat 1, Membership 2.
    pub open spec fn rank(self) -> nat {
        match self {
            TtsPriority::Normal => 0,
            TtsPriority::SuperChat => 1,
            TtsPriority::Membership => 2,
        }
    }

    /// The priority's rank: Normal 0, SuperChat 1, Membership 2.
    pub fn level(&self) -> (r: u8)
        ensures
            r == self.rank(),
    {
        match self {
            TtsPriority::Normal => 0,
            TtsPriority::SuperChat => 1,
            TtsPriority::Membership => 2,
        }
    }
}

/// A text queued for reading.
#[derive(Debug, Clone)]
pub struct TtsMessage {
    pub text: String,
    pub priority: TtsPriority,
}

/// The reading priority of a message.
pub open spec fn message_priority(t: MessageType) -> TtsPriority {
    match t {
        MessageType::SuperChat { .. } | MessageType::SuperSticker { .. } => TtsPriority::SuperChat,
        MessageType::Membership { .. } | MessageType::MembershipGift { .. } => TtsPriority::Membership,
        _ => TtsPriority::Normal,
    }
}

/// The reading priority of a message: paid messages, then membership events,
/// then the rest.
pub fn get_priority(message: &GuiChatMessage) -> (p: TtsPriority)
    ensures
        p == message_priority(message.message_type),
{
    match &message.message_type {
        MessageType::SuperChat { .. } | MessageType::SuperSticker { .. } => TtsPriority::SuperChat,
        MessageType::Membership { .. } | MessageType::MembershipGift { .. } => TtsPriority::Membership,
        _ => TtsPriority::Normal,
    }
}

/// A byte that URL encoding leaves as it is.
pub open spec fn url_safe(b: u8) -> bool {
    (0x30 <= b <= 0x39) || (0x41 <= b <= 0x5A) || (0x61 <= b <= 0x7A) || b == 0x2D || b == 0x2E || b
        == 0x5F || b == 0x7E
}

/// An upper-case hexadecimal digit.
pub open spec fn hex_upper(d: u8) -> char {
    if d < 10 { (d + 48) as char } else { (d + 55) as char }
}

/// The URL encoding of a byte sequence: safe bytes stay, every other byte
/// becomes `%` and two upper-case hexadecimal digits.
pub open spec fn url_encode_bytes(b: Seq<u8>) -> Seq<char>
    decreases b.len(),
{
    if b.len() == 0 {
        Seq::empty()
    } else {
        let x = b.last();
        url_encode_bytes(b.drop_last()) + if url_safe(x) {
            seq![x as char]
        } else {
            seq!['%', hex_upper(x / 16), hex_upper(x % 16)]
        }
    }
}

/// Calls `urlencoding::encode`: every byte of the UTF-8 form of `text`
/// except ASCII letters, digits and `-`, `_`, `.`, `~` becomes `%XX`.
#[verifier::external_body]
fn url_encode(text: &str) -> (r: String)
    ensures
        r@ == url_encode_bytes(encode_utf8(text@)),
{
    urlencoding::encode(text).into_owned()
}

/// The BouyomiChan Talk request URL for `text`.
pub open spec fn talk_url(config: BouyomichanConfig, text: Seq<char>) -> Seq<char> {
    "http://"@ + config.host@ + ":"@ + decimal(config.port as nat) + "/Talk?text="@ + url_encode_bytes(
        encode_utf8(text),
    ) + "&voice="@ + signed_decimal(config.voice as int) + "&volume="@ + signed_decimal(
        config.volume as int,
    ) + "&speed="@ + signed_decimal(config.speed as int) + "&tone="@ + signed_decimal(
        config.tone as int,
    )
}

/// The BouyomiChan Talk request URL for `text`.
pub fn build_talk_url(config: &BouyomichanConfig, text: &str) -> (r: String)
    ensures
        r@ == talk_url(*config, text@),
{
    let mut s = String::from_str("http://");
    push_str(&mut s, config.host.as_str());
    push_str(&mut s, ":");
    push_decimal(&mut s, config.port as u64);
    push_str(&mut s, "/Talk?text=");
    let enc = url_encode(text);
    push_str(&mut s, enc.as_str());
    push_str(&mut s, "&voice=");
    push_decimal_i64(&mut s, config.voice as i64);
    push_str(&mut s, "&volume=");
    push_decimal_i64(&mut s, config.volume as i64);
    push_str(&mut s, "&speed=");
    push_decimal_i64(&mut s, config.speed as i64);
    push_str(&mut s, "&tone=");
    push_decimal_i64(&mut s, config.tone as i64);
    s
}

/// The URL pattern removed before reading.
pub open spec fn url_pattern() -> Seq<char> {
    "https?://\\S+"@
}

/// The whitespace pattern collapsed before reading.
pub open spec fn space_pattern() -> Seq<char> {
    "\\s+"@
}

/// The text read for a message's content: URLs removed, whitespace runs
/// collapsed to one space, surrounding whitespace trimmed.
pub open spec fn reading_text(text: Seq<char>) -> Seq<char> {
    trim_seq(
        replaced_or_kept(space_pattern(), replaced_or_kept(url_pattern(), text, ""@), " "@),
    )
}

/// The text read for a message's content.
pub fn sanitize_text(text: &str) -> (r: String)
    ensures
        r@ == reading_text(text@),
{
    let no_urls = replace_all("https?://\\S+", text, "");
    let spaced = replace_all("\\s+", no_urls.as_str(), " ");
    let chars = str_to_chars(spaced.as_str());
    let trimmed = trim_chars(chars.as_slice());
    chars_to_string(trimmed.as_slice())
}

/// What is read for each message.
#[derive(Debug, Clone, Copy)]
pub struct TtsReadingOptions {
    /// Read the author's name.
    pub read_author_name: bool,
    /// Add さん after the author's name.
    pub add_honorific: bool,
    /// Drop a leading `@` of the author's handle.
    pub strip_at_prefix: bool,
    /// Drop a trailing `-xxx` suffix (three lower-case letters or digits) of
    /// the author's handle.
    pub strip_handle_suffix: bool,
    /// Read the amount of paid messages and the membership event.
    pub read_superchat_amount: bool,
    /// Longest text read, in characters.
    pub max_text_length: usize,
}

/// Parts joined by `、`.
pub open spec fn join_comma(parts: Seq<Seq<char>>) -> Seq<char>
    decreases parts.len(),
{
    if parts.len() == 0 {
        Seq::empty()
    } else if parts.len() == 1 {
        parts[0]
    } else {
        join_comma(parts.drop_last()) + "、"@ + parts.last()
    }
}

/// The announcement of a message's kind, if it has one.
pub open spec fn kind_announcement(t: MessageType) -> Option<Seq<char>> {
    match t {
        MessageType::SuperChat { amount } => Some(amount@ + "のスーパーチャット"@),
        MessageType::SuperSticker { amount } => Some(amount@ + "のスーパーステッカー"@),
        MessageType::Membership { milestone_months } => match milestone_months {
            Some(m) => Some(decimal(m as nat) + "ヶ月のメンバーシップ"@),
            None => Some("メンバー加入"@),
        },
        MessageType::MembershipGift { gift_count } => Some(
            decimal(gift_count as nat) + "人へのメンバーシップギフト"@,
        ),
        _ => None,
    }
}

/// The parts read for a message, in order, with `author` as the spoken name
/// (none when names are not read).
pub open spec fn reading_parts_from(options: TtsReadingOptions, author: Option<Seq<char>>, m: GuiChatMessage) -> Seq<Seq<char>> {
    let p1: Seq<Seq<char>> = match author {
        Some(a) => seq![a],
        None => Seq::empty(),
    };
    let p2 = if options.read_superchat_amount {
        match kind_announcement(m.message_type) {
            Some(a) => p1.push(a),
            None => p1,
        }
    } else {
        p1
    };
    let c = reading_text(m.content@);
    if c.len() > 0 { p2.push(c) } else { p2 }
}

/// A text cut to at most `max` characters.
pub open spec fn cut_text(t: Seq<char>, max: usize) -> Seq<char> {
    if t.len() > max { t.take(max as int) } else { t }
}

/// The parts read for a message by the plugin, in order.
pub open spec fn reading_parts(options: TtsReadingOptions, m: GuiChatMessage) -> Seq<Seq<char>> {
    reading_parts_from(options, if options.read_author_name { Some(m.author@) } else { None }, m)
}

/// The text read for a message: its parts joined by `、`, cut to the
/// longest allowed number of characters.
pub open spec fn reading_of(options: TtsReadingOptions, m: GuiChatMessage) -> Seq<char> {
    cut_text(join_comma(reading_parts(options, m)), options.max_text_length)
}

/// The text read for a message with `author` as the spoken name.
fn compose_reading(options: &TtsReadingOptions, author: Option<&str>, message: &GuiChatMessage) -> (r:
    String)
    ensures
        r@ == cut_text(
            join_comma(
                reading_parts_from(
                    *options,
                    match author {
                        Some(a) => Some(a@),
                        None => None,
                    },
                    *message,
                ),
            ),
            options.max_text_length,
        ),
{
    let ghost parts = reading_parts_from(
        *options,
        match author {
            Some(a) => Some(a@),
            None => None,
        },
        *message,
    );
    let ghost mut done: Seq<Seq<char>> = Seq::empty();
    let mut out = String::new();
    let mut any = false;
    match author {
        Some(a) => {
            push_str(&mut out, a);
            any = true;
            proof {
                done = done.push(a@);
                assert(out@ =~= join_comma(done));
            }
        },
        None => {},
    }
    assert(any == (done.len() > 0));
    if options.read_superchat_amount {
        let mut part = String::new();
        let mut has = true;
        match &message.message_type {
            MessageType::SuperChat { amount } => {
                push_str(&mut part, amount.as_str());
                push_str(&mut part, "のスーパーチャット");
            },
            MessageType::SuperSticker { amount } => {
                push_str(&mut part, amount.as_str());
                push_str(&mut part, "のスーパーステッカー");
            },
            MessageType::Membership { milestone_months } => {
                match milestone_months {
                    Some(m) => {
                        push_decimal(&mut part, *m as u64);
                        push_str(&mut part, "ヶ月のメンバーシップ");
                    },
                    None => {
                        push_str(&mut part, "メンバー加入");
                    },
                }
            },
            MessageType::MembershipGift { gift_count } => {
                push_decimal(&mut part, *gift_count as u64);
                push_str(&mut part, "人へのメンバーシップギフト");
            },
            _ => {
                has = false;
            },
        }
        if has {
            let ghost prev = done;
            if any {
                push_str(&mut out, "、");
            }
            push_str(&mut out, part.as_str());
            any = true;
            proof {
                done = done.push(part@);
                assert(done.drop_last() =~= prev);
                assert(out@ =~= join_comma(done));
            }
        }
    }
    let content = sanitize_text(message.content.as_str());
    let cchars = str_to_chars(content.as_str());
    assert(any == (done.len() > 0));
    if cchars.len() > 0 {
        let ghost prev = done;
        if any {
            push_str(&mut out, "、");
        }
        push_str(&mut out, content.as_str());
        proof {
            done = done.push(content@);
            assert(done.drop_last() =~= prev);
            assert(out@ =~= join_comma(done));
        }
    }
    assert(done =~= parts);
    let all = str_to_chars(out.as_str());
    if all.len() > options.max_text_length {
        let mut cut: Vec<char> = Vec::new();
        let mut i: usize = 0;
        while i < options.max_text_length
            invariant
                i <= options.max_text_length < all@.len(),
                cut@ == all@.take(i as int),
            decreases options.max_text_length - i,
        {
            cut.push(all[i]);
            assert(all@.take(i as int).push(all@[i as int]) =~= all@.take(i + 1));
            i += 1;
        }
        chars_to_string(cut.as_slice())
    } else {
        out
    }
}

/// The text read for a message.
pub fn format_message(options: &TtsReadingOptions, message: &GuiChatMessage) -> (r: String)
    ensures
        r@ == reading_of(*options, *message),
{
    if options.read_author_name {
        compose_reading(options, Some(message.author.as_str()), message)
    } else {
        compose_reading(options, None, message)
    }
}

/// The handle-suffix pattern: a hyphen and three lower-case letters or
/// digits at the end.
pub open spec fn handle_suffix_pattern() -> Seq<char> {
    "-[0-9a-z]{3}$"@
}

/// An author's name as spoken: without a leading `@` and without the
/// handle suffix, as the options ask.
pub open spec fn processed_author(options: TtsReadingOptions, name: Seq<char>) -> Seq<char> {
    let a = if options.strip_at_prefix && name.len() > 0 && name[0] == '@' {
        name.drop_first()
    } else {
        name
    };
    if options.strip_handle_suffix {
        if regex_compiles(handle_suffix_pattern()) {
            regex_replaced_first(handle_suffix_pattern(), a, ""@)
        } else {
            a
        }
    } else {
        a
    }
}

/// An author's name as spoken, as the options ask.
pub fn process_author_name(options: &TtsReadingOptions, name: &str) -> (r: String)
    ensures
        r@ == processed_author(*options, name@),
{
    let chars = str_to_chars(name);
    let stripped = if options.strip_at_prefix && chars.len() > 0 && chars[0] == '@' {
        let rest = crate::text::copy_range(chars.as_slice(), 1, chars.len());
        assert(rest@ =~= name@.drop_first());
        chars_to_string(rest.as_slice())
    } else {
        String::from_str(name)
    };
    if options.strip_handle_suffix {
        replace_first("-[0-9a-z]{3}$", stripped.as_str(), "")
    } else {
        stripped
    }
}

/// The name spoken for a message's author: the viewer's registered reading
/// when there is one, else the processed name; with さん when asked.
pub open spec fn spoken_author(options: TtsReadingOptions, reading: Option<Seq<char>>, name: Seq<char>) -> Seq<char> {
    let base = match reading {
        Some(r) => r,
        None => processed_author(options, name),
    };
    if options.add_honorific { base + "さん"@ } else { base }
}

/// The text read for a message when viewers may have registered readings
/// of their names: `viewer_reading` is the reading registered for the
/// message's channel, if any.
pub fn format_viewer_message(options: &TtsReadingOptions, viewer_reading: Option<&str>, message: &GuiChatMessage) -> (r: String)
    ensures
        r@ == cut_text(
            join_comma(
                reading_parts_from(
                    *options,
                    if options.read_author_name {
                        Some(
                            spoken_author(
                                *options,
                                match viewer_reading {
                                    Some(v) => Some(v@),
                                    None => None,
                                },
                                message.author@,
                            ),
                        )
                    } else {
                        None
                    },
                    *message,
                ),
            ),
            options.max_text_length,
        ),
{
    if options.read_author_name {
        let mut name = match viewer_reading {
            Some(v) => String::from_str(v),
            None => process_author_name(options, message.author.as_str()),
        };
        if options.add_honorific {
            push_str(&mut name, "さん");
        }
        compose_reading(options, Some(name.as_str()), message)
    } else {
        compose_reading(options, None, message)
    }
}

/// Description of the speech plugin; `enabled` is whether speech is on.
pub fn plugin_info(enabled: bool) -> (i: PluginInfo)
    ensures
        i.id@ == "tts"@,
        i.name@ == "TTS読み上げプラグイン"@,
        i.version@ == "1.0.0"@,
        i.description@ == "棒読みちゃん/VOICEVOX連携でチャットメッセージを音声読み上げ"@,
        i.author@ == "Liscov Team"@,
        i.enabled == enabled,
        i.dependencies@.len() == 0,
{
    PluginInfo {
        id: String::from_str("tts"),
        name: String::from_str("TTS読み上げプラグイン"),
        version: String::from_str("1.0.0"),
        description: String::from_str("棒読みちゃん/VOICEVOX連携でチャットメッセージを音声読み上げ"),
        author: String::from_str("Liscov Team"),
        enabled,
        dependencies: Vec::new(),
    }
}

/// The BouyomiChan address probed to test the connection.
pub fn bouyomichan_probe_url(config: &BouyomichanConfig) -> (r: String)
    ensures
        r@ == "http://"@ + config.host@ + ":"@ + decimal(config.port as nat) + "/Talk?text="@,
{
    let mut s = String::from_str("http://");
    push_str(&mut s, config.host.as_str());
    push_str(&mut s, ":");
    push_decimal(&mut s, config.port as u64);
    push_str(&mut s, "/Talk?text=");
    s
}

/// The VOICEVOX server at `host:port`, as a URL prefix.
pub open spec fn voicevox_base(host: Seq<char>, port: u16) -> Seq<char> {
    "http://"@ + host + ":"@ + decimal(port as nat)
}

/// The VOICEVOX request that makes the reading query of `text` for a speaker.
pub fn voicevox_audio_query_url(host: &str, port: u16, speaker_id: i32, text: &str) -> (r: String)
    ensures
        r@ == voicevox_base(host@, port) + "/audio_query?speaker="@ + signed_decimal(
            speaker_id as int,
        ) + "&text="@ + url_encode_bytes(encode_utf8(text@)),
{
    let mut s = String::from_str("http://");
    push_str(&mut s, host);
    push_str(&mut s, ":");
    push_decimal(&mut s, port as u64);
    push_str(&mut s, "/audio_query?speaker=");
    push_decimal_i64(&mut s, speaker_id as i64);
    push_str(&mut s, "&text=");
    let enc = url_encode(text);
    push_str(&mut s, enc.as_str());
    s
}

/// The VOICEVOX request that synthesises speech for a speaker.
pub fn voicevox_synthesis_url(host: &str, port: u16, speaker_id: i32) -> (r: String)
    ensures
        r@ == voicevox_base(host@, port) + "/synthesis?speaker="@ + signed_decimal(speaker_id as int),
{
    let mut s = String::from_str("http://");
    push_str(&mut s, host);
    push_str(&mut s, ":");
    push_decimal(&mut s, port as u64);
    push_str(&mut s, "/synthesis?speaker=");
    push_decimal_i64(&mut s, speaker_id as i64);
    s
}

/// The VOICEVOX address asked for its version to test the connection.
pub fn voicevox_version_url(host: &str, port: u16) -> (r: String)
    ensures
        r@ == voicevox_base(host@, port) + "/version"@,
{
    let mut s = String::from_str("http://");
    push_str(&mut s, host);
    push_str(&mut s, ":");
    push_decimal(&mut s, port as u64);
    push_str(&mut s, "/version");
    s
}

/// Every paid message (Super Chat or Super Sticker) is read with the
/// priority of a Super Chat, every membership message (joining or gift)
/// with that of a membership, and every other message with normal priority.
/// (`get_priority` answers `message_priority` of the message's type.)
pub proof fn lemma_paid_messages_read_first(t: MessageType)
    ensures
        (t is SuperChat || t is SuperSticker) ==> message_priority(t) == TtsPriority::SuperChat,
        (t is Membership || t is MembershipGift) ==> message_priority(t) == TtsPriority::Membership,
        !(t is SuperChat || t is SuperSticker || t is Membership || t is MembershipGift) ==> message_priority(t)
            == TtsPriority::Normal,
{
}

} // verus!
