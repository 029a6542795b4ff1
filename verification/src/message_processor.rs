//! Cleaning of chat message text, spam detection and emoji counting.
use vstd::prelude::*;

use crate::models::{GuiChatMessage, MessageType};
use crate::text::{
    all_space, byte_len, chars_all_space, chars_byte_len, chars_to_string, char_is_control,
    is_control_char, is_char_boundary, lowercase, seq_contains, str_contains, str_eq, str_to_chars,
    string_push, to_lowercase, trim_chars, trim_seq, truncate_bytes, truncate_chars,
};
use crate::traits::{MessageFilterConfig, MessageStatistics, ProcessingError};

verus! {

/// Settings of the message processor.
#[derive(Debug, Clone)]
pub struct MessageProcessorConfig {
    /// Longest message content kept, in bytes.
    pub max_message_length: usize,
    pub enable_emoji_conversion: bool,
    pub enable_url_detection: bool,
    pub enable_spam_filter: bool,
    pub enable_duplicate_detection: bool,
}

impl Default for MessageProcessorConfig {
    fn default() -> (c: Self)
        ensures
            c.max_message_length == 1000,
            c.enable_emoji_conversion,
            c.enable_url_detection,
            !c.enable_spam_filter,
            !c.enable_duplicate_detection,
    {
        MessageProcessorConfig {
            max_message_length: 1000,
            enable_emoji_conversion: true,
            enable_url_detection: true,
            enable_spam_filter: false,
            enable_duplicate_detection: false,
        }
    }
}

/// `s` without its control characters; with `keep_breaks`, line feeds and
/// tabs stay.
pub open spec fn strip_controls(s: Seq<char>, keep_breaks: bool) -> Seq<char>
    decreases s.len(),
{
    if s.len() == 0 {
        s
    } else {
        let c = s.last();
        let rest = strip_controls(s.drop_last(), keep_breaks);
        if is_control_char(c) && !(keep_breaks && (c == '\n' || c == '\t')) {
            rest
        } else {
            rest.push(c)
        }
    }
}

/// The content `content` becomes: cut to `max` bytes with `...` appended
/// when longer, then stripped of control characters other than line feeds
/// and tabs.
pub open spec fn cleaned_content(content: Seq<char>, max: usize) -> Seq<char> {
    let t = if byte_len(content) > max {
        truncate_bytes(content, max as int) + "..."@
    } else {
        content
    };
    strip_controls(t, true)
}

/// The author name `author` becomes: trimmed, `Unknown` when empty, cut to
/// 100 bytes, stripped of control characters.
pub open spec fn cleaned_author(author: Seq<char>) -> Seq<char> {
    let t = trim_seq(author);
    let u = if t.len() == 0 { "Unknown"@ } else { t };
    let v = if byte_len(u) > 100 { truncate_bytes(u, 100) } else { u };
    strip_controls(v, false)
}

/// The longest run of equal neighbouring characters in `s` is longer than
/// ten characters.
pub open spec fn has_long_run(s: Seq<char>) -> bool {
    exists|i: int| 0 <= i && i + 11 <= s.len() && #[trigger] run_at(s, i)
}

/// The eleven characters of `s` from position `i` are all equal.
pub open spec fn run_at(s: Seq<char>, i: int) -> bool {
    forall|j: int| i <= j < i + 11 ==> #[trigger] s[j] == s[i]
}

/// Whether `c` is upper-case, as `char::is_uppercase` decides.
pub uninterp spec fn unicode_uppercase(c: char) -> bool;

/// Whether `c` is alphabetic, as `char::is_alphabetic` decides.
pub uninterp spec fn unicode_alphabetic(c: char) -> bool;

/// Calls `char::is_uppercase`; the result is named `unicode_uppercase`.
#[verifier::external_body]
fn char_is_uppercase(c: char) -> (r: bool)
    ensures
        r == unicode_uppercase(c),
{
    c.is_uppercase()
}

/// Calls `char::is_alphabetic`; the result is named `unicode_alphabetic`.
#[verifier::external_body]
fn char_is_alphabetic(c: char) -> (r: bool)
    ensures
        r == unicode_alphabetic(c),
{
    c.is_alphabetic()
}

/// Number of upper-case characters in `s`.
pub open spec fn uppercase_count(s: Seq<char>) -> nat
    decreases s.len(),
{
    if s.len() == 0 {
        0
    } else {
        uppercase_count(s.drop_last()) + if unicode_uppercase(s.last()) { 1nat } else { 0nat }
    }
}

/// Number of alphabetic characters in `s`.
pub open spec fn alphabetic_count(s: Seq<char>) -> nat
    decreases s.len(),
{
    if s.len() == 0 {
        0
    } else {
        alphabetic_count(s.drop_last()) + if unicode_alphabetic(s.last()) { 1nat } else { 0nat }
    }
}

/// More than four fifths of the letters of `s` are upper-case.
pub open spec fn mostly_uppercase(s: Seq<char>) -> bool {
    alphabetic_count(s) > 0 && 5 * uppercase_count(s) > 4 * alphabetic_count(s)
}

/// A character in one of the emoji blocks the processor counts.
pub open spec fn is_emoji(c: char) -> bool {
    let u = c as u32;
    (0x1F600 <= u <= 0x1F64F) || (0x1F300 <= u <= 0x1F5FF) || (0x1F680 <= u <= 0x1F6FF) || (0x2600
        <= u <= 0x26FF) || (0x2700 <= u <= 0x27BF)
}

/// Number of emoji characters in `s`.
pub open spec fn emoji_count(s: Seq<char>) -> nat
    decreases s.len(),
{
    if s.len() == 0 {
        0
    } else {
        emoji_count(s.drop_last()) + if is_emoji(s.last()) { 1nat } else { 0nat }
    }
}

proof fn lemma_count_bounds(s: Seq<char>)
    ensures
        emoji_count(s) <= s.len(),
        uppercase_count(s) <= s.len(),
        alphabetic_count(s) <= s.len(),
    decreases s.len(),
{
    if s.len() > 0 {
        lemma_count_bounds(s.drop_last());
    }
}

/// `v` without control characters (keeping line feeds and tabs when asked).
fn strip_control_chars(v: &[char], keep_breaks: bool) -> (r: Vec<char>)
    ensures
        r@ == strip_controls(v@, keep_breaks),
{
    let mut r: Vec<char> = Vec::new();
    let mut i: usize = 0;
    while i < v.len()
        invariant
            i <= v@.len(),
            r@ == strip_controls(v@.take(i as int), keep_breaks),
        decreases v.len() - i,
    {
        let c = v[i];
        assert(v@.take(i + 1).drop_last() =~= v@.take(i as int));
        if !(char_is_control(c) && !(keep_breaks && (c == '\n' || c == '\t'))) {
            r.push(c);
        }
        i += 1;
    }
    assert(v@.take(v@.len() as int) =~= v@);
    r
}

/// Whether the view settings `c` show the message `m`: system, paid and
/// membership messages only when included, and the author's name and the
/// text containing the filters, if set, in any case.
pub open spec fn passes_filter(c: MessageFilterConfig, m: GuiChatMessage) -> bool {
    &&& (c.include_system_messages || !(m.message_type is System))
    &&& (c.include_super_chat || !(m.message_type is SuperChat))
    &&& (c.include_membership || !(m.message_type is Membership))
    &&& (c.author_filter matches Some(a) ==> seq_contains(lowercase(m.author@), lowercase(a@)))
    &&& (c.content_filter matches Some(f) ==> seq_contains(lowercase(m.content@), lowercase(f@)))
}

/// The digits and points of `s`, in order.
pub open spec fn numeric_chars(s: Seq<char>) -> Seq<char>
    decreases s.len(),
{
    if s.len() == 0 {
        s
    } else if ('0' <= s.last() <= '9') || s.last() == '.' {
        numeric_chars(s.drop_last()).push(s.last())
    } else {
        numeric_chars(s.drop_last())
    }
}

/// The characters of each string.
pub open spec fn author_names(v: Seq<String>) -> Seq<Seq<char>> {
    v.map_values(|s: String| s@)
}

/// The amount text of a paid message reduced to its digits and points
/// (`"¥1,500"` gives `"1500"`), ready to be read as a number; a format
/// error when nothing numeric is left.
pub fn amount_number_text(amount_str: &str) -> (r: Result<String, ProcessingError>)
    ensures
        match r {
            Ok(t) => numeric_chars(amount_str@).len() > 0 && t@ == numeric_chars(amount_str@),
            Err(e) => numeric_chars(amount_str@).len() == 0 && (e matches ProcessingError::Format(d)
                && d@ == "No numeric content found"@),
        },
{
    let chars = str_to_chars(amount_str);
    let mut t = String::new();
    let mut i: usize = 0;
    while i < chars.len()
        invariant
            i <= chars@.len(),
            chars@ == amount_str@,
            t@ == numeric_chars(chars@.take(i as int)),
        decreases chars.len() - i,
    {
        let c = chars[i];
        assert(chars@.take(i as int + 1).drop_last() =~= chars@.take(i as int));
        if ('0' <= c && c <= '9') || c == '.' {
            string_push(&mut t, c);
        }
        i += 1;
    }
    assert(chars@.take(chars@.len() as int) =~= chars@);
    if t.unicode_len() == 0 {
        Err(ProcessingError::Format(String::from_str("No numeric content found")))
    } else {
        Ok(t)
    }
}

/// Whether `name` is among `names`.
fn contains_name(names: &Vec<String>, name: &str) -> (r: bool)
    ensures
        r == author_names(names@).contains(name@),
{
    let mut i: usize = 0;
    while i < names.len()
        invariant
            i <= names@.len(),
            forall|j: int| 0 <= j < i ==> names@[j]@ != name@,
        decreases names.len() - i,
    {
        if str_eq(names[i].as_str(), name) {
            assert(author_names(names@)[i as int] == name@);
            return true;
        }
        i += 1;
    }
    proof {
        if author_names(names@).contains(name@) {
            let j = choose|j: int| 0 <= j < author_names(names@).len() && author_names(names@)[j] == name@;
            assert(names@[j]@ == name@);
        }
    }
    false
}

/// The default message processor.
#[derive(Debug, Clone)]
pub struct DefaultMessageProcessor {
    config: MessageProcessorConfig,
}

impl DefaultMessageProcessor {
    /// The processor's settings.
    pub closed spec fn settings(&self) -> MessageProcessorConfig {
        self.config
    }

    /// A processor with the default settings.
    pub fn new() -> (p: Self)
        ensures
            p.settings().max_message_length == 1000,
            p.settings().enable_emoji_conversion,
            p.settings().enable_url_detection,
            !p.settings().enable_spam_filter,
            !p.settings().enable_duplicate_detection,
    {
        DefaultMessageProcessor { config: MessageProcessorConfig::default() }
    }

    /// A processor with the given settings.
    pub fn with_config(config: MessageProcessorConfig) -> (p: Self)
        ensures
            p.settings() == config,
    {
        DefaultMessageProcessor { config }
    }

    /// The processor's settings.
    pub fn get_config(&self) -> (c: &MessageProcessorConfig)
        ensures
            *c == self.settings(),
    {
        &self.config
    }

    /// Replaces the settings.
    pub fn update_config(&mut self, config: MessageProcessorConfig)
        ensures
            final(self).settings() == config,
    {
        self.config = config;
    }

    /// Cleans a message's content; content that is empty or only whitespace
    /// after cleaning is a validation error.
    pub fn sanitize_content(&self, content: &str) -> (r: Result<String, ProcessingError>)
        requires
            is_char_boundary(content@, self.settings().max_message_length as int),
        ensures
            match r {
                Ok(s) => !all_space(cleaned_content(content@, self.settings().max_message_length))
                    && s@ == cleaned_content(content@, self.settings().max_message_length),
                Err(e) => all_space(cleaned_content(content@, self.settings().max_message_length))
                    && (e matches ProcessingError::Validation(m) && m@ == "Empty message content"@),
            },
    {
        let chars = str_to_chars(content);
        let cut = truncate_chars(chars.as_slice(), self.config.max_message_length);
        let t: Vec<char> = if cut.len() < chars.len() {
            let mut t = cut;
            t.push('.');
            t.push('.');
            t.push('.');
            assert(t@ =~= truncate_bytes(content@, self.config.max_message_length as int) + "..."@) by {
                reveal_strlit("...");
            }
            assert(byte_len(content@) > self.config.max_message_length);
            t
        } else {
            assert(byte_len(content@) <= self.config.max_message_length);
            chars
        };
        assert(t@ == (if byte_len(content@) > self.config.max_message_length {
            truncate_bytes(content@, self.config.max_message_length as int) + "..."@
        } else {
            content@
        }));
        let stripped = strip_control_chars(t.as_slice(), true);
        if chars_all_space(stripped.as_slice()) {
            return Err(ProcessingError::Validation(String::from_str("Empty message content")));
        }
        Ok(chars_to_string(stripped.as_slice()))
    }

    /// Cleans an author name; this always succeeds.
    pub fn sanitize_author(&self, author: &str) -> (r: Result<String, ProcessingError>)
        requires
            ({
                let t = trim_seq(author@);
                is_char_boundary(if t.len() == 0 { "Unknown"@ } else { t }, 100)
            }),
        ensures
            r matches Ok(s) && s@ == cleaned_author(author@),
    {
        let chars = str_to_chars(author);
        let trimmed = trim_chars(chars.as_slice());
        let named: Vec<char> = if trimmed.len() == 0 {
            str_to_chars("Unknown")
        } else {
            trimmed
        };
        let cut = truncate_chars(named.as_slice(), 100);
        let stripped = strip_control_chars(cut.as_slice(), false);
        Ok(chars_to_string(stripped.as_slice()))
    }

    /// Whether the view settings `filter_config` show `message` (see
    /// `passes_filter`).
    pub fn filter_message(&self, message: &GuiChatMessage, filter_config: &MessageFilterConfig) -> (r: bool)
        ensures
            r == passes_filter(*filter_config, *message),
    {
        if !filter_config.include_system_messages {
            if let MessageType::System = message.message_type {
                return false;
            }
        }
        if !filter_config.include_super_chat {
            if let MessageType::SuperChat { .. } = message.message_type {
                return false;
            }
        }
        if !filter_config.include_membership {
            if let MessageType::Membership { .. } = message.message_type {
                return false;
            }
        }
        match &filter_config.author_filter {
            Some(author_filter) => {
                let author = to_lowercase(message.author.as_str());
                let wanted = to_lowercase(author_filter.as_str());
                if !str_contains(author.as_str(), wanted.as_str()) {
                    return false;
                }
            },
            None => {},
        }
        match &filter_config.content_filter {
            Some(content_filter) => {
                let content = to_lowercase(message.content.as_str());
                let wanted = to_lowercase(content_filter.as_str());
                if !str_contains(content.as_str(), wanted.as_str()) {
                    return false;
                }
            },
            None => {},
        }
        true
    }

    /// Counts `message` into `stats`: one more message, its author among
    /// the distinct authors, a paid or membership message, its length in
    /// bytes and its emoji.
    pub fn update_statistics(&self, message: &GuiChatMessage, stats: &mut MessageStatistics)
        requires
            old(stats).total_messages < usize::MAX,
            old(stats).super_chat_count < usize::MAX,
            old(stats).membership_count < usize::MAX,
            old(stats).total_message_length + byte_len(message.content@) <= usize::MAX,
            old(stats).emoji_count + emoji_count(message.content@) <= usize::MAX,
        ensures
            final(stats).total_messages == old(stats).total_messages + 1,
            author_names(final(stats).unique_authors@) == (if author_names(
                old(stats).unique_authors@,
            ).contains(message.author@) {
                author_names(old(stats).unique_authors@)
            } else {
                author_names(old(stats).unique_authors@).push(message.author@)
            }),
            final(stats).super_chat_count == old(stats).super_chat_count + (if message.message_type is SuperChat
                || message.message_type is SuperSticker {
                1int
            } else {
                0int
            }),
            final(stats).membership_count == old(stats).membership_count + (if message.message_type is Membership {
                1int
            } else {
                0int
            }),
            final(stats).total_message_length == old(stats).total_message_length + byte_len(message.content@),
            final(stats).emoji_count == old(stats).emoji_count + (if self.settings().enable_emoji_conversion {
                emoji_count(message.content@)
            } else {
                0
            }),
    {
        stats.total_messages = stats.total_messages + 1;
        if !contains_name(&stats.unique_authors, message.author.as_str()) {
            let ghost before = stats.unique_authors@;
            stats.unique_authors.push(message.author.clone());
            assert(author_names(stats.unique_authors@) =~= author_names(before).push(message.author@));
        }
        match &message.message_type {
            MessageType::SuperChat { .. } | MessageType::SuperSticker { .. } => {
                stats.super_chat_count = stats.super_chat_count + 1;
            },
            MessageType::Membership { .. } => {
                stats.membership_count = stats.membership_count + 1;
            },
            _ => {},
        }
        let chars = str_to_chars(message.content.as_str());
        let len = chars_byte_len(&chars);
        stats.total_message_length = stats.total_message_length + len;
        let emoji = self.count_emojis(message.content.as_str());
        stats.emoji_count = stats.emoji_count + emoji;
    }

    /// Whether the message looks like spam: with the spam filter enabled,
    /// its lower-case content has a run of more than ten equal characters,
    /// or more than four fifths of its letters are upper-case.
    pub fn is_spam(&self, message: &GuiChatMessage) -> (r: bool)
        ensures
            r == (self.settings().enable_spam_filter && (has_long_run(lowercase(message.content@))
                || mostly_uppercase(message.content@))),
    {
        if !self.config.enable_spam_filter {
            return false;
        }
        let lower = to_lowercase(message.content.as_str());
        let lc = str_to_chars(lower.as_str());
        if has_run_of_eleven(lc.as_slice()) {
            return true;
        }
        let cs = str_to_chars(message.content.as_str());
        let (upper, letters) = letter_counts(cs.as_slice());
        letters > 0 && (upper as u128) * 5 > (letters as u128) * 4
    }

    /// Number of emoji characters in `content` (0 when emoji conversion is off).
    pub fn count_emojis(&self, content: &str) -> (n: usize)
        ensures
            n == (if self.settings().enable_emoji_conversion { emoji_count(content@) } else { 0 }),
    {
        if !self.config.enable_emoji_conversion {
            return 0;
        }
        let cs = str_to_chars(content);
        let mut n: usize = 0;
        let mut i: usize = 0;
        while i < cs.len()
            invariant
                i <= cs@.len(),
                n == emoji_count(cs@.take(i as int)),
            decreases cs.len() - i,
        {
            proof {
                assert(cs@.take(i + 1).drop_last() =~= cs@.take(i as int));
                lemma_count_bounds(cs@.take(i as int));
            }
            let u = cs[i] as u32;
            if (0x1F600 <= u && u <= 0x1F64F) || (0x1F300 <= u && u <= 0x1F5FF) || (0x1F680 <= u && u
                <= 0x1F6FF) || (0x2600 <= u && u <= 0x26FF) || (0x2700 <= u && u <= 0x27BF) {
                n += 1;
            }
            i += 1;
        }
        assert(cs@.take(cs@.len() as int) =~= cs@);
        n
    }
}

impl Default for DefaultMessageProcessor {
    fn default() -> (p: Self)
        ensures
            p.settings().max_message_length == 1000,
            p.settings().enable_emoji_conversion,
            !p.settings().enable_spam_filter,
    {
        Self::new()
    }
}

/// Numbers of upper-case and of alphabetic characters in `v`.
pub(crate) fn letter_counts(v: &[char]) -> (r: (usize, usize))
    ensures
        r.0 == uppercase_count(v@),
        r.1 == alphabetic_count(v@),
{
    let mut upper: usize = 0;
    let mut letters: usize = 0;
    let mut i: usize = 0;
    while i < v.len()
        invariant
            i <= v@.len(),
            upper == uppercase_count(v@.take(i as int)),
            letters == alphabetic_count(v@.take(i as int)),
        decreases v.len() - i,
    {
        proof {
            assert(v@.take(i + 1).drop_last() =~= v@.take(i as int));
            lemma_count_bounds(v@.take(i as int));
        }
        if char_is_uppercase(v[i]) {
            upper += 1;
        }
        if char_is_alphabetic(v[i]) {
            letters += 1;
        }
        i += 1;
    }
    assert(v@.take(v@.len() as int) =~= v@);
    (upper, letters)
}

/// Whether `v` holds eleven equal characters in a row.
pub(crate) fn has_run_of_eleven(v: &[char]) -> (r: bool)
    ensures
        r == has_long_run(v@),
{
    if v.len() == 0 {
        return false;
    }
    let mut run: usize = 1;
    let mut i: usize = 1;
    while i < v.len()
        invariant
            1 <= i <= v@.len(),
            1 <= run <= i,
            run <= 10,
            forall|j: int| i - run <= j < i ==> #[trigger] v@[j] == v@[i - 1],
            i - run == 0 || v@[i - run - 1] != v@[i - 1],
            forall|k: int| 0 <= k && k + 11 <= i ==> !#[trigger] run_at(v@, k),
        decreases v.len() - i,
    {
        if v[i] == v[i - 1] {
            run += 1;
            if run >= 11 {
                assert(run_at(v@, i + 1 - 11));
                return true;
            }
        } else {
            run = 1;
        }
        assert forall|k: int| 0 <= k && k + 11 <= i + 1 implies !#[trigger] run_at(v@, k) by {
            if k + 11 == i + 1 {
                if run_at(v@, k) {
                    if v@[i as int] == v@[i - 1] {
                        assert(v@[i - run] == v@[k]);
                        assert(v@[i - run] == v@[i - 1]);
                    } else {
                        assert(v@[i as int] == v@[k]);
                        assert(v@[i - 1] == v@[k]);
                    }
                }
            }
        }
        i += 1;
    }
    false
}

/// Builder of message processors.
pub struct DefaultMessageProcessorFactory;

impl DefaultMessageProcessorFactory {
    /// A processor with the default settings.
    pub fn create_default() -> (p: DefaultMessageProcessor)
        ensures
            p.settings().max_message_length == 1000,
            p.settings().enable_emoji_conversion,
            p.settings().enable_url_detection,
            !p.settings().enable_spam_filter,
            !p.settings().enable_duplicate_detection,
    {
        DefaultMessageProcessor::new()
    }

    /// A processor with the given settings.
    pub fn create_with_config(config: MessageProcessorConfig) -> (p: DefaultMessageProcessor)
        ensures
            p.settings() == config,
    {
        DefaultMessageProcessor::with_config(config)
    }

    /// A processor with the spam filter and duplicate detection enabled.
    pub fn create_with_spam_filter() -> (p: DefaultMessageProcessor)
        ensures
            p.settings().max_message_length == 1000,
            p.settings().enable_emoji_conversion,
            p.settings().enable_url_detection,
            p.settings().enable_spam_filter,
            p.settings().enable_duplicate_detection,
    {
        let config = MessageProcessorConfig {
            enable_spam_filter: true,
            enable_duplicate_detection: true,
            ..MessageProcessorConfig::default()
        };
        DefaultMessageProcessor::with_config(config)
    }
}

} // verus!
