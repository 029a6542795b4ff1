//! Rule-based filtering of chat messages (blocked and required words,
//! length limits, links, emoji-only messages, spam), with the counts the
//! filter keeps.
use vstd::prelude::*;

use crate::message_processor::{
    alphabetic_count, has_long_run, has_run_of_eleven, letter_counts, uppercase_count,
};
use crate::models::{GuiChatMessage, MessageType};
use crate::patterns::{is_match, regex_found, replace_all, replaced_or_kept};
use crate::plugin_system::PluginInfo;
use crate::text::{
    all_space, chars_all_space, lowercase, seq_contains, str_contains, str_eq, str_to_chars,
    to_lowercase,
};
use vstd::utf8::encode_utf8;

verus! {

/// The distinct words of a word list.
pub open spec fn word_set(words: Seq<String>) -> Set<Seq<char>> {
    Set::new(|w: Seq<char>| exists|i: int| 0 <= i < words.len() && #[trigger] words[i]@ == w)
}

/// Settings of the message filter. The word lists are sets: only which
/// words they hold matters.
#[derive(Debug, Clone)]
pub struct FilterConfig {
    /// A message whose lower-case content contains one of these is blocked.
    pub blocked_words: Vec<String>,
    /// When not empty, a message must contain one of these to pass.
    pub required_words: Vec<String>,
    pub spam_filter_enabled: bool,
    /// Shortest content let through, in bytes.
    pub min_message_length: usize,
    /// Longest content let through, in bytes.
    pub max_message_length: usize,
    /// Block messages made only of emoji and whitespace.
    pub filter_emoji_only: bool,
    /// Block messages that hold a link.
    pub filter_urls: bool,
    /// Super Chats and Super Stickers always pass.
    pub always_allow_superchat: bool,
    /// Messages of channel members always pass.
    pub always_allow_members: bool,
}

impl Default for FilterConfig {
    fn default() -> (c: Self)
        ensures
            c.blocked_words@.len() == 0,
            c.required_words@.len() == 0,
            c.spam_filter_enabled,
            c.min_message_length == 1,
            c.max_message_length == 1000,
            !c.filter_emoji_only,
            !c.filter_urls,
            c.always_allow_superchat,
            !c.always_allow_members,
    {
        FilterConfig {
            blocked_words: Vec::new(),
            required_words: Vec::new(),
            spam_filter_enabled: true,
            min_message_length: 1,
            max_message_length: 1000,
            filter_emoji_only: false,
            filter_urls: false,
            always_allow_superchat: true,
            always_allow_members: false,
        }
    }
}

/// Adds `word` to a word list unless it is there; says whether it was added.
fn insert_word(words: &mut Vec<String>, word: String) -> (added: bool)
    ensures
        word_set(final(words)@) == word_set(old(words)@).insert(word@),
        added == !word_set(old(words)@).contains(word@),
{
    let mut i: usize = 0;
    while i < words.len()
        invariant
            i <= words@.len(),
            forall|j: int| 0 <= j < i ==> words@[j]@ != word@,
        decreases words.len() - i,
    {
        if str_eq(words[i].as_str(), word.as_str()) {
            assert(word_set(words@).contains(word@));
            assert(word_set(words@).insert(word@) =~= word_set(words@));
            return false;
        }
        i += 1;
    }
    assert(!word_set(words@).contains(word@));
    let ghost before = words@;
    words.push(word);
    assert(word_set(words@) =~= word_set(before).insert(before.push(word)[before.len() as int]@)) by {
        assert forall|w: Seq<char>| word_set(words@).contains(w) implies word_set(before).insert(
            words@[before.len() as int]@,
        ).contains(w) by {
            let i = choose|i: int| 0 <= i < words@.len() && #[trigger] words@[i]@ == w;
            if i < before.len() {
                assert(before[i]@ == w);
            }
        }
        assert forall|w: Seq<char>| word_set(before).insert(words@[before.len() as int]@).contains(
            w,
        ) implies word_set(words@).contains(w) by {
            if w != words@[before.len() as int]@ {
                let i = choose|i: int| 0 <= i < before.len() && #[trigger] before[i]@ == w;
                assert(words@[i]@ == w);
            }
        }
    }
    true
}

impl FilterConfig {
    /// Adds a blocked word; says whether it was new.
    pub fn insert_blocked_word(&mut self, word: String) -> (added: bool)
        ensures
            word_set(final(self).blocked_words@) == word_set(old(self).blocked_words@).insert(word@),
            added == !word_set(old(self).blocked_words@).contains(word@),
            final(self).required_words@ == old(self).required_words@,
            final(self).same_rules(*old(self)),
    {
        insert_word(&mut self.blocked_words, word)
    }

    /// Adds a required word; says whether it was new.
    pub fn insert_required_word(&mut self, word: String) -> (added: bool)
        ensures
            word_set(final(self).required_words@) == word_set(old(self).required_words@).insert(
                word@,
            ),
            added == !word_set(old(self).required_words@).contains(word@),
            final(self).blocked_words@ == old(self).blocked_words@,
            final(self).same_rules(*old(self)),
    {
        insert_word(&mut self.required_words, word)
    }

    /// The settings other than the word lists agree.
    pub open spec fn same_rules(self, other: FilterConfig) -> bool {
        &&& self.spam_filter_enabled == other.spam_filter_enabled
        &&& self.min_message_length == other.min_message_length
        &&& self.max_message_length == other.max_message_length
        &&& self.filter_emoji_only == other.filter_emoji_only
        &&& self.filter_urls == other.filter_urls
        &&& self.always_allow_superchat == other.always_allow_superchat
        &&& self.always_allow_members == other.always_allow_members
    }
}

/// Counts kept by the filter.
#[derive(Debug, Clone, Copy, PartialEq, Eq, Structural)]
pub struct FilterStats {
    /// Messages looked at.
    pub processed_count: usize,
    /// Messages blocked.
    pub blocked_count: usize,
    /// Messages let through.
    pub allowed_count: usize,
}

impl Default for FilterStats {
    fn default() -> (s: Self)
        ensures
            s == (FilterStats { processed_count: 0, blocked_count: 0, allowed_count: 0 }),
    {
        FilterStats { processed_count: 0, blocked_count: 0, allowed_count: 0 }
    }
}

/// The link pattern of the filter.
pub open spec fn link_pattern() -> Seq<char> {
    "https?://[^\\s]+"@
}

/// The emoji pattern of the filter: one character of the emoji blocks.
pub open spec fn emoji_pattern() -> Seq<char> {
    "[\\u{1F600}-\\u{1F64F}\\u{1F300}-\\u{1F5FF}\\u{1F680}-\\u{1F6FF}\\u{2600}-\\u{26FF}\\u{2700}-\\u{27BF}]"@
}

/// Some word of `words`, in lower case, occurs in `text`.
pub open spec fn any_word_in(words: Seq<String>, text: Seq<char>) -> bool {
    exists|i: int| 0 <= i < words.len() && seq_contains(text, lowercase(#[trigger] words[i]@))
}

/// The spam test of the filter: a run of more than ten equal characters
/// (the scan starts as if a NUL character came first), or more than five
/// letters of which more than four fifths are upper-case.
pub open spec fn likely_spam(s: Seq<char>) -> bool {
    has_long_run(seq!['\0'] + s) || (alphabetic_count(s) > 5 && 5 * uppercase_count(s) > 4
        * alphabetic_count(s))
}

/// Length of a text in bytes of UTF-8.
pub open spec fn utf8_len(s: Seq<char>) -> nat {
    encode_utf8(s).len()
}

/// Whether the filter with settings `config` blocks `m`. The rules are
/// tried in order: paid messages and (when asked) members pass; then a
/// message is blocked for its length, a blocked word, a missing required
/// word, a link, being only emoji, or looking like spam.
pub open spec fn blocks(config: FilterConfig, m: GuiChatMessage) -> bool {
    let content = m.content@;
    let lower = lowercase(content);
    if config.always_allow_superchat && (m.message_type is SuperChat
        || m.message_type is SuperSticker) {
        false
    } else if config.always_allow_members && m.is_member {
        false
    } else if utf8_len(content) < config.min_message_length || utf8_len(content)
        > config.max_message_length {
        true
    } else if any_word_in(config.blocked_words@, lower) {
        true
    } else if config.required_words@.len() > 0 && !any_word_in(config.required_words@, lower) {
        true
    } else if config.filter_urls && regex_found(link_pattern(), content) {
        true
    } else if config.filter_emoji_only && all_space(replaced_or_kept(emoji_pattern(), content, ""@)) {
        true
    } else {
        config.spam_filter_enabled && likely_spam(content)
    }
}

/// Whether one of `words`, in lower case, occurs in `text`.
fn contains_any_word(words: &Vec<String>, text: &str) -> (r: bool)
    ensures
        r == any_word_in(words@, text@),
{
    let mut i: usize = 0;
    while i < words.len()
        invariant
            i <= words@.len(),
            forall|j: int| 0 <= j < i ==> !seq_contains(text@, lowercase(#[trigger] words@[j]@)),
        decreases words.len() - i,
    {
        let w = to_lowercase(words[i].as_str());
        if str_contains(text, w.as_str()) {
            assert(seq_contains(text@, lowercase(words@[i as int]@)));
            return true;
        }
        i += 1;
    }
    false
}

/// The message filter.
pub struct MessageFilterPlugin {
    config: FilterConfig,
    stats: FilterStats,
}

impl MessageFilterPlugin {
    /// The filter's settings.
    pub closed spec fn settings(&self) -> FilterConfig {
        self.config
    }

    /// The filter's counts.
    pub closed spec fn counts(&self) -> FilterStats {
        self.stats
    }

    /// A filter with the default settings and zero counts.
    pub fn new() -> (p: Self)
        ensures
            p.settings().blocked_words@.len() == 0,
            p.settings().required_words@.len() == 0,
            p.settings().spam_filter_enabled,
            p.settings().min_message_length == 1,
            p.settings().max_message_length == 1000,
            !p.settings().filter_emoji_only,
            !p.settings().filter_urls,
            p.settings().always_allow_superchat,
            !p.settings().always_allow_members,
            p.counts() == (FilterStats { processed_count: 0, blocked_count: 0, allowed_count: 0 }),
    {
        MessageFilterPlugin { config: FilterConfig::default(), stats: FilterStats::default() }
    }

    /// A filter with the default settings that blocks "spam", "bot", "fake"
    /// and "scam".
    pub fn with_default_blocked_words() -> (p: Self)
        ensures
            word_set(p.settings().blocked_words@) == set!["spam"@, "bot"@, "fake"@, "scam"@],
            p.settings().required_words@.len() == 0,
            p.settings().spam_filter_enabled,
            p.settings().min_message_length == 1,
            p.settings().max_message_length == 1000,
            !p.settings().filter_emoji_only,
            !p.settings().filter_urls,
            p.settings().always_allow_superchat,
            !p.settings().always_allow_members,
            p.counts() == (FilterStats { processed_count: 0, blocked_count: 0, allowed_count: 0 }),
    {
        let mut p = Self::new();
        let mut words: Vec<String> = Vec::new();
        insert_word(&mut words, String::from_str("spam"));
        insert_word(&mut words, String::from_str("bot"));
        insert_word(&mut words, String::from_str("fake"));
        insert_word(&mut words, String::from_str("scam"));
        proof {
            assert(word_set(Seq::<String>::empty()) =~= Set::<Seq<char>>::empty());
            assert(set!["spam"@, "bot"@, "fake"@, "scam"@] =~= Set::<Seq<char>>::empty().insert(
                "spam"@,
            ).insert("bot"@).insert("fake"@).insert("scam"@));
        }
        p.config.blocked_words = words;
        p
    }

    /// Description of this plugin.
    pub fn info(&self) -> (i: PluginInfo)
        ensures
            i.id@ == "message-filter"@,
            i.name@ == "Message Filter Plugin"@,
            i.version@ == "1.0.0"@,
            i.description@ == "Filters chat messages based on configurable rules"@,
            i.author@ == "Liscov Team"@,
            i.enabled,
            i.dependencies@.len() == 0,
    {
        PluginInfo {
            id: String::from_str("message-filter"),
            name: String::from_str("Message Filter Plugin"),
            version: String::from_str("1.0.0"),
            description: String::from_str("Filters chat messages based on configurable rules"),
            author: String::from_str("Liscov Team"),
            enabled: true,
            dependencies: Vec::new(),
        }
    }

    /// Whether the filter blocks `message`.
    pub fn should_filter_message(&self, message: &GuiChatMessage) -> (r: bool)
        ensures
            r == blocks(self.settings(), *message),
    {
        let config = &self.config;
        if config.always_allow_superchat {
            match &message.message_type {
                MessageType::SuperChat { .. } => return false,
                MessageType::SuperSticker { .. } => return false,
                _ => {},
            }
        }
        if config.always_allow_members && message.is_member {
            return false;
        }
        let len = message.content.as_str().as_bytes().len();
        if len < config.min_message_length || len > config.max_message_length {
            return true;
        }
        let lower = to_lowercase(message.content.as_str());
        if contains_any_word(&config.blocked_words, lower.as_str()) {
            return true;
        }
        if config.required_words.len() > 0 && !contains_any_word(
            &config.required_words,
            lower.as_str(),
        ) {
            return true;
        }
        if config.filter_urls && is_match("https?://[^\\s]+", message.content.as_str()) {
            return true;
        }
        if config.filter_emoji_only {
            let rest = replace_all(
                "[\\u{1F600}-\\u{1F64F}\\u{1F300}-\\u{1F5FF}\\u{1F680}-\\u{1F6FF}\\u{2600}-\\u{26FF}\\u{2700}-\\u{27BF}]",
                message.content.as_str(),
                "",
            );
            let rest_chars = str_to_chars(rest.as_str());
            if chars_all_space(rest_chars.as_slice()) {
                return true;
            }
        }
        config.spam_filter_enabled && self.is_likely_spam(message)
    }

    /// The spam test of the filter on a message's content.
    pub fn is_likely_spam(&self, message: &GuiChatMessage) -> (r: bool)
        ensures
            r == likely_spam(message.content@),
    {
        let cs = str_to_chars(message.content.as_str());
        let mut scan: Vec<char> = Vec::new();
        scan.push('\0');
        let mut i: usize = 0;
        while i < cs.len()
            invariant
                i <= cs@.len(),
                scan@ == seq!['\0'] + cs@.take(i as int),
            decreases cs.len() - i,
        {
            scan.push(cs[i]);
            assert(cs@.take(i + 1) =~= cs@.take(i as int).push(cs@[i as int]));
            i += 1;
        }
        assert(cs@.take(cs@.len() as int) =~= cs@);
        if has_run_of_eleven(scan.as_slice()) {
            return true;
        }
        let (upper, letters) = letter_counts(cs.as_slice());
        letters > 5 && (upper as u128) * 5 > (letters as u128) * 4
    }

    /// Sets the counts back to zero.
    pub fn reset_stats(&mut self)
        ensures
            final(self).counts() == (FilterStats {
                processed_count: 0,
                blocked_count: 0,
                allowed_count: 0,
            }),
            final(self).settings() == old(self).settings(),
    {
        self.stats = FilterStats::default();
    }

    /// The filter's counts.
    pub fn get_stats(&self) -> (s: FilterStats)
        ensures
            s == self.counts(),
    {
        self.stats
    }

    /// Replaces the settings; the counts stay.
    pub fn update_config(&mut self, config: FilterConfig)
        ensures
            final(self).settings() == config,
            final(self).counts() == old(self).counts(),
    {
        self.config = config;
    }

    /// Looks at one incoming message: counts it, as blocked or let through,
    /// and says whether it is blocked.
    pub fn process_message(&mut self, message: &GuiChatMessage) -> (blocked: bool)
        requires
            old(self).counts().processed_count < usize::MAX,
            old(self).counts().blocked_count < usize::MAX,
            old(self).counts().allowed_count < usize::MAX,
        ensures
            blocked == blocks(old(self).settings(), *message),
            final(self).settings() == old(self).settings(),
            final(self).counts().processed_count == old(self).counts().processed_count + 1,
            final(self).counts().blocked_count == old(self).counts().blocked_count + (if blocked {
                1int
            } else {
                0int
            }),
            final(self).counts().allowed_count == old(self).counts().allowed_count + (if blocked {
                0int
            } else {
                1int
            }),
    {
        let blocked = self.should_filter_message(message);
        self.stats.processed_count = self.stats.processed_count + 1;
        if blocked {
            self.stats.blocked_count = self.stats.blocked_count + 1;
        } else {
            self.stats.allowed_count = self.stats.allowed_count + 1;
        }
        blocked
    }

    /// Looks at a batch of incoming messages, in order; returns the channel
    /// identifiers of the blocked ones.
    pub fn process_messages(&mut self, messages: &[GuiChatMessage]) -> (ids: Vec<String>)
        requires
            old(self).counts().processed_count + messages@.len() <= usize::MAX,
            old(self).counts().blocked_count + messages@.len() <= usize::MAX,
            old(self).counts().allowed_count + messages@.len() <= usize::MAX,
        ensures
            ids@.map_values(|s: String| s@) == blocked_channels(old(self).settings(), messages@),
            final(self).settings() == old(self).settings(),
            final(self).counts().processed_count == old(self).counts().processed_count
                + messages@.len(),
            final(self).counts().blocked_count == old(self).counts().blocked_count + ids@.len(),
            final(self).counts().allowed_count == old(self).counts().allowed_count
                + messages@.len() - ids@.len(),
    {
        let mut ids: Vec<String> = Vec::new();
        let mut i: usize = 0;
        while i < messages.len()
            invariant
                i <= messages@.len(),
                self.settings() == old(self).settings(),
                ids@.map_values(|s: String| s@) == blocked_channels(
                    self.settings(),
                    messages@.take(i as int),
                ),
                ids@.len() <= i,
                self.counts().processed_count == old(self).counts().processed_count + i,
                self.counts().blocked_count == old(self).counts().blocked_count + ids@.len(),
                self.counts().allowed_count == old(self).counts().allowed_count + i - ids@.len(),
                old(self).counts().processed_count + messages@.len() <= usize::MAX,
                old(self).counts().blocked_count + messages@.len() <= usize::MAX,
                old(self).counts().allowed_count + messages@.len() <= usize::MAX,
            decreases messages.len() - i,
        {
            let ghost before = ids@;
            let blocked = self.process_message(&messages[i]);
            if blocked {
                ids.push(messages[i].channel_id.clone());
            }
            proof {
                assert(messages@.take(i + 1).drop_last() =~= messages@.take(i as int));
                assert(ids@.map_values(|s: String| s@) =~= if blocked {
                    before.map_values(|s: String| s@).push(messages@[i as int].channel_id@)
                } else {
                    before.map_values(|s: String| s@)
                });
            }
            i += 1;
        }
        assert(messages@.take(messages@.len() as int) =~= messages@);
        ids
    }
}

/// Channel identifiers of the messages of `ms` that the filter blocks, in order.
pub open spec fn blocked_channels(config: FilterConfig, ms: Seq<GuiChatMessage>) -> Seq<Seq<char>>
    decreases ms.len(),
{
    if ms.len() == 0 {
        Seq::empty()
    } else {
        let rest = blocked_channels(config, ms.drop_last());
        if blocks(config, ms.last()) {
            rest.push(ms.last().channel_id@)
        } else {
            rest
        }
    }
}

impl Default for MessageFilterPlugin {
    fn default() -> (p: Self)
        ensures
            p.settings().blocked_words@.len() == 0,
            p.settings().required_words@.len() == 0,
            p.counts() == (FilterStats { processed_count: 0, blocked_count: 0, allowed_count: 0 }),
    {
        Self::new()
    }
}

/// With `always_allow_superchat` set, no paid message (Super Chat or
/// Super Sticker) is blocked, whatever its content and the other rules; with
/// `always_allow_members` set, no member's message is.
/// (`should_filter_message` answers `blocks`.)
pub proof fn lemma_paid_and_member_messages_pass(config: FilterConfig, m: GuiChatMessage)
    ensures
        config.always_allow_superchat && (m.message_type is SuperChat || m.message_type is SuperSticker)
            ==> !blocks(config, m),
        config.always_allow_members && m.is_member ==> !blocks(config, m),
{
}

} // verus!
