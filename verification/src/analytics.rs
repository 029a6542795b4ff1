//! Chat statistics: messages counted by author, by kind and by hour of the
//! day, with the report schedule of the statistics plugin.
use vstd::prelude::*;

use crate::app_state::{CommentCounts, is_top, names_above};
use crate::clock::utc_now_micros;
use crate::models::GuiChatMessage;
use crate::plugin_system::PluginInfo;
use crate::text::{byte_len, chars_byte_len, str_to_chars, string_push};

verus! {

/// Settings of the statistics plugin.
#[derive(Debug, Clone)]
pub struct AnalyticsConfig {
    /// Whether messages are counted at all.
    pub enabled: bool,
    pub engagement_analysis: bool,
    pub sentiment_analysis: bool,
    /// Seconds between two reports.
    pub report_interval_seconds: u64,
    /// Days the data is kept.
    pub data_retention_days: u32,
    pub verbose_logging: bool,
}

/// The default settings: counting and engagement analysis on, a report
/// every five minutes, data kept thirty days.
pub open spec fn default_analytics_config() -> AnalyticsConfig {
    AnalyticsConfig {
        enabled: true,
        engagement_analysis: true,
        sentiment_analysis: false,
        report_interval_seconds: 300,
        data_retention_days: 30,
        verbose_logging: false,
    }
}

impl Default for AnalyticsConfig {
    fn default() -> (c: Self)
        ensures
            c == default_analytics_config(),
    {
        AnalyticsConfig {
            enabled: true,
            engagement_analysis: true,
            sentiment_analysis: false,
            report_interval_seconds: 300,
            data_retention_days: 30,
            verbose_logging: false,
        }
    }
}

/// The currency signs and separators dropped from an amount before it is
/// read as a number.
pub open spec fn is_amount_mark(c: char) -> bool {
    c == '¥' || c == '$' || c == '€' || c == '£' || c == ','
}

/// `s` without its currency signs and separators.
pub open spec fn strip_amount_marks(s: Seq<char>) -> Seq<char>
    decreases s.len(),
{
    if s.len() == 0 {
        s
    } else if is_amount_mark(s.last()) {
        strip_amount_marks(s.drop_last())
    } else {
        strip_amount_marks(s.drop_last()).push(s.last())
    }
}

/// The amount text of a paid message without currency signs and
/// separators (`"¥1,500"` gives `"1500"`), ready to be read as a number.
pub fn amount_digits(amount: &str) -> (r: String)
    ensures
        r@ == strip_amount_marks(amount@),
{
    let chars = str_to_chars(amount);
    let mut r = String::new();
    let mut i: usize = 0;
    while i < chars.len()
        invariant
            i <= chars@.len(),
            chars@ == amount@,
            r@ == strip_amount_marks(chars@.take(i as int)),
        decreases chars.len() - i,
    {
        let c = chars[i];
        assert(chars@.take(i as int + 1).drop_last() =~= chars@.take(i as int));
        if !(c == '¥' || c == '$' || c == '€' || c == '£' || c == ',') {
            string_push(&mut r, c);
        }
        i += 1;
    }
    assert(chars@.take(chars@.len() as int) =~= chars@);
    r
}

/// Microseconds in an hour.
pub const MICROS_PER_HOUR: u64 = 3_600_000_000;

/// The hour of the day (UTC, 0 to 23) of the instant `micros`
/// microseconds after the Unix epoch.
pub open spec fn utc_hour(micros: int) -> int {
    (micros / (MICROS_PER_HOUR as int)) % 24
}

/// The hour of the day (UTC) of the instant `micros` microseconds after the
/// Unix epoch; instants before the epoch count back from midnight.
pub fn hour_of(micros: i64) -> (h: u32)
    ensures
        h == utc_hour(micros as int),
        h < 24,
{
    let ghost d: int = MICROS_PER_HOUR as int;
    if micros >= 0 {
        let u = micros as u64;
        let q = u / MICROS_PER_HOUR;
        let h = q % 24;
        h as u32
    } else {
        let u = (-(micros + 1)) as u64;
        let q = u / MICROS_PER_HOUR;
        let b = q % 24;
        proof {
            let r = u % MICROS_PER_HOUR;
            assert(u == q * MICROS_PER_HOUR + r) by {
                vstd::arithmetic::div_mod::lemma_fundamental_div_mod(u as int, d);
            }
            vstd::arithmetic::div_mod::lemma_fundamental_div_mod_converse(
                micros as int,
                d,
                -(q as int) - 1,
                d - 1 - r,
            );
            let a = q / 24;
            assert(q == a * 24 + b) by {
                vstd::arithmetic::div_mod::lemma_fundamental_div_mod(q as int, 24);
            }
            vstd::arithmetic::div_mod::lemma_fundamental_div_mod_converse(
                -(q as int) - 1,
                24,
                -(a as int) - 1,
                23 - b,
            );
        }
        (23 - b) as u32
    }
}


/// Sum of the numbers in `s`.
pub open spec fn sum_u32(s: Seq<u32>) -> nat
    decreases s.len(),
{
    if s.len() == 0 {
        0
    } else {
        sum_u32(s.drop_last()) + s.last() as nat
    }
}

proof fn lemma_sum_u32_update(s: Seq<u32>, i: int, v: u32)
    requires
        0 <= i < s.len(),
    ensures
        sum_u32(s.update(i, v)) + s[i] == sum_u32(s) + v,
    decreases s.len(),
{
    let u = s.update(i, v);
    if i == s.len() - 1 {
        assert(u.drop_last() =~= s.drop_last());
    } else {
        assert(u.drop_last() =~= s.drop_last().update(i, v));
        lemma_sum_u32_update(s.drop_last(), i, v);
    }
}

proof fn lemma_u32_at_most_sum(s: Seq<u32>, i: int)
    requires
        0 <= i < s.len(),
    ensures
        s[i] <= sum_u32(s),
    decreases s.len(),
{
    if i < s.len() - 1 {
        assert(s.drop_last()[i] == s[i]);
        lemma_u32_at_most_sum(s.drop_last(), i);
    }
}

proof fn lemma_sum_u32_zeros(s: Seq<u32>)
    requires
        forall|i: int| 0 <= i < s.len() ==> s[i] == 0,
    ensures
        sum_u32(s) == 0,
    decreases s.len(),
{
    if s.len() > 0 {
        lemma_sum_u32_zeros(s.drop_last());
    }
}

/// A count of 24 zeros, one per hour of the day.
fn zero_hours() -> (v: Vec<u32>)
    ensures
        v@.len() == 24,
        forall|i: int| 0 <= i < 24 ==> v@[i] == 0,
        sum_u32(v@) == 0,
{
    let mut v: Vec<u32> = Vec::new();
    while v.len() < 24
        invariant
            v@.len() <= 24,
            forall|i: int| 0 <= i < v@.len() ==> v@[i] == 0,
        decreases 24 - v.len(),
    {
        v.push(0);
    }
    proof {
        lemma_sum_u32_zeros(v@);
    }
    v
}

/// Whole seconds in `d` microseconds, rounded toward zero.
pub open spec fn whole_seconds(d: int) -> int {
    if d >= 0 {
        d / 1_000_000
    } else {
        -((-d) / 1_000_000)
    }
}

/// The statistics plugin: what it has counted of the messages seen since
/// the last reset, its settings and its report schedule.
pub struct AnalyticsPlugin {
    config: AnalyticsConfig,
    users: CommentCounts,
    kinds: CommentCounts,
    hours: Vec<u32>,
    total_messages: u32,
    total_length: u64,
    first_message_micros: Option<i64>,
    last_message_micros: Option<i64>,
    session_start_micros: Option<i64>,
    last_report_micros: Option<i64>,
}

/// The statistics read out of the plugin at one moment.
#[derive(Debug, Clone)]
pub struct AnalyticsStats {
    pub total_messages: u32,
    /// Number of distinct authors.
    pub unique_viewers: usize,
    /// Number of authors with more than one message.
    pub active_viewers: usize,
    /// Messages of each kind ("text", "super-chat", ...), most frequent
    /// first.
    pub message_types: Vec<(String, u32)>,
    /// Messages in each hour of the day (UTC), from hour 0 to 23.
    pub hourly_distribution: Vec<u32>,
    /// Bytes of message text, summed.
    pub total_message_length: u64,
    pub first_message_micros: Option<i64>,
    pub last_message_micros: Option<i64>,
    /// The busiest hour, the earliest of equals; none before any message.
    pub peak_hour: Option<u32>,
    /// The ten most active authors with their message counts, most active
    /// first.
    pub top_chatters: Vec<(String, u32)>,
}

/// Whether `p` is the busiest hour of `hours` (the earliest of equals),
/// or none when no message was counted.
pub open spec fn is_peak(hours: Seq<u32>, p: Option<u32>) -> bool {
    match p {
        None => forall|h: int| 0 <= h < hours.len() ==> hours[h] == 0,
        Some(h) => {
            &&& 0 <= h < hours.len()
            &&& hours[h as int] > 0
            &&& forall|g: int| 0 <= g < hours.len() ==> hours[g] <= hours[h as int]
            &&& forall|g: int| 0 <= g < h ==> hours[g] < hours[h as int]
        },
    }
}

/// Whether `after` is `before` once the message `m` has been counted at
/// the instant `now` (microseconds after the Unix epoch): nothing changes
/// when counting is off; otherwise the message is added to its author, its
/// kind and the hour of `now`, and its length to the text length.
pub open spec fn counted_message(
    before: AnalyticsPlugin,
    after: AnalyticsPlugin,
    m: GuiChatMessage,
    now: i64,
) -> bool {
    if !before.config().enabled {
        after == before
    } else {
        let users = before.user_counts();
        let kinds = before.kind_counts();
        let kind = m.message_type.class_name();
        let h = utc_hour(now as int);
        &&& after.wf()
        &&& after.config() == before.config()
        &&& after.total_messages() == before.total_messages() + 1
        &&& after.user_counts() == users.insert(
            m.author@,
            (if users.contains_key(m.author@) { users[m.author@] + 1 } else { 1 }) as u32,
        )
        &&& after.kind_counts() == kinds.insert(
            kind,
            (if kinds.contains_key(kind) { kinds[kind] + 1 } else { 1 }) as u32,
        )
        &&& after.hour_counts() == before.hour_counts().update(h, (before.hour_counts()[h] + 1) as u32)
        &&& after.total_length() == (if before.total_length() + byte_len(m.content@) <= u64::MAX {
            before.total_length() + byte_len(m.content@)
        } else {
            u64::MAX as nat
        })
        &&& after.first_message_time() == (if before.first_message_time() is None {
            Some(now)
        } else {
            before.first_message_time()
        })
        &&& after.last_message_time() == Some(now)
        &&& after.session_start() == before.session_start()
        &&& after.last_report() == before.last_report()
    }
}

impl AnalyticsPlugin {
    pub closed spec fn config(&self) -> AnalyticsConfig {
        self.config
    }

    /// Messages counted by author.
    pub closed spec fn user_counts(&self) -> Map<Seq<char>, u32> {
        self.users.counts()
    }

    /// Messages counted by kind.
    pub closed spec fn kind_counts(&self) -> Map<Seq<char>, u32> {
        self.kinds.counts()
    }

    /// Messages counted by hour of the day (UTC).
    pub closed spec fn hour_counts(&self) -> Seq<u32> {
        self.hours@
    }

    pub closed spec fn total_messages(&self) -> nat {
        self.total_messages as nat
    }

    /// Bytes of message text counted (at most `u64::MAX`).
    pub closed spec fn total_length(&self) -> nat {
        self.total_length as nat
    }

    pub closed spec fn first_message_time(&self) -> Option<i64> {
        self.first_message_micros
    }

    pub closed spec fn last_message_time(&self) -> Option<i64> {
        self.last_message_micros
    }

    pub closed spec fn session_start(&self) -> Option<i64> {
        self.session_start_micros
    }

    pub closed spec fn last_report(&self) -> Option<i64> {
        self.last_report_micros
    }

    /// Every message is counted once by author, once by kind and once by
    /// hour: each of the three tallies sums to the number of messages.
    pub closed spec fn wf(&self) -> bool {
        &&& self.users.wf()
        &&& self.kinds.wf()
        &&& self.hours@.len() == 24
        &&& self.users.total() == self.total_messages
        &&& self.kinds.total() == self.total_messages
        &&& sum_u32(self.hours@) == self.total_messages
    }

    /// Nothing counted yet, default settings, no session and no report.
    pub fn new() -> (p: Self)
        ensures
            p.wf(),
            p.config() == default_analytics_config(),
            p.total_messages() == 0,
            p.user_counts() == Map::<Seq<char>, u32>::empty(),
            p.kind_counts() == Map::<Seq<char>, u32>::empty(),
            p.hour_counts() == Seq::new(24, |h: int| 0u32),
            p.total_length() == 0,
            p.first_message_time() is None,
            p.last_message_time() is None,
            p.session_start() is None,
            p.last_report() is None,
    {
        let p = AnalyticsPlugin {
            config: AnalyticsConfig::default(),
            users: CommentCounts::new(),
            kinds: CommentCounts::new(),
            hours: zero_hours(),
            total_messages: 0,
            total_length: 0,
            first_message_micros: None,
            last_message_micros: None,
            session_start_micros: None,
            last_report_micros: None,
        };
        assert(p.hour_counts() =~= Seq::new(24, |h: int| 0u32));
        p
    }

    /// Counts the message `message` seen at the instant `now_micros`
    /// (microseconds after the Unix epoch); nothing when counting is off.
    pub fn analyze_message_at(&mut self, message: &GuiChatMessage, now_micros: i64)
        requires
            old(self).wf(),
            old(self).total_messages() < u32::MAX,
            byte_len(message.content@) <= usize::MAX,
        ensures
            counted_message(*old(self), *final(self), *message, now_micros),
    {
        if !self.config.enabled {
            return;
        }
        proof {
            self.users.lemma_count_at_most_total(message.author@);
            self.kinds.lemma_count_at_most_total(message.message_type.class_name());
        }
        self.total_messages = self.total_messages + 1;
        self.users.record(message.author.as_str());
        let kind = message.message_type.as_string();
        self.kinds.record(kind.as_str());
        let h = hour_of(now_micros) as usize;
        let ghost hours0 = self.hours@;
        proof {
            lemma_u32_at_most_sum(hours0, h as int);
        }
        let c = self.hours[h];
        self.hours.set(h, c + 1);
        proof {
            lemma_sum_u32_update(hours0, h as int, (c + 1) as u32);
        }
        let chars = str_to_chars(message.content.as_str());
        let len = chars_byte_len(&chars) as u64;
        self.total_length = self.total_length.saturating_add(len);
        if self.first_message_micros.is_none() {
            self.first_message_micros = Some(now_micros);
        }
        self.last_message_micros = Some(now_micros);
    }

    /// Counts the message `message` at the current time; nothing when
    /// counting is off. The hour it is counted in is that of the clock at
    /// the call.
    pub fn analyze_message(&mut self, message: &GuiChatMessage)
        requires
            old(self).wf(),
            old(self).total_messages() < u32::MAX,
            byte_len(message.content@) <= usize::MAX,
        ensures
            exists|now: i64| counted_message(*old(self), *final(self), *message, now),
    {
        let now = utc_now_micros();
        self.analyze_message_at(message, now);
    }

    /// How many messages of `author` were counted.
    pub fn user_message_count(&self, author: &str) -> (n: u32)
        requires
            self.wf(),
        ensures
            n == (if self.user_counts().contains_key(author@) {
                self.user_counts()[author@]
            } else {
                0
            }),
    {
        self.users.get(author)
    }

    /// The busiest hour of the day so far (the earliest of equals); none
    /// before the first message.
    pub fn peak_hour(&self) -> (p: Option<u32>)
        requires
            self.wf(),
        ensures
            is_peak(self.hour_counts(), p),
    {
        let mut best: usize = 0;
        let mut h: usize = 1;
        while h < 24
            invariant
                self.hours@.len() == 24,
                1 <= h <= 24,
                best < h,
                forall|g: int| 0 <= g < h ==> self.hours@[g] <= self.hours@[best as int],
                forall|g: int| 0 <= g < best ==> self.hours@[g] < self.hours@[best as int],
            decreases 24 - h,
        {
            if self.hours[h] > self.hours[best] {
                best = h;
            }
            h += 1;
        }
        if self.hours[best] == 0 {
            None
        } else {
            Some(best as u32)
        }
    }

    /// The statistics now: totals, distinct and active authors, counts by
    /// kind and by hour, the busiest hour and the ten most active authors.
    pub fn get_stats(&self) -> (s: AnalyticsStats)
        requires
            self.wf(),
        ensures
            s.total_messages == self.total_messages(),
            self.user_counts().dom().finite(),
            s.unique_viewers == self.user_counts().dom().len(),
            s.active_viewers == names_above(self.user_counts(), 1).len(),
            is_top(self.kind_counts(), s.message_types@, self.kind_counts().dom().len()),
            s.hourly_distribution@ == self.hour_counts(),
            s.total_message_length == self.total_length(),
            s.first_message_micros == self.first_message_time(),
            s.last_message_micros == self.last_message_time(),
            is_peak(self.hour_counts(), s.peak_hour),
            is_top(self.user_counts(), s.top_chatters@, 10),
    {
        let kinds_len = self.kinds.len();
        AnalyticsStats {
            total_messages: self.total_messages,
            unique_viewers: self.users.len(),
            active_viewers: self.users.count_above(1),
            message_types: self.kinds.top(kinds_len),
            hourly_distribution: self.hours.clone(),
            total_message_length: self.total_length,
            first_message_micros: self.first_message_micros,
            last_message_micros: self.last_message_micros,
            peak_hour: self.peak_hour(),
            top_chatters: self.users.top(10),
        }
    }

    /// Starts the statistics over at the instant `now_micros`: nothing
    /// counted, a new session from `now_micros`, no report yet; the settings
    /// stay.
    pub fn reset_stats_at(&mut self, now_micros: i64)
        ensures
            final(self).wf(),
            final(self).config() == old(self).config(),
            final(self).total_messages() == 0,
            final(self).user_counts() == Map::<Seq<char>, u32>::empty(),
            final(self).kind_counts() == Map::<Seq<char>, u32>::empty(),
            final(self).hour_counts() == Seq::new(24, |h: int| 0u32),
            final(self).total_length() == 0,
            final(self).first_message_time() is None,
            final(self).last_message_time() is None,
            final(self).session_start() == Some(now_micros),
            final(self).last_report() is None,
    {
        self.users.clear();
        self.kinds.clear();
        self.hours = zero_hours();
        self.total_messages = 0;
        self.total_length = 0;
        self.first_message_micros = None;
        self.last_message_micros = None;
        self.session_start_micros = Some(now_micros);
        self.last_report_micros = None;
        assert(self.hour_counts() =~= Seq::new(24, |h: int| 0u32));
    }

    /// Starts the statistics over now; the new session starts at the time
    /// of the call.
    pub fn reset_stats(&mut self)
        ensures
            final(self).wf(),
            final(self).config() == old(self).config(),
            final(self).total_messages() == 0,
            final(self).user_counts() == Map::<Seq<char>, u32>::empty(),
            final(self).kind_counts() == Map::<Seq<char>, u32>::empty(),
            final(self).hour_counts() == Seq::new(24, |h: int| 0u32),
            final(self).total_length() == 0,
            final(self).first_message_time() is None,
            final(self).last_message_time() is None,
            final(self).session_start() is Some,
            final(self).last_report() is None,
    {
        let now = utc_now_micros();
        self.reset_stats_at(now);
    }

    /// New settings; what was counted stays.
    pub fn update_config(&mut self, config: AnalyticsConfig)
        ensures
            final(self).config() == config,
            final(self).wf() == old(self).wf(),
            final(self).total_messages() == old(self).total_messages(),
            final(self).user_counts() == old(self).user_counts(),
            final(self).kind_counts() == old(self).kind_counts(),
            final(self).hour_counts() == old(self).hour_counts(),
            final(self).total_length() == old(self).total_length(),
            final(self).first_message_time() == old(self).first_message_time(),
            final(self).last_message_time() == old(self).last_message_time(),
            final(self).session_start() == old(self).session_start(),
            final(self).last_report() == old(self).last_report(),
    {
        self.config = config;
    }

    /// The current settings.
    pub fn current_config(&self) -> (c: &AnalyticsConfig)
        ensures
            *c == self.config(),
    {
        &self.config
    }

    /// Whether a report is due at the instant `now_micros`: always before
    /// the first report, afterwards once `report_interval_seconds` whole
    /// seconds have passed since the last one.
    pub open spec fn report_due(&self, now_micros: i64) -> bool {
        match self.last_report() {
            None => true,
            Some(last) => whole_seconds(now_micros - last) >= self.config().report_interval_seconds,
        }
    }

    /// Whether a report is due at the instant `now_micros`: always before
    /// the first report, afterwards once `report_interval_seconds` whole
    /// seconds have passed since the last one.
    pub fn should_send_report_at(&self, now_micros: i64) -> (due: bool)
        ensures
            due == self.report_due(now_micros),
    {
        match self.last_report_micros {
            None => true,
            Some(last) => {
                let d: i128 = now_micros as i128 - last as i128;
                let secs: i128 = if d >= 0 {
                    (d as u128 / 1_000_000) as i128
                } else {
                    -(((-d) as u128 / 1_000_000) as i128)
                };
                secs >= self.config.report_interval_seconds as i128
            },
        }
    }

    /// Whether a report is due now (see `should_send_report_at`); the answer
    /// depends on the time of the call.
    pub fn should_send_report(&self) -> (due: bool)
        ensures
            exists|now: i64| due == #[trigger] self.report_due(now),
            self.last_report() is None ==> due,
    {
        let now = utc_now_micros();
        self.should_send_report_at(now)
    }

    /// Notes that a report went out at the instant `now_micros`.
    pub fn mark_report_sent_at(&mut self, now_micros: i64)
        ensures
            final(self).last_report() == Some(now_micros),
            final(self).wf() == old(self).wf(),
            final(self).config() == old(self).config(),
            final(self).total_messages() == old(self).total_messages(),
            final(self).user_counts() == old(self).user_counts(),
            final(self).kind_counts() == old(self).kind_counts(),
            final(self).hour_counts() == old(self).hour_counts(),
            final(self).total_length() == old(self).total_length(),
            final(self).first_message_time() == old(self).first_message_time(),
            final(self).last_message_time() == old(self).last_message_time(),
            final(self).session_start() == old(self).session_start(),
    {
        self.last_report_micros = Some(now_micros);
    }

    /// Whole seconds between the first and the last message counted; zero
    /// before the first.
    pub fn session_duration_seconds(&self) -> (secs: i64)
        ensures
            secs == match (self.first_message_time(), self.last_message_time()) {
                (Some(first), Some(last)) => whole_seconds(last - first),
                _ => 0,
            },
    {
        match (self.first_message_micros, self.last_message_micros) {
            (Some(first), Some(last)) => {
                let d: i128 = last as i128 - first as i128;
                if d >= 0 {
                    (d as u128 / 1_000_000) as i64
                } else {
                    -(((-d) as u128 / 1_000_000) as i64)
                }
            },
            _ => 0,
        }
    }

    /// Description of the statistics plugin.
    pub fn info(&self) -> (i: PluginInfo)
        ensures
            i.id@ == "analytics"@,
            i.name@ == "Analytics Plugin"@,
            i.version@ == "1.0.0"@,
            i.description@ == "Collects and analyzes chat message statistics"@,
            i.author@ == "Liscov Team"@,
            i.enabled,
            i.dependencies@.len() == 0,
    {
        PluginInfo {
            id: String::from_str("analytics"),
            name: String::from_str("Analytics Plugin"),
            version: String::from_str("1.0.0"),
            description: String::from_str("Collects and analyzes chat message statistics"),
            author: String::from_str("Liscov Team"),
            enabled: true,
            dependencies: Vec::new(),
        }
    }
}


/// Every message counted is counted once by author, once by kind and once
/// by hour of the day: the hourly counts sum to the number of messages, no
/// author and no kind has more messages than that, and there are no more
/// active authors (more than one message) than authors.
pub proof fn lemma_counts_within_total(p: AnalyticsPlugin)
    requires
        p.wf(),
    ensures
        sum_u32(p.hour_counts()) == p.total_messages(),
        forall|a: Seq<char>| #[trigger] p.user_counts().contains_key(a) ==> p.user_counts()[a] <= p.total_messages(),
        forall|k: Seq<char>| #[trigger] p.kind_counts().contains_key(k) ==> p.kind_counts()[k] <= p.total_messages(),
        p.user_counts().dom().finite(),
        names_above(p.user_counts(), 1).len() <= p.user_counts().dom().len(),
{
    p.lemma_totals();
}

impl AnalyticsPlugin {
    proof fn lemma_totals(&self)
        requires
            self.wf(),
        ensures
            sum_u32(self.hour_counts()) == self.total_messages(),
            forall|a: Seq<char>| #[trigger] self.user_counts().contains_key(a) ==> self.user_counts()[a] <= self.total_messages(),
            forall|k: Seq<char>| #[trigger] self.kind_counts().contains_key(k) ==> self.kind_counts()[k] <= self.total_messages(),
            self.user_counts().dom().finite(),
            names_above(self.user_counts(), 1).len() <= self.user_counts().dom().len(),
    {
        assert forall|a: Seq<char>| #[trigger] self.user_counts().contains_key(a) implies self.user_counts()[a] <= self.total_messages() by {
            self.users.lemma_count_at_most_total(a);
        }
        assert forall|k: Seq<char>| #[trigger] self.kind_counts().contains_key(k) implies self.kind_counts()[k] <= self.total_messages() by {
            self.kinds.lemma_count_at_most_total(k);
        }
        self.users.lemma_len_finite();
        let m = self.user_counts();
        vstd::set_lib::lemma_len_subset(names_above(m, 1), m.dom());
    }
}

impl Default for AnalyticsPlugin {
    fn default() -> (p: Self)
        ensures
            p.wf(),
            p.config() == default_analytics_config(),
            p.total_messages() == 0,
            p.user_counts() == Map::<Seq<char>, u32>::empty(),
            p.kind_counts() == Map::<Seq<char>, u32>::empty(),
            p.hour_counts() == Seq::new(24, |h: int| 0u32),
            p.total_length() == 0,
            p.first_message_time() is None,
            p.last_message_time() is None,
            p.session_start() is None,
            p.last_report() is None,
    {
        AnalyticsPlugin::new()
    }
}

} // verus!
