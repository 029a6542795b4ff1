//! Notifications on chat events: paid messages, watched keywords, watched
//! authors, new members and message-count milestones, each kind held back
//! for a cooldown after it fired.
use vstd::prelude::*;

use crate::analytics::whole_seconds;
use crate::clock::utc_now_micros;
use crate::models::GuiChatMessage;
use crate::plugin_system::PluginInfo;
use crate::text::{decimal, lowercase, push_decimal, push_str, seq_contains, str_contains, str_eq, to_lowercase};

verus! {

/// Times by name, as a map from names.
pub open spec fn times_map(entries: Seq<(String, i64)>) -> Map<Seq<char>, i64>
    decreases entries.len(),
{
    if entries.len() == 0 {
        Map::empty()
    } else {
        times_map(entries.drop_last()).insert(entries.last().0@, entries.last().1)
    }
}

/// No name appears twice.
pub open spec fn unique_names(entries: Seq<(String, i64)>) -> bool {
    forall|i: int, j: int| 0 <= i < j < entries.len() ==> (#[trigger] entries[i]).0@ != (
    #[trigger] entries[j]).0@
}

proof fn lemma_times_domain(entries: Seq<(String, i64)>, a: Seq<char>)
    ensures
        times_map(entries).contains_key(a) <==> exists|i: int| 0 <= i < entries.len() && (
        #[trigger] entries[i]).0@ == a,
    decreases entries.len(),
{
    if entries.len() > 0 {
        lemma_times_domain(entries.drop_last(), a);
        if exists|i: int| 0 <= i < entries.len() && (#[trigger] entries[i]).0@ == a {
            let i = choose|i: int| 0 <= i < entries.len() && (#[trigger] entries[i]).0@ == a;
            if i < entries.len() - 1 {
                assert(entries.drop_last()[i] == entries[i]);
            }
        }
        if exists|i: int| 0 <= i < entries.len() - 1 && (#[trigger] entries.drop_last()[i]).0@
            == a {
            let i = choose|i: int| 0 <= i < entries.len() - 1 && (
            #[trigger] entries.drop_last()[i]).0@ == a;
            assert(entries[i] == entries.drop_last()[i]);
        }
    }
}

proof fn lemma_times_at(entries: Seq<(String, i64)>, i: int)
    requires
        unique_names(entries),
        0 <= i < entries.len(),
    ensures
        times_map(entries).contains_key(entries[i].0@),
        times_map(entries)[entries[i].0@] == entries[i].1,
    decreases entries.len(),
{
    if i < entries.len() - 1 {
        let rest = entries.drop_last();
        assert(unique_names(rest)) by {
            assert forall|a: int, b: int| 0 <= a < b < rest.len() implies (#[trigger] rest[a]).0@
                != (#[trigger] rest[b]).0@ by {
                assert(rest[a] == entries[a] && rest[b] == entries[b]);
            }
        }
        assert(rest[i] == entries[i]);
        lemma_times_at(rest, i);
        assert(entries[i].0@ != entries.last().0@);
    }
}

proof fn lemma_times_update(entries: Seq<(String, i64)>, i: int, e: (String, i64))
    requires
        unique_names(entries),
        0 <= i < entries.len(),
        e.0@ == entries[i].0@,
    ensures
        times_map(entries.update(i, e)) == times_map(entries).insert(e.0@, e.1),
        unique_names(entries.update(i, e)),
    decreases entries.len(),
{
    let u = entries.update(i, e);
    assert(unique_names(u)) by {
        assert forall|a: int, b: int| 0 <= a < b < u.len() implies (#[trigger] u[a]).0@ != (
        #[trigger] u[b]).0@ by {
            assert(entries[a].0@ != entries[b].0@);
        }
    }
    let rest = entries.drop_last();
    assert(unique_names(rest)) by {
        assert forall|a: int, b: int| 0 <= a < b < rest.len() implies (#[trigger] rest[a]).0@ != (
        #[trigger] rest[b]).0@ by {
            assert(rest[a] == entries[a] && rest[b] == entries[b]);
        }
    }
    if i == entries.len() - 1 {
        assert(u.drop_last() =~= rest);
        assert(times_map(u) =~= times_map(entries).insert(e.0@, e.1));
    } else {
        assert(u.drop_last() =~= rest.update(i, e));
        lemma_times_update(rest, i, e);
        assert(entries.last().0@ != e.0@);
        assert(times_map(u) =~= times_map(entries).insert(e.0@, e.1));
    }
}

/// When each notification key last fired.
pub struct CooldownBook {
    entries: Vec<(String, i64)>,
}

impl CooldownBook {
    /// The last firing time of each key, in microseconds after the Unix epoch.
    pub closed spec fn times(&self) -> Map<Seq<char>, i64> {
        times_map(self.entries@)
    }

    /// Each key appears once.
    pub closed spec fn wf(&self) -> bool {
        unique_names(self.entries@)
    }

    /// No key has fired.
    pub fn new() -> (b: Self)
        ensures
            b.wf(),
            b.times() == Map::<Seq<char>, i64>::empty(),
    {
        let b = CooldownBook { entries: Vec::new() };
        assert(b.times() =~= Map::<Seq<char>, i64>::empty());
        b
    }

    /// When `key` last fired, if it has.
    pub fn get(&self, key: &str) -> (t: Option<i64>)
        requires
            self.wf(),
        ensures
            t == (if self.times().contains_key(key@) {
                Some(self.times()[key@])
            } else {
                None
            }),
    {
        let mut i: usize = 0;
        while i < self.entries.len()
            invariant
                i <= self.entries@.len(),
                unique_names(self.entries@),
                forall|j: int| 0 <= j < i ==> (#[trigger] self.entries@[j]).0@ != key@,
            decreases self.entries.len() - i,
        {
            if str_eq(self.entries[i].0.as_str(), key) {
                proof {
                    lemma_times_at(self.entries@, i as int);
                }
                return Some(self.entries[i].1);
            }
            i += 1;
        }
        proof {
            lemma_times_domain(self.entries@, key@);
        }
        None
    }

    /// Notes that `key` fired at `t`.
    pub fn set(&mut self, key: &str, t: i64)
        requires
            old(self).wf(),
        ensures
            final(self).wf(),
            final(self).times() == old(self).times().insert(key@, t),
    {
        let ghost e0 = self.entries@;
        let mut i: usize = 0;
        while i < self.entries.len()
            invariant
                i <= self.entries@.len(),
                self.entries@ == e0,
                e0 == old(self).entries@,
                unique_names(e0),
                forall|j: int| 0 <= j < i ==> (#[trigger] e0[j]).0@ != key@,
            decreases self.entries.len() - i,
        {
            if str_eq(self.entries[i].0.as_str(), key) {
                let entry = (String::from_str(key), t);
                proof {
                    lemma_times_update(e0, i as int, entry);
                }
                self.entries.set(i, entry);
                return;
            }
            i += 1;
        }
        proof {
            lemma_times_domain(e0, key@);
        }
        let entry = (String::from_str(key), t);
        self.entries.push(entry);
        proof {
            assert(self.entries@.drop_last() =~= e0);
            assert forall|a: int, b: int| 0 <= a < b < self.entries@.len() implies (
            #[trigger] self.entries@[a]).0@ != (#[trigger] self.entries@[b]).0@ by {
                if b < e0.len() {
                    assert(e0[a].0@ != e0[b].0@);
                }
            }
        }
    }
}


/// A notification as the plugin raises it.
#[derive(Debug, Clone)]
pub enum NotificationKind {
    /// A paid message; `amount` is its amount as shown to the user.
    SuperChat { amount: String },
    /// A watched keyword occurred in a message.
    KeywordDetected { keyword: String },
    /// Someone became a member.
    NewMember { username: String },
    /// A watched author wrote.
    VipUser { username: String },
    /// The number of messages reached the milestone; `count` messages so far.
    MessageThreshold { count: usize },
    /// A notice of the application itself.
    System { message: String },
}

/// What a notification holds, over character sequences.
pub enum NotificationView {
    SuperChat(Seq<char>),
    KeywordDetected(Seq<char>),
    NewMember(Seq<char>),
    VipUser(Seq<char>),
    MessageThreshold(usize),
    System(Seq<char>),
}

impl View for NotificationKind {
    type V = NotificationView;

    open spec fn view(&self) -> NotificationView {
        match self {
            NotificationKind::SuperChat { amount } => NotificationView::SuperChat(amount@),
            NotificationKind::KeywordDetected { keyword } => NotificationView::KeywordDetected(keyword@),
            NotificationKind::NewMember { username } => NotificationView::NewMember(username@),
            NotificationKind::VipUser { username } => NotificationView::VipUser(username@),
            NotificationKind::MessageThreshold { count } => NotificationView::MessageThreshold(*count),
            NotificationKind::System { message } => NotificationView::System(message@),
        }
    }
}

/// The views of a list of notifications.
pub open spec fn kinds_view(v: Seq<NotificationKind>) -> Seq<NotificationView> {
    v.map_values(|k: NotificationKind| k@)
}

/// Settings of the notification plugin (the least amount of a paid message
/// that is announced is kept by the caller, who reads the amounts).
#[derive(Debug, Clone)]
pub struct NotificationConfig {
    pub enabled: bool,
    /// Whether paid messages are announced.
    pub superchat_notifications: bool,
    /// Words announced when a message contains them (in any case).
    pub keyword_notifications: Vec<String>,
    /// Authors announced whenever they write.
    pub vip_users: Vec<String>,
    /// The number of messages from which on the count is announced.
    pub message_count_threshold: usize,
    pub sound_enabled: bool,
    pub desktop_notifications: bool,
    /// How long a notification is shown, in seconds.
    pub notification_duration_seconds: u32,
    /// How long a keyword, an author or the count stays silent after it was
    /// announced, in seconds.
    pub cooldown_seconds: u32,
}

impl Default for NotificationConfig {
    /// On, paid messages announced, nothing watched, the count announced
    /// from 1000 messages on, sound and desktop notices on, shown five
    /// seconds, ten seconds of cooldown.
    fn default() -> (c: Self)
        ensures
            c.enabled,
            c.superchat_notifications,
            c.keyword_notifications@.len() == 0,
            c.vip_users@.len() == 0,
            c.message_count_threshold == 1000,
            c.sound_enabled,
            c.desktop_notifications,
            c.notification_duration_seconds == 5,
            c.cooldown_seconds == 10,
    {
        NotificationConfig {
            enabled: true,
            superchat_notifications: true,
            keyword_notifications: Vec::new(),
            vip_users: Vec::new(),
            message_count_threshold: 1000,
            sound_enabled: true,
            desktop_notifications: true,
            notification_duration_seconds: 5,
            cooldown_seconds: 10,
        }
    }
}

/// The characters of each string.
pub open spec fn names_of(v: Seq<String>) -> Seq<Seq<char>> {
    v.map_values(|s: String| s@)
}

/// Whether `key` may fire at `now`: it never fired, or at least
/// `cooldown` whole seconds passed since it last did.
pub open spec fn cooldown_passed(times: Map<Seq<char>, i64>, key: Seq<char>, now: i64, cooldown: u32) -> bool {
    !times.contains_key(key) || whole_seconds(now - times[key]) >= cooldown
}

/// Tries to fire `key` at `now`: whether it fires, and the firing times
/// after.
pub open spec fn try_fire(times: Map<Seq<char>, i64>, key: Seq<char>, now: i64, cooldown: u32) -> (bool, Map<Seq<char>, i64>) {
    if cooldown_passed(times, key, now, cooldown) {
        (true, times.insert(key, now))
    } else {
        (false, times)
    }
}

/// The keyword notifications for `content` (already in lower case), the
/// keywords tried in order, and the firing times after them.
pub open spec fn keyword_round(
    keywords: Seq<Seq<char>>,
    content: Seq<char>,
    times: Map<Seq<char>, i64>,
    now: i64,
    cooldown: u32,
) -> (Seq<NotificationView>, Map<Seq<char>, i64>)
    decreases keywords.len(),
{
    if keywords.len() == 0 {
        (Seq::empty(), times)
    } else {
        let (out, t) = keyword_round(keywords.drop_last(), content, times, now, cooldown);
        let k = keywords.last();
        if seq_contains(content, lowercase(k)) {
            let (fired, t2) = try_fire(t, "keyword_"@ + k, now, cooldown);
            if fired {
                (out.push(NotificationView::KeywordDetected(k)), t2)
            } else {
                (out, t2)
            }
        } else {
            (out, t)
        }
    }
}

/// The paid-message notification, when `superchat` holds a shown amount
/// and paid messages are announced.
pub open spec fn paid_step(config: NotificationConfig, superchat: Option<Seq<char>>) -> Seq<NotificationView> {
    match superchat {
        Some(a) => if config.superchat_notifications {
            seq![NotificationView::SuperChat(a)]
        } else {
            Seq::empty()
        },
        None => Seq::empty(),
    }
}

/// The watched-author notification for `author`, and the firing times after.
pub open spec fn vip_step(
    config: NotificationConfig,
    author: Seq<char>,
    times: Map<Seq<char>, i64>,
    now: i64,
) -> (Seq<NotificationView>, Map<Seq<char>, i64>) {
    if names_of(config.vip_users@).contains(author) {
        let (fired, t) = try_fire(times, "vip_"@ + author, now, config.cooldown_seconds);
        (if fired { seq![NotificationView::VipUser(author)] } else { Seq::empty() }, t)
    } else {
        (Seq::empty(), times)
    }
}

/// The new-member notification, for a membership message.
pub open spec fn member_step(m: GuiChatMessage) -> Seq<NotificationView> {
    if m.message_type is Membership {
        seq![NotificationView::NewMember(m.author@)]
    } else {
        Seq::empty()
    }
}

/// The message-count notification once `count` messages were seen, and
/// the firing times after.
pub open spec fn milestone_step(
    config: NotificationConfig,
    count: nat,
    times: Map<Seq<char>, i64>,
    now: i64,
) -> (Seq<NotificationView>, Map<Seq<char>, i64>) {
    if count >= config.message_count_threshold {
        let (fired, t) = try_fire(times, "message_threshold"@, now, config.cooldown_seconds);
        (if fired { seq![NotificationView::MessageThreshold(count as usize)] } else { Seq::empty() }, t)
    } else {
        (Seq::empty(), times)
    }
}

/// The notifications raised for the message `m` at `now`, with the message
/// count and the firing times after it. `superchat` is the shown amount of
/// `m` when it is a paid message whose amount reaches the least announced
/// amount. In order: the paid message, the keywords found, the watched
/// author, a new member, the message count. Nothing happens when the
/// plugin is off.
pub open spec fn notifications_for(
    config: NotificationConfig,
    m: GuiChatMessage,
    superchat: Option<Seq<char>>,
    count: nat,
    times: Map<Seq<char>, i64>,
    now: i64,
) -> (Seq<NotificationView>, nat, Map<Seq<char>, i64>) {
    if !config.enabled {
        (Seq::empty(), count, times)
    } else {
        let (words, t1) = keyword_round(
            names_of(config.keyword_notifications@),
            lowercase(m.content@),
            times,
            now,
            config.cooldown_seconds,
        );
        let (vip, t2) = vip_step(config, m.author@, t1, now);
        let (milestone, t3) = milestone_step(config, count + 1, t2, now);
        (paid_step(config, superchat) + words + vip + member_step(m) + milestone, count + 1, t3)
    }
}

/// The characters of an optional amount.
pub open spec fn shown_amount(a: Option<String>) -> Option<Seq<char>> {
    match a {
        Some(s) => Some(s@),
        None => None,
    }
}

/// Whether `after` and the notifications `r` are what the plugin `before`
/// gives for the message `m` at `now` (see `notifications_for`).
pub open spec fn notified(
    before: NotificationPlugin,
    after: NotificationPlugin,
    m: GuiChatMessage,
    superchat: Option<Seq<char>>,
    r: Seq<NotificationKind>,
    now: i64,
) -> bool {
    let (out, c, t) = notifications_for(
        before.config(),
        m,
        superchat,
        before.message_count(),
        before.times(),
        now,
    );
    &&& kinds_view(r) == out
    &&& after.message_count() == c
    &&& after.times() == t
}

/// A notification that went out.
pub struct NotificationHistory {
    /// A unique identifier of the notification.
    pub id: String,
    pub notification_type: NotificationKind,
    /// When it went out, in microseconds after the Unix epoch.
    pub timestamp_micros: i64,
    /// The text shown.
    pub message: String,
    /// The message that raised it, if any.
    pub related_message: Option<GuiChatMessage>,
}

/// How many notifications the history keeps.
pub const NOTIFICATION_HISTORY_LIMIT: usize = 100;

/// The newest `limit` entries of `h`, oldest first.
pub open spec fn newest_entries(h: Seq<NotificationHistory>, limit: nat) -> Seq<NotificationHistory> {
    if h.len() > limit {
        h.skip(h.len() - limit)
    } else {
        h
    }
}

/// `r` holds a copy of the message `m`, or nothing where there is none.
pub open spec fn related(r: Option<GuiChatMessage>, m: Option<&GuiChatMessage>) -> bool {
    match (r, m) {
        (Some(a), Some(b)) => a.same_as(*b),
        (None, None) => true,
        _ => false,
    }
}

/// The history entry of the notification `kind` raised by `message`, sent
/// at `now` under the identifier `id`.
pub open spec fn history_entry(
    e: NotificationHistory,
    id: Seq<char>,
    kind: NotificationView,
    message: Option<&GuiChatMessage>,
    now: i64,
) -> bool {
    &&& e.id@ == id
    &&& e.notification_type@ == kind
    &&& e.timestamp_micros == now
    &&& e.message@ == notification_text(kind, message_parts(message))
    &&& related(e.related_message, message)
}

/// The kinds of notification, in the order the statistics list them.
pub open spec fn kind_tag(k: NotificationView) -> nat {
    match k {
        NotificationView::SuperChat(_) => 0,
        NotificationView::KeywordDetected(_) => 1,
        NotificationView::NewMember(_) => 2,
        NotificationView::VipUser(_) => 3,
        NotificationView::MessageThreshold(_) => 4,
        NotificationView::System(_) => 5,
    }
}

/// How many entries of `h` are of the kind `tag`.
pub open spec fn count_kind(h: Seq<NotificationHistory>, tag: nat) -> nat
    decreases h.len(),
{
    if h.len() == 0 {
        0
    } else {
        count_kind(h.drop_last(), tag) + if kind_tag(h.last().notification_type@) == tag {
            1nat
        } else {
            0nat
        }
    }
}

proof fn lemma_count_kind_bound(h: Seq<NotificationHistory>, tag: nat)
    ensures
        count_kind(h, tag) <= h.len(),
    decreases h.len(),
{
    if h.len() > 0 {
        lemma_count_kind_bound(h.drop_last(), tag);
    }
}

/// The number of notifications of each kind in the history.
#[derive(Debug, Clone, Copy, PartialEq, Eq, Structural)]
pub struct NotificationTypeCounts {
    pub superchat: usize,
    pub keyword: usize,
    pub new_member: usize,
    pub vip_user: usize,
    pub message_threshold: usize,
    pub system: usize,
}

/// The notification plugin: its settings, the message count, when each
/// notification last fired and the newest notifications sent.
pub struct NotificationPlugin {
    config: NotificationConfig,
    cooldowns: CooldownBook,
    message_count: usize,
    history: Vec<NotificationHistory>,
}

impl NotificationPlugin {
    pub closed spec fn config(&self) -> NotificationConfig {
        self.config
    }

    /// Messages seen while the plugin was on.
    pub closed spec fn message_count(&self) -> nat {
        self.message_count as nat
    }

    /// When each notification key last fired.
    pub closed spec fn times(&self) -> Map<Seq<char>, i64> {
        self.cooldowns.times()
    }

    /// The notifications sent, oldest first.
    pub closed spec fn history(&self) -> Seq<NotificationHistory> {
        self.history@
    }

    pub closed spec fn wf(&self) -> bool {
        self.cooldowns.wf() && self.history@.len() <= NOTIFICATION_HISTORY_LIMIT
    }

    /// Default settings, no message seen, nothing fired.
    pub fn new() -> (p: Self)
        ensures
            p.wf(),
            p.config().enabled,
            p.config().superchat_notifications,
            p.config().keyword_notifications@.len() == 0,
            p.config().vip_users@.len() == 0,
            p.config().message_count_threshold == 1000,
            p.config().sound_enabled,
            p.config().desktop_notifications,
            p.config().notification_duration_seconds == 5,
            p.config().cooldown_seconds == 10,
            p.message_count() == 0,
            p.times() == Map::<Seq<char>, i64>::empty(),
            p.history().len() == 0,
    {
        NotificationPlugin {
            config: NotificationConfig::default(),
            cooldowns: CooldownBook::new(),
            message_count: 0,
            history: Vec::new(),
        }
    }

    /// The notifications for `message` at the instant `now_micros`
    /// (microseconds after the Unix epoch); `superchat` is the amount to
    /// show when `message` is a paid message whose amount reaches the least
    /// announced amount. Counts the message and notes what fired.
    pub fn check_notifications_at(
        &mut self,
        message: &GuiChatMessage,
        superchat: Option<String>,
        now_micros: i64,
    ) -> (r: Vec<NotificationKind>)
        requires
            old(self).wf(),
            old(self).message_count() < usize::MAX,
        ensures
            final(self).wf(),
            final(self).config() == old(self).config(),
            final(self).history() == old(self).history(),
            notified(
                *old(self),
                *final(self),
                *message,
                shown_amount(superchat),
                r@,
                now_micros,
            ),
    {
        let mut out: Vec<NotificationKind> = Vec::new();
        if !self.config.enabled {
            assert(kinds_view(out@) =~= Seq::<NotificationView>::empty());
            return out;
        }
        let ghost cd = self.config.cooldown_seconds;
        let ghost times0 = self.times();
        let ghost shown: Option<Seq<char>> = shown_amount(superchat);
        match superchat {
            Some(a) => {
                if self.config.superchat_notifications {
                    out.push(NotificationKind::SuperChat { amount: a });
                }
            },
            None => {},
        }
        let ghost paid = kinds_view(out@);
        let lower = to_lowercase(message.content.as_str());
        let keywords = crate::models::copy_strings(&self.config.keyword_notifications);
        let ghost kw = names_of(keywords@);
        let mut i: usize = 0;
        assert(kw.take(0) =~= Seq::<Seq<char>>::empty());
        assert(kinds_view(out@) =~= paid + Seq::<NotificationView>::empty());
        while i < keywords.len()
            invariant
                self.wf(),
                self.config() == old(self).config(),
                self.history() == old(self).history(),
                self.message_count() == old(self).message_count(),
                cd == self.config().cooldown_seconds,
                i <= keywords@.len(),
                kw == names_of(keywords@),
                kw == names_of(old(self).config().keyword_notifications@),
                lower@ == lowercase(message.content@),
                ({
                    let (words, t) = keyword_round(kw.take(i as int), lower@, times0, now_micros, cd);
                    &&& kinds_view(out@) == paid + words
                    &&& self.times() == t
                }),
            decreases keywords.len() - i,
        {
            let ghost before = kinds_view(out@);
            assert(kw.take(i as int + 1).drop_last() =~= kw.take(i as int));
            assert(kw.take(i as int + 1).last() == keywords@[i as int]@);
            let lk = to_lowercase(keywords[i].as_str());
            if str_contains(lower.as_str(), lk.as_str()) {
                let mut key = String::from_str("keyword_");
                push_str(&mut key, keywords[i].as_str());
                if self.check_cooldown(key.as_str(), now_micros) {
                    out.push(NotificationKind::KeywordDetected { keyword: keywords[i].clone() });
                    assert(kinds_view(out@) =~= before.push(NotificationView::KeywordDetected(keywords@[i as int]@)));
                }
            }
            i += 1;
        }
        assert(kw.take(keywords@.len() as int) =~= kw);
        let ghost after_words = kinds_view(out@);
        let ghost t1 = self.times();
        let vips = crate::models::copy_strings(&self.config.vip_users);
        let mut is_vip = false;
        let mut j: usize = 0;
        while j < vips.len()
            invariant
                j <= vips@.len(),
                is_vip == exists|x: int| 0 <= x < j && (#[trigger] vips@[x])@ == message.author@,
            decreases vips.len() - j,
        {
            if str_eq(vips[j].as_str(), message.author.as_str()) {
                is_vip = true;
            }
            j += 1;
        }
        proof {
            let names = names_of(vips@);
            if is_vip {
                let x = choose|x: int| 0 <= x < vips@.len() && (#[trigger] vips@[x])@ == message.author@;
                assert(names[x] == message.author@);
            }
            if names.contains(message.author@) {
                let x = choose|x: int| 0 <= x < names.len() && names[x] == message.author@;
                assert(vips@[x]@ == message.author@);
            }
        }
        if is_vip {
            let mut key = String::from_str("vip_");
            push_str(&mut key, message.author.as_str());
            if self.check_cooldown(key.as_str(), now_micros) {
                out.push(NotificationKind::VipUser { username: message.author.clone() });
            }
        }
        let ghost after_vip = kinds_view(out@);
        let ghost t2 = self.times();
        proof {
            let (vs, tv) = vip_step(old(self).config(), message.author@, t1, now_micros);
            assert(after_vip =~= after_words + vs);
            assert(t2 == tv);
        }
        match message.message_type {
            crate::models::MessageType::Membership { .. } => {
                out.push(NotificationKind::NewMember { username: message.author.clone() });
            },
            _ => {},
        }
        let ghost after_member = kinds_view(out@);
        assert(after_member =~= after_vip + member_step(*message));
        self.message_count = self.message_count + 1;
        if self.message_count >= self.config.message_count_threshold {
            if self.check_cooldown("message_threshold", now_micros) {
                out.push(NotificationKind::MessageThreshold { count: self.message_count });
            }
        }
        proof {
            reveal_strlit("message_threshold");
            let (ms, tm) = milestone_step(old(self).config(), self.message_count as nat, t2, now_micros);
            assert(kinds_view(out@) =~= after_member + ms);
            let (words, tw) = keyword_round(
                names_of(old(self).config().keyword_notifications@),
                lowercase(message.content@),
                times0,
                now_micros,
                cd,
            );
            assert(after_words == paid_step(old(self).config(), shown) + words);
            let (o, c, t) = notifications_for(
                old(self).config(),
                *message,
                shown,
                old(self).message_count(),
                old(self).times(),
                now_micros,
            );
            assert(kinds_view(out@) =~= o);
        }
        out
    }

    /// The notifications for `message` at the current time (see
    /// `check_notifications_at`); which of them fire depends on the time of
    /// the call through the cooldowns.
    pub fn check_notifications(&mut self, message: &GuiChatMessage, superchat: Option<String>) -> (r: Vec<NotificationKind>)
        requires
            old(self).wf(),
            old(self).message_count() < usize::MAX,
        ensures
            final(self).wf(),
            final(self).config() == old(self).config(),
            final(self).history() == old(self).history(),
            exists|now: i64|
                #[trigger] notified(
                    *old(self),
                    *final(self),
                    *message,
                    shown_amount(superchat),
                    r@,
                    now,
                ),
    {
        let now = utc_now_micros();
        self.check_notifications_at(message, superchat, now)
    }

    /// New settings; the count and the firing times stay.
    pub fn update_config(&mut self, config: NotificationConfig)
        ensures
            final(self).config() == config,
            final(self).wf() == old(self).wf(),
            final(self).message_count() == old(self).message_count(),
            final(self).times() == old(self).times(),
            final(self).history() == old(self).history(),
    {
        self.config = config;
    }

    /// The current settings.
    pub fn current_config(&self) -> (c: &NotificationConfig)
        ensures
            *c == self.config(),
    {
        &self.config
    }

    /// Messages seen while the plugin was on.
    pub fn get_message_count(&self) -> (n: usize)
        ensures
            n == self.message_count(),
    {
        self.message_count
    }

    /// Sends the notification `kind`, raised by `message` if any, at
    /// `now_micros` under the identifier `id`: its text goes into the
    /// history, which keeps the newest hundred. Returns the text.
    pub fn send_notification_at(
        &mut self,
        kind: NotificationKind,
        message: Option<&GuiChatMessage>,
        id: String,
        now_micros: i64,
    ) -> (text: String)
        requires
            old(self).wf(),
        ensures
            final(self).wf(),
            text@ == notification_text(kind@, message_parts(message)),
            final(self).history().len() == if old(self).history().len() < NOTIFICATION_HISTORY_LIMIT {
                old(self).history().len() + 1
            } else {
                NOTIFICATION_HISTORY_LIMIT as nat
            },
            ({
                let h = final(self).history();
                &&& history_entry(h.last(), id@, kind@, message, now_micros)
                &&& h.drop_last() == newest_entries(
                    old(self).history(),
                    (NOTIFICATION_HISTORY_LIMIT - 1) as nat,
                )
            }),
            final(self).config() == old(self).config(),
            final(self).message_count() == old(self).message_count(),
            final(self).times() == old(self).times(),
    {
        let text = format_notification_message(&kind, message);
        let related_message = match message {
            Some(m) => Some(m.duplicate()),
            None => None,
        };
        let ghost kind_view = kind@;
        let entry = NotificationHistory {
            id,
            notification_type: kind,
            timestamp_micros: now_micros,
            message: text.clone(),
            related_message,
        };
        let ghost before = self.history@;
        self.history.push(entry);
        if self.history.len() > NOTIFICATION_HISTORY_LIMIT {
            self.history.remove(0);
            assert(self.history@.drop_last() =~= before.skip(1));
        } else {
            assert(self.history@.drop_last() =~= before);
        }
        text
    }

    /// The notifications sent, oldest first (at most the newest hundred).
    pub fn get_notification_history(&self) -> (h: &[NotificationHistory])
        ensures
            h@ == self.history(),
    {
        self.history.as_slice()
    }

    /// Forgets the notifications sent.
    pub fn clear_notification_history(&mut self)
        requires
            old(self).wf(),
        ensures
            final(self).wf(),
            final(self).history().len() == 0,
            final(self).config() == old(self).config(),
            final(self).message_count() == old(self).message_count(),
            final(self).times() == old(self).times(),
    {
        self.history.clear();
    }

    /// The number of notifications of each kind in the history.
    pub fn notification_type_counts(&self) -> (c: NotificationTypeCounts)
        requires
            self.wf(),
        ensures
            c.superchat == count_kind(self.history(), 0),
            c.keyword == count_kind(self.history(), 1),
            c.new_member == count_kind(self.history(), 2),
            c.vip_user == count_kind(self.history(), 3),
            c.message_threshold == count_kind(self.history(), 4),
            c.system == count_kind(self.history(), 5),
    {
        let mut c = NotificationTypeCounts {
            superchat: 0,
            keyword: 0,
            new_member: 0,
            vip_user: 0,
            message_threshold: 0,
            system: 0,
        };
        let mut i: usize = 0;
        while i < self.history.len()
            invariant
                i <= self.history@.len(),
                self.history@.len() <= NOTIFICATION_HISTORY_LIMIT,
                c.superchat == count_kind(self.history@.take(i as int), 0),
                c.keyword == count_kind(self.history@.take(i as int), 1),
                c.new_member == count_kind(self.history@.take(i as int), 2),
                c.vip_user == count_kind(self.history@.take(i as int), 3),
                c.message_threshold == count_kind(self.history@.take(i as int), 4),
                c.system == count_kind(self.history@.take(i as int), 5),
            decreases self.history.len() - i,
        {
            let ghost h = self.history@;
            proof {
                lemma_count_kind_bound(h.take(i as int), 0);
                lemma_count_kind_bound(h.take(i as int), 1);
                lemma_count_kind_bound(h.take(i as int), 2);
                lemma_count_kind_bound(h.take(i as int), 3);
                lemma_count_kind_bound(h.take(i as int), 4);
                lemma_count_kind_bound(h.take(i as int), 5);
                assert(h.take(i as int + 1).drop_last() =~= h.take(i as int));
            }
            match &self.history[i].notification_type {
                NotificationKind::SuperChat { .. } => c.superchat = c.superchat + 1,
                NotificationKind::KeywordDetected { .. } => c.keyword = c.keyword + 1,
                NotificationKind::NewMember { .. } => c.new_member = c.new_member + 1,
                NotificationKind::VipUser { .. } => c.vip_user = c.vip_user + 1,
                NotificationKind::MessageThreshold { .. } => c.message_threshold = c.message_threshold + 1,
                NotificationKind::System { .. } => c.system = c.system + 1,
            }
            i += 1;
        }
        assert(self.history@.take(self.history@.len() as int) =~= self.history@);
        c
    }

    /// Description of the notification plugin.
    pub fn info(&self) -> (i: PluginInfo)
        ensures
            i.id@ == "notification"@,
            i.name@ == "Notification Plugin"@,
            i.version@ == "1.0.0"@,
            i.description@ == "Sends notifications based on chat events and conditions"@,
            i.author@ == "Liscov Team"@,
            i.enabled,
            i.dependencies@.len() == 0,
    {
        PluginInfo {
            id: String::from_str("notification"),
            name: String::from_str("Notification Plugin"),
            version: String::from_str("1.0.0"),
            description: String::from_str("Sends notifications based on chat events and conditions"),
            author: String::from_str("Liscov Team"),
            enabled: true,
            dependencies: Vec::new(),
        }
    }

    /// Fires `key` at `now` unless it is still cooling down; returns
    /// whether it fired.
    fn check_cooldown(&mut self, key: &str, now: i64) -> (fired: bool)
        requires
            old(self).wf(),
        ensures
            final(self).wf(),
            (fired, final(self).times()) == try_fire(old(self).times(), key@, now, old(self).config().cooldown_seconds),
            final(self).config() == old(self).config(),
            final(self).message_count() == old(self).message_count(),
            final(self).history() == old(self).history(),
    {
        match self.cooldowns.get(key) {
            Some(last) => {
                let d: i128 = now as i128 - last as i128;
                let secs: i128 = if d >= 0 {
                    (d as u128 / 1_000_000) as i128
                } else {
                    -(((-d) as u128 / 1_000_000) as i128)
                };
                if secs < self.config.cooldown_seconds as i128 {
                    return false;
                }
            },
            None => {},
        }
        self.cooldowns.set(key, now);
        true
    }
}


/// The text shown for a notification; `m` is the author and the text of
/// the message that raised it, if any.
pub open spec fn notification_text(n: NotificationView, m: Option<(Seq<char>, Seq<char>)>) -> Seq<char> {
    match n {
        NotificationView::SuperChat(a) => match m {
            Some((author, content)) => "💰 "@ + author + "さんから¥"@ + a + "のスーパーチャット: \""@
                + content + "\""@,
            None => "💰 ¥"@ + a + "のスーパーチャットが届きました"@,
        },
        NotificationView::KeywordDetected(k) => match m {
            Some((author, content)) => "🔍 キーワード「"@ + k + "」が検出されました - "@ + author
                + "さん: \""@ + content + "\""@,
            None => "🔍 キーワード「"@ + k + "」が検出されました"@,
        },
        NotificationView::NewMember(u) => "🎉 "@ + u + "さんがメンバーになりました！"@,
        NotificationView::VipUser(u) => match m {
            Some((_author, content)) => "⭐ VIPユーザー "@ + u + "さんのメッセージ: \""@ + content
                + "\""@,
            None => "⭐ VIPユーザー "@ + u + "さんからメッセージが届きました"@,
        },
        NotificationView::MessageThreshold(c) => "📊 メッセージ数が"@ + decimal(c as nat)
            + "件に到達しました！"@,
        NotificationView::System(text) => "🔔 システム通知: "@ + text,
    }
}

/// The author and text of an optional message.
pub open spec fn message_parts(m: Option<&GuiChatMessage>) -> Option<(Seq<char>, Seq<char>)> {
    match m {
        Some(msg) => Some((msg.author@, msg.content@)),
        None => None,
    }
}

/// The text shown for the notification `kind`, raised by `message` if any.
pub fn format_notification_message(kind: &NotificationKind, message: Option<&GuiChatMessage>) -> (r: String)
    ensures
        r@ == notification_text(kind@, message_parts(message)),
{
    let mut s = String::new();
    match kind {
        NotificationKind::SuperChat { amount } => match message {
            Some(m) => {
                push_str(&mut s, "💰 ");
                push_str(&mut s, m.author.as_str());
                push_str(&mut s, "さんから¥");
                push_str(&mut s, amount.as_str());
                push_str(&mut s, "のスーパーチャット: \"");
                push_str(&mut s, m.content.as_str());
                push_str(&mut s, "\"");
            },
            None => {
                push_str(&mut s, "💰 ¥");
                push_str(&mut s, amount.as_str());
                push_str(&mut s, "のスーパーチャットが届きました");
            },
        },
        NotificationKind::KeywordDetected { keyword } => match message {
            Some(m) => {
                push_str(&mut s, "🔍 キーワード「");
                push_str(&mut s, keyword.as_str());
                push_str(&mut s, "」が検出されました - ");
                push_str(&mut s, m.author.as_str());
                push_str(&mut s, "さん: \"");
                push_str(&mut s, m.content.as_str());
                push_str(&mut s, "\"");
            },
            None => {
                push_str(&mut s, "🔍 キーワード「");
                push_str(&mut s, keyword.as_str());
                push_str(&mut s, "」が検出されました");
            },
        },
        NotificationKind::NewMember { username } => {
            push_str(&mut s, "🎉 ");
            push_str(&mut s, username.as_str());
            push_str(&mut s, "さんがメンバーになりました！");
        },
        NotificationKind::VipUser { username } => match message {
            Some(m) => {
                push_str(&mut s, "⭐ VIPユーザー ");
                push_str(&mut s, username.as_str());
                push_str(&mut s, "さんのメッセージ: \"");
                push_str(&mut s, m.content.as_str());
                push_str(&mut s, "\"");
            },
            None => {
                push_str(&mut s, "⭐ VIPユーザー ");
                push_str(&mut s, username.as_str());
                push_str(&mut s, "さんからメッセージが届きました");
            },
        },
        NotificationKind::MessageThreshold { count } => {
            push_str(&mut s, "📊 メッセージ数が");
            push_decimal(&mut s, *count as u64);
            push_str(&mut s, "件に到達しました！");
        },
        NotificationKind::System { message: text } => {
            push_str(&mut s, "🔔 システム通知: ");
            push_str(&mut s, text.as_str());
        },
    }
    assert(s@ =~= notification_text(kind@, message_parts(message)));
    s
}


/// A notification key that fired at `t` stays silent at any later `t2`
/// less than `cooldown` whole seconds after, and fires again once that
/// many have passed.
pub proof fn lemma_cooldown_silences(
    times: Map<Seq<char>, i64>,
    key: Seq<char>,
    t: i64,
    t2: i64,
    cooldown: u32,
)
    requires
        try_fire(times, key, t, cooldown).0,
    ensures
        try_fire(try_fire(times, key, t, cooldown).1, key, t2, cooldown).0 <==> whole_seconds(t2 - t)
            >= cooldown,
{
}

} // verus!
