//! Message streaming: a bounded display window backed by an archive.
//!
//! Messages are deduplicated by a hash of their timestamp, author and content.
//! When the display limit shrinks, the oldest displayed messages move to the
//! archive; when it grows, the newest archived messages come back in front.
use vstd::prelude::*;

use std::collections::hash_map::DefaultHasher;
use std::collections::HashSet;
use std::collections::VecDeque;
use std::hash::Hasher;

use vstd::std_specs::hash::DefaultHasherAdditionalSpecFns;
use vstd::string::StringSliceAdditionalSpecFns;
use vstd::utf8::encode_utf8;

use crate::models::{same_messages, GuiChatMessage};
use crate::text::{seq_contains, str_contains};

verus! {

broadcast use vstd::std_specs::hash::group_hash_axioms;

/// How many messages the display window keeps.
#[derive(Debug, Clone, PartialEq)]
pub enum DisplayLimit {
    /// No limit.
    Unlimited,
    /// A fixed number of messages.
    Fixed(usize),
    /// A memory budget in MB, at an assumed 300 bytes per message.
    Memory(usize),
    /// A target frame rate; currently a limit of 100 messages.
    Performance(u32),
}

impl Default for DisplayLimit {
    fn default() -> (r: Self)
        ensures
            r == DisplayLimit::Fixed(100),
    {
        DisplayLimit::Fixed(100)
    }
}

/// Settings of a message stream.
#[derive(Debug, Clone)]
pub struct MessageStreamConfig {
    pub display_limit: DisplayLimit,
    pub max_display_count: usize,
    pub enable_virtual_scroll: bool,
    pub target_fps: u32,
    /// Whether messages leaving the window are kept in the archive.
    pub enable_archive: bool,
    /// Whether the archive can be searched.
    pub archive_search_enabled: bool,
}

impl Default for MessageStreamConfig {
    fn default() -> (r: Self)
        ensures
            r.display_limit == DisplayLimit::Fixed(100),
            r.max_display_count == 100,
            r.enable_virtual_scroll,
            r.target_fps == 60,
            r.enable_archive,
            r.archive_search_enabled,
    {
        MessageStreamConfig {
            display_limit: DisplayLimit::Fixed(100),
            max_display_count: 100,
            enable_virtual_scroll: true,
            target_fps: 60,
            enable_archive: true,
            archive_search_enabled: true,
        }
    }
}

/// The limit's message count can be computed without overflow.
pub open spec fn limit_computable(limit: DisplayLimit) -> bool {
    match limit {
        DisplayLimit::Memory(mb) => mb * 1048576 <= usize::MAX,
        _ => true,
    }
}

/// The number of messages a limit allows (`None` for no limit).
pub open spec fn limit_count(limit: DisplayLimit) -> Option<nat> {
    match limit {
        DisplayLimit::Unlimited => None,
        DisplayLimit::Fixed(n) => Some(n as nat),
        DisplayLimit::Memory(mb) => Some((mb * 1048576 / 300) as nat),
        DisplayLimit::Performance(_) => Some(100),
    }
}

/// Window, archive and archived count after moving up to `k` of the newest
/// archived messages back to the front of the window.
pub open spec fn restored(
    window: Seq<GuiChatMessage>,
    archive: Seq<GuiChatMessage>,
    archived: nat,
    enable_archive: bool,
    k: nat,
) -> (Seq<GuiChatMessage>, Seq<GuiChatMessage>, nat) {
    if !enable_archive || archive.len() == 0 {
        (window, archive, archived)
    } else {
        let n = if k < archive.len() { k } else { archive.len() };
        let rest = archive.len() - n;
        (
            archive.subrange(rest, archive.len() as int) + window,
            archive.take(rest),
            if archived >= n { (archived - n) as nat } else { 0 },
        )
    }
}

/// Window, archive and archived count after moving the oldest messages out
/// of the window until it holds `limit` messages.
pub open spec fn trimmed_to(
    window: Seq<GuiChatMessage>,
    archive: Seq<GuiChatMessage>,
    archived: nat,
    enable_archive: bool,
    limit: nat,
) -> (Seq<GuiChatMessage>, Seq<GuiChatMessage>, nat) {
    let over = window.len() - limit;
    (
        window.skip(over),
        if enable_archive { archive + window.take(over) } else { archive },
        archived + over as nat,
    )
}

/// Window, archive and archived count after applying the display limit.
pub open spec fn limited(
    window: Seq<GuiChatMessage>,
    archive: Seq<GuiChatMessage>,
    archived: nat,
    config: MessageStreamConfig,
) -> (Seq<GuiChatMessage>, Seq<GuiChatMessage>, nat) {
    match limit_count(config.display_limit) {
        None => restored(window, archive, archived, config.enable_archive, archive.len()),
        Some(l) => if window.len() < l {
            restored(window, archive, archived, config.enable_archive, (l - window.len()) as nat)
        } else if window.len() > l {
            trimmed_to(window, archive, archived, config.enable_archive, l)
        } else {
            (window, archive, archived)
        },
    }
}

/// The identifier hash of a message: `DefaultHasher` over its timestamp,
/// author and content, each hashed as a string.
pub open spec fn message_hash(m: GuiChatMessage) -> u64 {
    DefaultHasher::spec_finish(
        seq![
            encode_utf8(m.timestamp@), seq![0xffu8],
            encode_utf8(m.author@), seq![0xffu8],
            encode_utf8(m.content@), seq![0xffu8],
        ],
    )
}

/// The messages of `s` have pairwise distinct identifier hashes, each in
/// `seen`.
pub open spec fn apart(s: Seq<GuiChatMessage>, seen: Set<u64>) -> bool {
    &&& forall|i: int, j: int| 0 <= i < j < s.len() ==> message_hash(#[trigger] s[i]) != message_hash(#[trigger] s[j])
    &&& forall|i: int| 0 <= i < s.len() ==> seen.contains(message_hash(#[trigger] s[i]))
}

/// Applying the display limit keeps the kept messages apart.
proof fn lemma_limited_apart(
    window: Seq<GuiChatMessage>,
    archive: Seq<GuiChatMessage>,
    archived: nat,
    config: MessageStreamConfig,
    seen: Set<u64>,
)
    requires
        apart(archive + window, seen),
    ensures
        ({
            let (w, a, c) = limited(window, archive, archived, config);
            apart(a + w, seen)
        }),
{
    let (w, a, c) = limited(window, archive, archived, config);
    let all = archive + window;
    if a + w =~= all {
    } else {
        // Only trimming without an archive drops messages: what is left is
        // the archive followed by the newest of the window.
        let over = window.len() - w.len();
        assert(a == archive);
        assert(w =~= window.skip(over));
        let s = a + w;
        assert forall|i: int| 0 <= i < s.len() implies #[trigger] s[i] == all[if i < archive.len() { i } else { i + over }] by {}
        assert forall|i: int, j: int| 0 <= i < j < s.len() implies message_hash(#[trigger] s[i]) != message_hash(#[trigger] s[j]) by {
            let i0 = if i < archive.len() { i } else { i + over };
            let j0 = if j < archive.len() { j } else { j + over };
            assert(s[i] == all[i0] && s[j] == all[j0]);
        }
        assert forall|i: int| 0 <= i < s.len() implies seen.contains(message_hash(#[trigger] s[i])) by {
            let i0 = if i < archive.len() { i } else { i + over };
            assert(s[i] == all[i0]);
        }
    }
}

/// What `push_message` works on: the display window, the archive, the
/// number of messages archived, the identifier hashes seen and the number
/// of messages accepted.
pub struct StreamState {
    pub window: Seq<GuiChatMessage>,
    pub archived: Seq<GuiChatMessage>,
    pub archived_total: nat,
    pub seen: Set<u64>,
    pub total: nat,
}

/// One `push_message` of `m`: a message whose identifier hash was seen
/// changes nothing; another is accepted, counted, and the display limit is
/// applied.
pub open spec fn push_step(st: StreamState, m: GuiChatMessage, config: MessageStreamConfig) -> StreamState {
    if st.seen.contains(message_hash(m)) {
        st
    } else {
        let (w, a, c) = limited(st.window.push(m), st.archived, st.archived_total, config);
        StreamState {
            window: w,
            archived: a,
            archived_total: c,
            seen: st.seen.insert(message_hash(m)),
            total: st.total + 1,
        }
    }
}

/// The state after pushing `ms` one after another, from `st`.
pub open spec fn pushed_all(st: StreamState, ms: Seq<GuiChatMessage>, config: MessageStreamConfig) -> StreamState
    decreases ms.len(),
{
    if ms.len() == 0 {
        st
    } else {
        push_step(pushed_all(st, ms.drop_last(), config), ms.last(), config)
    }
}

/// The hashes seen after a history are those seen before and those of the
/// messages pushed.
pub proof fn lemma_pushed_all_seen(st: StreamState, ms: Seq<GuiChatMessage>, config: MessageStreamConfig)
    ensures
        forall|h: u64|
            #![trigger pushed_all(st, ms, config).seen.contains(h)]
            pushed_all(st, ms, config).seen.contains(h) <==> (st.seen.contains(h) || exists|j: int|
                0 <= j < ms.len() && message_hash(#[trigger] ms[j]) == h),
    decreases ms.len(),
{
    if ms.len() > 0 {
        let rest = ms.drop_last();
        lemma_pushed_all_seen(st, rest, config);
        let before = pushed_all(st, rest, config);
        assert(pushed_all(st, ms, config) == push_step(before, ms.last(), config));
        assert(pushed_all(st, ms, config).seen =~= before.seen.insert(message_hash(ms.last())));
        assert forall|h: u64|
            pushed_all(st, ms, config).seen.contains(h) <==> (st.seen.contains(h) || exists|j: int|
                0 <= j < ms.len() && message_hash(#[trigger] ms[j]) == h) by {
            assert(before.seen.contains(h) <==> (st.seen.contains(h) || exists|j: int|
                0 <= j < rest.len() && message_hash(#[trigger] rest[j]) == h));
            if exists|j: int| 0 <= j < ms.len() && message_hash(#[trigger] ms[j]) == h {
                let j = choose|j: int| 0 <= j < ms.len() && message_hash(#[trigger] ms[j]) == h;
                if j < rest.len() {
                    assert(rest[j] == ms[j]);
                }
            }
            if exists|j: int| 0 <= j < rest.len() && message_hash(#[trigger] rest[j]) == h {
                let j = choose|j: int| 0 <= j < rest.len() && message_hash(#[trigger] rest[j]) == h;
                assert(ms[j] == rest[j]);
            }
            if h == message_hash(ms.last()) {
                assert(message_hash(ms[ms.len() - 1]) == h);
            }
        }
    }
}

/// The messages of `s` whose author is `author`.
pub open spec fn by_author(s: Seq<GuiChatMessage>, author: Seq<char>) -> Seq<GuiChatMessage>
    decreases s.len(),
{
    if s.len() == 0 {
        s
    } else if s.last().author@ == author {
        by_author(s.drop_last(), author).push(s.last())
    } else {
        by_author(s.drop_last(), author)
    }
}

/// The messages of `s` whose content contains `keyword`.
pub open spec fn by_content(s: Seq<GuiChatMessage>, keyword: Seq<char>) -> Seq<GuiChatMessage>
    decreases s.len(),
{
    if s.len() == 0 {
        s
    } else if seq_contains(s.last().content@, keyword) {
        by_content(s.drop_last(), keyword).push(s.last())
    } else {
        by_content(s.drop_last(), keyword)
    }
}

/// A stream of chat messages with a bounded display window and an archive.
#[derive(Debug)]
pub struct MessageStream {
    display_window: VecDeque<GuiChatMessage>,
    archive: Vec<GuiChatMessage>,
    seen_ids: HashSet<u64>,
    config: MessageStreamConfig,
    total_count: usize,
    archived_count: usize,
}

/// Counters and memory figures of a message stream.
#[derive(Debug, Clone)]
pub struct MessageStreamStats {
    pub display_count: usize,
    pub archived_count: usize,
    pub total_count: usize,
    pub display_memory_bytes: usize,
    pub archive_memory_bytes: usize,
    pub total_memory_bytes: usize,
    /// Share of all messages that left the window, in whole percent.
    pub effective_reduction_percent: u32,
}

impl MessageStream {
    /// The displayed messages, oldest first.
    pub closed spec fn window(&self) -> Seq<GuiChatMessage> {
        self.display_window@
    }

    /// The archived messages, oldest first.
    pub closed spec fn archived(&self) -> Seq<GuiChatMessage> {
        self.archive@
    }

    /// Hashes of all messages accepted so far.
    pub closed spec fn seen(&self) -> Set<u64> {
        self.seen_ids@
    }

    /// The current settings.
    pub closed spec fn settings(&self) -> MessageStreamConfig {
        self.config
    }

    /// Number of messages accepted since creation or the last `clear`.
    pub closed spec fn total(&self) -> nat {
        self.total_count as nat
    }

    /// Number of messages that left the window and did not come back.
    pub closed spec fn archived_total(&self) -> nat {
        self.archived_count as nat
    }

    /// The stream's invariant: every accepted message is either displayed or
    /// counted as archived, and the archive holds no more than that count.
    pub closed spec fn wf(&self) -> bool {
        &&& self.display_window@.len() + self.archived_count == self.total_count
        &&& self.archive@.len() <= self.archived_count
        &&& limit_computable(self.config.display_limit)
        &&& apart(self.archive@ + self.display_window@, self.seen_ids@)
    }

    /// Every accepted message is displayed or counted as archived, and the
    /// archive never holds more messages than that count: `total_count()`
    /// is `display_count()` plus `archived_count()`.
    pub proof fn lemma_counts_balance(&self)
        requires
            self.wf(),
        ensures
            self.window().len() + self.archived_total() == self.total(),
            self.archived().len() <= self.archived_total(),
    {
    }

    /// No archived message is also displayed: every message kept, archived
    /// or displayed, has an identifier hash of its own.
    pub proof fn lemma_archive_apart_from_window(&self)
        requires
            self.wf(),
        ensures
            forall|i: int, j: int|
                0 <= i < self.archived().len() && 0 <= j < self.window().len() ==> message_hash(
                    #[trigger] self.archived()[i],
                ) != message_hash(#[trigger] self.window()[j]),
            forall|i: int, j: int|
                0 <= i < self.archived().len() && 0 <= j < self.window().len() ==> #[trigger] self.archived()[i]
                    != #[trigger] self.window()[j],
    {
        let all = self.archive@ + self.display_window@;
        assert forall|i: int, j: int|
            0 <= i < self.archived().len() && 0 <= j < self.window().len() implies message_hash(
                #[trigger] self.archived()[i],
            ) != message_hash(#[trigger] self.window()[j]) by {
            assert(all[i] == self.archived()[i]);
            assert(all[self.archive@.len() + j] == self.window()[j]);
        }
    }

    /// A new, empty stream with the given settings.
    pub fn new(config: MessageStreamConfig) -> (s: Self)
        requires
            limit_computable(config.display_limit),
        ensures
            s.wf(),
            s.window() == Seq::<GuiChatMessage>::empty(),
            s.archived() == Seq::<GuiChatMessage>::empty(),
            s.seen() == Set::<u64>::empty(),
            s.settings() == config,
            s.total() == 0,
            s.archived_total() == 0,
    {
        let s = MessageStream {
            display_window: VecDeque::new(),
            archive: Vec::new(),
            seen_ids: HashSet::new(),
            config,
            total_count: 0,
            archived_count: 0,
        };
        assert(s.archive@ + s.display_window@ =~= Seq::<GuiChatMessage>::empty());
        s
    }

    /// A new stream with the default settings (a limit of 100 messages).
    pub fn with_defaults() -> (s: Self)
        ensures
            s.wf(),
            s.window() == Seq::<GuiChatMessage>::empty(),
            s.archived() == Seq::<GuiChatMessage>::empty(),
            s.seen() == Set::<u64>::empty(),
            s.settings().display_limit == DisplayLimit::Fixed(100),
            s.settings().max_display_count == 100,
            s.settings().enable_archive,
            s.settings().archive_search_enabled,
            s.total() == 0,
            s.archived_total() == 0,
    {
        MessageStream::new(MessageStreamConfig::default())
    }

    /// A new stream that displays at most `max_count` messages.
    pub fn with_fixed_limit(max_count: usize) -> (s: Self)
        ensures
            s.wf(),
            s.window() == Seq::<GuiChatMessage>::empty(),
            s.archived() == Seq::<GuiChatMessage>::empty(),
            s.seen() == Set::<u64>::empty(),
            s.settings().display_limit == DisplayLimit::Fixed(max_count),
            s.settings().max_display_count == max_count,
            s.settings().enable_virtual_scroll,
            s.settings().target_fps == 60,
            s.settings().enable_archive,
            s.settings().archive_search_enabled,
            s.total() == 0,
            s.archived_total() == 0,
    {
        let d = MessageStreamConfig::default();
        let config = MessageStreamConfig {
            display_limit: DisplayLimit::Fixed(max_count),
            max_display_count: max_count,
            ..d
        };
        MessageStream::new(config)
    }

    /// The identifier hash of a message.
    pub fn message_id(message: &GuiChatMessage) -> (h: u64)
        ensures
            h == message_hash(*message),
    {
        let mut hasher = DefaultHasher::new();
        let end: [u8; 1] = [0xffu8];
        hasher.write(message.timestamp.as_str().as_bytes());
        hasher.write(&end);
        hasher.write(message.author.as_str().as_bytes());
        hasher.write(&end);
        hasher.write(message.content.as_str().as_bytes());
        hasher.write(&end);
        proof {
            assert(end@ =~= seq![0xffu8]);
            assert(hasher@ =~= seq![
                encode_utf8(message.timestamp@), seq![0xffu8],
                encode_utf8(message.author@), seq![0xffu8],
                encode_utf8(message.content@), seq![0xffu8],
            ]);
        }
        hasher.finish()
    }

    fn restore_from_archive(&mut self, max_count: usize)
        requires
            old(self).archive@.len() <= old(self).archived_count,
        ensures
            (final(self).display_window@, final(self).archive@, final(self).archived_count as nat)
                == restored(
                old(self).display_window@,
                old(self).archive@,
                old(self).archived_count as nat,
                old(self).config.enable_archive,
                max_count as nat,
            ),
            final(self).config == old(self).config,
            final(self).seen_ids@ == old(self).seen_ids@,
            final(self).total_count == old(self).total_count,
    {
        if !self.config.enable_archive || self.archive.len() == 0 {
            return;
        }
        let n = if max_count < self.archive.len() { max_count } else { self.archive.len() };
        let ghost w0 = self.display_window@;
        let ghost a0 = self.archive@;
        let ghost c0 = self.archived_count;
        let mut i: usize = 0;
        while i < n
            invariant
                n <= a0.len(),
                i <= n,
                self.archive@ == a0.take(a0.len() - i),
                self.display_window@ == a0.subrange(a0.len() - i, a0.len() as int) + w0,
                self.archived_count == c0 - i,
                a0.len() <= c0,
                self.config == old(self).config,
                self.seen_ids@ == old(self).seen_ids@,
                self.total_count == old(self).total_count,
            decreases n - i,
        {
            let m = self.archive.pop().unwrap();
            self.display_window.push_front(m);
            self.archived_count = self.archived_count.saturating_sub(1);
            assert(a0.take(a0.len() - i).drop_last() =~= a0.take(a0.len() - (i + 1)));
            assert(seq![a0[a0.len() - (i + 1)]] + (a0.subrange(a0.len() - i, a0.len() as int) + w0)
                =~= a0.subrange(a0.len() - (i + 1), a0.len() as int) + w0);
            i += 1;
        }
    }

    fn move_to_archive(&mut self, limit: usize)
        requires
            old(self).display_window@.len() > limit,
            old(self).display_window@.len() + old(self).archived_count <= usize::MAX,
        ensures
            (final(self).display_window@, final(self).archive@, final(self).archived_count as nat)
                == trimmed_to(
                old(self).display_window@,
                old(self).archive@,
                old(self).archived_count as nat,
                old(self).config.enable_archive,
                limit as nat,
            ),
            final(self).config == old(self).config,
            final(self).seen_ids@ == old(self).seen_ids@,
            final(self).total_count == old(self).total_count,
    {
        let ghost w0 = self.display_window@;
        let ghost a0 = self.archive@;
        let ghost c0 = self.archived_count;
        while self.display_window.len() > limit
            invariant
                limit < w0.len(),
                limit <= self.display_window@.len() <= w0.len(),
                w0.len() + c0 <= usize::MAX,
                self.display_window@ == w0.skip(w0.len() - self.display_window@.len()),
                self.archive@ == if self.config.enable_archive {
                    a0 + w0.take(w0.len() - self.display_window@.len())
                } else {
                    a0
                },
                self.archived_count == c0 + (w0.len() - self.display_window@.len()),
                self.config == old(self).config,
                self.seen_ids@ == old(self).seen_ids@,
                self.total_count == old(self).total_count,
            decreases self.display_window@.len(),
        {
            let ghost k = w0.len() - self.display_window@.len();
            let m = self.display_window.pop_front().unwrap();
            assert(m == w0[k]);
            if self.config.enable_archive {
                self.archive.push(m);
                assert(a0 + w0.take(k) + seq![w0[k]] =~= a0 + w0.take(k + 1));
            }
            self.archived_count += 1;
            assert(w0.skip(k).drop_first() =~= w0.skip(k + 1));
        }
    }

    fn apply_display_limit(&mut self)
        requires
            old(self).archive@.len() <= old(self).archived_count,
            old(self).display_window@.len() + old(self).archived_count <= usize::MAX,
            limit_computable(old(self).config.display_limit),
        ensures
            (final(self).display_window@, final(self).archive@, final(self).archived_count as nat)
                == limited(
                old(self).display_window@,
                old(self).archive@,
                old(self).archived_count as nat,
                old(self).config,
            ),
            final(self).config == old(self).config,
            final(self).seen_ids@ == old(self).seen_ids@,
            final(self).total_count == old(self).total_count,
    {
        let limit: usize = match &self.config.display_limit {
            DisplayLimit::Unlimited => {
                let n = self.archive.len();
                self.restore_from_archive(n);
                return;
            },
            DisplayLimit::Fixed(count) => *count,
            DisplayLimit::Memory(mb) => (*mb * 1048576) / 300,
            DisplayLimit::Performance(_) => 100,
        };
        if self.display_window.len() < limit {
            let k = limit - self.display_window.len();
            self.restore_from_archive(k);
        } else if self.display_window.len() > limit {
            self.move_to_archive(limit);
        }
    }

    /// Adds a message, unless a message with the same identifier hash was
    /// accepted before; then applies the display limit.
    pub fn push_message(&mut self, message: GuiChatMessage)
        requires
            old(self).wf(),
            old(self).total() < usize::MAX,
        ensures
            final(self).wf(),
            final(self).settings() == old(self).settings(),
            old(self).seen().contains(message_hash(message)) ==> {
                &&& final(self).window() == old(self).window()
                &&& final(self).archived() == old(self).archived()
                &&& final(self).seen() == old(self).seen()
                &&& final(self).total() == old(self).total()
                &&& final(self).archived_total() == old(self).archived_total()
            },
            !old(self).seen().contains(message_hash(message)) ==> {
                &&& (final(self).window(), final(self).archived(), final(self).archived_total())
                    == limited(
                    old(self).window().push(message),
                    old(self).archived(),
                    old(self).archived_total(),
                    old(self).settings(),
                )
                &&& final(self).seen() == old(self).seen().insert(message_hash(message))
                &&& final(self).total() == old(self).total() + 1
            },
            final(self).history_state() == push_step(old(self).history_state(), message, old(self).settings()),
    {
        let id = Self::message_id(&message);
        if self.seen_ids.contains(&id) {
            return;
        }
        let ghost before = self.archive@ + self.display_window@;
        self.total_count += 1;
        self.seen_ids.insert(id);
        self.display_window.push_back(message);
        proof {
            let all = self.archive@ + self.display_window@;
            assert(all =~= before.push(message));
            assert forall|i: int, j: int| 0 <= i < j < all.len() implies message_hash(#[trigger] all[i])
                != message_hash(#[trigger] all[j]) by {
                if j == before.len() {
                    assert(all[i] == before[i]);
                } else {
                    assert(all[i] == before[i] && all[j] == before[j]);
                }
            }
            assert forall|i: int| 0 <= i < all.len() implies self.seen_ids@.contains(message_hash(#[trigger] all[i])) by {
                if i < before.len() {
                    assert(all[i] == before[i]);
                }
            }
            lemma_limited_apart(self.display_window@, self.archive@, self.archived_count as nat, self.config, self.seen_ids@);
        }
        self.apply_display_limit();
    }

    /// The state of the stream as the steps of the history see it.
    pub open spec fn history_state(&self) -> StreamState {
        StreamState {
            window: self.window(),
            archived: self.archived(),
            archived_total: self.archived_total(),
            seen: self.seen(),
            total: self.total(),
        }
    }

    /// Adds messages one after another, as `push_message` does.
    pub fn push_messages(&mut self, messages: Vec<GuiChatMessage>)
        requires
            old(self).wf(),
            old(self).total() + messages@.len() <= usize::MAX,
        ensures
            final(self).wf(),
            final(self).settings() == old(self).settings(),
            final(self).history_state() == pushed_all(old(self).history_state(), messages@, old(self).settings()),
            final(self).total() <= old(self).total() + messages@.len(),
            forall|h: u64|
                final(self).seen().contains(h) <==> (old(self).seen().contains(h) || exists|j: int|
                    0 <= j < messages@.len() && message_hash(#[trigger] messages@[j]) == h),
    {
        let ghost all = messages@;
        let ghost st0 = self.history_state();
        let ghost cfg = self.settings();
        let mut rest = messages;
        let ghost i: int = 0;
        assert(all.take(0) =~= Seq::<GuiChatMessage>::empty());
        assert(rest@ =~= all.skip(0));
        while rest.len() > 0
            invariant
                self.wf(),
                0 <= i <= all.len(),
                rest@ == all.skip(i),
                self.settings() == cfg,
                cfg == old(self).settings(),
                st0 == old(self).history_state(),
                self.history_state() == pushed_all(st0, all.take(i), cfg),
                self.total() <= old(self).total() + i,
                old(self).total() + all.len() <= usize::MAX,
            decreases rest.len(),
        {
            let m = rest.remove(0);
            proof {
                assert(m == all[i]);
                assert(rest@ =~= all.skip(i + 1));
                assert(all.take(i + 1).drop_last() =~= all.take(i));
                assert(all.take(i + 1).last() == all[i]);
            }
            self.push_message(m);
            proof {
                i = i + 1;
            }
        }
        proof {
            assert(all.take(all.len() as int) =~= all);
            lemma_pushed_all_seen(st0, all, cfg);
            assert(self.seen() == pushed_all(st0, all, cfg).seen);
            assert(st0.seen == old(self).seen());
            assert forall|h: u64|
                self.seen().contains(h) <==> (old(self).seen().contains(h) || exists|j: int|
                    0 <= j < all.len() && message_hash(#[trigger] all[j]) == h) by {
                assert(pushed_all(st0, all, cfg).seen.contains(h) <==> (st0.seen.contains(h) || exists|j: int|
                    0 <= j < all.len() && message_hash(#[trigger] all[j]) == h));
            }
        }
    }

    /// Copies of the displayed messages, oldest first.
    pub fn display_messages(&self) -> (r: Vec<GuiChatMessage>)
        ensures
            same_messages(r@, self.window()),
    {
        let mut r: Vec<GuiChatMessage> = Vec::new();
        let mut i: usize = 0;
        while i < self.display_window.len()
            invariant
                i <= self.display_window@.len(),
                r@.len() == i,
                forall|j: int| 0 <= j < i ==> (#[trigger] r@[j]).same_as(self.display_window@[j]),
            decreases self.display_window@.len() - i,
        {
            r.push(self.display_window[i].duplicate());
            i += 1;
        }
        r
    }

    /// The displayed messages, oldest first.
    pub fn display_messages_ref(&self) -> (r: &VecDeque<GuiChatMessage>)
        ensures
            r@ == self.window(),
    {
        &self.display_window
    }

    /// Copies of the newest `n` displayed messages, oldest first.
    pub fn recent_messages(&self, n: usize) -> (r: Vec<GuiChatMessage>)
        ensures
            same_messages(
                r@,
                self.window().skip(
                    if n < self.window().len() { self.window().len() - n } else { 0 },
                ),
            ),
    {
        let len = self.display_window.len();
        let start = if n < len { len - n } else { 0 };
        let mut r: Vec<GuiChatMessage> = Vec::new();
        let mut i: usize = start;
        while i < len
            invariant
                start <= i <= len == self.display_window@.len(),
                r@.len() == i - start,
                forall|j: int| 0 <= j < i - start ==> (#[trigger] r@[j]).same_as(self.display_window@[start + j]),
            decreases len - i,
        {
            r.push(self.display_window[i].duplicate());
            i += 1;
        }
        r
    }

    /// Number of displayed messages.
    pub fn display_count(&self) -> (n: usize)
        ensures
            n == self.window().len(),
    {
        self.display_window.len()
    }

    /// Number of messages accepted since creation or the last `clear`.
    pub fn total_count(&self) -> (n: usize)
        ensures
            n == self.total(),
    {
        self.total_count
    }

    /// Number of messages that left the window and did not come back.
    pub fn archived_count(&self) -> (n: usize)
        ensures
            n == self.archived_total(),
    {
        self.archived_count
    }

    /// Replaces the settings and applies the new display limit at once.
    pub fn update_config(&mut self, config: MessageStreamConfig)
        requires
            old(self).wf(),
            limit_computable(config.display_limit),
        ensures
            final(self).wf(),
            final(self).settings() == config,
            (final(self).window(), final(self).archived(), final(self).archived_total()) == limited(
                old(self).window(),
                old(self).archived(),
                old(self).archived_total(),
                config,
            ),
            final(self).seen() == old(self).seen(),
            final(self).total() == old(self).total(),
            (final(self).history_state(), final(self).settings()) == stream_step(
                old(self).history_state(),
                old(self).settings(),
                StreamEvent::Configure(config),
            ),
    {
        self.config = config;
        proof {
            lemma_limited_apart(self.display_window@, self.archive@, self.archived_count as nat, self.config, self.seen_ids@);
        }
        self.apply_display_limit();
    }

    /// The current settings.
    pub fn config(&self) -> (c: &MessageStreamConfig)
        ensures
            *c == self.settings(),
    {
        &self.config
    }

    /// Counters and memory figures; the reduction percent is the archived
    /// share of all accepted messages, rounded down.
    pub fn stats(&self) -> (st: MessageStreamStats)
        requires
            self.wf(),
            (self.window().len() + self.archived().len()) * vstd::layout::size_of::<GuiChatMessage>()
                <= usize::MAX,
        ensures
            st.display_count == self.window().len(),
            st.archived_count == self.archived_total(),
            st.total_count == self.total(),
            st.display_memory_bytes == self.window().len() * vstd::layout::size_of::<GuiChatMessage>(),
            st.archive_memory_bytes == if self.settings().enable_archive {
                self.archived().len() * vstd::layout::size_of::<GuiChatMessage>()
            } else {
                0
            },
            st.total_memory_bytes == st.display_memory_bytes + st.archive_memory_bytes,
            st.effective_reduction_percent == if self.total() > 0 {
                self.archived_total() * 100 / self.total()
            } else {
                0
            },
    {
        let size = core::mem::size_of::<GuiChatMessage>();
        let w = self.display_window.len();
        let a = self.archive.len();
        proof {
            vstd::arithmetic::mul::lemma_mul_inequality(w as int, (w + a) as int, size as int);
            vstd::arithmetic::mul::lemma_mul_inequality(a as int, (w + a) as int, size as int);
            vstd::arithmetic::mul::lemma_mul_is_distributive_add_other_way(size as int, w as int, a as int);
        }
        let display_memory = w * size;
        let archive_memory = if self.config.enable_archive { a * size } else { 0 };
        let percent: u32 = if self.total_count > 0 {
            let num: u128 = (self.archived_count as u128) * 100;
            let den: u128 = self.total_count as u128;
            let p: u128 = num / den;
            assert(p <= 100) by (nonlinear_arith)
                requires
                    num <= den * 100,
                    den > 0,
                    p == num / den,
            ;
            p as u32
        } else {
            0
        };
        MessageStreamStats {
            display_count: w,
            archived_count: self.archived_count,
            total_count: self.total_count,
            display_memory_bytes: display_memory,
            archive_memory_bytes: archive_memory,
            total_memory_bytes: display_memory + archive_memory,
            effective_reduction_percent: percent,
        }
    }

    /// Removes all displayed and archived messages and resets the counters;
    /// the identifiers of accepted messages are kept.
    pub fn clear(&mut self)
        ensures
            final(self).wf() == limit_computable(old(self).settings().display_limit),
            final(self).window() == Seq::<GuiChatMessage>::empty(),
            final(self).archived() == Seq::<GuiChatMessage>::empty(),
            final(self).seen() == old(self).seen(),
            final(self).settings() == old(self).settings(),
            final(self).total() == 0,
            final(self).archived_total() == 0,
    {
        self.display_window.clear();
        self.archive.clear();
        self.total_count = 0;
        self.archived_count = 0;
        assert(self.archive@ + self.display_window@ =~= Seq::<GuiChatMessage>::empty());
    }

    /// Archived messages by `author` (none when archive search is disabled).
    pub fn search_by_author(&self, author: &str) -> (r: Vec<&GuiChatMessage>)
        ensures
            r@.len() == (if self.settings().archive_search_enabled {
                by_author(self.archived(), author@).len()
            } else {
                0
            }),
            self.settings().archive_search_enabled ==> forall|i: int|
                0 <= i < r@.len() ==> *r@[i] == by_author(self.archived(), author@)[i],
    {
        let mut r: Vec<&GuiChatMessage> = Vec::new();
        if !self.config.archive_search_enabled {
            return r;
        }
        let mut i: usize = 0;
        while i < self.archive.len()
            invariant
                i <= self.archive@.len(),
                r@.len() == by_author(self.archive@.take(i as int), author@).len(),
                forall|j: int|
                    0 <= j < r@.len() ==> *r@[j] == by_author(self.archive@.take(i as int), author@)[j],
            decreases self.archive@.len() - i,
        {
            let m = &self.archive[i];
            assert(self.archive@.take(i + 1).drop_last() =~= self.archive@.take(i as int));
            if m.author == author.to_string() {
                r.push(m);
            }
            i += 1;
        }
        assert(self.archive@.take(self.archive@.len() as int) =~= self.archive@);
        r
    }

    /// Archived messages whose content contains `keyword` (none when archive
    /// search is disabled).
    pub fn search_by_content(&self, keyword: &str) -> (r: Vec<&GuiChatMessage>)
        ensures
            r@.len() == (if self.settings().archive_search_enabled {
                by_content(self.archived(), keyword@).len()
            } else {
                0
            }),
            self.settings().archive_search_enabled ==> forall|i: int|
                0 <= i < r@.len() ==> *r@[i] == by_content(self.archived(), keyword@)[i],
    {
        let mut r: Vec<&GuiChatMessage> = Vec::new();
        if !self.config.archive_search_enabled {
            return r;
        }
        let mut i: usize = 0;
        while i < self.archive.len()
            invariant
                i <= self.archive@.len(),
                r@.len() == by_content(self.archive@.take(i as int), keyword@).len(),
                forall|j: int|
                    0 <= j < r@.len() ==> *r@[j] == by_content(self.archive@.take(i as int), keyword@)[j],
            decreases self.archive@.len() - i,
        {
            let m = &self.archive[i];
            assert(self.archive@.take(i + 1).drop_last() =~= self.archive@.take(i as int));
            if str_contains(m.content.as_str(), keyword) {
                r.push(m);
            }
            i += 1;
        }
        assert(self.archive@.take(self.archive@.len() as int) =~= self.archive@);
        r
    }
}


/// Applying a display limit neither loses nor reorders messages while the
/// archive is enabled: archive followed by window stays the same sequence.
pub proof fn lemma_limit_keeps_order(
    window: Seq<GuiChatMessage>,
    archive: Seq<GuiChatMessage>,
    archived: nat,
    config: MessageStreamConfig,
)
    requires
        config.enable_archive,
    ensures
        ({
            let r = limited(window, archive, archived, config);
            r.1 + r.0 == archive + window
        }),
{
    let r = limited(window, archive, archived, config);
    match limit_count(config.display_limit) {
        None => {
            if archive.len() > 0 {
                assert(archive.take(0) + (archive.subrange(0, archive.len() as int) + window) =~= archive + window);
            }
        },
        Some(l) => {
            if window.len() < l {
                if archive.len() > 0 {
                    let n = if ((l - window.len()) as nat) < archive.len() { (l - window.len()) as nat } else { archive.len() };
                    let rest = archive.len() - n;
                    assert(archive.take(rest) + (archive.subrange(rest, archive.len() as int) + window) =~= archive + window);
                }
            } else if window.len() > l {
                let over = window.len() - l;
                assert(archive + window.take(over) + window.skip(over) =~= archive + window);
            }
        },
    }
}

/// Every message counted before applying a display limit is still counted
/// after it, either as displayed or as archived.
pub proof fn lemma_limit_keeps_count(
    window: Seq<GuiChatMessage>,
    archive: Seq<GuiChatMessage>,
    archived: nat,
    config: MessageStreamConfig,
)
    requires
        archive.len() <= archived,
    ensures
        ({
            let r = limited(window, archive, archived, config);
            r.0.len() + r.2 == window.len() + archived && r.1.len() <= r.2
        }),
{
}

/// After a display limit of `l` messages is applied, the window holds at
/// most `l` messages.
pub proof fn lemma_limit_bounds_window(
    window: Seq<GuiChatMessage>,
    archive: Seq<GuiChatMessage>,
    archived: nat,
    config: MessageStreamConfig,
)
    requires
        limit_count(config.display_limit) is Some,
    ensures
        limited(window, archive, archived, config).0.len() <= limit_count(config.display_limit)->0,
{
}

/// With no limit and the archive enabled, every archived message comes back
/// in front of the window, oldest first.
pub proof fn lemma_unlimited_restores_all(
    window: Seq<GuiChatMessage>,
    archive: Seq<GuiChatMessage>,
    archived: nat,
    config: MessageStreamConfig,
)
    requires
        config.display_limit == DisplayLimit::Unlimited,
        config.enable_archive,
        archive.len() <= archived,
    ensures
        limited(window, archive, archived, config) == (
            archive + window,
            Seq::<GuiChatMessage>::empty(),
            (archived - archive.len()) as nat,
        ),
{
    if archive.len() > 0 {
        assert(archive.subrange(0, archive.len() as int) =~= archive);
        assert(archive.take(0) =~= Seq::<GuiChatMessage>::empty());
    } else {
        assert(archive + window =~= window);
        assert(archive =~= Seq::<GuiChatMessage>::empty());
    }
}

/// Lowering the limit below the window size and raising it back to that
/// size (archive enabled) restores the original window, archive and count.
pub proof fn lemma_shrink_then_grow_restores(
    window: Seq<GuiChatMessage>,
    archive: Seq<GuiChatMessage>,
    archived: nat,
    small: usize,
    config: MessageStreamConfig,
)
    requires
        config.enable_archive,
        small < window.len(),
        window.len() <= usize::MAX,
    ensures
        ({
            let shrunk = limited(
                window,
                archive,
                archived,
                MessageStreamConfig { display_limit: DisplayLimit::Fixed(small), ..config },
            );
            limited(
                shrunk.0,
                shrunk.1,
                shrunk.2,
                MessageStreamConfig { display_limit: DisplayLimit::Fixed(window.len() as usize), ..config },
            ) == (window, archive, archived)
        }),
{
    let over = window.len() - small;
    let a1 = archive + window.take(over);
    let w1 = window.skip(over);
    assert(a1.len() > 0);
    assert(a1.subrange(a1.len() - over, a1.len() as int) + w1 =~= window);
    assert(a1.take(a1.len() - over) =~= archive);
}

/// Over a whole history of pushes into a fresh stream: a message whose
/// identifier hash (of its time, author and text) is that of a message
/// pushed before changes nothing; any other message is counted, and ends
/// the display window whenever the display limit allows at least one
/// message.
pub proof fn lemma_repeated_message_changes_nothing(
    st: StreamState,
    ms: Seq<GuiChatMessage>,
    m: GuiChatMessage,
    config: MessageStreamConfig,
)
    requires
        st.seen == Set::<u64>::empty(),
    ensures
        (exists|j: int| 0 <= j < ms.len() && message_hash(#[trigger] ms[j]) == message_hash(m))
            ==> pushed_all(st, ms.push(m), config) == pushed_all(st, ms, config),
        !(exists|j: int| 0 <= j < ms.len() && message_hash(#[trigger] ms[j]) == message_hash(m)) ==> {
            let before = pushed_all(st, ms, config);
            let after = pushed_all(st, ms.push(m), config);
            &&& after.total == before.total + 1
            &&& after.seen == before.seen.insert(message_hash(m))
            &&& (limit_count(config.display_limit) is None || limit_count(config.display_limit).unwrap() >= 1)
                ==> after.window.len() > 0 && after.window.last() == m
        },
{
    let before = pushed_all(st, ms, config);
    assert(ms.push(m).drop_last() =~= ms);
    assert(ms.push(m).last() == m);
    assert(pushed_all(st, ms.push(m), config) == push_step(before, m, config));
    lemma_pushed_all_seen(st, ms, config);
    assert(before.seen.contains(message_hash(m)) <==> (st.seen.contains(message_hash(m)) || exists|j: int|
        0 <= j < ms.len() && message_hash(#[trigger] ms[j]) == message_hash(m)));
    if !before.seen.contains(message_hash(m)) {
        let w = before.window.push(m);
        let (w2, a2, c2) = limited(w, before.archived, before.archived_total, config);
        if limit_count(config.display_limit) is None || limit_count(config.display_limit).unwrap() >= 1 {
            match limit_count(config.display_limit) {
                None => {},
                Some(l) => {
                    if w.len() > l {
                        let over = w.len() - l;
                        assert(w2 =~= w.skip(over));
                        assert(w2.last() == w[w.len() - 1]);
                    }
                },
            }
            assert(w2.len() > 0 && w2.last() == m);
        }
    }
}

/// How many of `t` messages a limit of `l` messages (`None`: no limit)
/// leaves displayed.
pub open spec fn shown_count(l: Option<nat>, t: nat) -> nat {
    match l {
        Some(k) => if k < t { k } else { t },
        None => t,
    }
}

/// With the archive on, applying a display limit only moves messages
/// between the end of the archive and the start of the window: the archive
/// followed by the window stays the same, the archived count stays the
/// archive's length, and the window holds as many of the messages as the
/// limit shows.
proof fn lemma_limited_in_order(
    window: Seq<GuiChatMessage>,
    archive: Seq<GuiChatMessage>,
    archived: nat,
    config: MessageStreamConfig,
)
    requires
        config.enable_archive,
        archived == archive.len(),
    ensures
        ({
            let (w, a, c) = limited(window, archive, archived, config);
            &&& a + w == archive + window
            &&& c == a.len()
            &&& w.len() == shown_count(limit_count(config.display_limit), (archive + window).len())
        }),
{
    let (w, a, c) = limited(window, archive, archived, config);
    let all = archive + window;
    match limit_count(config.display_limit) {
        None => {
            if archive.len() > 0 {
                assert(archive.subrange(0, archive.len() as int) =~= archive);
                assert(archive.take(0) =~= Seq::<GuiChatMessage>::empty());
            }
            assert(a + w =~= all);
        },
        Some(l) => {
            if window.len() < l {
                if archive.len() > 0 {
                    let k = (l - window.len()) as nat;
                    let n = if k < archive.len() { k } else { archive.len() };
                    let rest = archive.len() - n;
                    assert(archive.take(rest) + (archive.subrange(rest, archive.len() as int) + window) =~= all);
                }
                assert(a + w =~= all);
            } else if window.len() > l {
                let over = window.len() - l;
                assert(archive + window.take(over) + window.skip(over) =~= all);
            }
        },
    }
}

/// What happens to a message stream: a message pushed, or new settings.
pub enum StreamEvent {
    Push(GuiChatMessage),
    Configure(MessageStreamConfig),
}

/// The state and settings after one event, as `push_message` and
/// `update_config` leave them.
pub open spec fn stream_step(st: StreamState, config: MessageStreamConfig, ev: StreamEvent) -> (StreamState, MessageStreamConfig) {
    match ev {
        StreamEvent::Push(m) => (push_step(st, m, config), config),
        StreamEvent::Configure(c) => {
            let (w, a, n) = limited(st.window, st.archived, st.archived_total, c);
            (StreamState { window: w, archived: a, archived_total: n, ..st }, c)
        },
    }
}

/// The state and settings after the events `evs`, in order.
pub open spec fn run_stream(st: StreamState, config: MessageStreamConfig, evs: Seq<StreamEvent>) -> (
    StreamState,
    MessageStreamConfig,
)
    decreases evs.len(),
{
    if evs.len() == 0 {
        (st, config)
    } else {
        let (s1, c1) = run_stream(st, config, evs.drop_last());
        stream_step(s1, c1, evs.last())
    }
}

/// The messages the events `evs` got accepted, in push order: those whose
/// identifier hash had not been seen.
pub open spec fn accepted(st: StreamState, config: MessageStreamConfig, evs: Seq<StreamEvent>) -> Seq<GuiChatMessage>
    decreases evs.len(),
{
    if evs.len() == 0 {
        Seq::empty()
    } else {
        let before = accepted(st, config, evs.drop_last());
        match evs.last() {
            StreamEvent::Push(m) => if run_stream(st, config, evs.drop_last()).0.seen.contains(message_hash(m)) {
                before
            } else {
                before.push(m)
            },
            StreamEvent::Configure(_) => before,
        }
    }
}

/// Over any history of pushes and new settings (`push_message` and
/// `update_config` each take the step `stream_step`, as their contracts
/// state; `push_messages` takes one per message), from an empty stream,
/// with the archive on under every setting: no accepted message is lost or
/// reordered (the archive followed by the window is exactly the accepted
/// messages, in push order), the window shows the newest of them, as many
/// as the current limit allows (all of them without a limit), the archived
/// count is the number of the rest, and the total is the number accepted.
pub proof fn lemma_stream_history(config: MessageStreamConfig, evs: Seq<StreamEvent>)
    requires
        config.enable_archive,
        forall|i: int| 0 <= i < evs.len() ==> (#[trigger] evs[i] matches StreamEvent::Configure(c) ==> c.enable_archive),
    ensures
        ({
            let init = StreamState {
                window: Seq::empty(),
                archived: Seq::empty(),
                archived_total: 0,
                seen: Set::empty(),
                total: 0,
            };
            let (r, c) = run_stream(init, config, evs);
            let acc = accepted(init, config, evs);
            let t = acc.len();
            let shown = shown_count(limit_count(c.display_limit), t);
            &&& c.enable_archive
            &&& r.archived + r.window == acc
            &&& r.window == acc.skip(t - shown)
            &&& r.archived_total == t - shown
            &&& r.total == t
        }),
    decreases evs.len(),
{
    let init = StreamState {
        window: Seq::empty(),
        archived: Seq::empty(),
        archived_total: 0,
        seen: Set::empty(),
        total: 0,
    };
    if evs.len() == 0 {
        assert(init.archived + init.window =~= Seq::<GuiChatMessage>::empty());
    } else {
        let rest = evs.drop_last();
        assert forall|i: int| 0 <= i < rest.len() implies (#[trigger] rest[i] matches StreamEvent::Configure(c) ==> c.enable_archive) by {
            assert(rest[i] == evs[i]);
        }
        lemma_stream_history(config, rest);
        let (s1, c1) = run_stream(init, config, rest);
        let acc1 = accepted(init, config, rest);
        let acc = accepted(init, config, evs);
        let (r, c) = run_stream(init, config, evs);
        assert(evs[evs.len() - 1] == evs.last());
        match evs.last() {
            StreamEvent::Push(m) => {
                if !s1.seen.contains(message_hash(m)) {
                    lemma_limited_in_order(s1.window.push(m), s1.archived, s1.archived_total, c1);
                    assert(s1.archived + s1.window.push(m) =~= acc);
                }
            },
            StreamEvent::Configure(cn) => {
                lemma_limited_in_order(s1.window, s1.archived, s1.archived_total, cn);
            },
        }
        let t = acc.len();
        let shown = shown_count(limit_count(c.display_limit), t);
        assert(r.window =~= acc.skip(t - shown)) by {
            assert(r.archived + r.window == acc);
            assert forall|i: int| 0 <= i < r.window.len() implies r.window[i] == acc.skip(t - shown)[i] by {
                assert(acc[r.archived.len() + i] == r.window[i]);
            }
        }
    }
}

} // verus!
