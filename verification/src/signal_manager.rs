//! Batching of interface updates: requests are debounced by key, and each
//! batch is applied by priority, the messages of all message updates
//! together, the other updates one by one.
use vstd::prelude::*;

use crate::models::GuiChatMessage;
use crate::monitoring::ServiceState;
use crate::notification::CooldownBook;
use crate::text::{push_decimal, push_str};
use std::time::Instant;

verus! {

/// What an update changes.
#[derive(Debug, Clone)]
pub enum SignalUpdateType {
    MessageAdded(GuiChatMessage),
    MessagesAdded(Vec<GuiChatMessage>),
    MessagesClear,
    ServiceStateChanged(ServiceState),
    ConnectionChanged(bool),
    StoppingChanged(bool),
    /// The statistics changed (nothing is applied for it).
    StatsUpdated,
}

/// How soon an update is applied.
#[derive(Debug, Clone, Copy, PartialEq, Eq, Structural)]
pub enum UpdatePriority {
    /// At once (interface states).
    High,
    /// With the next batch (messages).
    Medium,
    /// Last in a batch (statistics).
    Low,
}

/// A requested update.
#[derive(Debug, Clone)]
pub struct SignalUpdateRequest {
    pub update_type: SignalUpdateType,
    pub priority: UpdatePriority,
    pub timestamp: Instant,
    /// Requests with the same key within ten milliseconds are dropped.
    pub debounce_key: Option<String>,
}

/// The requests of `s` with priority `p`, in order.
pub open spec fn with_priority(s: Seq<SignalUpdateRequest>, p: UpdatePriority) -> Seq<SignalUpdateRequest>
    decreases s.len(),
{
    if s.len() == 0 {
        s
    } else if s.last().priority == p {
        with_priority(s.drop_last(), p).push(s.last())
    } else {
        with_priority(s.drop_last(), p)
    }
}

/// The requests of `s` sorted by priority, the order of equal priorities
/// kept: the high ones, then the medium ones, then the low ones.
pub open spec fn by_priority(s: Seq<SignalUpdateRequest>) -> Seq<SignalUpdateRequest> {
    with_priority(s, UpdatePriority::High) + with_priority(s, UpdatePriority::Medium) + with_priority(
        s,
        UpdatePriority::Low,
    )
}

/// The messages of the message updates of `s`, in order.
pub open spec fn message_payloads(s: Seq<SignalUpdateRequest>) -> Seq<GuiChatMessage>
    decreases s.len(),
{
    if s.len() == 0 {
        Seq::empty()
    } else {
        let rest = message_payloads(s.drop_last());
        match s.last().update_type {
            SignalUpdateType::MessageAdded(m) => rest.push(m),
            SignalUpdateType::MessagesAdded(ms) => rest + ms@,
            _ => rest,
        }
    }
}

/// Whether a request adds messages.
pub open spec fn adds_messages(r: SignalUpdateRequest) -> bool {
    r.update_type is MessageAdded || r.update_type is MessagesAdded
}

/// The requests of `s` that do not add messages, in order.
pub open spec fn other_requests(s: Seq<SignalUpdateRequest>) -> Seq<SignalUpdateRequest>
    decreases s.len(),
{
    if s.len() == 0 {
        s
    } else if adds_messages(s.last()) {
        other_requests(s.drop_last())
    } else {
        other_requests(s.drop_last()).push(s.last())
    }
}

/// Microseconds within which a second request with the same key is dropped.
pub open spec fn debounce_micros() -> int {
    10_000
}

/// Counts of the update batching.
#[derive(Debug, Clone, Copy, PartialEq, Eq, Structural)]
pub struct UpdateStats {
    /// Updates applied.
    pub total_updates: u64,
    /// Batches of more than one update.
    pub batched_updates: u64,
    pub debounced_updates: u64,
    pub high_priority_updates: u64,
}

/// The decisions of the update batching: which keyed requests pass the
/// debounce, and the counts.
pub struct SignalManager {
    debounce: CooldownBook,
    stats: UpdateStats,
}

impl SignalManager {
    /// When each debounce key last passed, in microseconds.
    pub closed spec fn last_passed(&self) -> Map<Seq<char>, i64> {
        self.debounce.times()
    }

    pub closed spec fn counts(&self) -> UpdateStats {
        self.stats
    }

    pub closed spec fn wf(&self) -> bool {
        self.debounce.wf()
    }

    /// Nothing passed, nothing counted.
    pub fn new() -> (m: Self)
        ensures
            m.wf(),
            m.last_passed() == Map::<Seq<char>, i64>::empty(),
            m.counts() == (UpdateStats {
                total_updates: 0,
                batched_updates: 0,
                debounced_updates: 0,
                high_priority_updates: 0,
            }),
    {
        SignalManager {
            debounce: CooldownBook::new(),
            stats: UpdateStats {
                total_updates: 0,
                batched_updates: 0,
                debounced_updates: 0,
                high_priority_updates: 0,
            },
        }
    }

    /// Whether a request with `debounce_key`, made at `now_micros`, goes
    /// ahead: one without key always does; one with a key is dropped when
    /// the key last passed less than ten milliseconds before, else the key
    /// passes now.
    pub fn accept_request_at(&mut self, debounce_key: Option<&str>, now_micros: i64) -> (accepted: bool)
        requires
            old(self).wf(),
        ensures
            final(self).wf(),
            final(self).counts() == old(self).counts(),
            match debounce_key {
                None => accepted && final(self).last_passed() == old(self).last_passed(),
                Some(k) => {
                    let t = old(self).last_passed();
                    &&& accepted == !(t.contains_key(k@) && now_micros - t[k@] < debounce_micros())
                    &&& final(self).last_passed() == if accepted {
                        t.insert(k@, now_micros)
                    } else {
                        t
                    }
                },
            },
    {
        match debounce_key {
            None => true,
            Some(key) => {
                match self.debounce.get(key) {
                    Some(last) => {
                        if (now_micros as i128) - (last as i128) < 10_000 {
                            return false;
                        }
                    },
                    None => {},
                }
                self.debounce.set(key, now_micros);
                true
            },
        }
    }

    /// Whether an update of priority `p` is applied at once.
    pub fn applies_at_once(p: UpdatePriority) -> (r: bool)
        ensures
            r == (p == UpdatePriority::High),
    {
        p == UpdatePriority::High
    }

    /// Takes a batch apart for applying: sorted by priority (equal
    /// priorities in the order requested), the messages of all message
    /// updates in one list, and the other updates; counts the batch.
    pub fn process_batch_updates(&mut self, batch: Vec<SignalUpdateRequest>) -> (r: (
        Vec<GuiChatMessage>,
        Vec<SignalUpdateRequest>,
    ))
        requires
            old(self).counts().total_updates + batch@.len() <= u64::MAX,
            old(self).counts().batched_updates < u64::MAX,
        ensures
            r.0@ == message_payloads(by_priority(batch@)),
            r.1@ == other_requests(by_priority(batch@)),
            final(self).counts().total_updates == old(self).counts().total_updates + batch@.len(),
            final(self).counts().batched_updates == old(self).counts().batched_updates + (if batch@.len() > 1 {
                1int
            } else {
                0int
            }),
            final(self).counts().debounced_updates == old(self).counts().debounced_updates,
            final(self).counts().high_priority_updates == old(self).counts().high_priority_updates,
            final(self).last_passed() == old(self).last_passed(),
            final(self).wf() == old(self).wf(),
    {
        let n = batch.len();
        let ordered = sort_by_priority(batch);
        let parts = split_messages(ordered);
        self.stats.total_updates = self.stats.total_updates + n as u64;
        if n > 1 {
            self.stats.batched_updates = self.stats.batched_updates + 1;
        }
        parts
    }

    /// The counts.
    pub fn update_counts(&self) -> (s: UpdateStats)
        ensures
            s == self.counts(),
    {
        self.stats
    }

    /// The counts as a line of text.
    pub fn get_stats(&self) -> (s: String)
        ensures
            s@ == "📊 [SIGNAL_MGR] Stats: "@ + crate::text::decimal(self.counts().total_updates as nat)
                + " total, "@ + crate::text::decimal(self.counts().batched_updates as nat) + " batched, "@
                + crate::text::decimal(self.counts().debounced_updates as nat) + " debounced, "@
                + crate::text::decimal(self.counts().high_priority_updates as nat) + " high-priority"@,
    {
        let mut s = String::from_str("📊 [SIGNAL_MGR] Stats: ");
        push_decimal(&mut s, self.stats.total_updates);
        push_str(&mut s, " total, ");
        push_decimal(&mut s, self.stats.batched_updates);
        push_str(&mut s, " batched, ");
        push_decimal(&mut s, self.stats.debounced_updates);
        push_str(&mut s, " debounced, ");
        push_decimal(&mut s, self.stats.high_priority_updates);
        push_str(&mut s, " high-priority");
        s
    }
}

/// The requests sorted by priority, equal priorities in their order.
pub fn sort_by_priority(batch: Vec<SignalUpdateRequest>) -> (r: Vec<SignalUpdateRequest>)
    ensures
        r@ == by_priority(batch@),
{
    let ghost s = batch@;
    let mut rest = batch;
    let mut high: Vec<SignalUpdateRequest> = Vec::new();
    let mut medium: Vec<SignalUpdateRequest> = Vec::new();
    let mut low: Vec<SignalUpdateRequest> = Vec::new();
    let ghost mut k: int = 0;
    assert(s.take(0) =~= Seq::<SignalUpdateRequest>::empty());
    while rest.len() > 0
        invariant
            0 <= k <= s.len(),
            rest@ == s.skip(k),
            high@ == with_priority(s.take(k), UpdatePriority::High),
            medium@ == with_priority(s.take(k), UpdatePriority::Medium),
            low@ == with_priority(s.take(k), UpdatePriority::Low),
        decreases rest.len(),
    {
        let r = rest.remove(0);
        assert(r == s[k]);
        assert(s.take(k + 1).drop_last() =~= s.take(k));
        assert(s.take(k + 1).last() == s[k]);
        match r.priority {
            UpdatePriority::High => high.push(r),
            UpdatePriority::Medium => medium.push(r),
            UpdatePriority::Low => low.push(r),
        }
        proof {
            k = k + 1;
            assert(rest@ =~= s.skip(k));
        }
    }
    assert(s.take(k) =~= s);
    high.append(&mut medium);
    high.append(&mut low);
    high
}

/// The messages of the message updates, and the other updates, in order.
pub fn split_messages(ordered: Vec<SignalUpdateRequest>) -> (r: (Vec<GuiChatMessage>, Vec<SignalUpdateRequest>))
    ensures
        r.0@ == message_payloads(ordered@),
        r.1@ == other_requests(ordered@),
{
    let ghost s = ordered@;
    let mut rest = ordered;
    let mut messages: Vec<GuiChatMessage> = Vec::new();
    let mut others: Vec<SignalUpdateRequest> = Vec::new();
    let ghost mut k: int = 0;
    assert(s.take(0) =~= Seq::<SignalUpdateRequest>::empty());
    while rest.len() > 0
        invariant
            0 <= k <= s.len(),
            rest@ == s.skip(k),
            messages@ == message_payloads(s.take(k)),
            others@ == other_requests(s.take(k)),
        decreases rest.len(),
    {
        let r = rest.remove(0);
        assert(r == s[k]);
        assert(s.take(k + 1).drop_last() =~= s.take(k));
        assert(s.take(k + 1).last() == s[k]);
        match r.update_type {
            SignalUpdateType::MessageAdded(m) => messages.push(m),
            SignalUpdateType::MessagesAdded(ms) => {
                let mut ms = ms;
                messages.append(&mut ms);
            },
            other => {
                let kept = SignalUpdateRequest {
                    update_type: other,
                    priority: r.priority,
                    timestamp: r.timestamp,
                    debounce_key: r.debounce_key,
                };
                assert(kept == s[k]);
                others.push(kept);
            },
        }
        proof {
            k = k + 1;
            assert(rest@ =~= s.skip(k));
        }
    }
    assert(s.take(k) =~= s);
    (messages, others)
}


/// The rank of a priority: high first.
pub open spec fn rank(p: UpdatePriority) -> int {
    match p {
        UpdatePriority::High => 0,
        UpdatePriority::Medium => 1,
        UpdatePriority::Low => 2,
    }
}

proof fn lemma_with_priority_only(s: Seq<SignalUpdateRequest>, p: UpdatePriority)
    ensures
        forall|i: int| 0 <= i < with_priority(s, p).len() ==> (#[trigger] with_priority(s, p)[i]).priority == p,
    decreases s.len(),
{
    if s.len() > 0 {
        lemma_with_priority_only(s.drop_last(), p);
    }
}

proof fn lemma_split_multiset(s: Seq<SignalUpdateRequest>)
    ensures
        with_priority(s, UpdatePriority::High).to_multiset().add(
            with_priority(s, UpdatePriority::Medium).to_multiset(),
        ).add(with_priority(s, UpdatePriority::Low).to_multiset()) =~= s.to_multiset(),
    decreases s.len(),
{
    broadcast use vstd::seq_lib::group_to_multiset_ensures;
    broadcast use vstd::multiset::group_multiset_axioms;

    if s.len() > 0 {
        let t = s.drop_last();
        lemma_split_multiset(t);
        assert(s =~= t.push(s.last()));
    } else {
        assert(with_priority(s, UpdatePriority::High) =~= Seq::<SignalUpdateRequest>::empty());
        assert(with_priority(s, UpdatePriority::Medium) =~= Seq::<SignalUpdateRequest>::empty());
        assert(with_priority(s, UpdatePriority::Low) =~= Seq::<SignalUpdateRequest>::empty());
    }
}

/// Sorting a batch by priority loses and adds no request, and puts every
/// request of higher priority before every request of lower priority.
pub proof fn lemma_batch_order_keeps_requests(s: Seq<SignalUpdateRequest>)
    ensures
        by_priority(s).to_multiset() =~= s.to_multiset(),
        by_priority(s).len() == s.len(),
        forall|i: int, j: int|
            0 <= i < j < by_priority(s).len() ==> rank((#[trigger] by_priority(s)[i]).priority) <= rank(
                (#[trigger] by_priority(s)[j]).priority,
            ),
{
    broadcast use vstd::seq_lib::group_to_multiset_ensures;

    let h = with_priority(s, UpdatePriority::High);
    let m = with_priority(s, UpdatePriority::Medium);
    let l = with_priority(s, UpdatePriority::Low);
    lemma_split_multiset(s);
    vstd::seq_lib::lemma_multiset_commutative(h, m);
    vstd::seq_lib::lemma_multiset_commutative(h + m, l);
    lemma_with_priority_only(s, UpdatePriority::High);
    lemma_with_priority_only(s, UpdatePriority::Medium);
    lemma_with_priority_only(s, UpdatePriority::Low);
    let b = by_priority(s);
    vstd::seq_lib::lemma_multiset_commutative(h, m);
    assert(b.to_multiset() =~= s.to_multiset());
    assert(b.len() == b.to_multiset().len());
    assert(s.len() == s.to_multiset().len());
    assert forall|i: int, j: int| 0 <= i < j < b.len() implies rank((#[trigger] b[i]).priority) <= rank(
        (#[trigger] b[j]).priority,
    ) by {
        if i < h.len() {
            assert(b[i] == h[i]);
        } else if i < h.len() + m.len() {
            assert(b[i] == m[i - h.len()]);
            if j < h.len() + m.len() {
                assert(b[j] == m[j - h.len()]);
            } else {
                assert(b[j] == l[j - h.len() - m.len()]);
            }
        } else {
            assert(b[i] == l[i - h.len() - m.len()]);
            assert(b[j] == l[j - h.len() - m.len()]);
        }
    }
}

} // verus!
