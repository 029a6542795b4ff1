//! A message buffer whose size is bounded by a configurable strategy.
use vstd::prelude::*;

use crate::models::{copy_messages, same_messages, GuiChatMessage, MessageType};
use crate::text::str_eq;
use std::sync::Arc;

verus! {

/// How a `FlexibleMessageBuffer` bounds its size.
#[derive(Debug, Clone)]
pub enum BufferStrategy {
    /// No bound.
    Unlimited,
    /// At most the given number of messages; the oldest are dropped first.
    FixedLimit(usize),
    /// At most as many messages as fit in the given number of MB.
    MemoryBased { max_memory_mb: usize },
    /// Past 1000 messages, the oldest tenth is dropped.
    TimeBased { max_hours: u64 },
}

impl Default for BufferStrategy {
    fn default() -> (r: Self)
        ensures
            r is Unlimited,
    {
        BufferStrategy::Unlimited
    }
}

/// Settings for processing messages in batches.
#[derive(Debug, Clone)]
pub struct BatchConfig {
    pub batch_size: usize,
    pub batch_interval_ms: u64,
    pub max_batches: usize,
}

impl Default for BatchConfig {
    fn default() -> (r: Self)
        ensures
            r.batch_size == 50,
            r.batch_interval_ms == 100,
            r.max_batches == 10,
    {
        BatchConfig { batch_size: 50, batch_interval_ms: 100, max_batches: 10 }
    }
}

/// Size of one message in bytes, as `std::mem::size_of` reports it.
pub open spec fn message_size() -> nat {
    vstd::layout::size_of::<GuiChatMessage>()
}

/// The strategy's message count can be computed without overflow or a
/// division by zero.
pub open spec fn strategy_computable(strategy: BufferStrategy) -> bool {
    match strategy {
        BufferStrategy::MemoryBased { max_memory_mb } => max_memory_mb * 1048576 <= usize::MAX
            && message_size() > 0,
        _ => true,
    }
}

/// The number of messages a memory budget of `mb` MB allows.
pub open spec fn memory_capacity(mb: nat) -> nat {
    mb * 1048576 / message_size()
}

/// Buffer contents and dropped count after applying a strategy.
pub open spec fn cleaned(buffer: Seq<GuiChatMessage>, dropped: nat, strategy: BufferStrategy) -> (
    Seq<GuiChatMessage>,
    nat,
) {
    match strategy {
        BufferStrategy::Unlimited => (buffer, dropped),
        BufferStrategy::FixedLimit(limit) => if buffer.len() > limit {
            (buffer.skip(buffer.len() - limit), dropped + (buffer.len() - limit) as nat)
        } else {
            (buffer, dropped)
        },
        BufferStrategy::MemoryBased { max_memory_mb } => {
            let max = memory_capacity(max_memory_mb as nat);
            if buffer.len() > max {
                (buffer.skip(buffer.len() - max), dropped + (buffer.len() - max) as nat)
            } else {
                (buffer, dropped)
            }
        },
        BufferStrategy::TimeBased { .. } => if buffer.len() > 1000 {
            (buffer.skip((buffer.len() / 10) as int), dropped + buffer.len() / 10)
        } else {
            (buffer, dropped)
        },
    }
}

/// A message buffer bounded by a `BufferStrategy`.
#[derive(Debug)]
pub struct FlexibleMessageBuffer {
    buffer: Vec<GuiChatMessage>,
    strategy: BufferStrategy,
    dropped_count: usize,
    total_count: usize,
}

/// Shrinks a vector's capacity (`Vec::shrink_to_fit`); its contents stay.
#[verifier::external_body]
fn vec_shrink_to_fit(v: &mut Vec<GuiChatMessage>)
    ensures
        final(v)@ == old(v)@,
{
    v.shrink_to_fit();
}

/// The capacity of a vector (`Vec::capacity`). As std documents, it is at
/// least the vector's length, and a vector never holds an allocation of
/// more than `isize::MAX` bytes (`Vec::with_capacity` and `Vec::reserve`
/// panic rather than exceed it). Which capacity the allocator gave is not
/// stated.
#[verifier::external_body]
fn vec_capacity(v: &Vec<GuiChatMessage>) -> (c: usize)
    ensures
        c >= v@.len(),
        c * message_size() <= isize::MAX,
{
    v.capacity()
}

/// The memory figures of a buffer, in bytes. (The share of the allocation
/// left unused is a ratio the caller computes from them.)
#[derive(Debug, Clone, Copy, PartialEq, Eq, Structural)]
pub struct MemoryStats {
    /// The bytes the buffered messages take.
    pub used_memory: usize,
    /// The bytes the buffer has allocated.
    pub allocated_memory: usize,
    /// The number of messages the allocation holds.
    pub buffer_capacity: usize,
    pub message_count: usize,
}

impl FlexibleMessageBuffer {
    /// The memory figures of the buffer: the bytes its messages take and
    /// the bytes its allocation holds.
    pub fn memory_stats(&self) -> (m: MemoryStats)
        ensures
            m.message_count == self.contents().len(),
            m.used_memory == self.contents().len() * message_size(),
            m.buffer_capacity >= self.contents().len(),
            m.allocated_memory == m.buffer_capacity * message_size(),
    {
        let size = core::mem::size_of::<GuiChatMessage>();
        let capacity = vec_capacity(&self.buffer);
        let len = self.buffer.len();
        assert(len * message_size() <= capacity * message_size()) by (nonlinear_arith)
            requires
                len <= capacity,
        ;
        MemoryStats {
            used_memory: len * size,
            allocated_memory: capacity * size,
            buffer_capacity: capacity,
            message_count: len,
        }
    }

    /// The buffered messages, oldest first.
    pub closed spec fn contents(&self) -> Seq<GuiChatMessage> {
        self.buffer@
    }

    /// The current strategy.
    pub closed spec fn current_strategy(&self) -> BufferStrategy {
        self.strategy
    }

    /// Messages dropped since creation or the last `clear`.
    pub closed spec fn dropped(&self) -> nat {
        self.dropped_count as nat
    }

    /// Messages added since creation or the last `clear`.
    pub closed spec fn total(&self) -> nat {
        self.total_count as nat
    }

    /// The buffer's invariant: each added message is buffered or dropped.
    pub closed spec fn wf(&self) -> bool {
        &&& self.buffer@.len() + self.dropped_count == self.total_count
    }

    /// A new, empty buffer with the given strategy.
    pub fn new(strategy: BufferStrategy) -> (b: Self)
        ensures
            b.wf(),
            b.contents() == Seq::<GuiChatMessage>::empty(),
            b.current_strategy() == strategy,
            b.dropped() == 0,
            b.total() == 0,
    {
        FlexibleMessageBuffer { buffer: Vec::new(), strategy, dropped_count: 0, total_count: 0 }
    }

    fn apply_cleanup_strategy(&mut self)
        requires
            old(self).buffer@.len() + old(self).dropped_count <= usize::MAX,
            strategy_computable(old(self).strategy),
        ensures
            (final(self).buffer@, final(self).dropped_count as nat) == cleaned(
                old(self).buffer@,
                old(self).dropped_count as nat,
                old(self).strategy,
            ),
            final(self).strategy == old(self).strategy,
            final(self).total_count == old(self).total_count,
    {
        let len = self.buffer.len();
        let remove: usize = match &self.strategy {
            BufferStrategy::Unlimited => 0,
            BufferStrategy::FixedLimit(limit) => if len > *limit {
                len - *limit
            } else {
                0
            },
            BufferStrategy::MemoryBased { max_memory_mb } => {
                let size = core::mem::size_of::<GuiChatMessage>();
                let max = (*max_memory_mb * 1048576) / size;
                if len > max {
                    len - max
                } else {
                    0
                }
            },
            BufferStrategy::TimeBased { .. } => if len > 1000 {
                len / 10
            } else {
                0
            },
        };
        if remove > 0 {
            let rest = self.buffer.split_off(remove);
            self.buffer = rest;
            self.dropped_count = self.dropped_count + remove;
        }
    }

    /// Appends a message, then applies the strategy.
    pub fn push(&mut self, message: GuiChatMessage)
        requires
            old(self).wf(),
            old(self).total() < usize::MAX,
            strategy_computable(old(self).current_strategy()),
        ensures
            final(self).wf(),
            final(self).current_strategy() == old(self).current_strategy(),
            final(self).total() == old(self).total() + 1,
            (final(self).contents(), final(self).dropped()) == cleaned(
                old(self).contents().push(message),
                old(self).dropped(),
                old(self).current_strategy(),
            ),
    {
        self.buffer.push(message);
        self.total_count += 1;
        self.apply_cleanup_strategy();
    }

    /// Appends messages in order, then applies the strategy once.
    pub fn push_batch(&mut self, messages: Vec<GuiChatMessage>)
        requires
            old(self).wf(),
            old(self).total() + messages@.len() <= usize::MAX,
            strategy_computable(old(self).current_strategy()),
        ensures
            final(self).wf(),
            final(self).current_strategy() == old(self).current_strategy(),
            final(self).total() == old(self).total() + messages@.len(),
            (final(self).contents(), final(self).dropped()) == cleaned(
                old(self).contents() + messages@,
                old(self).dropped(),
                old(self).current_strategy(),
            ),
    {
        let mut messages = messages;
        let n = messages.len();
        self.buffer.append(&mut messages);
        self.total_count += n;
        self.apply_cleanup_strategy();
    }

    /// The buffered messages, oldest first.
    pub fn messages(&self) -> (r: &Vec<GuiChatMessage>)
        ensures
            r@ == self.contents(),
    {
        &self.buffer
    }

    /// Copies of the buffered messages, oldest first.
    pub fn to_vec(&self) -> (r: Vec<GuiChatMessage>)
        ensures
            same_messages(r@, self.contents()),
    {
        copy_messages(self.buffer.as_slice())
    }

    /// Copies of the newest `n` messages, oldest first.
    pub fn recent_messages(&self, n: usize) -> (r: Vec<GuiChatMessage>)
        ensures
            same_messages(
                r@,
                self.contents().skip(
                    if n < self.contents().len() { self.contents().len() - n } else { 0 },
                ),
            ),
    {
        let len = self.buffer.len();
        let start = if n < len { len - n } else { 0 };
        let mut r: Vec<GuiChatMessage> = Vec::new();
        let mut i: usize = start;
        while i < len
            invariant
                start <= i <= len == self.buffer@.len(),
                r@.len() == i - start,
                forall|j: int| 0 <= j < i - start ==> (#[trigger] r@[j]).same_as(self.buffer@[start + j]),
            decreases len - i,
        {
            r.push(self.buffer[i].duplicate());
            i += 1;
        }
        r
    }

    /// Number of buffered messages.
    pub fn len(&self) -> (n: usize)
        ensures
            n == self.contents().len(),
    {
        self.buffer.len()
    }

    /// The current strategy.
    pub fn get_strategy(&self) -> (s: &BufferStrategy)
        ensures
            *s == self.current_strategy(),
    {
        &self.strategy
    }

    /// Whether no message is buffered.
    pub fn is_empty(&self) -> (r: bool)
        ensures
            r == (self.contents().len() == 0),
    {
        self.buffer.len() == 0
    }

    /// Messages added since creation or the last `clear`.
    pub fn total_count(&self) -> (n: usize)
        ensures
            n == self.total(),
    {
        self.total_count
    }

    /// Messages dropped since creation or the last `clear`.
    pub fn dropped_count(&self) -> (n: usize)
        ensures
            n == self.dropped(),
    {
        self.dropped_count
    }

    /// Replaces the strategy and applies it at once.
    pub fn set_strategy(&mut self, strategy: BufferStrategy)
        requires
            old(self).wf(),
            strategy_computable(strategy),
        ensures
            final(self).wf(),
            final(self).current_strategy() == strategy,
            final(self).total() == old(self).total(),
            (final(self).contents(), final(self).dropped()) == cleaned(
                old(self).contents(),
                old(self).dropped(),
                strategy,
            ),
    {
        self.strategy = strategy;
        self.apply_cleanup_strategy();
    }

    /// Removes all messages and resets both counters.
    pub fn clear(&mut self)
        requires
            old(self).wf(),
        ensures
            final(self).wf(),
            final(self).contents() == Seq::<GuiChatMessage>::empty(),
            final(self).current_strategy() == old(self).current_strategy(),
            final(self).dropped() == 0,
            final(self).total() == 0,
    {
        self.buffer.clear();
        self.dropped_count = 0;
        self.total_count = 0;
    }

    /// Releases unused capacity; the contents stay the same.
    pub fn optimize_memory(&mut self)
        requires
            old(self).wf(),
        ensures
            final(self).wf(),
            final(self).contents() == old(self).contents(),
            final(self).current_strategy() == old(self).current_strategy(),
            final(self).dropped() == old(self).dropped(),
            final(self).total() == old(self).total(),
    {
        vec_shrink_to_fit(&mut self.buffer);
    }

    /// A buffer that keeps the newest `capacity` messages.
    pub fn new_circular(capacity: usize) -> (b: Self)
        ensures
            b.wf(),
            b.contents() == Seq::<GuiChatMessage>::empty(),
            b.current_strategy() == BufferStrategy::FixedLimit(capacity),
            b.dropped() == 0,
            b.total() == 0,
    {
        FlexibleMessageBuffer::new(BufferStrategy::FixedLimit(capacity))
    }

    /// The number of messages the strategy allows (`usize::MAX` for none).
    pub fn capacity(&self) -> (c: usize)
        requires
            self.wf(),
            strategy_computable(self.current_strategy()),
        ensures
            c == match self.current_strategy() {
                BufferStrategy::FixedLimit(limit) => limit as nat,
                BufferStrategy::MemoryBased { max_memory_mb } => memory_capacity(max_memory_mb as nat),
                _ => usize::MAX as nat,
            },
    {
        match &self.strategy {
            BufferStrategy::FixedLimit(limit) => *limit,
            BufferStrategy::MemoryBased { max_memory_mb } => {
                let size = core::mem::size_of::<GuiChatMessage>();
                (*max_memory_mb * 1048576) / size
            },
            _ => usize::MAX,
        }
    }

    /// Whether the buffer holds as many messages as the strategy allows.
    pub fn is_full(&self) -> (r: bool)
        requires
            self.wf(),
            strategy_computable(self.current_strategy()),
        ensures
            r == match self.current_strategy() {
                BufferStrategy::FixedLimit(limit) => self.contents().len() >= limit,
                BufferStrategy::MemoryBased { max_memory_mb } => self.contents().len()
                    >= memory_capacity(max_memory_mb as nat),
                _ => false,
            },
    {
        match &self.strategy {
            BufferStrategy::Unlimited => false,
            BufferStrategy::FixedLimit(limit) => self.buffer.len() >= *limit,
            BufferStrategy::MemoryBased { max_memory_mb } => {
                let size = core::mem::size_of::<GuiChatMessage>();
                self.buffer.len() >= (*max_memory_mb * 1048576) / size
            },
            BufferStrategy::TimeBased { .. } => false,
        }
    }

    /// Switches to keeping the newest `new_capacity` messages.
    pub fn set_capacity(&mut self, new_capacity: usize)
        requires
            old(self).wf(),
        ensures
            final(self).wf(),
            final(self).current_strategy() == BufferStrategy::FixedLimit(new_capacity),
            final(self).total() == old(self).total(),
            (final(self).contents(), final(self).dropped()) == cleaned(
                old(self).contents(),
                old(self).dropped(),
                BufferStrategy::FixedLimit(new_capacity),
            ),
    {
        self.set_strategy(BufferStrategy::FixedLimit(new_capacity));
    }

    /// Every added message is either buffered or counted as dropped.
    pub proof fn lemma_counts_balance(&self)
        requires
            self.wf(),
        ensures
            self.contents().len() + self.dropped() == self.total(),
    {
    }
}

/// Under a fixed limit, cleaning keeps exactly the newest `limit` messages
/// (or all of them when there are fewer).
pub proof fn lemma_fixed_keeps_newest(buffer: Seq<GuiChatMessage>, dropped: nat, limit: usize)
    ensures
        ({
            let r = cleaned(buffer, dropped, BufferStrategy::FixedLimit(limit));
            &&& r.0.len() == if buffer.len() > limit { limit as nat } else { buffer.len() }
            &&& forall|i: int| 0 <= i < r.0.len() ==> r.0[i] == buffer[buffer.len() - r.0.len() + i]
            &&& r.0.len() + r.1 == buffer.len() + dropped
        }),
{
}

/// The messages of `batches`, one batch after the other.
pub open spec fn joined(batches: Seq<Seq<GuiChatMessage>>) -> Seq<GuiChatMessage>
    decreases batches.len(),
{
    if batches.len() == 0 {
        Seq::empty()
    } else {
        joined(batches.drop_last()) + batches.last()
    }
}

/// The buffer and drop count after adding `batches` one after another to
/// an empty buffer, each `push` a batch of one and each `push_batch` a
/// batch of its messages, the strategy applied after each.
pub open spec fn after_batches(batches: Seq<Seq<GuiChatMessage>>, strategy: BufferStrategy) -> (
    Seq<GuiChatMessage>,
    nat,
)
    decreases batches.len(),
{
    if batches.len() == 0 {
        (Seq::empty(), 0)
    } else {
        let (b, d) = after_batches(batches.drop_last(), strategy);
        cleaned(b + batches.last(), d, strategy)
    }
}

/// A buffer with a fixed limit of `k`, filled from empty by any mix of
/// `push` and `push_batch`, keeps exactly the newest `k` of the messages
/// added (all of them when fewer were added), oldest first, and counts the
/// rest as dropped.
pub proof fn lemma_fixed_limit_history(batches: Seq<Seq<GuiChatMessage>>, k: usize)
    ensures
        ({
            let all = joined(batches);
            let n = all.len();
            let kept = if n < k { n } else { k as nat };
            after_batches(batches, BufferStrategy::FixedLimit(k)) == (all.subrange(n - kept, n as int), (n
                - kept) as nat)
        }),
    decreases batches.len(),
{
    let all = joined(batches);
    if batches.len() == 0 {
        assert(all.subrange(0, 0) =~= Seq::<GuiChatMessage>::empty());
    } else {
        let prev = batches.drop_last();
        let b = batches.last();
        lemma_fixed_limit_history(prev, k);
        let p = joined(prev);
        let m = p.len();
        let pk = if m < k { m } else { k as nat };
        let w = p.subrange(m - pk, m as int);
        let n = all.len();
        assert(all == p + b);
        let kept = if n < k { n } else { k as nat };
        let wb = w + b;
        if wb.len() > k {
            let over = wb.len() - k;
            assert(wb.skip(over) =~= all.subrange(n - kept, n as int)) by {
                assert(kept == k);
                assert forall|i: int| 0 <= i < k implies wb.skip(over)[i] == all.subrange(n - kept, n as int)[i] by {
                    let x = over + i;
                    if x < w.len() {
                        assert(wb[x] == w[x]);
                        assert(w[x] == p[m - pk + x]);
                        assert(all[n - k + i] == p[n - k + i]);
                    } else {
                        assert(wb[x] == b[x - w.len()]);
                        assert(all[n - k + i] == b[n - k + i - m]);
                    }
                }
            }
        } else {
            assert(wb =~= all.subrange(n - kept, n as int)) by {
                assert(wb.len() == kept);
                assert forall|i: int| 0 <= i < wb.len() implies wb[i] == all.subrange(n - kept, n as int)[i] by {
                    if i < w.len() {
                        assert(w[i] == p[m - pk + i]);
                        assert(all[n - kept + i] == p[n - kept + i]);
                    } else {
                        assert(wb[i] == b[i - w.len()]);
                        assert(all[n - kept + i] == b[n - kept + i - m]);
                    }
                }
            }
        }
    }
}

/// Every message added is kept or counted as dropped: adding `added` to a
/// buffer under any strategy raises the drop count by exactly the messages
/// that do not stay, and never lowers it.
pub proof fn lemma_dropped_accounting(
    buffer: Seq<GuiChatMessage>,
    dropped: nat,
    added: Seq<GuiChatMessage>,
    strategy: BufferStrategy,
)
    requires
        strategy_computable(strategy),
    ensures
        ({
            let r = cleaned(buffer + added, dropped, strategy);
            &&& r.1 >= dropped
            &&& r.1 - dropped == buffer.len() + added.len() - r.0.len()
        }),
{
    lemma_cleaning_conserves(buffer + added, dropped, strategy);
}

/// Cleaning never adds messages and never loses count of a message.
pub proof fn lemma_cleaning_conserves(buffer: Seq<GuiChatMessage>, dropped: nat, strategy: BufferStrategy)
    requires
        strategy_computable(strategy),
    ensures
        ({
            let r = cleaned(buffer, dropped, strategy);
            r.0.len() <= buffer.len() && r.0.len() + r.1 == buffer.len() + dropped
                && r.0 == buffer.skip(buffer.len() - r.0.len())
        }),
{
    let r = cleaned(buffer, dropped, strategy);
    if r.0.len() == buffer.len() {
        assert(buffer.skip(0) =~= buffer);
    }
}

/// Cleaning is idempotent: applying the same strategy twice drops nothing
/// more, except under the time-based strategy, whose rule fires again while
/// more than 1000 messages remain.
pub proof fn lemma_cleaning_idempotent(buffer: Seq<GuiChatMessage>, dropped: nat, strategy: BufferStrategy)
    requires
        strategy_computable(strategy),
        !(strategy is TimeBased),
    ensures
        ({
            let r = cleaned(buffer, dropped, strategy);
            cleaned(r.0, r.1, strategy) == r
        }),
{
}


/// Whether `m` is blank: empty texts, no parts, a text message without
/// metadata from a non-member.
pub open spec fn is_blank(m: GuiChatMessage) -> bool {
    &&& m.timestamp@.len() == 0
    &&& m.author@.len() == 0
    &&& m.channel_id@.len() == 0
    &&& m.content@.len() == 0
    &&& m.runs@.len() == 0
    &&& m.message_type == MessageType::Text
    &&& m.metadata is None
    &&& !m.is_member
}

/// A new, wholly empty message.
pub fn empty_message() -> (m: GuiChatMessage)
    ensures
        is_blank(m),
        m.id@.len() == 0,
        m.timestamp_usec@.len() == 0,
        m.author_icon_url is None,
        m.comment_count is None,
{
    GuiChatMessage {
        id: String::new(),
        timestamp: String::new(),
        timestamp_usec: String::new(),
        message_type: MessageType::Text,
        author: String::new(),
        author_icon_url: None,
        channel_id: String::new(),
        content: String::new(),
        runs: Vec::new(),
        metadata: None,
        is_member: false,
        comment_count: None,
    }
}

/// Counts of a message pool.
#[derive(Debug, Clone, Copy, PartialEq, Eq, Structural)]
pub struct PoolStats {
    pub pool_size: usize,
    pub max_pool_size: usize,
    /// Messages made new.
    pub created_count: usize,
    /// Messages handed out again.
    pub reused_count: usize,
}

/// Messages kept for reuse, at most `max_pool_size`.
#[derive(Debug)]
pub struct MessagePool {
    pool: Vec<GuiChatMessage>,
    max_pool_size: usize,
    created_count: usize,
    reused_count: usize,
}

impl MessagePool {
    /// The messages kept, the last one handed out first.
    pub closed spec fn pooled(&self) -> Seq<GuiChatMessage> {
        self.pool@
    }

    pub closed spec fn limit(&self) -> nat {
        self.max_pool_size as nat
    }

    pub closed spec fn counts(&self) -> PoolStats {
        PoolStats {
            pool_size: self.pool@.len() as usize,
            max_pool_size: self.max_pool_size,
            created_count: self.created_count,
            reused_count: self.reused_count,
        }
    }

    /// The pool keeps at most its limit.
    pub closed spec fn wf(&self) -> bool {
        self.pool@.len() <= self.max_pool_size
    }

    /// An empty pool keeping at most `max_pool_size` messages.
    pub fn new(max_pool_size: usize) -> (p: Self)
        ensures
            p.wf(),
            p.pooled() == Seq::<GuiChatMessage>::empty(),
            p.limit() == max_pool_size,
            p.counts().created_count == 0,
            p.counts().reused_count == 0,
    {
        MessagePool { pool: Vec::new(), max_pool_size, created_count: 0, reused_count: 0 }
    }

    /// A message to fill: the last one kept, blanked (its identifier, raw
    /// timestamp, icon and comment count stay), or a new empty one.
    pub fn acquire(&mut self) -> (m: GuiChatMessage)
        requires
            old(self).wf(),
            old(self).counts().created_count < usize::MAX,
            old(self).counts().reused_count < usize::MAX,
        ensures
            final(self).wf(),
            final(self).limit() == old(self).limit(),
            is_blank(m),
            old(self).pooled().len() > 0 ==> {
                let last = old(self).pooled().last();
                &&& final(self).pooled() == old(self).pooled().drop_last()
                &&& final(self).counts().reused_count == old(self).counts().reused_count + 1
                &&& final(self).counts().created_count == old(self).counts().created_count
                &&& m.id == last.id
                &&& m.timestamp_usec == last.timestamp_usec
                &&& m.author_icon_url == last.author_icon_url
                &&& m.comment_count == last.comment_count
            },
            old(self).pooled().len() == 0 ==> {
                &&& final(self).pooled() == old(self).pooled()
                &&& final(self).counts().created_count == old(self).counts().created_count + 1
                &&& final(self).counts().reused_count == old(self).counts().reused_count
                &&& m.id@.len() == 0
                &&& m.timestamp_usec@.len() == 0
                &&& m.author_icon_url is None
                &&& m.comment_count is None
            },
    {
        match self.pool.pop() {
            Some(message) => {
                self.reused_count = self.reused_count + 1;
                let mut message = message;
                message.timestamp = String::new();
                message.author = String::new();
                message.channel_id = String::new();
                message.content = String::new();
                message.runs = Vec::new();
                message.message_type = MessageType::Text;
                message.metadata = None;
                message.is_member = false;
                message
            },
            None => {
                self.created_count = self.created_count + 1;
                empty_message()
            },
        }
    }

    /// Gives a message back: it is kept while the pool is below its limit,
    /// else dropped.
    pub fn release(&mut self, message: GuiChatMessage)
        requires
            old(self).wf(),
        ensures
            final(self).wf(),
            final(self).limit() == old(self).limit(),
            final(self).pooled() == if old(self).pooled().len() < old(self).limit() {
                old(self).pooled().push(message)
            } else {
                old(self).pooled()
            },
            final(self).counts().created_count == old(self).counts().created_count,
            final(self).counts().reused_count == old(self).counts().reused_count,
    {
        if self.pool.len() < self.max_pool_size {
            self.pool.push(message);
        }
    }

    /// The pool's counts.
    pub fn stats(&self) -> (s: PoolStats)
        ensures
            s == self.counts(),
    {
        PoolStats {
            pool_size: self.pool.len(),
            max_pool_size: self.max_pool_size,
            created_count: self.created_count,
            reused_count: self.reused_count,
        }
    }

    /// Drops every kept message; the counts stay.
    pub fn clear(&mut self)
        ensures
            final(self).wf(),
            final(self).pooled() == Seq::<GuiChatMessage>::empty(),
            final(self).limit() == old(self).limit(),
            final(self).counts().created_count == old(self).counts().created_count,
            final(self).counts().reused_count == old(self).counts().reused_count,
    {
        self.pool.clear();
    }
}

/// The names kept in an interning table, oldest first.
pub open spec fn table_keys(t: Seq<(String, Arc<String>)>) -> Seq<Seq<char>> {
    t.map_values(|e: (String, Arc<String>)| e.0@)
}

/// Each entry's shared text holds its name.
pub open spec fn table_wf(t: Seq<(String, Arc<String>)>) -> bool {
    forall|i: int| 0 <= i < t.len() ==> (#[trigger] t[i]).1@ == t[i].0@
}

/// The names after interning `name` in a table with names `keys` and room
/// for `room`: unchanged when present; otherwise, when full, the oldest
/// name leaves, and `name` is added.
pub open spec fn interned_keys(keys: Seq<Seq<char>>, name: Seq<char>, room: nat) -> Seq<Seq<char>> {
    if keys.contains(name) {
        keys
    } else if keys.len() >= room && keys.len() > 0 {
        keys.drop_first().push(name)
    } else {
        keys.push(name)
    }
}

/// How many names a table with room for `room` holds at most.
pub open spec fn table_bound(room: nat) -> nat {
    if room == 0 { 1 } else { room }
}

/// Looks `name` up in `table`, adding it (and making room) when missing;
/// returns the shared text.
fn intern(table: &mut Vec<(String, Arc<String>)>, name: &str, room: usize) -> (r: Arc<String>)
    requires
        table_wf(old(table)@),
        old(table)@.len() <= table_bound(room as nat),
    ensures
        table_wf(final(table)@),
        final(table)@.len() <= table_bound(room as nat),
        r@ == name@,
        table_keys(final(table)@) == interned_keys(table_keys(old(table)@), name@, room as nat),
{
    let mut i: usize = 0;
    while i < table.len()
        invariant
            i <= table@.len(),
            table@ == old(table)@,
            table_wf(table@),
            table@.len() <= table_bound(room as nat),
            forall|j: int| 0 <= j < i ==> table@[j].0@ != name@,
        decreases table.len() - i,
    {
        if str_eq(table[i].0.as_str(), name) {
            assert(table_keys(table@)[i as int] == name@);
            return Arc::clone(&table[i].1);
        }
        i += 1;
    }
    proof {
        if table_keys(table@).contains(name@) {
            let j = choose|j: int| 0 <= j < table_keys(table@).len() && table_keys(table@)[j] == name@;
            assert(table@[j].0@ == name@);
        }
    }
    let ghost before = table@;
    if table.len() >= room && table.len() > 0 {
        table.remove(0);
        assert(table_keys(table@) =~= table_keys(before).drop_first());
    }
    let ghost middle = table@;
    let shared = Arc::new(String::from_str(name));
    table.push((String::from_str(name), Arc::clone(&shared)));
    assert(table_keys(table@) =~= table_keys(middle).push(name@));
    shared
}

/// Sizes of a shared-text cache.
#[derive(Debug, Clone, Copy, PartialEq, Eq, Structural)]
pub struct CacheStats {
    pub author_cache_size: usize,
    pub channel_id_cache_size: usize,
    pub total_cache_size: usize,
    pub max_cache_size: usize,
}

/// Shared copies of author names and channel identifiers, so that equal
/// texts are held once; each table holds at most half of `max_cache_size`
/// names (one at least).
#[derive(Debug)]
pub struct SharedDataCache {
    authors: Vec<(String, Arc<String>)>,
    channel_ids: Vec<(String, Arc<String>)>,
    max_cache_size: usize,
}

impl SharedDataCache {
    /// The author names held, oldest first.
    pub closed spec fn author_keys(&self) -> Seq<Seq<char>> {
        table_keys(self.authors@)
    }

    /// The channel identifiers held, oldest first.
    pub closed spec fn channel_keys(&self) -> Seq<Seq<char>> {
        table_keys(self.channel_ids@)
    }

    pub closed spec fn max_size(&self) -> nat {
        self.max_cache_size as nat
    }

    pub closed spec fn wf(&self) -> bool {
        &&& table_wf(self.authors@)
        &&& table_wf(self.channel_ids@)
        &&& self.authors@.len() <= table_bound((self.max_cache_size / 2) as nat)
        &&& self.channel_ids@.len() <= table_bound((self.max_cache_size / 2) as nat)
    }

    /// An empty cache for `max_cache_size` texts.
    pub fn new(max_cache_size: usize) -> (c: Self)
        ensures
            c.wf(),
            c.author_keys() == Seq::<Seq<char>>::empty(),
            c.channel_keys() == Seq::<Seq<char>>::empty(),
            c.max_size() == max_cache_size,
    {
        let c = SharedDataCache { authors: Vec::new(), channel_ids: Vec::new(), max_cache_size };
        assert(c.author_keys() =~= Seq::<Seq<char>>::empty());
        assert(c.channel_keys() =~= Seq::<Seq<char>>::empty());
        c
    }

    /// The shared copy of the author name `author`.
    pub fn get_shared_author(&mut self, author: &str) -> (r: Arc<String>)
        requires
            old(self).wf(),
        ensures
            final(self).wf(),
            r@ == author@,
            final(self).author_keys() == interned_keys(old(self).author_keys(), author@, (old(self).max_size() / 2) as nat),
            final(self).channel_keys() == old(self).channel_keys(),
            final(self).max_size() == old(self).max_size(),
    {
        let room = self.max_cache_size / 2;
        intern(&mut self.authors, author, room)
    }

    /// The shared copy of the channel identifier `channel_id`.
    pub fn get_shared_channel_id(&mut self, channel_id: &str) -> (r: Arc<String>)
        requires
            old(self).wf(),
        ensures
            final(self).wf(),
            r@ == channel_id@,
            final(self).channel_keys() == interned_keys(old(self).channel_keys(), channel_id@, (old(self).max_size() / 2) as nat),
            final(self).author_keys() == old(self).author_keys(),
            final(self).max_size() == old(self).max_size(),
    {
        let room = self.max_cache_size / 2;
        intern(&mut self.channel_ids, channel_id, room)
    }

    /// The cache's sizes.
    pub fn cache_stats(&self) -> (s: CacheStats)
        requires
            self.wf(),
        ensures
            s.author_cache_size == self.author_keys().len(),
            s.channel_id_cache_size == self.channel_keys().len(),
            s.total_cache_size == self.author_keys().len() + self.channel_keys().len(),
            s.max_cache_size == self.max_size(),
    {
        let a = self.authors.len();
        let c = self.channel_ids.len();
        assert(self.author_keys().len() == a);
        assert(self.channel_keys().len() == c);
        CacheStats {
            author_cache_size: a,
            channel_id_cache_size: c,
            total_cache_size: a + c,
            max_cache_size: self.max_cache_size,
        }
    }

    /// Drops every text.
    pub fn clear(&mut self)
        ensures
            final(self).wf(),
            final(self).author_keys() == Seq::<Seq<char>>::empty(),
            final(self).channel_keys() == Seq::<Seq<char>>::empty(),
            final(self).max_size() == old(self).max_size(),
    {
        self.authors.clear();
        self.channel_ids.clear();
        assert(self.author_keys() =~= Seq::<Seq<char>>::empty());
        assert(self.channel_keys() =~= Seq::<Seq<char>>::empty());
    }
}


/// The figures of an `OptimizedMessageManager`. (The memory figures,
/// which depend on what the allocator gave, are left to the caller.)
#[derive(Debug, Clone, Copy, PartialEq, Eq, Structural)]
pub struct ComprehensiveStats {
    pub pool_stats: PoolStats,
    pub cache_stats: CacheStats,
    pub message_count: usize,
    pub total_processed: usize,
    pub dropped_count: usize,
}

/// A message buffer with a pool of reusable messages and a cache of shared
/// author names and channel identifiers.
#[derive(Debug)]
pub struct OptimizedMessageManager {
    buffer: FlexibleMessageBuffer,
    pool: MessagePool,
    cache: SharedDataCache,
}

impl OptimizedMessageManager {
    /// The buffered messages, oldest first.
    pub closed spec fn contents(&self) -> Seq<GuiChatMessage> {
        self.buffer.contents()
    }

    pub closed spec fn dropped(&self) -> nat {
        self.buffer.dropped()
    }

    pub closed spec fn total(&self) -> nat {
        self.buffer.total()
    }

    pub closed spec fn strategy(&self) -> BufferStrategy {
        self.buffer.current_strategy()
    }

    /// The names held by the cache.
    pub closed spec fn cached_authors(&self) -> Seq<Seq<char>> {
        self.cache.author_keys()
    }

    pub closed spec fn cached_channels(&self) -> Seq<Seq<char>> {
        self.cache.channel_keys()
    }

    /// The figures of the pool of reusable messages.
    pub closed spec fn pool_counts(&self) -> PoolStats {
        self.pool.counts()
    }

    /// The most names the cache of shared names was made to keep.
    pub closed spec fn cache_limit(&self) -> nat {
        self.cache.max_size()
    }

    pub closed spec fn cache_room(&self) -> nat {
        self.cache.max_size() / 2
    }

    pub closed spec fn wf(&self) -> bool {
        self.buffer.wf() && self.pool.wf() && self.cache.wf()
    }

    /// A manager keeping the newest `buffer_capacity` messages.
    pub fn new(buffer_capacity: usize, pool_size: usize, cache_size: usize, batch_config: BatchConfig) -> (m: Self)
        ensures
            m.wf(),
            m.contents() == Seq::<GuiChatMessage>::empty(),
            m.strategy() == BufferStrategy::FixedLimit(buffer_capacity),
            m.dropped() == 0,
            m.total() == 0,
    {
        OptimizedMessageManager::new_with_strategy(
            BufferStrategy::FixedLimit(buffer_capacity),
            pool_size,
            cache_size,
            batch_config,
        )
    }

    /// A manager without bound on its messages (pool of 100, cache of 500).
    pub fn with_defaults() -> (m: Self)
        ensures
            m.wf(),
            m.contents() == Seq::<GuiChatMessage>::empty(),
            m.strategy() == BufferStrategy::Unlimited,
            m.dropped() == 0,
            m.total() == 0,
            m.pool_counts() == (PoolStats { pool_size: 0, max_pool_size: 100, created_count: 0, reused_count: 0 }),
            m.cache_limit() == 500,
            m.cached_authors() == Seq::<Seq<char>>::empty(),
            m.cached_channels() == Seq::<Seq<char>>::empty(),
    {
        OptimizedMessageManager::new_with_strategy(BufferStrategy::Unlimited, 100, 500, BatchConfig::default())
    }

    /// A manager with the given strategy.
    pub fn new_with_strategy(
        buffer_strategy: BufferStrategy,
        pool_size: usize,
        cache_size: usize,
        batch_config: BatchConfig,
    ) -> (m: Self)
        ensures
            m.wf(),
            m.contents() == Seq::<GuiChatMessage>::empty(),
            m.strategy() == buffer_strategy,
            m.dropped() == 0,
            m.total() == 0,
            m.pool_counts() == (PoolStats { pool_size: 0, max_pool_size: pool_size, created_count: 0, reused_count: 0 }),
            m.cache_limit() == cache_size,
            m.cached_authors() == Seq::<Seq<char>>::empty(),
            m.cached_channels() == Seq::<Seq<char>>::empty(),
    {
        let _ = batch_config;
        OptimizedMessageManager {
            buffer: FlexibleMessageBuffer::new(buffer_strategy),
            pool: MessagePool::new(pool_size),
            cache: SharedDataCache::new(cache_size),
        }
    }

    /// A manager keeping the newest `limit` messages.
    pub fn with_fixed_limit(limit: usize) -> (m: Self)
        ensures
            m.wf(),
            m.contents() == Seq::<GuiChatMessage>::empty(),
            m.strategy() == BufferStrategy::FixedLimit(limit),
            m.dropped() == 0,
            m.total() == 0,
    {
        OptimizedMessageManager::new_with_strategy(BufferStrategy::FixedLimit(limit), 100, 500, BatchConfig::default())
    }

    /// A manager keeping as many messages as fit in `max_memory_mb` MB.
    pub fn with_memory_limit(max_memory_mb: usize) -> (m: Self)
        ensures
            m.wf(),
            m.contents() == Seq::<GuiChatMessage>::empty(),
            m.strategy() == (BufferStrategy::MemoryBased { max_memory_mb }),
            m.dropped() == 0,
            m.total() == 0,
    {
        OptimizedMessageManager::new_with_strategy(
            BufferStrategy::MemoryBased { max_memory_mb },
            100,
            500,
            BatchConfig::default(),
        )
    }

    /// A manager that drops the oldest tenth past 1000 messages.
    pub fn with_time_limit(max_hours: u64) -> (m: Self)
        ensures
            m.wf(),
            m.contents() == Seq::<GuiChatMessage>::empty(),
            m.strategy() == (BufferStrategy::TimeBased { max_hours }),
            m.dropped() == 0,
            m.total() == 0,
    {
        OptimizedMessageManager::new_with_strategy(BufferStrategy::TimeBased { max_hours }, 100, 500, BatchConfig::default())
    }

    /// Replaces the strategy and applies it at once.
    pub fn set_buffer_strategy(&mut self, strategy: BufferStrategy)
        requires
            old(self).wf(),
            strategy_computable(strategy),
        ensures
            final(self).wf(),
            final(self).strategy() == strategy,
            final(self).total() == old(self).total(),
            (final(self).contents(), final(self).dropped()) == cleaned(old(self).contents(), old(self).dropped(), strategy),
    {
        self.buffer.set_strategy(strategy);
    }

    /// The current strategy.
    pub fn get_buffer_strategy(&self) -> (s: &BufferStrategy)
        ensures
            *s == self.strategy(),
    {
        self.buffer.get_strategy()
    }

    /// Adds a message: its author and channel go through the shared cache,
    /// and the message into the buffer.
    pub fn add_message(&mut self, message: GuiChatMessage)
        requires
            old(self).wf(),
            old(self).total() < usize::MAX,
            strategy_computable(old(self).strategy()),
        ensures
            final(self).wf(),
            final(self).strategy() == old(self).strategy(),
            final(self).total() == old(self).total() + 1,
            (final(self).contents(), final(self).dropped()) == cleaned(
                old(self).contents().push(message),
                old(self).dropped(),
                old(self).strategy(),
            ),
            final(self).cached_authors() == interned_keys(old(self).cached_authors(), message.author@, old(self).cache_room()),
            final(self).cached_channels() == interned_keys(old(self).cached_channels(), message.channel_id@, old(self).cache_room()),
    {
        let _shared_author = self.cache.get_shared_author(message.author.as_str());
        let _shared_channel_id = self.cache.get_shared_channel_id(message.channel_id.as_str());
        self.buffer.push(message);
    }

    /// Adds messages in order.
    pub fn add_messages_batch(&mut self, messages: Vec<GuiChatMessage>)
        requires
            old(self).wf(),
            old(self).total() + messages@.len() <= usize::MAX,
            strategy_computable(old(self).strategy()),
        ensures
            final(self).wf(),
            final(self).strategy() == old(self).strategy(),
            final(self).total() == old(self).total() + messages@.len(),
            (final(self).contents(), final(self).dropped()) == cleaned(
                old(self).contents() + messages@,
                old(self).dropped(),
                old(self).strategy(),
            ),
    {
        self.buffer.push_batch(messages);
    }

    /// Copies of the buffered messages, oldest first.
    pub fn messages(&self) -> (r: Vec<GuiChatMessage>)
        ensures
            same_messages(r@, self.contents()),
    {
        self.buffer.to_vec()
    }

    /// Copies of the newest `n` messages, oldest first.
    pub fn recent_messages(&self, n: usize) -> (r: Vec<GuiChatMessage>)
        ensures
            same_messages(
                r@,
                self.contents().skip(if n < self.contents().len() { self.contents().len() - n } else { 0 }),
            ),
    {
        self.buffer.recent_messages(n)
    }

    /// The figures of the buffer, the pool and the cache.
    pub fn comprehensive_stats(&self) -> (s: ComprehensiveStats)
        requires
            self.wf(),
        ensures
            s.message_count == self.contents().len(),
            s.total_processed == self.total(),
            s.dropped_count == self.dropped(),
            s.cache_stats.author_cache_size == self.cached_authors().len(),
            s.cache_stats.channel_id_cache_size == self.cached_channels().len(),
            s.pool_stats == self.pool_counts(),
    {
        ComprehensiveStats {
            pool_stats: self.pool.stats(),
            cache_stats: self.cache.cache_stats(),
            message_count: self.buffer.len(),
            total_processed: self.buffer.total_count(),
            dropped_count: self.buffer.dropped_count(),
        }
    }

    /// Releases unused memory: the buffer's spare capacity and the pool.
    pub fn optimize_memory(&mut self)
        requires
            old(self).wf(),
        ensures
            final(self).wf(),
            final(self).contents() == old(self).contents(),
            final(self).dropped() == old(self).dropped(),
            final(self).total() == old(self).total(),
            final(self).strategy() == old(self).strategy(),
            final(self).cached_authors() == old(self).cached_authors(),
            final(self).cached_channels() == old(self).cached_channels(),
            final(self).cache_limit() == old(self).cache_limit(),
            final(self).pool_counts() == (PoolStats { pool_size: 0, ..old(self).pool_counts() }),
    {
        self.buffer.optimize_memory();
        self.pool.clear();
    }

    /// Drops the messages, the pool and the cache.
    pub fn clear_all(&mut self)
        requires
            old(self).wf(),
        ensures
            final(self).wf(),
            final(self).contents() == Seq::<GuiChatMessage>::empty(),
            final(self).dropped() == 0,
            final(self).total() == 0,
            final(self).strategy() == old(self).strategy(),
            final(self).cached_authors() == Seq::<Seq<char>>::empty(),
            final(self).cached_channels() == Seq::<Seq<char>>::empty(),
    {
        self.buffer.clear();
        self.pool.clear();
        self.cache.clear();
    }

    /// Number of buffered messages.
    pub fn len(&self) -> (n: usize)
        ensures
            n == self.contents().len(),
    {
        self.buffer.len()
    }

    pub fn is_empty(&self) -> (r: bool)
        ensures
            r == (self.contents().len() == 0),
    {
        self.buffer.is_empty()
    }

    /// Drops the messages (the pool and the cache stay).
    pub fn clear(&mut self)
        requires
            old(self).wf(),
        ensures
            final(self).wf(),
            final(self).contents() == Seq::<GuiChatMessage>::empty(),
            final(self).dropped() == 0,
            final(self).total() == 0,
            final(self).strategy() == old(self).strategy(),
            final(self).cached_authors() == old(self).cached_authors(),
    {
        self.buffer.clear();
    }
}

} // verus!
