//! Timed tasks (such as clearing highlights): their settings, the book of
//! running tasks with its counts, and the decisions of a task's run.
use vstd::prelude::*;

use crate::clock::instant_now;
use crate::text::{decimal, push_decimal_wide, str_eq};
use std::time::Instant;

verus! {

/// Kind of a timed task.
#[derive(Debug, Clone, PartialEq)]
pub enum TimerTaskType {
    /// Clearing highlights after a while.
    HighlightClear,
    /// Periodic page update.
    DomUpdate,
    /// Statistics update.
    StatsUpdate,
    Custom(String),
}

/// What tells two task kinds apart: the variant, and a custom kind's name.
pub open spec fn task_kind(t: TimerTaskType) -> (nat, Seq<char>) {
    match t {
        TimerTaskType::HighlightClear => (0, Seq::empty()),
        TimerTaskType::DomUpdate => (1, Seq::empty()),
        TimerTaskType::StatsUpdate => (2, Seq::empty()),
        TimerTaskType::Custom(name) => (3, name@),
    }
}

impl TimerTaskType {
    /// A copy of this kind.
    pub fn duplicate(&self) -> (r: Self)
        ensures
            r == *self,
    {
        match self {
            TimerTaskType::HighlightClear => TimerTaskType::HighlightClear,
            TimerTaskType::DomUpdate => TimerTaskType::DomUpdate,
            TimerTaskType::StatsUpdate => TimerTaskType::StatsUpdate,
            TimerTaskType::Custom(name) => TimerTaskType::Custom(name.clone()),
        }
    }

    /// Whether two kinds are the same.
    pub fn same_kind(&self, other: &TimerTaskType) -> (r: bool)
        ensures
            r == (task_kind(*self) == task_kind(*other)),
    {
        match (self, other) {
            (TimerTaskType::HighlightClear, TimerTaskType::HighlightClear) => true,
            (TimerTaskType::DomUpdate, TimerTaskType::DomUpdate) => true,
            (TimerTaskType::StatsUpdate, TimerTaskType::StatsUpdate) => true,
            (TimerTaskType::Custom(a), TimerTaskType::Custom(b)) => str_eq(a.as_str(), b.as_str()),
            _ => false,
        }
    }
}

/// Settings of a timed task, in whole seconds.
#[derive(Debug, Clone, Copy, PartialEq, Eq, Structural)]
pub struct TimerConfig {
    /// Wait before the first run.
    pub delay_secs: u64,
    /// Wait between runs; a task without one runs once.
    pub interval_secs: Option<u64>,
    /// Most runs; no limit when absent.
    pub max_executions: Option<u32>,
    /// Lower runs first.
    pub priority: u8,
    /// The task is ended once it has lasted longer than this.
    pub auto_cancel_after_secs: Option<u64>,
}

impl Default for TimerConfig {
    fn default() -> (c: Self)
        ensures
            c == (TimerConfig {
                delay_secs: 5,
                interval_secs: None,
                max_executions: Some(1),
                priority: 100,
                auto_cancel_after_secs: Some(300),
            }),
    {
        TimerConfig {
            delay_secs: 5,
            interval_secs: None,
            max_executions: Some(1),
            priority: 100,
            auto_cancel_after_secs: Some(300),
        }
    }
}

impl TimerConfig {
    /// Settings to clear highlights after `delay_secs`.
    pub fn highlight_clear(delay_secs: u64) -> (c: Self)
        ensures
            c == (TimerConfig {
                delay_secs,
                interval_secs: None,
                max_executions: Some(1),
                priority: 50,
                auto_cancel_after_secs: Some(60),
            }),
    {
        TimerConfig {
            delay_secs,
            interval_secs: None,
            max_executions: Some(1),
            priority: 50,
            auto_cancel_after_secs: Some(60),
        }
    }

    /// Settings to run every `interval_secs`, without end.
    pub fn periodic(interval_secs: u64) -> (c: Self)
        ensures
            c == (TimerConfig {
                delay_secs: 0,
                interval_secs: Some(interval_secs),
                max_executions: None,
                priority: 100,
                auto_cancel_after_secs: None,
            }),
    {
        TimerConfig {
            delay_secs: 0,
            interval_secs: Some(interval_secs),
            max_executions: None,
            priority: 100,
            auto_cancel_after_secs: None,
        }
    }

    /// Settings to run once after `delay_secs`.
    pub fn once(delay_secs: u64) -> (c: Self)
        ensures
            c == (TimerConfig {
                delay_secs,
                interval_secs: None,
                max_executions: Some(1),
                priority: 75,
                auto_cancel_after_secs: Some(30),
            }),
    {
        TimerConfig {
            delay_secs,
            interval_secs: None,
            max_executions: Some(1),
            priority: 75,
            auto_cancel_after_secs: Some(30),
        }
    }
}

/// What a task's handler sees of its run.
#[derive(Debug, Clone)]
pub struct TimerContext {
    pub task_id: String,
    pub task_type: TimerTaskType,
    /// Runs before this one.
    pub execution_count: u32,
    pub started_at: Instant,
    pub last_executed: Option<Instant>,
}

/// What a task's handler answers.
#[derive(Debug)]
pub enum TimerResult {
    /// Run again.
    Continue,
    /// The task is done.
    Complete,
    /// The task failed and stops.
    Error(String),
    /// The task asks to be cancelled.
    Cancel,
}

/// How a task ended.
#[derive(Debug, Clone, Copy, PartialEq, Eq, Structural)]
pub enum TaskEnd {
    Completed,
    Cancelled,
    Error,
    Timeout,
}

/// Counts of the timed tasks.
#[derive(Debug, Clone)]
pub struct TimerStats {
    /// Tasks started in all.
    pub total_tasks: u64,
    /// Tasks counted as running: one more for each start, one less for each
    /// task that ended while still in the book.
    pub active_tasks: u64,
    pub completed_tasks: u64,
    pub cancelled_tasks: u64,
    /// Tasks that failed or timed out.
    pub error_tasks: u64,
    pub last_updated: Instant,
}

/// The check before a run of a task that has lasted `elapsed_nanos`
/// nanoseconds and run `executions` times: it ends by timeout once it has
/// lasted longer than its limit, then as completed once it has run its
/// most runs; otherwise it runs.
pub open spec fn end_before_run(config: TimerConfig, elapsed_nanos: u128, executions: u32) -> Option<TaskEnd> {
    if config.auto_cancel_after_secs matches Some(t) && elapsed_nanos > t * 1_000_000_000 {
        Some(TaskEnd::Timeout)
    } else if config.max_executions matches Some(m) && executions >= m {
        Some(TaskEnd::Completed)
    } else {
        None
    }
}

/// The check before a run of a task.
pub fn check_before_run(config: &TimerConfig, elapsed_nanos: u128, executions: u32) -> (r: Option<TaskEnd>)
    ensures
        r == end_before_run(*config, elapsed_nanos, executions),
{
    match config.auto_cancel_after_secs {
        Some(t) => {
            if elapsed_nanos > (t as u128) * 1_000_000_000 {
                return Some(TaskEnd::Timeout);
            }
        },
        None => {},
    }
    match config.max_executions {
        Some(m) => if executions >= m {
            Some(TaskEnd::Completed)
        } else {
            None
        },
        None => None,
    }
}

/// How a task goes on after its handler answered `result`: `None` to wait
/// its interval and run again (a task without interval has completed).
pub open spec fn end_after_run(config: TimerConfig, result: TimerResult) -> Option<TaskEnd> {
    match result {
        TimerResult::Continue => if config.interval_secs is Some {
            None
        } else {
            Some(TaskEnd::Completed)
        },
        TimerResult::Complete => Some(TaskEnd::Completed),
        TimerResult::Error(_) => Some(TaskEnd::Error),
        TimerResult::Cancel => Some(TaskEnd::Cancelled),
    }
}

/// How a task goes on after its handler answered `result`.
pub fn check_after_run(config: &TimerConfig, result: &TimerResult) -> (r: Option<TaskEnd>)
    ensures
        r == end_after_run(*config, *result),
{
    match result {
        TimerResult::Continue => if config.interval_secs.is_some() {
            None
        } else {
            Some(TaskEnd::Completed)
        },
        TimerResult::Complete => Some(TaskEnd::Completed),
        TimerResult::Error(_) => Some(TaskEnd::Error),
        TimerResult::Cancel => Some(TaskEnd::Cancelled),
    }
}

/// A task in the book: its identifier and what tells its kind.
pub type BookEntry = (Seq<char>, (nat, Seq<char>));

/// Entries of other tasks than `id`.
pub open spec fn not_id(id: Seq<char>) -> spec_fn(BookEntry) -> bool {
    |e: BookEntry| e.0 != id
}

/// Entries of tasks of other kinds than `k`.
pub open spec fn not_kind(k: (nat, Seq<char>)) -> spec_fn(BookEntry) -> bool {
    |e: BookEntry| e.1 != k
}

/// Entries of tasks of kind `k`.
pub open spec fn of_kind(k: (nat, Seq<char>)) -> spec_fn(BookEntry) -> bool {
    |e: BookEntry| e.1 == k
}

/// No two tasks share an identifier.
pub open spec fn unique_ids(b: Seq<BookEntry>) -> bool {
    forall|i: int, j: int| 0 <= i < j < b.len() ==> (#[trigger] b[i]).0 != (#[trigger] b[j]).0
}

/// The book holds the task `id`.
pub open spec fn holds(b: Seq<BookEntry>, id: Seq<char>) -> bool {
    exists|i: int| 0 <= i < b.len() && (#[trigger] b[i]).0 == id
}

proof fn lemma_unique_filter(b: Seq<BookEntry>, p: spec_fn(BookEntry) -> bool)
    requires
        unique_ids(b),
    ensures
        unique_ids(b.filter(p)),
    decreases b.len(),
{
    reveal(Seq::filter);
    if b.len() > 0 {
        let rest = b.drop_last();
        assert(unique_ids(rest)) by {
            assert forall|i: int, j: int| 0 <= i < j < rest.len() implies (#[trigger] rest[i]).0
                != (#[trigger] rest[j]).0 by {
                assert(rest[i] == b[i] && rest[j] == b[j]);
            }
        }
        lemma_unique_filter(rest, p);
        if p(b.last()) {
            let f = rest.filter(p);
            assert forall|i: int, j: int| 0 <= i < j < f.len() + 1 implies (
            #[trigger] f.push(b.last())[i]).0 != (#[trigger] f.push(b.last())[j]).0 by {
                if j == f.len() {
                    assert(f.contains(f[i]));
                    rest.lemma_filter_contains_rev(p, f[i]);
                    let k = choose|k: int| 0 <= k < rest.len() && rest[k] == f[i];
                    assert(b[k] == rest[k]);
                    assert(b[k].0 != b[b.len() - 1].0);
                } else {
                    assert(f.push(b.last())[i] == f[i] && f.push(b.last())[j] == f[j]);
                }
            }
        }
    }
}

/// Once a task has left the book it is no longer held there, so a second
/// end of its run (or a second cancellation) changes no count.
pub proof fn lemma_ended_task_not_held(b: Seq<BookEntry>, id: Seq<char>)
    ensures
        !holds(b.filter(not_id(id)), id),
{
    broadcast use Seq::lemma_filter_pred;

    if holds(b.filter(not_id(id)), id) {
        let i = choose|i: int| 0 <= i < b.filter(not_id(id)).len() && (#[trigger] b.filter(
            not_id(id),
        )[i]).0 == id;
        assert(not_id(id)(b.filter(not_id(id))[i]));
    }
}

/// A task in the book.
struct TimerTask {
    id: String,
    task_type: TimerTaskType,
    config: TimerConfig,
}

impl TimerTask {
    /// A duplicate of a booked task.
    fn duplicate(&self) -> (r: Self)
        ensures
            r == *self,
    {
        TimerTask { id: self.id.clone(), task_type: self.task_type.duplicate(), config: self.config }
    }
}

/// The book entries of a list of tasks.
spec fn book_view(tasks: Seq<TimerTask>) -> Seq<BookEntry> {
    tasks.map_values(|t: TimerTask| (t.id@, task_kind(t.task_type)))
}

/// The book of running timed tasks and their counts.
pub struct TimerService {
    tasks: Vec<TimerTask>,
    stats: TimerStats,
    started_at: Instant,
}

impl TimerService {
    /// The running tasks: identifier and kind, in the order they started.
    pub closed spec fn book(&self) -> Seq<BookEntry> {
        book_view(self.tasks@)
    }

    /// The counts.
    pub closed spec fn counts(&self) -> TimerStats {
        self.stats
    }

    /// Task identifiers are unique.
    pub closed spec fn wf(&self) -> bool {
        unique_ids(self.book())
    }

    /// An empty book with zero counts.
    pub fn new() -> (t: Self)
        ensures
            t.wf(),
            t.book().len() == 0,
            t.counts().total_tasks == 0,
            t.counts().active_tasks == 0,
            t.counts().completed_tasks == 0,
            t.counts().cancelled_tasks == 0,
            t.counts().error_tasks == 0,
    {
        let now = instant_now();
        let t = TimerService {
            tasks: Vec::new(),
            stats: TimerStats {
                total_tasks: 0,
                active_tasks: 0,
                completed_tasks: 0,
                cancelled_tasks: 0,
                error_tasks: 0,
                last_updated: now,
            },
            started_at: now,
        };
        assert(t.book() =~= Seq::<BookEntry>::empty());
        t
    }

    /// Takes the tasks that `keep` rejects out of the book; returns their
    /// identifiers, in order.
    fn take_out(&mut self, id: Option<&str>, kind: Option<&TimerTaskType>) -> (removed: Vec<String>)
        requires
            old(self).wf(),
            id is Some != kind is Some,
        ensures
            final(self).wf(),
            final(self).counts() == old(self).counts(),
            id matches Some(x) ==> final(self).book() == old(self).book().filter(not_id(x@))
                && (removed@.len() > 0) == holds(old(self).book(), x@),
            kind matches Some(k) ==> final(self).book() == old(self).book().filter(
                not_kind(task_kind(*k)),
            ) && removed@.map_values(|s: String| s@) == old(self).book().filter(
                of_kind(task_kind(*k)),
            ).map_values(|e: BookEntry| e.0),
    {
        let ghost b = self.book();
        let mut kept: Vec<TimerTask> = Vec::new();
        let mut removed: Vec<String> = Vec::new();
        let mut i: usize = 0;
        while i < self.tasks.len()
            invariant
                i <= self.tasks@.len(),
                b == self.book(),
                id is Some != kind is Some,
                id matches Some(x) ==> book_view(kept@) == b.take(i as int).filter(not_id(x@))
                    && (removed@.len() > 0) == holds(b.take(i as int), x@),
                kind matches Some(k) ==> book_view(kept@) == b.take(i as int).filter(
                    not_kind(task_kind(*k)),
                ) && removed@.map_values(|s: String| s@) == b.take(i as int).filter(
                    of_kind(task_kind(*k)),
                ).map_values(|e: BookEntry| e.0),
            decreases self.tasks.len() - i,
        {
            let ghost before_kept = kept@;
            let ghost before_removed = removed@;
            let drop = match id {
                Some(x) => str_eq(self.tasks[i].id.as_str(), x),
                None => match kind {
                    Some(k) => self.tasks[i].task_type.same_kind(k),
                    None => false,
                },
            };
            if drop {
                removed.push(self.tasks[i].id.clone());
            } else {
                kept.push(self.tasks[i].duplicate());
            }
            proof {
                let e = b[i as int];
                assert(b.take(i + 1) =~= b.take(i as int).push(e));
                assert(book_view(kept@) =~= if drop {
                    book_view(before_kept)
                } else {
                    book_view(before_kept).push(e)
                });
                match id {
                    Some(x) => {
                        b.take(i as int).lemma_filter_push(e, not_id(x@));
                        if drop {
                            assert(b.take(i + 1)[i as int] == e);
                        } else if holds(b.take(i + 1), x@) {
                            let j = choose|j: int| 0 <= j < i + 1 && (#[trigger] b.take(i + 1)[j]).0
                                == x@;
                            assert(b.take(i as int)[j] == b.take(i + 1)[j]);
                        }
                        if holds(b.take(i as int), x@) {
                            let j = choose|j: int| 0 <= j < i && (#[trigger] b.take(i as int)[j]).0
                                == x@;
                            assert(b.take(i + 1)[j] == b.take(i as int)[j]);
                        }
                    },
                    None => {},
                }
                match kind {
                    Some(k) => {
                        b.take(i as int).lemma_filter_push(e, not_kind(task_kind(*k)));
                        b.take(i as int).lemma_filter_push(e, of_kind(task_kind(*k)));
                        assert(b.take(i as int).filter(of_kind(task_kind(*k))).push(e).map_values(
                            |e: BookEntry| e.0,
                        ) =~= b.take(i as int).filter(of_kind(task_kind(*k))).map_values(
                            |e: BookEntry| e.0,
                        ).push(e.0));
                        assert(removed@.map_values(|s: String| s@) =~= if drop {
                            before_removed.map_values(|s: String| s@).push(e.0)
                        } else {
                            before_removed.map_values(|s: String| s@)
                        });
                    },
                    None => {},
                }
            }
            i += 1;
        }
        proof {
            assert(b.take(b.len() as int) =~= b);
            match id {
                Some(x) => lemma_unique_filter(b, not_id(x@)),
                None => {},
            }
            match kind {
                Some(k) => lemma_unique_filter(b, not_kind(task_kind(*k))),
                None => {},
            }
        }
        self.tasks = kept;
        removed
    }

    /// Starts a task: a task with the same identifier is cancelled first;
    /// the new one is counted as started and running. Returns the context
    /// of its first run.
    pub fn start_task(&mut self, id: String, task_type: TimerTaskType, config: TimerConfig) -> (c:
        TimerContext)
        requires
            old(self).wf(),
            old(self).counts().total_tasks < u64::MAX,
            old(self).counts().active_tasks < u64::MAX,
        ensures
            final(self).wf(),
            final(self).book() == old(self).book().filter(not_id(id@)).push(
                (id@, task_kind(task_type)),
            ),
            final(self).counts().total_tasks == old(self).counts().total_tasks + 1,
            final(self).counts().active_tasks == old(self).counts().active_tasks + 1,
            final(self).counts().completed_tasks == old(self).counts().completed_tasks,
            final(self).counts().cancelled_tasks == old(self).counts().cancelled_tasks,
            final(self).counts().error_tasks == old(self).counts().error_tasks,
            c.task_id == id,
            c.task_type == task_type,
            c.execution_count == 0,
            c.last_executed is None,
    {
        self.cancel_task(id.as_str());
        let ghost b = self.book();
        proof {
            lemma_ended_task_not_held(old(self).book(), id@);
        }
        let context = TimerContext {
            task_id: id.clone(),
            task_type: task_type.duplicate(),
            execution_count: 0,
            started_at: instant_now(),
            last_executed: None,
        };
        self.tasks.push(TimerTask { id, task_type, config });
        proof {
            assert(self.book() =~= b.push((context.task_id@, task_kind(context.task_type))));
            assert forall|i: int, j: int| 0 <= i < j < self.book().len() implies (
            #[trigger] self.book()[i]).0 != (#[trigger] self.book()[j]).0 by {
                if j == b.len() {
                    assert(self.book()[i] == b[i]);
                    assert(!holds(b, context.task_id@));
                } else {
                    assert(self.book()[i] == b[i] && self.book()[j] == b[j]);
                }
            }
        }
        self.stats.total_tasks = self.stats.total_tasks + 1;
        self.stats.active_tasks = self.stats.active_tasks + 1;
        self.stats.last_updated = instant_now();
        context
    }

    /// A task's run has ended with `end`: if the task is still in the book
    /// it leaves it, one running task less is counted, and the end is
    /// counted (a timeout as an error). Says whether the task was there.
    pub fn complete_task(&mut self, task_id: &str, end: TaskEnd) -> (removed: bool)
        requires
            old(self).wf(),
            old(self).counts().completed_tasks < u64::MAX,
            old(self).counts().cancelled_tasks < u64::MAX,
            old(self).counts().error_tasks < u64::MAX,
        ensures
            final(self).wf(),
            removed == holds(old(self).book(), task_id@),
            final(self).book() == old(self).book().filter(not_id(task_id@)),
            final(self).counts().total_tasks == old(self).counts().total_tasks,
            final(self).counts().active_tasks == if removed && old(self).counts().active_tasks > 0 {
                old(self).counts().active_tasks - 1
            } else {
                old(self).counts().active_tasks as int
            },
            final(self).counts().completed_tasks == old(self).counts().completed_tasks + if removed
                && end == TaskEnd::Completed {
                1int
            } else {
                0int
            },
            final(self).counts().cancelled_tasks == old(self).counts().cancelled_tasks + if removed
                && end == TaskEnd::Cancelled {
                1int
            } else {
                0int
            },
            final(self).counts().error_tasks == old(self).counts().error_tasks + if removed && (end
                == TaskEnd::Error || end == TaskEnd::Timeout) {
                1int
            } else {
                0int
            },
    {
        let removed = self.cancel_task(task_id);
        if removed {
            self.stats.active_tasks = self.stats.active_tasks.saturating_sub(1);
            match end {
                TaskEnd::Completed => self.stats.completed_tasks = self.stats.completed_tasks + 1,
                TaskEnd::Cancelled => self.stats.cancelled_tasks = self.stats.cancelled_tasks + 1,
                TaskEnd::Error | TaskEnd::Timeout => self.stats.error_tasks = self.stats.error_tasks
                    + 1,
            }
            self.stats.last_updated = instant_now();
        }
        removed
    }

    /// Takes the task `task_id` out of the book, so that its run is to be
    /// stopped; says whether it was there. The counts stay as they are.
    pub fn cancel_task(&mut self, task_id: &str) -> (cancelled: bool)
        requires
            old(self).wf(),
        ensures
            final(self).wf(),
            cancelled == holds(old(self).book(), task_id@),
            final(self).book() == old(self).book().filter(not_id(task_id@)),
            final(self).counts() == old(self).counts(),
    {
        let removed = self.take_out(Some(task_id), None);
        removed.len() > 0
    }

    /// Takes every task of kind `task_type` out of the book; returns their
    /// identifiers, whose runs are to be stopped. The counts stay.
    pub fn cancel_tasks_by_type(&mut self, task_type: &TimerTaskType) -> (ids: Vec<String>)
        requires
            old(self).wf(),
        ensures
            final(self).wf(),
            ids@.map_values(|s: String| s@) == old(self).book().filter(
                of_kind(task_kind(*task_type)),
            ).map_values(|e: BookEntry| e.0),
            final(self).book() == old(self).book().filter(not_kind(task_kind(*task_type))),
            final(self).counts() == old(self).counts(),
    {
        self.take_out(None, Some(task_type))
    }

    /// Takes every task out of the book; returns their identifiers, whose
    /// runs are to be stopped. The counts stay.
    pub fn cancel_all_tasks(&mut self) -> (ids: Vec<String>)
        requires
            old(self).wf(),
        ensures
            final(self).wf(),
            ids@.map_values(|s: String| s@) == old(self).book().map_values(|e: BookEntry| e.0),
            final(self).book().len() == 0,
            final(self).counts() == old(self).counts(),
    {
        let mut ids: Vec<String> = Vec::new();
        let mut i: usize = 0;
        while i < self.tasks.len()
            invariant
                i <= self.tasks@.len(),
                ids@.map_values(|s: String| s@) == self.book().take(i as int).map_values(
                    |e: BookEntry| e.0,
                ),
            decreases self.tasks.len() - i,
        {
            let ghost before = ids@;
            ids.push(self.tasks[i].id.clone());
            proof {
                assert(self.book()[i as int].0 == self.tasks@[i as int].id@);
                assert(ids@.map_values(|s: String| s@) =~= before.map_values(|s: String| s@).push(
                    self.book()[i as int].0,
                ));
                assert(self.book().take(i + 1).map_values(|e: BookEntry| e.0) =~= self.book().take(
                    i as int,
                ).map_values(|e: BookEntry| e.0).push(self.book()[i as int].0));
            }
            i += 1;
        }
        assert(self.book().take(self.book().len() as int) =~= self.book());
        self.tasks = Vec::new();
        assert(self.book() =~= Seq::<BookEntry>::empty());
        ids
    }

    /// The running tasks: identifier and kind, in the order they started.
    pub fn get_active_tasks(&self) -> (r: Vec<(String, TimerTaskType)>)
        ensures
            r@.len() == self.book().len(),
            forall|i: int| 0 <= i < r@.len() ==> (#[trigger] r@[i]).0@ == self.book()[i].0
                && task_kind(r@[i].1) == self.book()[i].1,
    {
        let mut r: Vec<(String, TimerTaskType)> = Vec::new();
        let mut i: usize = 0;
        while i < self.tasks.len()
            invariant
                i <= self.tasks@.len(),
                r@.len() == i,
                forall|k: int| 0 <= k < i ==> (#[trigger] r@[k]).0@ == self.book()[k].0 && task_kind(
                    r@[k].1,
                ) == self.book()[k].1,
            decreases self.tasks.len() - i,
        {
            r.push((self.tasks[i].id.clone(), self.tasks[i].task_type.duplicate()));
            i += 1;
        }
        r
    }

    /// The counts.
    pub fn get_stats(&self) -> (s: TimerStats)
        ensures
            s == self.counts(),
    {
        TimerStats {
            total_tasks: self.stats.total_tasks,
            active_tasks: self.stats.active_tasks,
            completed_tasks: self.stats.completed_tasks,
            cancelled_tasks: self.stats.cancelled_tasks,
            error_tasks: self.stats.error_tasks,
            last_updated: self.stats.last_updated,
        }
    }

    /// When the book was made.
    pub fn started_at(&self) -> Instant {
        self.started_at
    }

    /// Books a task that clears highlights after `delay_secs`, with an
    /// identifier made of the time of the call (`now_millis`, milliseconds
    /// since the Unix epoch). Returns the identifier and the context of the
    /// task's first run.
    pub fn schedule_highlight_clear(&mut self, delay_secs: u64, now_millis: u128) -> (r: (
        String,
        TimerContext,
    ))
        requires
            old(self).wf(),
            old(self).counts().total_tasks < u64::MAX,
            old(self).counts().active_tasks < u64::MAX,
        ensures
            final(self).wf(),
            r.0@ == "highlight_clear_"@ + decimal(now_millis as nat),
            final(self).book() == old(self).book().filter(not_id(r.0@)).push(
                (r.0@, task_kind(TimerTaskType::HighlightClear)),
            ),
            final(self).counts().total_tasks == old(self).counts().total_tasks + 1,
            final(self).counts().active_tasks == old(self).counts().active_tasks + 1,
            r.1.task_id == r.0,
            r.1.task_type == TimerTaskType::HighlightClear,
            r.1.execution_count == 0,
    {
        let mut id = String::from_str("highlight_clear_");
        push_decimal_wide(&mut id, now_millis);
        let context = self.start_task(
            id.clone(),
            TimerTaskType::HighlightClear,
            TimerConfig::highlight_clear(delay_secs),
        );
        (id, context)
    }

    /// Takes every highlight-clearing task out of the book; returns their
    /// identifiers.
    pub fn cancel_highlight_clear_tasks(&mut self) -> (ids: Vec<String>)
        requires
            old(self).wf(),
        ensures
            final(self).wf(),
            ids@.map_values(|s: String| s@) == old(self).book().filter(
                of_kind(task_kind(TimerTaskType::HighlightClear)),
            ).map_values(|e: BookEntry| e.0),
            final(self).book() == old(self).book().filter(
                not_kind(task_kind(TimerTaskType::HighlightClear)),
            ),
            final(self).counts() == old(self).counts(),
    {
        self.cancel_tasks_by_type(&TimerTaskType::HighlightClear)
    }
}

impl Default for TimerService {
    fn default() -> (t: Self)
        ensures
            t.wf(),
            t.book().len() == 0,
    {
        Self::new()
    }
}

} // verus!
