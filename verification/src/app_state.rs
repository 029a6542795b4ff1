//! The application's session state and how each state event changes it:
//! connection and service state, the continuation token and page, and how
//! many comments each author has written in the current stream.
use vstd::prelude::*;

use crate::models::GuiChatMessage;
use crate::monitoring::ServiceState;
use crate::text::str_eq;

verus! {

/// Comment counts by author, as a map from author names.
pub open spec fn counts_map(entries: Seq<(String, u32)>) -> Map<Seq<char>, u32>
    decreases entries.len(),
{
    if entries.len() == 0 {
        Map::empty()
    } else {
        counts_map(entries.drop_last()).insert(entries.last().0@, entries.last().1)
    }
}

/// No author appears twice.
pub open spec fn unique_authors(entries: Seq<(String, u32)>) -> bool {
    forall|i: int, j: int| 0 <= i < j < entries.len() ==> (#[trigger] entries[i]).0@ != (
    #[trigger] entries[j]).0@
}

proof fn lemma_counts_domain(entries: Seq<(String, u32)>, a: Seq<char>)
    ensures
        counts_map(entries).contains_key(a) <==> exists|i: int| 0 <= i < entries.len() && (
        #[trigger] entries[i]).0@ == a,
    decreases entries.len(),
{
    if entries.len() > 0 {
        lemma_counts_domain(entries.drop_last(), a);
        if exists|i: int| 0 <= i < entries.len() && (#[trigger] entries[i]).0@ == a {
            let i = choose|i: int| 0 <= i < entries.len() && (#[trigger] entries[i]).0@ == a;
            if i < entries.len() - 1 {
                assert(entries.drop_last()[i] == entries[i]);
            }
        }
        if exists|i: int| 0 <= i < entries.len() - 1 && (#[trigger] entries.drop_last()[i]).0@
            == a {
            let i = choose|i: int| 0 <= i < entries.len() - 1 && (
            #[trigger] entries.drop_last()[i]).0@ == a;
            assert(entries[i] == entries.drop_last()[i]);
        }
    }
}

proof fn lemma_counts_at(entries: Seq<(String, u32)>, i: int)
    requires
        unique_authors(entries),
        0 <= i < entries.len(),
    ensures
        counts_map(entries).contains_key(entries[i].0@),
        counts_map(entries)[entries[i].0@] == entries[i].1,
    decreases entries.len(),
{
    if i < entries.len() - 1 {
        let rest = entries.drop_last();
        assert(unique_authors(rest)) by {
            assert forall|a: int, b: int| 0 <= a < b < rest.len() implies (#[trigger] rest[a]).0@
                != (#[trigger] rest[b]).0@ by {
                assert(rest[a] == entries[a] && rest[b] == entries[b]);
            }
        }
        assert(rest[i] == entries[i]);
        lemma_counts_at(rest, i);
        assert(entries[i].0@ != entries.last().0@);
    }
}

proof fn lemma_counts_update(entries: Seq<(String, u32)>, i: int, e: (String, u32))
    requires
        unique_authors(entries),
        0 <= i < entries.len(),
        e.0@ == entries[i].0@,
    ensures
        counts_map(entries.update(i, e)) == counts_map(entries).insert(e.0@, e.1),
        unique_authors(entries.update(i, e)),
    decreases entries.len(),
{
    let u = entries.update(i, e);
    assert(unique_authors(u)) by {
        assert forall|a: int, b: int| 0 <= a < b < u.len() implies (#[trigger] u[a]).0@ != (
        #[trigger] u[b]).0@ by {
            assert(entries[a].0@ != entries[b].0@);
        }
    }
    let rest = entries.drop_last();
    assert(unique_authors(rest)) by {
        assert forall|a: int, b: int| 0 <= a < b < rest.len() implies (#[trigger] rest[a]).0@ != (
        #[trigger] rest[b]).0@ by {
            assert(rest[a] == entries[a] && rest[b] == entries[b]);
        }
    }
    if i == entries.len() - 1 {
        assert(u.drop_last() =~= rest);
        assert(counts_map(u) =~= counts_map(entries).insert(e.0@, e.1));
    } else {
        assert(u.drop_last() =~= rest.update(i, e));
        lemma_counts_update(rest, i, e);
        assert(entries.last().0@ != e.0@);
        assert(counts_map(u) =~= counts_map(entries).insert(e.0@, e.1));
    }
}

proof fn lemma_unique_drop_last(entries: Seq<(String, u32)>)
    requires
        unique_authors(entries),
        entries.len() > 0,
    ensures
        unique_authors(entries.drop_last()),
        !counts_map(entries.drop_last()).contains_key(entries.last().0@),
{
    let rest = entries.drop_last();
    assert forall|a: int, b: int| 0 <= a < b < rest.len() implies (#[trigger] rest[a]).0@ != (
    #[trigger] rest[b]).0@ by {
        assert(rest[a] == entries[a] && rest[b] == entries[b]);
    }
    lemma_counts_domain(rest, entries.last().0@);
    if exists|i: int| 0 <= i < rest.len() && (#[trigger] rest[i]).0@ == entries.last().0@ {
        let i = choose|i: int| 0 <= i < rest.len() && (#[trigger] rest[i]).0@ == entries.last().0@;
        assert(entries[i].0@ != entries[entries.len() - 1].0@);
    }
}

/// Sum of the counts in `entries`.
pub open spec fn sum_counts(entries: Seq<(String, u32)>) -> nat
    decreases entries.len(),
{
    if entries.len() == 0 {
        0
    } else {
        sum_counts(entries.drop_last()) + entries.last().1 as nat
    }
}

proof fn lemma_sum_update(entries: Seq<(String, u32)>, i: int, e: (String, u32))
    requires
        0 <= i < entries.len(),
    ensures
        sum_counts(entries.update(i, e)) + entries[i].1 == sum_counts(entries) + e.1,
    decreases entries.len(),
{
    let u = entries.update(i, e);
    if i == entries.len() - 1 {
        assert(u.drop_last() =~= entries.drop_last());
    } else {
        assert(u.drop_last() =~= entries.drop_last().update(i, e));
        lemma_sum_update(entries.drop_last(), i, e);
    }
}

proof fn lemma_entry_at_most_sum(entries: Seq<(String, u32)>, i: int)
    requires
        0 <= i < entries.len(),
    ensures
        entries[i].1 <= sum_counts(entries),
    decreases entries.len(),
{
    if i < entries.len() - 1 {
        assert(entries.drop_last()[i] == entries[i]);
        lemma_entry_at_most_sum(entries.drop_last(), i);
    }
}

proof fn lemma_counts_len(entries: Seq<(String, u32)>)
    requires
        unique_authors(entries),
    ensures
        counts_map(entries).dom().finite(),
        counts_map(entries).dom().len() == entries.len(),
    decreases entries.len(),
{
    if entries.len() > 0 {
        lemma_unique_drop_last(entries);
        lemma_counts_len(entries.drop_last());
    } else {
        assert(counts_map(entries).dom() =~= Set::<Seq<char>>::empty());
    }
}

/// The names counted more than `n` times.
pub open spec fn names_above(m: Map<Seq<char>, u32>, n: u32) -> Set<Seq<char>> {
    m.dom().filter(|a: Seq<char>| m[a] > n)
}

/// Number of entries whose count is above `n`.
pub open spec fn entries_above(entries: Seq<(String, u32)>, n: u32) -> nat
    decreases entries.len(),
{
    if entries.len() == 0 {
        0
    } else {
        entries_above(entries.drop_last(), n) + if entries.last().1 > n { 1nat } else { 0nat }
    }
}

proof fn lemma_names_above(entries: Seq<(String, u32)>, n: u32)
    requires
        unique_authors(entries),
    ensures
        names_above(counts_map(entries), n).finite(),
        names_above(counts_map(entries), n).len() == entries_above(entries, n),
    decreases entries.len(),
{
    let m = counts_map(entries);
    if entries.len() == 0 {
        assert(names_above(m, n) =~= Set::<Seq<char>>::empty());
    } else {
        let rest = entries.drop_last();
        let k = entries.last().0@;
        let v = entries.last().1;
        lemma_unique_drop_last(entries);
        lemma_names_above(rest, n);
        let before = names_above(counts_map(rest), n);
        if v > n {
            assert(names_above(m, n) =~= before.insert(k));
        } else {
            assert(names_above(m, n) =~= before);
        }
    }
}

/// Number of `true` flags.
pub open spec fn count_true(s: Seq<bool>) -> nat
    decreases s.len(),
{
    if s.len() == 0 {
        0
    } else {
        count_true(s.drop_last()) + if s.last() { 1nat } else { 0nat }
    }
}

proof fn lemma_count_true_set(s: Seq<bool>, j: int)
    requires
        0 <= j < s.len(),
        !s[j],
    ensures
        count_true(s.update(j, true)) == count_true(s) + 1,
    decreases s.len(),
{
    let u = s.update(j, true);
    if j == s.len() - 1 {
        assert(u.drop_last() =~= s.drop_last());
    } else {
        assert(u.drop_last() =~= s.drop_last().update(j, true));
        lemma_count_true_set(s.drop_last(), j);
    }
}

proof fn lemma_count_true_none(s: Seq<bool>)
    requires
        forall|j: int| 0 <= j < s.len() ==> !(#[trigger] s[j]),
    ensures
        count_true(s) == 0,
    decreases s.len(),
{
    if s.len() > 0 {
        lemma_count_true_none(s.drop_last());
    }
}

proof fn lemma_count_true_bound(s: Seq<bool>)
    ensures
        count_true(s) <= s.len(),
        count_true(s) < s.len() ==> exists|j: int| 0 <= j < s.len() && !s[j],
    decreases s.len(),
{
    if s.len() > 0 {
        lemma_count_true_bound(s.drop_last());
        if count_true(s) < s.len() && s.last() {
            let j = choose|j: int| 0 <= j < s.len() - 1 && !s.drop_last()[j];
            assert(!s[j]);
        }
    }
}

/// Whether `r` lists the `k` names of `m` with the highest counts (all of
/// them when there are fewer), each with its count, highest first: no name
/// twice, and no name left out with a higher count than the last listed.
pub open spec fn is_top(m: Map<Seq<char>, u32>, r: Seq<(String, u32)>, k: nat) -> bool {
    &&& r.len() == (if k < m.dom().len() { k } else { m.dom().len() })
    &&& forall|i: int| 0 <= i < r.len() ==> m.contains_key(#[trigger] r[i].0@) && m[r[i].0@] == r[i].1
    &&& forall|i: int, j: int| 0 <= i < j < r.len() ==> (#[trigger] r[i]).0@ != (#[trigger] r[j]).0@
        && r[i].1 >= r[j].1
    &&& forall|a: Seq<char>|
        #![trigger m.contains_key(a)]
        m.contains_key(a) && r.len() > 0 && (forall|i: int| 0 <= i < r.len() ==> r[i].0@ != a)
            ==> m[a] <= r.last().1
}

/// How many comments each author has written in the current stream.
pub struct CommentCounts {
    entries: Vec<(String, u32)>,
}

impl CommentCounts {
    /// The counts, as a map from author names.
    pub closed spec fn counts(&self) -> Map<Seq<char>, u32> {
        counts_map(self.entries@)
    }

    /// Each author is counted once.
    pub closed spec fn wf(&self) -> bool {
        unique_authors(self.entries@)
    }

    /// No author counted.
    pub fn new() -> (c: Self)
        ensures
            c.wf(),
            c.counts() == Map::<Seq<char>, u32>::empty(),
            c.total() == 0,
    {
        let c = CommentCounts { entries: Vec::new() };
        assert(c.counts() =~= Map::<Seq<char>, u32>::empty());
        c
    }

    /// Counts one more comment of `author`; returns the new count.
    pub fn record(&mut self, author: &str) -> (n: u32)
        requires
            old(self).wf(),
            old(self).counts().contains_key(author@) ==> old(self).counts()[author@] < u32::MAX,
        ensures
            final(self).wf(),
            n == (if old(self).counts().contains_key(author@) {
                old(self).counts()[author@] + 1
            } else {
                1
            }),
            final(self).counts() == old(self).counts().insert(author@, n),
            final(self).total() == old(self).total() + 1,
    {
        let ghost e0 = self.entries@;
        let mut i: usize = 0;
        while i < self.entries.len()
            invariant
                i <= self.entries@.len(),
                self.entries@ == e0,
                e0 == old(self).entries@,
                unique_authors(e0),
                counts_map(e0).contains_key(author@) ==> counts_map(e0)[author@] < u32::MAX,
                forall|j: int| 0 <= j < i ==> (#[trigger] e0[j]).0@ != author@,
            decreases self.entries.len() - i,
        {
            if str_eq(self.entries[i].0.as_str(), author) {
                proof {
                    lemma_counts_at(e0, i as int);
                }
                let n = self.entries[i].1 + 1;
                let entry = (String::from_str(author), n);
                proof {
                    lemma_counts_update(e0, i as int, entry);
                    lemma_sum_update(e0, i as int, entry);
                }
                self.entries.set(i, entry);
                return n;
            }
            i += 1;
        }
        proof {
            lemma_counts_domain(e0, author@);
        }
        let entry = (String::from_str(author), 1u32);
        self.entries.push(entry);
        proof {
            assert(self.entries@.drop_last() =~= e0);
            assert forall|a: int, b: int| 0 <= a < b < self.entries@.len() implies (
            #[trigger] self.entries@[a]).0@ != (#[trigger] self.entries@[b]).0@ by {
                if b < e0.len() {
                    assert(e0[a].0@ != e0[b].0@);
                }
            }
        }
        1
    }

    /// The count of `author`; zero when they have not commented.
    pub fn get(&self, author: &str) -> (n: u32)
        requires
            self.wf(),
        ensures
            n == (if self.counts().contains_key(author@) {
                self.counts()[author@]
            } else {
                0
            }),
    {
        let mut i: usize = 0;
        while i < self.entries.len()
            invariant
                i <= self.entries@.len(),
                unique_authors(self.entries@),
                forall|j: int| 0 <= j < i ==> (#[trigger] self.entries@[j]).0@ != author@,
            decreases self.entries.len() - i,
        {
            if str_eq(self.entries[i].0.as_str(), author) {
                proof {
                    lemma_counts_at(self.entries@, i as int);
                }
                return self.entries[i].1;
            }
            i += 1;
        }
        proof {
            lemma_counts_domain(self.entries@, author@);
        }
        0
    }

    /// Sum of all counts.
    pub closed spec fn total(&self) -> nat {
        sum_counts(self.entries@)
    }

    /// No count is above the sum of all counts.
    pub proof fn lemma_count_at_most_total(&self, a: Seq<char>)
        requires
            self.wf(),
        ensures
            self.counts().contains_key(a) ==> self.counts()[a] <= self.total(),
    {
        lemma_counts_domain(self.entries@, a);
        if self.counts().contains_key(a) {
            let i = choose|i: int| 0 <= i < self.entries@.len() && (#[trigger] self.entries@[i]).0@ == a;
            lemma_counts_at(self.entries@, i);
            lemma_entry_at_most_sum(self.entries@, i);
        }
    }

    /// The names counted form a finite set.
    pub proof fn lemma_len_finite(&self)
        requires
            self.wf(),
        ensures
            self.counts().dom().finite(),
    {
        lemma_counts_len(self.entries@);
    }

    /// Number of names counted.
    pub fn len(&self) -> (n: usize)
        requires
            self.wf(),
        ensures
            self.counts().dom().finite(),
            n == self.counts().dom().len(),
    {
        proof {
            lemma_counts_len(self.entries@);
        }
        self.entries.len()
    }

    /// Number of names counted more than `n` times.
    pub fn count_above(&self, n: u32) -> (c: usize)
        requires
            self.wf(),
        ensures
            names_above(self.counts(), n).finite(),
            c == names_above(self.counts(), n).len(),
    {
        let mut c: usize = 0;
        let mut i: usize = 0;
        assert(self.entries@.take(0) =~= Seq::<(String, u32)>::empty());
        while i < self.entries.len()
            invariant
                i <= self.entries@.len(),
                c == entries_above(self.entries@.take(i as int), n),
                c <= i,
            decreases self.entries.len() - i,
        {
            assert(self.entries@.take(i as int + 1).drop_last() =~= self.entries@.take(i as int));
            if self.entries[i].1 > n {
                c = c + 1;
            }
            i += 1;
        }
        assert(self.entries@.take(self.entries@.len() as int) =~= self.entries@);
        proof {
            lemma_names_above(self.entries@, n);
        }
        c
    }

    /// The `k` names with the highest counts, each with its count, highest
    /// first; among equal counts the name counted first comes first.
    pub fn top(&self, k: usize) -> (r: Vec<(String, u32)>)
        requires
            self.wf(),
        ensures
            is_top(self.counts(), r@, k as nat),
    {
        let ghost e = self.entries@;
        let n = self.entries.len();
        let mut taken: Vec<bool> = Vec::new();
        while taken.len() < n
            invariant
                taken@.len() <= n,
                forall|j: int| 0 <= j < taken@.len() ==> !(#[trigger] taken@[j]),
            decreases n - taken.len(),
        {
            taken.push(false);
        }
        proof {
            lemma_count_true_none(taken@);
        }
        let mut r: Vec<(String, u32)> = Vec::new();
        let ghost mut idx: Seq<int> = Seq::empty();
        while r.len() < k && r.len() < n
            invariant
                e == self.entries@,
                unique_authors(e),
                n == e.len(),
                taken@.len() == n,
                r@.len() == idx.len(),
                r@.len() <= n,
                r@.len() <= k,
                count_true(taken@) == r@.len(),
                forall|t: int| 0 <= t < idx.len() ==> 0 <= #[trigger] idx[t] < n && taken@[idx[t]]
                    && r@[t] == e[idx[t]],
                forall|t1: int, t2: int| 0 <= t1 < t2 < idx.len() ==> #[trigger] idx[t1] != #[trigger] idx[t2],
                forall|j: int| 0 <= j < n && #[trigger] taken@[j] ==> exists|t: int| 0 <= t < idx.len() && idx[t] == j,
                forall|t1: int, t2: int| 0 <= t1 < t2 < r@.len() ==> (#[trigger] r@[t1]).1 >= (#[trigger] r@[t2]).1,
                forall|j: int| 0 <= j < n && !(#[trigger] taken@[j]) && r@.len() > 0 ==> e[j].1 <= r@.last().1,
            decreases n - r.len(),
        {
            let mut best: usize = n;
            let mut j: usize = 0;
            while j < n
                invariant
                    e == self.entries@,
                    n == e.len(),
                    taken@.len() == n,
                    j <= n,
                    best == n || (best < j && !taken@[best as int]),
                    best == n ==> forall|jj: int| 0 <= jj < j ==> #[trigger] taken@[jj],
                    best < n ==> forall|jj: int| 0 <= jj < j && !(#[trigger] taken@[jj]) ==> e[jj].1 <= e[best as int].1,
                decreases n - j,
            {
                if !taken[j] && (best == n || self.entries[j].1 > self.entries[best].1) {
                    best = j;
                }
                j += 1;
            }
            proof {
                lemma_count_true_bound(taken@);
                if best == n {
                    let jj = choose|jj: int| 0 <= jj < taken@.len() && !taken@[jj];
                    assert(taken@[jj]);
                }
            }
            let ghost before = taken@;
            let ghost old_idx = idx;
            proof {
                lemma_count_true_set(before, best as int);
                assert forall|jj: int| 0 <= jj < n && #[trigger] before[jj] implies exists|t: int|
                    0 <= t < old_idx.len() && old_idx[t] == jj by {}
            }
            taken.set(best, true);
            let entry = (self.entries[best].0.clone(), self.entries[best].1);
            r.push(entry);
            proof {
                idx = idx.push(best as int);
                assert forall|jj: int| 0 <= jj < n && #[trigger] taken@[jj] implies exists|t: int|
                    0 <= t < idx.len() && idx[t] == jj by {
                    if jj == best as int {
                        assert(idx[idx.len() - 1] == jj);
                    } else {
                        assert(before[jj]);
                        let t = choose|t: int| 0 <= t < old_idx.len() && old_idx[t] == jj;
                        assert(idx[t] == old_idx[t]);
                    }
                }
                assert forall|t: int| 0 <= t < idx.len() implies 0 <= #[trigger] idx[t] < n
                    && taken@[idx[t]] && r@[t] == e[idx[t]] by {
                    if t < idx.len() - 1 {
                        assert(idx[t] == idx.drop_last()[t]);
                    }
                }
                assert forall|t1: int, t2: int| 0 <= t1 < t2 < idx.len() implies #[trigger] idx[t1]
                    != #[trigger] idx[t2] by {
                    if t2 == idx.len() - 1 {
                        assert(taken@[idx[t1]]);
                        assert(before[idx.drop_last()[t1]]);
                    } else {
                        assert(idx[t1] == idx.drop_last()[t1] && idx[t2] == idx.drop_last()[t2]);
                    }
                }
                assert forall|t1: int, t2: int| 0 <= t1 < t2 < r@.len() implies (#[trigger] r@[t1]).1
                    >= (#[trigger] r@[t2]).1 by {
                    if t2 == r@.len() - 1 && t1 < r@.len() - 1 {
                        let i1 = idx[t1];
                        assert(r@[t1] == e[i1]);
                        if r@.len() > 1 {
                            assert(!before[best as int]);
                        }
                    }
                }
            }
        }
        proof {
            lemma_counts_len(e);
            let m = self.counts();
            assert forall|i: int| 0 <= i < r@.len() implies m.contains_key(#[trigger] r@[i].0@)
                && m[r@[i].0@] == r@[i].1 by {
                lemma_counts_at(e, idx[i]);
            }
            assert forall|i: int, j: int| 0 <= i < j < r@.len() implies (#[trigger] r@[i]).0@
                != (#[trigger] r@[j]).0@ && r@[i].1 >= r@[j].1 by {
                assert(idx[i] != idx[j]);
                assert(r@[i] == e[idx[i]] && r@[j] == e[idx[j]]);
                if idx[i] < idx[j] {
                    assert(e[idx[i]].0@ != e[idx[j]].0@);
                } else {
                    assert(e[idx[j]].0@ != e[idx[i]].0@);
                }
            }
            assert forall|a: Seq<char>|
                m.contains_key(a) && r@.len() > 0 && (forall|i: int| 0 <= i < r@.len() ==> r@[i].0@ != a)
                implies m[a] <= r@.last().1 by {
                lemma_counts_domain(e, a);
                let j = choose|j: int| 0 <= j < e.len() && (#[trigger] e[j]).0@ == a;
                lemma_counts_at(e, j);
                if taken@[j] {
                    let t = choose|t: int| 0 <= t < idx.len() && idx[t] == j;
                    assert(r@[t].0@ == a);
                }
            }
        }
        r
    }

    /// Forgets every count.
    pub fn clear(&mut self)
        ensures
            final(self).wf(),
            final(self).counts() == Map::<Seq<char>, u32>::empty(),
            final(self).total() == 0,
    {
        self.entries = Vec::new();
        assert(self.counts() =~= Map::<Seq<char>, u32>::empty());
    }
}

/// The session state of the application.
pub struct SessionState {
    pub service_state: ServiceState,
    pub is_connected: bool,
    pub is_stopping: bool,
    pub continuation_token: Option<String>,
    pub current_url: Option<String>,
    /// Whether the statistics clock of the stream runs.
    pub stats_timer_started: bool,
    pub author_comment_counts: CommentCounts,
}

impl SessionState {
    /// The state at start: idle, not connected, nothing counted.
    pub fn new() -> (s: Self)
        ensures
            s.author_comment_counts.wf(),
            s.service_state == ServiceState::Idle,
            !s.is_connected,
            !s.is_stopping,
            s.continuation_token is None,
            s.current_url is None,
            !s.stats_timer_started,
            s.author_comment_counts.counts() == Map::<Seq<char>, u32>::empty(),
    {
        SessionState {
            service_state: ServiceState::Idle,
            is_connected: false,
            is_stopping: false,
            continuation_token: None,
            current_url: None,
            stats_timer_started: false,
            author_comment_counts: CommentCounts::new(),
        }
    }

    /// A new message: its author's comment count goes up by one, and the
    /// message comes back carrying that count.
    pub fn on_message_added(&mut self, message: GuiChatMessage) -> (m: GuiChatMessage)
        requires
            old(self).author_comment_counts.wf(),
            old(self).author_comment_counts.counts().contains_key(message.author@) ==> old(
                self,
            ).author_comment_counts.counts()[message.author@] < u32::MAX,
        ensures
            final(self).author_comment_counts.wf(),
            ({
                let c = old(self).author_comment_counts.counts();
                let n = if c.contains_key(message.author@) {
                    c[message.author@] + 1
                } else {
                    1
                };
                &&& final(self).author_comment_counts.counts() == c.insert(message.author@, n as u32)
                &&& m.comment_count == Some(n as u32)
            }),
            m == (GuiChatMessage { comment_count: m.comment_count, ..message }),
            final(self).service_state == old(self).service_state,
            final(self).is_connected == old(self).is_connected,
            final(self).is_stopping == old(self).is_stopping,
            final(self).continuation_token == old(self).continuation_token,
            final(self).current_url == old(self).current_url,
            final(self).stats_timer_started == old(self).stats_timer_started,
    {
        let mut message = message;
        let n = self.author_comment_counts.record(message.author.as_str());
        message.comment_count = Some(n);
        message
    }

    /// The connection changed: connecting marks the service connected;
    /// losing the connection makes a connected service idle. Returns whether
    /// the statistics clock is to start now (on the first connection).
    pub fn on_connection_changed(&mut self, is_connected: bool) -> (start_clock: bool)
        ensures
            final(self).is_connected == is_connected,
            start_clock == (is_connected && !old(self).stats_timer_started),
            final(self).stats_timer_started == (old(self).stats_timer_started || is_connected),
            final(self).service_state == (if is_connected {
                ServiceState::Connected
            } else if old(self).service_state == ServiceState::Connected {
                ServiceState::Idle
            } else {
                old(self).service_state
            }),
            final(self).author_comment_counts == old(self).author_comment_counts,
            final(self).is_stopping == old(self).is_stopping,
            final(self).continuation_token == old(self).continuation_token,
            final(self).current_url == old(self).current_url,
    {
        self.is_connected = is_connected;
        let start_clock = is_connected && !self.stats_timer_started;
        if start_clock {
            self.stats_timer_started = true;
        }
        if is_connected {
            self.service_state = ServiceState::Connected;
        } else {
            let was_connected = match self.service_state {
                ServiceState::Connected => true,
                _ => false,
            };
            if was_connected {
                self.service_state = ServiceState::Idle;
            }
        }
        start_clock
    }

    /// The service state changed.
    pub fn on_service_state_changed(&mut self, state: ServiceState)
        ensures
            *final(self) == (SessionState { service_state: state, ..*old(self) }),
    {
        self.service_state = state;
    }

    /// The stopping flag changed.
    pub fn on_stopping_changed(&mut self, is_stopping: bool)
        ensures
            *final(self) == (SessionState { is_stopping, ..*old(self) }),
    {
        self.is_stopping = is_stopping;
    }

    /// The messages were cleared: the statistics start over and no author
    /// has commented yet.
    pub fn on_messages_cleared(&mut self)
        ensures
            final(self).author_comment_counts.wf(),
            final(self).author_comment_counts.counts() == Map::<Seq<char>, u32>::empty(),
            !final(self).stats_timer_started,
            final(self).service_state == old(self).service_state,
            final(self).is_connected == old(self).is_connected,
            final(self).is_stopping == old(self).is_stopping,
            final(self).continuation_token == old(self).continuation_token,
            final(self).current_url == old(self).current_url,
    {
        self.author_comment_counts.clear();
        self.stats_timer_started = false;
    }

    /// A new continuation token.
    pub fn on_continuation_token_updated(&mut self, token: Option<String>)
        ensures
            *final(self) == (SessionState { continuation_token: token, ..*old(self) }),
    {
        self.continuation_token = token;
    }

    /// A new page: with a page set, the continuation token is dropped and
    /// the comment counts start over (it is a new stream).
    pub fn on_current_url_updated(&mut self, url: Option<String>)
        ensures
            final(self).current_url == url,
            url is Some ==> final(self).continuation_token is None
                && final(self).author_comment_counts.wf()
                && final(self).author_comment_counts.counts() == Map::<Seq<char>, u32>::empty(),
            url is None ==> final(self).continuation_token == old(self).continuation_token
                && final(self).author_comment_counts == old(self).author_comment_counts,
            final(self).service_state == old(self).service_state,
            final(self).is_connected == old(self).is_connected,
            final(self).is_stopping == old(self).is_stopping,
            final(self).stats_timer_started == old(self).stats_timer_started,
    {
        let set = url.is_some();
        self.current_url = url;
        if set {
            self.continuation_token = None;
            self.author_comment_counts.clear();
        }
    }
}

/// The comment counts after messages by `authors`, in order, starting
/// from none: each message adds one to its author's count.
pub open spec fn counted(authors: Seq<Seq<char>>) -> Map<Seq<char>, u32>
    decreases authors.len(),
{
    if authors.len() == 0 {
        Map::empty()
    } else {
        let before = counted(authors.drop_last());
        let a = authors.last();
        before.insert(a, (if before.contains_key(a) { before[a] + 1 } else { 1 }) as u32)
    }
}

/// Number of messages by `a` among `authors`.
pub open spec fn occurrences(authors: Seq<Seq<char>>, a: Seq<char>) -> nat
    decreases authors.len(),
{
    if authors.len() == 0 {
        0
    } else {
        occurrences(authors.drop_last(), a) + if authors.last() == a { 1nat } else { 0nat }
    }
}

/// From a fresh session, after messages by `authors` (fewer than
/// `u32::MAX` per author), an author is counted exactly when they wrote,
/// and their count is the number of their messages; so the `k`-th message
/// of an author carries the number `k`.
pub proof fn lemma_counts_are_occurrences(authors: Seq<Seq<char>>, a: Seq<char>)
    requires
        occurrences(authors, a) < u32::MAX,
    ensures
        counted(authors).contains_key(a) <==> occurrences(authors, a) > 0,
        counted(authors).contains_key(a) ==> counted(authors)[a] == occurrences(authors, a),
    decreases authors.len(),
{
    if authors.len() > 0 {
        lemma_counts_are_occurrences(authors.drop_last(), a);
    }
}

} // verus!
