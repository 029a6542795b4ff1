//! Bookkeeping of the user interface's reactive signals: which exist, how
//! often each is updated, which repeat a kind or are never used, and a
//! report with recommendations; and the queue of batched signal updates.
use vstd::prelude::*;

use crate::clock::instant_now;
use crate::text::{decimal, push_decimal, push_decimal_wide, push_str, str_eq};
use std::collections::VecDeque;
use std::time::Instant;

verus! {

/// Kind of a signal.
#[derive(Debug, Clone, PartialEq, Eq, Hash)]
pub enum SignalType {
    ChatMessage,
    FilteredMessage,
    MessageFilter,
    AutoScrollEnabled,
    UserHasScrolled,
    ShowFilterPanel,
    ShowTimestamps,
    MessageFontSize,
    HighlightEnabled,
    HighlightDuration,
    HighlightedMessageIds,
    LastMessageCount,
    ScrollPosition,
    Custom(String),
}

/// The name of a kind's variant, as `Debug` writes a variant without data.
pub open spec fn variant_name(t: SignalType) -> Seq<char> {
    match t {
        SignalType::ChatMessage => "ChatMessage"@,
        SignalType::FilteredMessage => "FilteredMessage"@,
        SignalType::MessageFilter => "MessageFilter"@,
        SignalType::AutoScrollEnabled => "AutoScrollEnabled"@,
        SignalType::UserHasScrolled => "UserHasScrolled"@,
        SignalType::ShowFilterPanel => "ShowFilterPanel"@,
        SignalType::ShowTimestamps => "ShowTimestamps"@,
        SignalType::MessageFontSize => "MessageFontSize"@,
        SignalType::HighlightEnabled => "HighlightEnabled"@,
        SignalType::HighlightDuration => "HighlightDuration"@,
        SignalType::HighlightedMessageIds => "HighlightedMessageIds"@,
        SignalType::LastMessageCount => "LastMessageCount"@,
        SignalType::ScrollPosition => "ScrollPosition"@,
        SignalType::Custom(_) => "Custom"@,
    }
}

/// The position of a kind's variant in the list of variants.
pub open spec fn variant_tag(t: SignalType) -> nat {
    match t {
        SignalType::ChatMessage => 0,
        SignalType::FilteredMessage => 1,
        SignalType::MessageFilter => 2,
        SignalType::AutoScrollEnabled => 3,
        SignalType::UserHasScrolled => 4,
        SignalType::ShowFilterPanel => 5,
        SignalType::ShowTimestamps => 6,
        SignalType::MessageFontSize => 7,
        SignalType::HighlightEnabled => 8,
        SignalType::HighlightDuration => 9,
        SignalType::HighlightedMessageIds => 10,
        SignalType::LastMessageCount => 11,
        SignalType::ScrollPosition => 12,
        SignalType::Custom(_) => 13,
    }
}

/// What tells two kinds apart: the variant, and a custom kind's name.
pub open spec fn type_view(t: SignalType) -> (nat, Seq<char>) {
    match t {
        SignalType::Custom(name) => (variant_tag(t), name@),
        _ => (variant_tag(t), Seq::empty()),
    }
}

/// The position of a kind's variant in the list of variants.
fn variant_tag_exec(t: &SignalType) -> (r: u8)
    ensures
        r == variant_tag(*t),
{
    match t {
        SignalType::ChatMessage => 0,
        SignalType::FilteredMessage => 1,
        SignalType::MessageFilter => 2,
        SignalType::AutoScrollEnabled => 3,
        SignalType::UserHasScrolled => 4,
        SignalType::ShowFilterPanel => 5,
        SignalType::ShowTimestamps => 6,
        SignalType::MessageFontSize => 7,
        SignalType::HighlightEnabled => 8,
        SignalType::HighlightDuration => 9,
        SignalType::HighlightedMessageIds => 10,
        SignalType::LastMessageCount => 11,
        SignalType::ScrollPosition => 12,
        SignalType::Custom(_) => 13,
    }
}

impl SignalType {
    /// A copy of this kind.
    pub fn duplicate(&self) -> (r: Self)
        ensures
            r == *self,
    {
        match self {
            SignalType::ChatMessage => SignalType::ChatMessage,
            SignalType::FilteredMessage => SignalType::FilteredMessage,
            SignalType::MessageFilter => SignalType::MessageFilter,
            SignalType::AutoScrollEnabled => SignalType::AutoScrollEnabled,
            SignalType::UserHasScrolled => SignalType::UserHasScrolled,
            SignalType::ShowFilterPanel => SignalType::ShowFilterPanel,
            SignalType::ShowTimestamps => SignalType::ShowTimestamps,
            SignalType::MessageFontSize => SignalType::MessageFontSize,
            SignalType::HighlightEnabled => SignalType::HighlightEnabled,
            SignalType::HighlightDuration => SignalType::HighlightDuration,
            SignalType::HighlightedMessageIds => SignalType::HighlightedMessageIds,
            SignalType::LastMessageCount => SignalType::LastMessageCount,
            SignalType::ScrollPosition => SignalType::ScrollPosition,
            SignalType::Custom(name) => SignalType::Custom(name.clone()),
        }
    }
}

/// `s` as `Debug` writes a string: quoted, with escapes.
pub uninterp spec fn debug_text(s: Seq<char>) -> Seq<char>;

/// Calls `<str as Debug>::fmt` through `format!("{:?}", s)`; the result is
/// named `debug_text`.
#[verifier::external_body]
fn debug_quoted(s: &str) -> (r: String)
    ensures
        r@ == debug_text(s@),
{
    format!("{:?}", s)
}

/// A kind as `Debug` writes it: the variant name, and a custom kind's
/// quoted name in brackets.
pub open spec fn kind_text(t: SignalType) -> Seq<char> {
    match t {
        SignalType::Custom(name) => "Custom("@ + debug_text(name@) + ")"@,
        _ => variant_name(t),
    }
}

/// The variant name of a kind.
fn variant_name_exec(t: &SignalType) -> (r: &'static str)
    ensures
        r@ == variant_name(*t),
{
    match t {
        SignalType::ChatMessage => "ChatMessage",
        SignalType::FilteredMessage => "FilteredMessage",
        SignalType::MessageFilter => "MessageFilter",
        SignalType::AutoScrollEnabled => "AutoScrollEnabled",
        SignalType::UserHasScrolled => "UserHasScrolled",
        SignalType::ShowFilterPanel => "ShowFilterPanel",
        SignalType::ShowTimestamps => "ShowTimestamps",
        SignalType::MessageFontSize => "MessageFontSize",
        SignalType::HighlightEnabled => "HighlightEnabled",
        SignalType::HighlightDuration => "HighlightDuration",
        SignalType::HighlightedMessageIds => "HighlightedMessageIds",
        SignalType::LastMessageCount => "LastMessageCount",
        SignalType::ScrollPosition => "ScrollPosition",
        SignalType::Custom(_) => "Custom",
    }
}

/// Whether two kinds are the same.
fn same_type(a: &SignalType, b: &SignalType) -> (r: bool)
    ensures
        r == (type_view(*a) == type_view(*b)),
{
    if variant_tag_exec(a) != variant_tag_exec(b) {
        return false;
    }
    match (a, b) {
        (SignalType::Custom(x), SignalType::Custom(y)) => str_eq(x.as_str(), y.as_str()),
        _ => true,
    }
}

/// Appends a kind as `Debug` writes it.
fn push_kind_text(s: &mut String, t: &SignalType)
    ensures
        final(s)@ == old(s)@ + kind_text(*t),
{
    match t {
        SignalType::Custom(name) => {
            push_str(s, "Custom(");
            let q = debug_quoted(name.as_str());
            push_str(s, q.as_str());
            push_str(s, ")");
        },
        _ => push_str(s, variant_name_exec(t)),
    }
}

/// A registered signal.
#[derive(Debug, Clone)]
pub struct SignalInfo {
    pub id: String,
    pub signal_type: SignalType,
    /// Component that owns the signal.
    pub component: String,
    pub created_at: Instant,
    pub update_count: u64,
    pub last_updated: Option<Instant>,
}

/// Kind of an optimisation recommendation.
#[derive(Debug, Clone, Copy, PartialEq, Eq, Structural)]
pub enum OptimizationType {
    MergeDuplicate,
    RemoveUnused,
    BatchUpdate,
    SimplifyDependency,
}

/// Figures of the last analysis.
#[derive(Debug, Clone)]
pub struct GraphStats {
    pub total_signals: usize,
    /// Signals that repeat the kind of another.
    pub duplicate_signals: usize,
    /// Signals never updated.
    pub unused_signals: usize,
    pub memory_usage: usize,
    pub last_analyzed: Instant,
}

/// The signal at `i` is the first of its kind in `s`.
pub open spec fn first_of_type(s: Seq<SignalInfo>, i: int) -> bool {
    forall|j: int| 0 <= j < i ==> type_view(#[trigger] s[j].signal_type) != type_view(
        s[i].signal_type,
    )
}

/// Number of signals among the first `k` of `s` of kind `tv`.
pub open spec fn type_count(s: Seq<SignalInfo>, tv: (nat, Seq<char>), k: int) -> nat
    decreases k,
{
    if k <= 0 {
        0
    } else {
        type_count(s, tv, k - 1) + if type_view(s[k - 1].signal_type) == tv { 1nat } else { 0nat }
    }
}

/// Identifiers of the signals among the first `k` of `s` of kind `tv`, in order.
pub open spec fn type_ids(s: Seq<SignalInfo>, tv: (nat, Seq<char>), k: int) -> Seq<Seq<char>>
    decreases k,
{
    if k <= 0 {
        Seq::empty()
    } else {
        let rest = type_ids(s, tv, k - 1);
        if type_view(s[k - 1].signal_type) == tv {
            rest.push(s[k - 1].id@)
        } else {
            rest
        }
    }
}

/// The signal at `i` opens a group of duplicates: it is the first of its
/// kind, and another signal has that kind.
pub open spec fn opens_group(s: Seq<SignalInfo>, i: int) -> bool {
    first_of_type(s, i) && type_count(s, type_view(s[i].signal_type), s.len() as int) >= 2
}

/// The groups of duplicates opened among the first `k` signals: for each
/// kind with at least two signals, the identifiers of its signals, in
/// order; the groups come in the order of each kind's first signal.
pub open spec fn groups_upto(s: Seq<SignalInfo>, k: int) -> Seq<Seq<Seq<char>>>
    decreases k,
{
    if k <= 0 {
        Seq::empty()
    } else {
        let rest = groups_upto(s, k - 1);
        if opens_group(s, k - 1) {
            rest.push(type_ids(s, type_view(s[k - 1].signal_type), s.len() as int))
        } else {
            rest
        }
    }
}

/// The groups of signals that share a kind.
pub open spec fn duplicate_groups(s: Seq<SignalInfo>) -> Seq<Seq<Seq<char>>> {
    groups_upto(s, s.len() as int)
}

/// Identifiers of the signals among the first `k` of `s` never updated, in order.
pub open spec fn unused_upto(s: Seq<SignalInfo>, k: int) -> Seq<Seq<char>>
    decreases k,
{
    if k <= 0 {
        Seq::empty()
    } else {
        let rest = unused_upto(s, k - 1);
        if s[k - 1].update_count == 0 {
            rest.push(s[k - 1].id@)
        } else {
            rest
        }
    }
}

/// Identifiers of the signals never updated, in order.
pub open spec fn unused_ids(s: Seq<SignalInfo>) -> Seq<Seq<char>> {
    unused_upto(s, s.len() as int)
}

/// Number of signals among the first `k` that repeat the kind of an earlier one.
pub open spec fn repeats_upto(s: Seq<SignalInfo>, k: int) -> nat
    decreases k,
{
    if k <= 0 {
        0
    } else {
        repeats_upto(s, k - 1) + if first_of_type(s, k - 1) { 0nat } else { 1nat }
    }
}

/// Number of signals that repeat the kind of an earlier one: for each kind,
/// its number of signals less one.
pub open spec fn repeated_signals(s: Seq<SignalInfo>) -> nat {
    repeats_upto(s, s.len() as int)
}

/// The signal at `i` is the first of its component in `s`.
pub open spec fn first_of_component(s: Seq<SignalInfo>, i: int) -> bool {
    forall|j: int| 0 <= j < i ==> (#[trigger] s[j]).component@ != s[i].component@
}

/// Number of signals among the first `k` of `s` owned by component `c`.
pub open spec fn component_count(s: Seq<SignalInfo>, c: Seq<char>, k: int) -> nat
    decreases k,
{
    if k <= 0 {
        0
    } else {
        component_count(s, c, k - 1) + if s[k - 1].component@ == c { 1nat } else { 0nat }
    }
}

/// Report lines of the components among the first `k` signals: one line
/// per component, at its first signal, with its number of signals.
pub open spec fn component_lines(s: Seq<SignalInfo>, k: int) -> Seq<char>
    decreases k,
{
    if k <= 0 {
        Seq::empty()
    } else {
        component_lines(s, k - 1) + if first_of_component(s, k - 1) {
            "  "@ + s[k - 1].component@ + " -> "@ + decimal(
                component_count(s, s[k - 1].component@, s.len() as int),
            ) + " signals\n"@
        } else {
            Seq::empty()
        }
    }
}

/// Report lines of the signals among the first `k` of kind `tv`.
pub open spec fn member_lines(s: Seq<SignalInfo>, tv: (nat, Seq<char>), k: int) -> Seq<char>
    decreases k,
{
    if k <= 0 {
        Seq::empty()
    } else {
        member_lines(s, tv, k - 1) + if type_view(s[k - 1].signal_type) == tv {
            "    - "@ + s[k - 1].id@ + " ("@ + s[k - 1].component@ + ")\n"@
        } else {
            Seq::empty()
        }
    }
}

/// The report lines of the group of duplicates opened by the signal at
/// `i`: a numbered heading with the kind and size, then its signals.
pub open spec fn group_piece(s: Seq<SignalInfo>, i: int) -> Seq<char> {
    let tv = type_view(s[i].signal_type);
    "  Group "@ + decimal(groups_upto(s, i).len() + 1) + ": "@ + kind_text(s[i].signal_type) + " ("@
        + decimal(type_count(s, tv, s.len() as int)) + " signals)\n"@ + member_lines(
        s,
        tv,
        s.len() as int,
    )
}

/// Report lines of the groups of duplicates opened among the first `k` signals.
pub open spec fn group_lines(s: Seq<SignalInfo>, k: int) -> Seq<char>
    decreases k,
{
    if k <= 0 {
        Seq::empty()
    } else {
        group_lines(s, k - 1) + if opens_group(s, k - 1) {
            group_piece(s, k - 1)
        } else {
            Seq::empty()
        }
    }
}

/// The recommendation to merge the group of duplicates opened by the
/// signal at `i`: merging `c` signals is expected to save `20 * (c - 1)`
/// percent.
pub open spec fn merge_piece(s: Seq<SignalInfo>, i: int) -> Seq<char> {
    let c = type_count(s, type_view(s[i].signal_type), s.len() as int);
    "  "@ + decimal(groups_upto(s, i).len() + 1) + ". [Priority 1] Merge "@ + decimal(c)
        + " duplicate signals of same type\n"@ + "     Expected improvement: "@ + decimal(
        (20 * (c - 1)) as nat,
    ) + ".0%\n"@ + "     Affected signals: "@ + decimal(c) + "\n"@
}

/// Recommendation lines for the groups of duplicates opened among the
/// first `k` signals.
pub open spec fn merge_lines(s: Seq<SignalInfo>, k: int) -> Seq<char>
    decreases k,
{
    if k <= 0 {
        Seq::empty()
    } else {
        merge_lines(s, k - 1) + if opens_group(s, k - 1) {
            merge_piece(s, k - 1)
        } else {
            Seq::empty()
        }
    }
}

/// The recommendation to remove `u` unused signals, numbered `g + 1`:
/// expected to save `10 * u` percent.
pub open spec fn unused_line(g: nat, u: nat) -> Seq<char> {
    "  "@ + decimal(g + 1) + ". [Priority 2] Remove "@ + decimal(u) + " unused signals\n"@
        + "     Expected improvement: "@ + decimal(10 * u) + ".0%\n"@ + "     Affected signals: "@
        + decimal(u) + "\n"@
}

/// The head of the analysis report: the figures.
pub open spec fn report_head(s: Seq<SignalInfo>, memory_usage: nat) -> Seq<char> {
    "=== Signal Optimization Analysis Report ===\n\n"@ + "\u{1f4ca} Total Signals: "@ + decimal(s.len())
        + "\n"@ + "\u{1f504} Duplicate Signals: "@ + decimal(repeated_signals(s)) + "\n"@
        + "\u{1f5d1}\u{fe0f} Unused Signals: "@ + decimal(unused_ids(s).len()) + "\n"@
        + "\u{1f4be} Memory Usage: "@ + decimal(memory_usage) + " bytes\n\n"@
}

/// The report's section on groups of duplicates; empty without any.
pub open spec fn groups_section(s: Seq<SignalInfo>) -> Seq<char> {
    if duplicate_groups(s).len() > 0 {
        "\u{1f50d} Duplicate Signal Groups:\n"@ + group_lines(s, s.len() as int) + "\n"@
    } else {
        Seq::empty()
    }
}

/// The report's recommendations: merging each group of duplicates, then
/// removing the unused signals.
pub open spec fn recommendations_section(s: Seq<SignalInfo>) -> Seq<char> {
    let g = duplicate_groups(s).len();
    let u = unused_ids(s).len();
    if g > 0 || u > 0 {
        "\u{1f4a1} Optimization Recommendations:\n"@ + merge_lines(s, s.len() as int) + (if u > 0 {
            unused_line(g, u)
        } else {
            Seq::empty()
        })
    } else {
        "\u{2705} No optimization recommendations at this time.\n"@
    }
}

/// The analysis report of the signals `s`: the figures, the signals per
/// component, the groups of duplicates, and the recommendations.
pub open spec fn analysis_report(s: Seq<SignalInfo>, memory_usage: nat) -> Seq<char> {
    report_head(s, memory_usage) + "\u{1f4e6} Signals by Component:\n"@ + component_lines(
        s,
        s.len() as int,
    ) + "\n"@ + groups_section(s) + recommendations_section(s)
}

/// No two signals of `s` share an identifier.
pub open spec fn distinct_ids(s: Seq<SignalInfo>) -> bool {
    forall|i: int, j: int| 0 <= i < j < s.len() ==> (#[trigger] s[i]).id@ != (#[trigger] s[j]).id@
}

/// Where the signal `id` stands in `s`, if it is there.
pub open spec fn position_of(s: Seq<SignalInfo>, id: Seq<char>) -> Option<int> {
    if exists|i: int| 0 <= i < s.len() && #[trigger] s[i].id@ == id {
        Some(choose|i: int| 0 <= i < s.len() && #[trigger] s[i].id@ == id)
    } else {
        None
    }
}

proof fn lemma_counts_bounded(s: Seq<SignalInfo>, tv: (nat, Seq<char>), k: int)
    requires
        0 <= k <= s.len(),
    ensures
        type_count(s, tv, k) <= k,
        type_ids(s, tv, k).len() == type_count(s, tv, k),
        unused_upto(s, k).len() <= k,
        repeats_upto(s, k) <= k,
    decreases k,
{
    if k > 0 {
        lemma_counts_bounded(s, tv, k - 1);
    }
}

proof fn lemma_groups_bounded(s: Seq<SignalInfo>, k: int)
    requires
        0 <= k <= s.len(),
    ensures
        groups_upto(s, k).len() <= k,
    decreases k,
{
    if k > 0 {
        lemma_groups_bounded(s, k - 1);
    }
}

/// For each group, its size less one, summed.
pub open spec fn group_excess(groups: Seq<Seq<Seq<char>>>) -> int
    decreases groups.len(),
{
    if groups.len() == 0 {
        0
    } else {
        group_excess(groups.drop_last()) + groups.last().len() - 1
    }
}

/// What the signal at `i` adds to the duplicates when the first `k` signals
/// are counted: its kind's number of signals less one, if it is the first
/// of its kind.
spec fn contribution(s: Seq<SignalInfo>, i: int, k: int) -> int {
    if first_of_type(s, i) {
        type_count(s, type_view(s[i].signal_type), k) - 1
    } else {
        0
    }
}

/// The contributions of the first `m` signals, counting the first `k`.
spec fn partial_excess(s: Seq<SignalInfo>, k: int, m: int) -> int
    decreases m,
{
    if m <= 0 {
        0
    } else {
        partial_excess(s, k, m - 1) + contribution(s, m - 1, k)
    }
}

/// Number of signals among the first `m` that are the first of kind `t`.
spec fn firsts_of(s: Seq<SignalInfo>, t: (nat, Seq<char>), m: int) -> int
    decreases m,
{
    if m <= 0 {
        0
    } else {
        firsts_of(s, t, m - 1) + if first_of_type(s, m - 1) && type_view(s[m - 1].signal_type)
            == t {
            1int
        } else {
            0int
        }
    }
}

proof fn lemma_firsts_at_most_one(s: Seq<SignalInfo>, t: (nat, Seq<char>), m: int)
    requires
        0 <= m <= s.len(),
    ensures
        firsts_of(s, t, m) == (if exists|i: int|
            0 <= i < m && first_of_type(s, i) && type_view(#[trigger] s[i].signal_type) == t {
            1int
        } else {
            0int
        }),
    decreases m,
{
    if m > 0 {
        lemma_firsts_at_most_one(s, t, m - 1);
        if first_of_type(s, m - 1) && type_view(s[m - 1].signal_type) == t {
            if exists|i: int|
                0 <= i < m - 1 && first_of_type(s, i) && type_view(#[trigger] s[i].signal_type)
                    == t {
                let i = choose|i: int|
                    0 <= i < m - 1 && first_of_type(s, i) && type_view(
                        #[trigger] s[i].signal_type,
                    ) == t;
                assert(type_view(s[i].signal_type) != type_view(s[m - 1].signal_type));
            }
        }
    }
}

proof fn lemma_partial_step(s: Seq<SignalInfo>, k: int, m: int)
    requires
        0 <= m <= k < s.len(),
    ensures
        partial_excess(s, k + 1, m) == partial_excess(s, k, m) + firsts_of(
            s,
            type_view(s[k].signal_type),
            m,
        ),
    decreases m,
{
    if m > 0 {
        lemma_partial_step(s, k, m - 1);
    }
}

proof fn lemma_first_has_no_earlier(s: Seq<SignalInfo>, k: int, j: int)
    requires
        0 <= j <= k < s.len(),
        first_of_type(s, k),
    ensures
        type_count(s, type_view(s[k].signal_type), j) == 0,
    decreases j,
{
    if j > 0 {
        lemma_first_has_no_earlier(s, k, j - 1);
    }
}

proof fn lemma_some_first(s: Seq<SignalInfo>, t: (nat, Seq<char>), k: int)
    requires
        0 <= k <= s.len(),
        exists|j: int| 0 <= j < k && type_view(#[trigger] s[j].signal_type) == t,
    ensures
        exists|i: int| 0 <= i < k && first_of_type(s, i) && type_view(#[trigger] s[i].signal_type) == t,
    decreases k,
{
    if exists|j: int| 0 <= j < k - 1 && type_view(#[trigger] s[j].signal_type) == t {
        lemma_some_first(s, t, k - 1);
        let i = choose|i: int|
            0 <= i < k - 1 && first_of_type(s, i) && type_view(#[trigger] s[i].signal_type) == t;
        assert(0 <= i < k);
    } else {
        assert(type_view(s[k - 1].signal_type) == t);
        assert(first_of_type(s, k - 1));
    }
}

proof fn lemma_repeats_partial(s: Seq<SignalInfo>, k: int)
    requires
        0 <= k <= s.len(),
    ensures
        partial_excess(s, k, k) == repeats_upto(s, k),
    decreases k,
{
    if k > 0 {
        let j = k - 1;
        lemma_repeats_partial(s, j);
        lemma_partial_step(s, j, j);
        let t = type_view(s[j].signal_type);
        lemma_firsts_at_most_one(s, t, j);
        if first_of_type(s, j) {
            lemma_first_has_no_earlier(s, j, j);
            if exists|i: int| 0 <= i < j && first_of_type(s, i) && type_view(#[trigger] s[i].signal_type) == t {
                let i = choose|i: int| 0 <= i < j && first_of_type(s, i) && type_view(#[trigger] s[i].signal_type) == t;
                assert(type_view(s[i].signal_type) != type_view(s[j].signal_type));
            }
        } else {
            let w = choose|w: int| 0 <= w < j && type_view(#[trigger] s[w].signal_type) == t;
            lemma_some_first(s, t, j);
        }
    }
}

proof fn lemma_own_kind_counted(s: Seq<SignalInfo>, i: int, k: int)
    requires
        0 <= i < k <= s.len(),
    ensures
        type_count(s, type_view(s[i].signal_type), k) >= 1,
    decreases k,
{
    if k - 1 > i {
        lemma_own_kind_counted(s, i, k - 1);
    }
}

proof fn lemma_groups_partial(s: Seq<SignalInfo>, m: int)
    requires
        0 <= m <= s.len(),
    ensures
        group_excess(groups_upto(s, m)) == partial_excess(s, s.len() as int, m),
    decreases m,
{
    if m > 0 {
        lemma_groups_partial(s, m - 1);
        let t = type_view(s[m - 1].signal_type);
        lemma_counts_bounded(s, t, s.len() as int);
        lemma_own_kind_counted(s, m - 1, s.len() as int);
        if opens_group(s, m - 1) {
            assert(groups_upto(s, m).drop_last() == groups_upto(s, m - 1));
        }
    }
}

/// The duplicate figure is what the groups of duplicates add up to: for
/// each group, its size less one.
pub proof fn lemma_repeats_are_group_excess(s: Seq<SignalInfo>)
    ensures
        repeated_signals(s) == group_excess(duplicate_groups(s)),
{
    lemma_repeats_partial(s, s.len() as int);
    lemma_groups_partial(s, s.len() as int);
}

/// A recommendation to optimise signals.
#[derive(Debug, Clone)]
pub struct OptimizationRecommendation {
    pub recommendation_type: OptimizationType,
    pub signal_ids: Vec<String>,
    /// Expected saving, in percent.
    pub expected_improvement_percent: u128,
    pub description: String,
    /// 1 is the most urgent.
    pub priority: u8,
}

/// What a recommendation holds: its kind, signals, saving in percent,
/// description and priority.
pub open spec fn recommendation_view(r: OptimizationRecommendation) -> (
    OptimizationType,
    Seq<Seq<char>>,
    nat,
    Seq<char>,
    u8,
) {
    (
        r.recommendation_type,
        r.signal_ids@.map_values(|x: String| x@),
        r.expected_improvement_percent as nat,
        r.description@,
        r.priority,
    )
}

/// The recommendation to merge the group of duplicates `g`: 20 percent
/// saved for each signal beyond the first.
pub open spec fn merge_recommendation(g: Seq<Seq<char>>) -> (OptimizationType, Seq<Seq<char>>, nat, Seq<char>, u8) {
    (
        OptimizationType::MergeDuplicate,
        g,
        20 * (if g.len() > 0 { (g.len() - 1) as nat } else { 0nat }),
        "Merge "@ + decimal(g.len()) + " duplicate signals of same type"@,
        1u8,
    )
}

/// The recommendations for the signals `s`: merging each group of
/// duplicates (priority 1), then removing the signals never updated, if
/// any (priority 2, 10 percent saved for each).
pub open spec fn recommendations_for(s: Seq<SignalInfo>) -> Seq<(OptimizationType, Seq<Seq<char>>, nat, Seq<char>, u8)> {
    let u = unused_ids(s);
    duplicate_groups(s).map_values(|g: Seq<Seq<char>>| merge_recommendation(g)) + if u.len() > 0 {
        seq![
            (
                OptimizationType::RemoveUnused,
                u,
                10 * u.len(),
                "Remove "@ + decimal(u.len()) + " unused signals"@,
                2u8,
            ),
        ]
    } else {
        Seq::empty()
    }
}

/// The registry of signals.
pub struct SignalDependencyGraph {
    signals: Vec<SignalInfo>,
    stats: GraphStats,
}

impl SignalDependencyGraph {
    /// The registered signals, in the order they were first registered.
    pub closed spec fn entries(&self) -> Seq<SignalInfo> {
        self.signals@
    }

    /// The figures of the last analysis.
    pub closed spec fn figures(&self) -> GraphStats {
        self.stats
    }

    /// Signal identifiers are unique.
    pub closed spec fn wf(&self) -> bool {
        distinct_ids(self.signals@)
    }

    /// An empty registry with zero figures.
    pub fn new() -> (g: Self)
        ensures
            g.wf(),
            g.entries().len() == 0,
            g.figures().total_signals == 0,
            g.figures().duplicate_signals == 0,
            g.figures().unused_signals == 0,
            g.figures().memory_usage == 0,
    {
        SignalDependencyGraph {
            signals: Vec::new(),
            stats: GraphStats {
                total_signals: 0,
                duplicate_signals: 0,
                unused_signals: 0,
                memory_usage: 0,
                last_analyzed: instant_now(),
            },
        }
    }

    /// Where the signal `id` stands.
    fn find(&self, id: &str) -> (r: Option<usize>)
        requires
            self.wf(),
        ensures
            match r {
                Some(i) => i < self.entries().len() && self.entries()[i as int].id@ == id@
                    && position_of(self.entries(), id@) == Some(i as int),
                None => position_of(self.entries(), id@) is None,
            },
    {
        let mut i: usize = 0;
        while i < self.signals.len()
            invariant
                i <= self.signals@.len(),
                distinct_ids(self.signals@),
                forall|j: int| 0 <= j < i ==> (#[trigger] self.signals@[j]).id@ != id@,
            decreases self.signals.len() - i,
        {
            if str_eq(self.signals[i].id.as_str(), id) {
                proof {
                    let c = choose|c: int| 0 <= c < self.signals@.len() && #[trigger] self.signals@[c].id@ == id@;
                    if c != i {
                        assert(distinct_ids(self.signals@));
                        if c < i {
                            assert(self.signals@[c].id@ != self.signals@[i as int].id@);
                        } else {
                            assert(self.signals@[i as int].id@ != self.signals@[c].id@);
                        }
                    }
                }
                return Some(i);
            }
            i += 1;
        }
        None
    }

    /// Registers a signal, replacing one registered under the same
    /// identifier (which then starts again from zero updates).
    pub fn register_signal(&mut self, id: String, signal_type: SignalType, component: String)
        requires
            old(self).wf(),
        ensures
            final(self).wf(),
            ({
                let e = final(self).entries();
                let o = old(self).entries();
                let k = match position_of(o, id@) {
                    Some(p) => p,
                    None => o.len() as int,
                };
                &&& e.len() == (if position_of(o, id@) is Some { o.len() } else { o.len() + 1 })
                &&& e[k].id == id
                &&& e[k].signal_type == signal_type
                &&& e[k].component == component
                &&& e[k].update_count == 0
                &&& e[k].last_updated is None
                &&& forall|j: int| 0 <= j < o.len() && j != k ==> e[j] == o[j]
            }),
            final(self).figures().total_signals == final(self).entries().len(),
            final(self).figures().duplicate_signals == old(self).figures().duplicate_signals,
            final(self).figures().unused_signals == old(self).figures().unused_signals,
            final(self).figures().memory_usage == old(self).figures().memory_usage,
            registered_from(old(self).entries(), final(self).entries(), id@),
            unused_ids(final(self).entries()).contains(id@),
    {
        let info = SignalInfo {
            id: id.clone(),
            signal_type,
            component,
            created_at: instant_now(),
            update_count: 0,
            last_updated: None,
        };
        let ghost o = self.signals@;
        match self.find(id.as_str()) {
            Some(i) => {
                self.signals.set(i, info);
                proof {
                    assert forall|a: int, b: int| 0 <= a < b < self.signals@.len() implies (
                    #[trigger] self.signals@[a]).id@ != (#[trigger] self.signals@[b]).id@ by {
                        assert(o[a].id@ != o[b].id@);
                    }
                }
            },
            None => {
                self.signals.push(info);
                proof {
                    assert forall|a: int, b: int| 0 <= a < b < self.signals@.len() implies (
                    #[trigger] self.signals@[a]).id@ != (#[trigger] self.signals@[b]).id@ by {
                        if b == o.len() {
                            assert(o[a].id@ != id@);
                        } else {
                            assert(o[a].id@ != o[b].id@);
                        }
                    }
                }
            },
        }
        self.stats.total_signals = self.signals.len();
        proof {
            let e = self.signals@;
            let k = match position_of(o, id@) {
                Some(p) => p,
                None => o.len() as int,
            };
            lemma_unused_ids_members(e, e.len() as int);
            assert(e[k].id@ == id@ && e[k].update_count == 0);
        }
    }

    /// The signals' identifiers are distinct.
    pub proof fn lemma_ids_distinct(&self)
        requires
            self.wf(),
        ensures
            distinct_ids(self.entries()),
    {
    }

    /// Counts one update of the signal `signal_id`; an unknown identifier
    /// changes nothing.
    pub fn record_update(&mut self, signal_id: &str)
        requires
            old(self).wf(),
            position_of(old(self).entries(), signal_id@) matches Some(p) ==> old(
                self,
            ).entries()[p].update_count < u64::MAX,
        ensures
            final(self).wf(),
            final(self).entries().len() == old(self).entries().len(),
            match position_of(old(self).entries(), signal_id@) {
                Some(p) => {
                    &&& final(self).entries()[p].update_count == old(self).entries()[p].update_count
                        + 1
                    &&& final(self).entries()[p].last_updated is Some
                    &&& final(self).entries()[p].id == old(self).entries()[p].id
                    &&& final(self).entries()[p].signal_type == old(self).entries()[p].signal_type
                    &&& final(self).entries()[p].component == old(self).entries()[p].component
                    &&& forall|j: int|
                        0 <= j < old(self).entries().len() && j != p ==> final(self).entries()[j]
                            == old(self).entries()[j]
                },
                None => final(self).entries() == old(self).entries(),
            },
            updated_from(old(self).entries(), final(self).entries(), signal_id@),
            final(self).figures() == old(self).figures(),
    {
        match self.find(signal_id) {
            Some(i) => {
                let ghost o = self.signals@;
                let old_info = &self.signals[i];
                let info = SignalInfo {
                    id: old_info.id.clone(),
                    signal_type: old_info.signal_type.duplicate(),
                    component: old_info.component.clone(),
                    created_at: old_info.created_at,
                    update_count: old_info.update_count + 1,
                    last_updated: Some(instant_now()),
                };
                self.signals.set(i, info);
                proof {
                    assert forall|a: int, b: int| 0 <= a < b < self.signals@.len() implies (
                    #[trigger] self.signals@[a]).id@ != (#[trigger] self.signals@[b]).id@ by {
                        assert(o[a].id@ != o[b].id@);
                    }
                }
            },
            None => {},
        }
    }

    /// Number of signals of the kind `t`, and their identifiers in order.
    fn ids_of_type(&self, t: &SignalType) -> (r: (usize, Vec<String>))
        ensures
            r.0 == type_count(self.entries(), type_view(*t), self.entries().len() as int),
            r.1@.map_values(|x: String| x@) == type_ids(
                self.entries(),
                type_view(*t),
                self.entries().len() as int,
            ),
    {
        let ghost s = self.signals@;
        let ghost tv = type_view(*t);
        let mut n: usize = 0;
        let mut ids: Vec<String> = Vec::new();
        let mut i: usize = 0;
        while i < self.signals.len()
            invariant
                i <= s.len(),
                s == self.signals@,
                tv == type_view(*t),
                n == type_count(s, tv, i as int),
                ids@.map_values(|x: String| x@) == type_ids(s, tv, i as int),
            decreases self.signals.len() - i,
        {
            proof {
                lemma_counts_bounded(s, tv, i as int);
            }
            if same_type(&self.signals[i].signal_type, t) {
                let ghost before = ids@;
                ids.push(self.signals[i].id.clone());
                n = n + 1;
                assert(ids@.map_values(|x: String| x@) =~= before.map_values(|x: String| x@).push(
                    s[i as int].id@,
                ));
            }
            i += 1;
        }
        (n, ids)
    }

    /// Whether the signal at `i` is the first of its kind.
    fn is_first_of_type(&self, i: usize) -> (r: bool)
        requires
            i < self.entries().len(),
        ensures
            r == first_of_type(self.entries(), i as int),
    {
        let mut j: usize = 0;
        while j < i
            invariant
                j <= i < self.signals@.len(),
                forall|k: int| 0 <= k < j ==> type_view(#[trigger] self.signals@[k].signal_type)
                    != type_view(self.signals@[i as int].signal_type),
            decreases i - j,
        {
            if same_type(&self.signals[j].signal_type, &self.signals[i].signal_type) {
                return false;
            }
            j += 1;
        }
        true
    }

    /// The groups of signals that share a kind: for each kind with at least
    /// two signals, their identifiers in order; the groups in the order of
    /// each kind's first signal.
    pub fn detect_duplicate_signals(&self) -> (groups: Vec<Vec<String>>)
        ensures
            groups@.len() == duplicate_groups(self.entries()).len(),
            forall|g: int|
                0 <= g < groups@.len() ==> (#[trigger] groups@[g])@.map_values(|x: String| x@)
                    == duplicate_groups(self.entries())[g],
    {
        let ghost s = self.signals@;
        let mut groups: Vec<Vec<String>> = Vec::new();
        let mut i: usize = 0;
        while i < self.signals.len()
            invariant
                i <= s.len(),
                s == self.signals@,
                groups@.len() == groups_upto(s, i as int).len(),
                forall|g: int|
                    0 <= g < groups@.len() ==> (#[trigger] groups@[g])@.map_values(|x: String| x@)
                        == groups_upto(s, i as int)[g],
            decreases self.signals.len() - i,
        {
            if self.is_first_of_type(i) {
                let (n, ids) = self.ids_of_type(&self.signals[i].signal_type);
                if n >= 2 {
                    groups.push(ids);
                }
            }
            i += 1;
        }
        groups
    }

    /// Identifiers of the signals never updated, in order.
    pub fn detect_unused_signals(&self) -> (ids: Vec<String>)
        ensures
            ids@.map_values(|x: String| x@) == unused_ids(self.entries()),
    {
        let ghost s = self.signals@;
        let mut ids: Vec<String> = Vec::new();
        let mut i: usize = 0;
        while i < self.signals.len()
            invariant
                i <= s.len(),
                s == self.signals@,
                ids@.map_values(|x: String| x@) == unused_upto(s, i as int),
            decreases self.signals.len() - i,
        {
            if self.signals[i].update_count == 0 {
                let ghost before = ids@;
                ids.push(self.signals[i].id.clone());
                assert(ids@.map_values(|x: String| x@) =~= before.map_values(|x: String| x@).push(
                    s[i as int].id@,
                ));
            }
            i += 1;
        }
        ids
    }

    /// Number of signals that repeat the kind of an earlier one.
    fn count_repeats(&self) -> (n: usize)
        ensures
            n == repeated_signals(self.entries()),
    {
        let ghost s = self.signals@;
        let mut n: usize = 0;
        let mut i: usize = 0;
        while i < self.signals.len()
            invariant
                i <= s.len(),
                s == self.signals@,
                n == repeats_upto(s, i as int),
            decreases self.signals.len() - i,
        {
            proof {
                lemma_counts_bounded(s, (0nat, Seq::empty()), i as int);
            }
            if !self.is_first_of_type(i) {
                n = n + 1;
            }
            i += 1;
        }
        n
    }

    /// Recomputes the figures: number of signals, signals that repeat a
    /// kind (for each kind, its signals less one), signals never updated.
    pub fn update_stats(&mut self)
        requires
            old(self).wf(),
        ensures
            final(self).wf(),
            final(self).entries() == old(self).entries(),
            final(self).figures().total_signals == old(self).entries().len(),
            final(self).figures().duplicate_signals == repeated_signals(old(self).entries()),
            final(self).figures().unused_signals == unused_ids(old(self).entries()).len(),
            final(self).figures().memory_usage == old(self).figures().memory_usage,
    {
        let total = self.signals.len();
        let repeats = self.count_repeats();
        let unused = self.detect_unused_signals();
        let unused_count = unused.len();
        self.stats.total_signals = total;
        self.stats.duplicate_signals = repeats;
        self.stats.unused_signals = unused_count;
        self.stats.last_analyzed = instant_now();
    }

    /// The figures of the last analysis.
    pub fn get_stats(&self) -> (s: &GraphStats)
        ensures
            *s == self.figures(),
    {
        &self.stats
    }

    /// Whether the signal at `i` is the first of its component.
    fn is_first_of_component(&self, i: usize) -> (r: bool)
        requires
            i < self.entries().len(),
        ensures
            r == first_of_component(self.entries(), i as int),
    {
        let mut j: usize = 0;
        while j < i
            invariant
                j <= i < self.signals@.len(),
                forall|k: int| 0 <= k < j ==> (#[trigger] self.signals@[k]).component@
                    != self.signals@[i as int].component@,
            decreases i - j,
        {
            if str_eq(self.signals[j].component.as_str(), self.signals[i].component.as_str()) {
                return false;
            }
            j += 1;
        }
        true
    }

    /// Number of signals owned by the component `c`.
    fn count_component(&self, c: &str) -> (n: usize)
        ensures
            n == component_count(self.entries(), c@, self.entries().len() as int),
    {
        let ghost s = self.signals@;
        let mut n: usize = 0;
        let mut i: usize = 0;
        while i < self.signals.len()
            invariant
                i <= s.len(),
                s == self.signals@,
                n == component_count(s, c@, i as int),
                n <= i,
            decreases self.signals.len() - i,
        {
            if str_eq(self.signals[i].component.as_str(), c) {
                n = n + 1;
            }
            i += 1;
        }
        n
    }

    /// Appends the per-component lines of the report.
    fn push_component_lines(&self, out: &mut String)
        ensures
            final(out)@ == old(out)@ + component_lines(self.entries(), self.entries().len() as int),
    {
        let ghost s = self.signals@;
        let ghost start = out@;
        let mut i: usize = 0;
        while i < self.signals.len()
            invariant
                i <= s.len(),
                s == self.signals@,
                out@ == start + component_lines(s, i as int),
            decreases self.signals.len() - i,
        {
            if self.is_first_of_component(i) {
                let n = self.count_component(self.signals[i].component.as_str());
                push_str(out, "  ");
                push_str(out, self.signals[i].component.as_str());
                push_str(out, " -> ");
                push_decimal(out, n as u64);
                push_str(out, " signals\n");
            }
            assert(out@ =~= start + component_lines(s, i + 1));
            i += 1;
        }
    }

    /// Appends the report lines of the signals of kind `t`.
    fn push_member_lines(&self, out: &mut String, t: &SignalType)
        ensures
            final(out)@ == old(out)@ + member_lines(
                self.entries(),
                type_view(*t),
                self.entries().len() as int,
            ),
    {
        let ghost s = self.signals@;
        let ghost start = out@;
        let mut i: usize = 0;
        while i < self.signals.len()
            invariant
                i <= s.len(),
                s == self.signals@,
                out@ == start + member_lines(s, type_view(*t), i as int),
            decreases self.signals.len() - i,
        {
            if same_type(&self.signals[i].signal_type, t) {
                push_str(out, "    - ");
                push_str(out, self.signals[i].id.as_str());
                push_str(out, " (");
                push_str(out, self.signals[i].component.as_str());
                push_str(out, ")\n");
            }
            assert(out@ =~= start + member_lines(s, type_view(*t), i + 1));
            i += 1;
        }
    }

    /// The report lines of the group opened by the signal at `i`, the
    /// `groups`-th group, of `n` signals.
    fn group_piece_exec(&self, i: usize, groups: usize, n: usize) -> (r: String)
        requires
            i < self.entries().len(),
            groups == groups_upto(self.entries(), i as int).len(),
            n == type_count(self.entries(), type_view(self.entries()[i as int].signal_type), self.entries().len() as int),
        ensures
            r@ == group_piece(self.entries(), i as int),
    {
        let t = &self.signals[i].signal_type;
        let mut out = String::from_str("  Group ");
        push_decimal_wide(&mut out, groups as u128 + 1);
        push_str(&mut out, ": ");
        push_kind_text(&mut out, t);
        push_str(&mut out, " (");
        push_decimal(&mut out, n as u64);
        push_str(&mut out, " signals)\n");
        self.push_member_lines(&mut out, t);
        out
    }

    /// The recommendation to merge the group opened by the signal at `i`,
    /// the `groups`-th group, of `n` signals.
    fn merge_piece_exec(&self, i: usize, groups: usize, n: usize) -> (r: String)
        requires
            i < self.entries().len(),
            groups == groups_upto(self.entries(), i as int).len(),
            n == type_count(self.entries(), type_view(self.entries()[i as int].signal_type), self.entries().len() as int),
            n >= 2,
        ensures
            r@ == merge_piece(self.entries(), i as int),
    {
        let mut out = String::from_str("  ");
        push_decimal_wide(&mut out, groups as u128 + 1);
        push_str(&mut out, ". [Priority 1] Merge ");
        push_decimal(&mut out, n as u64);
        push_str(&mut out, " duplicate signals of same type\n");
        push_str(&mut out, "     Expected improvement: ");
        push_decimal_wide(&mut out, 20 * (n as u128 - 1));
        push_str(&mut out, ".0%\n");
        push_str(&mut out, "     Affected signals: ");
        push_decimal(&mut out, n as u64);
        push_str(&mut out, "\n");
        out
    }

    /// Appends the report lines of the groups of duplicates, or, with
    /// `merging`, the recommendations to merge them.
    fn push_group_lines(&self, out: &mut String, merging: bool)
        ensures
            final(out)@ == old(out)@ + if merging {
                merge_lines(self.entries(), self.entries().len() as int)
            } else {
                group_lines(self.entries(), self.entries().len() as int)
            },
    {
        let ghost s = self.signals@;
        let ghost start = out@;
        let mut groups: usize = 0;
        let mut i: usize = 0;
        while i < self.signals.len()
            invariant
                i <= s.len(),
                s == self.signals@,
                groups == groups_upto(s, i as int).len(),
                out@ == start + if merging {
                    merge_lines(s, i as int)
                } else {
                    group_lines(s, i as int)
                },
            decreases self.signals.len() - i,
        {
            proof {
                lemma_groups_bounded(s, i as int);
            }
            let ghost before = out@;
            if self.is_first_of_type(i) {
                let (n, _) = self.ids_of_type(&self.signals[i].signal_type);
                if n >= 2 {
                    let piece = if merging {
                        self.merge_piece_exec(i, groups, n)
                    } else {
                        self.group_piece_exec(i, groups, n)
                    };
                    push_str(out, piece.as_str());
                    groups = groups + 1;
                }
            }
            assert(out@ =~= start + if merging {
                merge_lines(s, i + 1)
            } else {
                group_lines(s, i + 1)
            });
            i += 1;
        }
    }

    /// The head of the report, from the figures just computed.
    fn report_head_exec(&self) -> (r: String)
        requires
            self.figures().total_signals == self.entries().len(),
            self.figures().duplicate_signals == repeated_signals(self.entries()),
            self.figures().unused_signals == unused_ids(self.entries()).len(),
        ensures
            r@ == report_head(self.entries(), self.figures().memory_usage as nat),
    {
        let mut out = String::from_str("=== Signal Optimization Analysis Report ===\n\n");
        push_str(&mut out, "\u{1f4ca} Total Signals: ");
        push_decimal(&mut out, self.stats.total_signals as u64);
        push_str(&mut out, "\n");
        push_str(&mut out, "\u{1f504} Duplicate Signals: ");
        push_decimal(&mut out, self.stats.duplicate_signals as u64);
        push_str(&mut out, "\n");
        push_str(&mut out, "\u{1f5d1}\u{fe0f} Unused Signals: ");
        push_decimal(&mut out, self.stats.unused_signals as u64);
        push_str(&mut out, "\n");
        push_str(&mut out, "\u{1f4be} Memory Usage: ");
        push_decimal(&mut out, self.stats.memory_usage as u64);
        push_str(&mut out, " bytes\n\n");
        out
    }

    /// The report's recommendations.
    fn recommendations_exec(&self) -> (r: String)
        ensures
            r@ == recommendations_section(self.entries()),
    {
        let groups = self.detect_duplicate_signals();
        let unused = self.detect_unused_signals();
        let g = groups.len();
        let u = unused.len();
        assert(unused@.map_values(|x: String| x@).len() == unused@.len());
        if g > 0 || u > 0 {
            let mut out = String::from_str("\u{1f4a1} Optimization Recommendations:\n");
            self.push_group_lines(&mut out, true);
            if u > 0 {
                push_str(&mut out, "  ");
                push_decimal_wide(&mut out, g as u128 + 1);
                push_str(&mut out, ". [Priority 2] Remove ");
                push_decimal(&mut out, u as u64);
                push_str(&mut out, " unused signals\n");
                push_str(&mut out, "     Expected improvement: ");
                push_decimal_wide(&mut out, 10 * (u as u128));
                push_str(&mut out, ".0%\n");
                push_str(&mut out, "     Affected signals: ");
                push_decimal(&mut out, u as u64);
                push_str(&mut out, "\n");
            }
            out
        } else {
            String::from_str("\u{2705} No optimization recommendations at this time.\n")
        }
    }

    /// Recomputes the figures, then writes the analysis report: the
    /// figures, the signals per component, the groups of duplicates and the
    /// recommendations.
    pub fn generate_analysis_report(&mut self) -> (report: String)
        requires
            old(self).wf(),
        ensures
            final(self).wf(),
            final(self).entries() == old(self).entries(),
            final(self).figures().total_signals == old(self).entries().len(),
            final(self).figures().duplicate_signals == repeated_signals(old(self).entries()),
            final(self).figures().unused_signals == unused_ids(old(self).entries()).len(),
            final(self).figures().memory_usage == old(self).figures().memory_usage,
            report@ == analysis_report(old(self).entries(), old(self).figures().memory_usage as nat),
    {
        self.update_stats();
        let mut out = self.report_head_exec();
        push_str(&mut out, "\u{1f4e6} Signals by Component:\n");
        self.push_component_lines(&mut out);
        push_str(&mut out, "\n");
        let groups = self.detect_duplicate_signals();
        if groups.len() > 0 {
            push_str(&mut out, "\u{1f50d} Duplicate Signal Groups:\n");
            self.push_group_lines(&mut out, false);
            push_str(&mut out, "\n");
        }
        let rec = self.recommendations_exec();
        push_str(&mut out, rec.as_str());
        out
    }

    /// The optimisation recommendations, most urgent first: merging each
    /// group of duplicates, then removing the signals never updated.
    pub fn generate_optimization_recommendations(&mut self) -> (r: Vec<OptimizationRecommendation>)
        ensures
            r@.map_values(|x: OptimizationRecommendation| recommendation_view(x)) == recommendations_for(
                old(self).entries(),
            ),
            final(self).entries() == old(self).entries(),
            final(self).figures() == old(self).figures(),
            final(self).wf() == old(self).wf(),
    {
        let groups = self.detect_duplicate_signals();
        let ghost dg = duplicate_groups(self.entries());
        let mut r: Vec<OptimizationRecommendation> = Vec::new();
        let mut i: usize = 0;
        while i < groups.len()
            invariant
                i <= groups@.len(),
                groups@.len() == dg.len(),
                forall|g: int| 0 <= g < groups@.len() ==> (#[trigger] groups@[g])@.map_values(|x: String| x@) == dg[g],
                r@.map_values(|x: OptimizationRecommendation| recommendation_view(x)) == dg.take(i as int).map_values(
                    |g: Seq<Seq<char>>| merge_recommendation(g),
                ),
            decreases groups.len() - i,
        {
            let ids = crate::models::copy_strings(&groups[i]);
            let n = ids.len();
            let saved: u128 = if n > 0 { 20 * (n as u128 - 1) } else { 0 };
            let mut description = String::from_str("Merge ");
            push_decimal(&mut description, n as u64);
            push_str(&mut description, " duplicate signals of same type");
            let rec = OptimizationRecommendation {
                recommendation_type: OptimizationType::MergeDuplicate,
                signal_ids: ids,
                expected_improvement_percent: saved,
                description,
                priority: 1,
            };
            proof {
                assert(groups@[i as int]@.map_values(|x: String| x@).len() == n);
                assert(recommendation_view(rec) == merge_recommendation(dg[i as int]));
            }
            let ghost before = r@;
            r.push(rec);
            assert(r@.map_values(|x: OptimizationRecommendation| recommendation_view(x)) =~= dg.take(i as int + 1).map_values(
                |g: Seq<Seq<char>>| merge_recommendation(g),
            )) by {
                assert(r@ == before.push(rec));
                assert(r@.map_values(|x: OptimizationRecommendation| recommendation_view(x)) =~= before.map_values(
                    |x: OptimizationRecommendation| recommendation_view(x),
                ).push(recommendation_view(rec)));
                assert(dg.take(i as int + 1) =~= dg.take(i as int).push(dg[i as int]));
                assert(dg.take(i as int + 1).map_values(|g: Seq<Seq<char>>| merge_recommendation(g)) =~= dg.take(
                    i as int,
                ).map_values(|g: Seq<Seq<char>>| merge_recommendation(g)).push(merge_recommendation(dg[i as int])));
            }
            i += 1;
        }
        assert(dg.take(groups@.len() as int) =~= dg);
        let unused = self.detect_unused_signals();
        let u = unused.len();
        assert(unused@.map_values(|x: String| x@).len() == unused@.len());
        if u > 0 {
            let mut description = String::from_str("Remove ");
            push_decimal(&mut description, u as u64);
            push_str(&mut description, " unused signals");
            let rec = OptimizationRecommendation {
                recommendation_type: OptimizationType::RemoveUnused,
                signal_ids: unused,
                expected_improvement_percent: 10 * (u as u128),
                description,
                priority: 2,
            };
            let ghost before = r@;
            r.push(rec);
            assert(r@.map_values(|x: OptimizationRecommendation| recommendation_view(x)) =~= recommendations_for(self.entries())) by {
                assert(r@ == before.push(rec));
                assert(r@.map_values(|x: OptimizationRecommendation| recommendation_view(x)) =~= before.map_values(
                    |x: OptimizationRecommendation| recommendation_view(x),
                ).push(recommendation_view(rec)));
            }
        } else {
            assert(r@.map_values(|x: OptimizationRecommendation| recommendation_view(x)) =~= recommendations_for(self.entries()));
        }
        r
    }

    /// The registered signals, in the order they were first registered.
    pub fn list_signals(&self) -> (r: Vec<&SignalInfo>)
        ensures
            r@.len() == self.entries().len(),
            forall|i: int| 0 <= i < r@.len() ==> *(#[trigger] r@[i]) == self.entries()[i],
    {
        let mut r: Vec<&SignalInfo> = Vec::new();
        let mut i: usize = 0;
        while i < self.signals.len()
            invariant
                i <= self.signals@.len(),
                r@.len() == i,
                forall|k: int| 0 <= k < i ==> *(#[trigger] r@[k]) == self.signals@[k],
            decreases self.signals.len() - i,
        {
            r.push(&self.signals[i]);
            i += 1;
        }
        r
    }
}

impl Default for SignalDependencyGraph {
    fn default() -> (g: Self)
        ensures
            g.wf(),
            g.entries().len() == 0,
    {
        Self::new()
    }
}

/// Kind of a batched signal update.
#[derive(Debug, Clone, Copy, PartialEq, Eq, Structural)]
pub enum BatchUpdateType {
    Normal,
    /// Runs before everything else (responsiveness of the interface).
    HighPriority,
    /// Background work.
    LowPriority,
    /// An update that touches the page; runs right after the high-priority ones.
    DomUpdate,
}

/// A queued signal update.
#[derive(Debug, Clone)]
pub struct BatchUpdateItem {
    pub signal_id: String,
    pub timestamp: Instant,
    pub update_type: BatchUpdateType,
}

/// Counts of the batch queue.
#[derive(Debug, Clone)]
pub struct BatchStats {
    /// Updates queued in all.
    pub total_batched: u64,
    pub high_priority_count: u64,
    pub dom_update_count: u64,
    /// Start of the last batch processed.
    pub last_batch_time: Option<Instant>,
}

/// The high-priority updates of `q` come before all others.
pub open spec fn high_priority_first(q: Seq<BatchUpdateItem>) -> bool {
    forall|i: int, j: int|
        0 <= i < j < q.len() && (#[trigger] q[j]).update_type == BatchUpdateType::HighPriority
            ==> (#[trigger] q[i]).update_type == BatchUpdateType::HighPriority
}

/// The position of the first update of `q` that is not high-priority (the
/// length of `q` when there is none).
pub open spec fn after_high_priority(q: Seq<BatchUpdateItem>) -> int
    decreases q.len(),
{
    if q.len() == 0 {
        0
    } else if q[0].update_type != BatchUpdateType::HighPriority {
        0
    } else {
        1 + after_high_priority(q.drop_first())
    }
}

proof fn lemma_after_high_priority(q: Seq<BatchUpdateItem>)
    ensures
        0 <= after_high_priority(q) <= q.len(),
        forall|i: int| 0 <= i < after_high_priority(q) ==> (#[trigger] q[i]).update_type
            == BatchUpdateType::HighPriority,
        after_high_priority(q) < q.len() ==> q[after_high_priority(q)].update_type
            != BatchUpdateType::HighPriority,
    decreases q.len(),
{
    if q.len() > 0 && q[0].update_type == BatchUpdateType::HighPriority {
        lemma_after_high_priority(q.drop_first());
        assert forall|i: int| 0 <= i < after_high_priority(q) implies (#[trigger] q[i]).update_type
            == BatchUpdateType::HighPriority by {
            if i > 0 {
                assert(q[i] == q.drop_first()[i - 1]);
            }
        }
    }
}

/// The queue of batched signal updates.
pub struct BatchUpdateManager {
    queue: VecDeque<BatchUpdateItem>,
    processing: bool,
    stats: BatchStats,
}

impl BatchUpdateManager {
    /// The queued updates, first to run first.
    pub closed spec fn pending(&self) -> Seq<BatchUpdateItem> {
        self.queue@
    }

    /// The queue's counts.
    pub closed spec fn counts(&self) -> BatchStats {
        self.stats
    }

    /// An empty queue.
    pub fn new() -> (m: Self)
        ensures
            m.pending().len() == 0,
            m.counts().total_batched == 0,
            m.counts().high_priority_count == 0,
            m.counts().dom_update_count == 0,
            m.counts().last_batch_time is None,
    {
        BatchUpdateManager {
            queue: VecDeque::new(),
            processing: false,
            stats: BatchStats {
                total_batched: 0,
                high_priority_count: 0,
                dom_update_count: 0,
                last_batch_time: None,
            },
        }
    }

    /// Queues an update by its kind: a high-priority one at the front, a
    /// page update after the high-priority ones, any other at the back.
    pub fn queue_update(&mut self, signal_id: String, update_type: BatchUpdateType)
        requires
            old(self).counts().total_batched < u64::MAX,
            old(self).counts().high_priority_count < u64::MAX,
            old(self).counts().dom_update_count < u64::MAX,
        ensures
            ({
                let q = old(self).pending();
                let k = match update_type {
                    BatchUpdateType::HighPriority => 0,
                    BatchUpdateType::DomUpdate => after_high_priority(q),
                    _ => q.len() as int,
                };
                let n = final(self).pending();
                &&& 0 <= k <= q.len()
                &&& n.len() == q.len() + 1
                &&& n[k].signal_id == signal_id
                &&& n[k].update_type == update_type
                &&& n.take(k) == q.take(k)
                &&& n.skip(k + 1) == q.skip(k)
            }),
            high_priority_first(old(self).pending()) ==> high_priority_first(final(self).pending()),
            final(self).counts().total_batched == old(self).counts().total_batched + 1,
            final(self).counts().high_priority_count == old(self).counts().high_priority_count + (
            if update_type == BatchUpdateType::HighPriority {
                1int
            } else {
                0int
            }),
            final(self).counts().dom_update_count == old(self).counts().dom_update_count + (
            if update_type == BatchUpdateType::DomUpdate {
                1int
            } else {
                0int
            }),
            final(self).counts().last_batch_time == old(self).counts().last_batch_time,
    {
        let ghost q = self.queue@;
        let item = BatchUpdateItem { signal_id, timestamp: instant_now(), update_type };
        proof {
            lemma_after_high_priority(q);
        }
        match update_type {
            BatchUpdateType::HighPriority => {
                self.queue.push_front(item);
                self.stats.high_priority_count = self.stats.high_priority_count + 1;
                assert(self.queue@.take(0) =~= q.take(0));
                assert(self.queue@.skip(1) =~= q.skip(0));
            },
            BatchUpdateType::DomUpdate => {
                let mut pos: usize = 0;
                while pos < self.queue.len() && self.queue[pos].update_type
                    == BatchUpdateType::HighPriority
                    invariant
                        self.queue@ == q,
                        0 <= pos <= q.len(),
                        forall|i: int| 0 <= i < pos ==> (#[trigger] q[i]).update_type
                            == BatchUpdateType::HighPriority,
                        pos <= after_high_priority(q),
                        0 <= after_high_priority(q) <= q.len(),
                        forall|i: int| 0 <= i < after_high_priority(q) ==> (#[trigger] q[i]).update_type
                            == BatchUpdateType::HighPriority,
                        after_high_priority(q) < q.len() ==> q[after_high_priority(q)].update_type
                            != BatchUpdateType::HighPriority,
                    decreases q.len() - pos,
                {
                    pos += 1;
                }
                self.queue.insert(pos, item);
                self.stats.dom_update_count = self.stats.dom_update_count + 1;
                assert(self.queue@.take(pos as int) =~= q.take(pos as int));
                assert(self.queue@.skip(pos + 1) =~= q.skip(pos as int));
            },
            _ => {
                self.queue.push_back(item);
                assert(self.queue@.take(q.len() as int) =~= q.take(q.len() as int));
                assert(self.queue@.skip(q.len() as int + 1) =~= q.skip(q.len() as int));
            },
        }
        self.stats.total_batched = self.stats.total_batched + 1;
        proof {
            let n = self.queue@;
            if high_priority_first(q) {
                assert forall|i: int, j: int|
                    0 <= i < j < n.len() && (#[trigger] n[j]).update_type
                        == BatchUpdateType::HighPriority implies (#[trigger] n[i]).update_type
                    == BatchUpdateType::HighPriority by {
                    let k = match update_type {
                        BatchUpdateType::HighPriority => 0,
                        BatchUpdateType::DomUpdate => after_high_priority(q),
                        _ => q.len() as int,
                    };
                    if j < k {
                        assert(n[j] == n.take(k)[j]);
                        assert(n[i] == n.take(k)[i]);
                        assert(q[j] == q.take(k)[j]);
                        assert(q[i] == q.take(k)[i]);
                    } else if j == k {
                        if i < k {
                            assert(n[i] == n.take(k)[i]);
                            assert(q[i] == q.take(k)[i]);
                        }
                    } else {
                        assert(n[j] == n.skip(k + 1)[j - k - 1]);
                        assert(q[j - 1] == q.skip(k)[j - k - 1]);
                        if i < k {
                            assert(n[i] == n.take(k)[i]);
                            assert(q[i] == q.take(k)[i]);
                        } else if i > k {
                            assert(n[i] == n.skip(k + 1)[i - k - 1]);
                            assert(q[i - 1] == q.skip(k)[i - k - 1]);
                        } else {
                            if update_type == BatchUpdateType::DomUpdate {
                                assert(q[j - 1].update_type == BatchUpdateType::HighPriority);
                                assert(q[after_high_priority(q)].update_type
                                    == BatchUpdateType::HighPriority);
                            }
                        }
                    }
                }
            }
        }
    }

    /// Takes the updates for one frame: up to five from the front.
    pub fn collect_frame_items(&mut self) -> (items: Vec<BatchUpdateItem>)
        ensures
            items@.len() == (if old(self).pending().len() < 5 {
                old(self).pending().len()
            } else {
                5
            }),
            items@ == old(self).pending().take(items@.len() as int),
            final(self).pending() == old(self).pending().skip(items@.len() as int),
            final(self).counts() == old(self).counts(),
    {
        let ghost q = self.queue@;
        let count: usize = if self.queue.len() < 5 { self.queue.len() } else { 5 };
        let mut items: Vec<BatchUpdateItem> = Vec::new();
        let mut i: usize = 0;
        while i < count
            invariant
                count <= q.len(),
                i <= count,
                items@ == q.take(i as int),
                self.queue@ == q.skip(i as int),
                self.stats == old(self).stats,
            decreases count - i,
        {
            match self.queue.pop_front() {
                Some(item) => {
                    items.push(item);
                },
                None => {},
            }
            assert(items@ =~= q.take(i + 1));
            assert(self.queue@ =~= q.skip(i + 1));
            i += 1;
        }
        items
    }

    /// Notes that a batch was processed starting at `at`.
    pub fn record_batch_start(&mut self, at: Instant)
        ensures
            final(self).pending() == old(self).pending(),
            final(self).counts().total_batched == old(self).counts().total_batched,
            final(self).counts().high_priority_count == old(self).counts().high_priority_count,
            final(self).counts().dom_update_count == old(self).counts().dom_update_count,
            final(self).counts().last_batch_time == Some(at),
    {
        self.stats.last_batch_time = Some(at);
    }

    /// Number of queued updates.
    pub fn queue_size(&self) -> (n: usize)
        ensures
            n == self.pending().len(),
    {
        self.queue.len()
    }

    /// The queue's counts.
    pub fn get_stats(&self) -> (s: &BatchStats)
        ensures
            *s == self.counts(),
    {
        &self.stats
    }
}

impl Default for BatchUpdateManager {
    fn default() -> (m: Self)
        ensures
            m.pending().len() == 0,
    {
        Self::new()
    }
}

/// The identifiers of the signals of `s`.
pub open spec fn signal_ids(s: Seq<SignalInfo>) -> Set<Seq<char>> {
    Set::new(|x: Seq<char>| exists|j: int| 0 <= j < s.len() && (#[trigger] s[j]).id@ == x)
}

/// The identifiers of the signals of `s` never updated.
pub open spec fn never_updated(s: Seq<SignalInfo>) -> Set<Seq<char>> {
    Set::new(|x: Seq<char>| exists|j: int| 0 <= j < s.len() && (#[trigger] s[j]).id@ == x && s[j].update_count == 0)
}

/// `e` is what `register_signal` of `id` leaves of `o`: the signal's entry
/// (found or added) restarts with no update, the others stay.
pub open spec fn registered_from(o: Seq<SignalInfo>, e: Seq<SignalInfo>, id: Seq<char>) -> bool {
    let k = match position_of(o, id) {
        Some(p) => p,
        None => o.len() as int,
    };
    &&& e.len() == (if position_of(o, id) is Some { o.len() } else { o.len() + 1 })
    &&& e[k].id@ == id
    &&& e[k].update_count == 0
    &&& forall|j: int| 0 <= j < o.len() && j != k ==> e[j] == o[j]
}

/// `e` is what `record_update` of `id` leaves of `o`: the signal's count
/// goes up by one; nothing changes for an unknown identifier.
pub open spec fn updated_from(o: Seq<SignalInfo>, e: Seq<SignalInfo>, id: Seq<char>) -> bool {
    match position_of(o, id) {
        Some(p) => {
            &&& e.len() == o.len()
            &&& e[p].update_count == o[p].update_count + 1
            &&& e[p].id == o[p].id
            &&& forall|j: int| 0 <= j < o.len() && j != p ==> e[j] == o[j]
        },
        None => e == o,
    }
}

/// What happens to the signal registry.
pub enum SignalEvent {
    Register(Seq<char>),
    Update(Seq<char>),
}

/// The identifiers registered by `evs`.
pub open spec fn registered_ids(evs: Seq<SignalEvent>) -> Set<Seq<char>>
    decreases evs.len(),
{
    if evs.len() == 0 {
        Set::empty()
    } else {
        match evs.last() {
            SignalEvent::Register(id) => registered_ids(evs.drop_last()).insert(id),
            SignalEvent::Update(_) => registered_ids(evs.drop_last()),
        }
    }
}

/// The identifiers registered by `evs` and not updated since their last
/// registration.
pub open spec fn unused_after(evs: Seq<SignalEvent>) -> Set<Seq<char>>
    decreases evs.len(),
{
    if evs.len() == 0 {
        Set::empty()
    } else {
        match evs.last() {
            SignalEvent::Register(id) => unused_after(evs.drop_last()).insert(id),
            SignalEvent::Update(id) => unused_after(evs.drop_last()).remove(id),
        }
    }
}

/// `states` are the entries of a registry through the events `evs`, from
/// empty: each next state is what the event leaves of the one before.
pub open spec fn signal_history(states: Seq<Seq<SignalInfo>>, evs: Seq<SignalEvent>) -> bool {
    &&& states.len() == evs.len() + 1
    &&& states[0].len() == 0
    &&& forall|i: int| 0 <= i < states.len() ==> distinct_ids(#[trigger] states[i])
    &&& forall|i: int| 0 <= i < evs.len() ==> match #[trigger] evs[i] {
        SignalEvent::Register(id) => registered_from(states[i], states[i + 1], id),
        SignalEvent::Update(id) => updated_from(states[i], states[i + 1], id),
    }
}

proof fn lemma_position_found(s: Seq<SignalInfo>, id: Seq<char>)
    requires
        distinct_ids(s),
    ensures
        position_of(s, id) matches Some(p) ==> 0 <= p < s.len() && s[p].id@ == id,
        position_of(s, id) is None ==> !signal_ids(s).contains(id),
{
}

proof fn lemma_signal_step(o: Seq<SignalInfo>, e: Seq<SignalInfo>, ev: SignalEvent)
    requires
        distinct_ids(o),
        distinct_ids(e),
        match ev {
            SignalEvent::Register(id) => registered_from(o, e, id),
            SignalEvent::Update(id) => updated_from(o, e, id),
        },
    ensures
        signal_ids(e) == match ev {
            SignalEvent::Register(id) => signal_ids(o).insert(id),
            SignalEvent::Update(_) => signal_ids(o),
        },
        never_updated(e) == match ev {
            SignalEvent::Register(id) => never_updated(o).insert(id),
            SignalEvent::Update(id) => never_updated(o).remove(id),
        },
{
    match ev {
        SignalEvent::Register(id) => {
            lemma_position_found(o, id);
            let k = match position_of(o, id) {
                Some(p) => p,
                None => o.len() as int,
            };
            assert forall|x: Seq<char>| signal_ids(e).contains(x) <==> signal_ids(o).insert(id).contains(x) by {
                if signal_ids(e).contains(x) {
                    let j = choose|j: int| 0 <= j < e.len() && (#[trigger] e[j]).id@ == x;
                    if j != k {
                        assert(e[j] == o[j]);
                    }
                }
                if signal_ids(o).contains(x) {
                    let j = choose|j: int| 0 <= j < o.len() && (#[trigger] o[j]).id@ == x;
                    if j != k {
                        assert(e[j] == o[j]);
                    } else {
                        assert(e[k].id@ == x);
                    }
                }
                if x == id {
                    assert(e[k].id@ == x);
                }
            }
            assert forall|x: Seq<char>| never_updated(e).contains(x) <==> never_updated(o).insert(id).contains(x) by {
                if never_updated(e).contains(x) && x != id {
                    let j = choose|j: int| 0 <= j < e.len() && (#[trigger] e[j]).id@ == x && e[j].update_count == 0;
                    assert(j != k);
                    assert(e[j] == o[j]);
                }
                if never_updated(o).contains(x) && x != id {
                    let j = choose|j: int| 0 <= j < o.len() && (#[trigger] o[j]).id@ == x && o[j].update_count == 0;
                    assert(j != k);
                    assert(e[j] == o[j]);
                }
                if x == id {
                    assert(e[k].id@ == x);
                }
            }
            assert(signal_ids(e) =~= signal_ids(o).insert(id));
            assert(never_updated(e) =~= never_updated(o).insert(id));
        },
        SignalEvent::Update(id) => {
            lemma_position_found(o, id);
            match position_of(o, id) {
                Some(p) => {
                    assert forall|x: Seq<char>| signal_ids(e).contains(x) <==> signal_ids(o).contains(x) by {
                        if signal_ids(e).contains(x) {
                            let j = choose|j: int| 0 <= j < e.len() && (#[trigger] e[j]).id@ == x;
                            if j != p {
                                assert(e[j] == o[j]);
                            }
                        }
                        if signal_ids(o).contains(x) {
                            let j = choose|j: int| 0 <= j < o.len() && (#[trigger] o[j]).id@ == x;
                            if j != p {
                                assert(e[j] == o[j]);
                            } else {
                                assert(e[p].id@ == x);
                            }
                        }
                    }
                    assert forall|x: Seq<char>| never_updated(e).contains(x) <==> never_updated(o).remove(id).contains(x) by {
                        if never_updated(e).contains(x) {
                            let j = choose|j: int| 0 <= j < e.len() && (#[trigger] e[j]).id@ == x && e[j].update_count == 0;
                            assert(j != p);
                            assert(e[j] == o[j]);
                            assert(x != id);
                        }
                        if never_updated(o).contains(x) && x != id {
                            let j = choose|j: int| 0 <= j < o.len() && (#[trigger] o[j]).id@ == x && o[j].update_count == 0;
                            assert(j != p);
                            assert(e[j] == o[j]);
                        }
                    }
                    assert(signal_ids(e) =~= signal_ids(o));
                    assert(never_updated(e) =~= never_updated(o).remove(id));
                },
                None => {
                    assert(!never_updated(o).contains(id));
                    assert(never_updated(o).remove(id) =~= never_updated(o));
                },
            }
        },
    }
}

/// Over any history of registrations and updates from an empty registry
/// (`register_signal` and `record_update` each take the step
/// `registered_from` or `updated_from`, as their contracts state, and
/// keep the identifiers distinct, `lemma_ids_distinct`),
/// the signals known are exactly those registered, and the unused ones
/// (those `detect_unused_signals` lists, each once) are exactly those not
/// updated since their last registration; an update of an unknown signal
/// changes nothing.
pub proof fn lemma_unused_after_history(states: Seq<Seq<SignalInfo>>, evs: Seq<SignalEvent>)
    requires
        signal_history(states, evs),
    ensures
        signal_ids(states.last()) == registered_ids(evs),
        never_updated(states.last()) == unused_after(evs).intersect(registered_ids(evs)),
        forall|x: Seq<char>| unused_ids(states.last()).contains(x) <==> never_updated(states.last()).contains(x),
    decreases evs.len(),
{
    let last = states.last();
    if evs.len() == 0 {
        assert(signal_ids(last) =~= Set::<Seq<char>>::empty());
        assert(never_updated(last) =~= Set::<Seq<char>>::empty());
        assert(unused_after(evs).intersect(registered_ids(evs)) =~= Set::<Seq<char>>::empty());
    } else {
        let n = evs.len() as int;
        let ps = states.drop_last();
        let pe = evs.drop_last();
        assert(signal_history(ps, pe)) by {
            assert forall|i: int| 0 <= i < ps.len() implies distinct_ids(#[trigger] ps[i]) by {
                assert(ps[i] == states[i]);
            }
            assert forall|i: int| 0 <= i < pe.len() implies match #[trigger] pe[i] {
                SignalEvent::Register(id) => registered_from(ps[i], ps[i + 1], id),
                SignalEvent::Update(id) => updated_from(ps[i], ps[i + 1], id),
            } by {
                assert(pe[i] == evs[i]);
                assert(ps[i] == states[i] && ps[i + 1] == states[i + 1]);
            }
        }
        lemma_unused_after_history(ps, pe);
        let o = states[n - 1];
        assert(ps.last() == o);
        assert(states[n] == last);
        assert(evs[n - 1] == evs.last());
        assert(distinct_ids(states[n - 1]) && distinct_ids(states[n]));
        lemma_signal_step(o, last, evs.last());
        match evs.last() {
            SignalEvent::Register(id) => {
                assert(never_updated(last) =~= unused_after(evs).intersect(registered_ids(evs)));
            },
            SignalEvent::Update(id) => {
                assert(never_updated(last) =~= unused_after(evs).intersect(registered_ids(evs)));
            },
        }
    }
    lemma_unused_ids_members(last, last.len() as int);
}

proof fn lemma_unused_ids_members(s: Seq<SignalInfo>, k: int)
    requires
        0 <= k <= s.len(),
    ensures
        forall|x: Seq<char>| unused_upto(s, k).contains(x) <==> exists|j: int|
            0 <= j < k && (#[trigger] s[j]).id@ == x && s[j].update_count == 0,
    decreases k,
{
    if k > 0 {
        lemma_unused_ids_members(s, k - 1);
        let rest = unused_upto(s, k - 1);
        assert forall|x: Seq<char>| unused_upto(s, k).contains(x) <==> exists|j: int|
            0 <= j < k && (#[trigger] s[j]).id@ == x && s[j].update_count == 0 by {
            if s[k - 1].update_count == 0 {
                assert(unused_upto(s, k) == rest.push(s[k - 1].id@));
                if unused_upto(s, k).contains(x) {
                    let i = choose|i: int| 0 <= i < unused_upto(s, k).len() && unused_upto(s, k)[i] == x;
                    if i < rest.len() {
                        assert(rest[i] == x);
                    }
                }
                if rest.contains(x) {
                    let i = choose|i: int| 0 <= i < rest.len() && rest[i] == x;
                    assert(unused_upto(s, k)[i] == x);
                }
                if x == s[k - 1].id@ {
                    assert(unused_upto(s, k)[rest.len() as int] == x);
                }
            }
        }
    }
}

/// The kinds of the first `k` signals of `s`.
pub open spec fn kinds_upto(s: Seq<SignalInfo>, k: int) -> Set<(nat, Seq<char>)> {
    Set::new(|tv: (nat, Seq<char>)| exists|j: int| 0 <= j < k && type_view((#[trigger] s[j]).signal_type) == tv)
}

/// The number of signals that repeat the kind of an earlier one is the
/// number of signals less the number of distinct kinds: the figure
/// `duplicate_signals` of an analysis is N minus the number of kinds.
pub proof fn lemma_repeats_are_signals_less_kinds(s: Seq<SignalInfo>, k: int)
    requires
        0 <= k <= s.len(),
    ensures
        kinds_upto(s, k).finite(),
        repeats_upto(s, k) + kinds_upto(s, k).len() == k,
        k == s.len() ==> repeated_signals(s) == s.len() - kinds_upto(s, k).len(),
    decreases k,
{
    if k == 0 {
        assert(kinds_upto(s, 0) =~= Set::<(nat, Seq<char>)>::empty());
    } else {
        lemma_repeats_are_signals_less_kinds(s, k - 1);
        let prev = kinds_upto(s, k - 1);
        let tv = type_view(s[k - 1].signal_type);
        assert(kinds_upto(s, k) =~= prev.insert(tv));
        if first_of_type(s, k - 1) {
            assert(!prev.contains(tv)) by {
                if prev.contains(tv) {
                    let j = choose|j: int| 0 <= j < k - 1 && type_view((#[trigger] s[j]).signal_type) == tv;
                    assert(type_view(s[j].signal_type) != type_view(s[k - 1].signal_type));
                }
            }
        } else {
            let j = choose|j: int| 0 <= j < k - 1 && type_view((#[trigger] s[j]).signal_type) == type_view(
                s[k - 1].signal_type,
            );
            assert(prev.contains(tv));
            assert(prev.insert(tv) =~= prev);
        }
    }
}

/// What a batch run does next.
#[derive(Debug, Clone, Copy, PartialEq, Eq, Structural)]
pub enum BatchStep {
    /// The queue is empty: the run is over.
    Done,
    /// The run took longer than its time budget: what is left is dropped.
    TimedOut,
    /// Process the next frame of updates.
    RunFrame,
}

/// The time budget of a batch run, in nanoseconds (100 ms).
pub const BATCH_TIME_BUDGET_NANOS: u128 = 100_000_000;

/// The next step of a batch run with `queue_size` updates left,
/// `elapsed_nanos` nanoseconds after the run began: done when nothing is
/// left, timed out past the budget, otherwise another frame.
pub fn next_batch_step(queue_size: usize, elapsed_nanos: u128) -> (s: BatchStep)
    ensures
        queue_size == 0 ==> s == BatchStep::Done,
        queue_size > 0 && elapsed_nanos > BATCH_TIME_BUDGET_NANOS ==> s == BatchStep::TimedOut,
        queue_size > 0 && elapsed_nanos <= BATCH_TIME_BUDGET_NANOS ==> s == BatchStep::RunFrame,
{
    if queue_size == 0 {
        BatchStep::Done
    } else if elapsed_nanos > BATCH_TIME_BUDGET_NANOS {
        BatchStep::TimedOut
    } else {
        BatchStep::RunFrame
    }
}

/// Whether the run waits a frame (16 ms) after a frame: while fewer than
/// the `batch_size` updates it began with were processed.
pub fn wait_before_next_frame(processed: usize, batch_size: usize) -> (w: bool)
    ensures
        w == (processed < batch_size),
{
    processed < batch_size
}

} // verus!
