//! The conversation history of a session and its token accounting.

use vstd::prelude::*;

use crate::text::{
    begins_with, ends_in, has_text, lower, occurs_at, split_words, starts_with, to_lower, trim,
    trimmed, words,
};

verus! {

/// The version of the history files.
pub const HISTORY_VERSION: u32 = 3;

/// The context size assumed for a model that is not known to have another.
pub const DEFAULT_TOKEN_LIMIT: u64 = 131_072;

/// The context size of the models whose names begin with [`GPT5_PREFIX`].
pub const GPT5_TOKEN_LIMIT: u64 = 1_000_000;

/// The beginning of the names of the models with the larger context.
pub const GPT5_PREFIX: &'static str = "gpt-5";

/// The line that opens the summary of a compacted history.
pub const HISTORY_SUMMARY_PREFIX: &'static str = "[history summary]";

/// What the model is asked for when a history is compacted before a turn.
pub const COMPACTION_PROMPT_BEFORE_TURN: &'static str =
    "对话已接近 token 上限。简要总结之前对后续工作有用的历史记录。重点关注持久上下文、关键决策、重要文件、约束条件和未解决的问题。";

/// What the model is asked for when a history is compacted within a turn.
pub const COMPACTION_PROMPT_MID_TURN: &'static str =
    "对话已接近 token 上限且当前任务尚未完成。简要总结之前对继续工作有用的历史记录。包括当前任务、已完成的工作、重要文件和约束条件、最近的工具结果以及最有用的下一步。";

/// A session's history as it is kept on disk.
#[derive(Debug)]
pub struct HistoryFile {
    pub version: u32,
    pub session_id: String,
    pub workspace_root: String,
    pub last_active_at_ms: u128,
    pub total_input_tokens: u64,
    pub total_output_tokens: u64,
    pub total_tokens: u64,
    pub entries: Vec<HistoryEntry>,
}

/// One entry of a history.
#[derive(Debug)]
pub enum HistoryEntry {
    System { content: String, estimated_tokens: u64 },
    User { content: String, estimated_tokens: u64 },
    Assistant {
        content: String,
        reasoning_content: String,
        tool_calls: Vec<AssistantToolCall>,
        estimated_tokens: u64,
    },
    Tool { tool_call_id: String, tool_name: String, content: String, estimated_tokens: u64 },
}

/// A tool call that the assistant asked for.
#[derive(Debug)]
pub struct AssistantToolCall {
    pub id: String,
    pub name: String,
    pub arguments: String,
}

impl Clone for AssistantToolCall {
    fn clone(&self) -> (r: Self)
        ensures
            r == *self,
    {
        AssistantToolCall {
            id: self.id.clone(),
            name: self.name.clone(),
            arguments: self.arguments.clone(),
        }
    }
}

/// When a history is compacted: before a user turn, or within one.
#[derive(Debug, Clone, Copy, PartialEq, Eq, Structural)]
pub enum CompactionMode {
    BeforeTurn,
    MidTurn,
}

/// The weight of a text: its number of words, and at least one.
pub open spec fn text_weight_of(t: Seq<char>) -> nat {
    if words(t).len() == 0 {
        1
    } else {
        words(t).len()
    }
}

/// The weight of the names and arguments of tool calls.
pub open spec fn calls_weight(calls: Seq<AssistantToolCall>) -> nat
    decreases calls.len(),
{
    if calls.len() == 0 {
        0
    } else {
        calls_weight(calls.drop_last()) + text_weight_of(calls.last().name@) + text_weight_of(
            calls.last().arguments@,
        )
    }
}

/// The weight of all the entries.
pub open spec fn total_weight(entries: Seq<HistoryEntry>) -> nat
    decreases entries.len(),
{
    if entries.len() == 0 {
        0
    } else {
        total_weight(entries.drop_last()) + entries.last().weight_of()
    }
}

/// The sum of the token estimates of all the entries.
pub open spec fn token_sum(entries: Seq<HistoryEntry>) -> nat
    decreases entries.len(),
{
    if entries.len() == 0 {
        0
    } else {
        token_sum(entries.drop_last()) + entries.last().tokens() as nat
    }
}

/// The index of the last system entry.
pub open spec fn last_system(entries: Seq<HistoryEntry>) -> Option<nat>
    decreases entries.len(),
{
    if entries.len() == 0 {
        None
    } else if entries.last() is System {
        Some((entries.len() - 1) as nat)
    } else {
        last_system(entries.drop_last())
    }
}

/// The index from which the entries are active: that of the last system entry, if there is one.
pub open spec fn active_start(entries: Seq<HistoryEntry>) -> int {
    match last_system(entries) {
        Some(i) => i as int,
        None => 0,
    }
}

/// The entries that still take part in the conversation.
pub open spec fn active(entries: Seq<HistoryEntry>) -> Seq<HistoryEntry> {
    entries.skip(active_start(entries))
}

/// `a * b`, or the largest `u64` where that is larger.
pub open spec fn sat_mul(a: int, b: int) -> int {
    if a * b <= u64::MAX {
        a * b
    } else {
        u64::MAX as int
    }
}

/// `a + b`, or the largest `u64` where that is larger.
pub open spec fn sat_add(a: int, b: int) -> int {
    if a + b <= u64::MAX {
        a + b
    } else {
        u64::MAX as int
    }
}

/// The tokens that go to an entry of weight `weight` out of `delta`, before the last entry.
pub open spec fn quota(delta: int, weight: int, total: int) -> int {
    sat_mul(delta, weight) / total
}

/// The sum of the quotas of the first `n` entries.
pub open spec fn quota_sum(entries: Seq<HistoryEntry>, delta: int, n: int) -> int
    decreases n,
{
    if n <= 0 {
        0
    } else {
        quota_sum(entries, delta, n - 1) + quota(
            delta,
            entries[n - 1].weight_of() as int,
            total_weight(entries) as int,
        )
    }
}

/// The tokens that entry `i` gets out of `delta`: its quota, and for the last one the rest.
pub open spec fn share_of(entries: Seq<HistoryEntry>, delta: int, i: int) -> int {
    if i == entries.len() - 1 {
        delta - quota_sum(entries, delta, i)
    } else {
        quota(delta, entries[i].weight_of() as int, total_weight(entries) as int)
    }
}

/// The entries after `delta` tokens were added to those from `start` on.
pub open spec fn distributed(entries: Seq<HistoryEntry>, start: int, delta: int) -> Seq<
    HistoryEntry,
> {
    Seq::new(
        entries.len(),
        |i: int|
            if i < start {
                entries[i]
            } else {
                entries[i].with_tokens(
                    sat_add(
                        entries[i].tokens() as int,
                        share_of(entries.skip(start), delta, i - start),
                    ) as u64,
                )
            },
    )
}

/// The entries after their estimates were replaced: `target` tokens are spread over those from
/// `start` on, and the others have none.
pub open spec fn estimated(entries: Seq<HistoryEntry>, start: int, target: int) -> Seq<
    HistoryEntry,
> {
    if start >= entries.len() {
        entries
    } else {
        Seq::new(
            entries.len(),
            |i: int|
                entries[i].with_tokens(
                    if i < start {
                        0
                    } else {
                        share_of(entries.skip(start), target, i - start) as u64
                    },
                ),
        )
    }
}

impl HistoryEntry {
    /// The token estimate of the entry.
    pub open spec fn tokens(self) -> u64 {
        match self {
            HistoryEntry::System { estimated_tokens, .. } => estimated_tokens,
            HistoryEntry::User { estimated_tokens, .. } => estimated_tokens,
            HistoryEntry::Assistant { estimated_tokens, .. } => estimated_tokens,
            HistoryEntry::Tool { estimated_tokens, .. } => estimated_tokens,
        }
    }

    /// The entry with another token estimate.
    pub open spec fn with_tokens(self, value: u64) -> HistoryEntry {
        match self {
            HistoryEntry::System { content, .. } => HistoryEntry::System {
                content,
                estimated_tokens: value,
            },
            HistoryEntry::User { content, .. } => HistoryEntry::User {
                content,
                estimated_tokens: value,
            },
            HistoryEntry::Assistant { content, reasoning_content, tool_calls, .. } =>
                HistoryEntry::Assistant {
                    content,
                    reasoning_content,
                    tool_calls,
                    estimated_tokens: value,
                },
            HistoryEntry::Tool { tool_call_id, tool_name, content, .. } => HistoryEntry::Tool {
                tool_call_id,
                tool_name,
                content,
                estimated_tokens: value,
            },
        }
    }

    /// The weight of the entry: that of its texts, without ids and tool names.
    pub open spec fn weight_of(self) -> nat {
        match self {
            HistoryEntry::System { content, .. } => text_weight_of(content@),
            HistoryEntry::User { content, .. } => text_weight_of(content@),
            HistoryEntry::Assistant { content, reasoning_content, tool_calls, .. } =>
                text_weight_of(content@) + text_weight_of(reasoning_content@) + calls_weight(
                    tool_calls@,
                ),
            HistoryEntry::Tool { content, .. } => text_weight_of(content@),
        }
    }

    /// The token estimate of the entry.
    pub fn estimated_tokens(&self) -> (r: u64)
        ensures
            r == self.tokens(),
    {
        match self {
            HistoryEntry::System { estimated_tokens, .. } => *estimated_tokens,
            HistoryEntry::User { estimated_tokens, .. } => *estimated_tokens,
            HistoryEntry::Assistant { estimated_tokens, .. } => *estimated_tokens,
            HistoryEntry::Tool { estimated_tokens, .. } => *estimated_tokens,
        }
    }

    /// Replaces the token estimate.
    pub fn set_estimated_tokens(&mut self, value: u64)
        ensures
            *final(self) == old(self).with_tokens(value),
    {
        match self {
            HistoryEntry::System { estimated_tokens, .. } => *estimated_tokens = value,
            HistoryEntry::User { estimated_tokens, .. } => *estimated_tokens = value,
            HistoryEntry::Assistant { estimated_tokens, .. } => *estimated_tokens = value,
            HistoryEntry::Tool { estimated_tokens, .. } => *estimated_tokens = value,
        }
    }

    /// Sets the token estimate to zero.
    pub fn reset_estimated_tokens(&mut self)
        ensures
            *final(self) == old(self).with_tokens(0),
    {
        self.set_estimated_tokens(0);
    }

    /// Adds to the token estimate, up to the largest `u64`.
    pub fn add_estimated_tokens(&mut self, delta: u64)
        ensures
            *final(self) == old(self).with_tokens(
                sat_add(old(self).tokens() as int, delta as int) as u64,
            ),
    {
        let current = self.estimated_tokens();
        self.set_estimated_tokens(current.saturating_add(delta));
    }
}

/// The weight of a text.
pub fn text_weight(text: &str) -> (r: u64)
    ensures
        r == text_weight_of(text@),
{
    let found = split_words(text);
    if found.len() == 0 {
        1
    } else {
        found.len() as u64
    }
}

/// The weight of the tool calls, or `None` where a `u64` cannot hold it.
fn checked_calls_weight(calls: &Vec<AssistantToolCall>) -> (r: Option<u64>)
    ensures
        r is Some <==> calls_weight(calls@) <= u64::MAX,
        r is Some ==> r->0 == calls_weight(calls@),
{
    let mut sum: u64 = 0;
    for i in 0..calls.len()
        invariant
            sum == calls_weight(calls@.take(i as int)),
    {
        proof {
            lemma_calls_weight_prefix(calls@, i + 1);
            assert(calls@.take(i + 1).drop_last() =~= calls@.take(i as int));
        }
        let name: u64 = text_weight(&calls[i].name);
        let arguments: u64 = text_weight(&calls[i].arguments);
        sum =
        match name.checked_add(arguments) {
            Some(call) => match sum.checked_add(call) {
                Some(next) => next,
                None => return None,
            },
            None => return None,
        };
    }
    proof {
        assert(calls@.take(calls@.len() as int) =~= calls@);
    }
    Some(sum)
}

proof fn lemma_calls_weight_prefix(calls: Seq<AssistantToolCall>, n: int)
    requires
        0 <= n <= calls.len(),
    ensures
        calls_weight(calls.take(n)) <= calls_weight(calls),
    decreases calls.len() - n,
{
    if n == calls.len() {
        assert(calls.take(n) =~= calls);
    } else {
        lemma_calls_weight_prefix(calls, n + 1);
        assert(calls.take(n + 1).drop_last() =~= calls.take(n));
    }
}

impl HistoryEntry {
    /// The weight of the entry, or `None` where a `u64` cannot hold it.
    pub fn checked_weight(&self) -> (r: Option<u64>)
        ensures
            r is Some <==> self.weight_of() <= u64::MAX,
            r is Some ==> r->0 == self.weight_of(),
    {
        match self {
            HistoryEntry::System { content, .. } => Some(text_weight(content)),
            HistoryEntry::User { content, .. } => Some(text_weight(content)),
            HistoryEntry::Assistant { content, reasoning_content, tool_calls, .. } => {
                let own: u64 = text_weight(content);
                let reasoning: u64 = text_weight(reasoning_content);
                match checked_calls_weight(tool_calls) {
                    Some(calls) => match reasoning.checked_add(calls) {
                        Some(rest) => own.checked_add(rest),
                        None => None,
                    },
                    None => None,
                }
            },
            HistoryEntry::Tool { content, .. } => Some(text_weight(content)),
        }
    }

    /// The weight of the entry.
    pub fn weight(&self) -> (r: u64)
        requires
            self.weight_of() <= u64::MAX,
        ensures
            r == self.weight_of(),
    {
        match self.checked_weight() {
            Some(weight) => weight,
            None => 0,
        }
    }
}

proof fn lemma_total_weight_prefix(entries: Seq<HistoryEntry>, n: int)
    requires
        0 <= n <= entries.len(),
    ensures
        total_weight(entries.take(n)) <= total_weight(entries),
    decreases entries.len() - n,
{
    if n == entries.len() {
        assert(entries.take(n) =~= entries);
    } else {
        lemma_total_weight_prefix(entries, n + 1);
        assert(entries.take(n + 1).drop_last() =~= entries.take(n));
    }
}

proof fn lemma_token_sum_prefix(entries: Seq<HistoryEntry>, n: int)
    requires
        0 <= n <= entries.len(),
    ensures
        token_sum(entries.take(n)) <= token_sum(entries),
    decreases entries.len() - n,
{
    if n == entries.len() {
        assert(entries.take(n) =~= entries);
    } else {
        lemma_token_sum_prefix(entries, n + 1);
        assert(entries.take(n + 1).drop_last() =~= entries.take(n));
    }
}

/// Every entry weighs at least one.
proof fn lemma_weight_positive(e: HistoryEntry)
    ensures
        e.weight_of() >= 1,
{
}

/// Entries together weigh at least as much as there are entries, and each at most the total.
proof fn lemma_total_weight(entries: Seq<HistoryEntry>)
    ensures
        total_weight(entries) >= entries.len(),
        forall|i: int|
            0 <= i < entries.len() ==> (#[trigger] entries[i]).weight_of() <= total_weight(entries),
    decreases entries.len(),
{
    if entries.len() > 0 {
        lemma_total_weight(entries.drop_last());
        lemma_weight_positive(entries.last());
        assert forall|i: int| 0 <= i < entries.len() implies (#[trigger] entries[i]).weight_of()
            <= total_weight(entries) by {
            if i < entries.len() - 1 {
                assert(entries[i] == entries.drop_last()[i]);
            }
        }
    }
}

/// The weight of the entries from `start` on, or `None` where a `u64` cannot hold it.
fn checked_total_weight(entries: &Vec<HistoryEntry>, start: usize) -> (r: Option<u64>)
    requires
        start <= entries.len(),
    ensures
        r is Some <==> total_weight(entries@.skip(start as int)) <= u64::MAX,
        r is Some ==> r->0 == total_weight(entries@.skip(start as int)),
{
    let ghost tail = entries@.skip(start as int);
    let mut sum: u64 = 0;
    let mut i: usize = start;
    while i < entries.len()
        invariant
            start <= i <= entries.len(),
            tail == entries@.skip(start as int),
            sum == total_weight(tail.take(i - start)),
        decreases entries.len() - i,
    {
        proof {
            lemma_total_weight_prefix(tail, i - start + 1);
            assert(tail.take(i - start + 1).drop_last() =~= tail.take(i - start));
        }
        sum =
        match entries[i].checked_weight() {
            Some(weight) => match sum.checked_add(weight) {
                Some(next) => next,
                None => return None,
            },
            None => return None,
        };
        i += 1;
    }
    proof {
        assert(tail.take(entries@.len() - start) =~= tail);
    }
    Some(sum)
}

/// `a * b`, or the largest `u64` where that is larger.
fn saturating_mul(a: u64, b: u64) -> (r: u64)
    ensures
        r == sat_mul(a as int, b as int),
{
    match a.checked_mul(b) {
        Some(product) => product,
        None => u64::MAX,
    }
}

/// An estimate of the tokens of the entries from `start` on: four for each unit of weight.
pub fn estimate_entry_tokens(entries: &Vec<HistoryEntry>, start: usize) -> (r: u64)
    requires
        start <= entries.len() ==> total_weight(entries@.skip(start as int)) <= u64::MAX,
    ensures
        start >= entries.len() ==> r == 0,
        start < entries.len() ==> r == sat_mul(
            total_weight(entries@.skip(start as int)) as int,
            4,
        ),
{
    if start >= entries.len() {
        return 0;
    }
    match checked_total_weight(entries, start) {
        Some(weight) => saturating_mul(weight, 4),
        None => 0,
    }
}

/// The weight of the first `n` entries.
spec fn weight_before(entries: Seq<HistoryEntry>, n: int) -> nat {
    total_weight(entries.take(n))
}

/// The quotas of the first entries come to no more than what there is to hand out.
proof fn lemma_quota_sum(entries: Seq<HistoryEntry>, delta: int, n: int)
    requires
        0 <= n <= entries.len(),
        entries.len() > 0,
        0 <= delta,
    ensures
        0 <= quota_sum(entries, delta, n) <= delta,
        quota_sum(entries, delta, n) * total_weight(entries) <= delta * weight_before(entries, n),
    decreases n,
{
    let w = total_weight(entries) as int;
    lemma_total_weight(entries);
    if n > 0 {
        lemma_quota_sum(entries, delta, n - 1);
        let wi = entries[n - 1].weight_of() as int;
        let q = quota(delta, wi, w);
        let s = quota_sum(entries, delta, n - 1);
        let b = weight_before(entries, n - 1) as int;
        assert(entries.take(n).drop_last() =~= entries.take(n - 1));
        assert(weight_before(entries, n) == b + wi);
        assert(0 <= delta * wi) by (nonlinear_arith)
            requires
                0 <= delta,
                0 <= wi,
        ;
        let m = sat_mul(delta, wi);
        assert(0 <= m <= delta * wi);
        assert(q >= 0 && q * w <= m) by (nonlinear_arith)
            requires
                q == m / w,
                w > 0,
                m >= 0,
        ;
        assert((s + q) * w == s * w + q * w) by (nonlinear_arith);
        assert(delta * (b + wi) == delta * b + delta * wi) by (nonlinear_arith);
        lemma_total_weight_prefix(entries, n);
        assert(delta * (b + wi) <= delta * w) by (nonlinear_arith)
            requires
                b + wi <= w,
                0 <= delta,
        ;
        let total = s + q;
        assert(total <= delta) by (nonlinear_arith)
            requires
                total * w <= delta * w,
                w > 0,
        ;
    } else {
        assert(0 * w == 0) by (nonlinear_arith);
        assert(entries.take(0).len() == 0);
        assert(delta * 0 == 0) by (nonlinear_arith);
    }
}

/// Changing estimates does not change weights.
proof fn lemma_same_weights(a: Seq<HistoryEntry>, b: Seq<HistoryEntry>)
    requires
        a.len() == b.len(),
        forall|i: int| 0 <= i < a.len() ==> (#[trigger] a[i]).weight_of() == b[i].weight_of(),
    ensures
        total_weight(a) == total_weight(b),
    decreases a.len(),
{
    if a.len() > 0 {
        assert(a.last() == a[a.len() - 1]);
        lemma_same_weights(a.drop_last(), b.drop_last());
    }
}

/// Spreads `delta` tokens over the entries from `start` on in proportion to their weights; the
/// last entry takes what rounding leaves. Every entry weighs at least one, so the total weight
/// is positive.
pub fn distribute_tokens(entries: &mut Vec<HistoryEntry>, start: usize, delta: u64)
    requires
        start <= old(entries).len(),
        total_weight(old(entries)@.skip(start as int)) <= u64::MAX,
    ensures
        final(entries)@ == distributed(old(entries)@, start as int, delta as int),
{
    let n: usize = entries.len();
    let ghost before = entries@;
    let ghost tail = entries@.skip(start as int);
    if start == n {
        proof {
            assert(distributed(before, start as int, delta as int) =~= before);
        }
        return;
    }
    let total: u64 = match checked_total_weight(entries, start) {
        Some(weight) => weight,
        None => 0,
    };
    proof {
        lemma_total_weight(tail);
    }
    let mut assigned: u64 = 0;
    let mut i: usize = start;
    while i < n
        invariant
            start <= i <= n,
            start < n,
            entries.len() == n,
            before.len() == n,
            tail == before.skip(start as int),
            total == total_weight(tail),
            total > 0,
            assigned == (if i < n {
                quota_sum(tail, delta as int, i - start)
            } else {
                delta as int
            }),
            forall|k: int|
                0 <= k < n && (k < start || k >= i) ==> entries@[k] == #[trigger] before[k],
            forall|k: int|
                start <= k < i ==> #[trigger] entries@[k] == distributed(
                    before,
                    start as int,
                    delta as int,
                )[k],
        decreases n - i,
    {
        proof {
            lemma_quota_sum(tail, delta as int, i - start);
            lemma_total_weight(tail);
            assert(tail[i - start] == before[i as int]);
            if i < n - 1 {
                lemma_quota_sum(tail, delta as int, i - start + 1);
            }
        }
        let share: u64 = if i == n - 1 {
            delta - assigned
        } else {
            saturating_mul(delta, entries[i].weight()) / total
        };
        assert(share == share_of(tail, delta as int, i - start));
        assigned = assigned.saturating_add(share);
        entries[i].add_estimated_tokens(share);
        i += 1;
    }
    proof {
        assert(entries@ =~= distributed(before, start as int, delta as int));
    }
}

/// Replaces all estimates: `target_total` tokens are spread over the entries from `start` on.
/// Nothing happens where there is no such entry.
pub fn apply_estimated_tokens(entries: &mut Vec<HistoryEntry>, start: usize, target_total: u64)
    requires
        start < old(entries).len() ==> total_weight(old(entries)@.skip(start as int)) <= u64::MAX,
    ensures
        final(entries)@ == estimated(old(entries)@, start as int, target_total as int),
{
    let n: usize = entries.len();
    if start >= n {
        return;
    }
    let ghost before = entries@;
    let mut i: usize = 0;
    while i < n
        invariant
            i <= n,
            entries.len() == n,
            before.len() == n,
            forall|k: int| 0 <= k < i ==> #[trigger] entries@[k] == before[k].with_tokens(0),
            forall|k: int| i <= k < n ==> #[trigger] entries@[k] == before[k],
        decreases n - i,
    {
        entries[i].reset_estimated_tokens();
        i += 1;
    }
    let ghost cleared = entries@;
    proof {
        let a = before.skip(start as int);
        let b = cleared.skip(start as int);
        assert forall|k: int| 0 <= k < a.len() implies (#[trigger] a[k]).weight_of()
            == b[k].weight_of() by {
            assert(cleared[k + start] == before[k + start].with_tokens(0));
        }
        lemma_same_weights(a, b);
    }
    distribute_tokens(entries, start, target_total);
    proof {
        let a = before.skip(start as int);
        let b = cleared.skip(start as int);
        assert forall|k: int| 0 <= k <= a.len() implies #[trigger] quota_sum(
            a,
            target_total as int,
            k,
        ) == quota_sum(b, target_total as int, k) by {
            lemma_same_quotas(a, b, target_total as int, k);
        }
        assert forall|k: int| 0 <= k < a.len() implies 0 <= share_of(
            a,
            target_total as int,
            k,
        ) <= target_total && #[trigger] share_of(a, target_total as int, k) == share_of(
            b,
            target_total as int,
            k,
        ) by {
            assert(a[k].weight_of() == b[k].weight_of());
            lemma_quota_sum(a, target_total as int, k);
            if k < a.len() - 1 {
                lemma_quota_sum(a, target_total as int, k + 1);
            }
        }
        let goal = estimated(before, start as int, target_total as int);
        assert forall|k: int| 0 <= k < n implies entries@[k] == goal[k] by {
            assert(cleared[k] == before[k].with_tokens(0));
            if k >= start {
                let s = share_of(a, target_total as int, k - start);
                assert(0 <= s <= target_total);
            }
        }
        assert(entries@ =~= goal);
    }
}

proof fn lemma_same_quotas(a: Seq<HistoryEntry>, b: Seq<HistoryEntry>, delta: int, n: int)
    requires
        0 <= n <= a.len(),
        a.len() == b.len(),
        total_weight(a) == total_weight(b),
        forall|i: int| 0 <= i < a.len() ==> (#[trigger] a[i]).weight_of() == b[i].weight_of(),
    ensures
        quota_sum(a, delta, n) == quota_sum(b, delta, n),
    decreases n,
{
    if n > 0 {
        assert(a[n - 1].weight_of() == b[n - 1].weight_of());
        lemma_same_quotas(a, b, delta, n - 1);
    }
}

/// The text of the last user entry.
pub open spec fn last_user(entries: Seq<HistoryEntry>) -> Option<Seq<char>>
    decreases entries.len(),
{
    if entries.len() == 0 {
        None
    } else {
        match entries.last() {
            HistoryEntry::User { content, .. } => Some(content@),
            _ => last_user(entries.drop_last()),
        }
    }
}

/// The estimate that a new entry starts with: four tokens for each unit of weight.
pub open spec fn first_estimate(weight: nat) -> u64 {
    sat_mul(weight as int, 4) as u64
}

/// The text of the system entry that a compaction adds.
pub open spec fn summary_text(summary: Seq<char>) -> Seq<char> {
    HISTORY_SUMMARY_PREFIX@ + "\n"@ + trimmed(summary)
}

/// The tokens in use after a call of the model, as far as it reported them: those that went in,
/// else the total, else an estimate by weight and number of the active entries.
pub open spec fn reported_usage(
    entries: Seq<HistoryEntry>,
    input_tokens: Option<u64>,
    total_tokens: Option<u64>,
) -> int {
    let own = active(entries);
    match input_tokens {
        Some(n) => n as int,
        None => match total_tokens {
            Some(n) => n as int,
            None => {
                let estimate = sat_mul(total_weight(own) as int, 4);
                if estimate >= own.len() {
                    estimate
                } else {
                    own.len() as int
                }
            },
        },
    }
}

/// The entries after a call of the model that reported these tokens.
pub open spec fn after_report(
    entries: Seq<HistoryEntry>,
    input_tokens: Option<u64>,
    total_tokens: Option<u64>,
) -> Seq<HistoryEntry> {
    estimated(
        entries,
        active_start(entries),
        reported_usage(entries, input_tokens, total_tokens),
    )
}

/// The value of an optional count, which is zero where it is missing.
pub open spec fn count_or_zero(n: Option<u64>) -> int {
    match n {
        Some(n) => n as int,
        None => 0,
    }
}

/// The tokens that a call adds to the running total.
pub open spec fn reported_total(
    input_tokens: Option<u64>,
    output_tokens: Option<u64>,
    total_tokens: Option<u64>,
) -> int {
    match total_tokens {
        Some(n) => n as int,
        None => sat_add(count_or_zero(input_tokens), count_or_zero(output_tokens)),
    }
}

/// The active usage from which a history has to be compacted: four fifths of the limit.
pub open spec fn compaction_threshold(token_limit: u64) -> int {
    sat_mul(token_limit as int, 4) / 5
}

proof fn lemma_last_system(entries: Seq<HistoryEntry>)
    ensures
        last_system(entries) matches Some(i) ==> i < entries.len() && entries[i as int] is System,
        forall|k: int|
            0 <= k < entries.len() && #[trigger] entries[k] is System ==> last_system(
                entries,
            ) is Some && k <= last_system(entries)->0,
        0 <= active_start(entries) <= entries.len(),
    decreases entries.len(),
{
    if entries.len() > 0 && !(entries.last() is System) {
        lemma_last_system(entries.drop_last());
        assert forall|k: int| 0 <= k < entries.len() && #[trigger] entries[k] is System implies
            last_system(entries) is Some && k <= last_system(entries)->0 by {
            assert(entries.drop_last()[k] == entries[k]);
        }
    }
}

/// The index of the last system entry.
fn find_last_system(entries: &Vec<HistoryEntry>) -> (r: Option<usize>)
    ensures
        r is Some <==> last_system(entries@) is Some,
        r is Some ==> r->0 == last_system(entries@)->0,
{
    let mut i: usize = entries.len();
    proof {
        assert(entries@.take(i as int) =~= entries@);
    }
    while i > 0
        invariant
            i <= entries.len(),
            last_system(entries@.take(i as int)) == last_system(entries@),
        decreases i,
    {
        proof {
            assert(entries@.take(i as int).drop_last() =~= entries@.take(i - 1));
        }
        i -= 1;
        if let HistoryEntry::System { .. } = &entries[i] {
            return Some(i);
        }
    }
    None
}

/// The index from which the entries are active.
pub fn find_active_start(entries: &Vec<HistoryEntry>) -> (r: usize)
    ensures
        r == active_start(entries@),
        r <= entries.len(),
{
    proof {
        lemma_last_system(entries@);
    }
    match find_last_system(entries) {
        Some(i) => i,
        None => 0,
    }
}

/// The weight of what the assistant said.
pub open spec fn assistant_weight(
    content: Seq<char>,
    reasoning_content: Seq<char>,
    tool_calls: Seq<AssistantToolCall>,
) -> nat {
    text_weight_of(content) + text_weight_of(reasoning_content) + calls_weight(tool_calls)
}

/// Tells whether the weight of what the assistant said fits a `u64`.
pub fn assistant_weight_fits(
    content: &str,
    reasoning_content: &str,
    tool_calls: &Vec<AssistantToolCall>,
) -> (r: bool)
    ensures
        r == (assistant_weight(content@, reasoning_content@, tool_calls@) <= u64::MAX),
{
    match text_weight(content).checked_add(text_weight(reasoning_content)) {
        Some(texts) => match checked_calls_weight(tool_calls) {
            Some(calls) => texts.checked_add(calls).is_some(),
            None => false,
        },
        None => false,
    }
}

/// Tells whether the weight of the entries that a compaction adds fits a `u64`.
pub fn compaction_weight_fits(summary: &str, resume_user: &Option<String>) -> (r: bool)
    ensures
        r == (compaction_weight(summary@, *resume_user) <= u64::MAX),
{
    let mut content = HISTORY_SUMMARY_PREFIX.to_owned();
    content.append("\n");
    content.append(trim(summary).as_str());
    let own: u64 = text_weight(&content);
    match resume_user {
        Some(user) => own.checked_add(text_weight(user)).is_some(),
        None => true,
    }
}

impl HistoryFile {
    /// All but the entries is the same.
    pub open spec fn same_header(self, other: HistoryFile) -> bool {
        &&& self.version == other.version
        &&& self.session_id == other.session_id
        &&& self.workspace_root == other.workspace_root
        &&& self.last_active_at_ms == other.last_active_at_ms
        &&& self.total_input_tokens == other.total_input_tokens
        &&& self.total_output_tokens == other.total_output_tokens
        &&& self.total_tokens == other.total_tokens
    }

    /// All but the entries is that of `before`, with one call of the model added to the totals.
    pub open spec fn counts_call(
        self,
        before: HistoryFile,
        input_tokens: Option<u64>,
        output_tokens: Option<u64>,
        total_tokens: Option<u64>,
    ) -> bool {
        &&& self.version == before.version
        &&& self.session_id == before.session_id
        &&& self.workspace_root == before.workspace_root
        &&& self.last_active_at_ms == before.last_active_at_ms
        &&& self.total_input_tokens == sat_add(
            before.total_input_tokens as int,
            count_or_zero(input_tokens),
        )
        &&& self.total_output_tokens == sat_add(
            before.total_output_tokens as int,
            count_or_zero(output_tokens),
        )
        &&& self.total_tokens == sat_add(
            before.total_tokens as int,
            reported_total(input_tokens, output_tokens, total_tokens),
        )
    }

    /// The weight of the active entries fits a `u64`.
    pub open spec fn weight_fits(self) -> bool {
        total_weight(active(self.entries@)) <= u64::MAX
    }

    /// The token estimates of the active entries add up to a `u64`.
    pub open spec fn usage_fits(self) -> bool {
        token_sum(active(self.entries@)) <= u64::MAX
    }

    /// Appends a user entry.
    pub fn push_user(&mut self, content: String)
        ensures
            final(self).same_header(*old(self)),
            final(self).entries@ == old(self).entries@.push(
                (HistoryEntry::User {
                    content,
                    estimated_tokens: first_estimate(text_weight_of(content@)),
                }),
            ),
    {
        let estimated_tokens: u64 = saturating_mul(text_weight(&content), 4);
        self.entries.push(HistoryEntry::User { content, estimated_tokens });
    }

    /// Appends an entry of the assistant.
    pub fn push_assistant(
        &mut self,
        content: String,
        reasoning_content: String,
        tool_calls: Vec<AssistantToolCall>,
    )
        requires
            assistant_weight(content@, reasoning_content@, tool_calls@) <= u64::MAX,
        ensures
            final(self).same_header(*old(self)),
            final(self).entries@ == old(self).entries@.push(
                (HistoryEntry::Assistant {
                    content,
                    reasoning_content,
                    tool_calls,
                    estimated_tokens: first_estimate(
                        assistant_weight(content@, reasoning_content@, tool_calls@),
                    ),
                }),
            ),
    {
        let mut entry = HistoryEntry::Assistant {
            content,
            reasoning_content,
            tool_calls,
            estimated_tokens: 0,
        };
        let weight: u64 = entry.weight();
        entry.set_estimated_tokens(saturating_mul(weight, 4));
        self.entries.push(entry);
    }

    /// Appends the result of a tool call.
    pub fn push_tool(&mut self, tool_call_id: String, tool_name: String, content: String)
        ensures
            final(self).same_header(*old(self)),
            final(self).entries@ == old(self).entries@.push(
                (HistoryEntry::Tool {
                    tool_call_id,
                    tool_name,
                    content,
                    estimated_tokens: first_estimate(text_weight_of(content@)),
                }),
            ),
    {
        let estimated_tokens: u64 = saturating_mul(text_weight(&content), 4);
        self.entries.push(
            HistoryEntry::Tool { tool_call_id, tool_name, content, estimated_tokens },
        );
    }

    /// Appends a system entry, from which on the entries are active.
    pub fn push_system(&mut self, content: String)
        ensures
            final(self).same_header(*old(self)),
            final(self).entries@ == old(self).entries@.push(
                (HistoryEntry::System {
                    content,
                    estimated_tokens: first_estimate(text_weight_of(content@)),
                }),
            ),
    {
        let estimated_tokens: u64 = saturating_mul(text_weight(&content), 4);
        self.entries.push(HistoryEntry::System { content, estimated_tokens });
    }

    /// The index of the last system entry.
    pub fn last_system_index(&self) -> (r: Option<usize>)
        ensures
            r is Some <==> last_system(self.entries@) is Some,
            r is Some ==> r->0 == last_system(self.entries@)->0,
    {
        find_last_system(&self.entries)
    }

    /// The index from which the entries are active.
    fn active_from(&self) -> (r: usize)
        ensures
            r == active_start(self.entries@),
            r <= self.entries.len(),
    {
        find_active_start(&self.entries)
    }

    /// Tells whether the weight of the active entries fits a `u64`.
    pub fn active_weight_fits(&self) -> (r: bool)
        ensures
            r == self.weight_fits(),
    {
        let start = self.active_from();
        checked_total_weight(&self.entries, start).is_some()
    }

    /// Takes in what the model reported of a call: the running totals grow, and the tokens in
    /// use are spread over the active entries.
    pub fn note_api_usage(
        &mut self,
        input_tokens: Option<u64>,
        output_tokens: Option<u64>,
        total_tokens: Option<u64>,
    )
        requires
            old(self).weight_fits(),
        ensures
            final(self).counts_call(*old(self), input_tokens, output_tokens, total_tokens),
            final(self).entries@ == after_report(old(self).entries@, input_tokens, total_tokens),
    {
        let start = self.active_from();
        let entry_count: u64 = (self.entries.len() - start) as u64;
        let entry_estimate: u64 = estimate_entry_tokens(&self.entries, start);
        proof {
            if start >= self.entries@.len() {
                assert(active(self.entries@).len() == 0);
                assert(0 * 4 == 0);
            }
        }
        let input: u64 = input_tokens.unwrap_or(0);
        let output: u64 = output_tokens.unwrap_or(0);
        self.total_input_tokens = self.total_input_tokens.saturating_add(input);
        self.total_output_tokens = self.total_output_tokens.saturating_add(output);
        let fallback_total: u64 = input.saturating_add(output);
        self.total_tokens =
        self.total_tokens.saturating_add(total_tokens.unwrap_or(fallback_total));
        let active_estimate: u64 = match input_tokens {
            Some(n) => n,
            None => match total_tokens {
                Some(n) => n,
                None => if entry_estimate >= entry_count {
                    entry_estimate
                } else {
                    entry_count
                },
            },
        };
        apply_estimated_tokens(&mut self.entries, start, active_estimate);
    }

    /// The tokens of the active entries, or `None` where a `u64` cannot hold them.
    pub fn checked_active_token_usage(&self) -> (r: Option<u64>)
        ensures
            r is Some <==> self.usage_fits(),
            r is Some ==> r->0 == token_sum(active(self.entries@)),
    {
        let start = self.active_from();
        let ghost tail = active(self.entries@);
        let mut sum: u64 = 0;
        let mut i: usize = start;
        while i < self.entries.len()
            invariant
                start <= i <= self.entries.len(),
                tail == self.entries@.skip(start as int),
                tail == active(self.entries@),
                sum == token_sum(tail.take(i - start)),
            decreases self.entries.len() - i,
        {
            proof {
                lemma_token_sum_prefix(tail, i - start + 1);
                assert(tail.take(i - start + 1).drop_last() =~= tail.take(i - start));
            }
            sum =
            match sum.checked_add(self.entries[i].estimated_tokens()) {
                Some(next) => next,
                None => return None,
            };
            i += 1;
        }
        proof {
            assert(tail.take(self.entries@.len() - start) =~= tail);
        }
        Some(sum)
    }

    /// The tokens of the active entries.
    pub fn active_token_usage(&self) -> (r: u64)
        requires
            self.usage_fits(),
        ensures
            r == token_sum(active(self.entries@)),
    {
        match self.checked_active_token_usage() {
            Some(sum) => sum,
            None => 0,
        }
    }

    /// The tokens used over the whole session.
    pub fn total_token_usage(&self) -> (r: u64)
        ensures
            r == self.total_tokens,
    {
        self.total_tokens
    }

    /// Tells whether the active entries use four fifths of the limit or more.
    pub fn needs_compaction(&self, token_limit: u64) -> (r: bool)
        requires
            self.usage_fits(),
        ensures
            r == (token_sum(active(self.entries@)) >= compaction_threshold(token_limit)),
    {
        self.active_token_usage() >= saturating_mul(token_limit, 4) / 5
    }

    /// The text of the last user entry.
    pub fn last_user_content(&self) -> (r: Option<String>)
        ensures
            r is Some <==> last_user(self.entries@) is Some,
            r is Some ==> r->0@ == last_user(self.entries@)->0,
    {
        let mut i: usize = self.entries.len();
        proof {
            assert(self.entries@.take(i as int) =~= self.entries@);
        }
        while i > 0
            invariant
                i <= self.entries.len(),
                last_user(self.entries@.take(i as int)) == last_user(self.entries@),
            decreases i,
        {
            proof {
                assert(self.entries@.take(i as int).drop_last() =~= self.entries@.take(i - 1));
            }
            i -= 1;
            if let HistoryEntry::User { content, .. } = &self.entries[i] {
                return Some(content.clone());
            }
        }
        None
    }

    /// What the model is asked for when the history is compacted.
    pub fn compaction_prompt(&self, mode: CompactionMode) -> (r: String)
        ensures
            r@ == compaction_request(mode),
    {
        match mode {
            CompactionMode::BeforeTurn => COMPACTION_PROMPT_BEFORE_TURN.to_owned(),
            CompactionMode::MidTurn => COMPACTION_PROMPT_MID_TURN.to_owned(),
        }
    }

    /// Replaces the active entries by a summary, and by the user's text that is still open.
    /// Earlier entries stay in the file, but are no longer active and hold no tokens.
    pub fn apply_compaction(&mut self, summary: String, resume_user: Option<String>)
        requires
            compaction_weight(summary@, resume_user) <= u64::MAX,
        ensures
            final(self).same_header(*old(self)),
            is_compaction_of(final(self).entries@, old(self).entries@, summary@, resume_user),
    {
        let ghost before = self.entries@;
        let ghost n = self.entries@.len() as int;
        let mut content = HISTORY_SUMMARY_PREFIX.to_owned();
        content.append("\n");
        content.append(trim(&summary).as_str());
        self.push_system(content);
        let ghost head = HistoryEntry::System {
            content,
            estimated_tokens: first_estimate(text_weight_of(content@)),
        };
        if let Some(user) = resume_user {
            self.push_user(user);
        }
        let ghost mid = self.entries@;
        let start = self.active_from();
        proof {
            assert(mid[n] == head);
            lemma_last_system(mid);
            assert(start == n);
            let tail = mid.skip(n);
            if resume_user is Some {
                assert(tail.drop_last() =~= seq![head]);
                assert(tail.drop_last().drop_last().len() == 0);
                reveal_with_fuel(total_weight, 3);
            } else {
                assert(tail =~= seq![head]);
                assert(tail.drop_last().len() == 0);
                reveal_with_fuel(total_weight, 2);
            }
            assert(total_weight(tail) == compaction_weight(summary@, resume_user));
        }
        let estimate: u64 = estimate_entry_tokens(&self.entries, start);
        apply_estimated_tokens(&mut self.entries, start, estimate);
        proof {
            let after = self.entries@;
            let a = mid.skip(n);
            let b = after.skip(n);
            assert forall|k: int| 0 <= k < a.len() implies (#[trigger] a[k]).weight_of()
                == b[k].weight_of() by {
                assert(after[k + n] == estimated(mid, n, estimate as int)[k + n]);
            }
            lemma_same_weights(a, b);
            assert forall|k: int| 0 <= k < b.len() implies (#[trigger] b[k]).tokens() == share_of(
                b,
                estimate as int,
                k,
            ) by {
                assert(after[k + n] == estimated(mid, n, estimate as int)[k + n]);
                lemma_same_quotas(a, b, estimate as int, k);
                assert(a[k].weight_of() == b[k].weight_of());
                lemma_share_bounds(a, estimate as int, k);
            }
            assert forall|k: int| 0 <= k < n implies (#[trigger] after[k])
                == before[k].with_tokens(0) by {
                assert(mid[k] == before[k]);
            }
        }
    }
}

proof fn lemma_share_bounds(entries: Seq<HistoryEntry>, delta: int, i: int)
    requires
        0 <= i < entries.len(),
        0 <= delta,
    ensures
        0 <= share_of(entries, delta, i) <= delta,
{
    lemma_quota_sum(entries, delta, i);
    if i < entries.len() - 1 {
        lemma_quota_sum(entries, delta, i + 1);
    }
}

/// What the model is asked for when a history is compacted.
pub open spec fn compaction_request(mode: CompactionMode) -> Seq<char> {
    match mode {
        CompactionMode::BeforeTurn => COMPACTION_PROMPT_BEFORE_TURN@,
        CompactionMode::MidTurn => COMPACTION_PROMPT_MID_TURN@,
    }
}

/// The weight of the entries that a compaction adds.
pub open spec fn compaction_weight(summary: Seq<char>, resume_user: Option<String>) -> nat {
    text_weight_of(summary_text(summary)) + match resume_user {
        Some(user) => text_weight_of(user@),
        None => 0,
    }
}

/// `after` is `before` with all estimates at zero, followed by a system entry with the summary
/// and the user's open text, over which an estimate of their tokens is spread.
pub open spec fn is_compaction_of(
    after: Seq<HistoryEntry>,
    before: Seq<HistoryEntry>,
    summary: Seq<char>,
    resume_user: Option<String>,
) -> bool {
    let n = before.len() as int;
    let added = after.skip(n);
    &&& after.len() == n + if resume_user is Some { 2int } else { 1int }
    &&& forall|k: int| 0 <= k < n ==> #[trigger] after[k] == before[k].with_tokens(0)
    &&& after[n] matches HistoryEntry::System { content, .. } && content@ == summary_text(summary)
    &&& resume_user matches Some(user) ==> {
        &&& after[n + 1] matches HistoryEntry::User { content, .. } && content == user
    }
    &&& forall|k: int|
        0 <= k < added.len() ==> (#[trigger] added[k]).tokens() == share_of(
            added,
            sat_mul(compaction_weight(summary, resume_user) as int, 4),
            k,
        )
}

/// The context size of a model.
pub open spec fn model_limit(model: Seq<char>) -> u64 {
    if begins_with(lower(trimmed(model)), GPT5_PREFIX@) {
        GPT5_TOKEN_LIMIT
    } else {
        DEFAULT_TOKEN_LIMIT
    }
}

/// The context size of a model, by its name without regard to case and surrounding space.
pub fn token_limit_for_model(model: &str) -> (r: u64)
    ensures
        r == model_limit(model@),
{
    let normalized = to_lower(trim(model).as_str());
    if starts_with(&normalized, GPT5_PREFIX) {
        GPT5_TOKEN_LIMIT
    } else {
        DEFAULT_TOKEN_LIMIT
    }
}

proof fn lemma_token_sum_zero(entries: Seq<HistoryEntry>)
    requires
        forall|i: int| 0 <= i < entries.len() ==> (#[trigger] entries[i]).tokens() == 0,
    ensures
        token_sum(entries) == 0,
    decreases entries.len(),
{
    if entries.len() > 0 {
        assert(entries.last() == entries[entries.len() - 1]);
        lemma_token_sum_zero(entries.drop_last());
    }
}

proof fn lemma_token_sum_split(entries: Seq<HistoryEntry>, n: int)
    requires
        0 <= n <= entries.len(),
    ensures
        token_sum(entries) == token_sum(entries.take(n)) + token_sum(entries.skip(n)),
    decreases entries.len() - n,
{
    if n == entries.len() {
        assert(entries.take(n) =~= entries);
        assert(entries.skip(n).len() == 0);
    } else {
        lemma_token_sum_split(entries.drop_last(), n);
        assert(entries.drop_last().take(n) =~= entries.take(n));
        assert(entries.drop_last().skip(n) =~= entries.skip(n).drop_last());
    }
}

/// Entries that hold their shares of `delta` hold `delta` together.
proof fn lemma_shares_add_up(base: Seq<HistoryEntry>, after: Seq<HistoryEntry>, delta: int, n: int)
    requires
        base.len() == after.len(),
        0 <= n <= base.len(),
        base.len() > 0,
        0 <= delta <= u64::MAX,
        forall|i: int|
            0 <= i < after.len() ==> (#[trigger] after[i]).tokens() == share_of(base, delta, i),
    ensures
        n < base.len() ==> token_sum(after.take(n)) == quota_sum(base, delta, n),
        n == base.len() ==> token_sum(after.take(n)) == delta,
    decreases n,
{
    if n > 0 {
        lemma_shares_add_up(base, after, delta, n - 1);
        assert(after.take(n).drop_last() =~= after.take(n - 1));
        assert(after.take(n).last() == after[n - 1]);
        lemma_share_bounds(base, delta, n - 1);
    }
}

proof fn lemma_estimated_keeps_systems(entries: Seq<HistoryEntry>, start: int, target: int)
    ensures
        last_system(estimated(entries, start, target)) == last_system(entries),
{
    let after = estimated(entries, start, target);
    if start < entries.len() {
        assert(after.len() == entries.len());
        assert forall|i: int| 0 <= i < after.len() implies (#[trigger] after[i] is System
            <==> entries[i] is System) by {}
        lemma_same_systems(entries, after);
    }
}

proof fn lemma_same_systems(a: Seq<HistoryEntry>, b: Seq<HistoryEntry>)
    requires
        a.len() == b.len(),
        forall|i: int| 0 <= i < a.len() ==> (#[trigger] b[i] is System <==> a[i] is System),
    ensures
        last_system(a) == last_system(b),
    decreases a.len(),
{
    if a.len() > 0 {
        assert(b[b.len() - 1] is System <==> a[a.len() - 1] is System);
        lemma_same_systems(a.drop_last(), b.drop_last());
    }
}

/// Spreading a number of tokens over the active entries neither loses nor invents any: the
/// active entries hold exactly that number afterwards, and the entries before them hold none.
/// Which entries are active does not change.
pub proof fn law_estimates_add_up(entries: Seq<HistoryEntry>, target: u64)
    requires
        entries.len() > 0,
    ensures
        ({
            let after = estimated(entries, active_start(entries), target as int);
            &&& active_start(after) == active_start(entries)
            &&& token_sum(active(after)) == target
            &&& token_sum(after) == target
        }),
{
    let start = active_start(entries);
    let after = estimated(entries, start, target as int);
    lemma_last_system(entries);
    lemma_estimated_keeps_systems(entries, start, target as int);
    assert(start < entries.len());
    let base = entries.skip(start);
    let own = after.skip(start);
    assert forall|i: int| 0 <= i < own.len() implies (#[trigger] own[i]).tokens() == share_of(
        base,
        target as int,
        i,
    ) by {
        lemma_share_bounds(base, target as int, i);
    }
    lemma_shares_add_up(base, own, target as int, own.len() as int);
    assert(own.take(own.len() as int) =~= own);
    lemma_token_sum_split(after, start);
    lemma_token_sum_zero(after.take(start));
}

/// Taking in a report of the model leaves the active usage at the reported number of tokens,
/// whatever the estimates were before.
pub proof fn law_usage_follows_report(
    entries: Seq<HistoryEntry>,
    input_tokens: Option<u64>,
    total_tokens: Option<u64>,
)
    requires
        entries.len() > 0,
        entries.len() <= u64::MAX,
    ensures
        ({
            let after = after_report(entries, input_tokens, total_tokens);
            token_sum(active(after)) == reported_usage(entries, input_tokens, total_tokens)
        }),
{
    let used = reported_usage(entries, input_tokens, total_tokens);
    lemma_last_system(entries);
    law_estimates_add_up(entries, used as u64);
}

/// The totals of a session never fall, whatever the model reports.
pub proof fn law_totals_never_fall(
    before: HistoryFile,
    after: HistoryFile,
    input_tokens: Option<u64>,
    output_tokens: Option<u64>,
    total_tokens: Option<u64>,
)
    requires
        after.counts_call(before, input_tokens, output_tokens, total_tokens),
    ensures
        after.total_input_tokens >= before.total_input_tokens,
        after.total_output_tokens >= before.total_output_tokens,
        after.total_tokens >= before.total_tokens,
{
}

/// An entry that is not a system entry joins the active ones and adds its own estimate to the
/// active usage.
pub proof fn law_push_adds_estimate(entries: Seq<HistoryEntry>, entry: HistoryEntry)
    requires
        !(entry is System),
    ensures
        active(entries.push(entry)) == active(entries).push(entry),
        token_sum(active(entries.push(entry))) == token_sum(active(entries)) + entry.tokens(),
{
    lemma_last_system(entries);
    assert(entries.push(entry).drop_last() =~= entries);
    assert(active(entries.push(entry)) =~= active(entries).push(entry));
    assert(active(entries).push(entry).drop_last() =~= active(entries));
}

/// After a compaction only the summary and the user's open text are active, and the active usage
/// is four tokens for each unit of their weight.
pub proof fn law_compaction_leaves_summary(
    before: Seq<HistoryEntry>,
    after: Seq<HistoryEntry>,
    summary: Seq<char>,
    resume_user: Option<String>,
)
    requires
        is_compaction_of(after, before, summary, resume_user),
    ensures
        active_start(after) == before.len(),
        active(after).len() == if resume_user is Some { 2int } else { 1int },
        active(after)[0] matches HistoryEntry::System { content, .. } && content@ == summary_text(
            summary,
        ),
        token_sum(active(after)) == sat_mul(
            compaction_weight(summary, resume_user) as int,
            4,
        ),
{
    let n = before.len() as int;
    lemma_last_system(after);
    assert(after[n] is System);
    if resume_user is Some {
        assert(after[n + 1] is User);
    }
    assert(active_start(after) == n);
    let own = after.skip(n);
    let delta = sat_mul(compaction_weight(summary, resume_user) as int, 4);
    lemma_shares_add_up(own, own, delta, own.len() as int);
    assert(own.take(own.len() as int) =~= own);
}

/// The last user text is the content of the user entry after which no other stands; there is none
/// where there is no user entry.
pub proof fn law_last_user_is_last(entries: Seq<HistoryEntry>, i: int)
    ensures
        0 <= i < entries.len() && entries[i] is User && (forall|k: int|
            i < k < entries.len() ==> !(#[trigger] entries[k] is User)) ==> last_user(entries)
            == Some(entries[i]->User_content@),
        (forall|k: int| 0 <= k < entries.len() ==> !(#[trigger] entries[k] is User)) ==> last_user(
            entries,
        ) is None,
    decreases entries.len(),
{
    if entries.len() > 0 {
        let n = entries.len() - 1;
        let head = entries.drop_last();
        law_last_user_is_last(head, i);
        assert(entries.last() == entries[n]);
        assert forall|k: int| 0 <= k < n implies head[k] == #[trigger] entries[k] by {}
        if 0 <= i < entries.len() && entries[i] is User && (forall|k: int|
            i < k < entries.len() ==> !(#[trigger] entries[k] is User)) {
            if i < n {
                assert(!(entries[n] is User));
                assert(forall|k: int| i < k < head.len() ==> !(#[trigger] head[k] is User));
            }
        }
        if forall|k: int| 0 <= k < entries.len() ==> !(#[trigger] entries[k] is User) {
            assert(!(entries[n] is User));
            assert(forall|k: int| 0 <= k < head.len() ==> !(#[trigger] head[k] is User));
        }
    }
}

/// Two entries say the same: they are of one kind, and all but their token estimates is equal.
pub open spec fn says_the_same(a: HistoryEntry, b: HistoryEntry) -> bool {
    match (a, b) {
        (
            HistoryEntry::System { content: x, .. },
            HistoryEntry::System { content: y, .. },
        ) => x == y,
        (HistoryEntry::User { content: x, .. }, HistoryEntry::User { content: y, .. }) => x == y,
        (
            HistoryEntry::Assistant { content: x, reasoning_content: r, tool_calls: c, .. },
            HistoryEntry::Assistant { content: y, reasoning_content: s, tool_calls: d, .. },
        ) => x == y && r == s && c == d,
        (
            HistoryEntry::Tool { tool_call_id: i, tool_name: m, content: x, .. },
            HistoryEntry::Tool { tool_call_id: j, tool_name: n, content: y, .. },
        ) => i == j && m == n && x == y,
        _ => false,
    }
}

/// Token accounting never touches what was said: after a report of the model every entry says
/// what it said before.
pub proof fn law_reports_keep_texts(
    entries: Seq<HistoryEntry>,
    input_tokens: Option<u64>,
    total_tokens: Option<u64>,
)
    ensures
        ({
            let after = after_report(entries, input_tokens, total_tokens);
            &&& after.len() == entries.len()
            &&& forall|k: int|
                0 <= k < entries.len() ==> says_the_same(#[trigger] after[k], entries[k])
        }),
{
}

/// A compaction loses nothing that was said: all the entries from before it stay in the file and
/// say what they said.
pub proof fn law_compaction_keeps_texts(
    before: Seq<HistoryEntry>,
    after: Seq<HistoryEntry>,
    summary: Seq<char>,
    resume_user: Option<String>,
)
    requires
        is_compaction_of(after, before, summary, resume_user),
    ensures
        after.len() > before.len(),
        forall|k: int| 0 <= k < before.len() ==> says_the_same(#[trigger] after[k], before[k]),
        after[before.len() as int] is System,
        has_text(after[before.len() as int]->System_content@, trimmed(summary)),
        resume_user matches Some(user) ==> after.len() == before.len() + 2 && after.last() is User
            && after.last()->User_content == user,
        resume_user is None ==> after.len() == before.len() + 1,
{
    law_summary_is_kept(summary);
}

/// The summary that the model returned is kept whole, after the line that marks it.
pub proof fn law_summary_is_kept(summary: Seq<char>)
    ensures
        ends_in(summary_text(summary), trimmed(summary)),
        has_text(summary_text(summary), trimmed(summary)),
        begins_with(summary_text(summary), "[history summary]"@),
{
    let t = summary_text(summary);
    let head = HISTORY_SUMMARY_PREFIX@ + "\n"@;
    let body = trimmed(summary);
    assert(t.subrange(t.len() - body.len(), t.len() as int) =~= body);
    assert(occurs_at(t, body, t.len() - body.len()));
    assert(t.subrange(0, HISTORY_SUMMARY_PREFIX@.len() as int) =~= HISTORY_SUMMARY_PREFIX@);
}

/// The entries from the last system entry on are active, or all of them where there is none.
pub proof fn law_active_from_last_system(entries: Seq<HistoryEntry>, i: int)
    ensures
        0 <= i < entries.len() && entries[i] is System && (forall|k: int|
            i < k < entries.len() ==> !(#[trigger] entries[k] is System)) ==> active(entries)
            == entries.skip(i),
        (forall|k: int| 0 <= k < entries.len() ==> !(#[trigger] entries[k] is System)) ==> active(
            entries,
        ) == entries,
{
    lemma_last_system(entries);
    if forall|k: int| 0 <= k < entries.len() ==> !(#[trigger] entries[k] is System) {
        assert(last_system(entries) is None);
        assert(entries.skip(0) =~= entries);
    }
}

/// A report settles the active usage: at the tokens that went in where they were reported, else
/// at the reported total; without a report it is at least the number of the active entries.
pub proof fn law_report_settles_usage(
    entries: Seq<HistoryEntry>,
    input_tokens: Option<u64>,
    total_tokens: Option<u64>,
)
    requires
        entries.len() > 0,
        entries.len() <= u64::MAX,
    ensures
        ({
            let used = token_sum(active(after_report(entries, input_tokens, total_tokens)));
            &&& input_tokens matches Some(n) ==> used == n
            &&& input_tokens is None ==> (total_tokens matches Some(n) ==> used == n)
            &&& input_tokens is None && total_tokens is None ==> used >= active(entries).len()
        }),
{
    law_usage_follows_report(entries, input_tokens, total_tokens);
}

/// The usage of entries is that of their parts together, and of one entry its estimate.
pub proof fn law_usage_adds_up(a: Seq<HistoryEntry>, b: Seq<HistoryEntry>)
    ensures
        token_sum(a + b) == token_sum(a) + token_sum(b),
        a.len() == 1 ==> token_sum(a) == a[0].tokens(),
        a.len() == 0 ==> token_sum(a) == 0,
{
    lemma_token_sum_split(a + b, a.len() as int);
    assert((a + b).take(a.len() as int) =~= a);
    assert((a + b).skip(a.len() as int) =~= b);
    if a.len() == 1 {
        assert(a.drop_last().len() == 0);
        assert(token_sum(a.drop_last()) == 0);
    }
}

/// The weight of entries is that of their parts together.
pub proof fn law_weight_adds_up(a: Seq<HistoryEntry>, b: Seq<HistoryEntry>)
    ensures
        total_weight(a + b) == total_weight(a) + total_weight(b),
        a.len() == 1 ==> total_weight(a) == a[0].weight_of(),
        a.len() == 0 ==> total_weight(a) == 0,
    decreases b.len(),
{
    if b.len() == 0 {
        assert(a + b =~= a);
    } else {
        law_weight_adds_up(a, b.drop_last());
        assert((a + b).drop_last() =~= a + b.drop_last());
    }
    if a.len() == 1 {
        assert(a.drop_last().len() == 0);
        assert(total_weight(a.drop_last()) == 0);
    }
}

/// The tokens of a report are shared out by weight: of two entries before the last one the
/// heavier gets no less, and a share is in proportion, rounded down.
pub proof fn law_shares_follow_weight(entries: Seq<HistoryEntry>, delta: u64, i: int, j: int)
    requires
        0 <= i < entries.len() - 1,
        0 <= j < entries.len() - 1,
    ensures
        entries[i].weight_of() <= entries[j].weight_of() ==> share_of(entries, delta as int, i)
            <= share_of(entries, delta as int, j),
        delta * entries[i].weight_of() <= u64::MAX ==> {
            let share = share_of(entries, delta as int, i);
            let due = delta * entries[i].weight_of();
            share * total_weight(entries) <= due < (share + 1) * total_weight(entries)
        },
{
    let w = total_weight(entries) as int;
    let (a, b) = (entries[i].weight_of() as int, entries[j].weight_of() as int);
    let d = delta as int;
    lemma_total_weight(entries);
    assert(w > 0);
    assert(d * a >= 0 && d * b >= 0) by (nonlinear_arith)
        requires
            d >= 0,
            a >= 0,
            b >= 0,
    ;
    if a <= b {
        assert(d * a <= d * b) by (nonlinear_arith)
            requires
                a <= b,
                d >= 0,
        ;
        let (x, y) = (sat_mul(d, a), sat_mul(d, b));
        assert(x / w <= y / w) by (nonlinear_arith)
            requires
                0 <= x <= y,
                w > 0,
        ;
    }
    let x = d * a;
    assert((x / w) * w <= x < (x / w + 1) * w) by (nonlinear_arith)
        requires
            x >= 0,
            w > 0,
    ;
}

/// The weight of what is said grows with its words: a text weighs as many as it has, and one at
/// least; the texts of an entry weigh what they weigh alone, and so do the names and arguments of
/// its calls.
pub proof fn law_weight_counts_words(text: Seq<char>, call: AssistantToolCall)
    ensures
        text_weight_of(text) >= 1,
        words(text).len() > 0 ==> text_weight_of(text) == words(text).len(),
        calls_weight(seq![call]) == text_weight_of(call.name@) + text_weight_of(call.arguments@),
{
    assert(seq![call].drop_last().len() == 0);
    assert(calls_weight(seq![call].drop_last()) == 0);
}

/// A history is compacted once four fifths of the limit are in use, and not before.
pub proof fn law_compaction_is_due_at_four_fifths(used: nat, token_limit: u64)
    requires
        token_limit * 4 <= u64::MAX,
    ensures
        used * 5 >= token_limit * 4 ==> used >= compaction_threshold(token_limit),
        used >= compaction_threshold(token_limit) ==> used * 5 + 4 >= token_limit * 4,
{
}

/// The totals of a session grow by what was reported; where no total was reported, by what went
/// in and came out.
pub proof fn law_totals_count_reports(
    before: HistoryFile,
    after: HistoryFile,
    input: u64,
    output: u64,
    total: u64,
)
    requires
        before.total_input_tokens + input <= u64::MAX,
        before.total_output_tokens + output <= u64::MAX,
        before.total_tokens + total <= u64::MAX,
        before.total_tokens + input + output <= u64::MAX,
    ensures
        after.counts_call(before, Some(input), Some(output), Some(total)) ==> {
            &&& after.total_input_tokens == before.total_input_tokens + input
            &&& after.total_output_tokens == before.total_output_tokens + output
            &&& after.total_tokens == before.total_tokens + total
        },
        after.counts_call(before, Some(input), Some(output), None) ==> after.total_tokens
            == before.total_tokens + input + output,
        after.counts_call(before, None, None, None) ==> after.total_tokens == before.total_tokens
            && after.total_input_tokens == before.total_input_tokens && after.total_output_tokens
            == before.total_output_tokens,
{
}

/// The models whose names begin with `gpt-5`, in any case and with space around, have the larger
/// context, and all others the smaller one.
pub proof fn law_gpt5_has_larger_context(model: Seq<char>)
    ensures
        model_limit(model) == if begins_with(lower(trimmed(model)), "gpt-5"@) {
            1_000_000u64
        } else {
            131_072u64
        },
{
}

/// An entry weighs as many as its content has words, and one at least; what the assistant said
/// weighs as its content, its reasoning and its calls do together. A new entry starts with four
/// tokens for each.
pub proof fn law_entries_weigh_their_words(entry: HistoryEntry, weight: nat)
    ensures
        entry is User && words(entry->User_content@).len() > 0 ==> entry.weight_of() == words(
            entry->User_content@,
        ).len(),
        entry is System && words(entry->System_content@).len() > 0 ==> entry.weight_of() == words(
            entry->System_content@,
        ).len(),
        entry is Tool && words(entry->Tool_content@).len() > 0 ==> entry.weight_of() == words(
            entry->Tool_content@,
        ).len(),
        entry is Assistant ==> entry.weight_of() == assistant_weight(
            entry->Assistant_content@,
            entry->Assistant_reasoning_content@,
            entry->Assistant_tool_calls@,
        ),
        entry is Assistant ==> entry.weight_of() == text_weight_of(entry->Assistant_content@)
            + text_weight_of(entry->Assistant_reasoning_content@) + calls_weight(
            entry->Assistant_tool_calls@,
        ),
        entry.weight_of() >= 1,
        weight * 4 <= u64::MAX ==> first_estimate(weight) == weight * 4,
        weight * 4 > u64::MAX ==> first_estimate(weight) == u64::MAX,
{
}

/// The calls of tools weigh what they weigh one by one.
pub proof fn law_calls_weigh_together(a: Seq<AssistantToolCall>, b: Seq<AssistantToolCall>)
    ensures
        calls_weight(a + b) == calls_weight(a) + calls_weight(b),
        a.len() == 0 ==> calls_weight(a) == 0,
    decreases b.len(),
{
    if b.len() == 0 {
        assert(a + b =~= a);
    } else {
        law_calls_weigh_together(a, b.drop_last());
        assert((a + b).drop_last() =~= a + b.drop_last());
    }
}

/// A summary and the text that follows it weigh as the entries do that hold them.
pub proof fn law_compactions_weigh_their_entries(
    before: Seq<HistoryEntry>,
    after: Seq<HistoryEntry>,
    summary: Seq<char>,
    resume_user: Option<String>,
)
    requires
        is_compaction_of(after, before, summary, resume_user),
    ensures
        compaction_weight(summary, resume_user) == total_weight(after.skip(before.len() as int)),
{
    let n = before.len() as int;
    let added = after.skip(n);
    if resume_user is Some {
        assert(added =~= seq![after[n]] + seq![after[n + 1]]);
        law_weight_adds_up(seq![after[n]], seq![after[n + 1]]);
        law_weight_adds_up(seq![after[n + 1]], Seq::empty());
    } else {
        assert(added =~= seq![after[n]]);
        law_weight_adds_up(seq![after[n]], Seq::empty());
    }
}

/// Where the model reported nothing, the active entries are taken to use four tokens for each
/// unit of their weight.
pub proof fn law_silent_usage_is_four_per_weight(entries: Seq<HistoryEntry>)
    requires
        entries.len() > 0,
        entries.len() <= u64::MAX,
        4 * total_weight(active(entries)) <= u64::MAX,
    ensures
        token_sum(active(after_report(entries, None, None))) == 4 * total_weight(active(entries)),
{
    law_usage_follows_report(entries, None, None);
    lemma_total_weight(active(entries));
}

/// Tokens that are handed out touch no text and no entry before the first that gets some.
pub proof fn law_distribution_keeps_texts(entries: Seq<HistoryEntry>, start: int, delta: u64)
    requires
        0 <= start <= entries.len(),
    ensures
        ({
            let after = distributed(entries, start, delta as int);
            &&& after.len() == entries.len()
            &&& forall|k: int| 0 <= k < start ==> #[trigger] after[k] == entries[k]
            &&& forall|k: int|
                0 <= k < entries.len() ==> says_the_same(#[trigger] after[k], entries[k])
        }),
{
}

} // verus!
