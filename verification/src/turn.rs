//! A turn: the steps from a text of the user to the end of what the model makes of it.

use vstd::prelude::*;

use crate::ansys::apdl::{
    candidate_in, holds_signal, law_candidates_are_command_streams, law_unfenced_reply_is_whole,
    validate_apdl_candidate, CandidateError,
};
use crate::conversation::{
    absorb_reply, finish_compaction, is_reply_taken, law_last_task_is_resumed,
    law_replies_join_at_the_end, law_texts_join_at_the_end, open_text, says_more, start_compaction,
    CompactionStart, ModelReply,
};
use crate::history::{
    active, after_report, assistant_weight, assistant_weight_fits, calls_weight,
    compaction_request, compaction_threshold, compaction_weight, compaction_weight_fits,
    is_compaction_of, law_compaction_keeps_texts, law_reports_keep_texts, says_the_same,
    summary_text, text_weight_of, token_sum, total_weight, AssistantToolCall, CompactionMode,
    HistoryFile,
};
use crate::messages::copy_calls;
use crate::number::{decimal, decimal_text};
use crate::text::{begins_with, has_text, inner_text, lemma_middle_occurs, trimmed};

verus! {

/// How many replies a turn of the conversation with the user may take.
pub const LOOP_LIMIT: usize = 64;

/// How many replies a repair may take.
pub const REPAIR_TRIES: usize = 8;

/// The error of a repair in which no reply was a command stream.
pub const REPAIR_EXHAUSTED: &'static str =
    "repair agent exceeded retry limit without returning APDL";

/// Who a reply in a repair is said to come from.
pub const REPAIR_SOURCE: &'static str = "repair agent";

/// What a turn is for.
#[derive(Debug, Clone, Copy, PartialEq, Eq, Structural)]
pub enum TurnKind {
    /// The model answers the user, and may call tools before it does.
    Agent,
    /// The model repairs a command stream, and has no tools.
    Repair,
}

impl TurnKind {
    /// How many replies the turn may take.
    pub open spec fn limit(self) -> nat {
        match self {
            TurnKind::Agent => LOOP_LIMIT as nat,
            TurnKind::Repair => REPAIR_TRIES as nat,
        }
    }

    /// The error of a turn that took all its replies.
    pub open spec fn exhausted(self) -> Seq<char> {
        match self {
            TurnKind::Agent => "agent loop exceeded "@ + decimal_text(LOOP_LIMIT as nat)
                + " steps without producing a final response"@,
            TurnKind::Repair => REPAIR_EXHAUSTED@,
        }
    }

    /// How many replies the turn may take.
    fn most_replies(&self) -> (r: usize)
        ensures
            r == self.limit(),
    {
        match self {
            TurnKind::Agent => LOOP_LIMIT,
            TurnKind::Repair => REPAIR_TRIES,
        }
    }

    /// Writes the error of a turn that took all its replies.
    fn describe_exhausted(&self) -> (r: String)
        ensures
            r@ == self.exhausted(),
    {
        match self {
            TurnKind::Agent => {
                let mut r = "agent loop exceeded ".to_owned();
                r.append(decimal(LOOP_LIMIT as u128).as_str());
                r.append(" steps without producing a final response");
                r
            },
            TurnKind::Repair => REPAIR_EXHAUSTED.to_owned(),
        }
    }
}

/// Where a turn stands.
#[derive(Debug)]
pub enum TurnPhase {
    /// A summary is awaited, after which this text of the user joins the history.
    SummaryFirst { text: String },
    /// This text joins the history next.
    TextNext { text: String },
    /// The model can be asked, once there is room.
    Ready,
    /// A summary is awaited, after which the user's open text is put back.
    Summary { resume_user: Option<String> },
    /// There is room, and the model can be asked.
    Compacted,
    /// A reply is awaited.
    Asked,
    /// The turn is over.
    Over,
}

/// A turn between two steps.
#[derive(Debug)]
pub struct Turn {
    pub kind: TurnKind,
    /// The context size by which the history is compacted.
    pub token_limit: u64,
    /// How many replies were taken.
    pub replies: usize,
    pub phase: TurnPhase,
}

/// What has to be done outside before the next step.
#[derive(Debug)]
pub enum TurnAction {
    /// Save the history, then [`Turn::proceed`].
    Save,
    /// Ask the model without tools, then [`Turn::take_summary`].
    AskSummary,
    /// Ask the model, then [`Turn::take_reply`].
    AskModel,
    /// Save the history, run these tools, add their results, save again, then
    /// [`Turn::proceed`].
    RunTools(Vec<AssistantToolCall>),
    /// Save the history: the model has answered.
    Finish,
    /// Save the history: this is the repaired command stream.
    Repaired(String),
    /// The turn failed, with this error.
    Fail(String),
    /// The history was left as it was: its token counts or weights do not fit their type.
    Overflow,
}

/// The active entries use too much of the limit.
pub open spec fn is_due(history: HistoryFile, token_limit: u64) -> bool {
    token_sum(active(history.entries@)) >= compaction_threshold(token_limit)
}

/// What the model is told after a reply that is no command stream.
pub open spec fn retry_request(error: CandidateError) -> Seq<char> {
    "Your previous reply was invalid for this repair step: "@ + error.message(REPAIR_SOURCE@)
        + ". Return only corrected ANSYS APDL text now. Do not call tools. Do not ask to inspect files. Do not explain."@
}

/// The history of `after` is that of `before` with the summary in a reply in place of the active
/// entries.
pub open spec fn is_compacted(
    after: HistoryFile,
    before: HistoryFile,
    reply: ModelReply,
    resume_user: Option<String>,
) -> bool {
    &&& after.counts_call(before, reply.input_tokens, reply.output_tokens, reply.total_tokens)
    &&& is_compaction_of(
        after.entries@,
        after_report(before.entries@, reply.input_tokens, reply.total_tokens),
        reply.content@,
        resume_user,
    )
}

/// The history of `after` is that of `before` with one more text of the user.
pub open spec fn is_told(after: HistoryFile, before: HistoryFile, text: Seq<char>) -> bool {
    after.same_header(before) && says_more(after.entries@, before.entries@, text)
}

/// The history of `after` is that of `before` with a reply, of which these are the tool calls
/// that are kept.
pub open spec fn is_answered(
    after: HistoryFile,
    before: HistoryFile,
    reply: ModelReply,
    calls: Seq<AssistantToolCall>,
) -> bool {
    &&& after.counts_call(before, reply.input_tokens, reply.output_tokens, reply.total_tokens)
    &&& is_reply_taken(after.entries@, before.entries@, reply, calls)
}

/// The weights of a history with a reply fit their type.
pub open spec fn reply_fits(
    history: HistoryFile,
    reply: ModelReply,
    calls: Seq<AssistantToolCall>,
) -> bool {
    history.weight_fits() && assistant_weight(
        reply.content@,
        reply.reasoning_content@,
        calls,
    ) <= u64::MAX
}

/// The weights of a history with a summary fit their type.
pub open spec fn summary_fits(
    history: HistoryFile,
    reply: ModelReply,
    resume_user: Option<String>,
) -> bool {
    history.weight_fits() && compaction_weight(reply.content@, resume_user) <= u64::MAX
}

impl Turn {
    /// No more replies were taken than may be, and none is awaited beyond them.
    pub open spec fn wf(self) -> bool {
        &&& self.replies <= self.kind.limit()
        &&& (self.phase is Summary || self.phase is Compacted || self.phase is Asked)
            ==> self.replies < self.kind.limit()
    }

    /// How far the turn is at most from its end, in steps.
    pub open spec fn distance(self) -> nat {
        let left = (5 * (self.kind.limit() - self.replies)) as nat;
        match self.phase {
            TurnPhase::SummaryFirst { .. } => left + 5,
            TurnPhase::TextNext { .. } => left + 4,
            TurnPhase::Ready => left + 3,
            TurnPhase::Summary { .. } => left + 2,
            TurnPhase::Compacted => left + 1,
            TurnPhase::Asked => left,
            TurnPhase::Over => 0,
        }
    }

    /// What a turn is for and its limit stay as they are.
    pub open spec fn goes_on_as(self, next: Turn) -> bool {
        next.wf() && next.kind == self.kind && next.token_limit == self.token_limit
            && next.distance() < self.distance()
    }

    /// The turn after it began with a text: the text joins the history where there is room, and is
    /// held back until a summary has made room where there is not.
    pub open spec fn is_started(
        self,
        action: TurnAction,
        before: HistoryFile,
        after: HistoryFile,
        text: String,
    ) -> bool {
        if !before.usage_fits() {
            &&& action is Overflow
            &&& self.phase is Over
            &&& after == before
        } else if is_due(before, self.token_limit) {
            &&& action is AskSummary
            &&& self.phase matches TurnPhase::SummaryFirst { text: t } && t == text
            &&& is_told(
                after,
                before,
                compaction_request(CompactionMode::BeforeTurn),
            )
        } else {
            &&& action is Save
            &&& self.phase is Ready
            &&& is_told(after, before, text@)
        }
    }

    /// Begins a turn with a text of the user, which joins the history once there is room.
    pub fn start(kind: TurnKind, token_limit: u64, history: &mut HistoryFile, text: String) -> (r: (
        Turn,
        TurnAction,
    ))
        ensures
            r.0.wf(),
            r.0.kind == kind,
            r.0.token_limit == token_limit,
            r.0.replies == 0,
            r.0.is_started(r.1, *old(history), *final(history), text),
    {
        if history.checked_active_token_usage().is_none() {
            return (
                Turn { kind, token_limit, replies: 0, phase: TurnPhase::Over },
                TurnAction::Overflow,
            );
        }
        match start_compaction(history, token_limit, CompactionMode::BeforeTurn) {
            CompactionStart::Ask { .. } => (
                Turn { kind, token_limit, replies: 0, phase: TurnPhase::SummaryFirst { text } },
                TurnAction::AskSummary,
            ),
            CompactionStart::NotNeeded => {
                let ghost before = history.entries@;
                history.push_user(text);
                proof {
                    assert(history.entries@.drop_last() =~= before);
                }
                (Turn { kind, token_limit, replies: 0, phase: TurnPhase::Ready }, TurnAction::Save)
            },
        }
    }

    /// A turn that goes on from the history as it is; it begins with [`Turn::proceed`].
    pub fn resume(kind: TurnKind, token_limit: u64) -> (r: Turn)
        ensures
            r.wf(),
            r.kind == kind,
            r.token_limit == token_limit,
            r.replies == 0,
            r.phase is Ready,
    {
        Turn { kind, token_limit, replies: 0, phase: TurnPhase::Ready }
    }

    /// The turn after a step: a text that comes next has joined the history, or the model is asked,
    /// for a summary where there is no room.
    pub open spec fn is_proceeded(
        self,
        next: Turn,
        action: TurnAction,
        before: HistoryFile,
        after: HistoryFile,
    ) -> bool {
        if let TurnPhase::TextNext { text } = self.phase {
            &&& action is Save
            &&& next.phase is Ready
            &&& is_told(after, before, text@)
        } else if self.phase is Compacted {
            &&& action is AskModel
            &&& next.phase is Asked
            &&& after == before
        } else if self.replies == self.kind.limit() {
            &&& action matches TurnAction::Fail(message) && message@ == self.kind.exhausted()
            &&& next.phase is Over
            &&& after == before
        } else if !before.usage_fits() {
            &&& action is Overflow
            &&& next.phase is Over
            &&& after == before
        } else if is_due(before, self.token_limit) {
            &&& action is AskSummary
            &&& next.phase matches TurnPhase::Summary { resume_user } && inner_text(resume_user)
                == open_text(before.entries@, CompactionMode::MidTurn)
            &&& is_told(
                after,
                before,
                compaction_request(CompactionMode::MidTurn),
            )
        } else {
            &&& action is AskModel
            &&& next.phase is Asked
            &&& after == before
        }
    }

    /// Goes on. A text that comes next joins the history, which is then saved. Else the model is
    /// asked: for a summary where there is no room, and for a reply where there is; or the turn
    /// fails where all the replies were taken.
    pub fn proceed(self, history: &mut HistoryFile) -> (r: (Turn, TurnAction))
        requires
            self.wf(),
            self.phase is TextNext || self.phase is Ready || self.phase is Compacted,
        ensures
            self.goes_on_as(r.0),
            r.0.replies == self.replies,
            self.is_proceeded(r.0, r.1, *old(history), *final(history)),
    {
        let kind = self.kind;
        let token_limit: u64 = self.token_limit;
        let replies: usize = self.replies;
        match self.phase {
            TurnPhase::TextNext { text } => {
                history.push_user(text);
                proof {
                    assert(history.entries@.drop_last() =~= old(history).entries@);
                }
                return (
                    Turn { kind, token_limit, replies, phase: TurnPhase::Ready },
                    TurnAction::Save,
                );
            },
            TurnPhase::Compacted => {
                return (
                    Turn { kind, token_limit, replies, phase: TurnPhase::Asked },
                    TurnAction::AskModel,
                );
            },
            _ => {},
        }
        if replies >= kind.most_replies() {
            return (
                Turn { kind, token_limit, replies, phase: TurnPhase::Over },
                TurnAction::Fail(kind.describe_exhausted()),
            );
        }
        if history.checked_active_token_usage().is_none() {
            return (
                Turn { kind, token_limit, replies, phase: TurnPhase::Over },
                TurnAction::Overflow,
            );
        }
        match start_compaction(history, token_limit, CompactionMode::MidTurn) {
            CompactionStart::Ask { resume_user } => (
                Turn { kind, token_limit, replies, phase: TurnPhase::Summary { resume_user } },
                TurnAction::AskSummary,
            ),
            CompactionStart::NotNeeded => (
                Turn { kind, token_limit, replies, phase: TurnPhase::Asked },
                TurnAction::AskModel,
            ),
        }
    }

    /// The turn after a summary, which has replaced the active entries.
    pub open spec fn is_summarized(
        self,
        next: Turn,
        action: TurnAction,
        before: HistoryFile,
        after: HistoryFile,
        reply: ModelReply,
    ) -> bool {
        match self.phase {
            TurnPhase::SummaryFirst { text } => if summary_fits(before, reply, None) {
                &&& action is Save
                &&& next.phase matches TurnPhase::TextNext { text: t } && t == text
                &&& is_compacted(after, before, reply, None)
            } else {
                &&& action is Overflow
                &&& next.phase is Over
                &&& after == before
            },
            TurnPhase::Summary { resume_user } => if summary_fits(
                before,
                reply,
                resume_user,
            ) {
                &&& action is Save
                &&& next.phase is Compacted
                &&& is_compacted(after, before, reply, resume_user)
            } else {
                &&& action is Overflow
                &&& next.phase is Over
                &&& after == before
            },
            _ => false,
        }
    }

    /// Takes the summary that was asked for: it replaces the active entries, and the user's open
    /// text follows it. The text that a turn began with comes next, once this is saved.
    pub fn take_summary(self, history: &mut HistoryFile, reply: ModelReply) -> (r: (
        Turn,
        TurnAction,
    ))
        requires
            self.wf(),
            self.phase is SummaryFirst || self.phase is Summary,
        ensures
            self.goes_on_as(r.0),
            r.0.replies == self.replies,
            self.is_summarized(r.0, r.1, *old(history), *final(history), reply),
    {
        let kind = self.kind;
        let token_limit: u64 = self.token_limit;
        let replies: usize = self.replies;
        let (resume_user, phase): (Option<String>, TurnPhase) = match self.phase {
            TurnPhase::SummaryFirst { text } => (None, TurnPhase::TextNext { text }),
            TurnPhase::Summary { resume_user } => (resume_user, TurnPhase::Compacted),
            _ => (None, TurnPhase::Over),
        };
        if !history.active_weight_fits() || !compaction_weight_fits(&reply.content, &resume_user) {
            return (
                Turn { kind, token_limit, replies, phase: TurnPhase::Over },
                TurnAction::Overflow,
            );
        }
        finish_compaction(history, reply, resume_user);
        (Turn { kind, token_limit, replies, phase }, TurnAction::Save)
    }

    /// The turn after a reply, whose tools are run.
    pub open spec fn is_replied(
        self,
        next: Turn,
        action: TurnAction,
        before: HistoryFile,
        after: HistoryFile,
        reply: ModelReply,
    ) -> bool {
        if !reply_fits(before, reply, reply.tool_calls@) {
            &&& action is Overflow
            &&& next.phase is Over
            &&& after == before
        } else {
            &&& next.replies == self.replies + 1
            &&& is_answered(after, before, reply, reply.tool_calls@)
            &&& if reply.tool_calls@.len() == 0 {
                action is Finish && next.phase is Over
            } else {
                &&& action matches TurnAction::RunTools(calls) && calls@ == reply.tool_calls@
                &&& next.phase is Ready
            }
        }
    }

    /// Takes a reply in a turn with tools: it joins the history, and its tools are run; without
    /// tools it ends the turn.
    pub fn take_reply(self, history: &mut HistoryFile, reply: ModelReply) -> (r: (Turn, TurnAction))
        requires
            self.wf(),
            self.kind is Agent,
            self.phase is Asked,
        ensures
            self.goes_on_as(r.0),
            self.is_replied(r.0, r.1, *old(history), *final(history), reply),
    {
        let kind = self.kind;
        let token_limit: u64 = self.token_limit;
        if !history.active_weight_fits() || !assistant_weight_fits(
            &reply.content,
            &reply.reasoning_content,
            &reply.tool_calls,
        ) {
            return (
                Turn { kind, token_limit, replies: self.replies, phase: TurnPhase::Over },
                TurnAction::Overflow,
            );
        }
        let replies: usize = self.replies + 1;
        let calls = copy_calls(&reply.tool_calls);
        absorb_reply(
            history,
            reply.content,
            reply.reasoning_content,
            reply.tool_calls,
            reply.input_tokens,
            reply.output_tokens,
            reply.total_tokens,
        );
        proof {
            assert(history.entries@.drop_last() =~= after_report(
                old(history).entries@,
                reply.input_tokens,
                reply.total_tokens,
            ));
        }
        if calls.len() == 0 {
            (Turn { kind, token_limit, replies, phase: TurnPhase::Over }, TurnAction::Finish)
        } else {
            (
                Turn { kind, token_limit, replies, phase: TurnPhase::Ready },
                TurnAction::RunTools(calls),
            )
        }
    }

    /// The turn after a reply in a repair, which ends it where it is a command stream.
    pub open spec fn is_repaired(
        self,
        next: Turn,
        action: TurnAction,
        before: HistoryFile,
        after: HistoryFile,
        reply: ModelReply,
    ) -> bool {
        if !reply_fits(before, reply, Seq::empty()) {
            &&& action is Overflow
            &&& next.phase is Over
            &&& after == before
        } else {
            &&& next.replies == self.replies + 1
            &&& is_answered(after, before, reply, Seq::empty())
            &&& match candidate_in(reply.content@) {
                Ok(candidate) => {
                    &&& action matches TurnAction::Repaired(apdl) && apdl@ == candidate
                    &&& next.phase is Over
                },
                Err(error) => {
                    &&& action is Save
                    &&& next.phase matches TurnPhase::TextNext { text } && text@
                        == retry_request(error)
                },
            }
        }
    }

    /// Takes a reply in a repair: it joins the history without tool calls. A command stream ends
    /// the turn; after any other reply the model is told next, once this is saved, to try again.
    pub fn take_repair(self, history: &mut HistoryFile, reply: ModelReply) -> (r: (
        Turn,
        TurnAction,
    ))
        requires
            self.wf(),
            self.kind is Repair,
            self.phase is Asked,
        ensures
            self.goes_on_as(r.0),
            self.is_repaired(r.0, r.1, *old(history), *final(history), reply),
    {
        let kind = self.kind;
        let token_limit: u64 = self.token_limit;
        let no_calls: Vec<AssistantToolCall> = Vec::new();
        if !history.active_weight_fits() || !assistant_weight_fits(
            &reply.content,
            &reply.reasoning_content,
            &no_calls,
        ) {
            return (
                Turn { kind, token_limit, replies: self.replies, phase: TurnPhase::Over },
                TurnAction::Overflow,
            );
        }
        let replies: usize = self.replies + 1;
        let candidate = validate_apdl_candidate(&reply.content);
        absorb_reply(
            history,
            reply.content,
            reply.reasoning_content,
            no_calls,
            reply.input_tokens,
            reply.output_tokens,
            reply.total_tokens,
        );
        proof {
            assert(history.entries@.drop_last() =~= after_report(
                old(history).entries@,
                reply.input_tokens,
                reply.total_tokens,
            ));
        }
        match candidate {
            Ok(apdl) => (
                Turn { kind, token_limit, replies, phase: TurnPhase::Over },
                TurnAction::Repaired(apdl),
            ),
            Err(error) => {
                let mut text = "Your previous reply was invalid for this repair step: ".to_owned();
                text.append(error.describe(REPAIR_SOURCE).as_str());
                text.append(
                    ". Return only corrected ANSYS APDL text now. Do not call tools. Do not ask to inspect files. Do not explain.",
                );
                (
                    Turn { kind, token_limit, replies, phase: TurnPhase::TextNext { text } },
                    TurnAction::Save,
                )
            },
        }
    }
}

/// A turn ends: however it goes, it takes no more steps than five for each reply that it may
/// take, and five more.
pub proof fn law_turns_end(turns: Seq<Turn>)
    requires
        turns.len() > 0,
        turns[0].wf(),
        forall|i: int|
            0 <= i < turns.len() - 1 ==> (#[trigger] turns[i]).goes_on_as(turns[i + 1]),
    ensures
        turns.len() - 1 <= 5 * turns[0].kind.limit() + 5,
        turns.last().replies <= turns[0].kind.limit(),
{
    lemma_distance_falls(turns, turns.len() - 1);
}

proof fn lemma_distance_falls(turns: Seq<Turn>, i: int)
    requires
        0 <= i < turns.len(),
        turns[0].wf(),
        forall|k: int|
            0 <= k < turns.len() - 1 ==> (#[trigger] turns[k]).goes_on_as(turns[k + 1]),
    ensures
        turns[i].wf(),
        turns[i].kind == turns[0].kind,
        turns[i].distance() + i <= turns[0].distance(),
    decreases i,
{
    if i > 0 {
        lemma_distance_falls(turns, i - 1);
        assert(turns[i - 1].goes_on_as(turns[i - 1 + 1]));
    }
}

/// A turn may take 64 replies, a repair 8.
pub proof fn law_limits_of_turns()
    ensures
        TurnKind::Agent.limit() == 64,
        TurnKind::Repair.limit() == 8,
        has_text(TurnKind::Agent.exhausted(), "exceeded 64 steps"@),
{
    reveal_strlit("exceeded 64 steps");
    reveal_strlit("agent loop exceeded ");
    reveal_strlit(" steps without producing a final response");
    reveal_with_fuel(decimal_text, 3);
    let t = TurnKind::Agent.exhausted();
    let part = "exceeded 64 steps"@;
    assert(decimal_text(64) =~= seq!['6', '4']);
    let before = "agent loop "@;
    reveal_strlit("agent loop ");
    let after = " steps without producing a final response"@.skip(6);
    assert(t =~= before + part + after);
    lemma_middle_occurs(before, part, after);
}

/// A history with one more text of the user: nothing that was in it is touched, the text is the
/// content of its last entry, and no tokens are counted.
pub proof fn law_told_histories_only_grow(
    after: HistoryFile,
    before: HistoryFile,
    text: Seq<char>,
)
    requires
        is_told(after, before, text),
    ensures
        after.entries@.len() == before.entries@.len() + 1,
        after.entries@.last() is User,
        after.entries@.last()->User_content@ == text,
        forall|k: int|
            0 <= k < before.entries@.len() ==> #[trigger] after.entries@[k] == before.entries@[k],
        after.session_id == before.session_id,
        after.workspace_root == before.workspace_root,
        after.total_tokens == before.total_tokens,
        after.total_input_tokens == before.total_input_tokens,
        after.total_output_tokens == before.total_output_tokens,
{
    law_texts_join_at_the_end(after.entries@, before.entries@, text);
}

/// However a turn begins, its text is not lost: it is the last thing in the history, or it waits
/// for the summary that makes room for it. Nothing that was in the history is touched.
pub proof fn law_first_text_is_not_lost(
    turn: Turn,
    action: TurnAction,
    before: HistoryFile,
    after: HistoryFile,
    text: String,
)
    requires
        turn.is_started(action, before, after, text),
        before.usage_fits(),
    ensures
        action is Save || action is AskSummary,
        after.entries@.len() == before.entries@.len() + 1,
        after.entries@.last() is User,
        forall|k: int|
            0 <= k < before.entries@.len() ==> #[trigger] after.entries@[k] == before.entries@[k],
        action is Save ==> turn.phase is Ready && after.entries@.last()->User_content@ == text@,
        action is AskSummary ==> turn.phase is SummaryFirst && turn.phase->SummaryFirst_text
            == text,
        action is AskSummary <==> token_sum(active(before.entries@)) >= compaction_threshold(
            turn.token_limit,
        ),
{
    if action is Save {
        law_texts_join_at_the_end(after.entries@, before.entries@, text@);
    } else {
        law_texts_join_at_the_end(
            after.entries@,
            before.entries@,
            compaction_request(CompactionMode::BeforeTurn),
        );
    }
}

/// A turn goes on as it must: a text that comes next joins the history; the model is asked for a
/// reply only where there is room or room was just made, and only while replies may be taken; and
/// where a summary is asked for, the last text of the user is kept to be put back.
pub proof fn law_turn_goes_on(
    turn: Turn,
    next: Turn,
    action: TurnAction,
    before: HistoryFile,
    after: HistoryFile,
    i: int,
)
    requires
        turn.phase is TextNext || turn.phase is Ready || turn.phase is Compacted,
        turn.is_proceeded(next, action, before, after),
    ensures
        turn.phase is TextNext ==> {
            &&& action is Save && next.phase is Ready
            &&& after.entries@.last() is User
            &&& after.entries@.last()->User_content@ == turn.phase->TextNext_text@
        },
        action is AskModel <==> turn.phase is Compacted || {
            &&& turn.phase is Ready
            &&& turn.replies != turn.kind.limit()
            &&& before.usage_fits()
            &&& token_sum(active(before.entries@)) < compaction_threshold(turn.token_limit)
        },
        action is AskModel ==> next.phase is Asked && after == before,
        action is Fail <==> turn.phase is Ready && turn.replies == turn.kind.limit(),
        action is AskSummary ==> {
            &&& next.phase is Summary
            &&& 0 <= i < before.entries@.len() && before.entries@[i] is User && (forall|k: int|
                i < k < before.entries@.len() ==> !(#[trigger] before.entries@[k] is User))
                ==> inner_text(next.phase->resume_user) == Some(before.entries@[i]->User_content@)
        },
        action is Overflow ==> after == before,
        forall|k: int|
            0 <= k < before.entries@.len() ==> #[trigger] after.entries@[k] == before.entries@[k],
{
    law_last_task_is_resumed(before.entries@, i);
    if turn.phase is TextNext {
        law_texts_join_at_the_end(
            after.entries@,
            before.entries@,
            turn.phase->TextNext_text@,
        );
    } else if action is AskSummary {
        law_texts_join_at_the_end(
            after.entries@,
            before.entries@,
            compaction_request(CompactionMode::MidTurn),
        );
    }
}

/// A summary loses nothing: every entry from before it stays in the file and says what it said,
/// the summary follows whole, and the text that the turn kept follows it or comes next.
pub proof fn law_summaries_lose_nothing(
    turn: Turn,
    next: Turn,
    action: TurnAction,
    before: HistoryFile,
    after: HistoryFile,
    reply: ModelReply,
)
    requires
        turn.is_summarized(next, action, before, after, reply),
    ensures
        action is Save || action is Overflow,
        action is Overflow ==> after == before,
        action is Save ==> {
            let n = before.entries@.len() as int;
            &&& after.entries@.len() > n
            &&& forall|k: int|
                0 <= k < n ==> says_the_same(#[trigger] after.entries@[k], before.entries@[k])
            &&& after.entries@[n] is System
            &&& has_text(after.entries@[n]->System_content@, trimmed(reply.content@))
        },
        action is Save && turn.phase is SummaryFirst ==> {
            &&& next.phase is TextNext
            &&& next.phase->TextNext_text == turn.phase->SummaryFirst_text
            &&& after.entries@.last() is System
        },
        action is Save && turn.phase is Summary ==> next.phase is Compacted,
        action is Save && turn.phase is Summary && turn.phase->resume_user is Some ==> {
            &&& after.entries@.last() is User
            &&& after.entries@.last()->User_content == turn.phase->resume_user->0
        },
{
    if action is Save {
        let resume_user = match turn.phase {
            TurnPhase::Summary { resume_user } => resume_user,
            _ => None,
        };
        let asked = after_report(before.entries@, reply.input_tokens, reply.total_tokens);
        law_reports_keep_texts(before.entries@, reply.input_tokens, reply.total_tokens);
        law_compaction_keeps_texts(asked, after.entries@, reply.content@, resume_user);
        assert forall|k: int| 0 <= k < before.entries@.len() implies says_the_same(
            #[trigger] after.entries@[k],
            before.entries@[k],
        ) by {
            assert(says_the_same(after.entries@[k], asked[k]));
            assert(says_the_same(asked[k], before.entries@[k]));
        }
    }
}

/// A reply joins the history whole, with all its tool calls, and every one of them is run. The
/// turn ends with a reply that calls no tool, and with no other.
pub proof fn law_replies_are_kept_and_calls_run(
    turn: Turn,
    next: Turn,
    action: TurnAction,
    before: HistoryFile,
    after: HistoryFile,
    reply: ModelReply,
)
    requires
        turn.is_replied(next, action, before, after, reply),
    ensures
        action is Finish || action is RunTools || action is Overflow,
        action is Overflow ==> after == before,
        !(action is Overflow) ==> {
            let last = after.entries@.last();
            &&& after.entries@.len() == before.entries@.len() + 1
            &&& last is Assistant
            &&& last->Assistant_content@ == reply.content@
            &&& last->Assistant_reasoning_content@ == reply.reasoning_content@
            &&& last->Assistant_tool_calls@ == reply.tool_calls@
            &&& forall|k: int|
                0 <= k < before.entries@.len() ==> says_the_same(
                    #[trigger] after.entries@[k],
                    before.entries@[k],
                )
            &&& next.replies == turn.replies + 1
            &&& action is Finish <==> reply.tool_calls@.len() == 0
        },
        action is Finish ==> next.phase is Over,
        action is RunTools ==> next.phase is Ready && action->RunTools_0@ == reply.tool_calls@,
{
    if !(action is Overflow) {
        law_replies_join_at_the_end(
            after.entries@,
            before.entries@,
            reply,
            reply.tool_calls@,
        );
    }
}

/// A repair ends with a command stream, and with nothing else: what it returns is the model's
/// reply, all of it where no fence stands around it. After any other reply the model is told what
/// was wrong with it. Either way the reply joins the history whole.
pub proof fn law_repairs_end_with_command_streams(
    turn: Turn,
    next: Turn,
    action: TurnAction,
    before: HistoryFile,
    after: HistoryFile,
    reply: ModelReply,
)
    requires
        turn.is_repaired(next, action, before, after, reply),
    ensures
        action is Repaired || action is Save || action is Overflow,
        action is Overflow ==> after == before,
        action is Repaired ==> {
            &&& next.phase is Over
            &&& holds_signal(action->Repaired_0@)
            &&& !begins_with(trimmed(reply.content@), "```"@) ==> action->Repaired_0@ == trimmed(
                reply.content@,
            )
        },
        action is Save ==> {
            &&& next.phase is TextNext
            &&& candidate_in(reply.content@) is Err
            &&& has_text(
                next.phase->TextNext_text@,
                candidate_in(reply.content@)->Err_0.message("repair agent"@),
            )
        },
        !(action is Overflow) ==> {
            let last = after.entries@.last();
            &&& after.entries@.len() == before.entries@.len() + 1
            &&& last is Assistant
            &&& last->Assistant_content@ == reply.content@
            &&& last->Assistant_tool_calls@.len() == 0
            &&& forall|k: int|
                0 <= k < before.entries@.len() ==> says_the_same(
                    #[trigger] after.entries@[k],
                    before.entries@[k],
                )
            &&& next.replies == turn.replies + 1
        },
{
    if !(action is Overflow) {
        law_replies_join_at_the_end(after.entries@, before.entries@, reply, Seq::empty());
    }
    law_candidates_are_command_streams(reply.content@);
    if action is Repaired {
        if !begins_with(trimmed(reply.content@), "```"@) {
            law_unfenced_reply_is_whole(reply.content@);
        }
    }
    if action is Save {
        law_retries_tell_error(candidate_in(reply.content@)->Err_0);
    }
}

/// The model is told which of the three things was wrong with its reply, and to return a command
/// stream and nothing else.
pub proof fn law_retries_tell_error(error: CandidateError)
    ensures
        has_text(retry_request(error), error.message("repair agent"@)),
        begins_with(
            retry_request(error),
            "Your previous reply was invalid for this repair step: "@,
        ),
        has_text(retry_request(error), "Return only corrected ANSYS APDL text now."@),
        error is Empty ==> has_text(retry_request(error), " returned empty APDL"@),
        error is Transcript ==> has_text(
            retry_request(error),
            " returned tool transcript / natural-language text instead of APDL"@,
        ),
        error is NotApdl ==> has_text(retry_request(error), " did not look like ANSYS APDL"@),
{
    let open = "Your previous reply was invalid for this repair step: "@;
    let close =
        ". Return only corrected ANSYS APDL text now. Do not call tools. Do not ask to inspect files. Do not explain."@;
    let t = retry_request(error);
    let message = error.message("repair agent"@);
    lemma_middle_occurs(open, message, close);
    assert(t.subrange(0, open.len() as int) =~= open);
    reveal_strlit(
        ". Return only corrected ANSYS APDL text now. Do not call tools. Do not ask to inspect files. Do not explain.",
    );
    reveal_strlit("Return only corrected ANSYS APDL text now.");
    let part = "Return only corrected ANSYS APDL text now."@;
    let n = part.len() as int;
    assert(close.subrange(2, 2 + n) =~= part);
    assert(t =~= (open + message + close.take(2)) + part + close.skip(2 + n));
    lemma_middle_occurs(open + message + close.take(2), part, close.skip(2 + n));
    let what = match error {
        CandidateError::Empty => " returned empty APDL"@,
        CandidateError::Transcript =>
            " returned tool transcript / natural-language text instead of APDL"@,
        CandidateError::NotApdl => " did not look like ANSYS APDL"@,
    };
    assert(t =~= (open + "repair agent"@) + what + close);
    lemma_middle_occurs(open + "repair agent"@, what, close);
}

/// Nothing is refused but what cannot be counted: a reply or a summary is taken if and only if the
/// weight of the active entries and its own each fit 64 bits, however long it is.
pub proof fn law_only_uncountable_is_refused(
    history: HistoryFile,
    reply: ModelReply,
    calls: Seq<AssistantToolCall>,
    resume_user: Option<String>,
)
    ensures
        history.usage_fits() <==> token_sum(active(history.entries@)) <= 0xffff_ffff_ffff_ffff,
        reply_fits(history, reply, calls) <==> {
            &&& total_weight(active(history.entries@)) <= 0xffff_ffff_ffff_ffff
            &&& text_weight_of(reply.content@) + text_weight_of(reply.reasoning_content@)
                + calls_weight(calls) <= 0xffff_ffff_ffff_ffff
        },
        summary_fits(history, reply, resume_user) <==> {
            &&& total_weight(active(history.entries@)) <= 0xffff_ffff_ffff_ffff
            &&& text_weight_of(summary_text(reply.content@)) + (if resume_user is Some {
                text_weight_of(resume_user->0@)
            } else {
                0
            }) <= 0xffff_ffff_ffff_ffff
        },
{
}

} // verus!
