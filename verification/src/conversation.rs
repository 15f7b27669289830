//! The steps of a conversation with a model: its replies, and the compaction of its history.

use vstd::prelude::*;

use crate::history::{
    active, after_report, assistant_weight, compaction_request, compaction_threshold,
    compaction_weight, first_estimate, is_compaction_of, last_user, law_last_user_is_last,
    law_reports_keep_texts, law_summary_is_kept, says_the_same, text_weight_of, token_sum,
    AssistantToolCall, CompactionMode, HistoryEntry, HistoryFile,
};
use crate::text::{has_text, inner_text, is_blank, trim, trimmed};
use crate::ui::{role_prefix, role_prefix_of, COLOR_GREEN};

verus! {

/// A reply of the model.
#[derive(Debug)]
pub struct ModelReply {
    pub content: String,
    pub reasoning_content: String,
    pub tool_calls: Vec<AssistantToolCall>,
    pub input_tokens: Option<u64>,
    pub output_tokens: Option<u64>,
    pub total_tokens: Option<u64>,
}

/// Whether a history is compacted now.
#[derive(Debug)]
pub enum CompactionStart {
    /// There is room enough.
    NotNeeded,
    /// The model is asked for a summary, after which the user's open text is put back.
    Ask { resume_user: Option<String> },
}

/// `after` is `before` with one more user entry, that says `text`.
pub open spec fn says_more(
    after: Seq<HistoryEntry>,
    before: Seq<HistoryEntry>,
    text: Seq<char>,
) -> bool {
    &&& after.len() == before.len() + 1
    &&& after.drop_last() == before
    &&& after.last() matches HistoryEntry::User { content, estimated_tokens } && content@ == text
        && estimated_tokens == first_estimate(text_weight_of(text))
}

/// The user's text that is still open when a history is compacted.
pub open spec fn open_text(entries: Seq<HistoryEntry>, mode: CompactionMode) -> Option<Seq<char>> {
    match mode {
        CompactionMode::BeforeTurn => None,
        CompactionMode::MidTurn => last_user(entries),
    }
}

/// Begins a compaction where the active entries use too much of the limit: the request for the
/// summary joins the history.
pub fn start_compaction(history: &mut HistoryFile, token_limit: u64, mode: CompactionMode) -> (r:
    CompactionStart)
    requires
        old(history).usage_fits(),
    ensures
        r is Ask <==> token_sum(active(old(history).entries@)) >= compaction_threshold(
            token_limit,
        ),
        r is NotNeeded ==> *final(history) == *old(history),
        r matches CompactionStart::Ask { resume_user } ==> {
            &&& inner_text(resume_user) == open_text(old(history).entries@, mode)
            &&& final(history).same_header(*old(history))
            &&& says_more(
                final(history).entries@,
                old(history).entries@,
                compaction_request(mode),
            )
        },
{
    if !history.needs_compaction(token_limit) {
        return CompactionStart::NotNeeded;
    }
    let resume_user = match mode {
        CompactionMode::MidTurn => history.last_user_content(),
        CompactionMode::BeforeTurn => None,
    };
    let request = history.compaction_prompt(mode);
    let ghost before = history.entries@;
    history.push_user(request);
    proof {
        assert(history.entries@.drop_last() =~= before);
    }
    CompactionStart::Ask { resume_user }
}

/// Ends a compaction with the summary that the model returned.
pub fn finish_compaction(history: &mut HistoryFile, reply: ModelReply, resume_user: Option<String>)
    requires
        old(history).weight_fits(),
        compaction_weight(reply.content@, resume_user) <= u64::MAX,
    ensures
        final(history).counts_call(
            *old(history),
            reply.input_tokens,
            reply.output_tokens,
            reply.total_tokens,
        ),
        is_compaction_of(
            final(history).entries@,
            after_report(old(history).entries@, reply.input_tokens, reply.total_tokens),
            reply.content@,
            resume_user,
        ),
{
    history.note_api_usage(reply.input_tokens, reply.output_tokens, reply.total_tokens);
    history.apply_compaction(reply.content, resume_user);
}

/// Takes a reply into the history.
pub fn absorb_reply(
    history: &mut HistoryFile,
    content: String,
    reasoning_content: String,
    tool_calls: Vec<AssistantToolCall>,
    input_tokens: Option<u64>,
    output_tokens: Option<u64>,
    total_tokens: Option<u64>,
)
    requires
        old(history).weight_fits(),
        assistant_weight(content@, reasoning_content@, tool_calls@) <= u64::MAX,
    ensures
        final(history).counts_call(*old(history), input_tokens, output_tokens, total_tokens),
        final(history).entries@ == after_report(
            old(history).entries@,
            input_tokens,
            total_tokens,
        ).push(
            (HistoryEntry::Assistant {
                content,
                reasoning_content,
                tool_calls,
                estimated_tokens: first_estimate(
                    assistant_weight(content@, reasoning_content@, tool_calls@),
                ),
            }),
        ),
{
    history.note_api_usage(input_tokens, output_tokens, total_tokens);
    history.push_assistant(content, reasoning_content, tool_calls);
}

/// `after` is `before` with the reported usage spread over it, and with the reply, of which
/// these are the tool calls that are kept.
pub open spec fn is_reply_taken(
    after: Seq<HistoryEntry>,
    before: Seq<HistoryEntry>,
    reply: ModelReply,
    calls: Seq<AssistantToolCall>,
) -> bool {
    &&& after.len() > 0
    &&& after.drop_last() == after_report(before, reply.input_tokens, reply.total_tokens)
    &&& after.last() matches HistoryEntry::Assistant {
        content,
        reasoning_content,
        tool_calls,
        estimated_tokens,
    } && {
        &&& content == reply.content
        &&& reasoning_content == reply.reasoning_content
        &&& tool_calls@ == calls
        &&& estimated_tokens == first_estimate(
            assistant_weight(reply.content@, reply.reasoning_content@, calls),
        )
    }
}

/// What is shown of a reply: nothing where it is blank.
pub fn shown_reply(content: &str) -> (r: Option<String>)
    ensures
        r is Some <==> trimmed(content@).len() > 0,
        r is Some ==> r->0@ == role_prefix_of("assistant"@, COLOR_GREEN@) + trimmed(content@),
{
    if is_blank(content) {
        return None;
    }
    let mut r = role_prefix("assistant", COLOR_GREEN);
    r.append(trim(content).as_str());
    Some(r)
}

/// When a history is compacted within a turn, the text that is put back is that of the user entry
/// after which no other stands; where there is no user entry, and before a turn, none is.
pub proof fn law_last_task_is_resumed(entries: Seq<HistoryEntry>, i: int)
    ensures
        0 <= i < entries.len() && entries[i] is User && (forall|k: int|
            i < k < entries.len() ==> !(#[trigger] entries[k] is User)) ==> open_text(
            entries,
            CompactionMode::MidTurn,
        ) == Some(entries[i]->User_content@),
        (forall|k: int| 0 <= k < entries.len() ==> !(#[trigger] entries[k] is User)) ==> open_text(
            entries,
            CompactionMode::MidTurn,
        ) is None,
        open_text(entries, CompactionMode::BeforeTurn) is None,
{
    law_last_user_is_last(entries, i);
}

/// A compaction within a turn keeps the task: after it the model is shown the summary and then
/// the text of the user entry after which no other stood, and nothing after that.
pub proof fn law_compaction_keeps_task(
    before: Seq<HistoryEntry>,
    asked: Seq<HistoryEntry>,
    after: Seq<HistoryEntry>,
    summary: Seq<char>,
    resume_user: Option<String>,
    i: int,
)
    requires
        0 <= i < before.len(),
        before[i] is User,
        forall|k: int| i < k < before.len() ==> !(#[trigger] before[k] is User),
        inner_text(resume_user) == open_text(before, CompactionMode::MidTurn),
        is_compaction_of(after, asked, summary, resume_user),
    ensures
        after.len() == asked.len() + 2,
        after.last() is User,
        after.last()->User_content@ == before[i]->User_content@,
        after[after.len() - 2] is System,
        has_text(after[after.len() - 2]->System_content@, trimmed(summary)),
{
    law_last_task_is_resumed(before, i);
    law_summary_is_kept(summary);
}

/// A text that joins a history is the content of its last entry, and everything before it stays.
pub proof fn law_texts_join_at_the_end(
    after: Seq<HistoryEntry>,
    before: Seq<HistoryEntry>,
    text: Seq<char>,
)
    requires
        says_more(after, before, text),
    ensures
        after.len() == before.len() + 1,
        after.last() is User,
        after.last()->User_content@ == text,
        forall|k: int| 0 <= k < before.len() ==> #[trigger] after[k] == before[k],
{
    assert forall|k: int| 0 <= k < before.len() implies #[trigger] after[k] == before[k] by {
        assert(after.drop_last()[k] == before[k]);
    }
}

/// A reply joins a history as it is: its text, its reasoning and the calls that are kept are
/// those of the last entry, and the texts of all the entries before it stay.
pub proof fn law_replies_join_at_the_end(
    after: Seq<HistoryEntry>,
    before: Seq<HistoryEntry>,
    reply: ModelReply,
    calls: Seq<AssistantToolCall>,
)
    requires
        is_reply_taken(after, before, reply, calls),
    ensures
        after.len() == before.len() + 1,
        after.last() is Assistant,
        after.last()->Assistant_content@ == reply.content@,
        after.last()->Assistant_reasoning_content@ == reply.reasoning_content@,
        after.last()->Assistant_tool_calls@ == calls,
        forall|k: int| 0 <= k < before.len() ==> says_the_same(#[trigger] after[k], before[k]),
{
    let spread = after_report(before, reply.input_tokens, reply.total_tokens);
    law_reports_keep_texts(before, reply.input_tokens, reply.total_tokens);
    assert forall|k: int| 0 <= k < before.len() implies says_the_same(
        #[trigger] after[k],
        before[k],
    ) by {
        assert(after.drop_last()[k] == spread[k]);
    }
}

} // verus!
