//! The messages that a model is sent.

use vstd::prelude::*;

use crate::history::{
    active, find_active_start, is_compaction_of, law_compaction_leaves_summary,
    summary_text, AssistantToolCall, HistoryEntry,
};
use crate::skills::{render_skills_section, skills_section, SkillMetadata};
use crate::text::{
    has_text, inner_text, is_blank, lemma_appended_occurs, lemma_middle_occurs, trimmed,
};

verus! {

/// What the system prompt says before the workspace.
pub const PROMPT_IDENTITY: &'static str = "你是 OpenAnsys Agent，一个工作在本地工作区内的 ANSYS 助手。\n工作区根目录：";

/// What the system prompt says after the workspace.
pub const PROMPT_RULES: &'static str = "。\n回复应简洁，专注于完成用户的请求。\n在修改代码或回答关于本地项目的问题之前，优先检查当前状态。\n除非明确必要，否则不要使用破坏性命令，永远不要访问工作区根目录之外的任何内容。\n当需要检查文件、编辑代码、运行程序、搜索、调试、构建、测试、格式化、git 操作或其他工作区任务时，使用可用的 shell_tool。\n将 shell_tool 视为强大且潜在危险的工具。\n如果 shell 命令失败，仔细阅读结果并尝试其他有效方法。\n调用 shell_tool 时，workdir 参数是可选的且必须位于工作区根目录内。\n优先每次只调用一个 shell_tool，除非批量执行多个独立的只读命令明显更有效率。\n在调用工具之前，通常应包含简短的前言，说明你即将做什么以及为什么。\n工具前言应简短：通常一句话，不超过 20 个词。\n如果不需要 shell 访问，则正常回答。\n";

/// A message to a model.
#[derive(Debug)]
pub enum ChatMessage {
    System { content: String },
    User { content: String },
    /// What the assistant said. Neither `tool_calls` where it is empty nor a missing
    /// `reasoning_content` is sent; a missing `text` is sent as null.
    Assistant {
        text: Option<String>,
        tool_calls: Vec<AssistantToolCall>,
        reasoning_content: Option<String>,
    },
    Tool { tool_call_id: String, name: String, content: String },
}

/// What a message says.
pub ghost enum MessageText {
    System(Seq<char>),
    User(Seq<char>),
    Assistant {
        text: Option<Seq<char>>,
        tool_calls: Seq<AssistantToolCall>,
        reasoning_content: Option<Seq<char>>,
    },
    Tool { tool_call_id: Seq<char>, name: Seq<char>, content: Seq<char> },
}

impl View for ChatMessage {
    type V = MessageText;

    open spec fn view(&self) -> MessageText {
        match self {
            ChatMessage::System { content } => MessageText::System(content@),
            ChatMessage::User { content } => MessageText::User(content@),
            ChatMessage::Assistant { text, tool_calls, reasoning_content } =>
                MessageText::Assistant {
                    text: inner_text(*text),
                    tool_calls: tool_calls@,
                    reasoning_content: inner_text(*reasoning_content),
                },
            ChatMessage::Tool { tool_call_id, name, content } => MessageText::Tool {
                tool_call_id: tool_call_id@,
                name: name@,
                content: content@,
            },
        }
    }
}

/// What the messages say.
pub open spec fn message_texts(messages: Seq<ChatMessage>) -> Seq<MessageText> {
    Seq::new(messages.len(), |i: int| messages[i]@)
}

/// The system prompt: with the section on skills where the shell can be used to read them.
pub open spec fn system_prompt_text(
    workspace_root: Seq<char>,
    skills: Seq<SkillMetadata>,
    enable_shell_tool: bool,
) -> Seq<char> {
    let base = PROMPT_IDENTITY@ + workspace_root + PROMPT_RULES@;
    match skills_section(skills) {
        Some(section) if enable_shell_tool => base + "\n\n"@ + section + "\n"@,
        _ => base,
    }
}

/// Writes the system prompt.
pub fn system_prompt(
    workspace_root: &str,
    skills: &Vec<SkillMetadata>,
    enable_shell_tool: bool,
) -> (r: String)
    ensures
        r@ == system_prompt_text(workspace_root@, skills@, enable_shell_tool),
{
    let mut prompt = PROMPT_IDENTITY.to_owned();
    prompt.append(workspace_root);
    prompt.append(PROMPT_RULES);
    if enable_shell_tool {
        if let Some(section) = render_skills_section(skills) {
            prompt.append("\n\n");
            prompt.append(&section);
            prompt.append("\n");
        }
    }
    prompt
}

/// The message for an entry. A blank text of the assistant is left out beside tool calls, and
/// so is a blank reasoning.
pub open spec fn message_of(entry: HistoryEntry) -> MessageText {
    match entry {
        HistoryEntry::System { content, .. } => MessageText::System(content@),
        HistoryEntry::User { content, .. } => MessageText::User(content@),
        HistoryEntry::Assistant { content, reasoning_content, tool_calls, .. } =>
            MessageText::Assistant {
                text: if tool_calls@.len() == 0 || trimmed(content@).len() > 0 {
                    Some(content@)
                } else {
                    None
                },
                tool_calls: tool_calls@,
                reasoning_content: if trimmed(reasoning_content@).len() > 0 {
                    Some(reasoning_content@)
                } else {
                    None
                },
            },
        HistoryEntry::Tool { tool_call_id, tool_name, content, .. } => MessageText::Tool {
            tool_call_id: tool_call_id@,
            name: tool_name@,
            content: content@,
        },
    }
}

/// Copies tool calls.
pub fn copy_calls(calls: &Vec<AssistantToolCall>) -> (r: Vec<AssistantToolCall>)
    ensures
        r@ == calls@,
{
    let mut r: Vec<AssistantToolCall> = Vec::new();
    for i in 0..calls.len()
        invariant
            r@ == calls@.take(i as int),
    {
        r.push(calls[i].clone());
        proof {
            assert(calls@.take(i + 1) =~= calls@.take(i as int).push(calls@[i as int]));
        }
    }
    proof {
        assert(calls@.take(calls@.len() as int) =~= calls@);
    }
    r
}

/// Writes the message for an entry.
pub fn entry_message(entry: &HistoryEntry) -> (r: ChatMessage)
    ensures
        r@ == message_of(*entry),
{
    match entry {
        HistoryEntry::System { content, .. } => ChatMessage::System { content: content.clone() },
        HistoryEntry::User { content, .. } => ChatMessage::User { content: content.clone() },
        HistoryEntry::Assistant { content, reasoning_content, tool_calls, .. } => {
            let text: Option<String> = if tool_calls.len() == 0 || !is_blank(content) {
                Some(content.clone())
            } else {
                None
            };
            let thought: Option<String> = if !is_blank(reasoning_content) {
                Some(reasoning_content.clone())
            } else {
                None
            };
            ChatMessage::Assistant {
                text,
                tool_calls: copy_calls(tool_calls),
                reasoning_content: thought,
            }
        },
        HistoryEntry::Tool { tool_call_id, tool_name, content, .. } => ChatMessage::Tool {
            tool_call_id: tool_call_id.clone(),
            name: tool_name.clone(),
            content: content.clone(),
        },
    }
}

/// The messages for a history: the system prompt, and one for each active entry.
pub open spec fn messages_for(
    workspace_root: Seq<char>,
    skills: Seq<SkillMetadata>,
    enable_shell_tool: bool,
    entries: Seq<HistoryEntry>,
) -> Seq<MessageText> {
    seq![MessageText::System(system_prompt_text(workspace_root, skills, enable_shell_tool))]
        + active(entries).map_values(|entry: HistoryEntry| message_of(entry))
}

/// Writes the messages for a history.
pub fn build_messages(
    workspace_root: &str,
    skills: &Vec<SkillMetadata>,
    enable_shell_tool: bool,
    entries: &Vec<HistoryEntry>,
) -> (r: Vec<ChatMessage>)
    ensures
        message_texts(r@) == messages_for(workspace_root@, skills@, enable_shell_tool, entries@),
{
    let mut messages: Vec<ChatMessage> = Vec::new();
    messages.push(
        ChatMessage::System { content: system_prompt(workspace_root, skills, enable_shell_tool) },
    );
    let start = find_active_start(entries);
    let mut i: usize = start;
    let ghost head = MessageText::System(
        system_prompt_text(workspace_root@, skills@, enable_shell_tool),
    );
    while i < entries.len()
        invariant
            start <= i <= entries.len(),
            messages@.len() == 1 + i - start,
            messages@[0]@ == head,
            forall|k: int|
                start <= k < i ==> messages@[1 + k - start]@ == message_of(
                    #[trigger] entries@[k],
                ),
        decreases entries.len() - i,
    {
        messages.push(entry_message(&entries[i]));
        i += 1;
    }
    proof {
        let got = message_texts(messages@);
        let want = messages_for(workspace_root@, skills@, enable_shell_tool, entries@);
        assert forall|k: int| 0 <= k < want.len() implies got[k] == want[k] by {
            if k > 0 {
                let e = entries@[start + k - 1];
                assert(messages@[1 + (start + k - 1) - start]@ == message_of(e));
            }
        }
        assert(got =~= want);
    }
    messages
}

/// After a compaction the model is sent the system prompt, the summary and the user's open text,
/// and nothing of what came before.
pub proof fn law_compacted_messages(
    workspace_root: Seq<char>,
    skills: Seq<SkillMetadata>,
    enable_shell_tool: bool,
    before: Seq<HistoryEntry>,
    after: Seq<HistoryEntry>,
    summary: Seq<char>,
    resume_user: Option<String>,
)
    requires
        is_compaction_of(after, before, summary, resume_user),
    ensures
        messages_for(workspace_root, skills, enable_shell_tool, after) == seq![
            MessageText::System(system_prompt_text(workspace_root, skills, enable_shell_tool)),
            MessageText::System(summary_text(summary)),
        ] + match resume_user {
            Some(user) => seq![MessageText::User(user@)],
            None => Seq::empty(),
        },
{
    law_compaction_leaves_summary(before, after, summary, resume_user);
    let n = before.len() as int;
    assert(active(after)[0] == after[n]);
    if resume_user is Some {
        assert(active(after)[1] == after[n + 1]);
    }
    let got = messages_for(workspace_root, skills, enable_shell_tool, after);
    let want = seq![
        MessageText::System(system_prompt_text(workspace_root, skills, enable_shell_tool)),
        MessageText::System(summary_text(summary)),
    ] + match resume_user {
        Some(user) => seq![MessageText::User(user@)],
        None => Seq::empty(),
    };
    assert(got =~= want);
}

/// Every active entry has its message, in order, and the message says what the entry says: the
/// content of a system, user or tool entry, the id and name of the tool call that a result
/// belongs to, and exactly the tool calls of the assistant, whatever the assistant said beside
/// them.
pub proof fn law_messages_say_what_entries_say(
    workspace_root: Seq<char>,
    skills: Seq<SkillMetadata>,
    enable_shell_tool: bool,
    entries: Seq<HistoryEntry>,
    k: int,
)
    requires
        0 <= k < active(entries).len(),
    ensures
        ({
            let all = messages_for(workspace_root, skills, enable_shell_tool, entries);
            let entry = active(entries)[k];
            let message = all[k + 1];
            &&& all.len() == active(entries).len() + 1
            &&& all[0] is System
            &&& entry is System ==> message == MessageText::System(entry->System_content@)
            &&& entry is User ==> message == MessageText::User(entry->User_content@)
            &&& entry is Tool ==> {
                &&& message is Tool
                &&& message->tool_call_id == entry->tool_call_id@
                &&& message->name == entry->tool_name@
                &&& message->content == entry->Tool_content@
            }
            &&& entry is Assistant ==> {
                &&& message is Assistant
                &&& message->tool_calls == entry->Assistant_tool_calls@
                &&& message->text is None ==> trimmed(entry->Assistant_content@).len() == 0
                    && entry->Assistant_tool_calls@.len() > 0
                &&& message->text matches Some(text) ==> text == entry->Assistant_content@
                &&& trimmed(entry->Assistant_content@).len() > 0 ==> message->text is Some
                &&& entry->Assistant_tool_calls@.len() == 0 ==> message->text is Some
                &&& message->reasoning_content is Some <==> trimmed(
                    entry->Assistant_reasoning_content@,
                ).len() > 0
                &&& message->reasoning_content matches Some(thought) ==> thought
                    == entry->Assistant_reasoning_content@
            }
        }),
{
}

/// A result that the model is sent answers a call that it is sent before: where the id of an
/// active result stands among the calls of an earlier active entry, it stands among the calls of
/// an earlier message.
pub proof fn law_results_follow_their_calls(
    workspace_root: Seq<char>,
    skills: Seq<SkillMetadata>,
    enable_shell_tool: bool,
    entries: Seq<HistoryEntry>,
    j: int,
    k: int,
    c: int,
)
    requires
        0 <= j < k < active(entries).len(),
        active(entries)[j] is Assistant,
        active(entries)[k] is Tool,
        0 <= c < active(entries)[j]->Assistant_tool_calls@.len(),
        active(entries)[j]->Assistant_tool_calls@[c].id@ == active(entries)[k]->tool_call_id@,
    ensures
        ({
            let all = messages_for(workspace_root, skills, enable_shell_tool, entries);
            &&& all[j + 1] is Assistant
            &&& all[k + 1] is Tool
            &&& 0 <= c < all[j + 1]->tool_calls.len()
            &&& all[j + 1]->tool_calls[c].id@ == all[k + 1]->tool_call_id
        }),
{
}

/// The system prompt names the workspace, and tells of each skill where the model can read it.
pub proof fn law_prompt_tells_of_workspace_and_skills(
    workspace_root: Seq<char>,
    skills: Seq<SkillMetadata>,
    enable_shell_tool: bool,
)
    ensures
        ({
            let prompt = system_prompt_text(workspace_root, skills, enable_shell_tool);
            &&& has_text(prompt, workspace_root)
            &&& enable_shell_tool && skills.len() > 0 ==> {
                &&& skills_section(skills) is Some
                &&& has_text(prompt, skills_section(skills)->0)
            }
            &&& !enable_shell_tool ==> prompt == system_prompt_text(
                workspace_root,
                Seq::empty(),
                false,
            )
        }),
{
    lemma_middle_occurs(PROMPT_IDENTITY@, workspace_root, PROMPT_RULES@);
    if enable_shell_tool && skills.len() > 0 {
        let base = PROMPT_IDENTITY@ + workspace_root + PROMPT_RULES@;
        let section = skills_section(skills)->0;
        lemma_appended_occurs(base, "\n\n"@, workspace_root);
        lemma_appended_occurs(base + "\n\n"@, section, workspace_root);
        lemma_appended_occurs(base + "\n\n"@ + section, "\n"@, workspace_root);
        lemma_middle_occurs(base + "\n\n"@, section, "\n"@);
    }
}

/// What messages say is what each of them says, in their order, however many there are.
pub proof fn law_every_message_says_its_own(messages: Seq<ChatMessage>)
    ensures
        message_texts(messages).len() == messages.len(),
        forall|i: int|
            0 <= i < messages.len() ==> #[trigger] message_texts(messages)[i] == messages[i]@,
{
}

} // verus!
