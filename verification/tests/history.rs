use openansys_agent::conversation::{
    absorb_reply, finish_compaction, shown_reply, start_compaction, CompactionStart, ModelReply,
};
use openansys_agent::history::{
    assistant_weight_fits, compaction_weight_fits, estimate_entry_tokens, text_weight,
    token_limit_for_model, AssistantToolCall, CompactionMode, HistoryEntry, HistoryFile,
    COMPACTION_PROMPT_BEFORE_TURN, COMPACTION_PROMPT_MID_TURN,
};
use openansys_agent::messages::{build_messages, system_prompt, ChatMessage};
use openansys_agent::session::new_session;
use openansys_agent::skills::SkillMetadata;

fn fresh() -> HistoryFile {
    new_session("/work", 5, 7, 6)
}

fn reply(content: &str, input: Option<u64>, total: Option<u64>) -> ModelReply {
    ModelReply {
        content: content.to_string(),
        reasoning_content: String::new(),
        tool_calls: Vec::new(),
        input_tokens: input,
        output_tokens: Some(3),
        total_tokens: total,
    }
}

fn call(name: &str, arguments: &str) -> AssistantToolCall {
    AssistantToolCall {
        id: "id1".to_string(),
        name: name.to_string(),
        arguments: arguments.to_string(),
    }
}

fn tokens(history: &HistoryFile) -> Vec<u64> {
    history.entries.iter().map(|entry| entry.estimated_tokens()).collect()
}

#[test]
fn new_entries_weigh_four_tokens_a_word() {
    let mut history = fresh();
    history.push_user("one two three".to_string());
    history.push_tool("t".to_string(), "shell_tool".to_string(), "".to_string());
    history.push_assistant(
        "a b".to_string(),
        "".to_string(),
        vec![call("shell_tool", "x y z")],
    );
    history.push_system("s".to_string());
    assert_eq!(tokens(&history), vec![12, 4, 28, 4]);
    assert_eq!(text_weight("  "), 1);
    assert_eq!(history.last_system_index(), Some(3));
    assert_eq!(history.active_token_usage(), 4);
    assert_eq!(estimate_entry_tokens(&history.entries, 0), 48);
    assert_eq!(estimate_entry_tokens(&history.entries, 9), 0);
}

#[test]
fn reported_usage_is_spread_over_active_entries() {
    let mut history = fresh();
    history.push_user("a b c".to_string());
    history.push_user("d".to_string());
    history.push_user("e".to_string());
    assert!(history.active_weight_fits());
    history.note_api_usage(Some(100), Some(7), None);
    assert_eq!(tokens(&history), vec![60, 20, 20]);
    assert_eq!(history.active_token_usage(), 100);
    assert_eq!(history.checked_active_token_usage(), Some(100));
    assert_eq!(history.total_input_tokens, 100);
    assert_eq!(history.total_output_tokens, 7);
    assert_eq!(history.total_token_usage(), 107);
    history.note_api_usage(None, None, Some(11));
    assert_eq!(tokens(&history), vec![6, 2, 3]);
    assert_eq!(history.total_tokens, 118);
    history.note_api_usage(None, None, None);
    assert_eq!(history.active_token_usage(), 20);
}

#[test]
fn compaction_starts_at_four_fifths() {
    let mut history = fresh();
    history.push_user("a b".to_string());
    history.note_api_usage(Some(79), None, None);
    assert!(!history.needs_compaction(100));
    history.note_api_usage(Some(80), None, None);
    assert!(history.needs_compaction(100));
    assert_eq!(history.last_user_content(), Some("a b".to_string()));
    assert_eq!(
        history.compaction_prompt(CompactionMode::BeforeTurn),
        COMPACTION_PROMPT_BEFORE_TURN
    );
    assert_eq!(
        history.compaction_prompt(CompactionMode::MidTurn),
        COMPACTION_PROMPT_MID_TURN
    );
}

#[test]
fn compaction_leaves_summary_and_open_text() {
    let mut history = fresh();
    history.push_user("do it".to_string());
    history.push_tool("t".to_string(), "shell_tool".to_string(), "out".to_string());
    history.note_api_usage(Some(900), None, None);
    let resume_user = match start_compaction(&mut history, 1000, CompactionMode::MidTurn) {
        CompactionStart::Ask { resume_user } => resume_user,
        CompactionStart::NotNeeded => panic!("compaction is due"),
    };
    assert_eq!(resume_user, Some("do it".to_string()));
    assert_eq!(history.last_user_content(), Some(COMPACTION_PROMPT_MID_TURN.to_string()));
    assert!(compaction_weight_fits("  short summary\n", &resume_user));
    finish_compaction(&mut history, reply("  short summary\n", Some(900), None), resume_user);
    assert_eq!(history.entries.len(), 5);
    match &history.entries[3] {
        HistoryEntry::System { content, .. } => {
            assert_eq!(content, "[history summary]\nshort summary")
        }
        other => panic!("unexpected entry {:?}", other),
    }
    match &history.entries[4] {
        HistoryEntry::User { content, .. } => assert_eq!(content, "do it"),
        other => panic!("unexpected entry {:?}", other),
    }
    assert_eq!(tokens(&history)[..3], [0, 0, 0]);
    assert_eq!(history.active_token_usage(), 24);
    let messages = build_messages("/work", &Vec::new(), true, &history.entries);
    assert_eq!(messages.len(), 3);
    assert!(matches!(&messages[2], ChatMessage::User { content } if content == "do it"));
}

#[test]
fn compaction_before_a_turn_keeps_no_text() {
    let mut history = fresh();
    history.push_user("x".to_string());
    assert!(matches!(
        start_compaction(&mut history, 1000, CompactionMode::BeforeTurn),
        CompactionStart::NotNeeded
    ));
    assert_eq!(history.entries.len(), 1);
    assert!(matches!(
        start_compaction(&mut history, 5, CompactionMode::BeforeTurn),
        CompactionStart::Ask { resume_user: None }
    ));
    assert_eq!(history.entries.len(), 2);
}

#[test]
fn replies_join_the_history() {
    let mut history = fresh();
    history.push_user("x".to_string());
    let calls = vec![call("shell_tool", "{}")];
    assert!(assistant_weight_fits("hi there", "", &calls));
    absorb_reply(
        &mut history,
        "hi there".to_string(),
        "".to_string(),
        calls,
        Some(10),
        Some(2),
        Some(12),
    );
    assert_eq!(tokens(&history), vec![10, 20]);
    assert_eq!(history.total_tokens, 12);
}

#[test]
fn blank_replies_are_not_shown() {
    assert_eq!(shown_reply(" \n"), None);
    assert_eq!(shown_reply(" ok\n"), Some("\x1b[32massistant>\x1b[0m  ok".to_string()));
}

#[test]
fn models_have_limits() {
    assert_eq!(token_limit_for_model(" GPT-5-mini "), 1_000_000);
    assert_eq!(token_limit_for_model("gpt-4"), 131_072);
    assert_eq!(token_limit_for_model("deepseek-v3.2"), 131_072);
}

#[test]
fn messages_follow_the_last_system_entry() {
    let mut history = fresh();
    history.push_user("old".to_string());
    history.push_system("sum".to_string());
    history.push_assistant(" ".to_string(), " ".to_string(), vec![call("shell_tool", "{}")]);
    history.push_assistant("".to_string(), "why".to_string(), Vec::new());
    history.push_tool("t".to_string(), "n".to_string(), "out".to_string());
    let messages = build_messages("/work", &Vec::new(), false, &history.entries);
    assert_eq!(messages.len(), 5);
    assert!(matches!(&messages[1], ChatMessage::System { content } if content == "sum"));
    match &messages[2] {
        ChatMessage::Assistant { text, tool_calls, reasoning_content } => {
            assert_eq!(text, &None);
            assert_eq!(tool_calls[0].name, "shell_tool");
            assert_eq!(reasoning_content, &None);
        }
        other => panic!("unexpected message {:?}", other),
    }
    match &messages[3] {
        ChatMessage::Assistant { text, tool_calls, reasoning_content } => {
            assert_eq!(text, &Some("".to_string()));
            assert!(tool_calls.is_empty());
            assert_eq!(reasoning_content, &Some("why".to_string()));
        }
        other => panic!("unexpected message {:?}", other),
    }
    match &messages[4] {
        ChatMessage::Tool { tool_call_id, name, content } => {
            assert_eq!((tool_call_id.as_str(), name.as_str(), content.as_str()), ("t", "n", "out"));
        }
        other => panic!("unexpected message {:?}", other),
    }
}

#[test]
fn system_prompt_lists_skills_with_the_shell() {
    let skills = vec![SkillMetadata {
        dir_path: vec!["s".to_string()],
        path_to_skills_md: "s/SKILL.md".to_string(),
        name: "n".to_string(),
        description: "d".to_string(),
    }];
    let plain = system_prompt("/w", &skills, false);
    assert!(plain.starts_with("你是 OpenAnsys Agent，一个工作在本地工作区内的 ANSYS 助手。\n工作区根目录：/w。\n"));
    assert!(plain.ends_with("如果不需要 shell 访问，则正常回答。\n"));
    let full = system_prompt("/w", &skills, true);
    assert!(full.starts_with(&format!("{}\n\n## Skills\n", plain)));
    assert!(full.contains("- n: d (file: s/SKILL.md)"));
    assert!(full.ends_with("and continue.\n"));
    assert_eq!(system_prompt("/w", &Vec::new(), true), plain);
}
