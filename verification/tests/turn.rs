use openansys_agent::ansys::repair::RepairAgent;
use openansys_agent::conversation::ModelReply;
use openansys_agent::history::{AssistantToolCall, HistoryEntry, HistoryFile};
use openansys_agent::session::new_session;
use openansys_agent::turn::{Turn, TurnAction, TurnKind, TurnPhase, LOOP_LIMIT, REPAIR_TRIES};

fn reply(content: &str, calls: usize, input: Option<u64>) -> ModelReply {
    ModelReply {
        content: content.to_string(),
        reasoning_content: String::new(),
        tool_calls: (0..calls)
            .map(|i| AssistantToolCall {
                id: format!("c{}", i),
                name: "shell_tool".to_string(),
                arguments: "{}".to_string(),
            })
            .collect(),
        input_tokens: input,
        output_tokens: Some(1),
        total_tokens: None,
    }
}

fn last_text(history: &HistoryFile) -> String {
    match history.entries.last() {
        Some(HistoryEntry::System { content, .. }) => format!("system {}", content),
        Some(HistoryEntry::User { content, .. }) => format!("user {}", content),
        Some(HistoryEntry::Assistant { content, .. }) => format!("assistant {}", content),
        Some(HistoryEntry::Tool { content, .. }) => format!("tool {}", content),
        None => String::new(),
    }
}

#[test]
fn a_turn_runs_tools_until_the_model_answers() {
    let mut history = new_session("/w", 1, 2, 3);
    let (turn, action) = Turn::start(TurnKind::Agent, 1_000, &mut history, "go".to_string());
    assert!(matches!(action, TurnAction::Save));
    assert_eq!(last_text(&history), "user go");
    let (turn, action) = turn.proceed(&mut history);
    assert!(matches!(action, TurnAction::AskModel));
    let (turn, action) = turn.take_reply(&mut history, reply("look", 2, Some(10)));
    match action {
        TurnAction::RunTools(calls) => {
            assert_eq!(calls.len(), 2);
            assert_eq!(calls[1].id, "c1");
        }
        other => panic!("unexpected action {:?}", other),
    }
    history.push_tool("c0".to_string(), "shell_tool".to_string(), "out".to_string());
    let (turn, action) = turn.proceed(&mut history);
    assert!(matches!(action, TurnAction::AskModel));
    assert_eq!(turn.replies, 1);
    let (turn, action) = turn.take_reply(&mut history, reply("done", 0, Some(20)));
    assert!(matches!(action, TurnAction::Finish));
    assert!(matches!(turn.phase, TurnPhase::Over));
    assert_eq!(last_text(&history), "assistant done");
    assert_eq!(history.total_input_tokens, 30);
}

#[test]
fn a_turn_makes_room_first() {
    let mut history = new_session("/w", 1, 2, 3);
    history.push_user("old".to_string());
    history.note_api_usage(Some(90), None, None);
    let (turn, action) = Turn::start(TurnKind::Agent, 100, &mut history, "go".to_string());
    assert!(matches!(action, TurnAction::AskSummary));
    assert!(last_text(&history).starts_with("user 对话已接近 token 上限。"));
    let (turn, action) = turn.take_summary(&mut history, reply("sum", 0, Some(90)));
    assert!(matches!(action, TurnAction::Save));
    assert!(matches!(&turn.phase, TurnPhase::TextNext { text } if text == "go"));
    assert_eq!(history.entries.len(), 3);
    let (turn, action) = turn.proceed(&mut history);
    assert!(matches!(action, TurnAction::Save));
    assert!(matches!(turn.phase, TurnPhase::Ready));
    assert_eq!(history.entries.len(), 4);
    assert_eq!(last_text(&history), "user go");
    let (_, action) = turn.proceed(&mut history);
    assert!(matches!(action, TurnAction::AskModel));
}

#[test]
fn a_turn_makes_room_in_between() {
    let mut history = new_session("/w", 1, 2, 3);
    history.push_user("task".to_string());
    history.note_api_usage(Some(90), None, None);
    let turn = Turn::resume(TurnKind::Agent, 100);
    let (turn, action) = turn.proceed(&mut history);
    assert!(matches!(action, TurnAction::AskSummary));
    assert!(last_text(&history).starts_with("user 对话已接近 token 上限且当前任务尚未完成。"));
    let (turn, action) = turn.take_summary(&mut history, reply("sum", 0, Some(95)));
    assert!(matches!(action, TurnAction::Save));
    assert_eq!(last_text(&history), "user task");
    history.note_api_usage(Some(99), None, None);
    let (turn, action) = turn.proceed(&mut history);
    assert!(matches!(action, TurnAction::AskModel));
    assert!(matches!(turn.phase, TurnPhase::Asked));
}

#[test]
fn turns_are_bounded() {
    let mut history = new_session("/w", 1, 2, 3);
    let mut turn = Turn::resume(TurnKind::Agent, u64::MAX);
    for _ in 0..LOOP_LIMIT {
        let (next, action) = turn.proceed(&mut history);
        assert!(matches!(action, TurnAction::AskModel));
        let (next, action) = next.take_reply(&mut history, reply("", 1, None));
        assert!(matches!(action, TurnAction::RunTools(_)));
        turn = next;
    }
    let (_, action) = turn.proceed(&mut history);
    match action {
        TurnAction::Fail(message) => assert_eq!(
            message,
            "agent loop exceeded 64 steps without producing a final response"
        ),
        other => panic!("unexpected action {:?}", other),
    }
}

#[test]
fn repairs_are_retried() {
    let mut agent = RepairAgent::new("/w", 1_000_000, 77, 77_001);
    assert_eq!(agent.history.session_id, "repair-77");
    assert_eq!(agent.history.version, 3);
    assert_eq!(agent.history.last_active_at_ms, 77_001);
    let (turn, action) = agent.repair("fix it".to_string());
    assert!(matches!(action, TurnAction::Save));
    let (turn, action) = turn.proceed(&mut agent.history);
    assert!(matches!(action, TurnAction::AskModel));
    let (turn, action) = turn.take_repair(&mut agent.history, reply("sorry", 1, Some(5)));
    assert!(matches!(action, TurnAction::Save));
    assert_eq!(last_text(&agent.history), "assistant sorry");
    let (turn, action) = turn.proceed(&mut agent.history);
    assert!(matches!(action, TurnAction::Save));
    assert_eq!(
        last_text(&agent.history),
        "user Your previous reply was invalid for this repair step: repair agent did not look like ANSYS APDL. Return only corrected ANSYS APDL text now. Do not call tools. Do not ask to inspect files. Do not explain."
    );
    match &agent.history.entries[1] {
        HistoryEntry::Assistant { tool_calls, .. } => assert!(tool_calls.is_empty()),
        other => panic!("unexpected entry {:?}", other),
    }
    let (turn, _) = turn.proceed(&mut agent.history);
    let (_, action) = turn.take_repair(&mut agent.history, reply("```\n/prep7\n```", 0, Some(6)));
    match action {
        TurnAction::Repaired(apdl) => assert_eq!(apdl, "/prep7"),
        other => panic!("unexpected action {:?}", other),
    }
    assert_eq!(agent.history.total_tokens, 13);
}

#[test]
fn explanations_do_not_repair() {
    let mut agent = RepairAgent::new("/w", 1_000_000, 77, 77_001);
    let (turn, _) = agent.repair("fix it".to_string());
    let (turn, _) = turn.proceed(&mut agent.history);
    let said = reply("Sure, the mesh looks fine.", 0, None);
    let (turn, action) = turn.take_repair(&mut agent.history, said);
    assert!(matches!(action, TurnAction::Save));
    assert!(matches!(&turn.phase, TurnPhase::TextNext { text } if text.contains("did not look like ANSYS APDL")));
    assert_eq!(turn.replies, 1);
}

#[test]
fn repairs_are_bounded() {
    let mut agent = RepairAgent::new("/w", u64::MAX, 1, 2);
    let (mut turn, _) = agent.repair("fix it".to_string());
    for _ in 0..REPAIR_TRIES {
        let (next, _) = turn.proceed(&mut agent.history);
        let (next, action) = next.take_repair(&mut agent.history, reply("no", 0, None));
        assert!(matches!(action, TurnAction::Save));
        let (next, action) = next.proceed(&mut agent.history);
        assert!(matches!(action, TurnAction::Save));
        turn = next;
    }
    let (_, action) = turn.proceed(&mut agent.history);
    match action {
        TurnAction::Fail(message) => assert_eq!(
            message,
            "repair agent exceeded retry limit without returning APDL"
        ),
        other => panic!("unexpected action {:?}", other),
    }
}

#[test]
fn counts_that_do_not_fit_stop_a_turn() {
    let mut history = new_session("/w", 1, 2, 3);
    history.push_user("a".to_string());
    history.push_user("b".to_string());
    history.entries[0].set_estimated_tokens(u64::MAX);
    let (turn, action) = Turn::start(TurnKind::Agent, 100, &mut history, "go".to_string());
    assert!(matches!(action, TurnAction::Overflow));
    assert!(matches!(turn.phase, TurnPhase::Over));
    assert_eq!(history.entries.len(), 2);
    let (_, action) = Turn::resume(TurnKind::Agent, 100).proceed(&mut history);
    assert!(matches!(action, TurnAction::Overflow));
}
