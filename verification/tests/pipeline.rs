use openansys_agent::ansys::apdl::stage2_apdl_needs_generation;
use openansys_agent::ansys::assets::InputAsset;
use openansys_agent::ansys::config::AnsysConfig;
use openansys_agent::ansys::pipeline::{
    batch_arguments, bootstrap_existing_stage2_workspace, ensure_stage2_current_apdl,
    err_file_name, latest_stage2_workspace, merge_issues, missing_executable, newest_k_file,
    no_stage2_workspace, refuse_placeholder, resumed_run_name, run_name, stage2_dir_name,
    success_message, AnsysArgument, AttemptFacts, BootstrapPlan, DeckEntry, LoopKind, LoopStep,
    RepairLoop, Verdict, WorkspaceEntry, WorkspaceFiles,
};
use openansys_agent::ansys::prompts::{
    build_found_stage2_brief, build_found_stage2_request, build_repair_prompt,
    build_stage2_export_brief, build_stage2_export_request, build_stage2_repair_prompt,
    build_stage2_seed_apdl, initial_generation_messages, stage2_generation_messages,
    try_build_repair_prompt, try_build_stage2_repair_prompt, ErrContent,
};
use openansys_agent::ansys::stage::{Handoff, RunReport, Stage, StageAction, StagePhase};
use openansys_agent::ansys::summary::{
    start_line, summarize_export, summarize_run, BundlePaths, RunSummary, Stage1Outcome,
    Stage2Outcome, Stage2Workspace, RUN_START,
};
use openansys_agent::ansys::validate::KFileState;
use openansys_agent::messages::ChatMessage;

fn config() -> AnsysConfig {
    AnsysConfig {
        executable: "exe".to_string(),
        input_dir: "in".to_string(),
        output_dir: "out".to_string(),
        apdl_runs_dir: "out/apdl".to_string(),
        apdl_k_runs_dir: "out/apdl-k".to_string(),
        k_dir: "out/k".to_string(),
        max_repair_attempts: 2,
        stage2_product: "dyna".to_string(),
    }
}

fn facts(err_text: Option<&str>, err_file: Option<&str>, k_file: KFileState) -> AttemptFacts {
    AttemptFacts {
        err_text: err_text.map(|text| text.to_string()),
        err_file: err_file.map(|text| text.to_string()),
        out_file: "o".to_string(),
        complete: true,
        k_file,
    }
}

const MESHED: &str = "et,1\ntype,1\nesize,1\nvmesh,all\n";

#[test]
fn first_stage_repairs_until_accepted() {
    let mut run = RepairLoop::new(LoopKind::Stage1, "run-5".to_string(), 2, "/prep7".to_string());
    match run.next_step() {
        LoopStep::Run { job_name, dir_name } => {
            assert_eq!(job_name, "run-5-attempt-01");
            assert_eq!(dir_name, "run-5-attempt-01");
        }
        other => panic!("unexpected step {:?}", other),
    }
    match run.judge(&facts(None, None, KFileState::Absent), "k") {
        Verdict::Repair { issue, source } => {
            assert!(issue.starts_with("Stage 1 completeness validation failed"));
            assert_eq!(source, "stage-1 completeness validation");
            run.absorb_repair(MESHED.to_string(), &source);
        }
        Verdict::Accept => panic!("accepted"),
    }
    assert_eq!(
        run.notes,
        vec!["Attempt 1: repaired APDL based on stage-1 completeness validation".to_string()]
    );
    match run.judge(&facts(Some("bad"), Some("j.err"), KFileState::Absent), "k") {
        Verdict::Repair { issue, source } => {
            assert_eq!((issue.as_str(), source.as_str()), ("bad", "j.err"));
        }
        Verdict::Accept => panic!("accepted"),
    }
    match run.judge(&facts(Some("bad"), None, KFileState::Absent), "k") {
        Verdict::Repair { source, .. } => assert_eq!(source, "ANSYS output"),
        Verdict::Accept => panic!("accepted"),
    }
    assert!(matches!(run.judge(&facts(None, None, KFileState::Absent), "k"), Verdict::Accept));
    run.absorb_repair("x".to_string(), "s");
    assert_eq!(run.repaired, 2);
    match run.next_step() {
        LoopStep::Fail(message) => assert_eq!(
            message,
            "exhausted 2 repair attempts without reaching an error-free ANSYS run"
        ),
        other => panic!("unexpected step {:?}", other),
    }
}

#[test]
fn export_is_repaired_before_it_runs() {
    let by_hand = "*cfopen\n*keyword".to_string();
    let mut run = RepairLoop::new(LoopKind::ManualStage2, "r".to_string(), 3, by_hand);
    match run.next_step() {
        LoopStep::RepairFirst { issue, source } => {
            assert!(issue.starts_with("Stage 2 strategy validation failed"));
            assert_eq!(source, "stage-2 strategy validation");
        }
        other => panic!("unexpected step {:?}", other),
    }
    run.absorb_repair("resume".to_string(), "stage-2 strategy validation");
    assert_eq!(
        run.notes[0],
        "Manual Stage 2 attempt 1: repaired APDL based on stage-2 strategy validation"
    );
    match run.next_step() {
        LoopStep::Run { job_name, dir_name } => {
            assert_eq!(job_name, "r-manual-stage2-attempt-02");
            assert_eq!(dir_name, "manual-attempt-02");
        }
        other => panic!("unexpected step {:?}", other),
    }
    match run.judge(&facts(None, None, KFileState::Absent), "kd") {
        Verdict::Repair { issue, source } => {
            assert!(issue.contains("Target k directory: kd"));
            assert_eq!(source, "stage-2 K export validation");
        }
        Verdict::Accept => panic!("accepted"),
    }
    assert!(matches!(run.judge(&facts(None, None, KFileState::Sound), "kd"), Verdict::Accept));
    let other = RepairLoop::new(LoopKind::Stage2, "r".to_string(), 0, "resume".to_string());
    match other.next_step() {
        LoopStep::Fail(message) => assert_eq!(
            message,
            "exhausted 0 Stage 2 repair attempts without producing a K file"
        ),
        step => panic!("unexpected step {:?}", step),
    }
}

fn report(facts: AttemptFacts) -> RunReport {
    RunReport { facts, draft_path: "d/draft.apdl".to_string(), stderr_text: None }
}

fn handoff() -> Handoff {
    Handoff {
        run_dir: "one".to_string(),
        draft_path: "one/draft.apdl".to_string(),
        out_file: "one/ansys.out".to_string(),
        err_file: None,
        current_path: "two/current.apdl".to_string(),
    }
}

#[test]
fn a_model_is_run_repaired_and_accepted() {
    let config = config();
    let (stage, action) =
        Stage::begin_model("run-5".to_string(), "/prep7".to_string(), &config, "ws");
    assert!(matches!(&action, StageAction::Run { dir_name, .. } if dir_name == "run-5-attempt-01"));
    assert!(matches!(stage.phase, StagePhase::Running));
    let bad = report(facts(Some("bad"), Some("j.err"), KFileState::Absent));
    let (stage, action) = stage.ran(&bad, &config, "ws");
    match action {
        StageAction::Repair { request, after_run } => {
            assert!(after_run);
            assert_eq!(
                request,
                build_repair_prompt(
                    "ws",
                    &config,
                    "d/draft.apdl",
                    "/prep7",
                    "bad",
                    &Vec::new(),
                    None
                )
            );
        }
        other => panic!("unexpected action {:?}", other),
    }
    let (stage, action) = stage.repaired(MESHED.to_string(), &config, "ws");
    assert!(matches!(&action, StageAction::Run { dir_name, .. } if dir_name == "run-5-attempt-02"));
    assert_eq!(stage.attempts.notes, vec!["Attempt 1: repaired APDL based on j.err".to_string()]);
    let good = report(facts(None, None, KFileState::Absent));
    let (stage, action) = stage.ran(&good, &config, "ws");
    assert!(matches!(action, StageAction::Accept { attempt: 2 }));
    assert!(matches!(stage.phase, StagePhase::Over));
}

#[test]
fn an_export_by_hand_is_repaired_until_no_attempt_is_left() {
    let config = config();
    let by_hand = "*cfopen\n*keyword";
    let run_id = "r".to_string();
    let (stage, action) =
        Stage::begin_export(false, run_id, by_hand.to_string(), handoff(), &config, "ws");
    match action {
        StageAction::Repair { request, after_run } => {
            assert!(!after_run);
            assert!(request.contains("two/current.apdl"));
            assert!(request.contains("one/draft.apdl"));
        }
        other => panic!("unexpected action {:?}", other),
    }
    let (stage, action) = stage.repaired(by_hand.to_string(), &config, "ws");
    assert!(matches!(action, StageAction::Repair { after_run: false, .. }));
    let (stage, action) = stage.repaired("resume".to_string(), &config, "ws");
    match action {
        StageAction::Fail(message) => assert_eq!(
            message,
            "exhausted 2 Stage 2 repair attempts without producing a K file"
        ),
        other => panic!("unexpected action {:?}", other),
    }
    assert_eq!(
        stage.attempts.notes[1],
        "Stage 2 attempt 2: repaired APDL based on stage-2 strategy validation"
    );
}

#[test]
fn an_export_for_the_user_needs_a_sound_deck() {
    let config = config();
    let (stage, action) = Stage::begin_export(
        true,
        "r".to_string(),
        "resume".to_string(),
        handoff(),
        &config,
        "ws",
    );
    match action {
        StageAction::Run { job_name, dir_name } => {
            assert_eq!(job_name, "r-manual-stage2-attempt-01");
            assert_eq!(dir_name, "manual-attempt-01");
        }
        other => panic!("unexpected action {:?}", other),
    }
    let (stage, action) =
        stage.ran(&report(facts(None, None, KFileState::Absent)), &config, "ws");
    match action {
        StageAction::Repair { request, after_run } => {
            assert!(after_run);
            assert!(request.contains("Target k directory: out/k"));
        }
        other => panic!("unexpected action {:?}", other),
    }
    let (stage, _) = stage.repaired("resume".to_string(), &config, "ws");
    let (_, action) = stage.ran(&report(facts(None, None, KFileState::Sound)), &config, "ws");
    assert!(matches!(action, StageAction::Accept { attempt: 2 }));
}

#[test]
fn a_request_that_splits_a_character_ends_the_stage() {
    let config = config();
    let mut splits = 0_usize;
    for offset in 0..3_usize {
        let issue = format!("{}{}", "x".repeat(offset), "\u{20ac}".repeat(80_000));
        let bad = report(facts(Some(&issue), None, KFileState::Absent));
        let (stage, _) = Stage::begin_model("r".to_string(), "/prep7".to_string(), &config, "ws");
        let (stage, action) = stage.ran(&bad, &config, "ws");
        match action {
            StageAction::Repair { request, .. } => {
                assert!(request.len() > 200_000 && request.len() < 200_100);
            }
            StageAction::RequestSplits => {
                assert!(matches!(stage.phase, StagePhase::Over));
                splits += 1;
            }
            other => panic!("unexpected action {:?}", other),
        }
    }
    assert_eq!(splits, 2);
}

#[test]
fn names_of_what_is_left() {
    assert_eq!(run_name(12), "run-12");
    assert_eq!(stage2_dir_name("run-12"), "run-12-stage2");
    assert_eq!(err_file_name("j"), "j.err");
    assert_eq!(LoopKind::Stage1.repair_history_name("r"), "r-repair-history.json");
    assert_eq!(LoopKind::Stage2.repair_history_name("r"), "r-stage2-repair-history.json");
    assert_eq!(
        LoopKind::ManualStage2.repair_history_name("r"),
        "r-manual-stage2-repair-history.json"
    );
    assert_eq!(resumed_run_name(Some("x")), "x");
    assert_eq!(resumed_run_name(None), "stage2");
    assert_eq!(missing_executable("e"), "ANSYS executable not found: e");
    assert_eq!(no_stage2_workspace("d"), "no stage2 workspace found under d");
    assert!(success_message(true).ends_with("Stage 2 produced a K file."));
    assert!(success_message(false).ends_with("no K file was produced yet."));
}

fn argument_text(argument: &AnsysArgument) -> String {
    match argument {
        AnsysArgument::Text(text) => text.clone(),
        AnsysArgument::RunDir => "<dir>".to_string(),
        AnsysArgument::Draft => "<draft>".to_string(),
        AnsysArgument::Output => "<out>".to_string(),
    }
}

#[test]
fn command_line_of_a_batch_run() {
    let shown = |product: Option<&str>| {
        batch_arguments("job", product).iter().map(argument_text).collect::<Vec<String>>().join(" ")
    };
    assert_eq!(shown(None), "-b -dir <dir> -j job -i <draft> -o <out>");
    assert_eq!(shown(Some(" ")), "-b -dir <dir> -j job -i <draft> -o <out>");
    assert_eq!(shown(Some("dyna")), "-b -dir <dir> -j job -i <draft> -o <out> -p dyna");
}

#[test]
fn issues_are_merged() {
    let s = |text: &str| Some(text.to_string());
    assert_eq!(merge_issues(s("a"), s("b")), s("a\n\nb"));
    assert_eq!(merge_issues(s("a"), None), s("a"));
    assert_eq!(merge_issues(None, s("b")), s("b"));
    assert_eq!(merge_issues(None, None), None);
}

#[test]
fn newest_files_are_picked() {
    let deck = |extension: Option<&str>, modified: i128| DeckEntry {
        extension: extension.map(|text| text.to_string()),
        modified,
    };
    assert_eq!(
        newest_k_file(&vec![deck(Some("k"), 1), deck(Some("K"), 4), deck(Some("db"), 9), deck(None, 9)]),
        Some(1)
    );
    assert_eq!(newest_k_file(&vec![deck(Some("kk"), 1)]), None);
    let entry = |is_dir: bool, has_current: bool, has_draft: bool, modified: i128| WorkspaceEntry {
        is_dir,
        has_current,
        has_draft,
        modified,
    };
    assert_eq!(
        latest_stage2_workspace(&vec![
            entry(true, true, false, 3),
            entry(true, false, true, 5),
            entry(true, false, false, 8),
            entry(false, true, true, 9),
        ]),
        Some(1)
    );
    assert_eq!(latest_stage2_workspace(&Vec::new()), None);
}

#[test]
fn workspaces_are_completed_not_overwritten() {
    let files = |current: bool, draft: bool, brief: bool, request: bool| WorkspaceFiles {
        current,
        draft,
        brief,
        request,
    };
    assert_eq!(
        bootstrap_existing_stage2_workspace(files(false, true, false, false)),
        BootstrapPlan { copy_draft: true, write_brief: true, write_request: true }
    );
    assert_eq!(
        bootstrap_existing_stage2_workspace(files(true, true, true, true)),
        BootstrapPlan { copy_draft: false, write_brief: false, write_request: false }
    );
}

#[test]
fn placeholders_are_refused() {
    let seed = build_stage2_seed_apdl("s1/draft.apdl", "s2");
    assert!(seed.starts_with("! OpenAnsys Stage 2 seed APDL\n"));
    assert!(seed.contains("! Stage 1 reference APDL: s1/draft.apdl\n! Stage 2 workspace: s2\n!\n"));
    assert!(seed.ends_with(
        "! Placeholder only for now; no automatic export logic has been generated yet.\n"
    ));
    assert!(stage2_apdl_needs_generation(&seed));
    assert_eq!(
        refuse_placeholder(&seed, "p"),
        Some("stage2 current apdl is still a placeholder: p. Replace it with the APDL you want to run, or use /run first.".to_string())
    );
    assert_eq!(refuse_placeholder("/prep7", "p"), None);
    assert_eq!(ensure_stage2_current_apdl(seed), None);
    assert_eq!(ensure_stage2_current_apdl("/prep7".to_string()), Some("/prep7".to_string()));
}

#[test]
fn repair_requests_hand_everything_over() {
    let prompt = build_repair_prompt(
        "/w",
        &config(),
        "d.apdl",
        "/PREP7 THE APDL",
        "THE ISSUE",
        &vec!["note 1".to_string(), "note 2".to_string()],
        Some("on stderr"),
    );
    assert!(prompt.starts_with("Repair this ANSYS 19.0 APDL command stream.\n"));
    assert!(prompt.contains("Workspace root: /w\nStage 2 ANSYS executable: exe\nStage 2 product mode: dyna\nCurrent draft file: d.apdl\n\nRecent repair history:\nnote 1\nnote 2\n\nCurrent APDL:\n/PREP7 THE APDL\n\nIssue report derived from the full .err content:\nTHE ISSUE\n\nReturn the full corrected APDL text only.\n"));
    assert!(prompt.ends_with("when appropriate.\n\nSupplemental stderr content:\non stderr\n"));
    let none = build_repair_prompt("/w", &config(), "d", "a", "i", &Vec::new(), Some(" \n"));
    assert!(none.contains("Recent repair history:\n(none yet)\n\n"));
    assert!(none.ends_with("when appropriate.\n"));
}

#[test]
fn repair_requests_are_cut() {
    let long = "x".repeat(300_000);
    let prompt = build_repair_prompt("/w", &config(), "d", &long, "i", &Vec::new(), None);
    assert!(prompt.ends_with("x\n\n[repair prompt truncated]"));
    assert_eq!(prompt.len(), 200_000 + "\n\n[repair prompt truncated]".len());
    let head = prompt.find("xxx").expect("apdl");
    let shifted = format!("{}{}", "x".repeat((200_000 - head + 1) % 2), "é".repeat(150_000));
    assert_eq!(
        try_build_repair_prompt("/w", &config(), "d", &shifted, "i", &Vec::new(), None),
        None
    );
    let wide = try_build_stage2_repair_prompt(
        "/w", &config(), "r", "d", "o", None, "d2", &long, "i", &Vec::new(), None,
    )
    .expect("prompt");
    assert_eq!(wide.len(), 220_000 + "\n\n[stage2 repair prompt truncated]".len());
}

#[test]
fn export_repair_requests_name_the_first_stage() {
    let prompt = build_stage2_repair_prompt(
        "/w", &config(), "r1", "d1", "o1", Some("e1"), "d2", "APDL", "ISSUE", &Vec::new(), None,
    );
    assert!(prompt.starts_with("Repair this ANSYS 19.0 Stage 2 APDL command stream.\n"));
    assert!(prompt.contains("Stage 1 run directory: r1\nStage 1 APDL: d1\nStage 1 ansys.out: o1\nStage 1 err file: e1\nCurrent Stage 2 draft file: d2\nTarget k directory: out/k\n\nRecent repair history:\n(none yet)\n\nCurrent Stage 2 APDL:\nAPDL\n\nStage 2 issue report:\nISSUE\n\n"));
    let none = build_stage2_repair_prompt(
        "/w", &config(), "r1", "d1", "o1", None, "d2", "APDL", "ISSUE", &Vec::new(), None,
    );
    assert!(none.contains("Stage 1 err file: (none)\n"));
}

#[test]
fn export_briefs_and_requests() {
    let brief =
        build_stage2_export_brief("/w", &config(), "run-1", "r", "d", "o", None, None);
    assert!(brief.starts_with("OpenAnsys Stage 2 export brief\n\nRun id: run-1\nWorkspace root: /w\nANSYS executable: exe\nStage 2 product mode: dyna\nRun directory: r\nDraft APDL: d\nANSYS out: o\nANSYS err: (none)\nAPDL-K directory: out/apdl-k\nK directory: out/k\nExisting K file: (none yet)\n\nStage 1 status:\n"));
    assert!(brief.ends_with("export commands or workflow.\n"));
    let with_deck =
        build_stage2_export_brief("/w", &config(), "run-1", "r", "d", "o", Some("e"), Some("k"));
    assert!(with_deck.contains("ANSYS err: e\n"));
    assert!(with_deck.contains("Existing K file: k\n"));
    assert!(with_deck.ends_with("created in the run directory\n"));
    let request =
        build_stage2_export_request("/w", &config(), "run-1", "r", "d", "o", Some("e"), "s2");
    assert!(request.contains("- Run id: run-1\n- Workspace root: /w\n- Stage 2 ANSYS executable: exe\n- Stage 2 product mode: dyna\n- Stage 1 run directory: r\n- Stage 2 workspace: s2\n- Stage 1 APDL: d\n- Stage 1 ansys.out: o\n- Stage 1 err file: e\n- APDL-K directory: out/apdl-k\n- Target k directory: out/k\n\n"));
    assert_eq!(
        build_found_stage2_brief(&config(), "s2", "c"),
        "OpenAnsys Stage 2 export brief\n\nThis workspace was detected from an existing apdl-k directory.\nStage 2 workspace: s2\nCurrent stage2 apdl: c\nTarget k directory: out/k\n"
    );
    assert_eq!(
        build_found_stage2_request(&config(), "s2", "c"),
        "OpenAnsys Stage 2 export request\n\nGoal:\n- Run the APDL kept in current_stage2.apdl and drive it toward successful .K export.\n\nCurrent stage2 workspace: s2\nCurrent stage2 apdl: c\nTarget k directory: out/k\n"
    );
}

fn asked(messages: &[ChatMessage]) -> (String, String) {
    assert_eq!(messages.len(), 2);
    match (&messages[0], &messages[1]) {
        (ChatMessage::System { content: system }, ChatMessage::User { content: user }) => {
            (system.clone(), user.clone())
        }
        other => panic!("unexpected messages {:?}", other),
    }
}

#[test]
fn generation_is_asked_for() {
    let image = InputAsset {
        path: "/in/a.png".to_string(),
        relative_path: "a.png".to_string(),
        kind: "image".to_string(),
        text: None,
    };
    let (system, user) =
        asked(&initial_generation_messages("/w", &config(), &vec![image], "SUMMARY"));
    assert!(system.starts_with("You are OpenAnsys Agent. Generate complete ANSYS 19.0 APDL"));
    assert!(user.starts_with("Workspace root: /w\nANSYS executable: exe\nInput directory: in\nOutput APDL directory: out/apdl\n\nInput summary follows:\nSUMMARY\n\nAdditional image assets:\n- image file available: a.png\n\nRequirements:\n"));
    assert!(user.ends_with("- Return only the full APDL text.\n"));
    let (_, user) = asked(&initial_generation_messages("/w", &config(), &Vec::new(), "S"));
    assert!(user.contains("Additional image assets:\n(none)\n\n"));
    let out = format!(" {} ", "o".repeat(12_001));
    let (system, user) = asked(&stage2_generation_messages(
        "/w", &config(), "r", "s2", "REQUEST", "APDL", &out, &ErrContent::Missing,
    ));
    assert!(system.starts_with("You are OpenAnsys Agent. Generate Stage 2 ANSYS 19.0 APDL"));
    assert!(user.contains("Stage 1 run directory: r\nStage 2 workspace: s2\nTarget K directory: out/k\n\nStage 2 request:\nREQUEST\n\nStage 1 APDL:\nAPDL\n\nStage 1 ansys.out excerpt:\no"));
    assert!(user.contains(&format!("{}...\n\nStage 1 err content:\n(none)\n\n", "o".repeat(12_000))));
    let (_, user) = asked(&stage2_generation_messages(
        "/w", &config(), "r", "s2", "Q", "A", "o", &ErrContent::Unreadable,
    ));
    assert!(user.contains("Stage 1 err content:\n(failed to read stage1 err)\n\n"));
    let (_, user) = asked(&stage2_generation_messages(
        "/w", &config(), "r", "s2", "Q", "A", "o", &ErrContent::Text("E".to_string()),
    ));
    assert!(user.contains("Stage 1 err content:\nE\n\n"));
}

fn summary() -> RunSummary {
    let s = |text: &str| text.to_string();
    RunSummary {
        run_id: s("run-1"),
        run_dir: s("rd"),
        apdl_runs_dir: s("ad"),
        apdl_k_runs_dir: s("akd"),
        k_dir: s("kd"),
        source_context_path: s("sc"),
        input_summary_path: s("is"),
        draft_apdl_path: s("da"),
        err_file: None,
        out_file: s("of"),
        k_file: Some(s("kf")),
        stage2_dir: s("s2"),
        stage2_current_apdl_path: s("s2a"),
        stage2_brief_path: s("s2b"),
        stage2_request_path: s("s2r"),
        stage2_run_dir: Some(s("s2d")),
        stage2_out_file: Some(s("s2o")),
        stage2_err_file: None,
        stage2_attempts: 3,
        attempts: 2,
        message: s("done"),
    }
}

#[test]
fn summaries_are_shown() {
    let a = "\x1b[2mansys\x1b[0m";
    assert_eq!(
        start_line(RUN_START),
        "\x1b[36mansys>\x1b[0m Starting ANSYS APDL generation and repair loop..."
    );
    let lines = summary().lines();
    assert_eq!(lines[0], "\x1b[32mansys>\x1b[0m done");
    assert_eq!(lines[1], format!("{} apdl dir: ad", a));
    assert_eq!(lines.len(), 18);
    assert_eq!(lines[15], format!("{} final K: kf", a));
    assert_eq!(lines[16], format!("{} attempts: 2 (run-1)", a));
    assert_eq!(lines[17], format!("{} stage2 attempts: 3", a));
    let lines = summary().stage2_lines();
    assert_eq!(lines.len(), 9);
    assert_eq!(lines[1], format!("{} apdl-k dir: akd", a));
    assert_eq!(lines[8], format!("{} stage2 attempts: 3", a));
}

fn export_workspace() -> Stage2Workspace {
    Stage2Workspace {
        dir: "s2".to_string(),
        current_apdl_path: "s2/c".to_string(),
        brief_path: "s2/b".to_string(),
        request_path: "s2/r".to_string(),
    }
}

fn bundle() -> BundlePaths {
    BundlePaths { source_context: "sc".to_string(), input_summary: "is".to_string() }
}

fn export_outcome(k_file: Option<&str>) -> Stage2Outcome {
    Stage2Outcome {
        run_dir: "s2/a".to_string(),
        out_file: "s2/o".to_string(),
        err_file: None,
        k_file: k_file.map(|path| path.to_string()),
        attempts: 4,
    }
}

fn model_outcome(k_file: Option<&str>) -> Stage1Outcome {
    Stage1Outcome {
        run_dir: "s1".to_string(),
        draft_path: "s1/d".to_string(),
        out_file: "s1/o".to_string(),
        err_file: Some("s1/e".to_string()),
        k_file: k_file.map(|path| path.to_string()),
        attempts: 3,
    }
}

#[test]
fn runs_are_summarized() {
    let run = |stage1: Option<&str>, stage2: Option<&str>| {
        summarize_run(
            &config(),
            "run-9".to_string(),
            bundle(),
            model_outcome(stage1),
            export_workspace(),
            export_outcome(stage2),
        )
    };
    let both = run(Some("old.k"), Some("new.k"));
    assert_eq!(both.k_file, Some("new.k".to_string()));
    assert!(both.message.ends_with("Stage 2 produced a K file."));
    assert_eq!((both.attempts, both.stage2_attempts), (3, 4));
    assert_eq!(both.draft_apdl_path, "s1/d");
    assert_eq!(run(Some("old.k"), None).k_file, Some("old.k".to_string()));
    let neither = run(None, None);
    assert_eq!(neither.k_file, None);
    assert!(neither.message.ends_with("no K file was produced yet."));
    let export = summarize_export(
        &config(),
        "run-9-stage2".to_string(),
        bundle(),
        export_workspace(),
        export_outcome(Some("k")),
    );
    assert_eq!(
        export.message,
        "Stage 2 executed directly from apdl-k and produced a K file."
    );
    assert_eq!(export.run_dir, "s2/a");
    assert_eq!(export.draft_apdl_path, "s2/c");
    assert_eq!((export.attempts, export.stage2_attempts), (0, 4));
}
