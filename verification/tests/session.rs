use openansys_agent::cli::{
    auto_switched, error_line, parse_args, parse_bool_flag, read_command, read_env,
    resolve_token_limit, Banner, CliOutcome, ReplCommand, ResumeMode, API_TIMEOUT_SECS,
};
use openansys_agent::clock::{format_last_active, show_instant};
use openansys_agent::history::HistoryFile;
use openansys_agent::session::{
    choose_session, format_last_user_prompt, history_lines, is_session_file, list_sessions,
    new_session, resume_last, session_file_name, session_lines, session_question, SessionChoice,
    SessionSummary,
};
use openansys_agent::tools::{
    choose_workdir, describe_output, format_tool_content, is_recursive_self_command,
    normalize_tool_content_for_display, parse_shell_tool_args, resolve_workdir, route_tool_call,
    run_shell, shell_command_prefix, tool_content_success, CommandOutcome, ShellGate, ToolRoute,
    WorkdirChoice,
};

fn args(list: &[&str]) -> CliOutcome {
    parse_args(&list.iter().map(|arg| arg.to_string()).collect())
}

fn failure(list: &[&str]) -> String {
    match args(list) {
        CliOutcome::Fail(error) => error.describe(),
        other => panic!("unexpected outcome {:?}", other),
    }
}

#[test]
fn reads_the_command_line() {
    match args(&[]) {
        CliOutcome::Run(options) => {
            assert!(!options.auto_approve);
            assert_eq!(options.model, "deepseek-v4-pro");
            assert_eq!(options.reasoning_effort, "medium");
            assert!(options.enable_thinking);
            assert_eq!(options.token_limit, None);
            assert!(options.external_skills.is_empty());
            assert_eq!(options.resume, ResumeMode::New);
        }
        other => panic!("unexpected outcome {:?}", other),
    }
    match args(&[
        "resume", "--last", "--auto", "--model", "--auto", "--reasoning-effort", "high",
        "--enable-thinking", " OFF ", "--token-limit", "+12", "--external-skills", "a:b",
        "--external-skills", "c",
    ]) {
        CliOutcome::Run(options) => {
            assert!(options.auto_approve);
            assert_eq!(options.model, "--auto");
            assert_eq!(options.reasoning_effort, "high");
            assert!(!options.enable_thinking);
            assert_eq!(options.token_limit, Some(12));
            assert_eq!(options.external_skills, vec!["a:b".to_string(), "c".to_string()]);
            assert_eq!(options.resume, ResumeMode::Last);
        }
        other => panic!("unexpected outcome {:?}", other),
    }
    match args(&["--last", "resume"]) {
        CliOutcome::Run(options) => assert_eq!(options.resume, ResumeMode::Select),
        other => panic!("unexpected outcome {:?}", other),
    }
}

#[test]
fn the_first_decisive_argument_wins() {
    assert!(matches!(args(&["--auto", "-h", "bogus"]), CliOutcome::Help));
    assert!(matches!(args(&["--help"]), CliOutcome::Help));
    assert_eq!(failure(&["bogus", "--help"]), "unknown argument: bogus");
    assert_eq!(failure(&["--model"]), "--model requires a value");
    assert_eq!(failure(&["--external-skills"]), "--external-skills requires a value");
    assert_eq!(failure(&["--enable-thinking", "x"]), "--enable-thinking expects true or false");
    assert_eq!(failure(&["--token-limit", "x"]), "invalid --token-limit value: x");
}

#[test]
fn reads_flags_and_variables() {
    for yes in ["true", "1", " Yes", "ON"] {
        assert_eq!(parse_bool_flag("f", yes).ok(), Some(true));
    }
    for no in ["false", "0", "no ", "Off"] {
        assert_eq!(parse_bool_flag("f", no).ok(), Some(false));
    }
    assert_eq!(
        parse_bool_flag("f", "").err().map(|error| error.describe()),
        Some("f expects true or false".to_string())
    );
    let s = |text: &str| Some(text.to_string());
    assert_eq!(read_env(&vec![None, s("  "), s(" key "), s("other")]), s("key"));
    assert_eq!(read_env(&vec![None, s("")]), None);
    assert_eq!(resolve_token_limit(Some(5), "gpt-5"), 5);
    assert_eq!(resolve_token_limit(None, "gpt-5"), 1_000_000);
    assert_eq!(API_TIMEOUT_SECS, 20 * 60);
}

#[test]
fn shows_the_banner() {
    let s = |text: &str| text.to_string();
    let lines = Banner {
        workspace: s("w"),
        ansys_exe: s("e"),
        input_dir: s("i"),
        output_dir: s("o"),
        model: s("m"),
        reasoning_effort: s("r"),
        enable_thinking: true,
        history_token_limit: 99,
        session: s("s"),
        history: s("h"),
        auto_approve: false,
        skills: 4,
    }
    .lines();
    assert_eq!(lines.len(), 14);
    assert_eq!(lines[0], "\x1b[1mopenansys-agent\x1b[0m");
    assert_eq!(lines[7], "\x1b[2menable thinking:\x1b[0m true");
    assert_eq!(lines[8], "\x1b[2mhistory token limit:\x1b[0m 99");
    assert_eq!(lines[11], "\x1b[2mapproval mode:\x1b[0m \x1b[36mask\x1b[0m");
    assert_eq!(lines[13], "\x1b[2mtype\x1b[0m /help");
}

#[test]
fn reads_commands() {
    assert!(matches!(read_command("  "), ReplCommand::Blank));
    assert!(matches!(read_command(" /exit\n"), ReplCommand::Exit));
    assert!(matches!(read_command("/quit"), ReplCommand::Exit));
    assert!(matches!(read_command("/continue"), ReplCommand::Continue));
    assert!(matches!(read_command("/help"), ReplCommand::Help));
    assert!(matches!(read_command("/run"), ReplCommand::Run));
    assert!(matches!(read_command("/run-stage2"), ReplCommand::RunStage2));
    assert!(matches!(read_command("/auto on"), ReplCommand::AutoOn));
    assert!(matches!(read_command("/auto off"), ReplCommand::AutoOff));
    assert!(matches!(read_command(" /auto  on"), ReplCommand::Turn(text) if text == "/auto  on"));
    assert_eq!(auto_switched(true), "\x1b[33mauto approval enabled\x1b[0m");
    assert_eq!(auto_switched(false), "\x1b[33mauto approval disabled\x1b[0m");
    assert_eq!(error_line("e"), "\x1b[31merror>\x1b[0m e");
}

fn session(slot: usize, workspace: &str, active_ms: u128) -> SessionSummary {
    SessionSummary { slot, history: new_session(workspace, 1, 2, active_ms) }
}

#[test]
fn sessions_are_listed_newest_first() {
    let listed = list_sessions(
        vec![
            session(0, "/w", 5),
            session(1, "/other", 9),
            session(2, "/w", 8),
            session(3, "/w", 5),
        ],
        "/w",
    );
    assert_eq!(listed.iter().map(|s| s.slot).collect::<Vec<usize>>(), vec![2, 0, 3]);
    assert_eq!(resume_last(listed).map(|s| s.slot).ok(), Some(2));
    assert_eq!(
        resume_last(Vec::new()).err(),
        Some("no previous sessions found for this workspace".to_string())
    );
}

#[test]
fn sessions_are_named_and_chosen() {
    let history: HistoryFile = new_session("/w", 123, 45, 124);
    assert_eq!(history.session_id, "session-123-45");
    assert_eq!(history.version, 3);
    assert_eq!(history.workspace_root, "/w");
    assert_eq!(history.last_active_at_ms, 124);
    assert_eq!(session_file_name("a"), "a.json");
    assert!(is_session_file(Some("json")));
    assert!(!is_session_file(Some("JSON")));
    assert!(!is_session_file(None));
    assert_eq!(session_question(3), "resume which session? [1-3]> ");
    assert!(matches!(choose_session(" 2\n", 3), SessionChoice::Pick(1)));
    match choose_session("4", 3) {
        SessionChoice::AskAgain(message) => {
            assert_eq!(message, "please enter a number between 1 and 3")
        }
        other => panic!("unexpected choice {:?}", other),
    }
    assert!(matches!(choose_session("0", 3), SessionChoice::AskAgain(_)));
    match choose_session(" x ", 3) {
        SessionChoice::Invalid(message) => assert_eq!(message, "invalid session selection: x"),
        other => panic!("unexpected choice {:?}", other),
    }
}

#[test]
fn sessions_are_described() {
    let mut history = new_session("/w", 1, 2, 3);
    assert_eq!(format_last_user_prompt(&history), "(no user prompt yet)");
    history.push_user("first".to_string());
    history.push_user(format!("a\n{}", "b".repeat(100)));
    history.push_tool("t".to_string(), "n".to_string(), "x".to_string());
    let shown = format!("a {}…", "b".repeat(98));
    assert_eq!(format_last_user_prompt(&history), shown);
    assert_eq!(
        session_lines(0, &history, "then", "/p"),
        vec![
            "  1. session-1-2".to_string(),
            "     last active: then".to_string(),
            format!("     last prompt: {}", shown),
            "     path: /p".to_string(),
        ]
    );
}

#[test]
fn resumed_histories_are_shown() {
    let mut history = new_session("/w", 1, 2, 3);
    assert!(history_lines(&history.entries).is_empty());
    history.push_system("s".to_string());
    history.push_user("u".to_string());
    history.push_assistant(" ".to_string(), "".to_string(), Vec::new());
    history.push_assistant("a".to_string(), "".to_string(), Vec::new());
    history.push_tool(
        "t".to_string(),
        "shell_tool".to_string(),
        format_tool_content("ls", "/w", true, "\nout"),
    );
    assert_eq!(
        history_lines(&history.entries),
        vec![
            "\x1b[1mresumed history\x1b[0m".to_string(),
            "\x1b[33msystem>\x1b[0m  s".to_string(),
            "\x1b[34myou>\x1b[0m  u".to_string(),
            "\x1b[32massistant>\x1b[0m  a".to_string(),
            "\x1b[36mtool>\x1b[0m out".to_string(),
        ]
    );
}

#[test]
fn times_are_shown_in_local_time() {
    let shown = format_last_active(86_400_000 * 365);
    assert_eq!(shown.len(), 19);
    assert!(shown.starts_with("1971-01-0") || shown.starts_with("1970-12-31"));
    let marks: Vec<(usize, char)> =
        shown.char_indices().filter(|(_, c)| !c.is_ascii_digit()).collect();
    assert_eq!(marks, vec![(4, '-'), (7, '-'), (10, ' '), (13, ':'), (16, ':')]);
    let late = format_last_active(8_210_266_876_799_999);
    assert!(late.starts_with("+26214"));
    assert_eq!(format_last_active(8_210_266_876_800_000), "8210266876800000");
    assert_eq!(format_last_active(u128::MAX), u128::MAX.to_string());
    assert_eq!(show_instant(7, None), "7");
    assert_eq!(show_instant(7, Some("t".to_string())), "t");
}

#[test]
fn tool_calls_are_read() {
    let request = parse_shell_tool_args(" ls -l ", Some(" src ")).expect("request");
    assert_eq!(request.command, "ls -l");
    assert_eq!(request.workdir, Some("src".to_string()));
    assert_eq!(parse_shell_tool_args("ls", Some("  ")).expect("request").workdir, None);
    assert_eq!(
        parse_shell_tool_args(" \n", None).err(),
        Some("shell_tool requires a non-empty command".to_string())
    );
    assert!(matches!(route_tool_call("shell_tool"), ToolRoute::Shell));
    match route_tool_call("web") {
        ToolRoute::Unsupported(content) => assert_eq!(content, "unsupported tool: web"),
        other => panic!("unexpected route {:?}", other),
    }
}

#[test]
fn the_agent_does_not_restart_itself() {
    assert!(is_recursive_self_command("  Cargo \t run -- --auto"));
    assert!(is_recursive_self_command("cargo checker"));
    assert!(is_recursive_self_command("start Target\\Debug\\openansys-agent.exe"));
    assert!(!is_recursive_self_command("echo cargo run"));
    assert!(!is_recursive_self_command("cargo fmt"));
    match run_shell("cargo test", "/w", true) {
        ShellGate::Refuse(outcome) => {
            assert!(!outcome.success);
            assert!(outcome
                .tool_content
                .starts_with("command: cargo test\nworkdir: /w\nsuccess: false\n\nrefusing to rebuild"));
        }
        other => panic!("unexpected gate {:?}", other),
    }
    assert!(matches!(run_shell("ls", "/w", true), ShellGate::Run));
    assert!(matches!(run_shell("ls", "/w", false), ShellGate::Ask));
}

#[test]
fn shells_are_chosen() {
    let (shell, args, command) = shell_command_prefix(false, true, None, "ls");
    assert_eq!((shell.as_str(), args, command.as_str()), ("/bin/bash", vec!["-lc"], "ls"));
    let (shell, _, _) = shell_command_prefix(false, false, Some("/bin/zsh"), "ls");
    assert_eq!(shell, "/bin/zsh");
    let (shell, args, command) = shell_command_prefix(true, true, None, "ls");
    assert_eq!((shell.as_str(), args), ("pwsh.exe", vec!["-NoProfile", "-Command"]));
    assert_eq!(command, "[Console]::InputEncoding = [System.Text.Encoding]::UTF8; [Console]::OutputEncoding = [System.Text.Encoding]::UTF8; $OutputEncoding = [System.Text.Encoding]::UTF8; ls");
    assert_eq!(shell_command_prefix(true, false, None, "ls").0, "powershell.exe");
}

#[test]
fn tool_content_reads_back() {
    let content = format_tool_content("ls", "/w", true, "\n \nout\r\nmore\n");
    assert_eq!(content, "command: ls\nworkdir: /w\nsuccess: true\n\n\n \nout\r\nmore\n");
    assert!(tool_content_success(&content));
    assert_eq!(normalize_tool_content_for_display(&content), "out\nmore");
    let failed = format_tool_content("ls", "/w", false, "");
    assert!(!tool_content_success(&failed));
    assert_eq!(normalize_tool_content_for_display(&failed), "(no output)");
    assert_eq!(normalize_tool_content_for_display("command: x\nplain"), "command: x\nplain");
    let two_lines = format_tool_content("a\nb", "/w", true, "out");
    assert!(!tool_content_success(&two_lines));
    assert_eq!(normalize_tool_content_for_display(&two_lines), two_lines);
}

#[test]
fn output_is_described() {
    assert_eq!(describe_output("", " "), "(no output)");
    assert_eq!(describe_output("a", ""), "stdout:\na");
    assert_eq!(describe_output("a", "b"), "stdout:\na\n\nstderr:\nb");
    assert_eq!(describe_output("a\n", "b"), "stdout:\na\n\nstderr:\nb");
    assert_eq!(describe_output(" ", "b"), "stderr:\nb");
    let outcome = CommandOutcome::finished("c", "/w", true, "a", "");
    assert!(outcome.success);
    assert_eq!(outcome.tool_content, "command: c\nworkdir: /w\nsuccess: true\n\nstdout:\na");
    assert!(CommandOutcome::rejected("c", "/w").tool_content.ends_with("command rejected by user"));
    assert!(CommandOutcome::not_started("c", "/w", "sh", "e")
        .tool_content
        .ends_with("failed to run shell command via sh: e"));
}

#[test]
fn commands_stay_in_the_workspace() {
    assert!(matches!(choose_workdir(None), WorkdirChoice::Root));
    assert!(matches!(choose_workdir(Some("")), WorkdirChoice::Root));
    assert!(matches!(choose_workdir(Some(".")), WorkdirChoice::Root));
    assert!(matches!(choose_workdir(Some("a")), WorkdirChoice::FromRoot(path) if path == "a"));
    let path = |parts: &[&str]| {
        parts.iter().map(|part| part.as_bytes().to_vec()).collect::<Vec<Vec<u8>>>()
    };
    let root = path(&["/", "w"]);
    assert_eq!(resolve_workdir(&root, &path(&["/", "w"]), "s"), Ok(()));
    assert_eq!(resolve_workdir(&root, &path(&["/", "w", "a"]), "s"), Ok(()));
    assert_eq!(
        resolve_workdir(&root, &path(&["/", "ww"]), "s"),
        Err("workdir escapes workspace: s".to_string())
    );
    assert!(resolve_workdir(&root, &path(&["/"]), "s").is_err());
}
