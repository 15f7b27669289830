use openansys_agent::ui::{
    api_error_text, approval_question, approval_reply, editor_prompt, fold_for_display,
    fold_lines_for_display, help_text, prompt_for_approval, read_approval, repl_help_text,
    role_prefix, shorten_path, spinner_frame, statusline, style, tool_call_text, tool_result_text,
    Approval, COLOR_CYAN, COLOR_DIM, COLOR_RED,
};

const NOTE: &str =
    "\x1b[2m[... folded in terminal view; full output kept in session history ...]\x1b[0m";

#[test]
fn styles_text() {
    assert_eq!(style(COLOR_RED, "x"), "\x1b[31mx\x1b[0m");
    assert_eq!(editor_prompt("you"), "you> ");
    assert_eq!(role_prefix("you", COLOR_CYAN), "\x1b[36myou>\x1b[0m  ");
}

#[test]
fn folds_long_text() {
    assert_eq!(fold_for_display("a\nb"), "a\nb");
    assert_eq!(fold_for_display("a\r\nb"), format!("a\nb\n{}", NOTE));
    assert_eq!(fold_lines_for_display("a\nb\nc", 2), format!("a\nb\n{}", NOTE));
    assert_eq!(fold_lines_for_display("", 0), "");
    let long = "x".repeat(1_501);
    assert_eq!(fold_for_display(&long), format!("{}\n{}", "x".repeat(1_500), NOTE));
    let edge = format!("{}\n{}", "x".repeat(1_499), "y");
    assert_eq!(fold_for_display(&edge), format!("{}\n{}", "x".repeat(1_499), NOTE));
}

#[test]
fn shortens_paths() {
    assert_eq!(shorten_path("/a/b", 4), "/a/b");
    assert_eq!(shorten_path("/a/b/c", 4), "…b/c");
    assert_eq!(shorten_path("/a/b/c", 1), "…");
    assert_eq!(shorten_path("/a", 0), "…");
}

#[test]
fn shows_the_status() {
    let expected = format!(
        "{}{}{}",
        COLOR_DIM, "/w  m  1_500/131_072 (1.1%)  total 2_000", "\x1b[0m"
    );
    assert_eq!(statusline("/w", "m", 1_500, 131_072, "1.1", 2_000), expected);
}

#[test]
fn shows_tool_calls_and_results() {
    assert_eq!(tool_result_text("ok", true), "\x1b[36mtool>\x1b[0m ok");
    assert_eq!(tool_result_text("no", false), "\x1b[31mtool>\x1b[0m no");
    assert_eq!(api_error_text("bad"), "\x1b[31mapi error>\x1b[0m bad");
    assert_eq!(
        tool_call_text("ls", "/w"),
        "\x1b[36mtool[shell]>\x1b[0m ls\n(cwd: /w)"
    );
}

#[test]
fn reads_approvals() {
    let mut auto_approve = false;
    assert_eq!(read_approval(" YES\n"), Approval::Yes);
    assert_eq!(prompt_for_approval(Approval::Yes, &mut auto_approve), Some(true));
    assert_eq!(read_approval("\n"), Approval::No);
    assert_eq!(read_approval("no"), Approval::No);
    assert_eq!(prompt_for_approval(Approval::No, &mut auto_approve), Some(false));
    assert_eq!(read_approval("maybe"), Approval::Unclear);
    assert_eq!(prompt_for_approval(Approval::Unclear, &mut auto_approve), None);
    assert!(!auto_approve);
    assert_eq!(read_approval("A"), Approval::Auto);
    assert_eq!(prompt_for_approval(Approval::Auto, &mut auto_approve), Some(true));
    assert!(auto_approve);
    assert_eq!(
        approval_question(),
        "\x1b[33mapproval> \x1b[0m\x1b[2m[y]es / [n]o / [a]uto> \x1b[0m"
    );
    assert_eq!(approval_reply(Approval::Yes), None);
    assert_eq!(
        approval_reply(Approval::Auto),
        Some("\x1b[33mapproval>\x1b[0m auto approval enabled for the rest of this run".to_string())
    );
    assert_eq!(
        approval_reply(Approval::Unclear),
        Some("\x1b[31mapproval>\x1b[0m please answer y, n, or a".to_string())
    );
}

#[test]
fn spins() {
    assert_eq!(
        spinner_frame(5),
        "\r\x1b[2mworking/ \x1b[0m \x1b[2mwaiting for model response\x1b[0m"
    );
    assert_ne!(spinner_frame(0), spinner_frame(3));
    assert_eq!(spinner_frame(0), spinner_frame(4));
}

#[test]
fn helps() {
    let help = help_text();
    assert!(help.starts_with("\x1b[1mopenansys-agent\x1b[0m\n\n\x1b[2musage:\x1b[0m\n"));
    assert!(help.contains("  \x1b[2m--token-limit TOKENS\x1b[0m  Override the session history compaction threshold\n"));
    assert!(help.contains("  \x1b[2mOPENANSYS_API_KEY\x1b[0m, \x1b[2mMINI_CODEX_API_KEY\x1b[0m, or \x1b[2mOPENAI_API_KEY\x1b[0m\n"));
    let ask = repl_help_text(false, "/h.json");
    assert!(ask.contains("  approval mode: \x1b[36mask\x1b[0m\n"));
    assert!(ask.contains("  history file: /h.json\n"));
    assert!(repl_help_text(true, "/h").contains("  approval mode: \x1b[33mauto\x1b[0m\n"));
}
