//! What the terminal shows.

use vstd::prelude::*;

use crate::number::{decimal_text, format_count, grouped};
use crate::text::{
    begins_with, concat, ends_in, has_text, join_prefix, joined, law_lines_join_back,
    lemma_concat_holds, lemma_middle_occurs, lemma_part_of_part, lines, lower, same_text,
    split_lines, to_chars, to_lower, trim, trimmed, window,
};

verus! {

pub const COLOR_RESET: &'static str = "\x1b[0m";

pub const COLOR_BOLD: &'static str = "\x1b[1m";

pub const COLOR_BLUE: &'static str = "\x1b[34m";

pub const COLOR_CYAN: &'static str = "\x1b[36m";

pub const COLOR_GREEN: &'static str = "\x1b[32m";

pub const COLOR_YELLOW: &'static str = "\x1b[33m";

pub const COLOR_RED: &'static str = "\x1b[31m";

pub const COLOR_DIM: &'static str = "\x1b[2m";

/// The number of characters of a folded text that are shown.
pub const MAX_PREVIEW_CHARS: usize = 1_500;

/// The number of lines of a folded text that are shown.
pub const MAX_PREVIEW_LINES: usize = 10;

/// The number of lines of a tool call that are shown.
pub const MAX_TOOL_CALL_PREVIEW_LINES: usize = 10;

/// The number of characters of the workspace path in the status line.
pub const STATUS_PATH_CHARS: usize = 36;

/// The note under a text that was folded.
pub const FOLD_NOTE: &'static str =
    "[... folded in terminal view; full output kept in session history ...]";

/// `text` between a color and the reset sequence.
pub open spec fn styled(color: Seq<char>, text: Seq<char>) -> Seq<char> {
    color + text + COLOR_RESET@
}

/// Puts a text in a color.
pub fn style(color: &str, text: &str) -> (r: String)
    ensures
        r@ == styled(color@, text@),
{
    let mut r = color.to_owned();
    r.append(text);
    r.append(COLOR_RESET);
    r
}

/// The prompt of the line editor.
pub fn editor_prompt(label: &str) -> (r: String)
    ensures
        r@ == label@ + "> "@,
{
    let mut r = label.to_owned();
    r.append("> ");
    r
}

/// What stands before a message: the speaker in color.
pub open spec fn role_prefix_of(label: Seq<char>, color: Seq<char>) -> Seq<char> {
    styled(color, label + ">"@) + "  "@
}

/// What stands before a message of the given speaker.
pub fn role_prefix(label: &str, color: &str) -> (r: String)
    ensures
        r@ == role_prefix_of(label@, color@),
{
    let mut speaker = label.to_owned();
    speaker.append(">");
    let mut r = style(color, &speaker);
    r.append("  ");
    r
}

/// The first lines of a text, and of those the first characters.
pub open spec fn preview_of(text: Seq<char>, max_lines: int) -> Seq<char> {
    let all = lines(text);
    let shown = if all.len() <= max_lines {
        all
    } else {
        all.take(max_lines)
    };
    let clipped = joined(shown, "\n"@);
    if clipped.len() > MAX_PREVIEW_CHARS {
        clipped.take(MAX_PREVIEW_CHARS as int)
    } else {
        clipped
    }
}

/// A preview, which a note follows where it does not show the whole text.
pub open spec fn folded(text: Seq<char>, max_lines: int) -> Seq<char> {
    let preview = preview_of(text, max_lines);
    if lines(text).len() > max_lines || text.len() > preview.len() {
        let gap = if preview.len() > 0 && preview.last() == '\n' {
            preview
        } else {
            preview.push('\n')
        };
        gap + styled(COLOR_DIM@, FOLD_NOTE@)
    } else {
        preview
    }
}

/// Folds a text to at most `max_lines` lines for display.
pub fn fold_lines_for_display(text: &str, max_lines: usize) -> (r: String)
    ensures
        r@ == folded(text@, max_lines as int),
{
    let all = split_lines(text);
    let shown: usize = if all.len() <= max_lines {
        all.len()
    } else {
        max_lines
    };
    let clipped = join_prefix(&all, shown, "\n");
    proof {
        assert(lines(text@).take(lines(text@).len() as int) =~= lines(text@));
    }
    let chars = to_chars(&clipped);
    let kept: usize = if chars.len() > MAX_PREVIEW_CHARS {
        MAX_PREVIEW_CHARS
    } else {
        chars.len()
    };
    let mut preview = window(&chars, 0, kept);
    proof {
        assert(chars@.subrange(0, kept as int) =~= preview_of(text@, max_lines as int));
    }
    if all.len() > max_lines || text.unicode_len() > kept {
        if kept == 0 || chars[kept - 1] != '\n' {
            preview.push('\n');
        }
        preview.append(style(COLOR_DIM, FOLD_NOTE).as_str());
    }
    preview
}

/// A folded text shows no more than a preview and the note.
pub proof fn law_folded_is_bounded(text: Seq<char>, max_lines: int)
    ensures
        preview_of(text, max_lines).len() <= MAX_PREVIEW_CHARS,
        folded(text, max_lines).len() <= MAX_PREVIEW_CHARS + 1 + styled(
            COLOR_DIM@,
            FOLD_NOTE@,
        ).len(),
{
}

/// Folds a text for display.
pub fn fold_for_display(text: &str) -> (r: String)
    ensures
        r@ == folded(text@, MAX_PREVIEW_LINES as int),
{
    fold_lines_for_display(text, MAX_PREVIEW_LINES)
}

/// A path cut to at most `max_chars` characters, of which an ellipsis is the first where
/// something was cut off.
pub open spec fn shortened(path: Seq<char>, max_chars: int) -> Seq<char> {
    if path.len() <= max_chars {
        path
    } else if max_chars <= 1 {
        "…"@
    } else {
        "…"@ + path.skip(path.len() - (max_chars - 1))
    }
}

/// Cuts a displayed path at its front.
pub fn shorten_path(path: &str, max_chars: usize) -> (r: String)
    ensures
        r@ == shortened(path@, max_chars as int),
{
    let chars = to_chars(path);
    if chars.len() <= max_chars {
        return path.to_owned();
    }
    if max_chars <= 1 {
        return "…".to_owned();
    }
    let mut r = "…".to_owned();
    let from: usize = chars.len() - (max_chars - 1);
    r.append(window(&chars, from, chars.len()).as_str());
    proof {
        assert(chars@.subrange(from as int, chars@.len() as int) =~= path@.skip(from as int));
    }
    r
}

/// A shortened path is no longer than asked for, unless not even the ellipsis fits; its end is
/// that of the path.
pub proof fn law_shortened_fits(path: Seq<char>, max_chars: int)
    ensures
        max_chars >= 1 ==> shortened(path, max_chars).len() <= max_chars,
        path.len() <= max_chars ==> shortened(path, max_chars) == path,
        1 < max_chars < path.len() ==> shortened(path, max_chars).skip(1) == path.skip(
            path.len() - (max_chars - 1),
        ),
{
    reveal_strlit("…");
    if 1 < max_chars < path.len() {
        assert(shortened(path, max_chars).skip(1) =~= path.skip(path.len() - (max_chars - 1)));
    }
}

/// The status line: workspace, model, tokens in use of those there are, and all tokens so far.
pub open spec fn statusline_of(
    workspace_root: Seq<char>,
    model: Seq<char>,
    active_tokens: nat,
    total_context_tokens: nat,
    percent: Seq<char>,
    cumulative_tokens: nat,
) -> Seq<char> {
    styled(
        COLOR_DIM@,
        shortened(workspace_root, STATUS_PATH_CHARS as int) + "  "@ + model + "  "@ + grouped(
            decimal_text(active_tokens),
        ) + "/"@ + grouped(decimal_text(total_context_tokens)) + " ("@ + percent + "%)  total "@
            + grouped(decimal_text(cumulative_tokens)),
    )
}

/// The status line. `percent` is the share of the context in use, already written out.
pub fn statusline(
    workspace_root: &str,
    model: &str,
    active_tokens: u64,
    total_context_tokens: u64,
    percent: &str,
    cumulative_tokens: u64,
) -> (r: String)
    ensures
        r@ == statusline_of(
            workspace_root@,
            model@,
            active_tokens as nat,
            total_context_tokens as nat,
            percent@,
            cumulative_tokens as nat,
        ),
{
    let mut line = shorten_path(workspace_root, STATUS_PATH_CHARS);
    line.append("  ");
    line.append(model);
    line.append("  ");
    line.append(format_count(active_tokens).as_str());
    line.append("/");
    line.append(format_count(total_context_tokens).as_str());
    line.append(" (");
    line.append(percent);
    line.append("%)  total ");
    line.append(format_count(cumulative_tokens).as_str());
    style(COLOR_DIM, &line)
}

/// The line that shows a tool's result.
pub open spec fn tool_result_of(content: Seq<char>, success: bool) -> Seq<char> {
    styled(if success { COLOR_CYAN@ } else { COLOR_RED@ }, "tool>"@) + " "@ + folded(
        content,
        MAX_PREVIEW_LINES as int,
    )
}

/// The line that shows a tool's result, in red where the tool failed.
pub fn tool_result_text(content: &str, success: bool) -> (r: String)
    ensures
        r@ == tool_result_of(content@, success),
{
    let mut r = if success {
        style(COLOR_CYAN, "tool>")
    } else {
        style(COLOR_RED, "tool>")
    };
    r.append(" ");
    r.append(fold_for_display(content).as_str());
    r
}

/// The line that shows an error of the model's service.
pub fn api_error_text(message: &str) -> (r: String)
    ensures
        r@ == styled(COLOR_RED@, "api error>"@) + " "@ + folded(
            message@,
            MAX_PREVIEW_LINES as int,
        ),
{
    let mut r = style(COLOR_RED, "api error>");
    r.append(" ");
    r.append(fold_for_display(message).as_str());
    r
}

/// The text that shows a shell command and where it runs.
pub open spec fn tool_call_of(command: Seq<char>, workdir: Seq<char>) -> Seq<char> {
    styled(COLOR_CYAN@, "tool[shell]>"@) + " "@ + folded(
        command + "\n(cwd: "@ + workdir + ")"@,
        MAX_TOOL_CALL_PREVIEW_LINES as int,
    )
}

/// The text that shows a shell command and where it runs.
pub fn tool_call_text(command: &str, workdir: &str) -> (r: String)
    ensures
        r@ == tool_call_of(command@, workdir@),
{
    let mut message = command.to_owned();
    message.append("\n(cwd: ");
    message.append(workdir);
    message.append(")");
    let mut r = style(COLOR_CYAN, "tool[shell]>");
    r.append(" ");
    r.append(fold_lines_for_display(&message, MAX_TOOL_CALL_PREVIEW_LINES).as_str());
    r
}

/// A user's answer to the question whether a shell command may run.
#[derive(Debug, Clone, Copy, PartialEq, Eq, Structural)]
pub enum Approval {
    /// This command may run.
    Yes,
    /// This command may not run.
    No,
    /// This command and all further ones may run.
    Auto,
    /// The answer was none of those.
    Unclear,
}

/// What an answer means, without regard to case and surrounding space; no answer is a refusal.
pub open spec fn approval_of(answer: Seq<char>) -> Approval {
    let a = lower(trimmed(answer));
    if a == "y"@ || a == "yes"@ {
        Approval::Yes
    } else if a == "n"@ || a == "no"@ || a == ""@ {
        Approval::No
    } else if a == "a"@ || a == "auto"@ {
        Approval::Auto
    } else {
        Approval::Unclear
    }
}

/// Reads a user's answer.
pub fn read_approval(answer: &str) -> (r: Approval)
    ensures
        r == approval_of(answer@),
{
    let a = to_lower(trim(answer).as_str());
    if same_text(&a, "y") || same_text(&a, "yes") {
        Approval::Yes
    } else if same_text(&a, "n") || same_text(&a, "no") || same_text(&a, "") {
        Approval::No
    } else if same_text(&a, "a") || same_text(&a, "auto") {
        Approval::Auto
    } else {
        Approval::Unclear
    }
}

/// The question that asks for approval.
pub fn approval_question() -> (r: String)
    ensures
        r@ == styled(COLOR_YELLOW@, "approval> "@) + styled(
            COLOR_DIM@,
            "[y]es / [n]o / [a]uto> "@,
        ),
{
    let mut r = style(COLOR_YELLOW, "approval> ");
    r.append(style(COLOR_DIM, "[y]es / [n]o / [a]uto> ").as_str());
    r
}

/// What is shown after an answer: nothing where it settles one command.
pub open spec fn approval_reply_of(answer: Approval) -> Option<Seq<char>> {
    match answer {
        Approval::Auto => Some(
            styled(COLOR_YELLOW@, "approval>"@)
                + " auto approval enabled for the rest of this run"@,
        ),
        Approval::Unclear => Some(
            styled(COLOR_RED@, "approval>"@) + " please answer y, n, or a"@,
        ),
        _ => None,
    }
}

/// What is shown after an answer.
pub fn approval_reply(answer: Approval) -> (r: Option<String>)
    ensures
        r is Some <==> approval_reply_of(answer) is Some,
        r is Some ==> r->0@ == approval_reply_of(answer)->0,
{
    match answer {
        Approval::Auto => {
            let mut r = style(COLOR_YELLOW, "approval>");
            r.append(" auto approval enabled for the rest of this run");
            Some(r)
        },
        Approval::Unclear => {
            let mut r = style(COLOR_RED, "approval>");
            r.append(" please answer y, n, or a");
            Some(r)
        },
        _ => None,
    }
}

/// Settles whether a command may run, or `None` where the question is asked again. The answer
/// for all commands switches auto approval on, and nothing else changes it.
pub fn prompt_for_approval(answer: Approval, auto_approve: &mut bool) -> (r: Option<bool>)
    ensures
        r == match answer {
            Approval::Yes => Some(true),
            Approval::No => Some(false),
            Approval::Auto => Some(true),
            Approval::Unclear => None,
        },
        *final(auto_approve) == (*old(auto_approve) || answer is Auto),
{
    match answer {
        Approval::Yes => Some(true),
        Approval::No => Some(false),
        Approval::Auto => {
            *auto_approve = true;
            Some(true)
        },
        Approval::Unclear => None,
    }
}

/// One frame of the sign that the model is at work. The frames turn through four strokes.
pub open spec fn spinner_frame_of(index: nat) -> Seq<char> {
    let stroke = if index % 4 == 0 {
        "|"@
    } else if index % 4 == 1 {
        "/"@
    } else if index % 4 == 2 {
        "-"@
    } else {
        "\\"@
    };
    "\r"@ + styled(COLOR_DIM@, "working"@ + stroke + " "@) + " "@ + styled(
        COLOR_DIM@,
        "waiting for model response"@,
    )
}

/// One frame of the sign that the model is at work.
pub fn spinner_frame(index: usize) -> (r: String)
    ensures
        r@ == spinner_frame_of(index as nat),
{
    let mut label = "working".to_owned();
    let turn: usize = index % 4;
    label.append(
        if turn == 0 {
            "|"
        } else if turn == 1 {
            "/"
        } else if turn == 2 {
            "-"
        } else {
            "\\"
        },
    );
    label.append(" ");
    let mut r = "\r".to_owned();
    r.append(style(COLOR_DIM, &label).as_str());
    r.append(" ");
    r.append(style(COLOR_DIM, "waiting for model response").as_str());
    r
}

/// A line of its own.
pub open spec fn plain_line_of(text: Seq<char>) -> Seq<char> {
    text + "\n"@
}

fn plain_line(text: &str) -> (r: String)
    ensures
        r@ == plain_line_of(text@),
{
    let mut r = text.to_owned();
    r.append("\n");
    r
}

/// A line in a color.
pub open spec fn heading_of(color: Seq<char>, text: Seq<char>) -> Seq<char> {
    styled(color, text) + "\n"@
}

fn heading(color: &str, text: &str) -> (r: String)
    ensures
        r@ == heading_of(color@, text@),
{
    let mut r = style(color, text);
    r.append("\n");
    r
}

/// A line that explains a flag or a command.
pub open spec fn option_line_of(flag: Seq<char>, meaning: Seq<char>) -> Seq<char> {
    "  "@ + styled(COLOR_DIM@, flag) + "  "@ + meaning + "\n"@
}

fn option_line(flag: &str, meaning: &str) -> (r: String)
    ensures
        r@ == option_line_of(flag@, meaning@),
{
    let mut r = "  ".to_owned();
    r.append(style(COLOR_DIM, flag).as_str());
    r.append("  ");
    r.append(meaning);
    r.append("\n");
    r
}

/// A line that names three alternatives.
pub open spec fn either_line_of(a: Seq<char>, b: Seq<char>, c: Seq<char>) -> Seq<char> {
    "  "@ + styled(COLOR_DIM@, a) + ", "@ + styled(COLOR_DIM@, b) + ", or "@ + styled(
        COLOR_DIM@,
        c,
    ) + "\n"@
}

fn either_line(a: &str, b: &str, c: &str) -> (r: String)
    ensures
        r@ == either_line_of(a@, b@, c@),
{
    let mut r = "  ".to_owned();
    r.append(style(COLOR_DIM, a).as_str());
    r.append(", ");
    r.append(style(COLOR_DIM, b).as_str());
    r.append(", or ");
    r.append(style(COLOR_DIM, c).as_str());
    r.append("\n");
    r
}

/// A line that gives a value after its label.
pub open spec fn field_line_of(label: Seq<char>, value: Seq<char>) -> Seq<char> {
    label + value + "\n"@
}

fn field_line(label: &str, value: &str) -> (r: String)
    ensures
        r@ == field_line_of(label@, value@),
{
    let mut r = label.to_owned();
    r.append(value);
    r.append("\n");
    r
}

/// The approval mode in its color.
pub open spec fn approval_mode_of(auto_approve: bool) -> Seq<char> {
    if auto_approve {
        styled(COLOR_YELLOW@, "auto"@)
    } else {
        styled(COLOR_CYAN@, "ask"@)
    }
}

/// The approval mode in its color.
pub fn approval_mode(auto_approve: bool) -> (r: String)
    ensures
        r@ == approval_mode_of(auto_approve),
{
    if auto_approve {
        style(COLOR_YELLOW, "auto")
    } else {
        style(COLOR_CYAN, "ask")
    }
}

/// The line of the help that shows the approval mode.
pub open spec fn approval_line_of(auto_approve: bool) -> Seq<char> {
    field_line_of("  approval mode: "@, approval_mode_of(auto_approve))
}

fn approval_line(auto_approve: bool) -> (r: String)
    ensures
        r@ == approval_line_of(auto_approve),
{
    field_line("  approval mode: ", approval_mode(auto_approve).as_str())
}

/// The text of the command-line help.
pub open spec fn help_of() -> Seq<char> {
    Seq::<char>::empty()
        + heading_of(COLOR_BOLD@, "openansys-agent"@)
        + "\n"@
        + heading_of(COLOR_DIM@, "usage:"@)
        + plain_line_of("  openansys-agent [--model MODEL] [--reasoning-effort LEVEL] [--enable-thinking BOOL] [--token-limit TOKENS] [--external-skills PATHS] [--auto]"@)
        + plain_line_of("  openansys-agent resume [--last] [--model MODEL] [--reasoning-effort LEVEL] [--enable-thinking BOOL] [--token-limit TOKENS] [--external-skills PATHS] [--auto]"@)
        + "\n"@
        + heading_of(COLOR_DIM@, "options:"@)
        + option_line_of("--model MODEL"@, "Override the model name"@)
        + option_line_of("--reasoning-effort LEVEL"@, "Set model reasoning effort (commonly low/medium/high)"@)
        + option_line_of("--enable-thinking BOOL"@, "Enable or disable model thinking tokens"@)
        + option_line_of("--token-limit TOKENS"@, "Override the session history compaction threshold"@)
        + option_line_of("--external-skills PATHS"@, "Extra skill roots to scan (same separator format as PATH)"@)
        + option_line_of("--auto"@, "Auto-approve shell commands instead of asking first"@)
        + option_line_of("resume"@, "Resume a previous session for this workspace"@)
        + option_line_of("--last"@, "Resume the most recent session without prompting"@)
        + "\n"@
        + heading_of(COLOR_DIM@, "environment:"@)
        + either_line_of("OPENANSYS_API_KEY"@, "MINI_CODEX_API_KEY"@, "OPENAI_API_KEY"@)
        + either_line_of("OPENANSYS_BASE_URL"@, "MINI_CODEX_BASE_URL"@, "OPENAI_BASE_URL"@)
        + "\n"@
        + heading_of(COLOR_DIM@, "interactive commands:"@)
        + option_line_of("/continue"@, "Retry the previous turn without adding a new user message"@)
        + option_line_of("/run"@, "Scan input/ and build the ANSYS input bundle"@)
        + option_line_of("/run-stage2"@, "Skip Stage 1 and run directly from the latest apdl-k/current_stage2.apdl"@)
        + option_line_of("/help"@, "Show in-session help"@)
        + option_line_of("/auto on"@, "Enable auto approval for shell commands"@)
        + option_line_of("/auto off"@, "Require approval before shell commands"@)
        + option_line_of("/exit"@, "Exit the current session"@)
        + option_line_of("/quit"@, "Exit the current session"@)
}

/// The command-line help.
pub fn help_text() -> (r: String)
    ensures
        r@ == help_of(),
{
    let mut r = String::new();
    r.append(heading(COLOR_BOLD, "openansys-agent").as_str());
    r.append("\n");
    r.append(heading(COLOR_DIM, "usage:").as_str());
    r.append(plain_line("  openansys-agent [--model MODEL] [--reasoning-effort LEVEL] [--enable-thinking BOOL] [--token-limit TOKENS] [--external-skills PATHS] [--auto]").as_str());
    r.append(plain_line("  openansys-agent resume [--last] [--model MODEL] [--reasoning-effort LEVEL] [--enable-thinking BOOL] [--token-limit TOKENS] [--external-skills PATHS] [--auto]").as_str());
    r.append("\n");
    r.append(heading(COLOR_DIM, "options:").as_str());
    r.append(option_line("--model MODEL", "Override the model name").as_str());
    r.append(option_line("--reasoning-effort LEVEL", "Set model reasoning effort (commonly low/medium/high)").as_str());
    r.append(option_line("--enable-thinking BOOL", "Enable or disable model thinking tokens").as_str());
    r.append(option_line("--token-limit TOKENS", "Override the session history compaction threshold").as_str());
    r.append(option_line("--external-skills PATHS", "Extra skill roots to scan (same separator format as PATH)").as_str());
    r.append(option_line("--auto", "Auto-approve shell commands instead of asking first").as_str());
    r.append(option_line("resume", "Resume a previous session for this workspace").as_str());
    r.append(option_line("--last", "Resume the most recent session without prompting").as_str());
    r.append("\n");
    r.append(heading(COLOR_DIM, "environment:").as_str());
    r.append(either_line("OPENANSYS_API_KEY", "MINI_CODEX_API_KEY", "OPENAI_API_KEY").as_str());
    r.append(either_line("OPENANSYS_BASE_URL", "MINI_CODEX_BASE_URL", "OPENAI_BASE_URL").as_str());
    r.append("\n");
    r.append(heading(COLOR_DIM, "interactive commands:").as_str());
    r.append(option_line("/continue", "Retry the previous turn without adding a new user message").as_str());
    r.append(option_line("/run", "Scan input/ and build the ANSYS input bundle").as_str());
    r.append(option_line("/run-stage2", "Skip Stage 1 and run directly from the latest apdl-k/current_stage2.apdl").as_str());
    r.append(option_line("/help", "Show in-session help").as_str());
    r.append(option_line("/auto on", "Enable auto approval for shell commands").as_str());
    r.append(option_line("/auto off", "Require approval before shell commands").as_str());
    r.append(option_line("/exit", "Exit the current session").as_str());
    r.append(option_line("/quit", "Exit the current session").as_str());
    r
}

/// The text of the help within a session.
pub open spec fn repl_help_of(auto_approve: bool, history_path: Seq<char>) -> Seq<char> {
    Seq::<char>::empty()
        + heading_of(COLOR_BOLD@, "interactive help"@)
        + "\n"@
        + heading_of(COLOR_DIM@, "slash commands:"@)
        + option_line_of("/continue"@, "Retry the previous turn without adding a new user message"@)
        + option_line_of("/run"@, "Scan input/ and write source_context.json and input_summary.txt"@)
        + option_line_of("/run-stage2"@, "Skip Stage 1 and run directly from the latest apdl-k/current_stage2.apdl"@)
        + option_line_of("/help"@, "Show this help"@)
        + option_line_of("/auto on"@, "Enable auto approval for shell commands"@)
        + option_line_of("/auto off"@, "Require approval before shell commands"@)
        + option_line_of("/exit"@, "Exit the current session"@)
        + option_line_of("/quit"@, "Exit the current session"@)
        + "\n"@
        + heading_of(COLOR_DIM@, "current session:"@)
        + approval_line_of(auto_approve)
        + field_line_of("  history file: "@, history_path)
        + "\n"@
        + heading_of(COLOR_DIM@, "how to use it:"@)
        + plain_line_of("  - Type normal requests in plain language."@)
        + plain_line_of("  - Use /run to prepare the ANSYS input bundle from input/."@)
        + plain_line_of("  - Use /continue to retry the previous turn from the current saved history."@)
        + plain_line_of("  - The assistant may inspect files, edit code, run tests, and explain results."@)
        + plain_line_of("  - Shell commands run inside the current workspace only."@)
        + plain_line_of("  - In ask mode, you can approve or reject each shell command before execution."@)
        + plain_line_of("  - Ctrl-C cancels the current input line; Ctrl-D exits the session."@)
}

/// The help within a session.
pub fn repl_help_text(auto_approve: bool, history_path: &str) -> (r: String)
    ensures
        r@ == repl_help_of(auto_approve, history_path@),
{
    let mut r = String::new();
    r.append(heading(COLOR_BOLD, "interactive help").as_str());
    r.append("\n");
    r.append(heading(COLOR_DIM, "slash commands:").as_str());
    r.append(option_line("/continue", "Retry the previous turn without adding a new user message").as_str());
    r.append(option_line("/run", "Scan input/ and write source_context.json and input_summary.txt").as_str());
    r.append(option_line("/run-stage2", "Skip Stage 1 and run directly from the latest apdl-k/current_stage2.apdl").as_str());
    r.append(option_line("/help", "Show this help").as_str());
    r.append(option_line("/auto on", "Enable auto approval for shell commands").as_str());
    r.append(option_line("/auto off", "Require approval before shell commands").as_str());
    r.append(option_line("/exit", "Exit the current session").as_str());
    r.append(option_line("/quit", "Exit the current session").as_str());
    r.append("\n");
    r.append(heading(COLOR_DIM, "current session:").as_str());
    r.append(approval_line(auto_approve).as_str());
    r.append(field_line("  history file: ", history_path).as_str());
    r.append("\n");
    r.append(heading(COLOR_DIM, "how to use it:").as_str());
    r.append(plain_line("  - Type normal requests in plain language.").as_str());
    r.append(plain_line("  - Use /run to prepare the ANSYS input bundle from input/.").as_str());
    r.append(plain_line("  - Use /continue to retry the previous turn from the current saved history.").as_str());
    r.append(plain_line("  - The assistant may inspect files, edit code, run tests, and explain results.").as_str());
    r.append(plain_line("  - Shell commands run inside the current workspace only.").as_str());
    r.append(plain_line("  - In ask mode, you can approve or reject each shell command before execution.").as_str());
    r.append(plain_line("  - Ctrl-C cancels the current input line; Ctrl-D exits the session.").as_str());
    r
}

/// A text that is short enough is shown whole: one of no more lines than are shown and no more
/// than 1 500 characters, without carriage returns and without a line feed at its end.
pub proof fn law_short_texts_are_not_folded(text: Seq<char>, max_lines: int)
    requires
        lines(text).len() <= max_lines,
        text.len() <= 1_500,
        !text.contains('\r'),
        text.len() > 0 ==> text.last() != '\n',
    ensures
        folded(text, max_lines) == text,
{
    law_lines_join_back(text);
}

/// What is shown of a long text is its beginning: its first lines up to 1 500 characters, and
/// then a note that it was folded.
pub proof fn law_folded_texts_show_beginning(text: Seq<char>, max_lines: int)
    requires
        lines(text).len() > max_lines >= 0,
    ensures
        ({
            let shown = joined(lines(text).take(max_lines), "\n"@);
            let kept = if shown.len() > 1_500 {
                shown.take(1_500)
            } else {
                shown
            };
            &&& begins_with(folded(text, max_lines), kept)
            &&& has_text(folded(text, max_lines), FOLD_NOTE@)
        }),
{
    let shown = joined(lines(text).take(max_lines), "\n"@);
    let kept = if shown.len() > 1_500 {
        shown.take(1_500)
    } else {
        shown
    };
    let all = folded(text, max_lines);
    assert(preview_of(text, max_lines) == kept);
    assert(all.subrange(0, kept.len() as int) =~= kept);
    let gap = if kept.len() > 0 && kept.last() == '\n' {
        kept
    } else {
        kept.push('\n')
    };
    assert(all =~= (gap + COLOR_DIM@) + FOLD_NOTE@ + COLOR_RESET@);
    lemma_middle_occurs(gap + COLOR_DIM@, FOLD_NOTE@, COLOR_RESET@);
}

/// A command runs only on one of the words of consent, in any case and with space around it, and
/// only two of them are consent for all further commands.
pub proof fn law_consent(answer: Seq<char>)
    ensures
        ({
            let a = lower(trimmed(answer));
            &&& approval_of(answer) is Yes <==> a == "y"@ || a == "yes"@
            &&& approval_of(answer) is Auto <==> a == "a"@ || a == "auto"@
            &&& approval_of(answer) is No <==> a == "n"@ || a == "no"@ || a.len() == 0
        }),
{
    reveal_strlit("y");
    reveal_strlit("yes");
    reveal_strlit("n");
    reveal_strlit("no");
    reveal_strlit("");
    reveal_strlit("a");
    reveal_strlit("auto");
    let a = lower(trimmed(answer));
    if a.len() == 0 {
        assert(a =~= ""@);
    }
    if a == "y"@ || a == "yes"@ {
        assert(a[0] == 'y');
    } else if a == "n"@ || a == "no"@ {
        assert(a[0] == 'n');
    }
}

/// The status line names the model and shows both numbers of tokens and the total, each in
/// groups.
pub proof fn law_statusline_tells(
    workspace_root: Seq<char>,
    model: Seq<char>,
    active_tokens: nat,
    total_context_tokens: nat,
    percent: Seq<char>,
    cumulative_tokens: nat,
)
    ensures
        ({
            let line = statusline_of(
                workspace_root,
                model,
                active_tokens,
                total_context_tokens,
                percent,
                cumulative_tokens,
            );
            &&& has_text(line, "  "@ + model)
            &&& has_text(line, grouped(decimal_text(active_tokens)) + "/"@)
            &&& has_text(line, "/"@ + grouped(decimal_text(total_context_tokens)))
            &&& has_text(line, " ("@ + percent)
            &&& has_text(line, "%)  total "@ + grouped(decimal_text(cumulative_tokens)))
            &&& workspace_root.len() <= 36 ==> has_text(line, workspace_root + "  "@)
        }),
{
    let parts = seq![
        shortened(workspace_root, STATUS_PATH_CHARS as int),
        "  "@,
        model,
        "  "@,
        grouped(decimal_text(active_tokens)),
        "/"@,
        grouped(decimal_text(total_context_tokens)),
        " ("@,
        percent,
        "%)  total "@,
        grouped(decimal_text(cumulative_tokens)),
    ];
    let text = concat(parts, 11);
    let line = statusline_of(
        workspace_root,
        model,
        active_tokens,
        total_context_tokens,
        percent,
        cumulative_tokens,
    );
    reveal_with_fuel(concat, 12);
    assert(Seq::<char>::empty() + parts[0] =~= parts[0]);
    assert(line == COLOR_DIM@ + text + COLOR_RESET@);
    lemma_middle_occurs(COLOR_DIM@, text, COLOR_RESET@);
    lemma_concat_holds(parts, 11, 0);
    lemma_part_of_part(line, text, parts[0] + parts[1]);
    lemma_concat_holds(parts, 11, 1);
    lemma_part_of_part(line, text, parts[1] + parts[2]);
    lemma_concat_holds(parts, 11, 4);
    lemma_part_of_part(line, text, parts[4] + parts[5]);
    lemma_concat_holds(parts, 11, 5);
    lemma_part_of_part(line, text, parts[5] + parts[6]);
    lemma_concat_holds(parts, 11, 7);
    lemma_part_of_part(line, text, parts[7] + parts[8]);
    lemma_concat_holds(parts, 11, 9);
    lemma_part_of_part(line, text, parts[9] + parts[10]);
}

/// What a tool put out is shown after its sign, folded after so many lines and not otherwise
/// changed; whether it failed shows in the color alone.
pub proof fn law_tool_results_are_shown(content: Seq<char>)
    ensures
        forall|success: bool|
            ends_in(
                #[trigger] tool_result_of(content, success),
                "tool>"@ + COLOR_RESET@ + " "@ + folded(content, MAX_PREVIEW_LINES as int),
            ),
        begins_with(tool_result_of(content, true), COLOR_CYAN@),
        begins_with(tool_result_of(content, false), COLOR_RED@),
{
    assert forall|success: bool| true implies ends_in(
        #[trigger] tool_result_of(content, success),
        "tool>"@ + COLOR_RESET@ + " "@ + folded(content, MAX_PREVIEW_LINES as int),
    ) by {
        let t = tool_result_of(content, success);
        let tail = "tool>"@ + COLOR_RESET@ + " "@ + folded(content, MAX_PREVIEW_LINES as int);
        assert(t.subrange(t.len() - tail.len(), t.len() as int) =~= tail);
    }
    let good = tool_result_of(content, true);
    let bad = tool_result_of(content, false);
    assert(good.subrange(0, COLOR_CYAN@.len() as int) =~= COLOR_CYAN@);
    assert(bad.subrange(0, COLOR_RED@.len() as int) =~= COLOR_RED@);
}

/// A short command is shown whole, with the directory that it runs in.
pub proof fn law_short_commands_are_shown_whole(command: Seq<char>, workdir: Seq<char>)
    requires
        ({
            let text = command + "\n(cwd: "@ + workdir + ")"@;
            &&& lines(text).len() <= MAX_TOOL_CALL_PREVIEW_LINES
            &&& text.len() <= 1_500
            &&& !text.contains('\r')
        }),
    ensures
        ends_in(tool_call_of(command, workdir), " "@ + command + "\n(cwd: "@ + workdir + ")"@),
{
    reveal_strlit(")");
    let text = command + "\n(cwd: "@ + workdir + ")"@;
    assert(text.last() == ')');
    law_short_texts_are_not_folded(text, MAX_TOOL_CALL_PREVIEW_LINES as int);
    let t = tool_call_of(command, workdir);
    let tail = " "@ + command + "\n(cwd: "@ + workdir + ")"@;
    assert(t.subrange(t.len() - tail.len(), t.len() as int) =~= tail);
}

/// The lines of the help hold what they are made for, whole, and end with a line feed; the mode
/// in which commands are approved is named in its line.
pub proof fn law_help_lines_are_whole(a: Seq<char>, b: Seq<char>)
    ensures
        plain_line_of(a) == a + "\n"@,
        ends_in(heading_of(a, b), b + COLOR_RESET@ + "\n"@),
        ends_in(option_line_of(a, b), "  "@ + b + "\n"@),
        has_text(option_line_of(a, b), a),
        ends_in(field_line_of(a, b), b + "\n"@),
        begins_with(field_line_of(a, b), a),
        has_text(approval_mode_of(true), "auto"@),
        has_text(approval_mode_of(false), "ask"@),
        has_text(approval_line_of(true), approval_mode_of(true)),
        has_text(approval_line_of(false), approval_mode_of(false)),
{
    let h = heading_of(a, b);
    let close = b + COLOR_RESET@ + "\n"@;
    assert(h.subrange(h.len() - close.len(), h.len() as int) =~= close);
    let o = option_line_of(a, b);
    let meaning = "  "@ + b + "\n"@;
    assert(o.subrange(o.len() - meaning.len(), o.len() as int) =~= meaning);
    assert(o =~= ("  "@ + COLOR_DIM@) + a + (COLOR_RESET@ + "  "@ + b + "\n"@));
    lemma_middle_occurs("  "@ + COLOR_DIM@, a, COLOR_RESET@ + "  "@ + b + "\n"@);
    let f = field_line_of(a, b);
    let value = b + "\n"@;
    assert(f.subrange(f.len() - value.len(), f.len() as int) =~= value);
    assert(f.subrange(0, a.len() as int) =~= a);
    lemma_middle_occurs(COLOR_YELLOW@, "auto"@, COLOR_RESET@);
    lemma_middle_occurs(COLOR_CYAN@, "ask"@, COLOR_RESET@);
    lemma_middle_occurs("  approval mode: "@, approval_mode_of(true), "\n"@);
    lemma_middle_occurs("  approval mode: "@, approval_mode_of(false), "\n"@);
}

/// The sign that the model is at work turns: it looks the same after every fourth frame, and not
/// between.
pub proof fn law_spinner_turns(index: nat)
    ensures
        spinner_frame_of(index + 4) == spinner_frame_of(index),
        spinner_frame_of(index + 1) != spinner_frame_of(index),
        spinner_frame_of(index + 2) != spinner_frame_of(index),
        spinner_frame_of(index + 3) != spinner_frame_of(index),
{
    lemma_stroke_shows(index);
    lemma_stroke_shows(index + 1);
    lemma_stroke_shows(index + 2);
    lemma_stroke_shows(index + 3);
}

proof fn lemma_stroke_shows(index: nat)
    ensures
        ({
            let at = 1 + COLOR_DIM@.len() + 7;
            spinner_frame_of(index)[at as int] == if index % 4 == 0 {
                '|'
            } else if index % 4 == 1 {
                '/'
            } else if index % 4 == 2 {
                '-'
            } else {
                '\\'
            }
        }),
{
    reveal_strlit("|");
    reveal_strlit("/");
    reveal_strlit("-");
    reveal_strlit("\\");
    reveal_strlit("\r");
    reveal_strlit("working");
    reveal_strlit(" ");
}

} // verus!
