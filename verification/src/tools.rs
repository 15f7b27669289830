//! The tool that runs shell commands for the model.

use vstd::prelude::*;

use crate::text::{
    begins_with, chars_contain_any, concat, ends_in, has_any, has_text, inner_text, is_blank,
    is_space, join, join_from, joined, law_joins_compose, law_lines_join_back,
    law_words_hold_no_space, lemma_concat_holds, lemma_first_line, lemma_lines_not_empty,
    lemma_part_of_part, lines, lower, lower_chars, occurs_at, same_text, split_lines, split_words,
    starts_with, strip_prefix, text_in, text_or, texts, to_chars, to_lower, trim, trimmed, views,
    without_cr, words,
};

verus! {

/// The name of the tool.
pub const SHELL_TOOL: &'static str = "shell_tool";

/// The error on a call without a command.
pub const EMPTY_COMMAND: &'static str = "shell_tool requires a non-empty command";

/// The commands that would build or start the agent again.
pub const CARGO_PREFIXES: [&'static str; 4] = [
    "cargo run",
    "cargo build",
    "cargo test",
    "cargo check",
];

/// The names of the agent's own executable.
pub const SELF_MARKERS: [&'static str; 6] = [
    "openansys-agent.exe",
    "mini-codex.exe",
    "target\\debug\\openansys-agent.exe",
    "target\\debug\\mini-codex.exe",
    "target/debug/openansys-agent.exe",
    "target/debug/mini-codex.exe",
];

/// What the model is told of a command that would build or start the agent again.
pub const SELF_REFUSAL: &'static str =
    "refusing to rebuild or relaunch the currently running agent from inside the agent session. Run cargo commands in an external PowerShell window instead, and use plain language or /run inside this session.";

/// What the model is told of a command that the user did not approve.
pub const REJECTED: &'static str = "command rejected by user";

/// What is said of a command that wrote nothing.
pub const NO_OUTPUT: &'static str = "(no output)";

/// What a command for PowerShell begins with, so that it writes UTF-8.
pub const POWERSHELL_PREAMBLE: &'static str =
    "[Console]::InputEncoding = [System.Text.Encoding]::UTF8; [Console]::OutputEncoding = [System.Text.Encoding]::UTF8; $OutputEncoding = [System.Text.Encoding]::UTF8; ";

/// The shell where the environment names none.
pub const DEFAULT_SHELL: &'static str = "/bin/bash";

/// A command that the model wants to run.
#[derive(Debug)]
pub struct ShellRequest {
    pub command: String,
    pub workdir: Option<String>,
}

/// What came of a tool call.
#[derive(Debug)]
pub struct CommandOutcome {
    pub success: bool,
    pub tool_content: String,
}

/// The directory that is asked for, unless the text is blank.
pub open spec fn asked_dir(workdir: Option<Seq<char>>) -> Option<Seq<char>> {
    match workdir {
        Some(dir) if trimmed(dir).len() > 0 => Some(trimmed(dir)),
        _ => None,
    }
}

/// Reads the arguments of a call, once they are decoded.
pub fn parse_shell_tool_args(command: &str, workdir: Option<&str>) -> (r: Result<
    ShellRequest,
    String,
>)
    ensures
        match r {
            Ok(request) => {
                &&& trimmed(command@).len() > 0
                &&& request.command@ == trimmed(command@)
                &&& inner_text(request.workdir) == asked_dir(text_in(workdir))
            },
            Err(message) => trimmed(command@).len() == 0 && message@ == EMPTY_COMMAND@,
        },
{
    let command = trim(command);
    if command.as_str().is_empty() {
        return Err(EMPTY_COMMAND.to_owned());
    }
    let workdir = match workdir {
        Some(dir) => {
            let dir = trim(dir);
            if dir.as_str().is_empty() {
                None
            } else {
                Some(dir)
            }
        },
        None => None,
    };
    Ok(ShellRequest { command, workdir })
}

/// What is done with a call.
#[derive(Debug)]
pub enum ToolRoute {
    /// It runs a shell command.
    Shell,
    /// There is no such tool; the model is told this.
    Unsupported(String),
}

/// Decides what is done with a call, by the name of the tool.
pub fn route_tool_call(name: &str) -> (r: ToolRoute)
    ensures
        r is Shell <==> name@ == SHELL_TOOL@,
        r matches ToolRoute::Unsupported(content) ==> content@ == "unsupported tool: "@ + name@,
{
    if same_text(name, SHELL_TOOL) {
        return ToolRoute::Shell;
    }
    let mut content = "unsupported tool: ".to_owned();
    content.append(name);
    ToolRoute::Unsupported(content)
}

/// `t` begins with one of `prefixes`.
pub open spec fn begins_with_any(t: Seq<char>, prefixes: Seq<Seq<char>>) -> bool {
    exists|i: int| 0 <= i < prefixes.len() && begins_with(t, #[trigger] prefixes[i])
}

/// A command would build or start the agent again. Neither case nor the space between its words
/// matters.
pub open spec fn is_self_command(command: Seq<char>) -> bool {
    let t = lower(trimmed(command));
    begins_with_any(joined(words(t), " "@), texts(CARGO_PREFIXES@)) || has_any(
        t,
        texts(SELF_MARKERS@),
    )
}

/// Tells whether a command would build or start the agent again.
pub fn is_recursive_self_command(command: &str) -> (r: bool)
    ensures
        r == is_self_command(command@),
{
    let bare = trim(command);
    let normalized = to_lower(&bare);
    let collapsed = join(&split_words(&normalized), " ");
    let prefixes = CARGO_PREFIXES;
    let ghost all = texts(prefixes@);
    for i in 0..4
        invariant
            prefixes@.len() == 4,
            all == texts(prefixes@),
            all == texts(CARGO_PREFIXES@),
            collapsed@ == joined(words(lower(trimmed(command@))), " "@),
            forall|k: int| 0 <= k < i ==> !begins_with(collapsed@, #[trigger] all[k]),
    {
        proof {
            assert(all[i as int] == prefixes@[i as int]@);
        }
        if starts_with(&collapsed, prefixes[i]) {
            return true;
        }
    }
    let markers = SELF_MARKERS;
    chars_contain_any(&lower_chars(&bare), &markers)
}

/// How a command is run: the shell, its arguments before the command, and the command.
pub fn shell_command_prefix(
    windows: bool,
    has_pwsh: bool,
    shell: Option<&str>,
    command: &str,
) -> (r: (String, Vec<&'static str>, String))
    ensures
        windows ==> {
            &&& r.0@ == if has_pwsh {
                "pwsh.exe"@
            } else {
                "powershell.exe"@
            }
            &&& texts(r.1@) == seq!["-NoProfile"@, "-Command"@]
            &&& r.2@ == POWERSHELL_PREAMBLE@ + command@
        },
        !windows ==> {
            &&& r.0@ == text_or(text_in(shell), DEFAULT_SHELL@)
            &&& texts(r.1@) == seq!["-lc"@]
            &&& r.2@ == command@
        },
{
    let mut args: Vec<&'static str> = Vec::new();
    if windows {
        args.push("-NoProfile");
        args.push("-Command");
        proof {
            assert(texts(args@) =~= seq!["-NoProfile"@, "-Command"@]);
        }
        let mut wrapped = POWERSHELL_PREAMBLE.to_owned();
        wrapped.append(command);
        let shell = if has_pwsh {
            "pwsh.exe".to_owned()
        } else {
            "powershell.exe".to_owned()
        };
        (shell, args, wrapped)
    } else {
        args.push("-lc");
        proof {
            assert(texts(args@) =~= seq!["-lc"@]);
        }
        let shell = match shell {
            Some(name) => name.to_owned(),
            None => DEFAULT_SHELL.to_owned(),
        };
        (shell, args, command.to_owned())
    }
}

/// A truth value as text.
pub open spec fn bool_text(b: bool) -> Seq<char> {
    if b {
        "true"@
    } else {
        "false"@
    }
}

/// What the model and the history are given of a command.
pub open spec fn tool_content(
    command: Seq<char>,
    workdir: Seq<char>,
    success: bool,
    output: Seq<char>,
) -> Seq<char> {
    "command: "@ + command + "\nworkdir: "@ + workdir + "\nsuccess: "@ + bool_text(success)
        + "\n\n"@ + output
}

/// Writes what the model and the history are given of a command.
pub fn format_tool_content(command: &str, workdir: &str, success: bool, output: &str) -> (r: String)
    ensures
        r@ == tool_content(command@, workdir@, success, output@),
{
    let mut r = "command: ".to_owned();
    r.append(command);
    r.append("\nworkdir: ");
    r.append(workdir);
    r.append("\nsuccess: ");
    if success {
        r.append("true");
    } else {
        r.append("false");
    }
    r.append("\n\n");
    r.append(output);
    r
}

/// The lines from the first that is not blank on.
pub open spec fn from_first_text(ls: Seq<Seq<char>>) -> Seq<Seq<char>>
    decreases ls.len(),
{
    if ls.len() > 0 && trimmed(ls[0]).len() == 0 {
        from_first_text(ls.drop_first())
    } else {
        ls
    }
}

/// Lines as one text, with a word for none.
pub open spec fn shown_lines(ls: Seq<Seq<char>>) -> Seq<char> {
    let t = joined(from_first_text(ls), "\n"@);
    if t.len() == 0 {
        NO_OUTPUT@
    } else {
        t
    }
}

/// The content begins with the three lines that [`format_tool_content`] writes.
pub open spec fn has_tool_header(ls: Seq<Seq<char>>) -> bool {
    &&& ls.len() >= 3
    &&& begins_with(ls[0], "command: "@)
    &&& begins_with(ls[1], "workdir: "@)
    &&& begins_with(ls[2], "success: "@)
}

/// What the user is shown of a tool's content: its output, where it has a header.
pub open spec fn displayed(content: Seq<char>) -> Seq<char> {
    let ls = lines(content);
    if has_tool_header(ls) {
        shown_lines(ls.skip(3))
    } else {
        content
    }
}

/// Writes what the user is shown of a tool's content.
pub fn normalize_tool_content_for_display(content: &str) -> (r: String)
    ensures
        r@ == displayed(content@),
{
    let ls = split_lines(content);
    proof {
        assert(lines(content@).len() == ls@.len());
    }
    if ls.len() < 3 {
        return content.to_owned();
    }
    proof {
        assert(lines(content@)[0] == ls@[0]@);
        assert(lines(content@)[1] == ls@[1]@);
        assert(lines(content@)[2] == ls@[2]@);
    }
    if !starts_with(&ls[0], "command: ") || !starts_with(&ls[1], "workdir: ") || !starts_with(
        &ls[2],
        "success: ",
    ) {
        return content.to_owned();
    }
    let ghost all = views(ls@);
    let mut i: usize = 3;
    while i < ls.len() && is_blank(&ls[i])
        invariant
            3 <= i <= ls.len(),
            all == views(ls@),
            from_first_text(all.skip(i as int)) == from_first_text(all.skip(3)),
        decreases ls.len() - i,
    {
        proof {
            assert(all.skip(i as int)[0] == ls@[i as int]@);
            assert(all.skip(i as int).drop_first() =~= all.skip(i + 1));
        }
        i += 1;
    }
    proof {
        if i < ls.len() {
            assert(all.skip(i as int)[0] == ls@[i as int]@);
        }
        assert(from_first_text(all.skip(i as int)) == all.skip(i as int));
    }
    let normalized = join_from(&ls, i, "\n");
    if normalized.as_str().is_empty() {
        NO_OUTPUT.to_owned()
    } else {
        normalized
    }
}

/// A tool's content says that the command succeeded.
pub open spec fn says_success(content: Seq<char>) -> bool {
    let ls = lines(content);
    &&& ls.len() > 2
    &&& begins_with(ls[2], "success: "@)
    &&& trimmed(ls[2].skip("success: "@.len() as int)) == "true"@
}

/// Tells whether a tool's content says that the command succeeded.
pub fn tool_content_success(content: &str) -> (r: bool)
    ensures
        r == says_success(content@),
{
    let ls = split_lines(content);
    proof {
        assert(lines(content@).len() == ls@.len());
    }
    if ls.len() < 3 {
        return false;
    }
    proof {
        assert(lines(content@)[2] == ls@[2]@);
    }
    match strip_prefix(&ls[2], "success: ") {
        Some(value) => same_text(&trim(&value), "true"),
        None => false,
    }
}

/// Taking a carriage return off the end leaves the beginning of a line.
proof fn lemma_prefix_without_cr(prefix: Seq<char>, value: Seq<char>)
    requires
        prefix.len() > 0,
        prefix.last() != '\r',
    ensures
        begins_with(without_cr(prefix + value), prefix),
{
    let line = without_cr(prefix + value);
    assert((prefix + value).last() == if value.len() > 0 {
        value.last()
    } else {
        prefix.last()
    });
    assert(line.subrange(0, prefix.len() as int) =~= prefix);
}

/// The lines of a tool's content, where neither the command nor the directory has a line feed.
proof fn lemma_tool_lines(
    command: Seq<char>,
    workdir: Seq<char>,
    success: bool,
    output: Seq<char>,
)
    requires
        !command.contains('\n'),
        !workdir.contains('\n'),
    ensures
        ({
            let ls = lines(tool_content(command, workdir, success, output));
            &&& ls == seq![
                without_cr("command: "@ + command),
                without_cr("workdir: "@ + workdir),
                "success: "@ + bool_text(success),
                Seq::empty(),
            ] + lines(output)
            &&& has_tool_header(ls)
        }),
{
    reveal_strlit("command: ");
    reveal_strlit("\nworkdir: ");
    reveal_strlit("workdir: ");
    reveal_strlit("\nsuccess: ");
    reveal_strlit("success: ");
    reveal_strlit("true");
    reveal_strlit("false");
    reveal_strlit("\n\n");
    let feed = seq!['\n'];
    let t = tool_content(command, workdir, success, output);
    let d = output;
    let l3 = Seq::<char>::empty();
    let c = l3 + feed + d;
    let l2 = "success: "@ + bool_text(success);
    let b = l2 + feed + c;
    let l1 = "workdir: "@ + workdir;
    let a = l1 + feed + b;
    let l0 = "command: "@ + command;
    assert(t =~= l0 + feed + a);
    assert forall|i: int| 0 <= i < l0.len() implies l0[i] != '\n' by {
        if i >= 9 {
            assert(l0[i] == command[i - 9]);
            assert(command.contains(command[i - 9]));
        }
    }
    assert forall|i: int| 0 <= i < l1.len() implies l1[i] != '\n' by {
        if i >= 9 {
            assert(l1[i] == workdir[i - 9]);
            assert(workdir.contains(workdir[i - 9]));
        }
    }
    assert forall|i: int| 0 <= i < l2.len() implies l2[i] != '\n' && l2[i] != '\r' by {}
    lemma_first_line(l0, a);
    lemma_first_line(l1, b);
    lemma_first_line(l2, c);
    lemma_first_line(l3, d);
    lemma_prefix_without_cr("command: "@, command);
    lemma_prefix_without_cr("workdir: "@, workdir);
    assert(l2.subrange(0, 9) =~= "success: "@);
    let want = seq![
        without_cr("command: "@ + command),
        without_cr("workdir: "@ + workdir),
        "success: "@ + bool_text(success),
        Seq::empty(),
    ] + lines(output);
    assert(without_cr(l2) == l2);
    assert(without_cr(l3) == l3);
    assert(lines(t) =~= want);
}

/// What is written of a command can be read back: whether it succeeded, and its output without
/// leading blank lines. This is so for every command and directory without a line feed.
pub proof fn law_tool_content_reads_back(
    command: Seq<char>,
    workdir: Seq<char>,
    success: bool,
    output: Seq<char>,
)
    requires
        !command.contains('\n'),
        !workdir.contains('\n'),
    ensures
        says_success(tool_content(command, workdir, success, output)) == success,
        displayed(tool_content(command, workdir, success, output)) == shown_lines(lines(output)),
{
    lemma_tool_lines(command, workdir, success, output);
    let ls = lines(tool_content(command, workdir, success, output));
    reveal_strlit("success: ");
    reveal_strlit("true");
    reveal_strlit("false");
    assert(ls[2] == "success: "@ + bool_text(success));
    assert(ls[2].skip(9) =~= bool_text(success));
    assert(trimmed(bool_text(success)) == bool_text(success));
    if !success {
        assert(bool_text(success).len() == 5);
    }
    assert(ls.skip(3) =~= seq![Seq::<char>::empty()] + lines(output));
    let rest = ls.skip(3);
    assert(trimmed(rest[0]).len() == 0);
    assert(rest.drop_first() =~= lines(output));
}

/// What a command wrote: the two streams under their names, where they are not blank.
pub open spec fn command_output(stdout: Seq<char>, stderr: Seq<char>) -> Seq<char> {
    let out = if trimmed(stdout).len() > 0 {
        "stdout:\n"@ + stdout
    } else {
        Seq::empty()
    };
    let gap = if out.len() == 0 {
        Seq::empty()
    } else if out.last() != '\n' {
        "\n\n"@
    } else {
        "\n"@
    };
    let all = if trimmed(stderr).len() > 0 {
        out + gap + "stderr:\n"@ + stderr
    } else {
        out
    };
    if all.len() == 0 {
        NO_OUTPUT@
    } else {
        all
    }
}

/// Writes down what a command wrote.
pub fn describe_output(stdout: &str, stderr: &str) -> (r: String)
    ensures
        r@ == command_output(stdout@, stderr@),
{
    let mut content = String::new();
    if !is_blank(stdout) {
        content = "stdout:\n".to_owned();
        content.append(stdout);
    }
    if !is_blank(stderr) {
        let chars = to_chars(&content);
        if chars.len() > 0 {
            if chars[chars.len() - 1] != '\n' {
                content.append("\n\n");
            } else {
                content.append("\n");
            }
        } else {
            proof {
                assert(content@ + Seq::<char>::empty() =~= content@);
            }
        }
        content.append("stderr:\n");
        content.append(stderr);
    }
    if content.as_str().is_empty() {
        return NO_OUTPUT.to_owned();
    }
    content
}

/// Something is always said of what a command wrote.
pub proof fn law_output_is_never_empty(stdout: Seq<char>, stderr: Seq<char>)
    ensures
        command_output(stdout, stderr).len() > 0,
{
    reveal_strlit("(no output)");
}

/// What happens to a command before it is run.
#[derive(Debug)]
pub enum ShellGate {
    /// It is not run; this is what the model is told.
    Refuse(CommandOutcome),
    /// The user is asked.
    Ask,
    /// It is run.
    Run,
}

impl CommandOutcome {
    /// What the outcome says.
    pub open spec fn tells(
        self,
        command: Seq<char>,
        workdir: Seq<char>,
        success: bool,
        output: Seq<char>,
    ) -> bool {
        self.success == success && self.tool_content@ == tool_content(
            command,
            workdir,
            success,
            output,
        )
    }

    /// The outcome of a command.
    pub fn new(command: &str, workdir: &str, success: bool, output: &str) -> (r: CommandOutcome)
        ensures
            r.tells(command@, workdir@, success, output@),
    {
        CommandOutcome {
            success,
            tool_content: format_tool_content(command, workdir, success, output),
        }
    }

    /// The outcome of a command that the user did not approve.
    pub fn rejected(command: &str, workdir: &str) -> (r: CommandOutcome)
        ensures
            r.tells(command@, workdir@, false, REJECTED@),
    {
        CommandOutcome::new(command, workdir, false, REJECTED)
    }

    /// The outcome of a command that could not be started.
    pub fn not_started(
        command: &str,
        workdir: &str,
        shell: &str,
        error: &str,
    ) -> (r: CommandOutcome)
        ensures
            r.tells(
                command@,
                workdir@,
                false,
                "failed to run shell command via "@ + shell@ + ": "@ + error@,
            ),
    {
        let mut output = "failed to run shell command via ".to_owned();
        output.append(shell);
        output.append(": ");
        output.append(error);
        CommandOutcome::new(command, workdir, false, &output)
    }

    /// The outcome of a command that was run.
    pub fn finished(
        command: &str,
        workdir: &str,
        success: bool,
        stdout: &str,
        stderr: &str,
    ) -> (r: CommandOutcome)
        ensures
            r.tells(command@, workdir@, success, command_output(stdout@, stderr@)),
    {
        CommandOutcome::new(command, workdir, success, &describe_output(stdout, stderr))
    }
}

/// Decides whether a command is run: never where it would build or start the agent again, and
/// otherwise without a question only in auto mode.
pub fn run_shell(command: &str, workdir: &str, auto_approve: bool) -> (r: ShellGate)
    ensures
        r is Refuse <==> is_self_command(command@),
        r matches ShellGate::Refuse(outcome) ==> outcome.tells(
            command@,
            workdir@,
            false,
            SELF_REFUSAL@,
        ),
        r is Run <==> !is_self_command(command@) && auto_approve,
{
    if is_recursive_self_command(command) {
        return ShellGate::Refuse(CommandOutcome::new(command, workdir, false, SELF_REFUSAL));
    }
    if auto_approve {
        ShellGate::Run
    } else {
        ShellGate::Ask
    }
}

/// The directory in which a command is to run.
#[derive(Debug)]
pub enum WorkdirChoice {
    /// The root of the workspace.
    Root,
    /// This path, taken from the root.
    FromRoot(String),
}

/// Decides in which directory a command is to run.
pub fn choose_workdir(requested: Option<&str>) -> (r: WorkdirChoice)
    ensures
        r is Root <==> (requested is None || requested->0@ == ""@ || requested->0@ == "."@),
        r matches WorkdirChoice::FromRoot(path) ==> requested is Some && path@ == requested->0@,
{
    match requested {
        None => WorkdirChoice::Root,
        Some(path) => if same_text(path, "") || same_text(path, ".") {
            WorkdirChoice::Root
        } else {
            WorkdirChoice::FromRoot(path.to_owned())
        },
    }
}

/// The components of paths, each as its bytes.
pub open spec fn component_views(path: Seq<Vec<u8>>) -> Seq<Seq<u8>> {
    Seq::new(path.len(), |i: int| path[i]@)
}

/// A path is the root or lies below it.
pub open spec fn lies_within(candidate: Seq<Seq<u8>>, root: Seq<Seq<u8>>) -> bool {
    root.len() <= candidate.len() && candidate.take(root.len() as int) == root
}

/// Tells whether two components are the same.
fn same_bytes(a: &Vec<u8>, b: &Vec<u8>) -> (r: bool)
    ensures
        r == (a@ == b@),
{
    if a.len() != b.len() {
        return false;
    }
    for i in 0..a.len()
        invariant
            a.len() == b.len(),
            forall|k: int| 0 <= k < i ==> a@[k] == b@[k],
    {
        if a[i] != b[i] {
            return false;
        }
    }
    proof {
        assert(a@ =~= b@);
    }
    true
}

/// Tells whether a path is the root or lies below it.
fn is_within(candidate: &Vec<Vec<u8>>, root: &Vec<Vec<u8>>) -> (r: bool)
    ensures
        r == lies_within(component_views(candidate@), component_views(root@)),
{
    let ghost want = component_views(root@);
    let ghost got = component_views(candidate@);
    if root.len() > candidate.len() {
        return false;
    }
    for i in 0..root.len()
        invariant
            root.len() <= candidate.len(),
            want == component_views(root@),
            got == component_views(candidate@),
            forall|k: int| 0 <= k < i ==> #[trigger] got[k] == want[k],
    {
        proof {
            assert(got[i as int] == candidate@[i as int]@);
            assert(want[i as int] == root@[i as int]@);
        }
        if !same_bytes(&candidate[i], &root[i]) {
            proof {
                assert(got.take(want.len() as int)[i as int] == got[i as int]);
            }
            return false;
        }
    }
    proof {
        assert(got.take(want.len() as int) =~= want);
    }
    true
}

/// Checks the directory in which a command is to run, given by the components of its canonical
/// path: it has to lie within the workspace.
pub fn resolve_workdir(root: &Vec<Vec<u8>>, candidate: &Vec<Vec<u8>>, shown: &str) -> (r: Result<
    (),
    String,
>)
    ensures
        r is Ok <==> lies_within(component_views(candidate@), component_views(root@)),
        r is Err ==> r->Err_0@ == "workdir escapes workspace: "@ + shown@,
{
    if is_within(candidate, root) {
        return Ok(());
    }
    let mut message = "workdir escapes workspace: ".to_owned();
    message.append(shown);
    Err(message)
}

/// A command is refused as one that would build or start the agent again where its first word is
/// `cargo` and its second begins with `run`, `build`, `test` or `check`, or where it names the
/// agent's executable: in any case, and with any white space between the words. A command that
/// does neither is not refused.
pub proof fn law_self_commands(command: Seq<char>)
    ensures
        ({
            let t = lower(trimmed(command));
            let w = words(t);
            let named = has_text(t, "openansys-agent.exe"@) || has_text(t, "mini-codex.exe"@);
            let rebuilds = w.len() >= 2 && w[0] == "cargo"@ && (begins_with(w[1], "run"@)
                || begins_with(w[1], "build"@) || begins_with(w[1], "test"@) || begins_with(
                w[1],
                "check"@,
            ));
            is_self_command(command) <==> named || rebuilds
        }),
{
    let t = lower(trimmed(command));
    let w = words(t);
    let line = joined(w, " "@);
    let prefixes = texts(CARGO_PREFIXES@);
    let markers = texts(SELF_MARKERS@);
    assert(prefixes.len() == 4 && markers.len() == 6);
    assert(prefixes[0] == "cargo run"@ && prefixes[1] == "cargo build"@ && prefixes[2]
        == "cargo test"@ && prefixes[3] == "cargo check"@);
    assert(markers[0] == "openansys-agent.exe"@ && markers[1] == "mini-codex.exe"@);
    lemma_longer_markers(t);
    reveal_strlit("cargo run");
    reveal_strlit("cargo build");
    reveal_strlit("cargo test");
    reveal_strlit("cargo check");
    reveal_strlit("cargo");
    reveal_strlit("run");
    reveal_strlit("build");
    reveal_strlit("test");
    reveal_strlit("check");
    reveal_strlit(" ");
    assert("cargo run"@ =~= "cargo"@ + seq![' '] + "run"@);
    assert("cargo build"@ =~= "cargo"@ + seq![' '] + "build"@);
    assert("cargo test"@ =~= "cargo"@ + seq![' '] + "test"@);
    assert("cargo check"@ =~= "cargo"@ + seq![' '] + "check"@);
    lemma_second_word(t, "run"@);
    lemma_second_word(t, "build"@);
    lemma_second_word(t, "test"@);
    lemma_second_word(t, "check"@);
}

/// The joined words begin with `cargo` and a second beginning if and only if the first two words
/// do.
proof fn lemma_second_word(t: Seq<char>, second: Seq<char>)
    requires
        second.len() > 0,
        forall|k: int| 0 <= k < second.len() ==> !is_space(#[trigger] second[k]),
    ensures
        begins_with(joined(words(t), " "@), "cargo"@ + seq![' '] + second) <==> words(t).len() >= 2
            && words(t)[0] == "cargo"@ && begins_with(words(t)[1], second),
{
    reveal_strlit("cargo");
    reveal_strlit(" ");
    let w = words(t);
    let line = joined(w, " "@);
    let pat = "cargo"@ + seq![' '] + second;
    if w.len() > 0 {
        law_words_hold_no_space(t, 0);
    }
    if w.len() == 1 {
        if begins_with(line, pat) {
            assert(line.subrange(0, pat.len() as int)[5] == line[5]);
            assert(is_space(w[0][5]));
        }
    }
    if w.len() >= 2 {
        law_words_hold_no_space(t, 1);
        let rest = joined(w.skip(1), " "@);
        law_joins_compose(seq![w[0]], w.skip(1), " "@);
        assert(seq![w[0]] + w.skip(1) =~= w);
        assert(line == w[0] + " "@ + rest);
        let second_word = w[1];
        assert(w.skip(1)[0] == second_word);
        lemma_joined_begins(w.skip(1));
        let n = w[0].len() as int;
        assert(line[n] == ' ');
        if begins_with(line, pat) {
            assert forall|k: int| 0 <= k < pat.len() implies line[k] == #[trigger] pat[k] by {
                assert(line.subrange(0, pat.len() as int)[k] == line[k]);
            }
            if n > 5 {
                assert(line[5] == w[0][5]);
                assert(pat[5] == ' ');
            } else if n < 5 {
                assert(pat[n] == "cargo"@[n]);
            }
            assert(n == 5);
            assert forall|k: int| 0 <= k < 5 implies w[0][k] == "cargo"@[k] by {
                assert(line[k] == pat[k]);
            }
            assert(w[0] =~= "cargo"@);
            assert(second_word.len() >= second.len()) by {
                if second_word.len() < second.len() {
                    let m = second_word.len() as int;
                    assert(rest.len() > m);
                    assert(line[6 + m] == rest[m]);
                    assert(rest[m] == ' ');
                    assert(pat[6 + m] == second[m]);
                }
            }
            assert forall|k: int| 0 <= k < second.len() implies second_word[k] == second[k] by {
                assert(rest.subrange(0, second_word.len() as int)[k] == rest[k]);
                assert(line[6 + k] == rest[k]);
                assert(pat[6 + k] == second[k]);
            }
            assert(second_word.subrange(0, second.len() as int) =~= second);
        }
        if w[0] == "cargo"@ && begins_with(second_word, second) {
            assert forall|k: int| 0 <= k < pat.len() implies line[k] == pat[k] by {
                if k >= 6 {
                    assert(second_word.subrange(0, second.len() as int)[k - 6]
                        == second_word[k - 6]);
                    assert(rest.subrange(0, second_word.len() as int)[k - 6] == rest[k - 6]);
                }
            }
            assert(line.subrange(0, pat.len() as int) =~= pat);
        }
    }
}

/// Joined words begin with the first of them, and a blank follows it where there are more.
proof fn lemma_joined_begins(w: Seq<Seq<char>>)
    requires
        w.len() > 0,
    ensures
        begins_with(joined(w, " "@), w[0]),
        w.len() > 1 ==> joined(w, " "@).len() > w[0].len() && joined(w, " "@)[w[0].len() as int]
            == ' ',
        w.len() == 1 ==> joined(w, " "@) == w[0],
{
    reveal_strlit(" ");
    let all = joined(w, " "@);
    if w.len() == 1 {
        assert(all.subrange(0, w[0].len() as int) =~= w[0]);
    } else {
        law_joins_compose(seq![w[0]], w.skip(1), " "@);
        assert(seq![w[0]] + w.skip(1) =~= w);
        assert(all.subrange(0, w[0].len() as int) =~= w[0]);
    }
}

/// The names with a directory hold those without.
proof fn lemma_longer_markers(t: Seq<char>)
    ensures
        has_any(t, texts(SELF_MARKERS@)) <==> has_text(t, "openansys-agent.exe"@) || has_text(
            t,
            "mini-codex.exe"@,
        ),
{
    let markers = texts(SELF_MARKERS@);
    assert(markers.len() == 6);
    assert(markers[0] == "openansys-agent.exe"@ && markers[1] == "mini-codex.exe"@ && markers[2]
        == "target\\debug\\openansys-agent.exe"@ && markers[3]
        == "target\\debug\\mini-codex.exe"@ && markers[4]
        == "target/debug/openansys-agent.exe"@ && markers[5] == "target/debug/mini-codex.exe"@);
    reveal_strlit("openansys-agent.exe");
    reveal_strlit("mini-codex.exe");
    reveal_strlit("target\\debug\\openansys-agent.exe");
    reveal_strlit("target\\debug\\mini-codex.exe");
    reveal_strlit("target/debug/openansys-agent.exe");
    reveal_strlit("target/debug/mini-codex.exe");
    let (a, b) = ("openansys-agent.exe"@, "mini-codex.exe"@);
    assert(markers[2].subrange(13, 32) =~= a);
    assert(occurs_at(markers[2], a, 13));
    assert(markers[3].subrange(13, 27) =~= b);
    assert(occurs_at(markers[3], b, 13));
    assert(markers[4].subrange(13, 32) =~= a);
    assert(occurs_at(markers[4], a, 13));
    assert(markers[5].subrange(13, 27) =~= b);
    assert(occurs_at(markers[5], b, 13));
    if has_any(t, markers) {
        let i = choose|i: int| 0 <= i < markers.len() && has_text(t, #[trigger] markers[i]);
        if i == 2 || i == 4 {
            lemma_part_of_part(t, markers[i], a);
        } else if i == 3 || i == 5 {
            lemma_part_of_part(t, markers[i], b);
        }
    }
}

/// The user is shown the whole output of a command, however long it is, and nothing else of what
/// is kept: this is so for every output without carriage returns that neither begins with a blank
/// line nor ends with a line feed. A command without output is shown as such.
pub proof fn law_whole_output_is_displayed(
    command: Seq<char>,
    workdir: Seq<char>,
    success: bool,
    output: Seq<char>,
)
    requires
        !command.contains('\n'),
        !workdir.contains('\n'),
        !output.contains('\r'),
        output.len() > 0 ==> output.last() != '\n' && trimmed(lines(output)[0]).len() > 0,
    ensures
        output.len() > 0 ==> displayed(tool_content(command, workdir, success, output)) == output,
        output.len() == 0 ==> displayed(tool_content(command, workdir, success, output))
            == "(no output)"@,
{
    law_tool_content_reads_back(command, workdir, success, output);
    law_lines_join_back(output);
    if output.len() == 0 {
        assert(lines(output).len() == 0);
        assert(joined(from_first_text(lines(output)), "\n"@).len() == 0);
    } else {
        lemma_lines_not_empty(output);
    }
}

/// A content without the header of a tool is shown as it is.
pub proof fn law_other_content_is_shown_whole(content: Seq<char>)
    requires
        lines(content).len() < 3 || !begins_with(lines(content)[0], "command: "@) || !begins_with(
            lines(content)[1],
            "workdir: "@,
        ) || !begins_with(lines(content)[2], "success: "@),
    ensures
        displayed(content) == content,
{
}

/// What the model is given of a command holds the command, where it ran and all of its output.
pub proof fn law_tool_content_tells_all(
    command: Seq<char>,
    workdir: Seq<char>,
    success: bool,
    output: Seq<char>,
)
    ensures
        ({
            let t = tool_content(command, workdir, success, output);
            &&& begins_with(t, "command: "@ + command)
            &&& has_text(t, "\nworkdir: "@ + workdir)
            &&& has_text(
                t,
                "\nsuccess: "@ + if success {
                    "true"@
                } else {
                    "false"@
                },
            )
            &&& ends_in(t, output)
        }),
{
    let t = tool_content(command, workdir, success, output);
    let parts = seq![
        "command: "@,
        command,
        "\nworkdir: "@,
        workdir,
        "\nsuccess: "@,
        bool_text(success),
        "\n\n"@,
        output,
    ];
    reveal_with_fuel(concat, 9);
    assert(Seq::<char>::empty() + "command: "@ =~= "command: "@);
    assert(t == concat(parts, 8));
    lemma_concat_holds(parts, 8, 2);
    lemma_concat_holds(parts, 8, 4);
    let head = "command: "@ + command;
    assert(t.subrange(0, head.len() as int) =~= head);
    assert(t.subrange(t.len() - output.len(), t.len() as int) =~= output);
}

/// All that a command wrote is kept: each stream that is not blank stands whole under its name,
/// the errors last; and it is said where both are blank.
pub proof fn law_streams_are_kept(stdout: Seq<char>, stderr: Seq<char>)
    ensures
        trimmed(stdout).len() > 0 ==> begins_with(
            command_output(stdout, stderr),
            "stdout:\n"@ + stdout,
        ),
        trimmed(stderr).len() > 0 ==> ends_in(
            command_output(stdout, stderr),
            "stderr:\n"@ + stderr,
        ),
        trimmed(stdout).len() > 0 && trimmed(stderr).len() == 0 ==> command_output(stdout, stderr)
            == "stdout:\n"@ + stdout,
        trimmed(stdout).len() == 0 && trimmed(stderr).len() > 0 ==> command_output(stdout, stderr)
            == "stderr:\n"@ + stderr,
        trimmed(stdout).len() == 0 && trimmed(stderr).len() == 0 ==> command_output(stdout, stderr)
            == "(no output)"@,
{
    reveal_strlit("stdout:\n");
    reveal_strlit("stderr:\n");
    let all = command_output(stdout, stderr);
    let out = "stdout:\n"@ + stdout;
    let err = "stderr:\n"@ + stderr;
    if trimmed(stdout).len() > 0 {
        assert(all.subrange(0, out.len() as int) =~= out);
    }
    if trimmed(stderr).len() > 0 {
        assert(all.subrange(all.len() - err.len(), all.len() as int) =~= err);
        if trimmed(stdout).len() == 0 {
            assert(all =~= err);
        }
    }
}

/// A directory lies within the workspace if and only if each component of the root is also its
/// own, in its place: everything below the root does, and nothing that leaves it.
pub proof fn law_workspace_is_not_left(root: Seq<Seq<u8>>, candidate: Seq<Seq<u8>>)
    ensures
        lies_within(candidate, root) <==> root.len() <= candidate.len() && forall|k: int|
            0 <= k < root.len() ==> candidate[k] == #[trigger] root[k],
        lies_within(root, root),
{
    let head = candidate.take(root.len() as int);
    if root.len() <= candidate.len() {
        if forall|k: int| 0 <= k < root.len() ==> candidate[k] == #[trigger] root[k] {
            assert(head =~= root);
        }
        if head == root {
            assert forall|k: int| 0 <= k < root.len() implies candidate[k]
                == #[trigger] root[k] by {
                assert(head[k] == candidate[k]);
            }
        }
    }
    assert(root.take(root.len() as int) =~= root);
}

/// A directory that is asked for is used without the space around it, and a blank one is not.
pub proof fn law_asked_directories(dir: Seq<char>)
    ensures
        asked_dir(None) is None,
        trimmed(dir).len() == 0 ==> asked_dir(Some(dir)) is None,
        trimmed(dir).len() > 0 ==> asked_dir(Some(dir)) == Some(trimmed(dir)),
{
}

/// The outcome of a command tells whether it succeeded, and what it put out.
pub proof fn law_outcomes_tell(
    outcome: CommandOutcome,
    command: Seq<char>,
    workdir: Seq<char>,
    success: bool,
    output: Seq<char>,
)
    requires
        outcome.tells(command, workdir, success, output),
    ensures
        outcome.success == success,
        outcome.tool_content@ == tool_content(command, workdir, success, output),
{
}

/// Paths are compared by all their components.
pub proof fn law_components_are_of_each(path: Seq<Vec<u8>>)
    ensures
        component_views(path).len() == path.len(),
        forall|i: int| 0 <= i < path.len() ==> #[trigger] component_views(path)[i] == path[i]@,
{
}

} // verus!
