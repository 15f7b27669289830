//! The command line, the environment, and the lines that the user types.

use vstd::prelude::*;

use crate::history::{model_limit, token_limit_for_model};
use crate::number::{decimal, decimal_text, law_decimal_round_trip, number_in, parse_u64};
use crate::text::{
    begins_with, ends_in, inner_text, lower, same_text, to_lower, trim, trimmed, views,
};
use crate::tools::bool_text;
use crate::ui::{
    approval_mode, approval_mode_of, style, styled, COLOR_BOLD, COLOR_DIM, COLOR_RED, COLOR_YELLOW,
};

verus! {

/// The address of the model where the environment names none.
pub const DEFAULT_BASE_URL: &'static str = "https://api.openai.com/v1";

/// The model where the command line names none.
pub const DEFAULT_MODEL: &'static str = "deepseek-v4-pro";

/// The reasoning effort where the command line names none.
pub const DEFAULT_REASONING_EFFORT: &'static str = "medium";

/// How long a call of the model may take, in seconds.
pub const API_TIMEOUT_SECS: u64 = 1_200;

/// The variables that may hold the key, in the order in which they are looked at.
pub const API_KEY_VARIABLES: [&'static str; 3] = [
    "OPENANSYS_API_KEY",
    "MINI_CODEX_API_KEY",
    "OPENAI_API_KEY",
];

/// The variables that may hold the address of the model, in the order in which they are looked
/// at.
pub const BASE_URL_VARIABLES: [&'static str; 3] = [
    "OPENANSYS_BASE_URL",
    "MINI_CODEX_BASE_URL",
    "OPENAI_BASE_URL",
];

/// The error where no key is given.
pub const MISSING_API_KEY: &'static str =
    "missing OPENANSYS_API_KEY, MINI_CODEX_API_KEY, or OPENAI_API_KEY";

/// The name of the program.
pub const PROGRAM: &'static str = "openansys-agent";

/// Which session is opened.
#[derive(Debug, Clone, Copy, PartialEq, Eq, Structural)]
pub enum ResumeMode {
    /// A new one.
    New,
    /// One that the user chooses.
    Select,
    /// The last one.
    Last,
}

/// What the command line asks for.
#[derive(Debug)]
pub struct CliOptions {
    pub auto_approve: bool,
    pub model: String,
    pub reasoning_effort: String,
    pub enable_thinking: bool,
    pub token_limit: Option<u64>,
    /// The lists of further directories of skills, as they were given.
    pub external_skills: Vec<String>,
    pub resume: ResumeMode,
}

/// What the command line asks for.
pub ghost struct OptionsText {
    pub auto_approve: bool,
    pub model: Seq<char>,
    pub reasoning_effort: Seq<char>,
    pub enable_thinking: bool,
    pub token_limit: Option<u64>,
    pub external_skills: Seq<Seq<char>>,
    pub resume: ResumeMode,
}

impl View for CliOptions {
    type V = OptionsText;

    open spec fn view(&self) -> OptionsText {
        OptionsText {
            auto_approve: self.auto_approve,
            model: self.model@,
            reasoning_effort: self.reasoning_effort@,
            enable_thinking: self.enable_thinking,
            token_limit: self.token_limit,
            external_skills: views(self.external_skills@),
            resume: self.resume,
        }
    }
}

/// What is wrong with a command line.
#[derive(Debug)]
pub enum CliError {
    /// This option lacks its value.
    MissingValue(String),
    /// The value of this option is neither true nor false.
    NotBool(String),
    /// This is no token limit.
    BadTokenLimit(String),
    /// There is no such argument.
    Unknown(String),
}

/// What is wrong with a command line.
pub ghost enum CliErrorText {
    MissingValue(Seq<char>),
    NotBool(Seq<char>),
    BadTokenLimit(Seq<char>),
    Unknown(Seq<char>),
}

impl View for CliError {
    type V = CliErrorText;

    open spec fn view(&self) -> CliErrorText {
        match self {
            CliError::MissingValue(flag) => CliErrorText::MissingValue(flag@),
            CliError::NotBool(flag) => CliErrorText::NotBool(flag@),
            CliError::BadTokenLimit(value) => CliErrorText::BadTokenLimit(value@),
            CliError::Unknown(arg) => CliErrorText::Unknown(arg@),
        }
    }
}

impl CliErrorText {
    /// The message.
    pub open spec fn message(self) -> Seq<char> {
        match self {
            CliErrorText::MissingValue(flag) => flag + " requires a value"@,
            CliErrorText::NotBool(flag) => flag + " expects true or false"@,
            CliErrorText::BadTokenLimit(value) => "invalid --token-limit value: "@ + value,
            CliErrorText::Unknown(arg) => "unknown argument: "@ + arg,
        }
    }
}

impl CliError {
    /// Writes the message.
    pub fn describe(&self) -> (r: String)
        ensures
            r@ == self@.message(),
    {
        match self {
            CliError::MissingValue(flag) => {
                let mut r = flag.clone();
                r.append(" requires a value");
                r
            },
            CliError::NotBool(flag) => {
                let mut r = flag.clone();
                r.append(" expects true or false");
                r
            },
            CliError::BadTokenLimit(value) => {
                let mut r = "invalid --token-limit value: ".to_owned();
                r.append(value);
                r
            },
            CliError::Unknown(arg) => {
                let mut r = "unknown argument: ".to_owned();
                r.append(arg);
                r
            },
        }
    }
}

/// What a command line comes to.
#[derive(Debug)]
pub enum CliOutcome {
    /// The program runs with these options.
    Run(CliOptions),
    /// The help is shown.
    Help,
    /// The program fails.
    Fail(CliError),
}

/// What a command line comes to.
pub ghost enum OutcomeText {
    Run(OptionsText),
    Help,
    Fail(CliErrorText),
}

impl View for CliOutcome {
    type V = OutcomeText;

    open spec fn view(&self) -> OutcomeText {
        match self {
            CliOutcome::Run(options) => OutcomeText::Run(options@),
            CliOutcome::Help => OutcomeText::Help,
            CliOutcome::Fail(error) => OutcomeText::Fail(error@),
        }
    }
}

/// The truth value that a text writes, in any case and with space around it.
pub open spec fn bool_in(value: Seq<char>) -> Option<bool> {
    let t = lower(trimmed(value));
    if t == "true"@ || t == "1"@ || t == "yes"@ || t == "on"@ {
        Some(true)
    } else if t == "false"@ || t == "0"@ || t == "no"@ || t == "off"@ {
        Some(false)
    } else {
        None
    }
}

/// Reads the truth value of an option.
pub fn parse_bool_flag(flag: &str, value: &str) -> (r: Result<bool, CliError>)
    ensures
        match r {
            Ok(b) => bool_in(value@) == Some(b),
            Err(error) => bool_in(value@) is None && error@ == CliErrorText::NotBool(flag@),
        },
{
    let t = to_lower(&trim(value));
    if same_text(&t, "true") || same_text(&t, "1") || same_text(&t, "yes") || same_text(&t, "on") {
        return Ok(true);
    }
    if same_text(&t, "false") || same_text(&t, "0") || same_text(&t, "no") || same_text(&t, "off") {
        return Ok(false);
    }
    Err(CliError::NotBool(flag.to_owned()))
}

/// The options before any argument is read.
pub open spec fn default_options() -> OptionsText {
    OptionsText {
        auto_approve: false,
        model: DEFAULT_MODEL@,
        reasoning_effort: DEFAULT_REASONING_EFFORT@,
        enable_thinking: true,
        token_limit: None,
        external_skills: Seq::empty(),
        resume: ResumeMode::New,
    }
}

/// An option that takes a value.
pub open spec fn takes_value(arg: Seq<char>) -> bool {
    ||| arg == "--model"@
    ||| arg == "--reasoning-effort"@
    ||| arg == "--enable-thinking"@
    ||| arg == "--token-limit"@
    ||| arg == "--external-skills"@
}

/// The options with one that takes a value, or what is wrong with the value.
pub open spec fn with_value(o: OptionsText, arg: Seq<char>, value: Seq<char>) -> Result<
    OptionsText,
    CliErrorText,
> {
    if arg == "--model"@ {
        Ok(OptionsText { model: value, ..o })
    } else if arg == "--reasoning-effort"@ {
        Ok(OptionsText { reasoning_effort: value, ..o })
    } else if arg == "--enable-thinking"@ {
        match bool_in(value) {
            Some(b) => Ok(OptionsText { enable_thinking: b, ..o }),
            None => Err(CliErrorText::NotBool(arg)),
        }
    } else if arg == "--token-limit"@ {
        match number_in(value) {
            Some(n) if n <= u64::MAX => Ok(OptionsText { token_limit: Some(n as u64), ..o }),
            _ => Err(CliErrorText::BadTokenLimit(value)),
        }
    } else {
        Ok(OptionsText { external_skills: o.external_skills.push(value), ..o })
    }
}

/// What the arguments come to, read from the first to the last on top of the options `o`. The
/// first argument that fails or asks for the help decides; of two that set the same option the
/// later one wins.
pub open spec fn outcome_of(args: Seq<Seq<char>>, o: OptionsText) -> OutcomeText
    decreases args.len(),
{
    if args.len() == 0 {
        OutcomeText::Run(o)
    } else {
        let arg = args[0];
        let rest = args.skip(1);
        if arg == "--auto"@ {
            outcome_of(rest, OptionsText { auto_approve: true, ..o })
        } else if takes_value(arg) {
            if args.len() < 2 {
                OutcomeText::Fail(CliErrorText::MissingValue(arg))
            } else {
                match with_value(o, arg, args[1]) {
                    Ok(next) => outcome_of(args.skip(2), next),
                    Err(error) => OutcomeText::Fail(error),
                }
            }
        } else if arg == "resume"@ {
            outcome_of(rest, OptionsText { resume: ResumeMode::Select, ..o })
        } else if arg == "--last"@ {
            outcome_of(rest, OptionsText { resume: ResumeMode::Last, ..o })
        } else if arg == "--help"@ || arg == "-h"@ {
            OutcomeText::Help
        } else {
            OutcomeText::Fail(CliErrorText::Unknown(arg))
        }
    }
}

/// Tells whether an option takes a value.
fn wants_value(arg: &str) -> (r: bool)
    ensures
        r == takes_value(arg@),
{
    same_text(arg, "--model") || same_text(arg, "--reasoning-effort") || same_text(
        arg,
        "--enable-thinking",
    ) || same_text(arg, "--token-limit") || same_text(arg, "--external-skills")
}

/// Sets an option that takes a value.
fn set_value(options: &mut CliOptions, arg: &str, value: &str) -> (r: Result<(), CliError>)
    ensures
        match r {
            Ok(_) => with_value(old(options)@, arg@, value@) == Ok::<OptionsText, CliErrorText>(
                final(options)@,
            ),
            Err(error) => with_value(old(options)@, arg@, value@) == Err::<
                OptionsText,
                CliErrorText,
            >(error@),
        },
{
    if same_text(arg, "--model") {
        options.model = value.to_owned();
    } else if same_text(arg, "--reasoning-effort") {
        options.reasoning_effort = value.to_owned();
    } else if same_text(arg, "--enable-thinking") {
        match parse_bool_flag(arg, value) {
            Ok(b) => {
                options.enable_thinking = b;
            },
            Err(error) => {
                return Err(error);
            },
        }
    } else if same_text(arg, "--token-limit") {
        match parse_u64(value) {
            Some(n) => {
                options.token_limit = Some(n);
            },
            None => {
                return Err(CliError::BadTokenLimit(value.to_owned()));
            },
        }
    } else {
        let ghost before = views(options.external_skills@);
        options.external_skills.push(value.to_owned());
        proof {
            assert(views(options.external_skills@) =~= before.push(value@));
        }
    }
    Ok(())
}

/// Reads the arguments of the command line, without the name of the program.
pub fn parse_args(args: &Vec<String>) -> (r: CliOutcome)
    ensures
        r@ == outcome_of(views(args@), default_options()),
{
    let mut options = CliOptions {
        auto_approve: false,
        model: DEFAULT_MODEL.to_owned(),
        reasoning_effort: DEFAULT_REASONING_EFFORT.to_owned(),
        enable_thinking: true,
        token_limit: None,
        external_skills: Vec::new(),
        resume: ResumeMode::New,
    };
    let ghost all = views(args@);
    proof {
        assert(all.skip(0) =~= all);
        assert(options@.external_skills =~= Seq::empty());
    }
    let mut i: usize = 0;
    while i < args.len()
        invariant
            i <= args.len(),
            all == views(args@),
            outcome_of(all.skip(i as int), options@) == outcome_of(all, default_options()),
        decreases args.len() - i,
    {
        let ghost rest = all.skip(i as int);
        let arg = args[i].as_str();
        proof {
            assert(rest[0] == args@[i as int]@);
            assert(rest.skip(1) =~= all.skip(i + 1));
        }
        if same_text(arg, "--auto") {
            options.auto_approve = true;
            i += 1;
        } else if wants_value(arg) {
            if args.len() - i < 2 {
                return CliOutcome::Fail(CliError::MissingValue(arg.to_owned()));
            }
            proof {
                assert(rest[1] == args@[i + 1]@);
                assert(rest.skip(2) =~= all.skip(i + 2));
            }
            if let Err(error) = set_value(&mut options, arg, &args[i + 1]) {
                return CliOutcome::Fail(error);
            }
            i += 2;
        } else if same_text(arg, "resume") {
            options.resume = ResumeMode::Select;
            i += 1;
        } else if same_text(arg, "--last") {
            options.resume = ResumeMode::Last;
            i += 1;
        } else if same_text(arg, "--help") || same_text(arg, "-h") {
            return CliOutcome::Help;
        } else {
            return CliOutcome::Fail(CliError::Unknown(arg.to_owned()));
        }
    }
    CliOutcome::Run(options)
}

/// Arguments that are read without asking for help or failing leave their mark, and what follows
/// them is read on top of it.
pub proof fn law_args_read_in_order(a: Seq<Seq<char>>, b: Seq<Seq<char>>, o: OptionsText)
    ensures
        match outcome_of(a, o) {
            OutcomeText::Run(next) => outcome_of(a + b, o) == outcome_of(b, next),
            OutcomeText::Help => outcome_of(a + b, o) is Help,
            OutcomeText::Fail(error) => error is MissingValue || outcome_of(a + b, o)
                == OutcomeText::Fail(error),
        },
    decreases a.len(),
{
    if a.len() == 0 {
        assert(a + b =~= b);
    } else {
        let arg = a[0];
        assert((a + b)[0] == arg);
        assert((a + b).skip(1) =~= a.skip(1) + b);
        if arg == "--auto"@ {
            law_args_read_in_order(a.skip(1), b, OptionsText { auto_approve: true, ..o });
        } else if takes_value(arg) {
            if a.len() >= 2 {
                assert((a + b)[1] == a[1]);
                assert((a + b).skip(2) =~= a.skip(2) + b);
                if let Ok(next) = with_value(o, arg, a[1]) {
                    law_args_read_in_order(a.skip(2), b, next);
                }
            }
        } else if arg == "resume"@ {
            law_args_read_in_order(a.skip(1), b, OptionsText { resume: ResumeMode::Select, ..o });
        } else if arg == "--last"@ {
            law_args_read_in_order(a.skip(1), b, OptionsText { resume: ResumeMode::Last, ..o });
        }
    }
}

/// The first value that is not blank, without the space around it.
pub open spec fn first_set(values: Seq<Option<Seq<char>>>) -> Option<Seq<char>>
    decreases values.len(),
{
    if values.len() == 0 {
        None
    } else {
        match values[0] {
            Some(value) if trimmed(value).len() > 0 => Some(trimmed(value)),
            _ => first_set(values.skip(1)),
        }
    }
}

/// The values of variables.
pub open spec fn optional_views(values: Seq<Option<String>>) -> Seq<Option<Seq<char>>> {
    Seq::new(values.len(), |i: int| inner_text(values[i]))
}

/// The first of the values of some variables, in their order, that is not blank.
pub fn read_env(values: &Vec<Option<String>>) -> (r: Option<String>)
    ensures
        inner_text(r) == first_set(optional_views(values@)),
{
    let ghost all = optional_views(values@);
    proof {
        assert(all.skip(0) =~= all);
    }
    for i in 0..values.len()
        invariant
            all == optional_views(values@),
            first_set(all.skip(i as int)) == first_set(all),
    {
        proof {
            assert(all.skip(i as int)[0] == inner_text(values@[i as int]));
            assert(all.skip(i as int).skip(1) =~= all.skip(i + 1));
        }
        if let Some(value) = &values[i] {
            let value = trim(value);
            if !value.as_str().is_empty() {
                return Some(value);
            }
        }
    }
    None
}

/// The limit that the command line gives, else that of the model.
pub fn resolve_token_limit(token_limit: Option<u64>, model: &str) -> (r: u64)
    ensures
        r == match token_limit {
            Some(limit) => limit,
            None => model_limit(model@),
        },
{
    match token_limit {
        Some(limit) => limit,
        None => token_limit_for_model(model),
    }
}

/// What is shown when the program starts, with paths as they are shown.
#[derive(Debug)]
pub struct Banner {
    pub workspace: String,
    pub ansys_exe: String,
    pub input_dir: String,
    pub output_dir: String,
    pub model: String,
    pub reasoning_effort: String,
    pub enable_thinking: bool,
    pub history_token_limit: u64,
    pub session: String,
    pub history: String,
    pub auto_approve: bool,
    pub skills: usize,
}

/// A line of the banner.
pub open spec fn banner_field(label: Seq<char>, value: Seq<char>) -> Seq<char> {
    styled(COLOR_DIM@, label) + " "@ + value
}

/// The lines of the banner.
pub open spec fn banner_lines_of(b: Banner) -> Seq<Seq<char>> {
    seq![
        styled(COLOR_BOLD@, PROGRAM@),
        banner_field("workspace:"@, b.workspace@),
        banner_field("ansys exe:"@, b.ansys_exe@),
        banner_field("input dir:"@, b.input_dir@),
        banner_field("output dir:"@, b.output_dir@),
        banner_field("model:"@, b.model@),
        banner_field("reasoning effort:"@, b.reasoning_effort@),
        banner_field("enable thinking:"@, bool_text(b.enable_thinking)),
        banner_field("history token limit:"@, decimal_text(b.history_token_limit as nat)),
        banner_field("session:"@, b.session@),
        banner_field("history:"@, b.history@),
        banner_field("approval mode:"@, approval_mode_of(b.auto_approve)),
        banner_field("skills loaded:"@, decimal_text(b.skills as nat)),
        banner_field("type"@, "/help"@),
    ]
}

/// Writes a line of the banner.
fn write_banner_field(label: &str, value: &str) -> (r: String)
    ensures
        r@ == banner_field(label@, value@),
{
    let mut r = style(COLOR_DIM, label);
    r.append(" ");
    r.append(value);
    r
}

impl Banner {
    /// Writes the lines of the banner.
    pub fn lines(&self) -> (r: Vec<String>)
        ensures
            views(r@) == banner_lines_of(*self),
    {
        let mut r: Vec<String> = Vec::new();
        r.push(style(COLOR_BOLD, PROGRAM));
        r.push(write_banner_field("workspace:", &self.workspace));
        r.push(write_banner_field("ansys exe:", &self.ansys_exe));
        r.push(write_banner_field("input dir:", &self.input_dir));
        r.push(write_banner_field("output dir:", &self.output_dir));
        r.push(write_banner_field("model:", &self.model));
        r.push(write_banner_field("reasoning effort:", &self.reasoning_effort));
        let thinking = if self.enable_thinking {
            "true"
        } else {
            "false"
        };
        r.push(write_banner_field("enable thinking:", thinking));
        let limit = decimal(self.history_token_limit as u128);
        r.push(write_banner_field("history token limit:", &limit));
        r.push(write_banner_field("session:", &self.session));
        r.push(write_banner_field("history:", &self.history));
        r.push(write_banner_field("approval mode:", &approval_mode(self.auto_approve)));
        r.push(write_banner_field("skills loaded:", &decimal(self.skills as u128)));
        r.push(write_banner_field("type", "/help"));
        proof {
            assert(views(r@) =~= banner_lines_of(*self));
        }
        r
    }
}

/// What a line that the user types asks for.
#[derive(Debug)]
pub enum ReplCommand {
    /// Nothing.
    Blank,
    Exit,
    Continue,
    Help,
    Run,
    RunStage2,
    AutoOn,
    AutoOff,
    /// A turn of the conversation with this text.
    Turn(String),
}

/// What a line that the user types asks for.
pub ghost enum CommandText {
    Blank,
    Exit,
    Continue,
    Help,
    Run,
    RunStage2,
    AutoOn,
    AutoOff,
    Turn(Seq<char>),
}

impl View for ReplCommand {
    type V = CommandText;

    open spec fn view(&self) -> CommandText {
        match self {
            ReplCommand::Blank => CommandText::Blank,
            ReplCommand::Exit => CommandText::Exit,
            ReplCommand::Continue => CommandText::Continue,
            ReplCommand::Help => CommandText::Help,
            ReplCommand::Run => CommandText::Run,
            ReplCommand::RunStage2 => CommandText::RunStage2,
            ReplCommand::AutoOn => CommandText::AutoOn,
            ReplCommand::AutoOff => CommandText::AutoOff,
            ReplCommand::Turn(text) => CommandText::Turn(text@),
        }
    }
}

/// The command in a line, which is taken without the space around it; what is no command is a
/// turn.
pub open spec fn command_in(line: Seq<char>) -> CommandText {
    let t = trimmed(line);
    if t.len() == 0 {
        CommandText::Blank
    } else if t == "/exit"@ || t == "/quit"@ {
        CommandText::Exit
    } else if t == "/continue"@ {
        CommandText::Continue
    } else if t == "/help"@ {
        CommandText::Help
    } else if t == "/run"@ {
        CommandText::Run
    } else if t == "/run-stage2"@ {
        CommandText::RunStage2
    } else if t == "/auto on"@ {
        CommandText::AutoOn
    } else if t == "/auto off"@ {
        CommandText::AutoOff
    } else {
        CommandText::Turn(t)
    }
}

/// Reads a line that the user typed.
pub fn read_command(line: &str) -> (r: ReplCommand)
    ensures
        r@ == command_in(line@),
{
    let t = trim(line);
    if t.as_str().is_empty() {
        ReplCommand::Blank
    } else if same_text(&t, "/exit") || same_text(&t, "/quit") {
        ReplCommand::Exit
    } else if same_text(&t, "/continue") {
        ReplCommand::Continue
    } else if same_text(&t, "/help") {
        ReplCommand::Help
    } else if same_text(&t, "/run") {
        ReplCommand::Run
    } else if same_text(&t, "/run-stage2") {
        ReplCommand::RunStage2
    } else if same_text(&t, "/auto on") {
        ReplCommand::AutoOn
    } else if same_text(&t, "/auto off") {
        ReplCommand::AutoOff
    } else {
        ReplCommand::Turn(t)
    }
}

/// What is said when auto approval is switched.
pub fn auto_switched(on: bool) -> (r: String)
    ensures
        r@ == styled(
            COLOR_YELLOW@,
            if on {
                "auto approval enabled"@
            } else {
                "auto approval disabled"@
            },
        ),
{
    if on {
        style(COLOR_YELLOW, "auto approval enabled")
    } else {
        style(COLOR_YELLOW, "auto approval disabled")
    }
}

/// The line that tells of an error.
pub fn error_line(message: &str) -> (r: String)
    ensures
        r@ == styled(COLOR_RED@, "error>"@) + " "@ + message@,
{
    let mut r = style(COLOR_RED, "error>");
    r.append(" ");
    r.append(message);
    r
}

/// The names of the arguments differ from each other.
proof fn lemma_arguments_differ()
    ensures
        "--auto"@ != "--model"@ && "--auto"@ != "--reasoning-effort"@ && "--auto"@
            != "--enable-thinking"@ && "--auto"@ != "--token-limit"@ && "--auto"@
            != "--external-skills"@,
        "--model"@ != "--reasoning-effort"@ && "--model"@ != "--enable-thinking"@ && "--model"@
            != "--token-limit"@ && "--model"@ != "--external-skills"@,
        "--reasoning-effort"@ != "--enable-thinking"@ && "--reasoning-effort"@ != "--token-limit"@
            && "--reasoning-effort"@ != "--external-skills"@,
        "--enable-thinking"@ != "--token-limit"@ && "--enable-thinking"@ != "--external-skills"@,
        "--token-limit"@ != "--external-skills"@,
        !takes_value("resume"@) && !takes_value("--last"@) && !takes_value("--help"@)
            && !takes_value("-h"@),
        "resume"@ != "--auto"@ && "--last"@ != "--auto"@ && "--help"@ != "--auto"@ && "-h"@
            != "--auto"@,
        "--last"@ != "resume"@ && "--help"@ != "resume"@ && "-h"@ != "resume"@ && "--help"@
            != "--last"@ && "-h"@ != "--last"@,
{
    reveal_strlit("--auto");
    reveal_strlit("--model");
    reveal_strlit("--reasoning-effort");
    reveal_strlit("--enable-thinking");
    reveal_strlit("--token-limit");
    reveal_strlit("--external-skills");
    reveal_strlit("resume");
    reveal_strlit("--last");
    reveal_strlit("--help");
    reveal_strlit("-h");
    assert("--auto"@[2] == 'a' && "--help"@[2] == 'h' && "--last"@[2] == 'l' && "resume"@[2]
        == 's');
    assert("--model"@[2] == 'm' && "--reasoning-effort"@[2] == 'r' && "--enable-thinking"@[2]
        == 'e' && "--token-limit"@[2] == 't' && "--external-skills"@[2] == 'e');
    assert("--enable-thinking"@[3] == 'n' && "--external-skills"@[3] == 'x');
    assert("-h"@.len() == 2);
}

/// Each argument sets what it is named for and nothing else, to the value that follows it as it
/// stands; what comes after it is read on top of that.
pub proof fn law_arguments_set_options(
    o: OptionsText,
    value: Seq<char>,
    rest: Seq<Seq<char>>,
    n: u64,
)
    ensures
        outcome_of(Seq::empty(), o) == OutcomeText::Run(o),
        outcome_of(seq!["--auto"@] + rest, o) == outcome_of(
            rest,
            OptionsText { auto_approve: true, ..o },
        ),
        outcome_of(seq!["resume"@] + rest, o) == outcome_of(
            rest,
            OptionsText { resume: ResumeMode::Select, ..o },
        ),
        outcome_of(seq!["--last"@] + rest, o) == outcome_of(
            rest,
            OptionsText { resume: ResumeMode::Last, ..o },
        ),
        outcome_of(seq!["--model"@, value] + rest, o) == outcome_of(
            rest,
            OptionsText { model: value, ..o },
        ),
        outcome_of(seq!["--reasoning-effort"@, value] + rest, o) == outcome_of(
            rest,
            OptionsText { reasoning_effort: value, ..o },
        ),
        outcome_of(seq!["--external-skills"@, value] + rest, o) == outcome_of(
            rest,
            OptionsText { external_skills: o.external_skills.push(value), ..o },
        ),
        outcome_of(seq!["--token-limit"@, decimal_text(n as nat)] + rest, o) == outcome_of(
            rest,
            OptionsText { token_limit: Some(n), ..o },
        ),
        bool_in(value) is Some ==> outcome_of(seq!["--enable-thinking"@, value] + rest, o)
            == outcome_of(rest, OptionsText { enable_thinking: bool_in(value)->0, ..o }),
        outcome_of(seq!["--help"@] + rest, o) is Help,
        outcome_of(seq!["-h"@] + rest, o) is Help,
{
    lemma_arguments_differ();
    law_decimal_round_trip(n as nat);
    assert((seq!["--auto"@] + rest).skip(1) =~= rest);
    assert((seq!["resume"@] + rest).skip(1) =~= rest);
    assert((seq!["--last"@] + rest).skip(1) =~= rest);
    assert((seq!["--model"@, value] + rest).skip(2) =~= rest);
    assert((seq!["--reasoning-effort"@, value] + rest).skip(2) =~= rest);
    assert((seq!["--external-skills"@, value] + rest).skip(2) =~= rest);
    assert((seq!["--token-limit"@, decimal_text(n as nat)] + rest).skip(2) =~= rest);
    assert((seq!["--enable-thinking"@, value] + rest).skip(2) =~= rest);
}

/// What is wrong with a command line is refused: an option at the end without its value, a value
/// that is none, and an argument that there is not.
pub proof fn law_wrong_arguments_are_refused(
    o: OptionsText,
    arg: Seq<char>,
    value: Seq<char>,
    rest: Seq<Seq<char>>,
)
    ensures
        arg == "--model"@ || arg == "--reasoning-effort"@ || arg == "--enable-thinking"@ || arg
            == "--token-limit"@ || arg == "--external-skills"@ ==> outcome_of(seq![arg], o)
            == OutcomeText::Fail(CliErrorText::MissingValue(arg)),
        number_in(value) is None ==> outcome_of(seq!["--token-limit"@, value] + rest, o)
            == OutcomeText::Fail(CliErrorText::BadTokenLimit(value)),
        bool_in(value) is None ==> outcome_of(seq!["--enable-thinking"@, value] + rest, o)
            == OutcomeText::Fail(CliErrorText::NotBool("--enable-thinking"@)),
        !(arg == "--auto"@ || arg == "--model"@ || arg == "--reasoning-effort"@ || arg
            == "--enable-thinking"@ || arg == "--token-limit"@ || arg == "--external-skills"@ || arg
            == "resume"@ || arg == "--last"@ || arg == "--help"@ || arg == "-h"@) ==> outcome_of(
            seq![arg] + rest,
            o,
        ) == OutcomeText::Fail(CliErrorText::Unknown(arg)),
{
    lemma_arguments_differ();
}

/// A program that is started without arguments asks before each command, thinks, and opens a new
/// session.
pub proof fn law_defaults()
    ensures
        ({
            let o = default_options();
            &&& !o.auto_approve
            &&& o.enable_thinking
            &&& o.token_limit is None
            &&& o.external_skills.len() == 0
            &&& o.resume is New
            &&& o.model == "deepseek-v4-pro"@
            &&& o.reasoning_effort == "medium"@
        }),
{
}

/// The words for true and for false, in any case and with space around them; nothing else is
/// either.
pub proof fn law_truth_values(value: Seq<char>)
    ensures
        ({
            let t = lower(trimmed(value));
            &&& bool_in(value) == Some(true) <==> t == "true"@ || t == "1"@ || t == "yes"@ || t
                == "on"@
            &&& bool_in(value) == Some(false) <==> t == "false"@ || t == "0"@ || t == "no"@ || t
                == "off"@
        }),
{
    reveal_strlit("true");
    reveal_strlit("1");
    reveal_strlit("yes");
    reveal_strlit("on");
    reveal_strlit("false");
    reveal_strlit("0");
    reveal_strlit("no");
    reveal_strlit("off");
    let t = lower(trimmed(value));
    if t == "true"@ {
        assert(t[0] == 't');
    } else if t == "1"@ {
        assert(t[0] == '1');
    } else if t == "yes"@ {
        assert(t[0] == 'y');
    } else if t == "on"@ {
        assert(t.len() == 2 && t[0] == 'o');
        assert("no"@[0] == 'n');
        assert("off"@.len() == 3);
    }
}

/// Of several variables the first that is not blank counts, whatever the others hold, without
/// the space around it.
pub proof fn law_first_variable_counts(values: Seq<Option<Seq<char>>>, i: int)
    ensures
        0 <= i < values.len() && (values[i] matches Some(value) && trimmed(value).len() > 0) && (
        forall|k: int|
            0 <= k < i ==> (#[trigger] values[k] matches Some(other) ==> trimmed(other).len() == 0))
            ==> first_set(values) == Some(trimmed(values[i]->0)),
        (forall|k: int|
            0 <= k < values.len() ==> (#[trigger] values[k] matches Some(other) ==> trimmed(
                other,
            ).len() == 0)) ==> first_set(values) is None,
    decreases values.len(),
{
    if values.len() > 0 {
        let rest = values.skip(1);
        law_first_variable_counts(rest, i - 1);
        assert forall|k: int| 0 <= k < rest.len() implies #[trigger] rest[k] == values[k + 1] by {}
        if forall|k: int|
            0 <= k < values.len() ==> (#[trigger] values[k] matches Some(other) ==> trimmed(
                other,
            ).len() == 0) {
            assert(values[0] matches Some(other) ==> trimmed(other).len() == 0);
            assert forall|k: int| 0 <= k < rest.len() implies (#[trigger] rest[k] matches Some(
                other,
            ) ==> trimmed(other).len() == 0) by {
                assert(rest[k] == values[k + 1]);
            }
        }
        if 0 < i < values.len() && (values[i] matches Some(value) && trimmed(value).len() > 0) && (
        forall|k: int|
            0 <= k < i ==> (#[trigger] values[k] matches Some(other) ==> trimmed(other).len()
                == 0)) {
            assert(values[0] matches Some(other) ==> trimmed(other).len() == 0);
            assert(rest[i - 1] == values[i]);
            assert forall|k: int| 0 <= k < i - 1 implies (#[trigger] rest[k] matches Some(other)
                ==> trimmed(other).len() == 0) by {
                assert(rest[k] == values[k + 1]);
            }
        }
    }
}

/// A line is a command only where it is one of their names, but for the space around it; whatever
/// else is typed goes to the model whole.
pub proof fn law_other_lines_are_turns(line: Seq<char>)
    ensures
        ({
            let t = trimmed(line);
            let named = t == "/exit"@ || t == "/quit"@ || t == "/continue"@ || t == "/help"@ || t
                == "/run"@ || t == "/run-stage2"@ || t == "/auto on"@ || t == "/auto off"@;
            &&& t.len() > 0 && !named <==> command_in(line) is Turn
            &&& command_in(line) is Turn ==> command_in(line) == CommandText::Turn(t)
            &&& command_in(line) is Exit <==> t == "/exit"@ || t == "/quit"@
            &&& command_in(line) is AutoOn <==> t == "/auto on"@
            &&& command_in(line) is AutoOff <==> t == "/auto off"@
            &&& command_in(line) is Run <==> t == "/run"@
            &&& command_in(line) is RunStage2 <==> t == "/run-stage2"@
            &&& command_in(line) is Continue <==> t == "/continue"@
            &&& command_in(line) is Help <==> t == "/help"@
        }),
{
    reveal_strlit("/exit");
    reveal_strlit("/quit");
    reveal_strlit("/continue");
    reveal_strlit("/help");
    reveal_strlit("/run");
    reveal_strlit("/run-stage2");
    reveal_strlit("/auto on");
    reveal_strlit("/auto off");
    assert("/exit"@[1] == 'e' && "/quit"@[1] == 'q' && "/help"@[1] == 'h' && "/continue"@[1] == 'c'
        && "/run"@[1] == 'r' && "/run-stage2"@[1] == 'r' && "/auto on"@[1] == 'a' && "/auto off"@[1]
        == 'a');
    assert("/run"@.len() == 4 && "/run-stage2"@.len() == 11 && "/auto on"@.len() == 8
        && "/auto off"@.len() == 9);
}

/// What is wrong with an argument is said with the argument, whole.
pub proof fn law_errors_name_arguments(arg: Seq<char>)
    ensures
        CliErrorText::MissingValue(arg).message() == arg + " requires a value"@,
        begins_with(CliErrorText::NotBool(arg).message(), arg),
        ends_in(CliErrorText::NotBool(arg).message(), " expects true or false"@),
        ends_in(CliErrorText::BadTokenLimit(arg).message(), "--token-limit value: "@ + arg),
        ends_in(CliErrorText::Unknown(arg).message(), "unknown argument: "@ + arg),
{
    reveal_strlit("invalid --token-limit value: ");
    reveal_strlit("--token-limit value: ");
    let a = CliErrorText::NotBool(arg).message();
    let close = " expects true or false"@;
    assert(a.subrange(0, arg.len() as int) =~= arg);
    assert(a.subrange(a.len() - close.len(), a.len() as int) =~= close);
    let b = CliErrorText::BadTokenLimit(arg).message();
    let tail = "--token-limit value: "@ + arg;
    assert(b.subrange(b.len() - tail.len(), b.len() as int) =~= tail);
    let c = CliErrorText::Unknown(arg).message();
    assert(c.subrange(0, c.len() as int) =~= c);
}

/// The values of variables are looked at one by one.
pub proof fn law_values_are_of_each(values: Seq<Option<String>>)
    ensures
        optional_views(values).len() == values.len(),
        forall|i: int|
            0 <= i < values.len() && values[i] is Some ==> #[trigger] optional_views(values)[i]
                == Some(values[i]->0@),
        forall|i: int|
            0 <= i < values.len() && values[i] is None ==> #[trigger] optional_views(
                values,
            )[i] is None,
{
}

/// The banner shows, each in a line of its own, where the session works and how.
pub proof fn law_banner_shows_all(b: Banner)
    ensures
        ({
            let lines = banner_lines_of(b);
            &&& ends_in(lines[1], " "@ + b.workspace@)
            &&& ends_in(lines[2], " "@ + b.ansys_exe@)
            &&& ends_in(lines[3], " "@ + b.input_dir@)
            &&& ends_in(lines[4], " "@ + b.output_dir@)
            &&& ends_in(lines[5], " "@ + b.model@)
            &&& ends_in(lines[6], " "@ + b.reasoning_effort@)
            &&& ends_in(lines[7], " "@ + bool_text(b.enable_thinking))
            &&& ends_in(lines[8], " "@ + decimal_text(b.history_token_limit as nat))
            &&& ends_in(lines[9], " "@ + b.session@)
            &&& ends_in(lines[10], " "@ + b.history@)
            &&& ends_in(lines[11], " "@ + approval_mode_of(b.auto_approve))
            &&& ends_in(lines[12], " "@ + decimal_text(b.skills as nat))
        }),
{
    lemma_banner_value("workspace:"@, b.workspace@);
    lemma_banner_value("ansys exe:"@, b.ansys_exe@);
    lemma_banner_value("input dir:"@, b.input_dir@);
    lemma_banner_value("output dir:"@, b.output_dir@);
    lemma_banner_value("model:"@, b.model@);
    lemma_banner_value("reasoning effort:"@, b.reasoning_effort@);
    lemma_banner_value("enable thinking:"@, bool_text(b.enable_thinking));
    lemma_banner_value("history token limit:"@, decimal_text(b.history_token_limit as nat));
    lemma_banner_value("session:"@, b.session@);
    lemma_banner_value("history:"@, b.history@);
    lemma_banner_value("approval mode:"@, approval_mode_of(b.auto_approve));
    lemma_banner_value("skills loaded:"@, decimal_text(b.skills as nat));
}

proof fn lemma_banner_value(label: Seq<char>, value: Seq<char>)
    ensures
        ends_in(banner_field(label, value), " "@ + value),
{
    let t = banner_field(label, value);
    let tail = " "@ + value;
    assert(t.subrange(t.len() - tail.len(), t.len() as int) =~= tail);
}

} // verus!
