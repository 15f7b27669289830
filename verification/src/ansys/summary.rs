//! What the user is told at the end of a run.

use vstd::prelude::*;

use crate::ansys::config::AnsysConfig;
use crate::ansys::pipeline::{
    success_message, MANUAL_SUCCESS, SUCCESS_WITHOUT_DECK, SUCCESS_WITH_DECK,
};
use crate::number::{decimal, decimal_text};
use crate::text::{ends_in, inner_text, views};
use crate::ui::{style, styled, COLOR_CYAN, COLOR_DIM, COLOR_GREEN};

verus! {

/// What is said before both stages are run.
pub const RUN_START: &'static str = "Starting ANSYS APDL generation and repair loop...";

/// What is said before only the export is run.
pub const STAGE2_START: &'static str = "Starting Stage 2 ANSYS K-export loop from apdl-k...";

/// What a run left, with paths as they are shown.
#[derive(Debug)]
pub struct RunSummary {
    pub run_id: String,
    pub run_dir: String,
    pub apdl_runs_dir: String,
    pub apdl_k_runs_dir: String,
    pub k_dir: String,
    pub source_context_path: String,
    pub input_summary_path: String,
    pub draft_apdl_path: String,
    pub err_file: Option<String>,
    pub out_file: String,
    pub k_file: Option<String>,
    pub stage2_dir: String,
    pub stage2_current_apdl_path: String,
    pub stage2_brief_path: String,
    pub stage2_request_path: String,
    pub stage2_run_dir: Option<String>,
    pub stage2_out_file: Option<String>,
    pub stage2_err_file: Option<String>,
    pub stage2_attempts: usize,
    pub attempts: usize,
    pub message: String,
}

/// What the accepted run of the first stage left.
#[derive(Debug)]
pub struct Stage1Outcome {
    pub run_dir: String,
    pub draft_path: String,
    pub out_file: String,
    pub err_file: Option<String>,
    /// The newest deck after the run.
    pub k_file: Option<String>,
    pub attempts: usize,
}

/// What the accepted run of the export left.
#[derive(Debug)]
pub struct Stage2Outcome {
    pub run_dir: String,
    pub out_file: String,
    pub err_file: Option<String>,
    pub k_file: Option<String>,
    pub attempts: usize,
}

/// The paths of an export workspace.
#[derive(Debug)]
pub struct Stage2Workspace {
    pub dir: String,
    pub current_apdl_path: String,
    pub brief_path: String,
    pub request_path: String,
}

/// The paths of what is known of the source materials.
#[derive(Debug)]
pub struct BundlePaths {
    pub source_context: String,
    pub input_summary: String,
}

/// What a run of both stages left. The deck is that of the export, else one from before it.
pub fn summarize_run(
    config: &AnsysConfig,
    run_id: String,
    bundle: BundlePaths,
    stage1: Stage1Outcome,
    workspace: Stage2Workspace,
    stage2: Stage2Outcome,
) -> (r: RunSummary)
    ensures
        r.run_id == run_id,
        r.run_dir == stage1.run_dir,
        r.apdl_runs_dir == config.apdl_runs_dir,
        r.apdl_k_runs_dir == config.apdl_k_runs_dir,
        r.k_dir == config.k_dir,
        r.source_context_path == bundle.source_context,
        r.input_summary_path == bundle.input_summary,
        r.draft_apdl_path == stage1.draft_path,
        r.err_file == stage1.err_file,
        r.out_file == stage1.out_file,
        r.k_file == if stage2.k_file is Some {
            stage2.k_file
        } else {
            stage1.k_file
        },
        r.stage2_dir == workspace.dir,
        r.stage2_current_apdl_path == workspace.current_apdl_path,
        r.stage2_brief_path == workspace.brief_path,
        r.stage2_request_path == workspace.request_path,
        r.stage2_run_dir == Some(stage2.run_dir),
        r.stage2_out_file == Some(stage2.out_file),
        r.stage2_err_file == stage2.err_file,
        r.stage2_attempts == stage2.attempts,
        r.attempts == stage1.attempts,
        r.message@ == if r.k_file is Some {
            SUCCESS_WITH_DECK@
        } else {
            SUCCESS_WITHOUT_DECK@
        },
{
    let k_file = match stage2.k_file {
        Some(path) => Some(path),
        None => stage1.k_file,
    };
    let message = success_message(k_file.is_some()).to_owned();
    RunSummary {
        run_id,
        run_dir: stage1.run_dir,
        apdl_runs_dir: config.apdl_runs_dir.clone(),
        apdl_k_runs_dir: config.apdl_k_runs_dir.clone(),
        k_dir: config.k_dir.clone(),
        source_context_path: bundle.source_context,
        input_summary_path: bundle.input_summary,
        draft_apdl_path: stage1.draft_path,
        err_file: stage1.err_file,
        out_file: stage1.out_file,
        k_file,
        stage2_dir: workspace.dir,
        stage2_current_apdl_path: workspace.current_apdl_path,
        stage2_brief_path: workspace.brief_path,
        stage2_request_path: workspace.request_path,
        stage2_run_dir: Some(stage2.run_dir),
        stage2_out_file: Some(stage2.out_file),
        stage2_err_file: stage2.err_file,
        stage2_attempts: stage2.attempts,
        attempts: stage1.attempts,
        message,
    }
}

/// What a run of the export alone left.
pub fn summarize_export(
    config: &AnsysConfig,
    run_id: String,
    bundle: BundlePaths,
    workspace: Stage2Workspace,
    stage2: Stage2Outcome,
) -> (r: RunSummary)
    ensures
        r.run_id == run_id,
        r.run_dir == stage2.run_dir,
        r.apdl_runs_dir == config.apdl_runs_dir,
        r.apdl_k_runs_dir == config.apdl_k_runs_dir,
        r.k_dir == config.k_dir,
        r.source_context_path == bundle.source_context,
        r.input_summary_path == bundle.input_summary,
        r.draft_apdl_path == workspace.current_apdl_path,
        r.err_file is None,
        r.out_file == stage2.out_file,
        r.k_file == stage2.k_file,
        r.stage2_dir == workspace.dir,
        r.stage2_current_apdl_path == workspace.current_apdl_path,
        r.stage2_brief_path == workspace.brief_path,
        r.stage2_request_path == workspace.request_path,
        r.stage2_run_dir == Some(stage2.run_dir),
        r.stage2_out_file == Some(stage2.out_file),
        r.stage2_err_file == stage2.err_file,
        r.stage2_attempts == stage2.attempts,
        r.attempts == 0,
        r.message@ == MANUAL_SUCCESS@,
{
    RunSummary {
        run_id,
        run_dir: stage2.run_dir.clone(),
        apdl_runs_dir: config.apdl_runs_dir.clone(),
        apdl_k_runs_dir: config.apdl_k_runs_dir.clone(),
        k_dir: config.k_dir.clone(),
        source_context_path: bundle.source_context,
        input_summary_path: bundle.input_summary,
        draft_apdl_path: workspace.current_apdl_path.clone(),
        err_file: None,
        out_file: stage2.out_file.clone(),
        k_file: stage2.k_file,
        stage2_dir: workspace.dir,
        stage2_current_apdl_path: workspace.current_apdl_path,
        stage2_brief_path: workspace.brief_path,
        stage2_request_path: workspace.request_path,
        stage2_run_dir: Some(stage2.run_dir),
        stage2_out_file: Some(stage2.out_file),
        stage2_err_file: stage2.err_file,
        stage2_attempts: stage2.attempts,
        attempts: 0,
        message: MANUAL_SUCCESS.to_owned(),
    }
}

/// A line with a label and a value.
pub open spec fn field(label: Seq<char>, value: Seq<char>) -> Seq<char> {
    styled(COLOR_DIM@, "ansys"@) + " "@ + label + ": "@ + value
}

/// The line with a value that there may be.
pub open spec fn optional_field(label: Seq<char>, value: Option<Seq<char>>) -> Seq<Seq<char>> {
    match value {
        Some(value) => seq![field(label, value)],
        None => Seq::empty(),
    }
}

/// The line with the message.
pub open spec fn message_line(message: Seq<char>) -> Seq<char> {
    styled(COLOR_GREEN@, "ansys>"@) + " "@ + message
}

/// Adds a line with a label and a value.
fn push_field(lines: &mut Vec<String>, label: &str, value: &str)
    ensures
        views(final(lines)@) == views(old(lines)@) + seq![field(label@, value@)],
{
    let ghost before = views(lines@);
    let mut r = style(COLOR_DIM, "ansys");
    r.append(" ");
    r.append(label);
    r.append(": ");
    r.append(value);
    lines.push(r);
    proof {
        assert(views(lines@) =~= before + seq![r@]);
    }
}

/// Adds the line with a value that there may be.
fn push_optional(lines: &mut Vec<String>, label: &str, value: &Option<String>)
    ensures
        views(final(lines)@) == views(old(lines)@) + optional_field(label@, inner_text(*value)),
{
    match value {
        Some(value) => push_field(lines, label, value),
        None => {
            proof {
                assert(views(lines@) + Seq::<Seq<char>>::empty() =~= views(lines@));
            }
        },
    }
}

/// The lines with the message alone.
fn begin(message: &str) -> (lines: Vec<String>)
    ensures
        views(lines@) == seq![message_line(message@)],
{
    let mut r = style(COLOR_GREEN, "ansys>");
    r.append(" ");
    r.append(message);
    let mut lines: Vec<String> = Vec::new();
    lines.push(r);
    proof {
        assert(views(lines@) =~= seq![message_line(message@)]);
    }
    lines
}

/// Writes the line before a run.
pub fn start_line(text: &str) -> (r: String)
    ensures
        r@ == styled(COLOR_CYAN@, "ansys>"@) + " "@ + text@,
{
    let mut r = style(COLOR_CYAN, "ansys>");
    r.append(" ");
    r.append(text);
    r
}

/// The lines about a run of both stages.
pub open spec fn run_lines(s: RunSummary) -> Seq<Seq<char>> {
    seq![message_line(s.message@)] + seq![field("apdl dir"@, s.apdl_runs_dir@)] + seq![
        field("k dir"@, s.k_dir@),
    ] + seq![field("apdl-k dir"@, s.apdl_k_runs_dir@)] + seq![field("run dir"@, s.run_dir@)] + seq![
        field("source context"@, s.source_context_path@),
    ] + seq![field("input summary"@, s.input_summary_path@)] + seq![
        field("draft apdl"@, s.draft_apdl_path@),
    ] + seq![field("ansys out"@, s.out_file@)] + seq![field("stage2 brief"@, s.stage2_brief_path@)]
        + seq![field("stage2 dir"@, s.stage2_dir@)] + seq![
        field("stage2 current apdl"@, s.stage2_current_apdl_path@),
    ] + seq![field("stage2 request"@, s.stage2_request_path@)] + optional_field(
        "stage2 run dir"@,
        inner_text(s.stage2_run_dir),
    ) + optional_field("stage2 ansys out"@, inner_text(s.stage2_out_file)) + optional_field(
        "stage2 err file"@,
        inner_text(s.stage2_err_file),
    ) + optional_field("err file"@, inner_text(s.err_file)) + optional_field(
        "final K"@,
        inner_text(s.k_file),
    ) + seq![
        field("attempts"@, decimal_text(s.attempts as nat) + " ("@ + s.run_id@ + ")"@),
    ] + seq![field("stage2 attempts"@, decimal_text(s.stage2_attempts as nat))]
}

/// The lines about a run of the export alone.
pub open spec fn stage2_lines(s: RunSummary) -> Seq<Seq<char>> {
    seq![message_line(s.message@)] + seq![field("apdl-k dir"@, s.apdl_k_runs_dir@)] + seq![
        field("stage2 dir"@, s.stage2_dir@),
    ] + seq![field("stage2 current apdl"@, s.stage2_current_apdl_path@)] + seq![
        field("stage2 request"@, s.stage2_request_path@),
    ] + optional_field("stage2 run dir"@, inner_text(s.stage2_run_dir)) + optional_field(
        "stage2 ansys out"@,
        inner_text(s.stage2_out_file),
    ) + optional_field("stage2 err file"@, inner_text(s.stage2_err_file)) + optional_field(
        "final K"@,
        inner_text(s.k_file),
    ) + seq![field("stage2 attempts"@, decimal_text(s.stage2_attempts as nat))]
}

impl RunSummary {
    /// Writes the lines about a run of both stages.
    pub fn lines(&self) -> (lines: Vec<String>)
        ensures
            views(lines@) == run_lines(*self),
    {
        let mut lines = begin(&self.message);
        push_field(&mut lines, "apdl dir", &self.apdl_runs_dir);
        push_field(&mut lines, "k dir", &self.k_dir);
        push_field(&mut lines, "apdl-k dir", &self.apdl_k_runs_dir);
        push_field(&mut lines, "run dir", &self.run_dir);
        push_field(&mut lines, "source context", &self.source_context_path);
        push_field(&mut lines, "input summary", &self.input_summary_path);
        push_field(&mut lines, "draft apdl", &self.draft_apdl_path);
        push_field(&mut lines, "ansys out", &self.out_file);
        push_field(&mut lines, "stage2 brief", &self.stage2_brief_path);
        push_field(&mut lines, "stage2 dir", &self.stage2_dir);
        push_field(&mut lines, "stage2 current apdl", &self.stage2_current_apdl_path);
        push_field(&mut lines, "stage2 request", &self.stage2_request_path);
        push_optional(&mut lines, "stage2 run dir", &self.stage2_run_dir);
        push_optional(&mut lines, "stage2 ansys out", &self.stage2_out_file);
        push_optional(&mut lines, "stage2 err file", &self.stage2_err_file);
        push_optional(&mut lines, "err file", &self.err_file);
        push_optional(&mut lines, "final K", &self.k_file);
        let mut attempts = decimal(self.attempts as u128);
        attempts.append(" (");
        attempts.append(&self.run_id);
        attempts.append(")");
        push_field(&mut lines, "attempts", &attempts);
        push_field(&mut lines, "stage2 attempts", &decimal(self.stage2_attempts as u128));
        lines
    }

    /// Writes the lines about a run of the export alone.
    pub fn stage2_lines(&self) -> (lines: Vec<String>)
        ensures
            views(lines@) == stage2_lines(*self),
    {
        let mut lines = begin(&self.message);
        push_field(&mut lines, "apdl-k dir", &self.apdl_k_runs_dir);
        push_field(&mut lines, "stage2 dir", &self.stage2_dir);
        push_field(&mut lines, "stage2 current apdl", &self.stage2_current_apdl_path);
        push_field(&mut lines, "stage2 request", &self.stage2_request_path);
        push_optional(&mut lines, "stage2 run dir", &self.stage2_run_dir);
        push_optional(&mut lines, "stage2 ansys out", &self.stage2_out_file);
        push_optional(&mut lines, "stage2 err file", &self.stage2_err_file);
        push_optional(&mut lines, "final K", &self.k_file);
        push_field(&mut lines, "stage2 attempts", &decimal(self.stage2_attempts as u128));
        lines
    }
}

/// Some line ends with this text.
pub open spec fn shows(lines: Seq<Seq<char>>, text: Seq<char>) -> bool {
    exists|i: int| 0 <= i < lines.len() && ends_in(#[trigger] lines[i], text)
}

proof fn lemma_field_shown(lines: Seq<Seq<char>>, label: Seq<char>, value: Seq<char>)
    requires
        lines.contains(field(label, value)),
    ensures
        shows(lines, label + ": "@ + value),
{
    let line = field(label, value);
    let text = label + ": "@ + value;
    assert(line.subrange(line.len() - text.len(), line.len() as int) =~= text);
    let i = choose|i: int| 0 <= i < lines.len() && lines[i] == line;
    assert(ends_in(lines[i], text));
}

proof fn lemma_message_shown(lines: Seq<Seq<char>>, message: Seq<char>)
    requires
        lines.contains(message_line(message)),
    ensures
        shows(lines, message),
{
    let line = message_line(message);
    assert(line.subrange(line.len() - message.len(), line.len() as int) =~= message);
    let i = choose|i: int| 0 <= i < lines.len() && lines[i] == line;
    assert(ends_in(lines[i], message));
}

/// After a run of both stages the user is told the message, every directory and file that it left,
/// and how many attempts each stage took.
pub proof fn law_run_is_told_whole(s: RunSummary)
    ensures
        shows(run_lines(s), s.message@),
        shows(run_lines(s), "apdl dir"@ + ": "@ + s.apdl_runs_dir@),
        shows(run_lines(s), "k dir"@ + ": "@ + s.k_dir@),
        shows(run_lines(s), "apdl-k dir"@ + ": "@ + s.apdl_k_runs_dir@),
        shows(run_lines(s), "run dir"@ + ": "@ + s.run_dir@),
        shows(run_lines(s), "source context"@ + ": "@ + s.source_context_path@),
        shows(run_lines(s), "input summary"@ + ": "@ + s.input_summary_path@),
        shows(run_lines(s), "draft apdl"@ + ": "@ + s.draft_apdl_path@),
        shows(run_lines(s), "ansys out"@ + ": "@ + s.out_file@),
        shows(run_lines(s), "stage2 brief"@ + ": "@ + s.stage2_brief_path@),
        shows(run_lines(s), "stage2 dir"@ + ": "@ + s.stage2_dir@),
        shows(run_lines(s), "stage2 current apdl"@ + ": "@ + s.stage2_current_apdl_path@),
        shows(run_lines(s), "stage2 request"@ + ": "@ + s.stage2_request_path@),
        s.stage2_run_dir is Some ==> shows(
            run_lines(s),
            "stage2 run dir"@ + ": "@ + s.stage2_run_dir->0@,
        ),
        s.stage2_out_file is Some ==> shows(
            run_lines(s),
            "stage2 ansys out"@ + ": "@ + s.stage2_out_file->0@,
        ),
        s.stage2_err_file is Some ==> shows(
            run_lines(s),
            "stage2 err file"@ + ": "@ + s.stage2_err_file->0@,
        ),
        s.err_file is Some ==> shows(run_lines(s), "err file"@ + ": "@ + s.err_file->0@),
        s.k_file is Some ==> shows(run_lines(s), "final K"@ + ": "@ + s.k_file->0@),
        shows(
            run_lines(s),
            "attempts"@ + ": "@ + (decimal_text(s.attempts as nat) + " ("@ + s.run_id@ + ")"@),
        ),
        shows(run_lines(s), "stage2 attempts"@ + ": "@ + decimal_text(s.stage2_attempts as nat)),
{
    broadcast use vstd::seq_lib::group_seq_properties;

    let lines = run_lines(s);
    assert(seq![message_line(s.message@)].contains(message_line(s.message@)));
    assert(lines.contains(message_line(s.message@)));
    lemma_message_shown(lines, s.message@);
    lemma_field_shown(lines, "apdl dir"@, s.apdl_runs_dir@);
    lemma_field_shown(lines, "k dir"@, s.k_dir@);
    lemma_field_shown(lines, "apdl-k dir"@, s.apdl_k_runs_dir@);
    lemma_field_shown(lines, "run dir"@, s.run_dir@);
    lemma_field_shown(lines, "source context"@, s.source_context_path@);
    lemma_field_shown(lines, "input summary"@, s.input_summary_path@);
    lemma_field_shown(lines, "draft apdl"@, s.draft_apdl_path@);
    lemma_field_shown(lines, "ansys out"@, s.out_file@);
    lemma_field_shown(lines, "stage2 brief"@, s.stage2_brief_path@);
    lemma_field_shown(lines, "stage2 dir"@, s.stage2_dir@);
    lemma_field_shown(lines, "stage2 current apdl"@, s.stage2_current_apdl_path@);
    lemma_field_shown(lines, "stage2 request"@, s.stage2_request_path@);
    if let Some(v) = s.stage2_run_dir {
        lemma_field_shown(lines, "stage2 run dir"@, v@);
    }
    if let Some(v) = s.stage2_out_file {
        lemma_field_shown(lines, "stage2 ansys out"@, v@);
    }
    if let Some(v) = s.stage2_err_file {
        lemma_field_shown(lines, "stage2 err file"@, v@);
    }
    if let Some(v) = s.err_file {
        lemma_field_shown(lines, "err file"@, v@);
    }
    if let Some(v) = s.k_file {
        lemma_field_shown(lines, "final K"@, v@);
    }
    lemma_field_shown(
        lines,
        "attempts"@,
        decimal_text(s.attempts as nat) + " ("@ + s.run_id@ + ")"@,
    );
    lemma_field_shown(lines, "stage2 attempts"@, decimal_text(s.stage2_attempts as nat));
}

/// After a run of the export alone the user is told the message, every directory and file that it
/// left, and how many attempts it took.
pub proof fn law_export_is_told_whole(s: RunSummary)
    ensures
        shows(stage2_lines(s), s.message@),
        shows(stage2_lines(s), "apdl-k dir"@ + ": "@ + s.apdl_k_runs_dir@),
        shows(stage2_lines(s), "stage2 dir"@ + ": "@ + s.stage2_dir@),
        shows(stage2_lines(s), "stage2 current apdl"@ + ": "@ + s.stage2_current_apdl_path@),
        shows(stage2_lines(s), "stage2 request"@ + ": "@ + s.stage2_request_path@),
        s.stage2_run_dir is Some ==> shows(
            stage2_lines(s),
            "stage2 run dir"@ + ": "@ + s.stage2_run_dir->0@,
        ),
        s.stage2_out_file is Some ==> shows(
            stage2_lines(s),
            "stage2 ansys out"@ + ": "@ + s.stage2_out_file->0@,
        ),
        s.stage2_err_file is Some ==> shows(
            stage2_lines(s),
            "stage2 err file"@ + ": "@ + s.stage2_err_file->0@,
        ),
        s.k_file is Some ==> shows(stage2_lines(s), "final K"@ + ": "@ + s.k_file->0@),
        shows(stage2_lines(s), "stage2 attempts"@ + ": "@ + decimal_text(s.stage2_attempts as nat)),
{
    broadcast use vstd::seq_lib::group_seq_properties;

    let lines = stage2_lines(s);
    assert(seq![message_line(s.message@)].contains(message_line(s.message@)));
    assert(lines.contains(message_line(s.message@)));
    lemma_message_shown(lines, s.message@);
    lemma_field_shown(lines, "apdl-k dir"@, s.apdl_k_runs_dir@);
    lemma_field_shown(lines, "stage2 dir"@, s.stage2_dir@);
    lemma_field_shown(lines, "stage2 current apdl"@, s.stage2_current_apdl_path@);
    lemma_field_shown(lines, "stage2 request"@, s.stage2_request_path@);
    if let Some(v) = s.stage2_run_dir {
        lemma_field_shown(lines, "stage2 run dir"@, v@);
    }
    if let Some(v) = s.stage2_out_file {
        lemma_field_shown(lines, "stage2 ansys out"@, v@);
    }
    if let Some(v) = s.stage2_err_file {
        lemma_field_shown(lines, "stage2 err file"@, v@);
    }
    if let Some(v) = s.k_file {
        lemma_field_shown(lines, "final K"@, v@);
    }
    lemma_field_shown(lines, "stage2 attempts"@, decimal_text(s.stage2_attempts as nat));
}

} // verus!
