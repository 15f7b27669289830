//! The loops that run a command stream and have it repaired, and the names of what they leave.

use vstd::prelude::*;

use crate::ansys::apdl::{needs_generation, stage2_apdl_needs_generation};
use crate::ansys::config::product_of;
use crate::ansys::validate::{
    export_issue, is_deck_state, k_checked_text, k_issue, law_accepted_deck_is_complete,
    stage1_issue, stage1_missing, validate_stage1_model_requirements,
    validate_stage2_apdl_strategy, validate_stage2_export_requirements, writes_deck_by_hand,
    KFileState, KFileText, K_FILE_MARKS, MAX_REASONABLE_K_FILE_BYTES, STRATEGY_ISSUE,
};
use crate::number::{decimal, decimal_text, law_two_digits_read_back, two_digit_text, two_digits};
use crate::order::{law_newest_is_first_latest, newest, newest_of};
use crate::text::{
    begins_with, ends_in, has_text, inner_text, is_blank, is_space, lemma_middle_occurs, lower,
    same_text, text_in, text_or, texts, to_lower, trimmed, views,
};

verus! {

/// The command stream of a run, in the directory of the run.
pub const DRAFT_FILE: &'static str = "draft.apdl";

/// The output of ANSYS, in the directory of the run.
pub const OUT_FILE: &'static str = "ansys.out";

/// What ANSYS wrote to its error stream, in the directory of the run.
pub const STDERR_FILE: &'static str = "ansys.stderr.txt";

/// The request for a repair, in the directory of the run.
pub const REPAIR_PROMPT_FILE: &'static str = "repair_prompt.txt";

/// The repaired command stream, in the directory of the run.
pub const REPAIRED_FILE: &'static str = "repaired.apdl";

/// The command stream of an export workspace.
pub const STAGE2_APDL_FILE: &'static str = "current_stage2.apdl";

/// The brief of an export workspace.
pub const STAGE2_BRIEF_FILE: &'static str = "stage2_export_brief.txt";

/// The request of an export workspace.
pub const STAGE2_REQUEST_FILE: &'static str = "stage2_export_request.txt";

/// The list of the source materials, in the output directory.
pub const SOURCE_CONTEXT_FILE: &'static str = "source_context.json";

/// The summary of the source materials, in the output directory.
pub const INPUT_SUMMARY_FILE: &'static str = "input_summary.txt";

/// The source of a repair before the first run of an export command stream.
pub const STRATEGY_SOURCE: &'static str = "stage-2 strategy validation";

/// What is said at the end where the export left a deck.
pub const SUCCESS_WITH_DECK: &'static str =
    "ANSYS run completed without blocking .err issues, satisfied Stage 1 geometry/mesh checks, and Stage 2 produced a K file.";

/// What is said at the end where the export left no deck.
pub const SUCCESS_WITHOUT_DECK: &'static str =
    "ANSYS run completed without blocking .err issues and satisfied Stage 1 geometry/mesh checks. Stage 2 executed but no K file was produced yet.";

/// What is said at the end of an export that the user started.
pub const MANUAL_SUCCESS: &'static str =
    "Stage 2 executed directly from apdl-k and produced a K file.";

/// A loop that runs a command stream and has it repaired.
#[derive(Debug, Clone, Copy, PartialEq, Eq, Structural)]
pub enum LoopKind {
    /// Builds the model and its mesh.
    Stage1,
    /// Exports the model that was just built.
    Stage2,
    /// Exports from the newest workspace, at the user's request.
    ManualStage2,
}

impl LoopKind {
    /// What a note on an attempt begins with.
    pub open spec fn note_label(self) -> Seq<char> {
        match self {
            LoopKind::Stage1 => "Attempt "@,
            LoopKind::Stage2 => "Stage 2 attempt "@,
            LoopKind::ManualStage2 => "Manual Stage 2 attempt "@,
        }
    }

    /// The note on attempt `attempt`, whose issue came from `source`.
    pub open spec fn note(self, attempt: nat, source: Seq<char>) -> Seq<char> {
        self.note_label() + decimal_text(attempt) + ": repaired APDL based on "@ + source
    }

    /// What stands between the run and the number in the name of a job.
    pub open spec fn job_infix(self) -> Seq<char> {
        match self {
            LoopKind::Stage1 => "-attempt-"@,
            LoopKind::Stage2 => "-stage2-attempt-"@,
            LoopKind::ManualStage2 => "-manual-stage2-attempt-"@,
        }
    }

    /// The name of the job of an attempt.
    pub open spec fn job_name(self, run_id: Seq<char>, attempt: nat) -> Seq<char> {
        run_id + self.job_infix() + two_digit_text(attempt)
    }

    /// The name of the directory of an attempt.
    pub open spec fn dir_name(self, run_id: Seq<char>, attempt: nat) -> Seq<char> {
        match self {
            LoopKind::Stage1 => self.job_name(run_id, attempt),
            LoopKind::Stage2 => "attempt-"@ + two_digit_text(attempt),
            LoopKind::ManualStage2 => "manual-attempt-"@ + two_digit_text(attempt),
        }
    }

    /// The message on a loop that used all its attempts.
    pub open spec fn exhausted(self, limit: nat) -> Seq<char> {
        "exhausted "@ + decimal_text(limit) + match self {
            LoopKind::Stage1 =>
                " repair attempts without reaching an error-free ANSYS run"@,
            _ => " Stage 2 repair attempts without producing a K file"@,
        }
    }

    /// The name of the file that keeps the conversation on repairs.
    pub open spec fn repair_history(self, run_id: Seq<char>) -> Seq<char> {
        run_id + match self {
            LoopKind::Stage1 => "-repair-history.json"@,
            LoopKind::Stage2 => "-stage2-repair-history.json"@,
            LoopKind::ManualStage2 => "-manual-stage2-repair-history.json"@,
        }
    }

    /// The source of an issue that ANSYS did not report.
    pub open spec fn own_source(self) -> Seq<char> {
        match self {
            LoopKind::Stage1 => "stage-1 completeness validation"@,
            _ => "stage-2 K export validation"@,
        }
    }

    /// Writes the note on an attempt.
    fn write_note(&self, attempt: usize, source: &str) -> (r: String)
        ensures
            r@ == self.note(attempt as nat, source@),
    {
        let mut r = match self {
            LoopKind::Stage1 => "Attempt ".to_owned(),
            LoopKind::Stage2 => "Stage 2 attempt ".to_owned(),
            LoopKind::ManualStage2 => "Manual Stage 2 attempt ".to_owned(),
        };
        r.append(decimal(attempt as u128).as_str());
        r.append(": repaired APDL based on ");
        r.append(source);
        r
    }

    /// Writes the name of the job of an attempt.
    fn write_job_name(&self, run_id: &str, attempt: usize) -> (r: String)
        ensures
            r@ == self.job_name(run_id@, attempt as nat),
    {
        let mut r = run_id.to_owned();
        match self {
            LoopKind::Stage1 => r.append("-attempt-"),
            LoopKind::Stage2 => r.append("-stage2-attempt-"),
            LoopKind::ManualStage2 => r.append("-manual-stage2-attempt-"),
        }
        r.append(two_digits(attempt).as_str());
        r
    }

    /// Writes the name of the directory of an attempt.
    fn write_dir_name(&self, run_id: &str, attempt: usize) -> (r: String)
        ensures
            r@ == self.dir_name(run_id@, attempt as nat),
    {
        let mut r = match self {
            LoopKind::Stage1 => {
                return self.write_job_name(run_id, attempt);
            },
            LoopKind::Stage2 => "attempt-".to_owned(),
            LoopKind::ManualStage2 => "manual-attempt-".to_owned(),
        };
        r.append(two_digits(attempt).as_str());
        r
    }

    /// Writes the message on a loop that used all its attempts.
    fn write_exhausted(&self, limit: usize) -> (r: String)
        ensures
            r@ == self.exhausted(limit as nat),
    {
        let mut r = "exhausted ".to_owned();
        r.append(decimal(limit as u128).as_str());
        match self {
            LoopKind::Stage1 => r.append(
                " repair attempts without reaching an error-free ANSYS run",
            ),
            _ => r.append(" Stage 2 repair attempts without producing a K file"),
        }
        r
    }

    /// Writes the name of the file that keeps the conversation on repairs.
    pub fn repair_history_name(&self, run_id: &str) -> (r: String)
        ensures
            r@ == self.repair_history(run_id@),
    {
        let mut r = run_id.to_owned();
        match self {
            LoopKind::Stage1 => r.append("-repair-history.json"),
            LoopKind::Stage2 => r.append("-stage2-repair-history.json"),
            LoopKind::ManualStage2 => r.append("-manual-stage2-repair-history.json"),
        }
        r
    }
}

/// A loop between two steps.
#[derive(Debug)]
pub struct RepairLoop {
    pub kind: LoopKind,
    pub run_id: String,
    /// How many attempts may be made.
    pub limit: usize,
    /// How many attempts ended in a repair.
    pub repaired: usize,
    /// The command stream of the next attempt.
    pub apdl: String,
    /// One note for each repair.
    pub notes: Vec<String>,
}

/// What a loop knows between two steps.
pub ghost struct LoopState {
    pub kind: LoopKind,
    pub run_id: Seq<char>,
    pub limit: nat,
    pub repaired: nat,
    pub apdl: Seq<char>,
    pub notes: Seq<Seq<char>>,
}

impl LoopState {
    /// No more attempts were made than may be, and each that was repaired left a note.
    pub open spec fn wf(self) -> bool {
        self.repaired <= self.limit && self.notes.len() == self.repaired
    }

    /// All the attempts were made.
    pub open spec fn is_exhausted(self) -> bool {
        self.repaired == self.limit
    }

    /// The loop before its first step.
    pub open spec fn initial(
        kind: LoopKind,
        run_id: Seq<char>,
        limit: nat,
        apdl: Seq<char>,
    ) -> Self {
        LoopState { kind, run_id, limit, repaired: 0, apdl, notes: Seq::empty() }
    }

    /// The loop after a repair for an issue that came from `source`.
    pub open spec fn absorbed(self, repair: Seq<char>, source: Seq<char>) -> Self {
        LoopState {
            repaired: self.repaired + 1,
            apdl: repair,
            notes: self.notes.push(self.kind.note(self.repaired + 1, source)),
            ..self
        }
    }

    /// The loop after several repairs, each a command stream and the source of its issue.
    pub open spec fn after(self, repairs: Seq<(Seq<char>, Seq<char>)>) -> Self
        decreases repairs.len(),
    {
        if repairs.len() == 0 {
            self
        } else {
            self.after(repairs.drop_last()).absorbed(repairs.last().0, repairs.last().1)
        }
    }
}

impl View for RepairLoop {
    type V = LoopState;

    open spec fn view(&self) -> LoopState {
        LoopState {
            kind: self.kind,
            run_id: self.run_id@,
            limit: self.limit as nat,
            repaired: self.repaired as nat,
            apdl: self.apdl@,
            notes: views(self.notes@),
        }
    }
}

/// What a loop does next.
#[derive(Debug)]
pub enum LoopStep {
    /// It fails, with the message.
    Fail(String),
    /// It has the command stream repaired before any run, for this issue.
    RepairFirst { issue: String, source: String },
    /// It runs the command stream.
    Run { job_name: String, dir_name: String },
}

/// What is known after a run.
#[derive(Debug)]
pub struct AttemptFacts {
    /// What the `.err` file and the wait for the end of the run gave rise to.
    pub err_text: Option<String>,
    /// The `.err` file, where there is one.
    pub err_file: Option<String>,
    /// The output file.
    pub out_file: String,
    /// The output says that the run is over.
    pub complete: bool,
    /// The deck.
    pub k_file: KFileState,
}

/// What becomes of an attempt.
#[derive(Debug)]
pub enum Verdict {
    /// It is accepted.
    Accept,
    /// It has to be repaired, for this issue, which came from `source`.
    Repair { issue: String, source: String },
}

/// What is wrong with an attempt: what ANSYS reported comes first, then what the checks of the
/// stage find.
pub open spec fn attempt_issue(
    kind: LoopKind,
    apdl: Seq<char>,
    facts: AttemptFacts,
    k_dir: Seq<char>,
) -> Option<Seq<char>> {
    match inner_text(facts.err_text) {
        Some(reported) => Some(reported),
        None => match kind {
            LoopKind::Stage1 => stage1_issue(apdl),
            _ => if writes_deck_by_hand(apdl) {
                Some(STRATEGY_ISSUE@)
            } else {
                export_issue(facts.complete, facts.k_file, facts.out_file@, k_dir)
            },
        },
    }
}

/// Where the issue with an attempt came from.
pub open spec fn issue_source(kind: LoopKind, facts: AttemptFacts) -> Seq<char> {
    if facts.err_text is Some {
        text_or(inner_text(facts.err_file), "ANSYS output"@)
    } else {
        kind.own_source()
    }
}

impl RepairLoop {
    /// A loop before its first step.
    pub fn new(kind: LoopKind, run_id: String, limit: usize, apdl: String) -> (r: RepairLoop)
        ensures
            r@.wf(),
            r@ == LoopState::initial(kind, run_id@, limit as nat, apdl@),
    {
        let r = RepairLoop { kind, run_id, limit, repaired: 0, apdl, notes: Vec::new() };
        proof {
            assert(r@.notes =~= Seq::empty());
        }
        r
    }

    /// What the loop does next. An export command stream that writes the deck by hand is not
    /// run.
    pub fn next_step(&self) -> (r: LoopStep)
        requires
            self@.wf(),
        ensures
            r is Fail <==> self@.is_exhausted(),
            r matches LoopStep::Fail(message) ==> message@ == self.kind.exhausted(
                self.limit as nat,
            ),
            r is RepairFirst <==> !self@.is_exhausted() && !(self.kind is Stage1)
                && writes_deck_by_hand(self.apdl@),
            r matches LoopStep::RepairFirst { issue, source } ==> issue@ == STRATEGY_ISSUE@
                && source@ == STRATEGY_SOURCE@,
            r matches LoopStep::Run { job_name, dir_name } ==> {
                &&& job_name@ == self.kind.job_name(self.run_id@, (self.repaired + 1) as nat)
                &&& dir_name@ == self.kind.dir_name(self.run_id@, (self.repaired + 1) as nat)
            },
    {
        if self.repaired >= self.limit {
            return LoopStep::Fail(self.kind.write_exhausted(self.limit));
        }
        match self.kind {
            LoopKind::Stage1 => {},
            _ => {
                if let Some(issue) = validate_stage2_apdl_strategy(&self.apdl) {
                    return LoopStep::RepairFirst { issue, source: STRATEGY_SOURCE.to_owned() };
                }
            },
        }
        let attempt: usize = self.repaired + 1;
        LoopStep::Run {
            job_name: self.kind.write_job_name(&self.run_id, attempt),
            dir_name: self.kind.write_dir_name(&self.run_id, attempt),
        }
    }

    /// Judges a run of the command stream.
    pub fn judge(&self, facts: &AttemptFacts, k_dir: &str) -> (r: Verdict)
        ensures
            match r {
                Verdict::Accept => attempt_issue(self.kind, self.apdl@, *facts, k_dir@) is None,
                Verdict::Repair { issue, source } => {
                    &&& attempt_issue(self.kind, self.apdl@, *facts, k_dir@) == Some(issue@)
                    &&& source@ == issue_source(self.kind, *facts)
                },
            },
    {
        if let Some(reported) = &facts.err_text {
            let source = match &facts.err_file {
                Some(path) => path.clone(),
                None => "ANSYS output".to_owned(),
            };
            return Verdict::Repair { issue: reported.clone(), source };
        }
        match self.kind {
            LoopKind::Stage1 => match validate_stage1_model_requirements(&self.apdl) {
                Some(issue) => Verdict::Repair {
                    issue,
                    source: "stage-1 completeness validation".to_owned(),
                },
                None => Verdict::Accept,
            },
            _ => {
                let issue = match validate_stage2_apdl_strategy(&self.apdl) {
                    Some(issue) => Some(issue),
                    None => validate_stage2_export_requirements(
                        facts.complete,
                        &facts.k_file,
                        &facts.out_file,
                        k_dir,
                    ),
                };
                match issue {
                    Some(issue) => Verdict::Repair {
                        issue,
                        source: "stage-2 K export validation".to_owned(),
                    },
                    None => Verdict::Accept,
                }
            },
        }
    }

    /// Goes on with a repaired command stream, for an issue that came from `source`.
    pub fn absorb_repair(&mut self, repaired: String, source: &str)
        requires
            old(self)@.wf(),
            !old(self)@.is_exhausted(),
        ensures
            final(self)@.wf(),
            final(self)@ == old(self)@.absorbed(repaired@, source@),
    {
        let attempt: usize = self.repaired + 1;
        let note = self.kind.write_note(attempt, source);
        let ghost before = views(self.notes@);
        self.notes.push(note);
        proof {
            assert(views(self.notes@) =~= before.push(note@));
        }
        self.repaired = attempt;
        self.apdl = repaired;
    }
}

/// However often a loop has its command stream repaired, the next attempt runs what the last
/// repair returned, and the notes tell of all the repairs in their order. After as many repairs
/// as there may be attempts the loop is over.
pub proof fn law_notes_tell_of_repairs(
    kind: LoopKind,
    run_id: Seq<char>,
    limit: nat,
    apdl: Seq<char>,
    repairs: Seq<(Seq<char>, Seq<char>)>,
)
    requires
        repairs.len() <= limit,
    ensures
        ({
            let start = LoopState::initial(kind, run_id, limit, apdl);
            let end = start.after(repairs);
            &&& end.wf()
            &&& end.kind == kind && end.run_id == run_id && end.limit == limit
            &&& end.is_exhausted() <==> repairs.len() == limit
            &&& end.apdl == if repairs.len() == 0 {
                apdl
            } else {
                repairs.last().0
            }
            &&& end.notes.len() == repairs.len()
            &&& forall|i: int|
                0 <= i < repairs.len() ==> #[trigger] end.notes[i] == kind.note(
                    (i + 1) as nat,
                    repairs[i].1,
                )
        }),
    decreases repairs.len(),
{
    if repairs.len() > 0 {
        law_notes_tell_of_repairs(kind, run_id, limit, apdl, repairs.drop_last());
    }
}

/// A command stream of the export stage that is accepted does not write the deck by hand, its
/// run is over, and it left a sound deck; ANSYS reported nothing.
pub proof fn law_accepted_export(
    kind: LoopKind,
    apdl: Seq<char>,
    facts: AttemptFacts,
    k_dir: Seq<char>,
)
    requires
        !(kind is Stage1),
    ensures
        attempt_issue(kind, apdl, facts, k_dir) is None <==> {
            &&& facts.err_text is None
            &&& !writes_deck_by_hand(apdl)
            &&& facts.complete
            &&& facts.k_file is Sound
        },
{
}

/// An export that is accepted leaves a complete deck: the deck that was checked is neither empty
/// nor too large, and holds every keyword of a complete one.
pub proof fn law_accepted_export_leaves_complete_deck(
    kind: LoopKind,
    apdl: Seq<char>,
    facts: AttemptFacts,
    k_dir: Seq<char>,
    path: Seq<char>,
    size: Result<u64, Seq<char>>,
    text: KFileText,
)
    requires
        !(kind is Stage1),
        is_deck_state(facts.k_file, path, size, text),
        attempt_issue(kind, apdl, facts, k_dir) is None,
    ensures
        k_issue(path, size, text) is None,
        size is Ok,
        0 < size->Ok_0 <= MAX_REASONABLE_K_FILE_BYTES,
        forall|i: int|
            0 <= i < K_FILE_MARKS@.len() ==> has_text(
                k_checked_text(text),
                #[trigger] texts(K_FILE_MARKS@)[i],
            ),
{
    law_accepted_deck_is_complete(path, size, text);
}

/// A command stream of the first stage is accepted if and only if ANSYS reported nothing and it
/// defines and assigns an element type, sets a mesh size and makes a mesh.
pub proof fn law_accepted_model(apdl: Seq<char>, facts: AttemptFacts, k_dir: Seq<char>)
    ensures
        attempt_issue(LoopKind::Stage1, apdl, facts, k_dir) is None <==> facts.err_text is None
            && stage1_missing(apdl).len() == 0,
{
}

/// An argument of the ANSYS command line.
#[derive(Debug)]
pub enum AnsysArgument {
    /// This text.
    Text(String),
    /// The path of the directory of the run.
    RunDir,
    /// The path of the command stream.
    Draft,
    /// The path of the output.
    Output,
}

/// What an argument says.
pub ghost enum ArgumentText {
    Text(Seq<char>),
    RunDir,
    Draft,
    Output,
}

impl View for AnsysArgument {
    type V = ArgumentText;

    open spec fn view(&self) -> ArgumentText {
        match self {
            AnsysArgument::Text(text) => ArgumentText::Text(text@),
            AnsysArgument::RunDir => ArgumentText::RunDir,
            AnsysArgument::Draft => ArgumentText::Draft,
            AnsysArgument::Output => ArgumentText::Output,
        }
    }
}

/// The arguments of a run in batch mode; the product is named unless it is blank.
pub open spec fn batch_command(job_name: Seq<char>, product: Option<Seq<char>>) -> Seq<
    ArgumentText,
> {
    seq![
        ArgumentText::Text("-b"@),
        ArgumentText::Text("-dir"@),
        ArgumentText::RunDir,
        ArgumentText::Text("-j"@),
        ArgumentText::Text(job_name),
        ArgumentText::Text("-i"@),
        ArgumentText::Draft,
        ArgumentText::Text("-o"@),
        ArgumentText::Output,
    ] + match product {
        Some(product) if trimmed(product).len() > 0 => seq![
            ArgumentText::Text("-p"@),
            ArgumentText::Text(product),
        ],
        _ => Seq::empty(),
    }
}

/// The arguments of a run in batch mode.
pub fn batch_arguments(job_name: &str, product: Option<&str>) -> (r: Vec<AnsysArgument>)
    ensures
        r@.map_values(|a: AnsysArgument| a@) == batch_command(job_name@, text_in(product)),
{
    let mut r: Vec<AnsysArgument> = Vec::new();
    r.push(AnsysArgument::Text("-b".to_owned()));
    r.push(AnsysArgument::Text("-dir".to_owned()));
    r.push(AnsysArgument::RunDir);
    r.push(AnsysArgument::Text("-j".to_owned()));
    r.push(AnsysArgument::Text(job_name.to_owned()));
    r.push(AnsysArgument::Text("-i".to_owned()));
    r.push(AnsysArgument::Draft);
    r.push(AnsysArgument::Text("-o".to_owned()));
    r.push(AnsysArgument::Output);
    if let Some(product) = product {
        if !is_blank(product) {
            r.push(AnsysArgument::Text("-p".to_owned()));
            r.push(AnsysArgument::Text(product.to_owned()));
        }
    }
    proof {
        assert(r@.map_values(|a: AnsysArgument| a@) =~= batch_command(
            job_name@,
            text_in(product),
        ));
    }
    r
}

/// The export stage always names a product: whatever the environment says of it, the command
/// line ends with the product of the configuration.
pub proof fn law_export_names_product(job_name: Seq<char>, value: Option<Seq<char>>)
    ensures
        ({
            let command = batch_command(job_name, Some(product_of(value)));
            &&& command.len() == 11
            &&& command[9] == ArgumentText::Text("-p"@)
            &&& command[10] == ArgumentText::Text(product_of(value))
        }),
        value is None ==> product_of(value) == "dyna"@,
{
    reveal_strlit("dyna");
    lemma_trimmed_word("dyna"@);
}

proof fn lemma_trimmed_word(t: Seq<char>)
    requires
        t.len() > 0,
        !is_space(t[0]),
        !is_space(t.last()),
    ensures
        trimmed(t) == t,
{
}

/// Two issues as one: the second follows the first.
pub open spec fn merged(first: Option<Seq<char>>, second: Option<Seq<char>>) -> Option<Seq<char>> {
    match (first, second) {
        (Some(a), Some(b)) => Some(a + "\n\n"@ + b),
        (Some(a), None) => Some(a),
        (None, b) => b,
    }
}

/// Puts what the `.err` file and the wait for the end of the run gave rise to together.
pub fn merge_issues(err_issue: Option<String>, wait_issue: Option<String>) -> (r: Option<String>)
    ensures
        inner_text(r) == merged(inner_text(err_issue), inner_text(wait_issue)),
{
    match (err_issue, wait_issue) {
        (Some(a), Some(b)) => {
            let mut text = a;
            text.append("\n\n");
            text.append(&b);
            Some(text)
        },
        (Some(a), None) => Some(a),
        (None, b) => b,
    }
}

/// The message on a missing executable.
pub fn missing_executable(executable: &str) -> (r: String)
    ensures
        r@ == "ANSYS executable not found: "@ + executable@,
{
    let mut r = "ANSYS executable not found: ".to_owned();
    r.append(executable);
    r
}

/// The name of the `.err` file of a job.
pub fn err_file_name(job_name: &str) -> (r: String)
    ensures
        r@ == job_name@ + ".err"@,
{
    let mut r = job_name.to_owned();
    r.append(".err");
    r
}

/// The name of a run that begins at a time, in seconds.
pub fn run_name(seconds: u64) -> (r: String)
    ensures
        r@ == "run-"@ + decimal_text(seconds as nat),
{
    let mut r = "run-".to_owned();
    r.append(decimal(seconds as u128).as_str());
    r
}

/// The name of the export workspace of a run.
pub fn stage2_dir_name(run_id: &str) -> (r: String)
    ensures
        r@ == run_id@ + "-stage2"@,
{
    let mut r = run_id.to_owned();
    r.append("-stage2");
    r
}

/// What is said at the end of both stages.
pub fn success_message(has_deck: bool) -> (r: &'static str)
    ensures
        r@ == if has_deck {
            SUCCESS_WITH_DECK@
        } else {
            SUCCESS_WITHOUT_DECK@
        },
{
    if has_deck {
        SUCCESS_WITH_DECK
    } else {
        SUCCESS_WITHOUT_DECK
    }
}

/// A file in the directory of the decks.
#[derive(Debug)]
pub struct DeckEntry {
    pub extension: Option<String>,
    /// When it was last written, in nanoseconds since the beginning of 1970; zero where that is
    /// not known.
    pub modified: i128,
}

/// A file is a deck, by its extension.
pub open spec fn is_deck(extension: Option<Seq<char>>) -> bool {
    extension matches Some(extension) && lower(extension) == "k"@
}

/// Which of the files are decks.
pub open spec fn deck_flags(entries: Seq<DeckEntry>) -> Seq<bool> {
    entries.map_values(|e: DeckEntry| is_deck(inner_text(e.extension)))
}

/// When the files were written.
pub open spec fn deck_times(entries: Seq<DeckEntry>) -> Seq<i128> {
    entries.map_values(|e: DeckEntry| e.modified)
}

/// The newest deck.
pub fn newest_k_file(entries: &Vec<DeckEntry>) -> (r: Option<usize>)
    ensures
        match r {
            Some(i) => newest_of(deck_flags(entries@), deck_times(entries@)) == Some(i as nat) && i
                < entries.len(),
            None => newest_of(deck_flags(entries@), deck_times(entries@)) is None,
        },
{
    let mut flags: Vec<bool> = Vec::new();
    let mut times: Vec<i128> = Vec::new();
    for i in 0..entries.len()
        invariant
            flags@.len() == i,
            times@.len() == i,
            forall|k: int| 0 <= k < i ==> flags@[k] == #[trigger] deck_flags(entries@)[k],
            forall|k: int| 0 <= k < i ==> times@[k] == #[trigger] deck_times(entries@)[k],
    {
        let deck = match &entries[i].extension {
            Some(extension) => same_text(&to_lower(extension), "k"),
            None => false,
        };
        flags.push(deck);
        times.push(entries[i].modified);
    }
    proof {
        assert(flags@ =~= deck_flags(entries@));
        assert(times@ =~= deck_times(entries@));
    }
    newest(&flags, &times)
}

/// Something in the directory of the export workspaces.
#[derive(Debug)]
pub struct WorkspaceEntry {
    pub is_dir: bool,
    /// It holds [`STAGE2_APDL_FILE`].
    pub has_current: bool,
    /// It holds [`DRAFT_FILE`].
    pub has_draft: bool,
    /// When it was last changed, in nanoseconds since the beginning of 1970; zero where that is
    /// not known.
    pub modified: i128,
}

/// Which of the entries are export workspaces.
pub open spec fn workspace_flags(entries: Seq<WorkspaceEntry>) -> Seq<bool> {
    entries.map_values(|e: WorkspaceEntry| e.is_dir && (e.has_current || e.has_draft))
}

/// When the entries were changed.
pub open spec fn workspace_times(entries: Seq<WorkspaceEntry>) -> Seq<i128> {
    entries.map_values(|e: WorkspaceEntry| e.modified)
}

/// The newest export workspace.
pub fn latest_stage2_workspace(entries: &Vec<WorkspaceEntry>) -> (r: Option<usize>)
    ensures
        match r {
            Some(i) => newest_of(workspace_flags(entries@), workspace_times(entries@)) == Some(
                i as nat,
            ) && i < entries.len(),
            None => newest_of(workspace_flags(entries@), workspace_times(entries@)) is None,
        },
{
    let mut flags: Vec<bool> = Vec::new();
    let mut times: Vec<i128> = Vec::new();
    for i in 0..entries.len()
        invariant
            flags@.len() == i,
            times@.len() == i,
            forall|k: int| 0 <= k < i ==> flags@[k] == #[trigger] workspace_flags(entries@)[k],
            forall|k: int| 0 <= k < i ==> times@[k] == #[trigger] workspace_times(entries@)[k],
    {
        let entry = &entries[i];
        flags.push(entry.is_dir && (entry.has_current || entry.has_draft));
        times.push(entry.modified);
    }
    proof {
        assert(flags@ =~= workspace_flags(entries@));
        assert(times@ =~= workspace_times(entries@));
    }
    newest(&flags, &times)
}

/// The workspace that is resumed holds a command stream, and none that does was changed later.
pub proof fn law_resumed_workspace_is_newest(entries: Seq<WorkspaceEntry>)
    ensures
        newest_of(workspace_flags(entries), workspace_times(entries)) matches Some(b) ==> {
            &&& b < entries.len()
            &&& entries[b as int].is_dir
            &&& entries[b as int].has_current || entries[b as int].has_draft
            &&& forall|k: int|
                0 <= k < entries.len() && (#[trigger] entries[k]).is_dir && (entries[k].has_current
                    || entries[k].has_draft) ==> entries[k].modified
                    <= entries[b as int].modified
        },
{
    let flags = workspace_flags(entries);
    let times = workspace_times(entries);
    law_newest_is_first_latest(flags, times);
    if let Some(b) = newest_of(flags, times) {
        assert forall|k: int|
            0 <= k < entries.len() && (#[trigger] entries[k]).is_dir && (entries[k].has_current
                || entries[k].has_draft) implies entries[k].modified
            <= entries[b as int].modified by {
            assert(flags[k] && times[k] == entries[k].modified);
        }
    }
}

/// The message where there is no export workspace.
pub fn no_stage2_workspace(apdl_k_runs_dir: &str) -> (r: String)
    ensures
        r@ == "no stage2 workspace found under "@ + apdl_k_runs_dir@,
{
    let mut r = "no stage2 workspace found under ".to_owned();
    r.append(apdl_k_runs_dir);
    r
}

/// The name of a resumed run: that of its workspace, where it is text.
pub fn resumed_run_name(dir_name: Option<&str>) -> (r: String)
    ensures
        r@ == text_or(text_in(dir_name), "stage2"@),
{
    match dir_name {
        Some(name) => name.to_owned(),
        None => "stage2".to_owned(),
    }
}

/// The message on a resumed workspace that still holds no command stream, if so.
pub fn refuse_placeholder(current_apdl: &str, path: &str) -> (r: Option<String>)
    ensures
        r is Some <==> needs_generation(current_apdl@),
        r is Some ==> r->0@ == "stage2 current apdl is still a placeholder: "@ + path@
            + ". Replace it with the APDL you want to run, or use /run first."@,
{
    if !stage2_apdl_needs_generation(current_apdl) {
        return None;
    }
    let mut r = "stage2 current apdl is still a placeholder: ".to_owned();
    r.append(path);
    r.append(". Replace it with the APDL you want to run, or use /run first.");
    Some(r)
}

/// The command stream that an export workspace holds, unless one has to be generated.
pub fn ensure_stage2_current_apdl(existing: String) -> (r: Option<String>)
    ensures
        r == if needs_generation(existing@) {
            None
        } else {
            Some(existing)
        },
{
    if stage2_apdl_needs_generation(&existing) {
        None
    } else {
        Some(existing)
    }
}

/// Which files an export workspace has.
#[derive(Debug, Clone, Copy, PartialEq, Eq, Structural)]
pub struct WorkspaceFiles {
    /// [`STAGE2_APDL_FILE`].
    pub current: bool,
    /// [`DRAFT_FILE`].
    pub draft: bool,
    /// [`STAGE2_BRIEF_FILE`].
    pub brief: bool,
    /// [`STAGE2_REQUEST_FILE`].
    pub request: bool,
}

/// What has to be added to an export workspace before it is resumed.
#[derive(Debug, Clone, Copy, PartialEq, Eq, Structural)]
pub struct BootstrapPlan {
    /// The draft is copied to the place of the command stream.
    pub copy_draft: bool,
    pub write_brief: bool,
    pub write_request: bool,
}

/// Decides what has to be added to an export workspace. What is there is never overwritten.
pub fn bootstrap_existing_stage2_workspace(files: WorkspaceFiles) -> (r: BootstrapPlan)
    ensures
        r.copy_draft == (!files.current && files.draft),
        r.write_brief == !files.brief,
        r.write_request == !files.request,
{
    BootstrapPlan {
        copy_draft: !files.current && files.draft,
        write_brief: !files.brief,
        write_request: !files.request,
    }
}

/// What ANSYS reported is what has to be repaired, word for word and whatever else is wrong with
/// the attempt; the issue is said to come from the `.err` file where there is one.
pub proof fn law_reported_issue_is_repaired(
    kind: LoopKind,
    apdl: Seq<char>,
    facts: AttemptFacts,
    k_dir: Seq<char>,
)
    ensures
        facts.err_text is Some ==> {
            &&& attempt_issue(kind, apdl, facts, k_dir) == Some(facts.err_text->0@)
            &&& facts.err_file is Some ==> issue_source(kind, facts) == facts.err_file->0@
            &&& facts.err_file is None ==> issue_source(kind, facts) == "ANSYS output"@
        },
        facts.err_text is None ==> issue_source(kind, facts) == if kind is Stage1 {
            "stage-1 completeness validation"@
        } else {
            "stage-2 K export validation"@
        },
{
}

/// The jobs of a run begin with its name and end with the number of the attempt, so that no two
/// attempts have the same job or the same directory.
pub proof fn law_attempts_are_told_apart(kind: LoopKind, run_id: Seq<char>, m: nat, n: nat)
    ensures
        begins_with(kind.job_name(run_id, m), run_id),
        ends_in(kind.job_name(run_id, m), "attempt-"@ + two_digit_text(m)),
        ends_in(kind.dir_name(run_id, m), "attempt-"@ + two_digit_text(m)),
        kind.job_name(run_id, m) == kind.job_name(run_id, n) ==> m == n,
        kind.dir_name(run_id, m) == kind.dir_name(run_id, n) ==> m == n,
{
    reveal_strlit("attempt-");
    reveal_strlit("-attempt-");
    reveal_strlit("-stage2-attempt-");
    reveal_strlit("-manual-stage2-attempt-");
    reveal_strlit("manual-attempt-");
    law_two_digits_read_back(m);
    law_two_digits_read_back(n);
    let a = two_digit_text(m);
    let tail = "attempt-"@ + a;
    let job = kind.job_name(run_id, m);
    let dir = kind.dir_name(run_id, m);
    assert(job.subrange(0, run_id.len() as int) =~= run_id);
    assert(job.subrange(job.len() - tail.len(), job.len() as int) =~= tail);
    assert(dir.subrange(dir.len() - tail.len(), dir.len() as int) =~= tail);
    let head = run_id + kind.job_infix();
    if job == kind.job_name(run_id, n) {
        lemma_tails_agree(head, two_digit_text(m), two_digit_text(n));
    }
    if dir == kind.dir_name(run_id, n) {
        match kind {
            LoopKind::Stage1 => lemma_tails_agree(head, two_digit_text(m), two_digit_text(n)),
            LoopKind::Stage2 => lemma_tails_agree(
                "attempt-"@,
                two_digit_text(m),
                two_digit_text(n),
            ),
            LoopKind::ManualStage2 => lemma_tails_agree(
                "manual-attempt-"@,
                two_digit_text(m),
                two_digit_text(n),
            ),
        }
    }
}

proof fn lemma_tails_agree(head: Seq<char>, a: Seq<char>, b: Seq<char>)
    requires
        head + a == head + b,
    ensures
        a == b,
{
    let n = head.len() as int;
    assert((head + a).subrange(n, (head + a).len() as int) =~= a);
    assert((head + b).subrange(n, (head + b).len() as int) =~= b);
}

/// A note names its attempt and says at its end where the issue came from, whole.
pub proof fn law_notes_name_attempt_and_source(kind: LoopKind, attempt: nat, source: Seq<char>)
    ensures
        ends_in(kind.note(attempt, source), ": repaired APDL based on "@ + source),
        has_text(kind.note(attempt, source), "ttempt "@ + decimal_text(attempt) + ": "@),
        kind is Stage1 ==> begins_with(kind.note(attempt, source), "Attempt "@),
        kind is Stage2 ==> begins_with(kind.note(attempt, source), "Stage 2 attempt "@),
        kind is ManualStage2 ==> begins_with(
            kind.note(attempt, source),
            "Manual Stage 2 attempt "@,
        ),
{
    reveal_strlit("ttempt ");
    reveal_strlit(": ");
    reveal_strlit("Attempt ");
    reveal_strlit("Stage 2 attempt ");
    reveal_strlit("Manual Stage 2 attempt ");
    reveal_strlit(": repaired APDL based on ");
    let note = kind.note(attempt, source);
    let label = kind.note_label();
    let close = ": repaired APDL based on "@;
    let tail = close + source;
    assert(note.subrange(note.len() - tail.len(), note.len() as int) =~= tail);
    assert(note.subrange(0, label.len() as int) =~= label);
    let part = "ttempt "@ + decimal_text(attempt) + ": "@;
    let before = label.take(label.len() - 7);
    let after = close.skip(2) + source;
    assert(note =~= before + part + after);
    lemma_middle_occurs(before, part, after);
}

/// A loop that gave up says after how many attempts.
pub proof fn law_exhausted_tells_limit(kind: LoopKind, limit: nat)
    ensures
        begins_with(kind.exhausted(limit), "exhausted "@ + decimal_text(limit) + " "@),
        kind is Stage1 <==> ends_in(
            kind.exhausted(limit),
            " repair attempts without reaching an error-free ANSYS run"@,
        ),
        !(kind is Stage1) <==> ends_in(
            kind.exhausted(limit),
            " Stage 2 repair attempts without producing a K file"@,
        ),
{
    let model = " repair attempts without reaching an error-free ANSYS run"@;
    let export = " Stage 2 repair attempts without producing a K file"@;
    reveal_strlit(" ");
    reveal_strlit(" repair attempts without reaching an error-free ANSYS run");
    reveal_strlit(" Stage 2 repair attempts without producing a K file");
    let t = kind.exhausted(limit);
    let close = if kind is Stage1 {
        model
    } else {
        export
    };
    let head = "exhausted "@ + decimal_text(limit) + " "@;
    assert(t.subrange(0, head.len() as int) =~= head);
    assert(t.subrange(t.len() - close.len(), t.len() as int) =~= close);
    assert(t.last() == close.last());
    assert(model.last() == 'n' && export.last() == 'e');
    if ends_in(t, model) {
        assert(t.subrange(t.len() - model.len(), t.len() as int).last() == t.last());
    }
    if ends_in(t, export) {
        assert(t.subrange(t.len() - export.len(), t.len() as int).last() == t.last());
    }
}

/// The command line says after each option what belongs to it: the job, the directory of the
/// run, the command stream and the output; and it names the product if and only if it is not
/// blank.
pub proof fn law_command_line_names_all(job_name: Seq<char>, product: Option<Seq<char>>)
    ensures
        ({
            let c = batch_command(job_name, product);
            &&& c[0] == ArgumentText::Text("-b"@)
            &&& follows(c, "-j"@, ArgumentText::Text(job_name))
            &&& follows(c, "-dir"@, ArgumentText::RunDir)
            &&& follows(c, "-i"@, ArgumentText::Draft)
            &&& follows(c, "-o"@, ArgumentText::Output)
            &&& product is Some && trimmed(product->0).len() > 0 ==> c.len() == 11 && follows(
                c,
                "-p"@,
                ArgumentText::Text(product->0),
            )
            &&& product is None || trimmed(product->0).len() == 0 ==> c.len() == 9
        }),
{
    let c = batch_command(job_name, product);
    assert(c[1] == ArgumentText::Text("-dir"@) && c[2] == ArgumentText::RunDir);
    assert(c[3] == ArgumentText::Text("-j"@) && c[4] == ArgumentText::Text(job_name));
    assert(c[5] == ArgumentText::Text("-i"@) && c[6] == ArgumentText::Draft);
    assert(c[7] == ArgumentText::Text("-o"@) && c[8] == ArgumentText::Output);
    if product is Some && trimmed(product->0).len() > 0 {
        assert(c[9] == ArgumentText::Text("-p"@) && c[10] == ArgumentText::Text(product->0));
    }
}

/// An option stands on a command line with this value after it.
pub open spec fn follows(c: Seq<ArgumentText>, option: Seq<char>, value: ArgumentText) -> bool {
    exists|i: int|
        0 <= i < c.len() - 1 && #[trigger] c[i] == ArgumentText::Text(option) && c[i + 1] == value
}

/// Of two issues none is lost: what they give rise to holds both, one alone is left as it is, and
/// there is nothing only where there was nothing.
pub proof fn law_merged_issues_tell_all(first: Option<Seq<char>>, second: Option<Seq<char>>)
    ensures
        merged(first, second) is None <==> first is None && second is None,
        first is Some ==> begins_with(merged(first, second)->0, first->0),
        second is Some ==> ends_in(merged(first, second)->0, second->0),
        first is Some && second is None ==> merged(first, second) == first,
        first is None ==> merged(first, second) == second,
        first is Some && second is Some ==> merged(first, second)->0.len() == first->0.len()
            + second->0.len() + 2,
{
    reveal_strlit("\n\n");
    if merged(first, second) is Some {
        let t = merged(first, second)->0;
        if first is Some {
            assert(t.subrange(0, first->0.len() as int) =~= first->0);
        }
        if second is Some {
            assert(t.subrange(t.len() - second->0.len(), t.len() as int) =~= second->0);
        }
    }
}

/// The deck that is taken has the extension `k`, in whatever case, and was written last of those
/// that have; there is one wherever a file has that extension.
pub proof fn law_newest_deck_is_taken(entries: Seq<DeckEntry>)
    ensures
        ({
            let r = newest_of(deck_flags(entries), deck_times(entries));
            &&& r is Some <==> exists|k: int|
                0 <= k < entries.len() && (#[trigger] entries[k]).extension is Some && lower(
                    entries[k].extension->0@,
                ) == "k"@
            &&& r is Some ==> {
                let b = r->0 as int;
                &&& b < entries.len()
                &&& entries[b].extension is Some && lower(entries[b].extension->0@) == "k"@
                &&& forall|k: int|
                    0 <= k < entries.len() && (#[trigger] entries[k]).extension is Some && lower(
                        entries[k].extension->0@,
                    ) == "k"@ ==> entries[k].modified <= entries[b].modified
            }
        }),
{
    let flags = deck_flags(entries);
    let times = deck_times(entries);
    law_newest_is_first_latest(flags, times);
    assert forall|k: int| 0 <= k < entries.len() implies flags[k] == ((
    #[trigger] entries[k]).extension is Some && lower(entries[k].extension->0@) == "k"@)
        && times[k] == entries[k].modified by {}
    if exists|k: int|
        0 <= k < entries.len() && (#[trigger] entries[k]).extension is Some && lower(
            entries[k].extension->0@,
        ) == "k"@ {
        let k = choose|k: int|
            0 <= k < entries.len() && (#[trigger] entries[k]).extension is Some && lower(
                entries[k].extension->0@,
            ) == "k"@;
        assert(flags[k]);
    }
}

/// A workspace is resumed wherever one holds a command stream.
pub proof fn law_some_workspace_is_resumed(entries: Seq<WorkspaceEntry>)
    ensures
        newest_of(workspace_flags(entries), workspace_times(entries)) is Some <==> exists|k: int|
            0 <= k < entries.len() && (#[trigger] entries[k]).is_dir && (entries[k].has_current
                || entries[k].has_draft),
{
    let flags = workspace_flags(entries);
    let times = workspace_times(entries);
    law_newest_is_first_latest(flags, times);
    assert forall|k: int| 0 <= k < entries.len() implies flags[k] == ((
    #[trigger] entries[k]).is_dir && (entries[k].has_current || entries[k].has_draft)) by {}
    if exists|k: int|
        0 <= k < entries.len() && (#[trigger] entries[k]).is_dir && (entries[k].has_current
            || entries[k].has_draft) {
        let k = choose|k: int|
            0 <= k < entries.len() && (#[trigger] entries[k]).is_dir && (entries[k].has_current
                || entries[k].has_draft);
        assert(flags[k]);
    }
}

/// The conversations on repairs of the three kinds of loop are kept apart: under the name of the
/// run, in three different files.
pub proof fn law_repair_histories_are_apart(run_id: Seq<char>)
    ensures
        forall|kind: LoopKind| begins_with(#[trigger] kind.repair_history(run_id), run_id),
        forall|kind: LoopKind|
            ends_in(#[trigger] kind.repair_history(run_id), "-repair-history.json"@),
        forall|a: LoopKind, b: LoopKind|
            #[trigger] a.repair_history(run_id) == #[trigger] b.repair_history(run_id) ==> a == b,
{
    reveal_strlit("-repair-history.json");
    reveal_strlit("-stage2-repair-history.json");
    reveal_strlit("-manual-stage2-repair-history.json");
    let tail = "-repair-history.json"@;
    assert forall|kind: LoopKind| true implies begins_with(
        #[trigger] kind.repair_history(run_id),
        run_id,
    ) && ends_in(kind.repair_history(run_id), tail) by {
        let t = kind.repair_history(run_id);
        assert(t.subrange(0, run_id.len() as int) =~= run_id);
        assert(t.subrange(t.len() - tail.len(), t.len() as int) =~= tail);
    }
    assert forall|a: LoopKind, b: LoopKind|
        #[trigger] a.repair_history(run_id) == #[trigger] b.repair_history(run_id) implies a
        == b by {
        assert(a.repair_history(run_id).len() == b.repair_history(run_id).len());
    }
}

} // verus!
