//! A stage of the workflow, step by step: runs of ANSYS and requests for repairs in turn.

use vstd::prelude::*;

use crate::ansys::config::AnsysConfig;
use crate::ansys::pipeline::{
    attempt_issue, issue_source, law_attempts_are_told_apart, AttemptFacts, LoopKind, LoopState,
    LoopStep, RepairLoop, STRATEGY_SOURCE, Verdict,
};
use crate::ansys::prompts::{
    law_repair_request_tells, law_stage2_repair_request_tells, repair_request,
    stage2_repair_request, try_build_repair_prompt, try_build_stage2_repair_prompt,
    REPAIR_CUT_NOTE, REPAIR_PROMPT_BYTES, STAGE2_REPAIR_CUT_NOTE, STAGE2_REPAIR_PROMPT_BYTES,
};
use crate::ansys::validate::{writes_deck_by_hand, STRATEGY_ISSUE};
use crate::clip::{byte_len, clipped, cuts_cleanly};
use crate::number::{decimal_text, two_digit_text};
use crate::text::{
    begins_with, ends_in, has_text, inner_text, lemma_middle_occurs, lemma_part_of_part, text_in,
    trimmed, views,
};

verus! {

/// What an export has from the stage before it, with paths as they are shown.
#[derive(Debug)]
pub struct Handoff {
    pub run_dir: String,
    pub draft_path: String,
    pub out_file: String,
    pub err_file: Option<String>,
    /// The file that keeps the command stream of the export.
    pub current_path: String,
}

/// Where a stage stands.
#[derive(Debug)]
pub enum StagePhase {
    /// A run is awaited.
    Running,
    /// A repaired command stream is awaited, for an issue that came from `source`.
    Repairing { source: String },
    /// The stage is over.
    Over,
}

/// A stage between two steps.
#[derive(Debug)]
pub struct Stage {
    /// The attempts so far and the command stream of the next one.
    pub attempts: RepairLoop,
    /// Missing in the first stage.
    pub handoff: Option<Handoff>,
    pub phase: StagePhase,
}

/// What has to be done outside before the next step.
#[derive(Debug)]
pub enum StageAction {
    /// Run the command stream, then [`Stage::ran`].
    Run { job_name: String, dir_name: String },
    /// Have the command stream repaired with this request, then [`Stage::repaired`]. The request
    /// and the repair are kept beside the run, where there was one.
    Repair { request: String, after_run: bool },
    /// The last run is accepted; it was the attempt with this number.
    Accept { attempt: usize },
    /// The stage failed, with this error.
    Fail(String),
    /// The request for a repair is too long, and cannot be cut between two characters.
    RequestSplits,
}

/// What is known of a run.
#[derive(Debug)]
pub struct RunReport {
    pub facts: AttemptFacts,
    pub draft_path: String,
    /// What ANSYS wrote to its error stream.
    pub stderr_text: Option<String>,
}

/// A request for a repair, before it is cut.
pub open spec fn whole_request(
    attempts: LoopState,
    handoff: Option<Handoff>,
    config: AnsysConfig,
    workspace_root: Seq<char>,
    draft_path: Seq<char>,
    issue: Seq<char>,
    stderr_text: Option<Seq<char>>,
) -> Seq<char> {
    match handoff {
        None => repair_request(
            workspace_root,
            config,
            draft_path,
            attempts.apdl,
            issue,
            attempts.notes,
            stderr_text,
        ),
        Some(h) => stage2_repair_request(
            workspace_root,
            config,
            h.run_dir@,
            h.draft_path@,
            h.out_file@,
            inner_text(h.err_file),
            draft_path,
            attempts.apdl,
            issue,
            attempts.notes,
            stderr_text,
        ),
    }
}

/// The size to which a request is cut.
pub open spec fn request_bytes(handoff: Option<Handoff>) -> nat {
    if handoff is None {
        REPAIR_PROMPT_BYTES as nat
    } else {
        STAGE2_REPAIR_PROMPT_BYTES as nat
    }
}

/// What follows a request that was cut.
pub open spec fn request_note(handoff: Option<Handoff>) -> Seq<char> {
    if handoff is None {
        REPAIR_CUT_NOTE@
    } else {
        STAGE2_REPAIR_CUT_NOTE@
    }
}

/// Asks for a repair with a request, where it can be cut.
pub open spec fn asks_with(
    action: StageAction,
    phase: StagePhase,
    handoff: Option<Handoff>,
    request: Seq<char>,
    after_run: bool,
    source: Seq<char>,
) -> bool {
    if cuts_cleanly(request, request_bytes(handoff)) {
        &&& action matches StageAction::Repair { request: sent, after_run: after } && sent@
            == clipped(request, request_bytes(handoff), request_note(handoff)) && after == after_run
        &&& phase matches StagePhase::Repairing { source: s } && s@ == source
    } else {
        action is RequestSplits && phase is Over
    }
}

/// The path in an optional string, as a slice.
fn as_slice(path: &Option<String>) -> (r: Option<&str>)
    ensures
        text_in(r) == inner_text(*path),
{
    match path {
        Some(text) => Some(text.as_str()),
        None => None,
    }
}

/// Writes a request for a repair.
fn write_request(
    attempts: &RepairLoop,
    handoff: &Option<Handoff>,
    config: &AnsysConfig,
    workspace_root: &str,
    draft_path: &str,
    issue: &str,
    stderr_text: Option<&str>,
) -> (r: Option<String>)
    ensures
        ({
            let whole = whole_request(
                attempts@,
                *handoff,
                *config,
                workspace_root@,
                draft_path@,
                issue@,
                text_in(stderr_text),
            );
            &&& r is Some <==> cuts_cleanly(whole, request_bytes(*handoff))
            &&& r is Some ==> r->0@ == clipped(
                whole,
                request_bytes(*handoff),
                request_note(*handoff),
            )
        }),
{
    match handoff {
        None => try_build_repair_prompt(
            workspace_root,
            config,
            draft_path,
            &attempts.apdl,
            issue,
            &attempts.notes,
            stderr_text,
        ),
        Some(h) => try_build_stage2_repair_prompt(
            workspace_root,
            config,
            &h.run_dir,
            &h.draft_path,
            &h.out_file,
            as_slice(&h.err_file),
            draft_path,
            &attempts.apdl,
            issue,
            &attempts.notes,
            stderr_text,
        ),
    }
}

impl Stage {
    /// The attempts are in order, and an export has something from the stage before it.
    pub open spec fn wf(self) -> bool {
        &&& self.attempts@.wf()
        &&& self.handoff is None <==> self.attempts.kind is Stage1
        &&& !(self.phase is Over) ==> !self.attempts@.is_exhausted()
    }

    /// How far the stage is at most from its end, in steps.
    pub open spec fn distance(self) -> nat {
        let left = 2 * (self.attempts.limit - self.attempts.repaired);
        match self.phase {
            StagePhase::Running => left as nat,
            StagePhase::Repairing { .. } => (left - 1) as nat,
            StagePhase::Over => 0,
        }
    }

    /// The stage after it was entered with these attempts: it fails where all were made, has a
    /// command stream that writes the deck by hand repaired, and else runs it.
    pub open spec fn is_entered(
        self,
        action: StageAction,
        attempts: LoopState,
        handoff: Option<Handoff>,
        config: AnsysConfig,
        workspace_root: Seq<char>,
    ) -> bool {
        &&& self.attempts@ == attempts
        &&& self.handoff == handoff
        &&& if attempts.is_exhausted() {
            &&& action matches StageAction::Fail(message) && message@ == attempts.kind.exhausted(
                attempts.limit,
            )
            &&& self.phase is Over
        } else if handoff is Some && writes_deck_by_hand(attempts.apdl) {
            asks_with(
                action,
                self.phase,
                handoff,
                whole_request(
                    attempts,
                    handoff,
                    config,
                    workspace_root,
                    handoff->0.current_path@,
                    STRATEGY_ISSUE@,
                    None,
                ),
                false,
                STRATEGY_SOURCE@,
            )
        } else {
            &&& action matches StageAction::Run { job_name, dir_name } && {
                &&& job_name@ == attempts.kind.job_name(attempts.run_id, attempts.repaired + 1)
                &&& dir_name@ == attempts.kind.dir_name(attempts.run_id, attempts.repaired + 1)
            }
            &&& self.phase is Running
        }
    }

    /// Enters a stage with some attempts made.
    fn enter(
        attempts: RepairLoop,
        handoff: Option<Handoff>,
        config: &AnsysConfig,
        workspace_root: &str,
    ) -> (r: (Stage, StageAction))
        requires
            attempts@.wf(),
            handoff is None <==> attempts.kind is Stage1,
        ensures
            r.0.wf(),
            r.0.is_entered(r.1, attempts@, handoff, *config, workspace_root@),
    {
        match attempts.next_step() {
            LoopStep::Fail(message) => (
                Stage { attempts, handoff, phase: StagePhase::Over },
                StageAction::Fail(message),
            ),
            LoopStep::RepairFirst { issue, source } => {
                let request = match &handoff {
                    Some(h) => write_request(
                        &attempts,
                        &handoff,
                        config,
                        workspace_root,
                        &h.current_path,
                        &issue,
                        None,
                    ),
                    None => None,
                };
                match request {
                    Some(request) => (
                        Stage { attempts, handoff, phase: StagePhase::Repairing { source } },
                        StageAction::Repair { request, after_run: false },
                    ),
                    None => (
                        Stage { attempts, handoff, phase: StagePhase::Over },
                        StageAction::RequestSplits,
                    ),
                }
            },
            LoopStep::Run { job_name, dir_name } => (
                Stage { attempts, handoff, phase: StagePhase::Running },
                StageAction::Run { job_name, dir_name },
            ),
        }
    }

    /// Begins the first stage.
    pub fn begin_model(
        run_id: String,
        apdl: String,
        config: &AnsysConfig,
        workspace_root: &str,
    ) -> (r: (Stage, StageAction))
        ensures
            r.0.wf(),
            r.0.is_entered(
                r.1,
                LoopState::initial(
                    LoopKind::Stage1,
                    run_id@,
                    config.max_repair_attempts as nat,
                    apdl@,
                ),
                None,
                *config,
                workspace_root@,
            ),
    {
        let attempts = RepairLoop::new(LoopKind::Stage1, run_id, config.max_repair_attempts, apdl);
        Stage::enter(attempts, None, config, workspace_root)
    }

    /// Begins an export, which the user may have asked for.
    pub fn begin_export(
        manual: bool,
        run_id: String,
        apdl: String,
        handoff: Handoff,
        config: &AnsysConfig,
        workspace_root: &str,
    ) -> (r: (Stage, StageAction))
        ensures
            r.0.wf(),
            r.0.is_entered(
                r.1,
                LoopState::initial(
                    if manual {
                        LoopKind::ManualStage2
                    } else {
                        LoopKind::Stage2
                    },
                    run_id@,
                    config.max_repair_attempts as nat,
                    apdl@,
                ),
                Some(handoff),
                *config,
                workspace_root@,
            ),
    {
        let kind = if manual {
            LoopKind::ManualStage2
        } else {
            LoopKind::Stage2
        };
        let attempts = RepairLoop::new(kind, run_id, config.max_repair_attempts, apdl);
        Stage::enter(attempts, Some(handoff), config, workspace_root)
    }

    /// The stage after a run: the run is accepted where nothing is wrong with it, and else the
    /// command stream is to be repaired.
    pub open spec fn is_ran(
        self,
        next: Stage,
        action: StageAction,
        report: RunReport,
        config: AnsysConfig,
        workspace_root: Seq<char>,
    ) -> bool {
        &&& next.attempts == self.attempts
        &&& next.handoff == self.handoff
        &&& match attempt_issue(
            self.attempts.kind,
            self.attempts.apdl@,
            report.facts,
            config.k_dir@,
        ) {
            None => {
                &&& action matches StageAction::Accept { attempt } && attempt
                    == self.attempts.repaired + 1
                &&& next.phase is Over
            },
            Some(issue) => asks_with(
                action,
                next.phase,
                self.handoff,
                whole_request(
                    self.attempts@,
                    self.handoff,
                    config,
                    workspace_root,
                    report.draft_path@,
                    issue,
                    inner_text(report.stderr_text),
                ),
                true,
                issue_source(self.attempts.kind, report.facts),
            ),
        }
    }

    /// The stage after a repair, with which it is entered again.
    pub open spec fn is_repaired(
        self,
        next: Stage,
        action: StageAction,
        apdl: Seq<char>,
        config: AnsysConfig,
        workspace_root: Seq<char>,
    ) -> bool {
        self.phase matches StagePhase::Repairing { source } && next.is_entered(
            action,
            self.attempts@.absorbed(apdl, source@),
            self.handoff,
            config,
            workspace_root,
        )
    }

    /// Takes the report of a run.
    pub fn ran(self, report: &RunReport, config: &AnsysConfig, workspace_root: &str) -> (r: (
        Stage,
        StageAction,
    ))
        requires
            self.wf(),
            self.phase is Running,
        ensures
            r.0.wf(),
            self.is_ran(r.0, r.1, *report, *config, workspace_root@),
    {
        let attempts = self.attempts;
        let handoff = self.handoff;
        match attempts.judge(&report.facts, &config.k_dir) {
            Verdict::Accept => {
                let attempt: usize = attempts.repaired + 1;
                (
                    Stage { attempts, handoff, phase: StagePhase::Over },
                    StageAction::Accept { attempt },
                )
            },
            Verdict::Repair { issue, source } => {
                let request = write_request(
                    &attempts,
                    &handoff,
                    config,
                    workspace_root,
                    &report.draft_path,
                    &issue,
                    as_slice(&report.stderr_text),
                );
                match request {
                    Some(request) => (
                        Stage { attempts, handoff, phase: StagePhase::Repairing { source } },
                        StageAction::Repair { request, after_run: true },
                    ),
                    None => (
                        Stage { attempts, handoff, phase: StagePhase::Over },
                        StageAction::RequestSplits,
                    ),
                }
            },
        }
    }

    /// Takes a repaired command stream.
    pub fn repaired(self, apdl: String, config: &AnsysConfig, workspace_root: &str) -> (r: (
        Stage,
        StageAction,
    ))
        requires
            self.wf(),
            self.phase is Repairing,
        ensures
            r.0.wf(),
            self.is_repaired(r.0, r.1, apdl@, *config, workspace_root@),
    {
        let mut attempts = self.attempts;
        let source = match self.phase {
            StagePhase::Repairing { source } => source,
            _ => String::new(),
        };
        attempts.absorb_repair(apdl, &source);
        Stage::enter(attempts, self.handoff, config, workspace_root)
    }

    /// The stage goes on as `next`: a run that was awaited has ended, or a repair that was
    /// awaited has come.
    pub open spec fn goes_on_as(
        self,
        next: Stage,
        config: AnsysConfig,
        workspace_root: Seq<char>,
    ) -> bool {
        ||| self.phase is Running && exists|action: StageAction, report: RunReport|
            self.is_ran(next, action, report, config, workspace_root)
        ||| self.phase is Repairing && exists|action: StageAction, apdl: Seq<char>|
            self.is_repaired(next, action, apdl, config, workspace_root)
    }
}

/// A stage ends: from any point on it takes no more steps than two for each attempt that may
/// still be made.
pub proof fn law_stages_end(stages: Seq<Stage>, config: AnsysConfig, workspace_root: Seq<char>)
    requires
        stages.len() > 0,
        stages[0].wf(),
        forall|i: int|
            0 <= i < stages.len() - 1 ==> (#[trigger] stages[i]).goes_on_as(
                stages[i + 1],
                config,
                workspace_root,
            ),
    ensures
        stages.len() - 1 <= 2 * (stages[0].attempts.limit - stages[0].attempts.repaired),
{
    lemma_distance_falls(stages, config, workspace_root, stages.len() - 1);
}

proof fn lemma_distance_falls(
    stages: Seq<Stage>,
    config: AnsysConfig,
    workspace_root: Seq<char>,
    i: int,
)
    requires
        0 <= i < stages.len(),
        stages[0].wf(),
        forall|k: int|
            0 <= k < stages.len() - 1 ==> (#[trigger] stages[k]).goes_on_as(
                stages[k + 1],
                config,
                workspace_root,
            ),
    ensures
        stages[i].wf(),
        stages[i].distance() + i <= stages[0].distance(),
    decreases i,
{
    if i > 0 {
        lemma_distance_falls(stages, config, workspace_root, i - 1);
        assert(stages[i - 1].goes_on_as(stages[i - 1 + 1], config, workspace_root));
    }
}

/// A request for a repair holds, each under its label, the whole command stream, the whole issue
/// report and every note, and what ANSYS wrote to its error stream; or it ends in the note that it
/// was cut.
pub open spec fn tells_or_is_cut(
    request: Seq<char>,
    apdl: Seq<char>,
    issue: Seq<char>,
    notes: Seq<Seq<char>>,
    stderr_text: Option<Seq<char>>,
) -> bool {
    ||| ends_in(request, "repair prompt truncated]"@)
    ||| {
        &&& has_text(request, " APDL:\n"@ + apdl)
        &&& has_text(request, ":\n"@ + issue)
        &&& forall|i: int| 0 <= i < notes.len() ==> has_text(request, #[trigger] notes[i])
        &&& stderr_text is Some && trimmed(stderr_text->0).len() > 0 ==> has_text(
            request,
            stderr_text->0,
        )
    }
}

/// A run is accepted only where ANSYS reported nothing. After any other the model is asked for a
/// repair of the very command stream that ran, and is told what was reported.
pub proof fn law_failed_runs_are_repaired(
    stage: Stage,
    next: Stage,
    action: StageAction,
    report: RunReport,
    config: AnsysConfig,
    workspace_root: Seq<char>,
)
    requires
        stage.wf(),
        stage.is_ran(next, action, report, config, workspace_root),
    ensures
        action is Accept || action is Repair || action is RequestSplits,
        action is Accept ==> report.facts.err_text is None && action->attempt
            == stage.attempts.repaired + 1,
        action is Repair ==> action->after_run,
        action is Repair && report.facts.err_text is Some ==> tells_or_is_cut(
            action->request@,
            stage.attempts.apdl@,
            report.facts.err_text->0@,
            views(stage.attempts.notes@),
            inner_text(report.stderr_text),
        ),
        !(action is Accept) ==> next.attempts.apdl@ == stage.attempts.apdl@,
        !(next.phase is Running),
        next.phase is Repairing <==> action is Repair,
{
    if action is Repair {
        if let Some(reported) = report.facts.err_text {
            lemma_request_tells(
                stage.attempts@,
                stage.handoff,
                config,
                workspace_root,
                report.draft_path@,
                reported@,
                inner_text(report.stderr_text),
            );
        }
    }
}

proof fn lemma_request_tells(
    attempts: LoopState,
    handoff: Option<Handoff>,
    config: AnsysConfig,
    workspace_root: Seq<char>,
    draft_path: Seq<char>,
    issue: Seq<char>,
    stderr_text: Option<Seq<char>>,
)
    ensures
        tells_or_is_cut(
            clipped(
                whole_request(
                    attempts,
                    handoff,
                    config,
                    workspace_root,
                    draft_path,
                    issue,
                    stderr_text,
                ),
                request_bytes(handoff),
                request_note(handoff),
            ),
            attempts.apdl,
            issue,
            attempts.notes,
            stderr_text,
        ),
{
    let whole = whole_request(
        attempts,
        handoff,
        config,
        workspace_root,
        draft_path,
        issue,
        stderr_text,
    );
    let sent = clipped(whole, request_bytes(handoff), request_note(handoff));
    reveal_strlit(" APDL:\n");
    reveal_strlit(":\n");
    reveal_strlit("\n\nCurrent APDL:\n");
    reveal_strlit("\n\nCurrent Stage 2 APDL:\n");
    reveal_strlit("\n\nIssue report derived from the full .err content:\n");
    reveal_strlit("\n\nStage 2 issue report:\n");
    if byte_len(whole) <= request_bytes(handoff) {
        assert(sent == whole);
        assert forall|i: int| 0 <= i < attempts.notes.len() implies has_text(
            whole,
            #[trigger] attempts.notes[i],
        ) by {
            lemma_whole_tells(
                attempts,
                handoff,
                config,
                workspace_root,
                draft_path,
                issue,
                stderr_text,
                i,
            );
        }
        lemma_whole_tells(
            attempts,
            handoff,
            config,
            workspace_root,
            draft_path,
            issue,
            stderr_text,
            0,
        );
        if handoff is None {
            lemma_shorter_label(
                whole,
                "\n\nCurrent APDL:\n"@,
                " APDL:\n"@,
                attempts.apdl,
            );
            lemma_shorter_label(
                whole,
                "\n\nIssue report derived from the full .err content:\n"@,
                ":\n"@,
                issue,
            );
        } else {
            lemma_shorter_label(
                whole,
                "\n\nCurrent Stage 2 APDL:\n"@,
                " APDL:\n"@,
                attempts.apdl,
            );
            lemma_shorter_label(whole, "\n\nStage 2 issue report:\n"@, ":\n"@, issue);
        }
    } else {
        reveal_strlit("\n\n[repair prompt truncated]");
        reveal_strlit("\n\n[stage2 repair prompt truncated]");
        reveal_strlit("repair prompt truncated]");
        let tail = "repair prompt truncated]"@;
        let note = request_note(handoff);
        assert(note.subrange(note.len() - tail.len(), note.len() as int) =~= tail);
        assert(sent.subrange(sent.len() - tail.len(), sent.len() as int) =~= tail);
    }
}

proof fn lemma_whole_tells(
    attempts: LoopState,
    handoff: Option<Handoff>,
    config: AnsysConfig,
    workspace_root: Seq<char>,
    draft_path: Seq<char>,
    issue: Seq<char>,
    stderr_text: Option<Seq<char>>,
    i: int,
)
    ensures
        ({
            let whole = whole_request(
                attempts,
                handoff,
                config,
                workspace_root,
                draft_path,
                issue,
                stderr_text,
            );
            &&& handoff is None ==> has_text(whole, "\n\nCurrent APDL:\n"@ + attempts.apdl)
                && has_text(
                whole,
                "\n\nIssue report derived from the full .err content:\n"@ + issue,
            )
            &&& handoff is Some ==> has_text(
                whole,
                "\n\nCurrent Stage 2 APDL:\n"@ + attempts.apdl,
            ) && has_text(whole, "\n\nStage 2 issue report:\n"@ + issue)
            &&& 0 <= i < attempts.notes.len() ==> has_text(whole, attempts.notes[i])
            &&& stderr_text is Some && trimmed(stderr_text->0).len() > 0 ==> has_text(
                whole,
                stderr_text->0,
            )
        }),
{
    match handoff {
        None => law_repair_request_tells(
            workspace_root,
            config,
            draft_path,
            attempts.apdl,
            issue,
            attempts.notes,
            stderr_text,
            i,
        ),
        Some(h) => law_stage2_repair_request_tells(
            workspace_root,
            config,
            h.run_dir@,
            h.draft_path@,
            h.out_file@,
            inner_text(h.err_file),
            draft_path,
            attempts.apdl,
            issue,
            attempts.notes,
            stderr_text,
            i,
        ),
    }
}

proof fn lemma_shorter_label(t: Seq<char>, label: Seq<char>, end: Seq<char>, value: Seq<char>)
    requires
        has_text(t, label + value),
        end.len() <= label.len(),
        label.subrange(label.len() - end.len(), label.len() as int) =~= end,
    ensures
        has_text(t, end + value),
{
    let head = label.take(label.len() - end.len());
    assert(label + value =~= head + (end + value) + Seq::empty());
    lemma_middle_occurs(head, end + value, Seq::empty());
    lemma_part_of_part(t, label + value, end + value);
}

/// A repaired command stream is what the stage goes on with: it runs next, as the next attempt,
/// unless all attempts were made or an export writes the deck by hand; and a note tells of the
/// repair, after those that were there.
pub proof fn law_repairs_are_run(
    stage: Stage,
    next: Stage,
    action: StageAction,
    apdl: Seq<char>,
    config: AnsysConfig,
    workspace_root: Seq<char>,
)
    requires
        stage.wf(),
        stage.is_repaired(next, action, apdl, config, workspace_root),
    ensures
        next.attempts.apdl@ == apdl,
        next.attempts.repaired == stage.attempts.repaired + 1,
        next.attempts.limit == stage.attempts.limit,
        next.attempts.notes@.len() == stage.attempts.notes@.len() + 1,
        forall|i: int|
            0 <= i < stage.attempts.notes@.len() ==> (#[trigger] next.attempts.notes@[i])@
                == stage.attempts.notes@[i]@,
        ends_in(next.attempts.notes@.last()@, stage.phase->source@),
        action is Fail <==> stage.attempts.repaired + 1 == stage.attempts.limit,
        action is Run <==> stage.attempts.repaired + 1 < stage.attempts.limit && (
        stage.handoff is None || !writes_deck_by_hand(apdl)),
        action is Run ==> begins_with(action->job_name@, stage.attempts.run_id@) && ends_in(
            action->job_name@,
            two_digit_text((stage.attempts.repaired + 2) as nat),
        ),
        !(action is Accept),
{
    let source = stage.phase->source@;
    let kind = stage.attempts.kind;
    let attempt = (stage.attempts.repaired + 1) as nat;
    let note = kind.note(attempt, source);
    let before = views(stage.attempts.notes@);
    let after = views(next.attempts.notes@);
    assert(next.attempts@.notes == after && stage.attempts@.notes == before);
    assert(after == before.push(note));
    assert(after.len() == next.attempts.notes@.len());
    assert(after.last() == note);
    assert(after.last() == next.attempts.notes@.last()@);
    assert forall|i: int| 0 <= i < before.len() implies (#[trigger] next.attempts.notes@[i])@
        == stage.attempts.notes@[i]@ by {
        assert(after[i] == before[i]);
    }
    assert(note.subrange(note.len() - source.len(), note.len() as int) =~= source);
    if action is Run {
        let run_id = stage.attempts.run_id@;
        let number = two_digit_text(attempt + 1);
        law_attempts_are_told_apart(kind, run_id, attempt + 1, attempt + 1);
        let job = action->job_name@;
        assert(job.subrange(job.len() - number.len(), job.len() as int) =~= number);
    }
}

/// A stage begins with the command stream that it was given and nothing made of it yet: it runs
/// it as the first attempt, unless none may be made or an export writes the deck by hand.
pub proof fn law_stage_begins_with_given_stream(
    next: Stage,
    action: StageAction,
    kind: LoopKind,
    run_id: Seq<char>,
    limit: nat,
    apdl: Seq<char>,
    handoff: Option<Handoff>,
    config: AnsysConfig,
    workspace_root: Seq<char>,
)
    requires
        next.is_entered(
            action,
            LoopState::initial(kind, run_id, limit, apdl),
            handoff,
            config,
            workspace_root,
        ),
    ensures
        next.attempts.apdl@ == apdl,
        next.attempts.repaired == 0,
        next.attempts.notes@.len() == 0,
        next.attempts.limit == limit,
        action is Fail <==> limit == 0,
        action is Run <==> limit > 0 && (handoff is None || !writes_deck_by_hand(apdl)),
        action is Run ==> begins_with(action->job_name@, run_id) && ends_in(
            action->job_name@,
            "01"@,
        ),
{
    assert(next.attempts@.notes.len() == 0);
    assert(views(next.attempts.notes@).len() == next.attempts.notes@.len());
    if action is Run {
        law_attempts_are_told_apart(kind, run_id, 1, 1);
        reveal_strlit("0");
        reveal_strlit("01");
        reveal_with_fuel(decimal_text, 2);
        let job = action->job_name@;
        assert(two_digit_text(1) =~= "01"@);
        assert(job.subrange(job.len() - 2, job.len() as int) =~= "01"@);
    }
}

} // verus!
