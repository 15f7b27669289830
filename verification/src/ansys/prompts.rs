//! What the model is asked to write and to repair.

use vstd::prelude::*;

use crate::ansys::apdl::{needs_generation, PLACEHOLDER_MARK};
use crate::ansys::assets::{InputAsset, IMAGE_KIND};
use crate::ansys::config::AnsysConfig;
use crate::clip::{
    byte_len, clip_bytes, clipped, cuts_cleanly, law_clip_keeps_what_fits, truncate_chars,
    truncated,
};
use crate::messages::{message_texts, ChatMessage, MessageText};
use crate::text::{
    begins_with, concat, ends_in, has_text, is_blank, join, joined, law_joined_holds_parts,
    lemma_appended_occurs, lemma_concat_holds, lemma_middle_occurs, lemma_part_of_part,
    lemma_trim_keeps, occurs_at, same_text, text_in, text_or, trim, trimmed, views,
};

verus! {

/// The size to which the request to repair the first stage's command stream is cut.
pub const REPAIR_PROMPT_BYTES: usize = 200_000;

/// The size to which the request to repair the export stage's command stream is cut.
pub const STAGE2_REPAIR_PROMPT_BYTES: usize = 220_000;

/// What follows a request that was cut.
pub const REPAIR_CUT_NOTE: &'static str = "\n\n[repair prompt truncated]";

/// What follows a request of the export stage that was cut.
pub const STAGE2_REPAIR_CUT_NOTE: &'static str = "\n\n[stage2 repair prompt truncated]";

/// How much of the first stage's output the model is shown.
pub const STAGE1_OUT_CHARS: usize = 12_000;

/// What the seed of the export stage says before the first stage's command stream.
pub const SEED_INTRO: &'static str =
    "! OpenAnsys Stage 2 seed APDL\n\
     ! This file is the editable/resumable APDL entrypoint for K export work.\n\
     ! You may replace or edit this file manually; Stage 2 should continue from the file kept here.\n\
     !\n\
     ! Stage 1 reference APDL: ";

/// What the seed of the export stage says after the workspace.
pub const SEED_STEPS: &'static str =
    "\n\
     !\n\
     ! Recommended next steps:\n\
     ! 1. Resume or reuse the successful Stage 1 model/database.\n\
     ! 2. Add ANSYS 19.0 commands required for LS-DYNA / .K export or generation.\n\
     ! 3. Let ANSYS produce the .K file; do not hand-write the final keyword deck text.\n\
     ! 4. Keep export-oriented changes isolated to this Stage 2 file.\n\
     !\n\
     ! ";

/// The beginning of the request to repair the first stage's command stream.
pub const REPAIR_INTRO: &'static str =
    "Repair this ANSYS 19.0 APDL command stream.\n\
     You are only responsible for fixing the ANSYS run issues.\n\
     Current goal: Stage 1 model build without ANSYS .err errors, without geometry-breaking warnings, and with completed element/mesh setup.\n\
     Workspace root: ";

/// The end of the request to repair the first stage's command stream.
pub const REPAIR_RULES: &'static str =
    "\n\n\
     Return the full corrected APDL text only.\n\
     Preserve the modeling intent.\n\
     No tools are available to you in this repair step. Do not ask to inspect files, do not emit tool calls, and do not describe what you plan to do.\n\
     If warnings show ignored or invalid geometry commands, treat them as blocking and repair the APDL so all required structural parts are created and connected.\n\
     If the issue report says Stage 1 is incomplete, add the missing element definition, material assignment, mesh sizing, and mesh generation steps.\n\
     Preserve or restore the explicit-dynamics-oriented modeling intent: include a rigid ground/bottom support geometry, keep the four bridge legs seated to that base geometry, prefer hexahedral mesh where feasible, allow tetrahedral fallback only where necessary, and refine the mesh at key connection regions when appropriate.\n";

/// The beginning of the request to repair the export stage's command stream.
pub const STAGE2_REPAIR_INTRO: &'static str =
    "Repair this ANSYS 19.0 Stage 2 APDL command stream.\n\
     You are only responsible for getting the LS-DYNA / .K export step to succeed.\n\
     Current goal: starting from a successful Stage 1 model, make ANSYS itself generate the .K file without ANSYS .err errors or blocking warnings.\n\
     Workspace root: ";

/// The end of the request to repair the export stage's command stream.
pub const STAGE2_REPAIR_RULES: &'static str =
    "\n\n\
     Return the full corrected Stage 2 APDL text only.\n\
     Preserve the successful Stage 1 model handoff and focus on export commands, resume/database usage, product switches, PR_DYNA-style product selection, and ANSYS-side .K generation.\n\
     No tools are available to you in this repair step. Do not ask to inspect files, do not emit tool calls, and do not describe what you plan to do.\n\
     Do not manually author the final .K deck text with *CFOPEN/*CFWRITE/*VWRITE loops over all nodes and elements.\n\
     The corrected APDL must drive an ANSYS-side export/generation workflow, not a handwritten keyword dump.\n\
     Preserve the explicit-dynamics intent: include gravity, preserve or define the rigid bottom support/ground behavior, keep the four bridge legs seated to that base initially, and prepare the exported model for later support-loss / collapse behavior in LS-PrePost or LS-DYNA workflows.\n";

/// The end of the brief on the export.
pub const BRIEF_CLOSE: &'static str =
    "\n\n\
     Stage 1 status:\n\
     - Geometry and mesh checks passed.\n\
     - This run is the handoff point for the next-stage LS-DYNA / .K export work.\n\n\
     Recommended next-step focus:\n\
     1. Reuse the meshed Stage 1 model rather than restarting geometry creation.\n\
     2. Determine which ANSYS 19.0 commands or product path on this installation can export or generate an LS-DYNA-compatible .K file.\n\
     3. Prefer the LS-DYNA session/entry path and PR_DYNA-style product selection when capability depends on startup mode.\n\
     4. Add explicit-dynamics-oriented setup including gravity, rigid ground/support behavior, and any needed contact / boundary setup for later support-loss collapse studies.\n\
     5. The final .K should come from ANSYS-side export/generation, not from manually writing keyword text line by line.\n\
     6. Preserve the current Stage 1 APDL and create Stage 2 export attempts as separate artifacts under apdl-k.\n\n\
     Files to inspect first:\n\
     - draft.apdl\n\
     - ansys.out\n\
     - .err (if present)\n\
     - Bridge_Stage1.db or the latest .db created in the run directory\n";

/// What the brief on the export adds where there is no deck yet.
pub const BRIEF_BLOCKER: &'static str =
    "\n\
     Current blocker:\n\
     - No .K file was produced during Stage 1. The next iteration should focus specifically on export commands or workflow.\n";

/// The beginning of the request for the export.
pub const REQUEST_INTRO: &'static str =
    "OpenAnsys Stage 2 export request\n\n\
     Goal:\n\
     - Starting from the successful Stage 1 meshed model, determine how to produce the target LS-DYNA .K file on this ANSYS 19.0 installation.\n\n\
     Current run context:\n\
     - Run id: ";

/// The end of the request for the export.
pub const REQUEST_CLOSE: &'static str =
    "\n\n\
     Stage 2 constraints:\n\
     - Reuse the Stage 1 model and artifacts rather than regenerating geometry from scratch.\n\
     - Keep Stage 2 attempts separate from Stage 1 artifacts and write them under apdl-k.\n\
     - Focus on ANSYS-side export commands, product switches, resume/database usage, PR_DYNA-style product selection, or other workflow needed to produce a .K file.\n\
     - This is an explicit dynamics setup, not a static-only export.\n\
     - Add gravity loading and the support/contact setup needed for later collapse analysis after support loss.\n\
     - Treat the bottom support/ground surface as rigid where appropriate for this workflow and preserve the four bridge legs in initial seated contact with it.\n\
     - Do not manually write the final LS-DYNA keyword deck text with APDL file-writing loops.\n\
     - The output should end at successful .K generation; downstream d3plot work is out of scope for now.\n\n\
     Expected Stage 2 artifacts:\n\
     - a dedicated export-oriented APDL or macro attempt\n\
     - ANSYS output for that export attempt\n\
     - final .K file in the k directory if successful\n";

/// The beginning of the brief in a workspace that was found without one.
pub const FOUND_BRIEF_INTRO: &'static str =
    "OpenAnsys Stage 2 export brief\n\n\
     This workspace was detected from an existing apdl-k directory.\n\
     Stage 2 workspace: ";

/// The beginning of the request in a workspace that was found without one.
pub const FOUND_REQUEST_INTRO: &'static str =
    "OpenAnsys Stage 2 export request\n\n\
     Goal:\n\
     - Run the APDL kept in current_stage2.apdl and drive it toward successful .K export.\n\n\
     Current stage2 workspace: ";

/// Who the model is told to be when it writes the first command stream.
pub const INITIAL_SYSTEM: &'static str =
    "You are OpenAnsys Agent. Generate complete ANSYS 19.0 APDL command streams for Windows. The current goal is Stage 1 only: build the model, complete the mesh, and avoid ANSYS .err errors or geometry-breaking warnings. Prefer an APDL structure that is suitable for explicit dynamics and later LS-DYNA export. Stage 1 should prepare geometry, support conditions, and mesh foundations for a later collapse workflow, but does not need to export the K file yet. Return only raw APDL text. Do not use markdown fences. Do not explain.";

/// What the first command stream has to do.
pub const INITIAL_RULES: &'static str =
    "\n\n\
     Requirements:\n\
     - Generate APDL for ANSYS 19.0 on Windows.\n\
     - Build the model from the provided materials.\n\
     - Prioritize a stable Stage 1 model build with no blocking warnings.\n\
     - This Stage 1 output must produce a connected, meshed model that can later be adapted for explicit dynamics / LS-DYNA export.\n\
     - Treat this as an explicit-dynamics-oriented bridge model that will later be used for collapse behavior after support loss.\n\
     - Do not rely on placeholder entity ids such as _RETURN for area/volume creation.\n\
     - If you extrude areas into volumes, capture or select the created entities explicitly so geometry commands are not ignored.\n\
     - The final geometry must remain connected: deck, inclined legs, piers, and foundations must all be present and attached.\n\
     - Every structural connection must be modeled with shared, coplanar interfaces; do not leave gaps, hanging offsets, visually separated seams, or disconnected touching-only geometry between adjacent solids.\n\
     - Adjacent parts that are intended to be rigidly connected must share topology after modeling, using coincident interface geometry and glue/merge operations so the final mesh can share nodes across those interfaces.\n\
     - Add a rigid bottom support surface or rigid ground foundation under the bridge so the four legs are initially seated against that ground geometry.\n\
     - Define element type(s), material assignment, mesh sizing, and actual mesh generation commands in the APDL.\n\
     - Prefer an explicit-friendly solid element strategy when it is supported by this ANSYS installation.\n\
     - The final mesh must use hexahedral elements only.\n\
     - If any region is not directly meshable with hexahedra, modify or partition the geometry until the full model can be meshed with mapped or sweep hexahedral elements only.\n\
     - Refine the mesh at connections when appropriate, especially at leg-deck, leg-base, pier-deck, and other structural transition or load-transfer zones.\n\
     - Keep the global mesh reasonably fine and make the connection regions finer when the geometry suggests higher stress concentration or contact sensitivity.\n\
     - Do not stop after saving geometry only; the script must reach a meshed model state.\n\
     - Use conservative, explicit APDL.\n\
     - Return only the full APDL text.\n";

/// Who the model is told to be when it writes the command stream of the export.
pub const STAGE2_SYSTEM: &'static str =
    "You are OpenAnsys Agent. Generate Stage 2 ANSYS 19.0 APDL focused on producing an LS-DYNA-compatible .K file from a successful Stage 1 model. Reuse Stage 1 artifacts when possible. This is an explicit dynamics setup intended for later collapse behavior after support loss in LS-PrePost / LS-DYNA style workflows. The .K file must be generated by ANSYS-side commands/workflow, not handwritten as a giant keyword text dump. Do not emit APDL that loops over every node and element with *CFOPEN/*CFWRITE/*VWRITE to author the final deck text. Return only raw APDL text. Do not use markdown fences. Do not explain.";

/// What the command stream of the export has to do.
pub const STAGE2_RULES: &'static str =
    "\n\n\
     Requirements:\n\
     - Prefer resuming or reusing the successful Stage 1 model/database.\n\
     - Focus only on APDL or ANSYS 19.0 commands needed to produce a .K file.\n\
     - Prefer the LS-DYNA product/session path and PR_DYNA-style product selection over generic MAPDL defaults when export capability depends on session entry.\n\
     - Treat this as an explicit-dynamics model that must later support support-loss / collapse behavior in LS-PrePost or LS-DYNA post workflows.\n\
     - Add gravity loading in the Stage 2 setup.\n\
     - Treat the bottom ground/support surface as a rigid body or rigid support side of the model where appropriate for the ANSYS-to-LS-DYNA workflow.\n\
     - Preserve the initial seated contact between the four bridge legs and the bottom support/ground.\n\
     - Add the contact / boundary / explicit-analysis setup needed so later removal of support can produce physically meaningful collapse of unsupported portions.\n\
     - The .K file should be generated by ANSYS itself during the APDL-driven workflow.\n\
     - Write the .K output into the configured k directory.\n\
     - Do not manually author the final keyword deck with *CFOPEN/*CFWRITE/*VWRITE loops over all nodes and elements.\n\
     - Keep this script dedicated to Stage 2 export work.\n\
     - Return only the complete APDL text.\n";

/// The notes on earlier repairs, one on each line.
pub open spec fn notes_text(notes: Seq<Seq<char>>) -> Seq<char> {
    if notes.len() == 0 {
        "(none yet)"@
    } else {
        joined(notes, "\n"@)
    }
}

/// Appends the notes on earlier repairs.
fn append_notes(r: &mut String, notes: &Vec<String>)
    ensures
        final(r)@ == old(r)@ + notes_text(views(notes@)),
{
    if notes.len() == 0 {
        r.append("(none yet)");
    } else {
        r.append(join(notes, "\n").as_str());
    }
}

/// Appends the value there is, or another.
fn append_or(r: &mut String, value: Option<&str>, other: &str)
    ensures
        final(r)@ == old(r)@ + text_or(text_in(value), other@),
{
    match value {
        Some(text) => r.append(text),
        None => r.append(other),
    }
}

/// A request with what ANSYS wrote to its error stream, where that is not blank.
pub open spec fn with_stderr(request: Seq<char>, stderr_text: Option<Seq<char>>) -> Seq<char> {
    match stderr_text {
        Some(text) if trimmed(text).len() > 0 => request + "\nSupplemental stderr content:\n"@
            + text + "\n"@,
        _ => request,
    }
}

/// Appends what ANSYS wrote to its error stream.
fn append_stderr(r: &mut String, stderr_text: Option<&str>)
    ensures
        final(r)@ == with_stderr(old(r)@, text_in(stderr_text)),
{
    if let Some(text) = stderr_text {
        if !is_blank(text) {
            r.append("\nSupplemental stderr content:\n");
            r.append(text);
            r.append("\n");
        }
    }
}

/// A question to a model that was told who it is.
fn ask(system: &str, question: String) -> (r: Vec<ChatMessage>)
    ensures
        message_texts(r@) == seq![MessageText::System(system@), MessageText::User(question@)],
{
    let mut r: Vec<ChatMessage> = Vec::new();
    r.push(ChatMessage::System { content: system.to_owned() });
    r.push(ChatMessage::User { content: question });
    proof {
        assert(message_texts(r@) =~= seq![
            MessageText::System(system@),
            MessageText::User(question@),
        ]);
    }
    r
}

/// The file that an export workspace begins with: comments only.
pub open spec fn seed_text(stage1_draft_path: Seq<char>, stage2_dir: Seq<char>) -> Seq<char> {
    SEED_INTRO@ + stage1_draft_path + "\n! Stage 2 workspace: "@ + stage2_dir + SEED_STEPS@
        + PLACEHOLDER_MARK@ + "; no automatic export logic has been generated yet.\n"@
}

/// Writes the file that an export workspace begins with.
pub fn build_stage2_seed_apdl(stage1_draft_path: &str, stage2_dir: &str) -> (r: String)
    ensures
        r@ == seed_text(stage1_draft_path@, stage2_dir@),
{
    let mut r = SEED_INTRO.to_owned();
    r.append(stage1_draft_path);
    r.append("\n! Stage 2 workspace: ");
    r.append(stage2_dir);
    r.append(SEED_STEPS);
    r.append(PLACEHOLDER_MARK);
    r.append("; no automatic export logic has been generated yet.\n");
    r
}

/// The seed is no command stream: it is generated anew, or refused, until someone replaces it.
pub proof fn law_seed_needs_generation(stage1_draft_path: Seq<char>, stage2_dir: Seq<char>)
    ensures
        needs_generation(seed_text(stage1_draft_path, stage2_dir)),
{
    reveal_strlit("Placeholder only for now");
    let close = "; no automatic export logic has been generated yet.\n"@;
    let mark = PLACEHOLDER_MARK@;
    let head = SEED_INTRO@ + stage1_draft_path + "\n! Stage 2 workspace: "@ + stage2_dir
        + SEED_STEPS@;
    let seed = seed_text(stage1_draft_path, stage2_dir);
    assert(seed == head + mark + close);
    lemma_middle_occurs(head, mark, close);
    lemma_trim_keeps(seed, mark);
}

/// The request to repair the first stage's command stream, before it is cut.
pub open spec fn repair_request(
    workspace_root: Seq<char>,
    config: AnsysConfig,
    draft_path: Seq<char>,
    current_apdl: Seq<char>,
    err_text: Seq<char>,
    notes: Seq<Seq<char>>,
    stderr_text: Option<Seq<char>>,
) -> Seq<char> {
    with_stderr(
        REPAIR_INTRO@ + workspace_root + "\nStage 2 ANSYS executable: "@ + config.executable@
            + "\nStage 2 product mode: "@ + config.stage2_product@ + "\nCurrent draft file: "@
            + draft_path + "\n\nRecent repair history:\n"@ + notes_text(notes)
            + "\n\nCurrent APDL:\n"@ + current_apdl
            + "\n\nIssue report derived from the full .err content:\n"@ + err_text + REPAIR_RULES@,
        stderr_text,
    )
}

/// Writes the request to repair the first stage's command stream, or `None` where a cut after
/// [`REPAIR_PROMPT_BYTES`] bytes would split a character.
pub fn try_build_repair_prompt(
    workspace_root: &str,
    config: &AnsysConfig,
    draft_path: &str,
    current_apdl: &str,
    err_text: &str,
    repair_notes: &Vec<String>,
    stderr_text: Option<&str>,
) -> (r: Option<String>)
    ensures
        ({
            let whole = repair_request(
                workspace_root@,
                *config,
                draft_path@,
                current_apdl@,
                err_text@,
                views(repair_notes@),
                text_in(stderr_text),
            );
            &&& r is Some <==> cuts_cleanly(whole, REPAIR_PROMPT_BYTES as nat)
            &&& r is Some ==> r->0@ == clipped(
                whole,
                REPAIR_PROMPT_BYTES as nat,
                REPAIR_CUT_NOTE@,
            )
        }),
{
    let mut r = REPAIR_INTRO.to_owned();
    r.append(workspace_root);
    r.append("\nStage 2 ANSYS executable: ");
    r.append(&config.executable);
    r.append("\nStage 2 product mode: ");
    r.append(&config.stage2_product);
    r.append("\nCurrent draft file: ");
    r.append(draft_path);
    r.append("\n\nRecent repair history:\n");
    append_notes(&mut r, repair_notes);
    r.append("\n\nCurrent APDL:\n");
    r.append(current_apdl);
    r.append("\n\nIssue report derived from the full .err content:\n");
    r.append(err_text);
    r.append(REPAIR_RULES);
    append_stderr(&mut r, stderr_text);
    clip_bytes(&r, REPAIR_PROMPT_BYTES, REPAIR_CUT_NOTE)
}

/// Writes the request to repair the first stage's command stream: at most
/// [`REPAIR_PROMPT_BYTES`] bytes of it, and then a note that it was cut.
pub fn build_repair_prompt(
    workspace_root: &str,
    config: &AnsysConfig,
    draft_path: &str,
    current_apdl: &str,
    err_text: &str,
    repair_notes: &Vec<String>,
    stderr_text: Option<&str>,
) -> (r: String)
    requires
        cuts_cleanly(
            repair_request(
                workspace_root@,
                *config,
                draft_path@,
                current_apdl@,
                err_text@,
                views(repair_notes@),
                text_in(stderr_text),
            ),
            REPAIR_PROMPT_BYTES as nat,
        ),
    ensures
        r@ == clipped(
            repair_request(
                workspace_root@,
                *config,
                draft_path@,
                current_apdl@,
                err_text@,
                views(repair_notes@),
                text_in(stderr_text),
            ),
            REPAIR_PROMPT_BYTES as nat,
            REPAIR_CUT_NOTE@,
        ),
{
    match try_build_repair_prompt(
        workspace_root,
        config,
        draft_path,
        current_apdl,
        err_text,
        repair_notes,
        stderr_text,
    ) {
        Some(prompt) => prompt,
        None => String::new(),
    }
}

/// The request to repair the export stage's command stream, before it is cut.
pub open spec fn stage2_repair_request(
    workspace_root: Seq<char>,
    config: AnsysConfig,
    stage1_run_dir: Seq<char>,
    stage1_draft_path: Seq<char>,
    stage1_out_file: Seq<char>,
    stage1_err_file: Option<Seq<char>>,
    draft_path: Seq<char>,
    current_apdl: Seq<char>,
    issue_text: Seq<char>,
    notes: Seq<Seq<char>>,
    stderr_text: Option<Seq<char>>,
) -> Seq<char> {
    with_stderr(
        STAGE2_REPAIR_INTRO@ + workspace_root + "\nStage 2 ANSYS executable: "@
            + config.executable@ + "\nStage 2 product mode: "@ + config.stage2_product@
            + "\nStage 1 run directory: "@ + stage1_run_dir + "\nStage 1 APDL: "@
            + stage1_draft_path + "\nStage 1 ansys.out: "@ + stage1_out_file
            + "\nStage 1 err file: "@ + text_or(stage1_err_file, "(none)"@)
            + "\nCurrent Stage 2 draft file: "@ + draft_path + "\nTarget k directory: "@
            + config.k_dir@ + "\n\nRecent repair history:\n"@ + notes_text(notes)
            + "\n\nCurrent Stage 2 APDL:\n"@ + current_apdl + "\n\nStage 2 issue report:\n"@
            + issue_text + STAGE2_REPAIR_RULES@,
        stderr_text,
    )
}

/// Writes the request to repair the export stage's command stream, or `None` where a cut after
/// [`STAGE2_REPAIR_PROMPT_BYTES`] bytes would split a character.
pub fn try_build_stage2_repair_prompt(
    workspace_root: &str,
    config: &AnsysConfig,
    stage1_run_dir: &str,
    stage1_draft_path: &str,
    stage1_out_file: &str,
    stage1_err_file: Option<&str>,
    draft_path: &str,
    current_apdl: &str,
    issue_text: &str,
    repair_notes: &Vec<String>,
    stderr_text: Option<&str>,
) -> (r: Option<String>)
    ensures
        ({
            let whole = stage2_repair_request(
                workspace_root@,
                *config,
                stage1_run_dir@,
                stage1_draft_path@,
                stage1_out_file@,
                text_in(stage1_err_file),
                draft_path@,
                current_apdl@,
                issue_text@,
                views(repair_notes@),
                text_in(stderr_text),
            );
            &&& r is Some <==> cuts_cleanly(whole, STAGE2_REPAIR_PROMPT_BYTES as nat)
            &&& r is Some ==> r->0@ == clipped(
                whole,
                STAGE2_REPAIR_PROMPT_BYTES as nat,
                STAGE2_REPAIR_CUT_NOTE@,
            )
        }),
{
    let mut r = STAGE2_REPAIR_INTRO.to_owned();
    r.append(workspace_root);
    r.append("\nStage 2 ANSYS executable: ");
    r.append(&config.executable);
    r.append("\nStage 2 product mode: ");
    r.append(&config.stage2_product);
    r.append("\nStage 1 run directory: ");
    r.append(stage1_run_dir);
    r.append("\nStage 1 APDL: ");
    r.append(stage1_draft_path);
    r.append("\nStage 1 ansys.out: ");
    r.append(stage1_out_file);
    r.append("\nStage 1 err file: ");
    append_or(&mut r, stage1_err_file, "(none)");
    r.append("\nCurrent Stage 2 draft file: ");
    r.append(draft_path);
    r.append("\nTarget k directory: ");
    r.append(&config.k_dir);
    r.append("\n\nRecent repair history:\n");
    append_notes(&mut r, repair_notes);
    r.append("\n\nCurrent Stage 2 APDL:\n");
    r.append(current_apdl);
    r.append("\n\nStage 2 issue report:\n");
    r.append(issue_text);
    r.append(STAGE2_REPAIR_RULES);
    append_stderr(&mut r, stderr_text);
    clip_bytes(&r, STAGE2_REPAIR_PROMPT_BYTES, STAGE2_REPAIR_CUT_NOTE)
}

/// Writes the request to repair the export stage's command stream: at most
/// [`STAGE2_REPAIR_PROMPT_BYTES`] bytes of it, and then a note that it was cut.
pub fn build_stage2_repair_prompt(
    workspace_root: &str,
    config: &AnsysConfig,
    stage1_run_dir: &str,
    stage1_draft_path: &str,
    stage1_out_file: &str,
    stage1_err_file: Option<&str>,
    draft_path: &str,
    current_apdl: &str,
    issue_text: &str,
    repair_notes: &Vec<String>,
    stderr_text: Option<&str>,
) -> (r: String)
    requires
        cuts_cleanly(
            stage2_repair_request(
                workspace_root@,
                *config,
                stage1_run_dir@,
                stage1_draft_path@,
                stage1_out_file@,
                text_in(stage1_err_file),
                draft_path@,
                current_apdl@,
                issue_text@,
                views(repair_notes@),
                text_in(stderr_text),
            ),
            STAGE2_REPAIR_PROMPT_BYTES as nat,
        ),
    ensures
        r@ == clipped(
            stage2_repair_request(
                workspace_root@,
                *config,
                stage1_run_dir@,
                stage1_draft_path@,
                stage1_out_file@,
                text_in(stage1_err_file),
                draft_path@,
                current_apdl@,
                issue_text@,
                views(repair_notes@),
                text_in(stderr_text),
            ),
            STAGE2_REPAIR_PROMPT_BYTES as nat,
            STAGE2_REPAIR_CUT_NOTE@,
        ),
{
    match try_build_stage2_repair_prompt(
        workspace_root,
        config,
        stage1_run_dir,
        stage1_draft_path,
        stage1_out_file,
        stage1_err_file,
        draft_path,
        current_apdl,
        issue_text,
        repair_notes,
        stderr_text,
    ) {
        Some(prompt) => prompt,
        None => String::new(),
    }
}

/// The brief on the export.
pub open spec fn export_brief(
    workspace_root: Seq<char>,
    config: AnsysConfig,
    run_id: Seq<char>,
    run_dir: Seq<char>,
    draft_path: Seq<char>,
    out_file: Seq<char>,
    err_file: Option<Seq<char>>,
    k_file: Option<Seq<char>>,
) -> Seq<char> {
    let brief =
        "OpenAnsys Stage 2 export brief\n\nRun id: "@ + run_id + "\nWorkspace root: "@
            + workspace_root + "\nANSYS executable: "@ + config.executable@
            + "\nStage 2 product mode: "@ + config.stage2_product@ + "\nRun directory: "@
            + run_dir + "\nDraft APDL: "@ + draft_path + "\nANSYS out: "@ + out_file
            + "\nANSYS err: "@ + text_or(err_file, "(none)"@) + "\nAPDL-K directory: "@
            + config.apdl_k_runs_dir@ + "\nK directory: "@ + config.k_dir@
            + "\nExisting K file: "@ + text_or(k_file, "(none yet)"@) + BRIEF_CLOSE@;
    if k_file is None {
        brief + BRIEF_BLOCKER@
    } else {
        brief
    }
}

/// Writes the brief on the export.
pub fn build_stage2_export_brief(
    workspace_root: &str,
    config: &AnsysConfig,
    run_id: &str,
    run_dir: &str,
    draft_path: &str,
    out_file: &str,
    err_file: Option<&str>,
    k_file: Option<&str>,
) -> (r: String)
    ensures
        r@ == export_brief(
            workspace_root@,
            *config,
            run_id@,
            run_dir@,
            draft_path@,
            out_file@,
            text_in(err_file),
            text_in(k_file),
        ),
{
    let mut r = "OpenAnsys Stage 2 export brief\n\nRun id: ".to_owned();
    r.append(run_id);
    r.append("\nWorkspace root: ");
    r.append(workspace_root);
    r.append("\nANSYS executable: ");
    r.append(&config.executable);
    r.append("\nStage 2 product mode: ");
    r.append(&config.stage2_product);
    r.append("\nRun directory: ");
    r.append(run_dir);
    r.append("\nDraft APDL: ");
    r.append(draft_path);
    r.append("\nANSYS out: ");
    r.append(out_file);
    r.append("\nANSYS err: ");
    append_or(&mut r, err_file, "(none)");
    r.append("\nAPDL-K directory: ");
    r.append(&config.apdl_k_runs_dir);
    r.append("\nK directory: ");
    r.append(&config.k_dir);
    r.append("\nExisting K file: ");
    append_or(&mut r, k_file, "(none yet)");
    r.append(BRIEF_CLOSE);
    if k_file.is_none() {
        r.append(BRIEF_BLOCKER);
    }
    r
}

/// The request for the export.
pub open spec fn export_request(
    workspace_root: Seq<char>,
    config: AnsysConfig,
    run_id: Seq<char>,
    run_dir: Seq<char>,
    draft_path: Seq<char>,
    out_file: Seq<char>,
    err_file: Option<Seq<char>>,
    stage2_dir: Seq<char>,
) -> Seq<char> {
    REQUEST_INTRO@ + run_id + "\n- Workspace root: "@ + workspace_root
        + "\n- Stage 2 ANSYS executable: "@ + config.executable@ + "\n- Stage 2 product mode: "@
        + config.stage2_product@ + "\n- Stage 1 run directory: "@ + run_dir
        + "\n- Stage 2 workspace: "@ + stage2_dir + "\n- Stage 1 APDL: "@ + draft_path
        + "\n- Stage 1 ansys.out: "@ + out_file + "\n- Stage 1 err file: "@
        + text_or(err_file, "(none)"@) + "\n- APDL-K directory: "@ + config.apdl_k_runs_dir@
        + "\n- Target k directory: "@ + config.k_dir@ + REQUEST_CLOSE@
}

/// Writes the request for the export.
pub fn build_stage2_export_request(
    workspace_root: &str,
    config: &AnsysConfig,
    run_id: &str,
    run_dir: &str,
    draft_path: &str,
    out_file: &str,
    err_file: Option<&str>,
    stage2_dir: &str,
) -> (r: String)
    ensures
        r@ == export_request(
            workspace_root@,
            *config,
            run_id@,
            run_dir@,
            draft_path@,
            out_file@,
            text_in(err_file),
            stage2_dir@,
        ),
{
    let mut r = REQUEST_INTRO.to_owned();
    r.append(run_id);
    r.append("\n- Workspace root: ");
    r.append(workspace_root);
    r.append("\n- Stage 2 ANSYS executable: ");
    r.append(&config.executable);
    r.append("\n- Stage 2 product mode: ");
    r.append(&config.stage2_product);
    r.append("\n- Stage 1 run directory: ");
    r.append(run_dir);
    r.append("\n- Stage 2 workspace: ");
    r.append(stage2_dir);
    r.append("\n- Stage 1 APDL: ");
    r.append(draft_path);
    r.append("\n- Stage 1 ansys.out: ");
    r.append(out_file);
    r.append("\n- Stage 1 err file: ");
    append_or(&mut r, err_file, "(none)");
    r.append("\n- APDL-K directory: ");
    r.append(&config.apdl_k_runs_dir);
    r.append("\n- Target k directory: ");
    r.append(&config.k_dir);
    r.append(REQUEST_CLOSE);
    r
}

/// The brief in a workspace that was found without one.
pub open spec fn found_brief(
    config: AnsysConfig,
    stage2_dir: Seq<char>,
    current_apdl_path: Seq<char>,
) -> Seq<char> {
    FOUND_BRIEF_INTRO@ + stage2_dir + "\nCurrent stage2 apdl: "@ + current_apdl_path
        + "\nTarget k directory: "@ + config.k_dir@ + "\n"@
}

/// Writes the brief for a workspace that was found without one.
pub fn build_found_stage2_brief(
    config: &AnsysConfig,
    stage2_dir: &str,
    current_apdl_path: &str,
) -> (r: String)
    ensures
        r@ == found_brief(*config, stage2_dir@, current_apdl_path@),
{
    let mut r = FOUND_BRIEF_INTRO.to_owned();
    r.append(stage2_dir);
    r.append("\nCurrent stage2 apdl: ");
    r.append(current_apdl_path);
    r.append("\nTarget k directory: ");
    r.append(&config.k_dir);
    r.append("\n");
    r
}

/// The request in a workspace that was found without one.
pub open spec fn found_request(
    config: AnsysConfig,
    stage2_dir: Seq<char>,
    current_apdl_path: Seq<char>,
) -> Seq<char> {
    FOUND_REQUEST_INTRO@ + stage2_dir + "\nCurrent stage2 apdl: "@ + current_apdl_path
        + "\nTarget k directory: "@ + config.k_dir@ + "\n"@
}

/// Writes the request for a workspace that was found without one.
pub fn build_found_stage2_request(
    config: &AnsysConfig,
    stage2_dir: &str,
    current_apdl_path: &str,
) -> (r: String)
    ensures
        r@ == found_request(*config, stage2_dir@, current_apdl_path@),
{
    let mut r = FOUND_REQUEST_INTRO.to_owned();
    r.append(stage2_dir);
    r.append("\nCurrent stage2 apdl: ");
    r.append(current_apdl_path);
    r.append("\nTarget k directory: ");
    r.append(&config.k_dir);
    r.append("\n");
    r
}

/// The note on an image.
pub open spec fn image_note(asset: InputAsset) -> Seq<char> {
    "- image file available: "@ + asset.relative_path@
}

/// The notes on the images among the assets.
pub open spec fn image_note_list(assets: Seq<InputAsset>) -> Seq<Seq<char>>
    decreases assets.len(),
{
    if assets.len() == 0 {
        Seq::empty()
    } else if assets.last().kind@ == IMAGE_KIND@ {
        image_note_list(assets.drop_last()).push(image_note(assets.last()))
    } else {
        image_note_list(assets.drop_last())
    }
}

/// The notes on the images among the assets, one on each line.
pub open spec fn image_notes(assets: Seq<InputAsset>) -> Seq<char> {
    joined(image_note_list(assets), "\n"@)
}

/// The text, or a word for none where it is empty.
pub open spec fn or_none(t: Seq<char>) -> Seq<char> {
    if t.len() == 0 {
        "(none)"@
    } else {
        t
    }
}

/// Writes the notes on the images.
fn list_images(assets: &Vec<InputAsset>) -> (r: String)
    ensures
        r@ == or_none(image_notes(assets@)),
{
    let mut notes: Vec<String> = Vec::new();
    for i in 0..assets.len()
        invariant
            views(notes@) == image_note_list(assets@.take(i as int)),
    {
        proof {
            assert(assets@.take(i + 1).drop_last() =~= assets@.take(i as int));
        }
        let ghost before = views(notes@);
        if same_text(&assets[i].kind, IMAGE_KIND) {
            let mut note = "- image file available: ".to_owned();
            note.append(&assets[i].relative_path);
            notes.push(note);
            proof {
                assert(views(notes@) =~= before.push(note@));
            }
        }
    }
    proof {
        assert(assets@.take(assets@.len() as int) =~= assets@);
    }
    let r = join(&notes, "\n");
    if r.as_str().is_empty() {
        return "(none)".to_owned();
    }
    r
}

/// What the model is asked for the first command stream.
pub open spec fn initial_request(
    workspace_root: Seq<char>,
    config: AnsysConfig,
    assets: Seq<InputAsset>,
    input_summary: Seq<char>,
) -> Seq<char> {
    "Workspace root: "@ + workspace_root + "\nANSYS executable: "@ + config.executable@
        + "\nInput directory: "@ + config.input_dir@ + "\nOutput APDL directory: "@
        + config.apdl_runs_dir@ + "\n\nInput summary follows:\n"@ + input_summary
        + "\n\nAdditional image assets:\n"@ + or_none(image_notes(assets)) + INITIAL_RULES@
}

/// Writes the messages that ask for the first command stream.
pub fn initial_generation_messages(
    workspace_root: &str,
    config: &AnsysConfig,
    assets: &Vec<InputAsset>,
    input_summary: &str,
) -> (r: Vec<ChatMessage>)
    ensures
        message_texts(r@) == seq![
            MessageText::System(INITIAL_SYSTEM@),
            MessageText::User(initial_request(workspace_root@, *config, assets@, input_summary@)),
        ],
{
    let images = list_images(assets);
    let mut r = "Workspace root: ".to_owned();
    r.append(workspace_root);
    r.append("\nANSYS executable: ");
    r.append(&config.executable);
    r.append("\nInput directory: ");
    r.append(&config.input_dir);
    r.append("\nOutput APDL directory: ");
    r.append(&config.apdl_runs_dir);
    r.append("\n\nInput summary follows:\n");
    r.append(input_summary);
    r.append("\n\nAdditional image assets:\n");
    r.append(&images);
    r.append(INITIAL_RULES);
    ask(INITIAL_SYSTEM, r)
}

/// What could be read of the `.err` file of the first stage.
#[derive(Debug)]
pub enum ErrContent {
    /// There is no such file.
    Missing,
    /// It could not be read.
    Unreadable,
    /// Its text.
    Text(String),
}

impl ErrContent {
    /// What the model is shown.
    pub open spec fn shown(self) -> Seq<char> {
        match self {
            ErrContent::Missing => "(none)"@,
            ErrContent::Unreadable => "(failed to read stage1 err)"@,
            ErrContent::Text(text) => text@,
        }
    }

    /// Appends what the model is shown.
    fn append_to(&self, r: &mut String)
        ensures
            final(r)@ == old(r)@ + self.shown(),
    {
        match self {
            ErrContent::Missing => r.append("(none)"),
            ErrContent::Unreadable => r.append("(failed to read stage1 err)"),
            ErrContent::Text(text) => r.append(text),
        }
    }
}

/// What the model is asked for the command stream of the export.
pub open spec fn stage2_request(
    workspace_root: Seq<char>,
    config: AnsysConfig,
    stage1_run_dir: Seq<char>,
    stage2_dir: Seq<char>,
    request_text: Seq<char>,
    stage1_apdl: Seq<char>,
    stage1_out: Seq<char>,
    stage1_err: ErrContent,
) -> Seq<char> {
    "Workspace root: "@ + workspace_root + "\nStage 2 ANSYS executable: "@ + config.executable@
        + "\nStage 2 product mode: "@ + config.stage2_product@ + "\nStage 1 run directory: "@
        + stage1_run_dir + "\nStage 2 workspace: "@ + stage2_dir + "\nTarget K directory: "@
        + config.k_dir@ + "\n\nStage 2 request:\n"@ + request_text + "\n\nStage 1 APDL:\n"@
        + stage1_apdl + "\n\nStage 1 ansys.out excerpt:\n"@
        + truncated(trimmed(stage1_out), STAGE1_OUT_CHARS as nat) + "\n\nStage 1 err content:\n"@
        + stage1_err.shown() + STAGE2_RULES@
}

/// Writes the messages that ask for the command stream of the export.
pub fn stage2_generation_messages(
    workspace_root: &str,
    config: &AnsysConfig,
    stage1_run_dir: &str,
    stage2_dir: &str,
    request_text: &str,
    stage1_apdl: &str,
    stage1_out: &str,
    stage1_err: &ErrContent,
) -> (r: Vec<ChatMessage>)
    ensures
        message_texts(r@) == seq![
            MessageText::System(STAGE2_SYSTEM@),
            MessageText::User(
                stage2_request(
                    workspace_root@,
                    *config,
                    stage1_run_dir@,
                    stage2_dir@,
                    request_text@,
                    stage1_apdl@,
                    stage1_out@,
                    *stage1_err,
                ),
            ),
        ],
{
    let excerpt = truncate_chars(&trim(stage1_out), STAGE1_OUT_CHARS);
    let mut r = "Workspace root: ".to_owned();
    r.append(workspace_root);
    r.append("\nStage 2 ANSYS executable: ");
    r.append(&config.executable);
    r.append("\nStage 2 product mode: ");
    r.append(&config.stage2_product);
    r.append("\nStage 1 run directory: ");
    r.append(stage1_run_dir);
    r.append("\nStage 2 workspace: ");
    r.append(stage2_dir);
    r.append("\nTarget K directory: ");
    r.append(&config.k_dir);
    r.append("\n\nStage 2 request:\n");
    r.append(request_text);
    r.append("\n\nStage 1 APDL:\n");
    r.append(stage1_apdl);
    r.append("\n\nStage 1 ansys.out excerpt:\n");
    r.append(&excerpt);
    r.append("\n\nStage 1 err content:\n");
    stage1_err.append_to(&mut r);
    r.append(STAGE2_RULES);
    ask(STAGE2_SYSTEM, r)
}

/// The request to repair hands over the whole command stream, the whole issue report and the
/// whole notes, unless it is longer than its limit.
pub proof fn law_repair_request_hands_over(
    workspace_root: Seq<char>,
    config: AnsysConfig,
    draft_path: Seq<char>,
    current_apdl: Seq<char>,
    err_text: Seq<char>,
    notes: Seq<Seq<char>>,
    stderr_text: Option<Seq<char>>,
)
    ensures
        ({
            let whole = repair_request(
                workspace_root,
                config,
                draft_path,
                current_apdl,
                err_text,
                notes,
                stderr_text,
            );
            let sent = clipped(whole, REPAIR_PROMPT_BYTES as nat, REPAIR_CUT_NOTE@);
            byte_len(whole) <= REPAIR_PROMPT_BYTES ==> {
                &&& has_text(sent, current_apdl)
                &&& has_text(sent, err_text)
                &&& has_text(sent, notes_text(notes))
            }
        }),
{
    let history = "\n\nRecent repair history:\n"@;
    let a = REPAIR_INTRO@ + workspace_root + "\nStage 2 ANSYS executable: "@ + config.executable@
        + "\nStage 2 product mode: "@ + config.stage2_product@ + "\nCurrent draft file: "@
        + draft_path + history;
    let b = a + notes_text(notes) + "\n\nCurrent APDL:\n"@;
    let c = b + current_apdl + "\n\nIssue report derived from the full .err content:\n"@;
    let d = c + err_text + REPAIR_RULES@;
    lemma_handed_over(a, notes_text(notes), b, "\n\nCurrent APDL:\n"@);
    lemma_appended_occurs(b, current_apdl, notes_text(notes));
    lemma_handed_over(
        b,
        current_apdl,
        c,
        "\n\nIssue report derived from the full .err content:\n"@,
    );
    lemma_appended_occurs(
        b + current_apdl,
        "\n\nIssue report derived from the full .err content:\n"@,
        notes_text(notes),
    );
    lemma_appended_occurs(c, err_text, notes_text(notes));
    lemma_appended_occurs(c, err_text, current_apdl);
    lemma_handed_over(c, err_text, d, REPAIR_RULES@);
    lemma_appended_occurs(c + err_text, REPAIR_RULES@, notes_text(notes));
    lemma_appended_occurs(c + err_text, REPAIR_RULES@, current_apdl);
    lemma_stderr_keeps(d, stderr_text, notes_text(notes));
    lemma_stderr_keeps(d, stderr_text, current_apdl);
    lemma_stderr_keeps(d, stderr_text, err_text);
}

/// The request to repair the export hands over the whole command stream, the whole issue report
/// and the whole notes, unless it is longer than its limit.
pub proof fn law_stage2_repair_request_hands_over(
    workspace_root: Seq<char>,
    config: AnsysConfig,
    stage1_run_dir: Seq<char>,
    stage1_draft_path: Seq<char>,
    stage1_out_file: Seq<char>,
    stage1_err_file: Option<Seq<char>>,
    draft_path: Seq<char>,
    current_apdl: Seq<char>,
    issue_text: Seq<char>,
    notes: Seq<Seq<char>>,
    stderr_text: Option<Seq<char>>,
)
    ensures
        ({
            let whole = stage2_repair_request(
                workspace_root,
                config,
                stage1_run_dir,
                stage1_draft_path,
                stage1_out_file,
                stage1_err_file,
                draft_path,
                current_apdl,
                issue_text,
                notes,
                stderr_text,
            );
            let sent = clipped(whole, STAGE2_REPAIR_PROMPT_BYTES as nat, STAGE2_REPAIR_CUT_NOTE@);
            byte_len(whole) <= STAGE2_REPAIR_PROMPT_BYTES ==> {
                &&& has_text(sent, current_apdl)
                &&& has_text(sent, issue_text)
                &&& has_text(sent, notes_text(notes))
            }
        }),
{
    let apdl_label = "\n\nCurrent Stage 2 APDL:\n"@;
    let issue_label = "\n\nStage 2 issue report:\n"@;
    let a = STAGE2_REPAIR_INTRO@ + workspace_root + "\nStage 2 ANSYS executable: "@
        + config.executable@ + "\nStage 2 product mode: "@ + config.stage2_product@
        + "\nStage 1 run directory: "@ + stage1_run_dir + "\nStage 1 APDL: "@ + stage1_draft_path
        + "\nStage 1 ansys.out: "@ + stage1_out_file + "\nStage 1 err file: "@ + text_or(
        stage1_err_file,
        "(none)"@,
    ) + "\nCurrent Stage 2 draft file: "@ + draft_path + "\nTarget k directory: "@ + config.k_dir@
        + "\n\nRecent repair history:\n"@;
    let b = a + notes_text(notes) + apdl_label;
    let c = b + current_apdl + issue_label;
    let d = c + issue_text + STAGE2_REPAIR_RULES@;
    lemma_handed_over(a, notes_text(notes), b, apdl_label);
    lemma_appended_occurs(b, current_apdl, notes_text(notes));
    lemma_handed_over(b, current_apdl, c, issue_label);
    lemma_appended_occurs(b + current_apdl, issue_label, notes_text(notes));
    lemma_appended_occurs(c, issue_text, notes_text(notes));
    lemma_appended_occurs(c, issue_text, current_apdl);
    lemma_handed_over(c, issue_text, d, STAGE2_REPAIR_RULES@);
    lemma_appended_occurs(c + issue_text, STAGE2_REPAIR_RULES@, notes_text(notes));
    lemma_appended_occurs(c + issue_text, STAGE2_REPAIR_RULES@, current_apdl);
    lemma_stderr_keeps(d, stderr_text, notes_text(notes));
    lemma_stderr_keeps(d, stderr_text, current_apdl);
    lemma_stderr_keeps(d, stderr_text, issue_text);
}

proof fn lemma_handed_over(before: Seq<char>, part: Seq<char>, after: Seq<char>, label: Seq<char>)
    requires
        after == before + part + label,
    ensures
        has_text(after, part),
{
    lemma_middle_occurs(before, part, label);
}

proof fn lemma_stderr_keeps(request: Seq<char>, stderr_text: Option<Seq<char>>, pat: Seq<char>)
    requires
        has_text(request, pat),
    ensures
        has_text(with_stderr(request, stderr_text), pat),
{
    if let Some(text) = stderr_text {
        let label = "\nSupplemental stderr content:\n"@;
        lemma_appended_occurs(request, label, pat);
        lemma_appended_occurs(request + label, text, pat);
        lemma_appended_occurs(request + label + text, "\n"@, pat);
    }
}

/// Each of the notes on earlier repairs stands in their text.
proof fn lemma_notes_hold(notes: Seq<Seq<char>>, i: int)
    requires
        0 <= i < notes.len(),
    ensures
        has_text(notes_text(notes), notes[i]),
{
    law_joined_holds_parts(notes, "\n"@, i);
}

/// What follows a label stands in a text in which the two stand together.
proof fn lemma_value_holds(t: Seq<char>, label: Seq<char>, value: Seq<char>)
    requires
        has_text(t, label + value),
    ensures
        has_text(t, value),
{
    let pair = label + value;
    assert(pair =~= label + value + Seq::empty());
    lemma_middle_occurs(label, value, Seq::empty());
    lemma_part_of_part(t, pair, value);
}

/// The request to repair the first stage says under its own label each thing that the model needs:
/// where the work is done, the whole command stream, the whole issue report, every note on earlier
/// repairs, and what ANSYS wrote to its error stream.
pub proof fn law_repair_request_tells(
    workspace_root: Seq<char>,
    config: AnsysConfig,
    draft_path: Seq<char>,
    current_apdl: Seq<char>,
    err_text: Seq<char>,
    notes: Seq<Seq<char>>,
    stderr_text: Option<Seq<char>>,
    i: int,
)
    ensures
        ({
            let t = repair_request(
                workspace_root,
                config,
                draft_path,
                current_apdl,
                err_text,
                notes,
                stderr_text,
            );
            &&& has_text(t, REPAIR_INTRO@ + workspace_root)
            &&& has_text(t, "\nStage 2 ANSYS executable: "@ + config.executable@)
            &&& has_text(t, "\nStage 2 product mode: "@ + config.stage2_product@)
            &&& has_text(t, "\nCurrent draft file: "@ + draft_path)
            &&& has_text(t, "\n\nRecent repair history:\n"@ + notes_text(notes))
            &&& has_text(t, "\n\nCurrent APDL:\n"@ + current_apdl)
            &&& has_text(t, "\n\nIssue report derived from the full .err content:\n"@ + err_text)
            &&& has_text(t, err_text + REPAIR_RULES@)
            &&& 0 <= i < notes.len() ==> has_text(t, notes[i])
            &&& stderr_text is Some && trimmed(stderr_text->0).len() > 0 ==> has_text(
                t,
                stderr_text->0,
            )
        }),
{
    let parts = seq![
        REPAIR_INTRO@,
        workspace_root,
        "\nStage 2 ANSYS executable: "@,
        config.executable@,
        "\nStage 2 product mode: "@,
        config.stage2_product@,
        "\nCurrent draft file: "@,
        draft_path,
        "\n\nRecent repair history:\n"@,
        notes_text(notes),
        "\n\nCurrent APDL:\n"@,
        current_apdl,
        "\n\nIssue report derived from the full .err content:\n"@,
        err_text,
        REPAIR_RULES@,
    ];
    let whole = concat(parts, 15);
    let t = repair_request(
                workspace_root,
                config,
                draft_path,
                current_apdl,
                err_text,
                notes,
                stderr_text,
            );
    reveal_with_fuel(concat, 16);
    assert(Seq::<char>::empty() + parts[0] =~= parts[0]);
    assert(t == with_stderr(whole, stderr_text));
    lemma_concat_holds(parts, 15, 0);
    lemma_stderr_keeps(whole, stderr_text, parts[0] + parts[1]);
    lemma_concat_holds(parts, 15, 2);
    lemma_stderr_keeps(whole, stderr_text, parts[2] + parts[3]);
    lemma_concat_holds(parts, 15, 4);
    lemma_stderr_keeps(whole, stderr_text, parts[4] + parts[5]);
    lemma_concat_holds(parts, 15, 6);
    lemma_stderr_keeps(whole, stderr_text, parts[6] + parts[7]);
    lemma_concat_holds(parts, 15, 8);
    lemma_stderr_keeps(whole, stderr_text, parts[8] + parts[9]);
    lemma_concat_holds(parts, 15, 10);
    lemma_stderr_keeps(whole, stderr_text, parts[10] + parts[11]);
    lemma_concat_holds(parts, 15, 12);
    lemma_stderr_keeps(whole, stderr_text, parts[12] + parts[13]);
    lemma_concat_holds(parts, 15, 13);
    lemma_stderr_keeps(whole, stderr_text, parts[13] + parts[14]);
    if 0 <= i < notes.len() {
        lemma_notes_hold(notes, i);
        lemma_value_holds(t, "\n\nRecent repair history:\n"@, notes_text(notes));
        lemma_part_of_part(t, notes_text(notes), notes[i]);
    }
    if let Some(text) = stderr_text {
        if trimmed(text).len() > 0 {
            lemma_middle_occurs(whole + "\nSupplemental stderr content:\n"@, text, "\n"@);
        }
    }
}


/// The request to repair the export says under its own label each thing that the model needs: where
/// the work is done, what the first stage left, the whole command stream, the whole issue report,
/// every note on earlier repairs, and what ANSYS wrote to its error stream.
pub proof fn law_stage2_repair_request_tells(
    workspace_root: Seq<char>,
    config: AnsysConfig,
    stage1_run_dir: Seq<char>,
    stage1_draft_path: Seq<char>,
    stage1_out_file: Seq<char>,
    stage1_err_file: Option<Seq<char>>,
    draft_path: Seq<char>,
    current_apdl: Seq<char>,
    issue_text: Seq<char>,
    notes: Seq<Seq<char>>,
    stderr_text: Option<Seq<char>>,
    i: int,
)
    ensures
        ({
            let t = stage2_repair_request(
                workspace_root,
                config,
                stage1_run_dir,
                stage1_draft_path,
                stage1_out_file,
                stage1_err_file,
                draft_path,
                current_apdl,
                issue_text,
                notes,
                stderr_text,
            );
            &&& has_text(t, STAGE2_REPAIR_INTRO@ + workspace_root)
            &&& has_text(t, "\nStage 2 ANSYS executable: "@ + config.executable@)
            &&& has_text(t, "\nStage 2 product mode: "@ + config.stage2_product@)
            &&& has_text(t, "\nStage 1 run directory: "@ + stage1_run_dir)
            &&& has_text(t, "\nStage 1 APDL: "@ + stage1_draft_path)
            &&& has_text(t, "\nStage 1 ansys.out: "@ + stage1_out_file)
            &&& has_text(t, "\nStage 1 err file: "@ + text_or(stage1_err_file, "(none)"@))
            &&& has_text(t, "\nCurrent Stage 2 draft file: "@ + draft_path)
            &&& has_text(t, "\nTarget k directory: "@ + config.k_dir@)
            &&& has_text(t, "\n\nRecent repair history:\n"@ + notes_text(notes))
            &&& has_text(t, "\n\nCurrent Stage 2 APDL:\n"@ + current_apdl)
            &&& has_text(t, "\n\nStage 2 issue report:\n"@ + issue_text)
            &&& has_text(t, issue_text + STAGE2_REPAIR_RULES@)
            &&& 0 <= i < notes.len() ==> has_text(t, notes[i])
            &&& stderr_text is Some && trimmed(stderr_text->0).len() > 0 ==> has_text(
                t,
                stderr_text->0,
            )
        }),
{
    let parts = seq![
        STAGE2_REPAIR_INTRO@,
        workspace_root,
        "\nStage 2 ANSYS executable: "@,
        config.executable@,
        "\nStage 2 product mode: "@,
        config.stage2_product@,
        "\nStage 1 run directory: "@,
        stage1_run_dir,
        "\nStage 1 APDL: "@,
        stage1_draft_path,
        "\nStage 1 ansys.out: "@,
        stage1_out_file,
        "\nStage 1 err file: "@,
        text_or(stage1_err_file, "(none)"@),
        "\nCurrent Stage 2 draft file: "@,
        draft_path,
        "\nTarget k directory: "@,
        config.k_dir@,
        "\n\nRecent repair history:\n"@,
        notes_text(notes),
        "\n\nCurrent Stage 2 APDL:\n"@,
        current_apdl,
        "\n\nStage 2 issue report:\n"@,
        issue_text,
        STAGE2_REPAIR_RULES@,
    ];
    let whole = concat(parts, 25);
    let t = stage2_repair_request(
                workspace_root,
                config,
                stage1_run_dir,
                stage1_draft_path,
                stage1_out_file,
                stage1_err_file,
                draft_path,
                current_apdl,
                issue_text,
                notes,
                stderr_text,
            );
    reveal_with_fuel(concat, 26);
    assert(Seq::<char>::empty() + parts[0] =~= parts[0]);
    assert(t == with_stderr(whole, stderr_text));
    lemma_concat_holds(parts, 25, 0);
    lemma_stderr_keeps(whole, stderr_text, parts[0] + parts[1]);
    lemma_concat_holds(parts, 25, 2);
    lemma_stderr_keeps(whole, stderr_text, parts[2] + parts[3]);
    lemma_concat_holds(parts, 25, 4);
    lemma_stderr_keeps(whole, stderr_text, parts[4] + parts[5]);
    lemma_concat_holds(parts, 25, 6);
    lemma_stderr_keeps(whole, stderr_text, parts[6] + parts[7]);
    lemma_concat_holds(parts, 25, 8);
    lemma_stderr_keeps(whole, stderr_text, parts[8] + parts[9]);
    lemma_concat_holds(parts, 25, 10);
    lemma_stderr_keeps(whole, stderr_text, parts[10] + parts[11]);
    lemma_concat_holds(parts, 25, 12);
    lemma_stderr_keeps(whole, stderr_text, parts[12] + parts[13]);
    lemma_concat_holds(parts, 25, 14);
    lemma_stderr_keeps(whole, stderr_text, parts[14] + parts[15]);
    lemma_concat_holds(parts, 25, 16);
    lemma_stderr_keeps(whole, stderr_text, parts[16] + parts[17]);
    lemma_concat_holds(parts, 25, 18);
    lemma_stderr_keeps(whole, stderr_text, parts[18] + parts[19]);
    lemma_concat_holds(parts, 25, 20);
    lemma_stderr_keeps(whole, stderr_text, parts[20] + parts[21]);
    lemma_concat_holds(parts, 25, 22);
    lemma_stderr_keeps(whole, stderr_text, parts[22] + parts[23]);
    lemma_concat_holds(parts, 25, 23);
    lemma_stderr_keeps(whole, stderr_text, parts[23] + parts[24]);
    if 0 <= i < notes.len() {
        lemma_notes_hold(notes, i);
        lemma_value_holds(t, "\n\nRecent repair history:\n"@, notes_text(notes));
        lemma_part_of_part(t, notes_text(notes), notes[i]);
    }
    if let Some(text) = stderr_text {
        if trimmed(text).len() > 0 {
            lemma_middle_occurs(whole + "\nSupplemental stderr content:\n"@, text, "\n"@);
        }
    }
}


/// The request for the export names the run, the workspaces, the product, what the first stage
/// left, and where the deck has to go.
pub proof fn law_export_request_tells(
    workspace_root: Seq<char>,
    config: AnsysConfig,
    run_id: Seq<char>,
    run_dir: Seq<char>,
    draft_path: Seq<char>,
    out_file: Seq<char>,
    err_file: Option<Seq<char>>,
    stage2_dir: Seq<char>,
)
    ensures
        ({
            let t = export_request(
                workspace_root,
                config,
                run_id,
                run_dir,
                draft_path,
                out_file,
                err_file,
                stage2_dir,
            );
            &&& has_text(t, REQUEST_INTRO@ + run_id)
            &&& has_text(t, "\n- Workspace root: "@ + workspace_root)
            &&& has_text(t, "\n- Stage 2 ANSYS executable: "@ + config.executable@)
            &&& has_text(t, "\n- Stage 2 product mode: "@ + config.stage2_product@)
            &&& has_text(t, "\n- Stage 1 run directory: "@ + run_dir)
            &&& has_text(t, "\n- Stage 2 workspace: "@ + stage2_dir)
            &&& has_text(t, "\n- Stage 1 APDL: "@ + draft_path)
            &&& has_text(t, "\n- Stage 1 ansys.out: "@ + out_file)
            &&& has_text(t, "\n- Stage 1 err file: "@ + text_or(err_file, "(none)"@))
            &&& has_text(t, "\n- APDL-K directory: "@ + config.apdl_k_runs_dir@)
            &&& has_text(t, "\n- Target k directory: "@ + config.k_dir@)
            &&& has_text(t, config.k_dir@ + REQUEST_CLOSE@)
        }),
{
    let parts = seq![
        REQUEST_INTRO@,
        run_id,
        "\n- Workspace root: "@,
        workspace_root,
        "\n- Stage 2 ANSYS executable: "@,
        config.executable@,
        "\n- Stage 2 product mode: "@,
        config.stage2_product@,
        "\n- Stage 1 run directory: "@,
        run_dir,
        "\n- Stage 2 workspace: "@,
        stage2_dir,
        "\n- Stage 1 APDL: "@,
        draft_path,
        "\n- Stage 1 ansys.out: "@,
        out_file,
        "\n- Stage 1 err file: "@,
        text_or(err_file, "(none)"@),
        "\n- APDL-K directory: "@,
        config.apdl_k_runs_dir@,
        "\n- Target k directory: "@,
        config.k_dir@,
        REQUEST_CLOSE@,
    ];
    let whole = concat(parts, 23);
    let t = export_request(
                workspace_root,
                config,
                run_id,
                run_dir,
                draft_path,
                out_file,
                err_file,
                stage2_dir,
            );
    reveal_with_fuel(concat, 24);
    assert(Seq::<char>::empty() + parts[0] =~= parts[0]);
    assert(t == whole);
    lemma_concat_holds(parts, 23, 0);
    lemma_concat_holds(parts, 23, 2);
    lemma_concat_holds(parts, 23, 4);
    lemma_concat_holds(parts, 23, 6);
    lemma_concat_holds(parts, 23, 8);
    lemma_concat_holds(parts, 23, 10);
    lemma_concat_holds(parts, 23, 12);
    lemma_concat_holds(parts, 23, 14);
    lemma_concat_holds(parts, 23, 16);
    lemma_concat_holds(parts, 23, 18);
    lemma_concat_holds(parts, 23, 20);
    lemma_concat_holds(parts, 23, 21);
}


/// The model that writes the export is given the whole request, the whole command stream and the
/// whole .err file of the first stage, and the output of ANSYS as far as it is short enough.
pub proof fn law_stage2_generation_tells(
    workspace_root: Seq<char>,
    config: AnsysConfig,
    stage1_run_dir: Seq<char>,
    stage2_dir: Seq<char>,
    request_text: Seq<char>,
    stage1_apdl: Seq<char>,
    stage1_out: Seq<char>,
    stage1_err: ErrContent,
)
    ensures
        ({
            let t = stage2_request(
                workspace_root,
                config,
                stage1_run_dir,
                stage2_dir,
                request_text,
                stage1_apdl,
                stage1_out,
                stage1_err,
            );
            &&& has_text(t, "Workspace root: "@ + workspace_root)
            &&& has_text(t, "\nStage 2 ANSYS executable: "@ + config.executable@)
            &&& has_text(t, "\nStage 2 product mode: "@ + config.stage2_product@)
            &&& has_text(t, "\nStage 1 run directory: "@ + stage1_run_dir)
            &&& has_text(t, "\nStage 2 workspace: "@ + stage2_dir)
            &&& has_text(t, "\nTarget K directory: "@ + config.k_dir@)
            &&& has_text(t, "\n\nStage 2 request:\n"@ + request_text)
            &&& has_text(t, "\n\nStage 1 APDL:\n"@ + stage1_apdl)
            &&& has_text(
                t,
                "\n\nStage 1 ansys.out excerpt:\n"@ + truncated(
                    trimmed(stage1_out),
                    STAGE1_OUT_CHARS as nat,
                ),
            )
            &&& has_text(t, "\n\nStage 1 err content:\n"@ + stage1_err.shown())
            &&& has_text(t, stage1_err.shown() + STAGE2_RULES@)
            &&& stage1_err matches ErrContent::Text(text) ==> has_text(t, text@)
            &&& trimmed(stage1_out).len() <= 12_000 ==> has_text(t, trimmed(stage1_out))
        }),
{
    let parts = seq![
        "Workspace root: "@,
        workspace_root,
        "\nStage 2 ANSYS executable: "@,
        config.executable@,
        "\nStage 2 product mode: "@,
        config.stage2_product@,
        "\nStage 1 run directory: "@,
        stage1_run_dir,
        "\nStage 2 workspace: "@,
        stage2_dir,
        "\nTarget K directory: "@,
        config.k_dir@,
        "\n\nStage 2 request:\n"@,
        request_text,
        "\n\nStage 1 APDL:\n"@,
        stage1_apdl,
        "\n\nStage 1 ansys.out excerpt:\n"@,
        truncated(trimmed(stage1_out), STAGE1_OUT_CHARS as nat),
        "\n\nStage 1 err content:\n"@,
        stage1_err.shown(),
        STAGE2_RULES@,
    ];
    let whole = concat(parts, 21);
    let t = stage2_request(
                workspace_root,
                config,
                stage1_run_dir,
                stage2_dir,
                request_text,
                stage1_apdl,
                stage1_out,
                stage1_err,
            );
    reveal_with_fuel(concat, 22);
    assert(Seq::<char>::empty() + parts[0] =~= parts[0]);
    assert(t == whole);
    lemma_concat_holds(parts, 21, 0);
    lemma_concat_holds(parts, 21, 2);
    lemma_concat_holds(parts, 21, 4);
    lemma_concat_holds(parts, 21, 6);
    lemma_concat_holds(parts, 21, 8);
    lemma_concat_holds(parts, 21, 10);
    lemma_concat_holds(parts, 21, 12);
    lemma_concat_holds(parts, 21, 14);
    lemma_concat_holds(parts, 21, 16);
    lemma_concat_holds(parts, 21, 18);
    lemma_concat_holds(parts, 21, 19);
    lemma_value_holds(t, "\n\nStage 1 err content:\n"@, stage1_err.shown());
    lemma_value_holds(
        t,
        "\n\nStage 1 ansys.out excerpt:\n"@,
        truncated(trimmed(stage1_out), STAGE1_OUT_CHARS as nat),
    );
}


/// The model that writes the first command stream is given the whole summary of the source
/// materials, and told of every image among them.
pub proof fn law_initial_generation_tells(
    workspace_root: Seq<char>,
    config: AnsysConfig,
    assets: Seq<InputAsset>,
    input_summary: Seq<char>,
    i: int,
)
    ensures
        ({
            let t = initial_request(workspace_root, config, assets, input_summary);
            &&& has_text(t, "Workspace root: "@ + workspace_root)
            &&& has_text(t, "\nANSYS executable: "@ + config.executable@)
            &&& has_text(t, "\nInput directory: "@ + config.input_dir@)
            &&& has_text(t, "\nOutput APDL directory: "@ + config.apdl_runs_dir@)
            &&& has_text(t, "\n\nInput summary follows:\n"@ + input_summary)
            &&& has_text(t, "\n\nAdditional image assets:\n"@ + or_none(image_notes(assets)))
            &&& has_text(t, or_none(image_notes(assets)) + INITIAL_RULES@)
            &&& 0 <= i < assets.len() && assets[i].kind@ == "image"@ ==> has_text(
                t,
                "- image file available: "@ + assets[i].relative_path@,
            )
        }),
{
    let parts = seq![
        "Workspace root: "@,
        workspace_root,
        "\nANSYS executable: "@,
        config.executable@,
        "\nInput directory: "@,
        config.input_dir@,
        "\nOutput APDL directory: "@,
        config.apdl_runs_dir@,
        "\n\nInput summary follows:\n"@,
        input_summary,
        "\n\nAdditional image assets:\n"@,
        or_none(image_notes(assets)),
        INITIAL_RULES@,
    ];
    let whole = concat(parts, 13);
    let t = initial_request(workspace_root, config, assets, input_summary);
    reveal_with_fuel(concat, 14);
    assert(Seq::<char>::empty() + parts[0] =~= parts[0]);
    assert(t == whole);
    lemma_concat_holds(parts, 13, 0);
    lemma_concat_holds(parts, 13, 2);
    lemma_concat_holds(parts, 13, 4);
    lemma_concat_holds(parts, 13, 6);
    lemma_concat_holds(parts, 13, 8);
    lemma_concat_holds(parts, 13, 10);
    lemma_concat_holds(parts, 13, 11);
    if 0 <= i < assets.len() && assets[i].kind@ == IMAGE_KIND@ {
        let notes = image_note_list(assets);
        lemma_images_noted(assets, i);
        let k = choose|k: int| 0 <= k < notes.len() && notes[k] == image_note(assets[i]);
        law_joined_holds_parts(notes, "\n"@, k);
        assert(image_notes(assets).len() > 0) by {
            reveal_strlit("- image file available: ");
            let at = choose|at: int| #[trigger] occurs_at(image_notes(assets), notes[k], at);
        }
        lemma_value_holds(t, "\n\nAdditional image assets:\n"@, image_notes(assets));
        lemma_part_of_part(t, image_notes(assets), notes[k]);
    }
}


/// Every image has its note.
proof fn lemma_images_noted(assets: Seq<InputAsset>, i: int)
    requires
        0 <= i < assets.len(),
        assets[i].kind@ == IMAGE_KIND@,
    ensures
        image_note_list(assets).contains(image_note(assets[i])),
    decreases assets.len(),
{
    let head = assets.drop_last();
    let all = image_note_list(assets);
    if i == assets.len() - 1 {
        assert(all[all.len() - 1] == image_note(assets[i]));
    } else {
        lemma_images_noted(head, i);
        let notes = image_note_list(head);
        let k = choose|k: int| 0 <= k < notes.len() && notes[k] == image_note(assets[i]);
        assert(all[k] == notes[k]);
    }
}

/// The brief on the export names the run, what it left, the product and where the deck has to go,
/// and says that there is none where there is none.
pub proof fn law_export_brief_tells(
    workspace_root: Seq<char>,
    config: AnsysConfig,
    run_id: Seq<char>,
    run_dir: Seq<char>,
    draft_path: Seq<char>,
    out_file: Seq<char>,
    err_file: Option<Seq<char>>,
    k_file: Option<Seq<char>>,
)
    ensures
        ({
            let t = export_brief(
                workspace_root,
                config,
                run_id,
                run_dir,
                draft_path,
                out_file,
                err_file,
                k_file,
            );
            &&& begins_with(t, "OpenAnsys Stage 2 export brief\n\nRun id: "@ + run_id)
            &&& has_text(t, "\nRun directory: "@ + run_dir)
            &&& has_text(t, "\nDraft APDL: "@ + draft_path)
            &&& has_text(t, "\nANSYS out: "@ + out_file)
            &&& has_text(t, "\nANSYS err: "@ + text_or(err_file, "(none)"@))
            &&& has_text(t, "\nStage 2 product mode: "@ + config.stage2_product@)
            &&& has_text(t, "\nK directory: "@ + config.k_dir@)
            &&& has_text(t, "\nExisting K file: "@ + text_or(k_file, "(none yet)"@))
            &&& k_file is None ==> ends_in(t, BRIEF_BLOCKER@)
        }),
{
    let parts = seq![
        "OpenAnsys Stage 2 export brief\n\nRun id: "@,
        run_id,
        "\nWorkspace root: "@,
        workspace_root,
        "\nANSYS executable: "@,
        config.executable@,
        "\nStage 2 product mode: "@,
        config.stage2_product@,
        "\nRun directory: "@,
        run_dir,
        "\nDraft APDL: "@,
        draft_path,
        "\nANSYS out: "@,
        out_file,
        "\nANSYS err: "@,
        text_or(err_file, "(none)"@),
        "\nAPDL-K directory: "@,
        config.apdl_k_runs_dir@,
        "\nK directory: "@,
        config.k_dir@,
        "\nExisting K file: "@,
        text_or(k_file, "(none yet)"@),
        BRIEF_CLOSE@,
    ];
    let whole = concat(parts, 23);
    let t = export_brief(
        workspace_root,
        config,
        run_id,
        run_dir,
        draft_path,
        out_file,
        err_file,
        k_file,
    );
    reveal_with_fuel(concat, 24);
    assert(Seq::<char>::empty() + parts[0] =~= parts[0]);
    let close = if k_file is None {
        BRIEF_BLOCKER@
    } else {
        Seq::empty()
    };
    assert(whole + Seq::<char>::empty() =~= whole);
    assert(t == whole + close);
    assert forall|k: int| 0 <= k < 22 implies has_text(
        t,
        #[trigger] parts[k] + parts[k + 1],
    ) by {
        lemma_concat_holds(parts, 23, k);
        lemma_appended_occurs(whole, close, parts[k] + parts[k + 1]);
    }
    assert(has_text(t, parts[6] + parts[7]));
    assert(has_text(t, parts[8] + parts[9]));
    assert(has_text(t, parts[10] + parts[11]));
    assert(has_text(t, parts[12] + parts[13]));
    assert(has_text(t, parts[14] + parts[15]));
    assert(has_text(t, parts[18] + parts[19]));
    assert(has_text(t, parts[20] + parts[21]));
    let head = parts[0] + parts[1];
    lemma_concat_begins(parts, 23);
    assert(t.subrange(0, head.len() as int) =~= whole.subrange(0, head.len() as int));
    if k_file is None {
        assert(t.subrange(t.len() - close.len(), t.len() as int) =~= close);
    }
}

/// The whole begins with its first two pieces.
proof fn lemma_concat_begins(parts: Seq<Seq<char>>, n: nat)
    requires
        2 <= n <= parts.len(),
    ensures
        begins_with(concat(parts, n), parts[0] + parts[1]),
    decreases n,
{
    let pair = parts[0] + parts[1];
    if n == 2 {
        reveal_with_fuel(concat, 3);
        assert(concat(parts, 2) =~= pair);
        assert(pair.subrange(0, pair.len() as int) =~= pair);
    } else {
        lemma_concat_begins(parts, (n - 1) as nat);
        let head = concat(parts, (n - 1) as nat);
        assert(concat(parts, n).subrange(0, pair.len() as int) =~= head.subrange(
            0,
            pair.len() as int,
        ));
    }
}

/// The brief and the request in a workspace that was found without them name its directory, its
/// command stream and where the deck has to go.
pub proof fn law_found_workspace_is_described(
    config: AnsysConfig,
    stage2_dir: Seq<char>,
    current_apdl_path: Seq<char>,
)
    ensures
        ({
            let b = found_brief(config, stage2_dir, current_apdl_path);
            let r = found_request(config, stage2_dir, current_apdl_path);
            &&& has_text(b, FOUND_BRIEF_INTRO@ + stage2_dir)
            &&& has_text(b, "\nCurrent stage2 apdl: "@ + current_apdl_path)
            &&& has_text(b, "\nTarget k directory: "@ + config.k_dir@)
            &&& has_text(r, FOUND_REQUEST_INTRO@ + stage2_dir)
            &&& has_text(r, "\nCurrent stage2 apdl: "@ + current_apdl_path)
            &&& has_text(r, "\nTarget k directory: "@ + config.k_dir@)
        }),
{
    let b = seq![
        FOUND_BRIEF_INTRO@,
        stage2_dir,
        "\nCurrent stage2 apdl: "@,
        current_apdl_path,
        "\nTarget k directory: "@,
        config.k_dir@,
        "\n"@,
    ];
    let r = b.update(0, FOUND_REQUEST_INTRO@);
    reveal_with_fuel(concat, 8);
    assert(Seq::<char>::empty() + b[0] =~= b[0]);
    assert(Seq::<char>::empty() + r[0] =~= r[0]);
    assert(concat(b, 7) == found_brief(config, stage2_dir, current_apdl_path));
    assert(concat(r, 7) == found_request(config, stage2_dir, current_apdl_path));
    lemma_concat_holds(b, 7, 0);
    lemma_concat_holds(b, 7, 2);
    lemma_concat_holds(b, 7, 4);
    lemma_concat_holds(r, 7, 0);
    lemma_concat_holds(r, 7, 2);
    lemma_concat_holds(r, 7, 4);
}

/// A request to repair that fits its limit is sent whole.
pub proof fn law_repair_requests_are_sent_whole(whole: Seq<char>)
    ensures
        byte_len(whole) <= 200_000 ==> clipped(whole, REPAIR_PROMPT_BYTES as nat, REPAIR_CUT_NOTE@)
            == whole,
        byte_len(whole) <= 220_000 ==> clipped(
            whole,
            STAGE2_REPAIR_PROMPT_BYTES as nat,
            STAGE2_REPAIR_CUT_NOTE@,
        ) == whole,
{
    law_clip_keeps_what_fits(whole, REPAIR_PROMPT_BYTES as nat, REPAIR_CUT_NOTE@);
    law_clip_keeps_what_fits(whole, STAGE2_REPAIR_PROMPT_BYTES as nat, STAGE2_REPAIR_CUT_NOTE@);
}

/// Where there is nothing to hand over, the model is told so: no notes, no images, no `.err` file
/// or one that could not be read. Without an error stream a request for a repair ends in its rules.
pub proof fn law_absence_is_told(
    workspace_root: Seq<char>,
    config: AnsysConfig,
    draft_path: Seq<char>,
    current_apdl: Seq<char>,
    err_text: Seq<char>,
    notes: Seq<Seq<char>>,
)
    ensures
        notes.len() == 0 ==> notes_text(notes) == "(none yet)"@,
        image_notes(Seq::empty()).len() == 0,
        or_none(Seq::empty()) == "(none)"@,
        ErrContent::Missing.shown() == "(none)"@,
        ErrContent::Unreadable.shown() == "(failed to read stage1 err)"@,
        ends_in(
            repair_request(
                workspace_root,
                config,
                draft_path,
                current_apdl,
                err_text,
                notes,
                None,
            ),
            err_text + REPAIR_RULES@,
        ),
{
    let t = repair_request(
        workspace_root,
        config,
        draft_path,
        current_apdl,
        err_text,
        notes,
        None,
    );
    let tail = err_text + REPAIR_RULES@;
    assert(t.subrange(t.len() - tail.len(), t.len() as int) =~= tail);
    assert(image_note_list(Seq::empty()).len() == 0);
}

} // verus!
