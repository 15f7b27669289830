//! The checks a run has to pass before its results are accepted.

use vstd::prelude::*;

use crate::number::{decimal, decimal_text};
use crate::text::{
    begins_with, chars_contain, chars_contain_any, ends_in, has_any, has_text, join, joined,
    law_joined_holds_parts, lemma_appended_occurs, lemma_middle_occurs, lemma_part_of_part,
    stands_at, text_in, texts, to_chars, upper, upper_chars, views,
};

verus! {

/// The commands that set a mesh size, each at the beginning of a line.
pub const MESH_SIZE_COMMANDS: [&'static str; 4] = [
    "\nESIZE,",
    "\nLESIZE,",
    "\nAESIZE,",
    "\nSMRTSIZE,",
];

/// The commands that make a mesh, each at the beginning of a line.
pub const MESH_COMMANDS: [&'static str; 4] = ["\nVMESH,", "\nAMESH,", "\nVSWEEP,", "\nFVMESH,"];

/// What a refused command stream of the first stage is told before what it lacks.
pub const STAGE1_INTRO: &'static str =
    "Stage 1 completeness validation failed even though the .err file is clean.\nThis run cannot be accepted yet because the APDL did not reach a connected meshed model state.\n\nMissing requirements:\n- ";

/// What a refused command stream of the first stage is told after what it lacks.
pub const STAGE1_CLOSE: &'static str =
    "\n\nThe repaired APDL must keep the geometry intent, but add the missing Stage 1 modeling steps.";

/// The commands that write a file line by line.
pub const FILE_WRITE_COMMANDS: [&'static str; 3] = ["*CFOPEN", "*CFWRITE", "*VWRITE"];

/// What the text of a keyword deck holds.
pub const KEYWORD_DUMP_MARKS: [&'static str; 5] = [
    "*KEYWORD",
    "*NODE",
    "*ELEMENT_SOLID",
    "*MAT_",
    "*PART",
];

/// What a command stream that writes the keyword deck by hand is told.
pub const STRATEGY_ISSUE: &'static str =
    "Stage 2 strategy validation failed before export acceptance.\nThe current Stage 2 APDL appears to be manually authoring the LS-DYNA keyword deck text with APDL file-writing commands.\nThat is not the intended workflow for this project.\n\nRequired correction:\n- Reuse/resume the successful Stage 1 model.\n- Drive an ANSYS-side .K export/generation workflow.\n- Do not write the final deck text line by line with *CFOPEN/*CFWRITE/*VWRITE loops over nodes and elements.\n";

/// What the output of ANSYS holds once the run is over; one of these is enough.
pub const COMPLETION_MARKS: [&'static str; 3] = [
    "ANSYS RUN COMPLETED",
    "END OF INPUT ENCOUNTERED",
    "E N D   A N S Y S   S T A T I S T I C S",
];

/// How many times the output of ANSYS is looked at for the end of the run, one second apart.
pub const COMPLETION_WAIT_SECS: u64 = 90;

/// The time between two looks, in milliseconds.
pub const COMPLETION_POLL_MS: u64 = 1_000;

/// The size above which an exported deck is not believed, in bytes.
pub const MAX_REASONABLE_K_FILE_BYTES: u64 = 262_144_000;

/// How much of the beginning of a deck is read where it is not all text.
pub const K_FILE_HEAD_BYTES: usize = 16_384;

/// How much of the end of a deck is read where it is not all text.
pub const K_FILE_TAIL_BYTES: usize = 65_536;

/// The keywords that a complete deck holds.
pub const K_FILE_MARKS: [&'static str; 7] = [
    "*KEYWORD",
    "*NODE",
    "*ELEMENT",
    "*PART",
    "*SECTION",
    "*MAT",
    "*END",
];

/// A command stands at the beginning of some line of an upper-case text.
pub open spec fn begins_a_line(t: Seq<char>, command: Seq<char>, after_feed: Seq<char>) -> bool {
    has_text(t, after_feed) || begins_with(t, command)
}

/// The text as the only element, where `absent` holds.
pub open spec fn note_if(absent: bool, note: Seq<char>) -> Seq<Seq<char>> {
    if absent {
        seq![note]
    } else {
        Seq::empty()
    }
}

/// What the first stage's command stream lacks.
pub open spec fn stage1_missing(apdl: Seq<char>) -> Seq<Seq<char>> {
    let t = upper(apdl);
    note_if(!begins_a_line(t, "ET,"@, "\nET,"@), "missing ET definition"@) + note_if(
        !begins_a_line(t, "TYPE,"@, "\nTYPE,"@),
        "missing TYPE assignment"@,
    ) + note_if(
        !has_any(t, texts(MESH_SIZE_COMMANDS@)),
        "missing mesh sizing command such as ESIZE/LESIZE/AESIZE"@,
    ) + note_if(
        !has_any(t, texts(MESH_COMMANDS@)),
        "missing actual mesh generation command such as VMESH/AMESH/VSWEEP"@,
    )
}

/// What is wrong with the first stage's command stream.
pub open spec fn stage1_issue(apdl: Seq<char>) -> Option<Seq<char>> {
    let missing = stage1_missing(apdl);
    if missing.len() == 0 {
        None
    } else {
        Some(STAGE1_INTRO@ + joined(missing, "\n- "@) + STAGE1_CLOSE@)
    }
}

/// Adds a note to a list where `absent` holds.
fn push_note(notes: &mut Vec<String>, absent: bool, note: &str)
    ensures
        views(final(notes)@) == views(old(notes)@) + note_if(absent, note@),
{
    let ghost before = views(notes@);
    if absent {
        notes.push(note.to_owned());
        proof {
            assert(views(notes@) =~= before + seq![note@]);
        }
    }
    proof {
        assert(before + Seq::<Seq<char>>::empty() =~= before);
    }
}

/// Tells whether `t` begins with `pat`.
fn chars_begin(t: &Vec<char>, pat: &str) -> (r: bool)
    ensures
        r == begins_with(t@, pat@),
{
    stands_at(t, &to_chars(pat), 0)
}

/// Checks the first stage's command stream: it has to define and assign an element type, set a
/// mesh size and make a mesh.
pub fn validate_stage1_model_requirements(apdl_text: &str) -> (r: Option<String>)
    ensures
        match r {
            Some(issue) => stage1_issue(apdl_text@) == Some(issue@),
            None => stage1_issue(apdl_text@) is None,
        },
{
    let t = upper_chars(apdl_text);
    let sizes = MESH_SIZE_COMMANDS;
    let meshes = MESH_COMMANDS;
    let has_et = chars_contain(&t, "\nET,") || chars_begin(&t, "ET,");
    let has_type = chars_contain(&t, "\nTYPE,") || chars_begin(&t, "TYPE,");
    let has_mesh_size = chars_contain_any(&t, &sizes);
    let has_mesh_generation = chars_contain_any(&t, &meshes);

    let mut missing: Vec<String> = Vec::new();
    push_note(&mut missing, !has_et, "missing ET definition");
    push_note(&mut missing, !has_type, "missing TYPE assignment");
    push_note(
        &mut missing,
        !has_mesh_size,
        "missing mesh sizing command such as ESIZE/LESIZE/AESIZE",
    );
    push_note(
        &mut missing,
        !has_mesh_generation,
        "missing actual mesh generation command such as VMESH/AMESH/VSWEEP",
    );
    proof {
        assert(views(missing@) =~= stage1_missing(apdl_text@));
    }
    if missing.len() == 0 {
        return None;
    }
    let mut r = STAGE1_INTRO.to_owned();
    r.append(join(&missing, "\n- ").as_str());
    r.append(STAGE1_CLOSE);
    Some(r)
}

/// The export stage's command stream writes the keyword deck by hand.
pub open spec fn writes_deck_by_hand(apdl: Seq<char>) -> bool {
    has_any(upper(apdl), texts(FILE_WRITE_COMMANDS@)) && has_any(
        upper(apdl),
        texts(KEYWORD_DUMP_MARKS@),
    )
}

/// Checks how the export stage's command stream makes the deck: ANSYS has to write it.
pub fn validate_stage2_apdl_strategy(apdl_text: &str) -> (r: Option<String>)
    ensures
        r is Some <==> writes_deck_by_hand(apdl_text@),
        r is Some ==> r->0@ == STRATEGY_ISSUE@,
{
    let t = upper_chars(apdl_text);
    let writes = FILE_WRITE_COMMANDS;
    let marks = KEYWORD_DUMP_MARKS;
    if chars_contain_any(&t, &writes) && chars_contain_any(&t, &marks) {
        Some(STRATEGY_ISSUE.to_owned())
    } else {
        None
    }
}

/// The output of ANSYS says that the run is over.
pub open spec fn is_complete(out_text: Option<Seq<char>>) -> bool {
    match out_text {
        Some(t) => has_any(t, texts(COMPLETION_MARKS@)),
        None => false,
    }
}

/// Tells whether the output of ANSYS, if it can be read, says that the run is over.
pub fn ansys_out_indicates_completion(out_text: Option<&str>) -> (r: bool)
    ensures
        r == is_complete(text_in(out_text)),
{
    match out_text {
        Some(text) => {
            let marks = COMPLETION_MARKS;
            chars_contain_any(&to_chars(text), &marks)
        },
        None => false,
    }
}

/// What to do after a look at the output of ANSYS.
#[derive(Debug)]
pub enum WaitStep {
    /// The run is over.
    Completed,
    /// Wait for [`COMPLETION_POLL_MS`], then look again.
    Sleep,
    /// Give up, with the message.
    GiveUp(String),
}

/// The message on a run that does not end.
pub open spec fn timeout_issue(out_file: Seq<char>) -> Seq<char> {
    "ANSYS execution did not reach the standard completion marker within "@ + decimal_text(
        COMPLETION_WAIT_SECS as nat,
    )
        + " seconds.\nTreat this run as incomplete even if a partial .K file already exists.\nansys.out: "@
        + out_file
}

/// Decides after `looks` looks at the output that did not see the end of the run: the output is
/// looked at [`COMPLETION_WAIT_SECS`] times at most. The output is given as it was just read.
pub fn wait_for_ansys_completion(looks: u64, out_text: Option<&str>, out_file: &str) -> (r:
    WaitStep)
    ensures
        r is Completed <==> looks < COMPLETION_WAIT_SECS && is_complete(text_in(out_text)),
        r is Sleep <==> looks < COMPLETION_WAIT_SECS && !is_complete(text_in(out_text)),
        looks >= COMPLETION_WAIT_SECS ==> r is GiveUp && r->GiveUp_0@ == timeout_issue(out_file@),
{
    if looks >= COMPLETION_WAIT_SECS {
        let mut m = "ANSYS execution did not reach the standard completion marker within ".to_owned();
        m.append(decimal(COMPLETION_WAIT_SECS as u128).as_str());
        m.append(
            " seconds.\nTreat this run as incomplete even if a partial .K file already exists.\nansys.out: ",
        );
        m.append(out_file);
        return WaitStep::GiveUp(m);
    }
    if ansys_out_indicates_completion(out_text) {
        WaitStep::Completed
    } else {
        WaitStep::Sleep
    }
}

/// What could be read of an exported deck.
#[derive(Debug)]
pub enum KFileText {
    /// All of it.
    Whole(String),
    /// Its beginning and its end.
    Ends { head: String, tail: String },
    /// Nothing: reading the beginning failed, with this message.
    NoHead(String),
    /// Nothing: reading the end failed, with this message.
    NoTail(String),
}

/// What is wrong with the size of a deck.
pub open spec fn k_size_issue(path: Seq<char>, len: u64) -> Option<Seq<char>> {
    if len == 0 {
        Some("The .K file is empty: "@ + path)
    } else if len > MAX_REASONABLE_K_FILE_BYTES {
        Some(
            "The .K file is unreasonably large for this bridge export and is likely a runaway partial write.\nFile: "@
                + path + "\nSize: "@ + decimal_text(len as nat)
                + " bytes\nStage 2 must not be accepted until the export ends cleanly with a compact, complete deck."@,
        )
    } else {
        None
    }
}

/// Checks the size of a deck.
pub fn k_file_size_issue(path: &str, len: u64) -> (r: Option<String>)
    ensures
        match r {
            Some(issue) => k_size_issue(path@, len) == Some(issue@),
            None => k_size_issue(path@, len) is None,
        },
{
    if len == 0 {
        let mut m = "The .K file is empty: ".to_owned();
        m.append(path);
        Some(m)
    } else if len > MAX_REASONABLE_K_FILE_BYTES {
        let mut m =
            "The .K file is unreasonably large for this bridge export and is likely a runaway partial write.\nFile: ".to_owned();
        m.append(path);
        m.append("\nSize: ");
        m.append(decimal(len as u128).as_str());
        m.append(
            " bytes\nStage 2 must not be accepted until the export ends cleanly with a compact, complete deck.",
        );
        Some(m)
    } else {
        None
    }
}

/// Those of `marks` that do not stand in `t`.
pub open spec fn absent_marks(t: Seq<char>, marks: Seq<Seq<char>>) -> Seq<Seq<char>>
    decreases marks.len(),
{
    if marks.len() == 0 {
        Seq::empty()
    } else {
        absent_marks(t, marks.drop_last()) + note_if(!has_text(t, marks.last()), marks.last())
    }
}

/// The keywords that the text of a deck lacks.
pub open spec fn k_marks_missing(t: Seq<char>) -> Seq<Seq<char>> {
    absent_marks(t, texts(K_FILE_MARKS@))
}

/// The upper-case text that is searched for the keywords.
pub open spec fn k_checked_text(text: KFileText) -> Seq<char> {
    match text {
        KFileText::Whole(t) => upper(t@),
        KFileText::Ends { head, tail } => upper(head@) + "\n"@ + upper(tail@),
        _ => Seq::empty(),
    }
}

/// What is wrong with the text of a deck.
pub open spec fn k_text_issue(path: Seq<char>, text: KFileText) -> Option<Seq<char>> {
    match text {
        KFileText::NoHead(error) => Some(
            "Failed to read the beginning of the .K file for validation: "@ + path + " ("@ + error@
                + ")"@,
        ),
        KFileText::NoTail(error) => Some(
            "Failed to read the end of the .K file for validation: "@ + path + " ("@ + error@
                + ")"@,
        ),
        _ => {
            let missing = k_marks_missing(k_checked_text(text));
            if missing.len() == 0 {
                None
            } else {
                Some(
                    "The .K file exists but does not look structurally complete yet.\nFile: "@
                        + path + "\nMissing required markers in the checked .K text: "@ + joined(
                        missing,
                        ", "@,
                    )
                        + "\nThis usually means the export is partial or wrote the wrong deck format."@,
                )
            }
        },
    }
}

/// The keywords that do not stand in `t`.
fn find_missing_marks(t: &Vec<char>) -> (missing: Vec<String>)
    ensures
        views(missing@) == k_marks_missing(t@),
{
    let marks = K_FILE_MARKS;
    let ghost all = texts(marks@);
    let mut missing: Vec<String> = Vec::new();
    for i in 0..7
        invariant
            marks@.len() == 7,
            all == texts(marks@),
            views(missing@) == absent_marks(t@, all.take(i as int)),
    {
        let mark = marks[i];
        proof {
            assert(all.take(i + 1).drop_last() =~= all.take(i as int));
            assert(all.take(i + 1).last() == mark@);
        }
        push_note(&mut missing, !chars_contain(t, mark), mark);
    }
    proof {
        assert(all.take(7) =~= all);
    }
    missing
}

/// Writes the message that reading a part of a deck failed.
fn read_failure(intro: &str, path: &str, error: &str) -> (r: String)
    ensures
        r@ == intro@ + path@ + " ("@ + error@ + ")"@,
{
    let mut r = intro.to_owned();
    r.append(path);
    r.append(" (");
    r.append(error);
    r.append(")");
    r
}

/// The upper-case text of the two ends of a deck.
fn join_ends(head: &str, tail: &str) -> (r: Vec<char>)
    ensures
        r@ == upper(head@) + "\n"@ + upper(tail@),
{
    let mut r = upper_chars(head);
    let mut feed = to_chars("\n");
    let mut end = upper_chars(tail);
    r.append(&mut feed);
    r.append(&mut end);
    r
}

/// Checks the text of a deck: all the keywords of a complete deck have to stand in it.
pub fn k_file_text_issue(path: &str, text: &KFileText) -> (r: Option<String>)
    ensures
        match r {
            Some(issue) => k_text_issue(path@, *text) == Some(issue@),
            None => k_text_issue(path@, *text) is None,
        },
{
    let checked = match text {
        KFileText::NoHead(error) => {
            return Some(
                read_failure(
                    "Failed to read the beginning of the .K file for validation: ",
                    path,
                    error,
                ),
            );
        },
        KFileText::NoTail(error) => {
            return Some(
                read_failure("Failed to read the end of the .K file for validation: ", path, error),
            );
        },
        KFileText::Whole(t) => upper_chars(t),
        KFileText::Ends { head, tail } => join_ends(head, tail),
    };
    let missing = find_missing_marks(&checked);
    if missing.len() == 0 {
        return None;
    }
    let mut m = "The .K file exists but does not look structurally complete yet.\nFile: ".to_owned();
    m.append(path);
    m.append("\nMissing required markers in the checked .K text: ");
    m.append(join(&missing, ", ").as_str());
    m.append("\nThis usually means the export is partial or wrote the wrong deck format.");
    Some(m)
}

/// What is wrong with a deck.
pub open spec fn k_issue(path: Seq<char>, size: Result<u64, Seq<char>>, text: KFileText) -> Option<
    Seq<char>,
> {
    match size {
        Err(error) => Some(
            "A .K file path was detected but metadata could not be read: "@ + path + " ("@ + error
                + ")"@,
        ),
        Ok(len) => match k_size_issue(path, len) {
            Some(issue) => Some(issue),
            None => k_text_issue(path, text),
        },
    }
}

/// The size of a file, or the message that it could not be had.
pub open spec fn size_of_file(size: Result<u64, String>) -> Result<u64, Seq<char>> {
    match size {
        Ok(len) => Ok(len),
        Err(error) => Err(error@),
    }
}

/// Checks a deck, given its size and what could be read of it. The text is only looked at where
/// the size is in order.
pub fn validate_k_file(path: &str, size: &Result<u64, String>, text: &KFileText) -> (r: Option<
    String,
>)
    ensures
        match r {
            Some(issue) => k_issue(path@, size_of_file(*size), *text) == Some(issue@),
            None => k_issue(path@, size_of_file(*size), *text) is None,
        },
{
    match size {
        Err(error) => Some(
            read_failure(
                "A .K file path was detected but metadata could not be read: ",
                path,
                error,
            ),
        ),
        Ok(len) => match k_file_size_issue(path, *len) {
            Some(issue) => Some(issue),
            None => k_file_text_issue(path, text),
        },
    }
}

/// A deck that passes is neither empty nor too large, and holds every keyword of a complete one.
pub proof fn law_accepted_deck_is_complete(
    path: Seq<char>,
    size: Result<u64, Seq<char>>,
    text: KFileText,
)
    requires
        k_issue(path, size, text) is None,
    ensures
        size is Ok,
        0 < size->Ok_0 <= MAX_REASONABLE_K_FILE_BYTES,
        text is Whole || text is Ends,
        forall|i: int|
            0 <= i < K_FILE_MARKS@.len() ==> has_text(
                k_checked_text(text),
                #[trigger] texts(K_FILE_MARKS@)[i],
            ),
{
    lemma_no_absent_marks(k_checked_text(text), texts(K_FILE_MARKS@));
}

proof fn lemma_no_absent_marks(t: Seq<char>, marks: Seq<Seq<char>>)
    requires
        absent_marks(t, marks).len() == 0,
    ensures
        forall|i: int| 0 <= i < marks.len() ==> has_text(t, #[trigger] marks[i]),
    decreases marks.len(),
{
    if marks.len() > 0 {
        lemma_no_absent_marks(t, marks.drop_last());
        assert forall|i: int| 0 <= i < marks.len() implies has_text(t, #[trigger] marks[i]) by {
            if i < marks.len() - 1 {
                assert(marks[i] == marks.drop_last()[i]);
            }
        }
    }
}

/// Where in a file of `len` bytes the last `max_bytes` begin.
pub fn tail_start(len: u64, max_bytes: u64) -> (r: u64)
    ensures
        r == if len > max_bytes {
            len - max_bytes
        } else {
            0
        },
{
    len.saturating_sub(max_bytes)
}

/// What came out of an export attempt.
#[derive(Debug)]
pub enum KFileState {
    /// There is no deck.
    Absent,
    /// There is one, and this is wrong with it.
    Flawed(String),
    /// There is one that passed [`validate_k_file`].
    Sound,
}

/// A state is that of a deck that was found, given its size and what could be read of it.
pub open spec fn is_deck_state(
    state: KFileState,
    path: Seq<char>,
    size: Result<u64, Seq<char>>,
    text: KFileText,
) -> bool {
    match state {
        KFileState::Absent => false,
        KFileState::Flawed(issue) => k_issue(path, size, text) == Some(issue@),
        KFileState::Sound => k_issue(path, size, text) is None,
    }
}

/// Checks a deck that was found, given its size and what could be read of it.
pub fn check_deck(path: &str, size: &Result<u64, String>, text: &KFileText) -> (r: KFileState)
    ensures
        !(r is Absent),
        r is Sound <==> k_issue(path@, size_of_file(*size), *text) is None,
        r matches KFileState::Flawed(issue) ==> k_issue(path@, size_of_file(*size), *text) == Some(
            issue@,
        ),
        is_deck_state(r, path@, size_of_file(*size), *text),
{
    match validate_k_file(path, size, text) {
        Some(issue) => KFileState::Flawed(issue),
        None => KFileState::Sound,
    }
}

/// The first part of the message on an export that is not accepted.
pub const EXPORT_INTRO: &'static str =
    "Stage 2 export validation failed even though the .err file did not report blocking issues.\n\n";

/// The message on a run whose end is not seen.
pub open spec fn incomplete_issue(out_file: Seq<char>) -> Seq<char> {
    "ANSYS output did not reach a clear completion marker yet.\nThis usually means the launcher returned before the real Stage 2 batch work finished, or the export path is still stuck inside a long-running write loop.\nansys.out: "@
        + out_file
}

/// The message on a missing deck.
pub open spec fn no_deck_issue(k_dir: Seq<char>) -> Seq<char> {
    "No .K file was produced in the configured k directory.\nTarget k directory: "@ + k_dir
        + "\nThe repaired Stage 2 APDL must resume or reuse the Stage 1 model and add the correct export workflow so a final .K file appears there."@
}

/// What is wrong with an export, in the order of the report.
pub open spec fn export_issues(
    complete: bool,
    k_file: KFileState,
    out_file: Seq<char>,
    k_dir: Seq<char>,
) -> Seq<Seq<char>> {
    note_if(!complete, incomplete_issue(out_file)) + match k_file {
        KFileState::Absent => seq![no_deck_issue(k_dir)],
        KFileState::Flawed(issue) => seq![issue@],
        KFileState::Sound => Seq::empty(),
    }
}

/// The report on an export that is not accepted.
pub open spec fn export_issue(
    complete: bool,
    k_file: KFileState,
    out_file: Seq<char>,
    k_dir: Seq<char>,
) -> Option<Seq<char>> {
    let issues = export_issues(complete, k_file, out_file, k_dir);
    if issues.len() == 0 {
        None
    } else {
        Some(EXPORT_INTRO@ + joined(issues, "\n\n"@))
    }
}

/// Checks an export: the run has to be over and to have left a sound deck.
pub fn validate_stage2_export_requirements(
    complete: bool,
    k_file: &KFileState,
    out_file: &str,
    k_dir: &str,
) -> (r: Option<String>)
    ensures
        match r {
            Some(issue) => export_issue(complete, *k_file, out_file@, k_dir@) == Some(issue@),
            None => export_issue(complete, *k_file, out_file@, k_dir@) is None,
        },
        r is None <==> complete && *k_file is Sound,
{
    let mut issues: Vec<String> = Vec::new();
    let mut m =
        "ANSYS output did not reach a clear completion marker yet.\nThis usually means the launcher returned before the real Stage 2 batch work finished, or the export path is still stuck inside a long-running write loop.\nansys.out: ".to_owned();
    m.append(out_file);
    push_note(&mut issues, !complete, &m);
    match k_file {
        KFileState::Absent => {
            let mut m =
                "No .K file was produced in the configured k directory.\nTarget k directory: ".to_owned();
            m.append(k_dir);
            m.append(
                "\nThe repaired Stage 2 APDL must resume or reuse the Stage 1 model and add the correct export workflow so a final .K file appears there.",
            );
            push_note(&mut issues, true, &m);
        },
        KFileState::Flawed(issue) => {
            push_note(&mut issues, true, issue);
        },
        KFileState::Sound => {},
    }
    proof {
        assert(views(issues@) =~= export_issues(complete, *k_file, out_file@, k_dir@));
    }
    if issues.len() == 0 {
        return None;
    }
    let mut r = EXPORT_INTRO.to_owned();
    r.append(join(&issues, "\n\n").as_str());
    Some(r)
}

/// A command stream of the first stage passes if and only if it lacks nothing.
pub proof fn law_stage1_needs_a_mesh(apdl: Seq<char>)
    ensures
        stage1_issue(apdl) is None <==> {
            &&& begins_a_line(upper(apdl), "ET,"@, "\nET,"@)
            &&& begins_a_line(upper(apdl), "TYPE,"@, "\nTYPE,"@)
            &&& has_any(upper(apdl), texts(MESH_SIZE_COMMANDS@))
            &&& has_any(upper(apdl), texts(MESH_COMMANDS@))
        },
{
}

/// A deck whose whole text could be read passes if and only if its size is in order and every
/// keyword of a complete deck stands somewhere in that text, in any case.
pub proof fn law_complete_deck_passes(path: Seq<char>, len: u64, t: String)
    ensures
        k_issue(path, Ok(len), KFileText::Whole(t)) is None <==> {
            &&& 0 < len <= 262_144_000
            &&& has_text(upper(t@), "*KEYWORD"@)
            &&& has_text(upper(t@), "*NODE"@)
            &&& has_text(upper(t@), "*ELEMENT"@)
            &&& has_text(upper(t@), "*PART"@)
            &&& has_text(upper(t@), "*SECTION"@)
            &&& has_text(upper(t@), "*MAT"@)
            &&& has_text(upper(t@), "*END"@)
        },
{
    lemma_marks_decide_text(upper(t@));
}

/// A deck of which only the two ends could be read passes if every keyword of a complete deck
/// stands in one of them; and where none of the two and nothing across them holds a keyword, it
/// does not.
pub proof fn law_deck_ends_pass(path: Seq<char>, len: u64, head: String, tail: String)
    requires
        0 < len <= 262_144_000,
    ensures
        (forall|i: int|
            0 <= i < 7 ==> has_text(upper(head@), #[trigger] texts(K_FILE_MARKS@)[i]) || has_text(
                upper(tail@),
                texts(K_FILE_MARKS@)[i],
            )) ==> k_issue(path, Ok(len), KFileText::Ends { head, tail }) is None,
        k_issue(path, Ok(len), KFileText::Ends { head, tail }) is None ==> forall|i: int|
            0 <= i < 7 ==> has_text(
                upper(head@) + "\n"@ + upper(tail@),
                #[trigger] texts(K_FILE_MARKS@)[i],
            ),
{
    let all = upper(head@) + "\n"@ + upper(tail@);
    let marks = texts(K_FILE_MARKS@);
    lemma_marks_decide(all, marks);
    if forall|i: int|
        0 <= i < 7 ==> has_text(upper(head@), #[trigger] texts(K_FILE_MARKS@)[i]) || has_text(
            upper(tail@),
            texts(K_FILE_MARKS@)[i],
        ) {
        assert forall|i: int| 0 <= i < marks.len() implies has_text(all, #[trigger] marks[i]) by {
            if has_text(upper(head@), marks[i]) {
                lemma_appended_occurs(upper(head@), "\n"@, marks[i]);
                lemma_appended_occurs(upper(head@) + "\n"@, upper(tail@), marks[i]);
            } else {
                assert(all =~= (upper(head@) + "\n"@) + upper(tail@) + Seq::empty());
                lemma_middle_occurs(upper(head@) + "\n"@, upper(tail@), Seq::empty());
                lemma_part_of_part(all, upper(tail@), marks[i]);
            }
        }
    }
}

/// A deck of which nothing could be read, or not even its size, never passes.
pub proof fn law_unread_deck_fails(path: Seq<char>, len: u64, error: String, text: KFileText)
    ensures
        k_issue(path, Err(error@), text) is Some,
        k_issue(path, Ok(len), KFileText::NoHead(error)) is Some,
        k_issue(path, Ok(len), KFileText::NoTail(error)) is Some,
        k_issue(path, Ok(0), text) is Some,
        len > 262_144_000 ==> k_issue(path, Ok(len), text) is Some,
{
}

proof fn lemma_marks_decide(t: Seq<char>, marks: Seq<Seq<char>>)
    ensures
        absent_marks(t, marks).len() == 0 <==> forall|i: int|
            0 <= i < marks.len() ==> has_text(t, #[trigger] marks[i]),
    decreases marks.len(),
{
    if marks.len() > 0 {
        let head = marks.drop_last();
        let n = marks.len() - 1;
        lemma_marks_decide(t, head);
        if absent_marks(t, marks).len() == 0 {
            lemma_no_absent_marks(t, marks);
        }
        if forall|i: int| 0 <= i < marks.len() ==> has_text(t, #[trigger] marks[i]) {
            assert(has_text(t, marks[n]));
            assert forall|i: int| 0 <= i < head.len() implies has_text(t, #[trigger] head[i]) by {
                assert(head[i] == marks[i]);
            }
        }
    }
}

proof fn lemma_marks_decide_text(t: Seq<char>)
    ensures
        k_marks_missing(t).len() == 0 <==> {
            &&& has_text(t, "*KEYWORD"@)
            &&& has_text(t, "*NODE"@)
            &&& has_text(t, "*ELEMENT"@)
            &&& has_text(t, "*PART"@)
            &&& has_text(t, "*SECTION"@)
            &&& has_text(t, "*MAT"@)
            &&& has_text(t, "*END"@)
        },
{
    let marks = texts(K_FILE_MARKS@);
    lemma_marks_decide(t, marks);
    assert(marks.len() == 7);
    assert(marks[0] == "*KEYWORD"@ && marks[1] == "*NODE"@ && marks[2] == "*ELEMENT"@ && marks[3]
        == "*PART"@ && marks[4] == "*SECTION"@ && marks[5] == "*MAT"@ && marks[6] == "*END"@);
}

/// What a command stream of the first stage has to hold, each at the beginning of a line and in
/// any case: an element type and its assignment, a mesh size, and a mesh. Nothing else is asked.
pub proof fn law_stage1_asks_for(apdl: Seq<char>)
    ensures
        stage1_issue(apdl) is None <==> {
            let t = upper(apdl);
            &&& has_text(t, "\nET,"@) || begins_with(t, "ET,"@)
            &&& has_text(t, "\nTYPE,"@) || begins_with(t, "TYPE,"@)
            &&& {
                ||| has_text(t, "\nESIZE,"@)
                ||| has_text(t, "\nLESIZE,"@)
                ||| has_text(t, "\nAESIZE,"@)
                ||| has_text(t, "\nSMRTSIZE,"@)
            }
            &&& {
                ||| has_text(t, "\nVMESH,"@)
                ||| has_text(t, "\nAMESH,"@)
                ||| has_text(t, "\nVSWEEP,"@)
                ||| has_text(t, "\nFVMESH,"@)
            }
        },
{
    let t = upper(apdl);
    let sizes = texts(MESH_SIZE_COMMANDS@);
    let meshes = texts(MESH_COMMANDS@);
    assert(sizes.len() == 4 && meshes.len() == 4);
    assert(sizes[0] == "\nESIZE,"@ && sizes[1] == "\nLESIZE,"@ && sizes[2] == "\nAESIZE,"@
        && sizes[3] == "\nSMRTSIZE,"@);
    assert(meshes[0] == "\nVMESH,"@ && meshes[1] == "\nAMESH,"@ && meshes[2] == "\nVSWEEP,"@
        && meshes[3] == "\nFVMESH,"@);
    law_stage1_needs_a_mesh(apdl);
}

/// A refused command stream of the first stage is told of everything that it lacks.
pub proof fn law_stage1_report_names_lacks(apdl: Seq<char>)
    ensures
        stage1_issue(apdl) matches Some(report) ==> {
            let t = upper(apdl);
            &&& !has_text(t, "\nET,"@) && !begins_with(t, "ET,"@) ==> has_text(
                report,
                "missing ET definition"@,
            )
            &&& !has_text(t, "\nTYPE,"@) && !begins_with(t, "TYPE,"@) ==> has_text(
                report,
                "missing TYPE assignment"@,
            )
            &&& !has_any(t, texts(MESH_SIZE_COMMANDS@)) ==> has_text(
                report,
                "missing mesh sizing command such as ESIZE/LESIZE/AESIZE"@,
            )
            &&& !has_any(t, texts(MESH_COMMANDS@)) ==> has_text(
                report,
                "missing actual mesh generation command such as VMESH/AMESH/VSWEEP"@,
            )
        },
{
    if let Some(report) = stage1_issue(apdl) {
        let missing = stage1_missing(apdl);
        let body = joined(missing, "\n- "@);
        lemma_middle_occurs(STAGE1_INTRO@, body, STAGE1_CLOSE@);
        assert forall|i: int| 0 <= i < missing.len() implies has_text(
            report,
            #[trigger] missing[i],
        ) by {
            law_joined_holds_parts(missing, "\n- "@, i);
            lemma_part_of_part(report, body, missing[i]);
        }
        let t = upper(apdl);
        let a = note_if(!begins_a_line(t, "ET,"@, "\nET,"@), "missing ET definition"@);
        let b = note_if(!begins_a_line(t, "TYPE,"@, "\nTYPE,"@), "missing TYPE assignment"@);
        let c = note_if(
            !has_any(t, texts(MESH_SIZE_COMMANDS@)),
            "missing mesh sizing command such as ESIZE/LESIZE/AESIZE"@,
        );
        let d = note_if(
            !has_any(t, texts(MESH_COMMANDS@)),
            "missing actual mesh generation command such as VMESH/AMESH/VSWEEP"@,
        );
        assert(missing == a + b + c + d);
        if a.len() > 0 {
            assert(missing[0] == a[0]);
        }
        if b.len() > 0 {
            assert(missing[a.len() as int] == b[0]);
        }
        if c.len() > 0 {
            assert(missing[(a.len() + b.len()) as int] == c[0]);
        }
        if d.len() > 0 {
            assert(missing[(a.len() + b.len() + c.len()) as int] == d[0]);
        }
    }
}

/// A command stream writes the deck by hand if and only if it holds a command that writes a file
/// line by line and a keyword of the deck, both in any case and anywhere.
pub proof fn law_hand_written_decks(apdl: Seq<char>)
    ensures
        writes_deck_by_hand(apdl) <==> {
            let t = upper(apdl);
            &&& {
                ||| has_text(t, "*CFOPEN"@)
                ||| has_text(t, "*CFWRITE"@)
                ||| has_text(t, "*VWRITE"@)
            }
            &&& {
                ||| has_text(t, "*KEYWORD"@)
                ||| has_text(t, "*NODE"@)
                ||| has_text(t, "*ELEMENT_SOLID"@)
                ||| has_text(t, "*MAT_"@)
                ||| has_text(t, "*PART"@)
            }
        },
{
    let writes = texts(FILE_WRITE_COMMANDS@);
    let marks = texts(KEYWORD_DUMP_MARKS@);
    assert(writes.len() == 3 && marks.len() == 5);
    assert(writes[0] == "*CFOPEN"@ && writes[1] == "*CFWRITE"@ && writes[2] == "*VWRITE"@);
    assert(marks[0] == "*KEYWORD"@ && marks[1] == "*NODE"@ && marks[2] == "*ELEMENT_SOLID"@
        && marks[3] == "*MAT_"@ && marks[4] == "*PART"@);
}

/// A run is over if and only if its output can be read and holds, anywhere, one of the marks that
/// ANSYS writes at the end.
pub proof fn law_end_of_run(out_text: Option<Seq<char>>)
    ensures
        is_complete(out_text) <==> (out_text matches Some(t) && {
            ||| has_text(t, "ANSYS RUN COMPLETED"@)
            ||| has_text(t, "END OF INPUT ENCOUNTERED"@)
            ||| has_text(t, "E N D   A N S Y S   S T A T I S T I C S"@)
        }),
{
    let marks = texts(COMPLETION_MARKS@);
    assert(marks.len() == 3);
    assert(marks[0] == "ANSYS RUN COMPLETED"@ && marks[1] == "END OF INPUT ENCOUNTERED"@
        && marks[2] == "E N D   A N S Y S   S T A T I S T I C S"@);
}

/// An export is accepted if and only if its run is over and its deck is sound; else the report
/// names what is wrong: the output of a run that is not over, the place of a deck that is not
/// there, and all that is wrong with one that is.
pub proof fn law_export_report_tells(
    complete: bool,
    k_file: KFileState,
    out_file: Seq<char>,
    k_dir: Seq<char>,
)
    ensures
        export_issue(complete, k_file, out_file, k_dir) is None <==> complete && k_file is Sound,
        export_issue(complete, k_file, out_file, k_dir) matches Some(report) ==> {
            &&& !complete ==> has_text(report, out_file)
            &&& k_file is Absent ==> has_text(report, k_dir)
            &&& k_file matches KFileState::Flawed(issue) ==> has_text(report, issue@)
        },
{
    if let Some(report) = export_issue(complete, k_file, out_file, k_dir) {
        let issues = export_issues(complete, k_file, out_file, k_dir);
        let body = joined(issues, "\n\n"@);
        assert(report =~= EXPORT_INTRO@ + body + Seq::empty());
        lemma_middle_occurs(EXPORT_INTRO@, body, Seq::empty());
        assert forall|i: int| 0 <= i < issues.len() implies has_text(
            report,
            #[trigger] issues[i],
        ) by {
            law_joined_holds_parts(issues, "\n\n"@, i);
            lemma_part_of_part(report, body, issues[i]);
        }
        if !complete {
            let own = incomplete_issue(out_file);
            assert(issues[0] == own);
            let before = own.take(own.len() - out_file.len());
            assert(own =~= before + out_file + Seq::empty());
            lemma_middle_occurs(before, out_file, Seq::empty());
            lemma_part_of_part(report, own, out_file);
        }
        if k_file is Absent {
            let own = no_deck_issue(k_dir);
            assert(issues.last() == own);
            lemma_middle_occurs(
                "No .K file was produced in the configured k directory.\nTarget k directory: "@,
                k_dir,
                "\nThe repaired Stage 2 APDL must resume or reuse the Stage 1 model and add the correct export workflow so a final .K file appears there."@,
            );
            lemma_part_of_part(report, own, k_dir);
        }
        if let KFileState::Flawed(issue) = k_file {
            assert(issues.last() == issue@);
        }
    }
}

/// The report on an incomplete deck names the file and each keyword that does not stand in what
/// could be read of it.
pub proof fn law_incomplete_deck_is_described(path: Seq<char>, text: KFileText, i: int)
    requires
        text is Whole || text is Ends,
        0 <= i < 7,
        !has_text(k_checked_text(text), texts(K_FILE_MARKS@)[i]),
    ensures
        k_text_issue(path, text) is Some,
        has_text(k_text_issue(path, text)->0, "\nFile: "@ + path),
        has_text(k_text_issue(path, text)->0, texts(K_FILE_MARKS@)[i]),
{
    let marks = texts(K_FILE_MARKS@);
    let missing = k_marks_missing(k_checked_text(text));
    lemma_absent_mark_is_listed(k_checked_text(text), marks, i);
    let k = choose|k: int| 0 <= k < missing.len() && missing[k] == marks[i];
    law_joined_holds_parts(missing, ", "@, k);
    let open = "The .K file exists but does not look structurally complete yet.\nFile: "@;
    let label = "\nMissing required markers in the checked .K text: "@;
    let list = joined(missing, ", "@);
    let close =
        "\nThis usually means the export is partial or wrote the wrong deck format."@;
    let issue = k_text_issue(path, text)->0;
    assert(issue == open + path + label + list + close);
    reveal_strlit("The .K file exists but does not look structurally complete yet.\nFile: ");
    reveal_strlit("\nFile: ");
    let intro = open.take(open.len() - 7);
    assert(issue =~= intro + ("\nFile: "@ + path) + (label + list + close));
    lemma_middle_occurs(intro, "\nFile: "@ + path, label + list + close);
    assert(issue =~= (open + path + label) + list + close);
    lemma_middle_occurs(open + path + label, list, close);
    lemma_part_of_part(issue, list, marks[i]);
}

proof fn lemma_absent_mark_is_listed(t: Seq<char>, marks: Seq<Seq<char>>, i: int)
    requires
        0 <= i < marks.len(),
        !has_text(t, marks[i]),
    ensures
        absent_marks(t, marks).contains(marks[i]),
    decreases marks.len(),
{
    let all = absent_marks(t, marks);
    let head = absent_marks(t, marks.drop_last());
    if i == marks.len() - 1 {
        assert(all[head.len() as int] == marks[i]);
    } else {
        lemma_absent_mark_is_listed(t, marks.drop_last(), i);
        let k = choose|k: int| 0 <= k < head.len() && head[k] == marks[i];
        assert(all[k] == head[k]);
    }
}

/// The state of a deck that was found tells whether something is wrong with it, and what.
pub proof fn law_deck_states_tell_soundness(
    state: KFileState,
    path: Seq<char>,
    size: Result<u64, Seq<char>>,
    text: KFileText,
)
    requires
        is_deck_state(state, path, size, text),
    ensures
        !(state is Absent),
        state is Sound <==> k_issue(path, size, text) is None,
        state is Flawed ==> k_issue(path, size, text) == Some(state->Flawed_0@),
{
}

/// A run that does not end is given up with the name of its output and the 90 seconds waited.
pub proof fn law_timeouts_tell_output(out_file: Seq<char>)
    ensures
        ends_in(timeout_issue(out_file), "\nansys.out: "@ + out_file),
        has_text(timeout_issue(out_file), " within 90 seconds."@),
{
    let open = "ANSYS execution did not reach the standard completion marker within "@;
    let close =
        " seconds.\nTreat this run as incomplete even if a partial .K file already exists.\nansys.out: "@;
    reveal_strlit("ANSYS execution did not reach the standard completion marker within ");
    reveal_strlit(
        " seconds.\nTreat this run as incomplete even if a partial .K file already exists.\nansys.out: ",
    );
    reveal_strlit("\nansys.out: ");
    reveal_strlit(" within 90 seconds.");
    reveal_with_fuel(decimal_text, 3);
    let t = timeout_issue(out_file);
    let tail = "\nansys.out: "@ + out_file;
    assert(decimal_text(90) =~= seq!['9', '0']);
    assert(t.subrange(t.len() - tail.len(), t.len() as int) =~= tail);
    let part = " within 90 seconds."@;
    let before = open.take(open.len() - 8);
    let after = close.skip(9) + out_file;
    assert(t =~= before + part + after);
    lemma_middle_occurs(before, part, after);
}

} // verus!
