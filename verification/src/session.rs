//! Sessions: new ones, those that can be resumed, and what is shown of them.

use vstd::prelude::*;

use crate::clip::{preview, preview_text};
use crate::history::{last_user, law_last_user_is_last, HistoryEntry, HistoryFile, HISTORY_VERSION};
use crate::number::{decimal, decimal_text, number_in, parse_usize};
use crate::order::{
    in_order, law_sort_orders, law_sort_permutes, reverse, sort_stable, Ranked,
};
use crate::text::{ends_in, is_blank, same_text, text_in, trim, trimmed, views};
use crate::tools::{
    displayed, normalize_tool_content_for_display, says_success, tool_content_success,
};
use crate::ui::{
    role_prefix, role_prefix_of, style, styled, tool_result_of, tool_result_text, COLOR_BLUE,
    COLOR_BOLD, COLOR_GREEN, COLOR_YELLOW,
};

verus! {

/// The directory of the sessions, below that for temporary files.
pub const SESSIONS_DIR: &'static str = "mini-codex-sessions";

/// The error where there is nothing to resume.
pub const NO_SESSIONS: &'static str = "no previous sessions found for this workspace";

/// The line above the list of sessions.
pub const SESSIONS_TITLE: &'static str = "available sessions:";

/// How many characters of the last prompt the list shows.
pub const PROMPT_PREVIEW_CHARS: usize = 100;

/// What the list shows where no prompt was given yet.
pub const NO_PROMPT: &'static str = "(no user prompt yet)";

/// A session that was found.
#[derive(Debug)]
pub struct SessionSummary {
    /// The number by which its file is found again.
    pub slot: usize,
    pub history: HistoryFile,
}

/// A new history, for a process that starts at `started_ms` and is first active at `active_ms`.
pub fn new_session(workspace_root: &str, started_ms: u128, process: u32, active_ms: u128) -> (r:
    HistoryFile)
    ensures
        r.version == HISTORY_VERSION,
        r.session_id@ == "session-"@ + decimal_text(started_ms as nat) + "-"@ + decimal_text(
            process as nat,
        ),
        r.workspace_root@ == workspace_root@,
        r.last_active_at_ms == active_ms,
        r.total_input_tokens == 0,
        r.total_output_tokens == 0,
        r.total_tokens == 0,
        r.entries@ == Seq::<HistoryEntry>::empty(),
{
    let mut session_id = "session-".to_owned();
    session_id.append(decimal(started_ms).as_str());
    session_id.append("-");
    session_id.append(decimal(process as u128).as_str());
    HistoryFile {
        version: HISTORY_VERSION,
        session_id,
        workspace_root: workspace_root.to_owned(),
        last_active_at_ms: active_ms,
        total_input_tokens: 0,
        total_output_tokens: 0,
        total_tokens: 0,
        entries: Vec::new(),
    }
}

/// The name of the file of a session.
pub fn session_file_name(session_id: &str) -> (r: String)
    ensures
        r@ == session_id@ + ".json"@,
{
    let mut r = session_id.to_owned();
    r.append(".json");
    r
}

/// Tells whether a file may hold a session, by its extension.
pub fn is_session_file(extension: Option<&str>) -> (r: bool)
    ensures
        r == (text_in(extension) == Some("json"@)),
{
    match extension {
        Some(extension) => same_text(extension, "json"),
        None => false,
    }
}

impl Ranked for SessionSummary {
    open spec fn precedes(self, other: Self) -> bool {
        self.history.last_active_at_ms > other.history.last_active_at_ms
    }

    fn goes_before(&self, other: &Self) -> (r: bool) {
        self.history.last_active_at_ms > other.history.last_active_at_ms
    }

    proof fn order_laws(a: Self, b: Self, c: Self) {
    }
}

/// Membership in a workspace.
pub open spec fn belongs_to(workspace: Seq<char>) -> spec_fn(SessionSummary) -> bool {
    |s: SessionSummary| s.history.workspace_root@ == workspace
}

/// The sessions of a workspace, in the order in which they were found.
pub open spec fn of_workspace(found: Seq<SessionSummary>, workspace: Seq<char>) -> Seq<
    SessionSummary,
> {
    found.filter(belongs_to(workspace))
}

/// The sessions of a workspace, the one that was active last first.
pub fn list_sessions(found: Vec<SessionSummary>, workspace: &str) -> (r: Vec<SessionSummary>)
    ensures
        r@ == in_order(of_workspace(found@, workspace@)),
{
    let ghost all = found@;
    let ghost own = belongs_to(workspace@);
    let mut reversed = reverse(found);
    let mut kept: Vec<SessionSummary> = Vec::new();
    proof {
        assert(all.take(0) =~= Seq::empty());
        reveal(Seq::filter);
        assert(all.take(0).filter(own) =~= Seq::empty());
    }
    while reversed.len() > 0
        invariant
            reversed@.len() <= all.len(),
            reversed@ == all.reverse().take(reversed@.len() as int),
            own == belongs_to(workspace@),
            kept@ == all.take(all.len() - reversed@.len()).filter(own),
        decreases reversed@.len(),
    {
        let ghost m = all.len() - reversed@.len();
        if let Some(session) = reversed.pop() {
            proof {
                assert(session == all[m]);
                assert(all.take(m + 1).drop_last() =~= all.take(m));
                assert(all.take(m + 1).last() == session);
                reveal(Seq::filter);
            }
            if same_text(&session.history.workspace_root, workspace) {
                kept.push(session);
            }
        }
    }
    proof {
        assert(all.take(all.len() as int) =~= all);
    }
    sort_stable(kept)
}

/// Only sessions of the workspace are listed, and all of them; none was active later than one
/// before it.
pub proof fn law_sessions_newest_first(found: Seq<SessionSummary>, workspace: Seq<char>)
    ensures
        ({
            let listed = in_order(of_workspace(found, workspace));
            &&& forall|i: int, j: int|
                0 <= i < j < listed.len() ==> (#[trigger] listed[i]).history.last_active_at_ms >= (
                #[trigger] listed[j]).history.last_active_at_ms
            &&& forall|s: SessionSummary| #[trigger]
                listed.contains(s) <==> found.contains(s) && s.history.workspace_root@ == workspace
        }),
{
    broadcast use vstd::seq_lib::group_to_multiset_ensures;

    let own = of_workspace(found, workspace);
    let listed = in_order(own);
    law_sort_orders(own);
    law_sort_permutes(own);
    assert forall|i: int, j: int| 0 <= i < j < listed.len() implies (
    #[trigger] listed[i]).history.last_active_at_ms >= (
    #[trigger] listed[j]).history.last_active_at_ms by {
        assert(!listed[j].precedes(listed[i]));
    }
    let pred = belongs_to(workspace);
    assert forall|s: SessionSummary| #[trigger]
        listed.contains(s) <==> found.contains(s) && s.history.workspace_root@ == workspace by {
        assert(listed.contains(s) <==> listed.to_multiset().count(s) > 0);
        assert(own.contains(s) <==> own.to_multiset().count(s) > 0);
        if own.contains(s) {
            let i = choose|i: int| 0 <= i < own.len() && own[i] == s;
            found.lemma_filter_pred(pred, i);
            found.lemma_filter_contains_rev(pred, s);
        }
        if found.contains(s) && pred(s) {
            let i = choose|i: int| 0 <= i < found.len() && found[i] == s;
            found.lemma_filter_contains(pred, i);
        }
    }
}

/// The session that was active last.
pub fn resume_last(sessions: Vec<SessionSummary>) -> (r: Result<SessionSummary, String>)
    ensures
        match r {
            Ok(session) => sessions@.len() > 0 && session == sessions@[0],
            Err(message) => sessions@.len() == 0 && message@ == NO_SESSIONS@,
        },
{
    let mut sessions = sessions;
    if sessions.len() == 0 {
        return Err(NO_SESSIONS.to_owned());
    }
    Ok(sessions.remove(0))
}

/// What an answer to the question for a session means.
#[derive(Debug)]
pub enum SessionChoice {
    /// The session at this index.
    Pick(usize),
    /// The question is asked again, after this message.
    AskAgain(String),
    /// It is no number; this is the error.
    Invalid(String),
}

/// Reads the answer to the question for one of `count` sessions.
pub fn choose_session(line: &str, count: usize) -> (r: SessionChoice)
    ensures
        match r {
            SessionChoice::Pick(index) => index < count && number_in(trimmed(line@)) == Some(
                (index + 1) as nat,
            ),
            SessionChoice::AskAgain(message) => {
                &&& number_in(trimmed(line@)) matches Some(n) && n <= usize::MAX && !(1 <= n
                    <= count)
                &&& message@ == "please enter a number between 1 and "@ + decimal_text(
                    count as nat,
                )
            },
            SessionChoice::Invalid(message) => {
                &&& !(number_in(trimmed(line@)) matches Some(n) && n <= usize::MAX)
                &&& message@ == "invalid session selection: "@ + trimmed(line@)
            },
        },
{
    let answer = trim(line);
    match parse_usize(&answer) {
        Some(n) => if 1 <= n && n <= count {
            SessionChoice::Pick(n - 1)
        } else {
            let mut message = "please enter a number between 1 and ".to_owned();
            message.append(decimal(count as u128).as_str());
            SessionChoice::AskAgain(message)
        },
        None => {
            let mut message = "invalid session selection: ".to_owned();
            message.append(&answer);
            SessionChoice::Invalid(message)
        },
    }
}

/// The question for a session.
pub fn session_question(count: usize) -> (r: String)
    ensures
        r@ == "resume which session? [1-"@ + decimal_text(count as nat) + "]> "@,
{
    let mut r = "resume which session? [1-".to_owned();
    r.append(decimal(count as u128).as_str());
    r.append("]> ");
    r
}

/// The last prompt, as the list shows it.
pub open spec fn prompt_preview(entries: Seq<HistoryEntry>) -> Seq<char> {
    match last_user(entries) {
        Some(text) => preview(text, PROMPT_PREVIEW_CHARS as nat),
        None => NO_PROMPT@,
    }
}

/// Shows the last prompt of a session.
pub fn format_last_user_prompt(history: &HistoryFile) -> (r: String)
    ensures
        r@ == prompt_preview(history.entries@),
{
    match history.last_user_content() {
        Some(text) => preview_text(&text, PROMPT_PREVIEW_CHARS),
        None => NO_PROMPT.to_owned(),
    }
}

/// The lines about a session in the list.
pub open spec fn session_lines_of(
    number: nat,
    history: HistoryFile,
    last_active: Seq<char>,
    path: Seq<char>,
) -> Seq<Seq<char>> {
    seq![
        "  "@ + decimal_text(number) + ". "@ + history.session_id@,
        "     last active: "@ + last_active,
        "     last prompt: "@ + prompt_preview(history.entries@),
        "     path: "@ + path,
    ]
}

/// Writes the lines about the session at an index of the list.
pub fn session_lines(index: usize, history: &HistoryFile, last_active: &str, path: &str) -> (r: Vec<
    String,
>)
    requires
        index < usize::MAX,
    ensures
        views(r@) == session_lines_of((index + 1) as nat, *history, last_active@, path@),
{
    let mut title = "  ".to_owned();
    title.append(decimal((index + 1) as u128).as_str());
    title.append(". ");
    title.append(&history.session_id);
    let mut active = "     last active: ".to_owned();
    active.append(last_active);
    let mut prompt = "     last prompt: ".to_owned();
    prompt.append(format_last_user_prompt(history).as_str());
    let mut place = "     path: ".to_owned();
    place.append(path);
    let mut r: Vec<String> = Vec::new();
    r.push(title);
    r.push(active);
    r.push(prompt);
    r.push(place);
    proof {
        assert(views(r@) =~= session_lines_of(
            (index + 1) as nat,
            *history,
            last_active@,
            path@,
        ));
    }
    r
}

/// What is shown of an entry of a resumed history: nothing of a blank reply.
pub open spec fn entry_line(entry: HistoryEntry) -> Seq<Seq<char>> {
    match entry {
        HistoryEntry::System { content, .. } => seq![
            role_prefix_of("system"@, COLOR_YELLOW@) + content@,
        ],
        HistoryEntry::User { content, .. } => seq![role_prefix_of("you"@, COLOR_BLUE@) + content@],
        HistoryEntry::Assistant { content, .. } => if trimmed(content@).len() > 0 {
            seq![role_prefix_of("assistant"@, COLOR_GREEN@) + content@]
        } else {
            Seq::empty()
        },
        HistoryEntry::Tool { content, .. } => seq![
            tool_result_of(displayed(content@), says_success(content@)),
        ],
    }
}

/// What is shown of the entries of a resumed history.
pub open spec fn entry_lines(entries: Seq<HistoryEntry>) -> Seq<Seq<char>>
    decreases entries.len(),
{
    if entries.len() == 0 {
        Seq::empty()
    } else {
        entry_lines(entries.drop_last()) + entry_line(entries.last())
    }
}

/// What is shown of a resumed history: nothing of an empty one.
pub open spec fn history_lines_of(entries: Seq<HistoryEntry>) -> Seq<Seq<char>> {
    if entries.len() == 0 {
        Seq::empty()
    } else {
        seq![styled(COLOR_BOLD@, "resumed history"@)] + entry_lines(entries)
    }
}

/// Writes what is shown of an entry.
fn show_entry(entry: &HistoryEntry) -> (r: Option<String>)
    ensures
        match r {
            Some(line) => entry_line(*entry) == seq![line@],
            None => entry_line(*entry) == Seq::<Seq<char>>::empty(),
        },
{
    match entry {
        HistoryEntry::System { content, .. } => {
            let mut r = role_prefix("system", COLOR_YELLOW);
            r.append(content);
            Some(r)
        },
        HistoryEntry::User { content, .. } => {
            let mut r = role_prefix("you", COLOR_BLUE);
            r.append(content);
            Some(r)
        },
        HistoryEntry::Assistant { content, .. } => if is_blank(content) {
            None
        } else {
            let mut r = role_prefix("assistant", COLOR_GREEN);
            r.append(content);
            Some(r)
        },
        HistoryEntry::Tool { content, .. } => Some(
            tool_result_text(
                &normalize_tool_content_for_display(content),
                tool_content_success(content),
            ),
        ),
    }
}

/// Writes what is shown of a resumed history.
pub fn history_lines(entries: &Vec<HistoryEntry>) -> (r: Vec<String>)
    ensures
        views(r@) == history_lines_of(entries@),
{
    let mut r: Vec<String> = Vec::new();
    if entries.len() == 0 {
        proof {
            assert(views(r@) =~= Seq::empty());
        }
        return r;
    }
    r.push(style(COLOR_BOLD, "resumed history"));
    let ghost title = seq![styled(COLOR_BOLD@, "resumed history"@)];
    proof {
        assert(views(r@) =~= title + entry_lines(entries@.take(0)));
    }
    for i in 0..entries.len()
        invariant
            views(r@) == title + entry_lines(entries@.take(i as int)),
    {
        let ghost before = views(r@);
        proof {
            assert(entries@.take(i + 1).drop_last() =~= entries@.take(i as int));
        }
        match show_entry(&entries[i]) {
            Some(line) => {
                r.push(line);
                proof {
                    assert(views(r@) =~= before + seq![line@]);
                }
            },
            None => {
                proof {
                    assert(views(r@) =~= before + Seq::<Seq<char>>::empty());
                }
            },
        }
        proof {
            assert(before + entry_line(entries@[i as int]) =~= title + entry_lines(
                entries@.take(i + 1),
            ));
        }
    }
    proof {
        assert(entries@.take(entries@.len() as int) =~= entries@);
    }
    r
}

/// The list shows the prompt that was given last: the text of the user entry after which no other
/// stands.
pub proof fn law_list_shows_last_prompt(entries: Seq<HistoryEntry>, i: int)
    ensures
        0 <= i < entries.len() && entries[i] is User && (forall|k: int|
            i < k < entries.len() ==> !(#[trigger] entries[k] is User)) ==> prompt_preview(entries)
            == preview(entries[i]->User_content@, 100),
        (forall|k: int| 0 <= k < entries.len() ==> !(#[trigger] entries[k] is User))
            ==> prompt_preview(entries) == "(no user prompt yet)"@,
{
    law_last_user_is_last(entries, i);
}

/// What is shown of a resumed history is what is shown of its parts, one after the other.
pub proof fn law_shown_history_composes(a: Seq<HistoryEntry>, b: Seq<HistoryEntry>)
    ensures
        entry_lines(a + b) == entry_lines(a) + entry_lines(b),
        a.len() == 1 ==> entry_lines(a) == entry_line(a[0]),
        a.len() > 0 ==> history_lines_of(a).skip(1) == entry_lines(a),
    decreases b.len(),
{
    if b.len() == 0 {
        assert(a + b =~= a);
        assert(entry_lines(a) + entry_lines(b) =~= entry_lines(a));
    } else {
        law_shown_history_composes(a, b.drop_last());
        assert((a + b).drop_last() =~= a + b.drop_last());
        assert(entry_lines(a + b) =~= entry_lines(a) + entry_lines(b));
    }
    if a.len() == 1 {
        assert(a.drop_last().len() == 0);
        assert(entry_lines(a.drop_last()) =~= Seq::empty());
        assert(entry_lines(a) =~= entry_line(a[0]));
    }
    if a.len() > 0 {
        assert(history_lines_of(a).skip(1) =~= entry_lines(a));
    }
}

/// Every text of a resumed history is shown whole on one line of its own: that of the system and
/// of the user always, that of the assistant unless it is blank; a result of a tool has a line
/// too.
pub proof fn law_every_text_is_shown(entry: HistoryEntry)
    ensures
        entry is System ==> entry_line(entry).len() == 1 && ends_in(
            entry_line(entry)[0],
            entry->System_content@,
        ),
        entry is User ==> entry_line(entry).len() == 1 && ends_in(
            entry_line(entry)[0],
            entry->User_content@,
        ),
        entry is Assistant && trimmed(entry->Assistant_content@).len() > 0 ==> entry_line(
            entry,
        ).len() == 1 && ends_in(entry_line(entry)[0], entry->Assistant_content@),
        entry is Assistant && trimmed(entry->Assistant_content@).len() == 0 ==> entry_line(
            entry,
        ).len() == 0,
        entry is Tool ==> entry_line(entry).len() == 1,
{
    match entry {
        HistoryEntry::System { content, .. } => {
            lemma_prefixed(role_prefix_of("system"@, COLOR_YELLOW@), content@);
        },
        HistoryEntry::User { content, .. } => {
            lemma_prefixed(role_prefix_of("you"@, COLOR_BLUE@), content@);
        },
        HistoryEntry::Assistant { content, .. } => {
            lemma_prefixed(role_prefix_of("assistant"@, COLOR_GREEN@), content@);
        },
        _ => {},
    }
}

proof fn lemma_prefixed(prefix: Seq<char>, text: Seq<char>)
    ensures
        ends_in(prefix + text, text),
{
    let t = prefix + text;
    assert(t.subrange(t.len() - text.len(), t.len() as int) =~= text);
}

/// The list tells of a session its number, its name, when it was active, its last prompt and where
/// it is kept.
pub proof fn law_list_tells_of_sessions(
    number: nat,
    history: HistoryFile,
    last_active: Seq<char>,
    path: Seq<char>,
)
    ensures
        ({
            let lines = session_lines_of(number, history, last_active, path);
            &&& lines.len() == 4
            &&& ends_in(lines[0], decimal_text(number) + ". "@ + history.session_id@)
            &&& ends_in(lines[1], "last active: "@ + last_active)
            &&& ends_in(lines[2], "last prompt: "@ + prompt_preview(history.entries@))
            &&& ends_in(lines[3], "path: "@ + path)
        }),
{
    reveal_strlit("     last active: ");
    reveal_strlit("     last prompt: ");
    reveal_strlit("     path: ");
    reveal_strlit("last active: ");
    reveal_strlit("last prompt: ");
    reveal_strlit("path: ");
    let lines = session_lines_of(number, history, last_active, path);
    let a = decimal_text(number) + ". "@ + history.session_id@;
    let b = "last active: "@ + last_active;
    let c = "last prompt: "@ + prompt_preview(history.entries@);
    let d = "path: "@ + path;
    assert(lines[0].subrange(lines[0].len() - a.len(), lines[0].len() as int) =~= a);
    assert(lines[1].subrange(lines[1].len() - b.len(), lines[1].len() as int) =~= b);
    assert(lines[2].subrange(lines[2].len() - c.len(), lines[2].len() as int) =~= c);
    assert(lines[3].subrange(lines[3].len() - d.len(), lines[3].len() as int) =~= d);
}

} // verus!
