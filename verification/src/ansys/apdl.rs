//! Command streams as a model returns them.

use vstd::prelude::*;

use crate::text::{
    begins_with, char_is_space, chars_contain_any, contains, ends_in, find_char, first_index,
    front_edge, has_any, has_text, is_blank, is_space, law_trim_is_final, lemma_first_index,
    lemma_trim_front_run, lemma_trim_keeps_front, lemma_trimmed_ends, lines, split_lines,
    stands_at, starts_with, strip_prefix, texts, to_chars, trim, trim_back, trim_end_of,
    trim_front, trim_start_of, trimmed, upper, upper_char, upper_chars, views, window,
    without_suffixes, CharClass,
};

verus! {

/// What opens and closes a block of code in markdown.
pub const CODE_FENCE: &'static str = "```";

/// What a file says that no command stream was generated for yet.
pub const PLACEHOLDER_MARK: &'static str = "Placeholder only for now";

/// What the transcript of a tool call begins with.
pub const TRANSCRIPT_START: &'static str = "Tool:";

/// What stands in a reply, in upper case, that talks of tools and commands to a shell.
pub const TRANSCRIPT_MARKS: [&'static str; 4] = [
    "TOOL: SHELL_TOOL",
    "ARGUMENTS: {",
    "\"COMMAND\":",
    "LET ME EXAMINE THE STAGE 1 MODEL",
];

/// What stands in a command stream, in upper case; one of these, or of [`APDL_WORDS`], has to.
pub const APDL_SIGNALS: [&'static str; 14] = [
    "/PREP7",
    "/SOLU",
    "/FILNAME",
    "ET,",
    "MP,",
    "BLOCK,",
    "K,",
    "N,",
    "E,",
    "KEYW,",
    "ETCHG,",
    "*GET",
    "*DIM",
    "/CWD",
];

/// The commands, in upper case, that are words of the language too.
pub const APDL_WORDS: [&'static str; 3] = ["FINISH", "RESUME", "EDWRITE"];

/// A reply without the code fence around it: the first line goes with the fence, and so do the
/// line feeds after it and the fences at the end.
pub open spec fn without_fences(text: Seq<char>) -> Seq<char> {
    let t = trimmed(text);
    if begins_with(t, CODE_FENCE@) {
        let body = trim_front(t.skip(CODE_FENCE@.len() as int), CharClass::Except('\n'));
        trimmed(without_suffixes(trim_front(body, CharClass::Only('\n')), CODE_FENCE@))
    } else {
        t
    }
}

/// Takes the code fence off a reply.
pub fn strip_code_fences(text: &str) -> (r: String)
    ensures
        r@ == without_fences(text@),
{
    let t = trim(text);
    match strip_prefix(&t, CODE_FENCE) {
        Some(rest) => {
            let body = trim_start_of(&rest, CharClass::Except('\n'));
            let body = trim_start_of(&body, CharClass::Only('\n'));
            trim(&trim_end_of(&body, CODE_FENCE))
        },
        None => t,
    }
}

/// No white space stands around what is left of a reply.
pub proof fn law_stripped_is_trimmed(text: Seq<char>)
    ensures
        trimmed(without_fences(text)) == without_fences(text),
{
    law_trim_is_final(text);
    let t = trimmed(text);
    let body = trim_front(t.skip(CODE_FENCE@.len() as int), CharClass::Except('\n'));
    law_trim_is_final(without_suffixes(trim_front(body, CharClass::Only('\n')), CODE_FENCE@));
}

/// A fence around a command stream is taken off, whatever language it names, and nothing else
/// changes.
pub proof fn law_fences_come_off(language: Seq<char>, body: Seq<char>)
    requires
        !language.contains('\n'),
        trimmed(body) == body,
    ensures
        without_fences(CODE_FENCE@ + language + seq!['\n'] + body + seq!['\n'] + CODE_FENCE@)
            == body,
{
    reveal_strlit("```");
    let fence = CODE_FENCE@;
    let t = fence + language + seq!['\n'] + body + seq!['\n'] + fence;
    let space = CharClass::Space;
    assert(t[0] == '`' && t.last() == '`');
    assert(trim_front(t, space) == t);
    assert(trimmed(t) == t);
    assert(t.subrange(0, 3) =~= fence);
    assert(begins_with(t, fence));
    let tail = seq!['\n'] + body + seq!['\n'] + fence;
    assert(t.skip(3) =~= language + tail);
    assert forall|i: int| 0 <= i < language.len() implies CharClass::Except('\n').has(
        #[trigger] language[i],
    ) by {
        assert(language.contains(language[i]));
    }
    lemma_trim_front_run(language, tail, CharClass::Except('\n'));
    let only = CharClass::Only('\n');
    let after = trim_front(tail, only);
    lemma_trimmed_ends(body, space);
    lemma_trimmed_ends(trim_front(body, space), space);
    let cut = without_suffixes(after, fence);
    if body.len() > 0 {
        let rest = body + seq!['\n'] + fence;
        assert(tail =~= seq!['\n'] + rest);
        assert(rest[0] == body[0]);
        lemma_trim_front_run(seq!['\n'], rest, only);
        assert(after == rest);
        let n = rest.len() - 3;
        assert(rest.subrange(n, rest.len() as int) =~= fence);
        let open = body + seq!['\n'];
        assert(rest.take(n) =~= open);
        assert(!ends_in(open, fence)) by {
            if ends_in(open, fence) {
                assert(open.subrange(open.len() - 3, open.len() as int).last() == open.last());
            }
        }
        assert(without_suffixes(open, fence) == open);
        assert(cut == open);
        assert(trim_front(open, space) == open);
        assert(open.drop_last() =~= body);
        assert(trim_back(open, space) == trim_back(body, space));
        assert(trim_back(body, space) == body);
    } else {
        assert(tail =~= seq!['\n', '\n'] + fence);
        lemma_trim_front_run(seq!['\n', '\n'], fence, only);
        assert(fence.subrange(0, 3) =~= fence);
        assert(ends_in(fence, fence));
        assert(fence.take(0) =~= body);
        assert(without_suffixes(body, fence) == body);
        assert(cut == body);
        assert(trimmed(body) =~= body);
    }
}

/// Why a reply is no command stream.
#[derive(Debug, Clone, Copy, PartialEq, Eq, Structural)]
pub enum CandidateError {
    /// It holds nothing.
    Empty,
    /// It talks of tools.
    Transcript,
    /// Nothing in it looks like a command.
    NotApdl,
}

impl CandidateError {
    /// The message about a reply from `source`.
    pub open spec fn message(self, source: Seq<char>) -> Seq<char> {
        match self {
            CandidateError::Empty => source + " returned empty APDL"@,
            CandidateError::Transcript => source
                + " returned tool transcript / natural-language text instead of APDL"@,
            CandidateError::NotApdl => source + " did not look like ANSYS APDL"@,
        }
    }

    /// Writes the message about a reply from `source`.
    pub fn describe(&self, source: &str) -> (r: String)
        ensures
            r@ == self.message(source@),
    {
        let mut r = source.to_owned();
        match self {
            CandidateError::Empty => r.append(" returned empty APDL"),
            CandidateError::Transcript => r.append(
                " returned tool transcript / natural-language text instead of APDL",
            ),
            CandidateError::NotApdl => r.append(" did not look like ANSYS APDL"),
        }
        r
    }
}

/// A text talks of tools.
pub open spec fn is_transcript(t: Seq<char>) -> bool {
    begins_with(t, TRANSCRIPT_START@) || has_any(upper(t), texts(TRANSCRIPT_MARKS@))
}

/// One of the signals of a command stream stands in a text, in any case.
pub open spec fn holds_signal(t: Seq<char>) -> bool {
    has_any(upper(t), texts(APDL_SIGNALS@)) || has_any(upper(t), texts(APDL_WORDS@))
}

/// The first of the arguments of a command.
pub open spec fn first_argument(args: Seq<char>) -> Seq<char> {
    trimmed(args.take(first_index(args, ',') as int))
}

/// No white space stands in a text.
pub open spec fn is_one_word(t: Seq<char>) -> bool {
    forall|k: int| 0 <= k < t.len() ==> !is_space(#[trigger] t[k])
}

/// A command ends before `rest`, or arguments follow of which the first is one word.
pub open spec fn ends_word(rest: Seq<char>) -> bool {
    let after = trim_front(rest, CharClass::Space);
    after.len() == 0 || (after[0] == ',' && is_one_word(first_argument(after.skip(1))))
}

/// A character, in upper case, that the name of a command is made of.
pub open spec fn is_name_char(c: char) -> bool {
    'A' <= c <= 'Z' || '0' <= c <= '9' || c == '_'
}

/// A text, in upper case, is the name of a command: it begins with a letter, before which a
/// slash or an asterisk may stand.
pub open spec fn is_command_name(t: Seq<char>) -> bool {
    let start: int = if t.len() > 0 && (t[0] == '/' || t[0] == '*') {
        1
    } else {
        0
    };
    &&& start < t.len()
    &&& 'A' <= t[start] <= 'Z'
    &&& forall|k: int| start <= k < t.len() ==> is_name_char(#[trigger] t[k])
}

/// A text is a number, as far as its first character tells.
pub open spec fn is_numeric(t: Seq<char>) -> bool {
    &&& t.len() > 0
    &&& '0' <= t[0] <= '9' || t[0] == '+' || t[0] == '-' || t[0] == '.'
    &&& is_one_word(t)
}

/// A text, in upper case, has the form of a command: arguments follow its name, directly after
/// the comma or, after white space, with a number. Words with a space after the comma are taken
/// for a sentence, unless the name begins with a slash; such a name may also stand alone.
pub open spec fn has_command_form(c: Seq<char>) -> bool {
    let n = first_index(c, ',') as int;
    let name = trimmed(c.take(n));
    &&& is_command_name(name)
    &&& {
        ||| name[0] == '/'
        ||| n + 1 < c.len() && !is_space(c[n + 1])
        ||| n < c.len() && is_numeric(first_argument(c.skip(n + 1)))
    }
}

/// A text, in upper case, is a command: it has the form of one, or is one of the words that are.
pub open spec fn is_command(c: Seq<char>) -> bool {
    ||| has_command_form(c)
    ||| exists|i: int|
        {
            &&& 0 <= i < texts(APDL_WORDS@).len()
            &&& begins_with(c, #[trigger] texts(APDL_WORDS@)[i])
            &&& ends_word(c.skip(texts(APDL_WORDS@)[i].len() as int))
        }
}

/// A line without its comment.
pub open spec fn without_comment(line: Seq<char>) -> Seq<char> {
    line.take(first_index(line, '!') as int)
}

/// A command may begin at index `j` of a line without comment: at its beginning, or after the
/// sign that separates commands.
pub open spec fn is_command_start(code: Seq<char>, j: int) -> bool {
    0 <= j <= code.len() && (j == 0 || code[j - 1] == '$')
}

/// What stands in a line from index `j` to the end of the command.
pub open spec fn command_from(code: Seq<char>, j: int) -> Seq<char> {
    let rest = code.skip(j);
    trimmed(rest.take(first_index(rest, '$') as int))
}

/// A line, in upper case and without space around it, begins with a signal of a command stream
/// or holds a command.
pub open spec fn is_apdl_line(line: Seq<char>) -> bool {
    ||| exists|i: int|
        0 <= i < texts(APDL_SIGNALS@).len() && begins_with(line, #[trigger] texts(APDL_SIGNALS@)[i])
    ||| exists|j: int|
        is_command_start(without_comment(line), j) && is_command(
            #[trigger] command_from(without_comment(line), j),
        )
}

/// A text looks like a command stream: a signal stands somewhere in it, and one of its lines
/// reads as a command. Sentences that hold the letters of a signal do not.
pub open spec fn looks_like_apdl(t: Seq<char>) -> bool {
    holds_signal(t) && exists|i: int|
        0 <= i < lines(t).len() && is_apdl_line(upper(trimmed(#[trigger] lines(t)[i])))
}

/// Tells whether no white space stands in a text.
fn is_single_word(chars: &Vec<char>) -> (r: bool)
    ensures
        r == is_one_word(chars@),
{
    for i in 0..chars.len()
        invariant
            forall|k: int| 0 <= k < i ==> !is_space(#[trigger] chars@[k]),
    {
        if char_is_space(chars[i]) {
            return false;
        }
    }
    true
}

/// The first of the arguments that begin at index `at` of a command.
fn argument_at(chars: &Vec<char>, at: usize) -> (r: Vec<char>)
    requires
        at <= chars.len(),
    ensures
        r@ == first_argument(chars@.skip(at as int)),
{
    let end = find_char(chars, at, chars.len(), ',');
    let ghost args = chars@.skip(at as int);
    proof {
        assert(args =~= chars@.subrange(at as int, chars.len() as int));
        lemma_first_index(args, ',');
        assert(args.take(end - at) =~= chars@.subrange(at as int, end as int));
    }
    to_chars(&trim(&window(chars, at, end)))
}

/// Tells whether a command ends at index `at`, or one-word arguments follow.
fn word_ends_at(chars: &Vec<char>, at: usize) -> (r: bool)
    requires
        at <= chars.len(),
    ensures
        r == ends_word(chars@.skip(at as int)),
{
    let next = front_edge(chars, at, chars.len(), CharClass::Space);
    proof {
        assert(chars@.skip(at as int) =~= chars@.subrange(at as int, chars.len() as int));
    }
    if next == chars.len() {
        return true;
    }
    proof {
        assert(chars@.subrange(next as int, chars.len() as int).skip(1) =~= chars@.skip(next + 1));
    }
    chars[next] == ',' && is_single_word(&argument_at(chars, next + 1))
}

/// Tells whether a text, in upper case, is the name of a command.
fn names_command(name: &Vec<char>) -> (r: bool)
    ensures
        r == is_command_name(name@),
{
    let start: usize = if name.len() > 0 && (name[0] == '/' || name[0] == '*') {
        1
    } else {
        0
    };
    if start >= name.len() || name[start] < 'A' || name[start] > 'Z' {
        return false;
    }
    for i in start..name.len()
        invariant
            start == if name@.len() > 0 && (name@[0] == '/' || name@[0] == '*') {
                1int
            } else {
                0
            },
            forall|k: int| start <= k < i ==> is_name_char(#[trigger] name@[k]),
    {
        let c = name[i];
        if !(('A' <= c && c <= 'Z') || ('0' <= c && c <= '9') || c == '_') {
            return false;
        }
    }
    true
}

/// Tells whether a text is a number, as far as its first character tells.
fn reads_as_number(chars: &Vec<char>) -> (r: bool)
    ensures
        r == is_numeric(chars@),
{
    if chars.len() == 0 {
        return false;
    }
    let c = chars[0];
    (('0' <= c && c <= '9') || c == '+' || c == '-' || c == '.') && is_single_word(chars)
}

/// Tells whether a text, in upper case, has the form of a command.
fn reads_as_command(c: &Vec<char>) -> (r: bool)
    ensures
        r == has_command_form(c@),
{
    let n = find_char(c, 0, c.len(), ',');
    let name = to_chars(&trim(&window(c, 0, n)));
    proof {
        assert(c@.subrange(0, c.len() as int) =~= c@);
        assert(c@.subrange(0, n as int) =~= c@.take(n as int));
    }
    if !names_command(&name) {
        return false;
    }
    if name[0] == '/' {
        return true;
    }
    if n == c.len() {
        return false;
    }
    (n + 1 < c.len() && !char_is_space(c[n + 1])) || reads_as_number(&argument_at(c, n + 1))
}

/// Tells whether a text, in upper case, is a command.
fn text_is_command(c: &Vec<char>) -> (r: bool)
    ensures
        r == is_command(c@),
{
    if reads_as_command(c) {
        return true;
    }
    let words = APDL_WORDS;
    for i in 0..words.len()
        invariant
            words@ == APDL_WORDS@,
            forall|k: int|
                0 <= k < i ==> !(begins_with(c@, #[trigger] texts(APDL_WORDS@)[k]) && ends_word(
                    c@.skip(texts(APDL_WORDS@)[k].len() as int),
                )),
    {
        proof {
            assert(texts(APDL_WORDS@)[i as int] == words@[i as int]@);
        }
        let word = to_chars(words[i]);
        if stands_at(c, &word, 0) && word_ends_at(c, word.len()) {
            return true;
        }
    }
    false
}

/// Tells whether a line holds a command.
fn holds_command(line: &Vec<char>) -> (r: bool)
    ensures
        r == exists|j: int|
            is_command_start(without_comment(line@), j) && is_command(
                #[trigger] command_from(without_comment(line@), j),
            ),
{
    let n = find_char(line, 0, line.len(), '!');
    let ghost code = without_comment(line@);
    proof {
        assert(line@.subrange(0, line.len() as int) =~= line@);
        lemma_first_index(line@, '!');
    }
    let mut pos: usize = 0;
    loop
        invariant
            pos <= n <= line.len(),
            code == line@.take(n as int),
            is_command_start(code, pos as int),
            code == without_comment(line@),
            forall|j: int|
                0 <= j < pos && is_command_start(code, j) ==> !is_command(
                    #[trigger] command_from(code, j),
                ),
        decreases n - pos,
    {
        let k = find_char(line, pos, n, '$');
        let ghost rest = code.skip(pos as int);
        proof {
            assert(rest =~= line@.subrange(pos as int, n as int));
            lemma_first_index(rest, '$');
            assert(rest.take(k - pos) =~= line@.subrange(pos as int, k as int));
            assert forall|j: int| pos < j <= k implies !is_command_start(code, j) by {
                assert(rest[j - 1 - pos] == code[j - 1]);
            }
        }
        if text_is_command(&to_chars(&trim(&window(line, pos, k)))) {
            assert(is_command(command_from(code, pos as int)));
            return true;
        }
        if k == n {
            return false;
        }
        proof {
            assert(rest[k - pos] == code[k as int]);
        }
        pos = k + 1;
    }
}

/// Tells whether a line, in upper case, begins with a signal or holds a command.
fn line_is_apdl(line: &Vec<char>) -> (r: bool)
    ensures
        r == is_apdl_line(line@),
{
    let signals = APDL_SIGNALS;
    for i in 0..signals.len()
        invariant
            signals@ == APDL_SIGNALS@,
            forall|k: int|
                0 <= k < i ==> !begins_with(line@, #[trigger] texts(APDL_SIGNALS@)[k]),
    {
        proof {
            assert(texts(APDL_SIGNALS@)[i as int] == signals@[i as int]@);
        }
        if stands_at(line, &to_chars(signals[i]), 0) {
            return true;
        }
    }
    holds_command(line)
}

/// Tells whether a line of a text reads as a command.
fn has_apdl_line(text: &str) -> (r: bool)
    ensures
        r == exists|i: int|
            0 <= i < lines(text@).len() && is_apdl_line(
                upper(trimmed(#[trigger] lines(text@)[i])),
            ),
{
    let ls = split_lines(text);
    for i in 0..ls.len()
        invariant
            views(ls@) == lines(text@),
            forall|k: int|
                0 <= k < i ==> !is_apdl_line(upper(trimmed(#[trigger] lines(text@)[k]))),
    {
        proof {
            assert(lines(text@)[i as int] == ls@[i as int]@);
        }
        if line_is_apdl(&upper_chars(&trim(&ls[i]))) {
            return true;
        }
    }
    false
}

/// The command stream in a reply, or why there is none.
pub open spec fn candidate_in(text: Seq<char>) -> Result<Seq<char>, CandidateError> {
    let candidate = without_fences(text);
    let t = trimmed(candidate);
    if t.len() == 0 {
        Err(CandidateError::Empty)
    } else if is_transcript(t) {
        Err(CandidateError::Transcript)
    } else if !looks_like_apdl(t) {
        Err(CandidateError::NotApdl)
    } else {
        Ok(candidate)
    }
}

/// Takes the command stream out of a reply.
pub fn validate_apdl_candidate(text: &str) -> (r: Result<String, CandidateError>)
    ensures
        match r {
            Ok(candidate) => candidate_in(text@) == Ok::<Seq<char>, CandidateError>(candidate@),
            Err(error) => candidate_in(text@) == Err::<Seq<char>, CandidateError>(error),
        },
{
    let candidate = strip_code_fences(text);
    let t = trim(&candidate);
    if t.as_str().is_empty() {
        return Err(CandidateError::Empty);
    }
    let upper = upper_chars(&t);
    let marks = TRANSCRIPT_MARKS;
    if starts_with(&t, TRANSCRIPT_START) || chars_contain_any(&upper, &marks) {
        return Err(CandidateError::Transcript);
    }
    let signals = APDL_SIGNALS;
    let words = APDL_WORDS;
    let signalled = chars_contain_any(&upper, &signals) || chars_contain_any(&upper, &words);
    if !signalled || !has_apdl_line(&t) {
        return Err(CandidateError::NotApdl);
    }
    Ok(candidate)
}

/// What is taken out of a reply is not blank, is no transcript, and looks like a command stream:
/// a signal stands in it and a line of it reads as a command. A reply is refused if and only if
/// one of these fails.
pub proof fn law_candidates_are_command_streams(text: Seq<char>)
    ensures
        candidate_in(text) matches Ok(candidate) ==> {
            &&& candidate == without_fences(text)
            &&& candidate.len() > 0
            &&& !is_transcript(candidate)
            &&& holds_signal(candidate)
            &&& looks_like_apdl(candidate)
        },
        candidate_in(text) is Err <==> {
            ||| without_fences(text).len() == 0
            ||| is_transcript(without_fences(text))
            ||| !looks_like_apdl(without_fences(text))
        },
{
    law_stripped_is_trimmed(text);
}

/// The signals are made of ASCII characters that are neither white space nor small letters.
proof fn lemma_signals_are_plain(i: int)
    requires
        0 <= i < texts(APDL_SIGNALS@).len(),
    ensures
        texts(APDL_SIGNALS@)[i].len() > 0,
        forall|j: int|
            0 <= j < texts(APDL_SIGNALS@)[i].len() ==> '!' <= #[trigger] texts(
                APDL_SIGNALS@,
            )[i][j] <= 'Z',
{
    reveal_strlit("/PREP7");
    reveal_strlit("/SOLU");
    reveal_strlit("/FILNAME");
    reveal_strlit("ET,");
    reveal_strlit("MP,");
    reveal_strlit("BLOCK,");
    reveal_strlit("K,");
    reveal_strlit("N,");
    reveal_strlit("E,");
    reveal_strlit("KEYW,");
    reveal_strlit("ETCHG,");
    reveal_strlit("*GET");
    reveal_strlit("*DIM");
    reveal_strlit("/CWD");
}

/// A command at the very beginning is enough: a reply that begins with a signal, in any case, and
/// is no transcript is taken as it stands.
pub proof fn law_leading_signal_is_enough(text: Seq<char>, i: int)
    requires
        0 <= i < texts(APDL_SIGNALS@).len(),
        begins_with(upper(without_fences(text)), texts(APDL_SIGNALS@)[i]),
        !is_transcript(without_fences(text)),
    ensures
        candidate_in(text) == Ok::<Seq<char>, CandidateError>(without_fences(text)),
{
    law_stripped_is_trimmed(text);
    let t = without_fences(text);
    let signal = texts(APDL_SIGNALS@)[i];
    let n = signal.len() as int;
    lemma_signals_are_plain(i);
    assert forall|j: int| 0 <= j < n implies upper_char(#[trigger] t[j]) == signal[j] && !is_space(
        t[j],
    ) && t[j] != '\n' && t[j] != '\r' by {
        assert(upper(t).subrange(0, n)[j] == upper(t)[j]);
    }
    lemma_first_index(t, '\n');
    let line = lines(t)[0];
    assert(line.len() >= n && line.take(n) =~= t.take(n));
    assert(line[0] == t[0] && line[n - 1] == t[n - 1]) by {
        assert(line.take(n)[0] == t.take(n)[0]);
        assert(line.take(n)[n - 1] == t.take(n)[n - 1]);
    }
    lemma_trim_keeps_front(line, n);
    let command = upper(trimmed(line));
    assert forall|j: int| 0 <= j < n implies #[trigger] command[j] == signal[j] by {
        assert(trimmed(line).take(n)[j] == t.take(n)[j]);
        assert(upper_char(t[j]) == signal[j]);
    }
    assert(command.subrange(0, n) =~= signal);
    assert(begins_with(command, texts(APDL_SIGNALS@)[i]));
    assert(is_apdl_line(upper(trimmed(lines(t)[0]))));
    assert(has_text(upper(t), texts(APDL_SIGNALS@)[i]));
    assert(looks_like_apdl(t));
}

/// A line is neither blank nor a comment.
pub open spec fn is_command_line(line: Seq<char>) -> bool {
    trimmed(line).len() > 0 && trimmed(line)[0] != '!'
}

/// The file of the export stage holds no command stream to run.
pub open spec fn needs_generation(text: Seq<char>) -> bool {
    let t = trimmed(text);
    ||| t.len() == 0
    ||| has_text(t, PLACEHOLDER_MARK@)
    ||| begins_with(t, TRANSCRIPT_START@)
    ||| has_text(t, "<shell_tool>"@)
    ||| has_text(t, "\"command\":"@)
    ||| forall|i: int| 0 <= i < lines(t).len() ==> !is_command_line(#[trigger] lines(t)[i])
}

/// Tells whether a text has a line that is neither blank nor a comment.
fn has_command_line(text: &str) -> (r: bool)
    ensures
        r == exists|i: int|
            0 <= i < lines(text@).len() && is_command_line(#[trigger] lines(text@)[i]),
{
    let ls = split_lines(text);
    for i in 0..ls.len()
        invariant
            views(ls@) == lines(text@),
            forall|k: int| 0 <= k < i ==> !is_command_line(#[trigger] lines(text@)[k]),
    {
        proof {
            assert(lines(text@)[i as int] == ls@[i as int]@);
        }
        let line = to_chars(&trim(&ls[i]));
        if line.len() > 0 && line[0] != '!' {
            return true;
        }
    }
    false
}

/// Tells whether the file of the export stage holds no command stream to run.
pub fn stage2_apdl_needs_generation(text: &str) -> (r: bool)
    ensures
        r == needs_generation(text@),
{
    let t = trim(text);
    t.as_str().is_empty() || contains(&t, PLACEHOLDER_MARK) || starts_with(&t, TRANSCRIPT_START)
        || contains(&t, "<shell_tool>") || contains(&t, "\"command\":") || !has_command_line(&t)
}

/// A step for which the model writes a command stream.
#[derive(Debug, Clone, Copy, PartialEq, Eq, Structural)]
pub enum GenerationStage {
    /// The model and its mesh.
    Initial,
    /// The export.
    Stage2,
}

impl GenerationStage {
    /// What is said of an empty reply.
    pub open spec fn empty_reply(self) -> Seq<char> {
        match self {
            GenerationStage::Initial => "model returned empty APDL for initial generation"@,
            GenerationStage::Stage2 => "model returned empty APDL for Stage 2 generation"@,
        }
    }
}

/// Takes a generated command stream; a blank one is refused.
pub fn accept_generated_apdl(reply: &str, stage: GenerationStage) -> (r: Result<String, String>)
    ensures
        match r {
            Ok(apdl) => apdl@ == without_fences(reply@) && trimmed(apdl@).len() > 0,
            Err(message) => trimmed(without_fences(reply@)).len() == 0 && message@
                == stage.empty_reply(),
        },
{
    let apdl = strip_code_fences(reply);
    if is_blank(&apdl) {
        return Err(
            match stage {
                GenerationStage::Initial => "model returned empty APDL for initial generation".to_owned(),
                GenerationStage::Stage2 => "model returned empty APDL for Stage 2 generation".to_owned(),
            },
        );
    }
    Ok(apdl)
}

/// A reply that does not begin with a fence is taken whole, but for the white space around it,
/// however long it is.
pub proof fn law_unfenced_reply_is_whole(text: Seq<char>)
    requires
        !begins_with(trimmed(text), "```"@),
    ensures
        without_fences(text) == trimmed(text),
        candidate_in(text) matches Ok(candidate) ==> candidate == trimmed(text),
{
}

/// A reply talks of tools if it begins as the transcript of a call does, or names one of the marks
/// of such a transcript in any case; and not otherwise.
pub proof fn law_transcripts_are_recognized(t: Seq<char>)
    ensures
        is_transcript(t) <==> {
            ||| begins_with(t, "Tool:"@)
            ||| has_text(upper(t), "TOOL: SHELL_TOOL"@)
            ||| has_text(upper(t), "ARGUMENTS: {"@)
            ||| has_text(upper(t), "\"COMMAND\":"@)
            ||| has_text(upper(t), "LET ME EXAMINE THE STAGE 1 MODEL"@)
        },
{
    let marks = texts(TRANSCRIPT_MARKS@);
    assert(marks.len() == 4);
    assert(marks[0] == "TOOL: SHELL_TOOL"@ && marks[1] == "ARGUMENTS: {"@ && marks[2]
        == "\"COMMAND\":"@ && marks[3] == "LET ME EXAMINE THE STAGE 1 MODEL"@);
}

/// The signals of a command stream, one of which has to stand in it, in any case and anywhere.
pub proof fn law_signals_of_a_command_stream(t: Seq<char>)
    ensures
        holds_signal(t) <==> {
            let u = upper(t);
            ||| has_text(u, "/PREP7"@)
            ||| has_text(u, "/SOLU"@)
            ||| has_text(u, "/FILNAME"@)
            ||| has_text(u, "ET,"@)
            ||| has_text(u, "MP,"@)
            ||| has_text(u, "BLOCK,"@)
            ||| has_text(u, "K,"@)
            ||| has_text(u, "N,"@)
            ||| has_text(u, "E,"@)
            ||| has_text(u, "KEYW,"@)
            ||| has_text(u, "ETCHG,"@)
            ||| has_text(u, "*GET"@)
            ||| has_text(u, "*DIM"@)
            ||| has_text(u, "/CWD"@)
            ||| has_text(u, "FINISH"@)
            ||| has_text(u, "RESUME"@)
            ||| has_text(u, "EDWRITE"@)
        },
{
    let s = texts(APDL_SIGNALS@);
    let w = texts(APDL_WORDS@);
    assert(s.len() == 14 && w.len() == 3);
    assert(s[0] == "/PREP7"@ && s[1] == "/SOLU"@ && s[2] == "/FILNAME"@ && s[3] == "ET,"@ && s[4]
        == "MP,"@ && s[5] == "BLOCK,"@ && s[6] == "K,"@ && s[7] == "N,"@ && s[8] == "E,"@ && s[9]
        == "KEYW,"@ && s[10] == "ETCHG,"@ && s[11] == "*GET"@ && s[12] == "*DIM"@ && s[13]
        == "/CWD"@);
    assert(w[0] == "FINISH"@ && w[1] == "RESUME"@ && w[2] == "EDWRITE"@);
    let u = upper(t);
    if has_any(u, s) {
        let i = choose|i: int| 0 <= i < s.len() && has_text(u, #[trigger] s[i]);
        assert(0 <= i < 14);
    }
    if has_any(u, w) {
        let i = choose|i: int| 0 <= i < w.len() && has_text(u, #[trigger] w[i]);
        assert(0 <= i < 3);
    }
}

/// An ASCII letter.
pub open spec fn is_letter(c: char) -> bool {
    'a' <= c <= 'z' || 'A' <= c <= 'Z'
}

/// A genuine command stream is taken: where a signal stands in a reply that is no transcript, one
/// line of the form `NAME,argument` is enough, wherever it stands and whatever the other lines
/// are.
pub proof fn law_one_command_is_enough(text: Seq<char>, i: int, name: Seq<char>, args: Seq<char>)
    requires
        !is_transcript(without_fences(text)),
        holds_signal(without_fences(text)),
        0 <= i < lines(without_fences(text)).len(),
        trimmed(lines(without_fences(text))[i]) == name + seq![','] + args,
        name.len() > 0,
        is_letter(name[0]),
        forall|k: int|
            0 <= k < name.len() ==> is_letter(#[trigger] name[k]) || '0' <= name[k] <= '9'
                || name[k] == '_',
        args.len() > 0,
        !is_space(args[0]),
        !args.contains('!'),
        !args.contains('$'),
    ensures
        candidate_in(text) == Ok::<Seq<char>, CandidateError>(without_fences(text)),
{
    law_stripped_is_trimmed(text);
    let t = without_fences(text);
    let line = name + seq![','] + args;
    let u = upper(line);
    let n = name.len() as int;
    law_trim_is_final(lines(t)[i]);
    lemma_trimmed_ends(line, CharClass::Space);
    lemma_trimmed_ends(trim_front(line, CharClass::Space), CharClass::Space);
    assert forall|k: int| 0 <= k < line.len() implies u[k] != '!' && u[k] != '$' by {
        if k < n {
            assert(line[k] == name[k]);
        } else if k > n {
            assert(line[k] == args[k - n - 1]);
            assert(args.contains(args[k - n - 1]));
        }
    }
    lemma_first_index(u, '!');
    assert(without_comment(u) =~= u);
    assert(u.skip(0) =~= u);
    lemma_first_index(u, '$');
    assert(u.take(u.len() as int) =~= u);
    assert(is_space(u[0]) == is_space(line[0]) && is_space(u.last()) == is_space(line.last()));
    assert(trimmed(u) == u);
    assert(command_from(u, 0) == u);
    lemma_first_index(u, ',');
    assert forall|k: int| 0 <= k < n implies is_name_char(#[trigger] u[k]) by {
        assert(line[k] == name[k]);
    }
    assert(u[n] == ',');
    assert(first_index(u, ',') == n);
    let upper_name = u.take(n);
    assert(!is_space(upper_name[0]) && !is_space(upper_name.last()));
    assert(trimmed(upper_name) == upper_name);
    assert(is_command_name(upper_name)) by {
        assert(line[0] == name[0]);
        assert forall|k: int| 0 <= k < upper_name.len() implies is_name_char(
            #[trigger] upper_name[k],
        ) by {
            assert(upper_name[k] == u[k]);
        }
    }
    assert(u[n + 1] == upper_char(args[0]));
    assert(has_command_form(u));
    assert(is_command_start(u, 0));
    assert(is_apdl_line(upper(trimmed(lines(t)[i]))));
    assert(t.len() > 0) by {
        if t.len() == 0 {
            assert(lines(t).len() == 0);
        }
    }
}

/// A line begins as a sentence does: a word of letters, white space, and something that is not a
/// comma; neither the sign of a comment nor that between commands stands in it.
pub open spec fn begins_as_sentence(line: Seq<char>) -> bool {
    let t = trimmed(line);
    &&& !t.contains('!') && !t.contains('$')
    &&& exists|n: int|
        {
            &&& 0 < n < t.len()
            &&& forall|k: int| 0 <= k < n ==> is_letter(#[trigger] t[k])
            &&& #[trigger] is_space(t[n])
            &&& trim_front(t.skip(n), CharClass::Space).len() > 0
            &&& trim_front(t.skip(n), CharClass::Space)[0] != ','
        }
}

/// Prose is refused, whatever words and commas stand in it: a reply is no command stream where
/// each of its lines begins as a sentence does.
pub proof fn law_prose_is_refused(text: Seq<char>)
    requires
        forall|i: int|
            0 <= i < lines(without_fences(text)).len() ==> begins_as_sentence(
                #[trigger] lines(without_fences(text))[i],
            ),
    ensures
        candidate_in(text) is Err,
{
    law_stripped_is_trimmed(text);
    let t = without_fences(text);
    assert forall|i: int| 0 <= i < lines(t).len() implies !is_apdl_line(
        upper(trimmed(#[trigger] lines(t)[i])),
    ) by {
        lemma_sentence_is_no_command(lines(t)[i]);
    }
}

proof fn lemma_sentence_is_no_command(line: Seq<char>)
    requires
        begins_as_sentence(line),
    ensures
        !is_apdl_line(upper(trimmed(line))),
{
    let t = trimmed(line);
    let u = upper(t);
    let n = choose|n: int|
        {
            &&& 0 < n < t.len()
            &&& forall|k: int| 0 <= k < n ==> is_letter(#[trigger] t[k])
            &&& #[trigger] is_space(t[n])
            &&& trim_front(t.skip(n), CharClass::Space).len() > 0
            &&& trim_front(t.skip(n), CharClass::Space)[0] != ','
        };
    law_trim_is_final(line);
    lemma_trimmed_ends(t, CharClass::Space);
    lemma_trimmed_ends(trim_front(t, CharClass::Space), CharClass::Space);
    assert forall|k: int| 0 <= k < t.len() implies u[k] != '!' && u[k] != '$' by {
        assert(t.contains(t[k]));
    }
    assert forall|k: int| 0 <= k < t.len() implies #[trigger] is_space(u[k]) == is_space(t[k]) by {}
    lemma_first_index(u, '!');
    assert(without_comment(u) =~= u);
    assert forall|i: int| 0 <= i < texts(APDL_SIGNALS@).len() implies !begins_with(
        u,
        #[trigger] texts(APDL_SIGNALS@)[i],
    ) by {
        lemma_signals_have_a_sign(i);
        let sig = texts(APDL_SIGNALS@)[i];
        if begins_with(u, sig) {
            let j = choose|j: int|
                0 <= j < sig.len() && (#[trigger] sig[j] == ',' || sig[j] == '/' || sig[j] == '*')
                    && forall|k: int| 0 <= k < j ==> 'A' <= #[trigger] sig[k] <= 'Z';
            assert(u.subrange(0, sig.len() as int)[j] == u[j]);
            if j < n {
                assert(is_letter(t[j]));
            } else if j > n {
                assert(u.subrange(0, sig.len() as int)[n] == u[n]);
                assert('A' <= sig[n] <= 'Z');
            }
        }
    }
    assert forall|j: int| is_command_start(without_comment(u), j) implies !is_command(
        #[trigger] command_from(without_comment(u), j),
    ) by {
        assert(j == 0) by {
            if j > 0 {
                assert(u[j - 1] != '$');
            }
        }
        assert(u.skip(0) =~= u);
        lemma_first_index(u, '$');
        assert(u.take(u.len() as int) =~= u);
        assert(trimmed(u) == u);
        let c = command_from(without_comment(u), j);
        assert(c == u);
        lemma_spaced_is_no_command(t, n);
    }
}

proof fn lemma_spaced_is_no_command(t: Seq<char>, n: int)
    requires
        0 < n < t.len(),
        forall|k: int| 0 <= k < n ==> is_letter(#[trigger] t[k]),
        is_space(t[n]),
        trim_front(t.skip(n), CharClass::Space).len() > 0,
        trim_front(t.skip(n), CharClass::Space)[0] != ',',
    ensures
        !is_command(upper(t)),
{
    let u = upper(t);
    let gap = trim_front(t.skip(n), CharClass::Space);
    lemma_trim_front_tail(t.skip(n));
    let e = t.len() - gap.len();
    assert(gap =~= t.skip(e));
    lemma_trimmed_ends(t.skip(n), CharClass::Space);
    assert(t[e] == gap[0]);
    assert forall|k: int| n <= k < e implies is_space(#[trigger] t[k]) by {
        assert(t.skip(n)[k - n] == t[k]);
    }
    let m = first_index(u, ',') as int;
    lemma_first_index(u, ',');
    assert(m > e) by {
        if m < n {
            assert(is_letter(t[m]));
        } else if m < e {
            assert(is_space(t[m]));
        } else if m == e {
            assert(u[e] == upper_char(t[e]));
        }
    }
    let front = u.take(m);
    let name = trimmed(front);
    assert(is_letter(t[0]));
    assert(!is_space(front[0]));
    assert(!is_space(front[e]));
    lemma_trim_keeps_front(front, e + 1);
    assert(name.take(e + 1)[n] == front.take(e + 1)[n]);
    assert(name[n] == u[n]);
    assert(is_space(u[n]));
    assert(!is_name_char(u[n]));
    assert(name[0] == front.take(e + 1)[0]) by {
        assert(name.take(e + 1)[0] == name[0]);
    }
    assert(!is_command_name(name));
    assert forall|i: int| 0 <= i < texts(APDL_WORDS@).len() implies !(begins_with(
        u,
        #[trigger] texts(APDL_WORDS@)[i],
    ) && ends_word(u.skip(texts(APDL_WORDS@)[i].len() as int))) by {
        let word = texts(APDL_WORDS@)[i];
        lemma_words_are_letters(i);
        if begins_with(u, word) {
            let w = word.len() as int;
            assert(w <= n) by {
                if w > n {
                    assert(u.subrange(0, w)[n] == u[n]);
                }
            }
            let rest = u.skip(w);
            if w < n {
                assert(rest[0] == u[w]);
                assert(is_letter(t[w]));
                assert(trim_front(rest, CharClass::Space) == rest);
            } else {
                let blanks = rest.take(e - n);
                let tail = u.skip(e);
                assert(rest =~= blanks + tail);
                assert forall|k: int| 0 <= k < blanks.len() implies is_space(
                    #[trigger] blanks[k],
                ) by {
                    assert(blanks[k] == u[n + k]);
                    assert(is_space(t[n + k]));
                }
                assert(tail[0] == u[e]);
                lemma_trim_front_run(blanks, tail, CharClass::Space);
                assert(upper_char(t[e]) != ',');
            }
        }
    }
}

proof fn lemma_trim_front_tail(t: Seq<char>)
    ensures
        ({
            let u = trim_front(t, CharClass::Space);
            let n = t.len() - u.len();
            &&& 0 <= n
            &&& u == t.skip(n)
            &&& forall|k: int| 0 <= k < n ==> is_space(#[trigger] t[k])
        }),
    decreases t.len(),
{
    let u = trim_front(t, CharClass::Space);
    if t.len() > 0 && is_space(t[0]) {
        let rest = t.drop_first();
        lemma_trim_front_tail(rest);
        let n = t.len() - u.len();
        assert(t.skip(n) =~= rest.skip(n - 1));
        assert forall|k: int| 0 <= k < n implies is_space(#[trigger] t[k]) by {
            if k > 0 {
                assert(t[k] == rest[k - 1]);
            }
        }
    } else {
        assert(t.skip(0) =~= t);
    }
}

proof fn lemma_signals_have_a_sign(i: int)
    requires
        0 <= i < texts(APDL_SIGNALS@).len(),
    ensures
        ({
            let sig = texts(APDL_SIGNALS@)[i];
            exists|j: int|
                0 <= j < sig.len() && (#[trigger] sig[j] == ',' || sig[j] == '/' || sig[j] == '*')
                    && forall|k: int| 0 <= k < j ==> 'A' <= #[trigger] sig[k] <= 'Z'
        }),
{
    reveal_strlit("/PREP7");
    reveal_strlit("/SOLU");
    reveal_strlit("/FILNAME");
    reveal_strlit("ET,");
    reveal_strlit("MP,");
    reveal_strlit("BLOCK,");
    reveal_strlit("K,");
    reveal_strlit("N,");
    reveal_strlit("E,");
    reveal_strlit("KEYW,");
    reveal_strlit("ETCHG,");
    reveal_strlit("*GET");
    reveal_strlit("*DIM");
    reveal_strlit("/CWD");
    let sig = texts(APDL_SIGNALS@)[i];
    if sig[0] == '/' || sig[0] == '*' {
    } else {
        assert(sig[sig.len() - 1] == ',');
    }
}

proof fn lemma_words_are_letters(i: int)
    requires
        0 <= i < texts(APDL_WORDS@).len(),
    ensures
        texts(APDL_WORDS@)[i].len() > 0,
        forall|k: int|
            0 <= k < texts(APDL_WORDS@)[i].len() ==> 'A' <= #[trigger] texts(APDL_WORDS@)[i][k]
                <= 'Z',
{
    reveal_strlit("FINISH");
    reveal_strlit("RESUME");
    reveal_strlit("EDWRITE");
}

/// The file of an export workspace is replaced if and only if it holds nothing to run: it is
/// blank, says that it is a placeholder, talks of tools, or has no line but blank ones and
/// comments. One line with a command keeps it, if it says none of that.
pub proof fn law_files_with_commands_are_kept(text: Seq<char>, i: int)
    ensures
        ({
            let t = trimmed(text);
            &&& t.len() == 0 || has_text(t, "Placeholder only for now"@) || begins_with(
                t,
                "Tool:"@,
            ) || has_text(t, "<shell_tool>"@) || has_text(t, "\"command\":"@)
                ==> needs_generation(text)
            &&& (forall|k: int|
                0 <= k < lines(t).len() ==> trimmed(#[trigger] lines(t)[k]).len() == 0 || trimmed(
                    lines(t)[k],
                )[0] == '!') ==> needs_generation(text)
            &&& {
                &&& 0 <= i < lines(t).len()
                &&& trimmed(lines(t)[i]).len() > 0
                &&& trimmed(lines(t)[i])[0] != '!'
                &&& !has_text(t, "Placeholder only for now"@)
                &&& !begins_with(t, "Tool:"@)
                &&& !has_text(t, "<shell_tool>"@)
                &&& !has_text(t, "\"command\":"@)
            } ==> !needs_generation(text)
        }),
{
    let t = trimmed(text);
    if 0 <= i < lines(t).len() && trimmed(lines(t)[i]).len() > 0 && trimmed(lines(t)[i])[0] != '!' {
        assert(is_command_line(lines(t)[i]));
        assert(t.len() > 0);
    }
}

/// One line that reads as a command is enough, wherever it stands, where a signal stands in a reply
/// that is no transcript; and without such a line no reply is taken.
pub proof fn law_one_line_decides(text: Seq<char>, i: int)
    requires
        !is_transcript(without_fences(text)),
        holds_signal(without_fences(text)),
    ensures
        0 <= i < lines(without_fences(text)).len() && is_apdl_line(
            upper(trimmed(lines(without_fences(text))[i])),
        ) ==> candidate_in(text) == Ok::<Seq<char>, CandidateError>(without_fences(text)),
        (forall|k: int|
            0 <= k < lines(without_fences(text)).len() ==> !is_apdl_line(
                upper(trimmed(#[trigger] lines(without_fences(text))[k])),
            )) ==> candidate_in(text) is Err,
{
    law_stripped_is_trimmed(text);
    let t = without_fences(text);
    if t.len() == 0 {
        assert(lines(t).len() == 0);
    }
}

/// A line without comment and separator is one command, or none.
proof fn lemma_plain_line(u: Seq<char>)
    requires
        trimmed(u) == u,
        forall|k: int| 0 <= k < u.len() ==> #[trigger] u[k] != '!' && u[k] != '$',
    ensures
        is_command(u) ==> is_apdl_line(u),
        is_apdl_line(u) ==> is_command(u) || exists|i: int|
            0 <= i < texts(APDL_SIGNALS@).len() && begins_with(
                u,
                #[trigger] texts(APDL_SIGNALS@)[i],
            ),
{
    lemma_first_index(u, '!');
    assert(without_comment(u) =~= u);
    assert(u.skip(0) =~= u);
    lemma_first_index(u, '$');
    assert(u.take(u.len() as int) =~= u);
    assert(command_from(u, 0) == u);
    assert(is_command_start(u, 0));
    assert forall|j: int| is_command_start(without_comment(u), j) implies j == 0 by {
        if j > 0 {
            assert(u[j - 1] != '$');
        }
    }
}

/// The words that are commands by themselves read as such, alone in a line.
pub proof fn law_lone_words_are_commands()
    ensures
        is_apdl_line("FINISH"@),
        is_apdl_line("RESUME"@),
        is_apdl_line("EDWRITE"@),
{
    reveal_strlit("FINISH");
    reveal_strlit("RESUME");
    reveal_strlit("EDWRITE");
    let words = texts(APDL_WORDS@);
    assert(words[0] == "FINISH"@ && words[1] == "RESUME"@ && words[2] == "EDWRITE"@);
    assert forall|i: int| 0 <= i < 3 implies is_apdl_line(#[trigger] words[i]) by {
        let w = words[i];
        assert(trimmed(w) == w);
        lemma_plain_line(w);
        assert(w.subrange(0, w.len() as int) =~= w);
        assert(w.skip(w.len() as int) =~= Seq::empty());
        assert(trim_front(Seq::<char>::empty(), CharClass::Space).len() == 0);
        assert(begins_with(w, words[i]) && ends_word(w.skip(words[i].len() as int)));
    }
    assert(is_apdl_line(words[0]) && is_apdl_line(words[1]) && is_apdl_line(words[2]));
}

/// A name after a slash reads as a command by itself, however long it is.
pub proof fn law_slash_names_are_commands(name: Seq<char>)
    requires
        name.len() > 0,
        'A' <= name[0] <= 'Z',
        forall|k: int| 0 <= k < name.len() ==> is_name_char(#[trigger] name[k]),
    ensures
        is_apdl_line(seq!['/'] + name),
{
    let u = seq!['/'] + name;
    assert forall|k: int| 0 <= k < u.len() implies #[trigger] u[k] != '!' && u[k] != '$' && u[k]
        != ',' && !is_space(u[k]) by {
        if k > 0 {
            assert(u[k] == name[k - 1]);
        }
    }
    assert(trimmed(u) == u);
    lemma_plain_line(u);
    lemma_first_index(u, ',');
    assert(u.take(u.len() as int) =~= u);
    assert(is_command_name(u)) by {
        assert forall|k: int| 1 <= k < u.len() implies is_name_char(#[trigger] u[k]) by {
            assert(u[k] == name[k - 1]);
        }
    }
}

/// A comment is no command, whatever stands in it.
pub proof fn law_comments_are_no_commands(line: Seq<char>)
    requires
        line.len() > 0,
        line[0] == '!',
    ensures
        !is_apdl_line(line),
{
    assert(first_index(line, '!') == 0);
    assert(without_comment(line) =~= Seq::empty());
    assert forall|i: int| 0 <= i < texts(APDL_SIGNALS@).len() implies !begins_with(
        line,
        #[trigger] texts(APDL_SIGNALS@)[i],
    ) by {
        lemma_signals_have_a_sign(i);
        let sig = texts(APDL_SIGNALS@)[i];
        if begins_with(line, sig) {
            assert(line.subrange(0, sig.len() as int)[0] == line[0]);
            let j = choose|j: int|
                0 <= j < sig.len() && (#[trigger] sig[j] == ',' || sig[j] == '/' || sig[j] == '*')
                    && forall|k: int| 0 <= k < j ==> 'A' <= #[trigger] sig[k] <= 'Z';
            assert(sig[0] == '!');
            if j > 0 {
                assert('A' <= sig[0] <= 'Z');
            }
        }
    }
    let code = without_comment(line);
    assert forall|j: int| is_command_start(code, j) implies !is_command(
        #[trigger] command_from(code, j),
    ) by {
        let c = command_from(code, j);
        let rest = code.skip(j);
        assert(rest =~= Seq::empty());
        assert(rest.take(first_index(rest, '$') as int) =~= Seq::empty());
        assert(c =~= Seq::empty());
        lemma_empty_is_no_command(c);
    }
}

proof fn lemma_empty_is_no_command(c: Seq<char>)
    requires
        c.len() == 0,
    ensures
        !is_command(c),
{
    assert(c.take(0) =~= Seq::empty());
    lemma_first_index(c, ',');
    assert(trimmed(c.take(0)).len() == 0);
    reveal_strlit("FINISH");
    reveal_strlit("RESUME");
    reveal_strlit("EDWRITE");
    assert forall|i: int| 0 <= i < texts(APDL_WORDS@).len() implies !begins_with(
        c,
        #[trigger] texts(APDL_WORDS@)[i],
    ) by {
        assert(texts(APDL_WORDS@)[0] == "FINISH"@ && texts(APDL_WORDS@)[1] == "RESUME"@ && texts(
            APDL_WORDS@,
        )[2] == "EDWRITE"@);
        assert(texts(APDL_WORDS@)[i].len() > 0);
    }
}

/// A name, a comma, white space and a number read as a command.
pub proof fn law_numbers_may_stand_apart(name: Seq<char>, number: Seq<char>)
    requires
        name.len() > 0,
        'A' <= name[0] <= 'Z',
        forall|k: int| 0 <= k < name.len() ==> is_name_char(#[trigger] name[k]),
        number.len() > 0,
        '0' <= number[0] <= '9' || number[0] == '-' || number[0] == '.',
        forall|k: int|
            0 <= k < number.len() ==> '0' <= #[trigger] number[k] <= '9' || number[k] == '-'
                || number[k] == '.',
    ensures
        is_apdl_line(name + seq![',', ' '] + number),
{
    let u = name + seq![',', ' '] + number;
    let n = name.len() as int;
    assert forall|k: int| 0 <= k < u.len() implies #[trigger] u[k] != '!' && u[k] != '$' && (u[k]
        == ',' <==> k == n) && (is_space(u[k]) <==> k == n + 1) by {
        if k < n {
            assert(u[k] == name[k]);
        } else if k >= n + 2 {
            assert(u[k] == number[k - n - 2]);
        }
    }
    assert(trimmed(u) == u);
    lemma_plain_line(u);
    lemma_first_index(u, ',');
    assert(u[n] == ',');
    assert(first_index(u, ',') == n);
    assert(u.take(n) =~= name);
    assert(!is_space(name[0]) && !is_space(name.last()));
    assert(trimmed(name) == name);
    let args = u.skip(n + 1);
    assert(args =~= seq![' '] + number);
    lemma_first_index(args, ',');
    assert forall|k: int| 0 <= k < args.len() implies args[k] != ',' by {
        assert(args[k] == u[k + n + 1]);
    }
    assert(args.take(args.len() as int) =~= args);
    reveal_with_fuel(trim_front, 3);
    assert(args.drop_first() =~= number);
    assert forall|k: int| 0 <= k < number.len() implies !is_space(#[trigger] number[k]) by {
        assert(number[k] == u[k + n + 2]);
    }
    assert(trim_front(args, CharClass::Space) == number);
    assert(trim_back(number, CharClass::Space) == number);
    assert(first_argument(args) == number);
    assert(is_numeric(number));
    assert(has_command_form(u));
}

/// Words with a comma between them are no command: a line is none where a word of letters that is
/// no command by itself, a comma, white space and another letter begin it, and no signal does.
pub proof fn law_spoken_commas_are_no_commands(name: Seq<char>, rest: Seq<char>)
    requires
        name.len() > 0,
        forall|k: int| 0 <= k < name.len() ==> 'A' <= #[trigger] name[k] <= 'Z',
        name != "FINISH"@ && name != "RESUME"@ && name != "EDWRITE"@,
        rest.len() > 0,
        'A' <= rest[0] <= 'Z',
        !rest.contains('!'),
        !rest.contains('$'),
        !is_space(rest.last()),
        forall|i: int|
            0 <= i < texts(APDL_SIGNALS@).len() ==> !begins_with(
                name + seq![',', ' '] + rest,
                #[trigger] texts(APDL_SIGNALS@)[i],
            ),
    ensures
        !is_apdl_line(name + seq![',', ' '] + rest),
{
    let u = name + seq![',', ' '] + rest;
    let n = name.len() as int;
    assert forall|k: int| 0 <= k < u.len() implies #[trigger] u[k] != '!' && u[k] != '$' by {
        if k < n {
            assert(u[k] == name[k]);
        } else if k >= n + 2 {
            assert(u[k] == rest[k - n - 2]);
            assert(rest.contains(rest[k - n - 2]));
        }
    }
    assert(u[0] == name[0] && u.last() == rest.last());
    assert(trimmed(u) == u);
    lemma_plain_line(u);
    lemma_first_index(u, ',');
    assert(u[n] == ',');
    assert forall|k: int| 0 <= k < n implies u[k] != ',' by {
        assert(u[k] == name[k]);
    }
    assert(first_index(u, ',') == n);
    assert(u.take(n) =~= name);
    assert(!is_space(name[0]) && !is_space(name.last()));
    assert(trimmed(name) == name);
    let args = u.skip(n + 1);
    assert(args =~= seq![' '] + rest);
    lemma_first_index(args, ',');
    let m = first_index(args, ',') as int;
    assert(args[0] == ' ' && args[1] == rest[0]);
    assert(m >= 2);
    let arg = args.take(m);
    reveal_with_fuel(trim_front, 3);
    assert(arg[0] == ' ' && arg[1] == rest[0]);
    let front = trim_front(arg, CharClass::Space);
    assert(arg.drop_first()[0] == rest[0]);
    assert(front == arg.drop_first());
    lemma_trimmed_ends(front, CharClass::Space);
    assert(!is_numeric(first_argument(args)));
    assert(u[n + 1] == ' ');
    assert(!has_command_form(u));
    reveal_strlit("FINISH");
    reveal_strlit("RESUME");
    reveal_strlit("EDWRITE");
    let words = texts(APDL_WORDS@);
    assert forall|i: int| 0 <= i < words.len() implies !(begins_with(u, #[trigger] words[i])
        && ends_word(u.skip(words[i].len() as int))) by {
        assert(words[0] == "FINISH"@ && words[1] == "RESUME"@ && words[2] == "EDWRITE"@);
        let w = words[i];
        let l = w.len() as int;
        if begins_with(u, w) {
            assert(forall|k: int| 0 <= k < l ==> u.subrange(0, l)[k] == u[k]);
            if l > n {
                assert(w[n] == ',');
            } else if l == n {
                assert(w =~= name);
            } else {
                let tail = u.skip(l);
                assert(tail[0] == name[l]);
                assert(!is_space(tail[0]));
                assert(trim_front(tail, CharClass::Space) == tail);
            }
        }
    }
}

/// An unclosed fence comes off like a closed one: its first line goes, and the rest is kept.
pub proof fn law_unclosed_fences_come_off(language: Seq<char>, body: Seq<char>)
    requires
        !language.contains('\n'),
        body.len() > 0,
        trimmed(body) == body,
        body.last() != '`',
    ensures
        without_fences("```"@ + language + seq!['\n'] + body) == body,
{
    reveal_strlit("```");
    let fence = CODE_FENCE@;
    let t = fence + language + seq!['\n'] + body;
    let space = CharClass::Space;
    lemma_trimmed_ends(body, space);
    lemma_trimmed_ends(trim_front(body, space), space);
    assert(t[0] == '`' && t.last() == body.last());
    assert(trim_front(t, space) == t);
    assert(trimmed(t) == t);
    assert(t.subrange(0, 3) =~= fence);
    assert(begins_with(t, fence));
    let tail = seq!['\n'] + body;
    assert(t.skip(3) =~= language + tail);
    assert forall|i: int| 0 <= i < language.len() implies CharClass::Except('\n').has(
        #[trigger] language[i],
    ) by {
        assert(language.contains(language[i]));
    }
    lemma_trim_front_run(language, tail, CharClass::Except('\n'));
    lemma_trim_front_run(seq!['\n'], body, CharClass::Only('\n'));
    assert(!ends_in(body, fence)) by {
        if ends_in(body, fence) {
            assert(body.subrange(body.len() - 3, body.len() as int).last() == body.last());
        }
    }
    assert(without_suffixes(body, fence) == body);
}

/// A comment after a command changes nothing, whatever it says.
pub proof fn law_comments_change_nothing(code: Seq<char>, comment: Seq<char>)
    requires
        is_command(code),
        trimmed(code) == code,
        forall|k: int| 0 <= k < code.len() ==> #[trigger] code[k] != '!' && code[k] != '$',
    ensures
        is_apdl_line(code + seq!['!'] + comment),
{
    let line = code + seq!['!'] + comment;
    let n = code.len() as int;
    lemma_first_index(line, '!');
    assert(line[n] == '!');
    assert forall|k: int| 0 <= k < n implies line[k] != '!' by {
        assert(line[k] == code[k]);
    }
    assert(first_index(line, '!') == n);
    assert(without_comment(line) =~= code);
    assert(code.skip(0) =~= code);
    lemma_first_index(code, '$');
    assert(code.take(n) =~= code);
    assert(command_from(code, 0) == code);
    assert(is_command_start(code, 0));
}

/// A command may follow another in one line, after the sign between commands, whatever stands
/// before it.
pub proof fn law_commands_may_follow(before: Seq<char>, code: Seq<char>)
    requires
        is_command(code),
        trimmed(code) == code,
        forall|k: int| 0 <= k < before.len() ==> #[trigger] before[k] != '!',
        forall|k: int| 0 <= k < code.len() ==> #[trigger] code[k] != '!' && code[k] != '$',
    ensures
        is_apdl_line(before + seq!['$'] + code),
{
    let line = before + seq!['$'] + code;
    let j = before.len() + 1;
    lemma_first_index(line, '!');
    assert forall|k: int| 0 <= k < line.len() implies line[k] != '!' by {
        if k < before.len() {
            assert(line[k] == before[k]);
        } else if k >= j {
            assert(line[k] == code[k - j]);
        }
    }
    assert(without_comment(line) =~= line);
    assert(line[j - 1] == '$');
    assert(line.skip(j as int) =~= code);
    lemma_first_index(code, '$');
    assert(code.take(code.len() as int) =~= code);
    assert(command_from(line, j as int) == code);
    assert(is_command_start(line, j as int));
}

/// A reply is refused with the reason that holds: it is empty, it talks of tools, or it is no
/// command stream, in this order.
pub proof fn law_refusals_give_reason(text: Seq<char>)
    ensures
        candidate_in(text) == Err::<Seq<char>, CandidateError>(CandidateError::Empty)
            <==> without_fences(text).len() == 0,
        candidate_in(text) == Err::<Seq<char>, CandidateError>(CandidateError::Transcript)
            <==> without_fences(text).len() > 0 && is_transcript(without_fences(text)),
{
    law_stripped_is_trimmed(text);
}

/// What is said of a refused reply begins with where it came from.
pub proof fn law_refusals_name_source(error: CandidateError, source: Seq<char>)
    ensures
        begins_with(error.message(source), source),
        ends_in(error.message(source), " APDL"@),
{
    reveal_strlit(" APDL");
    reveal_strlit(" returned empty APDL");
    reveal_strlit(" returned tool transcript / natural-language text instead of APDL");
    reveal_strlit(" did not look like ANSYS APDL");
    let t = error.message(source);
    let tail = " APDL"@;
    assert(t.subrange(0, source.len() as int) =~= source);
    assert(t.subrange(t.len() - tail.len(), t.len() as int) =~= tail);
}

} // verus!
