//! What the `.err` file of an ANSYS run says of the run.

use vstd::prelude::*;

use crate::number::{decimal, decimal_text};
use crate::text::{
    chars_contain, chars_contain_any, has_any, has_text, is_blank, join_range, joined,
    lemma_appended_occurs, lemma_joined_holds_range, lemma_middle_occurs, lemma_part_of_part,
    lemma_upper_part, lines, split_lines, texts, trimmed, upper, upper_chars, views,
};

verus! {

/// What stands in the first line of an error.
pub const ERROR_MARK: &'static str = "*** ERROR ***";

/// What stands in the first line of a warning.
pub const WARNING_MARK: &'static str = "*** WARNING ***";

/// The first line of a report on errors.
pub const ERRORS_FOUND: &'static str = "Detected ANSYS .err errors.\n\n";

/// The first lines of a report on warnings.
pub const WARNINGS_FOUND: &'static str =
    "Detected blocking warnings that likely invalidate the model even without *** ERROR *** blocks.\nThese warnings must be repaired before the run is accepted.\n\n";

/// What stands before the whole `.err` file in a report.
pub const FULL_CONTENT: &'static str = "Full .err content:\n";

/// One of `lines`, in upper case, holds `mark`.
pub open spec fn marked(ls: Seq<Seq<char>>, mark: Seq<char>) -> bool {
    exists|i: int| 0 <= i < ls.len() && has_text(#[trigger] upper(ls[i]), mark)
}

/// An `.err` file reports an error.
pub open spec fn reports_error(text: Seq<char>) -> bool {
    marked(lines(text), ERROR_MARK@)
}

/// Tells whether an `.err` file reports an error.
pub fn contains_ansys_error(text: &str) -> (r: bool)
    ensures
        r == reports_error(text@),
{
    let ls = split_lines(text);
    for i in 0..ls.len()
        invariant
            views(ls@) == lines(text@),
            forall|k: int|
                0 <= k < i ==> !has_text(#[trigger] upper(views(ls@)[k]), ERROR_MARK@),
    {
        proof {
            assert(views(ls@)[i as int] == ls@[i as int]@);
        }
        if chars_contain(&upper_chars(&ls[i]), ERROR_MARK) {
            proof {
                assert(has_text(upper(lines(text@)[i as int]), ERROR_MARK@));
            }
            return true;
        }
    }
    false
}

/// What a warning says, in upper case, where it likely leaves the model incomplete.
pub const BLOCKING_PATTERNS: [&'static str; 10] = [
    "COMMAND IS IGNORED",
    "NOT PERMITTED",
    "NO AREAS EXIST",
    "NO VOLUMES EXIST",
    "NO ELEMENTS EXIST",
    "NO ITEMS ARE SELECTED",
    "UNDEFINED",
    "DEGENERATE",
    "CANNOT BE MESHED",
    "UNABLE TO",
];

/// A warning likely leaves the model incomplete.
pub open spec fn is_blocking(block: Seq<char>) -> bool {
    has_any(upper(block), texts(BLOCKING_PATTERNS@))
}

/// Tells whether a warning likely leaves the model incomplete.
pub fn is_blocking_warning_block(block: &str) -> (r: bool)
    ensures
        r == is_blocking(block@),
{
    let patterns = BLOCKING_PATTERNS;
    chars_contain_any(&upper_chars(block), &patterns)
}

/// The number of leading lines that are not blank.
pub open spec fn run_of_text(ls: Seq<Seq<char>>) -> nat
    decreases ls.len(),
{
    if ls.len() == 0 || trimmed(ls[0]).len() == 0 {
        0
    } else {
        1 + run_of_text(ls.drop_first())
    }
}

/// A run of lines is no longer than the lines there are.
pub proof fn lemma_run_of_text(ls: Seq<Seq<char>>)
    ensures
        run_of_text(ls) <= ls.len(),
    decreases ls.len(),
{
    if ls.len() > 0 {
        lemma_run_of_text(ls.drop_first());
    }
}

/// The number of lines of the warning that begins in the first line: it goes on up to the next
/// blank line.
pub open spec fn warning_len(ls: Seq<Seq<char>>) -> nat {
    1 + run_of_text(ls.drop_first())
}

/// The warnings in `ls` that likely leave the model incomplete, each with its lines.
pub open spec fn blocking_blocks(ls: Seq<Seq<char>>) -> Seq<Seq<char>>
    decreases ls.len(),
{
    if ls.len() == 0 {
        Seq::empty()
    } else if has_text(upper(ls[0]), WARNING_MARK@) {
        let n = warning_len(ls) as int;
        let block = joined(ls.take(n), "\n"@);
        let rest = if n <= ls.len() {
            blocking_blocks(ls.skip(n))
        } else {
            Seq::empty()
        };
        if is_blocking(block) {
            seq![block] + rest
        } else {
            rest
        }
    } else {
        blocking_blocks(ls.drop_first())
    }
}

/// The warnings in an `.err` file that likely leave the model incomplete.
pub fn extract_blocking_warning_blocks(err_text: &str) -> (blocks: Vec<String>)
    ensures
        views(blocks@) == blocking_blocks(lines(err_text@)),
{
    let ls = split_lines(err_text);
    let n: usize = ls.len();
    let ghost all = views(ls@);
    let mut blocks: Vec<String> = Vec::new();
    let mut idx: usize = 0;
    proof {
        assert(all.skip(0) =~= all);
        assert(views(blocks@) + blocking_blocks(all) =~= blocking_blocks(all));
    }
    while idx < n
        invariant
            idx <= n,
            n == ls.len(),
            all == views(ls@),
            views(blocks@) + blocking_blocks(all.skip(idx as int)) == blocking_blocks(all),
        decreases n - idx,
    {
        let ghost rest = all.skip(idx as int);
        proof {
            assert(rest[0] == ls@[idx as int]@);
            assert(rest.drop_first() =~= all.skip(idx + 1));
        }
        if chars_contain(&upper_chars(&ls[idx]), WARNING_MARK) {
            let start: usize = idx;
            idx += 1;
            while idx < n && !is_blank(&ls[idx])
                invariant
                    start < idx <= n,
                    n == ls.len(),
                    all == views(ls@),
                    idx - start - 1 + run_of_text(all.skip(idx as int)) == run_of_text(
                        all.skip(start + 1),
                    ),
                decreases n - idx,
            {
                proof {
                    assert(all.skip(idx as int)[0] == ls@[idx as int]@);
                    assert(all.skip(idx as int).drop_first() =~= all.skip(idx + 1));
                }
                idx += 1;
            }
            proof {
                if idx < n {
                    assert(all.skip(idx as int)[0] == ls@[idx as int]@);
                }
                assert(run_of_text(all.skip(idx as int)) == 0);
                assert(warning_len(rest) == idx - start);
                assert(rest.take(idx - start) =~= all.subrange(start as int, idx as int));
                assert(rest.skip(idx - start) =~= all.skip(idx as int));
            }
            let ghost before = views(blocks@);
            let block = join_range(&ls, start, idx, "\n");
            if is_blocking_warning_block(&block) {
                blocks.push(block);
                proof {
                    assert(views(blocks@) =~= before + seq![block@]);
                    assert(views(blocks@) + blocking_blocks(all.skip(idx as int)) =~= before
                        + blocking_blocks(rest));
                }
            }
        } else {
            idx += 1;
        }
    }
    proof {
        assert(blocking_blocks(all.skip(n as int)) =~= Seq::empty());
        assert(views(blocks@) + Seq::<Seq<char>>::empty() =~= views(blocks@));
    }
    blocks
}

/// The numbered list of the warnings.
pub open spec fn numbered_blocks(blocks: Seq<Seq<char>>) -> Seq<char>
    decreases blocks.len(),
{
    if blocks.len() == 0 {
        Seq::empty()
    } else {
        numbered_blocks(blocks.drop_last()) + "Blocking warning "@ + decimal_text(
            blocks.len() as nat,
        ) + ":\n"@ + blocks.last() + "\n\n"@
    }
}

/// The report on an `.err` file: none where it holds neither an error nor a warning that likely
/// leaves the model incomplete.
pub open spec fn run_issue(err_text: Seq<char>) -> Option<Seq<char>> {
    let blocks = blocking_blocks(lines(err_text));
    if !reports_error(err_text) && blocks.len() == 0 {
        None
    } else {
        let errors = if reports_error(err_text) {
            ERRORS_FOUND@
        } else {
            Seq::empty()
        };
        let warnings = if blocks.len() > 0 {
            WARNINGS_FOUND@ + numbered_blocks(blocks)
        } else {
            Seq::empty()
        };
        Some(errors + warnings + FULL_CONTENT@ + err_text)
    }
}

/// Writes the numbered list of the warnings.
fn number_blocks(blocks: &Vec<String>) -> (r: String)
    ensures
        r@ == numbered_blocks(views(blocks@)),
{
    let mut r = String::new();
    let ghost all = views(blocks@);
    for i in 0..blocks.len()
        invariant
            all == views(blocks@),
            r@ == numbered_blocks(all.take(i as int)),
    {
        r.append("Blocking warning ");
        r.append(decimal((i + 1) as u128).as_str());
        r.append(":\n");
        r.append(&blocks[i]);
        r.append("\n\n");
        proof {
            assert(all.take(i + 1).drop_last() =~= all.take(i as int));
            assert(all.take(i + 1).last() == blocks@[i as int]@);
        }
    }
    proof {
        assert(all.take(blocks@.len() as int) =~= all);
    }
    r
}

/// Reports on an `.err` file.
pub fn classify_ansys_run_issue(err_text: &str) -> (r: Option<String>)
    ensures
        match r {
            Some(report) => run_issue(err_text@) == Some(report@),
            None => run_issue(err_text@) is None,
        },
{
    let has_error = contains_ansys_error(err_text);
    let blocks = extract_blocking_warning_blocks(err_text);
    if !has_error && blocks.len() == 0 {
        return None;
    }
    let mut report = String::new();
    if has_error {
        report.append(ERRORS_FOUND);
    }
    proof {
        if has_error {
            assert(report@ =~= ERRORS_FOUND@);
        }
        assert(report@ + Seq::<char>::empty() =~= report@);
    }
    if blocks.len() > 0 {
        let mut warnings = WARNINGS_FOUND.to_owned();
        warnings.append(number_blocks(&blocks).as_str());
        report.append(&warnings);
    }
    report.append(FULL_CONTENT);
    report.append(err_text);
    Some(report)
}

/// Every warning that is reported is one that likely leaves the model incomplete.
pub proof fn law_reported_warnings_block(ls: Seq<Seq<char>>, i: int)
    requires
        0 <= i < blocking_blocks(ls).len(),
    ensures
        is_blocking(blocking_blocks(ls)[i]),
    decreases ls.len(),
{
    if has_text(upper(ls[0]), WARNING_MARK@) {
        let n = warning_len(ls) as int;
        lemma_run_of_text(ls.drop_first());
        let block = joined(ls.take(n), "\n"@);
        let rest = blocking_blocks(ls.skip(n));
        if !is_blocking(block) {
            law_reported_warnings_block(ls.skip(n), i);
        } else if i > 0 {
            law_reported_warnings_block(ls.skip(n), i - 1);
            assert((seq![block] + rest)[i] == rest[i - 1]);
        }
    } else {
        law_reported_warnings_block(ls.drop_first(), i);
    }
}

/// An `.err` file in which no line holds the mark of an error or of a warning calls for no
/// repair, and one with an error always does.
pub proof fn law_marks_decide(err_text: Seq<char>)
    ensures
        !reports_error(err_text) && !marked(lines(err_text), WARNING_MARK@) ==> run_issue(
            err_text,
        ) is None,
        reports_error(err_text) ==> run_issue(err_text) is Some,
{
    if !marked(lines(err_text), WARNING_MARK@) {
        lemma_unmarked_lines(lines(err_text));
    }
}

/// A report holds the whole `.err` file.
pub proof fn law_report_holds_err_file(err_text: Seq<char>)
    ensures
        run_issue(err_text) matches Some(report) ==> has_text(report, err_text),
{
    if let Some(report) = run_issue(err_text) {
        let before = report.take(report.len() - err_text.len());
        assert(report =~= before + err_text + Seq::empty());
        lemma_middle_occurs(before, err_text, Seq::empty());
    }
}

proof fn lemma_unmarked_lines(ls: Seq<Seq<char>>)
    requires
        !marked(ls, WARNING_MARK@),
    ensures
        blocking_blocks(ls).len() == 0,
    decreases ls.len(),
{
    if ls.len() > 0 {
        assert(!has_text(upper(ls[0]), WARNING_MARK@));
        assert forall|i: int| 0 <= i < ls.drop_first().len() implies !has_text(
            #[trigger] upper(ls.drop_first()[i]),
            WARNING_MARK@,
        ) by {
            assert(ls.drop_first()[i] == ls[i + 1]);
            assert(!has_text(upper(ls[i + 1]), WARNING_MARK@));
        }
        lemma_unmarked_lines(ls.drop_first());
    }
}

/// A run of lines ends at the first blank one.
proof fn lemma_run_ends_at_blank(ls: Seq<Seq<char>>)
    ensures
        run_of_text(ls) <= ls.len(),
        forall|k: int| 0 <= k < run_of_text(ls) ==> trimmed(#[trigger] ls[k]).len() > 0,
        run_of_text(ls) < ls.len() ==> trimmed(ls[run_of_text(ls) as int]).len() == 0,
    decreases ls.len(),
{
    if ls.len() > 0 && trimmed(ls[0]).len() > 0 {
        let rest = ls.drop_first();
        lemma_run_ends_at_blank(rest);
        assert forall|k: int| 0 <= k < run_of_text(ls) implies trimmed(#[trigger] ls[k]).len()
            > 0 by {
            if k > 0 {
                assert(ls[k] == rest[k - 1]);
            }
        }
    }
}

/// The phrases that make a warning one that likely leaves the model incomplete, in any case.
pub proof fn law_blocking_phrases(block: Seq<char>)
    ensures
        is_blocking(block) <==> {
            let t = upper(block);
            ||| has_text(t, "COMMAND IS IGNORED"@)
            ||| has_text(t, "NOT PERMITTED"@)
            ||| has_text(t, "NO AREAS EXIST"@)
            ||| has_text(t, "NO VOLUMES EXIST"@)
            ||| has_text(t, "NO ELEMENTS EXIST"@)
            ||| has_text(t, "NO ITEMS ARE SELECTED"@)
            ||| has_text(t, "UNDEFINED"@)
            ||| has_text(t, "DEGENERATE"@)
            ||| has_text(t, "CANNOT BE MESHED"@)
            ||| has_text(t, "UNABLE TO"@)
        },
{
    let t = upper(block);
    let all = texts(BLOCKING_PATTERNS@);
    assert(all.len() == 10);
    assert(all[0] == "COMMAND IS IGNORED"@ && all[1] == "NOT PERMITTED"@ && all[2]
        == "NO AREAS EXIST"@ && all[3] == "NO VOLUMES EXIST"@ && all[4] == "NO ELEMENTS EXIST"@
        && all[5] == "NO ITEMS ARE SELECTED"@ && all[6] == "UNDEFINED"@ && all[7] == "DEGENERATE"@
        && all[8] == "CANNOT BE MESHED"@ && all[9] == "UNABLE TO"@);
    if is_blocking(block) {
        let i = choose|i: int| 0 <= i < all.len() && has_text(t, #[trigger] all[i]);
        assert(0 <= i < 10);
    }
}

/// No blocking warning is passed over: where a line of the `.err` file holds the mark of a
/// warning, the lines after it up to `j` are not blank, and one of the blocking phrases stands
/// in all these lines together, even across their ends, the file calls for a repair, and these
/// lines stand in one of the warnings that are reported.
pub proof fn law_blocking_warnings_are_reported(err_text: Seq<char>, i: int, j: int)
    requires
        0 <= i <= j < lines(err_text).len(),
        has_text(upper(lines(err_text)[i]), "*** WARNING ***"@),
        forall|k: int| i < k <= j ==> trimmed(#[trigger] lines(err_text)[k]).len() > 0,
        has_any(
            upper(joined(lines(err_text).subrange(i, j + 1), "\n"@)),
            texts(BLOCKING_PATTERNS@),
        ),
    ensures
        run_issue(err_text) is Some,
        exists|b: int|
            0 <= b < blocking_blocks(lines(err_text)).len() && has_text(
                #[trigger] blocking_blocks(lines(err_text))[b],
                joined(lines(err_text).subrange(i, j + 1), "\n"@),
            ),
{
    lemma_blocking_lines_reported(lines(err_text), i, j);
}

proof fn lemma_blocking_lines_reported(ls: Seq<Seq<char>>, i: int, j: int)
    requires
        0 <= i <= j < ls.len(),
        has_text(upper(ls[i]), WARNING_MARK@),
        forall|k: int| i < k <= j ==> trimmed(#[trigger] ls[k]).len() > 0,
        has_any(upper(joined(ls.subrange(i, j + 1), "\n"@)), texts(BLOCKING_PATTERNS@)),
    ensures
        exists|b: int|
            0 <= b < blocking_blocks(ls).len() && has_text(
                #[trigger] blocking_blocks(ls)[b],
                joined(ls.subrange(i, j + 1), "\n"@),
            ),
    decreases ls.len(),
{
    let part = joined(ls.subrange(i, j + 1), "\n"@);
    let all = blocking_blocks(ls);
    if has_text(upper(ls[0]), WARNING_MARK@) {
        let n = warning_len(ls) as int;
        let rest = ls.drop_first();
        lemma_run_ends_at_blank(rest);
        if i < n {
            if j >= n {
                assert(ls[n] == rest[n - 1]);
                assert(trimmed(ls[n]).len() > 0);
            }
            let own = ls.take(n);
            let block = joined(own, "\n"@);
            lemma_joined_holds_range(own, "\n"@, i, j + 1);
            assert(own.subrange(i, j + 1) =~= ls.subrange(i, j + 1));
            lemma_upper_part(block, part);
            let p = choose|p: int|
                0 <= p < texts(BLOCKING_PATTERNS@).len() && has_text(
                    upper(part),
                    #[trigger] texts(BLOCKING_PATTERNS@)[p],
                );
            lemma_part_of_part(upper(block), upper(part), texts(BLOCKING_PATTERNS@)[p]);
            assert(is_blocking(block));
            assert(all[0] == block);
            assert(has_text(all[0], part));
        } else {
            let after = ls.skip(n);
            assert forall|k: int| i - n < k <= j - n implies trimmed(#[trigger] after[k]).len()
                > 0 by {
                assert(after[k] == ls[k + n]);
            }
            assert(after.subrange(i - n, j - n + 1) =~= ls.subrange(i, j + 1));
            lemma_blocking_lines_reported(after, i - n, j - n);
            let found = blocking_blocks(after);
            let b = choose|b: int| 0 <= b < found.len() && has_text(#[trigger] found[b], part);
            let own = if is_blocking(joined(ls.take(n), "\n"@)) {
                1int
            } else {
                0
            };
            assert(all[b + own] == found[b]);
        }
    } else {
        let rest = ls.drop_first();
        assert forall|k: int| i - 1 < k <= j - 1 implies trimmed(#[trigger] rest[k]).len() > 0 by {
            assert(rest[k] == ls[k + 1]);
        }
        assert(rest.subrange(i - 1, j) =~= ls.subrange(i, j + 1));
        lemma_blocking_lines_reported(rest, i - 1, j - 1);
    }
}

/// Every warning that is reported is whole: it begins in a line with the mark, and goes on up to
/// a blank line or to the end of the file.
pub proof fn law_reported_warnings_are_whole(ls: Seq<Seq<char>>, b: int)
    requires
        0 <= b < blocking_blocks(ls).len(),
    ensures
        exists|i: int, e: int|
            {
                &&& 0 <= i < e <= ls.len()
                &&& blocking_blocks(ls)[b] == joined(#[trigger] ls.subrange(i, e), "\n"@)
                &&& has_text(upper(ls[i]), "*** WARNING ***"@)
                &&& forall|k: int| i < k < e ==> trimmed(#[trigger] ls[k]).len() > 0
                &&& e == ls.len() || trimmed(ls[e]).len() == 0
            },
    decreases ls.len(),
{
    let all = blocking_blocks(ls);
    if has_text(upper(ls[0]), WARNING_MARK@) {
        let n = warning_len(ls) as int;
        let first = ls.drop_first();
        lemma_run_ends_at_blank(first);
        let block = joined(ls.take(n), "\n"@);
        let rest = blocking_blocks(ls.skip(n));
        let own: int = if is_blocking(block) {
            1
        } else {
            0
        };
        if b < own {
            assert(ls.subrange(0, n) =~= ls.take(n));
            assert forall|k: int| 0 < k < n implies trimmed(#[trigger] ls[k]).len() > 0 by {
                assert(ls[k] == first[k - 1]);
            }
            if n < ls.len() {
                assert(ls[n] == first[n - 1]);
            }
            assert(all[b] == joined(ls.subrange(0, n), "\n"@));
        } else {
            law_reported_warnings_are_whole(ls.skip(n), b - own);
            assert(all[b] == rest[b - own]);
            lemma_shifted_block(ls, n, all[b]);
        }
    } else {
        law_reported_warnings_are_whole(ls.drop_first(), b);
        assert(ls.drop_first() =~= ls.skip(1));
        lemma_shifted_block(ls, 1, all[b]);
    }
}

proof fn lemma_shifted_block(ls: Seq<Seq<char>>, n: int, block: Seq<char>)
    requires
        0 <= n <= ls.len(),
        exists|i: int, e: int|
            {
                &&& 0 <= i < e <= ls.skip(n).len()
                &&& block == joined(#[trigger] ls.skip(n).subrange(i, e), "\n"@)
                &&& has_text(upper(ls.skip(n)[i]), WARNING_MARK@)
                &&& forall|k: int| i < k < e ==> trimmed(#[trigger] ls.skip(n)[k]).len() > 0
                &&& e == ls.skip(n).len() || trimmed(ls.skip(n)[e]).len() == 0
            },
    ensures
        exists|i: int, e: int|
            {
                &&& 0 <= i < e <= ls.len()
                &&& block == joined(#[trigger] ls.subrange(i, e), "\n"@)
                &&& has_text(upper(ls[i]), WARNING_MARK@)
                &&& forall|k: int| i < k < e ==> trimmed(#[trigger] ls[k]).len() > 0
                &&& e == ls.len() || trimmed(ls[e]).len() == 0
            },
{
    let rest = ls.skip(n);
    let (i, e) = choose|i: int, e: int|
        {
            &&& 0 <= i < e <= rest.len()
            &&& block == joined(#[trigger] rest.subrange(i, e), "\n"@)
            &&& has_text(upper(rest[i]), WARNING_MARK@)
            &&& forall|k: int| i < k < e ==> trimmed(#[trigger] rest[k]).len() > 0
            &&& e == rest.len() || trimmed(rest[e]).len() == 0
        };
    assert(ls.subrange(i + n, e + n) =~= rest.subrange(i, e));
    assert forall|k: int| i + n < k < e + n implies trimmed(#[trigger] ls[k]).len() > 0 by {
        assert(ls[k] == rest[k - n]);
    }
}

/// A line with the mark of an error, in any case, always calls for a repair; and the report names
/// each of the blocking warnings.
pub proof fn law_report_tells_all(err_text: Seq<char>, i: int, b: int)
    ensures
        0 <= i < lines(err_text).len() && has_text(upper(lines(err_text)[i]), "*** ERROR ***"@)
            ==> run_issue(err_text) is Some,
        0 <= b < blocking_blocks(lines(err_text)).len() ==> run_issue(err_text) is Some && has_text(
            run_issue(err_text)->0,
            blocking_blocks(lines(err_text))[b],
        ),
{
    if 0 <= i < lines(err_text).len() && has_text(upper(lines(err_text)[i]), ERROR_MARK@) {
        assert(reports_error(err_text));
    }
    let blocks = blocking_blocks(lines(err_text));
    if 0 <= b < blocks.len() {
        let errors = if reports_error(err_text) {
            ERRORS_FOUND@
        } else {
            Seq::empty()
        };
        let list = numbered_blocks(blocks);
        lemma_numbered_holds(blocks, b);
        let report = run_issue(err_text)->0;
        assert(report =~= (errors + WARNINGS_FOUND@) + list + (FULL_CONTENT@ + err_text));
        lemma_middle_occurs(errors + WARNINGS_FOUND@, list, FULL_CONTENT@ + err_text);
        lemma_part_of_part(report, list, blocks[b]);
    }
}

proof fn lemma_numbered_holds(blocks: Seq<Seq<char>>, b: int)
    requires
        0 <= b < blocks.len(),
    ensures
        has_text(numbered_blocks(blocks), blocks[b]),
    decreases blocks.len(),
{
    let head = numbered_blocks(blocks.drop_last()) + "Blocking warning "@ + decimal_text(
        blocks.len() as nat,
    ) + ":\n"@;
    if b == blocks.len() - 1 {
        lemma_middle_occurs(head, blocks[b], "\n\n"@);
    } else {
        lemma_numbered_holds(blocks.drop_last(), b);
        let start = numbered_blocks(blocks.drop_last());
        lemma_appended_occurs(start, "Blocking warning "@, blocks[b]);
        lemma_appended_occurs(
            start + "Blocking warning "@,
            decimal_text(blocks.len() as nat),
            blocks[b],
        );
        lemma_appended_occurs(
            start + "Blocking warning "@ + decimal_text(blocks.len() as nat),
            ":\n"@,
            blocks[b],
        );
        lemma_appended_occurs(head, blocks.last(), blocks[b]);
        lemma_appended_occurs(head + blocks.last(), "\n\n"@, blocks[b]);
    }
}

/// An `.err` file calls for no repair where no line holds the mark of an error, and none of the
/// phrases of a blocking warning stands in the lines of a warning.
pub proof fn law_harmless_err_file_is_accepted(err_text: Seq<char>)
    requires
        forall|i: int|
            0 <= i < lines(err_text).len() ==> !has_text(
                upper(#[trigger] lines(err_text)[i]),
                "*** ERROR ***"@,
            ),
        forall|i: int, e: int|
            0 <= i < e <= lines(err_text).len() && has_text(
                upper(lines(err_text)[i]),
                "*** WARNING ***"@,
            ) ==> !is_blocking(joined(#[trigger] lines(err_text).subrange(i, e), "\n"@)),
    ensures
        !reports_error(err_text),
        run_issue(err_text) is None,
{
    let ls = lines(err_text);
    let blocks = blocking_blocks(ls);
    if blocks.len() > 0 {
        law_reported_warnings_are_whole(ls, 0);
        law_reported_warnings_block(ls, 0);
        let (i, e) = choose|i: int, e: int|
            {
                &&& 0 <= i < e <= ls.len()
                &&& blocks[0] == joined(#[trigger] ls.subrange(i, e), "\n"@)
                &&& has_text(upper(ls[i]), "*** WARNING ***"@)
                &&& forall|k: int| i < k < e ==> trimmed(#[trigger] ls[k]).len() > 0
                &&& e == ls.len() || trimmed(ls[e]).len() == 0
            };
        assert(!is_blocking(joined(ls.subrange(i, e), "\n"@)));
    }
}

} // verus!
