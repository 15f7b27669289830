//! The source materials and the summary that the model is shown of them.

use vstd::prelude::*;

use crate::clip::{law_truncated_length, truncate_chars, truncated};
use crate::number::{decimal, decimal_text};
use crate::order::{
    compare_text, in_order, law_sort_orders, law_sort_permutes, law_text_order, sort_stable,
    text_less, Rank, Ranked,
};
use crate::text::{
    begins_with, contains, ends_in, has_text, inner_text, join, joined, law_joined_holds_parts,
    lemma_part_of_part, lower, occurs_at, same_text, text_in, to_chars, to_lower, trim, trimmed,
    views,
};

verus! {

/// The kind of a text file.
pub const TEXT_KIND: &'static str = "text";

/// The kind of an image.
pub const IMAGE_KIND: &'static str = "image";

/// What the path of a text holds that describes the model in a structured way.
pub const STRUCTURED_MARK: &'static str = "structured";

/// How many characters of one text the summary shows.
pub const MAX_SUMMARY_CHARS_PER_TEXT: usize = 4_000;

/// How many characters of one text the summary shows where another text is structured.
pub const MAX_SUMMARY_CHARS_BESIDE_STRUCTURED: usize = 800;

/// How many characters of all texts the summary shows.
pub const MAX_SUMMARY_TEXT_CHARS_TOTAL: usize = 12_000;

/// What stands in the summary for a text for which no room is left.
pub const TEXT_OMITTED: &'static str = "[text omitted: summary budget exhausted]";

/// A source file.
#[derive(Debug)]
pub struct InputAsset {
    pub path: String,
    /// The path below the input directory.
    pub relative_path: String,
    /// [`TEXT_KIND`] or [`IMAGE_KIND`].
    pub kind: String,
    /// The text of a text file.
    pub text: Option<String>,
}

/// The kind of a file with an extension, in any case; none where it is no source material.
pub open spec fn kind_of(extension: Option<Seq<char>>) -> Option<Seq<char>> {
    match extension {
        None => None,
        Some(extension) => {
            let ext = lower(extension);
            if ext == "txt"@ || ext == "md"@ {
                Some(TEXT_KIND@)
            } else if ext == "png"@ || ext == "jpg"@ || ext == "jpeg"@ || ext == "bmp"@ {
                Some(IMAGE_KIND@)
            } else {
                None
            }
        },
    }
}

/// The kind of a file, by its extension.
pub fn classify_asset(extension: Option<&str>) -> (r: Option<&'static str>)
    ensures
        match r {
            Some(kind) => kind_of(text_in(extension)) == Some(kind@),
            None => kind_of(text_in(extension)) is None,
        },
{
    match extension {
        None => None,
        Some(extension) => {
            let ext = to_lower(extension);
            if same_text(&ext, "txt") || same_text(&ext, "md") {
                Some(TEXT_KIND)
            } else if same_text(&ext, "png") || same_text(&ext, "jpg") || same_text(&ext, "jpeg")
                || same_text(&ext, "bmp") {
                Some(IMAGE_KIND)
            } else {
                None
            }
        },
    }
}

impl Ranked for InputAsset {
    open spec fn precedes(self, other: Self) -> bool {
        text_less(self.relative_path@, other.relative_path@)
    }

    fn goes_before(&self, other: &Self) -> (r: bool) {
        proof {
            law_text_order(self.relative_path@, other.relative_path@, self.relative_path@);
        }
        match compare_text(&self.relative_path, &other.relative_path) {
            Rank::Before => true,
            _ => false,
        }
    }

    proof fn order_laws(a: Self, b: Self, c: Self) {
        law_text_order(a.relative_path@, b.relative_path@, c.relative_path@);
        law_text_order(c.relative_path@, b.relative_path@, a.relative_path@);
        law_text_order(b.relative_path@, a.relative_path@, c.relative_path@);
        law_text_order(c.relative_path@, a.relative_path@, b.relative_path@);
        law_text_order(a.relative_path@, c.relative_path@, b.relative_path@);
        law_text_order(b.relative_path@, c.relative_path@, a.relative_path@);
    }
}

/// The path of an asset says that it describes the model in a structured way.
pub open spec fn is_structured(asset: InputAsset) -> bool {
    has_text(lower(asset.relative_path@), STRUCTURED_MARK@)
}

/// One of the texts describes the model in a structured way.
pub open spec fn has_structured_text(assets: Seq<InputAsset>) -> bool {
    exists|i: int|
        0 <= i < assets.len() && (#[trigger] assets[i]).kind@ == TEXT_KIND@ && is_structured(
            assets[i],
        )
}

/// How many characters of a text are shown after `used` characters of other texts. A text that
/// is not structured gives way to one that is.
pub open spec fn budget(used: nat, gives_way: bool) -> nat {
    let left = if used < MAX_SUMMARY_TEXT_CHARS_TOTAL {
        (MAX_SUMMARY_TEXT_CHARS_TOTAL - used) as nat
    } else {
        0
    };
    let most = if gives_way {
        MAX_SUMMARY_CHARS_BESIDE_STRUCTURED as nat
    } else {
        MAX_SUMMARY_CHARS_PER_TEXT as nat
    };
    if left < most {
        left
    } else {
        most
    }
}

/// How many characters of the texts of `assets` are shown.
pub open spec fn shown_chars(assets: Seq<InputAsset>, structured: bool) -> nat
    decreases assets.len(),
{
    if assets.len() == 0 {
        0
    } else {
        let used = shown_chars(assets.drop_last(), structured);
        let asset = assets.last();
        let room = budget(used, structured && !is_structured(asset));
        match inner_text(asset.text) {
            Some(text) if room > 0 => used + truncated(trimmed(text), room).len(),
            _ => used,
        }
    }
}

/// What is shown of a text.
pub open spec fn excerpt(text: Seq<char>, room: nat) -> Seq<char> {
    let cut = truncated(trimmed(text), room);
    if room == 0 {
        TEXT_OMITTED@
    } else if cut.len() < trimmed(text).len() {
        cut + "\n\n[truncated]"@
    } else {
        cut
    }
}

/// The sections on one asset, after `used` characters of other texts.
pub open spec fn asset_sections(asset: InputAsset, used: nat, structured: bool) -> Seq<Seq<char>> {
    let header = "- ["@ + asset.kind@ + "] "@ + asset.relative_path@;
    match inner_text(asset.text) {
        Some(text) => seq![
            header,
            excerpt(text, budget(used, structured && !is_structured(asset))),
        ],
        None => seq![header],
    }
}

/// The sections on all the assets.
pub open spec fn all_sections(assets: Seq<InputAsset>, structured: bool) -> Seq<Seq<char>>
    decreases assets.len(),
{
    if assets.len() == 0 {
        Seq::empty()
    } else {
        let before = assets.drop_last();
        all_sections(before, structured) + asset_sections(
            assets.last(),
            shown_chars(before, structured),
            structured,
        )
    }
}

/// The summary of the assets.
pub open spec fn input_summary(assets: Seq<InputAsset>) -> Seq<char> {
    joined(
        seq!["OpenAnsys input summary"@, "Total assets: "@ + decimal_text(assets.len())]
            + all_sections(assets, has_structured_text(assets)),
        "\n\n"@,
    )
}

/// Tells whether an asset describes the model in a structured way.
fn check_structured(asset: &InputAsset) -> (r: bool)
    ensures
        r == is_structured(*asset),
{
    contains(&to_lower(&asset.relative_path), STRUCTURED_MARK)
}

/// Tells whether one of the texts describes the model in a structured way.
fn find_structured_text(assets: &Vec<InputAsset>) -> (r: bool)
    ensures
        r == has_structured_text(assets@),
{
    for i in 0..assets.len()
        invariant
            forall|k: int|
                0 <= k < i ==> !((#[trigger] assets@[k]).kind@ == TEXT_KIND@ && is_structured(
                    assets@[k],
                )),
    {
        if same_text(&assets[i].kind, TEXT_KIND) && check_structured(&assets[i]) {
            return true;
        }
    }
    false
}

/// The first line of the sections on an asset.
fn asset_header(asset: &InputAsset) -> (r: String)
    ensures
        r@ == "- ["@ + asset.kind@ + "] "@ + asset.relative_path@,
{
    let mut r = "- [".to_owned();
    r.append(&asset.kind);
    r.append("] ");
    r.append(&asset.relative_path);
    r
}

/// How many characters of a text are shown.
fn room_for(used: usize, gives_way: bool) -> (r: usize)
    ensures
        r == budget(used as nat, gives_way),
{
    let left: usize = MAX_SUMMARY_TEXT_CHARS_TOTAL.saturating_sub(used);
    let most: usize = if gives_way {
        MAX_SUMMARY_CHARS_BESIDE_STRUCTURED
    } else {
        MAX_SUMMARY_CHARS_PER_TEXT
    };
    if left < most {
        left
    } else {
        most
    }
}

/// Writes what is shown of a text, and counts its characters without the marks.
fn write_excerpt(text: &str, room: usize) -> (r: (String, usize))
    requires
        room <= MAX_SUMMARY_CHARS_PER_TEXT,
    ensures
        r.0@ == excerpt(text@, room as nat),
        r.1 == if room == 0 {
            0
        } else {
            truncated(trimmed(text@), room as nat).len()
        },
        r.1 <= room + 3,
{
    if room == 0 {
        return (TEXT_OMITTED.to_owned(), 0);
    }
    let whole = trim(text);
    let mut shown = truncate_chars(&whole, room);
    proof {
        law_truncated_length(whole@, room as nat);
    }
    let length: usize = to_chars(&shown).len();
    if length < to_chars(&whole).len() {
        shown.append("\n\n[truncated]");
    }
    (shown, length)
}

/// Writes the summary of the assets.
pub fn build_input_summary(assets: &Vec<InputAsset>) -> (r: String)
    ensures
        r@ == input_summary(assets@),
{
    let mut sections: Vec<String> = Vec::new();
    sections.push("OpenAnsys input summary".to_owned());
    let mut count = "Total assets: ".to_owned();
    count.append(decimal(assets.len() as u128).as_str());
    sections.push(count);
    let ghost opening = seq![
        "OpenAnsys input summary"@,
        "Total assets: "@ + decimal_text(assets@.len()),
    ];
    let structured = find_structured_text(assets);
    let mut used: usize = 0;
    proof {
        assert(views(sections@) =~= opening);
        assert(opening + Seq::<Seq<char>>::empty() =~= opening);
    }
    for i in 0..assets.len()
        invariant
            used == shown_chars(assets@.take(i as int), structured),
            used <= MAX_SUMMARY_TEXT_CHARS_TOTAL + 3,
            views(sections@) == opening + all_sections(assets@.take(i as int), structured),
    {
        let ghost before = views(sections@);
        let ghost used_before = used as nat;
        let ghost asset = assets@[i as int];
        proof {
            assert(assets@.take(i + 1).drop_last() =~= assets@.take(i as int));
        }
        sections.push(asset_header(&assets[i]));
        if let Some(text) = &assets[i].text {
            let room: usize = room_for(used, structured && !check_structured(&assets[i]));
            let (shown, length) = write_excerpt(text, room);
            used += length;
            sections.push(shown);
        }
        proof {
            let added = asset_sections(asset, used_before, structured);
            assert(views(sections@) =~= before + added);
            assert(before + added =~= opening + all_sections(assets@.take(i + 1), structured));
        }
    }
    proof {
        assert(assets@.take(assets@.len() as int) =~= assets@);
    }
    join(&sections, "\n\n")
}

/// However long the texts are, the summary shows at most the budget of them and the dots of the
/// last cut.
pub proof fn law_summary_budget(assets: Seq<InputAsset>, structured: bool)
    ensures
        shown_chars(assets, structured) <= MAX_SUMMARY_TEXT_CHARS_TOTAL + 3,
    decreases assets.len(),
{
    if assets.len() > 0 {
        law_summary_budget(assets.drop_last(), structured);
        let used = shown_chars(assets.drop_last(), structured);
        let asset = assets.last();
        let room = budget(used, structured && !is_structured(asset));
        if let Some(text) = inner_text(asset.text) {
            law_truncated_length(trimmed(text), room);
        }
    }
}

/// The assets in the order of their relative paths, and their summary; an error where there are
/// none.
pub fn prepare_input_bundle(found: Vec<InputAsset>, input_dir: &str) -> (r: Result<
    (Vec<InputAsset>, String),
    String,
>)
    ensures
        match r {
            Ok(bundle) => {
                &&& found@.len() > 0
                &&& bundle.0@ == in_order(found@)
                &&& bundle.1@ == input_summary(in_order(found@))
            },
            Err(message) => found@.len() == 0 && message@
                == "no supported input assets found under "@ + input_dir@,
        },
{
    if found.len() == 0 {
        let mut message = "no supported input assets found under ".to_owned();
        message.append(input_dir);
        return Err(message);
    }
    let assets = sort_stable(found);
    let summary = build_input_summary(&assets);
    Ok((assets, summary))
}

/// Which files are source materials, by their extension in any case, and of which kind.
pub proof fn law_kinds_of_assets(extension: Seq<char>)
    ensures
        kind_of(None) is None,
        kind_of(Some(extension)) == Some("text"@) <==> lower(extension) == "txt"@ || lower(
            extension,
        ) == "md"@,
        kind_of(Some(extension)) == Some("image"@) <==> lower(extension) == "png"@ || lower(
            extension,
        ) == "jpg"@ || lower(extension) == "jpeg"@ || lower(extension) == "bmp"@,
        kind_of(Some(extension)) matches Some(kind) ==> kind == "text"@ || kind == "image"@,
{
    reveal_strlit("text");
    reveal_strlit("image");
    reveal_strlit("txt");
    reveal_strlit("md");
    reveal_strlit("png");
    reveal_strlit("jpg");
    reveal_strlit("jpeg");
    reveal_strlit("bmp");
    assert("text"@.len() == 4 && "image"@.len() == 5);
    let e = lower(extension);
    if e == "txt"@ {
        assert(e[0] == 't');
    } else if e == "md"@ {
        assert(e[0] == 'm');
    } else if e == "png"@ {
        assert(e[0] == 'p');
    }
}

/// The sections on an asset stand in the summary.
proof fn lemma_sections_in_summary(assets: Seq<InputAsset>, i: int, k: int)
    requires
        0 <= i < assets.len(),
        ({
            let structured = has_structured_text(assets);
            let own = asset_sections(
                assets[i],
                shown_chars(assets.take(i), structured),
                structured,
            );
            0 <= k < own.len()
        }),
    ensures
        ({
            let structured = has_structured_text(assets);
            let own = asset_sections(
                assets[i],
                shown_chars(assets.take(i), structured),
                structured,
            );
            has_text(input_summary(assets), own[k])
        }),
{
    let structured = has_structured_text(assets);
    let own = asset_sections(assets[i], shown_chars(assets.take(i), structured), structured);
    let opening = seq![
        "OpenAnsys input summary"@,
        "Total assets: "@ + decimal_text(assets.len()),
    ];
    let sections = all_sections(assets, structured);
    lemma_own_sections(assets, structured, i);
    let at = all_sections(assets.take(i), structured).len() + k;
    assert(sections[at as int] == own[k]);
    let all = opening + sections;
    assert(all[2 + at] == own[k]);
    law_joined_holds_parts(all, "\n\n"@, 2 + at);
}

proof fn lemma_own_sections(assets: Seq<InputAsset>, structured: bool, i: int)
    requires
        0 <= i < assets.len(),
    ensures
        ({
            let before = all_sections(assets.take(i), structured);
            let own = asset_sections(
                assets[i],
                shown_chars(assets.take(i), structured),
                structured,
            );
            let all = all_sections(assets, structured);
            &&& before.len() + own.len() <= all.len()
            &&& forall|k: int|
                0 <= k < own.len() ==> all[before.len() + k] == #[trigger] own[k]
        }),
    decreases assets.len(),
{
    let head = assets.drop_last();
    if i == assets.len() - 1 {
        assert(assets.take(i) =~= head);
    } else {
        lemma_own_sections(head, structured, i);
        assert(head.take(i) =~= assets.take(i));
        assert(head[i] == assets[i]);
    }
}

/// Every source file is named in the summary, with its kind.
pub proof fn law_summary_names_every_asset(assets: Seq<InputAsset>, i: int)
    requires
        0 <= i < assets.len(),
    ensures
        has_text(
            input_summary(assets),
            "- ["@ + assets[i].kind@ + "] "@ + assets[i].relative_path@,
        ),
{
    lemma_sections_in_summary(assets, i, 0);
}

/// The characters of the texts before an asset, without the space around them.
pub open spec fn text_chars(assets: Seq<InputAsset>) -> nat
    decreases assets.len(),
{
    if assets.len() == 0 {
        0
    } else {
        text_chars(assets.drop_last()) + match inner_text(assets.last().text) {
            Some(text) => trimmed(text).len(),
            None => 0,
        }
    }
}

/// The characters of texts are those of their parts together.
pub proof fn law_text_chars_add_up(a: Seq<InputAsset>, b: Seq<InputAsset>)
    ensures
        text_chars(a + b) == text_chars(a) + text_chars(b),
        a.len() == 1 ==> text_chars(a) == match inner_text(a[0].text) {
            Some(text) => trimmed(text).len(),
            None => 0,
        },
    decreases b.len(),
{
    if b.len() == 0 {
        assert(a + b =~= a);
    } else {
        law_text_chars_add_up(a, b.drop_last());
        assert((a + b).drop_last() =~= a + b.drop_last());
    }
    if a.len() == 1 {
        assert(a.drop_last().len() == 0);
        assert(text_chars(a.drop_last()) == 0);
    }
}

/// Texts that fit are shown whole: where the texts up to and with this one have no more than
/// 12 000 characters together, each of them no more than 800, the summary holds this one from
/// its first to its last character.
pub proof fn law_summary_shows_small_texts(assets: Seq<InputAsset>, i: int)
    requires
        0 <= i < assets.len(),
        assets[i].text is Some,
        text_chars(assets.take(i + 1)) <= 12_000,
        forall|k: int|
            0 <= k <= i ==> (inner_text((#[trigger] assets[k]).text) matches Some(text)
                ==> trimmed(text).len() <= 800),
        trimmed(assets[i].text->0@).len() > 0,
    ensures
        has_text(input_summary(assets), trimmed(assets[i].text->0@)),
{
    let structured = has_structured_text(assets);
    let text = assets[i].text->0@;
    let used = shown_chars(assets.take(i), structured);
    assert(assets.take(i + 1).drop_last() =~= assets.take(i));
    lemma_small_texts_used(assets, structured, i);
    let room = budget(used, structured && !is_structured(assets[i]));
    assert(trimmed(text).len() <= room);
    law_truncated_length(trimmed(text), room);
    assert(excerpt(text, room) == trimmed(text));
    lemma_sections_in_summary(assets, i, 1);
}

proof fn lemma_small_texts_used(assets: Seq<InputAsset>, structured: bool, n: int)
    requires
        0 <= n <= assets.len(),
        text_chars(assets.take(n)) <= 12_000,
        forall|k: int|
            0 <= k < n ==> (inner_text((#[trigger] assets[k]).text) matches Some(text)
                ==> trimmed(text).len() <= 800),
    ensures
        shown_chars(assets.take(n), structured) <= text_chars(assets.take(n)),
    decreases n,
{
    if n > 0 {
        assert(assets.take(n).drop_last() =~= assets.take(n - 1));
        assert(assets.take(n).last() == assets[n - 1]);
        lemma_small_texts_used(assets, structured, n - 1);
        let used = shown_chars(assets.take(n - 1), structured);
        let room = budget(used, structured && !is_structured(assets[n - 1]));
        if let Some(text) = inner_text(assets[n - 1].text) {
            law_truncated_length(trimmed(text), room);
            assert(trimmed(text).len() <= 800);
            if room < trimmed(text).len() {
                assert(room == 12_000 - used);
                assert(text_chars(assets.take(n)) == text_chars(assets.take(n - 1)) + trimmed(
                    text,
                ).len());
            }
        }
    }
}

/// The first text is shown up to 4 000 characters, and up to 800 where it gives way to a
/// structured one: so much of its beginning stands in the summary.
pub proof fn law_summary_shows_beginning(assets: Seq<InputAsset>)
    requires
        assets.len() > 0,
        assets[0].text is Some,
    ensures
        ({
            let text = trimmed(assets[0].text->0@);
            let gives_way = (exists|i: int|
                0 <= i < assets.len() && (#[trigger] assets[i]).kind@ == "text"@ && has_text(
                    lower(assets[i].relative_path@),
                    "structured"@,
                )) && !has_text(lower(assets[0].relative_path@), "structured"@);
            let most: int = if gives_way {
                800
            } else {
                4_000
            };
            let shown = if text.len() <= most {
                text
            } else {
                text.take(most)
            };
            has_text(input_summary(assets), shown)
        }),
{
    let structured = has_structured_text(assets);
    let whole = assets[0].text->0@;
    let text = trimmed(whole);
    assert(assets.take(0).len() == 0);
    assert(shown_chars(assets.take(0), structured) == 0);
    let room = budget(0, structured && !is_structured(assets[0]));
    lemma_sections_in_summary(assets, 0, 1);
    let own = excerpt(whole, room);
    let shown = if text.len() <= room {
        text
    } else {
        text.take(room as int)
    };
    reveal_strlit("...");
    assert(own.subrange(0, shown.len() as int) =~= shown);
    assert(occurs_at(own, shown, 0));
    lemma_part_of_part(input_summary(assets), own, shown);
}

/// The materials are handed on in the order of their relative paths, every one of them once.
pub proof fn law_assets_by_path(found: Seq<InputAsset>)
    ensures
        ({
            let sorted = in_order(found);
            &&& sorted.len() == found.len()
            &&& sorted.to_multiset() == found.to_multiset()
            &&& forall|i: int, j: int|
                0 <= i < j < sorted.len() ==> !text_less(
                    (#[trigger] sorted[j]).relative_path@,
                    (#[trigger] sorted[i]).relative_path@,
                )
        }),
{
    law_sort_permutes(found);
    law_sort_orders(found);
    let sorted = in_order(found);
    assert forall|i: int, j: int| 0 <= i < j < sorted.len() implies !text_less(
        (#[trigger] sorted[j]).relative_path@,
        (#[trigger] sorted[i]).relative_path@,
    ) by {
        assert(!sorted[j].precedes(sorted[i]));
    }
}

/// What is shown of a text: all of it where there is room, else as much of its beginning as there
/// is room for and the mark that it was cut; without room only that it was left out.
pub proof fn law_excerpts(text: Seq<char>, room: nat)
    ensures
        room == 0 ==> excerpt(text, room) == "[text omitted: summary budget exhausted]"@,
        room > 0 && trimmed(text).len() <= room ==> excerpt(text, room) == trimmed(text),
        room > 0 && trimmed(text).len() > room ==> begins_with(
            excerpt(text, room),
            trimmed(text).take(room as int),
        ),
        room > 0 && trimmed(text).len() > room + 3 ==> ends_in(
            excerpt(text, room),
            "\n\n[truncated]"@,
        ),
{
    let t = trimmed(text);
    let shown = excerpt(text, room);
    let mark = "\n\n[truncated]"@;
    reveal_strlit("...");
    if room > 0 && t.len() > room {
        assert(shown.subrange(0, room as int) =~= t.take(room as int));
        if t.len() > room + 3 {
            assert(shown.subrange(shown.len() - mark.len(), shown.len() as int) =~= mark);
        }
    }
}

/// Texts that fit use as much of the budget as they have characters, and no text is left out
/// before it is used up.
pub proof fn law_budget_is_used_by_texts(assets: Seq<InputAsset>, structured: bool)
    requires
        text_chars(assets) <= 12_000,
        forall|k: int|
            0 <= k < assets.len() ==> (inner_text((#[trigger] assets[k]).text) matches Some(text)
                ==> trimmed(text).len() <= 800),
    ensures
        shown_chars(assets, structured) == text_chars(assets),
        text_chars(assets) < 12_000 ==> budget(shown_chars(assets, structured), true) > 0,
    decreases assets.len(),
{
    if assets.len() > 0 {
        let head = assets.drop_last();
        assert forall|k: int| 0 <= k < head.len() implies (inner_text(
            (#[trigger] head[k]).text,
        ) matches Some(text) ==> trimmed(text).len() <= 800) by {
            assert(head[k] == assets[k]);
        }
        law_budget_is_used_by_texts(head, structured);
        let asset = assets.last();
        let room = budget(shown_chars(head, structured), structured && !is_structured(asset));
        if let Some(text) = inner_text(asset.text) {
            assert(assets[assets.len() - 1] == asset);
            law_truncated_length(trimmed(text), room);
        }
    }
}

/// A text is shown up to 4 000 characters, or 800 where it gives way, as long as all of them
/// together are below 12 000.
pub proof fn law_budgets(used: nat)
    ensures
        used >= 12_000 ==> budget(used, true) == 0 && budget(used, false) == 0,
        used <= 8_000 ==> budget(used, false) == 4_000,
        used <= 11_200 ==> budget(used, true) == 800,
        8_000 <= used <= 12_000 ==> budget(used, false) == 12_000 - used,
        11_200 <= used <= 12_000 ==> budget(used, true) == 12_000 - used,
{
}

} // verus!
