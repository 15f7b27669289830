//! Skills: their description files, their order, and how the model is told of them.

use vstd::prelude::*;

use crate::order::{
    compare_path, compare_text, in_order, is_ordered, law_path_order, law_sort_orders,
    law_sort_permutes, law_text_order, path_less, reverse, sort_stable, text_less, Rank,
    Ranked,
};
use crate::text::{
    begins_with, has_text, is_space, join, joined, law_joined_holds_parts, law_trim_is_final,
    lemma_first_line, lemma_trim_front_run, lemma_trimmed_ends, lines, replace_char, same_text,
    split_lines, strip_prefix, trim, trim_back, trim_both, trim_front, trim_of, trimmed, views,
    with_char_replaced, without_cr, CharClass,
};

verus! {

/// The line that opens and closes the header of a skill file.
pub const FENCE: &'static str = "---";

/// The key of a skill's name.
pub const NAME_KEY: &'static str = "name:";

/// The key of a skill's description.
pub const DESCRIPTION_KEY: &'static str = "description:";

/// What a skill is, as the model is told.
pub const SKILLS_INTRO: &'static str =
    "A skill is a set of local instructions to follow that is stored in a `SKILL.md` file. Below is the list of skills that can be used. Each entry includes a name, description, and file path so you can open the source for full instructions when using a specific skill.";

/// How skills are used, as the model is told.
pub const SKILLS_RULES: &'static str =
    "- Discovery: The list above contains the skills available in this session.
- Trigger rules: If the user names a skill or the task clearly matches a skill description, use that skill for the turn.
- Missing or blocked skills: If a named skill is unavailable or unreadable, explain briefly and continue with the best fallback.
- Progressive disclosure: After choosing a skill, read its `SKILL.md`, resolve relative paths from that directory, and load only the files required for the task.
- Coordination: If multiple skills apply, choose the smallest set that covers the task and state the order.
- Safety and fallback: If a skill cannot be applied cleanly, state the issue, choose the next-best approach, and continue.";

/// A skill that was found.
#[derive(Debug)]
pub struct SkillMetadata {
    /// The components of the canonical path of the skill's directory.
    pub dir_path: Vec<String>,
    /// The path of the skill's description file.
    pub path_to_skills_md: String,
    pub name: String,
    pub description: String,
}

/// A value without surrounding space and quotes: double quotes go first, then single ones, then
/// what space stood between the quotes and the value.
pub open spec fn yaml_scalar(value: Seq<char>) -> Seq<char> {
    trimmed(
        trim_both(
            trim_both(trimmed(value), CharClass::Only('"')),
            CharClass::Only('\''),
        ),
    )
}

/// Takes the quotes and the space off a value.
pub fn trim_yaml_scalar(value: &str) -> (r: String)
    ensures
        r@ == yaml_scalar(value@),
{
    let bare = trim(value);
    let unquoted = trim_of(&bare, CharClass::Only('"'));
    let unquoted = trim_of(&unquoted, CharClass::Only('\''));
    trim(&unquoted)
}

/// The trimmed lines up to the next fence, or all of them.
pub open spec fn header_block(ls: Seq<Seq<char>>) -> Seq<Seq<char>>
    decreases ls.len(),
{
    if ls.len() == 0 || trimmed(ls[0]) == FENCE@ {
        Seq::empty()
    } else {
        seq![trimmed(ls[0])] + header_block(ls.drop_first())
    }
}

/// The value of `key` in the last line that gives it one; a line with an empty value gives none.
pub open spec fn last_value(block: Seq<Seq<char>>, key: Seq<char>) -> Option<Seq<char>>
    decreases block.len(),
{
    if block.len() == 0 {
        None
    } else {
        let line = block.last();
        let value = yaml_scalar(line.skip(key.len() as int));
        if begins_with(line, key) && value.len() > 0 {
            Some(value)
        } else {
            last_value(block.drop_last(), key)
        }
    }
}

/// The name and the description in the header of a skill file. There is none where the first
/// line is not a fence, or one of the two is missing.
pub open spec fn frontmatter(text: Seq<char>) -> Option<(Seq<char>, Seq<char>)> {
    let ls = lines(text);
    if ls.len() == 0 || trimmed(ls[0]) != FENCE@ {
        None
    } else {
        let block = header_block(ls.drop_first());
        match (last_value(block, NAME_KEY@), last_value(block, DESCRIPTION_KEY@)) {
            (Some(name), Some(description)) => Some((name, description)),
            _ => None,
        }
    }
}

/// The trimmed lines from index `from` up to the next fence.
fn read_header_block(ls: &Vec<String>, from: usize) -> (r: Vec<String>)
    requires
        from <= ls.len(),
    ensures
        views(r@) == header_block(views(ls@).skip(from as int)),
{
    let mut r: Vec<String> = Vec::new();
    let mut i: usize = from;
    let ghost all = views(ls@);
    let ghost goal = header_block(all.skip(from as int));
    proof {
        assert(views(r@) + goal =~= goal);
    }
    while i < ls.len()
        invariant
            from <= i <= ls.len(),
            all == views(ls@),
            goal == header_block(all.skip(from as int)),
            views(r@) + header_block(all.skip(i as int)) == goal,
        decreases ls.len() - i,
    {
        let line = trim(&ls[i]);
        let ghost rest = all.skip(i as int);
        proof {
            assert(rest[0] == ls@[i as int]@);
            assert(rest.drop_first() =~= all.skip(i + 1));
        }
        if same_text(&line, FENCE) {
            proof {
                assert(views(r@) + Seq::<Seq<char>>::empty() =~= views(r@));
            }
            return r;
        }
        let ghost before = views(r@);
        r.push(line);
        proof {
            assert(views(r@) =~= before + seq![line@]);
            assert(views(r@) + header_block(all.skip(i + 1)) =~= before + header_block(rest));
        }
        i += 1;
    }
    proof {
        assert(header_block(all.skip(ls@.len() as int)) =~= Seq::empty());
        assert(views(r@) + Seq::<Seq<char>>::empty() =~= views(r@));
    }
    r
}

/// The value of `key` in a header.
fn read_last_value(block: &Vec<String>, key: &str) -> (r: Option<String>)
    ensures
        r is Some <==> last_value(views(block@), key@) is Some,
        r is Some ==> r->0@ == last_value(views(block@), key@)->0,
{
    let ghost all = views(block@);
    let mut i: usize = block.len();
    proof {
        assert(all.take(i as int) =~= all);
    }
    while i > 0
        invariant
            i <= block.len(),
            all == views(block@),
            last_value(all.take(i as int), key@) == last_value(all, key@),
        decreases i,
    {
        proof {
            assert(all.take(i as int).drop_last() =~= all.take(i - 1));
            assert(all.take(i as int).last() == block@[i - 1]@);
        }
        i -= 1;
        if let Some(value) = strip_prefix(&block[i], key) {
            let scalar = trim_yaml_scalar(&value);
            if !scalar.as_str().is_empty() {
                return Some(scalar);
            }
        }
    }
    None
}

/// Reads the name and the description in the header of a skill file.
pub fn parse_skill_frontmatter(text: &str) -> (r: Option<(String, String)>)
    ensures
        match r {
            Some(found) => frontmatter(text@) == Some((found.0@, found.1@)),
            None => frontmatter(text@) is None,
        },
{
    let ls = split_lines(text);
    if ls.len() == 0 {
        return None;
    }
    proof {
        assert(lines(text@)[0] == ls@[0]@);
        assert(lines(text@).skip(1) =~= lines(text@).drop_first());
    }
    if !same_text(trim(&ls[0]).as_str(), FENCE) {
        return None;
    }
    let block = read_header_block(&ls, 1);
    match (read_last_value(&block, NAME_KEY), read_last_value(&block, DESCRIPTION_KEY)) {
        (Some(name), Some(description)) => Some((name, description)),
        _ => None,
    }
}

/// A header that gives a name and a description in this order is read back, whatever follows
/// it.
pub proof fn law_frontmatter_reads_back(name: Seq<char>, description: Seq<char>, rest: Seq<char>)
    requires
        name.len() > 0,
        yaml_scalar(name) == name,
        !name.contains('\n'),
        description.len() > 0,
        yaml_scalar(description) == description,
        !description.contains('\n'),
    ensures
        frontmatter(
            FENCE@ + seq!['\n'] + (NAME_KEY@ + seq![' '] + name) + seq!['\n'] + (DESCRIPTION_KEY@
                + seq![' '] + description) + seq!['\n'] + FENCE@ + seq!['\n'] + rest,
        ) == Some((name, description)),
{
    reveal_strlit("---");
    reveal_strlit("name:");
    reveal_strlit("description:");
    let feed = seq!['\n'];
    let l1 = NAME_KEY@ + seq![' '] + name;
    let l2 = DESCRIPTION_KEY@ + seq![' '] + description;
    let d = FENCE@ + feed + rest;
    let c = l2 + feed + d;
    let b = l1 + feed + c;
    let text = FENCE@ + feed + l1 + feed + l2 + feed + FENCE@ + feed + rest;
    assert(text =~= FENCE@ + feed + b);
    lemma_header_line(NAME_KEY@, name);
    lemma_header_line(DESCRIPTION_KEY@, description);
    lemma_first_line(FENCE@, b);
    lemma_first_line(l1, c);
    lemma_first_line(l2, d);
    lemma_first_line(FENCE@, rest);
    let ls = lines(text);
    assert(without_cr(FENCE@) == FENCE@);
    assert(trimmed(FENCE@) == FENCE@);
    let tail = seq![FENCE@] + lines(rest);
    assert(ls =~= seq![FENCE@, l1, l2] + tail);
    assert(ls.drop_first() =~= seq![l1, l2] + tail);
    assert((seq![l1, l2] + tail).drop_first() =~= seq![l2] + tail);
    assert((seq![l2] + tail).drop_first() =~= tail);
    assert(header_block(tail) =~= Seq::empty());
    assert(header_block(seq![l2] + tail) =~= seq![l2]);
    let block = header_block(ls.drop_first());
    assert(block =~= seq![l1, l2]);
    assert(block.drop_last() =~= seq![l1]);
    assert(l2[0] == 'd' && l1[0] == 'n');
    assert(!begins_with(l2, NAME_KEY@)) by {
        if begins_with(l2, NAME_KEY@) {
            assert(l2.subrange(0, 5)[0] == l2[0]);
        }
    }
    assert(last_value(seq![l1], NAME_KEY@) == Some(name));
    assert(last_value(block, NAME_KEY@) == Some(name));
    assert(last_value(block, DESCRIPTION_KEY@) == Some(description));
}

/// A line of a header is kept as it is, and its value is what follows the key.
proof fn lemma_header_line(key: Seq<char>, value: Seq<char>)
    requires
        key.len() > 0,
        !key.contains('\n'),
        !is_space(key[0]),
        value.len() > 0,
        yaml_scalar(value) == value,
        !value.contains('\n'),
    ensures
        ({
            let line = key + seq![' '] + value;
            &&& !line.contains('\n')
            &&& trimmed(line) == line
            &&& without_cr(line) == line
            &&& begins_with(line, key)
            &&& yaml_scalar(line.skip(key.len() as int)) == value
        }),
{
    let line = key + seq![' '] + value;
    let space = CharClass::Space;
    law_trim_is_final(
        trim_both(trim_both(trimmed(value), CharClass::Only('"')), CharClass::Only('\'')),
    );
    assert(trimmed(value) == value);
    lemma_trimmed_ends(value, space);
    lemma_trimmed_ends(trim_front(value, space), space);
    assert(line.last() == value.last());
    assert(line[0] == key[0]);
    assert(line.subrange(0, key.len() as int) =~= key);
    assert(line.skip(key.len() as int) =~= seq![' '] + value);
    lemma_trim_front_run(seq![' '], value, space);
    assert(trim_front(value, space) == value);
    assert(trimmed(seq![' '] + value) == trimmed(value));
    assert forall|i: int| 0 <= i < line.len() implies line[i] != '\n' by {
        if i < key.len() {
            assert(key.contains(key[i]));
        } else if i > key.len() {
            assert(line[i] == value[i - key.len() - 1]);
            assert(value.contains(value[i - key.len() - 1]));
        }
    }
}

impl SkillMetadata {
    /// The line that tells the model of the skill; the path is written with forward slashes.
    pub open spec fn listing(self) -> Seq<char> {
        "- "@ + self.name@ + ": "@ + self.description@ + " (file: "@ + with_char_replaced(
            self.path_to_skills_md@,
            '\\',
            '/',
        ) + ")"@
    }

    /// The line that tells the model of the skill.
    pub fn list(&self) -> (r: String)
        ensures
            r@ == self.listing(),
    {
        let mut r = "- ".to_owned();
        r.append(&self.name);
        r.append(": ");
        r.append(&self.description);
        r.append(" (file: ");
        r.append(replace_char(&self.path_to_skills_md, '\\', '/').as_str());
        r.append(")");
        r
    }
}

/// The lines that tell the model of the skills.
pub open spec fn skill_lines(skills: Seq<SkillMetadata>) -> Seq<Seq<char>> {
    seq!["## Skills"@, SKILLS_INTRO@, "### Available Skills"@] + Seq::new(
        skills.len(),
        |i: int| skills[i].listing(),
    ) + seq!["### How To Use Skills"@, SKILLS_RULES@]
}

/// The section of the system prompt on skills; none where there are no skills.
pub open spec fn skills_section(skills: Seq<SkillMetadata>) -> Option<Seq<char>> {
    if skills.len() == 0 {
        None
    } else {
        Some(joined(skill_lines(skills), "\n"@))
    }
}

/// Writes the section of the system prompt on skills.
pub fn render_skills_section(skills: &Vec<SkillMetadata>) -> (r: Option<String>)
    ensures
        r is Some <==> skills_section(skills@) is Some,
        r is Some ==> r->0@ == skills_section(skills@)->0,
{
    if skills.len() == 0 {
        return None;
    }
    let mut rendered: Vec<String> = Vec::new();
    rendered.push("## Skills".to_owned());
    rendered.push(SKILLS_INTRO.to_owned());
    rendered.push("### Available Skills".to_owned());
    for i in 0..skills.len()
        invariant
            rendered@.len() == 3 + i,
            rendered@[0]@ == "## Skills"@,
            rendered@[1]@ == SKILLS_INTRO@,
            rendered@[2]@ == "### Available Skills"@,
            forall|k: int| 0 <= k < i ==> rendered@[3 + k]@ == (#[trigger] skills@[k]).listing(),
    {
        rendered.push(skills[i].list());
    }
    rendered.push("### How To Use Skills".to_owned());
    rendered.push(SKILLS_RULES.to_owned());
    proof {
        let got = views(rendered@);
        let want = skill_lines(skills@);
        assert forall|k: int| 0 <= k < want.len() implies got[k] == want[k] by {
            if 3 <= k < 3 + skills@.len() {
                assert(rendered@[3 + (k - 3)]@ == skills@[k - 3].listing());
            }
        }
        assert(got =~= want);
    }
    Some(join(&rendered, "\n"))
}

impl Ranked for SkillMetadata {
    open spec fn precedes(self, other: Self) -> bool {
        text_less(self.name@, other.name@) || (self.name@ == other.name@ && path_less(
            views(self.dir_path@),
            views(other.dir_path@),
        ))
    }

    fn goes_before(&self, other: &Self) -> (r: bool) {
        proof {
            law_text_order(self.name@, other.name@, self.name@);
            law_path_order(views(self.dir_path@), views(other.dir_path@), views(self.dir_path@));
        }
        match compare_text(&self.name, &other.name) {
            Rank::Before => true,
            Rank::After => false,
            Rank::Same => match compare_path(&self.dir_path, &other.dir_path) {
                Rank::Before => true,
                _ => false,
            },
        }
    }

    proof fn order_laws(a: Self, b: Self, c: Self) {
        law_text_order(a.name@, b.name@, c.name@);
        law_text_order(c.name@, b.name@, a.name@);
        law_text_order(b.name@, a.name@, c.name@);
        law_text_order(c.name@, a.name@, b.name@);
        law_text_order(a.name@, c.name@, b.name@);
        law_text_order(b.name@, c.name@, a.name@);
        let (x, y, z) = (views(a.dir_path@), views(b.dir_path@), views(c.dir_path@));
        law_path_order(x, y, z);
        law_path_order(z, y, x);
        law_path_order(y, x, z);
        law_path_order(z, x, y);
        law_path_order(x, z, y);
        law_path_order(y, z, x);
    }
}

/// Two skills have the same directory.
pub open spec fn same_dir(a: SkillMetadata, b: SkillMetadata) -> bool {
    views(a.dir_path@) == views(b.dir_path@)
}

/// `s` without the skills whose directory is that of the skill kept before them.
pub open spec fn without_repeats(s: Seq<SkillMetadata>) -> Seq<SkillMetadata>
    decreases s.len(),
{
    if s.len() <= 1 {
        s
    } else {
        let kept = without_repeats(s.drop_last());
        if same_dir(kept.last(), s.last()) {
            kept
        } else {
            kept.push(s.last())
        }
    }
}

/// The skills that were found, by name and then by directory, with neighbours that share a
/// directory listed once.
pub fn arrange_skills(found: Vec<SkillMetadata>) -> (r: Vec<SkillMetadata>)
    ensures
        r@ == without_repeats(in_order(found@)),
{
    let sorted = sort_stable(found);
    let ghost all = sorted@;
    let mut kept: Vec<SkillMetadata> = Vec::new();
    let mut reversed = reverse(sorted);
    proof {
        assert(all.take(0) =~= kept@);
    }
    while reversed.len() > 0
        invariant
            reversed@.len() <= all.len(),
            reversed@ == all.reverse().take(reversed@.len() as int),
            kept@ == without_repeats(all.take(all.len() - reversed@.len())),
            reversed@.len() < all.len() ==> kept@.len() > 0,
        decreases reversed@.len(),
    {
        let ghost m = all.len() - reversed@.len();
        if let Some(skill) = reversed.pop() {
            proof {
                assert(skill == all[m]);
                assert(all.take(m + 1).drop_last() =~= all.take(m));
                assert(all.take(m + 1).last() == skill);
                if m == 0 {
                    assert(all.take(1) =~= seq![skill]);
                    assert(kept@.len() == 0);
                }
            }
            let repeats = kept.len() > 0 && match compare_path(
                &kept[kept.len() - 1].dir_path,
                &skill.dir_path,
            ) {
                Rank::Same => true,
                _ => false,
            };
            if !repeats {
                kept.push(skill);
            }
            proof {
                if m == 0 {
                    assert(kept@ =~= all.take(1));
                }
            }
        }
    }
    proof {
        assert(all.take(all.len() as int) =~= all);
    }
    kept
}

/// A directory whose skills all have one name is listed once, however often it was found; and
/// every listed skill was found.
pub proof fn law_skills_listed_once(found: Seq<SkillMetadata>)
    requires
        forall|i: int, j: int|
            0 <= i < found.len() && 0 <= j < found.len() && same_dir(
                #[trigger] found[i],
                #[trigger] found[j],
            ) ==> found[i].name@ == found[j].name@,
    ensures
        ({
            let out = without_repeats(in_order(found));
            &&& forall|i: int, j: int|
                0 <= i < j < out.len() ==> !same_dir(#[trigger] out[i], #[trigger] out[j])
            &&& forall|i: int| 0 <= i < out.len() ==> found.contains(#[trigger] out[i])
            &&& forall|i: int|
                0 <= i < found.len() ==> exists|j: int|
                    0 <= j < out.len() && same_dir(#[trigger] found[i], #[trigger] out[j])
        }),
{
    broadcast use vstd::seq_lib::group_to_multiset_ensures;

    let s = in_order(found);
    law_sort_orders(found);
    law_sort_permutes(found);
    assert forall|x: SkillMetadata| s.contains(x) <==> found.contains(x) by {
        assert(s.to_multiset().count(x) == found.to_multiset().count(x));
        assert(s.contains(x) <==> s.to_multiset().count(x) > 0);
        assert(found.contains(x) <==> found.to_multiset().count(x) > 0);
    }
    assert forall|i: int, j: int| 0 <= i < s.len() && 0 <= j < s.len() && same_dir(
        #[trigger] s[i],
        #[trigger] s[j],
    ) implies s[i].name@ == s[j].name@ by {
        assert(s.contains(s[i]) && s.contains(s[j]));
        let a = choose|a: int| 0 <= a < found.len() && found[a] == s[i];
        let b = choose|b: int| 0 <= b < found.len() && found[b] == s[j];
        assert(same_dir(found[a], found[b]));
    }
    lemma_kept_members(s);
    let out = without_repeats(s);
    assert forall|i: int, j: int| 0 <= i < j < out.len() implies !same_dir(
        #[trigger] out[i],
        #[trigger] out[j],
    ) by {
        lemma_kept_differ(s, i, j);
    }
    assert forall|i: int| 0 <= i < out.len() implies found.contains(#[trigger] out[i]) by {
        assert(s.contains(out[i]));
    }
    assert forall|i: int| 0 <= i < found.len() implies exists|j: int|
        0 <= j < out.len() && same_dir(#[trigger] found[i], #[trigger] out[j]) by {
        assert(found.contains(found[i]));
        assert(s.contains(found[i]));
        let k = choose|k: int| 0 <= k < s.len() && s[k] == found[i];
        lemma_kept_covers(s, k);
    }
}

/// Between two skills of one name and one directory the order leaves room for no other directory.
proof fn lemma_no_room_between(a: SkillMetadata, m: SkillMetadata, z: SkillMetadata)
    requires
        !m.precedes(a),
        !z.precedes(m),
        same_dir(a, z),
        a.name@ == z.name@,
    ensures
        same_dir(m, z),
{
    law_text_order(m.name@, z.name@, m.name@);
    law_path_order(views(m.dir_path@), views(z.dir_path@), views(m.dir_path@));
}

/// What is kept was there, and ends in the directory in which `s` ends.
proof fn lemma_kept_members(s: Seq<SkillMetadata>)
    ensures
        ({
            let out = without_repeats(s);
            &&& s.len() > 0 ==> out.len() > 0 && same_dir(out.last(), s.last())
            &&& forall|i: int| 0 <= i < out.len() ==> s.contains(#[trigger] out[i])
        }),
    decreases s.len(),
{
    let out = without_repeats(s);
    if s.len() == 1 {
        assert(s.contains(out[0]));
    } else if s.len() > 1 {
        let p = s.drop_last();
        lemma_kept_members(p);
        let kept = without_repeats(p);
        assert forall|i: int| 0 <= i < out.len() implies s.contains(#[trigger] out[i]) by {
            if i < kept.len() {
                assert(out[i] == kept[i]);
                assert(p.contains(kept[i]));
                let k = choose|k: int| 0 <= k < p.len() && p[k] == kept[i];
                assert(s[k] == out[i]);
            } else {
                assert(s[s.len() - 1] == out[i]);
            }
        }
    }
}

/// Every directory is kept.
proof fn lemma_kept_covers(s: Seq<SkillMetadata>, i: int)
    requires
        0 <= i < s.len(),
    ensures
        exists|j: int|
            0 <= j < without_repeats(s).len() && same_dir(
                s[i],
                #[trigger] without_repeats(s)[j],
            ),
    decreases s.len(),
{
    let out = without_repeats(s);
    lemma_kept_members(s);
    if i == s.len() - 1 {
        assert(same_dir(s[i], out[out.len() - 1]));
    } else {
        let p = s.drop_last();
        lemma_kept_covers(p, i);
        let kept = without_repeats(p);
        let j = choose|j: int| 0 <= j < kept.len() && same_dir(p[i], #[trigger] kept[j]);
        assert(out[j] == kept[j]);
        assert(p[i] == s[i]);
    }
}

/// In an ordered list, no directory is kept twice.
proof fn lemma_kept_differ(s: Seq<SkillMetadata>, i: int, j: int)
    requires
        is_ordered(s),
        forall|a: int, b: int|
            0 <= a < s.len() && 0 <= b < s.len() && same_dir(#[trigger] s[a], #[trigger] s[b])
                ==> s[a].name@ == s[b].name@,
        0 <= i < j < without_repeats(s).len(),
    ensures
        !same_dir(without_repeats(s)[i], without_repeats(s)[j]),
    decreases s.len(),
{
    let out = without_repeats(s);
    let p = s.drop_last();
    let kept = without_repeats(p);
    let n = s.len() - 1;
    lemma_kept_members(p);
    if j < kept.len() {
        assert forall|a: int, b: int| 0 <= a < p.len() && 0 <= b < p.len() && same_dir(
            #[trigger] p[a],
            #[trigger] p[b],
        ) implies p[a].name@ == p[b].name@ by {
            assert(p[a] == s[a] && p[b] == s[b]);
        }
        assert forall|a: int, b: int| 0 <= a < b < p.len() implies !(#[trigger] p[b]).precedes(
            #[trigger] p[a],
        ) by {
            assert(p[a] == s[a] && p[b] == s[b]);
        }
        lemma_kept_differ(p, i, j);
        assert(out[i] == kept[i] && out[j] == kept[j]);
    } else {
        assert(out[i] == kept[i] && out[j] == s[n]);
        if same_dir(kept[i], s[n]) {
            assert(p.contains(kept[i]));
            let k = choose|k: int| 0 <= k < p.len() && p[k] == kept[i];
            assert(s[k] == kept[i]);
            assert(same_dir(s[k], s[n]));
            if k < n - 1 {
                assert(!s[n - 1].precedes(s[k]));
                assert(!s[n].precedes(s[n - 1]));
                lemma_no_room_between(s[k], s[n - 1], s[n]);
            }
            assert(same_dir(s[n - 1], s[n]));
            assert(p.last() == s[n - 1]);
            assert(false);
        }
    }
}

/// Where a directory of skills is looked for.
#[derive(Debug, Clone, Copy, PartialEq, Eq, Structural)]
pub enum SkillBase {
    /// Under the workspace.
    Workspace,
    /// Under the user's home directory.
    Home,
}

/// The first directory of skills below a base.
pub const SKILL_DIR: &'static str = ".mini-codex/skills";

/// The second directory of skills below a base.
pub const SHARED_SKILL_DIR: &'static str = ".agents/skills";

/// The directories in which skills are looked for, in this order; those of the home directory
/// only where there is one.
pub fn default_skill_roots(has_home: bool) -> (r: Vec<(SkillBase, &'static str)>)
    ensures
        r@.len() == if has_home { 4int } else { 2int },
        r@[0].0 is Workspace && r@[0].1@ == SKILL_DIR@,
        r@[1].0 is Workspace && r@[1].1@ == SHARED_SKILL_DIR@,
        has_home ==> r@[2].0 is Home && r@[2].1@ == SKILL_DIR@,
        has_home ==> r@[3].0 is Home && r@[3].1@ == SHARED_SKILL_DIR@,
{
    let mut r: Vec<(SkillBase, &'static str)> = Vec::new();
    r.push((SkillBase::Workspace, SKILL_DIR));
    r.push((SkillBase::Workspace, SHARED_SKILL_DIR));
    if has_home {
        r.push((SkillBase::Home, SKILL_DIR));
        r.push((SkillBase::Home, SHARED_SKILL_DIR));
    }
    r
}

/// The lines up to the next fence are the header, each without the space around it.
proof fn lemma_header_lines(ls: Seq<Seq<char>>, e: int)
    requires
        0 <= e <= ls.len(),
        forall|k: int| 0 <= k < e ==> trimmed(#[trigger] ls[k]) != FENCE@,
        e < ls.len() ==> trimmed(ls[e]) == FENCE@,
    ensures
        header_block(ls).len() == e,
        forall|k: int| 0 <= k < e ==> #[trigger] header_block(ls)[k] == trimmed(ls[k]),
    decreases e,
{
    if e > 0 {
        let rest = ls.drop_first();
        assert(trimmed(ls[0]) != FENCE@);
        assert forall|k: int| 0 <= k < e - 1 implies trimmed(#[trigger] rest[k]) != FENCE@ by {
            assert(rest[k] == ls[k + 1]);
        }
        lemma_header_lines(rest, e - 1);
        assert forall|k: int| 0 <= k < e implies #[trigger] header_block(ls)[k] == trimmed(
            ls[k],
        ) by {
            if k > 0 {
                assert(header_block(ls)[k] == header_block(rest)[k - 1]);
            }
        }
    }
}

proof fn lemma_last_value(block: Seq<Seq<char>>, key: Seq<char>, i: int)
    ensures
        ({
            let gives = |k: int|
                begins_with(block[k], key) && yaml_scalar(block[k].skip(key.len() as int)).len()
                    > 0;
            &&& 0 <= i < block.len() && gives(i) && (forall|k: int|
                i < k < block.len() ==> !#[trigger] gives(k)) ==> last_value(block, key) == Some(
                yaml_scalar(block[i].skip(key.len() as int)),
            )
            &&& (forall|k: int| 0 <= k < block.len() ==> !#[trigger] gives(k)) ==> last_value(
                block,
                key,
            ) is None
        }),
    decreases block.len(),
{
    let gives = |k: int|
        begins_with(block[k], key) && yaml_scalar(block[k].skip(key.len() as int)).len() > 0;
    if block.len() > 0 {
        let n = block.len() - 1;
        let head = block.drop_last();
        let gives_head = |k: int|
            begins_with(head[k], key) && yaml_scalar(head[k].skip(key.len() as int)).len() > 0;
        lemma_last_value(head, key, i);
        assert(gives(n) == (begins_with(block.last(), key) && yaml_scalar(
            block.last().skip(key.len() as int),
        ).len() > 0));
        assert forall|k: int| 0 <= k < n implies #[trigger] gives_head(k) == gives(k) by {}
    }
}

/// A skill file is read line by line: after the opening fence, and up to the next fence or the
/// end, the last line that gives a name and the last that gives a description count, wherever
/// they stand and whatever other lines there are.
pub proof fn law_frontmatter_takes_last_values(text: Seq<char>, e: int, i: int, j: int)
    requires
        1 <= e <= lines(text).len(),
        trimmed(lines(text)[0]) == "---"@,
        forall|k: int| 1 <= k < e ==> trimmed(#[trigger] lines(text)[k]) != "---"@,
        e < lines(text).len() ==> trimmed(lines(text)[e]) == "---"@,
        1 <= i < e,
        1 <= j < e,
        begins_with(trimmed(lines(text)[i]), "name:"@),
        yaml_scalar(trimmed(lines(text)[i]).skip(5)).len() > 0,
        forall|k: int|
            i < k < e ==> !begins_with(trimmed(#[trigger] lines(text)[k]), "name:"@),
        begins_with(trimmed(lines(text)[j]), "description:"@),
        yaml_scalar(trimmed(lines(text)[j]).skip(12)).len() > 0,
        forall|k: int|
            j < k < e ==> !begins_with(trimmed(#[trigger] lines(text)[k]), "description:"@),
    ensures
        frontmatter(text) == Some(
            (
                yaml_scalar(trimmed(lines(text)[i]).skip(5)),
                yaml_scalar(trimmed(lines(text)[j]).skip(12)),
            ),
        ),
{
    reveal_strlit("name:");
    reveal_strlit("description:");
    let ls = lines(text);
    let rest = ls.drop_first();
    assert forall|k: int| 0 <= k < e - 1 implies trimmed(#[trigger] rest[k]) != FENCE@ by {
        assert(rest[k] == ls[k + 1]);
    }
    if e < ls.len() {
        assert(rest[e - 1] == ls[e]);
    }
    lemma_header_lines(rest, e - 1);
    let block = header_block(rest);
    assert forall|k: int| 0 <= k < e - 1 implies #[trigger] block[k] == trimmed(ls[k + 1]) by {
        assert(rest[k] == ls[k + 1]);
    }
    lemma_last_value(block, NAME_KEY@, i - 1);
    lemma_last_value(block, DESCRIPTION_KEY@, j - 1);
    assert(block[i - 1] == trimmed(ls[i]));
    assert(block[j - 1] == trimmed(ls[j]));
}

/// A file whose first line is not a fence, or whose header gives no name or no description, is
/// no skill.
pub proof fn law_incomplete_skills_are_none(text: Seq<char>, e: int)
    ensures
        lines(text).len() == 0 || trimmed(lines(text)[0]) != "---"@ ==> frontmatter(text) is None,
        1 <= e <= lines(text).len() && (forall|k: int|
            1 <= k < e ==> trimmed(#[trigger] lines(text)[k]) != "---"@) && (e < lines(text).len()
            ==> trimmed(lines(text)[e]) == "---"@) && ((forall|k: int|
            1 <= k < e ==> !begins_with(trimmed(#[trigger] lines(text)[k]), "name:"@)) || (forall|
            k: int,
        |
            1 <= k < e ==> !begins_with(trimmed(#[trigger] lines(text)[k]), "description:"@)))
            ==> frontmatter(text) is None,
{
    let ls = lines(text);
    if 1 <= e <= ls.len() && (forall|k: int| 1 <= k < e ==> trimmed(#[trigger] ls[k]) != FENCE@)
        && (e < ls.len() ==> trimmed(ls[e]) == FENCE@) {
        let rest = ls.drop_first();
        assert forall|k: int| 0 <= k < e - 1 implies trimmed(#[trigger] rest[k]) != FENCE@ by {
            assert(rest[k] == ls[k + 1]);
        }
        if e < ls.len() {
            assert(rest[e - 1] == ls[e]);
        }
        lemma_header_lines(rest, e - 1);
        let block = header_block(rest);
        assert forall|k: int| 0 <= k < e - 1 implies #[trigger] block[k] == trimmed(ls[k + 1]) by {
            assert(rest[k] == ls[k + 1]);
        }
        lemma_last_value(block, NAME_KEY@, 0);
        lemma_last_value(block, DESCRIPTION_KEY@, 0);
    }
}

/// A value is taken out of its quotes, of either kind, and out of the space around it; one that
/// has neither stays as it is.
pub proof fn law_values_lose_quotes(value: Seq<char>)
    requires
        value.len() > 0,
        !is_space(value[0]) && !is_space(value.last()),
        value[0] != '"' && value[0] != '\'' && value.last() != '"' && value.last() != '\'',
    ensures
        yaml_scalar(value) == value,
        yaml_scalar(seq![' '] + value) == value,
        yaml_scalar(seq!['"'] + value + seq!['"']) == value,
        yaml_scalar(seq!['\''] + value + seq!['\'']) == value,
{
    let space = CharClass::Space;
    let (dq, sq) = (CharClass::Only('"'), CharClass::Only('\''));
    lemma_trim_front_run(seq![' '], value, space);
    let a = seq!['"'] + value + seq!['"'];
    let b = seq!['\''] + value + seq!['\''];
    assert(a =~= seq!['"'] + (value + seq!['"']));
    lemma_trim_front_run(seq!['"'], value + seq!['"'], dq);
    assert(b =~= seq!['\''] + (value + seq!['\'']));
    lemma_trim_front_run(seq!['\''], value + seq!['\''], sq);
    assert((value + seq!['"']).drop_last() =~= value);
    assert((value + seq!['\'']).drop_last() =~= value);
    assert(trimmed(value) == value);
    assert(trim_both(value, dq) == value);
    assert(trim_both(value, sq) == value);
    assert(trim_back(value + seq!['"'], dq) == trim_back(value, dq));
    assert(trim_back(value + seq!['\''], sq) == trim_back(value, sq));
    assert(trimmed(a) == a);
    assert(trimmed(b) == b);
    assert(trim_front(a, dq) == value + seq!['"']);
    assert(trim_front(b, dq) == b);
    assert(trim_both(b, dq) == b);
}

/// The model is told of every skill: its name, what it is for, and the file to read, with forward
/// slashes in its path.
pub proof fn law_section_tells_of_every_skill(skills: Seq<SkillMetadata>, i: int)
    requires
        0 <= i < skills.len(),
    ensures
        skills_section(skills) is Some,
        has_text(
            skills_section(skills)->0,
            "- "@ + skills[i].name@ + ": "@ + skills[i].description@ + " (file: "@
                + skills[i].path_to_skills_md@.map_values(
                |c: char|
                    if c == '\\' {
                        '/'
                    } else {
                        c
                    },
            ) + ")"@,
        ),
{
    let all = skill_lines(skills);
    assert(all[3 + i] == skills[i].listing());
    law_joined_holds_parts(all, "\n"@, 3 + i);
    let path = skills[i].path_to_skills_md@;
    assert(with_char_replaced(path, '\\', '/') =~= path.map_values(
        |c: char|
            if c == '\\' {
                '/'
            } else {
                c
            },
    ));
}

/// The skills are listed by name, and under one name by directory; each that is listed was found.
pub proof fn law_skills_by_name(found: Seq<SkillMetadata>)
    ensures
        ({
            let sorted = in_order(found);
            &&& sorted.to_multiset() == found.to_multiset()
            &&& forall|i: int, j: int|
                0 <= i < j < sorted.len() ==> !text_less(
                    (#[trigger] sorted[j]).name@,
                    (#[trigger] sorted[i]).name@,
                )
            &&& forall|i: int, j: int|
                0 <= i < j < sorted.len() && (#[trigger] sorted[i]).name@ == (
                #[trigger] sorted[j]).name@ ==> !path_less(
                    views(sorted[j].dir_path@),
                    views(sorted[i].dir_path@),
                )
        }),
{
    law_sort_permutes(found);
    law_sort_orders(found);
    let sorted = in_order(found);
    assert forall|i: int, j: int| 0 <= i < j < sorted.len() implies !(
    #[trigger] sorted[j]).precedes(#[trigger] sorted[i]) by {}
    assert forall|i: int, j: int| 0 <= i < j < sorted.len() implies !text_less(
        (#[trigger] sorted[j]).name@,
        (#[trigger] sorted[i]).name@,
    ) by {
        assert(!sorted[j].precedes(sorted[i]));
    }
    assert forall|i: int, j: int|
        0 <= i < j < sorted.len() && (#[trigger] sorted[i]).name@ == (
        #[trigger] sorted[j]).name@ implies !path_less(
        views(sorted[j].dir_path@),
        views(sorted[i].dir_path@),
    ) by {
        assert(!sorted[j].precedes(sorted[i]));
    }
}

} // verus!
