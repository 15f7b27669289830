//! Texts that are cut to a size.

use vstd::prelude::*;

use crate::text::{joined, split_words, join, to_chars, window, words};

verus! {

/// The first `max` characters, and three dots where there were more.
pub open spec fn truncated(t: Seq<char>, max: nat) -> Seq<char> {
    if t.len() > max {
        t.take(max as int) + "..."@
    } else {
        t
    }
}

/// Cuts a text to `max_chars` characters and three dots.
pub fn truncate_chars(text: &str, max_chars: usize) -> (r: String)
    ensures
        r@ == truncated(text@, max_chars as nat),
{
    let chars = to_chars(text);
    if chars.len() > max_chars {
        let mut r = window(&chars, 0, max_chars);
        r.append("...");
        proof {
            assert(chars@.subrange(0, max_chars as int) =~= chars@.take(max_chars as int));
        }
        r
    } else {
        text.to_owned()
    }
}

/// A cut text is at most three characters longer than the cut.
pub proof fn law_truncated_length(t: Seq<char>, max: nat)
    ensures
        truncated(t, max).len() <= max + 3,
        t.len() <= max ==> truncated(t, max) == t,
{
    reveal_strlit("...");
}

/// The words of a text on one line, at most `max` characters of it and an ellipsis.
pub open spec fn preview(t: Seq<char>, max: nat) -> Seq<char> {
    let compact = joined(words(t), " "@);
    let shown = if compact.len() > max {
        compact.take(max as int).push('…')
    } else {
        compact
    };
    if shown.len() == 0 {
        "(empty)"@
    } else {
        shown
    }
}

/// Shows a text on one line.
pub fn preview_text(text: &str, max_chars: usize) -> (r: String)
    ensures
        r@ == preview(text@, max_chars as nat),
{
    let compact = join(&split_words(text), " ");
    let chars = to_chars(&compact);
    if chars.len() > max_chars {
        let mut r = window(&chars, 0, max_chars);
        r.push('…');
        proof {
            assert(chars@.subrange(0, max_chars as int) =~= chars@.take(max_chars as int));
        }
        return r;
    }
    if chars.len() == 0 {
        return "(empty)".to_owned();
    }
    compact
}

/// A preview is never empty, and has at most one character more than asked for, or is the word
/// for an empty text.
pub proof fn law_preview_length(t: Seq<char>, max: nat)
    ensures
        preview(t, max).len() > 0,
        preview(t, max).len() <= max + 1 || preview(t, max) == "(empty)"@,
{
    reveal_strlit("(empty)");
}

/// The number of bytes of a character in UTF-8.
pub open spec fn width(c: char) -> nat {
    let n = c as u32;
    if n < 0x80 {
        1
    } else if n < 0x800 {
        2
    } else if n < 0x10000 {
        3
    } else {
        4
    }
}

/// The number of bytes of a character in UTF-8.
pub fn char_width(c: char) -> (r: usize)
    ensures
        r == width(c),
{
    let n: u32 = c as u32;
    if n < 0x80 {
        1
    } else if n < 0x800 {
        2
    } else if n < 0x10000 {
        3
    } else {
        4
    }
}

/// The number of bytes of a text in UTF-8.
pub open spec fn byte_len(t: Seq<char>) -> nat
    decreases t.len(),
{
    if t.len() == 0 {
        0
    } else {
        width(t[0]) + byte_len(t.drop_first())
    }
}

/// The number of leading characters of a text that fit in `limit` bytes together.
pub open spec fn fitting(t: Seq<char>, limit: nat) -> nat
    decreases t.len(),
{
    if t.len() == 0 || width(t[0]) > limit {
        0
    } else {
        1 + fitting(t.drop_first(), (limit - width(t[0])) as nat)
    }
}

/// A cut of the text after `limit` bytes, where it is longer, falls between two characters.
pub open spec fn cuts_cleanly(t: Seq<char>, limit: nat) -> bool {
    byte_len(t) > limit ==> byte_len(t.take(fitting(t, limit) as int)) == limit
}

/// The text, where it is longer than `limit` bytes only those bytes and the note.
pub open spec fn clipped(t: Seq<char>, limit: nat, note: Seq<char>) -> Seq<char> {
    if byte_len(t) > limit {
        t.take(fitting(t, limit) as int) + note
    } else {
        t
    }
}

/// The bytes of a text are those of its two parts.
pub proof fn lemma_byte_len_parts(t: Seq<char>, k: int)
    requires
        0 <= k <= t.len(),
    ensures
        byte_len(t) == byte_len(t.take(k)) + byte_len(t.skip(k)),
    decreases t.len(),
{
    if k == 0 {
        assert(t.take(0) =~= Seq::empty());
        assert(t.skip(0) =~= t);
    } else {
        let rest = t.drop_first();
        lemma_byte_len_parts(rest, k - 1);
        assert(t.take(k).drop_first() =~= rest.take(k - 1));
        assert(t.skip(k) =~= rest.skip(k - 1));
    }
}

/// No more characters fit than there are, and their bytes are within the limit.
pub proof fn lemma_fitting(t: Seq<char>, limit: nat)
    ensures
        fitting(t, limit) <= t.len(),
        byte_len(t.take(fitting(t, limit) as int)) <= limit,
        byte_len(t) > limit ==> fitting(t, limit) < t.len(),
        byte_len(t) <= limit ==> fitting(t, limit) == t.len(),
    decreases t.len(),
{
    let k = fitting(t, limit) as int;
    if t.len() > 0 && width(t[0]) <= limit {
        let rest = t.drop_first();
        lemma_fitting(rest, (limit - width(t[0])) as nat);
        assert(t.take(k).drop_first() =~= rest.take(k - 1));
    } else {
        assert(t.take(0) =~= Seq::empty());
    }
}

/// Cuts a text to `limit` bytes and a note, where the cut falls between two characters.
pub fn clip_bytes(text: &str, limit: usize, note: &str) -> (r: Option<String>)
    ensures
        r is Some <==> cuts_cleanly(text@, limit as nat),
        r is Some ==> r->0@ == clipped(text@, limit as nat, note@),
{
    let chars = to_chars(text);
    let n: usize = chars.len();
    let mut i: usize = 0;
    let mut left: usize = limit;
    let ghost t = text@;
    proof {
        assert(t.take(0) =~= Seq::empty());
        assert(t.skip(0) =~= t);
    }
    while i < n && char_width(chars[i]) <= left
        invariant
            i <= n,
            n == chars.len(),
            chars@ == t,
            left <= limit,
            byte_len(t.take(i as int)) == limit - left,
            fitting(t, limit as nat) == i + fitting(t.skip(i as int), left as nat),
        decreases n - i,
    {
        proof {
            let rest = t.skip(i as int);
            assert(rest[0] == t[i as int]);
            assert(rest.drop_first() =~= t.skip(i + 1));
            lemma_byte_len_parts(t.take(i + 1), i as int);
            assert(t.take(i + 1).take(i as int) =~= t.take(i as int));
            let one = t.take(i + 1).skip(i as int);
            assert(one =~= seq![t[i as int]]);
            assert(one.drop_first() =~= Seq::empty());
            assert(byte_len(one.drop_first()) == 0);
            assert(byte_len(one) == width(t[i as int]));
        }
        left -= char_width(chars[i]);
        i += 1;
    }
    proof {
        lemma_fitting(t, limit as nat);
        if i < n {
            assert(t.skip(i as int)[0] == t[i as int]);
        } else {
            assert(t.take(n as int) =~= t);
        }
        assert(fitting(t, limit as nat) == i);
    }
    if i == n {
        return Some(text.to_owned());
    }
    if left > 0 {
        return None;
    }
    let mut r = window(&chars, 0, i);
    proof {
        assert(chars@.subrange(0, i as int) =~= t.take(i as int));
    }
    r.append(note);
    Some(r)
}

/// A text of one-byte characters is always cut cleanly, and what is kept of it is `limit`
/// characters long.
pub proof fn law_ascii_cuts_cleanly(t: Seq<char>, limit: nat)
    requires
        forall|i: int| 0 <= i < t.len() ==> width(#[trigger] t[i]) == 1,
    ensures
        byte_len(t) == t.len(),
        cuts_cleanly(t, limit),
        t.len() > limit ==> fitting(t, limit) == limit,
    decreases t.len(),
{
    if t.len() > 0 {
        let rest = t.drop_first();
        assert forall|i: int| 0 <= i < rest.len() implies width(#[trigger] rest[i]) == 1 by {
            assert(rest[i] == t[i + 1]);
        }
        assert(width(t[0]) == 1);
        if limit > 0 {
            law_ascii_cuts_cleanly(rest, (limit - 1) as nat);
            if t.len() > limit {
                let k = fitting(t, limit) as int;
                assert(t.take(k).drop_first() =~= rest.take(k - 1));
            }
        } else {
            law_ascii_cuts_cleanly(rest, 0);
            assert(t.take(0) =~= Seq::empty());
        }
    }
}

/// A cut text begins with as many characters of the text as were asked for, and the dots say that
/// more followed.
pub proof fn law_truncated_keeps_beginning(t: Seq<char>, max: nat)
    requires
        t.len() > max,
    ensures
        truncated(t, max).len() == max + 3,
        truncated(t, max).take(max as int) == t.take(max as int),
        truncated(t, max).skip(max as int) == "..."@,
{
    reveal_strlit("...");
    assert(truncated(t, max).take(max as int) =~= t.take(max as int));
    assert(truncated(t, max).skip(max as int) =~= "..."@);
}

/// A preview that fits shows all the words of the text, in order and with one blank between them;
/// one that does not shows the beginning of that and an ellipsis. A text without words is called
/// empty.
pub proof fn law_preview_shows_words(t: Seq<char>, max: nat)
    ensures
        words(t).len() == 0 ==> preview(t, max) == "(empty)"@,
        words(t).len() > 0 && joined(words(t), " "@).len() <= max && joined(words(t), " "@).len()
            > 0 ==> preview(t, max) == joined(words(t), " "@),
        joined(words(t), " "@).len() > max ==> {
            &&& preview(t, max).len() == max + 1
            &&& preview(t, max).last() == '…'
            &&& preview(t, max).drop_last() == joined(words(t), " "@).take(max as int)
        },
{
    let compact = joined(words(t), " "@);
    if compact.len() > max {
        assert(preview(t, max).drop_last() =~= compact.take(max as int));
    }
}

/// The bytes of a character in UTF-8, and that those of a text are those of its parts together.
pub proof fn law_bytes_add_up(a: Seq<char>, b: Seq<char>, c: char)
    ensures
        byte_len(a + b) == byte_len(a) + byte_len(b),
        (c as u32) < 0x80 ==> byte_len(seq![c]) == 1,
        0x80 <= c as u32 && (c as u32) < 0x800 ==> byte_len(seq![c]) == 2,
        0x800 <= c as u32 && (c as u32) < 0x10000 ==> byte_len(seq![c]) == 3,
        0x10000 <= c as u32 ==> byte_len(seq![c]) == 4,
{
    lemma_byte_len_parts(a + b, a.len() as int);
    assert((a + b).take(a.len() as int) =~= a);
    assert((a + b).skip(a.len() as int) =~= b);
    assert(seq![c].drop_first().len() == 0);
    assert(byte_len(seq![c].drop_first()) == 0);
}

/// A text that fits its limit is sent whole. Of a longer one the beginning is kept, as much as
/// fits and not a character less, and the note follows.
pub proof fn law_clip_keeps_what_fits(t: Seq<char>, limit: nat, note: Seq<char>)
    ensures
        byte_len(t) <= limit ==> clipped(t, limit, note) == t,
        byte_len(t) > limit ==> exists|k: int|
            {
                &&& 0 <= k < t.len()
                &&& clipped(t, limit, note) == #[trigger] t.take(k) + note
                &&& byte_len(t.take(k)) <= limit
                &&& byte_len(t.take(k + 1)) > limit
            },
{
    if byte_len(t) > limit {
        lemma_fitting(t, limit);
        lemma_next_does_not_fit(t, limit);
        let k = fitting(t, limit) as int;
        assert(clipped(t, limit, note) == t.take(k) + note);
    }
}

proof fn lemma_next_does_not_fit(t: Seq<char>, limit: nat)
    requires
        byte_len(t) > limit,
    ensures
        fitting(t, limit) < t.len(),
        byte_len(t.take(fitting(t, limit) as int + 1)) > limit,
    decreases t.len(),
{
    let k = fitting(t, limit) as int;
    let rest = t.drop_first();
    if width(t[0]) > limit {
        let one = t.take(1);
        assert(one[0] == t[0]);
        assert(one.drop_first().len() == 0);
        assert(byte_len(one.drop_first()) == 0);
    } else {
        lemma_next_does_not_fit(rest, (limit - width(t[0])) as nat);
        let more = t.take(k + 1);
        assert(more[0] == t[0]);
        assert(more.drop_first() =~= rest.take(k));
    }
}

/// A cut falls between two characters if and only if the text fits, or some beginning of it has
/// exactly as many bytes as are allowed.
pub proof fn law_clean_cuts(t: Seq<char>, limit: nat)
    ensures
        cuts_cleanly(t, limit) <==> byte_len(t) <= limit || exists|k: int|
            0 <= k <= t.len() && byte_len(#[trigger] t.take(k)) == limit,
{
    if byte_len(t) > limit {
        lemma_fitting(t, limit);
        lemma_next_does_not_fit(t, limit);
        let f = fitting(t, limit) as int;
        if exists|k: int| 0 <= k <= t.len() && byte_len(#[trigger] t.take(k)) == limit {
            let k = choose|k: int| 0 <= k <= t.len() && byte_len(#[trigger] t.take(k)) == limit;
            if k <= f {
                lemma_byte_len_parts(t.take(f), k);
                assert(t.take(f).take(k) =~= t.take(k));
            } else {
                lemma_byte_len_parts(t.take(k), f + 1);
                assert(t.take(k).take(f + 1) =~= t.take(f + 1));
            }
        }
        if cuts_cleanly(t, limit) {
            assert(byte_len(t.take(f)) == limit);
        }
    }
}

} // verus!
