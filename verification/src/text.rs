//! Text as sequences of characters: trimming, lines, words, search and joining.

use vstd::prelude::*;

verus! {

/// `String::push` appends the given character to the end of the string.
pub assume_specification[ String::push ](s: &mut String, c: char)
    ensures
        final(s)@ == old(s)@.push(c),
;

/// The characters with the Unicode property `White_Space`.
pub open spec fn is_space(c: char) -> bool {
    let n = c as u32;
    ||| 0x9 <= n <= 0xd
    ||| n == 0x20
    ||| n == 0x85
    ||| n == 0xa0
    ||| n == 0x1680
    ||| 0x2000 <= n <= 0x200a
    ||| n == 0x2028
    ||| n == 0x2029
    ||| n == 0x202f
    ||| n == 0x205f
    ||| n == 0x3000
}

/// A set of characters that a trim can remove.
#[derive(Clone, Copy)]
pub enum CharClass {
    /// White space.
    Space,
    /// One character.
    Only(char),
    /// Every character but one.
    Except(char),
}

impl CharClass {
    /// Membership of `c` in the class.
    pub open spec fn has(self, c: char) -> bool {
        match self {
            CharClass::Space => is_space(c),
            CharClass::Only(x) => c == x,
            CharClass::Except(x) => c != x,
        }
    }

    /// Tells whether `c` belongs to the class.
    pub fn holds(&self, c: char) -> (r: bool)
        ensures
            r == self.has(c),
    {
        match self {
            CharClass::Space => char_is_space(c),
            CharClass::Only(x) => c == *x,
            CharClass::Except(x) => c != *x,
        }
    }
}

/// Tells whether `c` is white space.
pub fn char_is_space(c: char) -> (r: bool)
    ensures
        r == is_space(c),
{
    let n: u32 = c as u32;
    (0x9 <= n && n <= 0xd) || n == 0x20 || n == 0x85 || n == 0xa0 || n == 0x1680 || (0x2000 <= n
        && n <= 0x200a) || n == 0x2028 || n == 0x2029 || n == 0x202f || n == 0x205f || n == 0x3000
}

/// `t` without the longest prefix whose characters are all in `class`.
pub open spec fn trim_front(t: Seq<char>, class: CharClass) -> Seq<char>
    decreases t.len(),
{
    if t.len() > 0 && class.has(t[0]) {
        trim_front(t.drop_first(), class)
    } else {
        t
    }
}

/// `t` without the longest suffix whose characters are all in `class`.
pub open spec fn trim_back(t: Seq<char>, class: CharClass) -> Seq<char>
    decreases t.len(),
{
    if t.len() > 0 && class.has(t.last()) {
        trim_back(t.drop_last(), class)
    } else {
        t
    }
}

/// `t` without the characters of `class` at both ends.
pub open spec fn trim_both(t: Seq<char>, class: CharClass) -> Seq<char> {
    trim_back(trim_front(t, class), class)
}

/// `t` without leading and trailing white space.
pub open spec fn trimmed(t: Seq<char>) -> Seq<char> {
    trim_both(t, CharClass::Space)
}

/// The texts of a sequence of strings.
pub open spec fn views(v: Seq<String>) -> Seq<Seq<char>> {
    Seq::new(v.len(), |i: int| v[i]@)
}

/// The text in an optional string.
pub open spec fn text_in(s: Option<&str>) -> Option<Seq<char>> {
    match s {
        Some(t) => Some(t@),
        None => None,
    }
}

/// The text in an optional owned string.
pub open spec fn inner_text(s: Option<String>) -> Option<Seq<char>> {
    match s {
        Some(t) => Some(t@),
        None => None,
    }
}

/// The text there is, or another.
pub open spec fn text_or(t: Option<Seq<char>>, other: Seq<char>) -> Seq<char> {
    match t {
        Some(t) => t,
        None => other,
    }
}

/// The characters of a string.
pub fn to_chars(s: &str) -> (v: Vec<char>)
    ensures
        v@ == s@,
{
    let mut v: Vec<char> = Vec::new();
    for c in it: s.chars()
        invariant
            it.seq() == s@,
            v@ == s@.take(it.index()),
    {
        proof {
            assert(s@.take(it.index() + 1) =~= s@.take(it.index()).push(s@[it.index()]));
        }
        v.push(c);
    }
    assert(s@.take(s@.len() as int) =~= s@);
    v
}

/// The string made of the characters `lo..hi`.
pub fn window(chars: &Vec<char>, lo: usize, hi: usize) -> (s: String)
    requires
        lo <= hi <= chars.len(),
    ensures
        s@ == chars@.subrange(lo as int, hi as int),
{
    let mut s = String::new();
    let mut i: usize = lo;
    while i < hi
        invariant
            lo <= i <= hi <= chars.len(),
            s@ == chars@.subrange(lo as int, i as int),
        decreases hi - i,
    {
        s.push(chars[i]);
        i += 1;
        proof {
            assert(chars@.subrange(lo as int, i as int) =~= chars@.subrange(
                lo as int,
                i - 1,
            ).push(chars@[i - 1]));
        }
    }
    s
}

/// The first index in `lo..hi` from which the front trim of that range begins.
pub fn front_edge(chars: &Vec<char>, lo: usize, hi: usize, class: CharClass) -> (r: usize)
    requires
        lo <= hi <= chars.len(),
    ensures
        lo <= r <= hi,
        chars@.subrange(r as int, hi as int) == trim_front(
            chars@.subrange(lo as int, hi as int),
            class,
        ),
{
    let mut i: usize = lo;
    while i < hi && class.holds(chars[i])
        invariant
            lo <= i <= hi <= chars.len(),
            trim_front(chars@.subrange(i as int, hi as int), class) == trim_front(
                chars@.subrange(lo as int, hi as int),
                class,
            ),
        decreases hi - i,
    {
        proof {
            assert(chars@.subrange(i as int, hi as int).drop_first() =~= chars@.subrange(
                i + 1,
                hi as int,
            ));
        }
        i += 1;
    }
    i
}

/// The index in `lo..=hi` at which the back trim of that range ends.
pub fn back_edge(chars: &Vec<char>, lo: usize, hi: usize, class: CharClass) -> (r: usize)
    requires
        lo <= hi <= chars.len(),
    ensures
        lo <= r <= hi,
        chars@.subrange(lo as int, r as int) == trim_back(
            chars@.subrange(lo as int, hi as int),
            class,
        ),
{
    let mut i: usize = hi;
    while i > lo && class.holds(chars[i - 1])
        invariant
            lo <= i <= hi <= chars.len(),
            trim_back(chars@.subrange(lo as int, i as int), class) == trim_back(
                chars@.subrange(lo as int, hi as int),
                class,
            ),
        decreases i - lo,
    {
        proof {
            assert(chars@.subrange(lo as int, i as int).drop_last() =~= chars@.subrange(
                lo as int,
                i - 1,
            ));
        }
        i -= 1;
    }
    i
}

/// `s` without the characters of `class` at its front.
pub fn trim_start_of(s: &str, class: CharClass) -> (r: String)
    ensures
        r@ == trim_front(s@, class),
{
    let chars = to_chars(s);
    let lo = front_edge(&chars, 0, chars.len(), class);
    proof {
        assert(chars@.subrange(0, chars@.len() as int) =~= chars@);
    }
    window(&chars, lo, chars.len())
}

/// `s` without the characters of `class` at both ends.
pub fn trim_of(s: &str, class: CharClass) -> (r: String)
    ensures
        r@ == trim_both(s@, class),
{
    let chars = to_chars(s);
    proof {
        assert(chars@.subrange(0, chars@.len() as int) =~= chars@);
    }
    let lo = front_edge(&chars, 0, chars.len(), class);
    let hi = back_edge(&chars, lo, chars.len(), class);
    window(&chars, lo, hi)
}

/// `s` without leading and trailing white space.
pub fn trim(s: &str) -> (r: String)
    ensures
        r@ == trimmed(s@),
{
    trim_of(s, CharClass::Space)
}

/// Tells whether `s` holds nothing but white space.
pub fn is_blank(s: &str) -> (r: bool)
    ensures
        r == (trimmed(s@).len() == 0),
{
    let t = trim(s);
    t.as_str().is_empty()
}

/// A front trim removes a run of the class, and stops at the first other character.
pub proof fn lemma_trim_front_run(run: Seq<char>, rest: Seq<char>, class: CharClass)
    requires
        forall|i: int| 0 <= i < run.len() ==> class.has(#[trigger] run[i]),
        rest.len() > 0 ==> !class.has(rest[0]),
    ensures
        trim_front(run + rest, class) == rest,
    decreases run.len(),
{
    if run.len() == 0 {
        assert(run + rest =~= rest);
    } else {
        assert(run[0] == (run + rest)[0]);
        assert((run + rest).drop_first() =~= run.drop_first() + rest);
        assert forall|i: int| 0 <= i < run.drop_first().len() implies class.has(
            #[trigger] run.drop_first()[i],
        ) by {
            assert(run.drop_first()[i] == run[i + 1]);
        }
        lemma_trim_front_run(run.drop_first(), rest, class);
    }
}

/// A trim leaves no white space at either end.
pub proof fn lemma_trimmed_ends(t: Seq<char>, class: CharClass)
    ensures
        trim_front(t, class).len() > 0 ==> !class.has(trim_front(t, class)[0]),
        trim_back(t, class).len() > 0 ==> !class.has(trim_back(t, class).last()),
        trim_back(t, class).len() > 0 ==> trim_back(t, class)[0] == t[0],
    decreases t.len(),
{
    if t.len() > 0 {
        if class.has(t[0]) {
            lemma_trimmed_ends(t.drop_first(), class);
        }
        if class.has(t.last()) {
            lemma_trimmed_ends(t.drop_last(), class);
        }
    }
}

/// Trimming a trimmed text changes nothing.
pub proof fn law_trim_is_final(t: Seq<char>)
    ensures
        trimmed(trimmed(t)) == trimmed(t),
{
    lemma_trimmed_ends(t, CharClass::Space);
    lemma_trimmed_ends(trim_front(t, CharClass::Space), CharClass::Space);
}

/// `pat` stands in `t` at index `i`.
pub open spec fn occurs_at(t: Seq<char>, pat: Seq<char>, i: int) -> bool {
    0 <= i && i + pat.len() <= t.len() && t.subrange(i, i + pat.len()) == pat
}

/// `pat` stands somewhere in `t`.
pub open spec fn has_text(t: Seq<char>, pat: Seq<char>) -> bool {
    exists|i: int| #[trigger] occurs_at(t, pat, i)
}

/// `t` begins with `pat`.
pub open spec fn begins_with(t: Seq<char>, pat: Seq<char>) -> bool {
    occurs_at(t, pat, 0)
}

/// `t` ends with `pat`.
pub open spec fn ends_in(t: Seq<char>, pat: Seq<char>) -> bool {
    occurs_at(t, pat, t.len() - pat.len())
}

/// Tells whether `pat` stands in `chars` at index `at`.
pub fn stands_at(chars: &Vec<char>, pat: &Vec<char>, at: usize) -> (r: bool)
    ensures
        r == occurs_at(chars@, pat@, at as int),
{
    if at > chars.len() || pat.len() > chars.len() - at {
        return false;
    }
    let mut i: usize = 0;
    while i < pat.len()
        invariant
            at + pat.len() <= chars.len(),
            i <= pat.len(),
            forall|k: int| 0 <= k < i ==> chars@[at + k] == #[trigger] pat@[k],
        decreases pat.len() - i,
    {
        if chars[at + i] != pat[i] {
            proof {
                assert(chars@.subrange(at as int, at + pat@.len())[i as int] != pat@[i as int]);
            }
            return false;
        }
        i += 1;
    }
    proof {
        assert(chars@.subrange(at as int, at + pat@.len()) =~= pat@);
    }
    true
}

/// Tells whether `pat` stands somewhere in `chars`.
pub fn chars_contain(chars: &Vec<char>, pat: &str) -> (r: bool)
    ensures
        r == has_text(chars@, pat@),
{
    let p = to_chars(pat);
    if p.len() > chars.len() {
        return false;
    }
    let last: usize = chars.len() - p.len();
    for i in 0..last
        invariant
            p@ == pat@,
            last + p.len() == chars.len(),
            forall|k: int| 0 <= k < i ==> !#[trigger] occurs_at(chars@, pat@, k),
    {
        if stands_at(chars, &p, i) {
            return true;
        }
    }
    stands_at(chars, &p, last)
}

/// Tells whether `pat` stands somewhere in `s`.
pub fn contains(s: &str, pat: &str) -> (r: bool)
    ensures
        r == has_text(s@, pat@),
{
    let chars = to_chars(s);
    chars_contain(&chars, pat)
}

/// A text stands between any two others.
pub proof fn lemma_middle_occurs(a: Seq<char>, pat: Seq<char>, b: Seq<char>)
    ensures
        has_text(a + pat + b, pat),
{
    let t = a + pat + b;
    assert(t.subrange(a.len() as int, (a.len() + pat.len()) as int) =~= pat);
    assert(occurs_at(t, pat, a.len() as int));
}

/// What stands in a text still does after more is appended.
pub proof fn lemma_appended_occurs(t: Seq<char>, more: Seq<char>, pat: Seq<char>)
    requires
        has_text(t, pat),
    ensures
        has_text(t + more, pat),
{
    let i = choose|i: int| #[trigger] occurs_at(t, pat, i);
    assert((t + more).subrange(i, i + pat.len()) =~= t.subrange(i, i + pat.len()));
    assert(occurs_at(t + more, pat, i));
}

/// The texts of a list of literals.
pub open spec fn texts(list: Seq<&'static str>) -> Seq<Seq<char>> {
    Seq::new(list.len(), |i: int| list[i]@)
}

/// One of `patterns` stands in `t`.
pub open spec fn has_any(t: Seq<char>, patterns: Seq<Seq<char>>) -> bool {
    exists|i: int| 0 <= i < patterns.len() && has_text(t, #[trigger] patterns[i])
}

/// Tells whether one of `patterns` stands in `chars`.
pub fn chars_contain_any(chars: &Vec<char>, patterns: &[&'static str]) -> (r: bool)
    ensures
        r == has_any(chars@, texts(patterns@)),
{
    for i in 0..patterns.len()
        invariant
            forall|k: int| 0 <= k < i ==> !has_text(chars@, #[trigger] texts(patterns@)[k]),
    {
        proof {
            assert(texts(patterns@)[i as int] == patterns@[i as int]@);
        }
        if chars_contain(chars, patterns[i]) {
            return true;
        }
    }
    false
}

/// Tells whether `s` begins with `pat`.
pub fn starts_with(s: &str, pat: &str) -> (r: bool)
    ensures
        r == begins_with(s@, pat@),
{
    let chars = to_chars(s);
    let pat = to_chars(pat);
    stands_at(&chars, &pat, 0)
}

/// A text that begins with another character than white space keeps what it begins with in a
/// trim, up to any such character.
pub proof fn lemma_trim_keeps_front(t: Seq<char>, n: int)
    requires
        0 < n <= t.len(),
        !is_space(t[0]),
        !is_space(t[n - 1]),
    ensures
        trimmed(t).len() >= n,
        trimmed(t).take(n) == t.take(n),
    decreases t.len(),
{
    if is_space(t.last()) {
        let u = t.drop_last();
        assert(u[0] == t[0] && u[n - 1] == t[n - 1]);
        lemma_trim_keeps_front(u, n);
        assert(u.take(n) =~= t.take(n));
    }
}

/// A text that begins and ends with other characters than white space survives a trim around it.
pub proof fn lemma_trim_keeps(t: Seq<char>, pat: Seq<char>)
    requires
        has_text(t, pat),
        pat.len() > 0,
        !is_space(pat[0]),
        !is_space(pat.last()),
    ensures
        has_text(trimmed(t), pat),
{
    let i = choose|i: int| #[trigger] occurs_at(t, pat, i);
    lemma_trim_front_keeps(t, pat, i);
    let u = trim_front(t, CharClass::Space);
    let j = choose|j: int| #[trigger] occurs_at(u, pat, j);
    lemma_trim_back_keeps(u, pat, j);
}

proof fn lemma_trim_front_keeps(t: Seq<char>, pat: Seq<char>, i: int)
    requires
        occurs_at(t, pat, i),
        pat.len() > 0,
        !is_space(pat[0]),
    ensures
        has_text(trim_front(t, CharClass::Space), pat),
    decreases t.len(),
{
    if is_space(t[0]) {
        assert(t.subrange(i, i + pat.len())[0] == t[i]);
        assert(t.drop_first().subrange(i - 1, i - 1 + pat.len()) =~= t.subrange(
            i,
            i + pat.len(),
        ));
        assert(occurs_at(t.drop_first(), pat, i - 1));
        lemma_trim_front_keeps(t.drop_first(), pat, i - 1);
    }
}

proof fn lemma_trim_back_keeps(t: Seq<char>, pat: Seq<char>, i: int)
    requires
        occurs_at(t, pat, i),
        pat.len() > 0,
        !is_space(pat.last()),
    ensures
        has_text(trim_back(t, CharClass::Space), pat),
    decreases t.len(),
{
    if is_space(t.last()) {
        assert(t.subrange(i, i + pat.len()).last() == t[i + pat.len() - 1]);
        assert(t.drop_last().subrange(i, i + pat.len()) =~= t.subrange(i, i + pat.len()));
        assert(occurs_at(t.drop_last(), pat, i));
        lemma_trim_back_keeps(t.drop_last(), pat, i);
    }
}

/// `t` without the copies of `pat` at its end.
pub open spec fn without_suffixes(t: Seq<char>, pat: Seq<char>) -> Seq<char>
    decreases t.len(),
{
    if pat.len() > 0 && ends_in(t, pat) {
        without_suffixes(t.take(t.len() - pat.len()), pat)
    } else {
        t
    }
}

/// `s` without the copies of `pat` at its end.
pub fn trim_end_of(s: &str, pat: &str) -> (r: String)
    ensures
        r@ == without_suffixes(s@, pat@),
{
    let chars = to_chars(s);
    let p = to_chars(pat);
    let n: usize = p.len();
    let mut hi: usize = chars.len();
    proof {
        assert(chars@.take(hi as int) =~= chars@);
    }
    while n > 0 && hi >= n && stands_at(&chars, &p, hi - n)
        invariant
            hi <= chars.len(),
            n == p.len(),
            chars@ == s@,
            p@ == pat@,
            without_suffixes(s@.take(hi as int), pat@) == without_suffixes(s@, pat@),
        decreases hi,
    {
        proof {
            let t = s@.take(hi as int);
            assert(t.subrange(hi - n, hi as int) =~= s@.subrange(hi - n, hi as int));
            assert(ends_in(t, pat@));
            assert(t.take(hi - n) =~= s@.take(hi - n));
        }
        hi -= n;
    }
    proof {
        let t = s@.take(hi as int);
        if n > 0 && hi >= n {
            assert(t.subrange(hi - n, hi as int) =~= s@.subrange(hi - n, hi as int));
        }
        assert(chars@.subrange(0, hi as int) =~= t);
    }
    window(&chars, 0, hi)
}

/// Tells whether two strings hold the same text.
pub fn same_text(a: &str, b: &str) -> (r: bool)
    ensures
        r == (a@ == b@),
{
    let x = to_chars(a);
    let y = to_chars(b);
    let r = x.len() == y.len() && stands_at(&x, &y, 0);
    proof {
        if x@.len() == y@.len() {
            assert(x@.subrange(0, y@.len() as int) =~= x@);
        }
    }
    r
}

/// What follows `pat` in `s`, if `s` begins with `pat`.
pub fn strip_prefix(s: &str, pat: &str) -> (r: Option<String>)
    ensures
        r is Some <==> begins_with(s@, pat@),
        r is Some ==> r->0@ == s@.skip(pat@.len() as int),
{
    let chars = to_chars(s);
    let p = to_chars(pat);
    if stands_at(&chars, &p, 0) {
        proof {
            assert(chars@.subrange(p@.len() as int, chars@.len() as int) =~= s@.skip(
                p@.len() as int,
            ));
        }
        Some(window(&chars, p.len(), chars.len()))
    } else {
        None
    }
}

/// The ASCII upper case of one character.
pub open spec fn upper_char(c: char) -> char {
    if 'a' <= c && c <= 'z' {
        ((c as u32) - 32) as char
    } else {
        c
    }
}

/// The ASCII lower case of one character.
pub open spec fn lower_char(c: char) -> char {
    if 'A' <= c && c <= 'Z' {
        ((c as u32) + 32) as char
    } else {
        c
    }
}

/// `t` with its ASCII letters in upper case.
pub open spec fn upper(t: Seq<char>) -> Seq<char> {
    t.map_values(|c: char| upper_char(c))
}

/// `t` with its ASCII letters in lower case.
pub open spec fn lower(t: Seq<char>) -> Seq<char> {
    t.map_values(|c: char| lower_char(c))
}

/// The characters of `s` with ASCII letters in upper case.
pub fn upper_chars(s: &str) -> (v: Vec<char>)
    ensures
        v@ == upper(s@),
{
    let chars = to_chars(s);
    let mut v: Vec<char> = Vec::new();
    let mut i: usize = 0;
    while i < chars.len()
        invariant
            i <= chars.len(),
            v@.len() == i,
            forall|k: int| 0 <= k < i ==> v@[k] == upper_char(#[trigger] chars@[k]),
        decreases chars.len() - i,
    {
        let c = chars[i];
        let u: char = if 'a' <= c && c <= 'z' {
            ((c as u8) - 32) as char
        } else {
            c
        };
        v.push(u);
        i += 1;
    }
    proof {
        assert(v@ =~= upper(s@));
    }
    v
}

/// The characters of `s` with ASCII letters in lower case.
pub fn lower_chars(s: &str) -> (v: Vec<char>)
    ensures
        v@ == lower(s@),
{
    let chars = to_chars(s);
    let mut v: Vec<char> = Vec::new();
    let mut i: usize = 0;
    while i < chars.len()
        invariant
            i <= chars.len(),
            v@.len() == i,
            forall|k: int| 0 <= k < i ==> v@[k] == lower_char(#[trigger] chars@[k]),
        decreases chars.len() - i,
    {
        let c = chars[i];
        let u: char = if 'A' <= c && c <= 'Z' {
            ((c as u8) + 32) as char
        } else {
            c
        };
        v.push(u);
        i += 1;
    }
    proof {
        assert(v@ =~= lower(s@));
    }
    v
}

/// `s` with its ASCII letters in lower case.
pub fn to_lower(s: &str) -> (r: String)
    ensures
        r@ == lower(s@),
{
    let v = lower_chars(s);
    proof {
        assert(v@.subrange(0, v@.len() as int) =~= v@);
    }
    window(&v, 0, v.len())
}

/// The index of the first `c` in `t`, or the length of `t`.
pub open spec fn first_index(t: Seq<char>, c: char) -> nat
    decreases t.len(),
{
    if t.len() == 0 || t[0] == c {
        0
    } else {
        1 + first_index(t.drop_first(), c)
    }
}

/// `t` without one carriage return at its end.
pub open spec fn without_cr(t: Seq<char>) -> Seq<char> {
    if t.len() > 0 && t.last() == '\r' {
        t.drop_last()
    } else {
        t
    }
}

/// The lines of `t`: each ends at a line feed, which with a carriage return before it is not
/// part of the line; the last line may lack one.
pub open spec fn lines(t: Seq<char>) -> Seq<Seq<char>>
    decreases t.len(),
{
    let k = first_index(t, '\n') as int;
    if t.len() == 0 {
        Seq::empty()
    } else if k >= t.len() {
        seq![t]
    } else {
        seq![without_cr(t.take(k))] + lines(t.skip(k + 1))
    }
}

/// `first_index` is the least index at which the character stands, or the length.
pub proof fn lemma_first_index(t: Seq<char>, c: char)
    ensures
        0 <= first_index(t, c) <= t.len(),
        first_index(t, c) < t.len() ==> t[first_index(t, c) as int] == c,
        forall|i: int| 0 <= i < first_index(t, c) ==> t[i] != c,
    decreases t.len(),
{
    if t.len() > 0 && t[0] != c {
        lemma_first_index(t.drop_first(), c);
        assert forall|i: int| 0 <= i < first_index(t, c) implies t[i] != c by {
            if i > 0 {
                assert(t[i] == t.drop_first()[i - 1]);
            }
        }
    }
}

/// The first line of a text that goes on after a line feed.
pub proof fn lemma_first_line(line: Seq<char>, rest: Seq<char>)
    requires
        !line.contains('\n'),
    ensures
        lines(line + seq!['\n'] + rest) == seq![without_cr(line)] + lines(rest),
{
    let t = line + seq!['\n'] + rest;
    lemma_first_index(t, '\n');
    let k = first_index(t, '\n') as int;
    assert(t[line.len() as int] == '\n');
    if k < line.len() {
        assert(t[k] == line[k]);
        assert(line.contains(line[k]));
    }
    assert(k == line.len());
    assert(t.take(k) =~= line);
    assert(t.skip(k + 1) =~= rest);
}

/// The first index in `lo..hi` at which `c` stands, or `hi`.
pub fn find_char(chars: &Vec<char>, lo: usize, hi: usize, c: char) -> (r: usize)
    requires
        lo <= hi <= chars.len(),
    ensures
        lo <= r <= hi,
        r == lo + first_index(chars@.subrange(lo as int, hi as int), c),
{
    let mut i: usize = lo;
    while i < hi && chars[i] != c
        invariant
            lo <= i <= hi <= chars.len(),
            i - lo + first_index(chars@.subrange(i as int, hi as int), c) == first_index(
                chars@.subrange(lo as int, hi as int),
                c,
            ),
        decreases hi - i,
    {
        proof {
            assert(chars@.subrange(i as int, hi as int).drop_first() =~= chars@.subrange(
                i + 1,
                hi as int,
            ));
        }
        i += 1;
    }
    i
}

/// Splits a text into its lines.
pub fn split_lines(s: &str) -> (out: Vec<String>)
    ensures
        views(out@) == lines(s@),
{
    let chars = to_chars(s);
    let n: usize = chars.len();
    let mut out: Vec<String> = Vec::new();
    let mut pos: usize = 0;
    proof {
        assert(s@.subrange(0, n as int) =~= s@);
        assert(views(out@) + lines(s@) =~= lines(s@));
    }
    while pos < n
        invariant
            pos <= n,
            n == chars.len(),
            chars@ == s@,
            views(out@) + lines(s@.subrange(pos as int, n as int)) == lines(s@),
        decreases n - pos,
    {
        let ghost rest = s@.subrange(pos as int, n as int);
        let k = find_char(&chars, pos, n, '\n');
        let ghost before = views(out@);
        proof {
            lemma_first_index(rest, '\n');
        }
        if k == n {
            let line = window(&chars, pos, n);
            out.push(line);
            proof {
                assert(lines(rest) =~= seq![rest]);
                assert(lines(s@.subrange(n as int, n as int)) =~= Seq::empty());
                assert(views(out@) =~= before + seq![rest]);
                assert(views(out@) + Seq::<Seq<char>>::empty() =~= views(out@));
            }
            pos = n;
        } else {
            let end: usize = if k > pos && chars[k - 1] == '\r' {
                k - 1
            } else {
                k
            };
            let line = window(&chars, pos, end);
            out.push(line);
            proof {
                let j = k - pos;
                assert(rest.take(j) =~= s@.subrange(pos as int, k as int));
                assert(without_cr(rest.take(j)) =~= line@);
                assert(rest.skip(j + 1) =~= s@.subrange(k + 1, n as int));
                assert(lines(rest) =~= seq![line@] + lines(rest.skip(j + 1)));
                assert(views(out@) =~= before + seq![line@]);
                assert(views(out@) + lines(s@.subrange(k + 1, n as int)) =~= before + lines(rest));
            }
            pos = k + 1;
        }
    }
    proof {
        assert(lines(s@.subrange(n as int, n as int)) =~= Seq::empty());
        assert(views(out@) + Seq::<Seq<char>>::empty() =~= views(out@));
    }
    out
}

/// The number of leading characters of `t` that are not white space.
pub open spec fn word_len(t: Seq<char>) -> int
    decreases t.len(),
{
    if t.len() == 0 || is_space(t[0]) {
        0
    } else {
        1 + word_len(t.drop_first())
    }
}

/// The words of `t`: its maximal runs of characters that are not white space.
pub open spec fn words(t: Seq<char>) -> Seq<Seq<char>>
    decreases t.len(),
{
    if t.len() == 0 {
        Seq::empty()
    } else if is_space(t[0]) {
        words(t.drop_first())
    } else {
        let k = word_len(t);
        if 0 < k <= t.len() {
            seq![t.take(k)] + words(t.skip(k))
        } else {
            Seq::empty()
        }
    }
}

/// The first word of a text that does not begin with white space is not empty.
pub proof fn lemma_word_len(t: Seq<char>)
    ensures
        0 <= word_len(t) <= t.len(),
        t.len() > 0 && !is_space(t[0]) ==> word_len(t) > 0,
        word_len(t) < t.len() ==> is_space(t[word_len(t)]),
        forall|i: int| 0 <= i < word_len(t) ==> !is_space(t[i]),
    decreases t.len(),
{
    if t.len() > 0 && !is_space(t[0]) {
        lemma_word_len(t.drop_first());
        assert forall|i: int| 0 <= i < word_len(t) implies !is_space(t[i]) by {
            if i > 0 {
                assert(t[i] == t.drop_first()[i - 1]);
            }
        }
    }
}

/// Splits a text at white space.
pub fn split_words(s: &str) -> (out: Vec<String>)
    ensures
        views(out@) == words(s@),
{
    let chars = to_chars(s);
    let n: usize = chars.len();
    let mut out: Vec<String> = Vec::new();
    let mut pos: usize = 0;
    proof {
        assert(s@.subrange(0, n as int) =~= s@);
        assert(views(out@) + words(s@) =~= words(s@));
    }
    while pos < n
        invariant
            pos <= n,
            n == chars.len(),
            chars@ == s@,
            views(out@) + words(s@.subrange(pos as int, n as int)) == words(s@),
        decreases n - pos,
    {
        let ghost rest = s@.subrange(pos as int, n as int);
        if char_is_space(chars[pos]) {
            proof {
                assert(rest.drop_first() =~= s@.subrange(pos + 1, n as int));
            }
            pos += 1;
        } else {
            let mut k: usize = pos;
            while k < n && !char_is_space(chars[k])
                invariant
                    pos <= k <= n,
                    n == chars.len(),
                    chars@ == s@,
                    k - pos + word_len(s@.subrange(k as int, n as int)) == word_len(
                        s@.subrange(pos as int, n as int),
                    ),
                decreases n - k,
            {
                proof {
                    assert(s@.subrange(k as int, n as int).drop_first() =~= s@.subrange(
                        k + 1,
                        n as int,
                    ));
                }
                k += 1;
            }
            let ghost before = views(out@);
            let word = window(&chars, pos, k);
            out.push(word);
            proof {
                lemma_word_len(rest);
                let j = k - pos;
                assert(rest.take(j) =~= word@);
                assert(rest.skip(j) =~= s@.subrange(k as int, n as int));
                assert(views(out@) =~= before + seq![word@]);
                assert(views(out@) + words(rest.skip(j)) =~= before + words(rest));
            }
            pos = k;
        }
    }
    proof {
        assert(words(s@.subrange(n as int, n as int)) =~= Seq::empty());
        assert(views(out@) + Seq::<Seq<char>>::empty() =~= views(out@));
    }
    out
}

/// The texts of `parts` with `sep` between each two neighbours.
pub open spec fn joined(parts: Seq<Seq<char>>, sep: Seq<char>) -> Seq<char>
    decreases parts.len(),
{
    if parts.len() == 0 {
        Seq::empty()
    } else if parts.len() == 1 {
        parts[0]
    } else {
        joined(parts.drop_last(), sep) + sep + parts.last()
    }
}

/// Joins the parts `from..to`.
pub fn join_range(parts: &Vec<String>, from: usize, to: usize, sep: &str) -> (r: String)
    requires
        from <= to <= parts.len(),
    ensures
        r@ == joined(views(parts@).subrange(from as int, to as int), sep@),
{
    let mut r = String::new();
    let mut i: usize = from;
    let ghost all = views(parts@).subrange(from as int, to as int);
    while i < to
        invariant
            from <= i <= to <= parts.len(),
            all == views(parts@).subrange(from as int, to as int),
            r@ == joined(all.take(i - from), sep@),
        decreases to - i,
    {
        if i > from {
            r.append(sep);
        }
        r.append(parts[i].as_str());
        i += 1;
        proof {
            let j = i - from;
            assert(all.take(j).drop_last() =~= all.take(j - 1));
            assert(all.take(j).last() == parts@[i - 1]@);
            if j == 1 {
                assert(r@ =~= all.take(1)[0]);
            }
        }
    }
    proof {
        assert(all.take(to - from) =~= all);
    }
    r
}

/// Joins the parts from index `from` on.
pub fn join_from(parts: &Vec<String>, from: usize, sep: &str) -> (r: String)
    requires
        from <= parts.len(),
    ensures
        r@ == joined(views(parts@).skip(from as int), sep@),
{
    proof {
        assert(views(parts@).subrange(from as int, parts@.len() as int) =~= views(parts@).skip(
            from as int,
        ));
    }
    join_range(parts, from, parts.len(), sep)
}

/// Joins the first `to` parts.
pub fn join_prefix(parts: &Vec<String>, to: usize, sep: &str) -> (r: String)
    requires
        to <= parts.len(),
    ensures
        r@ == joined(views(parts@).take(to as int), sep@),
{
    proof {
        assert(views(parts@).subrange(0, to as int) =~= views(parts@).take(to as int));
    }
    join_range(parts, 0, to, sep)
}

/// Joins all the parts.
pub fn join(parts: &Vec<String>, sep: &str) -> (r: String)
    ensures
        r@ == joined(views(parts@), sep@),
{
    proof {
        assert(views(parts@).skip(0) =~= views(parts@));
    }
    join_from(parts, 0, sep)
}

/// `t` with every `from` replaced by `to`.
pub open spec fn with_char_replaced(t: Seq<char>, from: char, to: char) -> Seq<char> {
    t.map_values(|c: char| if c == from { to } else { c })
}

/// Replaces every `from` by `to`.
pub fn replace_char(s: &str, from: char, to: char) -> (r: String)
    ensures
        r@ == with_char_replaced(s@, from, to),
{
    let chars = to_chars(s);
    let mut r = String::new();
    let mut i: usize = 0;
    while i < chars.len()
        invariant
            i <= chars.len(),
            r@.len() == i,
            forall|k: int|
                0 <= k < i ==> r@[k] == (if #[trigger] chars@[k] == from {
                    to
                } else {
                    chars@[k]
                }),
        decreases chars.len() - i,
    {
        let c = chars[i];
        r.push(if c == from { to } else { c });
        i += 1;
    }
    proof {
        assert(r@ =~= with_char_replaced(s@, from, to));
    }
    r
}

/// A trim takes white space off both ends and nothing else: what is left stands in the text
/// between two runs of white space, and neither begins nor ends with any.
pub proof fn law_trim_takes_space_only(t: Seq<char>)
    ensures
        exists|a: Seq<char>, b: Seq<char>|
            {
                &&& t == #[trigger] (a + trimmed(t) + b)
                &&& forall|i: int| 0 <= i < a.len() ==> is_space(#[trigger] a[i])
                &&& forall|i: int| 0 <= i < b.len() ==> is_space(#[trigger] b[i])
            },
        trimmed(t).len() > 0 ==> !is_space(trimmed(t)[0]) && !is_space(trimmed(t).last()),
{
    let u = trim_front(t, CharClass::Space);
    lemma_trim_front_split(t);
    lemma_trim_back_split(u);
    let a = t.take(t.len() - u.len());
    let b = u.skip(trimmed(t).len() as int);
    assert(t =~= a + trimmed(t) + b);
    lemma_trimmed_ends(t, CharClass::Space);
    lemma_trimmed_ends(u, CharClass::Space);
}

proof fn lemma_trim_front_split(t: Seq<char>)
    ensures
        ({
            let u = trim_front(t, CharClass::Space);
            let n = t.len() - u.len();
            &&& 0 <= n
            &&& t.skip(n) == u
            &&& forall|i: int| 0 <= i < n ==> is_space(#[trigger] t[i])
        }),
    decreases t.len(),
{
    let u = trim_front(t, CharClass::Space);
    if t.len() > 0 && is_space(t[0]) {
        lemma_trim_front_split(t.drop_first());
        let n = t.len() - u.len();
        assert(t.skip(n) =~= t.drop_first().skip(n - 1));
        assert forall|i: int| 0 <= i < n implies is_space(#[trigger] t[i]) by {
            if i > 0 {
                assert(t[i] == t.drop_first()[i - 1]);
            }
        }
    } else {
        assert(t.skip(0) =~= t);
    }
}

proof fn lemma_trim_back_split(t: Seq<char>)
    ensures
        ({
            let u = trim_back(t, CharClass::Space);
            &&& u.len() <= t.len()
            &&& t.take(u.len() as int) == u
            &&& forall|i: int| u.len() <= i < t.len() ==> is_space(#[trigger] t[i])
        }),
    decreases t.len(),
{
    let u = trim_back(t, CharClass::Space);
    if t.len() > 0 && is_space(t.last()) {
        lemma_trim_back_split(t.drop_last());
        assert(t.take(u.len() as int) =~= t.drop_last().take(u.len() as int));
        assert forall|i: int| u.len() <= i < t.len() implies is_space(#[trigger] t[i]) by {
            if i < t.len() - 1 {
                assert(t[i] == t.drop_last()[i]);
            }
        }
    } else {
        assert(t.take(t.len() as int) =~= t);
    }
}

/// Blanks, tabs and line ends are white space; what is printed in ASCII is not.
pub proof fn law_space_is_what_is_not_printed(c: char)
    ensures
        is_space(' ') && is_space('\t') && is_space('\n') && is_space('\r'),
        '!' <= c <= '~' ==> !is_space(c),
{
}

/// The lines of a text are what stands between its line feeds, however many there are: a line
/// feed, with or without a carriage return before it, ends a line, and the rest is split as it
/// would be alone. What holds no line feed is one line.
pub proof fn law_lines_end_at_line_feeds(line: Seq<char>, rest: Seq<char>)
    requires
        !line.contains('\n'),
    ensures
        line.len() > 0 ==> lines(line) == seq![line],
        lines(Seq::<char>::empty()).len() == 0,
        line.len() == 0 || line.last() != '\r' ==> lines(line + seq!['\n'] + rest) == seq![line]
            + lines(rest),
        lines(line + seq!['\r', '\n'] + rest) == seq![line] + lines(rest),
{
    lemma_first_index(line, '\n');
    if first_index(line, '\n') < line.len() {
        assert(line.contains(line[first_index(line, '\n') as int]));
    }
    lemma_first_line(line, rest);
    let returned = line + seq!['\r'];
    assert(!returned.contains('\n')) by {
        assert forall|i: int| 0 <= i < returned.len() implies returned[i] != '\n' by {
            if i < line.len() {
                assert(line.contains(line[i]));
            }
        }
    }
    lemma_first_line(returned, rest);
    assert(returned.drop_last() =~= line);
    assert(returned + seq!['\n'] + rest =~= line + seq!['\r', '\n'] + rest);
}

/// The words of a text are what stands between its white space, however many there are: white
/// space separates words, and what stands on either side is split as it would be alone.
pub proof fn law_words_end_at_space(a: Seq<char>, c: char, b: Seq<char>)
    requires
        is_space(c),
    ensures
        words(a + seq![c] + b) == words(a) + words(b),
        words(Seq::<char>::empty()).len() == 0,
        a.len() > 0 && (forall|i: int| 0 <= i < a.len() ==> !is_space(#[trigger] a[i])) ==> words(a)
            == seq![a],
    decreases a.len(),
{
    let t = a + seq![c] + b;
    lemma_word_len(a);
    lemma_word_len(t);
    if a.len() == 0 {
        assert(t.drop_first() =~= b);
        assert(words(a) + words(b) =~= words(b));
    } else if is_space(a[0]) {
        law_words_end_at_space(a.drop_first(), c, b);
        assert(t.drop_first() =~= a.drop_first() + seq![c] + b);
    } else {
        let k = word_len(a);
        assert(word_len(t) == k) by {
            if word_len(t) < k {
                assert(t[word_len(t)] == a[word_len(t)]);
            } else if word_len(t) > k {
                assert(t[k] == if k < a.len() { a[k] } else { c });
            }
        }
        assert(t.take(k) =~= a.take(k));
        law_words_end_at_space(a.skip(k), c, b);
        assert(t.skip(k) =~= a.skip(k) + seq![c] + b);
        assert(words(t) =~= words(a) + words(b));
        if forall|i: int| 0 <= i < a.len() ==> !is_space(#[trigger] a[i]) {
            assert(k == a.len());
            assert(a.take(k) =~= a);
            assert(a.skip(k) =~= Seq::empty());
            assert(words(a) =~= seq![a]);
        }
    }
}

/// Joined parts stand in their order with one separator between any two, however many there are:
/// two lists joined with the separator between them are the whole list joined.
pub proof fn law_joins_compose(a: Seq<Seq<char>>, b: Seq<Seq<char>>, sep: Seq<char>)
    requires
        a.len() > 0,
        b.len() > 0,
    ensures
        joined(a + b, sep) == joined(a, sep) + sep + joined(b, sep),
        a.len() == 1 ==> joined(a, sep) == a[0],
    decreases b.len(),
{
    let all = a + b;
    if b.len() == 1 {
        assert(all.drop_last() =~= a);
    } else {
        law_joins_compose(a, b.drop_last(), sep);
        assert(all.drop_last() =~= a + b.drop_last());
        assert(joined(all, sep) =~= joined(a, sep) + sep + joined(b, sep));
    }
}

/// Each of the parts stands in what they are joined to.
pub proof fn law_joined_holds_parts(parts: Seq<Seq<char>>, sep: Seq<char>, i: int)
    requires
        0 <= i < parts.len(),
    ensures
        has_text(joined(parts, sep), parts[i]),
    decreases parts.len(),
{
    let all = joined(parts, sep);
    if parts.len() == 1 {
        assert(all =~= Seq::<char>::empty() + parts[0] + Seq::empty());
        lemma_middle_occurs(Seq::empty(), parts[0], Seq::empty());
    } else {
        let head = joined(parts.drop_last(), sep);
        if i == parts.len() - 1 {
            assert(all =~= (head + sep) + parts[i] + Seq::empty());
            lemma_middle_occurs(head + sep, parts[i], Seq::empty());
        } else {
            law_joined_holds_parts(parts.drop_last(), sep, i);
            lemma_appended_occurs(head, sep, parts[i]);
            lemma_appended_occurs(head + sep, parts.last(), parts[i]);
        }
    }
}

/// Case is changed letter by letter: every ASCII letter becomes the other one of its pair, and
/// everything else stays where it is.
pub proof fn law_case_changes_letters_only(t: Seq<char>, i: int)
    requires
        0 <= i < t.len(),
    ensures
        upper(t).len() == t.len() && lower(t).len() == t.len(),
        'a' <= t[i] <= 'z' ==> upper(t)[i] as u32 + 32 == t[i] as u32,
        !('a' <= t[i] <= 'z') ==> upper(t)[i] == t[i],
        'A' <= t[i] <= 'Z' ==> lower(t)[i] as u32 == t[i] as u32 + 32,
        !('A' <= t[i] <= 'Z') ==> lower(t)[i] == t[i],
{
}

/// The pieces of a text one after another.
pub open spec fn concat(parts: Seq<Seq<char>>, n: nat) -> Seq<char>
    decreases n,
{
    if n == 0 {
        Seq::empty()
    } else {
        concat(parts, (n - 1) as nat) + parts[n - 1]
    }
}

/// Two neighbouring pieces stand next to each other in the whole.
pub proof fn lemma_concat_holds(parts: Seq<Seq<char>>, n: nat, i: int)
    requires
        0 <= i,
        i + 1 < n <= parts.len(),
    ensures
        has_text(concat(parts, n), parts[i] + parts[i + 1]),
    decreases n,
{
    let pair = parts[i] + parts[i + 1];
    if i + 2 == n {
        let head = concat(parts, i as nat);
        assert(concat(parts, (i + 1) as nat) == head + parts[i]);
        assert(concat(parts, n) =~= head + pair + Seq::empty());
        lemma_middle_occurs(head, pair, Seq::empty());
    } else {
        lemma_concat_holds(parts, (n - 1) as nat, i);
        lemma_appended_occurs(concat(parts, (n - 1) as nat), parts[n - 1], pair);
    }
}

/// A text stands in another if and only if the other is something before it, it, and something
/// after it.
pub proof fn law_search_finds_parts(t: Seq<char>, pat: Seq<char>)
    ensures
        has_text(t, pat) <==> exists|a: Seq<char>, b: Seq<char>| t == #[trigger] (a + pat + b),
        begins_with(t, pat) <==> exists|b: Seq<char>| t == #[trigger] (pat + b),
        ends_in(t, pat) <==> exists|a: Seq<char>| t == #[trigger] (a + pat),
{
    if has_text(t, pat) {
        let i = choose|i: int| #[trigger] occurs_at(t, pat, i);
        assert(t =~= t.take(i) + pat + t.skip(i + pat.len()));
    }
    if exists|a: Seq<char>, b: Seq<char>| t == #[trigger] (a + pat + b) {
        let (a, b) = choose|a: Seq<char>, b: Seq<char>| t == #[trigger] (a + pat + b);
        lemma_middle_occurs(a, pat, b);
    }
    if begins_with(t, pat) {
        assert(t =~= pat + t.skip(pat.len() as int));
    }
    if exists|b: Seq<char>| t == #[trigger] (pat + b) {
        let b = choose|b: Seq<char>| t == #[trigger] (pat + b);
        assert(t.subrange(0, pat.len() as int) =~= pat);
    }
    if ends_in(t, pat) {
        assert(t =~= t.take(t.len() - pat.len()) + pat);
    }
    if exists|a: Seq<char>| t == #[trigger] (a + pat) {
        let a = choose|a: Seq<char>| t == #[trigger] (a + pat);
        assert(t.subrange(t.len() - pat.len(), t.len() as int) =~= pat);
    }
}

/// What stands in a part of a text stands in the text.
pub proof fn lemma_part_of_part(t: Seq<char>, part: Seq<char>, pat: Seq<char>)
    requires
        has_text(t, part),
        has_text(part, pat),
    ensures
        has_text(t, pat),
{
    let i = choose|i: int| #[trigger] occurs_at(t, part, i);
    let j = choose|j: int| #[trigger] occurs_at(part, pat, j);
    assert(t.subrange(i + j, i + j + pat.len()) =~= part.subrange(j, j + pat.len()));
    assert(occurs_at(t, pat, i + j));
}

/// A part of a text is a part of it in upper case too.
pub proof fn lemma_upper_part(t: Seq<char>, pat: Seq<char>)
    requires
        has_text(t, pat),
    ensures
        has_text(upper(t), upper(pat)),
{
    let i = choose|i: int| #[trigger] occurs_at(t, pat, i);
    assert forall|k: int| 0 <= k < pat.len() implies pat[k] == #[trigger] t[i + k] by {
        assert(t.subrange(i, i + pat.len())[k] == t[i + k]);
    }
    assert(upper(t).subrange(i, i + pat.len()) =~= upper(pat));
    assert(occurs_at(upper(t), upper(pat), i));
}

/// Neighbouring parts, joined, stand in the whole.
pub proof fn lemma_joined_holds_range(parts: Seq<Seq<char>>, sep: Seq<char>, i: int, j: int)
    requires
        0 <= i < j <= parts.len(),
    ensures
        has_text(joined(parts, sep), joined(parts.subrange(i, j), sep)),
{
    let mid = parts.subrange(i, j);
    let upto = parts.take(j);
    let m = joined(mid, sep);
    if i > 0 {
        law_joins_compose(parts.take(i), mid, sep);
        assert(parts.take(i) + mid =~= upto);
        let head = joined(parts.take(i), sep) + sep;
        assert(joined(upto, sep) =~= head + m + Seq::empty());
        lemma_middle_occurs(head, m, Seq::empty());
    } else {
        assert(mid =~= upto);
        assert(m =~= Seq::<char>::empty() + m + Seq::empty());
        lemma_middle_occurs(Seq::empty(), m, Seq::empty());
    }
    if j < parts.len() {
        law_joins_compose(upto, parts.skip(j), sep);
        assert(upto + parts.skip(j) =~= parts);
        lemma_appended_occurs(joined(upto, sep), sep, m);
        lemma_appended_occurs(joined(upto, sep) + sep, joined(parts.skip(j), sep), m);
    } else {
        assert(upto =~= parts);
    }
}

/// The lines of a text, joined with line feeds, are the text: nothing is lost, at whatever length.
/// Only carriage returns and a line feed at the very end do not come back.
pub proof fn law_lines_join_back(t: Seq<char>)
    requires
        !t.contains('\r'),
        t.len() > 0 ==> t.last() != '\n',
    ensures
        joined(lines(t), "\n"@) == t,
    decreases t.len(),
{
    reveal_strlit("\n");
    lemma_first_index(t, '\n');
    let k = first_index(t, '\n') as int;
    if t.len() == 0 {
        assert(joined(lines(t), "\n"@) =~= t);
    } else if k < t.len() {
        let line = t.take(k);
        let rest = t.skip(k + 1);
        assert(rest.len() > 0 && rest.last() == t.last());
        assert(!rest.contains('\r')) by {
            if rest.contains('\r') {
                let i = choose|i: int| 0 <= i < rest.len() && rest[i] == '\r';
                assert(t[i + k + 1] == '\r');
            }
        }
        assert(without_cr(line) == line) by {
            if line.len() > 0 && line.last() == '\r' {
                assert(t[k - 1] == '\r');
            }
        }
        law_lines_join_back(rest);
        lemma_lines_not_empty(rest);
        law_joins_compose(seq![line], lines(rest), "\n"@);
        assert(t =~= line + "\n"@ + rest);
    }
}

/// A text that is not empty has a line.
pub proof fn lemma_lines_not_empty(t: Seq<char>)
    requires
        t.len() > 0,
    ensures
        lines(t).len() > 0,
{
    lemma_first_index(t, '\n');
}

/// No word is empty or holds white space.
pub proof fn law_words_hold_no_space(t: Seq<char>, i: int)
    requires
        0 <= i < words(t).len(),
    ensures
        words(t)[i].len() > 0,
        forall|k: int| 0 <= k < words(t)[i].len() ==> !is_space(#[trigger] words(t)[i][k]),
    decreases t.len(),
{
    lemma_word_len(t);
    if is_space(t[0]) {
        law_words_hold_no_space(t.drop_first(), i);
    } else {
        let k = word_len(t);
        if i > 0 {
            law_words_hold_no_space(t.skip(k), i - 1);
        }
    }
}

/// Strings and literals are looked at one by one, however many there are.
pub proof fn law_views_are_of_each(v: Seq<String>, list: Seq<&'static str>)
    ensures
        views(v).len() == v.len(),
        forall|i: int| 0 <= i < v.len() ==> #[trigger] views(v)[i] == v[i]@,
        texts(list).len() == list.len(),
        forall|i: int| 0 <= i < list.len() ==> #[trigger] texts(list)[i] == list[i]@,
{
}

/// A search for several texts is a search for each of them.
pub proof fn law_any_is_one_of(t: Seq<char>, a: Seq<Seq<char>>, b: Seq<Seq<char>>, p: Seq<char>)
    ensures
        has_any(t, a + b) <==> has_any(t, a) || has_any(t, b),
        has_any(t, seq![p]) <==> has_text(t, p),
        !has_any(t, Seq::empty()),
{
    let all = a + b;
    if has_any(t, a) {
        let i = choose|i: int| 0 <= i < a.len() && has_text(t, #[trigger] a[i]);
        assert(all[i] == a[i]);
    }
    if has_any(t, b) {
        let i = choose|i: int| 0 <= i < b.len() && has_text(t, #[trigger] b[i]);
        assert(all[a.len() + i] == b[i]);
    }
    if has_any(t, all) {
        let i = choose|i: int| 0 <= i < all.len() && has_text(t, #[trigger] all[i]);
        if i < a.len() {
            assert(has_text(t, a[i]));
        } else {
            assert(has_text(t, b[i - a.len()]));
        }
    }
    assert(seq![p][0] == p);
}

/// A replacement of characters goes through the whole text and touches no other character.
pub proof fn law_replacement_is_everywhere(t: Seq<char>, from: char, to: char)
    ensures
        with_char_replaced(t, from, to).len() == t.len(),
        forall|i: int|
            0 <= i < t.len() && t[i] != from ==> #[trigger] with_char_replaced(t, from, to)[i]
                == t[i],
        forall|i: int|
            0 <= i < t.len() && t[i] == from ==> #[trigger] with_char_replaced(t, from, to)[i]
                == to,
{
}

/// Copies of a text at the end come off, all of them, and nothing else does.
pub proof fn law_suffixes_come_off(t: Seq<char>, pat: Seq<char>)
    requires
        pat.len() > 0,
    ensures
        !ends_in(t, pat) ==> without_suffixes(t, pat) == t,
        without_suffixes(t + pat, pat) == without_suffixes(t, pat),
        !ends_in(without_suffixes(t, pat), pat),
    decreases t.len(),
{
    let n = (t + pat).len() as int;
    assert((t + pat).subrange(n - pat.len(), n) =~= pat);
    assert((t + pat).take(n - pat.len()) =~= t);
    if ends_in(t, pat) {
        law_suffixes_come_off(t.take(t.len() - pat.len()), pat);
    }
}

/// A text that is there counts, whatever would stand in for it.
pub proof fn law_given_text_counts(t: Seq<char>, other: Seq<char>)
    ensures
        text_or(Some(t), other) == t,
        text_or(None, other) == other,
{
}

} // verus!
