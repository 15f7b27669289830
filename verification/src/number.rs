//! Decimal numbers as text.

use vstd::prelude::*;

use crate::text::{to_chars, window};

verus! {

/// The digit for a value below ten.
pub open spec fn digit_char(d: nat) -> char {
    (48 + d) as char
}

/// `c` is one of the ten ASCII digits.
pub open spec fn is_digit(c: char) -> bool {
    '0' <= c && c <= '9'
}

/// The value of a digit.
pub open spec fn digit_value(c: char) -> nat {
    ((c as u32) - 48) as nat
}

/// The decimal digits of a number, without leading zeros.
pub open spec fn decimal_text(n: nat) -> Seq<char>
    decreases n,
{
    if n < 10 {
        seq![digit_char(n)]
    } else {
        decimal_text(n / 10).push(digit_char(n % 10))
    }
}

/// Writes a number in decimal digits.
pub fn decimal(n: u128) -> (r: String)
    ensures
        r@ == decimal_text(n as nat),
    decreases n,
{
    let mut r = if n < 10 {
        String::new()
    } else {
        decimal(n / 10)
    };
    let d: u8 = (n % 10) as u8;
    r.push((48 + d) as char);
    proof {
        if n < 10 {
            assert(r@ =~= seq![digit_char(n as nat)]);
        }
    }
    r
}

/// The decimal digits of a number, with a leading zero below ten.
pub open spec fn two_digit_text(n: nat) -> Seq<char> {
    if n < 10 {
        "0"@ + decimal_text(n)
    } else {
        decimal_text(n)
    }
}

/// Writes a number with at least two digits.
pub fn two_digits(n: usize) -> (r: String)
    ensures
        r@ == two_digit_text(n as nat),
{
    let digits = decimal(n as u128);
    if n < 10 {
        let mut r = "0".to_owned();
        r.append(digits.as_str());
        r
    } else {
        digits
    }
}

/// The value of a sequence of digits.
pub open spec fn decimal_value(t: Seq<char>) -> nat
    decreases t.len(),
{
    if t.len() == 0 {
        0
    } else {
        decimal_value(t.drop_last()) * 10 + digit_value(t.last())
    }
}

/// `t` is not empty and holds digits only.
pub open spec fn all_digits(t: Seq<char>) -> bool {
    t.len() > 0 && forall|i: int| 0 <= i < t.len() ==> is_digit(#[trigger] t[i])
}

/// The number that `t` writes: digits, which one plus sign may precede.
pub open spec fn number_in(t: Seq<char>) -> Option<nat> {
    let digits = if t.len() > 0 && t[0] == '+' {
        t.skip(1)
    } else {
        t
    };
    if all_digits(digits) {
        Some(decimal_value(digits))
    } else {
        None
    }
}

proof fn lemma_value_grows(t: Seq<char>, n: int)
    requires
        0 <= n <= t.len(),
    ensures
        decimal_value(t.take(n)) <= decimal_value(t),
    decreases t.len() - n,
{
    if n == t.len() {
        assert(t.take(n) =~= t);
    } else {
        lemma_value_grows(t, n + 1);
        assert(t.take(n + 1).drop_last() =~= t.take(n));
    }
}

/// Reads a number that a `u64` can hold.
pub fn parse_u64(text: &str) -> (r: Option<u64>)
    ensures
        r is Some <==> (number_in(text@) matches Some(n) && n <= u64::MAX),
        r is Some ==> r->0 == number_in(text@)->0,
{
    let chars = to_chars(text);
    let start: usize = if chars.len() > 0 && chars[0] == '+' {
        1
    } else {
        0
    };
    let ghost digits = text@.skip(start as int);
    proof {
        assert(text@.skip(0) =~= text@);
    }
    if chars.len() == start {
        return None;
    }
    let mut value: u64 = 0;
    let mut i: usize = start;
    while i < chars.len()
        invariant
            start <= i <= chars.len(),
            chars@ == text@,
            digits == text@.skip(start as int),
            digits.len() > 0,
            digits == (if text@.len() > 0 && text@[0] == '+' { text@.skip(1) } else { text@ }),
            forall|k: int| 0 <= k < i - start ==> is_digit(#[trigger] digits[k]),
            value == decimal_value(digits.take(i - start)),
        decreases chars.len() - i,
    {
        let c = chars[i];
        proof {
            assert(digits[i - start] == c);
            assert(digits.take(i - start + 1).drop_last() =~= digits.take(i - start));
            lemma_value_grows(digits, i - start + 1);
        }
        if !('0' <= c && c <= '9') {
            return None;
        }
        let d: u64 = ((c as u32) - 48) as u64;
        value =
        match value.checked_mul(10) {
            Some(tens) => match tens.checked_add(d) {
                Some(next) => next,
                None => return None,
            },
            None => return None,
        };
        i += 1;
    }
    proof {
        assert(digits.take(digits.len() as int) =~= digits);
    }
    Some(value)
}

/// Reads a number that a `usize` can hold.
pub fn parse_usize(text: &str) -> (r: Option<usize>)
    ensures
        r is Some <==> (number_in(text@) matches Some(n) && n <= usize::MAX),
        r is Some ==> r->0 == number_in(text@)->0,
{
    match parse_u64(text) {
        Some(n) => if n <= usize::MAX as u64 {
            Some(n as usize)
        } else {
            None
        },
        None => None,
    }
}

/// Digits in groups of three from the right, with underscores between the groups.
pub open spec fn grouped(t: Seq<char>) -> Seq<char>
    decreases t.len(),
{
    if t.len() <= 3 {
        t
    } else {
        grouped(t.take(t.len() - 3)) + "_"@ + t.skip(t.len() - 3)
    }
}

fn group_prefix(chars: &Vec<char>, hi: usize) -> (r: String)
    requires
        hi <= chars.len(),
    ensures
        r@ == grouped(chars@.take(hi as int)),
    decreases hi,
{
    let ghost t = chars@.take(hi as int);
    if hi <= 3 {
        proof {
            assert(chars@.subrange(0, hi as int) =~= t);
        }
        window(chars, 0, hi)
    } else {
        let mut r = group_prefix(chars, hi - 3);
        r.append("_");
        r.append(window(chars, hi - 3, hi).as_str());
        proof {
            assert(t.take(hi - 3) =~= chars@.take(hi - 3));
            assert(t.skip(hi - 3) =~= chars@.subrange(hi - 3, hi as int));
        }
        r
    }
}

/// Writes a number with its digits in groups of three.
pub fn format_count(value: u64) -> (r: String)
    ensures
        r@ == grouped(decimal_text(value as nat)),
{
    let digits = decimal(value as u128);
    let chars = to_chars(&digits);
    proof {
        assert(chars@.take(chars@.len() as int) =~= chars@);
    }
    group_prefix(&chars, chars.len())
}

/// Every number is written in digits, and reading them gives the number back.
pub proof fn law_decimal_round_trip(n: nat)
    ensures
        all_digits(decimal_text(n)),
        number_in(decimal_text(n)) == Some(n),
{
    lemma_decimal_digits(n);
    let t = decimal_text(n);
    assert(is_digit(t[0]));
    assert(t[0] != '+');
}

proof fn lemma_decimal_digits(n: nat)
    ensures
        all_digits(decimal_text(n)),
        decimal_value(decimal_text(n)) == n,
    decreases n,
{
    let t = decimal_text(n);
    if n < 10 {
        assert(decimal_value(t.drop_last()) == 0);
    } else {
        lemma_decimal_digits(n / 10);
        assert(t.drop_last() =~= decimal_text(n / 10));
        assert forall|i: int| 0 <= i < t.len() implies is_digit(#[trigger] t[i]) by {
            if i < t.len() - 1 {
                assert(t[i] == decimal_text(n / 10)[i]);
            }
        }
    }
}

/// Taking the underscores out of a grouped text of digits gives the digits back.
pub proof fn law_grouping_keeps_digits(t: Seq<char>)
    requires
        all_digits(t),
    ensures
        grouped(t).filter(|c: char| c != '_') == t,
    decreases t.len(),
{
    let keep = |c: char| c != '_';
    if t.len() <= 3 {
        lemma_filter_keeps_all(t);
    } else {
        let head = t.take(t.len() - 3);
        let tail = t.skip(t.len() - 3);
        assert(all_digits(head)) by {
            assert forall|i: int| 0 <= i < head.len() implies is_digit(#[trigger] head[i]) by {
                assert(head[i] == t[i]);
            }
        }
        assert(all_digits(tail)) by {
            assert forall|i: int| 0 <= i < tail.len() implies is_digit(#[trigger] tail[i]) by {
                assert(tail[i] == t[i + (t.len() - 3)]);
            }
        }
        law_grouping_keeps_digits(head);
        lemma_filter_keeps_all(tail);
        reveal_strlit("_");
        let bar = "_"@;
        assert(bar.filter(keep).len() == 0) by {
            reveal(Seq::filter);
            assert(bar.drop_last().len() == 0);
            assert(bar.drop_last().filter(keep).len() == 0);
            assert(!keep(bar.last()));
        }
        Seq::filter_distributes_over_add(grouped(head) + bar, tail, keep);
        Seq::filter_distributes_over_add(grouped(head), bar, keep);
        assert(grouped(t).filter(keep) =~= head + tail);
        assert(head + tail =~= t);
    }
}

proof fn lemma_filter_keeps_all(t: Seq<char>)
    requires
        forall|i: int| 0 <= i < t.len() ==> is_digit(#[trigger] t[i]),
    ensures
        t.filter(|c: char| c != '_') == t,
    decreases t.len(),
{
    reveal(Seq::filter);
    if t.len() > 0 {
        assert(is_digit(t[t.len() - 1]));
        lemma_filter_keeps_all(t.drop_last());
        assert(t.drop_last().push(t.last()) =~= t);
    }
}

/// A number is written digit by digit: a further digit at the end multiplies by ten and adds it.
pub proof fn law_digits_are_decimal(n: nat, d: nat)
    requires
        d < 10,
    ensures
        decimal_text(d).len() == 1,
        decimal_text(d)[0] as u32 == '0' as u32 + d,
        n > 0 ==> decimal_text(10 * n + d) == decimal_text(n) + decimal_text(d),
{
    if n > 0 {
        let m = 10 * n + d;
        assert(m / 10 == n && m % 10 == d);
        assert(decimal_text(m) =~= decimal_text(n) + decimal_text(d));
    }
}

/// What is read as a number is digits only, with a plus sign before them at most; zeros before
/// them and the sign change nothing.
pub proof fn law_numbers_are_digits(t: Seq<char>)
    ensures
        number_in(t) is Some <==> all_digits(t) || (t.len() > 0 && t[0] == '+' && all_digits(
            t.skip(1),
        )),
        all_digits(t) ==> number_in(seq!['+'] + t) == number_in(t) && number_in(seq!['0'] + t)
            == number_in(t),
{
    if t.len() > 0 && t[0] == '+' {
        assert(!is_digit(t[0]));
    }
    if all_digits(t) {
        assert(is_digit(t[0]));
        assert((seq!['+'] + t).skip(1) =~= t);
        lemma_leading_zero(t);
        let z = seq!['0'] + t;
        assert forall|i: int| 0 <= i < z.len() implies is_digit(#[trigger] z[i]) by {
            if i > 0 {
                assert(z[i] == t[i - 1]);
            }
        }
    }
}

proof fn lemma_leading_zero(t: Seq<char>)
    ensures
        decimal_value(seq!['0'] + t) == decimal_value(t),
    decreases t.len(),
{
    let z = seq!['0'] + t;
    if t.len() == 0 {
        assert(z.drop_last().len() == 0);
        assert(decimal_value(z.drop_last()) == 0);
    } else {
        lemma_leading_zero(t.drop_last());
        assert(z.drop_last() =~= seq!['0'] + t.drop_last());
    }
}

/// A number with at least two digits still reads as that number.
pub proof fn law_two_digits_read_back(n: nat)
    ensures
        two_digit_text(n).len() >= 2,
        number_in(two_digit_text(n)) == Some(n),
{
    law_decimal_round_trip(n);
    reveal_strlit("0");
    if n < 10 {
        law_numbers_are_digits(decimal_text(n));
        assert("0"@ =~= seq!['0']);
    } else {
        lemma_decimal_digits(n / 10);
    }
}

/// In a grouped text every fourth character from the right is an underscore, and no other is
/// unless it was one before.
pub proof fn law_groups_are_of_three(t: Seq<char>, i: int)
    requires
        all_digits(t),
        0 <= i < grouped(t).len(),
    ensures
        grouped(t)[grouped(t).len() - 1 - i] == '_' <==> i % 4 == 3,
        grouped(t)[0] != '_',
    decreases t.len(),
{
    reveal_strlit("_");
    let g = grouped(t);
    if t.len() <= 3 {
        assert(is_digit(t[t.len() - 1 - i]));
        assert(is_digit(t[0]));
    } else {
        let head = t.take(t.len() - 3);
        let tail = t.skip(t.len() - 3);
        let h = grouped(head);
        assert(all_digits(head)) by {
            assert forall|k: int| 0 <= k < head.len() implies is_digit(#[trigger] head[k]) by {
                assert(head[k] == t[k]);
            }
        }
        lemma_grouped_not_empty(head);
        if i < 3 {
            assert(g[g.len() - 1 - i] == tail[2 - i]);
            assert(is_digit(t[t.len() - 1 - i]));
        } else if i > 3 {
            law_groups_are_of_three(head, i - 4);
            assert(g[g.len() - 1 - i] == h[h.len() - 1 - (i - 4)]);
        }
        law_groups_are_of_three(head, 0);
        assert(g[0] == h[0]);
    }
}

proof fn lemma_grouped_not_empty(t: Seq<char>)
    requires
        t.len() > 0,
    ensures
        grouped(t).len() > 0,
    decreases t.len(),
{
    if t.len() > 3 {
        lemma_grouped_not_empty(t.take(t.len() - 3));
    }
}

} // verus!
