//! Orders on texts, a stable sort, reversal, and the choice of the newest of several things.

use vstd::prelude::*;

use crate::text::{to_chars, views};

verus! {

/// How two things compare.
#[derive(Debug, Clone, Copy, PartialEq, Eq, Structural)]
pub enum Rank {
    Before,
    Same,
    After,
}

/// `a` comes strictly before `b` in the order of a dictionary over character codes.
pub open spec fn text_less(a: Seq<char>, b: Seq<char>) -> bool
    decreases a.len(),
{
    if b.len() == 0 {
        false
    } else if a.len() == 0 {
        true
    } else {
        a[0] < b[0] || (a[0] == b[0] && text_less(a.drop_first(), b.drop_first()))
    }
}

/// `a` comes strictly before `b`, compared part by part.
pub open spec fn path_less(a: Seq<Seq<char>>, b: Seq<Seq<char>>) -> bool
    decreases a.len(),
{
    if b.len() == 0 {
        false
    } else if a.len() == 0 {
        true
    } else {
        text_less(a[0], b[0]) || (a[0] == b[0] && path_less(a.drop_first(), b.drop_first()))
    }
}

/// Compares two texts.
pub fn compare_text(a: &str, b: &str) -> (r: Rank)
    ensures
        r is Before <==> text_less(a@, b@),
        r is Same <==> a@ == b@,
        r is After <==> text_less(b@, a@),
{
    let x = to_chars(a);
    let y = to_chars(b);
    let mut i: usize = 0;
    proof {
        assert(a@.skip(0) =~= a@);
        assert(b@.skip(0) =~= b@);
    }
    while i < x.len() && i < y.len()
        invariant
            x@ == a@,
            y@ == b@,
            i <= x.len(),
            i <= y.len(),
            a@.take(i as int) == b@.take(i as int),
            text_less(a@, b@) == text_less(a@.skip(i as int), b@.skip(i as int)),
            text_less(b@, a@) == text_less(b@.skip(i as int), a@.skip(i as int)),
        decreases x.len() - i,
    {
        let ghost p = a@.skip(i as int);
        let ghost q = b@.skip(i as int);
        if x[i] < y[i] {
            assert(p[0] < q[0]);
            return Rank::Before;
        }
        if y[i] < x[i] {
            assert(q[0] < p[0]);
            return Rank::After;
        }
        proof {
            assert(p[0] == q[0]);
            assert(p.drop_first() =~= a@.skip(i + 1));
            assert(q.drop_first() =~= b@.skip(i + 1));
            assert(a@.take(i + 1) =~= a@.take(i as int).push(a@[i as int]));
            assert(b@.take(i + 1) =~= b@.take(i as int).push(b@[i as int]));
        }
        i += 1;
    }
    proof {
        if x@.len() == y@.len() {
            assert(a@.take(i as int) =~= a@);
            assert(b@.take(i as int) =~= b@);
        }
    }
    if x.len() < y.len() {
        Rank::Before
    } else if y.len() < x.len() {
        Rank::After
    } else {
        Rank::Same
    }
}

/// Compares two paths part by part.
pub fn compare_path(a: &Vec<String>, b: &Vec<String>) -> (r: Rank)
    ensures
        r is Before <==> path_less(views(a@), views(b@)),
        r is Same <==> views(a@) == views(b@),
        r is After <==> path_less(views(b@), views(a@)),
{
    let ghost x = views(a@);
    let ghost y = views(b@);
    let mut i: usize = 0;
    proof {
        assert(x.skip(0) =~= x);
        assert(y.skip(0) =~= y);
    }
    while i < a.len() && i < b.len()
        invariant
            x == views(a@),
            y == views(b@),
            i <= a.len(),
            i <= b.len(),
            x.take(i as int) == y.take(i as int),
            path_less(x, y) == path_less(x.skip(i as int), y.skip(i as int)),
            path_less(y, x) == path_less(y.skip(i as int), x.skip(i as int)),
        decreases a.len() - i,
    {
        let ghost p = x.skip(i as int);
        let ghost q = y.skip(i as int);
        proof {
            assert(p[0] == a@[i as int]@);
            assert(q[0] == b@[i as int]@);
            law_text_order(p[0], q[0], p[0]);
        }
        match compare_text(&a[i], &b[i]) {
            Rank::Before => {
                assert(x != y) by {
                    assert(x[i as int] != y[i as int]);
                }
                return Rank::Before;
            },
            Rank::After => {
                assert(x != y) by {
                    assert(x[i as int] != y[i as int]);
                }
                return Rank::After;
            },
            Rank::Same => {},
        }
        proof {
            assert(p.drop_first() =~= x.skip(i + 1));
            assert(q.drop_first() =~= y.skip(i + 1));
            assert(x.take(i + 1) =~= x.take(i as int).push(x[i as int]));
            assert(y.take(i + 1) =~= y.take(i as int).push(y[i as int]));
        }
        i += 1;
    }
    proof {
        if a@.len() == b@.len() {
            assert(x.take(i as int) =~= x);
            assert(y.take(i as int) =~= y);
        }
    }
    if a.len() < b.len() {
        Rank::Before
    } else if b.len() < a.len() {
        Rank::After
    } else {
        Rank::Same
    }
}

/// The order of texts is total: of two texts one comes first or they are the same, and what
/// comes before a text comes before all that follows it.
pub proof fn law_text_order(a: Seq<char>, b: Seq<char>, c: Seq<char>)
    ensures
        !text_less(a, a),
        !(text_less(a, b) && text_less(b, a)),
        text_less(a, b) || a == b || text_less(b, a),
        text_less(a, b) && text_less(b, c) ==> text_less(a, c),
    decreases a.len(),
{
    if a.len() > 0 {
        law_text_order(
            a.drop_first(),
            if b.len() > 0 { b.drop_first() } else { b },
            if c.len() > 0 { c.drop_first() } else { c },
        );
        if b.len() > 0 && a[0] == b[0] && a.drop_first() == b.drop_first() {
            assert(a =~= seq![a[0]] + a.drop_first());
            assert(b =~= seq![b[0]] + b.drop_first());
        }
    } else if b.len() == 0 {
        assert(a =~= b);
    }
}

/// The order of paths is total, as that of texts is.
pub proof fn law_path_order(a: Seq<Seq<char>>, b: Seq<Seq<char>>, c: Seq<Seq<char>>)
    ensures
        !path_less(a, a),
        !(path_less(a, b) && path_less(b, a)),
        path_less(a, b) || a == b || path_less(b, a),
        path_less(a, b) && path_less(b, c) ==> path_less(a, c),
    decreases a.len(),
{
    if a.len() > 0 {
        law_path_order(
            a.drop_first(),
            if b.len() > 0 { b.drop_first() } else { b },
            if c.len() > 0 { c.drop_first() } else { c },
        );
        law_text_order(a[0], a[0], a[0]);
        if b.len() > 0 {
            law_text_order(a[0], b[0], a[0]);
            if c.len() > 0 {
                law_text_order(a[0], b[0], c[0]);
            }
            if a[0] == b[0] && a.drop_first() == b.drop_first() {
                assert(a =~= seq![a[0]] + a.drop_first());
                assert(b =~= seq![b[0]] + b.drop_first());
            }
        }
    } else if b.len() == 0 {
        assert(a =~= b);
    }
}

/// Things that a sort can put in order.
pub trait Ranked: Sized {
    /// `self` belongs strictly before `other`.
    spec fn precedes(self, other: Self) -> bool;

    /// Tells whether `self` belongs strictly before `other`.
    fn goes_before(&self, other: &Self) -> (r: bool)
        ensures
            r == self.precedes(*other),
    ;

    /// Of two things at most one precedes the other, and "not before" is transitive.
    proof fn order_laws(a: Self, b: Self, c: Self)
        ensures
            !(a.precedes(b) && b.precedes(a)),
            !b.precedes(a) && !c.precedes(b) ==> !c.precedes(a),
    ;
}

/// `s` with `x` put before the first element that does not precede it.
pub open spec fn put_in_order<T: Ranked>(s: Seq<T>, x: T) -> Seq<T>
    decreases s.len(),
{
    if s.len() == 0 || !s[0].precedes(x) {
        seq![x] + s
    } else {
        seq![s[0]] + put_in_order(s.drop_first(), x)
    }
}

/// `s` in order; elements of the same rank keep their order.
pub open spec fn in_order<T: Ranked>(s: Seq<T>) -> Seq<T>
    decreases s.len(),
{
    if s.len() == 0 {
        s
    } else {
        put_in_order(in_order(s.drop_first()), s[0])
    }
}

proof fn lemma_put_in_order_at<T: Ranked>(s: Seq<T>, x: T, i: int)
    requires
        0 <= i <= s.len(),
        forall|k: int| 0 <= k < i ==> (#[trigger] s[k]).precedes(x),
        i < s.len() ==> !s[i].precedes(x),
    ensures
        put_in_order(s, x) == s.insert(i, x),
    decreases s.len(),
{
    if i == 0 {
        assert(put_in_order(s, x) =~= s.insert(0, x));
    } else {
        let rest = s.drop_first();
        assert forall|k: int| 0 <= k < i - 1 implies (#[trigger] rest[k]).precedes(x) by {
            assert(rest[k] == s[k + 1]);
        }
        assert(s[0].precedes(x));
        lemma_put_in_order_at(rest, x, i - 1);
        assert(seq![s[0]] + rest.insert(i - 1, x) =~= s.insert(i, x));
    }
}

/// Sorts in a stable way.
pub fn sort_stable<T: Ranked>(items: Vec<T>) -> (r: Vec<T>)
    ensures
        r@ == in_order(items@),
{
    let mut rest = items;
    let ghost all = rest@;
    let mut out: Vec<T> = Vec::new();
    proof {
        assert(out@ =~= in_order(all.skip(all.len() as int)));
    }
    while rest.len() > 0
        invariant
            rest@.len() <= all.len(),
            rest@ == all.take(rest@.len() as int),
            out@ == in_order(all.skip(rest@.len() as int)),
        decreases rest@.len(),
    {
        let ghost n = rest@.len() as int;
        match rest.pop() {
            Some(x) => {
                let mut i: usize = 0;
                while i < out.len() && out[i].goes_before(&x)
                    invariant
                        i <= out.len(),
                        forall|k: int| 0 <= k < i ==> (#[trigger] out@[k]).precedes(x),
                    decreases out.len() - i,
                {
                    i += 1;
                }
                proof {
                    lemma_put_in_order_at(out@, x, i as int);
                    let tail = all.skip(n - 1);
                    assert(tail[0] == x);
                    assert(tail.drop_first() =~= all.skip(n));
                    assert(all.take(n).drop_last() =~= all.take(n - 1));
                }
                out.insert(i, x);
            },
            None => {},
        }
    }
    proof {
        assert(all.skip(0) =~= all);
    }
    out
}

/// A sort loses nothing and adds nothing.
pub proof fn law_sort_permutes<T: Ranked>(s: Seq<T>)
    ensures
        in_order(s).to_multiset() == s.to_multiset(),
        in_order(s).len() == s.len(),
    decreases s.len(),
{
    broadcast use vstd::seq_lib::group_to_multiset_ensures;

    if s.len() > 0 {
        law_sort_permutes(s.drop_first());
        lemma_put_permutes(in_order(s.drop_first()), s[0]);
        assert(s =~= seq![s[0]] + s.drop_first());
        vstd::seq_lib::lemma_multiset_commutative(seq![s[0]], s.drop_first());
        vstd::seq_lib::lemma_multiset_commutative(seq![s[0]], in_order(s.drop_first()));
    }
}

proof fn lemma_put_permutes<T: Ranked>(s: Seq<T>, x: T)
    ensures
        put_in_order(s, x).to_multiset() == (seq![x] + s).to_multiset(),
        put_in_order(s, x).len() == s.len() + 1,
    decreases s.len(),
{
    if s.len() > 0 && s[0].precedes(x) {
        let rest = s.drop_first();
        lemma_put_permutes(rest, x);
        vstd::seq_lib::lemma_multiset_commutative(seq![s[0]], put_in_order(rest, x));
        vstd::seq_lib::lemma_multiset_commutative(seq![x], rest);
        vstd::seq_lib::lemma_multiset_commutative(seq![s[0]], rest);
        vstd::seq_lib::lemma_multiset_commutative(seq![x], s);
        assert(s =~= seq![s[0]] + rest);
        assert(put_in_order(s, x).to_multiset() =~= (seq![x] + s).to_multiset());
    }
}

/// Neither of two things precedes the other.
pub open spec fn of_rank<T: Ranked>(x: T) -> spec_fn(T) -> bool {
    |y: T| !y.precedes(x) && !x.precedes(y)
}

/// A sort is stable: things of the same rank keep the order in which they stood.
pub proof fn law_sort_is_stable<T: Ranked>(s: Seq<T>, x: T)
    ensures
        in_order(s).filter(of_rank(x)) == s.filter(of_rank(x)),
    decreases s.len(),
{
    if s.len() > 0 {
        let rest = s.drop_first();
        law_sort_is_stable(rest, x);
        lemma_put_keeps_rank(in_order(rest), s[0], x);
        assert(s =~= seq![s[0]] + rest);
        Seq::filter_distributes_over_add(seq![s[0]], rest, of_rank(x));
    }
}

proof fn lemma_filter_one<T>(x: T, keep: spec_fn(T) -> bool)
    ensures
        seq![x].filter(keep) == if keep(x) {
            seq![x]
        } else {
            Seq::empty()
        },
{
    reveal_with_fuel(Seq::filter, 2);
    assert(seq![x].drop_last() =~= Seq::<T>::empty());
}

proof fn lemma_put_keeps_rank<T: Ranked>(s: Seq<T>, y: T, x: T)
    ensures
        put_in_order(s, y).filter(of_rank(x)) == seq![y].filter(of_rank(x)) + s.filter(of_rank(x)),
    decreases s.len(),
{
    let same = of_rank(x);
    if s.len() == 0 || !s[0].precedes(y) {
        Seq::filter_distributes_over_add(seq![y], s, same);
    } else {
        let rest = s.drop_first();
        lemma_put_keeps_rank(rest, y, x);
        Seq::filter_distributes_over_add(seq![s[0]], put_in_order(rest, y), same);
        Seq::filter_distributes_over_add(seq![s[0]], rest, same);
        assert(s =~= seq![s[0]] + rest);
        T::order_laws(y, x, s[0]);
        lemma_filter_one(s[0], same);
        lemma_filter_one(y, same);
        assert(put_in_order(s, y).filter(same) =~= seq![y].filter(same) + s.filter(same));
    }
}

/// `s` is in order: nothing in it precedes what stands before it.
pub open spec fn is_ordered<T: Ranked>(s: Seq<T>) -> bool {
    forall|i: int, j: int| 0 <= i < j < s.len() ==> !(#[trigger] s[j]).precedes(#[trigger] s[i])
}

/// A sort puts things in order.
pub proof fn law_sort_orders<T: Ranked>(s: Seq<T>)
    ensures
        is_ordered(in_order(s)),
    decreases s.len(),
{
    if s.len() > 0 {
        law_sort_orders(s.drop_first());
        lemma_put_orders(in_order(s.drop_first()), s[0]);
    }
}

proof fn lemma_put_orders<T: Ranked>(s: Seq<T>, x: T)
    requires
        is_ordered(s),
    ensures
        is_ordered(put_in_order(s, x)),
        forall|k: int|
            0 <= k < put_in_order(s, x).len() ==> (#[trigger] put_in_order(s, x)[k] == x
                || s.contains(put_in_order(s, x)[k])),
    decreases s.len(),
{
    let out = put_in_order(s, x);
    if s.len() == 0 || !s[0].precedes(x) {
        assert forall|i: int, j: int| 0 <= i < j < out.len() implies !(
        #[trigger] out[j]).precedes(#[trigger] out[i]) by {
            assert(out[j] == s[j - 1]);
            if i == 0 {
                if j > 1 {
                    assert(!s[j - 1].precedes(s[0]));
                }
                T::order_laws(s[0], s[0], s[0]);
                T::order_laws(x, s[0], s[j - 1]);
            } else {
                assert(out[i] == s[i - 1]);
            }
        }
        assert forall|k: int| 0 <= k < out.len() implies (#[trigger] out[k] == x || s.contains(
            out[k],
        )) by {
            if k > 0 {
                assert(out[k] == s[k - 1]);
            }
        }
    } else {
        let rest = s.drop_first();
        assert forall|i: int, j: int| 0 <= i < j < rest.len() implies !(
        #[trigger] rest[j]).precedes(#[trigger] rest[i]) by {
            assert(rest[j] == s[j + 1] && rest[i] == s[i + 1]);
        }
        lemma_put_orders(rest, x);
        let tail = put_in_order(rest, x);
        assert forall|k: int| 0 <= k < tail.len() implies !(#[trigger] tail[k]).precedes(s[0])
            && (tail[k] == x || s.contains(tail[k])) by {
            if tail[k] == x {
                T::order_laws(s[0], x, x);
            } else {
                let m = choose|m: int| 0 <= m < rest.len() && rest[m] == tail[k];
                assert(rest[m] == s[m + 1]);
                assert(!s[m + 1].precedes(s[0]));
            }
        }
        assert forall|i: int, j: int| 0 <= i < j < out.len() implies !(
        #[trigger] out[j]).precedes(#[trigger] out[i]) by {
            assert(out[j] == tail[j - 1]);
            if i > 0 {
                assert(out[i] == tail[i - 1]);
            }
        }
        assert forall|k: int| 0 <= k < out.len() implies (#[trigger] out[k] == x || s.contains(
            out[k],
        )) by {
            if k > 0 {
                assert(out[k] == tail[k - 1]);
            } else {
                assert(out[0] == s[0]);
            }
        }
    }
}

/// The index of the newest of the candidates that count, and of those the first; `None` where
/// none counts.
pub open spec fn newest_of(counts: Seq<bool>, times: Seq<i128>) -> Option<nat>
    decreases times.len(),
{
    if times.len() == 0 {
        None
    } else {
        let i = (times.len() - 1) as nat;
        match newest_of(counts.drop_last(), times.drop_last()) {
            Some(best) => if counts[i as int] && times[i as int] > times[best as int] {
                Some(i)
            } else {
                Some(best)
            },
            None => if counts[i as int] {
                Some(i)
            } else {
                None
            },
        }
    }
}

/// Picks the newest of the candidates that count.
pub fn newest(counts: &Vec<bool>, times: &Vec<i128>) -> (r: Option<usize>)
    requires
        counts.len() == times.len(),
    ensures
        r is Some <==> newest_of(counts@, times@) is Some,
        r is Some ==> r->0 == newest_of(counts@, times@)->0 && r->0 < times.len(),
{
    let mut best: Option<usize> = None;
    for i in 0..times.len()
        invariant
            counts.len() == times.len(),
            best is Some ==> best->0 < i,
            best is Some <==> newest_of(counts@.take(i as int), times@.take(i as int)) is Some,
            best is Some ==> best->0 == newest_of(
                counts@.take(i as int),
                times@.take(i as int),
            )->0,
    {
        proof {
            assert(counts@.take(i + 1).drop_last() =~= counts@.take(i as int));
            assert(times@.take(i + 1).drop_last() =~= times@.take(i as int));
        }
        if counts[i] {
            best =
            match best {
                Some(b) => if times[i] > times[b] {
                    Some(i)
                } else {
                    Some(b)
                },
                None => Some(i),
            };
        }
    }
    proof {
        assert(counts@.take(times@.len() as int) =~= counts@);
        assert(times@.take(times@.len() as int) =~= times@);
    }
    best
}

/// The newest candidate counts, none that counts is newer, and none before it is as new. There
/// is one exactly where some candidate counts.
pub proof fn law_newest_is_first_latest(counts: Seq<bool>, times: Seq<i128>)
    requires
        counts.len() == times.len(),
    ensures
        newest_of(counts, times) is Some <==> counts.contains(true),
        newest_of(counts, times) matches Some(b) ==> {
            &&& b < times.len()
            &&& counts[b as int]
            &&& forall|k: int| 0 <= k < times.len() && counts[k] ==> times[k] <= times[b as int]
            &&& forall|k: int| 0 <= k < b && counts[k] ==> times[k] < times[b as int]
        },
    decreases times.len(),
{
    if times.len() > 0 {
        let c = counts.drop_last();
        let t = times.drop_last();
        law_newest_is_first_latest(c, t);
        let i = times.len() - 1;
        if counts.contains(true) && !counts[i] {
            let k = choose|k: int| 0 <= k < counts.len() && counts[k] == true;
            assert(c[k] == true);
        }
        if c.contains(true) {
            let k = choose|k: int| 0 <= k < c.len() && c[k] == true;
            assert(counts[k] == true);
        }
        if counts[i] {
            assert(counts.contains(true));
        }
        assert forall|k: int| 0 <= k < i implies #[trigger] times[k] == t[k] && counts[k]
            == c[k] by {}
    }
}

/// The items in reverse order, so that the first can be taken from the end.
pub fn reverse<T>(items: Vec<T>) -> (r: Vec<T>)
    ensures
        r@ == items@.reverse(),
{
    let mut rest = items;
    let ghost all = rest@;
    let mut r: Vec<T> = Vec::new();
    while rest.len() > 0
        invariant
            rest@.len() + r@.len() == all.len(),
            rest@ == all.take(rest@.len() as int),
            r@ == all.skip(rest@.len() as int).reverse(),
        decreases rest@.len(),
    {
        let ghost n = rest@.len() as int;
        if let Some(item) = rest.pop() {
            r.push(item);
            proof {
                assert(all.take(n).drop_last() =~= all.take(n - 1));
                assert(all.skip(n - 1) =~= seq![all[n - 1]] + all.skip(n));
                assert(all.skip(n - 1).reverse() =~= all.skip(n).reverse().push(all[n - 1]));
            }
        }
    }
    proof {
        assert(all.skip(0) =~= all);
    }
    r
}

/// The first difference decides the order of two texts, and a text comes before its own
/// continuation.
pub proof fn law_first_difference_decides(a: Seq<char>, b: Seq<char>, i: int)
    requires
        0 <= i <= a.len(),
        i < b.len(),
        a.take(i) == b.take(i),
        i == a.len() || a[i] < b[i],
    ensures
        text_less(a, b),
        !text_less(b, a),
    decreases i,
{
    law_text_order(a, b, a);
    if i > 0 {
        assert(a.take(i)[0] == a[0] && b.take(i)[0] == b[0]);
        let (x, y) = (a.drop_first(), b.drop_first());
        assert(x.take(i - 1) =~= y.take(i - 1)) by {
            assert forall|k: int| 0 <= k < i - 1 implies x[k] == y[k] by {
                assert(a.take(i)[k + 1] == a[k + 1] && b.take(i)[k + 1] == b[k + 1]);
            }
        }
        law_first_difference_decides(x, y, i - 1);
    }
}

/// The first part that differs decides the order of two paths, and a path comes before those
/// below it.
pub proof fn law_first_part_decides(a: Seq<Seq<char>>, b: Seq<Seq<char>>, i: int)
    requires
        0 <= i <= a.len(),
        i < b.len(),
        a.take(i) == b.take(i),
        i == a.len() || text_less(a[i], b[i]),
    ensures
        path_less(a, b),
        !path_less(b, a),
    decreases i,
{
    law_path_order(a, b, a);
    if i > 0 {
        assert(a.take(i)[0] == a[0] && b.take(i)[0] == b[0]);
        let (x, y) = (a.drop_first(), b.drop_first());
        assert(x.take(i - 1) =~= y.take(i - 1)) by {
            assert forall|k: int| 0 <= k < i - 1 implies x[k] == y[k] by {
                assert(a.take(i)[k + 1] == a[k + 1] && b.take(i)[k + 1] == b[k + 1]);
            }
        }
        law_first_part_decides(x, y, i - 1);
    }
}

} // verus!
