//! Lists of strings kept in ascending order without repeats.
//!
//! Strings are ordered as `str`'s `Ord` orders them: by their UTF-8 bytes,
//! which is the order of their characters' code points, compared in turn.
use vstd::prelude::*;
use crate::text::{chars_of, views};

verus! {

/// `a` comes strictly before `b`: at the first position where they differ `a`
/// has the smaller character, or `a` is a proper prefix of `b`.
pub open spec fn lex_lt(a: Seq<char>, b: Seq<char>) -> bool
    decreases a.len(),
{
    if a.len() == 0 {
        b.len() > 0
    } else if b.len() == 0 {
        false
    } else if a[0] != b[0] {
        a[0] < b[0]
    } else {
        lex_lt(a.drop_first(), b.drop_first())
    }
}

/// No string comes before itself.
pub proof fn lemma_lex_irreflexive(a: Seq<char>)
    ensures
        !lex_lt(a, a),
    decreases a.len(),
{
    if a.len() > 0 {
        lemma_lex_irreflexive(a.drop_first());
    }
}

/// The order is transitive.
pub proof fn lemma_lex_transitive(a: Seq<char>, b: Seq<char>, c: Seq<char>)
    requires
        lex_lt(a, b),
        lex_lt(b, c),
    ensures
        lex_lt(a, c),
    decreases a.len(),
{
    if a.len() > 0 && b.len() > 0 && c.len() > 0 {
        if a[0] == b[0] && b[0] == c[0] {
            lemma_lex_transitive(a.drop_first(), b.drop_first(), c.drop_first());
        }
    }
}

/// Of two different strings one comes before the other, and not both ways.
pub proof fn lemma_lex_total(a: Seq<char>, b: Seq<char>)
    ensures
        a != b ==> (lex_lt(a, b) || lex_lt(b, a)),
        !(lex_lt(a, b) && lex_lt(b, a)),
    decreases a.len(),
{
    if a.len() > 0 && b.len() > 0 {
        lemma_lex_total(a.drop_first(), b.drop_first());
        if a[0] == b[0] && a.drop_first() == b.drop_first() {
            assert(a =~= seq![a[0]] + a.drop_first());
            assert(b =~= seq![b[0]] + b.drop_first());
        }
    } else if a.len() == 0 && b.len() == 0 {
        assert(a =~= b);
    }
}

/// Each string comes strictly before the ones after it.
pub open spec fn strictly_sorted(s: Seq<Seq<char>>) -> bool {
    forall|i: int, j: int| 0 <= i < j < s.len() ==> lex_lt(#[trigger] s[i], #[trigger] s[j])
}

/// Whether `a` comes strictly before `b`.
pub fn str_less(a: &str, b: &str) -> (r: bool)
    ensures
        r == lex_lt(a@, b@),
{
    let x = chars_of(a);
    let y = chars_of(b);
    let mut i: usize = 0;
    assert(x@.skip(0) =~= x@);
    assert(y@.skip(0) =~= y@);
    while i < x.len() && i < y.len() && x[i] == y[i]
        invariant
            i <= x@.len(),
            i <= y@.len(),
            lex_lt(x@, y@) == lex_lt(x@.skip(i as int), y@.skip(i as int)),
        decreases x@.len() - i,
    {
        assert(x@.skip(i as int).drop_first() =~= x@.skip(i + 1));
        assert(y@.skip(i as int).drop_first() =~= y@.skip(i + 1));
        i = i + 1;
    }
    if i < x.len() {
        assert(x@.skip(i as int)[0] == x@[i as int]);
    }
    if i < y.len() {
        assert(y@.skip(i as int)[0] == y@[i as int]);
    }
    if i == x.len() {
        i < y.len()
    } else if i == y.len() {
        false
    } else {
        x[i] < y[i]
    }
}

/// Adds `x` to an ascending list without repeats, where it belongs; nothing
/// changes when it is there already.
pub fn insert_sorted(out: &mut Vec<String>, x: String)
    requires
        strictly_sorted(views(old(out)@)),
    ensures
        strictly_sorted(views(final(out)@)),
        forall|y: Seq<char>| #[trigger]
            views(final(out)@).contains(y) <==> (views(old(out)@).contains(y) || y == x@),
{
    let ghost s = views(out@);
    let mut k: usize = 0;
    while k < out.len() && str_less(out[k].as_str(), x.as_str())
        invariant
            k <= out@.len(),
            s == views(out@),
            strictly_sorted(s),
            forall|i: int| 0 <= i < k ==> lex_lt(#[trigger] s[i], x@),
        decreases out@.len() - k,
    {
        k = k + 1;
    }
    if k < out.len() && crate::text::str_eq(out[k].as_str(), x.as_str()) {
        assert(s[k as int] == x@);
        return;
    }
    let ghost xs = x@;
    proof {
        if k < s.len() {
            lemma_lex_total(s[k as int], xs);
            assert(lex_lt(xs, s[k as int]));
            assert forall|j: int| k <= j < s.len() implies lex_lt(xs, #[trigger] s[j]) by {
                if j > k {
                    lemma_lex_transitive(xs, s[k as int], s[j]);
                }
            }
        }
    }
    out.insert(k, x);
    let ghost t = views(out@);
    assert(t =~= s.insert(k as int, xs));
    assert forall|i: int, j: int| 0 <= i < j < t.len() implies lex_lt(#[trigger] t[i], #[trigger] t[j]) by {
        if j < k {
        } else if j == k {
        } else if i < k {
            lemma_lex_transitive(t[i], xs, t[j]);
        } else if i == k {
        } else {
        }
    }
    assert forall|y: Seq<char>| #[trigger] t.contains(y) <==> (s.contains(y) || y == xs) by {
        if t.contains(y) {
            let m = choose|m: int| 0 <= m < t.len() && t[m] == y;
            if m < k {
                assert(s[m] == y);
            } else if m > k {
                assert(s[m - 1] == y);
            }
        }
        if s.contains(y) {
            let m = choose|m: int| 0 <= m < s.len() && s[m] == y;
            if m < k {
                assert(t[m] == y);
            } else {
                assert(t[m + 1] == y);
            }
        }
        if y == xs {
            assert(t[k as int] == y);
        }
    }
}

/// The strings of `v` in ascending order without repeats (what `sort` then
/// `dedup` leave).
pub fn sorted_unique(v: &Vec<String>) -> (r: Vec<String>)
    ensures
        strictly_sorted(views(r@)),
        forall|y: Seq<char>| #[trigger] views(r@).contains(y) <==> views(v@).contains(y),
{
    let mut out: Vec<String> = Vec::new();
    for i in 0..v.len()
        invariant
            strictly_sorted(views(out@)),
            forall|y: Seq<char>| #[trigger]
                views(out@).contains(y) <==> views(v@).take(i as int).contains(y),
    {
        let ghost before = views(v@).take(i as int);
        insert_sorted(&mut out, v[i].clone());
        assert(views(v@).take(i + 1) =~= before.push(v@[i as int]@));
        assert forall|y: Seq<char>| #[trigger] views(v@).take(i + 1).contains(y) <==> (
        before.contains(y) || y == v@[i as int]@) by {
            let after = views(v@).take(i + 1);
            if after.contains(y) {
                let m = choose|m: int| 0 <= m < after.len() && after[m] == y;
                if m < i {
                    assert(before[m] == y);
                }
            }
            if before.contains(y) {
                let m = choose|m: int| 0 <= m < before.len() && before[m] == y;
                assert(after[m] == y);
            }
            if y == v@[i as int]@ {
                assert(after[i as int] == y);
            }
        }
    }
    assert(views(v@).take(v@.len() as int) =~= views(v@));
    out
}

/// An ascending list without repeats is fixed by the strings it holds: two
/// such lists with the same strings are the same list.
pub proof fn law_sorted_list_fixed_by_contents(a: Seq<Seq<char>>, b: Seq<Seq<char>>)
    requires
        strictly_sorted(a),
        strictly_sorted(b),
        forall|y: Seq<char>| #![trigger a.contains(y)] #![trigger b.contains(y)] a.contains(y) <==> b.contains(y),
    ensures
        a == b,
    decreases a.len() + b.len(),
{
    if a.len() == 0 || b.len() == 0 {
        if a.len() > 0 {
            assert(a.contains(a[0]));
        }
        if b.len() > 0 {
            assert(b.contains(b[0]));
        }
        assert(a =~= b);
    } else {
        assert(a.contains(a[0]));
        assert(b.contains(b[0]));
        let ia = choose|m: int| 0 <= m < b.len() && b[m] == a[0];
        let ib = choose|m: int| 0 <= m < a.len() && a[m] == b[0];
        if a[0] != b[0] {
            // a[0] sits later in b and b[0] later in a: each comes before the other.
            assert(ia > 0 && ib > 0);
            assert(lex_lt(b[0], b[ia]));
            assert(lex_lt(a[0], a[ib]));
            lemma_lex_total(a[0], b[0]);
        }
        let a2 = a.drop_first();
        let b2 = b.drop_first();
        assert forall|i: int, j: int| 0 <= i < j < a2.len() implies lex_lt(#[trigger] a2[i], #[trigger] a2[j]) by {
            assert(a2[i] == a[i + 1] && a2[j] == a[j + 1]);
        }
        assert forall|i: int, j: int| 0 <= i < j < b2.len() implies lex_lt(#[trigger] b2[i], #[trigger] b2[j]) by {
            assert(b2[i] == b[i + 1] && b2[j] == b[j + 1]);
        }
        assert forall|y: Seq<char>| #![trigger a2.contains(y)] #![trigger b2.contains(y)] a2.contains(y) <==> b2.contains(y) by {
            if a2.contains(y) {
                let m = choose|m: int| 0 <= m < a2.len() && a2[m] == y;
                assert(a[m + 1] == y);
                assert(lex_lt(a[0], y));
                lemma_lex_irreflexive(y);
                assert(a.contains(y));
                assert(b.contains(y));
                let n = choose|n: int| 0 <= n < b.len() && b[n] == y;
                assert(n != 0);
                assert(b2[n - 1] == y);
            }
            if b2.contains(y) {
                let m = choose|m: int| 0 <= m < b2.len() && b2[m] == y;
                assert(b[m + 1] == y);
                assert(lex_lt(b[0], y));
                lemma_lex_irreflexive(y);
                assert(b.contains(y));
                assert(a.contains(y));
                let n = choose|n: int| 0 <= n < a.len() && a[n] == y;
                assert(n != 0);
                assert(a2[n - 1] == y);
            }
        }
        law_sorted_list_fixed_by_contents(a2, b2);
        assert(a =~= seq![a[0]] + a2);
        assert(b =~= seq![b[0]] + b2);
    }
}

} // verus!
