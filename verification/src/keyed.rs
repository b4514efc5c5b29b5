//! Lists of entries keyed by text, each key at most once: the map they stand
//! for and how to look a key up.
use vstd::prelude::*;
use crate::text::str_eq;

verus! {

/// No key occurs twice.
pub open spec fn unique_keys<V>(s: Seq<(String, V)>) -> bool {
    forall|i: int, j: int| 0 <= i < j < s.len() ==> #[trigger] s[i].0@ != #[trigger] s[j].0@
}

/// The key has an entry.
pub open spec fn has_key<V>(s: Seq<(String, V)>, k: Seq<char>) -> bool {
    exists|i: int| 0 <= i < s.len() && #[trigger] s[i].0@ == k
}

/// Where the key's entry is (meaningful when it has one).
pub open spec fn key_index<V>(s: Seq<(String, V)>, k: Seq<char>) -> int {
    choose|i: int| 0 <= i < s.len() && #[trigger] s[i].0@ == k
}

/// The key's value (meaningful when it has one).
pub open spec fn value_of<V>(s: Seq<(String, V)>, k: Seq<char>) -> V {
    s[key_index(s, k)].1
}

/// With unique keys, the entry at `i` is the one its key finds.
pub proof fn lemma_key_index<V>(s: Seq<(String, V)>, i: int)
    requires
        unique_keys(s),
        0 <= i < s.len(),
    ensures
        has_key(s, s[i].0@),
        key_index(s, s[i].0@) == i,
        value_of(s, s[i].0@) == s[i].1,
{
    let k = s[i].0@;
    assert(s[i].0@ == k);
    let j = key_index(s, k);
    if j != i {
        if j < i {
            assert(s[j].0@ != s[i].0@);
        } else {
            assert(s[i].0@ != s[j].0@);
        }
    }
}

/// Removing an entry keeps keys unique, drops its key, and keeps every other
/// key's value.
pub proof fn lemma_remove_entry<V>(s: Seq<(String, V)>, i: int)
    requires
        unique_keys(s),
        0 <= i < s.len(),
    ensures
        unique_keys(s.remove(i)),
        !has_key(s.remove(i), s[i].0@),
        forall|k: Seq<char>|
            k != s[i].0@ ==> (has_key(s.remove(i), k) == has_key(s, k) && (has_key(s, k)
                ==> value_of(s.remove(i), k) == value_of(s, k))),
{
    let r = s.remove(i);
    assert forall|a: int, b: int| 0 <= a < b < r.len() implies #[trigger] r[a].0@ != #[trigger] r[b].0@ by {
        let a2 = if a < i { a } else { a + 1 };
        let b2 = if b < i { b } else { b + 1 };
        assert(s[a2].0@ != s[b2].0@);
    }
    if has_key(r, s[i].0@) {
        let j = key_index(r, s[i].0@);
        let j2 = if j < i { j } else { j + 1 };
        assert(r[j] == s[j2]);
        if j2 < i {
            assert(s[j2].0@ != s[i].0@);
        } else {
            assert(s[i].0@ != s[j2].0@);
        }
    }
    assert forall|k: Seq<char>|
        k != s[i].0@ implies (has_key(r, k) == has_key(s, k) && (has_key(s, k) ==> value_of(r, k)
            == value_of(s, k))) by {
        if has_key(s, k) {
            let j = key_index(s, k);
            assert(j != i);
            let j1 = if j < i { j } else { j - 1 };
            assert(r[j1] == s[j]);
            assert(r[j1].0@ == k);
            lemma_key_index(r, j1);
            lemma_key_index(s, j);
        }
        if has_key(r, k) {
            let j = key_index(r, k);
            let j2 = if j < i { j } else { j + 1 };
            assert(r[j] == s[j2]);
            assert(s[j2].0@ == k);
        }
    }
}

/// Appending an entry with a new key keeps keys unique, and gives that key
/// its value while keeping every other key's.
pub proof fn lemma_push_entry<V>(s: Seq<(String, V)>, e: (String, V))
    requires
        unique_keys(s),
        !has_key(s, e.0@),
    ensures
        unique_keys(s.push(e)),
        has_key(s.push(e), e.0@),
        value_of(s.push(e), e.0@) == e.1,
        forall|k: Seq<char>|
            k != e.0@ ==> (has_key(s.push(e), k) == has_key(s, k) && (has_key(s, k) ==> value_of(
                s.push(e),
                k,
            ) == value_of(s, k))),
{
    let r = s.push(e);
    assert forall|a: int, b: int| 0 <= a < b < r.len() implies #[trigger] r[a].0@ != #[trigger] r[b].0@ by {
        if b == s.len() {
            if r[a].0@ == e.0@ {
                assert(s[a].0@ == e.0@);
                assert(has_key(s, e.0@));
            }
        } else {
            assert(s[a].0@ != s[b].0@);
        }
    }
    lemma_key_index(r, s.len() as int);
    assert forall|k: Seq<char>|
        k != e.0@ implies (has_key(r, k) == has_key(s, k) && (has_key(s, k) ==> value_of(r, k)
            == value_of(s, k))) by {
        if has_key(s, k) {
            let j = key_index(s, k);
            assert(r[j] == s[j]);
            lemma_key_index(r, j);
            lemma_key_index(s, j);
        }
        if has_key(r, k) {
            let j = key_index(r, k);
            assert(j < s.len());
            assert(s[j].0@ == k);
        }
    }
}

/// Where the entry of `key` is, if it has one.
pub fn find_key<V>(v: &Vec<(String, V)>, key: &str) -> (r: Option<usize>)
    requires
        unique_keys(v@),
    ensures
        match r {
            Some(i) => i < v@.len() && v@[i as int].0@ == key@ && has_key(v@, key@) && key_index(
                v@,
                key@,
            ) == i,
            None => !has_key(v@, key@),
        },
{
    for i in 0..v.len()
        invariant
            unique_keys(v@),
            forall|j: int| 0 <= j < i ==> v@[j].0@ != key@,
    {
        if str_eq(v[i].0.as_str(), key) {
            proof {
                lemma_key_index(v@, i as int);
            }
            return Some(i);
        }
    }
    None
}

} // verus!
