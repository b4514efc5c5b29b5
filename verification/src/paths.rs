//! Unix path strings: components, normalisation and file names.
//!
//! A path is handled as its text. Its components are the pieces between `/`
//! separators; empty pieces and `.` pieces do not count, as in
//! `std::path::Path::components` (which keeps a leading `.` only as a marker
//! that never names a file).
use vstd::prelude::*;

use crate::text::{chars_of, char_views, push_str, string_from_chars};

verus! {

/// Pieces of `s` between `/` separators, given the piece in progress `cur`;
/// empty pieces and `.` pieces are dropped.
pub open spec fn segs_acc(s: Seq<char>, cur: Seq<char>) -> Seq<Seq<char>>
    decreases s.len(),
{
    if s.len() == 0 {
        if cur.len() == 0 || cur == seq!['.'] {
            seq![]
        } else {
            seq![cur]
        }
    } else if s[0] == '/' {
        if cur.len() == 0 || cur == seq!['.'] {
            segs_acc(s.drop_first(), seq![])
        } else {
            seq![cur] + segs_acc(s.drop_first(), seq![])
        }
    } else {
        segs_acc(s.drop_first(), cur.push(s[0]))
    }
}

/// The named components of a path (no root, no `.`).
pub open spec fn segments(s: Seq<char>) -> Seq<Seq<char>> {
    segs_acc(s, seq![])
}

pub open spec fn is_absolute(s: Seq<char>) -> bool {
    s.len() > 0 && s[0] == '/'
}

/// `Path::file_name`: the last component when it names an entry.
pub open spec fn file_name(s: Seq<char>) -> Option<Seq<char>> {
    let segs = segments(s);
    if segs.len() == 0 || segs.last() == seq!['.', '.'] {
        None
    } else {
        Some(segs.last())
    }
}

/// Components of the path with `..` resolved logically: a `..` removes the
/// component before it, which may be the root. `root` tells whether the
/// resulting stack starts with the root.
pub open spec fn norm_acc(segs: Seq<Seq<char>>, root: bool, stack: Seq<Seq<char>>) -> (bool, Seq<Seq<char>>)
    decreases segs.len(),
{
    if segs.len() == 0 {
        (root, stack)
    } else if segs[0] == seq!['.', '.'] {
        if stack.len() > 0 {
            norm_acc(segs.drop_first(), root, stack.drop_last())
        } else if root {
            norm_acc(segs.drop_first(), false, stack)
        } else {
            norm_acc(segs.drop_first(), root, stack)
        }
    } else {
        norm_acc(segs.drop_first(), root, stack.push(segs[0]))
    }
}

/// Components joined with `/`.
pub open spec fn join_segs(segs: Seq<Seq<char>>) -> Seq<char>
    decreases segs.len(),
{
    if segs.len() == 0 {
        seq![]
    } else if segs.len() == 1 {
        segs[0]
    } else {
        join_segs(segs.drop_last()) + seq!['/'] + segs.last()
    }
}

/// Text of the logically normalised path (`.` dropped, `..` resolved).
pub open spec fn normalized(s: Seq<char>) -> Seq<char> {
    let (root, stack) = norm_acc(segments(s), is_absolute(s), seq![]);
    if root {
        seq!['/'] + join_segs(stack)
    } else {
        join_segs(stack)
    }
}

/// The components of a path.
pub fn path_segments(path: &[char]) -> (r: Vec<Vec<char>>)
    ensures
        char_views(r@) == segments(path@),
{
    let mut out: Vec<Vec<char>> = Vec::new();
    let mut cur: Vec<char> = Vec::new();
    let n = path.len();
    assert(path@.skip(0) =~= path@);
    for i in 0..n
        invariant
            n == path@.len(),
            char_views(out@) + segs_acc(path@.skip(i as int), cur@) == segments(path@),
    {
        let c = path[i];
        let ghost rest = path@.skip(i as int);
        let ghost old_cur = cur@;
        assert(rest[0] == c);
        assert(rest.drop_first() =~= path@.skip(i + 1));
        if c == '/' {
            let dot = cur.len() == 1 && cur[0] == '.';
            assert(dot == (old_cur == seq!['.'])) by {
                if old_cur.len() == 1 && old_cur[0] == '.' {
                    assert(old_cur =~= seq!['.']);
                }
            }
            if cur.len() == 0 || dot {
                assert(segs_acc(rest, old_cur) == segs_acc(path@.skip(i + 1), seq![]));
                cur = Vec::new();
            } else {
                assert(segs_acc(rest, old_cur) == seq![old_cur] + segs_acc(path@.skip(i + 1), seq![]));
                let ghost old_out = char_views(out@);
                out.push(cur);
                cur = Vec::new();
                assert(char_views(out@) =~= old_out + seq![old_cur]);
                assert(old_out + (seq![old_cur] + segs_acc(path@.skip(i + 1), seq![])) =~= old_out
                    + seq![old_cur] + segs_acc(path@.skip(i + 1), seq![]));
            }
        } else {
            assert(segs_acc(rest, old_cur) == segs_acc(path@.skip(i + 1), old_cur.push(c)));
            cur.push(c);
        }
    }
    let ghost before = char_views(out@);
    let ghost last = cur@;
    assert(path@.skip(n as int) =~= Seq::<char>::empty());
    let dot = cur.len() == 1 && cur[0] == '.';
    assert(dot == (last == seq!['.'])) by {
        if last.len() == 1 && last[0] == '.' {
            assert(last =~= seq!['.']);
        }
    }
    if cur.len() > 0 && !dot {
        out.push(cur);
        assert(char_views(out@) =~= before + seq![last]);
    } else {
        assert(before + Seq::<Seq<char>>::empty() =~= before);
    }
    out
}

fn is_dot_dot(s: &[char]) -> (r: bool)
    ensures
        r == (s@ == seq!['.', '.']),
{
    if s.len() == 2 && s[0] == '.' && s[1] == '.' {
        assert(s@ =~= seq!['.', '.']);
        true
    } else {
        false
    }
}

/// `Path::file_name` of a path text.
pub fn path_file_name(path: &str) -> (r: Option<String>)
    ensures
        match r {
            Some(n) => file_name(path@) == Some(n@),
            None => file_name(path@) is None,
        },
{
    let v = chars_of(path);
    let segs = path_segments(v.as_slice());
    let k = segs.len();
    if k == 0 {
        return None;
    }
    assert(char_views(segs@).last() == segs@[k - 1]@);
    if is_dot_dot(segs[k - 1].as_slice()) {
        return None;
    }
    Some(string_from_chars(segs[k - 1].as_slice()))
}

/// The file name of a path, or the path itself when it has none.
pub fn basename_or_self(path: &str) -> (r: String)
    ensures
        r@ == match file_name(path@) {
            Some(n) => n,
            None => path@,
        },
{
    match path_file_name(path) {
        Some(n) => n,
        None => crate::text::owned(path),
    }
}

fn join_segments(segs: &Vec<Vec<char>>) -> (r: String)
    ensures
        r@ == join_segs(char_views(segs@)),
{
    let mut r = String::new();
    let n = segs.len();
    for i in 0..n
        invariant
            n == segs@.len(),
            r@ == join_segs(char_views(segs@).take(i as int)),
    {
        let ghost prev = char_views(segs@).take(i as int);
        let ghost next = char_views(segs@).take(i + 1);
        assert(next.drop_last() =~= prev);
        assert(next.last() == segs@[i as int]@);
        if i > 0 {
            push_str(&mut r, "/");
            proof {
                reveal_strlit("/");
            }
            assert("/"@ =~= seq!['/']);
        }
        let piece = string_from_chars(segs[i].as_slice());
        push_str(&mut r, piece.as_str());
        if i == 0 {
            assert(r@ =~= next[0]);
        }
    }
    assert(char_views(segs@).take(n as int) =~= char_views(segs@));
    r
}

/// Normalise a path logically (resolve `.` and `..`) without touching the filesystem.
pub fn normalize_path(path: &str) -> (r: String)
    ensures
        r@ == normalized(path@),
{
    let v = chars_of(path);
    let segs = path_segments(v.as_slice());
    let mut root = v.len() > 0 && v[0] == '/';
    let mut stack: Vec<Vec<char>> = Vec::new();
    let n = segs.len();
    let ghost all = char_views(segs@);
    assert(all.skip(0) =~= all);
    assert(char_views(stack@) =~= Seq::<Seq<char>>::empty());
    assert(root == is_absolute(path@));
    for i in 0..n
        invariant
            n == segs@.len(),
            all == char_views(segs@),
            all == segments(path@),
            norm_acc(all, is_absolute(path@), seq![]) == norm_acc(all.skip(i as int), root, char_views(stack@)),
    {
        let ghost rest = all.skip(i as int);
        assert(rest[0] == segs@[i as int]@);
        assert(rest.drop_first() =~= all.skip(i + 1));
        let ghost old_stack = char_views(stack@);
        if is_dot_dot(segs[i].as_slice()) {
            if stack.len() > 0 {
                stack.pop();
                assert(char_views(stack@) =~= old_stack.drop_last());
            } else if root {
                root = false;
            }
        } else {
            stack.push(slice_copy(segs[i].as_slice()));
            assert(char_views(stack@) =~= old_stack.push(segs@[i as int]@));
        }
    }
    assert(all.skip(n as int) =~= Seq::<Seq<char>>::empty());
    let body = join_segments(&stack);
    if root {
        let mut r = String::new();
        push_str(&mut r, "/");
        proof {
            reveal_strlit("/");
        }
        push_str(&mut r, body.as_str());
        assert(r@ =~= seq!['/'] + join_segs(char_views(stack@)));
        r
    } else {
        body
    }
}

fn slice_copy(s: &[char]) -> (r: Vec<char>)
    ensures
        r@ == s@,
{
    crate::text::slice_chars(s, 0, s.len())
}

/// Relative path without `..` components (`is_safe_relative_path`).
pub open spec fn safe_relative(s: Seq<char>) -> bool {
    !is_absolute(s) && forall|i: int| 0 <= i < segments(s).len() ==> segments(s)[i] != seq!['.', '.']
}

/// A relative path that stays below its base: not absolute, no `..` component.
pub fn is_safe_relative_path(path: &str) -> (r: bool)
    ensures
        r == safe_relative(path@),
{
    let v = chars_of(path);
    if v.len() > 0 && v[0] == '/' {
        return false;
    }
    let segs = path_segments(v.as_slice());
    for i in 0..segs.len()
        invariant
            char_views(segs@) == segments(path@),
            !is_absolute(path@),
            forall|j: int| 0 <= j < i ==> segments(path@)[j] != seq!['.', '.'],
    {
        assert(char_views(segs@)[i as int] == segs@[i as int]@);
        if is_dot_dot(segs[i].as_slice()) {
            return false;
        }
    }
    true
}

// ───────────────────────────── Normalisation laws ─────────────────────────────

/// A named component: not empty, without `/`, and not `.`.
pub open spec fn named_component(w: Seq<char>) -> bool {
    w.len() > 0 && !w.contains('/') && w != seq!['.']
}

/// What the end of a piece in progress contributes.
pub open spec fn piece(cur: Seq<char>) -> Seq<Seq<char>> {
    if cur.len() == 0 || cur == seq!['.'] {
        seq![]
    } else {
        seq![cur]
    }
}

proof fn lemma_segs_named(s: Seq<char>, cur: Seq<char>)
    requires
        !cur.contains('/'),
    ensures
        forall|k: int| 0 <= k < segs_acc(s, cur).len() ==> named_component(#[trigger] segs_acc(s, cur)[k]),
    decreases s.len(),
{
    if s.len() == 0 {
        if !(cur.len() == 0 || cur == seq!['.']) {
            assert(segs_acc(s, cur) == seq![cur]);
            assert(named_component(cur));
        } else {
            assert(segs_acc(s, cur) == Seq::<Seq<char>>::empty());
        }
    } else if s[0] == '/' {
        lemma_segs_named(s.drop_first(), seq![]);
        if !(cur.len() == 0 || cur == seq!['.']) {
            assert(segs_acc(s, cur) == seq![cur] + segs_acc(s.drop_first(), seq![]));
            assert(named_component(cur));
        } else {
            assert(segs_acc(s, cur) == segs_acc(s.drop_first(), seq![]));
        }
        assert forall|k: int| 0 <= k < segs_acc(s, cur).len() implies named_component(#[trigger] segs_acc(s, cur)[k]) by {
            if !(cur.len() == 0 || cur == seq!['.']) && k > 0 {
                assert(segs_acc(s, cur)[k] == segs_acc(s.drop_first(), seq![])[k - 1]);
            }
        }
    } else {
        assert(!cur.push(s[0]).contains('/')) by {
            if cur.push(s[0]).contains('/') {
                let i = choose|i: int| 0 <= i < cur.push(s[0]).len() && cur.push(s[0])[i] == '/';
                if i < cur.len() {
                    assert(cur.contains('/'));
                }
            }
        }
        lemma_segs_named(s.drop_first(), cur.push(s[0]));
        assert(segs_acc(s, cur) == segs_acc(s.drop_first(), cur.push(s[0])));
    }
}

proof fn lemma_segs_split(x: Seq<char>, y: Seq<char>, cur: Seq<char>)
    ensures
        segs_acc(x + seq!['/'] + y, cur) == segs_acc(x, cur) + segs_acc(y, seq![]),
    decreases x.len(),
{
    let z = x + seq!['/'] + y;
    if x.len() == 0 {
        assert(z =~= seq!['/'] + y);
        assert(z.drop_first() =~= y);
        assert(segs_acc(x, cur) == piece(cur));
    } else if x[0] == '/' {
        assert(z.drop_first() =~= x.drop_first() + seq!['/'] + y);
        lemma_segs_split(x.drop_first(), y, seq![]);
    } else {
        assert(z.drop_first() =~= x.drop_first() + seq!['/'] + y);
        lemma_segs_split(x.drop_first(), y, cur.push(x[0]));
    }
}

proof fn lemma_segs_word(w: Seq<char>, cur: Seq<char>)
    requires
        !w.contains('/'),
    ensures
        segs_acc(w, cur) == piece(cur + w),
    decreases w.len(),
{
    if w.len() == 0 {
        assert(cur + w =~= cur);
    } else {
        assert(w[0] != '/');
        assert(!w.drop_first().contains('/')) by {
            if w.drop_first().contains('/') {
                let i = choose|i: int| 0 <= i < w.drop_first().len() && w.drop_first()[i] == '/';
                assert(w[i + 1] == '/');
            }
        }
        lemma_segs_word(w.drop_first(), cur.push(w[0]));
        assert(cur.push(w[0]) + w.drop_first() =~= cur + w);
    }
}

proof fn lemma_segments_of_join(st: Seq<Seq<char>>)
    requires
        forall|k: int| 0 <= k < st.len() ==> named_component(#[trigger] st[k]),
    ensures
        segments(join_segs(st)) == st,
        st.len() > 0 ==> join_segs(st).len() > 0 && join_segs(st)[0] == st[0][0],
    decreases st.len(),
{
    if st.len() == 0 {
        assert(segments(Seq::<char>::empty()) =~= Seq::<Seq<char>>::empty());
    } else if st.len() == 1 {
        lemma_segs_word(st[0], seq![]);
        assert(seq![] + st[0] =~= st[0]);
        assert(seq![st[0]] =~= st);
    } else {
        let init = st.drop_last();
        lemma_segments_of_join(init);
        lemma_segs_split(join_segs(init), st.last(), seq![]);
        lemma_segs_word(st.last(), seq![]);
        assert(seq![] + st.last() =~= st.last());
        assert(init + seq![st.last()] =~= st);
        assert(init[0] == st[0]);
    }
}

proof fn lemma_norm_named(segs: Seq<Seq<char>>, root: bool, stack: Seq<Seq<char>>)
    requires
        forall|k: int| 0 <= k < segs.len() ==> named_component(#[trigger] segs[k]),
        forall|k: int| 0 <= k < stack.len() ==> named_component(#[trigger] stack[k]) && stack[k] != seq!['.', '.'],
    ensures
        forall|k: int|
            0 <= k < norm_acc(segs, root, stack).1.len() ==> named_component(#[trigger] norm_acc(segs, root, stack).1[k])
                && norm_acc(segs, root, stack).1[k] != seq!['.', '.'],
    decreases segs.len(),
{
    if segs.len() > 0 {
        if segs[0] == seq!['.', '.'] {
            assert forall|k: int| 0 <= k < segs.drop_first().len() implies named_component(#[trigger] segs.drop_first()[k]) by {
                assert(segs.drop_first()[k] == segs[k + 1]);
            }
            if stack.len() > 0 {
                assert forall|k: int| 0 <= k < stack.drop_last().len() implies named_component(#[trigger] stack.drop_last()[k])
                    && stack.drop_last()[k] != seq!['.', '.'] by {
                    assert(stack.drop_last()[k] == stack[k]);
                }
                lemma_norm_named(segs.drop_first(), root, stack.drop_last());
                assert(norm_acc(segs, root, stack) == norm_acc(segs.drop_first(), root, stack.drop_last()));
            } else if root {
                lemma_norm_named(segs.drop_first(), false, stack);
                assert(norm_acc(segs, root, stack) == norm_acc(segs.drop_first(), false, stack));
            } else {
                lemma_norm_named(segs.drop_first(), root, stack);
                assert(norm_acc(segs, root, stack) == norm_acc(segs.drop_first(), root, stack));
            }
        } else {
            assert forall|k: int| 0 <= k < segs.drop_first().len() implies named_component(#[trigger] segs.drop_first()[k]) by {
                assert(segs.drop_first()[k] == segs[k + 1]);
            }
            let st = stack.push(segs[0]);
            assert forall|k: int| 0 <= k < st.len() implies named_component(#[trigger] st[k]) && st[k] != seq!['.', '.'] by {
                if k < stack.len() {
                    assert(st[k] == stack[k]);
                } else {
                    assert(st[k] == segs[0]);
                }
            }
            lemma_norm_named(segs.drop_first(), root, st);
            assert(norm_acc(segs, root, stack) == norm_acc(segs.drop_first(), root, st));
        }
    }
}

proof fn lemma_norm_plain(segs: Seq<Seq<char>>, root: bool, stack: Seq<Seq<char>>)
    requires
        forall|k: int| 0 <= k < segs.len() ==> #[trigger] segs[k] != seq!['.', '.'],
    ensures
        norm_acc(segs, root, stack) == (root, stack + segs),
    decreases segs.len(),
{
    if segs.len() == 0 {
        assert(stack + segs =~= stack);
    } else {
        lemma_norm_plain(segs.drop_first(), root, stack.push(segs[0]));
        assert(stack.push(segs[0]) + segs.drop_first() =~= stack + segs);
    }
}

/// Normalising is logical and settles the path: a normalised path holds no
/// `.` or `..` component, and normalising it again changes nothing.
pub proof fn law_normalized_is_settled(s: Seq<char>)
    ensures
        normalized(normalized(s)) == normalized(s),
        forall|k: int|
            0 <= k < segments(normalized(s)).len() ==> #[trigger] segments(normalized(s))[k] != seq!['.']
                && segments(normalized(s))[k] != seq!['.', '.'],
{
    let (root, stack) = norm_acc(segments(s), is_absolute(s), seq![]);
    lemma_segs_named(s, seq![]);
    lemma_norm_named(segments(s), is_absolute(s), seq![]);
    lemma_segments_of_join(stack);
    let j = join_segs(stack);
    let n = normalized(s);
    if root {
        assert(n == seq!['/'] + j);
        assert(n.drop_first() =~= j);
        assert(segments(n) == segs_acc(j, seq![]));
        assert(is_absolute(n));
    } else {
        assert(n == j);
        if j.len() > 0 {
            assert(j[0] == stack[0][0]);
            assert(j[0] != '/') by {
                assert(stack[0].contains(stack[0][0]));
            }
        }
        assert(!is_absolute(n));
    }
    assert(segments(n) == stack);
    lemma_norm_plain(stack, root, seq![]);
    assert(seq![] + stack =~= stack);
}

} // verus!
