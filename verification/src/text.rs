//! Character-level text utilities with their specifications.
//!
//! Strings are reasoned about through their views as sequences of `char`.
//! The algorithms of the library work on `Vec<char>` and slices of `char`;
//! this module converts between those and `&str` / `String`.
use vstd::prelude::*;

verus! {

// ───────────────────────────── Specifications ─────────────────────────────

/// Unicode `White_Space` property, as used by `char::is_whitespace`.
pub open spec fn is_ws(c: char) -> bool {
    let u = c as u32;
    ||| 0x9 <= u <= 0xD
    ||| u == 0x20
    ||| u == 0x85
    ||| u == 0xA0
    ||| u == 0x1680
    ||| 0x2000 <= u <= 0x200A
    ||| u == 0x2028
    ||| u == 0x2029
    ||| u == 0x202F
    ||| u == 0x205F
    ||| u == 0x3000
}

pub open spec fn is_ascii_upper(c: char) -> bool {
    'A' <= c <= 'Z'
}

pub open spec fn is_ascii_lower(c: char) -> bool {
    'a' <= c <= 'z'
}

pub open spec fn is_ascii_digit(c: char) -> bool {
    '0' <= c <= '9'
}

pub open spec fn is_ascii_alpha(c: char) -> bool {
    is_ascii_upper(c) || is_ascii_lower(c)
}

pub open spec fn is_ascii_alnum(c: char) -> bool {
    is_ascii_alpha(c) || is_ascii_digit(c)
}

pub open spec fn ascii_lower_char(c: char) -> char {
    if is_ascii_upper(c) {
        ((c as u32) + 32) as char
    } else {
        c
    }
}

/// ASCII lowercase of every character (`str::to_ascii_lowercase`).
pub open spec fn ascii_lower(s: Seq<char>) -> Seq<char> {
    Seq::new(s.len(), |i: int| ascii_lower_char(s[i]))
}

pub open spec fn ascii_upper_char(c: char) -> char {
    if is_ascii_lower(c) {
        ((c as u32) - 32) as char
    } else {
        c
    }
}

/// ASCII letters made uppercase, other characters kept.
pub open spec fn ascii_upper(s: Seq<char>) -> Seq<char> {
    Seq::new(s.len(), |i: int| ascii_upper_char(s[i]))
}

/// Making ASCII letters uppercase changes nothing once they are lowercased.
pub proof fn lemma_ascii_lower_of_upper(s: Seq<char>)
    ensures
        ascii_lower(ascii_upper(s)) == ascii_lower(s),
        all_ascii(s) ==> all_ascii(ascii_upper(s)),
{
    assert forall|i: int| 0 <= i < s.len() implies ascii_lower_char(ascii_upper_char(s[i])) == ascii_lower_char(s[i]) by {
        let c = s[i];
        if is_ascii_lower(c) {
            let u = ((c as u32) - 32) as char;
            assert(u as u32 == (c as u32) - 32);
            assert(is_ascii_upper(u));
            assert(((u as u32) + 32) as char == c);
        }
    }
    assert(ascii_lower(ascii_upper(s)) =~= ascii_lower(s));
}

pub open spec fn all_ascii(s: Seq<char>) -> bool {
    forall|i: int| 0 <= i < s.len() ==> (s[i] as u32) < 0x80
}

/// `s` starts with `p`.
pub open spec fn has_prefix(s: Seq<char>, p: Seq<char>) -> bool {
    p.len() <= s.len() && s.subrange(0, p.len() as int) == p
}

/// `s` ends with `p`.
pub open spec fn has_suffix(s: Seq<char>, p: Seq<char>) -> bool {
    p.len() <= s.len() && s.subrange(s.len() - p.len(), s.len() as int) == p
}

/// `p` occurs in `s` starting at index `i`.
pub open spec fn occurs_at(s: Seq<char>, p: Seq<char>, i: int) -> bool {
    0 <= i && i + p.len() <= s.len() && s.subrange(i, i + p.len()) == p
}

/// `s` contains `p` as a contiguous substring.
pub open spec fn contains_seq(s: Seq<char>, p: Seq<char>) -> bool {
    exists|i: int| occurs_at(s, p, i)
}

/// `s` contains the character `c`.
pub open spec fn has_char(s: Seq<char>, c: char) -> bool {
    exists|i: int| 0 <= i < s.len() && s[i] == c
}

/// Index of the first occurrence of `p` in `s`, when there is one.
pub open spec fn first_occurrence(s: Seq<char>, p: Seq<char>, i: int) -> bool {
    occurs_at(s, p, i) && forall|j: int| 0 <= j < i ==> !occurs_at(s, p, j)
}

/// Leading whitespace removed (`str::trim_start`).
pub open spec fn trim_start(s: Seq<char>) -> Seq<char>
    decreases s.len(),
{
    if s.len() > 0 && is_ws(s[0]) {
        trim_start(s.drop_first())
    } else {
        s
    }
}

/// Trailing whitespace removed (`str::trim_end`).
pub open spec fn trim_end(s: Seq<char>) -> Seq<char>
    decreases s.len(),
{
    if s.len() > 0 && is_ws(s.last()) {
        trim_end(s.drop_last())
    } else {
        s
    }
}

/// Whitespace removed at both ends (`str::trim`).
pub open spec fn trim(s: Seq<char>) -> Seq<char> {
    trim_end(trim_start(s))
}

proof fn lemma_trim_start_shape(s: Seq<char>)
    ensures
        trim_start(s).len() == 0 || !is_ws(trim_start(s)[0]),
    decreases s.len(),
{
    if s.len() > 0 && is_ws(s[0]) {
        lemma_trim_start_shape(s.drop_first());
    }
}

proof fn lemma_trim_end_shape(s: Seq<char>)
    ensures
        trim_end(s).len() <= s.len(),
        trim_end(s) =~= s.take(trim_end(s).len() as int),
        trim_end(s).len() == 0 || !is_ws(trim_end(s).last()),
    decreases s.len(),
{
    if s.len() > 0 && is_ws(s.last()) {
        lemma_trim_end_shape(s.drop_last());
    }
}

/// Trimming a trimmed text changes nothing.
proof fn lemma_trim_start_keeps(s: Seq<char>, i: int)
    requires
        0 <= i < s.len(),
        !is_ws(s[i]),
    ensures
        exists|j: int| 0 <= j < trim_start(s).len() && trim_start(s)[j] == s[i],
    decreases s.len(),
{
    if s.len() > 0 && is_ws(s[0]) {
        assert(i > 0);
        assert(s.drop_first()[i - 1] == s[i]);
        lemma_trim_start_keeps(s.drop_first(), i - 1);
        assert(trim_start(s) == trim_start(s.drop_first()));
    } else {
        assert(trim_start(s) == s);
        assert(trim_start(s)[i] == s[i]);
    }
}

proof fn lemma_trim_end_keeps(s: Seq<char>, i: int)
    requires
        0 <= i < s.len(),
        !is_ws(s[i]),
    ensures
        exists|j: int| 0 <= j < trim_end(s).len() && trim_end(s)[j] == s[i],
    decreases s.len(),
{
    if s.len() > 0 && is_ws(s.last()) {
        assert(i < s.len() - 1);
        assert(s.drop_last()[i] == s[i]);
        lemma_trim_end_keeps(s.drop_last(), i);
        assert(trim_end(s) == trim_end(s.drop_last()));
    } else {
        assert(trim_end(s) == s);
        assert(trim_end(s)[i] == s[i]);
    }
}

proof fn lemma_trim_start_is_suffix(s: Seq<char>)
    ensures
        exists|k: int| 0 <= k <= s.len() && trim_start(s) == s.skip(k),
    decreases s.len(),
{
    if s.len() > 0 && is_ws(s[0]) {
        lemma_trim_start_is_suffix(s.drop_first());
        let k = choose|k: int| 0 <= k <= s.drop_first().len() && trim_start(s.drop_first()) == s.drop_first().skip(k);
        assert(s.drop_first().skip(k) =~= s.skip(k + 1));
    } else {
        assert(s.skip(0) =~= s);
    }
}

/// Every character of a trimmed text is a character of the text.
pub proof fn lemma_trim_within(s: Seq<char>)
    ensures
        forall|j: int| 0 <= j < trim(s).len() ==> exists|i: int| 0 <= i < s.len() && s[i] == #[trigger] trim(s)[j],
{
    lemma_trim_start_is_suffix(s);
    let k = choose|k: int| 0 <= k <= s.len() && trim_start(s) == s.skip(k);
    lemma_trim_end_shape(trim_start(s));
    assert forall|j: int| 0 <= j < trim(s).len() implies exists|i: int| 0 <= i < s.len() && s[i] == #[trigger] trim(s)[j] by {
        assert(trim(s)[j] == trim_start(s)[j]);
        assert(s[k + j] == trim(s)[j]);
    }
}

/// A character that is not whitespace stays when a text is trimmed.
pub proof fn lemma_trim_keeps(s: Seq<char>, i: int)
    requires
        0 <= i < s.len(),
        !is_ws(s[i]),
    ensures
        exists|j: int| 0 <= j < trim(s).len() && trim(s)[j] == s[i],
{
    lemma_trim_start_keeps(s, i);
    let t = trim_start(s);
    let j = choose|j: int| 0 <= j < t.len() && t[j] == s[i];
    lemma_trim_end_keeps(t, j);
    let j2 = choose|j2: int| 0 <= j2 < trim_end(t).len() && trim_end(t)[j2] == t[j];
    assert(trim(s) == trim_end(t));
    assert(0 <= j2 < trim(s).len() && trim(s)[j2] == s[i]);
}

pub proof fn lemma_trim_idempotent(s: Seq<char>)
    ensures
        trim(trim(s)) == trim(s),
{
    let y = trim_start(s);
    let z = trim_end(y);
    lemma_trim_start_shape(s);
    lemma_trim_end_shape(y);
    if z.len() > 0 {
        assert(z[0] == y[0]);
    }
    assert(trim_start(z) == z);
    assert(trim_end(z) == z);
}

/// Words of `s` separated by whitespace, given the word in progress `cur`.
pub open spec fn words_acc(s: Seq<char>, cur: Seq<char>) -> Seq<Seq<char>>
    decreases s.len(),
{
    if s.len() == 0 {
        if cur.len() == 0 {
            seq![]
        } else {
            seq![cur]
        }
    } else if is_ws(s[0]) {
        if cur.len() == 0 {
            words_acc(s.drop_first(), seq![])
        } else {
            seq![cur] + words_acc(s.drop_first(), seq![])
        }
    } else {
        words_acc(s.drop_first(), cur.push(s[0]))
    }
}

/// The non-empty whitespace-separated words of `s` (`str::split_whitespace`).
pub open spec fn words(s: Seq<char>) -> Seq<Seq<char>> {
    words_acc(s, seq![])
}

/// A line with a final carriage return removed.
pub open spec fn strip_cr(line: Seq<char>) -> Seq<char> {
    if line.len() > 0 && line.last() == '\r' {
        line.drop_last()
    } else {
        line
    }
}

/// Lines of `s`, given the line in progress `cur`.
pub open spec fn lines_acc(s: Seq<char>, cur: Seq<char>) -> Seq<Seq<char>>
    decreases s.len(),
{
    if s.len() == 0 {
        if cur.len() == 0 {
            seq![]
        } else {
            seq![cur]
        }
    } else if s[0] == '\n' {
        seq![strip_cr(cur)] + lines_acc(s.drop_first(), seq![])
    } else {
        lines_acc(s.drop_first(), cur.push(s[0]))
    }
}

/// The lines of `s` (`str::lines`): split at `\n`, a `\r` before the `\n` dropped,
/// no empty last line after a final newline.
pub open spec fn lines(s: Seq<char>) -> Seq<Seq<char>> {
    lines_acc(s, seq![])
}

/// The parts joined with `sep` between consecutive parts.
pub open spec fn seq_join(parts: Seq<Seq<char>>, sep: Seq<char>) -> Seq<char>
    decreases parts.len(),
{
    if parts.len() == 0 {
        seq![]
    } else if parts.len() == 1 {
        parts[0]
    } else {
        seq_join(parts.drop_last(), sep) + sep + parts.last()
    }
}

/// Joining splits at any inner position: the parts before it, the
/// separator, and the parts after it.
pub proof fn lemma_join_split(parts: Seq<Seq<char>>, sep: Seq<char>, k: int)
    requires
        0 < k < parts.len(),
    ensures
        seq_join(parts, sep) == seq_join(parts.take(k), sep) + sep + seq_join(parts.skip(k), sep),
    decreases parts.len(),
{
    if k == parts.len() - 1 {
        assert(parts.take(k) =~= parts.drop_last());
        assert(parts.skip(k) =~= seq![parts.last()]);
    } else {
        lemma_join_split(parts.drop_last(), sep, k);
        assert(parts.drop_last().take(k) =~= parts.take(k));
        assert(parts.skip(k).drop_last() =~= parts.drop_last().skip(k));
        assert(parts.skip(k).last() == parts.last());
        assert(parts.skip(k).len() >= 2);
    }
}

/// A joined text starts with its first part.
pub proof fn lemma_join_starts(parts: Seq<Seq<char>>, sep: Seq<char>)
    requires
        parts.len() > 0,
    ensures
        has_prefix(seq_join(parts, sep), parts[0]),
{
    if parts.len() > 1 {
        lemma_join_split(parts, sep, 1);
        assert(parts.take(1) =~= seq![parts[0]]);
        let t = seq_join(parts, sep);
        assert(t.subrange(0, parts[0].len() as int) =~= parts[0]);
    } else {
        assert(seq_join(parts, sep).subrange(0, parts[0].len() as int) =~= parts[0]);
    }
}

/// The views of a vector of strings.
pub open spec fn views(v: Seq<String>) -> Seq<Seq<char>> {
    Seq::new(v.len(), |i: int| v[i]@)
}

/// The views of a vector of character vectors.
pub open spec fn char_views(v: Seq<Vec<char>>) -> Seq<Seq<char>> {
    Seq::new(v.len(), |i: int| v[i]@)
}

pub open spec fn digit_char(d: nat) -> char {
    (('0' as u32) + d) as char
}

/// Decimal notation of a natural number, as `Display` writes it.
pub open spec fn decimal(n: nat) -> Seq<char>
    decreases n,
{
    if n < 10 {
        seq![digit_char(n)]
    } else {
        decimal(n / 10).push(digit_char(n % 10))
    }
}

/// Number of bytes of the UTF-8 encoding of one character.
pub open spec fn char_utf8_len(c: char) -> nat {
    let u = c as u32;
    if u < 0x80 {
        1
    } else if u < 0x800 {
        2
    } else if u < 0x10000 {
        3
    } else {
        4
    }
}

/// Number of bytes of the UTF-8 encoding of a character sequence.
pub open spec fn utf8_len(s: Seq<char>) -> nat
    decreases s.len(),
{
    if s.len() == 0 {
        0
    } else {
        utf8_len(s.drop_last()) + char_utf8_len(s.last())
    }
}

// ───────────────────────────── Lemmas ─────────────────────────────

pub proof fn lemma_utf8_len_take(s: Seq<char>, k: int)
    requires
        0 <= k < s.len(),
    ensures
        utf8_len(s.take(k + 1)) == utf8_len(s.take(k)) + char_utf8_len(s[k]),
{
    assert(s.take(k + 1).drop_last() =~= s.take(k));
}

pub proof fn lemma_utf8_len_prepend(c: char, s: Seq<char>)
    ensures
        utf8_len(seq![c] + s) == char_utf8_len(c) + utf8_len(s),
    decreases s.len(),
{
    let t = seq![c] + s;
    if s.len() == 0 {
        assert(t.drop_last() =~= Seq::<char>::empty());
        assert(t.last() == c);
        assert(utf8_len(Seq::<char>::empty()) == 0);
        assert(s =~= Seq::<char>::empty());
        assert(utf8_len(t) == utf8_len(t.drop_last()) + char_utf8_len(t.last()));
    } else {
        lemma_utf8_len_prepend(c, s.drop_last());
        assert(t.drop_last() =~= seq![c] + s.drop_last());
        assert(t.last() == s.last());
        assert(utf8_len(t) == utf8_len(t.drop_last()) + char_utf8_len(t.last()));
        assert(utf8_len(s) == utf8_len(s.drop_last()) + char_utf8_len(s.last()));
    }
}

/// The byte length that `str::len` reports is `utf8_len` of the characters.
pub proof fn lemma_encode_utf8_len(s: Seq<char>)
    ensures
        vstd::utf8::encode_utf8(s).len() == utf8_len(s),
    decreases s.len(),
{
    if s.len() > 0 {
        lemma_encode_utf8_len(s.drop_first());
        lemma_utf8_len_prepend(s[0], s.drop_first());
        assert(seq![s[0]] + s.drop_first() =~= s);
        let u = s[0] as u32;
        vstd::utf8::char_is_scalar(s[0]);
        assert(vstd::utf8::encode_scalar(u).len() == char_utf8_len(s[0]));
    }
}

pub proof fn lemma_utf8_len_ge_len(s: Seq<char>)
    ensures
        utf8_len(s) >= s.len(),
    decreases s.len(),
{
    if s.len() > 0 {
        lemma_utf8_len_ge_len(s.drop_last());
    }
}

pub proof fn lemma_utf8_len_ascii(s: Seq<char>)
    requires
        all_ascii(s),
    ensures
        utf8_len(s) == s.len(),
    decreases s.len(),
{
    if s.len() > 0 {
        lemma_utf8_len_ascii(s.drop_last());
    }
}

pub proof fn lemma_utf8_len_concat(a: Seq<char>, b: Seq<char>)
    ensures
        utf8_len(a + b) == utf8_len(a) + utf8_len(b),
    decreases b.len(),
{
    if b.len() == 0 {
        assert(a + b =~= a);
    } else {
        lemma_utf8_len_concat(a, b.drop_last());
        assert((a + b).drop_last() =~= a + b.drop_last());
    }
}

/// No character takes more than four bytes.
pub proof fn lemma_utf8_len_le_4len(s: Seq<char>)
    ensures
        utf8_len(s) <= 4 * s.len(),
    decreases s.len(),
{
    if s.len() > 0 {
        lemma_utf8_len_le_4len(s.drop_last());
    }
}

/// Prefixes of a character sequence have strictly growing UTF-8 lengths.
pub proof fn lemma_utf8_len_take_lt(s: Seq<char>, i: int, j: int)
    requires
        0 <= i < j <= s.len(),
    ensures
        utf8_len(s.take(i)) < utf8_len(s.take(j)),
{
    let mid = s.subrange(i, j);
    assert(s.take(j) =~= s.take(i) + mid);
    lemma_utf8_len_concat(s.take(i), mid);
    lemma_utf8_len_ge_len(mid);
}

/// A byte offset is reached by at most one prefix of characters.
pub proof fn lemma_utf8_len_take_inj(s: Seq<char>, i: int, j: int)
    requires
        0 <= i <= s.len(),
        0 <= j <= s.len(),
        utf8_len(s.take(i)) == utf8_len(s.take(j)),
    ensures
        i == j,
{
    if i < j {
        lemma_utf8_len_take_lt(s, i, j);
    } else if j < i {
        lemma_utf8_len_take_lt(s, j, i);
    }
}

/// Whether byte offset `k` falls between two characters of `s`.
pub open spec fn byte_boundary(s: Seq<char>, k: int) -> bool {
    exists|i: int| 0 <= i <= s.len() && utf8_len(s.take(i)) == k
}

/// The number of characters that make up the first `k` bytes of `s`.
pub open spec fn char_index_of_byte(s: Seq<char>, k: int) -> int {
    choose|i: int| 0 <= i <= s.len() && utf8_len(s.take(i)) == k
}

/// In ASCII text byte offsets and character indices agree.
pub proof fn lemma_char_index_of_byte_ascii(s: Seq<char>, k: int)
    requires
        all_ascii(s),
        0 <= k <= s.len(),
    ensures
        char_index_of_byte(s, k) == k,
{
    assert(all_ascii(s.take(k)));
    lemma_utf8_len_ascii(s.take(k));
    let i = char_index_of_byte(s, k);
    assert(all_ascii(s.take(i)));
    lemma_utf8_len_ascii(s.take(i));
}

// ───────────────────────────── Conversions ─────────────────────────────

/// The characters of a string slice, in order.
pub fn chars_of(s: &str) -> (v: Vec<char>)
    ensures
        v@ == s@,
{
    let mut v: Vec<char> = Vec::new();
    for c in it: s.chars()
        invariant
            v@ == it.seq().take(it.index() as int),
            it.seq() == s@,
    {
        v.push(c);
    }
    v
}

/// Appends one character to a string (`String::push`).
#[verifier::external_body]
pub(crate) fn push_char(s: &mut String, c: char)
    ensures
        final(s)@ == old(s)@.push(c),
{
    s.push(c);
}

/// Appends a string slice to a string (`String::push_str`).
pub fn push_str(s: &mut String, t: &str)
    ensures
        final(s)@ == old(s)@ + t@,
{
    s.append(t);
}

/// A string holding the given characters.
pub fn string_from_chars(v: &[char]) -> (s: String)
    ensures
        s@ == v@,
{
    let mut s = String::new();
    let n = v.len();
    for i in 0..n
        invariant
            n == v@.len(),
            s@ == v@.take(i as int),
    {
        push_char(&mut s, v[i]);
        assert(v@.take(i + 1) =~= v@.take(i as int).push(v@[i as int]));
    }
    assert(v@.take(n as int) =~= v@);
    s
}

/// An owned copy of a string slice.
pub fn owned(s: &str) -> (r: String)
    ensures
        r@ == s@,
{
    s.to_owned()
}

/// A copy of a string.
pub fn copy_string(s: &String) -> (r: String)
    ensures
        r@ == s@,
{
    s.clone()
}

/// Copies of all strings of a vector.
pub fn copy_strings(v: &Vec<String>) -> (r: Vec<String>)
    ensures
        views(r@) == views(v@),
        r@.len() == v@.len(),
{
    let mut r: Vec<String> = Vec::new();
    for i in 0..v.len()
        invariant
            r@.len() == i,
            forall|j: int| 0 <= j < i ==> r@[j]@ == v@[j]@,
    {
        r.push(v[i].clone());
    }
    assert(views(r@) =~= views(v@));
    r
}

/// Concatenation of two string slices.
pub fn concat2(a: &str, b: &str) -> (r: String)
    ensures
        r@ == a@ + b@,
{
    let mut r = owned(a);
    push_str(&mut r, b);
    r
}

/// Concatenation of three string slices.
pub fn concat3(a: &str, b: &str, c: &str) -> (r: String)
    ensures
        r@ == a@ + b@ + c@,
{
    let mut r = owned(a);
    push_str(&mut r, b);
    push_str(&mut r, c);
    r
}

/// Byte length of a string slice (`str::len`), as the UTF-8 length of its characters.
pub fn byte_len(s: &str) -> (n: usize)
    ensures
        n == utf8_len(s@),
{
    proof {
        lemma_encode_utf8_len(s@);
    }
    let b = s.as_bytes();
    b.len()
}

/// Number of UTF-8 bytes of one character (`char::len_utf8`).
pub fn char_len_utf8(c: char) -> (n: usize)
    ensures
        n == char_utf8_len(c),
{
    let u = c as u32;
    if u < 0x80 {
        1
    } else if u < 0x800 {
        2
    } else if u < 0x10000 {
        3
    } else {
        4
    }
}

/// The character index at which byte offset `k` of `s` falls, if it falls
/// between two characters.
pub fn char_index_at_byte(s: &[char], k: usize) -> (r: Option<usize>)
    ensures
        match r {
            Some(i) => i <= s@.len() && utf8_len(s@.take(i as int)) == k && i == char_index_of_byte(
                s@,
                k as int,
            ),
            None => !byte_boundary(s@, k as int),
        },
{
    let n = s.len();
    let mut i: usize = 0;
    let mut b: usize = 0;
    while i < n && b < k
        invariant
            i <= n,
            n == s@.len(),
            b == utf8_len(s@.take(i as int)),
            b <= k,
        decreases n - i,
    {
        proof {
            lemma_utf8_len_take(s@, i as int);
        }
        let c = char_len_utf8(s[i]);
        if c > k - b {
            proof {
                assert(utf8_len(s@.take(i + 1)) > k);
                assert forall|j: int| 0 <= j <= s@.len() implies utf8_len(s@.take(j)) != k by {
                    if j <= i {
                        if j < i {
                            lemma_utf8_len_take_lt(s@, j, i as int);
                        }
                    } else {
                        if j > i + 1 {
                            lemma_utf8_len_take_lt(s@, i + 1, j);
                        }
                    }
                }
            }
            return None;
        }
        b = b + c;
        i = i + 1;
    }
    if b == k {
        proof {
            assert(byte_boundary(s@, k as int));
            let w = char_index_of_byte(s@, k as int);
            lemma_utf8_len_take_inj(s@, w, i as int);
        }
        Some(i)
    } else {
        proof {
            assert(s@.take(n as int) =~= s@);
            assert forall|j: int| 0 <= j <= s@.len() implies utf8_len(s@.take(j)) != k by {
                if j < i {
                    lemma_utf8_len_take_lt(s@, j, i as int);
                }
            }
        }
        None
    }
}

/// The most characters of `s` whose UTF-8 encoding fits in `k` bytes
/// (`str::floor_char_boundary`, counted in characters).
pub open spec fn floor_char_count(s: Seq<char>, k: int) -> int {
    choose|i: int|
        0 <= i <= s.len() && utf8_len(#[trigger] s.take(i)) <= k && (i == s.len() || utf8_len(
            s.take(i),
        ) + char_utf8_len(s[i]) > k)
}

proof fn lemma_floor_char_count_from(s: Seq<char>, k: int, i: int)
    requires
        0 <= i <= s.len(),
        utf8_len(s.take(i)) <= k,
    ensures
        exists|j: int|
            0 <= j <= s.len() && utf8_len(#[trigger] s.take(j)) <= k && (j == s.len() || utf8_len(s.take(j))
                + char_utf8_len(s[j]) > k),
    decreases s.len() - i,
{
    if i == s.len() || utf8_len(s.take(i)) + char_utf8_len(s[i]) > k {
        assert(utf8_len(s.take(i)) <= k);
    } else {
        lemma_utf8_len_take(s, i);
        lemma_floor_char_count_from(s, k, i + 1);
    }
}

/// The characters that fit in `k >= 0` bytes are a prefix that does fit.
pub proof fn lemma_floor_char_count(s: Seq<char>, k: int)
    requires
        k >= 0,
    ensures
        0 <= floor_char_count(s, k) <= s.len(),
        utf8_len(s.take(floor_char_count(s, k))) <= k,
{
    assert(s.take(0) =~= Seq::<char>::empty());
    lemma_floor_char_count_from(s, k, 0);
}

/// The number of characters that fit in `k` bytes.
pub fn floor_char_index(s: &[char], k: usize) -> (r: usize)
    ensures
        r <= s@.len(),
        r == floor_char_count(s@, k as int),
        utf8_len(s@.take(r as int)) <= k,
{
    let n = s.len();
    let mut i: usize = 0;
    let mut b: usize = 0;
    let mut full = false;
    while i < n && !full
        invariant
            i <= n,
            n == s@.len(),
            b == utf8_len(s@.take(i as int)),
            b <= k,
            full ==> i < n && utf8_len(s@.take(i + 1)) > k,
        decreases n - i + (if full { 0int } else { 1int }),
    {
        proof {
            lemma_utf8_len_take(s@, i as int);
        }
        let c = char_len_utf8(s[i]);
        if c > k - b {
            full = true;
        } else {
            b = b + c;
            i = i + 1;
        }
    }
    proof {
        if i < n {
            lemma_utf8_len_take(s@, i as int);
        }
        assert(0 <= i <= s@.len() && utf8_len(s@.take(i as int)) <= k && (i == s@.len() || utf8_len(
            s@.take(i as int),
        ) + char_utf8_len(s@[i as int]) > k));
        let w = floor_char_count(s@, k as int);
        if w < s@.len() {
            lemma_utf8_len_take(s@, w);
        }
        if w < i {
            if w + 1 < i {
                lemma_utf8_len_take_lt(s@, w + 1, i as int);
            }
        } else if i < w {
            if i + 1 < w {
                lemma_utf8_len_take_lt(s@, i + 1, w);
            }
        }
    }
    i
}

/// Number of characters of a string slice.
pub fn char_count(s: &str) -> (n: usize)
    ensures
        n == s@.len(),
{
    let v = chars_of(s);
    v.len()
}

// ───────────────────────────── Comparisons ─────────────────────────────

/// Equality of two character slices.
pub fn chars_eq(a: &[char], b: &[char]) -> (r: bool)
    ensures
        r == (a@ == b@),
{
    if a.len() != b.len() {
        return false;
    }
    let n = a.len();
    for i in 0..n
        invariant
            n == a@.len(),
            n == b@.len(),
            forall|j: int| 0 <= j < i ==> a@[j] == b@[j],
    {
        if a[i] != b[i] {
            return false;
        }
    }
    assert(a@ =~= b@);
    true
}

/// Equality of two string slices.
pub fn str_eq(a: &str, b: &str) -> (r: bool)
    ensures
        r == (a@ == b@),
{
    let va = chars_of(a);
    let vb = chars_of(b);
    chars_eq(va.as_slice(), vb.as_slice())
}

/// `p` occurs in `s` at index `i`.
pub fn occurs_at_exec(s: &[char], p: &[char], i: usize) -> (r: bool)
    ensures
        r == occurs_at(s@, p@, i as int),
{
    if i > s.len() || p.len() > s.len() - i {
        return false;
    }
    let m = p.len();
    for k in 0..m
        invariant
            m == p@.len(),
            s@.len() == s.len(),
            i + m <= s@.len(),
            forall|j: int| 0 <= j < k ==> s@[i + j] == p@[j],
    {
        if s[i + k] != p[k] {
            assert(s@.subrange(i as int, i + m)[k as int] != p@[k as int]);
            return false;
        }
    }
    assert(s@.subrange(i as int, i + m) =~= p@);
    true
}

/// `s` starts with `p`.
pub fn starts_with_chars(s: &[char], p: &[char]) -> (r: bool)
    ensures
        r == has_prefix(s@, p@),
{
    occurs_at_exec(s, p, 0)
}

/// `s` ends with `p`.
pub fn ends_with_chars(s: &[char], p: &[char]) -> (r: bool)
    ensures
        r == has_suffix(s@, p@),
{
    if p.len() > s.len() {
        return false;
    }
    occurs_at_exec(s, p, s.len() - p.len())
}

/// Index of the first occurrence of `p` in `s`, searching from `from`.
pub fn find_from(s: &[char], p: &[char], from: usize) -> (r: Option<usize>)
    ensures
        match r {
            Some(i) => from <= i && occurs_at(s@, p@, i as int) && forall|j: int|
                from <= j < i ==> !occurs_at(s@, p@, j),
            None => forall|j: int| from <= j ==> !occurs_at(s@, p@, j),
        },
{
    if p.len() > s.len() || from > s.len() - p.len() {
        return None;
    }
    let last = s.len() - p.len();
    let mut i = from;
    loop
        invariant
            from <= i <= last,
            last == s@.len() - p@.len(),
            forall|j: int| from <= j < i ==> !occurs_at(s@, p@, j),
        decreases last - i,
    {
        if occurs_at_exec(s, p, i) {
            return Some(i);
        }
        if i == last {
            return None;
        }
        i = i + 1;
    }
}

/// `s` contains `p`.
pub fn contains_chars(s: &[char], p: &[char]) -> (r: bool)
    ensures
        r == contains_seq(s@, p@),
{
    match find_from(s, p, 0) {
        Some(i) => true,
        None => {
            assert(forall|j: int| !occurs_at(s@, p@, j));
            false
        },
    }
}

/// `s` contains the character `c`.
pub fn has_char_exec(s: &[char], c: char) -> (r: bool)
    ensures
        r == has_char(s@, c),
{
    for i in 0..s.len()
        invariant
            forall|j: int| 0 <= j < i ==> s@[j] != c,
    {
        if s[i] == c {
            return true;
        }
    }
    false
}

/// `s` starts with `p` (`str::starts_with`).
pub fn str_starts_with(s: &str, p: &str) -> (r: bool)
    ensures
        r == has_prefix(s@, p@),
{
    let vs = chars_of(s);
    let vp = chars_of(p);
    starts_with_chars(vs.as_slice(), vp.as_slice())
}

/// `s` ends with `p` (`str::ends_with`).
pub fn str_ends_with(s: &str, p: &str) -> (r: bool)
    ensures
        r == has_suffix(s@, p@),
{
    let vs = chars_of(s);
    let vp = chars_of(p);
    ends_with_chars(vs.as_slice(), vp.as_slice())
}

/// `s` contains `p` (`str::contains`).
pub fn str_contains(s: &str, p: &str) -> (r: bool)
    ensures
        r == contains_seq(s@, p@),
{
    let vs = chars_of(s);
    let vp = chars_of(p);
    contains_chars(vs.as_slice(), vp.as_slice())
}

// ───────────────────────────── Character classes ─────────────────────────────

/// `char::is_whitespace`.
pub fn is_whitespace(c: char) -> (r: bool)
    ensures
        r == is_ws(c),
{
    let u = c as u32;
    (0x9 <= u && u <= 0xD) || u == 0x20 || u == 0x85 || u == 0xA0 || u == 0x1680 || (0x2000 <= u
        && u <= 0x200A) || u == 0x2028 || u == 0x2029 || u == 0x202F || u == 0x205F || u == 0x3000
}

/// `char::is_ascii_alphabetic`.
pub fn is_ascii_alphabetic(c: char) -> (r: bool)
    ensures
        r == is_ascii_alpha(c),
{
    ('A' <= c && c <= 'Z') || ('a' <= c && c <= 'z')
}

/// `char::is_ascii_alphanumeric`.
pub fn is_ascii_alphanumeric(c: char) -> (r: bool)
    ensures
        r == is_ascii_alnum(c),
{
    ('A' <= c && c <= 'Z') || ('a' <= c && c <= 'z') || ('0' <= c && c <= '9')
}

/// `char::to_ascii_lowercase`.
pub fn to_ascii_lowercase_char(c: char) -> (r: char)
    ensures
        r == ascii_lower_char(c),
{
    if 'A' <= c && c <= 'Z' {
        let u = (c as u32) + 32;
        assert(0x61 <= u <= 0x7A);
        proof {
            vstd::utf8::char_u32_cast(c, c as u32);
        }
        let r = char_from_ascii(u);
        r
    } else {
        c
    }
}

/// A character from an ASCII code (`char::from_u32` on values below 0x80).
pub fn char_from_ascii(u: u32) -> (c: char)
    requires
        u < 0x80,
    ensures
        c == u as char,
        c as u32 == u,
{
    let b: u8 = u as u8;
    let c = b as char;
    c
}

/// `str::to_ascii_lowercase` on characters.
pub fn ascii_lowercase_chars(s: &[char]) -> (r: Vec<char>)
    ensures
        r@ == ascii_lower(s@),
{
    let mut r: Vec<char> = Vec::new();
    for i in 0..s.len()
        invariant
            r@ =~= ascii_lower(s@).take(i as int),
    {
        r.push(to_ascii_lowercase_char(s[i]));
    }
    r
}

// ───────────────────────────── Trimming and splitting ─────────────────────────────

proof fn lemma_trim_start_skip(s: Seq<char>, i: int)
    requires
        0 <= i < s.len(),
        is_ws(s[i]),
    ensures
        trim_start(s.skip(i)) == trim_start(s.skip(i + 1)),
{
    assert(s.skip(i).drop_first() =~= s.skip(i + 1));
}

proof fn lemma_trim_end_sub(s: Seq<char>, a: int, b: int)
    requires
        0 <= a < b <= s.len(),
        is_ws(s[b - 1]),
    ensures
        trim_end(s.subrange(a, b)) == trim_end(s.subrange(a, b - 1)),
{
    assert(s.subrange(a, b).drop_last() =~= s.subrange(a, b - 1));
}

/// Bounds `(a, b)` such that `trim(s) == s[a..b]`.
pub fn trim_bounds(s: &[char]) -> (r: (usize, usize))
    ensures
        r.0 <= r.1 <= s@.len(),
        trim(s@) == s@.subrange(r.0 as int, r.1 as int),
        trim_start(s@) == s@.subrange(r.0 as int, s@.len() as int),
{
    let n = s.len();
    let mut i: usize = 0;
    assert(s@.skip(0) =~= s@);
    while i < n && is_whitespace(s[i])
        invariant
            0 <= i <= n,
            n == s@.len(),
            trim_start(s@) == trim_start(s@.skip(i as int)),
        decreases n - i,
    {
        proof {
            lemma_trim_start_skip(s@, i as int);
        }
        i = i + 1;
    }
    assert(trim_start(s@.skip(i as int)) == s@.skip(i as int));
    assert(s@.skip(i as int) =~= s@.subrange(i as int, n as int));
    let mut j: usize = n;
    while j > i && is_whitespace(s[j - 1])
        invariant
            i <= j <= n,
            n == s@.len(),
            trim_end(s@.subrange(i as int, n as int)) == trim_end(s@.subrange(i as int, j as int)),
        decreases j,
    {
        proof {
            lemma_trim_end_sub(s@, i as int, j as int);
        }
        j = j - 1;
    }
    assert(trim_end(s@.subrange(i as int, j as int)) == s@.subrange(i as int, j as int));
    (i, j)
}

/// `str::trim_end` on characters.
pub fn trim_end_chars(s: &[char]) -> (r: Vec<char>)
    ensures
        r@ == trim_end(s@),
{
    let mut j = s.len();
    assert(s@.take(j as int) =~= s@);
    while j > 0 && is_whitespace(s[j - 1])
        invariant
            j <= s@.len(),
            trim_end(s@.take(j as int)) == trim_end(s@),
        decreases j,
    {
        assert(s@.take(j as int).drop_last() =~= s@.take(j - 1));
        j = j - 1;
    }
    let r = slice_chars(s, 0, j);
    assert(r@ =~= s@.take(j as int));
    r
}

/// Leading copies of `c` removed (`str::trim_start_matches`).
pub open spec fn trim_start_char(s: Seq<char>, c: char) -> Seq<char>
    decreases s.len(),
{
    if s.len() > 0 && s[0] == c {
        trim_start_char(s.drop_first(), c)
    } else {
        s
    }
}

/// Trailing copies of `c` removed (`str::trim_end_matches`).
pub open spec fn trim_end_char(s: Seq<char>, c: char) -> Seq<char>
    decreases s.len(),
{
    if s.len() > 0 && s.last() == c {
        trim_end_char(s.drop_last(), c)
    } else {
        s
    }
}

/// Leading copies of `a`, then trailing copies of `b`, removed.
pub open spec fn trim_chars_spec(s: Seq<char>, a: char, b: char) -> Seq<char> {
    trim_end_char(trim_start_char(s, a), b)
}

/// `s.trim_start_matches(a).trim_end_matches(b)` on characters.
pub fn trim_char_pair(s: &[char], a: char, b: char) -> (r: Vec<char>)
    ensures
        r@ == trim_chars_spec(s@, a, b),
{
    let n = s.len();
    let mut i: usize = 0;
    assert(s@.skip(0) =~= s@);
    while i < n && s[i] == a
        invariant
            i <= n,
            n == s@.len(),
            trim_start_char(s@, a) == trim_start_char(s@.skip(i as int), a),
        decreases n - i,
    {
        assert(s@.skip(i as int).drop_first() =~= s@.skip(i + 1));
        i = i + 1;
    }
    assert(s@.skip(i as int) =~= s@.subrange(i as int, n as int));
    let mut j: usize = n;
    while j > i && s[j - 1] == b
        invariant
            i <= j <= n,
            n == s@.len(),
            trim_end_char(s@.subrange(i as int, n as int), b) == trim_end_char(
                s@.subrange(i as int, j as int),
                b,
            ),
        decreases j,
    {
        assert(s@.subrange(i as int, j as int).drop_last() =~= s@.subrange(i as int, j - 1));
        j = j - 1;
    }
    slice_chars(s, i, j)
}

/// A copy of `s[a..b]`.
pub fn slice_chars(s: &[char], a: usize, b: usize) -> (r: Vec<char>)
    requires
        a <= b <= s@.len(),
    ensures
        r@ == s@.subrange(a as int, b as int),
{
    let mut r: Vec<char> = Vec::new();
    for k in a..b
        invariant
            b <= s@.len(),
            r@ =~= s@.subrange(a as int, k as int),
    {
        r.push(s[k]);
    }
    r
}

/// `str::trim` on characters.
pub fn trim_chars(s: &[char]) -> (r: Vec<char>)
    ensures
        r@ == trim(s@),
{
    let (a, b) = trim_bounds(s);
    slice_chars(s, a, b)
}

/// `str::trim`.
pub fn trim_str(s: &str) -> (r: String)
    ensures
        r@ == trim(s@),
{
    let v = chars_of(s);
    let t = trim_chars(v.as_slice());
    string_from_chars(t.as_slice())
}

/// `str::split_whitespace` on characters.
pub fn split_whitespace_chars(s: &[char]) -> (r: Vec<Vec<char>>)
    ensures
        char_views(r@) == words(s@),
{
    let mut out: Vec<Vec<char>> = Vec::new();
    let mut cur: Vec<char> = Vec::new();
    let n = s.len();
    assert(s@.skip(0) =~= s@);
    for i in 0..n
        invariant
            n == s@.len(),
            char_views(out@) + words_acc(s@.skip(i as int), cur@) == words(s@),
    {
        let c = s[i];
        let ghost rest = s@.skip(i as int);
        let ghost old_cur = cur@;
        assert(rest[0] == c);
        assert(rest.drop_first() =~= s@.skip(i + 1));
        if is_whitespace(c) {
            if cur.len() == 0 {
                assert(old_cur =~= Seq::<char>::empty());
                assert(words_acc(rest, old_cur) == words_acc(s@.skip(i + 1), seq![]));
            }
            if cur.len() > 0 {
                assert(words_acc(rest, old_cur) == seq![old_cur] + words_acc(s@.skip(i + 1), seq![]));
                let ghost old_out = char_views(out@);
                let ghost old_cur = cur@;
                out.push(cur);
                cur = Vec::new();
                assert(char_views(out@) =~= old_out + seq![old_cur]);
                assert(old_out + (seq![old_cur] + words_acc(s@.skip(i + 1), seq![])) =~= old_out
                    + seq![old_cur] + words_acc(s@.skip(i + 1), seq![]));
            }
        } else {
            assert(words_acc(rest, old_cur) == words_acc(s@.skip(i + 1), old_cur.push(c)));
            cur.push(c);
        }
    }
    let ghost before = char_views(out@);
    assert(s@.skip(n as int) =~= Seq::<char>::empty());
    if cur.len() > 0 {
        let ghost c = cur@;
        out.push(cur);
        assert(char_views(out@) =~= before + seq![c]);
    } else {
        assert(before + Seq::<Seq<char>>::empty() =~= before);
    }
    out
}

/// The first whitespace-separated word of `s`, if any.
pub fn first_word(s: &[char]) -> (r: Option<Vec<char>>)
    ensures
        match r {
            Some(w) => words(s@).len() > 0 && w@ == words(s@)[0],
            None => words(s@).len() == 0,
        },
{
    let mut ws = split_whitespace_chars(s);
    if ws.len() == 0 {
        None
    } else {
        assert(char_views(ws@)[0] == ws@[0]@);
        Some(ws.swap_remove(0))
    }
}

/// `str::lines` on characters.
pub fn lines_chars(s: &[char]) -> (r: Vec<Vec<char>>)
    ensures
        char_views(r@) == lines(s@),
{
    let mut out: Vec<Vec<char>> = Vec::new();
    let mut cur: Vec<char> = Vec::new();
    let n = s.len();
    assert(s@.skip(0) =~= s@);
    for i in 0..n
        invariant
            n == s@.len(),
            char_views(out@) + lines_acc(s@.skip(i as int), cur@) == lines(s@),
    {
        let c = s[i];
        assert(s@.skip(i as int)[0] == c);
        assert(s@.skip(i as int).drop_first() =~= s@.skip(i + 1));
        if c == '\n' {
            let ghost old_out = char_views(out@);
            let ghost line = strip_cr(cur@);
            if cur.len() > 0 && cur[cur.len() - 1] == '\r' {
                cur.pop();
            }
            assert(cur@ == line);
            out.push(cur);
            cur = Vec::new();
            assert(char_views(out@) =~= old_out + seq![line]);
            assert(old_out + (seq![line] + lines_acc(s@.skip(i + 1), seq![])) =~= old_out
                + seq![line] + lines_acc(s@.skip(i + 1), seq![]));
        } else {
            cur.push(c);
        }
    }
    let ghost before = char_views(out@);
    assert(s@.skip(n as int) =~= Seq::<char>::empty());
    if cur.len() > 0 {
        let ghost c = cur@;
        out.push(cur);
        assert(char_views(out@) =~= before + seq![c]);
    } else {
        assert(before + Seq::<Seq<char>>::empty() =~= before);
    }
    out
}

// ───────────────────────────── Joining ─────────────────────────────

/// The parts joined with `sep` (`[String]::join`).
pub fn join_strings(parts: &Vec<String>, sep: &str) -> (r: String)
    ensures
        r@ == seq_join(views(parts@), sep@),
{
    let mut r = String::new();
    let n = parts.len();
    for i in 0..n
        invariant
            n == parts@.len(),
            r@ == seq_join(views(parts@).take(i as int), sep@),
    {
        let ghost prev = views(parts@).take(i as int);
        let ghost next = views(parts@).take(i + 1);
        assert(next.drop_last() =~= prev);
        assert(next.last() == parts@[i as int]@);
        if i > 0 {
            push_str(&mut r, sep);
        } else {
            assert(prev.len() == 0);
        }
        push_str(&mut r, parts[i].as_str());
        if i == 0 {
            assert(r@ =~= next[0]);
        }
    }
    assert(views(parts@).take(n as int) =~= views(parts@));
    r
}

/// Strings of the given character vectors.
pub fn strings_of(v: &Vec<Vec<char>>) -> (r: Vec<String>)
    ensures
        views(r@) == char_views(v@),
{
    let mut r: Vec<String> = Vec::new();
    for i in 0..v.len()
        invariant
            r@.len() == i,
            forall|j: int| 0 <= j < i ==> r@[j]@ == v@[j]@,
    {
        r.push(string_from_chars(v[i].as_slice()));
    }
    assert(views(r@) =~= char_views(v@));
    r
}

// ───────────────────────────── Numbers ─────────────────────────────

/// Decimal notation of an unsigned integer (`u64` as `Display` writes it).
pub fn u64_to_string(n: u64) -> (s: String)
    ensures
        s@ == decimal(n as nat),
{
    // digits collected least significant first
    let mut rev: Vec<char> = Vec::new();
    let mut m = n;
    let ghost mut suffix: Seq<char> = seq![];
    // invariant: decimal(n) == decimal(m) + suffix, once m < 10 handled
    while m >= 10
        invariant
            decimal(n as nat) == decimal(m as nat) + suffix,
            rev@ == suffix.reverse(),
        decreases m,
    {
        let d = m % 10;
        let c = char_from_ascii((('0' as u32) + (d as u32)));
        proof {
            let old_suffix = suffix;
            suffix = seq![c] + old_suffix;
            assert(decimal(m as nat) == decimal((m / 10) as nat).push(digit_char((m % 10) as nat)));
            assert(decimal((m / 10) as nat).push(c) + old_suffix =~= decimal((m / 10) as nat)
                + suffix);
            assert(suffix.reverse() =~= old_suffix.reverse().push(c));
        }
        rev.push(c);
        m = m / 10;
    }
    let c0 = char_from_ascii((('0' as u32) + (m as u32)));
    proof {
        let old_suffix = suffix;
        suffix = seq![c0] + old_suffix;
        assert(suffix.reverse() =~= old_suffix.reverse().push(c0));
        assert(decimal(n as nat) =~= suffix);
    }
    rev.push(c0);
    let mut s = String::new();
    let mut k = rev.len();
    while k > 0
        invariant
            k <= rev@.len(),
            rev@ == suffix.reverse(),
            s@ =~= suffix.take(rev@.len() - k),
        decreases k,
    {
        k = k - 1;
        push_char(&mut s, rev[k]);
        assert(suffix.take(rev@.len() - k) =~= suffix.take(rev@.len() - k - 1).push(
            suffix[rev@.len() - k - 1],
        ));
    }
    assert(suffix.take(rev@.len() as int) =~= suffix);
    s
}

/// Decimal notation of a `usize`.
pub fn usize_to_string(n: usize) -> (s: String)
    ensures
        s@ == decimal(n as nat),
{
    u64_to_string(n as u64)
}

/// Decimal notation of an integer, with a leading `-` when negative.
pub open spec fn signed_decimal(i: int) -> Seq<char> {
    if i < 0 {
        "-"@ + decimal((-i) as nat)
    } else {
        decimal(i as nat)
    }
}

/// Decimal notation of an `i32` (as `Display` writes it).
pub fn i32_to_string(i: i32) -> (s: String)
    ensures
        s@ == signed_decimal(i as int),
{
    if i < 0 {
        let m: u64 = (-(i as i64)) as u64;
        let mut s = owned("-");
        let d = u64_to_string(m);
        push_str(&mut s, d.as_str());
        s
    } else {
        u64_to_string(i as u64)
    }
}

// ───────────────────────────── Unicode lowercase ─────────────────────────────

/// Name for what `str::to_lowercase` returns on a character sequence.
pub uninterp spec fn unicode_lower(s: Seq<char>) -> Seq<char>;

/// Text lowercased as `str::to_lowercase` does it: letter by letter for ASCII
/// text, by the Unicode mapping otherwise.
pub open spec fn lower_text(s: Seq<char>) -> Seq<char> {
    if all_ascii(s) {
        ascii_lower(s)
    } else {
        unicode_lower(s)
    }
}

/// `str::to_lowercase`. Unicode lowercase mapping of every character; the
/// contract names the result, and states the documented fact that ASCII text is
/// mapped character by character to ASCII lowercase. What it does to other
/// characters is left to the name.
#[verifier::external_body]
pub(crate) fn to_lowercase(s: &str) -> (r: String)
    ensures
        r@ == unicode_lower(s@),
        all_ascii(s@) ==> r@ == ascii_lower(s@),
        r@ == lower_text(s@),
{
    s.to_lowercase()
}


// ───────────────────────────── Integer parsing ─────────────────────────────

pub open spec fn all_digits(s: Seq<char>) -> bool {
    forall|i: int| 0 <= i < s.len() ==> is_ascii_digit(s[i])
}

/// Value of a string of decimal digits.
pub open spec fn digits_value(s: Seq<char>) -> nat
    decreases s.len(),
{
    if s.len() == 0 {
        0
    } else {
        digits_value(s.drop_last()) * 10 + ((s.last() as u32) - ('0' as u32)) as nat
    }
}

/// Unsigned integer parsing (`str::parse` for unsigned types whose largest value
/// is `max`): an optional `+`, then one or more decimal digits, value at most `max`.
pub open spec fn parse_unsigned(s: Seq<char>, max: nat) -> Option<nat> {
    let body = if s.len() > 0 && s[0] == '+' { s.drop_first() } else { s };
    if body.len() > 0 && all_digits(body) && digits_value(body) <= max {
        Some(digits_value(body))
    } else {
        None
    }
}

/// Signed 64-bit parsing (`str::parse::<i64>`): an optional sign, then one or more
/// decimal digits, value within the range of `i64`.
pub open spec fn parse_i64_spec(s: Seq<char>) -> Option<int> {
    if s.len() > 0 && s[0] == '-' {
        let body = s.drop_first();
        if body.len() > 0 && all_digits(body) && digits_value(body) <= 0x8000_0000_0000_0000 {
            Some(-(digits_value(body) as int))
        } else {
            None
        }
    } else {
        match parse_unsigned(s, 0x7fff_ffff_ffff_ffff) {
            Some(v) => Some(v as int),
            None => None,
        }
    }
}

proof fn lemma_digits_value_step(s: Seq<char>, i: int)
    requires
        0 <= i < s.len(),
    ensures
        digits_value(s.take(i + 1)) == digits_value(s.take(i)) * 10 + ((s[i] as u32) - ('0' as u32)) as nat,
{
    assert(s.take(i + 1).drop_last() =~= s.take(i));
}

proof fn lemma_digits_value_mono(s: Seq<char>, i: int)
    requires
        0 <= i <= s.len(),
        all_digits(s),
    ensures
        digits_value(s.take(i)) <= digits_value(s),
    decreases s.len() - i,
{
    if i < s.len() {
        lemma_digits_value_step(s, i);
        lemma_digits_value_mono(s, i + 1);
    } else {
        assert(s.take(i) =~= s);
    }
}

/// Value of `body` when it is one or more digits with value at most `max`.
pub fn parse_digits(body: &[char], max: u64) -> (r: Option<u64>)
    ensures
        match r {
            Some(v) => body@.len() > 0 && all_digits(body@) && digits_value(body@) <= max
                && v == digits_value(body@),
            None => !(body@.len() > 0 && all_digits(body@) && digits_value(body@) <= max),
        },
{
    let n = body.len();
    if n == 0 {
        return None;
    }
    let mut acc: u64 = 0;
    for i in 0..n
        invariant
            n == body@.len(),
            acc <= max,
            acc == digits_value(body@.take(i as int)),
            all_digits(body@.take(i as int)),
    {
        let c = body[i];
        proof {
            lemma_digits_value_step(body@, i as int);
        }
        if !('0' <= c && c <= '9') {
            assert(!all_digits(body@));
            return None;
        }
        let d = (c as u32 - '0' as u32) as u64;
        if d > max || acc > (max - d) / 10 {
            proof {
                assert(acc * 10 + d > max) by (nonlinear_arith)
                    requires
                        d > max || acc > (max - d) / 10,
                        d <= 9,
                ;
                if all_digits(body@) {
                    lemma_digits_value_mono(body@, i + 1);
                }
            }
            return None;
        }
        proof {
            assert(acc * 10 + d <= max) by (nonlinear_arith)
                requires
                    acc <= (max - d) / 10,
                    d <= max,
            ;
        }
        acc = acc * 10 + d;
        assert(all_digits(body@.take(i + 1))) by {
            assert forall|j: int| 0 <= j < i + 1 implies #[trigger] is_ascii_digit(body@.take(i + 1)[j]) by {
                if j < i {
                    assert(body@.take(i + 1)[j] == body@.take(i as int)[j]);
                }
            }
        }
    }
    assert(body@.take(n as int) =~= body@);
    Some(acc)
}

/// `str::parse::<i64>` on characters: an optional sign, then one or more
/// decimal digits, value within the range of `i64`.
pub fn parse_i64(s: &[char]) -> (r: Option<i64>)
    ensures
        match r {
            Some(v) => parse_i64_spec(s@) == Some(v as int),
            None => parse_i64_spec(s@) is None,
        },
{
    let n = s.len();
    if n > 0 && s[0] == '-' {
        let body = slice_chars(s, 1, n);
        assert(body@ =~= s@.drop_first());
        match parse_digits(body.as_slice(), 0x8000_0000_0000_0000) {
            Some(v) => {
                if v == 0x8000_0000_0000_0000 {
                    Some(i64::MIN)
                } else {
                    Some(-(v as i64))
                }
            },
            None => None,
        }
    } else {
        let body = if n > 0 && s[0] == '+' {
            slice_chars(s, 1, n)
        } else {
            slice_chars(s, 0, n)
        };
        assert(body@ =~= (if s@.len() > 0 && s@[0] == '+' { s@.drop_first() } else { s@ }));
        match parse_digits(body.as_slice(), 0x7fff_ffff_ffff_ffff) {
            Some(v) => Some(v as i64),
            None => None,
        }
    }
}

/// `v` holds a string equal to `s`.
pub fn contains_string(v: &Vec<String>, s: &str) -> (r: bool)
    ensures
        r == views(v@).contains(s@),
{
    for i in 0..v.len()
        invariant
            forall|j: int| 0 <= j < i ==> v@[j]@ != s@,
    {
        if str_eq(v[i].as_str(), s) {
            assert(views(v@)[i as int] == s@);
            return true;
        }
    }
    assert forall|j: int| 0 <= j < views(v@).len() implies views(v@)[j] != s@ by {}
    false
}

} // verus!
