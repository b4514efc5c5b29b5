//! Which language to answer in: explicit requests, detection of Chinese and
//! English text, and remembered preferences per user.
use vstd::prelude::*;
use crate::text::{trim, trim_start, words, lines, seq_join, has_prefix, contains_seq, ascii_lower, is_ascii_alpha, chars_of, trim_chars, split_whitespace_chars, lines_chars, starts_with_chars, contains_chars, str_contains, ascii_lowercase_chars, is_ascii_alphabetic, char_views, views, trim_bounds, slice_chars, string_from_chars, join_strings, owned, push_str, copy_string, str_eq};
use crate::session::{SessionMessage, session_views};

verus! {

/// Language of a text or of the wanted reply.
#[derive(Debug, Clone, Copy, PartialEq, Eq, Structural)]
pub enum ResponseLanguage {
    Chinese,
    English,
}

impl ResponseLanguage {
    /// Language code: `zh` or `en`.
    pub fn as_str(self) -> (r: &'static str)
        ensures
            r@ == (match self {
                ResponseLanguage::Chinese => "zh"@,
                ResponseLanguage::English => "en"@,
            }),
    {
        match self {
            ResponseLanguage::Chinese => "zh",
            ResponseLanguage::English => "en",
        }
    }

    /// Language name: `Chinese` or `English`.
    pub fn display_name(self) -> (r: &'static str)
        ensures
            r@ == display(self),
    {
        match self {
            ResponseLanguage::Chinese => "Chinese",
            ResponseLanguage::English => "English",
        }
    }
}

pub open spec fn display(l: ResponseLanguage) -> Seq<char> {
    match l {
        ResponseLanguage::Chinese => "Chinese"@,
        ResponseLanguage::English => "English"@,
    }
}

// ───────────────────────────── Explicit requests ─────────────────────────────

/// The text asks for replies in Chinese.
pub open spec fn asks_chinese(text: Seq<char>) -> bool {
    let lower = ascii_lower(text);
    contains_seq(text, "用中文"@) || contains_seq(text, "说中文"@) || contains_seq(text, "中文回复"@)
        || contains_seq(text, "回复中文"@) || contains_seq(lower, "reply in chinese"@)
        || contains_seq(lower, "respond in chinese"@) || contains_seq(lower, "speak chinese"@)
        || contains_seq(lower, "in chinese"@)
}

/// The text asks for replies in English.
pub open spec fn asks_english(text: Seq<char>) -> bool {
    let lower = ascii_lower(text);
    contains_seq(text, "用英文"@) || contains_seq(text, "说英文"@) || contains_seq(text, "英文回复"@)
        || contains_seq(text, "回复英文"@) || contains_seq(lower, "reply in english"@)
        || contains_seq(lower, "respond in english"@) || contains_seq(lower, "speak english"@)
        || contains_seq(lower, "in english"@)
}

/// An explicit request for one language (asking for both is no request).
pub open spec fn explicit_preference(text: Seq<char>) -> Option<ResponseLanguage> {
    if asks_chinese(text) && !asks_english(text) {
        Some(ResponseLanguage::Chinese)
    } else if asks_english(text) && !asks_chinese(text) {
        Some(ResponseLanguage::English)
    } else {
        None
    }
}

fn contains_any4(text: &str, a: &str, b: &str, c: &str, d: &str) -> (r: bool)
    ensures
        r == (contains_seq(text@, a@) || contains_seq(text@, b@) || contains_seq(text@, c@)
            || contains_seq(text@, d@)),
{
    str_contains(text, a) || str_contains(text, b) || str_contains(text, c) || str_contains(text, d)
}

/// The language the text explicitly asks for, if it asks for exactly one.
pub fn detect_explicit_language_preference(text: &str) -> (r: Option<ResponseLanguage>)
    ensures
        r == explicit_preference(text@),
{
    let cs = chars_of(text);
    let lower_chars = ascii_lowercase_chars(cs.as_slice());
    let lower_s = string_from_chars(lower_chars.as_slice());
    let lower = lower_s.as_str();
    let wants_chinese = contains_any4(text, "用中文", "说中文", "中文回复", "回复中文")
        || contains_any4(lower, "reply in chinese", "respond in chinese", "speak chinese", "in chinese");
    let wants_english = contains_any4(text, "用英文", "说英文", "英文回复", "回复英文")
        || contains_any4(lower, "reply in english", "respond in english", "speak english", "in english");
    if wants_chinese && !wants_english {
        Some(ResponseLanguage::Chinese)
    } else if wants_english && !wants_chinese {
        Some(ResponseLanguage::English)
    } else {
        None
    }
}

// ───────────────────────────── Detection ─────────────────────────────

/// A CJK ideograph (the unified blocks and their extensions A to E, and the
/// compatibility block).
pub open spec fn is_cjk(c: char) -> bool {
    let u = c as u32;
    (0x3400 <= u <= 0x4DBF) || (0x4E00 <= u <= 0x9FFF) || (0xF900 <= u <= 0xFAFF) || (0x20000
        <= u <= 0x2A6DF) || (0x2A700 <= u <= 0x2B73F) || (0x2B740 <= u <= 0x2B81F) || (0x2B820
        <= u <= 0x2CEAF)
}

/// Whether a character is a CJK ideograph.
pub fn is_cjk_char(ch: char) -> (r: bool)
    ensures
        r == is_cjk(ch),
{
    let u = ch as u32;
    (0x3400 <= u && u <= 0x4DBF) || (0x4E00 <= u && u <= 0x9FFF) || (0xF900 <= u && u <= 0xFAFF)
        || (0x20000 <= u && u <= 0x2A6DF) || (0x2A700 <= u && u <= 0x2B73F) || (0x2B740 <= u && u
        <= 0x2B81F) || (0x2B820 <= u && u <= 0x2CEAF)
}

/// Number of ASCII letters.
pub open spec fn alpha_count(s: Seq<char>) -> nat
    decreases s.len(),
{
    if s.len() == 0 {
        0
    } else {
        alpha_count(s.drop_last()) + if is_ascii_alpha(s.last()) {
            1nat
        } else {
            0nat
        }
    }
}

/// Every character is an ASCII letter.
pub open spec fn all_alpha(w: Seq<char>) -> bool {
    forall|i: int| 0 <= i < w.len() ==> is_ascii_alpha(#[trigger] w[i])
}

/// Number of words made of ASCII letters only.
pub open spec fn alpha_word_count(ws: Seq<Seq<char>>) -> nat
    decreases ws.len(),
{
    if ws.len() == 0 {
        0
    } else {
        alpha_word_count(ws.drop_last()) + if all_alpha(ws.last()) {
            1nat
        } else {
            0nat
        }
    }
}

/// The language of a text: Chinese when it holds a CJK ideograph, English when
/// it has six ASCII letters or two words of ASCII letters, otherwise none (also
/// for a blank text).
pub open spec fn detected_language(text: Seq<char>) -> Option<ResponseLanguage> {
    let t = trim(text);
    if t.len() == 0 {
        None
    } else if exists|i: int| 0 <= i < t.len() && is_cjk(#[trigger] t[i]) {
        Some(ResponseLanguage::Chinese)
    } else if alpha_count(t) >= 6 || alpha_word_count(words(t)) >= 2 {
        Some(ResponseLanguage::English)
    } else {
        None
    }
}

/// A text holding a CJK ideograph is Chinese, whatever ASCII words it also
/// holds.
pub proof fn law_cjk_text_is_chinese(text: Seq<char>, i: int)
    requires
        0 <= i < text.len(),
        is_cjk(text[i]),
    ensures
        detected_language(text) == Some(ResponseLanguage::Chinese),
{
    crate::text::lemma_trim_keeps(text, i);
    let t = trim(text);
    let j = choose|j: int| 0 <= j < t.len() && t[j] == text[i];
    assert(is_cjk(t[j]));
}

/// A text is taken for Chinese only when it holds a CJK ideograph.
pub proof fn law_chinese_needs_cjk(text: Seq<char>)
    requires
        detected_language(text) == Some(ResponseLanguage::Chinese),
    ensures
        exists|i: int| 0 <= i < text.len() && is_cjk(#[trigger] text[i]),
{
    crate::text::lemma_trim_within(text);
    let t = trim(text);
    let j = choose|j: int| 0 <= j < t.len() && is_cjk(#[trigger] t[j]);
    assert(exists|i: int| 0 <= i < text.len() && text[i] == t[j]);
}

fn word_is_alpha(w: &Vec<char>) -> (r: bool)
    ensures
        r == all_alpha(w@),
{
    for i in 0..w.len()
        invariant
            forall|k: int| 0 <= k < i ==> is_ascii_alpha(#[trigger] w@[k]),
    {
        if !is_ascii_alphabetic(w[i]) {
            return false;
        }
    }
    true
}

/// The language a text is written in, when it can be told.
pub fn detect_text_language(text: &str) -> (r: Option<ResponseLanguage>)
    ensures
        r == detected_language(text@),
{
    let cs = chars_of(text);
    let t = trim_chars(cs.as_slice());
    if t.len() == 0 {
        return None;
    }
    let n = t.len();
    let mut cjk = false;
    let mut letters: usize = 0;
    for i in 0..n
        invariant
            n == t@.len(),
            t@ == trim(text@),
            cjk == (exists|k: int| 0 <= k < i && is_cjk(#[trigger] t@[k])),
            letters == alpha_count(t@.take(i as int)),
            letters <= i,
    {
        assert(t@.take(i + 1).drop_last() =~= t@.take(i as int));
        if is_cjk_char(t[i]) {
            cjk = true;
        }
        if is_ascii_alphabetic(t[i]) {
            letters = letters + 1;
        }
    }
    assert(t@.take(n as int) =~= t@);
    if cjk {
        return Some(ResponseLanguage::Chinese);
    }
    let ws = split_whitespace_chars(t.as_slice());
    let mut alpha_words: usize = 0;
    for j in 0..ws.len()
        invariant
            char_views(ws@) == words(t@),
            alpha_words == alpha_word_count(words(t@).take(j as int)),
            alpha_words <= j,
    {
        assert(words(t@).take(j + 1).drop_last() =~= words(t@).take(j as int));
        assert(ws@[j as int]@ == words(t@)[j as int]);
        if word_is_alpha(&ws[j]) {
            alpha_words = alpha_words + 1;
        }
    }
    assert(words(t@).take(ws@.len() as int) =~= words(t@));
    if letters >= 6 || alpha_words >= 2 {
        Some(ResponseLanguage::English)
    } else {
        None
    }
}

/// The language of the latest user message whose language can be told.
pub open spec fn recent_user_language(hs: Seq<(Seq<char>, Seq<char>)>) -> Option<ResponseLanguage>
    decreases hs.len(),
{
    if hs.len() == 0 {
        None
    } else if hs.last().0 == "user"@ && detected_language(hs.last().1) is Some {
        detected_language(hs.last().1)
    } else {
        recent_user_language(hs.drop_last())
    }
}

/// The language of the latest user message in the history whose language can
/// be told.
pub fn detect_recent_user_language(history_messages: &[SessionMessage]) -> (r: Option<ResponseLanguage>)
    ensures
        r == recent_user_language(session_views(history_messages@)),
{
    let ghost hs = session_views(history_messages@);
    let mut i = history_messages.len();
    assert(hs.take(i as int) =~= hs);
    while i > 0
        invariant
            i <= history_messages@.len(),
            hs == session_views(history_messages@),
            recent_user_language(hs) == recent_user_language(hs.take(i as int)),
        decreases i,
    {
        let m = &history_messages[i - 1];
        assert(hs.take(i as int).drop_last() =~= hs.take(i - 1));
        assert(hs.take(i as int).last() == (m.role@, m.content@));
        if str_eq(m.role.as_str(), "user") {
            let d = detect_text_language(m.content.as_str());
            if d.is_some() {
                return d;
            }
        }
        i = i - 1;
    }
    None
}

// ───────────────────────────── Prompts and guard ─────────────────────────────

/// The system prompt section that sets the reply language.
pub open spec fn policy_prompt(l: ResponseLanguage) -> Seq<char> {
    "\n\n## Language Policy\nRespond in "@ + display(l)
        + " by default, matching the user's latest message language. Keep code blocks, file paths, command names, and URLs in their original form."@
}

/// The language policy section of the system prompt.
pub fn language_policy_prompt(target_language: ResponseLanguage) -> (r: String)
    ensures
        r@ == policy_prompt(target_language),
{
    let mut r = owned("\n\n## Language Policy\nRespond in ");
    push_str(&mut r, target_language.display_name());
    push_str(
        &mut r,
        " by default, matching the user's latest message language. Keep code blocks, file paths, command names, and URLs in their original form.",
    );
    r
}

/// Appends the language policy to a system prompt when a language is set.
pub fn apply_language_policy_prompt(system_prompt: &mut String, target_language: Option<ResponseLanguage>)
    ensures
        final(system_prompt)@ == (match target_language {
            Some(l) => old(system_prompt)@ + policy_prompt(l),
            None => old(system_prompt)@,
        }),
{
    if let Some(language) = target_language {
        let p = language_policy_prompt(language);
        push_str(system_prompt, p.as_str());
    }
}

/// A request for translation or bilingual text, where the reply language is
/// not checked.
pub open spec fn guard_exempt(text: Seq<char>) -> bool {
    let lower = ascii_lower(text);
    contains_seq(text, "翻译"@) || contains_seq(text, "双语"@) || contains_seq(text, "中英"@)
        || contains_seq(lower, "translate"@) || contains_seq(lower, "translation"@)
        || contains_seq(lower, "bilingual"@)
}

/// Whether the user asked for translation or bilingual text.
pub fn is_language_guard_exempt(user_text: &str) -> (r: bool)
    ensures
        r == guard_exempt(user_text@),
{
    let cs = chars_of(user_text);
    let lower_chars = ascii_lowercase_chars(cs.as_slice());
    let lower_s = string_from_chars(lower_chars.as_slice());
    let lower = lower_s.as_str();
    str_contains(user_text, "翻译") || str_contains(user_text, "双语") || str_contains(
        user_text,
        "中英",
    ) || str_contains(lower, "translate") || str_contains(lower, "translation") || str_contains(
        lower,
        "bilingual",
    )
}

/// A line with backticks turned into spaces.
pub open spec fn unticked(line: Seq<char>) -> Seq<char> {
    line.map_values(|c: char| if c == '`' { ' ' } else { c })
}

/// Lines outside code fences (a line opening with "```" after leading
/// whitespace toggles a fence and is dropped), with backticks turned into
/// spaces; and whether a fence is open after them.
pub open spec fn outside_fences(ls: Seq<Seq<char>>) -> (Seq<Seq<char>>, bool)
    decreases ls.len(),
{
    if ls.len() == 0 {
        (Seq::empty(), false)
    } else {
        let prev = outside_fences(ls.drop_last());
        let line = ls.last();
        if has_prefix(trim_start(line), "```"@) {
            (prev.0, !prev.1)
        } else if prev.1 {
            prev
        } else {
            (prev.0.push(unticked(line)), prev.1)
        }
    }
}

/// A token that is not a link.
pub open spec fn plain_token(t: Seq<char>) -> bool {
    !has_prefix(t, "http://"@) && !has_prefix(t, "https://"@) && !has_prefix(t, "www."@)
        && !contains_seq(t, "://"@)
}

pub open spec fn plain_tokens(ws: Seq<Seq<char>>) -> Seq<Seq<char>>
    decreases ws.len(),
{
    if ws.len() == 0 {
        Seq::empty()
    } else if plain_token(ws.last()) {
        plain_tokens(ws.drop_last()).push(ws.last())
    } else {
        plain_tokens(ws.drop_last())
    }
}

/// A reply reduced to its prose: code fences and links dropped, words joined by
/// single spaces.
pub open spec fn prose_of(text: Seq<char>) -> Seq<char> {
    seq_join(plain_tokens(words(seq_join(outside_fences(lines(text)).0, "\n"@))), " "@)
}

fn untick(line: &Vec<char>) -> (r: String)
    ensures
        r@ == unticked(line@),
{
    let mut out: Vec<char> = Vec::new();
    for i in 0..line.len()
        invariant
            out@ =~= unticked(line@.take(i as int)),
    {
        out.push(if line[i] == '`' { ' ' } else { line[i] });
    }
    assert(line@.take(line@.len() as int) =~= line@);
    string_from_chars(out.as_slice())
}

/// The prose of a reply, for telling its language.
pub fn normalize_text_for_language_detection(text: &str) -> (r: String)
    ensures
        r@ == prose_of(text@),
{
    let cs = chars_of(text);
    let ls = lines_chars(cs.as_slice());
    let ghost lv = lines(text@);
    let mut kept: Vec<String> = Vec::new();
    let mut in_code_fence = false;
    let fence: Vec<char> = chars_of("```");
    for i in 0..ls.len()
        invariant
            char_views(ls@) == lv,
            fence@ == "```"@,
            (views(kept@), in_code_fence) == outside_fences(lv.take(i as int)),
    {
        let line = &ls[i];
        assert(lv.take(i + 1).drop_last() =~= lv.take(i as int));
        assert(lv[i as int] == line@);
        let (a, _b) = trim_bounds(line.as_slice());
        let start = slice_chars(line.as_slice(), a, line.len());
        if starts_with_chars(start.as_slice(), fence.as_slice()) {
            in_code_fence = !in_code_fence;
        } else if !in_code_fence {
            let ghost before = views(kept@);
            kept.push(untick(line));
            assert(views(kept@) =~= before.push(unticked(line@)));
        }
    }
    assert(lv.take(ls@.len() as int) =~= lv);
    let joined = join_strings(&kept, "\n");
    let jc = chars_of(joined.as_str());
    let tokens = split_whitespace_chars(jc.as_slice());
    let ghost ws = words(jc@);
    let mut plain: Vec<String> = Vec::new();
    for j in 0..tokens.len()
        invariant
            char_views(tokens@) == ws,
            views(plain@) == plain_tokens(ws.take(j as int)),
    {
        let tok = &tokens[j];
        assert(ws.take(j + 1).drop_last() =~= ws.take(j as int));
        assert(ws[j as int] == tok@);
        let http = chars_of("http://");
        let https = chars_of("https://");
        let www = chars_of("www.");
        let sep = chars_of("://");
        if !starts_with_chars(tok.as_slice(), http.as_slice()) && !starts_with_chars(
            tok.as_slice(),
            https.as_slice(),
        ) && !starts_with_chars(tok.as_slice(), www.as_slice()) && !contains_chars(
            tok.as_slice(),
            sep.as_slice(),
        ) {
            let ghost before = views(plain@);
            plain.push(string_from_chars(tok.as_slice()));
            assert(views(plain@) =~= before.push(tok@));
        }
    }
    assert(ws.take(tokens@.len() as int) =~= ws);
    join_strings(&plain, " ")
}

/// The language a reply is written in, its code and links left aside.
pub fn detect_response_language(text: &str) -> (r: Option<ResponseLanguage>)
    ensures
        r == detected_language(prose_of(text@)),
{
    let normalized = normalize_text_for_language_detection(text);
    detect_text_language(normalized.as_str())
}

/// The language a reply was detected in when it differs from the wanted one;
/// `None` when the user asked for translation, no language is wanted, the
/// reply's language cannot be told, or it matches.
pub open spec fn guard_mismatch(user_text: Seq<char>, reply_text: Seq<char>, target_language: Option<ResponseLanguage>) -> Option<ResponseLanguage> {
    if guard_exempt(user_text) || target_language is None {
        None
    } else {
        match detected_language(prose_of(reply_text)) {
            Some(d) => if d == target_language.unwrap() {
                None
            } else {
                Some(d)
            },
            None => None,
        }
    }
}

/// Checks a reply against the wanted language.
pub fn language_guard_mismatch(user_text: &str, reply_text: &str, target_language: Option<ResponseLanguage>) -> (r: Option<ResponseLanguage>)
    ensures
        r == guard_mismatch(user_text@, reply_text@, target_language),
{
    if is_language_guard_exempt(user_text) {
        return None;
    }
    let target = match target_language {
        Some(t) => t,
        None => return None,
    };
    match detect_response_language(reply_text) {
        Some(d) => if d == target {
            None
        } else {
            Some(d)
        },
        None => None,
    }
}

// ───────────────────────────── Preferences ─────────────────────────────

/// Remembered reply language per user scope.
pub struct LanguagePrefs {
    pub entries: Vec<(String, ResponseLanguage)>,
}

impl LanguagePrefs {
    /// Each user scope appears once.
    pub open spec fn wf(&self) -> bool {
        forall|i: int, j: int|
            0 <= i < j < self.entries@.len() ==> #[trigger] self.entries@[i].0@
                != #[trigger] self.entries@[j].0@
    }

    /// The preferences as a map from user scope to language.
    pub open spec fn view_map(&self) -> Map<Seq<char>, ResponseLanguage> {
        Map::new(
            |k: Seq<char>| exists|i: int| 0 <= i < self.entries@.len() && self.entries@[i].0@ == k,
            |k: Seq<char>|
                self.entries@[choose|i: int|
                    0 <= i < self.entries@.len() && self.entries@[i].0@ == k].1,
        )
    }

    /// No preferences.
    pub fn new() -> (p: Self)
        ensures
            p.wf(),
            p.view_map() == Map::<Seq<char>, ResponseLanguage>::empty(),
    {
        let p = LanguagePrefs { entries: Vec::new() };
        assert(p.view_map() =~= Map::<Seq<char>, ResponseLanguage>::empty());
        p
    }

    fn find(&self, user_scope: &str) -> (r: Option<usize>)
        requires
            self.wf(),
        ensures
            match r {
                Some(i) => i < self.entries@.len() && self.entries@[i as int].0@ == user_scope@,
                None => !self.view_map().dom().contains(user_scope@),
            },
    {
        for i in 0..self.entries.len()
            invariant
                forall|k: int| 0 <= k < i ==> self.entries@[k].0@ != user_scope@,
        {
            if str_eq(self.entries[i].0.as_str(), user_scope) {
                return Some(i);
            }
        }
        None
    }

    /// The remembered language of a user scope.
    pub fn get(&self, user_scope: &str) -> (r: Option<ResponseLanguage>)
        requires
            self.wf(),
        ensures
            r == (if self.view_map().dom().contains(user_scope@) {
                Some(self.view_map()[user_scope@])
            } else {
                None
            }),
    {
        match self.find(user_scope) {
            Some(i) => {
                proof {
                    let w = choose|j: int|
                        0 <= j < self.entries@.len() && self.entries@[j].0@ == user_scope@;
                    if w != i {
                        if w < i {
                            assert(self.entries@[w].0@ != self.entries@[i as int].0@);
                        } else {
                            assert(self.entries@[i as int].0@ != self.entries@[w].0@);
                        }
                    }
                }
                Some(self.entries[i].1)
            },
            None => None,
        }
    }

    /// Remembers the language of a user scope.
    pub fn set(&mut self, user_scope: &str, language: ResponseLanguage)
        requires
            old(self).wf(),
        ensures
            final(self).wf(),
            final(self).view_map() == old(self).view_map().insert(user_scope@, language),
    {
        let ghost before = self.view_map();
        match self.find(user_scope) {
            Some(i) => {
                let key = copy_string(&self.entries[i].0);
                self.entries.set(i, (key, language));
                proof {
                    assert forall|a: int, b: int|
                        0 <= a < b < self.entries@.len() implies #[trigger] self.entries@[a].0@
                        != #[trigger] self.entries@[b].0@ by {
                        assert(old(self).entries@[a].0@ != old(self).entries@[b].0@);
                    }
                    assert forall|k: Seq<char>|
                        #[trigger] self.view_map().dom().contains(k) == before.insert(
                            user_scope@,
                            language,
                        ).dom().contains(k) by {
                        if before.dom().contains(k) {
                            let w = choose|j: int|
                                0 <= j < old(self).entries@.len() && old(self).entries@[j].0@ == k;
                            assert(self.entries@[w].0@ == k);
                        }
                        if self.view_map().dom().contains(k) {
                            let w = choose|j: int|
                                0 <= j < self.entries@.len() && self.entries@[j].0@ == k;
                            assert(old(self).entries@[w].0@ == k);
                        }
                    }
                    assert forall|k: Seq<char>|
                        #[trigger] self.view_map().dom().contains(k) implies self.view_map()[k]
                        == before.insert(user_scope@, language)[k] by {
                        let w = choose|j: int|
                            0 <= j < self.entries@.len() && self.entries@[j].0@ == k;
                        if k == user_scope@ {
                            if w != i {
                                if w < i {
                                    assert(self.entries@[w].0@ != self.entries@[i as int].0@);
                                } else {
                                    assert(self.entries@[i as int].0@ != self.entries@[w].0@);
                                }
                            }
                        } else {
                            assert(old(self).entries@[w].0@ == k);
                            let v = choose|j: int|
                                0 <= j < old(self).entries@.len() && old(self).entries@[j].0@ == k;
                            if v != w {
                                if v < w {
                                    assert(old(self).entries@[v].0@ != old(self).entries@[w].0@);
                                } else {
                                    assert(old(self).entries@[w].0@ != old(self).entries@[v].0@);
                                }
                            }
                        }
                    }
                    assert(self.view_map() =~= before.insert(user_scope@, language));
                }
            },
            None => {
                self.entries.push((owned(user_scope), language));
                proof {
                    let n = old(self).entries@.len();
                    assert forall|a: int, b: int|
                        0 <= a < b < self.entries@.len() implies #[trigger] self.entries@[a].0@
                        != #[trigger] self.entries@[b].0@ by {
                        if b < n {
                            assert(old(self).entries@[a].0@ != old(self).entries@[b].0@);
                        } else {
                            assert(!before.dom().contains(user_scope@));
                            if self.entries@[a].0@ == user_scope@ {
                                assert(old(self).entries@[a].0@ == user_scope@);
                                assert(before.dom().contains(user_scope@));
                            }
                        }
                    }
                    assert forall|k: Seq<char>|
                        #[trigger] self.view_map().dom().contains(k) == before.insert(
                            user_scope@,
                            language,
                        ).dom().contains(k) by {
                        if before.dom().contains(k) {
                            let w = choose|j: int|
                                0 <= j < old(self).entries@.len() && old(self).entries@[j].0@ == k;
                            assert(self.entries@[w].0@ == k);
                        }
                        if k == user_scope@ {
                            assert(self.entries@[n as int].0@ == k);
                        }
                        if self.view_map().dom().contains(k) && k != user_scope@ {
                            let w = choose|j: int|
                                0 <= j < self.entries@.len() && self.entries@[j].0@ == k;
                            assert(w < n);
                            assert(old(self).entries@[w].0@ == k);
                        }
                    }
                    assert forall|k: Seq<char>|
                        #[trigger] self.view_map().dom().contains(k) implies self.view_map()[k]
                        == before.insert(user_scope@, language)[k] by {
                        let w = choose|j: int|
                            0 <= j < self.entries@.len() && self.entries@[j].0@ == k;
                        if k == user_scope@ {
                            if w != n {
                                assert(self.entries@[w].0@ != self.entries@[n as int].0@);
                            }
                        } else {
                            assert(w < n);
                            let v = choose|j: int|
                                0 <= j < old(self).entries@.len() && old(self).entries@[j].0@ == k;
                            if v != w {
                                if v < w {
                                    assert(old(self).entries@[v].0@ != old(self).entries@[w].0@);
                                } else {
                                    assert(old(self).entries@[w].0@ != old(self).entries@[v].0@);
                                }
                            }
                        }
                    }
                    assert(self.view_map() =~= before.insert(user_scope@, language));
                }
            },
        }
    }

    /// The reply language for a message from `user_scope`: an explicit request,
    /// else the message's own language (either is remembered for the user), else
    /// the remembered language, else that of the latest user message in the
    /// history.
    pub fn resolve_target_language(&mut self, text: &str, user_scope: &str, history_messages: &[SessionMessage]) -> (r: Option<ResponseLanguage>)
        requires
            old(self).wf(),
        ensures
            final(self).wf(),
            match explicit_preference(text@) {
                Some(l) => r == Some(l) && final(self).view_map() == old(self).view_map().insert(
                    user_scope@,
                    l,
                ),
                None => match detected_language(text@) {
                    Some(l) => r == Some(l) && final(self).view_map() == old(
                        self,
                    ).view_map().insert(user_scope@, l),
                    None => final(self).view_map() == old(self).view_map() && r == (
                    if old(self).view_map().dom().contains(user_scope@) {
                        Some(old(self).view_map()[user_scope@])
                    } else {
                        recent_user_language(session_views(history_messages@))
                    }),
                },
            },
    {
        if let Some(explicit) = detect_explicit_language_preference(text) {
            self.set(user_scope, explicit);
            return Some(explicit);
        }
        if let Some(current) = detect_text_language(text) {
            self.set(user_scope, current);
            return Some(current);
        }
        match self.get(user_scope) {
            Some(l) => Some(l),
            None => detect_recent_user_language(history_messages),
        }
    }
}

} // verus!
