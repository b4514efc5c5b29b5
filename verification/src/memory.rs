//! The memory files of a workspace: `MEMORY.md` for long-term notes and
//! `memory/YYYY-MM-DD.md` for daily notes; where they live, what is written to
//! them, which files are daily notes, and the memory context built from them.
use vstd::prelude::*;
use crate::text::{byte_len, chars_of, concat2, copy_string, owned, push_str, seq_join, str_ends_with, string_from_chars, slice_chars, has_suffix, utf8_len, views, join_strings};

verus! {

/// A calendar date: year, month, day.
pub type Ymd = (i32, u32, u32);

/// Characters of `MEMORY.md` put into the memory context.
pub const LONG_TERM_CONTEXT_CHARS: usize = 2000;

/// Daily notes put into the memory context.
pub const RECENT_DAILY_DAYS: usize = 3;

/// The memory files under a workspace directory.
pub struct MemoryFileStore {
    pub workspace: String,
}

impl MemoryFileStore {
    pub fn new(workspace: &str) -> (r: Self)
        ensures
            r.workspace@ == workspace@,
    {
        MemoryFileStore { workspace: owned(workspace) }
    }

    /// `MEMORY.md` in the workspace.
    pub fn long_term_path(&self) -> (r: String)
        ensures
            r@ == self.workspace@ + "/MEMORY.md"@,
    {
        concat2(self.workspace.as_str(), "/MEMORY.md")
    }

    /// The directory of the daily notes.
    pub fn daily_dir(&self) -> (r: String)
        ensures
            r@ == self.workspace@ + "/memory"@,
    {
        concat2(self.workspace.as_str(), "/memory")
    }

    /// The daily note of `date`.
    pub fn daily_path(&self, date: Ymd) -> (r: String)
        ensures
            r@ == self.workspace@ + "/memory/"@ + date_label(date) + ".md"@,
    {
        let t = date_label_text(date);
        let mut p = concat2(self.workspace.as_str(), "/memory/");
        push_str(&mut p, t.as_str());
        push_str(&mut p, ".md");
        p
    }
}

/// The first line of a new daily note for `date`.
pub fn daily_header(date: Ymd) -> (r: String)
    ensures
        r@ == "# "@ + date_label(date) + "\n\n"@,
{
    let t = date_label_text(date);
    let mut h = concat2("# ", t.as_str());
    push_str(&mut h, "\n\n");
    h
}

/// What appending `content` to a daily note adds.
pub fn daily_entry(content: &str) -> (r: String)
    ensures
        r@ == "\n"@ + content@ + "\n"@,
{
    let mut e = concat2("\n", content);
    push_str(&mut e, "\n");
    e
}

/// A file name that can be a daily note: 13 bytes ending in `.md`.
pub open spec fn daily_name_shape(name: Seq<char>) -> bool {
    has_suffix(name, ".md"@) && utf8_len(name) == 13
}

/// The date a text names, as `chrono::NaiveDate::parse_from_str` with
/// `%Y-%m-%d` reads it.
pub uninterp spec fn parsed_ymd(s: Seq<char>) -> Option<Ymd>;

/// `chrono::NaiveDate::parse_from_str(s, "%Y-%m-%d")`, as year, month and day;
/// `None` when it does not parse. The date is named by `parsed_ymd`.
#[verifier::external_body]
fn parse_ymd(s: &str) -> (r: Option<Ymd>)
    ensures
        r == parsed_ymd(s@),
{
    match chrono::NaiveDate::parse_from_str(s, "%Y-%m-%d") {
        Ok(d) => Some((chrono::Datelike::year(&d), chrono::Datelike::month(&d), chrono::Datelike::day(&d))),
        Err(_) => None,
    }
}

/// The text of a date as `chrono` writes it with `%Y-%m-%d`; `None` for a
/// date that does not exist.
pub uninterp spec fn ymd_text(y: i32, m: u32, d: u32) -> Option<Seq<char>>;

/// `chrono::NaiveDate::from_ymd_opt` then `format("%Y-%m-%d")`; the text is
/// named by `ymd_text`.
#[verifier::external_body]
fn format_ymd(date: Ymd) -> (r: Option<String>)
    ensures
        match r {
            Some(t) => ymd_text(date.0, date.1, date.2) == Some(t@),
            None => ymd_text(date.0, date.1, date.2) is None,
        },
{
    match chrono::NaiveDate::from_ymd_opt(date.0, date.1, date.2) {
        Some(d) => Some(d.format("%Y-%m-%d").to_string()),
        None => None,
    }
}

/// How a date is written in file names and headings: `%Y-%m-%d`, empty for a
/// date that does not exist.
pub open spec fn date_label(date: Ymd) -> Seq<char> {
    match ymd_text(date.0, date.1, date.2) {
        Some(t) => t,
        None => Seq::empty(),
    }
}

fn date_label_text(date: Ymd) -> (r: String)
    ensures
        r@ == date_label(date),
{
    match format_ymd(date) {
        Some(t) => t,
        None => String::new(),
    }
}

/// `a` is on or before `b`.
pub open spec fn ymd_le(a: Ymd, b: Ymd) -> bool {
    a.0 < b.0 || (a.0 == b.0 && (a.1 < b.1 || (a.1 == b.1 && a.2 <= b.2)))
}

/// The date of a daily-note file name: its first ten characters parsed.
pub open spec fn daily_date(name: Seq<char>) -> Option<Ymd> {
    if daily_name_shape(name) {
        parsed_ymd(name.take(name.len() - 3))
    } else {
        None
    }
}

/// The daily notes among file names, with their dates, in listing order.
pub open spec fn daily_candidates(names: Seq<Seq<char>>) -> Seq<(Ymd, Seq<char>)>
    decreases names.len(),
{
    if names.len() == 0 {
        seq![]
    } else {
        daily_candidates(names.drop_last()) + match daily_date(names.last()) {
            Some(d) => seq![(d, names.last())],
            None => seq![],
        }
    }
}

/// Newest first.
pub open spec fn newest_first(s: Seq<(Ymd, String)>) -> bool {
    forall|i: int, j: int| 0 <= i < j < s.len() ==> ymd_le((#[trigger] s[j]).0, (#[trigger] s[i]).0)
}

/// The views of dated names.
pub open spec fn dated_views(s: Seq<(Ymd, String)>) -> Seq<(Ymd, Seq<char>)> {
    s.map_values(|e: (Ymd, String)| (e.0, e.1@))
}

fn ymd_le_exec(a: Ymd, b: Ymd) -> (r: bool)
    ensures
        r == ymd_le(a, b),
{
    a.0 < b.0 || (a.0 == b.0 && (a.1 < b.1 || (a.1 == b.1 && a.2 <= b.2)))
}

/// The date of a file name, if it is a daily note.
fn daily_date_of(name: &str) -> (r: Option<Ymd>)
    ensures
        r == daily_date(name@),
{
    if !str_ends_with(name, ".md") || byte_len(name) != 13 {
        return None;
    }
    let cs = chars_of(name);
    proof {
        reveal_strlit(".md");
    }
    let stem = string_from_chars(slice_chars(cs.as_slice(), 0, cs.len() - 3).as_slice());
    assert(stem@ =~= name@.take(name@.len() - 3));
    parse_ymd(stem.as_str())
}

/// The daily notes among the files of the notes directory, newest first: the
/// names of 13 bytes ending in `.md` whose first ten characters parse as a
/// date.
pub fn daily_files(names: &Vec<String>) -> (r: Vec<(Ymd, String)>)
    ensures
        newest_first(r@),
        dated_views(r@).to_multiset() == daily_candidates(views(names@)).to_multiset(),
{
    let mut out: Vec<(Ymd, String)> = Vec::new();
    let n = names.len();
    assert(views(names@).take(0) =~= Seq::<Seq<char>>::empty());
    assert(dated_views(out@) =~= daily_candidates(views(names@).take(0)));
    for i in 0..n
        invariant
            n == names@.len(),
            newest_first(out@),
            dated_views(out@).to_multiset() == daily_candidates(views(names@).take(i as int)).to_multiset(),
    {
        let ghost t = views(names@).take(i + 1);
        assert(t.drop_last() =~= views(names@).take(i as int));
        assert(t.last() == names@[i as int]@);
        let ghost before = daily_candidates(views(names@).take(i as int));
        match daily_date_of(names[i].as_str()) {
            Some(d) => {
                let ghost o = out@;
                let mut k: usize = 0;
                while k < out.len() && ymd_le_exec(d, out[k].0)
                    invariant
                        k <= out@.len(),
                        out@ == o,
                        newest_first(o),
                        forall|m: int| 0 <= m < k ==> ymd_le(d, (#[trigger] o[m]).0),
                    decreases out@.len() - k,
                {
                    k = k + 1;
                }
                let entry = (d, copy_string(&names[i]));
                let ghost ev = (d, entry.1@);
                out.insert(k, entry);
                proof {
                    let s = out@;
                    assert(s =~= o.insert(k as int, entry));
                    assert forall|a: int, b: int| 0 <= a < b < s.len() implies ymd_le((#[trigger] s[b]).0, (#[trigger] s[a]).0) by {
                        if b < k {
                        } else if b == k {
                            assert(ymd_le(d, o[a].0));
                        } else if a < k {
                            assert(ymd_le(d, o[a].0));
                            if k < o.len() {
                                assert(!ymd_le(d, o[k as int].0));
                                assert(ymd_le(o[b - 1].0, o[k as int].0) || b - 1 == k);
                            }
                        } else if a == k {
                            if k < o.len() {
                                assert(!ymd_le(d, o[k as int].0));
                                assert(b - 1 == k || ymd_le(o[b - 1].0, o[k as int].0));
                            }
                        } else {
                        }
                    }
                    assert(dated_views(s) =~= dated_views(o).insert(k as int, ev));
                    vstd::seq_lib::to_multiset_insert(dated_views(o), k as int, ev);
                    vstd::seq_lib::to_multiset_build(before, ev);
                    assert(ev == (d, names@[i as int]@));
                    assert(daily_candidates(t) =~= before.push(ev));
                }
            },
            None => {
                assert(daily_candidates(t) =~= before);
            },
        }
    }
    assert(views(names@).take(n as int) =~= views(names@));
    out
}

/// The daily notes that go into the memory context: the newest three.
pub fn recent_daily(files: Vec<(Ymd, String)>) -> (r: Vec<(Ymd, String)>)
    ensures
        r@ == files@.take(if files@.len() < RECENT_DAILY_DAYS { files@.len() as int } else { RECENT_DAILY_DAYS as int }),
{
    let mut files = files;
    if files.len() > RECENT_DAILY_DAYS {
        files.truncate(RECENT_DAILY_DAYS);
    }
    assert(files@ =~= files@.take(files@.len() as int));
    files
}

/// The sections of the memory context: a heading, the start of `MEMORY.md`,
/// then each daily note under its date.
pub open spec fn memory_sections(long_term: Seq<char>, recent: Seq<(Seq<char>, Seq<char>)>) -> Seq<Seq<char>>
    decreases recent.len(),
{
    if recent.len() == 0 {
        seq![
            "[Memory Context]"@,
            Seq::empty(),
            "From MEMORY.md:"@,
            long_term.take(if long_term.len() < 2000 { long_term.len() as int } else { 2000 }),
        ]
    } else {
        let (date, content) = recent.last();
        memory_sections(long_term, recent.drop_last()) + seq![Seq::empty(), "From memory/"@ + date + ".md:"@, content]
    }
}

/// The memory context: `MEMORY.md` (its first 2000 characters) and the recent
/// daily notes (date and content), one section after the other.
pub fn build_memory_context(long_term: &str, recent: &Vec<(Ymd, String)>) -> (r: String)
    ensures
        r@ == seq_join(memory_sections(long_term@, recent@.map_values(|e: (Ymd, String)| (date_label(e.0), e.1@))), "\n"@),
{
    let cs = chars_of(long_term);
    let keep = if cs.len() < LONG_TERM_CONTEXT_CHARS { cs.len() } else { LONG_TERM_CONTEXT_CHARS };
    let head = string_from_chars(slice_chars(cs.as_slice(), 0, keep).as_slice());
    let mut sections: Vec<String> = Vec::new();
    sections.push(owned("[Memory Context]"));
    sections.push(String::new());
    sections.push(owned("From MEMORY.md:"));
    sections.push(head);
    let ghost rv = recent@.map_values(|e: (Ymd, String)| (date_label(e.0), e.1@));
    assert(views(sections@) =~= memory_sections(long_term@, rv.take(0)));
    let n = recent.len();
    for i in 0..n
        invariant
            n == recent@.len(),
            rv == recent@.map_values(|e: (Ymd, String)| (date_label(e.0), e.1@)),
            views(sections@) == memory_sections(long_term@, rv.take(i as int)),
    {
        let ghost t = rv.take(i + 1);
        assert(t.drop_last() =~= rv.take(i as int));
        assert(t.last() == (date_label(recent@[i as int].0), recent@[i as int].1@));
        let ghost before = views(sections@);
        sections.push(String::new());
        let label = date_label_text(recent[i].0);
        let mut title = owned("From memory/");
        push_str(&mut title, label.as_str());
        push_str(&mut title, ".md:");
        sections.push(title);
        sections.push(copy_string(&recent[i].1));
        assert(views(sections@) =~= before + seq![
            Seq::<char>::empty(),
            "From memory/"@ + date_label(recent@[i as int].0) + ".md:"@,
            recent@[i as int].1@,
        ]);
    }
    assert(rv.take(n as int) =~= rv);
    join_strings(&sections, "\n")
}

} // verus!
