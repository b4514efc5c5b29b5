//! Session transcripts: the messages of a session and where its file lives.
use vstd::prelude::*;
use crate::text::{copy_string, owned, push_str, chars_of, string_from_chars, slice_chars, has_suffix, views};
use crate::clock::utc_now_millis;
use crate::ids::{new_uuid_string, is_hyphenated_uuid};

verus! {

/// A message recorded in a session.
pub struct SessionMessage {
    pub role: String,
    pub content: String,
    /// When it was recorded, milliseconds since the Unix epoch.
    pub timestamp_ms: Option<i64>,
}

/// Role and content of each message.
pub open spec fn session_views(ms: Seq<SessionMessage>) -> Seq<(Seq<char>, Seq<char>)> {
    ms.map_values(|m: SessionMessage| (m.role@, m.content@))
}

/// The last `limit` messages (all of them when there are fewer).
pub fn last_messages(messages: Vec<SessionMessage>, limit: usize) -> (r: Vec<SessionMessage>)
    ensures
        r@ == (if messages@.len() > limit {
            messages@.skip(messages@.len() - limit)
        } else {
            messages@
        }),
{
    if limit == 0 {
        return Vec::new();
    }
    let mut messages = messages;
    if messages.len() > limit {
        let start = messages.len() - limit;
        messages = messages.split_off(start);
    }
    messages
}

/// The directory of the session files of a workspace.
pub open spec fn sessions_dir_of(workspace: Seq<char>) -> Seq<char> {
    workspace + "/sessions"@
}

/// The file of a session.
pub open spec fn session_file(sessions_dir: Seq<char>, session_id: Seq<char>) -> Seq<char> {
    sessions_dir + "/"@ + session_id + ".jsonl"@
}

/// Writes session files under a workspace.
pub struct SessionWriter {
    pub sessions_dir: String,
}

/// Reads session files under a workspace.
pub struct SessionReader {
    pub sessions_dir: String,
}

fn sessions_dir(workspace: &str) -> (r: String)
    ensures
        r@ == sessions_dir_of(workspace@),
{
    let mut d = owned(workspace);
    push_str(&mut d, "/sessions");
    d
}

/// The path of a session file in a sessions directory.
pub fn session_path(sessions_dir: &str, session_id: &str) -> (r: String)
    ensures
        r@ == session_file(sessions_dir@, session_id@),
{
    let mut p = owned(sessions_dir);
    push_str(&mut p, "/");
    push_str(&mut p, session_id);
    push_str(&mut p, ".jsonl");
    p
}

impl SessionWriter {
    /// A writer for the sessions of a workspace.
    pub fn new(workspace: &str) -> (w: Self)
        ensures
            w.sessions_dir@ == sessions_dir_of(workspace@),
    {
        SessionWriter { sessions_dir: sessions_dir(workspace) }
    }

    /// The file of a session.
    pub fn session_path(&self, session_id: &str) -> (r: String)
        ensures
            r@ == session_file(self.sessions_dir@, session_id@),
    {
        session_path(self.sessions_dir.as_str(), session_id)
    }
}

impl SessionReader {
    /// A reader for the sessions of a workspace.
    pub fn new(workspace: &str) -> (r: Self)
        ensures
            r.sessions_dir@ == sessions_dir_of(workspace@),
    {
        SessionReader { sessions_dir: sessions_dir(workspace) }
    }

    /// The file of a session.
    pub fn session_path(&self, session_id: &str) -> (r: String)
        ensures
            r@ == session_file(self.sessions_dir@, session_id@),
    {
        session_path(self.sessions_dir.as_str(), session_id)
    }
}

// ───────────────────────────── Session entries ─────────────────────────────

/// A line of a session file. Times are milliseconds since the Unix epoch; tool
/// inputs and outputs are carried as JSON text.
pub enum SessionEntry {
    Session { version: u32, id: String, timestamp_ms: i64, agent_id: String },
    Message { id: String, timestamp_ms: i64, message: SessionMessage },
    ToolCall { id: String, timestamp_ms: i64, tool: String, input: String },
    ToolResult { id: String, timestamp_ms: i64, tool: String, output: String },
    Compaction { id: String, timestamp_ms: i64, summary: String, dropped_before: String },
    ModelChange { id: String, timestamp_ms: i64, model: String },
}

/// The first line of a session file, written now.
pub fn session_header(session_id: &str, agent_id: &str) -> (r: SessionEntry)
    ensures
        r matches SessionEntry::Session { version, id, agent_id: a, .. } && version == 1 && id@ == session_id@
            && a@ == agent_id@,
{
    SessionEntry::Session {
        version: 1,
        id: owned(session_id),
        timestamp_ms: utc_now_millis(),
        agent_id: owned(agent_id),
    }
}

/// A message line, with a fresh id, written now; the message itself carries
/// no time (the entry does).
pub fn message_entry(role: &str, content: &str) -> (r: SessionEntry)
    ensures
        r matches SessionEntry::Message { id, message, .. } && is_hyphenated_uuid(id@) && message.role@ == role@
            && message.content@ == content@ && message.timestamp_ms is None,
{
    SessionEntry::Message {
        id: new_uuid_string(),
        timestamp_ms: utc_now_millis(),
        message: SessionMessage { role: owned(role), content: owned(content), timestamp_ms: None },
    }
}

/// The messages among the entries, in order, each stamped with its entry's
/// time.
pub open spec fn entry_messages(es: Seq<SessionEntry>) -> Seq<(Seq<char>, Seq<char>, Option<i64>)>
    decreases es.len(),
{
    if es.len() == 0 {
        seq![]
    } else {
        entry_messages(es.drop_last()) + match es.last() {
            SessionEntry::Message { timestamp_ms, message, .. } => seq![
                (message.role@, message.content@, Some(timestamp_ms)),
            ],
            _ => seq![],
        }
    }
}

/// Role, content and time of each message.
pub open spec fn stamped_views(ms: Seq<SessionMessage>) -> Seq<(Seq<char>, Seq<char>, Option<i64>)> {
    ms.map_values(|m: SessionMessage| (m.role@, m.content@, m.timestamp_ms))
}

/// The last `limit` messages of a session's entries, oldest first, each with
/// its entry's time; none for a limit of zero.
pub fn recent_messages_of(entries: Vec<SessionEntry>, limit: usize) -> (r: Vec<SessionMessage>)
    ensures
        stamped_views(r@) == (if limit == 0 {
            Seq::empty()
        } else {
            let all = entry_messages(entries@);
            if all.len() > limit {
                all.skip(all.len() - limit)
            } else {
                all
            }
        }),
{
    if limit == 0 {
        let r: Vec<SessionMessage> = Vec::new();
        assert(stamped_views(r@) =~= Seq::empty());
        return r;
    }
    let mut messages: Vec<SessionMessage> = Vec::new();
    let n = entries.len();
    assert(entries@.take(0) =~= Seq::<SessionEntry>::empty());
    for i in 0..n
        invariant
            n == entries@.len(),
            stamped_views(messages@) == entry_messages(entries@.take(i as int)),
    {
        let ghost t = entries@.take(i + 1);
        assert(t.drop_last() =~= entries@.take(i as int));
        assert(t.last() == entries@[i as int]);
        let ghost before = stamped_views(messages@);
        match &entries[i] {
            SessionEntry::Message { timestamp_ms, message, .. } => {
                messages.push(
                    SessionMessage {
                        role: copy_string(&message.role),
                        content: copy_string(&message.content),
                        timestamp_ms: Some(*timestamp_ms),
                    },
                );
                assert(stamped_views(messages@) =~= before.push(
                    (message.role@, message.content@, Some(*timestamp_ms)),
                ));
            },
            _ => {
                assert(stamped_views(messages@) =~= before + Seq::<(Seq<char>, Seq<char>, Option<i64>)>::empty());
            },
        }
    }
    assert(entries@.take(n as int) =~= entries@);
    if messages.len() > limit {
        let start = messages.len() - limit;
        let tail = messages.split_off(start);
        assert(stamped_views(tail@) =~= stamped_views(messages@ + tail@).skip(start as int));
        tail
    } else {
        messages
    }
}

/// The session id a file name stands for: the name without `.jsonl`, for
/// names with that extension (a name that is only `.jsonl` has none).
pub open spec fn session_id_of(name: Seq<char>) -> Option<Seq<char>> {
    if has_suffix(name, ".jsonl"@) && name.len() > ".jsonl"@.len() {
        Some(name.take(name.len() - ".jsonl"@.len()))
    } else {
        None
    }
}

/// The session files among directory entries (name and modification time),
/// with their ids, in listing order.
pub open spec fn session_candidates(items: Seq<(String, i128)>) -> Seq<(Seq<char>, i128)>
    decreases items.len(),
{
    if items.len() == 0 {
        seq![]
    } else {
        session_candidates(items.drop_last()) + match session_id_of(items.last().0@) {
            Some(id) => seq![(id, items.last().1)],
            None => seq![],
        }
    }
}

/// Newest first, by modification time.
pub open spec fn newest_sessions_first(s: Seq<(Seq<char>, i128)>) -> bool {
    forall|i: int, j: int| 0 <= i < j < s.len() ==> (#[trigger] s[j]).1 <= (#[trigger] s[i]).1
}

fn session_id_from_name(name: &str) -> (r: Option<String>)
    ensures
        match session_id_of(name@) {
            Some(id) => r is Some && r.unwrap()@ == id,
            None => r is None,
        },
{
    let cs = chars_of(name);
    let ext = chars_of(".jsonl");
    if crate::text::ends_with_chars(cs.as_slice(), ext.as_slice()) && cs.len() > ext.len() {
        let stem = string_from_chars(slice_chars(cs.as_slice(), 0, cs.len() - ext.len()).as_slice());
        assert(stem@ =~= name@.take(name@.len() - ".jsonl"@.len()));
        Some(stem)
    } else {
        None
    }
}

/// The session ids of a directory's entries (file name and modification time,
/// nanoseconds from the epoch), newest first.
pub fn session_ids_newest_first(items: &Vec<(String, i128)>) -> (r: Vec<String>)
    ensures
        exists|sorted: Seq<(Seq<char>, i128)>|
            #[trigger] newest_sessions_first(sorted) && sorted.to_multiset() == session_candidates(items@).to_multiset()
                && views(r@) == sorted.map_values(|e: (Seq<char>, i128)| e.0),
{
    let mut out: Vec<(String, i128)> = Vec::new();
    let ghost mut sv: Seq<(Seq<char>, i128)> = Seq::empty();
    let n = items.len();
    assert(items@.take(0) =~= Seq::<(String, i128)>::empty());
    for i in 0..n
        invariant
            n == items@.len(),
            sv == out@.map_values(|e: (String, i128)| (e.0@, e.1)),
            newest_sessions_first(sv),
            sv.to_multiset() == session_candidates(items@.take(i as int)).to_multiset(),
    {
        let ghost t = items@.take(i + 1);
        assert(t.drop_last() =~= items@.take(i as int));
        assert(t.last() == items@[i as int]);
        let ghost before = session_candidates(items@.take(i as int));
        match session_id_from_name(items[i].0.as_str()) {
            Some(id) => {
                let m = items[i].1;
                let ghost o = sv;
                let mut k: usize = 0;
                while k < out.len() && m <= out[k].1
                    invariant
                        k <= out@.len(),
                        o == out@.map_values(|e: (String, i128)| (e.0@, e.1)),
                        newest_sessions_first(o),
                        forall|q: int| 0 <= q < k ==> m <= (#[trigger] o[q]).1,
                    decreases out@.len() - k,
                {
                    assert(o[k as int].1 == out@[k as int].1);
                    k = k + 1;
                }
                if k < out.len() {
                    assert(o[k as int].1 == out@[k as int].1);
                }
                let ghost ev = (id@, m);
                out.insert(k, (id, m));
                proof {
                    sv = out@.map_values(|e: (String, i128)| (e.0@, e.1));
                    assert(sv =~= o.insert(k as int, ev));
                    assert forall|a: int, b: int| 0 <= a < b < sv.len() implies (#[trigger] sv[b]).1 <= (#[trigger] sv[a]).1 by {
                        if b < k {
                        } else if b == k {
                            assert(m <= o[a].1);
                        } else if a < k {
                            assert(m <= o[a].1);
                            assert(o[b - 1].1 <= o[k as int].1 || b - 1 == k);
                        } else if a == k {
                            assert(b - 1 == k || o[b - 1].1 <= o[k as int].1);
                        } else {
                        }
                    }
                    vstd::seq_lib::to_multiset_insert(o, k as int, ev);
                    vstd::seq_lib::to_multiset_build(before, ev);
                    assert(session_candidates(t) =~= before.push(ev));
                }
            },
            None => {
                assert(session_candidates(t) =~= before);
            },
        }
    }
    assert(items@.take(n as int) =~= items@);
    let mut ids: Vec<String> = Vec::new();
    let m = out.len();
    for j in 0..m
        invariant
            m == out@.len(),
            sv == out@.map_values(|e: (String, i128)| (e.0@, e.1)),
            views(ids@) == sv.take(j as int).map_values(|e: (Seq<char>, i128)| e.0),
    {
        let ghost before = views(ids@);
        assert(sv[j as int].0 == out@[j as int].0@);
        ids.push(copy_string(&out[j].0));
        assert(sv.take(j + 1).map_values(|e: (Seq<char>, i128)| e.0) =~= sv.take(j as int).map_values(
            |e: (Seq<char>, i128)| e.0,
        ).push(sv[j as int].0));
        assert(views(ids@) =~= before.push(out@[j as int].0@));
    }
    assert(sv.take(m as int) =~= sv);
    assert(newest_sessions_first(sv));
    ids
}

} // verus!
