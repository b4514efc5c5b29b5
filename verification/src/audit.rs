//! Audit records of tool calls: a redacted, truncated summary of the input and
//! the outcome.
use vstd::prelude::*;
use crate::policy::ToolOrigin;
use crate::text::{
    utf8_len, floor_char_count, lemma_floor_char_count, lemma_utf8_len_concat, lemma_utf8_len_ascii, all_ascii, floor_char_index, chars_of, string_from_chars, slice_chars,
    byte_len, owned, push_str, contains_seq, lower_text, to_lowercase, str_contains, seq_join,
    views, join_strings, copy_string,
};
use crate::clock::utc_now_millis;

verus! {

/// A field value of a JSON object, as the audit summary reads it.
pub enum JsonField {
    /// A string: its value, and its JSON text (quoted and escaped).
    Text { value: String, json: String },
    /// Any other value: its JSON text.
    Other { json: String },
}

/// A tool input as the audit summary reads it: for an object input its
/// entries in order (`None` for any other input), and the JSON text of the
/// whole input.
pub struct JsonInput {
    pub fields: Option<Vec<(String, JsonField)>>,
    pub text: String,
}

/// Outcome of a tool call, as audited.
pub enum ToolResult {
    /// The tool ran; the start of its output.
    Success { output_preview: String },
    /// The policy refused the call.
    Denied { reason: String },
    /// The tool failed.
    Error { message: String },
}

/// Audit record of one tool call.
pub struct ToolAuditEntry {
    /// When the tool was called, milliseconds since the Unix epoch.
    pub timestamp_ms: i64,
    pub tool_name: String,
    pub origin: ToolOrigin,
    /// Redacted and truncated summary of the input.
    pub input_summary: String,
    pub result: ToolResult,
    pub duration_ms: u64,
    pub session_id: Option<String>,
    pub agent_id: Option<String>,
    pub caller_module: Option<String>,
}

// ───────────────────────────── Truncation ─────────────────────────────

/// A text cut to at most `max_len` bytes: the characters that fit in
/// `max_len - 3` bytes, then `...`; a text that fits is kept.
pub open spec fn truncated(s: Seq<char>, max_len: nat) -> Seq<char> {
    if utf8_len(s) <= max_len {
        s
    } else {
        let k = if max_len >= 3 { max_len - 3 } else { 0 };
        s.take(floor_char_count(s, k as int)) + "..."@
    }
}

/// A truncated text fits its limit of `max_len` bytes (a limit below three
/// bytes leaves no room for the `...`), and a text that fits is kept whole.
pub proof fn law_truncated_fits(s: Seq<char>, max_len: nat)
    requires
        max_len >= 3,
    ensures
        utf8_len(truncated(s, max_len)) <= max_len,
        utf8_len(s) <= max_len ==> truncated(s, max_len) == s,
{
    if utf8_len(s) > max_len {
        let k = max_len - 3;
        lemma_floor_char_count(s, k);
        let head = s.take(floor_char_count(s, k));
        reveal_strlit("...");
        assert(all_ascii("..."@));
        lemma_utf8_len_ascii("..."@);
        lemma_utf8_len_concat(head, "..."@);
    }
}

/// Cuts a text to `max_len` bytes, ending in `...` when cut.
pub fn truncate_string(s: &str, max_len: usize) -> (r: String)
    ensures
        r@ == truncated(s@, max_len as nat),
{
    if byte_len(s) <= max_len {
        return owned(s);
    }
    let cs = chars_of(s);
    let end = floor_char_index(cs.as_slice(), max_len.saturating_sub(3));
    let head = slice_chars(cs.as_slice(), 0, end);
    let mut r = string_from_chars(head.as_slice());
    push_str(&mut r, "...");
    assert(head@ =~= s@.take(end as int));
    r
}

// ───────────────────────────── Redaction ─────────────────────────────

/// Key fragments that mark a value as sensitive.
pub open spec fn sensitive_words() -> Seq<Seq<char>> {
    seq![
        "password"@,
        "secret"@,
        "token"@,
        "key"@,
        "credential"@,
        "auth"@,
        "api_key"@,
        "apikey"@,
    ]
}

/// A key is sensitive when its lowercase form contains one of the fragments.
pub open spec fn sensitive_key(key: Seq<char>) -> bool {
    exists|i: int|
        0 <= i < sensitive_words().len() && contains_seq(
            lower_text(key),
            #[trigger] sensitive_words()[i],
        )
}

/// Whether a key may hold sensitive data.
pub fn is_sensitive_key(key: &str) -> (r: bool)
    ensures
        r == sensitive_key(key@),
{
    let lower = to_lowercase(key);
    let l = lower.as_str();
    let ghost words = sensitive_words();
    let r = str_contains(l, "password") || str_contains(l, "secret") || str_contains(l, "token")
        || str_contains(l, "key") || str_contains(l, "credential") || str_contains(l, "auth")
        || str_contains(l, "api_key") || str_contains(l, "apikey");
    proof {
        if r {
            if contains_seq(l@, "password"@) {
                assert(words[0] == "password"@);
            } else if contains_seq(l@, "secret"@) {
                assert(words[1] == "secret"@);
            } else if contains_seq(l@, "token"@) {
                assert(words[2] == "token"@);
            } else if contains_seq(l@, "key"@) {
                assert(words[3] == "key"@);
            } else if contains_seq(l@, "credential"@) {
                assert(words[4] == "credential"@);
            } else if contains_seq(l@, "auth"@) {
                assert(words[5] == "auth"@);
            } else if contains_seq(l@, "api_key"@) {
                assert(words[6] == "api_key"@);
            } else {
                assert(words[7] == "apikey"@);
            }
        }
    }
    r
}

// ───────────────────────────── Input summary ─────────────────────────────

/// Model of a field value.
pub enum FieldView {
    Text { value: Seq<char>, json: Seq<char> },
    Other { json: Seq<char> },
}

impl View for JsonField {
    type V = FieldView;

    open spec fn view(&self) -> FieldView {
        match self {
            JsonField::Text { value, json } => FieldView::Text { value: value@, json: json@ },
            JsonField::Other { json } => FieldView::Other { json: json@ },
        }
    }
}

pub open spec fn field_views(fs: Seq<(String, JsonField)>) -> Seq<(Seq<char>, FieldView)> {
    fs.map_values(|f: (String, JsonField)| (f.0@, f.1@))
}

/// One field of the summary: `key:value`, where a string under a sensitive key
/// reads `[REDACTED]`, a string of more than 50 bytes its first 47 bytes (whole
/// characters) quoted with `...`, and any other value its JSON text.
pub open spec fn field_summary(key: Seq<char>, v: FieldView) -> Seq<char> {
    let shown = match v {
        FieldView::Text { value, json } => if sensitive_key(key) {
            "[REDACTED]"@
        } else if utf8_len(value) > 50 {
            "\""@ + value.take(floor_char_count(value, 47)) + "...\""@
        } else {
            json
        },
        FieldView::Other { json } => json,
    };
    key + ":"@ + shown
}

/// The summary of an input before truncation: an object as `{key:value,...}`,
/// anything else as its JSON text.
pub open spec fn raw_summary(fields: Option<Seq<(Seq<char>, FieldView)>>, text: Seq<char>) -> Seq<char> {
    match fields {
        Some(fs) => "{"@ + seq_join(
            fs.map_values(|f: (Seq<char>, FieldView)| field_summary(f.0, f.1)),
            ","@,
        ) + "}"@,
        None => text,
    }
}

/// A string under a sensitive key never shows its value in the summary of an
/// object input: the summary lists one part per field, and the part of that
/// field reads `key:[REDACTED]`, whatever the value.
pub proof fn law_sensitive_values_redacted(input: JsonInput, i: int)
    requires
        input.fields is Some,
        0 <= i < input.fields->Some_0@.len(),
        sensitive_key(input.fields->Some_0@[i].0@),
        input.fields->Some_0@[i].1 is Text,
    ensures
        ({
            let fs = field_views(input.fields->Some_0@);
            let parts = fs.map_values(|f: (Seq<char>, FieldView)| field_summary(f.0, f.1));
            &&& raw_summary(input_fields(input), input.text@) == "{"@ + seq_join(parts, ","@) + "}"@
            &&& parts.len() == fs.len()
            &&& parts[i] == input.fields->Some_0@[i].0@ + ":"@ + "[REDACTED]"@
        }),
{
}

fn summarize_field(key: &String, v: &JsonField) -> (r: String)
    ensures
        r@ == field_summary(key@, v@),
{
    let shown = match v {
        JsonField::Text { value, json } => {
            if is_sensitive_key(key.as_str()) {
                owned("[REDACTED]")
            } else if byte_len(value.as_str()) > 50 {
                let cs = chars_of(value.as_str());
                let end = floor_char_index(cs.as_slice(), 47);
                let head = slice_chars(cs.as_slice(), 0, end);
                let mut s = owned("\"");
                let h = string_from_chars(head.as_slice());
                push_str(&mut s, h.as_str());
                push_str(&mut s, "...\"");
                assert(head@ =~= value@.take(end as int));
                s
            } else {
                copy_string(json)
            }
        },
        JsonField::Other { json } => copy_string(json),
    };
    let mut r = copy_string(key);
    push_str(&mut r, ":");
    push_str(&mut r, shown.as_str());
    r
}

/// The input summary from the fields of an object input (`None` for other
/// inputs) and the input's JSON text, cut to `max_len` bytes.
fn summarize_fields(fields: &Option<Vec<(String, JsonField)>>, text: &str, max_len: usize) -> (r: String)
    ensures
        r@ == truncated(
            raw_summary(
                match fields {
                    Some(fs) => Some(field_views(fs@)),
                    None => None,
                },
                text@,
            ),
            max_len as nat,
        ),
{
    let summary = match fields {
        Some(fs) => {
            let mut parts: Vec<String> = Vec::new();
            for i in 0..fs.len()
                invariant
                    parts@.len() == i,
                    forall|k: int| 0 <= k < i ==> parts@[k]@ == field_summary(fs@[k].0@, fs@[k].1@),
            {
                parts.push(summarize_field(&fs[i].0, &fs[i].1));
            }
            assert(views(parts@) =~= field_views(fs@).map_values(
                |f: (Seq<char>, FieldView)| field_summary(f.0, f.1),
            ));
            let joined = join_strings(&parts, ",");
            let mut s = owned("{");
            push_str(&mut s, joined.as_str());
            push_str(&mut s, "}");
            s
        },
        None => owned(text),
    };
    truncate_string(summary.as_str(), max_len)
}

/// The fields of an input as the summary sees them.
pub open spec fn input_fields(input: JsonInput) -> Option<Seq<(Seq<char>, FieldView)>> {
    match input.fields {
        Some(fs) => Some(field_views(fs@)),
        None => None,
    }
}

/// The redacted summary of a tool input, cut to `max_len` bytes: an object as
/// `{key:value,...}` with sensitive strings redacted and long strings cut, any
/// other input as its JSON text.
pub open spec fn input_summary(input: JsonInput, max_len: nat) -> Seq<char> {
    truncated(raw_summary(input_fields(input), input.text@), max_len)
}

/// A redacted summary of a tool input, cut to `max_len` bytes.
pub fn summarize_input(input: &JsonInput, max_len: usize) -> (r: String)
    ensures
        r@ == input_summary(*input, max_len as nat),
{
    summarize_fields(&input.fields, input.text.as_str(), max_len)
}

// ───────────────────────────── Entries ─────────────────────────────

/// The entry fields every constructor shares.
pub open spec fn entry_basics(e: ToolAuditEntry, tool_name: Seq<char>, origin: ToolOrigin, input: JsonInput, duration_ms: u64) -> bool {
    &&& e.tool_name@ == tool_name
    &&& e.origin == origin
    &&& e.duration_ms == duration_ms
    &&& e.session_id is None
    &&& e.agent_id is None
    &&& e.caller_module is None
    &&& e.input_summary@ == input_summary(input, 200)
}

impl ToolAuditEntry {
    /// Record of a call that succeeded; the output preview is its first 100
    /// bytes.
    pub fn success(tool_name: String, origin: ToolOrigin, input: &JsonInput, output: &str, duration_ms: u64) -> (e: Self)
        ensures
            entry_basics(e, tool_name@, origin, *input, duration_ms),
            e.result matches ToolResult::Success { output_preview } && output_preview@ == truncated(
                output@,
                100,
            ),
    {
        ToolAuditEntry {
            timestamp_ms: utc_now_millis(),
            tool_name,
            origin,
            input_summary: summarize_input(input, 200),
            result: ToolResult::Success { output_preview: truncate_string(output, 100) },
            duration_ms,
            session_id: None,
            agent_id: None,
            caller_module: None,
        }
    }

    /// Record of a call the policy refused.
    pub fn denied(tool_name: String, origin: ToolOrigin, input: &JsonInput, reason: String) -> (e: Self)
        ensures
            entry_basics(e, tool_name@, origin, *input, 0),
            e.result matches ToolResult::Denied { reason: r } && r@ == reason@,
    {
        ToolAuditEntry {
            timestamp_ms: utc_now_millis(),
            tool_name,
            origin,
            input_summary: summarize_input(input, 200),
            result: ToolResult::Denied { reason },
            duration_ms: 0,
            session_id: None,
            agent_id: None,
            caller_module: None,
        }
    }

    /// Record of a call that failed.
    pub fn error(tool_name: String, origin: ToolOrigin, input: &JsonInput, error: String, duration_ms: u64) -> (e: Self)
        ensures
            entry_basics(e, tool_name@, origin, *input, duration_ms),
            e.result matches ToolResult::Error { message } && message@ == error@,
    {
        ToolAuditEntry {
            timestamp_ms: utc_now_millis(),
            tool_name,
            origin,
            input_summary: summarize_input(input, 200),
            result: ToolResult::Error { message: error },
            duration_ms,
            session_id: None,
            agent_id: None,
            caller_module: None,
        }
    }

    /// The entry with a session id.
    pub fn with_session(self, session_id: String) -> (e: Self)
        ensures
            e == (ToolAuditEntry { session_id: Some(session_id), ..self }),
    {
        let mut e = self;
        e.session_id = Some(session_id);
        e
    }

    /// The entry with an agent id.
    pub fn with_agent(self, agent_id: String) -> (e: Self)
        ensures
            e == (ToolAuditEntry { agent_id: Some(agent_id), ..self }),
    {
        let mut e = self;
        e.agent_id = Some(agent_id);
        e
    }

    /// The entry with the calling module.
    pub fn with_module(self, module: &str) -> (e: Self)
        ensures
            e.caller_module.is_some() && e.caller_module.unwrap()@ == module@,
            e.timestamp_ms == self.timestamp_ms,
            e.tool_name == self.tool_name,
            e.origin == self.origin,
            e.input_summary == self.input_summary,
            e.result == self.result,
            e.duration_ms == self.duration_ms,
            e.session_id == self.session_id,
            e.agent_id == self.agent_id,
    {
        let mut e = self;
        e.caller_module = Some(owned(module));
        e
    }

    /// The status word of the result: `ok`, `denied` or `error`.
    pub fn result_status(&self) -> (r: &'static str)
        ensures
            r@ == (match self.result {
                ToolResult::Success { .. } => "ok"@,
                ToolResult::Denied { .. } => "denied"@,
                ToolResult::Error { .. } => "error"@,
            }),
    {
        match &self.result {
            ToolResult::Success { .. } => "ok",
            ToolResult::Denied { .. } => "denied",
            ToolResult::Error { .. } => "error",
        }
    }
}

} // verus!
