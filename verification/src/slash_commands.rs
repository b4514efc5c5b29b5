//! Slash commands (`/new`, `/model`, `/status`, `/skill ...`) that are handled
//! before a message reaches the model.
use vstd::prelude::*;
use crate::clock::{utc_format, day_before, text_or_blank};

use crate::text::{is_ws, words_acc, ascii_lower_char, all_ascii, ascii_lower, chars_of, has_prefix, join_strings, owned, push_str, seq_join, split_whitespace_chars, str_eq, strings_of, to_lowercase, trim, trim_chars, trim_str, lower_text, views, words};

verus! {

/// A parsed slash command.
#[derive(Debug, Clone, PartialEq, Eq)]
pub enum SlashCommand {
    /// `/new [model]`: start a fresh session, optionally with a model hint.
    New { model_hint: Option<String> },
    /// `/model`: show the current model.
    Model,
    /// `/status`: show the session status.
    Status,
    SkillAnalyze { source: String },
    SkillInstall { source: String },
    SkillConfirm { token: String },
}

/// Result of executing a slash command.
#[derive(Debug)]
pub enum CommandResult {
    /// The command was fully handled; reply with this text.
    DirectResponse(String),
    /// The session was reset; continue with the post-reset flow.
    SessionReset { model_hint: Option<String>, post_reset_prompt: String },
    /// Not a command; handle the message normally.
    NotACommand,
}

/// The argument text of `/skill <action> ...`: the words after the action,
/// joined with single spaces and trimmed.
pub open spec fn skill_argument(ws: Seq<Seq<char>>) -> Seq<char> {
    trim(seq_join(ws.skip(2), " "@))
}

/// Meaning of a `/skill` command, from its words.
pub open spec fn skill_command(ws: Seq<Seq<char>>) -> Option<SlashCommandView> {
    if ws.len() < 2 {
        None
    } else {
        let action = lower_text(ws[1]);
        let arg = skill_argument(ws);
        if action == "analyze"@ {
            if arg.len() == 0 { None } else { Some(SlashCommandView::SkillAnalyze(arg)) }
        } else if action == "install"@ {
            if arg.len() == 0 { None } else { Some(SlashCommandView::SkillInstall(arg)) }
        } else if action == "confirm"@ {
            if arg.len() == 0 { None } else { Some(SlashCommandView::SkillConfirm(arg)) }
        } else {
            None
        }
    }
}

/// Abstract value of a slash command.
pub enum SlashCommandView {
    New(Option<Seq<char>>),
    Model,
    Status,
    SkillAnalyze(Seq<char>),
    SkillInstall(Seq<char>),
    SkillConfirm(Seq<char>),
}

impl SlashCommand {
    pub open spec fn view(&self) -> SlashCommandView {
        match self {
            SlashCommand::New { model_hint } => SlashCommandView::New(
                match model_hint {
                    Some(h) => Some(h@),
                    None => None,
                },
            ),
            SlashCommand::Model => SlashCommandView::Model,
            SlashCommand::Status => SlashCommandView::Status,
            SlashCommand::SkillAnalyze { source } => SlashCommandView::SkillAnalyze(source@),
            SlashCommand::SkillInstall { source } => SlashCommandView::SkillInstall(source@),
            SlashCommand::SkillConfirm { token } => SlashCommandView::SkillConfirm(token@),
        }
    }
}

/// The command word lowercased as `str::to_lowercase` does it: letter by
/// letter for ASCII text.
pub open spec fn command_word_lower(w: Seq<char>) -> Seq<char> {
    if all_ascii(w) {
        ascii_lower(w)
    } else {
        lower_text(w)
    }
}

/// Meaning of a message text as a slash command.
pub open spec fn parse_spec(text: Seq<char>) -> Option<SlashCommandView> {
    let t = trim(text);
    if !has_prefix(t, "/"@) {
        None
    } else {
        let ws = words(t);
        if ws.len() == 0 {
            None
        } else {
            let cmd = command_word_lower(ws[0]);
            if cmd == "/new"@ {
                Some(SlashCommandView::New(if ws.len() > 1 { Some(ws[1]) } else { None }))
            } else if cmd == "/model"@ {
                Some(SlashCommandView::Model)
            } else if cmd == "/status"@ {
                Some(SlashCommandView::Status)
            } else if cmd == "/skill"@ {
                skill_command(ws)
            } else {
                None
            }
        }
    }
}

/// Only a message whose trimmed text starts with `/` can be a command, and
/// whitespace around a message does not change what it means.
pub proof fn law_commands_read_trimmed_text(text: Seq<char>)
    ensures
        !has_prefix(trim(text), "/"@) ==> parse_spec(text) is None,
        parse_spec(text) == parse_spec(trim(text)),
{
    crate::text::lemma_trim_idempotent(text);
}

proof fn lemma_words_without_blanks(s: Seq<char>, cur: Seq<char>)
    requires
        forall|i: int| 0 <= i < s.len() ==> !is_ws(#[trigger] s[i]),
        cur.len() + s.len() > 0,
    ensures
        words_acc(s, cur) == seq![cur + s],
    decreases s.len(),
{
    if s.len() == 0 {
        assert(cur + s =~= cur);
    } else {
        lemma_words_without_blanks(s.drop_first(), cur.push(s[0]));
        assert(cur.push(s[0]) + s.drop_first() =~= cur + s);
    }
}

/// `/status`, whatever blanks stand around it, is the status command.
pub proof fn law_status_command(text: Seq<char>)
    requires
        trim(text) == "/status"@,
    ensures
        parse_spec(text) == Some(SlashCommandView::Status),
{
    reveal_strlit("/status");
    reveal_strlit("/");
    reveal_strlit("/new");
    reveal_strlit("/model");
    let t = trim(text);
    assert(t.len() == 7);
    assert forall|i: int| 0 <= i < t.len() implies !is_ws(#[trigger] t[i]) && (t[i] as u32) < 0x80
        && ascii_lower_char(t[i]) == t[i] by {
        if i == 0 {
            assert(t[i] == '/');
        } else if i == 1 {
            assert(t[i] == 's');
        } else if i == 2 {
            assert(t[i] == 't');
        } else if i == 3 {
            assert(t[i] == 'a');
        } else if i == 4 {
            assert(t[i] == 't');
        } else if i == 5 {
            assert(t[i] == 'u');
        } else {
            assert(t[i] == 's');
        }
    }
    lemma_words_without_blanks(t, seq![]);
    assert(Seq::<char>::empty() + t =~= t);
    assert(words(t) == seq![t]);
    assert(all_ascii(t));
    assert(ascii_lower(t) =~= t);
    assert(t.subrange(0, 1) =~= "/"@);
    assert(command_word_lower(words(t)[0]) == t);
    assert(t != "/new"@ && t != "/model"@);
}

/// A change of ASCII letter case in the command word does not change the
/// command: two messages whose words agree after the first, and whose first
/// words are ASCII and equal up to letter case, mean the same.
pub proof fn law_command_word_ignores_ascii_case(t1: Seq<char>, t2: Seq<char>)
    requires
        has_prefix(trim(t1), "/"@) == has_prefix(trim(t2), "/"@),
        words(trim(t1)).len() == words(trim(t2)).len(),
        words(trim(t1)).len() > 0,
        words(trim(t1)).skip(1) == words(trim(t2)).skip(1),
        all_ascii(words(trim(t1))[0]),
        all_ascii(words(trim(t2))[0]),
        ascii_lower(words(trim(t1))[0]) == ascii_lower(words(trim(t2))[0]),
    ensures
        parse_spec(t1) == parse_spec(t2),
{
    let w1 = words(trim(t1));
    let w2 = words(trim(t2));
    if w1.len() > 1 {
        assert(w1[1] == w1.skip(1)[0]);
        assert(w2[1] == w2.skip(1)[0]);
        assert(w1.skip(2) =~= w1.skip(1).skip(1));
        assert(w2.skip(2) =~= w2.skip(1).skip(1));
        assert(skill_command(w1) == skill_command(w2));
    }
}

/// The source of `/skill analyze` is the rest of the message after the word
/// `analyze`, words joined by single spaces, and never empty.
pub proof fn law_analyze_source(text: Seq<char>, source: Seq<char>)
    requires
        parse_spec(text) == Some(SlashCommandView::SkillAnalyze(source)),
    ensures
        source == trim(seq_join(words(trim(text)).skip(2), " "@)),
        source.len() > 0,
{
}

/// Parse a message that starts with a slash command.
pub fn parse_command(text: &str) -> (r: Option<SlashCommand>)
    ensures
        match r {
            Some(c) => parse_spec(text@) == Some(c.view()),
            None => parse_spec(text@) is None,
        },
{
    let tv = chars_of(text);
    let t = trim_chars(tv.as_slice());
    if t.len() == 0 || t[0] != '/' {
        proof {
            reveal_strlit("/");
            if has_prefix(trim(text@), "/"@) {
                assert(trim(text@).subrange(0, 1)[0] == '/');
            }
        }
        return None;
    }
    proof {
        reveal_strlit("/");
        assert(trim(text@).subrange(0, 1) =~= "/"@);
    }
    let wv = split_whitespace_chars(t.as_slice());
    let ws = strings_of(&wv);
    if ws.len() == 0 {
        return None;
    }
    let ghost wsv = words(trim(text@));
    assert(views(ws@) == wsv);
    assert(views(ws@)[0] == ws@[0]@);
    let cmd = to_lowercase(ws[0].as_str());
    let c = cmd.as_str();
    if str_eq(c, "/new") {
        let hint = if ws.len() > 1 {
            assert(views(ws@)[1] == ws@[1]@);
            Some(ws[1].clone())
        } else {
            None
        };
        return Some(SlashCommand::New { model_hint: hint });
    }
    if str_eq(c, "/model") {
        return Some(SlashCommand::Model);
    }
    if str_eq(c, "/status") {
        return Some(SlashCommand::Status);
    }
    if !str_eq(c, "/skill") {
        return None;
    }
    if ws.len() < 2 {
        return None;
    }
    assert(views(ws@)[1] == ws@[1]@);
    let action = to_lowercase(ws[1].as_str());
    let mut tail: Vec<String> = Vec::new();
    let n = ws.len();
    for i in 2..n
        invariant
            n == ws@.len(),
            2 <= n,
            views(tail@) == views(ws@).subrange(2, i as int),
    {
        let ghost before = views(tail@);
        let item = ws[i].clone();
        assert(item@ == views(ws@)[i as int]);
        tail.push(item);
        assert(views(tail@) =~= before.push(views(ws@)[i as int]));
        assert(views(tail@) =~= views(ws@).subrange(2, i + 1));
    }
    assert(views(ws@).subrange(2, n as int) =~= wsv.skip(2));
    let joined = join_strings(&tail, " ");
    let arg = trim_str(joined.as_str());
    let empty = arg.as_str().is_empty();
    let a = action.as_str();
    if str_eq(a, "analyze") {
        if empty { None } else { Some(SlashCommand::SkillAnalyze { source: arg }) }
    } else if str_eq(a, "install") {
        if empty { None } else { Some(SlashCommand::SkillInstall { source: arg }) }
    } else if str_eq(a, "confirm") {
        if empty { None } else { Some(SlashCommand::SkillConfirm { token: arg }) }
    } else {
        None
    }
}

/// The status reply: agent, model and session key.
pub open spec fn status_text(agent_id: Seq<char>, model: Seq<char>, session_key: Seq<char>) -> Seq<char> {
    "📊 **Session Status**\nAgent: `"@ + agent_id + "`\nModel: `"@ + model + "`\nSession: `"@
        + session_key + "`"@
}

/// Format the reply to `/status`.
pub fn format_status_response(agent_id: &str, model: &str, session_key: &str) -> (r: String)
    ensures
        r@ == status_text(agent_id@, model@, session_key@),
{
    let mut r = owned("📊 **Session Status**\nAgent: `");
    push_str(&mut r, agent_id);
    push_str(&mut r, "`\nModel: `");
    push_str(&mut r, model);
    push_str(&mut r, "`\nSession: `");
    push_str(&mut r, session_key);
    push_str(&mut r, "`");
    r
}

/// The prompt that follows a session reset, for the given time stamps.
pub open spec fn post_reset_text(agent_id: Seq<char>, date_str: Seq<char>, today: Seq<char>, yesterday: Seq<char>) -> Seq<char> {
    "["@ + date_str + "] ⚠️ Post-Reset Audit: Session has been reset. The following startup files should be read:\n  - AGENTS.md (if exists)\n  - SOUL.md (if exists)\n  - USER.md (if exists)\n  - memory/"@
        + today + ".md (today's notes, if exists)\n  - memory/"@ + yesterday
        + ".md (yesterday's notes, if exists)\n  - MEMORY.md (long-term memory, if in main session)\n\nPlease read these files using the read tool before continuing. This ensures your operating context is restored after session reset.\n\nA new session was started via /new or /reset. Greet the user in your configured persona, if one is provided. Be yourself - use your defined voice, mannerisms, and mood. Keep it to 1-3 sentences and ask what they want to do.\n\nAgent: "@
        + agent_id + "\nSession: new"@
}

/// Render the post-reset prompt from the time stamps: `date_str` as
/// `%Y-%m-%d %H:%M:%S UTC`, `today` and `yesterday` as `%Y-%m-%d`.
pub fn render_post_reset_prompt(agent_id: &str, date_str: &str, today: &str, yesterday: &str) -> (r: String)
    ensures
        r@ == post_reset_text(agent_id@, date_str@, today@, yesterday@),
{
    let mut r = owned("[");
    push_str(&mut r, date_str);
    push_str(&mut r, "] ⚠️ Post-Reset Audit: Session has been reset. The following startup files should be read:\n  - AGENTS.md (if exists)\n  - SOUL.md (if exists)\n  - USER.md (if exists)\n  - memory/");
    push_str(&mut r, today);
    push_str(&mut r, ".md (today's notes, if exists)\n  - memory/");
    push_str(&mut r, yesterday);
    push_str(&mut r, ".md (yesterday's notes, if exists)\n  - MEMORY.md (long-term memory, if in main session)\n\nPlease read these files using the read tool before continuing. This ensures your operating context is restored after session reset.\n\nA new session was started via /new or /reset. Greet the user in your configured persona, if one is provided. Be yourself - use your defined voice, mannerisms, and mood. Keep it to 1-3 sentences and ask what they want to do.\n\nAgent: ");
    push_str(&mut r, agent_id);
    push_str(&mut r, "\nSession: new");
    r
}

/// The post-reset prompt at time `now_ms`: stamped with that time, listing the
/// daily notes of that day and of the day before.
pub fn post_reset_prompt_at(agent_id: &str, now_ms: i64) -> (r: String)
    ensures
        r@ == post_reset_text(
            agent_id@,
            text_or_blank(utc_format(now_ms as int, "%Y-%m-%d %H:%M:%S UTC"@)),
            text_or_blank(utc_format(now_ms as int, "%Y-%m-%d"@)),
            text_or_blank(utc_format(day_before(now_ms as int), "%Y-%m-%d"@)),
        ),
{
    let before = crate::clock::one_day_before(now_ms);
    let date_str = crate::clock::format_utc_millis(now_ms, "%Y-%m-%d %H:%M:%S UTC");
    let today = crate::clock::format_utc_millis(now_ms, "%Y-%m-%d");
    let yesterday = crate::clock::format_utc_millis(before, "%Y-%m-%d");
    let d = match date_str {
        Some(s) => s,
        None => String::new(),
    };
    let t = match today {
        Some(s) => s,
        None => String::new(),
    };
    let y = match yesterday {
        Some(s) => s,
        None => String::new(),
    };
    render_post_reset_prompt(agent_id, d.as_str(), t.as_str(), y.as_str())
}

/// The post-reset prompt for the current time (read from the clock).
pub fn build_post_reset_prompt(agent_id: &str) -> (r: String)
    ensures
        exists|now: i64|
            r@ == post_reset_text(
                agent_id@,
                text_or_blank(utc_format(now as int, "%Y-%m-%d %H:%M:%S UTC"@)),
                text_or_blank(utc_format(now as int, "%Y-%m-%d"@)),
                text_or_blank(utc_format(day_before(now as int), "%Y-%m-%d"@)),
            ),
{
    let now = crate::clock::utc_now_millis();
    post_reset_prompt_at(agent_id, now)
}

} // verus!
