//! The schedule tool: relative times, schedule ids, and the schedule a job
//! request turns into.
use vstd::prelude::*;
use crate::text::{trim, utf8_len, char_utf8_len, parse_i64_spec, is_ascii_alnum, ascii_lower_char, seq_join, views, chars_of, trim_chars, string_from_chars, byte_len, parse_i64, slice_chars, is_ascii_alphanumeric, to_ascii_lowercase_char, owned, push_str, join_strings};
use crate::clock::{utc_rfc3339, rfc3339_utc_millis, utc_now_millis};
use crate::tool::{ToolContext, ConversationMessage, conversation_views, copy_optional, ToolOutput, tool_error};

verus! {

/// Name of the schedule tool.
pub const SCHEDULE_TOOL_NAME: &'static str = "schedule";

/// Agent a schedule runs on when none is named.
pub const DEFAULT_AGENT_ID: &'static str = "clawhive-main";

// ───────────────────────────── Relative times ─────────────────────────────

/// Milliseconds per unit of a relative time: `s`, `m`, `h` or `d`.
pub open spec fn unit_ms(c: char) -> Option<int> {
    if c == 's' {
        Some(1_000)
    } else if c == 'm' {
        Some(60_000)
    } else if c == 'h' {
        Some(3_600_000)
    } else if c == 'd' {
        Some(86_400_000)
    } else {
        None
    }
}

/// A relative time such as `30s`, `5m`, `2h` or `1d`, in milliseconds: once
/// trimmed, a signed integer followed by one unit letter.
pub open spec fn relative_ms(input: Seq<char>) -> Option<int> {
    let t = trim(input);
    if utf8_len(t) < 2 {
        None
    } else {
        match parse_i64_spec(t.drop_last()) {
            Some(n) => match unit_ms(t.last()) {
                Some(f) => Some(n * f),
                None => None,
            },
            None => None,
        }
    }
}

/// Inputs on which reading a relative time does not panic: the last character of
/// a trimmed text of two or more bytes is one byte long (the text is split one
/// byte before its end), and the milliseconds fit in an `i64`.
pub open spec fn relative_ms_defined(input: Seq<char>) -> bool {
    let t = trim(input);
    utf8_len(t) >= 2 ==> {
        &&& char_utf8_len(t.last()) == 1
        &&& match relative_ms(input) {
            Some(v) => i64::MIN <= v <= i64::MAX,
            None => true,
        }
    }
}

/// Whether a relative time can be read without a panic: what a caller tests
/// before `try_parse_relative_ms`.
pub fn relative_ms_readable(input: &str) -> (r: bool)
    ensures
        r == relative_ms_defined(input@),
{
    let cs = chars_of(input);
    let t = trim_chars(cs.as_slice());
    let ts = string_from_chars(t.as_slice());
    if byte_len(ts.as_str()) < 2 {
        return true;
    }
    let n = t.len();
    let last = t[n - 1];
    if crate::text::char_len_utf8(last) != 1 {
        return false;
    }
    let num = slice_chars(t.as_slice(), 0, n - 1);
    assert(num@ =~= t@.drop_last());
    match parse_i64(num.as_slice()) {
        Some(v) => {
            let f: i128 = if last == 's' {
                1_000
            } else if last == 'm' {
                60_000
            } else if last == 'h' {
                3_600_000
            } else if last == 'd' {
                86_400_000
            } else {
                return true;
            };
            let x: i128 = (v as i128) * f;
            x >= i64::MIN as i128 && x <= i64::MAX as i128
        },
        None => true,
    }
}

/// Reads a relative time like `30s`, `5m`, `2h` or `1d` as milliseconds.
pub fn try_parse_relative_ms(input: &str) -> (r: Option<i64>)
    requires
        relative_ms_defined(input@),
    ensures
        match r {
            Some(v) => relative_ms(input@) == Some(v as int),
            None => relative_ms(input@) is None,
        },
{
    let cs = chars_of(input);
    let t = trim_chars(cs.as_slice());
    let ts = string_from_chars(t.as_slice());
    if byte_len(ts.as_str()) < 2 {
        return None;
    }
    let n = t.len();
    let num = slice_chars(t.as_slice(), 0, n - 1);
    assert(num@ =~= t@.drop_last());
    let unit = t[n - 1];
    match parse_i64(num.as_slice()) {
        Some(v) => {
            if unit == 's' {
                Some(v * 1_000)
            } else if unit == 'm' {
                Some(v * 60_000)
            } else if unit == 'h' {
                Some(v * 3_600_000)
            } else if unit == 'd' {
                Some(v * 86_400_000)
            } else {
                None
            }
        },
        None => None,
    }
}

// ───────────────────────────── Schedule ids ─────────────────────────────

/// The slug built so far, and whether it ends in a dash that stands for a run
/// of other characters.
pub open spec fn slug_acc(s: Seq<char>) -> (Seq<char>, bool)
    decreases s.len(),
{
    if s.len() == 0 {
        (Seq::empty(), false)
    } else {
        let prev = slug_acc(s.drop_last());
        let c = s.last();
        if is_ascii_alnum(c) {
            (prev.0.push(ascii_lower_char(c)), false)
        } else if !prev.1 {
            (prev.0.push('-'), true)
        } else {
            prev
        }
    }
}

/// Leading dashes removed.
pub open spec fn trim_dash_start(s: Seq<char>) -> Seq<char>
    decreases s.len(),
{
    if s.len() > 0 && s[0] == '-' {
        trim_dash_start(s.drop_first())
    } else {
        s
    }
}

/// Trailing dashes removed.
pub open spec fn trim_dash_end(s: Seq<char>) -> Seq<char>
    decreases s.len(),
{
    if s.len() > 0 && s.last() == '-' {
        trim_dash_end(s.drop_last())
    } else {
        s
    }
}

/// A schedule id from a name: ASCII letters and digits lowercased, every run of
/// other characters one dash, no dash at either end; `schedule` when nothing is
/// left.
pub open spec fn slug(name: Seq<char>) -> Seq<char> {
    let t = trim_dash_end(trim_dash_start(slug_acc(name).0));
    if t.len() == 0 {
        "schedule"@
    } else {
        t
    }
}

fn trim_dashes(s: &[char]) -> (r: Vec<char>)
    ensures
        r@ == trim_dash_end(trim_dash_start(s@)),
{
    let n = s.len();
    let mut i: usize = 0;
    assert(s@.skip(0) =~= s@);
    while i < n && s[i] == '-'
        invariant
            i <= n,
            n == s@.len(),
            trim_dash_start(s@) == trim_dash_start(s@.skip(i as int)),
        decreases n - i,
    {
        assert(s@.skip(i as int).drop_first() =~= s@.skip(i + 1));
        i = i + 1;
    }
    assert(s@.skip(i as int) =~= s@.subrange(i as int, n as int));
    let mut j: usize = n;
    while j > i && s[j - 1] == '-'
        invariant
            i <= j <= n,
            n == s@.len(),
            trim_dash_end(s@.subrange(i as int, n as int)) == trim_dash_end(
                s@.subrange(i as int, j as int),
            ),
        decreases j,
    {
        assert(s@.subrange(i as int, j as int).drop_last() =~= s@.subrange(i as int, j - 1));
        j = j - 1;
    }
    slice_chars(s, i, j)
}

/// A schedule id made from a name.
pub fn slug_from_name(name: &str) -> (r: String)
    ensures
        r@ == slug(name@),
{
    let cs = chars_of(name);
    let mut out: Vec<char> = Vec::new();
    let mut last_dash = false;
    let n = cs.len();
    for i in 0..n
        invariant
            n == cs@.len(),
            cs@ == name@,
            (out@, last_dash) == slug_acc(name@.take(i as int)),
    {
        let ch = cs[i];
        assert(name@.take(i + 1).drop_last() =~= name@.take(i as int));
        if is_ascii_alphanumeric(ch) {
            out.push(to_ascii_lowercase_char(ch));
            last_dash = false;
        } else if !last_dash {
            out.push('-');
            last_dash = true;
        }
    }
    assert(name@.take(n as int) =~= name@);
    let t = trim_dashes(out.as_slice());
    if t.len() == 0 {
        owned("schedule")
    } else {
        string_from_chars(t.as_slice())
    }
}

// ───────────────────────────── Schedules ─────────────────────────────

/// When a schedule runs.
pub enum ScheduleType {
    /// On a cron expression in a time zone.
    Cron { expr: String, tz: String },
    /// Once, at a time: relative (`5m`) or absolute (RFC 3339).
    At { at: String },
    /// Every `interval_ms` milliseconds.
    Every { interval_ms: u64 },
}

/// Model of a schedule type.
pub enum ScheduleView {
    Cron { expr: Seq<char>, tz: Seq<char> },
    At { at: Seq<char> },
    Every { interval_ms: u64 },
}

impl View for ScheduleType {
    type V = ScheduleView;

    open spec fn view(&self) -> ScheduleView {
        match self {
            ScheduleType::Cron { expr, tz } => ScheduleView::Cron { expr: expr@, tz: tz@ },
            ScheduleType::At { at } => ScheduleView::At { at: at@ },
            ScheduleType::Every { interval_ms } => ScheduleView::Every { interval_ms: *interval_ms },
        }
    }
}

/// Relative `at` times can be read without panicking.
pub open spec fn schedule_defined(s: ScheduleView) -> bool {
    match s {
        ScheduleView::At { at } => relative_ms_defined(at),
        _ => true,
    }
}

/// The target time of a relative `at` schedule fits in an `i64`.
pub open spec fn target_fits(s: ScheduleView, now: int) -> bool {
    match s {
        ScheduleView::At { at } => match relative_ms(at) {
            Some(ms) => i64::MIN <= now + ms <= i64::MAX,
            None => true,
        },
        _ => true,
    }
}

/// The schedule with a relative `at` time replaced by the absolute time it
/// denotes from `now`, in RFC 3339 (falling back to `now` itself when the target
/// cannot be represented). Other schedules are kept.
pub open spec fn normalized_schedule(s: ScheduleView, now: int) -> ScheduleView {
    match s {
        ScheduleView::At { at } => match relative_ms(at) {
            Some(ms) => match utc_rfc3339(now + ms) {
                Some(t) => ScheduleView::At { at: t },
                None => match utc_rfc3339(now) {
                    Some(t) => ScheduleView::At { at: t },
                    None => s,
                },
            },
            None => s,
        },
        _ => s,
    }
}

/// The schedule with a relative `at` time made absolute from `now_ms`.
pub fn normalize_schedule_at(schedule: ScheduleType, now_ms: i64) -> (r: ScheduleType)
    requires
        schedule_defined(schedule@),
        target_fits(schedule@, now_ms as int),
    ensures
        r@ == normalized_schedule(schedule@, now_ms as int),
{
    match schedule {
        ScheduleType::At { at } => {
            match try_parse_relative_ms(at.as_str()) {
                Some(ms) => {
                    let target = now_ms + ms;
                    match rfc3339_utc_millis(target) {
                        Some(t) => ScheduleType::At { at: t },
                        None => match rfc3339_utc_millis(now_ms) {
                            Some(t) => ScheduleType::At { at: t },
                            None => ScheduleType::At { at },
                        },
                    }
                },
                None => ScheduleType::At { at },
            }
        },
        other => other,
    }
}

/// Whether the target time of a relative `at` schedule fits, from `now_ms`.
fn target_fits_exec(schedule: &ScheduleType, now_ms: i64) -> (r: bool)
    requires
        schedule_defined(schedule@),
    ensures
        r == target_fits(schedule@, now_ms as int),
{
    match schedule {
        ScheduleType::At { at } => match try_parse_relative_ms(at.as_str()) {
            Some(ms) => now_ms.checked_add(ms).is_some(),
            None => true,
        },
        _ => true,
    }
}

/// The schedule with a relative `at` time made absolute from the current
/// time. Where the target time would not fit in an `i64` the schedule is kept.
pub fn normalize_schedule_type(schedule: ScheduleType) -> (r: ScheduleType)
    requires
        schedule_defined(schedule@),
    ensures
        exists|now: i64|
            if target_fits(schedule@, now as int) {
                r@ == normalized_schedule(schedule@, now as int)
            } else {
                r@ == schedule@
            },
{
    let now = utc_now_millis();
    let ghost before = schedule@;
    let fits = target_fits_exec(&schedule, now);
    let r = if fits {
        normalize_schedule_at(schedule, now)
    } else {
        schedule
    };
    assert(if target_fits(before, now as int) {
        r@ == normalized_schedule(before, now as int)
    } else {
        r@ == before
    });
    r
}

/// Which session a scheduled task runs in.
#[derive(Debug, Clone, Copy, PartialEq, Eq, Structural)]
pub enum SessionMode {
    Isolated,
    Main,
}

/// How a scheduled task's result is delivered.
#[derive(Debug, Clone, Copy, PartialEq, Eq, Structural)]
pub enum DeliveryMode {
    /// Not delivered.
    Quiet,
    Announce,
    Webhook,
}

/// Delivery settings given with a job.
pub struct DeliveryInput {
    pub mode: Option<DeliveryMode>,
    pub channel: Option<String>,
    pub connector_id: Option<String>,
}

/// A job as the schedule tool receives it.
pub struct ScheduleJobInput {
    pub schedule_id: Option<String>,
    pub name: String,
    pub description: Option<String>,
    pub schedule: ScheduleType,
    pub task: String,
    pub session_mode: Option<SessionMode>,
    pub agent_id: Option<String>,
    pub delete_after_run: Option<bool>,
    pub timeout_seconds: Option<u64>,
    pub context_messages: Option<usize>,
    pub delivery: Option<DeliveryInput>,
}

/// Where and how a scheduled task's result goes.
pub struct DeliveryConfig {
    pub mode: DeliveryMode,
    pub channel: Option<String>,
    pub connector_id: Option<String>,
    pub source_channel_type: Option<String>,
    pub source_connector_id: Option<String>,
    pub source_conversation_scope: Option<String>,
}

/// A schedule as the scheduler stores it.
pub struct ScheduleConfig {
    pub schedule_id: String,
    pub enabled: bool,
    pub name: String,
    pub description: Option<String>,
    pub schedule: ScheduleType,
    pub agent_id: String,
    pub session_mode: SessionMode,
    pub task: String,
    pub timeout_seconds: u64,
    pub delete_after_run: bool,
    pub delivery: DeliveryConfig,
}

/// An optional text that is present and not blank.
pub open spec fn given(o: Option<String>) -> bool {
    o.is_some() && trim(o.unwrap()@).len() > 0
}

/// Views of two optional strings agree.
pub open spec fn same_text(a: Option<String>, b: Option<String>) -> bool {
    a.is_some() == b.is_some() && (a.is_some() ==> a.unwrap()@ == b.unwrap()@)
}

/// One line of recent context: `- role: content`.
pub open spec fn context_line(m: (Seq<char>, Seq<char>)) -> Seq<char> {
    "- "@ + m.0 + ": "@ + m.1
}

/// The task text, with the last `limit` messages appended as recent context
/// when `limit` is positive and there are any.
pub open spec fn task_with_context(task: Seq<char>, limit: nat, recent: Seq<(Seq<char>, Seq<char>)>) -> Seq<char> {
    let picked = recent.skip(
        (if recent.len() >= limit {
            recent.len() - limit
        } else {
            0
        }) as int,
    );
    let context = seq_join(picked.map_values(|m: (Seq<char>, Seq<char>)| context_line(m)), "\n"@);
    if limit > 0 && context.len() > 0 {
        task + "\n\nRecent context:\n"@ + context
    } else {
        task
    }
}

fn context_lines(messages: &Vec<ConversationMessage>) -> (r: Vec<String>)
    ensures
        views(r@) == conversation_views(messages@).map_values(
            |m: (Seq<char>, Seq<char>)| context_line(m),
        ),
{
    let mut out: Vec<String> = Vec::new();
    for i in 0..messages.len()
        invariant
            out@.len() == i,
            forall|k: int|
                0 <= k < i ==> out@[k]@ == context_line(
                    (messages@[k].role@, messages@[k].content@),
                ),
    {
        let mut line = owned("- ");
        push_str(&mut line, messages[i].role.as_str());
        push_str(&mut line, ": ");
        push_str(&mut line, messages[i].content.as_str());
        out.push(line);
    }
    assert(views(out@) =~= conversation_views(messages@).map_values(
        |m: (Seq<char>, Seq<char>)| context_line(m),
    ));
    out
}

fn task_text(task: String, limit: Option<usize>, ctx: &ToolContext) -> (r: String)
    ensures
        r@ == (match limit {
            Some(l) => task_with_context(task@, l as nat, conversation_views(ctx.recent_messages@)),
            None => task@,
        }),
{
    match limit {
        Some(l) => {
            if l > 0 {
                let recent = ctx.recent_messages(l);
                let lines = context_lines(&recent);
                let context = join_strings(&lines, "\n");
                if context.as_str().is_empty() {
                    task
                } else {
                    let mut t = task;
                    push_str(&mut t, "\n\nRecent context:\n");
                    push_str(&mut t, context.as_str());
                    t
                }
            } else {
                task
            }
        },
        None => task,
    }
}

/// The given optional text when it is not blank, else `fallback`.
fn given_or(o: Option<String>, fallback: String) -> (r: String)
    ensures
        r@ == (if given(o) {
            o.unwrap()@
        } else {
            fallback@
        }),
{
    match o {
        Some(s) => {
            let cs = chars_of(s.as_str());
            let t = trim_chars(cs.as_slice());
            if t.len() > 0 {
                s
            } else {
                fallback
            }
        },
        None => fallback,
    }
}

impl ScheduleJobInput {
    /// The schedule this job describes, with `schedule` as its timing: a blank or
    /// missing id becomes the slug of the name, a blank or missing agent the
    /// default agent; the task gains recent context when asked; delivery defaults
    /// to announcing back to the source conversation when there is one; `at`
    /// schedules run once by default; sessions are isolated and time out after
    /// 300 seconds unless said otherwise.
    pub open spec fn config_matches(self, default_agent_id: Seq<char>, ctx: ToolContext, schedule: ScheduleView, c: ScheduleConfig) -> bool {
        &&& c.schedule_id@ == (if given(self.schedule_id) {
            self.schedule_id.unwrap()@
        } else {
            slug(self.name@)
        })
        &&& c.enabled
        &&& c.name@ == self.name@
        &&& same_text(c.description, self.description)
        &&& c.schedule@ == schedule
        &&& c.agent_id@ == (if given(self.agent_id) {
            self.agent_id.unwrap()@
        } else {
            default_agent_id
        })
        &&& c.session_mode == (match self.session_mode {
            Some(m) => m,
            None => SessionMode::Isolated,
        })
        &&& c.task@ == (match self.context_messages {
            Some(l) => task_with_context(self.task@, l as nat, conversation_views(ctx.recent_messages@)),
            None => self.task@,
        })
        &&& c.timeout_seconds == (match self.timeout_seconds {
            Some(t) => t,
            None => 300,
        })
        &&& c.delete_after_run == (match self.delete_after_run {
            Some(d) => d,
            None => schedule is At,
        })
        &&& c.delivery.mode == (match self.delivery {
            Some(d) if d.mode.is_some() => d.mode.unwrap(),
            _ => if ctx.source_conversation_scope.is_some() {
                DeliveryMode::Announce
            } else {
                DeliveryMode::Quiet
            },
        })
        &&& same_text(c.delivery.channel, match self.delivery {
            Some(d) => d.channel,
            None => None,
        })
        &&& same_text(c.delivery.connector_id, match self.delivery {
            Some(d) => d.connector_id,
            None => None,
        })
        &&& same_text(c.delivery.source_channel_type, ctx.source_channel_type)
        &&& same_text(c.delivery.source_connector_id, ctx.source_connector_id)
        &&& same_text(c.delivery.source_conversation_scope, ctx.source_conversation_scope)
    }

    /// The schedule this job describes, with its timing given as `schedule`.
    pub fn config_with_schedule(self, default_agent_id: &str, ctx: &ToolContext, schedule: ScheduleType) -> (c: ScheduleConfig)
        ensures
            self.config_matches(default_agent_id@, *ctx, schedule@, c),
    {
        let ghost this = self;
        let ScheduleJobInput {
            schedule_id,
            name,
            description,
            schedule: _,
            task,
            session_mode,
            agent_id,
            delete_after_run,
            timeout_seconds,
            context_messages,
            delivery,
        } = self;
        let task = task_text(task, context_messages, ctx);
        let (mode, channel, connector_id) = match delivery {
            Some(d) => (d.mode, d.channel, d.connector_id),
            None => (None, None, None),
        };
        let delivery_mode = match mode {
            Some(m) => m,
            None => if ctx.source_conversation_scope.is_some() {
                DeliveryMode::Announce
            } else {
                DeliveryMode::Quiet
            },
        };
        let delete = match delete_after_run {
            Some(d) => d,
            None => match &schedule {
                ScheduleType::At { .. } => true,
                _ => false,
            },
        };
        let id = given_or(schedule_id, slug_from_name(name.as_str()));
        let agent = given_or(agent_id, owned(default_agent_id));
        ScheduleConfig {
            schedule_id: id,
            enabled: true,
            name,
            description,
            schedule,
            agent_id: agent,
            session_mode: match session_mode {
                Some(m) => m,
                None => SessionMode::Isolated,
            },
            task,
            timeout_seconds: match timeout_seconds {
                Some(t) => t,
                None => 300,
            },
            delete_after_run: delete,
            delivery: DeliveryConfig {
                mode: delivery_mode,
                channel,
                connector_id,
                source_channel_type: copy_optional(&ctx.source_channel_type),
                source_connector_id: copy_optional(&ctx.source_connector_id),
                source_conversation_scope: copy_optional(&ctx.source_conversation_scope),
            },
        }
    }

    /// The schedule this job describes, a relative `at` time made absolute from
    /// the current time (see `normalize_schedule_type`).
    pub fn into_config(self, default_agent_id: &str, ctx: &ToolContext) -> (c: ScheduleConfig)
        requires
            schedule_defined(self.schedule@),
        ensures
            exists|s: ScheduleView|
                #![trigger self.config_matches(default_agent_id@, *ctx, s, c)]
                self.config_matches(default_agent_id@, *ctx, s, c) && (s == self.schedule@ || exists|now: i64|
                    s == normalized_schedule(self.schedule@, now as int)),
    {
        let ghost this = self;
        let ScheduleJobInput {
            schedule_id,
            name,
            description,
            schedule,
            task,
            session_mode,
            agent_id,
            delete_after_run,
            timeout_seconds,
            context_messages,
            delivery,
        } = self;
        let normalized = normalize_schedule_type(schedule);
        let job = ScheduleJobInput {
            schedule_id,
            name,
            description,
            schedule: ScheduleType::Every { interval_ms: 0 },
            task,
            session_mode,
            agent_id,
            delete_after_run,
            timeout_seconds,
            context_messages,
            delivery,
        };
        let c = job.config_with_schedule(default_agent_id, ctx, normalized);
        proof {
            let now = choose|now: i64|
                if target_fits(this.schedule@, now as int) {
                    normalized@ == normalized_schedule(this.schedule@, now as int)
                } else {
                    normalized@ == this.schedule@
                };
            assert(this.config_matches(default_agent_id@, *ctx, normalized@, c));
        }
        c
    }
}

// ───────────────────────────── Tool requests ─────────────────────────────

/// A request to the schedule tool.
pub enum ScheduleRequest {
    List,
    Add { job: ScheduleJobInput },
    /// `patch` is the JSON text of the partial update.
    Update { schedule_id: String, patch: String },
    Remove { schedule_id: String },
    Run { schedule_id: String },
}

/// The request named by `action`, or the tool error that answers it: a missing
/// job, schedule id or patch, or an unknown action.
pub fn schedule_request(
    action: &str,
    job: Option<ScheduleJobInput>,
    schedule_id: Option<String>,
    patch: Option<String>,
) -> (r: Result<ScheduleRequest, ToolOutput>)
    ensures
        action@ == "list"@ ==> r matches Ok(ScheduleRequest::List),
        action@ == "add"@ ==> match r {
            Ok(ScheduleRequest::Add { job: j }) => job == Some(j),
            Err(e) => job is None && e.is_error && e.content@ == "job is required for add action"@,
            _ => false,
        },
        action@ == "update"@ ==> match r {
            Ok(ScheduleRequest::Update { schedule_id: id, patch: p }) => schedule_id == Some(id)
                && patch == Some(p),
            Err(e) => e.is_error && (if schedule_id is None {
                e.content@ == "schedule_id is required for update action"@
            } else {
                patch is None && e.content@ == "patch is required for update action"@
            }),
            _ => false,
        },
        action@ == "remove"@ ==> match r {
            Ok(ScheduleRequest::Remove { schedule_id: id }) => schedule_id == Some(id),
            Err(e) => schedule_id is None && e.is_error && e.content@
                == "schedule_id is required for remove action"@,
            _ => false,
        },
        action@ == "run"@ ==> match r {
            Ok(ScheduleRequest::Run { schedule_id: id }) => schedule_id == Some(id),
            Err(e) => schedule_id is None && e.is_error && e.content@
                == "schedule_id is required for run action"@,
            _ => false,
        },
        !(action@ == "list"@ || action@ == "add"@ || action@ == "update"@ || action@ == "remove"@
            || action@ == "run"@) ==> match r {
            Err(e) => e.is_error && e.content@ == "Unknown action: "@ + action@,
            _ => false,
        },
{
    proof {
        reveal_strlit("list");
        reveal_strlit("add");
        reveal_strlit("update");
        reveal_strlit("remove");
        reveal_strlit("run");
        assert("add"@[0] != "run"@[0]);
        assert("update"@[0] != "remove"@[0]);
        assert("list"@ != "add"@ && "list"@ != "update"@ && "list"@ != "remove"@ && "list"@ != "run"@);
        assert("add"@ != "update"@ && "add"@ != "remove"@ && "add"@ != "run"@);
        assert("update"@ != "remove"@);
        assert("update"@.len() != "run"@.len());
        assert("remove"@.len() != "run"@.len());
    }
    if crate::text::str_eq(action, "list") {
        Ok(ScheduleRequest::List)
    } else if crate::text::str_eq(action, "add") {
        match job {
            Some(j) => Ok(ScheduleRequest::Add { job: j }),
            None => Err(tool_error(owned("job is required for add action"))),
        }
    } else if crate::text::str_eq(action, "update") {
        match schedule_id {
            Some(id) => match patch {
                Some(p) => Ok(ScheduleRequest::Update { schedule_id: id, patch: p }),
                None => Err(tool_error(owned("patch is required for update action"))),
            },
            None => Err(tool_error(owned("schedule_id is required for update action"))),
        }
    } else if crate::text::str_eq(action, "remove") {
        match schedule_id {
            Some(id) => Ok(ScheduleRequest::Remove { schedule_id: id }),
            None => Err(tool_error(owned("schedule_id is required for remove action"))),
        }
    } else if crate::text::str_eq(action, "run") {
        match schedule_id {
            Some(id) => Ok(ScheduleRequest::Run { schedule_id: id }),
            None => Err(tool_error(owned("schedule_id is required for run action"))),
        }
    } else {
        let mut m = owned("Unknown action: ");
        push_str(&mut m, action);
        Err(tool_error(m))
    }
}

/// The tool's answer once a schedule was updated, removed or run.
pub fn schedule_done_message(request: &ScheduleRequest) -> (r: String)
    ensures
        match request {
            ScheduleRequest::Update { schedule_id, .. } => r@ == "Updated schedule '"@ + schedule_id@ + "'"@,
            ScheduleRequest::Remove { schedule_id } => r@ == "Removed schedule '"@ + schedule_id@ + "'"@,
            ScheduleRequest::Run { schedule_id } => r@ == "Triggered immediate run of '"@ + schedule_id@ + "'"@,
            _ => r@.len() == 0,
        },
{
    match request {
        ScheduleRequest::Update { schedule_id, .. } => {
            let mut m = owned("Updated schedule '");
            push_str(&mut m, schedule_id.as_str());
            push_str(&mut m, "'");
            m
        },
        ScheduleRequest::Remove { schedule_id } => {
            let mut m = owned("Removed schedule '");
            push_str(&mut m, schedule_id.as_str());
            push_str(&mut m, "'");
            m
        },
        ScheduleRequest::Run { schedule_id } => {
            let mut m = owned("Triggered immediate run of '");
            push_str(&mut m, schedule_id.as_str());
            push_str(&mut m, "'");
            m
        },
        _ => String::new(),
    }
}

} // verus!
