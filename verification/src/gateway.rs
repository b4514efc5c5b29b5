//! The gateway between channels and agents: routing inbound messages, the
//! `/approve` command, and what becomes of scheduled tasks and their delivery.
use vstd::prelude::*;
use crate::text::{trim, words, has_prefix, contains_seq, ascii_lower, decimal, chars_of, trim_chars, split_whitespace_chars, string_from_chars, owned, push_str, str_eq, str_contains, starts_with_chars, ascii_lowercase_chars, copy_string, slice_chars, usize_to_string, u64_to_string};
use crate::config::{RoutingConfig, RoutingBinding};
use crate::tool::copy_optional;
use crate::shell::ApprovalDecision;
use crate::keyed::{unique_keys, has_key, value_of, find_key, lemma_key_index, lemma_remove_entry, lemma_push_entry};

verus! {

// ───────────────────────────── Rate limits ─────────────────────────────

/// Per-user request rate limits.
pub struct RateLimitConfig {
    pub requests_per_minute: u32,
    pub burst: u32,
}

impl Default for RateLimitConfig {
    fn default() -> (c: Self)
        ensures
            c.requests_per_minute == 30,
            c.burst == 10,
    {
        RateLimitConfig { requests_per_minute: 30, burst: 10 }
    }
}

// ───────────────────────────── Routing ─────────────────────────────

/// A message arriving from a channel.
pub struct InboundMessage {
    pub trace_id: String,
    pub channel_type: String,
    pub connector_id: String,
    pub conversation_scope: String,
    pub user_scope: String,
    pub text: String,
    /// When it arrived, milliseconds since the Unix epoch.
    pub at_ms: i64,
    pub thread_id: Option<String>,
    pub is_mention: bool,
    pub mention_target: Option<String>,
    pub message_id: Option<String>,
}

/// A binding routes a message of its channel and connector: `dm` bindings take
/// conversations whose scope does not mention "group", `mention` bindings take
/// mentions of their pattern, `group` bindings take everything.
pub open spec fn binding_selects(b: RoutingBinding, m: InboundMessage) -> bool {
    &&& b.channel_type@ == m.channel_type@
    &&& b.connector_id@ == m.connector_id@
    &&& {
        ||| (b.match_rule.kind@ == "dm"@ && !contains_seq(m.conversation_scope@, "group"@))
        ||| (b.match_rule.kind@ == "mention"@ && m.is_mention && b.match_rule.pattern.is_some()
            && m.mention_target.is_some() && m.mention_target.unwrap()@
            == b.match_rule.pattern.unwrap()@)
        ||| b.match_rule.kind@ == "group"@
    }
}

/// The agent of the first binding that routes the message, else the default.
pub open spec fn routed_agent(bindings: Seq<RoutingBinding>, m: InboundMessage, default: Seq<char>) -> Seq<char>
    decreases bindings.len(),
{
    if bindings.len() == 0 {
        default
    } else if binding_selects(bindings[0], m) {
        bindings[0].agent_id@
    } else {
        routed_agent(bindings.skip(1), m, default)
    }
}

fn selects(b: &RoutingBinding, m: &InboundMessage) -> (r: bool)
    ensures
        r == binding_selects(*b, *m),
{
    if !str_eq(b.channel_type.as_str(), m.channel_type.as_str()) || !str_eq(
        b.connector_id.as_str(),
        m.connector_id.as_str(),
    ) {
        return false;
    }
    let kind = b.match_rule.kind.as_str();
    if str_eq(kind, "dm") && !str_contains(m.conversation_scope.as_str(), "group") {
        return true;
    }
    if str_eq(kind, "mention") && m.is_mention {
        if let Some(pattern) = &b.match_rule.pattern {
            if let Some(target) = &m.mention_target {
                if str_eq(target.as_str(), pattern.as_str()) {
                    return true;
                }
            }
        }
    }
    str_eq(kind, "group")
}

/// The first binding that selects a message takes it: when the binding at `i`
/// selects the message and none before it does, the message goes to that
/// binding's agent.
pub proof fn law_first_selecting_binding_wins(bindings: Seq<RoutingBinding>, m: InboundMessage, default: Seq<char>, i: int)
    requires
        0 <= i < bindings.len(),
        binding_selects(bindings[i], m),
        forall|j: int| 0 <= j < i ==> !binding_selects(#[trigger] bindings[j], m),
    ensures
        routed_agent(bindings, m, default) == bindings[i].agent_id@,
    decreases i,
{
    if i > 0 {
        assert(!binding_selects(bindings[0], m));
        let rest = bindings.skip(1);
        assert forall|j: int| 0 <= j < i - 1 implies !binding_selects(#[trigger] rest[j], m) by {
            assert(rest[j] == bindings[j + 1]);
        }
        assert(rest[i - 1] == bindings[i]);
        law_first_selecting_binding_wins(rest, m, default, i - 1);
    }
}

/// A message that no binding selects goes to the default agent.
pub proof fn law_unrouted_goes_to_default(bindings: Seq<RoutingBinding>, m: InboundMessage, default: Seq<char>)
    requires
        forall|j: int| 0 <= j < bindings.len() ==> !binding_selects(#[trigger] bindings[j], m),
    ensures
        routed_agent(bindings, m, default) == default,
    decreases bindings.len(),
{
    if bindings.len() > 0 {
        assert(!binding_selects(bindings[0], m));
        let rest = bindings.skip(1);
        assert forall|j: int| 0 <= j < rest.len() implies !binding_selects(#[trigger] rest[j], m) by {
            assert(rest[j] == bindings[j + 1]);
        }
        law_unrouted_goes_to_default(rest, m, default);
    }
}

/// The agent an inbound message goes to.
pub fn resolve_agent(routing: &RoutingConfig, inbound: &InboundMessage) -> (r: String)
    ensures
        r@ == routed_agent(routing.bindings@, *inbound, routing.default_agent_id@),
{
    let bs = &routing.bindings;
    assert(bs@.skip(0) =~= bs@);
    for i in 0..bs.len()
        invariant
            bs == &routing.bindings,
            routed_agent(bs@, *inbound, routing.default_agent_id@) == routed_agent(
                bs@.skip(i as int),
                *inbound,
                routing.default_agent_id@,
            ),
    {
        assert(bs@.skip(i as int)[0] == bs@[i as int]);
        assert(bs@.skip(i as int).skip(1) =~= bs@.skip(i + 1));
        if selects(&bs[i], inbound) {
            return copy_string(&bs[i].agent_id);
        }
    }
    copy_string(&routing.default_agent_id)
}

/// Whether a channel's activity is remembered as the agent's last active
/// channel (heartbeat and system channels are not).
pub fn tracks_last_channel(channel_type: &str) -> (r: bool)
    ensures
        r == (channel_type@ != "heartbeat"@ && channel_type@ != "system"@),
{
    !str_eq(channel_type, "heartbeat") && !str_eq(channel_type, "system")
}

// ───────────────────────────── Last active channels ─────────────────────────────

/// Where an agent was last talked to.
pub struct ChannelTarget {
    pub channel_type: String,
    pub connector_id: String,
    pub conversation_scope: String,
}

/// The view of a channel target.
pub open spec fn target_view(t: ChannelTarget) -> (Seq<char>, Seq<char>, Seq<char>) {
    (t.channel_type@, t.connector_id@, t.conversation_scope@)
}

/// The last active channel of each agent (for heartbeat delivery).
pub struct LastActiveChannels {
    pub entries: Vec<(String, ChannelTarget)>,
}

impl LastActiveChannels {
    /// Each agent has at most one entry.
    pub open spec fn wf(&self) -> bool {
        unique_keys(self.entries@)
    }

    /// The agent has a recorded channel.
    pub open spec fn has(&self, agent_id: Seq<char>) -> bool {
        has_key(self.entries@, agent_id)
    }

    /// The agent's recorded channel (meaningful when it has one).
    pub open spec fn target_of(&self, agent_id: Seq<char>) -> (Seq<char>, Seq<char>, Seq<char>) {
        target_view(value_of(self.entries@, agent_id))
    }

    pub fn new() -> (r: Self)
        ensures
            r.wf(),
            forall|a: Seq<char>| !r.has(a),
    {
        LastActiveChannels { entries: Vec::new() }
    }

    /// Records where an agent was just talked to, unless it was a heartbeat or
    /// system channel.
    pub fn record(&mut self, agent_id: &str, target: ChannelTarget)
        requires
            old(self).wf(),
        ensures
            final(self).wf(),
            tracks_last_channel_spec(target.channel_type@) ==> final(self).has(agent_id@)
                && final(self).target_of(agent_id@) == target_view(target),
            !tracks_last_channel_spec(target.channel_type@) ==> final(self).entries@ == old(self).entries@,
            forall|k: Seq<char>|
                k != agent_id@ ==> (final(self).has(k) == old(self).has(k) && (old(self).has(k)
                    ==> final(self).target_of(k) == old(self).target_of(k))),
    {
        if !tracks_last_channel(target.channel_type.as_str()) {
            return;
        }
        if let Some(i) = find_key(&self.entries, agent_id) {
            proof {
                lemma_remove_entry(self.entries@, i as int);
            }
            let _ = self.entries.remove(i);
        }
        let entry = (owned(agent_id), target);
        let ghost before = self.entries@;
        proof {
            lemma_push_entry(before, entry);
        }
        self.entries.push(entry);
    }

    /// The agent's last active channel, if one was recorded.
    pub fn get(&self, agent_id: &str) -> (r: Option<ChannelTarget>)
        requires
            self.wf(),
        ensures
            match r {
                Some(t) => self.has(agent_id@) && target_view(t) == self.target_of(agent_id@),
                None => !self.has(agent_id@),
            },
    {
        match find_key(&self.entries, agent_id) {
            Some(i) => {
                proof {
                    lemma_key_index(self.entries@, i as int);
                }
                let t = &self.entries[i].1;
                Some(ChannelTarget {
                    channel_type: copy_string(&t.channel_type),
                    connector_id: copy_string(&t.connector_id),
                    conversation_scope: copy_string(&t.conversation_scope),
                })
            },
            None => None,
        }
    }
}

/// Channels other than heartbeat and system ones are remembered.
pub open spec fn tracks_last_channel_spec(channel_type: Seq<char>) -> bool {
    channel_type != "heartbeat"@ && channel_type != "system"@
}

// ───────────────────────────── /approve ─────────────────────────────

/// What an `/approve` message asks for.
pub enum ApproveCommand {
    /// The reply to send back as it is (usage or an unknown decision).
    Reply(String),
    /// Resolve the pending approval with this short id.
    Resolve { short_id: String, decision: ApprovalDecision },
}

/// The decision a word names, ignoring ASCII case.
pub open spec fn decision_word(w: Seq<char>) -> Option<ApprovalDecision> {
    let l = ascii_lower(w);
    if l == "allow"@ || l == "once"@ || l == "allow-once"@ {
        Some(ApprovalDecision::AllowOnce)
    } else if l == "always"@ || l == "allow-always"@ || l == "always-allow"@ {
        Some(ApprovalDecision::AlwaysAllow)
    } else if l == "deny"@ || l == "reject"@ || l == "block"@ {
        Some(ApprovalDecision::Deny)
    } else {
        None
    }
}

/// The meaning of a message as an `/approve` command, `None` when it is none:
/// usage help for fewer than three words, the id and decision otherwise (or a
/// reply naming an unknown decision).
pub open spec fn approve_command(text: Seq<char>) -> Option<ApproveView> {
    let t = trim(text);
    let ws = words(t);
    if !has_prefix(t, "/approve"@) {
        None
    } else if ws.len() < 3 {
        Some(ApproveView::Reply("Usage: /approve <id> allow|always|deny"@))
    } else {
        match decision_word(ws[2]) {
            Some(d) => Some(ApproveView::Resolve { short_id: ws[1], decision: d }),
            None => Some(
                ApproveView::Reply(
                    "Unknown decision '"@ + ws[2] + "'. Use: allow, always, or deny"@,
                ),
            ),
        }
    }
}

/// Model of an `/approve` command.
pub enum ApproveView {
    Reply(Seq<char>),
    Resolve { short_id: Seq<char>, decision: ApprovalDecision },
}

impl View for ApproveCommand {
    type V = ApproveView;

    open spec fn view(&self) -> ApproveView {
        match self {
            ApproveCommand::Reply(s) => ApproveView::Reply(s@),
            ApproveCommand::Resolve { short_id, decision } => ApproveView::Resolve {
                short_id: short_id@,
                decision: *decision,
            },
        }
    }
}

fn parse_decision(w: &Vec<char>) -> (r: Option<ApprovalDecision>)
    ensures
        r == decision_word(w@),
{
    let lower = ascii_lowercase_chars(w.as_slice());
    let s = string_from_chars(lower.as_slice());
    let l = s.as_str();
    if str_eq(l, "allow") || str_eq(l, "once") || str_eq(l, "allow-once") {
        Some(ApprovalDecision::AllowOnce)
    } else if str_eq(l, "always") || str_eq(l, "allow-always") || str_eq(l, "always-allow") {
        Some(ApprovalDecision::AlwaysAllow)
    } else if str_eq(l, "deny") || str_eq(l, "reject") || str_eq(l, "block") {
        Some(ApprovalDecision::Deny)
    } else {
        None
    }
}

/// Reads an `/approve <id> <decision>` message.
pub fn parse_approve_command(text: &str) -> (r: Option<ApproveCommand>)
    ensures
        match r {
            Some(c) => approve_command(text@) == Some(c@),
            None => approve_command(text@) is None,
        },
{
    let cs = chars_of(text);
    let t = trim_chars(cs.as_slice());
    let prefix = chars_of("/approve");
    if !starts_with_chars(t.as_slice(), prefix.as_slice()) {
        return None;
    }
    let ws = split_whitespace_chars(t.as_slice());
    if ws.len() < 3 {
        return Some(ApproveCommand::Reply(owned("Usage: /approve <id> allow|always|deny")));
    }
    assert(ws@[1]@ == words(t@)[1]);
    assert(ws@[2]@ == words(t@)[2]);
    match parse_decision(&ws[2]) {
        Some(d) => Some(
            ApproveCommand::Resolve { short_id: string_from_chars(ws[1].as_slice()), decision: d },
        ),
        None => {
            let mut m = owned("Unknown decision '");
            let w = string_from_chars(ws[2].as_slice());
            push_str(&mut m, w.as_str());
            push_str(&mut m, "'. Use: allow, always, or deny");
            Some(ApproveCommand::Reply(m))
        },
    }
}

/// The name `Debug` gives a decision.
pub open spec fn decision_name(d: ApprovalDecision) -> Seq<char> {
    match d {
        ApprovalDecision::AllowOnce => "AllowOnce"@,
        ApprovalDecision::AlwaysAllow => "AlwaysAllow"@,
        ApprovalDecision::Deny => "Deny"@,
    }
}

/// The reply once an approval was resolved, or the error that prevented it.
pub fn approve_reply(decision: ApprovalDecision, outcome: Result<(), String>) -> (r: String)
    ensures
        match outcome {
            Ok(()) => r@ == "✅ Approval resolved: "@ + decision_name(decision),
            Err(e) => r@ == "❌ "@ + e@,
        },
{
    match outcome {
        Ok(()) => {
            let mut m = owned("✅ Approval resolved: ");
            push_str(
                &mut m,
                match decision {
                    ApprovalDecision::AllowOnce => "AllowOnce",
                    ApprovalDecision::AlwaysAllow => "AlwaysAllow",
                    ApprovalDecision::Deny => "Deny",
                },
            );
            m
        },
        Err(e) => {
            let mut m = owned("❌ ");
            push_str(&mut m, e.as_str());
            m
        },
    }
}

// ───────────────────────────── Approval requests ─────────────────────────────

/// The short id of an approval request: the first 8 characters of its trace id.
pub fn short_id(trace_id: &str) -> (r: String)
    requires
        trace_id@.len() >= 8,
    ensures
        r@ == trace_id@.take(8),
{
    let cs = chars_of(trace_id);
    let h = slice_chars(cs.as_slice(), 0, 8);
    string_from_chars(h.as_slice())
}

/// The command shown in an approval request, with the network target on a
/// line of its own when there is one.
pub fn approval_request_command(command: &str, network_target: Option<&str>) -> (r: String)
    ensures
        r@ == match network_target {
            Some(t) => command@ + "\nNetwork: "@ + t@,
            None => command@,
        },
{
    let mut c = owned(command);
    if let Some(t) = network_target {
        push_str(&mut c, "\nNetwork: ");
        push_str(&mut c, t);
    }
    c
}

// ───────────────────────────── Wait tasks ─────────────────────────────

/// The text before the first colon and the text after it.
pub open spec fn split_first_colon(s: Seq<char>) -> Option<(Seq<char>, Seq<char>)>
    decreases s.len(),
{
    if s.len() == 0 {
        None
    } else if s[0] == ':' {
        Some((Seq::empty(), s.skip(1)))
    } else {
        match split_first_colon(s.skip(1)) {
            Some((a, b)) => Some((seq![s[0]] + a, b)),
            None => None,
        }
    }
}

/// The channel of a session key `channel_type:connector_id:conversation_scope`
/// (the scope may hold further colons).
pub open spec fn session_key_parts(key: Seq<char>) -> Option<(Seq<char>, Seq<char>, Seq<char>)> {
    match split_first_colon(key) {
        Some((a, rest)) => match split_first_colon(rest) {
            Some((b, c)) => Some((a, b, c)),
            None => None,
        },
        None => None,
    }
}

proof fn lemma_split_first_colon(s: Seq<char>, i: int)
    requires
        0 <= i <= s.len(),
        forall|k: int| 0 <= k < i ==> s[k] != ':',
        i < s.len() ==> s[i] == ':',
    ensures
        i == s.len() ==> split_first_colon(s) is None,
        i < s.len() ==> split_first_colon(s) == Some((s.take(i), s.skip(i + 1))),
    decreases i,
{
    if s.len() > 0 && i > 0 {
        lemma_split_first_colon(s.skip(1), i - 1);
        if i < s.len() {
            assert(seq![s[0]] + s.skip(1).take(i - 1) =~= s.take(i));
            assert(s.skip(1).skip(i) =~= s.skip(i + 1));
        }
    } else if i == 0 && s.len() > 0 {
        assert(s.take(0) =~= Seq::<char>::empty());
    }
}

fn first_colon(s: &[char]) -> (r: usize)
    ensures
        r <= s@.len(),
        forall|k: int| 0 <= k < r ==> s@[k] != ':',
        r < s@.len() ==> s@[r as int] == ':',
{
    let mut i: usize = 0;
    while i < s.len()
        invariant
            i <= s@.len(),
            forall|k: int| 0 <= k < i ==> s@[k] != ':',
        decreases s@.len() - i,
    {
        if s[i] == ':' {
            return i;
        }
        i = i + 1;
    }
    i
}

/// A key written `channel_type:connector_id:conversation_scope`, with no colon
/// in the first two parts, splits back into exactly those parts.
pub proof fn law_session_key_roundtrip(a: Seq<char>, b: Seq<char>, c: Seq<char>)
    requires
        !a.contains(':'),
        !b.contains(':'),
    ensures
        session_key_parts(a + seq![':'] + b + seq![':'] + c) == Some((a, b, c)),
{
    let rest = b + seq![':'] + c;
    let key = a + seq![':'] + rest;
    assert(key =~= a + seq![':'] + b + seq![':'] + c);
    assert forall|k: int| 0 <= k < a.len() implies key[k] != ':' by {
        assert(key[k] == a[k]);
    }
    lemma_split_first_colon(key, a.len() as int);
    assert(key.take(a.len() as int) =~= a);
    assert(key.skip(a.len() as int + 1) =~= rest);
    assert forall|k: int| 0 <= k < b.len() implies rest[k] != ':' by {
        assert(rest[k] == b[k]);
    }
    lemma_split_first_colon(rest, b.len() as int);
    assert(rest.take(b.len() as int) =~= b);
    assert(rest.skip(b.len() as int + 1) =~= c);
}

/// Splits a session key into channel type, connector and conversation scope.
pub fn split_session_key(key: &str) -> (r: Option<(String, String, String)>)
    ensures
        match r {
            Some((a, b, c)) => session_key_parts(key@) == Some((a@, b@, c@)),
            None => session_key_parts(key@) is None,
        },
{
    let cs = chars_of(key);
    let n = cs.len();
    let i = first_colon(cs.as_slice());
    proof {
        lemma_split_first_colon(key@, i as int);
    }
    if i == n {
        return None;
    }
    let rest = slice_chars(cs.as_slice(), i + 1, n);
    assert(rest@ =~= key@.skip(i + 1));
    let j = first_colon(rest.as_slice());
    proof {
        lemma_split_first_colon(rest@, j as int);
    }
    if j == rest.len() {
        return None;
    }
    let a = slice_chars(cs.as_slice(), 0, i);
    let b = slice_chars(rest.as_slice(), 0, j);
    let c = slice_chars(rest.as_slice(), j + 1, rest.len());
    assert(a@ =~= key@.take(i as int));
    assert(b@ =~= rest@.take(j as int));
    assert(c@ =~= rest@.skip(j + 1));
    Some(
        (
            string_from_chars(a.as_slice()),
            string_from_chars(b.as_slice()),
            string_from_chars(c.as_slice()),
        ),
    )
}

/// The message delivering a finished wait task: its message, then the first
/// 500 characters of its output in a code block when there is output.
pub fn wait_task_text(message: &str, output: Option<&str>) -> (r: String)
    ensures
        r@ == match output {
            Some(o) => message@ + "\n\n```\n"@ + o@.take(
                if o@.len() <= 500 {
                    o@.len() as int
                } else {
                    500
                },
            ) + "\n```"@,
            None => message@,
        },
{
    let mut t = owned(message);
    if let Some(o) = output {
        let cs = chars_of(o);
        let k = if cs.len() <= 500 { cs.len() } else { 500 };
        let p = slice_chars(cs.as_slice(), 0, k);
        push_str(&mut t, "\n\n```\n");
        let ps = string_from_chars(p.as_slice());
        push_str(&mut t, ps.as_str());
        push_str(&mut t, "\n```");
    }
    t
}

// ───────────────────────────── Scheduled tasks ─────────────────────────────

/// How a scheduled run ended.
#[derive(Debug, Clone, Copy, PartialEq, Eq, Structural)]
pub enum ScheduledRunStatus {
    /// The run succeeded.
    Succeeded,
    Error,
    Skipped,
}

/// Whether a scheduled run's result was delivered.
#[derive(Debug, Clone, Copy, PartialEq, Eq, Structural)]
pub enum ScheduledDeliveryStatus {
    Delivered,
    NotDelivered,
    NotRequested,
}

/// How a scheduled run's result is delivered.
#[derive(Debug, Clone, Copy, PartialEq, Eq, Structural)]
pub enum ScheduledDeliveryMode {
    /// Not delivered.
    Quiet,
    Announce,
    Webhook,
}

/// Where to report a failed delivery.
pub struct FailureDestination {
    pub channel: Option<String>,
    pub connector_id: Option<String>,
    pub conversation_scope: Option<String>,
}

/// The delivery settings a scheduled run carries.
pub struct ScheduledDeliveryInfo {
    pub mode: ScheduledDeliveryMode,
    pub channel: Option<String>,
    pub connector_id: Option<String>,
    pub source_channel_type: Option<String>,
    pub source_connector_id: Option<String>,
    pub source_conversation_scope: Option<String>,
    pub source_user_scope: Option<String>,
    pub best_effort: bool,
    pub webhook_url: Option<String>,
    pub failure_destination: Option<FailureDestination>,
}

/// One delivery attempt of a run's result.
pub struct DeliveryAttempt {
    pub schedule_id: String,
    pub status: ScheduledRunStatus,
    pub response: Option<String>,
    pub error: Option<String>,
    pub started_at_ms: i64,
    pub ended_at_ms: i64,
}

/// Where a message is announced.
pub struct Announcement {
    pub channel_type: String,
    pub connector_id: String,
    pub conversation_scope: String,
    pub text: String,
}

/// What the delivery of a run's result calls for.
pub enum DeliveryPlan {
    /// Nothing to deliver.
    NotRequested,
    /// Announce this message.
    Announce(Announcement),
    /// Post this payload to the webhook.
    Webhook { url: String, status: String, duration_ms: u64 },
    /// Delivery is impossible, for this reason.
    Fail(String),
}

/// The outcome of a delivery.
pub struct DeliveryOutcome {
    pub status: ScheduledDeliveryStatus,
    pub error: Option<String>,
}

/// A text that is present and not blank.
pub open spec fn present(o: Option<String>) -> bool {
    o.is_some() && trim(o.unwrap()@).len() > 0
}

/// The first of two optional values that is present.
pub open spec fn first_some(a: Option<String>, b: Option<String>) -> Option<String> {
    if a.is_some() {
        a
    } else {
        b
    }
}

/// The text announced for a run: its response when not blank, else its error
/// after a cross mark when not blank, else none.
pub open spec fn announce_text(a: DeliveryAttempt) -> Option<Seq<char>> {
    if present(a.response) {
        Some(a.response.unwrap()@)
    } else if present(a.error) {
        Some("❌ "@ + a.error.unwrap()@)
    } else {
        None
    }
}

/// The status word sent to a webhook.
pub open spec fn run_status_word(s: ScheduledRunStatus) -> Seq<char> {
    match s {
        ScheduledRunStatus::Succeeded => "ok"@,
        ScheduledRunStatus::Error => "error"@,
        ScheduledRunStatus::Skipped => "skipped"@,
    }
}

fn not_blank(o: &Option<String>) -> (r: bool)
    ensures
        r == present(*o),
{
    match o {
        Some(s) => {
            let cs = chars_of(s.as_str());
            trim_chars(cs.as_slice()).len() > 0
        },
        None => false,
    }
}

/// The configured value wins over the source one: a set value is taken, and
/// the source value only when none is set.
pub proof fn law_configured_target_wins(configured: Option<String>, source: Option<String>)
    ensures
        configured is Some ==> first_some(configured, source) == configured,
        configured is None ==> first_some(configured, source) == source,
{
}

fn first_of(a: &Option<String>, b: &Option<String>) -> (r: Option<String>)
    ensures
        r.is_some() == first_some(*a, *b).is_some(),
        r.is_some() ==> r.unwrap()@ == first_some(*a, *b).unwrap()@,
{
    if a.is_some() {
        copy_optional(a)
    } else {
        copy_optional(b)
    }
}

/// The delivery a run calls for: nothing in quiet mode or when there is nothing
/// to announce; an announcement to the configured (else source) channel and
/// connector in the source conversation; a webhook post; or a failure when the
/// target is incomplete.
pub fn plan_delivery(delivery: &ScheduledDeliveryInfo, attempt: &DeliveryAttempt) -> (r: DeliveryPlan)
    ensures
        match delivery.mode {
            ScheduledDeliveryMode::Quiet => r is NotRequested,
            ScheduledDeliveryMode::Announce => match announce_text(*attempt) {
                None => r is NotRequested,
                Some(text) => {
                    let ch = first_some(delivery.channel, delivery.source_channel_type);
                    let conn = first_some(delivery.connector_id, delivery.source_connector_id);
                    let scope = delivery.source_conversation_scope;
                    if ch.is_some() && conn.is_some() && scope.is_some() {
                        r matches DeliveryPlan::Announce(a) && a.text@ == text && a.channel_type@
                            == ch.unwrap()@ && a.connector_id@ == conn.unwrap()@
                            && a.conversation_scope@ == scope.unwrap()@
                    } else {
                        r matches DeliveryPlan::Fail(m) && m@
                            == "announce delivery target incomplete (missing channel/connector/scope)"@
                    }
                },
            },
            ScheduledDeliveryMode::Webhook => match delivery.webhook_url {
                None => r matches DeliveryPlan::Fail(m) && m@
                    == "webhook delivery mode set but no webhook_url provided"@,
                Some(u) => r matches DeliveryPlan::Webhook { url, status, duration_ms } && url@ == u@
                    && status@ == run_status_word(attempt.status) && duration_ms == (
                if attempt.ended_at_ms - attempt.started_at_ms >= 0 {
                    attempt.ended_at_ms - attempt.started_at_ms
                } else {
                    0
                }),
            },
        },
        r matches DeliveryPlan::Announce(a) ==> {
            &&& delivery.channel is Some ==> a.channel_type@ == delivery.channel.unwrap()@
            &&& delivery.channel is None ==> delivery.source_channel_type is Some
                && a.channel_type@ == delivery.source_channel_type.unwrap()@
            &&& delivery.connector_id is Some ==> a.connector_id@ == delivery.connector_id.unwrap()@
            &&& delivery.connector_id is None ==> delivery.source_connector_id is Some
                && a.connector_id@ == delivery.source_connector_id.unwrap()@
        },
{
    match delivery.mode {
        ScheduledDeliveryMode::Quiet => DeliveryPlan::NotRequested,
        ScheduledDeliveryMode::Announce => {
            let text = if not_blank(&attempt.response) {
                match &attempt.response {
                    Some(r) => copy_string(r),
                    None => String::new(),
                }
            } else if not_blank(&attempt.error) {
                let mut m = owned("❌ ");
                match &attempt.error {
                    Some(e) => push_str(&mut m, e.as_str()),
                    None => {},
                }
                m
            } else {
                return DeliveryPlan::NotRequested;
            };
            let ch = first_of(&delivery.channel, &delivery.source_channel_type);
            let conn = first_of(&delivery.connector_id, &delivery.source_connector_id);
            let scope = copy_optional(&delivery.source_conversation_scope);
            match (ch, conn, scope) {
                (Some(c), Some(n), Some(s)) => DeliveryPlan::Announce(
                    Announcement {
                        channel_type: c,
                        connector_id: n,
                        conversation_scope: s,
                        text,
                    },
                ),
                _ => DeliveryPlan::Fail(
                    owned("announce delivery target incomplete (missing channel/connector/scope)"),
                ),
            }
        },
        ScheduledDeliveryMode::Webhook => {
            match &delivery.webhook_url {
                None => DeliveryPlan::Fail(
                    owned("webhook delivery mode set but no webhook_url provided"),
                ),
                Some(u) => {
                    let status = owned(
                        match attempt.status {
                            ScheduledRunStatus::Succeeded => "ok",
                            ScheduledRunStatus::Error => "error",
                            ScheduledRunStatus::Skipped => "skipped",
                        },
                    );
                    let d: i128 = (attempt.ended_at_ms as i128) - (attempt.started_at_ms as i128);
                    let duration_ms: u64 = if d >= 0 {
                        d as u64
                    } else {
                        0
                    };
                    DeliveryPlan::Webhook { url: copy_string(u), status, duration_ms }
                },
            }
        },
    }
}

/// The outcome of a delivery once it was attempted: delivered, or not delivered
/// with the reason (an announcement whose publishing failed gets the reason
/// prefixed).
pub fn delivery_outcome(plan: &DeliveryPlan, result: Result<(), String>) -> (r: DeliveryOutcome)
    ensures
        match plan {
            DeliveryPlan::NotRequested => r.status == ScheduledDeliveryStatus::NotRequested
                && r.error is None,
            DeliveryPlan::Fail(m) => r.status == ScheduledDeliveryStatus::NotDelivered
                && r.error.is_some() && r.error.unwrap()@ == m@,
            DeliveryPlan::Announce(_) => match result {
                Ok(()) => r.status == ScheduledDeliveryStatus::Delivered && r.error is None,
                Err(e) => r.status == ScheduledDeliveryStatus::NotDelivered && r.error.is_some()
                    && r.error.unwrap()@ == "announce delivery publish failed: "@ + e@,
            },
            DeliveryPlan::Webhook { .. } => match result {
                Ok(()) => r.status == ScheduledDeliveryStatus::Delivered && r.error is None,
                Err(e) => r.status == ScheduledDeliveryStatus::NotDelivered && r.error.is_some()
                    && r.error.unwrap()@ == e@,
            },
        },
{
    match plan {
        DeliveryPlan::NotRequested => DeliveryOutcome {
            status: ScheduledDeliveryStatus::NotRequested,
            error: None,
        },
        DeliveryPlan::Fail(m) => DeliveryOutcome {
            status: ScheduledDeliveryStatus::NotDelivered,
            error: Some(copy_string(m)),
        },
        DeliveryPlan::Announce(_) => match result {
            Ok(()) => DeliveryOutcome { status: ScheduledDeliveryStatus::Delivered, error: None },
            Err(e) => {
                let mut m = owned("announce delivery publish failed: ");
                push_str(&mut m, e.as_str());
                DeliveryOutcome { status: ScheduledDeliveryStatus::NotDelivered, error: Some(m) }
            },
        },
        DeliveryPlan::Webhook { .. } => match result {
            Ok(()) => DeliveryOutcome { status: ScheduledDeliveryStatus::Delivered, error: None },
            Err(e) => DeliveryOutcome {
                status: ScheduledDeliveryStatus::NotDelivered,
                error: Some(e),
            },
        },
    }
}

/// The announcement telling the failure destination that a delivery failed,
/// when one is configured completely.
pub fn failure_notice(delivery: &ScheduledDeliveryInfo, schedule_id: &str, reason: &str) -> (r: Option<Announcement>)
    ensures
        match delivery.failure_destination {
            Some(d) => if d.channel.is_some() && d.connector_id.is_some()
                && d.conversation_scope.is_some() {
                r matches Some(a) && a.channel_type@ == d.channel.unwrap()@ && a.connector_id@
                    == d.connector_id.unwrap()@ && a.conversation_scope@
                    == d.conversation_scope.unwrap()@ && a.text@ == "⚠️ Schedule '"@
                    + schedule_id@ + "' delivery failed: "@ + reason@
            } else {
                r is None
            },
            None => r is None,
        },
{
    match &delivery.failure_destination {
        Some(d) => match (&d.channel, &d.connector_id, &d.conversation_scope) {
            (Some(c), Some(n), Some(s)) => {
                let mut text = owned("⚠️ Schedule '");
                push_str(&mut text, schedule_id);
                push_str(&mut text, "' delivery failed: ");
                push_str(&mut text, reason);
                Some(
                    Announcement {
                        channel_type: copy_string(c),
                        connector_id: copy_string(n),
                        conversation_scope: copy_string(s),
                        text,
                    },
                )
            },
            _ => None,
        },
        None => None,
    }
}

/// The status a run is recorded with once its result went out: a successful
/// run whose delivery failed counts as an error unless delivery is best effort
/// (the error is the delivery's, or "delivery failed").
pub fn completion_status(outcome: &DeliveryOutcome, best_effort: bool) -> (r: (ScheduledRunStatus, Option<String>))
    ensures
        if outcome.status == ScheduledDeliveryStatus::NotDelivered && !best_effort {
            r.0 == ScheduledRunStatus::Error && r.1.is_some() && r.1.unwrap()@ == (
            match outcome.error {
                Some(e) => e@,
                None => "delivery failed"@,
            })
        } else {
            r.0 == ScheduledRunStatus::Succeeded && r.1 is None
        },
{
    if outcome.status == ScheduledDeliveryStatus::NotDelivered && !best_effort {
        let e = match &outcome.error {
            Some(e) => copy_string(e),
            None => owned("delivery failed"),
        };
        (ScheduledRunStatus::Error, Some(e))
    } else {
        (ScheduledRunStatus::Succeeded, None)
    }
}

/// The text delivered for a reminder that is sent as it is.
pub fn direct_reminder_text(text: &str) -> (r: String)
    ensures
        r@ == "⏰ "@ + text@,
{
    let mut t = owned("⏰ ");
    push_str(&mut t, text);
    t
}

/// The message an agent receives for a scheduled reminder.
pub fn scheduled_reminder_prompt(text: &str) -> (r: String)
    ensures
        r@ == "[Scheduled Reminder]\n"@ + text@,
{
    let mut t = owned("[Scheduled Reminder]\n");
    push_str(&mut t, text);
    t
}

/// The user a scheduled run acts for: the source user, else `user:scheduler`.
pub fn scheduled_user_scope(delivery: &ScheduledDeliveryInfo) -> (r: String)
    ensures
        r@ == match delivery.source_user_scope {
            Some(u) => u@,
            None => "user:scheduler"@,
        },
{
    match &delivery.source_user_scope {
        Some(u) => copy_string(u),
        None => owned("user:scheduler"),
    }
}

/// The source conversation of a run, when all of channel, connector and scope
/// are known.
pub fn source_channel(delivery: &ScheduledDeliveryInfo) -> (r: Option<(String, String, String)>)
    ensures
        match r {
            Some((a, b, c)) => delivery.source_channel_type.is_some()
                && delivery.source_connector_id.is_some() && delivery.source_conversation_scope.is_some()
                && a@ == delivery.source_channel_type.unwrap()@ && b@
                == delivery.source_connector_id.unwrap()@ && c@
                == delivery.source_conversation_scope.unwrap()@,
            None => !(delivery.source_channel_type.is_some()
                && delivery.source_connector_id.is_some()
                && delivery.source_conversation_scope.is_some()),
        },
{
    match (&delivery.source_channel_type, &delivery.source_connector_id, &delivery.source_conversation_scope) {
        (Some(a), Some(b), Some(c)) => Some((copy_string(a), copy_string(b), copy_string(c))),
        _ => None,
    }
}

/// The conversation an agent turn without a source runs in:
/// `scheduler`, the schedule id, and `schedule:<id>:<unique suffix>`.
pub fn scheduler_channel(schedule_id: &str, unique: &str) -> (r: (String, String, String))
    ensures
        r.0@ == "scheduler"@,
        r.1@ == schedule_id@,
        r.2@ == "schedule:"@ + schedule_id@ + ":"@ + unique@,
{
    let mut scope = owned("schedule:");
    push_str(&mut scope, schedule_id);
    push_str(&mut scope, ":");
    push_str(&mut scope, unique);
    (owned("scheduler"), owned(schedule_id), scope)
}

/// Seconds an agent turn may take: its timeout, between 30 and 3600.
pub fn agent_turn_timeout(timeout_seconds: u64) -> (r: u64)
    ensures
        r == (if timeout_seconds < 30 {
            30
        } else if timeout_seconds > 3600 {
            3600
        } else {
            timeout_seconds
        }),
{
    if timeout_seconds < 30 {
        30
    } else if timeout_seconds > 3600 {
        3600
    } else {
        timeout_seconds
    }
}

/// The error recorded when an agent turn ran out of time.
pub fn timed_out_error(seconds: u64) -> (r: String)
    ensures
        r@ == "execution timed out after "@ + decimal(seconds as nat) + "s"@,
{
    let mut m = owned("execution timed out after ");
    let n = u64_to_string(seconds);
    push_str(&mut m, n.as_str());
    push_str(&mut m, "s");
    m
}

// ───────────────────────────── Webhook retries ─────────────────────────────

/// Retries after the first webhook attempt.
pub const WEBHOOK_MAX_RETRIES: u32 = 2;

/// What to do after a webhook attempt.
pub enum WebhookStep {
    /// Delivered.
    Done,
    /// Failed for good with this error.
    Fail(String),
    /// Wait this many seconds and try again; the error so far.
    Retry { delay_secs: u64, error: String },
}

/// The step after webhook attempt `attempt` (0 for the first), given the HTTP
/// status and body, or the transport error: success ends it; a server error or
/// a transport error is retried (after 2 s times the next attempt number) until
/// the retries are spent; any other status fails at once.
pub fn webhook_step(attempt: u32, response: Result<(u16, String), String>) -> (r: WebhookStep)
    requires
        attempt <= WEBHOOK_MAX_RETRIES,
    ensures
        match response {
            Ok((status, body)) => if 200 <= status < 300 {
                r is Done
            } else if 500 <= status < 600 {
                (if attempt < WEBHOOK_MAX_RETRIES {
                    r matches WebhookStep::Retry { delay_secs, error } && delay_secs == 2 * (
                    attempt + 1) && error@ == "webhook returned "@ + decimal(status as nat) + ": "@
                        + body@
                } else {
                    r matches WebhookStep::Fail(e) && e@ == "webhook returned "@ + decimal(
                        status as nat,
                    ) + ": "@ + body@
                })
            } else {
                r matches WebhookStep::Fail(e) && e@ == "webhook returned "@ + decimal(status as nat)
                    + ": "@ + body@
            },
            Err(t) => if attempt < WEBHOOK_MAX_RETRIES {
                r matches WebhookStep::Retry { delay_secs, error } && delay_secs == 2 * (attempt + 1)
                    && error@ == "webhook request failed: "@ + t@
            } else {
                r matches WebhookStep::Fail(e) && e@ == "webhook request failed: "@ + t@
            },
        },
{
    let error = match &response {
        Ok((status, body)) => {
            if 200 <= *status && *status < 300 {
                return WebhookStep::Done;
            }
            let mut m = owned("webhook returned ");
            let s = usize_to_string(*status as usize);
            push_str(&mut m, s.as_str());
            push_str(&mut m, ": ");
            push_str(&mut m, body.as_str());
            if !(500 <= *status && *status < 600) {
                return WebhookStep::Fail(m);
            }
            m
        },
        Err(t) => {
            let mut m = owned("webhook request failed: ");
            push_str(&mut m, t.as_str());
            m
        },
    };
    if attempt < WEBHOOK_MAX_RETRIES {
        WebhookStep::Retry { delay_secs: 2 * (attempt as u64 + 1), error }
    } else {
        WebhookStep::Fail(error)
    }
}

} // verus!
