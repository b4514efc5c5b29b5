//! The tool-use loop as a state machine: the caller asks the model, hands each
//! response to the loop, runs the tool calls it is given and hands their
//! results back, until the loop says the response is final or the rounds are
//! used up (then the caller asks once more, offering no tools).
use vstd::prelude::*;
use crate::context::{BlockView, ContentBlock, LlmMessage, MessageView, message_views, block_views, user_message};
use crate::orchestrator::{should_inject_web_search_reminder, collect_recent_messages, recent_conversation, perm_view};
use crate::policy::{Permissions, ToolOrigin, normalized_overrides, copy_permissions};
use crate::config::SecurityMode;
use crate::tool::{ToolContext, ToolOutput, conversation_views};
use crate::text::{copy_string, copy_strings, owned, push_str, str_eq, str_starts_with, views, has_prefix};

verus! {

/// Model rounds the loop allows before it asks for a final answer without tools.
pub const MAX_TOOL_ITERATIONS: u32 = 10;

/// What the model is told when it answered without the web search it was asked
/// to make.
pub const WEB_SEARCH_REMINDER: &'static str = "You must call the web_search tool now and then provide the answer based on the tool result.";

/// A tool call the model asked for.
pub struct ToolCall {
    pub id: String,
    pub name: String,
    /// The arguments, as JSON text.
    pub input: String,
}

/// What to do after a model response.
pub enum LoopStep {
    /// The response is the answer.
    Finish,
    /// A reminder was added to the conversation; ask the model again.
    AskAgain,
    /// Run these tool calls and hand their results back.
    RunTools(Vec<ToolCall>),
}

/// The state of the loop between model rounds.
pub struct ToolLoop {
    /// The conversation so far, as the model sees it.
    pub messages: Vec<LlmMessage>,
    /// Model rounds taken.
    pub iteration: u32,
    /// The user asked for a web search explicitly.
    pub must_use_web_search: bool,
    /// A web-search reminder was the last thing added.
    pub reminder_injected: bool,
    /// The model has called `web_search`.
    pub web_search_called: bool,
    /// Tool calls were handed out and their results are awaited.
    pub awaiting_results: bool,
}

/// The tool calls of a response, in order: (id, name, input).
pub open spec fn tool_uses(bs: Seq<BlockView>) -> Seq<(Seq<char>, Seq<char>, Seq<char>)>
    decreases bs.len(),
{
    if bs.len() == 0 {
        seq![]
    } else {
        tool_uses(bs.drop_last()) + match bs.last() {
            BlockView::ToolUse { id, name, input } => seq![(id, name, input)],
            _ => seq![],
        }
    }
}

/// The views of tool calls.
pub open spec fn call_views(cs: Seq<ToolCall>) -> Seq<(Seq<char>, Seq<char>, Seq<char>)> {
    cs.map_values(|c: ToolCall| (c.id@, c.name@, c.input@))
}

/// A response ends the loop's tool rounds: it calls no tool, or its stop reason
/// is not `tool_use`.
pub open spec fn is_final_response(bs: Seq<BlockView>, stop_reason: Option<Seq<char>>) -> bool {
    tool_uses(bs).len() == 0 || stop_reason != Some("tool_use"@)
}

/// One of the calls is to `web_search`.
pub open spec fn calls_web_search(calls: Seq<(Seq<char>, Seq<char>, Seq<char>)>) -> bool {
    exists|i: int| 0 <= i < calls.len() && (#[trigger] calls[i]).1 == "web_search"@
}

/// The assistant message holding a response.
pub open spec fn assistant_message(bs: Seq<BlockView>) -> MessageView {
    MessageView { role: "assistant"@, content: bs }
}

/// The kind of step a response leads to.
pub enum StepKind {
    Finish,
    AskAgain,
    RunTools,
}

impl ToolLoop {
    /// The model may be asked again with tools: rounds are left and no tool
    /// results are awaited.
    pub open spec fn may_ask(&self) -> bool {
        self.iteration < MAX_TOOL_ITERATIONS && !self.awaiting_results
    }

    /// The kind of step a response with blocks `bs` and stop reason `stop` leads
    /// to: a final response is the answer, unless a required web search has not
    /// happened, no tool was called and no reminder is pending (then a
    /// reminder); otherwise the tools run.
    pub open spec fn step_kind(&self, bs: Seq<BlockView>, stop: Option<Seq<char>>) -> StepKind {
        if is_final_response(bs, stop) {
            if self.must_use_web_search && !self.reminder_injected && !self.web_search_called
                && tool_uses(bs).len() == 0 {
                StepKind::AskAgain
            } else {
                StepKind::Finish
            }
        } else {
            StepKind::RunTools
        }
    }

    /// A loop over `initial_messages`.
    pub fn new(initial_messages: Vec<LlmMessage>, must_use_web_search: bool) -> (r: Self)
        ensures
            r.messages == initial_messages,
            r.iteration == 0,
            r.must_use_web_search == must_use_web_search,
            !r.reminder_injected,
            !r.web_search_called,
            !r.awaiting_results,
    {
        ToolLoop {
            messages: initial_messages,
            iteration: 0,
            must_use_web_search,
            reminder_injected: false,
            web_search_called: false,
            awaiting_results: false,
        }
    }

    /// Whether another model round with tools may be taken.
    pub fn may_ask_model(&self) -> (r: bool)
        ensures
            r == self.may_ask(),
    {
        self.iteration < MAX_TOOL_ITERATIONS && !self.awaiting_results
    }

    /// Takes a model response (its content blocks and stop reason) and says
    /// what comes next; the conversation grows by what the step adds.
    pub fn on_response(&mut self, content: Vec<ContentBlock>, stop_reason: Option<String>) -> (r: LoopStep)
        requires
            old(self).iteration < MAX_TOOL_ITERATIONS,
            !old(self).awaiting_results,
        ensures
            final(self).iteration == old(self).iteration + 1,
            final(self).must_use_web_search == old(self).must_use_web_search,
            ({
                let bs = block_views(content@);
                let stop = match stop_reason {
                    Some(s) => Some(s@),
                    None => None,
                };
                match old(self).step_kind(bs, stop) {
                    StepKind::Finish => {
                        &&& r is Finish
                        &&& message_views(final(self).messages@) == message_views(old(self).messages@)
                        &&& final(self).reminder_injected == old(self).reminder_injected
                        &&& final(self).web_search_called == old(self).web_search_called
                        &&& !final(self).awaiting_results
                    },
                    StepKind::AskAgain => {
                        &&& r is AskAgain
                        &&& message_views(final(self).messages@) == message_views(old(self).messages@).push(
                            assistant_message(bs),
                        ).push(user_message(WEB_SEARCH_REMINDER@))
                        &&& final(self).reminder_injected
                        &&& final(self).web_search_called == old(self).web_search_called
                        &&& !final(self).awaiting_results
                    },
                    StepKind::RunTools => {
                        &&& r matches LoopStep::RunTools(calls) && call_views(calls@) == tool_uses(bs)
                        &&& message_views(final(self).messages@) == message_views(old(self).messages@).push(
                            assistant_message(bs),
                        )
                        &&& !final(self).reminder_injected
                        &&& final(self).web_search_called == (old(self).web_search_called
                            || calls_web_search(tool_uses(bs)))
                        &&& final(self).awaiting_results
                    },
                }
            }),
    {
        self.iteration = self.iteration + 1;
        let ghost bs = block_views(content@);
        let calls = tool_calls_of(&content);
        let is_tool_use = match &stop_reason {
            Some(s) => str_eq(s.as_str(), "tool_use"),
            None => false,
        };
        if calls.len() == 0 || !is_tool_use {
            if should_inject_web_search_reminder(
                self.must_use_web_search,
                self.reminder_injected,
                self.web_search_called,
                calls.len(),
            ) {
                self.reminder_injected = true;
                let ghost before = message_views(self.messages@);
                self.messages.push(LlmMessage { role: owned("assistant"), content });
                self.messages.push(LlmMessage::user(owned(WEB_SEARCH_REMINDER)));
                assert(message_views(self.messages@) =~= before.push(assistant_message(bs)).push(
                    user_message(WEB_SEARCH_REMINDER@),
                ));
                return LoopStep::AskAgain;
            }
            return LoopStep::Finish;
        }
        let mut called = false;
        let mut k: usize = 0;
        while k < calls.len()
            invariant
                k <= calls@.len(),
                called == exists|i: int| 0 <= i < k && (#[trigger] call_views(calls@)[i]).1 == "web_search"@,
            decreases calls@.len() - k,
        {
            if str_eq(calls[k].name.as_str(), "web_search") {
                assert(call_views(calls@)[k as int].1 == "web_search"@);
                called = true;
            }
            proof {
                if !called {
                    assert forall|i: int| 0 <= i < k + 1 implies (#[trigger] call_views(calls@)[i]).1 != "web_search"@ by {
                        if i < k {
                        } else {
                            assert(call_views(calls@)[i].1 == calls@[k as int].name@);
                        }
                    }
                }
            }
            k = k + 1;
        }
        if called {
            self.web_search_called = true;
        }
        let ghost before = message_views(self.messages@);
        self.messages.push(LlmMessage { role: owned("assistant"), content });
        assert(message_views(self.messages@) =~= before.push(assistant_message(bs)));
        self.reminder_injected = false;
        self.awaiting_results = true;
        LoopStep::RunTools(calls)
    }

    /// Hands back the results of the tool calls: they join the conversation
    /// as one user message.
    pub fn on_tool_results(&mut self, results: Vec<ContentBlock>)
        requires
            old(self).awaiting_results,
        ensures
            message_views(final(self).messages@) == message_views(old(self).messages@).push(
                MessageView { role: "user"@, content: block_views(results@) },
            ),
            !final(self).awaiting_results,
            final(self).iteration == old(self).iteration,
            final(self).must_use_web_search == old(self).must_use_web_search,
            final(self).reminder_injected == old(self).reminder_injected,
            final(self).web_search_called == old(self).web_search_called,
    {
        let ghost before = message_views(self.messages@);
        self.messages.push(LlmMessage { role: owned("user"), content: results });
        assert(message_views(self.messages@) =~= before.push(
            MessageView { role: "user"@, content: block_views(results@) },
        ));
        self.awaiting_results = false;
    }
}

/// The tool calls of a response, in order.
pub fn tool_calls_of(content: &Vec<ContentBlock>) -> (r: Vec<ToolCall>)
    ensures
        call_views(r@) == tool_uses(block_views(content@)),
{
    let mut calls: Vec<ToolCall> = Vec::new();
    let n = content.len();
    assert(block_views(content@).take(0) =~= Seq::<BlockView>::empty());
    for j in 0..n
        invariant
            n == content@.len(),
            call_views(calls@) == tool_uses(block_views(content@).take(j as int)),
    {
        let ghost bs = block_views(content@).take(j + 1);
        assert(bs.drop_last() =~= block_views(content@).take(j as int));
        assert(bs.last() == content@[j as int]@);
        let ghost before = call_views(calls@);
        match &content[j] {
            ContentBlock::ToolUse { id, name, input } => {
                calls.push(ToolCall { id: copy_string(id), name: copy_string(name), input: copy_string(input) });
                assert(call_views(calls@) =~= before + seq![(id@, name@, input@)]);
            },
            _ => {
                assert(call_views(calls@) =~= before + Seq::<(Seq<char>, Seq<char>, Seq<char>)>::empty());
            },
        }
    }
    assert(block_views(content@).take(n as int) =~= block_views(content@));
    calls
}

/// The result block of a tool call: its output, or the error it failed with.
pub fn tool_result_block(tool_use_id: String, outcome: Result<ToolOutput, String>) -> (r: ContentBlock)
    ensures
        r@ == match outcome {
            Ok(o) => BlockView::ToolResult { tool_use_id: tool_use_id@, content: o.content@, is_error: o.is_error },
            Err(e) => BlockView::ToolResult {
                tool_use_id: tool_use_id@,
                content: "Tool execution error: "@ + e@,
                is_error: true,
            },
        },
{
    match outcome {
        Ok(o) => ContentBlock::ToolResult { tool_use_id, content: o.content, is_error: o.is_error },
        Err(e) => {
            let mut content = owned("Tool execution error: ");
            push_str(&mut content, e.as_str());
            ContentBlock::ToolResult { tool_use_id, content, is_error: true }
        },
    }
}

/// The tools offered: with an allow list, those whose name starts with one of
/// its entries (in their order); otherwise all.
pub open spec fn offered_tools(names: Seq<Seq<char>>, allow: Option<Seq<Seq<char>>>) -> Seq<Seq<char>> {
    match allow {
        None => names,
        Some(a) => names.filter(|t: Seq<char>| allowed_name(a, t)),
    }
}

/// The name starts with one of the allowed prefixes.
pub open spec fn allowed_name(allow: Seq<Seq<char>>, name: Seq<char>) -> bool {
    exists|i: int| 0 <= i < allow.len() && has_prefix(name, #[trigger] allow[i])
}

fn allowed_by(allow: &Vec<String>, name: &str) -> (r: bool)
    ensures
        r == allowed_name(views(allow@), name@),
{
    for i in 0..allow.len()
        invariant
            forall|j: int| 0 <= j < i ==> !has_prefix(name@, #[trigger] views(allow@)[j]),
    {
        if str_starts_with(name, allow[i].as_str()) {
            assert(has_prefix(name@, views(allow@)[i as int]));
            return true;
        }
    }
    false
}

/// Filters tool names by an allow list of name prefixes.
pub fn filter_tool_names(names: &Vec<String>, allow: Option<&Vec<String>>) -> (r: Vec<String>)
    ensures
        views(r@) == offered_tools(
            views(names@),
            match allow {
                Some(a) => Some(views(a@)),
                None => None,
            },
        ),
{
    match allow {
        None => copy_strings(names),
        Some(a) => {
            let ghost f = |t: Seq<char>| allowed_name(views(a@), t);
            let mut out: Vec<String> = Vec::new();
            let n = names.len();
            assert(views(names@).take(0) =~= Seq::<Seq<char>>::empty());
            for k in 0..n
                invariant
                    n == names@.len(),
                    f == (|t: Seq<char>| allowed_name(views(a@), t)),
                    views(out@) == views(names@).take(k as int).filter(f),
            {
                let ghost pre = views(names@).take(k as int);
                assert(views(names@).take(k + 1) =~= pre.push(names@[k as int]@));
                proof {
                    pre.lemma_filter_push(names@[k as int]@, f);
                }
                if allowed_by(a, names[k].as_str()) {
                    let ghost before = views(out@);
                    out.push(copy_string(&names[k]));
                    assert(views(out@) =~= before.push(names@[k as int]@));
                }
            }
            assert(views(names@).take(n as int) =~= views(names@));
            out
        },
    }
}

/// `provider/model` split at the first `/`; nothing without one.
pub open spec fn provider_and_model(primary: Seq<char>) -> Option<(Seq<char>, Seq<char>)> {
    if exists|i: int| 0 <= i < primary.len() && primary[i] == '/' {
        let i = choose|i: int|
            0 <= i < primary.len() && primary[i] == '/' && forall|j: int| 0 <= j < i ==> primary[j] != '/';
        Some((primary.take(i), primary.skip(i + 1)))
    } else {
        None
    }
}

/// The provider and model of a `provider/model` reference.
pub fn split_provider_model(primary: &str) -> (r: Option<(String, String)>)
    ensures
        match provider_and_model(primary@) {
            Some((p, m)) => r is Some && r.unwrap().0@ == p && r.unwrap().1@ == m,
            None => r is None,
        },
{
    let cs = crate::text::chars_of(primary);
    let n = cs.len();
    let mut i: usize = 0;
    while i < n
        invariant
            n == cs@.len(),
            cs@ == primary@,
            i <= n,
            forall|j: int| 0 <= j < i ==> cs@[j] != '/',
        decreases n - i,
    {
        if cs[i] == '/' {
            let ghost k = i as int;
            proof {
                let c = choose|c: int|
                    0 <= c < primary@.len() && primary@[c] == '/' && forall|j: int| 0 <= j < c ==> primary@[j] != '/';
                assert(0 <= k < primary@.len() && primary@[k] == '/' && forall|j: int| 0 <= j < k ==> primary@[j] != '/');
                if c < k {
                } else if c > k {
                    assert(primary@[k] != '/');
                }
            }
            let p = crate::text::string_from_chars(crate::text::slice_chars(cs.as_slice(), 0, i).as_slice());
            let m = crate::text::string_from_chars(crate::text::slice_chars(cs.as_slice(), i + 1, n).as_slice());
            assert(cs@.subrange(0, k) =~= primary@.take(k));
            assert(cs@.subrange(k + 1, n as int) =~= primary@.skip(k + 1));
            return Some((p, m));
        }
        i = i + 1;
    }
    None
}

/// Messages of recent conversation handed to the tools of a round.
pub const RECENT_MESSAGES_FOR_TOOLS: usize = 20;

/// Where a request came from: channel type, connector and conversation.
pub struct SourceInfo {
    pub channel_type: String,
    pub connector_id: String,
    pub conversation_scope: String,
}

/// The context the tools of a round run in: external (bound by the merged
/// skill permissions) in forced-skill mode, builtin otherwise; with the recent
/// conversation and the request's source.
pub fn round_tool_context(
    permissions: &Option<Permissions>,
    security_mode: SecurityMode,
    private_overrides: &Vec<String>,
    messages: &Vec<LlmMessage>,
    source: &Option<SourceInfo>,
) -> (r: ToolContext)
    ensures
        match permissions {
            Some(p) => r.policy_ctx.origin == ToolOrigin::External && r.policy_ctx.permissions is Some
                && perm_view(r.policy_ctx.permissions.unwrap()) == perm_view(*p),
            None => r.policy_ctx.origin == ToolOrigin::Builtin && r.policy_ctx.permissions is None,
        },
        r.policy_ctx.security_mode == security_mode,
        views(r.policy_ctx.private_overrides@) == normalized_overrides(views(private_overrides@)),
        conversation_views(r.recent_messages@) == recent_conversation(
            message_views(messages@),
            RECENT_MESSAGES_FOR_TOOLS as int,
        ),
        match source {
            Some(s) => r.source_channel_type is Some && r.source_channel_type.unwrap()@ == s.channel_type@
                && r.source_connector_id is Some && r.source_connector_id.unwrap()@ == s.connector_id@
                && r.source_conversation_scope is Some && r.source_conversation_scope.unwrap()@
                == s.conversation_scope@,
            None => r.source_channel_type is None && r.source_connector_id is None
                && r.source_conversation_scope is None,
        },
        r.session_key@.len() == 0,
{
    let ctx = match permissions {
        Some(p) => ToolContext::external_with_security_and_private_overrides(
            copy_permissions(p),
            security_mode,
            copy_strings(private_overrides),
        ),
        None => ToolContext::builtin_with_security_and_private_overrides(
            security_mode,
            copy_strings(private_overrides),
        ),
    };
    let recent = collect_recent_messages(messages, RECENT_MESSAGES_FOR_TOOLS);
    let ctx = ctx.with_recent_messages(recent);
    match source {
        Some(s) => ctx.with_source(
            copy_string(&s.channel_type),
            copy_string(&s.connector_id),
            copy_string(&s.conversation_scope),
        ),
        None => ctx,
    }
}

proof fn lemma_round_counts(states: Seq<ToolLoop>, n: int)
    requires
        0 <= n < states.len(),
        states[0].iteration == 0,
        forall|i: int|
            0 <= i < states.len() - 1 ==> #[trigger] states[i + 1].iteration == states[i].iteration + 1,
    ensures
        states[n].iteration == n,
    decreases n,
{
    if n > 0 {
        lemma_round_counts(states, n - 1);
        assert(states[(n - 1) + 1].iteration == states[n - 1].iteration + 1);
    }
}

/// A turn asks the model with tools at most `MAX_TOOL_ITERATIONS` times: along
/// the states of a loop that starts new, where each answer is taken while the
/// model may still be asked (fewer rounds than the limit) and counts one
/// round, there are at most that many answers; once that many were taken the
/// model may not be asked with tools again, and the last request goes
/// without them.
pub proof fn law_rounds_bounded(states: Seq<ToolLoop>)
    requires
        states.len() >= 1,
        states[0].iteration == 0,
        forall|i: int| 0 <= i < states.len() - 1 ==> #[trigger] states[i].iteration < MAX_TOOL_ITERATIONS,
        forall|i: int|
            0 <= i < states.len() - 1 ==> #[trigger] states[i + 1].iteration == states[i].iteration + 1,
    ensures
        states.len() - 1 <= MAX_TOOL_ITERATIONS,
        states.last().iteration == states.len() - 1,
        states.len() - 1 == MAX_TOOL_ITERATIONS ==> !states.last().may_ask(),
{
    let n = states.len() - 1;
    lemma_round_counts(states, n);
    if n > 0 {
        lemma_round_counts(states, n - 1);
        assert(states[n - 1].iteration < MAX_TOOL_ITERATIONS);
    }
}

/// A reminder is never given twice in a row: once one was added, the next
/// response is the answer or leads to tool calls.
pub proof fn law_reminder_not_repeated(s: ToolLoop, bs: Seq<BlockView>, stop: Option<Seq<char>>)
    requires
        s.reminder_injected,
    ensures
        s.step_kind(bs, stop) != StepKind::AskAgain,
{
}

/// Once `web_search` has been called, or when no web search was asked for,
/// the model is never reminded of it.
pub proof fn law_no_reminder_without_need(s: ToolLoop, bs: Seq<BlockView>, stop: Option<Seq<char>>)
    requires
        s.web_search_called || !s.must_use_web_search,
    ensures
        s.step_kind(bs, stop) != StepKind::AskAgain,
{
}

/// A response that calls tools with stop reason `tool_use` always leads to
/// running them; one that calls none never does.
pub proof fn law_tools_run_exactly_when_requested(s: ToolLoop, bs: Seq<BlockView>, stop: Option<Seq<char>>)
    ensures
        (s.step_kind(bs, stop) == StepKind::RunTools) <==> (tool_uses(bs).len() > 0 && stop == Some(
            "tool_use"@,
        )),
{
}

} // verus!
