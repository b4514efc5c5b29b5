//! What a tool call carries: its output, the conversation it was made in, and the
//! policy it runs under.
use vstd::prelude::*;
use crate::config::SecurityMode;
use crate::policy::{PolicyContext, Permissions, ToolOrigin, normalized_overrides};
use crate::text::{copy_string, views};

verus! {

/// Output of a tool call.
pub struct ToolOutput {
    pub content: String,
    pub is_error: bool,
}

/// A successful tool output with the given text.
pub fn tool_ok(message: String) -> (r: ToolOutput)
    ensures
        r.content@ == message@,
        !r.is_error,
{
    ToolOutput { content: message, is_error: false }
}

/// A failed tool output with the given text.
pub fn tool_error(message: String) -> (r: ToolOutput)
    ensures
        r.content@ == message@,
        r.is_error,
{
    ToolOutput { content: message, is_error: true }
}

/// A message of the conversation history.
pub struct ConversationMessage {
    pub role: String,
    pub content: String,
}

/// Role and content of each message.
pub open spec fn conversation_views(ms: Seq<ConversationMessage>) -> Seq<(Seq<char>, Seq<char>)> {
    ms.map_values(|m: ConversationMessage| (m.role@, m.content@))
}

/// A copy of a conversation message.
pub fn copy_conversation_message(m: &ConversationMessage) -> (r: ConversationMessage)
    ensures
        r.role@ == m.role@,
        r.content@ == m.content@,
{
    ConversationMessage { role: copy_string(&m.role), content: copy_string(&m.content) }
}

/// Everything a tool call runs with: the policy, recent messages, where the
/// request came from, and the session.
pub struct ToolContext {
    pub policy_ctx: PolicyContext,
    pub recent_messages: Vec<ConversationMessage>,
    /// Channel type the request came from, such as "telegram".
    pub source_channel_type: Option<String>,
    /// Connector the request came from.
    pub source_connector_id: Option<String>,
    /// Conversation the request came from.
    pub source_conversation_scope: Option<String>,
    pub session_key: String,
}

/// The same optional string, copied.
pub fn copy_optional(o: &Option<String>) -> (r: Option<String>)
    ensures
        r.is_some() == o.is_some(),
        r.is_some() ==> r.unwrap()@ == o.unwrap()@,
{
    match o {
        Some(s) => Some(copy_string(s)),
        None => None,
    }
}

/// The text of an optional string, as a string slice.
pub fn optional_str(o: &Option<String>) -> (r: Option<&str>)
    ensures
        r.is_some() == o.is_some(),
        r.is_some() ==> r.unwrap()@ == o.unwrap()@,
{
    match o {
        Some(s) => Some(s.as_str()),
        None => None,
    }
}

impl ToolContext {
    /// A context with the given policy, no history, source or session.
    pub open spec fn bare(&self, policy: PolicyContext) -> bool {
        &&& self.policy_ctx == policy
        &&& self.recent_messages@.len() == 0
        &&& self.source_channel_type is None
        &&& self.source_connector_id is None
        &&& self.source_conversation_scope is None
        &&& self.session_key@.len() == 0
    }

    fn with_policy(policy: PolicyContext) -> (r: Self)
        ensures
            r.bare(policy),
    {
        ToolContext {
            policy_ctx: policy,
            recent_messages: Vec::new(),
            source_channel_type: None,
            source_connector_id: None,
            source_conversation_scope: None,
            session_key: String::new(),
        }
    }

    /// Context of a builtin tool: only the hard baseline applies.
    pub fn builtin() -> (r: Self)
        ensures
            r.recent_messages@.len() == 0,
            r.policy_ctx.origin == ToolOrigin::Builtin,
            r.policy_ctx.permissions is None,
            r.policy_ctx.security_mode == SecurityMode::Standard,
            r.policy_ctx.private_overrides@.len() == 0,
            r.source_channel_type is None,
            r.source_connector_id is None,
            r.source_conversation_scope is None,
            r.session_key@.len() == 0,
    {
        Self::with_policy(PolicyContext::builtin())
    }

    /// Context of a builtin tool with the given security mode.
    pub fn builtin_with_security(mode: SecurityMode) -> (r: Self)
        ensures
            r.recent_messages@.len() == 0,
            r.policy_ctx.origin == ToolOrigin::Builtin,
            r.policy_ctx.permissions is None,
            r.policy_ctx.security_mode == mode,
            r.policy_ctx.private_overrides@.len() == 0,
            r.source_channel_type is None,
            r.source_connector_id is None,
            r.source_conversation_scope is None,
            r.session_key@.len() == 0,
    {
        Self::with_policy(PolicyContext::builtin_with_security(mode))
    }

    /// Context of a builtin tool with security mode and private-network
    /// overrides.
    pub fn builtin_with_security_and_private_overrides(mode: SecurityMode, overrides: Vec<String>) -> (r: Self)
        ensures
            r.recent_messages@.len() == 0,
            r.policy_ctx.origin == ToolOrigin::Builtin,
            r.policy_ctx.permissions is None,
            r.policy_ctx.security_mode == mode,
            views(r.policy_ctx.private_overrides@) == normalized_overrides(views(overrides@)),
            r.source_channel_type is None,
            r.source_connector_id is None,
            r.source_conversation_scope is None,
            r.session_key@.len() == 0,
    {
        Self::with_policy(PolicyContext::builtin_with_private_overrides(mode, overrides))
    }

    /// Context of an external skill with its declared permissions.
    pub fn external(permissions: Permissions) -> (r: Self)
        ensures
            r.recent_messages@.len() == 0,
            r.policy_ctx.origin == ToolOrigin::External,
            r.policy_ctx.permissions == Some(permissions),
            r.policy_ctx.security_mode == SecurityMode::Standard,
            r.policy_ctx.private_overrides@.len() == 0,
            r.source_channel_type is None,
            r.source_connector_id is None,
            r.source_conversation_scope is None,
            r.session_key@.len() == 0,
    {
        Self::with_policy(PolicyContext::external(permissions))
    }

    /// Context of an external skill with the given security mode.
    pub fn external_with_security(permissions: Permissions, mode: SecurityMode) -> (r: Self)
        ensures
            r.recent_messages@.len() == 0,
            r.policy_ctx.origin == ToolOrigin::External,
            r.policy_ctx.permissions == Some(permissions),
            r.policy_ctx.security_mode == mode,
            r.policy_ctx.private_overrides@.len() == 0,
            r.source_channel_type is None,
            r.source_connector_id is None,
            r.source_conversation_scope is None,
            r.session_key@.len() == 0,
    {
        Self::with_policy(PolicyContext::external_with_security(permissions, mode))
    }

    /// Context of an external skill with security mode and private-network
    /// overrides.
    pub fn external_with_security_and_private_overrides(
        permissions: Permissions,
        mode: SecurityMode,
        overrides: Vec<String>,
    ) -> (r: Self)
        ensures
            r.recent_messages@.len() == 0,
            r.policy_ctx.origin == ToolOrigin::External,
            r.policy_ctx.permissions == Some(permissions),
            r.policy_ctx.security_mode == mode,
            views(r.policy_ctx.private_overrides@) == normalized_overrides(views(overrides@)),
            r.source_channel_type is None,
            r.source_connector_id is None,
            r.source_conversation_scope is None,
            r.session_key@.len() == 0,
    {
        Self::with_policy(
            PolicyContext::external_with_security_and_private_overrides(permissions, mode, overrides),
        )
    }

    /// The default context for a workspace: a builtin one.
    pub fn default_for_workspace(_workspace: &str) -> (r: Self)
        ensures
            r.recent_messages@.len() == 0,
            r.policy_ctx.origin == ToolOrigin::Builtin,
            r.policy_ctx.permissions is None,
            r.policy_ctx.security_mode == SecurityMode::Standard,
            r.policy_ctx.private_overrides@.len() == 0,
            r.source_channel_type is None,
            r.source_connector_id is None,
            r.source_conversation_scope is None,
            r.session_key@.len() == 0,
    {
        Self::builtin()
    }

    /// The same context as `default_for_workspace`, under its older name.
    pub fn default_policy(workspace: &str) -> (r: Self)
        ensures
            r.recent_messages@.len() == 0,
            r.policy_ctx.origin == ToolOrigin::Builtin,
            r.policy_ctx.permissions is None,
            r.policy_ctx.security_mode == SecurityMode::Standard,
            r.policy_ctx.private_overrides@.len() == 0,
            r.source_channel_type is None,
            r.source_connector_id is None,
            r.source_conversation_scope is None,
            r.session_key@.len() == 0,
    {
        Self::default_for_workspace(workspace)
    }

    /// The context with the given recent messages.
    pub fn with_recent_messages(self, recent_messages: Vec<ConversationMessage>) -> (r: Self)
        ensures
            r == (ToolContext { recent_messages, ..self }),
    {
        let mut r = self;
        r.recent_messages = recent_messages;
        r
    }

    /// The context with the given source channel.
    pub fn with_source(self, channel_type: String, connector_id: String, conversation_scope: String) -> (r: Self)
        ensures
            r == (ToolContext {
                source_channel_type: Some(channel_type),
                source_connector_id: Some(connector_id),
                source_conversation_scope: Some(conversation_scope),
                ..self
            }),
    {
        let mut r = self;
        r.source_channel_type = Some(channel_type);
        r.source_connector_id = Some(connector_id);
        r.source_conversation_scope = Some(conversation_scope);
        r
    }

    /// The context with the given session key.
    pub fn with_session_key(self, session_key: String) -> (r: Self)
        ensures
            r == (ToolContext { session_key, ..self }),
    {
        let mut r = self;
        r.session_key = session_key;
        r
    }

    /// Builtin or external.
    pub fn origin(&self) -> (r: ToolOrigin)
        ensures
            r == self.policy_ctx.origin,
    {
        self.policy_ctx.origin
    }

    pub fn source_channel_type(&self) -> (r: Option<&str>)
        ensures
            r.is_some() == self.source_channel_type.is_some(),
            r.is_some() ==> r.unwrap()@ == self.source_channel_type.unwrap()@,
    {
        optional_str(&self.source_channel_type)
    }

    pub fn source_connector_id(&self) -> (r: Option<&str>)
        ensures
            r.is_some() == self.source_connector_id.is_some(),
            r.is_some() ==> r.unwrap()@ == self.source_connector_id.unwrap()@,
    {
        optional_str(&self.source_connector_id)
    }

    pub fn source_conversation_scope(&self) -> (r: Option<&str>)
        ensures
            r.is_some() == self.source_conversation_scope.is_some(),
            r.is_some() ==> r.unwrap()@ == self.source_conversation_scope.unwrap()@,
    {
        optional_str(&self.source_conversation_scope)
    }

    pub fn session_key(&self) -> (r: &str)
        ensures
            r@ == self.session_key@,
    {
        self.session_key.as_str()
    }

    /// The last `limit` recent messages (all of them when there are fewer).
    pub fn recent_messages(&self, limit: usize) -> (r: Vec<ConversationMessage>)
        ensures
            conversation_views(r@) == conversation_views(self.recent_messages@).skip(
                (if self.recent_messages@.len() >= limit {
                    self.recent_messages@.len() - limit
                } else {
                    0
                }) as int,
            ),
    {
        let n = self.recent_messages.len();
        let start = n.saturating_sub(limit);
        let mut out: Vec<ConversationMessage> = Vec::new();
        if limit == 0 || n == 0 {
            assert(conversation_views(out@) =~= conversation_views(self.recent_messages@).skip(
                start as int,
            ));
            return out;
        }
        for i in start..n
            invariant
                n == self.recent_messages@.len(),
                start <= n,
                out@.len() == i - start,
                forall|k: int|
                    0 <= k < out@.len() ==> out@[k].role@ == self.recent_messages@[start + k].role@
                        && out@[k].content@ == self.recent_messages@[start + k].content@,
        {
            out.push(copy_conversation_message(&self.recent_messages[i]));
        }
        assert(conversation_views(out@) =~= conversation_views(self.recent_messages@).skip(
            start as int,
        ));
        out
    }

    /// The policy the call runs under.
    pub fn policy_context(&self) -> (r: &PolicyContext)
        ensures
            *r == self.policy_ctx,
    {
        &self.policy_ctx
    }

    /// Whether reading `path` is allowed.
    pub fn check_read(&self, path: &str) -> (r: bool)
        ensures
            r == self.policy_ctx.read_allowed(path@),
    {
        self.policy_ctx.check_read(path)
    }

    /// Whether writing `path` is allowed.
    pub fn check_write(&self, path: &str) -> (r: bool)
        ensures
            r == self.policy_ctx.write_allowed(path@),
    {
        self.policy_ctx.check_write(path)
    }

    /// Whether connecting to `host:port` is allowed.
    pub fn check_network(&self, host: &str, port: u16) -> (r: bool)
        ensures
            r == self.policy_ctx.network_allowed(host@, port),
    {
        self.policy_ctx.check_network(host, port)
    }

    /// Whether running `cmd` is allowed.
    pub fn check_exec(&self, cmd: &str) -> (r: bool)
        ensures
            r == self.policy_ctx.exec_allowed(cmd@),
    {
        self.policy_ctx.check_exec(cmd)
    }

    /// Whether reading the environment variable is allowed.
    pub fn check_env(&self, var_name: &str) -> (r: bool)
        ensures
            r == self.policy_ctx.env_allowed(var_name@),
    {
        self.policy_ctx.check_env(var_name)
    }
}

} // verus!
