//! Context window accounting: token estimates, compaction planning, pruning of
//! old tool results and the memory-flush decision.
use vstd::prelude::*;
use crate::text::{utf8_len, byte_len, copy_string, owned, push_str, usize_to_string, decimal, chars_of, string_from_chars, slice_chars, char_index_at_byte, byte_boundary, char_index_of_byte, all_ascii, lemma_utf8_len_ascii, lemma_char_index_of_byte_ascii};

verus! {

// ───────────────────────────── Messages ─────────────────────────────

/// One block of a chat message.
pub enum ContentBlock {
    Text { text: String },
    Image { media_type: String, data: String },
    /// `input` holds the tool arguments as JSON text.
    ToolUse { id: String, name: String, input: String },
    ToolResult { tool_use_id: String, content: String, is_error: bool },
}

/// A chat message: a role and its content blocks.
pub struct LlmMessage {
    pub role: String,
    pub content: Vec<ContentBlock>,
}

/// Model of a content block.
pub enum BlockView {
    Text { text: Seq<char> },
    Image { media_type: Seq<char>, data: Seq<char> },
    ToolUse { id: Seq<char>, name: Seq<char>, input: Seq<char> },
    ToolResult { tool_use_id: Seq<char>, content: Seq<char>, is_error: bool },
}

/// Model of a message.
pub struct MessageView {
    pub role: Seq<char>,
    pub content: Seq<BlockView>,
}

impl View for ContentBlock {
    type V = BlockView;

    open spec fn view(&self) -> BlockView {
        match self {
            ContentBlock::Text { text } => BlockView::Text { text: text@ },
            ContentBlock::Image { media_type, data } => BlockView::Image {
                media_type: media_type@,
                data: data@,
            },
            ContentBlock::ToolUse { id, name, input } => BlockView::ToolUse {
                id: id@,
                name: name@,
                input: input@,
            },
            ContentBlock::ToolResult { tool_use_id, content, is_error } => BlockView::ToolResult {
                tool_use_id: tool_use_id@,
                content: content@,
                is_error: *is_error,
            },
        }
    }
}

pub open spec fn block_views(bs: Seq<ContentBlock>) -> Seq<BlockView> {
    bs.map_values(|b: ContentBlock| b@)
}

impl View for LlmMessage {
    type V = MessageView;

    open spec fn view(&self) -> MessageView {
        MessageView { role: self.role@, content: block_views(self.content@) }
    }
}

pub open spec fn message_views(ms: Seq<LlmMessage>) -> Seq<MessageView> {
    ms.map_values(|m: LlmMessage| m@)
}

/// The model of a user message with one text block.
pub open spec fn user_message(text: Seq<char>) -> MessageView {
    MessageView { role: "user"@, content: seq![BlockView::Text { text }] }
}

impl LlmMessage {
    /// A user message holding one text block.
    pub fn user(text: String) -> (m: LlmMessage)
        ensures
            m@ == user_message(text@),
    {
        let mut content: Vec<ContentBlock> = Vec::new();
        content.push(ContentBlock::Text { text });
        let m = LlmMessage { role: owned("user"), content };
        assert(m@.content =~= seq![BlockView::Text { text: text@ }]);
        m
    }
}

/// A copy of a content block.
pub fn copy_block(b: &ContentBlock) -> (r: ContentBlock)
    ensures
        r@ == b@,
{
    match b {
        ContentBlock::Text { text } => ContentBlock::Text { text: copy_string(text) },
        ContentBlock::Image { media_type, data } => ContentBlock::Image {
            media_type: copy_string(media_type),
            data: copy_string(data),
        },
        ContentBlock::ToolUse { id, name, input } => ContentBlock::ToolUse {
            id: copy_string(id),
            name: copy_string(name),
            input: copy_string(input),
        },
        ContentBlock::ToolResult { tool_use_id, content, is_error } => ContentBlock::ToolResult {
            tool_use_id: copy_string(tool_use_id),
            content: copy_string(content),
            is_error: *is_error,
        },
    }
}

/// A copy of a message.
pub fn copy_message(m: &LlmMessage) -> (r: LlmMessage)
    ensures
        r@ == m@,
{
    let mut blocks: Vec<ContentBlock> = Vec::new();
    let n = m.content.len();
    for j in 0..n
        invariant
            n == m.content@.len(),
            blocks@.len() == j,
            forall|k: int| 0 <= k < j ==> blocks@[k]@ == m.content@[k]@,
    {
        blocks.push(copy_block(&m.content[j]));
    }
    let r = LlmMessage { role: copy_string(&m.role), content: blocks };
    assert(block_views(r.content@) =~= block_views(m.content@));
    r
}

// ───────────────────────────── Token estimates ─────────────────────────────

/// Estimated tokens of a text: a quarter of its UTF-8 byte length.
pub open spec fn token_estimate(s: Seq<char>) -> nat {
    utf8_len(s) / 4
}

/// Estimated tokens of one block; image data counts a twelfth of its length.
pub open spec fn block_tokens(b: BlockView) -> nat {
    match b {
        BlockView::Text { text } => token_estimate(text),
        BlockView::Image { data, .. } => utf8_len(data) / 12,
        BlockView::ToolUse { input, .. } => token_estimate(input),
        BlockView::ToolResult { content, .. } => token_estimate(content),
    }
}

pub open spec fn blocks_tokens(bs: Seq<BlockView>) -> nat
    decreases bs.len(),
{
    if bs.len() == 0 {
        0
    } else {
        block_tokens(bs[0]) + blocks_tokens(bs.skip(1))
    }
}

/// Estimated tokens of a message: its blocks, and never less than 10.
pub open spec fn message_tokens(m: MessageView) -> nat {
    let t = blocks_tokens(m.content);
    if t < 10 {
        10
    } else {
        t
    }
}

pub open spec fn messages_tokens(ms: Seq<MessageView>) -> nat
    decreases ms.len(),
{
    if ms.len() == 0 {
        0
    } else {
        message_tokens(ms[0]) + messages_tokens(ms.skip(1))
    }
}

proof fn lemma_blocks_split(bs: Seq<BlockView>, s: int)
    requires
        0 <= s <= bs.len(),
    ensures
        blocks_tokens(bs) == blocks_tokens(bs.take(s)) + blocks_tokens(bs.skip(s)),
    decreases s,
{
    if s == 0 {
        assert(bs.skip(0) =~= bs);
        assert(bs.take(0).len() == 0);
    } else {
        let rest = bs.skip(1);
        lemma_blocks_split(rest, s - 1);
        assert(rest.skip(s - 1) =~= bs.skip(s));
        assert(bs.take(s).skip(1) =~= rest.take(s - 1));
        assert(bs.take(s)[0] == bs[0]);
    }
}

proof fn lemma_blocks_push(bs: Seq<BlockView>, i: int)
    requires
        0 <= i < bs.len(),
    ensures
        blocks_tokens(bs.take(i + 1)) == blocks_tokens(bs.take(i)) + block_tokens(bs[i]),
{
    let t = bs.take(i + 1);
    lemma_blocks_split(t, i);
    assert(t.take(i) =~= bs.take(i));
    let x = t.skip(i);
    assert(x.skip(1).len() == 0);
    assert(blocks_tokens(x.skip(1)) == 0);
    assert(x[0] == bs[i]);
    assert(blocks_tokens(x) == block_tokens(x[0]) + blocks_tokens(x.skip(1)));
}

/// Splitting a message list splits its token estimate.
pub proof fn lemma_messages_split(ms: Seq<MessageView>, s: int)
    requires
        0 <= s <= ms.len(),
    ensures
        messages_tokens(ms) == messages_tokens(ms.take(s)) + messages_tokens(ms.skip(s)),
    decreases s,
{
    if s == 0 {
        assert(ms.skip(0) =~= ms);
        assert(ms.take(0).len() == 0);
    } else {
        let rest = ms.skip(1);
        lemma_messages_split(rest, s - 1);
        assert(rest.skip(s - 1) =~= ms.skip(s));
        assert(ms.take(s).skip(1) =~= rest.take(s - 1));
        assert(ms.take(s)[0] == ms[0]);
    }
}

proof fn lemma_messages_push(ms: Seq<MessageView>, i: int)
    requires
        0 <= i < ms.len(),
    ensures
        messages_tokens(ms.take(i + 1)) == messages_tokens(ms.take(i)) + message_tokens(ms[i]),
{
    let t = ms.take(i + 1);
    lemma_messages_split(t, i);
    assert(t.take(i) =~= ms.take(i));
    let x = t.skip(i);
    assert(x.skip(1).len() == 0);
    assert(messages_tokens(x.skip(1)) == 0);
    assert(x[0] == ms[i]);
    assert(messages_tokens(x) == message_tokens(x[0]) + messages_tokens(x.skip(1)));
}

/// Estimated tokens of a suffix shrink as the suffix starts later.
proof fn lemma_suffix_tokens_mono(ms: Seq<MessageView>, i: int, j: int)
    requires
        0 <= i <= j <= ms.len(),
    ensures
        messages_tokens(ms.skip(j)) + (j - i) * 10 <= messages_tokens(ms.skip(i)),
    decreases j - i,
{
    if i < j {
        lemma_suffix_tokens_mono(ms, i + 1, j);
        let t = ms.skip(i);
        assert(t.skip(1) =~= ms.skip(i + 1));
        assert(t[0] == ms[i]);
    }
}

/// Approximate token count of a text: its byte length divided by four.
pub fn estimate_tokens(text: &str) -> (n: usize)
    ensures
        n == token_estimate(text@),
{
    byte_len(text) / 4
}

fn block_estimate(b: &ContentBlock) -> (n: usize)
    ensures
        n == block_tokens(b@),
{
    match b {
        ContentBlock::Text { text } => estimate_tokens(text.as_str()),
        ContentBlock::Image { data, .. } => byte_len(data.as_str()) / 12,
        ContentBlock::ToolUse { input, .. } => estimate_tokens(input.as_str()),
        ContentBlock::ToolResult { content, .. } => estimate_tokens(content.as_str()),
    }
}

/// Estimated tokens of one message: the sum over its blocks, at least 10.
pub fn estimate_message_tokens(msg: &LlmMessage) -> (n: usize)
    requires
        blocks_tokens(msg@.content) <= usize::MAX,
    ensures
        n == message_tokens(msg@),
{
    let ghost bs = msg@.content;
    let n = msg.content.len();
    let mut total: usize = 0;
    for i in 0..n
        invariant
            n == bs.len(),
            bs == block_views(msg.content@),
            total == blocks_tokens(bs.take(i as int)),
            blocks_tokens(bs) <= usize::MAX,
    {
        proof {
            lemma_blocks_push(bs, i as int);
            lemma_blocks_split(bs, i + 1);
        }
        let t = block_estimate(&msg.content[i]);
        total = total + t;
    }
    assert(bs.take(n as int) =~= bs);
    if total < 10 {
        10
    } else {
        total
    }
}

/// Estimated tokens of the first `s` messages.
fn prefix_tokens(messages: &[LlmMessage], s: usize) -> (n: usize)
    requires
        s <= messages@.len(),
        messages_tokens(message_views(messages@)) <= usize::MAX,
    ensures
        n == messages_tokens(message_views(messages@).take(s as int)),
{
    let ghost ms = message_views(messages@);
    let mut total: usize = 0;
    for i in 0..s
        invariant
            s <= ms.len(),
            ms == message_views(messages@),
            total == messages_tokens(ms.take(i as int)),
            messages_tokens(ms) <= usize::MAX,
    {
        proof {
            lemma_messages_push(ms, i as int);
            lemma_messages_split(ms, i + 1);
            assert(ms[i as int] == messages@[i as int]@);
            assert(blocks_tokens(ms[i as int].content) <= message_tokens(ms[i as int]));
        }
        let t = estimate_message_tokens(&messages[i]);
        total = total + t;
    }
    total
}

/// Estimated tokens of a list of messages.
pub fn estimate_messages_tokens(messages: &[LlmMessage]) -> (n: usize)
    requires
        messages_tokens(message_views(messages@)) <= usize::MAX,
    ensures
        n == messages_tokens(message_views(messages@)),
{
    let n = prefix_tokens(messages, messages.len());
    assert(message_views(messages@).take(messages@.len() as int) =~= message_views(messages@));
    n
}

// ───────────────────────────── Configuration ─────────────────────────────

/// Pre-compaction memory flush settings.
pub struct MemoryFlushConfig {
    pub enabled: bool,
    /// Tokens left before the limit at which the flush is asked for.
    pub soft_threshold_tokens: usize,
    pub system_prompt: String,
    pub prompt: String,
}

impl Default for MemoryFlushConfig {
    fn default() -> (c: Self)
        ensures
            c.enabled,
            c.soft_threshold_tokens == 8000,
            c.system_prompt@ == "Session nearing compaction. Store any durable memories now."@,
            c.prompt@
                == "Write any important notes to memory files before context is compacted. Reply with NO_REPLY if nothing to store."@,
    {
        MemoryFlushConfig {
            enabled: true,
            soft_threshold_tokens: 8000,
            system_prompt: owned("Session nearing compaction. Store any durable memories now."),
            prompt: owned(
                "Write any important notes to memory files before context is compacted. Reply with NO_REPLY if nothing to store.",
            ),
        }
    }
}

/// Context window settings.
pub struct ContextConfig {
    /// Size of the context window in tokens.
    pub max_tokens: usize,
    /// Tokens aimed at after compaction.
    pub target_tokens: usize,
    /// Tokens kept free for the response.
    pub reserve_tokens: usize,
    /// Messages never compacted away.
    pub min_messages: usize,
    pub memory_flush: MemoryFlushConfig,
}

/// `a.saturating_sub(b)` on naturals.
pub open spec fn sat_sub(a: int, b: int) -> int {
    if a >= b {
        a - b
    } else {
        0
    }
}

impl ContextConfig {
    /// Tokens available for messages: the window minus the reserve.
    pub open spec fn budget(&self) -> int {
        sat_sub(self.max_tokens as int, self.reserve_tokens as int)
    }

    /// Settings for a model with the given context window.
    pub fn for_model(context_window: usize) -> (c: Self)
        ensures
            c.max_tokens == context_window,
            c.target_tokens == context_window / 2,
            c.reserve_tokens == 4096,
            c.min_messages == 4,
            c.memory_flush.enabled,
            c.memory_flush.soft_threshold_tokens == 8000,
            c.memory_flush.system_prompt@
                == "Session nearing compaction. Store any durable memories now."@,
            c.memory_flush.prompt@
                == "Write any important notes to memory files before context is compacted. Reply with NO_REPLY if nothing to store."@,
    {
        ContextConfig {
            max_tokens: context_window,
            target_tokens: context_window / 2,
            reserve_tokens: 4096,
            min_messages: 4,
            memory_flush: MemoryFlushConfig::default(),
        }
    }

    /// Tokens available for messages (`max_tokens - reserve_tokens`, at least 0).
    pub fn available_tokens(&self) -> (n: usize)
        ensures
            n == self.budget(),
    {
        self.max_tokens.saturating_sub(self.reserve_tokens)
    }
}

impl Default for ContextConfig {
    fn default() -> (c: Self)
        ensures
            c.max_tokens == 128_000,
            c.target_tokens == 64_000,
            c.reserve_tokens == 4096,
            c.min_messages == 4,
            c.memory_flush.enabled,
            c.memory_flush.soft_threshold_tokens == 8000,
            c.memory_flush.system_prompt@
                == "Session nearing compaction. Store any durable memories now."@,
            c.memory_flush.prompt@
                == "Write any important notes to memory files before context is compacted. Reply with NO_REPLY if nothing to store."@,
    {
        ContextConfig {
            max_tokens: 128_000,
            target_tokens: 64_000,
            reserve_tokens: 4096,
            min_messages: 4,
            memory_flush: MemoryFlushConfig::default(),
        }
    }
}

/// Whether the messages no longer fit in the available tokens.
pub fn should_compact(messages: &[LlmMessage], config: &ContextConfig) -> (r: bool)
    requires
        messages_tokens(message_views(messages@)) <= usize::MAX,
    ensures
        r == (messages_tokens(message_views(messages@)) > config.budget()),
{
    let tokens = estimate_messages_tokens(messages);
    tokens > config.available_tokens()
}

// ───────────────────────────── Pruning ─────────────────────────────

/// A long tool result cut to its first and last `max / 2` bytes around a note
/// of how many bytes were dropped.
pub open spec fn truncated_tool_text(c: Seq<char>, max: nat) -> Seq<char> {
    let n = utf8_len(c);
    let half = max / 2;
    c.take(char_index_of_byte(c, half as int)) + "...[truncated "@ + decimal((n - max) as nat)
        + " chars]..."@ + c.skip(char_index_of_byte(c, n - half))
}

/// A block after pruning: tool results longer than `max` bytes are truncated.
pub open spec fn pruned_block(b: BlockView, max: nat) -> BlockView {
    match b {
        BlockView::ToolResult { tool_use_id, content, is_error } => if utf8_len(content) > max {
            BlockView::ToolResult {
                tool_use_id,
                content: truncated_tool_text(content, max),
                is_error,
            }
        } else {
            b
        },
        _ => b,
    }
}

pub open spec fn pruned_message(m: MessageView, max: nat) -> MessageView {
    MessageView { role: m.role, content: m.content.map_values(|b: BlockView| pruned_block(b, max)) }
}

/// The list after pruning every message but the last `keep`.
pub open spec fn pruned_messages(ms: Seq<MessageView>, max: nat, keep: nat) -> Seq<MessageView> {
    if ms.len() <= keep {
        ms
    } else {
        Seq::new(
            ms.len(),
            |i: int|
                if i < ms.len() - keep {
                    pruned_message(ms[i], max)
                } else {
                    ms[i]
                },
        )
    }
}

/// Pruning keeps the structure of the conversation: as many messages, each
/// with its role and as many blocks, every block that is no tool result as it
/// was, and the last `keep` messages untouched.
pub proof fn law_pruning_keeps_structure(ms: Seq<MessageView>, max: nat, keep: nat)
    ensures
        pruned_messages(ms, max, keep).len() == ms.len(),
        forall|i: int| 0 <= i < ms.len() ==> {
            let p = #[trigger] pruned_messages(ms, max, keep)[i];
            &&& p.role == ms[i].role
            &&& p.content.len() == ms[i].content.len()
            &&& forall|j: int| 0 <= j < ms[i].content.len() && !(ms[i].content[j] is ToolResult) ==> p.content[j] == ms[i].content[j]
            &&& i >= ms.len() - keep ==> p == ms[i]
        },
{
}

/// A long tool result in an earlier message is cut to its first and last
/// `max / 2` bytes around a note of how many were dropped; in ASCII text those
/// are its first and last `max / 2` characters.
pub proof fn law_pruned_tool_result_text(ms: Seq<MessageView>, max: nat, keep: nat, i: int, j: int)
    requires
        ms.len() > keep,
        0 <= i < ms.len() - keep,
        0 <= j < ms[i].content.len(),
        ms[i].content[j] is ToolResult,
        utf8_len(ms[i].content[j]->content) > max,
    ensures
        ({
            let b = ms[i].content[j];
            let c = b->content;
            &&& pruned_messages(ms, max, keep)[i].content[j] == (BlockView::ToolResult {
                tool_use_id: b->tool_use_id,
                content: truncated_tool_text(c, max),
                is_error: b->is_error,
            })
            &&& all_ascii(c) ==> truncated_tool_text(c, max) == c.take((max / 2) as int) + "...[truncated "@
                + decimal((c.len() - max) as nat) + " chars]..."@ + c.skip(c.len() - max / 2)
        }),
{
    let c = ms[i].content[j]->content;
    if all_ascii(c) {
        lemma_utf8_len_ascii(c);
        lemma_char_index_of_byte_ascii(c, (max / 2) as int);
        lemma_char_index_of_byte_ascii(c, c.len() - max / 2);
    }
}

/// Byte slicing a long tool result at `max / 2` from either end falls between
/// characters (slicing a string elsewhere panics).
pub open spec fn block_cuttable(b: BlockView, max: nat) -> bool {
    match b {
        BlockView::ToolResult { content, .. } => utf8_len(content) > max ==> byte_boundary(
            content,
            (max / 2) as int,
        ) && byte_boundary(content, utf8_len(content) - max / 2),
        _ => true,
    }
}

pub open spec fn message_cuttable(m: MessageView, max: nat) -> bool {
    forall|j: int| 0 <= j < m.content.len() ==> block_cuttable(#[trigger] m.content[j], max)
}

fn truncate_tool_text(content: &String, max: usize) -> (r: String)
    requires
        utf8_len(content@) > max,
        byte_boundary(content@, (max / 2) as int),
        byte_boundary(content@, utf8_len(content@) - max / 2),
    ensures
        r@ == truncated_tool_text(content@, max as nat),
{
    let n = byte_len(content.as_str());
    let cs = chars_of(content.as_str());
    let half = max / 2;
    let i = match char_index_at_byte(cs.as_slice(), half) {
        Some(i) => i,
        None => {
            proof {
                assert(false);
            }
            0
        },
    };
    let j = match char_index_at_byte(cs.as_slice(), n - half) {
        Some(j) => j,
        None => {
            proof {
                assert(false);
            }
            0
        },
    };
    let head = slice_chars(cs.as_slice(), 0, i);
    let tail = slice_chars(cs.as_slice(), j, cs.len());
    let mut r = string_from_chars(head.as_slice());
    push_str(&mut r, "...[truncated ");
    let count = usize_to_string(n - max);
    push_str(&mut r, count.as_str());
    push_str(&mut r, " chars]...");
    let t = string_from_chars(tail.as_slice());
    push_str(&mut r, t.as_str());
    assert(content@.take(i as int) =~= cs@.subrange(0, i as int));
    assert(content@.skip(j as int) =~= cs@.subrange(j as int, cs@.len() as int));
    r
}

fn prune_block(b: &ContentBlock, max: usize) -> (r: ContentBlock)
    requires
        block_cuttable(b@, max as nat),
    ensures
        r@ == pruned_block(b@, max as nat),
{
    match b {
        ContentBlock::ToolResult { tool_use_id, content, is_error } => {
            if byte_len(content.as_str()) > max {
                ContentBlock::ToolResult {
                    tool_use_id: copy_string(tool_use_id),
                    content: truncate_tool_text(content, max),
                    is_error: *is_error,
                }
            } else {
                copy_block(b)
            }
        },
        _ => copy_block(b),
    }
}

fn prune_message(m: &LlmMessage, max: usize) -> (r: LlmMessage)
    requires
        message_cuttable(m@, max as nat),
    ensures
        r@ == pruned_message(m@, max as nat),
{
    let mut blocks: Vec<ContentBlock> = Vec::new();
    let n = m.content.len();
    for j in 0..n
        invariant
            n == m.content@.len(),
            message_cuttable(m@, max as nat),
            blocks@.len() == j,
            forall|k: int| 0 <= k < j ==> blocks@[k]@ == pruned_block(m.content@[k]@, max as nat),
    {
        assert(m@.content[j as int] == m.content@[j as int]@);
        blocks.push(prune_block(&m.content[j], max));
    }
    let r = LlmMessage { role: copy_string(&m.role), content: blocks };
    assert(block_views(r.content@) =~= m@.content.map_values(
        |b: BlockView| pruned_block(b, max as nat),
    ));
    r
}

/// Truncates long tool results in all but the last `keep_last_n` messages.
pub fn prune_tool_results(messages: &mut Vec<LlmMessage>, max_tool_result_chars: usize, keep_last_n: usize)
    requires
        forall|i: int|
            0 <= i < old(messages)@.len() - keep_last_n ==> message_cuttable(
                #[trigger] old(messages)@[i]@,
                max_tool_result_chars as nat,
            ),
    ensures
        message_views(final(messages)@) == pruned_messages(
            message_views(old(messages)@),
            max_tool_result_chars as nat,
            keep_last_n as nat,
        ),
{
    let len = messages.len();
    if len <= keep_last_n {
        return;
    }
    let mut out: Vec<LlmMessage> = Vec::new();
    for i in 0..len
        invariant
            len == messages@.len(),
            len > keep_last_n,
            out@.len() == i,
            forall|k: int|
                0 <= k < len - keep_last_n ==> message_cuttable(
                    #[trigger] messages@[k]@,
                    max_tool_result_chars as nat,
                ),
            forall|k: int|
                0 <= k < i ==> out@[k]@ == (if k < len - keep_last_n {
                    pruned_message(messages@[k]@, max_tool_result_chars as nat)
                } else {
                    messages@[k]@
                }),
    {
        if i < len - keep_last_n {
            out.push(prune_message(&messages[i], max_tool_result_chars));
        } else {
            out.push(copy_message(&messages[i]));
        }
    }
    let ghost before = message_views(messages@);
    *messages = out;
    assert(message_views(messages@) =~= pruned_messages(
        before,
        max_tool_result_chars as nat,
        keep_last_n as nat,
    ));
}

// ───────────────────────────── Compaction ─────────────────────────────

/// Instructions given to the model that writes a compaction summary.
pub const COMPACTION_SYSTEM_PROMPT: &'static str = "You are a conversation summarizer. Your task is to create a concise summary of the conversation history that preserves:
1. Key decisions and conclusions
2. Important context and facts mentioned
3. Current state of any ongoing tasks
4. User preferences expressed

Output a clear, structured summary. Do not include pleasantries or filler.";

/// Where the kept tail of the conversation starts: the earliest message from
/// which on the tail fits in `half` tokens, or the end of the list when the whole
/// list fits.
pub open spec fn keep_from(ms: Seq<MessageView>, half: nat) -> int {
    if messages_tokens(ms) <= half {
        ms.len() as int
    } else {
        choose|s: int|
            0 < s <= ms.len() && #[trigger] messages_tokens(ms.skip(s)) <= half
                && messages_tokens(ms.skip(s - 1)) > half
    }
}

/// How many leading messages a compaction folds into a summary (0: none).
/// Nothing is compacted while the estimate is within the target; otherwise the
/// tail that fits in half the target is kept, and never fewer than
/// `min_messages` messages.
pub open spec fn compaction_split(ms: Seq<MessageView>, config: ContextConfig) -> int {
    if messages_tokens(ms) <= config.target_tokens {
        0
    } else {
        let raw = keep_from(ms, (config.target_tokens / 2) as nat);
        let floor = sat_sub(ms.len() as int, config.min_messages as int);
        if raw <= floor {
            raw
        } else {
            floor
        }
    }
}

/// Nothing is compacted while the conversation is within its target size, and
/// a compaction always keeps at least `min_messages` recent messages (all of
/// them when there are fewer).
pub proof fn law_compaction_bounds(ms: Seq<MessageView>, config: ContextConfig)
    ensures
        messages_tokens(ms) <= config.target_tokens ==> compaction_split(ms, config) == 0,
        compaction_split(ms, config) <= sat_sub(ms.len() as int, config.min_messages as int),
{
}

/// The number of leading messages to fold into a summary; 0 when nothing is to
/// be compacted.
pub fn plan_compaction(messages: &[LlmMessage], config: &ContextConfig) -> (split: usize)
    requires
        messages_tokens(message_views(messages@)) <= usize::MAX,
    ensures
        split == compaction_split(message_views(messages@), *config),
        split <= messages@.len(),
{
    let ghost ms = message_views(messages@);
    let current = estimate_messages_tokens(messages);
    if current <= config.target_tokens {
        return 0;
    }
    let half = config.target_tokens / 2;
    let n = messages.len();
    let mut keep: usize = 0;
    let mut split: usize = n;
    let mut found = false;
    let mut i: usize = n;
    assert(ms.skip(n as int).len() == 0);
    while i > 0
        invariant
            i <= n,
            n == ms.len(),
            ms == message_views(messages@),
            messages_tokens(ms) <= usize::MAX,
            !found ==> keep == messages_tokens(ms.skip(i as int)) && keep <= half && split == n,
            found ==> i == 0 && 0 < split <= n && messages_tokens(ms.skip(split as int)) <= half
                && messages_tokens(ms.skip(split - 1)) > half,
        decreases i,
    {
        proof {
            let t = ms.skip(i - 1);
            assert(t.skip(1) =~= ms.skip(i as int));
            assert(t[0] == ms[i - 1]);
            assert(messages_tokens(t) == message_tokens(t[0]) + messages_tokens(t.skip(1)));
            lemma_suffix_tokens_mono(ms, 0, i - 1);
            assert(ms.skip(0) =~= ms);
            assert(ms[i - 1] == messages@[i - 1]@);
            assert(blocks_tokens(ms[i - 1].content) <= message_tokens(ms[i - 1]));
        }
        let t = estimate_message_tokens(&messages[i - 1]);
        if keep + t > half {
            split = i;
            found = true;
            i = 0;
        } else {
            keep = keep + t;
            i = i - 1;
        }
    }
    proof {
        if !found {
            assert(ms.skip(0) =~= ms);
        } else {
            assert(messages_tokens(ms) > half) by {
                lemma_suffix_tokens_mono(ms, 0, split - 1);
                assert(ms.skip(0) =~= ms);
            }
            let w = keep_from(ms, half as nat);
            assert(0 < w <= n && messages_tokens(ms.skip(w)) <= half && messages_tokens(ms.skip(w - 1)) > half);
            if w < split {
                lemma_suffix_tokens_mono(ms, w, split - 1);
            } else if split < w {
                lemma_suffix_tokens_mono(ms, split as int, w - 1);
            }
        }
    }
    let floor = n.saturating_sub(config.min_messages);
    if split <= floor {
        split
    } else {
        floor
    }
}

/// What a text block contributes to the summary request: `role: text` and a
/// blank line. Other blocks contribute nothing.
pub open spec fn block_transcript(role: Seq<char>, b: BlockView) -> Seq<char> {
    match b {
        BlockView::Text { text } => role + ": "@ + text + "\n\n"@,
        _ => Seq::empty(),
    }
}

pub open spec fn blocks_transcript(role: Seq<char>, bs: Seq<BlockView>) -> Seq<char>
    decreases bs.len(),
{
    if bs.len() == 0 {
        Seq::empty()
    } else {
        blocks_transcript(role, bs.drop_last()) + block_transcript(role, bs.last())
    }
}

pub open spec fn transcript(ms: Seq<MessageView>) -> Seq<char>
    decreases ms.len(),
{
    if ms.len() == 0 {
        Seq::empty()
    } else {
        transcript(ms.drop_last()) + blocks_transcript(ms.last().role, ms.last().content)
    }
}

/// The request sent to the model to summarize the given messages.
pub open spec fn summary_request(ms: Seq<MessageView>) -> Seq<char> {
    "Please summarize this conversation:\n\n"@ + transcript(ms)
}

/// The request that asks for a summary of the first `split` messages.
pub fn summary_request_text(messages: &[LlmMessage], split: usize) -> (r: String)
    requires
        split <= messages@.len(),
    ensures
        r@ == summary_request(message_views(messages@).take(split as int)),
{
    let ghost ms = message_views(messages@);
    let mut r = owned("Please summarize this conversation:\n\n");
    for i in 0..split
        invariant
            split <= ms.len(),
            ms == message_views(messages@),
            r@ == summary_request(ms.take(i as int)),
    {
        let m = &messages[i];
        let ghost before = r@;
        let n = m.content.len();
        for j in 0..n
            invariant
                n == m.content@.len(),
                r@ == before + blocks_transcript(m.role@, block_views(m.content@).take(j as int)),
        {
            let ghost mid = r@;
            match &m.content[j] {
                ContentBlock::Text { text } => {
                    push_str(&mut r, m.role.as_str());
                    push_str(&mut r, ": ");
                    push_str(&mut r, text.as_str());
                    push_str(&mut r, "\n\n");
                },
                _ => {},
            }
            proof {
                let bs = block_views(m.content@);
                assert(bs.take(j + 1).drop_last() =~= bs.take(j as int));
                assert(bs.take(j + 1).last() == m.content@[j as int]@);
                assert(r@ =~= mid + block_transcript(m.role@, m.content@[j as int]@));
            }
        }
        proof {
            assert(block_views(m.content@).take(n as int) =~= block_views(m.content@));
            assert(ms.take(i + 1).drop_last() =~= ms.take(i as int));
            assert(ms.take(i + 1).last() == m@);
            assert(r@ =~= summary_request(ms.take(i + 1)));
        }
    }
    r
}

/// Outcome of a compaction.
pub struct CompactionResult {
    /// The summary that replaced the older messages.
    pub summary: String,
    /// How many messages were folded into the summary.
    pub compacted_count: usize,
    /// Estimated tokens saved.
    pub tokens_saved: usize,
}

/// The result of a compaction that changed nothing.
pub fn no_compaction() -> (r: CompactionResult)
    ensures
        r.summary@ == Seq::<char>::empty(),
        r.compacted_count == 0,
        r.tokens_saved == 0,
{
    CompactionResult { summary: String::new(), compacted_count: 0, tokens_saved: 0 }
}

/// The message that carries a compaction summary.
pub open spec fn summary_message(summary: Seq<char>) -> MessageView {
    user_message("[Previous conversation summary]\n"@ + summary)
}

/// Tool results longer than this many bytes are cut when a conversation is
/// brought within its limits.
pub const PRUNE_MAX_CHARS: usize = 4000;

/// The most recent messages that pruning leaves untouched.
pub const PRUNE_KEEP_LAST: usize = 3;

/// What keeping a conversation within its limits calls for, once its tool
/// results are pruned.
pub enum LimitStep {
    /// The conversation fits its budget.
    Within,
    /// It is over budget, but no leading messages can be folded.
    NothingToFold,
    /// Fold the first `split` messages into a summary asked for with `request`.
    Fold { split: usize, request: String },
}

/// Abstract value of a limit step.
pub enum LimitStepView {
    Within,
    NothingToFold,
    Fold(nat, Seq<char>),
}

impl LimitStep {
    pub open spec fn view(&self) -> LimitStepView {
        match self {
            LimitStep::Within => LimitStepView::Within,
            LimitStep::NothingToFold => LimitStepView::NothingToFold,
            LimitStep::Fold { split, request } => LimitStepView::Fold(*split as nat, request@),
        }
    }
}

/// The step for a pruned conversation `ms`.
pub open spec fn limit_step(ms: Seq<MessageView>, config: ContextConfig) -> LimitStepView {
    if messages_tokens(ms) <= config.budget() {
        LimitStepView::Within
    } else {
        let k = compaction_split(ms, config);
        if k == 0 {
            LimitStepView::NothingToFold
        } else {
            LimitStepView::Fold(k as nat, summary_request(ms.take(k)))
        }
    }
}

/// Brings a conversation toward its limits: prunes long tool results of all
/// but the last three messages, then says whether it fits, or which leading
/// messages to fold into a summary and how to ask for it (the fold itself is
/// `apply_compaction`, with the summary the model gave).
pub fn limits_step(messages: &mut Vec<LlmMessage>, config: &ContextConfig) -> (r: LimitStep)
    requires
        forall|i: int|
            0 <= i < old(messages)@.len() - PRUNE_KEEP_LAST ==> message_cuttable(
                #[trigger] old(messages)@[i]@,
                PRUNE_MAX_CHARS as nat,
            ),
        messages_tokens(pruned_messages(message_views(old(messages)@), PRUNE_MAX_CHARS as nat, PRUNE_KEEP_LAST as nat))
            <= usize::MAX,
    ensures
        message_views(final(messages)@) == pruned_messages(
            message_views(old(messages)@),
            PRUNE_MAX_CHARS as nat,
            PRUNE_KEEP_LAST as nat,
        ),
        r.view() == limit_step(message_views(final(messages)@), *config),
{
    prune_tool_results(messages, PRUNE_MAX_CHARS, PRUNE_KEEP_LAST);
    if !should_compact(messages.as_slice(), config) {
        return LimitStep::Within;
    }
    let split = plan_compaction(messages.as_slice(), config);
    if split == 0 {
        return LimitStep::NothingToFold;
    }
    let request = summary_request_text(messages.as_slice(), split);
    LimitStep::Fold { split, request }
}

/// Replaces the first `split` messages by one user message carrying `summary`.
pub fn apply_compaction(messages: Vec<LlmMessage>, split: usize, summary: String) -> (r: (
    Vec<LlmMessage>,
    CompactionResult,
))
    requires
        0 < split <= messages@.len(),
        messages_tokens(message_views(messages@)) <= usize::MAX,
    ensures
        message_views(r.0@) == seq![summary_message(summary@)] + message_views(messages@).skip(
            split as int,
        ),
        r.1.summary@ == summary@,
        r.1.compacted_count == split,
        r.1.tokens_saved == sat_sub(
            messages_tokens(message_views(messages@).take(split as int)) as int,
            token_estimate(summary@) as int,
        ),
{
    let ghost before = message_views(messages@);
    let compact_tokens = prefix_tokens(messages.as_slice(), split);
    let summary_tokens = estimate_tokens(summary.as_str());
    let mut text = owned("[Previous conversation summary]\n");
    push_str(&mut text, summary.as_str());
    let header = LlmMessage::user(text);
    let mut messages = messages;
    let mut kept = messages.split_off(split);
    kept.insert(0, header);
    assert(message_views(kept@) =~= seq![summary_message(summary@)] + before.skip(split as int));
    let result = CompactionResult {
        summary,
        compacted_count: split,
        tokens_saved: compact_tokens.saturating_sub(summary_tokens),
    };
    (kept, result)
}

// ───────────────────────────── Context manager ─────────────────────────────

/// What a check of the context window asks for.
pub enum ContextCheckResult {
    /// Nothing to do.
    NoAction,
    /// Durable memories should be written before compaction.
    NeedsMemoryFlush { system_prompt: String, prompt: String },
    /// A compaction took place.
    Compacted(CompactionResult),
}

/// Whether a memory flush is due: enabled, and the estimate has reached the
/// flush threshold (`budget - soft_threshold_tokens`) but not the budget.
pub open spec fn flush_due(config: ContextConfig, tokens: nat) -> bool {
    &&& config.memory_flush.enabled
    &&& tokens >= sat_sub(config.budget(), config.memory_flush.soft_threshold_tokens as int)
    &&& tokens < config.budget()
}

/// Tracks the context window of one model.
pub struct ContextManager {
    pub config: ContextConfig,
}

impl ContextManager {
    pub fn new(config: ContextConfig) -> (m: Self)
        ensures
            m.config == config,
    {
        ContextManager { config }
    }

    /// A manager for a model with the given context window.
    pub fn for_context_window(&self, context_window: usize) -> (m: Self)
        ensures
            m.config.max_tokens == context_window,
            m.config.target_tokens == context_window / 2,
            m.config.reserve_tokens == 4096,
            m.config.min_messages == 4,
            m.config.memory_flush.enabled,
            m.config.memory_flush.soft_threshold_tokens == 8000,
    {
        ContextManager { config: ContextConfig::for_model(context_window) }
    }

    /// What the context window needs: a memory flush, or nothing.
    pub fn check_context(&self, messages: &[LlmMessage]) -> (r: ContextCheckResult)
        requires
            messages_tokens(message_views(messages@)) <= usize::MAX,
        ensures
            match r {
                ContextCheckResult::NoAction => !flush_due(
                    self.config,
                    messages_tokens(message_views(messages@)),
                ),
                ContextCheckResult::NeedsMemoryFlush { system_prompt, prompt } => flush_due(
                    self.config,
                    messages_tokens(message_views(messages@)),
                ) && system_prompt@ == self.config.memory_flush.system_prompt@ && prompt@
                    == self.config.memory_flush.prompt@,
                ContextCheckResult::Compacted(_) => false,
            },
    {
        let tokens = estimate_messages_tokens(messages);
        let available = self.config.available_tokens();
        if self.config.memory_flush.enabled {
            let flush_threshold = available.saturating_sub(
                self.config.memory_flush.soft_threshold_tokens,
            );
            if tokens >= flush_threshold && tokens < available {
                return ContextCheckResult::NeedsMemoryFlush {
                    system_prompt: copy_string(&self.config.memory_flush.system_prompt),
                    prompt: copy_string(&self.config.memory_flush.prompt),
                };
            }
        }
        ContextCheckResult::NoAction
    }

    /// Estimated tokens of the messages.
    pub fn estimate_tokens(&self, messages: &[LlmMessage]) -> (n: usize)
        requires
            messages_tokens(message_views(messages@)) <= usize::MAX,
        ensures
            n == messages_tokens(message_views(messages@)),
    {
        estimate_messages_tokens(messages)
    }

    /// Whether the estimate exceeds 80% of the available tokens.
    pub fn is_approaching_limit(&self, messages: &[LlmMessage]) -> (r: bool)
        requires
            messages_tokens(message_views(messages@)) <= usize::MAX,
            self.config.budget() * 80 <= usize::MAX,
        ensures
            r == (messages_tokens(message_views(messages@)) > self.config.budget() * 80 / 100),
    {
        let tokens = estimate_messages_tokens(messages);
        tokens > self.config.available_tokens() * 80 / 100
    }

    /// Whether a memory flush should run before compaction.
    pub fn should_trigger_memory_flush(&self, messages: &[LlmMessage]) -> (r: bool)
        requires
            messages_tokens(message_views(messages@)) <= usize::MAX,
        ensures
            r == flush_due(self.config, messages_tokens(message_views(messages@))),
    {
        if !self.config.memory_flush.enabled {
            return false;
        }
        let tokens = estimate_messages_tokens(messages);
        let flush_threshold = self.config.available_tokens().saturating_sub(
            self.config.memory_flush.soft_threshold_tokens,
        );
        tokens >= flush_threshold && tokens < self.config.available_tokens()
    }

    /// The memory flush prompts: system prompt, then user prompt.
    pub fn memory_flush_prompts(&self) -> (r: (&str, &str))
        ensures
            r.0@ == self.config.memory_flush.system_prompt@,
            r.1@ == self.config.memory_flush.prompt@,
    {
        (self.config.memory_flush.system_prompt.as_str(), self.config.memory_flush.prompt.as_str())
    }

    /// The context settings.
    pub fn config(&self) -> (c: &ContextConfig)
        ensures
            *c == self.config,
    {
        &self.config
    }
}

} // verus!
