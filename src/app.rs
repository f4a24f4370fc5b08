//! Conversation state: the display transcript, the provider history and the
//! persisted record, kept in step by the operations that change them.

use vstd::prelude::*;
use crate::history::{Conversation, Role, SavedMessage, saved, now_millis};
use crate::json::{Json, parse_json, json_parse, into_field, str_value, field, get_str};
use crate::sse::block_texts;
use crate::text::{trimmed, trim, append, str_eq};
use crate::tools::{
    Tool, args_summary, ToolCall, ToolExecutor, ToolPermission, ToolResult, calls_from_blocks, content_blocks,
    format_tool_args, parse_tool_calls, tool_name, tool_use_blocks,
};

verus! {

/// Content of a provider message: plain text, or provider-native blocks.
#[derive(Debug)]
pub enum MessageContent {
    Text(String),
    Blocks(Vec<Json>),
}

/// The texts joined with nothing between them.
pub open spec fn concat_all(parts: Seq<Seq<char>>) -> Seq<char>
    decreases parts.len(),
{
    if parts.len() == 0 {
        Seq::empty()
    } else {
        concat_all(parts.drop_last()) + parts.last()
    }
}

/// The plain text of message content: the text itself, or its text blocks joined.
pub open spec fn content_text(c: MessageContent) -> Seq<char> {
    match c {
        MessageContent::Text(s) => s@,
        MessageContent::Blocks(b) => concat_all(block_texts(b@)),
    }
}

impl MessageContent {
    /// The plain text: the text itself, or the texts of the `text` blocks joined.
    pub fn as_text(&self) -> (r: String)
        ensures
            r@ == content_text(*self),
    {
        match self {
            MessageContent::Text(s) => s.clone(),
            MessageContent::Blocks(blocks) => {
                let mut r = String::new();
                let mut i: usize = 0;
                while i < blocks.len()
                    invariant
                        i <= blocks@.len(),
                        r@ == concat_all(block_texts(blocks@.take(i as int))),
                    decreases blocks@.len() - i,
                {
                    assert(blocks@.take(i + 1).drop_last() =~= blocks@.take(i as int));
                    assert(blocks@.take(i + 1).last() == blocks@[i as int]);
                    let b = &blocks[i];
                    match get_str(b, "type") {
                        Some(t) => {
                            if str_eq(t.as_str(), "text") {
                                match get_str(b, "text") {
                                    Some(x) => {
                                        append(&mut r, x.as_str());
                                        let ghost prev = block_texts(blocks@.take(i as int));
                                        assert(prev.push(x@).drop_last() =~= prev);
                                    },
                                    None => {},
                                }
                            }
                        },
                        None => {},
                    }
                    i = i + 1;
                }
                assert(blocks@.take(blocks@.len() as int) =~= blocks@);
                r
            },
        }
    }
}

/// One message of the provider history.
#[derive(Debug)]
pub struct Message {
    pub role: Role,
    pub content: MessageContent,
}

/// A tool call paired with its result, as shown in the transcript.
#[derive(Debug, Clone)]
pub struct ToolInvocation {
    pub tool_name: String,
    pub tool_args: String,
    pub result: Option<ToolResult>,
    pub collapsed: bool,
}

impl ToolInvocation {
    /// A copy of this invocation.
    pub fn duplicate(&self) -> (r: ToolInvocation)
        ensures
            r == *self,
    {
        ToolInvocation {
            tool_name: self.tool_name.clone(),
            tool_args: self.tool_args.clone(),
            result: match &self.result {
                Some(x) => Some(x.duplicate()),
                None => None,
            },
            collapsed: self.collapsed,
        }
    }
}

/// One entry of the display transcript. `timestamp` is in milliseconds since the Unix epoch.
#[derive(Debug, Clone)]
pub struct ChatMessage {
    pub role: Role,
    pub content: String,
    pub timestamp: i64,
    pub tool_invocations: Vec<ToolInvocation>,
}

#[derive(Debug, Clone, Copy, PartialEq, Eq, Structural)]
pub enum InputMode {
    Normal,
    Insert,
    Command,
    Search,
}

#[derive(Debug, Clone, Copy, PartialEq, Eq, Structural)]
pub enum Overlay {
    /// No overlay is shown.
    Hidden,
    Help,
    History,
    Settings,
    ToolConfirm,
}

/// The wire protocol of the configured provider.
#[derive(Debug, Clone, Copy, PartialEq, Eq, Structural)]
pub enum Provider {
    /// Delta-based protocol; supports tool use.
    Anthropic,
    /// OpenAI-compatible chat completions.
    OpenAi,
}

/// A provider call to issue with the whole provider history.
#[derive(Debug, Clone, Copy, PartialEq, Eq, Structural)]
pub struct ProviderCall {
    pub provider: Provider,
    /// Whether the call is the non-streamed, tool-enabled kind.
    pub with_tools: bool,
    /// The turn the call belongs to; its events count only while that turn is current.
    pub turn: u64,
}

/// The turn id that follows `t`.
pub open spec fn next_turn_id(t: u64) -> u64 {
    if t < u64::MAX {
        (t + 1) as u64
    } else {
        0
    }
}

#[derive(Debug, Clone, Copy, PartialEq, Eq, Structural)]
pub enum SendError {
    /// The input is empty or white space only.
    Blank,
    /// No credentials are configured for the provider.
    NoApiKey,
}

#[derive(Debug, Clone, Copy, PartialEq, Eq, Structural)]
pub enum RetryError {
    StillStreaming,
    NoAssistantMessage,
    NoUserMessage,
    NoApiKey,
}

#[derive(Debug, Clone, Copy, PartialEq, Eq, Structural)]
pub enum EditError {
    StillStreaming,
    NoUserMessage,
}

/// What the event loop is to do next while a tool response is being resolved.
#[derive(Debug, Clone, Copy, PartialEq, Eq, Structural)]
pub enum ToolStep {
    /// Nothing: the response held no tool call, or could not be read.
    Idle,
    /// Run the pending call at this index and report its result.
    Run(usize),
    /// Ask the user about the pending call at this index.
    Confirm(usize),
    /// Every call is resolved; issue this continuation call.
    Continue(ProviderCall),
}

/// The user's answer to a confirmation request.
#[derive(Debug, Clone, Copy, PartialEq, Eq, Structural)]
pub enum ConfirmAnswer {
    AllowOnce,
    AlwaysAllow,
    DenyOnce,
    DenyAlways,
}

/// A call that is resolved without running and without asking: a tool this library
/// does not offer, or one the permission table denies.
pub open spec fn skipped(calls: Seq<ToolCall>, ex: ToolExecutor, k: int) -> bool {
    calls[k].tool is Unknown || ex.policy(tool_name(calls[k].tool)) == ToolPermission::Deny
}

/// The text of the failed result a skipped call gets.
pub open spec fn skip_output(t: Tool) -> Seq<char> {
    match t {
        Tool::Unknown { name } => "Unknown tool: "@ + name@,
        _ => "Tool execution denied by user"@,
    }
}

/// The call at `k` was skipped and got the failed result for that.
pub open spec fn denied_at(results: Seq<ToolResult>, calls: Seq<ToolCall>, ex: ToolExecutor, k: int) -> bool {
    &&& !results[k].success
    &&& results[k].output@ == skip_output(calls[k].tool)
    &&& skipped(calls, ex, k)
}

/// Whether `inv` shows the call of `t` with the result `res`.
pub open spec fn invocation_of(inv: ToolInvocation, t: Tool, res: ToolResult) -> bool {
    inv.tool_name@ == tool_name(t) && inv.tool_args@ == args_summary(t) && inv.result == Some(res)
}

/// The transcript `b` is `a` with the same entries and text, each entry's tool
/// invocations kept and possibly followed by more.
pub open spec fn grows(a: Seq<ChatMessage>, b: Seq<ChatMessage>) -> bool {
    &&& a.len() == b.len()
    &&& forall|k: int|
        0 <= k < a.len() ==> (#[trigger] b[k]).role == a[k].role && b[k].content == a[k].content
            && a[k].tool_invocations@.len() <= b[k].tool_invocations@.len()
            && b[k].tool_invocations@.take(a[k].tool_invocations@.len() as int)
            == a[k].tool_invocations@
}

/// Whether `inv` shows the call of `t` as skipped.
pub open spec fn skip_invocation(inv: ToolInvocation, t: Tool) -> bool {
    &&& inv.tool_name@ == tool_name(t)
    &&& inv.tool_args@ == args_summary(t)
    &&& inv.result is Some
    &&& !inv.result->0.success
    &&& inv.result->0.output@ == skip_output(t)
}

/// The invocations `invs[base..]` show the skipped calls `calls[from..to]`, in order.
pub open spec fn skips_recorded(
    invs: Seq<ToolInvocation>,
    base: int,
    calls: Seq<ToolCall>,
    from: int,
    to: int,
) -> bool {
    &&& invs.len() == base + (to - from)
    &&& forall|k: int| from <= k < to ==> skip_invocation(#[trigger] invs[base + (k - from)], calls[k].tool)
}

proof fn lemma_denied_skipped(
    results: Seq<ToolResult>,
    calls: Seq<ToolCall>,
    ex: ToolExecutor,
    from: int,
    to: int,
)
    requires
        all_denied(results, calls, ex, from),
        to <= results.len(),
    ensures
        forall|k: int| from <= k < to ==> #[trigger] skipped(calls, ex, k),
{
    assert forall|k: int| from <= k < to implies #[trigger] skipped(calls, ex, k) by {
        assert(denied_at(results, calls, ex, k));
    }
}

proof fn lemma_grows_refl(a: Seq<ChatMessage>)
    ensures
        grows(a, a),
{
    assert forall|k: int| 0 <= k < a.len() implies (#[trigger] a[k]).tool_invocations@.take(
        a[k].tool_invocations@.len() as int,
    ) == a[k].tool_invocations@ by {
        assert(a[k].tool_invocations@.take(a[k].tool_invocations@.len() as int) =~= a[k].tool_invocations@);
    }
}

proof fn lemma_grows_trans(a: Seq<ChatMessage>, b: Seq<ChatMessage>, c: Seq<ChatMessage>)
    requires
        grows(a, b),
        grows(b, c),
    ensures
        grows(a, c),
{
    assert forall|k: int| 0 <= k < a.len() implies (#[trigger] c[k]).role == a[k].role && c[k].content
        == a[k].content && a[k].tool_invocations@.len() <= c[k].tool_invocations@.len()
        && c[k].tool_invocations@.take(a[k].tool_invocations@.len() as int) == a[k].tool_invocations@ by {
        assert(b[k].role == a[k].role);
        assert(c[k].role == b[k].role);
        let la = a[k].tool_invocations@.len() as int;
        let lb = b[k].tool_invocations@.len() as int;
        assert(c[k].tool_invocations@.take(lb).take(la) =~= c[k].tool_invocations@.take(la));
    }
}

/// Whether `j` is a tool-result block for the call `id` with this content and flag.
pub open spec fn result_parts(j: Json, id: Seq<char>, content: Seq<char>, is_error: bool) -> bool {
    match j {
        Json::Object(v) => {
            &&& v@.len() == 4
            &&& v@[0].0@ == "type"@ && v@[0].1 is Str && v@[0].1->Str_0@ == "tool_result"@
            &&& v@[1].0@ == "tool_use_id"@ && v@[1].1 is Str && v@[1].1->Str_0@ == id
            &&& v@[2].0@ == "content"@ && v@[2].1 is Str && v@[2].1->Str_0@ == content
            &&& v@[3].0@ == "is_error"@ && v@[3].1 == Json::Bool(is_error)
        },
        _ => false,
    }
}

/// Every call from `from` on that has a result was skipped.
pub open spec fn all_denied(results: Seq<ToolResult>, calls: Seq<ToolCall>, ex: ToolExecutor, from: int) -> bool {
    forall|k: int| from <= k < results.len() ==> #[trigger] denied_at(results, calls, ex, k)
}

/// Whether `j` is the tool-result block `{type, tool_use_id, content, is_error}`
/// answering the call `id` with `res`.
pub open spec fn result_block(j: Json, id: Seq<char>, res: ToolResult) -> bool {
    result_parts(j, id, res.output@, !res.success)
}

/// The call id that a tool-result block answers.
pub open spec fn answered_id(j: Json) -> Option<Seq<char>> {
    match j {
        Json::Object(v) => if v@.len() == 4 && v@[1].0@ == "tool_use_id"@ && v@[1].1 is Str {
            Some(v@[1].1->Str_0@)
        } else {
            None
        },
        _ => None,
    }
}

/// Whether the user message `user` answers every tool-use block of the assistant
/// message `assistant`: one tool-result block per tool-use block, in order, with the
/// same id.
pub open spec fn resolves(assistant: Message, user: Message) -> bool {
    match (assistant.content, user.content) {
        (MessageContent::Blocks(a), MessageContent::Blocks(r)) => {
            let uses = tool_use_blocks(a@);
            &&& assistant.role == Role::Assistant
            &&& user.role == Role::User
            &&& r@.len() == uses.len()
            &&& forall|i: int|
                0 <= i < r@.len() ==> answered_id(#[trigger] r@[i]) == str_value(
                    field(uses[i], "id"@),
                )
        },
        _ => false,
    }
}

/// The ids of the tool-use blocks of `blocks` are pairwise distinct.
pub open spec fn distinct_use_ids(blocks: Seq<Json>) -> bool {
    let uses = tool_use_blocks(blocks);
    forall|i: int, j: int|
        0 <= i < j < uses.len() ==> str_value(field(#[trigger] uses[i], "id"@)) != str_value(
            field(#[trigger] uses[j], "id"@),
        )
}

/// When a user message resolves an assistant message whose tool-use ids are distinct,
/// it holds as many tool-result blocks as there are tool-use blocks, and each tool-use
/// id is answered by exactly one of them.
pub proof fn law_each_call_answered_once(assistant: Message, user: Message)
    requires
        resolves(assistant, user),
        assistant.content is Blocks,
        distinct_use_ids(assistant.content->Blocks_0@),
    ensures
        ({
            let uses = tool_use_blocks(assistant.content->Blocks_0@);
            let results = user.content->Blocks_0@;
            &&& results.len() == uses.len()
            &&& forall|i: int|
                0 <= i < uses.len() ==> answered_id(results[i]) == str_value(
                    field(#[trigger] uses[i], "id"@),
                ) && forall|j: int|
                    0 <= j < results.len() && answered_id(results[j]) == str_value(
                        field(uses[i], "id"@),
                    ) ==> j == i
        }),
{
    let uses = tool_use_blocks(assistant.content->Blocks_0@);
    let results = user.content->Blocks_0@;
    assert forall|i: int| 0 <= i < uses.len() implies answered_id(results[i]) == str_value(
        field(#[trigger] uses[i], "id"@),
    ) && forall|j: int|
        0 <= j < results.len() && answered_id(results[j]) == str_value(field(uses[i], "id"@))
            ==> j == i by {
        assert(answered_id(results[i]) == str_value(field(uses[i], "id"@)));
        assert forall|j: int|
            0 <= j < results.len() && answered_id(results[j]) == str_value(field(uses[i], "id"@))
                implies j == i by {
            assert(answered_id(results[j]) == str_value(field(uses[j], "id"@)));
            if j < i {
                assert(str_value(field(uses[j], "id"@)) != str_value(field(uses[i], "id"@)));
            } else if j > i {
                assert(str_value(field(uses[i], "id"@)) != str_value(field(uses[j], "id"@)));
            }
        }
    }
}

/// The heading of a transcript entry in an export.
pub open spec fn role_label(r: Role) -> Seq<char> {
    match r {
        Role::User => "You"@,
        Role::Assistant => "Assistant"@,
        Role::System => "System"@,
    }
}

/// One tool invocation in an export.
pub open spec fn invocation_markdown(inv: ToolInvocation) -> Seq<char> {
    "**Tool: "@ + inv.tool_name@ + "**\n"@ + "Args: "@ + inv.tool_args@ + "\n"@ + match inv.result {
        Some(r) => "Result ("@ + (if r.success {
            "Success"@
        } else {
            "Error"@
        }) + "):\n```\n"@ + r.output@ + "\n```\n\n"@,
        None => Seq::empty(),
    }
}

/// The tool invocations of an entry, in order, in an export.
pub open spec fn invocations_markdown(invs: Seq<ToolInvocation>) -> Seq<char>
    decreases invs.len(),
{
    if invs.len() == 0 {
        Seq::empty()
    } else {
        invocations_markdown(invs.drop_last()) + invocation_markdown(invs.last())
    }
}

/// One transcript entry in an export.
pub open spec fn entry_markdown(m: ChatMessage) -> Seq<char> {
    "## "@ + role_label(m.role) + "\n\n"@ + m.content@ + "\n\n"@ + invocations_markdown(
        m.tool_invocations@,
    )
}

/// A transcript as a markdown document.
pub open spec fn transcript_markdown(ms: Seq<ChatMessage>) -> Seq<char>
    decreases ms.len(),
{
    if ms.len() == 0 {
        Seq::empty()
    } else {
        transcript_markdown(ms.drop_last()) + entry_markdown(ms.last())
    }
}

fn push_invocation(out: &mut String, inv: &ToolInvocation)
    ensures
        final(out)@ == old(out)@ + invocation_markdown(*inv),
{
    append(out, "**Tool: ");
    append(out, inv.tool_name.as_str());
    append(out, "**\n");
    append(out, "Args: ");
    append(out, inv.tool_args.as_str());
    append(out, "\n");
    match &inv.result {
        Some(r) => {
            append(out, "Result (");
            append(out, if r.success { "Success" } else { "Error" });
            append(out, "):\n```\n");
            append(out, r.output.as_str());
            append(out, "\n```\n\n");
        },
        None => {},
    }
    assert(final(out)@ =~= old(out)@ + invocation_markdown(*inv));
}

fn push_entry(out: &mut String, m: &ChatMessage)
    ensures
        final(out)@ == old(out)@ + entry_markdown(*m),
{
    let ghost start = out@;
    append(out, "## ");
    append(out, match m.role {
        Role::User => "You",
        Role::Assistant => "Assistant",
        Role::System => "System",
    });
    append(out, "\n\n");
    append(out, m.content.as_str());
    append(out, "\n\n");
    let ghost head = out@;
    let mut i: usize = 0;
    while i < m.tool_invocations.len()
        invariant
            i <= m.tool_invocations@.len(),
            out@ == head + invocations_markdown(m.tool_invocations@.take(i as int)),
        decreases m.tool_invocations@.len() - i,
    {
        assert(m.tool_invocations@.take(i + 1).drop_last() =~= m.tool_invocations@.take(i as int));
        push_invocation(out, &m.tool_invocations[i]);
        i = i + 1;
    }
    assert(m.tool_invocations@.take(m.tool_invocations@.len() as int) =~= m.tool_invocations@);
    assert(out@ =~= start + entry_markdown(*m));
}

/// The roles of a provider history, in order.
pub open spec fn history_roles(s: Seq<Message>) -> Seq<Role> {
    s.map_values(|m: Message| m.role)
}

/// The roles of a display transcript, in order.
pub open spec fn display_roles(s: Seq<ChatMessage>) -> Seq<Role> {
    s.map_values(|m: ChatMessage| m.role)
}

/// The roles of a persisted record, in order.
pub open spec fn saved_roles(s: Seq<SavedMessage>) -> Seq<Role> {
    s.map_values(|m: SavedMessage| m.role)
}

/// Index of the last entry with role `r`.
pub open spec fn last_with_role(roles: Seq<Role>, r: Role) -> Option<int>
    decreases roles.len(),
{
    if roles.len() == 0 {
        None
    } else if roles.last() == r {
        Some(roles.len() - 1)
    } else {
        last_with_role(roles.drop_last(), r)
    }
}

/// `s` without its last entry of role `r`, if it has one.
pub open spec fn without_last<T>(s: Seq<T>, roles: Seq<Role>, r: Role) -> Seq<T> {
    match last_with_role(roles, r) {
        Some(i) => s.remove(i),
        None => s,
    }
}

/// `s` without the entry at `i` and, when the next one is an assistant entry, that one too.
pub open spec fn without_turn<T>(s: Seq<T>, roles: Seq<Role>, i: int) -> Seq<T> {
    if i + 1 < s.len() && roles[i + 1] == Role::Assistant {
        s.subrange(0, i) + s.subrange(i + 2, s.len() as int)
    } else {
        s.remove(i)
    }
}

/// `s` without its last user turn, if it has a user entry.
pub open spec fn without_last_turn<T>(s: Seq<T>, roles: Seq<Role>) -> Seq<T> {
    match last_with_role(roles, Role::User) {
        Some(i) => without_turn(s, roles, i),
        None => s,
    }
}

/// Whether a display entry has `role` and `content` and no tool invocations.
pub open spec fn entry(m: ChatMessage, role: Role, content: Seq<char>) -> bool {
    m.role == role && m.content@ == content && m.tool_invocations@.len() == 0
}

/// Whether a provider message is the plain text `content` from `role`.
pub open spec fn text_message(m: Message, role: Role, content: Seq<char>) -> bool {
    m.role == role && match m.content {
        MessageContent::Text(s) => s@ == content,
        _ => false,
    }
}

/// The provider history after committing a complete answer `text`: one more
/// assistant message when `text` is not empty.
pub open spec fn history_committed(old_h: Seq<Message>, new_h: Seq<Message>, text: Seq<char>) -> bool {
    if text.len() > 0 {
        &&& new_h.len() == old_h.len() + 1
        &&& new_h.drop_last() == old_h
        &&& text_message(new_h.last(), Role::Assistant, text)
    } else {
        new_h == old_h
    }
}

/// The persisted record after committing a partial or complete answer `text`:
/// one more assistant message when `text` is not empty.
pub open spec fn committed(old_c: Conversation, new_c: Conversation, text: Seq<char>) -> bool {
    if text.len() > 0 {
        &&& new_c.messages@.len() == old_c.messages@.len() + 1
        &&& new_c.messages@.drop_last() == old_c.messages@
        &&& saved(new_c.messages@.last(), Role::Assistant, text)
        &&& new_c.id == old_c.id
    } else {
        new_c == old_c
    }
}

fn last_index_in_history(s: &Vec<Message>, r: Role) -> (i: Option<usize>)
    ensures
        match i {
            Some(k) => k < s@.len() && last_with_role(history_roles(s@), r) == Some(k as int),
            None => last_with_role(history_roles(s@), r) is None,
        },
{
    let ghost roles = history_roles(s@);
    let mut j = s.len();
    assert(roles.take(j as int) =~= roles);
    while j > 0
        invariant
            j <= s@.len(),
            roles == history_roles(s@),
            last_with_role(roles, r) == last_with_role(roles.take(j as int), r),
        decreases j,
    {
        assert(roles.take(j as int).drop_last() =~= roles.take(j - 1));
        if s[j - 1].role == r {
            return Some(j - 1);
        }
        j = j - 1;
    }
    None
}

fn last_index_in_display(s: &Vec<ChatMessage>, r: Role) -> (i: Option<usize>)
    ensures
        match i {
            Some(k) => k < s@.len() && last_with_role(display_roles(s@), r) == Some(k as int),
            None => last_with_role(display_roles(s@), r) is None,
        },
{
    let ghost roles = display_roles(s@);
    let mut j = s.len();
    assert(roles.take(j as int) =~= roles);
    while j > 0
        invariant
            j <= s@.len(),
            roles == display_roles(s@),
            last_with_role(roles, r) == last_with_role(roles.take(j as int), r),
        decreases j,
    {
        assert(roles.take(j as int).drop_last() =~= roles.take(j - 1));
        if s[j - 1].role == r {
            return Some(j - 1);
        }
        j = j - 1;
    }
    None
}

fn last_index_in_saved(s: &Vec<SavedMessage>, r: Role) -> (i: Option<usize>)
    ensures
        match i {
            Some(k) => k < s@.len() && last_with_role(saved_roles(s@), r) == Some(k as int),
            None => last_with_role(saved_roles(s@), r) is None,
        },
{
    let ghost roles = saved_roles(s@);
    let mut j = s.len();
    assert(roles.take(j as int) =~= roles);
    while j > 0
        invariant
            j <= s@.len(),
            roles == saved_roles(s@),
            last_with_role(roles, r) == last_with_role(roles.take(j as int), r),
        decreases j,
    {
        assert(roles.take(j as int).drop_last() =~= roles.take(j - 1));
        if s[j - 1].role == r {
            return Some(j - 1);
        }
        j = j - 1;
    }
    None
}

fn chat_entry(role: Role, content: String) -> (m: ChatMessage)
    ensures
        entry(m, role, content@),
{
    ChatMessage { role, content, timestamp: now_millis(), tool_invocations: Vec::new() }
}

/// The whole state that the event loop owns.
pub struct App {
    pub input: String,
    /// Cursor position in the input, in characters.
    pub cursor_pos: usize,
    pub input_mode: InputMode,
    /// Earlier states of the input and cursor, the latest last.
    pub undo_stack: Vec<(String, usize)>,
    /// States undone, the latest last.
    pub redo_stack: Vec<(String, usize)>,
    /// Messages sent, oldest first.
    pub input_history: Vec<String>,
    /// The history entry shown in the input, if any.
    pub input_history_idx: Option<usize>,
    /// The display transcript.
    pub messages: Vec<ChatMessage>,
    /// The provider history, resent on every call.
    pub api_messages: Vec<Message>,
    /// The persisted record.
    pub conversation: Conversation,
    pub streaming: bool,
    /// Text of the answer being streamed.
    pub stream_buffer: String,
    pub status_message: Option<String>,
    pub overlay: Overlay,
    pub provider: Provider,
    /// Resolved credentials for the provider, if any.
    pub api_key: Option<String>,
    pub tools_enabled: bool,
    /// Identity of the current turn; a call carries the id of the turn that issued it.
    pub turn: u64,
    pub tool_executor: ToolExecutor,
    /// Calls of the tool response being resolved, in provider order.
    pub pending_tool_calls: Vec<ToolCall>,
    /// Index of the call being resolved.
    pub pending_tool_confirm_idx: usize,
    /// Results of the calls resolved so far, one per call, in order.
    pub pending_results: Vec<ToolResult>,
    /// Every invocation of this session, in order.
    pub tool_invocations: Vec<ToolInvocation>,
    /// Code blocks of the answers: (transcript index, language, code).
    pub code_blocks: Vec<(usize, String, String)>,
    /// First transcript line shown; `usize::MAX` means the bottom.
    pub scroll_offset: usize,
    /// Whether new text scrolls the transcript to the bottom.
    pub auto_scroll: bool,
    pub search_query: String,
    /// Indices of the transcript entries that match the search.
    pub search_matches: Vec<usize>,
    /// Which of the matches is shown.
    pub search_match_idx: usize,
}

impl App {
    /// The state is consistent: the permission table is well formed, one result is
    /// held per resolved call, and calls being resolved are those of the assistant
    /// message last appended to the provider history.
    pub open spec fn wf(&self) -> bool {
        &&& self.tool_executor.wf()
        &&& self.pending_tool_confirm_idx <= self.pending_tool_calls@.len()
        &&& self.pending_results@.len() == self.pending_tool_confirm_idx
        &&& self.pending_tool_calls@.len() > 0 ==> {
            &&& self.api_messages@.len() > 0
            &&& self.api_messages@.last().role == Role::Assistant
            &&& match self.api_messages@.last().content {
                MessageContent::Blocks(b) => calls_from_blocks(b@, self.pending_tool_calls@),
                _ => false,
            }
        }
    }

    /// The call that a new turn issues.
    pub open spec fn call_spec(&self) -> ProviderCall {
        ProviderCall {
            provider: self.provider,
            with_tools: self.tools_enabled && self.provider == Provider::Anthropic,
            turn: self.turn,
        }
    }

    /// Opens a new turn and gives the call that issues it.
    fn begin_turn(&mut self) -> (c: ProviderCall)
        ensures
            final(self).turn == next_turn_id(old(self).turn),
            c == final(self).call_spec(),
            final(self).messages == old(self).messages,
            final(self).api_messages == old(self).api_messages,
            final(self).conversation == old(self).conversation,
            final(self).streaming == old(self).streaming,
            final(self).stream_buffer == old(self).stream_buffer,
            final(self).tool_executor == old(self).tool_executor,
            final(self).pending_tool_calls == old(self).pending_tool_calls,
            final(self).pending_tool_confirm_idx == old(self).pending_tool_confirm_idx,
            final(self).pending_results == old(self).pending_results,
            final(self).overlay == old(self).overlay,
            final(self).provider == old(self).provider,
            final(self).tools_enabled == old(self).tools_enabled,
            final(self).input_history == old(self).input_history,
            final(self).tool_invocations == old(self).tool_invocations,
            final(self).api_key == old(self).api_key,
    {
        self.turn = if self.turn < u64::MAX {
            self.turn + 1
        } else {
            0
        };
        ProviderCall {
            provider: self.provider,
            with_tools: self.tools_enabled && self.provider == Provider::Anthropic,
            turn: self.turn,
        }
    }

    /// Whether an event of the call issued for `turn` is to be applied: only while that
    /// turn is current and streaming. Events of a cancelled or replaced turn are dropped.
    pub fn is_current(&self, turn: u64) -> (r: bool)
        ensures
            r == (self.streaming && turn == self.turn),
    {
        self.streaming && turn == self.turn
    }

    /// A fresh state with empty views, read-only tools allowed without asking.
    pub fn new(provider: Provider, api_key: Option<String>) -> (r: App)
        ensures
            r.wf(),
            r.messages@.len() == 0,
            r.api_messages@.len() == 0,
            r.conversation.messages@.len() == 0,
            !r.streaming,
            r.provider == provider,
            r.api_key == api_key,
            r.tools_enabled,
            r.tool_executor.policy("read_file"@) == crate::tools::ToolPermission::AutoAllow,
            r.tool_executor.policy("list_files"@) == crate::tools::ToolPermission::AutoAllow,
            r.tool_executor.policy("search_files"@) == crate::tools::ToolPermission::AutoAllow,
            forall|n: Seq<char>|
                n != "read_file"@ && n != "list_files"@ && n != "search_files"@
                    ==> r.tool_executor.policy(n) == crate::tools::ToolPermission::AskFirst,
    {
        let mut tool_executor = ToolExecutor::new();
        tool_executor.set_permission("read_file", crate::tools::ToolPermission::AutoAllow);
        tool_executor.set_permission("list_files", crate::tools::ToolPermission::AutoAllow);
        tool_executor.set_permission("search_files", crate::tools::ToolPermission::AutoAllow);
        App {
            input: String::new(),
            cursor_pos: 0,
            input_mode: InputMode::Insert,
            undo_stack: Vec::new(),
            redo_stack: Vec::new(),
            input_history: Vec::new(),
            input_history_idx: None,
            messages: Vec::new(),
            api_messages: Vec::new(),
            conversation: Conversation::new(),
            streaming: false,
            stream_buffer: String::new(),
            status_message: None,
            overlay: Overlay::Hidden,
            provider,
            api_key,
            tools_enabled: true,
            turn: 0,
            tool_executor,
            pending_tool_calls: Vec::new(),
            pending_tool_confirm_idx: 0,
            pending_results: Vec::new(),
            tool_invocations: Vec::new(),
            code_blocks: Vec::new(),
            scroll_offset: 0,
            auto_scroll: true,
            search_query: String::new(),
            search_matches: Vec::new(),
            search_match_idx: 0,
        }
    }

    pub fn is_streaming(&self) -> (r: bool)
        ensures
            r == self.streaming,
    {
        self.streaming
    }

    /// Starts a turn for `text`: appends it as a user entry to all three views and an
    /// empty assistant placeholder to the transcript, and marks streaming active.
    /// Blank text changes nothing; neither does a missing key.
    pub fn send(&mut self, text: &str) -> (r: Result<ProviderCall, SendError>)
        requires
            old(self).wf(),
            old(self).pending_tool_calls@.len() == 0,
        ensures
            final(self).wf(),
            trim(text@).len() == 0 ==> r == Err::<ProviderCall, SendError>(SendError::Blank)
                && *final(self) == *old(self),
            trim(text@).len() > 0 && old(self).api_key is None ==> r == Err::<
                ProviderCall,
                SendError,
            >(SendError::NoApiKey) && *final(self) == *old(self),
            trim(text@).len() > 0 && old(self).api_key is Some ==> {
                &&& r == Ok::<ProviderCall, SendError>(final(self).call_spec())
                &&& final(self).turn == next_turn_id(old(self).turn)
                &&& final(self).provider == old(self).provider
                &&& final(self).tools_enabled == old(self).tools_enabled
                &&& final(self).messages@.len() == old(self).messages@.len() + 2
                &&& final(self).messages@.take(old(self).messages@.len() as int)
                    == old(self).messages@
                &&& entry(
                    final(self).messages@[old(self).messages@.len() as int],
                    Role::User,
                    trim(text@),
                )
                &&& entry(final(self).messages@.last(), Role::Assistant, Seq::empty())
                &&& final(self).api_messages@.len() == old(self).api_messages@.len() + 1
                &&& final(self).api_messages@.drop_last() == old(self).api_messages@
                &&& text_message(final(self).api_messages@.last(), Role::User, trim(text@))
                &&& final(self).conversation.messages@.drop_last()
                    == old(self).conversation.messages@
                &&& final(self).conversation.messages@.len()
                    == old(self).conversation.messages@.len() + 1
                &&& saved(final(self).conversation.messages@.last(), Role::User, trim(text@))
                &&& final(self).streaming
                &&& final(self).stream_buffer@.len() == 0
                &&& final(self).pending_tool_calls == old(self).pending_tool_calls
                &&& final(self).tool_executor == old(self).tool_executor
                &&& final(self).input_history == old(self).input_history
                &&& final(self).api_key == old(self).api_key
            },
    {
        let input = trimmed(text);
        if input.as_str().is_empty() {
            return Err(SendError::Blank);
        }
        if self.api_key.is_none() {
            return Err(SendError::NoApiKey);
        }
        let ghost old_msgs = self.messages@;
        self.messages.push(chat_entry(Role::User, input.clone()));
        self.conversation.add_message(Role::User, input.as_str());
        self.api_messages.push(Message { role: Role::User, content: MessageContent::Text(input) });
        self.messages.push(chat_entry(Role::Assistant, String::new()));
        assert(self.messages@.take(old_msgs.len() as int) =~= old_msgs);
        assert(self.api_messages@.drop_last() =~= old(self).api_messages@);
        self.streaming = true;
        self.stream_buffer = String::new();
        Ok(self.begin_turn())
    }

    /// Sends the input buffer; on success the buffer is cleared.
    pub fn send_message(&mut self) -> (r: Result<ProviderCall, SendError>)
        requires
            old(self).wf(),
            old(self).pending_tool_calls@.len() == 0,
        ensures
            final(self).wf(),
            trim(old(self).input@).len() == 0 ==> r == Err::<ProviderCall, SendError>(
                SendError::Blank,
            ) && *final(self) == *old(self),
            r is Ok ==> final(self).input@.len() == 0 && final(self).cursor_pos == 0
                && final(self).messages@.len() == old(self).messages@.len() + 2
                && final(self).input_history@.drop_last() == old(self).input_history@
                && final(self).input_history@.len() == old(self).input_history@.len() + 1
                && final(self).input_history@.last()@ == trim(old(self).input@),
            r is Err ==> *final(self) == *old(self),
            trim(old(self).input@).len() > 0 && old(self).api_key is None ==> r == Err::<
                ProviderCall,
                SendError,
            >(SendError::NoApiKey) && *final(self) == *old(self),
            trim(old(self).input@).len() > 0 && old(self).api_key is Some ==> {
                &&& r == Ok::<ProviderCall, SendError>(final(self).call_spec())
                &&& final(self).turn == next_turn_id(old(self).turn)
                &&& final(self).messages@.take(old(self).messages@.len() as int)
                    == old(self).messages@
                &&& entry(
                    final(self).messages@[old(self).messages@.len() as int],
                    Role::User,
                    trim(old(self).input@),
                )
                &&& entry(final(self).messages@.last(), Role::Assistant, Seq::empty())
                &&& final(self).api_messages@.len() == old(self).api_messages@.len() + 1
                &&& final(self).api_messages@.drop_last() == old(self).api_messages@
                &&& text_message(final(self).api_messages@.last(), Role::User, trim(old(self).input@))
                &&& final(self).conversation.messages@.len()
                    == old(self).conversation.messages@.len() + 1
                &&& final(self).conversation.messages@.drop_last()
                    == old(self).conversation.messages@
                &&& saved(final(self).conversation.messages@.last(), Role::User, trim(old(self).input@))
                &&& final(self).streaming
                &&& final(self).stream_buffer@.len() == 0
                &&& final(self).api_key == old(self).api_key
                &&& final(self).provider == old(self).provider
                &&& final(self).tools_enabled == old(self).tools_enabled
                &&& final(self).pending_tool_calls == old(self).pending_tool_calls
            },
    {
        let input = self.input.clone();
        let r = self.send(input.as_str());
        if r.is_ok() {
            self.input_history.push(trimmed(input.as_str()));
            assert(self.input_history@.drop_last() =~= old(self).input_history@);
            self.input_history_idx = None;
            self.input = String::new();
            self.cursor_pos = 0;
        }
        r
    }

    /// Regenerates the last answer: removes the last assistant entry from all three
    /// views and starts a new turn on the remaining history.
    pub fn retry_last(&mut self) -> (r: Result<ProviderCall, RetryError>)
        requires
            old(self).wf(),
            old(self).pending_tool_calls@.len() == 0,
        ensures
            final(self).wf(),
            old(self).streaming ==> r == Err::<ProviderCall, RetryError>(
                RetryError::StillStreaming,
            ) && *final(self) == *old(self),
            !old(self).streaming && (old(self).messages@.len() == 0
                || old(self).messages@.last().role != Role::Assistant) ==> r == Err::<
                ProviderCall,
                RetryError,
            >(RetryError::NoAssistantMessage) && *final(self) == *old(self),
            !old(self).streaming && old(self).messages@.len() > 0
                && old(self).messages@.last().role == Role::Assistant ==> {
                let hist = without_last(
                    old(self).api_messages@,
                    history_roles(old(self).api_messages@),
                    Role::Assistant,
                );
                let rec = without_last(
                    old(self).conversation.messages@,
                    saved_roles(old(self).conversation.messages@),
                    Role::Assistant,
                );
                &&& hist.len() == 0 ==> r == Err::<ProviderCall, RetryError>(
                    RetryError::NoUserMessage,
                ) && *final(self) == *old(self)
                &&& hist.len() > 0 && old(self).api_key is None ==> r == Err::<
                    ProviderCall,
                    RetryError,
                >(RetryError::NoApiKey) && *final(self) == *old(self)
                &&& hist.len() > 0 && old(self).api_key is Some ==> {
                    &&& final(self).api_messages@ == hist
                    &&& final(self).conversation.messages@ == rec
                    &&& final(self).conversation.id == old(self).conversation.id
                    &&& r == Ok::<ProviderCall, RetryError>(final(self).call_spec())
                    &&& final(self).turn == next_turn_id(old(self).turn)
                    &&& final(self).provider == old(self).provider
                    &&& final(self).tools_enabled == old(self).tools_enabled
                    &&& final(self).messages@.len() == old(self).messages@.len()
                    &&& final(self).messages@.drop_last() == old(self).messages@.drop_last()
                    &&& entry(final(self).messages@.last(), Role::Assistant, Seq::empty())
                    &&& final(self).streaming
                    &&& final(self).stream_buffer@.len() == 0
                }
            },
    {
        if self.streaming {
            return Err(RetryError::StillStreaming);
        }
        if self.messages.len() == 0 {
            return Err(RetryError::NoAssistantMessage);
        }
        if self.messages[self.messages.len() - 1].role != Role::Assistant {
            return Err(RetryError::NoAssistantMessage);
        }
        let in_history = last_index_in_history(&self.api_messages, Role::Assistant);
        let left = match in_history {
            Some(_) => self.api_messages.len() - 1,
            None => self.api_messages.len(),
        };
        if left == 0 {
            return Err(RetryError::NoUserMessage);
        }
        if self.api_key.is_none() {
            return Err(RetryError::NoApiKey);
        }
        self.messages.pop();
        match in_history {
            Some(i) => {
                self.api_messages.remove(i);
            },
            None => {},
        }
        match last_index_in_saved(&self.conversation.messages, Role::Assistant) {
            Some(i) => {
                self.conversation.messages.remove(i);
            },
            None => {},
        }
        let ghost before = self.messages@;
        self.messages.push(chat_entry(Role::Assistant, String::new()));
        assert(self.messages@.drop_last() =~= before);
        self.streaming = true;
        self.stream_buffer = String::new();
        Ok(self.begin_turn())
    }

    /// Puts the last user message back into the input buffer and removes it, with the
    /// assistant entry right after it, from all three views.
    pub fn edit_last_message(&mut self) -> (r: Result<(), EditError>)
        requires
            old(self).wf(),
            old(self).pending_tool_calls@.len() == 0,
        ensures
            final(self).wf(),
            old(self).streaming ==> r == Err::<(), EditError>(EditError::StillStreaming)
                && *final(self) == *old(self),
            !old(self).streaming && last_with_role(display_roles(old(self).messages@), Role::User)
                is None ==> r == Err::<(), EditError>(EditError::NoUserMessage) && *final(self)
                == *old(self),
            !old(self).streaming && last_with_role(display_roles(old(self).messages@), Role::User)
                is Some ==> {
                let i = last_with_role(display_roles(old(self).messages@), Role::User)->0;
                &&& r is Ok
                &&& final(self).input@ == old(self).messages@[i].content@
                &&& final(self).cursor_pos == final(self).input@.len()
                &&& final(self).messages@ == without_turn(
                    old(self).messages@,
                    display_roles(old(self).messages@),
                    i,
                )
                &&& final(self).api_messages@ == without_last_turn(
                    old(self).api_messages@,
                    history_roles(old(self).api_messages@),
                )
                &&& final(self).conversation.messages@ == without_last_turn(
                    old(self).conversation.messages@,
                    saved_roles(old(self).conversation.messages@),
                )
                &&& final(self).input_mode == InputMode::Insert
            },
    {
        if self.streaming {
            return Err(EditError::StillStreaming);
        }
        let i = match last_index_in_display(&self.messages, Role::User) {
            Some(i) => i,
            None => {
                return Err(EditError::NoUserMessage);
            },
        };
        self.input = self.messages[i].content.clone();
        self.cursor_pos = crate::text::chars_of(self.input.as_str()).len();
        let ghost d = self.messages@;
        if self.messages.len() - i > 1 && self.messages[i + 1].role == Role::Assistant {
            self.messages.remove(i + 1);
        }
        self.messages.remove(i);
        assert(self.messages@ =~= without_turn(d, display_roles(d), i as int));
        match last_index_in_history(&self.api_messages, Role::User) {
            Some(k) => {
                let ghost h = self.api_messages@;
                if self.api_messages.len() - k > 1 && self.api_messages[k + 1].role
                    == Role::Assistant {
                    self.api_messages.remove(k + 1);
                }
                self.api_messages.remove(k);
                assert(self.api_messages@ =~= without_turn(h, history_roles(h), k as int));
            },
            None => {},
        }
        match last_index_in_saved(&self.conversation.messages, Role::User) {
            Some(k) => {
                let ghost h = self.conversation.messages@;
                if self.conversation.messages.len() - k > 1 && self.conversation.messages[k
                    + 1].role == Role::Assistant {
                    self.conversation.messages.remove(k + 1);
                }
                self.conversation.messages.remove(k);
                assert(self.conversation.messages@ =~= without_turn(h, saved_roles(h), k as int));
            },
            None => {},
        }
        self.input_mode = InputMode::Insert;
        Ok(())
    }

    /// Stops the current turn; a non-empty partial answer is committed to the
    /// persisted record. The transcript is left as it is. Late events of the
    /// cancelled call no longer count.
    pub fn cancel_stream(&mut self)
        requires
            old(self).wf(),
        ensures
            final(self).wf(),
            !final(self).streaming,
            final(self).turn == next_turn_id(old(self).turn),
            final(self).stream_buffer@.len() == 0,
            final(self).messages == old(self).messages,
            final(self).api_messages == old(self).api_messages,
            committed(old(self).conversation, final(self).conversation, old(self).stream_buffer@),
    {
        self.streaming = false;
        if !self.stream_buffer.as_str().is_empty() {
            self.conversation.add_message(Role::Assistant, self.stream_buffer.as_str());
        }
        self.stream_buffer = String::new();
        self.turn = if self.turn < u64::MAX {
            self.turn + 1
        } else {
            0
        };
    }

    /// A piece of the answer arrived: it extends the buffer, which an open assistant
    /// entry shows.
    pub fn on_api_chunk(&mut self, text: &str)
        requires
            old(self).wf(),
        ensures
            final(self).wf(),
            final(self).stream_buffer@ == old(self).stream_buffer@ + text@,
            final(self).messages@.len() == old(self).messages@.len(),
            final(self).api_messages == old(self).api_messages,
            final(self).conversation == old(self).conversation,
            old(self).messages@.len() > 0 && old(self).messages@.last().role == Role::Assistant
                ==> final(self).messages@.last().content@ == final(self).stream_buffer@
                && final(self).messages@.drop_last() == old(self).messages@.drop_last(),
            !(old(self).messages@.len() > 0 && old(self).messages@.last().role
                == Role::Assistant) ==> final(self).messages == old(self).messages,
            final(self).streaming == old(self).streaming,
            final(self).turn == old(self).turn,
            final(self).pending_tool_calls == old(self).pending_tool_calls,
            final(self).tool_executor == old(self).tool_executor,
            final(self).api_key == old(self).api_key,
            final(self).provider == old(self).provider,
            final(self).tools_enabled == old(self).tools_enabled,
    {
        append(&mut self.stream_buffer, text);
        let n = self.messages.len();
        if n > 0 && self.messages[n - 1].role == Role::Assistant {
            let ghost before = self.messages@;
            let mut last = self.messages.pop().unwrap();
            last.content = self.stream_buffer.clone();
            self.messages.push(last);
            assert(self.messages@.drop_last() =~= before.drop_last());
        }
    }

    /// The turn completed: the answer, when not empty, is committed to the provider
    /// history and the persisted record. Returns whether the record changed and is to
    /// be saved. While tool calls are being resolved no answer is open, and nothing
    /// changes.
    pub fn on_api_done(&mut self) -> (changed: bool)
        requires
            old(self).wf(),
        ensures
            final(self).wf(),
            final(self).api_key == old(self).api_key,
            old(self).pending_tool_calls@.len() > 0 ==> !changed && *final(self) == *old(self),
            old(self).pending_tool_calls@.len() == 0 ==> Self::done_post(*old(self), *final(self), changed),
    {
        if self.pending_tool_calls.len() > 0 {
            return false;
        }
        self.finish_turn()
    }

    /// What completing a turn leaves behind.
    pub open spec fn done_post(before: App, after: App, changed: bool) -> bool {
        &&& !after.streaming
        &&& after.stream_buffer@.len() == 0
        &&& after.messages == before.messages
        &&& history_committed(before.api_messages@, after.api_messages@, before.stream_buffer@)
        &&& after.turn == before.turn
        &&& changed == (before.stream_buffer@.len() > 0)
        &&& after.pending_tool_calls == before.pending_tool_calls
        &&& after.tool_executor == before.tool_executor
        &&& after.provider == before.provider
        &&& after.tools_enabled == before.tools_enabled
        &&& after.overlay == before.overlay
        &&& after.api_key == before.api_key
        &&& committed(before.conversation, after.conversation, before.stream_buffer@)
    }

    fn finish_turn(&mut self) -> (changed: bool)
        requires
            old(self).wf(),
            old(self).pending_tool_calls@.len() == 0,
        ensures
            final(self).wf(),
            Self::done_post(*old(self), *final(self), changed),
    {
        self.streaming = false;
        let changed = !self.stream_buffer.as_str().is_empty();
        if changed {
            self.conversation.add_message(Role::Assistant, self.stream_buffer.as_str());
            let answer = self.stream_buffer.clone();
            self.api_messages.push(Message { role: Role::Assistant, content: MessageContent::Text(answer) });
            assert(self.api_messages@.drop_last() =~= old(self).api_messages@);
        }
        self.stream_buffer = String::new();
        changed
    }

    /// The turn failed: the partial answer is dropped, and so is an assistant
    /// placeholder that is still empty.
    pub fn on_api_error(&mut self, message: &str)
        requires
            old(self).wf(),
        ensures
            final(self).wf(),
            !final(self).streaming,
            final(self).stream_buffer@.len() == 0,
            final(self).api_messages == old(self).api_messages,
            final(self).conversation == old(self).conversation,
            final(self).messages@ == if old(self).messages@.len() > 0
                && old(self).messages@.last().role == Role::Assistant
                && old(self).messages@.last().content@.len() == 0 {
                old(self).messages@.drop_last()
            } else {
                old(self).messages@
            },
            final(self).status_message is Some,
            final(self).status_message->0@ == "Error: "@ + message@,
            final(self).turn == old(self).turn,
            final(self).pending_tool_calls == old(self).pending_tool_calls,
    {
        self.streaming = false;
        self.stream_buffer = String::new();
        let n = self.messages.len();
        if n > 0 && self.messages[n - 1].role == Role::Assistant
            && self.messages[n - 1].content.as_str().is_empty() {
            self.messages.pop();
        }
        let mut status = "Error: ".to_owned();
        append(&mut status, message);
        self.status_message = Some(status);
    }

    /// What a step of the tool loop leaves behind, whatever step it was.
    pub open spec fn step_post(&self, r: ToolStep) -> bool {
        &&& self.wf()
        &&& match r {
            ToolStep::Run(i) => {
                &&& i == self.pending_tool_confirm_idx
                &&& i < self.pending_tool_calls@.len()
            },
            ToolStep::Confirm(i) => {
                &&& i == self.pending_tool_confirm_idx
                &&& i < self.pending_tool_calls@.len()
                &&& self.overlay == Overlay::ToolConfirm
                &&& self.tool_executor.policy(tool_name(self.pending_tool_calls@[i as int].tool))
                    == ToolPermission::AskFirst
            },
            ToolStep::Continue(c) => {
                &&& c == self.call_spec()
                &&& self.pending_tool_calls@.len() == 0
                &&& self.api_messages@.len() >= 2
                &&& resolves(
                    self.api_messages@[self.api_messages@.len() - 2],
                    self.api_messages@.last(),
                )
                &&& self.streaming
                &&& self.messages@.len() > 0
                &&& entry(self.messages@.last(), Role::Assistant, Seq::empty())
            },
            ToolStep::Idle => self.pending_tool_calls@.len() == 0,
        }
    }

    /// Shows `inv` under the open assistant entry, and records it.
    fn show_invocation(&mut self, inv: ToolInvocation)
        requires
            old(self).wf(),
        ensures
            final(self).api_key == old(self).api_key,
            final(self).wf(),
            grows(old(self).messages@, final(self).messages@),
            old(self).messages@.len() > 0 && old(self).messages@.last().role == Role::Assistant
                ==> final(self).messages@.last().tool_invocations@
                == old(self).messages@.last().tool_invocations@.push(inv),
            !(old(self).messages@.len() > 0 && old(self).messages@.last().role == Role::Assistant)
                ==> final(self).messages == old(self).messages,
            final(self).tool_invocations@ == old(self).tool_invocations@.push(inv),
            final(self).api_messages == old(self).api_messages,
            final(self).pending_tool_calls == old(self).pending_tool_calls,
            final(self).pending_tool_confirm_idx == old(self).pending_tool_confirm_idx,
            final(self).pending_results == old(self).pending_results,
            final(self).tool_executor == old(self).tool_executor,
            final(self).conversation == old(self).conversation,
            final(self).streaming == old(self).streaming,
            final(self).overlay == old(self).overlay,
            final(self).provider == old(self).provider,
            final(self).tools_enabled == old(self).tools_enabled,
            final(self).turn == old(self).turn,
    {
        let n = self.messages.len();
        if n > 0 && self.messages[n - 1].role == Role::Assistant {
            let ghost before = self.messages@;
            let mut last = self.messages.pop().unwrap();
            last.tool_invocations.push(inv.duplicate());
            self.messages.push(last);
            assert forall|k: int| 0 <= k < before.len() implies (#[trigger] self.messages@[k]).role
                    == before[k].role && self.messages@[k].content == before[k].content
                    && before[k].tool_invocations@.len() <= self.messages@[k].tool_invocations@.len()
                    && self.messages@[k].tool_invocations@.take(before[k].tool_invocations@.len() as int)
                    == before[k].tool_invocations@ by {
                if k < n - 1 {
                    assert(self.messages@[k] == before[k]);
                }
                assert(before[k].tool_invocations@.take(before[k].tool_invocations@.len() as int)
                    =~= before[k].tool_invocations@);
                assert(self.messages@[k].tool_invocations@.take(before[k].tool_invocations@.len() as int)
                    =~= before[k].tool_invocations@);
            }
        } else {
            assert forall|k: int| 0 <= k < self.messages@.len() implies
                self.messages@[k].tool_invocations@.take(self.messages@[k].tool_invocations@.len() as int)
                    == #[trigger] self.messages@[k].tool_invocations@ by {
                assert(self.messages@[k].tool_invocations@.take(self.messages@[k].tool_invocations@.len() as int)
                    =~= self.messages@[k].tool_invocations@);
            }
        }
        self.tool_invocations.push(inv);
    }

    /// Records `result` for the pending call at the current index and moves on.
    fn record_result(&mut self, result: ToolResult)
        requires
            old(self).wf(),
            old(self).pending_tool_confirm_idx < old(self).pending_tool_calls@.len(),
        ensures
            final(self).api_key == old(self).api_key,
            final(self).wf(),
            final(self).pending_results@ == old(self).pending_results@.push(result),
            final(self).pending_tool_confirm_idx == old(self).pending_tool_confirm_idx as int + 1,
            final(self).pending_tool_calls == old(self).pending_tool_calls,
            final(self).api_messages == old(self).api_messages,
            final(self).tool_executor == old(self).tool_executor,
            final(self).conversation == old(self).conversation,
            final(self).streaming == old(self).streaming,
            final(self).overlay == old(self).overlay,
            final(self).provider == old(self).provider,
            final(self).tools_enabled == old(self).tools_enabled,
            final(self).turn == old(self).turn,
            grows(old(self).messages@, final(self).messages@),
            ({
                let t = old(self).pending_tool_calls@[old(self).pending_tool_confirm_idx as int].tool;
                &&& final(self).tool_invocations@.drop_last() == old(self).tool_invocations@
                &&& final(self).tool_invocations@.len() == old(self).tool_invocations@.len() + 1
                &&& invocation_of(final(self).tool_invocations@.last(), t, result)
                &&& old(self).messages@.len() > 0 && old(self).messages@.last().role == Role::Assistant
                    ==> final(self).messages@.last().tool_invocations@.len()
                    == old(self).messages@.last().tool_invocations@.len() + 1
                    && invocation_of(final(self).messages@.last().tool_invocations@.last(), t, result)
            }),
    {
        let i = self.pending_tool_confirm_idx;
        let n = self.pending_tool_calls.len();
        let tool = &self.pending_tool_calls[i].tool;
        let inv = ToolInvocation {
            tool_name: tool.name().to_owned(),
            tool_args: format_tool_args(tool),
            result: Some(result.duplicate()),
            collapsed: false,
        };
        let ghost before = self.tool_invocations@;
        self.show_invocation(inv);
        assert(self.tool_invocations@.drop_last() =~= before);
        self.pending_results.push(result);
        assert(i < n);
        self.pending_tool_confirm_idx = i + 1;
    }

    /// The text entry `k` of transcript `m` shows once the buffered text `buf` of a tool
    /// response is put into the open assistant entry.
    pub open spec fn shown_text(m: Seq<ChatMessage>, buf: Seq<char>, k: int) -> Seq<char> {
        if buf.len() > 0 && k == m.len() - 1 && m[k].role == Role::Assistant {
            buf
        } else {
            m[k].content@
        }
    }

    /// Whether `after` keeps the entries of `before`, with the buffered text `buf` in the
    /// open assistant entry.
    pub open spec fn text_shown(before: Seq<ChatMessage>, after: Seq<ChatMessage>, buf: Seq<char>) -> bool {
        &&& after.len() >= before.len()
        &&& forall|k: int| 0 <= k < before.len() ==> (#[trigger] after[k]).role == before[k].role
        &&& forall|k: int| 0 <= k < before.len() ==> (#[trigger] after[k]).content@ == Self::shown_text(
            before,
            buf,
            k,
        )
    }

    /// What the next step of the tool loop is, once the calls `calls[from..]` are
    /// resolved in order under the table `ex` and invocations are recorded from `base`:
    /// `Run` at the first call allowed without asking, `Confirm` at the first that needs
    /// asking, every call before it skipped and recorded; `Continue` only when every
    /// remaining call was skipped and recorded.
    pub open spec fn next_step(
        after: App,
        r: ToolStep,
        calls: Seq<ToolCall>,
        ex: ToolExecutor,
        from: int,
        base: int,
    ) -> bool {
        &&& !(r is Idle)
        &&& (r is Run || r is Confirm) ==> {
            let i = after.pending_tool_confirm_idx as int;
            &&& from <= i < calls.len()
            &&& after.pending_tool_calls@ == calls
            &&& forall|k: int| from <= k < i ==> #[trigger] skipped(calls, ex, k)
            &&& !(calls[i].tool is Unknown)
            &&& r is Run ==> r->Run_0 == i && ex.policy(tool_name(calls[i].tool))
                == ToolPermission::AutoAllow
            &&& r is Confirm ==> r->Confirm_0 == i && ex.policy(tool_name(calls[i].tool))
                == ToolPermission::AskFirst
            &&& skips_recorded(after.tool_invocations@, base, calls, from, i)
        }
        &&& r is Continue ==> {
            &&& forall|k: int| from <= k < calls.len() ==> #[trigger] skipped(calls, ex, k)
            &&& skips_recorded(after.tool_invocations@, base, calls, from, calls.len() as int)
        }
    }

    /// The results block that a continuation carries: one tool-result block per call of
    /// `calls`, the first `from` answered with `results`, the rest as skipped.
    pub open spec fn answers_all(m: Message, calls: Seq<ToolCall>, results: Seq<ToolResult>, from: int) -> bool {
        &&& m.role == Role::User
        &&& match m.content {
            MessageContent::Blocks(b) => {
                &&& b@.len() == calls.len()
                &&& forall|i: int| 0 <= i < from ==> result_block(#[trigger] b@[i], calls[i].id@, results[i])
                &&& forall|i: int| from <= i < calls.len() ==> result_parts(
                    #[trigger] b@[i],
                    calls[i].id@,
                    skip_output(calls[i].tool),
                    true,
                )
            },
            _ => false,
        }
    }

    /// Resolves pending calls in order from the current index. A tool this library does
    /// not offer, or one the table denies, gets a failed result at once. The first call
    /// allowed without asking is to run (`Run`); the first that needs asking stops the
    /// loop (`Confirm`). When every remaining call was skipped, the results go back to
    /// the provider (`Continue`). Every skipped call is recorded as an invocation.
    pub fn process_next_tool_call(&mut self) -> (r: ToolStep)
        requires
            old(self).wf(),
            old(self).pending_tool_calls@.len() > 0,
        ensures
            final(self).api_key == old(self).api_key,
            final(self).step_post(r),
            !(r is Idle),
            final(self).conversation == old(self).conversation,
            final(self).tool_executor == old(self).tool_executor,
            final(self).turn == old(self).turn || r is Continue,
            !(r is Confirm) ==> final(self).overlay == old(self).overlay,
            final(self).tool_invocations@.take(old(self).tool_invocations@.len() as int)
                == old(self).tool_invocations@,
            Self::next_step(
                *final(self),
                r,
                old(self).pending_tool_calls@,
                old(self).tool_executor,
                old(self).pending_tool_confirm_idx as int,
                old(self).tool_invocations@.len() as int,
            ),
            (r is Run || r is Confirm) ==> {
                let i = final(self).pending_tool_confirm_idx as int;
                &&& old(self).pending_tool_confirm_idx <= i < old(self).pending_tool_calls@.len()
                &&& final(self).pending_tool_calls == old(self).pending_tool_calls
                &&& final(self).api_messages == old(self).api_messages
                &&& final(self).streaming == old(self).streaming
                &&& final(self).pending_results@.take(old(self).pending_tool_confirm_idx as int)
                    == old(self).pending_results@
                &&& all_denied(
                    final(self).pending_results@,
                    old(self).pending_tool_calls@,
                    old(self).tool_executor,
                    old(self).pending_tool_confirm_idx as int,
                )
                &&& !(old(self).pending_tool_calls@[i].tool is Unknown)
                &&& r is Run ==> r->Run_0 == i && old(self).tool_executor.policy(
                    tool_name(old(self).pending_tool_calls@[i].tool),
                ) == ToolPermission::AutoAllow
                &&& r is Confirm ==> old(self).tool_executor.policy(
                    tool_name(old(self).pending_tool_calls@[i].tool),
                ) == ToolPermission::AskFirst
                &&& grows(old(self).messages@, final(self).messages@)
                &&& skips_recorded(
                    final(self).tool_invocations@,
                    old(self).tool_invocations@.len() as int,
                    old(self).pending_tool_calls@,
                    old(self).pending_tool_confirm_idx as int,
                    i,
                )
            },
            r is Continue ==> {
                &&& forall|k: int|
                    old(self).pending_tool_confirm_idx <= k < old(self).pending_tool_calls@.len()
                        ==> #[trigger] skipped(old(self).pending_tool_calls@, old(self).tool_executor, k)
                &&& final(self).api_messages@.drop_last() == old(self).api_messages@
                &&& Self::answers_all(
                    final(self).api_messages@.last(),
                    old(self).pending_tool_calls@,
                    old(self).pending_results@,
                    old(self).pending_tool_confirm_idx as int,
                )
                &&& grows(old(self).messages@, final(self).messages@.drop_last())
                &&& skips_recorded(
                    final(self).tool_invocations@,
                    old(self).tool_invocations@.len() as int,
                    old(self).pending_tool_calls@,
                    old(self).pending_tool_confirm_idx as int,
                    old(self).pending_tool_calls@.len() as int,
                )
            },
    {
        proof {
            lemma_grows_refl(self.messages@);
            assert(self.tool_invocations@.take(self.tool_invocations@.len() as int) =~= self.tool_invocations@);
        }
        while self.pending_tool_confirm_idx < self.pending_tool_calls.len()
            invariant
                self.wf(),
                self.pending_tool_calls@.len() > 0,
                self.conversation == old(self).conversation,
                self.tool_executor == old(self).tool_executor,
                self.pending_tool_calls == old(self).pending_tool_calls,
                self.api_messages == old(self).api_messages,
                self.provider == old(self).provider,
                self.tools_enabled == old(self).tools_enabled,
                self.turn == old(self).turn,
                self.api_key == old(self).api_key,
                self.pending_tool_confirm_idx >= old(self).pending_tool_confirm_idx,
                self.overlay == old(self).overlay,
                self.streaming == old(self).streaming,
                self.pending_results@.take(old(self).pending_tool_confirm_idx as int)
                    == old(self).pending_results@,
                all_denied(
                    self.pending_results@,
                    old(self).pending_tool_calls@,
                    old(self).tool_executor,
                    old(self).pending_tool_confirm_idx as int,
                ),
                grows(old(self).messages@, self.messages@),
                self.tool_invocations@.take(old(self).tool_invocations@.len() as int)
                    == old(self).tool_invocations@,
                skips_recorded(
                    self.tool_invocations@,
                    old(self).tool_invocations@.len() as int,
                    old(self).pending_tool_calls@,
                    old(self).pending_tool_confirm_idx as int,
                    self.pending_tool_confirm_idx as int,
                ),
            decreases self.pending_tool_calls@.len() - self.pending_tool_confirm_idx,
        {
            let i = self.pending_tool_confirm_idx;
            let unknown_name: Option<String> = match &self.pending_tool_calls[i].tool {
                Tool::Unknown { name } => Some(name.clone()),
                _ => None,
            };
            let skip = match unknown_name {
                Some(name) => {
                    let mut m = "Unknown tool: ".to_owned();
                    append(&mut m, name.as_str());
                    Some(ToolResult::err(m))
                },
                None => {
                    let perm = self.tool_executor.permission(self.pending_tool_calls[i].tool.name());
                    proof {
                        lemma_denied_skipped(
                            self.pending_results@,
                            old(self).pending_tool_calls@,
                            old(self).tool_executor,
                            old(self).pending_tool_confirm_idx as int,
                            i as int,
                        );
                    }
                    match perm {
                        ToolPermission::AutoAllow => {
                            return ToolStep::Run(i);
                        },
                        ToolPermission::AskFirst => {
                            self.overlay = Overlay::ToolConfirm;
                            return ToolStep::Confirm(i);
                        },
                        ToolPermission::Deny => Some(
                            ToolResult::err("Tool execution denied by user".to_owned()),
                        ),
                    }
                },
            };
            let res = match skip {
                Some(x) => x,
                None => {
                    return ToolStep::Idle;
                },
            };
            assert(!res.success && res.output@ == skip_output(old(self).pending_tool_calls@[i as int].tool));
            assert(skipped(old(self).pending_tool_calls@, old(self).tool_executor, i as int));
            let ghost before = self.pending_results@;
            let ghost msgs = self.messages@;
            let ghost invs = self.tool_invocations@;
            self.record_result(res);
            proof {
                lemma_grows_trans(old(self).messages@, msgs, self.messages@);
                assert(self.pending_results@.take(old(self).pending_tool_confirm_idx as int)
                    =~= before.take(old(self).pending_tool_confirm_idx as int));
                assert(self.tool_invocations@.take(old(self).tool_invocations@.len() as int)
                    =~= invs.take(old(self).tool_invocations@.len() as int));
                let base = old(self).tool_invocations@.len() as int;
                let from = old(self).pending_tool_confirm_idx as int;
                assert forall|k: int| from <= k < i + 1 implies skip_invocation(
                    #[trigger] self.tool_invocations@[base + (k - from)],
                    old(self).pending_tool_calls@[k].tool,
                ) by {
                    if k < i {
                        assert(self.tool_invocations@[base + (k - from)] == invs[base + (k - from)]);
                    }
                }
                assert forall|k: int| from <= k < self.pending_results@.len() implies #[trigger] denied_at(
                    self.pending_results@,
                    old(self).pending_tool_calls@,
                    old(self).tool_executor,
                    k,
                ) by {
                    if k < before.len() {
                        assert(denied_at(before, old(self).pending_tool_calls@, old(self).tool_executor, k));
                        assert(self.pending_results@[k] == before[k]);
                    }
                }
            }
        }
        let ghost results = self.pending_results@;
        let ghost msgs = self.messages@;
        let r = self.send_tool_results();
        proof {
            lemma_grows_refl(msgs);
            let from = old(self).pending_tool_confirm_idx as int;
            assert forall|k: int| from <= k < old(self).pending_tool_calls@.len() implies #[trigger] skipped(
                old(self).pending_tool_calls@,
                old(self).tool_executor,
                k,
            ) by {
                assert(denied_at(results, old(self).pending_tool_calls@, old(self).tool_executor, k));
            }
            match self.api_messages@.last().content {
                MessageContent::Blocks(b) => {
                    assert forall|i: int| 0 <= i < from implies result_block(
                        #[trigger] b@[i],
                        old(self).pending_tool_calls@[i].id@,
                        old(self).pending_results@[i],
                    ) by {
                        assert(results.take(from)[i] == results[i]);
                    }
                    assert forall|i: int| from <= i < old(self).pending_tool_calls@.len() implies result_parts(
                        #[trigger] b@[i],
                        old(self).pending_tool_calls@[i].id@,
                        skip_output(old(self).pending_tool_calls@[i].tool),
                        true,
                    ) by {
                        assert(denied_at(results, old(self).pending_tool_calls@, old(self).tool_executor, i));
                        assert(result_block(b@[i], old(self).pending_tool_calls@[i].id@, results[i]));
                    }
                },
                _ => {},
            }
        }
        r
    }

    /// The pending call at the current index ran and gave `result`: it is recorded as an
    /// invocation, under the open assistant entry too, and resolution goes on.
    pub fn tool_finished(&mut self, result: ToolResult) -> (r: ToolStep)
        requires
            old(self).wf(),
            old(self).pending_tool_confirm_idx < old(self).pending_tool_calls@.len(),
        ensures
            final(self).api_key == old(self).api_key,
            final(self).step_post(r),
            !(r is Idle),
            final(self).conversation == old(self).conversation,
            final(self).tool_executor == old(self).tool_executor,
            !(r is Confirm) ==> final(self).overlay == old(self).overlay,
            Self::next_step(
                *final(self),
                r,
                old(self).pending_tool_calls@,
                old(self).tool_executor,
                old(self).pending_tool_confirm_idx as int + 1,
                old(self).tool_invocations@.len() as int + 1,
            ),
            !(r is Continue) ==> final(self).pending_tool_confirm_idx > old(self).pending_tool_confirm_idx,
            ({
                let idx = old(self).pending_tool_confirm_idx as int;
                let t = old(self).pending_tool_calls@[idx].tool;
                let n = old(self).tool_invocations@.len() as int;
                &&& final(self).tool_invocations@.len() > n
                &&& final(self).tool_invocations@.take(n) == old(self).tool_invocations@
                &&& invocation_of(final(self).tool_invocations@[n], t, result)
                &&& !(r is Continue) ==> final(self).pending_results@[idx] == result
                    && final(self).pending_tool_calls == old(self).pending_tool_calls
                    && grows(old(self).messages@, final(self).messages@)
                &&& r is Continue ==> grows(old(self).messages@, final(self).messages@.drop_last())
                    && final(self).api_messages@.drop_last() == old(self).api_messages@
                    && Self::answers_all(
                    final(self).api_messages@.last(),
                    old(self).pending_tool_calls@,
                    old(self).pending_results@.push(result),
                    idx + 1,
                )
                &&& old(self).messages@.len() > 0 && old(self).messages@.last().role == Role::Assistant
                    ==> {
                    let m = old(self).messages@.last().tool_invocations@.len() as int;
                    let e = final(self).messages@[old(self).messages@.len() - 1];
                    &&& e.tool_invocations@.len() > m
                    &&& invocation_of(e.tool_invocations@[m], t, result)
                }
            }),
    {
        let ghost msgs0 = self.messages@;
        let ghost invs0 = self.tool_invocations@;
        self.record_result(result);
        let ghost mid = self.pending_results@;
        let ghost msgs1 = self.messages@;
        let ghost invs1 = self.tool_invocations@;
        let r = self.process_next_tool_call();
        proof {
            let n = invs0.len() as int;
            assert(invs1.take(n + 1) =~= invs1);
            assert(self.tool_invocations@.take(n + 1) == invs1);
            assert(self.tool_invocations@[n] == self.tool_invocations@.take(n + 1)[n]);
            assert(self.tool_invocations@.take(n) =~= self.tool_invocations@.take(n + 1).take(n));
            assert(invs1.take(n) =~= invs0);
            if !(r is Continue) {
                assert(self.pending_results@.take(mid.len() as int) == mid);
                assert(self.pending_results@.take(mid.len() as int)[old(self).pending_tool_confirm_idx as int] == self.pending_results@[old(self).pending_tool_confirm_idx as int]);
                lemma_grows_trans(msgs0, msgs1, self.messages@);
            } else {
                lemma_grows_trans(msgs0, msgs1, self.messages@.drop_last());
            }
            if msgs0.len() > 0 && msgs0.last().role == Role::Assistant {
                let k = msgs0.len() - 1;
                let m = msgs0.last().tool_invocations@.len() as int;
                let e = if r is Continue { self.messages@.drop_last()[k] } else { self.messages@[k] };
                assert(msgs1[k].tool_invocations@.len() == m + 1);
                assert(e.tool_invocations@.take(m + 1) == msgs1[k].tool_invocations@);
                assert(e.tool_invocations@[m] == e.tool_invocations@.take(m + 1)[m]);
                if r is Continue {
                    assert(self.messages@.drop_last()[k] == self.messages@[k]);
                }
            }
        }
        r
    }

    /// Applies the user's answer about the pending call at the current index.
    /// Allowing lets it run; denying gives it a failed result, recorded as an
    /// invocation, and moves on; the "always" answers also set the tool's permission
    /// for the rest of the session. The transcript keeps its entries and text.
    pub fn handle_tool_confirm(&mut self, answer: ConfirmAnswer) -> (r: ToolStep)
        requires
            old(self).wf(),
            old(self).pending_tool_confirm_idx < old(self).pending_tool_calls@.len(),
        ensures
            final(self).api_key == old(self).api_key,
            final(self).step_post(r),
            final(self).overlay != Overlay::ToolConfirm || r is Confirm,
            final(self).conversation == old(self).conversation,
            ({
                let name = tool_name(old(self).pending_tool_calls@[old(self).pending_tool_confirm_idx as int].tool);
                &&& answer == ConfirmAnswer::AlwaysAllow ==> final(self).tool_executor.policy(name)
                    == ToolPermission::AutoAllow
                &&& answer == ConfirmAnswer::DenyAlways ==> final(self).tool_executor.policy(name)
                    == ToolPermission::Deny
                &&& forall|n: Seq<char>| n != name ==> final(self).tool_executor.policy(n)
                    == old(self).tool_executor.policy(n)
                &&& (answer == ConfirmAnswer::AllowOnce || answer == ConfirmAnswer::DenyOnce)
                    ==> final(self).tool_executor == old(self).tool_executor
            }),
            answer == ConfirmAnswer::AllowOnce || answer == ConfirmAnswer::AlwaysAllow ==> r
                == ToolStep::Run(old(self).pending_tool_confirm_idx) && final(self).pending_tool_calls
                == old(self).pending_tool_calls && final(self).messages == old(self).messages
                && final(self).tool_invocations == old(self).tool_invocations
                && final(self).pending_results == old(self).pending_results,
            answer == ConfirmAnswer::DenyOnce || answer == ConfirmAnswer::DenyAlways ==> {
                &&& r != ToolStep::Run(old(self).pending_tool_confirm_idx)
                &&& !(r is Continue) ==> final(self).pending_tool_confirm_idx
                    > old(self).pending_tool_confirm_idx
                &&& Self::next_step(
                    *final(self),
                    r,
                    old(self).pending_tool_calls@,
                    final(self).tool_executor,
                    old(self).pending_tool_confirm_idx as int + 1,
                    old(self).tool_invocations@.len() as int + 1,
                )
            },
            answer == ConfirmAnswer::DenyOnce || answer == ConfirmAnswer::DenyAlways ==> {
                let idx = old(self).pending_tool_confirm_idx as int;
                let t = old(self).pending_tool_calls@[idx].tool;
                let n = old(self).tool_invocations@.len() as int;
                &&& final(self).tool_invocations@.len() > n
                &&& final(self).tool_invocations@.take(n) == old(self).tool_invocations@
                &&& final(self).tool_invocations@[n].tool_name@ == tool_name(t)
                &&& final(self).tool_invocations@[n].result is Some
                &&& !final(self).tool_invocations@[n].result->0.success
                &&& !(r is Continue) ==> !final(self).pending_results@[idx].success
                    && final(self).pending_tool_calls == old(self).pending_tool_calls
                    && grows(old(self).messages@, final(self).messages@)
                &&& r is Continue ==> grows(old(self).messages@, final(self).messages@.drop_last())
            },
    {
        let i = self.pending_tool_confirm_idx;
        self.overlay = Overlay::Hidden;
        match answer {
            ConfirmAnswer::AllowOnce => ToolStep::Run(i),
            ConfirmAnswer::AlwaysAllow => {
                let name = self.pending_tool_calls[i].tool.name();
                self.tool_executor.set_permission(name, ToolPermission::AutoAllow);
                ToolStep::Run(i)
            },
            ConfirmAnswer::DenyOnce => {
                let r = self.tool_finished(ToolResult::err("Denied by user".to_owned()));
                r
            },
            ConfirmAnswer::DenyAlways => {
                let name = self.pending_tool_calls[i].tool.name();
                self.tool_executor.set_permission(name, ToolPermission::Deny);
                self.tool_finished(ToolResult::err("Denied by user".to_owned()))
            },
        }
    }

    /// Every pending call is resolved: appends one user message with a tool-result
    /// block per call, clears the pending calls, opens a new assistant placeholder and
    /// starts the continuation.
    fn send_tool_results(&mut self) -> (r: ToolStep)
        requires
            old(self).wf(),
            old(self).pending_tool_calls@.len() > 0,
            old(self).pending_tool_confirm_idx == old(self).pending_tool_calls@.len(),
        ensures
            final(self).api_key == old(self).api_key,
            final(self).step_post(r),
            r is Continue,
            final(self).overlay == old(self).overlay,
            final(self).conversation == old(self).conversation,
            final(self).tool_executor == old(self).tool_executor,
            final(self).api_messages@.drop_last() == old(self).api_messages@,
            final(self).api_messages@.last().role == Role::User,
            final(self).messages@.drop_last() == old(self).messages@,
            final(self).tool_invocations == old(self).tool_invocations,
            match final(self).api_messages@.last().content {
                MessageContent::Blocks(b) => b@.len() == old(self).pending_tool_calls@.len()
                    && forall|i: int|
                    0 <= i < b@.len() ==> result_block(
                        #[trigger] b@[i],
                        old(self).pending_tool_calls@[i].id@,
                        old(self).pending_results@[i],
                    ),
                _ => false,
            },
    {
        let mut blocks: Vec<Json> = Vec::new();
        let n = self.pending_tool_calls.len();
        let mut i: usize = 0;
        while i < n
            invariant
                n == self.pending_tool_calls@.len(),
                self.pending_results@.len() == n,
                i <= n,
                blocks@.len() == i,
                forall|k: int|
                    0 <= k < i ==> result_block(
                        #[trigger] blocks@[k],
                        self.pending_tool_calls@[k].id@,
                        self.pending_results@[k],
                    ),
            decreases n - i,
        {
            let res = &self.pending_results[i];
            let mut entries: Vec<(String, Json)> = Vec::new();
            entries.push(("type".to_owned(), Json::Str("tool_result".to_owned())));
            entries.push(("tool_use_id".to_owned(), Json::Str(self.pending_tool_calls[i].id.clone())));
            entries.push(("content".to_owned(), Json::Str(res.output.clone())));
            entries.push(("is_error".to_owned(), Json::Bool(!res.success)));
            blocks.push(Json::Object(entries));
            i = i + 1;
        }
        let ghost calls = self.pending_tool_calls@;
        let ghost results = self.pending_results@;
        let ghost assistant = self.api_messages@.last();
        self.api_messages.push(Message { role: Role::User, content: MessageContent::Blocks(blocks) });
        assert(self.api_messages@.drop_last() =~= old(self).api_messages@);
        assert(self.api_messages@[self.api_messages@.len() - 2] == assistant);
        proof {
            match assistant.content {
                MessageContent::Blocks(a) => {
                    let uses = tool_use_blocks(a@);
                    assert(calls_from_blocks(a@, calls));
                    match self.api_messages@.last().content {
                        MessageContent::Blocks(b) => {
                            assert forall|k: int| 0 <= k < b@.len() implies answered_id(#[trigger] b@[k])
                                == str_value(field(uses[k], "id"@)) by {
                                assert(result_block(b@[k], calls[k].id@, results[k]));
                                assert(crate::tools::call_from_block(uses[k], calls[k]));
                            }
                        },
                        _ => {},
                    }
                },
                _ => {},
            }
        }
        self.pending_tool_calls = Vec::new();
        self.pending_tool_confirm_idx = 0;
        self.pending_results = Vec::new();
        self.streaming = true;
        self.stream_buffer = String::new();
        let ghost before = self.messages@;
        self.messages.push(chat_entry(Role::Assistant, String::new()));
        assert(self.messages@.drop_last() =~= before);
        ToolStep::Continue(self.begin_turn())
    }

    /// What handling a tool response `body` leaves behind, when no calls were pending.
    pub open spec fn response_post(before: App, after: App, body: Seq<char>, r: ToolStep) -> bool {
        &&& after.step_post(r)
        &&& !after.streaming || r is Continue
        &&& after.api_key == before.api_key
        &&& json_parse(body) is None ==> r == ToolStep::Idle && after.messages == before.messages
            && after.api_messages == before.api_messages && after.conversation == before.conversation
        &&& json_parse(body) is Some && tool_use_blocks(content_blocks(json_parse(body)->0)).len()
            == 0 ==> r == ToolStep::Idle && history_committed(
            before.api_messages@,
            after.api_messages@,
            before.stream_buffer@,
        ) && committed(before.conversation, after.conversation, before.stream_buffer@)
        &&& json_parse(body) is Some && tool_use_blocks(content_blocks(json_parse(body)->0)).len()
            > 0 ==> {
            let n = before.api_messages@.len();
            let content = content_blocks(json_parse(body)->0);
            &&& !(r is Idle)
            &&& after.api_messages@.len() > n
            &&& after.api_messages@.take(n as int) == before.api_messages@
            &&& after.api_messages@[n as int].role == Role::Assistant
            &&& match after.api_messages@[n as int].content {
                MessageContent::Blocks(b) => b@ == content,
                _ => false,
            }
            &&& (r is Run || r is Confirm) ==> after.api_messages@.len() == n + 1
                && calls_from_blocks(content, after.pending_tool_calls@) && Self::next_step(
                after,
                r,
                after.pending_tool_calls@,
                before.tool_executor,
                0,
                before.tool_invocations@.len() as int,
            )
            &&& r is Continue ==> after.api_messages@.len() == n + 2 && exists|cs: Seq<ToolCall>|
                calls_from_blocks(content, cs) && Self::next_step(
                    after,
                    r,
                    cs,
                    before.tool_executor,
                    0,
                    before.tool_invocations@.len() as int,
                )
            &&& after.conversation == before.conversation
            &&& Self::text_shown(before.messages@, after.messages@, before.stream_buffer@)
        }
    }

    /// A tool response arrived. Its tool calls become the pending calls, resolved in
    /// order from the first, and the response's content blocks are appended verbatim to
    /// the provider history as an assistant message. A response without tool calls ends
    /// the turn as a completed one; a body that is not JSON ends the turn with nothing
    /// added. A response that arrives while calls are still pending changes nothing.
    pub fn handle_tool_use_response(&mut self, body: &str) -> (r: ToolStep)
        requires
            old(self).wf(),
        ensures
            final(self).wf(),
            old(self).pending_tool_calls@.len() > 0 ==> r == ToolStep::Idle && *final(self)
                == *old(self),
            old(self).pending_tool_calls@.len() == 0 ==> Self::response_post(
                *old(self),
                *final(self),
                body@,
                r,
            ),
    {
        if self.pending_tool_calls.len() > 0 {
            return ToolStep::Idle;
        }
        self.apply_tool_response(body)
    }

    fn apply_tool_response(&mut self, body: &str) -> (r: ToolStep)
        requires
            old(self).wf(),
            old(self).pending_tool_calls@.len() == 0,
        ensures
            Self::response_post(*old(self), *final(self), body@, r),
    {
        self.streaming = false;
        let response = match parse_json(body) {
            Some(j) => j,
            None => {
                self.status_message = Some("Failed to parse tool response".to_owned());
                return ToolStep::Idle;
            },
        };
        let calls = parse_tool_calls(&response);
        if calls.len() == 0 {
            self.finish_turn();
            return ToolStep::Idle;
        }
        let n = self.messages.len();
        let ghost m0 = self.messages@;
        let ghost buf = self.stream_buffer@;
        if !self.stream_buffer.as_str().is_empty() && n > 0 && self.messages[n - 1].role
            == Role::Assistant {
            let mut last = self.messages.pop().unwrap();
            last.content = self.stream_buffer.clone();
            self.messages.push(last);
        }
        let ghost m1 = self.messages@;
        self.stream_buffer = String::new();
        let ghost content = content_blocks(response);
        let blocks = match into_field(response, "content") {
            Some(Json::Array(a)) => a,
            _ => Vec::new(),
        };
        assert(blocks@ == content);
        let ghost h = self.api_messages@;
        self.api_messages.push(Message { role: Role::Assistant, content: MessageContent::Blocks(blocks) });
        let ghost cs = calls@;
        self.pending_tool_calls = calls;
        self.pending_tool_confirm_idx = 0;
        self.pending_results = Vec::new();
        let ghost mid = self.api_messages@;
        let r = self.process_next_tool_call();
        proof {
            if r is Continue {
                assert(calls_from_blocks(content, cs) && Self::next_step(
                    *self,
                    r,
                    cs,
                    old(self).tool_executor,
                    0,
                    old(self).tool_invocations@.len() as int,
                ));
                assert(self.api_messages@.len() == h.len() + 2);
            }
            let fm = if r is Continue { self.messages@.drop_last() } else { self.messages@ };
            assert(grows(m1, fm));
            assert forall|k: int| 0 <= k < m0.len() implies (#[trigger] self.messages@[k]).role
                == m0[k].role by {
                assert(fm[k] == self.messages@[k]);
            }
            assert forall|k: int| 0 <= k < m0.len() implies (#[trigger] self.messages@[k]).content@
                == Self::shown_text(m0, buf, k) by {
                assert(fm[k] == self.messages@[k]);
                if k < m0.len() - 1 {
                    assert(m1[k] == m0[k]);
                }
            }
            assert(mid == h.push(mid[h.len() as int]));
            if r is Continue {
                assert(self.api_messages@.drop_last() == mid);
                assert(self.api_messages@[h.len() as int] == mid[h.len() as int]);
            }
            assert(self.api_messages@.take(h.len() as int) =~= h);
        }
        r
    }

    /// Replaces all three views by those of a persisted conversation: one transcript
    /// entry and one plain-text provider message per persisted message.
    pub fn load_conversation(&mut self, conv: Conversation)
        requires
            old(self).wf(),
            old(self).pending_tool_calls@.len() == 0,
        ensures
            final(self).wf(),
            final(self).conversation == conv,
            final(self).messages@.len() == conv.messages@.len(),
            final(self).api_messages@.len() == conv.messages@.len(),
            forall|i: int|
                0 <= i < conv.messages@.len() ==> entry(
                    #[trigger] final(self).messages@[i],
                    conv.messages@[i].role,
                    conv.messages@[i].content@,
                ) && final(self).messages@[i].timestamp == conv.messages@[i].timestamp
                    && text_message(
                    final(self).api_messages@[i],
                    conv.messages@[i].role,
                    conv.messages@[i].content@,
                ),
            final(self).streaming == old(self).streaming,
            final(self).tool_executor == old(self).tool_executor,
            final(self).pending_tool_calls == old(self).pending_tool_calls,
            final(self).api_key == old(self).api_key,
            final(self).provider == old(self).provider,
            final(self).tools_enabled == old(self).tools_enabled,
            final(self).turn == old(self).turn,
    {
        let mut display: Vec<ChatMessage> = Vec::new();
        let mut history: Vec<Message> = Vec::new();
        let mut i: usize = 0;
        while i < conv.messages.len()
            invariant
                i <= conv.messages@.len(),
                display@.len() == i,
                history@.len() == i,
                forall|k: int|
                    0 <= k < i ==> entry(
                        #[trigger] display@[k],
                        conv.messages@[k].role,
                        conv.messages@[k].content@,
                    ) && display@[k].timestamp == conv.messages@[k].timestamp && text_message(
                        history@[k],
                        conv.messages@[k].role,
                        conv.messages@[k].content@,
                    ),
            decreases conv.messages@.len() - i,
        {
            let m = &conv.messages[i];
            display.push(ChatMessage {
                role: m.role,
                content: m.content.clone(),
                timestamp: m.timestamp,
                tool_invocations: Vec::new(),
            });
            history.push(Message { role: m.role, content: MessageContent::Text(m.content.clone()) });
            i = i + 1;
        }
        self.messages = display;
        self.api_messages = history;
        self.conversation = conv;
    }

    /// Starts over with empty views and a fresh persisted record. The previous record is
    /// handed back for saving when the transcript was not empty.
    pub fn new_conversation(&mut self) -> (saved: Option<Conversation>)
        requires
            old(self).wf(),
            old(self).pending_tool_calls@.len() == 0,
        ensures
            final(self).wf(),
            final(self).messages@.len() == 0,
            final(self).api_messages@.len() == 0,
            final(self).conversation.messages@.len() == 0,
            final(self).conversation.title@ == crate::history::untitled(),
            old(self).messages@.len() > 0 ==> saved == Some(old(self).conversation),
            old(self).messages@.len() == 0 ==> saved is None,
    {
        let mut previous = Conversation::new();
        std::mem::swap(&mut previous, &mut self.conversation);
        let had = self.messages.len() > 0;
        self.messages = Vec::new();
        self.api_messages = Vec::new();
        self.tool_invocations = Vec::new();
        if had {
            Some(previous)
        } else {
            None
        }
    }

    /// Discards the conversation: empty views and a fresh persisted record.
    pub fn clear_conversation(&mut self)
        requires
            old(self).wf(),
            old(self).pending_tool_calls@.len() == 0,
        ensures
            final(self).wf(),
            final(self).messages@.len() == 0,
            final(self).api_messages@.len() == 0,
            final(self).conversation.messages@.len() == 0,
            final(self).conversation.title@ == crate::history::untitled(),
            final(self).status_message is Some,
    {
        self.messages = Vec::new();
        self.api_messages = Vec::new();
        self.tool_invocations = Vec::new();
        self.conversation = Conversation::new();
        self.status_message = Some("Conversation cleared".to_owned());
    }

    /// The transcript as a markdown document, or `None` when it is empty.
    pub fn export_markdown(&self) -> (r: Option<String>)
        ensures
            self.messages@.len() == 0 ==> r is None,
            self.messages@.len() > 0 ==> r is Some && r->0@ == transcript_markdown(self.messages@),
    {
        if self.messages.len() == 0 {
            return None;
        }
        let mut out = String::new();
        let mut i: usize = 0;
        while i < self.messages.len()
            invariant
                i <= self.messages@.len(),
                out@ == transcript_markdown(self.messages@.take(i as int)),
            decreases self.messages@.len() - i,
        {
            assert(self.messages@.take(i + 1).drop_last() =~= self.messages@.take(i as int));
            push_entry(&mut out, &self.messages[i]);
            i = i + 1;
        }
        assert(self.messages@.take(self.messages@.len() as int) =~= self.messages@);
        Some(out)
    }
}

} // verus!
