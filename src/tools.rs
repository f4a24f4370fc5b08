//! Tool requests, their results, and the per-tool permission table.

use vstd::prelude::*;
use crate::text::{str_eq, append, decimal, decimal_string};
use vstd::utf8::encode_utf8;
use crate::json::{Json, field, field2, str_value, is_str, get_str};

verus! {

/// A tool invocation requested by the model, one variant per tool.
#[derive(Debug, Clone)]
pub enum Tool {
    ReadFile { path: String },
    WriteFile { path: String, content: String },
    ListFiles { path: String, pattern: Option<String> },
    SearchFiles { pattern: String, path: Option<String> },
    Execute { command: String },
    EditFile { path: String, old_text: String, new_text: String },
    /// A tool this library does not offer, by the name the provider gave (empty if none).
    Unknown { name: String },
}

/// The name under which a tool is known to the provider and to the permission table.
pub open spec fn tool_name(t: Tool) -> Seq<char> {
    match t {
        Tool::ReadFile { .. } => "read_file"@,
        Tool::WriteFile { .. } => "write_file"@,
        Tool::ListFiles { .. } => "list_files"@,
        Tool::SearchFiles { .. } => "search_files"@,
        Tool::Execute { .. } => "execute"@,
        Tool::EditFile { .. } => "edit_file"@,
        Tool::Unknown { .. } => "unknown"@,
    }
}

impl Tool {
    /// Name used for permission checks and display.
    pub fn name(&self) -> (r: &'static str)
        ensures
            r@ == tool_name(*self),
    {
        match self {
            Tool::ReadFile { .. } => "read_file",
            Tool::WriteFile { .. } => "write_file",
            Tool::ListFiles { .. } => "list_files",
            Tool::SearchFiles { .. } => "search_files",
            Tool::Execute { .. } => "execute",
            Tool::EditFile { .. } => "edit_file",
            Tool::Unknown { .. } => "unknown",
        }
    }
}

/// The outcome of running a single tool invocation.
#[derive(Debug, Clone)]
pub struct ToolResult {
    pub success: bool,
    pub output: String,
}

impl ToolResult {
    pub fn ok(output: String) -> (r: ToolResult)
        ensures
            r.success,
            r.output@ == output@,
    {
        ToolResult { success: true, output }
    }

    pub fn err(output: String) -> (r: ToolResult)
        ensures
            !r.success,
            r.output@ == output@,
    {
        ToolResult { success: false, output }
    }

    /// A copy of this result.
    pub fn duplicate(&self) -> (r: ToolResult)
        ensures
            r == *self,
    {
        ToolResult { success: self.success, output: self.output.clone() }
    }
}

/// Whether a tool may run without the user's confirmation.
#[derive(Debug, Clone, Copy, PartialEq, Eq, Structural)]
pub enum ToolPermission {
    /// Run immediately without asking.
    AutoAllow,
    /// Ask the user before executing.
    AskFirst,
    /// Never execute.
    Deny,
}

impl Default for ToolPermission {
    /// A tool without a setting asks first.
    fn default() -> (r: ToolPermission)
        ensures
            r == ToolPermission::AskFirst,
    {
        ToolPermission::AskFirst
    }
}

/// Default time a shell command may run before it is killed, in milliseconds.
pub const DEFAULT_COMMAND_TIMEOUT_MS: u64 = 120_000;

/// The permission table and the limits under which tools run.
pub struct ToolExecutor {
    /// Per-tool overrides, at most one entry per name.
    permissions: Vec<(String, ToolPermission)>,
    /// Longest time a shell command may run, in milliseconds.
    command_timeout_ms: u64,
}

impl ToolExecutor {
    /// No name occurs twice in the table.
    pub closed spec fn wf(&self) -> bool {
        forall|i: int, j: int|
            0 <= i < j < self.permissions@.len() ==> self.permissions@[i].0@
                != self.permissions@[j].0@
    }

    /// The permission that applies to the tool called `name`.
    pub closed spec fn policy(&self, name: Seq<char>) -> ToolPermission {
        if exists|i: int| 0 <= i < self.permissions@.len() && self.permissions@[i].0@ == name {
            let i = choose|i: int| 0 <= i < self.permissions@.len() && self.permissions@[i].0@ == name;
            self.permissions@[i].1
        } else {
            ToolPermission::AskFirst
        }
    }

    pub closed spec fn timeout_ms(&self) -> u64 {
        self.command_timeout_ms
    }

    /// An executor that asks before every tool, with the default command timeout.
    pub fn new() -> (r: ToolExecutor)
        ensures
            r.wf(),
            forall|n: Seq<char>| r.policy(n) == ToolPermission::AskFirst,
            r.timeout_ms() == DEFAULT_COMMAND_TIMEOUT_MS,
    {
        ToolExecutor { permissions: Vec::new(), command_timeout_ms: DEFAULT_COMMAND_TIMEOUT_MS }
    }

    fn find(&self, tool_name: &str) -> (r: Option<usize>)
        requires
            self.wf(),
        ensures
            match r {
                Some(i) => i < self.permissions@.len() && self.permissions@[i as int].0@
                    == tool_name@,
                None => forall|i: int|
                    0 <= i < self.permissions@.len() ==> self.permissions@[i].0@ != tool_name@,
            },
    {
        let mut i: usize = 0;
        while i < self.permissions.len()
            invariant
                i <= self.permissions@.len(),
                forall|k: int| 0 <= k < i ==> self.permissions@[k].0@ != tool_name@,
            decreases self.permissions@.len() - i,
        {
            if str_eq(self.permissions[i].0.as_str(), tool_name) {
                return Some(i);
            }
            i = i + 1;
        }
        None
    }

    /// Sets the permission of the tool called `tool_name`.
    pub fn set_permission(&mut self, tool_name: &str, perm: ToolPermission)
        requires
            old(self).wf(),
        ensures
            final(self).wf(),
            final(self).policy(tool_name@) == perm,
            forall|n: Seq<char>| n != tool_name@ ==> final(self).policy(n) == old(self).policy(n),
            final(self).timeout_ms() == old(self).timeout_ms(),
    {
        match self.find(tool_name) {
            Some(i) => {
                let name = self.permissions[i].0.clone();
                self.permissions.set(i, (name, perm));
                assert(self.permissions@[i as int].0@ == tool_name@);
            },
            None => {
                self.permissions.push((tool_name.to_owned(), perm));
                assert(self.permissions@[self.permissions@.len() - 1].0@ == tool_name@);
            },
        }
        assert forall|n: Seq<char>| n != tool_name@ implies self.policy(n) == old(self).policy(n) by {
            if exists|i: int| 0 <= i < old(self).permissions@.len() && old(self).permissions@[i].0@ == n {
                let i = choose|i: int| 0 <= i < old(self).permissions@.len() && old(self).permissions@[i].0@ == n;
                assert(self.permissions@[i].0@ == n);
            }
        }
    }

    /// The permission of the tool called `tool_name`; `AskFirst` when none was set.
    pub fn permission(&self, tool_name: &str) -> (r: ToolPermission)
        requires
            self.wf(),
        ensures
            r == self.policy(tool_name@),
    {
        match self.find(tool_name) {
            Some(i) => self.permissions[i].1,
            None => ToolPermission::AskFirst,
        }
    }

    /// Sets how long a shell command may run, in milliseconds.
    pub fn set_command_timeout(&mut self, timeout_ms: u64)
        ensures
            final(self).timeout_ms() == timeout_ms,
            forall|n: Seq<char>| final(self).policy(n) == old(self).policy(n),
            final(self).wf() == old(self).wf(),
    {
        self.command_timeout_ms = timeout_ms;
    }

    /// How long a shell command may run, in milliseconds.
    pub fn command_timeout(&self) -> (r: u64)
        ensures
            r == self.timeout_ms(),
    {
        self.command_timeout_ms
    }
}

impl Default for ToolExecutor {
    fn default() -> (r: ToolExecutor)
        ensures
            r.wf(),
            forall|n: Seq<char>| r.policy(n) == ToolPermission::AskFirst,
            r.timeout_ms() == DEFAULT_COMMAND_TIMEOUT_MS,
    {
        ToolExecutor::new()
    }
}

/// A tool-use block of a provider response: the provider's id and the tool.
#[derive(Debug, Clone)]
pub struct ToolCall {
    /// Id assigned by the provider, echoed back with the result.
    pub id: String,
    pub tool: Tool,
}

/// The text under `key` of a tool-use block's `input` object.
pub open spec fn input_arg(block: Json, key: Seq<char>) -> Option<Seq<char>> {
    str_value(field2(block, "input"@, key))
}

pub open spec fn or_default(v: Option<Seq<char>>, d: Seq<char>) -> Seq<char> {
    match v {
        Some(s) => s,
        None => d,
    }
}

pub open spec fn opt_view(o: Option<String>) -> Option<Seq<char>> {
    match o {
        Some(s) => Some(s@),
        None => None,
    }
}

/// Whether `name` is one of the six tools.
pub open spec fn known_tool(name: Seq<char>) -> bool {
    name == "read_file"@ || name == "write_file"@ || name == "list_files"@ || name
        == "search_files"@ || name == "execute"@ || name == "edit_file"@
}

/// Whether `block` is a tool-use block with an id, which a tool result can answer.
pub open spec fn is_tool_use(block: Json) -> bool {
    &&& is_str(field(block, "type"@), "tool_use"@)
    &&& str_value(field(block, "id"@)) is Some
}

/// Whether `t` is the tool that `block` requests: the variant named by `name`,
/// its arguments read from `input`, a missing text argument read as its default.
pub open spec fn tool_from_block(block: Json, t: Tool) -> bool {
    let name = str_value(field(block, "name"@));
    let nm = or_default(name, ""@);
    match t {
        Tool::ReadFile { path } => nm == "read_file"@ && path@ == or_default(
            input_arg(block, "path"@),
            ""@,
        ),
        Tool::WriteFile { path, content } => nm == "write_file"@ && path@ == or_default(
            input_arg(block, "path"@),
            ""@,
        ) && content@ == or_default(input_arg(block, "content"@), ""@),
        Tool::ListFiles { path, pattern } => nm == "list_files"@ && path@ == or_default(
            input_arg(block, "path"@),
            "."@,
        ) && opt_view(pattern) == input_arg(block, "pattern"@),
        Tool::SearchFiles { pattern, path } => nm == "search_files"@ && pattern@
            == or_default(input_arg(block, "pattern"@), ""@) && opt_view(path) == input_arg(
            block,
            "path"@,
        ),
        Tool::Execute { command } => nm == "execute"@ && command@ == or_default(
            input_arg(block, "command"@),
            ""@,
        ),
        Tool::EditFile { path, old_text, new_text } => nm == "edit_file"@ && path@
            == or_default(input_arg(block, "path"@), ""@) && old_text@ == or_default(
            input_arg(block, "old_text"@),
            ""@,
        ) && new_text@ == or_default(input_arg(block, "new_text"@), ""@),
        Tool::Unknown { name: n } => !known_tool(nm) && n@ == nm,
    }
}

/// Whether `c` is the call that tool-use block `block` asks for.
pub open spec fn call_from_block(block: Json, c: ToolCall) -> bool {
    str_value(field(block, "id"@)) == Some(c.id@) && tool_from_block(block, c.tool)
}

/// The tool-use blocks among `blocks`, in order.
pub open spec fn tool_use_blocks(blocks: Seq<Json>) -> Seq<Json>
    decreases blocks.len(),
{
    if blocks.len() == 0 {
        seq![]
    } else if is_tool_use(blocks.last()) {
        tool_use_blocks(blocks.drop_last()).push(blocks.last())
    } else {
        tool_use_blocks(blocks.drop_last())
    }
}

/// The content blocks of a provider response: its `content` array, or none.
pub open spec fn content_blocks(response: Json) -> Seq<Json> {
    match field(response, "content"@) {
        Some(Json::Array(a)) => a@,
        _ => seq![],
    }
}

/// Whether `calls` are exactly the calls that the tool-use blocks among `blocks` ask for.
pub open spec fn calls_from_blocks(blocks: Seq<Json>, calls: Seq<ToolCall>) -> bool {
    let uses = tool_use_blocks(blocks);
    &&& calls.len() == uses.len()
    &&& forall|i: int| 0 <= i < calls.len() ==> call_from_block(#[trigger] uses[i], calls[i])
}

/// The text under `key` of `block`'s input, or `default`.
fn input_or(block: &Json, key: &str, default: &str) -> (r: String)
    ensures
        r@ == or_default(input_arg(*block, key@), default@),
{
    match block.get("input") {
        Some(input) => match get_str(input, key) {
            Some(s) => s.clone(),
            None => default.to_owned(),
        },
        None => default.to_owned(),
    }
}

/// The text under `key` of `block`'s input, if there is one.
fn input_opt(block: &Json, key: &str) -> (r: Option<String>)
    ensures
        opt_view(r) == input_arg(*block, key@),
{
    match block.get("input") {
        Some(input) => match get_str(input, key) {
            Some(s) => Some(s.clone()),
            None => None,
        },
        None => None,
    }
}

/// The call that one content block asks for, if it is a tool-use block of a known tool.
fn call_of_block(block: &Json) -> (r: Option<ToolCall>)
    ensures
        match r {
            Some(c) => is_tool_use(*block) && call_from_block(*block, c),
            None => !is_tool_use(*block),
        },
{
    match get_str(block, "type") {
        Some(t) => {
            if !str_eq(t.as_str(), "tool_use") {
                return None;
            }
        },
        None => {
            return None;
        },
    }
    let id = match get_str(block, "id") {
        Some(id) => id.clone(),
        None => {
            return None;
        },
    };
    let no_name = String::new();
    let name = match get_str(block, "name") {
        Some(n) => n,
        None => &no_name,
    };
    proof {
        reveal_strlit("");
    }
    assert(name@ == or_default(str_value(field(*block, "name"@)), ""@));
    let tool = if str_eq(name.as_str(), "read_file") {
        Tool::ReadFile { path: input_or(block, "path", "") }
    } else if str_eq(name.as_str(), "write_file") {
        Tool::WriteFile {
            path: input_or(block, "path", ""),
            content: input_or(block, "content", ""),
        }
    } else if str_eq(name.as_str(), "list_files") {
        Tool::ListFiles { path: input_or(block, "path", "."), pattern: input_opt(block, "pattern") }
    } else if str_eq(name.as_str(), "search_files") {
        Tool::SearchFiles { pattern: input_or(block, "pattern", ""), path: input_opt(block, "path") }
    } else if str_eq(name.as_str(), "execute") {
        Tool::Execute { command: input_or(block, "command", "") }
    } else if str_eq(name.as_str(), "edit_file") {
        Tool::EditFile {
            path: input_or(block, "path", ""),
            old_text: input_or(block, "old_text", ""),
            new_text: input_or(block, "new_text", ""),
        }
    } else {
        Tool::Unknown { name: name.clone() }
    };
    Some(ToolCall { id, tool })
}

/// The tool calls of a provider response, in the order of its content blocks.
/// Blocks that are not tool-use blocks with an id are skipped; a tool this library does
/// not offer becomes `Tool::Unknown`.
pub fn parse_tool_calls(response: &Json) -> (r: Vec<ToolCall>)
    ensures
        calls_from_blocks(content_blocks(*response), r@),
{
    let mut calls: Vec<ToolCall> = Vec::new();
    let content = match response.get("content") {
        Some(c) => match c.as_array() {
            Some(a) => a,
            None => {
                return calls;
            },
        },
        None => {
            return calls;
        },
    };
    let ghost blocks = content@;
    assert(blocks == content_blocks(*response));
    let mut i: usize = 0;
    while i < content.len()
        invariant
            blocks == content@,
            i <= blocks.len(),
            calls_from_blocks(blocks.take(i as int), calls@),
        decreases blocks.len() - i,
    {
        assert(blocks.take(i + 1).drop_last() =~= blocks.take(i as int));
        assert(blocks.take(i + 1).last() == blocks[i as int]);
        match call_of_block(&content[i]) {
            Some(c) => {
                calls.push(c);
                let ghost uses = tool_use_blocks(blocks.take(i + 1));
                assert(uses == tool_use_blocks(blocks.take(i as int)).push(blocks[i as int]));
                assert forall|k: int| 0 <= k < calls@.len() implies call_from_block(
                    #[trigger] uses[k],
                    calls@[k],
                ) by {
                    if k < calls@.len() - 1 {
                        assert(uses[k] == tool_use_blocks(blocks.take(i as int))[k]);
                    }
                }
            },
            None => {},
        }
        i = i + 1;
    }
    assert(blocks.take(blocks.len() as int) =~= blocks);
    calls
}

/// The length of the UTF-8 encoding of `s`, as `str::len` gives it.
pub open spec fn byte_len(s: Seq<char>) -> usize {
    encode_utf8(s).len() as usize
}

/// How a tool's arguments are summarised for display.
pub open spec fn args_summary(t: Tool) -> Seq<char> {
    match t {
        Tool::ReadFile { path } => "path: "@ + path@,
        Tool::WriteFile { path, content } => "path: "@ + path@ + " ("@ + decimal(
            byte_len(content@) as nat,
        ) + " bytes)"@,
        Tool::ListFiles { path, pattern } => "path: "@ + path@ + match pattern {
            Some(p) => ", pattern: "@ + p@,
            None => Seq::empty(),
        },
        Tool::SearchFiles { pattern, path } => "pattern: "@ + pattern@ + match path {
            Some(p) => ", path: "@ + p@,
            None => Seq::empty(),
        },
        Tool::Execute { command } => "$ "@ + command@,
        Tool::Unknown { name } => "unknown tool "@ + name@,
        Tool::EditFile { path, old_text, .. } => "path: "@ + path@ + ", replacing "@ + decimal(
            byte_len(old_text@) as nat,
        ) + " chars"@,
    }
}

/// A human-readable summary of a tool's arguments.
pub fn format_tool_args(tool: &Tool) -> (r: String)
    ensures
        r@ == args_summary(*tool),
{
    match tool {
        Tool::ReadFile { path } => {
            let mut r = "path: ".to_owned();
            append(&mut r, path.as_str());
            r
        },
        Tool::WriteFile { path, content } => {
            let mut r = "path: ".to_owned();
            append(&mut r, path.as_str());
            append(&mut r, " (");
            let n = decimal_string(content.as_str().len() as u64);
            append(&mut r, n.as_str());
            append(&mut r, " bytes)");
            r
        },
        Tool::ListFiles { path, pattern } => {
            let mut r = "path: ".to_owned();
            append(&mut r, path.as_str());
            match pattern {
                Some(p) => {
                    append(&mut r, ", pattern: ");
                    append(&mut r, p.as_str());
                },
                None => {
                    assert(r@ + Seq::<char>::empty() =~= r@);
                },
            }
            r
        },
        Tool::SearchFiles { pattern, path } => {
            let mut r = "pattern: ".to_owned();
            append(&mut r, pattern.as_str());
            match path {
                Some(p) => {
                    append(&mut r, ", path: ");
                    append(&mut r, p.as_str());
                },
                None => {
                    assert(r@ + Seq::<char>::empty() =~= r@);
                },
            }
            r
        },
        Tool::Execute { command } => {
            let mut r = "$ ".to_owned();
            append(&mut r, command.as_str());
            r
        },
        Tool::Unknown { name } => {
            let mut r = "unknown tool ".to_owned();
            append(&mut r, name.as_str());
            r
        },
        Tool::EditFile { path, old_text, .. } => {
            let mut r = "path: ".to_owned();
            append(&mut r, path.as_str());
            append(&mut r, ", replacing ");
            let n = decimal_string(old_text.as_str().len() as u64);
            append(&mut r, n.as_str());
            append(&mut r, " chars");
            r
        },
    }
}

/// Whether `j` is a tool definition object whose first entry names the tool `name`.
pub open spec fn defines(j: Json, name: Seq<char>) -> bool {
    match j {
        Json::Object(v) => v@.len() == 3 && v@[0].0@ == "name"@ && v@[0].1 is Str && v@[0].1->Str_0@
            == name,
        _ => false,
    }
}

fn text_json(s: &str) -> (r: Json)
    ensures
        r is Str && r->Str_0@ == s@,
{
    Json::Str(s.to_owned())
}

/// A string property of a tool's input, with its description.
fn string_property(name: &str, description: &str) -> (r: (String, Json))
    ensures
        r.0@ == name@,
{
    let mut v: Vec<(String, Json)> = Vec::new();
    v.push(("type".to_owned(), text_json("string")));
    v.push(("description".to_owned(), text_json(description)));
    (name.to_owned(), Json::Object(v))
}

/// One tool definition: name, description and the schema of its input.
fn tool_definition(name: &str, description: &str, properties: Vec<(String, Json)>, required: &[&str]) -> (r: Json)
    ensures
        defines(r, name@),
{
    let mut req: Vec<Json> = Vec::new();
    let mut i: usize = 0;
    while i < required.len()
        decreases required@.len() - i,
    {
        req.push(text_json(required[i]));
        i = i + 1;
    }
    let mut schema: Vec<(String, Json)> = Vec::new();
    schema.push(("type".to_owned(), text_json("object")));
    schema.push(("properties".to_owned(), Json::Object(properties)));
    schema.push(("required".to_owned(), Json::Array(req)));
    let mut v: Vec<(String, Json)> = Vec::new();
    v.push(("name".to_owned(), text_json(name)));
    v.push(("description".to_owned(), text_json(description)));
    v.push(("input_schema".to_owned(), Json::Object(schema)));
    Json::Object(v)
}

/// The definitions of the six tools, sent with every tool-enabled call: an array with
/// one object per tool, in the order `read_file`, `write_file`, `list_files`,
/// `search_files`, `execute`, `edit_file`.
pub fn format_tool_definitions() -> (r: Json)
    ensures
        r is Array,
        r->Array_0@.len() == 6,
        defines(r->Array_0@[0], "read_file"@),
        defines(r->Array_0@[1], "write_file"@),
        defines(r->Array_0@[2], "list_files"@),
        defines(r->Array_0@[3], "search_files"@),
        defines(r->Array_0@[4], "execute"@),
        defines(r->Array_0@[5], "edit_file"@),
{
    let mut defs: Vec<Json> = Vec::new();
    let mut p: Vec<(String, Json)> = Vec::new();
    p.push(string_property("path", "Absolute or relative path to the file to read."));
    defs.push(tool_definition(
        "read_file",
        "Read the contents of a file at the given path. Returns the file contents with line numbers.",
        p,
        &["path"],
    ));
    let mut p: Vec<(String, Json)> = Vec::new();
    p.push(string_property("path", "Absolute or relative path to the file to write."));
    p.push(string_property("content", "The full content to write to the file."));
    defs.push(tool_definition(
        "write_file",
        "Write content to a file at the given path. Creates parent directories if they do not exist. Overwrites the file if it already exists.",
        p,
        &["path", "content"],
    ));
    let mut p: Vec<(String, Json)> = Vec::new();
    p.push(string_property("path", "Directory path to list files in."));
    p.push(string_property(
        "pattern",
        "Optional glob pattern to filter files (e.g. \"**/*.rs\"). If omitted, all files are listed recursively.",
    ));
    defs.push(tool_definition(
        "list_files",
        "List files in a directory, optionally filtered by a glob pattern.",
        p,
        &["path"],
    ));
    let mut p: Vec<(String, Json)> = Vec::new();
    p.push(string_property("pattern", "Regular expression pattern to search for."));
    p.push(string_property(
        "path",
        "Optional directory or file to search in. Defaults to the current directory.",
    ));
    defs.push(tool_definition(
        "search_files",
        "Search file contents using a regular expression pattern (via ripgrep or grep). Returns matching lines with file paths and line numbers.",
        p,
        &["pattern"],
    ));
    let mut p: Vec<(String, Json)> = Vec::new();
    p.push(string_property("command", "The shell command to execute."));
    defs.push(tool_definition(
        "execute",
        "Execute a shell command and return its stdout and stderr. The command runs under `sh -c` with a configurable timeout (default 120 seconds).",
        p,
        &["command"],
    ));
    let mut p: Vec<(String, Json)> = Vec::new();
    p.push(string_property("path", "Path to the file to edit."));
    p.push(string_property("old_text", "The exact text to find (must be unique in the file)."));
    p.push(string_property("new_text", "The text to replace old_text with."));
    defs.push(tool_definition(
        "edit_file",
        "Perform a precise string replacement in a file. The old_text must appear exactly once in the file; it will be replaced with new_text.",
        p,
        &["path", "old_text", "new_text"],
    ));
    Json::Array(defs)
}

} // verus!
