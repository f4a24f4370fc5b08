//! Settings that the library itself reads, with their defaults.

use vstd::prelude::*;

verus! {

/// Colours of the interface, as `#rrggbb` texts.
#[derive(Debug, Clone)]
pub struct Theme {
    pub accent: String,
    pub user_color: String,
    pub assistant_color: String,
    pub border_color: String,
    pub dim_color: String,
}

/// How the editor bridge connects.
#[derive(Debug, Clone)]
pub struct NeovimConfig {
    pub auto_connect: bool,
    pub socket_path: Option<String>,
    pub send_code_blocks: bool,
}

impl Default for NeovimConfig {
    fn default() -> (r: NeovimConfig)
        ensures
            !r.auto_connect,
            r.socket_path is None,
            !r.send_code_blocks,
    {
        NeovimConfig { auto_connect: false, socket_path: None, send_code_blocks: false }
    }
}

pub fn default_provider() -> (r: String)
    ensures
        r@ == "anthropic"@,
{
    "anthropic".to_owned()
}

pub fn default_max_tokens() -> (r: u32)
    ensures
        r == 8192,
{
    8192
}

pub fn default_true() -> (r: bool)
    ensures
        r,
{
    true
}

/// The system prompt used when none is configured.
pub open spec fn system_prompt_text() -> Seq<char> {
    "You are a helpful assistant. When writing code, you are precise and produce clean, working code. You format responses using markdown. When asked to edit files or write code, use the available tools to read, write, and edit files directly. Be concise but thorough."@
}

pub fn default_system_prompt() -> (r: Option<String>)
    ensures
        r is Some && r->0@ == system_prompt_text(),
{
    Some(
        "You are a helpful assistant. When writing code, you are precise and produce clean, working code. You format responses using markdown. When asked to edit files or write code, use the available tools to read, write, and edit files directly. Be concise but thorough.".to_owned(),
    )
}

pub fn default_theme_name() -> (r: String)
    ensures
        r@ == "tokyo-night"@,
{
    "tokyo-night".to_owned()
}

pub fn default_accent_color() -> (r: String)
    ensures
        r@ == "#7aa2f7"@,
{
    "#7aa2f7".to_owned()
}

pub fn default_user_color() -> (r: String)
    ensures
        r@ == "#9ece6a"@,
{
    "#9ece6a".to_owned()
}

pub fn default_assistant_color() -> (r: String)
    ensures
        r@ == "#bb9af7"@,
{
    "#bb9af7".to_owned()
}

pub fn default_border_color() -> (r: String)
    ensures
        r@ == "#3b4261"@,
{
    "#3b4261".to_owned()
}

pub fn default_dim_color() -> (r: String)
    ensures
        r@ == "#565f89"@,
{
    "#565f89".to_owned()
}

/// The default colours.
pub fn default_theme() -> (r: Theme)
    ensures
        r.accent@ == "#7aa2f7"@,
        r.user_color@ == "#9ece6a"@,
        r.assistant_color@ == "#bb9af7"@,
        r.border_color@ == "#3b4261"@,
        r.dim_color@ == "#565f89"@,
{
    Theme {
        accent: default_accent_color(),
        user_color: default_user_color(),
        assistant_color: default_assistant_color(),
        border_color: default_border_color(),
        dim_color: default_dim_color(),
    }
}

impl Default for Theme {
    fn default() -> (r: Theme)
        ensures
            r.accent@ == "#7aa2f7"@,
            r.user_color@ == "#9ece6a"@,
            r.assistant_color@ == "#bb9af7"@,
            r.border_color@ == "#3b4261"@,
            r.dim_color@ == "#565f89"@,
    {
        default_theme()
    }
}

} // verus!
