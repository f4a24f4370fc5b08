//! Slash commands typed into the input line: which command, and its argument.

use vstd::prelude::*;
use crate::text::{chars_of, str_eq, string_from};

verus! {

/// A slash command, by name or alias.
#[derive(Debug, Clone, Copy, PartialEq, Eq, Structural)]
pub enum Command {
    Clear,
    New,
    Model,
    Provider,
    System,
    History,
    Help,
    Temp,
    Save,
    Nvim,
    Tools,
    File,
    Context,
    Paste,
    Resume,
    Diff,
    Export,
    Theme,
    Retry,
    Edit,
    Run,
    Undo,
    Redo,
    Quit,
    Unknown,
}

/// The command a name stands for.
pub open spec fn command_named(n: Seq<char>) -> Command {
    if n == "/clear"@ || n == "/c"@ {
        Command::Clear
    } else if n == "/new"@ || n == "/n"@ {
        Command::New
    } else if n == "/model"@ || n == "/m"@ {
        Command::Model
    } else if n == "/provider"@ || n == "/p"@ {
        Command::Provider
    } else if n == "/system"@ || n == "/s"@ {
        Command::System
    } else if n == "/history"@ || n == "/h"@ {
        Command::History
    } else if n == "/help"@ || n == "/?"@ {
        Command::Help
    } else if n == "/temp"@ || n == "/t"@ {
        Command::Temp
    } else if n == "/save"@ {
        Command::Save
    } else if n == "/nvim"@ {
        Command::Nvim
    } else if n == "/tools"@ {
        Command::Tools
    } else if n == "/file"@ || n == "/f"@ {
        Command::File
    } else if n == "/context"@ || n == "/ctx"@ {
        Command::Context
    } else if n == "/paste"@ {
        Command::Paste
    } else if n == "/resume"@ || n == "/r"@ {
        Command::Resume
    } else if n == "/diff"@ || n == "/d"@ {
        Command::Diff
    } else if n == "/export"@ {
        Command::Export
    } else if n == "/theme"@ {
        Command::Theme
    } else if n == "/retry"@ {
        Command::Retry
    } else if n == "/edit"@ {
        Command::Edit
    } else if n == "/run"@ || n == "/!"@ {
        Command::Run
    } else if n == "/undo"@ {
        Command::Undo
    } else if n == "/redo"@ {
        Command::Redo
    } else if n == "/quit"@ || n == "/q"@ {
        Command::Quit
    } else {
        Command::Unknown
    }
}

/// Index of the first space in `s`.
pub open spec fn first_space(s: Seq<char>) -> Option<int>
    decreases s.len(),
{
    if s.len() == 0 {
        None
    } else if s[0] == ' ' {
        Some(0)
    } else {
        match first_space(s.drop_first()) {
            Some(i) => Some(i + 1),
            None => None,
        }
    }
}

/// The name of a command line: up to its first space.
pub open spec fn line_name(s: Seq<char>) -> Seq<char> {
    match first_space(s) {
        Some(i) => s.take(i),
        None => s,
    }
}

/// The argument of a command line: what follows its first space.
pub open spec fn line_argument(s: Seq<char>) -> Option<Seq<char>> {
    match first_space(s) {
        Some(i) => Some(s.skip(i + 1)),
        None => None,
    }
}

/// What a command line holds: its name, and what follows the first space, if any.
pub struct CommandLine {
    pub command: Command,
    pub name: String,
    pub argument: Option<String>,
}

fn command_of(n: &str) -> (c: Command)
    ensures
        c == command_named(n@),
{
    if str_eq(n, "/clear") || str_eq(n, "/c") {
        Command::Clear
    } else if str_eq(n, "/new") || str_eq(n, "/n") {
        Command::New
    } else if str_eq(n, "/model") || str_eq(n, "/m") {
        Command::Model
    } else if str_eq(n, "/provider") || str_eq(n, "/p") {
        Command::Provider
    } else if str_eq(n, "/system") || str_eq(n, "/s") {
        Command::System
    } else if str_eq(n, "/history") || str_eq(n, "/h") {
        Command::History
    } else if str_eq(n, "/help") || str_eq(n, "/?") {
        Command::Help
    } else if str_eq(n, "/temp") || str_eq(n, "/t") {
        Command::Temp
    } else if str_eq(n, "/save") {
        Command::Save
    } else if str_eq(n, "/nvim") {
        Command::Nvim
    } else if str_eq(n, "/tools") {
        Command::Tools
    } else if str_eq(n, "/file") || str_eq(n, "/f") {
        Command::File
    } else if str_eq(n, "/context") || str_eq(n, "/ctx") {
        Command::Context
    } else if str_eq(n, "/paste") {
        Command::Paste
    } else if str_eq(n, "/resume") || str_eq(n, "/r") {
        Command::Resume
    } else if str_eq(n, "/diff") || str_eq(n, "/d") {
        Command::Diff
    } else if str_eq(n, "/export") {
        Command::Export
    } else if str_eq(n, "/theme") {
        Command::Theme
    } else if str_eq(n, "/retry") {
        Command::Retry
    } else if str_eq(n, "/edit") {
        Command::Edit
    } else if str_eq(n, "/run") || str_eq(n, "/!") {
        Command::Run
    } else if str_eq(n, "/undo") {
        Command::Undo
    } else if str_eq(n, "/redo") {
        Command::Redo
    } else if str_eq(n, "/quit") || str_eq(n, "/q") {
        Command::Quit
    } else {
        Command::Unknown
    }
}

/// Splits a command line at its first space into the command and its argument.
pub fn parse_command(line: &str) -> (r: CommandLine)
    ensures
        r.name@ == line_name(line@),
        r.command == command_named(line_name(line@)),
        match r.argument {
            Some(a) => line_argument(line@) == Some(a@),
            None => line_argument(line@) is None,
        },
{
    let cs = chars_of(line);
    let n = cs.len();
    let mut i: usize = 0;
    assert(cs@.skip(0) =~= cs@);
    while i < n && cs[i] != ' '
        invariant
            n == cs@.len(),
            i <= n,
            cs@ == line@,
            first_space(cs@) == match first_space(cs@.skip(i as int)) {
                Some(k) => Some(k + i),
                None => None::<int>,
            },
        decreases n - i,
    {
        assert(cs@.skip(i as int).drop_first() =~= cs@.skip(i + 1));
        i = i + 1;
    }
    if i < n {
        assert(cs@.skip(i as int)[0] == ' ');
        let name = string_from(&cs, 0, i);
        let argument = string_from(&cs, i + 1, n);
        assert(cs@.subrange(0, i as int) =~= cs@.take(i as int));
        assert(cs@.subrange(i + 1, n as int) =~= cs@.skip(i + 1));
        let command = command_of(name.as_str());
        CommandLine { command, name, argument: Some(argument) }
    } else {
        assert(cs@.skip(n as int).len() == 0);
        let name = string_from(&cs, 0, n);
        assert(cs@.subrange(0, n as int) =~= cs@);
        let command = command_of(name.as_str());
        CommandLine { command, name, argument: None }
    }
}

/// Whether `name` is one of the colour themes.
pub open spec fn known_theme(name: Seq<char>) -> bool {
    name == "tokyo-night"@ || name == "catppuccin"@ || name == "gruvbox"@ || name == "dracula"@
}

/// Whether `name` is one of the colour themes.
pub fn is_theme(name: &str) -> (r: bool)
    ensures
        r == known_theme(name@),
{
    str_eq(name, "tokyo-night") || str_eq(name, "catppuccin") || str_eq(name, "gruvbox") || str_eq(
        name,
        "dracula",
    )
}

} // verus!
