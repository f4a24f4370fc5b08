//! What the tool executor decides around its I/O: the requests it makes of the
//! environment, and the result it reports from what the environment answered.

use vstd::prelude::*;
use crate::text::{
    append, chars_of, decimal, decimal_string, has_prefix_in, push_char, split_lines, string_from,
};
use crate::tools::{Tool, ToolExecutor, ToolResult, byte_len};

verus! {

/// Number of non-overlapping occurrences of `p` in `s`, scanning from the left,
/// as `str::matches` counts them; the empty pattern occurs at every character boundary.
pub open spec fn count_matches(s: Seq<char>, p: Seq<char>) -> nat
    decreases s.len(),
{
    if p.len() == 0 {
        s.len() + 1
    } else if s.len() < p.len() {
        0
    } else if s.take(p.len() as int) == p {
        1 + count_matches(s.skip(p.len() as int), p)
    } else {
        count_matches(s.skip(1), p)
    }
}

/// Index of the leftmost occurrence of `p` in `s`.
pub open spec fn first_match(s: Seq<char>, p: Seq<char>) -> Option<int>
    decreases s.len(),
{
    if s.len() < p.len() {
        None
    } else if s.take(p.len() as int) == p {
        Some(0)
    } else if s.len() == 0 {
        None
    } else {
        match first_match(s.skip(1), p) {
            Some(i) => Some(i + 1),
            None => None,
        }
    }
}

/// `s` with its leftmost occurrence of `p` replaced by `q`.
pub open spec fn replace_first(s: Seq<char>, p: Seq<char>, q: Seq<char>) -> Seq<char> {
    match first_match(s, p) {
        Some(i) => s.take(i) + q + s.skip(i + p.len()),
        None => s,
    }
}

/// Why an edit cannot be applied.
#[derive(Debug, Clone, Copy, PartialEq, Eq, Structural)]
pub enum EditFailure {
    /// The text to replace does not occur.
    NotFound,
    /// The text to replace occurs this many times.
    Ambiguous(usize),
}

proof fn lemma_match_bounds(s: Seq<char>, p: Seq<char>)
    ensures
        first_match(s, p) is Some ==> 0 <= first_match(s, p)->0 && first_match(s, p)->0 + p.len()
            <= s.len(),
    decreases s.len(),
{
    if s.len() >= p.len() && s.take(p.len() as int) != p && s.len() > 0 {
        lemma_match_bounds(s.skip(1), p);
    }
}

/// The new contents of a file after replacing `old_text` by `new_text`, which is owed
/// exactly when `old_text` occurs once. Otherwise nothing is to be written.
pub fn edit_plan(contents: &str, old_text: &str, new_text: &str) -> (r: Result<String, EditFailure>)
    requires
        contents@.len() < usize::MAX,
    ensures
        count_matches(contents@, old_text@) == 0 ==> r == Err::<String, EditFailure>(
            EditFailure::NotFound,
        ),
        count_matches(contents@, old_text@) > 1 ==> r is Err && r->Err_0 is Ambiguous
            && r->Err_0->Ambiguous_0 == count_matches(contents@, old_text@),
        count_matches(contents@, old_text@) == 1 ==> r is Ok && r->Ok_0@ == replace_first(
            contents@,
            old_text@,
            new_text@,
        ),
{
    let cs = chars_of(contents);
    let ps = chars_of(old_text);
    let n = cs.len();
    let m = ps.len();
    if m == 0 {
        if n == 0 {
            assert(cs@.take(0) =~= old_text@);
            let r = new_text.to_owned();
            assert(cs@.take(0) + new_text@ + cs@.skip(0) =~= new_text@);
            return Ok(r);
        }
        return Err(EditFailure::Ambiguous(n + 1));
    }
    let mut count: usize = 0;
    let mut first: usize = 0;
    let mut k: usize = 0;
    assert(cs@.skip(0) =~= cs@);
    while k < n && m <= n - k
        invariant
            n == cs@.len(),
            m == ps@.len(),
            m > 0,
            ps@ == old_text@,
            cs@ == contents@,
            k <= n,
            count <= k,
            count_matches(cs@, ps@) == count + count_matches(cs@.skip(k as int), ps@),
            count == 0 ==> first_match(cs@, ps@) == match first_match(cs@.skip(k as int), ps@) {
                Some(i) => Some(i + k),
                None => None::<int>,
            },
            count > 0 ==> first_match(cs@, ps@) == Some(first as int),
        decreases n - k,
    {
        let ghost rest = cs@.skip(k as int);
        if has_prefix_in(&cs, k, n, old_text) {
            assert(cs@.subrange(k as int, n as int) =~= rest);
            assert(rest.take(m as int) == ps@);
            assert(rest.skip(m as int) =~= cs@.skip(k + m));
            if count == 0 {
                first = k;
            }
            count = count + 1;
            k = k + m;
        } else {
            assert(cs@.subrange(k as int, n as int) =~= rest);
            assert(rest.skip(1) =~= cs@.skip(k + 1));
            k = k + 1;
        }
    }
    assert(cs@.skip(k as int).len() < m);
    if count == 0 {
        return Err(EditFailure::NotFound);
    }
    if count > 1 {
        return Err(EditFailure::Ambiguous(count));
    }
    proof {
        lemma_match_bounds(cs@, ps@);
    }
    let mut r = string_from(&cs, 0, first);
    append(&mut r, new_text);
    let tail = string_from(&cs, first + m, n);
    append(&mut r, tail.as_str());
    assert(cs@.subrange(0, first as int) =~= cs@.take(first as int));
    assert(cs@.subrange(first + m, n as int) =~= cs@.skip(first + m));
    Ok(r)
}

/// What a finished process reported.
#[derive(Debug, Clone)]
pub struct CommandOutput {
    /// Whether the exit status indicates success.
    pub success: bool,
    /// The exit code, when the process exited normally.
    pub code: Option<i32>,
    pub stdout: String,
    pub stderr: String,
}

/// What the environment answered to the I/O that a tool asked for.
#[derive(Debug, Clone)]
pub enum ToolOutcome {
    /// The file or directory named by the tool does not exist.
    NotFound,
    /// Reading, writing or waiting failed with this message.
    Failed(String),
    /// The file was read and holds this text.
    Contents(String),
    /// The parent directory (first) could not be created (second: the message).
    DirFailed(String, String),
    /// The file could not be created.
    CreateFailed(String),
    /// The file was written.
    Written,
    /// The paths that the glob pattern matched, or the text of an entry's error.
    Listed(Vec<String>),
    /// The glob pattern is invalid.
    BadPattern(String),
    /// The program (first) could not be started (second: the message).
    SpawnFailed(String, String),
    /// The search program (first) ran to completion.
    Searched(String, CommandOutput),
    /// The process ran to completion.
    Ran(CommandOutput),
    /// The process ran past the timeout, and was killed and reaped.
    TimedOut,
    /// The file was read (first); when its edit could be planned, the planned contents
    /// were written and the write failed with the message (second) or succeeded (`None`).
    Edited(String, Option<String>),
}

/// Whether `o` is an answer the environment can give to the I/O of `t`.
pub open spec fn outcome_fits(t: Tool, o: ToolOutcome) -> bool {
    match t {
        Tool::ReadFile { .. } => o is NotFound || o is Failed || (o is Contents && o->Contents_0@.len()
            < u64::MAX),
        Tool::WriteFile { .. } => o is DirFailed || o is CreateFailed || o is Failed || o is Written,
        Tool::ListFiles { .. } => o is NotFound || o is Listed || o is BadPattern,
        Tool::SearchFiles { .. } => o is SpawnFailed || o is Searched,
        Tool::Execute { .. } => o is SpawnFailed || o is Ran || o is TimedOut || o is Failed,
        Tool::Unknown { .. } => true,
        Tool::EditFile { .. } => o is NotFound || o is Failed || (o is Edited && o->Edited_0@.len()
            < usize::MAX),
    }
}

/// `s` without one trailing carriage return.
pub open spec fn strip_cr(l: Seq<char>) -> Seq<char> {
    if l.len() > 0 && l.last() == '\r' {
        l.drop_last()
    } else {
        l
    }
}

/// The lines of `s` as `str::lines` yields them.
pub open spec fn text_lines(s: Seq<char>) -> Seq<Seq<char>> {
    let (ls, rest) = split_lines(s);
    let all = if rest.len() > 0 {
        ls.push(rest)
    } else {
        ls
    };
    all.map_values(|l: Seq<char>| strip_cr(l))
}

/// `d` right-aligned in a field six characters wide.
pub open spec fn pad6(d: Seq<char>) -> Seq<char> {
    if d.len() < 6 {
        Seq::new((6 - d.len()) as nat, |_i: int| ' ') + d
    } else {
        d
    }
}

/// Line `k` (counted from one) shown with its number.
pub open spec fn numbered_row(k: nat, line: Seq<char>) -> Seq<char> {
    pad6(decimal(k)) + "\t"@ + line
}

/// The lines, each with its number, one per line.
pub open spec fn numbered(lines: Seq<Seq<char>>) -> Seq<char>
    decreases lines.len(),
{
    if lines.len() == 0 {
        Seq::empty()
    } else if lines.len() == 1 {
        numbered_row(1, lines[0])
    } else {
        numbered(lines.drop_last()) + "\n"@ + numbered_row(lines.len(), lines.last())
    }
}

fn push_row(out: &mut String, k: u64, cs: &Vec<char>, from: usize, to: usize)
    requires
        from <= to <= cs@.len(),
    ensures
        final(out)@ == old(out)@ + numbered_row(
            k as nat,
            strip_cr(cs@.subrange(from as int, to as int)),
        ),
{
    let d = decimal_string(k);
    let dl = chars_of(d.as_str()).len();
    let mut pad: usize = dl;
    let ghost start = out@;
    while pad < 6
        invariant
            dl == decimal(k as nat).len(),
            dl <= pad <= 6 || (dl >= 6 && pad == dl),
            out@ == start + Seq::new((pad - dl) as nat, |_i: int| ' '),
        decreases 6 - pad,
    {
        push_char(out, ' ');
        assert(Seq::new((pad + 1 - dl) as nat, |_i: int| ' ') =~= Seq::new(
            (pad - dl) as nat,
            |_i: int| ' ',
        ).push(' '));
        pad = pad + 1;
    }
    proof {
        if dl >= 6 {
            assert(Seq::new((pad - dl) as nat, |_i: int| ' ') =~= Seq::<char>::empty());
        }
    }
    append(out, d.as_str());
    append(out, "\t");
    let end = if to > from && cs[to - 1] == '\r' {
        to - 1
    } else {
        to
    };
    assert(cs@.subrange(from as int, end as int) =~= strip_cr(cs@.subrange(from as int, to as int)));
    let line = string_from(cs, from, end);
    append(out, line.as_str());
    assert(out@ =~= start + numbered_row(k as nat, strip_cr(cs@.subrange(from as int, to as int))));
}

/// The text of a file with each line numbered, as `read_file` shows it.
pub fn number_lines(contents: &str) -> (r: String)
    requires
        contents@.len() < u64::MAX,
    ensures
        r@ == numbered(text_lines(contents@)),
{
    let cs = chars_of(contents);
    let n = cs.len();
    let mut out = String::new();
    let mut pos: usize = 0;
    let mut k: u64 = 0;
    let ghost all = cs@;
    let ghost mut done_lines: Seq<Seq<char>> = seq![];
    assert(all.skip(0) =~= all);
    loop
        invariant
            all == cs@,
            all == contents@,
            n == all.len(),
            pos <= n,
            k as int == done_lines.len(),
            k <= pos,
            done_lines + split_lines(all.skip(pos as int)).0 == split_lines(all).0,
            split_lines(all.skip(pos as int)).1 == split_lines(all).1,
            out@ == numbered(done_lines.map_values(|l: Seq<char>| strip_cr(l))),
        decreases n - pos,
    {
        let ghost cur = all.skip(pos as int);
        let ghost before = done_lines.map_values(|l: Seq<char>| strip_cr(l));
        match crate::text::find_newline(&cs, pos) {
            None => {
                assert(split_lines(cur) == (Seq::<Seq<char>>::empty(), cur));
                assert(done_lines + Seq::<Seq<char>>::empty() =~= done_lines);
                if pos < n {
                    let ghost lines = done_lines.push(cur);
                    if k > 0 {
                        append(&mut out, "\n");
                    }
                    push_row(&mut out, k + 1, &cs, pos, n);
                    assert(cur =~= cs@.subrange(pos as int, n as int));
                    let ghost mapped = lines.map_values(|l: Seq<char>| strip_cr(l));
                    assert(mapped.drop_last() =~= before);
                    assert(text_lines(all) == mapped);
                } else {
                    assert(cur.len() == 0);
                    assert(text_lines(all) == before);
                }
                return out;
            },
            Some(j) => {
                let ghost i = j - pos;
                assert(cur.take(i) =~= cs@.subrange(pos as int, j as int));
                assert(cur.skip(i + 1) =~= all.skip(j + 1));
                let ghost line = cur.take(i);
                let ghost next_lines = done_lines.push(line);
                assert(next_lines + split_lines(all.skip(j + 1)).0 =~= done_lines + (seq![line]
                    + split_lines(all.skip(j + 1)).0));
                if k > 0 {
                    append(&mut out, "\n");
                }
                push_row(&mut out, k + 1, &cs, pos, j);
                let ghost mapped = next_lines.map_values(|l: Seq<char>| strip_cr(l));
                assert(mapped.drop_last() =~= before);
                proof {
                    done_lines = next_lines;
                }
                k = k + 1;
                pos = j + 1;
            },
        }
    }
}

/// The texts joined, one per line.
pub open spec fn join_lines(v: Seq<String>) -> Seq<char>
    decreases v.len(),
{
    if v.len() == 0 {
        Seq::empty()
    } else if v.len() == 1 {
        v[0]@
    } else {
        join_lines(v.drop_last()) + "\n"@ + v.last()@
    }
}

/// `i` in decimal, with a minus sign when negative.
pub open spec fn signed_decimal(i: int) -> Seq<char> {
    if i < 0 {
        "-"@ + decimal((-i) as nat)
    } else {
        decimal(i as nat)
    }
}

/// Standard output, then standard error under a marker, or a note that there was neither.
pub open spec fn combined_output(out: CommandOutput) -> Seq<char> {
    let err_part = if out.stderr@.len() > 0 {
        (if out.stdout@.len() > 0 {
            "\n"@
        } else {
            Seq::empty()
        }) + "[stderr]\n"@ + out.stderr@
    } else {
        Seq::empty()
    };
    let c = out.stdout@ + err_part;
    if c.len() == 0 {
        "(no output)"@
    } else {
        c
    }
}

/// The result a tool reports: whether it succeeded, and its text.
pub open spec fn report(t: Tool, o: ToolOutcome, timeout_ms: u64) -> (bool, Seq<char>) {
    match t {
        Tool::ReadFile { path } => match o {
            ToolOutcome::NotFound => (false, "File not found: "@ + path@),
            ToolOutcome::Failed(e) => (false, "Failed to read "@ + path@ + ": "@ + e@),
            ToolOutcome::Contents(c) => (true, numbered(text_lines(c@))),
            _ => (false, Seq::empty()),
        },
        Tool::WriteFile { path, content } => match o {
            ToolOutcome::DirFailed(d, e) => (false, "Failed to create directory "@ + d@ + ": "@ + e@),
            ToolOutcome::CreateFailed(e) => (false, "Failed to create "@ + path@ + ": "@ + e@),
            ToolOutcome::Failed(e) => (false, "Failed to write "@ + path@ + ": "@ + e@),
            ToolOutcome::Written => (true, "Wrote "@ + decimal(byte_len(content@) as nat) + " bytes to "@
                + path@),
            _ => (false, Seq::empty()),
        },
        Tool::ListFiles { path, .. } => match o {
            ToolOutcome::NotFound => (false, "Directory not found: "@ + path@),
            ToolOutcome::BadPattern(e) => (false, "Invalid glob pattern: "@ + e@),
            ToolOutcome::Listed(v) => if v@.len() == 0 {
                (true, "No files matched the pattern."@)
            } else {
                (true, join_lines(v@))
            },
            _ => (false, Seq::empty()),
        },
        Tool::SearchFiles { .. } => match o {
            ToolOutcome::SpawnFailed(p, e) => (false, "Failed to run "@ + p@ + ": "@ + e@),
            ToolOutcome::Searched(p, out) => if out.success || out.stdout@.len() > 0 {
                (true, if out.stdout@.len() == 0 {
                    "No matches found."@
                } else {
                    out.stdout@
                })
            } else if out.code == Some(1i32) && out.stderr@.len() == 0 {
                (true, "No matches found."@)
            } else {
                (false, p@ + " error: "@ + out.stderr@)
            },
            _ => (false, Seq::empty()),
        },
        Tool::Execute { .. } => match o {
            ToolOutcome::SpawnFailed(_, e) => (false, "Failed to spawn command: "@ + e@),
            ToolOutcome::Failed(e) => (false, "Error waiting for process: "@ + e@),
            ToolOutcome::TimedOut => (false, "Command timed out after "@ + decimal(
                (timeout_ms / 1000) as nat,
            ) + " seconds"@),
            ToolOutcome::Ran(out) => if out.success {
                (true, combined_output(out))
            } else {
                (false, "Exit code "@ + signed_decimal(
                    match out.code {
                        Some(c) => c as int,
                        None => -1,
                    },
                ) + "\n"@ + combined_output(out))
            },
            _ => (false, Seq::empty()),
        },
        Tool::Unknown { name } => (false, "Unknown tool: "@ + name@),
        Tool::EditFile { path, old_text, new_text } => match o {
            ToolOutcome::NotFound => (false, "File not found: "@ + path@),
            ToolOutcome::Failed(e) => (false, "Failed to read "@ + path@ + ": "@ + e@),
            ToolOutcome::Edited(c, w) => {
                let n = count_matches(c@, old_text@);
                if n == 0 {
                    (false, "old_text not found in "@ + path@)
                } else if n > 1 {
                    (false, "old_text matches "@ + decimal(n) + " locations in "@ + path@
                        + " -- provide more context to make it unique"@)
                } else {
                    match w {
                        None => (true, "Applied edit to "@ + path@ + " (replaced 1 occurrence)"@),
                        Some(e) => (false, "Failed to write "@ + path@ + ": "@ + e@),
                    }
                }
            },
            _ => (false, Seq::empty()),
        },
    }
}

fn joined(v: &Vec<String>) -> (r: String)
    ensures
        r@ == join_lines(v@),
{
    let mut r = String::new();
    let mut i: usize = 0;
    while i < v.len()
        invariant
            i <= v@.len(),
            r@ == join_lines(v@.take(i as int)),
        decreases v@.len() - i,
    {
        assert(v@.take(i + 1).drop_last() =~= v@.take(i as int));
        if i > 0 {
            append(&mut r, "\n");
        }
        append(&mut r, v[i].as_str());
        i = i + 1;
    }
    assert(v@.take(v@.len() as int) =~= v@);
    r
}

fn signed_string(i: i32) -> (r: String)
    ensures
        r@ == signed_decimal(i as int),
{
    if i < 0 {
        let mut r = "-".to_owned();
        let d = decimal_string((-(i as i64)) as u64);
        append(&mut r, d.as_str());
        r
    } else {
        decimal_string(i as u64)
    }
}

fn combine(out: &CommandOutput) -> (r: String)
    ensures
        r@ == combined_output(*out),
{
    let mut c = out.stdout.clone();
    if !out.stderr.as_str().is_empty() {
        if !c.as_str().is_empty() {
            append(&mut c, "\n");
        } else {
            assert(c@ + Seq::<char>::empty() =~= c@);
        }
        append(&mut c, "[stderr]\n");
        append(&mut c, out.stderr.as_str());
    } else {
        assert(c@ + Seq::<char>::empty() =~= c@);
    }
    if c.as_str().is_empty() {
        "(no output)".to_owned()
    } else {
        c
    }
}

fn msg2(a: &str, b: &str) -> (r: String)
    ensures
        r@ == a@ + b@,
{
    let mut r = a.to_owned();
    append(&mut r, b);
    r
}

fn msg4(a: &str, b: &str, c: &str, d: &str) -> (r: String)
    ensures
        r@ == a@ + b@ + c@ + d@,
{
    let mut r = a.to_owned();
    append(&mut r, b);
    append(&mut r, c);
    append(&mut r, d);
    r
}

fn read_report(path: &String, o: &ToolOutcome) -> (r: ToolResult)
    requires
        outcome_fits(Tool::ReadFile { path: *path }, *o),
    ensures
        (r.success, r.output@) == report(Tool::ReadFile { path: *path }, *o, 0),
{
    match o {
        ToolOutcome::NotFound => ToolResult::err(msg2("File not found: ", path.as_str())),
        ToolOutcome::Failed(e) => ToolResult::err(msg4("Failed to read ", path.as_str(), ": ", e.as_str())),
        ToolOutcome::Contents(c) => ToolResult::ok(number_lines(c.as_str())),
        _ => ToolResult::err(String::new()),
    }
}

fn write_report(path: &String, content: &String, o: &ToolOutcome) -> (r: ToolResult)
    requires
        outcome_fits(Tool::WriteFile { path: *path, content: *content }, *o),
    ensures
        (r.success, r.output@) == report(Tool::WriteFile { path: *path, content: *content }, *o, 0),
{
    match o {
        ToolOutcome::DirFailed(d, e) => ToolResult::err(
            msg4("Failed to create directory ", d.as_str(), ": ", e.as_str()),
        ),
        ToolOutcome::CreateFailed(e) => ToolResult::err(
            msg4("Failed to create ", path.as_str(), ": ", e.as_str()),
        ),
        ToolOutcome::Failed(e) => ToolResult::err(
            msg4("Failed to write ", path.as_str(), ": ", e.as_str()),
        ),
        ToolOutcome::Written => {
            let n = decimal_string(content.as_str().len() as u64);
            ToolResult::ok(msg4("Wrote ", n.as_str(), " bytes to ", path.as_str()))
        },
        _ => ToolResult::err(String::new()),
    }
}

fn list_report(t: &Tool, path: &String, o: &ToolOutcome) -> (r: ToolResult)
    requires
        *t is ListFiles,
        t->ListFiles_path == *path,
        outcome_fits(*t, *o),
    ensures
        (r.success, r.output@) == report(*t, *o, 0),
{
    match o {
        ToolOutcome::NotFound => ToolResult::err(msg2("Directory not found: ", path.as_str())),
        ToolOutcome::BadPattern(e) => ToolResult::err(msg2("Invalid glob pattern: ", e.as_str())),
        ToolOutcome::Listed(v) => {
            if v.len() == 0 {
                ToolResult::ok("No files matched the pattern.".to_owned())
            } else {
                ToolResult::ok(joined(v))
            }
        },
        _ => ToolResult::err(String::new()),
    }
}

fn search_report(t: &Tool, o: &ToolOutcome) -> (r: ToolResult)
    requires
        *t is SearchFiles,
        outcome_fits(*t, *o),
    ensures
        (r.success, r.output@) == report(*t, *o, 0),
{
    match o {
        ToolOutcome::SpawnFailed(p, e) => ToolResult::err(
            msg4("Failed to run ", p.as_str(), ": ", e.as_str()),
        ),
        ToolOutcome::Searched(p, out) => {
            if out.success || !out.stdout.as_str().is_empty() {
                if out.stdout.as_str().is_empty() {
                    ToolResult::ok("No matches found.".to_owned())
                } else {
                    ToolResult::ok(out.stdout.clone())
                }
            } else if out.code == Some(1i32) && out.stderr.as_str().is_empty() {
                ToolResult::ok("No matches found.".to_owned())
            } else {
                let mut m = p.clone();
                append(&mut m, " error: ");
                append(&mut m, out.stderr.as_str());
                ToolResult::err(m)
            }
        },
        _ => ToolResult::err(String::new()),
    }
}

fn command_report(t: &Tool, o: &ToolOutcome, timeout_ms: u64) -> (r: ToolResult)
    requires
        *t is Execute,
        outcome_fits(*t, *o),
    ensures
        (r.success, r.output@) == report(*t, *o, timeout_ms),
{
    match o {
        ToolOutcome::SpawnFailed(_, e) => ToolResult::err(msg2("Failed to spawn command: ", e.as_str())),
        ToolOutcome::Failed(e) => ToolResult::err(msg2("Error waiting for process: ", e.as_str())),
        ToolOutcome::TimedOut => {
            let n = decimal_string(timeout_ms / 1000);
            let mut m = msg2("Command timed out after ", n.as_str());
            append(&mut m, " seconds");
            ToolResult::err(m)
        },
        ToolOutcome::Ran(out) => {
            let c = combine(out);
            if out.success {
                ToolResult::ok(c)
            } else {
                let code = match out.code {
                    Some(k) => k,
                    None => -1i32,
                };
                let sc = signed_string(code);
                ToolResult::err(msg4("Exit code ", sc.as_str(), "\n", c.as_str()))
            }
        },
        _ => ToolResult::err(String::new()),
    }
}

fn edit_report(t: &Tool, o: &ToolOutcome) -> (r: ToolResult)
    requires
        *t is EditFile,
        outcome_fits(*t, *o),
    ensures
        (r.success, r.output@) == report(*t, *o, 0),
{
    let (path, old_text, new_text) = match t {
        Tool::EditFile { path, old_text, new_text } => (path, old_text, new_text),
        _ => {
            return ToolResult::err(String::new());
        },
    };
    match o {
        ToolOutcome::NotFound => ToolResult::err(msg2("File not found: ", path.as_str())),
        ToolOutcome::Failed(e) => ToolResult::err(msg4("Failed to read ", path.as_str(), ": ", e.as_str())),
        ToolOutcome::Edited(c, w) => match edit_plan(c.as_str(), old_text.as_str(), new_text.as_str()) {
            Err(EditFailure::NotFound) => ToolResult::err(msg2("old_text not found in ", path.as_str())),
            Err(EditFailure::Ambiguous(n)) => {
                let d = decimal_string(n as u64);
                let mut m = msg4("old_text matches ", d.as_str(), " locations in ", path.as_str());
                append(&mut m, " -- provide more context to make it unique");
                ToolResult::err(m)
            },
            Ok(_) => match w {
                None => {
                    let mut m = msg2("Applied edit to ", path.as_str());
                    append(&mut m, " (replaced 1 occurrence)");
                    ToolResult::ok(m)
                },
                Some(e) => ToolResult::err(msg4("Failed to write ", path.as_str(), ": ", e.as_str())),
            },
        },
        _ => ToolResult::err(String::new()),
    }
}

impl ToolExecutor {
    /// The result of `tool`, from what the environment answered to its I/O.
    pub fn execute(&self, tool: &Tool, outcome: &ToolOutcome) -> (r: ToolResult)
        requires
            outcome_fits(*tool, *outcome),
        ensures
            (r.success, r.output@) == report(*tool, *outcome, self.timeout_ms()),
    {
        match tool {
            Tool::ReadFile { path } => read_report(path, outcome),
            Tool::WriteFile { path, content } => write_report(path, content, outcome),
            Tool::ListFiles { path, .. } => list_report(tool, path, outcome),
            Tool::SearchFiles { .. } => search_report(tool, outcome),
            Tool::Execute { .. } => command_report(tool, outcome, self.command_timeout()),
            Tool::EditFile { .. } => edit_report(tool, outcome),
            Tool::Unknown { name } => ToolResult::err(msg2("Unknown tool: ", name.as_str())),
        }
    }
}

/// The glob pattern that `list_files` matches: `pattern` under `path`, or every path below it.
pub open spec fn glob_spec(path: Seq<char>, pattern: Option<Seq<char>>) -> Seq<char> {
    match pattern {
        Some(p) => path + "/"@ + p,
        None => path + "/**/*"@,
    }
}

/// The glob pattern that `list_files` matches.
pub fn glob_pattern(path: &str, pattern: Option<&String>) -> (r: String)
    ensures
        r@ == glob_spec(
            path@,
            match pattern {
                Some(p) => Some(p@),
                None => None,
            },
        ),
{
    match pattern {
        Some(p) => {
            let mut r = msg2(path, "/");
            append(&mut r, p.as_str());
            r
        },
        None => msg2(path, "/**/*"),
    }
}

/// The program and arguments that search file contents: ripgrep when it is
/// installed, else grep; the path defaults to the current directory.
pub fn search_command(pattern: &str, path: Option<&String>, has_rg: bool) -> (r: (String, Vec<String>))
    ensures
        has_rg ==> r.0@ == "rg"@ && r.1@.len() == 5 && r.1@[0]@ == "--line-number"@ && r.1@[1]@
            == "--no-heading"@ && r.1@[2]@ == "--color=never"@ && r.1@[3]@ == pattern@,
        !has_rg ==> r.0@ == "grep"@ && r.1@.len() == 4 && r.1@[0]@ == "-rn"@ && r.1@[1]@
            == "--color=never"@ && r.1@[2]@ == pattern@,
        r.1@.last()@ == match path {
            Some(p) => p@,
            None => "."@,
        },
{
    let where_ = match path {
        Some(p) => p.clone(),
        None => ".".to_owned(),
    };
    let mut args: Vec<String> = Vec::new();
    if has_rg {
        args.push("--line-number".to_owned());
        args.push("--no-heading".to_owned());
        args.push("--color=never".to_owned());
        args.push(pattern.to_owned());
        args.push(where_);
        ("rg".to_owned(), args)
    } else {
        args.push("-rn".to_owned());
        args.push("--color=never".to_owned());
        args.push(pattern.to_owned());
        args.push(where_);
        ("grep".to_owned(), args)
    }
}

/// Interval between two checks on a running command, in milliseconds.
pub const POLL_INTERVAL_MS: u64 = 100;

/// What to do while waiting for a command.
#[derive(Debug, Clone, Copy, PartialEq, Eq, Structural)]
pub enum PollAction {
    /// It exited: collect its output.
    Collect,
    /// It ran past the timeout: kill and reap it, and report a timeout.
    Kill,
    /// Check again after this many milliseconds.
    Sleep(u64),
}

/// One check on a running command: whether it exited, and how long it has run.
pub fn poll_decision(exited: bool, elapsed_ms: u64, timeout_ms: u64) -> (r: PollAction)
    ensures
        exited ==> r == PollAction::Collect,
        !exited && elapsed_ms >= timeout_ms ==> r == PollAction::Kill,
        !exited && elapsed_ms < timeout_ms ==> r == PollAction::Sleep(POLL_INTERVAL_MS),
{
    if exited {
        PollAction::Collect
    } else if elapsed_ms >= timeout_ms {
        PollAction::Kill
    } else {
        PollAction::Sleep(POLL_INTERVAL_MS)
    }
}

} // verus!
