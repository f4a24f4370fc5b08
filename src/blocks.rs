//! Fenced code blocks of an answer: their language tag and their code.

use vstd::prelude::*;
use crate::app::App;
use crate::history::Role;
use crate::text::{chars_of, has_prefix_in, skip_ws_backward, skip_ws_forward, string_from, trim};

verus! {

/// The fence that opens and closes a code block.
pub open spec fn fence() -> Seq<char> {
    "```"@
}

/// Index of the first occurrence of `p` in `s` at or after `from`.
pub open spec fn find_from(s: Seq<char>, p: Seq<char>, from: int) -> Option<int>
    decreases s.len() - from,
{
    if from < 0 || from + p.len() > s.len() || from >= s.len() {
        None
    } else if s.subrange(from, from + p.len()) == p {
        Some(from)
    } else {
        find_from(s, p, from + 1)
    }
}

/// Index of the first line feed at or after `from`, or the length.
pub open spec fn newline_from(s: Seq<char>, from: int) -> int
    decreases s.len() - from,
{
    if from >= s.len() {
        s.len() as int
    } else if s[from] == '\n' {
        from
    } else {
        newline_from(s, from + 1)
    }
}

/// `s` without its trailing line feeds.
pub open spec fn strip_newlines(s: Seq<char>) -> Seq<char>
    decreases s.len(),
{
    if s.len() > 0 && s.last() == '\n' {
        strip_newlines(s.drop_last())
    } else {
        s
    }
}

/// The code blocks of `s` from position `from` on, as (language, code): a fence, the
/// language tag on the rest of its line, then the code up to the next fence. A fence
/// that is never closed ends the search.
pub open spec fn fenced_blocks(s: Seq<char>, from: int) -> Seq<(Seq<char>, Seq<char>)>
    decreases s.len() - from,
{
    match find_from(s, fence(), from) {
        None => seq![],
        Some(f) => {
            let a = f + 3;
            let le = newline_from(s, a);
            let start = if le < s.len() {
                le + 1
            } else {
                le
            };
            match find_from(s, fence(), start) {
                None => seq![],
                Some(c) => if from < c + 3 <= s.len() && a <= le <= s.len() && start <= c {
                    seq![(trim(s.subrange(a, le)), strip_newlines(s.subrange(start, c)))]
                        + fenced_blocks(s, c + 3)
                } else {
                    seq![]
                },
            }
        },
    }
}

proof fn lemma_find_from_bounds(s: Seq<char>, p: Seq<char>, from: int)
    ensures
        find_from(s, p, from) is Some ==> from <= find_from(s, p, from)->0 && find_from(
            s,
            p,
            from,
        )->0 + p.len() <= s.len(),
    decreases s.len() - from,
{
    if !(from < 0 || from + p.len() > s.len() || from >= s.len()) && s.subrange(from, from + p.len()) != p {
        lemma_find_from_bounds(s, p, from + 1);
    }
}

fn find_fence(cs: &Vec<char>, from: usize) -> (r: Option<usize>)
    requires
        from <= cs@.len(),
    ensures
        match r {
            Some(i) => find_from(cs@, fence(), from as int) == Some(i as int) && i + 3 <= cs@.len(),
            None => find_from(cs@, fence(), from as int) is None,
        },
{
    proof {
        reveal_strlit("```");
    }
    let n = cs.len();
    let mut i = from;
    while i < n && n - i >= 3
        invariant
            n == cs@.len(),
            from <= i <= n,
            find_from(cs@, fence(), from as int) == find_from(cs@, fence(), i as int),
        decreases n - i,
    {
        proof {
            reveal_strlit("```");
        }
        if has_prefix_in(cs, i, n, "```") {
            assert(cs@.subrange(i as int, n as int).subrange(0, 3) =~= cs@.subrange(i as int, i + 3));
            return Some(i);
        }
        assert(cs@.subrange(i as int, n as int).subrange(0, 3) =~= cs@.subrange(i as int, i + 3));
        i = i + 1;
    }
    None
}

fn find_newline_from(cs: &Vec<char>, from: usize) -> (r: usize)
    requires
        from <= cs@.len(),
    ensures
        r as int == newline_from(cs@, from as int),
        from <= r <= cs@.len(),
{
    let mut i = from;
    while i < cs.len() && cs[i] != '\n'
        invariant
            from <= i <= cs@.len(),
            newline_from(cs@, from as int) == newline_from(cs@, i as int),
        decreases cs@.len() - i,
    {
        i = i + 1;
    }
    i
}

fn strip_end_newlines(cs: &Vec<char>, from: usize, to: usize) -> (r: String)
    requires
        from <= to <= cs@.len(),
    ensures
        r@ == strip_newlines(cs@.subrange(from as int, to as int)),
{
    let mut j = to;
    while j > from && cs[j - 1] == '\n'
        invariant
            from <= j <= to <= cs@.len(),
            strip_newlines(cs@.subrange(from as int, to as int)) == strip_newlines(
                cs@.subrange(from as int, j as int),
            ),
        decreases j - from,
    {
        assert(cs@.subrange(from as int, j as int).drop_last() =~= cs@.subrange(from as int, j - 1));
        j = j - 1;
    }
    string_from(cs, from, j)
}

/// The fenced code blocks of `text`, in order, as (language, code).
pub fn code_blocks(text: &str) -> (r: Vec<(String, String)>)
    ensures
        r@.len() == fenced_blocks(text@, 0).len(),
        forall|i: int|
            0 <= i < r@.len() ==> (#[trigger] r@[i]).0@ == fenced_blocks(text@, 0)[i].0 && r@[i].1@
                == fenced_blocks(text@, 0)[i].1,
{
    let cs = chars_of(text);
    let n = cs.len();
    let mut out: Vec<(String, String)> = Vec::new();
    let mut from: usize = 0;
    loop
        invariant
            n == cs@.len(),
            cs@ == text@,
            from <= n,
            fenced_blocks(cs@, 0) == out@.map_values(|b: (String, String)| (b.0@, b.1@))
                + fenced_blocks(cs@, from as int),
        ensures
            fenced_blocks(cs@, 0) == out@.map_values(|b: (String, String)| (b.0@, b.1@)),
        decreases n - from,
    {
        let ghost before = out@.map_values(|b: (String, String)| (b.0@, b.1@));
        let f = match find_fence(&cs, from) {
            Some(f) => f,
            None => {
                assert(fenced_blocks(cs@, from as int).len() == 0);
                assert(before + fenced_blocks(cs@, from as int) =~= before);
                break;
            },
        };
        let a = f + 3;
        let le = find_newline_from(&cs, a);
        let start = if le < n {
            le + 1
        } else {
            le
        };
        let c = match find_fence(&cs, start) {
            Some(c) => c,
            None => {
                assert(fenced_blocks(cs@, from as int).len() == 0);
                assert(before + fenced_blocks(cs@, from as int) =~= before);
                break;
            },
        };
        proof {
            lemma_find_from_bounds(cs@, fence(), from as int);
            lemma_find_from_bounds(cs@, fence(), start as int);
        }
        let x = skip_ws_forward(&cs, a, le);
        let y = skip_ws_backward(&cs, x, le);
        let lang = string_from(&cs, x, y);
        let code = strip_end_newlines(&cs, start, c);
        out.push((lang, code));
        let ghost after = out@.map_values(|b: (String, String)| (b.0@, b.1@));
        assert(after =~= before.push((trim(cs@.subrange(a as int, le as int)), strip_newlines(
            cs@.subrange(start as int, c as int),
        ))));
        assert(after + fenced_blocks(cs@, c + 3) =~= before + fenced_blocks(cs@, from as int));
        from = c + 3;
    }
    assert(out@.map_values(|b: (String, String)| (b.0@, b.1@)) == fenced_blocks(text@, 0));
    out
}

/// The code blocks of the answers in a transcript, each with the index of its entry.
pub open spec fn transcript_blocks(ms: Seq<crate::app::ChatMessage>) -> Seq<(int, Seq<char>, Seq<char>)>
    decreases ms.len(),
{
    if ms.len() == 0 {
        seq![]
    } else {
        let earlier = transcript_blocks(ms.drop_last());
        let k = ms.len() - 1;
        if ms.last().role == Role::Assistant {
            earlier + fenced_blocks(ms.last().content@, 0).map_values(
                |b: (Seq<char>, Seq<char>)| (k, b.0, b.1),
            )
        } else {
            earlier
        }
    }
}

/// The view of a stored code block.
pub open spec fn block_view(b: (usize, String, String)) -> (int, Seq<char>, Seq<char>) {
    (b.0 as int, b.1@, b.2@)
}

impl App {
    /// Collects the fenced code blocks of every answer, in transcript order.
    pub fn extract_code_blocks(&mut self)
        ensures
            final(self).code_blocks@.map_values(|b: (usize, String, String)| block_view(b))
                == transcript_blocks(final(self).messages@),
            final(self).messages == old(self).messages,
    {
        let mut found: Vec<(usize, String, String)> = Vec::new();
        let mut i: usize = 0;
        while i < self.messages.len()
            invariant
                i <= self.messages@.len(),
                found@.map_values(|b: (usize, String, String)| block_view(b)) == transcript_blocks(
                    self.messages@.take(i as int),
                ),
            decreases self.messages@.len() - i,
        {
            let ghost before = found@.map_values(|b: (usize, String, String)| block_view(b));
            assert(self.messages@.take(i + 1).drop_last() =~= self.messages@.take(i as int));
            assert(self.messages@.take(i + 1).last() == self.messages@[i as int]);
            if self.messages[i].role == Role::Assistant {
                let bs = code_blocks(self.messages[i].content.as_str());
                let ghost spec_bs = fenced_blocks(self.messages@[i as int].content@, 0);
                let mut k: usize = 0;
                while k < bs.len()
                    invariant
                        k <= bs@.len(),
                        bs@.len() == spec_bs.len(),
                        forall|q: int|
                            0 <= q < bs@.len() ==> (#[trigger] bs@[q]).0@ == spec_bs[q].0 && bs@[q].1@
                                == spec_bs[q].1,
                        found@.map_values(|b: (usize, String, String)| block_view(b)) == before
                            + spec_bs.take(k as int).map_values(
                            |b: (Seq<char>, Seq<char>)| (i as int, b.0, b.1),
                        ),
                    decreases bs@.len() - k,
                {
                    let ghost prev = found@;
                    found.push((i, bs[k].0.clone(), bs[k].1.clone()));
                    assert(found@.drop_last() =~= prev);
                    assert(block_view(found@.last()) == (i as int, spec_bs[k as int].0, spec_bs[k as int].1));
                    assert(spec_bs.take(k + 1).map_values(|b: (Seq<char>, Seq<char>)| (i as int, b.0, b.1))
                        =~= spec_bs.take(k as int).map_values(|b: (Seq<char>, Seq<char>)| (i as int, b.0, b.1)).push(
                        (i as int, spec_bs[k as int].0, spec_bs[k as int].1)));
                    let ghost fv = found@.map_values(|b: (usize, String, String)| block_view(b));
                    let ghost pv = prev.map_values(|b: (usize, String, String)| block_view(b));
                    assert(fv =~= pv.push(block_view(found@.last())));
                    let ghost xs = spec_bs.take(k as int).map_values(|b: (Seq<char>, Seq<char>)| (i as int, b.0, b.1));
                    assert((before + xs).push(block_view(found@.last())) =~= before + xs.push(block_view(found@.last())));
                    assert(found@.map_values(|b: (usize, String, String)| block_view(b)) =~= before
                        + spec_bs.take(k + 1).map_values(
                        |b: (Seq<char>, Seq<char>)| (i as int, b.0, b.1),
                    ));
                    k = k + 1;
                }
                assert(spec_bs.take(spec_bs.len() as int) =~= spec_bs);
            }
            i = i + 1;
        }
        assert(self.messages@.take(self.messages@.len() as int) =~= self.messages@);
        self.code_blocks = found;
    }
}

} // verus!
