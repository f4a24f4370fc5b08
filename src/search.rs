//! Searching and scrolling the transcript.

use vstd::prelude::*;
use crate::app::App;
use crate::text::{append, chars_of, decimal, decimal_string, has_prefix_in};

verus! {

/// What lower-casing makes of a text.
pub uninterp spec fn lower_of(s: Seq<char>) -> Seq<char>;

/// Relies on `str::to_lowercase`: the result depends on the characters alone.
#[verifier::external_body]
fn lowercase(s: &str) -> (r: String)
    ensures
        r@ == lower_of(s@),
{
    s.to_lowercase()
}

/// Whether `needle` occurs in `hay`.
pub open spec fn occurs(hay: Seq<char>, needle: Seq<char>) -> bool {
    exists|i: int| 0 <= i && i + needle.len() <= hay.len() && #[trigger] hay.subrange(i, i + needle.len()) == needle
}

/// Whether `needle` occurs in `hay`.
pub fn contains_text(hay: &str, needle: &str) -> (r: bool)
    ensures
        r == occurs(hay@, needle@),
{
    let hs = chars_of(hay);
    let ns = chars_of(needle);
    let n = hs.len();
    let m = ns.len();
    if m == 0 {
        assert(hay@.subrange(0, 0 + needle@.len() as int) =~= needle@);
        return true;
    }
    if m > n {
        return false;
    }
    let mut i: usize = 0;
    while i <= n - m
        invariant
            n == hs@.len(),
            m == ns@.len(),
            1 <= m <= n,
            i <= n - m + 1,
            hs@ == hay@,
            ns@ == needle@,
            forall|k: int| 0 <= k < i ==> #[trigger] hs@.subrange(k, k + m) != ns@,
        decreases n - m + 1 - i,
    {
        assert(hs@.subrange(i as int, n as int).subrange(0, m as int) =~= hs@.subrange(i as int, i + m));
        if has_prefix_in(&hs, i, n, needle) {
            return true;
        }
        i = i + 1;
    }
    false
}

/// Whether entry content `content` matches the search `query`, ignoring case.
pub open spec fn entry_matches(content: Seq<char>, query: Seq<char>) -> bool {
    occurs(lower_of(content), lower_of(query))
}

/// The entries of `contents` that match `query`, by index, in order.
pub open spec fn matching(contents: Seq<Seq<char>>, query: Seq<char>) -> Seq<usize>
    decreases contents.len(),
{
    if contents.len() == 0 {
        seq![]
    } else if entry_matches(contents.last(), query) {
        matching(contents.drop_last(), query).push((contents.len() - 1) as usize)
    } else {
        matching(contents.drop_last(), query)
    }
}

/// `/query: match k/n`.
pub open spec fn match_status(query: Seq<char>, k: nat, n: nat) -> Seq<char> {
    "/"@ + query + ": match "@ + decimal(k) + "/"@ + decimal(n)
}

impl App {
    /// The contents of the transcript entries.
    pub open spec fn contents(&self) -> Seq<Seq<char>> {
        self.messages@.map_values(|m: crate::app::ChatMessage| m.content@)
    }

    fn show_match_status(&mut self)
        requires
            old(self).search_match_idx < old(self).search_matches@.len(),
        ensures
            final(self).status_message is Some,
            final(self).status_message->0@ == match_status(
                old(self).search_query@,
                (old(self).search_match_idx + 1) as nat,
                old(self).search_matches@.len(),
            ),
            final(self).search_matches == old(self).search_matches,
            final(self).search_match_idx == old(self).search_match_idx,
            final(self).scroll_offset == old(self).scroll_offset,
            final(self).messages == old(self).messages,
    {
        let total = self.search_matches.len();
        let mut m = "/".to_owned();
        append(&mut m, self.search_query.as_str());
        append(&mut m, ": match ");
        let k = decimal_string((self.search_match_idx + 1) as u64);
        append(&mut m, k.as_str());
        append(&mut m, "/");
        let n = decimal_string(total as u64);
        append(&mut m, n.as_str());
        self.status_message = Some(m);
    }

    /// Scrolls to where the `k`-th match is estimated to be.
    fn scroll_to_match(&mut self, k: usize)
        ensures
            k < old(self).search_matches@.len() ==> final(self).scroll_offset == if old(
                self,
            ).search_matches@[k as int] <= usize::MAX / 4 {
                (old(self).search_matches@[k as int] * 4) as usize
            } else {
                usize::MAX
            },
            k >= old(self).search_matches@.len() ==> final(self).scroll_offset == old(
                self,
            ).scroll_offset,
            final(self).search_matches == old(self).search_matches,
            final(self).search_match_idx == old(self).search_match_idx,
            final(self).search_query == old(self).search_query,
            final(self).messages == old(self).messages,
    {
        if k < self.search_matches.len() {
            let m = self.search_matches[k];
            self.scroll_offset = if m <= usize::MAX / 4 {
                m * 4
            } else {
                usize::MAX
            };
        }
    }

    /// Finds the entries whose text contains the query, ignoring case, and shows the first.
    pub fn execute_search(&mut self)
        ensures
            old(self).search_query@.len() == 0 ==> final(self).search_matches@.len() == 0,
            old(self).search_query@.len() > 0 ==> final(self).search_matches@ == matching(
                old(self).contents(),
                old(self).search_query@,
            ),
            final(self).search_match_idx == 0,
            final(self).messages == old(self).messages,
    {
        self.search_matches = Vec::new();
        self.search_match_idx = 0;
        if self.search_query.as_str().is_empty() {
            return;
        }
        let q = lowercase(self.search_query.as_str());
        let mut i: usize = 0;
        while i < self.messages.len()
            invariant
                i <= self.messages@.len(),
                q@ == lower_of(self.search_query@),
                self.search_query == old(self).search_query,
                self.messages == old(self).messages,
                self.search_match_idx == 0,
                self.search_matches@ == matching(self.contents().take(i as int), self.search_query@),
            decreases self.messages@.len() - i,
        {
            let ghost cs = self.contents();
            assert(cs.take(i + 1).drop_last() =~= cs.take(i as int));
            assert(cs.take(i + 1).last() == self.messages@[i as int].content@);
            let t = lowercase(self.messages[i].content.as_str());
            if contains_text(t.as_str(), q.as_str()) {
                self.search_matches.push(i);
            }
            i = i + 1;
        }
        assert(self.contents().take(self.messages@.len() as int) =~= self.contents());
        if self.search_matches.len() > 0 {
            self.scroll_to_match(0);
            self.show_match_status();
        } else {
            let mut m = "Pattern not found: ".to_owned();
            append(&mut m, self.search_query.as_str());
            self.status_message = Some(m);
        }
    }

    /// Shows the next match, wrapping around after the last.
    pub fn next_search_match(&mut self)
        requires
            old(self).search_match_idx < old(self).search_matches@.len() || old(self).search_matches@.len() == 0,
        ensures
            old(self).search_matches@.len() == 0 ==> final(self).search_match_idx == old(self).search_match_idx,
            old(self).search_matches@.len() > 0 ==> final(self).search_match_idx as int == (
            old(self).search_match_idx as int + 1) % (old(self).search_matches@.len() as int),
            final(self).search_matches == old(self).search_matches,
    {
        let n = self.search_matches.len();
        if n == 0 {
            return;
        }
        self.search_match_idx = (self.search_match_idx + 1) % n;
        self.scroll_to_match(self.search_match_idx);
        self.show_match_status();
    }

    /// Shows the previous match, wrapping around before the first.
    pub fn prev_search_match(&mut self)
        requires
            old(self).search_match_idx < old(self).search_matches@.len() || old(self).search_matches@.len() == 0,
        ensures
            old(self).search_matches@.len() == 0 ==> final(self).search_match_idx == old(self).search_match_idx,
            old(self).search_matches@.len() > 0 ==> final(self).search_match_idx == if old(self).search_match_idx == 0 {
                (old(self).search_matches@.len() - 1) as usize
            } else {
                (old(self).search_match_idx - 1) as usize
            },
            final(self).search_matches == old(self).search_matches,
    {
        let n = self.search_matches.len();
        if n == 0 {
            return;
        }
        if self.search_match_idx == 0 {
            self.search_match_idx = n - 1;
        } else {
            self.search_match_idx = self.search_match_idx - 1;
        }
        self.scroll_to_match(self.search_match_idx);
        self.show_match_status();
    }

    /// Scrolls `n` lines down.
    pub fn scroll_down(&mut self, n: usize)
        ensures
            final(self).scroll_offset == if old(self).scroll_offset + n > usize::MAX {
                usize::MAX
            } else {
                (old(self).scroll_offset + n) as usize
            },
    {
        self.scroll_offset = if self.scroll_offset > usize::MAX - n {
            usize::MAX
        } else {
            self.scroll_offset + n
        };
    }

    /// Scrolls `n` lines up, and stops following new text.
    pub fn scroll_up(&mut self, n: usize)
        ensures
            final(self).scroll_offset == if old(self).scroll_offset < n {
                0
            } else {
                (old(self).scroll_offset - n) as usize
            },
            !final(self).auto_scroll,
    {
        self.scroll_offset = if self.scroll_offset < n {
            0
        } else {
            self.scroll_offset - n
        };
        self.auto_scroll = false;
    }

    /// Scrolls to the bottom, and follows new text again.
    pub fn scroll_to_bottom(&mut self)
        ensures
            final(self).scroll_offset == usize::MAX,
            final(self).auto_scroll,
    {
        self.scroll_offset = usize::MAX;
        self.auto_scroll = true;
    }

    /// Scrolls to the top.
    pub fn scroll_to_top(&mut self)
        ensures
            final(self).scroll_offset == 0,
    {
        self.scroll_offset = 0;
    }
}

} // verus!
