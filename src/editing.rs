//! Editing of the input line: insertion, deletion, cursor motion, undo and redo,
//! and recall of earlier messages. Positions count characters.

use vstd::prelude::*;
use crate::app::App;
use crate::text::{chars_of, is_whitespace, is_ws, push_char, string_from, trim_end};

verus! {

/// Most states kept for undo.
pub const UNDO_LIMIT: usize = 100;

/// Index just past the last white space of `s`, or 0.
pub open spec fn after_last_ws(s: Seq<char>) -> int
    decreases s.len(),
{
    if s.len() == 0 {
        0
    } else if is_ws(s.last()) {
        s.len() as int
    } else {
        after_last_ws(s.drop_last())
    }
}

/// Where the word before position `cur` of `s` starts, trailing white space skipped.
pub open spec fn word_start(s: Seq<char>, cur: int) -> int {
    after_last_ws(trim_end(s.take(cur)))
}

/// Index just past the last line feed before position `cur`, or 0.
pub open spec fn line_start(s: Seq<char>, cur: int) -> int
    decreases cur,
{
    if cur <= 0 {
        0
    } else if s[cur - 1] == '\n' {
        cur
    } else {
        line_start(s, cur - 1)
    }
}

/// Index of the first line feed at or after `cur`, or the length.
pub open spec fn line_end(s: Seq<char>, cur: int) -> int
    decreases s.len() - cur,
{
    if cur >= s.len() {
        s.len() as int
    } else if s[cur] == '\n' {
        cur
    } else {
        line_end(s, cur + 1)
    }
}

/// Index of the first character at or after `cur` for which `ws` tells white space
/// (when `ws`) or not (when `!ws`), or the length.
pub open spec fn skip_while(s: Seq<char>, cur: int, ws: bool) -> int
    decreases s.len() - cur,
{
    if cur >= s.len() {
        s.len() as int
    } else if is_ws(s[cur]) != ws {
        cur
    } else {
        skip_while(s, cur + 1, ws)
    }
}

proof fn lemma_after_last_ws_bound(s: Seq<char>)
    ensures
        0 <= after_last_ws(s) <= s.len(),
    decreases s.len(),
{
    if s.len() > 0 && !is_ws(s.last()) {
        lemma_after_last_ws_bound(s.drop_last());
    }
}

proof fn lemma_trim_end_prefix(s: Seq<char>)
    ensures
        trim_end(s).len() <= s.len(),
        trim_end(s) == s.take(trim_end(s).len() as int),
    decreases s.len(),
{
    if s.len() > 0 && is_ws(s.last()) {
        lemma_trim_end_prefix(s.drop_last());
        assert(s.drop_last().take(trim_end(s).len() as int) =~= s.take(trim_end(s).len() as int));
    } else {
        assert(s.take(s.len() as int) =~= s);
    }
}

fn word_start_of(cs: &Vec<char>, cur: usize) -> (r: usize)
    requires
        cur <= cs@.len(),
    ensures
        r as int == word_start(cs@, cur as int),
        r <= cur,
{
    let mut j = cur;
    assert(cs@.take(cur as int).subrange(0, cur as int) =~= cs@.take(cur as int));
    while j > 0 && is_whitespace(cs[j - 1])
        invariant
            j <= cur <= cs@.len(),
            trim_end(cs@.take(cur as int)) == trim_end(cs@.take(j as int)),
        decreases j,
    {
        assert(cs@.take(j as int).drop_last() =~= cs@.take(j - 1));
        j = j - 1;
    }
    let ghost t = cs@.take(j as int);
    assert(trim_end(t) == t);
    let mut k = j;
    while k > 0 && !is_whitespace(cs[k - 1])
        invariant
            k <= j <= cur <= cs@.len(),
            after_last_ws(t) == after_last_ws(cs@.take(k as int)),
            t == cs@.take(j as int),
        decreases k,
    {
        assert(cs@.take(k as int).drop_last() =~= cs@.take(k - 1));
        k = k - 1;
    }
    proof {
        lemma_after_last_ws_bound(cs@.take(k as int));
    }
    k
}

impl App {
    /// The cursor lies within the input.
    pub open spec fn cursor_ok(&self) -> bool {
        self.cursor_pos <= self.input@.len()
    }

    /// Replaces the input, with the cursor at its end.
    pub fn set_input(&mut self, text: &str)
        ensures
            final(self).input@ == text@,
            final(self).cursor_pos == text@.len(),
            final(self).messages == old(self).messages,
            final(self).api_messages == old(self).api_messages,
            final(self).conversation == old(self).conversation,
    {
        self.input = text.to_owned();
        self.cursor_pos = chars_of(text).len();
    }

    /// Remembers the input and cursor for undo; a new edit forgets what was undone.
    fn save_undo_state(&mut self)
        ensures
            final(self).undo_stack@.len() > 0,
            final(self).undo_stack@.last() == (old(self).input, old(self).cursor_pos),
            final(self).undo_stack@.len() <= UNDO_LIMIT || final(self).undo_stack@.len()
                <= old(self).undo_stack@.len(),
            final(self).redo_stack@.len() == 0,
            final(self).input == old(self).input,
            final(self).cursor_pos == old(self).cursor_pos,
            final(self).messages == old(self).messages,
            final(self).api_messages == old(self).api_messages,
            final(self).conversation == old(self).conversation,
    {
        self.undo_stack.push((self.input.clone(), self.cursor_pos));
        if self.undo_stack.len() > UNDO_LIMIT {
            self.undo_stack.remove(0);
        }
        self.redo_stack = Vec::new();
    }

    /// Restores the state before the last edit; the current one can be redone.
    pub fn undo(&mut self)
        ensures
            old(self).undo_stack@.len() == 0 ==> final(self).input == old(self).input
                && final(self).cursor_pos == old(self).cursor_pos,
            old(self).undo_stack@.len() > 0 ==> {
                &&& (final(self).input, final(self).cursor_pos) == old(self).undo_stack@.last()
                &&& final(self).undo_stack@ == old(self).undo_stack@.drop_last()
                &&& final(self).redo_stack@ == old(self).redo_stack@.push(
                    (old(self).input, old(self).cursor_pos),
                )
            },
            final(self).messages == old(self).messages,
    {
        match self.undo_stack.pop() {
            Some((text, pos)) => {
                self.redo_stack.push((self.input.clone(), self.cursor_pos));
                self.input = text;
                self.cursor_pos = pos;
                self.status_message = Some("Undo".to_owned());
            },
            None => {
                self.status_message = Some("Nothing to undo".to_owned());
            },
        }
    }

    /// Restores the state last undone.
    pub fn redo(&mut self)
        ensures
            old(self).redo_stack@.len() == 0 ==> final(self).input == old(self).input
                && final(self).cursor_pos == old(self).cursor_pos,
            old(self).redo_stack@.len() > 0 ==> {
                &&& (final(self).input, final(self).cursor_pos) == old(self).redo_stack@.last()
                &&& final(self).redo_stack@ == old(self).redo_stack@.drop_last()
                &&& final(self).undo_stack@ == old(self).undo_stack@.push(
                    (old(self).input, old(self).cursor_pos),
                )
            },
            final(self).messages == old(self).messages,
    {
        match self.redo_stack.pop() {
            Some((text, pos)) => {
                self.undo_stack.push((self.input.clone(), self.cursor_pos));
                self.input = text;
                self.cursor_pos = pos;
                self.status_message = Some("Redo".to_owned());
            },
            None => {
                self.status_message = Some("Nothing to redo".to_owned());
            },
        }
    }

    /// Inserts `c` at the cursor and moves past it.
    pub fn insert_char(&mut self, c: char)
        requires
            old(self).cursor_ok(),
            old(self).input@.len() < usize::MAX,
        ensures
            final(self).cursor_ok(),
            final(self).input@ == old(self).input@.take(old(self).cursor_pos as int).push(c)
                + old(self).input@.skip(old(self).cursor_pos as int),
            final(self).cursor_pos == old(self).cursor_pos + 1,
            final(self).undo_stack@.last() == (old(self).input, old(self).cursor_pos),
    {
        self.save_undo_state();
        let cs = chars_of(self.input.as_str());
        let mut s = string_from(&cs, 0, self.cursor_pos);
        push_char(&mut s, c);
        let tail = string_from(&cs, self.cursor_pos, cs.len());
        crate::text::append(&mut s, tail.as_str());
        assert(cs@.subrange(0, self.cursor_pos as int) =~= cs@.take(self.cursor_pos as int));
        assert(cs@.subrange(self.cursor_pos as int, cs@.len() as int) =~= cs@.skip(self.cursor_pos as int));
        self.input = s;
        self.cursor_pos = self.cursor_pos + 1;
    }

    /// Inserts a line feed at the cursor.
    pub fn insert_newline(&mut self)
        requires
            old(self).cursor_ok(),
            old(self).input@.len() < usize::MAX,
        ensures
            final(self).cursor_ok(),
            final(self).input@ == old(self).input@.take(old(self).cursor_pos as int).push('\n')
                + old(self).input@.skip(old(self).cursor_pos as int),
            final(self).cursor_pos == old(self).cursor_pos + 1,
    {
        self.insert_char('\n');
    }

    /// Removes the character before the cursor, if any.
    pub fn delete_char_before_cursor(&mut self)
        requires
            old(self).cursor_ok(),
        ensures
            final(self).cursor_ok(),
            old(self).cursor_pos == 0 ==> final(self).input == old(self).input
                && final(self).cursor_pos == 0,
            old(self).cursor_pos > 0 ==> final(self).input@ == old(self).input@.remove(
                old(self).cursor_pos - 1,
            ) && final(self).cursor_pos == old(self).cursor_pos - 1,
    {
        if self.cursor_pos > 0 {
            self.save_undo_state();
            let cs = chars_of(self.input.as_str());
            let k = self.cursor_pos - 1;
            let mut s = string_from(&cs, 0, k);
            let tail = string_from(&cs, k + 1, cs.len());
            crate::text::append(&mut s, tail.as_str());
            assert(s@ =~= cs@.remove(k as int));
            self.input = s;
            self.cursor_pos = k;
        }
    }

    /// Removes the character under the cursor, if any.
    pub fn delete_char_at_cursor(&mut self)
        requires
            old(self).cursor_ok(),
        ensures
            final(self).cursor_ok(),
            final(self).cursor_pos == old(self).cursor_pos,
            old(self).cursor_pos == old(self).input@.len() ==> final(self).input == old(self).input,
            old(self).cursor_pos < old(self).input@.len() ==> final(self).input@ == old(
                self,
            ).input@.remove(old(self).cursor_pos as int),
    {
        let cs = chars_of(self.input.as_str());
        if self.cursor_pos < cs.len() {
            self.save_undo_state();
            let k = self.cursor_pos;
            let mut s = string_from(&cs, 0, k);
            let tail = string_from(&cs, k + 1, cs.len());
            crate::text::append(&mut s, tail.as_str());
            assert(s@ =~= cs@.remove(k as int));
            self.input = s;
        }
    }

    /// Removes the word before the cursor, with the white space after it.
    pub fn delete_word_before_cursor(&mut self)
        requires
            old(self).cursor_ok(),
        ensures
            final(self).cursor_ok(),
            old(self).cursor_pos == 0 ==> final(self).input == old(self).input
                && final(self).cursor_pos == 0,
            old(self).cursor_pos > 0 ==> {
                let w = word_start(old(self).input@, old(self).cursor_pos as int);
                &&& final(self).input@ == old(self).input@.take(w) + old(self).input@.skip(
                    old(self).cursor_pos as int,
                )
                &&& final(self).cursor_pos == w
            },
    {
        if self.cursor_pos == 0 {
            return;
        }
        self.save_undo_state();
        let cs = chars_of(self.input.as_str());
        let w = word_start_of(&cs, self.cursor_pos);
        let mut s = string_from(&cs, 0, w);
        let tail = string_from(&cs, self.cursor_pos, cs.len());
        crate::text::append(&mut s, tail.as_str());
        assert(cs@.subrange(0, w as int) =~= cs@.take(w as int));
        assert(cs@.subrange(self.cursor_pos as int, cs@.len() as int) =~= cs@.skip(self.cursor_pos as int));
        self.input = s;
        self.cursor_pos = w;
    }

    /// Removes everything before the cursor.
    pub fn delete_to_start(&mut self)
        requires
            old(self).cursor_ok(),
        ensures
            final(self).cursor_ok(),
            final(self).input@ == old(self).input@.skip(old(self).cursor_pos as int),
            final(self).cursor_pos == 0,
    {
        self.save_undo_state();
        let cs = chars_of(self.input.as_str());
        let s = string_from(&cs, self.cursor_pos, cs.len());
        assert(cs@.subrange(self.cursor_pos as int, cs@.len() as int) =~= cs@.skip(self.cursor_pos as int));
        self.input = s;
        self.cursor_pos = 0;
    }

    /// Empties the input.
    pub fn clear_input(&mut self)
        ensures
            final(self).input@.len() == 0,
            final(self).cursor_pos == 0,
            final(self).undo_stack@.last() == (old(self).input, old(self).cursor_pos),
    {
        self.save_undo_state();
        self.input = String::new();
        self.cursor_pos = 0;
    }

    /// Moves the cursor one character left, if it can.
    pub fn cursor_left(&mut self)
        ensures
            final(self).input == old(self).input,
            final(self).cursor_pos == if old(self).cursor_pos > 0 {
                (old(self).cursor_pos - 1) as usize
            } else {
                0
            },
    {
        if self.cursor_pos > 0 {
            self.cursor_pos = self.cursor_pos - 1;
        }
    }

    /// Moves the cursor one character right, if it can.
    pub fn cursor_right(&mut self)
        requires
            old(self).cursor_ok(),
        ensures
            final(self).cursor_ok(),
            final(self).input == old(self).input,
            final(self).cursor_pos == if old(self).cursor_pos < old(self).input@.len() {
                (old(self).cursor_pos + 1) as usize
            } else {
                old(self).cursor_pos
            },
    {
        let n = chars_of(self.input.as_str()).len();
        if self.cursor_pos < n {
            self.cursor_pos = self.cursor_pos + 1;
        }
    }

    /// Moves the cursor to the start of its line.
    pub fn cursor_home(&mut self)
        requires
            old(self).cursor_ok(),
        ensures
            final(self).cursor_ok(),
            final(self).input == old(self).input,
            final(self).cursor_pos == line_start(old(self).input@, old(self).cursor_pos as int),
    {
        let cs = chars_of(self.input.as_str());
        let mut j = self.cursor_pos;
        while j > 0 && cs[j - 1] != '\n'
            invariant
                j <= self.cursor_pos <= cs@.len(),
                cs@ == self.input@,
                line_start(cs@, self.cursor_pos as int) == line_start(cs@, j as int),
            decreases j,
        {
            j = j - 1;
        }
        self.cursor_pos = j;
    }

    /// Moves the cursor to the end of its line.
    pub fn cursor_end(&mut self)
        requires
            old(self).cursor_ok(),
        ensures
            final(self).cursor_ok(),
            final(self).input == old(self).input,
            final(self).cursor_pos == line_end(old(self).input@, old(self).cursor_pos as int),
    {
        let cs = chars_of(self.input.as_str());
        let mut j = self.cursor_pos;
        while j < cs.len() && cs[j] != '\n'
            invariant
                self.cursor_pos <= j <= cs@.len(),
                cs@ == self.input@,
                line_end(cs@, self.cursor_pos as int) == line_end(cs@, j as int),
            decreases cs@.len() - j,
        {
            j = j + 1;
        }
        self.cursor_pos = j;
    }

    /// Moves the cursor past the rest of the current word and the white space after it.
    pub fn cursor_word_forward(&mut self)
        requires
            old(self).cursor_ok(),
        ensures
            final(self).cursor_ok(),
            final(self).input == old(self).input,
            final(self).cursor_pos == skip_while(
                old(self).input@,
                skip_while(old(self).input@, old(self).cursor_pos as int, false),
                true,
            ),
    {
        let cs = chars_of(self.input.as_str());
        let mut j = self.cursor_pos;
        while j < cs.len() && !is_whitespace(cs[j])
            invariant
                self.cursor_pos <= j <= cs@.len(),
                cs@ == self.input@,
                skip_while(cs@, self.cursor_pos as int, false) == skip_while(cs@, j as int, false),
            decreases cs@.len() - j,
        {
            j = j + 1;
        }
        let mid = j;
        while j < cs.len() && is_whitespace(cs[j])
            invariant
                mid <= j <= cs@.len(),
                cs@ == self.input@,
                skip_while(cs@, mid as int, true) == skip_while(cs@, j as int, true),
            decreases cs@.len() - j,
        {
            j = j + 1;
        }
        self.cursor_pos = j;
    }

    /// Moves the cursor to the start of the word before it.
    pub fn cursor_word_back(&mut self)
        requires
            old(self).cursor_ok(),
        ensures
            final(self).cursor_ok(),
            final(self).input == old(self).input,
            old(self).cursor_pos == 0 ==> final(self).cursor_pos == 0,
            old(self).cursor_pos > 0 ==> final(self).cursor_pos == word_start(
                old(self).input@,
                old(self).cursor_pos as int,
            ),
    {
        if self.cursor_pos == 0 {
            return;
        }
        let cs = chars_of(self.input.as_str());
        self.cursor_pos = word_start_of(&cs, self.cursor_pos);
    }

    /// Shows the previous sent message in the input.
    pub fn history_prev(&mut self)
        ensures
            old(self).input_history@.len() == 0 ==> final(self).input == old(self).input
                && final(self).input_history_idx == old(self).input_history_idx,
            old(self).input_history@.len() > 0 ==> {
                let i = match old(self).input_history_idx {
                    Some(k) => if k > 0 {
                        k - 1
                    } else {
                        0
                    },
                    None => old(self).input_history@.len() - 1,
                };
                &&& i < old(self).input_history@.len() ==> final(self).input_history_idx == Some(
                    i as usize,
                ) && final(self).input == old(self).input_history@[i]
                    && final(self).cursor_pos == final(self).input@.len()
            },
    {
        let n = self.input_history.len();
        if n == 0 {
            return;
        }
        let i = match self.input_history_idx {
            Some(k) => if k > 0 {
                k - 1
            } else {
                0
            },
            None => n - 1,
        };
        if i < n {
            self.input_history_idx = Some(i);
            self.input = self.input_history[i].clone();
            self.cursor_pos = chars_of(self.input.as_str()).len();
        }
    }

    /// Shows the next sent message in the input, or an empty input after the last one.
    pub fn history_next(&mut self)
        ensures
            old(self).input_history_idx is None ==> final(self).input == old(self).input,
            old(self).input_history_idx is Some ==> {
                let k = old(self).input_history_idx->0;
                &&& k + 1 < old(self).input_history@.len() ==> final(self).input_history_idx
                    == Some((k + 1) as usize) && final(self).input == old(self).input_history@[k + 1]
                    && final(self).cursor_pos == final(self).input@.len()
                &&& k + 1 >= old(self).input_history@.len() ==> final(self).input_history_idx
                    is None && final(self).input@.len() == 0 && final(self).cursor_pos == 0
            },
    {
        if let Some(k) = self.input_history_idx {
            if k < self.input_history.len() && self.input_history.len() - k > 1 {
                self.input_history_idx = Some(k + 1);
                self.input = self.input_history[k + 1].clone();
                self.cursor_pos = chars_of(self.input.as_str()).len();
            } else {
                self.input_history_idx = None;
                self.input = String::new();
                self.cursor_pos = 0;
            }
        }
    }
}

} // verus!
