//! The persisted record of a conversation: a lossy, text-only projection of the chat.

use vstd::prelude::*;
use crate::text::{chars_of, string_from, append, str_eq};

verus! {

/// Who a message is from.
#[derive(Debug, Clone, Copy, PartialEq, Eq, Structural)]
pub enum Role {
    User,
    Assistant,
    System,
}

/// One persisted message. `timestamp` is in milliseconds since the Unix epoch.
#[derive(Debug, Clone)]
pub struct SavedMessage {
    pub role: Role,
    pub content: String,
    pub timestamp: i64,
}

/// A persisted conversation. Times are in milliseconds since the Unix epoch.
#[derive(Debug, Clone)]
pub struct Conversation {
    pub id: String,
    pub title: String,
    pub created_at: i64,
    pub updated_at: i64,
    pub messages: Vec<SavedMessage>,
}

/// Title of a conversation before its first user message.
pub open spec fn untitled() -> Seq<char> {
    "New conversation"@
}

/// The title taken from a first user message: its first 60 characters, marked when cut.
pub open spec fn title_from(content: Seq<char>) -> Seq<char> {
    if content.len() > 60 {
        content.take(60) + "..."@
    } else {
        content
    }
}

/// Index of the first user message.
pub open spec fn first_user(msgs: Seq<SavedMessage>) -> Option<int>
    decreases msgs.len(),
{
    if msgs.len() == 0 {
        None
    } else if msgs[0].role == Role::User {
        Some(0)
    } else {
        match first_user(msgs.drop_first()) {
            Some(i) => Some(i + 1),
            None => None,
        }
    }
}

/// Whether `m` holds `role` and `content`.
pub open spec fn saved(m: SavedMessage, role: Role, content: Seq<char>) -> bool {
    m.role == role && m.content@ == content
}

/// Relies on `chrono::Utc::now`: the current time in milliseconds since the Unix epoch.
#[verifier::external_body]
pub(crate) fn now_millis() -> i64 {
    chrono::Utc::now().timestamp_millis()
}

/// Relies on `uuid::Uuid::new_v4` for a random id, and on its `Display`, which writes
/// the hyphenated form: 36 characters (`Hyphenated::LENGTH`).
#[verifier::external_body]
fn new_id() -> (r: String)
    ensures
        r@.len() == 36,
{
    uuid::Uuid::new_v4().to_string()
}

fn first_user_index(msgs: &Vec<SavedMessage>) -> (r: Option<usize>)
    ensures
        match r {
            Some(i) => i < msgs@.len() && first_user(msgs@) == Some(i as int),
            None => first_user(msgs@) is None,
        },
{
    let mut i: usize = 0;
    assert(msgs@.skip(0) =~= msgs@);
    while i < msgs.len()
        invariant
            i <= msgs@.len(),
            first_user(msgs@) == match first_user(msgs@.skip(i as int)) {
                Some(k) => Some(k + i),
                None => None::<int>,
            },
        decreases msgs@.len() - i,
    {
        assert(msgs@.skip(i as int).drop_first() =~= msgs@.skip(i + 1));
        assert(msgs@.skip(i as int)[0] == msgs@[i as int]);
        if msgs[i].role == Role::User {
            return Some(i);
        }
        i = i + 1;
    }
    None
}

impl Conversation {
    /// A fresh, empty conversation with a new id.
    pub fn new() -> (r: Conversation)
        ensures
            r.title@ == untitled(),
            r.messages@.len() == 0,
            r.id@.len() == 36,
            r.created_at == r.updated_at,
    {
        let now = now_millis();
        Conversation {
            id: new_id(),
            title: "New conversation".to_owned(),
            created_at: now,
            updated_at: now,
            messages: Vec::new(),
        }
    }

    /// Appends a message. A conversation still untitled takes its title from
    /// its first user message.
    pub fn add_message(&mut self, role: Role, content: &str)
        ensures
            final(self).messages@.len() == old(self).messages@.len() + 1,
            final(self).messages@.drop_last() == old(self).messages@,
            saved(final(self).messages@.last(), role, content@),
            final(self).id == old(self).id,
            final(self).created_at == old(self).created_at,
            final(self).title@ == if old(self).title@ == untitled() && first_user(
                final(self).messages@,
            ) is Some {
                title_from(final(self).messages@[first_user(final(self).messages@)->0].content@)
            } else {
                old(self).title@
            },
    {
        let now = now_millis();
        self.messages.push(SavedMessage { role, content: content.to_owned(), timestamp: now });
        self.updated_at = now;
        assert(self.messages@.drop_last() =~= old(self).messages@);
        if str_eq(self.title.as_str(), "New conversation") {
            match first_user_index(&self.messages) {
                Some(i) => {
                    let cs = chars_of(self.messages[i].content.as_str());
                    if cs.len() > 60 {
                        let mut t = string_from(&cs, 0, 60);
                        append(&mut t, "...");
                        self.title = t;
                    } else {
                        self.title = self.messages[i].content.clone();
                        assert(cs@.take(cs@.len() as int) =~= cs@);
                    }
                    assert(cs@.subrange(0, 60) =~= cs@.take(60));
                },
                None => {},
            }
        }
    }
}

/// Whether the conversations run from the most to the least recently updated.
pub open spec fn by_recency(cs: Seq<Conversation>) -> bool {
    forall|i: int, j: int| 0 <= i < j < cs.len() ==> cs[i].updated_at >= cs[j].updated_at
}

/// Puts conversations in listing order: the most recently updated first.
pub fn sort_by_recency(cs: &mut Vec<Conversation>)
    ensures
        by_recency(final(cs)@),
        final(cs)@.to_multiset() == old(cs)@.to_multiset(),
{
    broadcast use vstd::seq_lib::group_to_multiset_ensures;

    let n = cs.len();
    let mut i: usize = 1;
    if n == 0 {
        return;
    }
    while i < n
        invariant
            n == cs@.len(),
            1 <= i <= n,
            by_recency(cs@.take(i as int)),
            cs@.to_multiset() == old(cs)@.to_multiset(),
        decreases n - i,
    {
        let ghost before = cs@;
        let x = cs.remove(i);
        assert(cs@.take(i as int) =~= before.take(i as int));
        let mut j: usize = 0;
        while j < i && cs[j].updated_at >= x.updated_at
            invariant
                j <= i < n,
                cs@.len() == n - 1,
                cs@.take(i as int) == before.take(i as int),
                forall|k: int| 0 <= k < j ==> cs@[k].updated_at >= x.updated_at,
            decreases i - j,
        {
            j = j + 1;
        }
        let ghost mid = cs@;
        cs.insert(j, x);
        proof {
            broadcast use vstd::multiset::group_multiset_axioms;
            vstd::seq_lib::to_multiset_remove(before, i as int);
            vstd::seq_lib::to_multiset_insert(mid, j as int, x);
            vstd::seq_lib::to_multiset_contains(before, x);
            assert(mid =~= before.remove(i as int));
            assert(before.contains(x));
            assert(before.to_multiset().remove(x).insert(x) =~= before.to_multiset());
            let t = cs@.take(i + 1);
            assert forall|a: int, b: int| 0 <= a < b < i + 1 implies t[a].updated_at >= t[b].updated_at by {
                assert(by_recency(before.take(i as int)));
                if b < j {
                    assert(t[a] == before[a] && t[b] == before[b]);
                } else if b == j {
                    assert(t[a] == mid[a]);
                } else if a == j {
                    assert(t[b] == mid[b - 1]);
                    if j < i {
                        assert(mid[j as int].updated_at < x.updated_at);
                        if b - 1 > j {
                            assert(mid[j as int] == before[j as int]);
                            assert(mid[b - 1] == before[b - 1]);
                        }
                    }
                } else if a < j {
                    assert(t[a] == before[a] && t[b] == mid[b - 1] && mid[b - 1] == before[b - 1]);
                } else {
                    assert(t[a] == mid[a - 1] && t[b] == mid[b - 1]);
                    assert(mid[a - 1] == before[a - 1] && mid[b - 1] == before[b - 1]);
                }
            }
        }
        i = i + 1;
    }
    assert(cs@.take(n as int) =~= cs@);
}

} // verus!
