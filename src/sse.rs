//! Decoding of provider responses into one normalized event stream.

use vstd::prelude::*;
use crate::app::{Provider, concat_all};
use crate::json::{Json, parse_json, json_parse, field, field2, str_value, is_str, get_str};
use vstd::utf8::{decode_utf8, valid_utf8};
use crate::text::{
    is_ws, trim_end, trim_start, append, chars_of, has_prefix_in, skip_ws_backward, skip_ws_forward, starts_with, str_eq, string_from, trim,
};

verus! {

/// A normalized event of a provider call.
#[derive(Debug)]
pub enum StreamEvent {
    /// A piece of the answer's text.
    Chunk(String),
    /// The answer is complete.
    Done,
    /// The call failed.
    Error(String),
    /// A tool-enabled call answered with tool calls; the raw response body.
    ToolUseRequest(String),
}

/// What one line of a streamed body means.
pub ghost enum LineMeaning {
    Skip,
    Text(Seq<char>),
    Stop,
}

/// The payload of a `data: ` line, after trimming the line.
pub open spec fn data_payload(line: Seq<char>) -> Option<Seq<char>> {
    let t = trim(line);
    if starts_with(t, "data: "@) {
        Some(t.skip(6))
    } else {
        None
    }
}

/// The text a delta-protocol event carries, if it is a content delta.
pub open spec fn anthropic_text(j: Json) -> Option<Seq<char>> {
    if is_str(field(j, "type"@), "content_block_delta"@) {
        str_value(field2(j, "delta"@, "text"@))
    } else {
        None
    }
}

/// The text of `choices[0].delta.content` of an OpenAI-compatible event.
pub open spec fn openai_text(j: Json) -> Option<Seq<char>> {
    match field(j, "choices"@) {
        Some(Json::Array(a)) => if a@.len() > 0 {
            str_value(field2(a@[0], "delta"@, "content"@))
        } else {
            None
        },
        _ => None,
    }
}

/// What a line means: lines that are not `data: ` lines, and payloads that are not
/// JSON, are skipped; `[DONE]` and the delta protocol's `message_stop` end the stream.
pub open spec fn line_meaning(p: Provider, line: Seq<char>) -> LineMeaning {
    match data_payload(line) {
        None => LineMeaning::Skip,
        Some(d) => if d == "[DONE]"@ {
            LineMeaning::Stop
        } else {
            match json_parse(d) {
                None => LineMeaning::Skip,
                Some(j) => match p {
                    Provider::Anthropic => match anthropic_text(j) {
                        Some(t) => LineMeaning::Text(t),
                        None => if is_str(field(j, "type"@), "message_stop"@) {
                            LineMeaning::Stop
                        } else {
                            LineMeaning::Skip
                        },
                    },
                    Provider::OpenAi => match openai_text(j) {
                        Some(t) => LineMeaning::Text(t),
                        None => LineMeaning::Skip,
                    },
                },
            }
        },
    }
}

/// The texts that `lines` carry, up to the first line that ends the stream, and
/// whether one did.
pub open spec fn decode_lines(p: Provider, lines: Seq<Seq<char>>) -> (Seq<Seq<char>>, bool)
    decreases lines.len(),
{
    if lines.len() == 0 {
        (seq![], false)
    } else {
        let (texts, stopped) = decode_lines(p, lines.drop_last());
        if stopped {
            (texts, true)
        } else {
            match line_meaning(p, lines.last()) {
                LineMeaning::Skip => (texts, false),
                LineMeaning::Text(t) => (texts.push(t), false),
                LineMeaning::Stop => (texts, true),
            }
        }
    }
}

/// Lines after the one that ends the stream change nothing.
proof fn lemma_decode_after_stop(p: Provider, ls: Seq<Seq<char>>, more: Seq<Seq<char>>)
    requires
        decode_lines(p, ls).1,
    ensures
        decode_lines(p, ls + more) == decode_lines(p, ls),
    decreases more.len(),
{
    if more.len() == 0 {
        assert(ls + more =~= ls);
    } else {
        lemma_decode_after_stop(p, ls, more.drop_last());
        assert((ls + more).drop_last() =~= ls + more.drop_last());
    }
}

/// Index of the first line feed byte in `s`.
pub open spec fn first_lf(s: Seq<u8>) -> Option<int>
    decreases s.len(),
{
    if s.len() == 0 {
        None
    } else if s[0] == 10u8 {
        Some(0)
    } else {
        match first_lf(s.drop_first()) {
            Some(i) => Some(i + 1),
            None => None,
        }
    }
}

/// The complete lines of a byte body, without their line feeds, and what follows the
/// last one. A line feed byte never occurs inside a multi-byte UTF-8 character.
pub open spec fn split_byte_lines(s: Seq<u8>) -> (Seq<Seq<u8>>, Seq<u8>)
    decreases s.len(),
{
    match first_lf(s) {
        Some(i) => if 0 <= i < s.len() {
            let (ls, rest) = split_byte_lines(s.skip(i + 1));
            (seq![s.take(i)] + ls, rest)
        } else {
            (seq![], s)
        },
        None => (seq![], s),
    }
}

/// What lossy UTF-8 decoding makes of bytes that are not valid UTF-8.
pub uninterp spec fn lossy_of(b: Seq<u8>) -> Seq<char>;

/// The text of a line's bytes: what they encode when they are valid UTF-8, else their
/// lossy decoding.
pub open spec fn line_text(b: Seq<u8>) -> Seq<char> {
    if valid_utf8(b) {
        decode_utf8(b)
    } else {
        lossy_of(b)
    }
}

/// The texts of byte lines.
pub open spec fn line_texts(ls: Seq<Seq<u8>>) -> Seq<Seq<char>> {
    ls.map_values(|l: Seq<u8>| line_text(l))
}

/// Relies on `String::from_utf8_lossy`: valid UTF-8 comes back as the text it encodes;
/// otherwise invalid sequences are replaced, which depends on the bytes alone.
#[verifier::external_body]
fn decode_line(b: &Vec<u8>) -> (r: String)
    ensures
        valid_utf8(b@) ==> r@ == decode_utf8(b@),
        !valid_utf8(b@) ==> r@ == lossy_of(b@),
{
    String::from_utf8_lossy(b.as_slice()).into_owned()
}

fn find_lf(bs: &Vec<u8>, from: usize) -> (r: Option<usize>)
    requires
        from <= bs@.len(),
    ensures
        match r {
            Some(j) => from <= j < bs@.len() && first_lf(bs@.skip(from as int)) == Some(j - from),
            None => first_lf(bs@.skip(from as int)) is None,
        },
{
    let mut j = from;
    while j < bs.len()
        invariant
            from <= j <= bs@.len(),
            first_lf(bs@.skip(from as int)) == match first_lf(bs@.skip(j as int)) {
                Some(k) => Some(k + j - from),
                None => None::<int>,
            },
        decreases bs@.len() - j,
    {
        assert(bs@.skip(j as int).drop_first() =~= bs@.skip(j + 1));
        assert(bs@.skip(j as int)[0] == bs@[j as int]);
        if bs[j] == 10u8 {
            return Some(j);
        }
        j = j + 1;
    }
    None
}

/// Whether `evs` is one chunk per text, in order, followed by `Done` when `done`.
pub open spec fn chunks_then(evs: Seq<StreamEvent>, texts: Seq<Seq<char>>, done: bool) -> bool {
    &&& evs.len() == texts.len() + if done { 1int } else { 0int }
    &&& forall|i: int|
        0 <= i < texts.len() ==> (#[trigger] evs[i]) is Chunk && evs[i]->Chunk_0@ == texts[i]
    &&& done ==> evs.last() is Done
}

/// Incremental decoder of a streamed body.
pub struct SseDecoder {
    provider: Provider,
    /// Bytes after the last complete line.
    buffer: Vec<u8>,
    /// The stream has ended; anything after is ignored.
    finished: bool,
}

impl SseDecoder {
    pub closed spec fn pending_bytes(&self) -> Seq<u8> {
        self.buffer@
    }

    pub closed spec fn is_finished(&self) -> bool {
        self.finished
    }

    pub closed spec fn wire(&self) -> Provider {
        self.provider
    }

    pub fn new(provider: Provider) -> (r: SseDecoder)
        ensures
            r.wire() == provider,
            r.pending_bytes().len() == 0,
            !r.is_finished(),
    {
        SseDecoder { provider, buffer: Vec::new(), finished: false }
    }

    /// Whether the stream has ended.
    pub fn finished(&self) -> (r: bool)
        ensures
            r == self.is_finished(),
    {
        self.finished
    }

    /// The meaning of the line `cs[from..to]`.
    fn line_event(&self, cs: &Vec<char>, from: usize, to: usize) -> (r: Option<Option<String>>)
        requires
            from <= to <= cs@.len(),
        ensures
            match line_meaning(self.provider, cs@.subrange(from as int, to as int)) {
                LineMeaning::Skip => r == Some(None::<String>),
                LineMeaning::Text(t) => r is Some && r->0 is Some && r->0->0@ == t,
                LineMeaning::Stop => r is None,
            },
    {
        let ghost line = cs@.subrange(from as int, to as int);
        let a = skip_ws_forward(cs, from, to);
        let b = skip_ws_backward(cs, a, to);
        assert(trim(line) == cs@.subrange(a as int, b as int));
        if !has_prefix_in(cs, a, b, "data: ") {
            return Some(None);
        }
        proof {
            reveal_strlit("data: ");
        }
        let payload = string_from(cs, a + 6, b);
        assert(payload@ =~= trim(line).skip(6));
        if str_eq(payload.as_str(), "[DONE]") {
            return None;
        }
        let j = match parse_json(payload.as_str()) {
            Some(j) => j,
            None => {
                return Some(None);
            },
        };
        match self.provider {
            Provider::Anthropic => {
                if let Some(t) = get_str(&j, "type") {
                    if str_eq(t.as_str(), "content_block_delta") {
                        match j.get("delta") {
                            Some(d) => match get_str(d, "text") {
                                Some(text) => {
                                    return Some(Some(text.clone()));
                                },
                                None => {},
                            },
                            None => {},
                        }
                    }
                    if str_eq(t.as_str(), "message_stop") {
                        return None;
                    }
                }
                Some(None)
            },
            Provider::OpenAi => {
                match j.get("choices") {
                    Some(c) => match c.as_array() {
                        Some(a) => {
                            if a.len() > 0 {
                                match a[0].get("delta") {
                                    Some(d) => match get_str(d, "content") {
                                        Some(text) => {
                                            return Some(Some(text.clone()));
                                        },
                                        None => {},
                                    },
                                    None => {},
                                }
                            }
                        },
                        None => {},
                    },
                    None => {},
                }
                Some(None)
            },
        }
    }

    /// Takes in the next bytes of the body and returns the events of the lines they
    /// complete: one chunk per text, then `Done` when a line ends the stream, after
    /// which everything is ignored. Bytes after the last line feed wait for the next
    /// piece, so a character split between pieces is decoded whole.
    pub fn feed(&mut self, chunk: &[u8]) -> (r: Vec<StreamEvent>)
        ensures
            final(self).wire() == old(self).wire(),
            old(self).is_finished() ==> r@.len() == 0 && *final(self) == *old(self),
            !old(self).is_finished() ==> {
                let (lines, rest) = split_byte_lines(old(self).pending_bytes() + chunk@);
                let (texts, stopped) = decode_lines(old(self).wire(), line_texts(lines));
                &&& chunks_then(r@, texts, stopped)
                &&& final(self).is_finished() == stopped
                &&& !stopped ==> final(self).pending_bytes() == rest
            },
    {
        let mut events: Vec<StreamEvent> = Vec::new();
        if self.finished {
            return events;
        }
        let mut bs: Vec<u8> = Vec::new();
        std::mem::swap(&mut bs, &mut self.buffer);
        let mut k: usize = 0;
        while k < chunk.len()
            invariant
                k <= chunk@.len(),
                bs@ == old(self).buffer@ + chunk@.take(k as int),
            decreases chunk@.len() - k,
        {
            bs.push(chunk[k]);
            assert(chunk@.take(k + 1) =~= chunk@.take(k as int).push(chunk@[k as int]));
            k = k + 1;
        }
        assert(chunk@.take(chunk@.len() as int) =~= chunk@);
        let ghost all = bs@;
        let ghost mut done_lines: Seq<Seq<u8>> = seq![];
        let mut pos: usize = 0;
        let n = bs.len();
        assert(all.skip(0) =~= all);
        assert(line_texts(done_lines) =~= Seq::<Seq<char>>::empty());
        loop
            invariant
                all == bs@,
                n == bs@.len(),
                !old(self).finished,
                all == old(self).pending_bytes() + chunk@,
                pos <= bs@.len(),
                self.provider == old(self).provider,
                !self.finished,
                done_lines + split_byte_lines(all.skip(pos as int)).0 == split_byte_lines(all).0,
                split_byte_lines(all.skip(pos as int)).1 == split_byte_lines(all).1,
                !decode_lines(self.provider, line_texts(done_lines)).1,
                chunks_then(events@, decode_lines(self.provider, line_texts(done_lines)).0, false),
            decreases bs@.len() - pos,
        {
            let ghost cur = all.skip(pos as int);
            match find_lf(&bs, pos) {
                None => {
                    assert(split_byte_lines(cur) == (Seq::<Seq<u8>>::empty(), cur));
                    assert(done_lines + Seq::<Seq<u8>>::empty() =~= done_lines);
                    let mut rest: Vec<u8> = Vec::new();
                    let mut m = pos;
                    while m < bs.len()
                        invariant
                            pos <= m <= bs@.len(),
                            rest@ == bs@.subrange(pos as int, m as int),
                        decreases bs@.len() - m,
                    {
                        rest.push(bs[m]);
                        assert(bs@.subrange(pos as int, m + 1) =~= bs@.subrange(pos as int, m as int).push(bs@[m as int]));
                        m = m + 1;
                    }
                    assert(rest@ =~= cur);
                    self.buffer = rest;
                    return events;
                },
                Some(j) => {
                    let ghost i = j - pos;
                    assert(cur.take(i) =~= bs@.subrange(pos as int, j as int));
                    assert(cur.skip(i + 1) =~= all.skip(j + 1));
                    assert(split_byte_lines(cur).0 == seq![cur.take(i)] + split_byte_lines(cur.skip(i + 1)).0);
                    let ghost line = cur.take(i);
                    let ghost next_lines = done_lines.push(line);
                    assert(line_texts(next_lines).drop_last() =~= line_texts(done_lines));
                    assert(next_lines + split_byte_lines(all.skip(j + 1)).0 =~= done_lines + (seq![line] + split_byte_lines(all.skip(j + 1)).0));
                    let mut lb: Vec<u8> = Vec::new();
                    let mut m = pos;
                    while m < j
                        invariant
                            pos <= m <= j < bs@.len(),
                            lb@ == bs@.subrange(pos as int, m as int),
                        decreases j - m,
                    {
                        lb.push(bs[m]);
                        assert(bs@.subrange(pos as int, m + 1) =~= bs@.subrange(pos as int, m as int).push(bs@[m as int]));
                        m = m + 1;
                    }
                    let text = decode_line(&lb);
                    let cs = chars_of(text.as_str());
                    assert(cs@.subrange(0, cs@.len() as int) =~= line_text(line));
                    let ghost before = events@;
                    match self.line_event(&cs, 0, cs.len()) {
                        None => {
                            events.push(StreamEvent::Done);
                            self.finished = true;
                            proof {
                                let rest_lines = split_byte_lines(all.skip(j + 1)).0;
                                lemma_decode_after_stop(self.provider, line_texts(next_lines), line_texts(rest_lines));
                                assert(line_texts(next_lines + rest_lines) =~= line_texts(next_lines) + line_texts(rest_lines));
                            }
                            assert(decode_lines(self.provider, line_texts(next_lines)) == (decode_lines(self.provider, line_texts(done_lines)).0, true));
                            assert forall|q: int| 0 <= q < decode_lines(self.provider, line_texts(next_lines)).0.len() implies
                                (#[trigger] events@[q]) is Chunk && events@[q]->Chunk_0@ == decode_lines(self.provider, line_texts(next_lines)).0[q] by {
                                assert(events@[q] == before[q]);
                            }
                            return events;
                        },
                        Some(None) => {},
                        Some(Some(t)) => {
                            events.push(StreamEvent::Chunk(t));
                            assert forall|q: int| 0 <= q < decode_lines(self.provider, line_texts(next_lines)).0.len() implies
                                (#[trigger] events@[q]) is Chunk && events@[q]->Chunk_0@ == decode_lines(self.provider, line_texts(next_lines)).0[q] by {
                                if q < before.len() {
                                    assert(events@[q] == before[q]);
                                }
                            }
                        },
                    }
                    proof {
                        done_lines = next_lines;
                    }
                    pos = j + 1;
                },
            }
        }
    }

    /// The body ended. A stream that no line ended completes here.
    pub fn finish(&mut self) -> (r: Vec<StreamEvent>)
        ensures
            final(self).is_finished(),
            final(self).wire() == old(self).wire(),
            old(self).is_finished() ==> r@.len() == 0,
            !old(self).is_finished() ==> r@.len() == 1 && r@[0] is Done,
    {
        let mut r: Vec<StreamEvent> = Vec::new();
        if !self.finished {
            r.push(StreamEvent::Done);
            self.finished = true;
        }
        r
    }
}

/// The message of a failed call: `API error <status>: <body>`.
pub open spec fn api_error_text(status: Seq<char>, body: Seq<char>) -> Seq<char> {
    "API error "@ + status + ": "@ + body
}

/// The events of a call answered with a status outside 2xx: exactly one error,
/// which quotes the status and the body.
pub fn error_events(status: &str, body: &str) -> (r: Vec<StreamEvent>)
    ensures
        r@.len() == 1,
        r@[0] is Error,
        r@[0]->Error_0@ == api_error_text(status@, body@),
{
    let mut m = "API error ".to_owned();
    append(&mut m, status);
    append(&mut m, ": ");
    append(&mut m, body);
    let mut r: Vec<StreamEvent> = Vec::new();
    r.push(StreamEvent::Error(m));
    r
}

/// The texts of the `text` blocks among `blocks`, in order.
pub open spec fn block_texts(blocks: Seq<Json>) -> Seq<Seq<char>>
    decreases blocks.len(),
{
    if blocks.len() == 0 {
        seq![]
    } else {
        let earlier = block_texts(blocks.drop_last());
        let b = blocks.last();
        if is_str(field(b, "type"@), "text"@) && str_value(field(b, "text"@)) is Some {
            earlier.push(str_value(field(b, "text"@))->0)
        } else {
            earlier
        }
    }
}

/// Whether some block among `blocks` has type `tool_use`.
pub open spec fn has_tool_use(blocks: Seq<Json>) -> bool {
    exists|i: int| 0 <= i < blocks.len() && is_str(field(#[trigger] blocks[i], "type"@), "tool_use"@)
}

/// Message of a tool-enabled call whose body is not JSON.
pub open spec fn bad_body_text() -> Seq<char> {
    "API error: response body is not JSON"@
}

/// The events of a tool-enabled call answered with `body`: one chunk per text block,
/// then the whole body for the tool loop when some block asks for a tool, or `Done`.
pub fn tool_mode_events(body: &str) -> (r: Vec<StreamEvent>)
    ensures
        json_parse(body@) is None ==> r@.len() == 1 && r@[0] is Error && r@[0]->Error_0@ == bad_body_text(),
        json_parse(body@) is Some ==> {
            let blocks = crate::tools::content_blocks(json_parse(body@)->0);
            let texts = block_texts(blocks);
            &&& r@.len() == texts.len() + 1
            &&& forall|i: int|
                0 <= i < texts.len() ==> (#[trigger] r@[i]) is Chunk && r@[i]->Chunk_0@ == texts[i]
            &&& has_tool_use(blocks) ==> r@.last() is ToolUseRequest && r@.last()->ToolUseRequest_0@ == body@
            &&& !has_tool_use(blocks) ==> r@.last() is Done
        },
{
    let mut r: Vec<StreamEvent> = Vec::new();
    let j = match parse_json(body) {
        Some(j) => j,
        None => {
            r.push(StreamEvent::Error("API error: response body is not JSON".to_owned()));
            return r;
        },
    };
    let ghost blocks = crate::tools::content_blocks(j);
    let empty: Vec<Json> = Vec::new();
    let content: &Vec<Json> = match j.get("content") {
        Some(c) => match c.as_array() {
            Some(a) => a,
            None => &empty,
        },
        None => &empty,
    };
    assert(content@ == blocks);
    let mut any_tool = false;
    let mut i: usize = 0;
    while i < content.len()
        invariant
            content@ == blocks,
            i <= blocks.len(),
            chunks_then(r@, block_texts(blocks.take(i as int)), false),
            any_tool == has_tool_use(blocks.take(i as int)),
        decreases blocks.len() - i,
    {
        let ghost pre = blocks.take(i as int);
        let ghost next = blocks.take(i + 1);
        assert(next.drop_last() =~= pre);
        assert(next.last() == blocks[i as int]);
        let ghost before = r@;
        let b = &content[i];
        match get_str(b, "type") {
            Some(t) => {
                if str_eq(t.as_str(), "text") {
                    match get_str(b, "text") {
                        Some(text) => {
                            r.push(StreamEvent::Chunk(text.clone()));
                            assert forall|q: int| 0 <= q < block_texts(next).len() implies
                                (#[trigger] r@[q]) is Chunk && r@[q]->Chunk_0@ == block_texts(next)[q] by {
                                if q < before.len() {
                                    assert(r@[q] == before[q]);
                                }
                            }
                        },
                        None => {},
                    }
                }
                if str_eq(t.as_str(), "tool_use") {
                    any_tool = true;
                }
            },
            None => {},
        }
        proof {
            if has_tool_use(next) && !has_tool_use(pre) {
                let w = choose|w: int| 0 <= w < next.len() && is_str(field(#[trigger] next[w], "type"@), "tool_use"@);
                if w < pre.len() {
                    assert(next[w] == pre[w]);
                }
            }
            if has_tool_use(pre) {
                let w = choose|w: int| 0 <= w < pre.len() && is_str(field(#[trigger] pre[w], "type"@), "tool_use"@);
                assert(next[w] == pre[w]);
            }
            if is_str(field(blocks[i as int], "type"@), "tool_use"@) {
                assert(next[i as int] == blocks[i as int]);
            }
        }
        i = i + 1;
    }
    assert(blocks.take(blocks.len() as int) =~= blocks);
    let ghost before = r@;
    if any_tool {
        r.push(StreamEvent::ToolUseRequest(body.to_owned()));
    } else {
        r.push(StreamEvent::Done);
    }
    assert forall|q: int| 0 <= q < block_texts(blocks).len() implies
        (#[trigger] r@[q]) is Chunk && r@[q]->Chunk_0@ == block_texts(blocks)[q] by {
        assert(r@[q] == before[q]);
    }
    r
}

/// Whether `d` is the payload of an event that carries the text `t`: a JSON document
/// with no white space at its ends.
pub open spec fn text_payload(p: Provider, d: Seq<char>, t: Seq<char>) -> bool {
    &&& d.len() > 0
    &&& !is_ws(d[0]) && !is_ws(d.last())
    &&& d != "[DONE]"@
    &&& json_parse(d) is Some
    &&& match p {
        Provider::Anthropic => anthropic_text(json_parse(d)->0) == Some(t),
        Provider::OpenAi => openai_text(json_parse(d)->0) == Some(t),
    }
}

/// Number of `Done` events.
pub open spec fn done_count(evs: Seq<StreamEvent>) -> nat
    decreases evs.len(),
{
    if evs.len() == 0 {
        0
    } else {
        done_count(evs.drop_last()) + if evs.last() is Done {
            1nat
        } else {
            0nat
        }
    }
}

/// Whether no event is an `Error`.
pub open spec fn no_error(evs: Seq<StreamEvent>) -> bool {
    forall|i: int| 0 <= i < evs.len() ==> !(#[trigger] evs[i] is Error)
}

/// The texts of the `Chunk` events, joined.
pub open spec fn chunk_text(evs: Seq<StreamEvent>) -> Seq<char>
    decreases evs.len(),
{
    if evs.len() == 0 {
        Seq::empty()
    } else {
        chunk_text(evs.drop_last()) + match evs.last() {
            StreamEvent::Chunk(s) => s@,
            _ => Seq::empty(),
        }
    }
}

/// Whether `b` holds no line feed byte.
pub open spec fn no_lf(b: Seq<u8>) -> bool {
    forall|k: int| 0 <= k < b.len() ==> b[k] != 10u8
}

/// A body made of `lines`, each followed by a line feed.
pub open spec fn byte_body(lines: Seq<Seq<u8>>) -> Seq<u8>
    decreases lines.len(),
{
    if lines.len() == 0 {
        seq![]
    } else {
        lines[0] + seq![10u8] + byte_body(lines.drop_first())
    }
}

proof fn lemma_first_lf_after(a: Seq<u8>, b: Seq<u8>)
    requires
        no_lf(a),
    ensures
        first_lf(a + seq![10u8] + b) == Some(a.len() as int),
    decreases a.len(),
{
    let s = a + seq![10u8] + b;
    if a.len() > 0 {
        assert(s.drop_first() =~= a.drop_first() + seq![10u8] + b);
        lemma_first_lf_after(a.drop_first(), b);
    }
}

proof fn lemma_split_byte_line(a: Seq<u8>, b: Seq<u8>)
    requires
        no_lf(a),
    ensures
        split_byte_lines(a + seq![10u8] + b) == (seq![a] + split_byte_lines(b).0, split_byte_lines(b).1),
{
    let s = a + seq![10u8] + b;
    lemma_first_lf_after(a, b);
    assert(s.take(a.len() as int) =~= a);
    assert(s.skip(a.len() as int + 1) =~= b);
}

proof fn lemma_byte_body_lines(lines: Seq<Seq<u8>>)
    requires
        forall|i: int| 0 <= i < lines.len() ==> no_lf(#[trigger] lines[i]),
    ensures
        split_byte_lines(byte_body(lines)) == (lines, Seq::<u8>::empty()),
    decreases lines.len(),
{
    if lines.len() == 0 {
        assert(split_byte_lines(Seq::<u8>::empty()) == (Seq::<Seq<u8>>::empty(), Seq::<u8>::empty()));
        assert(lines =~= Seq::<Seq<u8>>::empty());
    } else {
        let rest = lines.drop_first();
        assert forall|i: int| 0 <= i < rest.len() implies no_lf(#[trigger] rest[i]) by {
            assert(rest[i] == lines[i + 1]);
        }
        lemma_byte_body_lines(rest);
        assert(no_lf(lines[0]));
        lemma_split_byte_line(lines[0], byte_body(rest));
        assert(seq![lines[0]] + rest =~= lines);
    }
}

proof fn lemma_data_line(d: Seq<char>)
    requires
        d.len() > 0,
        !is_ws(d.last()),
    ensures
        data_payload("data: "@ + d) == Some(d),
{
    reveal_strlit("data: ");
    let line = "data: "@ + d;
    assert(!is_ws(line[0]));
    assert(trim_start(line) == line);
    assert(line.last() == d.last());
    assert(trim_end(line) == line);
    assert(line.subrange(0, 6) =~= "data: "@);
    assert(line.skip(6) =~= d);
}

proof fn lemma_decode_texts(p: Provider, payloads: Seq<Seq<char>>, texts: Seq<Seq<char>>, k: int)
    requires
        payloads.len() == texts.len(),
        0 <= k <= payloads.len(),
        forall|i: int| 0 <= i < payloads.len() ==> text_payload(p, #[trigger] payloads[i], texts[i]),
    ensures
        decode_lines(p, payloads.map_values(|d: Seq<char>| "data: "@ + d).take(k)) == (texts.take(k), false),
    decreases k,
{
    let lines = payloads.map_values(|d: Seq<char>| "data: "@ + d);
    if k == 0 {
        assert(lines.take(0) =~= Seq::<Seq<char>>::empty());
        assert(texts.take(0) =~= Seq::<Seq<char>>::empty());
    } else {
        lemma_decode_texts(p, payloads, texts, k - 1);
        assert(lines.take(k).drop_last() =~= lines.take(k - 1));
        assert(lines.take(k).last() == "data: "@ + payloads[k - 1]);
        assert(text_payload(p, payloads[k - 1], texts[k - 1]));
        lemma_data_line(payloads[k - 1]);
        assert(texts.take(k - 1).push(texts[k - 1]) =~= texts.take(k));
    }
}

proof fn lemma_events(evs: Seq<StreamEvent>, texts: Seq<Seq<char>>, n: int)
    requires
        chunks_then(evs, texts, true),
        0 <= n <= texts.len(),
    ensures
        done_count(evs.take(n)) == 0,
        chunk_text(evs.take(n)) == concat_all(texts.take(n)),
    decreases n,
{
    if n > 0 {
        lemma_events(evs, texts, n - 1);
        assert(evs.take(n).drop_last() =~= evs.take(n - 1));
        assert(texts.take(n).drop_last() =~= texts.take(n - 1));
        assert(evs.take(n).last() == evs[n - 1]);
        assert(evs[n - 1] is Chunk);
    } else {
        assert(evs.take(0).len() == 0);
        assert(texts.take(0).len() == 0);
    }
}

/// A well-formed stream, fed whole to a fresh decoder, yields one chunk per text
/// event, in order, then exactly one `Done` and no `Error`; the chunks join to the
/// full text. A well-formed stream is a body of lines, each valid UTF-8 with no line
/// feed byte and followed by one: a `data:` line per text event, then `data: [DONE]`.
pub proof fn law_well_formed_stream(
    p: Provider,
    lines: Seq<Seq<u8>>,
    payloads: Seq<Seq<char>>,
    texts: Seq<Seq<char>>,
    evs: Seq<StreamEvent>,
)
    requires
        payloads.len() == texts.len(),
        lines.len() == payloads.len() + 1,
        forall|i: int| 0 <= i < lines.len() ==> no_lf(#[trigger] lines[i]) && valid_utf8(lines[i]),
        forall|i: int|
            0 <= i < payloads.len() ==> decode_utf8(#[trigger] lines[i]) == "data: "@ + payloads[i]
                && text_payload(p, payloads[i], texts[i]),
        decode_utf8(lines.last()) == "data: [DONE]"@,
        ({
            let (ts, stopped) = decode_lines(p, line_texts(split_byte_lines(byte_body(lines)).0));
            chunks_then(evs, ts, stopped)
        }),
    ensures
        done_count(evs) == 1,
        no_error(evs),
        evs.last() is Done,
        chunk_text(evs) == concat_all(texts),
{
    reveal_strlit("data: [DONE]");
    reveal_strlit("data: ");
    reveal_strlit("[DONE]");
    lemma_byte_body_lines(lines);
    let plain = payloads.map_values(|d: Seq<char>| "data: "@ + d);
    let all = plain.push("data: [DONE]"@);
    assert forall|i: int| 0 <= i < payloads.len() implies text_payload(p, #[trigger] payloads[i], texts[i]) by {
        assert(decode_utf8(lines[i]) == "data: "@ + payloads[i]);
    }
    assert(line_texts(lines) =~= all) by {
        assert forall|i: int| 0 <= i < lines.len() implies line_texts(lines)[i] == all[i] by {
            assert(valid_utf8(lines[i]));
            if i < payloads.len() {
                assert(decode_utf8(lines[i]) == "data: "@ + payloads[i]);
            }
        }
    }
    lemma_decode_texts(p, payloads, texts, payloads.len() as int);
    assert(plain.take(payloads.len() as int) =~= plain);
    assert(texts.take(texts.len() as int) =~= texts);
    assert(all.drop_last() =~= plain);
    let d = "[DONE]"@;
    assert(d.len() == 6);
    assert(d.last() == ']');
    lemma_data_line(d);
    assert("data: [DONE]"@ =~= "data: "@ + d);
    assert(all.last() == "data: [DONE]"@);
    assert(data_payload(all.last()) == Some(d));
    assert(line_meaning(p, all.last()) == LineMeaning::Stop);
    assert(decode_lines(p, all) == (texts, true));
    lemma_events(evs, texts, texts.len() as int);
    let n = texts.len() as int;
    assert(evs.take(n).push(evs[n]) =~= evs);
    assert(evs.drop_last() =~= evs.take(n));
    assert forall|i: int| 0 <= i < evs.len() implies !(#[trigger] evs[i] is Error) by {
        if i < n {
            assert(evs[i] is Chunk);
        }
    }
}

proof fn lemma_no_stop(p: Provider, ls: Seq<Seq<char>>)
    requires
        forall|i: int| 0 <= i < ls.len() ==> line_meaning(p, #[trigger] ls[i]) != LineMeaning::Stop,
    ensures
        !decode_lines(p, ls).1,
    decreases ls.len(),
{
    if ls.len() > 0 {
        assert forall|i: int| 0 <= i < ls.drop_last().len() implies line_meaning(
            p,
            #[trigger] ls.drop_last()[i],
        ) != LineMeaning::Stop by {
            assert(ls.drop_last()[i] == ls[i]);
        }
        lemma_no_stop(p, ls.drop_last());
        assert(line_meaning(p, ls.last()) != LineMeaning::Stop);
    }
}

/// A stream whose lines, each without a line feed byte and followed by one, end with
/// the first line that stops it (`[DONE]` or the delta protocol's stop event) yields,
/// fed whole to a fresh decoder, one chunk per text line before it, then exactly one
/// `Done` and no `Error`. Lines of other kinds (event names, blank lines, other
/// events, payloads that are not JSON) add nothing.
pub proof fn law_stream_ends_once(p: Provider, lines: Seq<Seq<u8>>, evs: Seq<StreamEvent>)
    requires
        lines.len() > 0,
        forall|i: int| 0 <= i < lines.len() ==> no_lf(#[trigger] lines[i]),
        forall|i: int|
            0 <= i < lines.len() - 1 ==> line_meaning(p, line_text(#[trigger] lines[i]))
                != LineMeaning::Stop,
        line_meaning(p, line_text(lines.last())) == LineMeaning::Stop,
        ({
            let (ts, stopped) = decode_lines(p, line_texts(split_byte_lines(byte_body(lines)).0));
            chunks_then(evs, ts, stopped)
        }),
    ensures
        done_count(evs) == 1,
        no_error(evs),
        evs.last() is Done,
        chunk_text(evs) == concat_all(decode_lines(p, line_texts(lines.drop_last())).0),
{
    lemma_byte_body_lines(lines);
    let before = line_texts(lines.drop_last());
    assert forall|i: int| 0 <= i < before.len() implies line_meaning(p, #[trigger] before[i])
        != LineMeaning::Stop by {
        assert(before[i] == line_text(lines[i]));
    }
    lemma_no_stop(p, before);
    assert(line_texts(lines).drop_last() =~= before);
    assert(line_texts(lines).last() == line_text(lines.last()));
    let texts = decode_lines(p, before).0;
    assert(decode_lines(p, line_texts(lines)) == (texts, true));
    lemma_events(evs, texts, texts.len() as int);
    let n = texts.len() as int;
    assert(evs.take(n).push(evs[n]) =~= evs);
    assert(evs.drop_last() =~= evs.take(n));
    assert(texts.take(n) =~= texts);
    assert forall|i: int| 0 <= i < evs.len() implies !(#[trigger] evs[i] is Error) by {
        if i < n {
            assert(evs[i] is Chunk);
        }
    }
}

proof fn lemma_first_lf_bounds(s: Seq<u8>)
    ensures
        first_lf(s) is Some ==> 0 <= first_lf(s)->0 < s.len(),
    decreases s.len(),
{
    if s.len() > 0 && s[0] != 10u8 {
        lemma_first_lf_bounds(s.drop_first());
    }
}

proof fn lemma_first_lf_prefix(s: Seq<u8>, t: Seq<u8>)
    ensures
        first_lf(s) is Some ==> first_lf(s + t) == first_lf(s),
    decreases s.len(),
{
    if s.len() > 0 && s[0] != 10u8 {
        assert((s + t).drop_first() =~= s.drop_first() + t);
        lemma_first_lf_prefix(s.drop_first(), t);
    }
}

/// Lines of `s + t`: those of `s`, then those of what `s` left over followed by `t`.
proof fn lemma_split_bytes_concat(s: Seq<u8>, t: Seq<u8>)
    ensures
        ({
            let (ls, rest) = split_byte_lines(s);
            let (lt, rest2) = split_byte_lines(rest + t);
            split_byte_lines(s + t) == (ls + lt, rest2)
        }),
    decreases s.len(),
{
    lemma_first_lf_bounds(s);
    lemma_first_lf_prefix(s, t);
    match first_lf(s) {
        None => {
            assert(split_byte_lines(s) == (Seq::<Seq<u8>>::empty(), s));
            assert(Seq::<Seq<u8>>::empty() + split_byte_lines(s + t).0 =~= split_byte_lines(s + t).0);
        },
        Some(i) => {
            let u = s.skip(i + 1);
            lemma_first_lf_bounds(s + t);
            assert((s + t).take(i) =~= s.take(i));
            assert((s + t).skip(i + 1) =~= u + t);
            lemma_split_bytes_concat(u, t);
            let (lu, ru) = split_byte_lines(u);
            let (lt, r2) = split_byte_lines(ru + t);
            assert(split_byte_lines(s) == (seq![s.take(i)] + lu, ru));
            assert(split_byte_lines(s + t) == (seq![s.take(i)] + (lu + lt), r2));
            assert(seq![s.take(i)] + (lu + lt) =~= (seq![s.take(i)] + lu) + lt);
        },
    }
}

/// Decoding `a + b`: the texts of `a`, then, unless `a` ended the stream, those of `b`.
proof fn lemma_decode_concat(p: Provider, a: Seq<Seq<char>>, b: Seq<Seq<char>>)
    ensures
        decode_lines(p, a + b) == if decode_lines(p, a).1 {
            decode_lines(p, a)
        } else {
            (decode_lines(p, a).0 + decode_lines(p, b).0, decode_lines(p, b).1)
        },
    decreases b.len(),
{
    if decode_lines(p, a).1 {
        lemma_decode_after_stop(p, a, b);
    } else if b.len() == 0 {
        assert(a + b =~= a);
        assert(decode_lines(p, a).0 + Seq::<Seq<char>>::empty() =~= decode_lines(p, a).0);
    } else {
        lemma_decode_concat(p, a, b.drop_last());
        assert((a + b).drop_last() =~= a + b.drop_last());
        assert((a + b).last() == b.last());
        let (ta, _) = decode_lines(p, a);
        let (tb, _) = decode_lines(p, b.drop_last());
        match line_meaning(p, b.last()) {
            LineMeaning::Text(x) => {
                assert((ta + tb).push(x) =~= ta + tb.push(x));
            },
            _ => {},
        }
    }
}

/// Feeding a body in two pieces of bytes, split anywhere, even inside a character,
/// decodes as feeding it at once: the lines that the first piece completes, then those
/// that its remaining bytes complete with the second.
pub proof fn law_feed_in_pieces(p: Provider, pending: Seq<u8>, c1: Seq<u8>, c2: Seq<u8>)
    ensures
        ({
            let (l1, r1) = split_byte_lines(pending + c1);
            let (t1, s1) = decode_lines(p, line_texts(l1));
            let (l2, r2) = split_byte_lines(r1 + c2);
            let (t2, s2) = decode_lines(p, line_texts(l2));
            let (l, r) = split_byte_lines(pending + c1 + c2);
            &&& s1 ==> decode_lines(p, line_texts(l)) == (t1, true)
            &&& !s1 ==> decode_lines(p, line_texts(l)) == (t1 + t2, s2) && r == r2
        }),
{
    lemma_split_bytes_concat(pending + c1, c2);
    let (l1, r1) = split_byte_lines(pending + c1);
    let (l2, r2) = split_byte_lines(r1 + c2);
    assert(line_texts(l1 + l2) =~= line_texts(l1) + line_texts(l2));
    lemma_decode_concat(p, line_texts(l1), line_texts(l2));
}

/// Events of consecutive feeds join into the events of their joined texts.
pub proof fn law_events_join(
    e1: Seq<StreamEvent>,
    t1: Seq<Seq<char>>,
    e2: Seq<StreamEvent>,
    t2: Seq<Seq<char>>,
    done: bool,
)
    requires
        chunks_then(e1, t1, false),
        chunks_then(e2, t2, done),
    ensures
        chunks_then(e1 + e2, t1 + t2, done),
{
    let e = e1 + e2;
    let t = t1 + t2;
    assert forall|i: int| 0 <= i < t.len() implies (#[trigger] e[i]) is Chunk && e[i]->Chunk_0@
        == t[i] by {
        if i >= t1.len() {
            assert(e[i] == e2[i - e1.len()]);
            assert(t[i] == t2[i - t1.len()]);
        } else {
            assert(e[i] == e1[i]);
        }
    }
    if done {
        assert(e.last() == e2.last());
    }
}

/// The bytes of `pieces` joined in order.
pub open spec fn join_pieces(pieces: Seq<Seq<u8>>) -> Seq<u8>
    decreases pieces.len(),
{
    if pieces.len() == 0 {
        seq![]
    } else {
        join_pieces(pieces.drop_last()) + pieces.last()
    }
}

/// What a fresh decoder has made of `pieces` fed one after another, as `feed` states
/// it piece by piece: the texts of the chunks it emitted, whether the stream ended, and
/// the bytes it still holds.
pub open spec fn fed(p: Provider, pieces: Seq<Seq<u8>>) -> (Seq<Seq<char>>, bool, Seq<u8>)
    decreases pieces.len(),
{
    if pieces.len() == 0 {
        (seq![], false, seq![])
    } else {
        let (t, stopped, pending) = fed(p, pieces.drop_last());
        if stopped {
            (t, true, pending)
        } else {
            let (ls, rest) = split_byte_lines(pending + pieces.last());
            let (t2, s2) = decode_lines(p, line_texts(ls));
            (t + t2, s2, rest)
        }
    }
}

/// Whether `evss[i]` is what `feed` returns for `pieces[i]`, each fed in turn to one
/// fresh decoder.
pub open spec fn feeds_return(p: Provider, pieces: Seq<Seq<u8>>, evss: Seq<Seq<StreamEvent>>) -> bool
    decreases pieces.len(),
{
    if pieces.len() == 0 {
        evss.len() == 0
    } else {
        &&& evss.len() == pieces.len()
        &&& feeds_return(p, pieces.drop_last(), evss.drop_last())
        &&& ({
            let (t, stopped, pending) = fed(p, pieces.drop_last());
            if stopped {
                evss.last().len() == 0
            } else {
                let (ls, rest) = split_byte_lines(pending + pieces.last());
                let (t2, s2) = decode_lines(p, line_texts(ls));
                chunks_then(evss.last(), t2, s2)
            }
        })
    }
}

/// The events of consecutive feeds, joined in order.
pub open spec fn joined_events(evss: Seq<Seq<StreamEvent>>) -> Seq<StreamEvent>
    decreases evss.len(),
{
    if evss.len() == 0 {
        seq![]
    } else {
        joined_events(evss.drop_last()) + evss.last()
    }
}

/// Feeding a body in any pieces decodes as the whole body: the same texts, the same
/// end, and, while it has not ended, the bytes after its last line feed held back.
pub proof fn law_any_split(p: Provider, pieces: Seq<Seq<u8>>)
    ensures
        ({
            let (t, stopped, pending) = fed(p, pieces);
            let (ls, rest) = split_byte_lines(join_pieces(pieces));
            &&& (t, stopped) == decode_lines(p, line_texts(ls))
            &&& !stopped ==> pending == rest
        }),
    decreases pieces.len(),
{
    if pieces.len() == 0 {
        assert(split_byte_lines(Seq::<u8>::empty()) == (Seq::<Seq<u8>>::empty(), Seq::<u8>::empty()));
        assert(line_texts(Seq::<Seq<u8>>::empty()) =~= Seq::<Seq<char>>::empty());
    } else {
        let prev = pieces.drop_last();
        let c = pieces.last();
        law_any_split(p, prev);
        let b = join_pieces(prev);
        lemma_split_bytes_concat(b, c);
        let (lb, rb) = split_byte_lines(b);
        let (lc, rc) = split_byte_lines(rb + c);
        assert(line_texts(lb + lc) =~= line_texts(lb) + line_texts(lc));
        lemma_decode_concat(p, line_texts(lb), line_texts(lc));
    }
}

/// The events of all the feeds together are one chunk per text of the whole body, in
/// order, then `Done` once the body has ended.
pub proof fn law_feeds_join(p: Provider, pieces: Seq<Seq<u8>>, evss: Seq<Seq<StreamEvent>>)
    requires
        feeds_return(p, pieces, evss),
    ensures
        chunks_then(joined_events(evss), fed(p, pieces).0, fed(p, pieces).1),
    decreases pieces.len(),
{
    if pieces.len() == 0 {
        assert(joined_events(evss).len() == 0);
    } else {
        law_feeds_join(p, pieces.drop_last(), evss.drop_last());
        let (t, stopped, pending) = fed(p, pieces.drop_last());
        if stopped {
            assert(joined_events(evss) =~= joined_events(evss.drop_last()));
        } else {
            let (ls, rest) = split_byte_lines(pending + pieces.last());
            let (t2, s2) = decode_lines(p, line_texts(ls));
            law_events_join(joined_events(evss.drop_last()), t, evss.last(), t2, s2);
        }
    }
}

/// A well-formed stream split into any pieces, fed in turn to a fresh decoder, yields
/// over all the feeds exactly one `Done`, last, and no `Error`; the chunks join to the
/// text of the lines before the stop line.
pub proof fn law_well_formed_any_split(
    p: Provider,
    lines: Seq<Seq<u8>>,
    pieces: Seq<Seq<u8>>,
    evss: Seq<Seq<StreamEvent>>,
)
    requires
        lines.len() > 0,
        forall|i: int| 0 <= i < lines.len() ==> no_lf(#[trigger] lines[i]),
        forall|i: int|
            0 <= i < lines.len() - 1 ==> line_meaning(p, line_text(#[trigger] lines[i]))
                != LineMeaning::Stop,
        line_meaning(p, line_text(lines.last())) == LineMeaning::Stop,
        join_pieces(pieces) == byte_body(lines),
        feeds_return(p, pieces, evss),
    ensures
        done_count(joined_events(evss)) == 1,
        no_error(joined_events(evss)),
        joined_events(evss).last() is Done,
        chunk_text(joined_events(evss)) == concat_all(decode_lines(p, line_texts(lines.drop_last())).0),
{
    law_any_split(p, pieces);
    law_feeds_join(p, pieces, evss);
    law_stream_ends_once(p, lines, joined_events(evss));
}

} // verus!
