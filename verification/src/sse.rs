//! Decoding of the model server's streamed reply (server-sent events): each
//! line `data: {json}` carries one part of the reply, and `data: [DONE]`
//! ends it.

use vstd::prelude::*;
use vstd::string::StrSliceExecFns;
use crate::action::Action;
use crate::text::{
    find_char, find_char_in, has_prefix, lemma_find_char, lemma_find_char_unique, owned, str_starts_with,
    string_from_chars, to_chars, trim, trim_ws,
};

verus! {

/// The text at `choices[0].delta.content` of the JSON document `data`, when
/// `data` parses as JSON and that value is a string.
pub uninterp spec fn json_delta_content(data: Seq<char>) -> Option<Seq<char>>;

/// Wraps `serde_json::from_str::<serde_json::Value>` followed by the lookup
/// `["choices"][0]["delta"]["content"]` and `Value::as_str`: the string at
/// that place of the document, or `None` when the text is not JSON or the
/// place holds no string. The result is a function of `data` alone, named
/// `json_delta_content`; what that function is on given text is not stated.
#[verifier::external_body]
fn delta_content(data: &str) -> (r: Option<String>)
    ensures
        match r {
            Some(s) => json_delta_content(data@) == Some(s@),
            None => json_delta_content(data@) is None,
        },
{
    match serde_json::from_str::<serde_json::Value>(data) {
        Ok(v) => v["choices"][0]["delta"]["content"].as_str().map(String::from),
        Err(_) => None,
    }
}

/// What one line of the stream means.
#[derive(Debug, PartialEq, Eq)]
pub enum SseEvent {
    /// A part of the reply.
    Chunk(String),
    /// The end of the reply.
    Done,
    /// Nothing to act on.
    Skip,
}

/// The mathematical value of an event.
pub enum SseEventView {
    Chunk(Seq<char>),
    Done,
    Skip,
}

impl View for SseEvent {
    type V = SseEventView;

    open spec fn view(&self) -> SseEventView {
        match self {
            SseEvent::Chunk(s) => SseEventView::Chunk(s@),
            SseEvent::Done => SseEventView::Done,
            SseEvent::Skip => SseEventView::Skip,
        }
    }
}

/// The meaning of one line: once trimmed, a line `data: [DONE]` ends the
/// reply, a line `data: <json>` whose JSON holds a string at
/// `choices[0].delta.content` carries that string, and anything else is skipped.
pub open spec fn sse_event_of(line: Seq<char>) -> SseEventView {
    let t = trim_ws(line);
    if t.len() == 0 || !has_prefix(t, "data: "@) {
        SseEventView::Skip
    } else {
        let d = t.skip("data: "@.len() as int);
        if d == "[DONE]"@ {
            SseEventView::Done
        } else {
            match json_delta_content(d) {
                Some(c) => SseEventView::Chunk(c),
                None => SseEventView::Skip,
            }
        }
    }
}

/// The payload of a data line: the text after "data: " of the trimmed
/// line, or `None` when the trimmed line does not start with "data: ".
pub open spec fn sse_data_of(line: Seq<char>) -> Option<Seq<char>> {
    let t = trim_ws(line);
    if t.len() == 0 || !has_prefix(t, "data: "@) {
        None
    } else {
        Some(t.skip("data: "@.len() as int))
    }
}

/// The payload of a data line, if `line` is one.
pub fn sse_data(line: &str) -> (r: Option<String>)
    ensures
        match sse_data_of(line@) {
            Some(d) => r matches Some(s) && s@ == d,
            None => r is None,
        },
{
    let t = trim(line);
    if t.as_str().is_empty() {
        return None;
    }
    if !str_starts_with(t.as_str(), "data: ") {
        return None;
    }
    let p = "data: ".unicode_len();
    let n = t.as_str().unicode_len();
    let data = t.as_str().substring_char(p, n);
    proof {
        assert(t@.subrange(p as int, n as int) =~= t@.skip("data: "@.len() as int));
    }
    Some(owned(data))
}

/// The event a non-final data line carries, given the reply text found in
/// its JSON (if any): that text, or nothing.
pub fn event_from_content(content: Option<String>) -> (e: SseEvent)
    ensures
        match content {
            Some(c) => e@ == SseEventView::Chunk(c@),
            None => e@ == SseEventView::Skip,
        },
{
    match content {
        Some(c) => SseEvent::Chunk(c),
        None => SseEvent::Skip,
    }
}

/// Reads one line of the stream.
pub fn parse_sse_event(line: &str) -> (e: SseEvent)
    ensures
        e@ == sse_event_of(line@),
{
    match sse_data(line) {
        None => SseEvent::Skip,
        Some(data) => {
            if data == owned("[DONE]") {
                SseEvent::Done
            } else {
                event_from_content(delta_content(data.as_str()))
            }
        },
    }
}

impl SseEvent {
    /// The action an event asks for: a part of the reply is received, or the
    /// reply ends; a skipped line asks for nothing.
    pub fn into_action(self) -> (a: Option<Action>)
        ensures
            match self@ {
                SseEventView::Chunk(c) => a matches Some(Action::ReceiveChunk(s)) && s@ == c,
                SseEventView::Done => a matches Some(Action::StreamEnd),
                SseEventView::Skip => a is None,
            },
    {
        match self {
            SseEvent::Chunk(c) => Some(Action::ReceiveChunk(c)),
            SseEvent::Done => Some(Action::StreamEnd),
            SseEvent::Skip => None,
        }
    }
}

/// The events of the complete lines at the start of `buf`, in order, up to and
/// including the first end-of-reply; the text left after the lines read; and
/// whether the reply ended. A line is read only once its line break has come.
pub open spec fn sse_process(buf: Seq<char>) -> (Seq<SseEventView>, Seq<char>, bool)
    decreases buf.len(),
{
    let p = find_char(buf, '\n');
    if p < 0 || p >= buf.len() {
        (Seq::empty(), buf, false)
    } else {
        let line = buf.take(p + 1);
        let rest = buf.skip(p + 1);
        match sse_event_of(line) {
            SseEventView::Done => (seq![SseEventView::Done], rest, true),
            SseEventView::Chunk(c) => {
                let r = sse_process(rest);
                (seq![SseEventView::Chunk(c)] + r.0, r.1, r.2)
            },
            SseEventView::Skip => sse_process(rest),
        }
    }
}

/// The views of a sequence of events.
pub open spec fn events_view(s: Seq<SseEvent>) -> Seq<SseEventView> {
    s.map_values(|e: SseEvent| e@)
}

/// `v[lo..]` as a vector.
fn chars_from(v: &[char], lo: usize) -> (r: Vec<char>)
    requires
        lo <= v@.len(),
    ensures
        r@ == v@.skip(lo as int),
{
    let mut r: Vec<char> = Vec::new();
    let mut i = lo;
    while i < v.len()
        invariant
            lo <= i <= v@.len(),
            r@ == v@.subrange(lo as int, i as int),
        decreases v@.len() - i,
    {
        r.push(v[i]);
        proof {
            assert(v@.subrange(lo as int, i + 1) =~= v@.subrange(lo as int, i as int).push(
                v@[i as int],
            ));
        }
        i = i + 1;
    }
    proof {
        assert(v@.subrange(lo as int, v@.len() as int) =~= v@.skip(lo as int));
    }
    r
}

/// The mathematical value of a decoder: the text received after the last
/// complete line, and whether the reply has ended.
pub struct SseDecoderView {
    pub pending: Seq<char>,
    pub done: bool,
}

/// Splits the streamed text into lines and reads them as they complete.
pub struct SseDecoder {
    pending: Vec<char>,
    done: bool,
}

impl View for SseDecoder {
    type V = SseDecoderView;

    closed spec fn view(&self) -> SseDecoderView {
        SseDecoderView { pending: self.pending@, done: self.done }
    }
}

impl SseDecoder {
    /// A decoder that has received nothing.
    pub fn new() -> (d: SseDecoder)
        ensures
            d@.pending == Seq::<char>::empty(),
            !d@.done,
    {
        SseDecoder { pending: Vec::new(), done: false }
    }

    /// Whether the reply has ended.
    pub fn is_done(&self) -> (b: bool)
        ensures
            b == self@.done,
    {
        self.done
    }

    /// Takes in the next piece of streamed text and returns the events of the
    /// lines it completes, in order; after the end of the reply, nothing more
    /// is read.
    pub fn push(&mut self, text: &str) -> (events: Vec<SseEvent>)
        ensures
            old(self)@.done ==> final(self)@ == old(self)@ && events@.len() == 0,
            !old(self)@.done ==> {
                let r = sse_process(old(self)@.pending + text@);
                &&& events_view(events@) == r.0
                &&& final(self)@.pending == r.1
                &&& final(self)@.done == r.2
            },
    {
        let mut events: Vec<SseEvent> = Vec::new();
        if self.done {
            return events;
        }
        let ghost start = self.pending@ + text@;
        let new_chars = to_chars(text);
        let mut i: usize = 0;
        while i < new_chars.len()
            invariant
                i <= new_chars@.len(),
                new_chars@ == text@,
                self.pending@ == old(self).pending@ + text@.take(i as int),
                !self.done,
            decreases new_chars@.len() - i,
        {
            self.pending.push(new_chars[i]);
            proof {
                assert(text@.take(i + 1) =~= text@.take(i as int).push(text@[i as int]));
            }
            i = i + 1;
        }
        proof {
            assert(text@.take(i as int) =~= text@);
            assert(events_view(events@) =~= Seq::<SseEventView>::empty());
        }
        loop
            invariant
                !self.done ==> {
                    let p = sse_process(self.pending@);
                    let s = sse_process(start);
                    &&& s.0 == events_view(events@) + p.0
                    &&& s.1 == p.1
                    &&& s.2 == p.2
                },
                self.done ==> {
                    let s = sse_process(start);
                    &&& s.0 == events_view(events@)
                    &&& s.1 == self.pending@
                    &&& s.2
                },
            ensures
                ({
                    let s = sse_process(start);
                    &&& s.0 == events_view(events@)
                    &&& s.1 == self.pending@
                    &&& s.2 == self.done
                }),
            decreases self.pending@.len(), if self.done { 0int } else { 1int },
        {
            if self.done {
                break;
            }
            proof {
                lemma_find_char(self.pending@, '\n');
                assert(self.pending@.subrange(0, self.pending@.len() as int) =~= self.pending@);
            }
            match find_char_in(self.pending.as_slice(), 0, self.pending.len(), '\n') {
                None => {
                    proof {
                        assert(events_view(events@) + Seq::<SseEventView>::empty() =~= events_view(
                            events@,
                        ));
                        assert(sse_process(self.pending@) == (
                            Seq::<SseEventView>::empty(),
                            self.pending@,
                            false,
                        ));
                    }
                    break;
                },
                Some(p) => {
                    assert(p < self.pending.len());
                    let ghost before = self.pending@;
                    let ghost evs_before = events_view(events@);
                    let line = string_from_chars(self.pending.as_slice(), 0, p + 1);
                    let rest = chars_from(self.pending.as_slice(), p + 1);
                    proof {
                        assert(line@ =~= before.take(p + 1));
                    }
                    let ev = parse_sse_event(line.as_str());
                    proof {
                        assert(sse_process(before) == match sse_event_of(before.take(p + 1)) {
                            SseEventView::Done => (
                                seq![SseEventView::Done],
                                before.skip(p + 1),
                                true,
                            ),
                            SseEventView::Chunk(c) => {
                                let r = sse_process(before.skip(p + 1));
                                (seq![SseEventView::Chunk(c)] + r.0, r.1, r.2)
                            },
                            SseEventView::Skip => sse_process(before.skip(p + 1)),
                        });
                    }
                    self.pending = rest;
                    match ev {
                        SseEvent::Done => {
                            let ghost prev = events_view(events@);
                            events.push(SseEvent::Done);
                            self.done = true;
                            proof {
                                assert(events_view(events@) =~= prev.push(SseEventView::Done));
                                assert(evs_before + seq![SseEventView::Done] =~= events_view(
                                    events@,
                                ));
                            }
                        },
                        SseEvent::Chunk(c) => {
                            let ghost cv = c@;
                            let ghost prev = events_view(events@);
                            events.push(SseEvent::Chunk(c));
                            proof {
                                assert(events_view(events@) =~= prev.push(SseEventView::Chunk(cv)));
                                let r = sse_process(self.pending@);
                                assert(evs_before + (seq![SseEventView::Chunk(cv)] + r.0)
                                    =~= events_view(events@) + r.0);
                            }
                        },
                        SseEvent::Skip => {},
                    }
                },
            }
        }
        events
    }

    /// The end of the stream: if the reply has not ended yet, it ends now.
    pub fn finish(&mut self) -> (e: Option<SseEvent>)
        ensures
            final(self)@.done,
            final(self)@.pending == old(self)@.pending,
            old(self)@.done ==> e is None,
            !old(self)@.done ==> e matches Some(SseEvent::Done),
    {
        if self.done {
            None
        } else {
            self.done = true;
            Some(SseEvent::Done)
        }
    }
}

/// Reading `x` and then `y` reads the lines of `x`, then those of what was
/// left of `x` followed by `y`.
pub proof fn lemma_process_append(x: Seq<char>, y: Seq<char>)
    ensures
        ({
            let rx = sse_process(x);
            let rxy = sse_process(x + y);
            if rx.2 {
                &&& rxy.0 == rx.0
                &&& rxy.1 == rx.1 + y
                &&& rxy.2
            } else {
                let r = sse_process(rx.1 + y);
                &&& rxy.0 == rx.0 + r.0
                &&& rxy.1 == r.1
                &&& rxy.2 == r.2
            }
        }),
    decreases x.len(),
{
    lemma_find_char(x, '\n');
    let p = find_char(x, '\n');
    if p < 0 {
        assert(Seq::<SseEventView>::empty() + sse_process(x + y).0 =~= sse_process(x + y).0);
    } else {
        let xy = x + y;
        assert forall|j: int| 0 <= j < xy.len() && j < p implies xy[j] != '\n' by {
            assert(xy[j] == x[j]);
        }
        lemma_find_char_unique(xy, '\n', p);
        let rest = x.skip(p + 1);
        assert(xy.take(p + 1) =~= x.take(p + 1));
        assert(xy.skip(p + 1) =~= rest + y);
        lemma_process_append(rest, y);
        let r1 = sse_process(rest);
        match sse_event_of(x.take(p + 1)) {
            SseEventView::Done => {},
            SseEventView::Chunk(c) => {
                if !r1.2 {
                    let r = sse_process(r1.1 + y);
                    assert(seq![SseEventView::Chunk(c)] + (r1.0 + r.0) =~= (seq![
                        SseEventView::Chunk(c),
                    ] + r1.0) + r.0);
                }
            },
            SseEventView::Skip => {},
        }
    }
}

/// The events do not depend on how the stream is cut into pieces: pushing
/// `t1` and then `t2` gives the events that pushing `t1 + t2` at once gives,
/// in the same order, and leaves the same text pending. When the reply ends
/// within `t1`, pushing all at once reads nothing after the end either.
pub proof fn law_pieces_do_not_matter(pending: Seq<char>, t1: Seq<char>, t2: Seq<char>)
    ensures
        ({
            let whole = sse_process(pending + (t1 + t2));
            let first = sse_process(pending + t1);
            if first.2 {
                whole.0 == first.0 && whole.2
            } else {
                let second = sse_process(first.1 + t2);
                &&& whole.0 == first.0 + second.0
                &&& whole.1 == second.1
                &&& whole.2 == second.2
            }
        }),
{
    assert(pending + (t1 + t2) =~= (pending + t1) + t2);
    lemma_process_append(pending + t1, t2);
}

/// A line is read after trimming its whitespace: unless it starts with
/// "data: " it is skipped; a payload "[DONE]" ends the reply; any other
/// payload carries exactly the string the JSON holds at
/// `choices[0].delta.content`, whatever that string is (whitespace and
/// line breaks included), and is skipped only when there is no such string.
pub proof fn law_data_line_events(line: Seq<char>)
    ensures
        ({
            let t = trim_ws(line);
            let d = t.skip("data: "@.len() as int);
            &&& !has_prefix(t, "data: "@) ==> sse_event_of(line) == SseEventView::Skip
            &&& has_prefix(t, "data: "@) && d == "[DONE]"@ ==> sse_event_of(line)
                == SseEventView::Done
            &&& forall|s: Seq<char>|
                has_prefix(t, "data: "@) && d != "[DONE]"@ && json_delta_content(d) == Some(s)
                    ==> sse_event_of(line) == SseEventView::Chunk(s)
            &&& has_prefix(t, "data: "@) && d != "[DONE]"@ && json_delta_content(d) is None
                ==> sse_event_of(line) == SseEventView::Skip
        }),
{
    reveal_strlit("data: ");
    let t = trim_ws(line);
    if has_prefix(t, "data: "@) {
        assert(t.len() > 0);
    }
}

/// The text after the last line break waits: with no line break, nothing is
/// read and all of it stays pending.
pub proof fn law_incomplete_line_waits(buf: Seq<char>)
    requires
        forall|j: int| 0 <= j < buf.len() ==> buf[j] != '\n',
    ensures
        sse_process(buf) == (Seq::<SseEventView>::empty(), buf, false),
{
    lemma_find_char_unique(buf, '\n', -1);
}

/// One complete line is read as its event: a part of the reply is passed
/// on, the end of the reply is passed on and ends the reading, and a
/// skipped line gives nothing; the text after the line stays pending.
pub proof fn law_one_line(line: Seq<char>, rest: Seq<char>)
    requires
        forall|j: int| 0 <= j < line.len() ==> line[j] != '\n',
        forall|j: int| 0 <= j < rest.len() ==> rest[j] != '\n',
    ensures
        ({
            let r = sse_process(line.push('\n') + rest);
            match sse_event_of(line.push('\n')) {
                SseEventView::Chunk(c) => r == (seq![SseEventView::Chunk(c)], rest, false),
                SseEventView::Done => r == (seq![SseEventView::Done], rest, true),
                SseEventView::Skip => r == (Seq::<SseEventView>::empty(), rest, false),
            }
        }),
{
    let b = line.push('\n') + rest;
    let p = line.len() as int;
    assert(b[p] == '\n');
    assert forall|j: int| 0 <= j < b.len() && j < p implies b[j] != '\n' by {
        assert(b[j] == line[j]);
    }
    lemma_find_char_unique(b, '\n', p);
    assert(b.take(p + 1) =~= line.push('\n'));
    assert(b.skip(p + 1) =~= rest);
    law_incomplete_line_waits(rest);
    if let SseEventView::Chunk(c) = sse_event_of(line.push('\n')) {
        assert(seq![SseEventView::Chunk(c)] + Seq::<SseEventView>::empty() =~= seq![
            SseEventView::Chunk(c),
        ]);
    }
}

/// The payload of a line is the text after "data: " of the trimmed line,
/// and there is none when the trimmed line does not start with "data: ".
pub proof fn law_data_payload(line: Seq<char>)
    ensures
        has_prefix(trim_ws(line), "data: "@) ==> sse_data_of(line) == Some(
            trim_ws(line).skip("data: "@.len() as int),
        ),
        !has_prefix(trim_ws(line), "data: "@) ==> sse_data_of(line) is None,
{
    reveal_strlit("data: ");
}

} // verus!
