//! The conversation log: what the user sees, what the model is sent, and the
//! reply being streamed in.

use vstd::prelude::*;
use crate::message::{Message, MessageView, messages_view};
use vstd::string::StringExecFns;
use crate::text::{concat, has_prefix, owned, str_starts_with};
use crate::utils::{spinner_braille, spinner_frame};

verus! {

/// The mathematical value of a conversation.
pub struct ConversationView {
    /// The lines shown to the user.
    pub display: Seq<Seq<char>>,
    /// The messages sent to the model.
    pub messages: Seq<MessageView>,
    /// The reply received so far and not yet recorded.
    pub current: Seq<char>,
    /// A reply was asked for and no part of it has come yet.
    pub waiting: bool,
    /// The spinner's tick.
    pub tick: u8,
}

/// The views of a sequence of strings.
pub open spec fn strings_view(s: Seq<String>) -> Seq<Seq<char>> {
    s.map_values(|x: String| x@)
}

/// The empty conversation.
pub open spec fn empty_conversation() -> ConversationView {
    ConversationView {
        display: Seq::empty(),
        messages: Seq::empty(),
        current: Seq::empty(),
        waiting: false,
        tick: 0,
    }
}

/// The view of a user message.
pub open spec fn user_message(text: Seq<char>) -> MessageView {
    MessageView { role: "user"@, content: text }
}

/// The view of an assistant message.
pub open spec fn assistant_message(text: Seq<char>) -> MessageView {
    MessageView { role: "assistant"@, content: text }
}

/// The user's text is shown after "You: " and sent as a user message.
pub open spec fn conv_push_user(v: ConversationView, text: Seq<char>) -> ConversationView {
    ConversationView {
        display: v.display.push("You: "@ + text),
        messages: v.messages.push(user_message(text)),
        ..v
    }
}

/// A reply is now awaited.
pub open spec fn conv_start_response(v: ConversationView) -> ConversationView {
    ConversationView { waiting: true, ..v }
}

/// The spinner advances by one, wrapping from 255 to 0.
pub open spec fn conv_tick(v: ConversationView) -> ConversationView {
    ConversationView { tick: if v.tick == 255 { 0 } else { (v.tick + 1) as u8 }, ..v }
}

/// A received part of the reply: no longer waiting, the part is added to the
/// reply so far, and shown at the end of the last line if that line is an
/// "AI: " line, else on a new "AI: " line.
pub open spec fn conv_append_chunk(v: ConversationView, chunk: Seq<char>) -> ConversationView {
    ConversationView {
        waiting: false,
        current: v.current + chunk,
        display: if v.display.len() > 0 && has_prefix(v.display.last(), "AI: "@) {
            v.display.update(v.display.len() - 1, v.display.last() + chunk)
        } else {
            v.display.push("AI: "@ + chunk)
        },
        ..v
    }
}

/// The end of a reply: a non-empty reply so far is recorded as an assistant
/// message and cleared; an empty one changes nothing.
pub open spec fn conv_finish_response(v: ConversationView) -> ConversationView {
    if v.current.len() > 0 {
        ConversationView {
            messages: v.messages.push(assistant_message(v.current)),
            current: Seq::empty(),
            ..v
        }
    } else {
        v
    }
}

/// The lines to draw: the shown lines, then a spinner line while waiting.
pub open spec fn conv_render(v: ConversationView) -> Seq<Seq<char>> {
    if v.waiting {
        v.display.push("AI: "@ + spinner_braille(v.tick as int % 10) + " thinking"@)
    } else {
        v.display
    }
}

/// The chat history: the lines shown and the messages for the model.
pub struct Conversation {
    display: Vec<String>,
    messages: Vec<Message>,
    current_response: String,
    waiting: bool,
    tick: u8,
}

impl View for Conversation {
    type V = ConversationView;

    closed spec fn view(&self) -> ConversationView {
        ConversationView {
            display: strings_view(self.display@),
            messages: messages_view(self.messages@),
            current: self.current_response@,
            waiting: self.waiting,
            tick: self.tick,
        }
    }
}

impl Conversation {
    /// An empty conversation.
    pub fn new() -> (c: Conversation)
        ensures
            c@ == empty_conversation(),
    {
        let c = Conversation {
            display: Vec::new(),
            messages: Vec::new(),
            current_response: String::new(),
            waiting: false,
            tick: 0,
        };
        proof {
            assert(strings_view(c.display@) =~= Seq::<Seq<char>>::empty());
            assert(messages_view(c.messages@) =~= Seq::<MessageView>::empty());
        }
        c
    }

    /// Records a user message, shows it, and returns it.
    pub fn push_user(&mut self, text: &str) -> (m: Message)
        ensures
            final(self)@ == conv_push_user(old(self)@, text@),
            m@ == user_message(text@),
    {
        self.display.push(concat("You: ", text));
        self.messages.push(Message::user(text));
        proof {
            assert(strings_view(self.display@) =~= strings_view(old(self).display@).push(
                "You: "@ + text@,
            ));
            assert(messages_view(self.messages@) =~= messages_view(old(self).messages@).push(
                user_message(text@),
            ));
        }
        Message::user(text)
    }

    /// Marks that a reply is awaited.
    pub fn start_response(&mut self)
        ensures
            final(self)@ == conv_start_response(old(self)@),
    {
        self.waiting = true;
    }

    /// Advances the spinner.
    pub fn tick(&mut self)
        ensures
            final(self)@ == conv_tick(old(self)@),
    {
        self.tick = self.tick.wrapping_add(1);
    }

    /// The messages for the model, oldest first.
    pub fn messages(&self) -> (r: &[Message])
        ensures
            messages_view(r@) == self@.messages,
    {
        self.messages.as_slice()
    }

    /// True while a reply is awaited and none of it has come.
    pub fn is_waiting(&self) -> (b: bool)
        ensures
            b == self@.waiting,
    {
        self.waiting
    }

    /// Takes in one received part of the reply.
    pub fn append_chunk(&mut self, chunk: &str)
        ensures
            final(self)@ == conv_append_chunk(old(self)@, chunk@),
    {
        self.waiting = false;
        self.current_response.append(chunk);
        let n = self.display.len();
        if n > 0 && str_starts_with(self.display[n - 1].as_str(), "AI: ") {
            let mut last = self.display.pop().unwrap();
            last.append(chunk);
            self.display.push(last);
            proof {
                assert(strings_view(self.display@) =~= strings_view(old(self).display@).update(
                    n - 1,
                    strings_view(old(self).display@).last() + chunk@,
                ));
            }
        } else {
            self.display.push(concat("AI: ", chunk));
            proof {
                assert(strings_view(self.display@) =~= strings_view(old(self).display@).push(
                    "AI: "@ + chunk@,
                ));
            }
        }
    }

    /// Ends the reply: records it as an assistant message if it is not empty.
    pub fn finish_response(&mut self)
        ensures
            final(self)@ == conv_finish_response(old(self)@),
    {
        if !self.current_response.as_str().is_empty() {
            self.messages.push(Message::assistant(self.current_response.as_str()));
            self.current_response = String::new();
            proof {
                assert(messages_view(self.messages@) =~= messages_view(old(self).messages@).push(
                    assistant_message(old(self).current_response@),
                ));
            }
        }
    }

    /// The lines to draw, top to bottom.
    pub fn render(&self) -> (lines: Vec<String>)
        ensures
            strings_view(lines@) == conv_render(self@),
    {
        let mut lines: Vec<String> = Vec::new();
        let mut i: usize = 0;
        while i < self.display.len()
            invariant
                i <= self.display.len(),
                strings_view(lines@) == strings_view(self.display@).take(i as int),
            decreases self.display.len() - i,
        {
            lines.push(owned(self.display[i].as_str()));
            proof {
                assert(strings_view(self.display@).take(i + 1) =~= strings_view(
                    self.display@,
                ).take(i as int).push(self.display@[i as int]@));
                assert(strings_view(lines@) =~= strings_view(lines@).take(i as int).push(
                    lines@[i as int]@,
                ));
            }
            i = i + 1;
        }
        proof {
            assert(strings_view(self.display@).take(i as int) =~= strings_view(self.display@));
        }
        if self.waiting {
            let mut line = concat("AI: ", spinner_frame(self.tick as usize));
            line.append(" thinking");
            lines.push(line);
            proof {
                assert(strings_view(lines@) =~= strings_view(self.display@).push(
                    "AI: "@ + spinner_braille(self.tick as int % 10) + " thinking"@,
                ));
            }
        }
        lines
    }
}

/// The parts of a reply, joined in order.
pub open spec fn concat_all(chunks: Seq<Seq<char>>) -> Seq<char>
    decreases chunks.len(),
{
    if chunks.len() == 0 {
        Seq::empty()
    } else {
        concat_all(chunks.drop_last()) + chunks.last()
    }
}

/// The conversation after taking in the given parts, in order.
pub open spec fn conv_append_all(v: ConversationView, chunks: Seq<Seq<char>>) -> ConversationView
    decreases chunks.len(),
{
    if chunks.len() == 0 {
        v
    } else {
        conv_append_chunk(conv_append_all(v, chunks.drop_last()), chunks.last())
    }
}

/// The last shown line is an "AI: " line.
pub open spec fn ends_with_ai_line(v: ConversationView) -> bool {
    v.display.len() > 0 && has_prefix(v.display.last(), "AI: "@)
}

proof fn lemma_append_all(v: ConversationView, chunks: Seq<Seq<char>>)
    requires
        chunks.len() > 0,
        !ends_with_ai_line(v),
    ensures
        ({
            let w = conv_append_all(v, chunks);
            &&& w.display == v.display.push("AI: "@ + concat_all(chunks))
            &&& w.messages == v.messages
            &&& w.current == v.current + concat_all(chunks)
            &&& !w.waiting
            &&& w.tick == v.tick
        }),
    decreases chunks.len(),
{
    if chunks.len() == 1 {
        let e = Seq::<Seq<char>>::empty();
        assert(chunks.drop_last() =~= e);
        assert(concat_all(e) == Seq::<char>::empty());
        assert(conv_append_all(v, e) == v);
        assert(Seq::<char>::empty() + chunks.last() =~= chunks.last());
        assert(concat_all(chunks) == chunks.last());
    } else {
        let prev = chunks.drop_last();
        lemma_append_all(v, prev);
        let u = conv_append_all(v, prev);
        let c = chunks.last();
        let line = "AI: "@ + concat_all(prev);
        assert(line.take("AI: "@.len() as int) =~= "AI: "@);
        assert(u.display.last() == line);
        assert(line + c =~= "AI: "@ + concat_all(chunks));
        assert(u.display.update(u.display.len() - 1, line + c) =~= v.display.push(
            "AI: "@ + concat_all(chunks),
        ));
        assert(v.current + concat_all(prev) + c =~= v.current + concat_all(chunks));
    }
}

/// A reply streamed in parts after the user's message is shown as one
/// "AI: " line holding all the parts in order, and, once it ends, is
/// recorded as one assistant message with that text (when it is not empty).
pub proof fn law_streamed_reply_recorded(v: ConversationView, chunks: Seq<Seq<char>>)
    requires
        v.current.len() == 0,
        chunks.len() > 0,
        !ends_with_ai_line(v),
    ensures
        ({
            let w = conv_finish_response(conv_append_all(v, chunks));
            let reply = concat_all(chunks);
            &&& w.display == v.display.push("AI: "@ + reply)
            &&& w.messages == if reply.len() > 0 {
                v.messages.push(assistant_message(reply))
            } else {
                v.messages
            }
            &&& w.current.len() == 0
            &&& !w.waiting
        }),
{
    lemma_append_all(v, chunks);
    assert(v.current + concat_all(chunks) =~= concat_all(chunks));
}

/// After the user's message, the last shown line is the user's, not an
/// "AI: " line, so the reply starts a line of its own.
pub proof fn law_user_line_is_not_ai_line(v: ConversationView, text: Seq<char>)
    ensures
        !ends_with_ai_line(conv_push_user(v, text)),
        !ends_with_ai_line(conv_start_response(conv_push_user(v, text))),
{
    reveal_strlit("You: ");
    reveal_strlit("AI: ");
    let l = "You: "@ + text;
    assert(l[0] == 'Y');
    if has_prefix(l, "AI: "@) {
        assert(l.take(4)[0] == 'A');
    }
}

/// One exchange: after the user's text is sent and the reply streams in and
/// ends, the model's messages end with the user's message and then the
/// reply (when it is not empty), and the user's line is followed by one
/// "AI: " line with the whole reply.
pub proof fn law_exchange_recorded(v: ConversationView, text: Seq<char>, chunks: Seq<Seq<char>>)
    requires
        v.current.len() == 0,
        chunks.len() > 0,
    ensures
        ({
            let w = conv_finish_response(
                conv_append_all(conv_start_response(conv_push_user(v, text)), chunks),
            );
            let reply = concat_all(chunks);
            &&& w.messages == if reply.len() > 0 {
                v.messages.push(user_message(text)).push(assistant_message(reply))
            } else {
                v.messages.push(user_message(text))
            }
            &&& w.display == v.display.push("You: "@ + text).push("AI: "@ + reply)
            &&& !w.waiting
        }),
{
    law_user_line_is_not_ai_line(v, text);
    law_streamed_reply_recorded(conv_start_response(conv_push_user(v, text)), chunks);
}

/// One operation on a conversation.
pub enum ConversationOp {
    PushUser(Seq<char>),
    StartResponse,
    Tick,
    AppendChunk(Seq<char>),
}

/// The conversation after one operation.
pub open spec fn conv_apply(v: ConversationView, op: ConversationOp) -> ConversationView {
    match op {
        ConversationOp::PushUser(t) => conv_push_user(v, t),
        ConversationOp::StartResponse => conv_start_response(v),
        ConversationOp::Tick => conv_tick(v),
        ConversationOp::AppendChunk(c) => conv_append_chunk(v, c),
    }
}

/// The conversation after the operations, in order.
pub open spec fn conv_apply_all(v: ConversationView, ops: Seq<ConversationOp>) -> ConversationView
    decreases ops.len(),
{
    if ops.len() == 0 {
        v
    } else {
        conv_apply(conv_apply_all(v, ops.drop_last()), ops.last())
    }
}

/// The user messages the operations push, in order.
pub open spec fn pushed_users(ops: Seq<ConversationOp>) -> Seq<MessageView>
    decreases ops.len(),
{
    if ops.len() == 0 {
        Seq::empty()
    } else {
        pushed_users(ops.drop_last()) + match ops.last() {
            ConversationOp::PushUser(t) => seq![user_message(t)],
            _ => Seq::empty(),
        }
    }
}

/// The reply parts the operations bring, joined in order.
pub open spec fn streamed_text(ops: Seq<ConversationOp>) -> Seq<char>
    decreases ops.len(),
{
    if ops.len() == 0 {
        Seq::empty()
    } else {
        streamed_text(ops.drop_last()) + match ops.last() {
            ConversationOp::AppendChunk(c) => c,
            _ => Seq::empty(),
        }
    }
}

proof fn lemma_apply_all(v: ConversationView, ops: Seq<ConversationOp>)
    ensures
        conv_apply_all(v, ops).messages == v.messages + pushed_users(ops),
        conv_apply_all(v, ops).current == v.current + streamed_text(ops),
    decreases ops.len(),
{
    if ops.len() == 0 {
        assert(v.messages + Seq::<MessageView>::empty() =~= v.messages);
        assert(v.current + Seq::<char>::empty() =~= v.current);
    } else {
        lemma_apply_all(v, ops.drop_last());
        let u = conv_apply_all(v, ops.drop_last());
        match ops.last() {
            ConversationOp::PushUser(t) => {
                assert(u.messages.push(user_message(t)) =~= v.messages + pushed_users(ops));
                assert(u.current =~= v.current + streamed_text(ops));
            },
            ConversationOp::AppendChunk(c) => {
                assert(u.messages =~= v.messages + pushed_users(ops));
                assert(u.current + c =~= v.current + streamed_text(ops));
            },
            _ => {
                assert(u.messages =~= v.messages + pushed_users(ops));
                assert(u.current =~= v.current + streamed_text(ops));
            },
        }
    }
}

/// However user messages, response starts and ticks come between the parts
/// of a reply, ending the reply records the user messages in the order
/// they came, then one assistant message holding all the parts joined (when
/// they are not empty); nothing is lost and nothing is recorded per part.
pub proof fn law_reply_recorded_once(v: ConversationView, ops: Seq<ConversationOp>)
    requires
        v.current.len() == 0,
    ensures
        ({
            let w = conv_finish_response(conv_apply_all(v, ops));
            let reply = streamed_text(ops);
            &&& w.messages == if reply.len() > 0 {
                (v.messages + pushed_users(ops)).push(assistant_message(reply))
            } else {
                v.messages + pushed_users(ops)
            }
            &&& w.current.len() == 0
        }),
{
    lemma_apply_all(v, ops);
    assert(v.current + streamed_text(ops) =~= streamed_text(ops));
}

/// The conversation after `k` ticks.
pub open spec fn conv_tick_n(v: ConversationView, k: nat) -> ConversationView
    decreases k,
{
    if k == 0 {
        v
    } else {
        conv_tick(conv_tick_n(v, (k - 1) as nat))
    }
}

/// After `k` ticks the spinner counter is the old one plus `k`, wrapping at
/// 256, and nothing else changes; the spinner line then shows the frame of
/// that counter.
pub proof fn law_ticks_wrap(v: ConversationView, k: nat)
    ensures
        conv_tick_n(v, k) == (ConversationView { tick: ((v.tick + k) % 256) as u8, ..v }),
        conv_tick_n(v, k).waiting ==> conv_render(conv_tick_n(v, k)).last() == "AI: "@
            + spinner_braille(((v.tick + k) % 256) % 10) + " thinking"@,
    decreases k,
{
    if k > 0 {
        law_ticks_wrap(v, (k - 1) as nat);
        let t = ((v.tick + k - 1) % 256) as int;
        assert(t == 255 ==> (v.tick + k) % 256 == 0);
        assert(t != 255 ==> (v.tick + k) % 256 == t + 1);
    } else {
        assert((v.tick as int) % 256 == v.tick as int);
    }
}

/// Drawing shows every shown line, in order, and nothing else, except one
/// spinner line at the end while a reply is awaited.
pub proof fn law_render_keeps_lines(v: ConversationView)
    ensures
        conv_render(v).len() == v.display.len() + if v.waiting {
            1int
        } else {
            0int
        },
        conv_render(v).take(v.display.len() as int) == v.display,
        v.waiting ==> conv_render(v).last() == "AI: "@ + spinner_braille(v.tick as int % 10)
            + " thinking"@,
{
    assert(conv_render(v).take(v.display.len() as int) =~= v.display);
}

/// Asking for a reply only starts the wait: the spinner line appears and
/// nothing else changes. The user's text is added as the last shown line
/// and the last message, and nothing else changes.
pub proof fn law_start_and_push(v: ConversationView, text: Seq<char>)
    ensures
        conv_start_response(v).waiting,
        conv_start_response(v).display == v.display,
        conv_start_response(v).messages == v.messages,
        conv_start_response(v).current == v.current,
        conv_start_response(v).tick == v.tick,
        conv_push_user(v, text).display.len() == v.display.len() + 1,
        conv_push_user(v, text).display.take(v.display.len() as int) == v.display,
        conv_push_user(v, text).display.last() == "You: "@ + text,
        conv_push_user(v, text).messages.len() == v.messages.len() + 1,
        conv_push_user(v, text).messages.take(v.messages.len() as int) == v.messages,
        conv_push_user(v, text).messages.last().role == "user"@,
        conv_push_user(v, text).messages.last().content == text,
        conv_push_user(v, text).current == v.current,
        conv_push_user(v, text).waiting == v.waiting,
{
    assert(conv_push_user(v, text).display.take(v.display.len() as int) =~= v.display);
    assert(conv_push_user(v, text).messages.take(v.messages.len() as int) =~= v.messages);
}

/// A part of the reply is added to the reply so far and ends the wait; it
/// extends the last line when that is an "AI: " line and otherwise starts
/// a new "AI: " line, and earlier lines and the messages stay as they were.
pub proof fn law_append_chunk(v: ConversationView, chunk: Seq<char>)
    ensures
        conv_append_chunk(v, chunk).current == v.current + chunk,
        !conv_append_chunk(v, chunk).waiting,
        conv_append_chunk(v, chunk).messages == v.messages,
        ends_with_ai_line(v) ==> conv_append_chunk(v, chunk).display.len() == v.display.len()
            && conv_append_chunk(v, chunk).display.take(v.display.len() - 1) == v.display.take(
            v.display.len() - 1,
        ) && conv_append_chunk(v, chunk).display.last() == v.display.last() + chunk,
        !ends_with_ai_line(v) ==> conv_append_chunk(v, chunk).display == v.display.push(
            "AI: "@ + chunk,
        ),
        has_prefix(conv_append_chunk(v, chunk).display.last(), "AI: "@),
{
    let w = conv_append_chunk(v, chunk);
    if ends_with_ai_line(v) {
        assert(w.display.take(v.display.len() - 1) =~= v.display.take(v.display.len() - 1));
        let l = v.display.last();
        let n = "AI: "@.len() as int;
        assert(w.display.last() == l + chunk);
        assert((l + chunk).take(n) =~= l.take(n));
    } else {
        assert(("AI: "@ + chunk).take("AI: "@.len() as int) =~= "AI: "@);
    }
}

/// Ending a reply records what came of it as one assistant message and
/// clears it; with nothing received, ending changes nothing. The shown
/// lines never change.
pub proof fn law_finish_response(v: ConversationView)
    ensures
        conv_finish_response(v).display == v.display,
        conv_finish_response(v).current.len() == 0,
        v.current.len() > 0 ==> conv_finish_response(v).messages == v.messages.push(
            MessageView { role: "assistant"@, content: v.current },
        ),
        v.current.len() == 0 ==> conv_finish_response(v) == v,
{
}


/// A new conversation shows nothing, holds no message and no reply, awaits
/// nothing, and draws no line.
pub proof fn law_empty_conversation()
    ensures
        empty_conversation().display.len() == 0,
        empty_conversation().messages.len() == 0,
        empty_conversation().current.len() == 0,
        !empty_conversation().waiting,
        empty_conversation().tick == 0,
        conv_render(empty_conversation()).len() == 0,
{
}

} // verus!
