//! The chat panel's decisions: how keys edit the input box and start a
//! request, and how streamed events update the conversation.

use vstd::prelude::*;
use crate::action::Action;
use crate::conversation::{
    Conversation, ConversationView, conv_append_chunk, conv_finish_response, conv_push_user,
    conv_start_response, conv_tick,
};
use crate::input::{
    Input, InputView, empty_input, input_delete_char, input_enter_char, input_move_left,
    input_move_right,
};
use crate::message::{Message, MessageView, messages_view};

verus! {

/// The key of a key press, as the chat panel tells keys apart.
#[derive(Debug, Clone, Copy)]
pub enum Key {
    Enter,
    Char(char),
    Left,
    Right,
    Backspace,
    Esc,
    Other,
}

/// A key press: the key, whether Control was held, whether Shift was held,
/// and whether no modifier at all was held.
#[derive(Debug, Clone, Copy)]
pub struct KeyPress {
    pub key: Key,
    pub ctrl: bool,
    pub shift: bool,
    pub plain: bool,
}

/// What a key press does in the chat panel.
#[derive(Debug, Clone, Copy, PartialEq, Eq)]
pub enum KeyEffect {
    /// Send the typed text (Enter with no modifier).
    Send,
    /// Insert a line break (Ctrl+J, Shift+Enter).
    NewLine,
    /// Move the cursor left (Left, Ctrl+H).
    CursorLeft,
    /// Move the cursor right (Right, Ctrl+L).
    CursorRight,
    /// Delete the character before the cursor (Backspace).
    Delete,
    /// Type a character (any other character key).
    Insert(char),
    /// Quit the application (Esc).
    Quit,
    /// Nothing.
    Ignore,
}

/// The key bindings of the chat panel, tried in order.
pub open spec fn key_effect(k: KeyPress) -> KeyEffect {
    match k.key {
        Key::Enter => if k.shift {
            KeyEffect::NewLine
        } else if k.plain {
            KeyEffect::Send
        } else {
            KeyEffect::Ignore
        },
        Key::Char(c) => if c == 'j' && k.ctrl {
            KeyEffect::NewLine
        } else if c == 'h' && k.ctrl {
            KeyEffect::CursorLeft
        } else if c == 'l' && k.ctrl {
            KeyEffect::CursorRight
        } else {
            KeyEffect::Insert(c)
        },
        Key::Left => KeyEffect::CursorLeft,
        Key::Right => KeyEffect::CursorRight,
        Key::Backspace => KeyEffect::Delete,
        Key::Esc => KeyEffect::Quit,
        Key::Other => KeyEffect::Ignore,
    }
}

/// What a key press does in the chat panel.
pub fn classify_key(k: KeyPress) -> (e: KeyEffect)
    ensures
        e == key_effect(k),
{
    match k.key {
        Key::Enter => if k.shift {
            KeyEffect::NewLine
        } else if k.plain {
            KeyEffect::Send
        } else {
            KeyEffect::Ignore
        },
        Key::Char(c) => if c == 'j' && k.ctrl {
            KeyEffect::NewLine
        } else if c == 'h' && k.ctrl {
            KeyEffect::CursorLeft
        } else if c == 'l' && k.ctrl {
            KeyEffect::CursorRight
        } else {
            KeyEffect::Insert(c)
        },
        Key::Left => KeyEffect::CursorLeft,
        Key::Right => KeyEffect::CursorRight,
        Key::Backspace => KeyEffect::Delete,
        Key::Esc => KeyEffect::Quit,
        Key::Other => KeyEffect::Ignore,
    }
}

/// The keys the whole application handles before any panel: Ctrl+C quits.
pub open spec fn app_key_quits(k: KeyPress) -> bool {
    k.ctrl && k.key == Key::Char('c')
}

/// The action a key press asks of the whole application, before the chat
/// panel sees it: Ctrl+C quits; any other key is left to the panel.
pub fn app_key_action(k: KeyPress) -> (a: Option<Action>)
    ensures
        app_key_quits(k) ==> a matches Some(Action::Quit),
        !app_key_quits(k) ==> a is None,
{
    match k.key {
        Key::Char(c) => if k.ctrl && c == 'c' {
            Some(Action::Quit)
        } else {
            None
        },
        _ => None,
    }
}

/// Copies of the given messages, in order.
pub fn copy_messages(s: &[Message]) -> (r: Vec<Message>)
    ensures
        messages_view(r@) == messages_view(s@),
{
    let mut r: Vec<Message> = Vec::new();
    let mut i: usize = 0;
    while i < s.len()
        invariant
            i <= s.len(),
            r.len() == i,
            forall|j: int| 0 <= j < i ==> #[trigger] r@[j]@ == s@[j]@,
        decreases s.len() - i,
    {
        r.push(s[i].duplicate());
        i = i + 1;
    }
    proof {
        assert(messages_view(r@) =~= messages_view(s@));
    }
    r
}

/// The mathematical value of the chat panel.
pub struct ChatView {
    pub system_prompt: MessageView,
    pub conversation: ConversationView,
    pub input: InputView,
    pub focused: bool,
}

/// The chat panel's state: the system prompt put together once at start,
/// the conversation, and the input box.
pub struct Chat {
    system_prompt: Message,
    conversation: Conversation,
    input: Input,
    focused: bool,
}

/// The chat panel after a key press.
pub open spec fn chat_after_key(v: ChatView, k: KeyPress) -> ChatView {
    match key_effect(k) {
        KeyEffect::Send => if v.input.text.len() > 0 {
            ChatView {
                conversation: conv_start_response(conv_push_user(v.conversation, v.input.text)),
                input: empty_input(),
                ..v
            }
        } else {
            v
        },
        KeyEffect::NewLine => ChatView { input: input_enter_char(v.input, '\n'), ..v },
        KeyEffect::CursorLeft => ChatView { input: input_move_left(v.input), ..v },
        KeyEffect::CursorRight => ChatView { input: input_move_right(v.input), ..v },
        KeyEffect::Delete => ChatView { input: input_delete_char(v.input), ..v },
        KeyEffect::Insert(c) => ChatView { input: input_enter_char(v.input, c), ..v },
        _ => v,
    }
}

/// The messages a key press sends to the model, if it sends any.
pub open spec fn key_request(v: ChatView, k: KeyPress) -> Option<Seq<MessageView>> {
    if key_effect(k) == KeyEffect::Send && v.input.text.len() > 0 {
        Some(seq![v.system_prompt] + chat_after_key(v, k).conversation.messages)
    } else {
        None
    }
}

/// The chat panel after an action from the application.
pub open spec fn chat_after_action(v: ChatView, action: Action) -> ChatView {
    ChatView {
        conversation: match action {
            Action::Tick => conv_tick(v.conversation),
            Action::ReceiveChunk(chunk) => conv_append_chunk(v.conversation, chunk@),
            Action::StreamEnd => conv_finish_response(v.conversation),
            _ => v.conversation,
        },
        ..v
    }
}

impl View for Chat {
    type V = ChatView;

    closed spec fn view(&self) -> ChatView {
        ChatView {
            system_prompt: self.system_prompt@,
            conversation: self.conversation@,
            input: self.input@,
            focused: self.focused,
        }
    }
}

impl Chat {
    /// The input box's cursor lies on a character boundary.
    pub closed spec fn wf(&self) -> bool {
        self.input.wf()
    }

    /// A focused chat panel with an empty conversation and input box.
    pub fn new(system_prompt: Message) -> (c: Chat)
        ensures
            c.wf(),
            c@.system_prompt == system_prompt@,
            c@.conversation == crate::conversation::empty_conversation(),
            c@.input == empty_input(),
            c@.focused,
    {
        Chat {
            system_prompt,
            conversation: Conversation::new(),
            input: Input::new(),
            focused: true,
        }
    }

    /// The system prompt.
    pub fn system_prompt(&self) -> (m: &Message)
        ensures
            m@ == self@.system_prompt,
    {
        &self.system_prompt
    }

    /// The conversation.
    pub fn conversation(&self) -> (c: &Conversation)
        ensures
            c@ == self@.conversation,
    {
        &self.conversation
    }

    /// The input box.
    pub fn input(&self) -> (i: &Input)
        requires
            self.wf(),
        ensures
            i@ == self@.input,
            i.wf(),
    {
        &self.input
    }

    /// Whether the panel has the keyboard focus.
    pub fn is_focused(&self) -> (b: bool)
        ensures
            b == self@.focused,
    {
        self.focused
    }

    /// Handles a key press and returns the action to send to the
    /// application, if any: Enter with text sends the system prompt followed
    /// by the whole conversation, which now ends with the typed text, and
    /// Esc asks to quit.
    pub fn handle_key_event(&mut self, k: KeyPress) -> (r: Option<Action>)
        requires
            old(self).wf(),
        ensures
            final(self).wf(),
            final(self)@.system_prompt == old(self)@.system_prompt,
            final(self)@.focused == old(self)@.focused,
            final(self)@ == chat_after_key(old(self)@, k),
            match key_request(old(self)@, k) {
                Some(msgs) => r matches Some(Action::SendMessage(m)) && messages_view(m@) == msgs,
                None => !(r matches Some(Action::SendMessage(_))),
            },
            match key_effect(k) {
                KeyEffect::Send => if old(self)@.input.text.len() > 0 {
                    &&& final(self)@.conversation == conv_start_response(
                        conv_push_user(old(self)@.conversation, old(self)@.input.text),
                    )
                    &&& final(self)@.input == empty_input()
                    &&& r matches Some(Action::SendMessage(msgs)) && messages_view(msgs@) == seq![
                        old(self)@.system_prompt,
                    ] + final(self)@.conversation.messages
                } else {
                    &&& final(self)@.conversation == old(self)@.conversation
                    &&& final(self)@.input == old(self)@.input
                    &&& r is None
                },
                KeyEffect::Quit => {
                    &&& final(self)@.conversation == old(self)@.conversation
                    &&& final(self)@.input == old(self)@.input
                    &&& r matches Some(Action::Quit)
                },
                effect => {
                    &&& final(self)@.conversation == old(self)@.conversation
                    &&& r is None
                    &&& final(self)@.input == match effect {
                        KeyEffect::NewLine => input_enter_char(old(self)@.input, '\n'),
                        KeyEffect::CursorLeft => input_move_left(old(self)@.input),
                        KeyEffect::CursorRight => input_move_right(old(self)@.input),
                        KeyEffect::Delete => input_delete_char(old(self)@.input),
                        KeyEffect::Insert(c) => input_enter_char(old(self)@.input, c),
                        _ => old(self)@.input,
                    }
                },
            },
    {
        match classify_key(k) {
            KeyEffect::Send => {
                if !self.input.is_empty() {
                    self.conversation.push_user(self.input.text());
                    self.input.clear();
                    self.conversation.start_response();
                    let mut msgs: Vec<Message> = Vec::new();
                    msgs.push(self.system_prompt.duplicate());
                    let mut history = copy_messages(self.conversation.messages());
                    msgs.append(&mut history);
                    proof {
                        assert(messages_view(msgs@) =~= seq![self.system_prompt@]
                            + self.conversation@.messages);
                    }
                    Some(Action::SendMessage(msgs))
                } else {
                    None
                }
            },
            KeyEffect::NewLine => {
                self.input.enter_new_line();
                None
            },
            KeyEffect::CursorLeft => {
                self.input.move_cursor_left();
                None
            },
            KeyEffect::CursorRight => {
                self.input.move_cursor_right();
                None
            },
            KeyEffect::Delete => {
                self.input.delete_char();
                None
            },
            KeyEffect::Insert(c) => {
                self.input.enter_char(c);
                None
            },
            KeyEffect::Quit => Some(Action::Quit),
            KeyEffect::Ignore => None,
        }
    }

    /// Applies an action from the application: a tick advances the spinner, a
    /// received part extends the reply, and the end of the stream records it.
    pub fn update(&mut self, action: &Action)
        requires
            old(self).wf(),
        ensures
            final(self).wf(),
            final(self)@.system_prompt == old(self)@.system_prompt,
            final(self)@.input == old(self)@.input,
            final(self)@.focused == old(self)@.focused,
            final(self)@ == chat_after_action(old(self)@, *action),
            final(self)@.conversation == match *action {
                Action::Tick => conv_tick(old(self)@.conversation),
                Action::ReceiveChunk(chunk) => conv_append_chunk(
                    old(self)@.conversation,
                    chunk@,
                ),
                Action::StreamEnd => conv_finish_response(old(self)@.conversation),
                _ => old(self)@.conversation,
            },
    {
        match action {
            Action::Tick => self.conversation.tick(),
            Action::ReceiveChunk(chunk) => self.conversation.append_chunk(chunk.as_str()),
            Action::StreamEnd => self.conversation.finish_response(),
            _ => {},
        }
    }
}

/// The key bindings: a character typed without Control is inserted as it
/// is (only Ctrl+J, Ctrl+H and Ctrl+L edit, and any other Control character
/// is inserted too); Enter sends when no modifier is held and breaks the
/// line when Shift is held; the arrows move the cursor, Backspace deletes
/// and Esc quits.
pub proof fn law_key_bindings(k: KeyPress)
    ensures
        forall|c: char| k.key == Key::Char(c) && !k.ctrl ==> key_effect(k) == KeyEffect::Insert(c),
        forall|c: char|
            k.key == Key::Char(c) && k.ctrl && c != 'j' && c != 'h' && c != 'l' ==> key_effect(k)
                == KeyEffect::Insert(c),
        k.key == Key::Char('j') && k.ctrl ==> key_effect(k) == KeyEffect::NewLine,
        k.key == Key::Char('h') && k.ctrl ==> key_effect(k) == KeyEffect::CursorLeft,
        k.key == Key::Char('l') && k.ctrl ==> key_effect(k) == KeyEffect::CursorRight,
        k.key == Key::Enter && k.shift ==> key_effect(k) == KeyEffect::NewLine,
        k.key == Key::Enter && !k.shift && k.plain ==> key_effect(k) == KeyEffect::Send,
        k.key == Key::Enter && !k.shift && !k.plain ==> key_effect(k) == KeyEffect::Ignore,
        k.key == Key::Left ==> key_effect(k) == KeyEffect::CursorLeft,
        k.key == Key::Right ==> key_effect(k) == KeyEffect::CursorRight,
        k.key == Key::Backspace ==> key_effect(k) == KeyEffect::Delete,
        k.key == Key::Esc ==> key_effect(k) == KeyEffect::Quit,
        k.key == Key::Other ==> key_effect(k) == KeyEffect::Ignore,
{
}

/// Ctrl+C, and only Ctrl+C, quits the whole application.
pub proof fn law_ctrl_c_quits(k: KeyPress)
    ensures
        (k.ctrl && k.key == Key::Char('c')) <==> app_key_quits(k),
{
}


/// Enter with text in the box sends it: the box is emptied, the text becomes
/// the conversation's last user message and its last shown line, a reply is
/// awaited, and the model is sent the system prompt followed by every
/// message so far, ending with the new one. With an empty box, Enter does
/// nothing and sends nothing.
pub proof fn law_send(v: ChatView, k: KeyPress)
    requires
        k.key == Key::Enter,
        !k.shift,
        k.plain,
    ensures
        v.input.text.len() > 0 ==> {
            let w = chat_after_key(v, k);
            let m = MessageView { role: "user"@, content: v.input.text };
            &&& w.input.text.len() == 0
            &&& w.input.cursor == 0
            &&& w.conversation.messages == v.conversation.messages.push(m)
            &&& w.conversation.display == v.conversation.display.push("You: "@ + v.input.text)
            &&& w.conversation.waiting
            &&& w.system_prompt == v.system_prompt
            &&& key_request(v, k) == Some(seq![v.system_prompt] + v.conversation.messages.push(m))
        },
        v.input.text.len() == 0 ==> chat_after_key(v, k) == v && key_request(v, k) is None,
{
}

/// Only Enter sends; every other key leaves the conversation, the system
/// prompt and the focus as they were, and a key that does not edit (Esc,
/// Enter with a modifier other than Shift, an unbound key) changes nothing.
pub proof fn law_other_keys_keep_conversation(v: ChatView, k: KeyPress)
    ensures
        k.key != Key::Enter ==> key_request(v, k) is None,
        k.key != Key::Enter ==> chat_after_key(v, k).conversation == v.conversation,
        chat_after_key(v, k).system_prompt == v.system_prompt,
        chat_after_key(v, k).focused == v.focused,
        k.key == Key::Esc || k.key == Key::Other || (k.key == Key::Enter && !k.shift && !k.plain)
            ==> chat_after_key(v, k) == v,
{
}

/// A character typed without Control goes into the box at the cursor, and
/// the cursor moves past it; the rest of the text stays in order.
pub proof fn law_typing(v: ChatView, k: KeyPress, c: char)
    requires
        k.key == Key::Char(c),
        !k.ctrl,
        v.input.cursor <= v.input.text.len(),
    ensures
        chat_after_key(v, k).input.text == v.input.text.take(v.input.cursor as int).push(c)
            + v.input.text.skip(v.input.cursor as int),
        chat_after_key(v, k).input.cursor == v.input.cursor + 1,
        chat_after_key(v, k).conversation == v.conversation,
{
    let t = v.input.text;
    let i = v.input.cursor as int;
    assert(t.insert(i, c) =~= t.take(i).push(c) + t.skip(i));
}

/// Streamed parts of the reply go to the conversation: each received part
/// is added to the reply so far and ends the wait, the end of the stream
/// records the reply as one assistant message, and a tick only moves the
/// spinner. No action touches the input box, the system prompt or the
/// focus, and an action of any other kind changes nothing.
pub proof fn law_actions(v: ChatView, action: Action)
    ensures
        chat_after_action(v, action).input == v.input,
        chat_after_action(v, action).system_prompt == v.system_prompt,
        chat_after_action(v, action).focused == v.focused,
        action matches Action::ReceiveChunk(chunk) ==> chat_after_action(v, action).conversation.current
            == v.conversation.current + chunk@ && !chat_after_action(v, action).conversation.waiting
            && chat_after_action(v, action).conversation.messages == v.conversation.messages,
        (action is StreamEnd && v.conversation.current.len() > 0) ==> chat_after_action(
            v,
            action,
        ).conversation.messages == v.conversation.messages.push(
            MessageView { role: "assistant"@, content: v.conversation.current },
        ) && chat_after_action(v, action).conversation.current.len() == 0,
        action is Tick ==> chat_after_action(v, action).conversation.messages
            == v.conversation.messages && chat_after_action(v, action).conversation.display
            == v.conversation.display && chat_after_action(v, action).conversation.current
            == v.conversation.current && chat_after_action(v, action).conversation.waiting
            == v.conversation.waiting,
        !(action is Tick || action is ReceiveChunk || action is StreamEnd) ==> chat_after_action(
            v,
            action,
        ) == v,
{
}

} // verus!
