//! The events and commands that flow between the application's parts.

use vstd::prelude::*;
use crate::message::Message;

verus! {

/// What one part of the application asks of another.
#[derive(Debug, Clone, PartialEq, Eq)]
pub enum Action {
    Tick,
    Render,
    Resize(u16, u16),
    Suspend,
    Resume,
    Quit,
    ClearScreen,
    Error(String),
    Help,
    /// The messages to send to the model, oldest first.
    SendMessage(Vec<Message>),
    /// One streamed part of the model's reply.
    ReceiveChunk(String),
    /// The model's reply is complete.
    StreamEnd,
}

/// The name of an action's variant, without its payload.
pub open spec fn action_name(a: Action) -> Seq<char> {
    match a {
        Action::Tick => "Tick"@,
        Action::Render => "Render"@,
        Action::Resize(_, _) => "Resize"@,
        Action::Suspend => "Suspend"@,
        Action::Resume => "Resume"@,
        Action::Quit => "Quit"@,
        Action::ClearScreen => "ClearScreen"@,
        Action::Error(_) => "Error"@,
        Action::Help => "Help"@,
        Action::SendMessage(_) => "SendMessage"@,
        Action::ReceiveChunk(_) => "ReceiveChunk"@,
        Action::StreamEnd => "StreamEnd"@,
    }
}

impl Action {
    /// The variant's name, as the action is shown in logs; payloads are never shown.
    pub fn name(&self) -> (s: &'static str)
        ensures
            s@ == action_name(*self),
    {
        match self {
            Action::Tick => "Tick",
            Action::Render => "Render",
            Action::Resize(_, _) => "Resize",
            Action::Suspend => "Suspend",
            Action::Resume => "Resume",
            Action::Quit => "Quit",
            Action::ClearScreen => "ClearScreen",
            Action::Error(_) => "Error",
            Action::Help => "Help",
            Action::SendMessage(_) => "SendMessage",
            Action::ReceiveChunk(_) => "ReceiveChunk",
            Action::StreamEnd => "StreamEnd",
        }
    }
}

/// The name tells the variant and nothing else: two actions have the same
/// name exactly when they are of the same variant, whatever their payloads.
pub proof fn law_action_names(a: Action, b: Action)
    ensures
        action_name(a) == action_name(b) <==> {
            &&& (a is Tick <==> b is Tick)
            &&& (a is Render <==> b is Render)
            &&& (a is Resize <==> b is Resize)
            &&& (a is Suspend <==> b is Suspend)
            &&& (a is Resume <==> b is Resume)
            &&& (a is Quit <==> b is Quit)
            &&& (a is ClearScreen <==> b is ClearScreen)
            &&& (a is Error <==> b is Error)
            &&& (a is Help <==> b is Help)
            &&& (a is SendMessage <==> b is SendMessage)
            &&& (a is ReceiveChunk <==> b is ReceiveChunk)
            &&& (a is StreamEnd <==> b is StreamEnd)
        },
{
    reveal_strlit("Tick");
    reveal_strlit("Render");
    reveal_strlit("Resize");
    reveal_strlit("Suspend");
    reveal_strlit("Resume");
    reveal_strlit("Quit");
    reveal_strlit("ClearScreen");
    reveal_strlit("Error");
    reveal_strlit("Help");
    reveal_strlit("SendMessage");
    reveal_strlit("ReceiveChunk");
    reveal_strlit("StreamEnd");
    if action_name(a) == action_name(b) {
        let n = action_name(a);
        assert(n.len() == action_name(b).len());
        assert(n[0] == action_name(b)[0]);
        assert(n.len() > 3 ==> n[3] == action_name(b)[3]);
    }
}

} // verus!
