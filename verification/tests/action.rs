use llm_tui::action::Action;
use llm_tui::message::Message;

#[test]
fn display_variants() {
    assert_eq!(Action::Tick.name(), "Tick");
    assert_eq!(Action::Quit.name(), "Quit");
    assert_eq!(Action::StreamEnd.name(), "StreamEnd");
    assert_eq!(Action::Help.name(), "Help");
    assert_eq!(Action::Suspend.name(), "Suspend");
    assert_eq!(Action::Render.name(), "Render");
    assert_eq!(Action::Resume.name(), "Resume");
    assert_eq!(Action::ClearScreen.name(), "ClearScreen");
}

#[test]
fn send_message_display_and_payload() {
    let action = Action::SendMessage(vec![Message::user("hi")]);
    assert_eq!(action.name(), "SendMessage");

    if let Action::SendMessage(msgs) = action {
        assert_eq!(msgs.len(), 1);
    } else {
        panic!("expted SendMessage variant");
    }
}

#[test]
fn receive_chunk_display_and_paylod() {
    let action = Action::ReceiveChunk("[done]".into());
    assert_eq!(action.name(), "ReceiveChunk");

    if let Action::ReceiveChunk(chunk) = action {
        assert_eq!(chunk, "[done]");
    } else {
        panic!("expected ReceiveChunk variant");
    }
}

#[test]
fn payload_variants_show_only_their_name() {
    assert_eq!(Action::Resize(80, 24).name(), "Resize");
    assert_eq!(Action::Error("boom".into()).name(), "Error");
}

#[test]
fn message_constructors_set_roles() {
    let u = Message::user("a");
    let a = Message::assistant("b");
    let s = Message::system("c");
    assert_eq!((u.role.as_str(), u.content.as_str()), ("user", "a"));
    assert_eq!((a.role.as_str(), a.content.as_str()), ("assistant", "b"));
    assert_eq!((s.role.as_str(), s.content.as_str()), ("system", "c"));
    assert_eq!(s.duplicate(), s);
}
