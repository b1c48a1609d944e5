use llm_tui::action::Action;
use llm_tui::chat::{app_key_action, classify_key, Chat, Key, KeyEffect, KeyPress};
use llm_tui::message::Message;

fn key(k: Key) -> KeyPress {
    KeyPress { key: k, ctrl: false, shift: false, plain: true }
}

fn ctrl(c: char) -> KeyPress {
    KeyPress { key: Key::Char(c), ctrl: true, shift: false, plain: false }
}

#[test]
fn key_bindings() {
    assert_eq!(classify_key(key(Key::Enter)), KeyEffect::Send);
    assert_eq!(
        classify_key(KeyPress { key: Key::Enter, ctrl: false, shift: false, plain: false }),
        KeyEffect::Ignore
    );
    assert_eq!(classify_key(ctrl('j')), KeyEffect::NewLine);
    assert_eq!(classify_key(ctrl('h')), KeyEffect::CursorLeft);
    assert_eq!(classify_key(ctrl('l')), KeyEffect::CursorRight);
    assert_eq!(classify_key(ctrl('x')), KeyEffect::Insert('x'));
    assert_eq!(classify_key(key(Key::Char('j'))), KeyEffect::Insert('j'));
    assert_eq!(classify_key(key(Key::Left)), KeyEffect::CursorLeft);
    assert_eq!(classify_key(key(Key::Right)), KeyEffect::CursorRight);
    assert_eq!(classify_key(key(Key::Backspace)), KeyEffect::Delete);
    assert_eq!(classify_key(key(Key::Esc)), KeyEffect::Quit);
    assert_eq!(classify_key(key(Key::Other)), KeyEffect::Ignore);
}

#[test]
fn enter_sends_system_prompt_and_history() {
    let mut chat = Chat::new(Message::system("sys"));
    for c in "hi".chars() {
        assert_eq!(chat.handle_key_event(key(Key::Char(c))), None);
    }
    let sent = chat.handle_key_event(key(Key::Enter));
    assert_eq!(
        sent,
        Some(Action::SendMessage(vec![Message::system("sys"), Message::user("hi")]))
    );
    assert!(chat.input().is_empty());
    assert!(chat.conversation().is_waiting());
    assert_eq!(chat.conversation().messages().len(), 1);
}

#[test]
fn enter_on_empty_input_does_nothing() {
    let mut chat = Chat::new(Message::system("sys"));
    assert_eq!(chat.handle_key_event(key(Key::Enter)), None);
    assert!(chat.conversation().messages().is_empty());
    assert!(!chat.conversation().is_waiting());
}

#[test]
fn esc_asks_to_quit() {
    let mut chat = Chat::new(Message::system("sys"));
    assert_eq!(chat.handle_key_event(key(Key::Esc)), Some(Action::Quit));
}

#[test]
fn editing_keys_edit_the_input() {
    let mut chat = Chat::new(Message::system("sys"));
    chat.handle_key_event(key(Key::Char('a')));
    chat.handle_key_event(ctrl('j'));
    chat.handle_key_event(key(Key::Char('b')));
    assert_eq!(chat.input().text(), "a\nb");
    chat.handle_key_event(ctrl('h'));
    chat.handle_key_event(key(Key::Backspace));
    assert_eq!(chat.input().text(), "ab");
    chat.handle_key_event(ctrl('l'));
    chat.handle_key_event(key(Key::Char('c')));
    assert_eq!(chat.input().text(), "abc");
    assert_eq!(
        chat.handle_key_event(KeyPress { key: Key::Enter, ctrl: false, shift: false, plain: false }),
        None
    );
    assert_eq!(chat.input().text(), "abc");
}

#[test]
fn second_request_carries_the_whole_conversation() {
    let mut chat = Chat::new(Message::system("sys"));
    chat.handle_key_event(key(Key::Char('a')));
    chat.handle_key_event(key(Key::Enter));
    chat.update(&Action::ReceiveChunk("x".into()));
    chat.update(&Action::ReceiveChunk("y".into()));
    chat.update(&Action::StreamEnd);
    chat.handle_key_event(key(Key::Char('b')));
    let sent = chat.handle_key_event(key(Key::Enter));
    assert_eq!(
        sent,
        Some(Action::SendMessage(vec![
            Message::system("sys"),
            Message::user("a"),
            Message::assistant("xy"),
            Message::user("b"),
        ]))
    );
}

#[test]
fn tick_and_other_actions() {
    let mut chat = Chat::new(Message::system("sys"));
    chat.handle_key_event(key(Key::Char('a')));
    chat.handle_key_event(key(Key::Enter));
    chat.update(&Action::Tick);
    assert_eq!(chat.conversation().render()[1], "AI: ⠙ thinking");
    chat.update(&Action::Render);
    chat.update(&Action::Resize(1, 2));
    assert_eq!(chat.conversation().render().len(), 2);
    assert!(chat.is_focused());
    assert_eq!(chat.system_prompt().content, "sys");
}


#[test]
fn ctrl_c_quits_the_application() {
    assert_eq!(app_key_action(ctrl('c')), Some(Action::Quit));
    assert_eq!(app_key_action(key(Key::Char('c'))), None);
    assert_eq!(app_key_action(ctrl('j')), None);
    assert_eq!(app_key_action(key(Key::Esc)), None);
}

fn shift_enter() -> KeyPress {
    KeyPress { key: Key::Enter, ctrl: false, shift: true, plain: false }
}

#[test]
fn shift_enter_inserts_line_break() {
    assert_eq!(classify_key(shift_enter()), KeyEffect::NewLine);
    let mut chat = Chat::new(Message::system("sys"));
    chat.handle_key_event(key(Key::Char('a')));
    chat.handle_key_event(key(Key::Char('b')));
    chat.handle_key_event(key(Key::Left));
    assert_eq!(chat.handle_key_event(shift_enter()), None);
    assert_eq!(chat.input().text(), "a\nb");
    assert_eq!(chat.input().cursor_position(), (0, 1));
    assert!(chat.conversation().messages().is_empty());
}
