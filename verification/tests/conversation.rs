use llm_tui::conversation::Conversation;

fn rendered(c: &Conversation) -> String {
    c.render().join("\n")
}

#[test]
fn new_conversation_is_empty() {
    let conversation = Conversation::new();
    assert!(conversation.messages().is_empty());
}

#[test]
fn push_user_adds_message() {
    let mut conversation = Conversation::new();
    conversation.push_user("hello");
    assert_eq!(conversation.messages().len(), 1);
    assert_eq!(conversation.messages()[0].role, "user");
    assert_eq!(conversation.messages()[0].content, "hello");
}

#[test]
fn start_response_sets_waiting() {
    let mut conversation = Conversation::new();
    conversation.start_response();
    assert_eq!(conversation.is_waiting(), true);
}

#[test]
fn append_chunk_stop_waiting_and_create_line() {
    let mut conversation = Conversation::new();
    conversation.start_response();
    conversation.append_chunk("hi");
    assert_eq!(conversation.is_waiting(), false);
    let text = rendered(&conversation);
    assert!(text.contains("AI: hi"))
}

#[test]
fn append_chunk_appends_to_existing_ai_line() {
    let mut conversation = Conversation::new();
    conversation.append_chunk("hello");
    assert!(rendered(&conversation).contains("AI: hello"));
    conversation.append_chunk(" world");
    assert!(rendered(&conversation).contains("AI: hello world"));
}

#[test]
fn finish_response_moves_to_conversation() {
    let mut conversation = Conversation::new();
    conversation.append_chunk("hello back");
    conversation.finish_response();
    assert_eq!(conversation.messages().len(), 1);
    assert_eq!(conversation.messages()[0].role, "assistant");
    assert_eq!(conversation.messages()[0].content, "hello back");
}

#[test]
fn push_user_returns_the_message_and_shows_it() {
    let mut c = Conversation::new();
    let m = c.push_user("what is rust?");
    assert_eq!(m.role, "user");
    assert_eq!(m.content, "what is rust?");
    assert_eq!(c.render(), vec!["You: what is rust?".to_string()]);
}

#[test]
fn exchange_is_recorded_as_one_line_and_one_message() {
    let mut c = Conversation::new();
    c.push_user("hi");
    c.start_response();
    c.append_chunk("Hel");
    c.append_chunk("lo");
    c.append_chunk("!");
    c.finish_response();
    assert_eq!(c.render(), vec!["You: hi".to_string(), "AI: Hello!".to_string()]);
    let msgs = c.messages();
    assert_eq!(msgs.len(), 2);
    assert_eq!((msgs[0].role.as_str(), msgs[0].content.as_str()), ("user", "hi"));
    assert_eq!((msgs[1].role.as_str(), msgs[1].content.as_str()), ("assistant", "Hello!"));
}

#[test]
fn finish_without_reply_records_nothing() {
    let mut c = Conversation::new();
    c.push_user("hi");
    c.finish_response();
    assert_eq!(c.messages().len(), 1);
}

#[test]
fn second_reply_starts_after_next_user_line() {
    let mut c = Conversation::new();
    c.append_chunk("one");
    c.finish_response();
    c.push_user("again");
    c.append_chunk("two");
    c.finish_response();
    assert_eq!(
        c.render(),
        vec!["AI: one".to_string(), "You: again".to_string(), "AI: two".to_string()]
    );
    assert_eq!(c.messages()[2].content, "two");
}

#[test]
fn waiting_shows_spinner_line() {
    let mut c = Conversation::new();
    c.push_user("q");
    c.start_response();
    assert_eq!(c.render(), vec!["You: q".to_string(), "AI: ⠋ thinking".to_string()]);
    c.tick();
    assert_eq!(c.render()[1], "AI: ⠙ thinking");
}

#[test]
fn tick_wraps_after_255() {
    let mut c = Conversation::new();
    c.start_response();
    for _ in 0..256 {
        c.tick();
    }
    // 256 ticks bring the counter back to 0, the first frame.
    assert_eq!(c.render()[0], "AI: ⠋ thinking");
    c.tick();
    assert_eq!(c.render()[0], "AI: ⠙ thinking");
}

#[test]
fn full_conversation_flow() {
    let mut c = Conversation::new();
    c.push_user("Hello");
    c.start_response();
    c.append_chunk("W");
    c.tick();
    c.append_chunk("orld");
    c.finish_response();
    let msgs = c.messages();
    assert_eq!(msgs.len(), 2);
    assert_eq!((msgs[0].role.as_str(), msgs[0].content.as_str()), ("user", "Hello"));
    assert_eq!((msgs[1].role.as_str(), msgs[1].content.as_str()), ("assistant", "World"));
}

#[test]
fn reply_with_user_message_in_between_is_recorded_once() {
    let mut c = Conversation::new();
    c.push_user("a");
    c.start_response();
    c.append_chunk("x");
    c.push_user("b");
    c.append_chunk("y");
    c.finish_response();
    let msgs: Vec<(String, String)> =
        c.messages().iter().map(|m| (m.role.clone(), m.content.clone())).collect();
    assert_eq!(
        msgs,
        vec![
            ("user".to_string(), "a".to_string()),
            ("user".to_string(), "b".to_string()),
            ("assistant".to_string(), "xy".to_string()),
        ]
    );
}

#[test]
fn many_ticks_wrap_the_counter() {
    let mut c = Conversation::new();
    c.start_response();
    for _ in 0..(256 * 3 + 13) {
        c.tick();
    }
    // 781 ticks wrap to 13, frame 3.
    assert_eq!(c.render()[0], "AI: ⠸ thinking");
    assert!(c.messages().is_empty());
}
