use llm_tui::sse::{event_from_content, sse_data};
use llm_tui::action::Action;
use llm_tui::sse::{parse_sse_event, SseDecoder, SseEvent};

#[test]
fn parse_valid_delta() {
    let line = r#"data: {"choices":[{"delta":{"content":"hello"}}]}"#;
    assert_eq!(parse_sse_event(line), SseEvent::Chunk("hello".into()));
}

#[test]
fn parse_done() {
    let line = "data: [DONE]";
    assert_eq!(parse_sse_event(line), SseEvent::Done);
}

#[test]
fn parse_empty_line() {
    assert_eq!(parse_sse_event(""), SseEvent::Skip);
    assert_eq!(parse_sse_event("  "), SseEvent::Skip);
}

#[test]
fn parse_no_data_prefix() {
    assert_eq!(parse_sse_event("random stuff"), SseEvent::Skip);
}

#[test]
fn parse_invalid_json() {
    assert_eq!(parse_sse_event("data: not json"), SseEvent::Skip);
}

#[test]
fn parse_no_content_field() {
    let line = r#"data: {"choices":[{"delta":{}}]}"#;
    assert_eq!(parse_sse_event(line), SseEvent::Skip);
}

#[test]
fn parse_trims_surrounding_whitespace() {
    let line = "  data: [DONE]\r\n";
    assert_eq!(parse_sse_event(line), SseEvent::Done);
    let line = "\tdata: {\"choices\":[{\"delta\":{\"content\":\" hi \"}}]}\n";
    assert_eq!(parse_sse_event(line), SseEvent::Chunk(" hi ".into()));
}

#[test]
fn parse_non_string_content_is_skipped() {
    assert_eq!(
        parse_sse_event(r#"data: {"choices":[{"delta":{"content":5}}]}"#),
        SseEvent::Skip
    );
    assert_eq!(parse_sse_event(r#"data: {"choices":{"0":{"delta":{"content":"x"}}}}"#), SseEvent::Skip);
}

#[test]
fn events_become_actions() {
    assert_eq!(SseEvent::Chunk("a".into()).into_action(), Some(Action::ReceiveChunk("a".into())));
    assert_eq!(SseEvent::Done.into_action(), Some(Action::StreamEnd));
    assert_eq!(SseEvent::Skip.into_action(), None);
}

const STREAM: &str = "data: {\"choices\":[{\"delta\":{\"content\":\"Hel\"}}]}\n\ndata: {\"choices\":[{\"delta\":{\"content\":\"lo\"}}]}\n: keep-alive\ndata: [DONE]\ndata: {\"choices\":[{\"delta\":{\"content\":\"late\"}}]}\n";

#[test]
fn decoder_reads_whole_stream() {
    let mut d = SseDecoder::new();
    let events = d.push(STREAM);
    assert_eq!(
        events,
        vec![SseEvent::Chunk("Hel".into()), SseEvent::Chunk("lo".into()), SseEvent::Done]
    );
    assert!(d.is_done());
    assert!(d.push("data: [DONE]\n").is_empty());
    assert_eq!(d.finish(), None);
}

#[test]
fn decoder_pieces_do_not_matter() {
    for cut in 0..STREAM.len() {
        if !STREAM.is_char_boundary(cut) {
            continue;
        }
        let mut d = SseDecoder::new();
        let mut events = d.push(&STREAM[..cut]);
        events.extend(d.push(&STREAM[cut..]));
        assert_eq!(
            events,
            vec![SseEvent::Chunk("Hel".into()), SseEvent::Chunk("lo".into()), SseEvent::Done],
            "cut at {}",
            cut
        );
    }
}

#[test]
fn decoder_waits_for_line_break_and_ends_at_finish() {
    let mut d = SseDecoder::new();
    assert!(d.push("data: {\"choices\":[{\"delta\":{\"content\":\"x\"}}]}").is_empty());
    assert_eq!(d.push("\n"), vec![SseEvent::Chunk("x".into())]);
    assert!(d.push("data: [DO").is_empty());
    assert!(!d.is_done());
    assert_eq!(d.finish(), Some(SseEvent::Done));
    assert!(d.is_done());
}

#[test]
fn data_payload_and_content_event() {
    assert_eq!(sse_data("  data: abc \n"), Some("abc".to_string()));
    assert_eq!(sse_data("data:abc"), None);
    assert_eq!(sse_data("event: x"), None);
    assert_eq!(sse_data("data: "), None);
    assert_eq!(event_from_content(Some("z".into())), SseEvent::Chunk("z".into()));
    assert_eq!(event_from_content(None), SseEvent::Skip);
}
