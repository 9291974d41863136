use sse_client::{
    classify_frame, dispatch_step, handle_attempt_end, ingest_chunk, is_success_status,
    sse_messages_from_string, stream_step_outcome, ArriModel, ArriServerError, AttemptState,
    FrameKind, ParsedSseMessage, SeeMessageMethods, SseAction, SseController, SseMessage,
    StreamStep,
};

#[derive(Clone)]
struct Payload {
    raw: String,
}

impl ArriModel for Payload {
    fn new() -> Self {
        Payload { raw: String::new() }
    }
    fn from_json_string(input: String) -> Self {
        Payload { raw: input }
    }
    fn to_json_string(&self) -> String {
        self.raw.clone()
    }
    fn to_query_params_string(&self) -> String {
        self.raw.clone()
    }
}

#[test]
fn parsed_message_decodes_the_data_field() {
    let m: ParsedSseMessage<Payload> = SeeMessageMethods::from_string(
        "id: 7\nevent: message\ndata: payload body\nretry: 40".to_string(),
    );
    assert_eq!(m.id, Some("7".to_string()));
    assert_eq!(m.event, Some("message".to_string()));
    assert_eq!(m.data.raw, "payload body".to_string());
    assert_eq!(m.retry, Some(40));
    let fresh: ParsedSseMessage<Payload> = SeeMessageMethods::new();
    assert!(fresh.id.is_none());
    assert!(fresh.event.is_none());
    assert!(fresh.retry.is_none());
}

#[test]
fn sse_messages_from_string_test() {
    let input = "
data: hello world

event: message
data: {\"message\": \"hello world\"}

id: 1
event: message
data: hello world again
retry: 200

data: hello world
"
    .to_string();
    let (messages, left_over) = sse_messages_from_string(input);
    assert_eq!(messages.len().clone(), 3);
    assert_eq!(left_over, "data: hello world\n".to_string());
    assert_eq!(
        messages.clone(),
        vec![
            SseMessage {
                id: None,
                event: None,
                data: "hello world".to_string(),
                retry: None,
            },
            SseMessage {
                id: None,
                event: Some("message".to_string()),
                data: "{\"message\": \"hello world\"}".to_string(),
                retry: None,
            },
            SseMessage {
                id: Some("1".to_string()),
                event: Some("message".to_string()),
                data: "hello world again".to_string(),
                retry: Some(200)
            },
        ]
    );
}

#[test]
fn split_counts_delimiters_and_keeps_remainder() {
    let (messages, left_over) = sse_messages_from_string("a\n\nb\n\nc".to_string());
    assert_eq!(messages.len(), 2);
    assert_eq!(left_over, "c".to_string());

    let (messages, left_over) = sse_messages_from_string("no delimiter here".to_string());
    assert_eq!(messages.len(), 0);
    assert_eq!(left_over, "no delimiter here".to_string());

    let (messages, left_over) = sse_messages_from_string("data: x\n\n".to_string());
    assert_eq!(messages.len(), 1);
    assert_eq!(left_over, "".to_string());

    let (messages, left_over) = sse_messages_from_string("".to_string());
    assert_eq!(messages.len(), 0);
    assert_eq!(left_over, "".to_string());
}

#[test]
fn parse_full_frame() {
    let m = SseMessage::parse("id: 1\nevent: message\ndata: hello\nretry: 200");
    assert_eq!(m.id, Some("1".to_string()));
    assert_eq!(m.event, Some("message".to_string()));
    assert_eq!(m.data, "hello".to_string());
    assert_eq!(m.retry, Some(200));
}

#[test]
fn parse_data_only_frame() {
    let m = SseMessage::parse("data: x");
    assert_eq!(m.id, None);
    assert_eq!(m.event, None);
    assert_eq!(m.data, "x".to_string());
    assert_eq!(m.retry, None);
}

#[test]
fn parse_trims_whitespace_and_ignores_unknown_lines() {
    let m = SseMessage::parse("  data:   padded value  \nsomething else\nid:x");
    assert_eq!(m.data, "padded value".to_string());
    assert_eq!(m.id, Some("x".to_string()));
    assert_eq!(m.event, None);
}

#[test]
fn parse_later_lines_overwrite_earlier_ones() {
    let m = SseMessage::parse("data: first\ndata: second\nid: 1\nid: 2");
    assert_eq!(m.data, "second".to_string());
    assert_eq!(m.id, Some("2".to_string()));
}

#[test]
fn parse_retry_values() {
    assert_eq!(SseMessage::parse("retry: 200").retry, Some(200));
    assert_eq!(SseMessage::parse("retry: -7").retry, Some(-7));
    assert_eq!(SseMessage::parse("retry: abc").retry, None);
    assert_eq!(SseMessage::parse("retry: 99999999999").retry, None);
    assert_eq!(SseMessage::parse("retry:").retry, None);
    // a malformed retry line keeps the previous value
    assert_eq!(SseMessage::parse("retry: 5\nretry: oops").retry, Some(5));
}

#[test]
fn from_string_matches_parse() {
    let m = <SseMessage as SeeMessageMethods>::from_string("data: hi".to_string());
    assert_eq!(m.data, "hi".to_string());
    let e = <SseMessage as SeeMessageMethods>::new();
    assert_eq!(e.data, "".to_string());
    assert_eq!(e.id, None);
}

#[test]
fn retry_policy_escalates_after_six_failures() {
    let mut s = AttemptState::from_options(None, None);
    assert_eq!(s.max_retry_interval, 30000);
    for _ in 0..6 {
        let d = s.next_delay();
        assert_eq!(d, 0);
        s.record_retry();
    }
    assert_eq!(s.retry_count, 6);
    let d = s.next_delay();
    assert_eq!(d, 2);
    s.record_retry();
    let d = s.next_delay();
    assert_eq!(d, 4);
}

#[test]
fn retry_interval_is_capped_at_the_maximum() {
    let mut s = AttemptState::from_options(None, Some(5));
    s.retry_count = 6;
    assert_eq!(s.next_delay(), 2);
    assert_eq!(s.next_delay(), 4);
    assert_eq!(s.next_delay(), 5);
    assert_eq!(s.next_delay(), 5);
}

#[test]
fn should_stop_is_strictly_greater_than_the_bound() {
    let mut s = AttemptState::from_options(Some(3), None);
    s.retry_count = 3;
    assert!(!s.should_stop());
    s.retry_count = 4;
    assert!(s.should_stop());
    let mut unbounded = AttemptState::from_options(None, None);
    unbounded.retry_count = u64::MAX;
    assert!(!unbounded.should_stop());
}

#[test]
fn successful_connection_resets_the_count() {
    let mut s = AttemptState::from_options(None, None);
    s.retry_count = 9;
    s.record_open();
    assert_eq!(s.retry_count, 0);
}

#[test]
fn controller_abort_is_sticky() {
    let mut c = SseController::new();
    assert!(!c.is_aborted());
    c.abort();
    assert!(c.is_aborted());
    c.abort();
    assert!(c.is_aborted());
}

#[test]
fn classify_recognizes_done_and_message() {
    assert_eq!(classify_frame(&Some("done".to_string())), FrameKind::Done);
    assert_eq!(classify_frame(&Some("message".to_string())), FrameKind::Message);
    assert_eq!(classify_frame(&Some("other".to_string())), FrameKind::Other);
    assert_eq!(classify_frame(&None), FrameKind::Other);
}

#[test]
fn abort_ends_the_attempt_without_a_retry() {
    // an abort observed after any dispatch stops the stream ...
    assert_eq!(dispatch_step(FrameKind::Message, true), StreamStep::AbortAttempt);
    assert_eq!(dispatch_step(FrameKind::Done, true), StreamStep::AbortAttempt);
    assert_eq!(
        stream_step_outcome(StreamStep::AbortAttempt),
        Some(SseAction::Abort)
    );
    // ... and the attempt loop then stops without counting a failure
    let mut s = AttemptState::from_options(None, None);
    s.retry_count = 4;
    let stop = handle_attempt_end(&mut s, SseAction::Abort);
    assert!(stop);
    assert_eq!(s.retry_count, 4);
}

#[test]
fn close_ends_the_attempt_without_a_retry() {
    assert_eq!(dispatch_step(FrameKind::Done, false), StreamStep::CloseStream);
    assert_eq!(
        stream_step_outcome(StreamStep::CloseStream),
        Some(SseAction::Abort)
    );
    assert_eq!(stream_step_outcome(StreamStep::Continue), None);
    let mut s = AttemptState::from_options(None, None);
    s.retry_count = 2;
    let stop = handle_attempt_end(&mut s, SseAction::Abort);
    assert!(stop);
    assert_eq!(s.retry_count, 2);
}

#[test]
fn a_failed_attempt_is_counted_and_the_loop_goes_on() {
    let mut s = AttemptState::from_options(None, None);
    let stop = handle_attempt_end(&mut s, SseAction::Retry);
    assert!(!stop);
    assert_eq!(s.retry_count, 1);
}

#[test]
fn status_codes_outside_the_success_range_are_errors() {
    assert!(is_success_status(200));
    assert!(is_success_status(299));
    assert!(!is_success_status(199));
    assert!(!is_success_status(300));
    assert!(!is_success_status(404));
}

#[test]
fn server_error_values() {
    let e = ArriServerError::new();
    assert_eq!(e.status_code, 0);
    assert_eq!(e.data, "".to_string());
    let e = ArriServerError::from_response_data(404, "not found".to_string());
    assert_eq!(e.status_code, 404);
    assert_eq!(e.data, "not found".to_string());
}

#[test]
fn chunks_are_buffered_until_a_delimiter_arrives() {
    let (messages, pending) = ingest_chunk("data: he".to_string(), "llo");
    assert_eq!(messages.len(), 0);
    assert_eq!(pending, "data: he".to_string() + "llo");

    // only the chunk's tail is inspected: a chunk that does not end with the
    // delimiter is buffered whole, even if it contains one
    let (messages, pending) = ingest_chunk("data: hello".to_string(), "\n\ndata: tail");
    assert_eq!(messages.len(), 0);
    assert_eq!(pending, "data: hello\n\ndata: tail".to_string());

    let (messages, pending) = ingest_chunk("data: hel".to_string(), "lo\n\ndata: bye\n\n");
    assert_eq!(messages.len(), 2);
    assert_eq!(messages[0].data, "hello".to_string());
    assert_eq!(messages[1].data, "bye".to_string());
    assert_eq!(pending, "".to_string());

    // a chunk that ends exactly on the delimiter empties the buffer
    let (messages, pending) = ingest_chunk("".to_string(), "data: a\n\n");
    assert_eq!(messages.len(), 1);
    assert_eq!(messages[0].data, "a".to_string());
    assert_eq!(pending, "".to_string());
}

#[test]
fn end_to_end_split_and_parse() {
    let input = "data: hello world\n\nevent: message\ndata: {\"message\": \"hello world\"}\n\nid: 1\nevent: message\ndata: hello world again\nretry: 200\n\ndata: hello world\n".to_string();
    let (messages, left_over) = sse_messages_from_string(input);
    assert_eq!(messages.len(), 3);
    assert_eq!(left_over, "data: hello world\n".to_string());
    assert_eq!(messages[0].data, "hello world".to_string());
    assert_eq!(messages[0].event, None);
    assert_eq!(messages[1].event, Some("message".to_string()));
    assert_eq!(messages[1].data, "{\"message\": \"hello world\"}".to_string());
    assert_eq!(messages[2].id, Some("1".to_string()));
    assert_eq!(messages[2].event, Some("message".to_string()));
    assert_eq!(messages[2].data, "hello world again".to_string());
    assert_eq!(messages[2].retry, Some(200));
}
