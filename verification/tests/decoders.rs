//! Decoding of event streams.

use mcp_remote::http::SseDecoder;
use mcp_remote::protocol::JsonRpcResponse;
use mcp_remote::sse::decoder::{first_endpoint, interpret};
use mcp_remote::sse::{SseDecoder as NamedDecoder, SseEvent, SseFrame};
use serde_json::Value;

fn parse(text: &str) -> Option<JsonRpcResponse<Value>> {
    let value: Value = serde_json::from_str(text).ok()?;
    let object = value.as_object()?;
    Some(JsonRpcResponse {
        id: object.get("id").and_then(Value::as_u64),
        result: object.get("result").cloned(),
        error: object.get("error").cloned(),
    })
}

/// Decode a body one character at a time, which also shows that the decoder
/// handles events split across chunk boundaries.
fn sse(body: &str) -> Option<JsonRpcResponse<Value>> {
    let mut decoder = SseDecoder::default();
    for ch in body.chars() {
        if let Some(parsed) = decoder.push(&ch.to_string(), &parse) {
            return Some(parsed);
        }
    }
    decoder.finish(&parse)
}

#[test]
fn parses_json_rpc_from_sse_event() {
    let parsed = sse("event: message\ndata: {\"jsonrpc\":\"2.0\",\"id\":1,\"result\":{\"ok\":true}}\n\n")
        .expect("response");
    assert_eq!(parsed.id, Some(1));
    assert!(parsed.result.is_some());
}

#[test]
fn ignores_comments_and_unterminated_noise() {
    assert!(sse(": keepalive\n\n").is_none());
}

#[test]
fn accepts_final_event_without_trailing_blank_line() {
    let parsed = sse("data: {\"jsonrpc\":\"2.0\",\"id\":7,\"result\":{}}").expect("trailing event");
    assert_eq!(parsed.id, Some(7));
}

#[test]
fn skips_events_that_are_not_json_rpc() {
    let parsed = sse("data: not json\n\ndata: {\"jsonrpc\":\"2.0\",\"id\":3,\"result\":{}}\n\n")
        .expect("second event");
    assert_eq!(parsed.id, Some(3));
}

#[test]
fn skips_json_rpc_notifications_before_response() {
    let parsed = sse(
        "data: {\"jsonrpc\":\"2.0\",\"method\":\"notifications/progress\",\"params\":{}}\n\n\
         data: {\"jsonrpc\":\"2.0\",\"id\":9,\"result\":{}}\n\n",
    )
    .expect("response after notification");
    assert_eq!(parsed.id, Some(9));
}

#[test]
fn parses_endpoint_and_message_events_across_chunks() {
    let mut decoder = NamedDecoder::default();
    assert!(decoder
        .push("event: endpoint\ndata: /message?sessionId=1\n\n", &parse)
        .iter()
        .any(|event| matches!(event, SseEvent::Endpoint(value) if value == "/message?sessionId=1")));
    let mut events = Vec::new();
    for chunk in ["event: message\ndata: {\"jsonrpc\":\"2.0\",", "\"id\":4,\"result\":{}}\n\n"] {
        events.extend(decoder.push(chunk, &parse));
    }
    assert!(events
        .iter()
        .any(|event| matches!(event, SseEvent::Message(response) if response.id == Some(4))));
}

#[test]
fn payloads_are_what_was_sent() {
    let mut decoder = SseDecoder::default();
    decoder.feed("data: one\n\ndata:two \r\n\r\nrest");
    assert_eq!(decoder.next_payload().as_deref(), Some("one"));
    assert_eq!(decoder.next_payload().as_deref(), Some("two "));
    assert_eq!(decoder.next_payload(), None);
    assert_eq!(decoder.last_event(), None);
}

#[test]
fn data_lines_of_one_event_are_run_together() {
    let mut decoder = SseDecoder::default();
    decoder.feed("data: {\"id\":\ndata: 5}\n\n");
    assert_eq!(decoder.next_payload().as_deref(), Some("{\"id\":5}"));
}

#[test]
fn a_last_line_is_trimmed_at_its_end() {
    let mut decoder = SseDecoder::default();
    decoder.feed("data: a\ndata: b \t\u{3000}");
    assert_eq!(decoder.next_payload(), None);
    assert_eq!(decoder.last_event().as_deref(), Some("ab"));
    assert_eq!(decoder.last_event(), None);
}

#[test]
fn only_white_space_is_trimmed_off_values() {
    for code in 0..0x11_0000_u32 {
        let Some(c) = char::from_u32(code) else {
            continue;
        };
        if c == '\n' {
            continue;
        }
        let mut decoder = SseDecoder::default();
        decoder.feed(&format!("data:{c}x\n\n"));
        let expected = if c.is_whitespace() { "x".to_string() } else { format!("{c}x") };
        assert_eq!(decoder.next_payload(), Some(expected), "code point {code:x}");
    }
}

#[test]
fn a_response_leaves_the_rest_undecoded() {
    let mut decoder = SseDecoder::default();
    let first = decoder.push("data: {\"id\":1}\n\ndata: {\"id\":2}\n\n", &parse).expect("first");
    assert_eq!(first.id, Some(1));
    let second = decoder.push("", &parse).expect("second");
    assert_eq!(second.id, Some(2));
    assert!(decoder.finish(&parse).is_none());
}

#[test]
fn chunk_boundaries_make_no_difference() {
    let body = "event: message\r\ndata: {\"id\":1}\r\n\r\ndata: {\"id\":2,\"result\":3}\n\n";
    for cut in 0..=body.len() {
        let mut decoder = NamedDecoder::default();
        let mut events = decoder.push(&body[..cut], &parse);
        events.extend(decoder.push(&body[cut..], &parse));
        let ids: Vec<Option<u64>> = events
            .iter()
            .map(|event| match event {
                SseEvent::Message(response) => response.id,
                SseEvent::Endpoint(_) => None,
            })
            .collect();
        assert_eq!(ids, vec![Some(1), Some(2)], "cut at {cut}");
    }
}

#[test]
fn bytes_are_read_as_utf8() {
    let mut decoder = SseDecoder::default();
    assert!(decoder.push_bytes("data: {\"id\":8,\"result\":\"\u{e9}\"}\n".as_bytes(), &parse).is_none());
    let parsed = decoder.push_bytes(b"\n", &parse).expect("response");
    assert_eq!(parsed.id, Some(8));
    assert_eq!(parsed.result, Some(Value::from("\u{e9}")));

    let mut named = NamedDecoder::default();
    let events = named.push_bytes(b"event: endpoint\ndata: /a\xffb\n\n", &parse);
    assert!(matches!(&events[..], [SseEvent::Endpoint(url)] if url == "/a\u{fffd}b"));
}

#[test]
fn named_events_keep_their_names_and_lines() {
    let mut decoder = NamedDecoder::default();
    let frames = decoder.push_frames("event:  note \ndata: one\ndata: two\n\nevent: lost\n\ndata: x\n\n");
    assert_eq!(frames.len(), 2);
    assert_eq!(frames[0].event, "note");
    assert_eq!(frames[0].data, "one\ntwo");
    assert_eq!(frames[1].event, "");
    assert_eq!(frames[1].data, "x");
}

#[test]
fn the_end_of_a_named_stream_ends_its_last_line() {
    let mut decoder = NamedDecoder::default();
    assert!(decoder.push_frames("data: x\n").is_empty());
    assert!(decoder.finish_frames().is_empty());

    let mut decoder = NamedDecoder::default();
    assert!(decoder.push_frames("data: x\n\r").is_empty());
    let frames = decoder.finish_frames();
    assert_eq!(frames.len(), 1);
    assert_eq!(frames[0].data, "x");

    let mut decoder = NamedDecoder::default();
    decoder.push("data: {\"id\":6}\n\r", &parse);
    let events = decoder.finish(&parse);
    assert!(matches!(&events[..], [SseEvent::Message(response)] if response.id == Some(6)));
}

#[test]
fn the_first_endpoint_is_taken() {
    let mut decoder = NamedDecoder::default();
    let frames = decoder.push_frame_bytes(
        b"data: {\"id\":1}\n\nevent: endpoint\ndata: /a\n\nevent: endpoint\ndata: /b\n\n",
    );
    assert_eq!(frames.len(), 3);
    assert_eq!(first_endpoint(&frames).as_deref(), Some("/a"));
    assert_eq!(first_endpoint(&Vec::new()), None);
}

#[test]
fn unreadable_messages_say_nothing() {
    let frame = SseFrame { event: "message".to_string(), data: "nonsense".to_string() };
    assert!(interpret::<Value>(frame, None).is_none());
    let frame = SseFrame { event: "endpoint".to_string(), data: "/m".to_string() };
    let event = interpret::<Value>(frame, None).expect("endpoint");
    assert!(matches!(event, SseEvent::Endpoint(url) if url == "/m"));
}
