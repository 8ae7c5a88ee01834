//! Tests of the chunked NDJSON decoder: chunk-boundary independence,
//! ordering, fatal inputs and the terminal `Stop`.

use whisper2_lib::{NdJsonDecoder, PromptEvent, Role};

fn content_of(ev: &PromptEvent) -> (bool, String) {
    match ev {
        PromptEvent::Message(c) => (c.done, c.message.inner.content.clone()),
        PromptEvent::Stop => panic!("expected a message event"),
    }
}

fn is_stop(ev: &PromptEvent) -> bool {
    matches!(ev, PromptEvent::Stop)
}

#[test]
fn decodes_split_chunks_in_order() {
    // A record split mid-key across two chunks, with a second record in the
    // same chunk as the first record's tail.
    let mut d = NdJsonDecoder::new();
    let out1 = d.feed(b"{\"done\":false,\"mess");
    assert!(out1.is_empty());
    let out2 = d.feed(
        b"age\":{\"role\":\"assistant\",\"content\":\"Hi\"}}\n{\"done\":true,\"message\":{\"role\":\"assistant\",\"content\":\"\"}}\n",
    );
    assert_eq!(out2.len(), 2);
    assert_eq!(content_of(&out2[0]), (false, "Hi".to_string()));
    assert_eq!(content_of(&out2[1]), (true, "".to_string()));
    let out3 = d.finish();
    assert_eq!(out3.len(), 1);
    assert!(is_stop(&out3[0]));
}

#[test]
fn one_chunk_many_records_equals_many_chunks() {
    let wire =
        b"{\"done\":false,\"message\":{\"role\":\"assistant\",\"content\":\"a\"}}\n{\"done\":false,\"message\":{\"role\":\"assistant\",\"content\":\"b\"}}\n{\"done\":true,\"message\":{\"role\":\"assistant\",\"content\":\"c\"}}\n";

    let mut whole = NdJsonDecoder::new();
    let mut all = whole.feed(wire);
    all.extend(whole.finish());

    let mut split = NdJsonDecoder::new();
    let mut collected = Vec::new();
    for piece in wire.chunks(7) {
        collected.extend(split.feed(piece));
    }
    collected.extend(split.finish());

    assert_eq!(all.len(), 4);
    assert_eq!(collected.len(), 4);
    for (a, b) in all.iter().zip(collected.iter()) {
        match (a, b) {
            (PromptEvent::Stop, PromptEvent::Stop) => {},
            _ => assert_eq!(content_of(a), content_of(b)),
        }
    }
    assert!(is_stop(&all[3]));
    assert_eq!(content_of(&all[0]).1, "a");
    assert_eq!(content_of(&all[1]).1, "b");
    assert_eq!(content_of(&all[2]).1, "c");
}

#[test]
fn partial_record_is_never_emitted() {
    let mut d = NdJsonDecoder::new();
    let out = d.feed(b"{\"done\":true,\"message\":{\"role\":\"user\",\"content\":\"x\"}}");
    assert!(out.is_empty());
    // Only the newline completes the line.
    let out = d.feed(b"\n");
    assert_eq!(out.len(), 1);
    assert_eq!(content_of(&out[0]), (true, "x".to_string()));
}

#[test]
fn invalid_json_line_is_fatal() {
    let mut d = NdJsonDecoder::new();
    let out = d.feed(b"this is not json\n{\"done\":true}\n");
    assert_eq!(out.len(), 1);
    assert!(is_stop(&out[0]));
    // Terminated: further chunks and end-of-stream emit nothing.
    assert!(d.feed(b"{\"done\":false}\n").is_empty());
    assert!(d.finish().is_empty());
}

#[test]
fn well_formed_json_without_record_shape_is_fatal() {
    // Valid JSON, but not a completion record (no `message`).
    let mut d = NdJsonDecoder::new();
    let out = d.feed(b"{\"done\":true}\n");
    assert_eq!(out.len(), 1);
    assert!(is_stop(&out[0]));
}

#[test]
fn invalid_utf8_chunk_is_fatal() {
    let mut d = NdJsonDecoder::new();
    let out = d.feed(&[0xff, 0xfe]);
    assert_eq!(out.len(), 1);
    assert!(is_stop(&out[0]));
    assert!(d.finish().is_empty());
}

#[test]
fn finish_emits_stop_exactly_once() {
    let mut d = NdJsonDecoder::new();
    let out = d.finish();
    assert_eq!(out.len(), 1);
    assert!(is_stop(&out[0]));
    assert!(d.finish().is_empty());
}

#[test]
fn record_fields_reach_the_event() {
    let mut d = NdJsonDecoder::new();
    let out = d.feed(
        b"{\"done\":false,\"message\":{\"role\":\"tool\",\"content\":\"r\",\"thoughts\":\"t\",\"images\":[\"aGk=\"]}}\n",
    );
    assert_eq!(out.len(), 1);
    match &out[0] {
        PromptEvent::Message(c) => {
            assert!(!c.done);
            assert_eq!(c.message.inner.role, Role::Tool);
            assert_eq!(c.message.inner.content, "r");
            assert_eq!(c.message.inner.thoughts.as_deref(), Some("t"));
            assert_eq!(c.message.inner.images.as_deref(), Some(&["aGk=".to_string()][..]));
        },
        PromptEvent::Stop => panic!("expected a message event"),
    }
}

#[test]
fn unknown_role_is_fatal() {
    let mut d = NdJsonDecoder::new();
    let out = d.feed(b"{\"done\":false,\"message\":{\"role\":\"narrator\",\"content\":\"x\"}}\n");
    assert_eq!(out.len(), 1);
    assert!(is_stop(&out[0]));
}

#[test]
fn empty_chunk_emits_nothing() {
    let mut d = NdJsonDecoder::new();
    assert!(d.feed(b"").is_empty());
    let out = d.feed(b"{\"done\":true,\"message\":{\"role\":\"user\",\"content\":\"x\"}}\n");
    assert_eq!(out.len(), 1);
}

#[test]
fn is_stop_distinguishes_events() {
    let mut d = NdJsonDecoder::new();
    let out = d.feed(b"{\"done\":false,\"message\":{\"role\":\"user\",\"content\":\"\"}}\n");
    assert!(!out[0].is_stop());
    let out = d.finish();
    assert!(out[0].is_stop());
}
