use bytes::Bytes;
use navar::body::{BodyPoll, StreamStep};
use navar::response_helpers::ndjson::NdjsonStream;
use navar::response_helpers::sse::{SseEvent, SseStream};
use navar::response_helpers::{json, text, BodyError};
use serde_json::Value;

/// A body that gives these chunks as data frames.
fn frames(chunks: &[&[u8]]) -> Vec<BodyPoll<&'static str>> {
    chunks.iter().map(|chunk| BodyPoll::Data(Bytes::copy_from_slice(chunk))).collect()
}

/// Polls a stream until it answers with something else than to be woken.
fn next_event(
    stream: &mut SseStream,
    polls: &mut dyn Iterator<Item = BodyPoll<&'static str>>,
) -> StreamStep<SseEvent, &'static str> {
    loop {
        match stream.poll_next(|| polls.next().unwrap_or(BodyPoll::End)) {
            StreamStep::Wake => {}
            step => return step,
        }
    }
}

fn event(step: StreamStep<SseEvent, &'static str>) -> SseEvent {
    match step {
        StreamStep::Item(event) => event,
        other => panic!("no event: {other:?}"),
    }
}

/// The id, the type and the data of every event of a body.
fn events(chunks: &[&[u8]]) -> Vec<(Option<String>, Option<String>, String)> {
    let mut stream = SseStream::new();
    let mut polls = frames(chunks).into_iter();
    let mut all = Vec::new();
    loop {
        match next_event(&mut stream, &mut polls) {
            StreamStep::Item(event) => all.push((
                event.id().map(str::to_owned),
                event.event().map(str::to_owned),
                event.data().to_owned(),
            )),
            StreamStep::End => return all,
            other => panic!("unexpected: {other:?}"),
        }
    }
}

fn data(text: &str) -> (Option<String>, Option<String>, String) {
    (None, None, text.to_owned())
}

/// The documents of a body; `None` for a line that is none.
fn documents(chunks: &[&[u8]]) -> Vec<Option<Value>> {
    let mut stream: NdjsonStream<Value, serde_json::Error> = NdjsonStream::new();
    let mut polls = frames(chunks).into_iter();
    let mut all = Vec::new();
    loop {
        match stream.poll_next_json(|| polls.next().unwrap_or(BodyPoll::End)) {
            StreamStep::Item(item) => all.push(item.ok()),
            StreamStep::Wake => {}
            StreamStep::End => return all,
            other => panic!("unexpected: {other:?}"),
        }
    }
}

#[test]
fn response_text() {
    let body = Bytes::from([b"hello ".as_slice(), b"world"].concat());
    assert_eq!(text(&body).unwrap(), "hello world");
}

#[test]
fn response_text_invalid_utf8() {
    let body = Bytes::from_static(b"\xFF\xFF");
    assert!(matches!(text(&body), Err(BodyError::Utf8(_))));
}

#[test]
fn response_json() {
    let json_data = r#"{"key": "value"}"#;
    let data = json(&Bytes::from(json_data)).unwrap();
    assert_eq!(data["key"], "value");
}

#[test]
fn response_json_refuses_other_text() {
    assert!(matches!(json(&Bytes::from_static(b"{")), Err(BodyError::Json(_))));
    assert!(matches!(json(&Bytes::new()), Err(BodyError::Json(_))));
    assert!(matches!(json(&Bytes::from_static(b"1 2")), Err(BodyError::Json(_))));
}

#[test]
fn response_errors_say_what_is_wrong() {
    match text(&Bytes::from_static(b"ab\xffc")) {
        Err(BodyError::Utf8(error)) => {
            assert_eq!(error.utf8_error().valid_up_to(), 2);
            assert_eq!(error.into_bytes(), b"ab\xffc");
        }
        other => panic!("unexpected: {other:?}"),
    }
    match json(&Bytes::from_static(b"{\n\"a\": x}")) {
        Err(BodyError::Json(error)) => assert_eq!((error.line(), error.column()), (2, 6)),
        other => panic!("unexpected: {other:?}"),
    }
}

#[test]
fn ndjson_errors_are_those_of_their_lines() {
    let mut stream: NdjsonStream<Value, serde_json::Error> = NdjsonStream::new();
    stream.append_json_frame(Bytes::from_static(b"[1\n[1,x]\n"));
    for source in ["[1", "[1,x]"] {
        let wanted = serde_json::from_str::<Value>(source).unwrap_err().to_string();
        match stream.poll_next_json(|| BodyPoll::<()>::End) {
            StreamStep::Item(Err(error)) => assert_eq!(error.to_string(), wanted),
            other => panic!("unexpected: {other:?}"),
        }
    }
}

#[test]
fn response_text_of_empty_and_accented_bodies() {
    assert_eq!(text(&Bytes::new()).unwrap(), "");
    assert_eq!(text(&Bytes::from_static(b"gr\xc3\xbcn")).unwrap(), "gr\u{fc}n");
    assert!(text(&Bytes::from_static(b"gr\xc3")).is_err());
}

#[test]
fn sse_stream() {
    let chunks = [
        b"data: first event\n\n".as_slice(),
        b"event: update\ndata: se".as_slice(),
        b"cond event\nid: 123\n\n".as_slice(),
    ];
    let mut stream = SseStream::new();
    let mut polls = frames(&chunks).into_iter();

    let event1 = event(next_event(&mut stream, &mut polls));
    assert_eq!(event1.data(), "first event");
    assert_eq!(event1.event(), None);

    let event2 = event(next_event(&mut stream, &mut polls));
    assert_eq!(event2.data(), "second event");
    assert_eq!(event2.event(), Some("update"));
    assert_eq!(event2.id(), Some("123"));

    assert!(matches!(next_event(&mut stream, &mut polls), StreamStep::End));
}

#[test]
fn ndjson_stream() {
    let chunks = [b"{\"id\": 1}\n{\"id\":".as_slice(), b" 2}\n".as_slice()];
    let mut stream: NdjsonStream<Value, serde_json::Error> = NdjsonStream::new();
    let mut polls = frames(&chunks).into_iter();
    let mut poll = || loop {
        match stream.poll_next_json(|| polls.next().unwrap_or(BodyPoll::End)) {
            StreamStep::Wake => {}
            step => return step,
        }
    };

    match poll() {
        StreamStep::Item(Ok(item1)) => assert_eq!(item1["id"], 1),
        other => panic!("no item: {other:?}"),
    }
    match poll() {
        StreamStep::Item(Ok(item2)) => assert_eq!(item2["id"], 2),
        other => panic!("no item: {other:?}"),
    }
    assert!(matches!(poll(), StreamStep::End));
}

#[test]
fn sse_events_do_not_depend_on_frames() {
    let body = b"id: 7\nevent: tick\ndata: a\r\ndata:b\n: comment\n\ndata: c\n\nretry: 5\ndata\n\n";
    let whole = events(&[body.as_slice()]);
    assert_eq!(
        whole,
        vec![
            (Some("7".to_owned()), Some("tick".to_owned()), "a\nb".to_owned()),
            data("c"),
            data(""),
        ]
    );
    for cut in 0..=body.len() {
        let (head, tail) = body.split_at(cut);
        assert_eq!(events(&[head, tail]), whole);
    }
    let single: Vec<&[u8]> = body.chunks(1).collect();
    assert_eq!(events(&single), whole);
}

#[test]
fn sse_fields() {
    assert_eq!(events(&[b"data:x\n\n"]), vec![data("x")]);
    assert_eq!(events(&[b"data: a:b\n\n"]), vec![data("a:b")]);
    assert_eq!(events(&[b"data\n\n"]), vec![data("")]);
    assert_eq!(events(&[b"data: a\ndata:\ndata: b\n\n"]), vec![data("a\n\nb")]);
    assert_eq!(events(&[b"data: unfinished"]), Vec::new());
    assert_eq!(events(&[b"data: unfinished\n"]), Vec::new());
    assert_eq!(
        events(&[b"id: 1\nid: 2\nevent: a\nevent\ndata: x\n\n"]),
        vec![(Some("2".to_owned()), Some(String::new()), "x".to_owned())]
    );
}

#[test]
fn sse_one_space_behind_the_colon_is_dropped() {
    assert_eq!(events(&[b"data:  x\n\n"]), vec![data(" x")]);
    assert_eq!(events(&[b"data: x \n\n"]), vec![data("x ")]);
    assert_eq!(events(&[b"data:\tx\n\n"]), vec![data("\tx")]);
    assert_eq!(events(&[b"data: \n\n"]), vec![data("")]);
}

#[test]
fn sse_empty_data_lines_count() {
    assert_eq!(events(&[b"data:\ndata: x\n\n"]), vec![data("\nx")]);
    assert_eq!(events(&[b"data\ndata\n\n"]), vec![data("\n")]);
    assert_eq!(events(&[b"data: x\ndata:\n\n"]), vec![data("x\n")]);
}

#[test]
fn sse_event_without_data_is_dropped() {
    assert_eq!(events(&[b"\n\n"]), Vec::new());
    assert_eq!(events(&[b"Data: x\n\n"]), Vec::new());
    assert_eq!(events(&[b"event: ping\n\ndata: x\n\n"]), vec![data("x")]);
    assert_eq!(events(&[b"id: 1\n\ndata: x\n\n"]), vec![data("x")]);
    assert_eq!(events(&[b"data: x\n \n\n"]), vec![data("x")]);
}

#[test]
fn sse_lines_may_end_with_a_carriage_return() {
    assert_eq!(events(&[b"data: x\r\n\r\n"]), vec![data("x")]);
    assert_eq!(events(&[b"data: x\r\r\n\n"]), vec![data("x\r")]);
    assert_eq!(events(&[b"data: x\r", b"\n\r\n"]), vec![data("x")]);
}

#[test]
fn sse_byte_order_mark_is_dropped_at_the_start() {
    assert_eq!(events(&[b"\xef\xbb\xbfdata: x\n\n"]), vec![data("x")]);
    assert_eq!(events(&[b"\xef\xbb", b"\xbfdata: x\n\n"]), vec![data("x")]);
    assert_eq!(events(&[b"\xef\xbb\xbf\xef\xbb\xbfdata: x\n\n"]), Vec::new());
    assert_eq!(events(&[b"\n\xef\xbb\xbfdata: x\n\n"]), Vec::new());
    assert_eq!(events(&[b"data: \xef\xbb\xbfx\n\n"]), vec![data("\u{feff}x")]);
}

#[test]
fn sse_id_with_a_null_is_ignored() {
    let mut stream = SseStream::new();
    stream.append_frame(Bytes::from_static(b"id: 1\nid: 2\x003\ndata: x\n\n"));
    assert_eq!(stream.last_event_id(), Some("1"));
    let first = event(stream.poll_next(|| BodyPoll::<&'static str>::End));
    assert_eq!(first.id(), Some("1"));
}

#[test]
fn sse_last_event_id_is_the_most_recent() {
    let body = b"\xef\xbb\xbfid: 1\nid:2\r\ndata: x\n\nid: 3\x00\nid: 4";
    for size in 1..=body.len() {
        let mut stream = SseStream::new();
        for frame in body.chunks(size) {
            stream.append_frame(Bytes::copy_from_slice(frame));
        }
        assert_eq!(stream.last_event_id(), Some("2"));
        stream.append_frame(Bytes::from_static(b"\n"));
        assert_eq!(stream.last_event_id(), Some("4"));
    }
}

#[test]
fn sse_lines_one_by_one() {
    let mut stream = SseStream::new();
    for line in ["event: ping", "", "data:  x", "", "data:", "data: x", ""] {
        stream.process_line(line);
    }
    let mut next = || event(stream.poll_next(|| BodyPoll::<&'static str>::End));
    let first = next();
    assert_eq!((first.event(), first.data()), (None, " x"));
    assert_eq!(next().data(), "\nx");
    assert!(matches!(stream.poll_next(|| BodyPoll::<&str>::End), StreamStep::End));
}

#[test]
fn sse_comment_changes_nothing() {
    assert_eq!(events(&[b":data: no\ndata: yes\n:\n\n"]), vec![data("yes")]);
}

#[test]
fn sse_invalid_utf8_is_replaced() {
    assert_eq!(events(&[b"data: a\xffb\n\n"]), vec![data("a\u{fffd}b")]);
    assert_eq!(events(&[b"data: \xe2\x82", b"\xac\n\n"]), vec![data("\u{20ac}")]);
}

#[test]
fn sse_last_event_id_outlives_its_event() {
    let mut stream = SseStream::new();
    assert_eq!(stream.last_event_id(), None);
    stream.append_frame(Bytes::from_static(b"id: 1\ndata: w\n"));
    assert_eq!(stream.last_event_id(), Some("1"));
    stream.append_frame(Bytes::from_static(b"\ndata: x\n\n"));
    assert_eq!(stream.last_event_id(), Some("1"));
    stream.process_line("id");
    assert_eq!(stream.last_event_id(), Some(""));
    stream.process_line("");
    assert_eq!(stream.last_event_id(), Some(""));
    let ids: Vec<Option<String>> = (0..2)
        .map(|_| {
            event(stream.poll_next(|| BodyPoll::<&'static str>::End)).id().map(str::to_owned)
        })
        .collect();
    assert_eq!(ids, vec![Some("1".to_owned()), None]);
}

#[test]
fn sse_answers_to_every_poll() {
    let mut stream = SseStream::new();
    assert!(matches!(
        stream.poll_next(|| BodyPoll::<&str>::Pending),
        StreamStep::Pending
    ));
    assert!(matches!(stream.poll_next(|| BodyPoll::<&str>::Trailers), StreamStep::Wake));
    assert!(matches!(
        stream.poll_next(|| BodyPoll::<&str>::Data(Bytes::from_static(b"data: x\n"))),
        StreamStep::Wake
    ));
    assert!(matches!(stream.poll_next(|| BodyPoll::Failed("reset")), StreamStep::Failed("reset")));
    stream.append_frame(Bytes::from_static(b"\ndata: y\n\n"));
    let first = event(stream.poll_next(|| panic!("the body must not be polled")));
    assert_eq!(first.data(), "x");
    let second = event(stream.poll_next(|| panic!("the body must not be polled")));
    assert_eq!(second.data(), "y");
    assert!(matches!(stream.poll_next(|| BodyPoll::<&str>::End), StreamStep::End));
}

#[test]
fn blank_event_has_no_fields() {
    let blank = SseEvent::default();
    assert_eq!((blank.id(), blank.event(), blank.data()), (None, None, ""));
}

#[test]
fn ndjson_documents_do_not_depend_on_frames() {
    let body = b"{\"id\": 1}\n[2]\r\nnot json\n\n\"\xc3\xbc\"\nrest";
    let whole = documents(&[body.as_slice()]);
    assert_eq!(whole.len(), 5);
    assert_eq!(whole[0].as_ref().unwrap()["id"], 1);
    assert_eq!(whole[1].as_ref().unwrap()[0], 2);
    assert_eq!(whole[2], None);
    assert_eq!(whole[3], None);
    assert_eq!(whole[4].as_ref().unwrap(), "\u{fc}");
    for cut in 0..=body.len() {
        let (head, tail) = body.split_at(cut);
        assert_eq!(documents(&[head, tail]), whole);
    }
    let single: Vec<&[u8]> = body.chunks(1).collect();
    assert_eq!(documents(&single), whole);
}

#[test]
fn ndjson_reads_back_what_was_written() {
    let items: Vec<Value> = ["{\"a\":[1,2]}", "\"line\\nbreak\"", "null"]
        .iter()
        .map(|source| serde_json::from_str(source).unwrap())
        .collect();
    let written: Vec<u8> = items
        .iter()
        .map(|item| navar::bound_request::json::ndjson_frame(item).unwrap())
        .collect::<Vec<Bytes>>()
        .concat();
    for cut in 0..=written.len() {
        let (head, tail) = written.split_at(cut);
        let read: Vec<Value> =
            documents(&[head, tail]).into_iter().map(|item| item.unwrap()).collect();
        assert_eq!(read, items);
    }
}

#[test]
fn ndjson_items_of_any_type_are_read_back() {
    let items: Vec<u32> = vec![1, 20, 300];
    let mut written: Vec<u8> = Vec::new();
    for item in &items {
        written.extend_from_slice(&navar::bound_request::json::ndjson_line(
            serde_json::to_vec(item).unwrap(),
        ));
    }
    for size in 1..=written.len() {
        let mut polls = written
            .chunks(size)
            .map(|chunk| BodyPoll::<()>::Data(Bytes::copy_from_slice(chunk)));
        let mut stream: NdjsonStream<u32, serde_json::Error> = NdjsonStream::new();
        let mut read: Vec<u32> = Vec::new();
        loop {
            match stream.poll_next(
                || polls.next().unwrap_or(BodyPoll::End),
                |line: &[u8]| serde_json::from_slice::<u32>(line),
            ) {
                StreamStep::Item(item) => read.push(item.unwrap()),
                StreamStep::Wake => {}
                StreamStep::End => break,
                other => panic!("unexpected: {other:?}"),
            }
        }
        assert_eq!(read, items);
    }
}

#[test]
fn ndjson_with_a_decoder_of_the_caller() {
    let decode = |line: &[u8]| -> Result<usize, String> {
        if line.is_empty() {
            Err("empty".to_owned())
        } else {
            Ok(line.len())
        }
    };
    let mut stream: NdjsonStream<usize, String> = NdjsonStream::new();
    stream.append_frame(Bytes::from_static(b"abc\n\nde"), decode);
    let mut polled = 0;
    let mut items = Vec::new();
    for _ in 0..2 {
        match stream.poll_next(
            || {
                polled += 1;
                BodyPoll::<()>::End
            },
            decode,
        ) {
            StreamStep::Item(item) => items.push(item),
            other => panic!("no item: {other:?}"),
        }
    }
    assert_eq!(items, vec![Ok(3), Err("empty".to_owned())]);
    assert_eq!(polled, 0);
    assert!(matches!(
        stream.take_frame(BodyPoll::<()>::Data(Bytes::from_static(b"f\n")), decode),
        StreamStep::Item(Ok(3))
    ));
}

#[test]
fn ndjson_answers_to_every_poll() {
    let mut stream: NdjsonStream<Value, serde_json::Error> = NdjsonStream::new();
    assert!(matches!(stream.take_json_frame(BodyPoll::<&str>::Pending), StreamStep::Pending));
    assert!(matches!(stream.take_json_frame(BodyPoll::<&str>::Trailers), StreamStep::Wake));
    assert!(matches!(
        stream.take_json_frame(BodyPoll::<&str>::Data(Bytes::from_static(b"1"))),
        StreamStep::Wake
    ));
    assert!(matches!(
        stream.take_json_frame(BodyPoll::Failed("reset")),
        StreamStep::Failed("reset")
    ));
    assert!(matches!(stream.take_json_frame(BodyPoll::<&str>::End), StreamStep::End));
    stream.append_json_frame(Bytes::from_static(b"2\n"));
    match stream.poll_next_json(|| BodyPoll::<&str>::End) {
        StreamStep::Item(Ok(item)) => assert_eq!(item, 12),
        other => panic!("no item: {other:?}"),
    }
}
