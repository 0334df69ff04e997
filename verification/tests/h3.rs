use bytes::Bytes;
use navar::body::BodyPoll;
use navar::h3_adapter::{
    conn_closed, finished, read_buffer, received, stream_error, ConnectionClosed, H3BidiStream,
    H3RecvStream, H3SendStream, SendBuffer, StreamClosed,
};
use navar::h3_connection::{Attempt, H3Connection};
use navar::h3_session::{
    ExchangeAction, ExchangeOutcome, H3App, H3Error, H3Exchange, H3ResponseBody,
};
use navar::transport::Polled;

type Step = ExchangeOutcome<&'static str, &'static str>;

fn drain(buffer: &mut SendBuffer, counts: &[usize]) -> Vec<u8> {
    let mut written = Vec::new();
    for &count in counts {
        let next = buffer.next_write().unwrap()[..count].to_vec();
        written.extend_from_slice(&next);
        let _ = buffer.wrote(Polled::<usize, ()>::Ready(count));
    }
    written
}

#[test]
fn h3_errors_carry_no_error() {
    assert_eq!(conn_closed(), ConnectionClosed { error_code: 0x100 });
    assert_eq!(stream_error(), StreamClosed { connection_error: conn_closed() });
    assert_eq!(conn_closed().error_code, h3::error::Code::H3_NO_ERROR.value());
}

#[test]
fn h3_stream_ids() {
    let largest = (1u64 << 62) - 1;
    for id in [0, 1, 4, largest] {
        assert_eq!(H3RecvStream::<()>::recv_id(id), id);
        assert_eq!(H3SendStream::<()>::send_id(id), id);
        assert_eq!(H3BidiStream::<()>::recv_id(id), id);
        assert_eq!(H3BidiStream::<()>::send_id(id), id);
    }
    for id in [largest + 1, u64::MAX] {
        assert_eq!(H3RecvStream::<()>::recv_id(id), 0);
        assert_eq!(H3SendStream::<()>::send_id(id), 0);
    }
}

#[test]
fn h3_read_hands_on_what_was_read() {
    let data = H3RecvStream::<()>::poll_data(|mut buffer| {
        assert_eq!(buffer, vec![0u8; 4096]);
        buffer[..3].copy_from_slice(b"abc");
        (buffer, Polled::<usize, ()>::Ready(3))
    });
    match data {
        Polled::Ready(Some(bytes)) => assert_eq!(bytes, "abc"),
        other => panic!("unexpected: {other:?}"),
    }
    let data = H3BidiStream::<()>::poll_data(|buffer| (buffer, Polled::<usize, ()>::Ready(4096)));
    match data {
        Polled::Ready(Some(bytes)) => assert_eq!(bytes, vec![0u8; 4096]),
        other => panic!("unexpected: {other:?}"),
    }
}

#[test]
fn h3_read_end_failure_and_wait() {
    assert!(matches!(received(read_buffer(), Polled::<usize, ()>::Ready(0)), Polled::Ready(None)));
    assert!(matches!(received(read_buffer(), Polled::<usize, ()>::Pending), Polled::Pending));
    match received(read_buffer(), Polled::<usize, &str>::Failed("reset")) {
        Polled::Failed(error) => assert_eq!(error, stream_error()),
        other => panic!("unexpected: {other:?}"),
    }
    match received(b"ab".to_vec(), Polled::<usize, ()>::Ready(5)) {
        Polled::Ready(Some(bytes)) => assert_eq!(bytes, "ab"),
        other => panic!("unexpected: {other:?}"),
    }
}

#[test]
fn h3_data_is_sent_in_order() {
    let mut stream = H3SendStream::new("inner");
    assert_eq!(stream.buf.next_write(), None);
    stream.send_data(Bytes::from_static(b"hello "));
    stream.send_data(Bytes::new());
    stream.send_data(Bytes::from_static(b"world"));
    assert_eq!(stream.buf.next_write(), Some(b"hello world".as_slice()));
    let mut written = drain(&mut stream.buf, &[3, 5]);
    stream.send_data(Bytes::from_static(b"!"));
    assert_eq!(stream.buf.next_write(), Some(b"rld!".as_slice()));
    written.extend(drain(&mut stream.buf, &[4]));
    assert_eq!(written, b"hello world!");
    assert_eq!(stream.buf.next_write(), None);
    assert_eq!(stream.inner, "inner");
}

#[test]
fn h3_write_outcomes() {
    let mut stream = H3BidiStream::new("inner");
    stream.send_data(Bytes::from_static(b"abc"));
    assert!(matches!(
        stream.send_buf.wrote(Polled::<usize, ()>::Pending),
        Some(Polled::Pending)
    ));
    assert_eq!(stream.send_buf.next_write(), Some(b"abc".as_slice()));
    match stream.send_buf.wrote(Polled::<usize, &str>::Failed("reset")) {
        Some(Polled::Failed(error)) => assert_eq!(error, stream_error()),
        other => panic!("unexpected: {other:?}"),
    }
    assert_eq!(stream.send_buf.next_write(), Some(b"abc".as_slice()));
    assert!(stream.send_buf.wrote(Polled::<usize, ()>::Ready(0)).is_none());
    assert!(stream.send_buf.wrote(Polled::<usize, ()>::Ready(1)).is_none());
    assert_eq!(stream.send_buf.next_write(), Some(b"bc".as_slice()));
    assert!(matches!(
        stream.send_buf.wrote(Polled::<usize, ()>::Ready(2)),
        Some(Polled::Ready(()))
    ));
    assert_eq!(stream.send_buf.next_write(), None);
}

#[test]
fn h3_ready_means_written() {
    let mut buffer = SendBuffer::new();
    let mut asked: Vec<Vec<u8>> = Vec::new();
    buffer.send_data(Bytes::from_static(b"hello"));
    let ready = buffer.poll_ready(|data: &[u8]| {
        asked.push(data.to_vec());
        Polled::<usize, ()>::Ready(data.len().min(2))
    });
    assert!(matches!(ready, Polled::Ready(())));
    assert_eq!(asked, vec![b"hello".to_vec(), b"llo".to_vec(), b"o".to_vec()]);
    assert_eq!(buffer.next_write(), None);
    let ready = buffer.poll_ready(|_: &[u8]| -> Polled<usize, ()> { panic!("nothing is left") });
    assert!(matches!(ready, Polled::Ready(())));
}

#[test]
fn h3_ready_stops_where_it_cannot_go_on() {
    let mut buffer = SendBuffer::new();
    buffer.send_data(Bytes::from_static(b"hello"));
    let mut calls = 0;
    let ready = buffer.poll_ready(|_: &[u8]| {
        calls += 1;
        if calls == 1 {
            Polled::<usize, &str>::Ready(3)
        } else {
            Polled::Pending
        }
    });
    assert!(matches!(ready, Polled::Pending));
    assert_eq!(buffer.next_write(), Some(b"lo".as_slice()));
    match buffer.poll_ready(|_: &[u8]| Polled::<usize, &str>::Failed("reset")) {
        Polled::Failed(error) => assert_eq!(error, stream_error()),
        other => panic!("unexpected: {other:?}"),
    }
    assert_eq!(buffer.next_write(), Some(b"lo".as_slice()));
}

#[test]
fn h3_finish_writes_before_it_flushes() {
    let mut buffer = SendBuffer::new();
    buffer.send_data(Bytes::from_static(b"ab"));
    let blocked = buffer.poll_finish(
        |_: &[u8]| Polled::<usize, &str>::Pending,
        || panic!("not all is written"),
    );
    assert!(matches!(blocked, Polled::Pending));
    let finished = buffer.poll_finish(
        |data: &[u8]| Polled::<usize, &str>::Ready(data.len()),
        || Polled::Ready(()),
    );
    assert!(matches!(finished, Polled::Ready(())));
    assert_eq!(buffer.next_write(), None);
    match buffer.poll_finish(
        |_: &[u8]| panic!("nothing is left"),
        || Polled::<(), &str>::Failed("reset"),
    ) {
        Polled::Failed(error) => assert_eq!(error, stream_error()),
        other => panic!("unexpected: {other:?}"),
    }
}

#[test]
fn h3_finish_outcomes() {
    assert!(matches!(finished(Polled::<(), ()>::Ready(())), Polled::Ready(())));
    assert!(matches!(finished(Polled::<(), ()>::Pending), Polled::Pending));
    match finished(Polled::<(), &str>::Failed("reset")) {
        Polled::Failed(error) => assert_eq!(error, stream_error()),
        other => panic!("unexpected: {other:?}"),
    }
}

#[test]
fn h3_split_starts_with_nothing_to_send() {
    let mut stream = H3BidiStream::new((1, 'a'));
    stream.send_data(Bytes::from_static(b"dropped"));
    let (send, recv) = stream.split(|inner| inner);
    assert_eq!(send.inner, 1);
    assert_eq!(recv.inner, 'a');
    assert_eq!(send.buf.next_write(), None);
    assert_eq!(H3RecvStream::new(5).inner, 5);
}

#[test]
fn h3_operation_is_resumed() {
    let mut connection: H3Connection<u8, String, String, String> = H3Connection::new(9);
    let mut begun = 0;
    for round in 0..3 {
        let polled = connection.poll_open_bidi(
            |inner| {
                begun += 1;
                format!("open {inner}")
            },
            |operation| Attempt::<String, (), ()>::Pending(operation + "."),
        );
        assert!(matches!(polled, Polled::Pending), "{round}");
    }
    let polled = connection.poll_open_bidi(
        |_| panic!("the operation must not be started again"),
        |operation| Attempt::<String, String, ()>::Done(operation),
    );
    match polled {
        Polled::Ready(stream) => {
            assert_eq!(stream.inner, "open 9...");
            assert_eq!(stream.send_buf.next_write(), None);
        }
        _ => panic!("no stream"),
    }
    assert_eq!(begun, 1);
    let polled = connection.poll_open_bidi(
        |_| {
            begun += 1;
            String::new()
        },
        |_| Attempt::<String, (), &str>::Failed("lost"),
    );
    match polled {
        Polled::Failed(error) => assert_eq!(error, stream_error()),
        _ => panic!("no failure"),
    }
    assert_eq!(begun, 2);
}

#[test]
fn h3_operations_are_apart() {
    let mut connection: H3Connection<(), char, char, char> = H3Connection::new(());
    assert!(matches!(
        connection.poll_open_bidi(|_| 'a', |op| Attempt::<char, (), ()>::Pending(op)),
        Polled::Pending
    ));
    assert!(matches!(
        connection.poll_open_send(|_| 'b', |op| Attempt::<char, (), ()>::Pending(op)),
        Polled::Pending
    ));
    assert!(matches!(
        connection.poll_accept_bidi(|_| 'c', |op| Attempt::<char, (), ()>::Pending(op)),
        Polled::Pending
    ));
    assert!(matches!(
        connection.poll_accept_recv(|_| 'd', |op| Attempt::<char, (), ()>::Pending(op)),
        Polled::Pending
    ));
    let mut opener = connection.opener();
    let mut copy = connection.clone();
    match connection.poll_open_bidi(|_| 'x', |op| Attempt::<char, char, ()>::Done(op)) {
        Polled::Ready(stream) => assert_eq!(stream.inner, 'a'),
        _ => panic!("no stream"),
    }
    match connection.poll_open_send(|_| 'x', |op| Attempt::<char, char, ()>::Done(op)) {
        Polled::Ready(stream) => assert_eq!(stream.inner, 'b'),
        _ => panic!("no stream"),
    }
    match connection.poll_accept_bidi(|_| 'x', |op| Attempt::<char, char, ()>::Done(op)) {
        Polled::Ready(stream) => assert_eq!(stream.inner, 'c'),
        _ => panic!("no stream"),
    }
    match connection.poll_accept_recv(|_| 'x', |op| Attempt::<char, char, ()>::Done(op)) {
        Polled::Ready(stream) => assert_eq!(stream.inner, 'd'),
        _ => panic!("no stream"),
    }
    match opener.poll_open_bidi(|_| 'e', |op| Attempt::<char, char, ()>::Done(op)) {
        Polled::Ready(stream) => assert_eq!(stream.inner, 'e'),
        _ => panic!("no stream"),
    }
    match copy.poll_accept_recv(|_| 'f', |op| Attempt::<char, char, ()>::Done(op)) {
        Polled::Ready(stream) => assert_eq!(stream.inner, 'f'),
        _ => panic!("no stream"),
    }
}

#[test]
fn h3_operation_failures() {
    let mut connection: H3Connection<(), (), (), ()> = H3Connection::new(());
    match connection.poll_open_send(|_| (), |_| Attempt::<(), (), &str>::Failed("lost")) {
        Polled::Failed(error) => assert_eq!(error, stream_error()),
        _ => panic!("no failure"),
    }
    match connection.poll_accept_bidi(|_| (), |_| Attempt::<(), (), &str>::Failed("lost")) {
        Polled::Failed(error) => assert_eq!(error, conn_closed()),
        _ => panic!("no failure"),
    }
    match connection.poll_accept_recv(|_| (), |_| Attempt::<(), (), &str>::Failed("lost")) {
        Polled::Failed(error) => assert_eq!(error, conn_closed()),
        _ => panic!("no failure"),
    }
}

#[test]
fn h3_exchange_sends_the_whole_body() {
    let mut exchange = H3Exchange::opening();
    let mut sent: Vec<u8> = Vec::new();
    let mut frames = vec![
        BodyPoll::Data(Bytes::from_static(b"one")),
        BodyPoll::Trailers,
        BodyPoll::Data(Bytes::new()),
        BodyPoll::Data(Bytes::from_static(b"two")),
        BodyPoll::End,
    ]
    .into_iter();
    let mut action = exchange.advance(Step::Opened);
    let mut order = Vec::new();
    let response = loop {
        action = match action {
            ExchangeAction::ReadFrame => exchange.advance(Step::Frame(frames.next().unwrap())),
            ExchangeAction::SendData(data) => {
                order.push("send");
                sent.extend_from_slice(&data);
                exchange.advance(Step::Sent)
            }
            ExchangeAction::Finish => {
                order.push("finish");
                exchange.advance(Step::Finished)
            }
            ExchangeAction::ReceiveResponse => {
                order.push("receive");
                exchange.advance(Step::Received("response"))
            }
            ExchangeAction::Respond(response) => break response,
            ExchangeAction::Fail(error) => panic!("{error}"),
        };
    };
    assert_eq!(response, "response");
    assert_eq!(sent, b"onetwo");
    assert_eq!(order, vec!["send", "send", "send", "finish", "receive"]);
}

#[test]
fn h3_exchange_ends_with_the_first_failure() {
    let mut exchange = H3Exchange::opening();
    assert!(matches!(exchange.advance(Step::Failed("open")), ExchangeAction::Fail("open")));
    let mut exchange = H3Exchange::opening();
    exchange.advance(Step::Opened);
    assert!(matches!(
        exchange.advance(Step::Frame(BodyPoll::Failed("body"))),
        ExchangeAction::Fail("body")
    ));
    let mut exchange = H3Exchange::opening();
    exchange.advance(Step::Opened);
    exchange.advance(Step::Frame(BodyPoll::Data(Bytes::from_static(b"x"))));
    assert!(matches!(exchange.advance(Step::Failed("send")), ExchangeAction::Fail("send")));
}

#[test]
fn h3_response_frames() {
    let data = Polled::<Option<Bytes>, &str>::Ready(Some(Bytes::from_static(b"data")));
    match H3ResponseBody::<()>::poll_frame(data) {
        BodyPoll::Data(frame) => assert_eq!(frame, "data"),
        other => panic!("unexpected: {other:?}"),
    }
    assert!(matches!(
        H3ResponseBody::<()>::poll_frame(Polled::<Option<Bytes>, &str>::Ready(None)),
        BodyPoll::End
    ));
    assert!(matches!(
        H3ResponseBody::<()>::poll_frame(Polled::<Option<Bytes>, &str>::Pending),
        BodyPoll::Pending
    ));
    assert!(matches!(
        H3ResponseBody::<()>::poll_frame(Polled::<Option<Bytes>, &str>::Failed("reset")),
        BodyPoll::Failed(H3Error("reset"))
    ));
}

#[test]
fn h3_app_is_plain() {
    let H3App = H3App::new();
    let H3App = H3App::default();
}
