use gmf::client::comm::{
    handle_response, request_line, ChannelEvent, CommAction, CommEvent, Incoming, LineBuffer,
    SSHCommunicator,
};
use gmf::client::communicator;
use gmf::common::interface::{ClientRequest, Message, ServerResponse};

fn lines(buffer: &mut LineBuffer) -> Vec<String> {
    let mut out = Vec::new();
    while let Some(line) = buffer.next_line() {
        out.push(line);
    }
    out
}

#[test]
fn lines_come_out_whole() {
    let mut b = LineBuffer::new();
    b.push(b"one\r\n\n  two \nthr");
    assert_eq!(lines(&mut b), ["one", "two"]);
    assert_eq!(b.bytes, b"thr");
    b.push(b"ee\n");
    assert_eq!(lines(&mut b), ["three"]);
    assert!(b.bytes.is_empty());
}

#[test]
fn pieces_do_not_matter() {
    let text = "{\"a\":\"文件\"}\n\n{\"b\":2}\n";
    let mut whole = LineBuffer::new();
    whole.push(text.as_bytes());
    let expected = lines(&mut whole);
    for cut in 0..text.len() {
        let mut b = LineBuffer::new();
        b.push(&text.as_bytes()[..cut]);
        let mut got = lines(&mut b);
        b.push(&text.as_bytes()[cut..]);
        got.extend(lines(&mut b));
        assert_eq!(got, expected, "{cut}");
    }
    assert_eq!(expected, ["{\"a\":\"文件\"}", "{\"b\":2}"]);
}

#[test]
fn a_sent_line_is_read() {
    let line = request_line("{\"x\":\"é\"}");
    assert_eq!(line, "{\"x\":\"é\"}\n");
    let mut b = LineBuffer::new();
    b.push(line.as_bytes());
    assert_eq!(lines(&mut b), ["{\"x\":\"é\"}"]);
}

#[test]
fn bytes_that_are_not_text() {
    let mut b = LineBuffer::new();
    b.push(&[b'a', 0xff, b'\n']);
    assert_eq!(lines(&mut b), ["a\u{fffd}"]);
}

#[test]
fn only_answers_are_delivered() {
    let answer = Message::from(ServerResponse::UploadCompleted);
    assert!(matches!(
        handle_response("l", Some(answer)),
        Incoming::Deliver(ServerResponse::UploadCompleted)
    ));
    let request = Message::from(ClientRequest::Setup { path: String::new(), chunk_size: 1 });
    match handle_response("the line", Some(request)) {
        Incoming::Report(w) => assert_eq!(w, "收到无效或非响应类型的消息: the line"),
        _ => panic!("delivered"),
    }
    assert!(matches!(handle_response("x", None), Incoming::Report(_)));
}

#[test]
fn the_communicator_runs() {
    let mut c = SSHCommunicator::new();
    assert!(matches!(c.run(CommEvent::Request), CommAction::Send));
    let data = CommEvent::Channel(ChannelEvent::Data(b"x\n".to_vec()));
    assert!(matches!(c.run(data), CommAction::ReadLines));
    assert_eq!(lines(&mut c.buffer), ["x"]);
    assert!(matches!(c.run(CommEvent::Channel(ChannelEvent::Other)), CommAction::Wait));
    let exit = CommEvent::Channel(ChannelEvent::ExitStatus(0));
    assert!(matches!(c.run(exit), CommAction::Wait));
    assert!(matches!(c.run(CommEvent::Channel(ChannelEvent::Closed)), CommAction::Stop));
    assert!(matches!(c.run(CommEvent::RequestsClosed), CommAction::Stop));
    match c.run(CommEvent::SendFailed) {
        CommAction::ReportAndStop(w) => assert_eq!(w, "发送命令失败，通信器退出。"),
        other => panic!("{other:?}"),
    }
}

#[test]
fn the_other_communicator_says_goodbye_first() {
    let mut c = communicator::SSHCommunicator::new();
    assert!(c.takes_requests());
    assert!(matches!(
        c.run(communicator::CommEvent::Request),
        communicator::CommAction::Send
    ));
    assert!(matches!(
        c.run(communicator::CommEvent::RequestsClosed),
        communicator::CommAction::SendEof
    ));
    assert!(!c.takes_requests());
    let data = communicator::CommEvent::Channel(ChannelEvent::Data(b"late\n".to_vec()));
    assert!(matches!(c.run(data), communicator::CommAction::ReadLines));
    assert_eq!(lines(&mut c.buffer), ["late"]);
    assert!(matches!(
        c.run(communicator::CommEvent::Channel(ChannelEvent::ExitStatus(0))),
        communicator::CommAction::Stop
    ));
    assert!(matches!(
        c.run(communicator::CommEvent::Channel(ChannelEvent::Other)),
        communicator::CommAction::Wait
    ));
    assert!(matches!(
        c.run(communicator::CommEvent::Channel(ChannelEvent::Closed)),
        communicator::CommAction::Stop
    ));
    assert!(matches!(
        c.run(communicator::CommEvent::DeliveryFailed),
        communicator::CommAction::Stop
    ));
    match c.run(communicator::CommEvent::EofFailed("io".to_string())) {
        communicator::CommAction::ReportAndStop(w) => assert_eq!(w, "发送 EOF 失败: io"),
        other => panic!("{other:?}"),
    }
    match c.run(communicator::CommEvent::SendFailed) {
        communicator::CommAction::ReportAndStop(w) => {
            assert_eq!(w, "发送命令失败, I/O Actor 退出。");
        }
        other => panic!("{other:?}"),
    }
}
