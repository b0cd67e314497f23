use duplex_chat::queue::{OutboundQueue, Received};
use duplex_chat::session::{
    frame_read_result, Command, FrameError, FrameReadResult, LoopState, Notice, Phase, Poller,
    ReadOutcome, Request, SessionConfig,
};

fn frame_of(text: &str) -> Vec<u8> {
    let mut f = text.as_bytes().to_vec();
    f.resize(32, 0);
    f
}

#[test]
fn default_config_values() {
    let c = SessionConfig::default();
    assert_eq!(c.address, "127.0.0.1:6000");
    assert_eq!(c.poll_interval_ms, 100);
    assert_eq!(c.quit_command, ":quit");
}

#[test]
fn quit_line_ends_the_session() {
    let c = SessionConfig::default();
    assert!(matches!(c.interpret_line(":quit\n"), Command::Quit));
    assert!(matches!(c.interpret_line("  :quit \r\n"), Command::Quit));
}

#[test]
fn other_lines_are_trimmed_messages() {
    let c = SessionConfig::default();
    match c.interpret_line("  hello world \n") {
        Command::Send(m) => assert_eq!(m, "hello world"),
        Command::Quit => panic!("not a quit line"),
    }
    match c.interpret_line(":quit now\n") {
        Command::Send(m) => assert_eq!(m, ":quit now"),
        Command::Quit => panic!("not a quit line"),
    }
}

#[test]
fn empty_line_is_an_empty_message() {
    let c = SessionConfig::default();
    match c.interpret_line("\n") {
        Command::Send(m) => assert_eq!(m, ""),
        Command::Quit => panic!("not a quit line"),
    }
}

#[test]
fn read_outcomes_are_interpreted() {
    match frame_read_result(ReadOutcome::Filled(frame_of("ping"))) {
        Ok(FrameReadResult::Message(m)) => assert_eq!(m, "ping"),
        _ => panic!("expected a message"),
    }
    assert!(matches!(frame_read_result(ReadOutcome::WouldBlock), Ok(FrameReadResult::NoData)));
    assert!(matches!(frame_read_result(ReadOutcome::Failed), Ok(FrameReadResult::Closed)));
    let mut bad = vec![0xC3u8];
    bad.resize(32, 0);
    assert!(matches!(
        frame_read_result(ReadOutcome::Filled(bad)),
        Err(FrameError::InvalidText)
    ));
}

#[test]
fn hello_then_quit_sends_one_padded_frame() {
    let c = SessionConfig::default();
    let mut q = OutboundQueue::new();
    let mut p = Poller::new(&c);
    match c.interpret_line("hello\n") {
        Command::Send(m) => assert!(q.send(m).is_ok()),
        Command::Quit => panic!("not a quit line"),
    }
    assert!(matches!(c.interpret_line(":quit\n"), Command::Quit));
    assert_eq!(p.next_request(), Request::ReadFrame);
    assert!(matches!(p.on_read(FrameReadResult::NoData), Notice::Nothing));
    assert_eq!(p.next_request(), Request::PollQueue);
    match p.on_dequeue(q.try_recv()) {
        Notice::Transmit { frame, message } => {
            let mut expected = b"hello".to_vec();
            expected.extend(vec![0u8; 27]);
            assert_eq!(frame, expected);
            assert_eq!(message, "hello");
        }
        _ => panic!("expected a frame to send"),
    }
    assert_eq!(p.state, LoopState::Polling);
    assert_eq!(p.next_request(), Request::Sleep(100));
    assert_eq!(p.next_request(), Request::ReadFrame);
}

#[test]
fn incoming_ping_is_displayed_once() {
    let mut p = Poller::new(&SessionConfig::default());
    assert_eq!(p.next_request(), Request::ReadFrame);
    let r = frame_read_result(ReadOutcome::Filled(frame_of("ping"))).ok().unwrap();
    match p.on_read(r) {
        Notice::Display(m) => assert_eq!(m, "ping"),
        _ => panic!("expected a message to show"),
    }
    assert!(matches!(
        p.on_read(FrameReadResult::Message("ping".to_string())),
        Notice::Nothing
    ));
    assert_eq!(p.phase, Phase::Dequeue);
}

#[test]
fn remote_close_stops_the_loop_for_good() {
    let mut p = Poller::new(&SessionConfig::default());
    assert_eq!(p.next_request(), Request::ReadFrame);
    assert!(matches!(p.on_read(FrameReadResult::Closed), Notice::Severed));
    assert_eq!(p.state, LoopState::SocketClosed);
    assert_eq!(p.next_request(), Request::Stop);
    assert_eq!(p.state, LoopState::Terminated);
    assert_eq!(p.next_request(), Request::Stop);
    assert!(matches!(p.on_read(FrameReadResult::NoData), Notice::Nothing));
    assert_eq!(p.state, LoopState::Terminated);
}

#[test]
fn would_block_keeps_polling() {
    let mut p = Poller::new(&SessionConfig::default());
    let mut q = OutboundQueue::new();
    for _ in 0..5 {
        assert_eq!(p.next_request(), Request::ReadFrame);
        assert!(matches!(p.on_read(FrameReadResult::NoData), Notice::Nothing));
        assert_eq!(p.next_request(), Request::PollQueue);
        assert!(matches!(p.on_dequeue(q.try_recv()), Notice::Nothing));
        assert_eq!(p.next_request(), Request::Sleep(100));
        assert_eq!(p.state, LoopState::Polling);
    }
}

#[test]
fn gone_producer_stops_the_loop() {
    let mut p = Poller::new(&SessionConfig::default());
    let mut q = OutboundQueue::new();
    q.close_producer();
    assert_eq!(p.next_request(), Request::ReadFrame);
    assert!(matches!(p.on_read(FrameReadResult::NoData), Notice::Nothing));
    assert_eq!(p.next_request(), Request::PollQueue);
    assert!(matches!(q.try_recv(), Received::Disconnected));
    assert!(matches!(p.on_dequeue(Received::Disconnected), Notice::Disconnected));
    assert_eq!(p.state, LoopState::QueueClosed);
    assert_eq!(p.next_request(), Request::Stop);
}
