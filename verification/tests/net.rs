use what_the_async::reactor::io::Event;
use what_the_async::reactor::net::{
    Accept, AcceptStep, IoError, IoStep, Mode, StreamError, TcpStream,
};
use what_the_async::task::Poll;

type Step = IoStep<usize, &'static str>;

fn begin(stream: &mut TcpStream, mode: Mode) -> Step {
    stream.poll_io(mode)
}

fn readable() -> Event {
    Event::new(true, false, false, false)
}

fn writable() -> Event {
    Event::new(false, true, false, false)
}

#[test]
fn new_stream_asks_the_socket_first() {
    let mut stream = TcpStream::new();
    assert!(matches!(begin(&mut stream, Mode::Read), IoStep::Try));
    assert!(matches!(begin(&mut stream, Mode::Write), IoStep::Try));
}

#[test]
fn socket_is_asked_again_after_success() {
    let mut stream = TcpStream::new();
    for n in [5usize, 9] {
        assert!(matches!(begin(&mut stream, Mode::Read), IoStep::Try));
        let step: Step = stream.tried(Mode::Read, Ok(n));
        assert!(matches!(step, IoStep::Ready(Ok(got)) if got == n));
    }
}

#[test]
fn blocked_stream_waits_for_an_event() {
    let mut stream = TcpStream::new();
    assert!(matches!(begin(&mut stream, Mode::Read), IoStep::Try));
    let step: Step = stream.tried(Mode::Read, Err(IoError::WouldBlock));
    assert!(matches!(step, IoStep::PollEvent));
    let step: Step = stream.polled(Mode::Read, Poll::Pending);
    assert!(matches!(step, IoStep::Pending));
    assert!(matches!(begin(&mut stream, Mode::Read), IoStep::PollEvent));
    let step: Step = stream.polled(Mode::Read, Poll::Ready(Some(readable())));
    assert!(matches!(step, IoStep::Try));
}

#[test]
fn event_for_the_other_side_is_remembered() {
    let mut stream = TcpStream::new();
    let step: Step = stream.poll_io(Mode::Write);
    assert!(matches!(step, IoStep::Try));
    let step: Step = stream.tried(Mode::Write, Err(IoError::WouldBlock));
    assert!(matches!(step, IoStep::PollEvent));
    assert!(matches!(begin(&mut stream, Mode::Read), IoStep::Try));
    let step: Step = stream.tried(Mode::Read, Err(IoError::WouldBlock));
    assert!(matches!(step, IoStep::PollEvent));
    let step: Step = stream.polled(Mode::Read, Poll::Ready(Some(writable())));
    assert!(matches!(step, IoStep::PollEvent));
    assert!(matches!(begin(&mut stream, Mode::Write), IoStep::Try));
}

#[test]
fn closed_side_counts_as_ready() {
    let mut stream = TcpStream::new();
    assert!(matches!(begin(&mut stream, Mode::Read), IoStep::Try));
    let closed = Event::new(false, false, true, false);
    let step: Step = stream.polled(Mode::Read, Poll::Ready(Some(closed)));
    assert!(matches!(step, IoStep::Try));
}

#[test]
fn failed_socket_fails_the_stream() {
    let mut stream = TcpStream::new();
    assert!(matches!(begin(&mut stream, Mode::Write), IoStep::Try));
    let step: Step = stream.tried(Mode::Write, Err(IoError::Other("reset")));
    assert!(matches!(step, IoStep::Ready(Err(StreamError::Io("reset")))));
    assert!(matches!(begin(&mut stream, Mode::Write), IoStep::PollEvent));
}

#[test]
fn stream_without_its_channel_is_disconnected() {
    let mut stream = TcpStream::new();
    let ready: Poll<Result<(), StreamError<&str>>> = stream.poll_event(Poll::Ready(None));
    assert!(matches!(ready, Poll::Ready(Err(StreamError::Disconnected))));
    let step: Step = stream.polled(Mode::Read, Poll::Ready(None));
    assert!(matches!(step, IoStep::Ready(Err(StreamError::Disconnected))));
    assert_eq!(StreamError::<()>::disconnected(), "channel disconnected");
}

#[test]
fn connection_is_asked_for_after_an_event() {
    let accept = Accept;
    let step: AcceptStep<u8> = accept.polled(Poll::Pending);
    assert!(matches!(step, AcceptStep::Return(Poll::Pending)));
    let step: AcceptStep<u8> = accept.polled(Poll::Ready(None));
    assert!(matches!(step, AcceptStep::Return(Poll::Ready(None))));
    let step: AcceptStep<u8> = accept.polled(Poll::Ready(Some(readable())));
    assert!(matches!(step, AcceptStep::Accept));
}

#[test]
fn connection_is_given_out() {
    let accept = Accept;
    let next = |accepted: Result<Result<u8, &'static str>, IoError<&'static str>>| {
        accept.accepted(accepted)
    };
    assert_eq!(next(Ok(Ok(7))), Poll::Ready(Some(Ok(7))));
    assert_eq!(next(Ok(Err("no room"))), Poll::Ready(Some(Err("no room"))));
    assert_eq!(next(Err(IoError::WouldBlock)), Poll::Pending);
    assert_eq!(next(Err(IoError::Other("broken"))), Poll::Ready(Some(Err("broken"))));
}
