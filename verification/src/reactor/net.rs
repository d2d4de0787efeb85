//! TCP streams: when to try the socket and when to wait for an event.
use crate::reactor::io::Event;
use crate::task::Poll;
use vstd::prelude::*;

verus! {

/// What a socket is asked for.
#[derive(Clone, Copy, PartialEq, Eq, Structural, Debug)]
pub enum Mode {
    /// To read.
    Read,
    /// To write, or to flush what was written.
    Write,
}

/// Why a socket did not do what it was asked.
#[derive(Debug)]
pub enum IoError<E> {
    /// It would have to wait.
    WouldBlock,
    /// Anything else.
    Other(E),
}

/// Why a stream cannot go on.
#[derive(Debug)]
pub enum StreamError<E> {
    /// The socket failed.
    Io(E),
    /// The channel that brings the events of the socket is gone.
    Disconnected,
}

impl<E> StreamError<E> {
    /// What to tell of a channel that is gone.
    pub fn disconnected() -> (message: &'static str)
        ensures
            message@ == "channel disconnected"@,
    {
        "channel disconnected"
    }
}

/// What a poll of a stream does next.
#[derive(Debug)]
pub enum IoStep<T, E> {
    /// It asks the socket.
    Try,
    /// It looks for the next event of the socket.
    PollEvent,
    /// It is over, with this result.
    Ready(Result<T, StreamError<E>>),
    /// It is over for now: the task is woken by the next event.
    Pending,
}

/// What a poll of a stream is told.
pub ghost enum IoInput<T, E> {
    /// What the socket did.
    Tried(Result<T, IoError<E>>),
    /// What there was to find in the channel of the events.
    Polled(Poll<Option<Event>>),
}

/// Which sides of a stream may be ready, as far as is known.
pub ghost struct Flags {
    /// Reading may not block.
    pub read: bool,
    /// Writing may not block.
    pub write: bool,
}

impl Flags {
    /// Whether the socket may do what it is asked without blocking.
    pub open spec fn ready(self, mode: Mode) -> bool {
        match mode {
            Mode::Read => self.read,
            Mode::Write => self.write,
        }
    }

    /// The same flags, but for that of `mode`.
    pub open spec fn with(self, mode: Mode, ready: bool) -> Flags {
        match mode {
            Mode::Read => Flags { read: ready, ..self },
            Mode::Write => Flags { write: ready, ..self },
        }
    }

    /// The flags after an event.
    pub open spec fn after_event(self, event: Event) -> Flags {
        Flags {
            read: self.read || event@.readable || event@.read_closed,
            write: self.write || event@.writable || event@.write_closed,
        }
    }

    /// The flags after a round of a poll has begun.
    pub open spec fn begun(self, mode: Mode) -> Flags {
        self.with(mode, false)
    }

    /// What a round of a poll does first.
    pub open spec fn first_step<T, E>(self, mode: Mode) -> IoStep<T, E> {
        if self.ready(mode) {
            IoStep::Try
        } else {
            IoStep::PollEvent
        }
    }
}

/// What to do once the socket was asked.
pub open spec fn step_after_try<T, E>(result: Result<T, IoError<E>>) -> IoStep<T, E> {
    match result {
        Ok(value) => IoStep::Ready(Ok(value)),
        Err(IoError::WouldBlock) => IoStep::PollEvent,
        Err(IoError::Other(e)) => IoStep::Ready(Err(StreamError::Io(e))),
    }
}

/// The flags once the socket was asked: where it did as asked, no new event will
/// come before it is asked again, so the flag is set.
pub open spec fn flags_after_try<T, E>(
    flags: Flags,
    mode: Mode,
    result: Result<T, IoError<E>>,
) -> Flags {
    if result is Ok {
        flags.with(mode, true)
    } else {
        flags
    }
}

/// What to do once the channel was looked into.
pub open spec fn step_after_event<T, E>(
    flags: Flags,
    mode: Mode,
    polled: Poll<Option<Event>>,
) -> IoStep<T, E> {
    match polled {
        Poll::Pending => IoStep::Pending,
        Poll::Ready(None) => IoStep::Ready(Err(StreamError::Disconnected)),
        Poll::Ready(Some(event)) => flags.after_event(event).first_step(mode),
    }
}

/// The flags once the channel was looked into and, where it held an event, the
/// next round has begun.
pub open spec fn flags_after_event(
    flags: Flags,
    mode: Mode,
    polled: Poll<Option<Event>>,
) -> Flags {
    match polled {
        Poll::Ready(Some(event)) => flags.after_event(event).begun(mode),
        _ => flags,
    }
}

/// One end of a TCP connection.
#[derive(Debug)]
pub struct TcpStream {
    read: bool,
    write: bool,
}

impl View for TcpStream {
    type V = Flags;

    closed spec fn view(&self) -> Flags {
        Flags { read: self.read, write: self.write }
    }
}

impl TcpStream {
    /// A stream that was not asked for anything yet: both sides may be ready.
    pub fn new() -> (stream: TcpStream)
        ensures
            stream@ == (Flags { read: true, write: true }),
    {
        TcpStream { read: true, write: true }
    }

    /// Begins a round of a poll: asks the socket if it may be ready, and looks
    /// for an event otherwise. The socket counts as not ready until it has
    /// answered.
    pub fn poll_io<T, E>(&mut self, mode: Mode) -> (step: IoStep<T, E>)
        ensures
            final(self)@ == old(self)@.begun(mode),
            step == old(self)@.first_step::<T, E>(mode),
            mode is Read ==> (step is Try <==> old(self)@.read) && !final(self)@.read
                && final(self)@.write == old(self)@.write,
            mode is Write ==> (step is Try <==> old(self)@.write) && !final(self)@.write
                && final(self)@.read == old(self)@.read,
            step is Try || step is PollEvent,
    {
        let ready = match mode {
            Mode::Read => {
                let ready = self.read;
                self.read = false;
                ready
            },
            Mode::Write => {
                let ready = self.write;
                self.write = false;
                ready
            },
        };
        if ready {
            IoStep::Try
        } else {
            IoStep::PollEvent
        }
    }

    /// Goes on with what the socket did.
    pub fn tried<T, E>(&mut self, mode: Mode, result: Result<T, IoError<E>>) -> (step: IoStep<T, E>)
        ensures
            final(self)@ == flags_after_try(old(self)@, mode, result),
            step == step_after_try(result),
            result matches Ok(value) ==> step == IoStep::<T, E>::Ready(Ok(value)),
            result matches Err(IoError::Other(error)) ==> step == IoStep::<T, E>::Ready(
                Err(StreamError::Io(error)),
            ),
            result matches Err(IoError::WouldBlock) ==> step is PollEvent,
            final(self)@.read == (old(self)@.read || (mode is Read && result is Ok)),
            final(self)@.write == (old(self)@.write || (mode is Write && result is Ok)),
    {
        match result {
            Ok(value) => {
                match mode {
                    Mode::Read => {
                        self.read = true;
                    },
                    Mode::Write => {
                        self.write = true;
                    },
                }
                IoStep::Ready(Ok(value))
            },
            Err(IoError::WouldBlock) => IoStep::PollEvent,
            Err(IoError::Other(e)) => IoStep::Ready(Err(StreamError::Io(e))),
        }
    }

    /// Takes in what there was to find in the channel of the events.
    pub fn poll_event<E>(&mut self, polled: Poll<Option<Event>>) -> (ready: Poll<
        Result<(), StreamError<E>>,
    >)
        ensures
            ready is Pending <==> polled is Pending,
            ready == Poll::Ready(Err::<(), StreamError<E>>(StreamError::Disconnected)) <==> polled
                == Poll::Ready(None::<Event>),
            ready == Poll::Ready(Ok::<(), StreamError<E>>(())) <==> (polled is Ready
                && polled->Ready_0 is Some),
            final(self)@ == (match polled {
                Poll::Ready(Some(event)) => old(self)@.after_event(event),
                _ => old(self)@,
            }),
            polled matches Poll::Ready(Some(event)) ==> final(self)@.read == (old(self)@.read
                || event@.readable || event@.read_closed) && final(self)@.write == (old(self)@.write
                || event@.writable || event@.write_closed),
    {
        match polled {
            Poll::Pending => Poll::Pending,
            Poll::Ready(None) => Poll::Ready(Err(StreamError::Disconnected)),
            Poll::Ready(Some(event)) => {
                self.read = self.read || event.is_readable();
                self.write = self.write || event.is_writable();
                Poll::Ready(Ok(()))
            },
        }
    }

    /// Goes on with what there was to find in the channel of the events: the
    /// poll begins another round unless there was nothing.
    pub fn polled<T, E>(&mut self, mode: Mode, polled: Poll<Option<Event>>) -> (step: IoStep<T, E>)
        ensures
            final(self)@ == flags_after_event(old(self)@, mode, polled),
            step == step_after_event::<T, E>(old(self)@, mode, polled),
            polled is Pending ==> step is Pending && final(self)@ == old(self)@,
            polled == Poll::Ready(None::<Event>) ==> step == IoStep::<T, E>::Ready(
                Err(StreamError::Disconnected),
            ) && final(self)@ == old(self)@,
            polled matches Poll::Ready(Some(event)) ==> {
                let read = old(self)@.read || event@.readable || event@.read_closed;
                let write = old(self)@.write || event@.writable || event@.write_closed;
                &&& mode is Read ==> (step is Try <==> read) && final(self)@ == (Flags {
                    read: false,
                    write,
                })
                &&& mode is Write ==> (step is Try <==> write) && final(self)@ == (Flags {
                    read,
                    write: false,
                })
                &&& step is Try || step is PollEvent
            },
    {
        match self.poll_event::<E>(polled) {
            Poll::Pending => IoStep::Pending,
            Poll::Ready(Err(e)) => IoStep::Ready(Err(e)),
            Poll::Ready(Ok(())) => self.poll_io(mode),
        }
    }
}

/// What a poll for a connection does next.
#[derive(Debug)]
pub enum AcceptStep<T> {
    /// It asks the socket for a connection.
    Accept,
    /// It is over, with this result.
    Return(Poll<Option<T>>),
}

/// The connections that come in at a socket.
pub struct Accept;

impl Accept {
    /// Looks at what there was to find in the channel of the events. There is a
    /// connection to ask for only after an event, and there are no more once the
    /// channel is gone.
    pub fn polled<T>(&self, polled: Poll<Option<Event>>) -> (step: AcceptStep<T>)
        ensures
            step == (match polled {
                Poll::Pending => AcceptStep::Return(Poll::Pending),
                Poll::Ready(None) => AcceptStep::Return(Poll::Ready(None)),
                Poll::Ready(Some(_)) => AcceptStep::<T>::Accept,
            }),
    {
        match polled {
            Poll::Pending => AcceptStep::Return(Poll::Pending),
            Poll::Ready(None) => AcceptStep::Return(Poll::Ready(None)),
            Poll::Ready(Some(_)) => AcceptStep::Accept,
        }
    }

    /// Gives out the connection that the socket had, or why it could not be had
    /// or registered.
    pub fn accepted<C, E>(&self, accepted: Result<Result<C, E>, IoError<E>>) -> (next: Poll<
        Option<Result<C, E>>,
    >)
        ensures
            next == (match accepted {
                Ok(registered) => Poll::Ready(Some(registered)),
                Err(IoError::WouldBlock) => Poll::Pending,
                Err(IoError::Other(e)) => Poll::Ready(Some(Err(e))),
            }),
    {
        match accepted {
            Ok(registered) => Poll::Ready(Some(registered)),
            Err(IoError::WouldBlock) => Poll::Pending,
            Err(IoError::Other(e)) => Poll::Ready(Some(Err(e))),
        }
    }
}

/// Whether a poll that is about to do `step` can be told `input`.
pub open spec fn answers<T, E>(step: IoStep<T, E>, input: IoInput<T, E>) -> bool {
    match input {
        IoInput::Tried(_) => step is Try,
        IoInput::Polled(_) => step is PollEvent,
    }
}

/// Whether a poll can be told all of these, one after the other, when it begins
/// with these flags.
pub open spec fn possible<T, E>(flags: Flags, mode: Mode, inputs: Seq<IoInput<T, E>>) -> bool
    decreases inputs.len(),
{
    inputs.len() > 0 ==> possible(flags, mode, inputs.drop_last()) && answers(
        poll_step(flags, mode, inputs.drop_last()),
        inputs.last(),
    )
}

/// The flags after a poll that was told all of these.
pub open spec fn poll_flags<T, E>(flags: Flags, mode: Mode, inputs: Seq<IoInput<T, E>>) -> Flags
    decreases inputs.len(),
{
    if inputs.len() == 0 {
        flags.begun(mode)
    } else {
        let before = poll_flags(flags, mode, inputs.drop_last());
        match inputs.last() {
            IoInput::Tried(result) => flags_after_try(before, mode, result),
            IoInput::Polled(polled) => flags_after_event(before, mode, polled),
        }
    }
}

/// What a poll that was told all of these does next.
pub open spec fn poll_step<T, E>(
    flags: Flags,
    mode: Mode,
    inputs: Seq<IoInput<T, E>>,
) -> IoStep<T, E> {
    if inputs.len() == 0 {
        flags.first_step(mode)
    } else {
        match inputs.last() {
            IoInput::Tried(result) => step_after_try(result),
            IoInput::Polled(polled) => step_after_event(
                poll_flags(flags, mode, inputs.drop_last()),
                mode,
                polled,
            ),
        }
    }
}

/// A poll that has the value it was asked for leaves the socket marked as ready,
/// so the next one asks the socket first.
pub proof fn law_success_keeps_socket_ready<T, E>(
    flags: Flags,
    mode: Mode,
    inputs: Seq<IoInput<T, E>>,
)
    requires
        possible(flags, mode, inputs),
        poll_step(flags, mode, inputs) matches IoStep::Ready(Ok(_)),
    ensures
        poll_flags(flags, mode, inputs).ready(mode),
        poll_flags(flags, mode, inputs).first_step::<T, E>(mode) is Try,
{
}

/// A poll that waits has found the channel of the events empty, and it knows of
/// no readiness that it has not tried: the next poll looks for an event first.
pub proof fn law_pending_has_tried_everything<T, E>(
    flags: Flags,
    mode: Mode,
    inputs: Seq<IoInput<T, E>>,
)
    requires
        possible(flags, mode, inputs),
        poll_step(flags, mode, inputs) is Pending,
    ensures
        inputs.len() > 0,
        inputs.last() == IoInput::<T, E>::Polled(Poll::Pending),
        !poll_flags(flags, mode, inputs).ready(mode),
        poll_flags(flags, mode, inputs).first_step::<T, E>(mode) is PollEvent,
{
    lemma_unanswered_is_not_ready(flags, mode, inputs.drop_last());
}

/// A poll that ends in an error leaves the socket marked as not ready, so the next
/// one looks for an event first.
pub proof fn law_error_leaves_socket_not_ready<T, E>(
    flags: Flags,
    mode: Mode,
    inputs: Seq<IoInput<T, E>>,
)
    requires
        possible(flags, mode, inputs),
        poll_step(flags, mode, inputs) matches IoStep::Ready(Err(_)),
    ensures
        !poll_flags(flags, mode, inputs).ready(mode),
        poll_flags(flags, mode, inputs).first_step::<T, E>(mode) is PollEvent,
{
    lemma_unanswered_is_not_ready(flags, mode, inputs.drop_last());
}

/// While a poll is not over, its socket does not count as ready.
proof fn lemma_unanswered_is_not_ready<T, E>(
    flags: Flags,
    mode: Mode,
    inputs: Seq<IoInput<T, E>>,
)
    requires
        possible(flags, mode, inputs),
        !(poll_step(flags, mode, inputs) is Ready),
    ensures
        !poll_flags(flags, mode, inputs).ready(mode),
    decreases inputs.len(),
{
    if inputs.len() > 0 {
        lemma_unanswered_is_not_ready(flags, mode, inputs.drop_last());
    }
}

/// A poll of one side never forgets that the other is ready.
pub proof fn law_other_side_stays_ready<T, E>(
    flags: Flags,
    mode: Mode,
    other: Mode,
    inputs: Seq<IoInput<T, E>>,
)
    requires
        possible(flags, mode, inputs),
        mode != other,
        flags.ready(other),
    ensures
        poll_flags(flags, mode, inputs).ready(other),
    decreases inputs.len(),
{
    if inputs.len() > 0 {
        law_other_side_stays_ready(flags, mode, other, inputs.drop_last());
    }
}

/// An event that a poll of one side takes from the channel is not lost for the
/// other: whatever it says of that side is remembered.
pub proof fn law_event_counts_for_both_sides<T, E>(
    flags: Flags,
    mode: Mode,
    other: Mode,
    inputs: Seq<IoInput<T, E>>,
    i: int,
    event: Event,
)
    requires
        possible(flags, mode, inputs),
        mode != other,
        0 <= i < inputs.len(),
        inputs[i] == IoInput::<T, E>::Polled(Poll::Ready(Some(event))),
        (Flags { read: false, write: false }).after_event(event).ready(other),
    ensures
        poll_flags(flags, mode, inputs).ready(other),
    decreases inputs.len(),
{
    if i < inputs.len() - 1 {
        law_event_counts_for_both_sides(flags, mode, other, inputs.drop_last(), i, event);
    }
}

/// The socket is asked only when it may be ready: at the start, where the flag
/// says so, and after an event that says so.
pub proof fn law_socket_is_asked_with_reason<T, E>(
    flags: Flags,
    mode: Mode,
    inputs: Seq<IoInput<T, E>>,
)
    requires
        possible(flags, mode, inputs),
        poll_step(flags, mode, inputs) is Try,
    ensures
        inputs.len() == 0 ==> flags.ready(mode),
        inputs.len() > 0 ==> (inputs.last() matches IoInput::Polled(
            Poll::Ready(Some(event)),
        ) && (Flags { read: false, write: false }).after_event(event).ready(mode)),
{
    if inputs.len() > 0 {
        lemma_unanswered_is_not_ready(flags, mode, inputs.drop_last());
    }
}

/// An event that says that a side of the socket is ready, or that the peer has closed
/// it, makes a poll of that side ask the socket next, and only such an event does.
pub proof fn law_ready_event_is_tried<T, E>(
    flags: Flags,
    mode: Mode,
    inputs: Seq<IoInput<T, E>>,
    event: Event,
)
    requires
        possible(flags, mode, inputs),
        poll_step(flags, mode, inputs) is PollEvent,
    ensures
        ({
            let next = poll_step(
                flags,
                mode,
                inputs.push(IoInput::Polled(Poll::Ready(Some(event)))),
            );
            &&& possible(flags, mode, inputs.push(IoInput::Polled(Poll::Ready(Some(event)))))
            &&& mode is Read ==> (next is Try <==> event@.readable || event@.read_closed)
            &&& mode is Write ==> (next is Try <==> event@.writable || event@.write_closed)
            &&& !(next is Try) ==> next is PollEvent
        }),
{
    lemma_unanswered_is_not_ready(flags, mode, inputs);
    let longer = inputs.push(IoInput::Polled(Poll::Ready(Some(event))));
    assert(longer.drop_last() =~= inputs);
}

/// No step of a poll forgets that its side is ready without asking the socket,
/// whatever the flags were before.
pub proof fn law_readiness_is_never_wasted<T, E>(
    flags: Flags,
    mode: Mode,
    polled: Poll<Option<Event>>,
    result: Result<T, IoError<E>>,
)
    ensures
        flags.ready(mode) ==> flags.first_step::<T, E>(mode) is Try,
        flags.ready(mode) && !flags_after_event(flags, mode, polled).ready(mode)
            ==> step_after_event::<T, E>(flags, mode, polled) is Try,
        flags.ready(mode) ==> flags_after_try(flags, mode, result).ready(mode),
        polled matches Poll::Ready(Some(event)) ==> {
            &&& (event@.readable || event@.read_closed) && mode is Read ==> step_after_event::<T, E>(
                flags,
                mode,
                polled,
            ) is Try
            &&& (event@.writable || event@.write_closed) && mode is Write ==> step_after_event::<
                T,
                E,
            >(flags, mode, polled) is Try
            &&& (event@.readable || event@.read_closed) && mode is Write ==> flags_after_event(
                flags,
                mode,
                polled,
            ).read
            &&& (event@.writable || event@.write_closed) && mode is Read ==> flags_after_event(
                flags,
                mode,
                polled,
            ).write
        },
{
}

/// A round asks the socket exactly if its side may be ready, and then counts that
/// side, and that side alone, as not ready.
pub proof fn law_round_uses_its_own_flag<T, E>(flags: Flags)
    ensures
        flags.read <==> flags.first_step::<T, E>(Mode::Read) is Try,
        flags.write <==> flags.first_step::<T, E>(Mode::Write) is Try,
        !flags.read <==> flags.first_step::<T, E>(Mode::Read) is PollEvent,
        !flags.write <==> flags.first_step::<T, E>(Mode::Write) is PollEvent,
        flags.begun(Mode::Read) == (Flags { read: false, write: flags.write }),
        flags.begun(Mode::Write) == (Flags { read: flags.read, write: false }),
{
}

/// Whatever the socket gives is what the poll gives: its value, or its error. A poll
/// that would block looks for an event, and one whose channel is gone says so.
pub proof fn law_result_is_passed_on<T, E>(
    flags: Flags,
    mode: Mode,
    inputs: Seq<IoInput<T, E>>,
    value: T,
    error: E,
)
    ensures
        poll_step(flags, mode, inputs.push(IoInput::Tried(Ok(value)))) == IoStep::<T, E>::Ready(
            Ok(value),
        ),
        poll_step(flags, mode, inputs.push(IoInput::Tried(Err(IoError::Other(error)))))
            == IoStep::<T, E>::Ready(Err(StreamError::Io(error))),
        poll_step(flags, mode, inputs.push(IoInput::Tried(Err(IoError::WouldBlock)))) is PollEvent,
        poll_step(flags, mode, inputs.push(IoInput::Polled(Poll::Pending))) is Pending,
        poll_step(flags, mode, inputs.push(IoInput::Polled(Poll::Ready(None)))) == IoStep::<
            T,
            E,
        >::Ready(Err(StreamError::Disconnected)),
{
}

} // verus!
