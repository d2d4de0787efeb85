//! A channel for sending a single message between asynchronous tasks.
//!
//! This is a single-producer, single-consumer channel.
pub mod delivery;

use crate::task::Poll;
use std::task::Waker;
use vstd::prelude::*;

verus! {

/// Error returned from a receiver when the corresponding sender is dropped.
#[derive(Clone, Copy, PartialEq, Eq, Structural, Debug)]
pub struct Canceled;

impl Canceled {
    /// The message that is shown for this error.
    pub fn message(&self) -> (message: &'static str)
        ensures
            message@ == "oneshot canceled"@,
    {
        "oneshot canceled"
    }
}

/// What a channel holds.
pub ghost struct Channel<T> {
    /// Whether one of the halves is done.
    pub complete: bool,
    /// The message, from when it is sent until it is received.
    pub data: Option<T>,
    /// The task that waits for the message.
    pub rx_task: Option<Waker>,
}

impl<T> Channel<T> {
    /// A channel that nobody has used.
    pub open spec fn fresh() -> Channel<T> {
        Channel { complete: false, data: None, rx_task: None }
    }

    /// The channel once one of the halves is done: nobody waits any more.
    pub open spec fn closed(self) -> Channel<T> {
        Channel { complete: true, rx_task: None, ..self }
    }

    /// The channel once `t` has been stored as its message.
    pub open spec fn filled(self, t: T) -> Channel<T> {
        Channel { data: Some(t), ..self }
    }

    /// The channel after `t` was offered as its message: it is stored unless one of
    /// the halves is done. The sender is not when it offers its message, so it is
    /// the receiver that is gone then.
    pub open spec fn offered(self, t: T) -> Channel<T> {
        if self.complete {
            self
        } else {
            self.filled(t)
        }
    }

    /// What becomes of `t` when it is offered as the message: it is handed back if
    /// one of the halves is done.
    pub open spec fn taken(self, t: T) -> Result<(), T> {
        if self.complete {
            Err(t)
        } else {
            Ok(())
        }
    }

    /// What a poll that nothing interrupts returns.
    pub open spec fn polled(self) -> Poll<Result<T, Canceled>> {
        if !self.complete {
            Poll::Pending
        } else {
            match self.data {
                Some(t) => Poll::Ready(Ok(t)),
                None => Poll::Ready(Err(Canceled)),
            }
        }
    }

    /// The channel after a poll by `task` that nothing interrupts.
    pub open spec fn after_poll(self, task: Waker) -> Channel<T> {
        if self.complete {
            Channel { data: None, ..self }
        } else {
            Channel { rx_task: Some(task), ..self }
        }
    }
}

/// Internal state of the sender and receiver pair.
pub struct Inner<T> {
    complete: bool,
    data: Option<T>,
    rx_task: Option<Waker>,
}

impl<T> View for Inner<T> {
    type V = Channel<T>;

    closed spec fn view(&self) -> Channel<T> {
        Channel { complete: self.complete, data: self.data, rx_task: self.rx_task }
    }
}

impl<T> Inner<T> {
    /// A channel that nobody has used.
    pub fn new() -> (inner: Self)
        ensures
            inner@ == Channel::<T>::fresh(),
    {
        Inner { complete: false, data: None, rx_task: None }
    }

    /// The sending half of this channel.
    pub fn sender(&mut self) -> (sender: Sender<'_, T>)
        ensures
            sender.inner@ == old(self)@,
            final(self)@ == final(sender.inner)@,
    {
        Sender { inner: self }
    }

    /// Stores the message, or hands it back if the channel is complete: the receiver
    /// is gone, or an earlier sender is.
    pub fn send(&mut self, t: T) -> (sent: Result<(), T>)
        ensures
            final(self)@ == old(self)@.offered(t),
            sent == old(self)@.taken(t),
            old(self)@.complete ==> sent == Err::<(), T>(t) && final(self)@ == old(self)@,
            !old(self)@.complete ==> sent is Ok && final(self)@.data == Some(t)
                && !final(self)@.complete && final(self)@.rx_task == old(self)@.rx_task,
    {
        if self.complete {
            Err(t)
        } else {
            self.data = Some(t);
            Ok(())
        }
    }

    /// Marks the channel as complete on behalf of the receiver: there is nobody
    /// left to wake, or to send to.
    pub fn drop_rx(&mut self)
        ensures
            final(self)@ == old(self)@.closed(),
            final(self)@.complete,
            final(self)@.data == old(self)@.data,
            final(self)@.rx_task is None,
    {
        self.complete = true;
        self.rx_task = None;
    }

    /// Marks the channel as complete on behalf of the sender: whether or not there is a message will
    /// get picked up and translated to either an item or a cancellation.
    /// Returns the task that waits for it and has to be woken.
    pub fn drop_tx(&mut self) -> (task: Option<Waker>)
        ensures
            final(self)@ == old(self)@.closed(),
            task == old(self)@.rx_task,
            final(self)@.complete,
            final(self)@.data == old(self)@.data,
            final(self)@.rx_task is None,
    {
        self.complete = true;
        self.rx_task.take()
    }

    /// Checks whether the message has arrived; if it has not, `task` is the one
    /// to wake when it does.
    pub fn poll_recv(&mut self, task: Waker) -> (polled: Poll<Result<T, Canceled>>)
        ensures
            polled == old(self)@.polled(),
            final(self)@ == old(self)@.after_poll(task),
            final(self)@.complete == old(self)@.complete,
            polled is Pending <==> !old(self)@.complete,
            polled is Pending ==> final(self)@.rx_task == Some(task) && final(self)@.data == old(
                self,
            )@.data,
            polled matches Poll::Ready(Ok(t)) ==> old(self)@.data == Some(t),
            polled == Poll::Ready(Err::<T, Canceled>(Canceled)) ==> old(self)@.data is None,
            polled is Ready ==> final(self)@.rx_task == old(self)@.rx_task
                && final(self)@.data is None,
    {
        if self.complete {
            match self.data.take() {
                Some(data) => Poll::Ready(Ok(data)),
                None => Poll::Ready(Err(Canceled)),
            }
        } else {
            self.rx_task = Some(task);
            Poll::Pending
        }
    }

    /// The receiving half of this channel: a future for the message.
    pub fn recv(&mut self) -> (receiver: Receiver<'_, T>)
        ensures
            receiver.inner@ == old(self)@,
            final(self)@ == final(receiver.inner)@,
    {
        Receiver { inner: self }
    }

    /// Whether polling this channel has nothing more to give than a
    /// cancellation.
    pub fn is_terminated(&self) -> (terminated: bool)
        ensures
            terminated == (self@.complete && self@.data is None),
            terminated <==> self@.polled() == Poll::<Result<T, Canceled>>::Ready(Err(Canceled)),
    {
        terminated(self.complete, Some(self.data.is_some()))
    }
}

/// A means of transmitting a single value to another task.
pub struct Sender<'a, T> {
    /// The channel that the value goes into.
    pub inner: &'a mut Inner<T>,
}

impl<'a, T> Sender<'a, T> {
    /// Completes this oneshot with a successful result. Consumes the sender and
    /// returns the task that waits for the message and has to be woken. If the
    /// channel is complete already, the message is handed back.
    pub fn send(self, t: T) -> (sent: (Result<(), T>, Option<Waker>))
        ensures
            final(self.inner)@ == old(self.inner)@.offered(t).closed(),
            sent.0 == old(self.inner)@.taken(t),
            sent.1 == old(self.inner)@.rx_task,
            sent.0 is Ok <==> !old(self.inner)@.complete,
            sent.0 matches Err(back) ==> back == t && final(self.inner)@.data == old(
                self.inner,
            )@.data,
            sent.0 is Ok ==> final(self.inner)@.data == Some(t),
            final(self.inner)@.complete,
            final(self.inner)@.rx_task is None,
    {
        let sent = self.inner.send(t);
        let task = self.inner.drop_tx();
        (sent, task)
    }

    /// Gives the sender up without a message. Returns the task that waits for
    /// one and has to be woken.
    pub fn cancel(self) -> (task: Option<Waker>)
        ensures
            final(self.inner)@ == old(self.inner)@.closed(),
            task == old(self.inner)@.rx_task,
            final(self.inner)@.complete,
            final(self.inner)@.data == old(self.inner)@.data,
    {
        self.inner.drop_tx()
    }
}

/// A future for a value that will be provided by another asynchronous task.
pub struct Receiver<'a, T> {
    /// The channel that the value comes out of.
    pub inner: &'a mut Inner<T>,
}

impl<'a, T> Receiver<'a, T> {
    /// Polls for the message on behalf of `task`.
    pub fn poll(&mut self, task: Waker) -> (polled: Poll<Result<T, Canceled>>)
        ensures
            polled == old(self).inner@.polled(),
            final(self).inner@ == old(self).inner@.after_poll(task),
            final(final(self).inner)@ == final(old(self).inner)@,
            polled is Pending <==> !old(self).inner@.complete,
            polled matches Poll::Ready(Ok(t)) ==> old(self).inner@.data == Some(t),
            polled == Poll::Ready(Err::<T, Canceled>(Canceled)) ==> old(self).inner@.data is None,
    {
        self.inner.poll_recv(task)
    }

    /// Gives the receiver up: a message that is sent from now on is handed back.
    pub fn close(self)
        ensures
            final(self.inner)@ == old(self.inner)@.closed(),
            final(self.inner)@.complete,
            final(self.inner)@.data == old(self.inner)@.data,
    {
        self.inner.drop_rx();
    }

    /// Whether polling has nothing more to give than a cancellation.
    pub fn is_terminated(&self) -> (terminated: bool)
        ensures
            terminated == (old(self.inner)@.complete && old(self.inner)@.data is None),
    {
        self.inner.is_terminated()
    }
}

/// Whether polling has nothing more to give than a cancellation, given whether the
/// channel is complete and whether it holds a message. Where that cannot be told,
/// the message is being taken.
pub fn terminated(complete: bool, holds_message: Option<bool>) -> (terminated: bool)
    ensures
        terminated == (complete && holds_message != Some(true)),
{
    complete && match holds_message {
        Some(holds_message) => !holds_message,
        None => true,
    }
}

/// How a sender goes on that the receiver may interrupt.
#[derive(PartialEq, Eq, Debug)]
pub enum SendStep<T> {
    /// By storing the message.
    Store(T),
    /// By handing the message back.
    Refuse(T),
}

impl<T> SendStep<T> {
    /// How the sender goes on, given whether the channel is complete.
    pub open spec fn checked(complete: bool, t: T) -> SendStep<T> {
        if complete {
            SendStep::Refuse(t)
        } else {
            SendStep::Store(t)
        }
    }

    /// Decides how the sender goes on, given whether the channel is complete.
    pub fn check(complete: bool, t: T) -> (step: SendStep<T>)
        ensures
            step == SendStep::checked(complete, t),
            complete ==> step == SendStep::Refuse(t),
            !complete ==> step == SendStep::Store(t),
    {
        if complete {
            SendStep::Refuse(t)
        } else {
            SendStep::Store(t)
        }
    }
}

/// How far a poll has come that the sender may interrupt between any two of its
/// steps.
#[derive(Clone, Copy, PartialEq, Eq, Structural, Debug)]
pub enum RecvStage {
    /// About to read whether the channel is complete.
    Load,
    /// It was not: about to store the task to wake.
    Store,
    /// About to read again whether the channel is complete, in case the sender
    /// came by before the task was stored.
    Reload,
    /// The channel is complete: about to take the message.
    Take,
}

/// What came of a stage of a poll.
pub enum RecvEvent<T> {
    /// Whether the channel was complete.
    Complete(bool),
    /// The task has been stored.
    Stored,
    /// What the channel held as its message.
    Taken(Option<T>),
}

/// How a poll goes on.
pub enum RecvStep<T> {
    /// With another stage.
    Go(RecvStage),
    /// By returning this.
    Return(Poll<Result<T, Canceled>>),
}

impl RecvStage {
    /// Whether `event` can come of this stage.
    pub open spec fn expects<T>(self, event: RecvEvent<T>) -> bool {
        match self {
            RecvStage::Load | RecvStage::Reload => event is Complete,
            RecvStage::Store => event is Stored,
            RecvStage::Take => event is Taken,
        }
    }

    /// How the poll goes on after `event`.
    pub open spec fn next<T>(self, event: RecvEvent<T>) -> RecvStep<T> {
        match (self, event) {
            (RecvStage::Load, RecvEvent::Complete(done)) => if done {
                RecvStep::Go(RecvStage::Take)
            } else {
                RecvStep::Go(RecvStage::Store)
            },
            (RecvStage::Store, _) => RecvStep::Go(RecvStage::Reload),
            (RecvStage::Reload, RecvEvent::Complete(done)) => if done {
                RecvStep::Go(RecvStage::Take)
            } else {
                RecvStep::Return(Poll::Pending)
            },
            (RecvStage::Take, RecvEvent::Taken(Some(data))) => RecvStep::Return(
                Poll::Ready(Ok(data)),
            ),
            (RecvStage::Take, RecvEvent::Taken(None)) => RecvStep::Return(
                Poll::Ready(Err(Canceled)),
            ),
            _ => RecvStep::Go(self),
        }
    }

    /// Decides how the poll goes on, given what came of this stage.
    pub fn advance<T>(self, event: RecvEvent<T>) -> (step: RecvStep<T>)
        requires
            self.expects(event),
        ensures
            step == self.next(event),
            event matches RecvEvent::Taken(Some(t)) ==> step == RecvStep::Return(
                Poll::Ready(Ok::<T, Canceled>(t)),
            ),
            event == RecvEvent::<T>::Complete(true) ==> step == RecvStep::<T>::Go(RecvStage::Take),
    {
        match (self, event) {
            (RecvStage::Load, RecvEvent::Complete(done)) => if done {
                RecvStep::Go(RecvStage::Take)
            } else {
                RecvStep::Go(RecvStage::Store)
            },
            (RecvStage::Store, _) => RecvStep::Go(RecvStage::Reload),
            (RecvStage::Reload, RecvEvent::Complete(done)) => if done {
                RecvStep::Go(RecvStage::Take)
            } else {
                RecvStep::Return(Poll::Pending)
            },
            (RecvStage::Take, RecvEvent::Taken(Some(data))) => RecvStep::Return(
                Poll::Ready(Ok(data)),
            ),
            (RecvStage::Take, RecvEvent::Taken(None)) => RecvStep::Return(
                Poll::Ready(Err(Canceled)),
            ),
            _ => RecvStep::Go(self),
        }
    }
}

/// A message goes in if and only if neither half is done, and otherwise the very
/// message comes back. Offering one changes nothing but what the channel holds.
pub proof fn law_message_goes_in_or_comes_back<T>(channel: Channel<T>, t: T)
    ensures
        !channel.complete ==> channel.taken(t) == Ok::<(), T>(()) && channel.offered(t).data
            == Some(t),
        channel.complete ==> channel.taken(t) == Err::<(), T>(t) && channel.offered(t).data
            == channel.data,
        channel.offered(t).complete == channel.complete,
        channel.offered(t).rx_task == channel.rx_task,
        !Channel::<T>::fresh().complete,
        Channel::<T>::fresh().data is None,
        Channel::<T>::fresh().rx_task is None,
{
}

/// Whichever half is done, the channel keeps its message, and nobody waits any more.
pub proof fn law_message_outlives_its_sender<T>(channel: Channel<T>)
    ensures
        channel.closed().complete,
        channel.closed().data == channel.data,
        channel.closed().rx_task is None,
{
}

/// A poll waits if and only if neither half is done. Otherwise it gives out the very
/// message that the channel holds, or tells of a cancellation if it holds none.
pub proof fn law_poll_gives_what_is_there<T>(channel: Channel<T>, t: T)
    ensures
        channel.polled() is Pending <==> !channel.complete,
        channel.polled() == Poll::Ready(Ok::<T, Canceled>(t)) <==> channel.complete && channel.data
            == Some(t),
        channel.polled() == Poll::Ready(Err::<T, Canceled>(Canceled)) <==> channel.complete
            && channel.data is None,
{
}

/// A poll that waits leaves the channel as it is but for the task to wake, which is
/// its own. One that does not wait leaves no message, and concerns nobody who waits.
/// No poll makes a half done.
pub proof fn law_poll_waits_or_takes<T>(channel: Channel<T>, task: Waker)
    ensures
        channel.after_poll(task).complete == channel.complete,
        channel.polled() is Pending ==> channel.after_poll(task).rx_task == Some(task),
        channel.polled() is Pending ==> channel.after_poll(task).data == channel.data,
        channel.polled() is Ready ==> channel.after_poll(task).data is None,
        channel.polled() is Ready ==> channel.after_poll(task).rx_task == channel.rx_task,
{
}

/// A sender stores the very message that it was given, or hands that one back, and
/// does the latter if and only if the channel is complete.
pub proof fn law_sender_keeps_its_message<T>(complete: bool, t: T)
    ensures
        complete <==> SendStep::checked(complete, t) == SendStep::Refuse(t),
        !complete <==> SendStep::checked(complete, t) == SendStep::Store(t),
{
}

/// A poll that can be interrupted returns the very message that it took, waits only
/// after it has seen, with its task stored, that the channel is not complete, and
/// takes the message if and only if it has seen that the channel is.
pub proof fn law_interrupted_poll_returns_what_it_took<T>(
    stage: RecvStage,
    event: RecvEvent<T>,
    t: T,
)
    requires
        stage.expects(event),
    ensures
        RecvStage::Take.next(RecvEvent::Taken(Some(t))) == RecvStep::Return(
            Poll::Ready(Ok::<T, Canceled>(t)),
        ),
        RecvStage::Take.next(RecvEvent::<T>::Taken(None)) == RecvStep::Return(
            Poll::Ready(Err::<T, Canceled>(Canceled)),
        ),
        stage.next(event) == RecvStep::<T>::Return(Poll::Pending) <==> stage is Reload && event
            == RecvEvent::<T>::Complete(false),
        stage.next(event) == RecvStep::<T>::Go(RecvStage::Take) <==> event == RecvEvent::<
            T,
        >::Complete(true),
        stage.next(event) == RecvStep::<T>::Go(RecvStage::Store) <==> stage is Load && event
            == RecvEvent::<T>::Complete(false),
        stage.next(event) == RecvStep::<T>::Go(RecvStage::Reload) <==> stage is Store,
        stage is Take ==> stage.next(event) is Return,
{
}

/// Whatever can come of a stage of a poll is accepted there, and nothing else is.
pub proof fn law_poll_accepts_every_outcome<T>(stage: RecvStage, done: bool, taken: Option<T>)
    ensures
        stage.expects(RecvEvent::<T>::Complete(done)) <==> stage is Load || stage is Reload,
        stage.expects(RecvEvent::<T>::Stored) <==> stage is Store,
        stage.expects(RecvEvent::Taken(taken)) <==> stage is Take,
{
}

} // verus!
