//! The way of a task's result to whoever spawned the task.
use crate::oneshot::{Canceled, Channel, Inner, Sender};
use crate::task::Poll;
use std::task::Waker;
use vstd::prelude::*;

verus! {

/// A future for the result of a task.
pub struct JoinHandle<R> {
    inner: Inner<R>,
}

impl<R> View for JoinHandle<R> {
    type V = Channel<R>;

    closed spec fn view(&self) -> Channel<R> {
        self.inner@
    }
}

impl<R> JoinHandle<R> {
    /// A handle to a task that has yet to run.
    #[must_use]
    pub fn new() -> (handle: JoinHandle<R>)
        ensures
            handle@ == Channel::<R>::fresh(),
    {
        JoinHandle { inner: Inner::new() }
    }

    /// The half that the task sends its result through.
    pub fn sender(&mut self) -> (sender: Sender<'_, R>)
        ensures
            sender.inner@ == old(self)@,
            final(self)@ == final(sender.inner)@,
    {
        self.inner.sender()
    }

    /// Polls for the result on behalf of `task`.
    pub fn poll(&mut self, task: Waker) -> (polled: Poll<Result<R, Canceled>>)
        ensures
            polled == old(self)@.polled(),
            final(self)@ == old(self)@.after_poll(task),
            polled is Pending <==> !old(self)@.complete,
            polled matches Poll::Ready(Ok(result)) ==> old(self)@.data == Some(result),
            polled == Poll::Ready(Err::<R, Canceled>(Canceled)) ==> old(self)@.data is None,
    {
        self.inner.recv().poll(task)
    }

    /// Gives the handle up: nobody will ask for the result.
    pub fn detach(&mut self)
        ensures
            final(self)@ == old(self)@.closed(),
            final(self)@.complete,
            final(self)@.data == old(self)@.data,
    {
        self.inner.recv().close();
    }
}

/// Whether a channel is in one of the states that it comes through while only
/// one half is at work at a time: there is a message only once one of the halves
/// is done, and then nobody waits.
pub open spec fn sound<R>(channel: Channel<R>) -> bool {
    &&& channel.data is Some ==> channel.complete
    &&& channel.complete ==> channel.rx_task is None
}

/// Whatever a task and whoever spawned it do, one after the other, the channel
/// between them stays in one of its states.
pub proof fn law_join_channel_stays_sound<R>(channel: Channel<R>, result: R, task: Waker)
    requires
        sound(channel),
    ensures
        sound(Channel::<R>::fresh()),
        sound(channel.offered(result).closed()),
        sound(channel.closed()),
        sound(channel.after_poll(task)),
{
}

/// A join waits exactly as long as the task has neither finished nor given up;
/// meanwhile the task that joins is the one to wake.
pub proof fn law_join_waits_for_the_task<R>(channel: Channel<R>, task: Waker)
    requires
        sound(channel),
    ensures
        channel.polled() is Pending <==> !channel.complete,
        channel.polled() is Pending ==> channel.after_poll(task).rx_task == Some(task),
{
}

/// The result of a task that has finished is what a join gets next, whether it
/// was waiting or not.
pub proof fn law_join_gets_the_result<R>(channel: Channel<R>, result: R, task: Waker)
    requires
        sound(channel),
        !channel.complete,
    ensures
        channel.offered(result).closed().polled() == Poll::Ready(Ok::<R, Canceled>(result)),
        channel.after_poll(task).offered(result).closed().polled() == Poll::Ready(
            Ok::<R, Canceled>(result),
        ),
{
}

/// The result of a task that nobody asks for is handed back to the task.
pub proof fn law_detached_task_keeps_its_result<R>(channel: Channel<R>, result: R)
    ensures
        channel.closed().taken(result) == Err::<(), R>(result),
{
}

} // verus!
