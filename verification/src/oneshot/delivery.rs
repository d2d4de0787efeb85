//! What the channel promises when its two halves run at the same time.
use crate::oneshot::{Canceled, Channel, RecvEvent, RecvStage, RecvStep, SendStep};
use crate::task::Poll;
use std::task::Waker;
use vstd::prelude::*;

verus! {

/// Where the receiver stands.
pub ghost enum Receiving<T> {
    /// It has not been polled.
    Fresh,
    /// A poll by a task is at some stage.
    Polling(Waker, RecvStage),
    /// The latest poll, by a task, returned that the message is pending.
    Waiting(Waker),
    /// The latest poll returned this.
    Finished(Result<T, Canceled>),
    /// It is gone.
    Closed,
}

/// Where the sender stands.
pub ghost enum Sending<T> {
    /// It can still send.
    Open,
    /// It is about to store this message, as the channel was not complete.
    Checked(T),
    /// Its message was handed back.
    Refused(T),
    /// The message is stored.
    Filled,
    /// The channel is marked as complete.
    Completed,
    /// The waiting task has been taken to be woken. The sender is gone.
    Gone,
}

/// Both halves of a channel and what they share.
pub ghost struct Race<T> {
    /// What the channel holds.
    pub channel: Channel<T>,
    /// The receiver.
    pub receiving: Receiving<T>,
    /// The sender.
    pub sending: Sending<T>,
    /// The message that was sent.
    pub sent: Option<T>,
    /// The task that the sender has woken.
    pub woken: Option<Waker>,
    /// Whether the message has been received.
    pub received: bool,
}

/// One thing that can happen next.
pub ghost enum Turn<T> {
    /// A task polls the receiver.
    Poll(Waker),
    /// The poll under way takes one step.
    Advance,
    /// The receiver is given up.
    Close,
    /// The sender reads whether the channel is complete, to send this message.
    Check(T),
    /// The sender stores its message.
    Send,
    /// The sender marks the channel as complete.
    Complete,
    /// The sender takes the waiting task and wakes it.
    Wake,
}

impl<T> Race<T> {
    /// Neither half has done anything.
    pub open spec fn init(self) -> bool {
        &&& self.channel == Channel::<T>::fresh()
        &&& self.receiving is Fresh
        &&& self.sending is Open
        &&& self.sent is None
        &&& self.woken is None
        &&& !self.received
    }

    /// Whether `turn` can happen.
    pub open spec fn enabled(self, turn: Turn<T>) -> bool {
        match turn {
            Turn::Poll(_) => !(self.receiving is Polling) && !(self.receiving is Closed),
            Turn::Advance => self.receiving is Polling,
            Turn::Close => !(self.receiving is Polling) && !(self.receiving is Closed),
            Turn::Check(_) => self.sending is Open,
            Turn::Send => self.sending is Checked,
            Turn::Complete => {
                ||| self.sending is Open
                ||| self.sending is Refused
                ||| self.sending is Filled
            },
            Turn::Wake => self.sending is Completed,
        }
    }

    /// What the stage of a poll observes of the channel.
    pub open spec fn observed(self, stage: RecvStage) -> RecvEvent<T> {
        match stage {
            RecvStage::Load | RecvStage::Reload => RecvEvent::Complete(self.channel.complete),
            RecvStage::Store => RecvEvent::Stored,
            RecvStage::Take => RecvEvent::Taken(self.channel.data),
        }
    }

    /// The race after `turn`.
    pub open spec fn after(self, turn: Turn<T>) -> Race<T> {
        match turn {
            Turn::Poll(task) => Race {
                receiving: Receiving::Polling(task, RecvStage::Load),
                ..self
            },
            Turn::Advance => {
                let task = self.receiving->Polling_0;
                let stage = self.receiving->Polling_1;
                Race {
                    channel: match stage {
                        RecvStage::Store => Channel { rx_task: Some(task), ..self.channel },
                        RecvStage::Take => Channel { data: None, ..self.channel },
                        _ => self.channel,
                    },
                    receiving: match stage.next(self.observed(stage)) {
                        RecvStep::Go(stage) => Receiving::Polling(task, stage),
                        RecvStep::Return(Poll::Pending) => Receiving::Waiting(task),
                        RecvStep::Return(Poll::Ready(result)) => Receiving::Finished(result),
                    },
                    received: self.received || (stage is Take && self.channel.data is Some),
                    ..self
                }
            },
            Turn::Close => Race {
                channel: self.channel.closed(),
                receiving: Receiving::Closed,
                ..self
            },
            Turn::Check(t) => Race {
                sending: match SendStep::checked(self.channel.complete, t) {
                    SendStep::Store(t) => Sending::Checked(t),
                    SendStep::Refuse(t) => Sending::Refused(t),
                },
                ..self
            },
            Turn::Send => {
                let t = self.sending->Checked_0;
                Race {
                    channel: self.channel.filled(t),
                    sending: Sending::Filled,
                    sent: Some(t),
                    ..self
                }
            },
            Turn::Complete => Race {
                channel: Channel { complete: true, ..self.channel },
                sending: Sending::Completed,
                ..self
            },
            Turn::Wake => Race {
                channel: Channel { rx_task: None, ..self.channel },
                sending: Sending::Gone,
                woken: if self.channel.rx_task is Some {
                    self.channel.rx_task
                } else {
                    self.woken
                },
                ..self
            },
        }
    }

    /// What every race satisfies that can come about.
    pub open spec fn inv(self) -> bool {
        &&& self.channel.complete <==> {
            ||| self.sending is Completed
            ||| self.sending is Gone
            ||| self.receiving is Closed
        }
        &&& self.sending is Open || self.sending is Checked || self.sending is Refused
            ==> self.sent is None
        &&& self.sending is Refused ==> self.receiving is Closed
        &&& self.woken is Some ==> self.sending is Gone
        &&& self.channel.data == if self.received {
            None
        } else {
            self.sent
        }
        &&& self.received ==> self.sent is Some && self.channel.complete
        &&& match self.receiving {
            Receiving::Fresh | Receiving::Closed => true,
            Receiving::Polling(task, stage) => {
                &&& stage is Reload ==> self.channel.complete || self.channel.rx_task == Some(task)
                &&& stage is Take ==> self.channel.complete
            },
            // The task is there to be woken, or has been.
            Receiving::Waiting(task) => {
                ||| self.channel.rx_task == Some(task) && !(self.sending is Gone)
                ||| self.woken == Some(task)
            },
            Receiving::Finished(result) => {
                &&& self.channel.complete
                &&& result matches Ok(t) ==> self.sent == Some(t)
                &&& result is Err ==> self.sent is None || self.received
            },
        }
    }

    /// Whether the turns can happen one after the other, the first one first.
    pub open spec fn possible(self, turns: Seq<Turn<T>>) -> bool
        decreases turns.len(),
    {
        turns.len() > 0 ==> {
            &&& self.possible(turns.drop_last())
            &&& self.run(turns.drop_last()).enabled(turns.last())
        }
    }

    /// The race after all of the turns.
    pub open spec fn run(self, turns: Seq<Turn<T>>) -> Race<T>
        decreases turns.len(),
    {
        if turns.len() == 0 {
            self
        } else {
            self.run(turns.drop_last()).after(turns.last())
        }
    }
}

/// Whichever half moves next, the race stays sound.
pub proof fn law_delivery_stays_sound<T>(race: Race<T>, turn: Turn<T>)
    requires
        race.inv(),
        race.enabled(turn),
    ensures
        race.after(turn).inv(),
{
}

/// Every race that can come about is sound.
pub proof fn law_delivery_always_sound<T>(race: Race<T>, turns: Seq<Turn<T>>)
    requires
        race.init(),
        race.possible(turns),
    ensures
        race.run(turns).inv(),
    decreases turns.len(),
{
    if turns.len() > 0 {
        law_delivery_always_sound(race, turns.drop_last());
        law_delivery_stays_sound(race.run(turns.drop_last()), turns.last());
    }
}

/// No wakeup is lost: once the sender is gone, a task that was told that the
/// message is pending has been woken.
pub proof fn law_waiting_receiver_is_woken<T>(race: Race<T>, turns: Seq<Turn<T>>, task: Waker)
    requires
        race.init(),
        race.possible(turns),
        race.run(turns).sending is Gone,
        race.run(turns).receiving == Receiving::<T>::Waiting(task),
    ensures
        race.run(turns).woken == Some(task),
{
    law_delivery_always_sound(race, turns);
}

/// What is received is what was sent, and a receiver is told of a cancellation
/// only if nothing was sent or the message was received before.
pub proof fn law_received_is_what_was_sent<T>(
    race: Race<T>,
    turns: Seq<Turn<T>>,
    result: Result<T, Canceled>,
)
    requires
        race.init(),
        race.possible(turns),
        race.run(turns).receiving == Receiving::Finished(result),
    ensures
        result matches Ok(t) ==> race.run(turns).sent == Some(t),
        result is Err ==> race.run(turns).sent is None || race.run(turns).received,
{
    law_delivery_always_sound(race, turns);
}

/// A message is handed back only if the receiver is gone, and always if it was
/// gone before the message was sent.
pub proof fn law_refused_exactly_if_receiver_is_gone<T>(
    race: Race<T>,
    turns: Seq<Turn<T>>,
    t: T,
)
    requires
        race.init(),
        race.possible(turns),
    ensures
        race.run(turns).sending is Refused ==> race.run(turns).receiving is Closed,
        race.run(turns).enabled(Turn::Check(t)) ==> (race.run(turns).after(
            Turn::Check(t),
        ).sending == Sending::Refused(t) <==> race.run(turns).receiving is Closed),
{
    law_delivery_always_sound(race, turns);
}

/// A sender that the receiver does not interrupt does in its steps what
/// [`crate::oneshot::Sender::send`] does in one.
pub proof fn law_uninterrupted_send_is_send<T>(race: Race<T>, t: T)
    requires
        race.inv(),
        race.sending is Open,
    ensures
        ({
            let checked = race.after(Turn::Check(t));
            let stored = if checked.sending is Checked {
                checked.after(Turn::Send)
            } else {
                checked
            };
            let end = stored.after(Turn::Complete).after(Turn::Wake);
            &&& end.channel == race.channel.offered(t).closed()
            &&& race.channel.taken(t) is Err <==> checked.sending == Sending::Refused(t)
            &&& end.woken == race.channel.rx_task
            &&& end.sending is Gone
        }),
{
}

/// A sender that is given up without a message, and that the receiver does not
/// interrupt, does in its two steps what [`crate::oneshot::Inner::drop_tx`] does in
/// one.
pub proof fn law_uninterrupted_drop_is_drop_tx<T>(race: Race<T>)
    requires
        race.inv(),
        race.enabled(Turn::Complete),
    ensures
        race.after(Turn::Complete).after(Turn::Wake).channel == race.channel.closed(),
        race.after(Turn::Complete).after(Turn::Wake).woken == race.channel.rx_task,
{
}

impl<T> Race<T> {
    /// The race after `n` steps of the poll under way, with the sender at rest.
    pub open spec fn advanced(self, n: nat) -> Race<T>
        decreases n,
    {
        if n == 0 {
            self
        } else {
            self.advanced((n - 1) as nat).after(Turn::Advance)
        }
    }

    /// How the poll that has just ended came out.
    pub open spec fn outcome(self) -> Option<Poll<Result<T, Canceled>>> {
        match self.receiving {
            Receiving::Waiting(_) => Some(Poll::Pending),
            Receiving::Finished(result) => Some(Poll::Ready(result)),
            _ => None,
        }
    }
}

/// A poll that the sender does not interrupt does in its two or three steps what
/// [`crate::oneshot::Inner::poll_recv`] does in one.
pub proof fn law_uninterrupted_poll_is_poll_recv<T>(race: Race<T>, task: Waker)
    requires
        race.enabled(Turn::Poll(task)),
    ensures
        ({
            let n = if race.channel.complete {
                2nat
            } else {
                3nat
            };
            let end = race.after(Turn::Poll(task)).advanced(n);
            &&& end.outcome() == Some(race.channel.polled())
            &&& end.channel == race.channel.after_poll(task)
        }),
{
    reveal_with_fuel(Race::advanced, 4);
}

/// A message that was sent is what the next poll receives.
pub proof fn law_sent_message_is_read_back<T>(channel: Channel<T>, t: T)
    requires
        channel.taken(t) is Ok,
    ensures
        channel.offered(t).closed().polled() == Poll::Ready(Ok::<T, Canceled>(t)),
{
}

/// Once a half is gone, a message is handed back, and nothing changes.
pub proof fn law_closed_channel_refuses<T>(channel: Channel<T>, t: T)
    ensures
        channel.closed().taken(t) == Err::<(), T>(t),
        channel.closed().offered(t) == channel.closed(),
        channel.closed().closed() == channel.closed(),
{
}

/// A channel whose sender is gone without a message is canceled.
pub proof fn law_dropped_sender_cancels<T>(channel: Channel<T>)
    requires
        channel.data is None,
    ensures
        channel.closed().polled() == Poll::Ready(Err::<T, Canceled>(Canceled)),
{
}

/// The message is received once: whoever polls a complete channel again is told
/// of a cancellation.
pub proof fn law_message_is_received_once<T>(channel: Channel<T>, first: Waker)
    requires
        channel.complete,
    ensures
        channel.after_poll(first).polled() == Poll::Ready(Err::<T, Canceled>(Canceled)),
{
}

/// The task of the latest poll is the one that the sender wakes, and polling
/// keeps the message.
pub proof fn law_latest_poller_is_woken<T>(channel: Channel<T>, first: Waker, second: Waker)
    requires
        !channel.complete,
    ensures
        channel.after_poll(first).after_poll(second).rx_task == Some(second),
        channel.after_poll(first).data == channel.data,
        channel.after_poll(first).polled() is Pending,
{
}

} // verus!
