//! What parking and unparking promise when their steps interleave.
//!
//! One thread parks, any number of threads unpark it, and every step of
//! [`Parking`] and [`Unparking`] is a step of the [`System`] on its own.
use crate::executor::thread::{
    ParkEvent, ParkStage, Parking, UnparkStage, Unparking, EMPTY, NOTIFIED, PARKED,
};
use vstd::prelude::*;

verus! {

/// Where the parking thread stands with the condition variable.
pub ghost enum Rest {
    /// It is running.
    Awake,
    /// It waits, and no signal has reached it.
    Asleep,
    /// It has been woken and wants the mutex back.
    Woken,
}

/// The parking thread, the unparking threads, and what they share.
pub ghost struct System {
    /// The state word.
    pub word: usize,
    /// Whether the parking thread holds the mutex. An unparking thread holds
    /// it for no longer than a step.
    pub locked: bool,
    /// Where the parking thread stands with the condition variable.
    pub rest: Rest,
    /// The parking thread's latest call.
    pub parking: Parking,
    /// The calls of the unparking threads.
    pub unparking: Map<int, Unparking>,
}

/// One thing that can happen next.
pub ghost enum Step {
    /// The thread calls `park`, or `park_timeout` with a limit.
    Park(Option<u128>),
    /// The parking thread accesses the word.
    Access,
    /// The parking thread takes the mutex.
    Acquire,
    /// The parking thread starts to wait and gives the mutex up.
    Sleep,
    /// The wait ends by itself: spuriously, or because the time is up.
    Wake,
    /// The parking thread gets the mutex back after its wait.
    Reacquire,
    /// A thread calls `unpark`.
    Unpark(int),
    /// An unparking thread accesses the word.
    Notify(int),
    /// An unparking thread passes through the mutex.
    PassMutex(int),
    /// An unparking thread signals the condition variable.
    Signal(int),
}

impl System {
    /// Nobody parks, nobody unparks.
    pub open spec fn init(self) -> bool {
        &&& self.word == EMPTY
        &&& !self.locked
        &&& self.rest is Awake
        &&& self.parking.stage is Done
        &&& self.unparking == Map::<int, Unparking>::empty()
    }

    /// Whether `step` can happen.
    pub open spec fn enabled(self, step: Step) -> bool {
        match step {
            Step::Park(_) => self.parking.stage is Done,
            Step::Access => self.parking.spec_action() is Access,
            Step::Acquire => self.parking.spec_action() is Acquire && !self.locked,
            Step::Sleep => {
                &&& self.parking.spec_action() is Wait || self.parking.spec_action() is WaitTimeout
                &&& self.rest is Awake
            },
            Step::Wake => self.rest is Asleep,
            Step::Reacquire => self.rest is Woken && !self.locked,
            Step::Unpark(i) => !self.unparking.dom().contains(i) || self.unparking[i].stage is Done,
            Step::Notify(i) => {
                &&& self.unparking.dom().contains(i)
                &&& self.unparking[i].spec_action() is Access
            },
            Step::PassMutex(i) => {
                &&& self.unparking.dom().contains(i)
                &&& self.unparking[i].spec_action() is PassMutex
                &&& !self.locked
            },
            Step::Signal(i) => {
                &&& self.unparking.dom().contains(i)
                &&& self.unparking[i].spec_action() is NotifyOne
            },
        }
    }

    /// The parking thread's call moves on; returning releases the mutex.
    pub open spec fn park_moves(self, event: ParkEvent) -> System {
        let stage = self.parking.next_stage(event);
        System {
            parking: Parking { limit: self.parking.limit, stage },
            locked: self.locked && !(stage is Done),
            ..self
        }
    }

    /// The call of unparking thread `i` moves on, having seen `seen`.
    pub open spec fn unpark_moves(self, i: int, seen: usize) -> System {
        System {
            unparking: self.unparking.insert(
                i,
                Unparking { stage: self.unparking[i].next_stage(seen) },
            ),
            ..self
        }
    }

    /// The system after `step`.
    pub open spec fn after(self, step: Step) -> System {
        match step {
            Step::Park(limit) => System {
                parking: Parking { limit, stage: ParkStage::Consume },
                ..self
            },
            Step::Access => {
                let op = self.parking.spec_action()->Access_0;
                System {
                    word: op.leaves(self.word),
                    ..self.park_moves(ParkEvent::Accessed(op.reports(self.word)))
                }
            },
            Step::Acquire => System { locked: true, ..self.park_moves(ParkEvent::Acquired) },
            Step::Sleep => System { locked: false, rest: Rest::Asleep, ..self },
            Step::Wake => System { rest: Rest::Woken, ..self },
            Step::Reacquire => System {
                locked: true,
                rest: Rest::Awake,
                ..self.park_moves(ParkEvent::Woken)
            },
            Step::Unpark(i) => System {
                unparking: self.unparking.insert(i, Unparking { stage: UnparkStage::Notify }),
                ..self
            },
            Step::Notify(i) => {
                let op = self.unparking[i].spec_action()->Access_0;
                System { word: op.leaves(self.word), ..self.unpark_moves(i, self.word) }
            },
            Step::PassMutex(i) => self.unpark_moves(i, self.word),
            Step::Signal(i) => System {
                rest: if self.rest is Asleep {
                    Rest::Woken
                } else {
                    self.rest
                },
                ..self.unpark_moves(i, self.word)
            },
        }
    }

    /// Whether unparking thread `i` has seen the thread parked and has yet to
    /// pass through the mutex.
    pub open spec fn will_pass(self, i: int) -> bool {
        self.unparking.dom().contains(i) && self.unparking[i].stage is Relock
    }

    /// Whether unparking thread `i` has seen the thread parked and has yet to
    /// signal it.
    pub open spec fn will_signal(self, i: int) -> bool {
        &&& self.unparking.dom().contains(i)
        &&& self.unparking[i].stage is Relock || self.unparking[i].stage is Signal
    }

    /// What every reachable system satisfies.
    pub open spec fn inv(self) -> bool {
        &&& self.mutex_inv()
        &&& self.word_inv()
        &&& self.wakeup_inv()
    }

    /// The mutex is held from the moment it is taken until the thread sleeps
    /// or returns, and only a waiting thread is not awake.
    pub open spec fn mutex_inv(self) -> bool {
        &&& !(self.rest is Awake) ==> self.parking.stage is Wait
        &&& self.locked <==> match self.parking.stage {
            ParkStage::Announce
            | ParkStage::Drain
            | ParkStage::Recheck
            | ParkStage::Settle => true,
            ParkStage::Wait => self.rest is Awake,
            _ => false,
        }
    }

    /// The word fits the stage of the parking thread, and nobody has found it
    /// inconsistent.
    pub open spec fn word_inv(self) -> bool {
        &&& match self.parking.stage {
            ParkStage::Consume | ParkStage::Lock | ParkStage::Announce | ParkStage::Done => {
                self.word == EMPTY || self.word == NOTIFIED
            },
            ParkStage::Drain => self.word == NOTIFIED,
            ParkStage::Wait | ParkStage::Recheck | ParkStage::Settle => {
                self.word == PARKED || self.word == NOTIFIED
            },
            ParkStage::Inconsistent(_) => false,
        }
        &&& self.parking.stage is Recheck ==> self.parking.limit is None
        &&& self.parking.stage is Settle ==> self.parking.limit is Some
        &&& forall|i: int| #[trigger]
            self.unparking.dom().contains(i) ==> !(self.unparking[i].stage is Inconsistent)
    }

    /// A notification that the waiting thread has not seen has a thread on its
    /// way to signal it.
    pub open spec fn wakeup_inv(self) -> bool {
        &&& self.word == NOTIFIED && self.parking.stage is Wait && self.rest is Awake
            ==> exists|i: int| self.will_pass(i)
        &&& self.word == NOTIFIED && self.rest is Asleep ==> exists|i: int| self.will_signal(i)
    }
}

/// A system in which nobody has done anything is sound.
pub proof fn law_parking_starts_sound(s: System)
    requires
        s.init(),
    ensures
        s.inv(),
{
}

/// Whatever happens next, in whatever order, the system stays sound.
pub proof fn law_parking_stays_sound(s: System, step: Step)
    requires
        s.inv(),
        s.enabled(step),
    ensures
        s.after(step).inv(),
{
    let t = s.after(step);
    assert(t.word_inv());
    assert(t.mutex_inv());
    match step {
        Step::Sleep => {
            if t.word == NOTIFIED {
                let i = choose|i: int| s.will_pass(i);
                assert(t.will_signal(i));
            }
        },
        Step::Unpark(j) => {
            if s.word == NOTIFIED && s.parking.stage is Wait && s.rest is Awake {
                let i = choose|i: int| s.will_pass(i);
                assert(t.will_pass(i));
            }
            if s.word == NOTIFIED && s.rest is Asleep {
                let i = choose|i: int| s.will_signal(i);
                assert(t.will_signal(i));
            }
        },
        Step::Notify(j) => {
            if s.word == PARKED {
                assert(t.will_pass(j));
                assert(t.will_signal(j));
            } else {
                if s.parking.stage is Wait && s.rest is Awake {
                    let i = choose|i: int| s.will_pass(i);
                    assert(t.will_pass(i));
                }
                if s.rest is Asleep {
                    let i = choose|i: int| s.will_signal(i);
                    assert(t.will_signal(i));
                }
            }
        },
        Step::PassMutex(j) => {
            if s.word == NOTIFIED && s.rest is Asleep {
                assert(t.will_signal(j));
            }
        },
        Step::Signal(j) => {
            if s.word == NOTIFIED && s.parking.stage is Wait && s.rest is Awake {
                let i = choose|i: int| s.will_pass(i);
                assert(t.will_pass(i));
            }
        },
        _ => {},
    }
    assert(t.wakeup_inv());
}

impl System {
    /// Whether the steps can happen one after the other, the first one first.
    pub open spec fn possible(self, steps: Seq<Step>) -> bool
        decreases steps.len(),
    {
        steps.len() > 0 ==> {
            &&& self.possible(steps.drop_last())
            &&& self.run(steps.drop_last()).enabled(steps.last())
        }
    }

    /// The system after all of the steps.
    pub open spec fn run(self, steps: Seq<Step>) -> System
        decreases steps.len(),
    {
        if steps.len() == 0 {
            self
        } else {
            self.run(steps.drop_last()).after(steps.last())
        }
    }
}

/// Every system that can come about is sound.
pub proof fn law_parking_always_sound(s: System, steps: Seq<Step>)
    requires
        s.init(),
        s.possible(steps),
    ensures
        s.run(steps).inv(),
    decreases steps.len(),
{
    if steps.len() == 0 {
        law_parking_starts_sound(s);
    } else {
        law_parking_always_sound(s, steps.drop_last());
        law_parking_stays_sound(s.run(steps.drop_last()), steps.last());
    }
}

/// No call of `park`, `park_timeout` or `unpark` ever finds the word in a state
/// that it would have to panic about.
pub proof fn law_state_never_inconsistent(s: System, steps: Seq<Step>, i: int)
    requires
        s.init(),
        s.possible(steps),
    ensures
        !(s.run(steps).parking.spec_action() is Fail),
        s.run(steps).unparking.dom().contains(i) ==> !(s.run(
            steps,
        ).unparking[i].spec_action() is Fail),
        s.run(steps).word == EMPTY || s.run(steps).word == PARKED || s.run(steps).word == NOTIFIED,
{
    law_parking_always_sound(s, steps);
}

/// No wakeup is lost: a thread that sleeps although it was notified is about to
/// be signalled, so once every `unpark` has returned it sleeps no more.
pub proof fn law_no_lost_wakeup(s: System, steps: Seq<Step>)
    requires
        s.init(),
        s.possible(steps),
        s.run(steps).word == NOTIFIED,
        s.run(steps).rest is Asleep,
    ensures
        exists|i: int| #[trigger] s.run(steps).will_signal(i),
        !(forall|i: int| #[trigger]
            s.run(steps).unparking.dom().contains(i) ==> s.run(steps).unparking[i].stage is Done),
{
    law_parking_always_sound(s, steps);
    let i = choose|i: int| s.run(steps).will_signal(i);
    assert(s.run(steps).unparking.dom().contains(i));
}

/// A notification stays in the word until the parking thread accesses it, and
/// whichever access that is, the call then returns or reads it once more and
/// returns; the notification is used up by it.
pub proof fn law_notification_is_kept(s: System, step: Step)
    requires
        s.inv(),
        s.enabled(step),
        s.word == NOTIFIED,
    ensures
        !(step is Access) ==> s.after(step).word == NOTIFIED,
        step is Access ==> {
            let t = s.after(step);
            ||| t.parking.stage is Done && t.word == EMPTY
            ||| {
                &&& t.parking.stage is Drain
                &&& t.word == NOTIFIED
                &&& t.after(Step::Access).parking.stage is Done
                &&& t.after(Step::Access).word == EMPTY
            }
        },
{
}

/// A thread that was notified before it parks returns at its first step and
/// uses the notification up.
pub proof fn law_park_after_unpark_returns(s: System, limit: Option<u128>)
    requires
        s.inv(),
        s.enabled(Step::Park(limit)),
        s.word == NOTIFIED,
    ensures
        s.after(Step::Park(limit)).enabled(Step::Access),
        s.after(Step::Park(limit)).after(Step::Access).parking.stage is Done,
        s.after(Step::Park(limit)).after(Step::Access).word == EMPTY,
{
}

/// Two notifications count as one: the second `unpark` changes nothing and
/// returns at once.
pub proof fn law_notifications_coalesce(s: System, i: int)
    requires
        s.enabled(Step::Notify(i)),
        s.word == NOTIFIED,
    ensures
        s.after(Step::Notify(i)).word == NOTIFIED,
        s.after(Step::Notify(i)).unparking[i].stage is Done,
{
}

/// Without a time limit, `park` returns only by using up a notification.
pub proof fn law_park_waits_for_notification(s: System, step: Step)
    requires
        s.inv(),
        s.enabled(step),
        s.parking.limit is None,
        !(s.parking.stage is Done),
        s.after(step).parking.stage is Done,
    ensures
        s.word == NOTIFIED,
        s.after(step).word == EMPTY,
{
}

/// A time limit of nothing never blocks: the call returns at its first step,
/// without the mutex, and at most uses a notification up.
pub proof fn law_zero_timeout_never_blocks(s: System)
    requires
        s.inv(),
        s.enabled(Step::Park(Some(0u128))),
    ensures
        s.after(Step::Park(Some(0u128))).after(Step::Access).parking.stage is Done,
        s.after(Step::Park(Some(0u128))).after(Step::Access).word == EMPTY,
        !s.after(Step::Park(Some(0u128))).after(Step::Access).locked,
{
}

/// A call has the limit that it was given until it is over, and only another call
/// has another one.
pub proof fn law_limit_is_kept(s: System, step: Step)
    requires
        s.enabled(step),
    ensures
        step matches Step::Park(limit) ==> s.after(step).parking.limit == limit,
        !(step is Park) ==> s.after(step).parking.limit == s.parking.limit,
{
}

/// A thread that parks with a limit never sleeps without one, nor with another.
pub proof fn law_timed_park_never_waits_longer(s: System, steps: Seq<Step>, nanos: u128)
    requires
        s.init(),
        s.possible(steps),
        s.run(steps).enabled(Step::Sleep),
        s.run(steps).parking.limit == Some(nanos),
    ensures
        s.run(steps).parking.spec_action() == crate::executor::thread::ParkAction::WaitTimeout(
            nanos,
        ),
{
}

/// A thread that is not notified does park, for its limit if that is more than
/// nothing, and with the word set so that whoever unparks it knows.
pub proof fn law_unnotified_thread_parks(s: System, limit: Option<u128>)
    requires
        s.inv(),
        s.enabled(Step::Park(limit)),
        s.word == EMPTY,
        limit != Some(0u128),
    ensures
        ({
            let called = s.after(Step::Park(limit));
            let unnotified = called.after(Step::Access);
            let locked = unnotified.after(Step::Acquire);
            let announced = locked.after(Step::Access);
            &&& called.enabled(Step::Access)
            &&& unnotified.enabled(Step::Acquire)
            &&& locked.enabled(Step::Access)
            &&& announced.enabled(Step::Sleep)
            &&& announced.word == PARKED
            &&& announced.parking.limit == limit
            &&& announced.after(Step::Sleep).rest is Asleep
            &&& !announced.after(Step::Sleep).locked
        }),
{
}

/// A timed park returns once its wait is over, notified or not, whatever its limit,
/// and leaves nothing behind.
pub proof fn law_timed_park_returns(s: System)
    requires
        s.inv(),
        s.parking.limit is Some,
        s.enabled(Step::Reacquire),
    ensures
        s.after(Step::Reacquire).enabled(Step::Access),
        s.after(Step::Reacquire).after(Step::Access).parking.stage is Done,
        s.after(Step::Reacquire).after(Step::Access).word == EMPTY,
        !s.after(Step::Reacquire).after(Step::Access).locked,
{
}

/// A park without a limit returns once its wait is over if and only if the thread
/// was notified, and otherwise goes back to sleep.
pub proof fn law_untimed_park_returns_when_notified(s: System)
    requires
        s.inv(),
        s.parking.limit is None,
        s.enabled(Step::Reacquire),
    ensures
        ({
            let seen = s.after(Step::Reacquire).after(Step::Access);
            &&& s.after(Step::Reacquire).enabled(Step::Access)
            &&& s.word == NOTIFIED ==> seen.parking.stage is Done && seen.word == EMPTY
                && !seen.locked
            &&& s.word != NOTIFIED ==> seen.enabled(Step::Sleep) && seen.word == s.word
        }),
{
}

/// An unpark leaves a notification, and by the time that it returns the thread is
/// awake, or will not sleep before it has seen the notification.
pub proof fn law_unpark_wakes(s: System, i: int)
    requires
        s.inv(),
        s.enabled(Step::Notify(i)),
    ensures
        ({
            let notified = s.after(Step::Notify(i));
            let passed = notified.after(Step::PassMutex(i));
            let signalled = passed.after(Step::Signal(i));
            &&& notified.word == NOTIFIED
            &&& s.word != PARKED ==> notified.unparking[i].stage is Done
            &&& s.word == PARKED && !s.locked ==> {
                &&& notified.enabled(Step::PassMutex(i))
                &&& passed.enabled(Step::Signal(i))
                &&& signalled.unparking[i].stage is Done
                &&& !(signalled.rest is Asleep)
                &&& signalled.word == NOTIFIED
            }
        }),
{
}

} // verus!
