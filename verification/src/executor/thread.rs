//! Blocking a thread until another one asks it to go on.
//!
//! A parked thread and the threads that unpark it share one state word, a
//! mutex and a condition variable. The word is read and written without the
//! mutex, so each side proceeds in small steps that may interleave with the
//! other side's. [`Parking`] and [`Unparking`] decide every one of those steps;
//! whoever owns the word, the mutex and the condition variable carries it out
//! and reports what came of it.
use vstd::prelude::*;

verus! {

/// Nobody waits and nothing was notified.
pub const EMPTY: usize = 0;

/// A thread waits, or is about to wait, on the condition variable.
pub const PARKED: usize = 1;

/// A notification has been left for the thread.
pub const NOTIFIED: usize = 2;

/// One atomic access to the state word.
#[derive(Clone, Copy, PartialEq, Eq, Structural, Debug)]
pub enum WordOp {
    /// Write `new` if the word holds `current`.
    CompareExchange { current: usize, new: usize },
    /// Write `new` whatever the word holds.
    Swap { new: usize },
}

impl WordOp {
    /// What the word holds after the access.
    pub open spec fn leaves(self, word: usize) -> usize {
        match self {
            WordOp::CompareExchange { current, new } => if word == current {
                new
            } else {
                word
            },
            WordOp::Swap { new } => new,
        }
    }

    /// What the access reports: the word before it, as an error where nothing
    /// was written.
    pub open spec fn reports(self, word: usize) -> Result<usize, usize> {
        match self {
            WordOp::CompareExchange { current, new } => if word == current {
                Ok(word)
            } else {
                Err(word)
            },
            WordOp::Swap { new } => Ok(word),
        }
    }
}

/// How far a call of `park` or `park_timeout` has come.
#[derive(Clone, Copy, PartialEq, Eq, Structural, Debug)]
pub enum ParkStage {
    /// About to use up a notification that is already there.
    Consume,
    /// About to take the mutex.
    Lock,
    /// About to mark the word as parked, under the mutex.
    Announce,
    /// About to read the notification that came in between.
    Drain,
    /// About to wait on the condition variable.
    Wait,
    /// Awake again without a time limit: about to look for a notification.
    Recheck,
    /// Awake again after a timed wait: about to reset the word.
    Settle,
    /// The call returns.
    Done,
    /// The word held what it never should.
    Inconsistent(usize),
}

/// What the parking thread does next.
#[derive(Clone, Copy, PartialEq, Eq, Structural, Debug)]
pub enum ParkAction {
    /// Access the state word, and report what the access reported.
    Access(WordOp),
    /// Take the mutex.
    Acquire,
    /// Wait on the condition variable, giving the mutex up meanwhile.
    Wait,
    /// Wait for at most that many nanoseconds.
    WaitTimeout(u128),
    /// Release what is held and return.
    Return,
    /// Panic: the word held this value.
    Fail(usize),
}

/// What became of an action of the parking thread.
#[derive(Clone, Copy, PartialEq, Eq, Debug)]
pub enum ParkEvent {
    /// The access reported this.
    Accessed(Result<usize, usize>),
    /// The mutex is held.
    Acquired,
    /// The wait is over, for whatever reason, and the mutex is held again.
    Woken,
}

/// One call of `park` or `park_timeout` under way.
#[derive(Clone, Copy, PartialEq, Eq, Structural, Debug)]
pub struct Parking {
    /// The time limit in nanoseconds, if there is one.
    pub limit: Option<u128>,
    /// How far the call has come.
    pub stage: ParkStage,
}

impl Parking {
    /// The action that belongs to a stage.
    pub open spec fn spec_action(self) -> ParkAction {
        match self.stage {
            ParkStage::Consume | ParkStage::Recheck => ParkAction::Access(
                WordOp::CompareExchange { current: NOTIFIED, new: EMPTY },
            ),
            ParkStage::Lock => ParkAction::Acquire,
            ParkStage::Announce => ParkAction::Access(
                WordOp::CompareExchange { current: EMPTY, new: PARKED },
            ),
            ParkStage::Drain | ParkStage::Settle => ParkAction::Access(
                WordOp::Swap { new: EMPTY },
            ),
            ParkStage::Wait => match self.limit {
                Some(nanos) => ParkAction::WaitTimeout(nanos),
                None => ParkAction::Wait,
            },
            ParkStage::Done => ParkAction::Return,
            ParkStage::Inconsistent(word) => ParkAction::Fail(word),
        }
    }

    /// Whether `event` can come of this stage's action.
    pub open spec fn expects(self, event: ParkEvent) -> bool {
        match self.spec_action() {
            ParkAction::Access(op) => event is Accessed,
            ParkAction::Acquire => event is Acquired,
            ParkAction::Wait | ParkAction::WaitTimeout(_) => event is Woken,
            ParkAction::Return | ParkAction::Fail(_) => false,
        }
    }

    /// The stage that follows once `event` came of this stage's action.
    pub open spec fn next_stage(self, event: ParkEvent) -> ParkStage {
        match (self.stage, event) {
            // A notification was there: use it up and return.
            (ParkStage::Consume, ParkEvent::Accessed(Ok(_))) => ParkStage::Done,
            // Nothing to wait for when there is no time to wait.
            (ParkStage::Consume, ParkEvent::Accessed(Err(_))) => if self.limit == Some(0u128) {
                ParkStage::Done
            } else {
                ParkStage::Lock
            },
            (ParkStage::Lock, ParkEvent::Acquired) => ParkStage::Announce,
            (ParkStage::Announce, ParkEvent::Accessed(Ok(_))) => ParkStage::Wait,
            (ParkStage::Announce, ParkEvent::Accessed(Err(word))) => if word == NOTIFIED {
                ParkStage::Drain
            } else {
                ParkStage::Inconsistent(word)
            },
            (ParkStage::Drain, ParkEvent::Accessed(Ok(word))) => if word == NOTIFIED {
                ParkStage::Done
            } else {
                ParkStage::Inconsistent(word)
            },
            (ParkStage::Wait, ParkEvent::Woken) => if self.limit is Some {
                ParkStage::Settle
            } else {
                ParkStage::Recheck
            },
            (ParkStage::Recheck, ParkEvent::Accessed(Ok(_))) => ParkStage::Done,
            // A spurious wakeup: go back to sleep.
            (ParkStage::Recheck, ParkEvent::Accessed(Err(_))) => ParkStage::Wait,
            // Notified or not, the timed wait is over.
            (ParkStage::Settle, ParkEvent::Accessed(Ok(word))) => if word == NOTIFIED || word
                == PARKED {
                ParkStage::Done
            } else {
                ParkStage::Inconsistent(word)
            },
            _ => self.stage,
        }
    }

    /// A call that returns only once the thread is notified.
    pub fn park() -> (call: Parking)
        ensures
            call == (Parking { limit: None, stage: ParkStage::Consume }),
    {
        Parking { limit: None, stage: ParkStage::Consume }
    }

    /// A call that waits for at most `nanos` nanoseconds.
    pub fn park_timeout(nanos: u128) -> (call: Parking)
        ensures
            call == (Parking { limit: Some(nanos), stage: ParkStage::Consume }),
    {
        Parking { limit: Some(nanos), stage: ParkStage::Consume }
    }

    /// What the thread does next.
    pub fn action(&self) -> (action: ParkAction)
        ensures
            action == self.spec_action(),
            self.stage is Wait ==> action == (match self.limit {
                Some(nanos) => ParkAction::WaitTimeout(nanos),
                None => ParkAction::Wait,
            }),
    {
        match self.stage {
            ParkStage::Consume | ParkStage::Recheck => ParkAction::Access(
                WordOp::CompareExchange { current: NOTIFIED, new: EMPTY },
            ),
            ParkStage::Lock => ParkAction::Acquire,
            ParkStage::Announce => ParkAction::Access(
                WordOp::CompareExchange { current: EMPTY, new: PARKED },
            ),
            ParkStage::Drain | ParkStage::Settle => ParkAction::Access(
                WordOp::Swap { new: EMPTY },
            ),
            ParkStage::Wait => match self.limit {
                Some(nanos) => ParkAction::WaitTimeout(nanos),
                None => ParkAction::Wait,
            },
            ParkStage::Done => ParkAction::Return,
            ParkStage::Inconsistent(word) => ParkAction::Fail(word),
        }
    }

    /// Goes on to the next stage, given what came of the last action.
    pub fn advance(&mut self, event: ParkEvent)
        requires
            old(self).expects(event),
        ensures
            final(self).stage == old(self).next_stage(event),
            final(self).limit == old(self).limit,
    {
        let stage = match (self.stage, event) {
            (ParkStage::Consume, ParkEvent::Accessed(Ok(_))) => ParkStage::Done,
            (ParkStage::Consume, ParkEvent::Accessed(Err(_))) => match self.limit {
                Some(nanos) => if nanos == 0 {
                    ParkStage::Done
                } else {
                    ParkStage::Lock
                },
                None => ParkStage::Lock,
            },
            (ParkStage::Lock, ParkEvent::Acquired) => ParkStage::Announce,
            (ParkStage::Announce, ParkEvent::Accessed(Ok(_))) => ParkStage::Wait,
            (ParkStage::Announce, ParkEvent::Accessed(Err(word))) => if word == NOTIFIED {
                ParkStage::Drain
            } else {
                ParkStage::Inconsistent(word)
            },
            (ParkStage::Drain, ParkEvent::Accessed(Ok(word))) => if word == NOTIFIED {
                ParkStage::Done
            } else {
                ParkStage::Inconsistent(word)
            },
            (ParkStage::Wait, ParkEvent::Woken) => if self.limit.is_some() {
                ParkStage::Settle
            } else {
                ParkStage::Recheck
            },
            (ParkStage::Recheck, ParkEvent::Accessed(Ok(_))) => ParkStage::Done,
            (ParkStage::Recheck, ParkEvent::Accessed(Err(_))) => ParkStage::Wait,
            (ParkStage::Settle, ParkEvent::Accessed(Ok(word))) => if word == NOTIFIED || word
                == PARKED {
                ParkStage::Done
            } else {
                ParkStage::Inconsistent(word)
            },
            _ => self.stage,
        };
        self.stage = stage;
    }
}

/// How far a call of `unpark` has come.
#[derive(Clone, Copy, PartialEq, Eq, Structural, Debug)]
pub enum UnparkStage {
    /// About to leave a notification in the word.
    Notify,
    /// A thread was parked: about to pass through the mutex, so that the
    /// thread has reached the condition variable.
    Relock,
    /// About to signal the condition variable.
    Signal,
    /// The call returns.
    Done,
    /// The word held what it never should.
    Inconsistent(usize),
}

/// What the unparking thread does next.
#[derive(Clone, Copy, PartialEq, Eq, Structural, Debug)]
pub enum UnparkAction {
    /// Access the state word, and report the word before the access.
    Access(WordOp),
    /// Take the mutex and release it at once.
    PassMutex,
    /// Signal one waiter of the condition variable.
    NotifyOne,
    /// Return.
    Return,
    /// Panic: the word held this value.
    Fail(usize),
}

/// One call of `unpark` under way.
#[derive(Clone, Copy, PartialEq, Eq, Structural, Debug)]
pub struct Unparking {
    /// How far the call has come.
    pub stage: UnparkStage,
}

impl Unparking {
    /// The action that belongs to a stage.
    pub open spec fn spec_action(self) -> UnparkAction {
        match self.stage {
            UnparkStage::Notify => UnparkAction::Access(WordOp::Swap { new: NOTIFIED }),
            UnparkStage::Relock => UnparkAction::PassMutex,
            UnparkStage::Signal => UnparkAction::NotifyOne,
            UnparkStage::Done => UnparkAction::Return,
            UnparkStage::Inconsistent(word) => UnparkAction::Fail(word),
        }
    }

    /// The stage that follows; `seen` is the word before the access.
    pub open spec fn next_stage(self, seen: usize) -> UnparkStage {
        match self.stage {
            UnparkStage::Notify => if seen == EMPTY || seen == NOTIFIED {
                UnparkStage::Done
            } else if seen == PARKED {
                UnparkStage::Relock
            } else {
                UnparkStage::Inconsistent(seen)
            },
            UnparkStage::Relock => UnparkStage::Signal,
            UnparkStage::Signal => UnparkStage::Done,
            UnparkStage::Done | UnparkStage::Inconsistent(_) => self.stage,
        }
    }

    /// A call that leaves a notification and wakes the thread if it waits.
    pub fn unpark() -> (call: Unparking)
        ensures
            call == (Unparking { stage: UnparkStage::Notify }),
    {
        Unparking { stage: UnparkStage::Notify }
    }

    /// What the thread does next.
    pub fn action(&self) -> (action: UnparkAction)
        ensures
            action == self.spec_action(),
    {
        match self.stage {
            UnparkStage::Notify => UnparkAction::Access(WordOp::Swap { new: NOTIFIED }),
            UnparkStage::Relock => UnparkAction::PassMutex,
            UnparkStage::Signal => UnparkAction::NotifyOne,
            UnparkStage::Done => UnparkAction::Return,
            UnparkStage::Inconsistent(word) => UnparkAction::Fail(word),
        }
    }

    /// Goes on once the word was accessed and held `seen` before.
    pub fn accessed(&mut self, seen: usize)
        requires
            old(self).stage is Notify,
        ensures
            final(self).stage == old(self).next_stage(seen),
            seen == PARKED ==> final(self).stage is Relock,
            seen == EMPTY || seen == NOTIFIED ==> final(self).stage is Done,
            seen != PARKED && seen != EMPTY && seen != NOTIFIED ==> final(self).stage
                == UnparkStage::Inconsistent(seen),
    {
        self.stage =
        if seen == EMPTY || seen == NOTIFIED {
            UnparkStage::Done
        } else if seen == PARKED {
            UnparkStage::Relock
        } else {
            UnparkStage::Inconsistent(seen)
        };
    }

    /// Goes on once the mutex was passed, or the condition variable signalled.
    pub fn performed(&mut self)
        requires
            old(self).stage is Relock || old(self).stage is Signal,
        ensures
            forall|seen: usize| final(self).stage == #[trigger] old(self).next_stage(seen),
            old(self).stage is Relock ==> final(self).stage is Signal,
            old(self).stage is Signal ==> final(self).stage is Done,
    {
        self.stage =
        match self.stage {
            UnparkStage::Relock => UnparkStage::Signal,
            _ => UnparkStage::Done,
        };
    }
}

/// A call waits for exactly as long as it was told to, whatever its limit: a timed
/// call never waits without a limit, nor with another one than its own, and a call
/// without a limit never waits with one.
pub proof fn law_wait_is_timed_by_its_limit(call: Parking, nanos: u128)
    ensures
        call.stage is Wait && call.limit == Some(nanos) ==> call.spec_action()
            == ParkAction::WaitTimeout(nanos),
        call.stage is Wait && call.limit is None ==> call.spec_action() == ParkAction::Wait,
        call.spec_action() == ParkAction::WaitTimeout(nanos) ==> call.limit == Some(nanos)
            && call.stage is Wait,
        call.spec_action() == ParkAction::Wait ==> call.limit is None && call.stage is Wait,
{
}

/// Whatever can come of an action is accepted: any report of an access, and the end
/// of any wait. A call that is over expects nothing.
pub proof fn law_parking_accepts_every_outcome(call: Parking, reported: Result<usize, usize>)
    ensures
        call.spec_action() is Access ==> call.expects(ParkEvent::Accessed(reported)),
        call.spec_action() is Acquire ==> call.expects(ParkEvent::Acquired),
        call.spec_action() is Wait || call.spec_action() is WaitTimeout ==> call.expects(
            ParkEvent::Woken,
        ),
        call.stage is Done <==> call.spec_action() is Return,
{
}

/// Every access reports the word that it found, and leaves another one only if it
/// says so.
pub proof fn law_access_reports_what_it_found(op: WordOp, word: usize)
    ensures
        op.reports(word) == Ok::<usize, usize>(word) || op.reports(word) == Err::<usize, usize>(
            word,
        ),
        op.reports(word) is Err ==> op.leaves(word) == word,
        op matches WordOp::Swap { new } ==> op.leaves(word) == new && op.reports(word) is Ok,
        op matches WordOp::CompareExchange { current, new } ==> (op.reports(word) is Ok <==> word
            == current) && (word == current ==> op.leaves(word) == new),
{
}

/// An unpark always leaves a notification, first of all, whatever it finds, and
/// signals exactly a thread that it found parked.
pub proof fn law_unpark_notifies_first(word: usize)
    ensures
        (Unparking { stage: UnparkStage::Notify }).spec_action() matches UnparkAction::Access(op)
            && op.leaves(word) == NOTIFIED,
        word == PARKED ==> (Unparking {
            stage: (Unparking { stage: UnparkStage::Notify }).next_stage(word),
        }).spec_action() == UnparkAction::PassMutex,
        word == EMPTY || word == NOTIFIED ==> (Unparking {
            stage: (Unparking { stage: UnparkStage::Notify }).next_stage(word),
        }).spec_action() == UnparkAction::Return,
{
}

/// A word that does not belong where it is found ends the call that finds it, and the
/// call tells which word it was. Words that belong there never do that.
pub proof fn law_misplaced_word_is_reported(limit: Option<u128>, word: usize, other: usize)
    ensures
        ({
            let announced = (Parking { limit, stage: ParkStage::Announce }).next_stage(
                ParkEvent::Accessed(Err(word)),
            );
            let drained = (Parking { limit, stage: ParkStage::Drain }).next_stage(
                ParkEvent::Accessed(Ok(word)),
            );
            let settled = (Parking { limit, stage: ParkStage::Settle }).next_stage(
                ParkEvent::Accessed(Ok(word)),
            );
            let notified = (Unparking { stage: UnparkStage::Notify }).next_stage(word);
            &&& (Parking { limit, stage: announced }).spec_action() == ParkAction::Fail(other)
                <==> word == other && word != NOTIFIED
            &&& (Parking { limit, stage: drained }).spec_action() == ParkAction::Fail(other)
                <==> word == other && word != NOTIFIED
            &&& (Parking { limit, stage: settled }).spec_action() == ParkAction::Fail(other)
                <==> word == other && word != NOTIFIED && word != PARKED
            &&& (Unparking { stage: notified }).spec_action() == UnparkAction::Fail(other)
                <==> word == other && word != NOTIFIED && word != PARKED && word != EMPTY
        }),
{
}

/// A call returns at once if it finds a notification, or has no time to wait, and
/// otherwise goes for the mutex, whatever the word is instead. A call without a limit
/// that wakes up to no notification goes back to sleep.
pub proof fn law_call_waits_unless_notified(limit: Option<u128>, word: usize)
    ensures
        ({
            let found = (Parking { limit, stage: ParkStage::Consume }).next_stage(
                ParkEvent::Accessed(Ok(word)),
            );
            let missed = (Parking { limit, stage: ParkStage::Consume }).next_stage(
                ParkEvent::Accessed(Err(word)),
            );
            let notified = (Parking { limit, stage: ParkStage::Recheck }).next_stage(
                ParkEvent::Accessed(Ok(word)),
            );
            let spurious = (Parking { limit, stage: ParkStage::Recheck }).next_stage(
                ParkEvent::Accessed(Err(word)),
            );
            &&& (Parking { limit, stage: found }).spec_action() is Return
            &&& (Parking { limit, stage: missed }).spec_action() is Return <==> limit == Some(0u128)
            &&& (Parking { limit, stage: missed }).spec_action() is Acquire <==> limit != Some(
                0u128,
            )
            &&& (Parking { limit, stage: notified }).spec_action() is Return
            &&& limit is None ==> (Parking { limit, stage: spurious }).spec_action() is Wait
        }),
{
}

} // verus!
