//! A round of a worker: it gets a task and polls it, and parks while there is
//! none.
use crate::executor::{is_first_marked, Attempt};
use vstd::prelude::*;

verus! {

/// How far a worker has come with a round of its work: it gets a task and polls
/// it.
#[derive(Clone, Copy, PartialEq, Eq, Structural, Debug)]
pub enum PollOnce {
    /// About to try to get a task.
    Seek,
    /// There was nothing to do: about to mark itself as idle.
    Mark,
    /// Marked: about to try once more, as a task that became ready before the mark
    /// unparks nobody.
    Recheck,
    /// There still was nothing to do: about to park.
    Park,
    /// About to take the mark back, and then to poll a task if it has got one.
    Unmark(Option<u64>),
    /// About to poll a task.
    Poll(u64),
    /// The round is over.
    Done,
}

/// What came of a stage of [`PollOnce`].
#[derive(Clone, Copy, PartialEq, Eq, Structural, Debug)]
pub enum WorkerEvent {
    /// What the attempt to get a task has come to.
    Sought(Attempt),
    /// The worker is marked as idle.
    Marked,
    /// The worker is no longer parked.
    Unparked,
    /// The worker is no longer marked as idle.
    Unmarked,
    /// The task was polled, and its waker holds it if it is to wait.
    Polled,
}

impl PollOnce {
    /// Whether a worker has found nothing to do, and is parked, or on the way there
    /// or back.
    pub open spec fn is_idle(self) -> bool {
        self is Recheck || self is Park || self is Unmark
    }

    /// Whether `event` can come of this stage.
    pub open spec fn expects(self, event: WorkerEvent) -> bool {
        match self {
            PollOnce::Seek | PollOnce::Recheck => event is Sought,
            PollOnce::Mark => event is Marked,
            PollOnce::Park => event is Unparked,
            PollOnce::Unmark(_) => event is Unmarked,
            PollOnce::Poll(_) => event is Polled,
            PollOnce::Done => false,
        }
    }

    /// How the worker goes on after `event`.
    pub open spec fn next(self, event: WorkerEvent) -> PollOnce {
        match event {
            WorkerEvent::Sought(attempt) => match attempt {
                Attempt::Local(task) | Attempt::Stolen(task) => if self is Recheck {
                    PollOnce::Unmark(Some(task))
                } else {
                    PollOnce::Poll(task)
                },
                Attempt::Nothing => if self is Recheck {
                    PollOnce::Park
                } else {
                    PollOnce::Mark
                },
                Attempt::Contended => self,
            },
            WorkerEvent::Marked => PollOnce::Recheck,
            WorkerEvent::Unparked => PollOnce::Unmark(None),
            WorkerEvent::Unmarked => match self {
                PollOnce::Unmark(Some(task)) => PollOnce::Poll(task),
                _ => PollOnce::Seek,
            },
            WorkerEvent::Polled => PollOnce::Done,
        }
    }

    /// Begins a round.
    pub fn new() -> (stage: PollOnce)
        ensures
            stage == PollOnce::Seek,
    {
        PollOnce::Seek
    }

    /// Goes on after `event`.
    pub fn advance(self, event: WorkerEvent) -> (stage: PollOnce)
        requires
            self.expects(event),
        ensures
            stage == self.next(event),
            event matches WorkerEvent::Sought(Attempt::Local(task)) ==> stage == (
            if self is Recheck {
                PollOnce::Unmark(Some(task))
            } else {
                PollOnce::Poll(task)
            }),
            event matches WorkerEvent::Sought(Attempt::Stolen(task)) ==> stage == (
            if self is Recheck {
                PollOnce::Unmark(Some(task))
            } else {
                PollOnce::Poll(task)
            }),
            self matches PollOnce::Unmark(Some(task)) ==> stage == PollOnce::Poll(task),
    {
        match (self, event) {
            (PollOnce::Recheck, WorkerEvent::Sought(attempt)) => match attempt {
                Attempt::Local(task) => PollOnce::Unmark(Some(task)),
                Attempt::Stolen(task) => PollOnce::Unmark(Some(task)),
                Attempt::Nothing => PollOnce::Park,
                Attempt::Contended => PollOnce::Recheck,
            },
            (_, WorkerEvent::Sought(attempt)) => match attempt {
                Attempt::Local(task) => PollOnce::Poll(task),
                Attempt::Stolen(task) => PollOnce::Poll(task),
                Attempt::Nothing => PollOnce::Mark,
                Attempt::Contended => PollOnce::Seek,
            },
            (_, WorkerEvent::Marked) => PollOnce::Recheck,
            (_, WorkerEvent::Unparked) => PollOnce::Unmark(None),
            (PollOnce::Unmark(Some(task)), WorkerEvent::Unmarked) => PollOnce::Poll(task),
            (_, WorkerEvent::Unmarked) => PollOnce::Seek,
            (_, WorkerEvent::Polled) => PollOnce::Done,
        }
    }
}

/// A worker, its mark and its place to park.
pub ghost struct Working {
    /// How far the worker has come.
    pub stage: PollOnce,
    /// Whether the worker is marked as idle.
    pub marked: bool,
    /// Whether the worker was unparked since it last returned from parking.
    pub unparked: bool,
    /// Whether the worker was unparked since it last tried to get a task.
    pub owed: bool,
}

/// What happens next to a [`Working`].
pub ghost enum WorkTurn {
    /// The worker does what it is about to do, but for returning from parking.
    Step(WorkerEvent),
    /// The worker begins another round.
    Again,
    /// The worker returns from parking because it was unparked.
    Return,
    /// The worker returns from parking for another reason.
    ReturnEarly,
    /// Somebody unparks the worker for a task.
    Unpark,
}

impl Working {
    /// The worker has just begun.
    pub open spec fn begin() -> Working {
        Working { stage: PollOnce::Seek, marked: false, unparked: false, owed: false }
    }

    /// Whether this can happen next.
    pub open spec fn can(self, turn: WorkTurn) -> bool {
        match turn {
            WorkTurn::Step(event) => self.stage.expects(event) && !(event is Unparked),
            WorkTurn::Again => self.stage is Done,
            WorkTurn::Return => self.stage is Park && self.unparked,
            WorkTurn::ReturnEarly => self.stage is Park,
            WorkTurn::Unpark => true,
        }
    }

    /// How things stand after this.
    pub open spec fn after(self, turn: WorkTurn) -> Working {
        match turn {
            WorkTurn::Step(event) => Working {
                stage: self.stage.next(event),
                marked: (self.marked || event is Marked) && !(event is Unmarked),
                owed: self.owed && !(event is Sought),
                ..self
            },
            WorkTurn::Again => Working { stage: PollOnce::Seek, ..self },
            WorkTurn::Return => Working {
                stage: self.stage.next(WorkerEvent::Unparked),
                unparked: false,
                ..self
            },
            WorkTurn::ReturnEarly => Working {
                stage: self.stage.next(WorkerEvent::Unparked),
                ..self
            },
            WorkTurn::Unpark => Working { unparked: true, owed: true, ..self },
        }
    }

    /// What holds at any time: exactly the workers that are parked, or on the way
    /// there or back, are marked, and one that was unparked returns from parking
    /// before it looks for a task.
    pub open spec fn inv(self) -> bool {
        &&& self.marked <==> self.stage.is_idle()
        &&& self.owed ==> self.unparked || self.stage is Seek || self.stage
            == PollOnce::Unmark(None)
    }

    /// Whether all of these can happen, one after the other.
    pub open spec fn possible(self, turns: Seq<WorkTurn>) -> bool
        decreases turns.len(),
    {
        turns.len() > 0 ==> self.possible(turns.drop_last()) && self.run(turns.drop_last()).can(
            turns.last(),
        )
    }

    /// How things stand after all of these.
    pub open spec fn run(self, turns: Seq<WorkTurn>) -> Working
        decreases turns.len(),
    {
        if turns.len() == 0 {
            self
        } else {
            self.run(turns.drop_last()).after(turns.last())
        }
    }
}

/// Whatever a worker does next, and whoever unparks it, keeps what holds at any
/// time.
pub proof fn law_worker_stays_sound(worker: Working, turn: WorkTurn)
    requires
        worker.inv(),
        worker.can(turn),
    ensures
        worker.after(turn).inv(),
{
}

/// A worker is marked exactly from when it has found nothing to do until it has
/// returned from parking, or got a task after all.
pub proof fn law_worker_always_sound(turns: Seq<WorkTurn>)
    requires
        Working::begin().possible(turns),
    ensures
        Working::begin().run(turns).inv(),
        Working::begin().run(turns).marked <==> Working::begin().run(turns).stage.is_idle(),
    decreases turns.len(),
{
    if turns.len() > 0 {
        law_worker_always_sound(turns.drop_last());
        law_worker_stays_sound(Working::begin().run(turns.drop_last()), turns.last());
    }
}

/// A worker that was unparked for a task does not stay parked before it has
/// looked for one, whatever it was doing at the time.
pub proof fn law_unparked_worker_looks_again(turns: Seq<WorkTurn>)
    requires
        Working::begin().possible(turns),
    ensures
        ({
            let now = Working::begin().run(turns);
            now.owed && now.stage is Park ==> now.can(WorkTurn::Return) && now.after(
                WorkTurn::Return,
            ).after(WorkTurn::Step(WorkerEvent::Unmarked)).stage is Seek
        }),
{
    law_worker_always_sound(turns);
}

/// If a worker sleeps, one is unparked for a task that is itself asleep, or on the
/// way there or back: it has found nothing to do, and looks for a task again
/// before it can stay asleep. A worker that is at work is not unparked.
pub proof fn law_sleeping_worker_is_woken(
    workers: Seq<Working>,
    id: int,
    worker: Option<usize>,
)
    requires
        forall|i: int| 0 <= i < workers.len() ==> (#[trigger] workers[i]).inv(),
        0 <= id < workers.len(),
        workers[id].stage is Park,
        is_first_marked(marks(workers), worker),
    ensures
        worker matches Some(first) && {
            let woken = workers[first as int];
            &&& first <= id
            &&& woken.stage.is_idle()
            &&& woken.stage is Park ==> woken.after(WorkTurn::Unpark).can(WorkTurn::Return)
            &&& woken.after(WorkTurn::Unpark).owed
        },
{
    assert(marks(workers)[id]);
}

/// A worker parks only when it is marked and has found nothing to do since.
pub proof fn law_worker_looks_again_before_it_parks(turns: Seq<WorkTurn>)
    requires
        Working::begin().possible(turns),
        Working::begin().run(turns).stage is Park,
    ensures
        exists|i: int, j: int|
            0 <= i < j < turns.len() && #[trigger] turns[i] == WorkTurn::Step(WorkerEvent::Marked)
                && #[trigger] turns[j] == WorkTurn::Step(WorkerEvent::Sought(Attempt::Nothing))
                && forall|k: int|
                i < k < turns.len() && k != j ==> is_aside(#[trigger] turns[k]),
    decreases turns.len(),
{
    let before = turns.drop_last();
    if turns.last() is Unpark {
        law_worker_looks_again_before_it_parks(before);
        let (i, j) = choose|i: int, j: int|
            0 <= i < j < before.len() && #[trigger] before[i] == WorkTurn::Step(WorkerEvent::Marked)
                && #[trigger] before[j] == WorkTurn::Step(WorkerEvent::Sought(Attempt::Nothing))
                && forall|k: int|
                i < k < before.len() && k != j ==> is_aside(#[trigger] before[k]);
        assert forall|k: int| i < k < turns.len() && k != j implies is_aside(#[trigger] turns[k]) by {
            if k < before.len() {
                assert(before[k] == turns[k]);
            }
        }
        assert(turns[i] == before[i] && turns[j] == before[j]);
    } else {
        lemma_recheck_follows_mark(before);
        let i = choose|i: int|
            0 <= i < before.len() && #[trigger] before[i] == WorkTurn::Step(WorkerEvent::Marked)
                && forall|k: int| i < k < before.len() ==> is_aside(#[trigger] before[k]);
        let j = turns.len() - 1;
        assert(turns[i] == before[i] && turns[j] == WorkTurn::Step(
            WorkerEvent::Sought(Attempt::Nothing),
        ));
        assert forall|k: int| i < k < turns.len() && k != j implies is_aside(#[trigger] turns[k]) by {
            assert(before[k] == turns[k]);
        }
    }
}

/// Whether the worker is where it was before: it was unparked, or has tried to get
/// a task with others in the way.
pub open spec fn is_aside(turn: WorkTurn) -> bool {
    turn is Unpark || turn == WorkTurn::Step(WorkerEvent::Sought(Attempt::Contended))
}

/// A worker looks for a task once more only when it has marked itself.
proof fn lemma_recheck_follows_mark(turns: Seq<WorkTurn>)
    requires
        Working::begin().possible(turns),
        Working::begin().run(turns).stage is Recheck,
    ensures
        exists|i: int|
            0 <= i < turns.len() && #[trigger] turns[i] == WorkTurn::Step(WorkerEvent::Marked)
                && forall|k: int| i < k < turns.len() ==> is_aside(#[trigger] turns[k]),
    decreases turns.len(),
{
    let before = turns.drop_last();
    if is_aside(turns.last()) {
        lemma_recheck_follows_mark(before);
        let i = choose|i: int|
            0 <= i < before.len() && #[trigger] before[i] == WorkTurn::Step(WorkerEvent::Marked)
                && forall|k: int| i < k < before.len() ==> is_aside(#[trigger] before[k]);
        assert(turns[i] == before[i]);
        assert forall|k: int| i < k < turns.len() implies is_aside(#[trigger] turns[k]) by {
            if k < before.len() {
                assert(before[k] == turns[k]);
            }
        }
    } else {
        let i = turns.len() - 1;
        assert(turns[i] == WorkTurn::Step(WorkerEvent::Marked));
    }
}

/// The marks of these workers.
pub open spec fn marks(workers: Seq<Working>) -> Seq<bool> {
    workers.map_values(|worker: Working| worker.marked)
}

/// A worker polls the very task that it got, whatever its number and wherever it
/// came from, and takes its mark back before if it had one.
pub proof fn law_worker_polls_what_it_got(task: u64)
    ensures
        PollOnce::Seek.next(WorkerEvent::Sought(Attempt::Local(task))) == PollOnce::Poll(task),
        PollOnce::Seek.next(WorkerEvent::Sought(Attempt::Stolen(task))) == PollOnce::Poll(task),
        PollOnce::Recheck.next(WorkerEvent::Sought(Attempt::Local(task))).next(
            WorkerEvent::Unmarked,
        ) == PollOnce::Poll(task),
        PollOnce::Recheck.next(WorkerEvent::Sought(Attempt::Stolen(task))).next(
            WorkerEvent::Unmarked,
        ) == PollOnce::Poll(task),
        PollOnce::Recheck.next(WorkerEvent::Sought(Attempt::Local(task))).is_idle(),
        PollOnce::Recheck.next(WorkerEvent::Sought(Attempt::Stolen(task))).is_idle(),
        PollOnce::Poll(task).next(WorkerEvent::Polled) is Done,
{
}

/// A worker polls no task but one that it got: whenever it is about to poll one, the
/// last search that was not in vain brought that one.
pub proof fn law_worker_polls_nothing_else(turns: Seq<WorkTurn>, task: u64)
    requires
        Working::begin().possible(turns),
        Working::begin().run(turns).stage == PollOnce::Poll(task) || Working::begin().run(
            turns,
        ).stage == PollOnce::Unmark(Some(task)),
    ensures
        exists|i: int|
            0 <= i < turns.len() && brings(#[trigger] turns[i], task) && forall|k: int|
                i < k < turns.len() ==> !(#[trigger] turns[k] is Step && turns[k]->Step_0 is Sought),
    decreases turns.len(),
{
    let before = turns.drop_last();
    let last = turns.len() - 1;
    if brings(turns.last(), task) {
        assert(turns[last] == turns.last());
    } else {
        law_worker_polls_nothing_else(before, task);
        let i = choose|i: int|
            0 <= i < before.len() && brings(#[trigger] before[i], task) && forall|k: int|
                i < k < before.len() ==> !(#[trigger] before[k] is Step
                    && before[k]->Step_0 is Sought);
        assert(turns[i] == before[i]);
        assert forall|k: int| i < k < turns.len() implies !(#[trigger] turns[k] is Step
            && turns[k]->Step_0 is Sought) by {
            if k < before.len() {
                assert(before[k] == turns[k]);
            } else {
                assert(turns[k] == turns.last());
            }
        }
    }
}

/// Whether a worker got `task`.
pub open spec fn brings(turn: WorkTurn, task: u64) -> bool {
    turn == WorkTurn::Step(WorkerEvent::Sought(Attempt::Local(task))) || turn == WorkTurn::Step(
        WorkerEvent::Sought(Attempt::Stolen(task)),
    )
}

/// A worker that finds nothing twice, with a mark in between, parks, and after that
/// it takes its mark back and looks again. Others in the way make it try again.
pub proof fn law_worker_without_tasks_parks()
    ensures
        PollOnce::Seek.next(WorkerEvent::Sought(Attempt::Nothing)) is Mark,
        PollOnce::Mark.next(WorkerEvent::Marked) is Recheck,
        PollOnce::Recheck.next(WorkerEvent::Sought(Attempt::Nothing)) is Park,
        PollOnce::Park.next(WorkerEvent::Unparked) == PollOnce::Unmark(None),
        PollOnce::Unmark(None).next(WorkerEvent::Unmarked) is Seek,
        PollOnce::Seek.next(WorkerEvent::Sought(Attempt::Contended)) is Seek,
        PollOnce::Recheck.next(WorkerEvent::Sought(Attempt::Contended)) is Recheck,
{
}

/// Whatever a search comes to is accepted where the worker searches, and nothing
/// else is; a round that is over expects nothing.
pub proof fn law_worker_accepts_every_outcome(stage: PollOnce, attempt: Attempt, event: WorkerEvent)
    ensures
        stage.expects(WorkerEvent::Sought(attempt)) <==> stage is Seek || stage is Recheck,
        stage.expects(WorkerEvent::Marked) <==> stage is Mark,
        stage.expects(WorkerEvent::Unparked) <==> stage is Park,
        stage.expects(WorkerEvent::Unmarked) <==> stage is Unmark,
        stage.expects(WorkerEvent::Polled) <==> stage is Poll,
        stage is Done ==> !stage.expects(event),
{
}

} // verus!
