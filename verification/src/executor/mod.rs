//! The executor: which task a worker runs next, and which worker is woken for a
//! task.
//!
//! A task is known by its number. The workers share a queue of tasks that are
//! ready, and each has a queue of its own.
pub mod crew;
pub mod join;
pub mod parking;
pub mod queues;
pub mod thread;
pub mod worker;

use crate::executor::join::JoinHandle;
use crate::executor::queues::{
    as_made, asked_queues, clone_stealer, firsts, injected, is_fifo, law_attempts_come_to,
    law_every_round_asks_everyone, law_round_asks_each_worker_once, law_round_comes_to,
    law_round_without_a_task_asks_all, lemma_robbed_again, pop, pops, push, queue_as_made, robbed,
    steal, steal_batch_and_pop, stealer_of, steals, taken, thefts, told_by, worker_tasks, Round,
    Steal,
};
use crate::oneshot::Channel;
use crossbeam_deque::{Injector, Stealer, Worker};
use std::sync::Arc;
use vstd::prelude::*;

verus! {

/// Whether `first` is the lowest place that is marked, or none if none is.
pub open spec fn is_first_marked(marks: Seq<bool>, first: Option<usize>) -> bool {
    match first {
        Some(i) => i < marks.len() && marks[i as int] && forall|j: int|
            0 <= j < i ==> !#[trigger] marks[j],
        None => forall|j: int| 0 <= j < marks.len() ==> !#[trigger] marks[j],
    }
}

/// Which workers have found nothing to do. A worker marks itself before it parks,
/// and takes the mark back when it returns from parking.
#[derive(Debug)]
pub struct Idle {
    marks: Vec<bool>,
}

impl View for Idle {
    type V = Seq<bool>;

    closed spec fn view(&self) -> Seq<bool> {
        self.marks@
    }
}

impl Idle {
    /// No mark yet for any of so many workers.
    pub fn new(workers: usize) -> (idle: Idle)
        ensures
            idle@ == Seq::new(workers as nat, |i: int| false),
    {
        let mut marks: Vec<bool> = Vec::new();
        let mut i: usize = 0;
        while i < workers
            invariant
                i <= workers,
                marks@ == Seq::new(i as nat, |j: int| false),
            decreases workers - i,
        {
            marks.push(false);
            i += 1;
        }
        Idle { marks }
    }

    /// Marks a worker.
    pub fn mark(&mut self, id: usize)
        requires
            id < old(self)@.len(),
        ensures
            final(self)@ == old(self)@.update(id as int, true),
    {
        self.marks[id] = true;
    }

    /// Takes the mark of a worker back.
    pub fn unmark(&mut self, id: usize)
        requires
            id < old(self)@.len(),
        ensures
            final(self)@ == old(self)@.update(id as int, false),
    {
        self.marks[id] = false;
    }

    /// How many workers there are.
    pub fn workers(&self) -> (workers: usize)
        ensures
            workers == self@.len(),
    {
        self.marks.len()
    }

    /// The first worker that is marked.
    pub fn first(&self) -> (first: Option<usize>)
        ensures
            is_first_marked(self@, first),
            first matches Some(i) ==> i < self@.len() && self@[i as int] && forall|j: int|
                0 <= j < i ==> !#[trigger] self@[j],
            first is None ==> forall|j: int| 0 <= j < self@.len() ==> !#[trigger] self@[j],
    {
        let mut i: usize = 0;
        while i < self.marks.len()
            invariant
                i <= self.marks@.len(),
                forall|j: int| 0 <= j < i ==> !#[trigger] self.marks@[j],
            decreases self.marks@.len() - i,
        {
            if self.marks[i] {
                return Some(i);
            }
            i += 1;
        }
        None
    }
}

/// What all workers, and everybody who spawns tasks, have in common.
pub struct GlobalExecutor {
    queue: Arc<Injector<u64>>,
    stealers: Vec<Stealer<u64>>,
}

impl Clone for GlobalExecutor {
    fn clone(&self) -> (global: Self)
        ensures
            global.shared() == self.shared(),
            global.injected() == self.injected(),
            global.stealers() == self.stealers(),
    {
        let mut stealers: Vec<Stealer<u64>> = Vec::new();
        let mut i: usize = 0;
        while i < self.stealers.len()
            invariant
                i <= self.stealers@.len(),
                stealers@ == self.stealers@.take(i as int),
            decreases self.stealers@.len() - i,
        {
            stealers.push(clone_stealer(&self.stealers[i]));
            i += 1;
        }
        GlobalExecutor { queue: self.queue.clone(), stealers }
    }
}

impl GlobalExecutor {
    /// The tasks that were put into the shared queue through this handle, or one
    /// that it was cloned from.
    pub closed spec fn injected(self) -> Seq<u64> {
        injected(self.queue)
    }

    /// Which queue is the shared one.
    pub closed spec fn shared(self) -> Arc<Injector<u64>> {
        queue_as_made(self.queue)
    }

    /// The handles to steal from the queues of the workers.
    pub closed spec fn stealers(self) -> Seq<Stealer<u64>> {
        self.stealers@
    }

    /// An executor with this shared queue, these queues to steal from and so many
    /// workers, none of which is idle.
    #[must_use]
    pub fn new(queue: Arc<Injector<u64>>, stealers: Vec<Stealer<u64>>, threads: usize) -> (made: (
        GlobalExecutor,
        Idle,
    ))
        ensures
            made.0.shared() == queue_as_made(queue),
            made.0.injected() == injected(queue),
            made.0.stealers() == stealers@,
            made.1@ == Seq::new(threads as nat, |i: int| false),
    {
        (GlobalExecutor { queue, stealers }, Idle::new(threads))
    }

    /// Puts a new task into the shared queue. Returns the handle to its result
    /// and the worker to unpark for it.
    pub fn spawn<R>(&mut self, task: u64, idle: &Idle) -> (spawned: (JoinHandle<R>, Option<usize>))
        ensures
            spawned.0@ == Channel::<R>::fresh(),
            is_first_marked(idle@, spawned.1),
            final(self).injected() == old(self).injected().push(task),
            final(self).shared() == old(self).shared(),
            final(self).stealers() == old(self).stealers(),
    {
        let handle = JoinHandle::new();
        let worker: Option<usize> = self.wake_one(task, idle);
        (handle, worker)
    }

    /// Puts a task that is ready into the shared queue. Returns the worker to
    /// unpark for it, the first that is idle.
    pub fn wake_one(&mut self, task: u64, idle: &Idle) -> (worker: Option<usize>)
        ensures
            is_first_marked(idle@, worker),
            final(self).injected() == old(self).injected().push(task),
            final(self).shared() == old(self).shared(),
            final(self).stealers() == old(self).stealers(),
    {
        push(&mut self.queue, task);
        idle.first()
    }

    /// Steals a task: from the shared queue, with others that go to the back of
    /// `queue`, or else from one of the other workers. Thieves and other threads
    /// decide what there is to steal.
    pub fn steal(&mut self, queue: &mut Worker<u64>) -> (stolen: Steal)
        ensures
            is_fifo(*final(queue)) == is_fifo(*old(queue)),
            stealer_of(*final(queue)) == stealer_of(*old(queue)),
            pops(*final(queue)) == pops(*old(queue)),
            worker_tasks(*old(queue)).is_prefix_of(worker_tasks(*final(queue))),
            asked_queues(*final(queue)) == asked_queues(*old(queue)).push(old(self).shared()),
            final(self).shared() == old(self).shared(),
            final(self).injected() == old(self).injected(),
            exists|round: Round|
                {
                    &&& #[trigger] round.valid(old(self).stealers().len())
                    &&& stolen == round.outcome()
                    &&& steals(*final(queue)) == steals(*old(queue)).push(round.first)
                    &&& robbed(old(self).stealers(), final(self).stealers(), seq![round])
                    &&& !(round.first is Success) ==> worker_tasks(*final(queue))
                        == worker_tasks(*old(queue))
                    &&& forall|i: int|
                        0 <= i < old(self).stealers().len() ==> thefts(
                            #[trigger] final(self).stealers()[i],
                        ) == (if i < round.others.len() {
                            thefts(old(self).stealers()[i]).push(round.others[i])
                        } else {
                            thefts(old(self).stealers()[i])
                        })
                },
            stolen is Empty ==> forall|i: int|
                0 <= i < old(self).stealers().len() ==> thefts(#[trigger] final(self).stealers()[i])
                    == thefts(old(self).stealers()[i]).push(Steal::Empty),
            stolen is Success ==> steals(*final(queue)).last() == stolen || exists|i: int|
                0 <= i < old(self).stealers().len() && thefts(#[trigger] final(self).stealers()[i])
                    == thefts(old(self).stealers()[i]).push(stolen),
    {
        let ghost before = self.stealers();
        let first = steal_batch_and_pop(&self.queue, queue);
        if let Steal::Success(_) = first {
            let ghost round = Round { first, others: Seq::empty() };
            proof {
                lemma_one_round(before, self.stealers(), round);
                assert(round.valid(before.len()));
                lemma_round_told(before, self.stealers(), round);
            }
            return first;
        }
        let rest = self.steal_from_workers();
        proof {
            let others = choose|others: Seq<Steal>| #[trigger]
                Steal::asked(before.len(), others) && rest == Steal::of_all(others) && forall|i: int|
                    0 <= i < before.len() ==> as_made(#[trigger] self.stealers()[i]) == as_made(
                        before[i],
                    ) && thefts(self.stealers()[i]) == thefts(before[i]) + (Round {
                        first: Steal::Empty,
                        others,
                    }).told_by(i);
            let round = Round { first, others };
            lemma_one_round(before, self.stealers(), round);
            assert(round.valid(before.len()));
            lemma_round_told(before, self.stealers(), round);
        }
        first.or_else(rest)
    }

    /// Steals a task from the first worker that has one.
    fn steal_from_workers(&mut self) -> (stolen: Steal)
        ensures
            final(self).shared() == old(self).shared(),
            final(self).injected() == old(self).injected(),
            final(self).stealers().len() == old(self).stealers().len(),
            exists|others: Seq<Steal>| #[trigger]
                Steal::asked(old(self).stealers().len(), others) && stolen == Steal::of_all(others)
                    && forall|i: int|
                    0 <= i < old(self).stealers().len() ==> as_made(
                        #[trigger] final(self).stealers()[i],
                    ) == as_made(old(self).stealers()[i]) && thefts(final(self).stealers()[i])
                        == thefts(old(self).stealers()[i]) + (Round {
                        first: Steal::Empty,
                        others,
                    }).told_by(i),
    {
        let ghost before = self.stealers();
        let ghost mut others: Seq<Steal> = Seq::empty();
        let mut stolen = Steal::Empty;
        let mut i: usize = 0;
        while i < self.stealers.len()
            invariant
                i <= self.stealers@.len(),
                self.shared() == old(self).shared(),
                self.injected() == old(self).injected(),
                before == old(self).stealers(),
                self.stealers@.len() == before.len(),
                others.len() == i,
                stolen == Steal::of_all(others),
                forall|j: int| 0 <= j < i ==> !(#[trigger] others[j] is Success),
                forall|j: int|
                    0 <= j < before.len() ==> as_made(#[trigger] self.stealers@[j]) == as_made(
                        before[j],
                    ) && thefts(self.stealers@[j]) == thefts(before[j]) + (Round {
                        first: Steal::Empty,
                        others,
                    }).told_by(j),
            decreases self.stealers@.len() - i,
        {
            let ghost earlier = self.stealers@;
            let attempt = steal(&mut self.stealers[i]);
            let ghost longer = others.push(attempt);
            proof {
                assert(longer.drop_last() =~= others);
                assert forall|j: int| 0 <= j < before.len() implies as_made(
                    #[trigger] self.stealers@[j],
                ) == as_made(before[j]) && thefts(self.stealers@[j]) == thefts(before[j]) + (Round {
                    first: Steal::Empty,
                    others: longer,
                }).told_by(j) by {
                    assert(as_made(earlier[j]) == as_made(before[j]));
                    assert(thefts(self.stealers@[j]) =~= thefts(before[j]) + (Round {
                        first: Steal::Empty,
                        others: longer,
                    }).told_by(j));
                }
                others = longer;
            }
            i += 1;
            stolen = stolen.or_else(attempt);
            if let Steal::Success(_) = attempt {
                assert(Steal::asked(before.len(), others));
                return stolen;
            }
        }
        assert(Steal::asked(before.len(), others));
        stolen
    }

    /// Wakes the task that a waker is for. If it waits it becomes ready, once. If it
    /// is being polled, the waker remembers that.
    pub fn wake(&mut self, waker: &mut TaskWaker, idle: &Idle) -> (woken: Woken)
        ensures
            ({
                let after = (Waiting { slot: old(waker)@, queue: old(self).injected() }).woken();
                &&& final(waker)@ == after.slot
                &&& final(self).injected() == after.queue
            }),
            final(self).shared() == old(self).shared(),
            final(self).stealers() == old(self).stealers(),
            match old(waker)@.task {
                Some(task) => {
                    &&& woken matches Woken::Queued(worker)
                    &&& is_first_marked(idle@, worker)
                    &&& final(self).injected() == old(self).injected().push(task)
                    &&& final(waker)@.woken == old(waker)@.woken
                },
                None => {
                    &&& woken is Nothing
                    &&& final(self).injected() == old(self).injected()
                    &&& final(waker)@.woken
                },
            },
            final(waker)@.task is None,
    {
        match waker.task.take() {
            Some(task) => Woken::Queued(self.wake_one(task, idle)),
            None => {
                waker.woken = true;
                Woken::Nothing
            },
        }
    }

    /// Goes on once a task was polled. If it is not finished, its waker holds it
    /// until it is woken; if it was woken while it was polled, it is ready again at
    /// once.
    pub fn polled(
        &mut self,
        waker: &mut TaskWaker,
        task: u64,
        pending: bool,
        idle: &Idle,
    ) -> (woken: Woken)
        ensures
            ({
                let after = (Waiting { slot: old(waker)@, queue: old(self).injected() }).polled(
                    task,
                    pending,
                );
                &&& final(waker)@ == after.slot
                &&& final(self).injected() == after.queue
            }),
            final(self).shared() == old(self).shared(),
            final(self).stealers() == old(self).stealers(),
            pending && old(waker)@.woken ==> final(self).injected() == old(self).injected().push(
                task,
            ) && (woken matches Woken::Queued(worker) && is_first_marked(idle@, worker)),
            !(pending && old(waker)@.woken) ==> final(self).injected() == old(self).injected()
                && woken is Nothing,
            final(waker)@.woken == old(waker)@.woken,
            pending && !old(waker)@.woken ==> final(waker)@.task == Some(task),
            !pending || old(waker)@.woken ==> final(waker)@.task == old(waker)@.task,
    {
        if !pending {
            Woken::Nothing
        } else if waker.woken {
            Woken::Queued(self.wake_one(task, idle))
        } else {
            waker.task = Some(task);
            Woken::Nothing
        }
    }
}

/// What a waker holds.
pub ghost struct Slot {
    /// The task, while it waits to be woken.
    pub task: Option<u64>,
    /// Whether it was woken when it did not wait.
    pub woken: bool,
}

/// A waker, and the tasks that were put into the shared queue.
pub ghost struct Waiting {
    /// What the waker holds.
    pub slot: Slot,
    /// The shared queue.
    pub queue: Seq<u64>,
}

impl Waiting {
    /// A task is about to be polled.
    pub open spec fn begin(queue: Seq<u64>) -> Waiting {
        Waiting { slot: Slot { task: None, woken: false }, queue }
    }

    /// The task was woken: if it waits, it is ready.
    pub open spec fn woken(self) -> Waiting {
        match self.slot.task {
            Some(task) => Waiting {
                slot: Slot { task: None, ..self.slot },
                queue: self.queue.push(task),
            },
            None => Waiting { slot: Slot { woken: true, ..self.slot }, ..self },
        }
    }

    /// The task was polled: unless it is finished, it waits, or is ready if it was
    /// woken.
    pub open spec fn polled(self, task: u64, pending: bool) -> Waiting {
        if !pending {
            self
        } else if self.slot.woken {
            Waiting { queue: self.queue.push(task), ..self }
        } else {
            Waiting { slot: Slot { task: Some(task), ..self.slot }, ..self }
        }
    }

    /// The task was woken so many times.
    pub open spec fn woken_times(self, n: nat) -> Waiting
        decreases n,
    {
        if n == 0 {
            self
        } else {
            self.woken_times((n - 1) as nat).woken()
        }
    }
}

/// What waking a task has come to.
#[derive(Clone, Copy, PartialEq, Eq, Debug)]
pub enum Woken {
    /// The task does not wait.
    Nothing,
    /// The task is in the shared queue, and this worker is to be unparked for it.
    Queued(Option<usize>),
}

/// Holds a task while it waits to be woken, and remembers whether it was woken
/// while it was polled.
#[derive(Debug)]
pub struct TaskWaker {
    task: Option<u64>,
    woken: bool,
}

impl View for TaskWaker {
    type V = Slot;

    closed spec fn view(&self) -> Slot {
        Slot { task: self.task, woken: self.woken }
    }
}

impl TaskWaker {
    /// A waker for a task that is about to be polled.
    pub fn new() -> (waker: TaskWaker)
        ensures
            waker@ == (Slot { task: None, woken: false }),
    {
        TaskWaker { task: None, woken: false }
    }
}

/// What an attempt to get a task has come to.
#[derive(Clone, Copy, PartialEq, Eq, Structural, Debug)]
pub enum Attempt {
    /// The worker's own queue had a task.
    Local(u64),
    /// A task was stolen.
    Stolen(u64),
    /// There was nothing to do.
    Nothing,
    /// Other threads were in the way each time.
    Contended,
}

impl Attempt {
    /// Whether this can be what stealing in these rounds has come to, where there
    /// are so many workers to steal from. Somebody was in the way in each round but
    /// the last; the worker gives up only after as many rounds as can be counted.
    pub open spec fn is_result_of(self, rounds: Seq<Round>, workers: nat) -> bool {
        &&& rounds.len() > 0
        &&& forall|i: int| 0 <= i < rounds.len() ==> (#[trigger] rounds[i]).valid(workers)
        &&& forall|i: int|
            0 <= i < rounds.len() - 1 ==> (#[trigger] rounds[i]).outcome() == Steal::Retry
        &&& match self {
            Attempt::Local(_) => false,
            Attempt::Stolen(task) => rounds.last().outcome() == Steal::Success(task),
            Attempt::Nothing => rounds.last().outcome() == Steal::Empty,
            Attempt::Contended => rounds.len() == usize::MAX && rounds.last().outcome()
                == Steal::Retry,
        }
    }

    /// What stealing has come to, unless it is worth another try.
    pub fn of_steal(stolen: Steal) -> (attempt: Option<Attempt>)
        ensures
            attempt == (match stolen {
                Steal::Empty => Some(Attempt::Nothing),
                Steal::Success(task) => Some(Attempt::Stolen(task)),
                Steal::Retry => None,
            }),
    {
        match stolen {
            Steal::Empty => Some(Attempt::Nothing),
            Steal::Success(task) => Some(Attempt::Stolen(task)),
            Steal::Retry => None,
        }
    }
}

/// A worker.
pub struct LocalExecutor {
    id: usize,
    queue: Worker<u64>,
    global: GlobalExecutor,
}

impl LocalExecutor {
    /// Which of the workers this is.
    pub closed spec fn id(self) -> usize {
        self.id
    }

    /// Its own queue.
    pub closed spec fn queue(self) -> Worker<u64> {
        self.queue
    }

    /// What it has in common with the others.
    pub closed spec fn global(self) -> GlobalExecutor {
        self.global
    }

    /// A worker with this number and this queue.
    #[must_use]
    pub fn new(id: usize, queue: Worker<u64>, global: GlobalExecutor) -> (local: LocalExecutor)
        ensures
            local.id() == id,
            local.queue() == queue,
            local.global() == global,
    {
        LocalExecutor { id, queue, global }
    }

    /// For how long a worker parks between tasks, to let the reactor do its
    /// work: not at all.
    pub fn maintenance(&self) -> (limit: u128)
        ensures
            limit == 0,
    {
        0
    }

    /// Tries to get a task: from the worker's own queue, and if that is empty,
    /// from the others, again and again as long as somebody is in the way.
    pub fn try_get_task(&mut self) -> (attempt: Attempt)
        ensures
            final(self).id() == old(self).id(),
            final(self).global().shared() == old(self).global().shared(),
            final(self).global().injected() == old(self).global().injected(),
            is_fifo(final(self).queue()) == is_fifo(old(self).queue()),
            stealer_of(final(self).queue()) == stealer_of(old(self).queue()),
            pops(final(self).queue()) == pops(old(self).queue()).push(
                match attempt {
                    Attempt::Local(task) => Some(task),
                    _ => None,
                },
            ),
            attempt matches Attempt::Local(task) ==> {
                &&& taken(
                    is_fifo(old(self).queue()),
                    worker_tasks(old(self).queue()),
                    task,
                    worker_tasks(final(self).queue()),
                )
                &&& steals(final(self).queue()) == steals(old(self).queue())
                &&& asked_queues(final(self).queue()) == asked_queues(old(self).queue())
                &&& final(self).global().stealers() == old(self).global().stealers()
            },
            !(attempt is Local) ==> exists|rounds: Seq<Round>|
                {
                    &&& #[trigger] attempt.is_result_of(rounds, old(self).global().stealers().len())
                    &&& steals(final(self).queue()) == steals(old(self).queue()) + firsts(rounds)
                    &&& asked_queues(final(self).queue()) == asked_queues(old(self).queue())
                        + Seq::new(rounds.len(), |i: int| old(self).global().shared())
                    &&& robbed(
                        old(self).global().stealers(),
                        final(self).global().stealers(),
                        rounds,
                    )
                    &&& !(rounds.last().first is Success) ==> worker_tasks(final(self).queue())
                        == Seq::<u64>::empty()
                },
            attempt matches Attempt::Stolen(task) ==> steals(final(self).queue()).last()
                == Steal::Success(task) || exists|i: int|
                0 <= i < old(self).global().stealers().len() && thefts(
                    #[trigger] final(self).global().stealers()[i],
                ).last() == Steal::Success(task),
            attempt is Nothing ==> steals(final(self).queue()).last() is Empty && forall|i: int|
                0 <= i < old(self).global().stealers().len() ==> thefts(
                    #[trigger] final(self).global().stealers()[i],
                ).len() > thefts(old(self).global().stealers()[i]).len() && thefts(
                    final(self).global().stealers()[i],
                ).last() is Empty,
    {
        if let Some(task) = pop(&mut self.queue) {
            return Attempt::Local(task);
        }
        let ghost before = steals(self.queue());
        let ghost stealers = self.global().stealers();
        let ghost mut rounds: Seq<Round> = Seq::empty();
        let mut tries: usize = usize::MAX;
        while tries > 0
            invariant
                self.id() == old(self).id(),
                self.global().shared() == old(self).global().shared(),
                self.global().injected() == old(self).global().injected(),
                is_fifo(self.queue()) == is_fifo(old(self).queue()),
                stealer_of(self.queue()) == stealer_of(old(self).queue()),
                pops(self.queue()) == pops(old(self).queue()).push(None),
                before == steals(old(self).queue()),
                stealers == old(self).global().stealers(),
                rounds.len() == usize::MAX - tries,
                forall|i: int|
                    0 <= i < rounds.len() ==> (#[trigger] rounds[i]).valid(stealers.len())
                        && rounds[i].outcome() == Steal::Retry,
                rounds.len() > 0 ==> !(rounds.last().first is Success),
                steals(self.queue()) == before + firsts(rounds),
                asked_queues(self.queue()) == asked_queues(old(self).queue()) + Seq::new(
                    rounds.len(),
                    |i: int| old(self).global().shared(),
                ),
                robbed(stealers, self.global().stealers(), rounds),
                worker_tasks(self.queue()) == Seq::<u64>::empty(),
            decreases tries,
        {
            let ghost between = self.global().stealers();
            let ghost tried = steals(self.queue());
            let stolen = self.global.steal(&mut self.queue);
            proof {
                let round = choose|round: Round|
                    {
                        &&& #[trigger] round.valid(between.len())
                        &&& stolen == round.outcome()
                        &&& steals(self.queue()) == tried.push(round.first)
                        &&& robbed(between, self.global().stealers(), seq![round])
                        &&& !(round.first is Success) ==> worker_tasks(self.queue())
                            == Seq::<u64>::empty()
                    };
                lemma_robbed_again(stealers, between, self.global().stealers(), rounds, round);
                assert(firsts(rounds.push(round)) =~= firsts(rounds).push(round.first));
                assert(before + firsts(rounds.push(round)) =~= tried.push(round.first));
                rounds = rounds.push(round);
            }
            if let Some(attempt) = Attempt::of_steal(stolen) {
                assert(attempt.is_result_of(rounds, stealers.len()));
                proof {
                    lemma_attempt_told(attempt, stealers, self.global().stealers(), rounds);
                }
                return attempt;
            }
            tries -= 1;
        }
        assert(Attempt::Contended.is_result_of(rounds, stealers.len()));
        Attempt::Contended
    }

    /// Marks this worker as idle, before it parks.
    pub fn mark_idle(&self, idle: &mut Idle)
        requires
            self.id() < old(idle)@.len(),
        ensures
            final(idle)@ == old(idle)@.update(self.id() as int, true),
    {
        idle.mark(self.id);
    }

    /// Takes the mark of this worker back, once it has returned from parking.
    pub fn unmark_idle(&self, idle: &mut Idle)
        requires
            self.id() < old(idle)@.len(),
        ensures
            final(idle)@ == old(idle)@.update(self.id() as int, false),
    {
        idle.unmark(self.id);
    }
}

/// What the histories tell of the last of several rounds.
proof fn lemma_attempt_told(
    attempt: Attempt,
    before: Seq<Stealer<u64>>,
    after: Seq<Stealer<u64>>,
    rounds: Seq<Round>,
)
    requires
        attempt.is_result_of(rounds, before.len()),
        robbed(before, after, rounds),
    ensures
        attempt matches Attempt::Stolen(task) ==> firsts(rounds).last() == Steal::Success(task)
            || exists|i: int|
            0 <= i < before.len() && thefts(#[trigger] after[i]).last() == Steal::Success(task),
        attempt is Nothing ==> firsts(rounds).last() is Empty && forall|i: int|
            0 <= i < before.len() ==> thefts(#[trigger] after[i]).len() > thefts(before[i]).len()
                && thefts(after[i]).last() is Empty,
{
    let last = rounds.last();
    assert(last == rounds[rounds.len() - 1]);
    assert(last.valid(before.len()));
    law_round_comes_to(last, before.len());
    law_round_without_a_task_asks_all(last, before.len());
    assert forall|i: int| 0 <= i < last.others.len() implies thefts(#[trigger] after[i]).len()
        > thefts(before[i]).len() && thefts(after[i]).last() == last.others[i] by {
        law_every_round_asks_everyone(before, after, rounds, i, rounds.len() - 1);
    }
    if attempt is Stolen && !(last.first is Success) {
        let giver = last.others.len() - 1;
        assert(thefts(after[giver]).last() == last.others[giver]);
    }
}

/// What the histories tell of one round.
proof fn lemma_round_told(before: Seq<Stealer<u64>>, after: Seq<Stealer<u64>>, round: Round)
    requires
        robbed(before, after, seq![round]),
        round.valid(before.len()),
    ensures
        forall|i: int|
            0 <= i < before.len() ==> thefts(#[trigger] after[i]) == (if i < round.others.len() {
                thefts(before[i]).push(round.others[i])
            } else {
                thefts(before[i])
            }),
        round.outcome() is Empty ==> forall|i: int|
            0 <= i < before.len() ==> thefts(#[trigger] after[i]) == thefts(before[i]).push(
                Steal::Empty,
            ),
        round.outcome() is Success ==> round.first == round.outcome() || exists|i: int|
            0 <= i < before.len() && thefts(#[trigger] after[i]) == thefts(before[i]).push(
                round.outcome(),
            ),
{
    assert forall|i: int| 0 <= i < before.len() implies thefts(#[trigger] after[i]) == (if i
        < round.others.len() {
        thefts(before[i]).push(round.others[i])
    } else {
        thefts(before[i])
    }) && (round.outcome() is Empty ==> thefts(after[i]) == thefts(before[i]).push(
        Steal::Empty,
    )) by {
        law_round_asks_each_worker_once(before, after, round, i);
    }
    law_round_comes_to(round, before.len());
    if round.outcome() is Success && !(round.first is Success) {
        let giver = round.others.len() - 1;
        assert(thefts(after[giver]) == thefts(before[giver]).push(round.others[giver]));
    }
}

/// The histories after one round are those after the only one of its rounds.
proof fn lemma_one_round(before: Seq<Stealer<u64>>, after: Seq<Stealer<u64>>, round: Round)
    requires
        after.len() == before.len(),
        forall|i: int|
            0 <= i < before.len() ==> as_made(#[trigger] after[i]) == as_made(before[i]) && thefts(
                after[i],
            ) == thefts(before[i]) + round.told_by(i),
    ensures
        robbed(before, after, seq![round]),
{
    assert(seq![round].drop_last() =~= Seq::<Round>::empty());
    assert forall|i: int| 0 <= i < before.len() implies as_made(#[trigger] after[i]) == as_made(
        before[i],
    ) && thefts(after[i]) == thefts(before[i]) + told_by(seq![round], i) by {
        reveal_with_fuel(told_by, 2);
        assert(told_by(seq![round], i) =~= round.told_by(i));
    }
}

/// If a worker has marked itself as idle, there is one to unpark for a task, and
/// it is marked.
pub proof fn law_idle_worker_is_unparked(marks: Seq<bool>, id: int, worker: Option<usize>)
    requires
        0 <= id < marks.len(),
        marks[id],
        is_first_marked(marks, worker),
    ensures
        worker matches Some(first) && first <= id && marks[first as int],
{
}

/// A worker that has marked itself is the one to unpark for the next task unless
/// one before it is.
pub proof fn law_marked_worker_is_found(marks: Seq<bool>, id: int, worker: Option<usize>)
    requires
        0 <= id < marks.len(),
        is_first_marked(marks.update(id, true), worker),
    ensures
        worker matches Some(first) && first <= id && (first < id ==> marks[first as int]),
{
    assert(marks.update(id, true)[id]);
}

/// Nobody is unparked as long as no worker has marked itself.
pub proof fn law_busy_workers_are_left_alone(workers: nat, worker: Option<usize>)
    requires
        is_first_marked(Seq::new(workers, |i: int| false), worker),
    ensures
        worker is None,
{
}

/// A worker that has taken its mark back is not unparked.
pub proof fn law_unmarked_worker_is_left_alone(marks: Seq<bool>, id: int, worker: Option<usize>)
    requires
        0 <= id < marks.len(),
        is_first_marked(marks.update(id, false), worker),
    ensures
        worker matches Some(first) ==> first != id,
{
}

/// A task that is not finished when it was polled becomes ready exactly once if it
/// is woken at any time after the poll began, however often, and it keeps waiting
/// if it is not.
pub proof fn law_woken_task_is_queued_once(
    queue: Seq<u64>,
    task: u64,
    during: nat,
    afterwards: nat,
)
    ensures
        ({
            let end = Waiting::begin(queue).woken_times(during).polled(task, true).woken_times(
                afterwards,
            );
            &&& during + afterwards > 0 ==> end.queue == queue.push(task) && end.slot.task is None
            &&& during + afterwards == 0 ==> end.queue == queue && end.slot.task == Some(task)
        }),
    decreases afterwards,
{
    if afterwards > 0 {
        law_woken_task_is_queued_once(queue, task, during, (afterwards - 1) as nat);
    } else {
        lemma_woken_while_polled(queue, during);
    }
}

/// A task that is finished when it was polled is never ready again, however often
/// it is woken.
pub proof fn law_finished_task_stays_finished(
    queue: Seq<u64>,
    task: u64,
    during: nat,
    afterwards: nat,
)
    ensures
        Waiting::begin(queue).woken_times(during).polled(task, false).woken_times(afterwards).queue
            == queue,
        Waiting::begin(queue).woken_times(during).polled(task, false).woken_times(
            afterwards,
        ).slot.task is None,
    decreases afterwards,
{
    if afterwards > 0 {
        law_finished_task_stays_finished(queue, task, during, (afterwards - 1) as nat);
    } else {
        lemma_woken_while_polled(queue, during);
    }
}

/// Waking a task while it is polled is only remembered.
proof fn lemma_woken_while_polled(queue: Seq<u64>, during: nat)
    ensures
        Waiting::begin(queue).woken_times(during) == (Waiting {
            slot: Slot { task: None, woken: during > 0 },
            queue,
        }),
    decreases during,
{
    if during > 0 {
        lemma_woken_while_polled(queue, (during - 1) as nat);
    }
}

/// A task that was stolen is the very one that the shared queue gave in the last
/// round, or else the one that the last worker gave that was asked. There was
/// nothing to do if and only if nobody had anything, in the last round, and nobody
/// was in the way. No round before the last one got a task, so none is lost.
pub proof fn law_stolen_task_was_given(
    attempt: Attempt,
    rounds: Seq<Round>,
    workers: nat,
    task: u64,
    r: int,
    i: int,
)
    requires
        attempt.is_result_of(rounds, workers),
    ensures
        rounds.len() > 0,
        !(attempt is Local),
        attempt == Attempt::Stolen(task) <==> rounds.last().first == Steal::Success(task) || (!(
        rounds.last().first is Success) && rounds.last().others.len() > 0
            && rounds.last().others.last() == Steal::Success(task)),
        attempt is Nothing ==> rounds.last().first is Empty && rounds.last().others.len()
            == workers,
        attempt is Nothing && 0 <= i < workers ==> rounds.last().others[i] is Empty,
        attempt is Contended ==> rounds.len() == usize::MAX,
        0 <= r < rounds.len() && (r < rounds.len() - 1 || !(attempt is Stolen)) ==> !(
        rounds[r].first is Success) && rounds[r].others.len() == workers,
        0 <= r < rounds.len() && (r < rounds.len() - 1 || !(attempt is Stolen)) && 0 <= i < workers
            ==> !(rounds[r].others[i] is Success),
        0 <= r < rounds.len() - 1 ==> rounds[r].first is Retry || exists|j: int|
            0 <= j < workers && #[trigger] rounds[r].others[j] is Retry,
{
    let last = rounds[rounds.len() - 1];
    assert(last.valid(workers));
    law_round_comes_to(last, workers);
    law_round_without_a_task_asks_all(last, workers);
    law_attempts_come_to(last.others);
    if 0 <= r < rounds.len() {
        assert(rounds[r].valid(workers));
        law_round_without_a_task_asks_all(rounds[r], workers);
    }
}

/// Waking a task that waits puts that very task at the end of the queue, and it
/// waits no longer. Waking one that does not wait puts nothing there, and is
/// remembered.
pub proof fn law_wake_queues_the_waiting_task(waiting: Waiting, task: u64)
    ensures
        waiting.slot.task == Some(task) ==> waiting.woken().queue == waiting.queue.push(task),
        waiting.slot.task == Some(task) ==> waiting.woken().slot.woken == waiting.slot.woken,
        waiting.slot.task is None ==> waiting.woken().queue == waiting.queue
            && waiting.woken().slot.woken,
        waiting.woken().slot.task is None,
{
}

/// A task that was polled and is not finished waits under its own number, unless it
/// was woken meanwhile: then it is at the end of the queue instead. One that is
/// finished is in neither place.
pub proof fn law_pending_task_waits_or_is_queued(waiting: Waiting, task: u64, pending: bool)
    ensures
        ({
            let after = waiting.polled(task, pending);
            &&& after.slot.woken == waiting.slot.woken
            &&& !pending ==> after == waiting
            &&& pending && waiting.slot.woken ==> after.queue == waiting.queue.push(task)
                && after.slot.task == waiting.slot.task
            &&& pending && !waiting.slot.woken ==> after.queue == waiting.queue && after.slot.task
                == Some(task)
        }),
{
}

/// Whoever is unparked is marked, and nobody before it is. Nobody is unparked if and
/// only if nobody is marked.
pub proof fn law_first_marked_worker_is_unparked(marks: Seq<bool>, worker: Option<usize>, id: int)
    requires
        is_first_marked(marks, worker),
    ensures
        worker matches Some(first) ==> first < marks.len() && marks[first as int] && (0 <= id
            < first ==> !marks[id]),
        worker is None && 0 <= id < marks.len() ==> !marks[id],
{
}

} // verus!
