//! The runtime: its workers, and how a thread waits for a future of its own.
use crate::executor::queues::{
    as_made, asked_queues, is_fifo, new_fifo, new_injector, pops, stealer, stealer_of, steals, thefts,
    worker_tasks, Steal,
};
use crate::executor::{GlobalExecutor, Idle, LocalExecutor};
use crate::task::Poll;
use crossbeam_deque::{Injector, Stealer, Worker};
use std::sync::Arc;
use vstd::prelude::*;

verus! {

/// How many workers a runtime has where nobody says how many threads can run at
/// once.
pub const FALLBACK_WORKERS: usize = 4;

/// After how many tasks a worker lets the reactor do its work.
pub const MAINTENANCE_INTERVAL: u8 = 61;

/// How many workers a runtime has: as many as threads can run at once.
pub fn default_workers(parallelism: Option<usize>) -> (workers: usize)
    ensures
        workers == (match parallelism {
            Some(n) => n,
            None => FALLBACK_WORKERS,
        }),
        parallelism is None ==> workers == 4,
{
    match parallelism {
        Some(n) => n,
        None => FALLBACK_WORKERS,
    }
}

/// The workers of a runtime, before they are started.
pub struct Runtime {
    /// What the workers have in common.
    pub global: GlobalExecutor,
    /// The workers.
    pub locals: Vec<LocalExecutor>,
    /// Which of the workers are idle.
    pub idle: Idle,
}

/// Whether nothing happened to a queue yet, which hands out what has waited the
/// longest, and `stealer` is the handle to steal from it.
pub open spec fn is_new_queue(queue: Worker<u64>, stealer: Stealer<u64>) -> bool {
    &&& worker_tasks(queue) == Seq::<u64>::empty()
    &&& pops(queue) == Seq::<Option<u64>>::empty()
    &&& steals(queue) == Seq::<Steal>::empty()
    &&& asked_queues(queue) == Seq::<Arc<Injector<u64>>>::empty()
    &&& is_fifo(queue)
    &&& stealer == stealer_of(queue)
    &&& as_made(stealer) == stealer
    &&& thefts(stealer) == Seq::<Steal>::empty()
}

/// Whether this is the worker with number `i`, with nothing to do yet: it shares one
/// queue with the others, and they can steal from it.
pub open spec fn is_new_worker(local: LocalExecutor, i: int, global: GlobalExecutor) -> bool {
    &&& local.id() == i
    &&& local.global().shared() == global.shared()
    &&& local.global().injected() == global.injected()
    &&& local.global().stealers() == global.stealers()
    &&& is_new_queue(local.queue(), global.stealers()[i])
}

impl Runtime {
    /// So many workers that share a queue and can steal from each other.
    #[must_use]
    pub fn new(n_workers: usize) -> (runtime: Runtime)
        ensures
            runtime.global.injected() == Seq::<u64>::empty(),
            runtime.global.stealers().len() == n_workers,
            runtime.locals@.len() == n_workers,
            forall|i: int|
                0 <= i < n_workers ==> is_new_worker(#[trigger] runtime.locals@[i], i, runtime.global),
            runtime.idle@ == Seq::new(n_workers as nat, |i: int| false),
            forall|i: int|
                0 <= i < n_workers ==> {
                    &&& (#[trigger] runtime.locals@[i]).id() == i
                    &&& runtime.locals@[i].global().shared() == runtime.global.shared()
                    &&& runtime.locals@[i].global().stealers() == runtime.global.stealers()
                    &&& runtime.global.stealers()[i] == stealer_of(runtime.locals@[i].queue())
                    &&& worker_tasks(runtime.locals@[i].queue()) == Seq::<u64>::empty()
                    &&& is_fifo(runtime.locals@[i].queue())
                },
    {
        let injector = Arc::new(new_injector());
        let mut stealers: Vec<Stealer<u64>> = Vec::new();
        let mut workers: Vec<Worker<u64>> = Vec::new();
        let mut n: usize = 0;
        while n < n_workers
            invariant
                n <= n_workers,
                stealers@.len() == n,
                workers@.len() == n,
                forall|i: int|
                    0 <= i < n ==> is_new_queue(#[trigger] workers@[i], stealers@[i]),
            decreases n_workers - n,
        {
            let worker = new_fifo();
            stealers.push(stealer(&worker));
            workers.push(worker);
            n += 1;
        }
        let ghost made = stealers@;
        let ghost queues = workers@;
        let (global, idle) = GlobalExecutor::new(injector, stealers, n_workers);
        let mut locals: Vec<LocalExecutor> = Vec::new();
        let mut id: usize = n_workers;
        while id > 0
            invariant
                id <= n_workers,
                global.stealers() == made,
                made.len() == n_workers,
                queues.len() == n_workers,
                workers@ == queues.take(id as int),
                locals@.len() == n_workers - id,
                forall|i: int|
                    0 <= i < n_workers ==> is_new_queue(#[trigger] queues[i], made[i]),
                forall|i: int|
                    0 <= i < n_workers - id ==> is_new_worker(
                        #[trigger] locals@[i],
                        id + i,
                        global,
                    ),
            decreases id,
        {
            id -= 1;
            let ghost before = locals@;
            if let Some(worker) = workers.pop() {
                assert(worker == queues[id as int]);
                locals.insert(0, LocalExecutor::new(id, worker, global.clone()));
                assert forall|i: int| 0 <= i < n_workers - id implies is_new_worker(
                    #[trigger] locals@[i],
                    id + i,
                    global,
                ) by {
                    if i > 0 {
                        assert(locals@[i] == before[i - 1]);
                    }
                }
            }
        }
        Runtime { global, locals, idle }
    }
}

/// Counts the tasks that a worker has polled.
#[derive(Debug)]
pub struct Ticks {
    polled: u8,
}

impl View for Ticks {
    type V = int;

    closed spec fn view(&self) -> int {
        self.polled as int
    }
}

impl Ticks {
    #[verifier::type_invariant]
    spec fn in_range(self) -> bool {
        self.polled < MAINTENANCE_INTERVAL
    }

    /// Nothing was polled yet.
    pub fn new() -> (ticks: Ticks)
        ensures
            ticks@ == 0,
    {
        Ticks { polled: 0 }
    }

    /// Counts a task, and tells whether it is time to let the reactor do its
    /// work.
    pub fn tick(&mut self) -> (maintenance: bool)
        ensures
            final(self)@ == (old(self)@ + 1) % (MAINTENANCE_INTERVAL as int),
            maintenance == (final(self)@ == 0),
    {
        proof {
            use_type_invariant(&*self);
        }
        self.polled = (self.polled + 1) % MAINTENANCE_INTERVAL;
        self.polled == 0
    }
}

/// The count after so many tasks.
pub open spec fn ticks_after(tasks: nat) -> int
    decreases tasks,
{
    if tasks == 0 {
        0
    } else {
        (ticks_after((tasks - 1) as nat) + 1) % (MAINTENANCE_INTERVAL as int)
    }
}

/// A worker lets the reactor do its work after every task whose number is a
/// multiple of the interval, and after no other.
pub proof fn law_maintenance_is_regular(tasks: nat)
    ensures
        ticks_after(tasks) == tasks % (MAINTENANCE_INTERVAL as nat),
        ticks_after(tasks) == 0 <==> tasks % (MAINTENANCE_INTERVAL as nat) == 0,
        0 <= ticks_after(tasks) < MAINTENANCE_INTERVAL,
    decreases tasks,
{
    if tasks > 0 {
        law_maintenance_is_regular((tasks - 1) as nat);
    }
}

/// How far a thread has come that runs a future of its own until it is finished.
/// The thread shares a flag with the waker of the future: whether the future is
/// ready to be polled. It is at first.
#[derive(Clone, Copy, PartialEq, Eq, Structural, Debug)]
pub enum BlockOn {
    /// About to read the flag, replacing it with false.
    Load,
    /// About to poll the future.
    Poll,
    /// About to park.
    Park,
}

/// What came of a stage of [`BlockOn`].
#[derive(Debug)]
pub enum BlockEvent<T> {
    /// What the flag was before it was replaced.
    Loaded(bool),
    /// What the poll of the future came to.
    Polled(Poll<T>),
    /// The thread is no longer parked.
    Unparked,
}

/// How the thread goes on.
#[derive(Debug)]
pub enum BlockStep<T> {
    /// With another stage.
    Go(BlockOn),
    /// With what the future has come to.
    Return(T),
}

impl BlockOn {
    /// Whether `event` can come of this stage.
    pub open spec fn expects<T>(self, event: BlockEvent<T>) -> bool {
        match self {
            BlockOn::Load => event is Loaded,
            BlockOn::Poll => event is Polled,
            BlockOn::Park => event is Unparked,
        }
    }

    /// How the thread goes on after `event`.
    pub open spec fn next<T>(self, event: BlockEvent<T>) -> BlockStep<T> {
        match event {
            BlockEvent::Loaded(ready) => BlockStep::Go(
                if ready {
                    BlockOn::Poll
                } else {
                    BlockOn::Park
                },
            ),
            BlockEvent::Polled(Poll::Ready(value)) => BlockStep::Return(value),
            BlockEvent::Polled(Poll::Pending) => BlockStep::Go(BlockOn::Load),
            BlockEvent::Unparked => BlockStep::Go(BlockOn::Load),
        }
    }

    /// Where the thread begins.
    pub fn new() -> (stage: BlockOn)
        ensures
            stage == BlockOn::Load,
    {
        BlockOn::Load
    }

    /// Goes on after `event`.
    pub fn advance<T>(self, event: BlockEvent<T>) -> (step: BlockStep<T>)
        requires
            self.expects(event),
        ensures
            step == self.next(event),
            event matches BlockEvent::Polled(Poll::Ready(value)) ==> step == BlockStep::Return(
                value,
            ),
            event matches BlockEvent::Loaded(ready) ==> step == BlockStep::<T>::Go(
                if ready {
                    BlockOn::Poll
                } else {
                    BlockOn::Park
                },
            ),
    {
        match event {
            BlockEvent::Loaded(ready) => BlockStep::Go(
                if ready {
                    BlockOn::Poll
                } else {
                    BlockOn::Park
                },
            ),
            BlockEvent::Polled(Poll::Ready(value)) => BlockStep::Return(value),
            BlockEvent::Polled(Poll::Pending) => BlockStep::Go(BlockOn::Load),
            BlockEvent::Unparked => BlockStep::Go(BlockOn::Load),
        }
    }
}

/// A thread that runs a future of its own, and those that wake it.
pub ghost struct Blocking {
    /// How far the thread has come.
    pub stage: BlockOn,
    /// The flag.
    pub ready: bool,
    /// Whether the thread was unparked since it last returned from parking.
    pub unparked: bool,
    /// How many wakers have set the flag and are yet to unpark the thread.
    pub wakers: nat,
    /// Whether the future was woken since the thread last went on to poll it.
    pub owed: bool,
}

/// What happens next to a [`Blocking`].
pub ghost enum BlockTurn {
    /// The thread reads the flag, replacing it with false.
    Load,
    /// The future turns out not to be finished.
    Pending,
    /// The thread returns from parking because it was unparked.
    Return,
    /// The thread returns from parking for no reason.
    ReturnEarly,
    /// A waker sets the flag.
    Wake,
    /// A waker unparks the thread.
    Unpark,
}

impl Blocking {
    /// The thread has just begun.
    pub open spec fn begin() -> Blocking {
        Blocking { stage: BlockOn::Load, ready: true, unparked: false, wakers: 0, owed: false }
    }

    /// Whether this can happen next.
    pub open spec fn can(self, turn: BlockTurn) -> bool {
        match turn {
            BlockTurn::Load => self.stage is Load,
            BlockTurn::Pending => self.stage is Poll,
            BlockTurn::Return => self.stage is Park && self.unparked,
            BlockTurn::ReturnEarly => self.stage is Park,
            BlockTurn::Wake => true,
            BlockTurn::Unpark => self.wakers > 0,
        }
    }

    /// The stage that the thread goes on with after `event`.
    pub open spec fn go(self, event: BlockEvent<()>) -> BlockOn {
        match self.stage.next(event) {
            BlockStep::Go(stage) => stage,
            BlockStep::Return(_) => self.stage,
        }
    }

    /// How things stand after this.
    pub open spec fn after(self, turn: BlockTurn) -> Blocking {
        match turn {
            BlockTurn::Load => {
                let stage = self.go(BlockEvent::Loaded(self.ready));
                Blocking { stage, ready: false, owed: self.owed && !(stage is Poll), ..self }
            },
            BlockTurn::Pending => Blocking {
                stage: self.go(BlockEvent::Polled(Poll::Pending)),
                ..self
            },
            BlockTurn::Return => Blocking {
                stage: self.go(BlockEvent::Unparked),
                unparked: false,
                ..self
            },
            BlockTurn::ReturnEarly => Blocking {
                stage: self.go(BlockEvent::Unparked),
                ..self
            },
            BlockTurn::Wake => Blocking {
                ready: true,
                wakers: self.wakers + 1,
                owed: true,
                ..self
            },
            BlockTurn::Unpark => Blocking {
                unparked: true,
                wakers: (self.wakers - 1) as nat,
                ..self
            },
        }
    }

    /// Whether all of these can happen, one after the other.
    pub open spec fn possible(self, turns: Seq<BlockTurn>) -> bool
        decreases turns.len(),
    {
        turns.len() > 0 ==> self.possible(turns.drop_last()) && self.run(turns.drop_last()).can(
            turns.last(),
        )
    }

    /// How things stand after all of these.
    pub open spec fn run(self, turns: Seq<BlockTurn>) -> Blocking
        decreases turns.len(),
    {
        if turns.len() == 0 {
            self
        } else {
            self.run(turns.drop_last()).after(turns.last())
        }
    }

    /// What holds at any time.
    pub open spec fn inv(self) -> bool {
        &&& self.owed ==> self.ready
        &&& self.stage is Park && self.ready ==> self.unparked || self.wakers > 0
    }
}

/// Whatever happens keeps what holds at any time.
pub proof fn law_blocking_always_sound(turns: Seq<BlockTurn>)
    requires
        Blocking::begin().possible(turns),
    ensures
        Blocking::begin().run(turns).inv(),
    decreases turns.len(),
{
    if turns.len() > 0 {
        law_blocking_always_sound(turns.drop_last());
    }
}

/// No wake is missed, whenever it comes: until the thread goes on to poll the
/// future, the flag stays set. A poll that is under way is followed by another
/// one, and a thread that has parked is unparked, or is about to be.
pub proof fn law_blocked_thread_sees_wake(turns: Seq<BlockTurn>)
    requires
        Blocking::begin().possible(turns),
        Blocking::begin().run(turns).owed,
    ensures
        ({
            let now = Blocking::begin().run(turns);
            &&& now.ready
            &&& now.stage is Load ==> now.after(BlockTurn::Load).stage is Poll
            &&& now.stage is Poll ==> now.after(BlockTurn::Pending).after(
                BlockTurn::Load,
            ).stage is Poll
            &&& now.stage is Park ==> now.unparked || now.wakers > 0
            &&& now.stage is Park ==> now.after(BlockTurn::Return).after(
                BlockTurn::Load,
            ).stage is Poll
        }),
{
    law_blocking_always_sound(turns);
}

/// A wake is owed a poll, whatever the thread is doing when it comes.
pub proof fn law_wake_is_owed_a_poll(now: Blocking)
    ensures
        now.after(BlockTurn::Wake).owed,
{
}

/// The future is polled before the thread parks for the first time.
pub proof fn law_future_is_polled_first()
    ensures
        Blocking::begin().after(BlockTurn::Load).stage is Poll,
{
}

/// A future that was not finished is not polled again before it is woken.
pub proof fn law_unwoken_future_is_not_polled(now: Blocking, turns: Seq<BlockTurn>)
    requires
        now.stage is Load,
        !now.ready,
        now.possible(turns),
        forall|i: int| 0 <= i < turns.len() ==> !(#[trigger] turns[i] is Wake),
    ensures
        !now.run(turns).ready,
        now.run(turns).stage is Load || now.run(turns).stage is Park,
    decreases turns.len(),
{
    if turns.len() > 0 {
        assert forall|i: int| 0 <= i < turns.drop_last().len() implies !(
        #[trigger] turns.drop_last()[i] is Wake) by {
            assert(!(turns[i] is Wake));
        }
        law_unwoken_future_is_not_polled(now, turns.drop_last());
        assert(!(turns[turns.len() - 1] is Wake));
    }
}

/// Each worker begins under its own number, with an empty queue of its own that
/// others can steal from through the handle with that number, and with the shared
/// queue that all others have too.
pub proof fn law_new_workers_know_each_other(
    local: LocalExecutor,
    other: LocalExecutor,
    i: int,
    j: int,
    global: GlobalExecutor,
)
    requires
        is_new_worker(local, i, global),
        is_new_worker(other, j, global),
    ensures
        local.id() == i,
        local.id() == other.id() ==> i == j,
        local.global().shared() == other.global().shared(),
        local.global().stealers() == other.global().stealers(),
        local.global().stealers()[j] == stealer_of(other.queue()),
        other.global().stealers()[i] == stealer_of(local.queue()),
        thefts(global.stealers()[i]) == Seq::<Steal>::empty(),
        worker_tasks(local.queue()) == Seq::<u64>::empty(),
        pops(local.queue()) == Seq::<Option<u64>>::empty(),
        steals(local.queue()) == Seq::<Steal>::empty(),
        asked_queues(local.queue()) == Seq::<Arc<Injector<u64>>>::empty(),
        is_fifo(local.queue()),
{
}

/// Between one time that a worker lets the reactor do its work and the next, it
/// polls 61 tasks, whatever it has polled before.
pub proof fn law_maintenance_comes_after_as_many_tasks(tasks: nat, more: nat)
    requires
        ticks_after(tasks) == 0,
        0 < more <= 61,
    ensures
        ticks_after(tasks + more) == 0 <==> more == 61,
        ticks_after(61) == 0,
{
    law_maintenance_is_regular(tasks);
    law_maintenance_is_regular(tasks + more);
    law_maintenance_is_regular(61);
}

/// A thread that runs a future returns the very value that the future has come to,
/// and returns at no other time.
pub proof fn law_value_of_future_is_returned<T>(stage: BlockOn, event: BlockEvent<T>, value: T)
    requires
        stage.expects(event),
    ensures
        stage is Poll <==> event is Polled,
        BlockOn::Poll.next(BlockEvent::Polled(Poll::Ready(value))) == BlockStep::Return(value),
        stage.next(event) == BlockStep::Return(value) <==> event == BlockEvent::Polled(
            Poll::Ready(value),
        ),
        stage.next(event) is Return ==> stage is Poll && event->Polled_0 is Ready,
{
}

/// The thread polls the future if and only if it finds the flag set, parks if and
/// only if it does not, and looks at the flag again after either.
pub proof fn law_flag_decides_between_poll_and_park<T>(
    stage: BlockOn,
    event: BlockEvent<T>,
    ready: bool,
)
    requires
        stage.expects(event),
    ensures
        BlockOn::Load.expects(BlockEvent::<T>::Loaded(ready)),
        stage.next(event) == BlockStep::<T>::Go(BlockOn::Poll) <==> event == BlockEvent::<
            T,
        >::Loaded(true),
        stage.next(event) == BlockStep::<T>::Go(BlockOn::Park) <==> event == BlockEvent::<
            T,
        >::Loaded(false),
        stage.next(event) == BlockStep::<T>::Go(BlockOn::Load) <==> event is Unparked || event
            == BlockEvent::<T>::Polled(Poll::Pending),
{
}

/// Whatever can come of a stage is accepted there, and nothing else is.
pub proof fn law_blocked_thread_accepts_every_outcome<T>(
    stage: BlockOn,
    ready: bool,
    polled: Poll<T>,
)
    ensures
        stage.expects(BlockEvent::<T>::Loaded(ready)) <==> stage is Load,
        stage.expects(BlockEvent::Polled(polled)) <==> stage is Poll,
        stage.expects(BlockEvent::<T>::Unparked) <==> stage is Park,
{
}

} // verus!
