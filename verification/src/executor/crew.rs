//! What the workers promise together: no task waits while all of them sleep.
use crate::executor::worker::{marks, PollOnce, WorkTurn, WorkerEvent, Working};
use crate::executor::{is_first_marked, Attempt};
use vstd::prelude::*;

verus! {

/// All workers, the tasks that are ready, and those who made them ready. Tasks are
/// numbered in the order in which they became ready.
pub ghost struct Crew {
    /// The workers.
    pub workers: Seq<Working>,
    /// How many tasks had become ready when each worker last began to look for one.
    pub since: Seq<nat>,
    /// The tasks that wait in the shared queue.
    pub waiting: Set<nat>,
    /// For each worker, the tasks that wait in its own queue, or are on their way
    /// there from the shared queue.
    pub held: Seq<Set<nat>>,
    /// How many tasks have become ready so far.
    pub count: nat,
    /// The tasks for which nobody has looked for an idle worker yet.
    pub unannounced: Set<nat>,
    /// For each worker, how many are about to unpark it.
    pub unparkers: Seq<nat>,
}

/// What happens next to a [`Crew`].
pub ghost enum CrewTurn {
    /// A worker that looks for a task takes some from the shared queue, to keep them
    /// in its own. Nobody else finds them before they are there.
    Grab(int, Set<nat>),
    /// A worker gets one of the tasks, from the shared queue or from where a worker,
    /// itself or another, keeps it.
    Find(int, nat, Attempt),
    /// A worker finds nothing to do: its own queue is empty, and whatever waits in
    /// the shared queue became ready after it began to look. What other workers keep
    /// may have escaped it.
    Miss(int),
    /// A worker does something else, or returns from parking.
    Other(int, WorkTurn),
    /// A task becomes ready and is put into the shared queue.
    Push,
    /// Whoever made a task ready looks for an idle worker, and finds one or none.
    Look(nat, Option<usize>),
    /// Somebody unparks a worker.
    Unpark(int),
}

impl Crew {
    /// So many workers have just begun, and nothing is ready.
    pub open spec fn begin(n: nat) -> Crew {
        Crew {
            workers: Seq::new(n, |i: int| Working::begin()),
            since: Seq::new(n, |i: int| 0nat),
            waiting: Set::empty(),
            held: Seq::new(n, |i: int| Set::<nat>::empty()),
            count: 0,
            unannounced: Set::empty(),
            unparkers: Seq::new(n, |i: int| 0nat),
        }
    }

    /// Whether a task waits, wherever that is.
    pub open spec fn is_ready(self, task: nat) -> bool {
        self.waiting.contains(task) || exists|j: int|
            0 <= j < self.held.len() && (#[trigger] self.held[j]).contains(task)
    }

    /// Whether this can happen next.
    pub open spec fn can(self, turn: CrewTurn) -> bool {
        match turn {
            CrewTurn::Grab(i, tasks) => {
                &&& 0 <= i < self.workers.len()
                &&& self.workers[i].stage is Seek || self.workers[i].stage is Recheck
                &&& tasks.subset_of(self.waiting)
            },
            CrewTurn::Find(i, task, attempt) => {
                &&& 0 <= i < self.workers.len()
                &&& self.is_ready(task)
                &&& attempt is Local || attempt is Stolen
                &&& self.workers[i].can(WorkTurn::Step(WorkerEvent::Sought(attempt)))
            },
            CrewTurn::Miss(i) => {
                &&& 0 <= i < self.workers.len()
                &&& self.held[i] == Set::<nat>::empty()
                &&& forall|task: nat| #[trigger]
                    self.waiting.contains(task) ==> task >= self.since[i]
                &&& self.workers[i].can(WorkTurn::Step(WorkerEvent::Sought(Attempt::Nothing)))
            },
            CrewTurn::Other(i, turn) => {
                &&& 0 <= i < self.workers.len()
                &&& self.workers[i].can(turn)
                &&& match turn {
                    WorkTurn::Step(WorkerEvent::Sought(attempt)) => attempt is Contended,
                    WorkTurn::Unpark => false,
                    _ => true,
                }
            },
            CrewTurn::Push => true,
            CrewTurn::Look(task, worker) => {
                &&& self.unannounced.contains(task)
                &&& is_first_marked(marks(self.workers), worker)
            },
            CrewTurn::Unpark(i) => 0 <= i < self.workers.len() && self.unparkers[i] > 0,
        }
    }

    /// How things stand after worker `i` did this. It begins to look for a task
    /// whenever it comes to where it does so.
    pub open spec fn step(self, i: int, turn: WorkTurn) -> Crew {
        let worker = self.workers[i].after(turn);
        Crew {
            workers: self.workers.update(i, worker),
            since: if worker.stage is Seek || worker.stage is Recheck {
                self.since.update(i, self.count)
            } else {
                self.since
            },
            ..self
        }
    }

    /// How things stand after this.
    pub open spec fn after(self, turn: CrewTurn) -> Crew {
        match turn {
            CrewTurn::Grab(i, tasks) => Crew {
                waiting: self.waiting.difference(tasks),
                held: self.held.update(i, self.held[i].union(tasks)),
                ..self
            },
            CrewTurn::Find(i, task, attempt) => Crew {
                waiting: self.waiting.remove(task),
                held: self.held.map_values(|tasks: Set<nat>| tasks.remove(task)),
                ..self.step(i, WorkTurn::Step(WorkerEvent::Sought(attempt)))
            },
            CrewTurn::Miss(i) => self.step(
                i,
                WorkTurn::Step(WorkerEvent::Sought(Attempt::Nothing)),
            ),
            CrewTurn::Other(i, turn) => self.step(i, turn),
            CrewTurn::Push => Crew {
                waiting: self.waiting.insert(self.count),
                unannounced: self.unannounced.insert(self.count),
                count: self.count + 1,
                ..self
            },
            CrewTurn::Look(task, worker) => Crew {
                unannounced: self.unannounced.remove(task),
                unparkers: match worker {
                    Some(i) => self.unparkers.update(i as int, self.unparkers[i as int] + 1),
                    None => self.unparkers,
                },
                ..self
            },
            CrewTurn::Unpark(i) => Crew {
                workers: self.workers.update(i, self.workers[i].after(WorkTurn::Unpark)),
                unparkers: self.unparkers.update(i, (self.unparkers[i] - 1) as nat),
                ..self
            },
        }
    }

    /// Whether worker `i` is unparked, or about to be.
    pub open spec fn is_called(self, i: int) -> bool {
        self.workers[i].unparked || self.unparkers[i] > 0
    }

    /// Whether worker `i` finds `task`, if that still waits, before it can stay
    /// asleep.
    pub open spec fn will_see(self, i: int, task: nat) -> bool {
        ||| self.is_called(i)
        ||| match self.workers[i].stage {
            PollOnce::Park => false,
            PollOnce::Recheck => self.since[i] > task,
            _ => true,
        }
    }

    /// What holds at any time: of every task that waits in the shared queue, somebody
    /// is about to tell an idle worker, or a worker will find it; and no worker that
    /// keeps tasks is parked, or on the way there or back without one.
    pub open spec fn inv(self) -> bool {
        &&& self.workers.len() > 0
        &&& self.since.len() == self.workers.len()
        &&& self.unparkers.len() == self.workers.len()
        &&& self.held.len() == self.workers.len()
        &&& forall|i: int|
            0 <= i < self.workers.len() && #[trigger] self.held[i] != Set::<nat>::empty() ==> {
                let stage = self.workers[i].stage;
                !(stage is Mark) && !(stage is Park) && stage != PollOnce::Unmark(None)
            }
        &&& forall|i: int| 0 <= i < self.workers.len() ==> (#[trigger] self.workers[i]).inv()
        &&& forall|task: nat| #[trigger] self.waiting.contains(task) ==> task < self.count
        &&& forall|task: nat| #[trigger]
            self.waiting.contains(task) ==> self.unannounced.contains(task) || exists|i: int|
                0 <= i < self.workers.len() && #[trigger] self.will_see(i, task)
    }

    /// Whether all of these can happen, one after the other.
    pub open spec fn possible(self, turns: Seq<CrewTurn>) -> bool
        decreases turns.len(),
    {
        turns.len() > 0 ==> self.possible(turns.drop_last()) && self.run(turns.drop_last()).can(
            turns.last(),
        )
    }

    /// How things stand after all of these.
    pub open spec fn run(self, turns: Seq<CrewTurn>) -> Crew
        decreases turns.len(),
    {
        if turns.len() == 0 {
            self
        } else {
            self.run(turns.drop_last()).after(turns.last())
        }
    }
}

/// Whatever happens next keeps what holds at any time.
pub proof fn law_crew_stays_sound(crew: Crew, turn: CrewTurn)
    requires
        crew.inv(),
        crew.can(turn),
    ensures
        crew.after(turn).inv(),
{
    let next = crew.after(turn);
    assert forall|i: int|
        0 <= i < next.workers.len() && #[trigger] next.held[i] != Set::<nat>::empty() implies {
        let stage = next.workers[i].stage;
        !(stage is Mark) && !(stage is Park) && stage != PollOnce::Unmark(None)
    } by {
        if crew.held[i] == Set::<nat>::empty() {
            if let CrewTurn::Find(_, task, _) = turn {
                assert(next.held[i] =~= Set::<nat>::empty());
            }
        }
    }
    assert forall|task: nat| #[trigger] next.waiting.contains(task) implies next.unannounced.contains(
        task,
    ) || exists|i: int| 0 <= i < next.workers.len() && #[trigger] next.will_see(i, task) by {
        if crew.waiting.contains(task) && !next.unannounced.contains(task) {
            if crew.unannounced.contains(task) {
                // its announcement has just been made
                match turn {
                    CrewTurn::Look(_, Some(i)) => {
                        assert(next.will_see(i as int, task));
                    },
                    _ => {
                        assert(!marks(crew.workers)[0]);
                        assert(crew.workers[0].inv());
                        assert(next.will_see(0, task));
                    },
                }
            } else {
                let i = choose|i: int|
                    0 <= i < crew.workers.len() && #[trigger] crew.will_see(i, task);
                assert(next.will_see(i, task));
            }
        }
    }
}

/// What holds at any time always does.
pub proof fn law_crew_always_sound(n: nat, turns: Seq<CrewTurn>)
    requires
        n > 0,
        Crew::begin(n).possible(turns),
    ensures
        Crew::begin(n).run(turns).inv(),
    decreases turns.len(),
{
    if turns.len() > 0 {
        law_crew_always_sound(n, turns.drop_last());
        law_crew_stays_sound(Crew::begin(n).run(turns.drop_last()), turns.last());
    }
}

/// No task is left behind: if one waits, in whatever queue or on the way to one,
/// while all workers are parked, one of them is unparked or about to be, or whoever
/// made the task ready is yet to look for one.
pub proof fn law_no_task_is_left_behind(n: nat, turns: Seq<CrewTurn>, task: nat)
    requires
        n > 0,
        Crew::begin(n).possible(turns),
        Crew::begin(n).run(turns).is_ready(task),
        forall|i: int|
            0 <= i < n ==> (#[trigger] Crew::begin(n).run(turns).workers[i]).stage is Park,
    ensures
        Crew::begin(n).run(turns).unannounced.contains(task) || exists|i: int|
            0 <= i < n && #[trigger] Crew::begin(n).run(turns).is_called(i),
{
    law_crew_always_sound(n, turns);
    lemma_crew_keeps_its_size(n, turns);
    let now = Crew::begin(n).run(turns);
    if !now.waiting.contains(task) {
        let j = choose|j: int| 0 <= j < now.held.len() && (#[trigger] now.held[j]).contains(task);
        assert(now.held[j] != Set::<nat>::empty());
        assert(now.workers[j].stage is Park);
    }
    if !now.unannounced.contains(task) {
        let i = choose|i: int| 0 <= i < now.workers.len() && #[trigger] now.will_see(i, task);
        assert(now.workers[i].stage is Park);
        assert(now.is_called(i));
    }
}

/// A task that a worker keeps is never kept by one that sleeps.
pub proof fn law_sleeping_workers_keep_nothing(n: nat, turns: Seq<CrewTurn>, i: int)
    requires
        n > 0,
        Crew::begin(n).possible(turns),
        0 <= i < n,
        Crew::begin(n).run(turns).workers[i].stage is Park,
    ensures
        Crew::begin(n).run(turns).held[i] == Set::<nat>::empty(),
{
    law_crew_always_sound(n, turns);
    lemma_crew_keeps_its_size(n, turns);
}

/// Nobody joins the workers, and nobody leaves.
proof fn lemma_crew_keeps_its_size(n: nat, turns: Seq<CrewTurn>)
    requires
        Crew::begin(n).possible(turns),
    ensures
        Crew::begin(n).run(turns).workers.len() == n,
    decreases turns.len(),
{
    if turns.len() > 0 {
        lemma_crew_keeps_its_size(n, turns.drop_last());
    }
}

/// A worker that gets a task goes on to poll the one with that number, and no other:
/// it takes its mark back before if it had one.
pub proof fn law_found_task_is_polled(crew: Crew, i: int, birth: nat, attempt: Attempt, task: u64)
    requires
        crew.inv(),
        crew.can(CrewTurn::Find(i, birth, attempt)),
        attempt == Attempt::Local(task) || attempt == Attempt::Stolen(task),
    ensures
        ({
            let stage = crew.after(CrewTurn::Find(i, birth, attempt)).workers[i].stage;
            &&& stage == PollOnce::Poll(task) || stage == PollOnce::Unmark(Some(task))
            &&& crew.workers[i].stage is Seek ==> stage == PollOnce::Poll(task)
            &&& crew.workers[i].stage is Recheck ==> stage.next(WorkerEvent::Unmarked)
                == PollOnce::Poll(task)
        }),
{
}

} // verus!
