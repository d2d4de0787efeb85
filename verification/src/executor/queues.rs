//! The queues that tasks wait in: one that all threads put tasks into, and one
//! for each worker, from which the other workers may steal.
//!
//! A task is known by its number.
use crossbeam_deque::{Injector, Stealer, Worker};
use std::sync::Arc;
use vstd::prelude::*;

verus! {

/// A queue of one worker, [`crossbeam_deque::Worker`].
#[verifier::external_type_specification]
#[verifier::external_body]
#[verifier::reject_recursive_types(T)]
pub struct ExWorker<T>(crossbeam_deque::Worker<T>);

/// A handle to steal from the queue of a worker, [`crossbeam_deque::Stealer`].
#[verifier::external_type_specification]
#[verifier::external_body]
#[verifier::reject_recursive_types(T)]
pub struct ExStealer<T>(crossbeam_deque::Stealer<T>);

/// A queue that all threads share, [`crossbeam_deque::Injector`].
#[verifier::external_type_specification]
#[verifier::external_body]
#[verifier::reject_recursive_types(T)]
pub struct ExInjector<T>(crossbeam_deque::Injector<T>);

/// The tasks in the queue of a worker, as far as its owner knows. Thieves take
/// tasks from the front at any time; the owner takes notice of that when it next
/// takes a task itself.
pub uninterp spec fn worker_tasks(queue: Worker<u64>) -> Seq<u64>;

/// What the owner of a queue got each time that it wanted to take a task out of
/// it, the first time first.
pub uninterp spec fn pops(queue: Worker<u64>) -> Seq<Option<u64>>;

/// What came of each attempt to steal from a shared queue with this queue as the
/// one that further tasks go to, the first attempt first.
pub uninterp spec fn steals(queue: Worker<u64>) -> Seq<Steal>;

/// The shared queues that those attempts were made on, each as it was made.
pub uninterp spec fn asked_queues(queue: Worker<u64>) -> Seq<Arc<Injector<u64>>>;

/// Whether the owner of a queue takes the task that has waited the longest, and
/// not the one that came last.
pub uninterp spec fn is_fifo(queue: Worker<u64>) -> bool;

/// The handle to steal from a queue.
pub uninterp spec fn stealer_of(queue: Worker<u64>) -> Stealer<u64>;

/// What came of each attempt to steal through this handle, or one that it was
/// cloned from, the first attempt first.
pub uninterp spec fn thefts(stealer: Stealer<u64>) -> Seq<Steal>;

/// The handle as it was made, before anything was stolen through it. It tells
/// which queue a handle steals from.
pub uninterp spec fn as_made(stealer: Stealer<u64>) -> Stealer<u64>;

/// The tasks that were put into a shared queue through this handle, or one that
/// it was cloned from, in their order.
pub uninterp spec fn injected(queue: Arc<Injector<u64>>) -> Seq<u64>;

/// The shared queue as it was made, before anything was put into it. It tells which
/// queue a handle is for.
pub uninterp spec fn queue_as_made(queue: Arc<Injector<u64>>) -> Arc<Injector<u64>>;

/// What came of an attempt to steal.
#[derive(Clone, Copy, PartialEq, Eq, Structural, Debug)]
pub enum Steal {
    /// There was nothing to steal.
    Empty,
    /// A task was stolen.
    Success(u64),
    /// Somebody else was in the way; it is worth another attempt.
    Retry,
}

impl Steal {
    /// What an attempt comes to if another one follows unless it succeeded:
    /// whichever succeeds, and otherwise there is nothing only if both say so.
    pub open spec fn followed_by(self, second: Steal) -> Steal {
        if self is Success {
            self
        } else if self is Empty || second is Success {
            second
        } else {
            Steal::Retry
        }
    }

    /// What several attempts come to, of which none follows one that succeeded.
    pub open spec fn of_all(attempts: Seq<Steal>) -> Steal
        decreases attempts.len(),
    {
        if attempts.len() == 0 {
            Steal::Empty
        } else {
            Steal::of_all(attempts.drop_last()).followed_by(attempts.last())
        }
    }

    /// Whether these can be the attempts to steal from so many workers, one after
    /// the other until one succeeds.
    pub open spec fn asked(workers: nat, attempts: Seq<Steal>) -> bool {
        &&& attempts.len() <= workers
        &&& forall|i: int| 0 <= i < attempts.len() - 1 ==> !(#[trigger] attempts[i] is Success)
        &&& attempts.len() < workers ==> attempts.len() > 0 && attempts.last() is Success
    }

    /// What an attempt comes to if `second` follows unless it succeeded.
    pub fn or_else(self, second: Steal) -> (steal: Steal)
        ensures
            steal == self.followed_by(second),
    {
        match self {
            Steal::Success(_) => self,
            Steal::Empty => second,
            Steal::Retry => match second {
                Steal::Success(_) => second,
                _ => Steal::Retry,
            },
        }
    }
}

/// One round of stealing: from the shared queue, and if that did not succeed, from
/// the workers.
pub ghost struct Round {
    /// What came of the shared queue.
    pub first: Steal,
    /// What came of the workers, the first one first.
    pub others: Seq<Steal>,
}

impl Round {
    /// Whether a round can be like this where there are so many workers: they are
    /// asked one after the other, unless the shared queue had a task, until one
    /// has.
    pub open spec fn valid(self, workers: nat) -> bool {
        if self.first is Success {
            self.others.len() == 0
        } else {
            Steal::asked(workers, self.others)
        }
    }

    /// What the round comes to.
    pub open spec fn outcome(self) -> Steal {
        self.first.followed_by(Steal::of_all(self.others))
    }

    /// What came of the worker with number `i`, if it was asked.
    pub open spec fn told_by(self, i: int) -> Seq<Steal> {
        if 0 <= i < self.others.len() {
            seq![self.others[i]]
        } else {
            Seq::empty()
        }
    }
}

/// What came of the shared queue in each round.
pub open spec fn firsts(rounds: Seq<Round>) -> Seq<Steal> {
    rounds.map_values(|round: Round| round.first)
}

/// What came of the worker with number `i` in all rounds in which it was asked.
pub open spec fn told_by(rounds: Seq<Round>, i: int) -> Seq<Steal>
    decreases rounds.len(),
{
    if rounds.len() == 0 {
        Seq::empty()
    } else {
        told_by(rounds.drop_last(), i) + rounds.last().told_by(i)
    }
}

/// Whether `after` are the handles `before` once these rounds were made through
/// them: each steals from the same queue, and its history has grown by what came
/// of it in these rounds, and by nothing else.
pub open spec fn robbed(
    before: Seq<Stealer<u64>>,
    after: Seq<Stealer<u64>>,
    rounds: Seq<Round>,
) -> bool {
    &&& after.len() == before.len()
    &&& forall|i: int|
        0 <= i < before.len() ==> as_made(#[trigger] after[i]) == as_made(before[i]) && thefts(
            after[i],
        ) == thefts(before[i]) + told_by(rounds, i)
}

/// Whether `task` can be what the owner of a queue takes out of these tasks, and
/// `left` what it then knows to be left. Those in front of the one that it takes
/// were stolen.
pub open spec fn taken(fifo: bool, tasks: Seq<u64>, task: u64, left: Seq<u64>) -> bool {
    if fifo {
        exists|stolen: int|
            0 <= stolen < tasks.len() && #[trigger] tasks[stolen] == task && left == tasks.skip(
                stolen + 1,
            )
    } else {
        tasks.len() > 0 && tasks.last() == task && left == tasks.drop_last()
    }
}

/// `Worker::new_fifo`: an empty queue, whose owner takes tasks from the front.
#[verifier::external_body]
pub(crate) fn new_fifo() -> (queue: Worker<u64>)
    ensures
        worker_tasks(queue) == Seq::<u64>::empty(),
        pops(queue) == Seq::<Option<u64>>::empty(),
        steals(queue) == Seq::<Steal>::empty(),
        asked_queues(queue) == Seq::<Arc<Injector<u64>>>::empty(),
        is_fifo(queue),
{
    Worker::new_fifo()
}

/// `Worker::stealer`: a handle to steal from this queue, through which nothing was
/// stolen yet.
#[verifier::external_body]
pub(crate) fn stealer(queue: &Worker<u64>) -> (stealer: Stealer<u64>)
    ensures
        stealer == stealer_of(*queue),
        as_made(stealer) == stealer,
        thefts(stealer) == Seq::<Steal>::empty(),
{
    queue.stealer()
}

/// `Stealer::clone`: a handle to steal from the same queue.
#[verifier::external_body]
pub(crate) fn clone_stealer(stealer: &Stealer<u64>) -> (other: Stealer<u64>)
    ensures
        other == *stealer,
{
    stealer.clone()
}

/// `Worker::pop`: a task from the end of the queue that its owner takes from, or
/// none if the queue is empty. Which tasks thieves were faster to take is up to
/// them.
#[verifier::external_body]
pub(crate) fn pop(queue: &mut Worker<u64>) -> (task: Option<u64>)
    ensures
        is_fifo(*final(queue)) == is_fifo(*old(queue)),
        stealer_of(*final(queue)) == stealer_of(*old(queue)),
        pops(*final(queue)) == pops(*old(queue)).push(task),
        steals(*final(queue)) == steals(*old(queue)),
        asked_queues(*final(queue)) == asked_queues(*old(queue)),
        task matches Some(task) ==> taken(
            is_fifo(*old(queue)),
            worker_tasks(*old(queue)),
            task,
            worker_tasks(*final(queue)),
        ),
        task is None ==> worker_tasks(*final(queue)) == Seq::<u64>::empty(),
{
    queue.pop()
}

/// `Injector::new`: an empty queue.
#[verifier::external_body]
pub(crate) fn new_injector() -> (queue: Injector<u64>)
    ensures
        injected(Arc::new(queue)) == Seq::<u64>::empty(),
        queue_as_made(Arc::new(queue)) == Arc::new(queue),
{
    Injector::new()
}

/// `Injector::push`: adds a task.
#[verifier::external_body]
pub(crate) fn push(queue: &mut Arc<Injector<u64>>, task: u64)
    ensures
        injected(*final(queue)) == injected(*old(queue)).push(task),
        queue_as_made(*final(queue)) == queue_as_made(*old(queue)),
{
    queue.push(task)
}

/// `Injector::steal_batch_and_pop`: takes tasks that threads have put into the
/// queue; the first is stolen, the others go to the back of `dest`. Which and
/// how many they are is up to the threads that put them there and to other
/// thieves.
#[verifier::external_body]
pub(crate) fn steal_batch_and_pop(queue: &Injector<u64>, dest: &mut Worker<u64>) -> (steal: Steal)
    ensures
        is_fifo(*final(dest)) == is_fifo(*old(dest)),
        stealer_of(*final(dest)) == stealer_of(*old(dest)),
        pops(*final(dest)) == pops(*old(dest)),
        steals(*final(dest)) == steals(*old(dest)).push(steal),
        asked_queues(*final(dest)) == asked_queues(*old(dest)).push(
            queue_as_made(Arc::new(*queue)),
        ),
        worker_tasks(*old(dest)).is_prefix_of(worker_tasks(*final(dest))),
        !(steal is Success) ==> worker_tasks(*final(dest)) == worker_tasks(*old(dest)),
{
    match queue.steal_batch_and_pop(dest) {
        crossbeam_deque::Steal::Empty => Steal::Empty,
        crossbeam_deque::Steal::Success(task) => Steal::Success(task),
        crossbeam_deque::Steal::Retry => Steal::Retry,
    }
}

/// `Stealer::steal`: takes the task at the front of a queue of another thread,
/// which alone knows what that is.
#[verifier::external_body]
pub(crate) fn steal(stealer: &mut Stealer<u64>) -> (steal: Steal)
    ensures
        as_made(*final(stealer)) == as_made(*old(stealer)),
        thefts(*final(stealer)) == thefts(*old(stealer)).push(steal),
{
    match stealer.steal() {
        crossbeam_deque::Steal::Empty => Steal::Empty,
        crossbeam_deque::Steal::Success(task) => Steal::Success(task),
        crossbeam_deque::Steal::Retry => Steal::Retry,
    }
}

/// Several attempts, of which none follows one that succeeded, come to a task if
/// and only if the last one got it; otherwise they come to nothing if and only
/// if none of them met somebody in the way.
pub proof fn law_attempts_come_to(attempts: Seq<Steal>)
    requires
        forall|i: int| 0 <= i < attempts.len() - 1 ==> !(#[trigger] attempts[i] is Success),
    ensures
        Steal::of_all(attempts) is Success <==> attempts.len() > 0 && attempts.last() is Success,
        Steal::of_all(attempts) is Success ==> Steal::of_all(attempts) == attempts.last(),
        Steal::of_all(attempts) is Empty <==> forall|i: int|
            0 <= i < attempts.len() ==> (#[trigger] attempts[i]) is Empty,
    decreases attempts.len(),
{
    if attempts.len() > 0 {
        let first = attempts.drop_last();
        assert forall|i: int| 0 <= i < first.len() - 1 implies !(#[trigger] first[i] is Success) by {
            assert(!(attempts[i] is Success));
        }
        law_attempts_come_to(first);
        if first.len() > 0 {
            assert(first.last() == attempts[attempts.len() - 2]);
        }
        if Steal::of_all(attempts) is Empty {
            assert forall|i: int| 0 <= i < attempts.len() implies (#[trigger] attempts[i]) is Empty by {
                if i < first.len() {
                    assert(first[i] is Empty);
                }
            }
        }
        if forall|i: int| 0 <= i < attempts.len() ==> (#[trigger] attempts[i]) is Empty {
            assert forall|i: int| 0 <= i < first.len() implies (#[trigger] first[i]) is Empty by {
                assert(attempts[i] is Empty);
            }
            assert(attempts[attempts.len() - 1] is Empty);
        }
    }
}

/// A worker whose queue hands out what has waited the longest takes tasks in the
/// order in which they came.
pub proof fn law_tasks_are_taken_in_order(
    tasks: Seq<u64>,
    first: u64,
    between: Seq<u64>,
    second: u64,
    left: Seq<u64>,
)
    requires
        taken(true, tasks, first, between),
        taken(true, between, second, left),
    ensures
        exists|i: int, j: int|
            0 <= i < j < tasks.len() && #[trigger] tasks[i] == first && #[trigger] tasks[j]
                == second,
{
    let i = choose|i: int|
        0 <= i < tasks.len() && #[trigger] tasks[i] == first && between == tasks.skip(i + 1);
    let j = choose|j: int|
        0 <= j < between.len() && #[trigger] between[j] == second && left == between.skip(j + 1);
    assert(tasks[i + 1 + j] == second);
}

/// Whatever a worker takes was in its queue, and what is left was there too.
pub proof fn law_taken_tasks_were_there(
    fifo: bool,
    tasks: Seq<u64>,
    task: u64,
    left: Seq<u64>,
    other: u64,
)
    requires
        taken(fifo, tasks, task, left),
    ensures
        tasks.contains(task),
        left.contains(other) ==> tasks.contains(other),
        left.len() < tasks.len(),
{
    if fifo {
        let i = choose|i: int|
            0 <= i < tasks.len() && #[trigger] tasks[i] == task && left == tasks.skip(i + 1);
        if left.contains(other) {
            let j = choose|j: int| 0 <= j < left.len() && left[j] == other;
            assert(tasks[i + 1 + j] == other);
        }
    } else {
        if left.contains(other) {
            let j = choose|j: int| 0 <= j < left.len() && left[j] == other;
            assert(tasks[j] == other);
        }
    }
}

/// A round comes to nothing if and only if the shared queue and the queues of all
/// workers were found empty. Where it comes to a task, that is what the shared
/// queue gave, or what the last worker gave that was asked.
pub proof fn law_round_comes_to(round: Round, workers: nat)
    requires
        round.valid(workers),
    ensures
        round.outcome() is Empty <==> round.first is Empty && round.others.len() == workers
            && forall|i: int|
            0 <= i < workers ==> (#[trigger] round.others[i]) is Empty,
        round.first is Success ==> round.outcome() == round.first,
        round.outcome() is Success && !(round.first is Success) ==> round.others.len() > 0
            && round.outcome() == round.others.last(),
        round.outcome() is Success ==> forall|i: int|
            0 <= i < round.others.len() - 1 ==> !(#[trigger] round.others[i] is Success),
{
    if !(round.first is Success) {
        law_attempts_come_to(round.others);
        if round.others.len() < workers {
            let last = round.others.len() - 1;
            assert(round.others[last] is Success);
        }
    }
}

/// One more round through the same handles makes their histories longer by that
/// round.
pub(crate) proof fn lemma_robbed_again(
    before: Seq<Stealer<u64>>,
    between: Seq<Stealer<u64>>,
    after: Seq<Stealer<u64>>,
    rounds: Seq<Round>,
    round: Round,
)
    requires
        robbed(before, between, rounds),
        robbed(between, after, seq![round]),
    ensures
        robbed(before, after, rounds.push(round)),
{
    let longer = rounds.push(round);
    assert(longer.drop_last() =~= rounds);
    assert(seq![round].drop_last() =~= Seq::<Round>::empty());
    assert forall|i: int| 0 <= i < before.len() implies as_made(#[trigger] after[i]) == as_made(
        before[i],
    ) && thefts(after[i]) == thefts(before[i]) + told_by(longer, i) by {
        reveal_with_fuel(told_by, 2);
        assert(as_made(between[i]) == as_made(before[i]));
        assert(thefts(after[i]) =~= thefts(before[i]) + told_by(longer, i));
    }
}

/// Of two attempts, whichever gets a task first is the one that counts, with the
/// very task that it got. Without a task, they come to nothing if and only if both
/// found nothing.
pub proof fn law_second_attempt_counts_if_needed(first: Steal, second: Steal, task: u64)
    ensures
        Steal::Success(task).followed_by(second) == Steal::Success(task),
        !(first is Success) ==> first.followed_by(Steal::Success(task)) == Steal::Success(task),
        first.followed_by(second) is Empty <==> first is Empty && second is Empty,
        first.followed_by(second) is Success <==> first is Success || second is Success,
        first.followed_by(second) == Steal::Success(task) ==> first == Steal::Success(task)
            || second == Steal::Success(task),
{
}

/// In one round each worker is asked through its own handle, in order, and at most
/// once: the history of each worker that was asked grows by what came of it, and
/// that of every other worker does not change. If nobody had a task, each was asked.
pub proof fn law_round_asks_each_worker_once(
    before: Seq<Stealer<u64>>,
    after: Seq<Stealer<u64>>,
    round: Round,
    i: int,
)
    requires
        robbed(before, after, seq![round]),
        round.valid(before.len()),
        0 <= i < before.len(),
    ensures
        after.len() == before.len(),
        as_made(after[i]) == as_made(before[i]),
        i < round.others.len() ==> thefts(after[i]) == thefts(before[i]).push(round.others[i]),
        i >= round.others.len() ==> thefts(after[i]) == thefts(before[i]),
        round.first is Success ==> thefts(after[i]) == thefts(before[i]),
        round.outcome() is Empty ==> thefts(after[i]) == thefts(before[i]).push(Steal::Empty),
        !(round.outcome() is Success) ==> thefts(after[i]).len() == thefts(before[i]).len() + 1,
{
    assert(seq![round].drop_last() =~= Seq::<Round>::empty());
    reveal_with_fuel(told_by, 2);
    assert(as_made(after[i]) == as_made(before[i]));
    assert(told_by(seq![round], i) =~= round.told_by(i));
    law_round_comes_to(round, before.len());
    law_round_without_a_task_asks_all(round, before.len());
    if i < round.others.len() {
        assert(thefts(after[i]) =~= thefts(before[i]).push(round.others[i]));
    } else {
        assert(thefts(after[i]) =~= thefts(before[i]));
    }
}

/// A round that does not get a task has asked the shared queue and every worker, and
/// none of them had one. It is worth another if and only if somebody was in the way.
/// A round that does get a task has not asked anybody after whoever had it.
pub proof fn law_round_without_a_task_asks_all(round: Round, workers: nat)
    requires
        round.valid(workers),
    ensures
        round.others.len() <= workers,
        !(round.outcome() is Success) ==> round.others.len() == workers && !(round.first is Success),
        !(round.outcome() is Success) ==> forall|i: int|
            0 <= i < workers ==> !(#[trigger] round.others[i] is Success),
        round.outcome() is Retry <==> !(round.outcome() is Success) && (round.first is Retry
            || exists|i: int| 0 <= i < workers && #[trigger] round.others[i] is Retry),
        forall|i: int|
            0 <= i < round.others.len() - 1 ==> !(#[trigger] round.others[i] is Success),
        round.first is Success ==> round.others.len() == 0,
{
    if !(round.first is Success) {
        law_attempts_come_to(round.others);
        law_round_comes_to(round, workers);
        if !(round.outcome() is Success) {
            assert forall|i: int| 0 <= i < workers implies !(
            #[trigger] round.others[i] is Success) by {
                if i == workers - 1 {
                    assert(round.others[i] == round.others.last());
                }
            }
        }
    }
}

/// Each further round adds to the history of each worker what came of it, if it was
/// asked, and nothing else. What came of the shared queue is what came of it in each
/// round, in order.
pub proof fn law_rounds_add_up(rounds: Seq<Round>, round: Round, i: int, k: int)
    ensures
        told_by(Seq::<Round>::empty(), i) == Seq::<Steal>::empty(),
        0 <= i < round.others.len() ==> told_by(rounds.push(round), i) == told_by(rounds, i).push(
            round.others[i],
        ),
        i >= round.others.len() ==> told_by(rounds.push(round), i) == told_by(rounds, i),
        firsts(rounds).len() == rounds.len(),
        0 <= k < rounds.len() ==> firsts(rounds)[k] == rounds[k].first,
{
    assert(rounds.push(round).drop_last() =~= rounds);
    if 0 <= i < round.others.len() {
        assert(told_by(rounds.push(round), i) =~= told_by(rounds, i).push(round.others[i]));
    } else if i >= round.others.len() {
        assert(told_by(rounds.push(round), i) =~= told_by(rounds, i));
    }
}

/// Where only the last of several rounds can have got a task, every worker was asked
/// once in each of the rounds before, and what came of it stands in its history in
/// the order of the rounds.
pub proof fn law_every_round_asks_everyone(
    before: Seq<Stealer<u64>>,
    after: Seq<Stealer<u64>>,
    rounds: Seq<Round>,
    i: int,
    k: int,
)
    requires
        robbed(before, after, rounds),
        rounds.len() > 0,
        forall|r: int| 0 <= r < rounds.len() ==> (#[trigger] rounds[r]).valid(before.len()),
        forall|r: int|
            0 <= r < rounds.len() - 1 ==> !((#[trigger] rounds[r]).outcome() is Success),
        0 <= i < before.len(),
    ensures
        as_made(after[i]) == as_made(before[i]),
        thefts(before[i]).is_prefix_of(thefts(after[i])),
        thefts(after[i]).len() == thefts(before[i]).len() + rounds.len() - (if i
            < rounds.last().others.len() {
            0int
        } else {
            1int
        }),
        0 <= k < rounds.len() - 1 || (k == rounds.len() - 1 && i < rounds.last().others.len())
            ==> thefts(after[i])[thefts(before[i]).len() + k] == rounds[k].others[i],
{
    assert(as_made(after[i]) == as_made(before[i]));
    lemma_told_in_order(before.len(), rounds, i, k);
}

/// What came of a worker in several rounds, in order.
proof fn lemma_told_in_order(workers: nat, rounds: Seq<Round>, i: int, k: int)
    requires
        rounds.len() > 0,
        forall|r: int| 0 <= r < rounds.len() ==> (#[trigger] rounds[r]).valid(workers),
        forall|r: int|
            0 <= r < rounds.len() - 1 ==> !((#[trigger] rounds[r]).outcome() is Success),
        0 <= i < workers,
    ensures
        told_by(rounds, i).len() == rounds.len() - (if i < rounds.last().others.len() {
            0int
        } else {
            1int
        }),
        0 <= k < rounds.len() - 1 || (k == rounds.len() - 1 && i < rounds.last().others.len())
            ==> told_by(rounds, i)[k] == rounds[k].others[i],
    decreases rounds.len(),
{
    let earlier = rounds.drop_last();
    let last = rounds.last();
    if earlier.len() == 0 {
        reveal_with_fuel(told_by, 2);
    } else {
        assert forall|r: int| 0 <= r < earlier.len() implies (#[trigger] earlier[r]).valid(
            workers,
        ) by {
            assert(earlier[r] == rounds[r]);
        }
        assert forall|r: int| 0 <= r < earlier.len() - 1 implies !((
        #[trigger] earlier[r]).outcome() is Success) by {
            assert(earlier[r] == rounds[r]);
        }
        lemma_told_in_order(workers, earlier, i, k);
        assert(earlier.last() == rounds[rounds.len() - 2]);
        law_round_without_a_task_asks_all(earlier.last(), workers);
    }
}

} // verus!
