//! Timers: the tasks that sleep, and when to wake them.
//!
//! Points in time are nanoseconds since a start that whoever reads the clock
//! has chosen; durations are nanoseconds.
use crate::task::Poll;
use std::task::Waker;
use vstd::prelude::*;

verus! {

/// A point in time and the task to wake then.
pub type Timer = (u128, Waker);

/// Whether timers stand with the latest one first, so that the next one to go
/// off is the last.
pub open spec fn sorted(timers: Seq<Timer>) -> bool {
    forall|i: int, j: int| 0 <= i < j < timers.len() ==> timers[i].0 >= timers[j].0
}

/// How many timers at the end have gone off by `now`.
pub open spec fn due(timers: Seq<Timer>, now: u128) -> nat
    decreases timers.len(),
{
    if timers.len() > 0 && timers.last().0 <= now {
        1 + due(timers.drop_last(), now)
    } else {
        0
    }
}

/// The timers that are left when those that have gone off by `now` are taken
/// from the end.
pub open spec fn left(timers: Seq<Timer>, now: u128) -> Seq<Timer> {
    timers.take(timers.len() - due(timers, now))
}

/// The tasks of the timers that have gone off by `now`, taken from the end.
pub open spec fn woken(timers: Seq<Timer>, now: u128) -> Seq<Waker> {
    Seq::new(due(timers, now), |i: int| timers[timers.len() - 1 - i].1)
}

/// How long it takes from `now` until the earliest of these timers, which stand in
/// order: nothing if that has passed.
pub open spec fn until_earliest(timers: Seq<Timer>, now: u128) -> Option<u128> {
    if timers.len() == 0 {
        None
    } else if timers.last().0 <= now {
        Some(0)
    } else {
        Some((timers.last().0 - now) as u128)
    }
}

/// The shorter of two time limits, where there may be none.
pub open spec fn shorter(a: Option<u128>, b: Option<u128>) -> Option<u128> {
    match (a, b) {
        (Some(a), Some(b)) => Some(
            if a <= b {
                a
            } else {
                b
            },
        ),
        (None, b) => b,
        (a, None) => a,
    }
}

/// Timers that wait to go off.
pub struct Queue {
    timers: Vec<Timer>,
}

impl View for Queue {
    type V = Seq<Timer>;

    closed spec fn view(&self) -> Seq<Timer> {
        self.timers@
    }
}

impl Default for Queue {
    fn default() -> (queue: Self)
        ensures
            queue@ == Seq::<Timer>::empty(),
    {
        Queue { timers: Vec::new() }
    }
}

impl Queue {
    /// Adds a timer, behind those that go off later than it and before those
    /// that go off sooner.
    pub fn insert(&mut self, instant: u128, task: Waker)
        ensures
            exists|index: int|
                0 <= index <= old(self)@.len() && final(self)@ == #[trigger] old(self)@.insert(
                    index,
                    (instant, task),
                ),
            final(self)@.to_multiset() == old(self)@.to_multiset().insert((instant, task)),
            sorted(old(self)@) ==> sorted(final(self)@),
    {
        let mut low: usize = 0;
        let mut high: usize = self.timers.len();
        while low < high
            invariant
                low <= high <= self.timers@.len(),
                self@ == old(self)@,
                sorted(self.timers@) ==> forall|i: int|
                    0 <= i < low ==> (#[trigger] self.timers@[i]).0 >= instant,
                sorted(self.timers@) ==> forall|i: int|
                    high <= i < self.timers@.len() ==> (#[trigger] self.timers@[i]).0 <= instant,
            decreases high - low,
        {
            let mid: usize = low + (high - low) / 2;
            if self.timers[mid].0 > instant {
                low = mid + 1;
            } else {
                high = mid;
            }
        }
        self.timers.insert(low, (instant, task));
        assert(final(self)@ == old(self)@.insert(low as int, (instant, task)));
        proof {
            lemma_insert_to_multiset(old(self)@, low as int, (instant, task));
        }
    }

    /// The tasks of the timers that have gone off by `now`, from the end of the
    /// queue on; each is taken out when it is asked for.
    pub fn iter(&mut self, now: u128) -> (iter: QueueIter<'_>)
        ensures
            iter.timers@ == old(self)@,
            iter.now == now,
            final(self)@ == final(iter.timers)@,
    {
        QueueIter { timers: &mut self.timers, now }
    }
}

/// Takes timers that have gone off out of a [`Queue`].
pub struct QueueIter<'a> {
    /// The timers that are left.
    pub timers: &'a mut Vec<Timer>,
    /// When a timer must have gone off to be taken out.
    pub now: u128,
}

impl<'a> QueueIter<'a> {
    /// The task of the last timer, if that has gone off.
    pub fn next(&mut self) -> (task: Option<Waker>)
        ensures
            final(self).now == old(self).now,
            final(final(self).timers)@ == final(old(self).timers)@,
            ({
                let timers = old(self).timers@;
                if timers.len() > 0 && timers.last().0 <= old(self).now {
                    &&& task == Some(timers.last().1)
                    &&& final(self).timers@ == timers.drop_last()
                } else {
                    &&& task is None
                    &&& final(self).timers@ == timers
                }
            }),
    {
        match self.timers.pop() {
            Some((time, task)) => {
                if time > self.now {
                    self.timers.push((time, task));
                    assert(self.timers@ =~= old(self).timers@);
                    None
                } else {
                    Some(task)
                }
            },
            None => None,
        }
    }
}

/// The driver's own timers, in order. Timers are registered in a queue that all
/// threads share, and move here whenever the driver parks.
pub struct Driver {
    timers: Queue,
}

impl View for Driver {
    type V = Seq<Timer>;

    closed spec fn view(&self) -> Seq<Timer> {
        self.timers@
    }
}

impl Default for Driver {
    fn default() -> (driver: Self)
        ensures
            driver@ == Seq::<Timer>::empty(),
    {
        Driver { timers: Queue { timers: Vec::new() } }
    }
}

impl Driver {
    #[verifier::type_invariant]
    spec fn in_order(self) -> bool {
        sorted(self.timers@)
    }

    /// Takes over the timers that were registered in `global` and decides for
    /// how long to park: until the earliest of the timers, but for no longer than
    /// `duration`. Without a limit the thread parks until it is unparked.
    pub fn before_park(
        &mut self,
        global: &mut Queue,
        now: u128,
        duration: Option<u128>,
    ) -> (limit: Option<u128>)
        ensures
            sorted(final(self)@),
            final(self)@.to_multiset() == old(self)@.to_multiset().add(old(global)@.to_multiset()),
            final(global)@ == Seq::<Timer>::empty(),
            limit == shorter(until_earliest(final(self)@, now), duration),
            final(self)@.len() > 0 ==> limit is Some,
            forall|i: int|
                0 <= i < final(self)@.len() ==> limit->0 == 0 || now + limit->0 <= (
                #[trigger] final(self)@[i]).0,
            final(self)@.len() == 0 ==> limit == duration,
            duration matches Some(most) ==> limit is Some && limit->0 <= most,
            final(self)@.len() > 0 ==> limit == duration || (limit == Some(0u128)
                && final(self)@.last().0 <= now) || (limit is Some && now + limit->0
                == final(self)@.last().0),
            limit == Some(0u128) ==> duration == Some(0u128) || (final(self)@.len() > 0
                && final(self)@.last().0 <= now),
    {
        proof {
            use_type_invariant(&*self);
        }
        let mut timers = Queue { timers: Vec::new() };
        std::mem::swap(&mut self.timers, &mut timers);
        while global.timers.len() > 0
            invariant
                sorted(timers@),
                timers@.to_multiset().add(global@.to_multiset()) == old(
                    self,
                )@.to_multiset().add(old(global)@.to_multiset()),
            decreases global.timers@.len(),
        {
            let ghost before = timers@.to_multiset();
            let ghost shared = global@;
            if let Some((instant, task)) = global.timers.pop() {
                proof {
                    broadcast use vstd::seq_lib::group_to_multiset_ensures;

                    assert(shared == global@.push((instant, task)));
                    assert(shared.to_multiset() =~= global@.to_multiset().insert((instant, task)));
                }
                timers.insert(instant, task);
                assert(timers@.to_multiset().add(global@.to_multiset()) =~= before.add(
                    shared.to_multiset(),
                ));
            }
        }
        assert(global@ =~= Seq::<Timer>::empty());
        proof {
            broadcast use vstd::seq_lib::group_to_multiset_ensures;

            assert(global@.to_multiset().len() == 0);
            assert(global@.to_multiset() =~= vstd::multiset::Multiset::<Timer>::empty());
            assert(timers@.to_multiset() =~= timers@.to_multiset().add(global@.to_multiset()));
        }
        let len: usize = timers.timers.len();
        let time: Option<u128> = if len > 0 {
            let instant: u128 = timers.timers[len - 1].0;
            if instant <= now {
                Some(0)
            } else {
                Some(instant - now)
            }
        } else {
            None
        };
        self.timers = timers;
        match (time, duration) {
            (Some(time), Some(duration)) => Some(
                if time <= duration {
                    time
                } else {
                    duration
                },
            ),
            (None, Some(duration)) => Some(duration),
            (Some(time), None) => Some(time),
            (None, None) => None,
        }
    }

    /// After parking: takes out the timers that have gone off by `now`, and returns
    /// their tasks in the order in which to wake them.
    pub fn after_park(&mut self, now: u128) -> (tasks: Vec<Waker>)
        ensures
            tasks@ == woken(old(self)@, now),
            final(self)@ == left(old(self)@, now),
            sorted(old(self)@),
            sorted(final(self)@),
            forall|i: int| 0 <= i < final(self)@.len() ==> (#[trigger] final(self)@[i]).0 > now,
            forall|i: int|
                final(self)@.len() <= i < old(self)@.len() ==> (#[trigger] old(self)@[i]).0 <= now
                    && tasks@[old(self)@.len() - 1 - i] == old(self)@[i].1,
            final(self)@.len() + tasks@.len() == old(self)@.len(),
            forall|i: int|
                0 <= i < final(self)@.len() ==> #[trigger] final(self)@[i] == old(self)@[i],
    {
        proof {
            use_type_invariant(&*self);
        }
        let mut queue = Queue { timers: Vec::new() };
        std::mem::swap(&mut self.timers, &mut queue);
        let ghost before = queue@;
        let mut tasks: Vec<Waker> = Vec::new();
        let mut iter = queue.iter(now);
        loop
            invariant
                iter.now == now,
                iter.timers@.len() + tasks@.len() == before.len(),
                iter.timers@ == before.take(iter.timers@.len() as int),
                due(before, now) == tasks@.len() + due(iter.timers@, now),
                tasks@ == Seq::new(tasks@.len(), |i: int| before[before.len() - 1 - i].1),
                final(iter.timers)@ == after_borrow(queue)@,
            ensures
                due(iter.timers@, now) == 0,
            decreases iter.timers@.len(),
        {
            let ghost timers = iter.timers@;
            match iter.next() {
                Some(task) => {
                    assert(timers.drop_last() == before.take(timers.len() - 1));
                    tasks.push(task);
                },
                None => break,
            }
        }
        proof {
            lemma_due(before, now);
        }
        self.timers = queue;
        tasks
    }
}

/// Future for sleeping fixed amounts of time.
/// Does not block the thread.
#[derive(Clone, Copy, PartialEq, Eq, Structural, Debug)]
pub struct Sleep {
    /// When the sleep is over.
    pub instant: u128,
}

impl Sleep {
    /// Sleeps until a specific point in time.
    #[must_use]
    pub fn until(instant: u128) -> (sleep: Sleep)
        ensures
            sleep.instant == instant,
    {
        Sleep { instant }
    }

    /// Sleeps for a specific duration of time from `now` on.
    #[must_use]
    pub fn duration(now: u128, duration: u128) -> (sleep: Sleep)
        requires
            now + duration <= u128::MAX,
        ensures
            sleep.instant == now + duration,
    {
        Sleep::until(now + duration)
    }

    /// Polls the sleep at `now` on behalf of `task`. While it is not over, the
    /// task is put among the `timers`, and whoever waits for them has to be
    /// unparked to take notice of it.
    pub fn poll(&self, now: u128, task: Waker, timers: &mut Queue) -> (polled: Poll<()>)
        ensures
            polled is Pending <==> self.instant > now,
            polled is Ready ==> final(timers)@ == old(timers)@,
            polled is Pending ==> exists|index: int|
                0 <= index <= old(timers)@.len() && final(timers)@ == #[trigger] old(
                    timers,
                )@.insert(index, (self.instant, task)),
            sorted(old(timers)@) ==> sorted(final(timers)@),
    {
        if self.instant > now {
            timers.insert(self.instant, task);
            Poll::Pending
        } else {
            Poll::Ready(())
        }
    }
}

proof fn lemma_insert_to_multiset(timers: Seq<Timer>, index: int, timer: Timer)
    requires
        0 <= index <= timers.len(),
    ensures
        timers.insert(index, timer).to_multiset() == timers.to_multiset().insert(timer),
{
    broadcast use vstd::seq_lib::group_to_multiset_ensures;

    let longer = timers.insert(index, timer);
    assert(longer.remove(index) =~= timers);
    assert(longer[index] == timer);
    assert(longer.contains(timer));
    assert(longer.to_multiset() =~= timers.to_multiset().insert(timer));
}

proof fn lemma_due(timers: Seq<Timer>, now: u128)
    ensures
        due(timers, now) <= timers.len(),
        forall|i: int|
            timers.len() - due(timers, now) <= i < timers.len() ==> (#[trigger] timers[i]).0 <= now,
        due(timers, now) < timers.len() ==> timers[timers.len() - due(timers, now) - 1].0 > now,
    decreases timers.len(),
{
    if timers.len() > 0 && timers.last().0 <= now {
        lemma_due(timers.drop_last(), now);
        assert forall|i: int| timers.len() - due(timers, now) <= i < timers.len() implies (
        #[trigger] timers[i]).0 <= now by {
            if i < timers.len() - 1 {
                assert(timers[i] == timers.drop_last()[i]);
            }
        }
    }
}

/// No sleeper is woken early: every timer that is taken out has gone off.
pub proof fn law_only_elapsed_timers_wake(timers: Seq<Timer>, now: u128, i: int)
    requires
        0 <= i < woken(timers, now).len(),
    ensures
        woken(timers, now).len() <= timers.len(),
        woken(timers, now)[i] == timers[timers.len() - 1 - i].1,
        timers[timers.len() - 1 - i].0 <= now,
{
    lemma_due(timers, now);
}

/// Every timer that has gone off wakes its task.
pub proof fn law_all_elapsed_timers_wake(timers: Seq<Timer>, now: u128, i: int)
    requires
        sorted(timers),
        0 <= i < timers.len(),
        timers[i].0 <= now,
    ensures
        timers.len() - 1 - i < woken(timers, now).len(),
        woken(timers, now)[timers.len() - 1 - i] == timers[i].1,
        left(timers, now).len() <= i,
{
    lemma_due(timers, now);
}

/// A timer that has not gone off stays.
pub proof fn law_waiting_timers_stay(timers: Seq<Timer>, now: u128, i: int)
    requires
        0 <= i < timers.len(),
        timers[i].0 > now,
    ensures
        i < left(timers, now).len(),
        left(timers, now)[i] == timers[i],
{
    lemma_due(timers, now);
}

/// Tasks are woken in the order in which their timers went off.
pub proof fn law_timers_wake_in_order(timers: Seq<Timer>, now: u128, i: int, j: int)
    requires
        sorted(timers),
        0 <= i < j < woken(timers, now).len(),
    ensures
        timers[timers.len() - 1 - i].0 <= timers[timers.len() - 1 - j].0,
{
    lemma_due(timers, now);
}

/// No timer gets lost: those that are left and those that were taken out make
/// up what was there, and what is left stays in order.
pub proof fn law_timers_are_conserved(timers: Seq<Timer>, now: u128)
    ensures
        left(timers, now).len() + woken(timers, now).len() == timers.len(),
        left(timers, now).is_prefix_of(timers),
        sorted(timers) ==> sorted(left(timers, now)),
{
    lemma_due(timers, now);
}

/// Taking timers out twice at the same time takes nothing out the second time.
pub proof fn law_elapsed_timers_wake_once(timers: Seq<Timer>, now: u128)
    ensures
        woken(left(timers, now), now).len() == 0,
        left(left(timers, now), now) == left(timers, now),
{
    lemma_due(timers, now);
}

/// The thread never parks for longer than it was asked to; it parks without a limit
/// only if it was not given one and there is no timer.
pub proof fn law_park_is_bounded(timers: Seq<Timer>, now: u128, duration: Option<u128>)
    ensures
        ({
            let limit = shorter(until_earliest(timers, now), duration);
            &&& duration is Some ==> limit is Some && limit->0 <= duration->0
            &&& limit is None <==> duration is None && timers.len() == 0
        }),
{
}

/// A thread does not sleep past any timer, and not at all if one has passed.
pub proof fn law_park_ends_by_earliest_timer(
    timers: Seq<Timer>,
    now: u128,
    duration: Option<u128>,
    i: int,
)
    requires
        sorted(timers),
        0 <= i < timers.len(),
    ensures
        ({
            let limit = shorter(until_earliest(timers, now), duration);
            &&& limit is Some
            &&& timers[i].0 > now ==> now + limit->0 <= timers[i].0
            &&& timers[i].0 <= now ==> limit->0 == 0
        }),
{
}

/// A task that went to sleep is woken by the driver that next parks, if it then
/// finds the sleep over, whatever timers it had before.
pub proof fn law_registered_sleeper_wakes(
    own: Seq<Timer>,
    global: Seq<Timer>,
    timers: Seq<Timer>,
    instant: u128,
    task: Waker,
    now: u128,
)
    requires
        global.contains((instant, task)),
        sorted(timers),
        timers.to_multiset() == own.to_multiset().add(global.to_multiset()),
        instant <= now,
    ensures
        woken(timers, now).contains(task),
{
    broadcast use vstd::seq_lib::group_to_multiset_ensures;

    assert(global.to_multiset().count((instant, task)) > 0);
    assert(timers.to_multiset().count((instant, task)) > 0);
    assert(timers.contains((instant, task)));
    let i = choose|i: int| 0 <= i < timers.len() && timers[i] == (instant, task);
    law_all_elapsed_timers_wake(timers, now, i);
    assert(woken(timers, now)[timers.len() - 1 - i] == task);
}

/// A thread that only wants to see to the timers does not wait for them.
pub proof fn law_maintenance_never_waits(timers: Seq<Timer>, now: u128)
    ensures
        shorter(until_earliest(timers, now), Some(0)) == Some(0u128),
{
}

/// Once all timers have gone off, in whatever order they stand, all their tasks
/// are woken.
pub proof fn law_all_wake_in_the_end(timers: Seq<Timer>, now: u128)
    requires
        forall|i: int| 0 <= i < timers.len() ==> (#[trigger] timers[i]).0 <= now,
    ensures
        woken(timers, now).len() == timers.len(),
        left(timers, now).len() == 0,
{
    lemma_due(timers, now);
}

/// Timers in order stand with the latest one first: of any two, the one in front
/// goes off no sooner.
pub proof fn law_later_timers_stand_first(timers: Seq<Timer>, i: int, j: int)
    requires
        sorted(timers),
        0 <= i <= j < timers.len(),
    ensures
        timers[i].0 >= timers[j].0,
{
}

/// The thread parks neither longer nor shorter than until the earliest timer, but
/// for a limit that comes before: without one, the park ends exactly when some timer
/// goes off that no other one comes before, or at once if such a timer has passed.
/// It does not last no time at all unless that is its limit or some timer has
/// passed.
pub proof fn law_park_lasts_until_earliest_timer(
    timers: Seq<Timer>,
    now: u128,
    duration: Option<u128>,
    limit: Option<u128>,
)
    requires
        sorted(timers),
        limit == shorter(until_earliest(timers, now), duration),
    ensures
        timers.len() == 0 ==> limit == duration,
        timers.len() > 0 && duration is None ==> exists|i: int|
            #![trigger timers[i]]
            {
                &&& 0 <= i < timers.len()
                &&& forall|j: int| 0 <= j < timers.len() ==> timers[i].0 <= (#[trigger] timers[j]).0
                &&& timers[i].0 > now ==> limit is Some && now + limit->0 == timers[i].0
                &&& timers[i].0 <= now ==> limit == Some(0u128)
            },
        timers.len() > 0 ==> (duration matches Some(most) ==> exists|i: int|
            #![trigger timers[i]]
            {
                &&& 0 <= i < timers.len()
                &&& forall|j: int| 0 <= j < timers.len() ==> timers[i].0 <= (#[trigger] timers[j]).0
                &&& now + most <= timers[i].0 ==> limit == Some(most)
                &&& now < timers[i].0 < now + most ==> limit is Some && now + limit->0
                    == timers[i].0
                &&& timers[i].0 <= now ==> limit == Some(0u128)
            }),
        limit == Some(0u128) ==> duration == Some(0u128) || exists|i: int|
            0 <= i < timers.len() && (#[trigger] timers[i]).0 <= now,
{
    if timers.len() > 0 {
        let earliest = timers.len() - 1;
        assert forall|j: int| 0 <= j < timers.len() implies timers[earliest].0 <= (
        #[trigger] timers[j]).0 by {}
        assert(timers[earliest] == timers.last());
    }
}

/// A thread that parks for as long as its driver says, and is not unparked, wakes
/// somebody then: if the park is not cut short by its limit, the earliest timer has
/// gone off when it ends, and no timer has before.
pub proof fn law_park_ends_with_a_timer(timers: Seq<Timer>, now: u128, limit: u128, sooner: u128)
    requires
        sorted(timers),
        timers.len() > 0,
        shorter(until_earliest(timers, now), None) == Some(limit),
        now <= sooner < now + limit,
        now + limit <= u128::MAX,
    ensures
        woken(timers, (now + limit) as u128).len() > 0,
        woken(timers, sooner).len() == 0,
        left(timers, sooner) == timers,
{
    lemma_due(timers, (now + limit) as u128);
    lemma_due(timers, sooner);
    assert(timers[timers.len() - 1] == timers.last());
}

} // verus!
