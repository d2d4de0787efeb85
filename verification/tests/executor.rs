use crossbeam_deque::{Injector, Worker};
use std::sync::Arc;
use std::task::{Wake, Waker};
use what_the_async::executor::queues::Steal;
use what_the_async::executor::worker::{PollOnce, WorkerEvent};
use what_the_async::executor::{
    Attempt, GlobalExecutor, Idle, LocalExecutor, TaskWaker, Woken,
};
use what_the_async::oneshot::Canceled;
use what_the_async::task::Poll;

struct Nothing;

impl Wake for Nothing {
    fn wake(self: Arc<Self>) {}
}

fn task() -> Waker {
    Waker::from(Arc::new(Nothing))
}

fn alone() -> (GlobalExecutor, Idle, LocalExecutor) {
    let queue = Worker::new_fifo();
    let (global, idle) =
        GlobalExecutor::new(Arc::new(Injector::new()), vec![queue.stealer()], 1);
    let local = LocalExecutor::new(0, queue, global.clone());
    (global, idle, local)
}

#[test]
fn first_idle_worker_is_found() {
    let mut idle = Idle::new(4);
    assert_eq!(idle.workers(), 4);
    assert_eq!(idle.first(), None);
    idle.mark(2);
    assert_eq!(idle.first(), Some(2));
    idle.mark(1);
    assert_eq!(idle.first(), Some(1));
    idle.mark(3);
    assert_eq!(idle.first(), Some(1));
    idle.unmark(1);
    assert_eq!(idle.first(), Some(2));
    assert_eq!(Idle::new(0).first(), None);
}

#[test]
fn attempts_are_combined() {
    assert_eq!(Steal::Success(1).or_else(Steal::Success(2)), Steal::Success(1));
    assert_eq!(Steal::Empty.or_else(Steal::Success(2)), Steal::Success(2));
    assert_eq!(Steal::Empty.or_else(Steal::Empty), Steal::Empty);
    assert_eq!(Steal::Empty.or_else(Steal::Retry), Steal::Retry);
    assert_eq!(Steal::Retry.or_else(Steal::Success(2)), Steal::Success(2));
    assert_eq!(Steal::Retry.or_else(Steal::Empty), Steal::Retry);
    assert_eq!(Steal::Retry.or_else(Steal::Retry), Steal::Retry);
    assert_eq!(Attempt::of_steal(Steal::Empty), Some(Attempt::Nothing));
    assert_eq!(Attempt::of_steal(Steal::Success(3)), Some(Attempt::Stolen(3)));
    assert_eq!(Attempt::of_steal(Steal::Retry), None);
}

#[test]
fn nothing_to_do_is_told() {
    let (_, _, mut local) = alone();
    assert_eq!(local.try_get_task(), Attempt::Nothing);
}

#[test]
fn tasks_run_in_the_order_of_their_wakes() {
    let (mut global, idle, mut local) = alone();
    for number in [11u64, 12, 13, 14] {
        assert_eq!(global.wake_one(number, &idle), None);
    }
    let mut seen = Vec::new();
    loop {
        match local.try_get_task() {
            Attempt::Local(number) | Attempt::Stolen(number) => seen.push(number),
            Attempt::Nothing => break,
            Attempt::Contended => {}
        }
    }
    assert_eq!(seen, vec![11, 12, 13, 14]);
}

#[test]
fn own_queue_comes_before_the_shared_one() {
    let (mut global, idle, _) = alone();
    let queue = Worker::new_fifo();
    queue.push(1);
    queue.push(2);
    let mut local = LocalExecutor::new(0, queue, global.clone());
    global.wake_one(3, &idle);
    assert_eq!(local.try_get_task(), Attempt::Local(1));
    assert_eq!(local.try_get_task(), Attempt::Local(2));
    assert_eq!(local.try_get_task(), Attempt::Stolen(3));
    assert_eq!(local.try_get_task(), Attempt::Nothing);
}

#[test]
fn queue_that_hands_out_the_latest_does_so() {
    let (global, _, _) = alone();
    let queue = Worker::new_lifo();
    queue.push(1);
    queue.push(2);
    let thief = queue.stealer();
    queue.push(3);
    let mut local = LocalExecutor::new(0, queue, global);
    assert_eq!(local.try_get_task(), Attempt::Local(3));
    assert_eq!(thief.steal().success(), Some(1));
    assert_eq!(local.try_get_task(), Attempt::Local(2));
    assert_eq!(local.try_get_task(), Attempt::Nothing);
}

#[test]
fn worker_takes_what_thieves_have_left() {
    let (global, _, _) = alone();
    let queue = Worker::new_fifo();
    for number in 1..=4 {
        queue.push(number);
    }
    let thief = queue.stealer();
    let mut local = LocalExecutor::new(0, queue, global);
    assert_eq!(thief.steal().success(), Some(1));
    assert_eq!(thief.steal().success(), Some(2));
    assert_eq!(local.try_get_task(), Attempt::Local(3));
    assert_eq!(thief.steal().success(), Some(4));
    assert_eq!(local.try_get_task(), Attempt::Nothing);
}

#[test]
fn worker_steals_from_another() {
    let busy = Worker::new_fifo();
    busy.push(21);
    busy.push(22);
    let queue = Worker::new_fifo();
    let (global, _) = GlobalExecutor::new(
        Arc::new(Injector::new()),
        vec![queue.stealer(), busy.stealer()],
        2,
    );
    let mut local = LocalExecutor::new(0, queue, global);
    assert_eq!(local.try_get_task(), Attempt::Stolen(21));
    assert_eq!(busy.pop(), Some(22));
    assert_eq!(local.try_get_task(), Attempt::Nothing);
}

#[test]
fn shared_queue_comes_before_the_others() {
    let busy = Worker::new_fifo();
    busy.push(31);
    let (mut global, idle) =
        GlobalExecutor::new(Arc::new(Injector::new()), vec![busy.stealer()], 1);
    global.wake_one(32, &idle);
    let mut queue = Worker::new_fifo();
    assert_eq!(global.steal(&mut queue), Steal::Success(32));
    let mut other = global.clone();
    assert_eq!(other.steal(&mut queue), Steal::Success(31));
    assert_eq!(global.steal(&mut queue), Steal::Empty);
    assert_eq!(other.steal(&mut queue), Steal::Empty);
}

#[test]
fn spawned_task_is_queued_and_joined() {
    let (mut global, mut idle, mut local) = alone();
    local.mark_idle(&mut idle);
    let (mut handle, worker) = global.spawn::<u32>(41, &idle);
    assert_eq!(worker, Some(0));
    assert_eq!(local.try_get_task(), Attempt::Stolen(41));
    assert_eq!(handle.poll(task()), Poll::Pending);
    assert!(handle.sender().send(99).1.is_some());
    assert_eq!(handle.poll(task()), Poll::Ready(Ok(99)));
    assert_eq!(handle.poll(task()), Poll::Ready(Err(Canceled)));
}

#[test]
fn waiting_task_is_queued_once() {
    let (mut global, mut idle, mut local) = alone();
    let mut waker = TaskWaker::new();
    assert_eq!(global.polled(&mut waker, 51, true, &idle), Woken::Nothing);
    assert_eq!(local.try_get_task(), Attempt::Nothing);
    local.mark_idle(&mut idle);
    assert_eq!(global.wake(&mut waker, &idle), Woken::Queued(Some(0)));
    assert_eq!(global.wake(&mut waker, &idle), Woken::Nothing);
    assert_eq!(local.try_get_task(), Attempt::Stolen(51));
    assert_eq!(local.try_get_task(), Attempt::Nothing);
}

#[test]
fn task_that_was_woken_while_it_was_polled_is_queued_once() {
    let (mut global, mut idle, mut local) = alone();
    local.mark_idle(&mut idle);
    let mut waker = TaskWaker::new();
    assert_eq!(global.wake(&mut waker, &idle), Woken::Nothing);
    assert_eq!(global.wake(&mut waker, &idle), Woken::Nothing);
    assert_eq!(local.try_get_task(), Attempt::Nothing);
    assert_eq!(global.polled(&mut waker, 52, true, &idle), Woken::Queued(Some(0)));
    assert_eq!(global.wake(&mut waker, &idle), Woken::Nothing);
    assert_eq!(local.try_get_task(), Attempt::Stolen(52));
    assert_eq!(local.try_get_task(), Attempt::Nothing);
}

#[test]
fn finished_task_is_never_queued_again() {
    let (mut global, idle, mut local) = alone();
    let mut waker = TaskWaker::new();
    assert_eq!(global.wake(&mut waker, &idle), Woken::Nothing);
    assert_eq!(global.polled(&mut waker, 61, false, &idle), Woken::Nothing);
    assert_eq!(global.wake(&mut waker, &idle), Woken::Nothing);
    assert_eq!(local.try_get_task(), Attempt::Nothing);
}

#[test]
fn worker_that_is_awake_again_is_not_unparked() {
    let mut idle = Idle::new(2);
    let (mut global, _, _) = alone();
    let first = LocalExecutor::new(0, Worker::new_fifo(), global.clone());
    let second = LocalExecutor::new(1, Worker::new_fifo(), global.clone());
    first.mark_idle(&mut idle);
    second.mark_idle(&mut idle);
    assert_eq!(global.wake_one(1, &idle), Some(0));
    first.unmark_idle(&mut idle);
    assert_eq!(global.wake_one(2, &idle), Some(1));
    second.unmark_idle(&mut idle);
    assert_eq!(global.wake_one(3, &idle), None);
}

#[test]
fn task_that_came_before_the_mark_is_found() {
    let (mut global, mut idle, mut local) = alone();
    let stage = PollOnce::new().advance(WorkerEvent::Sought(local.try_get_task()));
    assert_eq!(stage, PollOnce::Mark);
    assert_eq!(global.wake_one(81, &idle), None);
    local.mark_idle(&mut idle);
    let stage = stage.advance(WorkerEvent::Marked);
    assert_eq!(stage, PollOnce::Recheck);
    let stage = stage.advance(WorkerEvent::Sought(local.try_get_task()));
    assert_eq!(stage, PollOnce::Unmark(Some(81)));
    local.unmark_idle(&mut idle);
    assert_eq!(stage.advance(WorkerEvent::Unmarked), PollOnce::Poll(81));
    assert_eq!(idle.first(), None);
}

#[test]
fn handles_share_one_queue() {
    let (global, idle, mut local) = alone();
    let mut first = global.clone();
    let mut second = global.clone();
    first.wake_one(71, &idle);
    second.wake_one(72, &idle);
    assert_eq!(local.try_get_task(), Attempt::Stolen(71));
    assert!(matches!(local.try_get_task(), Attempt::Local(72) | Attempt::Stolen(72)));
}

#[test]
fn maintenance_does_not_wait() {
    let (_, _, local) = alone();
    assert_eq!(local.maintenance(), 0);
}

#[test]
fn round_of_a_worker() {
    let stage = PollOnce::new();
    assert_eq!(stage, PollOnce::Seek);
    let stage = stage.advance(WorkerEvent::Sought(Attempt::Contended));
    assert_eq!(stage, PollOnce::Seek);
    let stage = stage.advance(WorkerEvent::Sought(Attempt::Nothing));
    assert_eq!(stage, PollOnce::Mark);
    let stage = stage.advance(WorkerEvent::Marked);
    assert_eq!(stage, PollOnce::Recheck);
    let stage = stage.advance(WorkerEvent::Sought(Attempt::Contended));
    assert_eq!(stage, PollOnce::Recheck);
    assert_eq!(
        stage.advance(WorkerEvent::Sought(Attempt::Stolen(4))),
        PollOnce::Unmark(Some(4))
    );
    let stage = stage.advance(WorkerEvent::Sought(Attempt::Nothing));
    assert_eq!(stage, PollOnce::Park);
    let stage = stage.advance(WorkerEvent::Unparked);
    assert_eq!(stage, PollOnce::Unmark(None));
    let stage = stage.advance(WorkerEvent::Unmarked);
    assert_eq!(stage, PollOnce::Seek);
    assert_eq!(
        stage.advance(WorkerEvent::Sought(Attempt::Local(5))),
        PollOnce::Poll(5)
    );
    let stage = stage.advance(WorkerEvent::Sought(Attempt::Stolen(6)));
    assert_eq!(stage, PollOnce::Poll(6));
    assert_eq!(stage.advance(WorkerEvent::Polled), PollOnce::Done);
}
