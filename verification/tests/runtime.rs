use std::sync::atomic::{AtomicBool, Ordering};
use std::sync::Arc;
use std::task::{Wake, Waker};
use what_the_async::executor::Attempt;
use what_the_async::runtime::{
    default_workers, BlockEvent, BlockOn, BlockStep, Runtime, Ticks,
};
use what_the_async::task::Poll;

#[test]
fn default_number_of_workers() {
    assert_eq!(default_workers(Some(16)), 16);
    assert_eq!(default_workers(Some(1)), 1);
    assert_eq!(default_workers(None), 4);
}

#[test]
fn workers_share_their_tasks() {
    let runtime = Runtime::new(3);
    assert_eq!(runtime.locals.len(), 3);
    assert_eq!(runtime.idle.workers(), 3);
    assert_eq!(runtime.idle.first(), None);
    let mut global = runtime.global;
    let mut idle = runtime.idle;
    let mut locals = runtime.locals;
    for (id, local) in locals.iter_mut().enumerate().rev() {
        assert_eq!(local.try_get_task(), Attempt::Nothing);
        local.mark_idle(&mut idle);
        assert_eq!(idle.first(), Some(id));
    }
    for number in 0..8u64 {
        assert_eq!(global.wake_one(number, &idle), Some(0));
    }
    assert_eq!(locals[2].try_get_task(), Attempt::Stolen(0));
    let mut seen = vec![0];
    while let Attempt::Local(number) | Attempt::Stolen(number) = locals[1].try_get_task() {
        seen.push(number);
    }
    seen.sort();
    assert_eq!(seen, (0..8).collect::<Vec<u64>>());
    assert_eq!(locals[0].try_get_task(), Attempt::Nothing);
    assert_eq!(locals[2].try_get_task(), Attempt::Nothing);
}

#[test]
fn runtime_without_workers() {
    let runtime = Runtime::new(0);
    assert_eq!(runtime.locals.len(), 0);
    let mut global = runtime.global;
    assert_eq!(global.wake_one(1, &runtime.idle), None);
}

#[test]
fn maintenance_is_regular() {
    let mut ticks = Ticks::new();
    for task in 1..=200u32 {
        assert_eq!(ticks.tick(), task % 61 == 0);
    }
}

fn go(stage: BlockOn, event: BlockEvent<u8>) -> BlockOn {
    match stage.advance(event) {
        BlockStep::Go(next) => next,
        BlockStep::Return(_) => panic!("the future is finished"),
    }
}

#[test]
fn future_is_polled_until_it_is_finished() {
    let stage = BlockOn::new();
    assert_eq!(stage, BlockOn::Load);
    let stage = go(stage, BlockEvent::Loaded(true));
    assert_eq!(stage, BlockOn::Poll);
    let stage = go(stage, BlockEvent::Polled(Poll::Pending));
    assert_eq!(stage, BlockOn::Load);
    let stage = go(stage, BlockEvent::Loaded(false));
    assert_eq!(stage, BlockOn::Park);
    let stage = go(stage, BlockEvent::Unparked);
    assert_eq!(stage, BlockOn::Load);
    let stage = go(stage, BlockEvent::Loaded(true));
    assert!(matches!(
        stage.advance(BlockEvent::Polled(Poll::Ready(7))),
        BlockStep::Return(7)
    ));
}

struct Flag(AtomicBool);

impl Wake for Flag {
    fn wake(self: Arc<Self>) {
        self.0.store(true, Ordering::SeqCst);
    }
}

fn block_on(mut poll: impl FnMut(&Waker) -> Poll<u8>) -> Result<u8, &'static str> {
    let ready = Arc::new(Flag(AtomicBool::new(true)));
    let waker = Waker::from(ready.clone());
    let mut stage = BlockOn::new();
    loop {
        let event = match stage {
            BlockOn::Load => BlockEvent::Loaded(ready.0.swap(false, Ordering::SeqCst)),
            BlockOn::Poll => BlockEvent::Polled(poll(&waker)),
            BlockOn::Park => return Err("parked"),
        };
        match stage.advance(event) {
            BlockStep::Go(next) => stage = next,
            BlockStep::Return(value) => return Ok(value),
        }
    }
}

#[test]
fn wake_during_a_poll_is_not_lost() {
    let mut polls = 0;
    let result = block_on(|waker| {
        polls += 1;
        if polls == 1 {
            waker.wake_by_ref();
            Poll::Pending
        } else {
            Poll::Ready(7)
        }
    });
    assert_eq!(result, Ok(7));
    assert_eq!(polls, 2);
}

#[test]
fn future_that_is_not_woken_is_polled_once() {
    let mut polls = 0;
    let result = block_on(|_| {
        polls += 1;
        Poll::Pending
    });
    assert_eq!(result, Err("parked"));
    assert_eq!(polls, 1);
}
