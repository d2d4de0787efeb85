use std::sync::atomic::{AtomicUsize, Ordering};
use std::sync::Arc;
use std::task::{Wake, Waker};
use what_the_async::executor::join::JoinHandle;
use what_the_async::oneshot::{
    terminated, Canceled, Inner, RecvEvent, RecvStage, RecvStep, SendStep,
};
use what_the_async::task::Poll;

struct Count(AtomicUsize);

impl Wake for Count {
    fn wake(self: Arc<Self>) {
        self.0.fetch_add(1, Ordering::SeqCst);
    }
}

fn task() -> (Arc<Count>, Waker) {
    let count = Arc::new(Count(AtomicUsize::new(0)));
    (count.clone(), Waker::from(count))
}

fn woken(count: &Count) -> usize {
    count.0.load(Ordering::SeqCst)
}

#[test]
fn message_is_received() {
    let (_, waker) = task();
    let mut inner: Inner<i32> = Inner::new();
    let (sent, waiting) = inner.sender().send(3);
    assert_eq!(sent, Ok(()));
    assert!(waiting.is_none());
    assert_eq!(inner.poll_recv(waker), Poll::Ready(Ok(3)));
}

#[test]
fn message_is_received_only_once() {
    let (_, waker) = task();
    let mut inner: Inner<i32> = Inner::new();
    assert_eq!(inner.sender().send(3).0, Ok(()));
    assert!(!inner.is_terminated());
    assert_eq!(inner.recv().poll(waker.clone()), Poll::Ready(Ok(3)));
    assert!(inner.is_terminated());
    assert_eq!(inner.recv().poll(waker), Poll::Ready(Err(Canceled)));
}

#[test]
fn waiting_task_is_handed_out_to_be_woken() {
    let (count, waker) = task();
    let mut inner: Inner<i32> = Inner::new();
    assert_eq!(inner.poll_recv(waker.clone()), Poll::Pending);
    assert!(!inner.is_terminated());
    let (sent, waiting) = inner.sender().send(8);
    assert_eq!(sent, Ok(()));
    waiting.unwrap().wake();
    assert_eq!(woken(&count), 1);
    assert_eq!(inner.poll_recv(waker), Poll::Ready(Ok(8)));
}

#[test]
fn latest_poller_is_woken() {
    let (first, first_waker) = task();
    let (second, second_waker) = task();
    let mut inner: Inner<i32> = Inner::new();
    assert_eq!(inner.poll_recv(first_waker), Poll::Pending);
    assert_eq!(inner.poll_recv(second_waker), Poll::Pending);
    inner.sender().send(1).1.unwrap().wake();
    assert_eq!((woken(&first), woken(&second)), (0, 1));
}

#[test]
fn dropped_sender_cancels() {
    let (count, waker) = task();
    let mut inner: Inner<i32> = Inner::new();
    assert_eq!(inner.poll_recv(waker.clone()), Poll::Pending);
    inner.sender().cancel().unwrap().wake();
    assert_eq!(woken(&count), 1);
    assert!(inner.is_terminated());
    assert_eq!(inner.poll_recv(waker), Poll::Ready(Err(Canceled)));
}

#[test]
fn message_is_handed_back_if_the_receiver_is_gone() {
    let (_, waker) = task();
    let mut inner: Inner<i32> = Inner::new();
    assert_eq!(inner.poll_recv(waker), Poll::Pending);
    inner.recv().close();
    let (sent, waiting) = inner.sender().send(4);
    assert_eq!(sent, Err(4));
    assert!(waiting.is_none());
    assert!(inner.is_terminated());
}

#[test]
fn cancellation_has_a_message() {
    assert_eq!(Canceled.message(), "oneshot canceled");
}

#[test]
fn join_gets_the_result() {
    let (count, waker) = task();
    let mut handle: JoinHandle<&str> = JoinHandle::new();
    assert_eq!(handle.poll(waker.clone()), Poll::Pending);
    let (sent, waiting) = handle.sender().send("done");
    assert_eq!(sent, Ok(()));
    waiting.unwrap().wake();
    assert_eq!(woken(&count), 1);
    assert_eq!(handle.poll(waker), Poll::Ready(Ok("done")));
}

#[test]
fn join_of_a_task_that_gave_up_is_canceled() {
    let (_, waker) = task();
    let mut handle: JoinHandle<u8> = JoinHandle::new();
    assert!(handle.sender().cancel().is_none());
    assert_eq!(handle.poll(waker), Poll::Ready(Err(Canceled)));
}

#[test]
fn detached_task_gets_its_result_back() {
    let mut handle: JoinHandle<u8> = JoinHandle::new();
    handle.detach();
    assert_eq!(handle.sender().send(5).0, Err(5));
}

#[test]
fn channel_is_terminated_once_it_has_nothing_to_give() {
    assert!(!terminated(false, Some(false)));
    assert!(!terminated(false, None));
    assert!(!terminated(true, Some(true)));
    assert!(terminated(true, Some(false)));
    assert!(terminated(true, None));
}

#[test]
fn sender_checks_before_it_stores() {
    assert_eq!(SendStep::check(false, 2), SendStep::Store(2));
    assert_eq!(SendStep::check(true, 2), SendStep::Refuse(2));
}

fn go(stage: RecvStage, event: RecvEvent<u8>) -> RecvStage {
    match stage.advance(event) {
        RecvStep::Go(next) => next,
        RecvStep::Return(_) => panic!("the poll is over"),
    }
}

fn end(stage: RecvStage, event: RecvEvent<u8>) -> Poll<Result<u8, Canceled>> {
    match stage.advance(event) {
        RecvStep::Go(_) => panic!("the poll goes on"),
        RecvStep::Return(polled) => polled,
    }
}

#[test]
fn complete_channel_is_read_at_once() {
    let take = go(RecvStage::Load, RecvEvent::Complete(true));
    assert_eq!(take, RecvStage::Take);
    assert_eq!(end(take, RecvEvent::Taken(Some(6))), Poll::Ready(Ok(6)));
    assert_eq!(end(take, RecvEvent::Taken(None)), Poll::Ready(Err(Canceled)));
}

#[test]
fn poll_looks_again_after_it_has_stored_its_task() {
    let store = go(RecvStage::Load, RecvEvent::Complete(false));
    assert_eq!(store, RecvStage::Store);
    let reload = go(store, RecvEvent::Stored);
    assert_eq!(reload, RecvStage::Reload);
    assert_eq!(go(reload, RecvEvent::Complete(true)), RecvStage::Take);
    assert_eq!(end(reload, RecvEvent::Complete(false)), Poll::Pending);
}
