use std::sync::{Arc, Mutex};
use std::task::{Wake, Waker};
use what_the_async::reactor::timers::{Driver, Queue, Sleep};
use what_the_async::task::Poll;

struct Name(usize, Arc<Mutex<Vec<usize>>>);

impl Wake for Name {
    fn wake(self: Arc<Self>) {
        self.1.lock().unwrap().push(self.0);
    }
}

struct Tasks {
    woken: Arc<Mutex<Vec<usize>>>,
}

impl Tasks {
    fn new() -> Tasks {
        Tasks { woken: Arc::new(Mutex::new(Vec::new())) }
    }

    fn task(&self, name: usize) -> Waker {
        Waker::from(Arc::new(Name(name, self.woken.clone())))
    }

    fn wake(&self, tasks: Vec<Waker>) -> Vec<usize> {
        for task in tasks {
            task.wake();
        }
        std::mem::take(&mut *self.woken.lock().unwrap())
    }
}

#[test]
fn sleep_until_and_for() {
    assert_eq!(Sleep::until(70).instant, 70);
    assert_eq!(Sleep::duration(70, 30).instant, 100);
    assert_eq!(Sleep::duration(70, 30), Sleep::until(100));
}

#[test]
fn sleep_that_is_over_is_ready() {
    let tasks = Tasks::new();
    let mut timers = Queue::default();
    assert_eq!(Sleep::until(5).poll(5, tasks.task(0), &mut timers), Poll::Ready(()));
    assert_eq!(Sleep::until(5).poll(9, tasks.task(0), &mut timers), Poll::Ready(()));
    assert!(timers.iter(u128::MAX).next().is_none());
}

#[test]
fn sleep_that_is_not_over_registers_its_task() {
    let tasks = Tasks::new();
    let mut timers = Queue::default();
    assert_eq!(Sleep::until(5).poll(4, tasks.task(1), &mut timers), Poll::Pending);
    assert!(timers.iter(4).next().is_none());
    let task = timers.iter(5).next().unwrap();
    assert_eq!(tasks.wake(vec![task]), vec![1]);
    assert!(timers.iter(5).next().is_none());
}

#[test]
fn queue_hands_out_the_earliest_first() {
    let tasks = Tasks::new();
    let mut timers = Queue::default();
    for instant in [30u128, 10, 50, 20, 40] {
        timers.insert(instant, tasks.task(instant as usize));
    }
    let mut iter = timers.iter(40);
    let mut due = Vec::new();
    while let Some(task) = iter.next() {
        due.push(task);
    }
    assert_eq!(tasks.wake(due), vec![10, 20, 30, 40]);
    assert!(timers.iter(49).next().is_none());
    assert!(timers.iter(50).next().is_some());
}

#[test]
fn equal_instants_are_all_handed_out() {
    let tasks = Tasks::new();
    let mut timers = Queue::default();
    for name in 0..4 {
        timers.insert(7, tasks.task(name));
    }
    let mut iter = timers.iter(7);
    let mut due = Vec::new();
    while let Some(task) = iter.next() {
        due.push(task);
    }
    let mut names = tasks.wake(due);
    names.sort();
    assert_eq!(names, vec![0, 1, 2, 3]);
}

#[test]
fn driver_takes_timers_over() {
    let tasks = Tasks::new();
    let mut driver = Driver::default();
    let mut global = Queue::default();
    global.insert(20, tasks.task(20));
    global.insert(10, tasks.task(10));
    assert_eq!(driver.before_park(&mut global, 5, None), Some(5));
    assert!(global.iter(u128::MAX).next().is_none());
    assert_eq!(tasks.wake(driver.after_park(9)), Vec::<usize>::new());
    assert_eq!(tasks.wake(driver.after_park(10)), vec![10]);
    assert_eq!(tasks.wake(driver.after_park(10)), Vec::<usize>::new());
    assert_eq!(tasks.wake(driver.after_park(25)), vec![20]);
}

#[test]
fn park_is_as_long_as_the_shorter_limit() {
    let tasks = Tasks::new();
    let mut driver = Driver::default();
    let mut global = Queue::default();
    assert_eq!(driver.before_park(&mut global, 0, None), None);
    assert_eq!(driver.before_park(&mut global, 0, Some(4)), Some(4));
    global.insert(10, tasks.task(0));
    assert_eq!(driver.before_park(&mut global, 3, Some(4)), Some(4));
    assert_eq!(driver.before_park(&mut global, 3, Some(9)), Some(7));
    assert_eq!(driver.before_park(&mut global, 3, Some(0)), Some(0));
    assert_eq!(driver.before_park(&mut global, 10, None), Some(0));
    assert_eq!(driver.before_park(&mut global, 11, None), Some(0));
    assert_eq!(driver.before_park(&mut global, 11, Some(2)), Some(0));
    assert_eq!(tasks.wake(driver.after_park(11)), vec![0]);
    assert_eq!(driver.before_park(&mut global, 11, None), None);
}

#[test]
fn elapsed_timers_wake_whenever_they_were_registered() {
    let tasks = Tasks::new();
    let mut driver = Driver::default();
    let mut global = Queue::default();
    global.insert(10, tasks.task(10));
    global.insert(40, tasks.task(40));
    assert_eq!(driver.before_park(&mut global, 0, None), Some(10));
    global.insert(20, tasks.task(20));
    global.insert(5, tasks.task(5));
    assert_eq!(driver.before_park(&mut global, 0, None), Some(5));
    assert_eq!(tasks.wake(driver.after_park(15)), vec![5, 10]);
    assert_eq!(driver.before_park(&mut global, 15, None), Some(5));
    assert_eq!(tasks.wake(driver.after_park(40)), vec![20, 40]);
    assert_eq!(driver.before_park(&mut global, 40, None), None);
}
