use tokio::sync::mpsc::unbounded_channel;
use what_the_async::reactor::io::{Delivery, Event, PollError, Registry, WAKE_TOKEN};

#[test]
fn event_knows_what_it_was_made_of() {
    for bits in 0..16u8 {
        let (r, w, rc, wc) = (bits & 1 != 0, bits & 2 != 0, bits & 4 != 0, bits & 8 != 0);
        let event = Event::new(r, w, rc, wc);
        assert_eq!(event.is_readable(), r || rc);
        assert_eq!(event.is_writable(), w || wc);
        assert_eq!(event.is_read_closed(), rc);
        assert_eq!(event.is_write_closed(), wc);
        assert_eq!(format!("{:?}", event), format!("Event({})", bits));
    }
}

#[test]
fn event_reaches_the_channel_of_its_source() {
    let mut registry = Registry::default();
    let (first_tx, mut first) = unbounded_channel();
    let (second_tx, mut second) = unbounded_channel();
    let first_token = registry.register(first_tx).unwrap();
    let second_token = registry.register(second_tx).unwrap();
    assert_ne!(first_token, second_token);
    let event = Event::new(true, false, false, false);
    assert_eq!(registry.dispatch(second_token, event), Delivery::Delivered);
    assert!(first.try_recv().is_err());
    assert_eq!(second.try_recv().unwrap(), event);
    assert!(second.try_recv().is_err());
}

#[test]
fn source_without_a_channel_gets_nothing() {
    let mut registry = Registry::default();
    let event = Event::new(false, true, false, false);
    assert_eq!(registry.dispatch(3, event), Delivery::Absent);
    assert_eq!(registry.dispatch(WAKE_TOKEN, event), Delivery::Absent);
}

#[test]
fn no_source_gets_the_wake_token() {
    let mut registry = Registry::default();
    let mut receivers = Vec::new();
    for _ in 0..200 {
        let (tx, rx) = unbounded_channel();
        assert_ne!(registry.register(tx).unwrap(), WAKE_TOKEN);
        receivers.push(rx);
    }
    let event = Event::new(true, true, true, true);
    assert_eq!(registry.dispatch(WAKE_TOKEN, event), Delivery::Absent);
    for mut rx in receivers {
        assert!(rx.try_recv().is_err());
    }
}

#[test]
fn there_is_room_for_many_sources() {
    let mut registry = Registry::default();
    let mut receivers = Vec::new();
    let mut tokens = Vec::new();
    for _ in 0..100_000 {
        let (tx, rx) = unbounded_channel();
        tokens.push(registry.register(tx).unwrap());
        receivers.push(rx);
    }
    for token in tokens {
        assert!(registry.deregister(token));
    }
    for _ in 0..100 {
        let (tx, _rx) = unbounded_channel();
        assert!(registry.register(tx).is_some());
    }
}

#[test]
fn deregistered_source_gets_nothing() {
    let mut registry = Registry::default();
    let (tx, mut rx) = unbounded_channel();
    let token = registry.register(tx).unwrap();
    assert!(registry.deregister(token));
    assert!(!registry.deregister(token));
    let event = Event::new(true, false, false, false);
    assert_eq!(registry.dispatch(token, event), Delivery::Absent);
    assert!(rx.try_recv().is_err());
}

#[test]
fn channel_whose_other_end_is_gone_is_taken_away() {
    let mut registry = Registry::default();
    let (tx, rx) = unbounded_channel();
    let token = registry.register(tx).unwrap();
    drop(rx);
    let event = Event::new(true, false, false, false);
    assert_eq!(registry.dispatch(token, event), Delivery::Closed);
    assert_eq!(registry.dispatch(token, event), Delivery::Absent);
    assert!(!registry.deregister(token));
}

#[test]
fn settling_takes_only_closed_channels_away() {
    let mut registry = Registry::default();
    let (tx, _rx) = unbounded_channel();
    let token = registry.register(tx).unwrap();
    registry.settle(token, Delivery::Delivered);
    registry.settle(token, Delivery::Absent);
    let event = Event::new(true, false, false, false);
    assert_eq!(registry.dispatch(token, event), Delivery::Delivered);
    registry.settle(token, Delivery::Closed);
    assert_eq!(registry.dispatch(token, event), Delivery::Absent);
}

#[test]
fn events_are_dispatched_in_order() {
    let mut registry = Registry::default();
    let (first_tx, mut first) = unbounded_channel();
    let (second_tx, second) = unbounded_channel();
    let first_token = registry.register(first_tx).unwrap();
    let second_token = registry.register(second_tx).unwrap();
    drop(second);
    let readable = Event::new(true, false, false, false);
    let writable = Event::new(false, true, false, false);
    let events = vec![
        (first_token, readable),
        (second_token, readable),
        (WAKE_TOKEN, readable),
        (first_token, writable),
        (second_token, writable),
    ];
    let deliveries = registry.process(Ok(()), &events).unwrap();
    assert_eq!(
        deliveries,
        vec![
            Delivery::Delivered,
            Delivery::Closed,
            Delivery::Absent,
            Delivery::Delivered,
            Delivery::Absent,
        ]
    );
    assert_eq!(first.try_recv().unwrap(), readable);
    assert_eq!(first.try_recv().unwrap(), writable);
    assert!(first.try_recv().is_err());
}

#[test]
fn interrupted_wait_brings_nothing() {
    let mut registry = Registry::default();
    let (tx, mut rx) = unbounded_channel();
    let token = registry.register(tx).unwrap();
    let events = vec![(token, Event::new(true, false, false, false))];
    assert_eq!(registry.process(Err(PollError::Interrupted), &events), Ok(vec![]));
    assert!(rx.try_recv().is_err());
}

#[test]
fn failed_wait_is_an_error() {
    let mut registry = Registry::default();
    let (tx, mut rx) = unbounded_channel();
    let token = registry.register(tx).unwrap();
    let events = vec![(token, Event::new(true, false, false, false))];
    assert_eq!(registry.process(Err(PollError::Other), &events), Err(PollError::Other));
    assert!(rx.try_recv().is_err());
}
