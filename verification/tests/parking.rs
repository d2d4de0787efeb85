use what_the_async::executor::thread::{
    ParkAction, ParkEvent, ParkStage, Parking, Unparking, UnparkAction, WordOp, EMPTY, NOTIFIED,
    PARKED,
};

fn access(word: &mut usize, op: WordOp) -> Result<usize, usize> {
    let seen = *word;
    match op {
        WordOp::Swap { new } => {
            *word = new;
            Ok(seen)
        }
        WordOp::CompareExchange { current, new } => {
            if seen == current {
                *word = new;
                Ok(seen)
            } else {
                Err(seen)
            }
        }
    }
}

fn park_until_wait(parking: &mut Parking, word: &mut usize) -> ParkAction {
    loop {
        match parking.action() {
            ParkAction::Access(op) => {
                let reported = access(word, op);
                parking.advance(ParkEvent::Accessed(reported));
            }
            ParkAction::Acquire => parking.advance(ParkEvent::Acquired),
            action => return action,
        }
    }
}

fn unpark(word: &mut usize) -> Vec<UnparkAction> {
    let mut unparking = Unparking::unpark();
    let mut actions = Vec::new();
    loop {
        let action = unparking.action();
        actions.push(action);
        match action {
            UnparkAction::Access(op) => unparking.accessed(access(word, op).unwrap()),
            UnparkAction::PassMutex | UnparkAction::NotifyOne => unparking.performed(),
            UnparkAction::Return | UnparkAction::Fail(_) => return actions,
        }
    }
}

const LEAVE: UnparkAction = UnparkAction::Access(WordOp::Swap { new: NOTIFIED });

#[test]
fn park_after_unpark_returns() {
    let mut word = EMPTY;
    assert_eq!(unpark(&mut word), vec![LEAVE, UnparkAction::Return]);
    assert_eq!(word, NOTIFIED);
    let mut parking = Parking::park();
    assert_eq!(park_until_wait(&mut parking, &mut word), ParkAction::Return);
    assert_eq!(word, EMPTY);
}

#[test]
fn notifications_coalesce() {
    let mut word = EMPTY;
    unpark(&mut word);
    assert_eq!(unpark(&mut word), vec![LEAVE, UnparkAction::Return]);
    let mut parking = Parking::park();
    assert_eq!(park_until_wait(&mut parking, &mut word), ParkAction::Return);
    let mut parking = Parking::park();
    assert_eq!(park_until_wait(&mut parking, &mut word), ParkAction::Wait);
    assert_eq!(word, PARKED);
}

#[test]
fn parked_thread_is_signalled() {
    let mut word = EMPTY;
    let mut parking = Parking::park();
    assert_eq!(park_until_wait(&mut parking, &mut word), ParkAction::Wait);
    assert_eq!(
        unpark(&mut word),
        vec![LEAVE, UnparkAction::PassMutex, UnparkAction::NotifyOne, UnparkAction::Return]
    );
    parking.advance(ParkEvent::Woken);
    assert_eq!(park_until_wait(&mut parking, &mut word), ParkAction::Return);
    assert_eq!(word, EMPTY);
}

#[test]
fn spurious_wakeup_goes_back_to_sleep() {
    let mut word = EMPTY;
    let mut parking = Parking::park();
    assert_eq!(park_until_wait(&mut parking, &mut word), ParkAction::Wait);
    parking.advance(ParkEvent::Woken);
    assert_eq!(park_until_wait(&mut parking, &mut word), ParkAction::Wait);
    assert_eq!(word, PARKED);
}

#[test]
fn notification_before_the_mutex_is_drained() {
    let mut word = EMPTY;
    let mut parking = Parking::park();
    match parking.action() {
        ParkAction::Access(op) => {
            let reported = access(&mut word, op);
            parking.advance(ParkEvent::Accessed(reported));
        }
        _ => panic!("the word comes first"),
    }
    assert_eq!(parking.action(), ParkAction::Acquire);
    unpark(&mut word);
    parking.advance(ParkEvent::Acquired);
    assert_eq!(park_until_wait(&mut parking, &mut word), ParkAction::Return);
    assert_eq!(word, EMPTY);
}

#[test]
fn zero_timeout_never_blocks() {
    let mut word = EMPTY;
    let mut parking = Parking::park_timeout(0);
    assert_eq!(park_until_wait(&mut parking, &mut word), ParkAction::Return);
    assert_eq!(word, EMPTY);
    unpark(&mut word);
    let mut parking = Parking::park_timeout(0);
    assert_eq!(park_until_wait(&mut parking, &mut word), ParkAction::Return);
    assert_eq!(word, EMPTY);
}

#[test]
fn timed_wait_ends_with_or_without_a_notification() {
    for notified in [false, true] {
        let mut word = EMPTY;
        let mut parking = Parking::park_timeout(30);
        assert_eq!(park_until_wait(&mut parking, &mut word), ParkAction::WaitTimeout(30));
        if notified {
            unpark(&mut word);
        }
        parking.advance(ParkEvent::Woken);
        assert_eq!(park_until_wait(&mut parking, &mut word), ParkAction::Return);
        assert_eq!(word, EMPTY);
    }
}

#[test]
fn inconsistent_word_is_reported() {
    let mut word = 9;
    let mut parking = Parking::park();
    assert_eq!(park_until_wait(&mut parking, &mut word), ParkAction::Fail(9));
    assert_eq!(unpark(&mut word), vec![LEAVE, UnparkAction::Fail(9)]);

    let mut parking = Parking { limit: Some(1), stage: ParkStage::Settle };
    parking.advance(ParkEvent::Accessed(Ok(EMPTY)));
    assert_eq!(parking.action(), ParkAction::Fail(EMPTY));

    let mut parking = Parking { limit: None, stage: ParkStage::Drain };
    parking.advance(ParkEvent::Accessed(Ok(PARKED)));
    assert_eq!(parking.action(), ParkAction::Fail(PARKED));
}
