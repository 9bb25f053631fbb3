use naos_selector::{
    Abi, EpollEvent, Error, Event, Events, Finished, Interest, Operation, SelectStep, Selector,
    TimeClock, Timeout, Token, Wait, Waker,
};

const ABI: Abi = Abi {
    status_ok: 0,
    status_would_block: -11,
    status_wait_timed_out: -60,
    event_readable: 1,
    event_writable: 2,
    event_error: 4,
    event_hangup: 8,
    event_edge_triggered: 0x100,
};

const READ: Interest = Interest { readable: true, writable: false };
const WAKE: EpollEvent = EpollEvent { events: 1, data: u64::MAX };

fn selector() -> Selector {
    let channel = Selector::new(ABI).resume(0, 10).unwrap();
    channel.resume(0, 11, 12).unwrap().resume(0).unwrap()
}

fn entry(events: u64, data: u64) -> EpollEvent {
    EpollEvent { events, data }
}

fn readable(token: usize) -> Event {
    Event::new(Token(token), true, false, false, false, false)
}

fn wait(selector: &Selector, capacity: usize) -> Wait {
    match selector.select(capacity, None) {
        SelectStep::Wait(wait) => wait,
        _ => panic!("no wait"),
    }
}

fn done(step: SelectStep) -> Finished {
    match step {
        SelectStep::Done(finished) => finished,
        _ => panic!("not over"),
    }
}

/// Drives a wait through one batch, with a wake channel that held one message.
fn run(selector: &mut Selector, wait: Wait, batch: Vec<EpollEvent>) -> SelectStep {
    let actual = batch.len() as u64;
    let mut step = wait.resume(0, batch, actual);
    loop {
        step = match step {
            SelectStep::ReceiveWake(receive) => match receive.resume(0) {
                SelectStep::ReceiveWake(receive) => receive.resume(-11),
                _ => panic!("drained too early"),
            },
            SelectStep::TakeWakes(take) => take.resume(selector.take_wakes()),
            SelectStep::ReadWakeToken(read) => read.resume(Some(selector.wake_token())),
            other => return other,
        };
    }
}

#[test]
fn wait_without_timeout_has_no_deadline() {
    let wait = wait(&selector(), 8);
    assert_eq!(wait.epoll, 10);
    assert_eq!(wait.wake_receiver, 11);
    assert_eq!(wait.abi, ABI);
    assert_eq!(wait.deadline, None);
    assert_eq!(wait.batch_len(), 8);
}

#[test]
fn timeout_becomes_a_deadline() {
    let timeout = Timeout { secs: 2, nanos: 600_000_000 };
    let read = match selector().select(4, Some(timeout)) {
        SelectStep::ReadClock(read) => read,
        _ => panic!("no clock"),
    };
    assert_eq!(read.timeout, timeout);
    let now = TimeClock { tv_sec: 100, tv_nsec: 500_000_000 };
    match read.resume(0, now) {
        SelectStep::Wait(wait) => {
            assert_eq!(wait.deadline, Some(TimeClock { tv_sec: 103, tv_nsec: 100_000_000 }));
            assert_eq!(wait.capacity, 4);
        }
        _ => panic!("no wait"),
    }
}

#[test]
fn elapsed_wait_reports_nothing() {
    let wait = wait(&selector(), 4);
    for status in [-60, -11] {
        let finished = done(wait.resume(status, vec![entry(1, 3)], 1));
        assert_eq!(finished.events, vec![]);
        assert_eq!(finished.result, Ok(()));
    }
}

#[test]
fn failed_wait_reports_its_status() {
    let finished = done(wait(&selector(), 4).resume(-2, vec![entry(1, 3)], 1));
    assert_eq!(finished.events, vec![]);
    assert_eq!(
        finished.result,
        Err(Error::Status { operation: Operation::EpollWait, status: -2 })
    );
}

#[test]
fn ready_entries_are_reported_in_order() {
    let batch = vec![entry(1, 3), entry(2, 4), entry(3, 5), entry(4, 6), entry(8, 7), entry(0, 8)];
    let finished = done(wait(&selector(), 8).resume(0, batch, 6));
    assert_eq!(
        finished.events,
        vec![
            Event::new(Token(3), true, false, false, false, false),
            Event::new(Token(4), false, true, false, false, false),
            Event::new(Token(5), true, true, false, false, false),
            Event::new(Token(6), false, false, true, false, false),
            Event::new(Token(7), true, true, false, true, true),
            Event::new(Token(8), false, false, false, false, false),
        ]
    );
    assert_eq!(finished.result, Ok(()));
}

#[test]
fn only_written_entries_count() {
    let buffer = vec![entry(1, 3), entry(1, 4), entry(0, 0), entry(0, 0)];
    let wait = wait(&selector(), 4);
    assert_eq!(done(wait.resume(0, buffer.clone(), 2)).events, vec![readable(3), readable(4)]);
    assert_eq!(done(wait.resume(0, buffer.clone(), 0)).events, vec![]);
    assert_eq!(done(wait.resume(0, buffer, 99)).events.len(), 4);
}

#[test]
fn no_more_events_than_room() {
    let buffer = vec![entry(1, 3), entry(1, 4), entry(1, 5)];
    let events = done(wait(&selector(), 2).resume(0, buffer, 3)).events;
    assert_eq!(events, vec![readable(3), readable(4)]);
}

#[test]
fn full_batch_with_wakeup_fits() {
    let mut selector = selector();
    let waker = Waker::new(&mut selector, Token(99));
    waker.wake(&mut selector);
    let wait = wait(&selector, 3);
    let finished = done(run(&mut selector, wait, vec![entry(1, 3), WAKE, entry(1, 4)]));
    assert_eq!(finished.events, vec![readable(3), readable(4), readable(99)]);
}

#[test]
fn caller_without_room_waits_for_one_entry() {
    let mut selector = selector();
    let wait = wait(&selector, 0);
    assert_eq!(wait.batch_len(), 1);
    assert_eq!(done(wait.resume(0, vec![entry(1, 3)], 1)).events, vec![readable(3)]);

    let waker = Waker::new(&mut selector, Token(99));
    waker.wake(&mut selector);
    let finished = done(run(&mut selector, wait, vec![WAKE]));
    assert_eq!(finished.events, vec![]);
    assert_eq!(finished.result, Ok(()));
    assert!(!selector.take_wakes().external);
}

#[test]
fn wake_channel_is_drained_until_it_would_block() {
    let wait = wait(&selector(), 4);
    let mut step = wait.resume(0, vec![entry(1, 3), WAKE, entry(1, 4)], 3);
    for _ in 0..3 {
        step = match step {
            SelectStep::ReceiveWake(receive) => {
                assert_eq!(receive.events, vec![readable(3)]);
                receive.resume(0)
            }
            _ => panic!("not draining"),
        };
    }
    match step {
        SelectStep::ReceiveWake(receive) => match receive.resume(-11) {
            SelectStep::TakeWakes(take) => {
                assert_eq!(take.events, vec![readable(3), readable(4)])
            }
            _ => panic!("wakeups not taken"),
        },
        _ => panic!("not draining"),
    }
}

#[test]
fn failed_drain_keeps_earlier_events() {
    match wait(&selector(), 4).resume(0, vec![entry(1, 3), WAKE, entry(1, 4)], 3) {
        SelectStep::ReceiveWake(receive) => {
            let finished = done(receive.resume(-9));
            assert_eq!(finished.events, vec![readable(3)]);
            assert_eq!(
                finished.result,
                Err(Error::Status { operation: Operation::ChannelDrain, status: -9 })
            );
        }
        _ => panic!("not draining"),
    }
}

#[test]
fn every_wakeup_in_a_batch_is_drained() {
    let mut selector = selector();
    selector.wake();
    let wait = wait(&selector, 5);
    let batch = vec![WAKE, entry(1, 3), WAKE, WAKE, entry(1, 4)];
    let finished = done(run(&mut selector, wait, batch));
    assert_eq!(finished.events, vec![readable(3), readable(4), readable(0)]);
}

#[test]
fn registration_change_alone_resumes_the_wait() {
    let mut selector = selector();
    selector.register(77, Token(5), READ, 0).unwrap();
    let read = match selector.select(4, Some(Timeout { secs: 1, nanos: 0 })) {
        SelectStep::ReadClock(read) => read,
        _ => panic!("no clock"),
    };
    let first = match read.resume(0, TimeClock { tv_sec: 7, tv_nsec: 0 }) {
        SelectStep::Wait(wait) => wait,
        _ => panic!("no wait"),
    };
    let again = match run(&mut selector, first, vec![WAKE]) {
        SelectStep::Wait(wait) => wait,
        _ => panic!("wait ended"),
    };
    assert_eq!(again, first);
    assert_eq!(again.deadline, Some(TimeClock { tv_sec: 8, tv_nsec: 0 }));

    let finished = done(run(&mut selector, again, vec![entry(1, 5)]));
    assert_eq!(finished.events, vec![readable(5)]);
}

#[test]
fn registration_change_with_readiness_ends_the_wait() {
    let mut selector = selector();
    selector.register(77, Token(5), READ, 0).unwrap();
    let wait = wait(&selector, 4);
    let finished = done(run(&mut selector, wait, vec![WAKE, entry(1, 5)]));
    assert_eq!(finished.events, vec![readable(5)]);
}

#[test]
fn stale_wakeup_ends_the_wait_empty() {
    let mut selector = selector();
    let wait = wait(&selector, 4);
    let finished = done(run(&mut selector, wait, vec![WAKE]));
    assert_eq!(finished.events, vec![]);
    assert_eq!(finished.result, Ok(()));
}

#[test]
fn waker_is_reported_despite_registration_changes() {
    let mut selector = selector();
    let first = Waker::new(&mut selector, Token(1));
    let second = Waker::new(&mut selector, Token(2));
    assert_eq!(first.token, Token(1));
    assert_eq!(second.token, Token(2));
    let send = first.wake(&mut selector);
    assert_eq!(send, selector.send_wake());
    selector.register(77, Token(5), READ, 0).unwrap();
    selector.deregister(77, 0).unwrap();
    let wait = wait(&selector, 4);
    let finished = done(run(&mut selector, wait, vec![WAKE]));
    assert_eq!(finished.events, vec![readable(2)]);
    let finished = done(run(&mut selector, wait, vec![WAKE]));
    assert_eq!(finished.events, vec![]);
}

#[test]
fn poisoned_token_fails_the_wait_only_where_it_is_read() {
    let mut selector = selector();
    selector.wake();
    let receive = match wait(&selector, 4).resume(0, vec![entry(1, 3), WAKE], 2) {
        SelectStep::ReceiveWake(receive) => receive,
        _ => panic!("not draining"),
    };
    let take = match receive.resume(-11) {
        SelectStep::TakeWakes(take) => take,
        _ => panic!("wakeups not taken"),
    };
    let read = match take.resume(selector.take_wakes()) {
        SelectStep::ReadWakeToken(read) => read,
        _ => panic!("token not read"),
    };
    assert!(!selector.take_wakes().external);
    let finished = done(read.resume(None));
    assert_eq!(finished.events, vec![readable(3)]);
    assert_eq!(finished.result, Err(Error::WakerPoisoned));
}

#[test]
fn token_comes_back_but_for_the_wake_data() {
    let mut selector = selector();
    let wait = wait(&selector, 4);
    for token in [0usize, 1, 4096, usize::MAX - 1] {
        let data = selector.register_request(1, Token(token), READ).unwrap().event.unwrap().data;
        let finished = done(run(&mut selector, wait, vec![entry(1, data)]));
        assert_eq!(finished.events, vec![readable(token)]);
    }
    let data = selector.register_request(1, Token(usize::MAX), READ).unwrap().event.unwrap().data;
    if data == u64::MAX {
        match wait.resume(0, vec![entry(1, data)], 1) {
            SelectStep::ReceiveWake(_) => {}
            _ => panic!("not taken for a wakeup"),
        }
    }
}

#[test]
fn delivery_replaces_what_the_list_held() {
    let mut events: Events = Vec::with_capacity(4);
    events.push(readable(1));
    let capacity = events.capacity();
    let finished = Finished { events: vec![readable(7), readable(8)], result: Ok(()) };
    assert_eq!(finished.deliver(&mut events), Ok(()));
    assert_eq!(events, vec![readable(7), readable(8)]);
    assert_eq!(events.capacity(), capacity);

    let failed = Finished { events: vec![], result: Err(Error::WakerPoisoned) };
    assert_eq!(failed.deliver(&mut events), Err(Error::WakerPoisoned));
    assert_eq!(events, vec![]);
}
