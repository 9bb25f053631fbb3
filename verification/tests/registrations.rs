use naos_selector::naos::Source;
use naos_selector::{
    Abi, CtlOp, CtlRequest, EpollEvent, Error, ErrorKind, Interest, Operation, Selector, SendWake,
    Token,
};

const ABI: Abi = Abi {
    status_ok: 0,
    status_would_block: -11,
    status_wait_timed_out: -60,
    event_readable: 1,
    event_writable: 2,
    event_error: 4,
    event_hangup: 8,
    event_edge_triggered: 0x100,
};

const READ: Interest = Interest { readable: true, writable: false };
const WRITE: Interest = Interest { readable: false, writable: true };
const BOTH: Interest = Interest { readable: true, writable: true };
const SEND: SendWake = SendWake { abi: ABI, wake_sender: 12 };

fn selector() -> Selector {
    let channel = Selector::new(ABI).resume(0, 10).unwrap();
    channel.resume(0, 11, 12).unwrap().resume(0).unwrap()
}

#[test]
fn creation_asks_for_the_calls_in_turn() {
    let epoll = Selector::new(ABI);
    assert_eq!(epoll.abi, ABI);
    let channel = epoll.resume(0, 10).unwrap();
    assert_eq!(channel.epoll, 10);
    assert_eq!(channel.max_messages, 1);
    assert_eq!(channel.max_bytes, 1);
    let add = channel.resume(0, 11, 12).unwrap();
    assert_eq!(
        add.request(),
        CtlRequest {
            epoll: 10,
            op: CtlOp::Add,
            handle: 11,
            event: Some(EpollEvent { events: 1, data: u64::MAX }),
        }
    );
    let selector = add.resume(0).unwrap();
    assert_eq!(selector.epoll(), 10);
    assert_eq!(selector.wake_receiver(), 11);
    assert_eq!(selector.send_wake(), SEND);
    assert_eq!(selector.wake_token(), Token(0));
    assert_eq!(selector.abi(), ABI);
}

#[test]
fn failed_creation_closes_what_was_created() {
    let aborted = Selector::new(ABI).resume(-5, 0).unwrap_err();
    assert_eq!(aborted.close, Vec::<u64>::new());
    assert_eq!(aborted.error, Error::Status { operation: Operation::EpollCreate, status: -5 });

    let channel = Selector::new(ABI).resume(0, 10).unwrap();
    let aborted = channel.resume(-6, 0, 0).unwrap_err();
    assert_eq!(aborted.close, vec![10]);
    assert_eq!(aborted.error, Error::Status { operation: Operation::ChannelCreate, status: -6 });

    let aborted = channel.resume(0, 11, 12).unwrap().resume(-7).unwrap_err();
    assert_eq!(aborted.close, vec![10, 11, 12]);
    assert_eq!(
        aborted.error,
        Error::Status { operation: Operation::EpollAddWakeChannel, status: -7 }
    );
}

#[test]
fn selector_closes_its_three_handles() {
    assert_eq!(selector().close(), vec![10, 11, 12]);
}

#[test]
fn register_asks_for_an_edge_triggered_entry() {
    let selector = selector();
    let request = selector.register_request(77, Token(5), READ).unwrap();
    assert_eq!(
        request,
        CtlRequest {
            epoll: 10,
            op: CtlOp::Add,
            handle: 77,
            event: Some(EpollEvent { events: 0x101, data: 5 }),
        }
    );
    let events = |interests| {
        selector.register_request(77, Token(5), interests).unwrap().event.unwrap().events
    };
    assert_eq!(events(WRITE), 0x102);
    assert_eq!(events(BOTH), 0x103);
    assert_eq!(events(Interest { readable: false, writable: false }), 0x100);
}

#[test]
fn register_notes_the_handle() {
    let mut selector = selector();
    assert_eq!(selector.register(77, Token(5), READ, 0), Ok(SEND));
    assert_eq!(selector.register_request(77, Token(6), READ), Err(Error::AlreadyRegistered));
    assert_eq!(selector.register(77, Token(6), READ, 0), Err(Error::AlreadyRegistered));
    assert!(selector.register_request(78, Token(5), READ).is_ok());
    assert!(selector.deregister_request(77).is_ok());
    assert_eq!(Error::AlreadyRegistered.kind(), ErrorKind::AlreadyExists);
}

#[test]
fn refused_register_changes_nothing() {
    let mut selector = selector();
    assert_eq!(
        selector.register(77, Token(5), READ, -3),
        Err(Error::Status { operation: Operation::EpollAdd, status: -3 })
    );
    assert_eq!(selector.deregister_request(77), Err(Error::NotRegistered));
    let wakes = selector.take_wakes();
    assert!(!wakes.registration);
    assert!(!wakes.external);
}

#[test]
fn reregister_needs_a_registration() {
    let mut selector = selector();
    assert_eq!(selector.reregister_request(77, Token(5), READ), Err(Error::NotRegistered));
    assert_eq!(selector.reregister(77, Token(5), READ, 0), Err(Error::NotRegistered));
    selector.register(77, Token(5), READ, 0).unwrap();
    assert_eq!(
        selector.reregister_request(77, Token(9), BOTH),
        Ok(CtlRequest {
            epoll: 10,
            op: CtlOp::Modify,
            handle: 77,
            event: Some(EpollEvent { events: 0x103, data: 9 }),
        })
    );
    assert_eq!(
        selector.reregister(77, Token(9), BOTH, -4),
        Err(Error::Status { operation: Operation::EpollModify, status: -4 })
    );
    assert_eq!(selector.reregister(77, Token(9), BOTH, 0), Ok(SEND));
    assert_eq!(selector.register_request(77, Token(1), READ), Err(Error::AlreadyRegistered));
    assert_eq!(Error::NotRegistered.kind(), ErrorKind::NotFound);
}

#[test]
fn deregister_undoes_register() {
    let mut selector = selector();
    for handle in [1u64, 2, 3] {
        selector.register(handle, Token(handle as usize), READ, 0).unwrap();
    }
    let before = format!("{:?}", selector);
    selector.register(4, Token(4), BOTH, 0).unwrap();
    assert_ne!(format!("{:?}", selector), before);
    selector.deregister(4, 0).unwrap();
    assert_eq!(format!("{:?}", selector), before);
}

#[test]
fn deregister_leaves_the_others() {
    let mut selector = selector();
    assert_eq!(selector.deregister(1, 0), Err(Error::NotRegistered));
    for handle in [1u64, 2, 3] {
        selector.register(handle, Token(handle as usize), READ, 0).unwrap();
    }
    assert_eq!(
        selector.deregister_request(1),
        Ok(CtlRequest { epoll: 10, op: CtlOp::Delete, handle: 1, event: None })
    );
    assert_eq!(
        selector.deregister(1, -8),
        Err(Error::Status { operation: Operation::EpollDelete, status: -8 })
    );
    assert!(selector.deregister_request(1).is_ok());
    assert_eq!(selector.deregister(1, 0), Ok(SEND));
    assert_eq!(selector.deregister_request(1), Err(Error::NotRegistered));
    assert!(selector.deregister_request(2).is_ok());
    assert!(selector.deregister_request(3).is_ok());
}

#[test]
fn registration_changes_note_a_wakeup() {
    let mut selector = selector();
    selector.register(1, Token(1), READ, 0).unwrap();
    assert!(selector.take_wakes().registration);
    assert!(!selector.take_wakes().registration);
    selector.reregister(1, Token(1), BOTH, 0).unwrap();
    assert!(selector.take_wakes().registration);
    selector.deregister(1, 0).unwrap();
    let wakes = selector.take_wakes();
    assert!(wakes.registration);
    assert!(!wakes.external);
}

#[test]
fn source_stands_for_its_handle() {
    let source = Source::new(42);
    assert_eq!(source.handle(), 42);
    assert_eq!(source, Source::new(42));
    assert_ne!(source, Source::new(43));

    let mut selector = selector();
    assert_eq!(source.register_request(&selector, Token(5), READ).unwrap().handle, 42);
    assert_eq!(source.register(&mut selector, Token(5), READ, 0), Ok(SEND));
    assert_eq!(
        source.register_request(&selector, Token(5), READ),
        Err(Error::AlreadyRegistered)
    );
    assert_eq!(source.reregister_request(&selector, Token(6), BOTH).unwrap().op, CtlOp::Modify);
    assert_eq!(source.reregister(&mut selector, Token(6), BOTH, 0), Ok(SEND));
    assert_eq!(source.deregister_request(&selector).unwrap().op, CtlOp::Delete);
    assert_eq!(source.deregister(&mut selector, 0), Ok(SEND));
    assert_eq!(source.deregister(&mut selector, 0), Err(Error::NotRegistered));
}

#[test]
fn wake_succeeds_where_one_is_queued() {
    assert_eq!(SEND.resume(0), Ok(()));
    assert_eq!(SEND.resume(-11), Ok(()));
    assert_eq!(
        SEND.resume(-60),
        Err(Error::Status { operation: Operation::ChannelWake, status: -60 })
    );
}
