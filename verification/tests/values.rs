use naos_selector::abi::interests_to_epoll_events;
use naos_selector::deadline::deadline_after;
use naos_selector::error::status_error;
use naos_selector::event::{
    debug_details, is_aio, is_error, is_lio, is_priority, is_read_closed, is_readable,
    is_writable, is_write_closed, token,
};
use naos_selector::text::{push_decimal, push_signed_decimal};
use naos_selector::{
    Abi, DebugValue, EpollEvent, Error, ErrorKind, Event, Interest, Operation, TimeClock, Timeout,
    Token,
};
use std::fmt;

const ABI: Abi = Abi {
    status_ok: 0,
    status_would_block: 1,
    status_wait_timed_out: 2,
    event_readable: 1,
    event_writable: 4,
    event_error: 0x10,
    event_hangup: 0x20,
    event_edge_triggered: 0x8000_0000_0000_0000,
};

fn clock(tv_sec: i64, tv_nsec: i64) -> TimeClock {
    TimeClock { tv_sec, tv_nsec }
}

fn timeout(secs: u64, nanos: u32) -> Timeout {
    Timeout { secs, nanos }
}

#[test]
fn accessors_read_their_fields() {
    let bits = [true, false, true, false, true];
    for shift in 0..5 {
        let b = |i: usize| bits[(i + shift) % 5];
        let event = Event::new(Token(9), b(0), b(1), b(2), b(3), b(4));
        assert_eq!(token(&event), Token(9));
        assert_eq!(is_readable(&event), b(0));
        assert_eq!(is_writable(&event), b(1));
        assert_eq!(is_error(&event), b(2));
        assert_eq!(is_read_closed(&event), b(3));
        assert_eq!(is_write_closed(&event), b(4));
        assert!(!is_priority(&event));
        assert!(!is_aio(&event));
        assert!(!is_lio(&event));
    }
}

#[test]
fn entries_are_translated_bit_by_bit() {
    let event = Event::from_entry(&ABI, &EpollEvent { events: 0x11, data: 6 });
    assert_eq!(event, Event::new(Token(6), true, false, true, false, false));
    let event = Event::from_entry(&ABI, &EpollEvent { events: 0x20, data: 7 });
    assert_eq!(event, Event::new(Token(7), true, true, false, true, true));
}

#[test]
fn interests_become_bits() {
    let bits = |readable, writable| {
        interests_to_epoll_events(&ABI, Interest { readable, writable })
    };
    assert_eq!(bits(false, false), 0x8000_0000_0000_0000);
    assert_eq!(bits(true, false), 0x8000_0000_0000_0001);
    assert_eq!(bits(false, true), 0x8000_0000_0000_0004);
    assert_eq!(bits(true, true), 0x8000_0000_0000_0005);
}

#[test]
fn interests_come_back_from_their_bits() {
    for (readable, writable) in [(true, false), (false, true), (true, true)] {
        let interests = Interest { readable, writable };
        assert_eq!(interests.is_readable(), readable);
        assert_eq!(interests.is_writable(), writable);
        let events = interests_to_epoll_events(&ABI, interests);
        let event = Event::from_entry(&ABI, &EpollEvent { events, data: 1 });
        assert_eq!(event, Event::new(Token(1), readable, writable, false, false, false));
    }
}

#[test]
fn deadlines_are_exact() {
    assert_eq!(deadline_after(0, clock(10, 5), timeout(3, 7)), clock(13, 12));
    assert_eq!(deadline_after(0, clock(10, 5), timeout(0, 0)), clock(10, 5));
    assert_eq!(
        deadline_after(0, clock(10, 999_999_999), timeout(3, 1)),
        clock(14, 0)
    );
    assert_eq!(
        deadline_after(0, clock(10, 999_999_999), timeout(3, 999_999_999)),
        clock(14, 999_999_998)
    );
}

#[test]
fn deadlines_saturate() {
    assert_eq!(deadline_after(0, clock(10, 5), timeout(u64::MAX, 7)), clock(i64::MAX, 12));
    assert_eq!(
        deadline_after(0, clock(i64::MAX, 999_999_999), timeout(0, 2)),
        clock(i64::MAX, 1)
    );
    assert_eq!(
        deadline_after(0, clock(0, i64::MAX), timeout(1, 5)),
        clock(2, i64::MAX - 1_000_000_000)
    );
}

#[test]
fn unusable_clock_never_ends_a_wait() {
    let never = clock(i64::MAX, 999_999_999);
    assert_eq!(deadline_after(1, clock(10, 5), timeout(3, 7)), never);
    assert_eq!(deadline_after(0, clock(-1, 5), timeout(3, 7)), never);
    assert_eq!(deadline_after(0, clock(10, -1), timeout(3, 7)), never);
}

#[test]
fn statuses_are_told_with_their_operation() {
    let told = |operation| status_error(operation, -12).message();
    assert_eq!(told(Operation::EpollCreate), "epoll create: NaOS status -12");
    assert_eq!(told(Operation::ChannelCreate), "channel create: NaOS status -12");
    assert_eq!(
        told(Operation::EpollAddWakeChannel),
        "epoll add wake channel: NaOS status -12"
    );
    assert_eq!(told(Operation::EpollWait), "epoll wait: NaOS status -12");
    assert_eq!(told(Operation::EpollAdd), "epoll add: NaOS status -12");
    assert_eq!(told(Operation::EpollModify), "epoll modify: NaOS status -12");
    assert_eq!(told(Operation::EpollDelete), "epoll delete: NaOS status -12");
    assert_eq!(told(Operation::ChannelWake), "channel wake: NaOS status -12");
    assert_eq!(told(Operation::ChannelDrain), "channel drain: NaOS status -12");
    assert_eq!(status_error(Operation::EpollAdd, 1).kind(), ErrorKind::Other);
}

#[test]
fn other_errors_have_fixed_messages() {
    assert_eq!(Error::AlreadyRegistered.message(), "NaOS handle already registered");
    assert_eq!(Error::NotRegistered.message(), "NaOS handle is not registered");
    assert_eq!(Error::RegistryPoisoned.message(), "NaOS Mio registry lock poisoned");
    assert_eq!(Error::WakerPoisoned.message(), "NaOS Mio waker lock poisoned");
    assert_eq!(Error::RegistryPoisoned.kind(), ErrorKind::Other);
    assert_eq!(Error::WakerPoisoned.kind(), ErrorKind::Other);
}

#[test]
fn numbers_are_written_in_decimal() {
    for n in [0u64, 7, 9, 10, 99, 100, 1234567890, u64::MAX] {
        let mut text = String::from("n=");
        push_decimal(&mut text, n);
        assert_eq!(text, format!("n={}", n));
    }
    for n in [0i64, -1, 1, -10, i64::MIN, i64::MAX] {
        let mut text = String::new();
        push_signed_decimal(&mut text, n);
        assert_eq!(text, format!("{}", n));
    }
}

#[test]
fn interest_bits_add_up() {
    let kinds = [(false, false), (true, false), (false, true), (true, true)];
    for (ar, aw) in kinds {
        for (br, bw) in kinds {
            let a = interests_to_epoll_events(&ABI, Interest { readable: ar, writable: aw });
            let b = interests_to_epoll_events(&ABI, Interest { readable: br, writable: bw });
            let both = Interest { readable: ar || br, writable: aw || bw };
            assert_eq!(interests_to_epoll_events(&ABI, both), a | b);
        }
    }
}

#[test]
fn debug_details_list_the_fields_in_order() {
    let event = Event::new(Token(120), true, false, true, false, true);
    let details = debug_details(&event);
    assert_eq!(details.name, "NaosEvent");
    let fields: Vec<(&str, DebugValue)> =
        details.fields.iter().map(|field| (field.name, field.value)).collect();
    assert_eq!(
        fields,
        vec![
            ("token", DebugValue::Token(Token(120))),
            ("readable", DebugValue::Flag(true)),
            ("writable", DebugValue::Flag(false)),
            ("error", DebugValue::Flag(true)),
            ("read_closed", DebugValue::Flag(false)),
            ("write_closed", DebugValue::Flag(true)),
        ]
    );
}

struct Shown(Event);

impl fmt::Debug for Shown {
    fn fmt(&self, f: &mut fmt::Formatter<'_>) -> fmt::Result {
        let details = debug_details(&self.0);
        let mut shown = f.debug_struct(details.name);
        for field in &details.fields {
            match &field.value {
                DebugValue::Token(token) => shown.field(field.name, token),
                DebugValue::Flag(flag) => shown.field(field.name, flag),
            };
        }
        shown.finish()
    }
}

#[test]
fn debug_details_follow_the_formatter() {
    let event = Shown(Event::new(Token(255), true, false, true, false, true));
    assert_eq!(
        format!("{:?}", event),
        "NaosEvent { token: Token(255), readable: true, writable: false, error: true, \
         read_closed: false, write_closed: true }"
    );
    assert_eq!(
        format!("{:x?}", event),
        "NaosEvent { token: Token(ff), readable: true, writable: false, error: true, \
         read_closed: false, write_closed: true }"
    );
    assert_eq!(
        format!("{:#?}", event),
        "NaosEvent {\n    token: Token(\n        255,\n    ),\n    readable: true,\n    \
         writable: false,\n    error: true,\n    read_closed: false,\n    \
         write_closed: true,\n}"
    );
}
