//! What the operations on plain values do, each stated on its arguments and
//! its result.

use vstd::prelude::*;

use crate::abi::{epoll_event, interests_to_epoll_events, Abi, EpollEvent, TimeClock, WAKE_DATA};
use crate::deadline::{deadline_after, Timeout, NANOS_PER_SEC};
use crate::error::{status_error, Error, ErrorKind, Operation};
use crate::event::{debug_details, DebugDetails, DebugValue, Event};
use crate::select::MONOTONIC_CLOCK;
use crate::text::{decimal, push_decimal, push_signed_decimal};
use crate::token::{Interest, Token};

verus! {

/// The fixed numbers: a wakeup is marked by the largest user data, a second has
/// a thousand million nanoseconds, and deadlines are on clock one.
pub proof fn law_fixed_numbers()
    ensures
        WAKE_DATA == 0xffff_ffff_ffff_ffffu64,
        NANOS_PER_SEC == 1_000_000_000,
        MONOTONIC_CLOCK == 1,
{
}

/// An entry becomes an event with the entry's data for its token, which is an
/// error exactly where the entry has the error bit, whatever else it has; which
/// is closed on both sides exactly where it has the hangup bit; and which is
/// readable, or writable, exactly where it has that bit or the hangup bit.
pub proof fn law_entry_becomes_event(abi: Abi, entry: EpollEvent, event: Event)
    requires
        call_ensures(Event::from_entry, (&abi, &entry), event),
    ensures
        event.token.0 == entry.data as usize,
        entry.data <= usize::MAX ==> event.token.0 == entry.data,
        event.error <==> entry.events & abi.event_error != 0,
        event.readable <==> entry.events & (abi.event_readable | abi.event_hangup) != 0,
        event.writable <==> entry.events & (abi.event_writable | abi.event_hangup) != 0,
        event.read_closed <==> entry.events & abi.event_hangup != 0,
        event.write_closed <==> entry.events & abi.event_hangup != 0,
{
    let e = entry.events;
    let r = abi.event_readable;
    let w = abi.event_writable;
    let h = abi.event_hangup;
    assert(e & (r | h) != 0 <==> e & r != 0 || e & h != 0) by (bit_vector);
    assert(e & (w | h) != 0 <==> e & w != 0 || e & h != 0) by (bit_vector);
}

/// Bits that an entry has on top change nothing but what they stand for: with
/// more bits, an event is never less ready, less closed or less of an error.
pub proof fn law_more_bits_more_ready(
    abi: Abi,
    entry: EpollEvent,
    extra: u64,
    event: Event,
    richer: Event,
)
    requires
        call_ensures(Event::from_entry, (&abi, &entry), event),
        call_ensures(
            Event::from_entry,
            (&abi, &EpollEvent { events: entry.events | extra, data: entry.data }),
            richer,
        ),
    ensures
        richer.token == event.token,
        event.readable ==> richer.readable,
        event.writable ==> richer.writable,
        event.error ==> richer.error,
        event.read_closed ==> richer.read_closed,
        event.write_closed ==> richer.write_closed,
{
    let e = entry.events;
    let r = abi.event_readable;
    let w = abi.event_writable;
    let h = abi.event_hangup;
    let x = abi.event_error;
    assert(e & r != 0 ==> (e | extra) & r != 0) by (bit_vector);
    assert(e & w != 0 ==> (e | extra) & w != 0) by (bit_vector);
    assert(e & h != 0 ==> (e | extra) & h != 0) by (bit_vector);
    assert(e & x != 0 ==> (e | extra) & x != 0) by (bit_vector);
}

/// The accessors read back what an event was put together from.
pub proof fn law_event_reads_back(
    token: Token,
    readable: bool,
    writable: bool,
    error: bool,
    read_closed: bool,
    write_closed: bool,
    event: Event,
)
    requires
        call_ensures(
            Event::new,
            (token, readable, writable, error, read_closed, write_closed),
            event,
        ),
    ensures
        forall|res: Token| call_ensures(crate::event::token, (&event,), res) ==> res == token,
        forall|res: bool|
            call_ensures(crate::event::is_readable, (&event,), res) ==> res == readable,
        forall|res: bool|
            call_ensures(crate::event::is_writable, (&event,), res) ==> res == writable,
        forall|res: bool| call_ensures(crate::event::is_error, (&event,), res) ==> res == error,
        forall|res: bool|
            call_ensures(crate::event::is_read_closed, (&event,), res) ==> res == read_closed,
        forall|res: bool|
            call_ensures(crate::event::is_write_closed, (&event,), res) ==> res == write_closed,
        forall|res: bool| call_ensures(crate::event::is_priority, (&event,), res) ==> !res,
        forall|res: bool| call_ensures(crate::event::is_aio, (&event,), res) ==> !res,
        forall|res: bool| call_ensures(crate::event::is_lio, (&event,), res) ==> !res,
{
}

/// An event holds what it was put together from, each in its own place.
pub proof fn law_event_holds_its_parts(
    token: Token,
    readable: bool,
    writable: bool,
    error: bool,
    read_closed: bool,
    write_closed: bool,
    event: Event,
)
    requires
        call_ensures(
            Event::new,
            (token, readable, writable, error, read_closed, write_closed),
            event,
        ),
    ensures
        event.token == token,
        event.readable == readable,
        event.writable == writable,
        event.error == error,
        event.read_closed == read_closed,
        event.write_closed == write_closed,
{
}

/// A debug representation shows the six fields of an event, each under its own
/// name.
pub proof fn law_debug_shows_each_field(event: Event, details: DebugDetails)
    requires
        call_ensures(debug_details, (&event,), details),
    ensures
        details.name@ == "NaosEvent"@,
        details.fields@.len() == 6,
        details.fields@[0].name@ == "token"@,
        details.fields@[0].value == DebugValue::Token(event.token),
        details.fields@[1].name@ == "readable"@,
        details.fields@[1].value == DebugValue::Flag(event.readable),
        details.fields@[2].name@ == "writable"@,
        details.fields@[2].value == DebugValue::Flag(event.writable),
        details.fields@[3].name@ == "error"@,
        details.fields@[3].value == DebugValue::Flag(event.error),
        details.fields@[4].name@ == "read_closed"@,
        details.fields@[4].value == DebugValue::Flag(event.read_closed),
        details.fields@[5].name@ == "write_closed"@,
        details.fields@[5].value == DebugValue::Flag(event.write_closed),
{
    let shown = details.named_values();
    assert(shown.len() == 6);
    assert(shown[0] == (details.fields@[0].name@, details.fields@[0].value));
    assert(shown[1] == (details.fields@[1].name@, details.fields@[1].value));
    assert(shown[2] == (details.fields@[2].name@, details.fields@[2].value));
    assert(shown[3] == (details.fields@[3].name@, details.fields@[3].value));
    assert(shown[4] == (details.fields@[4].name@, details.fields@[4].value));
    assert(shown[5] == (details.fields@[5].name@, details.fields@[5].value));
}

/// The bits of a registration meet a mask exactly where edge triggering does,
/// or an interest that is asked for.
pub proof fn law_interests_become_bits(abi: Abi, interests: Interest, mask: u64, bits: u64)
    requires
        call_ensures(interests_to_epoll_events, (&abi, interests), bits),
    ensures
        bits & mask != 0 <==> {
            ||| abi.event_edge_triggered & mask != 0
            ||| interests.readable && abi.event_readable & mask != 0
            ||| interests.writable && abi.event_writable & mask != 0
        },
{
    let ri = if interests.readable {
        abi.event_readable
    } else {
        0
    };
    let wi = if interests.writable {
        abi.event_writable
    } else {
        0
    };
    let t = abi.event_edge_triggered;
    assert((ri | wi | t) & mask != 0 <==> ri & mask != 0 || wi & mask != 0 || t & mask != 0)
        by (bit_vector);
    assert(0u64 & mask == 0) by (bit_vector);
}

/// The entry of a registration carries the token's number, and the bits of its
/// interests.
pub proof fn law_entry_of_registration(
    abi: Abi,
    token: Token,
    interests: Interest,
    bits: u64,
    entry: EpollEvent,
)
    requires
        call_ensures(epoll_event, (&abi, token, interests), entry),
        call_ensures(interests_to_epoll_events, (&abi, interests), bits),
    ensures
        entry.data == token.0,
        entry.events == bits,
{
}

/// What is asked for is what an interest holds.
pub proof fn law_interest_reads_back(interests: Interest, readable: bool, writable: bool)
    requires
        call_ensures(Interest::is_readable, (interests,), readable),
        call_ensures(Interest::is_writable, (interests,), writable),
    ensures
        readable == interests.readable,
        writable == interests.writable,
{
}

/// With a clock that works, the deadline is the clock plus the timeout, to the
/// nanosecond, for as long as both parts of the sum fit.  One second is carried
/// exactly where the nanoseconds make up one.
pub proof fn law_deadline_adds_up(status: i64, now: TimeClock, timeout: Timeout, res: TimeClock)
    requires
        call_ensures(deadline_after, (status, now, timeout), res),
        status == 0,
        now.tv_sec >= 0,
        now.tv_nsec >= 0,
        now.tv_nsec + timeout.nanos <= i64::MAX,
        now.tv_sec + timeout.secs + (if now.tv_nsec + timeout.nanos >= 1_000_000_000 {
            1int
        } else {
            0
        }) <= i64::MAX,
    ensures
        res.tv_sec * 1_000_000_000 + res.tv_nsec == now.tv_sec * 1_000_000_000 + now.tv_nsec
            + timeout.secs * 1_000_000_000 + timeout.nanos,
        res.tv_sec == now.tv_sec + timeout.secs + (if now.tv_nsec + timeout.nanos
            >= 1_000_000_000 {
            1int
        } else {
            0
        }),
        now.tv_nsec < 1_000_000_000 && timeout.nanos < 1_000_000_000 ==> 0 <= res.tv_nsec
            < 1_000_000_000,
{
}

/// With a clock that works, each part of a deadline that does not fit stops at
/// the end of its range, before a carried second is taken off the nanoseconds.
pub proof fn law_deadline_stops_at_the_end(
    status: i64,
    now: TimeClock,
    timeout: Timeout,
    res: TimeClock,
)
    requires
        call_ensures(deadline_after, (status, now, timeout), res),
        status == 0,
        now.tv_sec >= 0,
        now.tv_nsec >= 0,
    ensures
        now.tv_sec + timeout.secs + (if now.tv_nsec + timeout.nanos >= 1_000_000_000 {
            1int
        } else {
            0
        }) > i64::MAX ==> res.tv_sec == i64::MAX,
        now.tv_nsec + timeout.nanos > i64::MAX ==> res.tv_nsec == i64::MAX - 1_000_000_000,
        now.tv_nsec + timeout.nanos <= i64::MAX ==> res.tv_nsec == now.tv_nsec + timeout.nanos - (
        if now.tv_nsec + timeout.nanos >= 1_000_000_000 {
            1_000_000_000int
        } else {
            0
        }),
        now.tv_sec + timeout.secs + (if now.tv_nsec + timeout.nanos >= 1_000_000_000 {
            1int
        } else {
            0
        }) <= i64::MAX ==> res.tv_sec == now.tv_sec + timeout.secs + (if now.tv_nsec
            + timeout.nanos >= 1_000_000_000 {
            1int
        } else {
            0
        }),
{
}

/// Without a clock that works there is no end to wait for: the deadline is the
/// last nanosecond there is.
pub proof fn law_deadline_without_clock(
    status: i64,
    now: TimeClock,
    timeout: Timeout,
    res: TimeClock,
)
    requires
        call_ensures(deadline_after, (status, now, timeout), res),
        status != 0 || now.tv_sec < 0 || now.tv_nsec < 0,
    ensures
        res.tv_sec == 0x7fff_ffff_ffff_ffff,
        res.tv_nsec == 999_999_999,
{
}

/// A longer timeout never ends earlier, and a timeout of nothing ends now,
/// wherever the clock is in its own form and the deadline fits.
pub proof fn law_longer_timeout_ends_later(
    status: i64,
    now: TimeClock,
    short: Timeout,
    long: Timeout,
    first: TimeClock,
    second: TimeClock,
)
    requires
        call_ensures(deadline_after, (status, now, short), first),
        call_ensures(deadline_after, (status, now, long), second),
        status == 0,
        now.tv_sec >= 0,
        0 <= now.tv_nsec < 1_000_000_000,
        short.nanos < 1_000_000_000,
        long.nanos < 1_000_000_000,
        short.secs < long.secs || short.secs == long.secs && short.nanos <= long.nanos,
        now.tv_sec + long.secs < i64::MAX,
    ensures
        first.tv_sec < second.tv_sec || first.tv_sec == second.tv_sec && first.tv_nsec
            <= second.tv_nsec,
        short.secs == 0 && short.nanos == 0 ==> first == now,
        first == second ==> short == long,
{
}

/// `digits` is `n` in decimal: digits only, no leading zero, and the value that
/// they have by their places.
pub open spec fn is_numeral(digits: Seq<char>, n: int) -> bool {
    &&& digits.len() > 0
    &&& forall|i: int| 0 <= i < digits.len() ==> '0' <= #[trigger] digits[i] <= '9'
    &&& digits.len() > 1 ==> digits[0] != '0'
    &&& place_value(digits) == n
}

/// The value of digits by their places.
pub open spec fn place_value(digits: Seq<char>) -> int
    decreases digits.len(),
{
    if digits.len() == 0 {
        0
    } else {
        10 * place_value(digits.drop_last()) + (digits.last() as int - '0' as int)
    }
}

/// `text` is `n` in decimal, behind a minus sign where it is negative.
pub open spec fn is_signed_numeral(text: Seq<char>, n: int) -> bool {
    if n < 0 {
        text.len() > 0 && text[0] == '-' && is_numeral(text.skip(1), -n)
    } else {
        is_numeral(text, n)
    }
}

/// The digits of a number are a numeral for it.
proof fn lemma_decimal(n: nat)
    ensures
        is_numeral(decimal(n), n as int),
        n > 0 ==> decimal(n)[0] != '0',
    decreases n,
{
    if n < 10 {
        let d = decimal(n);
        assert(d.drop_last() =~= Seq::empty());
        assert(place_value(d.drop_last()) == 0);
    } else {
        lemma_decimal(n / 10);
        let d = decimal(n);
        let front = decimal(n / 10);
        assert(d.drop_last() =~= front);
        assert forall|i: int| 0 <= i < d.len() implies '0' <= #[trigger] d[i] <= '9' by {
            if i < front.len() {
                assert(d[i] == front[i]);
            }
        }
        assert(d[0] == front[0]);
    }
}

/// A number is appended as its numeral, and what was there stays.
pub proof fn law_number_is_appended(text: &mut String, n: u64)
    requires
        call_ensures(push_decimal, (text, n), ()),
    ensures
        final(text)@.len() > old(text)@.len(),
        final(text)@.take(old(text)@.len() as int) == old(text)@,
        is_numeral(final(text)@.skip(old(text)@.len() as int), n as int),
{
    lemma_decimal(n as nat);
    assert(final(text)@.take(old(text)@.len() as int) =~= old(text)@);
    assert(final(text)@.skip(old(text)@.len() as int) =~= decimal(n as nat));
}

/// A signed number is appended as its numeral, and what was there stays.
pub proof fn law_signed_number_is_appended(text: &mut String, n: i64)
    requires
        call_ensures(push_signed_decimal, (text, n), ()),
    ensures
        final(text)@.len() > old(text)@.len(),
        final(text)@.take(old(text)@.len() as int) == old(text)@,
        is_signed_numeral(final(text)@.skip(old(text)@.len() as int), n as int),
{
    let from = old(text)@.len() as int;
    assert(final(text)@.take(from) =~= old(text)@);
    if n < 0 {
        lemma_decimal((-n) as nat);
        assert(final(text)@.skip(from) =~= seq!['-'] + decimal((-n) as nat));
        assert(final(text)@.skip(from).skip(1) =~= decimal((-n) as nat));
    } else {
        lemma_decimal(n as nat);
        assert(final(text)@.skip(from) =~= decimal(n as nat));
    }
}

/// The names of the operations.
pub proof fn law_operation_names(operation: Operation, name: &'static str)
    requires
        call_ensures(Operation::as_str, (operation,), name),
    ensures
        operation is EpollCreate ==> name@ == "epoll create"@,
        operation is ChannelCreate ==> name@ == "channel create"@,
        operation is EpollAddWakeChannel ==> name@ == "epoll add wake channel"@,
        operation is EpollWait ==> name@ == "epoll wait"@,
        operation is EpollAdd ==> name@ == "epoll add"@,
        operation is EpollModify ==> name@ == "epoll modify"@,
        operation is EpollDelete ==> name@ == "epoll delete"@,
        operation is ChannelWake ==> name@ == "channel wake"@,
        operation is ChannelDrain ==> name@ == "channel drain"@,
{
}

/// A status is told as the name of its operation and its number.
pub proof fn law_status_message(
    operation: Operation,
    status: i64,
    name: &'static str,
    error: Error,
    message: String,
)
    requires
        call_ensures(status_error, (operation, status), error),
        call_ensures(Operation::as_str, (operation,), name),
        call_ensures(Error::message, (&error,), message),
    ensures
        message@.len() > (name@ + ": NaOS status "@).len(),
        message@.take((name@ + ": NaOS status "@).len() as int) == name@ + ": NaOS status "@,
        is_signed_numeral(
            message@.skip((name@ + ": NaOS status "@).len() as int),
            status as int,
        ),
{
    let front = name@ + ": NaOS status "@;
    let n = front.len() as int;
    assert(message@.take(n) =~= front);
    if status < 0 {
        lemma_decimal((-status) as nat);
        assert(message@.skip(n) =~= seq!['-'] + decimal((-status) as nat));
        assert(message@.skip(n).skip(1) =~= decimal((-status) as nat));
    } else {
        lemma_decimal(status as nat);
        assert(message@.skip(n) =~= decimal(status as nat));
    }
}

/// The messages of the other errors.
pub proof fn law_fixed_messages(error: Error, message: String)
    requires
        call_ensures(Error::message, (&error,), message),
    ensures
        error is AlreadyRegistered ==> message@ == "NaOS handle already registered"@,
        error is NotRegistered ==> message@ == "NaOS handle is not registered"@,
        error is RegistryPoisoned ==> message@ == "NaOS Mio registry lock poisoned"@,
        error is WakerPoisoned ==> message@ == "NaOS Mio waker lock poisoned"@,
{
}

/// A handle registered twice is told as something that exists, one that is not
/// registered as something not found, and nothing else is told as either.
pub proof fn law_error_kinds(error: Error, kind: ErrorKind)
    requires
        call_ensures(Error::kind, (&error,), kind),
    ensures
        kind is AlreadyExists <==> error is AlreadyRegistered,
        kind is NotFound <==> error is NotRegistered,
{
}

/// The error of a status keeps the operation and the status.
pub proof fn law_status_error_keeps_both(operation: Operation, status: i64, error: Error)
    requires
        call_ensures(status_error, (operation, status), error),
    ensures
        error is Status,
        error->operation == operation,
        error->status == status,
{
}

} // verus!
