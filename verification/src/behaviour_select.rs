//! What the steps of a wait do, each stated on its arguments and its result,
//! and what a whole wait comes to.

use vstd::prelude::*;

use crate::abi::{Abi, EpollEvent, TimeClock};
use crate::deadline::{deadline_after, Timeout};
use crate::error::{Error, Operation};
use crate::event::{Event, Events};
use crate::laws::{
    gathered, lemma_before_wakeup_clear,
};
use crate::select::{
    before_wakeup, reported, translated, Finished, ReadClock, ReadWakeToken, ReceiveWake,
    SelectStep, TakeWakes, Wait,
};
use crate::selector::{Selector, Wakes};
use crate::token::Token;

verus! {

/// `event` is what an entry of a source stands for.
pub open spec fn stands_for(abi: Abi, entry: EpollEvent, event: Event) -> bool {
    &&& event.token.0 == entry.data as usize
    &&& event.readable <==> entry.events & (abi.event_readable | abi.event_hangup) != 0
    &&& event.writable <==> entry.events & (abi.event_writable | abi.event_hangup) != 0
    &&& event.error <==> entry.events & abi.event_error != 0
    &&& event.read_closed <==> entry.events & abi.event_hangup != 0
    &&& event.write_closed <==> entry.events & abi.event_hangup != 0
}

/// `event` is the report of a wakeup under `token`.
pub open spec fn reports_wakeup(event: Event, token: Token) -> bool {
    &&& event.token == token
    &&& event.readable
    &&& !event.writable
    &&& !event.error
    &&& !event.read_closed
    &&& !event.write_closed
}

/// Whether an entry is a wakeup.
pub open spec fn is_wakeup(entry: EpollEvent) -> bool {
    entry.data == 0xffff_ffff_ffff_ffffu64
}

/// `events` are, in order, what the entries of sources among `entries` stand
/// for: one for each, and none for a wakeup.
pub open spec fn stand_for_all(abi: Abi, entries: Seq<EpollEvent>, events: Seq<Event>) -> bool
    decreases entries.len(),
{
    if entries.len() == 0 {
        events.len() == 0
    } else if is_wakeup(entries.last()) {
        stand_for_all(abi, entries.drop_last(), events)
    } else {
        &&& events.len() > 0
        &&& stands_for(abi, entries.last(), events.last())
        &&& stand_for_all(abi, entries.drop_last(), events.drop_last())
    }
}

/// `n` is how many entries of a buffer of `len` count, where the kernel says it
/// wrote `actual` and the caller has room for `capacity` (or one, for none): the
/// least of the three.
pub open spec fn counts(n: int, actual: u64, len: nat, capacity: usize) -> bool {
    &&& 0 <= n <= actual as usize
    &&& n <= len
    &&& n <= capacity || n == 1 && capacity == 0 || n == 0
    &&& n == actual as usize || n == len || n == capacity && capacity > 0 || n == 1 && capacity
        == 0
}

/// The answer of the kernel is neither a wait that elapsed nor a failure.
pub open spec fn answered(abi: Abi, status: i64) -> bool {
    &&& status == abi.status_ok
    &&& status != abi.status_would_block
    &&& status != abi.status_wait_timed_out
}

/// The event that the code makes of an entry is what it stands for.
proof fn lemma_of_entry(abi: Abi, entry: EpollEvent)
    ensures
        stands_for(abi, entry, Event::of_entry(abi, entry)),
{
    let e = entry.events;
    let r = abi.event_readable;
    let w = abi.event_writable;
    let h = abi.event_hangup;
    assert(e & (r | h) != 0 <==> e & r != 0 || e & h != 0) by (bit_vector);
    assert(e & (w | h) != 0 <==> e & w != 0 || e & h != 0) by (bit_vector);
}

/// What a batch reports stands for its entries.
proof fn lemma_reported_stands(abi: Abi, entries: Seq<EpollEvent>)
    ensures
        stand_for_all(abi, entries, reported(abi, entries)),
    decreases entries.len(),
{
    reveal(Seq::filter);
    let keep = |entry: EpollEvent| entry.data != crate::abi::WAKE_DATA;
    if entries.len() > 0 {
        let front = entries.drop_last();
        lemma_reported_stands(abi, front);
        if is_wakeup(entries.last()) {
            assert(!keep(entries.last()));
            assert(entries.filter(keep) == front.filter(keep));
            assert(reported(abi, entries) =~= reported(abi, front));
        } else {
            assert(keep(entries.last()));
            assert(entries.filter(keep) == front.filter(keep).push(entries.last()));
            lemma_of_entry(abi, entries.last());
            assert(reported(abi, entries).drop_last() =~= reported(abi, front));
        }
    }
}

/// The entries that count are the first of the buffer.
proof fn lemma_batch(wait: Wait, returned: Seq<EpollEvent>, actual: u64, n: int)
    requires
        counts(n, actual, returned.len(), wait.capacity),
    ensures
        wait.batch(returned, actual) == returned.take(n),
{
}

/// A wait that the kernel answers with entries of sources only is over, and
/// reports every entry that counts: the first for the first, and so on to the
/// last, and nothing else.
pub proof fn law_wait_reports_every_entry(
    wait: Wait,
    status: i64,
    returned: Vec<EpollEvent>,
    actual: u64,
    step: SelectStep,
    n: int,
)
    requires
        call_ensures(Wait::resume, (wait, status, returned, actual), step),
        answered(wait.abi, status),
        counts(n, actual, returned@.len(), wait.capacity),
        forall|i: int| 0 <= i < n ==> !is_wakeup(#[trigger] returned@[i]),
    ensures
        step is Done,
        step->Done_0.result is Ok,
        step->Done_0.events@.len() == n,
        forall|i: int|
            0 <= i < n ==> stands_for(
                wait.abi,
                #[trigger] returned@[i],
                step->Done_0.events@[i],
            ),
{
    lemma_batch(wait, returned@, actual, n);
    let batch = returned@.take(n);
    lemma_before_wakeup_clear(batch);
    let k = before_wakeup(batch) as int;
    if k < batch.len() {
        assert(batch[k] == returned@[k]);
    }
    assert(batch.take(k) =~= batch);
    assert forall|i: int| 0 <= i < n implies stands_for(
        wait.abi,
        #[trigger] returned@[i],
        step->Done_0.events@[i],
    ) by {
        lemma_of_entry(wait.abi, returned@[i]);
        assert(step->Done_0.events@[i] == Event::of_entry(wait.abi, batch[i]));
    }
}

/// As many entries as the kernel wrote count, wherever the buffer and the
/// caller have room for them: all are reported.
pub proof fn law_wait_loses_nothing(
    wait: Wait,
    status: i64,
    returned: Vec<EpollEvent>,
    actual: u64,
    step: SelectStep,
)
    requires
        call_ensures(Wait::resume, (wait, status, returned, actual), step),
        answered(wait.abi, status),
        actual <= returned@.len(),
        returned@.len() <= usize::MAX,
        actual <= wait.capacity || actual <= 1,
        forall|i: int| 0 <= i < actual ==> !is_wakeup(#[trigger] returned@[i]),
    ensures
        step is Done,
        step->Done_0.result is Ok,
        step->Done_0.events@.len() == actual,
        forall|i: int|
            0 <= i < actual ==> stands_for(
                wait.abi,
                #[trigger] returned@[i],
                step->Done_0.events@[i],
            ),
{
    law_wait_reports_every_entry(wait, status, returned, actual, step, actual as int);
}

/// A wait whose answer holds a wakeup first reports nothing less: the entries
/// before the first wakeup are gathered, one event for each, those after it
/// are kept to be looked at, and the wake channel is drained meanwhile.
pub proof fn law_wait_stops_at_wakeup(
    wait: Wait,
    status: i64,
    returned: Vec<EpollEvent>,
    actual: u64,
    step: SelectStep,
    n: int,
    k: int,
)
    requires
        call_ensures(Wait::resume, (wait, status, returned, actual), step),
        answered(wait.abi, status),
        counts(n, actual, returned@.len(), wait.capacity),
        0 <= k < n,
        is_wakeup(returned@[k]),
        forall|i: int| 0 <= i < k ==> !is_wakeup(#[trigger] returned@[i]),
    ensures
        step is ReceiveWake,
        step->ReceiveWake_0.wait == wait,
        step->ReceiveWake_0.events@.len() == k,
        forall|i: int|
            0 <= i < k ==> stands_for(
                wait.abi,
                #[trigger] returned@[i],
                step->ReceiveWake_0.events@[i],
            ),
        left_to_look_at(step->ReceiveWake_0) == returned@.subrange(k + 1, n),
{
    lemma_batch(wait, returned@, actual, n);
    let batch = returned@.take(n);
    lemma_before_wakeup_clear(batch);
    let m = before_wakeup(batch) as int;
    if m < k {
        assert(batch[m] == returned@[m]);
    }
    if k < m {
        assert(batch[k] == returned@[k]);
    }
    assert(m == k);
    assert forall|i: int| 0 <= i < k implies stands_for(
        wait.abi,
        #[trigger] returned@[i],
        step->ReceiveWake_0.events@[i],
    ) by {
        lemma_of_entry(wait.abi, returned@[i]);
        assert(step->ReceiveWake_0.events@[i] == Event::of_entry(wait.abi, batch.take(k)[i]));
    }
    assert(left_to_look_at(step->ReceiveWake_0) =~= step->ReceiveWake_0.rest());
    assert(batch.skip(k + 1) =~= returned@.subrange(k + 1, n));
}

/// The part of a batch that is still to be looked at.
pub open spec fn left_to_look_at(receive: ReceiveWake) -> Seq<EpollEvent> {
    if receive.next <= receive.batch@.len() {
        receive.batch@.subrange(receive.next as int, receive.batch@.len() as int)
    } else {
        Seq::empty()
    }
}

/// A wait that elapsed, or that found nothing, ends well and reports nothing;
/// one that failed reports nothing but the kernel's answer.
pub proof fn law_wait_without_entries(
    wait: Wait,
    status: i64,
    returned: Vec<EpollEvent>,
    actual: u64,
    step: SelectStep,
)
    requires
        call_ensures(Wait::resume, (wait, status, returned, actual), step),
        !answered(wait.abi, status),
    ensures
        step is Done,
        step->Done_0.events@.len() == 0,
        step->Done_0.result is Ok <==> status == wait.abi.status_would_block || status
            == wait.abi.status_wait_timed_out,
        step->Done_0.result matches Err(error) ==> error == (Error::Status {
            operation: Operation::EpollWait,
            status,
        }),
{
}

/// The kernel is offered a buffer for as many entries as the caller has room
/// for, and for one where the caller has none.
pub proof fn law_buffer_size(wait: Wait, len: usize)
    requires
        call_ensures(Wait::batch_len, (&wait,), len),
    ensures
        len >= 1,
        len >= wait.capacity,
        len == wait.capacity || len == 1,
{
}

/// A message received from the wake channel calls for another look, with
/// nothing changed; a failure ends the wait with what was gathered.
pub proof fn law_drain_goes_on(receive: ReceiveWake, status: i64, step: SelectStep)
    requires
        call_ensures(ReceiveWake::resume, (receive, status), step),
        status != receive.wait.abi.status_would_block,
    ensures
        status == receive.wait.abi.status_ok ==> step is ReceiveWake
            && step->ReceiveWake_0 == receive,
        status != receive.wait.abi.status_ok ==> {
            &&& step is Done
            &&& step->Done_0.events@ == receive.events@
            &&& step->Done_0.result == Err::<(), Error>(
                Error::Status { operation: Operation::ChannelDrain, status },
            )
        },
{
}

/// Once the wake channel is empty, the entries left are gathered after those
/// before, one event for each, up to the next wakeup at `k` if there is one.
pub proof fn law_drain_done(receive: ReceiveWake, status: i64, step: SelectStep, k: int)
    requires
        call_ensures(ReceiveWake::resume, (receive, status), step),
        status == receive.wait.abi.status_would_block,
        0 <= k <= left_to_look_at(receive).len(),
        forall|i: int| 0 <= i < k ==> !is_wakeup(#[trigger] left_to_look_at(receive)[i]),
        k < left_to_look_at(receive).len() ==> is_wakeup(left_to_look_at(receive)[k]),
    ensures
        k < left_to_look_at(receive).len() ==> {
            &&& step is ReceiveWake
            &&& step->ReceiveWake_0.wait == receive.wait
            &&& goes_on(receive, k, step->ReceiveWake_0.events@)
            &&& left_to_look_at(step->ReceiveWake_0) == left_to_look_at(receive).skip(k + 1)
        },
        k == left_to_look_at(receive).len() ==> {
            &&& step is TakeWakes
            &&& step->TakeWakes_0.wait == receive.wait
            &&& goes_on(receive, k, step->TakeWakes_0.events@)
        },
{
    let rest = left_to_look_at(receive);
    assert(rest =~= receive.rest());
    lemma_before_wakeup_clear(rest);
    let m = before_wakeup(rest) as int;
    assert(m == k) by {
        if m < k {
            assert(!is_wakeup(rest[m]));
        }
        if k < m {
            assert(is_wakeup(rest[k]));
        }
    }
    let seen = receive.events@ + translated(receive.wait.abi, rest.take(k));
    assert(goes_on(receive, k, seen)) by {
        assert forall|i: int| 0 <= i < k implies stands_for(
            receive.wait.abi,
            #[trigger] rest[i],
            seen[receive.events@.len() + i],
        ) by {
            lemma_of_entry(receive.wait.abi, rest[i]);
            assert(seen[receive.events@.len() + i] == Event::of_entry(
                receive.wait.abi,
                rest.take(k)[i],
            ));
        }
    }
    if k < rest.len() {
        assert(left_to_look_at(step->ReceiveWake_0) =~= step->ReceiveWake_0.rest());
    }
}

/// `events` are those gathered before, and then one for each of the first `k`
/// entries left.
pub open spec fn goes_on(receive: ReceiveWake, k: int, events: Seq<Event>) -> bool {
    let before = receive.events@;
    &&& events.len() == before.len() + k
    &&& forall|i: int| 0 <= i < before.len() ==> events[i] == before[i]
    &&& forall|i: int|
        0 <= i < k ==> stands_for(
            receive.wait.abi,
            #[trigger] left_to_look_at(receive)[i],
            events[before.len() + i],
        )
}

/// Where only a registration changed and nothing is ready, the very same wait
/// begins anew.  Where a waker asked and the caller has room, its token is read.
/// In all other cases the wait ends well with what is ready.
pub proof fn law_wakeups_decide(take: TakeWakes, wakes: Wakes, step: SelectStep)
    requires
        call_ensures(TakeWakes::resume, (take, wakes), step),
    ensures
        step is Wait <==> take.events@.len() == 0 && wakes.registration && !wakes.external,
        step matches SelectStep::Wait(wait) ==> wait == take.wait,
        step is ReadWakeToken <==> wakes.external && take.wait.capacity != 0,
        step matches SelectStep::ReadWakeToken(read) ==> read.events@ == take.events@,
        step is Wait || step is ReadWakeToken || step is Done,
        step matches SelectStep::Done(finished) ==> {
            &&& finished.events@ == take.events@
            &&& finished.result is Ok
        },
{
}

/// A wakeup is reported last, after all that is ready, under the very token
/// that was read: readable, and nothing else.
pub proof fn law_wakeup_report(read: ReadWakeToken, token: Token, step: SelectStep)
    requires
        call_ensures(ReadWakeToken::resume, (read, Some(token)), step),
    ensures
        step is Done,
        step->Done_0.result is Ok,
        step->Done_0.events@.len() == read.events@.len() + 1,
        step->Done_0.events@.drop_last() == read.events@,
        reports_wakeup(step->Done_0.events@.last(), token),
{
    assert(step->Done_0.events@.drop_last() =~= read.events@);
}

/// Without a token the wait fails, and reports all that is ready.
pub proof fn law_wakeup_without_token(read: ReadWakeToken, step: SelectStep)
    requires
        call_ensures(ReadWakeToken::resume, (read, None), step),
    ensures
        step is Done,
        step->Done_0.events@ == read.events@,
        step->Done_0.result == Err::<(), Error>(Error::WakerPoisoned),
{
}

/// Wakeups reported under two tokens are told apart by them.
pub proof fn law_wakeups_are_told_apart(
    first: ReadWakeToken,
    second: ReadWakeToken,
    token: Token,
    other: Token,
    step: SelectStep,
    step2: SelectStep,
)
    requires
        call_ensures(ReadWakeToken::resume, (first, Some(token)), step),
        call_ensures(ReadWakeToken::resume, (second, Some(other)), step2),
    ensures
        step->Done_0.events@.last() == step2->Done_0.events@.last() <==> token == other,
{
}

/// A wait begins on the selector's own epoll set and channel, with the caller's
/// room and without a deadline; the clock is read exactly where there is a
/// timeout.
pub proof fn law_wait_begins(
    selector: Selector,
    capacity: usize,
    timeout: Option<Timeout>,
    step: SelectStep,
)
    requires
        call_ensures(Selector::select, (&selector, capacity, timeout), step),
    ensures
        step is Wait || step is ReadClock,
        step is ReadClock <==> timeout is Some,
        step matches SelectStep::ReadClock(read) ==> Some(read.timeout) == timeout && begins(
            selector,
            capacity,
            read.wait,
        ),
        step matches SelectStep::Wait(wait) ==> begins(selector, capacity, wait),
{
}

/// `wait` is a wait on `selector` that has no deadline yet.
pub open spec fn begins(selector: Selector, capacity: usize, wait: Wait) -> bool {
    &&& wait.abi == selector@.abi
    &&& wait.epoll == selector@.epoll
    &&& wait.wake_receiver == selector@.wake_receiver
    &&& wait.capacity == capacity
    &&& wait.deadline is None
}

/// Once the clock is read, the wait has the deadline of its timeout, and is
/// otherwise as it was.
pub proof fn law_clock_sets_deadline(
    read: ReadClock,
    status: i64,
    now: TimeClock,
    at: TimeClock,
    step: SelectStep,
)
    requires
        call_ensures(ReadClock::resume, (read, status, now), step),
        call_ensures(deadline_after, (status, now, read.timeout), at),
    ensures
        step is Wait,
        step->Wait_0.deadline == Some(at),
        step->Wait_0.abi == read.wait.abi,
        step->Wait_0.epoll == read.wait.epoll,
        step->Wait_0.wake_receiver == read.wait.wake_receiver,
        step->Wait_0.capacity == read.wait.capacity,
{
}

/// With a clock that works, the wait ends the timeout after the clock's time,
/// to the nanosecond, wherever that fits.
pub proof fn law_wait_ends_on_time(
    read: ReadClock,
    status: i64,
    now: TimeClock,
    step: SelectStep,
)
    requires
        call_ensures(ReadClock::resume, (read, status, now), step),
        status == 0,
        now.tv_sec >= 0,
        0 <= now.tv_nsec < 1_000_000_000,
        read.timeout.nanos < 1_000_000_000,
        now.tv_sec + read.timeout.secs < i64::MAX,
    ensures
        step is Wait,
        step->Wait_0.deadline is Some,
        step->Wait_0.deadline->0.tv_sec * 1_000_000_000 + step->Wait_0.deadline->0.tv_nsec
            == now.tv_sec * 1_000_000_000 + now.tv_nsec + read.timeout.secs * 1_000_000_000
            + read.timeout.nanos,
        0 <= step->Wait_0.deadline->0.tv_nsec < 1_000_000_000,
{
}

/// The caller's list holds what the wait reports and nothing else, and the
/// caller learns how the wait ended.
pub proof fn law_delivery(finished: Finished, events: &mut Events, res: Result<(), Error>)
    requires
        call_ensures(Finished::deliver, (finished, events), res),
    ensures
        final(events)@ == finished.events@,
        res == finished.result,
{
}

/// `trace` is the run of steps from the kernel's answer on: `statuses` are the
/// answers of the wake channel, none of them a failure.
pub open spec fn runs(
    wait: Wait,
    status: i64,
    returned: Vec<EpollEvent>,
    actual: u64,
    statuses: Seq<i64>,
    trace: Seq<SelectStep>,
) -> bool {
    &&& trace.len() == statuses.len() + 1
    &&& call_ensures(Wait::resume, (wait, status, returned, actual), trace[0])
    &&& forall|i: int|
        0 <= i < statuses.len() ==> {
            &&& #[trigger] trace[i] is ReceiveWake
            &&& call_ensures(
                ReceiveWake::resume,
                (trace[i]->ReceiveWake_0, statuses[i]),
                trace[i + 1],
            )
            &&& statuses[i] == wait.abi.status_ok || statuses[i] == wait.abi.status_would_block
        }
}

/// A whole wait, up to the selector's wakeups: however many wakeups lie between
/// the entries, and however often the wake channel is looked at, what is
/// gathered in the end stands for the entries that count, all of them, in
/// order.  It ends without a look at the selector's wakeups exactly where no
/// entry was one.
pub proof fn law_whole_wait(
    wait: Wait,
    status: i64,
    returned: Vec<EpollEvent>,
    actual: u64,
    statuses: Seq<i64>,
    trace: Seq<SelectStep>,
    n: int,
)
    requires
        runs(wait, status, returned, actual, statuses, trace),
        answered(wait.abi, status),
        counts(n, actual, returned@.len(), wait.capacity),
        !(trace.last() is ReceiveWake),
    ensures
        trace.last() is Done || trace.last() is TakeWakes,
        trace.last() is Done <==> (forall|i: int|
            0 <= i < n ==> !is_wakeup(#[trigger] returned@[i])),
        trace.last() matches SelectStep::Done(finished) ==> {
            &&& finished.result is Ok
            &&& stand_for_all(wait.abi, returned@.take(n), finished.events@)
        },
        trace.last() matches SelectStep::TakeWakes(take) ==> {
            &&& take.wait == wait
            &&& stand_for_all(wait.abi, returned@.take(n), take.events@)
        },
{
    lemma_batch(wait, returned@, actual, n);
    lemma_run(wait, status, returned, actual, statuses, trace, n);
    lemma_reported_stands(wait.abi, returned@.take(n));
    let batch = returned@.take(n);
    if crate::laws::holds_wakeup(batch) {
        let i = choose|i: int|
            0 <= i < batch.len() && (#[trigger] batch[i]).data == crate::abi::WAKE_DATA;
        assert(is_wakeup(returned@[i]));
    } else {
        assert forall|i: int| 0 <= i < n implies !is_wakeup(#[trigger] returned@[i]) by {
            assert(batch[i] == returned@[i]);
        }
    }
}

/// Along a run nothing that was in the batch is lost.
proof fn lemma_run(
    wait: Wait,
    status: i64,
    returned: Vec<EpollEvent>,
    actual: u64,
    statuses: Seq<i64>,
    trace: Seq<SelectStep>,
    n: int,
)
    requires
        runs(wait, status, returned, actual, statuses, trace),
        answered(wait.abi, status),
        counts(n, actual, returned@.len(), wait.capacity),
    ensures
        crate::laws::belongs_to(trace.last(), wait),
        gathered(trace.last()) == reported(wait.abi, returned@.take(n)),
        trace.last() is Done <==> !crate::laws::holds_wakeup(returned@.take(n)),
    decreases statuses.len(),
{
    lemma_batch(wait, returned@, actual, n);
    assert(crate::laws::drains(wait, returned@, actual, statuses, trace)) by {
        assert forall|i: int| 0 <= i < statuses.len() implies {
            &&& #[trigger] trace[i] matches SelectStep::ReceiveWake(receive)
            &&& receive.outcome(statuses[i], trace[i + 1])
            &&& statuses[i] == wait.abi.status_ok || statuses[i] == wait.abi.status_would_block
        } by {
            assert(trace[i] is ReceiveWake);
        }
    }
    crate::laws::law_batch_is_reported(wait, returned@, actual, statuses, trace);
}

/// A whole wait that a waker ended: it reports the entries that count, in
/// order, and then one event more, the wakeup under the selector's token.
pub proof fn law_whole_wait_with_waker(
    wait: Wait,
    status: i64,
    returned: Vec<EpollEvent>,
    actual: u64,
    statuses: Seq<i64>,
    trace: Seq<SelectStep>,
    n: int,
    selector: &mut Selector,
    wakes: Wakes,
    step: SelectStep,
    token: Token,
    last: SelectStep,
)
    requires
        runs(wait, status, returned, actual, statuses, trace),
        answered(wait.abi, status),
        counts(n, actual, returned@.len(), wait.capacity),
        trace.last() is TakeWakes,
        wait.capacity > 0,
        call_ensures(Selector::take_wakes, (selector,), wakes),
        old(selector)@.external_wake,
        call_ensures(TakeWakes::resume, (trace.last()->TakeWakes_0, wakes), step),
        call_ensures(Selector::wake_token, (&*final(selector),), token),
        step is ReadWakeToken ==> call_ensures(
            ReadWakeToken::resume,
            (step->ReadWakeToken_0, Some(token)),
            last,
        ),
    ensures
        step is ReadWakeToken,
        token == old(selector)@.wake_token,
        last is Done,
        last->Done_0.result is Ok,
        last->Done_0.events@.len() > 0,
        last->Done_0.events@.len() <= wait.capacity,
        stand_for_all(wait.abi, returned@.take(n), last->Done_0.events@.drop_last()),
        reports_wakeup(last->Done_0.events@.last(), old(selector)@.wake_token),
{
    law_whole_wait(wait, status, returned, actual, statuses, trace, n);
    let events = last->Done_0.events@;
    assert(events.drop_last() =~= trace.last()->TakeWakes_0.events@);
    let i = choose|i: int| 0 <= i < n && is_wakeup(#[trigger] returned@[i]);
    assert(returned@.take(n)[i] == returned@[i]);
    lemma_fewer_than_entries(wait.abi, returned@.take(n), events.drop_last(), i);
}

/// A whole wait that only a registration change interrupted begins anew, the
/// same in every respect, where no entry of a source was in it.
pub proof fn law_whole_wait_with_registration(
    wait: Wait,
    status: i64,
    returned: Vec<EpollEvent>,
    actual: u64,
    statuses: Seq<i64>,
    trace: Seq<SelectStep>,
    n: int,
    selector: &mut Selector,
    wakes: Wakes,
    step: SelectStep,
)
    requires
        runs(wait, status, returned, actual, statuses, trace),
        answered(wait.abi, status),
        counts(n, actual, returned@.len(), wait.capacity),
        trace.last() is TakeWakes,
        call_ensures(Selector::take_wakes, (selector,), wakes),
        old(selector)@.registration_wake,
        !old(selector)@.external_wake,
        call_ensures(TakeWakes::resume, (trace.last()->TakeWakes_0, wakes), step),
    ensures
        (forall|i: int| 0 <= i < n ==> is_wakeup(#[trigger] returned@[i])) ==> step
            == SelectStep::Wait(wait),
        step matches SelectStep::Done(finished) ==> {
            &&& finished.result is Ok
            &&& stand_for_all(wait.abi, returned@.take(n), finished.events@)
        },
{
    law_whole_wait(wait, status, returned, actual, statuses, trace, n);
    if forall|i: int| 0 <= i < n ==> is_wakeup(#[trigger] returned@[i]) {
        let batch = returned@.take(n);
        assert forall|i: int| 0 <= i < batch.len() implies is_wakeup(#[trigger] batch[i]) by {
            assert(batch[i] == returned@[i]);
        }
        lemma_wakeups_only(wait.abi, batch, trace.last()->TakeWakes_0.events@);
    }
}

/// Wakeups alone stand for no event.
proof fn lemma_wakeups_only(abi: Abi, entries: Seq<EpollEvent>, events: Seq<Event>)
    requires
        stand_for_all(abi, entries, events),
        forall|i: int| 0 <= i < entries.len() ==> is_wakeup(#[trigger] entries[i]),
    ensures
        events.len() == 0,
    decreases entries.len(),
{
    if entries.len() > 0 {
        assert(is_wakeup(entries[entries.len() - 1]));
        lemma_wakeups_only(abi, entries.drop_last(), events);
    }
}

/// There are no more events than entries.
proof fn lemma_no_more_than_entries(abi: Abi, entries: Seq<EpollEvent>, events: Seq<Event>)
    requires
        stand_for_all(abi, entries, events),
    ensures
        events.len() <= entries.len(),
    decreases entries.len(),
{
    if entries.len() > 0 {
        if is_wakeup(entries.last()) {
            lemma_no_more_than_entries(abi, entries.drop_last(), events);
        } else {
            lemma_no_more_than_entries(abi, entries.drop_last(), events.drop_last());
        }
    }
}

/// With a wakeup among the entries there are fewer events than entries.
proof fn lemma_fewer_than_entries(
    abi: Abi,
    entries: Seq<EpollEvent>,
    events: Seq<Event>,
    i: int,
)
    requires
        stand_for_all(abi, entries, events),
        0 <= i < entries.len(),
        is_wakeup(entries[i]),
    ensures
        events.len() < entries.len(),
    decreases entries.len(),
{
    if is_wakeup(entries.last()) {
        lemma_no_more_than_entries(abi, entries.drop_last(), events);
    } else {
        lemma_fewer_than_entries(abi, entries.drop_last(), events.drop_last(), i);
    }
}

} // verus!
