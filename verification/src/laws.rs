//! What holds of the selector across its operations.

use vstd::prelude::*;

use crate::abi::{
    interest_bits, registration_event, Abi, CtlOp, CtlRequest, EpollEvent, TimeClock, WAKE_DATA,
};
use crate::deadline::{clock_valid, deadline, Timeout, NANOS_PER_SEC};
use crate::error::Error;
use crate::event::{has_bit, Event};
use crate::select::{
    before_wakeup, reported, translated, ReadWakeToken, ReceiveWake, SelectStep, TakeWakes, Wait,
};
use crate::selector::{first_at, handles_unique, place_of, Registration, SelectorView, Wakes};
use crate::token::{Interest, Token};

verus! {

/// What `handle` is registered for, if it is.
pub open spec fn lookup(selector: SelectorView, handle: u64) -> Option<(Token, Interest)> {
    if selector.registered(handle) {
        let registration = selector.registrations[place_of(selector.registrations, handle)];
        Some((registration.token, registration.interests))
    } else {
        None
    }
}

/// A handle that is registered at place `i` of unique handles has that place.
proof fn lemma_place(registrations: Seq<Registration>, i: int)
    requires
        handles_unique(registrations),
        0 <= i < registrations.len(),
    ensures
        first_at(registrations, registrations[i].handle, i),
        place_of(registrations, registrations[i].handle) == i,
{
    let handle = registrations[i].handle;
    assert(first_at(registrations, handle, i));
    let k = place_of(registrations, handle);
    assert(first_at(registrations, handle, k));
    assert(registrations[k].handle == registrations[i].handle);
}

/// A handle that is registered has a first place.
proof fn lemma_registered(selector: SelectorView, handle: u64) -> (i: int)
    requires
        selector.wf(),
        selector.registered(handle),
    ensures
        0 <= i < selector.registrations.len(),
        selector.registrations[i].handle == handle,
        place_of(selector.registrations, handle) == i,
{
    let i = choose|i: int|
        0 <= i < selector.registrations.len() && (#[trigger] selector.registrations[i]).handle
            == handle;
    lemma_place(selector.registrations, i);
    i
}

/// What is registered for a handle is what it was registered with, and the
/// registration of a handle leaves all others as they are.
pub proof fn law_register_lookup(
    selector: SelectorView,
    handle: u64,
    token: Token,
    interests: Interest,
    other: u64,
)
    requires
        selector.wf(),
        !selector.registered(handle),
    ensures
        selector.with_registration(handle, token, interests).wf(),
        lookup(selector.with_registration(handle, token, interests), other) == (if other
            == handle {
            Some((token, interests))
        } else {
            lookup(selector, other)
        }),
{
    let after = selector.with_registration(handle, token, interests);
    let n = selector.registrations.len() as int;
    assert(after.registrations[n].handle == handle);
    assert(handles_unique(after.registrations));
    lemma_place(after.registrations, n);
    if other != handle {
        if selector.registered(other) {
            let i = lemma_registered(selector, other);
            assert(after.registrations[i] == selector.registrations[i]);
            lemma_place(after.registrations, i);
        } else if after.registered(other) {
            let i = lemma_registered(after, other);
            assert(selector.registrations[i] == after.registrations[i]);
        }
    }
}

/// What is registered for a handle is what it was last changed to, and the
/// change of a handle leaves all others as they are.
pub proof fn law_reregister_lookup(
    selector: SelectorView,
    handle: u64,
    token: Token,
    interests: Interest,
    other: u64,
)
    requires
        selector.wf(),
        selector.registered(handle),
    ensures
        selector.with_reregistration(handle, token, interests).wf(),
        lookup(selector.with_reregistration(handle, token, interests), other) == (if other
            == handle {
            Some((token, interests))
        } else {
            lookup(selector, other)
        }),
{
    let after = selector.with_reregistration(handle, token, interests);
    let k = lemma_registered(selector, handle);
    assert(forall|i: int|
        0 <= i < after.registrations.len() ==> (#[trigger] after.registrations[i]).handle
            == selector.registrations[i].handle);
    assert(handles_unique(after.registrations));
    lemma_place(after.registrations, k);
    if other != handle {
        if selector.registered(other) {
            let i = lemma_registered(selector, other);
            assert(after.registrations[i] == selector.registrations[i]);
            lemma_place(after.registrations, i);
        } else if after.registered(other) {
            let i = lemma_registered(after, other);
            assert(selector.registrations[i].handle == other);
        }
    }
}

/// A handle that was taken out is not registered any more, and all others are
/// as they were.
pub proof fn law_deregister_lookup(selector: SelectorView, handle: u64, other: u64)
    requires
        selector.wf(),
        selector.registered(handle),
    ensures
        selector.without_registration(handle).wf(),
        lookup(selector.without_registration(handle), other) == (if other == handle {
            None
        } else {
            lookup(selector, other)
        }),
{
    let after = selector.without_registration(handle);
    let before = selector.registrations;
    let k = lemma_registered(selector, handle);
    let last = before.len() - 1;
    assert(forall|i: int|
        0 <= i < after.registrations.len() ==> #[trigger] after.registrations[i] == (if i == k {
            before[last]
        } else {
            before[i]
        }));
    assert(handles_unique(after.registrations));
    if after.registered(other) {
        let i = lemma_registered(after, other);
        let j = if i == k {
            last
        } else {
            i
        };
        assert(before[j] == after.registrations[i]);
        lemma_place(before, j);
        assert(before[j].handle != handle);
    } else if other != handle && selector.registered(other) {
        let j = lemma_registered(selector, other);
        let i = if j == last {
            k
        } else {
            j
        };
        assert(after.registrations[i] == before[j]);
    }
}

/// Taking a handle out undoes its registration: what is registered afterwards,
/// and in which order, is what was registered before.
pub proof fn law_deregister_undoes_register(
    selector: SelectorView,
    handle: u64,
    token: Token,
    interests: Interest,
)
    requires
        selector.wf(),
        !selector.registered(handle),
    ensures
        selector.with_registration(handle, token, interests).registered(handle),
        selector.with_registration(handle, token, interests).without_registration(
            handle,
        ).registrations == selector.registrations,
{
    let with = selector.with_registration(handle, token, interests);
    let n = selector.registrations.len() as int;
    law_register_lookup(selector, handle, token, interests, handle);
    assert(with.registrations[n].handle == handle);
    lemma_place(with.registrations, n);
    assert(with.without_registration(handle).registrations =~= selector.registrations);
}

/// The entries that the epoll set holds, going by what is registered, without
/// that of the wake channel.
pub open spec fn on_record(selector: SelectorView) -> Map<u64, EpollEvent> {
    Map::new(
        |handle: u64| selector.registered(handle),
        |handle: u64|
            {
                let (token, interests) = lookup(selector, handle)->0;
                registration_event(selector.abi, token, interests)
            },
    )
}

/// The entries that an epoll set of `entries` holds once `request` has been
/// carried out.
pub open spec fn carried_out(request: CtlRequest, entries: Map<u64, EpollEvent>) -> Map<
    u64,
    EpollEvent,
> {
    match request.op {
        CtlOp::Add => entries.insert(request.handle, request.event->0),
        CtlOp::Modify => entries.insert(request.handle, request.event->0),
        CtlOp::Delete => entries.remove(request.handle),
    }
}

/// Whether the kernel can carry `request` out on an epoll set of `entries`: it
/// adds what is not there, and modifies and deletes what is.
pub open spec fn possible(request: CtlRequest, entries: Map<u64, EpollEvent>) -> bool {
    match request.op {
        CtlOp::Add => !entries.dom().contains(request.handle) && request.event is Some,
        CtlOp::Modify => entries.dom().contains(request.handle) && request.event is Some,
        CtlOp::Delete => entries.dom().contains(request.handle),
    }
}

/// A registration is on record as the kernel was asked for it, and so the
/// record goes on to agree with the epoll set.
pub proof fn law_register_on_record(
    selector: SelectorView,
    handle: u64,
    token: Token,
    interests: Interest,
)
    requires
        selector.wf(),
        !selector.registered(handle),
    ensures
        on_record(selector.with_registration(handle, token, interests)) == carried_out(
            selector.add_request(handle, token, interests),
            on_record(selector),
        ),
        possible(selector.add_request(handle, token, interests), on_record(selector)),
{
    let after = selector.with_registration(handle, token, interests);
    assert forall|other: u64|
        (#[trigger] after.registered(other)) == (other == handle || selector.registered(other))
            && lookup(after, other) == (if other == handle {
            Some((token, interests))
        } else {
            lookup(selector, other)
        }) by {
        law_register_lookup(selector, handle, token, interests, other);
    }
    assert(on_record(after) =~= carried_out(
        selector.add_request(handle, token, interests),
        on_record(selector),
    ));
}

/// A change of a registration is on record as the kernel was asked for it.
pub proof fn law_reregister_on_record(
    selector: SelectorView,
    handle: u64,
    token: Token,
    interests: Interest,
)
    requires
        selector.wf(),
        selector.registered(handle),
    ensures
        on_record(selector.with_reregistration(handle, token, interests)) == carried_out(
            selector.modify_request(handle, token, interests),
            on_record(selector),
        ),
        possible(selector.modify_request(handle, token, interests), on_record(selector)),
{
    let after = selector.with_reregistration(handle, token, interests);
    assert forall|other: u64|
        (#[trigger] after.registered(other)) == (other == handle || selector.registered(other))
            && lookup(after, other) == (if other == handle {
            Some((token, interests))
        } else {
            lookup(selector, other)
        }) by {
        law_reregister_lookup(selector, handle, token, interests, other);
    }
    assert(on_record(after) =~= carried_out(
        selector.modify_request(handle, token, interests),
        on_record(selector),
    ));
}

/// A registration that was taken out is off the record, as the kernel was
/// asked for it.
pub proof fn law_deregister_on_record(selector: SelectorView, handle: u64)
    requires
        selector.wf(),
        selector.registered(handle),
    ensures
        on_record(selector.without_registration(handle)) == carried_out(
            selector.delete_request(handle),
            on_record(selector),
        ),
        possible(selector.delete_request(handle), on_record(selector)),
{
    let after = selector.without_registration(handle);
    assert forall|other: u64|
        (#[trigger] after.registered(other)) == (other != handle && selector.registered(other))
            && (other != handle ==> lookup(after, other) == lookup(selector, other)) by {
        law_deregister_lookup(selector, handle, other);
    }
    assert(on_record(after) =~= carried_out(
        selector.delete_request(handle),
        on_record(selector),
    ));
}

/// No change of a registration takes back a waker's wakeup, nor changes the
/// token under which it is reported; each one notes a wakeup of its own.
pub proof fn law_registration_changes_keep_wakeups(
    selector: SelectorView,
    handle: u64,
    token: Token,
    interests: Interest,
)
    ensures
        ({
            let after = selector.with_registration(handle, token, interests);
            &&& after.external_wake == selector.external_wake
            &&& after.wake_token == selector.wake_token
            &&& after.registration_wake
        }),
        ({
            let after = selector.with_reregistration(handle, token, interests);
            &&& after.external_wake == selector.external_wake
            &&& after.wake_token == selector.wake_token
            &&& after.registration_wake
        }),
        ({
            let after = selector.without_registration(handle);
            &&& after.external_wake == selector.external_wake
            &&& after.wake_token == selector.wake_token
            &&& after.registration_wake
        }),
{
}

/// A registration change by itself never ends a wait: where no waker asked and
/// nothing is ready, the wait goes on with the deadline that it had.
pub proof fn law_registration_change_resumes_wait(
    selector: SelectorView,
    take: TakeWakes,
    step: SelectStep,
)
    requires
        selector.registration_wake,
        !selector.external_wake,
        take.events@.len() == 0,
        take.outcome(selector.wakes(), step),
    ensures
        step == SelectStep::Wait(take.wait),
{
}

/// A waker's wakeup ends the wait that takes it over.  It is reported after
/// what is ready, under the token of the waker that was made last, whichever
/// registrations changed meanwhile.  A caller without room for events is left
/// out: it gets no report.
pub proof fn law_wakeup_is_reported(
    selector: SelectorView,
    take: TakeWakes,
    read: SelectStep,
    step: SelectStep,
)
    requires
        selector.external_wake,
        take.wait.capacity != 0,
        take.outcome(selector.wakes(), read),
        read matches SelectStep::ReadWakeToken(read) ==> read.outcome(
            Some(selector.wake_token),
            step,
        ),
    ensures
        read is ReadWakeToken,
        step.ends_with(take.events@.push(Event::of_wakeup(selector.wake_token)), Ok(())),
{
}

/// Where a wait takes wakeups over, no wakeup is reported that no waker asked
/// for.
pub proof fn law_no_wakeup_without_waker(selector: SelectorView, take: TakeWakes, step: SelectStep)
    requires
        !selector.external_wake,
        take.outcome(selector.wakes(), step),
    ensures
        step is Wait || step.ends_with(take.events@, Ok(())),
{
}

/// Filtering a concatenation is filtering its parts.
proof fn lemma_reported_split(abi: Abi, a: Seq<EpollEvent>, b: Seq<EpollEvent>)
    ensures
        reported(abi, a + b) == reported(abi, a) + reported(abi, b),
{
    let keep = |entry: EpollEvent| entry.data != WAKE_DATA;
    Seq::filter_distributes_over_add(a, b, keep);
    assert(reported(abi, a + b) =~= reported(abi, a) + reported(abi, b));
}

/// Entries without a wakeup among them are all reported.
proof fn lemma_reported_all(abi: Abi, entries: Seq<EpollEvent>)
    requires
        forall|i: int| 0 <= i < entries.len() ==> (#[trigger] entries[i]).data != WAKE_DATA,
    ensures
        reported(abi, entries) == translated(abi, entries),
    decreases entries.len(),
{
    reveal(Seq::filter);
    let keep = |entry: EpollEvent| entry.data != WAKE_DATA;
    if entries.len() > 0 {
        let front = entries.drop_last();
        lemma_reported_all(abi, front);
        assert(keep(entries.last()));
        assert(entries.filter(keep) == front.filter(keep).push(entries.last()));
        assert(reported(abi, entries) =~= reported(abi, front).push(
            Event::of_entry(abi, entries.last()),
        ));
    }
    assert(reported(abi, entries) =~= translated(abi, entries));
}

/// What comes before the first wakeup holds none, and the wakeup comes next.
pub proof fn lemma_before_wakeup_clear(entries: Seq<EpollEvent>)
    ensures
        before_wakeup(entries) <= entries.len(),
        forall|i: int|
            0 <= i < before_wakeup(entries) ==> (#[trigger] entries[i]).data != WAKE_DATA,
        before_wakeup(entries) < entries.len() ==> entries[before_wakeup(entries) as int].data
            == WAKE_DATA,
    decreases entries.len(),
{
    if entries.len() > 0 && entries[0].data != WAKE_DATA {
        let tail = entries.skip(1);
        lemma_before_wakeup_clear(tail);
        assert forall|i: int| 0 <= i < before_wakeup(entries) implies (#[trigger] entries[i]).data
            != WAKE_DATA by {
            if i > 0 {
                assert(tail[i - 1] == entries[i]);
            }
        }
    }
}

/// The events that a wait has gathered, with those that are still to be read
/// out of its batch.
pub open spec fn gathered(step: SelectStep) -> Seq<Event> {
    match step {
        SelectStep::ReceiveWake(receive) => receive.events@ + reported(
            receive.wait.abi,
            receive.rest(),
        ),
        SelectStep::TakeWakes(take) => take.events@,
        SelectStep::ReadWakeToken(read) => read.events@,
        SelectStep::Done(finished) => finished.events@,
        _ => Seq::empty(),
    }
}

/// Going through a batch neither loses nor invents an event, nor changes their
/// order.
pub proof fn law_scan_keeps_events(
    wait: Wait,
    events: Seq<Event>,
    rest: Seq<EpollEvent>,
    woken: bool,
    step: SelectStep,
)
    requires
        step.continues(wait, events, rest, woken),
    ensures
        gathered(step) == events + reported(wait.abi, rest),
{
    let n = before_wakeup(rest) as int;
    lemma_before_wakeup_clear(rest);
    let head = rest.take(n);
    assert forall|i: int| 0 <= i < head.len() implies (#[trigger] head[i]).data != WAKE_DATA by {
        assert(head[i] == rest[i]);
    }
    lemma_reported_all(wait.abi, head);
    if n < rest.len() {
        let wakeup = seq![rest[n]];
        let tail = rest.skip(n + 1);
        assert(rest =~= head + (wakeup + tail));
        lemma_reported_split(wait.abi, head, wakeup + tail);
        lemma_reported_split(wait.abi, wakeup, tail);
        law_wakeups_are_not_entries(wait.abi, wakeup);
        assert(gathered(step) =~= events + reported(wait.abi, rest));
    } else {
        assert(head =~= rest);
    }
}

/// `trace` is the run of steps from a successful wait on: `statuses` are the
/// answers of the wake channel, none of them a failure.
pub open spec fn drains(
    wait: Wait,
    returned: Seq<EpollEvent>,
    actual: u64,
    statuses: Seq<i64>,
    trace: Seq<SelectStep>,
) -> bool {
    &&& trace.len() == statuses.len() + 1
    &&& wait.outcome(wait.abi.status_ok, returned, actual, trace[0])
    &&& forall|i: int|
        0 <= i < statuses.len() ==> {
            &&& #[trigger] trace[i] matches SelectStep::ReceiveWake(receive)
            &&& receive.outcome(statuses[i], trace[i + 1])
            &&& statuses[i] == wait.abi.status_ok || statuses[i] == wait.abi.status_would_block
        }
}

/// The wait that a step belongs to.
pub open spec fn belongs_to(step: SelectStep, wait: Wait) -> bool {
    match step {
        SelectStep::ReceiveWake(receive) => receive.wait == wait,
        SelectStep::TakeWakes(take) => take.wait == wait,
        SelectStep::Done(finished) => finished.result == Ok::<(), Error>(()),
        _ => false,
    }
}

/// Whether a batch holds a wakeup.
pub open spec fn holds_wakeup(batch: Seq<EpollEvent>) -> bool {
    exists|i: int| 0 <= i < batch.len() && (#[trigger] batch[i]).data == WAKE_DATA
}

/// However many wakeups a batch holds, and however often the wake channel has
/// to be received from, a wait whose calls succeed gathers exactly the entries
/// of the batch that are no wakeups, in order.  It is over without a look at
/// the selector's wakeups only where the batch held none.
pub proof fn law_batch_is_reported(
    wait: Wait,
    returned: Seq<EpollEvent>,
    actual: u64,
    statuses: Seq<i64>,
    trace: Seq<SelectStep>,
)
    requires
        drains(wait, returned, actual, statuses, trace),
        wait.abi.status_ok != wait.abi.status_would_block,
        wait.abi.status_ok != wait.abi.status_wait_timed_out,
    ensures
        belongs_to(trace.last(), wait),
        gathered(trace.last()) == reported(wait.abi, wait.batch(returned, actual)),
        trace.last() is Done <==> !holds_wakeup(wait.batch(returned, actual)),
    decreases statuses.len(),
{
    if statuses.len() == 0 {
        lemma_before_wakeup_clear(wait.batch(returned, actual));
        law_scan_keeps_events(
            wait,
            Seq::empty(),
            wait.batch(returned, actual),
            false,
            trace[0],
        );
        assert(gathered(trace.last()) =~= reported(wait.abi, wait.batch(returned, actual)));
    } else {
        let n = statuses.len() - 1;
        let earlier = trace.drop_last();
        assert forall|i: int| 0 <= i < statuses.drop_last().len() implies {
            &&& #[trigger] earlier[i] matches SelectStep::ReceiveWake(receive)
            &&& receive.outcome(statuses.drop_last()[i], earlier[i + 1])
            &&& statuses.drop_last()[i] == wait.abi.status_ok || statuses.drop_last()[i]
                == wait.abi.status_would_block
        } by {
            assert(trace[i] == earlier[i]);
            assert(trace[i + 1] == earlier[i + 1]);
        }
        law_batch_is_reported(wait, returned, actual, statuses.drop_last(), earlier);
        assert(earlier.last() == trace[n]);
        assert(trace[n] is ReceiveWake);
        let receive = trace[n]->ReceiveWake_0;
        if statuses[n] == wait.abi.status_would_block {
            law_scan_keeps_events(wait, receive.events@, receive.rest(), true, trace[n + 1]);
        }
    }
}

/// The whole of a wait that a wakeup interrupted, and whose calls succeed: it
/// reports what its batch held, and a waker's wakeup after that, or it goes on
/// waiting where only a registration changed.  `step` is what taking the
/// selector's wakeups leads to, and `last` what reading its token leads to,
/// where it is read.
pub proof fn law_interrupted_wait(
    wait: Wait,
    returned: Seq<EpollEvent>,
    actual: u64,
    statuses: Seq<i64>,
    trace: Seq<SelectStep>,
    selector: SelectorView,
    step: SelectStep,
    last: SelectStep,
)
    requires
        drains(wait, returned, actual, statuses, trace),
        wait.abi.status_ok != wait.abi.status_would_block,
        wait.abi.status_ok != wait.abi.status_wait_timed_out,
        trace.last() is TakeWakes,
        trace.last()->TakeWakes_0.outcome(selector.wakes(), step),
        match step {
            SelectStep::ReadWakeToken(read) => read.outcome(Some(selector.wake_token), last),
            _ => last == step,
        },
    ensures
        holds_wakeup(wait.batch(returned, actual)),
        ({
            let events = reported(wait.abi, wait.batch(returned, actual));
            if selector.external_wake {
                last.ends_with(
                    if wait.capacity != 0 {
                        events.push(Event::of_wakeup(selector.wake_token))
                    } else {
                        events
                    },
                    Ok(()),
                )
            } else if selector.registration_wake && events.len() == 0 {
                last == SelectStep::Wait(wait)
            } else {
                last.ends_with(events, Ok(()))
            }
        }),
{
    law_batch_is_reported(wait, returned, actual, statuses, trace);
}

/// How many events a wait may come to report, at most, as its step stands.
pub open spec fn may_report(step: SelectStep) -> nat {
    match step {
        SelectStep::ReceiveWake(receive) => receive.events@.len() + receive.rest().len() + 1,
        SelectStep::TakeWakes(take) => take.events@.len() + 1,
        SelectStep::ReadWakeToken(read) => read.events@.len() + 1,
        SelectStep::Done(finished) => finished.events@.len(),
        _ => 0,
    }
}

/// Going through a batch needs room for no more events than the batch has
/// entries.
proof fn lemma_scan_fits(
    wait: Wait,
    events: Seq<Event>,
    rest: Seq<EpollEvent>,
    woken: bool,
    step: SelectStep,
)
    requires
        step.continues(wait, events, rest, woken),
    ensures
        may_report(step) <= events.len() + rest.len() + (if woken {
            1int
        } else {
            0
        }),
{
    lemma_before_wakeup_clear(rest);
}

/// A wait never comes to report more events than the caller has room for (one,
/// for a caller without room).
pub proof fn law_wait_fits(
    wait: Wait,
    status: i64,
    returned: Seq<EpollEvent>,
    actual: u64,
    step: SelectStep,
)
    requires
        wait.outcome(status, returned, actual, step),
    ensures
        may_report(step) <= wait.spec_batch_len(),
{
    if status == wait.abi.status_ok && status != wait.abi.status_wait_timed_out && status
        != wait.abi.status_would_block {
        lemma_scan_fits(wait, Seq::empty(), wait.batch(returned, actual), false, step);
    }
}

/// Draining the wake channel keeps a wait within the caller's room.
pub proof fn law_receive_fits(receive: ReceiveWake, status: i64, step: SelectStep)
    requires
        receive.outcome(status, step),
    ensures
        may_report(step) <= may_report(SelectStep::ReceiveWake(receive)),
{
    if status == receive.wait.abi.status_would_block {
        lemma_scan_fits(receive.wait, receive.events@, receive.rest(), true, step);
    }
}

/// Taking wakeups over keeps a wait within the caller's room.
pub proof fn law_take_fits(take: TakeWakes, wakes: Wakes, step: SelectStep)
    requires
        take.outcome(wakes, step),
    ensures
        may_report(step) <= may_report(SelectStep::TakeWakes(take)),
{
}

/// Reporting a wakeup keeps a wait within the caller's room.
pub proof fn law_read_token_fits(read: ReadWakeToken, token: Option<Token>, step: SelectStep)
    requires
        read.outcome(token, step),
    ensures
        may_report(step) <= may_report(SelectStep::ReadWakeToken(read)),
{
}

/// An entry of a registered handle is reported under the token that the handle
/// was registered with.  The one token that cannot be told from a wakeup is
/// left out.
pub proof fn law_token_comes_back(
    abi: Abi,
    token: Token,
    interests: Interest,
    batch: Seq<EpollEvent>,
    i: int,
)
    requires
        token.0 as u64 != WAKE_DATA,
        0 <= i < batch.len(),
        batch[i].data == registration_event(abi, token, interests).data,
    ensures
        Event::of_entry(abi, batch[i]).token == token,
        reported(abi, batch).contains(Event::of_entry(abi, batch[i])),
{
    let keep = |entry: EpollEvent| entry.data != WAKE_DATA;
    let event = Event::of_entry(abi, batch[i]);
    assert(keep(batch[i]));
    broadcast use vstd::seq_lib::group_filter_ensures;

    let kept = batch.filter(keep);
    assert(kept.contains(batch[i]));
    let k = choose|k: int| 0 <= k < kept.len() && kept[k] == batch[i];
    assert(reported(abi, batch)[k] == event);
}

/// A wakeup is never reported as an event of a source.
pub proof fn law_wakeups_are_not_entries(abi: Abi, batch: Seq<EpollEvent>)
    requires
        forall|i: int| 0 <= i < batch.len() ==> (#[trigger] batch[i]).data == WAKE_DATA,
    ensures
        reported(abi, batch) == Seq::<Event>::empty(),
    decreases batch.len(),
{
    reveal(Seq::filter);
    if batch.len() > 0 {
        law_wakeups_are_not_entries(abi, batch.drop_last());
        assert(batch.last().data == WAKE_DATA);
    }
    assert(reported(abi, batch) =~= Seq::<Event>::empty());
}

/// Every source is edge-triggered, whatever its interests are.
pub proof fn law_sources_are_edge_triggered(abi: Abi, interests: Interest)
    ensures
        interest_bits(abi, interests) & abi.event_edge_triggered == abi.event_edge_triggered,
        abi.bits_distinct() ==> interest_bits(abi, interests) & abi.event_edge_triggered != 0,
{
    let readable = if interests.readable {
        abi.event_readable
    } else {
        0
    };
    let writable = if interests.writable {
        abi.event_writable
    } else {
        0
    };
    let edge = abi.event_edge_triggered;
    assert((readable | writable | edge) & edge == edge) by (bit_vector);
}

/// The bits of two interests together are the bits of the one and those of the
/// other.
pub proof fn law_interest_bits_add_up(abi: Abi, a: Interest, b: Interest)
    ensures
        interest_bits(
            abi,
            Interest { readable: a.readable || b.readable, writable: a.writable || b.writable },
        ) == interest_bits(abi, a) | interest_bits(abi, b),
{
    let r = abi.event_readable;
    let w = abi.event_writable;
    let t = abi.event_edge_triggered;
    let ar = if a.readable {
        r
    } else {
        0
    };
    let aw = if a.writable {
        w
    } else {
        0
    };
    let br = if b.readable {
        r
    } else {
        0
    };
    let bw = if b.writable {
        w
    } else {
        0
    };
    assert(r | r == r && r | 0 == r && 0 | r == r && 0u64 | 0u64 == 0u64) by (bit_vector);
    assert(w | w == w && w | 0 == w && 0 | w == w) by (bit_vector);
    assert((ar | br) | (aw | bw) | t == (ar | aw | t) | (br | bw | t)) by (bit_vector);
}

/// Each interest has its bit, exactly where it is asked for, and besides those
/// and edge triggering no bit is set.
pub proof fn law_interest_bits(abi: Abi, interests: Interest)
    ensures
        abi.bits_distinct() ==> (interest_bits(abi, interests) & abi.event_readable != 0
            <==> interests.readable),
        abi.bits_distinct() ==> (interest_bits(abi, interests) & abi.event_writable != 0
            <==> interests.writable),
        interest_bits(abi, interests) & !(abi.event_readable | abi.event_writable
            | abi.event_edge_triggered) == 0,
{
    let r = abi.event_readable;
    let w = abi.event_writable;
    let t = abi.event_edge_triggered;
    let ri = if interests.readable {
        r
    } else {
        0
    };
    let wi = if interests.writable {
        w
    } else {
        0
    };
    let bits = ri | wi | t;
    assert(bits == interest_bits(abi, interests));
    assert(bits & !(r | w | t) == 0) by (bit_vector)
        requires
            bits == ri | wi | t,
            ri == r || ri == 0,
            wi == w || wi == 0,
    ;
    assert(r & w == 0 && r & t == 0 && w & t == 0 ==> bits & r == ri && bits & w == wi)
        by (bit_vector)
        requires
            bits == ri | wi | t,
            ri == r || ri == 0,
            wi == w || wi == 0,
    ;
}

/// The event bits of a registration ask for the interests it was made with and
/// for nothing else: read as an event, they stand for exactly those.
pub proof fn law_interests_come_back(abi: Abi, token: Token, interests: Interest)
    requires
        abi.bits_distinct(),
    ensures
        ({
            let event = Event::of_entry(abi, registration_event(abi, token, interests));
            &&& event.token == token
            &&& event.readable == interests.readable
            &&& event.writable == interests.writable
            &&& !event.error
            &&& !event.read_closed
            &&& !event.write_closed
        }),
{
    let r = abi.event_readable;
    let w = abi.event_writable;
    let t = abi.event_edge_triggered;
    let h = abi.event_hangup;
    let e = abi.event_error;
    let ri = if interests.readable {
        r
    } else {
        0
    };
    let wi = if interests.writable {
        w
    } else {
        0
    };
    let bits = ri | wi | t;
    assert(bits == interest_bits(abi, interests));
    assert(bits & r == ri && bits & w == wi && bits & h == 0 && bits & e == 0) by (bit_vector)
        requires
            bits == ri | wi | t,
            ri == r || ri == 0,
            wi == w || wi == 0,
            r & w == 0,
            r & t == 0,
            w & t == 0,
            h & r == 0,
            h & w == 0,
            h & t == 0,
            e & r == 0,
            e & w == 0,
            e & t == 0,
    ;
}

/// A hangup makes a source readable and writable, and closes both its halves;
/// without one neither half is closed.
pub proof fn law_hangup(abi: Abi, entry: EpollEvent)
    ensures
        ({
            let event = Event::of_entry(abi, entry);
            let hangup = has_bit(entry.events, abi.event_hangup);
            &&& hangup ==> event.readable && event.writable
            &&& event.read_closed == hangup
            &&& event.write_closed == hangup
        }),
{
}

/// A point in time, in nanoseconds.
pub open spec fn in_nanos(clock: TimeClock) -> int {
    clock.tv_sec * NANOS_PER_SEC + clock.tv_nsec
}

/// The deadline is the timeout later than the clock, to the nanosecond, and in
/// the clock's own form.  A deadline past the last second of the clock is left
/// out.
pub proof fn law_deadline_is_exact(status: i64, now: TimeClock, timeout: Timeout)
    requires
        clock_valid(status, now),
        now.tv_nsec < NANOS_PER_SEC,
        timeout.nanos < NANOS_PER_SEC,
        in_nanos(now) + timeout.secs * NANOS_PER_SEC + timeout.nanos < (i64::MAX + 1)
            * NANOS_PER_SEC,
    ensures
        in_nanos(deadline(status, now, timeout)) == in_nanos(now) + timeout.secs * NANOS_PER_SEC
            + timeout.nanos,
        0 <= deadline(status, now, timeout).tv_nsec < NANOS_PER_SEC,
{
}

/// A deadline past the last second of the clock is in that last second.
pub proof fn law_deadline_saturates(status: i64, now: TimeClock, timeout: Timeout)
    requires
        clock_valid(status, now),
        now.tv_nsec < NANOS_PER_SEC,
        timeout.nanos < NANOS_PER_SEC,
        in_nanos(now) + timeout.secs * NANOS_PER_SEC + timeout.nanos >= (i64::MAX + 1)
            * NANOS_PER_SEC,
    ensures
        deadline(status, now, timeout).tv_sec == i64::MAX,
        0 <= deadline(status, now, timeout).tv_nsec < NANOS_PER_SEC,
{
}

} // verus!
