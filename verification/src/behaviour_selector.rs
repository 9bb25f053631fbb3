//! What the selector's operations do, each stated on its arguments, its result
//! and the selector before and after it, and how calls of them relate.

use vstd::prelude::*;

use crate::abi::{interests_to_epoll_events, Abi, CtlOp, CtlRequest};
use crate::error::{Error, Operation};
use crate::naos::Source;
use crate::selector::{
    Aborted, AddWakeChannel, CreateChannel, CreateEpoll, Registration, Selector, SelectorView,
    Wakes,
};
use crate::token::{Interest, Token};
use crate::waker::{SendWake, Waker};

verus! {

/// Whether one of `registrations` is for `handle`.
pub open spec fn present(registrations: Seq<Registration>, handle: u64) -> bool {
    exists|i: int| 0 <= i < registrations.len() && (#[trigger] registrations[i]).handle == handle
}

/// Whether `k` is the first of `registrations` that is for `handle`.
pub open spec fn is_first(registrations: Seq<Registration>, handle: u64, k: int) -> bool {
    &&& 0 <= k < registrations.len()
    &&& registrations[k].handle == handle
    &&& forall|i: int| 0 <= i < k ==> (#[trigger] registrations[i]).handle != handle
}

/// Nothing but the registrations, and the note that they changed, is different
/// after a change.
pub open spec fn changed_registrations_only(before: SelectorView, after: SelectorView) -> bool {
    &&& after.abi == before.abi
    &&& after.epoll == before.epoll
    &&& after.wake_receiver == before.wake_receiver
    &&& after.wake_sender == before.wake_sender
    &&& after.wake_token == before.wake_token
    &&& after.external_wake == before.external_wake
    &&& after.registration_wake
}

/// Nothing at all is different.
pub open spec fn unchanged(before: SelectorView, after: SelectorView) -> bool {
    &&& after.abi == before.abi
    &&& after.epoll == before.epoll
    &&& after.wake_receiver == before.wake_receiver
    &&& after.wake_sender == before.wake_sender
    &&& after.wake_token == before.wake_token
    &&& after.external_wake == before.external_wake
    &&& after.registration_wake == before.registration_wake
    &&& after.registrations == before.registrations
}

/// `request` puts what `token` and `bits` say under `handle`, by `op`, into the
/// selector's own epoll set.
pub open spec fn asks_for(
    selector: SelectorView,
    request: CtlRequest,
    op: CtlOp,
    handle: u64,
    token: Token,
    bits: u64,
) -> bool {
    &&& request.op == op
    &&& request.epoll == selector.epoll
    &&& request.handle == handle
    &&& request.event is Some
    &&& request.event->0.data == token.0
    &&& request.event->0.events == bits
}

/// A handle that is not registered is asked to be added, under its own number,
/// with the token's number and the bits of its interests, in whatever state the
/// selector is; a handle that is registered is refused as such.
pub proof fn law_register_request(
    selector: Selector,
    handle: u64,
    token: Token,
    interests: Interest,
    bits: u64,
    res: Result<CtlRequest, Error>,
)
    requires
        call_ensures(Selector::register_request, (&selector, handle, token, interests), res),
        call_ensures(interests_to_epoll_events, (&selector@.abi, interests), bits),
    ensures
        res is Err <==> present(selector@.registrations, handle),
        res matches Err(error) ==> error is AlreadyRegistered,
        res matches Ok(request) ==> asks_for(
            selector@,
            request,
            CtlOp::Add,
            handle,
            token,
            bits,
        ),
{
}

/// A handle that is registered is asked to be modified, under its own number,
/// with the token's number and the bits of its interests; one that is not
/// registered is refused as such.
pub proof fn law_reregister_request(
    selector: Selector,
    handle: u64,
    token: Token,
    interests: Interest,
    bits: u64,
    res: Result<CtlRequest, Error>,
)
    requires
        call_ensures(Selector::reregister_request, (&selector, handle, token, interests), res),
        call_ensures(interests_to_epoll_events, (&selector@.abi, interests), bits),
    ensures
        res is Ok <==> present(selector@.registrations, handle),
        res matches Err(error) ==> error is NotRegistered,
        res matches Ok(request) ==> asks_for(
            selector@,
            request,
            CtlOp::Modify,
            handle,
            token,
            bits,
        ),
{
}

/// A handle that is registered is asked to be deleted; one that is not
/// registered is refused as such.
pub proof fn law_deregister_request(
    selector: Selector,
    handle: u64,
    res: Result<CtlRequest, Error>,
)
    requires
        call_ensures(Selector::deregister_request, (&selector, handle), res),
    ensures
        res is Ok <==> present(selector@.registrations, handle),
        res matches Err(error) ==> error is NotRegistered,
        res matches Ok(request) ==> {
            &&& request.op is Delete
            &&& request.epoll == selector@.epoll
            &&& request.handle == handle
            &&& request.event is None
        },
{
}

/// A registration succeeds exactly where the handle is new and the kernel
/// agrees.  It then stands at the end with what it was made with, all others
/// stay in place, and the selector is to be woken.  Otherwise nothing changes,
/// and the error tells why.
pub proof fn law_register(
    selector: &mut Selector,
    handle: u64,
    token: Token,
    interests: Interest,
    status: i64,
    res: Result<SendWake, Error>,
)
    requires
        call_ensures(Selector::register, (selector, handle, token, interests, status), res),
    ensures
        res is Ok <==> !present(old(selector)@.registrations, handle) && status == old(selector)@.abi.status_ok,
        present(old(selector)@.registrations, handle) ==> res == Err::<SendWake, Error>(
            Error::AlreadyRegistered,
        ),
        !present(old(selector)@.registrations, handle) && status != old(selector)@.abi.status_ok
            ==> res == Err::<SendWake, Error>(
            Error::Status { operation: Operation::EpollAdd, status },
        ),
        res is Err ==> unchanged(old(selector)@, final(selector)@),
        res matches Ok(send) ==> {
            let before = old(selector)@.registrations;
            let after = final(selector)@.registrations;
            &&& send.abi == old(selector)@.abi
            &&& send.wake_sender == old(selector)@.wake_sender
            &&& changed_registrations_only(old(selector)@, final(selector)@)
            &&& after.len() == before.len() + 1
            &&& forall|i: int| 0 <= i < before.len() ==> after[i] == before[i]
            &&& after[before.len() as int].handle == handle
            &&& after[before.len() as int].token == token
            &&& after[before.len() as int].interests == interests
        },
{
}

/// A change succeeds exactly where the handle is registered and the kernel
/// agrees.  Its registration then has the new token and interests in its old
/// place, all others are as they were, and the selector is to be woken.
/// Otherwise nothing changes, and the error tells why.
pub proof fn law_reregister(
    selector: &mut Selector,
    handle: u64,
    token: Token,
    interests: Interest,
    status: i64,
    k: int,
    res: Result<SendWake, Error>,
)
    requires
        call_ensures(Selector::reregister, (selector, handle, token, interests, status), res),
    ensures
        res is Ok <==> present(old(selector)@.registrations, handle) && status == old(selector)@.abi.status_ok,
        !present(old(selector)@.registrations, handle) ==> res == Err::<SendWake, Error>(
            Error::NotRegistered,
        ),
        present(old(selector)@.registrations, handle) && status != old(selector)@.abi.status_ok
            ==> res == Err::<SendWake, Error>(
            Error::Status { operation: Operation::EpollModify, status },
        ),
        res is Err ==> unchanged(old(selector)@, final(selector)@),
        res matches Ok(send) ==> {
            &&& send.abi == old(selector)@.abi
            &&& send.wake_sender == old(selector)@.wake_sender
            &&& changed_registrations_only(old(selector)@, final(selector)@)
            &&& final(selector)@.registrations.len() == old(selector)@.registrations.len()
        },
        res is Ok && is_first(old(selector)@.registrations, handle, k) ==> {
            let before = old(selector)@.registrations;
            let after = final(selector)@.registrations;
            &&& after[k].handle == handle
            &&& after[k].token == token
            &&& after[k].interests == interests
            &&& forall|i: int| 0 <= i < before.len() && i != k ==> after[i] == before[i]
        },
{
    let before = old(selector)@.registrations;
    if present(before, handle) {
        let i = choose|i: int| 0 <= i < before.len() && (#[trigger] before[i]).handle == handle;
        lemma_first_exists(before, handle, i);
    }
    if is_first(before, handle, k) {
        lemma_place_is_first(before, handle, k);
    }
}

/// A removal succeeds exactly where the handle is registered and the kernel
/// agrees.  The last registration then fills its place, all others are as they
/// were, and the selector is to be woken.  Otherwise nothing changes, and the
/// error tells why.
pub proof fn law_deregister(
    selector: &mut Selector,
    handle: u64,
    status: i64,
    k: int,
    res: Result<SendWake, Error>,
)
    requires
        call_ensures(Selector::deregister, (selector, handle, status), res),
    ensures
        res is Ok <==> present(old(selector)@.registrations, handle) && status == old(selector)@.abi.status_ok,
        !present(old(selector)@.registrations, handle) ==> res == Err::<SendWake, Error>(
            Error::NotRegistered,
        ),
        present(old(selector)@.registrations, handle) && status != old(selector)@.abi.status_ok
            ==> res == Err::<SendWake, Error>(
            Error::Status { operation: Operation::EpollDelete, status },
        ),
        res is Err ==> unchanged(old(selector)@, final(selector)@),
        res matches Ok(send) ==> {
            &&& send.abi == old(selector)@.abi
            &&& send.wake_sender == old(selector)@.wake_sender
            &&& changed_registrations_only(old(selector)@, final(selector)@)
            &&& final(selector)@.registrations.len() == old(selector)@.registrations.len() - 1
        },
        res is Ok && is_first(old(selector)@.registrations, handle, k) ==> {
            let before = old(selector)@.registrations;
            let after = final(selector)@.registrations;
            &&& k < before.len() - 1 ==> after[k] == before[before.len() - 1]
            &&& forall|i: int| 0 <= i < before.len() - 1 && i != k ==> after[i] == before[i]
        },
{
    let before = old(selector)@.registrations;
    if present(before, handle) {
        let i = choose|i: int| 0 <= i < before.len() && (#[trigger] before[i]).handle == handle;
        lemma_first_exists(before, handle, i);
    }
    if is_first(before, handle, k) {
        lemma_place_is_first(before, handle, k);
    }
}

/// Where a handle occurs, it occurs for a first time.
proof fn lemma_first_exists(registrations: Seq<Registration>, handle: u64, i: int)
    requires
        0 <= i < registrations.len(),
        registrations[i].handle == handle,
    ensures
        exists|k: int| is_first(registrations, handle, k),
        0 <= crate::selector::place_of(registrations, handle) < registrations.len(),
    decreases i,
{
    if forall|j: int| 0 <= j < i ==> (#[trigger] registrations[j]).handle != handle {
        assert(is_first(registrations, handle, i));
        assert(crate::selector::first_at(registrations, handle, i));
    } else {
        let j = choose|j: int|
            0 <= j < i && (#[trigger] registrations[j]).handle == handle;
        lemma_first_exists(registrations, handle, j);
    }
}

/// The first place of a handle is the one that a change goes by.
proof fn lemma_place_is_first(registrations: Seq<Registration>, handle: u64, k: int)
    requires
        is_first(registrations, handle, k),
    ensures
        crate::selector::place_of(registrations, handle) == k,
{
    assert(crate::selector::first_at(registrations, handle, k));
    let p = crate::selector::place_of(registrations, handle);
    assert(crate::selector::first_at(registrations, handle, p));
    assert(registrations[p].handle == handle);
    assert(registrations[k].handle == handle);
}

/// Once a handle is registered it is refused for a second registration, before
/// and after any call, and can be changed and removed.
pub proof fn law_registered_handle_is_taken(
    selector: &mut Selector,
    handle: u64,
    token: Token,
    interests: Interest,
    status: i64,
    first: Result<SendWake, Error>,
    later: &mut Selector,
    token2: Token,
    interests2: Interest,
    status2: i64,
    second: Result<SendWake, Error>,
    add: Result<CtlRequest, Error>,
    modify: Result<CtlRequest, Error>,
    delete: Result<CtlRequest, Error>,
)
    requires
        call_ensures(Selector::register, (selector, handle, token, interests, status), first),
        first is Ok,
        *old(later) == *final(selector),
        call_ensures(Selector::register, (later, handle, token2, interests2, status2), second),
        call_ensures(
            Selector::register_request,
            (&*final(selector), handle, token2, interests2),
            add,
        ),
        call_ensures(
            Selector::reregister_request,
            (&*final(selector), handle, token2, interests2),
            modify,
        ),
        call_ensures(Selector::deregister_request, (&*final(selector), handle), delete),
    ensures
        second == Err::<SendWake, Error>(Error::AlreadyRegistered),
        add == Err::<CtlRequest, Error>(Error::AlreadyRegistered),
        modify is Ok && modify->Ok_0.op is Modify,
        delete is Ok && delete->Ok_0.op is Delete,
{
    let n = old(selector)@.registrations.len() as int;
    assert(final(selector)@.registrations[n].handle == handle);
}

/// A registration of one handle changes nothing of what another handle is
/// answered.
pub proof fn law_register_leaves_other_handles(
    selector: &mut Selector,
    handle: u64,
    token: Token,
    interests: Interest,
    status: i64,
    res: Result<SendWake, Error>,
    other: u64,
    token2: Token,
    interests2: Interest,
    before: Result<CtlRequest, Error>,
    after: Result<CtlRequest, Error>,
)
    requires
        call_ensures(Selector::register, (selector, handle, token, interests, status), res),
        other != handle,
        call_ensures(
            Selector::register_request,
            (&*old(selector), other, token2, interests2),
            before,
        ),
        call_ensures(
            Selector::register_request,
            (&*final(selector), other, token2, interests2),
            after,
        ),
    ensures
        after == before,
{
    let old_ones = old(selector)@.registrations;
    let new_ones = final(selector)@.registrations;
    if res is Ok {
        assert(present(new_ones, other) == present(old_ones, other)) by {
            if present(old_ones, other) {
                let i = choose|i: int|
                    0 <= i < old_ones.len() && (#[trigger] old_ones[i]).handle == other;
                assert(new_ones[i].handle == other);
            }
            if present(new_ones, other) {
                let i = choose|i: int|
                    0 <= i < new_ones.len() && (#[trigger] new_ones[i]).handle == other;
                assert(old_ones[i].handle == other);
            }
        }
    }
}

/// A handle that was registered and then removed can be registered again, and
/// what else is registered is as it was before both.
pub proof fn law_removed_handle_is_free(
    selector: &mut Selector,
    handle: u64,
    token: Token,
    interests: Interest,
    status: i64,
    first: Result<SendWake, Error>,
    later: &mut Selector,
    status2: i64,
    second: Result<SendWake, Error>,
    add: Result<CtlRequest, Error>,
)
    requires
        call_ensures(Selector::register, (selector, handle, token, interests, status), first),
        first is Ok,
        *old(later) == *final(selector),
        call_ensures(Selector::deregister, (later, handle, status2), second),
        second is Ok,
        call_ensures(Selector::register_request, (&*final(later), handle, token, interests), add),
    ensures
        add is Ok,
        final(later)@.registrations == old(selector)@.registrations,
{
    let n = old(selector)@.registrations.len() as int;
    law_register(selector, handle, token, interests, status, first);
    assert(forall|i: int|
        0 <= i < n ==> (#[trigger] old(later)@.registrations[i]).handle != handle);
    assert(is_first(old(later)@.registrations, handle, n));
    law_deregister(later, handle, status2, n, second);
    assert(final(later)@.registrations =~= old(selector)@.registrations);
}

/// A wakeup that a waker asks for is noted, and sent on the selector's own
/// channel; nothing else changes.
pub proof fn law_waker_wake(waker: Waker, selector: &mut Selector, send: SendWake)
    requires
        call_ensures(Waker::wake, (&waker, selector), send),
    ensures
        send.abi == old(selector)@.abi,
        send.wake_sender == old(selector)@.wake_sender,
        final(selector)@.external_wake,
        final(selector)@.abi == old(selector)@.abi,
        final(selector)@.epoll == old(selector)@.epoll,
        final(selector)@.wake_receiver == old(selector)@.wake_receiver,
        final(selector)@.wake_sender == old(selector)@.wake_sender,
        final(selector)@.registrations == old(selector)@.registrations,
        final(selector)@.wake_token == old(selector)@.wake_token,
        final(selector)@.registration_wake == old(selector)@.registration_wake,
{
}

/// A new waker has its token, and makes the selector report under it; nothing
/// else changes.
pub proof fn law_waker_new(selector: &mut Selector, token: Token, waker: Waker)
    requires
        call_ensures(Waker::new, (selector, token), waker),
    ensures
        waker.token == token,
        final(selector)@.wake_token == token,
        final(selector)@.abi == old(selector)@.abi,
        final(selector)@.epoll == old(selector)@.epoll,
        final(selector)@.wake_receiver == old(selector)@.wake_receiver,
        final(selector)@.wake_sender == old(selector)@.wake_sender,
        final(selector)@.registrations == old(selector)@.registrations,
        final(selector)@.external_wake == old(selector)@.external_wake,
        final(selector)@.registration_wake == old(selector)@.registration_wake,
{
}

/// A message to wake the selector is sent well where the kernel takes it or has
/// one queued; any other answer is an error that tells the answer.
pub proof fn law_send_wake(send: SendWake, status: i64, res: Result<(), Error>)
    requires
        call_ensures(SendWake::resume, (send, status), res),
    ensures
        res is Ok <==> status == send.abi.status_ok || status == send.abi.status_would_block,
        res matches Err(error) ==> error == (Error::Status {
            operation: Operation::ChannelWake,
            status,
        }),
{
}

/// The message to wake a selector goes to its own channel.
pub proof fn law_wake_message(selector: Selector, send: SendWake)
    requires
        call_ensures(Selector::send_wake, (&selector,), send),
    ensures
        send.abi == selector@.abi,
        send.wake_sender == selector@.wake_sender,
{
}

/// What is noted is taken over once: a second look finds nothing, and nothing
/// but the notes changes.
pub proof fn law_wakeups_are_taken_once(
    selector: &mut Selector,
    first: Wakes,
    later: &mut Selector,
    second: Wakes,
)
    requires
        call_ensures(Selector::take_wakes, (selector,), first),
        *old(later) == *final(selector),
        call_ensures(Selector::take_wakes, (later,), second),
    ensures
        first.registration == old(selector)@.registration_wake,
        first.external == old(selector)@.external_wake,
        !second.registration,
        !second.external,
        !final(selector)@.registration_wake,
        !final(selector)@.external_wake,
        final(selector)@.abi == old(selector)@.abi,
        final(selector)@.epoll == old(selector)@.epoll,
        final(selector)@.wake_receiver == old(selector)@.wake_receiver,
        final(selector)@.wake_sender == old(selector)@.wake_sender,
        final(selector)@.registrations == old(selector)@.registrations,
        final(selector)@.wake_token == old(selector)@.wake_token,
{
}

/// From a waker to its report: once a waker was made and asked, the next look
/// finds that it asked, and the token read is the one that it was made with,
/// whatever registration was made in between.
pub proof fn law_waker_is_noticed(
    s1: &mut Selector,
    token: Token,
    waker: Waker,
    s2: &mut Selector,
    send: SendWake,
    s3: &mut Selector,
    handle: u64,
    token2: Token,
    interests: Interest,
    status: i64,
    res: Result<SendWake, Error>,
    s4: &mut Selector,
    wakes: Wakes,
    read: Token,
)
    requires
        call_ensures(Waker::new, (s1, token), waker),
        *old(s2) == *final(s1),
        call_ensures(Waker::wake, (&waker, s2), send),
        *old(s3) == *final(s2),
        call_ensures(Selector::register, (s3, handle, token2, interests, status), res),
        *old(s4) == *final(s3),
        call_ensures(Selector::take_wakes, (s4,), wakes),
        call_ensures(Selector::wake_token, (&*final(s4),), read),
    ensures
        wakes.external,
        wakes.registration == (res is Ok || old(s1)@.registration_wake),
        read == token,
{
}

/// A registration change, and nothing else, is found as such.
pub proof fn law_registration_is_noticed(
    s1: &mut Selector,
    before: Wakes,
    s2: &mut Selector,
    handle: u64,
    token: Token,
    interests: Interest,
    status: i64,
    res: Result<SendWake, Error>,
    s3: &mut Selector,
    wakes: Wakes,
)
    requires
        call_ensures(Selector::take_wakes, (s1,), before),
        *old(s2) == *final(s1),
        call_ensures(Selector::register, (s2, handle, token, interests, status), res),
        *old(s3) == *final(s2),
        call_ensures(Selector::take_wakes, (s3,), wakes),
    ensures
        !wakes.external,
        wakes.registration == res is Ok,
{
}

/// A source answers and does for its handle what the selector does.
pub proof fn law_source_register(
    handle: u64,
    source: Source,
    selector: &mut Selector,
    token: Token,
    interests: Interest,
    status: i64,
    bits: u64,
    asked: Result<CtlRequest, Error>,
    res: Result<SendWake, Error>,
)
    requires
        call_ensures(Source::new, (handle,), source),
        call_ensures(
            Source::register_request,
            (&source, &*old(selector), token, interests),
            asked,
        ),
        call_ensures(Source::register, (&source, selector, token, interests, status), res),
        call_ensures(interests_to_epoll_events, (&old(selector)@.abi, interests), bits),
    ensures
        asked == Err::<CtlRequest, Error>(Error::AlreadyRegistered) <==> present(
            old(selector)@.registrations,
            handle,
        ),
        asked is Err ==> res == Err::<SendWake, Error>(Error::AlreadyRegistered),
        asked matches Ok(request) ==> asks_for(
            old(selector)@,
            request,
            CtlOp::Add,
            handle,
            token,
            bits,
        ),
        asked is Ok && status != old(selector)@.abi.status_ok ==> res == Err::<SendWake, Error>(
            Error::Status { operation: Operation::EpollAdd, status },
        ),
        res is Ok <==> asked is Ok && status == old(selector)@.abi.status_ok,
        res is Err ==> unchanged(old(selector)@, final(selector)@),
        res matches Ok(send) ==> {
            let before = old(selector)@.registrations;
            let after = final(selector)@.registrations;
            &&& send.abi == old(selector)@.abi
            &&& send.wake_sender == old(selector)@.wake_sender
            &&& changed_registrations_only(old(selector)@, final(selector)@)
            &&& after.len() == before.len() + 1
            &&& forall|i: int| 0 <= i < before.len() ==> after[i] == before[i]
            &&& after[before.len() as int].handle == handle
            &&& after[before.len() as int].token == token
            &&& after[before.len() as int].interests == interests
        },
{
}

/// A source changes its own handle's registration.
pub proof fn law_source_reregister(
    handle: u64,
    source: Source,
    selector: &mut Selector,
    token: Token,
    interests: Interest,
    status: i64,
    bits: u64,
    k: int,
    asked: Result<CtlRequest, Error>,
    res: Result<SendWake, Error>,
)
    requires
        call_ensures(Source::new, (handle,), source),
        call_ensures(
            Source::reregister_request,
            (&source, &*old(selector), token, interests),
            asked,
        ),
        call_ensures(Source::reregister, (&source, selector, token, interests, status), res),
        call_ensures(interests_to_epoll_events, (&old(selector)@.abi, interests), bits),
    ensures
        asked is Ok <==> present(old(selector)@.registrations, handle),
        asked matches Err(error) ==> error is NotRegistered && res == Err::<SendWake, Error>(error),
        asked matches Ok(request) ==> asks_for(
            old(selector)@,
            request,
            CtlOp::Modify,
            handle,
            token,
            bits,
        ),
        asked is Ok && status != old(selector)@.abi.status_ok ==> res == Err::<SendWake, Error>(
            Error::Status { operation: Operation::EpollModify, status },
        ),
        res is Ok <==> asked is Ok && status == old(selector)@.abi.status_ok,
        res is Err ==> unchanged(old(selector)@, final(selector)@),
        res matches Ok(send) ==> {
            &&& send.abi == old(selector)@.abi
            &&& send.wake_sender == old(selector)@.wake_sender
            &&& changed_registrations_only(old(selector)@, final(selector)@)
            &&& final(selector)@.registrations.len() == old(selector)@.registrations.len()
        },
        res is Ok && is_first(old(selector)@.registrations, handle, k) ==> {
            let before = old(selector)@.registrations;
            let after = final(selector)@.registrations;
            &&& after[k].handle == handle
            &&& after[k].token == token
            &&& after[k].interests == interests
            &&& forall|i: int| 0 <= i < before.len() && i != k ==> after[i] == before[i]
        },
{
    let before = old(selector)@.registrations;
    if present(before, handle) {
        let i = choose|i: int| 0 <= i < before.len() && (#[trigger] before[i]).handle == handle;
        lemma_first_exists(before, handle, i);
    }
    if is_first(before, handle, k) {
        lemma_place_is_first(before, handle, k);
    }
}

/// A source removes its own handle's registration.
pub proof fn law_source_deregister(
    handle: u64,
    source: Source,
    selector: &mut Selector,
    status: i64,
    k: int,
    asked: Result<CtlRequest, Error>,
    res: Result<SendWake, Error>,
)
    requires
        call_ensures(Source::new, (handle,), source),
        call_ensures(Source::deregister_request, (&source, &*old(selector)), asked),
        call_ensures(Source::deregister, (&source, selector, status), res),
    ensures
        asked is Ok <==> present(old(selector)@.registrations, handle),
        asked matches Err(error) ==> error is NotRegistered && res == Err::<SendWake, Error>(error),
        asked matches Ok(request) ==> {
            &&& request.op is Delete
            &&& request.epoll == old(selector)@.epoll
            &&& request.handle == handle
            &&& request.event is None
        },
        asked is Ok && status != old(selector)@.abi.status_ok ==> res == Err::<SendWake, Error>(
            Error::Status { operation: Operation::EpollDelete, status },
        ),
        res is Ok <==> asked is Ok && status == old(selector)@.abi.status_ok,
        res is Err ==> unchanged(old(selector)@, final(selector)@),
        res matches Ok(send) ==> {
            &&& send.abi == old(selector)@.abi
            &&& send.wake_sender == old(selector)@.wake_sender
            &&& changed_registrations_only(old(selector)@, final(selector)@)
            &&& final(selector)@.registrations.len() == old(selector)@.registrations.len() - 1
        },
        res is Ok && is_first(old(selector)@.registrations, handle, k) ==> {
            let before = old(selector)@.registrations;
            let after = final(selector)@.registrations;
            &&& k < before.len() - 1 ==> after[k] == before[before.len() - 1]
            &&& forall|i: int| 0 <= i < before.len() - 1 && i != k ==> after[i] == before[i]
        },
{
    let before = old(selector)@.registrations;
    if present(before, handle) {
        let i = choose|i: int| 0 <= i < before.len() && (#[trigger] before[i]).handle == handle;
        lemma_first_exists(before, handle, i);
    }
    if is_first(before, handle, k) {
        lemma_place_is_first(before, handle, k);
    }
}

/// A source gives back the handle it was made for.
pub proof fn law_source_handle(handle: u64, source: Source, res: u64)
    requires
        call_ensures(Source::new, (handle,), source),
        call_ensures(Source::handle, (&source,), res),
    ensures
        res == handle,
{
}

/// The creation of a selector fails at the first call that fails, with that
/// call's status, and then closes what the calls before it created, each
/// handle once and no other.
pub proof fn law_failed_creation(
    abi: Abi,
    begin: CreateEpoll,
    status1: i64,
    epoll: u64,
    step1: Result<CreateChannel, Aborted>,
    status2: i64,
    receiver: u64,
    sender: u64,
    step2: Result<AddWakeChannel, Aborted>,
    status3: i64,
    step3: Result<Selector, Aborted>,
)
    requires
        call_ensures(Selector::new, (abi,), begin),
        call_ensures(CreateEpoll::resume, (begin, status1, epoll), step1),
        step1 matches Ok(channel) ==> call_ensures(
            CreateChannel::resume,
            (channel, status2, receiver, sender),
            step2,
        ),
        step1 is Ok && step2 is Ok ==> call_ensures(
            AddWakeChannel::resume,
            (step2->Ok_0, status3),
            step3,
        ),
    ensures
        step1 is Ok <==> status1 == abi.status_ok,
        step1 matches Err(aborted) ==> {
            &&& aborted.close@.len() == 0
            &&& aborted.error == (Error::Status { operation: Operation::EpollCreate, status: status1 })
        },
        step1 is Ok ==> (step2 is Ok <==> status2 == abi.status_ok),
        step1 is Ok ==> (step2 matches Err(aborted) ==> {
            &&& aborted.close@.len() == 1
            &&& aborted.close@[0] == epoll
            &&& aborted.error == (Error::Status {
                operation: Operation::ChannelCreate,
                status: status2,
            })
        }),
        step1 is Ok && step2 is Ok ==> (step3 is Ok <==> status3 == abi.status_ok),
        step1 is Ok && step2 is Ok ==> (step3 matches Err(aborted) ==> {
            &&& aborted.close@.len() == 3
            &&& aborted.close@[0] == epoll
            &&& aborted.close@[1] == receiver
            &&& aborted.close@[2] == sender
            &&& aborted.error == (Error::Status {
                operation: Operation::EpollAddWakeChannel,
                status: status3,
            })
        }),
{
}

/// A selector that was created has the handles that the calls gave, has nothing
/// registered and nothing noted, and closes those handles in the end.  Its
/// channel holds one message of one byte, and is put into its epoll set as
/// readable, under the mark of a wakeup.
pub proof fn law_created_selector(
    abi: Abi,
    begin: CreateEpoll,
    status1: i64,
    epoll: u64,
    channel: CreateChannel,
    status2: i64,
    receiver: u64,
    sender: u64,
    add: AddWakeChannel,
    request: CtlRequest,
    status3: i64,
    selector: Selector,
    close: Vec<u64>,
)
    requires
        call_ensures(Selector::new, (abi,), begin),
        call_ensures(CreateEpoll::resume, (begin, status1, epoll), Ok(channel)),
        call_ensures(CreateChannel::resume, (channel, status2, receiver, sender), Ok(add)),
        call_ensures(AddWakeChannel::request, (&add,), request),
        call_ensures(AddWakeChannel::resume, (add, status3), Ok(selector)),
        call_ensures(Selector::close, (&selector,), close),
    ensures
        channel.max_messages == 1,
        channel.max_bytes == 1,
        request.op is Add,
        request.epoll == epoll,
        request.handle == receiver,
        request.event is Some,
        request.event->0.events == abi.event_readable,
        request.event->0.data == 0xffff_ffff_ffff_ffffu64,
        selector@.abi == abi,
        selector@.epoll == epoll,
        selector@.wake_receiver == receiver,
        selector@.wake_sender == sender,
        selector@.registrations.len() == 0,
        selector@.wake_token.0 == 0,
        !selector@.registration_wake,
        !selector@.external_wake,
        close@.len() == 3,
        close@[0] == epoll,
        close@[1] == receiver,
        close@[2] == sender,
{
}

/// A selector reads out what it holds.
pub proof fn law_selector_reads_out(
    selector: Selector,
    abi: Abi,
    epoll: u64,
    receiver: u64,
    token: Token,
)
    requires
        call_ensures(Selector::abi, (&selector,), abi),
        call_ensures(Selector::epoll, (&selector,), epoll),
        call_ensures(Selector::wake_receiver, (&selector,), receiver),
        call_ensures(Selector::wake_token, (&selector,), token),
    ensures
        abi == selector@.abi,
        epoll == selector@.epoll,
        receiver == selector@.wake_receiver,
        token == selector@.wake_token,
{
}

/// Setting the token, and noting a wakeup, on the selector itself: each does
/// that and nothing else.
pub proof fn law_selector_notes(
    s1: &mut Selector,
    token: Token,
    s2: &mut Selector,
    send: SendWake,
)
    requires
        call_ensures(Selector::set_wake_token, (s1, token), ()),
        call_ensures(Selector::wake, (s2,), send),
    ensures
        unchanged(SelectorView { wake_token: token, ..old(s1)@ }, final(s1)@),
        unchanged(SelectorView { external_wake: true, ..old(s2)@ }, final(s2)@),
        send.abi == old(s2)@.abi,
        send.wake_sender == old(s2)@.wake_sender,
{
}

/// No handle is ever registered twice, whatever is asked for.
pub proof fn law_handles_stay_unique(
    s1: &mut Selector,
    s2: &mut Selector,
    s3: &mut Selector,
    handle: u64,
    token: Token,
    interests: Interest,
    status: i64,
    r1: Result<SendWake, Error>,
    r2: Result<SendWake, Error>,
    r3: Result<SendWake, Error>,
    i: int,
    j: int,
)
    requires
        call_ensures(Selector::register, (s1, handle, token, interests, status), r1),
        call_ensures(Selector::reregister, (s2, handle, token, interests, status), r2),
        call_ensures(Selector::deregister, (s3, handle, status), r3),
        0 <= i < j,
        forall|a: int, b: int|
            0 <= a < b < old(s1)@.registrations.len() ==> (#[trigger] old(s1)@.registrations[a]).handle != (#[trigger] old(s1)@.registrations[b]).handle,
        forall|a: int, b: int|
            0 <= a < b < old(s2)@.registrations.len() ==> (#[trigger] old(s2)@.registrations[a]).handle != (#[trigger] old(s2)@.registrations[b]).handle,
        forall|a: int, b: int|
            0 <= a < b < old(s3)@.registrations.len() ==> (#[trigger] old(s3)@.registrations[a]).handle != (#[trigger] old(s3)@.registrations[b]).handle,
    ensures
        j < final(s1)@.registrations.len() ==> final(s1)@.registrations[i].handle != final(s1)@.registrations[j].handle,
        j < final(s2)@.registrations.len() ==> final(s2)@.registrations[i].handle != final(s2)@.registrations[j].handle,
        j < final(s3)@.registrations.len() ==> final(s3)@.registrations[i].handle != final(s3)@.registrations[j].handle,
{
}

} // verus!
