//! Waiting for readiness.

use vstd::prelude::*;

use crate::abi::{Abi, EpollEvent, TimeClock, WAKE_DATA};
use crate::deadline::{deadline, deadline_after, Timeout};
use crate::error::{status_error, Error, Operation};
use crate::event::{Event, Events};
use crate::selector::{Selector, Wakes};
use crate::token::Token;

verus! {

/// The clock that deadlines are measured on.
pub const MONOTONIC_CLOCK: u64 = 1;

/// What a wait on the selector does next.
#[derive(Debug)]
pub enum SelectStep {
    /// Read the monotonic clock.
    ReadClock(ReadClock),
    /// Wait on the epoll set.
    Wait(Wait),
    /// Receive a message from the wake channel.
    ReceiveWake(ReceiveWake),
    /// Take over the selector's wakeups.
    TakeWakes(TakeWakes),
    /// Read the token under which wakeups are reported.
    ReadWakeToken(ReadWakeToken),
    /// Nothing; the wait is over.
    Done(Finished),
}

/// The monotonic clock has to be read, to find the deadline.
#[derive(Clone, Copy, Debug, PartialEq, Eq, Structural)]
pub struct ReadClock {
    /// The wait that follows, still without its deadline.
    pub wait: Wait,
    /// How long it may last.
    pub timeout: Timeout,
}

/// The epoll set has to be waited on.
#[derive(Clone, Copy, Debug, PartialEq, Eq, Structural)]
pub struct Wait {
    /// The numbers of the kernel interface.
    pub abi: Abi,
    /// The epoll set.
    pub epoll: u64,
    /// The receiving end of the wake channel.
    pub wake_receiver: u64,
    /// How many events the caller has room for.
    pub capacity: usize,
    /// When the wait ends, if it does.
    pub deadline: Option<TimeClock>,
}

/// The wake channel has to be drained, in the midst of a batch of entries.
#[derive(Debug)]
pub struct ReceiveWake {
    /// The wait that brought the batch.
    pub wait: Wait,
    /// The events before the wakeup.
    pub events: Events,
    /// The batch.
    pub batch: Vec<EpollEvent>,
    /// Where in the batch to go on after the wakeup.
    pub next: usize,
}

/// The batch is through, and a wakeup was in it.
#[derive(Debug)]
pub struct TakeWakes {
    /// The wait that brought the batch.
    pub wait: Wait,
    /// The events of the batch.
    pub events: Events,
}

/// A waker asked, and its wakeup is to be reported.
#[derive(Debug)]
pub struct ReadWakeToken {
    /// The events of the batch.
    pub events: Events,
}

/// The end of a wait.
#[derive(Debug)]
pub struct Finished {
    /// The events to report.
    pub events: Events,
    /// Whether the wait succeeded.
    pub result: Result<(), Error>,
}

/// How many entries at the start of `entries` come before its first wakeup.
pub open spec fn before_wakeup(entries: Seq<EpollEvent>) -> nat
    decreases entries.len(),
{
    if entries.len() == 0 || entries[0].data == WAKE_DATA {
        0
    } else {
        1 + before_wakeup(entries.skip(1))
    }
}

/// The events that `entries` stand for, one for each.
pub open spec fn translated(abi: Abi, entries: Seq<EpollEvent>) -> Seq<Event> {
    entries.map_values(|entry: EpollEvent| Event::of_entry(abi, entry))
}

/// The events that a batch reports: one for each entry that is not a wakeup,
/// in order.
pub open spec fn reported(abi: Abi, batch: Seq<EpollEvent>) -> Seq<Event> {
    translated(abi, batch.filter(|entry: EpollEvent| entry.data != WAKE_DATA))
}

impl SelectStep {
    /// The wait is over, with `events` and `result`.
    pub open spec fn ends_with(self, events: Seq<Event>, result: Result<(), Error>) -> bool {
        self matches SelectStep::Done(finished) && finished.events@ == events && finished.result
            == result
    }

    /// The step that comes after `events` where `rest` is still to be looked
    /// at: the wake channel is drained at the first wakeup in `rest`.  Without
    /// one the batch is through, and where it held a wakeup earlier (`woken`)
    /// the selector's wakeups are taken over.
    pub open spec fn continues(
        self,
        wait: Wait,
        events: Seq<Event>,
        rest: Seq<EpollEvent>,
        woken: bool,
    ) -> bool {
        let n = before_wakeup(rest) as int;
        let seen = events + translated(wait.abi, rest.take(n));
        if n < rest.len() {
            &&& self matches SelectStep::ReceiveWake(receive)
            &&& receive.wait == wait
            &&& receive.events@ == seen
            &&& receive.rest() == rest.skip(n + 1)
        } else if woken {
            &&& self matches SelectStep::TakeWakes(take)
            &&& take.wait == wait
            &&& take.events@ == seen
        } else {
            self.ends_with(seen, Ok(()))
        }
    }
}

impl ReadClock {
    /// Takes the clock's answer.
    pub fn resume(self, status: i64, now: TimeClock) -> (step: SelectStep)
        ensures
            step == SelectStep::Wait(
                (Wait { deadline: Some(deadline(status, now, self.timeout)), ..self.wait }),
            ),
    {
        let at = deadline_after(status, now, self.timeout);
        SelectStep::Wait(Wait { deadline: Some(at), ..self.wait })
    }
}

impl Wait {
    /// How many entries the kernel may return at once.
    pub open spec fn spec_batch_len(self) -> int {
        if self.capacity == 0 {
            1
        } else {
            self.capacity as int
        }
    }

    /// How many entries the kernel may return at once: as many as the caller
    /// has room for, but never none.
    pub fn batch_len(&self) -> (len: usize)
        ensures
            len == self.spec_batch_len(),
    {
        if self.capacity == 0 {
            1
        } else {
            self.capacity
        }
    }

    /// The entries that count, out of `returned`, where the kernel says that it
    /// wrote `actual`.
    pub open spec fn batch(self, returned: Seq<EpollEvent>, actual: u64) -> Seq<EpollEvent> {
        let written = actual as usize as int;
        let limit = if self.spec_batch_len() < returned.len() {
            self.spec_batch_len()
        } else {
            returned.len() as int
        };
        returned.take(
            if written < limit {
                written
            } else {
                limit
            },
        )
    }

    /// What the kernel's answer to the wait leads to.
    pub open spec fn outcome(
        self,
        status: i64,
        returned: Seq<EpollEvent>,
        actual: u64,
        step: SelectStep,
    ) -> bool {
        if status == self.abi.status_wait_timed_out || status == self.abi.status_would_block {
            step.ends_with(Seq::empty(), Ok(()))
        } else if status != self.abi.status_ok {
            step.ends_with(
                Seq::empty(),
                Err(Error::Status { operation: Operation::EpollWait, status }),
            )
        } else {
            step.continues(self, Seq::empty(), self.batch(returned, actual), false)
        }
    }

    /// Takes the kernel's answer to the wait: its status, the buffer that it
    /// filled, and how many entries it says it wrote.
    pub fn resume(self, status: i64, returned: Vec<EpollEvent>, actual: u64) -> (step: SelectStep)
        ensures
            self.outcome(status, returned@, actual, step),
    {
        if status == self.abi.status_wait_timed_out || status == self.abi.status_would_block {
            return SelectStep::Done(Finished { events: Vec::new(), result: Ok(()) });
        }
        if status != self.abi.status_ok {
            return SelectStep::Done(
                Finished {
                    events: Vec::new(),
                    result: Err(status_error(Operation::EpollWait, status)),
                },
            );
        }
        let mut len: usize =
            #[verifier::truncate]
            (actual as usize);
        if len > self.batch_len() {
            len = self.batch_len();
        }
        if len > returned.len() {
            len = returned.len();
        }
        let mut batch = returned;
        batch.truncate(len);
        assert(rest_of(batch@, 0) =~= self.batch(returned@, actual));
        scan(self, Vec::new(), batch, 0, false)
    }
}

impl ReceiveWake {
    /// The part of the batch that comes after the wakeup.
    pub open spec fn rest(self) -> Seq<EpollEvent> {
        rest_of(self.batch@, self.next as int)
    }

    /// What the channel's answer leads to: the channel is received from until
    /// it would block.
    pub open spec fn outcome(self, status: i64, step: SelectStep) -> bool {
        if status == self.wait.abi.status_would_block {
            step.continues(self.wait, self.events@, self.rest(), true)
        } else if status != self.wait.abi.status_ok {
            step.ends_with(
                self.events@,
                Err(Error::Status { operation: Operation::ChannelDrain, status }),
            )
        } else {
            step == SelectStep::ReceiveWake(self)
        }
    }

    /// Takes the channel's answer.
    pub fn resume(self, status: i64) -> (step: SelectStep)
        ensures
            self.outcome(status, step),
    {
        if status == self.wait.abi.status_would_block {
            return scan(self.wait, self.events, self.batch, self.next, true);
        }
        if status != self.wait.abi.status_ok {
            return SelectStep::Done(
                Finished {
                    events: self.events,
                    result: Err(status_error(Operation::ChannelDrain, status)),
                },
            );
        }
        SelectStep::ReceiveWake(self)
    }
}

impl TakeWakes {
    /// What the selector's wakeups lead to.
    ///
    /// A registration that changed only has to interrupt the wait that was
    /// under way: where nothing else came up, the wait begins anew, with the
    /// deadline it had.  A waker's wakeup ends the wait, and is reported where
    /// the caller has room for events at all.
    pub open spec fn outcome(self, wakes: Wakes, step: SelectStep) -> bool {
        if self.events@.len() == 0 && wakes.registration && !wakes.external {
            step == SelectStep::Wait(self.wait)
        } else if wakes.external && self.wait.capacity != 0 {
            step matches SelectStep::ReadWakeToken(read) && read.events@ == self.events@
        } else {
            step.ends_with(self.events@, Ok(()))
        }
    }

    /// Takes the wakeups that were taken over from the selector.
    pub fn resume(self, wakes: Wakes) -> (step: SelectStep)
        ensures
            self.outcome(wakes, step),
    {
        if self.events.len() == 0 && wakes.registration && !wakes.external {
            return SelectStep::Wait(self.wait);
        }
        if wakes.external && self.wait.capacity != 0 {
            return SelectStep::ReadWakeToken(ReadWakeToken { events: self.events });
        }
        SelectStep::Done(Finished { events: self.events, result: Ok(()) })
    }
}

impl ReadWakeToken {
    /// What the token leads to: the wakeup is reported after what is ready.
    /// Without a token the wait fails, and reports what is ready.
    pub open spec fn outcome(self, token: Option<Token>, step: SelectStep) -> bool {
        match token {
            Some(token) => step.ends_with(self.events@.push(Event::of_wakeup(token)), Ok(())),
            None => step.ends_with(self.events@, Err(Error::WakerPoisoned)),
        }
    }

    /// Takes the token; there is none where a thread panicked while it held
    /// it.
    pub fn resume(self, token: Option<Token>) -> (step: SelectStep)
        ensures
            self.outcome(token, step),
    {
        let mut events = self.events;
        match token {
            Some(token) => {
                events.push(Event::new(token, true, false, false, false, false));
                SelectStep::Done(Finished { events, result: Ok(()) })
            },
            None => SelectStep::Done(Finished { events, result: Err(Error::WakerPoisoned) }),
        }
    }
}

impl Finished {
    /// Hands the events over to the caller's list, in place of what it held,
    /// and says whether the wait succeeded.
    pub fn deliver(self, events: &mut Events) -> (res: Result<(), Error>)
        ensures
            final(events)@ == self.events@,
            res == self.result,
    {
        let mut reported = self.events;
        events.clear();
        events.append(&mut reported);
        self.result
    }
}

impl Selector {
    /// Begins a wait for readiness on the kernel-owned epoll queue, on behalf
    /// of a caller that has room for `capacity` events.
    pub fn select(&self, capacity: usize, timeout: Option<Timeout>) -> (step: SelectStep)
        ensures
            ({
                let wait = Wait {
                    abi: self@.abi,
                    epoll: self@.epoll,
                    wake_receiver: self@.wake_receiver,
                    capacity,
                    deadline: None,
                };
                step == match timeout {
                    Some(timeout) => SelectStep::ReadClock(ReadClock { wait, timeout }),
                    None => SelectStep::Wait(wait),
                }
            }),
    {
        let wait = Wait {
            abi: self.abi(),
            epoll: self.epoll(),
            wake_receiver: self.wake_receiver(),
            capacity,
            deadline: None,
        };
        match timeout {
            Some(timeout) => SelectStep::ReadClock(ReadClock { wait, timeout }),
            None => SelectStep::Wait(wait),
        }
    }
}

/// `entries` from place `next` on.
pub open spec fn rest_of(entries: Seq<EpollEvent>, next: int) -> Seq<EpollEvent> {
    if next <= entries.len() {
        entries.skip(next)
    } else {
        Seq::empty()
    }
}

/// A prefix without wakeups that ends at a wakeup, or at the end, is what comes
/// before the first wakeup.
proof fn lemma_before_wakeup(entries: Seq<EpollEvent>, n: int)
    requires
        0 <= n <= entries.len(),
        forall|i: int| 0 <= i < n ==> (#[trigger] entries[i]).data != WAKE_DATA,
        n < entries.len() ==> entries[n].data == WAKE_DATA,
    ensures
        before_wakeup(entries) == n,
    decreases n,
{
    if n > 0 {
        assert(entries[0].data != WAKE_DATA);
        assert forall|i: int| 0 <= i < n - 1 implies (#[trigger] entries.skip(1)[i]).data
            != WAKE_DATA by {
            assert(entries.skip(1)[i] == entries[i + 1]);
        }
        lemma_before_wakeup(entries.skip(1), n - 1);
    }
}

/// Goes through a batch from place `start` on, up to its first wakeup or its
/// end.
fn scan(
    wait: Wait,
    collected: Events,
    batch: Vec<EpollEvent>,
    start: usize,
    woken: bool,
) -> (step: SelectStep)
    ensures
        step.continues(wait, collected@, rest_of(batch@, start as int), woken),
{
    let ghost rest = rest_of(batch@, start as int);
    let mut events = collected;
    let mut i: usize = start;
    while i < batch.len()
        invariant
            rest == rest_of(batch@, start as int),
            start <= i,
            i <= batch@.len() || i == start,
            forall|j: int| 0 <= j < i - start ==> (#[trigger] rest[j]).data != WAKE_DATA,
            events@ == collected@ + translated(wait.abi, rest.take(i - start)),
        decreases batch@.len() - i,
    {
        assert(rest[i - start] == batch@[i as int]);
        if batch[i].data == WAKE_DATA {
            proof {
                lemma_before_wakeup(rest, i - start);
                assert(rest.skip(i - start + 1) =~= batch@.skip(i + 1));
            }
            return SelectStep::ReceiveWake(ReceiveWake { wait, events, batch, next: i + 1 });
        }
        events.push(Event::from_entry(&wait.abi, &batch[i]));
        proof {
            assert(rest.take(i - start + 1) =~= rest.take(i - start).push(rest[i - start]));
            assert(events@ =~= collected@ + translated(wait.abi, rest.take(i - start + 1)));
        }
        i = i + 1;
    }
    proof {
        lemma_before_wakeup(rest, i - start);
    }
    if woken {
        SelectStep::TakeWakes(TakeWakes { wait, events })
    } else {
        SelectStep::Done(Finished { events, result: Ok(()) })
    }
}

} // verus!
