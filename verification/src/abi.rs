//! The values that cross the kernel interface.

use vstd::prelude::*;

use crate::token::{Interest, Token};

verus! {

/// The user data under which the wake channel is registered.  It marks the
/// events that belong to the selector itself.
pub const WAKE_DATA: u64 = 0xffff_ffff_ffff_ffff;

/// The numbers that the kernel interface gives to statuses and event bits.
#[derive(Clone, Copy, Debug, PartialEq, Eq, Structural)]
pub struct Abi {
    /// The call succeeded.
    pub status_ok: i64,
    /// A non-blocking call would have had to wait.
    pub status_would_block: i64,
    /// A wait ended at its deadline.
    pub status_wait_timed_out: i64,
    /// The handle can be read from.
    pub event_readable: u64,
    /// The handle can be written to.
    pub event_writable: u64,
    /// The handle is in an error state.
    pub event_error: u64,
    /// The peer is gone.
    pub event_hangup: u64,
    /// Readiness is reported when it changes, not while it lasts.
    pub event_edge_triggered: u64,
}

impl Abi {
    /// The bits for read and write readiness and for edge triggering are not
    /// empty, and they and the bits for trouble do not overlap.
    pub open spec fn bits_distinct(self) -> bool {
        &&& self.event_readable != 0
        &&& self.event_writable != 0
        &&& self.event_edge_triggered != 0
        &&& self.event_readable & self.event_writable == 0
        &&& self.event_readable & self.event_edge_triggered == 0
        &&& self.event_writable & self.event_edge_triggered == 0
        &&& self.event_hangup & self.event_readable == 0
        &&& self.event_hangup & self.event_writable == 0
        &&& self.event_hangup & self.event_edge_triggered == 0
        &&& self.event_error & self.event_readable == 0
        &&& self.event_error & self.event_writable == 0
        &&& self.event_error & self.event_edge_triggered == 0
    }
}

/// An entry of the epoll queue: event bits, and the data they were registered
/// with.
#[derive(Clone, Copy, Debug, PartialEq, Eq, Structural)]
pub struct EpollEvent {
    /// The event bits.
    pub events: u64,
    /// The user data of the registration.
    pub data: u64,
}

/// A point in time on the kernel's monotonic clock.
#[derive(Clone, Copy, Debug, PartialEq, Eq, Structural)]
pub struct TimeClock {
    /// Whole seconds.
    pub tv_sec: i64,
    /// Nanoseconds on top of them.
    pub tv_nsec: i64,
}

/// What a control call does to the epoll set.
#[derive(Clone, Copy, Debug, PartialEq, Eq, Structural)]
pub enum CtlOp {
    /// Adds a handle.
    Add,
    /// Changes the event bits and data of a handle.
    Modify,
    /// Takes a handle out.
    Delete,
}

/// An epoll control call, as it is to be made.
#[derive(Clone, Copy, Debug, PartialEq, Eq, Structural)]
pub struct CtlRequest {
    /// The epoll set.
    pub epoll: u64,
    /// What to do.
    pub op: CtlOp,
    /// The handle it concerns.
    pub handle: u64,
    /// The event to register; none is passed when a handle is taken out.
    pub event: Option<EpollEvent>,
}

/// The event bits that stand for `interests`: one bit for each kind asked for,
/// and always edge triggering.
pub open spec fn interest_bits(abi: Abi, interests: Interest) -> u64 {
    let readable = if interests.readable {
        abi.event_readable
    } else {
        0
    };
    let writable = if interests.writable {
        abi.event_writable
    } else {
        0
    };
    readable | writable | abi.event_edge_triggered
}

/// Translates interests into event bits.
///
/// Readiness caches advance their tick for every selector event, so sources
/// are edge-triggered and have to be drained until they would block.  A
/// level-triggered source that stays unread would advance the tick again and
/// again, and leave stale readiness in the cache.
pub fn interests_to_epoll_events(abi: &Abi, interests: Interest) -> (bits: u64)
    ensures
        bits == interest_bits(*abi, interests),
{
    let mut events: u64 = 0;
    if interests.is_readable() {
        events = events | abi.event_readable;
        proof {
            let r: u64 = abi.event_readable;
            assert(0u64 | r == r) by (bit_vector);
        }
    }
    proof {
        let e: u64 = events;
        assert(e | 0u64 == e) by (bit_vector);
    }
    if interests.is_writable() {
        events = events | abi.event_writable;
    }
    events | abi.event_edge_triggered
}

/// The entry under which `token` and `interests` are put into the epoll set.
pub open spec fn registration_event(abi: Abi, token: Token, interests: Interest) -> EpollEvent {
    EpollEvent { events: interest_bits(abi, interests), data: token.0 as u64 }
}

/// Builds the epoll entry for a registration.
pub fn epoll_event(abi: &Abi, token: Token, interests: Interest) -> (event: EpollEvent)
    ensures
        event == registration_event(*abi, token, interests),
{
    EpollEvent { events: interests_to_epoll_events(abi, interests), data: token.0 as u64 }
}

} // verus!
