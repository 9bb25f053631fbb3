//! Readiness events.

use vstd::prelude::*;

use crate::abi::{Abi, EpollEvent};
use crate::token::Token;

verus! {

/// A readiness event returned by the selector.
#[derive(Clone, Copy, Debug, PartialEq, Eq, Structural)]
pub struct Event {
    /// The token of the source that is ready.
    pub token: Token,
    /// The source can be read from.
    pub readable: bool,
    /// The source can be written to.
    pub writable: bool,
    /// The source is in an error state.
    pub error: bool,
    /// The source's read half is closed.
    pub read_closed: bool,
    /// The source's write half is closed.
    pub write_closed: bool,
}

/// Collection of events returned by the selector.
pub type Events = Vec<Event>;

/// Whether `bits` has a bit in common with `mask`.
pub open spec fn has_bit(bits: u64, mask: u64) -> bool {
    bits & mask != 0
}

impl Event {
    /// Puts an event together.
    pub fn new(
        token: Token,
        readable: bool,
        writable: bool,
        error: bool,
        read_closed: bool,
        write_closed: bool,
    ) -> (event: Self)
        ensures
            event == (Event { token, readable, writable, error, read_closed, write_closed }),
    {
        Event { token, readable, writable, error, read_closed, write_closed }
    }

    /// The event that an entry of the epoll queue stands for.  A hangup closes
    /// both halves, and makes reads and writes return at once.
    pub open spec fn of_entry(abi: Abi, entry: EpollEvent) -> Event {
        let closed = has_bit(entry.events, abi.event_hangup);
        Event {
            token: Token(entry.data as usize),
            readable: has_bit(entry.events, abi.event_readable) || closed,
            writable: has_bit(entry.events, abi.event_writable) || closed,
            error: has_bit(entry.events, abi.event_error),
            read_closed: closed,
            write_closed: closed,
        }
    }

    /// The event that reports a wakeup under `token`.
    pub open spec fn of_wakeup(token: Token) -> Event {
        Event {
            token,
            readable: true,
            writable: false,
            error: false,
            read_closed: false,
            write_closed: false,
        }
    }

    /// Translates an entry of the epoll queue.
    pub fn from_entry(abi: &Abi, entry: &EpollEvent) -> (event: Self)
        ensures
            event == Event::of_entry(*abi, *entry),
    {
        let closed = entry.events & abi.event_hangup != 0;
        Event::new(
            Token(
                #[verifier::truncate]
                (entry.data as usize),
            ),
            entry.events & abi.event_readable != 0 || closed,
            entry.events & abi.event_writable != 0 || closed,
            entry.events & abi.event_error != 0,
            closed,
            closed,
        )
    }

    /// The names and values that a debug representation shows, in order.
    pub open spec fn debug_fields(self) -> Seq<(Seq<char>, DebugValue)> {
        seq![
            ("token"@, DebugValue::Token(self.token)),
            ("readable"@, DebugValue::Flag(self.readable)),
            ("writable"@, DebugValue::Flag(self.writable)),
            ("error"@, DebugValue::Flag(self.error)),
            ("read_closed"@, DebugValue::Flag(self.read_closed)),
            ("write_closed"@, DebugValue::Flag(self.write_closed)),
        ]
    }
}

/// A value in a debug representation.
#[derive(Clone, Copy, Debug, PartialEq, Eq, Structural)]
pub enum DebugValue {
    /// A token.
    Token(Token),
    /// A truth value.
    Flag(bool),
}

/// A named value in a debug representation.
#[derive(Clone, Copy, Debug)]
pub struct DebugField {
    /// Its name.
    pub name: &'static str,
    /// Its value.
    pub value: DebugValue,
}

/// What a debug representation shows: a struct of this name, with these fields
/// in this order.  How a value is written is up to the formatter's flags.
#[derive(Clone, Debug)]
pub struct DebugDetails {
    /// The struct's name.
    pub name: &'static str,
    /// Its fields.
    pub fields: Vec<DebugField>,
}

impl DebugDetails {
    /// The fields, as names and values.
    pub open spec fn named_values(self) -> Seq<(Seq<char>, DebugValue)> {
        self.fields@.map_values(|field: DebugField| (field.name@, field.value))
    }
}

/// The token of the source that is ready.
pub fn token(event: &Event) -> (res: Token)
    ensures
        res == event.token,
{
    event.token
}

/// Whether the source can be read from.
pub fn is_readable(event: &Event) -> (res: bool)
    ensures
        res == event.readable,
{
    event.readable
}

/// Whether the source can be written to.
pub fn is_writable(event: &Event) -> (res: bool)
    ensures
        res == event.writable,
{
    event.writable
}

/// Whether the source is in an error state.
pub fn is_error(event: &Event) -> (res: bool)
    ensures
        res == event.error,
{
    event.error
}

/// Whether the source's read half is closed.
pub fn is_read_closed(event: &Event) -> (res: bool)
    ensures
        res == event.read_closed,
{
    event.read_closed
}

/// Whether the source's write half is closed.
pub fn is_write_closed(event: &Event) -> (res: bool)
    ensures
        res == event.write_closed,
{
    event.write_closed
}

/// Priority readiness does not exist here.
pub fn is_priority(_event: &Event) -> (res: bool)
    ensures
        res == false,
{
    false
}

/// Asynchronous I/O readiness does not exist here.
pub fn is_aio(_event: &Event) -> (res: bool)
    ensures
        res == false,
{
    false
}

/// List I/O readiness does not exist here.
pub fn is_lio(_event: &Event) -> (res: bool)
    ensures
        res == false,
{
    false
}

/// What a debug representation of the event shows.
pub fn debug_details(event: &Event) -> (details: DebugDetails)
    ensures
        details.name@ == "NaosEvent"@,
        details.named_values() == event.debug_fields(),
{
    let mut fields: Vec<DebugField> = Vec::new();
    fields.push(DebugField { name: "token", value: DebugValue::Token(event.token) });
    fields.push(DebugField { name: "readable", value: DebugValue::Flag(event.readable) });
    fields.push(DebugField { name: "writable", value: DebugValue::Flag(event.writable) });
    fields.push(DebugField { name: "error", value: DebugValue::Flag(event.error) });
    fields.push(DebugField { name: "read_closed", value: DebugValue::Flag(event.read_closed) });
    fields.push(DebugField { name: "write_closed", value: DebugValue::Flag(event.write_closed) });
    let details = DebugDetails { name: "NaosEvent", fields };
    assert(details.named_values() =~= event.debug_fields());
    details
}

} // verus!
