//! The decisions of a readiness selector over the NaOS capability epoll
//! interface, verified.
//!
//! The library makes no system call.  It says which call comes next, takes the
//! kernel's answer as plain values, and says what the answer means: which
//! handles are registered, which events a wait reports, which errors come up
//! and which handles have to be closed.  Whoever drives it performs the calls.

pub mod abi;
pub mod behaviour_select;
pub mod behaviour_selector;
pub mod behaviour_values;
pub mod deadline;
pub mod error;
pub mod event;
pub mod laws;
pub mod naos;
pub mod select;
pub mod selector;
pub mod text;
pub mod token;
pub mod waker;

pub use abi::{Abi, CtlOp, CtlRequest, EpollEvent, TimeClock};
pub use deadline::Timeout;
pub use error::{Error, ErrorKind, Operation};
pub use event::{DebugDetails, DebugField, DebugValue, Event, Events};
pub use select::{
    Finished, ReadClock, ReadWakeToken, ReceiveWake, SelectStep, TakeWakes, Wait,
};
pub use selector::{
    Aborted, AddWakeChannel, CreateChannel, CreateEpoll, Registration, Selector, Wakes,
};
pub use token::{Interest, Token};
pub use waker::{SendWake, Waker};
