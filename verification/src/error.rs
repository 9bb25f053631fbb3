//! What can go wrong, and how it is told.

use vstd::prelude::*;

use crate::text::{push_signed_decimal, signed_decimal};

verus! {

/// The kernel operation that a status came from.
#[derive(Clone, Copy, Debug, PartialEq, Eq, Structural)]
pub enum Operation {
    /// Creating the epoll set.
    EpollCreate,
    /// Creating the wake channel.
    ChannelCreate,
    /// Adding the wake channel to the epoll set.
    EpollAddWakeChannel,
    /// Waiting on the epoll set.
    EpollWait,
    /// Adding a handle.
    EpollAdd,
    /// Changing a handle.
    EpollModify,
    /// Taking a handle out.
    EpollDelete,
    /// Sending a wakeup.
    ChannelWake,
    /// Draining the wake channel.
    ChannelDrain,
}

impl Operation {
    /// The operation's name in messages.
    pub open spec fn text(self) -> Seq<char> {
        match self {
            Operation::EpollCreate => "epoll create"@,
            Operation::ChannelCreate => "channel create"@,
            Operation::EpollAddWakeChannel => "epoll add wake channel"@,
            Operation::EpollWait => "epoll wait"@,
            Operation::EpollAdd => "epoll add"@,
            Operation::EpollModify => "epoll modify"@,
            Operation::EpollDelete => "epoll delete"@,
            Operation::ChannelWake => "channel wake"@,
            Operation::ChannelDrain => "channel drain"@,
        }
    }

    /// The operation's name in messages.
    pub fn as_str(self) -> (name: &'static str)
        ensures
            name@ == self.text(),
    {
        match self {
            Operation::EpollCreate => "epoll create",
            Operation::ChannelCreate => "channel create",
            Operation::EpollAddWakeChannel => "epoll add wake channel",
            Operation::EpollWait => "epoll wait",
            Operation::EpollAdd => "epoll add",
            Operation::EpollModify => "epoll modify",
            Operation::EpollDelete => "epoll delete",
            Operation::ChannelWake => "channel wake",
            Operation::ChannelDrain => "channel drain",
        }
    }
}

/// The class of an error, for callers that tell errors apart.
#[derive(Clone, Copy, Debug, PartialEq, Eq, Structural)]
pub enum ErrorKind {
    /// The thing to be made is there already.
    AlreadyExists,
    /// The thing asked for is not there.
    NotFound,
    /// Anything else.
    Other,
}

/// A failed selector operation.
#[derive(Clone, Copy, Debug, PartialEq, Eq, Structural)]
pub enum Error {
    /// The kernel answered an operation with a status other than success.
    Status {
        /// The operation.
        operation: Operation,
        /// The kernel's answer.
        status: i64,
    },
    /// The handle has a registration already.
    AlreadyRegistered,
    /// The handle has no registration.
    NotRegistered,
    /// A thread panicked while it held the registrations.
    RegistryPoisoned,
    /// A thread panicked while it held the wake token.
    WakerPoisoned,
}

impl Error {
    /// The error's class.
    pub open spec fn spec_kind(self) -> ErrorKind {
        match self {
            Error::AlreadyRegistered => ErrorKind::AlreadyExists,
            Error::NotRegistered => ErrorKind::NotFound,
            _ => ErrorKind::Other,
        }
    }

    /// The error in words.
    pub open spec fn text(self) -> Seq<char> {
        match self {
            Error::Status { operation, status } => operation.text() + ": NaOS status "@
                + signed_decimal(status as int),
            Error::AlreadyRegistered => "NaOS handle already registered"@,
            Error::NotRegistered => "NaOS handle is not registered"@,
            Error::RegistryPoisoned => "NaOS Mio registry lock poisoned"@,
            Error::WakerPoisoned => "NaOS Mio waker lock poisoned"@,
        }
    }

    /// The error's class.
    pub fn kind(&self) -> (kind: ErrorKind)
        ensures
            kind == self.spec_kind(),
    {
        match self {
            Error::AlreadyRegistered => ErrorKind::AlreadyExists,
            Error::NotRegistered => ErrorKind::NotFound,
            _ => ErrorKind::Other,
        }
    }

    /// The error in words.
    pub fn message(&self) -> (message: String)
        ensures
            message@ == self.text(),
    {
        let mut message = String::new();
        match self {
            Error::Status { operation, status } => {
                message.append(operation.as_str());
                message.append(": NaOS status ");
                push_signed_decimal(&mut message, *status);
            },
            Error::AlreadyRegistered => message.append("NaOS handle already registered"),
            Error::NotRegistered => message.append("NaOS handle is not registered"),
            Error::RegistryPoisoned => message.append("NaOS Mio registry lock poisoned"),
            Error::WakerPoisoned => message.append("NaOS Mio waker lock poisoned"),
        }
        message
    }
}

/// The error for a kernel status.
pub fn status_error(operation: Operation, status: i64) -> (error: Error)
    ensures
        error == (Error::Status { operation, status }),
{
    Error::Status { operation, status }
}

} // verus!
