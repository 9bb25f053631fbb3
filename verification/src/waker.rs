//! Waking a selector from elsewhere.

use vstd::prelude::*;

use crate::abi::Abi;
use crate::error::{status_error, Error, Operation};
use crate::selector::{Selector, SelectorView};
use crate::token::Token;

verus! {

/// An empty message that has to be sent on the wake channel.
#[derive(Clone, Copy, Debug, PartialEq, Eq, Structural)]
pub struct SendWake {
    /// The numbers of the kernel interface.
    pub abi: Abi,
    /// The sending end of the wake channel.
    pub wake_sender: u64,
}

impl SendWake {
    /// What the answer to the send means.
    pub open spec fn outcome(self, status: i64) -> Result<(), Error> {
        if status == self.abi.status_ok || status == self.abi.status_would_block {
            Ok(())
        } else {
            Err(Error::Status { operation: Operation::ChannelWake, status })
        }
    }

    /// Takes the answer to the send.
    ///
    /// A wakeup lasts as long as its message is queued.  Where one is queued
    /// already the channel would block, and the selector is bound to return
    /// all the same.
    pub fn resume(self, status: i64) -> (res: Result<(), Error>)
        ensures
            res == self.outcome(status),
    {
        if status == self.abi.status_ok || status == self.abi.status_would_block {
            Ok(())
        } else {
            Err(status_error(Operation::ChannelWake, status))
        }
    }
}

/// Wakes a selector through its wake channel.
#[derive(Clone, Copy, Debug, PartialEq, Eq, Structural)]
pub struct Waker {
    /// The token that this waker was made with.
    pub token: Token,
}

impl Waker {
    /// Makes a waker.  From now on the selector reports wakeups, by whichever
    /// waker, under `token`.
    pub fn new(selector: &mut Selector, token: Token) -> (waker: Self)
        ensures
            waker.token == token,
            final(selector)@ == (SelectorView { wake_token: token, ..old(selector)@ }),
    {
        selector.set_wake_token(token);
        Waker { token }
    }

    /// Asks the selector to return.
    pub fn wake(&self, selector: &mut Selector) -> (send: SendWake)
        ensures
            send == old(selector)@.send_wake(),
            final(selector)@ == (SelectorView { external_wake: true, ..old(selector)@ }),
    {
        selector.wake()
    }
}

} // verus!
