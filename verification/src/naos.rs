//! Capability handles as event sources.
//!
//! A NaOS handle is not a Unix file descriptor.  It is a waitable capability,
//! so users of this module must keep the handle alive for as long as the
//! source is registered and must perform the corresponding non-blocking
//! operation after receiving readiness.

use vstd::prelude::*;

use crate::abi::CtlRequest;
use crate::error::Error;
use crate::selector::Selector;
use crate::token::{Interest, Token};
use crate::waker::SendWake;

verus! {

/// A borrowed NaOS capability handle exposed as an event source.
///
/// `Source` does not own or close the handle.  The owner remains responsible
/// for closing it after deregistering the source.
#[derive(Clone, Copy, Debug, PartialEq, Eq, Structural)]
pub struct Source {
    handle: u64,
}

impl Source {
    /// The underlying capability handle.
    pub closed spec fn spec_handle(self) -> u64 {
        self.handle
    }

    /// Creates a source for a waitable NaOS capability handle.
    pub fn new(handle: u64) -> (source: Self)
        ensures
            source.spec_handle() == handle,
    {
        Self { handle }
    }

    /// Returns the underlying capability handle without transferring
    /// ownership.
    pub fn handle(&self) -> (handle: u64)
        ensures
            handle == self.spec_handle(),
    {
        self.handle
    }

    /// The call that registers the source.
    pub fn register_request(
        &self,
        selector: &Selector,
        token: Token,
        interests: Interest,
    ) -> (res: Result<CtlRequest, Error>)
        ensures
            res == (if selector@.registered(self.spec_handle()) {
                Err::<CtlRequest, Error>(Error::AlreadyRegistered)
            } else {
                Ok(selector@.add_request(self.spec_handle(), token, interests))
            }),
    {
        selector.register_request(self.handle, token, interests)
    }

    /// Registers the source, given the kernel's answer to that call.
    pub fn register(
        &self,
        selector: &mut Selector,
        token: Token,
        interests: Interest,
        status: i64,
    ) -> (res: Result<SendWake, Error>)
        ensures
            res == old(selector)@.register_result(self.spec_handle(), status),
            final(selector)@ == (if res is Ok {
                old(selector)@.with_registration(self.spec_handle(), token, interests)
            } else {
                old(selector)@
            }),
            old(selector)@.wf() ==> final(selector)@.wf(),
    {
        selector.register(self.handle, token, interests, status)
    }

    /// The call that changes the source's registration.
    pub fn reregister_request(
        &self,
        selector: &Selector,
        token: Token,
        interests: Interest,
    ) -> (res: Result<CtlRequest, Error>)
        ensures
            res == (if !selector@.registered(self.spec_handle()) {
                Err::<CtlRequest, Error>(Error::NotRegistered)
            } else {
                Ok(selector@.modify_request(self.spec_handle(), token, interests))
            }),
    {
        selector.reregister_request(self.handle, token, interests)
    }

    /// Changes the source's registration, given the kernel's answer to that
    /// call.
    pub fn reregister(
        &self,
        selector: &mut Selector,
        token: Token,
        interests: Interest,
        status: i64,
    ) -> (res: Result<SendWake, Error>)
        ensures
            res == old(selector)@.reregister_result(self.spec_handle(), status),
            final(selector)@ == (if res is Ok {
                old(selector)@.with_reregistration(self.spec_handle(), token, interests)
            } else {
                old(selector)@
            }),
            old(selector)@.wf() ==> final(selector)@.wf(),
    {
        selector.reregister(self.handle, token, interests, status)
    }

    /// The call that removes the source's registration.
    pub fn deregister_request(&self, selector: &Selector) -> (res: Result<CtlRequest, Error>)
        ensures
            res == (if !selector@.registered(self.spec_handle()) {
                Err::<CtlRequest, Error>(Error::NotRegistered)
            } else {
                Ok(selector@.delete_request(self.spec_handle()))
            }),
    {
        selector.deregister_request(self.handle)
    }

    /// Removes the source's registration, given the kernel's answer to that
    /// call.
    pub fn deregister(&self, selector: &mut Selector, status: i64) -> (res: Result<
        SendWake,
        Error,
    >)
        ensures
            res == old(selector)@.deregister_result(self.spec_handle(), status),
            final(selector)@ == (if res is Ok {
                old(selector)@.without_registration(self.spec_handle())
            } else {
                old(selector)@
            }),
            old(selector)@.wf() ==> final(selector)@.wf(),
    {
        selector.deregister(self.handle, status)
    }
}

/// A source is its handle: two sources are equal exactly where their handles
/// are.
pub proof fn law_source_is_its_handle(a: Source, b: Source)
    ensures
        (a == b) <==> a.spec_handle() == b.spec_handle(),
{
}

} // verus!
