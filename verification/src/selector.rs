//! The selector: what is registered, and how it is woken.
//!
//! A change of a registration takes two steps.  A `.._request` method says
//! which call to make, or why none is made; the method that it is named after
//! takes the kernel's answer, and changes the selector.  Whoever drives the
//! selector keeps others from changing it between the two.  Then it sends the
//! wakeup that comes back, so that a wait under way takes notice.

use vstd::prelude::*;

use crate::abi::{
    epoll_event, registration_event, Abi, CtlOp, CtlRequest, EpollEvent, WAKE_DATA,
};
use crate::error::{status_error, Error, Operation};
use crate::token::{Interest, Token};
use crate::waker::SendWake;

verus! {

/// How many messages the wake channel holds.
pub const WAKE_MAX_MESSAGES: u64 = 1;

/// How many bytes the wake channel holds.
pub const WAKE_MAX_BYTES: u64 = 1;

/// A handle in the epoll set, with what it was registered for.
#[derive(Clone, Copy, Debug, PartialEq, Eq, Structural)]
pub struct Registration {
    /// The capability handle.
    pub handle: u64,
    /// The token that its events carry.
    pub token: Token,
    /// The readiness it is registered for.
    pub interests: Interest,
}

/// Wakeups that a wait has taken over.
#[derive(Clone, Copy, Debug, PartialEq, Eq, Structural)]
pub struct Wakes {
    /// A registration changed.
    pub registration: bool,
    /// A waker asked the selector to return.
    pub external: bool,
}

/// `i` is the first place in `registrations` that holds `handle`.
pub open spec fn first_at(registrations: Seq<Registration>, handle: u64, i: int) -> bool {
    &&& 0 <= i < registrations.len()
    &&& registrations[i].handle == handle
    &&& forall|j: int| 0 <= j < i ==> (#[trigger] registrations[j]).handle != handle
}

/// Whether `registrations` holds `handle`.
pub open spec fn holds_handle(registrations: Seq<Registration>, handle: u64) -> bool {
    exists|i: int| 0 <= i < registrations.len() && (#[trigger] registrations[i]).handle == handle
}

/// The first place in `registrations` that holds `handle`.
pub open spec fn place_of(registrations: Seq<Registration>, handle: u64) -> int {
    choose|i: int| first_at(registrations, handle, i)
}

/// No handle is registered twice.
pub open spec fn handles_unique(registrations: Seq<Registration>) -> bool {
    forall|i: int, j: int|
        0 <= i < j < registrations.len() ==> (#[trigger] registrations[i]).handle != (
        #[trigger] registrations[j]).handle
}

/// What a selector knows.
pub struct SelectorView {
    /// The numbers of the kernel interface.
    pub abi: Abi,
    /// The epoll set.
    pub epoll: u64,
    /// The receiving end of the wake channel.
    pub wake_receiver: u64,
    /// The sending end of the wake channel.
    pub wake_sender: u64,
    /// What is registered, besides the wake channel.
    pub registrations: Seq<Registration>,
    /// The token under which wakeups are reported.
    pub wake_token: Token,
    /// A registration changed since the last wakeup was taken.
    pub registration_wake: bool,
    /// A waker asked since the last wakeup was taken.
    pub external_wake: bool,
}

impl SelectorView {
    /// No handle is registered twice.
    pub open spec fn wf(self) -> bool {
        handles_unique(self.registrations)
    }

    /// Whether `handle` is registered.
    pub open spec fn registered(self, handle: u64) -> bool {
        holds_handle(self.registrations, handle)
    }

    /// The wakeups that are noted.
    pub open spec fn wakes(self) -> Wakes {
        Wakes { registration: self.registration_wake, external: self.external_wake }
    }

    /// The message that wakes this selector.
    pub open spec fn send_wake(self) -> SendWake {
        SendWake { abi: self.abi, wake_sender: self.wake_sender }
    }

    /// With `handle` registered, at the end.
    pub open spec fn with_registration(
        self,
        handle: u64,
        token: Token,
        interests: Interest,
    ) -> SelectorView {
        SelectorView {
            registrations: self.registrations.push(Registration { handle, token, interests }),
            registration_wake: true,
            ..self
        }
    }

    /// With the token and interests of `handle` replaced, in its place.
    pub open spec fn with_reregistration(
        self,
        handle: u64,
        token: Token,
        interests: Interest,
    ) -> SelectorView {
        SelectorView {
            registrations: self.registrations.update(
                place_of(self.registrations, handle),
                Registration { handle, token, interests },
            ),
            registration_wake: true,
            ..self
        }
    }

    /// Without `handle`; the last registration takes its place.
    pub open spec fn without_registration(self, handle: u64) -> SelectorView {
        SelectorView {
            registrations: self.registrations.update(
                place_of(self.registrations, handle),
                self.registrations.last(),
            ).drop_last(),
            registration_wake: true,
            ..self
        }
    }

    /// The call that puts `handle` into the epoll set.
    pub open spec fn add_request(
        self,
        handle: u64,
        token: Token,
        interests: Interest,
    ) -> CtlRequest {
        CtlRequest {
            epoll: self.epoll,
            op: CtlOp::Add,
            handle,
            event: Some(registration_event(self.abi, token, interests)),
        }
    }

    /// The call that changes the entry of `handle` in the epoll set.
    pub open spec fn modify_request(
        self,
        handle: u64,
        token: Token,
        interests: Interest,
    ) -> CtlRequest {
        CtlRequest {
            epoll: self.epoll,
            op: CtlOp::Modify,
            handle,
            event: Some(registration_event(self.abi, token, interests)),
        }
    }

    /// The call that takes `handle` out of the epoll set.
    pub open spec fn delete_request(self, handle: u64) -> CtlRequest {
        CtlRequest { epoll: self.epoll, op: CtlOp::Delete, handle, event: None }
    }

    /// What `register` returns once the kernel has answered with `status`.
    pub open spec fn register_result(self, handle: u64, status: i64) -> Result<SendWake, Error> {
        if self.registered(handle) {
            Err(Error::AlreadyRegistered)
        } else if status != self.abi.status_ok {
            Err(Error::Status { operation: Operation::EpollAdd, status })
        } else {
            Ok(self.send_wake())
        }
    }

    /// What `reregister` returns once the kernel has answered with `status`.
    pub open spec fn reregister_result(self, handle: u64, status: i64) -> Result<SendWake, Error> {
        if !self.registered(handle) {
            Err(Error::NotRegistered)
        } else if status != self.abi.status_ok {
            Err(Error::Status { operation: Operation::EpollModify, status })
        } else {
            Ok(self.send_wake())
        }
    }

    /// What `deregister` returns once the kernel has answered with `status`.
    pub open spec fn deregister_result(self, handle: u64, status: i64) -> Result<SendWake, Error> {
        if !self.registered(handle) {
            Err(Error::NotRegistered)
        } else if status != self.abi.status_ok {
            Err(Error::Status { operation: Operation::EpollDelete, status })
        } else {
            Ok(self.send_wake())
        }
    }
}

/// The state of a selector: its kernel handles, its registrations, and the
/// wakeups that no wait has taken over yet.
#[derive(Debug)]
pub struct Selector {
    abi: Abi,
    epoll: u64,
    wake_receiver: u64,
    wake_sender: u64,
    registrations: Vec<Registration>,
    wake_token: Token,
    registration_wake: bool,
    external_wake: bool,
}

impl View for Selector {
    type V = SelectorView;

    closed spec fn view(&self) -> SelectorView {
        SelectorView {
            abi: self.abi,
            epoll: self.epoll,
            wake_receiver: self.wake_receiver,
            wake_sender: self.wake_sender,
            registrations: self.registrations@,
            wake_token: self.wake_token,
            registration_wake: self.registration_wake,
            external_wake: self.external_wake,
        }
    }
}

/// A selector that could not be created.
#[derive(Debug)]
pub struct Aborted {
    /// The handles that have to be closed, in this order.
    pub close: Vec<u64>,
    /// Why.
    pub error: Error,
}

/// The creation of a selector, before the epoll set is created.
#[derive(Clone, Copy, Debug, PartialEq, Eq, Structural)]
pub struct CreateEpoll {
    /// The numbers of the kernel interface.
    pub abi: Abi,
}

/// The creation of a selector, before the wake channel is created.
#[derive(Clone, Copy, Debug, PartialEq, Eq, Structural)]
pub struct CreateChannel {
    /// The numbers of the kernel interface.
    pub abi: Abi,
    /// The epoll set.
    pub epoll: u64,
    /// How many messages the channel has to hold.
    pub max_messages: u64,
    /// How many bytes the channel has to hold.
    pub max_bytes: u64,
}

/// The creation of a selector, before the wake channel is put into the epoll
/// set.
#[derive(Clone, Copy, Debug, PartialEq, Eq, Structural)]
pub struct AddWakeChannel {
    /// The numbers of the kernel interface.
    pub abi: Abi,
    /// The epoll set.
    pub epoll: u64,
    /// The receiving end of the wake channel.
    pub wake_receiver: u64,
    /// The sending end of the wake channel.
    pub wake_sender: u64,
}

impl CreateEpoll {
    /// Takes the answer to the call that creates the epoll set.
    pub fn resume(self, status: i64, epoll: u64) -> (res: Result<CreateChannel, Aborted>)
        ensures
            match res {
                Ok(next) => status == self.abi.status_ok && next == (CreateChannel {
                    abi: self.abi,
                    epoll,
                    max_messages: 1,
                    max_bytes: 1,
                }),
                Err(aborted) => {
                    &&& status != self.abi.status_ok
                    &&& aborted.close@ == Seq::<u64>::empty()
                    &&& aborted.error == (Error::Status {
                        operation: Operation::EpollCreate,
                        status,
                    })
                },
            },
    {
        if status != self.abi.status_ok {
            return Err(
                Aborted {
                    close: Vec::new(),
                    error: status_error(Operation::EpollCreate, status),
                },
            );
        }
        Ok(
            CreateChannel {
                abi: self.abi,
                epoll,
                max_messages: WAKE_MAX_MESSAGES,
                max_bytes: WAKE_MAX_BYTES,
            },
        )
    }
}

impl CreateChannel {
    /// Takes the answer to the call that creates the wake channel.
    pub fn resume(self, status: i64, wake_receiver: u64, wake_sender: u64) -> (res: Result<
        AddWakeChannel,
        Aborted,
    >)
        ensures
            match res {
                Ok(next) => status == self.abi.status_ok && next == (AddWakeChannel {
                    abi: self.abi,
                    epoll: self.epoll,
                    wake_receiver,
                    wake_sender,
                }),
                Err(aborted) => {
                    &&& status != self.abi.status_ok
                    &&& aborted.close@ == seq![self.epoll]
                    &&& aborted.error == (Error::Status {
                        operation: Operation::ChannelCreate,
                        status,
                    })
                },
            },
    {
        if status != self.abi.status_ok {
            let mut close: Vec<u64> = Vec::new();
            close.push(self.epoll);
            return Err(
                Aborted { close, error: status_error(Operation::ChannelCreate, status) },
            );
        }
        Ok(AddWakeChannel { abi: self.abi, epoll: self.epoll, wake_receiver, wake_sender })
    }
}

impl AddWakeChannel {
    /// The call that puts the wake channel into the epoll set.  It is not
    /// edge-triggered: a wakeup is reported for as long as it is queued.
    pub fn request(&self) -> (request: CtlRequest)
        ensures
            request == (CtlRequest {
                epoll: self.epoll,
                op: CtlOp::Add,
                handle: self.wake_receiver,
                event: Some(EpollEvent { events: self.abi.event_readable, data: WAKE_DATA }),
            }),
    {
        CtlRequest {
            epoll: self.epoll,
            op: CtlOp::Add,
            handle: self.wake_receiver,
            event: Some(EpollEvent { events: self.abi.event_readable, data: WAKE_DATA }),
        }
    }

    /// Takes the answer to that call.
    pub fn resume(self, status: i64) -> (res: Result<Selector, Aborted>)
        ensures
            match res {
                Ok(selector) => {
                    &&& status == self.abi.status_ok
                    &&& selector@ == (SelectorView {
                        abi: self.abi,
                        epoll: self.epoll,
                        wake_receiver: self.wake_receiver,
                        wake_sender: self.wake_sender,
                        registrations: Seq::empty(),
                        wake_token: Token(0),
                        registration_wake: false,
                        external_wake: false,
                    })
                    &&& selector@.wf()
                },
                Err(aborted) => {
                    &&& status != self.abi.status_ok
                    &&& aborted.close@ == seq![self.epoll, self.wake_receiver, self.wake_sender]
                    &&& aborted.error == (Error::Status {
                        operation: Operation::EpollAddWakeChannel,
                        status,
                    })
                },
            },
    {
        if status != self.abi.status_ok {
            let mut close: Vec<u64> = Vec::new();
            close.push(self.epoll);
            close.push(self.wake_receiver);
            close.push(self.wake_sender);
            return Err(
                Aborted { close, error: status_error(Operation::EpollAddWakeChannel, status) },
            );
        }
        Ok(
            Selector {
                abi: self.abi,
                epoll: self.epoll,
                wake_receiver: self.wake_receiver,
                wake_sender: self.wake_sender,
                registrations: Vec::new(),
                wake_token: Token(0),
                registration_wake: false,
                external_wake: false,
            },
        )
    }
}

impl Selector {
    /// Begins the creation of a selector and of its private channel for
    /// wakeups and registration changes.
    pub fn new(abi: Abi) -> (step: CreateEpoll)
        ensures
            step == (CreateEpoll { abi }),
    {
        CreateEpoll { abi }
    }

    /// The numbers of the kernel interface.
    pub fn abi(&self) -> (abi: Abi)
        ensures
            abi == self@.abi,
    {
        self.abi
    }

    /// The epoll set.
    pub fn epoll(&self) -> (handle: u64)
        ensures
            handle == self@.epoll,
    {
        self.epoll
    }

    /// The receiving end of the wake channel.
    pub fn wake_receiver(&self) -> (handle: u64)
        ensures
            handle == self@.wake_receiver,
    {
        self.wake_receiver
    }

    /// The token under which wakeups are reported.
    pub fn wake_token(&self) -> (token: Token)
        ensures
            token == self@.wake_token,
    {
        self.wake_token
    }

    /// The handles that have to be closed, in this order, once nothing uses
    /// the selector any more.
    pub fn close(&self) -> (handles: Vec<u64>)
        ensures
            handles@ == seq![self@.epoll, self@.wake_receiver, self@.wake_sender],
    {
        let mut handles: Vec<u64> = Vec::new();
        handles.push(self.epoll);
        handles.push(self.wake_receiver);
        handles.push(self.wake_sender);
        handles
    }

    /// The first place that holds `handle`.
    fn position(&self, handle: u64) -> (place: Option<usize>)
        ensures
            match place {
                Some(i) => self@.registered(handle) && first_at(
                    self@.registrations,
                    handle,
                    i as int,
                ) && i == place_of(self@.registrations, handle),
                None => !self@.registered(handle),
            },
    {
        let mut i: usize = 0;
        while i < self.registrations.len()
            invariant
                i <= self.registrations@.len(),
                forall|j: int| 0 <= j < i ==> (#[trigger] self.registrations@[j]).handle != handle,
            decreases self.registrations@.len() - i,
        {
            if self.registrations[i].handle == handle {
                proof {
                    assert(first_at(self.registrations@, handle, i as int));
                    let k = place_of(self.registrations@, handle);
                    assert(first_at(self.registrations@, handle, k));
                    assert(self.registrations@[i as int].handle == handle);
                    assert(self.registrations@[k].handle == handle);
                }
                return Some(i);
            }
            i = i + 1;
        }
        None
    }

    /// Notes that a registration changed, and says what to send.
    fn wake_registration(&mut self) -> (send: SendWake)
        ensures
            send == old(self)@.send_wake(),
            final(self)@ == (SelectorView { registration_wake: true, ..old(self)@ }),
    {
        self.registration_wake = true;
        self.send_wake()
    }

    /// The message that wakes this selector.
    pub fn send_wake(&self) -> (send: SendWake)
        ensures
            send == self@.send_wake(),
    {
        SendWake { abi: self.abi, wake_sender: self.wake_sender }
    }

    /// Notes that a waker asks the selector to return, and says what to send.
    pub fn wake(&mut self) -> (send: SendWake)
        ensures
            send == old(self)@.send_wake(),
            final(self)@ == (SelectorView { external_wake: true, ..old(self)@ }),
    {
        self.external_wake = true;
        self.send_wake()
    }

    /// Sets the token under which wakeups are reported.
    pub fn set_wake_token(&mut self, token: Token)
        ensures
            final(self)@ == (SelectorView { wake_token: token, ..old(self)@ }),
    {
        self.wake_token = token;
    }

    /// Takes over the wakeups that are noted.
    pub fn take_wakes(&mut self) -> (wakes: Wakes)
        ensures
            wakes == old(self)@.wakes(),
            final(self)@ == (SelectorView {
                registration_wake: false,
                external_wake: false,
                ..old(self)@
            }),
    {
        let wakes = Wakes { registration: self.registration_wake, external: self.external_wake };
        self.registration_wake = false;
        self.external_wake = false;
        wakes
    }

    /// The call that registers a handle.  A handle that is registered already
    /// is refused before any call.
    pub fn register_request(&self, handle: u64, token: Token, interests: Interest) -> (res: Result<
        CtlRequest,
        Error,
    >)
        ensures
            res == (if self@.registered(handle) {
                Err::<CtlRequest, Error>(Error::AlreadyRegistered)
            } else {
                Ok(self@.add_request(handle, token, interests))
            }),
    {
        match self.position(handle) {
            Some(_) => Err(Error::AlreadyRegistered),
            None => Ok(
                CtlRequest {
                    epoll: self.epoll,
                    op: CtlOp::Add,
                    handle,
                    event: Some(epoll_event(&self.abi, token, interests)),
                },
            ),
        }
    }

    /// Registers a capability handle with readiness interests, given the
    /// kernel's answer to the call that `register_request` asks for.
    pub fn register(
        &mut self,
        handle: u64,
        token: Token,
        interests: Interest,
        status: i64,
    ) -> (res: Result<SendWake, Error>)
        ensures
            res == old(self)@.register_result(handle, status),
            final(self)@ == (if res is Ok {
                old(self)@.with_registration(handle, token, interests)
            } else {
                old(self)@
            }),
            old(self)@.wf() ==> final(self)@.wf(),
    {
        match self.position(handle) {
            Some(_) => Err(Error::AlreadyRegistered),
            None => {
                if status != self.abi.status_ok {
                    return Err(status_error(Operation::EpollAdd, status));
                }
                self.registrations.push(Registration { handle, token, interests });
                Ok(self.wake_registration())
            },
        }
    }

    /// The call that changes a registered handle.  A handle that is not
    /// registered is refused before any call.
    pub fn reregister_request(
        &self,
        handle: u64,
        token: Token,
        interests: Interest,
    ) -> (res: Result<CtlRequest, Error>)
        ensures
            res == (if !self@.registered(handle) {
                Err::<CtlRequest, Error>(Error::NotRegistered)
            } else {
                Ok(self@.modify_request(handle, token, interests))
            }),
    {
        match self.position(handle) {
            None => Err(Error::NotRegistered),
            Some(_) => Ok(
                CtlRequest {
                    epoll: self.epoll,
                    op: CtlOp::Modify,
                    handle,
                    event: Some(epoll_event(&self.abi, token, interests)),
                },
            ),
        }
    }

    /// Updates a registered handle, given the kernel's answer to the call that
    /// `reregister_request` asks for.
    pub fn reregister(
        &mut self,
        handle: u64,
        token: Token,
        interests: Interest,
        status: i64,
    ) -> (res: Result<SendWake, Error>)
        ensures
            res == old(self)@.reregister_result(handle, status),
            final(self)@ == (if res is Ok {
                old(self)@.with_reregistration(handle, token, interests)
            } else {
                old(self)@
            }),
            old(self)@.wf() ==> final(self)@.wf(),
    {
        match self.position(handle) {
            None => Err(Error::NotRegistered),
            Some(index) => {
                if status != self.abi.status_ok {
                    return Err(status_error(Operation::EpollModify, status));
                }
                self.registrations.set(index, Registration { handle, token, interests });
                Ok(self.wake_registration())
            },
        }
    }

    /// The call that takes a handle out.  A handle that is not registered is
    /// refused before any call.
    pub fn deregister_request(&self, handle: u64) -> (res: Result<CtlRequest, Error>)
        ensures
            res == (if !self@.registered(handle) {
                Err::<CtlRequest, Error>(Error::NotRegistered)
            } else {
                Ok(self@.delete_request(handle))
            }),
    {
        match self.position(handle) {
            None => Err(Error::NotRegistered),
            Some(_) => Ok(
                CtlRequest { epoll: self.epoll, op: CtlOp::Delete, handle, event: None },
            ),
        }
    }

    /// Removes a registered handle, given the kernel's answer to the call that
    /// `deregister_request` asks for.
    pub fn deregister(&mut self, handle: u64, status: i64) -> (res: Result<SendWake, Error>)
        ensures
            res == old(self)@.deregister_result(handle, status),
            final(self)@ == (if res is Ok {
                old(self)@.without_registration(handle)
            } else {
                old(self)@
            }),
            old(self)@.wf() ==> final(self)@.wf(),
    {
        match self.position(handle) {
            None => Err(Error::NotRegistered),
            Some(index) => {
                if status != self.abi.status_ok {
                    return Err(status_error(Operation::EpollDelete, status));
                }
                self.registrations.swap_remove(index);
                Ok(self.wake_registration())
            },
        }
    }
}

} // verus!
