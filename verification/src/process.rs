//! The handler and proxy contracts, and the driver's settings.
use vstd::prelude::*;
use crate::Message;
use crate::rt::Context;
use crate::rt::HandleError;
use crate::rt::SendFuture;
use core::future::Future;

verus! {

/// Outcome of a non-blocking check: a value, or "not yet".
pub enum Poll<T> {
    Ready(T),
    Pending,
}

/// The stateful handler that the driver owns.
pub trait Process<M: Message> {
    type Response: Message;

    type Error: Message;

    /// The unit of asynchronous work that one message becomes.
    type Future: Future<Output = Result<Self::Response, Self::Error>> + Unpin;

    /// Whether a readiness check of this handler may answer `answer` and
    /// leave the handler as `after`. A handler that says nothing of itself
    /// admits every answer; one that is verified may say more, and then has
    /// to keep to it.
    open spec fn may_answer(&self, after: &Self, answer: Poll<Result<(), Self::Error>>) -> bool {
        true
    }

    /// Returns `Ready` once this actor is ready to receive a message.
    /// `Pending` exerts backpressure; an error stops the intake of new work.
    fn poll_ready(&mut self, cx: &mut Context<'_>) -> (answer: Poll<Result<(), Self::Error>>)
        ensures
            old(self).may_answer(final(self), answer),
    ;

    /// Builds the unit of work for one message. Called only after
    /// `poll_ready` has returned `Ready(Ok(()))`.
    fn handle(&mut self, message: M, cx: &mut Context<'_>) -> Self::Future;
}

/// A reference to a local or remote actor.
pub trait Ref<A> {
    /// Enqueues `msg` and returns the future of its reply.
    fn send<M>(&mut self, msg: M) -> SendFuture<M, A::Response, A::Error> where
        A: Process<M>,
        M: Message,
    ;

    /// Lets a caller observe backpressure without committing a message.
    fn poll_ready<M>(&mut self) -> Poll<Result<(), A::Error>> where A: Process<M>, M: Message;
}

/// The largest inbox that can be had: the bounded queue behind it counts
/// its free slots in a machine word that keeps two bits for itself.
pub const MAX_INBOX_SIZE: usize = usize::MAX >> 2;

/// Configuration for a process.
#[derive(Clone, Copy, Debug)]
pub struct Settings {
    max_in_flight: usize,
    inbox_size: usize,
}

impl Settings {
    /// The cap on concurrently outstanding units of work.
    pub closed spec fn spec_max_in_flight(&self) -> usize {
        self.max_in_flight
    }

    /// The number of envelopes that the inbox buffers.
    pub closed spec fn spec_inbox_size(&self) -> usize {
        self.inbox_size
    }

    /// Both limits are positive, and the inbox is one that can be had.
    pub open spec fn wf(&self) -> bool {
        self.spec_max_in_flight() > 0 && 0 < self.spec_inbox_size() <= MAX_INBOX_SIZE
    }

    /// Settings with the given limits; `None` unless both are positive and
    /// the inbox size is at most `MAX_INBOX_SIZE`.
    pub fn new(max_in_flight: usize, inbox_size: usize) -> (r: Option<Settings>)
        ensures
            r is Some <==> (max_in_flight > 0 && 0 < inbox_size <= MAX_INBOX_SIZE),
            r is Some ==> r->Some_0.wf() && r->Some_0.spec_max_in_flight() == max_in_flight
                && r->Some_0.spec_inbox_size() == inbox_size,
    {
        if max_in_flight > 0 && inbox_size > 0 && inbox_size <= MAX_INBOX_SIZE {
            Some(Settings { max_in_flight, inbox_size })
        } else {
            None
        }
    }

    #[verifier::when_used_as_spec(spec_max_in_flight)]
    pub fn max_in_flight(&self) -> (r: usize)
        ensures
            r == self.spec_max_in_flight(),
    {
        self.max_in_flight
    }

    #[verifier::when_used_as_spec(spec_inbox_size)]
    pub fn inbox_size(&self) -> (r: usize)
        ensures
            r == self.spec_inbox_size(),
    {
        self.inbox_size
    }
}

} // verus!
