//! The driver of one actor: its inbox, its in-flight work and the reply paths.
use vstd::prelude::*;
use crate::Message;
use crate::process::Poll;
use crate::process::Process;
use crate::process::Settings;
use crate::process::MAX_INBOX_SIZE;
use core::future::Future;
use core::task::Waker;
use tokio_sync::mpsc;
use tokio_sync::oneshot;

verus! {

/// `core::task::Waker`, carried through as an opaque value.
#[verifier::external_type_specification]
#[verifier::external_body]
pub struct ExWaker(core::task::Waker);

/// `tokio_sync::oneshot::Sender`, the sending half of a single-use channel.
/// Opaque: nothing is known of what its receiver has done.
#[verifier::external_type_specification]
#[verifier::external_body]
#[verifier::reject_recursive_types(T)]
pub struct ExReplySender<T>(tokio_sync::oneshot::Sender<T>);

/// `tokio_sync::oneshot::Receiver`, the receiving half of a single-use
/// channel. Opaque.
#[verifier::external_type_specification]
#[verifier::external_body]
#[verifier::reject_recursive_types(T)]
pub struct ExReplyReceiver<T>(tokio_sync::oneshot::Receiver<T>);

/// `tokio_sync::oneshot::error::RecvError`, which the receiving half
/// resolves to when its sender is dropped. Opaque, and declared only because
/// the receiver's `Future` impl names it.
#[verifier::external_type_specification]
#[verifier::external_body]
pub struct ExReplyRecvError(tokio_sync::oneshot::error::RecvError);

/// `tokio_sync::mpsc::Receiver`, the consuming end of a bounded queue.
/// Opaque: what it holds is up to the senders.
#[verifier::external_type_specification]
#[verifier::external_body]
#[verifier::reject_recursive_types(T)]
pub struct ExInboxReceiver<T>(tokio_sync::mpsc::Receiver<T>);

/// `tokio_sync::mpsc::Sender`, a producing end of a bounded queue. Opaque.
#[verifier::external_type_specification]
#[verifier::external_body]
#[verifier::reject_recursive_types(T)]
pub struct ExInboxSender<T>(tokio_sync::mpsc::Sender<T>);

/// `tokio_sync::oneshot::channel`: a fresh single-use channel. Nothing is
/// claimed of the two halves.
#[verifier::external_body]
fn oneshot_channel<T>() -> (halves: (oneshot::Sender<T>, oneshot::Receiver<T>)) {
    oneshot::channel()
}

/// `tokio_sync::oneshot::Sender::send`: consumes the sender. When the
/// receiving half is already gone the value comes back as it was given;
/// whether it is gone is the other side's doing, so nothing says which case
/// occurs.
#[verifier::external_body]
fn oneshot_send<T>(tx: oneshot::Sender<T>, value: T) -> (undelivered: Result<(), T>)
    ensures
        match undelivered {
            Ok(_) => true,
            Err(back) => back == value,
        },
{
    tx.send(value)
}

/// `tokio_sync::oneshot::Sender::is_closed`: whether the receiving half has
/// been dropped or closed. Registers no wake-up. The answer depends on the
/// other side, so nothing is claimed of it.
#[verifier::external_body]
fn oneshot_is_closed<T>(tx: &oneshot::Sender<T>) -> (closed: bool) {
    tx.is_closed()
}

/// `tokio_sync::mpsc::channel`: a bounded queue that buffers `buffer`
/// values. The outside function panics on a zero bound, and its semaphore
/// on more permits than `usize::MAX >> 2`; `requires` leaves both out.
/// Nothing is claimed of the two halves.
#[verifier::external_body]
fn inbox_channel<T>(buffer: usize) -> (halves: (mpsc::Sender<T>, mpsc::Receiver<T>))
    requires
        0 < buffer <= MAX_INBOX_SIZE,
{
    mpsc::channel(buffer)
}

/// Why an inbox did not take a value, with the value.
pub enum Refused<T> {
    /// The inbox holds as many values as it buffers.
    Full(T),
    /// The consuming end is closed or gone.
    Closed(T),
}

/// `tokio_sync::mpsc::Sender::try_send`: enqueues without waiting. A refusal
/// hands the value back as it was given and tells a closed queue from a full
/// one, as the outside error does. Which of the three comes depends on the
/// queue, so nothing says when.
#[verifier::external_body]
fn inbox_try_send<T>(tx: &mut mpsc::Sender<T>, value: T) -> (refused: Result<(), Refused<T>>)
    ensures
        match refused {
            Ok(_) => true,
            Err(Refused::Full(back)) => back == value,
            Err(Refused::Closed(back)) => back == value,
        },
{
    match tx.try_send(value) {
        Ok(()) => Ok(()),
        Err(e) => if e.is_closed() {
            Err(Refused::Closed(e.into_inner()))
        } else {
            Err(Refused::Full(e.into_inner()))
        },
    }
}

/// `tokio_sync::mpsc::Receiver::poll_recv`, with a task context made from
/// this context's waker: the next queued value, `Ready(None)` once the queue
/// is closed and empty, `Pending` (with a wake-up registered) otherwise.
/// Which of them comes depends on the senders, so nothing is claimed.
#[verifier::external_body]
fn inbox_poll_recv<T>(rx: &mut mpsc::Receiver<T>, cx: &mut Context<'_>) -> (polled: Poll<Option<T>>) {
    let mut task = core::task::Context::from_waker(cx.waker);
    match rx.poll_recv(&mut task) {
        core::task::Poll::Ready(item) => Poll::Ready(item),
        core::task::Poll::Pending => Poll::Pending,
    }
}

/// `tokio_sync::mpsc::Receiver::close`: no sender can enqueue after it;
/// what is buffered can still be received.
#[verifier::external_body]
fn inbox_close<T>(rx: &mut mpsc::Receiver<T>) {
    rx.close()
}

/// `core::future::Future::poll` on a pinned `work`, with a task context made
/// from this context's waker. What comes back is the future's own doing, so
/// nothing is claimed of it. A future must not be polled again once it has
/// returned `Ready`: the one caller drops it then.
#[verifier::external_body]
fn poll_work<F: Future + Unpin>(work: &mut F, cx: &mut Context<'_>) -> (polled: Poll<F::Output>) {
    let mut task = core::task::Context::from_waker(cx.waker);
    match core::pin::Pin::new(work).poll(&mut task) {
        core::task::Poll::Ready(output) => Poll::Ready(output),
        core::task::Poll::Pending => Poll::Pending,
    }
}

/// `core::task::Waker::wake_by_ref`: asks the executor to poll the task
/// behind the waker again. It returns nothing, and nothing is claimed.
#[verifier::external_body]
fn wake_task(waker: &Waker) {
    waker.wake_by_ref()
}

/// The task that drives the actor, as far as handlers need it.
pub struct Context<'a> {
    // used to wake the actor's task.
    waker: &'a Waker,
}

impl<'a> Context<'a> {
    /// The waker that the context was made from.
    pub closed spec fn spec_waker(&self) -> &'a Waker {
        self.waker
    }

    /// A context that wakes the task behind `waker`.
    pub fn from_waker(waker: &'a Waker) -> (cx: Context<'a>)
        ensures
            cx.spec_waker() == waker,
    {
        Context { waker }
    }

    /// Returns a reference to the `Waker` for the current task.
    #[inline]
    #[verifier::when_used_as_spec(spec_waker)]
    pub fn waker(&self) -> (w: &'a Waker)
        ensures
            w == self.spec_waker(),
    {
        self.waker
    }
}

/// The three ways in which a message fails to yield a response.
#[derive(Debug)]
pub enum HandleErrorInner<M, E> {
    /// The cap on in-flight work was reached; the message comes back.
    InFlightLimit { max: usize, msg: M },
    /// The inbox closed before the message was dispatched; it comes back.
    Disconnected(M),
    /// The handler's own failure, passed through.
    Inner(E),
}

/// Why a message yielded no response. The local rejections hold the
/// message, so that the caller can send it again.
#[derive(Debug)]
pub struct HandleError<M, E> {
    pub kind: HandleErrorInner<M, E>,
}

impl<M, E> HandleError<M, E> {
    /// The message that a caller may send again, where the error holds one.
    pub open spec fn spec_message(&self) -> Option<M> {
        match self.kind {
            HandleErrorInner::InFlightLimit { max, msg } => Some(msg),
            HandleErrorInner::Disconnected(msg) => Some(msg),
            HandleErrorInner::Inner(_) => None,
        }
    }

    pub fn inner(inner: E) -> (r: Self)
        ensures
            r.kind == HandleErrorInner::<M, E>::Inner(inner),
    {
        Self { kind: HandleErrorInner::Inner(inner) }
    }

    pub fn max_in_flight(msg: M, max: usize) -> (r: Self)
        ensures
            r.kind == (HandleErrorInner::<M, E>::InFlightLimit { max, msg }),
    {
        Self { kind: HandleErrorInner::InFlightLimit { max, msg } }
    }

    pub fn disconnected(msg: M) -> (r: Self)
        ensures
            r.kind == HandleErrorInner::<M, E>::Disconnected(msg),
    {
        Self { kind: HandleErrorInner::Disconnected(msg) }
    }

    /// Gives the rejected message back for a retry; `None` for a handler's
    /// failure, which holds none.
    pub fn into_message(self) -> (r: Option<M>)
        ensures
            r == self.spec_message(),
    {
        match self.kind {
            HandleErrorInner::InFlightLimit { max, msg } => Some(msg),
            HandleErrorInner::Disconnected(msg) => Some(msg),
            HandleErrorInner::Inner(_) => None,
        }
    }
}

/// What a caller receives for a handler's result: a response as it is, a
/// failure as `Inner`.
pub open spec fn reply_of<M, R, E>(item: Result<R, E>) -> Result<R, HandleError<M, E>> {
    match item {
        Ok(response) => Ok(response),
        Err(e) => Err(HandleError { kind: HandleErrorInner::Inner(e) }),
    }
}

/// The single-use reply path from the driver back to one caller.
#[verifier::reject_recursive_types(M)]
#[verifier::reject_recursive_types(R)]
#[verifier::reject_recursive_types(E)]
pub struct Responder<M, R, E> {
    tx: oneshot::Sender<Result<R, HandleError<M, E>>>,
}

/// The caller's end of a reply path.
#[verifier::reject_recursive_types(M)]
#[verifier::reject_recursive_types(R)]
#[verifier::reject_recursive_types(E)]
pub struct SendFuture<M, R, E> {
    rx: oneshot::Receiver<Result<R, HandleError<M, E>>>,
}

impl<M, R, E> SendFuture<M, R, E> {
    /// Hands out the receiving half that this end holds, which resolves
    /// once the driver has delivered an outcome.
    pub fn into_receiver(self) -> (rx: oneshot::Receiver<Result<R, HandleError<M, E>>>)
        ensures rx == self.receiver(),
    { self.rx }
}

/// One terminal outcome on its way to one caller.
#[verifier::reject_recursive_types(M)]
#[verifier::reject_recursive_types(R)]
#[verifier::reject_recursive_types(E)]
pub struct Delivery<M, R, E> {
    pub tx: Responder<M, R, E>,
    pub reply: Result<R, HandleError<M, E>>,
}

impl<M, R, E> Responder<M, R, E> {
    /// A fresh reply path: the driver's half and the caller's.
    pub fn channel() -> (Responder<M, R, E>, SendFuture<M, R, E>) {
        let (tx, rx) = oneshot_channel();
        (Responder { tx }, SendFuture { rx })
    }

    /// Whether the caller has abandoned the reply path. Never blocks.
    pub fn is_closed(&self) -> bool {
        oneshot_is_closed(&self.tx)
    }

    /// The delivery that answers the caller with the handler's result.
    pub fn reply(self, item: Result<R, E>) -> (d: Delivery<M, R, E>)
        ensures
            d.tx == self,
            d.reply == reply_of::<M, R, E>(item),
    {
        let reply = match item {
            Ok(response) => Ok(response),
            Err(e) => Err(HandleError::inner(e)),
        };
        Delivery { tx: self, reply }
    }

    /// The delivery that turns `msg` away because `max` units of work are
    /// already in flight. The message travels back untouched.
    pub fn rejection(self, msg: M, max: usize) -> (d: Delivery<M, R, E>)
        ensures
            d.tx == self,
            d.reply == Err::<R, HandleError<M, E>>(
                HandleError { kind: HandleErrorInner::InFlightLimit { max, msg } },
            ),
    {
        Delivery { tx: self, reply: Err(HandleError::max_in_flight(msg, max)) }
    }

    /// Sends the handler's result: what `reply` makes of it. A caller that
    /// is gone is no fault.
    pub fn respond(self, item: Result<R, E>) {
        let _ = self.reply(item).send();
    }

    /// Sends the capacity rejection: what `rejection` makes of `msg` and
    /// `max`. A caller that is gone is no fault.
    pub fn max_in_flight(self, msg: M, max: usize) {
        let _ = self.rejection(msg, max).send();
    }
}

impl<M, R, E> Delivery<M, R, E> {
    /// Sends the outcome. Returns what could not be delivered because the
    /// caller had gone: exactly the outcome that was to be sent.
    pub fn send(self) -> (undelivered: Option<Result<R, HandleError<M, E>>>)
        ensures
            undelivered is Some ==> undelivered == Some(self.reply),
    {
        let tx = self.tx.tx;
        let reply = self.reply;
        let attempt = oneshot_send(tx, reply);
        undelivered(attempt)
    }
}

/// An accepted message with the reply path to its caller.
#[verifier::reject_recursive_types(M)]
#[verifier::reject_recursive_types(R)]
#[verifier::reject_recursive_types(E)]
pub struct Envelope<M, R, E> {
    pub msg: M,
    pub tx: Responder<M, R, E>,
}

/// What became of an envelope that was offered to an inbox.
#[verifier::reject_recursive_types(M)]
#[verifier::reject_recursive_types(R)]
#[verifier::reject_recursive_types(E)]
pub enum Offer<M, R, E> {
    /// The envelope is in the inbox.
    Queued,
    /// The inbox is full: the envelope comes back for a later offer.
    Full(Envelope<M, R, E>),
    /// The inbox is closed: the message goes back to its caller as
    /// disconnected.
    Closed(Delivery<M, R, E>),
}

impl<M, R, E> Envelope<M, R, E> {
    /// The delivery that hands the envelope's message back to its own caller
    /// as disconnected.
    pub open spec fn disconnected(self) -> Delivery<M, R, E> {
        Delivery {
            tx: self.tx,
            reply: Err(HandleError { kind: HandleErrorInner::Disconnected(self.msg) }),
        }
    }

    /// Wraps `msg` with a fresh reply path and hands out the caller's end.
    pub fn new(msg: M) -> (r: (Envelope<M, R, E>, SendFuture<M, R, E>))
        ensures
            r.0.msg == msg,
    {
        let (tx, rx) = Responder::channel();
        (Envelope { msg, tx }, rx)
    }

    /// The delivery that hands the message back because the inbox was closed
    /// before it could be dispatched.
    pub fn disconnect(self) -> (d: Delivery<M, R, E>)
        ensures
            d == self.disconnected(),
    {
        Delivery { tx: self.tx, reply: Err(HandleError::disconnected(self.msg)) }
    }

    /// Offers the envelope to an inbox without waiting. A full inbox gives
    /// the envelope back untouched; a closed one turns it into the delivery
    /// that tells its caller so and returns the message.
    pub fn offer(self, inbox: &mut mpsc::Sender<Envelope<M, R, E>>) -> (r: Offer<M, R, E>)
        ensures
            match r {
                Offer::Queued => true,
                Offer::Full(back) => back == self,
                Offer::Closed(d) => d == self.disconnected(),
            },
    {
        let attempt = inbox_try_send(inbox, self);
        Offer::from_attempt(attempt)
    }
}

/// In-flight work: a unit of work and the reply path that waits for it.
#[verifier::reject_recursive_types(M)]
#[verifier::reject_recursive_types(R)]
#[verifier::reject_recursive_types(E)]
pub struct Processing<F, M, R, E> {
    /// The unit of work that the handler built for the message.
    pub future: F,
    /// The reply path of the caller that waits for the result.
    pub tx: Responder<M, R, E>,
}

/// What one advance of an entry came to.
#[verifier::reject_recursive_types(M)]
#[verifier::reject_recursive_types(R)]
#[verifier::reject_recursive_types(E)]
pub enum Progress<F, M, R, E> {
    /// The caller is gone: the work is dropped and nothing is sent.
    Cancelled,
    /// The work is not done: the entry stays.
    Waiting(Processing<F, M, R, E>),
    /// The work is done: its result goes to the caller.
    Finished(Delivery<M, R, E>),
}

/// Whether `progress` is something that one advance of `entry` can come to,
/// whatever its caller and its work answer: the entry is dropped, or it
/// stays with its own reply path, or its own reply path gets a response or
/// the handler's failure, never a local rejection.
pub open spec fn may_become<F, M, R, E>(
    entry: Processing<F, M, R, E>,
    progress: Progress<F, M, R, E>,
) -> bool {
    match progress {
        Progress::Cancelled => true,
        Progress::Waiting(stays) => stays.tx == entry.tx,
        Progress::Finished(d) => d.tx == entry.tx && match d.reply {
            Ok(_) => true,
            Err(e) => e.kind is Inner,
        },
    }
}

/// The entries that stay in flight after an advance with these outcomes,
/// one outcome for each entry that was in flight: those that are still
/// waiting, in their order.
pub open spec fn kept<F, M, R, E>(outcomes: Seq<Progress<F, M, R, E>>) -> Seq<
    Processing<F, M, R, E>,
>
    decreases outcomes.len(),
{
    if outcomes.len() == 0 {
        Seq::empty()
    } else {
        match outcomes.last() {
            Progress::Waiting(stays) => kept(outcomes.drop_last()).push(stays),
            _ => kept(outcomes.drop_last()),
        }
    }
}

/// What an advance comes to for an entry whose caller was found gone
/// (`closed`) or, if not, whose work answered `polled`. Cancellation is
/// looked at first, so a closed entry never yields a delivery.
pub open spec fn progress_of<F, M, R, E>(
    entry: Processing<F, M, R, E>,
    closed: bool,
    polled: Poll<Result<R, E>>,
) -> Progress<F, M, R, E> {
    if closed {
        Progress::Cancelled
    } else {
        match polled {
            Poll::Pending => Progress::Waiting(entry),
            Poll::Ready(item) => Progress::Finished(
                Delivery { tx: entry.tx, reply: reply_of::<M, R, E>(item) },
            ),
        }
    }
}

impl<F, M, R, E> Processing<F, M, R, E> where F: Future<Output = Result<R, E>> + Unpin {
    /// Decides what becomes of the entry, given whether its caller is gone
    /// and what its work answered. Where the caller is gone the answer of
    /// the work is not looked at.
    pub fn resolve(self, closed: bool, polled: Poll<Result<R, E>>) -> (r: Progress<F, M, R, E>)
        ensures
            r == progress_of(self, closed, polled),
    {
        if closed {
            Progress::Cancelled
        } else {
            match polled {
                Poll::Pending => Progress::Waiting(self),
                Poll::Ready(item) => Progress::Finished(self.tx.reply(item)),
            }
        }
    }

    /// Advances the entry once: first looks whether the caller is gone, and
    /// only if not drives the work. Whatever the two answer, the entry's own
    /// reply path is the one that stays or delivers, and a delivery holds a
    /// response or the handler's failure, never a local rejection.
    pub fn poll(self, cx: &mut Context<'_>) -> (r: Progress<F, M, R, E>)
        ensures
            may_become(self, r),
    {
        let mut entry = self;
        if entry.tx.is_closed() {
            return entry.resolve(true, Poll::Pending);
        }
        let polled = poll_work(&mut entry.future, cx);
        entry.resolve(false, polled)
    }
}

impl<M, R, E> SendFuture<M, R, E> {
    /// The receiving half that this end of the reply path holds.
    pub closed spec fn receiver(self) -> oneshot::Receiver<Result<R, HandleError<M, E>>> {
        self.rx
    }
}

/// What an attempt to send leaves undelivered: nothing where the value was
/// taken, the value itself where it came back.
pub open spec fn undelivered_of<T>(attempt: Result<(), T>) -> Option<T> {
    match attempt {
        Ok(_) => None,
        Err(back) => Some(back),
    }
}

/// Reads the answer to an attempt to send: what came back, if anything did.
pub fn undelivered<T>(attempt: Result<(), T>) -> (left: Option<T>)
    ensures
        left == undelivered_of(attempt),
{
    match attempt {
        Ok(()) => None,
        Err(back) => Some(back),
    }
}

/// What becomes of an envelope for each answer of an inbox to the attempt
/// to enqueue it: queued where it was taken, handed back untouched where the
/// inbox was full, and turned into the delivery that returns its message to
/// its caller as disconnected where the inbox was closed.
pub open spec fn offer_of<M, R, E>(attempt: Result<(), Refused<Envelope<M, R, E>>>) -> Offer<
    M,
    R,
    E,
> {
    match attempt {
        Ok(_) => Offer::Queued,
        Err(Refused::Full(back)) => Offer::Full(back),
        Err(Refused::Closed(back)) => Offer::Closed(back.disconnected()),
    }
}

impl<M, R, E> Offer<M, R, E> {
    /// Decides what becomes of an envelope, given what the inbox answered
    /// to the attempt to enqueue it.
    pub fn from_attempt(attempt: Result<(), Refused<Envelope<M, R, E>>>) -> (r: Offer<M, R, E>)
        ensures
            r == offer_of(attempt),
    {
        match attempt {
            Ok(()) => Offer::Queued,
            Err(Refused::Full(back)) => Offer::Full(back),
            Err(Refused::Closed(back)) => Offer::Closed(back.disconnect()),
        }
    }
}

/// Where the driver stands.
#[derive(Clone, Copy, Debug, PartialEq, Eq, Structural)]
pub enum Phase {
    /// Normal operation.
    Active,
    /// No caller can enqueue any more; work may still be outstanding.
    Draining,
    /// The inbox is closed and empty and no work is left. Terminal.
    Terminated,
}

/// What the driver's task does after one scheduling pass.
#[derive(Clone, Copy, Debug, PartialEq, Eq, Structural)]
pub enum Turn {
    /// Something changed: make another pass at once.
    Again,
    /// Nothing more can be done now: yield until woken.
    Suspend,
    /// The driver has terminated: its future resolves.
    Done,
}

/// What the handler's readiness permits.
#[derive(Clone, Copy, Debug, PartialEq, Eq, Structural)]
pub enum Gate {
    /// Ready: the next envelope may be taken from the inbox.
    Take,
    /// Not ready yet: the inbox is left alone.
    Suspend,
    /// The readiness check failed: no new work is accepted from now on.
    Stop,
}

/// What the handler's answer to a readiness check permits.
pub open spec fn gate_of<E>(readiness: Poll<Result<(), E>>) -> Gate {
    match readiness {
        Poll::Pending => Gate::Suspend,
        Poll::Ready(Ok(_)) => Gate::Take,
        Poll::Ready(Err(_)) => Gate::Stop,
    }
}

/// Reads the handler's answer to a readiness check: only `Ready(Ok(()))` lets the inbox be touched.
pub fn gate<E>(readiness: &Poll<Result<(), E>>) -> (g: Gate)
    ensures
        g == gate_of(*readiness),
{
    match readiness {
        Poll::Pending => Gate::Suspend,
        Poll::Ready(Ok(_)) => Gate::Take,
        Poll::Ready(Err(_)) => Gate::Stop,
    }
}

/// The position of a phase in the order in which a driver passes through
/// them.
pub open spec fn phase_rank(phase: Phase) -> nat {
    match phase {
        Phase::Active => 0,
        Phase::Draining => 1,
        Phase::Terminated => 2,
    }
}

/// A running process
#[verifier::reject_recursive_types(A)]
#[verifier::reject_recursive_types(M)]
pub struct Running<A, M> where A: Process<M>, M: Message {
    /// The process's behavior.
    actor: A,
    /// Recieves incoming messages.
    inbox: mpsc::Receiver<Envelope<M, A::Response, A::Error>>,
    /// Configures the process's runtime characteristics.
    settings: Settings,
    /// Work in flight, oldest dispatch first.
    processing: Vec<Processing<A::Future, M, A::Response, A::Error>>,
    phase: Phase,
    /// The inbox has answered that it is closed and empty.
    drained: bool,
}

impl<A, M> Running<A, M> where A: Process<M>, M: Message {
    /// The handler's state.
    pub closed spec fn actor(&self) -> A {
        self.actor
    }

    /// The consuming end of the inbox.
    pub closed spec fn inbox(&self) -> mpsc::Receiver<Envelope<M, A::Response, A::Error>> {
        self.inbox
    }

    pub closed spec fn spec_settings(&self) -> Settings {
        self.settings
    }

    pub closed spec fn spec_phase(&self) -> Phase {
        self.phase
    }

    /// Whether the inbox has answered that it is closed and empty.
    pub closed spec fn drained(&self) -> bool {
        self.drained
    }

    /// The work in flight, oldest dispatch first: each unit of work with the
    /// reply path that waits for it.
    pub closed spec fn entries(&self) -> Seq<Processing<A::Future, M, A::Response, A::Error>> {
        self.processing@
    }

    /// The reply paths of the work in flight, oldest dispatch first.
    pub open spec fn waiting(&self) -> Seq<Responder<M, A::Response, A::Error>> {
        Seq::new(self.entries().len(), |i: int| self.entries()[i].tx)
    }

    /// The units of work in flight, oldest dispatch first.
    pub open spec fn work(&self) -> Seq<A::Future> {
        Seq::new(self.entries().len(), |i: int| self.entries()[i].future)
    }

    /// The number of units of work in flight.
    pub open spec fn spec_in_flight(&self) -> nat {
        self.entries().len()
    }

    /// The driver's invariant: limits that can be had, never more work in
    /// flight than the cap, and phases that agree with the inbox and the
    /// work left.
    pub open spec fn wf(&self) -> bool {
        &&& self.spec_settings().wf()
        &&& self.spec_in_flight() <= self.spec_settings().spec_max_in_flight()
        &&& (self.spec_phase() is Active ==> !self.drained())
        &&& (self.spec_phase() is Terminated ==> self.drained() && self.spec_in_flight() == 0)
    }

    /// The rejection that a taken envelope meets, if any: `Disconnected`
    /// once the driver is past `Active`, `InFlightLimit` with the cap when
    /// as many units of work as the cap allows are in flight, none
    /// otherwise. Either rejection holds the envelope's own message and goes
    /// to its own reply path.
    pub open spec fn rejection_of(&self, envelope: Envelope<M, A::Response, A::Error>) -> Option<
        Delivery<M, A::Response, A::Error>,
    > {
        if !(self.spec_phase() is Active) {
            Some(envelope.disconnected())
        } else if self.spec_in_flight() >= self.spec_settings().spec_max_in_flight() {
            Some(
                Delivery {
                    tx: envelope.tx,
                    reply: Err(
                        HandleError {
                            kind: HandleErrorInner::InFlightLimit {
                                max: self.spec_settings().spec_max_in_flight(),
                                msg: envelope.msg,
                            },
                        },
                    ),
                },
            )
        } else {
            None
        }
    }

    /// Whether `after` is this driver once it has decided on `envelope`.
    /// A rejected envelope leaves the handler and every entry in flight as
    /// they were. A dispatched one leaves every entry in flight as it was,
    /// work and reply path, and adds one entry behind them: the work that
    /// the handler built, with the envelope's reply path. Settings, phase
    /// and inbox stay either way.
    pub open spec fn dispatches_to(
        &self,
        envelope: Envelope<M, A::Response, A::Error>,
        after: Self,
    ) -> bool {
        &&& after.spec_settings() == self.spec_settings()
        &&& after.spec_phase() == self.spec_phase()
        &&& after.drained() == self.drained()
        &&& after.inbox() == self.inbox()
        &&& self.rejection_of(envelope) is Some ==> after.entries() == self.entries()
            && after.actor() == self.actor()
        &&& self.rejection_of(envelope) is None ==> {
            &&& after.entries().len() == self.entries().len() + 1
            &&& after.entries().drop_last() == self.entries()
            &&& after.entries().last().tx == envelope.tx
        }
    }

    /// Whether `after` is this driver once each entry in flight has come to
    /// the outcome of the same place in `outcomes`: the entries that are
    /// still waiting stay, in their order, and all others have left.
    pub open spec fn advanced_by(
        &self,
        outcomes: Seq<Progress<A::Future, M, A::Response, A::Error>>,
        after: Self,
    ) -> bool {
        &&& outcomes.len() == self.entries().len()
        &&& forall|k: int|
            0 <= k < outcomes.len() ==> may_become(self.entries()[k], #[trigger] outcomes[k])
        &&& after.entries() == kept(outcomes)
    }

    /// Whether `after` is this driver once the work in flight has been
    /// advanced: every entry has come to an outcome of its own advance, the
    /// entries that are still waiting stay in their order with their own
    /// reply paths, those that were cancelled or have finished are gone, and
    /// nothing else changes.
    pub open spec fn advances_to(&self, after: Self) -> bool {
        &&& after.spec_settings() == self.spec_settings()
        &&& after.spec_phase() == self.spec_phase()
        &&& after.drained() == self.drained()
        &&& after.inbox() == self.inbox()
        &&& after.actor() == self.actor()
        &&& after.spec_in_flight() <= self.spec_in_flight()
        &&& exists|outcomes: Seq<Progress<A::Future, M, A::Response, A::Error>>|
            self.advanced_by(outcomes, after)
    }

    /// Whether `after` and `sent` are what becomes of this driver, from
    /// which one entry has been taken at place `at` to be advanced, once
    /// that entry has come to `progress`: an entry that is still waiting
    /// goes back to its place and nothing is sent; a cancelled one stays out
    /// and nothing is sent; a finished one stays out and its delivery is
    /// due. Nothing else changes.
    pub open spec fn settles_to(
        &self,
        at: int,
        progress: Progress<A::Future, M, A::Response, A::Error>,
        after: Self,
        sent: Option<Delivery<M, A::Response, A::Error>>,
    ) -> bool {
        &&& after.spec_settings() == self.spec_settings()
        &&& after.spec_phase() == self.spec_phase()
        &&& after.drained() == self.drained()
        &&& after.inbox() == self.inbox()
        &&& after.actor() == self.actor()
        &&& match progress {
            Progress::Waiting(entry) => after.entries() == self.entries().insert(at, entry)
                && sent is None,
            Progress::Cancelled => after.entries() == self.entries() && sent is None,
            Progress::Finished(d) => after.entries() == self.entries() && sent == Some(d),
        }
    }

    /// Whether `after` is this driver once its handler has been asked
    /// whether it is ready and has answered `readiness`: the handler's state
    /// is one that the handler admits with that answer, and nothing else
    /// has changed.
    pub open spec fn asks_to(&self, readiness: Poll<Result<(), A::Error>>, after: Self) -> bool {
        &&& after.spec_settings() == self.spec_settings()
        &&& after.spec_phase() == self.spec_phase()
        &&& after.drained() == self.drained()
        &&& after.inbox() == self.inbox()
        &&& after.entries() == self.entries()
        &&& self.actor().may_answer(&after.actor(), readiness)
    }

    /// Whether `after` differs from this driver in the inbox at most: what
    /// polling the inbox may change.
    pub open spec fn polls_to(&self, after: Self) -> bool {
        &&& after.spec_settings() == self.spec_settings()
        &&& after.spec_phase() == self.spec_phase()
        &&& after.drained() == self.drained()
        &&& after.actor() == self.actor()
        &&& after.entries() == self.entries()
    }

    /// Whether `after` and `turn` are what closing out this driver gives:
    /// with no work left it terminates, otherwise it drains and waits.
    pub open spec fn concludes_to(&self, after: Self, turn: Turn) -> bool {
        &&& after.spec_settings() == self.spec_settings()
        &&& after.drained()
        &&& after.inbox() == self.inbox()
        &&& after.actor() == self.actor()
        &&& after.entries() == self.entries()
        &&& self.spec_in_flight() == 0 ==> turn is Done && after.spec_phase() is Terminated
        &&& self.spec_in_flight() > 0 ==> turn is Suspend && after.spec_phase() is Draining
    }

    /// Whether `after` and `turn` are what this driver makes of the inbox's
    /// answer `polled`. `Pending` leaves the driver as it was and suspends
    /// it. A closed and empty inbox ends the intake and closes the driver
    /// out. An envelope meets the dispatch decision, and another pass is
    /// due.
    pub open spec fn accepts_to(
        &self,
        polled: Poll<Option<Envelope<M, A::Response, A::Error>>>,
        after: Self,
        turn: Turn,
    ) -> bool {
        match polled {
            Poll::Pending => turn is Suspend && after == *self,
            Poll::Ready(None) => self.concludes_to(after, turn),
            Poll::Ready(Some(envelope)) => turn is Again && self.dispatches_to(envelope, after),
        }
    }

    /// Whether `after` and `turn` are what this driver makes of the
    /// handler's answer `readiness`. Not ready: the driver suspends and
    /// stays exactly as it was, inbox included. Failed: the inbox is closed
    /// to the callers and the draining starts, with handler and work in
    /// flight as they were. Ready: the inbox is polled, and its answer is
    /// accepted.
    pub open spec fn proceeds_to(
        &self,
        readiness: Poll<Result<(), A::Error>>,
        after: Self,
        turn: Turn,
    ) -> bool {
        match gate_of(readiness) {
            Gate::Suspend => turn is Suspend && after == *self,
            Gate::Stop => {
                &&& turn is Again
                &&& after.spec_settings() == self.spec_settings()
                &&& after.spec_phase() is Draining
                &&& !after.drained()
                &&& after.entries() == self.entries()
                &&& after.actor() == self.actor()
            },
            Gate::Take => exists|
                polled: Poll<Option<Envelope<M, A::Response, A::Error>>>,
                polling: Self,
            |
                self.polls_to(polling) && #[trigger] polling.accepts_to(polled, after, turn),
        }
    }

    /// Whether `after` and `turn` are what a pass of this active driver
    /// gives when the handler answers `readiness`: first the work in flight
    /// is advanced, then the handler is asked, and only then the driver
    /// proceeds on its answer.
    pub open spec fn passes_on(
        &self,
        readiness: Poll<Result<(), A::Error>>,
        after: Self,
        turn: Turn,
    ) -> bool {
        exists|advanced: Self, asked: Self|
            self.advances_to(advanced) && #[trigger] advanced.asks_to(readiness, asked)
                && asked.proceeds_to(
                readiness,
                after,
                turn,
            )
    }

    /// Whether `after` and `turn` are what a pass of this draining driver
    /// gives: first the work in flight is advanced; then a driver whose
    /// inbox is closed and empty is closed out, and any other has its inbox
    /// polled and accepts the answer. The handler is not asked.
    pub open spec fn drains_to(&self, after: Self, turn: Turn) -> bool {
        exists|advanced: Self| #[trigger]
            self.advances_to(advanced) && if advanced.drained() {
                advanced.concludes_to(after, turn)
            } else {
                exists|
                    polled: Poll<Option<Envelope<M, A::Response, A::Error>>>,
                    polling: Self,
                |
                    advanced.polls_to(polling) && #[trigger] polling.accepts_to(polled, after, turn)
            }
    }

    /// Whether `after` and `turn` are what one scheduling pass of this
    /// driver gives.
    pub open spec fn passes_to(&self, after: Self, turn: Turn) -> bool {
        match self.spec_phase() {
            Phase::Terminated => turn is Done && after == *self,
            Phase::Active => exists|readiness: Poll<Result<(), A::Error>>| #[trigger]
                self.passes_on(readiness, after, turn),
            Phase::Draining => self.drains_to(after, turn),
        }
    }

    /// A driver for `actor` that consumes `inbox`, with nothing in flight.
    pub fn new(
        actor: A,
        inbox: mpsc::Receiver<Envelope<M, A::Response, A::Error>>,
        settings: Settings,
    ) -> (r: Self)
        requires
            settings.wf(),
        ensures
            r.wf(),
            r.actor() == actor,
            r.inbox() == inbox,
            r.spec_settings() == settings,
            r.spec_phase() is Active,
            r.entries() == Seq::<Processing<A::Future, M, A::Response, A::Error>>::empty(),
    {
        let r = Running {
            actor,
            inbox,
            settings,
            processing: Vec::new(),
            phase: Phase::Active,
            drained: false,
        };
        proof {
            assert(r.entries() =~= Seq::<Processing<A::Future, M, A::Response, A::Error>>::empty());
        }
        r
    }

    /// A driver for `actor` with an inbox of its own, bounded by the
    /// settings' inbox size, and the producing end of that inbox.
    pub fn spawn(actor: A, settings: Settings) -> (r: (
        Self,
        mpsc::Sender<Envelope<M, A::Response, A::Error>>,
    ))
        requires
            settings.wf(),
        ensures
            r.0.wf(),
            r.0.actor() == actor,
            r.0.spec_settings() == settings,
            r.0.spec_phase() is Active,
            r.0.entries() == Seq::<Processing<A::Future, M, A::Response, A::Error>>::empty(),
    {
        let (tx, rx) = inbox_channel(settings.inbox_size());
        (Running::new(actor, rx, settings), tx)
    }

    #[verifier::when_used_as_spec(spec_phase)]
    pub fn phase(&self) -> (r: Phase)
        ensures
            r == self.spec_phase(),
    {
        self.phase
    }

    #[verifier::when_used_as_spec(spec_settings)]
    pub fn settings(&self) -> (r: Settings)
        ensures
            r == self.spec_settings(),
    {
        self.settings
    }

    pub fn in_flight(&self) -> (r: usize)
        ensures
            r == self.spec_in_flight(),
    {
        self.processing.len()
    }

    /// The dispatch decision for a taken envelope. Once the driver is past
    /// `Active` the envelope is turned away as disconnected. At the cap the
    /// handler is not called and the rejection, which carries the message
    /// itself and the cap, is handed out for the envelope's own reply path.
    /// Below the cap the handler builds the work, which joins the work in
    /// flight with that reply path, and nothing is handed out. No entry
    /// that was in flight is touched.
    pub fn dispatch(
        &mut self,
        envelope: Envelope<M, A::Response, A::Error>,
        cx: &mut Context<'_>,
    ) -> (rejected: Option<Delivery<M, A::Response, A::Error>>)
        requires
            old(self).wf(),
        ensures
            final(self).wf(),
            rejected == old(self).rejection_of(envelope),
            old(self).dispatches_to(envelope, *final(self)),
            rejected is Some ==> final(self).waiting() == old(self).waiting() && final(self).work()
                == old(self).work(),
            rejected is None ==> final(self).waiting() == old(self).waiting().push(envelope.tx)
                && final(self).work().drop_last() == old(self).work(),
    {
        let max = self.settings.max_in_flight();
        if self.phase != Phase::Active {
            Some(envelope.disconnect())
        } else if self.processing.len() >= max {
            Some(envelope.tx.rejection(envelope.msg, max))
        } else {
            let future = self.actor.handle(envelope.msg, cx);
            self.processing.push(Processing { future, tx: envelope.tx });
            proof {
                assert(self.entries().drop_last() =~= old(self).entries());
                assert(self.waiting() =~= old(self).waiting().push(envelope.tx));
                assert(self.work().drop_last() =~= old(self).work());
            }
            None
        }
    }

    /// Dispatches or rejects a taken envelope, and sends the rejection.
    /// The work in flight grows by one entry, with the envelope's reply
    /// path, exactly when nothing stood against it; otherwise neither it
    /// nor the handler changes. No entry that was in flight is touched.
    pub fn handle(&mut self, envelope: Envelope<M, A::Response, A::Error>, cx: &mut Context<'_>)
        requires
            old(self).wf(),
        ensures
            final(self).wf(),
            old(self).dispatches_to(envelope, *final(self)),
            old(self).rejection_of(envelope) is Some ==> final(self).waiting() == old(self).waiting() && final(self).work() == old(self).work(),
            old(self).rejection_of(envelope) is None ==> final(self).waiting() == old(self).waiting().push(envelope.tx) && final(self).work().drop_last() == old(self).work(),
    {
        match self.dispatch(envelope, cx) {
            Some(rejection) => {
                let _ = rejection.send();
            },
            None => {},
        }
    }

    /// Settles the entry that was taken from place `at` to be advanced,
    /// given what its advance came to. Work that is still waiting goes back
    /// to its place. Work whose caller is gone is dropped, and nothing is to
    /// be sent. Work that has finished is dropped, and its delivery is
    /// handed out to be sent.
    pub fn settle(
        &mut self,
        at: usize,
        progress: Progress<A::Future, M, A::Response, A::Error>,
    ) -> (sent: Option<Delivery<M, A::Response, A::Error>>)
        requires
            old(self).wf(),
            at <= old(self).entries().len(),
            progress is Waiting ==> !(old(self).spec_phase() is Terminated) && old(self).spec_in_flight() < old(self).spec_settings().spec_max_in_flight(),
        ensures
            final(self).wf(),
            old(self).settles_to(at as int, progress, *final(self), sent),
    {
        match progress {
            Progress::Waiting(entry) => {
                self.processing.insert(at, entry);
                None
            },
            Progress::Cancelled => None,
            Progress::Finished(delivery) => Some(delivery),
        }
    }

    /// Step one of a pass: advances every unit of work in flight once, in
    /// the order of dispatch, settles each on what its advance came to, and
    /// sends the deliveries that fall due. Entries leave only because they
    /// were cancelled or have finished; those that are still waiting stay in
    /// their order.
    pub fn advance(&mut self, cx: &mut Context<'_>)
        requires
            old(self).wf(),
        ensures
            final(self).wf(),
            old(self).advances_to(*final(self)),
    {
        let ghost before = self.entries();
        let ghost mut outcomes: Seq<Progress<A::Future, M, A::Response, A::Error>> = Seq::empty();
        let mut i: usize = 0;
        proof {
            assert(self.processing@.subrange(0, 0) =~= kept(outcomes));
            assert(self.processing@.subrange(0, self.processing@.len() as int) =~= before);
        }
        while i < self.processing.len()
            invariant
                self.wf(),
                i <= self.processing@.len(),
                outcomes.len() <= before.len(),
                self.processing@.len() - i == before.len() - outcomes.len(),
                self.actor == old(self).actor,
                self.inbox == old(self).inbox,
                self.settings == old(self).settings,
                self.phase == old(self).phase,
                self.drained == old(self).drained,
                before == old(self).entries(),
                forall|k: int|
                    0 <= k < outcomes.len() ==> may_become(before[k], #[trigger] outcomes[k]),
                self.processing@.subrange(0, i as int) == kept(outcomes),
                self.processing@.subrange(i as int, self.processing@.len() as int)
                    == before.subrange(outcomes.len() as int, before.len() as int),
                i <= outcomes.len(),
            decreases self.processing@.len() - i,
        {
            let ghost held = self.processing@;
            let ghost seen = outcomes;
            let entry = self.processing.remove(i);
            proof {
                assert(held.subrange(i as int, held.len() as int)[0] == held[i as int]);
                assert(entry == before[seen.len() as int]);
            }
            let ghost rest = self.processing@;
            let progress = entry.poll(cx);
            let stays = match &progress {
                Progress::Waiting(_) => true,
                _ => false,
            };
            let sent = self.settle(i, progress);
            proof {
                outcomes = seen.push(progress);
                assert(outcomes.drop_last() =~= seen);
                assert(rest.subrange(0, i as int) =~= held.subrange(0, i as int));
                assert(rest.subrange(i as int, rest.len() as int) =~= held.subrange(
                    i as int,
                    held.len() as int,
                ).subrange(1, held.len() - i));
                assert(before.subrange(outcomes.len() as int, before.len() as int)
                    =~= before.subrange(seen.len() as int, before.len() as int).subrange(
                    1,
                    before.len() - seen.len(),
                ));
                if stays {
                    let kept_entry = progress->Waiting_0;
                    assert(self.processing@ == rest.insert(i as int, kept_entry));
                    assert(self.processing@.subrange(0, i + 1) =~= rest.subrange(0, i as int).push(
                        kept_entry,
                    ));
                    assert(self.processing@.subrange(i + 1, self.processing@.len() as int)
                        =~= rest.subrange(i as int, rest.len() as int));
                } else {
                    assert(self.processing@ == rest);
                }
            }
            match sent {
                Some(delivery) => {
                    let _ = delivery.send();
                },
                None => {},
            }
            if stays {
                i = i + 1;
            }
        }
        proof {
            assert(self.processing@.subrange(0, i as int) =~= self.processing@);
            assert(old(self).advanced_by(outcomes, *self));
        }
    }

    /// Closes out a driver whose inbox is closed and empty: with no work
    /// left it terminates, otherwise it waits for the work.
    fn conclude(&mut self) -> (turn: Turn)
        requires
            old(self).spec_settings().wf(),
            old(self).spec_in_flight() <= old(self).spec_settings().spec_max_in_flight(),
            old(self).drained(),
        ensures
            final(self).wf(),
            old(self).concludes_to(*final(self), turn),
    {
        if self.processing.len() == 0 {
            self.phase = Phase::Terminated;
            Turn::Done
        } else {
            self.phase = Phase::Draining;
            Turn::Suspend
        }
    }

    /// Acts on what the inbox answered. `Pending` leaves the driver as it
    /// was and suspends it. A closed and empty inbox ends the intake: the
    /// driver terminates if no work is left and drains otherwise. An envelope
    /// meets the dispatch decision, and another pass is due.
    pub fn accept(
        &mut self,
        polled: Poll<Option<Envelope<M, A::Response, A::Error>>>,
        cx: &mut Context<'_>,
    ) -> (turn: Turn)
        requires
            old(self).wf(),
        ensures
            final(self).wf(),
            old(self).accepts_to(polled, *final(self), turn),
    {
        match polled {
            Poll::Pending => Turn::Suspend,
            Poll::Ready(None) => {
                let ghost before = *self;
                self.drained = true;
                let turn = self.conclude();
                proof {
                    assert(before.concludes_to(*self, turn));
                }
                turn
            },
            Poll::Ready(Some(envelope)) => {
                self.handle(envelope, cx);
                Turn::Again
            },
        }
    }

    /// Steps two and three of a pass, for an active driver, given what the
    /// handler's readiness check answered. While the handler is not ready
    /// the driver suspends and stays exactly as it was: the inbox is not
    /// touched, so nothing leaves it. A failed check closes the inbox to the
    /// callers and starts the draining. Only a ready handler has the inbox
    /// polled.
    pub fn proceed(&mut self, readiness: Poll<Result<(), A::Error>>, cx: &mut Context<'_>) -> (turn:
        Turn)
        requires
            old(self).wf(),
            old(self).spec_phase() is Active,
        ensures
            final(self).wf(),
            old(self).proceeds_to(readiness, *final(self), turn),
    {
        match gate(&readiness) {
            Gate::Suspend => Turn::Suspend,
            Gate::Stop => {
                inbox_close(&mut self.inbox);
                self.phase = Phase::Draining;
                Turn::Again
            },
            Gate::Take => {
                let polled = inbox_poll_recv(&mut self.inbox, cx);
                let ghost polling = *self;
                let turn = self.accept(polled, cx);
                proof {
                    assert(old(self).polls_to(polling) && polling.accepts_to(polled, *self, turn));
                }
                turn
            },
        }
    }

    /// One scheduling pass. A terminated driver stays as it is and returns
    /// `Done`. An active one advances the work in flight, then asks the
    /// handler whether it is ready, and only then proceeds on the answer:
    /// at most one envelope is taken, and decided on with the slots that
    /// the advance has freed. A draining one advances the work in flight and
    /// then polls the inbox for what is left in it, or is closed out; its
    /// handler is not asked again and nothing joins its work in flight. No
    /// pass returns `Done` unless it ends in `Terminated`, the phase never
    /// goes back, and the cap is never exceeded.
    pub fn turn(&mut self, cx: &mut Context<'_>) -> (turn: Turn)
        requires
            old(self).wf(),
        ensures
            final(self).wf(),
            old(self).passes_to(*final(self), turn),
            final(self).spec_settings() == old(self).spec_settings(),
            (turn is Done) == (final(self).spec_phase() is Terminated),
            phase_rank(final(self).spec_phase()) >= phase_rank(old(self).spec_phase()),
            final(self).spec_in_flight() <= old(self).spec_in_flight() + 1,
            !(old(self).spec_phase() is Active) ==> final(self).actor() == old(self).actor()
                && final(self).spec_in_flight() <= old(self).spec_in_flight(),
            old(self).drained() ==> {
                &&& final(self).drained()
                &&& final(self).inbox() == old(self).inbox()
                &&& (turn is Done) == (final(self).spec_in_flight() == 0)
            },
    {
        match self.phase {
            Phase::Terminated => Turn::Done,
            Phase::Active => {
                self.advance(cx);
                let ghost advanced = *self;
                let readiness = self.actor.poll_ready(cx);
                let ghost asked = *self;
                let turn = self.proceed(readiness, cx);
                proof {
                    assert(old(self).advances_to(advanced) && advanced.asks_to(readiness, asked)
                        && asked.proceeds_to(readiness, *self, turn));
                    assert(old(self).passes_on(readiness, *self, turn));
                }
                turn
            },
            Phase::Draining => {
                self.advance(cx);
                let ghost advanced = *self;
                if self.drained {
                    let turn = self.conclude();
                    proof {
                        assert(old(self).advances_to(advanced) && advanced.concludes_to(*self, turn));
                    }
                    turn
                } else {
                    let polled = inbox_poll_recv(&mut self.inbox, cx);
                    let ghost polling = *self;
                    let turn = self.accept(polled, cx);
                    proof {
                        assert(advanced.polls_to(polling) && polling.accepts_to(polled, *self, turn));
                        assert(old(self).advances_to(advanced));
                    }
                    turn
                }
            },
        }
    }

    /// Polls the driver's task: makes one scheduling pass and says whether
    /// the driver is done. `Ready` comes exactly when the pass ends in
    /// `Terminated`. Where the pass asks for another at once, the task is
    /// woken, so that the executor polls again without waiting for the
    /// handler, the inbox or the work in flight; the answer is `Pending`
    /// then too. What the pass does to the driver is what `turn` does.
    pub fn poll(&mut self, cx: &mut Context<'_>) -> (r: Poll<()>)
        requires
            old(self).wf(),
        ensures
            final(self).wf(),
            exists|turn: Turn| #[trigger]
                old(self).passes_to(*final(self), turn) && (r is Ready) == (turn is Done),
            (r is Ready) == (final(self).spec_phase() is Terminated),
            final(self).spec_settings() == old(self).spec_settings(),
            phase_rank(final(self).spec_phase()) >= phase_rank(old(self).spec_phase()),
            final(self).spec_in_flight() <= old(self).spec_in_flight() + 1,
            !(old(self).spec_phase() is Active) ==> final(self).actor() == old(self).actor()
                && final(self).spec_in_flight() <= old(self).spec_in_flight(),
            old(self).drained() ==> {
                &&& final(self).drained()
                &&& final(self).inbox() == old(self).inbox()
                &&& (r is Ready) == (final(self).spec_in_flight() == 0)
            },
    {
        let turn = self.turn(cx);
        proof {
            assert(old(self).passes_to(*self, turn));
        }
        match turn {
            Turn::Done => Poll::Ready(()),
            Turn::Suspend => Poll::Pending,
            Turn::Again => {
                wake_task(cx.waker());
                Poll::Pending
            },
        }
    }
}

} // verus!
