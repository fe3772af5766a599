//! What the driver's rules come to, stated once over the models that its
//! contracts use.
use vstd::prelude::*;
use crate::Message;
use crate::process::Poll;
use crate::process::Process;
use crate::rt::gate_of;
use crate::rt::kept;
use crate::rt::progress_of;
use crate::rt::reply_of;
use crate::rt::Delivery;
use crate::rt::Envelope;
use crate::rt::HandleError;
use crate::rt::HandleErrorInner;
use crate::rt::Processing;
use crate::rt::Progress;
use crate::rt::Running;
use crate::rt::Turn;

verus! {

/// An active driver that holds as much work as its cap allows turns the next
/// envelope away with `InFlightLimit`, which names the cap and holds the
/// envelope's own message, and sends that along the envelope's own reply
/// path.
pub proof fn lemma_full_driver_rejects<A: Process<M>, M: Message>(
    driver: Running<A, M>,
    envelope: Envelope<M, A::Response, A::Error>,
)
    requires
        driver.wf(),
        driver.spec_phase() is Active,
        driver.spec_in_flight() == driver.spec_settings().spec_max_in_flight(),
    ensures
        driver.rejection_of(envelope) == Some(
            Delivery {
                tx: envelope.tx,
                reply: Err(
                    HandleError {
                        kind: HandleErrorInner::InFlightLimit {
                            max: driver.spec_settings().spec_max_in_flight(),
                            msg: envelope.msg,
                        },
                    },
                ),
            },
        ),
{
}

/// An active driver with room below its cap turns no envelope away. A slot
/// that a cancelled or completed entry has left is such room.
pub proof fn lemma_room_admits<A: Process<M>, M: Message>(
    driver: Running<A, M>,
    envelope: Envelope<M, A::Response, A::Error>,
)
    requires
        driver.wf(),
        driver.spec_phase() is Active,
        driver.spec_in_flight() < driver.spec_settings().spec_max_in_flight(),
    ensures
        driver.rejection_of(envelope) is None,
{
}

/// Whatever the reason for a rejection, it is an error that gives the
/// rejected message back unchanged, through the reply path that came with
/// it.
pub proof fn lemma_rejection_returns_message<A: Process<M>, M: Message>(
    driver: Running<A, M>,
    envelope: Envelope<M, A::Response, A::Error>,
)
    requires
        driver.wf(),
        driver.rejection_of(envelope) is Some,
    ensures
        driver.rejection_of(envelope)->Some_0.tx == envelope.tx,
        driver.rejection_of(envelope)->Some_0.reply is Err,
        driver.rejection_of(envelope)->Some_0.reply->Err_0.spec_message() == Some(envelope.msg),
{
}

/// Work that completes while its caller still listens is answered through
/// its own reply path with exactly what the work produced: a response as it
/// is, a failure as `Inner` around the handler's error.
pub proof fn lemma_finished_work_replies_own_result<F, M, R, E>(
    entry: Processing<F, M, R, E>,
    item: Result<R, E>,
)
    ensures
        progress_of(entry, false, Poll::Ready(item)) == Progress::<F, M, R, E>::Finished(
            Delivery { tx: entry.tx, reply: reply_of::<M, R, E>(item) },
        ),
        item is Ok ==> reply_of::<M, R, E>(item) == Ok::<R, HandleError<M, E>>(item->Ok_0),
        item is Err ==> reply_of::<M, R, E>(item) == Err::<R, HandleError<M, E>>(
            HandleError { kind: HandleErrorInner::Inner(item->Err_0) },
        ),
{
}

/// An entry whose caller is gone is dropped without a delivery, whatever its
/// work would have answered.
pub proof fn lemma_abandoned_work_is_dropped<F, M, R, E>(
    entry: Processing<F, M, R, E>,
    polled: Poll<Result<R, E>>,
)
    ensures
        progress_of(entry, true, polled) is Cancelled,
{
}

/// Work that is neither abandoned nor done stays in flight as it is.
pub proof fn lemma_pending_work_stays<F, M, R, E>(entry: Processing<F, M, R, E>)
    ensures
        progress_of(entry, false, Poll::<Result<R, E>>::Pending) == Progress::<F, M, R, E>::Waiting(entry),
{
}

/// The inbox may be polled after one answer of the handler only:
/// `Ready(Ok(()))`.
pub proof fn lemma_only_ready_takes<E>(readiness: Poll<Result<(), E>>)
    ensures
        gate_of(readiness) is Take <==> (readiness matches Poll::Ready(Ok(_))),
        readiness is Pending ==> gate_of(readiness) is Suspend,
{
}

/// Whether `states` are the states that an active driver passes through
/// while it decides on `envelopes` one after the other, each step being
/// what the dispatch decision promises.
pub open spec fn dispatches<A: Process<M>, M: Message>(
    states: Seq<Running<A, M>>,
    envelopes: Seq<Envelope<M, A::Response, A::Error>>,
) -> bool {
    &&& states.len() == envelopes.len() + 1
    &&& forall|k: int|
        0 <= k < states.len() ==> (#[trigger] states[k]).wf() && states[k].spec_phase() is Active
    &&& forall|k: int|
        0 <= k < envelopes.len() ==> (#[trigger] states[k]).dispatches_to(
            envelopes[k],
            states[k + 1],
        )
}

/// With room for all of them below the cap, any number of envelopes is
/// dispatched without a single rejection, each takes one slot, and the
/// entries that were in flight before stay in front, untouched.
pub proof fn lemma_roomy_driver_rejects_none<A: Process<M>, M: Message>(
    states: Seq<Running<A, M>>,
    envelopes: Seq<Envelope<M, A::Response, A::Error>>,
    upto: int,
)
    requires
        dispatches(states, envelopes),
        states[0].spec_in_flight() + envelopes.len() <= states[0].spec_settings().spec_max_in_flight(),
        0 <= upto <= envelopes.len(),
    ensures
        forall|k: int| 0 <= k < upto ==> (#[trigger] states[k]).rejection_of(envelopes[k]) is None,
        states[upto].spec_in_flight() == states[0].spec_in_flight() + upto,
        states[upto].spec_settings() == states[0].spec_settings(),
        states[upto].entries().subrange(0, states[0].entries().len() as int)
            == states[0].entries(),
    decreases upto,
{
    if upto > 0 {
        lemma_roomy_driver_rejects_none(states, envelopes, upto - 1);
        let before = states[upto - 1];
        assert(before.wf() && before.spec_phase() is Active);
        assert(before.dispatches_to(envelopes[upto - 1], states[upto]));
        assert(before.rejection_of(envelopes[upto - 1]) is None);
        let n = states[0].entries().len() as int;
        assert(states[upto].entries().subrange(0, n) =~= states[upto].entries().drop_last().subrange(
            0,
            n,
        ));
    } else {
        assert(states[0].entries().subrange(0, states[0].entries().len() as int)
            =~= states[0].entries());
    }
}

/// However many passes of an active driver find the handler not ready, the
/// inbox stays exactly as it was, every such pass suspends, and nothing
/// joins the work in flight.
pub proof fn lemma_idle_passes_keep_inbox<A: Process<M>, M: Message>(
    states: Seq<Running<A, M>>,
    answers: Seq<Poll<Result<(), A::Error>>>,
    turns: Seq<Turn>,
    upto: int,
)
    requires
        states.len() == answers.len() + 1,
        turns.len() == answers.len(),
        forall|k: int|
            0 <= k < answers.len() ==> (#[trigger] answers[k]) is Pending && states[k].passes_on(
                answers[k],
                states[k + 1],
                turns[k],
            ),
        0 <= upto <= answers.len(),
    ensures
        states[upto].inbox() == states[0].inbox(),
        states[upto].spec_in_flight() <= states[0].spec_in_flight(),
        forall|k: int| 0 <= k < upto ==> (#[trigger] turns[k]) is Suspend,
    decreases upto,
{
    if upto > 0 {
        lemma_idle_passes_keep_inbox(states, answers, turns, upto - 1);
        assert(answers[upto - 1] is Pending);
        assert(states[upto - 1].passes_on(answers[upto - 1], states[upto], turns[upto - 1]));
    }
}

/// In a pass of an active driver the intake comes after the advance: an
/// envelope that is taken is decided on with the slots that the advance
/// left free, so with one free it joins the work in flight behind the
/// entries that the advance kept.
pub proof fn lemma_intake_follows_advance<A: Process<M>, M: Message>(
    driver: Running<A, M>,
    advanced: Running<A, M>,
    readiness: Poll<Result<(), A::Error>>,
    asked: Running<A, M>,
    polling: Running<A, M>,
    envelope: Envelope<M, A::Response, A::Error>,
    after: Running<A, M>,
    turn: Turn,
)
    requires
        driver.spec_phase() is Active,
        driver.advances_to(advanced),
        advanced.asks_to(readiness, asked),
        asked.polls_to(polling),
        polling.accepts_to(Poll::Ready(Some(envelope)), after, turn),
        advanced.spec_in_flight() < driver.spec_settings().spec_max_in_flight(),
    ensures
        polling.rejection_of(envelope) is None,
        turn is Again,
        after.entries().drop_last() == advanced.entries(),
        after.entries().last().tx == envelope.tx,
{
}

/// A pass of a driver that is past `Active` never asks the handler and
/// never adds work: the handler's state is as it was, the work in flight
/// has not grown, and the driver stays past `Active`.
pub proof fn lemma_draining_pass_leaves_handler<A: Process<M>, M: Message>(
    driver: Running<A, M>,
    after: Running<A, M>,
    turn: Turn,
)
    requires
        driver.wf(),
        !(driver.spec_phase() is Active),
        driver.passes_to(after, turn),
    ensures
        after.actor() == driver.actor(),
        after.spec_in_flight() <= driver.spec_in_flight(),
        !(after.spec_phase() is Active),
{
}

/// An advance keeps no more entries than there were, and fewer as soon as
/// one entry was cancelled or has finished: that entry's slot is free.
pub proof fn lemma_kept_counts<F, M, R, E>(outcomes: Seq<Progress<F, M, R, E>>)
    ensures
        kept(outcomes).len() <= outcomes.len(),
        (forall|k: int| 0 <= k < outcomes.len() ==> (#[trigger] outcomes[k]) is Waiting) ==> kept(
            outcomes,
        ).len() == outcomes.len(),
        (exists|k: int| 0 <= k < outcomes.len() && !((#[trigger] outcomes[k]) is Waiting)) ==> kept(
            outcomes,
        ).len() < outcomes.len(),
    decreases outcomes.len(),
{
    if outcomes.len() > 0 {
        let front = outcomes.drop_last();
        lemma_kept_counts(front);
        assert forall|k: int| 0 <= k < front.len() implies front[k] == outcomes[k] by {}
        if forall|k: int| 0 <= k < outcomes.len() ==> (#[trigger] outcomes[k]) is Waiting {
            assert forall|k: int| 0 <= k < front.len() implies (#[trigger] front[k]) is Waiting by {
                assert(outcomes[k] is Waiting);
            }
            assert(outcomes.last() is Waiting);
        }
        if exists|k: int| 0 <= k < outcomes.len() && !((#[trigger] outcomes[k]) is Waiting) {
            let k = choose|k: int| 0 <= k < outcomes.len() && !((#[trigger] outcomes[k]) is Waiting);
            if k < front.len() {
                assert(!(front[k] is Waiting));
            }
        }
    }
}

/// An advance drops no work that is still waiting: each such entry is among
/// those kept.
pub proof fn lemma_waiting_work_stays<F, M, R, E>(outcomes: Seq<Progress<F, M, R, E>>, k: int)
    requires
        0 <= k < outcomes.len(),
        outcomes[k] is Waiting,
    ensures
        kept(outcomes).contains(outcomes[k]->Waiting_0),
    decreases outcomes.len(),
{
    let front = outcomes.drop_last();
    if k == outcomes.len() - 1 {
        let all = kept(front).push(outcomes[k]->Waiting_0);
        assert(all[all.len() - 1] == outcomes[k]->Waiting_0);
    } else {
        assert(front[k] == outcomes[k]);
        lemma_waiting_work_stays(front, k);
        let j = choose|j: int| 0 <= j < kept(front).len() && kept(front)[j] == outcomes[k]->Waiting_0;
        if outcomes.last() is Waiting {
            assert(kept(outcomes)[j] == kept(front)[j]);
        }
    }
}

/// In the advance of a driver an entry leaves exactly for being cancelled
/// or done. Where the entry at place `at` came to such an end, its slot is
/// free afterwards; where it is still waiting, it is still in flight, with
/// the reply path that it had.
pub proof fn lemma_advance_settles_each<A: Process<M>, M: Message>(
    driver: Running<A, M>,
    outcomes: Seq<Progress<A::Future, M, A::Response, A::Error>>,
    after: Running<A, M>,
    at: int,
)
    requires
        driver.advanced_by(outcomes, after),
        0 <= at < driver.entries().len(),
    ensures
        !(outcomes[at] is Waiting) ==> after.spec_in_flight() < driver.spec_in_flight(),
        outcomes[at] is Waiting ==> after.entries().contains(outcomes[at]->Waiting_0)
            && outcomes[at]->Waiting_0.tx == driver.entries()[at].tx,
        (forall|k: int| 0 <= k < outcomes.len() ==> (#[trigger] outcomes[k]) is Waiting)
            ==> after.spec_in_flight() == driver.spec_in_flight(),
{
    lemma_kept_counts(outcomes);
    if outcomes[at] is Waiting {
        lemma_waiting_work_stays(outcomes, at);
    }
}

/// A pass in which the caller of an entry is found gone, or its work done,
/// frees that entry's slot before the intake: with the handler ready and an
/// envelope in the inbox, a driver that was at its cap takes that envelope
/// into the work in flight and does not turn it away.
pub proof fn lemma_freed_slot_takes_next<A: Process<M>, M: Message>(
    driver: Running<A, M>,
    outcomes: Seq<Progress<A::Future, M, A::Response, A::Error>>,
    advanced: Running<A, M>,
    readiness: Poll<Result<(), A::Error>>,
    asked: Running<A, M>,
    polling: Running<A, M>,
    envelope: Envelope<M, A::Response, A::Error>,
    after: Running<A, M>,
    turn: Turn,
    at: int,
)
    requires
        driver.wf(),
        driver.spec_phase() is Active,
        driver.advances_to(advanced),
        driver.advanced_by(outcomes, advanced),
        0 <= at < driver.entries().len(),
        !(outcomes[at] is Waiting),
        advanced.asks_to(readiness, asked),
        asked.polls_to(polling),
        polling.accepts_to(Poll::Ready(Some(envelope)), after, turn),
    ensures
        polling.rejection_of(envelope) is None,
        after.entries().drop_last() == advanced.entries(),
        after.entries().last().tx == envelope.tx,
        after.spec_in_flight() <= driver.spec_in_flight(),
{
    lemma_advance_settles_each(driver, outcomes, advanced, at);
}

/// A pass of an active driver whose handler can only answer that it is
/// not ready suspends the driver and takes nothing from the inbox: the
/// inbox is as it was, the handler is not given a message, and nothing
/// joins the work in flight.
pub proof fn lemma_unready_pass_keeps_inbox<A: Process<M>, M: Message>(
    driver: Running<A, M>,
    after: Running<A, M>,
    turn: Turn,
)
    requires
        driver.spec_phase() is Active,
        driver.passes_to(after, turn),
        forall|before: A, then: A, answer: Poll<Result<(), A::Error>>| #[trigger]
            before.may_answer(&then, answer) ==> answer is Pending,
    ensures
        turn is Suspend,
        after.inbox() == driver.inbox(),
        after.spec_phase() is Active,
        after.spec_in_flight() <= driver.spec_in_flight(),
        exists|advanced: Running<A, M>| #[trigger]
            driver.advances_to(advanced) && after.entries() == advanced.entries(),
{
    let readiness = choose|readiness: Poll<Result<(), A::Error>>| #[trigger]
        driver.passes_on(readiness, after, turn);
    let (advanced, asked) = choose|advanced: Running<A, M>, asked: Running<A, M>|
        driver.advances_to(advanced) && #[trigger] advanced.asks_to(readiness, asked)
            && asked.proceeds_to(readiness, after, turn);
    assert(advanced.actor().may_answer(&asked.actor(), readiness));
    assert(readiness is Pending);
    assert(after == asked);
    assert(driver.advances_to(advanced) && after.entries() == advanced.entries());
}

} // verus!
