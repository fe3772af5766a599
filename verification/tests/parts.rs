use actor_rt::process::{Poll, Settings, MAX_INBOX_SIZE};
use actor_rt::rt::{
    gate, undelivered, Context, Envelope, Gate, HandleError, HandleErrorInner, Offer, Processing,
    Progress, Refused, Responder,
};
use std::future::Future;
use std::pin::Pin;

/// Work that is done at once, or never.
struct Fixed(Option<Result<u32, String>>);

impl Future for Fixed {
    type Output = Result<u32, String>;

    fn poll(mut self: Pin<&mut Self>, _cx: &mut std::task::Context<'_>) -> std::task::Poll<Self::Output> {
        match self.0.take() {
            Some(out) => std::task::Poll::Ready(out),
            None => std::task::Poll::Pending,
        }
    }
}

type Tx = Responder<String, u32, String>;

#[test]
fn settings_need_positive_limits() {
    assert!(Settings::new(0, 1).is_none());
    assert!(Settings::new(1, 0).is_none());
    assert!(Settings::new(0, 0).is_none());
    let s = Settings::new(2, 5).expect("positive limits");
    assert_eq!(s.max_in_flight(), 2);
    assert_eq!(s.inbox_size(), 5);
}

#[test]
fn error_constructors_keep_their_arguments() {
    let e: HandleError<String, u8> = HandleError::inner(7);
    assert!(matches!(e.kind, HandleErrorInner::Inner(7)));
    assert_eq!(e.into_message(), None);

    let e: HandleError<String, u8> = HandleError::max_in_flight(String::from("m"), 3);
    match &e.kind {
        HandleErrorInner::InFlightLimit { max, msg } => {
            assert_eq!(*max, 3);
            assert_eq!(msg, "m");
        }
        _ => panic!("wrong variant"),
    }
    assert_eq!(e.into_message(), Some(String::from("m")));

    let e: HandleError<String, u8> = HandleError::disconnected(String::from("d"));
    assert!(matches!(&e.kind, HandleErrorInner::Disconnected(m) if m == "d"));
    assert_eq!(e.into_message(), Some(String::from("d")));
}

#[test]
fn rejection_returns_the_same_message() {
    let payload = String::from("the very same payload");
    let address = payload.as_ptr();
    let (tx, rx): (Tx, _) = Responder::channel();
    tx.max_in_flight(payload, 4);
    match rx.into_receiver().try_recv().ok() {
        Some(Err(HandleError { kind: HandleErrorInner::InFlightLimit { max, msg } })) => {
            assert_eq!(max, 4);
            assert_eq!(msg, "the very same payload");
            assert_eq!(msg.as_ptr(), address);
        }
        _ => panic!("expected the in-flight limit"),
    }
}

#[test]
fn respond_forwards_success_and_failure() {
    let (tx, rx): (Tx, _) = Responder::channel();
    tx.respond(Ok(11));
    assert!(matches!(rx.into_receiver().try_recv().ok(), Some(Ok(11))));

    let (tx, rx): (Tx, _) = Responder::channel();
    tx.respond(Err(String::from("no")));
    match rx.into_receiver().try_recv().ok() {
        Some(Err(HandleError { kind: HandleErrorInner::Inner(e) })) => assert_eq!(e, "no"),
        _ => panic!("expected the handler's failure"),
    }
}

#[test]
fn responder_sees_the_caller_leave() {
    let (tx, rx): (Tx, _) = Responder::channel();
    assert!(!tx.is_closed());
    drop(rx);
    assert!(tx.is_closed());
    // delivery to a caller that is gone is no fault
    tx.respond(Ok(1));
}

#[test]
fn undelivered_outcome_comes_back() {
    let (tx, rx): (Tx, _) = Responder::channel();
    drop(rx);
    match tx.reply(Err(String::from("late"))).send() {
        Some(Err(HandleError { kind: HandleErrorInner::Inner(e) })) => assert_eq!(e, "late"),
        _ => panic!("the outcome must come back"),
    }
    let (tx, rx): (Tx, _) = Responder::channel();
    assert!(tx.reply(Ok(2)).send().is_none());
    assert!(matches!(rx.into_receiver().try_recv().ok(), Some(Ok(2))));
}

#[test]
fn envelope_disconnect_returns_the_message() {
    let (envelope, rx) = Envelope::<String, u32, String>::new(String::from("queued"));
    assert_eq!(envelope.msg, "queued");
    let delivery = envelope.disconnect();
    assert!(matches!(&delivery.reply, Err(HandleError { kind: HandleErrorInner::Disconnected(m) }) if m == "queued"));
    assert!(delivery.send().is_none());
    match rx.into_receiver().try_recv().ok() {
        Some(Err(e)) => assert_eq!(e.into_message(), Some(String::from("queued"))),
        _ => panic!("expected the disconnect"),
    }
}

#[test]
fn resolve_decides_by_cancellation_first() {
    let (tx, _rx): (Tx, _) = Responder::channel();
    let entry = Processing { future: Fixed(None), tx };
    assert!(matches!(entry.resolve(true, Poll::Ready(Ok(1))), Progress::Cancelled));

    let (tx, _rx): (Tx, _) = Responder::channel();
    let entry = Processing { future: Fixed(None), tx };
    assert!(matches!(entry.resolve(false, Poll::Pending), Progress::Waiting(_)));

    let (tx, _rx): (Tx, _) = Responder::channel();
    let entry = Processing { future: Fixed(None), tx };
    match entry.resolve(false, Poll::Ready(Err(String::from("bad")))) {
        Progress::Finished(d) => {
            assert!(matches!(d.reply, Err(HandleError { kind: HandleErrorInner::Inner(ref e) }) if e == "bad"))
        }
        _ => panic!("expected a delivery"),
    }
}

#[test]
fn entry_poll_drives_the_work() {
    let waker = futures::task::noop_waker();
    let mut cx = Context::from_waker(&waker);

    let (tx, _rx): (Tx, _) = Responder::channel();
    let entry = Processing { future: Fixed(None), tx };
    assert!(matches!(entry.poll(&mut cx), Progress::Waiting(_)));

    let (tx, _rx): (Tx, _) = Responder::channel();
    let entry = Processing { future: Fixed(Some(Ok(5))), tx };
    assert!(matches!(entry.poll(&mut cx), Progress::Finished(d) if matches!(d.reply, Ok(5))));

    let (tx, rx): (Tx, _) = Responder::channel();
    drop(rx);
    let entry = Processing { future: Fixed(Some(Ok(5))), tx };
    assert!(matches!(entry.poll(&mut cx), Progress::Cancelled));
}

#[test]
fn gate_opens_only_when_ready() {
    assert_eq!(gate::<String>(&Poll::Pending), Gate::Suspend);
    assert_eq!(gate::<String>(&Poll::Ready(Ok(()))), Gate::Take);
    assert_eq!(gate(&Poll::Ready(Err(String::from("x")))), Gate::Stop);
}

#[test]
fn context_hands_out_its_waker() {
    let waker = futures::task::noop_waker();
    let other = futures::task::noop_waker();
    let cx = Context::from_waker(&waker);
    assert!(std::ptr::eq(cx.waker(), &waker));
    assert!(!std::ptr::eq(cx.waker(), &other));
}

#[test]
fn offer_tells_full_from_closed() {
    let (mut tx, mut rx) = tokio_sync::mpsc::channel::<Envelope<String, u32, String>>(1);
    let (first, _r1) = Envelope::new(String::from("one"));
    assert!(matches!(first.offer(&mut tx), Offer::Queued));

    let (second, _r2) = Envelope::new(String::from("two"));
    let second = match second.offer(&mut tx) {
        Offer::Full(back) => back,
        _ => panic!("the inbox holds one envelope only"),
    };
    assert_eq!(second.msg, "two");

    // the first envelope did reach the consuming end
    let waker = futures::task::noop_waker();
    let mut task = std::task::Context::from_waker(&waker);
    match rx.poll_recv(&mut task) {
        std::task::Poll::Ready(Some(envelope)) => assert_eq!(envelope.msg, "one"),
        _ => panic!("the first envelope must be queued"),
    }

    drop(rx);
    let (third, r3) = Envelope::new(String::from("three"));
    match third.offer(&mut tx) {
        Offer::Closed(delivery) => {
            assert!(delivery.send().is_none());
        }
        _ => panic!("the inbox is closed"),
    }
    match r3.into_receiver().try_recv().ok() {
        Some(Err(HandleError { kind: HandleErrorInner::Disconnected(msg) })) => {
            assert_eq!(msg, "three")
        }
        _ => panic!("the caller must learn of the disconnect"),
    }
}

#[test]
fn undelivered_reads_the_attempt() {
    assert_eq!(undelivered::<u32>(Ok(())), None);
    assert_eq!(undelivered(Err::<(), u32>(7)), Some(7));
}

#[test]
fn offer_follows_the_answer_of_the_inbox() {
    assert!(matches!(Offer::<String, u32, String>::from_attempt(Ok(())), Offer::Queued));

    let (envelope, _rx) = Envelope::<String, u32, String>::new(String::from("full"));
    match Offer::from_attempt(Err(Refused::Full(envelope))) {
        Offer::Full(back) => assert_eq!(back.msg, "full"),
        _ => panic!("a full inbox hands the envelope back"),
    }

    let (envelope, rx) = Envelope::<String, u32, String>::new(String::from("closed"));
    match Offer::from_attempt(Err(Refused::Closed(envelope))) {
        Offer::Closed(delivery) => {
            assert!(matches!(
                &delivery.reply,
                Err(HandleError { kind: HandleErrorInner::Disconnected(m) }) if m == "closed"
            ));
            assert!(delivery.send().is_none());
        }
        _ => panic!("a closed inbox disconnects the envelope"),
    }
    match rx.into_receiver().try_recv().ok() {
        Some(Err(e)) => assert_eq!(e.into_message(), Some(String::from("closed"))),
        _ => panic!("the caller must learn of the disconnect"),
    }
}

#[test]
fn settings_bound_the_inbox_size() {
    assert_eq!(MAX_INBOX_SIZE, usize::MAX >> 2);
    assert!(Settings::new(1, usize::MAX).is_none());
    assert!(Settings::new(1, MAX_INBOX_SIZE + 1).is_none());
    let s = Settings::new(1, MAX_INBOX_SIZE).expect("the largest inbox");
    assert_eq!(s.inbox_size(), MAX_INBOX_SIZE);
}
