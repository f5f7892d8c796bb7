use embed_core::{InferError, PermitGauge, Session, SessionEvent, SessionState};

#[test]
fn permit_pool_overload() {
    let mut g = PermitGauge::new(2);
    assert_eq!(g.try_acquire(), Ok(()));
    assert_eq!(g.try_acquire(), Ok(()));
    assert_eq!(g.try_acquire(), Err(InferError::Overloaded));
    g.release();
    assert_eq!(g.try_acquire(), Ok(()));
    assert_eq!(g.active, 2);
}

#[test]
fn happy_path_releases_on_reply() {
    let mut s = Session::begin();
    assert!(s.permit_held);
    let r = s.step(SessionEvent::Enqueued);
    assert!(!r.release_permit && !r.deliver_reply);
    let r = s.step(SessionEvent::DispatchStarted);
    assert!(!r.release_permit && !r.deliver_reply);
    let r = s.step(SessionEvent::ReplySent);
    assert!(r.release_permit);
    assert!(r.deliver_reply);
    assert_eq!(s.state, SessionState::Done);
    assert!(!s.permit_held);
}

#[test]
fn tokenize_failure_releases_and_replies() {
    let mut s = Session::begin();
    let r = s.step(SessionEvent::TokenizeFailed);
    assert!(r.release_permit);
    assert!(r.deliver_reply);
    assert_eq!(s.state, SessionState::Done);
}

#[test]
fn batch_too_large_rejection_releases_and_replies() {
    let mut s = Session::begin();
    s.step(SessionEvent::Enqueued);
    let r = s.step(SessionEvent::Rejected);
    assert!(r.release_permit);
    assert!(r.deliver_reply);
    assert_eq!(s.state, SessionState::Done);
}

#[test]
fn cancellation_mid_flight() {
    // the caller drops the future after enqueue but before dispatch
    let mut s = Session::begin();
    s.step(SessionEvent::Enqueued);
    let r = s.step(SessionEvent::Canceled);
    // the permit goes back at the drop, exactly once
    assert!(r.release_permit);
    assert!(!r.deliver_reply);
    assert_eq!(s.state, SessionState::Canceled);

    // the entry still contributes to its batch's compute
    let r = s.step(SessionEvent::DispatchStarted);
    assert!(!r.release_permit);
    assert_eq!(s.state, SessionState::Canceled);

    // the computed result is discarded, not sent, and nothing is
    // released a second time
    let r = s.step(SessionEvent::ReplySent);
    assert!(!r.release_permit);
    assert!(!r.deliver_reply);
    assert_eq!(s.state, SessionState::Done);
}

#[test]
fn cancellation_after_dispatch_discards_only() {
    let mut s = Session::begin();
    s.step(SessionEvent::Enqueued);
    s.step(SessionEvent::DispatchStarted);
    let r = s.step(SessionEvent::Canceled);
    assert!(r.release_permit);
    let r = s.step(SessionEvent::ReplySent);
    assert!(!r.release_permit);
    assert!(!r.deliver_reply);
    assert_eq!(s.state, SessionState::Done);
}
