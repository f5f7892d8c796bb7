use vstd::prelude::*;

use crate::error::InferError;

verus! {

/// Admission control: a counter standing for the global semaphore of
/// `max_concurrent_requests` permits. Acquisition happens before
/// tokenization so backpressure bounds CPU work too.
pub struct PermitGauge {
    /// Permits currently held by in-flight requests.
    pub active: usize,
    /// Size of the pool.
    pub max_permits: usize,
}

impl PermitGauge {
    pub open spec fn wf(self) -> bool {
        self.active <= self.max_permits
    }

    pub fn new(max_permits: usize) -> (g: PermitGauge)
        ensures
            g.wf(),
            g.active == 0,
            g.max_permits == max_permits,
    {
        PermitGauge { active: 0, max_permits }
    }

    /// One unit of admission, or `Overloaded` when the pool is exhausted.
    pub fn try_acquire(&mut self) -> (r: Result<(), InferError>)
        requires
            old(self).wf(),
        ensures
            final(self).wf(),
            final(self).max_permits == old(self).max_permits,
            (r is Ok) <==> old(self).active < old(self).max_permits,
            r is Ok ==> final(self).active == old(self).active + 1,
            r is Err ==> final(self).active == old(self).active && r == Err::<(), InferError>(
                InferError::Overloaded,
            ),
    {
        if self.active < self.max_permits {
            self.active = self.active + 1;
            Ok(())
        } else {
            Err(InferError::Overloaded)
        }
    }

    /// Give one unit back; called exactly once per admitted request, on
    /// reply, on error, or on drop.
    pub fn release(&mut self)
        requires
            old(self).wf(),
            old(self).active >= 1,
        ensures
            final(self).wf(),
            final(self).max_permits == old(self).max_permits,
            final(self).active == old(self).active - 1,
    {
        self.active = self.active - 1;
    }
}

/// Where one admitted request stands.
#[derive(Clone, Copy, Debug, PartialEq, Eq, Structural)]
pub enum SessionState {
    /// Admitted, being tokenized.
    Tokenizing,
    /// Waiting in the queue.
    Queued,
    /// Member of a batch handed to the backend.
    Dispatched,
    /// The caller went away; the entry still flows through its batch but
    /// its output is discarded. The permit went back at cancellation.
    Canceled,
    /// Reply (or error) delivered, or discarded after cancellation.
    Done,
}

/// What happens to an admitted request.
#[derive(Clone, Copy, Debug, PartialEq, Eq, Structural)]
pub enum SessionEvent {
    /// Tokenizer or validator failed; error goes back on the reply.
    TokenizeFailed,
    /// Entry appended to the queue.
    Enqueued,
    /// Caller dropped the reply future.
    Canceled,
    /// The batcher refused the entry as too large for any batch.
    Rejected,
    /// The entry's batch reached the backend.
    DispatchStarted,
    /// The backend's output (or its error) is ready for this entry.
    ReplySent,
}

/// What a step asks the runtime to do.
pub struct StepOutcome {
    /// The permit goes back now; true exactly once per session.
    pub release_permit: bool,
    /// The output in hand is delivered; false for a canceled entry, whose
    /// result is computed but discarded.
    pub deliver_reply: bool,
}

/// One request's lifecycle, tracked next to the permit it holds.
///
/// The invariant ties the two: the permit is held exactly while the
/// request is live and uncanceled, and every path to `Done` or `Canceled`
/// releases it exactly once — no leak and no double release, whichever
/// order tokenization, cancellation and dispatch interleave in.
pub struct Session {
    pub state: SessionState,
    pub permit_held: bool,
}

/// The transitions the runtime may drive.
pub open spec fn spec_step_allowed(state: SessionState, event: SessionEvent) -> bool {
    match (state, event) {
        (SessionState::Tokenizing, SessionEvent::TokenizeFailed) => true,
        (SessionState::Tokenizing, SessionEvent::Enqueued) => true,
        (SessionState::Tokenizing, SessionEvent::Canceled) => true,
        (SessionState::Queued, SessionEvent::Canceled) => true,
        (SessionState::Queued, SessionEvent::Rejected) => true,
        (SessionState::Queued, SessionEvent::DispatchStarted) => true,
        (SessionState::Dispatched, SessionEvent::Canceled) => true,
        (SessionState::Dispatched, SessionEvent::ReplySent) => true,
        (SessionState::Canceled, SessionEvent::DispatchStarted) => true,
        (SessionState::Canceled, SessionEvent::ReplySent) => true,
        _ => false,
    }
}

/// The state a step moves to.
pub open spec fn spec_step_next(state: SessionState, event: SessionEvent) -> SessionState {
    match (state, event) {
        (SessionState::Tokenizing, SessionEvent::Enqueued) => SessionState::Queued,
        (SessionState::Queued, SessionEvent::DispatchStarted) => SessionState::Dispatched,
        (SessionState::Canceled, SessionEvent::DispatchStarted) => SessionState::Canceled,
        (SessionState::Canceled, SessionEvent::ReplySent) => SessionState::Done,
        (_, SessionEvent::Canceled) => SessionState::Canceled,
        _ => SessionState::Done,
    }
}

impl Session {
    /// The permit is held exactly while the request is live and wants its
    /// reply.
    pub open spec fn wf(self) -> bool {
        self.permit_held <==> (self.state == SessionState::Tokenizing || self.state
            == SessionState::Queued || self.state == SessionState::Dispatched)
    }

    /// A freshly admitted request: the permit was just acquired.
    pub fn begin() -> (s: Session)
        ensures
            s.wf(),
            s.state == SessionState::Tokenizing,
            s.permit_held,
    {
        Session { state: SessionState::Tokenizing, permit_held: true }
    }

    /// Drive the lifecycle one event forward. The permit is released on
    /// the step that leaves the live states — exactly once per session —
    /// and the reply is delivered exactly when an uncanceled dispatch
    /// completes or fails before dispatch.
    pub fn step(&mut self, event: SessionEvent) -> (r: StepOutcome)
        requires
            old(self).wf(),
            spec_step_allowed(old(self).state, event),
        ensures
            final(self).wf(),
            final(self).state == spec_step_next(old(self).state, event),
            r.release_permit == (old(self).permit_held && !final(self).permit_held),
            r.deliver_reply == (old(self).state != SessionState::Canceled && (event
                == SessionEvent::TokenizeFailed || event == SessionEvent::Rejected || event
                == SessionEvent::ReplySent)),
    {
        let was_held = self.permit_held;
        let was_canceled = self.state == SessionState::Canceled;
        let next = match (self.state, event) {
            (SessionState::Tokenizing, SessionEvent::Enqueued) => SessionState::Queued,
            (SessionState::Queued, SessionEvent::DispatchStarted) => SessionState::Dispatched,
            (SessionState::Canceled, SessionEvent::DispatchStarted) => SessionState::Canceled,
            (SessionState::Canceled, SessionEvent::ReplySent) => SessionState::Done,
            (_, SessionEvent::Canceled) => SessionState::Canceled,
            _ => SessionState::Done,
        };
        self.state = next;
        let still_live = next == SessionState::Tokenizing || next == SessionState::Queued || next
            == SessionState::Dispatched;
        self.permit_held = still_live;
        StepOutcome {
            release_permit: was_held && !still_live,
            deliver_reply: !was_canceled && (event == SessionEvent::TokenizeFailed || event
                == SessionEvent::Rejected || event == SessionEvent::ReplySent),
        }
    }
}

/// The permit a state holds, as `step` maintains it.
pub open spec fn spec_holds_permit(state: SessionState) -> bool {
    state == SessionState::Tokenizing || state == SessionState::Queued || state
        == SessionState::Dispatched
}

/// Every event of the run is allowed from the state it meets.
pub open spec fn spec_allowed_run(state: SessionState, events: Seq<SessionEvent>) -> bool
    decreases events.len(),
{
    events.len() == 0 || (spec_step_allowed(state, events[0]) && spec_allowed_run(
        spec_step_next(state, events[0]),
        events.drop_first(),
    ))
}

/// The state a run of events ends in.
pub open spec fn spec_run(state: SessionState, events: Seq<SessionEvent>) -> SessionState
    decreases events.len(),
{
    if events.len() == 0 {
        state
    } else {
        spec_run(spec_step_next(state, events[0]), events.drop_first())
    }
}

/// How many steps of the run hand the permit back.
pub open spec fn spec_release_count(state: SessionState, events: Seq<SessionEvent>) -> int
    decreases events.len(),
{
    if events.len() == 0 {
        0
    } else {
        let next = spec_step_next(state, events[0]);
        (if spec_holds_permit(state) && !spec_holds_permit(next) {
            1int
        } else {
            0
        }) + spec_release_count(next, events.drop_first())
    }
}

/// An allowed run never regains a permit that is gone: from `Canceled`
/// or `Done` every allowed step stays in `Canceled` or `Done`.
pub proof fn lemma_permitless_stays(state: SessionState, events: Seq<SessionEvent>)
    requires
        spec_allowed_run(state, events),
        !spec_holds_permit(state),
    ensures
        !spec_holds_permit(spec_run(state, events)),
    decreases events.len(),
{
    if events.len() > 0 {
        let next = spec_step_next(state, events[0]);
        assert(!spec_holds_permit(next));
        lemma_permitless_stays(next, events.drop_first());
    }
}

/// No permit leak and no double release: along any allowed run of events,
/// the permit is handed back exactly once if the run ends without it —
/// on reply, on error, or on cancellation — and never otherwise. A run
/// that has released it can never release it again, whichever order
/// cancellation and dispatch interleave in.
pub proof fn lemma_permit_released_exactly_once(state: SessionState, events: Seq<SessionEvent>)
    requires
        spec_allowed_run(state, events),
    ensures
        spec_release_count(state, events) == if spec_holds_permit(state) && !spec_holds_permit(
            spec_run(state, events),
        ) {
            1int
        } else {
            0
        },
    decreases events.len(),
{
    if events.len() > 0 {
        let next = spec_step_next(state, events[0]);
        lemma_permit_released_exactly_once(next, events.drop_first());
        if spec_holds_permit(state) && !spec_holds_permit(next) {
            lemma_permitless_stays(next, events.drop_first());
        }
    }
}

} // verus!
