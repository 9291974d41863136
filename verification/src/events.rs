use vstd::prelude::*;

use crate::retry::AttemptState;

verus! {

/// The error value handed to the application on a failed attempt.  A
/// transport-level failure carries no status; a rejected response carries the
/// status code and the raw body text.
#[derive(Debug, Clone)]
pub struct ArriServerError {
    pub status_code: u16,
    pub data: String,
}

impl ArriServerError {
    /// A generic server error, used when the transport failed before any
    /// response arrived: no status code is present.
    pub fn new() -> (e: Self)
        ensures
            e.status_code == 0,
            e.data@ == Seq::<char>::empty(),
    {
        ArriServerError { status_code: 0, data: String::new() }
    }

    /// The error for a response whose status lies outside the success range.
    pub fn from_response_data(status: u16, body: String) -> (e: Self)
        ensures
            e.status_code == status,
            e.data@ == body@,
    {
        ArriServerError { status_code: status, data: body }
    }
}

/// One delivered event: exactly one is handed to the callback per invocation.
pub enum SseEvent<T> {
    Message(T),
    Error(ArriServerError),
    Open,
    Close,
}

/// What one attempt's end means for the listen loop.
#[derive(Debug, Clone, Copy, PartialEq, Eq, Structural)]
pub enum SseAction {
    Retry,
    Abort,
}

/// The semantic class of a frame, read from its `event` field.
#[derive(Debug, Clone, Copy, PartialEq, Eq, Structural)]
pub enum FrameKind {
    Done,
    Message,
    Other,
}

/// How the event source reads a frame's `event` field: the literal `done`
/// closes the stream, the literal `message` carries a payload, anything else
/// (a missing field included) is ignored.
pub open spec fn classify_spec(event: Option<Seq<char>>) -> FrameKind {
    match event {
        Some(e) => if e == "done"@ {
            FrameKind::Done
        } else if e == "message"@ {
            FrameKind::Message
        } else {
            FrameKind::Other
        },
        None => FrameKind::Other,
    }
}

pub fn classify_frame(event: &Option<String>) -> (k: FrameKind)
    ensures
        k == classify_spec(match event {
            Some(e) => Some(e@),
            None => None,
        }),
{
    match event {
        Some(e) => {
            let done_lit = String::from_str("done");
            let message_lit = String::from_str("message");
            if e.eq(&done_lit) {
                FrameKind::Done
            } else if e.eq(&message_lit) {
                FrameKind::Message
            } else {
                FrameKind::Other
            }
        },
        None => FrameKind::Other,
    }
}

/// What the streaming loop does after a dispatched event's callback returns.
#[derive(Debug, Clone, Copy, PartialEq, Eq, Structural)]
pub enum StreamStep {
    AbortAttempt,
    CloseStream,
    Continue,
}

/// The checkpoint decision after a dispatch: an observed abort ends the
/// attempt at once; otherwise a `done` frame closes the stream and anything
/// else continues it.
pub open spec fn dispatch_step_spec(kind: FrameKind, aborted: bool) -> StreamStep {
    if aborted {
        StreamStep::AbortAttempt
    } else if kind == FrameKind::Done {
        StreamStep::CloseStream
    } else {
        StreamStep::Continue
    }
}

pub fn dispatch_step(kind: FrameKind, aborted: bool) -> (s: StreamStep)
    ensures
        s == dispatch_step_spec(kind, aborted),
{
    if aborted {
        StreamStep::AbortAttempt
    } else if kind == FrameKind::Done {
        StreamStep::CloseStream
    } else {
        StreamStep::Continue
    }
}

/// How a stream step ends the attempt, if it does.  Both an abort and a
/// server-signaled close terminate the attempt without a retry; neither is
/// counted as a failure.
pub open spec fn step_outcome_spec(step: StreamStep) -> Option<SseAction> {
    match step {
        StreamStep::AbortAttempt => Some(SseAction::Abort),
        StreamStep::CloseStream => Some(SseAction::Abort),
        StreamStep::Continue => None,
    }
}

pub fn stream_step_outcome(step: StreamStep) -> (r: Option<SseAction>)
    ensures
        r == step_outcome_spec(step),
{
    match step {
        StreamStep::AbortAttempt => Some(SseAction::Abort),
        StreamStep::CloseStream => Some(SseAction::Abort),
        StreamStep::Continue => None,
    }
}

/// Whether an HTTP status code counts as a successful response.
pub fn is_success_status(status: u16) -> (r: bool)
    ensures
        r == (200 <= status < 300),
{
    status >= 200 && status < 300
}

/// The listen loop's bookkeeping when one attempt ends: an abort terminates
/// the loop with the state untouched, a retry counts the failure and goes on.
pub open spec fn attempt_end_spec(s: AttemptState, action: SseAction) -> (AttemptState, bool) {
    match action {
        SseAction::Abort => (s, true),
        SseAction::Retry => (
            AttemptState {
                retry_count: (s.retry_count + 1) as u64,
                retry_interval: s.retry_interval,
                max_retry_interval: s.max_retry_interval,
                max_retry_count: s.max_retry_count,
            },
            false,
        ),
    }
}

pub fn handle_attempt_end(state: &mut AttemptState, action: SseAction) -> (stop: bool)
    requires
        action == SseAction::Retry ==> old(state).retry_count < u64::MAX,
    ensures
        *final(state) == attempt_end_spec(*old(state), action).0,
        stop == attempt_end_spec(*old(state), action).1,
{
    match action {
        SseAction::Retry => {
            state.record_retry();
            false
        },
        SseAction::Abort => true,
    }
}

/// An abort observed at a checkpoint stops everything: whatever event was
/// dispatched, the next step aborts the attempt, the attempt's outcome is
/// `Abort`, and ending an attempt with `Abort` neither counts a failure nor
/// lets the loop schedule another attempt.
pub proof fn lemma_abort_prevents_further_work(kind: FrameKind, s: AttemptState)
    ensures
        dispatch_step_spec(kind, true) == StreamStep::AbortAttempt,
        step_outcome_spec(StreamStep::AbortAttempt) == Some(SseAction::Abort),
        attempt_end_spec(s, SseAction::Abort).0 == s,
        attempt_end_spec(s, SseAction::Abort).1,
{
}

/// A `done` frame whose `Close` dispatch was not aborted closes the stream,
/// and that ends the attempt loop with the retry count unchanged and no
/// further attempt scheduled.
pub proof fn lemma_close_terminates(s: AttemptState)
    ensures
        dispatch_step_spec(FrameKind::Done, false) == StreamStep::CloseStream,
        step_outcome_spec(StreamStep::CloseStream) == Some(SseAction::Abort),
        attempt_end_spec(s, SseAction::Abort).0.retry_count == s.retry_count,
        attempt_end_spec(s, SseAction::Abort).1,
{
}

} // verus!
