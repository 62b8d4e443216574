//! The session negotiator: at most one session, and at most one start of a
//! session under way. The result of a negotiation is stored, and whoever
//! wants to know it looks at what is stored.

use crate::error::WebXrError;
use crate::init::{
    context_step, first_session_step, initialize_render_context, initialize_session,
    session_step, BindEvent, BindStep, Lookup, SessionEvent, SessionStep,
};
use crate::XrMode;
use vstd::prelude::*;

verus! {

/// Whether a session is stored: the negotiation has ended, and it ended with
/// a session.
pub open spec fn has_session<S, E>(session: Option<Result<S, WebXrError<E>>>) -> bool {
    session matches Some(Ok(_))
}

/// What is stored when the negotiation ends: the session, or the failure of
/// its request. Nothing is tried again.
pub fn store_session<S, E>(reply: Result<S, E>) -> (stored: Option<Result<S, WebXrError<E>>>)
    ensures
        stored == match reply {
            Ok(session) => Some(Ok::<S, WebXrError<E>>(session)),
            Err(error) => Some(Err(WebXrError::SessionRequestError(error))),
        },
{
    match reply {
        Ok(session) => Some(Ok(session)),
        Err(error) => Some(Err(WebXrError::SessionRequestError(error))),
    }
}

/// Looks at the stored result of the negotiation. Returns whether the
/// session is to be initialised now: it is, once, at the first poll that
/// finds a session.
pub fn poll_session<S, E>(
    session: &Option<Result<S, WebXrError<E>>>,
    session_initialized: &mut bool,
) -> (start: bool)
    ensures
        start == (!*old(session_initialized) && has_session(*session)),
        *final(session_initialized) == (*old(session_initialized) || has_session(*session)),
{
    if !*session_initialized {
        match session {
            Some(Ok(_)) => {
                *session_initialized = true;
                true
            },
            _ => {
                *session_initialized = false;
                false
            },
        }
    } else {
        false
    }
}

/// Starts the initialisation of the stored session: the binding of the
/// render context, from the look-up of the canvas. Without a session there
/// is nothing to initialise.
pub fn init_session<S, E>(session: &Option<Result<S, WebXrError<E>>>) -> (first: Result<
    BindStep,
    WebXrError<E>,
>)
    ensures
        first == if has_session(*session) {
            Ok::<BindStep, WebXrError<E>>(BindStep::FindCanvas)
        } else {
            Err(WebXrError::SessionError)
        },
{
    match session {
        Some(Ok(_)) => Ok(BindStep::FindCanvas),
        _ => Err(WebXrError::SessionError),
    }
}

/// One step of render-context binding, from the look-up of the canvas. A
/// canvas that is missing, or is no canvas, is a canvas not found; the rest
/// is as [`context_step`] says.
pub open spec fn bind_step<E>(step: BindStep, event: BindEvent<E>) -> Result<
    BindStep,
    WebXrError<E>,
> {
    match (step, event) {
        (BindStep::FindCanvas, BindEvent::Canvas(Lookup::Found)) => Ok(BindStep::GetContext),
        (BindStep::FindCanvas, BindEvent::Canvas(Lookup::Missing)) => Err(
            WebXrError::CanvasNotFound,
        ),
        (BindStep::FindCanvas, BindEvent::Canvas(Lookup::WrongType(_))) => Err(
            WebXrError::CanvasNotFound,
        ),
        (BindStep::FindCanvas, BindEvent::Canvas(Lookup::Refused(error))) => Err(
            WebXrError::JsError(error),
        ),
        (step, event) => context_step(step, event),
    }
}

/// One step of render-context binding, from the look-up of the canvas: see
/// [`bind_step`].
pub fn init_context<E>(step: BindStep, event: BindEvent<E>) -> (next: Result<
    BindStep,
    WebXrError<E>,
>)
    ensures
        next == bind_step(step, event),
{
    match (step, event) {
        (BindStep::FindCanvas, BindEvent::Canvas(Lookup::Found)) => Ok(BindStep::GetContext),
        (BindStep::FindCanvas, BindEvent::Canvas(Lookup::Missing)) => Err(
            WebXrError::CanvasNotFound,
        ),
        (BindStep::FindCanvas, BindEvent::Canvas(Lookup::WrongType(_))) => Err(
            WebXrError::CanvasNotFound,
        ),
        (BindStep::FindCanvas, BindEvent::Canvas(Lookup::Refused(error))) => Err(
            WebXrError::JsError(error),
        ),
        (step, event) => initialize_render_context(step, event),
    }
}

/// The place of a step in the order of render-context binding.
pub open spec fn bind_rank(step: BindStep) -> int {
    match step {
        BindStep::FindCanvas => 0,
        BindStep::GetContext => 1,
        BindStep::MakeXrCompatible => 2,
        BindStep::CreateLayer => 3,
        BindStep::UpdateRenderState => 4,
        BindStep::Bound => 5,
    }
}

/// Binding never goes back and never skips a step, whichever way it is
/// entered: the render state is bound only after the context was made
/// compatible and the swap target was created.
pub proof fn lemma_bind_steps_in_order<E>(step: BindStep, event: BindEvent<E>)
    ensures
        bind_step(step, event) matches Ok(next) ==> bind_rank(next) == bind_rank(step)
            || bind_rank(next) == bind_rank(step) + 1,
        context_step(step, event) matches Ok(next) ==> bind_rank(next) == bind_rank(step)
            || bind_rank(next) == bind_rank(step) + 1,
{
}

/// Where the negotiator stands.
#[derive(Clone, Debug, PartialEq, Eq)]
pub enum Negotiation<E> {
    /// No session, and none asked for.
    Idle,
    /// A session of `mode` is being started; `step` is the step that is to
    /// be done next.
    Starting { mode: XrMode, step: SessionStep },
    /// A session of `mode` runs.
    Running { mode: XrMode },
    /// The last start failed. Nothing is tried again until a session is
    /// asked for again.
    Failed(WebXrError<E>),
}

/// The session negotiator.
#[derive(Clone, Debug, PartialEq, Eq)]
pub struct SessionNegotiator<E> {
    pub state: Negotiation<E>,
}

/// An activation. Where no start is under way, a start begins: with the end
/// of the session that runs, if one does, else with the request. Where a
/// start is under way, the activation is dropped.
pub open spec fn activated<E>(state: Negotiation<E>, mode: XrMode) -> Negotiation<E> {
    match state {
        Negotiation::Starting { .. } => state,
        Negotiation::Running { .. } => Negotiation::Starting {
            mode,
            step: first_session_step(true),
        },
        _ => Negotiation::Starting { mode, step: first_session_step(false) },
    }
}

/// What came of a step of the start that is under way: the start moves on as
/// [`session_step`] says, runs when its last step is done, and fails with
/// the failure of the step that failed. Where no start is under way, nothing
/// changes.
pub open spec fn advanced<E>(state: Negotiation<E>, event: SessionEvent<E>) -> Negotiation<E> {
    match state {
        Negotiation::Starting { mode, step } => match session_step(step, event) {
            Ok(SessionStep::Running) => Negotiation::Running { mode },
            Ok(next) => Negotiation::Starting { mode, step: next },
            Err(error) => Negotiation::Failed(error),
        },
        _ => state,
    }
}

/// The step that the application has to perform in `state`, if any.
pub open spec fn due<E>(state: Negotiation<E>) -> Option<SessionStep> {
    match state {
        Negotiation::Starting { step, .. } => Some(step),
        _ => None,
    }
}

impl<E> SessionNegotiator<E> {
    /// A negotiator without a session.
    pub fn new() -> (negotiator: SessionNegotiator<E>)
        ensures
            negotiator.state == Negotiation::<E>::Idle,
    {
        SessionNegotiator { state: Negotiation::Idle }
    }

    /// Asks for a session of `mode`: see [`activated`]. Returns the step to
    /// perform, or `None` where the activation was dropped.
    pub fn activate(&mut self, mode: XrMode) -> (step: Option<SessionStep>)
        ensures
            final(self).state == activated(old(self).state, mode),
            step == if old(self).state is Starting {
                None
            } else {
                due(final(self).state)
            },
    {
        match &self.state {
            Negotiation::Starting { .. } => None,
            Negotiation::Running { .. } => {
                self.state = Negotiation::Starting { mode, step: SessionStep::EndPrevious };
                Some(SessionStep::EndPrevious)
            },
            _ => {
                self.state = Negotiation::Starting { mode, step: SessionStep::RequestSession };
                Some(SessionStep::RequestSession)
            },
        }
    }

    /// Takes what came of the step that was due: see [`advanced`]. Returns
    /// the step to perform next, if the start goes on.
    pub fn advance(&mut self, event: SessionEvent<E>) -> (step: Option<SessionStep>)
        ensures
            final(self).state == advanced(old(self).state, event),
            step == due(final(self).state),
    {
        let started = match &self.state {
            Negotiation::Starting { mode, step } => Some((*mode, *step)),
            _ => None,
        };
        match started {
            Some((mode, step)) => match initialize_session(step, event) {
                Ok(SessionStep::Running) => {
                    self.state = Negotiation::Running { mode };
                    None
                },
                Ok(next) => {
                    self.state = Negotiation::Starting { mode, step: next };
                    Some(next)
                },
                Err(error) => {
                    self.state = Negotiation::Failed(error);
                    None
                },
            },
            None => None,
        }
    }
}

/// One start at a time, and one session at a time. An activation during a
/// start changes nothing. A start that replaces a running session begins
/// with the end of that session. And a negotiator runs a session only after
/// the last step of a start.
pub proof fn lemma_one_session_at_a_time<E>(
    state: Negotiation<E>,
    mode: XrMode,
    event: SessionEvent<E>,
)
    ensures
        state is Starting ==> activated(state, mode) == state,
        state is Running ==> due(activated(state, mode)) == Some(SessionStep::EndPrevious),
        advanced(state, event) is Running && !(state is Running) ==> state is Starting && (
        state->step == SessionStep::StartFrameLoop || state->step == SessionStep::Running),
        advanced(state, event) is Failed && !(state is Failed) ==> state is Starting,
{
}

} // verus!
