//! Session start-up as the application drives it: which sessions the
//! platform supports, the buttons that enter a session, and the steps from a
//! request to a running frame loop. Every function here decides one step;
//! the application performs it on the platform and comes back with what the
//! platform answered.

use crate::error::WebXrError;
use crate::events::WebXrSessionInitialized;
use crate::platform::{XrReferenceSpaceType, XrSessionMode};
use crate::tracking::space::XrOrigin;
use crate::{WebXrSettings, XrMode};
use vstd::prelude::*;

verus! {

/// Which session modes the platform supports.
#[derive(Clone, Copy, Debug, PartialEq, Eq, Hash, Structural)]
pub struct SupportedSessions {
    pub inline: bool,
    pub vr: bool,
    pub ar: bool,
}

/// The platform's answer to one support probe.
#[derive(Clone, Debug, PartialEq, Eq)]
pub enum ProbeReply<E> {
    /// The platform rejected the probe.
    Rejected(E),
    /// The platform answered with something that is no boolean.
    NotABool,
    Answer(bool),
}

/// The probe that is awaited, with the answers so far. The modes are probed
/// in the order inline, virtual reality, augmented reality.
#[derive(Clone, Copy, Debug, PartialEq, Eq, Hash, Structural)]
pub enum ProbeState {
    Inline,
    Vr { inline: bool },
    Ar { inline: bool, vr: bool },
}

/// Where the probing stands after an answer.
#[derive(Clone, Copy, Debug, PartialEq, Eq, Hash, Structural)]
pub enum ProbeProgress {
    /// The next probe is to be made.
    Ask(ProbeState),
    Done(SupportedSessions),
}

/// The mode that is probed in `state`.
pub open spec fn probed(state: ProbeState) -> XrSessionMode {
    match state {
        ProbeState::Inline => XrSessionMode::Inline,
        ProbeState::Vr { .. } => XrSessionMode::ImmersiveVr,
        ProbeState::Ar { .. } => XrSessionMode::ImmersiveAr,
    }
}

/// One answer. A probe that fails ends the probing with its failure; an
/// answer is recorded and leads to the next probe, or to the result after the
/// last.
pub open spec fn probe_step<E>(state: ProbeState, reply: ProbeReply<E>) -> Result<
    ProbeProgress,
    WebXrError<E>,
> {
    match reply {
        ProbeReply::Rejected(error) => Err(WebXrError::JsError(error)),
        ProbeReply::NotABool => Err(WebXrError::NotABool),
        ProbeReply::Answer(supported) => Ok(
            match state {
                ProbeState::Inline => ProbeProgress::Ask(ProbeState::Vr { inline: supported }),
                ProbeState::Vr { inline } => ProbeProgress::Ask(
                    ProbeState::Ar { inline, vr: supported },
                ),
                ProbeState::Ar { inline, vr } => ProbeProgress::Done(
                    SupportedSessions { inline, vr, ar: supported },
                ),
            },
        ),
    }
}

/// Starts the probing: without a browser window there is nothing to probe.
pub fn begin_probe<E>(window: bool) -> (start: Result<ProbeState, WebXrError<E>>)
    ensures
        start == if window {
            Ok::<ProbeState, WebXrError<E>>(ProbeState::Inline)
        } else {
            Err(WebXrError::NoWindow)
        },
{
    if window {
        Ok(ProbeState::Inline)
    } else {
        Err(WebXrError::NoWindow)
    }
}

/// The mode to probe in `state`: see [`probed`].
pub fn probed_mode(state: ProbeState) -> (mode: XrSessionMode)
    ensures
        mode == probed(state),
{
    match state {
        ProbeState::Inline => XrSessionMode::Inline,
        ProbeState::Vr { .. } => XrSessionMode::ImmersiveVr,
        ProbeState::Ar { .. } => XrSessionMode::ImmersiveAr,
    }
}

/// Takes the platform's answer to the probe awaited in `state`: see
/// [`probe_step`].
pub fn get_supported_sessions<E>(state: ProbeState, reply: ProbeReply<E>) -> (progress: Result<
    ProbeProgress,
    WebXrError<E>,
>)
    ensures
        progress == probe_step(state, reply),
{
    match reply {
        ProbeReply::Rejected(error) => Err(WebXrError::JsError(error)),
        ProbeReply::NotABool => Err(WebXrError::NotABool),
        ProbeReply::Answer(supported) => Ok(
            match state {
                ProbeState::Inline => ProbeProgress::Ask(ProbeState::Vr { inline: supported }),
                ProbeState::Vr { inline } => ProbeProgress::Ask(
                    ProbeState::Ar { inline, vr: supported },
                ),
                ProbeState::Ar { inline, vr } => ProbeProgress::Done(
                    SupportedSessions { inline, vr, ar: supported },
                ),
            },
        ),
    }
}

/// Three answers give the result, each answer in its place.
pub proof fn lemma_probe_answers<E>(inline: bool, vr: bool, ar: bool)
    ensures
        probe_step::<E>(ProbeState::Inline, ProbeReply::Answer(inline)) == Ok::<
            ProbeProgress,
            WebXrError<E>,
        >(ProbeProgress::Ask(ProbeState::Vr { inline })),
        probe_step::<E>(ProbeState::Vr { inline }, ProbeReply::Answer(vr)) == Ok::<
            ProbeProgress,
            WebXrError<E>,
        >(ProbeProgress::Ask(ProbeState::Ar { inline, vr })),
        probe_step::<E>(ProbeState::Ar { inline, vr }, ProbeReply::Answer(ar)) == Ok::<
            ProbeProgress,
            WebXrError<E>,
        >(ProbeProgress::Done(SupportedSessions { inline, vr, ar })),
{
}

/// How the application runs once the supported sessions are known.
#[derive(Clone, Copy, Debug, PartialEq, Eq, Hash, Structural)]
pub enum Runner {
    /// An inline session is started at once.
    InlineSession,
    /// The engine runs by its own clock in its window until a button enters
    /// a session.
    Windowed,
}

/// What start-up sets up.
#[derive(Clone, Copy, Debug, PartialEq, Eq, Hash, Structural)]
pub struct Startup {
    pub vr_button: bool,
    pub ar_button: bool,
    pub runner: Runner,
}

/// Decides what start-up sets up. A mode gets its button where the platform
/// supports it and the application wants it. Where the platform supports
/// inline sessions one is started; else the engine runs in its window.
pub fn initialize_webxr(supported: SupportedSessions, settings: &WebXrSettings) -> (startup:
    Startup)
    ensures
        startup.vr_button == (supported.vr && settings.vr_supported),
        startup.ar_button == (supported.ar && settings.ar_supported),
        startup.runner == if supported.inline {
            Runner::InlineSession
        } else {
            Runner::Windowed
        },
{
    Startup {
        vr_button: supported.vr && settings.vr_supported,
        ar_button: supported.ar && settings.ar_supported,
        runner: if supported.inline {
            Runner::InlineSession
        } else {
            Runner::Windowed
        },
    }
}

/// The buttons that enter a session.
#[derive(Clone, Copy, Debug, PartialEq, Eq, Hash, Structural)]
pub enum XrButtonType {
    VR,
    AR,
}

impl XrButtonType {
    /// The session that the button enters.
    pub fn mode(self) -> (mode: XrMode)
        ensures
            mode == match self {
                XrButtonType::VR => XrMode::VR,
                XrButtonType::AR => XrMode::AR,
            },
    {
        match self {
            XrButtonType::VR => XrMode::VR,
            XrButtonType::AR => XrMode::AR,
        }
    }

    /// The text of a button that had to be created.
    pub fn label(self) -> (label: &'static str)
        ensures
            label@ == match self {
                XrButtonType::VR => "Enter VR"@,
                XrButtonType::AR => "Enter AR"@,
            },
    {
        match self {
            XrButtonType::VR => "Enter VR",
            XrButtonType::AR => "Enter AR",
        }
    }

    /// The selector under which the button is looked up.
    pub fn selector(self, settings: &WebXrSettings) -> (selector: &String)
        ensures
            selector@ == match self {
                XrButtonType::VR => settings.vr_button@,
                XrButtonType::AR => settings.ar_button@,
            },
    {
        match self {
            XrButtonType::VR => &settings.vr_button,
            XrButtonType::AR => &settings.ar_button,
        }
    }
}

/// The element that is set up: a button, or the canvas.
#[derive(Clone, Copy, Debug, PartialEq, Eq, Hash, Structural)]
pub enum ElementKind {
    Button(XrButtonType),
    Canvas,
}

/// The step of an element's set-up that is to be done next.
#[derive(Clone, Copy, Debug, PartialEq, Eq, Hash, Structural)]
pub enum DomStep {
    /// Get the browser window.
    Window,
    /// Get the window's document.
    Document,
    /// Look the element up by its selector.
    Find,
    /// Create the element.
    Create,
    /// Give the created element its text or its identity.
    Configure,
    /// Get the document's body.
    Body,
    /// Append the created element to the body.
    Append,
    /// The element is there. `created` tells whether it had to be created.
    Ready { created: bool },
}

/// Whether the platform has a thing.
#[derive(Clone, Copy, Debug, PartialEq, Eq, Hash, Structural)]
pub enum Presence {
    Present,
    Absent,
}

/// What looking an element up, or creating one, came to.
#[derive(Clone, Debug, PartialEq, Eq)]
pub enum Lookup<E> {
    Found,
    Missing,
    /// There is an element, of another type; carries the element.
    WrongType(E),
    /// The platform rejected the request.
    Refused(E),
}

/// What the platform answered to a step of an element's set-up.
#[derive(Debug, PartialEq, Eq)]
pub enum DomEvent<E> {
    Window(Presence),
    Document(Presence),
    Found(Lookup<E>),
    Created(Lookup<E>),
    Configured,
    Body(Presence),
    Appended(Result<(), E>),
}

/// The failure of an element that is of another type than its kind asks for.
pub open spec fn wrong_element<E>(kind: ElementKind, element: E) -> WebXrError<E> {
    match kind {
        ElementKind::Button(_) => WebXrError::ElementNotButtonElement(element),
        ElementKind::Canvas => WebXrError::ElementNotCanvasElement(element),
    }
}

/// One step of an element's set-up. The element is looked up by its
/// selector; one that is found is taken as it is. One that is not found, or
/// cannot be looked up, is created, configured and appended to the body. An
/// answer to another step than the one that is due changes nothing.
pub open spec fn element_step<E>(kind: ElementKind, step: DomStep, event: DomEvent<E>) -> Result<
    DomStep,
    WebXrError<E>,
> {
    match (step, event) {
        (DomStep::Window, DomEvent::Window(Presence::Present)) => Ok(DomStep::Document),
        (DomStep::Window, DomEvent::Window(Presence::Absent)) => Err(WebXrError::NoWindow),
        (DomStep::Document, DomEvent::Document(Presence::Present)) => Ok(DomStep::Find),
        (DomStep::Document, DomEvent::Document(Presence::Absent)) => Err(WebXrError::NoDocument),
        (DomStep::Find, DomEvent::Found(Lookup::Found)) => Ok(DomStep::Ready { created: false }),
        (DomStep::Find, DomEvent::Found(Lookup::WrongType(element))) => Err(
            wrong_element(kind, element),
        ),
        (DomStep::Find, DomEvent::Found(Lookup::Missing)) => Ok(DomStep::Create),
        (DomStep::Find, DomEvent::Found(Lookup::Refused(_))) => Ok(DomStep::Create),
        (DomStep::Create, DomEvent::Created(Lookup::Found)) => Ok(DomStep::Configure),
        (DomStep::Create, DomEvent::Created(Lookup::WrongType(element))) => Err(
            wrong_element(kind, element),
        ),
        (DomStep::Create, DomEvent::Created(Lookup::Missing)) => Err(WebXrError::NotSupported),
        (DomStep::Create, DomEvent::Created(Lookup::Refused(error))) => Err(
            WebXrError::JsError(error),
        ),
        (DomStep::Configure, DomEvent::Configured) => Ok(DomStep::Body),
        (DomStep::Body, DomEvent::Body(Presence::Present)) => Ok(DomStep::Append),
        (DomStep::Body, DomEvent::Body(Presence::Absent)) => Err(WebXrError::NoBody),
        (DomStep::Append, DomEvent::Appended(Ok(_))) => Ok(DomStep::Ready { created: true }),
        (DomStep::Append, DomEvent::Appended(Err(error))) => Err(WebXrError::JsError(error)),
        _ => Ok(step),
    }
}

fn set_up_element<E>(kind: ElementKind, step: DomStep, event: DomEvent<E>) -> (next: Result<
    DomStep,
    WebXrError<E>,
>)
    ensures
        next == element_step(kind, step, event),
{
    match (step, event) {
        (DomStep::Window, DomEvent::Window(Presence::Present)) => Ok(DomStep::Document),
        (DomStep::Window, DomEvent::Window(Presence::Absent)) => Err(WebXrError::NoWindow),
        (DomStep::Document, DomEvent::Document(Presence::Present)) => Ok(DomStep::Find),
        (DomStep::Document, DomEvent::Document(Presence::Absent)) => Err(WebXrError::NoDocument),
        (DomStep::Find, DomEvent::Found(Lookup::Found)) => Ok(DomStep::Ready { created: false }),
        (DomStep::Find, DomEvent::Found(Lookup::WrongType(element))) => Err(
            match kind {
                ElementKind::Button(_) => WebXrError::ElementNotButtonElement(element),
                ElementKind::Canvas => WebXrError::ElementNotCanvasElement(element),
            },
        ),
        (DomStep::Find, DomEvent::Found(Lookup::Missing)) => Ok(DomStep::Create),
        (DomStep::Find, DomEvent::Found(Lookup::Refused(_))) => Ok(DomStep::Create),
        (DomStep::Create, DomEvent::Created(Lookup::Found)) => Ok(DomStep::Configure),
        (DomStep::Create, DomEvent::Created(Lookup::WrongType(element))) => Err(
            match kind {
                ElementKind::Button(_) => WebXrError::ElementNotButtonElement(element),
                ElementKind::Canvas => WebXrError::ElementNotCanvasElement(element),
            },
        ),
        (DomStep::Create, DomEvent::Created(Lookup::Missing)) => Err(WebXrError::NotSupported),
        (DomStep::Create, DomEvent::Created(Lookup::Refused(error))) => Err(
            WebXrError::JsError(error),
        ),
        (DomStep::Configure, DomEvent::Configured) => Ok(DomStep::Body),
        (DomStep::Body, DomEvent::Body(Presence::Present)) => Ok(DomStep::Append),
        (DomStep::Body, DomEvent::Body(Presence::Absent)) => Err(WebXrError::NoBody),
        (DomStep::Append, DomEvent::Appended(Ok(_))) => Ok(DomStep::Ready { created: true }),
        (DomStep::Append, DomEvent::Appended(Err(error))) => Err(WebXrError::JsError(error)),
        _ => Ok(step),
    }
}

/// One step of the set-up of a button that enters a session: see
/// [`element_step`]. The button is looked up under
/// [`XrButtonType::selector`]; one that is created is a `button` element with
/// the text [`XrButtonType::label`]. A click on the button, once it is
/// ready, starts a session of [`XrButtonType::mode`].
pub fn initialize_button<E>(button_type: XrButtonType, step: DomStep, event: DomEvent<E>) -> (next:
    Result<DomStep, WebXrError<E>>)
    ensures
        next == element_step(ElementKind::Button(button_type), step, event),
{
    set_up_element(ElementKind::Button(button_type), step, event)
}

/// One step of the set-up of the canvas: see [`element_step`]. The canvas is
/// looked up under the selector of the settings; one that is created is a
/// `canvas` element that carries the selector as its identity.
pub fn initialize_canvas<E>(step: DomStep, event: DomEvent<E>) -> (next: Result<
    DomStep,
    WebXrError<E>,
>)
    ensures
        next == element_step(ElementKind::Canvas, step, event),
{
    set_up_element(ElementKind::Canvas, step, event)
}

/// What is asked of the platform with a session.
#[derive(Clone, Copy, Debug, PartialEq, Eq, Hash, Structural)]
pub struct SessionRequest {
    pub mode: XrSessionMode,
    /// Whether hand tracking is asked for as an optional feature.
    pub hand_tracking: bool,
}

/// The platform's name of the optional feature that gives hands.
pub const HAND_TRACKING: &'static str = "hand-tracking";

/// The platform's session mode of a session.
pub open spec fn session_mode(mode: XrMode) -> XrSessionMode {
    match mode {
        XrMode::VR => XrSessionMode::ImmersiveVr,
        XrMode::AR => XrSessionMode::ImmersiveAr,
        XrMode::Inline => XrSessionMode::Inline,
    }
}

/// What to ask of the platform for a session of `mode`: the platform's mode
/// of that name, with hand tracking as an optional feature.
pub fn request_session(mode: XrMode) -> (request: SessionRequest)
    ensures
        request.mode == session_mode(mode),
        request.hand_tracking,
{
    SessionRequest {
        mode: match mode {
            XrMode::VR => XrSessionMode::ImmersiveVr,
            XrMode::AR => XrSessionMode::ImmersiveAr,
            XrMode::Inline => XrSessionMode::Inline,
        },
        hand_tracking: true,
    }
}

/// The reference space of a session. An inline session sees by the viewer.
/// An immersive one is local to where it started, but for an origin that is
/// none of view, seat and room, which is unbounded.
pub open spec fn reference_space(mode: XrMode, origin: XrOrigin) -> XrReferenceSpaceType {
    match (mode, origin) {
        (XrMode::Inline, _) => XrReferenceSpaceType::Viewer,
        (_, XrOrigin::Other) => XrReferenceSpaceType::Unbounded,
        (_, _) => XrReferenceSpaceType::Local,
    }
}

/// The reference space to ask for: see [`reference_space`].
pub fn initialize_reference_space(xr_mode: XrMode, xr_origin: XrOrigin) -> (space_type:
    XrReferenceSpaceType)
    ensures
        space_type == reference_space(xr_mode, xr_origin),
{
    match (xr_mode, xr_origin) {
        (XrMode::VR, XrOrigin::View) => XrReferenceSpaceType::Local,
        (XrMode::VR, XrOrigin::Seat) => XrReferenceSpaceType::Local,
        (XrMode::VR, XrOrigin::Room) => XrReferenceSpaceType::Local,
        (XrMode::VR, XrOrigin::Other) => XrReferenceSpaceType::Unbounded,
        (XrMode::AR, XrOrigin::View) => XrReferenceSpaceType::Local,
        (XrMode::AR, XrOrigin::Seat) => XrReferenceSpaceType::Local,
        (XrMode::AR, XrOrigin::Room) => XrReferenceSpaceType::Local,
        (XrMode::AR, XrOrigin::Other) => XrReferenceSpaceType::Unbounded,
        (XrMode::Inline, _) => XrReferenceSpaceType::Viewer,
    }
}

/// The step of render-context binding that is to be done next.
#[derive(Clone, Copy, Debug, PartialEq, Eq, Hash, Structural)]
pub enum BindStep {
    /// Look the canvas up by its selector.
    FindCanvas,
    /// Get the canvas's drawing context.
    GetContext,
    /// Make the context compatible with the XR compositor.
    MakeXrCompatible,
    /// Create the compositor's swap target from the session and the context.
    CreateLayer,
    /// Install the swap target as the base layer of the session's render
    /// state.
    UpdateRenderState,
    /// The render state is bound; the frame loop may start.
    Bound,
}

/// What the platform answered to a step of render-context binding.
#[derive(Debug, PartialEq, Eq)]
pub enum BindEvent<E> {
    Canvas(Lookup<E>),
    Context(Lookup<E>),
    Compatible(Result<(), E>),
    Layer(Result<(), E>),
    RenderStateUpdated,
}

/// One step of render-context binding on a canvas that is at hand. A
/// context that is missing or of another type is a context not found; a
/// rejection by the platform is the platform's error. An answer to another
/// step than the one that is due changes nothing.
pub open spec fn context_step<E>(step: BindStep, event: BindEvent<E>) -> Result<
    BindStep,
    WebXrError<E>,
> {
    match (step, event) {
        (BindStep::GetContext, BindEvent::Context(Lookup::Found)) => Ok(BindStep::MakeXrCompatible),
        (BindStep::GetContext, BindEvent::Context(Lookup::Missing)) => Err(
            WebXrError::WebGl2ContextNotFound,
        ),
        (BindStep::GetContext, BindEvent::Context(Lookup::WrongType(_))) => Err(
            WebXrError::WebGl2ContextNotFound,
        ),
        (BindStep::GetContext, BindEvent::Context(Lookup::Refused(error))) => Err(
            WebXrError::JsError(error),
        ),
        (BindStep::MakeXrCompatible, BindEvent::Compatible(Ok(_))) => Ok(BindStep::CreateLayer),
        (BindStep::MakeXrCompatible, BindEvent::Compatible(Err(error))) => Err(
            WebXrError::JsError(error),
        ),
        (BindStep::CreateLayer, BindEvent::Layer(Ok(_))) => Ok(BindStep::UpdateRenderState),
        (BindStep::CreateLayer, BindEvent::Layer(Err(error))) => Err(WebXrError::JsError(error)),
        (BindStep::UpdateRenderState, BindEvent::RenderStateUpdated) => Ok(BindStep::Bound),
        _ => Ok(step),
    }
}

/// One step of render-context binding on a canvas that is at hand: see
/// [`context_step`]. The binding starts at [`BindStep::GetContext`].
pub fn initialize_render_context<E>(step: BindStep, event: BindEvent<E>) -> (next: Result<
    BindStep,
    WebXrError<E>,
>)
    ensures
        next == context_step(step, event),
{
    match (step, event) {
        (BindStep::GetContext, BindEvent::Context(Lookup::Found)) => Ok(BindStep::MakeXrCompatible),
        (BindStep::GetContext, BindEvent::Context(Lookup::Missing)) => Err(
            WebXrError::WebGl2ContextNotFound,
        ),
        (BindStep::GetContext, BindEvent::Context(Lookup::WrongType(_))) => Err(
            WebXrError::WebGl2ContextNotFound,
        ),
        (BindStep::GetContext, BindEvent::Context(Lookup::Refused(error))) => Err(
            WebXrError::JsError(error),
        ),
        (BindStep::MakeXrCompatible, BindEvent::Compatible(Ok(_))) => Ok(BindStep::CreateLayer),
        (BindStep::MakeXrCompatible, BindEvent::Compatible(Err(error))) => Err(
            WebXrError::JsError(error),
        ),
        (BindStep::CreateLayer, BindEvent::Layer(Ok(_))) => Ok(BindStep::UpdateRenderState),
        (BindStep::CreateLayer, BindEvent::Layer(Err(error))) => Err(WebXrError::JsError(error)),
        (BindStep::UpdateRenderState, BindEvent::RenderStateUpdated) => Ok(BindStep::Bound),
        _ => Ok(step),
    }
}

/// The step of a session's start that is to be done next.
#[derive(Clone, Copy, Debug, PartialEq, Eq, Hash, Structural)]
pub enum SessionStep {
    /// End the session that is live.
    EndPrevious,
    /// Request the session: see [`request_session`].
    RequestSession,
    /// Set the canvas up: see [`initialize_canvas`].
    InitializeCanvas,
    /// Request the reference space: see [`initialize_reference_space`].
    RequestReferenceSpace,
    /// Bind the render context: see [`initialize_render_context`].
    BindRenderContext,
    /// Arm the frame loop: see [`request_first_web_xr_frame`].
    StartFrameLoop,
    /// The session runs.
    Running,
}

/// What a step of a session's start came to.
#[derive(Debug, PartialEq, Eq)]
pub enum SessionEvent<E> {
    /// The session that was live has ended, or could not be ended.
    PreviousEnded,
    Session(Result<(), E>),
    Canvas(Result<(), WebXrError<E>>),
    ReferenceSpace(Result<(), E>),
    RenderContext(Result<(), WebXrError<E>>),
    FrameLoopStarted,
}

/// The first step of a session's start: a session that is live is ended
/// before another is requested.
pub open spec fn first_session_step(live: bool) -> SessionStep {
    if live {
        SessionStep::EndPrevious
    } else {
        SessionStep::RequestSession
    }
}

/// One step of a session's start. The steps are taken in their order, and
/// the first that fails ends the start with its failure: the frame loop
/// starts only with a session, a canvas, a reference space and a bound
/// render context. An answer to another step than the one that is due
/// changes nothing.
pub open spec fn session_step<E>(step: SessionStep, event: SessionEvent<E>) -> Result<
    SessionStep,
    WebXrError<E>,
> {
    match (step, event) {
        (SessionStep::EndPrevious, SessionEvent::PreviousEnded) => Ok(SessionStep::RequestSession),
        (SessionStep::RequestSession, SessionEvent::Session(Ok(_))) => Ok(
            SessionStep::InitializeCanvas,
        ),
        (SessionStep::RequestSession, SessionEvent::Session(Err(error))) => Err(
            WebXrError::SessionRequestError(error),
        ),
        (SessionStep::InitializeCanvas, SessionEvent::Canvas(Ok(_))) => Ok(
            SessionStep::RequestReferenceSpace,
        ),
        (SessionStep::InitializeCanvas, SessionEvent::Canvas(Err(error))) => Err(error),
        (SessionStep::RequestReferenceSpace, SessionEvent::ReferenceSpace(Ok(_))) => Ok(
            SessionStep::BindRenderContext,
        ),
        (SessionStep::RequestReferenceSpace, SessionEvent::ReferenceSpace(Err(error))) => Err(
            WebXrError::JsError(error),
        ),
        (SessionStep::BindRenderContext, SessionEvent::RenderContext(Ok(_))) => Ok(
            SessionStep::StartFrameLoop,
        ),
        (SessionStep::BindRenderContext, SessionEvent::RenderContext(Err(error))) => Err(error),
        (SessionStep::StartFrameLoop, SessionEvent::FrameLoopStarted) => Ok(SessionStep::Running),
        _ => Ok(step),
    }
}

/// The first step of a session's start: see [`first_session_step`].
pub fn begin_session(live: bool) -> (step: SessionStep)
    ensures
        step == first_session_step(live),
{
    if live {
        SessionStep::EndPrevious
    } else {
        SessionStep::RequestSession
    }
}

/// One step of a session's start: see [`session_step`].
pub fn initialize_session<E>(step: SessionStep, event: SessionEvent<E>) -> (next: Result<
    SessionStep,
    WebXrError<E>,
>)
    ensures
        next == session_step(step, event),
{
    match (step, event) {
        (SessionStep::EndPrevious, SessionEvent::PreviousEnded) => Ok(SessionStep::RequestSession),
        (SessionStep::RequestSession, SessionEvent::Session(Ok(_))) => Ok(
            SessionStep::InitializeCanvas,
        ),
        (SessionStep::RequestSession, SessionEvent::Session(Err(error))) => Err(
            WebXrError::SessionRequestError(error),
        ),
        (SessionStep::InitializeCanvas, SessionEvent::Canvas(Ok(_))) => Ok(
            SessionStep::RequestReferenceSpace,
        ),
        (SessionStep::InitializeCanvas, SessionEvent::Canvas(Err(error))) => Err(error),
        (SessionStep::RequestReferenceSpace, SessionEvent::ReferenceSpace(Ok(_))) => Ok(
            SessionStep::BindRenderContext,
        ),
        (SessionStep::RequestReferenceSpace, SessionEvent::ReferenceSpace(Err(error))) => Err(
            WebXrError::JsError(error),
        ),
        (SessionStep::BindRenderContext, SessionEvent::RenderContext(Ok(_))) => Ok(
            SessionStep::StartFrameLoop,
        ),
        (SessionStep::BindRenderContext, SessionEvent::RenderContext(Err(error))) => Err(error),
        (SessionStep::StartFrameLoop, SessionEvent::FrameLoopStarted) => Ok(SessionStep::Running),
        _ => Ok(step),
    }
}

/// The place of a step in the order of a session's start.
pub open spec fn session_rank(step: SessionStep) -> int {
    match step {
        SessionStep::EndPrevious => 0,
        SessionStep::RequestSession => 1,
        SessionStep::InitializeCanvas => 2,
        SessionStep::RequestReferenceSpace => 3,
        SessionStep::BindRenderContext => 4,
        SessionStep::StartFrameLoop => 5,
        SessionStep::Running => 6,
    }
}

/// A session's start never goes back and never skips a step: a step leads to
/// itself or to the step right behind it. So the frame loop is armed only
/// after the render context was bound, and that only after the session was
/// granted.
pub proof fn lemma_session_steps_in_order<E>(step: SessionStep, event: SessionEvent<E>)
    ensures
        session_step(step, event) matches Ok(next) ==> session_rank(next) == session_rank(step)
            || session_rank(next) == session_rank(step) + 1,
        session_step(step, event) == Ok::<SessionStep, WebXrError<E>>(SessionStep::StartFrameLoop)
            && step != SessionStep::StartFrameLoop ==> step == SessionStep::BindRenderContext && (
        event matches SessionEvent::RenderContext(Ok(_))),
{
}

/// Whether a frame loop runs.
#[derive(Clone, Copy, Debug, PartialEq, Eq, Hash, Structural)]
pub enum LoopState {
    /// No frame is requested of the device.
    Idle,
    /// One frame is requested of the device.
    Running,
}

/// The driver of the frame loop.
#[derive(Clone, Copy, Debug, PartialEq, Eq, Hash, Structural)]
pub struct FrameLoop {
    pub state: LoopState,
}

/// What arming the frame loop asks of the application.
#[derive(Clone, Copy, Debug, PartialEq, Eq, Hash, Structural)]
pub struct FirstFrame {
    /// Whether to request a frame of the device.
    pub request_frame: bool,
    /// The event to send, if any.
    pub announce: Option<WebXrSessionInitialized>,
    /// Whether to finish the engine's plugins and clean up after them.
    pub finish_plugins: bool,
}

/// What the driver does in a frame callback, in this order.
#[derive(Clone, Copy, Debug, PartialEq, Eq, Hash, Structural)]
pub enum FrameAction {
    /// Request the next frame of the device.
    RequestFrame,
    /// Make the frame available to the engine.
    PublishFrame,
    /// Drive one update of the engine.
    Update,
    /// Take the frame away from the engine.
    RetractFrame,
}

/// Arming an idle loop: one frame is requested, the session is announced,
/// and the plugins are finished if they are ready. A loop that runs has its
/// frame requested already, and arming it again asks for nothing.
pub open spec fn first_frame(
    state: LoopState,
    mode: XrMode,
    origin: XrOrigin,
    plugins_ready: bool,
) -> FirstFrame {
    match state {
        LoopState::Idle => FirstFrame {
            request_frame: true,
            announce: Some(WebXrSessionInitialized { mode, origin }),
            finish_plugins: plugins_ready,
        },
        LoopState::Running => FirstFrame {
            request_frame: false,
            announce: None,
            finish_plugins: false,
        },
    }
}

/// What a frame callback does. In a loop that runs: the next frame is
/// requested first, so that a slow update does not hold the device back;
/// then the frame is published, one update is driven, and the frame is
/// retracted. In an idle loop: nothing, and so no further callback comes.
pub open spec fn frame_actions(state: LoopState) -> Seq<FrameAction> {
    match state {
        LoopState::Idle => Seq::empty(),
        LoopState::Running => seq![
            FrameAction::RequestFrame,
            FrameAction::PublishFrame,
            FrameAction::Update,
            FrameAction::RetractFrame,
        ],
    }
}

impl FrameLoop {
    /// An idle loop.
    pub fn new() -> (frame_loop: FrameLoop)
        ensures
            frame_loop.state == LoopState::Idle,
    {
        FrameLoop { state: LoopState::Idle }
    }

    /// Stops the loop when its session ends: the callbacks that still come
    /// do nothing.
    pub fn end_session(&mut self)
        ensures
            final(self).state == LoopState::Idle,
    {
        self.state = LoopState::Idle;
    }
}

/// Arms the frame loop of a session that is bound: see [`first_frame`].
pub fn request_first_web_xr_frame(
    frame_loop: &mut FrameLoop,
    mode: XrMode,
    origin: XrOrigin,
    plugins_ready: bool,
) -> (first: FirstFrame)
    ensures
        first == first_frame(old(frame_loop).state, mode, origin, plugins_ready),
        final(frame_loop).state == LoopState::Running,
{
    match frame_loop.state {
        LoopState::Idle => {
            frame_loop.state = LoopState::Running;
            FirstFrame {
                request_frame: true,
                announce: Some(WebXrSessionInitialized { mode, origin }),
                finish_plugins: plugins_ready,
            }
        },
        LoopState::Running => FirstFrame {
            request_frame: false,
            announce: None,
            finish_plugins: false,
        },
    }
}

/// What to do in a frame callback: see [`frame_actions`].
pub fn request_web_xr_frame(frame_loop: &FrameLoop) -> (actions: Vec<FrameAction>)
    ensures
        actions@ == frame_actions(frame_loop.state),
{
    let mut actions: Vec<FrameAction> = Vec::new();
    match frame_loop.state {
        LoopState::Idle => {},
        LoopState::Running => {
            actions.push(FrameAction::RequestFrame);
            actions.push(FrameAction::PublishFrame);
            actions.push(FrameAction::Update);
            actions.push(FrameAction::RetractFrame);
        },
    }
    actions
}

/// A frame callback drives exactly one update, between publishing the frame
/// and retracting it, and requests exactly one frame, before the update.
/// Together with [`first_frame`] this keeps at most one frame requested of
/// the device at any time.
pub proof fn lemma_one_update_per_frame(state: LoopState)
    ensures
        state == LoopState::Running ==> frame_actions(state).len() == 4 && frame_actions(state)[0]
            == FrameAction::RequestFrame && frame_actions(state)[1] == FrameAction::PublishFrame
            && frame_actions(state)[2] == FrameAction::Update && frame_actions(state)[3]
            == FrameAction::RetractFrame,
        state == LoopState::Idle ==> frame_actions(state).len() == 0,
{
}

} // verus!
