use bevy_webxr::error::WebXrError;
use bevy_webxr::events::WebXrSessionInitialized;
use bevy_webxr::init::{
    begin_probe, begin_session, get_supported_sessions, initialize_button, initialize_canvas,
    initialize_reference_space, initialize_render_context, initialize_session, initialize_webxr,
    probed_mode, request_first_web_xr_frame, request_session, request_web_xr_frame, BindEvent,
    BindStep, DomEvent, DomStep, FirstFrame, FrameAction, FrameLoop, LoopState, Lookup, Presence,
    ProbeProgress, ProbeReply, ProbeState, Runner, SessionEvent, SessionRequest, SessionStep,
    Startup, SupportedSessions, XrButtonType, HAND_TRACKING,
};
use bevy_webxr::platform::{XrReferenceSpaceType, XrSessionMode};
use bevy_webxr::session::{
    init_context, init_session, poll_session, store_session, Negotiation, SessionNegotiator,
};
use bevy_webxr::tracking::space::XrOrigin;
use bevy_webxr::{set_xr_mode, EngineXrMode, WebXrPlugin, WebXrSettings, XrMode};

use XrSessionMode::{ImmersiveAr, ImmersiveVr, Inline};

type Js = &'static str;
type Error = WebXrError<Js>;

fn probe(replies: Vec<ProbeReply<Js>>) -> (Vec<XrSessionMode>, Result<SupportedSessions, Error>) {
    let mut asked = Vec::new();
    let mut state = begin_probe::<Js>(true).unwrap();
    let mut replies = replies.into_iter();
    loop {
        asked.push(probed_mode(state));
        match get_supported_sessions(state, replies.next().unwrap()) {
            Ok(ProbeProgress::Ask(next)) => state = next,
            Ok(ProbeProgress::Done(supported)) => return (asked, Ok(supported)),
            Err(error) => return (asked, Err(error)),
        }
    }
}

fn answers(inline: bool, vr: bool, ar: bool) -> Vec<ProbeReply<Js>> {
    vec![ProbeReply::Answer(inline), ProbeReply::Answer(vr), ProbeReply::Answer(ar)]
}

#[test]
fn support_is_probed_inline_vr_ar() {
    let all = vec![Inline, ImmersiveVr, ImmersiveAr];
    assert_eq!(
        probe(answers(true, false, true)),
        (all.clone(), Ok(SupportedSessions { inline: true, vr: false, ar: true }))
    );
    assert_eq!(
        probe(answers(false, true, false)),
        (all.clone(), Ok(SupportedSessions { inline: false, vr: true, ar: false }))
    );
    assert_eq!(
        probe(vec![ProbeReply::Rejected("denied")]),
        (vec![Inline], Err(WebXrError::JsError("denied")))
    );
    assert_eq!(
        probe(vec![ProbeReply::Answer(true), ProbeReply::NotABool]),
        (vec![Inline, ImmersiveVr], Err(WebXrError::NotABool))
    );
    let mut late = answers(true, true, true);
    late[2] = ProbeReply::Rejected("late");
    assert_eq!(probe(late), (all, Err(WebXrError::JsError("late"))));
    assert_eq!(begin_probe::<Js>(false), Err(WebXrError::NoWindow));
    assert_eq!(begin_probe::<Js>(true), Ok(ProbeState::Inline));
}

#[test]
fn start_up_follows_platform_and_settings() {
    let settings = WebXrSettings::default();
    let all = SupportedSessions { inline: true, vr: true, ar: true };
    assert_eq!(
        initialize_webxr(all, &settings),
        Startup { vr_button: true, ar_button: true, runner: Runner::InlineSession }
    );
    let no_ar = WebXrSettings { ar_supported: false, ..WebXrSettings::default() };
    assert_eq!(
        initialize_webxr(SupportedSessions { inline: false, vr: true, ar: true }, &no_ar),
        Startup { vr_button: true, ar_button: false, runner: Runner::Windowed }
    );
    assert_eq!(
        initialize_webxr(SupportedSessions { inline: false, vr: false, ar: false }, &settings),
        Startup { vr_button: false, ar_button: false, runner: Runner::Windowed }
    );
}

#[test]
fn settings_start_with_their_defaults() {
    let settings = WebXrSettings::default();
    assert!(settings.vr_supported);
    assert!(settings.ar_supported);
    assert!(!settings.inline_supported);
    assert_eq!(settings.vr_button, "vr_button");
    assert_eq!(settings.ar_button, "ar_button");
    assert_eq!(settings.canvas, "canvas[alt=\"App\"]");
    assert_eq!(settings.origin, XrOrigin::Room);
    assert_eq!(WebXrPlugin::default().settings, settings);
    assert_eq!(XrButtonType::VR.selector(&settings), "vr_button");
    assert_eq!(XrButtonType::AR.selector(&settings), "ar_button");
    assert_eq!(XrButtonType::VR.label(), "Enter VR");
    assert_eq!(XrButtonType::AR.label(), "Enter AR");
    assert_eq!(XrButtonType::VR.mode(), XrMode::VR);
    assert_eq!(XrButtonType::AR.mode(), XrMode::AR);
}

/// Runs the set-up of an element over `events`; gives the steps it went
/// through and how it ended.
fn set_up(
    button: Option<XrButtonType>,
    events: Vec<DomEvent<Js>>,
) -> (Vec<DomStep>, Result<DomStep, Error>) {
    let mut steps = vec![DomStep::Window];
    let mut step = DomStep::Window;
    for event in events {
        let next = match button {
            Some(button_type) => initialize_button(button_type, step, event),
            None => initialize_canvas(step, event),
        };
        match next {
            Ok(next) => {
                step = next;
                steps.push(next);
            }
            Err(error) => return (steps, Err(error)),
        }
    }
    (steps, Ok(step))
}

/// The answers that lead the set-up of an element to `step`.
fn answers_up_to(step: DomStep) -> Vec<DomEvent<Js>> {
    let all = vec![
        (DomStep::Window, DomEvent::Window(Presence::Present)),
        (DomStep::Document, DomEvent::Document(Presence::Present)),
        (DomStep::Find, DomEvent::Found(Lookup::Missing)),
        (DomStep::Create, DomEvent::Created(Lookup::Found)),
        (DomStep::Configure, DomEvent::Configured),
        (DomStep::Body, DomEvent::Body(Presence::Present)),
        (DomStep::Append, DomEvent::Appended(Ok(()))),
    ];
    all.into_iter().take_while(|(at, _)| *at != step).map(|(_, event)| event).collect()
}

fn failure(
    button: Option<XrButtonType>,
    step: DomStep,
    last: DomEvent<Js>,
) -> Result<DomStep, Error> {
    let mut events = answers_up_to(step);
    events.push(last);
    set_up(button, events).1
}

#[test]
fn an_element_is_found_or_created() {
    let mut found = answers_up_to(DomStep::Find);
    found.push(DomEvent::Found(Lookup::Found));
    let ready = DomStep::Ready { created: false };
    assert_eq!(
        set_up(None, found),
        (vec![DomStep::Window, DomStep::Document, DomStep::Find, ready], Ok(ready))
    );
    for missing in [Lookup::Missing, Lookup::Refused("bad selector")] {
        let mut events = answers_up_to(DomStep::Ready { created: true });
        events[2] = DomEvent::Found(missing);
        let created = set_up(Some(XrButtonType::AR), events);
        assert_eq!(
            created.0,
            vec![
                DomStep::Window,
                DomStep::Document,
                DomStep::Find,
                DomStep::Create,
                DomStep::Configure,
                DomStep::Body,
                DomStep::Append,
                DomStep::Ready { created: true }
            ]
        );
        assert_eq!(created.1, Ok(DomStep::Ready { created: true }));
    }
}

#[test]
fn an_element_fails_with_the_failure_of_its_step() {
    let vr = Some(XrButtonType::VR);
    let ar = Some(XrButtonType::AR);
    assert_eq!(
        failure(None, DomStep::Window, DomEvent::Window(Presence::Absent)),
        Err(WebXrError::NoWindow)
    );
    assert_eq!(
        failure(None, DomStep::Document, DomEvent::Document(Presence::Absent)),
        Err(WebXrError::NoDocument)
    );
    assert_eq!(
        failure(vr, DomStep::Find, DomEvent::Found(Lookup::WrongType("div"))),
        Err(WebXrError::ElementNotButtonElement("div"))
    );
    assert_eq!(
        failure(None, DomStep::Find, DomEvent::Found(Lookup::WrongType("div"))),
        Err(WebXrError::ElementNotCanvasElement("div"))
    );
    assert_eq!(
        failure(None, DomStep::Create, DomEvent::Created(Lookup::Refused("no"))),
        Err(WebXrError::JsError("no"))
    );
    assert_eq!(
        failure(ar, DomStep::Create, DomEvent::Created(Lookup::WrongType("span"))),
        Err(WebXrError::ElementNotButtonElement("span"))
    );
    assert_eq!(
        failure(None, DomStep::Create, DomEvent::Created(Lookup::Missing)),
        Err(WebXrError::NotSupported)
    );
    assert_eq!(
        failure(None, DomStep::Body, DomEvent::Body(Presence::Absent)),
        Err(WebXrError::NoBody)
    );
    assert_eq!(
        failure(None, DomStep::Append, DomEvent::Appended(Err("full"))),
        Err(WebXrError::JsError("full"))
    );
    assert_eq!(
        initialize_canvas::<Js>(DomStep::Find, DomEvent::Body(Presence::Absent)),
        Ok(DomStep::Find)
    );
    assert_eq!(
        initialize_canvas::<Js>(DomStep::Ready { created: true }, DomEvent::Configured),
        Ok(DomStep::Ready { created: true })
    );
}

#[test]
fn a_session_is_requested_by_its_mode() {
    let request = |mode| SessionRequest { mode, hand_tracking: true };
    assert_eq!(request_session(XrMode::VR), request(ImmersiveVr));
    assert_eq!(request_session(XrMode::AR), request(ImmersiveAr));
    assert_eq!(request_session(XrMode::Inline), request(Inline));
    assert_eq!(HAND_TRACKING, "hand-tracking");
}

#[test]
fn the_reference_space_follows_mode_and_origin() {
    let space = initialize_reference_space;
    for origin in [XrOrigin::View, XrOrigin::Seat, XrOrigin::Room] {
        assert_eq!(space(XrMode::VR, origin), XrReferenceSpaceType::Local);
        assert_eq!(space(XrMode::AR, origin), XrReferenceSpaceType::Local);
    }
    assert_eq!(space(XrMode::VR, XrOrigin::Other), XrReferenceSpaceType::Unbounded);
    assert_eq!(space(XrMode::AR, XrOrigin::Other), XrReferenceSpaceType::Unbounded);
    for origin in [XrOrigin::View, XrOrigin::Seat, XrOrigin::Room, XrOrigin::Other] {
        assert_eq!(space(XrMode::Inline, origin), XrReferenceSpaceType::Viewer);
    }
}

#[test]
fn the_render_context_is_bound_step_by_step() {
    let mut step = init_session::<u8, Js>(&Some(Ok(7))).unwrap();
    let mut steps = vec![step];
    for event in [
        BindEvent::Canvas(Lookup::Found),
        BindEvent::Context(Lookup::Found),
        BindEvent::Compatible(Ok(())),
        BindEvent::Layer(Ok(())),
        BindEvent::RenderStateUpdated,
    ] {
        step = init_context::<Js>(step, event).unwrap();
        steps.push(step);
    }
    assert_eq!(
        steps,
        vec![
            BindStep::FindCanvas,
            BindStep::GetContext,
            BindStep::MakeXrCompatible,
            BindStep::CreateLayer,
            BindStep::UpdateRenderState,
            BindStep::Bound
        ]
    );
    let context = initialize_render_context::<Js>;
    assert_eq!(
        context(BindStep::GetContext, BindEvent::Context(Lookup::Found)),
        Ok(BindStep::MakeXrCompatible)
    );
    assert_eq!(
        context(BindStep::FindCanvas, BindEvent::Canvas(Lookup::Found)),
        Ok(BindStep::FindCanvas)
    );
    assert_eq!(context(BindStep::Bound, BindEvent::RenderStateUpdated), Ok(BindStep::Bound));
}

#[test]
fn binding_fails_with_the_failure_of_its_step() {
    let canvas = |found| init_context::<Js>(BindStep::FindCanvas, BindEvent::Canvas(found));
    assert_eq!(canvas(Lookup::Missing), Err(WebXrError::CanvasNotFound));
    assert_eq!(canvas(Lookup::WrongType("div")), Err(WebXrError::CanvasNotFound));
    assert_eq!(canvas(Lookup::Refused("x")), Err(WebXrError::JsError("x")));
    for bind in [init_context::<Js>, initialize_render_context::<Js>] {
        let context = |found| bind(BindStep::GetContext, BindEvent::Context(found));
        assert_eq!(context(Lookup::Missing), Err(WebXrError::WebGl2ContextNotFound));
        assert_eq!(context(Lookup::WrongType("2d")), Err(WebXrError::WebGl2ContextNotFound));
        assert_eq!(context(Lookup::Refused("a")), Err(WebXrError::JsError("a")));
        assert_eq!(
            bind(BindStep::MakeXrCompatible, BindEvent::Compatible(Err("b"))),
            Err(WebXrError::JsError("b"))
        );
        assert_eq!(
            bind(BindStep::CreateLayer, BindEvent::Layer(Err("c"))),
            Err(WebXrError::JsError("c"))
        );
        assert_eq!(
            bind(BindStep::CreateLayer, BindEvent::Compatible(Err("c"))),
            Ok(BindStep::CreateLayer)
        );
    }
    assert_eq!(init_session::<u8, Js>(&None), Err(WebXrError::SessionError));
    assert_eq!(
        init_session::<u8, Js>(&Some(Err(WebXrError::SessionRequestError("no")))),
        Err(WebXrError::SessionError)
    );
}

#[test]
fn a_stored_session_is_initialised_once() {
    let granted = store_session::<u8, Js>(Ok(3));
    let denied = store_session::<u8, Js>(Err("denied"));
    assert_eq!(granted, Some(Ok(3)));
    assert_eq!(denied, Some(Err(WebXrError::SessionRequestError("denied"))));
    let mut initialized = false;
    assert!(!poll_session::<u8, Js>(&None, &mut initialized));
    assert!(!initialized);
    assert!(!poll_session(&denied, &mut initialized));
    assert!(!initialized);
    assert!(poll_session(&granted, &mut initialized));
    assert!(initialized);
    assert!(!poll_session(&granted, &mut initialized));
    assert!(initialized);
    assert!(!poll_session::<u8, Js>(&None, &mut initialized));
    assert!(initialized);
}

#[test]
fn a_session_starts_step_by_step() {
    assert_eq!(begin_session(false), SessionStep::RequestSession);
    let mut step = begin_session(true);
    let mut steps = vec![step];
    for event in [
        SessionEvent::PreviousEnded,
        SessionEvent::Session(Ok(())),
        SessionEvent::Canvas(Ok(())),
        SessionEvent::ReferenceSpace(Ok(())),
        SessionEvent::RenderContext(Ok(())),
        SessionEvent::FrameLoopStarted,
    ] {
        step = initialize_session::<Js>(step, event).unwrap();
        steps.push(step);
    }
    assert_eq!(
        steps,
        vec![
            SessionStep::EndPrevious,
            SessionStep::RequestSession,
            SessionStep::InitializeCanvas,
            SessionStep::RequestReferenceSpace,
            SessionStep::BindRenderContext,
            SessionStep::StartFrameLoop,
            SessionStep::Running
        ]
    );
}

#[test]
fn a_session_start_ends_with_the_first_failure() {
    let start = initialize_session::<Js>;
    assert_eq!(
        start(SessionStep::RequestSession, SessionEvent::Session(Err("no"))),
        Err(WebXrError::SessionRequestError("no"))
    );
    assert_eq!(
        start(SessionStep::InitializeCanvas, SessionEvent::Canvas(Err(WebXrError::NoBody))),
        Err(WebXrError::NoBody)
    );
    assert_eq!(
        start(SessionStep::RequestReferenceSpace, SessionEvent::ReferenceSpace(Err("far"))),
        Err(WebXrError::JsError("far"))
    );
    let unbound = SessionEvent::RenderContext(Err(WebXrError::WebGl2ContextNotFound));
    assert_eq!(
        start(SessionStep::BindRenderContext, unbound),
        Err(WebXrError::WebGl2ContextNotFound)
    );
    for (step, stray) in [
        (SessionStep::RequestSession, SessionEvent::FrameLoopStarted),
        (SessionStep::Running, SessionEvent::Session(Err("late"))),
        (SessionStep::BindRenderContext, SessionEvent::FrameLoopStarted),
    ] {
        assert_eq!(start(step, stray), Ok(step));
    }
}

#[test]
fn the_negotiator_starts_one_session_at_a_time() {
    let mut negotiator: SessionNegotiator<Js> = SessionNegotiator::new();
    assert_eq!(negotiator.state, Negotiation::Idle);
    assert_eq!(negotiator.advance(SessionEvent::FrameLoopStarted), None);
    assert_eq!(negotiator.state, Negotiation::Idle);

    assert_eq!(negotiator.activate(XrMode::VR), Some(SessionStep::RequestSession));
    assert_eq!(negotiator.activate(XrMode::AR), None);
    let starting = Negotiation::Starting { mode: XrMode::VR, step: SessionStep::RequestSession };
    assert_eq!(negotiator.state, starting);
    assert_eq!(negotiator.advance(SessionEvent::Canvas(Ok(()))), Some(SessionStep::RequestSession));
    assert_eq!(negotiator.state, starting);

    let steps = [
        (SessionEvent::Session(Ok(())), Some(SessionStep::InitializeCanvas)),
        (SessionEvent::Canvas(Ok(())), Some(SessionStep::RequestReferenceSpace)),
        (SessionEvent::ReferenceSpace(Ok(())), Some(SessionStep::BindRenderContext)),
        (SessionEvent::RenderContext(Ok(())), Some(SessionStep::StartFrameLoop)),
        (SessionEvent::FrameLoopStarted, None),
    ];
    for (event, due) in steps {
        assert_eq!(negotiator.advance(event), due);
    }
    assert_eq!(negotiator.state, Negotiation::Running { mode: XrMode::VR });

    assert_eq!(negotiator.activate(XrMode::AR), Some(SessionStep::EndPrevious));
    assert_eq!(negotiator.advance(SessionEvent::PreviousEnded), Some(SessionStep::RequestSession));
    assert_eq!(negotiator.advance(SessionEvent::Session(Err("denied"))), None);
    let failed = Negotiation::Failed(WebXrError::SessionRequestError("denied"));
    assert_eq!(negotiator.state, failed);
    assert_eq!(negotiator.advance(SessionEvent::Session(Ok(()))), None);
    assert_eq!(negotiator.state, failed);
    assert_eq!(negotiator.activate(XrMode::Inline), Some(SessionStep::RequestSession));
}

#[test]
fn the_frame_loop_is_armed_once_and_drives_one_update_per_frame() {
    let announce = |mode, origin| Some(WebXrSessionInitialized { mode, origin });
    let mut frame_loop = FrameLoop::new();
    assert_eq!(frame_loop.state, LoopState::Idle);
    assert_eq!(request_web_xr_frame(&frame_loop), vec![]);
    let first = request_first_web_xr_frame(&mut frame_loop, XrMode::VR, XrOrigin::Seat, true);
    assert_eq!(
        first,
        FirstFrame {
            request_frame: true,
            announce: announce(XrMode::VR, XrOrigin::Seat),
            finish_plugins: true,
        }
    );
    assert_eq!(frame_loop.state, LoopState::Running);
    let again = request_first_web_xr_frame(&mut frame_loop, XrMode::AR, XrOrigin::Room, true);
    assert_eq!(again, FirstFrame { request_frame: false, announce: None, finish_plugins: false });
    assert_eq!(frame_loop.state, LoopState::Running);
    let actions = request_web_xr_frame(&frame_loop);
    assert_eq!(
        actions,
        vec![
            FrameAction::RequestFrame,
            FrameAction::PublishFrame,
            FrameAction::Update,
            FrameAction::RetractFrame
        ]
    );
    assert_eq!(actions.iter().filter(|action| **action == FrameAction::Update).count(), 1);
    frame_loop.end_session();
    assert_eq!(request_web_xr_frame(&frame_loop), vec![]);
    let rearmed =
        request_first_web_xr_frame(&mut frame_loop, XrMode::Inline, XrOrigin::View, false);
    assert!(rearmed.request_frame && !rearmed.finish_plugins);
    assert_eq!(rearmed.announce, announce(XrMode::Inline, XrOrigin::View));
}

#[test]
fn the_engine_mode_follows_the_last_session() {
    let session = |mode| WebXrSessionInitialized { mode, origin: XrOrigin::Room };
    let vr = session(XrMode::VR);
    let ar = session(XrMode::AR);
    let inline = session(XrMode::Inline);
    assert_eq!(set_xr_mode(&vec![]), None);
    assert_eq!(set_xr_mode(&vec![vr]), Some(EngineXrMode::VR));
    assert_eq!(set_xr_mode(&vec![vr, ar]), Some(EngineXrMode::AR));
    assert_eq!(set_xr_mode(&vec![ar, inline]), Some(EngineXrMode::Flat));
}

#[test]
fn every_failure_has_its_text() {
    let no_button = "XR Initialize Element is not a html button element!";
    let no_canvas = "XR Initialize Element is not a html canvas element!";
    let texts: Vec<(Error, &str)> = vec![
        (WebXrError::JsError("e"), "Some js error."),
        (WebXrError::NotABool, "Failed to get bool from JsValue!"),
        (WebXrError::NotSupported, "WebXr currently not supported!"),
        (WebXrError::CanvasNotFound, "Canvas couldn't be found!"),
        (WebXrError::WebGl2ContextNotFound, "WebGL2 context not found!"),
        (WebXrError::SessionError, "Session lost!"),
        (WebXrError::NoWindow, "Browser window not found!"),
        (WebXrError::NoDocument, "HTML Document not found!"),
        (WebXrError::ElementNotButtonElement("e"), no_button),
        (WebXrError::ElementNotCanvasElement("e"), no_canvas),
        (WebXrError::NoBody, "HTML Body not found!"),
        (WebXrError::SessionRequestError("e"), "Failed to request xr session!"),
    ];
    for (error, text) in texts {
        assert_eq!(error.message(), text);
    }
}
