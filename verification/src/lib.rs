//! Verified core of a WebXR integration layer: the decisions that map what the
//! XR device reports each frame onto a stable set of engine entities, and the
//! steps by which a session is negotiated, bound and driven.

use vstd::prelude::*;

use crate::events::WebXrSessionInitialized;
use crate::platform::{XrInputSource, XrViewerPose, XrWebGlLayer};
use crate::tracking::space::XrOrigin;

pub mod camera;
pub mod error;
pub mod events;
pub mod init;
pub mod platform;
pub mod session;
pub mod tracking;
pub mod world;

verus! {

/// The kind of session: virtual reality, augmented reality, or a view inside
/// the page.
#[derive(Clone, Copy, Debug, PartialEq, Eq, Hash, Structural)]
pub enum XrMode {
    VR,
    AR,
    Inline,
}

/// The XR mode that the engine runs in.
#[derive(Clone, Copy, Debug, PartialEq, Eq, Hash, Structural)]
pub enum EngineXrMode {
    VR,
    AR,
    /// No immersive mode: the engine renders into the page.
    Flat,
}

/// What the application wants of the integration.
#[derive(Clone, Debug, PartialEq, Eq)]
pub struct WebXrSettings {
    pub vr_supported: bool,
    pub ar_supported: bool,
    pub inline_supported: bool,
    /// Selector of the button that enters virtual reality.
    pub vr_button: String,
    /// Selector of the button that enters augmented reality.
    pub ar_button: String,
    /// Selector of the canvas to draw on.
    pub canvas: String,
    pub origin: XrOrigin,
}

impl Default for WebXrSettings {
    fn default() -> (settings: WebXrSettings)
        ensures
            settings.vr_supported,
            settings.ar_supported,
            !settings.inline_supported,
            settings.vr_button@ == "vr_button"@,
            settings.ar_button@ == "ar_button"@,
            settings.canvas@ == "canvas[alt=\"App\"]"@,
            settings.origin == XrOrigin::Room,
    {
        WebXrSettings {
            vr_supported: true,
            ar_supported: true,
            inline_supported: false,
            vr_button: "vr_button".to_owned(),
            ar_button: "ar_button".to_owned(),
            canvas: "canvas[alt=\"App\"]".to_owned(),
            origin: XrOrigin::Room,
        }
    }
}

/// The integration as the application adds it to the engine.
#[derive(Clone, Debug, PartialEq, Eq)]
pub struct WebXrPlugin {
    pub settings: WebXrSettings,
}

impl Default for WebXrPlugin {
    fn default() -> (plugin: WebXrPlugin)
        ensures
            plugin.settings.vr_supported,
            plugin.settings.ar_supported,
            !plugin.settings.inline_supported,
            plugin.settings.vr_button@ == "vr_button"@,
            plugin.settings.ar_button@ == "ar_button"@,
            plugin.settings.canvas@ == "canvas[alt=\"App\"]"@,
            plugin.settings.origin == XrOrigin::Room,
    {
        WebXrPlugin { settings: WebXrSettings::default() }
    }
}

/// What one device frame reports, read once at the start of the update it
/// drives. It is valid for that update only.
#[derive(Clone, Debug, PartialEq)]
pub struct WebXrFrame<P> {
    /// The viewer pose against the reference space, if it resolved.
    pub viewer_pose: Option<XrViewerPose<P>>,
    /// The base layer of the session's render state, if one is bound.
    pub base_layer: Option<XrWebGlLayer>,
    /// The session's input sources, in the device's order.
    pub input_sources: Vec<XrInputSource<P>>,
}

/// The engine mode of a session mode. An inline session is no immersive
/// mode.
pub open spec fn engine_mode(mode: XrMode) -> EngineXrMode {
    match mode {
        XrMode::VR => EngineXrMode::VR,
        XrMode::AR => EngineXrMode::AR,
        XrMode::Inline => EngineXrMode::Flat,
    }
}

/// The engine mode to set after the sessions `events` were initialised: that
/// of the last one, or `None` to leave the mode as it is where there was
/// none.
pub fn set_xr_mode(events: &Vec<WebXrSessionInitialized>) -> (mode: Option<EngineXrMode>)
    ensures
        mode == if events@.len() == 0 {
            None
        } else {
            Some(engine_mode(events@.last().mode))
        },
{
    if events.len() == 0 {
        None
    } else {
        Some(
            match events[events.len() - 1].mode {
                XrMode::VR => EngineXrMode::VR,
                XrMode::AR => EngineXrMode::AR,
                XrMode::Inline => EngineXrMode::Flat,
            },
        )
    }
}

} // verus!
