//! What the XR device reports, as plain values. The embedding application
//! reads the device and fills these in; the synchronisers only ever see them.
//!
//! Poses are carried as a value of a type `P` that the application chooses:
//! nothing here looks inside one.

use vstd::prelude::*;

verus! {

/// Which eye a view belongs to. `Neither` is the device's "none": the single
/// view of an inline session. `Unknown` stands for a value this library does
/// not know.
#[derive(Clone, Copy, Debug, PartialEq, Eq, Hash, Structural)]
pub enum XrEye {
    Neither,
    Left,
    Right,
    Unknown,
}

/// Which hand an input source belongs to, as the device declares it.
/// `Neither` is the device's "none".
#[derive(Clone, Copy, Debug, PartialEq, Eq, Hash, Structural)]
pub enum XrHandedness {
    Neither,
    Left,
    Right,
    Unknown,
}

/// The device's names for the joints of a hand.
#[derive(Clone, Copy, Debug, PartialEq, Eq, Hash, Structural)]
pub enum XrHandJoint {
    Wrist,
    ThumbMetacarpal,
    ThumbPhalanxProximal,
    ThumbPhalanxDistal,
    ThumbTip,
    IndexFingerMetacarpal,
    IndexFingerPhalanxProximal,
    IndexFingerPhalanxIntermediate,
    IndexFingerPhalanxDistal,
    IndexFingerTip,
    MiddleFingerMetacarpal,
    MiddleFingerPhalanxProximal,
    MiddleFingerPhalanxIntermediate,
    MiddleFingerPhalanxDistal,
    MiddleFingerTip,
    RingFingerMetacarpal,
    RingFingerPhalanxProximal,
    RingFingerPhalanxIntermediate,
    RingFingerPhalanxDistal,
    RingFingerTip,
    PinkyFingerMetacarpal,
    PinkyFingerPhalanxProximal,
    PinkyFingerPhalanxIntermediate,
    PinkyFingerPhalanxDistal,
    PinkyFingerTip,
}

/// The session modes a device can be asked for.
#[derive(Clone, Copy, Debug, PartialEq, Eq, Hash, Structural)]
pub enum XrSessionMode {
    Inline,
    ImmersiveVr,
    ImmersiveAr,
}

/// The coordinate frames a session can report poses against.
#[derive(Clone, Copy, Debug, PartialEq, Eq, Hash, Structural)]
pub enum XrReferenceSpaceType {
    Viewer,
    Local,
    LocalFloor,
    BoundedFloor,
    Unbounded,
}

/// The rectangle of the compositor's framebuffer that one view draws into, as
/// the device reports it.
#[derive(Clone, Copy, Debug, PartialEq, Eq, Structural)]
pub struct XrViewport {
    pub x: i32,
    pub y: i32,
    pub width: i32,
    pub height: i32,
}

/// One view of the viewer pose: an eye or the window of an inline session.
#[derive(Clone, Copy, Debug, PartialEq)]
pub struct XrView<P> {
    pub eye: XrEye,
    pub pose: P,
    pub viewport: XrViewport,
}

/// The viewer pose of a frame: its views, in the order the device gives them.
#[derive(Clone, Debug, PartialEq)]
pub struct XrViewerPose<P> {
    pub views: Vec<XrView<P>>,
}

/// The compositor's swap target. `framebuffer` tells whether the layer has a
/// framebuffer object this frame.
#[derive(Clone, Copy, Debug, PartialEq, Eq, Structural)]
pub struct XrWebGlLayer {
    pub framebuffer: bool,
    pub framebuffer_width: u32,
    pub framebuffer_height: u32,
}

/// The state of a gamepad: one analog value per button and per axis, in
/// fixed point (see [`ANALOG_ONE`]). A button slot that holds no button reads
/// `None`.
#[derive(Clone, Debug, PartialEq, Eq)]
pub struct Gamepad {
    pub buttons: Vec<Option<i32>>,
    pub axes: Vec<i32>,
}

/// The fixed-point value of a fully actuated button or a fully deflected
/// axis.
pub const ANALOG_ONE: i32 = 1000;

/// The joints of one hand this frame. `wrist` is the wrist's pose against the
/// reference space. `joints` holds, in skeleton order, each finger joint's
/// pose against the joint before it in its chain, `None` where the device
/// could not resolve it; a missing entry counts as unresolved.
#[derive(Clone, Debug, PartialEq)]
pub struct XrHand<P> {
    pub wrist: Option<P>,
    pub joints: Vec<Option<P>>,
}

/// One input source of the session.
#[derive(Clone, Debug, PartialEq)]
pub struct XrInputSource<P> {
    pub handedness: XrHandedness,
    pub gamepad: Option<Gamepad>,
    /// The grip pose against the reference space, if it resolved.
    pub grip: Option<P>,
    pub hand: Option<XrHand<P>>,
}

} // verus!
