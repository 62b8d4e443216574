//! Side-by-side stereo on the compositor's framebuffer: the description of
//! the framebuffer view and the two halves that the eyes draw into.

use crate::platform::XrWebGlLayer;
use vstd::prelude::*;

verus! {

/// A rectangle of a render target, in physical pixels.
#[derive(Clone, Copy, Debug, PartialEq, Eq, Hash, Structural)]
pub struct Viewport {
    pub x: u32,
    pub y: u32,
    pub width: u32,
    pub height: u32,
}

/// An engine-side view of the compositor's framebuffer: the handle it is
/// registered under, and its size.
#[derive(Clone, Copy, Debug, PartialEq, Eq, Hash, Structural)]
pub struct FramebufferView {
    pub handle: u32,
    pub width: u32,
    pub height: u32,
}

/// The handle that the side-by-side cameras register the framebuffer view
/// under.
pub const STEREO_HANDLE: u32 = 0;

/// What the side-by-side setup creates: the framebuffer view, and the
/// viewport of the left and of the right camera.
#[derive(Clone, Copy, Debug, PartialEq, Eq, Hash, Structural)]
pub struct StereoCameras {
    pub view: FramebufferView,
    pub left: Viewport,
    pub right: Viewport,
}

/// The view of the whole framebuffer of `base_layer` under
/// [`STEREO_HANDLE`].
pub open spec fn stereo_view(base_layer: XrWebGlLayer) -> FramebufferView {
    FramebufferView {
        handle: STEREO_HANDLE,
        width: base_layer.framebuffer_width,
        height: base_layer.framebuffer_height,
    }
}

/// Describes the two cameras that share the framebuffer of `base_layer` side
/// by side: each takes its full height and half its width (rounded down),
/// the left one from the left edge and the right one from the middle.
pub fn spawn_webxr_camera(base_layer: &XrWebGlLayer) -> (cameras: StereoCameras)
    ensures
        cameras.view == stereo_view(*base_layer),
        cameras.left == (Viewport {
            x: 0,
            y: 0,
            width: (base_layer.framebuffer_width / 2) as u32,
            height: base_layer.framebuffer_height,
        }),
        cameras.right == (Viewport {
            x: (base_layer.framebuffer_width / 2) as u32,
            y: 0,
            width: (base_layer.framebuffer_width / 2) as u32,
            height: base_layer.framebuffer_height,
        }),
{
    let half = base_layer.framebuffer_width / 2;
    StereoCameras {
        view: update_webxr_camera(base_layer),
        left: Viewport { x: 0, y: 0, width: half, height: base_layer.framebuffer_height },
        right: Viewport { x: half, y: 0, width: half, height: base_layer.framebuffer_height },
    }
}

/// Describes the framebuffer view anew. The compositor hands out another
/// framebuffer every frame, so this is asked on every update.
pub fn update_webxr_camera(base_layer: &XrWebGlLayer) -> (view: FramebufferView)
    ensures
        view == stereo_view(*base_layer),
{
    FramebufferView {
        handle: STEREO_HANDLE,
        width: base_layer.framebuffer_width,
        height: base_layer.framebuffer_height,
    }
}

} // verus!
