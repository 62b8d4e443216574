//! The camera synchroniser: one camera entity per view of the viewer pose,
//! matched by eye and by discovery order within an eye.

use crate::camera::{FramebufferView, Viewport};
use crate::platform::{XrEye, XrView, XrViewport};
use crate::tracking::entity::{
    assigned, assigned_store, retired, store_grew, EntityId, EntityStore, Roster, TrackedObject,
};
use crate::WebXrFrame;
use vstd::prelude::*;

verus! {

/// The handle under which the compositor's framebuffer view is registered.
pub const FRAMEBUFFER_HANDLE: u32 = 5724242;

/// What a camera entity carries: the pose of its view, the rectangle it draws
/// into, the handle of the framebuffer view it draws on, its place in the
/// render order and whether its image is flipped vertically. The last three
/// are fixed when the camera is spawned.
#[derive(Clone, Copy, Debug, PartialEq)]
pub struct CameraData<P> {
    pub pose: P,
    pub viewport: Viewport,
    pub target: u32,
    pub order: usize,
    pub flip_y: bool,
}

/// The camera entities, by the eye they show.
#[derive(Clone, Debug, PartialEq)]
pub struct CameraRig<P> {
    pub eyes_left: Roster<CameraData<P>>,
    pub eyes_right: Roster<CameraData<P>>,
    pub windows: Roster<CameraData<P>>,
}

/// Everything an update of the cameras reads and writes.
pub struct CamerasView<P> {
    pub eyes_left: Seq<TrackedObject<CameraData<P>>>,
    pub eyes_right: Seq<TrackedObject<CameraData<P>>>,
    pub windows: Seq<TrackedObject<CameraData<P>>>,
    pub alive: Seq<bool>,
}

/// A device coordinate as an unsigned pixel count. A negative coordinate
/// wraps around, as a two's complement reinterpretation does.
pub open spec fn physical(x: i32) -> u32 {
    if x >= 0 {
        x as u32
    } else {
        (x + 0x1_0000_0000) as u32
    }
}

/// The device's viewport in physical pixels.
pub open spec fn physical_viewport(viewport: XrViewport) -> Viewport {
    Viewport {
        x: physical(viewport.x),
        y: physical(viewport.y),
        width: physical(viewport.width),
        height: physical(viewport.height),
    }
}

/// Number of views among the first `n` that show `eye`.
pub open spec fn eye_count<P>(views: Seq<XrView<P>>, eye: XrEye, n: int) -> int
    decreases n,
{
    if n <= 0 {
        0
    } else {
        eye_count(views, eye, n - 1) + if views[n - 1].eye == eye {
            1int
        } else {
            0int
        }
    }
}

/// The roster that shows `eye`. Views of an unknown eye have no roster; for
/// them this is the roster of the windows.
pub open spec fn roster_of<P>(state: CamerasView<P>, eye: XrEye) -> Seq<
    TrackedObject<CameraData<P>>,
> {
    match eye {
        XrEye::Left => state.eyes_left,
        XrEye::Right => state.eyes_right,
        _ => state.windows,
    }
}

/// `state` with another roster for `eye` and another store.
pub open spec fn with_roster<P>(
    state: CamerasView<P>,
    eye: XrEye,
    roster: Seq<TrackedObject<CameraData<P>>>,
    alive: Seq<bool>,
) -> CamerasView<P> {
    match eye {
        XrEye::Left => CamerasView { eyes_left: roster, alive, ..state },
        XrEye::Right => CamerasView { eyes_right: roster, alive, ..state },
        _ => CamerasView { windows: roster, alive, ..state },
    }
}

/// What the view with number `i` writes to the camera at position `k` of its
/// roster. An existing camera takes the pose and the viewport and keeps the
/// rest; a new one draws on the compositor's framebuffer view, is ordered by
/// its view's number and is flipped unless it shows the left eye.
pub open spec fn view_data<P>(
    roster: Seq<TrackedObject<CameraData<P>>>,
    k: int,
    views: Seq<XrView<P>>,
    i: int,
) -> CameraData<P> {
    if 0 <= k < roster.len() {
        CameraData {
            pose: views[i].pose,
            viewport: physical_viewport(views[i].viewport),
            ..roster[k].data
        }
    } else {
        CameraData {
            pose: views[i].pose,
            viewport: physical_viewport(views[i].viewport),
            target: FRAMEBUFFER_HANDLE,
            order: i as usize,
            flip_y: views[i].eye != XrEye::Left,
        }
    }
}

/// The view with number `i`. It goes, under the pool policy, to the camera
/// of its eye whose position is the view's rank among the views of that eye.
/// A view of an unknown eye is passed over.
pub open spec fn view_step<P>(
    state: CamerasView<P>,
    views: Seq<XrView<P>>,
    origin: EntityId,
    i: int,
) -> CamerasView<P> {
    let eye = views[i].eye;
    if eye == XrEye::Unknown {
        state
    } else {
        let roster = roster_of(state, eye);
        let k = eye_count(views, eye, i);
        with_roster(
            state,
            eye,
            assigned(
                roster,
                k,
                view_data(roster, k, views, i),
                origin,
                EntityId(state.alive.len() as usize),
            ),
            assigned_store(state.alive, roster.len() as int, k),
        )
    }
}

/// The first `n` views, in the device's order.
pub open spec fn views_walk<P>(
    state: CamerasView<P>,
    views: Seq<XrView<P>>,
    origin: EntityId,
    n: nat,
) -> CamerasView<P>
    decreases n,
{
    if n == 0 {
        state
    } else {
        view_step(views_walk(state, views, origin, (n - 1) as nat), views, origin, n - 1)
    }
}

/// Whether an update can place cameras: there is an origin and a frame, the
/// viewer pose resolved and has a view, and the session's base layer has a
/// framebuffer.
pub open spec fn cameras_ready<P>(
    xr_frame: Option<&WebXrFrame<P>>,
    origin: Option<EntityId>,
) -> bool {
    &&& origin is Some
    &&& xr_frame is Some
    &&& xr_frame->0.viewer_pose is Some
    &&& xr_frame->0.viewer_pose->0.views@.len() > 0
    &&& xr_frame->0.base_layer is Some
    &&& xr_frame->0.base_layer->0.framebuffer
}

/// Number of views of `eye` that an update places: all that the viewer pose
/// has, when the update can place cameras, and none otherwise.
pub open spec fn views_placed<P>(
    xr_frame: Option<&WebXrFrame<P>>,
    origin: Option<EntityId>,
    eye: XrEye,
) -> int {
    if cameras_ready(xr_frame, origin) {
        eye_count(
            xr_frame->0.viewer_pose->0.views@,
            eye,
            xr_frame->0.viewer_pose->0.views@.len() as int,
        )
    } else {
        0
    }
}

/// One update of the cameras. When the update can place cameras, every view
/// is placed and the cameras that no view reached are marked inactive.
/// Otherwise every camera is marked inactive. Either way none is removed.
pub open spec fn cameras_updated<P>(
    state: CamerasView<P>,
    xr_frame: Option<&WebXrFrame<P>>,
    origin: Option<EntityId>,
) -> CamerasView<P> {
    let walk = if cameras_ready(xr_frame, origin) {
        let views = xr_frame->0.viewer_pose->0.views@;
        views_walk(state, views, origin->0, views.len())
    } else {
        state
    };
    CamerasView {
        eyes_left: retired(walk.eyes_left, views_placed(xr_frame, origin, XrEye::Left)),
        eyes_right: retired(walk.eyes_right, views_placed(xr_frame, origin, XrEye::Right)),
        windows: retired(walk.windows, views_placed(xr_frame, origin, XrEye::Neither)),
        alive: walk.alive,
    }
}

/// The framebuffer view that an update which can place cameras builds anew.
pub open spec fn framebuffer_view<P>(
    xr_frame: Option<&WebXrFrame<P>>,
    origin: Option<EntityId>,
) -> Option<FramebufferView> {
    if cameras_ready(xr_frame, origin) {
        Some(
            FramebufferView {
                handle: FRAMEBUFFER_HANDLE,
                width: xr_frame->0.base_layer->0.framebuffer_width,
                height: xr_frame->0.base_layer->0.framebuffer_height,
            },
        )
    } else {
        None
    }
}

/// The camera at position `k` is the entity it was: same identity, same
/// parent, same target, same place in the render order, same flip.
pub open spec fn kept<P>(
    before: Seq<TrackedObject<CameraData<P>>>,
    after: Seq<TrackedObject<CameraData<P>>>,
    k: int,
) -> bool {
    &&& after[k].id == before[k].id
    &&& after[k].parent == before[k].parent
    &&& after[k].data.target == before[k].data.target
    &&& after[k].data.order == before[k].data.order
    &&& after[k].data.flip_y == before[k].data.flip_y
}

/// View `i` has its camera: the one whose position is the view's rank among
/// the views of its eye. It is active and shows the view's pose in the
/// view's viewport; where the roster had no camera at that position, it is a
/// new one under the origin.
pub open spec fn placed<P>(
    before: Seq<TrackedObject<CameraData<P>>>,
    after: Seq<TrackedObject<CameraData<P>>>,
    views: Seq<XrView<P>>,
    origin: EntityId,
    i: int,
) -> bool {
    let k = eye_count(views, views[i].eye, i);
    &&& 0 <= k < after.len()
    &&& after[k].active
    &&& after[k].data.pose == views[i].pose
    &&& after[k].data.viewport == physical_viewport(views[i].viewport)
    &&& k >= before.len() ==> {
        &&& after[k].parent == Some(origin)
        &&& after[k].data.target == FRAMEBUFFER_HANDLE
        &&& after[k].data.order == i as usize
        &&& after[k].data.flip_y == (views[i].eye != XrEye::Left)
    }
}

/// What an update leaves of the roster of one eye, `c` being the number of
/// views of that eye that it placed: the roster is as long as it was or as
/// long as `c`, whichever is more; the cameras it had are the entities they
/// were; the first `c` cameras are active and the others are not.
pub open spec fn roster_outcome<P>(
    before: Seq<TrackedObject<CameraData<P>>>,
    after: Seq<TrackedObject<CameraData<P>>>,
    c: int,
) -> bool {
    &&& after.len() == if before.len() >= c {
        before.len() as int
    } else {
        c
    }
    &&& forall|k: int| 0 <= k < before.len() ==> #[trigger] kept(before, after, k)
    &&& forall|k: int| 0 <= k < after.len() ==> (#[trigger] after[k]).active == (k < c)
}

/// See [`physical`].
pub fn to_physical(x: i32) -> (r: u32)
    ensures
        r == physical(x),
        x >= 0 ==> r == x,
        x < 0 ==> r == x + 0x1_0000_0000,
{
    if x >= 0 {
        x as u32
    } else {
        let wide: i64 = x as i64 + 0x1_0000_0000;
        wide as u32
    }
}

/// See [`physical_viewport`].
pub fn to_physical_viewport(viewport: XrViewport) -> (r: Viewport)
    ensures
        r == physical_viewport(viewport),
{
    Viewport {
        x: to_physical(viewport.x),
        y: to_physical(viewport.y),
        width: to_physical(viewport.width),
        height: to_physical(viewport.height),
    }
}

impl<P: Copy> CameraRig<P> {
    /// The rig and the store as an update sees them.
    pub open spec fn view_with(&self, store: &EntityStore) -> CamerasView<P> {
        CamerasView {
            eyes_left: self.eyes_left.entities@,
            eyes_right: self.eyes_right.entities@,
            windows: self.windows.entities@,
            alive: store@,
        }
    }

    /// A rig without cameras.
    pub fn new() -> (rig: CameraRig<P>)
        ensures
            rig.eyes_left.entities@.len() == 0,
            rig.eyes_right.entities@.len() == 0,
            rig.windows.entities@.len() == 0,
    {
        CameraRig { eyes_left: Roster::new(), eyes_right: Roster::new(), windows: Roster::new() }
    }
}

/// Places view `i` in `roster` as the camera at position `k`.
fn place_view<P: Copy>(
    roster: &mut Roster<CameraData<P>>,
    k: usize,
    views: &Vec<XrView<P>>,
    i: usize,
    origin: EntityId,
    store: &mut EntityStore,
)
    requires
        i < views@.len(),
    ensures
        final(roster).entities@ == assigned(
            old(roster).entities@,
            k as int,
            view_data(old(roster).entities@, k as int, views@, i as int),
            origin,
            old(store).next_id(),
        ),
        final(store)@ == assigned_store(old(store)@, old(roster).entities@.len() as int, k as int),
{
    let view = &views[i];
    let viewport = to_physical_viewport(view.viewport);
    let data = if k < roster.entities.len() {
        let kept = roster.entities[k].data;
        CameraData {
            pose: view.pose,
            viewport,
            target: kept.target,
            order: kept.order,
            flip_y: kept.flip_y,
        }
    } else {
        CameraData {
            pose: view.pose,
            viewport,
            target: FRAMEBUFFER_HANDLE,
            order: i,
            flip_y: view.eye != XrEye::Left,
        }
    };
    roster.assign(k, data, origin, store);
}

/// One update of the cameras: see [`cameras_updated`]. Returns the
/// description of the framebuffer view to build, when the update places
/// cameras.
pub fn update_xr_cameras<P: Copy>(
    xr_frame: Option<&WebXrFrame<P>>,
    origin: Option<EntityId>,
    rig: &mut CameraRig<P>,
    store: &mut EntityStore,
) -> (view: Option<FramebufferView>)
    ensures
        view == framebuffer_view(xr_frame, origin),
        final(rig).view_with(final(store)) == cameras_updated(
            old(rig).view_with(old(store)),
            xr_frame,
            origin,
        ),
        roster_outcome(
            old(rig).eyes_left.entities@,
            final(rig).eyes_left.entities@,
            views_placed(xr_frame, origin, XrEye::Left),
        ),
        roster_outcome(
            old(rig).eyes_right.entities@,
            final(rig).eyes_right.entities@,
            views_placed(xr_frame, origin, XrEye::Right),
        ),
        roster_outcome(
            old(rig).windows.entities@,
            final(rig).windows.entities@,
            views_placed(xr_frame, origin, XrEye::Neither),
        ),
        store_grew(old(store)@, final(store)@),
        !cameras_ready(xr_frame, origin) ==> final(store)@ == old(store)@,
{
    let ghost start = rig.view_with(store);
    proof {
        lemma_cameras_outcome(start, xr_frame, origin, XrEye::Left);
        lemma_cameras_outcome(start, xr_frame, origin, XrEye::Right);
        lemma_cameras_outcome(start, xr_frame, origin, XrEye::Neither);
    }
    if let Some(origin_entity) = origin {
        if let Some(frame) = xr_frame {
            if let Some(viewer_pose) = &frame.viewer_pose {
                let views = &viewer_pose.views;
                if views.len() > 0 {
                    if let Some(base_layer) = &frame.base_layer {
                        if base_layer.framebuffer {
                            let mut seen_left: usize = 0;
                            let mut seen_right: usize = 0;
                            let mut seen_windows: usize = 0;
                            let mut i: usize = 0;
                            while i < views.len()
                                invariant
                                    i <= views@.len(),
                                    seen_left == eye_count(views@, XrEye::Left, i as int),
                                    seen_right == eye_count(views@, XrEye::Right, i as int),
                                    seen_windows == eye_count(views@, XrEye::Neither, i as int),
                                    seen_left <= i,
                                    seen_right <= i,
                                    seen_windows <= i,
                                    rig.view_with(store) == views_walk(
                                        start,
                                        views@,
                                        origin_entity,
                                        i as nat,
                                    ),
                                decreases views.len() - i,
                            {
                                match views[i].eye {
                                    XrEye::Left => {
                                        place_view(
                                            &mut rig.eyes_left,
                                            seen_left,
                                            views,
                                            i,
                                            origin_entity,
                                            store,
                                        );
                                        seen_left += 1;
                                    },
                                    XrEye::Right => {
                                        place_view(
                                            &mut rig.eyes_right,
                                            seen_right,
                                            views,
                                            i,
                                            origin_entity,
                                            store,
                                        );
                                        seen_right += 1;
                                    },
                                    XrEye::Neither => {
                                        place_view(
                                            &mut rig.windows,
                                            seen_windows,
                                            views,
                                            i,
                                            origin_entity,
                                            store,
                                        );
                                        seen_windows += 1;
                                    },
                                    XrEye::Unknown => {},
                                }
                                i += 1;
                            }
                            rig.eyes_left.retire_from(seen_left);
                            rig.eyes_right.retire_from(seen_right);
                            rig.windows.retire_from(seen_windows);
                            return Some(
                                FramebufferView {
                                    handle: FRAMEBUFFER_HANDLE,
                                    width: base_layer.framebuffer_width,
                                    height: base_layer.framebuffer_height,
                                },
                            );
                        }
                    }
                }
            }
        }
    }
    rig.eyes_left.retire_from(0);
    rig.eyes_right.retire_from(0);
    rig.windows.retire_from(0);
    None
}

proof fn lemma_eye_count_grows<P>(views: Seq<XrView<P>>, eye: XrEye, i: int, m: int)
    requires
        0 <= i <= m,
    ensures
        0 <= eye_count(views, eye, i) <= eye_count(views, eye, m),
        eye_count(views, eye, m) <= m,
    decreases m,
{
    if m > 0 {
        if i < m {
            lemma_eye_count_grows(views, eye, i, m - 1);
        } else {
            lemma_eye_count_grows(views, eye, i - 1, m - 1);
        }
    }
}

proof fn lemma_views_walk<P>(
    state: CamerasView<P>,
    views: Seq<XrView<P>>,
    origin: EntityId,
    n: nat,
    eye: XrEye,
)
    requires
        n <= views.len(),
        eye != XrEye::Unknown,
    ensures
        ({
            let before = roster_of(state, eye);
            let walk = views_walk(state, views, origin, n);
            let after = roster_of(walk, eye);
            let c = eye_count(views, eye, n as int);
            &&& 0 <= c <= n
            &&& after.len() == if before.len() >= c {
                before.len() as int
            } else {
                c
            }
            &&& store_grew(state.alive, walk.alive)
            &&& forall|k: int| 0 <= k < before.len() ==> #[trigger] kept(before, after, k)
            &&& forall|k: int| c <= k < before.len() ==> #[trigger] after[k] == before[k]
            &&& forall|k: int| 0 <= k < c ==> (#[trigger] after[k]).active
            &&& forall|i: int|
                0 <= i < n && views[i].eye == eye ==> #[trigger] placed(
                    before,
                    after,
                    views,
                    origin,
                    i,
                )
        }),
    decreases n,
{
    let before = roster_of(state, eye);
    if n > 0 {
        let m = (n - 1) as nat;
        lemma_views_walk(state, views, origin, m, eye);
        lemma_eye_count_grows(views, eye, m as int, n as int);
        let inner = views_walk(state, views, origin, m);
        let walk = views_walk(state, views, origin, n);
        let mid = roster_of(inner, eye);
        let after = roster_of(walk, eye);
        let k = eye_count(views, eye, m as int);
        assert(walk == view_step(inner, views, origin, m as int));
        if views[m as int].eye == eye {
            assert(after == assigned(
                mid,
                k,
                view_data(mid, k, views, m as int),
                origin,
                EntityId(inner.alive.len() as usize),
            ));
            assert(walk.alive == assigned_store(inner.alive, mid.len() as int, k));
            if k < mid.len() {
                assert(k < before.len());
                assert(mid[k] == before[k]);
            }
            assert(placed(before, after, views, origin, m as int));
            assert forall|i: int| 0 <= i < n && views[i].eye == eye implies #[trigger] placed(
                before,
                after,
                views,
                origin,
                i,
            ) by {
                if i < m {
                    lemma_eye_count_grows(views, eye, i + 1, m as int);
                    assert(placed(before, mid, views, origin, i));
                    assert(after[eye_count(views, eye, i)] == mid[eye_count(views, eye, i)]);
                }
            }
            assert forall|j: int| 0 <= j < before.len() implies #[trigger] kept(
                before,
                after,
                j,
            ) by {
                assert(kept(before, mid, j));
            }
            assert forall|j: int| 0 <= j < k + 1 implies (#[trigger] after[j]).active by {
                if j < k {
                    assert(mid[j].active);
                    assert(after[j] == mid[j]);
                }
            }
        } else {
            assert(after == mid);
            assert(store_grew(state.alive, walk.alive));
            assert forall|i: int| 0 <= i < n && views[i].eye == eye implies #[trigger] placed(
                before,
                after,
                views,
                origin,
                i,
            ) by {
                assert(placed(before, mid, views, origin, i));
            }
        }
    }
}

/// What an update leaves of the cameras of one eye: the roster is as
/// [`roster_outcome`] says for the views that the update placed, and no
/// entity leaves the store. So a camera is never removed, and one that was
/// marked inactive is the same entity when a later update reaches it again.
pub proof fn lemma_cameras_outcome<P>(
    state: CamerasView<P>,
    xr_frame: Option<&WebXrFrame<P>>,
    origin: Option<EntityId>,
    eye: XrEye,
)
    requires
        eye != XrEye::Unknown,
    ensures
        roster_outcome(
            roster_of(state, eye),
            roster_of(cameras_updated(state, xr_frame, origin), eye),
            views_placed(xr_frame, origin, eye),
        ),
        store_grew(state.alive, cameras_updated(state, xr_frame, origin).alive),
{
    let before = roster_of(state, eye);
    let after = roster_of(cameras_updated(state, xr_frame, origin), eye);
    let c = views_placed(xr_frame, origin, eye);
    if cameras_ready(xr_frame, origin) {
        let views = xr_frame->0.viewer_pose->0.views@;
        let mid = roster_of(views_walk(state, views, origin->0, views.len()), eye);
        lemma_views_walk(state, views, origin->0, views.len(), eye);
        assert(after == retired(mid, c));
        assert forall|k: int| 0 <= k < before.len() implies #[trigger] kept(before, after, k) by {
            assert(kept(before, mid, k));
        }
        assert forall|k: int| 0 <= k < after.len() implies (#[trigger] after[k]).active == (k
            < c) by {
            if k < c {
                assert(mid[k].active);
            }
        }
    } else {
        assert(after == retired(before, 0));
        assert forall|k: int| 0 <= k < before.len() implies #[trigger] kept(before, after, k) by {}
    }
}

/// An update that places cameras gives every view of a known eye its camera.
pub proof fn lemma_cameras_placed<P>(
    state: CamerasView<P>,
    xr_frame: Option<&WebXrFrame<P>>,
    origin: Option<EntityId>,
    eye: XrEye,
)
    requires
        cameras_ready(xr_frame, origin),
        eye != XrEye::Unknown,
    ensures
        forall|i: int|
            0 <= i < xr_frame->0.viewer_pose->0.views@.len()
                && xr_frame->0.viewer_pose->0.views@[i].eye == eye ==> #[trigger] placed(
                roster_of(state, eye),
                roster_of(cameras_updated(state, xr_frame, origin), eye),
                xr_frame->0.viewer_pose->0.views@,
                origin->0,
                i,
            ),
{
    let views = xr_frame->0.viewer_pose->0.views@;
    let before = roster_of(state, eye);
    let mid = roster_of(views_walk(state, views, origin->0, views.len()), eye);
    let after = roster_of(cameras_updated(state, xr_frame, origin), eye);
    lemma_views_walk(state, views, origin->0, views.len(), eye);
    assert(after == retired(mid, eye_count(views, eye, views.len() as int)));
    assert forall|i: int| 0 <= i < views.len() && views[i].eye == eye implies #[trigger] placed(
        before,
        after,
        views,
        origin->0,
        i,
    ) by {
        assert(placed(before, mid, views, origin->0, i));
        lemma_eye_count_grows(views, eye, i + 1, views.len() as int);
    }
}

/// An update without views, like any update that cannot place cameras, marks
/// every camera inactive and removes none: the rosters keep their entities,
/// and the store is as it was.
pub proof fn lemma_cameras_lost<P>(
    state: CamerasView<P>,
    xr_frame: Option<&WebXrFrame<P>>,
    origin: Option<EntityId>,
)
    requires
        !cameras_ready(xr_frame, origin),
    ensures
        cameras_updated(state, xr_frame, origin) == (CamerasView {
            eyes_left: retired(state.eyes_left, 0),
            eyes_right: retired(state.eyes_right, 0),
            windows: retired(state.windows, 0),
            alive: state.alive,
        }),
        framebuffer_view(xr_frame, origin) is None,
{
}

/// Zero views are a case of [`lemma_cameras_lost`].
pub proof fn lemma_no_views_no_cameras<P>(
    xr_frame: Option<&WebXrFrame<P>>,
    origin: Option<EntityId>,
)
    requires
        xr_frame is Some,
        xr_frame->0.viewer_pose is Some,
        xr_frame->0.viewer_pose->0.views@.len() == 0,
    ensures
        !cameras_ready(xr_frame, origin),
{
}

} // verus!
