//! One engine update: every synchroniser, in the order that the systems
//! after them rely on.

use crate::camera::FramebufferView;
use crate::events::WebXrSessionInitialized;
use crate::platform::{XrEye, XrHandedness};
use crate::tracking::camera::{
    cameras_updated, framebuffer_view, lemma_cameras_outcome, roster_of, update_xr_cameras,
    views_placed, CameraData, CameraRig, CamerasView,
};
use crate::tracking::controllers::{
    controllers_updated, lemma_controllers_stay_unique, update_xr_controllers, ControllerData,
    ControllerSet, ControllersView,
};
use crate::tracking::entity::{lemma_store_grew_twice, store_grew, EntityStore, TrackedObject};
use crate::tracking::hands::{
    hands_updated, joints_unique, lemma_hand_stays_unique, update_xr_hands, HandSkeleton,
    HandView, LeftHanded, RightHanded, FINGER_JOINTS,
};
use crate::tracking::input::{AnalogInput, AnalogKey, XrControllerEvent, XrControllerSettings};
use crate::tracking::space::{
    initialize_xr_space, lemma_space_stays_unique, origin_of, space_walk, SpaceView, XrOrigin,
    XrSpace,
};
use crate::{engine_mode, set_xr_mode, EngineXrMode, WebXrFrame};
use vstd::prelude::*;

verus! {

/// Everything the synchronisers keep between updates.
#[derive(Clone, Debug)]
pub struct XrWorld<P> {
    pub store: EntityStore,
    pub space: XrSpace,
    pub cameras: CameraRig<P>,
    pub controllers: ControllerSet<P>,
    pub left_hand: HandSkeleton<P>,
    pub right_hand: HandSkeleton<P>,
    pub analog: AnalogInput,
}

/// What an update hands to the application besides the entities.
#[derive(Clone, Debug, PartialEq, Eq)]
pub struct UpdateOutcome {
    /// The engine mode to set, if a session was initialised.
    pub mode: Option<EngineXrMode>,
    /// The framebuffer view to build, if cameras were placed.
    pub framebuffer: Option<FramebufferView>,
    /// The controller events of the update.
    pub events: Vec<XrControllerEvent>,
}

/// The world as the contracts see it.
pub struct WorldView<P> {
    pub alive: Seq<bool>,
    pub origins: Seq<TrackedObject<XrOrigin>>,
    pub eyes_left: Seq<TrackedObject<CameraData<P>>>,
    pub eyes_right: Seq<TrackedObject<CameraData<P>>>,
    pub windows: Seq<TrackedObject<CameraData<P>>>,
    pub controllers_left: Seq<TrackedObject<ControllerData<P>>>,
    pub controllers_right: Seq<TrackedObject<ControllerData<P>>>,
    pub controllers_other: Seq<TrackedObject<ControllerData<P>>>,
    pub left_wrist: Seq<TrackedObject<P>>,
    pub left_joints: Seq<Seq<TrackedObject<P>>>,
    pub right_wrist: Seq<TrackedObject<P>>,
    pub right_joints: Seq<Seq<TrackedObject<P>>>,
    pub analog: Map<AnalogKey, i32>,
}

/// What an update leaves and hands out.
pub struct UpdateView<P> {
    pub world: WorldView<P>,
    pub mode: Option<EngineXrMode>,
    pub framebuffer: Option<FramebufferView>,
    pub events: Seq<XrControllerEvent>,
}

/// The origin entities of `world`, with its store.
pub open spec fn space_of<P>(world: WorldView<P>) -> SpaceView {
    SpaceView { origins: world.origins, alive: world.alive }
}

/// The cameras of `world`, with the store as it stands at their turn.
pub open spec fn cameras_of<P>(world: WorldView<P>, alive: Seq<bool>) -> CamerasView<P> {
    CamerasView {
        eyes_left: world.eyes_left,
        eyes_right: world.eyes_right,
        windows: world.windows,
        alive,
    }
}

/// One update. The origin is set up for the sessions that were initialised;
/// then, all under that origin and from the same frame, the cameras are
/// synchronised, then the controllers, then the left hand, then the right
/// hand.
pub open spec fn world_updated<P>(
    world: WorldView<P>,
    sessions: Seq<WebXrSessionInitialized>,
    xr_frame: Option<&WebXrFrame<P>>,
    settings: XrControllerSettings,
) -> UpdateView<P> {
    let space = space_walk(space_of(world), sessions, sessions.len());
    let origin = origin_of(space.origins);
    let cameras = cameras_updated(cameras_of(world, space.alive), xr_frame, origin);
    let controllers = controllers_updated(
        ControllersView {
            left: world.controllers_left,
            right: world.controllers_right,
            others: world.controllers_other,
            alive: cameras.alive,
            analog: world.analog,
            events: Seq::empty(),
        },
        xr_frame,
        origin,
        settings,
    );
    let left = hands_updated(
        HandView { wrist: world.left_wrist, joints: world.left_joints, alive: controllers.alive },
        xr_frame,
        origin,
        XrHandedness::Left,
    );
    let right = hands_updated(
        HandView { wrist: world.right_wrist, joints: world.right_joints, alive: left.alive },
        xr_frame,
        origin,
        XrHandedness::Right,
    );
    UpdateView {
        world: WorldView {
            alive: right.alive,
            origins: space.origins,
            eyes_left: cameras.eyes_left,
            eyes_right: cameras.eyes_right,
            windows: cameras.windows,
            controllers_left: controllers.left,
            controllers_right: controllers.right,
            controllers_other: controllers.others,
            left_wrist: left.wrist,
            left_joints: left.joints,
            right_wrist: right.wrist,
            right_joints: right.joints,
            analog: controllers.analog,
        },
        mode: if sessions.len() == 0 {
            None
        } else {
            Some(engine_mode(sessions.last().mode))
        },
        framebuffer: framebuffer_view(xr_frame, origin),
        events: controllers.events,
    }
}

/// Whether every role that is meant for one entity is carried by one at
/// most: the origin, the controller of each hand, and every joint of each
/// hand.
pub open spec fn singletons_unique<P>(world: WorldView<P>) -> bool {
    &&& world.origins.len() <= 1
    &&& world.controllers_left.len() <= 1
    &&& world.controllers_right.len() <= 1
    &&& world.left_wrist.len() <= 1
    &&& world.right_wrist.len() <= 1
    &&& joints_unique(world.left_joints)
    &&& joints_unique(world.right_joints)
}

impl<P: Copy> View for XrWorld<P> {
    type V = WorldView<P>;

    open spec fn view(&self) -> WorldView<P> {
        WorldView {
            alive: self.store@,
            origins: self.space.origins.entities@,
            eyes_left: self.cameras.eyes_left.entities@,
            eyes_right: self.cameras.eyes_right.entities@,
            windows: self.cameras.windows.entities@,
            controllers_left: self.controllers.left.entities@,
            controllers_right: self.controllers.right.entities@,
            controllers_other: self.controllers.others.entities@,
            left_wrist: self.left_hand.wrist.entities@,
            left_joints: self.left_hand.joints_view(),
            right_wrist: self.right_hand.wrist.entities@,
            right_joints: self.right_hand.joints_view(),
            analog: self.analog@,
        }
    }
}

impl<P: Copy> XrWorld<P> {
    /// Both hands have a place for every joint.
    pub open spec fn wf(&self) -> bool {
        self.left_hand.wf() && self.right_hand.wf()
    }

    /// Whether both hands have a place for every joint.
    pub fn is_wf(&self) -> (r: bool)
        ensures
            r == self.wf(),
    {
        self.left_hand.is_wf() && self.right_hand.is_wf()
    }

    /// A world without entities.
    pub fn new() -> (world: XrWorld<P>)
        ensures
            world.wf(),
            world@.alive.len() == 0,
            singletons_unique(world@),
            world@.eyes_left.len() == 0,
            world@.eyes_right.len() == 0,
            world@.windows.len() == 0,
            world@.controllers_other.len() == 0,
            world@.analog == Map::<AnalogKey, i32>::empty(),
    {
        XrWorld {
            store: EntityStore::new(),
            space: XrSpace::new(),
            cameras: CameraRig::new(),
            controllers: ControllerSet::new(),
            left_hand: HandSkeleton::new(),
            right_hand: HandSkeleton::new(),
            analog: AnalogInput::new(),
        }
    }

    /// One update: see [`world_updated`]. `sessions` are the sessions that
    /// were initialised since the update before; `xr_frame` is the frame that
    /// drives this update, if a device frame does.
    pub fn update(
        &mut self,
        sessions: &Vec<WebXrSessionInitialized>,
        xr_frame: Option<&WebXrFrame<P>>,
        settings: &XrControllerSettings,
    ) -> (outcome: UpdateOutcome)
        requires
            old(self).wf(),
        ensures
            final(self).wf(),
            final(self)@ == world_updated(old(self)@, sessions@, xr_frame, *settings).world,
            outcome.mode == world_updated(old(self)@, sessions@, xr_frame, *settings).mode,
            outcome.framebuffer == world_updated(
                old(self)@,
                sessions@,
                xr_frame,
                *settings,
            ).framebuffer,
            outcome.events@ == world_updated(old(self)@, sessions@, xr_frame, *settings).events,
    {
        let mode = set_xr_mode(sessions);
        initialize_xr_space(sessions, &mut self.space, &mut self.store);
        let origin = self.space.origin();
        let framebuffer = update_xr_cameras(xr_frame, origin, &mut self.cameras, &mut self.store);
        let events = update_xr_controllers(
            xr_frame,
            origin,
            &mut self.controllers,
            &mut self.analog,
            settings,
            &mut self.store,
        );
        update_xr_hands::<LeftHanded, P>(xr_frame, origin, &mut self.left_hand, &mut self.store);
        update_xr_hands::<RightHanded, P>(xr_frame, origin, &mut self.right_hand, &mut self.store);
        UpdateOutcome { mode, framebuffer, events }
    }
}

/// Through every sequence of updates, a role that is meant for one entity is
/// carried by one at most, and no entity is ever removed: a world in which
/// every such role is carried by one entity at most is so after an update,
/// whatever the update is given, and its store has only grown. A world
/// starts without entities, so every world that only updates have touched is
/// such a world.
pub proof fn lemma_update_keeps_singletons<P>(
    world: WorldView<P>,
    sessions: Seq<WebXrSessionInitialized>,
    xr_frame: Option<&WebXrFrame<P>>,
    settings: XrControllerSettings,
)
    requires
        singletons_unique(world),
        world.left_joints.len() == FINGER_JOINTS,
        world.right_joints.len() == FINGER_JOINTS,
    ensures
        singletons_unique(world_updated(world, sessions, xr_frame, settings).world),
        world_updated(world, sessions, xr_frame, settings).world.left_joints.len() == FINGER_JOINTS,
        world_updated(world, sessions, xr_frame, settings).world.right_joints.len()
            == FINGER_JOINTS,
        store_grew(world.alive, world_updated(world, sessions, xr_frame, settings).world.alive),
{
    let space = space_walk(space_of(world), sessions, sessions.len());
    let origin = origin_of(space.origins);
    lemma_space_stays_unique(space_of(world), sessions, sessions.len());
    let cameras = cameras_updated(cameras_of(world, space.alive), xr_frame, origin);
    lemma_cameras_outcome(cameras_of(world, space.alive), xr_frame, origin, XrEye::Left);
    lemma_store_grew_twice(world.alive, space.alive, cameras.alive);
    let before = ControllersView {
        left: world.controllers_left,
        right: world.controllers_right,
        others: world.controllers_other,
        alive: cameras.alive,
        analog: world.analog,
        events: Seq::empty(),
    };
    let controllers = controllers_updated(before, xr_frame, origin, settings);
    lemma_controllers_stay_unique(before, xr_frame, origin, settings);
    lemma_store_grew_twice(world.alive, cameras.alive, controllers.alive);
    let left_before = HandView {
        wrist: world.left_wrist,
        joints: world.left_joints,
        alive: controllers.alive,
    };
    let left = hands_updated(left_before, xr_frame, origin, XrHandedness::Left);
    lemma_hand_stays_unique(left_before, xr_frame, origin, XrHandedness::Left);
    lemma_store_grew_twice(world.alive, controllers.alive, left.alive);
    let right_before = HandView {
        wrist: world.right_wrist,
        joints: world.right_joints,
        alive: left.alive,
    };
    let right = hands_updated(right_before, xr_frame, origin, XrHandedness::Right);
    lemma_hand_stays_unique(right_before, xr_frame, origin, XrHandedness::Right);
    lemma_store_grew_twice(world.alive, left.alive, right.alive);
}

/// One view per eye, one camera per eye: where an update places at most one
/// view of an eye, an eye that one camera showed at most is shown by one
/// camera at most afterwards.
pub proof fn lemma_one_view_one_camera<P>(
    world: WorldView<P>,
    sessions: Seq<WebXrSessionInitialized>,
    xr_frame: Option<&WebXrFrame<P>>,
    settings: XrControllerSettings,
    eye: XrEye,
)
    requires
        eye != XrEye::Unknown,
        roster_of(cameras_of(world, world.alive), eye).len() <= 1,
        views_placed(
            xr_frame,
            origin_of(space_walk(space_of(world), sessions, sessions.len()).origins),
            eye,
        ) <= 1,
    ensures
        ({
            let after = world_updated(world, sessions, xr_frame, settings).world;
            roster_of(cameras_of(after, after.alive), eye).len() <= 1
        }),
{
    let space = space_walk(space_of(world), sessions, sessions.len());
    lemma_cameras_outcome(cameras_of(world, space.alive), xr_frame, origin_of(space.origins), eye);
}

} // verus!
