use bevy_webxr::camera::FramebufferView;
use bevy_webxr::events::WebXrSessionInitialized;
use bevy_webxr::platform::{
    Gamepad, XrEye, XrHand, XrHandedness, XrInputSource, XrView, XrViewerPose, XrViewport,
    XrWebGlLayer,
};
use bevy_webxr::tracking::camera::FRAMEBUFFER_HANDLE;
use bevy_webxr::tracking::entity::{EntityId, EntityStore, Roster, TrackedObject};
use bevy_webxr::tracking::hands::FINGER_JOINTS;
use bevy_webxr::tracking::input::{XrController, XrControllerEvent, XrControllerSettings};
use bevy_webxr::tracking::space::{initialize_xr_space, XrOrigin, XrSpace};
use bevy_webxr::world::XrWorld;
use bevy_webxr::{EngineXrMode, WebXrFrame, XrMode};

type Pose = [f32; 3];

fn origin_entity(id: usize, origin: XrOrigin) -> TrackedObject<XrOrigin> {
    TrackedObject { id: EntityId(id), active: true, parent: None, data: origin }
}

fn session(origin: XrOrigin) -> WebXrSessionInitialized {
    WebXrSessionInitialized { mode: XrMode::VR, origin }
}

fn full_frame() -> WebXrFrame<Pose> {
    let viewport = XrViewport { x: 0, y: 0, width: 8, height: 8 };
    let view = |eye| XrView { eye, pose: [0.0; 3], viewport };
    let hand = |side| XrInputSource {
        handedness: side,
        gamepad: Some(Gamepad { buttons: vec![Some(1000)], axes: vec![] }),
        grip: Some([1.0; 3]),
        hand: Some(XrHand { wrist: Some([2.0; 3]), joints: vec![Some([3.0; 3]); FINGER_JOINTS] }),
    };
    WebXrFrame {
        viewer_pose: Some(XrViewerPose { views: vec![view(XrEye::Left), view(XrEye::Right)] }),
        base_layer: Some(
            XrWebGlLayer { framebuffer: true, framebuffer_width: 16, framebuffer_height: 8 },
        ),
        input_sources: vec![hand(XrHandedness::Left), hand(XrHandedness::Right)],
    }
}

fn counts(world: &XrWorld<Pose>) -> Vec<usize> {
    let mut counts = vec![
        world.space.origins.len(),
        world.cameras.eyes_left.len(),
        world.cameras.eyes_right.len(),
        world.controllers.left.len(),
        world.controllers.right.len(),
        world.left_hand.wrist.len(),
        world.right_hand.wrist.len(),
    ];
    counts.extend(world.left_hand.joints.iter().map(|joint| joint.len()));
    counts.extend(world.right_hand.joints.iter().map(|joint| joint.len()));
    counts
}

#[test]
fn one_update_runs_every_synchroniser_in_order() {
    let mut world: XrWorld<Pose> = XrWorld::new();
    assert!(world.is_wf());
    let settings = XrControllerSettings::uniform(10);
    let outcome = world.update(&vec![session(XrOrigin::Room)], Some(&full_frame()), &settings);
    assert!(world.is_wf());
    assert_eq!(outcome.mode, Some(EngineXrMode::VR));
    assert_eq!(
        outcome.framebuffer,
        Some(FramebufferView { handle: FRAMEBUFFER_HANDLE, width: 16, height: 8 })
    );
    assert_eq!(outcome.events.len(), 6);
    assert_eq!(outcome.events[0], XrControllerEvent::Tracking { controller: XrController::Left });
    assert_eq!(outcome.events[3], XrControllerEvent::Tracking { controller: XrController::Right });

    let origin = world.space.origins.entities[0];
    assert_eq!(origin, origin_entity(0, XrOrigin::Room));
    assert_eq!(world.cameras.eyes_left.entities[0].id, EntityId(1));
    assert_eq!(world.cameras.eyes_right.entities[0].id, EntityId(2));
    assert_eq!(world.controllers.left.entities[0].id, EntityId(3));
    assert_eq!(world.controllers.right.entities[0].id, EntityId(4));
    assert_eq!(world.left_hand.wrist.entities[0].id, EntityId(5));
    assert_eq!(world.left_hand.joints[23].entities[0].id, EntityId(29));
    assert_eq!(world.right_hand.wrist.entities[0].id, EntityId(30));
    assert_eq!(world.right_hand.joints[23].entities[0].id, EntityId(54));
    assert_eq!(world.store.len(), 55);
    for under_origin in [
        world.cameras.eyes_left.entities[0].parent,
        world.controllers.left.entities[0].parent,
        world.left_hand.wrist.entities[0].parent,
        world.right_hand.wrist.entities[0].parent,
    ] {
        assert_eq!(under_origin, Some(origin.id));
    }
}

#[test]
fn singleton_roles_stay_single_through_any_updates() {
    let mut world: XrWorld<Pose> = XrWorld::new();
    let settings = XrControllerSettings::uniform(10);
    let full = full_frame();
    let mut half = full_frame();
    half.input_sources.remove(0);
    half.viewer_pose = None;
    let mut broken = full_frame();
    broken.input_sources[1].hand.as_mut().unwrap().joints[10] = None;
    let updates: Vec<(Vec<WebXrSessionInitialized>, Option<&WebXrFrame<Pose>>)> = vec![
        (vec![], Some(&full)),
        (vec![session(XrOrigin::Seat)], None),
        (vec![], Some(&full)),
        (vec![], Some(&half)),
        (vec![session(XrOrigin::View), session(XrOrigin::Other)], Some(&broken)),
        (vec![], None),
        (vec![], Some(&full)),
        (vec![], Some(&full)),
    ];
    for (sessions, xr_frame) in updates {
        world.update(&sessions, xr_frame, &settings);
        assert!(counts(&world).iter().all(|count| *count <= 1));
        assert!((0..world.store.len()).all(|id| world.store.is_alive(EntityId(id))));
    }
    assert_eq!(counts(&world), vec![1; 7 + 2 * FINGER_JOINTS]);
    assert_eq!(world.store.len(), 55);
    assert_eq!(world.space.origins.entities[0].data, XrOrigin::Other);
    assert_eq!(world.space.origins.entities[0].id, EntityId(0));
}

#[test]
fn nothing_is_placed_before_there_is_an_origin() {
    let mut world: XrWorld<Pose> = XrWorld::new();
    let settings = XrControllerSettings::uniform(10);
    let outcome = world.update(&vec![], Some(&full_frame()), &settings);
    assert_eq!(outcome.mode, None);
    assert_eq!(outcome.framebuffer, None);
    assert_eq!(outcome.events, vec![]);
    assert_eq!(world.store.len(), 0);
    assert_eq!(counts(&world), vec![0; 7 + 2 * FINGER_JOINTS]);
    world.left_hand.joints.pop();
    assert!(!world.left_hand.is_wf());
    assert!(!world.is_wf());
}

#[test]
fn the_space_keeps_one_origin() {
    let mut store = EntityStore::new();
    let mut space = XrSpace::new();
    assert_eq!(space.origin(), None);
    initialize_xr_space(&vec![], &mut space, &mut store);
    assert_eq!(space.origins.len(), 0);
    initialize_xr_space(&vec![session(XrOrigin::Seat)], &mut space, &mut store);
    assert_eq!(space.origins.entities, vec![origin_entity(0, XrOrigin::Seat)]);
    assert_eq!(space.origin(), Some(EntityId(0)));
    space.origins.retire_from(0);
    let sessions = vec![session(XrOrigin::Room), session(XrOrigin::View)];
    initialize_xr_space(&sessions, &mut space, &mut store);
    assert_eq!(space.origins.entities, vec![origin_entity(0, XrOrigin::View)]);
    assert_eq!(store.len(), 1);

    let stray = store.spawn();
    space.origins.adopt(origin_entity(stray.0, XrOrigin::Other));
    assert_eq!(space.origin(), Some(EntityId(0)));
    initialize_xr_space(&vec![session(XrOrigin::Room)], &mut space, &mut store);
    assert_eq!(space.origins.entities, vec![origin_entity(2, XrOrigin::Room)]);
    assert!(!store.is_alive(EntityId(0)) && !store.is_alive(stray));
    assert!(store.is_alive(EntityId(2)));
}

#[test]
fn the_two_policies_on_one_roster() {
    let mut store = EntityStore::new();
    let root = store.spawn();
    let mut roster: Roster<u8> = Roster::new();
    assert_eq!(roster.reconcile(None, root, &mut store), None);
    assert_eq!(roster.len(), 0);
    assert_eq!(roster.reconcile(Some(7), root, &mut store), Some(EntityId(1)));
    assert_eq!(roster.reconcile(Some(7), root, &mut store), Some(EntityId(1)));
    assert_eq!(
        roster.entities,
        vec![TrackedObject { id: EntityId(1), active: true, parent: Some(root), data: 7 }]
    );
    assert_eq!(store.len(), 2);

    let mut pool: Roster<u8> = Roster::new();
    assert_eq!(pool.assign(0, 10, root, &mut store), EntityId(2));
    assert_eq!(pool.assign(5, 11, root, &mut store), EntityId(3));
    assert_eq!(pool.assign(0, 12, root, &mut store), EntityId(2));
    pool.retire_from(1);
    assert_eq!(
        pool.entities,
        vec![
            TrackedObject { id: EntityId(2), active: true, parent: Some(root), data: 12 },
            TrackedObject { id: EntityId(3), active: false, parent: Some(root), data: 11 },
        ]
    );
    pool.retire_from(9);
    assert!(pool.entities[0].active);
    assert!(store.is_alive(EntityId(3)));
    assert!(!store.is_alive(EntityId(4)));
    store.despawn(EntityId(3));
    assert!(!store.is_alive(EntityId(3)));
    assert_eq!(store.len(), 4);
}
