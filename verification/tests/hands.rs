use bevy_webxr::platform::{XrHand, XrHandJoint, XrHandedness, XrInputSource};
use bevy_webxr::tracking::entity::{EntityId, EntityStore, Roster, TrackedObject};
use bevy_webxr::tracking::hands::{
    parent_joint, slot_of, sync_hand, update_xr_finger_joint, update_xr_hands, webxr_hand_joint,
    Finger, FingerJoint, HandJoint, HandSkeleton, LeftHanded, RightHanded, WebXrHandedness,
    FINGERS, FINGER_JOINTS,
};
use bevy_webxr::WebXrFrame;

type Pose = [f32; 3];

fn pose(slot: usize) -> Pose {
    [slot as f32, 0.5, -1.0]
}

fn full_hand() -> XrHand<Pose> {
    let joints = (0..FINGER_JOINTS).map(|slot| Some(pose(slot))).collect();
    XrHand { wrist: Some([9.0; 3]), joints }
}

fn source(handedness: XrHandedness, hand: Option<XrHand<Pose>>) -> XrInputSource<Pose> {
    XrInputSource { handedness, gamepad: None, grip: None, hand }
}

fn frame(input_sources: Vec<XrInputSource<Pose>>) -> WebXrFrame<Pose> {
    WebXrFrame { viewer_pose: None, base_layer: None, input_sources }
}

fn active(skeleton: &HandSkeleton<Pose>) -> Vec<bool> {
    skeleton.joints.iter().map(|joint| joint.entities.iter().any(|entity| entity.active)).collect()
}

#[test]
fn a_full_hand_hangs_together_from_the_wrist() {
    let mut store = EntityStore::new();
    let root = store.spawn();
    let mut skeleton: HandSkeleton<Pose> = HandSkeleton::new();
    assert_eq!(skeleton.joints.len(), 24);
    sync_hand(&mut skeleton, &full_hand(), root, &mut store);

    assert_eq!(store.len(), 26);
    let wrist = skeleton.wrist.entities[0];
    assert_eq!(
        wrist,
        TrackedObject { id: EntityId(1), active: true, parent: Some(root), data: [9.0; 3] }
    );
    for finger in 0..FINGERS {
        let start = if finger == 0 { 0 } else { 5 * finger - 1 };
        let len = if finger == 0 { 4 } else { 5 };
        for position in 0..len {
            let slot = start + position;
            assert_eq!(skeleton.joints[slot].len(), 1);
            let joint = skeleton.joints[slot].entities[0];
            assert_eq!(joint.id, EntityId(slot + 2));
            assert!(joint.active);
            assert_eq!(joint.data, pose(slot));
            let parent = if position == 0 { wrist.id } else { EntityId(slot + 1) };
            assert_eq!(joint.parent, Some(parent));
        }
    }
}

#[test]
fn a_failure_takes_the_rest_of_its_finger_and_no_other() {
    let mut store = EntityStore::new();
    let root = store.spawn();
    let mut skeleton: HandSkeleton<Pose> = HandSkeleton::new();
    sync_hand(&mut skeleton, &full_hand(), root, &mut store);
    let ids: Vec<EntityId> = skeleton.joints.iter().map(|joint| joint.entities[0].id).collect();

    let mut hand = full_hand();
    hand.joints[6] = None;
    sync_hand(&mut skeleton, &hand, root, &mut store);

    let expected: Vec<bool> = (0..FINGER_JOINTS).map(|slot| !(6..9).contains(&slot)).collect();
    assert_eq!(active(&skeleton), expected);
    assert_eq!(store.len(), 26);
    for slot in 0..FINGER_JOINTS {
        assert_eq!(skeleton.joints[slot].len(), 1);
        assert_eq!(skeleton.joints[slot].entities[0].id, ids[slot]);
        assert!(store.is_alive(ids[slot]));
    }
    assert_eq!(skeleton.joints[7].entities[0].data, pose(7));

    sync_hand(&mut skeleton, &full_hand(), root, &mut store);
    assert_eq!(active(&skeleton), vec![true; FINGER_JOINTS]);
    assert_eq!(store.len(), 26);
    for slot in 0..FINGER_JOINTS {
        assert_eq!(skeleton.joints[slot].entities[0].id, ids[slot]);
    }
}

#[test]
fn a_finger_that_never_resolved_has_no_entities() {
    let mut store = EntityStore::new();
    let root = store.spawn();
    let mut skeleton: HandSkeleton<Pose> = HandSkeleton::new();
    let mut hand = full_hand();
    hand.joints[0] = None;
    hand.joints.truncate(20);
    sync_hand(&mut skeleton, &hand, root, &mut store);
    for slot in 0..4 {
        assert_eq!(skeleton.joints[slot].len(), 0);
    }
    for slot in 4..20 {
        assert_eq!(skeleton.joints[slot].len(), 1);
    }
    for slot in 20..24 {
        assert_eq!(skeleton.joints[slot].len(), 0);
    }
    assert_eq!(skeleton.joints[19].entities[0].parent, Some(skeleton.wrist.entities[0].id));
    assert_eq!(store.len(), 1 + 1 + 16);
}

#[test]
fn a_hand_without_its_wrist_is_lost_whole() {
    let mut store = EntityStore::new();
    let root = store.spawn();
    let mut skeleton: HandSkeleton<Pose> = HandSkeleton::new();
    sync_hand(&mut skeleton, &full_hand(), root, &mut store);
    let mut hand = full_hand();
    hand.wrist = None;
    sync_hand(&mut skeleton, &hand, root, &mut store);
    assert!(!skeleton.wrist.entities[0].active);
    assert_eq!(active(&skeleton), vec![false; FINGER_JOINTS]);
    assert_eq!(store.len(), 26);
    assert!((0..26).all(|id| store.is_alive(EntityId(id))));
}

#[test]
fn the_first_source_that_shows_the_hand_drives_it() {
    let mut store = EntityStore::new();
    let root = store.spawn();
    let mut left: HandSkeleton<Pose> = HandSkeleton::new();
    let mut right: HandSkeleton<Pose> = HandSkeleton::new();
    let mut no_wrist = full_hand();
    no_wrist.wrist = None;
    let mut second = full_hand();
    second.wrist = Some([7.0; 3]);
    let mut third = full_hand();
    third.wrist = Some([8.0; 3]);
    let sources = frame(vec![
        source(XrHandedness::Right, None),
        source(XrHandedness::Left, Some(full_hand())),
        source(XrHandedness::Right, Some(no_wrist)),
        source(XrHandedness::Right, Some(second)),
        source(XrHandedness::Right, Some(third)),
    ]);
    update_xr_hands::<RightHanded, Pose>(Some(&sources), Some(root), &mut right, &mut store);
    assert_eq!(right.wrist.entities[0].data, [7.0; 3]);
    assert_eq!(store.len(), 26);
    assert_eq!(left.wrist.len(), 0);
    update_xr_hands::<LeftHanded, Pose>(Some(&sources), Some(root), &mut left, &mut store);
    assert_eq!(left.wrist.entities[0].data, [9.0; 3]);
    assert_eq!(store.len(), 51);

    let cases: Vec<(Option<&WebXrFrame<Pose>>, Option<EntityId>)> =
        vec![(None, Some(root)), (Some(&sources), None)];
    for (xr_frame, at) in cases {
        update_xr_hands::<LeftHanded, Pose>(Some(&sources), Some(root), &mut left, &mut store);
        assert!(left.wrist.entities[0].active);
        update_xr_hands::<LeftHanded, Pose>(xr_frame, at, &mut left, &mut store);
        assert!(!left.wrist.entities[0].active);
        assert_eq!(active(&left), vec![false; FINGER_JOINTS]);
        assert_eq!(store.len(), 51);
    }
    let none_left = frame(vec![source(XrHandedness::Right, Some(full_hand()))]);
    update_xr_hands::<LeftHanded, Pose>(Some(&sources), Some(root), &mut left, &mut store);
    update_xr_hands::<LeftHanded, Pose>(Some(&none_left), Some(root), &mut left, &mut store);
    assert!(!left.wrist.entities[0].active);
    assert_eq!(left.wrist.entities[0].id, EntityId(26));
}

#[test]
fn one_joint_follows_the_joint_before_it() {
    let mut store = EntityStore::new();
    let before = store.spawn();
    let mut joint: Roster<Pose> = Roster::new();
    assert_eq!(update_xr_finger_joint(&mut joint, None, Some([1.0; 3]), &mut store), None);
    assert_eq!(joint.len(), 0);
    assert_eq!(update_xr_finger_joint(&mut joint, Some(before), None, &mut store), None);
    assert_eq!(joint.len(), 0);
    let spawned = update_xr_finger_joint(&mut joint, Some(before), Some([1.0; 3]), &mut store);
    assert_eq!(spawned, Some(EntityId(1)));
    assert_eq!(
        joint.entities,
        vec![TrackedObject { id: EntityId(1), active: true, parent: Some(before), data: [1.0; 3] }]
    );
    assert_eq!(update_xr_finger_joint(&mut joint, None, Some([2.0; 3]), &mut store), None);
    assert_eq!(
        joint.entities,
        vec![TrackedObject { id: EntityId(1), active: false, parent: Some(before), data: [1.0; 3] }]
    );
    let other = store.spawn();
    let back = update_xr_finger_joint(&mut joint, Some(other), Some([3.0; 3]), &mut store);
    assert_eq!(back, Some(EntityId(1)));
    assert_eq!(
        joint.entities,
        vec![TrackedObject { id: EntityId(1), active: true, parent: Some(before), data: [3.0; 3] }]
    );
    assert_eq!(store.len(), 3);
}

#[test]
fn duplicate_joints_collapse_to_the_first() {
    let mut store = EntityStore::new();
    let before = store.spawn();
    let mut joint: Roster<Pose> = Roster::new();
    for _ in 0..3 {
        let id = store.spawn();
        joint.adopt(TrackedObject { id, active: true, parent: None, data: [0.0; 3] });
    }
    update_xr_finger_joint(&mut joint, Some(before), None, &mut store);
    assert_eq!(joint.len(), 3);
    assert!((1..4).all(|id| store.is_alive(EntityId(id))));
    let survivor = update_xr_finger_joint(&mut joint, Some(before), Some([5.0; 3]), &mut store);
    assert_eq!(survivor, Some(EntityId(1)));
    assert_eq!(
        joint.entities,
        vec![TrackedObject { id: EntityId(1), active: true, parent: None, data: [5.0; 3] }]
    );
    assert!(store.is_alive(EntityId(1)));
    assert!(!store.is_alive(EntityId(2)) && !store.is_alive(EntityId(3)));
    store.despawn(EntityId(77));
    assert_eq!(store.len(), 4);
}

#[test]
fn the_skeleton_is_a_table() {
    assert_eq!((FINGERS, FINGER_JOINTS), (5, 24));
    assert_eq!(LeftHanded::webxr_handedness(), XrHandedness::Left);
    assert_eq!(RightHanded::webxr_handedness(), XrHandedness::Right);
    assert_eq!(Finger::Thumb.chain(), (0, 4));
    assert_eq!(Finger::Index.chain(), (4, 5));
    assert_eq!(Finger::Middle.chain(), (9, 5));
    assert_eq!(Finger::Ring.chain(), (14, 5));
    assert_eq!(Finger::Little.chain(), (19, 5));
    assert_eq!(Finger::from_index(0), Some(Finger::Thumb));
    assert_eq!(Finger::from_index(4), Some(Finger::Little));
    assert_eq!(Finger::from_index(5), None);
    assert_eq!(slot_of(Finger::Thumb, FingerJoint::Metacarpal), Some(0));
    assert_eq!(slot_of(Finger::Thumb, FingerJoint::IntermediatePhalanx), None);
    assert_eq!(slot_of(Finger::Thumb, FingerJoint::DistalPhalanx), Some(2));
    assert_eq!(slot_of(Finger::Thumb, FingerJoint::Tip), Some(3));
    assert_eq!(slot_of(Finger::Index, FingerJoint::IntermediatePhalanx), Some(6));
    assert_eq!(slot_of(Finger::Little, FingerJoint::Tip), Some(23));

    assert_eq!(webxr_hand_joint(HandJoint::Wrist), Some(XrHandJoint::Wrist));
    assert_eq!(
        webxr_hand_joint(HandJoint::Finger(Finger::Thumb, FingerJoint::DistalPhalanx)),
        Some(XrHandJoint::ThumbPhalanxDistal)
    );
    let no_joint = HandJoint::Finger(Finger::Thumb, FingerJoint::IntermediatePhalanx);
    assert_eq!(webxr_hand_joint(no_joint), None);
    assert_eq!(
        webxr_hand_joint(HandJoint::Finger(Finger::Index, FingerJoint::Metacarpal)),
        Some(XrHandJoint::IndexFingerMetacarpal)
    );
    assert_eq!(
        webxr_hand_joint(HandJoint::Finger(Finger::Middle, FingerJoint::IntermediatePhalanx)),
        Some(XrHandJoint::MiddleFingerPhalanxIntermediate)
    );
    assert_eq!(
        webxr_hand_joint(HandJoint::Finger(Finger::Ring, FingerJoint::ProximalPhalanx)),
        Some(XrHandJoint::RingFingerPhalanxProximal)
    );
    assert_eq!(
        webxr_hand_joint(HandJoint::Finger(Finger::Little, FingerJoint::Tip)),
        Some(XrHandJoint::PinkyFingerTip)
    );

    assert_eq!(parent_joint(HandJoint::Wrist), None);
    assert_eq!(
        parent_joint(HandJoint::Finger(Finger::Ring, FingerJoint::Metacarpal)),
        Some(HandJoint::Wrist)
    );
    assert_eq!(
        parent_joint(HandJoint::Finger(Finger::Thumb, FingerJoint::DistalPhalanx)),
        Some(HandJoint::Finger(Finger::Thumb, FingerJoint::ProximalPhalanx))
    );
    assert_eq!(
        parent_joint(HandJoint::Finger(Finger::Index, FingerJoint::DistalPhalanx)),
        Some(HandJoint::Finger(Finger::Index, FingerJoint::IntermediatePhalanx))
    );
    assert_eq!(parent_joint(no_joint), None);
    let fingers = [Finger::Thumb, Finger::Index, Finger::Middle, Finger::Ring, Finger::Little];
    let joints = [
        FingerJoint::Metacarpal,
        FingerJoint::ProximalPhalanx,
        FingerJoint::IntermediatePhalanx,
        FingerJoint::DistalPhalanx,
        FingerJoint::Tip,
    ];
    let mut slots = Vec::new();
    for finger in fingers {
        for joint in joints {
            if let Some(slot) = slot_of(finger, joint) {
                slots.push(slot);
                match parent_joint(HandJoint::Finger(finger, joint)) {
                    Some(HandJoint::Finger(f, j)) => assert_eq!(slot_of(f, j), Some(slot - 1)),
                    Some(HandJoint::Wrist) => assert_eq!(slot, finger.chain().0),
                    None => unreachable!(),
                }
                assert!(webxr_hand_joint(HandJoint::Finger(finger, joint)).is_some());
            }
        }
    }
    assert_eq!(slots, (0..FINGER_JOINTS).collect::<Vec<usize>>());
}
