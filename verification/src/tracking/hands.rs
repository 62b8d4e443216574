//! The hand-skeleton synchroniser: one entity per joint, the wrist first and
//! then each finger from the palm outwards, every joint hanging under the
//! joint before it.

use crate::platform::{XrHand, XrHandJoint, XrHandedness, XrInputSource};
use crate::tracking::entity::{
    lemma_singleton_removes_no_single, lemma_store_grew_twice, reconciled, reconciled_store,
    retired, store_grew, EntityId, EntityStore, Roster, TrackedObject,
};
use crate::WebXrFrame;
use vstd::prelude::*;

verus! {

#[derive(Clone, Copy, Debug, PartialEq, Eq, Hash, Structural)]
pub enum Finger {
    Thumb,
    Index,
    Middle,
    Ring,
    Little,
}

#[derive(Clone, Copy, Debug, PartialEq, Eq, Hash, Structural)]
pub enum FingerJoint {
    Metacarpal,
    ProximalPhalanx,
    IntermediatePhalanx,
    DistalPhalanx,
    Tip,
}

/// A joint of the skeleton: the wrist, or a joint of a finger.
#[derive(Clone, Copy, Debug, PartialEq, Eq, Hash, Structural)]
pub enum HandJoint {
    Wrist,
    Finger(Finger, FingerJoint),
}

/// Number of fingers.
pub const FINGERS: usize = 5;

/// Number of finger joints of one hand: four of the thumb, five of each other
/// finger. With the wrist a hand has one joint more.
pub const FINGER_JOINTS: usize = 24;

/// Where the chain of the finger numbered `finger` starts in skeleton order.
pub open spec fn chain_start(finger: int) -> int {
    if finger <= 0 {
        0
    } else {
        5 * finger - 1
    }
}

/// How many joints the chain of the finger numbered `finger` has.
pub open spec fn chain_len(finger: int) -> int {
    if finger == 0 {
        4
    } else {
        5
    }
}

impl Finger {
    /// The finger's number, from the thumb.
    pub open spec fn index(self) -> int {
        match self {
            Finger::Thumb => 0,
            Finger::Index => 1,
            Finger::Middle => 2,
            Finger::Ring => 3,
            Finger::Little => 4,
        }
    }

    /// The finger's chain: where it starts in skeleton order, and its length.
    pub fn chain(self) -> (r: (usize, usize))
        ensures
            r.0 == chain_start(self.index()),
            r.1 == chain_len(self.index()),
    {
        match self {
            Finger::Thumb => (0, 4),
            Finger::Index => (4, 5),
            Finger::Middle => (9, 5),
            Finger::Ring => (14, 5),
            Finger::Little => (19, 5),
        }
    }

    /// The finger with the given number.
    pub fn from_index(index: usize) -> (r: Option<Finger>)
        ensures
            index < FINGERS ==> r is Some && r->0.index() == index,
            index >= FINGERS ==> r is None,
    {
        if index == 0 {
            Some(Finger::Thumb)
        } else if index == 1 {
            Some(Finger::Index)
        } else if index == 2 {
            Some(Finger::Middle)
        } else if index == 3 {
            Some(Finger::Ring)
        } else if index == 4 {
            Some(Finger::Little)
        } else {
            None
        }
    }
}

/// The position of `joint` in the chain of `finger`, from the palm. The thumb
/// has no intermediate phalanx.
pub open spec fn chain_position(finger: Finger, joint: FingerJoint) -> Option<int> {
    match (finger, joint) {
        (_, FingerJoint::Metacarpal) => Some(0),
        (_, FingerJoint::ProximalPhalanx) => Some(1),
        (Finger::Thumb, FingerJoint::IntermediatePhalanx) => None,
        (Finger::Thumb, FingerJoint::DistalPhalanx) => Some(2),
        (Finger::Thumb, FingerJoint::Tip) => Some(3),
        (_, FingerJoint::IntermediatePhalanx) => Some(2),
        (_, FingerJoint::DistalPhalanx) => Some(3),
        (_, FingerJoint::Tip) => Some(4),
    }
}

/// The place of a finger joint in skeleton order.
pub open spec fn joint_slot(finger: Finger, joint: FingerJoint) -> Option<int> {
    match chain_position(finger, joint) {
        Some(position) => Some(chain_start(finger.index()) + position),
        None => None,
    }
}

/// The joint that `joint` hangs under. The wrist hangs under no joint, and
/// neither does a joint that no hand has.
pub open spec fn parent_of(joint: HandJoint) -> Option<HandJoint> {
    match joint {
        HandJoint::Wrist => None,
        HandJoint::Finger(_, FingerJoint::Metacarpal) => Some(HandJoint::Wrist),
        HandJoint::Finger(finger, FingerJoint::ProximalPhalanx) => Some(
            HandJoint::Finger(finger, FingerJoint::Metacarpal),
        ),
        HandJoint::Finger(Finger::Thumb, FingerJoint::IntermediatePhalanx) => None,
        HandJoint::Finger(finger, FingerJoint::IntermediatePhalanx) => Some(
            HandJoint::Finger(finger, FingerJoint::ProximalPhalanx),
        ),
        HandJoint::Finger(Finger::Thumb, FingerJoint::DistalPhalanx) => Some(
            HandJoint::Finger(Finger::Thumb, FingerJoint::ProximalPhalanx),
        ),
        HandJoint::Finger(finger, FingerJoint::DistalPhalanx) => Some(
            HandJoint::Finger(finger, FingerJoint::IntermediatePhalanx),
        ),
        HandJoint::Finger(finger, FingerJoint::Tip) => Some(
            HandJoint::Finger(finger, FingerJoint::DistalPhalanx),
        ),
    }
}

/// The device's name for `joint`.
pub open spec fn device_joint(joint: HandJoint) -> Option<XrHandJoint> {
    match joint {
        HandJoint::Wrist => Some(XrHandJoint::Wrist),
        HandJoint::Finger(Finger::Thumb, FingerJoint::Metacarpal) => Some(
            XrHandJoint::ThumbMetacarpal,
        ),
        HandJoint::Finger(Finger::Thumb, FingerJoint::ProximalPhalanx) => Some(
            XrHandJoint::ThumbPhalanxProximal,
        ),
        HandJoint::Finger(Finger::Thumb, FingerJoint::IntermediatePhalanx) => None,
        HandJoint::Finger(Finger::Thumb, FingerJoint::DistalPhalanx) => Some(
            XrHandJoint::ThumbPhalanxDistal,
        ),
        HandJoint::Finger(Finger::Thumb, FingerJoint::Tip) => Some(XrHandJoint::ThumbTip),
        HandJoint::Finger(Finger::Index, FingerJoint::Metacarpal) => Some(
            XrHandJoint::IndexFingerMetacarpal,
        ),
        HandJoint::Finger(Finger::Index, FingerJoint::ProximalPhalanx) => Some(
            XrHandJoint::IndexFingerPhalanxProximal,
        ),
        HandJoint::Finger(Finger::Index, FingerJoint::IntermediatePhalanx) => Some(
            XrHandJoint::IndexFingerPhalanxIntermediate,
        ),
        HandJoint::Finger(Finger::Index, FingerJoint::DistalPhalanx) => Some(
            XrHandJoint::IndexFingerPhalanxDistal,
        ),
        HandJoint::Finger(Finger::Index, FingerJoint::Tip) => Some(XrHandJoint::IndexFingerTip),
        HandJoint::Finger(Finger::Middle, FingerJoint::Metacarpal) => Some(
            XrHandJoint::MiddleFingerMetacarpal,
        ),
        HandJoint::Finger(Finger::Middle, FingerJoint::ProximalPhalanx) => Some(
            XrHandJoint::MiddleFingerPhalanxProximal,
        ),
        HandJoint::Finger(Finger::Middle, FingerJoint::IntermediatePhalanx) => Some(
            XrHandJoint::MiddleFingerPhalanxIntermediate,
        ),
        HandJoint::Finger(Finger::Middle, FingerJoint::DistalPhalanx) => Some(
            XrHandJoint::MiddleFingerPhalanxDistal,
        ),
        HandJoint::Finger(Finger::Middle, FingerJoint::Tip) => Some(XrHandJoint::MiddleFingerTip),
        HandJoint::Finger(Finger::Ring, FingerJoint::Metacarpal) => Some(
            XrHandJoint::RingFingerMetacarpal,
        ),
        HandJoint::Finger(Finger::Ring, FingerJoint::ProximalPhalanx) => Some(
            XrHandJoint::RingFingerPhalanxProximal,
        ),
        HandJoint::Finger(Finger::Ring, FingerJoint::IntermediatePhalanx) => Some(
            XrHandJoint::RingFingerPhalanxIntermediate,
        ),
        HandJoint::Finger(Finger::Ring, FingerJoint::DistalPhalanx) => Some(
            XrHandJoint::RingFingerPhalanxDistal,
        ),
        HandJoint::Finger(Finger::Ring, FingerJoint::Tip) => Some(XrHandJoint::RingFingerTip),
        HandJoint::Finger(Finger::Little, FingerJoint::Metacarpal) => Some(
            XrHandJoint::PinkyFingerMetacarpal,
        ),
        HandJoint::Finger(Finger::Little, FingerJoint::ProximalPhalanx) => Some(
            XrHandJoint::PinkyFingerPhalanxProximal,
        ),
        HandJoint::Finger(Finger::Little, FingerJoint::IntermediatePhalanx) => Some(
            XrHandJoint::PinkyFingerPhalanxIntermediate,
        ),
        HandJoint::Finger(Finger::Little, FingerJoint::DistalPhalanx) => Some(
            XrHandJoint::PinkyFingerPhalanxDistal,
        ),
        HandJoint::Finger(Finger::Little, FingerJoint::Tip) => Some(XrHandJoint::PinkyFingerTip),
    }
}

/// The place of a finger joint in skeleton order; `None` for a joint that no
/// hand has.
pub fn slot_of(finger: Finger, joint: FingerJoint) -> (slot: Option<usize>)
    ensures
        slot is Some <==> joint_slot(finger, joint) is Some,
        slot is Some ==> slot->0 == joint_slot(finger, joint)->0 && slot->0 < FINGER_JOINTS,
{
    let (start, _) = finger.chain();
    match (finger, joint) {
        (_, FingerJoint::Metacarpal) => Some(start),
        (_, FingerJoint::ProximalPhalanx) => Some(start + 1),
        (Finger::Thumb, FingerJoint::IntermediatePhalanx) => None,
        (Finger::Thumb, FingerJoint::DistalPhalanx) => Some(start + 2),
        (Finger::Thumb, FingerJoint::Tip) => Some(start + 3),
        (_, FingerJoint::IntermediatePhalanx) => Some(start + 2),
        (_, FingerJoint::DistalPhalanx) => Some(start + 3),
        (_, FingerJoint::Tip) => Some(start + 4),
    }
}

/// The joint that `joint` hangs under: see [`parent_of`].
pub fn parent_joint(joint: HandJoint) -> (parent: Option<HandJoint>)
    ensures
        parent == parent_of(joint),
{
    match joint {
        HandJoint::Wrist => None,
        HandJoint::Finger(finger, kind) => match (finger, kind) {
            (_, FingerJoint::Metacarpal) => Some(HandJoint::Wrist),
            (_, FingerJoint::ProximalPhalanx) => Some(
                HandJoint::Finger(finger, FingerJoint::Metacarpal),
            ),
            (Finger::Thumb, FingerJoint::IntermediatePhalanx) => None,
            (_, FingerJoint::IntermediatePhalanx) => Some(
                HandJoint::Finger(finger, FingerJoint::ProximalPhalanx),
            ),
            (Finger::Thumb, FingerJoint::DistalPhalanx) => Some(
                HandJoint::Finger(finger, FingerJoint::ProximalPhalanx),
            ),
            (_, FingerJoint::DistalPhalanx) => Some(
                HandJoint::Finger(finger, FingerJoint::IntermediatePhalanx),
            ),
            (_, FingerJoint::Tip) => Some(HandJoint::Finger(finger, FingerJoint::DistalPhalanx)),
        },
    }
}

/// The device's name for `joint`: see [`device_joint`].
pub fn webxr_hand_joint(joint: HandJoint) -> (name: Option<XrHandJoint>)
    ensures
        name == device_joint(joint),
{
    match joint {
        HandJoint::Wrist => Some(XrHandJoint::Wrist),
        HandJoint::Finger(finger, kind) => match finger {
            Finger::Thumb => match kind {
                FingerJoint::Metacarpal => Some(XrHandJoint::ThumbMetacarpal),
                FingerJoint::ProximalPhalanx => Some(XrHandJoint::ThumbPhalanxProximal),
                FingerJoint::IntermediatePhalanx => None,
                FingerJoint::DistalPhalanx => Some(XrHandJoint::ThumbPhalanxDistal),
                FingerJoint::Tip => Some(XrHandJoint::ThumbTip),
            },
            Finger::Index => match kind {
                FingerJoint::Metacarpal => Some(XrHandJoint::IndexFingerMetacarpal),
                FingerJoint::ProximalPhalanx => Some(XrHandJoint::IndexFingerPhalanxProximal),
                FingerJoint::IntermediatePhalanx => Some(
                    XrHandJoint::IndexFingerPhalanxIntermediate,
                ),
                FingerJoint::DistalPhalanx => Some(XrHandJoint::IndexFingerPhalanxDistal),
                FingerJoint::Tip => Some(XrHandJoint::IndexFingerTip),
            },
            Finger::Middle => match kind {
                FingerJoint::Metacarpal => Some(XrHandJoint::MiddleFingerMetacarpal),
                FingerJoint::ProximalPhalanx => Some(XrHandJoint::MiddleFingerPhalanxProximal),
                FingerJoint::IntermediatePhalanx => Some(
                    XrHandJoint::MiddleFingerPhalanxIntermediate,
                ),
                FingerJoint::DistalPhalanx => Some(XrHandJoint::MiddleFingerPhalanxDistal),
                FingerJoint::Tip => Some(XrHandJoint::MiddleFingerTip),
            },
            Finger::Ring => match kind {
                FingerJoint::Metacarpal => Some(XrHandJoint::RingFingerMetacarpal),
                FingerJoint::ProximalPhalanx => Some(XrHandJoint::RingFingerPhalanxProximal),
                FingerJoint::IntermediatePhalanx => Some(
                    XrHandJoint::RingFingerPhalanxIntermediate,
                ),
                FingerJoint::DistalPhalanx => Some(XrHandJoint::RingFingerPhalanxDistal),
                FingerJoint::Tip => Some(XrHandJoint::RingFingerTip),
            },
            Finger::Little => match kind {
                FingerJoint::Metacarpal => Some(XrHandJoint::PinkyFingerMetacarpal),
                FingerJoint::ProximalPhalanx => Some(XrHandJoint::PinkyFingerPhalanxProximal),
                FingerJoint::IntermediatePhalanx => Some(
                    XrHandJoint::PinkyFingerPhalanxIntermediate,
                ),
                FingerJoint::DistalPhalanx => Some(XrHandJoint::PinkyFingerPhalanxDistal),
                FingerJoint::Tip => Some(XrHandJoint::PinkyFingerTip),
            },
        },
    }
}

/// The skeleton's order is the order of its chains: a finger joint that hangs
/// under another joint of its finger stands right behind it, and the first
/// joint of every finger hangs under the wrist.
pub proof fn lemma_parent_stands_before(finger: Finger, joint: FingerJoint)
    requires
        joint_slot(finger, joint) is Some,
    ensures
        parent_of(HandJoint::Finger(finger, joint)) is Some,
        0 <= joint_slot(finger, joint)->0 < FINGER_JOINTS,
        chain_position(finger, joint) == Some(0int) <==> parent_of(HandJoint::Finger(finger, joint))
            == Some(HandJoint::Wrist),
        parent_of(HandJoint::Finger(finger, joint)) matches Some(HandJoint::Finger(f, j)) ==> f
            == finger && joint_slot(f, j) == Some(joint_slot(finger, joint)->0 - 1),
{
}

/// Marks a handedness and names it as the device does.
pub trait WebXrHandedness {
    spec fn handedness() -> XrHandedness;

    fn webxr_handedness() -> (r: XrHandedness)
        ensures
            r == Self::handedness(),
    ;
}

#[derive(Clone, Copy, Debug, PartialEq, Eq, Hash, Default)]
pub struct LeftHanded;

#[derive(Clone, Copy, Debug, PartialEq, Eq, Hash, Default)]
pub struct RightHanded;

impl WebXrHandedness for LeftHanded {
    open spec fn handedness() -> XrHandedness {
        XrHandedness::Left
    }

    fn webxr_handedness() -> (r: XrHandedness) {
        XrHandedness::Left
    }
}

impl WebXrHandedness for RightHanded {
    open spec fn handedness() -> XrHandedness {
        XrHandedness::Right
    }

    fn webxr_handedness() -> (r: XrHandedness) {
        XrHandedness::Right
    }
}

/// The entities of one hand: those of the wrist, and those of each finger
/// joint in skeleton order.
#[derive(Clone, Debug, PartialEq)]
pub struct HandSkeleton<P> {
    pub wrist: Roster<P>,
    pub joints: Vec<Roster<P>>,
}

/// Everything an update of a hand reads and writes: the entities of the
/// wrist, the entities of each finger joint in skeleton order, and the store.
pub struct HandView<P> {
    pub wrist: Seq<TrackedObject<P>>,
    pub joints: Seq<Seq<TrackedObject<P>>>,
    pub alive: Seq<bool>,
}

/// What one joint's turn leaves: the joint's entities, the store, and the
/// entity that carries the joint if it resolved.
pub struct JointView<P> {
    pub entities: Seq<TrackedObject<P>>,
    pub alive: Seq<bool>,
    pub entity: Option<EntityId>,
}

/// A hand in the middle of a walk along a chain, with the entity that the
/// next joint hangs under: `None` once a joint of the chain has failed.
pub struct ChainView<P> {
    pub hand: HandView<P>,
    pub previous: Option<EntityId>,
}

impl<P: Copy> HandSkeleton<P> {
    /// A skeleton has a place for every finger joint.
    pub open spec fn wf(&self) -> bool {
        self.joints@.len() == FINGER_JOINTS
    }

    /// The entities of each finger joint, in skeleton order.
    pub open spec fn joints_view(&self) -> Seq<Seq<TrackedObject<P>>> {
        Seq::new(self.joints@.len(), |slot: int| self.joints@[slot].entities@)
    }

    /// The skeleton and the store as an update sees them.
    pub open spec fn view_with(&self, store: &EntityStore) -> HandView<P> {
        HandView { wrist: self.wrist.entities@, joints: self.joints_view(), alive: store@ }
    }

    /// Whether the skeleton has a place for every finger joint.
    pub fn is_wf(&self) -> (r: bool)
        ensures
            r == self.wf(),
    {
        self.joints.len() == FINGER_JOINTS
    }

    /// A skeleton without entities.
    pub fn new() -> (skeleton: HandSkeleton<P>)
        ensures
            skeleton.wf(),
            skeleton.wrist.entities@.len() == 0,
            forall|slot: int|
                0 <= slot < FINGER_JOINTS ==> (#[trigger] skeleton.joints_view()[slot]).len() == 0,
    {
        let mut joints: Vec<Roster<P>> = Vec::new();
        let mut slot: usize = 0;
        while slot < FINGER_JOINTS
            invariant
                slot <= FINGER_JOINTS,
                joints@.len() == slot,
                forall|s: int| 0 <= s < slot ==> (#[trigger] joints@[s]).entities@.len() == 0,
            decreases FINGER_JOINTS - slot,
        {
            joints.push(Roster::new());
            slot += 1;
        }
        HandSkeleton { wrist: Roster::new(), joints }
    }
}

/// The reading for the joint at `slot`; a missing entry is no reading.
pub open spec fn reading_at<P>(readings: Seq<Option<P>>, slot: int) -> Option<P> {
    if 0 <= slot < readings.len() {
        readings[slot]
    } else {
        None
    }
}

/// One joint's turn. Where the joint before it resolved and its own pose
/// resolves against that joint, the joint is reconciled under the singleton
/// policy and hangs under the joint before it. Otherwise its entities are
/// marked inactive.
pub open spec fn joint_step<P>(
    before: Seq<TrackedObject<P>>,
    alive: Seq<bool>,
    previous: Option<EntityId>,
    reading: Option<P>,
) -> JointView<P> {
    if previous is Some && reading is Some {
        let after = reconciled(before, reading, previous->0, EntityId(alive.len() as usize));
        JointView {
            entities: after,
            alive: reconciled_store(alive, before, reading),
            entity: Some(after[0].id),
        }
    } else {
        JointView { entities: retired(before, 0), alive, entity: None }
    }
}

/// The first `n` joints of the chain that starts at `start`, walked from the
/// entity `root` outwards.
pub open spec fn chain_walk<P>(
    hand: HandView<P>,
    readings: Seq<Option<P>>,
    root: Option<EntityId>,
    start: int,
    n: nat,
) -> ChainView<P>
    decreases n,
{
    if n == 0 {
        ChainView { hand, previous: root }
    } else {
        let inner = chain_walk(hand, readings, root, start, (n - 1) as nat);
        let slot = start + n - 1;
        let step = joint_step(
            inner.hand.joints[slot],
            inner.hand.alive,
            inner.previous,
            reading_at(readings, slot),
        );
        ChainView {
            hand: HandView {
                joints: inner.hand.joints.update(slot, step.entities),
                alive: step.alive,
                ..inner.hand
            },
            previous: step.entity,
        }
    }
}

/// The chains of the first `n` fingers, each walked from `root`.
pub open spec fn fingers_walk<P>(
    hand: HandView<P>,
    readings: Seq<Option<P>>,
    root: Option<EntityId>,
    n: nat,
) -> HandView<P>
    decreases n,
{
    if n == 0 {
        hand
    } else {
        chain_walk(
            fingers_walk(hand, readings, root, (n - 1) as nat),
            readings,
            root,
            chain_start(n - 1),
            chain_len(n - 1) as nat,
        ).hand
    }
}

/// A whole hand: the wrist against the reference space, hanging under the
/// origin, then the five fingers from the wrist.
pub open spec fn hand_synced<P>(
    hand: HandView<P>,
    reading: XrHand<P>,
    origin: EntityId,
) -> HandView<P> {
    let wrist = joint_step(hand.wrist, hand.alive, Some(origin), reading.wrist);
    fingers_walk(
        HandView { wrist: wrist.entities, alive: wrist.alive, ..hand },
        reading.joints@,
        wrist.entity,
        FINGERS as nat,
    )
}

/// A hand that the device does not show: every joint's entities are marked
/// inactive, and none is removed.
pub open spec fn hand_lost<P>(hand: HandView<P>) -> HandView<P> {
    HandView {
        wrist: retired(hand.wrist, 0),
        joints: Seq::new(hand.joints.len(), |slot: int| retired(hand.joints[slot], 0)),
        alive: hand.alive,
    }
}

/// Whether `source` is a hand of the given side whose wrist pose resolved.
pub open spec fn shows_hand<P>(source: XrInputSource<P>, side: XrHandedness) -> bool {
    source.handedness == side && source.hand is Some && source.hand->0.wrist is Some
}

/// The first input source that shows a hand of the given side.
pub open spec fn first_hand<P>(sources: Seq<XrInputSource<P>>, side: XrHandedness) -> Option<int>
    decreases sources.len(),
{
    if sources.len() == 0 {
        None
    } else {
        match first_hand(sources.drop_last(), side) {
            Some(i) => Some(i),
            None => if shows_hand(sources.last(), side) {
                Some(sources.len() - 1)
            } else {
                None
            },
        }
    }
}

/// The reading that drives an update of the hand of the given side: that of
/// the first input source that shows the hand, if there is an origin and a
/// frame with such a source.
pub open spec fn shown_hand<P>(
    xr_frame: Option<&WebXrFrame<P>>,
    origin: Option<EntityId>,
    side: XrHandedness,
) -> Option<XrHand<P>> {
    if origin is Some && xr_frame is Some && first_hand(xr_frame->0.input_sources@, side) is Some {
        xr_frame->0.input_sources@[first_hand(xr_frame->0.input_sources@, side)->0].hand
    } else {
        None
    }
}

/// One update of a hand of the given side: the hand is synchronised from the
/// reading that shows it, and lost where none does.
pub open spec fn hands_updated<P>(
    hand: HandView<P>,
    xr_frame: Option<&WebXrFrame<P>>,
    origin: Option<EntityId>,
    side: XrHandedness,
) -> HandView<P> {
    match shown_hand(xr_frame, origin, side) {
        Some(reading) => hand_synced(hand, reading, origin->0),
        None => hand_lost(hand),
    }
}

/// The reading for the joint at position `q` of the chain that starts at
/// `start`.
pub open spec fn chain_reading<P>(readings: Seq<Option<P>>, start: int, q: int) -> Option<P> {
    reading_at(readings, start + q)
}

/// The entities of the joint at position `q` of the chain that starts at
/// `start`.
pub open spec fn chain_entities<P>(
    joints: Seq<Seq<TrackedObject<P>>>,
    start: int,
    q: int,
) -> Seq<TrackedObject<P>> {
    joints[start + q]
}

/// Whether the joint at `position` of a chain resolves: the chain's root
/// resolved, and so did every joint of the chain up to this one.
pub open spec fn chain_resolved<P>(
    readings: Seq<Option<P>>,
    rooted: bool,
    start: int,
    position: int,
) -> bool {
    rooted && forall|q: int|
        0 <= q <= position ==> (#[trigger] chain_reading(readings, start, q)) is Some
}

/// What an update leaves of one joint. A joint that resolves is carried by
/// one active entity that holds the reading, the one it had first where it
/// had any. A joint that does not resolve keeps its entities, inactive.
pub open spec fn joint_outcome<P>(
    before: Seq<TrackedObject<P>>,
    after: Seq<TrackedObject<P>>,
    resolved: bool,
    reading: Option<P>,
) -> bool {
    if resolved {
        &&& after.len() == 1
        &&& after[0].active
        &&& reading == Some(after[0].data)
        &&& before.len() > 0 ==> after[0].id == before[0].id && after[0].parent == before[0].parent
    } else {
        after == retired(before, 0)
    }
}

/// [`joint_outcome`] for the joint at position `q` of a chain.
pub open spec fn chain_outcome<P>(
    before: Seq<Seq<TrackedObject<P>>>,
    after: Seq<Seq<TrackedObject<P>>>,
    readings: Seq<Option<P>>,
    rooted: bool,
    start: int,
    q: int,
) -> bool {
    joint_outcome(
        before[start + q],
        after[start + q],
        chain_resolved(readings, rooted, start, q),
        reading_at(readings, start + q),
    )
}

/// What an update from a reading leaves of a hand: the wrist and every
/// finger joint are as [`joint_outcome`] says, where the wrist resolves if
/// the device gave its pose, and a finger joint if the wrist and every joint
/// of its chain up to it resolved.
pub open spec fn hand_outcome<P>(
    before: HandView<P>,
    after: HandView<P>,
    reading: XrHand<P>,
) -> bool {
    &&& joint_outcome(before.wrist, after.wrist, reading.wrist is Some, reading.wrist)
    &&& after.joints.len() == before.joints.len()
    &&& forall|f: int, q: int|
        0 <= f < FINGERS && 0 <= q < chain_len(f) ==> #[trigger] chain_outcome(
            before.joints,
            after.joints,
            reading.joints@,
            reading.wrist is Some,
            chain_start(f),
            q,
        )
}

/// Whether every finger joint is carried by one entity at most.
pub open spec fn joints_unique<P>(joints: Seq<Seq<TrackedObject<P>>>) -> bool {
    forall|slot: int| 0 <= slot < joints.len() ==> (#[trigger] joints[slot]).len() <= 1
}

/// One finger joint: see [`joint_step`]. `previous` is the entity of the
/// joint before it in the chain, `None` where that joint did not resolve;
/// `reading` is the joint's pose against that joint. Returns the entity that
/// the next joint hangs under.
pub fn update_xr_finger_joint<P: Copy>(
    joint: &mut Roster<P>,
    previous: Option<EntityId>,
    reading: Option<P>,
    store: &mut EntityStore,
) -> (entity: Option<EntityId>)
    ensures
        (JointView { entities: final(joint).entities@, alive: final(store)@, entity })
            == joint_step(old(joint).entities@, old(store)@, previous, reading),
        joint_outcome(
            old(joint).entities@,
            final(joint).entities@,
            previous is Some && reading is Some,
            reading,
        ),
{
    match previous {
        Some(parent) => {
            if reading.is_some() {
                joint.reconcile(reading, parent, store)
            } else {
                joint.retire_from(0);
                None
            }
        },
        None => {
            joint.retire_from(0);
            None
        },
    }
}

/// Synchronises one hand from the reading of the input source that shows it:
/// see [`hand_synced`].
pub fn sync_hand<P: Copy>(
    skeleton: &mut HandSkeleton<P>,
    hand: &XrHand<P>,
    origin: EntityId,
    store: &mut EntityStore,
)
    requires
        old(skeleton).wf(),
    ensures
        final(skeleton).wf(),
        final(skeleton).view_with(final(store)) == hand_synced(
            old(skeleton).view_with(old(store)),
            *hand,
            origin,
        ),
        hand_outcome(
            old(skeleton).view_with(old(store)),
            final(skeleton).view_with(final(store)),
            *hand,
        ),
{
    proof {
        lemma_hand_outcome(skeleton.view_with(store), *hand, origin);
    }
    let root = update_xr_finger_joint(&mut skeleton.wrist, Some(origin), hand.wrist, store);
    let ghost rooted = skeleton.view_with(store);
    let mut finger: usize = 0;
    while finger < FINGERS
        invariant
            finger <= FINGERS,
            skeleton.wf(),
            skeleton.view_with(store) == fingers_walk(rooted, hand.joints@, root, finger as nat),
        decreases FINGERS - finger,
    {
        let start: usize = if finger == 0 {
            0
        } else {
            5 * finger - 1
        };
        let len: usize = if finger == 0 {
            4
        } else {
            5
        };
        let ghost reached = skeleton.view_with(store);
        let mut previous = root;
        let mut position: usize = 0;
        while position < len
            invariant
                position <= len,
                start + len <= FINGER_JOINTS,
                skeleton.wf(),
                (ChainView { hand: skeleton.view_with(store), previous }) == chain_walk(
                    reached,
                    hand.joints@,
                    root,
                    start as int,
                    position as nat,
                ),
            decreases len - position,
        {
            let slot = start + position;
            let reading = if slot < hand.joints.len() {
                hand.joints[slot]
            } else {
                None
            };
            let ghost view_before = skeleton.joints_view();
            previous = update_xr_finger_joint(&mut skeleton.joints[slot], previous, reading, store);
            assert(skeleton.joints_view() =~= view_before.update(
                slot as int,
                skeleton.joints@[slot as int].entities@,
            ));
            position += 1;
        }
        finger += 1;
    }
}

impl<P: Copy> HandSkeleton<P> {
    /// Marks every entity of the hand inactive: see [`hand_lost`].
    pub fn lose(&mut self)
        requires
            old(self).wf(),
        ensures
            final(self).wf(),
            final(self).wrist.entities@ == retired(old(self).wrist.entities@, 0),
            forall|slot: int|
                0 <= slot < FINGER_JOINTS ==> #[trigger] final(self).joints_view()[slot] == retired(
                    old(self).joints_view()[slot],
                    0,
                ),
    {
        self.wrist.retire_from(0);
        let mut slot: usize = 0;
        while slot < self.joints.len()
            invariant
                slot <= self.joints@.len(),
                self.joints@.len() == old(self).joints@.len(),
                self.wrist.entities@ == retired(old(self).wrist.entities@, 0),
                forall|s: int|
                    0 <= s < self.joints@.len() ==> (#[trigger] self.joints@[s]).entities@ == if s
                        < slot {
                        retired(old(self).joints@[s].entities@, 0)
                    } else {
                        old(self).joints@[s].entities@
                    },
            decreases self.joints.len() - slot,
        {
            self.joints[slot].retire_from(0);
            slot += 1;
        }
    }
}

/// One update of the hand marked by `H`: see [`hands_updated`].
pub fn update_xr_hands<H: WebXrHandedness, P: Copy>(
    xr_frame: Option<&WebXrFrame<P>>,
    origin: Option<EntityId>,
    skeleton: &mut HandSkeleton<P>,
    store: &mut EntityStore,
)
    requires
        old(skeleton).wf(),
    ensures
        final(skeleton).wf(),
        final(skeleton).view_with(final(store)) == hands_updated(
            old(skeleton).view_with(old(store)),
            xr_frame,
            origin,
            H::handedness(),
        ),
        shown_hand(xr_frame, origin, H::handedness()) matches Some(reading) ==> reading.wrist
            is Some && hand_outcome(
            old(skeleton).view_with(old(store)),
            final(skeleton).view_with(final(store)),
            reading,
        ),
{
    let side = H::webxr_handedness();
    proof {
        if shown_hand(xr_frame, origin, side) is Some {
            lemma_first_hand(xr_frame->0.input_sources@, side);
        }
    }
    if let Some(origin_entity) = origin {
        if let Some(frame) = xr_frame {
            let mut i: usize = 0;
            while i < frame.input_sources.len()
                invariant
                    i <= frame.input_sources@.len(),
                    first_hand(frame.input_sources@.take(i as int), side) is None,
                    skeleton.wf(),
                    *skeleton == *old(skeleton),
                    *store == *old(store),
                    side == H::handedness(),
                    origin == Some(origin_entity),
                    xr_frame == Some(frame),
                decreases frame.input_sources.len() - i,
            {
                let source = &frame.input_sources[i];
                if source.handedness == side {
                    if let Some(hand) = &source.hand {
                        if hand.wrist.is_some() {
                            proof {
                                lemma_first_hand_found(frame.input_sources@, side, i as int);
                            }
                            sync_hand(skeleton, hand, origin_entity, store);
                            return ;
                        }
                    }
                }
                assert(frame.input_sources@.take(i + 1).drop_last() =~= frame.input_sources@.take(
                    i as int,
                ));
                i += 1;
            }
            assert(frame.input_sources@.take(i as int) =~= frame.input_sources@);
        }
    }
    skeleton.lose();
    assert(skeleton.joints_view() =~= hand_lost(old(skeleton).view_with(old(store))).joints);
}

/// `first_hand` is what its name says: it shows the hand, and no source
/// before it does.
pub proof fn lemma_first_hand<P>(sources: Seq<XrInputSource<P>>, side: XrHandedness)
    ensures
        first_hand(sources, side) matches Some(i) ==> 0 <= i < sources.len() && shows_hand(
            sources[i],
            side,
        ) && forall|j: int| 0 <= j < i ==> !shows_hand(#[trigger] sources[j], side),
        first_hand(sources, side) is None ==> forall|j: int|
            0 <= j < sources.len() ==> !shows_hand(#[trigger] sources[j], side),
    decreases sources.len(),
{
    if sources.len() > 0 {
        lemma_first_hand(sources.drop_last(), side);
        assert forall|j: int| 0 <= j < sources.len() - 1 implies sources.drop_last()[j]
            == sources[j] by {}
        if first_hand(sources.drop_last(), side) is None {
            assert forall|j: int| 0 <= j < sources.len() - 1 implies !shows_hand(
                #[trigger] sources[j],
                side,
            ) by {
                assert(sources.drop_last()[j] == sources[j]);
            }
        } else {
            let i = first_hand(sources.drop_last(), side)->0;
            assert(sources.drop_last()[i] == sources[i]);
            assert forall|j: int| 0 <= j < i implies !shows_hand(#[trigger] sources[j], side) by {
                assert(sources.drop_last()[j] == sources[j]);
            }
        }
    }
}

proof fn lemma_first_hand_found<P>(sources: Seq<XrInputSource<P>>, side: XrHandedness, i: int)
    requires
        0 <= i < sources.len(),
        shows_hand(sources[i], side),
        first_hand(sources.take(i), side) is None,
    ensures
        first_hand(sources, side) == Some(i),
    decreases sources.len(),
{
    if sources.len() == i + 1 {
        assert(sources.drop_last() =~= sources.take(i));
    } else {
        assert(sources.drop_last().take(i) =~= sources.take(i));
        lemma_first_hand_found(sources.drop_last(), side, i);
    }
}

/// A walk along a chain touches the joints of that chain only, and leaves
/// each of them as [`chain_outcome`] says.
pub proof fn lemma_chain_walk<P>(
    hand: HandView<P>,
    readings: Seq<Option<P>>,
    root: Option<EntityId>,
    start: int,
    n: nat,
)
    requires
        0 <= start,
        start + n <= hand.joints.len(),
    ensures
        ({
            let walk = chain_walk(hand, readings, root, start, n);
            &&& walk.hand.wrist == hand.wrist
            &&& walk.hand.joints.len() == hand.joints.len()
            &&& walk.previous is Some <==> root is Some && forall|q: int|
                0 <= q < n ==> (#[trigger] chain_reading(readings, start, q)) is Some
            &&& forall|s: int|
                0 <= s < hand.joints.len() && !(start <= s < start + n)
                    ==> #[trigger] walk.hand.joints[s] == hand.joints[s]
            &&& forall|q: int|
                0 <= q < n ==> #[trigger] chain_outcome(
                    hand.joints,
                    walk.hand.joints,
                    readings,
                    root is Some,
                    start,
                    q,
                )
            &&& joints_unique(hand.joints) ==> joints_unique(walk.hand.joints) && store_grew(
                hand.alive,
                walk.hand.alive,
            )
        }),
    decreases n,
{
    if n > 0 {
        let m = (n - 1) as nat;
        lemma_chain_walk(hand, readings, root, start, m);
        let inner = chain_walk(hand, readings, root, start, m);
        let walk = chain_walk(hand, readings, root, start, n);
        let joints = hand.joints;
        let slot = start + n - 1;
        let reading = reading_at(readings, slot);
        assert(inner.hand.joints[slot] == joints[slot]);
        assert(chain_reading(readings, start, n - 1) == reading);
        let resolved = chain_resolved(readings, root is Some, start, n - 1);
        if inner.previous is Some && reading is Some {
            assert forall|q: int| 0 <= q <= n - 1 implies (#[trigger] chain_reading(
                readings,
                start,
                q,
            )) is Some by {
                if q < n - 1 {
                } else {
                    assert(q == n - 1);
                }
            }
            assert(resolved);
            assert(walk.previous is Some);
            assert forall|q: int| 0 <= q < n implies (#[trigger] chain_reading(
                readings,
                start,
                q,
            )) is Some by {}
        } else {
            if resolved {
                assert(chain_reading(readings, start, n - 1) is Some);
                assert forall|q: int| 0 <= q < m implies (#[trigger] chain_reading(
                    readings,
                    start,
                    q,
                )) is Some by {}
                assert(false);
            }
            assert(walk.previous is None);
            if root is Some && forall|q: int|
                0 <= q < n ==> (#[trigger] chain_reading(readings, start, q)) is Some {
                assert(chain_reading(readings, start, n - 1) is Some);
                assert forall|q: int| 0 <= q < m implies (#[trigger] chain_reading(
                    readings,
                    start,
                    q,
                )) is Some by {}
                assert(false);
            }
        }
        assert(chain_outcome(joints, walk.hand.joints, readings, root is Some, start, n - 1));
        assert forall|q: int| 0 <= q < n implies #[trigger] chain_outcome(
            joints,
            walk.hand.joints,
            readings,
            root is Some,
            start,
            q,
        ) by {
            if q < n - 1 {
                assert(chain_outcome(joints, inner.hand.joints, readings, root is Some, start, q));
                assert(walk.hand.joints[start + q] == inner.hand.joints[start + q]);
            }
        }
        if joints_unique(joints) {
            lemma_singleton_removes_no_single(inner.hand.alive, inner.hand.joints[slot], reading);
            lemma_store_grew_twice(hand.alive, inner.hand.alive, walk.hand.alive);
            assert forall|s: int| 0 <= s < walk.hand.joints.len() implies (
            #[trigger] walk.hand.joints[s]).len() <= 1 by {
                if s != slot {
                    assert(walk.hand.joints[s] == inner.hand.joints[s]);
                }
            }
        }
    }
}

/// The walks along the first `n` fingers leave the later fingers alone, and
/// leave each joint of the first `n` as [`chain_outcome`] says.
pub proof fn lemma_fingers_walk<P>(
    hand: HandView<P>,
    readings: Seq<Option<P>>,
    root: Option<EntityId>,
    n: nat,
)
    requires
        hand.joints.len() == FINGER_JOINTS,
        n <= FINGERS,
    ensures
        ({
            let walk = fingers_walk(hand, readings, root, n);
            &&& walk.wrist == hand.wrist
            &&& walk.joints.len() == hand.joints.len()
            &&& forall|s: int|
                chain_start(n as int) <= s < FINGER_JOINTS ==> #[trigger] walk.joints[s]
                    == hand.joints[s]
            &&& forall|f: int, q: int|
                0 <= f < n && 0 <= q < chain_len(f) ==> #[trigger] chain_outcome(
                    hand.joints,
                    walk.joints,
                    readings,
                    root is Some,
                    chain_start(f),
                    q,
                )
            &&& joints_unique(hand.joints) ==> joints_unique(walk.joints) && store_grew(
                hand.alive,
                walk.alive,
            )
        }),
    decreases n,
{
    if n > 0 {
        let m = (n - 1) as nat;
        lemma_fingers_walk(hand, readings, root, m);
        let inner = fingers_walk(hand, readings, root, m);
        let start = chain_start(m as int);
        let len = chain_len(m as int) as nat;
        lemma_chain_walk(inner, readings, root, start, len);
        let chain = chain_walk(inner, readings, root, start, len).hand;
        assert forall|f: int, q: int|
            0 <= f < n && 0 <= q < chain_len(f) implies #[trigger] chain_outcome(
            hand.joints,
            chain.joints,
            readings,
            root is Some,
            chain_start(f),
            q,
        ) by {
            if f < m {
                assert(chain_outcome(
                    hand.joints,
                    inner.joints,
                    readings,
                    root is Some,
                    chain_start(f),
                    q,
                ));
                assert(chain.joints[chain_start(f) + q] == inner.joints[chain_start(f) + q]);
            } else {
                assert(chain_outcome(inner.joints, chain.joints, readings, root is Some, start, q));
                assert(inner.joints[start + q] == hand.joints[start + q]);
            }
        }
        if joints_unique(hand.joints) {
            lemma_store_grew_twice(hand.alive, inner.alive, chain.alive);
        }
    }
}

/// An update from a reading leaves the hand as [`hand_outcome`] says.
pub proof fn lemma_hand_outcome<P>(hand: HandView<P>, reading: XrHand<P>, origin: EntityId)
    requires
        hand.joints.len() == FINGER_JOINTS,
    ensures
        hand_outcome(hand, hand_synced(hand, reading, origin), reading),
{
    let wrist = joint_step(hand.wrist, hand.alive, Some(origin), reading.wrist);
    let rooted = HandView { wrist: wrist.entities, alive: wrist.alive, ..hand };
    assert(wrist.entity is Some <==> reading.wrist is Some);
    lemma_fingers_walk(rooted, reading.joints@, wrist.entity, FINGERS as nat);
    let after = hand_synced(hand, reading, origin);
    assert(after == fingers_walk(rooted, reading.joints@, wrist.entity, FINGERS as nat));
    assert(joint_outcome(hand.wrist, after.wrist, reading.wrist is Some, reading.wrist));
}

/// A failure stays in its chain. Where a finger joint's pose does not
/// resolve, that joint and every joint after it in the same finger keep their
/// entities, inactive, whatever the device reports for them; and every joint
/// of every other finger still resolves or not by the wrist and its own
/// chain alone.
pub proof fn lemma_failure_stays_in_chain<P>(
    hand: HandView<P>,
    reading: XrHand<P>,
    origin: EntityId,
    finger: int,
    position: int,
)
    requires
        hand.joints.len() == FINGER_JOINTS,
        0 <= finger < FINGERS,
        0 <= position < chain_len(finger),
        chain_reading(reading.joints@, chain_start(finger), position) is None,
    ensures
        ({
            let after = hand_synced(hand, reading, origin).joints;
            &&& forall|q: int|
                position <= q < chain_len(finger) ==> #[trigger] chain_entities(
                    after,
                    chain_start(finger),
                    q,
                ) == retired(chain_entities(hand.joints, chain_start(finger), q), 0)
            &&& forall|g: int, q: int|
                0 <= g < FINGERS && g != finger && 0 <= q < chain_len(g)
                    ==> #[trigger] chain_outcome(
                    hand.joints,
                    after,
                    reading.joints@,
                    reading.wrist is Some,
                    chain_start(g),
                    q,
                )
        }),
{
    lemma_hand_outcome(hand, reading, origin);
    let after = hand_synced(hand, reading, origin).joints;
    assert forall|q: int| position <= q < chain_len(finger) implies #[trigger] chain_entities(
        after,
        chain_start(finger),
        q,
    ) == retired(chain_entities(hand.joints, chain_start(finger), q), 0) by {
        assert(chain_outcome(
            hand.joints,
            after,
            reading.joints@,
            reading.wrist is Some,
            chain_start(finger),
            q,
        ));
        assert(!chain_resolved(reading.joints@, reading.wrist is Some, chain_start(finger), q));
    }
}

/// An update of a hand whose joints are carried by one entity each at most
/// leaves them so, and removes no entity: a hand loses entities only where a
/// joint had duplicates. A hand that is lost loses none in any case.
pub proof fn lemma_hand_stays_unique<P>(
    hand: HandView<P>,
    xr_frame: Option<&WebXrFrame<P>>,
    origin: Option<EntityId>,
    side: XrHandedness,
)
    requires
        hand.joints.len() == FINGER_JOINTS,
    ensures
        hands_updated(hand, xr_frame, origin, side).joints.len() == FINGER_JOINTS,
        shown_hand(xr_frame, origin, side) is None ==> hands_updated(
            hand,
            xr_frame,
            origin,
            side,
        ).alive == hand.alive,
        hand.wrist.len() <= 1 && joints_unique(hand.joints) ==> ({
            let after = hands_updated(hand, xr_frame, origin, side);
            &&& after.wrist.len() <= 1
            &&& joints_unique(after.joints)
            &&& store_grew(hand.alive, after.alive)
        }),
{
    let after = hands_updated(hand, xr_frame, origin, side);
    match shown_hand(xr_frame, origin, side) {
        Some(reading) => {
            let wrist = joint_step(hand.wrist, hand.alive, Some(origin->0), reading.wrist);
            let rooted = HandView { wrist: wrist.entities, alive: wrist.alive, ..hand };
            lemma_fingers_walk(rooted, reading.joints@, wrist.entity, FINGERS as nat);
            if hand.wrist.len() <= 1 && joints_unique(hand.joints) {
                lemma_singleton_removes_no_single(hand.alive, hand.wrist, reading.wrist);
                lemma_store_grew_twice(hand.alive, wrist.alive, after.alive);
            }
        },
        None => {
            assert forall|slot: int| 0 <= slot < after.joints.len() implies (
            #[trigger] after.joints[slot]).len() <= 1 || !joints_unique(hand.joints) by {
                assert(after.joints[slot] == retired(hand.joints[slot], 0));
            }
        },
    }
}

} // verus!
