//! The controller synchroniser: one entity for the controller of each hand,
//! a pool of entities for the controllers without a hand, and the events that
//! tell of new controllers and of their buttons and axes.

use crate::platform::{XrHandedness, XrInputSource};
use crate::tracking::entity::{
    assigned, assigned_store, lemma_singleton_removes_no_single, lemma_store_grew_twice,
    pool_outcome, reconciled, reconciled_store, retired, same_entity, singleton_outcome,
    store_grew, EntityId, EntityStore, Roster, TrackedObject,
};
use crate::tracking::input::{
    handle_input, input_handled, AnalogInput, AnalogKey, XrController, XrControllerEvent,
    XrControllerSettings,
};
use crate::WebXrFrame;
use vstd::prelude::*;

verus! {

/// What a controller entity carries: its grip pose, and the number of the
/// input source it was last updated from.
#[derive(Clone, Copy, Debug, PartialEq)]
pub struct ControllerData<P> {
    pub pose: P,
    pub source: usize,
}

/// The controller entities: those of the left hand, those of the right hand,
/// and those without a hand in the order in which they were discovered.
#[derive(Clone, Debug, PartialEq)]
pub struct ControllerSet<P> {
    pub left: Roster<ControllerData<P>>,
    pub right: Roster<ControllerData<P>>,
    pub others: Roster<ControllerData<P>>,
}

impl<P: Copy> ControllerSet<P> {
    /// A set without controllers.
    pub fn new() -> (set: ControllerSet<P>)
        ensures
            set.left.entities@.len() == 0,
            set.right.entities@.len() == 0,
            set.others.entities@.len() == 0,
    {
        ControllerSet { left: Roster::new(), right: Roster::new(), others: Roster::new() }
    }
}

/// Everything an update of the controllers reads and writes.
pub struct ControllersView<P> {
    pub left: Seq<TrackedObject<ControllerData<P>>>,
    pub right: Seq<TrackedObject<ControllerData<P>>>,
    pub others: Seq<TrackedObject<ControllerData<P>>>,
    pub alive: Seq<bool>,
    pub analog: Map<AnalogKey, i32>,
    pub events: Seq<XrControllerEvent>,
}

/// Whether an input source can drive a controller: it has a gamepad, and its
/// grip pose resolved.
pub open spec fn usable<P>(source: XrInputSource<P>) -> bool {
    source.gamepad is Some && source.grip is Some
}

/// Number of usable input sources of the given handedness among the first
/// `n`.
pub open spec fn hand_count<P>(
    sources: Seq<XrInputSource<P>>,
    handedness: XrHandedness,
    n: int,
) -> int
    decreases n,
{
    if n <= 0 {
        0
    } else {
        hand_count(sources, handedness, n - 1) + if usable(sources[n - 1]) && sources[n
            - 1].handedness == handedness {
            1int
        } else {
            0int
        }
    }
}

/// What the input source with number `i` writes to its entity.
pub open spec fn source_data<P>(sources: Seq<XrInputSource<P>>, i: int) -> ControllerData<P> {
    ControllerData { pose: sources[i].grip->0, source: i as usize }
}

/// The roster of the controllers of the given handedness. Sources of an
/// unknown handedness have no roster; for them this is the roster of the
/// controllers without a hand.
pub open spec fn roster_of<P>(
    state: ControllersView<P>,
    handedness: XrHandedness,
) -> Seq<TrackedObject<ControllerData<P>>> {
    match handedness {
        XrHandedness::Left => state.left,
        XrHandedness::Right => state.right,
        _ => state.others,
    }
}

/// `state` with another roster for the controllers of the given handedness.
pub open spec fn with_roster<P>(
    state: ControllersView<P>,
    handedness: XrHandedness,
    roster: Seq<TrackedObject<ControllerData<P>>>,
) -> ControllersView<P> {
    match handedness {
        XrHandedness::Left => ControllersView { left: roster, ..state },
        XrHandedness::Right => ControllersView { right: roster, ..state },
        _ => ControllersView { others: roster, ..state },
    }
}

/// The controller of a hand.
pub open spec fn hand_controller(hand: XrHandedness) -> XrController {
    if hand == XrHandedness::Left {
        XrController::Left
    } else {
        XrController::Right
    }
}

/// The controller of a hand, driven by the input source with number `i`: its
/// role is reconciled under the singleton policy, a controller that had no
/// entity is announced, and its gamepad is decoded.
pub open spec fn handed_step<P>(
    state: ControllersView<P>,
    hand: XrHandedness,
    sources: Seq<XrInputSource<P>>,
    origin: EntityId,
    settings: XrControllerSettings,
    i: int,
) -> ControllersView<P> {
    let roster = roster_of(state, hand);
    let controller = hand_controller(hand);
    let data = source_data(sources, i);
    let announced = if roster.len() == 0 {
        state.events.push(XrControllerEvent::Tracking { controller })
    } else {
        state.events
    };
    let handled = input_handled(
        state.analog,
        announced,
        controller,
        sources[i].gamepad->0,
        settings,
    );
    with_roster(
        ControllersView {
            alive: reconciled_store(state.alive, roster, Some(data)),
            analog: handled.analog,
            events: handled.events,
            ..state
        },
        hand,
        reconciled(roster, Some(data), origin, EntityId(state.alive.len() as usize)),
    )
}

/// A controller without a hand, driven by the input source with number `i`:
/// it is the entity whose position in the pool is the source's rank among the
/// usable sources without a hand; a controller that had no entity is
/// announced under its source's number, and its gamepad is decoded.
pub open spec fn handless_step<P>(
    state: ControllersView<P>,
    sources: Seq<XrInputSource<P>>,
    origin: EntityId,
    settings: XrControllerSettings,
    i: int,
) -> ControllersView<P> {
    let k = hand_count(sources, XrHandedness::Neither, i);
    let controller = XrController::Other(i as usize);
    let announced = if k >= state.others.len() {
        state.events.push(XrControllerEvent::Tracking { controller })
    } else {
        state.events
    };
    let handled = input_handled(
        state.analog,
        announced,
        controller,
        sources[i].gamepad->0,
        settings,
    );
    ControllersView {
        others: assigned(
            state.others,
            k,
            source_data(sources, i),
            origin,
            EntityId(state.alive.len() as usize),
        ),
        alive: assigned_store(state.alive, state.others.len() as int, k),
        analog: handled.analog,
        events: handled.events,
        ..state
    }
}

/// The input source with number `i`. A source that is not usable, or whose
/// handedness is unknown, changes nothing.
pub open spec fn source_step<P>(
    state: ControllersView<P>,
    sources: Seq<XrInputSource<P>>,
    origin: EntityId,
    settings: XrControllerSettings,
    i: int,
) -> ControllersView<P> {
    if !usable(sources[i]) {
        state
    } else {
        match sources[i].handedness {
            XrHandedness::Left => handed_step(
                state,
                XrHandedness::Left,
                sources,
                origin,
                settings,
                i,
            ),
            XrHandedness::Right => handed_step(
                state,
                XrHandedness::Right,
                sources,
                origin,
                settings,
                i,
            ),
            XrHandedness::Neither => handless_step(state, sources, origin, settings, i),
            XrHandedness::Unknown => state,
        }
    }
}

/// The first `n` input sources, in the device's order.
pub open spec fn sources_walk<P>(
    state: ControllersView<P>,
    sources: Seq<XrInputSource<P>>,
    origin: EntityId,
    settings: XrControllerSettings,
    n: nat,
) -> ControllersView<P>
    decreases n,
{
    if n == 0 {
        state
    } else {
        source_step(
            sources_walk(state, sources, origin, settings, (n - 1) as nat),
            sources,
            origin,
            settings,
            n - 1,
        )
    }
}

/// The roster of a hand after the walk: as the walk left it if a source
/// drove it, else all inactive.
pub open spec fn closed_roster<P>(
    roster: Seq<TrackedObject<ControllerData<P>>>,
    driven: int,
) -> Seq<TrackedObject<ControllerData<P>>> {
    if driven > 0 {
        roster
    } else {
        retired(roster, 0)
    }
}

/// One update of the controllers. With an origin and a frame, every usable
/// input source drives its controller, and the controllers that no source
/// drove are marked inactive. Otherwise every controller is marked inactive,
/// and nothing else happens.
pub open spec fn controllers_updated<P>(
    state: ControllersView<P>,
    xr_frame: Option<&WebXrFrame<P>>,
    origin: Option<EntityId>,
    settings: XrControllerSettings,
) -> ControllersView<P> {
    if origin is Some && xr_frame is Some {
        let sources = xr_frame->0.input_sources@;
        let n = sources.len() as int;
        let walk = sources_walk(state, sources, origin->0, settings, sources.len());
        ControllersView {
            left: closed_roster(walk.left, hand_count(sources, XrHandedness::Left, n)),
            right: closed_roster(walk.right, hand_count(sources, XrHandedness::Right, n)),
            others: retired(walk.others, hand_count(sources, XrHandedness::Neither, n)),
            ..walk
        }
    } else {
        ControllersView {
            left: retired(state.left, 0),
            right: retired(state.right, 0),
            others: retired(state.others, 0),
            ..state
        }
    }
}

/// Number of usable input sources of the given handedness that an update
/// sees: none without an origin or without a frame.
pub open spec fn sources_driving<P>(
    xr_frame: Option<&WebXrFrame<P>>,
    origin: Option<EntityId>,
    handedness: XrHandedness,
) -> int {
    if origin is Some && xr_frame is Some {
        hand_count(
            xr_frame->0.input_sources@,
            handedness,
            xr_frame->0.input_sources@.len() as int,
        )
    } else {
        0
    }
}

/// Everything an update reads and writes, as it stands.
pub open spec fn controllers_view<P>(
    controllers: ControllerSet<P>,
    store: EntityStore,
    analog: AnalogInput,
    events: Seq<XrControllerEvent>,
) -> ControllersView<P> {
    ControllersView {
        left: controllers.left.entities@,
        right: controllers.right.entities@,
        others: controllers.others.entities@,
        alive: store@,
        analog: analog@,
        events,
    }
}

/// One update of the controllers: see [`controllers_updated`]. Returns the
/// events of the update, in the order in which they arose.
pub fn update_xr_controllers<P: Copy>(
    xr_frame: Option<&WebXrFrame<P>>,
    origin: Option<EntityId>,
    controllers: &mut ControllerSet<P>,
    analog: &mut AnalogInput,
    settings: &XrControllerSettings,
    store: &mut EntityStore,
) -> (events: Vec<XrControllerEvent>)
    ensures
        controllers_view(*final(controllers), *final(store), *final(analog), events@)
            == controllers_updated(
            controllers_view(*old(controllers), *old(store), *old(analog), Seq::empty()),
            xr_frame,
            origin,
            *settings,
        ),
        singleton_outcome(
            old(controllers).left.entities@,
            final(controllers).left.entities@,
            sources_driving(xr_frame, origin, XrHandedness::Left) > 0,
        ),
        singleton_outcome(
            old(controllers).right.entities@,
            final(controllers).right.entities@,
            sources_driving(xr_frame, origin, XrHandedness::Right) > 0,
        ),
        pool_outcome(
            old(controllers).others.entities@,
            final(controllers).others.entities@,
            sources_driving(xr_frame, origin, XrHandedness::Neither),
        ),
{
    let mut events: Vec<XrControllerEvent> = Vec::new();
    let ghost start = controllers_view(*controllers, *store, *analog, Seq::empty());
    proof {
        lemma_controller_of_hand(start, xr_frame, origin, *settings, XrHandedness::Left);
        lemma_controller_of_hand(start, xr_frame, origin, *settings, XrHandedness::Right);
        lemma_controllers_without_hand(start, xr_frame, origin, *settings);
    }
    if let Some(origin_entity) = origin {
        if let Some(frame) = xr_frame {
            let sources = &frame.input_sources;
            let mut driven_left: usize = 0;
            let mut driven_right: usize = 0;
            let mut driven_others: usize = 0;
            let mut i: usize = 0;
            while i < sources.len()
                invariant
                    i <= sources@.len(),
                    driven_left == hand_count(sources@, XrHandedness::Left, i as int),
                    driven_right == hand_count(sources@, XrHandedness::Right, i as int),
                    driven_others == hand_count(sources@, XrHandedness::Neither, i as int),
                    driven_left <= i,
                    driven_right <= i,
                    driven_others <= i,
                    controllers_view(*controllers, *store, *analog, events@) == sources_walk(
                        start,
                        sources@,
                        origin_entity,
                        *settings,
                        i as nat,
                    ),
                decreases sources.len() - i,
            {
                let source = &sources[i];
                if let Some(gamepad) = &source.gamepad {
                    if let Some(pose) = source.grip {
                        let data = ControllerData { pose, source: i };
                        match source.handedness {
                            XrHandedness::Left => {
                                if controllers.left.len() == 0 {
                                    events.push(
                                        XrControllerEvent::Tracking {
                                            controller: XrController::Left,
                                        },
                                    );
                                }
                                controllers.left.reconcile(Some(data), origin_entity, store);
                                handle_input(
                                    XrController::Left,
                                    gamepad,
                                    &mut events,
                                    analog,
                                    settings,
                                );
                                driven_left += 1;
                            },
                            XrHandedness::Right => {
                                if controllers.right.len() == 0 {
                                    events.push(
                                        XrControllerEvent::Tracking {
                                            controller: XrController::Right,
                                        },
                                    );
                                }
                                controllers.right.reconcile(Some(data), origin_entity, store);
                                handle_input(
                                    XrController::Right,
                                    gamepad,
                                    &mut events,
                                    analog,
                                    settings,
                                );
                                driven_right += 1;
                            },
                            XrHandedness::Neither => {
                                if driven_others >= controllers.others.len() {
                                    events.push(
                                        XrControllerEvent::Tracking {
                                            controller: XrController::Other(i),
                                        },
                                    );
                                }
                                controllers.others.assign(
                                    driven_others,
                                    data,
                                    origin_entity,
                                    store,
                                );
                                handle_input(
                                    XrController::Other(i),
                                    gamepad,
                                    &mut events,
                                    analog,
                                    settings,
                                );
                                driven_others += 1;
                            },
                            XrHandedness::Unknown => {},
                        }
                    }
                }
                i += 1;
            }
            if driven_left == 0 {
                controllers.left.retire_from(0);
            }
            if driven_right == 0 {
                controllers.right.retire_from(0);
            }
            controllers.others.retire_from(driven_others);
            return events;
        }
    }
    controllers.left.retire_from(0);
    controllers.right.retire_from(0);
    controllers.others.retire_from(0);
    events
}

proof fn lemma_hand_count_grows<P>(
    sources: Seq<XrInputSource<P>>,
    handedness: XrHandedness,
    i: int,
    m: int,
)
    requires
        0 <= i <= m,
    ensures
        0 <= hand_count(sources, handedness, i) <= hand_count(sources, handedness, m),
        hand_count(sources, handedness, m) <= m,
    decreases m,
{
    if m > 0 {
        if i < m {
            lemma_hand_count_grows(sources, handedness, i, m - 1);
        } else {
            lemma_hand_count_grows(sources, handedness, i - 1, m - 1);
        }
    }
}

proof fn lemma_sources_walk<P>(
    state: ControllersView<P>,
    sources: Seq<XrInputSource<P>>,
    origin: EntityId,
    settings: XrControllerSettings,
    n: nat,
    hand: XrHandedness,
)
    requires
        n <= sources.len(),
        hand == XrHandedness::Left || hand == XrHandedness::Right,
    ensures
        ({
            let walk = sources_walk(state, sources, origin, settings, n);
            let before = roster_of(state, hand);
            let after = roster_of(walk, hand);
            let c = hand_count(sources, hand, n as int);
            let pool = hand_count(sources, XrHandedness::Neither, n as int);
            &&& 0 <= c <= n
            &&& 0 <= pool <= n
            &&& c == 0 ==> after == before
            &&& c > 0 ==> singleton_outcome(before, after, true)
            &&& walk.others.len() == if state.others.len() >= pool {
                state.others.len() as int
            } else {
                pool
            }
            &&& forall|k: int|
                0 <= k < state.others.len() ==> #[trigger] same_entity(state.others, walk.others, k)
            &&& forall|k: int|
                pool <= k < state.others.len() ==> #[trigger] walk.others[k] == state.others[k]
            &&& forall|k: int| 0 <= k < pool ==> (#[trigger] walk.others[k]).active
        }),
    decreases n,
{
    if n > 0 {
        let m = (n - 1) as nat;
        lemma_sources_walk(state, sources, origin, settings, m, hand);
        lemma_hand_count_grows(sources, hand, m as int, n as int);
        lemma_hand_count_grows(sources, XrHandedness::Neither, m as int, n as int);
        let inner = sources_walk(state, sources, origin, settings, m);
        let walk = sources_walk(state, sources, origin, settings, n);
        let pool = hand_count(sources, XrHandedness::Neither, m as int);
        assert(walk == source_step(inner, sources, origin, settings, m as int));
        if usable(sources[m as int]) && sources[m as int].handedness == XrHandedness::Neither {
            assert(walk.others == assigned(
                inner.others,
                pool,
                source_data(sources, m as int),
                origin,
                EntityId(inner.alive.len() as usize),
            ));
            assert forall|k: int| 0 <= k < state.others.len() implies #[trigger] same_entity(
                state.others,
                walk.others,
                k,
            ) by {
                assert(same_entity(state.others, inner.others, k));
            }
            assert forall|k: int| 0 <= k < pool + 1 implies (#[trigger] walk.others[k]).active by {
                if k < pool {
                    assert(inner.others[k].active);
                    assert(walk.others[k] == inner.others[k]);
                }
            }
        } else {
            assert(walk.others == inner.others);
            assert forall|k: int| 0 <= k < state.others.len() implies #[trigger] same_entity(
                state.others,
                walk.others,
                k,
            ) by {
                assert(same_entity(state.others, inner.others, k));
            }
        }
    }
}

/// What an update leaves of the controller of a hand. Where a usable input
/// source of that hand was there to drive it, one active entity carries the
/// role, the one that carried it first where any did. Else the role keeps its
/// entities, inactive. So a role that one entity carried at most is carried
/// by one at most afterwards.
pub proof fn lemma_controller_of_hand<P>(
    state: ControllersView<P>,
    xr_frame: Option<&WebXrFrame<P>>,
    origin: Option<EntityId>,
    settings: XrControllerSettings,
    hand: XrHandedness,
)
    requires
        hand == XrHandedness::Left || hand == XrHandedness::Right,
    ensures
        ({
            let before = roster_of(state, hand);
            let after = roster_of(controllers_updated(state, xr_frame, origin, settings), hand);
            let driven = origin is Some && xr_frame is Some && hand_count(
                xr_frame->0.input_sources@,
                hand,
                xr_frame->0.input_sources@.len() as int,
            ) > 0;
            &&& singleton_outcome(before, after, driven)
            &&& before.len() <= 1 ==> after.len() <= 1
        }),
{
    if origin is Some && xr_frame is Some {
        let sources = xr_frame->0.input_sources@;
        lemma_sources_walk(state, sources, origin->0, settings, sources.len(), hand);
    }
}

/// What an update leaves of the controllers without a hand: the pool is as
/// [`pool_outcome`] says, for as many readings as there were usable input
/// sources without a hand.
pub proof fn lemma_controllers_without_hand<P>(
    state: ControllersView<P>,
    xr_frame: Option<&WebXrFrame<P>>,
    origin: Option<EntityId>,
    settings: XrControllerSettings,
)
    ensures
        ({
            let after = controllers_updated(state, xr_frame, origin, settings).others;
            let driven = if origin is Some && xr_frame is Some {
                hand_count(
                    xr_frame->0.input_sources@,
                    XrHandedness::Neither,
                    xr_frame->0.input_sources@.len() as int,
                )
            } else {
                0
            };
            pool_outcome(state.others, after, driven)
        }),
{
    let after = controllers_updated(state, xr_frame, origin, settings).others;
    if origin is Some && xr_frame is Some {
        let sources = xr_frame->0.input_sources@;
        let walk = sources_walk(state, sources, origin->0, settings, sources.len());
        let c = hand_count(sources, XrHandedness::Neither, sources.len() as int);
        lemma_sources_walk(state, sources, origin->0, settings, sources.len(), XrHandedness::Left);
        assert(after == retired(walk.others, c));
        assert forall|k: int| 0 <= k < state.others.len() implies #[trigger] same_entity(
            state.others,
            after,
            k,
        ) by {
            assert(same_entity(state.others, walk.others, k));
        }
        assert forall|k: int| 0 <= k < after.len() implies (#[trigger] after[k]).active == (k
            < c) by {
            if k < c {
                assert(walk.others[k].active);
            }
        }
    } else {
        assert forall|k: int| 0 <= k < state.others.len() implies #[trigger] same_entity(
            state.others,
            after,
            k,
        ) by {}
    }
}

proof fn lemma_idle_walk<P>(
    state: ControllersView<P>,
    sources: Seq<XrInputSource<P>>,
    origin: EntityId,
    settings: XrControllerSettings,
    n: nat,
)
    requires
        n <= sources.len(),
        forall|i: int| 0 <= i < n ==> !usable(#[trigger] sources[i]),
    ensures
        sources_walk(state, sources, origin, settings, n) == state,
        hand_count(sources, XrHandedness::Left, n as int) == 0,
        hand_count(sources, XrHandedness::Right, n as int) == 0,
        hand_count(sources, XrHandedness::Neither, n as int) == 0,
    decreases n,
{
    if n > 0 {
        lemma_idle_walk(state, sources, origin, settings, (n - 1) as nat);
        assert(!usable(sources[n - 1]));
    }
}

/// An update without an origin, without a frame or without a usable input
/// source marks every controller inactive and does nothing else: no entity
/// is spawned or removed, no event arises, and the values last reported
/// stay.
pub proof fn lemma_controllers_lost<P>(
    state: ControllersView<P>,
    xr_frame: Option<&WebXrFrame<P>>,
    origin: Option<EntityId>,
    settings: XrControllerSettings,
)
    requires
        origin is None || xr_frame is None || forall|i: int|
            0 <= i < xr_frame->0.input_sources@.len() ==> !usable(
                #[trigger] xr_frame->0.input_sources@[i],
            ),
    ensures
        controllers_updated(state, xr_frame, origin, settings) == (ControllersView {
            left: retired(state.left, 0),
            right: retired(state.right, 0),
            others: retired(state.others, 0),
            ..state
        }),
{
    if origin is Some && xr_frame is Some {
        let sources = xr_frame->0.input_sources@;
        lemma_idle_walk(state, sources, origin->0, settings, sources.len());
    }
}

proof fn lemma_sources_store<P>(
    state: ControllersView<P>,
    sources: Seq<XrInputSource<P>>,
    origin: EntityId,
    settings: XrControllerSettings,
    n: nat,
)
    requires
        n <= sources.len(),
        state.left.len() <= 1,
        state.right.len() <= 1,
    ensures
        sources_walk(state, sources, origin, settings, n).left.len() <= 1,
        sources_walk(state, sources, origin, settings, n).right.len() <= 1,
        store_grew(state.alive, sources_walk(state, sources, origin, settings, n).alive),
    decreases n,
{
    if n > 0 {
        let m = (n - 1) as nat;
        lemma_sources_store(state, sources, origin, settings, m);
        let inner = sources_walk(state, sources, origin, settings, m);
        let walk = sources_walk(state, sources, origin, settings, n);
        let data = source_data(sources, m as int);
        assert(walk == source_step(inner, sources, origin, settings, m as int));
        lemma_singleton_removes_no_single(inner.alive, inner.left, Some(data));
        lemma_singleton_removes_no_single(inner.alive, inner.right, Some(data));
        assert(store_grew(inner.alive, walk.alive));
        lemma_store_grew_twice(state.alive, inner.alive, walk.alive);
    }
}

/// An update of controllers of which each hand has one at most leaves them
/// so, and removes no entity: controllers are removed only where a hand had
/// duplicates.
pub proof fn lemma_controllers_stay_unique<P>(
    state: ControllersView<P>,
    xr_frame: Option<&WebXrFrame<P>>,
    origin: Option<EntityId>,
    settings: XrControllerSettings,
)
    requires
        state.left.len() <= 1,
        state.right.len() <= 1,
    ensures
        controllers_updated(state, xr_frame, origin, settings).left.len() <= 1,
        controllers_updated(state, xr_frame, origin, settings).right.len() <= 1,
        store_grew(state.alive, controllers_updated(state, xr_frame, origin, settings).alive),
{
    if origin is Some && xr_frame is Some {
        let sources = xr_frame->0.input_sources@;
        lemma_sources_store(state, sources, origin->0, settings, sources.len());
    }
}

} // verus!
