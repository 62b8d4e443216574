//! The origin of the XR space: the entity that every camera, controller and
//! wrist hangs under.

use crate::events::WebXrSessionInitialized;
use crate::tracking::entity::{
    refreshed, store_grew, EntityId, EntityStore, Roster, TrackedObject,
};
use vstd::prelude::*;

verus! {

/// Where the origin of the XR space lies.
#[derive(Clone, Copy, Debug, PartialEq, Eq, Hash, Structural)]
pub enum XrOrigin {
    View,
    Seat,
    Room,
    Other,
}

/// The origin entities. Initialisation leaves exactly one.
#[derive(Clone, Debug, PartialEq)]
pub struct XrSpace {
    pub origins: Roster<XrOrigin>,
}

/// What session initialisation reads and writes: the origin entities and the
/// store.
pub struct SpaceView {
    pub origins: Seq<TrackedObject<XrOrigin>>,
    pub alive: Seq<bool>,
}

/// Whether `entities[k]` for some `k < upto` is the entity numbered `i`.
pub open spec fn listed_below<D>(entities: Seq<TrackedObject<D>>, i: int, upto: int) -> bool {
    exists|k: int| 0 <= k < upto && (#[trigger] entities[k]).id.0 == i
}

/// The store flags after every entity of `entities` was removed.
pub open spec fn cleared<D>(alive: Seq<bool>, entities: Seq<TrackedObject<D>>) -> Seq<bool> {
    Seq::new(alive.len(), |i: int| alive[i] && !listed_below(entities, i, entities.len() as int))
}

/// A new active origin. It hangs under nothing.
pub open spec fn new_origin(id: EntityId, origin: XrOrigin) -> TrackedObject<XrOrigin> {
    TrackedObject { id, active: true, parent: None, data: origin }
}

/// One session initialisation. A single origin entity takes the session's
/// origin and is active. Where there is none, one is spawned; where there are
/// several, all are removed and one is spawned.
pub open spec fn space_step(state: SpaceView, origin: XrOrigin) -> SpaceView {
    if state.origins.len() == 1 {
        SpaceView { origins: seq![refreshed(state.origins[0], origin)], alive: state.alive }
    } else {
        SpaceView {
            origins: seq![new_origin(EntityId(state.alive.len() as usize), origin)],
            alive: cleared(state.alive, state.origins).push(true),
        }
    }
}

/// The first `n` session initialisations, in order.
pub open spec fn space_walk(
    state: SpaceView,
    events: Seq<WebXrSessionInitialized>,
    n: nat,
) -> SpaceView
    decreases n,
{
    if n == 0 {
        state
    } else {
        space_step(space_walk(state, events, (n - 1) as nat), events[n - 1].origin)
    }
}

impl XrSpace {
    /// The space and the store as session initialisation sees them.
    pub open spec fn view_with(&self, store: &EntityStore) -> SpaceView {
        SpaceView { origins: self.origins.entities@, alive: store@ }
    }

    /// A space without an origin.
    pub fn new() -> (space: XrSpace)
        ensures
            space.origins.entities@.len() == 0,
    {
        XrSpace { origins: Roster::new() }
    }

    /// The entity that cameras, controllers and wrists hang under: the
    /// origin, the first where there are several, `None` where there is
    /// none.
    pub fn origin(&self) -> (origin: Option<EntityId>)
        ensures
            origin == origin_of(self.origins.entities@),
    {
        if self.origins.entities.len() == 0 {
            None
        } else {
            Some(self.origins.entities[0].id)
        }
    }
}

/// Removes every origin entity from the roster and from the store.
fn clear_origins(space: &mut XrSpace, store: &mut EntityStore)
    ensures
        final(space).origins.entities@.len() == 0,
        final(store)@ == cleared(old(store)@, old(space).origins.entities@),
{
    let mut k: usize = 0;
    while k < space.origins.entities.len()
        invariant
            k <= space.origins.entities@.len(),
            space.origins.entities@ == old(space).origins.entities@,
            store@.len() == old(store)@.len(),
            forall|i: int|
                0 <= i < store@.len() ==> store@[i] == (old(store)@[i] && !listed_below(
                    old(space).origins.entities@,
                    i,
                    k as int,
                )),
        decreases space.origins.entities.len() - k,
    {
        let id = space.origins.entities[k].id;
        store.despawn(id);
        assert forall|i: int| 0 <= i < store@.len() implies store@[i] == (old(store)@[i]
            && !listed_below(old(space).origins.entities@, i, k + 1)) by {
            let entities = old(space).origins.entities@;
            if listed_below(entities, i, k + 1) {
                let w = choose|w: int| 0 <= w < k + 1 && (#[trigger] entities[w]).id.0 == i;
                if w < k {
                    assert(listed_below(entities, i, k as int));
                }
            }
            if listed_below(entities, i, k as int) {
                let w = choose|w: int| 0 <= w < k && (#[trigger] entities[w]).id.0 == i;
                assert(0 <= w < k + 1 && entities[w].id.0 == i);
            }
            if id.0 == i {
                assert(0 <= k < k + 1 && entities[k as int].id.0 == i);
            }
        }
        k += 1;
    }
    assert(store@ =~= cleared(old(store)@, old(space).origins.entities@));
    space.origins.entities.clear();
}

/// Sets the origin of the XR space up for every session that was
/// initialised: see [`space_step`].
pub fn initialize_xr_space(
    events: &Vec<WebXrSessionInitialized>,
    space: &mut XrSpace,
    store: &mut EntityStore,
)
    ensures
        final(space).view_with(final(store)) == space_walk(
            old(space).view_with(old(store)),
            events@,
            events@.len(),
        ),
        events@.len() > 0 ==> final(space).origins.entities@.len() == 1,
{
    let ghost start = space.view_with(store);
    let mut n: usize = 0;
    while n < events.len()
        invariant
            n <= events@.len(),
            space.view_with(store) == space_walk(start, events@, n as nat),
            n > 0 ==> space.origins.entities@.len() == 1,
        decreases events.len() - n,
    {
        let origin = events[n].origin;
        if space.origins.entities.len() == 1 {
            space.origins.entities[0].active = true;
            space.origins.entities[0].data = origin;
            assert(space.origins.entities@ =~= seq![
                refreshed(space_walk(start, events@, n as nat).origins[0], origin),
            ]);
        } else {
            clear_origins(space, store);
            let id = store.spawn();
            space.origins.entities.push(
                TrackedObject { id, active: true, parent: None, data: origin },
            );
            assert(space.origins.entities@ =~= seq![new_origin(id, origin)]);
        }
        n += 1;
    }
}

/// After any session initialisation the space has exactly one origin
/// entity, active, at the origin of the session initialised last; and where
/// the space had exactly one origin entity, it still is that entity, and the
/// store is as it was.
pub proof fn lemma_space_has_one_origin(
    state: SpaceView,
    events: Seq<WebXrSessionInitialized>,
    n: nat,
)
    requires
        0 < n <= events.len(),
    ensures
        ({
            let after = space_walk(state, events, n);
            &&& after.origins.len() == 1
            &&& after.origins[0].active
            &&& after.origins[0].data == events[n - 1].origin
            &&& state.origins.len() == 1 ==> after.origins[0].id == state.origins[0].id
                && after.alive == state.alive
        }),
    decreases n,
{
    let inner = space_walk(state, events, (n - 1) as nat);
    if n > 1 {
        lemma_space_has_one_origin(state, events, (n - 1) as nat);
    } else {
        assert(inner == state);
    }
    assert(space_walk(state, events, n) == space_step(inner, events[n - 1].origin));
}

/// The entity that things hang under, of the origin entities `origins`.
pub open spec fn origin_of(origins: Seq<TrackedObject<XrOrigin>>) -> Option<EntityId> {
    if origins.len() == 0 {
        None
    } else {
        Some(origins[0].id)
    }
}

/// Session initialisations on a space that has one origin entity at most
/// leave it so, and remove no entity: origins are removed only where there
/// were several.
pub proof fn lemma_space_stays_unique(
    state: SpaceView,
    events: Seq<WebXrSessionInitialized>,
    n: nat,
)
    requires
        n <= events.len(),
        state.origins.len() <= 1,
    ensures
        space_walk(state, events, n).origins.len() <= 1,
        store_grew(state.alive, space_walk(state, events, n).alive),
    decreases n,
{
    if n > 0 {
        let m = (n - 1) as nat;
        lemma_space_stays_unique(state, events, m);
        let inner = space_walk(state, events, m);
        let after = space_walk(state, events, n);
        if inner.origins.len() == 0 {
            assert forall|i: int| 0 <= i < inner.alive.len() implies !listed_below(
                inner.origins,
                i,
                0,
            ) by {}
            assert(cleared(inner.alive, inner.origins) =~= inner.alive);
        }
        assert(store_grew(inner.alive, after.alive));
        assert forall|j: int| 0 <= j < state.alive.len() implies #[trigger] after.alive[j]
            == state.alive[j] by {
            assert(inner.alive[j] == state.alive[j]);
        }
    }
}

} // verus!
