//! Entity identities, the store that issues them, and the two reconciliation
//! policies shared by every synchroniser: the singleton policy (one entity per
//! role, duplicates collapsed) and the pool policy (entities matched to
//! readings by discovery order).

use vstd::prelude::*;

verus! {

/// Identity of one engine entity. Identities are issued by an [`EntityStore`]
/// in increasing order and are never reused.
#[derive(Clone, Copy, Debug, PartialEq, Eq, Hash, Structural)]
pub struct EntityId(pub usize);

/// The set of entities that were ever spawned, with a flag per entity telling
/// whether it is still present.
#[derive(Clone, Debug)]
pub struct EntityStore {
    pub alive: Vec<bool>,
}

impl View for EntityStore {
    type V = Seq<bool>;

    open spec fn view(&self) -> Seq<bool> {
        self.alive@
    }
}

/// Whether `id` names an entity that is present in a store with flags `alive`.
pub open spec fn present(alive: Seq<bool>, id: EntityId) -> bool {
    id.0 < alive.len() && alive[id.0 as int]
}

/// The flags after the entity `id` has been removed.
pub open spec fn without(alive: Seq<bool>, id: EntityId) -> Seq<bool> {
    if id.0 < alive.len() {
        alive.update(id.0 as int, false)
    } else {
        alive
    }
}

impl EntityStore {
    /// The identity that the next spawn will issue.
    pub open spec fn next_id(&self) -> EntityId {
        EntityId(self@.len() as usize)
    }

    pub fn new() -> (store: EntityStore)
        ensures
            store@ == Seq::<bool>::empty(),
    {
        EntityStore { alive: Vec::new() }
    }

    /// Number of entities spawned so far, removed ones included.
    pub fn len(&self) -> (n: usize)
        ensures
            n == self@.len(),
    {
        self.alive.len()
    }

    pub fn is_alive(&self, id: EntityId) -> (r: bool)
        ensures
            r == present(self@, id),
    {
        id.0 < self.alive.len() && self.alive[id.0]
    }

    /// Issues a fresh identity and records the entity as present.
    pub fn spawn(&mut self) -> (id: EntityId)
        ensures
            id == old(self).next_id(),
            final(self)@ == old(self)@.push(true),
    {
        let id = EntityId(self.alive.len());
        self.alive.push(true);
        id
    }

    /// Removes an entity. Removing an unknown or already removed entity
    /// changes nothing.
    pub fn despawn(&mut self, id: EntityId)
        ensures
            final(self)@ == without(old(self)@, id),
    {
        if id.0 < self.alive.len() {
            self.alive[id.0] = false;
        }
    }
}

/// One engine entity that follows a device pose: its identity, whether the
/// pose resolved on the last update, the entity it hangs under, and the data
/// last written to it.
#[derive(Clone, Copy, Debug, PartialEq)]
pub struct TrackedObject<D> {
    pub id: EntityId,
    pub active: bool,
    pub parent: Option<EntityId>,
    pub data: D,
}

/// `e`, marked inactive. Identity, parent and data stay.
pub open spec fn deactivated<D>(e: TrackedObject<D>) -> TrackedObject<D> {
    TrackedObject { active: false, ..e }
}

/// `e`, marked active and carrying `data`. Identity and parent stay.
pub open spec fn refreshed<D>(e: TrackedObject<D>, data: D) -> TrackedObject<D> {
    TrackedObject { active: true, data, ..e }
}

/// A new active entity under `parent`.
pub open spec fn spawned<D>(id: EntityId, parent: EntityId, data: D) -> TrackedObject<D> {
    TrackedObject { id, active: true, parent: Some(parent), data }
}

/// The entities of `before`, those at position `from` and later marked
/// inactive.
pub open spec fn retired<D>(before: Seq<TrackedObject<D>>, from: int) -> Seq<TrackedObject<D>> {
    Seq::new(
        before.len(),
        |k: int|
            if k >= from {
                deactivated(before[k])
            } else {
                before[k]
            },
    )
}

/// Singleton policy, entities. With a reading: the first entity survives and
/// takes the reading, or one is spawned where there was none. Without a
/// reading: every entity is kept and marked inactive.
pub open spec fn reconciled<D>(
    before: Seq<TrackedObject<D>>,
    reading: Option<D>,
    parent: EntityId,
    fresh: EntityId,
) -> Seq<TrackedObject<D>> {
    match reading {
        Some(data) => if before.len() == 0 {
            seq![spawned(fresh, parent, data)]
        } else {
            seq![refreshed(before[0], data)]
        },
        None => retired(before, 0),
    }
}

/// Whether `before[k]` for some `1 <= k < upto` is the entity numbered `i`.
pub open spec fn duplicate_below<D>(before: Seq<TrackedObject<D>>, i: int, upto: int) -> bool {
    exists|k: int| 1 <= k < upto && (#[trigger] before[k]).id.0 == i
}

/// The store flags after every entity of `before` but the first was removed.
pub open spec fn collapsed<D>(alive: Seq<bool>, before: Seq<TrackedObject<D>>) -> Seq<bool> {
    Seq::new(alive.len(), |i: int| alive[i] && !duplicate_below(before, i, before.len() as int))
}

/// Singleton policy, store. A reading spawns one entity where there was none
/// and removes the duplicates where there were several. Without a reading the
/// store is untouched.
pub open spec fn reconciled_store<D>(
    alive: Seq<bool>,
    before: Seq<TrackedObject<D>>,
    reading: Option<D>,
) -> Seq<bool> {
    if reading is None {
        alive
    } else if before.len() == 0 {
        alive.push(true)
    } else {
        collapsed(alive, before)
    }
}

/// Pool policy, entities. The reading with rank `k` goes to the entity at
/// position `k`; where the pool is shorter, a new entity joins at its end.
pub open spec fn assigned<D>(
    before: Seq<TrackedObject<D>>,
    k: int,
    data: D,
    parent: EntityId,
    fresh: EntityId,
) -> Seq<TrackedObject<D>> {
    if 0 <= k < before.len() {
        before.update(k, refreshed(before[k], data))
    } else {
        before.push(spawned(fresh, parent, data))
    }
}

/// Pool policy, store: a new entity only where the pool was too short.
pub open spec fn assigned_store(alive: Seq<bool>, pool_len: int, k: int) -> Seq<bool> {
    if 0 <= k < pool_len {
        alive
    } else {
        alive.push(true)
    }
}

/// The entities that carry one role, in discovery order.
#[derive(Clone, Debug, PartialEq)]
pub struct Roster<D> {
    pub entities: Vec<TrackedObject<D>>,
}

impl<D: Copy> Roster<D> {
    pub fn new() -> (roster: Roster<D>)
        ensures
            roster.entities@ == Seq::<TrackedObject<D>>::empty(),
    {
        Roster { entities: Vec::new() }
    }

    pub fn len(&self) -> (n: usize)
        ensures
            n == self.entities@.len(),
    {
        self.entities.len()
    }

    /// Takes over an entity that already exists in the engine under this
    /// role. Nothing here keeps a role to one entity: that is what
    /// [`Roster::reconcile`] restores.
    pub fn adopt(&mut self, entity: TrackedObject<D>)
        ensures
            final(self).entities@ == old(self).entities@.push(entity),
    {
        self.entities.push(entity);
    }

    /// Marks the entities at position `from` and later inactive. None is
    /// removed.
    pub fn retire_from(&mut self, from: usize)
        ensures
            final(self).entities@ == retired(old(self).entities@, from as int),
            final(self).entities@.len() == old(self).entities@.len(),
    {
        let mut k: usize = from;
        while k < self.entities.len()
            invariant
                from <= k,
                self.entities@.len() == old(self).entities@.len(),
                forall|j: int|
                    0 <= j < self.entities@.len() ==> self.entities@[j] == if from <= j < k {
                        deactivated(old(self).entities@[j])
                    } else {
                        old(self).entities@[j]
                    },
            decreases self.entities.len() - k,
        {
            self.entities[k].active = false;
            k += 1;
        }
        assert(self.entities@ =~= retired(old(self).entities@, from as int));
    }

    /// Singleton policy: see [`reconciled`] and [`reconciled_store`]. Returns
    /// the entity that now carries the role, if the pose resolved.
    pub fn reconcile(
        &mut self,
        reading: Option<D>,
        parent: EntityId,
        store: &mut EntityStore,
    ) -> (survivor: Option<EntityId>)
        ensures
            final(self).entities@ == reconciled(
                old(self).entities@,
                reading,
                parent,
                old(store).next_id(),
            ),
            final(store)@ == reconciled_store(old(store)@, old(self).entities@, reading),
            survivor == match reading {
                Some(_) => Some(final(self).entities@[0].id),
                None => None,
            },
            singleton_outcome(old(self).entities@, final(self).entities@, reading is Some),
            old(self).entities@.len() <= 1 ==> final(self).entities@.len() <= 1 && store_grew(
                old(store)@,
                final(store)@,
            ),
            reading is None ==> final(store)@ == old(store)@,
    {
        proof {
            if old(self).entities@.len() <= 1 {
                lemma_singleton_removes_no_single(old(store)@, old(self).entities@, reading);
            }
        }
        match reading {
            Some(data) => {
                if self.entities.len() == 0 {
                    let id = store.spawn();
                    self.entities.push(
                        TrackedObject { id, active: true, parent: Some(parent), data },
                    );
                    assert(self.entities@ =~= seq![spawned(id, parent, data)]);
                    Some(id)
                } else {
                    let mut k: usize = 1;
                    while k < self.entities.len()
                        invariant
                            1 <= k <= self.entities@.len(),
                            self.entities@ == old(self).entities@,
                            store@.len() == old(store)@.len(),
                            forall|i: int|
                                0 <= i < store@.len() ==> store@[i] == (old(store)@[i]
                                    && !duplicate_below(old(self).entities@, i, k as int)),
                        decreases self.entities.len() - k,
                    {
                        let ghost prev = store@;
                        let id = self.entities[k].id;
                        store.despawn(id);
                        assert forall|i: int| 0 <= i < store@.len() implies store@[i] == (old(
                            store,
                        )@[i] && !duplicate_below(old(self).entities@, i, k + 1)) by {
                            let before = old(self).entities@;
                            if duplicate_below(before, i, k + 1) {
                                let w = choose|w: int|
                                    1 <= w < k + 1 && (#[trigger] before[w]).id.0 == i;
                                if w < k {
                                    assert(duplicate_below(before, i, k as int));
                                }
                            }
                            if duplicate_below(before, i, k as int) {
                                let w = choose|w: int|
                                    1 <= w < k && (#[trigger] before[w]).id.0 == i;
                                assert(1 <= w < k + 1 && before[w].id.0 == i);
                            }
                            if id.0 == i {
                                assert(1 <= k < k + 1 && before[k as int].id.0 == i);
                            }
                        }
                        k += 1;
                    }
                    assert(store@ =~= collapsed(old(store)@, old(self).entities@));
                    self.entities.truncate(1);
                    self.entities[0].active = true;
                    self.entities[0].data = data;
                    assert(self.entities@ =~= seq![refreshed(old(self).entities@[0], data)]);
                    Some(self.entities[0].id)
                }
            },
            None => {
                self.retire_from(0);
                None
            },
        }
    }

    /// Pool policy: see [`assigned`] and [`assigned_store`]. Returns the
    /// entity that took the reading.
    pub fn assign(&mut self, k: usize, data: D, parent: EntityId, store: &mut EntityStore) -> (id:
        EntityId)
        ensures
            final(self).entities@ == assigned(
                old(self).entities@,
                k as int,
                data,
                parent,
                old(store).next_id(),
            ),
            final(store)@ == assigned_store(
                old(store)@,
                old(self).entities@.len() as int,
                k as int,
            ),
            id == if k < old(self).entities@.len() {
                old(self).entities@[k as int].id
            } else {
                old(store).next_id()
            },
    {
        if k < self.entities.len() {
            self.entities[k].active = true;
            self.entities[k].data = data;
            assert(self.entities@ =~= old(self).entities@.update(
                k as int,
                refreshed(old(self).entities@[k as int], data),
            ));
            self.entities[k].id
        } else {
            let id = store.spawn();
            self.entities.push(TrackedObject { id, active: true, parent: Some(parent), data });
            id
        }
    }
}

/// Duplicate collapse: once a role's pose has resolved, exactly one entity
/// carries the role; and whatever the reading, a role carried by at most one
/// entity is carried by at most one afterwards.
pub proof fn lemma_reconciled_is_singleton<D>(
    before: Seq<TrackedObject<D>>,
    reading: Option<D>,
    parent: EntityId,
    fresh: EntityId,
)
    ensures
        reading is Some ==> reconciled(before, reading, parent, fresh).len() == 1,
        before.len() <= 1 ==> reconciled(before, reading, parent, fresh).len() <= 1,
        reconciled(before, reading, parent, fresh).len() <= before.len() || before.len() == 0,
{
}

/// A pose that fails to resolve removes no entity: the store is untouched and
/// every entity of the role is kept under its identity, marked inactive.
pub proof fn lemma_loss_removes_nothing<D>(
    alive: Seq<bool>,
    before: Seq<TrackedObject<D>>,
    parent: EntityId,
    fresh: EntityId,
)
    ensures
        reconciled_store(alive, before, None::<D>) == alive,
        reconciled(before, None, parent, fresh).len() == before.len(),
        forall|k: int|
            0 <= k < before.len() ==> #[trigger] reconciled(before, None, parent, fresh)[k]
                == deactivated(before[k]),
{
}

/// Re-activation keeps identity: the entity that carried a role before its
/// pose was lost is the one that carries it, active again, once the pose
/// resolves; nothing is spawned, and a role that was not duplicated loses
/// nothing either.
pub proof fn lemma_reactivation_keeps_identity<D>(
    alive: Seq<bool>,
    before: Seq<TrackedObject<D>>,
    data: D,
    parent: EntityId,
    fresh: EntityId,
)
    requires
        before.len() >= 1,
    ensures
        ({
            let lost = reconciled(before, None, parent, fresh);
            let back = reconciled(lost, Some(data), parent, fresh);
            &&& back == seq![refreshed(before[0], data)]
            &&& back[0].id == before[0].id
            &&& back[0].active
            &&& reconciled_store(alive, lost, Some(data)).len() == alive.len()
            &&& before.len() == 1 ==> reconciled_store(alive, lost, Some(data)) == alive
        }),
{
    let lost = reconciled(before, None, parent, fresh);
    assert(reconciled(lost, Some(data), parent, fresh) =~= seq![refreshed(before[0], data)]);
    if before.len() == 1 {
        assert forall|i: int| 0 <= i < alive.len() implies !duplicate_below(lost, i, 1) by {}
        assert(reconciled_store(alive, lost, Some(data)) =~= alive);
    }
}

/// Reconciling twice with the same reading is the same as reconciling once.
pub proof fn lemma_reconcile_is_idempotent<D>(
    alive: Seq<bool>,
    before: Seq<TrackedObject<D>>,
    data: D,
    parent: EntityId,
    fresh: EntityId,
    later: EntityId,
)
    ensures
        ({
            let once = reconciled(before, Some(data), parent, fresh);
            let once_alive = reconciled_store(alive, before, Some(data));
            &&& reconciled(once, Some(data), parent, later) == once
            &&& reconciled_store(once_alive, once, Some(data)) == once_alive
        }),
{
    let once = reconciled(before, Some(data), parent, fresh);
    let once_alive = reconciled_store(alive, before, Some(data));
    assert(reconciled(once, Some(data), parent, later) =~= once);
    assert forall|i: int| 0 <= i < once_alive.len() implies !duplicate_below(once, i, 1) by {}
    assert(reconciled_store(once_alive, once, Some(data)) =~= once_alive);
}

/// The pool policy never removes or renames an entity: every entity of the
/// pool keeps its position, identity and parent through an assignment and
/// through a retirement.
pub proof fn lemma_pool_keeps_entities<D>(
    before: Seq<TrackedObject<D>>,
    k: int,
    from: int,
    data: D,
    parent: EntityId,
    fresh: EntityId,
)
    ensures
        assigned(before, k, data, parent, fresh).len() >= before.len(),
        retired(before, from).len() == before.len(),
        forall|j: int|
            0 <= j < before.len() ==> (#[trigger] assigned(before, k, data, parent, fresh)[j]).id
                == before[j].id && assigned(before, k, data, parent, fresh)[j].parent
                == before[j].parent,
        forall|j: int|
            0 <= j < before.len() ==> (#[trigger] retired(before, from)[j]).id == before[j].id
                && retired(before, from)[j].parent == before[j].parent,
{
}

/// The entity at position `k` is the entity it was: same identity, same
/// parent.
pub open spec fn same_entity<D>(
    before: Seq<TrackedObject<D>>,
    after: Seq<TrackedObject<D>>,
    k: int,
) -> bool {
    after[k].id == before[k].id && after[k].parent == before[k].parent
}

/// What an update leaves of a role under the singleton policy. A role that
/// was driven is carried by one active entity, the one it had first where it
/// had any. A role that was not driven keeps its entities, inactive.
pub open spec fn singleton_outcome<D>(
    before: Seq<TrackedObject<D>>,
    after: Seq<TrackedObject<D>>,
    driven: bool,
) -> bool {
    if driven {
        &&& after.len() == 1
        &&& after[0].active
        &&& before.len() > 0 ==> same_entity(before, after, 0)
    } else {
        after == retired(before, 0)
    }
}

/// What an update leaves of a pool that `c` readings went to: the pool is as
/// long as it was or as long as `c`, whichever is more; the entities it had
/// are the entities they were; the first `c` entities are active and the
/// others are not.
pub open spec fn pool_outcome<D>(
    before: Seq<TrackedObject<D>>,
    after: Seq<TrackedObject<D>>,
    c: int,
) -> bool {
    &&& after.len() == if before.len() >= c {
        before.len() as int
    } else {
        c
    }
    &&& forall|k: int| 0 <= k < before.len() ==> #[trigger] same_entity(before, after, k)
    &&& forall|k: int| 0 <= k < after.len() ==> (#[trigger] after[k]).active == (k < c)
}

/// No entity left the store: what was there is as it was, and what came is
/// present.
pub open spec fn store_grew(alive: Seq<bool>, after: Seq<bool>) -> bool {
    &&& after.len() >= alive.len()
    &&& forall|j: int| 0 <= j < alive.len() ==> #[trigger] after[j] == alive[j]
    &&& forall|j: int| alive.len() <= j < after.len() ==> #[trigger] after[j]
}

/// Growth of the store is transitive.
pub proof fn lemma_store_grew_twice(alive: Seq<bool>, mid: Seq<bool>, after: Seq<bool>)
    requires
        store_grew(alive, mid),
        store_grew(mid, after),
    ensures
        store_grew(alive, after),
{
    assert forall|j: int| 0 <= j < alive.len() implies #[trigger] after[j] == alive[j] by {
        assert(mid[j] == alive[j]);
    }
}

/// Only duplicates are ever removed: the singleton policy removes no entity
/// of a role that one entity carries at most.
pub proof fn lemma_singleton_removes_no_single<D>(
    alive: Seq<bool>,
    before: Seq<TrackedObject<D>>,
    reading: Option<D>,
)
    requires
        before.len() <= 1,
    ensures
        store_grew(alive, reconciled_store(alive, before, reading)),
{
    if reading is Some && before.len() == 1 {
        assert forall|i: int| 0 <= i < alive.len() implies !duplicate_below(before, i, 1) by {}
        assert(reconciled_store(alive, before, reading) =~= alive);
    }
}

} // verus!
