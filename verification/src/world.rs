use crate::component::Component;
use crate::entity::Entity;
use crate::event::Event;
use crate::sparse_set::SparseSet;
use std::collections::hash_map::Entry;
use std::collections::HashMap;
use std::collections::VecDeque;
use vstd::prelude::*;

verus! {

/// The state of a [`World`] as a mathematical value.
///
/// All contracts of `World` are stated over this type: each method says
/// which of the functions below takes the view before the call to the view
/// after it.
#[verifier::ext_equal]
pub struct WorldView<C, E> {
    /// The identifier that the next spawned entity receives.
    pub next_entity_id: u64,
    /// The component values, keyed by component kind and entity identifier.
    pub components: Map<(u64, u64), C>,
    /// The pending events of each kind that has any, oldest first.
    pub events: Map<u64, Seq<E>>,
}

impl<C, E> WorldView<C, E> {
    /// A world without entities, components or events.
    pub open spec fn empty() -> Self {
        WorldView { next_entity_id: 0, components: Map::empty(), events: Map::empty() }
    }

    /// The component of kind `kind` attached to `entity`, if any.
    pub open spec fn component(self, entity: Entity, kind: u64) -> Option<C> {
        if self.components.contains_key((kind, entity@)) {
            Some(self.components[(kind, entity@)])
        } else {
            None
        }
    }

    /// The pending events of kind `kind`, oldest first.
    pub open spec fn pending(self, kind: u64) -> Seq<E> {
        if self.events.contains_key(kind) {
            self.events[kind]
        } else {
            Seq::empty()
        }
    }

    /// The identifiers below `bound` that carry a component of kind
    /// `kind`, in increasing order.
    pub open spec fn carriers(self, kind: u64, bound: nat) -> Seq<u64>
        decreases bound,
    {
        if bound == 0 {
            Seq::empty()
        } else {
            let below = self.carriers(kind, (bound - 1) as nat);
            if self.components.contains_key((kind, (bound - 1) as u64)) {
                below.push((bound - 1) as u64)
            } else {
                below
            }
        }
    }

    /// The world after one more entity has been spawned.
    pub open spec fn spawn(self) -> Self {
        WorldView { next_entity_id: (self.next_entity_id + 1) as u64, ..self }
    }

    /// The world after `component` has been attached to `entity` under
    /// `kind`, replacing what was there.
    pub open spec fn add_component(self, entity: Entity, kind: u64, component: C) -> Self {
        WorldView { components: self.components.insert((kind, entity@), component), ..self }
    }

    /// The world after the component of kind `kind` has been taken from
    /// `entity`.
    pub open spec fn remove_component(self, entity: Entity, kind: u64) -> Self {
        WorldView { components: self.components.remove((kind, entity@)), ..self }
    }

    /// The world after every component of `entity` has been removed. The
    /// identifier counter stays where it is.
    pub open spec fn despawn(self, entity: Entity) -> Self {
        WorldView {
            components: Map::new(
                |key: (u64, u64)| self.components.contains_key(key) && key.1 != entity@,
                |key: (u64, u64)| self.components[key],
            ),
            ..self
        }
    }

    /// The world after `event` has been appended to the queue of `kind`.
    pub open spec fn send_event(self, kind: u64, event: E) -> Self {
        WorldView { events: self.events.insert(kind, self.pending(kind).push(event)), ..self }
    }

    /// The world after the queue of `kind` has been emptied.
    pub open spec fn drain_events(self, kind: u64) -> Self {
        WorldView { events: self.events.remove(kind), ..self }
    }

    /// The world after `count` entities have been spawned one after the
    /// other.
    pub open spec fn spawn_many(self, count: nat) -> Self
        decreases count,
    {
        if count == 0 {
            self
        } else {
            self.spawn_many((count - 1) as nat).spawn()
        }
    }

    /// The world after `events` have been sent under `kind` one after the
    /// other, first to last.
    pub open spec fn send_events(self, kind: u64, events: Seq<E>) -> Self
        decreases events.len(),
    {
        if events.len() == 0 {
            self
        } else {
            self.send_events(kind, events.drop_last()).send_event(kind, events.last())
        }
    }

    /// `carriers` lists exactly the identifiers below `bound` that carry a
    /// component of kind `kind`, each once and in increasing order.
    pub proof fn lemma_carriers_lists_the_carriers(self, kind: u64, bound: nat)
        requires
            bound <= u64::MAX,
        ensures
            forall|id: u64|
                self.carriers(kind, bound).contains(id) <==> id < bound
                    && self.components.contains_key((kind, id)),
            forall|i: int, j: int|
                0 <= i < j < self.carriers(kind, bound).len() ==> self.carriers(kind, bound)[i]
                    < self.carriers(kind, bound)[j],
            self.carriers(kind, bound).len() <= bound,
        decreases bound,
    {
        if bound > 0 {
            let below = self.carriers(kind, (bound - 1) as nat);
            self.lemma_carriers_lists_the_carriers(kind, (bound - 1) as nat);
            let all = self.carriers(kind, bound);
            assert forall|id: u64| all.contains(id) <==> id < bound && self.components.contains_key(
                (kind, id),
            ) by {
                if all.contains(id) {
                    let i = choose|i: int| 0 <= i < all.len() && all[i] == id;
                    if i < below.len() {
                        assert(below.contains(id));
                    }
                }
                if id < bound && self.components.contains_key((kind, id)) {
                    if id == bound - 1 {
                        assert(all[all.len() - 1] == id);
                    } else {
                        let i = choose|i: int| 0 <= i < below.len() && below[i] == id;
                        assert(all[i] == id);
                    }
                }
            }
            assert forall|i: int, j: int| 0 <= i < j < all.len() implies all[i] < all[j] by {
                if j == below.len() {
                    assert(below.contains(below[i]));
                }
            }
        }
    }

    /// Identifiers count up: in a run of spawns on a world, the spawn
    /// that has `count` spawns before it hands out the identifier
    /// `self.next_entity_id + count`. On a new world these are
    /// `0, 1, 2, ...`. Spawning touches neither components nor events.
    pub proof fn lemma_spawn_counts_up(self, count: nat)
        requires
            self.next_entity_id + count <= u64::MAX,
        ensures
            self.spawn_many(count).next_entity_id == self.next_entity_id + count,
            self.spawn_many(count).components == self.components,
            self.spawn_many(count).events == self.events,
        decreases count,
    {
        if count > 0 {
            self.lemma_spawn_counts_up((count - 1) as nat);
        }
    }

    /// Despawn removes the components of an entity under every kind, and
    /// leaves every other entity, the events and the identifier counter
    /// alone.
    pub proof fn lemma_despawn_removes_every_component(self, entity: Entity, other: Entity, kind: u64)
        ensures
            self.despawn(entity).component(entity, kind) is None,
            other@ != entity@ ==> self.despawn(entity).component(other, kind) == self.component(
                other,
                kind,
            ),
            self.despawn(entity).events == self.events,
            self.despawn(entity).next_entity_id == self.next_entity_id,
    {
    }

    /// Sending appends in order: after `events` have been sent under
    /// `kind`, the queue of `kind` holds what it held before, followed by
    /// `events`; the queues of the other kinds are untouched.
    pub proof fn lemma_send_events_appends(self, kind: u64, events: Seq<E>, other: u64)
        ensures
            self.send_events(kind, events).pending(kind) == self.pending(kind) + events,
            other != kind ==> self.send_events(kind, events).pending(other) == self.pending(other),
            self.send_events(kind, events).components == self.components,
            self.send_events(kind, events).next_entity_id == self.next_entity_id,
        decreases events.len(),
    {
        if events.len() > 0 {
            self.lemma_send_events_appends(kind, events.drop_last(), other);
        }
    }

    /// Draining is exhaustive and destructive: a drain right after
    /// `events` have been sent hands out everything that is pending,
    /// `events` last and in the order sent, and leaves nothing for a second
    /// drain. The queues of the other kinds are untouched.
    pub proof fn lemma_drain_takes_all(self, kind: u64, events: Seq<E>, other: u64)
        ensures
            self.send_events(kind, events).pending(kind) == self.pending(kind) + events,
            self.send_events(kind, events).drain_events(kind).pending(kind) == Seq::<E>::empty(),
            other != kind ==> self.send_events(kind, events).drain_events(kind).pending(other)
                == self.pending(other),
    {
        self.lemma_send_events_appends(kind, events, other);
    }
}

/// Looks `key` up for writing. Returns `None` and leaves the map alone when
/// `key` is absent. Otherwise returns a reference to the value stored under
/// `key`: whatever the caller writes through it becomes the value under
/// `key`, and every other entry stays as it is.
fn value_mut<V>(map: &mut HashMap<u64, V>, key: u64) -> (value: Option<&mut V>)
    ensures
        match value {
            Some(v) => old(map)@.contains_key(key) && *v == old(map)@[key] && final(map)@ == old(
                map,
            )@.insert(key, *final(v)),
            None => !old(map)@.contains_key(key) && final(map)@ == old(map)@,
        },
{
    match map.entry(key) {
        Entry::Occupied(occupied) => Some(occupied.into_mut()),
        Entry::Vacant(_) => None,
    }
}

/// The owner of all entities, component stores and event queues of one
/// simulation.
///
/// Components live in one [`SparseSet`] per component kind, created when
/// the first component of that kind is added. Events wait in one queue per
/// event kind, created when the first event of that kind is sent.
/// Identifiers are handed out in increasing order and never reused, also
/// not after [`World::despawn`].
pub struct World<C: Component, E: Event> {
    components: HashMap<u64, SparseSet<C>>,
    next_entity_id: u64,
    events: HashMap<u64, VecDeque<E>>,
}

impl<C: Component, E: Event> View for World<C, E> {
    type V = WorldView<C, E>;

    closed spec fn view(&self) -> WorldView<C, E> {
        WorldView {
            next_entity_id: self.next_entity_id,
            components: Map::new(
                |key: (u64, u64)|
                    self.components@.contains_key(key.0) && self.components@[key.0]@.contains_key(
                        key.1,
                    ),
                |key: (u64, u64)| self.components@[key.0]@[key.1],
            ),
            events: Map::new(
                |kind: u64| self.events@.contains_key(kind) && self.events@[kind]@.len() > 0,
                |kind: u64| self.events@[kind]@,
            ),
        }
    }
}

impl<C: Component, E: Event> World<C, E> {
    /// Creates an empty world.
    pub fn new() -> (world: Self)
        ensures
            world@ == WorldView::<C, E>::empty(),
    {
        World { components: HashMap::new(), next_entity_id: 0, events: HashMap::new() }
    }

    /// Returns the identifier that the next spawned entity will receive,
    /// which is also the number of entities spawned so far.
    pub fn next_entity_id(&self) -> (id: u64)
        ensures
            id == self@.next_entity_id,
    {
        self.next_entity_id
    }

    /// Spawns a new entity and returns it. Its identifier is the number of
    /// entities spawned before it.
    ///
    /// The identifiers of one world are exhausted after `u64::MAX` spawns.
    pub fn spawn(&mut self) -> (entity: Entity)
        requires
            old(self)@.next_entity_id < u64::MAX,
        ensures
            entity@ == old(self)@.next_entity_id,
            final(self)@ == old(self)@.spawn(),
    {
        let entity = Entity::new(self.next_entity_id);
        self.next_entity_id += 1;
        entity
    }

    /// Attaches `component` to `entity` under the component kind `kind`,
    /// replacing the component of that kind if the entity has one.
    ///
    /// The store of a kind is indexed by entity identifier, so for a new
    /// component the identifier plus one has to fit in a `usize`. A
    /// component that is there can always be replaced.
    pub fn add_component(&mut self, entity: Entity, kind: u64, component: C)
        requires
            entity@ < usize::MAX || old(self)@.component(entity, kind) is Some,
        ensures
            final(self)@ == old(self)@.add_component(entity, kind, component),
    {
        self.components.entry(kind).or_insert(SparseSet::new()).insert(entity.id(), component);
    }

    /// Returns the component of kind `kind` attached to `entity`, or `None`
    /// if the entity has none.
    pub fn get_component(&self, entity: Entity, kind: u64) -> (component: Option<&C>)
        ensures
            match component {
                Some(c) => self@.component(entity, kind) == Some(*c),
                None => self@.component(entity, kind) is None,
            },
    {
        match self.components.get(&kind) {
            Some(set) => set.get(entity.id()),
            None => None,
        }
    }

    /// Returns a mutable reference to the component of kind `kind`
    /// attached to `entity`, or `None` if the entity has none. What the
    /// caller writes through the reference replaces the component.
    pub fn get_component_mut(&mut self, entity: Entity, kind: u64) -> (component: Option<&mut C>)
        ensures
            match component {
                Some(c) => old(self)@.component(entity, kind) == Some(*c) && final(self)@ == old(
                    self,
                )@.add_component(entity, kind, *final(c)),
                None => old(self)@.component(entity, kind) is None && final(self)@ == old(self)@,
            },
    {
        match value_mut(&mut self.components, kind) {
            Some(set) => set.get_mut(entity.id()),
            None => None,
        }
    }

    /// Takes the component of kind `kind` from `entity` and returns it, or
    /// returns `None` if the entity has none.
    pub fn remove_component(&mut self, entity: Entity, kind: u64) -> (component: Option<C>)
        ensures
            component == old(self)@.component(entity, kind),
            final(self)@ == old(self)@.remove_component(entity, kind),
    {
        match value_mut(&mut self.components, kind) {
            Some(set) => set.remove(entity.id()),
            None => None,
        }
    }

    /// Returns the kinds that have a component store, in no particular
    /// order.
    fn kinds(&self) -> (kinds: Vec<u64>)
        ensures
            forall|kind: u64| self.components@.contains_key(kind) ==> kinds@.contains(kind),
    {
        let mut kinds: Vec<u64> = Vec::new();
        let ghost all = vstd::std_specs::iter::IteratorSpec::remaining(
            &vstd::std_specs::hash::spec_keys_iter(&self.components),
        );
        for kind in it: self.components.keys()
            invariant
                it.seq() == all,
                kinds@ == all.take(it.index()).unref(),
        {
            kinds.push(*kind);
        }
        proof {
            assert(all.take(all.len() as int) =~= all);
        }
        kinds
    }

    /// Returns the entities spawned so far that carry a component of kind
    /// `kind`, in the order in which they were spawned.
    pub fn entities_with(&self, kind: u64) -> (found: Vec<Entity>)
        ensures
            found@.len() == self@.carriers(kind, self@.next_entity_id as nat).len(),
            forall|i: int|
                0 <= i < found@.len() ==> (#[trigger] found@[i])@ == self@.carriers(
                    kind,
                    self@.next_entity_id as nat,
                )[i],
    {
        let mut found: Vec<Entity> = Vec::new();
        let mut id: u64 = 0;
        while id < self.next_entity_id
            invariant
                id <= self.next_entity_id,
                found@.len() == self@.carriers(kind, id as nat).len(),
                forall|i: int|
                    0 <= i < found@.len() ==> (#[trigger] found@[i])@ == self@.carriers(
                        kind,
                        id as nat,
                    )[i],
            decreases self.next_entity_id - id,
        {
            let entity = Entity::new(id);
            if self.get_component(entity, kind).is_some() {
                found.push(entity);
            }
            id += 1;
        }
        found
    }

    /// Removes every component of `entity`, from the store of each kind.
    /// The identifier is not handed out again.
    pub fn despawn(&mut self, entity: Entity)
        ensures
            final(self)@ == old(self)@.despawn(entity),
    {
        let kinds = self.kinds();
        let mut i: usize = 0;
        while i < kinds.len()
            invariant
                0 <= i <= kinds.len(),
                self.next_entity_id == old(self).next_entity_id,
                self.events == old(self).events,
                self.components@.dom() == old(self).components@.dom(),
                forall|kind: u64| self.components@.contains_key(kind) ==> kinds@.contains(kind),
                forall|kind: u64| #[trigger]
                    self.components@.contains_key(kind) ==> self.components@[kind]@ == (
                    if kinds@.take(i as int).contains(kind) {
                        old(self).components@[kind]@.remove(entity@)
                    } else {
                        old(self).components@[kind]@
                    }),
            decreases kinds.len() - i,
        {
            let kind = kinds[i];
            match value_mut(&mut self.components, kind) {
                Some(set) => {
                    set.remove(entity.id());
                },
                None => {},
            }
            proof {
                let visited = kinds@.take(i + 1);
                assert forall|k: u64| #[trigger]
                    self.components@.contains_key(k) implies self.components@[k]@ == (
                if visited.contains(k) {
                    old(self).components@[k]@.remove(entity@)
                } else {
                    old(self).components@[k]@
                }) by {
                    if k == kind {
                        assert(visited[i as int] == k);
                    }
                }
            }
            i += 1;
        }
        proof {
            assert(kinds@.take(kinds@.len() as int) =~= kinds@);
        }
    }

    /// Appends `event` to the queue of the event kind `kind`.
    pub fn send_event(&mut self, kind: u64, event: E)
        ensures
            final(self)@ == old(self)@.send_event(kind, event),
    {
        self.events.entry(kind).or_insert(VecDeque::new()).push_back(event);
        proof {
            if old(self).events@.contains_key(kind) && old(self).events@[kind]@.len() == 0 {
                assert(old(self).events@[kind]@ =~= Seq::<E>::empty());
            }
        }
    }

    /// Takes all pending events of kind `kind` out of the world and
    /// returns them, oldest first. The queue is empty afterwards: an event
    /// is handed out once.
    pub fn get_events(&mut self, kind: u64) -> (events: Vec<E>)
        ensures
            events@ == old(self)@.pending(kind),
            final(self)@ == old(self)@.drain_events(kind),
    {
        let mut drained: Vec<E> = Vec::new();
        match value_mut(&mut self.events, kind) {
            Some(queue) => {
                let ghost all = queue@;
                loop
                    invariant
                        drained@ + queue@ == all,
                    ensures
                        drained@ == all,
                        queue@.len() == 0,
                    decreases queue@.len(),
                {
                    match queue.pop_front() {
                        Some(event) => {
                            drained.push(event);
                        },
                        None => {
                            break ;
                        },
                    }
                }
            },
            None => {},
        }
        drained
    }
}

impl<C: Component, E: Event> Default for World<C, E> {
    /// Creates an empty world.
    fn default() -> (world: Self)
        ensures
            world@ == WorldView::<C, E>::empty(),
    {
        Self::new()
    }
}

} // verus!
