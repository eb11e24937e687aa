use vstd::prelude::*;

verus! {

/// A unique identifier to which components can be attached.
///
/// An entity carries no data of its own. Two entities are equal exactly when
/// their identifiers are equal.
#[derive(Debug, Clone, Copy, PartialEq, Eq, Hash, Structural)]
pub struct Entity(u64);

impl View for Entity {
    type V = u64;

    /// The identifier that the entity wraps.
    closed spec fn view(&self) -> u64 {
        self.0
    }
}

impl Entity {
    /// Creates the entity with the given identifier.
    pub fn new(id: u64) -> (entity: Self)
        ensures
            entity@ == id,
    {
        Self(id)
    }

    /// Returns the identifier of the entity.
    pub fn id(&self) -> (id: u64)
        ensures
            id == self@,
    {
        self.0
    }

    /// Entities are determined by their identifiers.
    pub proof fn lemma_view_injective(a: Entity, b: Entity)
        ensures
            a@ == b@ <==> a == b,
    {
    }
}

} // verus!
