use crate::component::Component;
use crate::event::Event;
use crate::world::World;
use crate::world::WorldView;
use vstd::prelude::*;

verus! {

/// A unit of behaviour that is given exclusive access to the world for the
/// length of one run.
///
/// A system may spawn and despawn entities, add and remove components, and
/// send and drain events. It runs to completion; what it did is visible to
/// every system that runs after it.
///
/// `run` is the only entry point of a system, and it returns nothing: a
/// system has no way to report a failure to the registry.
pub trait System<C: Component, E: Event> {
    /// What one run of the system may do: `before` is the world as the
    /// system finds it, `after` the world as it leaves it. A system that
    /// does not say is taken to be free to do anything.
    open spec fn effect(&self, before: WorldView<C, E>, after: WorldView<C, E>) -> bool {
        true
    }

    /// Runs the system once on `world`.
    fn run(&self, world: &mut World<C, E>)
        ensures
            self.effect(old(world)@, final(world)@),
    ;
}

/// A boxed system is a system: it does what the system in the box does.
impl<C: Component, E: Event, S: System<C, E> + ?Sized> System<C, E> for Box<S> {
    open spec fn effect(&self, before: WorldView<C, E>, after: WorldView<C, E>) -> bool {
        (**self).effect(before, after)
    }

    fn run(&self, world: &mut World<C, E>) {
        (**self).run(world)
    }
}

/// An ordered collection of systems. The order of registration is the
/// order of execution.
///
/// All systems of one registry have one type `S`. Systems of different
/// types share a registry as `Box<dyn System<C, E>>`.
pub struct SystemRegistry<S> {
    systems: Vec<S>,
}

impl<S> View for SystemRegistry<S> {
    type V = Seq<S>;

    /// The registered systems, first registered first.
    closed spec fn view(&self) -> Seq<S> {
        self.systems@
    }
}

impl<S> SystemRegistry<S> {
    /// Whether running `systems` one after the other, first to last, each
    /// on the world that its predecessor left, can take the world from
    /// `before` to `after`.
    pub open spec fn pass<C: Component, E: Event>(
        systems: Seq<S>,
        before: WorldView<C, E>,
        after: WorldView<C, E>,
    ) -> bool where S: System<C, E>
        decreases systems.len(),
    {
        if systems.len() == 0 {
            after == before
        } else {
            exists|middle: WorldView<C, E>|
                Self::pass(systems.drop_last(), before, middle) && #[trigger] systems.last().effect(
                    middle,
                    after,
                )
        }
    }

    /// A pass of no systems leaves the world as it is.
    pub proof fn lemma_pass_of_none<C: Component, E: Event>(
        before: WorldView<C, E>,
        after: WorldView<C, E>,
    ) where S: System<C, E>
        ensures
            Self::pass(Seq::<S>::empty(), before, after) <==> after == before,
    {
    }

    /// Registration order is execution order: a pass of `systems` followed
    /// by `last` is a pass of `systems`, then one run of `last` on the
    /// world that the pass left.
    pub proof fn lemma_pass_runs_last_system_last<C: Component, E: Event>(
        systems: Seq<S>,
        last: S,
        before: WorldView<C, E>,
        after: WorldView<C, E>,
    ) where S: System<C, E>
        ensures
            Self::pass(systems.push(last), before, after) <==> exists|middle: WorldView<C, E>|
                Self::pass(systems, before, middle) && #[trigger] last.effect(middle, after),
    {
        let all = systems.push(last);
        assert(all.drop_last() =~= systems);
        assert(all.last() == last);
    }

    /// Creates a registry without systems.
    pub fn new() -> (registry: Self)
        ensures
            registry@ == Seq::<S>::empty(),
    {
        SystemRegistry { systems: Vec::new() }
    }

    /// Registers `system` behind the systems registered so far.
    pub fn add_system(&mut self, system: S)
        ensures
            final(self)@ == old(self)@.push(system),
    {
        self.systems.push(system);
    }

    /// Runs every registered system once on `world`, in registration
    /// order. Each system works on the world as the one before it left it.
    pub fn run<C: Component, E: Event>(&self, world: &mut World<C, E>) where S: System<C, E>
        ensures
            Self::pass(self@, old(world)@, final(world)@),
    {
        let mut i: usize = 0;
        while i < self.systems.len()
            invariant
                0 <= i <= self.systems.len(),
                Self::pass(self@.take(i as int), old(world)@, world@),
            decreases self.systems.len() - i,
        {
            self.systems[i].run(world);
            proof {
                let done = self@.take(i + 1);
                assert(done.drop_last() =~= self@.take(i as int));
                assert(done.last() == self.systems@[i as int]);
            }
            i += 1;
        }
        assert(self@.take(i as int) =~= self@);
    }
}

impl<S> Default for SystemRegistry<S> {
    /// Creates a registry without systems.
    fn default() -> (registry: Self)
        ensures
            registry@ == Seq::<S>::empty(),
    {
        Self::new()
    }
}

} // verus!
