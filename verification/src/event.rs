use std::collections::HashMap;
use vstd::prelude::*;

verus! {

/// Marks a type whose values can be posted to a world's event queues.
///
/// An event is plain data. It has to be shareable across threads and must
/// not borrow from anything that the world could outlive.
pub trait Event: 'static + Send + Sync {

}

/// Hands an event to listeners at once, without queueing it.
///
/// This is the immediate counterpart of the event queues of a
/// [`World`](crate::world::World), and independent of them: a queued event
/// waits until one consumer drains it, whereas a dispatched event reaches
/// every listener registered for its kind, in the order of registration,
/// before `dispatch` returns, and is kept nowhere.
///
/// All listeners of one dispatcher have one type `L`. Listeners of
/// different shapes share a dispatcher as boxed functions.
pub struct EventDispatcher<L> {
    listeners: HashMap<u64, Vec<L>>,
}

impl<L> View for EventDispatcher<L> {
    type V = Map<u64, Seq<L>>;

    /// The listeners of each event kind that has any, first registered
    /// first.
    closed spec fn view(&self) -> Map<u64, Seq<L>> {
        Map::new(|kind: u64| self.listeners@.contains_key(kind), |kind: u64| self.listeners@[kind]@)
    }
}

impl<L> EventDispatcher<L> {
    /// The listeners registered for `kind`, first registered first.
    pub open spec fn listeners(&self, kind: u64) -> Seq<L> {
        if self@.contains_key(kind) {
            self@[kind]
        } else {
            Seq::empty()
        }
    }

    /// Creates a dispatcher without listeners.
    pub fn new() -> (dispatcher: Self)
        ensures
            dispatcher@ == Map::<u64, Seq<L>>::empty(),
    {
        EventDispatcher { listeners: HashMap::new() }
    }

    /// Registers `listener` for the event kind `kind`, behind the listeners
    /// registered for that kind so far.
    pub fn add_listener(&mut self, kind: u64, listener: L)
        ensures
            final(self)@ == old(self)@.insert(kind, old(self).listeners(kind).push(listener)),
    {
        self.listeners.entry(kind).or_insert(Vec::new()).push(listener);
    }

    /// Calls every listener registered for `kind` with `event`, in the
    /// order of registration, and returns what each of them answered, in
    /// that order.
    ///
    /// Every listener registered for `kind` must accept `event`.
    pub fn dispatch<E, R>(&self, kind: u64, event: &E) -> (answers: Vec<R>) where L: Fn(&E) -> R
        requires
            forall|i: int|
                0 <= i < self.listeners(kind).len() ==> #[trigger] call_requires(
                    self.listeners(kind)[i],
                    (event,),
                ),
        ensures
            answers@.len() == self.listeners(kind).len(),
            forall|i: int|
                0 <= i < answers@.len() ==> call_ensures(
                    self.listeners(kind)[i],
                    (event,),
                    #[trigger] answers@[i],
                ),
    {
        let mut answers: Vec<R> = Vec::new();
        match self.listeners.get(&kind) {
            Some(registered) => {
                let mut i: usize = 0;
                while i < registered.len()
                    invariant
                        0 <= i <= registered.len(),
                        registered@ == self.listeners(kind),
                        forall|j: int|
                            0 <= j < registered@.len() ==> #[trigger] call_requires(
                                registered@[j],
                                (event,),
                            ),
                        answers@.len() == i,
                        forall|j: int|
                            0 <= j < i ==> call_ensures(
                                registered@[j],
                                (event,),
                                #[trigger] answers@[j],
                            ),
                    decreases registered.len() - i,
                {
                    let listener = &registered[i];
                    let answer = listener(event);
                    answers.push(answer);
                    i += 1;
                }
            },
            None => {},
        }
        answers
    }
}

impl<L> Default for EventDispatcher<L> {
    /// Creates a dispatcher without listeners.
    fn default() -> (dispatcher: Self)
        ensures
            dispatcher@ == Map::<u64, Seq<L>>::empty(),
    {
        Self::new()
    }
}

} // verus!
