use vstd::prelude::*;

verus! {

/// Marks a type whose values can be attached to entities.
///
/// A component is plain data. It has to be shareable across threads and
/// must not borrow from anything that the world could outlive.
pub trait Component: 'static + Send + Sync {

}

} // verus!
