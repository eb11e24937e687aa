//! A small entity-component-system runtime for a single-threaded
//! simulation loop.
//!
//! * An [`Entity`] is a bare identifier.
//! * A [`SparseSet`] maps integer keys to values through a dense and a
//!   sparse sequence.
//! * A [`World`] hands out entities, keeps the components attached to them
//!   in one sparse set per component kind, lists the entities that carry
//!   a kind, and keeps one first-in, first-out queue of pending events per
//!   event kind.
//! * A [`SystemRegistry`] runs systems against a world in the order in
//!   which they were registered.
//! * An [`EventDispatcher`] calls listeners at once, without a queue.
//!
//! # Kinds
//!
//! A component kind, like an event kind, is a `u64` token that the caller
//! chooses. All components of one world have one Rust type `C` and all its
//! events one type `E`; a program with several kinds of component makes
//! `C` an enum, or a box. An entity holds at most one component of each
//! kind.
//!
//! # Events
//!
//! The queues of a world are drained destructively: `get_events` hands
//! every pending event of a kind to the one caller that asks first, and
//! leaves the queue empty. Sending wakes nobody. A dispatcher, in
//! contrast, keeps nothing: `dispatch` calls every listener of the kind
//! before it returns.
//!
//! # Identifiers
//!
//! A world numbers its entities `0, 1, 2, ...` in the order in which they
//! are spawned. An identifier is never handed out twice, also not after
//! the entity has been despawned.
//!
//! # Contracts
//!
//! Every function states what it returns and changes over a mathematical
//! view of its type: a `SparseSet<T>` is a `Map<u64, T>`, a world is a
//! [`WorldView`], a registry is the sequence of its systems.

pub mod component;
pub mod entity;
pub mod event;
pub mod sparse_set;
pub mod system;
pub mod world;

pub use component::Component;
pub use entity::Entity;
pub use event::Event;
pub use event::EventDispatcher;
pub use sparse_set::SparseSet;
pub use system::System;
pub use system::SystemRegistry;
pub use world::World;
pub use world::WorldView;
