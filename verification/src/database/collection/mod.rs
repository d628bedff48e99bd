//! A model of the collection, and what the engine guarantees over it.
//!
//! The collection is taken as the sequence of the records it holds.
//! Filtering, replacing, inserting, deleting and the nearby pipeline are
//! written down as the store is understood to carry them out. The store
//! itself is not proved to behave like this; what is proved is everything
//! that follows if it does, for the requests that this engine builds.

pub mod filters;
pub mod nearby;
pub mod publications;
pub mod removals;
