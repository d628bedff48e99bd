//! Presence and proximity matching over a document store.
//!
//! A person announces "I am available, here, until then, to these contacts";
//! a contact asks who is available nearby. The records live in a MongoDB
//! collection. This library holds everything about that exchange that is a
//! matter of logic: the record and its stored form, the requests sent to the
//! store, the reading of its replies, the rhythm of the expiry sweep, and a
//! model of the collection against which the engine's guarantees are proved.
//! Talking to the store is left to the caller.

pub mod store_values;

pub mod models;
pub mod database;
