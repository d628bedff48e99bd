//! The data model: numbers and instants as the store holds them, and the
//! presence record built from them.

pub mod scalar;
pub mod user;
