//! The store client, the expiry sweeper, and the model of the collection.

pub mod available_users_cleaner;
pub mod collection;
pub mod database_interface;
