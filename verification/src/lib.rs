//! A user CRUD service core: identifier handling, repository semantics,
//! and HTTP response mapping, all stated in contracts and verified.

pub mod api;
pub mod laws;
pub mod oid;
pub mod store;
pub mod user;
