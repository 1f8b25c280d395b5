//! An in-memory store of routes: records keyed by a generated 128-bit
//! identifier, with a read and a create operation, and the two resolvers
//! that a GraphQL layer dispatches to.

pub mod api;
pub mod cache;
pub mod laws;
pub mod route;
