//! The two operations that the GraphQL schema exposes, as resolvers over
//! the store: the query `route(id)` and the mutation `createRoute(newRoute)`.
use vstd::prelude::*;

use crate::cache::{creates, lookup, Cache, CacheError};
use crate::route::{NewRoute, Route, RouteStatus};

verus! {

/// The query root.
pub struct Query;

impl Query {
    /// Resolves `route(id)`: the stored route, or `NotFound`.
    pub fn route(ctx: &Cache, id: u128) -> (r: Result<Route, CacheError>)
        ensures
            r == lookup(ctx@, id),
    {
        ctx.get_route(id)
    }
}

/// The mutation root.
pub struct Mutation;

impl Mutation {
    /// Resolves `createRoute(newRoute)`: the new, `Active` route.
    pub fn create_route(ctx: &mut Cache, new_route: NewRoute) -> (r: Route)
        ensures
            creates(old(ctx)@, new_route, final(ctx)@, r),
            r.status == RouteStatus::Active,
    {
        ctx.create_route(new_route)
    }
}

} // verus!
