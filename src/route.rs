//! The route record and its creation request.
use vstd::prelude::*;

verus! {

/// Where a route stands. Every route starts `Active`; nothing moves a
/// route to `Finished` yet.
#[derive(Clone, Copy, Debug, PartialEq, Eq, Structural)]
pub enum RouteStatus {
    Active,
    Finished,
}

/// A request to create a route: the identifier of its owner, as the 128-bit
/// value of a UUID.
#[derive(Clone, Copy, Debug, PartialEq, Eq, Structural)]
pub struct NewRoute {
    pub user_id: u128,
}

/// A stored route. `id` is chosen by the store; `user_id` is the owner that
/// the creation request named. Both are 128-bit UUID values.
#[derive(Clone, Copy, Debug, PartialEq, Eq, Structural)]
pub struct Route {
    pub id: u128,
    pub user_id: u128,
    pub status: RouteStatus,
}

impl Route {
    /// The record that creating `new_route` under identifier `id` yields.
    pub open spec fn created(id: u128, new_route: NewRoute) -> Route {
        Route { id, user_id: new_route.user_id, status: RouteStatus::Active }
    }

    /// Builds the record for `new_route` under identifier `id`.
    pub fn from_request(id: u128, new_route: NewRoute) -> (r: Route)
        ensures
            r == Route::created(id, new_route),
    {
        Route { id, user_id: new_route.user_id, status: RouteStatus::Active }
    }
}

} // verus!
