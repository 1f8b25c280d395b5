//! The store: every route, keyed by its identifier.
//!
//! A `Cache` is a plain owned value. Sharing it between concurrent request
//! handlers (a reader-writer lock behind a shared handle) is the caller's
//! part: `get_route` takes `&self` and so runs under a shared lock,
//! `create_route` takes `&mut self` and so runs under the exclusive one.
use std::collections::HashMap;
use vstd::prelude::*;
use vstd::set_lib::lemma_len_subset;

use crate::route::{NewRoute, Route, RouteStatus};

verus! {

/// How many random identifiers `create_route` draws before it falls back to
/// scanning for one that is free.
pub const MAX_DRAWS: usize = 4;

/// The one way a read can fail.
#[derive(Clone, Copy, Debug, PartialEq, Eq, Structural)]
pub enum CacheError {
    /// No route has the identifier asked for.
    NotFound,
}

impl CacheError {
    /// The message shown to a client for this error.
    pub fn message(&self) -> (r: &'static str)
        ensures
            r@ == "unable to find route"@,
    {
        match self {
            CacheError::NotFound => "unable to find route",
        }
    }
}

/// Every record is stored under its own identifier and is still `Active`.
pub open spec fn well_keyed(m: Map<u128, Route>) -> bool {
    forall|k: u128|
        #[trigger] m.contains_key(k) ==> m[k].id == k && m[k].status == RouteStatus::Active
}

/// What a read of `id` on the contents `m` returns.
pub open spec fn lookup(m: Map<u128, Route>, id: u128) -> Result<Route, CacheError> {
    if m.contains_key(id) {
        Ok(m[id])
    } else {
        Err(CacheError::NotFound)
    }
}

/// `after` is `before` with the route `r`, created from `new_route`, added
/// under an identifier that `before` did not hold.
pub open spec fn creates(
    before: Map<u128, Route>,
    new_route: NewRoute,
    after: Map<u128, Route>,
    r: Route,
) -> bool {
    &&& !before.contains_key(r.id)
    &&& r == Route::created(r.id, new_route)
    &&& after == before.insert(r.id, r)
}

/// Relies on uuid::Uuid::new_v4 (random version-4 UUID) and
/// uuid::Uuid::as_u128 (its bytes read big-endian): the result carries the
/// version nibble 4 and the RFC 4122 variant bits; the rest is random.
#[verifier::external_body]
fn draw_route_id() -> (r: u128)
    ensures
        (r >> 76u128) & 0xfu128 == 4u128,
        (r >> 62u128) & 3u128 == 2u128,
{
    uuid::Uuid::new_v4().as_u128()
}

/// All routes, keyed by identifier.
pub struct Cache {
    routes: HashMap<u128, Route>,
}

impl View for Cache {
    type V = Map<u128, Route>;

    closed spec fn view(&self) -> Map<u128, Route> {
        self.routes@
    }
}

impl Cache {
    #[verifier::type_invariant]
    spec fn inv(&self) -> bool {
        well_keyed(self.routes@)
    }

    /// An empty store.
    pub fn new() -> (c: Cache)
        ensures
            c@ == Map::<u128, Route>::empty(),
            well_keyed(c@),
    {
        Cache { routes: HashMap::new() }
    }

    /// The number of routes stored.
    pub fn len(&self) -> (n: usize)
        ensures
            n == self@.len(),
    {
        self.routes.len()
    }

    /// A copy of the route stored under `id`, or `NotFound`.
    pub fn get_route(&self, id: u128) -> (r: Result<Route, CacheError>)
        ensures
            r == lookup(self@, id),
            well_keyed(self@),
            r matches Ok(route) ==> route.id == id && route.status == RouteStatus::Active,
    {
        proof {
            use_type_invariant(self);
        }
        match self.routes.get(&id) {
            Some(route) => Ok(*route),
            None => Err(CacheError::NotFound),
        }
    }

    /// Stores the route for `new_route` under `id` when `id` is free and
    /// returns it; when `id` is taken, stores nothing and returns `None`.
    pub fn create_route_with_id(&mut self, new_route: NewRoute, id: u128) -> (r: Option<Route>)
        ensures
            well_keyed(final(self)@),
            old(self)@.contains_key(id) ==> r.is_none() && final(self)@ == old(self)@,
            !old(self)@.contains_key(id) ==> r == Some(Route::created(id, new_route)) && creates(
                old(self)@,
                new_route,
                final(self)@,
                Route::created(id, new_route),
            ),
    {
        proof {
            use_type_invariant(&*self);
        }
        if self.routes.contains_key(&id) {
            return None;
        }
        let route = Route::from_request(id, new_route);
        let mut routes = HashMap::new();
        std::mem::swap(&mut routes, &mut self.routes);
        routes.insert(id, route);
        self.routes = routes;
        Some(route)
    }

    /// An identifier under which no route is stored: the least one.
    pub fn fresh_id(&self) -> (r: u128)
        ensures
            !self@.contains_key(r),
            forall|x: u128| x < r ==> self@.contains_key(x),
    {
        let n: u128 = self.routes.len() as u128;
        let mut candidate: u128 = 0;
        while candidate < n && self.routes.contains_key(&candidate)
            invariant
                candidate <= n,
                n == self@.len(),
                forall|x: u128| x < candidate ==> self@.contains_key(x),
            decreases n - candidate,
        {
            candidate = candidate + 1;
        }
        if self.routes.contains_key(&candidate) {
            proof {
                lemma_below_len(n as nat + 1);
                assert(below(n as nat + 1).subset_of(self@.dom()));
                lemma_len_subset(below(n as nat + 1), self@.dom());
            }
        }
        candidate
    }

    /// Creates a route for `new_route` under a fresh identifier and returns
    /// it. The identifier is a random version-4 UUID, drawn again while it
    /// collides with a stored one; after `MAX_DRAWS` collisions the least
    /// free identifier is taken. An existing route is never overwritten.
    pub fn create_route(&mut self, new_route: NewRoute) -> (r: Route)
        ensures
            well_keyed(final(self)@),
            creates(old(self)@, new_route, final(self)@, r),
            r.status == RouteStatus::Active,
            r.user_id == new_route.user_id,
    {
        let mut draws: usize = 0;
        while draws < MAX_DRAWS
            invariant
                self@ == old(self)@,
            decreases MAX_DRAWS - draws,
        {
            let id = draw_route_id();
            let created = self.create_route_with_id(new_route, id);
            if let Some(route) = created {
                return route;
            }
            draws = draws + 1;
        }
        let id = self.fresh_id();
        let created = self.create_route_with_id(new_route, id);
        created.unwrap()
    }
}

/// The identifiers below `k`.
spec fn below(k: nat) -> Set<u128> {
    Set::new(|x: u128| (x as nat) < k)
}

proof fn lemma_below_len(k: nat)
    requires
        k <= u128::MAX + 1,
    ensures
        below(k).finite(),
        below(k).len() == k,
    decreases k,
{
    if k == 0 {
        assert(below(0) =~= Set::<u128>::empty());
    } else {
        lemma_below_len((k - 1) as nat);
        assert(below(k) =~= below((k - 1) as nat).insert((k - 1) as u128));
    }
}

} // verus!
