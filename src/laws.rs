//! What holds across calls of the store's operations, stated over the
//! models that `Cache::get_route` (`lookup`) and `Cache::create_route`
//! (`creates`) are specified by.
use vstd::prelude::*;

use crate::cache::{creates, lookup, CacheError};
use crate::route::{NewRoute, Route, RouteStatus};

verus! {

/// A run of creations: `states[i + 1]` is `states[i]` after `created[i]`
/// was created from `requests[i]`. Creations that ran concurrently appear
/// here in the order in which they took the exclusive lock.
pub open spec fn is_history(
    states: Seq<Map<u128, Route>>,
    requests: Seq<NewRoute>,
    created: Seq<Route>,
) -> bool {
    &&& states.len() == created.len() + 1
    &&& requests.len() == created.len()
    &&& forall|i: int|
        0 <= i < created.len() ==> creates(states[i], requests[i], states[i + 1], #[trigger] created[i])
}

/// Reading the identifier of a route just created returns that same route.
pub proof fn lemma_create_then_get(
    before: Map<u128, Route>,
    new_route: NewRoute,
    after: Map<u128, Route>,
    r: Route,
)
    requires
        creates(before, new_route, after, r),
    ensures
        lookup(after, r.id) == Ok::<Route, CacheError>(r),
        r.user_id == new_route.user_id,
        r.status == RouteStatus::Active,
{
}

/// A creation is one step: before it, a read of the new identifier finds
/// nothing; after it, the read finds the whole record; reads of every other
/// identifier are unaffected. No state in between is observable.
pub proof fn lemma_create_is_atomic(
    before: Map<u128, Route>,
    new_route: NewRoute,
    after: Map<u128, Route>,
    r: Route,
)
    requires
        creates(before, new_route, after, r),
    ensures
        lookup(before, r.id) == Err::<Route, CacheError>(CacheError::NotFound),
        lookup(after, r.id) == Ok::<Route, CacheError>(Route::created(r.id, new_route)),
        forall|id: u128| id != r.id ==> #[trigger] lookup(after, id) == lookup(before, id),
{
}

/// Along a run of creations, what is stored stays stored.
proof fn lemma_history_grows(
    states: Seq<Map<u128, Route>>,
    requests: Seq<NewRoute>,
    created: Seq<Route>,
    i: int,
    j: int,
)
    requires
        is_history(states, requests, created),
        0 <= i <= j < states.len(),
    ensures
        forall|k: u128| states[i].contains_key(k) ==> #[trigger] states[j].contains_key(k),
    decreases j - i,
{
    if i < j {
        lemma_history_grows(states, requests, created, i, j - 1);
        assert(creates(states[j - 1], requests[j - 1], states[j], created[j - 1]));
    }
}

/// The routes returned by any number of creations, concurrent ones
/// included, have pairwise distinct identifiers.
pub proof fn lemma_created_ids_distinct(
    states: Seq<Map<u128, Route>>,
    requests: Seq<NewRoute>,
    created: Seq<Route>,
)
    requires
        is_history(states, requests, created),
    ensures
        forall|i: int, j: int|
            0 <= i < j < created.len() ==> #[trigger] created[i].id != #[trigger] created[j].id,
{
    assert forall|i: int, j: int| 0 <= i < j < created.len() implies #[trigger] created[i].id
        != #[trigger] created[j].id by {
        assert(creates(states[i], requests[i], states[i + 1], created[i]));
        assert(creates(states[j], requests[j], states[j + 1], created[j]));
        lemma_history_grows(states, requests, created, i + 1, j);
        assert(states[i + 1].contains_key(created[i].id));
    }
}

/// Starting from an empty store, the identifiers stored after `j` creations
/// are exactly those that the creations returned.
proof fn lemma_history_keys(
    states: Seq<Map<u128, Route>>,
    requests: Seq<NewRoute>,
    created: Seq<Route>,
    j: int,
)
    requires
        is_history(states, requests, created),
        states[0] == Map::<u128, Route>::empty(),
        0 <= j < states.len(),
    ensures
        forall|id: u128|
            #[trigger] states[j].contains_key(id) <==> exists|i: int|
                0 <= i < j && #[trigger] created[i].id == id,
    decreases j,
{
    if j > 0 {
        lemma_history_keys(states, requests, created, j - 1);
        assert(creates(states[j - 1], requests[j - 1], states[j], created[j - 1]));
        assert forall|id: u128| #[trigger] states[j].contains_key(id) <==> exists|i: int|
            0 <= i < j && #[trigger] created[i].id == id by {
            if states[j].contains_key(id) && id != created[j - 1].id {
                assert(states[j - 1].contains_key(id));
            }
            if exists|i: int| 0 <= i < j && #[trigger] created[i].id == id {
                let i = choose|i: int| 0 <= i < j && #[trigger] created[i].id == id;
                if i < j - 1 {
                    assert(states[j - 1].contains_key(id));
                }
            }
        }
    }
}

/// Starting from an empty store, a read of an identifier that no creation
/// returned fails with `NotFound`.
pub proof fn lemma_never_created_not_found(
    states: Seq<Map<u128, Route>>,
    requests: Seq<NewRoute>,
    created: Seq<Route>,
    id: u128,
)
    requires
        is_history(states, requests, created),
        states[0] == Map::<u128, Route>::empty(),
        forall|i: int| 0 <= i < created.len() ==> #[trigger] created[i].id != id,
    ensures
        lookup(states.last(), id) == Err::<Route, CacheError>(CacheError::NotFound),
{
    lemma_history_keys(states, requests, created, states.len() - 1);
}

} // verus!
