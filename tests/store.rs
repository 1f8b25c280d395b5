use route_service::api::{Mutation, Query};
use route_service::cache::{Cache, CacheError};
use route_service::route::{NewRoute, Route, RouteStatus};

fn uuid_value(s: &str) -> u128 {
    uuid::Uuid::parse_str(s).unwrap().as_u128()
}

#[test]
fn create_then_get_scenario() {
    let mut cache = Cache::new();
    let user = uuid_value("11111111-1111-1111-1111-111111111111");
    let created = cache.create_route(NewRoute { user_id: user });
    assert_eq!(created.user_id, user);
    assert_eq!(created.status, RouteStatus::Active);
    assert_ne!(created.id, user);
    let text = uuid::Uuid::from_u128(created.id).to_string();
    assert_eq!(text.len(), 36);
    assert_eq!(cache.get_route(created.id), Ok(created));
    let unknown = uuid_value("22222222-2222-2222-2222-222222222222");
    let missing = cache.get_route(unknown);
    assert_eq!(missing, Err(CacheError::NotFound));
    assert_eq!(missing.unwrap_err().message(), "unable to find route");
}

#[test]
fn round_trip_for_several_owners() {
    let mut cache = Cache::new();
    for user in [0u128, 1, u128::MAX, 0x1234_5678_9abc_def0] {
        let created = cache.create_route(NewRoute { user_id: user });
        assert_eq!(cache.get_route(created.id), Ok(created));
        assert_eq!(created.user_id, user);
    }
    assert_eq!(cache.len(), 4);
}

#[test]
fn created_ids_are_distinct() {
    let mut cache = Cache::new();
    let mut ids: Vec<u128> = Vec::new();
    for _ in 0..200 {
        ids.push(cache.create_route(NewRoute { user_id: 5 }).id);
    }
    let mut sorted = ids.clone();
    sorted.sort();
    sorted.dedup();
    assert_eq!(sorted.len(), 200);
    assert_eq!(cache.len(), 200);
}

#[test]
fn get_on_empty_store_is_not_found() {
    let cache = Cache::new();
    assert_eq!(cache.len(), 0);
    assert_eq!(cache.get_route(0), Err(CacheError::NotFound));
    assert_eq!(cache.get_route(u128::MAX), Err(CacheError::NotFound));
}

#[test]
fn record_is_absent_then_whole() {
    let mut cache = Cache::new();
    let id = 0xabcdu128;
    assert_eq!(cache.get_route(id), Err(CacheError::NotFound));
    let created = cache.create_route_with_id(NewRoute { user_id: 9 }, id);
    let expected = Route { id, user_id: 9, status: RouteStatus::Active };
    assert_eq!(created, Some(expected));
    assert_eq!(cache.get_route(id), Ok(expected));
}

#[test]
fn created_routes_are_active() {
    let mut cache = Cache::new();
    for user in 0..10u128 {
        assert_eq!(cache.create_route(NewRoute { user_id: user }).status, RouteStatus::Active);
    }
}

#[test]
fn taken_id_is_not_overwritten() {
    let mut cache = Cache::new();
    let first = cache.create_route_with_id(NewRoute { user_id: 1 }, 42).unwrap();
    assert_eq!(cache.create_route_with_id(NewRoute { user_id: 2 }, 42), None);
    assert_eq!(cache.get_route(42), Ok(first));
    assert_eq!(first.user_id, 1);
    assert_eq!(cache.len(), 1);
}

#[test]
fn fresh_id_is_least_free() {
    let mut cache = Cache::new();
    assert_eq!(cache.fresh_id(), 0);
    cache.create_route_with_id(NewRoute { user_id: 1 }, 0).unwrap();
    cache.create_route_with_id(NewRoute { user_id: 1 }, 1).unwrap();
    cache.create_route_with_id(NewRoute { user_id: 1 }, 3).unwrap();
    assert_eq!(cache.fresh_id(), 2);
    assert!(cache.get_route(3).is_ok());
    assert_eq!(cache.get_route(2), Err(CacheError::NotFound));
}

#[test]
fn generated_ids_are_version_four_uuids() {
    let mut cache = Cache::new();
    for _ in 0..20 {
        let id = cache.create_route(NewRoute { user_id: 0 }).id;
        assert_eq!((id >> 76) & 0xf, 4);
        assert_eq!((id >> 62) & 3, 2);
        assert_eq!(uuid::Uuid::from_u128(id).get_version_num(), 4);
    }
}

#[test]
fn resolvers_dispatch_to_the_store() {
    let mut cache = Cache::new();
    let user = uuid_value("11111111-1111-1111-1111-111111111111");
    let created = Mutation::create_route(&mut cache, NewRoute { user_id: user });
    assert_eq!(created.status, RouteStatus::Active);
    assert_eq!(Query::route(&cache, created.id), Ok(created));
    let unknown = uuid_value("22222222-2222-2222-2222-222222222222");
    assert_eq!(Query::route(&cache, unknown), Err(CacheError::NotFound));
}

#[test]
fn from_request_builds_active_route() {
    let r = Route::from_request(3, NewRoute { user_id: 8 });
    assert_eq!(r, Route { id: 3, user_id: 8, status: RouteStatus::Active });
}
