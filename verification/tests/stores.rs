//! The device store, relationship engine, cursor store and management
//! handlers.

use bluesky_push_notifier::crypto::CryptoUtils;
use bluesky_push_notifier::cursor::CursorStore;
use bluesky_push_notifier::devices::{DeviceStore, RegisterOutcome};
use bluesky_push_notifier::management::{
    handle_get_preferences, handle_register, handle_relationships_update,
    handle_update_preferences,
};
use bluesky_push_notifier::relationships::RelationshipManager;

const ACTOR_A: &str = "did:plc:aaa";
const ACTOR_B: &str = "did:plc:bbb";
const ACTOR_C: &str = "did:plc:ccc";
const TOKEN_1: &str = "device-token-1";
const TOKEN_2: &str = "device-token-2";
const NOW_MS: u64 = 5_000_000;

fn fresh_rels(hashed: bool) -> RelationshipManager {
    RelationshipManager::new(CryptoUtils::new("SECRET-REDACTED".to_string()), hashed)
}

#[test]
fn register_twice_is_noop_with_200() {
    let mut store = DeviceStore::new();
    let first = handle_register(&mut store, ACTOR_A, TOKEN_1, 10);
    assert_eq!(first, 201);
    let devices_after_first = store.get_user_devices(ACTOR_A);
    let second = handle_register(&mut store, ACTOR_A, TOKEN_1, 20);
    assert_eq!(second, 200);
    let devices_after_second = store.get_user_devices(ACTOR_A);
    assert_eq!(devices_after_first, devices_after_second);
}

#[test]
fn reregistration_moves_token_to_new_actor() {
    let mut store = DeviceStore::new();
    assert_eq!(store.register(ACTOR_A, TOKEN_1, 10), RegisterOutcome::Created);
    assert_eq!(store.register(ACTOR_B, TOKEN_1, 20), RegisterOutcome::Updated);
    assert!(store.get_user_devices(ACTOR_A).is_empty());
    let moved = store.get_user_devices(ACTOR_B);
    assert_eq!(moved.len(), 1);
    assert_eq!(moved[0].device_token, TOKEN_1);
    // Preferences follow the device, not the actor.
    assert!(store.get_preferences(ACTOR_B).is_some());
}

#[test]
fn stale_token_removal_deletes_exactly_one_row() {
    let mut store = DeviceStore::new();
    store.register(ACTOR_A, TOKEN_1, 10);
    store.register(ACTOR_B, TOKEN_2, 11);
    assert!(store.remove_device_by_token(TOKEN_1));
    assert!(store.get_user_devices(ACTOR_A).is_empty());
    let untouched = store.get_user_devices(ACTOR_B);
    assert_eq!(untouched.len(), 1);
    assert_eq!(untouched[0].device_token, TOKEN_2);
    // Removing an absent token is a no-op.
    assert!(!store.remove_device_by_token(TOKEN_1));
}

#[test]
fn stale_device_cleanup_then_preferences_404() {
    let mut store = DeviceStore::new();
    store.register(ACTOR_A, TOKEN_1, 10);
    assert!(handle_get_preferences(&store, ACTOR_A).is_ok());
    // The push gateway answered 410 for (A, T1): the dispatcher deletes
    // the device row, and preferences cascade away with it.
    assert!(store.remove_device_by_token(TOKEN_1));
    assert_eq!(handle_get_preferences(&store, ACTOR_A), Err(404));
}

#[test]
fn preferences_update_hits_every_device_of_actor() {
    let mut store = DeviceStore::new();
    store.register(ACTOR_A, TOKEN_1, 10);
    store.register(ACTOR_A, TOKEN_2, 11);
    let mut flags = store.get_preferences(ACTOR_A).unwrap();
    assert!(flags.likes);
    flags.likes = false;
    assert_eq!(handle_update_preferences(&mut store, ACTOR_A, &flags), 200);
    let read_back = store.get_preferences(ACTOR_A).unwrap();
    assert!(!read_back.likes);
    assert_eq!(handle_update_preferences(&mut store, ACTOR_B, &flags), 404);
}

#[test]
fn registered_users_are_distinct() {
    let mut store = DeviceStore::new();
    store.register(ACTOR_A, TOKEN_1, 10);
    store.register(ACTOR_A, TOKEN_2, 11);
    store.register(ACTOR_B, "device-token-3", 12);
    let users = store.get_registered_users();
    assert_eq!(users.len(), 2);
    assert!(users.contains(&ACTOR_A.to_string()));
    assert!(users.contains(&ACTOR_B.to_string()));
}

#[test]
fn relationship_write_is_read_back_before_expiry() {
    let mut store = DeviceStore::new();
    store.register(ACTOR_A, TOKEN_1, 10);
    let mut rels = fresh_rels(true);
    let r = rels.update_relationships_batch(
        ACTOR_A,
        TOKEN_1,
        vec![ACTOR_B.to_string()],
        vec![ACTOR_C.to_string()],
        &store,
        NOW_MS,
        1_700_000_000,
    );
    assert!(r.is_ok());
    // Reads before the cache entry expires reflect the new sets exactly.
    let later = NOW_MS + 1_000;
    assert!(rels.is_muted(ACTOR_A, ACTOR_B, later));
    assert!(!rels.is_muted(ACTOR_A, ACTOR_C, later));
    assert!(rels.is_blocked(ACTOR_A, ACTOR_C, later));
    assert!(!rels.is_blocked(ACTOR_A, ACTOR_B, later));
}

#[test]
fn relationship_read_through_hashed_table_after_cache_expiry() {
    let mut store = DeviceStore::new();
    store.register(ACTOR_A, TOKEN_1, 10);
    let mut rels = fresh_rels(true);
    rels.update_relationships_batch(
        ACTOR_A,
        TOKEN_1,
        vec![ACTOR_B.to_string()],
        Vec::new(),
        &store,
        NOW_MS,
        1_700_000_000,
    )
    .unwrap();
    // One hour later the cache entry has expired; the hashed table still
    // answers by comparing the salted hash.
    let much_later = NOW_MS + 4_000_000;
    assert!(rels.is_muted(ACTOR_A, ACTOR_B, much_later));
    assert!(!rels.is_muted(ACTOR_A, ACTOR_C, much_later));
}

#[test]
fn identical_batch_twice_leaves_sets_unchanged() {
    let mut store = DeviceStore::new();
    store.register(ACTOR_A, TOKEN_1, 10);
    let mut rels = fresh_rels(true);
    let mutes = vec![ACTOR_B.to_string()];
    let blocks = vec![ACTOR_C.to_string()];
    rels.update_relationships_batch(
        ACTOR_A, TOKEN_1, mutes.clone(), blocks.clone(), &store, NOW_MS, 100,
    )
    .unwrap();
    let muted_between = rels.is_muted(ACTOR_A, ACTOR_B, NOW_MS + 1);
    let blocked_between = rels.is_blocked(ACTOR_A, ACTOR_C, NOW_MS + 1);
    rels.update_relationships_batch(
        ACTOR_A, TOKEN_1, mutes, blocks, &store, NOW_MS + 2, 101,
    )
    .unwrap();
    assert_eq!(rels.is_muted(ACTOR_A, ACTOR_B, NOW_MS + 3), muted_between);
    assert_eq!(rels.is_blocked(ACTOR_A, ACTOR_C, NOW_MS + 3), blocked_between);
    assert!(!rels.is_muted(ACTOR_A, "did:plc:other", NOW_MS + 3));
}

#[test]
fn unauthorized_relationship_write_is_401_and_ignored() {
    let store = DeviceStore::new();
    let mut rels = fresh_rels(true);
    let status = handle_relationships_update(
        &mut rels,
        &store,
        ACTOR_A,
        TOKEN_1,
        vec![ACTOR_B.to_string()],
        Vec::new(),
        NOW_MS,
        100,
    );
    assert_eq!(status, 401);
    assert!(!rels.is_muted(ACTOR_A, ACTOR_B, NOW_MS + 1));
}

#[test]
fn relationship_batch_size_limits() {
    let mut store = DeviceStore::new();
    store.register(ACTOR_A, TOKEN_1, 10);
    let mut rels = fresh_rels(false);
    let thousand: Vec<String> = (0..1000).map(|i| format!("did:plc:m{}", i)).collect();
    let status = handle_relationships_update(
        &mut rels,
        &store,
        ACTOR_A,
        TOKEN_1,
        thousand.clone(),
        thousand.clone(),
        NOW_MS,
        100,
    );
    assert_eq!(status, 200);

    let mut oversize = thousand;
    oversize.push("did:plc:onemore".to_string());
    let status = handle_relationships_update(
        &mut rels,
        &store,
        ACTOR_A,
        TOKEN_1,
        oversize,
        Vec::new(),
        NOW_MS,
        101,
    );
    assert_eq!(status, 400);
    // The oversize request left the previous sets in place.
    assert!(rels.is_muted(ACTOR_A, "did:plc:m0", NOW_MS + 1));
    assert!(!rels.is_muted(ACTOR_A, "did:plc:onemore", NOW_MS + 1));
}

#[test]
fn invalidate_cache_forces_table_read() {
    let mut store = DeviceStore::new();
    store.register(ACTOR_A, TOKEN_1, 10);
    let mut rels = fresh_rels(false);
    rels.update_relationships_batch(
        ACTOR_A,
        TOKEN_1,
        vec![ACTOR_B.to_string()],
        Vec::new(),
        &store,
        NOW_MS,
        100,
    )
    .unwrap();
    rels.invalidate_cache(ACTOR_A);
    // Plaintext mode falls back to the table and still answers.
    assert!(rels.is_muted(ACTOR_A, ACTOR_B, NOW_MS + 1));
}

#[test]
fn cache_maintenance_reloads_sets() {
    let mut store = DeviceStore::new();
    store.register(ACTOR_A, TOKEN_1, 10);
    let mut rels = fresh_rels(true);
    rels.update_relationships_batch(
        ACTOR_A,
        TOKEN_1,
        vec![ACTOR_B.to_string()],
        Vec::new(),
        &store,
        NOW_MS,
        100,
    )
    .unwrap();
    rels.invalidate_cache(ACTOR_A);
    rels.run_cache_maintenance(NOW_MS + 10);
    assert!(rels.is_muted(ACTOR_A, ACTOR_B, NOW_MS + 11));
}

#[test]
fn cursor_resumption_returns_latest() {
    let mut store = CursorStore::new();
    assert_eq!(store.load_cursor(), None);
    store.commit_cursor(100);
    store.commit_cursor(101);
    store.commit_cursor(102);
    // The consumer restarts and resumes from the last durable cursor.
    assert_eq!(store.load_cursor(), Some(102));
}

#[test]
fn cursor_is_best_effort_forward() {
    let mut store = CursorStore::new();
    store.commit_cursor(500);
    // An upstream that restarts lower is still committed as received.
    store.commit_cursor(7);
    assert_eq!(store.load_cursor(), Some(7));
}
