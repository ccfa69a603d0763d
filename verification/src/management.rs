//! The management surface's data contract with the core: what each
//! request does to the stores and which status code it yields. The HTTP
//! framing around these calls lives in the embedding program.

use vstd::prelude::*;

use crate::devices::{DeviceStore, RegisterOutcome, has_device, has_token, is_first_with_did, registered};
use crate::models::NotificationPreference;
use crate::relationships::{RelationshipManager, cache_ix, has_cache_entry, has_row, hashed_mirror, row_ix};

verus! {

/// Register a device: 201 when a new row was created, 200 when the token
/// was already registered (same actor: no-op; other actor: moved).
pub fn handle_register(store: &mut DeviceStore, did: &str, device_token: &str, now: i64) -> (status:
    u16)
    requires
        old(store).wf(),
        old(store).spec_next_id() < u64::MAX,
    ensures
        final(store).wf(),
        status == 200 || status == 201,
        (status == 201) == !has_token(old(store).spec_devices(), device_token@),
        has_device(old(store).spec_devices(), did@, device_token@) ==> *final(store) == *old(store)
            && status == 200,
        status == 201 ==> {
            &&& final(store).spec_devices().len() == old(store).spec_devices().len() + 1
            &&& final(store).spec_devices().last().did@ == did@
            &&& final(store).spec_devices().last().device_token@ == device_token@
            &&& has_device(final(store).spec_devices(), did@, device_token@)
        },
{
    let outcome = store.register(did, device_token, now);
    match outcome {
        RegisterOutcome::Created => 201,
        _ => 200,
    }
}

/// Read an actor's preferences: 404 when the actor has no device.
pub fn handle_get_preferences(store: &DeviceStore, did: &str) -> (r: Result<
    NotificationPreference,
    u16,
>)
    requires
        store.wf(),
    ensures
        r is Err <==> !registered(store.spec_devices(), did@),
        r is Err ==> r->Err_0 == 404,
        r is Ok ==> exists|i: int|
            is_first_with_did(store.spec_devices(), did@, i) && r->Ok_0 == store.spec_prefs()[i],
{
    match store.get_preferences(did) {
        Some(prefs) => Ok(prefs),
        None => Err(404),
    }
}

/// Set an actor's preference flags on all their devices: 200 when any
/// device matched, 404 otherwise.
pub fn handle_update_preferences(
    store: &mut DeviceStore,
    did: &str,
    flags: &NotificationPreference,
) -> (status: u16)
    requires
        old(store).wf(),
    ensures
        final(store).wf(),
        status == 200 || status == 404,
        (status == 200) == registered(old(store).spec_devices(), did@),
        final(store).spec_devices() == old(store).spec_devices(),
        forall|i: int|
            0 <= i < old(store).spec_devices().len() && old(store).spec_devices()[i].did@ == did@
                ==> {
                &&& final(store).spec_prefs()[i].mentions == flags.mentions
                &&& final(store).spec_prefs()[i].replies == flags.replies
                &&& final(store).spec_prefs()[i].likes == flags.likes
                &&& final(store).spec_prefs()[i].follows == flags.follows
                &&& final(store).spec_prefs()[i].reposts == flags.reposts
                &&& final(store).spec_prefs()[i].quotes == flags.quotes
            },
        forall|i: int|
            0 <= i < old(store).spec_devices().len() && old(store).spec_devices()[i].did@ != did@
                ==> final(store).spec_prefs()[i] == old(store).spec_prefs()[i],
{
    if store.update_preferences(did, flags) {
        200
    } else {
        404
    }
}

/// Apply a relationships batch: 400 for an oversize payload (more than
/// 1 000 mutes or blocks), 401 when the (actor, token) pair matches no
/// registration, else 200 with the user's sets rewritten, the cache
/// refreshed, and one audit row appended.
pub fn handle_relationships_update(
    rels: &mut RelationshipManager,
    devices: &DeviceStore,
    did: &str,
    device_token: &str,
    mutes: Vec<String>,
    blocks: Vec<String>,
    now_ms: u64,
    at: i64,
) -> (status: u16)
    requires
        old(rels).wf(),
        now_ms + old(rels).spec_cache_ttl_ms() <= u64::MAX,
    ensures
        final(rels).wf(),
        status == 200 || status == 400 || status == 401,
        (status == 400) == (mutes@.len() > 1000 || blocks@.len() > 1000),
        status == 400 ==> *final(rels) == *old(rels),
        (status == 401) == (mutes@.len() <= 1000 && blocks@.len() <= 1000 && !has_device(
            devices.spec_devices(),
            did@,
            device_token@,
        )),
        status == 401 ==> *final(rels) == *old(rels),
        status == 200 ==> {
            &&& has_row(final(rels).spec_table(), did@)
            &&& ({
                let row = final(rels).spec_table()[row_ix(final(rels).spec_table(), did@)];
                &&& row.mutes@ == mutes@
                &&& row.blocks@ == blocks@
                &&& (final(rels).spec_use_hashed() ==> hashed_mirror(
                    mutes@,
                    row.mutes_hashed@,
                    did@,
                    final(rels).spec_secret(),
                ) && hashed_mirror(blocks@, row.blocks_hashed@, did@, final(rels).spec_secret()))
            })
            &&& has_cache_entry(final(rels).spec_cache(), did@)
            &&& ({
                let e = final(rels).spec_cache()[cache_ix(final(rels).spec_cache(), did@)];
                e.mutes@ == mutes@ && e.blocks@ == blocks@ && e.expires_at_ms == now_ms + old(
                    rels,
                ).spec_cache_ttl_ms()
            })
            &&& final(rels).spec_audit().len() == old(rels).spec_audit().len() + 1
        },
{
    if mutes.len() > 1000 || blocks.len() > 1000 {
        return 400;
    }
    match rels.update_relationships_batch(did, device_token, mutes, blocks, devices, now_ms, at) {
        Ok(()) => 200,
        Err(_) => 401,
    }
}

} // verus!
