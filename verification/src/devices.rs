//! The device registration store: devices keyed by a globally unique
//! push token, each with one row of notification preferences. Models the
//! persisted tables; the embedding program mirrors every mutation to its
//! storage.

use vstd::prelude::*;

use crate::models::{NotificationPreference, UserDevice, default_preferences};
use crate::strutil::str_eq;

verus! {

/// What a registration request did.
#[derive(Debug, Clone, Copy, PartialEq, Eq, Structural)]
pub enum RegisterOutcome {
    /// The token was already registered to this actor; nothing changed.
    AlreadyRegistered,
    /// The token existed under another actor and was moved to this one.
    Updated,
    /// A new device row was created, with default preferences.
    Created,
}

/// Devices and their preferences; rows are aligned by index.
pub struct DeviceStore {
    devices: Vec<UserDevice>,
    preferences: Vec<NotificationPreference>,
    next_id: u64,
}

/// Some device row holds this token.
pub open spec fn has_token(s: Seq<UserDevice>, token: Seq<char>) -> bool {
    exists|i: int| 0 <= i < s.len() && s[i].device_token@ == token
}

/// Some device row holds this (actor, token) pair.
pub open spec fn has_device(s: Seq<UserDevice>, did: Seq<char>, token: Seq<char>) -> bool {
    exists|i: int| 0 <= i < s.len() && s[i].did@ == did && s[i].device_token@ == token
}

/// Some device row belongs to this actor.
pub open spec fn registered(s: Seq<UserDevice>, did: Seq<char>) -> bool {
    exists|i: int| 0 <= i < s.len() && s[i].did@ == did
}

/// The actor appears in the list of distinct registered actors.
pub open spec fn did_listed(r: Seq<String>, u: Seq<char>) -> bool {
    exists|j: int| 0 <= j < r.len() && r[j]@ == u
}

proof fn lemma_did_listed_extend(rb: Seq<String>, ra: Seq<String>, u: Seq<char>)
    requires
        did_listed(rb, u),
        rb.len() <= ra.len(),
        forall|j: int| 0 <= j < rb.len() ==> ra[j] == rb[j],
    ensures
        did_listed(ra, u),
{
    let w = choose|w: int| 0 <= w < rb.len() && (#[trigger] rb[w]@) == u;
    assert(ra[w]@ == u);
}

/// `i` is the first device row of this actor.
pub open spec fn is_first_with_did(s: Seq<UserDevice>, did: Seq<char>, i: int) -> bool {
    &&& 0 <= i < s.len()
    &&& s[i].did@ == did
    &&& forall|k: int| 0 <= k < i ==> s[k].did@ != did
}

impl DeviceStore {
    pub closed spec fn spec_devices(&self) -> Seq<UserDevice> {
        self.devices@
    }

    pub closed spec fn spec_prefs(&self) -> Seq<NotificationPreference> {
        self.preferences@
    }

    pub closed spec fn spec_next_id(&self) -> u64 {
        self.next_id
    }

    /// Store invariant: tokens are globally unique (a token belongs to at
    /// most one actor at any instant), ids are unique and below the next
    /// free id, and row `i` of the preferences belongs to device row `i`.
    pub open spec fn wf(&self) -> bool {
        &&& forall|i: int, j: int|
            0 <= i < j < self.spec_devices().len() ==> self.spec_devices()[i].device_token@
                != self.spec_devices()[j].device_token@
        &&& forall|i: int, j: int|
            0 <= i < j < self.spec_devices().len() ==> self.spec_devices()[i].id
                != self.spec_devices()[j].id
        &&& forall|i: int|
            0 <= i < self.spec_devices().len() ==> self.spec_devices()[i].id < self.spec_next_id()
        &&& self.spec_prefs().len() == self.spec_devices().len()
        &&& forall|i: int|
            0 <= i < self.spec_devices().len() ==> self.spec_prefs()[i].user_id
                == self.spec_devices()[i].id
    }

    /// An empty store.
    pub fn new() -> (r: Self)
        ensures
            r.wf(),
            r.spec_devices().len() == 0,
            r.spec_prefs().len() == 0,
    {
        DeviceStore { devices: Vec::new(), preferences: Vec::new(), next_id: 0 }
    }

    /// Index of the device row holding this token, if any.
    fn find_token(&self, token: &str) -> (r: Option<usize>)
        ensures
            match r {
                Some(i) => 0 <= i < self.spec_devices().len()
                    && self.spec_devices()[i as int].device_token@ == token@,
                None => !has_token(self.spec_devices(), token@),
            },
    {
        let mut i: usize = 0;
        while i < self.devices.len()
            invariant
                0 <= i <= self.devices@.len(),
                forall|k: int| 0 <= k < i ==> self.devices@[k].device_token@ != token@,
            decreases self.devices@.len() - i,
        {
            if str_eq(self.devices[i].device_token.as_str(), token) {
                return Some(i);
            }
            i += 1;
        }
        None
    }

    /// Register a device. A token already held by this actor is a no-op;
    /// a token held by another actor moves to this one; a fresh token
    /// creates a new row with default preferences.
    pub fn register(&mut self, did: &str, device_token: &str, now: i64) -> (r: RegisterOutcome)
        requires
            old(self).wf(),
            old(self).spec_next_id() < u64::MAX,
        ensures
            final(self).wf(),
            (r == RegisterOutcome::AlreadyRegistered) == has_device(
                old(self).spec_devices(),
                did@,
                device_token@,
            ),
            (r == RegisterOutcome::Created) == !has_token(old(self).spec_devices(), device_token@),
            r == RegisterOutcome::AlreadyRegistered ==> *final(self) == *old(self),
            r == RegisterOutcome::Updated ==> {
                &&& final(self).spec_devices().len() == old(self).spec_devices().len()
                &&& forall|i: int|
                    0 <= i < old(self).spec_devices().len() && old(self).spec_devices()[i].device_token@ != device_token@ ==> final(self).spec_devices()[i] == old(self).spec_devices()[i]
                &&& forall|i: int|
                    0 <= i < old(self).spec_devices().len() && old(self).spec_devices()[i].device_token@ == device_token@ ==> {
                        &&& final(self).spec_devices()[i].did@ == did@
                        &&& final(self).spec_devices()[i].device_token == old(self).spec_devices()[i].device_token
                        &&& final(self).spec_devices()[i].id == old(self).spec_devices()[i].id
                        &&& final(self).spec_devices()[i].created_at == old(self).spec_devices()[i].created_at
                        &&& final(self).spec_devices()[i].updated_at == now
                    }
                &&& final(self).spec_prefs() == old(self).spec_prefs()
                &&& final(self).spec_next_id() == old(self).spec_next_id()
            },
            r == RegisterOutcome::Created ==> {
                &&& final(self).spec_devices().len() == old(self).spec_devices().len() + 1
                &&& final(self).spec_devices().subrange(
                    0,
                    old(self).spec_devices().len() as int,
                ) == old(self).spec_devices()
                &&& final(self).spec_devices().last().did@ == did@
                &&& final(self).spec_devices().last().device_token@ == device_token@
                &&& final(self).spec_devices().last().id == old(self).spec_next_id()
                &&& final(self).spec_devices().last().created_at == now
                &&& final(self).spec_devices().last().updated_at == now
                &&& final(self).spec_prefs().subrange(0, old(self).spec_prefs().len() as int)
                    == old(self).spec_prefs()
                &&& final(self).spec_prefs().last().user_id == old(self).spec_next_id()
                &&& final(self).spec_prefs().last().mentions
                &&& final(self).spec_prefs().last().replies
                &&& final(self).spec_prefs().last().likes
                &&& final(self).spec_prefs().last().follows
                &&& final(self).spec_prefs().last().reposts
                &&& final(self).spec_prefs().last().quotes
                &&& final(self).spec_next_id() == old(self).spec_next_id() + 1
            },
    {
        match self.find_token(device_token) {
            Some(i) => {
                if str_eq(self.devices[i].did.as_str(), did) {
                    assert(has_device(self.spec_devices(), did@, device_token@));
                    RegisterOutcome::AlreadyRegistered
                } else {
                    assert(forall|k: int|
                        0 <= k < self.spec_devices().len() && k != i ==> self.spec_devices()[
                            k
                        ].device_token@ != device_token@);
                    let device = &mut self.devices[i];
                    device.did = did.to_owned();
                    device.updated_at = now;
                    assert(!has_device(old(self).spec_devices(), did@, device_token@));
                    RegisterOutcome::Updated
                }
            },
            None => {
                let id = self.next_id;
                self.devices.push(
                    UserDevice {
                        id,
                        did: did.to_owned(),
                        device_token: device_token.to_owned(),
                        created_at: now,
                        updated_at: now,
                    },
                );
                self.preferences.push(default_preferences(id));
                self.next_id = id + 1;
                assert(final(self).spec_devices().subrange(0, old(self).spec_devices().len() as int)
                    =~= old(self).spec_devices());
                assert(final(self).spec_prefs().subrange(0, old(self).spec_prefs().len() as int)
                    =~= old(self).spec_prefs());
                RegisterOutcome::Created
            },
        }
    }

    /// Delete the device row holding this token, with its preferences.
    /// With tokens unique, at most one row goes; every other registration
    /// is untouched.
    pub fn remove_device_by_token(&mut self, token: &str) -> (removed: bool)
        requires
            old(self).wf(),
        ensures
            final(self).wf(),
            removed == has_token(old(self).spec_devices(), token@),
            !removed ==> *final(self) == *old(self),
            removed ==> exists|i: int|
                {
                    &&& 0 <= i < old(self).spec_devices().len()
                    &&& old(self).spec_devices()[i].device_token@ == token@
                    &&& final(self).spec_devices() == old(self).spec_devices().remove(i)
                    &&& final(self).spec_prefs() == old(self).spec_prefs().remove(i)
                },
            final(self).spec_next_id() == old(self).spec_next_id(),
    {
        match self.find_token(token) {
            Some(i) => {
                self.devices.remove(i);
                self.preferences.remove(i);
                true
            },
            None => false,
        }
    }

    /// Preferences of the actor's first device row, if the actor has any
    /// device.
    pub fn get_preferences(&self, did: &str) -> (r: Option<NotificationPreference>)
        requires
            self.wf(),
        ensures
            r is None <==> !registered(self.spec_devices(), did@),
            r is Some ==> exists|i: int|
                is_first_with_did(self.spec_devices(), did@, i) && r == Some(self.spec_prefs()[i]),
    {
        let mut i: usize = 0;
        while i < self.devices.len()
            invariant
                self.wf(),
                0 <= i <= self.devices@.len(),
                forall|k: int| 0 <= k < i ==> self.devices@[k].did@ != did@,
            decreases self.devices@.len() - i,
        {
            if str_eq(self.devices[i].did.as_str(), did) {
                proof {
                    assert(is_first_with_did(self.spec_devices(), did@, i as int));
                }
                return Some(self.preferences[i]);
            }
            i += 1;
        }
        None
    }

    /// Set the preference flags on every device row of the actor; reports
    /// whether any row matched.
    pub fn update_preferences(&mut self, did: &str, flags: &NotificationPreference) -> (found:
        bool)
        requires
            old(self).wf(),
        ensures
            final(self).wf(),
            found == registered(old(self).spec_devices(), did@),
            final(self).spec_devices() == old(self).spec_devices(),
            final(self).spec_next_id() == old(self).spec_next_id(),
            final(self).spec_prefs().len() == old(self).spec_prefs().len(),
            forall|i: int|
                0 <= i < old(self).spec_devices().len() && old(self).spec_devices()[i].did@ != did@
                    ==> final(self).spec_prefs()[i] == old(self).spec_prefs()[i],
            forall|i: int|
                0 <= i < old(self).spec_devices().len() && old(self).spec_devices()[i].did@ == did@
                    ==> {
                    &&& final(self).spec_prefs()[i].user_id == old(self).spec_prefs()[i].user_id
                    &&& final(self).spec_prefs()[i].mentions == flags.mentions
                    &&& final(self).spec_prefs()[i].replies == flags.replies
                    &&& final(self).spec_prefs()[i].likes == flags.likes
                    &&& final(self).spec_prefs()[i].follows == flags.follows
                    &&& final(self).spec_prefs()[i].reposts == flags.reposts
                    &&& final(self).spec_prefs()[i].quotes == flags.quotes
                },
    {
        let mut found = false;
        let mut i: usize = 0;
        while i < self.devices.len()
            invariant
                self.wf(),
                0 <= i <= self.devices@.len(),
                self.devices@ == old(self).devices@,
                self.next_id == old(self).next_id,
                self.preferences@.len() == old(self).preferences@.len(),
                found == exists|k: int|
                    0 <= k < i && old(self).devices@[k].did@ == did@,
                forall|k: int|
                    i <= k < old(self).preferences@.len() ==> self.preferences@[k] == old(self).preferences@[k],
                forall|k: int|
                    0 <= k < i && old(self).devices@[k].did@ != did@ ==> self.preferences@[k]
                        == old(self).preferences@[k],
                forall|k: int|
                    0 <= k < i && old(self).devices@[k].did@ == did@ ==> {
                        &&& self.preferences@[k].user_id == old(self).preferences@[k].user_id
                        &&& self.preferences@[k].mentions == flags.mentions
                        &&& self.preferences@[k].replies == flags.replies
                        &&& self.preferences@[k].likes == flags.likes
                        &&& self.preferences@[k].follows == flags.follows
                        &&& self.preferences@[k].reposts == flags.reposts
                        &&& self.preferences@[k].quotes == flags.quotes
                    },
            decreases self.devices@.len() - i,
        {
            if str_eq(self.devices[i].did.as_str(), did) {
                let user_id = self.preferences[i].user_id;
                self.preferences.set(
                    i,
                    NotificationPreference {
                        user_id,
                        mentions: flags.mentions,
                        replies: flags.replies,
                        likes: flags.likes,
                        follows: flags.follows,
                        reposts: flags.reposts,
                        quotes: flags.quotes,
                    },
                );
                found = true;
            }
            i += 1;
        }
        found
    }

    /// All device rows of the actor, in row order.
    pub fn get_user_devices(&self, did: &str) -> (r: Vec<UserDevice>)
        ensures
            r@ == self.spec_devices().filter(|d: UserDevice| d.did@ == did@),
    {
        let ghost pred = |d: UserDevice| d.did@ == did@;
        let mut r: Vec<UserDevice> = Vec::new();
        let mut i: usize = 0;
        proof {
            reveal(Seq::filter);
            assert(self.devices@.take(0int).filter(pred) =~= Seq::<UserDevice>::empty());
        }
        while i < self.devices.len()
            invariant
                0 <= i <= self.devices@.len(),
                r@ == self.devices@.take(i as int).filter(pred),
                pred == (|d: UserDevice| d.did@ == did@),
            decreases self.devices@.len() - i,
        {
            proof {
                reveal(Seq::filter);
                assert(self.devices@.take(i + 1).drop_last() =~= self.devices@.take(i as int));
                assert(self.devices@.take(i + 1).last() == self.devices@[i as int]);
            }
            if str_eq(self.devices[i].did.as_str(), did) {
                r.push(self.devices[i].clone());
            }
            i += 1;
        }
        proof {
            assert(self.devices@.take(self.devices@.len() as int) =~= self.devices@);
        }
        r
    }

    /// Device rows for each of several actors, aligned with the input.
    /// One batch query in storage; here, one filtered view per actor.
    pub fn get_user_devices_batch(&self, dids: &Vec<String>) -> (r: Vec<Vec<UserDevice>>)
        ensures
            r@.len() == dids@.len(),
            forall|i: int|
                0 <= i < dids@.len() ==> #[trigger] r@[i]@ == self.spec_devices().filter(
                    |d: UserDevice| d.did@ == dids@[i]@,
                ),
    {
        let mut r: Vec<Vec<UserDevice>> = Vec::new();
        let mut i: usize = 0;
        while i < dids.len()
            invariant
                0 <= i <= dids@.len(),
                r@.len() == i,
                forall|k: int|
                    0 <= k < i ==> #[trigger] r@[k]@ == self.spec_devices().filter(
                        |d: UserDevice| d.did@ == dids@[k]@,
                    ),
            decreases dids@.len() - i,
        {
            r.push(self.get_user_devices(dids[i].as_str()));
            i += 1;
        }
        r
    }

    /// The distinct actors with at least one registered device.
    pub fn get_registered_users(&self) -> (r: Vec<String>)
        ensures
            forall|j: int|
                0 <= j < r@.len() ==> registered(self.spec_devices(), #[trigger] r@[j]@),
            forall|k: int|
                0 <= k < self.spec_devices().len() ==> did_listed(
                    r@,
                    #[trigger] self.spec_devices()[k].did@,
                ),
            forall|j: int, k: int| 0 <= j < k < r@.len() ==> r@[j]@ != r@[k]@,
    {
        let mut r: Vec<String> = Vec::new();
        let mut i: usize = 0;
        while i < self.devices.len()
            invariant
                0 <= i <= self.devices@.len(),
                forall|j: int|
                    0 <= j < r@.len() ==> registered(self.spec_devices(), #[trigger] r@[j]@),
                forall|k: int|
                    0 <= k < i ==> did_listed(r@, #[trigger] self.spec_devices()[k].did@),
                forall|j: int, k: int| 0 <= j < k < r@.len() ==> r@[j]@ != r@[k]@,
            decreases self.devices@.len() - i,
        {
            let ghost r_before = r@;
            let did = &self.devices[i].did;
            let mut seen = false;
            let mut j: usize = 0;
            while j < r.len()
                invariant
                    0 <= j <= r@.len(),
                    seen == exists|k: int| 0 <= k < j && (#[trigger] r@[k]@) == did@,
                decreases r@.len() - j,
            {
                if str_eq(r[j].as_str(), did.as_str()) {
                    seen = true;
                }
                j += 1;
            }
            if !seen {
                r.push(did.clone());
                proof {
                    assert(r@[r@.len() - 1]@ == self.spec_devices()[i as int].did@);
                    assert(registered(self.spec_devices(), r@[r@.len() - 1]@));
                    assert(forall|j: int| 0 <= j < r_before.len() ==> r@[j] == r_before[j]);
                }
            }
            proof {
                assert forall|k: int|
                    0 <= k < i + 1 implies did_listed(
                    r@,
                    #[trigger] self.spec_devices()[k].did@,
                ) by {
                    if k == i {
                        if seen {
                            assert(did_listed(r@, self.spec_devices()[k].did@));
                        } else {
                            assert(r@[r@.len() - 1]@ == self.spec_devices()[k].did@);
                            assert(did_listed(r@, self.spec_devices()[k].did@));
                        }
                    } else {
                        lemma_did_listed_extend(r_before, r@, self.spec_devices()[k].did@);
                    }
                }
            }
            i += 1;
        }
        r
    }

    /// Whether this (actor, token) pair is a live registration.
    pub fn has_device_registered(&self, did: &str, device_token: &str) -> (r: bool)
        ensures
            r == has_device(self.spec_devices(), did@, device_token@),
    {
        let mut i: usize = 0;
        while i < self.devices.len()
            invariant
                0 <= i <= self.devices@.len(),
                forall|k: int|
                    0 <= k < i ==> !(self.devices@[k].did@ == did@ && self.devices@[
                        k
                    ].device_token@ == device_token@),
            decreases self.devices@.len() - i,
        {
            if str_eq(self.devices[i].did.as_str(), did) && str_eq(
                self.devices[i].device_token.as_str(),
                device_token,
            ) {
                return true;
            }
            i += 1;
        }
        false
    }

    /// Preferences of one device row, by device id.
    pub fn get_notification_preferences(&self, device_id: u64) -> (r: Option<NotificationPreference>)
        requires
            self.wf(),
        ensures
            r is Some <==> exists|i: int|
                0 <= i < self.spec_devices().len() && self.spec_devices()[i].id == device_id,
            r is Some ==> exists|i: int|
                0 <= i < self.spec_devices().len() && self.spec_devices()[i].id == device_id && r
                    == Some(self.spec_prefs()[i]),
    {
        let mut i: usize = 0;
        while i < self.devices.len()
            invariant
                self.wf(),
                0 <= i <= self.devices@.len(),
                forall|k: int| 0 <= k < i ==> self.devices@[k].id != device_id,
            decreases self.devices@.len() - i,
        {
            if self.devices[i].id == device_id {
                return Some(self.preferences[i]);
            }
            i += 1;
        }
        None
    }
}

/// Law: deleting by token removes exactly the row at the token's index;
/// every other device row survives the deletion.
pub proof fn lemma_remove_preserves_others(s: Seq<UserDevice>, i: int, j: int)
    requires
        0 <= i < s.len(),
        0 <= j < s.len(),
        j != i,
    ensures
        s.remove(i).contains(s[j]),
{
    if j < i {
        assert(s.remove(i)[j] == s[j]);
    } else {
        assert(s.remove(i)[j - 1] == s[j]);
    }
}

/// Law: a device token is associated with at most one actor at any
/// instant — two rows holding the same token are the same row.
pub proof fn lemma_token_unique(s: DeviceStore, i: int, j: int)
    requires
        s.wf(),
        0 <= i < s.spec_devices().len(),
        0 <= j < s.spec_devices().len(),
        s.spec_devices()[i].device_token@ == s.spec_devices()[j].device_token@,
    ensures
        i == j,
        s.spec_devices()[i].did@ == s.spec_devices()[j].did@,
{
}

/// Law: a registration that created a row leaves the (actor, token) pair
/// present, so by the register contract a second identical registration
/// is a no-op for the store and reports the pair as already registered.
pub proof fn lemma_created_registration_present(s: Seq<UserDevice>, did: Seq<char>, token: Seq<char>)
    requires
        s.len() > 0,
        s.last().did@ == did,
        s.last().device_token@ == token,
    ensures
        has_device(s, did, token),
        has_token(s, token),
{
    assert(s[s.len() - 1].did@ == did && s[s.len() - 1].device_token@ == token);
}

} // verus!
