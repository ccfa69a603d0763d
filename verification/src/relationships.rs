//! The relationship engine: each user's mute and block sets, with a
//! plaintext table, an optional privacy-preserving hashed mirror kept in
//! lock-step, a bounded TTL cache, and an audit log appended on every
//! mutation. Reads consult the cache first, then the hashed table (when
//! hashing is on), then the plaintext table.

use vstd::prelude::*;

use crate::crypto::{CryptoUtils, spec_hash_did};
use crate::devices::{DeviceStore, has_device};
use crate::strutil::{seq_contains_str, str_eq};

verus! {

/// Authoritative relationship rows of one user. When hashed storage is
/// on, the hashed columns mirror the plaintext ones entry for entry.
pub struct RelationshipRecord {
    pub user_did: String,
    pub mutes: Vec<String>,
    pub blocks: Vec<String>,
    pub mutes_hashed: Vec<String>,
    pub blocks_hashed: Vec<String>,
}

/// One cached relationship set, valid until `expires_at_ms`.
pub struct RelCacheEntry {
    pub user_did: String,
    pub mutes: Vec<String>,
    pub blocks: Vec<String>,
    pub expires_at_ms: u64,
}

/// One audit row, written on every relationship mutation.
pub struct AuditEntry {
    pub user_did: String,
    pub device_token: String,
    pub action: String,
    pub mutes_count: usize,
    pub blocks_count: usize,
    pub used_hashed: bool,
    pub at: i64,
}

/// A relationship write that was refused.
#[derive(Debug, Clone, Copy, PartialEq, Eq, Structural)]
pub enum RelationshipError {
    /// The (actor, device token) pair matches no live registration.
    Unauthorized,
}

/// Some row belongs to this user.
pub open spec fn has_row(t: Seq<RelationshipRecord>, user: Seq<char>) -> bool {
    exists|i: int| 0 <= i < t.len() && t[i].user_did@ == user
}

/// The index of this user's row (unique under the store invariant).
pub open spec fn row_ix(t: Seq<RelationshipRecord>, user: Seq<char>) -> int {
    choose|i: int| 0 <= i < t.len() && t[i].user_did@ == user
}

/// Some cache entry belongs to this user.
pub open spec fn has_cache_entry(c: Seq<RelCacheEntry>, user: Seq<char>) -> bool {
    exists|i: int| 0 <= i < c.len() && c[i].user_did@ == user
}

/// The index of this user's cache entry (unique under the invariant).
pub open spec fn cache_ix(c: Seq<RelCacheEntry>, user: Seq<char>) -> int {
    choose|i: int| 0 <= i < c.len() && c[i].user_did@ == user
}

/// The hashed column mirrors the plaintext column entry for entry.
pub open spec fn hashed_mirror(
    plain: Seq<String>,
    hashed: Seq<String>,
    user: Seq<char>,
    secret: Seq<char>,
) -> bool {
    &&& hashed.len() == plain.len()
    &&& forall|i: int|
        0 <= i < plain.len() ==> (#[trigger] hashed[i])@ == spec_hash_did(plain[i]@, user, secret)
}

/// With users pairwise distinct, the entry index of a user is the one
/// row that carries it.
pub proof fn lemma_cache_ix_unique(c: Seq<RelCacheEntry>, user: Seq<char>, i: int)
    requires
        0 <= i < c.len(),
        c[i].user_did@ == user,
        forall|p: int, q: int| 0 <= p < q < c.len() ==> c[p].user_did@ != c[q].user_did@,
    ensures
        has_cache_entry(c, user),
        cache_ix(c, user) == i,
{
    assert(has_cache_entry(c, user));
    let w = cache_ix(c, user);
    assert(0 <= w < c.len() && c[w].user_did@ == user);
}

/// With users pairwise distinct, the row index of a user is the one row
/// that carries it.
pub proof fn lemma_row_ix_unique(t: Seq<RelationshipRecord>, user: Seq<char>, i: int)
    requires
        0 <= i < t.len(),
        t[i].user_did@ == user,
        forall|p: int, q: int| 0 <= p < q < t.len() ==> t[p].user_did@ != t[q].user_did@,
    ensures
        has_row(t, user),
        row_ix(t, user) == i,
{
    assert(has_row(t, user));
    let w = row_ix(t, user);
    assert(0 <= w < t.len() && t[w].user_did@ == user);
}

/// The table-side invariants carry over unchanged between two states
/// with the same table, secret and hashing mode.
proof fn lemma_table_wf_preserved(a: RelationshipManager, b: RelationshipManager)
    requires
        a.wf(),
        b.spec_table() == a.spec_table(),
        b.spec_secret() == a.spec_secret(),
        b.spec_use_hashed() == a.spec_use_hashed(),
    ensures
        forall|i: int, j: int|
            0 <= i < j < b.spec_table().len() ==> b.spec_table()[i].user_did@
                != b.spec_table()[j].user_did@,
        b.spec_use_hashed() ==> forall|i: int|
            0 <= i < b.spec_table().len() ==> {
                &&& hashed_mirror(
                    (#[trigger] b.spec_table()[i]).mutes@,
                    b.spec_table()[i].mutes_hashed@,
                    b.spec_table()[i].user_did@,
                    b.spec_secret(),
                )
                &&& hashed_mirror(
                    b.spec_table()[i].blocks@,
                    b.spec_table()[i].blocks_hashed@,
                    b.spec_table()[i].user_did@,
                    b.spec_secret(),
                )
            },
{
    assert forall|i: int, j: int|
        0 <= i < j < b.spec_table().len() implies b.spec_table()[i].user_did@
        != b.spec_table()[j].user_did@ by {
        assert(a.spec_table()[i].user_did@ != a.spec_table()[j].user_did@);
    }
    if b.spec_use_hashed() {
        assert forall|i: int| 0 <= i < b.spec_table().len() implies {
            &&& hashed_mirror(
                (#[trigger] b.spec_table()[i]).mutes@,
                b.spec_table()[i].mutes_hashed@,
                b.spec_table()[i].user_did@,
                b.spec_secret(),
            )
            &&& hashed_mirror(
                b.spec_table()[i].blocks@,
                b.spec_table()[i].blocks_hashed@,
                b.spec_table()[i].user_did@,
                b.spec_secret(),
            )
        } by {
            assert(hashed_mirror(
                (a.spec_table()[i]).mutes@,
                a.spec_table()[i].mutes_hashed@,
                a.spec_table()[i].user_did@,
                a.spec_secret(),
            ));
            assert(hashed_mirror(
                a.spec_table()[i].blocks@,
                a.spec_table()[i].blocks_hashed@,
                a.spec_table()[i].user_did@,
                a.spec_secret(),
            ));
        }
    }
}

/// An element-for-element copy of a list of strings.
fn clone_string_vec(v: &Vec<String>) -> (r: Vec<String>)
    ensures
        r@ == v@,
{
    let mut r: Vec<String> = Vec::new();
    let mut i: usize = 0;
    while i < v.len()
        invariant
            0 <= i <= v@.len(),
            r@.len() == i,
            forall|k: int| 0 <= k < i ==> r@[k] == v@[k],
        decreases v@.len() - i,
    {
        r.push(v[i].clone());
        i += 1;
    }
    proof {
        assert(r@ =~= v@);
    }
    r
}

/// Mutes and blocks of users, with cache, hashed mirror and audit log.
pub struct RelationshipManager {
    crypto: CryptoUtils,
    use_hashed_storage: bool,
    table: Vec<RelationshipRecord>,
    cache: Vec<RelCacheEntry>,
    audit_log: Vec<AuditEntry>,
    cache_capacity: usize,
    cache_ttl_ms: u64,
}

impl RelationshipManager {
    pub closed spec fn spec_table(&self) -> Seq<RelationshipRecord> {
        self.table@
    }

    pub closed spec fn spec_cache(&self) -> Seq<RelCacheEntry> {
        self.cache@
    }

    pub closed spec fn spec_audit(&self) -> Seq<AuditEntry> {
        self.audit_log@
    }

    pub closed spec fn spec_secret(&self) -> Seq<char> {
        self.crypto.server_secret@
    }

    pub closed spec fn spec_use_hashed(&self) -> bool {
        self.use_hashed_storage
    }

    pub closed spec fn spec_cache_capacity(&self) -> usize {
        self.cache_capacity
    }

    pub closed spec fn spec_cache_ttl_ms(&self) -> u64 {
        self.cache_ttl_ms
    }

    /// Store invariant: one row and at most one cache entry per user, the
    /// cache stays within its bound, and (when hashing is on) every row's
    /// hashed columns mirror its plaintext columns.
    pub open spec fn wf(&self) -> bool {
        &&& forall|i: int, j: int|
            0 <= i < j < self.spec_table().len() ==> self.spec_table()[i].user_did@
                != self.spec_table()[j].user_did@
        &&& forall|i: int, j: int|
            0 <= i < j < self.spec_cache().len() ==> self.spec_cache()[i].user_did@
                != self.spec_cache()[j].user_did@
        &&& self.spec_cache().len() <= self.spec_cache_capacity()
        &&& self.spec_cache_capacity() >= 1
        &&& (self.spec_use_hashed() ==> forall|i: int|
            0 <= i < self.spec_table().len() ==> {
                &&& hashed_mirror(
                    (#[trigger] self.spec_table()[i]).mutes@,
                    self.spec_table()[i].mutes_hashed@,
                    self.spec_table()[i].user_did@,
                    self.spec_secret(),
                )
                &&& hashed_mirror(
                    self.spec_table()[i].blocks@,
                    self.spec_table()[i].blocks_hashed@,
                    self.spec_table()[i].user_did@,
                    self.spec_secret(),
                )
            })
    }

    /// What a mute lookup returns: the cached set when a live cache entry
    /// exists; otherwise the hashed table (when hashing is on) — the
    /// stored hash of the target under the user's salt; otherwise the
    /// plaintext table.
    pub open spec fn spec_is_muted(&self, user: Seq<char>, target: Seq<char>, now_ms: u64) -> bool {
        if has_cache_entry(self.spec_cache(), user) && now_ms < self.spec_cache()[cache_ix(
            self.spec_cache(),
            user,
        )].expires_at_ms {
            seq_contains_str(self.spec_cache()[cache_ix(self.spec_cache(), user)].mutes@, target)
        } else if self.spec_use_hashed() {
            has_row(self.spec_table(), user) && seq_contains_str(
                self.spec_table()[row_ix(self.spec_table(), user)].mutes_hashed@,
                spec_hash_did(target, user, self.spec_secret()),
            )
        } else {
            has_row(self.spec_table(), user) && seq_contains_str(
                self.spec_table()[row_ix(self.spec_table(), user)].mutes@,
                target,
            )
        }
    }

    /// Same shape as `spec_is_muted`, over the block sets.
    pub open spec fn spec_is_blocked(&self, user: Seq<char>, target: Seq<char>, now_ms: u64) -> bool {
        if has_cache_entry(self.spec_cache(), user) && now_ms < self.spec_cache()[cache_ix(
            self.spec_cache(),
            user,
        )].expires_at_ms {
            seq_contains_str(self.spec_cache()[cache_ix(self.spec_cache(), user)].blocks@, target)
        } else if self.spec_use_hashed() {
            has_row(self.spec_table(), user) && seq_contains_str(
                self.spec_table()[row_ix(self.spec_table(), user)].blocks_hashed@,
                spec_hash_did(target, user, self.spec_secret()),
            )
        } else {
            has_row(self.spec_table(), user) && seq_contains_str(
                self.spec_table()[row_ix(self.spec_table(), user)].blocks@,
                target,
            )
        }
    }

    /// A fresh manager with the default cache bound and TTL of the
    /// relationship cache (10 000 entries, one hour).
    pub fn new(crypto: CryptoUtils, use_hashed_storage: bool) -> (r: Self)
        ensures
            r.wf(),
            r.spec_table().len() == 0,
            r.spec_cache().len() == 0,
            r.spec_audit().len() == 0,
            r.spec_use_hashed() == use_hashed_storage,
            r.spec_secret() == crypto.server_secret@,
            r.spec_cache_capacity() == 10000,
            r.spec_cache_ttl_ms() == 3600000,
    {
        RelationshipManager {
            crypto,
            use_hashed_storage,
            table: Vec::new(),
            cache: Vec::new(),
            audit_log: Vec::new(),
            cache_capacity: 10000,
            cache_ttl_ms: 3600000,
        }
    }

    /// Index of the user's cache entry.
    fn find_cache(&self, user_did: &str) -> (r: Option<usize>)
        requires
            self.wf(),
        ensures
            match r {
                Some(i) => 0 <= i < self.spec_cache().len() && self.spec_cache()[i as int].user_did@
                    == user_did@ && i as int == cache_ix(self.spec_cache(), user_did@),
                None => !has_cache_entry(self.spec_cache(), user_did@),
            },
    {
        let mut i: usize = 0;
        while i < self.cache.len()
            invariant
                self.wf(),
                0 <= i <= self.cache@.len(),
                forall|k: int| 0 <= k < i ==> self.cache@[k].user_did@ != user_did@,
            decreases self.cache@.len() - i,
        {
            if str_eq(self.cache[i].user_did.as_str(), user_did) {
                proof {
                    let c = choose|k: int|
                        0 <= k < self.spec_cache().len() && self.spec_cache()[k].user_did@
                            == user_did@;
                    assert(c == i as int);
                }
                return Some(i);
            }
            i += 1;
        }
        None
    }

    /// Index of the user's table row.
    fn find_row(&self, user_did: &str) -> (r: Option<usize>)
        requires
            self.wf(),
        ensures
            match r {
                Some(i) => 0 <= i < self.spec_table().len() && self.spec_table()[i as int].user_did@
                    == user_did@ && i as int == row_ix(self.spec_table(), user_did@),
                None => !has_row(self.spec_table(), user_did@),
            },
    {
        let mut i: usize = 0;
        while i < self.table.len()
            invariant
                self.wf(),
                0 <= i <= self.table@.len(),
                forall|k: int| 0 <= k < i ==> self.table@[k].user_did@ != user_did@,
            decreases self.table@.len() - i,
        {
            if str_eq(self.table[i].user_did.as_str(), user_did) {
                proof {
                    let c = choose|k: int|
                        0 <= k < self.spec_table().len() && self.spec_table()[k].user_did@
                            == user_did@;
                    assert(c == i as int);
                }
                return Some(i);
            }
            i += 1;
        }
        None
    }

    /// Whether the list holds the target.
    fn list_contains(list: &Vec<String>, target: &str) -> (r: bool)
        ensures
            r == seq_contains_str(list@, target@),
    {
        let mut i: usize = 0;
        while i < list.len()
            invariant
                0 <= i <= list@.len(),
                forall|k: int| 0 <= k < i ==> list@[k]@ != target@,
            decreases list@.len() - i,
        {
            if str_eq(list[i].as_str(), target) {
                return true;
            }
            i += 1;
        }
        false
    }

    /// Whether the user has muted the target: the cache when live, else
    /// the hashed table (hash comparison under the user's salt), else the
    /// plaintext table.
    pub fn is_muted(&self, user_did: &str, target_did: &str, now_ms: u64) -> (r: bool)
        requires
            self.wf(),
        ensures
            r == self.spec_is_muted(user_did@, target_did@, now_ms),
    {
        match self.find_cache(user_did) {
            Some(i) if now_ms < self.cache[i].expires_at_ms => {
                return Self::list_contains(&self.cache[i].mutes, target_did);
            },
            _ => {},
        }
        if self.use_hashed_storage {
            let target_hash = self.crypto.hash_did(target_did, user_did);
            match self.find_row(user_did) {
                Some(i) => Self::list_contains(&self.table[i].mutes_hashed, target_hash.as_str()),
                None => false,
            }
        } else {
            match self.find_row(user_did) {
                Some(i) => Self::list_contains(&self.table[i].mutes, target_did),
                None => false,
            }
        }
    }

    /// Replace or create the user's cache entry. A full cache evicts its
    /// oldest entry; entries of other users are never rewritten.
    fn cache_insert(&mut self, user_did: &str, mutes: Vec<String>, blocks: Vec<String>, expires_at_ms: u64)
        requires
            old(self).wf(),
        ensures
            final(self).wf(),
            final(self).spec_table() == old(self).spec_table(),
            final(self).spec_audit() == old(self).spec_audit(),
            final(self).spec_use_hashed() == old(self).spec_use_hashed(),
            final(self).spec_secret() == old(self).spec_secret(),
            final(self).spec_cache_capacity() == old(self).spec_cache_capacity(),
            final(self).spec_cache_ttl_ms() == old(self).spec_cache_ttl_ms(),
            has_cache_entry(final(self).spec_cache(), user_did@),
            ({
                let e = final(self).spec_cache()[cache_ix(final(self).spec_cache(), user_did@)];
                e.user_did@ == user_did@ && e.mutes@ == mutes@ && e.blocks@ == blocks@
                    && e.expires_at_ms == expires_at_ms
            }),
            has_cache_entry(old(self).spec_cache(), user_did@) ==> {
                &&& final(self).spec_cache().len() == old(self).spec_cache().len()
                &&& forall|k: int|
                    0 <= k < old(self).spec_cache().len() && k != cache_ix(
                        old(self).spec_cache(),
                        user_did@,
                    ) ==> final(self).spec_cache()[k] == old(self).spec_cache()[k]
            },
            !has_cache_entry(old(self).spec_cache(), user_did@) && old(self).spec_cache().len()
                < old(self).spec_cache_capacity() ==> {
                &&& final(self).spec_cache().len() == old(self).spec_cache().len() + 1
                &&& forall|k: int|
                    0 <= k < old(self).spec_cache().len() ==> final(self).spec_cache()[k] == old(
                        self,
                    ).spec_cache()[k]
            },
            !has_cache_entry(old(self).spec_cache(), user_did@) && old(self).spec_cache().len()
                >= old(self).spec_cache_capacity() ==> {
                &&& final(self).spec_cache().len() == old(self).spec_cache().len()
                &&& forall|k: int|
                    0 <= k < old(self).spec_cache().len() - 1 ==> final(self).spec_cache()[k]
                        == old(self).spec_cache()[k + 1]
            },
    {
        let entry = RelCacheEntry { user_did: user_did.to_owned(), mutes, blocks, expires_at_ms };
        match self.find_cache(user_did) {
            Some(i) => {
                proof {
                    lemma_cache_ix_unique(old(self).spec_cache(), user_did@, i as int);
                }
                self.cache.set(i, entry);
                proof {
                    assert(self.spec_cache()[i as int].user_did@ == user_did@);
                    lemma_cache_ix_unique(self.spec_cache(), user_did@, i as int);
                }
            },
            None => {
                if self.cache.len() >= self.cache_capacity {
                    self.cache.remove(0);
                    proof {
                        assert forall|k: int|
                            0 <= k < self.spec_cache().len() implies self.spec_cache()[k]
                            == old(self).spec_cache()[k + 1] by {}
                    }
                }
                self.cache.push(entry);
                proof {
                    let n = self.spec_cache().len() - 1;
                    assert(self.spec_cache()[n].user_did@ == user_did@);
                    assert forall|p: int, q: int|
                        0 <= p < q < self.spec_cache().len() implies self.spec_cache()[p].user_did@
                        != self.spec_cache()[q].user_did@ by {
                        if q == n {
                            assert(has_cache_entry(old(self).spec_cache(), self.spec_cache()[p].user_did@));
                        }
                    }
                    lemma_cache_ix_unique(self.spec_cache(), user_did@, n);
                }
            },
        }
        proof {
            lemma_table_wf_preserved(*old(self), *self);
        }
    }

    /// Apply one relationship batch: authenticate the device, rewrite the
    /// user's plaintext sets (and, with hashing on, their hashed mirrors,
    /// in lock-step), append one audit row, and refresh the cache entry so
    /// readers see the new sets at once.
    pub fn update_relationships_batch(
        &mut self,
        user_did: &str,
        device_token: &str,
        mutes: Vec<String>,
        blocks: Vec<String>,
        devices: &DeviceStore,
        now_ms: u64,
        at: i64,
    ) -> (r: Result<(), RelationshipError>)
        requires
            old(self).wf(),
            now_ms + old(self).spec_cache_ttl_ms() <= u64::MAX,
        ensures
            final(self).wf(),
            r is Err <==> !has_device(devices.spec_devices(), user_did@, device_token@),
            r is Err ==> *final(self) == *old(self),
            r is Ok ==> {
                &&& has_row(final(self).spec_table(), user_did@)
                &&& ({
                    let row = final(self).spec_table()[row_ix(final(self).spec_table(), user_did@)];
                    &&& row.user_did@ == user_did@
                    &&& row.mutes@ == mutes@
                    &&& row.blocks@ == blocks@
                    &&& (final(self).spec_use_hashed() ==> hashed_mirror(
                        mutes@,
                        row.mutes_hashed@,
                        user_did@,
                        final(self).spec_secret(),
                    ) && hashed_mirror(
                        blocks@,
                        row.blocks_hashed@,
                        user_did@,
                        final(self).spec_secret(),
                    ))
                })
                &&& (has_row(old(self).spec_table(), user_did@) ==> {
                    &&& final(self).spec_table().len() == old(self).spec_table().len()
                    &&& forall|k: int|
                        0 <= k < old(self).spec_table().len() && k != row_ix(
                            old(self).spec_table(),
                            user_did@,
                        ) ==> final(self).spec_table()[k] == old(self).spec_table()[k]
                })
                &&& (!has_row(old(self).spec_table(), user_did@) ==> {
                    &&& final(self).spec_table().len() == old(self).spec_table().len() + 1
                    &&& forall|k: int|
                        0 <= k < old(self).spec_table().len() ==> final(self).spec_table()[k]
                            == old(self).spec_table()[k]
                })
                &&& has_cache_entry(final(self).spec_cache(), user_did@)
                &&& ({
                    let e = final(self).spec_cache()[cache_ix(final(self).spec_cache(), user_did@)];
                    &&& e.mutes@ == mutes@
                    &&& e.blocks@ == blocks@
                    &&& e.expires_at_ms == now_ms + old(self).spec_cache_ttl_ms()
                })
                &&& final(self).spec_audit().len() == old(self).spec_audit().len() + 1
                &&& forall|k: int|
                    0 <= k < old(self).spec_audit().len() ==> final(self).spec_audit()[k] == old(
                        self,
                    ).spec_audit()[k]
                &&& ({
                    let a = final(self).spec_audit().last();
                    &&& a.user_did@ == user_did@
                    &&& a.device_token@ == device_token@
                    &&& a.action@ == "update_relationships_batch"@
                    &&& a.mutes_count == mutes@.len()
                    &&& a.blocks_count == blocks@.len()
                    &&& a.used_hashed == old(self).spec_use_hashed()
                    &&& a.at == at
                })
            },
            final(self).spec_use_hashed() == old(self).spec_use_hashed(),
            final(self).spec_secret() == old(self).spec_secret(),
            final(self).spec_cache_ttl_ms() == old(self).spec_cache_ttl_ms(),
            final(self).spec_cache_capacity() == old(self).spec_cache_capacity(),
    {
        if !devices.has_device_registered(user_did, device_token) {
            return Err(RelationshipError::Unauthorized);
        }
        let mutes_count = mutes.len();
        let blocks_count = blocks.len();
        let mut mutes_hashed: Vec<String> = Vec::new();
        let mut blocks_hashed: Vec<String> = Vec::new();
        if self.use_hashed_storage {
            mutes_hashed = self.crypto.hash_dids_batch(&mutes, user_did);
            blocks_hashed = self.crypto.hash_dids_batch(&blocks, user_did);
        }
        let cache_mutes = clone_string_vec(&mutes);
        let cache_blocks = clone_string_vec(&blocks);
        let row = RelationshipRecord {
            user_did: user_did.to_owned(),
            mutes,
            blocks,
            mutes_hashed,
            blocks_hashed,
        };
        match self.find_row(user_did) {
            Some(i) => {
                proof {
                    lemma_row_ix_unique(old(self).spec_table(), user_did@, i as int);
                }
                self.table.set(i, row);
                proof {
                    assert(self.spec_table()[i as int].user_did@ == user_did@);
                    lemma_row_ix_unique(self.spec_table(), user_did@, i as int);
                }
            },
            None => {
                self.table.push(row);
                proof {
                    let n = self.spec_table().len() - 1;
                    assert(self.spec_table()[n].user_did@ == user_did@);
                    assert forall|p: int, q: int|
                        0 <= p < q < self.spec_table().len() implies self.spec_table()[p].user_did@
                        != self.spec_table()[q].user_did@ by {
                        if q == n {
                            assert(has_row(old(self).spec_table(), self.spec_table()[p].user_did@));
                        }
                    }
                    lemma_row_ix_unique(self.spec_table(), user_did@, n);
                }
            },
        }
        self.audit_log.push(
            AuditEntry {
                user_did: user_did.to_owned(),
                device_token: device_token.to_owned(),
                action: "update_relationships_batch".to_owned(),
                mutes_count,
                blocks_count,
                used_hashed: self.use_hashed_storage,
                at,
            },
        );
        let expires = now_ms + self.cache_ttl_ms;
        self.cache_insert(user_did, cache_mutes, cache_blocks, expires);
        Ok(())
    }

    /// Drop the user's cache entry, if any; storage is untouched.
    pub fn invalidate_cache(&mut self, user_did: &str)
        requires
            old(self).wf(),
        ensures
            final(self).wf(),
            !has_cache_entry(final(self).spec_cache(), user_did@),
            final(self).spec_table() == old(self).spec_table(),
            final(self).spec_audit() == old(self).spec_audit(),
            final(self).spec_use_hashed() == old(self).spec_use_hashed(),
            final(self).spec_secret() == old(self).spec_secret(),
            final(self).spec_cache_ttl_ms() == old(self).spec_cache_ttl_ms(),
            final(self).spec_cache_capacity() == old(self).spec_cache_capacity(),
            !has_cache_entry(old(self).spec_cache(), user_did@) ==> *final(self) == *old(self),
            has_cache_entry(old(self).spec_cache(), user_did@) ==> final(self).spec_cache() == old(
                self,
            ).spec_cache().remove(cache_ix(old(self).spec_cache(), user_did@)),
    {
        match self.find_cache(user_did) {
            Some(i) => {
                self.cache.remove(i);
                proof {
                    assert forall|k: int|
                        0 <= k < self.spec_cache().len() implies self.spec_cache()[k].user_did@
                        != user_did@ by {
                        if k < i {
                            assert(self.spec_cache()[k] == old(self).spec_cache()[k]);
                        } else {
                            assert(self.spec_cache()[k] == old(self).spec_cache()[k + 1]);
                        }
                    }
                }
            },
            None => {},
        }
        proof {
            lemma_table_wf_preserved(*old(self), *self);
        }
    }

    /// Reload every stored user's sets into the cache. When cache room
    /// allows (as it does at the default bound), every user with a row
    /// ends up with a fresh cache entry mirroring the plaintext table.
    pub fn run_cache_maintenance(&mut self, now_ms: u64)
        requires
            old(self).wf(),
            now_ms + old(self).spec_cache_ttl_ms() <= u64::MAX,
        ensures
            final(self).wf(),
            final(self).spec_table() == old(self).spec_table(),
            final(self).spec_audit() == old(self).spec_audit(),
            final(self).spec_use_hashed() == old(self).spec_use_hashed(),
            final(self).spec_secret() == old(self).spec_secret(),
            final(self).spec_cache_ttl_ms() == old(self).spec_cache_ttl_ms(),
            final(self).spec_cache_capacity() == old(self).spec_cache_capacity(),
            old(self).spec_table().len() + old(self).spec_cache().len() <= old(
                self,
            ).spec_cache_capacity() ==> forall|k: int|
                0 <= k < old(self).spec_table().len() ==> {
                    let u = (#[trigger] old(self).spec_table()[k]).user_did@;
                    &&& has_cache_entry(final(self).spec_cache(), u)
                    &&& final(self).spec_cache()[cache_ix(final(self).spec_cache(), u)].mutes@
                        == old(self).spec_table()[k].mutes@
                    &&& final(self).spec_cache()[cache_ix(final(self).spec_cache(), u)].blocks@
                        == old(self).spec_table()[k].blocks@
                    &&& final(self).spec_cache()[cache_ix(final(self).spec_cache(), u)].expires_at_ms
                        == now_ms + old(self).spec_cache_ttl_ms()
                },
    {
        let ghost roomy = old(self).spec_table().len() + old(self).spec_cache().len() <= old(
            self,
        ).spec_cache_capacity();
        let expires = now_ms + self.cache_ttl_ms;
        let mut i: usize = 0;
        while i < self.table.len()
            invariant
                self.wf(),
                0 <= i <= self.table@.len(),
                self.spec_table() == old(self).spec_table(),
                self.spec_audit() == old(self).spec_audit(),
                self.spec_use_hashed() == old(self).spec_use_hashed(),
                self.spec_secret() == old(self).spec_secret(),
                self.spec_cache_ttl_ms() == old(self).spec_cache_ttl_ms(),
                self.spec_cache_capacity() == old(self).spec_cache_capacity(),
                expires == now_ms + old(self).spec_cache_ttl_ms(),
                roomy == (old(self).spec_table().len() + old(self).spec_cache().len() <= old(
                    self,
                ).spec_cache_capacity()),
                roomy ==> self.spec_cache().len() <= old(self).spec_cache().len() + i,
                roomy ==> forall|k: int|
                    0 <= k < i ==> {
                        let u = (#[trigger] old(self).spec_table()[k]).user_did@;
                        &&& has_cache_entry(self.spec_cache(), u)
                        &&& self.spec_cache()[cache_ix(self.spec_cache(), u)].mutes@ == old(
                            self,
                        ).spec_table()[k].mutes@
                        &&& self.spec_cache()[cache_ix(self.spec_cache(), u)].blocks@ == old(
                            self,
                        ).spec_table()[k].blocks@
                        &&& self.spec_cache()[cache_ix(self.spec_cache(), u)].expires_at_ms
                            == expires
                    },
            decreases self.table@.len() - i,
        {
            let user = self.table[i].user_did.clone();
            let m = clone_string_vec(&self.table[i].mutes);
            let b = clone_string_vec(&self.table[i].blocks);
            let ghost cache_before = self.spec_cache();
            self.cache_insert(user.as_str(), m, b, expires);
            proof {
                if roomy {
                    assert forall|k: int| 0 <= k < i + 1 implies {
                        let u = (#[trigger] old(self).spec_table()[k]).user_did@;
                        &&& has_cache_entry(self.spec_cache(), u)
                        &&& self.spec_cache()[cache_ix(self.spec_cache(), u)].mutes@ == old(
                            self,
                        ).spec_table()[k].mutes@
                        &&& self.spec_cache()[cache_ix(self.spec_cache(), u)].blocks@ == old(
                            self,
                        ).spec_table()[k].blocks@
                        &&& self.spec_cache()[cache_ix(self.spec_cache(), u)].expires_at_ms
                            == expires
                    } by {
                        let u = old(self).spec_table()[k].user_did@;
                        if k < i {
                            assert(has_cache_entry(cache_before, u));
                            let w = cache_ix(cache_before, u);
                            assert(cache_before[w].user_did@ == u);
                            assert(u != user@);
                            if has_cache_entry(cache_before, user@) {
                                assert(self.spec_cache()[w] == cache_before[w]);
                            } else {
                                assert(self.spec_cache()[w] == cache_before[w]);
                            }
                            let c = cache_ix(self.spec_cache(), u);
                            assert(self.spec_cache()[w].user_did@ == u);
                            assert(has_cache_entry(self.spec_cache(), u));
                            assert(self.spec_cache()[c].user_did@ == u);
                            assert(c == w);
                        } else {
                            assert(u == user@);
                        }
                    }
                }
            }
            i += 1;
        }
    }

    /// Whether the user has blocked the target; same tiers as `is_muted`.
    pub fn is_blocked(&self, user_did: &str, target_did: &str, now_ms: u64) -> (r: bool)
        requires
            self.wf(),
        ensures
            r == self.spec_is_blocked(user_did@, target_did@, now_ms),
    {
        match self.find_cache(user_did) {
            Some(i) if now_ms < self.cache[i].expires_at_ms => {
                return Self::list_contains(&self.cache[i].blocks, target_did);
            },
            _ => {},
        }
        if self.use_hashed_storage {
            let target_hash = self.crypto.hash_did(target_did, user_did);
            match self.find_row(user_did) {
                Some(i) => Self::list_contains(&self.table[i].blocks_hashed, target_hash.as_str()),
                None => false,
            }
        } else {
            match self.find_row(user_did) {
                Some(i) => Self::list_contains(&self.table[i].blocks, target_did),
                None => false,
            }
        }
    }
}

/// Law: a successful relationship write is visible to readers until the
/// cache entry it installed expires. `update_relationships_batch` leaves
/// a cache entry holding exactly the written sets; any `is_muted` /
/// `is_blocked` read before that entry's expiry answers membership in the
/// new sets, nothing else.
pub proof fn lemma_write_read_back(
    m: RelationshipManager,
    user: Seq<char>,
    target: Seq<char>,
    mutes: Seq<String>,
    blocks: Seq<String>,
    expires_at_ms: u64,
    read_ms: u64,
)
    requires
        m.wf(),
        has_cache_entry(m.spec_cache(), user),
        m.spec_cache()[cache_ix(m.spec_cache(), user)].mutes@ == mutes,
        m.spec_cache()[cache_ix(m.spec_cache(), user)].blocks@ == blocks,
        m.spec_cache()[cache_ix(m.spec_cache(), user)].expires_at_ms == expires_at_ms,
        read_ms < expires_at_ms,
    ensures
        m.spec_is_muted(user, target, read_ms) == seq_contains_str(mutes, target),
        m.spec_is_blocked(user, target, read_ms) == seq_contains_str(blocks, target),
{
}

/// Law: submitting an identical batch twice is idempotent for the stored
/// sets and the derived cache. Two states that each satisfy the write's
/// contract for the same user and sets hold the same plaintext sets, the
/// same hashed mirrors, and cache entries with the same contents.
pub proof fn lemma_batch_idempotent(
    m1: RelationshipManager,
    m2: RelationshipManager,
    user: Seq<char>,
    mutes: Seq<String>,
    blocks: Seq<String>,
)
    requires
        m1.wf(),
        m2.wf(),
        m1.spec_use_hashed() == m2.spec_use_hashed(),
        m1.spec_secret() == m2.spec_secret(),
        has_row(m1.spec_table(), user),
        has_row(m2.spec_table(), user),
        m1.spec_table()[row_ix(m1.spec_table(), user)].mutes@ == mutes,
        m2.spec_table()[row_ix(m2.spec_table(), user)].mutes@ == mutes,
        m1.spec_table()[row_ix(m1.spec_table(), user)].blocks@ == blocks,
        m2.spec_table()[row_ix(m2.spec_table(), user)].blocks@ == blocks,
        has_cache_entry(m1.spec_cache(), user),
        has_cache_entry(m2.spec_cache(), user),
        m1.spec_cache()[cache_ix(m1.spec_cache(), user)].mutes@ == mutes,
        m2.spec_cache()[cache_ix(m2.spec_cache(), user)].mutes@ == mutes,
        m1.spec_cache()[cache_ix(m1.spec_cache(), user)].blocks@ == blocks,
        m2.spec_cache()[cache_ix(m2.spec_cache(), user)].blocks@ == blocks,
    ensures
        ({
            let r1 = m1.spec_table()[row_ix(m1.spec_table(), user)];
            let r2 = m2.spec_table()[row_ix(m2.spec_table(), user)];
            r1.mutes@ == r2.mutes@ && r1.blocks@ == r2.blocks@
        }),
        ({
            let e1 = m1.spec_cache()[cache_ix(m1.spec_cache(), user)];
            let e2 = m2.spec_cache()[cache_ix(m2.spec_cache(), user)];
            e1.mutes@ == e2.mutes@ && e1.blocks@ == e2.blocks@
        }),
        m1.spec_use_hashed() ==> {
            let r1 = m1.spec_table()[row_ix(m1.spec_table(), user)];
            let r2 = m2.spec_table()[row_ix(m2.spec_table(), user)];
            hashed_mirror(mutes, r1.mutes_hashed@, user, m1.spec_secret()) && hashed_mirror(
                mutes,
                r2.mutes_hashed@,
                user,
                m2.spec_secret(),
            ) ==> r1.mutes_hashed@.len() == r2.mutes_hashed@.len() && forall|i: int|
                0 <= i < r1.mutes_hashed@.len() ==> (#[trigger] r1.mutes_hashed@[i])@
                    == r2.mutes_hashed@[i]@
        },
{
}

/// Law: with hashed storage on, a target stored in the user's plaintext
/// mute set is always found by the hashed lookup — the mirror holds the
/// target's salted digest, which the lookup compares against. (Only this
/// direction is claimed: nothing here rules out two distinct targets
/// sharing a digest.)
pub proof fn lemma_hashed_lookup_finds_members(
    m: RelationshipManager,
    user: Seq<char>,
    target: Seq<char>,
    now_ms: u64,
)
    requires
        m.wf(),
        m.spec_use_hashed(),
        !(has_cache_entry(m.spec_cache(), user) && now_ms < m.spec_cache()[cache_ix(
            m.spec_cache(),
            user,
        )].expires_at_ms),
        has_row(m.spec_table(), user),
        seq_contains_str(m.spec_table()[row_ix(m.spec_table(), user)].mutes@, target),
    ensures
        m.spec_is_muted(user, target, now_ms),
{
    let row = m.spec_table()[row_ix(m.spec_table(), user)];
    assert(0 <= row_ix(m.spec_table(), user) < m.spec_table().len() && row.user_did@ == user);
    assert(hashed_mirror(row.mutes@, row.mutes_hashed@, row.user_did@, m.spec_secret()));
    let i = choose|i: int| 0 <= i < row.mutes@.len() && (#[trigger] row.mutes@[i])@ == target;
    assert(row.mutes_hashed@[i]@ == spec_hash_did(target, user, m.spec_secret()));
    assert(seq_contains_str(
        row.mutes_hashed@,
        spec_hash_did(target, user, m.spec_secret()),
    ));
}

} // verus!
