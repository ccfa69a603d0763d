//! The handle resolver: actor identifier → human-readable handle behind
//! a two-tier TTL cache. The network fetch of an identifier's document
//! is done by the embedding program; URL construction, handle extraction
//! from the document, the cache tiers, and the fallback handle are
//! verified here.

use vstd::prelude::*;

use crate::strutil::{
    contains_seq, first_occ, last_ix, lemma_first_occ_is, starts_with_seq, str_eq, str_starts_with,
};

verus! {

use vstd::string::StrSliceExecFns;
use vstd::string::StringExecFns;

/// A simplified identifier document: the names the actor is also known
/// as, and its service endpoints.
#[derive(Debug, PartialEq)]
pub struct DidDocument {
    pub id: String,
    pub also_known_as: Option<Vec<String>>,
    pub service: Option<Vec<Service>>,
}

/// One service endpoint of an identifier document.
#[derive(Debug, PartialEq)]
pub struct Service {
    pub id: String,
    pub service_type: String,
    pub service_endpoint: String,
}

impl Clone for Service {
    fn clone(&self) -> (res: Self)
        ensures
            res == *self,
    {
        Service {
            id: self.id.clone(),
            service_type: self.service_type.clone(),
            service_endpoint: self.service_endpoint.clone(),
        }
    }
}

impl Clone for DidDocument {
    fn clone(&self) -> (res: Self)
        ensures
            res.id == self.id,
            res.also_known_as is Some <==> self.also_known_as is Some,
            res.also_known_as is Some ==> res.also_known_as->0@ == self.also_known_as->0@,
            res.service is Some <==> self.service is Some,
            res.service is Some ==> res.service->0@ == self.service->0@,
    {
        let also_known_as = match &self.also_known_as {
            Some(aka) => {
                let mut c: Vec<String> = Vec::new();
                let mut i: usize = 0;
                while i < aka.len()
                    invariant
                        0 <= i <= aka@.len(),
                        c@.len() == i,
                        forall|k: int| 0 <= k < i ==> c@[k] == aka@[k],
                    decreases aka@.len() - i,
                {
                    c.push(aka[i].clone());
                    i += 1;
                }
                proof {
                    assert(c@ =~= aka@);
                }
                Some(c)
            },
            None => None,
        };
        let service = match &self.service {
            Some(svc) => {
                let mut c: Vec<Service> = Vec::new();
                let mut i: usize = 0;
                while i < svc.len()
                    invariant
                        0 <= i <= svc@.len(),
                        c@.len() == i,
                        forall|k: int| 0 <= k < i ==> c@[k] == svc@[k],
                    decreases svc@.len() - i,
                {
                    c.push(svc[i].clone());
                    i += 1;
                }
                proof {
                    assert(c@ =~= svc@);
                }
                Some(c)
            },
            None => None,
        };
        DidDocument { id: self.id.clone(), also_known_as, service }
    }
}

/// The fallback handle for an unresolvable identifier: `user_` plus up
/// to eight characters of the identifier's last colon-separated segment.
pub open spec fn spec_fallback_handle(did: Seq<char>) -> Seq<char> {
    let last = did.subrange(last_ix(did, ':') + 1, did.len() as int);
    if last.len() > 8 {
        "user_"@ + last.subrange(0, 8)
    } else {
        "user_"@ + last
    }
}

/// Build the fallback handle from an identifier.
pub fn did_to_fallback_handle(did: &str) -> (r: String)
    ensures
        r@ == spec_fallback_handle(did@),
{
    let last_part = crate::strutil::suffix_after_last(did, ':');
    let mut s = "user_".to_owned();
    if last_part.as_str().unicode_len() > 8 {
        let head = last_part.as_str().substring_char(0, 8);
        s.append(head);
        proof {
            assert(s@ =~= spec_fallback_handle(did@));
        }
    } else {
        s.append(last_part.as_str());
        proof {
            assert(s@ =~= spec_fallback_handle(did@));
        }
    }
    s
}

/// The part of a name between its first `/profile/` and the next one (or
/// its end): the handle of a profile URL.
pub open spec fn spec_profile_part(name: Seq<char>) -> Seq<char> {
    let pat = "/profile/"@;
    let rest = name.subrange(first_occ(name, pat) + pat.len(), name.len() as int);
    if contains_seq(rest, pat) {
        rest.subrange(0, first_occ(rest, pat))
    } else {
        rest
    }
}

/// The handle named by a document's known-as list: the first entry with
/// an `at://` prefix, stripped; else the profile part of the first entry
/// holding `/profile/`; else the fallback handle.
pub open spec fn spec_extract_handle(aka: Seq<String>, fallback: Seq<char>) -> Seq<char>
    decreases aka.len(),
{
    if aka.len() == 0 {
        fallback
    } else {
        let name = aka[0]@;
        if starts_with_seq(name, "at://"@) {
            name.subrange("at://"@.len() as int, name.len() as int)
        } else if contains_seq(name, "/profile/"@) {
            spec_profile_part(name)
        } else {
            spec_extract_handle(aka.drop_first(), fallback)
        }
    }
}

/// The handle a document resolves to.
pub open spec fn spec_document_handle(doc: DidDocument) -> Seq<char> {
    match doc.also_known_as {
        Some(aka) => spec_extract_handle(aka@, spec_fallback_handle(doc.id@)),
        None => spec_fallback_handle(doc.id@),
    }
}

/// The profile part of a name that holds `/profile/`.
fn profile_part(name: &str) -> (r: String)
    requires
        contains_seq(name@, "/profile/"@),
    ensures
        r@ == spec_profile_part(name@),
{
    let ghost pat = "/profile/"@;
    let plen = "/profile/".unicode_len();
    let nlen = name.unicode_len();
    match crate::strutil::find_first(name, "/profile/") {
        Some(i) => {
            proof {
                lemma_first_occ_is(name@, pat, i as int);
            }
            let rest = name.substring_char(i + plen, nlen);
            match crate::strutil::find_first(rest, "/profile/") {
                Some(j) => {
                    proof {
                        lemma_first_occ_is(rest@, pat, j as int);
                    }
                    rest.substring_char(0, j).to_owned()
                },
                None => rest.to_owned(),
            }
        },
        None => {
            proof {
                assert(false);
            }
            String::new()
        },
    }
}

/// Extract the handle from an identifier document; falls back to
/// `user_<first8>` of the identifier when no usable name is present.
pub fn extract_handle_from_document(document: &DidDocument) -> (r: String)
    ensures
        r@ == spec_document_handle(*document),
{
    let fallback = did_to_fallback_handle(document.id.as_str());
    match &document.also_known_as {
        Some(aka) => {
            let mut i: usize = 0;
            proof {
                assert(aka@.skip(0int) =~= aka@);
            }
            while i < aka.len()
                invariant
                    0 <= i <= aka@.len(),
                    fallback@ == spec_fallback_handle(document.id@),
                    document.also_known_as == Some(*aka),
                    spec_extract_handle(aka@, fallback@) == spec_extract_handle(
                        aka@.skip(i as int),
                        fallback@,
                    ),
                decreases aka@.len() - i,
            {
                proof {
                    assert(aka@.skip(i as int)[0] == aka@[i as int]);
                    assert(aka@.skip(i as int).drop_first() =~= aka@.skip(i + 1));
                }
                let name = &aka[i];
                if str_starts_with(name.as_str(), "at://") {
                    let nlen = name.as_str().unicode_len();
                    let plen = "at://".unicode_len();
                    let stripped = name.as_str().substring_char(plen, nlen);
                    return stripped.to_owned();
                }
                if crate::strutil::str_contains(name.as_str(), "/profile/") {
                    return profile_part(name.as_str());
                }
                i += 1;
            }
            proof {
                assert(aka@.skip(aka@.len() as int).len() == 0);
            }
            fallback
        },
        None => fallback,
    }
}

/// Where to resolve an identifier that no registry serves.
#[derive(Debug, Clone, Copy, PartialEq, Eq, Structural)]
pub enum DidResolutionError {
    /// Neither a registry nor a web identifier.
    UnsupportedMethod,
}

/// The URL an identifier's document is fetched from: the public registry
/// for `did:plc:` identifiers, the well-known document of the host for
/// `did:web:` identifiers.
pub fn resolution_url(did: &str) -> (r: Result<String, DidResolutionError>)
    ensures
        starts_with_seq(did@, "did:plc:"@) ==> r is Ok && r->Ok_0@ == "https://plc.directory/"@
            + did@,
        !starts_with_seq(did@, "did:plc:"@) && starts_with_seq(did@, "did:web:"@) ==> r is Ok
            && r->Ok_0@ == "https://"@ + did@.subrange(8, did@.len() as int)
            + "/.well-known/did.json"@,
        !starts_with_seq(did@, "did:plc:"@) && !starts_with_seq(did@, "did:web:"@) ==> r is Err,
{
    if str_starts_with(did, "did:plc:") {
        let mut url = "https://plc.directory/".to_owned();
        url.append(did);
        Ok(url)
    } else if str_starts_with(did, "did:web:") {
        let nlen = did.unicode_len();
        let plen = "did:web:".unicode_len();
        proof {
            reveal_strlit("did:web:");
        }
        let domain = did.substring_char(plen, nlen);
        let mut url = "https://".to_owned();
        url.append(domain);
        url.append("/.well-known/did.json");
        proof {
            assert(url@ =~= "https://"@ + did@.subrange(8, did@.len() as int)
                + "/.well-known/did.json"@);
        }
        Ok(url)
    } else {
        Err(DidResolutionError::UnsupportedMethod)
    }
}

/// One cached resolution, valid until `expires_at_ms`.
pub struct HandleCacheEntry {
    pub did: String,
    pub document: DidDocument,
    pub handle: String,
    pub expires_at_ms: u64,
}

/// The identifiers of a tier are pairwise distinct.
pub open spec fn handle_dids_distinct(c: Seq<HandleCacheEntry>) -> bool {
    forall|p: int, q: int| 0 <= p < q < c.len() ==> c[p].did@ != c[q].did@
}

/// Some entry holds this identifier.
pub open spec fn has_handle_entry(c: Seq<HandleCacheEntry>, did: Seq<char>) -> bool {
    exists|i: int| 0 <= i < c.len() && c[i].did@ == did
}

/// The index of this identifier's entry (unique under the invariant).
pub open spec fn handle_entry_ix(c: Seq<HandleCacheEntry>, did: Seq<char>) -> int {
    choose|i: int| 0 <= i < c.len() && c[i].did@ == did
}

/// What one cache tier answers for an identifier at a given time.
pub open spec fn spec_handle_lookup(c: Seq<HandleCacheEntry>, did: Seq<char>, now_ms: u64) -> Option<
    Seq<char>,
> {
    if has_handle_entry(c, did) && now_ms < c[handle_entry_ix(c, did)].expires_at_ms {
        Some(c[handle_entry_ix(c, did)].handle@)
    } else {
        None
    }
}

proof fn lemma_handle_entry_ix_unique(c: Seq<HandleCacheEntry>, did: Seq<char>, i: int)
    requires
        0 <= i < c.len(),
        c[i].did@ == did,
        handle_dids_distinct(c),
    ensures
        has_handle_entry(c, did),
        handle_entry_ix(c, did) == i,
{
    assert(has_handle_entry(c, did));
    let w = handle_entry_ix(c, did);
    assert(0 <= w < c.len() && c[w].did@ == did);
}

/// Identifier → handle resolver with two cache tiers.
pub struct DidResolver {
    memory: Vec<HandleCacheEntry>,
    durable: Vec<HandleCacheEntry>,
    ttl_ms: u64,
}

impl DidResolver {
    pub closed spec fn spec_memory(&self) -> Seq<HandleCacheEntry> {
        self.memory@
    }

    pub closed spec fn spec_durable(&self) -> Seq<HandleCacheEntry> {
        self.durable@
    }

    pub closed spec fn spec_ttl_ms(&self) -> u64 {
        self.ttl_ms
    }

    /// Resolver invariant: each tier holds at most one entry per
    /// identifier, and the TTL is positive.
    pub open spec fn wf(&self) -> bool {
        &&& handle_dids_distinct(self.spec_memory())
        &&& handle_dids_distinct(self.spec_durable())
        &&& self.spec_ttl_ms() >= 1
    }

    /// A fresh resolver with the given cache TTL.
    pub fn new(ttl_hours: u64) -> (r: Self)
        requires
            1 <= ttl_hours <= 5000,
        ensures
            r.wf(),
            r.spec_memory().len() == 0,
            r.spec_durable().len() == 0,
            r.spec_ttl_ms() == ttl_hours * 3600000,
    {
        DidResolver { memory: Vec::new(), durable: Vec::new(), ttl_ms: ttl_hours * 3600000 }
    }

    /// Index of an identifier in one tier.
    fn find_entry(tier: &Vec<HandleCacheEntry>, did: &str) -> (r: Option<usize>)
        ensures
            match r {
                Some(i) => 0 <= i < tier@.len() && tier@[i as int].did@ == did@,
                None => !has_handle_entry(tier@, did@),
            },
    {
        let mut i: usize = 0;
        while i < tier.len()
            invariant
                0 <= i <= tier@.len(),
                forall|k: int| 0 <= k < i ==> tier@[k].did@ != did@,
            decreases tier@.len() - i,
        {
            if str_eq(tier[i].did.as_str(), did) {
                return Some(i);
            }
            i += 1;
        }
        None
    }

    /// The memory tier's answer.
    pub fn get_from_memory_cache(&self, did: &str, now_ms: u64) -> (r: Option<String>)
        requires
            self.wf(),
        ensures
            match r {
                Some(h) => spec_handle_lookup(self.spec_memory(), did@, now_ms) == Some(h@),
                None => spec_handle_lookup(self.spec_memory(), did@, now_ms) is None,
            },
    {
        match Self::find_entry(&self.memory, did) {
            Some(i) => {
                proof {
                    lemma_handle_entry_ix_unique(self.spec_memory(), did@, i as int);
                }
                if now_ms < self.memory[i].expires_at_ms {
                    Some(self.memory[i].handle.clone())
                } else {
                    None
                }
            },
            None => None,
        }
    }

    /// The durable tier's answer, with the cached document.
    pub fn get_from_db_cache(&self, did: &str, now_ms: u64) -> (r: Option<(DidDocument, String)>)
        requires
            self.wf(),
        ensures
            match r {
                Some(p) => spec_handle_lookup(self.spec_durable(), did@, now_ms) == Some(p.1@),
                None => spec_handle_lookup(self.spec_durable(), did@, now_ms) is None,
            },
    {
        match Self::find_entry(&self.durable, did) {
            Some(i) => {
                proof {
                    lemma_handle_entry_ix_unique(self.spec_durable(), did@, i as int);
                }
                if now_ms < self.durable[i].expires_at_ms {
                    Some((self.durable[i].document.clone(), self.durable[i].handle.clone()))
                } else {
                    None
                }
            },
            None => None,
        }
    }

    /// Write one tier: replace the identifier's entry or append one.
    fn tier_insert(
        tier: &mut Vec<HandleCacheEntry>,
        did: &str,
        document: DidDocument,
        handle: &str,
        expires_at_ms: u64,
    )
        requires
            handle_dids_distinct(old(tier)@),
        ensures
            handle_dids_distinct(final(tier)@),
            has_handle_entry(final(tier)@, did@),
            ({
                let e = final(tier)@[handle_entry_ix(final(tier)@, did@)];
                e.did@ == did@ && e.handle@ == handle@ && e.expires_at_ms == expires_at_ms
            }),
            forall|k: int|
                0 <= k < final(tier)@.len() && final(tier)@[k].did@ != did@ ==> old(
                    tier,
                )@.contains(final(tier)@[k]),
    {
        let entry = HandleCacheEntry {
            did: did.to_owned(),
            document,
            handle: handle.to_owned(),
            expires_at_ms,
        };
        match Self::find_entry(tier, did) {
            Some(i) => {
                proof {
                    lemma_handle_entry_ix_unique(old(tier)@, did@, i as int);
                }
                tier.set(i, entry);
                proof {
                    lemma_handle_entry_ix_unique(tier@, did@, i as int);
                    assert forall|k: int|
                        0 <= k < tier@.len() && tier@[k].did@ != did@ implies old(tier)@.contains(
                        tier@[k],
                    ) by {
                        assert(tier@[k] == old(tier)@[k]);
                    }
                }
            },
            None => {
                tier.push(entry);
                proof {
                    let n = tier@.len() - 1;
                    assert(tier@[n].did@ == did@);
                    assert forall|p: int, q: int|
                        0 <= p < q < tier@.len() implies tier@[p].did@ != tier@[q].did@ by {
                        if q == n {
                            assert(has_handle_entry(old(tier)@, tier@[p].did@));
                        }
                    }
                    lemma_handle_entry_ix_unique(tier@, did@, n);
                    assert forall|k: int|
                        0 <= k < tier@.len() && tier@[k].did@ != did@ implies old(tier)@.contains(
                        tier@[k],
                    ) by {
                        assert(tier@[k] == old(tier)@[k]);
                    }
                }
            },
        }
    }

    /// Refresh the memory tier with a resolution.
    pub fn update_memory_cache(&mut self, did: &str, document: DidDocument, handle: &str, now_ms: u64)
        requires
            old(self).wf(),
            now_ms + old(self).spec_ttl_ms() <= u64::MAX,
        ensures
            final(self).wf(),
            final(self).spec_durable() == old(self).spec_durable(),
            final(self).spec_ttl_ms() == old(self).spec_ttl_ms(),
            spec_handle_lookup(final(self).spec_memory(), did@, now_ms) == Some(handle@),
    {
        let expires = now_ms + self.ttl_ms;
        Self::tier_insert(&mut self.memory, did, document, handle, expires);
    }

    /// Refresh both tiers with a resolution.
    pub fn update_caches(&mut self, did: &str, document: DidDocument, handle: &str, now_ms: u64)
        requires
            old(self).wf(),
            now_ms + old(self).spec_ttl_ms() <= u64::MAX,
        ensures
            final(self).wf(),
            final(self).spec_ttl_ms() == old(self).spec_ttl_ms(),
            spec_handle_lookup(final(self).spec_memory(), did@, now_ms) == Some(handle@),
            spec_handle_lookup(final(self).spec_durable(), did@, now_ms) == Some(handle@),
    {
        let expires = now_ms + self.ttl_ms;
        let document_copy = document.clone();
        Self::tier_insert(&mut self.durable, did, document_copy, handle, expires);
        Self::tier_insert(&mut self.memory, did, document, handle, expires);
    }

    /// The two-tier answer: memory first, then the durable tier, whose
    /// hit is promoted into memory.
    pub fn lookup_two_tier(&mut self, did: &str, now_ms: u64) -> (r: Option<String>)
        requires
            old(self).wf(),
            now_ms + old(self).spec_ttl_ms() <= u64::MAX,
        ensures
            final(self).wf(),
            final(self).spec_durable() == old(self).spec_durable(),
            final(self).spec_ttl_ms() == old(self).spec_ttl_ms(),
            match r {
                Some(h) => {
                    ||| spec_handle_lookup(old(self).spec_memory(), did@, now_ms) == Some(h@)
                    ||| (spec_handle_lookup(old(self).spec_memory(), did@, now_ms) is None
                        && spec_handle_lookup(old(self).spec_durable(), did@, now_ms) == Some(h@))
                },
                None => spec_handle_lookup(old(self).spec_memory(), did@, now_ms) is None
                    && spec_handle_lookup(old(self).spec_durable(), did@, now_ms) is None,
            },
            r is None ==> *final(self) == *old(self),
    {
        match self.get_from_memory_cache(did, now_ms) {
            Some(h) => Some(h),
            None => {
                match self.get_from_db_cache(did, now_ms) {
                    Some(pair) => {
                        let (document, handle) = pair;
                        self.update_memory_cache(did, document, handle.as_str(), now_ms);
                        Some(handle)
                    },
                    None => None,
                }
            },
        }
    }

    /// Evict expired entries from both tiers; reports how many went.
    pub fn cleanup_expired(&mut self, now_ms: u64) -> (removed: usize)
        requires
            old(self).wf(),
            old(self).spec_memory().len() + old(self).spec_durable().len() <= usize::MAX,
        ensures
            final(self).wf(),
            final(self).spec_ttl_ms() == old(self).spec_ttl_ms(),
            final(self).spec_memory() == old(self).spec_memory().filter(
                |e: HandleCacheEntry| e.expires_at_ms > now_ms,
            ),
            final(self).spec_durable() == old(self).spec_durable().filter(
                |e: HandleCacheEntry| e.expires_at_ms > now_ms,
            ),
            removed == old(self).spec_memory().len() + old(self).spec_durable().len()
                - final(self).spec_memory().len() - final(self).spec_durable().len(),
    {
        let memory_removed = Self::retain_live(&mut self.memory, now_ms);
        let durable_removed = Self::retain_live(&mut self.durable, now_ms);
        memory_removed + durable_removed
    }

    /// Drop the expired entries of one tier; reports how many went.
    fn retain_live(tier: &mut Vec<HandleCacheEntry>, now_ms: u64) -> (removed: usize)
        requires
            handle_dids_distinct(old(tier)@),
        ensures
            final(tier)@ == old(tier)@.filter(|e: HandleCacheEntry| e.expires_at_ms > now_ms),
            removed == old(tier)@.len() - final(tier)@.len(),
            handle_dids_distinct(final(tier)@),
    {
        let ghost pred = |e: HandleCacheEntry| e.expires_at_ms > now_ms;
        let mut i: usize = 0;
        let mut j: usize = 0;
        let n = tier.len();
        proof {
            reveal(Seq::filter);
            assert(old(tier)@.take(0int).filter(pred) =~= Seq::<HandleCacheEntry>::empty());
            assert(tier@ =~= old(tier)@.take(0int).filter(pred) + old(tier)@.skip(0int));
        }
        while j < n
            invariant
                0 <= j <= n,
                n == old(tier)@.len(),
                i == old(tier)@.take(j as int).filter(pred).len(),
                i <= j,
                tier@ == old(tier)@.take(j as int).filter(pred) + old(tier)@.skip(j as int),
                pred == (|e: HandleCacheEntry| e.expires_at_ms > now_ms),
                handle_dids_distinct(old(tier)@),
            decreases n - j,
        {
            proof {
                reveal(Seq::filter);
                assert(old(tier)@.take(j + 1).drop_last() =~= old(tier)@.take(j as int));
                assert(old(tier)@.take(j + 1).last() == old(tier)@[j as int]);
                assert(tier@[i as int] == old(tier)@[j as int]);
                old(tier)@.take(j as int).lemma_filter_len(pred);
            }
            if tier[i].expires_at_ms > now_ms {
                i += 1;
            } else {
                tier.remove(i);
            }
            proof {
                assert(tier@ =~= old(tier)@.take(j + 1).filter(pred) + old(tier)@.skip(j + 1));
            }
            j += 1;
        }
        proof {
            assert(old(tier)@.take(n as int) =~= old(tier)@);
            assert(old(tier)@.skip(n as int).len() == 0);
            assert(tier@ =~= old(tier)@.filter(pred));
            lemma_handle_filter_distinct(old(tier)@, pred);
        }
        n - i
    }
}

/// Every filtered entry comes from the original tier.
proof fn lemma_handle_filter_subset(
    c: Seq<HandleCacheEntry>,
    pred: spec_fn(HandleCacheEntry) -> bool,
    i: int,
)
    requires
        0 <= i < c.filter(pred).len(),
    ensures
        exists|j: int| 0 <= j < c.len() && c[j] == c.filter(pred)[i],
    decreases c.len(),
{
    reveal(Seq::filter);
    if c.len() > 0 {
        let fd = c.drop_last().filter(pred);
        if i < fd.len() {
            lemma_handle_filter_subset(c.drop_last(), pred, i);
            let j = choose|j: int| 0 <= j < c.drop_last().len() && c.drop_last()[j] == fd[i];
            assert(c[j] == c.filter(pred)[i]);
        } else {
            assert(c[c.len() - 1] == c.filter(pred)[i]);
        }
    }
}

/// Entries stay pairwise distinct under filtering.
proof fn lemma_handle_filter_distinct(
    c: Seq<HandleCacheEntry>,
    pred: spec_fn(HandleCacheEntry) -> bool,
)
    requires
        handle_dids_distinct(c),
    ensures
        handle_dids_distinct(c.filter(pred)),
    decreases c.len(),
{
    reveal(Seq::filter);
    if c.len() > 0 {
        assert(handle_dids_distinct(c.drop_last()));
        lemma_handle_filter_distinct(c.drop_last(), pred);
        let f = c.filter(pred);
        let fd = c.drop_last().filter(pred);
        assert forall|p: int, q: int| 0 <= p < q < f.len() implies f[p].did@ != f[q].did@ by {
            if pred(c.last()) && q == f.len() - 1 {
                assert(f[p] == fd[p]);
                lemma_handle_filter_subset(c.drop_last(), pred, p);
                let j = choose|j: int| 0 <= j < c.drop_last().len() && c.drop_last()[j] == fd[p];
                assert(c[j] == fd[p]);
                assert(c[j].did@ != c[c.len() - 1].did@);
            } else {
                assert(f[p] == fd[p] && f[q] == fd[q]);
            }
        }
        assert(handle_dids_distinct(f));
    }
}

/// One actor's best-effort handle from the bulk path: the cached answer
/// if one was found, else the network answer, else the fallback handle —
/// every caller always receives some handle.
pub open spec fn spec_bulk_handle(
    cached: Seq<(String, String)>,
    network: Seq<(String, String)>,
    did: Seq<char>,
) -> Seq<char> {
    match crate::strutil::assoc_first(cached, did) {
        Some(h) => h,
        None => match crate::strutil::assoc_first(network, did) {
            Some(h) => h,
            None => spec_fallback_handle(did),
        },
    }
}

/// Merge bulk resolution results: cached answers win, then network
/// answers, and anything still missing gets the fallback handle, so
/// every requested identifier receives exactly one best-effort handle.
pub fn merge_bulk_results(
    dids: &Vec<String>,
    cached: &Vec<(String, String)>,
    network: &Vec<(String, String)>,
) -> (r: Vec<(String, String)>)
    ensures
        r@.len() == dids@.len(),
        forall|i: int|
            0 <= i < r@.len() ==> (#[trigger] r@[i]).0@ == dids@[i]@ && r@[i].1@ == spec_bulk_handle(
                cached@,
                network@,
                dids@[i]@,
            ),
{
    let mut r: Vec<(String, String)> = Vec::new();
    let mut i: usize = 0;
    while i < dids.len()
        invariant
            0 <= i <= dids@.len(),
            r@.len() == i,
            forall|k: int|
                0 <= k < i ==> (#[trigger] r@[k]).0@ == dids@[k]@ && r@[k].1@ == spec_bulk_handle(
                    cached@,
                    network@,
                    dids@[k]@,
                ),
        decreases dids@.len() - i,
    {
        let did = &dids[i];
        let handle = match crate::strutil::assoc_lookup(cached, did.as_str()) {
            Some(h) => h,
            None => match crate::strutil::assoc_lookup(network, did.as_str()) {
                Some(h) => h,
                None => did_to_fallback_handle(did.as_str()),
            },
        };
        r.push((did.clone(), handle));
        i += 1;
    }
    r
}

} // verus!
