//! The post resolver: post URI → truncated text behind a two-tier TTL
//! cache, a pending queue for request coalescing, and a circuit breaker
//! around the upstream batch lookup. The upstream HTTP call itself is
//! made by the embedding program; everything it decides on — cache
//! tiers, batch planning, truncation, fallback — is verified here.

use vstd::prelude::*;

use crate::circuit::{BreakerPhase, CircuitBreaker, spec_after_allowed, spec_call_allowed, spec_on_failure, spec_on_success};
use crate::strutil::{ends_with_seq, str_eq};

verus! {

use vstd::string::StrSliceExecFns;
use vstd::string::StringExecFns;

/// The ellipsis appended when post text is truncated.
pub open spec fn spec_ellipsis() -> Seq<char> {
    seq!['.', '.', '.']
}

/// Truncation keeps at most 140 characters: longer text is cut to its
/// first 137 characters plus a trailing ellipsis.
pub open spec fn spec_truncate(t: Seq<char>) -> Seq<char> {
    if t.len() > 140 {
        t.subrange(0, 137) + spec_ellipsis()
    } else {
        t
    }
}

/// Truncate post text for a notification body.
pub fn truncate_post_text(text: &str) -> (r: String)
    ensures
        r@ == spec_truncate(text@),
{
    let len = text.unicode_len();
    if len > 140 {
        let head = text.substring_char(0, 137);
        let mut s = head.to_owned();
        s.append("...");
        proof {
            reveal_strlit("...");
            assert("..."@ =~= spec_ellipsis());
        }
        s
    } else {
        text.to_owned()
    }
}

/// Law: truncated text never exceeds 140 characters, and (for text that
/// does not itself end in an ellipsis while short enough to pass through
/// unchanged) it ends with the ellipsis exactly when the original was
/// longer than 140 characters.
pub proof fn lemma_truncation_bounds(t: Seq<char>)
    requires
        !(t.len() <= 140 && ends_with_seq(t, spec_ellipsis())),
    ensures
        spec_truncate(t).len() <= 140,
        ends_with_seq(spec_truncate(t), spec_ellipsis()) <==> t.len() > 140,
{
    if t.len() > 140 {
        let r = spec_truncate(t);
        assert(r.len() == 140);
        assert(r.subrange(137, 140) =~= spec_ellipsis());
    }
}

/// Law: text of exactly 140 characters is returned verbatim; 141
/// characters yield the first 137 plus the ellipsis.
pub proof fn lemma_truncation_boundary(t: Seq<char>)
    ensures
        t.len() == 140 ==> spec_truncate(t) == t,
        t.len() == 141 ==> spec_truncate(t) == t.subrange(0, 137) + spec_ellipsis(),
{
}

/// The upstream batch-lookup response.
#[derive(Debug, Clone, PartialEq)]
pub struct GetPostsResponse {
    pub posts: Vec<PostView>,
}

/// One post of the lookup response.
#[derive(Debug, Clone, PartialEq)]
pub struct PostView {
    pub uri: String,
    pub cid: String,
    pub author: Author,
    pub record: PostRecord,
}

/// The author of a looked-up post.
#[derive(Debug, Clone, PartialEq)]
pub struct Author {
    pub did: String,
    pub handle: String,
    pub display_name: Option<String>,
}

/// The record of a looked-up post.
#[derive(Debug, Clone, PartialEq)]
pub struct PostRecord {
    pub text: String,
    pub created_at: String,
}

/// One cached post text, valid until `expires_at_ms`.
pub struct PostCacheEntry {
    pub uri: String,
    pub text: String,
    pub expires_at_ms: u64,
}

/// The URIs of a tier are pairwise distinct.
pub open spec fn post_uris_distinct(c: Seq<PostCacheEntry>) -> bool {
    forall|p: int, q: int| 0 <= p < q < c.len() ==> c[p].uri@ != c[q].uri@
}

/// The waiting URIs are pairwise distinct.
pub open spec fn pending_distinct(p: Seq<String>) -> bool {
    forall|i: int, j: int| 0 <= i < j < p.len() ==> p[i]@ != p[j]@
}

/// Some entry holds this URI.
pub open spec fn has_post_entry(c: Seq<PostCacheEntry>, uri: Seq<char>) -> bool {
    exists|i: int| 0 <= i < c.len() && c[i].uri@ == uri
}

/// The index of this URI's entry (unique under the invariant).
pub open spec fn post_entry_ix(c: Seq<PostCacheEntry>, uri: Seq<char>) -> int {
    choose|i: int| 0 <= i < c.len() && c[i].uri@ == uri
}

/// What one cache tier answers for a URI at a given time.
pub open spec fn spec_tier_lookup(c: Seq<PostCacheEntry>, uri: Seq<char>, now_ms: u64) -> Option<
    Seq<char>,
> {
    if has_post_entry(c, uri) && now_ms < c[post_entry_ix(c, uri)].expires_at_ms {
        Some(c[post_entry_ix(c, uri)].text@)
    } else {
        None
    }
}

/// With URIs pairwise distinct, the entry index of a URI is the one row
/// that carries it.
proof fn lemma_post_entry_ix_unique(c: Seq<PostCacheEntry>, uri: Seq<char>, i: int)
    requires
        0 <= i < c.len(),
        c[i].uri@ == uri,
        forall|p: int, q: int| 0 <= p < q < c.len() ==> c[p].uri@ != c[q].uri@,
    ensures
        has_post_entry(c, uri),
        post_entry_ix(c, uri) == i,
{
    assert(has_post_entry(c, uri));
    let w = post_entry_ix(c, uri);
    assert(0 <= w < c.len() && c[w].uri@ == uri);
}

/// Post-text resolver: two cache tiers, coalescing queue, breaker.
pub struct PostResolver {
    memory: Vec<PostCacheEntry>,
    durable: Vec<PostCacheEntry>,
    ttl_ms: u64,
    breaker: CircuitBreaker,
    pending: Vec<String>,
}

impl PostResolver {
    pub closed spec fn spec_memory(&self) -> Seq<PostCacheEntry> {
        self.memory@
    }

    pub closed spec fn spec_durable(&self) -> Seq<PostCacheEntry> {
        self.durable@
    }

    pub closed spec fn spec_ttl_ms(&self) -> u64 {
        self.ttl_ms
    }

    pub closed spec fn spec_breaker(&self) -> CircuitBreaker {
        self.breaker
    }

    pub closed spec fn spec_pending(&self) -> Seq<String> {
        self.pending@
    }

    /// Resolver invariant: each tier holds at most one entry per URI, no
    /// URI waits twice, and the breaker carries the fixed thresholds —
    /// trip after 5 failures, re-close after 2 probe successes, stay open
    /// 30 s.
    pub open spec fn wf(&self) -> bool {
        &&& post_uris_distinct(self.spec_memory())
        &&& post_uris_distinct(self.spec_durable())
        &&& pending_distinct(self.spec_pending())
        &&& self.spec_ttl_ms() >= 1
        &&& self.spec_breaker().failure_threshold == 5
        &&& self.spec_breaker().success_threshold == 2
        &&& self.spec_breaker().open_duration_ms == 30000
    }

    /// A fresh resolver with the given cache TTL.
    pub fn new(ttl_minutes: u64) -> (r: Self)
        requires
            1 <= ttl_minutes <= 300000,
        ensures
            r.wf(),
            r.spec_memory().len() == 0,
            r.spec_durable().len() == 0,
            r.spec_pending().len() == 0,
            r.spec_ttl_ms() == ttl_minutes * 60000,
            r.spec_breaker().phase == (BreakerPhase::Closed { failures: 0u32 }),
    {
        PostResolver {
            memory: Vec::new(),
            durable: Vec::new(),
            ttl_ms: ttl_minutes * 60000,
            breaker: CircuitBreaker::new(5, 2, 30000),
            pending: Vec::new(),
        }
    }

    /// Index of a URI in one tier.
    fn find_entry(tier: &Vec<PostCacheEntry>, uri: &str) -> (r: Option<usize>)
        ensures
            match r {
                Some(i) => 0 <= i < tier@.len() && tier@[i as int].uri@ == uri@,
                None => !has_post_entry(tier@, uri@),
            },
    {
        let mut i: usize = 0;
        while i < tier.len()
            invariant
                0 <= i <= tier@.len(),
                forall|k: int| 0 <= k < i ==> tier@[k].uri@ != uri@,
            decreases tier@.len() - i,
        {
            if str_eq(tier[i].uri.as_str(), uri) {
                return Some(i);
            }
            i += 1;
        }
        None
    }

    /// The memory tier's answer.
    pub fn get_from_memory_cache(&self, uri: &str, now_ms: u64) -> (r: Option<String>)
        requires
            self.wf(),
        ensures
            match r {
                Some(t) => spec_tier_lookup(self.spec_memory(), uri@, now_ms) == Some(t@),
                None => spec_tier_lookup(self.spec_memory(), uri@, now_ms) is None,
            },
    {
        match Self::find_entry(&self.memory, uri) {
            Some(i) => {
                proof {
                    lemma_post_entry_ix_unique(self.spec_memory(), uri@, i as int);
                }
                if now_ms < self.memory[i].expires_at_ms {
                    Some(self.memory[i].text.clone())
                } else {
                    None
                }
            },
            None => None,
        }
    }

    /// The durable tier's answer.
    pub fn get_from_db_cache(&self, uri: &str, now_ms: u64) -> (r: Option<String>)
        requires
            self.wf(),
        ensures
            match r {
                Some(t) => spec_tier_lookup(self.spec_durable(), uri@, now_ms) == Some(t@),
                None => spec_tier_lookup(self.spec_durable(), uri@, now_ms) is None,
            },
    {
        match Self::find_entry(&self.durable, uri) {
            Some(i) => {
                proof {
                    lemma_post_entry_ix_unique(self.spec_durable(), uri@, i as int);
                }
                if now_ms < self.durable[i].expires_at_ms {
                    Some(self.durable[i].text.clone())
                } else {
                    None
                }
            },
            None => None,
        }
    }

    /// Write one tier: replace the URI's entry or append a fresh one.
    fn tier_insert(tier: &mut Vec<PostCacheEntry>, uri: &str, text: &str, expires_at_ms: u64)
        requires
            post_uris_distinct(old(tier)@),
        ensures
            post_uris_distinct(final(tier)@),
            has_post_entry(final(tier)@, uri@),
            ({
                let e = final(tier)@[post_entry_ix(final(tier)@, uri@)];
                e.uri@ == uri@ && e.text@ == text@ && e.expires_at_ms == expires_at_ms
            }),
            forall|k: int|
                0 <= k < final(tier)@.len() && final(tier)@[k].uri@ != uri@ ==> old(
                    tier,
                )@.contains(final(tier)@[k]),
            has_post_entry(old(tier)@, uri@) ==> final(tier)@.len() == old(tier)@.len(),
            !has_post_entry(old(tier)@, uri@) ==> final(tier)@.len() == old(tier)@.len() + 1
                && forall|k: int| 0 <= k < old(tier)@.len() ==> final(tier)@[k] == old(tier)@[k],
    {
        let entry = PostCacheEntry { uri: uri.to_owned(), text: text.to_owned(), expires_at_ms };
        match Self::find_entry(tier, uri) {
            Some(i) => {
                proof {
                    lemma_post_entry_ix_unique(old(tier)@, uri@, i as int);
                }
                tier.set(i, entry);
                proof {
                    lemma_post_entry_ix_unique(tier@, uri@, i as int);
                    assert forall|k: int|
                        0 <= k < tier@.len() && tier@[k].uri@ != uri@ implies old(tier)@.contains(
                        tier@[k],
                    ) by {
                        assert(tier@[k] == old(tier)@[k]);
                    }
                }
            },
            None => {
                tier.push(entry);
                proof {
                    let n = tier@.len() - 1;
                    assert(tier@[n].uri@ == uri@);
                    assert forall|p: int, q: int|
                        0 <= p < q < tier@.len() implies tier@[p].uri@ != tier@[q].uri@ by {
                        if q == n {
                            assert(has_post_entry(old(tier)@, tier@[p].uri@));
                        }
                    }
                    lemma_post_entry_ix_unique(tier@, uri@, n);
                    assert forall|k: int|
                        0 <= k < tier@.len() && tier@[k].uri@ != uri@ implies old(tier)@.contains(
                        tier@[k],
                    ) by {
                        assert(tier@[k] == old(tier)@[k]);
                    }
                }
            },
        }
    }

    /// Refresh the memory tier with a resolved text.
    pub fn update_memory_cache(&mut self, uri: &str, text: &str, now_ms: u64)
        requires
            old(self).wf(),
            now_ms + old(self).spec_ttl_ms() <= u64::MAX,
        ensures
            final(self).wf(),
            final(self).spec_durable() == old(self).spec_durable(),
            final(self).spec_pending() == old(self).spec_pending(),
            final(self).spec_breaker() == old(self).spec_breaker(),
            final(self).spec_ttl_ms() == old(self).spec_ttl_ms(),
            spec_tier_lookup(final(self).spec_memory(), uri@, now_ms) == Some(text@),
            forall|k: int|
                0 <= k < final(self).spec_memory().len() && final(self).spec_memory()[k].uri@
                    != uri@ ==> old(self).spec_memory().contains(final(self).spec_memory()[k]),
    {
        let expires = now_ms + self.ttl_ms;
        Self::tier_insert(&mut self.memory, uri, text, expires);
    }

    /// Refresh both tiers with a resolved text.
    pub fn update_caches(&mut self, uri: &str, text: &str, now_ms: u64)
        requires
            old(self).wf(),
            now_ms + old(self).spec_ttl_ms() <= u64::MAX,
        ensures
            final(self).wf(),
            final(self).spec_pending() == old(self).spec_pending(),
            final(self).spec_breaker() == old(self).spec_breaker(),
            final(self).spec_ttl_ms() == old(self).spec_ttl_ms(),
            spec_tier_lookup(final(self).spec_memory(), uri@, now_ms) == Some(text@),
            spec_tier_lookup(final(self).spec_durable(), uri@, now_ms) == Some(text@),
    {
        let expires = now_ms + self.ttl_ms;
        Self::tier_insert(&mut self.durable, uri, text, expires);
        Self::tier_insert(&mut self.memory, uri, text, expires);
    }

    /// The two-tier answer: memory first, then the durable tier, whose
    /// hit is promoted into memory.
    pub fn lookup_two_tier(&mut self, uri: &str, now_ms: u64) -> (r: Option<String>)
        requires
            old(self).wf(),
            now_ms + old(self).spec_ttl_ms() <= u64::MAX,
        ensures
            final(self).wf(),
            final(self).spec_durable() == old(self).spec_durable(),
            final(self).spec_pending() == old(self).spec_pending(),
            final(self).spec_breaker() == old(self).spec_breaker(),
            final(self).spec_ttl_ms() == old(self).spec_ttl_ms(),
            match r {
                Some(t) => {
                    ||| spec_tier_lookup(old(self).spec_memory(), uri@, now_ms) == Some(t@)
                    ||| (spec_tier_lookup(old(self).spec_memory(), uri@, now_ms) is None
                        && spec_tier_lookup(old(self).spec_durable(), uri@, now_ms) == Some(t@))
                },
                None => spec_tier_lookup(old(self).spec_memory(), uri@, now_ms) is None
                    && spec_tier_lookup(old(self).spec_durable(), uri@, now_ms) is None,
            },
            r is None ==> *final(self) == *old(self),
    {
        match self.get_from_memory_cache(uri, now_ms) {
            Some(t) => Some(t),
            None => {
                match self.get_from_db_cache(uri, now_ms) {
                    Some(t) => {
                        self.update_memory_cache(uri, t.as_str(), now_ms);
                        Some(t)
                    },
                    None => None,
                }
            },
        }
    }

    /// Queue a missed URI for the batch worker; a URI already waiting is
    /// not queued twice.
    pub fn enqueue_pending(&mut self, uri: &str)
        requires
            old(self).wf(),
        ensures
            final(self).wf(),
            final(self).spec_memory() == old(self).spec_memory(),
            final(self).spec_durable() == old(self).spec_durable(),
            final(self).spec_breaker() == old(self).spec_breaker(),
            final(self).spec_ttl_ms() == old(self).spec_ttl_ms(),
            crate::strutil::seq_contains_str(final(self).spec_pending(), uri@),
            crate::strutil::seq_contains_str(old(self).spec_pending(), uri@) ==> final(self).spec_pending() == old(self).spec_pending(),
            !crate::strutil::seq_contains_str(old(self).spec_pending(), uri@) ==> {
                &&& final(self).spec_pending().len() == old(self).spec_pending().len() + 1
                &&& forall|k: int|
                    0 <= k < old(self).spec_pending().len() ==> final(self).spec_pending()[k]
                        == old(self).spec_pending()[k]
                &&& final(self).spec_pending().last()@ == uri@
            },
    {
        let mut i: usize = 0;
        while i < self.pending.len()
            invariant
                self == old(self),
                old(self).wf(),
                0 <= i <= self.pending@.len(),
                forall|k: int| 0 <= k < i ==> self.pending@[k]@ != uri@,
            decreases self.pending@.len() - i,
        {
            if str_eq(self.pending[i].as_str(), uri) {
                proof {
                    assert(crate::strutil::seq_contains_str(self.spec_pending(), uri@));
                }
                return ;
            }
            i += 1;
        }
        self.pending.push(uri.to_owned());
        proof {
            let n = self.spec_pending().len() - 1;
            assert(self.spec_pending()[n]@ == uri@);
            assert forall|p: int, q: int|
                0 <= p < q < self.spec_pending().len() implies self.spec_pending()[p]@
                != self.spec_pending()[q]@ by {
                if q == n {
                    assert(old(self).spec_pending()[p]@ != uri@);
                }
            }
        }
    }

    /// Drain up to 25 waiting URIs for one upstream batch call, in queue
    /// order; the rest keep waiting.
    pub fn drain_batch(&mut self) -> (batch: Vec<String>)
        requires
            old(self).wf(),
        ensures
            final(self).wf(),
            final(self).spec_memory() == old(self).spec_memory(),
            final(self).spec_durable() == old(self).spec_durable(),
            final(self).spec_breaker() == old(self).spec_breaker(),
            final(self).spec_ttl_ms() == old(self).spec_ttl_ms(),
            batch@.len() == if old(self).spec_pending().len() <= 25 {
                old(self).spec_pending().len()
            } else {
                25
            },
            batch@ == old(self).spec_pending().take(batch@.len() as int),
            final(self).spec_pending() == old(self).spec_pending().skip(batch@.len() as int),
    {
        let n = if self.pending.len() <= 25 {
            self.pending.len()
        } else {
            25
        };
        let mut batch: Vec<String> = Vec::new();
        let mut i: usize = 0;
        while i < n
            invariant
                0 <= i <= n,
                n <= self.pending@.len(),
                self == old(self),
                batch@.len() == i,
                forall|k: int| 0 <= k < i ==> batch@[k] == self.pending@[k],
            decreases n - i,
        {
            batch.push(self.pending[i].clone());
            i += 1;
        }
        let mut rest: Vec<String> = Vec::new();
        let mut j: usize = n;
        while j < self.pending.len()
            invariant
                n <= j <= self.pending@.len(),
                self == old(self),
                rest@.len() == j - n,
                forall|k: int| 0 <= k < j - n ==> rest@[k] == self.pending@[k + n],
            decreases self.pending@.len() - j,
        {
            rest.push(self.pending[j].clone());
            j += 1;
        }
        self.pending = rest;
        proof {
            assert(batch@ =~= old(self).spec_pending().take(n as int));
            assert(self.spec_pending() =~= old(self).spec_pending().skip(n as int));
            assert forall|p: int, q: int|
                0 <= p < q < self.spec_pending().len() implies self.spec_pending()[p]@
                != self.spec_pending()[q]@ by {
                assert(old(self).spec_pending()[p + n]@ != old(self).spec_pending()[q + n]@);
            }
        }
        batch
    }

    /// Whether an upstream call may go through now; while the breaker is
    /// open, calls short-circuit to the fallback text instead.
    pub fn api_call_allowed(&mut self, now_ms: u64) -> (r: bool)
        requires
            old(self).wf(),
        ensures
            final(self).wf(),
            r == spec_call_allowed(old(self).spec_breaker(), now_ms),
            final(self).spec_breaker().phase == spec_after_allowed(old(self).spec_breaker(), now_ms),
            final(self).spec_memory() == old(self).spec_memory(),
            final(self).spec_durable() == old(self).spec_durable(),
            final(self).spec_pending() == old(self).spec_pending(),
            final(self).spec_ttl_ms() == old(self).spec_ttl_ms(),
    {
        self.breaker.call_allowed(now_ms)
    }

    /// Record a successful upstream call with the breaker.
    pub fn record_api_success(&mut self)
        requires
            old(self).wf(),
        ensures
            final(self).wf(),
            final(self).spec_breaker().phase == spec_on_success(old(self).spec_breaker()),
            final(self).spec_memory() == old(self).spec_memory(),
            final(self).spec_durable() == old(self).spec_durable(),
            final(self).spec_pending() == old(self).spec_pending(),
            final(self).spec_ttl_ms() == old(self).spec_ttl_ms(),
    {
        self.breaker.handle_success()
    }

    /// Record a failed upstream call with the breaker.
    pub fn record_api_failure(&mut self, now_ms: u64)
        requires
            old(self).wf(),
            now_ms <= u64::MAX - 30000,
        ensures
            final(self).wf(),
            final(self).spec_breaker().phase == spec_on_failure(old(self).spec_breaker(), now_ms),
            final(self).spec_memory() == old(self).spec_memory(),
            final(self).spec_durable() == old(self).spec_durable(),
            final(self).spec_pending() == old(self).spec_pending(),
            final(self).spec_ttl_ms() == old(self).spec_ttl_ms(),
    {
        self.breaker.handle_failure(now_ms)
    }

    /// Evict expired entries from both tiers; reports how many went.
    pub fn cleanup_expired(&mut self, now_ms: u64) -> (removed: usize)
        requires
            old(self).wf(),
            old(self).spec_memory().len() + old(self).spec_durable().len() <= usize::MAX,
        ensures
            final(self).wf(),
            final(self).spec_pending() == old(self).spec_pending(),
            final(self).spec_breaker() == old(self).spec_breaker(),
            final(self).spec_ttl_ms() == old(self).spec_ttl_ms(),
            final(self).spec_memory() == old(self).spec_memory().filter(
                |e: PostCacheEntry| e.expires_at_ms > now_ms,
            ),
            final(self).spec_durable() == old(self).spec_durable().filter(
                |e: PostCacheEntry| e.expires_at_ms > now_ms,
            ),
            removed == old(self).spec_memory().len() + old(self).spec_durable().len()
                - final(self).spec_memory().len() - final(self).spec_durable().len(),
    {
        let memory_removed = Self::retain_live(&mut self.memory, now_ms);
        let durable_removed = Self::retain_live(&mut self.durable, now_ms);
        memory_removed + durable_removed
    }

    /// Drop the expired entries of one tier; reports how many went.
    fn retain_live(tier: &mut Vec<PostCacheEntry>, now_ms: u64) -> (removed: usize)
        requires
            post_uris_distinct(old(tier)@),
        ensures
            final(tier)@ == old(tier)@.filter(|e: PostCacheEntry| e.expires_at_ms > now_ms),
            removed == old(tier)@.len() - final(tier)@.len(),
            post_uris_distinct(final(tier)@),
    {
        let ghost pred = |e: PostCacheEntry| e.expires_at_ms > now_ms;
        let mut kept: Vec<PostCacheEntry> = Vec::new();
        let mut i: usize = 0;
        let n = tier.len();
        proof {
            reveal(Seq::filter);
            assert(old(tier)@.take(0int).filter(pred) =~= Seq::<PostCacheEntry>::empty());
        }
        while i < n
            invariant
                0 <= i <= n,
                n == old(tier)@.len(),
                tier@ == old(tier)@,
                kept@ == old(tier)@.take(i as int).filter(pred),
                kept@.len() <= i,
                pred == (|e: PostCacheEntry| e.expires_at_ms > now_ms),
                post_uris_distinct(old(tier)@),
            decreases n - i,
        {
            proof {
                reveal(Seq::filter);
                assert(old(tier)@.take(i + 1).drop_last() =~= old(tier)@.take(i as int));
                assert(old(tier)@.take(i + 1).last() == old(tier)@[i as int]);
            }
            if tier[i].expires_at_ms > now_ms {
                let e = PostCacheEntry {
                    uri: tier[i].uri.clone(),
                    text: tier[i].text.clone(),
                    expires_at_ms: tier[i].expires_at_ms,
                };
                proof {
                    assert(e == old(tier)@[i as int]);
                }
                kept.push(e);
            }
            i += 1;
        }
        proof {
            assert(old(tier)@.take(n as int) =~= old(tier)@);
        }
        let removed = n - kept.len();
        let ghost kept_view = kept@;
        *tier = kept;
        proof {
            assert(tier@ == kept_view);
            lemma_filter_entries_distinct(old(tier)@, pred);
        }
        removed
    }

    /// The fixed text served while the breaker is open.
    pub fn fallback_content() -> (r: String)
        ensures
            r@ == "Content temporarily unavailable"@,
    {
        "Content temporarily unavailable".to_owned()
    }

    /// One fallback answer per requested URI, served without any I/O.
    pub fn fallback_results(uris: &Vec<String>) -> (r: Vec<(String, String)>)
        ensures
            r@.len() == uris@.len(),
            forall|i: int|
                0 <= i < r@.len() ==> (#[trigger] r@[i]).0@ == uris@[i]@ && r@[i].1@
                    == "Content temporarily unavailable"@,
    {
        let mut r: Vec<(String, String)> = Vec::new();
        let mut i: usize = 0;
        while i < uris.len()
            invariant
                0 <= i <= uris@.len(),
                r@.len() == i,
                forall|k: int|
                    0 <= k < i ==> (#[trigger] r@[k]).0@ == uris@[k]@ && r@[k].1@
                        == "Content temporarily unavailable"@,
            decreases uris@.len() - i,
        {
            r.push((uris[i].clone(), Self::fallback_content()));
            i += 1;
        }
        r
    }

    /// Turn an upstream response into `(uri, truncated text)` pairs.
    pub fn collect_post_texts(resp: &GetPostsResponse) -> (r: Vec<(String, String)>)
        ensures
            r@.len() == resp.posts@.len(),
            forall|i: int|
                0 <= i < r@.len() ==> (#[trigger] r@[i]).0@ == resp.posts@[i].uri@ && r@[i].1@
                    == spec_truncate(resp.posts@[i].record.text@),
    {
        let mut r: Vec<(String, String)> = Vec::new();
        let mut i: usize = 0;
        while i < resp.posts.len()
            invariant
                0 <= i <= resp.posts@.len(),
                r@.len() == i,
                forall|k: int|
                    0 <= k < i ==> (#[trigger] r@[k]).0@ == resp.posts@[k].uri@ && r@[k].1@
                        == spec_truncate(resp.posts@[k].record.text@),
            decreases resp.posts@.len() - i,
        {
            let uri = resp.posts[i].uri.clone();
            let text = truncate_post_text(resp.posts[i].record.text.as_str());
            r.push((uri, text));
            i += 1;
        }
        r
    }

    /// The batch answer for one URI: the first pair holding it, if any.
    /// A URI the batch did not answer falls back to an individual fetch.
    pub fn lookup_result(results: &Vec<(String, String)>, uri: &str) -> (r: Option<String>)
        ensures
            match r {
                Some(t) => exists|i: int|
                    {
                        &&& 0 <= i < results@.len()
                        &&& (#[trigger] results@[i]).0@ == uri@
                        &&& results@[i].1@ == t@
                        &&& forall|k: int| 0 <= k < i ==> (#[trigger] results@[k]).0@ != uri@
                    },
                None => forall|i: int|
                    0 <= i < results@.len() ==> (#[trigger] results@[i]).0@ != uri@,
            },
    {
        let mut i: usize = 0;
        while i < results.len()
            invariant
                0 <= i <= results@.len(),
                forall|k: int| 0 <= k < i ==> (#[trigger] results@[k]).0@ != uri@,
            decreases results@.len() - i,
        {
            if str_eq(results[i].0.as_str(), uri) {
                return Some(results[i].1.clone());
            }
            i += 1;
        }
        None
    }
}

/// Every filtered element comes from the original sequence.
proof fn lemma_filter_subset(c: Seq<PostCacheEntry>, pred: spec_fn(PostCacheEntry) -> bool, i: int)
    requires
        0 <= i < c.filter(pred).len(),
    ensures
        exists|j: int| 0 <= j < c.len() && c[j] == c.filter(pred)[i],
    decreases c.len(),
{
    reveal(Seq::filter);
    if c.len() > 0 {
        let fd = c.drop_last().filter(pred);
        if i < fd.len() {
            lemma_filter_subset(c.drop_last(), pred, i);
            let j = choose|j: int| 0 <= j < c.drop_last().len() && c.drop_last()[j] == fd[i];
            assert(c[j] == c.filter(pred)[i]);
        } else {
            assert(c[c.len() - 1] == c.filter(pred)[i]);
        }
    }
}

/// Entries stay pairwise distinct under filtering.
proof fn lemma_filter_entries_distinct(c: Seq<PostCacheEntry>, pred: spec_fn(PostCacheEntry) -> bool)
    requires
        post_uris_distinct(c),
    ensures
        post_uris_distinct(c.filter(pred)),
    decreases c.len(),
{
    reveal(Seq::filter);
    if c.len() > 0 {
        assert(post_uris_distinct(c.drop_last()));
        lemma_filter_entries_distinct(c.drop_last(), pred);
        let f = c.filter(pred);
        let fd = c.drop_last().filter(pred);
        assert forall|p: int, q: int| 0 <= p < q < f.len() implies f[p].uri@ != f[q].uri@ by {
            if pred(c.last()) && q == f.len() - 1 {
                assert(f[p] == fd[p]);
                lemma_filter_subset(c.drop_last(), pred, p);
                let j = choose|j: int| 0 <= j < c.drop_last().len() && c.drop_last()[j] == fd[p];
                assert(c[j] == fd[p]);
                assert(c[j].uri@ != c[c.len() - 1].uri@);
            } else {
                assert(f[p] == fd[p] && f[q] == fd[q]);
            }
        }
        assert(post_uris_distinct(f));
    }
}

} // verus!
