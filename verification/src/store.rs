//! The reference cache/nonce store.
//!
//! The embedding application gives the protocol client two capabilities: a
//! cached, cache-control-aware document fetch that never issues two network
//! requests for the same URL at once, and single-use nonce tracking.
//! `MemoryStore` is the in-process reference. Since the network transport
//! itself must live with the embedder, the store is a state machine: a
//! fetch begins with `begin_fetch`, which either hands out the fresh cached
//! result, tells the caller to perform the network request, or tells it to
//! wait for another caller's request already in flight; a performed request
//! is reported back with `finish_fetch`. Entries are keyed by URL and
//! independent: what happens to one URL never changes the plan for another.

use vstd::prelude::*;
use vstd::string::*;

use crate::misc::{
    all_digits, digits_val, encode, is_b64url_char, is_digit, lemma_digits_val_nonneg, str_eq,
};

verus! {

/// Errors that can result from a store fetch.
#[derive(Debug, Clone, PartialEq, Eq)]
pub enum FetchError {
    /// The store itself failed.
    Store(String),
    /// The underlying fetch failed; the message is shared by every caller
    /// waiting on the same request.
    Fetch(String),
}

/// One cache slot: the last fetch result for a URL, when it stops being
/// fresh, and whether a caller is currently performing a request for it.
#[derive(Debug)]
pub struct CacheEntry {
    /// The instant (Unix seconds) at which the entry stops being fresh.
    pub expires: u64,
    /// A caller is performing the network request for this URL right now.
    pub fetching: bool,
    /// The last result: payload bytes, or a shareable error message.
    pub result: Result<Vec<u8>, String>,
}

/// What a caller that wants a document must do.
#[derive(Debug)]
pub enum FetchPlan {
    /// The cached result is still fresh: use it.
    UseCached(Result<Vec<u8>, String>),
    /// The entry is stale and no request is under way: perform the network
    /// request and report back through `finish_fetch`.
    DoFetch,
    /// Another caller is already fetching this URL: await it and begin
    /// again.
    AwaitOther,
}

/// The kind of a fetch plan, without its payload.
#[derive(Clone, Copy, Debug, PartialEq, Eq, Structural)]
pub enum PlanKind {
    UseCached,
    DoFetch,
    AwaitOther,
}

/// The kind of a fetch plan.
pub open spec fn plan_kind_of(p: FetchPlan) -> PlanKind {
    match p {
        FetchPlan::UseCached(_) => PlanKind::UseCached,
        FetchPlan::DoFetch => PlanKind::DoFetch,
        FetchPlan::AwaitOther => PlanKind::AwaitOther,
    }
}

/// The plan a cache slot dictates at a given instant: await a request in
/// flight, use a fresh result, fetch otherwise (also when the URL was
/// never fetched).
pub open spec fn spec_plan(e: Option<CacheEntry>, now: u64) -> PlanKind {
    match e {
        Some(en) => if en.fetching {
            PlanKind::AwaitOther
        } else if now < en.expires {
            PlanKind::UseCached
        } else {
            PlanKind::DoFetch
        },
        None => PlanKind::DoFetch,
    }
}

/// Two fetch results hold the same payload or the same error message.
pub open spec fn result_eq(a: Result<Vec<u8>, String>, b: Result<Vec<u8>, String>) -> bool {
    match (a, b) {
        (Ok(x), Ok(y)) => x@ == y@,
        (Err(x), Err(y)) => x@ == y@,
        _ => false,
    }
}

/// The cache lifetime of a fetch result, in seconds: errors are retried
/// after a fixed short while; successes live for at least a minute, or for
/// the server-specified `max-age` when that is longer.
pub open spec fn spec_lifetime(ok: bool, max_age: Option<u64>) -> u64 {
    if ok {
        match max_age {
            Some(a) => if a > 60 {
                a
            } else {
                60
            },
            None => 60,
        }
    } else {
        3
    }
}

/// When a result recorded at `now` stops being fresh, saturating at the
/// far end of time.
pub open spec fn spec_expiry(now: u64, ok: bool, max_age: Option<u64>) -> u64 {
    if now + spec_lifetime(ok, max_age) > u64::MAX {
        u64::MAX
    } else {
        (now + spec_lifetime(ok, max_age)) as u64
    }
}

/// The entry stored under a URL, by first match.
pub open spec fn cache_find(entries: Seq<(String, CacheEntry)>, url: Seq<char>) -> Option<
    CacheEntry,
>
    decreases entries.len(),
{
    if entries.len() == 0 {
        None
    } else if entries[0].0@ == url {
        Some(entries[0].1)
    } else {
        cache_find(entries.drop_first(), url)
    }
}

/// The pair (nonce, email) is recorded.
pub open spec fn nonce_in(pairs: Seq<(String, String)>, nonce: Seq<char>, email: Seq<char>) -> bool {
    exists|i: int| 0 <= i < pairs.len() && pairs[i].0@ == nonce && pairs[i].1@ == email
}

/// With unique keys, the entry at a matching index is the one found.
proof fn lemma_cache_find_at(entries: Seq<(String, CacheEntry)>, url: Seq<char>, i: int)
    requires
        0 <= i < entries.len(),
        entries[i].0@ == url,
        forall|a: int, b: int|
            0 <= a < b < entries.len() ==> entries[a].0@ != entries[b].0@,
    ensures
        cache_find(entries, url) == Some(entries[i].1),
    decreases entries.len(),
{
    if i == 0 {
    } else {
        assert(entries[0].0@ != url);
        assert(forall|a: int, b: int|
            0 <= a < b < entries.drop_first().len() ==> entries.drop_first()[a].0@
                != entries.drop_first()[b].0@);
        lemma_cache_find_at(entries.drop_first(), url, i - 1);
    }
}

/// With no matching key, nothing is found.
proof fn lemma_cache_find_none(entries: Seq<(String, CacheEntry)>, url: Seq<char>)
    requires
        forall|k: int| 0 <= k < entries.len() ==> entries[k].0@ != url,
    ensures
        cache_find(entries, url) == None::<CacheEntry>,
    decreases entries.len(),
{
    if entries.len() > 0 {
        lemma_cache_find_none(entries.drop_first(), url);
    }
}

/// Replacing the entry at a key's index changes only that key's lookup.
proof fn lemma_cache_find_update(
    entries: Seq<(String, CacheEntry)>,
    i: int,
    x: (String, CacheEntry),
    u: Seq<char>,
)
    requires
        0 <= i < entries.len(),
        entries[i].0@ == x.0@,
        forall|a: int, b: int|
            0 <= a < b < entries.len() ==> entries[a].0@ != entries[b].0@,
    ensures
        cache_find(entries.update(i, x), u) == if u == x.0@ {
            Some(x.1)
        } else {
            cache_find(entries, u)
        },
    decreases entries.len(),
{
    let upd = entries.update(i, x);
    if i == 0 {
        assert(upd.drop_first() =~= entries.drop_first());
    } else {
        assert(upd[0] == entries[0]);
        assert(upd.drop_first() =~= entries.drop_first().update(i - 1, x));
        assert(forall|a: int, b: int|
            0 <= a < b < entries.drop_first().len() ==> entries.drop_first()[a].0@
                != entries.drop_first()[b].0@);
        assert(entries[0].0@ != x.0@);
        lemma_cache_find_update(entries.drop_first(), i - 1, x, u);
    }
}

/// Appending an entry under a fresh key changes only that key's lookup.
proof fn lemma_cache_find_push(
    entries: Seq<(String, CacheEntry)>,
    x: (String, CacheEntry),
    u: Seq<char>,
)
    requires
        forall|k: int| 0 <= k < entries.len() ==> entries[k].0@ != x.0@,
    ensures
        cache_find(entries.push(x), u) == if u == x.0@ {
            Some(x.1)
        } else {
            cache_find(entries, u)
        },
    decreases entries.len(),
{
    let p = entries.push(x);
    if entries.len() == 0 {
        assert(p.len() == 1);
        assert(p[0] == x);
        assert(p.drop_first() =~= Seq::<(String, CacheEntry)>::empty());
        if u == x.0@ {
            assert(cache_find(p, u) == Some(x.1));
        } else {
            assert(p[0].0@ != u);
            assert(cache_find(p, u) == cache_find(p.drop_first(), u));
            assert(cache_find(p.drop_first(), u) is None);
        }
        assert(cache_find(entries, u) is None);
    } else {
        assert(p[0] == entries[0]);
        assert(p.drop_first() =~= entries.drop_first().push(x));
        lemma_cache_find_push(entries.drop_first(), x, u);
        if p[0].0@ == u {
            assert(entries[0].0@ != x.0@);
            assert(u != x.0@);
            assert(cache_find(p, u) == Some(entries[0].1));
            assert(cache_find(entries, u) == Some(entries[0].1));
        } else {
            assert(cache_find(p, u) == cache_find(p.drop_first(), u));
            assert(cache_find(entries, u) == cache_find(entries.drop_first(), u));
        }
    }
}

/// A `Store` implementation that keeps everything in memory.
///
/// The cache in this store only grows; against a small, fixed set of
/// trusted URLs (the discovery and keys documents) this is a documented,
/// accepted tradeoff. The store only functions within a single process:
/// restarting it loses all sessions.
#[derive(Debug)]
pub struct MemoryStore {
    /// Cache slots, keyed by URL, each independent of the others.
    pub cache: Vec<(String, CacheEntry)>,
    /// Outstanding (nonce, email) pairs; no cap is applied here.
    pub nonces: Vec<(String, String)>,
}

impl MemoryStore {
    /// Keys are unique, so each URL has exactly one independent slot, and
    /// each (nonce, email) pair is recorded at most once.
    pub open spec fn wf(self) -> bool {
        &&& forall|a: int, b: int|
            0 <= a < b < self.cache@.len() ==> self.cache@[a].0@ != self.cache@[b].0@
        &&& forall|a: int, b: int|
            0 <= a < b < self.nonces@.len() ==> !(self.nonces@[a].0@ == self.nonces@[b].0@
                && self.nonces@[a].1@ == self.nonces@[b].1@)
    }

    /// Create an empty store.
    pub fn new() -> (s: Self)
        ensures
            s.wf(),
            s.cache@ == Seq::<(String, CacheEntry)>::empty(),
            s.nonces@ == Seq::<(String, String)>::empty(),
    {
        MemoryStore { cache: Vec::new(), nonces: Vec::new() }
    }

    /// The index of the slot for a URL, if one exists.
    fn cache_index(&self, url: &str) -> (r: Option<usize>)
        ensures
            match r {
                Some(i) => i < self.cache@.len() && self.cache@[i as int].0@ == url@,
                None => forall|k: int| 0 <= k < self.cache@.len() ==> self.cache@[k].0@ != url@,
            },
    {
        let mut i: usize = 0;
        while i < self.cache.len()
            invariant
                i <= self.cache@.len(),
                forall|k: int| 0 <= k < i ==> self.cache@[k].0@ != url@,
            decreases self.cache@.len() - i,
        {
            if str_eq(self.cache[i].0.as_str(), url) {
                return Some(i);
            }
            i = i + 1;
        }
        None
    }

    /// Begin a fetch of a URL at the given instant: hand out the fresh
    /// cached result, tell the caller to fetch (marking the slot in
    /// flight), or tell it to await the request already in flight. Slots
    /// for other URLs are never touched.
    pub fn begin_fetch(&mut self, url: &str, now: u64) -> (p: FetchPlan)
        requires
            old(self).wf(),
        ensures
            final(self).wf(),
            final(self).nonces@ == old(self).nonces@,
            plan_kind_of(p) == spec_plan(cache_find(old(self).cache@, url@), now),
            p matches FetchPlan::UseCached(r) ==> (cache_find(old(self).cache@, url@) matches Some(
                e,
            ) && result_eq(r, e.result)) && final(self).cache@ == old(self).cache@,
            p is AwaitOther ==> final(self).cache@ == old(self).cache@,
            p is DoFetch ==> (cache_find(final(self).cache@, url@) matches Some(e2) && e2.fetching
                && (match cache_find(old(self).cache@, url@) {
                Some(e) => e2.expires == e.expires && result_eq(e2.result, e.result),
                None => e2.result matches Ok(v) && v@ == Seq::<u8>::empty() && e2.expires == 0,
            })),
            forall|u: Seq<char>|
                u != url@ ==> cache_find(final(self).cache@, u) == cache_find(
                    old(self).cache@,
                    u,
                ),
    {
        match self.cache_index(url) {
            Some(i) => {
                proof {
                    lemma_cache_find_at(self.cache@, url@, i as int);
                }
                if self.cache[i].1.fetching {
                    return FetchPlan::AwaitOther;
                }
                if now < self.cache[i].1.expires {
                    let r = clone_result(&self.cache[i].1.result);
                    return FetchPlan::UseCached(r);
                }
                let ghost pre = self.cache@;
                let (k, mut e) = self.cache.remove(i);
                e.fetching = true;
                let pair = (k, e);
                self.cache.insert(i, pair);
                proof {
                    assert(self.cache@ =~= pre.update(i as int, pair));
                    assert(forall|a: int, b: int|
                        0 <= a < b < self.cache@.len() ==> self.cache@[a].0@
                            != self.cache@[b].0@);
                    lemma_cache_find_at(self.cache@, url@, i as int);
                    assert forall|u: Seq<char>| u != url@ implies cache_find(self.cache@, u)
                        == cache_find(pre, u) by {
                        lemma_cache_find_update(pre, i as int, pair, u);
                    }
                }
                FetchPlan::DoFetch
            },
            None => {
                proof {
                    lemma_cache_find_none(self.cache@, url@);
                }
                let ghost pre = self.cache@;
                let entry = CacheEntry { expires: 0, fetching: true, result: Ok(Vec::new()) };
                let pair = (String::from_str(url), entry);
                self.cache.push(pair);
                proof {
                    assert(forall|a: int, b: int|
                        0 <= a < b < self.cache@.len() ==> self.cache@[a].0@
                            != self.cache@[b].0@);
                    lemma_cache_find_at(self.cache@, url@, pre.len() as int);
                    assert forall|u: Seq<char>| u != url@ implies cache_find(self.cache@, u)
                        == cache_find(pre, u) by {
                        lemma_cache_find_push(pre, pair, u);
                    }
                }
                FetchPlan::DoFetch
            },
        }
    }

    /// Record the outcome of a performed fetch: the slot stops being in
    /// flight, holds the result, and is fresh for the lifetime the policy
    /// gives it — errors for a fixed short while, successes for at least a
    /// minute or the server-specified `max-age` when that is longer.
    pub fn finish_fetch(
        &mut self,
        url: &str,
        result: Result<Vec<u8>, String>,
        max_age: Option<u64>,
        now: u64,
    )
        requires
            old(self).wf(),
            cache_find(old(self).cache@, url@) matches Some(e) && e.fetching,
        ensures
            final(self).wf(),
            final(self).nonces@ == old(self).nonces@,
            cache_find(final(self).cache@, url@) matches Some(e2) && !e2.fetching && result_eq(
                e2.result,
                result,
            ) && e2.expires == spec_expiry(now, result is Ok, max_age),
            forall|u: Seq<char>|
                u != url@ ==> cache_find(final(self).cache@, u) == cache_find(
                    old(self).cache@,
                    u,
                ),
    {
        let idx = match self.cache_index(url) {
            Some(i) => i,
            None => {
                proof {
                    lemma_cache_find_none(self.cache@, url@);
                }
                return vstd::pervasive::unreached();
            },
        };
        let ok = result.is_ok();
        let lifetime: u64 = if ok {
            match max_age {
                Some(a) => if a > 60 {
                    a
                } else {
                    60
                },
                None => 60,
            }
        } else {
            3
        };
        let expires: u64 = if now <= u64::MAX - lifetime {
            now + lifetime
        } else {
            u64::MAX
        };
        let ghost pre = self.cache@;
        let (k, _old_entry) = self.cache.remove(idx);
        let pair = (k, CacheEntry { expires, fetching: false, result });
        self.cache.insert(idx, pair);
        proof {
            assert(self.cache@ =~= pre.update(idx as int, pair));
            assert(forall|a: int, b: int|
                0 <= a < b < self.cache@.len() ==> self.cache@[a].0@ != self.cache@[b].0@);
            lemma_cache_find_at(self.cache@, url@, idx as int);
            assert forall|u: Seq<char>| u != url@ implies cache_find(self.cache@, u) == cache_find(
                pre,
                u,
            ) by {
                lemma_cache_find_update(pre, idx as int, pair, u);
            }
        }
    }

    /// Generate a fresh nonce, record the pair (nonce, email), and return
    /// the nonce: 22 characters of URL-safe encoded secure randomness. No
    /// cap is applied to outstanding nonces; that is left to the
    /// application.
    pub fn new_nonce(&mut self, email: &str) -> (r: String)
        requires
            old(self).wf(),
        ensures
            final(self).wf(),
            final(self).cache@ == old(self).cache@,
            r@.len() == 22,
            forall|i: int| 0 <= i < r@.len() ==> is_b64url_char(#[trigger] r@[i]),
            nonce_in(final(self).nonces@, r@, email@),
            forall|n2: Seq<char>, e2: Seq<char>|
                #[trigger] nonce_in(final(self).nonces@, n2, e2) <==> (nonce_in(
                    old(self).nonces@,
                    n2,
                    e2,
                ) || (n2 == r@ && e2 == email@)),
    {
        let nonce = generate_nonce();
        let mut i: usize = 0;
        let mut present: bool = false;
        let ghost pre = self.nonces@;
        while i < self.nonces.len()
            invariant
                i <= self.nonces@.len(),
                self.nonces@ == pre,
                pre == old(self).nonces@,
                self.cache@ == old(self).cache@,
                present <==> exists|k: int|
                    0 <= k < i && pre[k].0@ == nonce@ && pre[k].1@ == email@,
            decreases self.nonces@.len() - i,
        {
            if str_eq(self.nonces[i].0.as_str(), nonce.as_str()) && str_eq(
                self.nonces[i].1.as_str(),
                email,
            ) {
                present = true;
            }
            i = i + 1;
        }
        if !present {
            let pair = (nonce.clone(), String::from_str(email));
            self.nonces.push(pair);
            proof {
                assert(self.nonces@[pre.len() as int].0@ == nonce@);
                assert(forall|k: int| 0 <= k < pre.len() ==> self.nonces@[k] == pre[k]);
                assert forall|n2: Seq<char>, e2: Seq<char>|
                    #[trigger] nonce_in(self.nonces@, n2, e2) <==> (nonce_in(pre, n2, e2) || (n2
                        == nonce@ && e2 == email@)) by {
                    if nonce_in(self.nonces@, n2, e2) {
                        let k = choose|k: int|
                            0 <= k < self.nonces@.len() && self.nonces@[k].0@ == n2
                                && self.nonces@[k].1@ == e2;
                        if k < pre.len() {
                            assert(nonce_in(pre, n2, e2));
                        }
                    }
                    if nonce_in(pre, n2, e2) {
                        let k = choose|k: int|
                            0 <= k < pre.len() && pre[k].0@ == n2 && pre[k].1@ == e2;
                        assert(self.nonces@[k].0@ == n2 && self.nonces@[k].1@ == e2);
                    }
                    if n2 == nonce@ && e2 == email@ {
                        assert(self.nonces@[pre.len() as int].0@ == n2);
                    }
                }
            }
        } else {
            proof {
                assert(nonce_in(pre, nonce@, email@));
            }
        }
        nonce
    }

    /// Atomically check that a (nonce, email) pair exists and remove it:
    /// `true` exactly when the pair was recorded, and afterwards it no
    /// longer is — consuming the same pair twice reports `true` then
    /// `false`.
    pub fn consume_nonce(&mut self, nonce: &str, email: &str) -> (r: bool)
        requires
            old(self).wf(),
        ensures
            final(self).wf(),
            final(self).cache@ == old(self).cache@,
            r == nonce_in(old(self).nonces@, nonce@, email@),
            forall|n2: Seq<char>, e2: Seq<char>|
                #[trigger] nonce_in(final(self).nonces@, n2, e2) <==> (nonce_in(
                    old(self).nonces@,
                    n2,
                    e2,
                ) && !(n2 == nonce@ && e2 == email@)),
    {
        let ghost pre = self.nonces@;
        let mut i: usize = 0;
        while i < self.nonces.len()
            invariant
                i <= self.nonces@.len(),
                self.nonces@ == pre,
                pre == old(self).nonces@,
                self.cache@ == old(self).cache@,
                old(self).wf(),
                forall|k: int| 0 <= k < i ==> !(pre[k].0@ == nonce@ && pre[k].1@ == email@),
            decreases self.nonces@.len() - i,
        {
            if str_eq(self.nonces[i].0.as_str(), nonce) && str_eq(
                self.nonces[i].1.as_str(),
                email,
            ) {
                self.nonces.remove(i);
                proof {
                    assert(nonce_in(pre, nonce@, email@));
                    pre.remove_ensures(i as int);
                    assert(forall|k: int|
                        0 <= k < self.nonces@.len() ==> #[trigger] self.nonces@[k] == (if k
                            < i {
                            pre[k]
                        } else {
                            pre[k + 1]
                        }));
                    assert(forall|a: int, b: int|
                        0 <= a < b < self.nonces@.len() ==> !(self.nonces@[a].0@
                            == self.nonces@[b].0@ && self.nonces@[a].1@ == self.nonces@[b].1@));
                    assert forall|n2: Seq<char>, e2: Seq<char>|
                        #[trigger] nonce_in(self.nonces@, n2, e2) <==> (nonce_in(pre, n2, e2) && !(
                        n2 == nonce@ && e2 == email@)) by {
                        if nonce_in(self.nonces@, n2, e2) {
                            let k = choose|k: int|
                                0 <= k < self.nonces@.len() && self.nonces@[k].0@ == n2
                                    && self.nonces@[k].1@ == e2;
                            if k < i {
                                assert(pre[k].0@ == n2 && pre[k].1@ == e2);
                            } else {
                                assert(pre[k + 1].0@ == n2 && pre[k + 1].1@ == e2);
                            }
                            assert(nonce_in(pre, n2, e2));
                        }
                        if nonce_in(pre, n2, e2) && !(n2 == nonce@ && e2 == email@) {
                            let k = choose|k: int|
                                0 <= k < pre.len() && pre[k].0@ == n2 && pre[k].1@ == e2;
                            if k < i {
                                assert(self.nonces@[k].0@ == n2 && self.nonces@[k].1@ == e2);
                            } else {
                                assert(k != i);
                                assert(self.nonces@[k - 1].0@ == n2 && self.nonces@[k - 1].1@
                                    == e2);
                            }
                        }
                    }
                }
                return true;
            }
            i = i + 1;
        }
        proof {
            assert(!nonce_in(pre, nonce@, email@));
        }
        false
    }
}

impl Default for MemoryStore {
    /// An empty store.
    fn default() -> (s: Self)
        ensures
            s.wf(),
            s.cache@ == Seq::<(String, CacheEntry)>::empty(),
            s.nonces@ == Seq::<(String, String)>::empty(),
    {
        MemoryStore::new()
    }
}

/// A space or horizontal tab: the padding that may surround a header
/// directive.
pub open spec fn is_hsp(c: char) -> bool {
    c == ' ' || c == '\t'
}

/// The index of the first comma at or after `i`, or the string's length.
pub open spec fn next_comma(s: Seq<char>, i: int) -> int
    recommends
        0 <= i <= s.len(),
    decreases s.len() - i,
{
    if i < s.len() {
        if s[i] == ',' {
            i
        } else {
            next_comma(s, i + 1)
        }
    } else {
        s.len() as int
    }
}

/// The first index at or after `i`, up to `j`, that is no padding.
pub open spec fn skip_hsp(s: Seq<char>, i: int, j: int) -> int
    recommends
        0 <= i <= j <= s.len(),
    decreases j - i,
{
    if i < j && is_hsp(s[i]) {
        skip_hsp(s, i + 1, j)
    } else {
        i
    }
}

/// One past the last index in `[i, j)` that is no padding.
pub open spec fn rtrim_hsp(s: Seq<char>, i: int, j: int) -> int
    recommends
        0 <= i <= j <= s.len(),
    decreases j - i,
{
    if j > i && is_hsp(s[j - 1]) {
        rtrim_hsp(s, i, j - 1)
    } else {
        j
    }
}

/// The decimal value at `[lo, hi)`: digits only, non-empty, fitting `u64`.
pub open spec fn spec_digits_value(s: Seq<char>, lo: int, hi: int) -> Option<u64> {
    if lo < hi && (forall|k: int| lo <= k < hi ==> is_digit(#[trigger] s[k])) && digits_val(
        s.subrange(lo, hi),
    ) <= u64::MAX {
        Some(digits_val(s.subrange(lo, hi)) as u64)
    } else {
        None
    }
}

/// The `max-age` the header value specifies, scanning its comma-separated
/// directives from `i`: the value of the first directive of the form
/// `max-age=N` (padding trimmed), `None` when there is none from `i` on or
/// its value does not parse as a decimal `u64`.
pub open spec fn spec_max_age_from(s: Seq<char>, i: int) -> Option<u64>
    recommends
        0 <= i <= s.len(),
    decreases s.len() - i,
{
    let j = next_comma(s, i);
    let lo = skip_hsp(s, i, j);
    let hi = rtrim_hsp(s, lo, j);
    if hi - lo >= 8 && s.subrange(lo, lo + 8) == "max-age="@ {
        spec_digits_value(s, lo + 8, hi)
    } else if i <= j && j < s.len() {
        spec_max_age_from(s, j + 1)
    } else {
        None
    }
}

/// The `max-age` a `Cache-Control` header value specifies, if any.
pub open spec fn spec_max_age(s: Seq<char>) -> Option<u64> {
    spec_max_age_from(s, 0)
}

proof fn lemma_next_comma_bounds(s: Seq<char>, i: int)
    requires
        0 <= i <= s.len(),
    ensures
        i <= next_comma(s, i) <= s.len(),
        next_comma(s, i) < s.len() ==> s[next_comma(s, i)] == ',',
    decreases s.len() - i,
{
    if i < s.len() && s[i] != ',' {
        lemma_next_comma_bounds(s, i + 1);
    }
}

proof fn lemma_skip_hsp_bounds(s: Seq<char>, i: int, j: int)
    requires
        0 <= i <= j <= s.len(),
    ensures
        i <= skip_hsp(s, i, j) <= j,
    decreases j - i,
{
    if i < j && is_hsp(s[i]) {
        lemma_skip_hsp_bounds(s, i + 1, j);
    }
}

proof fn lemma_rtrim_hsp_bounds(s: Seq<char>, i: int, j: int)
    requires
        0 <= i <= j <= s.len(),
    ensures
        i <= rtrim_hsp(s, i, j) <= j,
    decreases j - i,
{
    if j > i && is_hsp(s[j - 1]) {
        lemma_rtrim_hsp_bounds(s, i, j - 1);
    }
}

/// The characters of a string, for random access.
fn to_chars(s: &str) -> (v: Vec<char>)
    ensures
        v@ == s@,
{
    let len = s.unicode_len();
    let mut v: Vec<char> = Vec::new();
    let mut i: usize = 0;
    while i < len
        invariant
            i <= len == s@.len(),
            v@ == s@.take(i as int),
        decreases len - i,
    {
        v.push(s.get_char(i));
        proof {
            assert(s@.take(i + 1 as int) =~= s@.take(i as int).push(s@[i as int]));
        }
        i = i + 1;
    }
    proof {
        assert(s@.take(len as int) == s@);
    }
    v
}

/// The index of the first comma at or after `i`, or the length.
fn find_comma(v: &Vec<char>, i: usize) -> (r: usize)
    requires
        i <= v@.len(),
    ensures
        r as int == next_comma(v@, i as int),
        i <= r <= v@.len(),
{
    let mut j = i;
    while j < v.len()
        invariant
            i <= j <= v@.len(),
            next_comma(v@, i as int) == next_comma(v@, j as int),
        decreases v@.len() - j,
    {
        if v[j] == ',' {
            return j;
        }
        j = j + 1;
    }
    j
}

/// The first non-padding index at or after `i`, up to `j`.
fn find_lo(v: &Vec<char>, i: usize, j: usize) -> (r: usize)
    requires
        i <= j <= v@.len(),
    ensures
        r as int == skip_hsp(v@, i as int, j as int),
        i <= r <= j,
{
    let mut k = i;
    while k < j && (v[k] == ' ' || v[k] == '\t')
        invariant
            i <= k <= j <= v@.len(),
            skip_hsp(v@, i as int, j as int) == skip_hsp(v@, k as int, j as int),
        decreases j - k,
    {
        k = k + 1;
    }
    k
}

/// One past the last non-padding index in `[i, j)`.
fn find_hi(v: &Vec<char>, i: usize, j: usize) -> (r: usize)
    requires
        i <= j <= v@.len(),
    ensures
        r as int == rtrim_hsp(v@, i as int, j as int),
        i <= r <= j,
{
    let mut k = j;
    while k > i && (v[k - 1] == ' ' || v[k - 1] == '\t')
        invariant
            i <= k <= j <= v@.len(),
            rtrim_hsp(v@, i as int, j as int) == rtrim_hsp(v@, i as int, k as int),
        decreases k,
    {
        k = k - 1;
    }
    k
}

/// Whether the eight characters at `lo` spell `max-age=`.
fn is_max_age_prefix(v: &Vec<char>, lo: usize) -> (r: bool)
    requires
        lo + 8 <= v@.len(),
    ensures
        r == (v@.subrange(lo as int, lo as int + 8) == "max-age="@),
{
    proof {
        reveal_strlit("max-age=");
    }
    let n = v.len();
    assert(lo + 8 <= n);
    let r = v[lo] == 'm' && v[lo + 1] == 'a' && v[lo + 2] == 'x' && v[lo + 3] == '-' && v[lo + 4]
        == 'a' && v[lo + 5] == 'g' && v[lo + 6] == 'e' && v[lo + 7] == '=';
    proof {
        if r {
            assert(v@.subrange(lo as int, lo as int + 8) =~= "max-age="@);
        } else {
            if v@.subrange(lo as int, lo as int + 8) == "max-age="@ {
                assert(v@[lo as int] == "max-age="@[0]);
                assert(v@[lo as int + 1] == "max-age="@[1]);
                assert(v@[lo as int + 2] == "max-age="@[2]);
                assert(v@[lo as int + 3] == "max-age="@[3]);
                assert(v@[lo as int + 4] == "max-age="@[4]);
                assert(v@[lo as int + 5] == "max-age="@[5]);
                assert(v@[lo as int + 6] == "max-age="@[6]);
                assert(v@[lo as int + 7] == "max-age="@[7]);
                assert(false);
            }
        }
    }
    r
}

/// The decimal value at `[lo, hi)`, if it is a non-empty run of digits
/// whose value fits `u64`.
fn digits_value(v: &Vec<char>, lo: usize, hi: usize) -> (r: Option<u64>)
    requires
        lo <= hi <= v@.len(),
    ensures
        r == spec_digits_value(v@, lo as int, hi as int),
{
    if lo == hi {
        return None;
    }
    let mut acc: u64 = 0;
    let mut saturated: bool = false;
    let mut i: usize = lo;
    while i < hi
        invariant
            lo <= i <= hi <= v@.len(),
            forall|k: int| lo <= k < i ==> is_digit(#[trigger] v@[k]),
            !saturated ==> acc == digits_val(v@.subrange(lo as int, i as int)) && digits_val(
                v@.subrange(lo as int, i as int),
            ) <= u64::MAX,
            saturated ==> digits_val(v@.subrange(lo as int, i as int)) > u64::MAX && acc
                == u64::MAX,
        decreases hi - i,
    {
        let c = v[i];
        let cv = c as u32;
        if !(48 <= cv && cv <= 57) {
            proof {
                assert(lo <= i < hi && !is_digit(v@[i as int]));
            }
            return None;
        }
        proof {
            lemma_digit_char(c, cv);
        }
        assert(is_digit(v@[i as int]));
        let dv: u64 = (cv - 48) as u64;
        proof {
            assert(v@.subrange(lo as int, i + 1 as int).drop_last() =~= v@.subrange(
                lo as int,
                i as int,
            ));
            assert(v@.subrange(lo as int, i + 1 as int).last() == v@[i as int]);
            assert(forall|k: int|
                0 <= k < i - lo ==> v@.subrange(lo as int, i as int)[k] == v@[lo + k]);
            assert(all_digits(v@.subrange(lo as int, i as int)));
            lemma_digits_val_nonneg(v@.subrange(lo as int, i as int));
        }
        if saturated {
            proof {
                assert(digits_val(v@.subrange(lo as int, i + 1 as int)) == digits_val(
                    v@.subrange(lo as int, i as int),
                ) * 10 + dv);
            }
        } else {
            match acc.checked_mul(10) {
                Some(m) => match m.checked_add(dv) {
                    Some(a) => {
                        acc = a;
                    },
                    None => {
                        saturated = true;
                        acc = u64::MAX;
                    },
                },
                None => {
                    saturated = true;
                    acc = u64::MAX;
                },
            }
        }
        i = i + 1;
    }
    proof {
        assert(v@.subrange(lo as int, hi as int) == v@.subrange(lo as int, i as int));
    }
    if saturated {
        None
    } else {
        Some(acc)
    }
}

/// The `max-age` directive of a `Cache-Control` header value: the value
/// of its first comma-separated `max-age=N` directive, `None` when there
/// is none or `N` does not parse as a decimal `u64`.
pub fn parse_max_age(header: &str) -> (r: Option<u64>)
    ensures
        r == spec_max_age(header@),
{
    let v = to_chars(header);
    let n = v.len();
    let mut i: usize = 0;
    while i <= n
        invariant
            i <= n,
            n == v@.len(),
            v@ == header@,
            spec_max_age(header@) == spec_max_age_from(v@, i as int),
        decreases n + 1 - i,
    {
        let j = find_comma(&v, i);
        let lo = find_lo(&v, i, j);
        let hi = find_hi(&v, lo, j);
        proof {
            lemma_next_comma_bounds(v@, i as int);
        }
        if hi - lo >= 8 && is_max_age_prefix(&v, lo) {
            let r = digits_value(&v, lo + 8, hi);
            proof {
                assert(spec_max_age_from(v@, i as int) == spec_digits_value(
                    v@,
                    lo as int + 8,
                    hi as int,
                ));
            }
            return r;
        }
        if j >= n {
            proof {
                assert(spec_max_age_from(v@, i as int) is None);
            }
            return None;
        }
        proof {
            assert(spec_max_age_from(v@, i as int) == spec_max_age_from(v@, j + 1 as int));
        }
        i = j + 1;
    }
    vstd::pervasive::unreached()
}

/// Consuming a (nonce, email) pair is single use: a step that removes the
/// pair from the recorded set (as `consume_nonce` ensures) leaves a state
/// in which the same pair is no longer recorded, so a second consumption
/// reports `false`.
pub proof fn lemma_nonce_single_use(
    pre: Seq<(String, String)>,
    post: Seq<(String, String)>,
    nonce: Seq<char>,
    email: Seq<char>,
)
    requires
        forall|n2: Seq<char>, e2: Seq<char>|
            #[trigger] nonce_in(post, n2, e2) <==> (nonce_in(pre, n2, e2) && !(n2 == nonce && e2
                == email)),
    ensures
        !nonce_in(post, nonce, email),
{
    assert(!(nonce_in(pre, nonce, email) && !(nonce == nonce && email == email)));
}

/// While a fetch of a URL is in flight, a second `begin_fetch` of the same
/// URL is told to await it: the cache issues at most one network request
/// per URL at a time.
pub proof fn lemma_fetch_dedup(s: MemoryStore, url: Seq<char>, now: u64)
    requires
        cache_find(s.cache@, url) matches Some(e) && e.fetching,
    ensures
        spec_plan(cache_find(s.cache@, url), now) == PlanKind::AwaitOther,
{
}

/// Cache slots are independent: a step that changes only one URL's slot
/// (as `begin_fetch` and `finish_fetch` ensure) leaves every other URL's
/// fetch plan as it was, so fetches of different URLs never block each
/// other.
pub proof fn lemma_fetch_independent(
    pre: MemoryStore,
    post: MemoryStore,
    url: Seq<char>,
    other: Seq<char>,
    now: u64,
)
    requires
        forall|u: Seq<char>| u != url ==> cache_find(post.cache@, u) == cache_find(pre.cache@, u),
        other != url,
    ensures
        spec_plan(cache_find(post.cache@, other), now) == spec_plan(
            cache_find(pre.cache@, other),
            now,
        ),
{
}

/// Copy payload bytes.
fn clone_bytes(v: &Vec<u8>) -> (c: Vec<u8>)
    ensures
        c@ == v@,
{
    let c = v.clone();
    proof {
        assert(c@ =~= v@);
    }
    c
}

/// Copy a stored fetch result, so several waiters can observe the same
/// outcome without repeating the request.
fn clone_result(r: &Result<Vec<u8>, String>) -> (c: Result<Vec<u8>, String>)
    ensures
        result_eq(c, *r),
{
    match r {
        Ok(v) => Ok(clone_bytes(v)),
        Err(e) => Err(e.clone()),
    }
}

/// Relies on ring's `SystemRandom::fill` filling the buffer with exactly
/// the requested amount of cryptographically secure randomness; aborts the
/// process if the secure RNG fails, since continuing would silently void
/// the unguessability of nonces.
#[verifier::external_body]
fn secure_random_16() -> (r: Vec<u8>)
    ensures
        r@.len() == 16,
{
    let rng = ring::rand::SystemRandom::new();
    let mut data = vec![0u8; 16];
    ring::rand::SecureRandom::fill(&rng, &mut data).expect(
        "secure random number generator failed",
    );
    data
}

/// Returns 128 bits of secure random data in a URL-safe encoding.
pub fn generate_nonce() -> (r: String)
    ensures
        r@.len() == 22,
        forall|i: int| 0 <= i < r@.len() ==> is_b64url_char(#[trigger] r@[i]),
{
    let data = secure_random_16();
    encode(data.as_slice())
}

/// A character whose code point, read as `u32`, is an ASCII digit's, is an
/// ASCII digit.
proof fn lemma_digit_char(c: char, u: u32)
    requires
        u == c as u32,
        48 <= u <= 57,
    ensures
        is_digit(c),
{
}

} // verus!
