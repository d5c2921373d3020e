//! A per-scope cache of access tokens, so that the underlying credential
//! (which may shell out to the Azure CLI) is not asked for every request.
use vstd::prelude::*;
use crate::clock::unix_seconds;

verus! {

/// An access token and when it expires, in seconds since the Unix epoch.
#[derive(Debug)]
pub struct CachedAccessToken {
    pub token: String,
    pub expires_on: i64,
}

impl Clone for CachedAccessToken {
    fn clone(&self) -> (r: Self)
        ensures
            r == *self,
    {
        CachedAccessToken { token: self.token.clone(), expires_on: self.expires_on }
    }
}

/// A cached token is reused while it has more than five minutes left.
pub open spec fn still_fresh(expires_on: i64, now: i64) -> bool {
    expires_on > now + 300
}

/// The views of a list of scopes.
pub open spec fn scope_key(scopes: Seq<String>) -> Seq<Seq<char>> {
    scopes.map_values(|s: String| s@)
}

/// The tokens cached per list of scopes (the order of the scopes counts).
pub struct TokenCache {
    entries: Vec<(Vec<String>, CachedAccessToken)>,
}

pub open spec fn cache_map(entries: Seq<(Vec<String>, CachedAccessToken)>) -> Map<Seq<Seq<char>>, CachedAccessToken>
    decreases entries.len(),
{
    if entries.len() == 0 {
        Map::empty()
    } else {
        cache_map(entries.drop_last()).insert(scope_key(entries.last().0@), entries.last().1)
    }
}

proof fn lemma_cache_map_last(entries: Seq<(Vec<String>, CachedAccessToken)>, k: Seq<Seq<char>>, j: int)
    requires
        0 <= j < entries.len(),
        scope_key(entries[j].0@) == k,
        forall|t: int| j < t < entries.len() ==> scope_key(#[trigger] entries[t].0@) != k,
    ensures
        cache_map(entries).dom().contains(k),
        cache_map(entries)[k] == entries[j].1,
    decreases entries.len(),
{
    if j < entries.len() - 1 {
        lemma_cache_map_last(entries.drop_last(), k, j);
    }
}

proof fn lemma_cache_map_absent(entries: Seq<(Vec<String>, CachedAccessToken)>, k: Seq<Seq<char>>)
    requires
        forall|t: int| 0 <= t < entries.len() ==> scope_key(#[trigger] entries[t].0@) != k,
    ensures
        !cache_map(entries).dom().contains(k),
    decreases entries.len(),
{
    if entries.len() > 0 {
        lemma_cache_map_absent(entries.drop_last(), k);
    }
}

proof fn lemma_cache_map_replace(entries: Seq<(Vec<String>, CachedAccessToken)>, j: int, scopes: Vec<String>, token: CachedAccessToken)
    requires
        0 <= j < entries.len(),
        scope_key(entries[j].0@) == scope_key(scopes@),
        forall|t: int| j < t < entries.len() ==> scope_key(#[trigger] entries[t].0@) != scope_key(scopes@),
    ensures
        cache_map(entries.update(j, (scopes, token))) == cache_map(entries).insert(scope_key(scopes@), token),
    decreases entries.len(),
{
    let upd = entries.update(j, (scopes, token));
    if j == entries.len() - 1 {
        assert(upd.drop_last() =~= entries.drop_last());
        assert(cache_map(upd) =~= cache_map(entries).insert(scope_key(scopes@), token));
    } else {
        assert(upd.drop_last() =~= entries.drop_last().update(j, (scopes, token)));
        lemma_cache_map_replace(entries.drop_last(), j, scopes, token);
        assert(scope_key(entries.last().0@) != scope_key(scopes@));
        assert(cache_map(upd) =~= cache_map(entries).insert(scope_key(scopes@), token));
    }
}

fn position_of(es: &Vec<(Vec<String>, CachedAccessToken)>, scopes: &[String]) -> (j: usize)
    ensures
        j <= es@.len(),
        forall|t: int| 0 <= t < j ==> scope_key(#[trigger] es@[t].0@) != scope_key(scopes@),
        j < es@.len() ==> scope_key(es@[j as int].0@) == scope_key(scopes@),
{
    let mut j: usize = 0;
    while j < es.len()
        invariant
            j <= es@.len(),
            forall|t: int| 0 <= t < j ==> scope_key(#[trigger] es@[t].0@) != scope_key(scopes@),
        decreases es@.len() - j,
    {
        if same_scopes(&es[j].0, scopes) {
            return j;
        }
        j = j + 1;
    }
    j
}

fn same_scopes(a: &Vec<String>, b: &[String]) -> (r: bool)
    ensures
        r == (scope_key(a@) == scope_key(b@)),
{
    if a.len() != b.len() {
        proof {
            assert(scope_key(a@).len() != scope_key(b@).len());
        }
        return false;
    }
    let mut i: usize = 0;
    while i < a.len()
        invariant
            i <= a@.len(),
            a@.len() == b@.len(),
            forall|t: int| 0 <= t < i ==> a@[t]@ == b@[t]@,
        decreases a@.len() - i,
    {
        if a[i] != b[i] {
            proof {
                assert(scope_key(a@)[i as int] != scope_key(b@)[i as int]);
            }
            return false;
        }
        i = i + 1;
    }
    proof {
        assert(scope_key(a@) =~= scope_key(b@));
    }
    true
}

/// The token cached for `key` if it is still fresh at `now`.
pub open spec fn fresh_entry(m: Map<Seq<Seq<char>>, CachedAccessToken>, key: Seq<Seq<char>>, now: i64) -> Option<CachedAccessToken> {
    if m.dom().contains(key) && still_fresh(m[key].expires_on, now) {
        Some(m[key])
    } else {
        None
    }
}

/// The cache after the underlying credential answered for `key`: a token
/// is stored, an error changes nothing.
pub open spec fn cache_after_answer<E>(m: Map<Seq<Seq<char>>, CachedAccessToken>, key: Seq<Seq<char>>, answer: Result<CachedAccessToken, E>) -> Map<Seq<Seq<char>>, CachedAccessToken> {
    match answer {
        Ok(t) => m.insert(key, t),
        Err(_) => m,
    }
}

/// One request for a token: the cached token while it is fresh, without
/// asking the underlying credential; else the credential is asked once and
/// its answer taken. Gives the cache after the request, the result, and
/// whether the credential was asked.
pub open spec fn token_request<E>(
    m: Map<Seq<Seq<char>>, CachedAccessToken>,
    key: Seq<Seq<char>>,
    now: i64,
    answer: Result<CachedAccessToken, E>,
) -> (Map<Seq<Seq<char>>, CachedAccessToken>, Result<CachedAccessToken, E>, bool) {
    match fresh_entry(m, key, now) {
        Some(t) => (m, Ok(t), false),
        None => (cache_after_answer(m, key, answer), answer, true),
    }
}

impl View for TokenCache {
    type V = Map<Seq<Seq<char>>, CachedAccessToken>;

    closed spec fn view(&self) -> Map<Seq<Seq<char>>, CachedAccessToken> {
        cache_map(self.entries@)
    }
}

impl TokenCache {
    /// An empty cache.
    pub fn new() -> (c: Self)
        ensures
            c@ == Map::<Seq<Seq<char>>, CachedAccessToken>::empty(),
    {
        TokenCache { entries: Vec::new() }
    }

    /// The cached token for `scopes` if it has more than five minutes left
    /// at `now`.
    pub fn fresh_token(&self, scopes: &[String], now: i64) -> (r: Option<CachedAccessToken>)
        ensures
            r == fresh_entry(self@, scope_key(scopes@), now),
    {
        let mut j: usize = self.entries.len();
        while j > 0
            invariant
                j <= self.entries@.len(),
                forall|t: int| j <= t < self.entries@.len() ==> scope_key(#[trigger] self.entries@[t].0@) != scope_key(scopes@),
            decreases j,
        {
            if same_scopes(&self.entries[j - 1].0, scopes) {
                proof {
                    lemma_cache_map_last(self.entries@, scope_key(scopes@), j - 1);
                }
                let t = &self.entries[j - 1].1;
                if (t.expires_on as i128) > (now as i128) + 300 {
                    return Some(t.clone());
                } else {
                    return None;
                }
            }
            j = j - 1;
        }
        proof {
            lemma_cache_map_absent(self.entries@, scope_key(scopes@));
        }
        None
    }

    /// The cached token for `scopes` if it has more than five minutes left
    /// now; none when the system clock cannot be read.
    pub fn fresh_token_now(&self, scopes: &[String]) -> (r: Option<CachedAccessToken>)
        ensures
            exists|now: i64| r == fresh_entry(self@, scope_key(scopes@), now),
    {
        match unix_seconds() {
            Some(now) => self.fresh_token(scopes, now),
            None => {
                // An unreadable clock reads as the end of time: nothing is fresh then.
                proof {
                    assert(fresh_entry(self@, scope_key(scopes@), i64::MAX) is None);
                }
                None
            },
        }
    }

    /// Takes the underlying credential's answer for `scopes`, asked because
    /// no fresh token was cached: a token is cached and handed on; an error
    /// is handed on and the cache is left as it was.
    pub fn record_answer<E>(&mut self, scopes: Vec<String>, answer: Result<CachedAccessToken, E>) -> (r: Result<CachedAccessToken, E>)
        ensures
            r == answer,
            final(self)@ == cache_after_answer(old(self)@, scope_key(scopes@), answer),
    {
        match answer {
            Ok(t) => {
                self.store(scopes, t.clone());
                Ok(t)
            },
            Err(e) => Err(e),
        }
    }

    /// No list of scopes is cached twice.
    #[verifier::type_invariant]
    spec fn keys_distinct(&self) -> bool {
        forall|i: int, j: int|
            0 <= i < j < self.entries@.len() ==> scope_key(#[trigger] self.entries@[i].0@)
                != scope_key(#[trigger] self.entries@[j].0@)
    }

    /// Caches `token` for `scopes`, replacing what was cached for them.
    pub fn store(&mut self, scopes: Vec<String>, token: CachedAccessToken)
        ensures
            final(self)@ == old(self)@.insert(scope_key(scopes@), token),
    {
        proof {
            use_type_invariant(&*self);
        }
        let mut es: Vec<(Vec<String>, CachedAccessToken)> = Vec::new();
        std::mem::swap(&mut es, &mut self.entries);
        let ghost before = es@;
        let ghost k = scope_key(scopes@);
        let j = position_of(&es, scopes.as_slice());
        if j < es.len() {
            proof {
                assert(scope_key(es@[j as int].0@) == k);
                assert forall|t: int| j < t < es@.len() implies scope_key(#[trigger] es@[t].0@) != k by {
                }
                lemma_cache_map_replace(before, j as int, scopes, token);
            }
            es.set(j, (scopes, token));
            proof {
                assert forall|a: int, b: int|
                    0 <= a < b < es@.len() implies scope_key(#[trigger] es@[a].0@)
                        != scope_key(#[trigger] es@[b].0@) by {
                    if a == j {
                        assert(scope_key(before[b].0@) != scope_key(before[j as int].0@));
                    } else if b == j {
                        assert(scope_key(before[a].0@) != scope_key(before[j as int].0@));
                    }
                }
            }
        } else {
            es.push((scopes, token));
            proof {
                assert(es@.drop_last() =~= before);
            }
        }
        self.entries = es;
    }
}

} // verus!
