//! Client-credentials tokens remembered per target, with expiry.
//!
//! Instants are milliseconds on a monotonic clock that the caller reads.

use vstd::prelude::*;
use crate::error::FetchError;
use crate::error::ProxyError;

verus! {

/// Margin, in milliseconds, by which a token is retired before the issuer's
/// stated lifetime ends.
pub const EXPIRY_MARGIN_MS: u64 = 15000;

/// An `Authorization` value obtained from a token endpoint, and the instant
/// from which it is no longer used.
pub struct CachedToken {
    pub authorization: String,
    pub expires_at: u64,
}

impl View for CachedToken {
    type V = (Seq<char>, u64);

    open spec fn view(&self) -> (Seq<char>, u64) {
        (self.authorization@, self.expires_at)
    }
}

/// What a token endpoint answered.
pub struct TokenResponse {
    pub access_token: String,
    pub token_type: String,
    pub expires_in: u64,
}

/// How long a token issued for `expires_in` seconds is used, in
/// milliseconds: the lifetime (saturated at `u64::MAX`) less the margin, and
/// never below zero.
pub open spec fn usable_lifetime_ms(expires_in: u64) -> u64 {
    let total: int = if expires_in * 1000 > u64::MAX {
        u64::MAX as int
    } else {
        expires_in * 1000
    };
    if total > EXPIRY_MARGIN_MS {
        (total - EXPIRY_MARGIN_MS) as u64
    } else {
        0
    }
}

/// The instant at which a token fetched at `fetched_at` expires, saturated
/// at the end of the clock.
pub open spec fn expiry_of(fetched_at: u64, expires_in: u64) -> u64 {
    if fetched_at + usable_lifetime_ms(expires_in) > u64::MAX {
        u64::MAX
    } else {
        (fetched_at + usable_lifetime_ms(expires_in)) as u64
    }
}

/// `{token_type} {access_token}`.
pub open spec fn authorization_of(token_type: Seq<char>, access_token: Seq<char>) -> Seq<char> {
    token_type + seq![' '] + access_token
}

/// The milliseconds for which a token issued for `expires_in` seconds is used.
pub fn usable_lifetime(expires_in: u64) -> (r: u64)
    ensures
        r == usable_lifetime_ms(expires_in),
{
    let total = match expires_in.checked_mul(1000) {
        Some(t) => t,
        None => u64::MAX,
    };
    total.saturating_sub(EXPIRY_MARGIN_MS)
}

/// The instant at which a token fetched at `fetched_at` stops being used.
pub fn expiry_instant(fetched_at: u64, expires_in: u64) -> (r: u64)
    ensures
        r == expiry_of(fetched_at, expires_in),
{
    fetched_at.saturating_add(usable_lifetime(expires_in))
}

/// The header value a token endpoint's answer gives.
pub fn authorization_from(response: &TokenResponse) -> (r: String)
    ensures
        r@ == authorization_of(response.token_type@, response.access_token@),
{
    let mut r = String::from_str(response.token_type.as_str());
    r.append(" ");
    r.append(response.access_token.as_str());
    proof {
        reveal_strlit(" ");
        assert(r@ =~= authorization_of(response.token_type@, response.access_token@));
    }
    r
}

struct CacheEntry {
    target_id: String,
    token: CachedToken,
}

/// The token stored last under `id` in a sequence of entries.
spec fn latest(entries: Seq<CacheEntry>, id: Seq<char>) -> Option<(Seq<char>, u64)>
    decreases entries.len(),
{
    if entries.len() == 0 {
        None
    } else if entries.last().target_id@ == id {
        Some(entries.last().token@)
    } else {
        latest(entries.drop_last(), id)
    }
}

/// The value a cache holds under `id`, when it is still usable at `now`.
pub open spec fn usable_at(
    cache: Map<Seq<char>, (Seq<char>, u64)>,
    id: Seq<char>,
    now: u64,
) -> Option<Seq<char>> {
    if cache.contains_key(id) && now < cache[id].1 {
        Some(cache[id].0)
    } else {
        None
    }
}

/// Tokens per target id. An entry stays until it is overwritten; once past
/// its expiry it is kept but no longer handed out.
pub struct TokenCache {
    entries: Vec<CacheEntry>,
}

impl View for TokenCache {
    type V = Map<Seq<char>, (Seq<char>, u64)>;

    closed spec fn view(&self) -> Map<Seq<char>, (Seq<char>, u64)> {
        Map::new(
            |id: Seq<char>| latest(self.entries@, id) is Some,
            |id: Seq<char>| latest(self.entries@, id)->0,
        )
    }
}

proof fn lemma_latest_after_update(
    entries: Seq<CacheEntry>,
    idx: int,
    entry: CacheEntry,
    id: Seq<char>,
)
    requires
        0 <= idx < entries.len(),
        entries[idx].target_id@ == entry.target_id@,
        forall|j: int| idx < j < entries.len() ==> entries[j].target_id@ != entry.target_id@,
    ensures
        latest(entries.update(idx, entry), id) == if id == entry.target_id@ {
            Some(entry.token@)
        } else {
            latest(entries, id)
        },
    decreases entries.len(),
{
    let u = entries.update(idx, entry);
    if idx < entries.len() - 1 {
        assert(u.drop_last() =~= entries.drop_last().update(idx, entry));
        lemma_latest_after_update(entries.drop_last(), idx, entry, id);
    } else {
        assert(u.drop_last() =~= entries.drop_last());
    }
}

impl TokenCache {
    /// A cache with no entries.
    pub fn new() -> (r: TokenCache)
        ensures
            r@ == Map::<Seq<char>, (Seq<char>, u64)>::empty(),
    {
        let r = TokenCache { entries: Vec::new() };
        assert(r@ =~= Map::<Seq<char>, (Seq<char>, u64)>::empty());
        r
    }

    /// Position of the entry stored last under `target_id`.
    fn position(&self, target_id: &str) -> (r: Option<usize>)
        ensures
            match r {
                Some(i) => i < self.entries@.len() && self.entries@[i as int].target_id@
                    == target_id@ && (forall|j: int|
                    i < j < self.entries@.len() ==> self.entries@[j].target_id@ != target_id@)
                    && latest(self.entries@, target_id@) == Some(
                    self.entries@[i as int].token@,
                ),
                None => latest(self.entries@, target_id@) is None,
            },
    {
        let mut i: usize = self.entries.len();
        proof {
            assert(self.entries@.subrange(0, i as int) =~= self.entries@);
        }
        while i > 0
            invariant
                i <= self.entries@.len(),
                latest(self.entries@.subrange(0, i as int), target_id@) == latest(
                    self.entries@,
                    target_id@,
                ),
                forall|j: int| i <= j < self.entries@.len() ==> self.entries@[j].target_id@
                    != target_id@,
            decreases i,
        {
            let ghost pre = self.entries@.subrange(0, i as int);
            proof {
                assert(pre.drop_last() =~= self.entries@.subrange(0, i - 1));
            }
            if self.entries[i - 1].target_id == target_id.to_owned() {
                return Some(i - 1);
            }
            i = i - 1;
        }
        None
    }

    /// The stored value for `target_id` if it is still valid at `now`
    /// (strictly before its expiry); nothing otherwise.
    pub fn valid_authorization(&self, target_id: &str, now: u64) -> (r: Option<String>)
        ensures
            crate::auth::value_view(&r) == usable_at(self@, target_id@, now),
    {
        match self.position(target_id) {
            Some(i) => {
                if now < self.entries[i].token.expires_at {
                    Some(self.entries[i].token.authorization.clone())
                } else {
                    None
                }
            },
            None => None,
        }
    }

    /// Stores `token` under `target_id`, replacing what was there.
    pub fn store(&mut self, target_id: &str, token: CachedToken)
        ensures
            final(self)@ == old(self)@.insert(target_id@, token@),
    {
        let ghost token_view = token@;
        let entry = CacheEntry { target_id: target_id.to_owned(), token };
        let ghost e = entry;
        match self.position(target_id) {
            Some(i) => {
                self.entries.set(i, entry);
                assert forall|id: Seq<char>|
                    #![auto]
                    latest(self.entries@, id) == (if id == target_id@ {
                        Some(token_view)
                    } else {
                        latest(old(self).entries@, id)
                    }) by {
                    lemma_latest_after_update(old(self).entries@, i as int, e, id);
                }
            },
            None => {
                self.entries.push(entry);
                assert(self.entries@.drop_last() =~= old(self).entries@);
                assert forall|id: Seq<char>|
                    #![auto]
                    latest(self.entries@, id) == (if id == target_id@ {
                        Some(token_view)
                    } else {
                        latest(old(self).entries@, id)
                    }) by {
                    assert(self.entries@.drop_last() =~= old(self).entries@);
                }
            },
        }
        assert(self@ =~= old(self)@.insert(target_id@, token_view));
    }
}

impl TokenCache {
    /// Ends a token fetch for `target_id` that was started because no valid
    /// value was cached. A fetched token is stored with its expiry counted
    /// from `fetched_at`, and its header value returned; a failed fetch leaves
    /// the cache as it was and fails the request with a gateway error.
    pub fn finish_fetch(
        &mut self,
        target_id: &str,
        fetched_at: u64,
        outcome: Result<TokenResponse, FetchError>,
    ) -> (r: Result<String, ProxyError>)
        ensures
            match outcome {
                Ok(resp) => {
                    let v = authorization_of(resp.token_type@, resp.access_token@);
                    &&& r is Ok
                    &&& r->Ok_0@ == v
                    &&& final(self)@ == old(self)@.insert(
                        target_id@,
                        (v, expiry_of(fetched_at, resp.expires_in)),
                    )
                },
                Err(_) => {
                    &&& r == Err::<String, ProxyError>(ProxyError::UpstreamGateway)
                    &&& final(self)@ == old(self)@
                },
            },
    {
        match outcome {
            Ok(resp) => {
                let value = authorization_from(&resp);
                let expires_at = expiry_instant(fetched_at, resp.expires_in);
                let stored = CachedToken { authorization: value.clone(), expires_at };
                self.store(target_id, stored);
                Ok(value)
            },
            Err(_) => Err(ProxyError::UpstreamGateway),
        }
    }
}

/// A token fetched at `fetched_at` and stored under `id` is handed out for
/// every request strictly before its expiry and for none at or after it; the
/// expiry is the fetch instant plus the stated lifetime less fifteen seconds
/// whenever that lifetime, in milliseconds, is at least the margin and fits
/// in `u64`, and the sum fits the clock.
pub proof fn lemma_token_reuse_window(
    cache: Map<Seq<char>, (Seq<char>, u64)>,
    id: Seq<char>,
    value: Seq<char>,
    fetched_at: u64,
    expires_in: u64,
    now: u64,
)
    ensures
        usable_at(cache.insert(id, (value, expiry_of(fetched_at, expires_in))), id, now) == (if now
            < expiry_of(fetched_at, expires_in) {
            Some(value)
        } else {
            None
        }),
        EXPIRY_MARGIN_MS <= expires_in * 1000 <= u64::MAX && fetched_at + expires_in * 1000 - EXPIRY_MARGIN_MS
            <= u64::MAX ==> expiry_of(fetched_at, expires_in) == fetched_at + expires_in * 1000
            - EXPIRY_MARGIN_MS,
{
}

} // verus!
