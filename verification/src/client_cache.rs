//! Keeping the client, so that the provider is not discovered for every login.
use crate::client::Client;
use crate::clock::Reading;
use crate::sso_error::SsoError;
use mini_moka::sync::Cache;
use vstd::prelude::*;

verus! {

/// The concurrent cache of `mini_moka`, in which entries expire.
#[verifier::external_type_specification]
#[verifier::external_body]
#[verifier::reject_recursive_types(K)]
#[verifier::reject_recursive_types(V)]
#[verifier::reject_recursive_types(S)]
pub struct ExCache<K, V, S>(Cache<K, V, S>);

/// What was put into the cache and not taken out since. The cache may have
/// dropped entries of it in the meantime, because they expired or for want of
/// room.
pub uninterp spec fn entries(cache: Cache<String, Client>) -> Map<Seq<char>, Client>;

/// The longest time for which the cache keeps an entry, in seconds: a thousand
/// years.
pub const LONGEST_EXPIRATION: u64 = 31_536_000_000;

/// An empty cache with room for one entry, which it keeps for `seconds`.
///
/// Calls `Cache::builder`, `CacheBuilder::max_capacity`,
/// `CacheBuilder::time_to_live` and `CacheBuilder::build` of `mini_moka`, which
/// panics where entries are to be kept for longer than a thousand years.
/// Trusted: a new cache is empty.
#[verifier::external_body]
fn new_cache(seconds: u64) -> (cache: Cache<String, Client>)
    requires
        seconds <= LONGEST_EXPIRATION,
    ensures
        entries(cache) =~= Map::empty(),
{
    Cache::builder().max_capacity(1).time_to_live(std::time::Duration::from_secs(seconds)).build()
}

/// What the cache holds under `key`.
///
/// Calls `Cache::get` of `mini_moka`. Trusted: what comes back was put in under
/// the key and not taken out since. Nothing is claimed of when something comes
/// back, since that depends on the time.
#[verifier::external_body]
fn cache_get(cache: &Cache<String, Client>, key: &String) -> (found: Option<Client>)
    ensures
        found matches Some(client) ==> entries(*cache).contains_key(key@) && entries(*cache)[key@]
            == client,
{
    cache.get(key)
}

/// Puts a client into the cache.
///
/// Calls `Cache::insert` of `mini_moka`. Trusted: the client takes the place of
/// what was under the key.
#[verifier::external_body]
fn cache_insert(cache: &mut Cache<String, Client>, key: String, client: Client)
    ensures
        entries(*final(cache)) == entries(*old(cache)).insert(key@, client),
{
    cache.insert(key, client)
}

/// Takes what is under `key` out of the cache.
///
/// Calls `Cache::invalidate` of `mini_moka`. Trusted: nothing is left under the
/// key.
#[verifier::external_body]
fn cache_invalidate(cache: &mut Cache<String, Client>, key: &String)
    ensures
        entries(*final(cache)) == entries(*old(cache)).remove(key@),
{
    cache.invalidate(key)
}

/// The place of the client.
pub struct ClientCache {
    expiration: u64,
    cache: Cache<String, Client>,
    /// The reading of the clock by which the last id token was judged.
    judged: Option<Reading>,
    /// The one before it.
    judged_before: Option<Reading>,
}

/// Whether there is a client to go on with.
#[derive(Debug)]
pub enum Cached {
    /// This one.
    Ready(Client),
    /// There is none: make one.
    Build,
}

/// What a lookup in the cache means.
pub open spec fn cached_spec(found: Option<Client>) -> Cached {
    match found {
        Some(client) => Cached::Ready(client),
        None => Cached::Build,
    }
}

impl ClientCache {
    /// For how many seconds a client is kept; not at all if this is zero.
    pub closed spec fn expiration(self) -> u64 {
        self.expiration
    }

    /// The client that was stored last, unless it has been dropped on request
    /// since. It is there no longer once it has expired.
    pub closed spec fn stored(self) -> Option<Client> {
        if entries(self.cache).contains_key("sso-client"@) {
            Some(entries(self.cache)["sso-client"@])
        } else {
            None
        }
    }

    /// The reading of the clock by which the last id token was judged.
    pub closed spec fn judged(self) -> Option<Reading> {
        self.judged
    }

    /// The reading of the clock by which the id token before the last was judged.
    pub closed spec fn judged_before(self) -> Option<Reading> {
        self.judged_before
    }

    /// Notes the reading of the clock by which an id token is judged.
    pub(crate) fn note(&mut self, reading: Reading)
        ensures
            final(self).judged() == Some(reading),
            final(self).judged_before() == old(self).judged(),
            final(self).expiration() == old(self).expiration(),
            final(self).stored() == old(self).stored(),
    {
        self.judged_before = self.judged.take();
        self.judged = Some(reading);
    }

    /// An empty place in which a client is kept for `expiration` seconds.
    pub fn new(expiration: u64) -> (cache: ClientCache)
        requires
            expiration <= LONGEST_EXPIRATION,
        ensures
            cache.expiration() == expiration,
            cache.stored() is None,
            cache.judged() is None,
    {
        ClientCache {
            expiration,
            cache: new_cache(expiration),
            judged: None,
            judged_before: None,
        }
    }
}

/// A lookup in the cache may give this answer. That there is no client is
/// always possible, since a client may have expired.
pub open spec fn may_answer(cache: ClientCache, answer: Cached) -> bool {
    answer matches Cached::Ready(client) ==> cache.expiration() > 0 && cache.stored() == Some(
        client,
    )
}

/// The cache is as it was.
pub open spec fn unchanged(before: ClientCache, after: ClientCache) -> bool {
    after.expiration() == before.expiration() && after.stored() == before.stored()
}

/// The cache has got a client, if it keeps any.
pub open spec fn kept(before: ClientCache, after: ClientCache, client: Client) -> bool {
    if before.expiration() > 0 {
        after.expiration() == before.expiration() && after.stored() == Some(client)
    } else {
        unchanged(before, after)
    }
}

/// The cache holds no client any more, if it keeps any.
pub open spec fn dropped(before: ClientCache, after: ClientCache) -> bool {
    if before.expiration() > 0 {
        after.expiration() == before.expiration() && after.stored() is None
    } else {
        unchanged(before, after)
    }
}

impl Client {
    /// What a lookup in the cache means.
    pub fn from_lookup(found: Option<Client>) -> (answer: Cached)
        ensures
            answer == cached_spec(found),
            found matches Some(client) ==> answer == Cached::Ready(client),
            found is None ==> answer == Cached::Build,
    {
        match found {
            Some(client) => Cached::Ready(client),
            None => Cached::Build,
        }
    }

    /// The client that is kept, if it is still there. Nothing is looked up where
    /// nothing is kept.
    pub fn cached(cache: &ClientCache) -> (answer: Cached)
        ensures
            may_answer(*cache, answer),
            answer matches Cached::Ready(client) ==> cache.expiration() > 0 && cache.stored()
                == Some(client),
    {
        if cache.expiration > 0 {
            Client::from_lookup(cache_get(&cache.cache, &"sso-client".to_owned()))
        } else {
            Cached::Build
        }
    }

    /// Keeps a client that was just made, and hands the outcome on.
    pub fn remember(cache: &mut ClientCache, built: Result<Client, SsoError>) -> (res: Result<
        Client,
        SsoError,
    >)
        ensures
            res == built,
            final(cache).expiration() == old(cache).expiration(),
            final(cache).stored() == (if old(cache).expiration() > 0 && built is Ok {
                Some(built->Ok_0)
            } else {
                old(cache).stored()
            }),
            final(cache).judged() == old(cache).judged(),
            final(cache).judged_before() == old(cache).judged_before(),
            match built {
                Ok(client) => kept(*old(cache), *final(cache), client),
                Err(_) => unchanged(*old(cache), *final(cache)),
            },
    {
        if cache.expiration > 0 {
            if let Ok(client) = &built {
                cache_insert(&mut cache.cache, "sso-client".to_owned(), client.clone());
            }
        }
        built
    }

    /// Drops the client that is kept.
    pub fn invalidate(cache: &mut ClientCache)
        ensures
            dropped(*old(cache), *final(cache)),
            final(cache).expiration() == old(cache).expiration(),
            final(cache).stored() == (if old(cache).expiration() > 0 {
                None
            } else {
                old(cache).stored()
            }),
            final(cache).judged() == old(cache).judged(),
            final(cache).judged_before() == old(cache).judged_before(),
    {
        if cache.expiration > 0 {
            cache_invalidate(&mut cache.cache, &"sso-client".to_owned());
        }
    }
}

/// Once the client has been dropped, no lookup finds one.
pub proof fn dropped_clients_do_not_come_back(
    before: ClientCache,
    after: ClientCache,
    answer: Cached,
)
    requires
        dropped(before, after),
        may_answer(after, answer),
    ensures
        answer is Build,
{
}

/// A lookup finds no other client than the one that was stored last.
pub proof fn lookups_find_the_stored_client(
    before: ClientCache,
    after: ClientCache,
    client: Client,
    answer: Cached,
)
    requires
        kept(before, after, client),
        may_answer(after, answer),
    ensures
        answer == Cached::Ready(client) || answer is Build,
{
}

/// With an expiration of zero nothing is ever found.
pub proof fn without_expiration_nothing_is_kept(cache: ClientCache, answer: Cached)
    requires
        cache.expiration() == 0,
        may_answer(cache, answer),
    ensures
        answer is Build,
{
}

} // verus!
