//! The cache of role indexes, one per guild, least recently used first out.
//!
//! The cache is an `lru::LruCache` from guild id to the guild's index. The
//! library never looks inside it: it speaks of it as a list of entries, most
//! recently used first, and of the limit it was made with.

use crate::index::{any_role_grants, any_role_in_index, index_lookup, index_model, lookup};
use crate::index::{IndexModel, RoleSets};
use lru::LruCache;
use vstd::prelude::*;

verus! {

/// The number of guilds whose index the bot keeps.
pub const CACHE_SIZE: usize = 100;

/// The largest limit that a cache can be made with. A cache reserves room
/// for as many entries as its limit says when it is made.
pub const MAX_CACHE_SIZE: usize = 65536;

/// `lru::LruCache`, taken as it is: nothing inside it is visible here.
#[verifier::external_type_specification]
#[verifier::external_body]
#[verifier::reject_recursive_types(K)]
#[verifier::reject_recursive_types(V)]
#[verifier::reject_recursive_types(S)]
pub struct ExLruCache<K, V, S>(lru::LruCache<K, V, S>);

/// `lru::DefaultHasher`, the hasher that an `LruCache` uses unless it is
/// given another, taken as it is.
#[verifier::external_type_specification]
#[verifier::external_body]
pub struct ExLruHasher(lru::DefaultHasher);

/// The cache as contracts see it: guild and index, most recently used first.
pub type CacheModel = Seq<(u64, IndexModel)>;

/// The entries of an LRU cache, most recently used first.
pub uninterp spec fn lru_entries(cache: LruCache<u64, RoleSets>) -> CacheModel;

/// The limit that an LRU cache was made with.
pub uninterp spec fn lru_limit(cache: LruCache<u64, RoleSets>) -> nat;

/// Where the guild's entry stands, if the cache has one.
pub open spec fn slot_of(entries: CacheModel, guildid: u64) -> Option<int> {
    if exists|i: int| 0 <= i < entries.len() && (#[trigger] entries[i]).0 == guildid {
        Some(choose|i: int| 0 <= i < entries.len() && (#[trigger] entries[i]).0 == guildid)
    } else {
        None
    }
}

/// The index that the cache holds for the guild, if any.
pub open spec fn cached(entries: CacheModel, guildid: u64) -> Option<IndexModel> {
    match slot_of(entries, guildid) {
        Some(i) => Some(entries[i].1),
        None => None,
    }
}

/// The entries after the guild was looked up: its entry, if there is one,
/// has moved to the front.
pub open spec fn touched(entries: CacheModel, guildid: u64) -> CacheModel {
    match slot_of(entries, guildid) {
        Some(i) => seq![entries[i]] + entries.remove(i),
        None => entries,
    }
}

/// The entries after an index was put in for the guild. An entry of the
/// guild is replaced. Otherwise a cache without room stays as it is, a full
/// one loses its last entry, and the new entry goes to the front.
pub open spec fn installed(
    entries: CacheModel,
    limit: nat,
    guildid: u64,
    index: IndexModel,
) -> CacheModel {
    match slot_of(entries, guildid) {
        Some(i) => seq![(guildid, index)] + entries.remove(i),
        None => if limit == 0 {
            entries
        } else if entries.len() == limit {
            seq![(guildid, index)] + entries.drop_last()
        } else {
            seq![(guildid, index)] + entries
        },
    }
}

/// Whether a list of entries can be the content of a cache with this limit:
/// there is room for at least one guild, no more entries than the limit,
/// and one entry per guild.
pub open spec fn valid_cache(entries: CacheModel, limit: nat) -> bool {
    &&& 1 <= limit
    &&& entries.len() <= limit
    &&& forall|i: int, j: int|
        0 <= i < j < entries.len() ==> (#[trigger] entries[i]).0 != (#[trigger] entries[j]).0
}

/// `LruCache::new`: an empty cache that holds at most `cap` entries. It
/// reserves room for `cap` entries at once, which is why `cap` is bounded.
#[verifier::external_body]
fn lru_new(cap: usize) -> (cache: LruCache<u64, RoleSets>)
    requires
        cap <= MAX_CACHE_SIZE,
    ensures
        lru_entries(cache) == CacheModel::empty(),
        lru_limit(cache) == cap,
{
    LruCache::new(cap)
}

/// `LruCache::get`: the value under the key, if the cache has the key; the
/// key's entry moves to the front, nothing else changes.
#[verifier::external_body]
fn lru_get<'a>(cache: &'a mut LruCache<u64, RoleSets>, guildid: u64) -> (found: Option<
    &'a RoleSets,
>)
    ensures
        lru_limit(*final(cache)) == lru_limit(*old(cache)),
        lru_entries(*final(cache)) == touched(lru_entries(*old(cache)), guildid),
        match found {
            Some(sets) => cached(lru_entries(*old(cache)), guildid) == Some(index_model(*sets)),
            None => cached(lru_entries(*old(cache)), guildid) is None,
        },
{
    cache.get(&guildid)
}

/// `LruCache::put`: the value goes in under the key, at the front. A value
/// that the key had is replaced and handed back. For a new key, a cache
/// made with limit 0 stays empty, and a full cache first drops its last
/// entry.
#[verifier::external_body]
fn lru_put(cache: &mut LruCache<u64, RoleSets>, guildid: u64, sets: RoleSets) -> (replaced: Option<
    RoleSets,
>)
    ensures
        lru_limit(*final(cache)) == lru_limit(*old(cache)),
        lru_entries(*final(cache)) == installed(
            lru_entries(*old(cache)),
            lru_limit(*old(cache)),
            guildid,
            index_model(sets),
        ),
        match replaced {
            Some(before) => cached(lru_entries(*old(cache)), guildid) == Some(
                index_model(before),
            ),
            None => cached(lru_entries(*old(cache)), guildid) is None,
        },
{
    cache.put(guildid, sets)
}

/// In a valid cache the entry at `at` is the one of its guild.
pub proof fn lemma_slot(entries: CacheModel, limit: nat, at: int)
    requires
        valid_cache(entries, limit),
        0 <= at < entries.len(),
    ensures
        slot_of(entries, entries[at].0) == Some(at),
        cached(entries, entries[at].0) == Some(entries[at].1),
{
    let guildid = entries[at].0;
    let i = choose|i: int| 0 <= i < entries.len() && (#[trigger] entries[i]).0 == guildid;
    if i < at {
        assert(entries[i].0 != entries[at].0);
    } else if at < i {
        assert(entries[at].0 != entries[i].0);
    }
}

/// A lookup keeps the cache valid and changes no guild's index.
pub proof fn lemma_touched(entries: CacheModel, limit: nat, guildid: u64)
    requires
        valid_cache(entries, limit),
    ensures
        valid_cache(touched(entries, guildid), limit),
        touched(entries, guildid).len() == entries.len(),
        forall|other: u64| #[trigger]
            cached(touched(entries, guildid), other) == cached(entries, other),
{
    let after = touched(entries, guildid);
    match slot_of(entries, guildid) {
        Some(at) => {
            let rest = entries.remove(at);
            assert(forall|i: int| 0 <= i < at ==> rest[i] == entries[i]);
            assert(forall|i: int| at <= i < rest.len() ==> rest[i] == entries[i + 1]);
            assert(after[0] == entries[at]);
            assert(forall|i: int| 1 <= i < after.len() ==> after[i] == rest[i - 1]);
            assert forall|i: int, j: int| 0 <= i < j < after.len() implies (#[trigger] after[i]).0
                != (#[trigger] after[j]).0 by {
                let a = if i == 0 {
                    at
                } else if i - 1 < at {
                    i - 1
                } else {
                    i
                };
                let b = if j - 1 < at {
                    j - 1
                } else {
                    j
                };
                assert(after[i] == entries[a]);
                assert(after[j] == entries[b]);
                if a < b {
                    assert(entries[a].0 != entries[b].0);
                } else {
                    assert(b < a);
                    assert(entries[b].0 != entries[a].0);
                }
            }
            assert forall|other: u64| #[trigger] cached(after, other) == cached(
                entries,
                other,
            ) by {
                if exists|i: int| 0 <= i < entries.len() && (#[trigger] entries[i]).0 == other {
                    let i = choose|i: int|
                        0 <= i < entries.len() && (#[trigger] entries[i]).0 == other;
                    lemma_slot(entries, limit, i);
                    let k = if i == at {
                        0
                    } else if i < at {
                        i + 1
                    } else {
                        i
                    };
                    assert(after[k] == entries[i]);
                    lemma_slot(after, limit, k);
                } else {
                    if exists|k: int| 0 <= k < after.len() && (#[trigger] after[k]).0 == other {
                        let k = choose|k: int|
                            0 <= k < after.len() && (#[trigger] after[k]).0 == other;
                        let a = if k == 0 {
                            at
                        } else if k - 1 < at {
                            k - 1
                        } else {
                            k
                        };
                        assert(after[k] == entries[a]);
                        assert(entries[a].0 == other);
                    }
                }
            }
        },
        None => {},
    }
}

/// Putting an index in keeps the cache valid; afterwards the guild has that
/// index, and every other guild has the index it had, but for the guild of
/// the last entry when a full cache had to make room.
pub proof fn lemma_installed(entries: CacheModel, limit: nat, guildid: u64, index: IndexModel)
    requires
        valid_cache(entries, limit),
    ensures
        valid_cache(installed(entries, limit, guildid, index), limit),
        cached(installed(entries, limit, guildid, index), guildid) == Some(index),
        forall|other: u64|
            other != guildid ==> #[trigger] cached(
                installed(entries, limit, guildid, index),
                other,
            ) == if cached(entries, guildid) is None && entries.len() == limit && entries.last().0
                == other {
                None
            } else {
                cached(entries, other)
            },
{
    let after = installed(entries, limit, guildid, index);
    let rest = match slot_of(entries, guildid) {
        Some(at) => entries.remove(at),
        None => if entries.len() == limit {
            entries.drop_last()
        } else {
            entries
        },
    };
    let gone: int = match slot_of(entries, guildid) {
        Some(at) => at,
        None => if entries.len() == limit {
            entries.len() - 1
        } else {
            entries.len() as int
        },
    };
    assert(after =~= seq![(guildid, index)] + rest);
    assert(0 <= gone <= entries.len());
    assert(forall|i: int| 0 <= i < rest.len() && i < gone ==> rest[i] == entries[i]);
    assert(forall|i: int| 0 <= i < rest.len() && gone <= i ==> rest[i] == entries[i + 1]);
    assert(after[0] == (guildid, index));
    assert(forall|i: int| 1 <= i < after.len() ==> after[i] == rest[i - 1]);
    assert forall|i: int| 0 <= i < rest.len() implies (#[trigger] rest[i]).0 != guildid by {
        let a = if i < gone {
            i
        } else {
            i + 1
        };
        assert(rest[i] == entries[a]);
        match slot_of(entries, guildid) {
            Some(at) => {
                if a < at {
                    assert(entries[a].0 != entries[at].0);
                } else {
                    assert(entries[at].0 != entries[a].0);
                }
            },
            None => {},
        }
    }
    assert forall|i: int, j: int| 0 <= i < j < after.len() implies (#[trigger] after[i]).0 != (
    #[trigger] after[j]).0 by {
        if i == 0 {
            assert(after[j] == rest[j - 1]);
        } else {
            let a = if i - 1 < gone {
                i - 1
            } else {
                i
            };
            let b = if j - 1 < gone {
                j - 1
            } else {
                j
            };
            assert(after[i] == entries[a]);
            assert(after[j] == entries[b]);
            assert(entries[a].0 != entries[b].0);
        }
    }
    assert(valid_cache(after, limit));
    lemma_slot(after, limit, 0);
    assert forall|other: u64| other != guildid implies #[trigger] cached(after, other) == if cached(
        entries,
        guildid,
    ) is None && entries.len() == limit && entries.last().0 == other {
        None
    } else {
        cached(entries, other)
    } by {
        if exists|k: int| 0 <= k < after.len() && (#[trigger] after[k]).0 == other {
            let k = choose|k: int| 0 <= k < after.len() && (#[trigger] after[k]).0 == other;
            lemma_slot(after, limit, k);
            let a = if k - 1 < gone {
                k - 1
            } else {
                k
            };
            assert(after[k] == entries[a]);
            lemma_slot(entries, limit, a);
            if cached(entries, guildid) is None && entries.len() == limit {
                assert(a != entries.len() - 1);
                assert(entries[a].0 != entries[entries.len() - 1].0);
            }
        } else {
            if exists|i: int| 0 <= i < entries.len() && (#[trigger] entries[i]).0 == other {
                let i = choose|i: int|
                    0 <= i < entries.len() && (#[trigger] entries[i]).0 == other;
                lemma_slot(entries, limit, i);
                if i != gone {
                    let k = if i < gone {
                        i + 1
                    } else {
                        i
                    };
                    assert(after[k] == entries[i]);
                    assert(false);
                }
                match slot_of(entries, guildid) {
                    Some(at) => {
                        assert(entries[at].0 == guildid);
                    },
                    None => {},
                }
            }
        }
    }
}

/// The bot's cache of role indexes.
pub struct RoleCache {
    inner: LruCache<u64, RoleSets>,
}

impl View for RoleCache {
    type V = CacheModel;

    closed spec fn view(&self) -> CacheModel {
        lru_entries(self.inner)
    }
}

impl RoleCache {
    /// The number of guilds that the cache can hold.
    pub closed spec fn limit(&self) -> nat {
        lru_limit(self.inner)
    }

    /// The cache's invariant.
    pub open spec fn wf(&self) -> bool {
        valid_cache(self@, self.limit())
    }

    /// An empty cache for `CACHE_SIZE` guilds.
    pub fn new() -> (cache: RoleCache)
        ensures
            cache.wf(),
            cache@ == CacheModel::empty(),
            cache.limit() == CACHE_SIZE,
    {
        RoleCache { inner: lru_new(CACHE_SIZE) }
    }

    /// An empty cache for `limit` guilds; none where `limit` is 0 or above
    /// `MAX_CACHE_SIZE`.
    pub fn with_capacity(limit: usize) -> (cache: Option<RoleCache>)
        ensures
            cache is Some <==> 1 <= limit <= MAX_CACHE_SIZE,
            cache is Some ==> cache->0.wf() && cache->0@ == CacheModel::empty() && cache->0.limit()
                == limit,
    {
        if limit == 0 || limit > MAX_CACHE_SIZE {
            None
        } else {
            Some(RoleCache { inner: lru_new(limit) })
        }
    }

    /// Asks the guild's cached index about the role and the permission.
    /// `None` when the cache has no index for the guild; else the index's
    /// answer, which is `None` for a permission that the index does not
    /// know. The guild's entry counts as used.
    pub fn lookup_role(&mut self, guildid: u64, roleid: u64, permission: &str) -> (answer: Option<
        Option<bool>,
    >)
        requires
            old(self).wf(),
        ensures
            final(self).wf(),
            final(self).limit() == old(self).limit(),
            final(self)@ == touched(old(self)@, guildid),
            answer == match cached(old(self)@, guildid) {
                Some(index) => Some(lookup(index, permission@, roleid)),
                None => None,
            },
    {
        proof {
            lemma_touched(self@, self.limit(), guildid);
        }
        match lru_get(&mut self.inner, guildid) {
            Some(sets) => Some(index_lookup(sets, roleid, permission)),
            None => None,
        }
    }

    /// Asks the guild's cached index whether the role holds the permission.
    /// `None` when the cache has no index for the guild or the index does
    /// not know the permission. The guild's entry counts as used.
    pub fn check_role_permission_in_cache(
        &mut self,
        guildid: u64,
        roleid: u64,
        permission: &str,
    ) -> (answer: Option<bool>)
        requires
            old(self).wf(),
        ensures
            final(self).wf(),
            final(self).limit() == old(self).limit(),
            final(self)@ == touched(old(self)@, guildid),
            answer == match cached(old(self)@, guildid) {
                Some(index) => lookup(index, permission@, roleid),
                None => None,
            },
    {
        match self.lookup_role(guildid, roleid, permission) {
            Some(answer) => answer,
            None => None,
        }
    }

    /// Asks the guild's cached index whether one of `roles` holds the
    /// permission. `None` when the cache has no index for the guild. The
    /// guild's entry counts as used.
    pub fn check_roles_in_cache(&mut self, guildid: u64, roles: &[u64], permission: &str) -> (answer:
        Option<bool>)
        requires
            old(self).wf(),
        ensures
            final(self).wf(),
            final(self).limit() == old(self).limit(),
            final(self)@ == touched(old(self)@, guildid),
            answer == match cached(old(self)@, guildid) {
                Some(index) => Some(any_role_grants(index, roles@, permission@)),
                None => None,
            },
    {
        proof {
            lemma_touched(self@, self.limit(), guildid);
        }
        match lru_get(&mut self.inner, guildid) {
            Some(sets) => Some(any_role_in_index(sets, roles, permission)),
            None => None,
        }
    }

    /// Puts the guild's index in, in place of one it had; a full cache
    /// drops the entry that was used least recently.
    pub fn install(&mut self, guildid: u64, sets: RoleSets)
        requires
            old(self).wf(),
        ensures
            final(self).wf(),
            final(self).limit() == old(self).limit(),
            final(self)@ == installed(old(self)@, old(self).limit(), guildid, index_model(sets)),
    {
        proof {
            lemma_installed(self@, self.limit(), guildid, index_model(sets));
        }
        let _ = lru_put(&mut self.inner, guildid, sets);
    }
}

} // verus!
