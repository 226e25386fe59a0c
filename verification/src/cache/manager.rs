//! The lifecycle of provider-side context caches.
use crate::cache::key::{CacheKey, CacheKeyView};
use crate::text;
use vstd::prelude::*;

verus! {

/// Number of distinct cached contexts held at once.
///
/// A bound matters because the key includes the agent and its instruction: a deployment
/// with many agents, or instructions that vary, would otherwise accumulate provider-side
/// caches for the lifetime of the process.
pub const MAX_CACHE_ENTRIES: usize = 16;

/// When context caches are made and renewed.
#[derive(Debug, Clone, Copy, PartialEq, Eq, Structural)]
pub struct ContextCacheConfig {
    /// Smallest context worth caching; zero switches caching off.
    pub min_tokens: u32,
    /// How long a cache lives; zero switches caching off.
    pub ttl_seconds: u32,
    /// Invocations that one cache serves before it is recreated.
    pub cache_intervals: u32,
}

/// One live cache, as a manager knows it.
pub struct HeldCache {
    /// The context it was created from.
    pub key: CacheKeyView,
    /// Its provider-side name.
    pub name: Seq<char>,
    /// The invocations it has served.
    pub invocation_count: int,
}

/// The key is held at this place, counted from the oldest.
pub open spec fn held_at(held: Seq<HeldCache>, key: CacheKeyView, place: int) -> bool {
    0 <= place < held.len() && held[place].key == key
}

/// A cache is held for this key.
pub open spec fn holds(held: Seq<HeldCache>, key: CacheKeyView) -> bool {
    exists|place: int| held_at(held, key, place)
}

/// Where the cache for a key stands, counted from the oldest.
pub open spec fn place_of(held: Seq<HeldCache>, key: CacheKeyView) -> int {
    choose|place: int| held_at(held, key, place)
}

/// The cache held for exactly this key.
pub open spec fn lookup(held: Seq<HeldCache>, key: CacheKeyView) -> Option<HeldCache> {
    if holds(held, key) {
        Some(held[place_of(held, key)])
    } else {
        None
    }
}

/// What a manager may hold: one cache for each key, and no more than the bound.
pub open spec fn valid(held: Seq<HeldCache>) -> bool {
    &&& held.len() <= MAX_CACHE_ENTRIES
    &&& forall|i: int, j: int|
        0 <= i < j < held.len() ==> (#[trigger] held[i]).key != (#[trigger] held[j]).key
}

/// A cache that has served no invocation yet.
pub open spec fn fresh(key: CacheKeyView, name: Seq<char>) -> HeldCache {
    HeldCache { key, name, invocation_count: 0 }
}

/// What is held after a cache has been stored: it takes the place of the cache of the same
/// key, or joins as the newest, for which the oldest leaves when there is no room.
pub open spec fn stored(held: Seq<HeldCache>, key: CacheKeyView, name: Seq<char>) -> Seq<
    HeldCache,
> {
    if holds(held, key) {
        held.update(place_of(held, key), fresh(key, name))
    } else if held.len() < MAX_CACHE_ENTRIES {
        held.push(fresh(key, name))
    } else {
        held.push(fresh(key, name)).drop_first()
    }
}

/// The names of the caches that a store displaces.
pub open spec fn displaced(held: Seq<HeldCache>, key: CacheKeyView) -> Seq<Seq<char>> {
    if holds(held, key) {
        seq![held[place_of(held, key)].name]
    } else if held.len() < MAX_CACHE_ENTRIES {
        seq![]
    } else {
        seq![held[0].name]
    }
}

/// What is held after an invocation with this key.
pub open spec fn recorded(held: Seq<HeldCache>, key: CacheKeyView) -> Seq<HeldCache> {
    if holds(held, key) {
        let place = place_of(held, key);
        held.update(
            place,
            HeldCache { invocation_count: held[place].invocation_count + 1, ..held[place] },
        )
    } else {
        held
    }
}

/// The cache for a key needs recreating: there is none, or it has served its invocations.
pub open spec fn is_due(held: Seq<HeldCache>, key: CacheKeyView, cache_intervals: int) -> bool {
    match lookup(held, key) {
        None => true,
        Some(cache) => cache.invocation_count >= cache_intervals,
    }
}

/// One cached context and how many invocations have used it.
#[derive(Debug)]
struct CacheEntry {
    key: CacheKey,
    name: String,
    invocation_count: u32,
}

impl CacheEntry {
    spec fn held(self) -> HeldCache {
        HeldCache {
            key: self.key@,
            name: self.name@,
            invocation_count: self.invocation_count as int,
        }
    }
}

/// Cache lifecycle manager.
///
/// Tracks a bounded list of caches keyed by [`CacheKey`], so a cache is reused only for
/// byte-equivalent material on the same model and agent, and determines when caching
/// should be attempted or refreshed based on [`ContextCacheConfig`] settings.
#[derive(Debug)]
pub struct CacheManager {
    config: ContextCacheConfig,
    entries: Vec<CacheEntry>,
}

impl View for CacheManager {
    type V = Seq<HeldCache>;

    /// The live caches, the oldest first.
    closed spec fn view(&self) -> Seq<HeldCache> {
        self.entries@.map_values(|entry: CacheEntry| entry.held())
    }
}

impl CacheManager {
    /// The settings this manager goes by.
    pub closed spec fn config(self) -> ContextCacheConfig {
        self.config
    }

    /// A manager holds one cache for each key, and no more than the bound.
    pub open spec fn wf(self) -> bool {
        valid(self@)
    }

    /// A manager that holds nothing.
    pub fn new(config: ContextCacheConfig) -> (manager: Self)
        ensures
            manager.wf(),
            manager@ == Seq::<HeldCache>::empty(),
            manager.config() == config,
    {
        let manager = CacheManager { config, entries: Vec::new() };
        assert(manager@ =~= Seq::<HeldCache>::empty());
        manager
    }

    /// Whether caching should be attempted at all.
    ///
    /// Returns `false` when `min_tokens` or `ttl_seconds` is zero, effectively disabling the
    /// cache lifecycle. The `min_tokens` threshold itself is enforced by the provider; a zero
    /// value here acts as a kill-switch.
    pub fn is_enabled(&self) -> (enabled: bool)
        ensures
            enabled == (self.config().min_tokens > 0 && self.config().ttl_seconds > 0),
    {
        self.config.min_tokens > 0 && self.config.ttl_seconds > 0
    }

    /// Where the cache for a key stands.
    fn position(&self, key: &CacheKey) -> (place: Option<usize>)
        requires
            self.wf(),
        ensures
            match place {
                Some(i) => i < self.entries@.len() && holds(self@, key@) && place_of(self@, key@)
                    == i,
                None => !holds(self@, key@),
            },
    {
        let mut i: usize = 0;
        while i < self.entries.len()
            invariant
                self.wf(),
                i <= self.entries@.len(),
                forall|j: int| 0 <= j < i ==> (#[trigger] self@[j]).key != key@,
            decreases self.entries@.len() - i,
        {
            if self.entries[i].key == *key {
                proof {
                    assert(self@[i as int].key == key@);
                    assert(held_at(self@, key@, i as int));
                    let place = place_of(self@, key@);
                    assert(held_at(self@, key@, place));
                    assert(place == i) by {
                        if place < i {
                            assert(self@[place].key != self@[i as int].key);
                        }
                        if i < place {
                            assert(self@[i as int].key != self@[place].key);
                        }
                    }
                }
                return Some(i);
            }
            assert(self@[i as int].key != key@);
            i += 1;
        }
        None
    }

    /// The cache for exactly this material, if one is live.
    pub fn cache_name_for(&self, key: &CacheKey) -> (name: Option<&str>)
        requires
            self.wf(),
        ensures
            match lookup(self@, key@) {
                Some(cache) => name is Some && name->0@ == cache.name,
                None => name is None,
            },
    {
        match self.position(key) {
            Some(i) => {
                assert(self@[i as int] == self.entries@[i as int].held());
                Some(self.entries[i].name.as_str())
            },
            None => None,
        }
    }

    /// Whether the cache for this material needs recreating.
    ///
    /// True when nothing is cached for it, or when the entry has served `cache_intervals`
    /// invocations.
    pub fn needs_refresh(&self, key: &CacheKey) -> (due: bool)
        requires
            self.wf(),
        ensures
            due == is_due(self@, key@, self.config().cache_intervals as int),
    {
        match self.position(key) {
            Some(i) => {
                assert(self@[i as int] == self.entries@[i as int].held());
                self.entries[i].invocation_count >= self.config.cache_intervals
            },
            None => true,
        }
    }

    /// Records an invocation against this material and returns its cache name.
    pub fn record_invocation(&mut self, key: &CacheKey) -> (name: Option<&str>)
        requires
            old(self).wf(),
            lookup(old(self)@, key@) matches Some(cache) ==> cache.invocation_count < u32::MAX,
        ensures
            final(self).wf(),
            final(self).config() == old(self).config(),
            final(self)@ == recorded(old(self)@, key@),
            match lookup(old(self)@, key@) {
                Some(cache) => name is Some && name->0@ == cache.name,
                None => name is None,
            },
    {
        match self.position(key) {
            Some(i) => {
                assert(self@[i as int] == self.entries@[i as int].held());
                self.entries[i].invocation_count = self.entries[i].invocation_count + 1;
                assert(self@ =~= recorded(old(self)@, key@));
                Some(self.entries[i].name.as_str())
            },
            None => None,
        }
    }

    /// Stores a freshly created cache, returning the names it displaces.
    ///
    /// A replaced name is returned so the caller can delete it provider-side rather than
    /// leaking it. Storing at capacity evicts the oldest entry, whose name is returned for
    /// the same reason.
    pub fn store(&mut self, key: CacheKey, name: String) -> (replaced: Vec<String>)
        requires
            old(self).wf(),
        ensures
            final(self).wf(),
            final(self).config() == old(self).config(),
            final(self)@ == stored(old(self)@, key@, name@),
            text::texts(replaced@) == displaced(old(self)@, key@),
    {
        let mut replaced: Vec<String> = Vec::new();
        let place: Option<usize> = self.position(&key);
        let ghost entry_held = fresh(key@, name@);
        let entry = CacheEntry { key, name, invocation_count: 0 };
        match place {
            Some(i) => {
                assert(self@[i as int] == self.entries@[i as int].held());
                let previous = self.entries.remove(i);
                self.entries.insert(i, entry);
                replaced.push(previous.name);
                assert(self@ =~= old(self)@.update(i as int, entry_held));
            },
            None => {
                proof {
                    assert forall|j: int| 0 <= j < self@.len() implies (#[trigger] self@[j]).key
                        != entry_held.key by {
                        assert(!held_at(self@, entry_held.key, j));
                    }
                }
                self.entries.push(entry);
                assert(self@ =~= old(self)@.push(entry_held));
                if self.entries.len() > MAX_CACHE_ENTRIES {
                    let oldest = self.entries.remove(0);
                    replaced.push(oldest.name);
                    assert(self@ =~= old(self)@.push(entry_held).drop_first());
                    assert(oldest.name@ == old(self)@[0].name);
                }
            },
        }
        assert(text::texts(replaced@) =~= displaced(old(self)@, entry_held.key));
        replaced
    }

    /// Number of caches currently held.
    pub fn len(&self) -> (count: usize)
        ensures
            count == self@.len(),
    {
        self.entries.len()
    }
}

} // verus!
