//! What holds of every cache lifecycle.
use crate::cache::key::CacheKeyView;
use crate::cache::manager;
use crate::cache::manager::{HeldCache, MAX_CACHE_ENTRIES};
use vstd::prelude::*;

verus! {

/// The names of the caches held.
pub open spec fn names(held: Seq<HeldCache>) -> Seq<Seq<char>> {
    held.map_values(|cache: HeldCache| cache.name)
}

/// What is held after a key has been used `times` times.
pub open spec fn recorded_times(held: Seq<HeldCache>, key: CacheKeyView, times: nat) -> Seq<
    HeldCache,
>
    decreases times,
{
    if times == 0 {
        held
    } else {
        manager::recorded(recorded_times(held, key, (times - 1) as nat), key)
    }
}

/// What is held after caches have been stored one after the other.
pub open spec fn stored_all(
    held: Seq<HeldCache>,
    caches: Seq<(CacheKeyView, Seq<char>)>,
) -> Seq<HeldCache>
    decreases caches.len(),
{
    if caches.len() == 0 {
        held
    } else {
        let before = stored_all(held, caches.drop_last());
        manager::stored(before, caches.last().0, caches.last().1)
    }
}

/// The names displaced while caches are stored one after the other, in order.
pub open spec fn displaced_all(
    held: Seq<HeldCache>,
    caches: Seq<(CacheKeyView, Seq<char>)>,
) -> Seq<Seq<char>>
    decreases caches.len(),
{
    if caches.len() == 0 {
        seq![]
    } else {
        let before = stored_all(held, caches.drop_last());
        displaced_all(held, caches.drop_last()) + manager::displaced(before, caches.last().0)
    }
}

/// The caches, each with no invocation served.
pub open spec fn all_fresh(caches: Seq<(CacheKeyView, Seq<char>)>) -> Seq<HeldCache> {
    caches.map_values(|cache: (CacheKeyView, Seq<char>)| manager::fresh(cache.0, cache.1))
}

/// The keys of the caches differ from one another.
pub open spec fn keys_differ(caches: Seq<(CacheKeyView, Seq<char>)>) -> bool {
    forall|i: int, j: int|
        0 <= i < j < caches.len() ==> (#[trigger] caches[i]).0 != (#[trigger] caches[j]).0
}

/// Where a key is found, there it is looked up.
proof fn lemma_lookup_at(held: Seq<HeldCache>, key: CacheKeyView, place: int)
    requires
        manager::valid(held),
        manager::held_at(held, key, place),
    ensures
        manager::holds(held, key),
        manager::place_of(held, key) == place,
        manager::lookup(held, key) == Some(held[place]),
{
    let found = manager::place_of(held, key);
    assert(manager::held_at(held, key, found));
    if found < place {
        assert(held[found].key != held[place].key);
    }
    if place < found {
        assert(held[place].key != held[found].key);
    }
}

/// A key that stands nowhere is not looked up.
proof fn lemma_lookup_nowhere(held: Seq<HeldCache>, key: CacheKeyView)
    requires
        forall|i: int| 0 <= i < held.len() ==> (#[trigger] held[i]).key != key,
    ensures
        !manager::holds(held, key),
        manager::lookup(held, key) == None::<HeldCache>,
{
}

/// The bound and the distinctness of keys survive every store.
pub proof fn law_store_keeps_validity(held: Seq<HeldCache>, key: CacheKeyView, name: Seq<char>)
    requires
        manager::valid(held),
    ensures
        manager::valid(manager::stored(held, key, name)),
{
    if manager::holds(held, key) {
        let place = manager::place_of(held, key);
        assert(manager::held_at(held, key, place));
    } else {
        assert forall|i: int| 0 <= i < held.len() implies (#[trigger] held[i]).key != key by {
            assert(!manager::held_at(held, key, i));
        }
    }
}

/// A stored cache is live under its key, with its whole interval ahead: it needs refreshing at
/// once only where an interval has no invocations.
pub proof fn law_a_stored_cache_is_live_and_fresh(
    held: Seq<HeldCache>,
    key: CacheKeyView,
    name: Seq<char>,
    cache_intervals: int,
)
    requires
        manager::valid(held),
    ensures
        manager::lookup(manager::stored(held, key, name), key) == Some(manager::fresh(key, name)),
        manager::is_due(manager::stored(held, key, name), key, cache_intervals) == (0
            >= cache_intervals),
{
    let after = manager::stored(held, key, name);
    law_store_keeps_validity(held, key, name);
    if manager::holds(held, key) {
        let place = manager::place_of(held, key);
        assert(manager::held_at(held, key, place));
        lemma_lookup_at(after, key, place);
    } else {
        lemma_lookup_at(after, key, after.len() - 1);
    }
}

/// A store leaves the caches of other keys alone, but for the oldest one where it needs room.
pub proof fn law_store_touches_no_other_key(
    held: Seq<HeldCache>,
    key: CacheKeyView,
    name: Seq<char>,
    other: CacheKeyView,
)
    requires
        manager::valid(held),
        other != key,
    ensures
        manager::lookup(manager::stored(held, key, name), other) == if !manager::holds(held, key)
            && held.len() == MAX_CACHE_ENTRIES && held[0].key == other {
            None
        } else {
            manager::lookup(held, other)
        },
{
    let after = manager::stored(held, key, name);
    law_store_keeps_validity(held, key, name);
    let shift: int = if !manager::holds(held, key) && held.len() == MAX_CACHE_ENTRIES {
        1
    } else {
        0
    };
    if manager::holds(held, key) {
        assert(manager::held_at(held, key, manager::place_of(held, key)));
    }
    if manager::holds(held, other) {
        let place = manager::place_of(held, other);
        assert(manager::held_at(held, other, place));
        if place - shift >= 0 {
            assert(after[place - shift] == held[place]);
            lemma_lookup_at(after, other, place - shift);
            if shift == 1 {
                assert(held[0].key != held[place].key);
            }
        } else {
            assert forall|i: int| 0 <= i < after.len() implies (#[trigger] after[i]).key
                != other by {
                if i < held.len() - 1 {
                    assert(after[i] == held[i + 1]);
                    assert(held[0].key != held[i + 1].key);
                }
            }
            lemma_lookup_nowhere(after, other);
        }
    } else {
        assert forall|i: int| 0 <= i < held.len() implies (#[trigger] held[i]).key != other by {
            assert(!manager::held_at(held, other, i));
        }
        assert forall|i: int| 0 <= i < after.len() implies (#[trigger] after[i]).key != other by {
            if i + shift < held.len() {
                assert(after[i] == held[i + shift] || after[i].key == key);
            }
        }
        lemma_lookup_nowhere(after, other);
        if held.len() == MAX_CACHE_ENTRIES {
            assert(held[0].key != other);
        }
    }
}

/// An invocation leaves the caches of other keys alone, and changes no name.
pub proof fn law_recording_touches_no_other_key(
    held: Seq<HeldCache>,
    key: CacheKeyView,
    other: CacheKeyView,
)
    requires
        manager::valid(held),
        other != key,
    ensures
        manager::valid(manager::recorded(held, key)),
        manager::lookup(manager::recorded(held, key), other) == manager::lookup(held, other),
        names(manager::recorded(held, key)) == names(held),
{
    let after = manager::recorded(held, key);
    if manager::holds(held, key) {
        assert(manager::held_at(held, key, manager::place_of(held, key)));
    }
    assert(names(after) =~= names(held));
    if manager::holds(held, other) {
        let place = manager::place_of(held, other);
        assert(manager::held_at(held, other, place));
        lemma_lookup_at(after, other, place);
    } else {
        assert forall|i: int| 0 <= i < held.len() implies (#[trigger] held[i]).key != other by {
            assert(!manager::held_at(held, other, i));
        }
        lemma_lookup_nowhere(after, other);
    }
}

/// A stored cache is reused until its interval elapses: after any number of invocations it is
/// still live under its name, and it needs refreshing exactly when that number has reached
/// the interval.
pub proof fn law_a_cache_is_reused_until_its_interval_elapses(
    held: Seq<HeldCache>,
    key: CacheKeyView,
    name: Seq<char>,
    times: nat,
    cache_intervals: int,
)
    requires
        manager::valid(held),
    ensures
        ({
            let after = recorded_times(manager::stored(held, key, name), key, times);
            &&& manager::valid(after)
            &&& manager::lookup(after, key) == Some(
                HeldCache { key, name, invocation_count: times as int },
            )
            &&& manager::is_due(after, key, cache_intervals) == (times >= cache_intervals)
        }),
    decreases times,
{
    if times == 0 {
        law_store_keeps_validity(held, key, name);
        law_a_stored_cache_is_live_and_fresh(held, key, name, cache_intervals);
    } else {
        let before = recorded_times(
            manager::stored(held, key, name),
            key,
            (times - 1) as nat,
        );
        law_a_cache_is_reused_until_its_interval_elapses(
            held,
            key,
            name,
            (times - 1) as nat,
            cache_intervals,
        );
        let place = manager::place_of(before, key);
        assert(manager::held_at(before, key, place));
        lemma_lookup_at(manager::recorded(before, key), key, place);
    }
}

/// No provider-side cache is leaked: the names held before a store, with the new one, are the
/// names held after it, with those reported as displaced.
pub proof fn law_every_name_is_held_or_reported(
    held: Seq<HeldCache>,
    key: CacheKeyView,
    name: Seq<char>,
)
    requires
        manager::valid(held),
    ensures
        names(held).to_multiset().insert(name) == names(
            manager::stored(held, key, name),
        ).to_multiset().add(manager::displaced(held, key).to_multiset()),
{
    broadcast use vstd::seq_lib::group_to_multiset_ensures;
    broadcast use vstd::multiset::group_multiset_axioms;

    let before = names(held);
    let after = names(manager::stored(held, key, name));
    let gone = manager::displaced(held, key);
    let none = Seq::<Seq<char>>::empty();
    assert(none.to_multiset() =~= vstd::multiset::Multiset::empty());
    if manager::holds(held, key) {
        let place = manager::place_of(held, key);
        assert(manager::held_at(held, key, place));
        assert(after =~= before.update(place, name));
        assert(gone =~= none.push(before[place]));
        assert(after.to_multiset() =~= before.to_multiset().insert(name).remove(before[place]));
        assert(before.contains(before[place]));
        assert(before.to_multiset().count(before[place]) > 0);
        assert(gone.to_multiset() =~= none.to_multiset().insert(before[place]));
    } else if held.len() < MAX_CACHE_ENTRIES {
        assert(after =~= before.push(name));
        assert(gone =~= none);
    } else {
        assert(after =~= before.push(name).remove(0));
        assert(gone =~= none.push(before[0]));
        assert(before.push(name).contains(before.push(name)[0]));
        assert(before.push(name).to_multiset().count(before[0]) > 0);
        assert(gone.to_multiset() =~= none.to_multiset().insert(before[0]));
    }
    assert(before.to_multiset().insert(name) =~= after.to_multiset().add(gone.to_multiset()));
}

/// The oldest leave first: of contexts stored one after the other, none twice, the newest are
/// held up to the bound, and the names of the others have been reported in the order in which
/// they were stored.
pub proof fn law_the_oldest_leave_first(caches: Seq<(CacheKeyView, Seq<char>)>)
    requires
        keys_differ(caches),
    ensures
        ({
            let gone: int = if caches.len() <= MAX_CACHE_ENTRIES {
                0
            } else {
                caches.len() - MAX_CACHE_ENTRIES
            };
            &&& stored_all(seq![], caches) == all_fresh(caches).skip(gone)
            &&& displaced_all(seq![], caches) == names(all_fresh(caches)).take(gone)
        }),
    decreases caches.len(),
{
    let empty = Seq::<HeldCache>::empty();
    if caches.len() == 0 {
        assert(stored_all(empty, caches) =~= all_fresh(caches).skip(0));
        assert(displaced_all(empty, caches) =~= names(all_fresh(caches)).take(0));
    } else {
        let rest = caches.drop_last();
        let key = caches.last().0;
        let before = stored_all(empty, rest);
        let gone_before: int = if rest.len() <= MAX_CACHE_ENTRIES {
            0
        } else {
            rest.len() - MAX_CACHE_ENTRIES
        };
        law_the_oldest_leave_first(rest);
        assert forall|i: int| 0 <= i < before.len() implies (#[trigger] before[i]).key != key by {
            assert(before[i].key == caches[i + gone_before].0);
            assert(caches[i + gone_before].0 != caches[caches.len() - 1].0);
        }
        lemma_lookup_nowhere(before, key);
        if caches.len() <= MAX_CACHE_ENTRIES {
            assert(stored_all(empty, caches) =~= all_fresh(caches).skip(0));
            assert(displaced_all(empty, caches) =~= names(all_fresh(caches)).take(0));
        } else {
            assert(before[0].name == caches[gone_before].1);
            assert(stored_all(empty, caches) =~= all_fresh(caches).skip(gone_before + 1));
            assert(displaced_all(empty, caches) =~= names(all_fresh(caches)).take(
                gone_before + 1,
            ));
        }
    }
}

/// One thing done with a manager that changes what it holds.
pub enum CacheStep {
    /// A cache is stored.
    Store { key: CacheKeyView, name: Seq<char> },
    /// An invocation is recorded.
    Record { key: CacheKeyView },
}

/// What is held after a step.
pub open spec fn after_step(held: Seq<HeldCache>, step: CacheStep) -> Seq<HeldCache> {
    match step {
        CacheStep::Store { key, name } => manager::stored(held, key, name),
        CacheStep::Record { key } => manager::recorded(held, key),
    }
}

/// The names that a step reports as displaced.
pub open spec fn reported_by_step(held: Seq<HeldCache>, step: CacheStep) -> Seq<Seq<char>> {
    match step {
        CacheStep::Store { key, .. } => manager::displaced(held, key),
        CacheStep::Record { .. } => seq![],
    }
}

/// What is held after any mix of steps.
pub open spec fn after_steps(held: Seq<HeldCache>, steps: Seq<CacheStep>) -> Seq<HeldCache>
    decreases steps.len(),
{
    if steps.len() == 0 {
        held
    } else {
        after_step(after_steps(held, steps.drop_last()), steps.last())
    }
}

/// The names reported as displaced over any mix of steps, in order.
pub open spec fn reported_by_steps(held: Seq<HeldCache>, steps: Seq<CacheStep>) -> Seq<Seq<char>>
    decreases steps.len(),
{
    if steps.len() == 0 {
        seq![]
    } else {
        reported_by_steps(held, steps.drop_last()) + reported_by_step(
            after_steps(held, steps.drop_last()),
            steps.last(),
        )
    }
}

/// The steps without the recorded invocations.
pub open spec fn stores_of(steps: Seq<CacheStep>) -> Seq<CacheStep>
    decreases steps.len(),
{
    if steps.len() == 0 {
        seq![]
    } else if steps.last() is Store {
        stores_of(steps.drop_last()).push(steps.last())
    } else {
        stores_of(steps.drop_last())
    }
}

/// The names stored over the steps, in order.
pub open spec fn names_stored(steps: Seq<CacheStep>) -> Seq<Seq<char>>
    decreases steps.len(),
{
    if steps.len() == 0 {
        seq![]
    } else {
        match steps.last() {
            CacheStep::Store { name, .. } => names_stored(steps.drop_last()).push(name),
            CacheStep::Record { .. } => names_stored(steps.drop_last()),
        }
    }
}

/// The name last stored for a key.
pub open spec fn last_name(steps: Seq<CacheStep>, key: CacheKeyView) -> Option<Seq<char>>
    decreases steps.len(),
{
    if steps.len() == 0 {
        None
    } else {
        match steps.last() {
            CacheStep::Store { key: stored, name } if stored == key => Some(name),
            _ => last_name(steps.drop_last(), key),
        }
    }
}

/// How many invocations with a key were recorded since a cache was last stored for it.
pub open spec fn uses_since_store(steps: Seq<CacheStep>, key: CacheKeyView) -> int
    decreases steps.len(),
{
    if steps.len() == 0 {
        0
    } else {
        let before = uses_since_store(steps.drop_last(), key);
        match steps.last() {
            CacheStep::Store { key: stored, .. } => if stored == key {
                0
            } else {
                before
            },
            CacheStep::Record { key: used } => if used == key {
                before + 1
            } else {
                before
            },
        }
    }
}

/// The same caches in the same places, whatever invocations they have served.
pub open spec fn same_caches(a: Seq<HeldCache>, b: Seq<HeldCache>) -> bool {
    &&& a.len() == b.len()
    &&& forall|i: int|
        0 <= i < a.len() ==> (#[trigger] a[i]).key == b[i].key && a[i].name == b[i].name
}

/// A manager stays valid over any mix of steps.
pub proof fn law_any_mix_of_steps_keeps_validity(held: Seq<HeldCache>, steps: Seq<CacheStep>)
    requires
        manager::valid(held),
    ensures
        manager::valid(after_steps(held, steps)),
    decreases steps.len(),
{
    if steps.len() > 0 {
        let before = after_steps(held, steps.drop_last());
        law_any_mix_of_steps_keeps_validity(held, steps.drop_last());
        match steps.last() {
            CacheStep::Store { key, name } => {
                law_store_keeps_validity(before, key, name);
            },
            CacheStep::Record { key } => {
                lemma_recording_keeps_caches(before, key);
            },
        }
    }
}

/// Recording changes no key and no name.
proof fn lemma_recording_keeps_caches(held: Seq<HeldCache>, key: CacheKeyView)
    requires
        manager::valid(held),
    ensures
        same_caches(manager::recorded(held, key), held),
        manager::valid(manager::recorded(held, key)),
        names(manager::recorded(held, key)) == names(held),
{
    if manager::holds(held, key) {
        assert(manager::held_at(held, key, manager::place_of(held, key)));
    }
    assert(names(manager::recorded(held, key)) =~= names(held));
}

/// A store does the same to the same caches.
proof fn lemma_store_ignores_counts(
    a: Seq<HeldCache>,
    b: Seq<HeldCache>,
    key: CacheKeyView,
    name: Seq<char>,
)
    requires
        manager::valid(a),
        same_caches(a, b),
    ensures
        manager::displaced(a, key) == manager::displaced(b, key),
        same_caches(manager::stored(a, key, name), manager::stored(b, key, name)),
{
    assert(manager::valid(b)) by {
        assert forall|i: int, j: int| 0 <= i < j < b.len() implies (#[trigger] b[i]).key != (
        #[trigger] b[j]).key by {
            assert(a[i].key != a[j].key);
        }
    }
    if manager::holds(a, key) {
        let place = manager::place_of(a, key);
        assert(manager::held_at(a, key, place));
        assert(a[place].key == b[place].key);
        assert(manager::held_at(b, key, place));
        lemma_lookup_at(b, key, place);
        assert(a[place].name == b[place].name);
    } else {
        assert forall|i: int| 0 <= i < b.len() implies (#[trigger] b[i]).key != key by {
            assert(!manager::held_at(a, key, i));
            assert(a[i].key == b[i].key);
        }
        lemma_lookup_nowhere(b, key);
        if a.len() > 0 {
            assert(a[0].name == b[0].name);
        }
        let x = manager::stored(a, key, name);
        let y = manager::stored(b, key, name);
        assert forall|i: int| 0 <= i < x.len() implies (#[trigger] x[i]).key == y[i].key
            && x[i].name == y[i].name by {
            let at = if a.len() < MAX_CACHE_ENTRIES { i } else { i + 1 };
            if at < a.len() {
                assert(a[at].key == b[at].key && a[at].name == b[at].name);
            }
        }
    }
}

/// Recorded invocations change no store: over any mix of steps the caches held, their order and
/// their names, and everything reported as displaced are those of the stores alone.
pub proof fn law_recording_changes_no_store(held: Seq<HeldCache>, steps: Seq<CacheStep>)
    requires
        manager::valid(held),
    ensures
        same_caches(after_steps(held, steps), after_steps(held, stores_of(steps))),
        reported_by_steps(held, steps) == reported_by_steps(held, stores_of(steps)),
    decreases steps.len(),
{
    if steps.len() > 0 {
        let rest = steps.drop_last();
        let stores = stores_of(rest);
        let before = after_steps(held, rest);
        law_recording_changes_no_store(held, rest);
        law_any_mix_of_steps_keeps_validity(held, rest);
        match steps.last() {
            CacheStep::Store { key, name } => {
                lemma_store_ignores_counts(before, after_steps(held, stores), key, name);
                assert(stores_of(steps).drop_last() =~= stores);
            },
            CacheStep::Record { key } => {
                lemma_recording_keeps_caches(before, key);
                let after = manager::recorded(before, key);
                let others = after_steps(held, stores);
                assert forall|i: int| 0 <= i < after.len() implies (#[trigger] after[i]).key
                    == others[i].key && after[i].name == others[i].name by {
                    assert(before[i].key == others[i].key);
                    assert(after[i].key == before[i].key);
                }
                assert(reported_by_steps(held, steps) =~= reported_by_steps(held, rest));
            },
        }
    }
}

/// No name is leaked over a lifetime: over any mix of steps, the names held at first and those
/// stored are the names held at last and those reported on the way.
pub proof fn law_no_name_is_ever_leaked(held: Seq<HeldCache>, steps: Seq<CacheStep>)
    requires
        manager::valid(held),
    ensures
        names(held).to_multiset().add(names_stored(steps).to_multiset()) == names(
            after_steps(held, steps),
        ).to_multiset().add(reported_by_steps(held, steps).to_multiset()),
    decreases steps.len(),
{
    broadcast use vstd::multiset::group_multiset_axioms;

    let none = Seq::<Seq<char>>::empty();
    none.to_multiset_ensures();
    if steps.len() > 0 {
        let rest = steps.drop_last();
        let before = after_steps(held, rest);
        let reported = reported_by_steps(held, rest);
        law_no_name_is_ever_leaked(held, rest);
        law_any_mix_of_steps_keeps_validity(held, rest);
        match steps.last() {
            CacheStep::Store { key, name } => {
                let gone = manager::displaced(before, key);
                law_every_name_is_held_or_reported(before, key, name);
                vstd::seq_lib::to_multiset_build(names_stored(rest), name);
                vstd::seq_lib::lemma_multiset_commutative(reported, gone);
                let first = names(held).to_multiset();
                let stored = names_stored(rest).to_multiset();
                let middle = names(before).to_multiset();
                let last = names(manager::stored(before, key, name)).to_multiset();
                assert(first.add(stored.insert(name)) =~= first.add(stored).insert(name));
                assert(middle.add(reported.to_multiset()).insert(name) =~= middle.insert(name).add(
                    reported.to_multiset(),
                ));
                assert(last.add(gone.to_multiset()).add(reported.to_multiset()) =~= last.add(
                    reported.to_multiset().add(gone.to_multiset()),
                ));
            },
            CacheStep::Record { key } => {
                lemma_recording_keeps_caches(before, key);
                assert(reported_by_steps(held, steps) =~= reported);
            },
        }
    }
}

/// What a manager answers about a key follows from what was done with it: a live cache has the
/// name last stored for the key and the invocations recorded since, and the key needs
/// refreshing exactly when no cache is live for it or those invocations reach the interval.
pub proof fn law_due_when_not_live_or_used_up(
    steps: Seq<CacheStep>,
    key: CacheKeyView,
    cache_intervals: int,
)
    ensures
        ({
            let held = after_steps(seq![], steps);
            let live = manager::lookup(held, key);
            &&& live matches Some(cache) ==> cache.key == key && last_name(steps, key) == Some(
                cache.name,
            ) && cache.invocation_count == uses_since_store(steps, key)
            &&& manager::is_due(held, key, cache_intervals) <==> live is None || uses_since_store(
                steps,
                key,
            ) >= cache_intervals
        }),
    decreases steps.len(),
{
    let empty = Seq::<HeldCache>::empty();
    assert(manager::valid(empty));
    if steps.len() == 0 {
        lemma_lookup_nowhere(empty, key);
    } else {
        let rest = steps.drop_last();
        let before = after_steps(empty, rest);
        law_due_when_not_live_or_used_up(rest, key, cache_intervals);
        law_any_mix_of_steps_keeps_validity(empty, rest);
        match steps.last() {
            CacheStep::Store { key: stored, name } => {
                if stored == key {
                    law_a_stored_cache_is_live_and_fresh(before, key, name, cache_intervals);
                } else {
                    law_store_touches_no_other_key(before, stored, name, key);
                }
            },
            CacheStep::Record { key: used } => {
                if used == key {
                    if manager::holds(before, key) {
                        let place = manager::place_of(before, key);
                        assert(manager::held_at(before, key, place));
                        lemma_recording_keeps_caches(before, key);
                        lemma_lookup_at(manager::recorded(before, key), key, place);
                    }
                } else {
                    law_recording_touches_no_other_key(before, used, key);
                }
            },
        }
    }
}

/// A manager holds at most sixteen caches, and never two for one context; nothing else is asked
/// of what it holds.
pub proof fn law_at_most_sixteen_contexts_are_held(held: Seq<HeldCache>)
    ensures
        manager::valid(held) <==> {
            &&& held.len() <= 16
            &&& forall|i: int, j: int|
                0 <= i < j < held.len() ==> (#[trigger] held[i]).key != (#[trigger] held[j]).key
        },
{
}

/// A lookup finds the cache that is held for the key, and nothing where none is held for it.
pub proof fn law_a_lookup_finds_what_is_held(held: Seq<HeldCache>, key: CacheKeyView, place: int)
    requires
        forall|i: int, j: int|
            0 <= i < j < held.len() ==> (#[trigger] held[i]).key != (#[trigger] held[j]).key,
    ensures
        0 <= place < held.len() && held[place].key == key ==> manager::lookup(held, key) == Some(
            held[place],
        ),
        (forall|i: int| 0 <= i < held.len() ==> (#[trigger] held[i]).key != key)
            ==> manager::lookup(held, key) is None,
        manager::lookup(held, key) matches Some(cache) ==> held.contains(cache) && cache.key == key,
{
    if manager::holds(held, key) {
        let found = manager::place_of(held, key);
        assert(manager::held_at(held, key, found));
        assert(held.contains(held[found]));
        if 0 <= place < held.len() && held[place].key == key {
            if found < place {
                assert(held[found].key != held[place].key);
            }
            if place < found {
                assert(held[place].key != held[found].key);
            }
        }
    } else if 0 <= place < held.len() && held[place].key == key {
        assert(manager::held_at(held, key, place));
    }
}

/// A renewed context keeps its place: storing under a key that is held changes the cache of that
/// key, which is new under its new name, and leaves the order of keys and every other cache as
/// they are; the name it had is the one reported.
pub proof fn law_a_renewed_context_keeps_its_place(
    held: Seq<HeldCache>,
    key: CacheKeyView,
    name: Seq<char>,
    place: int,
)
    requires
        manager::valid(held),
        0 <= place < held.len(),
        held[place].key == key,
    ensures
        ({
            let after = manager::stored(held, key, name);
            &&& after.len() == held.len()
            &&& forall|i: int| 0 <= i < held.len() ==> (#[trigger] after[i]).key == held[i].key
            &&& forall|i: int|
                0 <= i < held.len() && i != place ==> #[trigger] after[i] == held[i]
            &&& after[place].name == name
            &&& after[place].invocation_count == 0
        }),
        manager::displaced(held, key) == seq![held[place].name],
{
    assert(manager::held_at(held, key, place));
    lemma_lookup_at(held, key, place);
}

/// A new context joins as the newest: the others keep their order and are as they were, and only
/// where there is no room does one of them leave, the oldest, whose name is the one reported.
pub proof fn law_a_new_context_joins_as_the_newest(
    held: Seq<HeldCache>,
    key: CacheKeyView,
    name: Seq<char>,
)
    requires
        manager::valid(held),
        forall|i: int| 0 <= i < held.len() ==> (#[trigger] held[i]).key != key,
    ensures
        ({
            let after = manager::stored(held, key, name);
            let joined = HeldCache { key, name, invocation_count: 0 };
            &&& after.len() > 0
            &&& after.last() == joined
            &&& held.len() < 16 ==> after.drop_last() == held && manager::displaced(held, key)
                == Seq::<Seq<char>>::empty()
            &&& held.len() == 16 ==> after.drop_last() == held.skip(1) && manager::displaced(
                held,
                key,
            ) == seq![held[0].name]
        }),
{
    lemma_lookup_nowhere(held, key);
    let after = manager::stored(held, key, name);
    if held.len() < 16 {
        assert(after.drop_last() =~= held);
    } else {
        assert(after.drop_last() =~= held.skip(1));
    }
}

/// An invocation counts once, for the cache of its key: no other cache changes, and neither does
/// any key or name; without a cache for the key nothing changes at all.
pub proof fn law_an_invocation_counts_once(held: Seq<HeldCache>, key: CacheKeyView)
    requires
        manager::valid(held),
    ensures
        manager::recorded(held, key).len() == held.len(),
        forall|i: int|
            0 <= i < held.len() ==> {
                let after = #[trigger] manager::recorded(held, key)[i];
                &&& after.key == held[i].key
                &&& after.name == held[i].name
                &&& after.invocation_count == held[i].invocation_count + if held[i].key == key {
                    1int
                } else {
                    0
                }
            },
{
    assert forall|i: int| 0 <= i < held.len() implies {
        let after = #[trigger] manager::recorded(held, key)[i];
        &&& after.key == held[i].key
        &&& after.name == held[i].name
        &&& after.invocation_count == held[i].invocation_count + if held[i].key == key {
            1int
        } else {
            0
        }
    } by {
        if held[i].key == key {
            assert(manager::held_at(held, key, i));
            lemma_lookup_at(held, key, i);
        } else if manager::holds(held, key) {
            assert(manager::held_at(held, key, manager::place_of(held, key)));
        }
    }
}

/// A key needs refreshing exactly when no cache is held for it, or the one that is has served as
/// many invocations as an interval has.
pub proof fn law_what_is_due(
    held: Seq<HeldCache>,
    key: CacheKeyView,
    cache_intervals: int,
    place: int,
)
    requires
        manager::valid(held),
    ensures
        (forall|i: int| 0 <= i < held.len() ==> (#[trigger] held[i]).key != key)
            ==> manager::is_due(held, key, cache_intervals),
        0 <= place < held.len() && held[place].key == key ==> (manager::is_due(
            held,
            key,
            cache_intervals,
        ) <==> held[place].invocation_count >= cache_intervals),
{
    law_a_lookup_finds_what_is_held(held, key, place);
}

/// When a key last joined: the place of the last step that stored it while no cache was held for
/// it, or -1 where there is none.
pub open spec fn last_joined(steps: Seq<CacheStep>, key: CacheKeyView) -> int
    decreases steps.len(),
{
    if steps.len() == 0 {
        -1
    } else {
        let before = after_steps(seq![], steps.drop_last());
        let joins = {
            &&& steps.last() is Store
            &&& steps.last()->Store_key == key
            &&& forall|i: int| 0 <= i < before.len() ==> (#[trigger] before[i]).key != key
        };
        if joins {
            steps.len() - 1
        } else {
            last_joined(steps.drop_last(), key)
        }
    }
}

/// The oldest is the one that joined first: over any mix of stores, renewals and invocations, the
/// keys held stand in the order in which they last joined, so that the one at the front, which
/// leaves for a new one, has been there the longest.
pub proof fn law_keys_stand_in_the_order_they_joined(steps: Seq<CacheStep>)
    ensures
        ({
            let held = after_steps(seq![], steps);
            &&& forall|i: int|
                0 <= i < held.len() ==> 0 <= last_joined(steps, (#[trigger] held[i]).key)
                    < steps.len()
            &&& forall|i: int, j: int|
                0 <= i < j < held.len() ==> last_joined(steps, (#[trigger] held[i]).key)
                    < last_joined(steps, (#[trigger] held[j]).key)
        }),
    decreases steps.len(),
{
    if steps.len() > 0 {
        let rest = steps.drop_last();
        let empty = Seq::<HeldCache>::empty();
        let before = after_steps(empty, rest);
        let held = after_steps(empty, steps);
        law_keys_stand_in_the_order_they_joined(rest);
        assert(manager::valid(empty));
        law_any_mix_of_steps_keeps_validity(empty, rest);
        match steps.last() {
            CacheStep::Record { key } => {
                law_an_invocation_counts_once(before, key);
                assert(forall|i: int|
                    0 <= i < held.len() ==> (#[trigger] held[i]).key == before[i].key);
                assert(forall|k: CacheKeyView| #[trigger]
                    last_joined(steps, k) == last_joined(rest, k));
            },
            CacheStep::Store { key, name } => {
                if manager::holds(before, key) {
                    let place = manager::place_of(before, key);
                    assert(manager::held_at(before, key, place));
                    law_a_renewed_context_keeps_its_place(before, key, name, place);
                    assert(before[place].key == key);
                    assert(forall|k: CacheKeyView| #[trigger]
                        last_joined(steps, k) == last_joined(rest, k));
                    assert(forall|i: int|
                        0 <= i < held.len() ==> (#[trigger] held[i]).key == before[i].key);
                } else {
                    assert forall|i: int| 0 <= i < before.len() implies (#[trigger] before[i]).key
                        != key by {
                        assert(!manager::held_at(before, key, i));
                    }
                    law_a_new_context_joins_as_the_newest(before, key, name);
                    assert(last_joined(steps, key) == steps.len() - 1);
                    let shift: int = if before.len() < 16 { 0 } else { 1 };
                    assert forall|i: int| 0 <= i < held.len() - 1 implies (#[trigger] held[i]).key
                        == before[i + shift].key && last_joined(steps, held[i].key) == last_joined(
                        rest,
                        before[i + shift].key,
                    ) by {
                        assert(held[i] == held.drop_last()[i]);
                        if shift == 1 {
                            assert(held.drop_last()[i] == before.skip(1)[i]);
                        }
                    }
                    assert(held[held.len() - 1].key == key);
                }
            },
        }
    }
}

/// What leaves for a new context is the one that joined first: no key that is held joined before
/// it.
pub proof fn law_the_one_that_joined_first_is_evicted(
    steps: Seq<CacheStep>,
    key: CacheKeyView,
    other: int,
)
    requires
        ({
            let held = after_steps(seq![], steps);
            &&& held.len() == 16
            &&& forall|i: int| 0 <= i < held.len() ==> (#[trigger] held[i]).key != key
        }),
        0 <= other < 16,
    ensures
        ({
            let held = after_steps(seq![], steps);
            &&& manager::displaced(held, key) == seq![held[0].name]
            &&& last_joined(steps, held[0].key) <= last_joined(steps, held[other].key)
        }),
{
    let empty = Seq::<HeldCache>::empty();
    assert(manager::valid(empty));
    law_any_mix_of_steps_keeps_validity(empty, steps);
    law_keys_stand_in_the_order_they_joined(steps);
    law_a_new_context_joins_as_the_newest(after_steps(empty, steps), key, seq![]);
}

} // verus!
