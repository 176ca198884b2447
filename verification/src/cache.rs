//! A bounded store of computed outcomes, each kept for a fixed lifespan.
//!
//! The store holds at most `limit` entries, one per key, in the order in
//! which they were last used: the first entry is the one to give way when a
//! new key arrives at a full store. An entry answers lookups until its
//! lifespan has passed since it was stored; being looked up does not renew
//! it. The caller supplies the clock, in whole seconds.

use vstd::prelude::*;
use crate::text::same_text;

verus! {

/// How many outcomes each store of the service holds.
pub const DEFAULT_LIMIT: usize = 100;

/// For how many seconds an outcome is served from the store.
pub const DEFAULT_LIFESPAN: u64 = 300;

/// One stored outcome: the key it answers, the value, and the second at
/// which it was stored.
pub struct Entry<V> {
    pub key: String,
    pub value: V,
    pub stored_at: u64,
}

pub struct TimedCache<V> {
    entries: Vec<Entry<V>>,
    limit: usize,
    lifespan: u64,
}

/// Some entry of `slots` answers `key`.
pub open spec fn has_key<V>(slots: Seq<Entry<V>>, key: Seq<char>) -> bool {
    exists|i: int| 0 <= i < slots.len() && (#[trigger] slots[i]).key@ == key
}

/// The place of the entry that answers `key`.
pub open spec fn slot_of<V>(slots: Seq<Entry<V>>, key: Seq<char>) -> int {
    choose|i: int| 0 <= i < slots.len() && (#[trigger] slots[i]).key@ == key
}

/// No two entries answer one key.
pub open spec fn distinct_keys<V>(slots: Seq<Entry<V>>) -> bool {
    forall|i: int, j: int|
        0 <= i < j < slots.len() ==> (#[trigger] slots[i]).key@ != (#[trigger] slots[j]).key@
}

/// Less than `lifespan` seconds have passed at `now` since `e` was stored.
pub open spec fn live<V>(e: Entry<V>, now: u64, lifespan: u64) -> bool {
    now - e.stored_at < lifespan
}

/// `slots` without the entry that answers `key`.
pub open spec fn without<V>(slots: Seq<Entry<V>>, key: Seq<char>) -> Seq<Entry<V>> {
    if has_key(slots, key) {
        slots.remove(slot_of(slots, key))
    } else {
        slots
    }
}

/// What a lookup of `key` at `now` finds: the value of the entry that
/// answers `key`, if there is one and it is live.
pub open spec fn found<V>(slots: Seq<Entry<V>>, key: Seq<char>, now: u64, lifespan: u64) -> Option<
    V,
> {
    if has_key(slots, key) && live(slots[slot_of(slots, key)], now, lifespan) {
        Some(slots[slot_of(slots, key)].value)
    } else {
        None
    }
}

/// The store after a lookup of `key` at `now`: a live entry becomes the most
/// recently used, an expired one is dropped, and a miss changes nothing.
pub open spec fn after_lookup<V>(
    slots: Seq<Entry<V>>,
    key: Seq<char>,
    now: u64,
    lifespan: u64,
) -> Seq<Entry<V>> {
    if !has_key(slots, key) {
        slots
    } else if live(slots[slot_of(slots, key)], now, lifespan) {
        without(slots, key).push(slots[slot_of(slots, key)])
    } else {
        without(slots, key)
    }
}

/// The store after `entry` is stored: an older entry for its key is
/// replaced; otherwise, at a full store, the least recently used entry
/// gives way. The new entry is the most recently used.
pub open spec fn after_store<V>(slots: Seq<Entry<V>>, entry: Entry<V>, limit: nat) -> Seq<
    Entry<V>,
> {
    let base = without(slots, entry.key@);
    let kept = if base.len() >= limit && base.len() > 0 {
        base.skip(1)
    } else {
        base
    };
    kept.push(entry)
}

/// Taking an entry out leaves the keys distinct and takes its key out.
pub proof fn lemma_remove<V>(slots: Seq<Entry<V>>, k: int)
    requires
        distinct_keys(slots),
        0 <= k < slots.len(),
    ensures
        distinct_keys(slots.remove(k)),
        !has_key(slots.remove(k), slots[k].key@),
        has_key(slots, slots[k].key@),
        slot_of(slots, slots[k].key@) == k,
{
    let r = slots.remove(k);
    assert forall|i: int, j: int| 0 <= i < j < r.len() implies (#[trigger] r[i]).key@ != (
    #[trigger] r[j]).key@ by {
        let a = if i < k { i } else { i + 1 };
        let b = if j < k { j } else { j + 1 };
        assert(r[i] == slots[a] && r[j] == slots[b]);
    }
    assert forall|i: int| 0 <= i < r.len() implies (#[trigger] r[i]).key@ != slots[k].key@ by {
        let a = if i < k { i } else { i + 1 };
        assert(r[i] == slots[a]);
    }
    let s = slot_of(slots, slots[k].key@);
    assert(0 <= s < slots.len() && slots[s].key@ == slots[k].key@);
    if s < k {
        assert(slots[s].key@ != slots[k].key@);
    } else if k < s {
        assert(slots[k].key@ != slots[s].key@);
    }
}

/// Adding an entry whose key is not held leaves the keys distinct.
pub proof fn lemma_push<V>(slots: Seq<Entry<V>>, e: Entry<V>)
    requires
        distinct_keys(slots),
        !has_key(slots, e.key@),
    ensures
        distinct_keys(slots.push(e)),
        has_key(slots.push(e), e.key@),
        slot_of(slots.push(e), e.key@) == slots.len(),
{
    let p = slots.push(e);
    assert forall|i: int, j: int| 0 <= i < j < p.len() implies (#[trigger] p[i]).key@ != (
    #[trigger] p[j]).key@ by {
        assert(p[i] == slots[i]);
        if j < slots.len() {
            assert(p[j] == slots[j]);
        }
    }
    assert(p[slots.len() as int].key@ == e.key@);
    let s = slot_of(p, e.key@);
    assert(0 <= s < p.len() && p[s].key@ == e.key@);
    if s < slots.len() {
        assert(p[s] == slots[s]);
    }
}

/// Dropping the first entry leaves the keys distinct and brings no key in.
pub proof fn lemma_skip_first<V>(slots: Seq<Entry<V>>, key: Seq<char>)
    requires
        distinct_keys(slots),
        slots.len() > 0,
        !has_key(slots, key),
    ensures
        distinct_keys(slots.skip(1)),
        !has_key(slots.skip(1), key),
{
    let r = slots.skip(1);
    assert forall|i: int, j: int| 0 <= i < j < r.len() implies (#[trigger] r[i]).key@ != (
    #[trigger] r[j]).key@ by {
        assert(r[i] == slots[i + 1] && r[j] == slots[j + 1]);
    }
    assert forall|i: int| 0 <= i < r.len() implies (#[trigger] r[i]).key@ != key by {
        assert(r[i] == slots[i + 1]);
    }
}

/// A lookup leaves the keys distinct and lets the store grow by nothing.
pub proof fn lemma_lookup<V>(slots: Seq<Entry<V>>, key: Seq<char>, now: u64, lifespan: u64)
    requires
        distinct_keys(slots),
    ensures
        distinct_keys(after_lookup(slots, key, now, lifespan)),
        after_lookup(slots, key, now, lifespan).len() <= slots.len(),
{
    if has_key(slots, key) {
        let k = slot_of(slots, key);
        lemma_remove(slots, k);
        lemma_push(slots.remove(k), slots[k]);
    }
}

/// Taking out the entry of one key changes nothing for another key.
pub proof fn lemma_remove_other<V>(
    slots: Seq<Entry<V>>,
    j: int,
    key: Seq<char>,
    now: u64,
    lifespan: u64,
)
    requires
        distinct_keys(slots),
        0 <= j < slots.len(),
        slots[j].key@ != key,
    ensures
        found(slots.remove(j), key, now, lifespan) == found(slots, key, now, lifespan),
        has_key(slots.remove(j), key) == has_key(slots, key),
{
    let r = slots.remove(j);
    lemma_remove(slots, j);
    if has_key(slots, key) {
        let i = slot_of(slots, key);
        let at = if i < j { i } else { i - 1 };
        assert(r[at] == slots[i]);
        lemma_remove(slots, i);
        lemma_remove(r, at);
    } else {
        if has_key(r, key) {
            let at = slot_of(r, key);
            let i = if at < j { at } else { at + 1 };
            assert(r[at] == slots[i]);
        }
    }
}

/// Adding an entry for one key changes nothing for another key.
pub proof fn lemma_push_other<V>(
    slots: Seq<Entry<V>>,
    e: Entry<V>,
    key: Seq<char>,
    now: u64,
    lifespan: u64,
)
    requires
        distinct_keys(slots),
        !has_key(slots, e.key@),
        e.key@ != key,
    ensures
        found(slots.push(e), key, now, lifespan) == found(slots, key, now, lifespan),
        has_key(slots.push(e), key) == has_key(slots, key),
{
    let p = slots.push(e);
    lemma_push(slots, e);
    if has_key(slots, key) {
        let i = slot_of(slots, key);
        assert(p[i] == slots[i]);
        lemma_remove(slots, i);
        lemma_remove(p, i);
    } else {
        if has_key(p, key) {
            let at = slot_of(p, key);
            if at < slots.len() {
                assert(p[at] == slots[at]);
            }
        }
    }
}

/// A lookup of one key changes nothing for another key.
pub proof fn law_other_lookup<V>(
    slots: Seq<Entry<V>>,
    key: Seq<char>,
    other: Seq<char>,
    at: u64,
    now: u64,
    lifespan: u64,
)
    requires
        distinct_keys(slots),
        key != other,
    ensures
        found(after_lookup(slots, other, at, lifespan), key, now, lifespan) == found(
            slots,
            key,
            now,
            lifespan,
        ),
{
    if has_key(slots, other) {
        let j = slot_of(slots, other);
        lemma_remove(slots, j);
        lemma_remove_other(slots, j, key, now, lifespan);
        if live(slots[j], at, lifespan) {
            lemma_push_other(slots.remove(j), slots[j], key, now, lifespan);
        }
    }
}

/// Storing an outcome for one key changes nothing for another key, as long
/// as the store has room, so that no entry has to give way.
pub proof fn law_other_store<V>(
    slots: Seq<Entry<V>>,
    key: Seq<char>,
    entry: Entry<V>,
    limit: nat,
    now: u64,
    lifespan: u64,
)
    requires
        distinct_keys(slots),
        entry.key@ != key,
        without(slots, entry.key@).len() < limit,
    ensures
        found(after_store(slots, entry, limit), key, now, lifespan) == found(
            slots,
            key,
            now,
            lifespan,
        ),
{
    let base = without(slots, entry.key@);
    if has_key(slots, entry.key@) {
        let j = slot_of(slots, entry.key@);
        lemma_remove(slots, j);
        lemma_remove_other(slots, j, key, now, lifespan);
    }
    lemma_push_other(base, entry, key, now, lifespan);
}

/// An outcome that was stored is found, unchanged and with no need to
/// compute it again, at every instant before its lifespan has passed; from
/// then on it is not found, so that it has to be computed anew.
pub proof fn law_stored_then_found<V>(
    slots: Seq<Entry<V>>,
    entry: Entry<V>,
    limit: nat,
    lifespan: u64,
    now: u64,
)
    requires
        distinct_keys(slots),
    ensures
        now - entry.stored_at < lifespan ==> found(
            after_store(slots, entry, limit),
            entry.key@,
            now,
            lifespan,
        ) == Some(entry.value),
        now - entry.stored_at >= lifespan ==> found(
            after_store(slots, entry, limit),
            entry.key@,
            now,
            lifespan,
        ) is None,
{
    lemma_store(slots, entry, limit);
}

/// Two requests for one key within the lifespan, the first of which had to
/// compute: the second finds what the first computed, so that nothing is
/// computed for it. A request made once the lifespan has passed finds
/// nothing and has to compute again.
pub proof fn law_served_twice<V>(
    slots: Seq<Entry<V>>,
    entry: Entry<V>,
    limit: nat,
    lifespan: u64,
    second: u64,
)
    requires
        distinct_keys(slots),
        found(slots, entry.key@, entry.stored_at, lifespan) is None,
    ensures
        ({
            let first = after_store(
                after_lookup(slots, entry.key@, entry.stored_at, lifespan),
                entry,
                limit,
            );
            if second - entry.stored_at < lifespan {
                found(first, entry.key@, second, lifespan) == Some(entry.value)
            } else {
                found(first, entry.key@, second, lifespan) is None
            }
        }),
{
    lemma_lookup(slots, entry.key@, entry.stored_at, lifespan);
    law_stored_then_found(
        after_lookup(slots, entry.key@, entry.stored_at, lifespan),
        entry,
        limit,
        lifespan,
        second,
    );
}

/// A lookup that finds an outcome leaves it in the store, where the next
/// lookup within the lifespan finds the same outcome.
pub proof fn law_found_again<V>(
    slots: Seq<Entry<V>>,
    key: Seq<char>,
    first: u64,
    second: u64,
    lifespan: u64,
)
    requires
        distinct_keys(slots),
        found(slots, key, first, lifespan) is Some,
        live(slots[slot_of(slots, key)], second, lifespan),
    ensures
        found(after_lookup(slots, key, first, lifespan), key, second, lifespan) == found(
            slots,
            key,
            first,
            lifespan,
        ),
{
    let k = slot_of(slots, key);
    lemma_remove(slots, k);
    lemma_push(slots.remove(k), slots[k]);
}

/// After a store the keys are distinct and the new entry answers its key.
pub proof fn lemma_store<V>(slots: Seq<Entry<V>>, entry: Entry<V>, limit: nat)
    requires
        distinct_keys(slots),
    ensures
        distinct_keys(after_store(slots, entry, limit)),
        has_key(after_store(slots, entry, limit), entry.key@),
        after_store(slots, entry, limit)[slot_of(after_store(slots, entry, limit), entry.key@)]
            == entry,
        limit > 0 && slots.len() <= limit ==> after_store(slots, entry, limit).len() <= limit,
{
    let key = entry.key@;
    let base = without(slots, key);
    if has_key(slots, key) {
        let k = slot_of(slots, key);
        lemma_remove(slots, k);
    }
    let kept = if base.len() >= limit && base.len() > 0 {
        base.skip(1)
    } else {
        base
    };
    if base.len() >= limit && base.len() > 0 {
        lemma_skip_first(base, key);
    }
    lemma_push(kept, entry);
}

impl<V> TimedCache<V> {
    /// The entries, least recently used first.
    pub closed spec fn slots(&self) -> Seq<Entry<V>> {
        self.entries@
    }

    /// How many entries the store holds at most.
    pub closed spec fn limit(&self) -> nat {
        self.limit as nat
    }

    /// For how many seconds an entry answers lookups.
    pub closed spec fn lifespan(&self) -> u64 {
        self.lifespan
    }

    /// The store holds one entry per key and no more than its limit.
    pub open spec fn wf(&self) -> bool {
        &&& self.limit() > 0
        &&& self.slots().len() <= self.limit()
        &&& distinct_keys(self.slots())
    }

    /// An empty store for at most `limit` entries that live `lifespan`
    /// seconds each.
    pub fn new(limit: usize, lifespan: u64) -> (c: Self)
        requires
            limit > 0,
        ensures
            c.wf(),
            c.slots() == Seq::<Entry<V>>::empty(),
            c.limit() == limit,
            c.lifespan() == lifespan,
    {
        TimedCache { entries: Vec::new(), limit, lifespan }
    }

    /// How many entries the store holds.
    pub fn len(&self) -> (n: usize)
        ensures
            n == self.slots().len(),
    {
        self.entries.len()
    }

    /// The place of the entry that answers `key`.
    fn position(&self, key: &str) -> (r: Option<usize>)
        requires
            self.wf(),
        ensures
            r is Some <==> has_key(self.slots(), key@),
            r matches Some(k) ==> k == slot_of(self.slots(), key@) && k < self.slots().len()
                && self.slots()[k as int].key@ == key@,
    {
        let mut k: usize = 0;
        while k < self.entries.len()
            invariant
                k <= self.entries.len(),
                self.wf(),
                forall|i: int| 0 <= i < k ==> (#[trigger] self.entries@[i]).key@ != key@,
            decreases self.entries.len() - k,
        {
            if same_text(&self.entries[k].key, key) {
                proof {
                    lemma_remove(self.entries@, k as int);
                }
                return Some(k);
            }
            k += 1;
        }
        None
    }

    /// Looks `key` up at second `now`.
    ///
    /// The stored value comes back exactly when an entry answers `key` and
    /// less than the lifespan has passed since it was stored; that entry is
    /// then the most recently used. An entry whose lifespan has passed is
    /// dropped.
    pub fn lookup(&mut self, key: &str, now: u64) -> (r: Option<&V>)
        requires
            old(self).wf(),
        ensures
            final(self).wf(),
            final(self).limit() == old(self).limit(),
            final(self).lifespan() == old(self).lifespan(),
            final(self).slots() == after_lookup(old(self).slots(), key@, now, old(self).lifespan()),
            match r {
                Some(v) => found(old(self).slots(), key@, now, old(self).lifespan()) == Some(*v),
                None => found(old(self).slots(), key@, now, old(self).lifespan()) is None,
            },
    {
        match self.position(key) {
            None => None,
            Some(k) => {
                proof {
                    lemma_remove(self.entries@, k as int);
                }
                let entry = self.entries.remove(k);
                if now < entry.stored_at || now - entry.stored_at < self.lifespan {
                    proof {
                        lemma_push(self.entries@, entry);
                    }
                    self.entries.push(entry);
                    let last = self.entries.len() - 1;
                    Some(&self.entries[last].value)
                } else {
                    None
                }
            },
        }
    }

    /// Stores `value` as the outcome for `key`, computed at second `now`.
    ///
    /// An older entry for `key` is replaced. Otherwise, where the store is
    /// full, its least recently used entry gives way.
    pub fn store(&mut self, key: String, value: V, now: u64)
        requires
            old(self).wf(),
        ensures
            final(self).wf(),
            final(self).limit() == old(self).limit(),
            final(self).lifespan() == old(self).lifespan(),
            final(self).slots() == after_store(
                old(self).slots(),
                (Entry { key, value, stored_at: now }),
                old(self).limit(),
            ),
    {
        let ghost entry = Entry { key, value, stored_at: now };
        proof {
            lemma_store(self.entries@, entry, self.limit as nat);
        }
        match self.position(key.as_str()) {
            Some(k) => {
                self.entries.remove(k);
            },
            None => {},
        }
        if self.entries.len() >= self.limit && self.entries.len() > 0 {
            let ghost before = self.entries@;
            self.entries.remove(0);
            assert(self.entries@ =~= before.skip(1));
        }
        self.entries.push(Entry { key, value, stored_at: now });
    }
    /// Serves `key` at second `now` from the store, computing the outcome
    /// only where the store has none that is live.
    ///
    /// On a hit the stored outcome comes back as it was stored, and
    /// `compute` is not called: nothing is asked of it for that case, so it
    /// could not be. On a miss `compute` is called once, and what it gives
    /// is stored at `now` and comes back.
    pub fn get_or_compute<F: FnOnce() -> V>(&mut self, key: String, now: u64, compute: F) -> (r: &V)
        requires
            old(self).wf(),
            found(old(self).slots(), key@, now, old(self).lifespan()) is None ==> compute.requires(
                (),
            ),
        ensures
            final(self).wf(),
            final(self).limit() == old(self).limit(),
            final(self).lifespan() == old(self).lifespan(),
            match found(old(self).slots(), key@, now, old(self).lifespan()) {
                Some(v) => *r == v && final(self).slots() == after_lookup(
                    old(self).slots(),
                    key@,
                    now,
                    old(self).lifespan(),
                ),
                None => compute.ensures((), *r) && final(self).slots() == after_store(
                    after_lookup(old(self).slots(), key@, now, old(self).lifespan()),
                    (Entry { key, value: *r, stored_at: now }),
                    old(self).limit(),
                ),
            },
    {
        let hit = self.lookup(key.as_str(), now).is_some();
        if !hit {
            let value = compute();
            self.store(key, value, now);
            proof {
                lemma_store(
                    after_lookup(old(self).slots(), key@, now, old(self).lifespan()),
                    Entry { key, value, stored_at: now },
                    old(self).limit(),
                );
            }
        }
        let last = self.entries.len() - 1;
        &self.entries[last].value
    }
}

} // verus!
