//! Presence leases: which processors are currently reporting.
//!
//! A lease is created or refreshed by a synchronisation call and lasts
//! [`LEASE_MS`] from that moment. A periodic sweep removes the leases whose
//! expiry lies before the sweep's clock and reports each removed processor.
use crate::table::Table;
use crate::text::texts;
use vstd::prelude::*;

verus! {

/// Length of a lease, in milliseconds.
pub const LEASE_MS: i64 = 30_000;

/// Period of the sweeper, in milliseconds.
pub const SWEEP_PERIOD_MS: u64 = 30_000;

/// Expiry of a lease refreshed at `now`.
pub open spec fn expiry_of(now: int) -> int {
    now + LEASE_MS
}

/// The lease map after a refresh of `id` at `now`.
pub open spec fn refreshed(m: Map<Seq<char>, i64>, id: Seq<char>, now: i64) -> Map<Seq<char>, i64>
    recommends
        now <= i64::MAX - LEASE_MS,
{
    m.insert(id, (now + LEASE_MS) as i64)
}

/// Whether a lease with the given expiry is removed by a sweep at `now`.
pub open spec fn is_expired(expiry: i64, now: i64) -> bool {
    expiry < now
}

/// The leases that a sweep at `now` leaves in place.
pub open spec fn swept(m: Map<Seq<char>, i64>, now: i64) -> Map<Seq<char>, i64> {
    Map::new(|k: Seq<char>| m.contains_key(k) && !is_expired(m[k], now), |k: Seq<char>| m[k])
}

/// The processors that a sweep at `now` removes.
pub open spec fn evicted(m: Map<Seq<char>, i64>, now: i64) -> Set<Seq<char>> {
    Set::new(|k: Seq<char>| m.contains_key(k) && is_expired(m[k], now))
}

/// The leases as a list of identifier and expiry, in the order `ids`.
pub open spec fn listed(m: Map<Seq<char>, i64>, ids: Seq<Seq<char>>) -> Seq<(Seq<char>, i64)> {
    Seq::new(ids.len(), |i: int| (ids[i], m[ids[i]]))
}

/// The values of a list of identifier and expiry.
pub open spec fn pairs(v: Seq<(String, i64)>) -> Seq<(Seq<char>, i64)> {
    Seq::new(v.len(), |i: int| (v[i].0@, v[i].1))
}

/// Map from processor identifier to the expiry of its lease.
pub struct LivenessMap {
    leases: Table<i64>,
}

impl LivenessMap {
    /// The leases as a map from identifier to expiry.
    pub closed spec fn view(&self) -> Map<Seq<char>, i64> {
        self.leases@
    }

    /// Internal consistency of the map.
    pub closed spec fn wf(&self) -> bool {
        self.leases.wf()
    }

    /// A map without leases.
    pub fn new() -> (r: Self)
        ensures
            r.wf(),
            r@ == Map::<Seq<char>, i64>::empty(),
    {
        LivenessMap { leases: Table::new() }
    }

    /// Number of leases held.
    pub fn len(&self) -> (n: usize)
        requires
            self.wf(),
        ensures
            n == self.ids().len(),
    {
        self.leases.len()
    }

    /// The identifiers that hold a lease, in the order in which they first
    /// appeared.
    pub closed spec fn ids(&self) -> Seq<Seq<char>> {
        self.leases.keys()
    }

    /// `ids()` lists exactly the keys of the map, each once.
    pub proof fn law_ids_list_the_leases(&self)
        requires
            self.wf(),
        ensures
            self.ids().no_duplicates(),
            forall|k: Seq<char>| self.ids().contains(k) <==> self@.contains_key(k),
    {
    }

    /// Creates or renews the lease of `processor_id`: it now expires
    /// [`LEASE_MS`] after `now`. No other lease changes.
    pub fn refresh(&mut self, processor_id: String, now: i64)
        requires
            old(self).wf(),
            now <= i64::MAX - LEASE_MS,
        ensures
            final(self).wf(),
            final(self)@ == refreshed(old(self)@, processor_id@, now),
    {
        self.leases.insert(processor_id, now + LEASE_MS);
    }

    /// The expiry of the lease of `processor_id`, if it holds one.
    pub fn expiry(&self, processor_id: &String) -> (r: Option<i64>)
        requires
            self.wf(),
        ensures
            match r {
                Some(e) => self@.contains_key(processor_id@) && self@[processor_id@] == e,
                None => !self@.contains_key(processor_id@),
            },
    {
        match self.leases.get(processor_id) {
            Some(e) => Some(*e),
            None => None,
        }
    }

    /// The identifier and expiry at position `i` of `ids()`.
    pub fn entry_at(&self, i: usize) -> (r: (String, i64))
        requires
            self.wf(),
            i < self.ids().len(),
        ensures
            r.0@ == self.ids()[i as int],
            self@.contains_key(r.0@),
            self@[r.0@] == r.1,
    {
        proof {
            self.leases.lemma_entry(i as int);
        }
        (self.leases.key_at(i).clone(), *self.leases.value_at(i))
    }

    /// Every lease, as identifier and expiry, in the order of `ids()`.
    pub fn snapshot(&self) -> (r: Vec<(String, i64)>)
        requires
            self.wf(),
        ensures
            pairs(r@) == listed(self@, self.ids()),
    {
        let mut r: Vec<(String, i64)> = Vec::new();
        let n = self.leases.len();
        let mut i: usize = 0;
        while i < n
            invariant
                self.wf(),
                n == self.ids().len(),
                i <= n,
                r@.len() == i,
                forall|j: int|
                    0 <= j < i ==> (#[trigger] r@[j]).0@ == self.ids()[j] && r@[j].1
                        == self@[self.ids()[j]],
            decreases n - i,
        {
            let e = self.entry_at(i);
            r.push(e);
            i += 1;
        }
        assert(pairs(r@) =~= listed(self@, self.ids()));
        r
    }

    /// Removes every lease whose expiry lies before `now` and returns the
    /// identifiers removed, each once. Leases that expire at `now` or later
    /// stay as they are.
    pub fn sweep(&mut self, now: i64) -> (gone: Vec<String>)
        requires
            old(self).wf(),
        ensures
            final(self).wf(),
            final(self)@ == swept(old(self)@, now),
            texts(gone@).no_duplicates(),
            texts(gone@).to_set() == evicted(old(self)@, now),
    {
        let ghost before = self.leases;
        let mut kept: Table<i64> = Table::new();
        let mut gone: Vec<String> = Vec::new();
        let ghost mut src: Seq<int> = Seq::empty();
        let n = self.leases.len();
        let mut i: usize = 0;
        while i < n
            invariant
                before == self.leases,
                before.wf(),
                kept.wf(),
                n == before.keys().len(),
                i <= n,
                forall|j: int|
                    0 <= j < i && !is_expired(before.values()[j], now) ==> kept@.contains_key(
                        #[trigger] before.keys()[j],
                    ) && kept@[before.keys()[j]] == before.values()[j],
                forall|k: Seq<char>| #[trigger]
                    kept@.contains_key(k) ==> before@.contains_key(k) && !is_expired(
                        before@[k],
                        now,
                    ),
                src.len() == gone@.len(),
                forall|e: int|
                    0 <= e < src.len() ==> 0 <= #[trigger] src[e] < i && gone@[e]@
                        == before.keys()[src[e]] && is_expired(before.values()[src[e]], now),
                forall|e: int, f: int| 0 <= e < f < src.len() ==> src[e] < src[f],
                forall|j: int|
                    0 <= j < i && is_expired(before.values()[j], now) ==> texts(gone@).contains(
                        #[trigger] before.keys()[j],
                    ),
            decreases n - i,
        {
            let key = self.leases.key_at(i).clone();
            let exp = *self.leases.value_at(i);
            proof {
                before.lemma_entry(i as int);
            }
            if exp < now {
                let ghost prev = gone@;
                gone.push(key);
                proof {
                    src = src.push(i as int);
                    assert forall|j: int|
                        0 <= j < i + 1 && is_expired(before.values()[j], now) implies texts(
                        gone@,
                    ).contains(#[trigger] before.keys()[j]) by {
                        if j < i {
                            let e = texts(prev).index_of(before.keys()[j]);
                            assert(texts(prev).contains(before.keys()[j]));
                            assert(texts(gone@)[e] == before.keys()[j]);
                        } else {
                            assert(texts(gone@)[prev.len() as int] == before.keys()[j]);
                        }
                    }
                }
            } else {
                let ghost prev = kept;
                kept.insert(key, exp);
                proof {
                    assert forall|j: int|
                        0 <= j < i + 1 && !is_expired(
                            before.values()[j],
                            now,
                        ) implies kept@.contains_key(#[trigger] before.keys()[j]) && kept@[before.keys()[j]]
                        == before.values()[j] by {
                        if j < i {
                            assert(prev@.contains_key(before.keys()[j]));
                        }
                    }
                }
            }
            i += 1;
        }
        proof {
            assert forall|k: Seq<char>| #[trigger]
                swept(before@, now).contains_key(k) implies kept@.contains_key(k) && kept@[k]
                == before@[k] by {
                let j = before.keys().index_of(k);
                assert(0 <= j < n && before.keys()[j] == k);
                before.lemma_entry(j);
            }
            assert forall|k: Seq<char>| #[trigger] kept@.contains_key(k) implies kept@[k]
                == before@[k] by {
                let j = before.keys().index_of(k);
                assert(before@.contains_key(k));
                assert(0 <= j < n && before.keys()[j] == k);
                before.lemma_entry(j);
            }
            assert(kept@ =~= swept(before@, now));
            assert forall|e: int, f: int|
                0 <= e < texts(gone@).len() && 0 <= f < texts(gone@).len() && e
                    != f implies texts(gone@)[e] != texts(gone@)[f] by {
                assert(src[e] != src[f]);
            }
            assert forall|k: Seq<char>| #[trigger]
                texts(gone@).to_set().contains(k) implies evicted(before@, now).contains(k) by {
                let e = texts(gone@).index_of(k);
                assert(texts(gone@).contains(k));
                assert(0 <= e < gone@.len() && texts(gone@)[e] == k);
                before.lemma_entry(src[e]);
            }
            assert forall|k: Seq<char>| #[trigger]
                evicted(before@, now).contains(k) implies texts(gone@).to_set().contains(k) by {
                let j = before.keys().index_of(k);
                assert(0 <= j < n && before.keys()[j] == k);
                before.lemma_entry(j);
            }
            assert(texts(gone@).to_set() =~= evicted(before@, now));
        }
        self.leases = kept;
        gone
    }
}

/// A processor that refreshed its lease at `t0` and has been silent since is
/// still present after a sweep at any `now` up to `t0 + LEASE_MS`, and is
/// removed and reported by a sweep at any later `now`.
pub proof fn law_silent_processor_expires(m: Map<Seq<char>, i64>, id: Seq<char>, t0: i64, now: i64)
    requires
        t0 <= i64::MAX - LEASE_MS,
    ensures
        now <= t0 + LEASE_MS ==> swept(refreshed(m, id, t0), now).contains_key(id) && !evicted(
            refreshed(m, id, t0),
            now,
        ).contains(id),
        now > t0 + LEASE_MS ==> !swept(refreshed(m, id, t0), now).contains_key(id) && evicted(
            refreshed(m, id, t0),
            now,
        ).contains(id),
{
}

/// A second sweep at the same instant changes nothing and removes nothing.
pub proof fn law_sweep_is_idempotent(m: Map<Seq<char>, i64>, now: i64)
    ensures
        swept(swept(m, now), now) == swept(m, now),
        evicted(swept(m, now), now) == Set::<Seq<char>>::empty(),
{
    assert(swept(swept(m, now), now) =~= swept(m, now));
    assert(evicted(swept(m, now), now) =~= Set::<Seq<char>>::empty());
}

} // verus!
