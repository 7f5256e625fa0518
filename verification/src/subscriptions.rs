//! The dashboard's subscriptions: which items are computed and at which
//! interval, each item at most once, and the generation that every change
//! of the subscriptions advances (so that values computed for an older set
//! are never merged with newer ones).

use vstd::prelude::*;
use crate::compute::registry::ComputeRegistry;
use crate::compute::ComputeError;
use crate::item_key::{item_key_text, ItemKey, ItemType};
use crate::schedule::{buckets_view, build_schedule, schedule_upto, ScheduleBucket};
use crate::text::str_equal;

verus! {

/// An item key as plain values.
pub open spec fn key_view(k: ItemKey) -> (ItemType, Seq<char>) {
    (k.item_type, k.name@)
}

/// The subscribed items with their intervals, in nanoseconds.
pub struct Subscriptions {
    entries: Vec<(ItemKey, u64)>,
    generation: u64,
}

/// The item keys of a list of subscriptions.
pub open spec fn entry_keys(es: Seq<(ItemKey, u64)>) -> Seq<(ItemType, Seq<char>)> {
    es.map_values(|e: (ItemKey, u64)| key_view(e.0))
}

/// The intervals of a list of subscriptions.
pub open spec fn entry_intervals(es: Seq<(ItemKey, u64)>) -> Seq<u64> {
    es.map_values(|e: (ItemKey, u64)| e.1)
}

/// No key stands twice.
pub open spec fn keys_unique(ks: Seq<(ItemType, Seq<char>)>) -> bool {
    forall|i: int, j: int| 0 <= i < j < ks.len() ==> ks[i] != ks[j]
}

/// Counters moved on by one, wrapping.
pub open spec fn next_generation(g: u64) -> u64 {
    if g == u64::MAX { 0 } else { (g + 1) as u64 }
}

/// Why `key` cannot be subscribed, if it cannot: a raw item the frame does
/// not have, a calculated item that is not registered, or any system item.
pub open spec fn subscription_refused(key: (ItemType, Seq<char>), raw_field_known: bool, registered: bool) -> bool {
    match key.0 {
        ItemType::Raw => !raw_field_known,
        ItemType::Calculated => !registered,
        ItemType::System => true,
    }
}

impl Subscriptions {
    /// The subscribed keys, in the order they were first subscribed.
    pub closed spec fn keys(&self) -> Seq<(ItemType, Seq<char>)> {
        entry_keys(self.entries@)
    }

    /// The interval of each subscribed key, in the same order.
    pub closed spec fn intervals(&self) -> Seq<u64> {
        entry_intervals(self.entries@)
    }

    /// The current subscription generation.
    pub closed spec fn generation(&self) -> u64 {
        self.generation
    }

    /// Each key at most once, each with its interval.
    pub open spec fn wf(&self) -> bool {
        &&& keys_unique(self.keys())
        &&& self.intervals().len() == self.keys().len()
    }

    /// No subscriptions, at generation 0.
    pub fn new() -> (r: Self)
        ensures
            r.wf(),
            r.keys() == Seq::<(ItemType, Seq<char>)>::empty(),
            r.intervals() == Seq::<u64>::empty(),
            r.generation() == 0,
    {
        let r = Subscriptions { entries: Vec::new(), generation: 0 };
        assert(r.keys() =~= Seq::<(ItemType, Seq<char>)>::empty());
        assert(r.intervals() =~= Seq::<u64>::empty());
        r
    }

    fn position(&self, key: &ItemKey) -> (r: Option<usize>)
        requires
            self.wf(),
        ensures
            r matches Some(j) ==> j < self.keys().len() && self.keys()[j as int] == key_view(*key),
            r is None ==> !self.keys().contains(key_view(*key)),
    {
        let ghost ks = self.keys();
        let mut i: usize = 0;
        while i < self.entries.len()
            invariant
                i <= self.entries@.len(),
                ks == self.keys(),
                ks.len() == self.entries@.len(),
                forall|j: int| 0 <= j < i ==> ks[j] != key_view(*key),
            decreases self.entries@.len() - i,
        {
            let e = &self.entries[i];
            assert(ks[i as int] == key_view(e.0));
            if e.0.item_type == key.item_type && str_equal(e.0.name.as_str(), key.name.as_str()) {
                return Some(i);
            }
            i = i + 1;
        }
        None
    }

    /// Whether `key` is subscribed.
    pub fn is_subscribed(&self, key: &ItemKey) -> (r: bool)
        requires
            self.wf(),
        ensures
            r == self.keys().contains(key_view(*key)),
    {
        match self.position(key) {
            Some(j) => {
                assert(self.keys()[j as int] == key_view(*key));
                true
            },
            None => false,
        }
    }

    /// How many items are subscribed.
    pub fn subscription_count(&self) -> (n: usize)
        ensures
            n == self.keys().len(),
    {
        self.entries.len()
    }

    /// Subscribe `key` at `interval_ns`: a raw item only when the frame has
    /// that field (`raw_field_known`), a calculated item only when it is
    /// registered, a system item never; a refusal names the key and changes
    /// nothing. A key already subscribed takes the new interval; a new one
    /// comes last. Either way the generation moves on.
    pub fn subscribe(&mut self, key: ItemKey, interval_ns: u64, registry: &ComputeRegistry, raw_field_known: bool)
        -> (r: Result<(), ComputeError>)
        requires
            old(self).wf(),
        ensures
            final(self).wf(),
            subscription_refused(key_view(key), raw_field_known,
                registry.realtime().contains(key.name@) || registry.batch().contains(key.name@)) ==> {
                &&& r matches Err(ComputeError::ItemNotFound(s)) && s@ == item_key_text(key.item_type, key.name@)
                &&& final(self).keys() == old(self).keys()
                &&& final(self).intervals() == old(self).intervals()
                &&& final(self).generation() == old(self).generation()
            },
            !subscription_refused(key_view(key), raw_field_known,
                registry.realtime().contains(key.name@) || registry.batch().contains(key.name@)) ==> {
                &&& r is Ok
                &&& final(self).generation() == next_generation(old(self).generation())
                &&& if old(self).keys().contains(key_view(key)) {
                    let j = old(self).keys().index_of(key_view(key));
                    &&& final(self).keys() == old(self).keys()
                    &&& final(self).intervals() == old(self).intervals().update(j, interval_ns)
                } else {
                    &&& final(self).keys() == old(self).keys().push(key_view(key))
                    &&& final(self).intervals() == old(self).intervals().push(interval_ns)
                }
            },
    {
        let refused = match key.item_type {
            ItemType::Raw => !raw_field_known,
            ItemType::Calculated => !registry.is_registered(key.name.as_str()),
            ItemType::System => true,
        };
        if refused {
            return Err(ComputeError::ItemNotFound(key.to_string()));
        }
        let ghost ks = self.keys();
        let ghost ivs = self.intervals();
        let ghost kv = key_view(key);
        match self.position(&key) {
            Some(j) => {
                proof {
                    assert(ks[j as int] == kv);
                    lemma_unique_index_of(ks, kv, j as int);
                }
                let ghost before = self.entries@;
                let (k, _old_interval) = self.entries.remove(j);
                self.entries.insert(j, (k, interval_ns));
                assert(self.entries@ =~= before.update(j as int, (k, interval_ns)));
                assert(self.keys() =~= ks);
                assert(self.intervals() =~= ivs.update(j as int, interval_ns));
            },
            None => {
                self.entries.push((key, interval_ns));
                assert(self.keys() =~= ks.push(kv));
                assert(self.intervals() =~= ivs.push(interval_ns));
                assert forall|a: int, b: int| 0 <= a < b < self.keys().len() implies self.keys()[a] != self.keys()[b] by {
                    if b == ks.len() {
                        assert(ks.contains(ks[a]));
                    }
                }
            },
        }
        self.generation = self.generation.wrapping_add(1);
        Ok(())
    }

    /// Stop computing `key`. When it was subscribed it leaves, the others
    /// keep their order, and the generation moves on; otherwise nothing
    /// changes.
    pub fn unsubscribe(&mut self, key: &ItemKey)
        requires
            old(self).wf(),
        ensures
            final(self).wf(),
            old(self).keys().contains(key_view(*key)) ==> {
                let j = old(self).keys().index_of(key_view(*key));
                &&& final(self).keys() == old(self).keys().remove(j)
                &&& final(self).intervals() == old(self).intervals().remove(j)
                &&& final(self).generation() == next_generation(old(self).generation())
            },
            !old(self).keys().contains(key_view(*key)) ==> {
                &&& final(self).keys() == old(self).keys()
                &&& final(self).intervals() == old(self).intervals()
                &&& final(self).generation() == old(self).generation()
            },
    {
        let ghost ks = self.keys();
        let ghost ivs = self.intervals();
        match self.position(key) {
            None => {},
            Some(j) => {
                proof { lemma_unique_index_of(ks, key_view(*key), j as int); }
                self.entries.remove(j);
                assert(self.keys() =~= ks.remove(j as int));
                assert(self.intervals() =~= ivs.remove(j as int));
                assert forall|a: int, b: int| 0 <= a < b < self.keys().len() implies self.keys()[a] != self.keys()[b] by {
                    let a0 = if a < j { a } else { a + 1 };
                    let b0 = if b < j { b } else { b + 1 };
                    assert(self.keys()[a] == ks[a0] && self.keys()[b] == ks[b0]);
                }
                self.generation = self.generation.wrapping_add(1);
            },
        }
    }

    /// The schedule of the subscriptions at time `now_ns`: one bucket per
    /// interval, in the order the intervals first occur, each first due
    /// one interval from now and holding the positions of its items.
    pub fn schedule(&self, now_ns: u64) -> (r: Vec<ScheduleBucket>)
        requires
            self.wf(),
            forall|i: int| 0 <= i < self.intervals().len() ==> now_ns + #[trigger] self.intervals()[i] <= u64::MAX,
        ensures
            buckets_view(r@) == schedule_upto(self.intervals(), now_ns, self.intervals().len() as int),
    {
        let mut ivs: Vec<u64> = Vec::new();
        let mut i: usize = 0;
        while i < self.entries.len()
            invariant
                i <= self.entries@.len(),
                ivs@ == self.intervals().subrange(0, i as int),
                self.intervals().len() == self.entries@.len(),
            decreases self.entries@.len() - i,
        {
            ivs.push(self.entries[i].1);
            assert(self.intervals().subrange(0, i + 1) =~= self.intervals().subrange(0, i as int).push(self.entries@[i as int].1));
            i = i + 1;
        }
        assert(self.intervals().subrange(0, i as int) =~= self.intervals());
        build_schedule(ivs.as_slice(), now_ns)
    }
}

/// In a list of distinct keys, the place where a key stands is the one
/// `index_of` finds.
proof fn lemma_unique_index_of(ks: Seq<(ItemType, Seq<char>)>, k: (ItemType, Seq<char>), j: int)
    requires
        keys_unique(ks),
        0 <= j < ks.len(),
        ks[j] == k,
    ensures
        ks.contains(k),
        ks.index_of(k) == j,
{
    assert(ks.contains(k));
    let i = ks.index_of(k);
    assert(ks[i] == k);
    if i != j {
        if i < j {
            assert(ks[i] != ks[j]);
        } else {
            assert(ks[j] != ks[i]);
        }
    }
}

} // verus!
