//! Changes that the server applies again after each management tick, for a
//! few ticks, so that the game's own bookkeeping does not undo them.

use vstd::prelude::*;
use std::collections::HashMap;
use vstd::std_specs::iter::IteratorSpec;

verus! {

broadcast use vstd::std_specs::hash::group_hash_axioms;

/// How many management ticks a queued change outlives.
pub const OVERRIDE_TICKS: u8 = 3;

/// A queued change and how many more ticks it is kept for.
#[derive(Debug)]
pub struct PendingOverride<V> {
    pub values: V,
    pub remaining_after_ticks: u8,
}

/// Queued changes by the id of the athlete or staff member they concern.
pub struct OverrideQueue<V> {
    entries: HashMap<usize, PendingOverride<V>>,
}

/// The queue after a tick: each entry has one tick less, and an entry
/// with no tick left is dropped.
pub open spec fn ticked<V>(m: Map<usize, PendingOverride<V>>) -> Map<usize, PendingOverride<V>> {
    Map::new(
        |k: usize| m.contains_key(k) && m[k].remaining_after_ticks > 1,
        |k: usize| PendingOverride { values: m[k].values, remaining_after_ticks: (m[k].remaining_after_ticks - 1) as u8 },
    )
}

/// The queue part way through a tick: the ids in `done` are ticked, the
/// others not yet.
pub open spec fn partly_ticked<V>(m: Map<usize, PendingOverride<V>>, done: Set<usize>) -> Map<usize, PendingOverride<V>> {
    Map::new(
        |k: usize| if done.contains(k) {
            m.contains_key(k) && m[k].remaining_after_ticks > 1
        } else {
            m.contains_key(k)
        },
        |k: usize| if done.contains(k) {
            PendingOverride { values: m[k].values, remaining_after_ticks: (m[k].remaining_after_ticks - 1) as u8 }
        } else {
            m[k]
        },
    )
}

impl<V> OverrideQueue<V> {
    pub closed spec fn view(&self) -> Map<usize, PendingOverride<V>> {
        self.entries@
    }

    /// An empty queue.
    pub fn new() -> (r: Self)
        ensures
            r@ == Map::<usize, PendingOverride<V>>::empty(),
    {
        OverrideQueue { entries: HashMap::new() }
    }

    /// Queues a change for `id`, in place of any queued before, to be kept
    /// for `OVERRIDE_TICKS` ticks.
    pub fn queue(&mut self, id: usize, values: V)
        ensures
            final(self)@ == old(self)@.insert(id, PendingOverride { values, remaining_after_ticks: OVERRIDE_TICKS }),
    {
        self.entries.insert(id, PendingOverride { values, remaining_after_ticks: OVERRIDE_TICKS });
    }

    /// Drops every queued change.
    pub fn clear(&mut self)
        ensures
            final(self)@ == Map::<usize, PendingOverride<V>>::empty(),
    {
        self.entries.clear();
    }

    /// The change queued for `id`, if any.
    pub fn get(&self, id: usize) -> (r: Option<&V>)
        ensures
            match r {
                Some(v) => self@.contains_key(id) && *v == self@[id].values,
                None => !self@.contains_key(id),
            },
    {
        match self.entries.get(&id) {
            Some(entry) => Some(&entry.values),
            None => None,
        }
    }

    /// The ids with a queued change, each once.
    pub fn pending_ids(&self) -> (r: Vec<usize>)
        ensures
            r@.no_duplicates(),
            r@.to_set() == self@.dom(),
    {
        let ghost keys = vstd::std_specs::hash::spec_keys_iter(&self.entries).remaining().unref();
        proof {
            assert(keys.to_set() == self.entries@.dom());
        }
        let mut ids: Vec<usize> = Vec::new();
        for k in it: self.entries.keys()
            invariant
                it.seq().map_values(|r: &usize| *r) == keys,
                ids@ == keys.take(it.index() as int),
        {
            ids.push(*k);
        }
        assert(ids@ == keys);
        ids
    }

    /// One management tick: every queued change loses a tick, and those with
    /// none left are dropped.
    pub fn tick(&mut self)
        ensures
            final(self)@ == ticked(old(self)@),
    {
        let ids = self.pending_ids();
        let ghost start = self.entries@;
        let mut i: usize = 0;
        assert(ids@.take(0).to_set() =~= Set::<usize>::empty());
        assert(self.entries@ =~= partly_ticked(start, ids@.take(0).to_set()));
        while i < ids.len()
            invariant
                i <= ids.len(),
                ids@.no_duplicates(),
                ids@.to_set() == start.dom(),
                self.entries@ == partly_ticked(start, ids@.take(i as int).to_set()),
            decreases ids.len() - i,
        {
            let k = ids[i];
            let ghost done = ids@.take(i as int).to_set();
            assert(!done.contains(k)) by {
                if done.contains(k) {
                    let j = choose|j: int| 0 <= j < i && ids@.take(i as int)[j] == k;
                    assert(ids@[j] == ids@[i as int]);
                }
            }
            assert(ids@.take(i + 1) == ids@.take(i as int).push(k));
            assert(ids@.take(i + 1).to_set() == done.insert(k)) by {
                ids@.take(i as int).lemma_push_to_set_commute(k);
            }
            let ghost before = self.entries@;
            match self.entries.remove(&k) {
                Some(entry) => {
                    if entry.remaining_after_ticks > 1 {
                        let left = entry.remaining_after_ticks - 1;
                        self.entries.insert(k, PendingOverride { values: entry.values, remaining_after_ticks: left });
                    }
                },
                None => {},
            }
            assert(self.entries@ =~= partly_ticked(start, done.insert(k)));
            i += 1;
        }
        assert(ids@.take(ids.len() as int) == ids@);
        assert(self.entries@ =~= ticked(start));
    }
}

/// A tick keeps no id that was not queued, and changes no queued values.
pub proof fn lemma_tick_keeps_values<V>(m: Map<usize, PendingOverride<V>>)
    ensures
        forall|k: usize| #[trigger] ticked(m).contains_key(k) ==> m.contains_key(k) && ticked(m)[k].values == m[k].values
            && ticked(m)[k].remaining_after_ticks + 1 == m[k].remaining_after_ticks,
{
}

/// A change queued for `id` is applied through the next two ticks and is
/// gone after the third, whatever else is queued.
pub proof fn lemma_override_lasts_three_ticks<V>(m: Map<usize, PendingOverride<V>>, id: usize, values: V)
    ensures
        ({
            let q = m.insert(id, PendingOverride { values, remaining_after_ticks: OVERRIDE_TICKS });
            &&& ticked(q).contains_key(id) && ticked(q)[id].values == values
            &&& ticked(ticked(q)).contains_key(id) && ticked(ticked(q))[id].values == values
            &&& !ticked(ticked(ticked(q))).contains_key(id)
        }),
{
    let q = m.insert(id, PendingOverride { values, remaining_after_ticks: OVERRIDE_TICKS });
    assert(q[id].remaining_after_ticks == 3);
    assert(ticked(q)[id].remaining_after_ticks == 2);
    assert(ticked(ticked(q))[id].remaining_after_ticks == 1);
}

} // verus!
