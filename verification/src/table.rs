//! Lists of entries with different keys, and the maps that they stand for.

use crate::text::same_text;
use vstd::prelude::*;

verus! {

/// No two entries have the same key.
pub open spec fn distinct_keys<K, V>(entries: Seq<(K, V)>) -> bool {
    forall|i: int, j: int| 0 <= i < j < entries.len() ==> (#[trigger] entries[i]).0 != (#[trigger] entries[j]).0
}

/// An entry has this key.
pub open spec fn has_key<K, V>(entries: Seq<(K, V)>, key: K) -> bool {
    exists|i: int| 0 <= i < entries.len() && (#[trigger] entries[i]).0 == key
}

/// The map that a list of entries with different keys stands for.
pub open spec fn keyed<K, V>(entries: Seq<(K, V)>) -> Map<K, V> {
    Map::new(
        |key: K| has_key(entries, key),
        |key: K| entries[choose|i: int| 0 <= i < entries.len() && (#[trigger] entries[i]).0 == key].1,
    )
}

/// An entry stands in the map under its key.
pub proof fn lemma_keyed_at<K, V>(entries: Seq<(K, V)>, i: int)
    requires
        distinct_keys(entries),
        0 <= i < entries.len(),
    ensures
        keyed(entries).contains_key(entries[i].0),
        keyed(entries)[entries[i].0] == entries[i].1,
{
    let key = entries[i].0;
    assert(has_key(entries, key));
    let k = choose|k: int| 0 <= k < entries.len() && (#[trigger] entries[k]).0 == key;
    assert(k == i);
}

/// One more entry, under a key that is new, is one more entry of the map.
pub proof fn lemma_keyed_push<K, V>(entries: Seq<(K, V)>, key: K, value: V)
    requires
        distinct_keys(entries),
        !has_key(entries, key),
    ensures
        distinct_keys(entries.push((key, value))),
        keyed(entries.push((key, value))) == keyed(entries).insert(key, value),
{
    let longer = entries.push((key, value));
    assert(distinct_keys(longer)) by {
        assert forall|i: int, j: int| 0 <= i < j < longer.len() implies (#[trigger] longer[i]).0 != (
        #[trigger] longer[j]).0 by {
            assert(longer[i] == entries[i]);
            if j < entries.len() {
                assert(longer[j] == entries[j]);
            }
        }
    }
    assert forall|k: K| has_key(longer, k) == keyed(entries).insert(key, value).contains_key(k) by {
        if has_key(entries, k) {
            let i = choose|i: int| 0 <= i < entries.len() && (#[trigger] entries[i]).0 == k;
            assert(longer[i].0 == k);
        }
        if k == key {
            assert(longer[entries.len() as int].0 == k);
        }
        if has_key(longer, k) {
            let i = choose|i: int| 0 <= i < longer.len() && (#[trigger] longer[i]).0 == k;
            if i < entries.len() {
                assert(entries[i].0 == k);
            }
        }
    }
    assert forall|k: K| has_key(longer, k) implies #[trigger] keyed(longer)[k] == keyed(entries).insert(key, value)[k] by {
        let i = choose|i: int| 0 <= i < longer.len() && (#[trigger] longer[i]).0 == k;
        lemma_keyed_at(longer, i);
        if i < entries.len() {
            assert(entries[i] == longer[i]);
            lemma_keyed_at(entries, i);
        }
    }
    assert(keyed(longer) =~= keyed(entries).insert(key, value));
}

/// An entry that is taken out of the list is taken out of the map.
pub proof fn lemma_keyed_remove<K, V>(entries: Seq<(K, V)>, at: int)
    requires
        distinct_keys(entries),
        0 <= at < entries.len(),
    ensures
        distinct_keys(entries.remove(at)),
        keyed(entries.remove(at)) == keyed(entries).remove(entries[at].0),
        !has_key(entries.remove(at), entries[at].0),
{
    let rest = entries.remove(at);
    let key = entries[at].0;
    assert forall|i: int| 0 <= i < rest.len() implies #[trigger] rest[i] == entries[if i < at {
        i
    } else {
        i + 1
    }] by {}
    assert(distinct_keys(rest));
    assert forall|k: K| has_key(rest, k) == (has_key(entries, k) && k != key) by {
        if has_key(rest, k) {
            let i = choose|i: int| 0 <= i < rest.len() && (#[trigger] rest[i]).0 == k;
            let j = if i < at {
                i
            } else {
                i + 1
            };
            assert(entries[j].0 == k);
            assert(j != at);
        }
        if has_key(entries, k) && k != key {
            let j = choose|j: int| 0 <= j < entries.len() && (#[trigger] entries[j]).0 == k;
            let i = if j < at {
                j
            } else {
                j - 1
            };
            assert(rest[i].0 == k);
        }
    }
    assert forall|k: K| has_key(rest, k) implies #[trigger] keyed(rest)[k] == keyed(entries)[k] by {
        let i = choose|i: int| 0 <= i < rest.len() && (#[trigger] rest[i]).0 == k;
        lemma_keyed_at(rest, i);
        lemma_keyed_at(
            entries,
            if i < at {
                i
            } else {
                i + 1
            },
        );
    }
    assert(keyed(rest) =~= keyed(entries).remove(key));
}

/// An entry that is changed in the list is changed in the map.
pub proof fn lemma_keyed_update<K, V>(entries: Seq<(K, V)>, at: int, value: V)
    requires
        distinct_keys(entries),
        0 <= at < entries.len(),
    ensures
        distinct_keys(entries.update(at, (entries[at].0, value))),
        keyed(entries.update(at, (entries[at].0, value))) == keyed(entries).insert(entries[at].0, value),
{
    let key = entries[at].0;
    let changed = entries.update(at, (key, value));
    assert forall|i: int| 0 <= i < changed.len() implies (#[trigger] changed[i]).0 == entries[i].0 by {}
    assert(distinct_keys(changed));
    assert(has_key(entries, key));
    assert forall|k: K| has_key(changed, k) == has_key(entries, k) by {
        if has_key(changed, k) {
            let i = choose|i: int| 0 <= i < changed.len() && (#[trigger] changed[i]).0 == k;
            assert(entries[i].0 == k);
        }
        if has_key(entries, k) {
            let i = choose|i: int| 0 <= i < entries.len() && (#[trigger] entries[i]).0 == k;
            assert(changed[i].0 == k);
        }
    }
    assert forall|k: K| has_key(changed, k) implies #[trigger] keyed(changed)[k] == keyed(entries).insert(key, value)[k] by {
        let i = choose|i: int| 0 <= i < changed.len() && (#[trigger] changed[i]).0 == k;
        lemma_keyed_at(changed, i);
        lemma_keyed_at(entries, i);
    }
    assert(keyed(changed) =~= keyed(entries).insert(key, value));
}

/// The waiters of calls in flight, by request id.
pub struct Waiters<W> {
    entries: Vec<(String, W)>,
}

/// A list of ids and waiters, with the ids as text.
pub open spec fn waiter_entries<W>(entries: Seq<(String, W)>) -> Seq<(Seq<char>, W)> {
    entries.map_values(|e: (String, W)| (e.0@, e.1))
}

impl<W> View for Waiters<W> {
    type V = Map<Seq<char>, W>;

    closed spec fn view(&self) -> Map<Seq<char>, W> {
        keyed(waiter_entries(self.entries@))
    }
}

impl<W> Waiters<W> {
    /// No id stands twice in the table.
    pub closed spec fn wf(&self) -> bool {
        distinct_keys(waiter_entries(self.entries@))
    }

    /// Nobody waits.
    pub fn new() -> (waiters: Waiters<W>)
        ensures
            waiters.wf(),
            waiters@ == Map::<Seq<char>, W>::empty(),
    {
        let waiters = Waiters { entries: Vec::new() };
        assert(waiters@ =~= Map::<Seq<char>, W>::empty());
        waiters
    }

    fn position(&self, id: &str) -> (at: Option<usize>)
        requires
            self.wf(),
        ensures
            match at {
                Some(i) => i < self.entries@.len() && self.entries@[i as int].0@ == id@ && self@.contains_key(id@)
                    && self@[id@] == self.entries@[i as int].1,
                None => !self@.contains_key(id@),
            },
    {
        let ghost all = waiter_entries(self.entries@);
        for i in 0..self.entries.len()
            invariant
                self.wf(),
                all == waiter_entries(self.entries@),
                forall|k: int| 0 <= k < i ==> (#[trigger] all[k]).0 != id@,
        {
            if same_text(self.entries[i].0.as_str(), id) {
                proof {
                    lemma_keyed_at(all, i as int);
                }
                return Some(i);
            }
        }
        assert(!has_key(all, id@));
        None
    }

    /// Takes the waiter of an id out of the table.
    pub fn remove(&mut self, id: &str) -> (waiter: Option<W>)
        requires
            old(self).wf(),
        ensures
            final(self).wf(),
            final(self)@ == old(self)@.remove(id@),
            waiter == (if old(self)@.contains_key(id@) {
                Some(old(self)@[id@])
            } else {
                None
            }),
    {
        match self.position(id) {
            Some(i) => {
                let ghost all = waiter_entries(self.entries@);
                proof {
                    lemma_keyed_remove(all, i as int);
                }
                let entry = self.entries.remove(i);
                assert(waiter_entries(self.entries@) =~= all.remove(i as int));
                Some(entry.1)
            },
            None => {
                assert(self@.remove(id@) =~= self@);
                None
            },
        }
    }

    /// Enters a waiter under an id, and gives back the one that it takes the place of.
    pub fn insert(&mut self, id: String, waiter: W) -> (replaced: Option<W>)
        requires
            old(self).wf(),
        ensures
            final(self).wf(),
            final(self)@ == old(self)@.insert(id@, waiter),
            replaced == (if old(self)@.contains_key(id@) {
                Some(old(self)@[id@])
            } else {
                None
            }),
    {
        let ghost before = self@;
        let replaced = self.remove(id.as_str());
        let ghost all = waiter_entries(self.entries@);
        proof {
            assert(!self@.contains_key(id@));
            assert(!has_key(all, id@));
            lemma_keyed_push(all, id@, waiter);
            assert(before.remove(id@).insert(id@, waiter) =~= before.insert(id@, waiter));
        }
        let ghost key = id@;
        self.entries.push((id, waiter));
        assert(waiter_entries(self.entries@) =~= all.push((key, waiter)));
        replaced
    }

    /// Takes every waiter out of the table.
    pub fn take_all(&mut self) -> (all: Vec<(String, W)>)
        requires
            old(self).wf(),
        ensures
            final(self).wf(),
            final(self)@ == Map::<Seq<char>, W>::empty(),
            distinct_keys(waiter_entries(all@)),
            keyed(waiter_entries(all@)) == old(self)@,
    {
        let mut all: Vec<(String, W)> = Vec::new();
        std::mem::swap(&mut self.entries, &mut all);
        assert(self@ =~= Map::<Seq<char>, W>::empty());
        all
    }
}

} // verus!
