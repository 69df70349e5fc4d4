//! A map from request ids to values.

use vstd::prelude::*;

use crate::request_id::RequestId;

verus! {

use crate::request_id::IdView;

/// The map that a sequence of entries stands for; a later entry hides an earlier one.
spec fn entries_map<V>(entries: Seq<(RequestId, V)>) -> Map<IdView, V>
    decreases entries.len(),
{
    if entries.len() == 0 {
        Map::empty()
    } else {
        entries_map(entries.drop_last()).insert(entries.last().0@, entries.last().1)
    }
}

/// No id occurs twice.
spec fn distinct_ids<V>(entries: Seq<(RequestId, V)>) -> bool {
    forall|i: int, j: int|
        0 <= i < j < entries.len() ==> (#[trigger] entries[i]).0@ != (#[trigger] entries[j]).0@
}

/// What the map of distinct entries holds.
proof fn lemma_entries_map<V>(entries: Seq<(RequestId, V)>)
    requires
        distinct_ids(entries),
    ensures
        forall|i: int|
            0 <= i < entries.len() ==> entries_map(entries).contains_key(
                (#[trigger] entries[i]).0@,
            ) && entries_map(entries)[entries[i].0@] == entries[i].1,
        forall|k: IdView| #[trigger]
            entries_map(entries).contains_key(k) ==> exists|i: int|
                0 <= i < entries.len() && (#[trigger] entries[i]).0@ == k,
        entries_map(entries).dom().finite(),
        entries_map(entries).dom().len() == entries.len(),
    decreases entries.len(),
{
    if entries.len() > 0 {
        let front = entries.drop_last();
        let last = entries.last();
        lemma_entries_map(front);
        assert forall|i: int| 0 <= i < front.len() implies (#[trigger] front[i]).0@ != last.0@ by {
            assert(entries[i].0@ != entries[entries.len() - 1].0@);
        }
        assert(!entries_map(front).contains_key(last.0@));
        assert forall|k: IdView| #[trigger]
            entries_map(entries).contains_key(k) implies exists|i: int|
            0 <= i < entries.len() && (#[trigger] entries[i]).0@ == k by {
            if k == last.0@ {
                assert(entries[entries.len() - 1].0@ == k);
            } else {
                let i = choose|i: int| 0 <= i < front.len() && (#[trigger] front[i]).0@ == k;
                assert(entries[i].0@ == k);
            }
        }
        assert forall|i: int| 0 <= i < entries.len() implies entries_map(entries).contains_key(
            (#[trigger] entries[i]).0@,
        ) && entries_map(entries)[entries[i].0@] == entries[i].1 by {
            if i < front.len() {
                assert(front[i] == entries[i]);
            }
        }
        assert(entries_map(entries).dom() =~= entries_map(front).dom().insert(last.0@));
    }
}

/// A map from request ids to values, in which each id occurs at most once.
#[derive(Debug)]
pub struct IdMap<V> {
    entries: Vec<(RequestId, V)>,
}

impl<V> View for IdMap<V> {
    type V = Map<IdView, V>;

    closed spec fn view(&self) -> Map<IdView, V> {
        entries_map(self.entries@)
    }
}

impl<V> IdMap<V> {
    #[verifier::type_invariant]
    spec fn distinct(self) -> bool {
        distinct_ids(self.entries@)
    }

    /// Creates a map without entries.
    pub fn new() -> (r: Self)
        ensures
            r@ == Map::<IdView, V>::empty(),
    {
        Self { entries: Vec::new() }
    }

    /// The index of the entry for `id`, if there is one.
    fn find(&self, id: &RequestId) -> (r: Option<usize>)
        ensures
            match r {
                Some(i) => i < self.entries@.len() && self.entries@[i as int].0@ == id@,
                None => !self@.contains_key(id@),
            },
    {
        proof {
            use_type_invariant(self);
            lemma_entries_map(self.entries@);
        }
        let mut i: usize = 0;
        while i < self.entries.len()
            invariant
                i <= self.entries@.len(),
                forall|j: int| 0 <= j < i ==> (#[trigger] self.entries@[j]).0@ != id@,
            decreases self.entries@.len() - i,
        {
            if self.entries[i].0 == *id {
                return Some(i);
            }
            i += 1;
        }
        None
    }

    /// Tests whether there is an entry for `id`.
    pub fn contains_key(&self, id: &RequestId) -> (r: bool)
        ensures
            r == self@.contains_key(id@),
    {
        proof {
            use_type_invariant(self);
            lemma_entries_map(self.entries@);
        }
        match self.find(id) {
            Some(_) => true,
            None => false,
        }
    }

    /// The value for `id`, if there is one.
    pub fn get(&self, id: &RequestId) -> (r: Option<&V>)
        ensures
            match r {
                Some(v) => self@.contains_key(id@) && *v == self@[id@],
                None => !self@.contains_key(id@),
            },
    {
        proof {
            use_type_invariant(self);
            lemma_entries_map(self.entries@);
        }
        match self.find(id) {
            Some(i) => Some(&self.entries[i].1),
            None => None,
        }
    }

    /// The number of entries.
    pub fn len(&self) -> (r: usize)
        ensures
            self@.dom().finite(),
            r == self@.dom().len(),
    {
        proof {
            use_type_invariant(self);
            lemma_entries_map(self.entries@);
        }
        self.entries.len()
    }

    /// Takes the entry for `id` out and gives its value, if there is one.
    pub fn remove(&mut self, id: &RequestId) -> (r: Option<V>)
        ensures
            final(self)@ == old(self)@.remove(id@),
            match r {
                Some(v) => old(self)@.contains_key(id@) && v == old(self)@[id@],
                None => !old(self)@.contains_key(id@),
            },
    {
        proof {
            use_type_invariant(&*self);
            lemma_entries_map(self.entries@);
        }
        match self.find(id) {
            Some(i) => {
                let ghost before = self.entries@;
                let mut entries: Vec<(RequestId, V)> = Vec::new();
                std::mem::swap(&mut entries, &mut self.entries);
                let (_, value) = entries.remove(i);
                proof {
                    lemma_remove_entry(before, i as int);
                }
                self.entries = entries;
                Some(value)
            },
            None => {
                assert(old(self)@.remove(id@) =~= old(self)@);
                None
            },
        }
    }

    /// Takes some entry out and gives it, unless there is none.
    pub fn pop(&mut self) -> (r: Option<(RequestId, V)>)
        ensures
            old(self)@.dom().finite(),
            match r {
                Some((id, v)) => {
                    &&& old(self)@.contains_key(id@)
                    &&& v == old(self)@[id@]
                    &&& final(self)@ == old(self)@.remove(id@)
                },
                None => old(self)@ == Map::<IdView, V>::empty() && final(self)@ == old(self)@,
            },
    {
        proof {
            use_type_invariant(&*self);
            lemma_entries_map(self.entries@);
        }
        let ghost before = self.entries@;
        let mut entries: Vec<(RequestId, V)> = Vec::new();
        std::mem::swap(&mut entries, &mut self.entries);
        let last = entries.pop();
        proof {
            if before.len() > 0 {
                lemma_remove_entry(before, before.len() - 1);
                assert(entries@ =~= before.remove(before.len() - 1));
            } else {
                assert(entries@ =~= before);
            }
        }
        self.entries = entries;
        last
    }

    /// Sets the value for `id` and gives the value that it had, if any.
    pub fn insert(&mut self, id: RequestId, value: V) -> (r: Option<V>)
        ensures
            final(self)@ == old(self)@.insert(id@, value),
            match r {
                Some(v) => old(self)@.contains_key(id@) && v == old(self)@[id@],
                None => !old(self)@.contains_key(id@),
            },
    {
        let previous = self.remove(&id);
        proof {
            use_type_invariant(&*self);
            lemma_entries_map(self.entries@);
        }
        let ghost before = self.entries@;
        let mut entries: Vec<(RequestId, V)> = Vec::new();
        std::mem::swap(&mut entries, &mut self.entries);
        entries.push((id, value));
        proof {
            assert(entries@.drop_last() =~= before);
            assert forall|i: int, j: int| 0 <= i < j < entries@.len() implies (
            #[trigger] entries@[i]).0@ != (#[trigger] entries@[j]).0@ by {
                if j == before.len() {
                    assert(entries_map(before).contains_key(before[i].0@));
                }
            }
            assert(old(self)@.remove(id@).insert(id@, value) =~= old(self)@.insert(id@, value));
        }
        self.entries = entries;
        previous
    }
}

/// Taking one entry out takes its id out of the map.
proof fn lemma_remove_entry<V>(entries: Seq<(RequestId, V)>, i: int)
    requires
        distinct_ids(entries),
        0 <= i < entries.len(),
    ensures
        distinct_ids(entries.remove(i)),
        entries_map(entries.remove(i)) == entries_map(entries).remove(entries[i].0@),
{
    let rest = entries.remove(i);
    let id = entries[i].0@;
    assert forall|a: int, b: int| 0 <= a < b < rest.len() implies (#[trigger] rest[a]).0@ != (
    #[trigger] rest[b]).0@ by {
        let a2 = if a < i { a } else { a + 1 };
        let b2 = if b < i { b } else { b + 1 };
        assert(entries[a2].0@ != entries[b2].0@);
    }
    lemma_entries_map(entries);
    lemma_entries_map(rest);
    let target = entries_map(entries).remove(id);
    assert forall|k: IdView| #[trigger] entries_map(rest).contains_key(k) implies {
        &&& target.contains_key(k)
        &&& target[k] == entries_map(rest)[k]
    } by {
        let a = choose|a: int| 0 <= a < rest.len() && (#[trigger] rest[a]).0@ == k;
        let a2 = if a < i { a } else { a + 1 };
        assert(rest[a] == entries[a2]);
    }
    assert forall|k: IdView| #[trigger] target.contains_key(k) implies entries_map(
        rest,
    ).contains_key(k) by {
        let a = choose|a: int| 0 <= a < entries.len() && (#[trigger] entries[a]).0@ == k;
        assert(a != i);
        let a2 = if a < i { a } else { a - 1 };
        assert(rest[a2] == entries[a]);
    }
    assert(entries_map(rest) =~= target);
}

} // verus!
