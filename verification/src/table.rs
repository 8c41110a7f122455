//! The table of pending responses: for each job that a worker holds, the slot
//! through which its result goes back to the client.

use crate::ident::RequestId;
use crate::rendezvous::Producer;
use vstd::prelude::*;

verus! {

/// One pending response: the id of the job and the producer half of the slot
/// its client waits on.
#[verifier::reject_recursive_types(T)]
struct Awaiting<T> {
    id: RequestId,
    producer: Producer<T>,
}

/// Whether `i` is the place of `key` in `entries`.
spec fn holds_at<T>(entries: Seq<Awaiting<T>>, i: int, key: Seq<u8>) -> bool {
    0 <= i < entries.len() && entries[i].id@ == key
}

/// Whether no id occurs twice in `entries`.
spec fn distinct_ids<T>(entries: Seq<Awaiting<T>>) -> bool {
    forall|i: int, j: int|
        0 <= i < j < entries.len() ==> (#[trigger] entries[i]).id@ != (#[trigger] entries[j]).id@
}

/// The mapping that `entries` stands for.
spec fn mapping_of<T>(entries: Seq<Awaiting<T>>) -> Map<Seq<u8>, Producer<T>> {
    Map::new(
        |key: Seq<u8>| exists|i: int| holds_at(entries, i, key),
        |key: Seq<u8>| entries[choose|i: int| holds_at(entries, i, key)].producer,
    )
}

/// With distinct ids, the entry at `i` is what the mapping has for its id.
proof fn lemma_entry_is_mapped<T>(entries: Seq<Awaiting<T>>, i: int)
    requires
        distinct_ids(entries),
        0 <= i < entries.len(),
    ensures
        mapping_of(entries).contains_key(entries[i].id@),
        mapping_of(entries)[entries[i].id@] == entries[i].producer,
{
    let key = entries[i].id@;
    assert(holds_at(entries, i, key));
    let j = choose|j: int| holds_at(entries, j, key);
    assert(i == j) by {
        if i < j {
            assert(entries[i].id@ != entries[j].id@);
        } else if j < i {
            assert(entries[j].id@ != entries[i].id@);
        }
    }
}

/// Appending an entry under a new id keeps the ids distinct and adds that
/// entry to the mapping.
proof fn lemma_grown<T>(before: Seq<Awaiting<T>>, after: Seq<Awaiting<T>>)
    requires
        distinct_ids(after),
        after.len() == before.len() + 1,
        after.drop_last() == before,
    ensures
        mapping_of(after) == mapping_of(before).insert(after.last().id@, after.last().producer),
{
    let last = before.len() as int;
    let added = after[last];
    assert forall|key: Seq<u8>|
        mapping_of(after).contains_key(key) <==> key == added.id@ || mapping_of(
            before,
        ).contains_key(key) by {
        if mapping_of(after).contains_key(key) {
            let i = choose|i: int| holds_at(after, i, key);
            assert(i != last ==> holds_at(before, i, key));
        }
        if mapping_of(before).contains_key(key) {
            let i = choose|i: int| holds_at(before, i, key);
            assert(holds_at(after, i, key));
        }
        assert(holds_at(after, last, added.id@));
    }
    lemma_entry_is_mapped(after, last);
    assert forall|key: Seq<u8>|
        key != added.id@ && mapping_of(before).contains_key(key) implies mapping_of(after)[key]
        == mapping_of(before)[key] by {
        let i = choose|i: int| holds_at(before, i, key);
        assert(before[i] == after[i]);
        lemma_entry_is_mapped(before, i);
        lemma_entry_is_mapped(after, i);
    }
    assert(mapping_of(after) =~= mapping_of(before).insert(added.id@, added.producer));
}

/// Taking the entry at `place` out, with the last entry moved into its place,
/// keeps the ids distinct and removes that entry from the mapping.
proof fn lemma_shrunk<T>(before: Seq<Awaiting<T>>, after: Seq<Awaiting<T>>, place: int)
    requires
        distinct_ids(before),
        0 <= place < before.len(),
        after == before.update(place, before.last()).drop_last(),
    ensures
        distinct_ids(after),
        mapping_of(after) == mapping_of(before).remove(before[place].id@),
{
    let last = before.len() - 1;
    let gone = before[place].id@;
    // where the entry at `i` of `after` stood in `before`, and the other way round
    let origin = |i: int| if i == place { last } else { i };
    let target = |i: int| if i == last { place } else { i };
    assert forall|i: int| 0 <= i < after.len() implies after[i] == before[origin(i)] by {}
    assert forall|i: int, j: int| 0 <= i < j < after.len() implies after[i].id@
        != after[j].id@ by {
        assert(after[i] == before[origin(i)] && after[j] == before[origin(j)]);
        assert(origin(i) != origin(j));
    }
    assert forall|key: Seq<u8>|
        mapping_of(after).contains_key(key) <==> key != gone && mapping_of(before).contains_key(
            key,
        ) by {
        if mapping_of(after).contains_key(key) {
            let i = choose|i: int| holds_at(after, i, key);
            assert(after[i] == before[origin(i)]);
            assert(holds_at(before, origin(i), key));
            assert(origin(i) != place);
        }
        if key != gone && mapping_of(before).contains_key(key) {
            let i = choose|i: int| holds_at(before, i, key);
            assert(after[target(i)] == before[i]);
            assert(holds_at(after, target(i), key));
        }
    }
    assert forall|key: Seq<u8>| mapping_of(after).contains_key(key) implies mapping_of(after)[key]
        == mapping_of(before)[key] by {
        let i = choose|i: int| holds_at(after, i, key);
        assert(after[i] == before[origin(i)]);
        lemma_entry_is_mapped(after, i);
        lemma_entry_is_mapped(before, origin(i));
    }
    assert(mapping_of(after) =~= mapping_of(before).remove(gone));
}

/// Pending responses by request id. An id is present at most once.
///
/// The entries are a list that is searched in order, not a hash map: what
/// vstd knows of a hash map holds only for keys whose hashing it knows, the
/// integers, and a request id is a byte string of any length.
#[verifier::reject_recursive_types(T)]
pub struct ResponseTable<T> {
    entries: Vec<Awaiting<T>>,
}

impl<T> View for ResponseTable<T> {
    type V = Map<Seq<u8>, Producer<T>>;

    closed spec fn view(&self) -> Map<Seq<u8>, Producer<T>> {
        mapping_of(self.entries@)
    }
}

impl<T> ResponseTable<T> {
    #[verifier::type_invariant]
    spec fn unique(&self) -> bool {
        distinct_ids(self.entries@)
    }

    /// The empty table.
    pub fn new() -> (table: ResponseTable<T>)
        ensures
            table@ == Map::<Seq<u8>, Producer<T>>::empty(),
    {
        let table = ResponseTable { entries: Vec::new() };
        assert(table@ =~= Map::<Seq<u8>, Producer<T>>::empty());
        table
    }

    /// The place of `id` among the entries, if it is pending.
    fn position(&self, id: &RequestId) -> (place: Option<usize>)
        ensures
            match place {
                Some(i) => holds_at(self.entries@, i as int, id@),
                None => !self@.contains_key(id@),
            },
    {
        let mut i: usize = 0;
        while i < self.entries.len()
            invariant
                0 <= i <= self.entries@.len(),
                forall|k: int| 0 <= k < i ==> !holds_at(self.entries@, k, id@),
            decreases self.entries@.len() - i,
        {
            if self.entries[i].id.same(id) {
                return Some(i);
            }
            i += 1;
        }
        None
    }

    /// Whether a response is pending under `id`.
    pub fn contains(&self, id: &RequestId) -> (present: bool)
        ensures
            present == self@.contains_key(id@),
    {
        match self.position(id) {
            Some(_) => true,
            None => false,
        }
    }

    /// Registers `producer` under `id`. Fails, giving the producer back and
    /// leaving the table as it was, when `id` is already pending.
    pub fn insert(&mut self, id: RequestId, producer: Producer<T>) -> (r: Result<(), Producer<T>>)
        ensures
            old(self)@.contains_key(id@) ==> r == Err::<(), Producer<T>>(producer) && final(self)@
                == old(self)@,
            !old(self)@.contains_key(id@) ==> r is Ok && final(self)@ == old(self)@.insert(
                id@,
                producer,
            ),
    {
        proof {
            use_type_invariant(&*self);
        }
        if self.contains(&id) {
            return Err(producer);
        }
        let mut entries = Vec::new();
        std::mem::swap(&mut entries, &mut self.entries);
        entries.push(Awaiting { id, producer });
        proof {
            let before = old(self).entries@;
            let after = entries@;
            let last = before.len() as int;
            assert(!holds_at(before, last, id@) && holds_at(after, last, id@));
            assert forall|i: int, j: int| 0 <= i < j < after.len() implies after[i].id@
                != after[j].id@ by {
                assert(j == last ==> !holds_at(before, i, id@));
            }
            assert(after.drop_last() =~= before);
            lemma_grown(before, after);
        }
        *self = ResponseTable { entries };
        Ok(())
    }

    /// Takes the producer registered under `id` out of the table, if there is
    /// one.
    pub fn remove(&mut self, id: &RequestId) -> (taken: Option<Producer<T>>)
        ensures
            final(self)@ == old(self)@.remove(id@),
            taken == if old(self)@.contains_key(id@) {
                Some(old(self)@[id@])
            } else {
                None
            },
    {
        proof {
            use_type_invariant(&*self);
        }
        match self.position(id) {
            None => {
                assert(self@ =~= old(self)@.remove(id@));
                None
            },
            Some(place) => {
                let mut entries = Vec::new();
                std::mem::swap(&mut entries, &mut self.entries);
                let gone = entries.swap_remove(place);
                proof {
                    lemma_entry_is_mapped(old(self).entries@, place as int);
                    lemma_shrunk(old(self).entries@, entries@, place as int);
                }
                *self = ResponseTable { entries };
                Some(gone.producer)
            },
        }
    }
}

} // verus!
