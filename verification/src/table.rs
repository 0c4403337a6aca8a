//! The backend table: a map of bounded size from service address to backend.
//!
//! The control plane is its only writer. The classifier reads it and never
//! changes it.

use vstd::prelude::*;

verus! {

/// The largest number of backends that a table holds by default.
pub const DEFAULT_MAX_ENTRIES: usize = 128;

/// The service address that a packet was sent to, both fields in host order.
#[derive(Clone, Copy, Debug, PartialEq, Eq, Hash, Structural)]
pub struct BackendKey {
    /// Destination IPv4 address.
    pub ip: u32,
    /// Destination UDP port.
    pub port: u32,
}

/// One concrete target that traffic for a service address is sent on to.
#[derive(Clone, Copy, Debug, PartialEq, Eq, Structural)]
pub struct Backend {
    /// IPv4 address of the backend. It goes on the wire most significant
    /// octet first.
    pub daddr: u32,
    /// UDP port of the backend. Only its low 16 bits go on the wire.
    pub dport: u32,
    /// Index of the interface through which the backend is reached.
    pub ifindex: u32,
}

/// An `upsert` of a new key found the table full.
#[derive(Clone, Copy, Debug, PartialEq, Eq, Structural)]
pub struct TableCapacityExceeded;

/// Whether no key occurs twice among `entries`.
spec fn keys_distinct(entries: Seq<(BackendKey, Backend)>) -> bool {
    forall|i: int, j: int|
        0 <= i < entries.len() && 0 <= j < entries.len() && i != j ==> (#[trigger] entries[i]).0
            != (#[trigger] entries[j]).0
}

/// Whether some entry of `entries` has the key `key`.
spec fn has_key(entries: Seq<(BackendKey, Backend)>, key: BackendKey) -> bool {
    exists|i: int| 0 <= i < entries.len() && (#[trigger] entries[i]).0 == key
}

/// The position of an entry with the key `key`.
spec fn index_of(entries: Seq<(BackendKey, Backend)>, key: BackendKey) -> int {
    choose|i: int| 0 <= i < entries.len() && (#[trigger] entries[i]).0 == key
}

/// The map that a list of entries stands for.
spec fn entries_map(entries: Seq<(BackendKey, Backend)>) -> Map<BackendKey, Backend> {
    Map::new(
        |key: BackendKey| has_key(entries, key),
        |key: BackendKey| entries[index_of(entries, key)].1,
    )
}

/// In a list without repeated keys, the entry at `i` is what the map holds
/// for its key.
proof fn lemma_entry_in_map(entries: Seq<(BackendKey, Backend)>, i: int)
    requires
        keys_distinct(entries),
        0 <= i < entries.len(),
    ensures
        entries_map(entries).contains_key(entries[i].0),
        entries_map(entries)[entries[i].0] == entries[i].1,
{
    let key = entries[i].0;
    assert(has_key(entries, key));
    let j = index_of(entries, key);
    assert(0 <= j < entries.len() && entries[j].0 == key);
    assert(j == i);
}

/// Appending an entry under a key that is not yet there inserts it into the
/// map.
proof fn lemma_push_is_insert(
    entries: Seq<(BackendKey, Backend)>,
    key: BackendKey,
    value: Backend,
)
    requires
        keys_distinct(entries),
        !has_key(entries, key),
    ensures
        keys_distinct(entries.push((key, value))),
        entries_map(entries.push((key, value))) == entries_map(entries).insert(key, value),
{
    let after = entries.push((key, value));
    assert(keys_distinct(after)) by {
        assert forall|i: int, j: int|
            0 <= i < after.len() && 0 <= j < after.len() && i != j implies (#[trigger] after[i]).0
            != (#[trigger] after[j]).0 by {
            if i < entries.len() && j < entries.len() {
                assert(entries[i].0 != entries[j].0);
            } else if i < entries.len() {
                assert(entries[i].0 != key);
            } else {
                assert(entries[j].0 != key);
            }
        }
    }
    let lhs = entries_map(after);
    let rhs = entries_map(entries).insert(key, value);
    assert forall|k: BackendKey| lhs.contains_key(k) <==> rhs.contains_key(k) by {
        if has_key(after, k) {
            let i = index_of(after, k);
            if i < entries.len() {
                assert(entries[i].0 == k);
            }
        }
        if has_key(entries, k) {
            let i = index_of(entries, k);
            assert(after[i].0 == k);
        }
        if k == key {
            assert(after[entries.len() as int].0 == k);
        }
    }
    assert forall|k: BackendKey| lhs.contains_key(k) implies lhs[k] == rhs[k] by {
        let i = index_of(after, k);
        lemma_entry_in_map(after, i);
        if i < entries.len() {
            assert(entries[i].0 == k);
            lemma_entry_in_map(entries, i);
        }
    }
    assert(lhs =~= rhs);
}

/// Replacing the value of the entry at `i` replaces it in the map.
proof fn lemma_update_is_insert(entries: Seq<(BackendKey, Backend)>, i: int, value: Backend)
    requires
        keys_distinct(entries),
        0 <= i < entries.len(),
    ensures
        keys_distinct(entries.update(i, (entries[i].0, value))),
        entries_map(entries.update(i, (entries[i].0, value))) == entries_map(entries).insert(
            entries[i].0,
            value,
        ),
{
    let key = entries[i].0;
    let after = entries.update(i, (key, value));
    assert forall|a: int| 0 <= a < after.len() implies (#[trigger] after[a]).0 == entries[a].0 by {}
    assert(keys_distinct(after)) by {
        assert forall|a: int, b: int|
            0 <= a < after.len() && 0 <= b < after.len() && a != b implies (#[trigger] after[a]).0
            != (#[trigger] after[b]).0 by {
            assert(entries[a].0 != entries[b].0);
        }
    }
    let lhs = entries_map(after);
    let rhs = entries_map(entries).insert(key, value);
    assert forall|k: BackendKey| lhs.contains_key(k) <==> rhs.contains_key(k) by {
        if has_key(after, k) {
            let a = index_of(after, k);
            assert(entries[a].0 == k);
        }
        if has_key(entries, k) {
            let a = index_of(entries, k);
            assert(after[a].0 == k);
        }
        if k == key {
            assert(after[i].0 == k);
        }
    }
    assert forall|k: BackendKey| lhs.contains_key(k) implies lhs[k] == rhs[k] by {
        let a = index_of(after, k);
        lemma_entry_in_map(after, a);
        assert(entries[a].0 == k);
        lemma_entry_in_map(entries, a);
    }
    assert(lhs =~= rhs);
}

/// Taking out the entry at `i` removes its key from the map.
proof fn lemma_remove_is_remove(entries: Seq<(BackendKey, Backend)>, i: int)
    requires
        keys_distinct(entries),
        0 <= i < entries.len(),
    ensures
        keys_distinct(entries.remove(i)),
        entries_map(entries.remove(i)) == entries_map(entries).remove(entries[i].0),
{
    let key = entries[i].0;
    let after = entries.remove(i);
    assert forall|a: int| 0 <= a < after.len() implies #[trigger] after[a] == entries[if a < i {
        a
    } else {
        a + 1
    }] by {}
    assert(keys_distinct(after)) by {
        assert forall|a: int, b: int|
            0 <= a < after.len() && 0 <= b < after.len() && a != b implies (#[trigger] after[a]).0
            != (#[trigger] after[b]).0 by {
            let a0 = if a < i { a } else { a + 1 };
            let b0 = if b < i { b } else { b + 1 };
            assert(after[a] == entries[a0]);
            assert(after[b] == entries[b0]);
            assert(entries[a0].0 != entries[b0].0);
        }
    }
    let lhs = entries_map(after);
    let rhs = entries_map(entries).remove(key);
    assert forall|k: BackendKey| lhs.contains_key(k) <==> rhs.contains_key(k) by {
        if has_key(after, k) {
            let a = index_of(after, k);
            let a0 = if a < i { a } else { a + 1 };
            assert(after[a] == entries[a0]);
            assert(entries[a0].0 == k);
            assert(entries[a0].0 != entries[i].0);
        }
        if has_key(entries, k) && k != key {
            let a0 = index_of(entries, k);
            let a = if a0 < i { a0 } else { a0 - 1 };
            assert(after[a] == entries[a0]);
            assert(after[a].0 == k);
        }
    }
    assert forall|k: BackendKey| lhs.contains_key(k) implies lhs[k] == rhs[k] by {
        let a = index_of(after, k);
        let a0 = if a < i { a } else { a + 1 };
        lemma_entry_in_map(after, a);
        assert(after[a] == entries[a0]);
        lemma_entry_in_map(entries, a0);
    }
    assert(lhs =~= rhs);
}

/// A list without repeated keys stands for a map with as many keys as the
/// list has entries.
proof fn lemma_map_size(entries: Seq<(BackendKey, Backend)>)
    requires
        keys_distinct(entries),
    ensures
        entries_map(entries).dom().finite(),
        entries_map(entries).dom().len() == entries.len(),
    decreases entries.len(),
{
    if entries.len() == 0 {
        assert(entries_map(entries).dom() =~= Set::<BackendKey>::empty());
    } else {
        let front = entries.drop_last();
        let last = entries.last();
        assert forall|a: int| 0 <= a < front.len() implies #[trigger] front[a] == entries[a] by {}
        assert(keys_distinct(front)) by {
            assert forall|a: int, b: int|
                0 <= a < front.len() && 0 <= b < front.len() && a != b implies (
            #[trigger] front[a]).0 != (#[trigger] front[b]).0 by {
                assert(entries[a].0 != entries[b].0);
            }
        }
        assert(!has_key(front, last.0)) by {
            if has_key(front, last.0) {
                let a = index_of(front, last.0);
                assert(entries[a].0 == entries[entries.len() - 1].0);
            }
        }
        lemma_map_size(front);
        lemma_push_is_insert(front, last.0, last.1);
        assert(front.push((last.0, last.1)) =~= entries);
        assert(entries_map(entries).dom() =~= entries_map(front).dom().insert(last.0));
    }
}

/// A map from service address to backend that holds at most `capacity`
/// entries, and at most one backend per key.
pub struct BackendTable {
    entries: Vec<(BackendKey, Backend)>,
    capacity: usize,
}

impl View for BackendTable {
    type V = Map<BackendKey, Backend>;

    closed spec fn view(&self) -> Map<BackendKey, Backend> {
        entries_map(self.entries@)
    }
}

impl BackendTable {
    #[verifier::type_invariant]
    spec fn well_formed(self) -> bool {
        &&& keys_distinct(self.entries@)
        &&& self.entries@.len() <= self.capacity
    }

    /// The largest number of entries that the table holds.
    pub closed spec fn spec_capacity(&self) -> nat {
        self.capacity as nat
    }

    /// An empty table of the default capacity.
    pub fn new() -> (table: Self)
        ensures
            table@ == Map::<BackendKey, Backend>::empty(),
            table.spec_capacity() == DEFAULT_MAX_ENTRIES,
    {
        Self::with_max_entries(DEFAULT_MAX_ENTRIES)
    }

    /// An empty table that will hold at most `max_entries` entries.
    pub fn with_max_entries(max_entries: usize) -> (table: Self)
        ensures
            table@ == Map::<BackendKey, Backend>::empty(),
            table.spec_capacity() == max_entries,
    {
        let table = BackendTable { entries: Vec::new(), capacity: max_entries };
        assert(table@ =~= Map::<BackendKey, Backend>::empty());
        table
    }

    /// The largest number of entries that the table holds.
    pub fn capacity(&self) -> (n: usize)
        ensures
            n == self.spec_capacity(),
    {
        self.capacity
    }

    /// The number of entries in the table.
    pub fn len(&self) -> (n: usize)
        ensures
            n == self@.dom().len(),
            n <= self.spec_capacity(),
    {
        proof {
            use_type_invariant(self);
            lemma_map_size(self.entries@);
        }
        self.entries.len()
    }

    /// Where the entry for `key` stands, if there is one.
    fn position(&self, key: BackendKey) -> (r: Option<usize>)
        ensures
            match r {
                Some(i) => i < self.entries@.len() && self.entries@[i as int].0 == key,
                None => !has_key(self.entries@, key),
            },
    {
        let mut i: usize = 0;
        while i < self.entries.len()
            invariant
                i <= self.entries@.len(),
                forall|j: int| 0 <= j < i ==> (#[trigger] self.entries@[j]).0 != key,
            decreases self.entries@.len() - i,
        {
            if self.entries[i].0 == key {
                return Some(i);
            }
            i += 1;
        }
        None
    }

    /// The backend stored under `key`, or `None` where there is none.
    pub fn get(&self, key: BackendKey) -> (r: Option<Backend>)
        ensures
            r == (if self@.contains_key(key) {
                Some(self@[key])
            } else {
                None
            }),
    {
        proof {
            use_type_invariant(self);
        }
        match self.position(key) {
            Some(i) => {
                proof {
                    lemma_entry_in_map(self.entries@, i as int);
                }
                Some(self.entries[i].1)
            },
            None => None,
        }
    }

    /// Stores `value` under `key`, in place of what was there before.
    ///
    /// A key that is already present is always replaced. A new key is
    /// refused, and the table left as it was, when the table is full.
    pub fn upsert(&mut self, key: BackendKey, value: Backend) -> (r: Result<
        (),
        TableCapacityExceeded,
    >)
        ensures
            final(self).spec_capacity() == old(self).spec_capacity(),
            r.is_err() <==> !old(self)@.contains_key(key) && old(self)@.dom().len() >= old(
                self,
            ).spec_capacity(),
            r.is_ok() ==> final(self)@ == old(self)@.insert(key, value),
            r.is_err() ==> final(self)@ == old(self)@,
    {
        proof {
            use_type_invariant(&*self);
            lemma_map_size(self.entries@);
        }
        match self.position(key) {
            Some(i) => {
                proof {
                    lemma_entry_in_map(self.entries@, i as int);
                    lemma_update_is_insert(self.entries@, i as int, value);
                }
                let mut entries: Vec<(BackendKey, Backend)> = Vec::new();
                std::mem::swap(&mut entries, &mut self.entries);
                entries.set(i, (key, value));
                self.entries = entries;
                Ok(())
            },
            None => {
                if self.entries.len() >= self.capacity {
                    Err(TableCapacityExceeded)
                } else {
                    proof {
                        lemma_push_is_insert(self.entries@, key, value);
                    }
                    let mut entries: Vec<(BackendKey, Backend)> = Vec::new();
                    std::mem::swap(&mut entries, &mut self.entries);
                    entries.push((key, value));
                    self.entries = entries;
                    Ok(())
                }
            },
        }
    }

    /// Removes the entry for `key`, if there is one, and says whether there
    /// was.
    pub fn delete(&mut self, key: BackendKey) -> (removed: bool)
        ensures
            final(self).spec_capacity() == old(self).spec_capacity(),
            removed == old(self)@.contains_key(key),
            final(self)@ == old(self)@.remove(key),
    {
        proof {
            use_type_invariant(&*self);
        }
        match self.position(key) {
            Some(i) => {
                proof {
                    lemma_entry_in_map(self.entries@, i as int);
                    lemma_remove_is_remove(self.entries@, i as int);
                }
                let mut entries: Vec<(BackendKey, Backend)> = Vec::new();
                std::mem::swap(&mut entries, &mut self.entries);
                entries.remove(i);
                self.entries = entries;
                true
            },
            None => {
                assert(self@.remove(key) =~= self@);
                false
            },
        }
    }
}

/// Looks `key` up in `table`.
pub fn get_backend(table: &BackendTable, key: BackendKey) -> (r: Option<Backend>)
    ensures
        r == (if table@.contains_key(key) {
            Some(table@[key])
        } else {
            None
        }),
{
    table.get(key)
}

} // verus!
