//! The table of the in-memory filesystem: a flat map from canonical paths to
//! entries, kept as a list of slots in which no key occurs twice.

use crate::memory_fs::model::{moved, strictly_below, without_below, Key, Node, NodeKind};
use crate::path::{is_prefix, CanonicalPath};
use crate::Permissions;
use std::time::SystemTime;
use vstd::prelude::*;

verus! {

/// What an entry is.
#[derive(Debug)]
pub enum MemoryEntryType {
    /// A regular file; the number names its byte buffer.
    File(usize),
    /// A directory.
    Directory,
    /// An alias for another canonical path.
    HardLink(CanonicalPath),
}

impl View for MemoryEntryType {
    type V = NodeKind;

    open spec fn view(&self) -> NodeKind {
        match self {
            MemoryEntryType::File(b) => NodeKind::File(*b as nat),
            MemoryEntryType::Directory => NodeKind::Directory,
            MemoryEntryType::HardLink(t) => NodeKind::HardLink(t@),
        }
    }
}

impl Clone for MemoryEntryType {
    fn clone(&self) -> (r: Self)
        ensures
            r@ == self@,
    {
        match self {
            MemoryEntryType::File(b) => MemoryEntryType::File(*b),
            MemoryEntryType::Directory => MemoryEntryType::Directory,
            MemoryEntryType::HardLink(t) => MemoryEntryType::HardLink(t.clone()),
        }
    }
}

/// One entry: what it is, its timestamps and its permissions.
#[derive(Debug)]
pub struct MemoryEntry {
    pub file_type: MemoryEntryType,
    pub created: SystemTime,
    pub modified: Option<SystemTime>,
    pub accessed: Option<SystemTime>,
    pub permissions: Permissions,
}

impl View for MemoryEntry {
    type V = Node;

    open spec fn view(&self) -> Node {
        Node {
            kind: self.file_type@,
            created: self.created,
            modified: self.modified,
            accessed: self.accessed,
            permissions: self.permissions,
        }
    }
}

impl Clone for MemoryEntry {
    fn clone(&self) -> (r: Self)
        ensures
            r@ == self@,
    {
        MemoryEntry {
            file_type: self.file_type.clone(),
            created: self.created,
            modified: self.modified,
            accessed: self.accessed,
            permissions: self.permissions,
        }
    }
}

impl MemoryEntry {
    /// An entry made at `now`: created and modified then, never accessed,
    /// writable.
    pub fn fresh(file_type: MemoryEntryType, now: SystemTime) -> (e: MemoryEntry)
        ensures
            e@ == crate::memory_fs::model::fresh(file_type@, now),
    {
        MemoryEntry {
            file_type,
            created: now,
            modified: Some(now),
            accessed: None,
            permissions: Permissions { readonly: false },
        }
    }
}

/// A key with its entry.
#[derive(Debug)]
pub struct Slot {
    key: CanonicalPath,
    entry: MemoryEntry,
}

/// The key of slot `i`.
pub closed spec fn key_at(slots: Seq<Slot>, i: int) -> Key {
    slots[i].key@
}

/// Some slot holds the key.
pub closed spec fn has_key(slots: Seq<Slot>, k: Key) -> bool {
    exists|i: int| 0 <= i < slots.len() && #[trigger] key_at(slots, i) == k
}

/// A slot that holds the key.
pub closed spec fn index_of(slots: Seq<Slot>, k: Key) -> int {
    choose|i: int| 0 <= i < slots.len() && #[trigger] key_at(slots, i) == k
}

/// No key occurs in two slots.
pub closed spec fn distinct(slots: Seq<Slot>) -> bool {
    forall|i: int, j: int|
        0 <= i < slots.len() && 0 <= j < slots.len() && i != j ==> #[trigger] key_at(slots, i)
            != #[trigger] key_at(slots, j)
}

/// The map that a list of slots stands for.
pub closed spec fn map_of(slots: Seq<Slot>) -> Map<Key, Node> {
    Map::new(|k: Key| has_key(slots, k), |k: Key| slots[index_of(slots, k)].entry@)
}

/// Where a key moves to when the subtree at `from` is moved to `to`.
pub open spec fn rekey(k: Key, from: Key, to: Key) -> Key {
    if is_prefix(from, k) {
        to + k.skip(from.len() as int)
    } else {
        k
    }
}

/// Where no key occurs twice, a slot is the one that holds its key, and the
/// map gives its entry for that key.
proof fn lemma_slot(slots: Seq<Slot>, i: int)
    requires
        distinct(slots),
        0 <= i < slots.len(),
    ensures
        has_key(slots, key_at(slots, i)),
        index_of(slots, key_at(slots, i)) == i,
        map_of(slots).contains_key(key_at(slots, i)),
        map_of(slots)[key_at(slots, i)] == slots[i].entry@,
{
    let k = key_at(slots, i);
    assert(has_key(slots, k));
    let j = index_of(slots, k);
    assert(0 <= j < slots.len() && key_at(slots, j) == k);
}

/// A key that no slot holds is no key of the map.
proof fn lemma_absent(slots: Seq<Slot>, k: Key)
    requires
        forall|i: int| 0 <= i < slots.len() ==> key_at(slots, i) != k,
    ensures
        !has_key(slots, k),
        !map_of(slots).contains_key(k),
{
}

/// A key of the map is held by some slot.
proof fn lemma_present(slots: Seq<Slot>, k: Key) -> (i: int)
    requires
        map_of(slots).contains_key(k),
    ensures
        0 <= i < slots.len(),
        key_at(slots, i) == k,
{
    assert(has_key(slots, k));
    index_of(slots, k)
}

/// Adding a slot with a new key inserts its entry into the map.
proof fn lemma_push(slots: Seq<Slot>, slot: Slot)
    requires
        distinct(slots),
        !map_of(slots).contains_key(slot.key@),
    ensures
        distinct(slots.push(slot)),
        map_of(slots.push(slot)) == map_of(slots).insert(slot.key@, slot.entry@),
{
    let after = slots.push(slot);
    assert(!has_key(slots, slot.key@));
    assert forall|i: int, j: int|
        0 <= i < after.len() && 0 <= j < after.len() && i != j implies #[trigger] key_at(after, i)
        != #[trigger] key_at(after, j) by {
        if i < slots.len() {
            assert(key_at(after, i) == key_at(slots, i));
        }
        if j < slots.len() {
            assert(key_at(after, j) == key_at(slots, j));
        }
    }
    assert forall|k: Key| #[trigger]
        map_of(after).contains_key(k) == map_of(slots).insert(
            slot.key@,
            slot.entry@,
        ).contains_key(k) by {
        if has_key(slots, k) {
            let i = index_of(slots, k);
            assert(key_at(after, i) == k);
        }
        if k == slot.key@ {
            assert(key_at(after, slots.len() as int) == k);
        }
        if has_key(after, k) {
            let i = index_of(after, k);
            if i < slots.len() {
                assert(key_at(slots, i) == k);
            }
        }
    }
    assert forall|k: Key| #[trigger] map_of(after).contains_key(k) implies map_of(after)[k]
        == map_of(slots).insert(slot.key@, slot.entry@)[k] by {
        let i = index_of(after, k);
        lemma_slot(after, i);
        if i < slots.len() {
            assert(key_at(slots, i) == k);
            lemma_slot(slots, i);
        }
    }
    assert(map_of(after) =~= map_of(slots).insert(slot.key@, slot.entry@));
}

/// Replacing a slot by one with the same key replaces its entry in the map.
proof fn lemma_replace(slots: Seq<Slot>, i: int, slot: Slot)
    requires
        distinct(slots),
        0 <= i < slots.len(),
        slot.key@ == key_at(slots, i),
    ensures
        distinct(slots.update(i, slot)),
        map_of(slots.update(i, slot)) == map_of(slots).insert(slot.key@, slot.entry@),
{
    let after = slots.update(i, slot);
    assert forall|j: int| 0 <= j < after.len() implies #[trigger] key_at(after, j) == key_at(
        slots,
        j,
    ) by {}
    assert forall|a: int, b: int|
        0 <= a < after.len() && 0 <= b < after.len() && a != b implies #[trigger] key_at(after, a)
        != #[trigger] key_at(after, b) by {
        assert(key_at(slots, a) != key_at(slots, b));
    }
    assert forall|k: Key| #[trigger]
        map_of(after).contains_key(k) == map_of(slots).insert(
            slot.key@,
            slot.entry@,
        ).contains_key(k) by {
        if has_key(slots, k) {
            let j = index_of(slots, k);
            assert(key_at(after, j) == k);
        }
        if k == slot.key@ {
            assert(key_at(after, i) == k);
        }
        if has_key(after, k) {
            let j = index_of(after, k);
            assert(key_at(slots, j) == k);
        }
    }
    assert forall|k: Key| #[trigger] map_of(after).contains_key(k) implies map_of(after)[k]
        == map_of(slots).insert(slot.key@, slot.entry@)[k] by {
        let j = index_of(after, k);
        lemma_slot(after, j);
        assert(key_at(slots, j) == k);
        lemma_slot(slots, j);
    }
    assert(map_of(after) =~= map_of(slots).insert(slot.key@, slot.entry@));
}

/// Taking a slot away removes its key from the map.
proof fn lemma_remove(slots: Seq<Slot>, i: int)
    requires
        distinct(slots),
        0 <= i < slots.len(),
    ensures
        distinct(slots.remove(i)),
        map_of(slots.remove(i)) == map_of(slots).remove(key_at(slots, i)),
{
    let after = slots.remove(i);
    let gone = key_at(slots, i);
    assert forall|j: int| 0 <= j < after.len() implies #[trigger] key_at(after, j) == key_at(
        slots,
        if j < i {
            j
        } else {
            j + 1
        },
    ) by {}
    assert forall|a: int, b: int|
        0 <= a < after.len() && 0 <= b < after.len() && a != b implies #[trigger] key_at(after, a)
        != #[trigger] key_at(after, b) by {
        let a0 = if a < i {
            a
        } else {
            a + 1
        };
        let b0 = if b < i {
            b
        } else {
            b + 1
        };
        assert(key_at(slots, a0) != key_at(slots, b0));
    }
    assert forall|k: Key| #[trigger]
        map_of(after).contains_key(k) == map_of(slots).remove(gone).contains_key(k) by {
        if has_key(slots, k) && k != gone {
            let j = index_of(slots, k);
            let j1 = if j < i {
                j
            } else {
                j - 1
            };
            assert(key_at(after, j1) == k);
        }
        if has_key(after, k) {
            let j = index_of(after, k);
            let j0 = if j < i {
                j
            } else {
                j + 1
            };
            assert(key_at(slots, j0) == k);
            assert(key_at(slots, j0) != key_at(slots, i));
        }
    }
    assert forall|k: Key| #[trigger] map_of(after).contains_key(k) implies map_of(after)[k]
        == map_of(slots).remove(gone)[k] by {
        let j = index_of(after, k);
        lemma_slot(after, j);
        let j0 = if j < i {
            j
        } else {
            j + 1
        };
        assert(key_at(slots, j0) == k);
        lemma_slot(slots, j0);
    }
    assert(map_of(after) =~= map_of(slots).remove(gone));
}

/// What `rekey` does to a key below `from`, and that it leaves no trace of
/// `from`.
pub proof fn lemma_rekey_below(k: Key, from: Key, to: Key)
    requires
        is_prefix(from, k),
    ensures
        is_prefix(to, rekey(k, from, to)),
        rekey(k, from, to).skip(to.len() as int) == k.skip(from.len() as int),
        from + rekey(k, from, to).skip(to.len() as int) == k,
        rekey(k, from, to).len() == to.len() + k.len() - from.len(),
{
    let r = rekey(k, from, to);
    assert(r.take(to.len() as int) =~= to);
    assert(r.skip(to.len() as int) =~= k.skip(from.len() as int));
    assert(from + k.skip(from.len() as int) =~= k);
}

/// A key below `to` is the image of the key that `moved` reads.
pub proof fn lemma_rekey_back(q: Key, from: Key, to: Key)
    requires
        is_prefix(to, q),
    ensures
        is_prefix(from, from + q.skip(to.len() as int)),
        rekey(from + q.skip(to.len() as int), from, to) == q,
{
    let k = from + q.skip(to.len() as int);
    assert(k.take(from.len() as int) =~= from);
    assert(k.skip(from.len() as int) =~= q.skip(to.len() as int));
    assert(to + q.skip(to.len() as int) =~= q);
}

/// Slot `b` is slot `a` after the move: the same entry under the moved key.
closed spec fn slot_rekeyed(a: Slot, b: Slot, from: Key, to: Key) -> bool {
    b.key@ == rekey(a.key@, from, to) && b.entry@ == a.entry@
}

/// Moving the key of every slot moves the subtree in the map.
proof fn lemma_rekeyed(before: Seq<Slot>, after: Seq<Slot>, from: Key, to: Key)
    requires
        distinct(before),
        after.len() == before.len(),
        forall|i: int| 0 <= i < before.len() ==> slot_rekeyed(before[i], #[trigger] after[i], from, to),
        !is_prefix(from, to),
        !is_prefix(to, from),
        forall|k: Key| #[trigger] map_of(before).contains_key(k) ==> !is_prefix(to, k),
    ensures
        distinct(after),
        map_of(after) == moved(map_of(before), from, to),
{
    assert forall|i: int| 0 <= i < before.len() implies #[trigger] key_at(after, i) == rekey(
        key_at(before, i),
        from,
        to,
    ) && after[i].entry@ == before[i].entry@ by {
        assert(slot_rekeyed(before[i], after[i], from, to));
    }
    assert forall|i: int| 0 <= i < before.len() implies is_prefix(to, #[trigger] key_at(after, i))
        == is_prefix(from, key_at(before, i)) by {
        lemma_slot(before, i);
        if is_prefix(from, key_at(before, i)) {
            lemma_rekey_below(key_at(before, i), from, to);
        }
    }
    assert forall|i: int, j: int|
        0 <= i < after.len() && 0 <= j < after.len() && i != j implies #[trigger] key_at(after, i)
        != #[trigger] key_at(after, j) by {
        let ki = key_at(before, i);
        let kj = key_at(before, j);
        assert(ki != kj);
        assert(is_prefix(to, key_at(after, i)) == is_prefix(from, ki));
        assert(is_prefix(to, key_at(after, j)) == is_prefix(from, kj));
        if is_prefix(from, ki) && is_prefix(from, kj) {
            lemma_rekey_below(ki, from, to);
            lemma_rekey_below(kj, from, to);
        }
    }
    let target = moved(map_of(before), from, to);
    assert forall|q: Key| #[trigger] map_of(after).contains_key(q) == target.contains_key(q) by {
        if has_key(after, q) {
            let i = index_of(after, q);
            let k = key_at(before, i);
            lemma_slot(before, i);
            assert(is_prefix(to, key_at(after, i)) == is_prefix(from, k));
            if is_prefix(from, k) {
                lemma_rekey_below(k, from, to);
            }
        }
        if target.contains_key(q) {
            if is_prefix(to, q) {
                let k = from + q.skip(to.len() as int);
                lemma_rekey_back(q, from, to);
                let i = lemma_present(before, k);
                assert(key_at(after, i) == q);
            } else {
                let i = lemma_present(before, q);
                assert(key_at(after, i) == q);
            }
        }
    }
    assert forall|q: Key| #[trigger] map_of(after).contains_key(q) implies map_of(after)[q]
        == target[q] by {
        let i = index_of(after, q);
        lemma_slot(after, i);
        let k = key_at(before, i);
        lemma_slot(before, i);
        assert(is_prefix(to, key_at(after, i)) == is_prefix(from, k));
        if is_prefix(from, k) {
            lemma_rekey_below(k, from, to);
        }
    }
    assert(map_of(after) =~= target);
}

/// The table: a finite map from canonical paths to entries.
#[derive(Debug)]
pub struct Table {
    slots: Vec<Slot>,
}

impl View for Table {
    type V = Map<Key, Node>;

    closed spec fn view(&self) -> Map<Key, Node> {
        map_of(self.slots@)
    }
}

impl Table {
    /// The invariant of the representation: no key occurs twice.
    pub closed spec fn wf(&self) -> bool {
        distinct(self.slots@)
    }

    /// The empty table.
    pub fn new() -> (t: Table)
        ensures
            t.wf(),
            t@ == Map::<Key, Node>::empty(),
    {
        let t = Table { slots: Vec::new() };
        assert(t@ =~= Map::<Key, Node>::empty());
        t
    }

    /// The slot that holds `key`, if any.
    fn find(&self, key: &CanonicalPath) -> (r: Option<usize>)
        requires
            self.wf(),
        ensures
            r is Some == self@.contains_key(key@),
            r is Some ==> r->Some_0 < self.slots.len() && key_at(self.slots@, r->Some_0 as int)
                == key@ && self@[key@] == self.slots[r->Some_0 as int].entry@,
    {
        let mut i: usize = 0;
        while i < self.slots.len()
            invariant
                i <= self.slots.len(),
                self.wf(),
                forall|j: int| 0 <= j < i ==> key_at(self.slots@, j) != key@,
            decreases self.slots.len() - i,
        {
            if self.slots[i].key.same(key) {
                proof {
                    lemma_slot(self.slots@, i as int);
                }
                return Some(i);
            }
            i += 1;
        }
        proof {
            lemma_absent(self.slots@, key@);
        }
        None
    }

    /// Whether the table has an entry for `key`.
    pub fn contains_key(&self, key: &CanonicalPath) -> (b: bool)
        requires
            self.wf(),
        ensures
            b == self@.contains_key(key@),
    {
        self.find(key).is_some()
    }

    /// The entry for `key`, if any.
    pub fn get(&self, key: &CanonicalPath) -> (r: Option<&MemoryEntry>)
        requires
            self.wf(),
        ensures
            r is Some == self@.contains_key(key@),
            r is Some ==> r->Some_0@ == self@[key@],
    {
        match self.find(key) {
            Some(i) => Some(&self.slots[i].entry),
            None => None,
        }
    }

    /// Puts `entry` at `key`, in place of any entry that stood there.
    pub fn insert(&mut self, key: CanonicalPath, entry: MemoryEntry)
        requires
            old(self).wf(),
        ensures
            final(self).wf(),
            final(self)@ == old(self)@.insert(key@, entry@),
    {
        let slot = Slot { key, entry };
        match self.find(&slot.key) {
            Some(i) => {
                proof {
                    lemma_replace(self.slots@, i as int, slot);
                }
                self.slots[i] = slot;
            },
            None => {
                proof {
                    lemma_push(self.slots@, slot);
                }
                self.slots.push(slot);
            },
        }
    }

    /// Removes the entry at `key`, if there is one.
    pub fn remove(&mut self, key: &CanonicalPath)
        requires
            old(self).wf(),
        ensures
            final(self).wf(),
            final(self)@ == old(self)@.remove(key@),
    {
        match self.find(key) {
            Some(i) => {
                proof {
                    lemma_remove(self.slots@, i as int);
                }
                self.slots.remove(i);
            },
            None => {
                assert(self@.remove(key@) =~= self@);
            },
        }
    }

    /// Removes every entry strictly below `base`.
    pub fn remove_below(&mut self, base: &CanonicalPath)
        requires
            old(self).wf(),
        ensures
            final(self).wf(),
            final(self)@ == without_below(old(self)@, base@),
    {
        let mut i: usize = 0;
        while i < self.slots.len()
            invariant
                i <= self.slots.len(),
                self.wf(),
                forall|j: int| 0 <= j < i ==> !strictly_below(base@, #[trigger] key_at(self.slots@, j)),
                forall|k: Key| #[trigger]
                    self@.contains_key(k) ==> old(self)@.contains_key(k) && self@[k] == old(
                        self,
                    )@[k],
                forall|k: Key| #[trigger]
                    old(self)@.contains_key(k) && !strictly_below(base@, k) ==> self@.contains_key(
                        k,
                    ),
            decreases self.slots.len() - i,
        {
            let below = self.slots[i].key.starts_with(base) && self.slots[i].key.len()
                != base.len();
            let ghost before = self.slots@;
            let ghost before_map = self@;
            proof {
                let k = key_at(before, i as int);
                if k.len() == base@.len() && is_prefix(base@, k) {
                    assert(k.take(k.len() as int) =~= k);
                }
                assert(below == strictly_below(base@, k));
                lemma_slot(before, i as int);
            }
            if below {
                proof {
                    lemma_remove(before, i as int);
                }
                self.slots.remove(i);
                proof {
                    assert(self.slots@ == before.remove(i as int));
                    assert(self@ == before_map.remove(key_at(before, i as int)));
                    assert forall|j: int| 0 <= j < i implies !strictly_below(
                        base@,
                        #[trigger] key_at(self.slots@, j),
                    ) by {
                        assert(key_at(self.slots@, j) == key_at(before, j));
                    }
                }
            } else {
                i += 1;
            }
        }
        proof {
            let target = without_below(old(self)@, base@);
            assert forall|k: Key| #[trigger] self@.contains_key(k) == target.contains_key(k) by {
                if self@.contains_key(k) {
                    let j = lemma_present(self.slots@, k);
                    assert(!strictly_below(base@, key_at(self.slots@, j)));
                }
            }
            assert(self@ =~= target);
        }
    }

    /// Moves the subtree at `from` to `to`: each key at or below `from` has
    /// that prefix replaced by `to`. The two paths must not lie one below
    /// the other, and nothing may stand at or below `to`.
    pub fn move_subtree(&mut self, from: &CanonicalPath, to: &CanonicalPath)
        requires
            old(self).wf(),
            !is_prefix(from@, to@),
            !is_prefix(to@, from@),
            forall|k: Key| #[trigger] old(self)@.contains_key(k) ==> !is_prefix(to@, k),
        ensures
            final(self).wf(),
            final(self)@ == moved(old(self)@, from@, to@),
    {
        let mut i: usize = 0;
        while i < self.slots.len()
            invariant
                i <= self.slots.len(),
                self.slots.len() == old(self).slots.len(),
                forall|j: int|
                    0 <= j < i ==> slot_rekeyed(
                        old(self).slots@[j],
                        #[trigger] self.slots@[j],
                        from@,
                        to@,
                    ),
                forall|j: int|
                    i <= j < self.slots.len() ==> #[trigger] self.slots@[j] == old(self).slots@[j],
            decreases self.slots.len() - i,
        {
            let ghost before = self.slots@;
            if self.slots[i].key.starts_with(from) {
                let key = self.slots[i].key.rebased(from.len(), to);
                self.slots[i].key = key;
            }
            proof {
                assert(slot_rekeyed(old(self).slots@[i as int], self.slots@[i as int], from@, to@));
                assert forall|j: int| 0 <= j < i implies slot_rekeyed(
                    old(self).slots@[j],
                    #[trigger] self.slots@[j],
                    from@,
                    to@,
                ) by {
                    assert(self.slots@[j] == before[j]);
                }
                assert forall|j: int| i < j < self.slots.len() implies #[trigger] self.slots@[j]
                    == old(self).slots@[j] by {
                    assert(self.slots@[j] == before[j]);
                }
            }
            i += 1;
        }
        proof {
            assert forall|k: Key| #[trigger] map_of(old(self).slots@).contains_key(k) implies !is_prefix(
                to@,
                k,
            ) by {
                assert(old(self)@.contains_key(k));
            }
            lemma_rekeyed(old(self).slots@, self.slots@, from@, to@);
        }
    }

    /// Whether any entry lies directly below `dir`.
    pub fn has_child(&self, dir: &CanonicalPath) -> (b: bool)
        requires
            self.wf(),
        ensures
            b == exists|n: Seq<char>| self@.contains_key(dir@.push(n)),
    {
        let mut i: usize = 0;
        while i < self.slots.len()
            invariant
                i <= self.slots.len(),
                self.wf(),
                forall|j: int, n: Seq<char>|
                    0 <= j < i ==> #[trigger] key_at(self.slots@, j) != #[trigger] dir@.push(n),
            decreases self.slots.len() - i,
        {
            let key = &self.slots[i].key;
            if key.len() > 0 && key.len() - 1 == dir.len() && key.starts_with(dir) {
                proof {
                    let k = key_at(self.slots@, i as int);
                    lemma_slot(self.slots@, i as int);
                    assert(dir@.push(k.last()) =~= k);
                }
                return true;
            }
            proof {
                let k = key_at(self.slots@, i as int);
                assert forall|n: Seq<char>| k != #[trigger] dir@.push(n) by {
                    if k == dir@.push(n) {
                        assert(k.take(dir@.len() as int) =~= dir@);
                    }
                }
            }
            i += 1;
        }
        proof {
            assert forall|n: Seq<char>| !self@.contains_key(#[trigger] dir@.push(n)) by {
                if self@.contains_key(dir@.push(n)) {
                    let j = lemma_present(self.slots@, dir@.push(n));
                }
            }
        }
        false
    }

    /// The number of entries.
    pub fn len(&self) -> (n: usize)
        ensures
            n == self.spec_len(),
    {
        self.slots.len()
    }

    /// The number of entries, as a specification value.
    pub closed spec fn spec_len(&self) -> nat {
        self.slots@.len()
    }

    /// The key of the `i`-th entry, in an order that the table chooses.
    pub closed spec fn spec_key(&self, i: int) -> Key {
        key_at(self.slots@, i)
    }

    /// The key of the `i`-th entry, in an order that the table chooses.
    /// Every key of the table is the key of exactly one position.
    pub fn key(&self, i: usize) -> (k: &CanonicalPath)
        requires
            self.wf(),
            i < self.spec_len(),
        ensures
            k@ == self.spec_key(i as int),
            self@.contains_key(k@),
    {
        proof {
            lemma_slot(self.slots@, i as int);
        }
        &self.slots[i].key
    }

    /// Every key of the table stands at some position.
    pub proof fn lemma_key_position(&self, k: Key) -> (i: int)
        requires
            self@.contains_key(k),
        ensures
            0 <= i < self.spec_len(),
            self.spec_key(i) == k,
    {
        lemma_present(self.slots@, k)
    }

    /// No key stands at two positions, and each position holds the entry of
    /// its key.
    pub proof fn lemma_positions(&self, i: int, j: int)
        requires
            self.wf(),
            0 <= i < self.spec_len(),
            0 <= j < self.spec_len(),
        ensures
            self@.contains_key(self.spec_key(i)),
            i != j ==> self.spec_key(i) != self.spec_key(j),
    {
        lemma_slot(self.slots@, i);
    }
}

} // verus!
