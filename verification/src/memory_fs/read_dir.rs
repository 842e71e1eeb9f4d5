//! Directory listings of the in-memory filesystem: the children of a
//! directory, in the order of their names.

use crate::error::{ErrorKind, FsError};
use crate::memory_fs::metadata::MemoryMetadata;
use crate::memory_fs::model::{FsState, Key};
use crate::memory_fs::table::MemoryEntryType;
use crate::memory_fs::{canonicalize_inner, file_type_of, model, MemoryFsInner};
use crate::path::{names, render, CanonicalPath};
use crate::traits::{UniDirEntry, UniReadDir};
use crate::FileType;
use std::collections::VecDeque;
use vstd::prelude::*;
use vstd::string::*;

verus! {

/// The order of names: character by character, by code point, a name
/// coming before every longer name that it begins.
pub open spec fn name_before(a: Seq<char>, b: Seq<char>) -> bool
    decreases a.len(),
{
    if b.len() == 0 {
        false
    } else if a.len() == 0 {
        true
    } else if a[0] != b[0] {
        (a[0] as u32) < (b[0] as u32)
    } else {
        name_before(a.skip(1), b.skip(1))
    }
}

/// Each name comes before every later one.
pub open spec fn sorted(v: Seq<Seq<char>>) -> bool {
    forall|i: int, j: int| 0 <= i < j < v.len() ==> name_before(#[trigger] v[i], #[trigger] v[j])
}

/// No name comes before itself.
pub proof fn lemma_name_before_irreflexive(a: Seq<char>)
    ensures
        !name_before(a, a),
    decreases a.len(),
{
    if a.len() > 0 {
        lemma_name_before_irreflexive(a.skip(1));
    }
}

/// The order of names is transitive.
pub proof fn lemma_name_before_transitive(a: Seq<char>, b: Seq<char>, c: Seq<char>)
    requires
        name_before(a, b),
        name_before(b, c),
    ensures
        name_before(a, c),
    decreases a.len(),
{
    if a.len() > 0 && a[0] == b[0] && b[0] == c[0] {
        lemma_name_before_transitive(a.skip(1), b.skip(1), c.skip(1));
    }
}

/// Of two different names one comes before the other.
pub proof fn lemma_name_before_total(a: Seq<char>, b: Seq<char>)
    requires
        a != b,
    ensures
        name_before(a, b) || name_before(b, a),
    decreases a.len(),
{
    if a.len() > 0 && b.len() > 0 && a[0] == b[0] {
        if a.skip(1) == b.skip(1) {
            assert(a =~= seq![a[0]] + a.skip(1));
            assert(b =~= seq![b[0]] + b.skip(1));
        }
        lemma_name_before_total(a.skip(1), b.skip(1));
    } else if a.len() == 0 && b.len() == 0 {
        assert(a =~= b);
    } else if a.len() > 0 && b.len() > 0 {
        assert(a[0] != b[0]);
        assert((a[0] as u32) != (b[0] as u32)) by {
            vstd::utf8::char_u32_cast(a[0], a[0] as u32);
            vstd::utf8::char_u32_cast(b[0], b[0] as u32);
        }
    }
}

/// A sorted list holds no name twice, so two sorted lists that hold the
/// same names are the same list.
pub proof fn lemma_sorted_unique(v: Seq<Seq<char>>, w: Seq<Seq<char>>)
    requires
        sorted(v),
        sorted(w),
        forall|n: Seq<char>| v.contains(n) <==> w.contains(n),
    ensures
        v == w,
    decreases v.len(),
{
    if v.len() == 0 {
        if w.len() > 0 {
            assert(w.contains(w[0]));
        }
        assert(v =~= w);
    } else if w.len() == 0 {
        assert(v.contains(v[0]));
    } else {
        // the two first names are the least of either list
        assert(v.contains(v[0]));
        assert(w.contains(w[0]));
        let i = choose|i: int| 0 <= i < w.len() && w[i] == v[0];
        let j = choose|j: int| 0 <= j < v.len() && v[j] == w[0];
        if v[0] != w[0] {
            assert(name_before(w[0], w[i]));
            assert(name_before(v[0], v[j]));
            lemma_name_before_transitive(v[0], w[0], v[0]);
            lemma_name_before_irreflexive(v[0]);
        }
        let v1 = v.skip(1);
        let w1 = w.skip(1);
        assert(sorted(v1)) by {
            assert forall|a: int, b: int| 0 <= a < b < v1.len() implies name_before(
                #[trigger] v1[a],
                #[trigger] v1[b],
            ) by {
                assert(name_before(v[a + 1], v[b + 1]));
            }
        }
        assert(sorted(w1)) by {
            assert forall|a: int, b: int| 0 <= a < b < w1.len() implies name_before(
                #[trigger] w1[a],
                #[trigger] w1[b],
            ) by {
                assert(name_before(w[a + 1], w[b + 1]));
            }
        }
        assert forall|n: Seq<char>| v1.contains(n) <==> w1.contains(n) by {
            if v1.contains(n) {
                let a = choose|a: int| 0 <= a < v1.len() && v1[a] == n;
                assert(v[a + 1] == n);
                assert(name_before(v[0], v[a + 1]));
                assert(v.contains(n));
                let b = choose|b: int| 0 <= b < w.len() && w[b] == n;
                if b == 0 {
                    lemma_name_before_irreflexive(n);
                }
                assert(w1[b - 1] == n);
            }
            if w1.contains(n) {
                let a = choose|a: int| 0 <= a < w1.len() && w1[a] == n;
                assert(w[a + 1] == n);
                assert(name_before(w[0], w[a + 1]));
                assert(w.contains(n));
                let b = choose|b: int| 0 <= b < v.len() && v[b] == n;
                if b == 0 {
                    lemma_name_before_irreflexive(n);
                }
                assert(v1[b - 1] == n);
            }
        }
        lemma_sorted_unique(v1, w1);
        assert(v =~= seq![v[0]] + v1);
        assert(w =~= seq![w[0]] + w1);
    }
}

/// Whether `a` comes before `b` in the order of names.
pub fn name_less(a: &str, b: &str) -> (r: bool)
    ensures
        r == name_before(a@, b@),
{
    let la = a.unicode_len();
    let lb = b.unicode_len();
    let mut i: usize = 0;
    assert(a@.skip(0) =~= a@);
    assert(b@.skip(0) =~= b@);
    while i < la && i < lb
        invariant
            i <= la,
            i <= lb,
            la == a@.len(),
            lb == b@.len(),
            name_before(a@, b@) == name_before(a@.skip(i as int), b@.skip(i as int)),
        decreases la - i,
    {
        let ca = a.get_char(i);
        let cb = b.get_char(i);
        if ca != cb {
            return (ca as u32) < (cb as u32);
        }
        proof {
            assert(a@.skip(i as int).skip(1) =~= a@.skip(i + 1));
            assert(b@.skip(i as int).skip(1) =~= b@.skip(i + 1));
        }
        i += 1;
    }
    i < lb
}

/// Puts `name` into a sorted list of names at its place.
pub fn insert_sorted(list: &mut Vec<String>, name: String)
    requires
        sorted(names(old(list)@)),
        !names(old(list)@).contains(name@),
    ensures
        sorted(names(final(list)@)),
        forall|n: Seq<char>|
            names(final(list)@).contains(n) <==> names(old(list)@).contains(n) || n == name@,
{
    let ghost before = names(list@);
    let mut p: usize = 0;
    while p < list.len() && name_less(list[p].as_str(), name.as_str())
        invariant
            p <= list.len(),
            names(list@) == before,
            list@.len() == before.len(),
            forall|j: int| 0 <= j < p ==> name_before(#[trigger] before[j], name@),
        decreases list.len() - p,
    {
        p += 1;
    }
    let ghost wanted = name@;
    list.insert(p, name);
    proof {
        let after = names(list@);
        assert(after =~= before.insert(p as int, wanted));
        assert forall|j: int| p <= j < before.len() implies name_before(
            wanted,
            #[trigger] before[j],
        ) by {
            assert(before.contains(before[p as int]));
            lemma_name_before_total(before[p as int], wanted);
            if j > p {
                assert(name_before(before[p as int], before[j]));
                lemma_name_before_transitive(wanted, before[p as int], before[j]);
            }
        }
        assert forall|i: int, j: int| 0 <= i < j < after.len() implies name_before(
            #[trigger] after[i],
            #[trigger] after[j],
        ) by {
            let i0 = if i < p {
                i
            } else {
                i - 1
            };
            let j0 = if j < p {
                j
            } else {
                j - 1
            };
            if i != p && j != p {
                assert(name_before(before[i0], before[j0]));
            }
        }
        assert forall|n: Seq<char>| after.contains(n) <==> before.contains(n) || n == wanted by {
            if after.contains(n) {
                let i = choose|i: int| 0 <= i < after.len() && after[i] == n;
                if i < p {
                    assert(before[i] == n);
                } else if i > p {
                    assert(before[i - 1] == n);
                }
            }
            if before.contains(n) {
                let i = choose|i: int| 0 <= i < before.len() && before[i] == n;
                if i < p {
                    assert(after[i] == n);
                } else {
                    assert(after[i + 1] == n);
                }
            }
            assert(after[p as int] == wanted);
        }
    }
}

/// What a directory entry is, as a specification value.
pub struct DirEntryView {
    pub file_name: Seq<char>,
    pub path: Seq<char>,
    pub metadata: MemoryMetadata,
    pub file_type: FileType,
}

/// The directory entry for the child `name` of `dir`.
pub open spec fn entry_for(s: FsState, dir: Key, name: Seq<char>) -> DirEntryView {
    DirEntryView {
        file_name: name,
        path: render(dir.push(name)),
        metadata: model::metadata_of(s, s.files[dir.push(name)]),
        file_type: model::file_type_of(s.files[dir.push(name)].kind),
    }
}

/// The names of a list of entries.
pub open spec fn entry_names(entries: Seq<DirEntryView>) -> Seq<Seq<char>> {
    Seq::new(entries.len(), |i: int| entries[i].file_name)
}

/// `entries` is the listing of `dir`: one entry for each child, in the
/// order of their names.
pub open spec fn is_listing(s: FsState, dir: Key, entries: Seq<DirEntryView>) -> bool {
    &&& sorted(entry_names(entries))
    &&& forall|n: Seq<char>| entry_names(entries).contains(n) <==> model::children(s, dir).contains(n)
    &&& forall|i: int|
        0 <= i < entries.len() ==> #[trigger] entries[i] == entry_for(s, dir, entries[i].file_name)
}

/// A directory has one listing: two listings of one directory in one state
/// are the same sequence of entries.
pub proof fn lemma_listing_unique(
    s: FsState,
    dir: Key,
    a: Seq<DirEntryView>,
    b: Seq<DirEntryView>,
)
    requires
        is_listing(s, dir, a),
        is_listing(s, dir, b),
    ensures
        a == b,
{
    lemma_sorted_unique(entry_names(a), entry_names(b));
    assert(a.len() == entry_names(a).len());
    assert(b.len() == entry_names(b).len());
    assert forall|i: int| 0 <= i < a.len() implies a[i] == b[i] by {
        assert(a[i].file_name == entry_names(a)[i]);
        assert(b[i].file_name == entry_names(b)[i]);
    }
    assert(a =~= b);
}

/// One entry of a directory listing.
#[derive(Debug)]
pub struct MemoryDirEntry {
    file_name: String,
    path: String,
    metadata: MemoryMetadata,
    file_type: FileType,
}

impl View for MemoryDirEntry {
    type V = DirEntryView;

    closed spec fn view(&self) -> DirEntryView {
        DirEntryView {
            file_name: self.file_name@,
            path: self.path@,
            metadata: self.metadata,
            file_type: self.file_type,
        }
    }
}

impl UniDirEntry for MemoryDirEntry {
    type Metadata = MemoryMetadata;

    type FileType = FileType;

    open spec fn spec_path(&self) -> Seq<char> {
        self@.path
    }

    open spec fn spec_file_name(&self) -> Seq<char> {
        self@.file_name
    }

    open spec fn spec_metadata(&self) -> Result<MemoryMetadata, ErrorKind> {
        Ok(self@.metadata)
    }

    open spec fn spec_file_type(&self) -> Result<FileType, ErrorKind> {
        Ok(self@.file_type)
    }

    /// The canonical path of the entry.
    fn path(&self) -> (p: String) {
        self.path.clone()
    }

    /// The metadata of the entry, as it stood when the directory was read.
    fn metadata(&self) -> (r: Result<MemoryMetadata, FsError>) {
        Ok(self.metadata)
    }

    /// The file type of the entry, as it stood when the directory was read.
    fn file_type(&self) -> (r: Result<FileType, FsError>) {
        Ok(self.file_type)
    }

    /// The name of the entry, without the directory.
    fn file_name(&self) -> (n: String) {
        self.file_name.clone()
    }
}

/// The views of a queue of entries.
pub open spec fn entries_view(v: Seq<MemoryDirEntry>) -> Seq<DirEntryView> {
    Seq::new(v.len(), |i: int| v[i]@)
}

/// A directory listing: the entries not yet handed out, in order.
#[derive(Debug)]
pub struct MemoryReadDir {
    entries: VecDeque<MemoryDirEntry>,
}

impl View for MemoryReadDir {
    type V = Seq<DirEntryView>;

    closed spec fn view(&self) -> Seq<DirEntryView> {
        entries_view(self.entries@)
    }
}

impl UniReadDir for MemoryReadDir {
    type DirEntry = MemoryDirEntry;

    closed spec fn spec_remaining(&self) -> Seq<Result<MemoryDirEntry, ErrorKind>> {
        Seq::new(self.entries@.len(), |i: int| Ok(self.entries@[i]))
    }

    /// Hands out the first entry that is left, or `None` at the end.
    fn next(&mut self) -> (r: Option<Result<MemoryDirEntry, FsError>>)
        ensures
            old(self)@.len() == 0 ==> r is None && final(self)@ == old(self)@,
            old(self)@.len() > 0 ==> r is Some && r->Some_0 is Ok && r->Some_0->Ok_0@ == old(
                self,
            )@[0] && final(self)@ == old(self)@.skip(1),
    {
        match self.entries.pop_front() {
            None => None,
            Some(entry) => {
                assert(self@ =~= old(self)@.skip(1));
                assert(self.spec_remaining() =~= old(self).spec_remaining().skip(1));
                Some(Ok(entry))
            },
        }
    }
}

impl MemoryReadDir {
    /// How many entries are left.
    pub fn len(&self) -> (n: usize)
        ensures
            n == self@.len(),
    {
        self.entries.len()
    }
}

/// The names of the children of `dir`, in order.
fn sorted_children(inner: &MemoryFsInner, dir: &CanonicalPath) -> (list: Vec<String>)
    requires
        inner.wf(),
    ensures
        sorted(names(list@)),
        forall|n: Seq<char>| names(list@).contains(n) <==> model::children(inner@, dir@).contains(n),
{
    let mut list: Vec<String> = Vec::new();
    let mut i: usize = 0;
    let count = inner.files.len();
    while i < count
        invariant
            i <= count,
            count == inner.files.spec_len(),
            inner.wf(),
            sorted(names(list@)),
            forall|n: Seq<char>|
                names(list@).contains(n) <==> exists|j: int|
                    0 <= j < i && #[trigger] inner.files.spec_key(j) == dir@.push(n),
        decreases count - i,
    {
        let key = inner.files.key(i);
        let ghost before = names(list@);
        if key.len() > 0 && key.len() - 1 == dir.len() && key.starts_with(dir) {
            let name = key.file_name();
            proof {
                let k = inner.files.spec_key(i as int);
                assert(dir@.push(name@) =~= k);
                if before.contains(name@) {
                    let j = choose|j: int|
                        0 <= j < i && #[trigger] inner.files.spec_key(j) == dir@.push(name@);
                    inner.files.lemma_positions(i as int, j);
                }
            }
            insert_sorted(&mut list, name.to_owned());
            proof {
                assert forall|n: Seq<char>| names(list@).contains(n) <==> exists|j: int|
                    0 <= j < i + 1 && #[trigger] inner.files.spec_key(j) == dir@.push(n) by {
                    if names(list@).contains(n) {
                        if n == name@ {
                            assert(inner.files.spec_key(i as int) == dir@.push(n));
                        } else {
                            let j = choose|j: int|
                                0 <= j < i && #[trigger] inner.files.spec_key(j) == dir@.push(n);
                            assert(inner.files.spec_key(j) == dir@.push(n));
                        }
                    }
                    if exists|j: int|
                        0 <= j < i + 1 && #[trigger] inner.files.spec_key(j) == dir@.push(n) {
                        let j = choose|j: int|
                            0 <= j < i + 1 && #[trigger] inner.files.spec_key(j) == dir@.push(n);
                        if j == i {
                            assert(dir@.push(n).last() == n);
                            assert(n == name@);
                        } else {
                            assert(0 <= j < i && inner.files.spec_key(j) == dir@.push(n));
                        }
                    }
                }
            }
        } else {
            proof {
                let k = inner.files.spec_key(i as int);
                assert forall|n: Seq<char>| k != dir@.push(n) by {
                    if k == dir@.push(n) {
                        assert(k.take(dir@.len() as int) =~= dir@);
                    }
                }
                assert forall|n: Seq<char>| names(list@).contains(n) <==> exists|j: int|
                    0 <= j < i + 1 && #[trigger] inner.files.spec_key(j) == dir@.push(n) by {
                    if names(list@).contains(n) {
                        let j = choose|j: int|
                            0 <= j < i && #[trigger] inner.files.spec_key(j) == dir@.push(n);
                        assert(inner.files.spec_key(j) == dir@.push(n));
                    }
                    if exists|j: int|
                        0 <= j < i + 1 && #[trigger] inner.files.spec_key(j) == dir@.push(n) {
                        let j = choose|j: int|
                            0 <= j < i + 1 && #[trigger] inner.files.spec_key(j) == dir@.push(n);
                        assert(j != i);
                        assert(0 <= j < i && inner.files.spec_key(j) == dir@.push(n));
                    }
                }
            }
        }
        i += 1;
    }
    proof {
        assert forall|n: Seq<char>| names(list@).contains(n) <==> model::children(
            inner@,
            dir@,
        ).contains(n) by {
            if names(list@).contains(n) {
                let j = choose|j: int|
                    0 <= j < i && #[trigger] inner.files.spec_key(j) == dir@.push(n);
                inner.files.lemma_positions(j, j);
            }
            if model::children(inner@, dir@).contains(n) {
                let j = inner.files.lemma_key_position(dir@.push(n));
                assert(inner.files.spec_key(j) == dir@.push(n));
            }
        }
    }
    list
}

/// The listing of the directory at the path, with links resolved: one entry
/// for each child, in the order of their names, as the directory stood at
/// the call. Fails with `NotFound` where there is no entry and with
/// `InvalidInput` where it is no directory.
pub fn read_dir(inner: &MemoryFsInner, path: &str) -> (r: Result<MemoryReadDir, FsError>)
    requires
        inner.wf(),
    ensures
        r is Ok == model::read_dir_target(inner@, path@) is Ok,
        r is Ok ==> is_listing(inner@, model::read_dir_target(inner@, path@)->Ok_0, r->Ok_0@),
        r is Err ==> r->Err_0.kind() == model::read_dir_target(inner@, path@)->Err_0,
{
    let dir = match canonicalize_inner(inner, path, true) {
        Ok(p) => p,
        Err(e) => { return Err(e); },
    };
    match inner.files.get(&dir) {
        None => { return Err(FsError::new(ErrorKind::NotFound, "Path does not exist")); },
        Some(entry) => match &entry.file_type {
            MemoryEntryType::Directory => {},
            _ => { return Err(FsError::new(ErrorKind::InvalidInput, "Path is not a directory")); },
        },
    }
    let list = sorted_children(inner, &dir);
    let mut entries: VecDeque<MemoryDirEntry> = VecDeque::new();
    let mut i: usize = 0;
    while i < list.len()
        invariant
            i <= list.len(),
            inner.wf(),
            entries@.len() == i,
            forall|n: Seq<char>|
                names(list@).contains(n) <==> model::children(inner@, dir@).contains(n),
            forall|j: int|
                0 <= j < i ==> (#[trigger] entries@[j])@ == entry_for(
                    inner@,
                    dir@,
                    names(list@)[j],
                ),
        decreases list.len() - i,
    {
        let name = list[i].as_str();
        let child = dir.join(name);
        proof {
            assert(names(list@)[i as int] == name@);
            assert(names(list@).contains(name@));
            assert(model::children(inner@, dir@).contains(name@));
        }
        match inner.files.get(&child) {
            None => {},
            Some(entry) => {
                assert(model::node_ok(inner@, inner@.files[child@]));
                let item = MemoryDirEntry {
                    file_name: name.to_owned(),
                    path: child.render(),
                    metadata: inner.entry_metadata(entry),
                    file_type: file_type_of(&entry.file_type),
                };
                entries.push_back(item);
            },
        }
        i += 1;
    }
    let listing = MemoryReadDir { entries };
    proof {
        let views = listing@;
        assert(entry_names(views) =~= names(list@));
    }
    Ok(listing)
}

} // verus!
