//! The in-memory filesystem: a table from canonical paths to entries, the
//! byte buffers of its files, and the cursors of its open handles, all owned
//! by one value.

pub use crate::error::outcome;
use crate::error::{ErrorKind, FsError};
use crate::memory_fs::file::MemoryFileInner;
use crate::memory_fs::metadata::MemoryMetadata;
use crate::memory_fs::model::{FsState, Key};
use crate::traits::open_options::OpenFlags;
use crate::memory_fs::table::{MemoryEntry, MemoryEntryType, Table};
use crate::path::{normalize, normalize_path, CanonicalPath};
use crate::{FileTimes, FileType, Permissions};
use std::time::SystemTime;
use vstd::prelude::*;

pub mod dir_builder;
pub mod extra;
pub mod file;
pub mod laws;
pub mod metadata;
pub mod model;
pub mod open_options;
pub mod proofs;
pub mod read_dir;
pub mod table;
pub mod unifs;

verus! {

/// The views of a list of byte buffers.
pub open spec fn buffers_view(v: Seq<Vec<u8>>) -> Seq<Seq<u8>> {
    Seq::new(v.len(), |i: int| v[i]@)
}

/// The views of a list of cursors.
pub open spec fn cursors_view(v: Seq<MemoryFileInner>) -> Seq<model::Cursor> {
    Seq::new(v.len(), |i: int| v[i]@)
}

/// The state of one in-memory filesystem.
///
/// Byte buffers and cursors are numbered in the order in which they are
/// made, and no number is given twice. The buffer of a removed file stays,
/// so that a handle opened before the removal still reads and writes it; the
/// cursor of a handle stays after the handle is dropped. Neither list ever
/// shrinks: the memory held grows with the number of files ever created and
/// of handles ever opened, and is given back only when the filesystem itself
/// is dropped. A filesystem that is to live long while files come and go is
/// best replaced from time to time by a fresh one that holds its tree.
#[derive(Debug)]
pub struct MemoryFsInner {
    files: Table,
    buffers: Vec<Vec<u8>>,
    cursors: Vec<MemoryFileInner>,
}

impl View for MemoryFsInner {
    type V = FsState;

    closed spec fn view(&self) -> FsState {
        FsState {
            files: self.files@,
            buffers: buffers_view(self.buffers@),
            cursors: cursors_view(self.cursors@),
        }
    }
}

impl MemoryFsInner {
    /// The invariant: the table is sound, and the state it stands for is a
    /// well-formed filesystem.
    pub closed spec fn wf(&self) -> bool {
        self.files.wf() && model::wf(self@)
    }

    /// A sound value stands for a well-formed state: what the laws of the
    /// model ask of a state holds of the view of every such value.
    pub proof fn lemma_wf(&self)
        requires
            self.wf(),
        ensures
            model::wf(self@),
    {
    }

    /// A filesystem that holds the root directory, made at `now`, and
    /// nothing else.
    pub fn new_at(now: SystemTime) -> (r: Self)
        ensures
            r.wf(),
            r@ == model::initial(now),
    {
        let mut files = Table::new();
        let root_entry = MemoryEntry {
            file_type: MemoryEntryType::Directory,
            created: now,
            modified: None,
            accessed: None,
            permissions: Permissions { readonly: false },
        };
        files.insert(CanonicalPath::root(), root_entry);
        let r = MemoryFsInner { files, buffers: Vec::new(), cursors: Vec::new() };
        proof {
            assert(r@.buffers =~= Seq::<Seq<u8>>::empty());
            assert(r@.cursors =~= Seq::<model::Cursor>::empty());
            assert(r@.files =~= model::initial(now).files);
            model::lemma_initial_wf(now);
        }
        r
    }

    /// A filesystem that holds the root directory, made now, and nothing
    /// else.
    pub fn new() -> (r: Self)
        ensures
            r.wf(),
            exists|now: SystemTime| r@ == model::initial(now),
    {
        let now = crate::time::now();
        MemoryFsInner::new_at(now)
    }

    /// The metadata of an entry of this filesystem.
    fn entry_metadata(&self, entry: &MemoryEntry) -> (m: MemoryMetadata)
        requires
            model::node_ok(self@, entry@),
        ensures
            m == model::metadata_of(self@, entry@),
    {
        let len: u64 = match &entry.file_type {
            MemoryEntryType::File(b) => self.buffers[*b].len() as u64,
            _ => 0,
        };
        MemoryMetadata {
            file_type: file_type_of(&entry.file_type),
            len,
            permissions: entry.permissions,
            file_times: FileTimes {
                created: entry.created,
                modified: entry.modified,
                accessed: entry.accessed,
            },
        }
    }
}

/// The file type reported for an entry: a hard link is reported as a link.
pub fn file_type_of(entry_type: &MemoryEntryType) -> (t: FileType)
    ensures
        t == model::file_type_of(entry_type@),
{
    match entry_type {
        MemoryEntryType::File(_) => FileType::File,
        MemoryEntryType::Directory => FileType::Directory,
        MemoryEntryType::HardLink(_) => FileType::Symlink,
    }
}

/// Follows hard links along a canonical path: walks the names from the root
/// and, whenever the path walked so far is a hard link, goes on from the
/// link's target.
pub fn resolve_links(inner: &MemoryFsInner, path: &CanonicalPath) -> (r: CanonicalPath)
    requires
        inner.wf(),
    ensures
        r@ == model::resolve(inner@, path@),
        crate::path::valid_path(path@) ==> crate::path::valid_path(r@),
{
    proof {
        if crate::path::valid_path(path@) {
            proofs::lemma_resolve_valid(inner@, path@);
        }
    }
    let mut current = CanonicalPath::root();
    let mut i: usize = 0;
    assert(path@.take(0) =~= Seq::<Seq<char>>::empty());
    while i < path.len()
        invariant
            i <= path@.len(),
            inner.wf(),
            current@ == model::resolve(inner@, path@.take(i as int)),
        decreases path@.len() - i,
    {
        current.push(path.name(i));
        if let Some(entry) = inner.files.get(&current) {
            if let MemoryEntryType::HardLink(target) = &entry.file_type {
                current = target.clone();
            }
        }
        i += 1;
        proof {
            assert(path@.take(i as int).drop_last() =~= path@.take(i - 1));
            assert(path@.take(i as int).last() == path@[i - 1]);
        }
    }
    assert(path@.take(i as int) =~= path@);
    current
}

/// Normalizes a path string and, if asked, resolves hard links along it.
/// Fails with `NotFound` where the path climbs above the root.
pub fn canonicalize_inner(inner: &MemoryFsInner, path: &str, resolve_hardlinks: bool) -> (r: Result<
    CanonicalPath,
    FsError,
>)
    requires
        inner.wf(),
    ensures
        r is Ok == normalize(path@) is Some,
        r is Err ==> r->Err_0.kind() == ErrorKind::NotFound,
        r is Ok ==> r->Ok_0@ == (if resolve_hardlinks {
            model::resolve(inner@, normalize(path@)->Some_0)
        } else {
            normalize(path@)->Some_0
        }),
        r is Ok ==> crate::path::valid_path(r->Ok_0@),
{
    proof {
        crate::path::lemma_normalize_valid(path@);
    }
    match normalize_path(path) {
        None => Err(FsError::new(ErrorKind::NotFound, "No parent directory")),
        Some(c) => if resolve_hardlinks {
            Ok(resolve_links(inner, &c))
        } else {
            Ok(c)
        },
    }
}

/// Whether the entry at a canonical path is a directory; `NotFound` where
/// there is no entry.
pub fn is_dir(inner: &MemoryFsInner, path: &CanonicalPath) -> (r: Result<bool, FsError>)
    requires
        inner.wf(),
    ensures
        outcome(r) == (if inner@.files.contains_key(path@) {
            Ok(inner@.files[path@].kind is Directory)
        } else {
            Err(ErrorKind::NotFound)
        }),
{
    match inner.files.get(path) {
        Some(entry) => match &entry.file_type {
            MemoryEntryType::Directory => Ok(true),
            _ => Ok(false),
        },
        None => Err(FsError::new(ErrorKind::NotFound, "Path does not exist")),
    }
}

/// The canonical, link-free form of a path, as a string.
pub fn canonicalize(inner: &MemoryFsInner, path: &str) -> (r: Result<String, FsError>)
    requires
        inner.wf(),
    ensures
        r is Ok == model::canonicalize(inner@, path@) is Ok,
        r is Ok ==> r->Ok_0@ == model::canonicalize(inner@, path@)->Ok_0,
        r is Err ==> r->Err_0.kind() == ErrorKind::NotFound,
{
    match canonicalize_inner(inner, path, true) {
        Ok(p) => Ok(p.render()),
        Err(e) => Err(e),
    }
}

/// Whether the path, with links resolved, has an entry.
pub fn try_exists(inner: &MemoryFsInner, path: &str) -> (r: Result<bool, FsError>)
    requires
        inner.wf(),
    ensures
        outcome(r) == model::path_exists(inner@, path@),
{
    match canonicalize_inner(inner, path, true) {
        Ok(p) => Ok(inner.files.contains_key(&p)),
        Err(e) => Err(e),
    }
}

/// The metadata of the entry at the path, with links resolved.
pub fn metadata(inner: &MemoryFsInner, path: &str) -> (r: Result<MemoryMetadata, FsError>)
    requires
        inner.wf(),
    ensures
        outcome(r) == model::metadata(inner@, path@),
{
    let path = match canonicalize_inner(inner, path, true) {
        Ok(p) => p,
        Err(e) => { return Err(e); },
    };
    match inner.files.get(&path) {
        Some(entry) => Ok(inner.entry_metadata(entry)),
        None => Err(FsError::new(ErrorKind::NotFound, "Path does not exist")),
    }
}

/// The bytes of the file at the path, with links resolved.
pub fn read(inner: &MemoryFsInner, path: &str) -> (r: Result<Vec<u8>, FsError>)
    requires
        inner.wf(),
    ensures
        r is Ok == model::read(inner@, path@) is Ok,
        r is Ok ==> r->Ok_0@ == model::read(inner@, path@)->Ok_0,
        r is Err ==> r->Err_0.kind() == model::read(inner@, path@)->Err_0,
{
    let path = match canonicalize_inner(inner, path, true) {
        Ok(p) => p,
        Err(e) => { return Err(e); },
    };
    match inner.files.get(&path) {
        Some(entry) => match &entry.file_type {
            MemoryEntryType::File(b) => Ok(inner.buffers[*b].clone()),
            _ => Err(FsError::new(ErrorKind::InvalidInput, "Path is not a file")),
        },
        None => Err(FsError::new(ErrorKind::NotFound, "Path does not exist")),
    }
}

/// The key of the entry that a canonical path names: links are resolved in
/// the directory part, and the last name is taken as it stands.
fn locate_entry(inner: &MemoryFsInner, path: &CanonicalPath) -> (r: CanonicalPath)
    requires
        inner.wf(),
    ensures
        r@ == model::locate(inner@, path@),
        crate::path::valid_path(path@) ==> crate::path::valid_path(r@),
{
    proof {
        if crate::path::valid_path(path@) {
            proofs::lemma_resolve_valid(inner@, path@);
        }
    }
    match path.parent() {
        None => CanonicalPath::root(),
        Some(parent) => {
            let mut key = resolve_links(inner, &parent);
            key.push(path.file_name());
            key
        },
    }
}

/// Why nothing can be put at `path` for want of a directory above it, if
/// that is so.
fn check_parent(inner: &MemoryFsInner, path: &CanonicalPath, missing: ErrorKind, not_dir: ErrorKind) -> (r:
    Option<FsError>)
    requires
        inner.wf(),
    ensures
        r is Some == model::parent_error(inner@, path@, missing, not_dir) is Some,
        r is Some ==> Some(r->Some_0.kind()) == model::parent_error(
            inner@,
            path@,
            missing,
            not_dir,
        ),
{
    match path.parent() {
        None => None,
        Some(parent) => match inner.files.get(&parent) {
            None => Some(FsError::new(missing, "Parent directory does not exist")),
            Some(entry) => match &entry.file_type {
                MemoryEntryType::Directory => None,
                _ => Some(FsError::new(not_dir, "Parent is not a directory")),
            },
        },
    }
}

/// Makes a directory at a canonical path.
fn create_dir_at(inner: &mut MemoryFsInner, path: CanonicalPath, now: SystemTime) -> (r: Result<
    (),
    FsError,
>)
    requires
        old(inner).wf(),
        crate::path::valid_path(path@),
    ensures
        final(inner).wf(),
        (final(inner)@, outcome(r)) == model::create_dir_at(old(inner)@, path@, now),
{
    if inner.files.contains_key(&path) {
        return Err(FsError::new(ErrorKind::AlreadyExists, "Directory already exists"));
    }
    if let Some(e) = check_parent(inner, &path, ErrorKind::NotFound, ErrorKind::InvalidInput) {
        return Err(e);
    }
    let entry = MemoryEntry::fresh(MemoryEntryType::Directory, now);
    proof {
        proofs::lemma_put_wf(inner@, path@, entry@, inner@.buffers);
    }
    inner.files.insert(path, entry);
    Ok(())
}

/// Makes a new, empty directory at the path as written. Fails with
/// `AlreadyExists` where the path has an entry, `NotFound` where its parent
/// has none, and `InvalidInput` where the parent is no directory.
pub fn create_dir(inner: &mut MemoryFsInner, path: &str, now: SystemTime) -> (r: Result<(), FsError>)
    requires
        old(inner).wf(),
    ensures
        final(inner).wf(),
        (final(inner)@, outcome(r)) == model::create_dir(old(inner)@, path@, now),
{
    let path = match canonicalize_inner(inner, path, false) {
        Ok(p) => p,
        Err(e) => { return Err(e); },
    };
    create_dir_at(inner, path, now)
}

/// Makes a hard link at `link`, taken as written, to the resolved form of
/// `original`. Fails with `NotFound` where `original` has no entry or the
/// link's parent is not an existing directory, and with `AlreadyExists`
/// where `link` has an entry.
pub fn hard_link(inner: &mut MemoryFsInner, original: &str, link: &str, now: SystemTime) -> (r: Result<
    (),
    FsError,
>)
    requires
        old(inner).wf(),
    ensures
        final(inner).wf(),
        (final(inner)@, outcome(r)) == model::hard_link(old(inner)@, original@, link@, now),
{
    let original = match canonicalize_inner(inner, original, true) {
        Ok(p) => p,
        Err(e) => { return Err(e); },
    };
    let link = match canonicalize_inner(inner, link, false) {
        Ok(p) => p,
        Err(e) => { return Err(e); },
    };
    if !inner.files.contains_key(&original) {
        return Err(FsError::new(ErrorKind::NotFound, "Original path does not exist"));
    }
    if inner.files.contains_key(&link) {
        return Err(FsError::new(ErrorKind::AlreadyExists, "Link path already exists"));
    }
    if let Some(e) = check_parent(inner, &link, ErrorKind::NotFound, ErrorKind::NotFound) {
        return Err(e);
    }
    let entry = MemoryEntry::fresh(MemoryEntryType::HardLink(original), now);
    proof {
        if link@.len() == 0 {
            proofs::lemma_root(inner@, link@);
        }
        proofs::lemma_put_wf(inner@, link@, entry@, inner@.buffers);
    }
    inner.files.insert(link, entry);
    Ok(())
}

/// Replaces the permissions of the entry at the path, with links resolved,
/// and records the modification. Fails with `NotFound` where there is no
/// entry.
pub fn set_permissions(inner: &mut MemoryFsInner, path: &str, perm: Permissions, now: SystemTime) -> (r:
    Result<(), FsError>)
    requires
        old(inner).wf(),
    ensures
        final(inner).wf(),
        (final(inner)@, outcome(r)) == model::set_permissions(old(inner)@, path@, perm, now),
{
    let path = match canonicalize_inner(inner, path, true) {
        Ok(p) => p,
        Err(e) => { return Err(e); },
    };
    let mut entry = match inner.files.get(&path) {
        Some(entry) => entry.clone(),
        None => { return Err(FsError::new(ErrorKind::NotFound, "Path does not exist")); },
    };
    entry.permissions = perm;
    entry.modified = Some(now);
    proof {
        let s = inner@;
        assert(model::node_ok(s, s.files[path@]));
        if path@.len() > 0 {
            assert(model::is_dir_at(s, path@.drop_last()));
        } else {
            proofs::lemma_root(s, path@);
        }
        proofs::lemma_put_wf(s, path@, entry@, s.buffers);
    }
    inner.files.insert(path, entry);
    Ok(())
}

/// Removes the entry that the path names, a file or a hard link. Links are
/// resolved in the directory part only. Fails with `NotFound` where there
/// is no entry and with `InvalidInput` where it is a directory.
pub fn remove_file(inner: &mut MemoryFsInner, path: &str) -> (r: Result<(), FsError>)
    requires
        old(inner).wf(),
    ensures
        final(inner).wf(),
        (final(inner)@, outcome(r)) == model::remove_file(old(inner)@, path@),
{
    let path = match canonicalize_inner(inner, path, false) {
        Ok(p) => p,
        Err(e) => { return Err(e); },
    };
    let key = locate_entry(inner, &path);
    match inner.files.get(&key) {
        None => { return Err(FsError::new(ErrorKind::NotFound, "Path does not exist")); },
        Some(entry) => {
            if let MemoryEntryType::Directory = &entry.file_type {
                return Err(FsError::new(ErrorKind::InvalidInput, "Path is not a file"));
            }
        },
    }
    proof {
        if key@.len() == 0 {
            proofs::lemma_root(inner@, key@);
        }
        proofs::lemma_leaf(inner@, key@);
        proofs::lemma_remove_leaf_wf(inner@, key@);
    }
    inner.files.remove(&key);
    Ok(())
}

/// Removes the directory at the path, with links resolved, if nothing lies
/// below it. Fails with `NotFound` where there is no entry, `InvalidInput`
/// where it is no directory or is the root, and `DirectoryNotEmpty` where
/// it has a child.
pub fn remove_dir(inner: &mut MemoryFsInner, path: &str) -> (r: Result<(), FsError>)
    requires
        old(inner).wf(),
    ensures
        final(inner).wf(),
        (final(inner)@, outcome(r)) == model::remove_dir(old(inner)@, path@),
        outcome(r) == Err::<(), ErrorKind>(ErrorKind::DirectoryNotEmpty) <==> model::lookup(
            old(inner)@,
            path@,
        ) is Some && model::is_dir_at(old(inner)@, model::lookup(old(inner)@, path@)->Some_0)
            && model::has_children(old(inner)@, model::lookup(old(inner)@, path@)->Some_0),
{
    let path = match canonicalize_inner(inner, path, true) {
        Ok(p) => p,
        Err(e) => { return Err(e); },
    };
    match inner.files.get(&path) {
        None => { return Err(FsError::new(ErrorKind::NotFound, "Path does not exist")); },
        Some(entry) => match &entry.file_type {
            MemoryEntryType::Directory => {},
            _ => { return Err(FsError::new(ErrorKind::InvalidInput, "Path is not a directory")); },
        },
    }
    if inner.files.has_child(&path) {
        return Err(FsError::new(ErrorKind::DirectoryNotEmpty, "Directory is not empty"));
    }
    if path.is_root() {
        return Err(FsError::new(ErrorKind::InvalidInput, "Cannot remove root directory"));
    }
    proof {
        proofs::lemma_remove_leaf_wf(inner@, path@);
    }
    inner.files.remove(&path);
    Ok(())
}

/// Removes the entry at a canonical path together with everything below
/// it. Fails with `NotFound` where there is no entry and with
/// `InvalidInput` at the root.
pub fn remove_recursive(path: &CanonicalPath, inner: &mut MemoryFsInner) -> (r: Result<(), FsError>)
    requires
        old(inner).wf(),
    ensures
        final(inner).wf(),
        (final(inner)@, outcome(r)) == model::remove_recursive(old(inner)@, path@),
{
    if !inner.files.contains_key(path) {
        return Err(FsError::new(ErrorKind::NotFound, "Path does not exist"));
    }
    if path.is_root() {
        return Err(FsError::new(ErrorKind::InvalidInput, "Cannot remove root directory"));
    }
    proof {
        proofs::lemma_remove_tree_wf(inner@, path@);
    }
    inner.files.remove_below(path);
    inner.files.remove(path);
    Ok(())
}

/// Removes everything below the directory at the path, with links
/// resolved, and then the directory. Fails with `NotFound` where there is
/// no entry and with `InvalidInput` where it is no directory. At the root,
/// everything below is removed and the call still fails with `InvalidInput`.
pub fn remove_dir_all(inner: &mut MemoryFsInner, path: &str) -> (r: Result<(), FsError>)
    requires
        old(inner).wf(),
    ensures
        final(inner).wf(),
        (final(inner)@, outcome(r)) == model::remove_dir_all(old(inner)@, path@),
{
    let path = match canonicalize_inner(inner, path, true) {
        Ok(p) => p,
        Err(e) => { return Err(e); },
    };
    match inner.files.get(&path) {
        None => { return Err(FsError::new(ErrorKind::NotFound, "Path does not exist")); },
        Some(entry) => match &entry.file_type {
            MemoryEntryType::Directory => {},
            _ => { return Err(FsError::new(ErrorKind::InvalidInput, "Path is not a directory")); },
        },
    }
    if path.is_root() {
        proof {
            proofs::lemma_remove_tree_wf(inner@, path@);
        }
        inner.files.remove_below(&path);
        return Err(FsError::new(ErrorKind::InvalidInput, "Cannot remove root directory"));
    }
    remove_recursive(&path, inner)
}

/// Moves every entry at or below `from` to the same place below `to`. The
/// two paths must not lie one below the other, and nothing may stand at or
/// below `to`.
fn change_path_recursive(inner: &mut MemoryFsInner, from: &CanonicalPath, to: &CanonicalPath)
    requires
        old(inner).files.wf(),
        !crate::path::is_prefix(from@, to@),
        !crate::path::is_prefix(to@, from@),
        forall|k: Key| #[trigger]
            old(inner)@.files.contains_key(k) ==> !crate::path::is_prefix(to@, k),
    ensures
        final(inner).files.wf(),
        final(inner)@ == (FsState {
            files: model::moved(old(inner)@.files, from@, to@),
            ..old(inner)@
        }),
{
    proof {
        assert forall|k: Key| #[trigger] inner.files@.contains_key(k) implies !crate::path::is_prefix(
            to@,
            k,
        ) by {
            assert(inner@.files.contains_key(k));
        }
    }
    inner.files.move_subtree(from, to);
}

/// Moves the entry at `from`, with everything below it, to `to`, replacing
/// a file or hard link that stands there. `from` is resolved through links,
/// `to` is taken as written. Fails with `NotFound` where `from` has no entry
/// or the parent of `to` has none, `AlreadyExists` where `to` is a
/// directory, and `InvalidInput` where `from` is the root, `to` lies below
/// `from`, or the parent of `to` is no directory.
pub fn rename(inner: &mut MemoryFsInner, from: &str, to: &str, now: SystemTime) -> (r: Result<
    (),
    FsError,
>)
    requires
        old(inner).wf(),
    ensures
        final(inner).wf(),
        (final(inner)@, outcome(r)) == model::rename(old(inner)@, from@, to@, now),
{
    let source = match canonicalize_inner(inner, from, true) {
        Ok(p) => p,
        Err(e) => { return Err(e); },
    };
    let target = match canonicalize_inner(inner, to, false) {
        Ok(p) => p,
        Err(e) => { return Err(e); },
    };
    let mut entry = match inner.files.get(&source) {
        Some(entry) => entry.clone(),
        None => { return Err(FsError::new(ErrorKind::NotFound, "Source path does not exist")); },
    };
    if let Some(existing) = inner.files.get(&target) {
        if let MemoryEntryType::Directory = &existing.file_type {
            return Err(FsError::new(ErrorKind::AlreadyExists, "Destination path is a directory"));
        }
    }
    let below = target.starts_with(&source) && target.len() != source.len();
    proof {
        if target@.len() == source@.len() && crate::path::is_prefix(source@, target@) {
            assert(target@.take(target@.len() as int) =~= target@);
        }
    }
    if source.is_root() || below {
        return Err(FsError::new(ErrorKind::InvalidInput, "Cannot move a directory into itself"));
    }
    if let Some(e) = check_parent(inner, &target, ErrorKind::NotFound, ErrorKind::InvalidInput) {
        return Err(e);
    }
    entry.accessed = Some(now);
    entry.modified = Some(now);
    let ghost s = inner@;
    proof {
        proofs::lemma_rename_wf(s, source@, target@, now);
    }
    if source.same(&target) {
        proof {
            proofs::lemma_moved_same(s.files, source@);
        }
    } else {
        proof {
            assert(!crate::path::is_prefix(source@, target@));
            if crate::path::is_prefix(target@, source@) {
                proofs::lemma_below_means_dir(s, target@, source@);
            }
            assert forall|k: Key| #[trigger]
                s.files.remove(target@).contains_key(k) implies !crate::path::is_prefix(
                target@,
                k,
            ) by {
                if crate::path::is_prefix(target@, k) {
                    proofs::lemma_below_means_dir(s, target@, k);
                }
            }
            proofs::lemma_moved_without_target(s.files, source@, target@);
        }
        inner.files.remove(&target);
        change_path_recursive(inner, &source, &target);
    }
    inner.files.insert(target, entry);
    Ok(())
}

/// Makes a new file at `to` that holds a copy of the bytes of the file at
/// `from`, with that file's permissions, and returns the number of bytes.
/// Both paths are resolved through links. Fails with `NotFound` where `from`
/// has no entry or the parent of `to` has none, and with `InvalidInput`
/// where `from` is no regular file, `to` is a directory, or the parent of
/// `to` is no directory.
pub fn copy(inner: &mut MemoryFsInner, from: &str, to: &str, now: SystemTime) -> (r: Result<
    u64,
    FsError,
>)
    requires
        old(inner).wf(),
    ensures
        final(inner).wf(),
        (final(inner)@, outcome(r)) == model::copy(old(inner)@, from@, to@, now),
{
    let source = match canonicalize_inner(inner, from, true) {
        Ok(p) => p,
        Err(e) => { return Err(e); },
    };
    let target = match canonicalize_inner(inner, to, true) {
        Ok(p) => p,
        Err(e) => { return Err(e); },
    };
    let (buffer, permissions) = match inner.files.get(&source) {
        None => { return Err(FsError::new(ErrorKind::NotFound, "Source path does not exist")); },
        Some(entry) => match &entry.file_type {
            MemoryEntryType::File(b) => (*b, entry.permissions),
            _ => { return Err(FsError::new(ErrorKind::InvalidInput, "Source path is not a file")); },
        },
    };
    if let Some(existing) = inner.files.get(&target) {
        if let MemoryEntryType::Directory = &existing.file_type {
            return Err(FsError::new(ErrorKind::InvalidInput, "Destination path is a directory"));
        }
    }
    if let Some(e) = check_parent(inner, &target, ErrorKind::NotFound, ErrorKind::InvalidInput) {
        return Err(e);
    }
    let ghost s = inner@;
    assert(model::node_ok(s, s.files[source@]));
    let data = inner.buffers[buffer].clone();
    let len = data.len() as u64;
    let id = inner.buffers.len();
    let entry = MemoryEntry {
        file_type: MemoryEntryType::File(id),
        created: now,
        modified: Some(now),
        accessed: None,
        permissions,
    };
    proof {
        if target@.len() == 0 {
            proofs::lemma_root(s, target@);
        }
        assert forall|q: Key| #[trigger] s.files.contains_key(q) implies s.files[q].kind
            != entry@.kind by {
            assert(model::node_ok(s, s.files[q]));
        }
        proofs::lemma_put_wf(s, target@, entry@, s.buffers.push(data@));
    }
    inner.buffers.push(data);
    inner.files.insert(target, entry);
    proof {
        assert(inner@.buffers =~= s.buffers.push(data@));
    }
    Ok(len)
}

/// Makes `contents` the whole content of the file at the path, with links
/// resolved, creating the file if need be. Fails as opening the file for
/// writing, creating and truncating does.
pub fn write(inner: &mut MemoryFsInner, path: &str, contents: &[u8], now: SystemTime) -> (r: Result<
    (),
    FsError,
>)
    requires
        old(inner).wf(),
    ensures
        final(inner).wf(),
        (final(inner)@, outcome(r)) == model::write(old(inner)@, path@, contents@, now),
{
    let flags = OpenFlags {
        read: false,
        write: true,
        append: false,
        truncate: true,
        create: true,
        create_new: false,
    };
    let buffer = match open_options::open_entry(inner, flags, path, now) {
        Ok((_, buffer, _)) => buffer,
        Err(e) => { return Err(e); },
    };
    let ghost s = inner@;
    let mut data: Vec<u8> = Vec::new();
    let mut i: usize = 0;
    while i < contents.len()
        invariant
            i <= contents@.len(),
            data@ == contents@.take(i as int),
        decreases contents@.len() - i,
    {
        data.push(contents[i]);
        i += 1;
        assert(data@ =~= contents@.take(i as int));
    }
    assert(contents@.take(i as int) =~= contents@);
    inner.buffers[buffer] = data;
    proof {
        assert(inner@.buffers =~= s.buffers.update(buffer as int, contents@));
        proofs::lemma_contents_wf(s, s.buffers.update(buffer as int, contents@), s.cursors);
    }
    Ok(())
}

/// `String::from_utf8`: the text that the bytes encode, where they are
/// valid UTF-8, and nothing where they are not.
#[verifier::external_body]
fn decode_text(bytes: Vec<u8>) -> (r: Option<String>)
    ensures
        r is Some == vstd::utf8::valid_utf8(bytes@),
        r is Some ==> r->Some_0@ == vstd::utf8::decode_utf8(bytes@),
{
    String::from_utf8(bytes).ok()
}

/// The content of the file at the path, with links resolved, as text.
/// Fails as `read` does, and with `Other` where the bytes are not valid
/// UTF-8.
pub fn read_to_string(inner: &MemoryFsInner, path: &str) -> (r: Result<String, FsError>)
    requires
        inner.wf(),
    ensures
        r is Ok == model::read_to_string(inner@, path@) is Ok,
        r is Ok ==> r->Ok_0@ == model::read_to_string(inner@, path@)->Ok_0,
        r is Err ==> r->Err_0.kind() == model::read_to_string(inner@, path@)->Err_0,
{
    let bytes = match read(inner, path) {
        Ok(bytes) => bytes,
        Err(e) => { return Err(e); },
    };
    match decode_text(bytes) {
        Some(text) => Ok(text),
        None => Err(FsError::new(ErrorKind::Other, "File is not valid UTF-8")),
    }
}

/// Symbolic links are not supported: always fails with `Unsupported`.
pub fn read_link(path: &str) -> (r: Result<String, FsError>)
    ensures
        r is Err,
        r->Err_0.kind() == ErrorKind::Unsupported,
{
    Err(FsError::new(ErrorKind::Unsupported, "MemoryFs does not support symbolic links"))
}

/// Symbolic links are not supported: always fails with `Unsupported`.
pub fn symlink_metadata(path: &str) -> (r: Result<MemoryMetadata, FsError>)
    ensures
        r is Err,
        r->Err_0.kind() == ErrorKind::Unsupported,
{
    Err(FsError::new(ErrorKind::Unsupported, "MemoryFs does not support symbolic links"))
}

/// An in-memory filesystem behind the common contract. The operations of
/// the contract read the clock where they record a time. The buffers of
/// removed files and the cursors of dropped handles are kept until the
/// filesystem is dropped, as said of `MemoryFsInner`.
#[derive(Debug)]
pub struct MemoryFs {
    inner: MemoryFsInner,
}

impl View for MemoryFs {
    type V = FsState;

    closed spec fn view(&self) -> FsState {
        self.inner@
    }
}

impl MemoryFs {
    /// The invariant of the state.
    pub closed spec fn wf(&self) -> bool {
        self.inner.wf()
    }

    /// A sound value stands for a well-formed state: what the laws of the
    /// model ask of a state holds of the view of every such value.
    pub proof fn lemma_wf(&self)
        requires
            self.wf(),
        ensures
            model::wf(self@),
    {
    }

    /// A filesystem that holds the root directory and nothing else.
    pub fn new() -> (r: Self)
        ensures
            r.wf(),
            exists|now: SystemTime| r@ == model::initial(now),
    {
        MemoryFs { inner: MemoryFsInner::new() }
    }

    /// A filesystem that holds the root directory, made at `now`, and
    /// nothing else.
    pub fn new_at(now: SystemTime) -> (r: Self)
        ensures
            r.wf(),
            r@ == model::initial(now),
    {
        MemoryFs { inner: MemoryFsInner::new_at(now) }
    }

    /// The state behind the contract.
    pub fn inner(&self) -> (r: &MemoryFsInner)
        ensures
            r@ == self@,
            r.wf() == self.wf(),
    {
        &self.inner
    }

    /// The state behind the contract, to be changed in place.
    pub fn inner_mut(&mut self) -> (r: &mut MemoryFsInner)
        ensures
            r@ == old(self)@,
            r.wf() == old(self).wf(),
            final(self)@ == final(r)@,
            final(self).wf() == final(r).wf(),
    {
        &mut self.inner
    }
}

impl Default for MemoryFs {
    /// A filesystem that holds the root directory and nothing else.
    fn default() -> (r: Self)
        ensures
            r.wf(),
            exists|now: SystemTime| r@ == model::initial(now),
    {
        MemoryFs::new()
    }
}

} // verus!
