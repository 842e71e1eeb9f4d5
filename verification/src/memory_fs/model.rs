//! The mathematical model of the in-memory filesystem: a map from canonical
//! paths to nodes, the byte buffers that file nodes refer to, and the cursors
//! of the open handles. Every operation of the engine is stated here as a
//! function on that model.
//!
//! The table is flat. The set of child names of a directory is not kept
//! beside the table, where it could disagree with it: it is the set of
//! names `n` for which the directory's path with `n` appended is a key
//! (`children`).

use crate::error::ErrorKind;
use crate::memory_fs::metadata::MemoryMetadata;
use crate::path::{is_prefix, normalize, render, valid_path};
pub use crate::traits::open_options::OpenFlags;
use crate::{FileTimes, FileType, Permissions};
use std::time::SystemTime;
use vstd::prelude::*;

verus! {

/// A canonical path: the names from the root down.
pub type Key = Seq<Seq<char>>;

/// What a node is.
pub enum NodeKind {
    /// A regular file; the number names its byte buffer.
    File(nat),
    /// A directory. Its children are the keys one name longer.
    Directory,
    /// An alias for the canonical path it holds.
    HardLink(Key),
}

/// One entry of the table.
pub struct Node {
    pub kind: NodeKind,
    pub created: SystemTime,
    pub modified: Option<SystemTime>,
    pub accessed: Option<SystemTime>,
    pub permissions: Permissions,
}

/// The state shared by every handle cloned from one open: which buffer it
/// reads and writes, where, and the metadata taken when the file was opened.
pub struct Cursor {
    pub buffer: nat,
    pub position: nat,
    pub metadata: MemoryMetadata,
}

/// The whole filesystem.
pub struct FsState {
    pub files: Map<Key, Node>,
    pub buffers: Seq<Seq<u8>>,
    pub cursors: Seq<Cursor>,
}

/// The root path.
pub open spec fn root() -> Key {
    Seq::empty()
}

/// The path has an entry, and it is a directory.
pub open spec fn is_dir_at(s: FsState, k: Key) -> bool {
    s.files.contains_key(k) && s.files[k].kind is Directory
}

/// The path has an entry, and it is a regular file.
pub open spec fn is_file_at(s: FsState, k: Key) -> bool {
    s.files.contains_key(k) && s.files[k].kind is File
}

/// What a node refers to lies inside the state.
pub open spec fn node_ok(s: FsState, n: Node) -> bool {
    match n.kind {
        NodeKind::File(b) => b < s.buffers.len(),
        NodeKind::Directory => true,
        NodeKind::HardLink(t) => valid_path(t),
    }
}

/// The invariant of the filesystem. The root is a directory; every other
/// entry has a directory as its parent, so no file or hard link ever has
/// anything below it; keys and link targets are made of valid names; each
/// file node has a buffer of its own; each cursor has a buffer.
pub open spec fn wf(s: FsState) -> bool {
    &&& is_dir_at(s, root())
    &&& forall|k: Key| #[trigger]
        s.files.contains_key(k) && k.len() > 0 ==> is_dir_at(s, k.drop_last())
    &&& forall|k: Key| #[trigger] s.files.contains_key(k) ==> valid_path(k) && node_ok(s, s.files[k])
    &&& forall|k1: Key, k2: Key|
        #![trigger s.files.contains_key(k1), s.files.contains_key(k2)]
        is_file_at(s, k1) && is_file_at(s, k2) && s.files[k1].kind == s.files[k2].kind ==> k1
            == k2
    &&& forall|i: int| 0 <= i < s.cursors.len() ==> (#[trigger] s.cursors[i]).buffer < s.buffers.len()
}

/// The filesystem that holds the root directory, made at `now`, and nothing
/// else.
pub open spec fn initial(now: SystemTime) -> FsState {
    FsState {
        files: Map::<Key, Node>::empty().insert(
            root(),
            Node {
                kind: NodeKind::Directory,
                created: now,
                modified: None,
                accessed: None,
                permissions: Permissions { readonly: false },
            },
        ),
        buffers: Seq::empty(),
        cursors: Seq::empty(),
    }
}

/// The initial filesystem is well formed.
pub proof fn lemma_initial_wf(now: SystemTime)
    ensures
        wf(initial(now)),
{
    let s = initial(now);
    assert forall|k: Key| #[trigger] s.files.contains_key(k) implies valid_path(k) && node_ok(
        s,
        s.files[k],
    ) by {
        assert(k == root());
    }
}

/// The names of the entries directly below `dir`.
pub open spec fn children(s: FsState, dir: Key) -> Set<Seq<char>> {
    Set::new(|n: Seq<char>| s.files.contains_key(dir.push(n)))
}

/// Whether anything lies directly below `dir`.
pub open spec fn has_children(s: FsState, dir: Key) -> bool {
    exists|n: Seq<char>| s.files.contains_key(dir.push(n))
}

/// One step of link resolution: a hard link stands for its target, anything
/// else for itself.
pub open spec fn follow(s: FsState, k: Key) -> Key {
    if s.files.contains_key(k) {
        match s.files[k].kind {
            NodeKind::HardLink(t) => t,
            _ => k,
        }
    } else {
        k
    }
}

/// Link resolution: walk the names from the root; whenever the path walked so
/// far is a hard link, go on from the link's target instead.
pub open spec fn resolve(s: FsState, c: Key) -> Key
    decreases c.len(),
{
    if c.len() == 0 {
        c
    } else {
        follow(s, resolve(s, c.drop_last()).push(c.last()))
    }
}

/// The key of the entry that a path names: links are resolved in the
/// directory part, and the last name is taken as it stands.
pub open spec fn locate(s: FsState, c: Key) -> Key {
    if c.len() == 0 {
        c
    } else {
        resolve(s, c.drop_last()).push(c.last())
    }
}

/// The key that a path string stands for once links are resolved.
pub open spec fn lookup(s: FsState, path: Seq<char>) -> Option<Key> {
    match normalize(path) {
        Some(c) => Some(resolve(s, c)),
        None => None,
    }
}

/// The file type reported for a node.
pub open spec fn file_type_of(kind: NodeKind) -> FileType {
    match kind {
        NodeKind::File(_) => FileType::File,
        NodeKind::Directory => FileType::Directory,
        NodeKind::HardLink(_) => FileType::Symlink,
    }
}

/// The length reported for a node: that of its buffer for a file, else zero.
pub open spec fn length_of(s: FsState, kind: NodeKind) -> nat {
    match kind {
        NodeKind::File(b) => if b < s.buffers.len() {
            s.buffers[b as int].len()
        } else {
            0
        },
        _ => 0,
    }
}

/// The metadata reported for a node.
pub open spec fn metadata_of(s: FsState, n: Node) -> MemoryMetadata {
    MemoryMetadata {
        file_type: file_type_of(n.kind),
        len: length_of(s, n.kind) as u64,
        permissions: n.permissions,
        file_times: FileTimes { created: n.created, modified: n.modified, accessed: n.accessed },
    }
}

/// A node made at `now`: created and modified then, never accessed, writable.
pub open spec fn fresh(kind: NodeKind, now: SystemTime) -> Node {
    Node {
        kind,
        created: now,
        modified: Some(now),
        accessed: None,
        permissions: Permissions { readonly: false },
    }
}

/// `canonicalize`: the string form of the resolved path.
pub open spec fn canonicalize(s: FsState, path: Seq<char>) -> Result<Seq<char>, ErrorKind> {
    match lookup(s, path) {
        Some(k) => Ok(render(k)),
        None => Err(ErrorKind::NotFound),
    }
}

/// `try_exists`: whether the resolved path has an entry.
pub open spec fn path_exists(s: FsState, path: Seq<char>) -> Result<bool, ErrorKind> {
    match lookup(s, path) {
        Some(k) => Ok(s.files.contains_key(k)),
        None => Err(ErrorKind::NotFound),
    }
}

/// `metadata`: the metadata of the entry at the resolved path.
pub open spec fn metadata(s: FsState, path: Seq<char>) -> Result<MemoryMetadata, ErrorKind> {
    match lookup(s, path) {
        Some(k) => if s.files.contains_key(k) {
            Ok(metadata_of(s, s.files[k]))
        } else {
            Err(ErrorKind::NotFound)
        },
        None => Err(ErrorKind::NotFound),
    }
}

/// `read`: the bytes of the file at the resolved path.
pub open spec fn read(s: FsState, path: Seq<char>) -> Result<Seq<u8>, ErrorKind> {
    match lookup(s, path) {
        Some(k) => if !s.files.contains_key(k) {
            Err(ErrorKind::NotFound)
        } else {
            match s.files[k].kind {
                NodeKind::File(b) => Ok(s.buffers[b as int]),
                _ => Err(ErrorKind::InvalidInput),
            }
        },
        None => Err(ErrorKind::NotFound),
    }
}

/// `read_to_string`: the bytes of the file, decoded as UTF-8.
pub open spec fn read_to_string(s: FsState, path: Seq<char>) -> Result<Seq<char>, ErrorKind> {
    crate::error::decoded(read(s, path))
}

/// `read_dir`: the directory whose children are listed, or why none is.
pub open spec fn read_dir_target(s: FsState, path: Seq<char>) -> Result<Key, ErrorKind> {
    match lookup(s, path) {
        Some(k) => if !s.files.contains_key(k) {
            Err(ErrorKind::NotFound)
        } else if !(s.files[k].kind is Directory) {
            Err(ErrorKind::InvalidInput)
        } else {
            Ok(k)
        },
        None => Err(ErrorKind::NotFound),
    }
}

/// Why an entry cannot be put at `k` for want of a directory above it.
/// `missing` and `not_dir` are the errors for a parent that does not exist
/// and for one that is no directory. The root needs no parent.
pub open spec fn parent_error(s: FsState, k: Key, missing: ErrorKind, not_dir: ErrorKind) -> Option<
    ErrorKind,
> {
    if k.len() == 0 {
        None
    } else if !s.files.contains_key(k.drop_last()) {
        Some(missing)
    } else if !(s.files[k.drop_last()].kind is Directory) {
        Some(not_dir)
    } else {
        None
    }
}

/// `create_dir`: a new, empty directory at the path as written. Links are
/// not resolved: a path that runs through a hard link has no directory as
/// its parent.
pub open spec fn create_dir(s: FsState, path: Seq<char>, now: SystemTime) -> (
    FsState,
    Result<(), ErrorKind>,
) {
    match normalize(path) {
        None => (s, Err(ErrorKind::NotFound)),
        Some(k) => create_dir_at(s, k, now),
    }
}

/// `create_dir` on a canonical path.
pub open spec fn create_dir_at(s: FsState, k: Key, now: SystemTime) -> (
    FsState,
    Result<(), ErrorKind>,
) {
    if s.files.contains_key(k) {
        (s, Err(ErrorKind::AlreadyExists))
    } else {
        match parent_error(s, k, ErrorKind::NotFound, ErrorKind::InvalidInput) {
            Some(e) => (s, Err(e)),
            None => (
                FsState { files: s.files.insert(k, fresh(NodeKind::Directory, now)), ..s },
                Ok(()),
            ),
        }
    }
}

/// The state with directories made at every prefix of `k` longer than
/// `depth` names.
pub open spec fn with_dirs(s: FsState, k: Key, depth: int, now: SystemTime) -> FsState {
    FsState {
        files: Map::new(
            |q: Key| s.files.contains_key(q) || (is_prefix(q, k) && q.len() > depth),
            |q: Key|
                if s.files.contains_key(q) {
                    s.files[q]
                } else {
                    fresh(NodeKind::Directory, now)
                },
        ),
        ..s
    }
}

/// The length of the longest prefix of `k` that has an entry. With the root
/// present there is always one.
pub open spec fn deepest_present(s: FsState, k: Key) -> int
    decreases k.len(),
{
    if k.len() == 0 || s.files.contains_key(k) {
        k.len() as int
    } else {
        deepest_present(s, k.drop_last())
    }
}

/// The directory builder: with `recursive`, make every missing directory on
/// the way to the resolved path, and accept a path that is already there;
/// without it, make the one directory.
pub open spec fn build_dir(s: FsState, recursive: bool, path: Seq<char>, now: SystemTime) -> (
    FsState,
    Result<(), ErrorKind>,
) {
    match lookup(s, path) {
        None => (s, Err(ErrorKind::NotFound)),
        Some(k) => if s.files.contains_key(k) {
            if recursive {
                (s, Ok(()))
            } else {
                (s, Err(ErrorKind::AlreadyExists))
            }
        } else if recursive {
            let depth = deepest_present(s, k);
            if !(s.files.contains_key(k.take(depth)) && s.files[k.take(depth)].kind is Directory) {
                (s, Err(ErrorKind::InvalidInput))
            } else {
                (with_dirs(s, k, depth, now), Ok(()))
            }
        } else {
            create_dir_at(s, k, now)
        },
    }
}

/// `remove_file`: removes the entry that the path names, a file or a hard
/// link. Links are resolved in the directory part only, so removing a link
/// leaves what it points at alone.
pub open spec fn remove_file(s: FsState, path: Seq<char>) -> (FsState, Result<(), ErrorKind>) {
    match normalize(path) {
        None => (s, Err(ErrorKind::NotFound)),
        Some(c) => {
            let k = locate(s, c);
            if !s.files.contains_key(k) {
                (s, Err(ErrorKind::NotFound))
            } else if s.files[k].kind is Directory {
                (s, Err(ErrorKind::InvalidInput))
            } else {
                (FsState { files: s.files.remove(k), ..s }, Ok(()))
            }
        },
    }
}

/// `remove_dir`: removes the directory at the resolved path if nothing lies
/// below it. The root is never removed.
pub open spec fn remove_dir(s: FsState, path: Seq<char>) -> (FsState, Result<(), ErrorKind>) {
    match lookup(s, path) {
        None => (s, Err(ErrorKind::NotFound)),
        Some(k) => if !s.files.contains_key(k) {
            (s, Err(ErrorKind::NotFound))
        } else if !(s.files[k].kind is Directory) {
            (s, Err(ErrorKind::InvalidInput))
        } else if has_children(s, k) {
            (s, Err(ErrorKind::DirectoryNotEmpty))
        } else if k.len() == 0 {
            (s, Err(ErrorKind::InvalidInput))
        } else {
            (FsState { files: s.files.remove(k), ..s }, Ok(()))
        },
    }
}

/// `k` lies below `base`, and is not `base` itself.
pub open spec fn strictly_below(base: Key, k: Key) -> bool {
    is_prefix(base, k) && k != base
}

/// The table without the entries strictly below `base`.
pub open spec fn without_below(m: Map<Key, Node>, base: Key) -> Map<Key, Node> {
    Map::new(|k: Key| m.contains_key(k) && !strictly_below(base, k), |k: Key| m[k])
}

/// Removes the entry at a canonical path together with everything below it.
/// The root is never removed.
pub open spec fn remove_recursive(s: FsState, k: Key) -> (FsState, Result<(), ErrorKind>) {
    if !s.files.contains_key(k) {
        (s, Err(ErrorKind::NotFound))
    } else if k.len() == 0 {
        (s, Err(ErrorKind::InvalidInput))
    } else {
        (FsState { files: without_below(s.files, k).remove(k), ..s }, Ok(()))
    }
}

/// `remove_dir_all`: removes everything below the directory at the resolved
/// path, then the directory itself. The root is emptied and kept, and the
/// call then reports the failure to remove it.
pub open spec fn remove_dir_all(s: FsState, path: Seq<char>) -> (FsState, Result<(), ErrorKind>) {
    match lookup(s, path) {
        None => (s, Err(ErrorKind::NotFound)),
        Some(k) => if !s.files.contains_key(k) {
            (s, Err(ErrorKind::NotFound))
        } else if !(s.files[k].kind is Directory) {
            (s, Err(ErrorKind::InvalidInput))
        } else if k.len() == 0 {
            (FsState { files: without_below(s.files, k), ..s }, Err(ErrorKind::InvalidInput))
        } else {
            (FsState { files: without_below(s.files, k).remove(k), ..s }, Ok(()))
        },
    }
}

/// The table with the subtree at `from` moved to `to`: every key at or below
/// `from` has that prefix replaced by `to`, and whatever stood at or below
/// `to` is gone.
pub open spec fn moved(m: Map<Key, Node>, from: Key, to: Key) -> Map<Key, Node> {
    Map::new(
        |k: Key|
            if is_prefix(to, k) {
                m.contains_key(from + k.skip(to.len() as int))
            } else {
                m.contains_key(k) && !is_prefix(from, k)
            },
        |k: Key|
            if is_prefix(to, k) {
                m[from + k.skip(to.len() as int)]
            } else {
                m[k]
            },
    )
}

/// A node whose access and modification times are set to `now`.
pub open spec fn touched(n: Node, now: SystemTime) -> Node {
    Node { accessed: Some(now), modified: Some(now), ..n }
}

/// Why `rename` refuses, if it does. The source is resolved through links,
/// the destination is taken as written.
pub open spec fn rename_error(s: FsState, from: Key, to: Key) -> Option<ErrorKind> {
    if !s.files.contains_key(from) {
        Some(ErrorKind::NotFound)
    } else if is_dir_at(s, to) {
        Some(ErrorKind::AlreadyExists)
    } else if from.len() == 0 || strictly_below(from, to) {
        Some(ErrorKind::InvalidInput)
    } else {
        parent_error(s, to, ErrorKind::NotFound, ErrorKind::InvalidInput)
    }
}

/// `rename`: moves the entry at `from`, with everything below it, to `to`,
/// replacing a file or hard link that stands there. File nodes keep their
/// buffers and links their targets. Only the moved entry itself is touched.
pub open spec fn rename(s: FsState, from: Seq<char>, to: Seq<char>, now: SystemTime) -> (
    FsState,
    Result<(), ErrorKind>,
) {
    match (lookup(s, from), normalize(to)) {
        (Some(f), Some(t)) => match rename_error(s, f, t) {
            Some(e) => (s, Err(e)),
            None => (
                FsState {
                    files: moved(s.files, f, t).insert(t, touched(s.files[f], now)),
                    ..s
                },
                Ok(()),
            ),
        },
        _ => (s, Err(ErrorKind::NotFound)),
    }
}

/// Why `copy` refuses, if it does. Both paths are resolved through links.
pub open spec fn copy_error(s: FsState, from: Key, to: Key) -> Option<ErrorKind> {
    if !s.files.contains_key(from) {
        Some(ErrorKind::NotFound)
    } else if !(s.files[from].kind is File) || is_dir_at(s, to) {
        Some(ErrorKind::InvalidInput)
    } else {
        parent_error(s, to, ErrorKind::NotFound, ErrorKind::InvalidInput)
    }
}

/// `copy`: a new file at `to` with a buffer of its own that holds the bytes
/// of the file at `from`, and with that file's permissions. Returns the
/// number of bytes.
pub open spec fn copy(s: FsState, from: Seq<char>, to: Seq<char>, now: SystemTime) -> (
    FsState,
    Result<u64, ErrorKind>,
) {
    match (lookup(s, from), lookup(s, to)) {
        (Some(f), Some(t)) => match copy_error(s, f, t) {
            Some(e) => (s, Err(e)),
            None => {
                let bytes = s.buffers[s.files[f].kind->File_0 as int];
                let node = Node {
                    permissions: s.files[f].permissions,
                    ..fresh(NodeKind::File(s.buffers.len()), now)
                };
                (
                    FsState {
                        files: s.files.insert(t, node),
                        buffers: s.buffers.push(bytes),
                        ..s
                    },
                    Ok(bytes.len() as u64),
                )
            },
        },
        _ => (s, Err(ErrorKind::NotFound)),
    }
}

/// `hard_link`: a hard link at `link`, taken as written, to the resolved form
/// of `original`.
pub open spec fn hard_link(s: FsState, original: Seq<char>, link: Seq<char>, now: SystemTime) -> (
    FsState,
    Result<(), ErrorKind>,
) {
    match (lookup(s, original), normalize(link)) {
        (Some(o), Some(l)) => if !s.files.contains_key(o) {
            (s, Err(ErrorKind::NotFound))
        } else if s.files.contains_key(l) {
            (s, Err(ErrorKind::AlreadyExists))
        } else {
            match parent_error(s, l, ErrorKind::NotFound, ErrorKind::NotFound) {
                Some(e) => (s, Err(e)),
                None => (
                    FsState { files: s.files.insert(l, fresh(NodeKind::HardLink(o), now)), ..s },
                    Ok(()),
                ),
            }
        },
        _ => (s, Err(ErrorKind::NotFound)),
    }
}

/// `set_permissions`: replaces the permissions of the entry at the resolved
/// path and records the modification.
pub open spec fn set_permissions(
    s: FsState,
    path: Seq<char>,
    perm: Permissions,
    now: SystemTime,
) -> (FsState, Result<(), ErrorKind>) {
    match lookup(s, path) {
        Some(k) => if s.files.contains_key(k) {
            (
                FsState {
                    files: s.files.insert(
                        k,
                        Node { permissions: perm, modified: Some(now), ..s.files[k] },
                    ),
                    ..s
                },
                Ok(()),
            )
        } else {
            (s, Err(ErrorKind::NotFound))
        },
        None => (s, Err(ErrorKind::NotFound)),
    }
}

/// An open handle: the file's path, the cursor it shares with its clones,
/// and whether it may write and whether it appends.
pub struct Handle {
    pub path: Seq<char>,
    pub cursor: nat,
    pub write: bool,
    pub append: bool,
}

/// What locating or creating the file to open gives: its key, its buffer
/// and its metadata.
pub struct Located {
    pub key: Key,
    pub buffer: nat,
    pub metadata: MemoryMetadata,
}

/// A state with buffer `b` replaced.
pub open spec fn with_buffer(s: FsState, b: nat, bytes: Seq<u8>) -> FsState {
    FsState { buffers: s.buffers.update(b as int, bytes), ..s }
}

/// A state with cursor `c` replaced.
pub open spec fn with_cursor(s: FsState, c: nat, cursor: Cursor) -> FsState {
    FsState { cursors: s.cursors.update(c as int, cursor), ..s }
}

/// The first half of `open`: find the file, truncating it if asked, or
/// create it. `create_new` refuses a path that has an entry; without
/// `create` the entry must be there; a directory or a hard link cannot be
/// opened; a new file needs `create` and `write` and a directory to stand
/// in.
pub open spec fn open_entry(s: FsState, flags: OpenFlags, path: Seq<char>, now: SystemTime) -> (
    FsState,
    Result<Located, ErrorKind>,
) {
    match lookup(s, path) {
        None => (s, Err(ErrorKind::NotFound)),
        Some(k) => if flags.create_new && s.files.contains_key(k) {
            (s, Err(ErrorKind::AlreadyExists))
        } else if !flags.create && !s.files.contains_key(k) {
            (s, Err(ErrorKind::NotFound))
        } else if s.files.contains_key(k) {
            match s.files[k].kind {
                NodeKind::File(b) => {
                    let after = if flags.truncate {
                        with_buffer(s, b, Seq::empty())
                    } else {
                        s
                    };
                    (
                        after,
                        Ok(
                            Located {
                                key: k,
                                buffer: b,
                                metadata: metadata_of(after, s.files[k]),
                            },
                        ),
                    )
                },
                _ => (s, Err(ErrorKind::InvalidInput)),
            }
        } else if !flags.write {
            (s, Err(ErrorKind::NotFound))
        } else if k.len() == 0 {
            (s, Err(ErrorKind::InvalidInput))
        } else {
            match parent_error(s, k, ErrorKind::NotFound, ErrorKind::InvalidInput) {
                Some(e) => (s, Err(e)),
                None => {
                    let node = Node {
                        kind: NodeKind::File(s.buffers.len()),
                        created: now,
                        modified: None,
                        accessed: None,
                        permissions: Permissions { readonly: false },
                    };
                    let after = FsState {
                        files: s.files.insert(k, node),
                        buffers: s.buffers.push(Seq::empty()),
                        ..s
                    };
                    (
                        after,
                        Ok(
                            Located {
                                key: k,
                                buffer: s.buffers.len(),
                                metadata: metadata_of(after, node),
                            },
                        ),
                    )
                },
            }
        },
    }
}

/// `open`: locate or create the file, then give it a new cursor at
/// position zero.
pub open spec fn open(s: FsState, flags: OpenFlags, path: Seq<char>, now: SystemTime) -> (
    FsState,
    Result<Handle, ErrorKind>,
) {
    let (after, located) = open_entry(s, flags, path, now);
    match located {
        Err(e) => (after, Err(e)),
        Ok(l) => (
            FsState {
                cursors: after.cursors.push(
                    Cursor { buffer: l.buffer, position: 0, metadata: l.metadata },
                ),
                ..after
            },
            Ok(
                Handle {
                    path: render(l.key),
                    cursor: after.cursors.len(),
                    write: flags.write,
                    append: flags.append,
                },
            ),
        ),
    }
}

/// The flags with which `write` opens its file.
pub open spec fn write_flags() -> OpenFlags {
    OpenFlags {
        read: false,
        write: true,
        append: false,
        truncate: true,
        create: true,
        create_new: false,
    }
}

/// `write`: make `contents` the whole content of the file at the path,
/// creating the file if need be.
pub open spec fn write(s: FsState, path: Seq<char>, contents: Seq<u8>, now: SystemTime) -> (
    FsState,
    Result<(), ErrorKind>,
) {
    let (after, located) = open_entry(s, write_flags(), path, now);
    match located {
        Err(e) => (after, Err(e)),
        Ok(l) => (with_buffer(after, l.buffer, contents), Ok(())),
    }
}

/// The cursor that a handle names in this state, if the state has a cursor
/// of that number. The number is all that is looked at: a handle opened on
/// another state names whatever cursor has its number here.
pub open spec fn cursor_of(s: FsState, h: Handle) -> Option<Cursor> {
    if h.cursor < s.cursors.len() && s.cursors[h.cursor as int].buffer < s.buffers.len() {
        Some(s.cursors[h.cursor as int])
    } else {
        None
    }
}

/// The bytes that a read of at most `want` bytes at `position` gives.
pub open spec fn read_at(data: Seq<u8>, position: nat, want: nat) -> Seq<u8> {
    if position >= data.len() {
        Seq::empty()
    } else if want <= data.len() - position {
        data.subrange(position as int, (position + want) as int)
    } else {
        data.subrange(position as int, data.len() as int)
    }
}

/// The buffer after `bytes` are written at `position`: extended with zeros
/// as far as the write reaches, then overwritten in place.
pub open spec fn write_at(data: Seq<u8>, position: nat, bytes: Seq<u8>) -> Seq<u8> {
    Seq::new(
        if position + bytes.len() > data.len() {
            position + bytes.len()
        } else {
            data.len()
        },
        |i: int|
            if position <= i < position + bytes.len() {
                bytes[i - position]
            } else if i < data.len() {
                data[i]
            } else {
                0u8
            },
    )
}

/// The buffer cut or extended with zeros to `size` bytes.
pub open spec fn resized(data: Seq<u8>, size: nat) -> Seq<u8> {
    Seq::new(
        size,
        |i: int|
            if i < data.len() {
                data[i]
            } else {
                0u8
            },
    )
}

/// Reading through a handle: up to `want` bytes from the cursor on, and the
/// cursor moves past them. At or past the end nothing is read, which is no
/// error.
pub open spec fn file_read(s: FsState, h: Handle, want: nat) -> (
    FsState,
    Result<Seq<u8>, ErrorKind>,
) {
    match cursor_of(s, h) {
        None => (s, Err(ErrorKind::InvalidInput)),
        Some(c) => {
            let bytes = read_at(s.buffers[c.buffer as int], c.position, want);
            (
                with_cursor(s, h.cursor, Cursor { position: c.position + bytes.len(), ..c }),
                Ok(bytes),
            )
        },
    }
}

/// Writing through a handle: refused with `PermissionDenied` unless the
/// handle may write; an appending handle first moves the cursor to the end;
/// the cursor ends past what was written. `limit` is the largest position a
/// cursor can hold.
pub open spec fn file_write(s: FsState, h: Handle, bytes: Seq<u8>, limit: nat) -> (
    FsState,
    Result<nat, ErrorKind>,
) {
    if !h.write {
        (s, Err(ErrorKind::PermissionDenied))
    } else {
        match cursor_of(s, h) {
            None => (s, Err(ErrorKind::InvalidInput)),
            Some(c) => {
                let data = s.buffers[c.buffer as int];
                let position = if h.append {
                    data.len()
                } else {
                    c.position
                };
                if position + bytes.len() > limit {
                    (s, Err(ErrorKind::InvalidInput))
                } else {
                    (
                        with_cursor(
                            with_buffer(s, c.buffer, write_at(data, position, bytes)),
                            h.cursor,
                            Cursor { position: position + bytes.len(), ..c },
                        ),
                        Ok(bytes.len()),
                    )
                }
            },
        }
    }
}

/// Where to seek to.
pub enum SeekTarget {
    /// So many bytes from the start.
    Start(int),
    /// So many bytes from the end; negative is towards the start.
    End(int),
    /// So many bytes from the cursor; negative is towards the start.
    Current(int),
}

/// The position that a seek asks for; it may be negative or too large.
pub open spec fn seek_position(length: nat, position: nat, target: SeekTarget) -> int {
    match target {
        SeekTarget::Start(o) => o,
        SeekTarget::End(o) => length + o,
        SeekTarget::Current(o) => position + o,
    }
}

/// Seeking through a handle: moves the cursor, and fails with
/// `InvalidInput` where the position asked for is negative or beyond
/// `limit`.
pub open spec fn file_seek(s: FsState, h: Handle, target: SeekTarget, limit: nat) -> (
    FsState,
    Result<nat, ErrorKind>,
) {
    match cursor_of(s, h) {
        None => (s, Err(ErrorKind::InvalidInput)),
        Some(c) => {
            let p = seek_position(s.buffers[c.buffer as int].len(), c.position, target);
            if p < 0 || p > limit {
                (s, Err(ErrorKind::InvalidInput))
            } else {
                (with_cursor(s, h.cursor, Cursor { position: p as nat, ..c }), Ok(p as nat))
            }
        },
    }
}

/// `set_len` through a handle: cuts the buffer or extends it with zeros,
/// and records the modification in the handle's metadata.
pub open spec fn file_set_len(s: FsState, h: Handle, size: nat, limit: nat, now: SystemTime) -> (
    FsState,
    Result<(), ErrorKind>,
) {
    match cursor_of(s, h) {
        None => (s, Err(ErrorKind::InvalidInput)),
        Some(c) => if size > limit {
            (s, Err(ErrorKind::InvalidInput))
        } else {
            (
                with_cursor(
                    with_buffer(s, c.buffer, resized(s.buffers[c.buffer as int], size)),
                    h.cursor,
                    Cursor {
                        metadata: MemoryMetadata {
                            file_times: FileTimes { modified: Some(now), ..c.metadata.file_times },
                            ..c.metadata
                        },
                        ..c
                    },
                ),
                Ok(()),
            )
        },
    }
}

/// The metadata kept with a handle's cursor, replaced.
pub open spec fn file_set_metadata(s: FsState, h: Handle, metadata: MemoryMetadata) -> (
    FsState,
    Result<(), ErrorKind>,
) {
    match cursor_of(s, h) {
        None => (s, Err(ErrorKind::InvalidInput)),
        Some(c) => (with_cursor(s, h.cursor, Cursor { metadata, ..c }), Ok(())),
    }
}

/// The metadata kept with a handle's cursor.
pub open spec fn file_metadata(s: FsState, h: Handle) -> Result<MemoryMetadata, ErrorKind> {
    match cursor_of(s, h) {
        None => Err(ErrorKind::InvalidInput),
        Some(c) => Ok(c.metadata),
    }
}

} // verus!
