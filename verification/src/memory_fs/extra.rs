//! Loading a directory tree of any filesystem into memory.

use crate::components::{strip_prefix, strip_prefix_spec};
use crate::error::{outcome, ErrorKind, FsError};
use crate::memory_fs::{model, MemoryFs};
use crate::traits::file_system::UniFs;
use crate::traits::file_system_ext::{walk, walk_post};
use crate::traits::{UniDirEntry, UniFileType};
use std::time::SystemTime;
use vstd::prelude::*;

verus! {

/// What loading one entry of `fs` does to the filesystem in memory. `root`
/// is the canonical path of the directory that is loaded. A file is
/// written, with the bytes that `fs` reads from it, under the path it has
/// below `root`; a directory is made there; anything else that is no link
/// is passed over. The loading fails, and changes nothing, where the type
/// of the entry cannot be had, where its path does not lie below `root`,
/// where the file cannot be read, and where the entry is a link; it fails
/// as writing the file or making the directory fails.
pub open spec fn entry_loaded<F: UniFs>(
    fs: &F,
    root: Seq<char>,
    entry: F::DirEntry,
    pre: &MemoryFs,
    post: &MemoryFs,
    r: Result<(), ErrorKind>,
) -> bool {
    match entry.spec_file_type() {
        Err(k) => post == pre && r == Err::<(), ErrorKind>(k),
        Ok(t) => match strip_prefix_spec(entry.spec_path(), root) {
            None => post == pre && r == Err::<(), ErrorKind>(ErrorKind::Other),
            Some(below) => if t.spec_is_file() {
                match fs.read_spec(entry.spec_path()) {
                    Err(k) => post == pre && r == Err::<(), ErrorKind>(k),
                    Ok(bytes) => pre.write_post(below, bytes, post, r),
                }
            } else if t.spec_is_dir() {
                pre.create_dir_post(below, post, r)
            } else if t.spec_is_symlink() {
                post == pre && r == Err::<(), ErrorKind>(ErrorKind::Other)
            } else {
                post == pre && r == Ok::<(), ErrorKind>(())
            },
        },
    }
}

/// Loading the entries, one after the other, each with success, leads
/// through `states`: from the first of them to the second with the first
/// entry, and so on to the last.
pub open spec fn loaded_through<F: UniFs>(
    fs: &F,
    root: Seq<char>,
    entries: Seq<Result<F::DirEntry, FsError>>,
    states: Seq<MemoryFs>,
) -> bool {
    &&& states.len() == entries.len() + 1
    &&& forall|i: int|
        0 <= i < entries.len() ==> (#[trigger] entries[i]) is Ok && entry_loaded(
            fs,
            root,
            entries[i]->Ok_0,
            &states[i],
            &states[i + 1],
            Ok(()),
        )
}

/// Loading the entries, one after the other, each with success, leads from
/// `pre` to `post`.
pub open spec fn loaded<F: UniFs>(
    fs: &F,
    root: Seq<char>,
    entries: Seq<Result<F::DirEntry, FsError>>,
    pre: MemoryFs,
    post: MemoryFs,
) -> bool {
    exists|states: Seq<MemoryFs>|
        #![trigger loaded_through(fs, root, entries, states)]
        loaded_through(fs, root, entries, states) && states[0] == pre && states.last() == post
}

/// The loading stopped at entry `n` with a failure of kind `k`: the
/// entries before it were loaded, which led to `mid`, and then either the
/// walk had failed there with `k`, or loading that entry failed with `k`
/// and left `after`.
pub open spec fn stopped<F: UniFs>(
    fs: &F,
    root: Seq<char>,
    entries: Seq<Result<F::DirEntry, FsError>>,
    first: MemoryFs,
    n: int,
    mid: MemoryFs,
    after: MemoryFs,
    k: ErrorKind,
) -> bool {
    &&& 0 <= n < entries.len()
    &&& loaded(fs, root, entries.take(n), first, mid)
    &&& match entries[n] {
        Err(e) => e.kind() == k,
        Ok(entry) => entry_loaded(fs, root, entry, &mid, &after, Err(k)),
    }
}

/// What loading the entries that a walk found, into the filesystem
/// `first`, gives: with success the filesystem that loading all of them
/// leads to, else the first failure.
pub open spec fn load_outcome<F: UniFs>(
    fs: &F,
    root: Seq<char>,
    entries: Seq<Result<F::DirEntry, FsError>>,
    first: MemoryFs,
    r: Result<MemoryFs, FsError>,
) -> bool {
    match r {
        Ok(m) => m.wf() && loaded(fs, root, entries, first, m),
        Err(e) => exists|n: int, mid: MemoryFs, after: MemoryFs| #[trigger]
            stopped(fs, root, entries, first, n, mid, after, e.kind()),
    }
}

/// A filesystem in memory that holds the root directory and nothing else.
pub open spec fn fresh_filesystem(fs: MemoryFs) -> bool {
    fs.wf() && exists|now: SystemTime| fs@ == #[trigger] model::initial(now)
}

/// What `load_from_dir` returns. Where the path cannot be canonicalized,
/// that failure. Else what loading the entries of a walk from the path
/// gives, one after the other in the order of the walk, into a filesystem
/// that holds nothing but its root.
pub open spec fn load_post<F: UniFs>(fs: &F, path: Seq<char>, r: Result<MemoryFs, FsError>) -> bool {
    match fs.canonicalize_spec(path) {
        Err(k) => r is Err && r->Err_0.kind() == k,
        Ok(root) => loads(fs, path, root, r),
    }
}

/// `r` is what loading the entries of some walk from `path` gives, into
/// some filesystem that holds nothing but its root.
pub open spec fn loads<F: UniFs>(
    fs: &F,
    path: Seq<char>,
    root: Seq<char>,
    r: Result<MemoryFs, FsError>,
) -> bool {
    exists|entries: Seq<Result<F::DirEntry, FsError>>, first: MemoryFs|
        #![trigger load_outcome(fs, root, entries, first, r)]
        load_outcome(fs, root, entries, first, r) && walk_post(fs, path, entries)
            && fresh_filesystem(first)
}

/// What loading gave is what `load_from_dir` returns.
proof fn lemma_load_post<F: UniFs>(
    fs: &F,
    path: Seq<char>,
    root: Seq<char>,
    entries: Seq<Result<F::DirEntry, FsError>>,
    first: MemoryFs,
    r: Result<MemoryFs, FsError>,
)
    requires
        fs.canonicalize_spec(path) == Ok::<Seq<char>, ErrorKind>(root),
        load_outcome(fs, root, entries, first, r),
        walk_post(fs, path, entries),
        fresh_filesystem(first),
    ensures
        load_post(fs, path, r),
{
    assert(loads(fs, path, root, r));
}

/// Loads one entry of `fs` into `memory`.
fn load_entry<F: UniFs>(fs: &F, root: &str, entry: &F::DirEntry, memory: &mut MemoryFs) -> (r: Result<
    (),
    FsError,
>)
    requires
        fs.inv(),
        old(memory).inv(),
    ensures
        final(memory).inv(),
        entry_loaded(fs, root@, *entry, old(memory), final(memory), outcome(r)),
{
    let file_type = match entry.file_type() {
        Ok(t) => t,
        Err(e) => { return Err(e); },
    };
    let entry_path = entry.path();
    let below = match strip_prefix(entry_path.as_str(), root) {
        Some(p) => p,
        None => {
            return Err(FsError::new(ErrorKind::Other, "Entry does not lie below the path"));
        },
    };
    if file_type.is_file() {
        let bytes = match fs.read(entry_path.as_str()) {
            Ok(b) => b,
            Err(e) => { return Err(e); },
        };
        memory.write(below.as_str(), bytes.as_slice())
    } else if file_type.is_dir() {
        memory.create_dir(below.as_str())
    } else if file_type.is_symlink() {
        Err(FsError::new(ErrorKind::Other, "Links cannot be loaded"))
    } else {
        Ok(())
    }
}

impl MemoryFs {
    /// A new in-memory filesystem that holds what lies below `path` on
    /// `fs`: each directory found there is made, and each file is written
    /// with the bytes it holds, under the path it has below `path`. Fails
    /// with the first failure of `fs` or of the new filesystem, and with
    /// `Other` where `fs` reports an entry that does not lie below `path`
    /// or that is a link.
    pub fn load_from_dir<F: UniFs>(fs: &F, path: &str) -> (r: Result<MemoryFs, FsError>)
        requires
            fs.inv(),
        ensures
            r is Ok ==> r->Ok_0.wf(),
            load_post(fs, path@, r),
    {
        let canonical = match fs.canonicalize(path) {
            Ok(p) => p,
            Err(e) => { return Err(e); },
        };
        let mut memory = MemoryFs::new();
        let ghost first = memory;
        let ghost mut states: Seq<MemoryFs> = seq![memory];
        let entries = walk(fs, path);
        let ghost root = canonical@;
        let mut i: usize = 0;
        while i < entries.len()
            invariant
                fs.inv(),
                memory.inv(),
                i <= entries@.len(),
                root == canonical@,
                fs.canonicalize_spec(path@) == Ok::<Seq<char>, ErrorKind>(root),
                walk_post(fs, path@, entries@),
                fresh_filesystem(first),
                loaded_through(fs, root, entries@.take(i as int), states),
                states[0] == first,
                states.last() == memory,
            decreases entries@.len() - i,
        {
            let ghost mid = memory;
            let entry = match &entries[i] {
                Ok(entry) => entry,
                Err(e) => {
                    let r = Err(FsError::new(e.kind(), e.message()));
                    proof {
                        assert(loaded(fs, root, entries@.take(i as int), first, mid));
                        assert(stopped(fs, root, entries@, first, i as int, mid, mid, e.kind()));
                        assert(load_outcome(fs, root, entries@, first, r));
                        lemma_load_post(fs, path@, root, entries@, first, r);
                    }
                    return r;
                },
            };
            match load_entry(fs, canonical.as_str(), entry, &mut memory) {
                Ok(()) => {},
                Err(e) => {
                    let r = Err(e);
                    proof {
                        assert(loaded(fs, root, entries@.take(i as int), first, mid));
                        assert(stopped(fs, root, entries@, first, i as int, mid, memory, e.kind()));
                        assert(load_outcome(fs, root, entries@, first, r));
                        lemma_load_post(fs, path@, root, entries@, first, r);
                    }
                    return r;
                },
            }
            proof {
                let done = entries@.take(i + 1);
                let before = states;
                states = states.push(memory);
                assert forall|j: int| 0 <= j < done.len() implies (#[trigger] done[j]) is Ok
                    && entry_loaded(fs, root, done[j]->Ok_0, &states[j], &states[j + 1], Ok(())) by {
                    if j < i {
                        assert(done[j] == entries@.take(i as int)[j]);
                        assert(states[j] == before[j]);
                        assert(states[j + 1] == before[j + 1]);
                    } else {
                        assert(done[j] == entries@[i as int]);
                        assert(done[j]->Ok_0 == *entry);
                        assert(states[j] == mid);
                        assert(states[j + 1] == memory);
                    }
                }
            }
            i += 1;
        }
        let r = Ok(memory);
        proof {
            assert(entries@.take(i as int) =~= entries@);
            assert(loaded(fs, root, entries@, first, memory));
            assert(load_outcome(fs, root, entries@, first, r));
            lemma_load_post(fs, path@, root, entries@, first, r);
        }
        r
    }
}

} // verus!
