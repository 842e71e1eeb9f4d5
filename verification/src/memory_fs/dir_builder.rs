//! The directory builder of the in-memory filesystem.

use crate::error::{ErrorKind, FsError};
use crate::memory_fs::model::{deepest_present, with_dirs, FsState, Key};
use crate::memory_fs::table::{MemoryEntry, MemoryEntryType};
use crate::memory_fs::{
    canonicalize_inner, create_dir_at, model, outcome, proofs, MemoryFs, MemoryFsInner,
};
use crate::path::is_prefix;
use crate::traits::dir_builder::UniDirBuilder;

use std::time::SystemTime;
use vstd::prelude::*;

verus! {

/// How to make a directory: alone, or with every directory missing above
/// it.
#[derive(Debug, Clone, Copy)]
pub struct MemoryDirBuilder {
    recursive: bool,
}

/// A prefix that has an entry, above which no prefix has one, is the
/// deepest prefix that has an entry.
proof fn lemma_deepest(s: FsState, k: Key, d: int)
    requires
        0 <= d <= k.len(),
        d == 0 || s.files.contains_key(k.take(d)),
        forall|e: int| d < e <= k.len() ==> !s.files.contains_key(#[trigger] k.take(e)),
    ensures
        deepest_present(s, k) == d,
    decreases k.len() - d,
{
    assert(k.take(k.len() as int) =~= k);
    if d < k.len() {
        let p = k.drop_last();
        assert forall|e: int| d < e <= p.len() implies !s.files.contains_key(
            #[trigger] p.take(e),
        ) by {
            assert(p.take(e) =~= k.take(e));
        }
        assert(p.take(d) =~= k.take(d));
        lemma_deepest(s, p, d);
    }
}

/// Making one more directory on the way down.
proof fn lemma_next_dir(s: FsState, k: Key, depth: int, d: int, now: SystemTime)
    requires
        0 <= depth <= d < k.len(),
        !s.files.contains_key(k.take(d + 1)),
    ensures
        with_dirs(s, k.take(d + 1), depth, now).files == with_dirs(
            s,
            k.take(d),
            depth,
            now,
        ).files.insert(k.take(d + 1), model::fresh(model::NodeKind::Directory, now)),
{
    let a = with_dirs(s, k.take(d + 1), depth, now).files;
    let b = with_dirs(s, k.take(d), depth, now).files.insert(
        k.take(d + 1),
        model::fresh(model::NodeKind::Directory, now),
    );
    assert forall|q: Key| a.contains_key(q) == b.contains_key(q) by {
        if is_prefix(q, k.take(d + 1)) && q != k.take(d + 1) {
            assert(q.len() != d + 1) by {
                if q.len() == d + 1 {
                    assert(k.take(d + 1).take(d + 1) =~= k.take(d + 1));
                }
            }
            assert(k.take(d + 1).take(q.len() as int) =~= k.take(d).take(q.len() as int));
        }
        if is_prefix(q, k.take(d)) {
            assert(k.take(d + 1).take(q.len() as int) =~= k.take(d).take(q.len() as int));
        }
        assert(k.take(d + 1).take(d + 1) =~= k.take(d + 1));
    }
    assert(a =~= b);
}

impl UniDirBuilder for MemoryDirBuilder {
    type Fs = MemoryFs;

    closed spec fn is_recursive(&self) -> bool {
        self.recursive
    }

    fn recursive(&mut self, recursive: bool) -> (r: &mut Self) {
        self.recursive = recursive;
        self
    }

    fn create(&self, fs: &mut MemoryFs, path: &str) -> (r: Result<(), FsError>) {
        let now = crate::time::now();
        let r = self.create_at(&mut fs.inner, path, now);
        proof {
            assert((fs@, outcome(r)) == model::build_dir(
                old(fs)@,
                self.is_recursive(),
                path@,
                now,
            ));
        }
        r
    }
}

impl MemoryDirBuilder {
    /// A builder that makes one directory.
    pub fn new() -> (b: Self)
        ensures
            !b.is_recursive(),
    {
        MemoryDirBuilder { recursive: false }
    }

    /// Makes the directory at `path`, with links resolved, at time `now`.
    /// A builder that is not recursive fails with `AlreadyExists` where the
    /// path has an entry, `NotFound` where the parent has none, and
    /// `InvalidInput` where the parent is no directory. A recursive one
    /// succeeds where the path has an entry, makes every directory missing
    /// on the way otherwise, and fails with `InvalidInput`, making nothing,
    /// where the deepest entry on the way is no directory.
    pub fn create_at(&self, fs: &mut MemoryFsInner, path: &str, now: SystemTime) -> (r: Result<
        (),
        FsError,
    >)
        requires
            old(fs).wf(),
        ensures
            final(fs).wf(),
            (final(fs)@, outcome(r)) == model::build_dir(
                old(fs)@,
                self.is_recursive(),
                path@,
                now,
            ),
    {
        let key = match canonicalize_inner(fs, path, true) {
            Ok(p) => p,
            Err(e) => { return Err(e); },
        };
        if fs.files.contains_key(&key) {
            return if self.recursive {
                Ok(())
            } else {
                Err(FsError::new(ErrorKind::AlreadyExists, "Directory already exists"))
            };
        }
        if !self.recursive {
            return create_dir_at(fs, key, now);
        }
        let ghost s = fs@;
        let ghost k = key@;
        let mut depth: usize = key.len();
        assert(k.take(k.len() as int) =~= k);
        while depth > 0 && !fs.files.contains_key(&key.prefix(depth))
            invariant
                fs.wf(),
                fs@ == s,
                key@ == k,
                depth <= k.len(),
                forall|e: int| depth < e <= k.len() ==> !s.files.contains_key(#[trigger] k.take(e)),
            decreases depth,
        {
            depth -= 1;
        }
        proof {
            lemma_deepest(s, k, depth as int);
        }
        let base = key.prefix(depth);
        match fs.files.get(&base) {
            Some(entry) => match &entry.file_type {
                MemoryEntryType::Directory => {},
                _ => { return Err(FsError::new(ErrorKind::InvalidInput, "Parent is not a directory")); },
            },
            None => { return Err(FsError::new(ErrorKind::InvalidInput, "Parent is not a directory")); },
        }
        let mut d: usize = depth;
        proof {
            assert(with_dirs(s, k.take(d as int), depth as int, now).files =~= s.files);
        }
        while d < key.len()
            invariant
                fs.wf(),
                key@ == k,
                crate::path::valid_path(k),
                depth <= d <= k.len(),
                forall|e: int| depth < e <= k.len() ==> !s.files.contains_key(#[trigger] k.take(e)),
                fs@ == with_dirs(s, k.take(d as int), depth as int, now),
                model::is_dir_at(fs@, k.take(d as int)),
            decreases k.len() - d,
        {
            let next = key.prefix(d + 1);
            let entry = MemoryEntry::fresh(MemoryEntryType::Directory, now);
            proof {
                let cur = fs@;
                assert(next@.drop_last() =~= k.take(d as int));
                proofs::lemma_valid_take(k, d + 1);
                lemma_next_dir(s, k, depth as int, d as int, now);
                proofs::lemma_put_wf(cur, next@, entry@, cur.buffers);
            }
            fs.files.insert(next, entry);
            d += 1;
        }
        Ok(())
    }
}

} // verus!
