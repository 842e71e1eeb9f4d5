//! Opening files of the in-memory filesystem, and the builder of the options
//! to open them with.

use crate::error::{ErrorKind, FsError};
use crate::memory_fs::file::MemoryFile;
use crate::memory_fs::metadata::MemoryMetadata;
use crate::memory_fs::model::{Key, Located};
use crate::memory_fs::table::{MemoryEntry, MemoryEntryType};
use crate::memory_fs::{
    canonicalize_inner, check_parent, model, proofs, MemoryFs, MemoryFsInner,
};
use crate::path::CanonicalPath;
use crate::traits::open_options::{no_flags, OpenFlags, UniOpenOptions};
use crate::Permissions;
use std::time::SystemTime;
use vstd::prelude::*;

verus! {

/// The builder of the options with which a file of the in-memory
/// filesystem is opened. Every flag is unset at first.
#[derive(Debug, Clone, Copy)]
pub struct MemoryOpenOptions {
    flags: OpenFlags,
}

impl MemoryOpenOptions {
    /// Options with every flag unset.
    pub fn new() -> (o: Self)
        ensures
            o.flags() == no_flags(),
    {
        MemoryOpenOptions { flags: OpenFlags::new() }
    }
}

impl UniOpenOptions for MemoryOpenOptions {
    type Fs = MemoryFs;

    closed spec fn flags(&self) -> OpenFlags {
        self.flags
    }

    fn read(&mut self, read: bool) -> (r: &mut Self) {
        self.flags.read = read;
        self
    }

    fn write(&mut self, write: bool) -> (r: &mut Self) {
        self.flags.write = write;
        self
    }

    fn append(&mut self, append: bool) -> (r: &mut Self) {
        self.flags.write = self.flags.write || append;
        self.flags.append = append;
        self
    }

    fn truncate(&mut self, truncate: bool) -> (r: &mut Self) {
        self.flags.truncate = truncate;
        self
    }

    fn create(&mut self, create: bool) -> (r: &mut Self) {
        self.flags.create = create;
        self
    }

    fn create_new(&mut self, create_new: bool) -> (r: &mut Self) {
        self.flags.create = self.flags.create || create_new;
        self.flags.create_new = create_new;
        self
    }

    fn open(&self, fs: &mut MemoryFs, path: &str) -> (r: Result<MemoryFile, FsError>) {
        let now = crate::time::now();
        let r = open_at(&mut fs.inner, self.flags, path, now);
        proof {
            assert((fs@, crate::memory_fs::unifs::handle_outcome(crate::error::outcome(r)))
                == model::open(old(fs)@, self.flags(), path@, now));
        }
        r
    }
}

/// Opens the file at `path`, with links resolved, at time `now`. Fails
/// with `AlreadyExists` where the file must be new and the path has an
/// entry; with `NotFound` where the path has no entry and the file is not
/// to be created, or is to be created without write access, or the parent
/// has no entry; with `InvalidInput` where the entry is a directory or a
/// hard link, or the parent is no directory. An existing file is emptied
/// if `truncate` is set. The handle starts at position zero.
pub fn open_at(fs: &mut MemoryFsInner, flags: OpenFlags, path: &str, now: SystemTime) -> (r: Result<
    MemoryFile,
    FsError,
>)
    requires
        old(fs).wf(),
    ensures
        final(fs).wf(),
        final(fs)@ == model::open(old(fs)@, flags, path@, now).0,
        r is Ok == model::open(old(fs)@, flags, path@, now).1 is Ok,
        r is Ok ==> r->Ok_0@ == model::open(old(fs)@, flags, path@, now).1->Ok_0,
        r is Err ==> r->Err_0.kind() == model::open(old(fs)@, flags, path@, now).1->Err_0,
{
    match open_entry(fs, flags, path, now) {
        Err(e) => Err(e),
        Ok((key, buffer, metadata)) => {
            let id = fs.cursor_open(buffer, metadata);
            Ok(MemoryFile::new(key.render(), id, flags.write, flags.append))
        },
    }
}

/// The first half of opening: finds the file, emptying it if asked, or
/// creates it, and returns its key, its buffer and its metadata.
pub(crate) fn open_entry(fs: &mut MemoryFsInner, flags: OpenFlags, path: &str, now: SystemTime) -> (r:
    Result<(CanonicalPath, usize, MemoryMetadata), FsError>)
    requires
        old(fs).wf(),
    ensures
        final(fs).wf(),
        final(fs)@ == model::open_entry(old(fs)@, flags, path@, now).0,
        r is Ok == model::open_entry(old(fs)@, flags, path@, now).1 is Ok,
        r is Ok ==> (Located { key: r->Ok_0.0@, buffer: r->Ok_0.1 as nat, metadata: r->Ok_0.2 })
            == model::open_entry(old(fs)@, flags, path@, now).1->Ok_0,
        r is Ok ==> r->Ok_0.1 < final(fs)@.buffers.len(),
        r is Err ==> r->Err_0.kind() == model::open_entry(old(fs)@, flags, path@, now).1->Err_0,
{
    let key = match canonicalize_inner(fs, path, true) {
        Ok(p) => p,
        Err(e) => { return Err(e); },
    };
    let ghost s = fs@;
    let found: Option<MemoryEntry> = match fs.files.get(&key) {
        Some(entry) => Some(entry.clone()),
        None => None,
    };
    if flags.create_new && found.is_some() {
        return Err(FsError::new(ErrorKind::AlreadyExists, "File already exists"));
    }
    if !flags.create && found.is_none() {
        return Err(FsError::new(ErrorKind::NotFound, "File not found"));
    }
    match found {
        Some(entry) => match entry.file_type {
            MemoryEntryType::Directory => Err(
                FsError::new(ErrorKind::InvalidInput, "Cannot open a directory as a file"),
            ),
            MemoryEntryType::HardLink(_) => Err(
                FsError::new(ErrorKind::InvalidInput, "Cannot open a hard link as a file"),
            ),
            MemoryEntryType::File(buffer) => {
                assert(model::node_ok(s, s.files[key@]));
                if flags.truncate {
                    fs.buffers[buffer].clear();
                    proof {
                        assert(fs@.buffers =~= s.buffers.update(buffer as int, Seq::empty()));
                        proofs::lemma_contents_wf(
                            s,
                            s.buffers.update(buffer as int, Seq::empty()),
                            s.cursors,
                        );
                    }
                }
                let metadata = fs.entry_metadata(&entry);
                Ok((key, buffer, metadata))
            },
        },
        None => {
            if !flags.write {
                return Err(FsError::new(ErrorKind::NotFound, "File not found"));
            }
            if key.is_root() {
                return Err(FsError::new(ErrorKind::InvalidInput, "No parent path"));
            }
            if let Some(e) = check_parent(fs, &key, ErrorKind::NotFound, ErrorKind::InvalidInput) {
                return Err(e);
            }
            let buffer = fs.buffers.len();
            let entry = MemoryEntry {
                file_type: MemoryEntryType::File(buffer),
                created: now,
                modified: None,
                accessed: None,
                permissions: Permissions { readonly: false },
            };
            proof {
                assert forall|q: Key| #[trigger] s.files.contains_key(q) implies s.files[q].kind
                    != entry@.kind by {
                    assert(model::node_ok(s, s.files[q]));
                }
                proofs::lemma_put_wf(s, key@, entry@, s.buffers.push(Seq::empty()));
            }
            fs.buffers.push(Vec::new());
            proof {
                assert(fs@.buffers =~= s.buffers.push(Seq::empty()));
                assert(fs@.cursors == s.cursors);
            }
            let metadata = fs.entry_metadata(&entry);
            fs.files.insert(key.clone(), entry);
            Ok((key, buffer, metadata))
        },
    }
}

} // verus!
