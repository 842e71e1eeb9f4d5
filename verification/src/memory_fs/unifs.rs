//! The in-memory filesystem behind the common contract. Each operation
//! reads the clock where it records a time and hands on to the engine, so
//! what it may do is what the engine does at some time.

use crate::error::{outcome, ErrorKind, FsError};
use crate::memory_fs::dir_builder::MemoryDirBuilder;
use crate::memory_fs::file::MemoryFile;
use crate::memory_fs::laws;
use crate::memory_fs::metadata::MemoryMetadata;
use crate::memory_fs::open_options::{open_at, MemoryOpenOptions};
use crate::memory_fs::read_dir::{is_listing, MemoryDirEntry, MemoryReadDir};
use crate::memory_fs::{model, proofs, MemoryFs};
use crate::traits::dir_builder::UniDirBuilder;
use crate::traits::file_system::UniFs;
use crate::traits::open_options::{OpenFlags, UniOpenOptions};
use crate::traits::UniMetadata;
use crate::Permissions;
use std::time::SystemTime;
use vstd::prelude::*;

verus! {

/// What opening returned, with the handle reduced to its view.
pub open spec fn handle_outcome(r: Result<MemoryFile, ErrorKind>) -> Result<
    model::Handle,
    ErrorKind,
> {
    match r {
        Ok(f) => Ok(f@),
        Err(e) => Err(e),
    }
}

impl UniFs for MemoryFs {
    type Metadata = MemoryMetadata;

    type ReadDir = MemoryReadDir;

    type DirEntry = MemoryDirEntry;

    type Permissions = Permissions;

    type File = MemoryFile;

    type OpenOptions = MemoryOpenOptions;

    type DirBuilder = MemoryDirBuilder;

    open spec fn inv(&self) -> bool {
        self.wf()
    }

    open spec fn canonicalize_spec(&self, path: Seq<char>) -> Result<Seq<char>, ErrorKind> {
        model::canonicalize(self@, path)
    }

    open spec fn exists_spec(&self, path: Seq<char>) -> Result<bool, ErrorKind> {
        model::path_exists(self@, path)
    }

    open spec fn metadata_spec(&self, path: Seq<char>) -> Result<MemoryMetadata, ErrorKind> {
        model::metadata(self@, path)
    }

    open spec fn read_spec(&self, path: Seq<char>) -> Result<Seq<u8>, ErrorKind> {
        model::read(self@, path)
    }

    open spec fn read_dir_post(&self, path: Seq<char>, r: Result<MemoryReadDir, ErrorKind>) -> bool {
        match model::read_dir_target(self@, path) {
            Ok(dir) => r is Ok && is_listing(self@, dir, r->Ok_0@),
            Err(e) => r is Err && r->Err_0 == e,
        }
    }

    open spec fn read_link_spec(&self, path: Seq<char>) -> Result<Seq<char>, ErrorKind> {
        Err(ErrorKind::Unsupported)
    }

    open spec fn symlink_metadata_spec(&self, path: Seq<char>) -> Result<
        MemoryMetadata,
        ErrorKind,
    > {
        Err(ErrorKind::Unsupported)
    }

    open spec fn copy_post(
        &self,
        from: Seq<char>,
        to: Seq<char>,
        post: &Self,
        r: Result<u64, ErrorKind>,
    ) -> bool {
        exists|now: SystemTime| (post@, r) == #[trigger] model::copy(self@, from, to, now)
    }

    open spec fn create_dir_post(&self, path: Seq<char>, post: &Self, r: Result<(), ErrorKind>) -> bool {
        exists|now: SystemTime| (post@, r) == #[trigger] model::create_dir(self@, path, now)
    }

    open spec fn build_dir_post(
        &self,
        recursive: bool,
        path: Seq<char>,
        post: &Self,
        r: Result<(), ErrorKind>,
    ) -> bool {
        exists|now: SystemTime|
            (post@, r) == #[trigger] model::build_dir(self@, recursive, path, now)
    }

    open spec fn hard_link_post(
        &self,
        original: Seq<char>,
        link: Seq<char>,
        post: &Self,
        r: Result<(), ErrorKind>,
    ) -> bool {
        exists|now: SystemTime|
            (post@, r) == #[trigger] model::hard_link(self@, original, link, now)
    }

    open spec fn remove_dir_post(&self, path: Seq<char>, post: &Self, r: Result<(), ErrorKind>) -> bool {
        (post@, r) == model::remove_dir(self@, path)
    }

    open spec fn remove_dir_all_post(
        &self,
        path: Seq<char>,
        post: &Self,
        r: Result<(), ErrorKind>,
    ) -> bool {
        (post@, r) == model::remove_dir_all(self@, path)
    }

    open spec fn remove_file_post(&self, path: Seq<char>, post: &Self, r: Result<(), ErrorKind>) -> bool {
        (post@, r) == model::remove_file(self@, path)
    }

    open spec fn rename_post(
        &self,
        from: Seq<char>,
        to: Seq<char>,
        post: &Self,
        r: Result<(), ErrorKind>,
    ) -> bool {
        exists|now: SystemTime| (post@, r) == #[trigger] model::rename(self@, from, to, now)
    }

    open spec fn set_permissions_post(
        &self,
        path: Seq<char>,
        perm: Permissions,
        post: &Self,
        r: Result<(), ErrorKind>,
    ) -> bool {
        exists|now: SystemTime|
            (post@, r) == #[trigger] model::set_permissions(self@, path, perm, now)
    }

    open spec fn write_post(
        &self,
        path: Seq<char>,
        contents: Seq<u8>,
        post: &Self,
        r: Result<(), ErrorKind>,
    ) -> bool {
        exists|now: SystemTime|
            (post@, r) == #[trigger] crate::memory_fs::model::write(self@, path, contents, now)
    }

    open spec fn open_post(
        &self,
        flags: OpenFlags,
        path: Seq<char>,
        post: &Self,
        r: Result<MemoryFile, ErrorKind>,
    ) -> bool {
        exists|now: SystemTime|
            (post@, handle_outcome(r)) == #[trigger] model::open(self@, flags, path, now)
    }

    proof fn lemma_created_exists(
        &self,
        path: Seq<char>,
        post: &Self,
        r: Result<(), ErrorKind>,
    ) {
        if r is Ok {
            let now = choose|now: SystemTime|
                (post@, r) == #[trigger] model::create_dir(self@, path, now);
            let k = crate::path::normalize(path)->Some_0;
            proofs::lemma_resolve_present(post@, k);
        }
    }

    proof fn lemma_written_reads(
        &self,
        path: Seq<char>,
        contents: Seq<u8>,
        post: &Self,
        r: Result<(), ErrorKind>,
    ) {
        if r is Ok {
            let now = choose|now: SystemTime|
                (post@, r) == #[trigger] crate::memory_fs::model::write(
                    self@,
                    path,
                    contents,
                    now,
                );
            laws::lemma_write_then_read(self@, path, contents, now);
            let m = model::metadata(post@, path)->Ok_0;
            assert(post.metadata_spec(path) == Ok::<MemoryMetadata, ErrorKind>(m));
            assert(m.spec_file_type() == m.file_type);
            assert(m.spec_len() == m.len);
        }
    }

    proof fn lemma_readable_exists(&self, path: Seq<char>) {
    }

    proof fn lemma_built_exists(&self, path: Seq<char>, post: &Self, r: Result<(), ErrorKind>) {
        if r is Ok {
            let now = choose|now: SystemTime|
                (post@, r) == #[trigger] model::build_dir(self@, true, path, now);
            laws::lemma_create_dir_all(self@, path, now);
        }
    }

    proof fn lemma_renamed_reads(
        &self,
        from: Seq<char>,
        to: Seq<char>,
        post: &Self,
        r: Result<(), ErrorKind>,
    ) {
        if r is Ok {
            let now = choose|now: SystemTime|
                (post@, r) == #[trigger] model::rename(self@, from, to, now);
            laws::lemma_rename_moves(self@, from, to, now);
        }
    }

    proof fn lemma_linked_alias(
        &self,
        original: Seq<char>,
        link: Seq<char>,
        post: &Self,
        r: Result<(), ErrorKind>,
    ) {
        if r is Ok {
            let now = choose|now: SystemTime|
                (post@, r) == #[trigger] model::hard_link(self@, original, link, now);
            laws::lemma_hard_link_alias(self@, original, link, now);
        }
    }

    fn canonicalize(&self, path: &str) -> (r: Result<String, FsError>) {
        crate::memory_fs::canonicalize(&self.inner, path)
    }

    fn copy(&mut self, from: &str, to: &str) -> (r: Result<u64, FsError>) {
        let now = crate::time::now();
        let r = crate::memory_fs::copy(&mut self.inner, from, to, now);
        proof {
            assert((self@, outcome(r)) == model::copy(old(self)@, from@, to@, now));
        }
        r
    }

    fn create_dir(&mut self, path: &str) -> (r: Result<(), FsError>) {
        let now = crate::time::now();
        let r = crate::memory_fs::create_dir(&mut self.inner, path, now);
        proof {
            assert((self@, outcome(r)) == model::create_dir(old(self)@, path@, now));
        }
        r
    }

    fn create_dir_all(&mut self, path: &str) -> (r: Result<(), FsError>) {
        self.build_dir(true, path)
    }

    fn build_dir(&mut self, recursive: bool, path: &str) -> (r: Result<(), FsError>) {
        let mut builder = MemoryDirBuilder::new();
        builder.recursive(recursive);
        builder.create(self, path)
    }

    fn try_exists(&self, path: &str) -> (r: Result<bool, FsError>) {
        crate::memory_fs::try_exists(&self.inner, path)
    }

    fn hard_link(&mut self, original: &str, link: &str) -> (r: Result<(), FsError>) {
        let now = crate::time::now();
        let r = crate::memory_fs::hard_link(&mut self.inner, original, link, now);
        proof {
            assert((self@, outcome(r)) == model::hard_link(old(self)@, original@, link@, now));
        }
        r
    }

    fn metadata(&self, path: &str) -> (r: Result<MemoryMetadata, FsError>) {
        crate::memory_fs::metadata(&self.inner, path)
    }

    fn read(&self, path: &str) -> (r: Result<Vec<u8>, FsError>) {
        crate::memory_fs::read(&self.inner, path)
    }

    fn read_dir(&self, path: &str) -> (r: Result<MemoryReadDir, FsError>) {
        crate::memory_fs::read_dir::read_dir(&self.inner, path)
    }

    fn read_link(&self, path: &str) -> (r: Result<String, FsError>) {
        crate::memory_fs::read_link(path)
    }

    fn read_to_string(&self, path: &str) -> (r: Result<String, FsError>) {
        crate::memory_fs::read_to_string(&self.inner, path)
    }

    fn remove_dir(&mut self, path: &str) -> (r: Result<(), FsError>) {
        crate::memory_fs::remove_dir(&mut self.inner, path)
    }

    fn remove_dir_all(&mut self, path: &str) -> (r: Result<(), FsError>) {
        crate::memory_fs::remove_dir_all(&mut self.inner, path)
    }

    fn remove_file(&mut self, path: &str) -> (r: Result<(), FsError>) {
        crate::memory_fs::remove_file(&mut self.inner, path)
    }

    fn rename(&mut self, from: &str, to: &str) -> (r: Result<(), FsError>) {
        let now = crate::time::now();
        let r = crate::memory_fs::rename(&mut self.inner, from, to, now);
        proof {
            assert((self@, outcome(r)) == model::rename(old(self)@, from@, to@, now));
        }
        r
    }

    fn set_permissions(&mut self, path: &str, perm: Permissions) -> (r: Result<(), FsError>) {
        let now = crate::time::now();
        let r = crate::memory_fs::set_permissions(&mut self.inner, path, perm, now);
        proof {
            assert((self@, outcome(r)) == model::set_permissions(old(self)@, path@, perm, now));
        }
        r
    }

    fn symlink_metadata(&self, path: &str) -> (r: Result<MemoryMetadata, FsError>) {
        crate::memory_fs::symlink_metadata(path)
    }

    fn write(&mut self, path: &str, contents: &[u8]) -> (r: Result<(), FsError>) {
        let now = crate::time::now();
        let r = crate::memory_fs::write(&mut self.inner, path, contents, now);
        proof {
            assert((self@, outcome(r)) == crate::memory_fs::model::write(
                old(self)@,
                path@,
                contents@,
                now,
            ));
        }
        r
    }

    fn open_with(&mut self, flags: OpenFlags, path: &str) -> (r: Result<MemoryFile, FsError>) {
        let now = crate::time::now();
        let r = open_at(&mut self.inner, flags, path, now);
        proof {
            assert((self@, handle_outcome(outcome(r))) == model::open(
                old(self)@,
                flags,
                path@,
                now,
            ));
        }
        r
    }

    fn open_file(&mut self, path: &str) -> (r: Result<MemoryFile, FsError>) {
        let mut flags = OpenFlags::new();
        flags.read = true;
        self.open_with(flags, path)
    }

    fn create_file(&mut self, path: &str) -> (r: Result<MemoryFile, FsError>) {
        let mut flags = OpenFlags::new();
        flags.write = true;
        flags.create = true;
        flags.truncate = true;
        self.open_with(flags, path)
    }

    fn create_new_file(&mut self, path: &str) -> (r: Result<MemoryFile, FsError>) {
        let mut flags = OpenFlags::new();
        flags.read = true;
        flags.write = true;
        flags.create = true;
        flags.create_new = true;
        self.open_with(flags, path)
    }

    fn new_openoptions(&self) -> (o: MemoryOpenOptions)
        ensures
            o.flags() == crate::traits::open_options::no_flags(),
    {
        MemoryOpenOptions::new()
    }

    fn new_dirbuilder(&self) -> (b: MemoryDirBuilder)
        ensures
            !b.is_recursive(),
    {
        MemoryDirBuilder::new()
    }
}

} // verus!
