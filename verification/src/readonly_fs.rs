//! The read-only decorator: a filesystem that hands every query on to the
//! filesystem it wraps and refuses every call that would change it.

use crate::error::{outcome, ErrorKind, FsError};
use crate::traits::dir_builder::UniDirBuilder;
use crate::traits::file::{SeekFrom, UniFile};
use crate::traits::file_system::UniFs;
use crate::traits::open_options::{no_flags, OpenFlags, UniOpenOptions};
use crate::traits::{UniDirEntry, UniMetadata, UniPermissions, UniReadDir};
use crate::FileTimes;
use std::marker::PhantomData;
use std::time::SystemTime;
use vstd::prelude::*;

verus! {

/// A filesystem that cannot be changed through this value.
pub struct ReadonlyFs<FS: UniFs>(pub FS);

/// The metadata of an entry of a read-only filesystem. Its permissions are
/// always read-only.
pub struct ReadonlyMetadata<T: UniMetadata>(pub T);

/// The permissions of an entry of a read-only filesystem: read-only, and
/// not to be changed.
#[derive(PartialEq, Eq, Structural)]
pub struct ReadonlyPermissions;

/// The builder of the options with which a file of a read-only filesystem
/// is opened.
pub struct ReadonlyOpenOptions<FS: UniFs> {
    flags: OpenFlags,
    backend: PhantomData<FS>,
}

/// One entry of a directory listing of a read-only filesystem.
pub struct ReadonlyDirEntry<T: UniDirEntry>(pub T);

/// A directory listing of a read-only filesystem.
pub struct ReadonlyReadDir<FS: UniFs>(pub FS::ReadDir);

/// The builder of directories of a read-only filesystem. It builds none.
pub struct ReadonlyDirBuilder<FS: UniFs> {
    recursive: bool,
    backend: PhantomData<FS>,
}

/// An open file of a read-only filesystem: it can be read and searched, and
/// not written.
pub struct ReadonlyFile<FS: UniFs>(pub FS::File);

/// The error of a read-only filesystem, with the given explanation.
pub fn error(msg: &str) -> (e: FsError)
    ensures
        e.kind() == ErrorKind::ReadOnlyFilesystem,
        e.spec_message() == msg@,
{
    FsError::new(ErrorKind::ReadOnlyFilesystem, msg)
}

/// Whether opening with these flags could change the filesystem.
pub open spec fn mutating(flags: OpenFlags) -> bool {
    flags.write || flags.append || flags.truncate || flags.create || flags.create_new
}

/// The outcome of every call that would change the filesystem: nothing
/// changes, and the call fails with `ReadOnlyFilesystem`.
pub open spec fn refused<S, T>(pre: &S, post: &S, r: Result<T, ErrorKind>) -> bool {
    post == pre && r == Err::<T, ErrorKind>(ErrorKind::ReadOnlyFilesystem)
}

/// Metadata of the wrapped filesystem, as metadata of the read-only one.
pub open spec fn wrapped_metadata<T: UniMetadata>(r: Result<T, ErrorKind>) -> Result<
    ReadonlyMetadata<T>,
    ErrorKind,
> {
    match r {
        Ok(m) => Ok(ReadonlyMetadata(m)),
        Err(e) => Err(e),
    }
}

/// An entry of the wrapped listing, as an entry of the read-only one.
pub open spec fn wrapped_entry<T: UniDirEntry>(r: Result<T, ErrorKind>) -> Result<
    ReadonlyDirEntry<T>,
    ErrorKind,
> {
    match r {
        Ok(e) => Ok(ReadonlyDirEntry(e)),
        Err(e) => Err(e),
    }
}

impl<FS: UniFs> ReadonlyFs<FS> {
    /// Wraps `fs`.
    pub fn new(fs: FS) -> (r: Self)
        ensures
            r.0 == fs,
    {
        ReadonlyFs(fs)
    }
}

impl<FS: UniFs> From<FS> for ReadonlyFs<FS> {
    /// Wraps `fs`.
    fn from(fs: FS) -> (r: Self) {
        ReadonlyFs(fs)
    }
}

impl<FS: UniFs> vstd::std_specs::convert::FromSpecImpl<FS> for ReadonlyFs<FS> {
    open spec fn obeys_from_spec() -> bool {
        true
    }

    open spec fn from_spec(fs: FS) -> Self {
        ReadonlyFs(fs)
    }
}

impl<FS: UniFs> ReadonlyOpenOptions<FS> {
    /// The flags set so far.
    pub closed spec fn spec_flags(&self) -> OpenFlags {
        self.flags
    }
}

impl<FS: UniFs> ReadonlyDirBuilder<FS> {
    /// Whether the builder was asked to be recursive.
    pub closed spec fn spec_recursive(&self) -> bool {
        self.recursive
    }
}

impl UniPermissions for ReadonlyPermissions {
    open spec fn spec_readonly(&self) -> bool {
        true
    }

    open spec fn spec_fixed(&self) -> bool {
        true
    }

    fn readonly(&self) -> (b: bool) {
        true
    }

    fn set_readonly(&mut self, readonly: bool) {
    }
}

impl<T: UniMetadata> UniMetadata for ReadonlyMetadata<T> {
    type Permissions = ReadonlyPermissions;

    type FileType = T::FileType;

    open spec fn spec_file_type(&self) -> T::FileType {
        self.0.spec_file_type()
    }

    open spec fn spec_len(&self) -> u64 {
        self.0.spec_len()
    }

    open spec fn spec_permissions(&self) -> ReadonlyPermissions {
        ReadonlyPermissions
    }

    open spec fn spec_times(&self) -> FileTimes {
        self.0.spec_times()
    }

    fn file_type(&self) -> (t: T::FileType) {
        self.0.file_type()
    }

    fn is_dir(&self) -> (b: bool) {
        self.0.is_dir()
    }

    fn is_file(&self) -> (b: bool) {
        self.0.is_file()
    }

    fn is_symlink(&self) -> (b: bool) {
        self.0.is_symlink()
    }

    fn len(&self) -> (n: u64) {
        self.0.len()
    }

    fn permissions(&self) -> (p: ReadonlyPermissions) {
        ReadonlyPermissions
    }

    fn modified(&self) -> (r: Result<SystemTime, FsError>) {
        self.0.modified()
    }

    fn accessed(&self) -> (r: Result<SystemTime, FsError>) {
        self.0.accessed()
    }

    fn created(&self) -> (r: Result<SystemTime, FsError>) {
        self.0.created()
    }
}

impl<T: UniDirEntry> UniDirEntry for ReadonlyDirEntry<T> {
    type Metadata = ReadonlyMetadata<T::Metadata>;

    type FileType = T::FileType;

    open spec fn spec_path(&self) -> Seq<char> {
        self.0.spec_path()
    }

    open spec fn spec_file_name(&self) -> Seq<char> {
        self.0.spec_file_name()
    }

    open spec fn spec_metadata(&self) -> Result<Self::Metadata, ErrorKind> {
        wrapped_metadata(self.0.spec_metadata())
    }

    open spec fn spec_file_type(&self) -> Result<T::FileType, ErrorKind> {
        self.0.spec_file_type()
    }

    fn path(&self) -> (p: String) {
        self.0.path()
    }

    fn metadata(&self) -> (r: Result<Self::Metadata, FsError>) {
        match self.0.metadata() {
            Ok(m) => Ok(ReadonlyMetadata(m)),
            Err(e) => Err(e),
        }
    }

    fn file_type(&self) -> (r: Result<T::FileType, FsError>) {
        self.0.file_type()
    }

    fn file_name(&self) -> (n: String) {
        self.0.file_name()
    }
}

impl<FS: UniFs> UniReadDir for ReadonlyReadDir<FS> {
    type DirEntry = ReadonlyDirEntry<FS::DirEntry>;

    open spec fn spec_remaining(&self) -> Seq<Result<Self::DirEntry, ErrorKind>> {
        Seq::new(
            self.0.spec_remaining().len(),
            |i: int| wrapped_entry(self.0.spec_remaining()[i]),
        )
    }

    fn next(&mut self) -> (r: Option<Result<Self::DirEntry, FsError>>) {
        let r = match self.0.next() {
            None => None,
            Some(Ok(e)) => Some(Ok(ReadonlyDirEntry(e))),
            Some(Err(e)) => Some(Err(e)),
        };
        proof {
            if old(self).spec_remaining().len() > 0 {
                assert(self.spec_remaining() =~= old(self).spec_remaining().skip(1));
            }
        }
        r
    }
}

impl<FS: UniFs> UniFs for ReadonlyFs<FS> {
    type Metadata = ReadonlyMetadata<FS::Metadata>;

    type ReadDir = ReadonlyReadDir<FS>;

    type DirEntry = ReadonlyDirEntry<FS::DirEntry>;

    type Permissions = ReadonlyPermissions;

    type File = ReadonlyFile<FS>;

    type OpenOptions = ReadonlyOpenOptions<FS>;

    type DirBuilder = ReadonlyDirBuilder<FS>;

    open spec fn inv(&self) -> bool {
        self.0.inv()
    }

    open spec fn canonicalize_spec(&self, path: Seq<char>) -> Result<Seq<char>, ErrorKind> {
        self.0.canonicalize_spec(path)
    }

    open spec fn exists_spec(&self, path: Seq<char>) -> Result<bool, ErrorKind> {
        self.0.exists_spec(path)
    }

    open spec fn metadata_spec(&self, path: Seq<char>) -> Result<Self::Metadata, ErrorKind> {
        wrapped_metadata(self.0.metadata_spec(path))
    }

    open spec fn read_spec(&self, path: Seq<char>) -> Result<Seq<u8>, ErrorKind> {
        self.0.read_spec(path)
    }

    open spec fn read_dir_post(&self, path: Seq<char>, r: Result<Self::ReadDir, ErrorKind>) -> bool {
        match r {
            Ok(d) => self.0.read_dir_post(path, Ok(d.0)),
            Err(e) => self.0.read_dir_post(path, Err(e)),
        }
    }

    open spec fn read_link_spec(&self, path: Seq<char>) -> Result<Seq<char>, ErrorKind> {
        self.0.read_link_spec(path)
    }

    open spec fn symlink_metadata_spec(&self, path: Seq<char>) -> Result<
        Self::Metadata,
        ErrorKind,
    > {
        wrapped_metadata(self.0.symlink_metadata_spec(path))
    }

    open spec fn copy_post(
        &self,
        from: Seq<char>,
        to: Seq<char>,
        post: &Self,
        r: Result<u64, ErrorKind>,
    ) -> bool {
        refused(self, post, r)
    }

    open spec fn create_dir_post(&self, path: Seq<char>, post: &Self, r: Result<(), ErrorKind>) -> bool {
        refused(self, post, r)
    }

    open spec fn build_dir_post(
        &self,
        recursive: bool,
        path: Seq<char>,
        post: &Self,
        r: Result<(), ErrorKind>,
    ) -> bool {
        refused(self, post, r)
    }

    open spec fn hard_link_post(
        &self,
        original: Seq<char>,
        link: Seq<char>,
        post: &Self,
        r: Result<(), ErrorKind>,
    ) -> bool {
        refused(self, post, r)
    }

    open spec fn remove_dir_post(&self, path: Seq<char>, post: &Self, r: Result<(), ErrorKind>) -> bool {
        refused(self, post, r)
    }

    open spec fn remove_dir_all_post(
        &self,
        path: Seq<char>,
        post: &Self,
        r: Result<(), ErrorKind>,
    ) -> bool {
        refused(self, post, r)
    }

    open spec fn remove_file_post(&self, path: Seq<char>, post: &Self, r: Result<(), ErrorKind>) -> bool {
        refused(self, post, r)
    }

    open spec fn rename_post(
        &self,
        from: Seq<char>,
        to: Seq<char>,
        post: &Self,
        r: Result<(), ErrorKind>,
    ) -> bool {
        refused(self, post, r)
    }

    open spec fn set_permissions_post(
        &self,
        path: Seq<char>,
        perm: ReadonlyPermissions,
        post: &Self,
        r: Result<(), ErrorKind>,
    ) -> bool {
        refused(self, post, r)
    }

    open spec fn write_post(
        &self,
        path: Seq<char>,
        contents: Seq<u8>,
        post: &Self,
        r: Result<(), ErrorKind>,
    ) -> bool {
        refused(self, post, r)
    }

    open spec fn open_post(
        &self,
        flags: OpenFlags,
        path: Seq<char>,
        post: &Self,
        r: Result<ReadonlyFile<FS>, ErrorKind>,
    ) -> bool {
        if mutating(flags) {
            refused(self, post, r)
        } else {
            match r {
                Ok(f) => self.0.open_post(flags, path, &post.0, Ok(f.0)),
                Err(e) => self.0.open_post(flags, path, &post.0, Err(e)),
            }
        }
    }

    proof fn lemma_created_exists(
        &self,
        path: Seq<char>,
        post: &Self,
        r: Result<(), ErrorKind>,
    ) {
    }

    proof fn lemma_written_reads(
        &self,
        path: Seq<char>,
        contents: Seq<u8>,
        post: &Self,
        r: Result<(), ErrorKind>,
    ) {
    }

    proof fn lemma_readable_exists(&self, path: Seq<char>) {
        self.0.lemma_readable_exists(path);
    }

    proof fn lemma_built_exists(&self, path: Seq<char>, post: &Self, r: Result<(), ErrorKind>) {
    }

    proof fn lemma_renamed_reads(
        &self,
        from: Seq<char>,
        to: Seq<char>,
        post: &Self,
        r: Result<(), ErrorKind>,
    ) {
    }

    proof fn lemma_linked_alias(
        &self,
        original: Seq<char>,
        link: Seq<char>,
        post: &Self,
        r: Result<(), ErrorKind>,
    ) {
    }

    fn canonicalize(&self, path: &str) -> (r: Result<String, FsError>) {
        self.0.canonicalize(path)
    }

    fn copy(&mut self, from: &str, to: &str) -> (r: Result<u64, FsError>) {
        Err(error("Cannot copy files in a read-only filesystem"))
    }

    fn create_dir(&mut self, path: &str) -> (r: Result<(), FsError>) {
        Err(error("Cannot create directories in a read-only filesystem"))
    }

    fn create_dir_all(&mut self, path: &str) -> (r: Result<(), FsError>) {
        Err(error("Cannot create directories in a read-only filesystem"))
    }

    fn build_dir(&mut self, recursive: bool, path: &str) -> (r: Result<(), FsError>) {
        Err(error("Cannot create directory in a read-only filesystem"))
    }

    fn try_exists(&self, path: &str) -> (r: Result<bool, FsError>) {
        self.0.try_exists(path)
    }

    fn hard_link(&mut self, original: &str, link: &str) -> (r: Result<(), FsError>) {
        Err(error("Cannot create hard links in a read-only filesystem"))
    }

    fn metadata(&self, path: &str) -> (r: Result<Self::Metadata, FsError>) {
        match self.0.metadata(path) {
            Ok(m) => Ok(ReadonlyMetadata(m)),
            Err(e) => Err(e),
        }
    }

    fn read(&self, path: &str) -> (r: Result<Vec<u8>, FsError>) {
        self.0.read(path)
    }

    fn read_dir(&self, path: &str) -> (r: Result<Self::ReadDir, FsError>) {
        match self.0.read_dir(path) {
            Ok(d) => Ok(ReadonlyReadDir(d)),
            Err(e) => Err(e),
        }
    }

    fn read_link(&self, path: &str) -> (r: Result<String, FsError>) {
        self.0.read_link(path)
    }

    fn read_to_string(&self, path: &str) -> (r: Result<String, FsError>) {
        self.0.read_to_string(path)
    }

    fn remove_dir(&mut self, path: &str) -> (r: Result<(), FsError>) {
        Err(error("Cannot remove directories in a read-only filesystem"))
    }

    fn remove_dir_all(&mut self, path: &str) -> (r: Result<(), FsError>) {
        Err(error("Cannot remove directories in a read-only filesystem"))
    }

    fn remove_file(&mut self, path: &str) -> (r: Result<(), FsError>) {
        Err(error("Cannot remove files in a read-only filesystem"))
    }

    fn rename(&mut self, from: &str, to: &str) -> (r: Result<(), FsError>) {
        Err(error("Cannot rename files in a read-only filesystem"))
    }

    fn set_permissions(&mut self, path: &str, perm: ReadonlyPermissions) -> (r: Result<
        (),
        FsError,
    >) {
        Err(error("Cannot set permissions in a read-only filesystem"))
    }

    fn symlink_metadata(&self, path: &str) -> (r: Result<Self::Metadata, FsError>) {
        match self.0.symlink_metadata(path) {
            Ok(m) => Ok(ReadonlyMetadata(m)),
            Err(e) => Err(e),
        }
    }

    fn write(&mut self, path: &str, contents: &[u8]) -> (r: Result<(), FsError>) {
        Err(error("Cannot write to files in a read-only filesystem"))
    }

    fn open_with(&mut self, flags: OpenFlags, path: &str) -> (r: Result<ReadonlyFile<FS>, FsError>) {
        if flags.write || flags.append || flags.truncate || flags.create || flags.create_new {
            return Err(error("Cannot open a file for writing in a read-only filesystem"));
        }
        match self.0.open_with(flags, path) {
            Ok(f) => Ok(ReadonlyFile(f)),
            Err(e) => Err(e),
        }
    }

    fn open_file(&mut self, path: &str) -> (r: Result<ReadonlyFile<FS>, FsError>) {
        let mut flags = OpenFlags::new();
        flags.read = true;
        self.open_with(flags, path)
    }

    fn create_file(&mut self, path: &str) -> (r: Result<ReadonlyFile<FS>, FsError>) {
        Err(error("Cannot create file in a read-only filesystem"))
    }

    fn create_new_file(&mut self, path: &str) -> (r: Result<ReadonlyFile<FS>, FsError>) {
        Err(error("Cannot create file in a read-only filesystem"))
    }

    fn new_openoptions(&self) -> (o: ReadonlyOpenOptions<FS>)
        ensures
            o.spec_flags() == no_flags(),
    {
        ReadonlyOpenOptions { flags: OpenFlags::new(), backend: PhantomData }
    }

    fn new_dirbuilder(&self) -> (b: ReadonlyDirBuilder<FS>)
        ensures
            !b.spec_recursive(),
    {
        ReadonlyDirBuilder { recursive: false, backend: PhantomData }
    }
}

impl<FS: UniFs> UniOpenOptions for ReadonlyOpenOptions<FS> {
    type Fs = ReadonlyFs<FS>;

    open spec fn flags(&self) -> OpenFlags {
        self.spec_flags()
    }

    fn read(&mut self, read: bool) -> (r: &mut Self) {
        self.flags.read = read;
        self
    }

    fn write(&mut self, write: bool) -> (r: &mut Self) {
        self.flags.write = write;
        self
    }

    fn append(&mut self, append: bool) -> (r: &mut Self) {
        self.flags.write = self.flags.write || append;
        self.flags.append = append;
        self
    }

    fn truncate(&mut self, truncate: bool) -> (r: &mut Self) {
        self.flags.truncate = truncate;
        self
    }

    fn create(&mut self, create: bool) -> (r: &mut Self) {
        self.flags.create = create;
        self
    }

    fn create_new(&mut self, create_new: bool) -> (r: &mut Self) {
        self.flags.create = self.flags.create || create_new;
        self.flags.create_new = create_new;
        self
    }

    fn open(&self, fs: &mut ReadonlyFs<FS>, path: &str) -> (r: Result<ReadonlyFile<FS>, FsError>) {
        fs.open_with(self.flags, path)
    }
}

impl<FS: UniFs> UniDirBuilder for ReadonlyDirBuilder<FS> {
    type Fs = ReadonlyFs<FS>;

    open spec fn is_recursive(&self) -> bool {
        self.spec_recursive()
    }

    fn recursive(&mut self, recursive: bool) -> (r: &mut Self) {
        self.recursive = recursive;
        self
    }

    fn create(&self, fs: &mut ReadonlyFs<FS>, path: &str) -> (r: Result<(), FsError>) {
        fs.build_dir(self.recursive, path)
    }
}

impl<FS: UniFs> UniFile for ReadonlyFile<FS> where FS::File: UniFile<Fs = FS> {
    type Fs = ReadonlyFs<FS>;

    type Metadata = ReadonlyMetadata<<FS::File as UniFile>::Metadata>;

    type Permissions = ReadonlyPermissions;

    type FileTimes = <FS::File as UniFile>::FileTimes;

    open spec fn read_post(
        &self,
        pre: &ReadonlyFs<FS>,
        want: nat,
        post: &ReadonlyFs<FS>,
        r: Result<Seq<u8>, ErrorKind>,
    ) -> bool {
        self.0.read_post(&pre.0, want, &post.0, r)
    }

    open spec fn write_post(
        &self,
        pre: &ReadonlyFs<FS>,
        bytes: Seq<u8>,
        post: &ReadonlyFs<FS>,
        r: Result<nat, ErrorKind>,
    ) -> bool {
        refused(pre, post, r)
    }

    open spec fn seek_post(
        &self,
        pre: &ReadonlyFs<FS>,
        pos: SeekFrom,
        after: &Self,
        post: &ReadonlyFs<FS>,
        r: Result<nat, ErrorKind>,
    ) -> bool {
        self.0.seek_post(&pre.0, pos, &after.0, &post.0, r)
    }

    open spec fn set_len_post(
        &self,
        pre: &ReadonlyFs<FS>,
        size: u64,
        post: &ReadonlyFs<FS>,
        r: Result<(), ErrorKind>,
    ) -> bool {
        refused(pre, post, r)
    }

    open spec fn metadata_spec(&self, fs: &ReadonlyFs<FS>) -> Result<Self::Metadata, ErrorKind> {
        wrapped_metadata(self.0.metadata_spec(&fs.0))
    }

    open spec fn set_permissions_post(
        &self,
        pre: &ReadonlyFs<FS>,
        perm: ReadonlyPermissions,
        post: &ReadonlyFs<FS>,
        r: Result<(), ErrorKind>,
    ) -> bool {
        refused(pre, post, r)
    }

    open spec fn set_times_post(
        &self,
        pre: &ReadonlyFs<FS>,
        times: Self::FileTimes,
        post: &ReadonlyFs<FS>,
        r: Result<(), ErrorKind>,
    ) -> bool {
        refused(pre, post, r)
    }

    open spec fn set_modified_post(
        &self,
        pre: &ReadonlyFs<FS>,
        time: SystemTime,
        post: &ReadonlyFs<FS>,
        r: Result<(), ErrorKind>,
    ) -> bool {
        refused(pre, post, r)
    }

    open spec fn same_file(&self, other: &Self) -> bool {
        self.0.same_file(&other.0)
    }

    open spec fn flush_post(&self, r: Result<(), ErrorKind>) -> bool {
        self.0.flush_post(r)
    }

    open spec fn sync_all_post(&self, r: Result<(), ErrorKind>) -> bool {
        self.0.sync_all_post(r)
    }

    open spec fn sync_data_post(&self, r: Result<(), ErrorKind>) -> bool {
        self.0.sync_data_post(r)
    }

    open spec fn try_clone_post(&self, r: Result<Self, ErrorKind>) -> bool {
        match r {
            Ok(f) => self.0.try_clone_post(Ok(f.0)),
            Err(e) => self.0.try_clone_post(Err(e)),
        }
    }

    fn read(&self, fs: &mut ReadonlyFs<FS>, buf: &mut Vec<u8>) -> (r: Result<usize, FsError>) {
        self.0.read(&mut fs.0, buf)
    }

    fn write(&self, fs: &mut ReadonlyFs<FS>, buf: &[u8]) -> (r: Result<usize, FsError>) {
        Err(error("Cannot write to files in a read-only filesystem"))
    }

    fn flush(&self) -> (r: Result<(), FsError>) {
        self.0.flush()
    }

    fn seek(&mut self, fs: &mut ReadonlyFs<FS>, pos: SeekFrom) -> (r: Result<u64, FsError>) {
        self.0.seek(&mut fs.0, pos)
    }

    fn sync_all(&self) -> (r: Result<(), FsError>) {
        self.0.sync_all()
    }

    fn sync_data(&self) -> (r: Result<(), FsError>) {
        self.0.sync_data()
    }

    fn set_len(&self, fs: &mut ReadonlyFs<FS>, size: u64) -> (r: Result<(), FsError>) {
        Err(error("Cannot resize files in a read-only filesystem"))
    }

    fn metadata(&self, fs: &ReadonlyFs<FS>) -> (r: Result<Self::Metadata, FsError>) {
        match self.0.metadata(&fs.0) {
            Ok(m) => Ok(ReadonlyMetadata(m)),
            Err(e) => Err(e),
        }
    }

    fn try_clone(&self) -> (r: Result<Self, FsError>) {
        match self.0.try_clone() {
            Ok(f) => Ok(ReadonlyFile(f)),
            Err(e) => Err(e),
        }
    }

    fn set_permissions(&self, fs: &mut ReadonlyFs<FS>, perm: ReadonlyPermissions) -> (r: Result<
        (),
        FsError,
    >) {
        Err(error("Cannot set permissions in a read-only filesystem"))
    }

    fn set_times(&self, fs: &mut ReadonlyFs<FS>, times: Self::FileTimes) -> (r: Result<
        (),
        FsError,
    >) {
        Err(error("Cannot set file times in a read-only filesystem"))
    }

    fn set_modified(&self, fs: &mut ReadonlyFs<FS>, time: SystemTime) -> (r: Result<(), FsError>) {
        Err(error("Cannot set file times in a read-only filesystem"))
    }
}

} // verus!
