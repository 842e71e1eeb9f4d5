//! The filesystem contract.

use crate::error::{bytes_outcome, decoded, outcome, text_outcome, ErrorKind, FsError};
use crate::traits::open_options::{create_flags, create_new_flags, read_flags, OpenFlags};
use crate::traits::{UniDirEntry, UniFileType, UniMetadata, UniPermissions, UniReadDir};
use vstd::prelude::*;

verus! {

/// A filesystem: the operations of `std::fs`, on a value that owns its
/// state.
///
/// What a query returns is a function of the state, named by a
/// specification function ending in `_spec`. What a mutating operation may
/// do is a relation between the state before, the arguments, the state
/// after and the result, named by one ending in `_post`; it is a relation
/// because a backend may read the clock. Results appear there with the
/// error reduced to its kind.
pub trait UniFs: Sized {
    /// The metadata of an entry.
    type Metadata: UniMetadata;

    /// A directory listing.
    type ReadDir: UniReadDir<DirEntry = Self::DirEntry>;

    /// One entry of a directory listing.
    type DirEntry: UniDirEntry;

    /// The permissions of an entry.
    type Permissions: UniPermissions;

    /// An open file.
    type File;

    /// The builder of open options.
    type OpenOptions;

    /// The builder of directories.
    type DirBuilder;

    /// The invariant of the backend's state. Every operation needs it and
    /// keeps it.
    spec fn inv(&self) -> bool;

    /// `canonicalize`.
    spec fn canonicalize_spec(&self, path: Seq<char>) -> Result<Seq<char>, ErrorKind>;

    /// `try_exists`.
    spec fn exists_spec(&self, path: Seq<char>) -> Result<bool, ErrorKind>;

    /// `metadata`.
    spec fn metadata_spec(&self, path: Seq<char>) -> Result<Self::Metadata, ErrorKind>;

    /// `read`.
    spec fn read_spec(&self, path: Seq<char>) -> Result<Seq<u8>, ErrorKind>;

    /// `read_dir`.
    spec fn read_dir_post(&self, path: Seq<char>, r: Result<Self::ReadDir, ErrorKind>) -> bool;

    /// `read_link`.
    spec fn read_link_spec(&self, path: Seq<char>) -> Result<Seq<char>, ErrorKind>;

    /// `symlink_metadata`.
    spec fn symlink_metadata_spec(&self, path: Seq<char>) -> Result<Self::Metadata, ErrorKind>;

    /// `copy`.
    spec fn copy_post(
        &self,
        from: Seq<char>,
        to: Seq<char>,
        post: &Self,
        r: Result<u64, ErrorKind>,
    ) -> bool;

    /// `create_dir`.
    spec fn create_dir_post(&self, path: Seq<char>, post: &Self, r: Result<(), ErrorKind>) -> bool;

    /// `build_dir`, and with `recursive` set `create_dir_all`.
    spec fn build_dir_post(
        &self,
        recursive: bool,
        path: Seq<char>,
        post: &Self,
        r: Result<(), ErrorKind>,
    ) -> bool;

    /// `hard_link`.
    spec fn hard_link_post(
        &self,
        original: Seq<char>,
        link: Seq<char>,
        post: &Self,
        r: Result<(), ErrorKind>,
    ) -> bool;

    /// `remove_dir`.
    spec fn remove_dir_post(&self, path: Seq<char>, post: &Self, r: Result<(), ErrorKind>) -> bool;

    /// `remove_dir_all`.
    spec fn remove_dir_all_post(
        &self,
        path: Seq<char>,
        post: &Self,
        r: Result<(), ErrorKind>,
    ) -> bool;

    /// `remove_file`.
    spec fn remove_file_post(&self, path: Seq<char>, post: &Self, r: Result<(), ErrorKind>) -> bool;

    /// `rename`.
    spec fn rename_post(
        &self,
        from: Seq<char>,
        to: Seq<char>,
        post: &Self,
        r: Result<(), ErrorKind>,
    ) -> bool;

    /// `set_permissions`.
    spec fn set_permissions_post(
        &self,
        path: Seq<char>,
        perm: Self::Permissions,
        post: &Self,
        r: Result<(), ErrorKind>,
    ) -> bool;

    /// `write`.
    spec fn write_post(
        &self,
        path: Seq<char>,
        contents: Seq<u8>,
        post: &Self,
        r: Result<(), ErrorKind>,
    ) -> bool;

    /// `open_with`, and with it `open_file`, `create_file` and
    /// `create_new_file`.
    spec fn open_post(
        &self,
        flags: OpenFlags,
        path: Seq<char>,
        post: &Self,
        r: Result<Self::File, ErrorKind>,
    ) -> bool;

    /// A directory that was created exists.
    proof fn lemma_created_exists(
        &self,
        path: Seq<char>,
        post: &Self,
        r: Result<(), ErrorKind>,
    )
        requires
            self.inv(),
            post.inv(),
            self.create_dir_post(path, post, r),
        ensures
            r is Ok ==> post.exists_spec(path) == Ok::<bool, ErrorKind>(true),
    ;

    /// What was written is what is read, byte for byte, and the metadata
    /// of the path reports a regular file of that many bytes.
    proof fn lemma_written_reads(
        &self,
        path: Seq<char>,
        contents: Seq<u8>,
        post: &Self,
        r: Result<(), ErrorKind>,
    )
        requires
            self.inv(),
            post.inv(),
            self.write_post(path, contents, post, r),
        ensures
            r is Ok ==> post.read_spec(path) == Ok::<Seq<u8>, ErrorKind>(contents),
            r is Ok ==> post.metadata_spec(path) is Ok,
            r is Ok ==> post.metadata_spec(path)->Ok_0.spec_file_type().spec_is_file(),
            r is Ok ==> post.metadata_spec(path)->Ok_0.spec_len() == contents.len() as u64,
    ;

    /// What can be read exists.
    proof fn lemma_readable_exists(&self, path: Seq<char>)
        requires
            self.inv(),
            self.read_spec(path) is Ok,
        ensures
            self.exists_spec(path) == Ok::<bool, ErrorKind>(true),
    ;

    /// After the directories along a path were made, the path exists.
    proof fn lemma_built_exists(&self, path: Seq<char>, post: &Self, r: Result<(), ErrorKind>)
        requires
            self.inv(),
            post.inv(),
            self.build_dir_post(true, path, post, r),
        ensures
            r is Ok ==> post.exists_spec(path) == Ok::<bool, ErrorKind>(true),
    ;

    /// Only what exists is renamed, and a file that was renamed exists at
    /// its new path and reads there as it read at the old one.
    proof fn lemma_renamed_reads(
        &self,
        from: Seq<char>,
        to: Seq<char>,
        post: &Self,
        r: Result<(), ErrorKind>,
    )
        requires
            self.inv(),
            post.inv(),
            self.rename_post(from, to, post, r),
        ensures
            r is Ok ==> self.exists_spec(from) == Ok::<bool, ErrorKind>(true),
            r is Ok && self.read_spec(from) is Ok ==> post.read_spec(to) == self.read_spec(from)
                && post.exists_spec(to) == Ok::<bool, ErrorKind>(true),
    ;

    /// A hard link stands for what it was made for: both paths exist, and
    /// reading either, or asking for the metadata or the canonical form of
    /// either, gives one answer.
    proof fn lemma_linked_alias(
        &self,
        original: Seq<char>,
        link: Seq<char>,
        post: &Self,
        r: Result<(), ErrorKind>,
    )
        requires
            self.inv(),
            post.inv(),
            self.hard_link_post(original, link, post, r),
        ensures
            r is Ok ==> post.exists_spec(original) == Ok::<bool, ErrorKind>(true),
            r is Ok ==> post.exists_spec(link) == Ok::<bool, ErrorKind>(true),
            r is Ok ==> post.read_spec(link) == post.read_spec(original),
            r is Ok ==> post.metadata_spec(link) == post.metadata_spec(original),
            r is Ok ==> post.canonicalize_spec(link) == post.canonicalize_spec(original),
    ;

    /// The canonical, absolute form of a path, with links resolved.
    fn canonicalize(&self, path: &str) -> (r: Result<String, FsError>)
        requires
            self.inv(),
        ensures
            text_outcome(r) == self.canonicalize_spec(path@),
    ;

    /// Copies the content of one file to another and returns the number of
    /// bytes.
    fn copy(&mut self, from: &str, to: &str) -> (r: Result<u64, FsError>)
        requires
            old(self).inv(),
        ensures
            final(self).inv(),
            old(self).copy_post(from@, to@, final(self), outcome(r)),
    ;

    /// Makes a new, empty directory.
    fn create_dir(&mut self, path: &str) -> (r: Result<(), FsError>)
        requires
            old(self).inv(),
        ensures
            final(self).inv(),
            old(self).create_dir_post(path@, final(self), outcome(r)),
    ;

    /// Makes a directory and every directory missing above it.
    fn create_dir_all(&mut self, path: &str) -> (r: Result<(), FsError>)
        requires
            old(self).inv(),
        ensures
            final(self).inv(),
            old(self).build_dir_post(true, path@, final(self), outcome(r)),
    ;

    /// Makes a directory as a directory builder does, alone or with every
    /// directory missing above it.
    fn build_dir(&mut self, recursive: bool, path: &str) -> (r: Result<(), FsError>)
        requires
            old(self).inv(),
        ensures
            final(self).inv(),
            old(self).build_dir_post(recursive, path@, final(self), outcome(r)),
    ;

    /// Whether the path points at an existing entry.
    fn try_exists(&self, path: &str) -> (r: Result<bool, FsError>)
        requires
            self.inv(),
        ensures
            outcome(r) == self.exists_spec(path@),
    ;

    /// Makes `link` a hard link to `original`.
    fn hard_link(&mut self, original: &str, link: &str) -> (r: Result<(), FsError>)
        requires
            old(self).inv(),
        ensures
            final(self).inv(),
            old(self).hard_link_post(original@, link@, final(self), outcome(r)),
    ;

    /// The metadata of the entry at the path.
    fn metadata(&self, path: &str) -> (r: Result<Self::Metadata, FsError>)
        requires
            self.inv(),
        ensures
            outcome(r) == self.metadata_spec(path@),
    ;

    /// The whole content of a file.
    fn read(&self, path: &str) -> (r: Result<Vec<u8>, FsError>)
        requires
            self.inv(),
        ensures
            bytes_outcome(r) == self.read_spec(path@),
    ;

    /// The entries of a directory.
    fn read_dir(&self, path: &str) -> (r: Result<Self::ReadDir, FsError>)
        requires
            self.inv(),
        ensures
            self.read_dir_post(path@, outcome(r)),
    ;

    /// The path that a symbolic link points to.
    fn read_link(&self, path: &str) -> (r: Result<String, FsError>)
        requires
            self.inv(),
        ensures
            text_outcome(r) == self.read_link_spec(path@),
    ;

    /// The whole content of a file, as text: what `read` gives, decoded as
    /// UTF-8, and `Other` where that cannot be done.
    fn read_to_string(&self, path: &str) -> (r: Result<String, FsError>)
        requires
            self.inv(),
        ensures
            text_outcome(r) == decoded(self.read_spec(path@)),
    ;

    /// Removes an empty directory.
    fn remove_dir(&mut self, path: &str) -> (r: Result<(), FsError>)
        requires
            old(self).inv(),
        ensures
            final(self).inv(),
            old(self).remove_dir_post(path@, final(self), outcome(r)),
    ;

    /// Removes a directory after removing everything in it.
    fn remove_dir_all(&mut self, path: &str) -> (r: Result<(), FsError>)
        requires
            old(self).inv(),
        ensures
            final(self).inv(),
            old(self).remove_dir_all_post(path@, final(self), outcome(r)),
    ;

    /// Removes a file.
    fn remove_file(&mut self, path: &str) -> (r: Result<(), FsError>)
        requires
            old(self).inv(),
        ensures
            final(self).inv(),
            old(self).remove_file_post(path@, final(self), outcome(r)),
    ;

    /// Renames a file or directory.
    fn rename(&mut self, from: &str, to: &str) -> (r: Result<(), FsError>)
        requires
            old(self).inv(),
        ensures
            final(self).inv(),
            old(self).rename_post(from@, to@, final(self), outcome(r)),
    ;

    /// Changes the permissions of an entry.
    fn set_permissions(&mut self, path: &str, perm: Self::Permissions) -> (r: Result<(), FsError>)
        requires
            old(self).inv(),
        ensures
            final(self).inv(),
            old(self).set_permissions_post(path@, perm, final(self), outcome(r)),
    ;

    /// The metadata of the entry at the path, without following a final
    /// symbolic link.
    fn symlink_metadata(&self, path: &str) -> (r: Result<Self::Metadata, FsError>)
        requires
            self.inv(),
        ensures
            outcome(r) == self.symlink_metadata_spec(path@),
    ;

    /// Makes `contents` the whole content of a file, creating the file if
    /// need be.
    fn write(&mut self, path: &str, contents: &[u8]) -> (r: Result<(), FsError>)
        requires
            old(self).inv(),
        ensures
            final(self).inv(),
            old(self).write_post(path@, contents@, final(self), outcome(r)),
    ;

    /// Opens a file as the flags say.
    fn open_with(&mut self, flags: OpenFlags, path: &str) -> (r: Result<Self::File, FsError>)
        requires
            old(self).inv(),
        ensures
            final(self).inv(),
            old(self).open_post(flags, path@, final(self), outcome(r)),
    ;

    /// Opens a file for reading.
    fn open_file(&mut self, path: &str) -> (r: Result<Self::File, FsError>)
        requires
            old(self).inv(),
        ensures
            final(self).inv(),
            old(self).open_post(read_flags(), path@, final(self), outcome(r)),
    ;

    /// Opens a file for writing, creating it if need be and emptying it if
    /// not.
    fn create_file(&mut self, path: &str) -> (r: Result<Self::File, FsError>)
        requires
            old(self).inv(),
        ensures
            final(self).inv(),
            old(self).open_post(create_flags(), path@, final(self), outcome(r)),
    ;

    /// Makes a new file and opens it for reading and writing; fails where
    /// the path exists.
    fn create_new_file(&mut self, path: &str) -> (r: Result<Self::File, FsError>)
        requires
            old(self).inv(),
        ensures
            final(self).inv(),
            old(self).open_post(create_new_flags(), path@, final(self), outcome(r)),
    ;

    /// Open options with every flag unset.
    fn new_openoptions(&self) -> (o: Self::OpenOptions)
    ;

    /// A directory builder that is not recursive.
    fn new_dirbuilder(&self) -> (b: Self::DirBuilder)
    ;
}

} // verus!
