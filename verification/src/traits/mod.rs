//! The operation contract that every backend implements: metadata,
//! permissions, file types, directory entries and timestamps here, the
//! filesystem itself and its handles and builders in the modules below.
//!
//! Each executable method is specified by a specification function of the
//! same trait, which every implementation defines for itself. A backend
//! that composes other backends states its own in terms of theirs.

use crate::error::{outcome, ErrorKind, FsError};
use crate::FileTimes;
use std::time::SystemTime;
use vstd::prelude::*;

pub mod dir_builder;
pub mod file;
pub mod file_system;
pub mod file_system_ext;
pub mod open_options;

verus! {

/// What asking for a timestamp gives: the time if it was recorded, else
/// `NotFound`.
pub open spec fn recorded(t: Option<SystemTime>) -> Result<SystemTime, ErrorKind> {
    match t {
        Some(t) => Ok(t),
        None => Err(ErrorKind::NotFound),
    }
}

/// The type of a file: at most one of directory, regular file and link.
pub trait UniFileType {
    /// Whether this is the type of a directory.
    spec fn spec_is_dir(&self) -> bool;

    /// Whether this is the type of a regular file.
    spec fn spec_is_file(&self) -> bool;

    /// Whether this is the type of a link.
    spec fn spec_is_symlink(&self) -> bool;

    /// The three are mutually exclusive.
    proof fn lemma_exclusive(&self)
        ensures
            !(self.spec_is_dir() && self.spec_is_file()),
            !(self.spec_is_dir() && self.spec_is_symlink()),
            !(self.spec_is_file() && self.spec_is_symlink()),
    ;

    /// Whether this is the type of a directory.
    fn is_dir(&self) -> (b: bool)
        ensures
            b == self.spec_is_dir(),
    ;

    /// Whether this is the type of a regular file.
    fn is_file(&self) -> (b: bool)
        ensures
            b == self.spec_is_file(),
    ;

    /// Whether this is the type of a link.
    fn is_symlink(&self) -> (b: bool)
        ensures
            b == self.spec_is_symlink(),
    ;
}

/// The permissions of an entry: whether it is read-only.
pub trait UniPermissions {
    /// Whether the entry is read-only.
    spec fn spec_readonly(&self) -> bool;

    /// Whether the entry is read-only.
    fn readonly(&self) -> (b: bool)
        ensures
            b == self.spec_readonly(),
    ;

    /// Whether the flag can be changed. Permissions handed out by a
    /// read-only filesystem cannot.
    spec fn spec_fixed(&self) -> bool;

    /// Sets whether the entry is read-only; does nothing where the flag is
    /// fixed.
    fn set_readonly(&mut self, readonly: bool)
        ensures
            final(self).spec_fixed() == old(self).spec_fixed(),
            final(self).spec_readonly() == (if old(self).spec_fixed() {
                old(self).spec_readonly()
            } else {
                readonly
            }),
    ;
}

/// The timestamps that can be set on a file.
pub trait UniFileTimes: Sized {
    /// The access time, if set.
    spec fn spec_accessed(&self) -> Option<SystemTime>;

    /// The modification time, if set.
    spec fn spec_modified(&self) -> Option<SystemTime>;

    /// These timestamps with the access time set.
    fn set_accessed(self, t: SystemTime) -> (r: Self)
        ensures
            r.spec_accessed() == Some(t),
            r.spec_modified() == self.spec_modified(),
    ;

    /// These timestamps with the modification time set.
    fn set_modified(self, t: SystemTime) -> (r: Self)
        ensures
            r.spec_modified() == Some(t),
            r.spec_accessed() == self.spec_accessed(),
    ;
}

/// The metadata of an entry.
pub trait UniMetadata {
    /// The permissions that this metadata reports.
    type Permissions: UniPermissions;

    /// The file type that this metadata reports.
    type FileType: UniFileType;

    /// The file type.
    spec fn spec_file_type(&self) -> Self::FileType;

    /// The size in bytes.
    spec fn spec_len(&self) -> u64;

    /// The permissions.
    spec fn spec_permissions(&self) -> Self::Permissions;

    /// The timestamps.
    spec fn spec_times(&self) -> FileTimes;

    /// The file type.
    fn file_type(&self) -> (t: Self::FileType)
        ensures
            t == self.spec_file_type(),
    ;

    /// Whether the entry is a directory.
    fn is_dir(&self) -> (b: bool)
        ensures
            b == self.spec_file_type().spec_is_dir(),
    ;

    /// Whether the entry is a regular file.
    fn is_file(&self) -> (b: bool)
        ensures
            b == self.spec_file_type().spec_is_file(),
    ;

    /// Whether the entry is a link.
    fn is_symlink(&self) -> (b: bool)
        ensures
            b == self.spec_file_type().spec_is_symlink(),
    ;

    /// The size in bytes.
    fn len(&self) -> (n: u64)
        ensures
            n == self.spec_len(),
    ;

    /// The permissions.
    fn permissions(&self) -> (p: Self::Permissions)
        ensures
            p == self.spec_permissions(),
    ;

    /// The time of the last modification; `NotFound` where none was
    /// recorded.
    fn modified(&self) -> (r: Result<SystemTime, FsError>)
        ensures
            outcome(r) == recorded(self.spec_times().modified),
    ;

    /// The time of the last access; `NotFound` where none was recorded.
    fn accessed(&self) -> (r: Result<SystemTime, FsError>)
        ensures
            outcome(r) == recorded(self.spec_times().accessed),
    ;

    /// The time of creation.
    fn created(&self) -> (r: Result<SystemTime, FsError>)
        ensures
            outcome(r) == Ok::<SystemTime, ErrorKind>(self.spec_times().created),
    ;
}

/// One entry of a directory listing.
pub trait UniDirEntry {
    /// The metadata that this entry reports.
    type Metadata: UniMetadata<FileType = Self::FileType>;

    /// The file type that this entry reports.
    type FileType: UniFileType;

    /// The full path of the entry.
    spec fn spec_path(&self) -> Seq<char>;

    /// The name of the entry, without the directory.
    spec fn spec_file_name(&self) -> Seq<char>;

    /// The metadata of the entry, or why there is none.
    spec fn spec_metadata(&self) -> Result<Self::Metadata, ErrorKind>;

    /// The file type of the entry, or why there is none.
    spec fn spec_file_type(&self) -> Result<Self::FileType, ErrorKind>;

    /// The full path of the entry.
    fn path(&self) -> (p: String)
        ensures
            p@ == self.spec_path(),
    ;

    /// The metadata of the entry.
    fn metadata(&self) -> (r: Result<Self::Metadata, FsError>)
        ensures
            outcome(r) == self.spec_metadata(),
    ;

    /// The file type of the entry.
    fn file_type(&self) -> (r: Result<Self::FileType, FsError>)
        ensures
            outcome(r) == self.spec_file_type(),
    ;

    /// The name of the entry, without the directory.
    fn file_name(&self) -> (n: String)
        ensures
            n@ == self.spec_file_name(),
    ;
}

/// A directory listing: a finite sequence of entries, handed out one by
/// one.
pub trait UniReadDir {
    /// The entries of the listing.
    type DirEntry: UniDirEntry;

    /// The entries not yet handed out, each an entry or the reason why it
    /// could not be read.
    spec fn spec_remaining(&self) -> Seq<Result<Self::DirEntry, ErrorKind>>;

    /// Hands out the next entry, or `None` at the end.
    fn next(&mut self) -> (r: Option<Result<Self::DirEntry, FsError>>)
        ensures
            old(self).spec_remaining().len() == 0 ==> r is None && final(self).spec_remaining()
                == old(self).spec_remaining(),
            old(self).spec_remaining().len() > 0 ==> r is Some && outcome(r->Some_0) == old(
                self,
            ).spec_remaining()[0] && final(self).spec_remaining() == old(
                self,
            ).spec_remaining().skip(1),
    ;
}

} // verus!
