//! What a stacked filesystem hands out: metadata, permissions, file types,
//! directory entries, listings, open files, timestamps and builders, each
//! tagged with the backend it comes from and doing what that backend's
//! value does.

use crate::error::{ErrorKind, FsError};
use crate::stacked_fs::{
    remount, remounted, StackedDirBuilder, StackedDirEntry, StackedFile, StackedFileTimes,
    StackedFileType, StackedFs, StackedMetadata, StackedOpenOptions, StackedPermissions,
    StackedReadDir,
};
use crate::traits::dir_builder::UniDirBuilder;

use crate::traits::file_system::UniFs;
use crate::traits::open_options::{OpenFlags, UniOpenOptions};
use crate::traits::{
    UniDirEntry, UniFileTimes, UniFileType, UniMetadata, UniPermissions, UniReadDir,
};
use crate::FileTimes;
use std::time::SystemTime;
use vstd::prelude::*;

verus! {

impl<B: UniMetadata, O: UniMetadata> UniFileType for StackedFileType<B, O> {
    open spec fn spec_is_dir(&self) -> bool {
        match self {
            StackedFileType::Base(t) => t.spec_is_dir(),
            StackedFileType::Overlay(t) => t.spec_is_dir(),
        }
    }

    open spec fn spec_is_file(&self) -> bool {
        match self {
            StackedFileType::Base(t) => t.spec_is_file(),
            StackedFileType::Overlay(t) => t.spec_is_file(),
        }
    }

    open spec fn spec_is_symlink(&self) -> bool {
        match self {
            StackedFileType::Base(t) => t.spec_is_symlink(),
            StackedFileType::Overlay(t) => t.spec_is_symlink(),
        }
    }

    proof fn lemma_exclusive(&self) {
        match self {
            StackedFileType::Base(t) => t.lemma_exclusive(),
            StackedFileType::Overlay(t) => t.lemma_exclusive(),
        }
    }

    fn is_dir(&self) -> (b: bool) {
        match self {
            StackedFileType::Base(t) => t.is_dir(),
            StackedFileType::Overlay(t) => t.is_dir(),
        }
    }

    fn is_file(&self) -> (b: bool) {
        match self {
            StackedFileType::Base(t) => t.is_file(),
            StackedFileType::Overlay(t) => t.is_file(),
        }
    }

    fn is_symlink(&self) -> (b: bool) {
        match self {
            StackedFileType::Base(t) => t.is_symlink(),
            StackedFileType::Overlay(t) => t.is_symlink(),
        }
    }
}

impl<B: UniPermissions, O: UniPermissions> UniPermissions for StackedPermissions<B, O> {
    open spec fn spec_readonly(&self) -> bool {
        match self {
            StackedPermissions::Base(p) => p.spec_readonly(),
            StackedPermissions::Overlay(p) => p.spec_readonly(),
        }
    }

    open spec fn spec_fixed(&self) -> bool {
        match self {
            StackedPermissions::Base(p) => p.spec_fixed(),
            StackedPermissions::Overlay(p) => p.spec_fixed(),
        }
    }

    fn readonly(&self) -> (b: bool) {
        match self {
            StackedPermissions::Base(p) => p.readonly(),
            StackedPermissions::Overlay(p) => p.readonly(),
        }
    }

    fn set_readonly(&mut self, readonly: bool)
        ensures
            *old(self) is Base == *final(self) is Base,
    {
        match self {
            StackedPermissions::Base(p) => p.set_readonly(readonly),
            StackedPermissions::Overlay(p) => p.set_readonly(readonly),
        }
    }
}

impl<B: UniFileTimes, O: UniFileTimes> UniFileTimes for StackedFileTimes<B, O> {
    open spec fn spec_accessed(&self) -> Option<SystemTime> {
        match self {
            StackedFileTimes::Base(t) => t.spec_accessed(),
            StackedFileTimes::Overlay(t) => t.spec_accessed(),
        }
    }

    open spec fn spec_modified(&self) -> Option<SystemTime> {
        match self {
            StackedFileTimes::Base(t) => t.spec_modified(),
            StackedFileTimes::Overlay(t) => t.spec_modified(),
        }
    }

    fn set_accessed(self, t: SystemTime) -> (r: Self)
        ensures
            self is Base == r is Base,
    {
        match self {
            StackedFileTimes::Base(times) => StackedFileTimes::Base(times.set_accessed(t)),
            StackedFileTimes::Overlay(times) => StackedFileTimes::Overlay(times.set_accessed(t)),
        }
    }

    fn set_modified(self, t: SystemTime) -> (r: Self)
        ensures
            self is Base == r is Base,
    {
        match self {
            StackedFileTimes::Base(times) => StackedFileTimes::Base(times.set_modified(t)),
            StackedFileTimes::Overlay(times) => StackedFileTimes::Overlay(times.set_modified(t)),
        }
    }
}

impl<B: UniMetadata, O: UniMetadata> UniMetadata for StackedMetadata<B, O> {
    type Permissions = StackedPermissions<B::Permissions, O::Permissions>;

    type FileType = StackedFileType<B, O>;

    open spec fn spec_file_type(&self) -> Self::FileType {
        match self {
            StackedMetadata::Base(m) => StackedFileType::Base(m.spec_file_type()),
            StackedMetadata::Overlay { data, .. } => StackedFileType::Overlay(data.spec_file_type()),
        }
    }

    open spec fn spec_len(&self) -> u64 {
        match self {
            StackedMetadata::Base(m) => m.spec_len(),
            StackedMetadata::Overlay { data, .. } => data.spec_len(),
        }
    }

    open spec fn spec_permissions(&self) -> Self::Permissions {
        match self {
            StackedMetadata::Base(m) => StackedPermissions::Base(m.spec_permissions()),
            StackedMetadata::Overlay { data, .. } => StackedPermissions::Overlay(
                data.spec_permissions(),
            ),
        }
    }

    open spec fn spec_times(&self) -> FileTimes {
        match self {
            StackedMetadata::Base(m) => m.spec_times(),
            StackedMetadata::Overlay { data, .. } => data.spec_times(),
        }
    }

    fn file_type(&self) -> (t: Self::FileType) {
        match self {
            StackedMetadata::Base(m) => StackedFileType::Base(m.file_type()),
            StackedMetadata::Overlay { data, .. } => StackedFileType::Overlay(data.file_type()),
        }
    }

    fn is_dir(&self) -> (b: bool) {
        match self {
            StackedMetadata::Base(m) => m.is_dir(),
            StackedMetadata::Overlay { data, .. } => data.is_dir(),
        }
    }

    fn is_file(&self) -> (b: bool) {
        match self {
            StackedMetadata::Base(m) => m.is_file(),
            StackedMetadata::Overlay { data, .. } => data.is_file(),
        }
    }

    fn is_symlink(&self) -> (b: bool) {
        match self {
            StackedMetadata::Base(m) => m.is_symlink(),
            StackedMetadata::Overlay { data, .. } => data.is_symlink(),
        }
    }

    fn len(&self) -> (n: u64) {
        match self {
            StackedMetadata::Base(m) => m.len(),
            StackedMetadata::Overlay { data, .. } => data.len(),
        }
    }

    fn permissions(&self) -> (p: Self::Permissions) {
        match self {
            StackedMetadata::Base(m) => StackedPermissions::Base(m.permissions()),
            StackedMetadata::Overlay { data, .. } => StackedPermissions::Overlay(
                data.permissions(),
            ),
        }
    }

    fn modified(&self) -> (r: Result<SystemTime, FsError>) {
        match self {
            StackedMetadata::Base(m) => m.modified(),
            StackedMetadata::Overlay { data, .. } => data.modified(),
        }
    }

    fn accessed(&self) -> (r: Result<SystemTime, FsError>) {
        match self {
            StackedMetadata::Base(m) => m.accessed(),
            StackedMetadata::Overlay { data, .. } => data.accessed(),
        }
    }

    fn created(&self) -> (r: Result<SystemTime, FsError>) {
        match self {
            StackedMetadata::Base(m) => m.created(),
            StackedMetadata::Overlay { data, .. } => data.created(),
        }
    }
}

impl<B: UniDirEntry, O: UniDirEntry> UniDirEntry for StackedDirEntry<B, O> {
    type Metadata = StackedMetadata<B::Metadata, O::Metadata>;

    type FileType = StackedFileType<B::Metadata, O::Metadata>;

    open spec fn spec_path(&self) -> Seq<char> {
        match self {
            StackedDirEntry::Base(e) => e.spec_path(),
            StackedDirEntry::Overlay { data, mount_point } => remounted(
                mount_point@,
                data.spec_path(),
            ),
        }
    }

    open spec fn spec_file_name(&self) -> Seq<char> {
        match self {
            StackedDirEntry::Base(e) => e.spec_file_name(),
            StackedDirEntry::Overlay { data, .. } => data.spec_file_name(),
        }
    }

    open spec fn spec_metadata(&self) -> Result<Self::Metadata, ErrorKind> {
        match self {
            StackedDirEntry::Base(e) => match e.spec_metadata() {
                Ok(m) => Ok(StackedMetadata::Base(m)),
                Err(k) => Err(k),
            },
            StackedDirEntry::Overlay { data, mount_point } => match data.spec_metadata() {
                Ok(m) => Ok(StackedMetadata::Overlay { data: m, mount_point: *mount_point }),
                Err(k) => Err(k),
            },
        }
    }

    open spec fn spec_file_type(&self) -> Result<Self::FileType, ErrorKind> {
        match self {
            StackedDirEntry::Base(e) => match e.spec_file_type() {
                Ok(t) => Ok(StackedFileType::Base(t)),
                Err(k) => Err(k),
            },
            StackedDirEntry::Overlay { data, .. } => match data.spec_file_type() {
                Ok(t) => Ok(StackedFileType::Overlay(t)),
                Err(k) => Err(k),
            },
        }
    }

    fn path(&self) -> (p: String) {
        match self {
            StackedDirEntry::Base(e) => e.path(),
            StackedDirEntry::Overlay { data, mount_point } => remount(
                mount_point.as_str(),
                data.path().as_str(),
            ),
        }
    }

    fn metadata(&self) -> (r: Result<Self::Metadata, FsError>) {
        match self {
            StackedDirEntry::Base(e) => match e.metadata() {
                Ok(m) => Ok(StackedMetadata::Base(m)),
                Err(e) => Err(e),
            },
            StackedDirEntry::Overlay { data, mount_point } => match data.metadata() {
                Ok(m) => Ok(StackedMetadata::Overlay { data: m, mount_point: mount_point.clone() }),
                Err(e) => Err(e),
            },
        }
    }

    fn file_type(&self) -> (r: Result<Self::FileType, FsError>) {
        match self {
            StackedDirEntry::Base(e) => match e.file_type() {
                Ok(t) => Ok(StackedFileType::Base(t)),
                Err(e) => Err(e),
            },
            StackedDirEntry::Overlay { data, .. } => match data.file_type() {
                Ok(t) => Ok(StackedFileType::Overlay(t)),
                Err(e) => Err(e),
            },
        }
    }

    fn file_name(&self) -> (n: String) {
        match self {
            StackedDirEntry::Base(e) => e.file_name(),
            StackedDirEntry::Overlay { data, .. } => data.file_name(),
        }
    }
}

/// An entry of the base's listing, as an entry of the stacked listing.
pub open spec fn from_base<B: UniDirEntry, O: UniDirEntry>(e: Result<B, ErrorKind>) -> Result<
    StackedDirEntry<B, O>,
    ErrorKind,
> {
    match e {
        Ok(e) => Ok(StackedDirEntry::Base(e)),
        Err(k) => Err(k),
    }
}

/// An entry of the overlay's listing, as an entry of the stacked listing.
pub open spec fn from_overlay<B: UniDirEntry, O: UniDirEntry>(
    e: Result<O, ErrorKind>,
    mount_point: String,
) -> Result<StackedDirEntry<B, O>, ErrorKind> {
    match e {
        Ok(e) => Ok(StackedDirEntry::Overlay { data: e, mount_point }),
        Err(k) => Err(k),
    }
}

impl<B: UniFs, O: UniFs> UniReadDir for StackedReadDir<B, O> {
    type DirEntry = StackedDirEntry<B::DirEntry, O::DirEntry>;

    open spec fn spec_remaining(&self) -> Seq<Result<Self::DirEntry, ErrorKind>> {
        match self {
            StackedReadDir::Base(d) => Seq::new(
                d.spec_remaining().len(),
                |i: int| from_base::<B::DirEntry, O::DirEntry>(d.spec_remaining()[i]),
            ),
            StackedReadDir::Overlay { data, mount_point } => Seq::new(
                data.spec_remaining().len(),
                |i: int|
                    from_overlay::<B::DirEntry, O::DirEntry>(
                        data.spec_remaining()[i],
                        *mount_point,
                    ),
            ),
        }
    }

    fn next(&mut self) -> (r: Option<Result<Self::DirEntry, FsError>>) {
        match self {
            StackedReadDir::Base(d) => {
                let r = match d.next() {
                    None => None,
                    Some(Ok(e)) => Some(Ok(StackedDirEntry::Base(e))),
                    Some(Err(e)) => Some(Err(e)),
                };
                proof {
                    if old(self).spec_remaining().len() > 0 {
                        assert(self.spec_remaining() =~= old(self).spec_remaining().skip(1));
                    }
                }
                r
            },
            StackedReadDir::Overlay { data, mount_point } => {
                let r = match data.next() {
                    None => None,
                    Some(Ok(e)) => Some(
                        Ok(StackedDirEntry::Overlay { data: e, mount_point: mount_point.clone() }),
                    ),
                    Some(Err(e)) => Some(Err(e)),
                };
                proof {
                    if old(self).spec_remaining().len() > 0 {
                        assert(self.spec_remaining() =~= old(self).spec_remaining().skip(1));
                    }
                }
                r
            },
        }
    }
}

impl<B: UniFs, O: UniFs> UniOpenOptions for StackedOpenOptions<B, O> {
    type Fs = StackedFs<B, O>;

    open spec fn flags(&self) -> OpenFlags {
        self.spec_flags()
    }

    fn read(&mut self, read: bool) -> (r: &mut Self) {
        self.flags.read = read;
        self
    }

    fn write(&mut self, write: bool) -> (r: &mut Self) {
        self.flags.write = write;
        self
    }

    fn append(&mut self, append: bool) -> (r: &mut Self) {
        self.flags.write = self.flags.write || append;
        self.flags.append = append;
        self
    }

    fn truncate(&mut self, truncate: bool) -> (r: &mut Self) {
        self.flags.truncate = truncate;
        self
    }

    fn create(&mut self, create: bool) -> (r: &mut Self) {
        self.flags.create = create;
        self
    }

    fn create_new(&mut self, create_new: bool) -> (r: &mut Self) {
        self.flags.create = self.flags.create || create_new;
        self.flags.create_new = create_new;
        self
    }

    fn open(&self, fs: &mut StackedFs<B, O>, path: &str) -> (r: Result<StackedFile<B, O>, FsError>) {
        fs.open_with(self.flags, path)
    }
}

impl<B: UniFs, O: UniFs> UniDirBuilder for StackedDirBuilder<B, O> {
    type Fs = StackedFs<B, O>;

    open spec fn is_recursive(&self) -> bool {
        self.spec_recursive()
    }

    fn recursive(&mut self, recursive: bool) -> (r: &mut Self) {
        self.recursive = recursive;
        self
    }

    fn create(&self, fs: &mut StackedFs<B, O>, path: &str) -> (r: Result<(), FsError>) {
        fs.build_dir(self.recursive, path)
    }
}

} // verus!
