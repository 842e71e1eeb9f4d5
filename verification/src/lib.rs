//! A filesystem abstraction with interchangeable backends: an in-memory
//! engine, a two-layer overlay, and thin decorators, all behind one
//! operation contract.

use std::time::SystemTime;
use vstd::prelude::*;

pub mod altroot_fs;
pub mod archive;
pub mod components;
pub mod error;
pub mod memory_fs;
pub mod path;
pub mod readonly_fs;
pub mod rw_lock;
pub mod shared_fs;
pub mod stacked_fs;
pub mod time;
pub mod traits;

pub use altroot_fs::AltrootFs;
pub use error::{ErrorKind, FsError};
pub use memory_fs::MemoryFs;
pub use readonly_fs::ReadonlyFs;
pub use shared_fs::SharedFs;
pub use stacked_fs::StackedFs;
pub use traits::dir_builder::UniDirBuilder;
pub use traits::file::{SeekFrom, UniFile};
pub use traits::file_system::UniFs;
pub use traits::file_system_ext::UniFsExt;
pub use traits::open_options::{OpenFlags, UniOpenOptions};
pub use traits::{
    UniDirEntry, UniFileTimes, UniFileType, UniMetadata, UniPermissions, UniReadDir,
};

verus! {

/// The kind of an entry as seen through the operation contract.
#[derive(Debug, Clone, Copy, PartialEq, Eq, Structural)]
pub enum FileType {
    /// A directory.
    Directory,
    /// A regular file.
    File,
    /// A link to another path.
    Symlink,
}

impl UniFileType for FileType {
    open spec fn spec_is_dir(&self) -> bool {
        *self == FileType::Directory
    }

    open spec fn spec_is_file(&self) -> bool {
        *self == FileType::File
    }

    open spec fn spec_is_symlink(&self) -> bool {
        *self == FileType::Symlink
    }

    proof fn lemma_exclusive(&self) {
    }

    fn is_dir(&self) -> (b: bool) {
        assert(self.spec_is_dir() == (*self == FileType::Directory));
        matches!(self, FileType::Directory)
    }

    fn is_file(&self) -> (b: bool) {
        assert(self.spec_is_file() == (*self == FileType::File));
        matches!(self, FileType::File)
    }

    fn is_symlink(&self) -> (b: bool) {
        assert(self.spec_is_symlink() == (*self == FileType::Symlink));
        matches!(self, FileType::Symlink)
    }
}

/// The permissions of an entry: a single read-only flag.
#[derive(Debug, Clone, Copy, PartialEq, Eq, Structural)]
pub struct Permissions {
    pub readonly: bool,
}

impl UniPermissions for Permissions {
    open spec fn spec_readonly(&self) -> bool {
        self.readonly
    }

    open spec fn spec_fixed(&self) -> bool {
        false
    }

    fn readonly(&self) -> (b: bool) {
        self.readonly
    }

    fn set_readonly(&mut self, readonly: bool) {
        self.readonly = readonly;
    }
}

/// The timestamps of an entry. Creation time is always known; the other two
/// are set by the first operation that records them.
#[derive(Debug, Clone, Copy)]
pub struct FileTimes {
    pub created: SystemTime,
    pub modified: Option<SystemTime>,
    pub accessed: Option<SystemTime>,
}

impl FileTimes {
    /// Timestamps of something created at `created` and not touched since.
    pub fn new(created: SystemTime) -> (t: FileTimes)
        ensures
            t == (FileTimes { created, modified: None, accessed: None }),
    {
        FileTimes { created, modified: None, accessed: None }
    }
}

impl Default for FileTimes {
    /// Timestamps of something created now and not touched since.
    fn default() -> (t: FileTimes)
        ensures
            t.modified is None,
            t.accessed is None,
    {
        FileTimes::new(crate::time::now())
    }
}

impl UniFileTimes for FileTimes {
    open spec fn spec_accessed(&self) -> Option<SystemTime> {
        self.accessed
    }

    open spec fn spec_modified(&self) -> Option<SystemTime> {
        self.modified
    }

    fn set_accessed(self, t: SystemTime) -> (r: FileTimes)
        ensures
            r == (FileTimes { accessed: Some(t), ..self }),
    {
        FileTimes { accessed: Some(t), ..self }
    }

    fn set_modified(self, t: SystemTime) -> (r: FileTimes)
        ensures
            r == (FileTimes { modified: Some(t), ..self }),
    {
        FileTimes { modified: Some(t), ..self }
    }
}

} // verus!
