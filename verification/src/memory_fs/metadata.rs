//! The metadata that the in-memory filesystem reports for an entry.

use crate::error::{ErrorKind, FsError};
use crate::traits::{UniFileType, UniMetadata};
use crate::{FileTimes, FileType, Permissions};
use std::time::SystemTime;
use vstd::prelude::*;

verus! {

/// The metadata of one entry, as it stood when it was asked for.
#[derive(Debug, Clone, Copy)]
pub struct MemoryMetadata {
    pub file_type: FileType,
    pub len: u64,
    pub permissions: Permissions,
    pub file_times: FileTimes,
}

impl UniMetadata for MemoryMetadata {
    type Permissions = Permissions;

    type FileType = FileType;

    open spec fn spec_file_type(&self) -> FileType {
        self.file_type
    }

    open spec fn spec_len(&self) -> u64 {
        self.len
    }

    open spec fn spec_permissions(&self) -> Permissions {
        self.permissions
    }

    open spec fn spec_times(&self) -> FileTimes {
        self.file_times
    }

    fn file_type(&self) -> (t: FileType) {
        self.file_type
    }

    fn is_dir(&self) -> (b: bool) {
        self.file_type.is_dir()
    }

    fn is_file(&self) -> (b: bool) {
        self.file_type.is_file()
    }

    fn is_symlink(&self) -> (b: bool) {
        self.file_type.is_symlink()
    }

    fn len(&self) -> (n: u64) {
        self.len
    }

    fn permissions(&self) -> (p: Permissions) {
        self.permissions
    }

    fn modified(&self) -> (r: Result<SystemTime, FsError>) {
        match self.file_times.modified {
            Some(t) => Ok(t),
            None => Err(FsError::new(ErrorKind::NotFound, "Modified time not set")),
        }
    }

    fn accessed(&self) -> (r: Result<SystemTime, FsError>) {
        match self.file_times.accessed {
            Some(t) => Ok(t),
            None => Err(FsError::new(ErrorKind::NotFound, "Accessed time not set")),
        }
    }

    fn created(&self) -> (r: Result<SystemTime, FsError>) {
        Ok(self.file_times.created)
    }
}

} // verus!
