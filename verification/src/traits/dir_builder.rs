//! The directory builder.

use crate::error::{outcome, FsError};
use crate::traits::file_system::UniFs;
use vstd::prelude::*;

verus! {

/// A builder of directories: alone, or with every directory missing above.
pub trait UniDirBuilder: Sized {
    /// The filesystem on which the directories are made.
    type Fs: UniFs;

    /// Whether the directories missing above the target are made too.
    spec fn is_recursive(&self) -> bool;

    /// Sets whether the directories missing above the target are made too.
    fn recursive(&mut self, recursive: bool) -> (r: &mut Self)
        ensures
            *final(self) == *final(r),
            r.is_recursive() == recursive,
    ;

    /// Makes the directory at `path` on `fs`.
    fn create(&self, fs: &mut Self::Fs, path: &str) -> (r: Result<(), FsError>)
        requires
            old(fs).inv(),
        ensures
            final(fs).inv(),
            old(fs).build_dir_post(self.is_recursive(), path@, final(fs), outcome(r)),
    ;
}

} // verus!
