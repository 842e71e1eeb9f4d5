//! Open options: the flags with which a file is opened, and the builder
//! that sets them one by one.

use crate::error::{outcome, FsError};
use crate::traits::file_system::UniFs;
use vstd::prelude::*;

verus! {

/// How a file is to be opened.
#[derive(Debug, Clone, Copy, PartialEq, Eq, Structural)]
pub struct OpenFlags {
    /// Open for reading.
    pub read: bool,
    /// Open for writing.
    pub write: bool,
    /// Write at the end of the file, wherever the cursor is.
    pub append: bool,
    /// Empty the file if it exists.
    pub truncate: bool,
    /// Create the file if it does not exist.
    pub create: bool,
    /// Create the file, and fail if it exists.
    pub create_new: bool,
}

/// Every flag unset.
pub open spec fn no_flags() -> OpenFlags {
    OpenFlags {
        read: false,
        write: false,
        append: false,
        truncate: false,
        create: false,
        create_new: false,
    }
}

/// The flags of `open_file`: read.
pub open spec fn read_flags() -> OpenFlags {
    OpenFlags { read: true, ..no_flags() }
}

/// The flags of `create_file` and of `write`: write, create, truncate.
pub open spec fn create_flags() -> OpenFlags {
    OpenFlags { write: true, create: true, truncate: true, ..no_flags() }
}

/// The flags of `create_new_file`: read, write, and a file that must be
/// new.
pub open spec fn create_new_flags() -> OpenFlags {
    OpenFlags { read: true, write: true, create: true, create_new: true, ..no_flags() }
}

impl OpenFlags {
    /// Every flag unset.
    pub fn new() -> (f: OpenFlags)
        ensures
            f == no_flags(),
    {
        OpenFlags {
            read: false,
            write: false,
            append: false,
            truncate: false,
            create: false,
            create_new: false,
        }
    }
}

/// A builder of open options. Appending implies writing, and asking for a
/// new file implies creating it.
pub trait UniOpenOptions: Sized {
    /// The filesystem whose files these options open.
    type Fs: UniFs;

    /// The flags set so far.
    spec fn flags(&self) -> OpenFlags;

    /// Sets whether the file is opened for reading.
    fn read(&mut self, read: bool) -> (r: &mut Self)
        ensures
            *final(self) == *final(r),
            r.flags() == (OpenFlags { read, ..old(self).flags() }),
    ;

    /// Sets whether the file is opened for writing.
    fn write(&mut self, write: bool) -> (r: &mut Self)
        ensures
            *final(self) == *final(r),
            r.flags() == (OpenFlags { write, ..old(self).flags() }),
    ;

    /// Sets whether writes go to the end of the file.
    fn append(&mut self, append: bool) -> (r: &mut Self)
        ensures
            *final(self) == *final(r),
            r.flags() == (OpenFlags {
                append,
                write: old(self).flags().write || append,
                ..old(self).flags()
            }),
    ;

    /// Sets whether an existing file is emptied when it is opened.
    fn truncate(&mut self, truncate: bool) -> (r: &mut Self)
        ensures
            *final(self) == *final(r),
            r.flags() == (OpenFlags { truncate, ..old(self).flags() }),
    ;

    /// Sets whether a missing file is created.
    fn create(&mut self, create: bool) -> (r: &mut Self)
        ensures
            *final(self) == *final(r),
            r.flags() == (OpenFlags { create, ..old(self).flags() }),
    ;

    /// Sets whether the file must be new.
    fn create_new(&mut self, create_new: bool) -> (r: &mut Self)
        ensures
            *final(self) == *final(r),
            r.flags() == (OpenFlags {
                create_new,
                create: old(self).flags().create || create_new,
                ..old(self).flags()
            }),
    ;

    /// Opens the file at `path` on `fs` as the flags say.
    fn open(&self, fs: &mut Self::Fs, path: &str) -> (r: Result<<Self::Fs as UniFs>::File, FsError>)
        requires
            old(fs).inv(),
        ensures
            final(fs).inv(),
            old(fs).open_post(self.flags(), path@, final(fs), outcome(r)),
    ;
}

} // verus!
