//! A filesystem shared between handles. Each handle is cheap to duplicate,
//! and all duplicates work on one filesystem behind one reader-writer lock:
//! every operation holds the lock for its whole duration, so no caller ever
//! sees another's operation half done.
//!
//! Between two operations of one handle another handle may have changed
//! the filesystem. So each operation promises what the backend promises of
//! it, on some filesystem that satisfied the backend's invariant.
//!
//! For the same reason a handle is no `UniFs` itself: the laws of that
//! contract relate what one operation left to what the next one finds,
//! and of a shared filesystem that holds only while no other handle acts.
//! The lock is not re-entrant, and no operation takes it twice: what runs
//! inside the lock is one operation of the backend, and a backend cannot
//! hold a handle on itself.

use crate::error::{bytes_outcome, decoded, outcome, text_outcome, ErrorKind, FsError};
use crate::rw_lock::{share, FsLock};
use crate::traits::file::{SeekFrom, UniFile};
use crate::traits::file_system::UniFs;
use crate::traits::open_options::OpenFlags;
use std::sync::Arc;
use vstd::prelude::*;

verus! {

/// A handle on a shared filesystem.
#[verifier::reject_recursive_types(FS)]
pub struct SharedFs<FS: UniFs> {
    inner: Arc<FsLock<FS>>,
}

impl<FS: UniFs> Clone for SharedFs<FS> {
    /// Another handle on the same filesystem.
    fn clone(&self) -> (r: Self)
        ensures
            r == *self,
    {
        SharedFs { inner: share(&self.inner) }
    }
}

impl<FS: UniFs> SharedFs<FS> {
    /// Shares `fs`.
    pub fn new(fs: FS) -> (r: Self)
        requires
            fs.inv(),
    {
        SharedFs { inner: Arc::new(FsLock::new(fs)) }
    }

    /// The canonical, absolute form of a path, with links resolved.
    pub fn canonicalize(&self, path: &str) -> (r: Result<String, FsError>)
        ensures
            exists|fs: FS| fs.inv() && text_outcome(r) == #[trigger] fs.canonicalize_spec(path@),
    {
        self.inner.read(
            |fs: &FS| -> (r: Result<String, FsError>)
                requires
                    fs.inv(),
                ensures
                    text_outcome(r) == fs.canonicalize_spec(path@)
                { fs.canonicalize(path) },
        )
    }

    /// Whether the path points at an existing entry.
    pub fn try_exists(&self, path: &str) -> (r: Result<bool, FsError>)
        ensures
            exists|fs: FS| fs.inv() && outcome(r) == #[trigger] fs.exists_spec(path@),
    {
        self.inner.read(
            |fs: &FS| -> (r: Result<bool, FsError>)
                requires
                    fs.inv(),
                ensures
                    outcome(r) == fs.exists_spec(path@)
                { fs.try_exists(path) },
        )
    }

    /// The metadata of the entry at the path.
    pub fn metadata(&self, path: &str) -> (r: Result<FS::Metadata, FsError>)
        ensures
            exists|fs: FS| fs.inv() && outcome(r) == #[trigger] fs.metadata_spec(path@),
    {
        self.inner.read(
            |fs: &FS| -> (r: Result<FS::Metadata, FsError>)
                requires
                    fs.inv(),
                ensures
                    outcome(r) == fs.metadata_spec(path@)
                { fs.metadata(path) },
        )
    }

    /// The whole content of a file.
    pub fn read(&self, path: &str) -> (r: Result<Vec<u8>, FsError>)
        ensures
            exists|fs: FS| fs.inv() && bytes_outcome(r) == #[trigger] fs.read_spec(path@),
    {
        self.inner.read(
            |fs: &FS| -> (r: Result<Vec<u8>, FsError>)
                requires
                    fs.inv(),
                ensures
                    bytes_outcome(r) == fs.read_spec(path@)
                { fs.read(path) },
        )
    }

    /// The whole content of a file, as text.
    pub fn read_to_string(&self, path: &str) -> (r: Result<String, FsError>)
        ensures
            exists|fs: FS| fs.inv() && text_outcome(r) == decoded(#[trigger] fs.read_spec(path@)),
    {
        self.inner.read(
            |fs: &FS| -> (r: Result<String, FsError>)
                requires
                    fs.inv(),
                ensures
                    text_outcome(r) == decoded(fs.read_spec(path@))
                { fs.read_to_string(path) },
        )
    }

    /// The entries of a directory, as they stood at the call.
    pub fn read_dir(&self, path: &str) -> (r: Result<FS::ReadDir, FsError>)
        ensures
            exists|fs: FS| fs.inv() && #[trigger] fs.read_dir_post(path@, outcome(r)),
    {
        self.inner.read(
            |fs: &FS| -> (r: Result<FS::ReadDir, FsError>)
                requires
                    fs.inv(),
                ensures
                    fs.read_dir_post(path@, outcome(r))
                { fs.read_dir(path) },
        )
    }

    /// The path that a symbolic link points to.
    pub fn read_link(&self, path: &str) -> (r: Result<String, FsError>)
        ensures
            exists|fs: FS| fs.inv() && text_outcome(r) == #[trigger] fs.read_link_spec(path@),
    {
        self.inner.read(
            |fs: &FS| -> (r: Result<String, FsError>)
                requires
                    fs.inv(),
                ensures
                    text_outcome(r) == fs.read_link_spec(path@)
                { fs.read_link(path) },
        )
    }

    /// The metadata of the entry at the path, without following a final
    /// symbolic link.
    pub fn symlink_metadata(&self, path: &str) -> (r: Result<FS::Metadata, FsError>)
        ensures
            exists|fs: FS| fs.inv() && outcome(r) == #[trigger] fs.symlink_metadata_spec(path@),
    {
        self.inner.read(
            |fs: &FS| -> (r: Result<FS::Metadata, FsError>)
                requires
                    fs.inv(),
                ensures
                    outcome(r) == fs.symlink_metadata_spec(path@)
                { fs.symlink_metadata(path) },
        )
    }

    /// Copies the content of one file to another and returns the number of
    /// bytes.
    pub fn copy(&self, from: &str, to: &str) -> (r: Result<u64, FsError>)
        ensures
            exists|pre: FS, post: FS|
                pre.inv() && post.inv() && #[trigger] pre.copy_post(from@, to@, &post, outcome(r)),
    {
        self.inner.write(
            |fs: &mut FS| -> (r: Result<u64, FsError>)
                requires
                    old(fs).inv(),
                ensures
                    final(fs).inv(),
                    old(fs).copy_post(from@, to@, final(fs), outcome(r))
                { fs.copy(from, to) },
        )
    }

    /// Makes a new, empty directory.
    pub fn create_dir(&self, path: &str) -> (r: Result<(), FsError>)
        ensures
            exists|pre: FS, post: FS|
                pre.inv() && post.inv() && #[trigger] pre.create_dir_post(path@, &post, outcome(r)),
    {
        self.inner.write(
            |fs: &mut FS| -> (r: Result<(), FsError>)
                requires
                    old(fs).inv(),
                ensures
                    final(fs).inv(),
                    old(fs).create_dir_post(path@, final(fs), outcome(r))
                { fs.create_dir(path) },
        )
    }

    /// Makes a directory and every directory missing above it.
    pub fn create_dir_all(&self, path: &str) -> (r: Result<(), FsError>)
        ensures
            exists|pre: FS, post: FS|
                pre.inv() && post.inv() && #[trigger] pre.build_dir_post(
                    true,
                    path@,
                    &post,
                    outcome(r),
                ),
    {
        self.inner.write(
            |fs: &mut FS| -> (r: Result<(), FsError>)
                requires
                    old(fs).inv(),
                ensures
                    final(fs).inv(),
                    old(fs).build_dir_post(true, path@, final(fs), outcome(r))
                { fs.create_dir_all(path) },
        )
    }

    /// Makes `link` a hard link to `original`.
    pub fn hard_link(&self, original: &str, link: &str) -> (r: Result<(), FsError>)
        ensures
            exists|pre: FS, post: FS|
                pre.inv() && post.inv() && #[trigger] pre.hard_link_post(
                    original@,
                    link@,
                    &post,
                    outcome(r),
                ),
    {
        self.inner.write(
            |fs: &mut FS| -> (r: Result<(), FsError>)
                requires
                    old(fs).inv(),
                ensures
                    final(fs).inv(),
                    old(fs).hard_link_post(original@, link@, final(fs), outcome(r))
                { fs.hard_link(original, link) },
        )
    }

    /// Removes an empty directory.
    pub fn remove_dir(&self, path: &str) -> (r: Result<(), FsError>)
        ensures
            exists|pre: FS, post: FS|
                pre.inv() && post.inv() && #[trigger] pre.remove_dir_post(path@, &post, outcome(r)),
    {
        self.inner.write(
            |fs: &mut FS| -> (r: Result<(), FsError>)
                requires
                    old(fs).inv(),
                ensures
                    final(fs).inv(),
                    old(fs).remove_dir_post(path@, final(fs), outcome(r))
                { fs.remove_dir(path) },
        )
    }

    /// Removes a directory after removing everything in it.
    pub fn remove_dir_all(&self, path: &str) -> (r: Result<(), FsError>)
        ensures
            exists|pre: FS, post: FS|
                pre.inv() && post.inv() && #[trigger] pre.remove_dir_all_post(
                    path@,
                    &post,
                    outcome(r),
                ),
    {
        self.inner.write(
            |fs: &mut FS| -> (r: Result<(), FsError>)
                requires
                    old(fs).inv(),
                ensures
                    final(fs).inv(),
                    old(fs).remove_dir_all_post(path@, final(fs), outcome(r))
                { fs.remove_dir_all(path) },
        )
    }

    /// Removes a file.
    pub fn remove_file(&self, path: &str) -> (r: Result<(), FsError>)
        ensures
            exists|pre: FS, post: FS|
                pre.inv() && post.inv() && #[trigger] pre.remove_file_post(path@, &post, outcome(r)),
    {
        self.inner.write(
            |fs: &mut FS| -> (r: Result<(), FsError>)
                requires
                    old(fs).inv(),
                ensures
                    final(fs).inv(),
                    old(fs).remove_file_post(path@, final(fs), outcome(r))
                { fs.remove_file(path) },
        )
    }

    /// Renames a file or directory.
    pub fn rename(&self, from: &str, to: &str) -> (r: Result<(), FsError>)
        ensures
            exists|pre: FS, post: FS|
                pre.inv() && post.inv() && #[trigger] pre.rename_post(from@, to@, &post, outcome(r)),
    {
        self.inner.write(
            |fs: &mut FS| -> (r: Result<(), FsError>)
                requires
                    old(fs).inv(),
                ensures
                    final(fs).inv(),
                    old(fs).rename_post(from@, to@, final(fs), outcome(r))
                { fs.rename(from, to) },
        )
    }

    /// Changes the permissions of an entry.
    pub fn set_permissions(&self, path: &str, perm: FS::Permissions) -> (r: Result<(), FsError>)
        ensures
            exists|pre: FS, post: FS|
                pre.inv() && post.inv() && #[trigger] pre.set_permissions_post(
                    path@,
                    perm,
                    &post,
                    outcome(r),
                ),
    {
        self.inner.write(
            |fs: &mut FS| -> (r: Result<(), FsError>)
                requires
                    old(fs).inv(),
                ensures
                    final(fs).inv(),
                    old(fs).set_permissions_post(path@, perm, final(fs), outcome(r))
                { fs.set_permissions(path, perm) },
        )
    }

    /// Makes `contents` the whole content of a file, creating the file if
    /// need be.
    pub fn write(&self, path: &str, contents: &[u8]) -> (r: Result<(), FsError>)
        ensures
            exists|pre: FS, post: FS|
                pre.inv() && post.inv() && #[trigger] pre.write_post(
                    path@,
                    contents@,
                    &post,
                    outcome(r),
                ),
    {
        self.inner.write(
            |fs: &mut FS| -> (r: Result<(), FsError>)
                requires
                    old(fs).inv(),
                ensures
                    final(fs).inv(),
                    old(fs).write_post(path@, contents@, final(fs), outcome(r))
                { fs.write(path, contents) },
        )
    }

    /// Opens a file as the flags say. The handle is used through
    /// `file_read`, `file_write`, `file_seek` and `file_set_len`.
    pub fn open_with(&self, flags: OpenFlags, path: &str) -> (r: Result<FS::File, FsError>)
        ensures
            exists|pre: FS, post: FS|
                pre.inv() && post.inv() && #[trigger] pre.open_post(
                    flags,
                    path@,
                    &post,
                    outcome(r),
                ),
    {
        self.inner.write(
            |fs: &mut FS| -> (r: Result<FS::File, FsError>)
                requires
                    old(fs).inv(),
                ensures
                    final(fs).inv(),
                    old(fs).open_post(flags, path@, final(fs), outcome(r))
                { fs.open_with(flags, path) },
        )
    }
}

/// What a write returned: the number of bytes written, or the kind of the
/// error.
pub open spec fn written(r: Result<usize, FsError>) -> Result<nat, ErrorKind> {
    match r {
        Ok(n) => Ok(n as nat),
        Err(e) => Err(e.kind()),
    }
}

/// What a seek returned: the new position, or the kind of the error.
pub open spec fn position(r: Result<u64, FsError>) -> Result<nat, ErrorKind> {
    match r {
        Ok(n) => Ok(n as nat),
        Err(e) => Err(e.kind()),
    }
}

/// A buffer of `len` zeros.
fn zeros(len: usize) -> (buf: Vec<u8>)
    ensures
        buf@.len() == len,
{
    let mut buf: Vec<u8> = Vec::new();
    while buf.len() < len
        invariant
            buf@.len() <= len,
        decreases len - buf@.len(),
    {
        buf.push(0u8);
    }
    buf
}

impl<FS: UniFs> SharedFs<FS> where FS::File: UniFile<Fs = FS> {
    /// Reads up to `len` bytes through an open file and returns them.
    pub fn file_read(&self, file: &FS::File, len: usize) -> (r: Result<Vec<u8>, FsError>)
        ensures
            exists|pre: FS, post: FS|
                pre.inv() && post.inv() && #[trigger] file.read_post(
                    &pre,
                    len as nat,
                    &post,
                    bytes_outcome(r),
                ),
    {
        self.inner.write(
            |fs: &mut FS| -> (r: Result<Vec<u8>, FsError>)
                requires
                    old(fs).inv(),
                ensures
                    final(fs).inv(),
                    file.read_post(old(fs), len as nat, final(fs), bytes_outcome(r))
                {
                    let mut buf = zeros(len);
                    match file.read(fs, &mut buf) {
                        Ok(n) => {
                            buf.truncate(n);
                            assert(buf@ =~= buf@.take(n as int));
                            Ok(buf)
                        },
                        Err(e) => Err(e),
                    }
                },
        )
    }

    /// Writes `bytes` through an open file and returns how many were
    /// written.
    pub fn file_write(&self, file: &FS::File, bytes: &[u8]) -> (r: Result<usize, FsError>)
        ensures
            exists|pre: FS, post: FS|
                pre.inv() && post.inv() && #[trigger] file.write_post(
                    &pre,
                    bytes@,
                    &post,
                    written(r),
                ),
    {
        self.inner.write(
            |fs: &mut FS| -> (r: Result<usize, FsError>)
                requires
                    old(fs).inv(),
                ensures
                    final(fs).inv(),
                    file.write_post(
                        old(fs),
                        bytes@,
                        final(fs),
                        written(r),
                    )
                { file.write(fs, bytes) },
        )
    }

    /// Moves the cursor of an open file. Returns the handle as the seek
    /// left it, and the new position.
    pub fn file_seek(&self, file: FS::File, pos: SeekFrom) -> (r: (FS::File, Result<u64, FsError>))
        ensures
            exists|pre: FS, post: FS|
                pre.inv() && post.inv() && #[trigger] file.seek_post(
                    &pre,
                    pos,
                    &r.0,
                    &post,
                    position(r.1),
                ),
    {
        self.inner.write(
            |fs: &mut FS| -> (r: (FS::File, Result<u64, FsError>))
                requires
                    old(fs).inv(),
                ensures
                    final(fs).inv(),
                    file.seek_post(
                        old(fs),
                        pos,
                        &r.0,
                        final(fs),
                        position(r.1),
                    )
                {
                    let mut moved = file;
                    let at = moved.seek(fs, pos);
                    (moved, at)
                },
        )
    }

    /// Cuts the file behind an open file, or extends it with zeros, to
    /// `size` bytes.
    pub fn file_set_len(&self, file: &FS::File, size: u64) -> (r: Result<(), FsError>)
        ensures
            exists|pre: FS, post: FS|
                pre.inv() && post.inv() && #[trigger] file.set_len_post(
                    &pre,
                    size,
                    &post,
                    outcome(r),
                ),
    {
        self.inner.write(
            |fs: &mut FS| -> (r: Result<(), FsError>)
                requires
                    old(fs).inv(),
                ensures
                    final(fs).inv(),
                    file.set_len_post(old(fs), size, final(fs), outcome(r))
                { file.set_len(fs, size) },
        )
    }

    /// The metadata of an open file.
    pub fn file_metadata(&self, file: &FS::File) -> (r: Result<
        <FS::File as UniFile>::Metadata,
        FsError,
    >)
        ensures
            exists|fs: FS| fs.inv() && outcome(r) == #[trigger] file.metadata_spec(&fs),
    {
        self.inner.read(
            |fs: &FS| -> (r: Result<<FS::File as UniFile>::Metadata, FsError>)
                requires
                    fs.inv(),
                ensures
                    outcome(r) == file.metadata_spec(fs)
                { file.metadata(fs) },
        )
    }
}

} // verus!
