//! Open files.

use crate::error::{outcome, ErrorKind, FsError};
use crate::traits::file_system::UniFs;
use crate::traits::{UniFileTimes, UniMetadata, UniPermissions};
use std::time::SystemTime;
use vstd::prelude::*;

verus! {

/// Where to move the cursor of an open file to.
#[derive(Debug, Clone, Copy)]
pub enum SeekFrom {
    /// So many bytes from the start.
    Start(u64),
    /// So many bytes from the end; negative is towards the start.
    End(i64),
    /// So many bytes from the cursor; negative is towards the start.
    Current(i64),
}

/// An open file. It belongs to the filesystem it was opened on, and every
/// operation that touches the file's bytes or its cursor takes that
/// filesystem.
///
/// What an operation may do is a relation between the filesystem before,
/// the arguments, the filesystem after and the result, named by a
/// specification function ending in `_post`.
pub trait UniFile: Sized {
    /// The filesystem that the file belongs to.
    type Fs: UniFs;

    /// The metadata of the file.
    type Metadata: UniMetadata;

    /// The permissions of the file.
    type Permissions: UniPermissions;

    /// The timestamps that can be set on the file.
    type FileTimes: UniFileTimes;

    /// `read`: `want` is the size of the buffer offered, and the result the
    /// bytes that were read.
    spec fn read_post(
        &self,
        pre: &Self::Fs,
        want: nat,
        post: &Self::Fs,
        r: Result<Seq<u8>, ErrorKind>,
    ) -> bool;

    /// `write`: the result is the number of bytes written.
    spec fn write_post(
        &self,
        pre: &Self::Fs,
        bytes: Seq<u8>,
        post: &Self::Fs,
        r: Result<nat, ErrorKind>,
    ) -> bool;

    /// `seek`: the result is the new position.
    spec fn seek_post(
        &self,
        pre: &Self::Fs,
        pos: SeekFrom,
        after: &Self,
        post: &Self::Fs,
        r: Result<nat, ErrorKind>,
    ) -> bool;

    /// `set_len`.
    spec fn set_len_post(
        &self,
        pre: &Self::Fs,
        size: u64,
        post: &Self::Fs,
        r: Result<(), ErrorKind>,
    ) -> bool;

    /// `metadata`.
    spec fn metadata_spec(&self, fs: &Self::Fs) -> Result<Self::Metadata, ErrorKind>;

    /// `set_permissions`.
    spec fn set_permissions_post(
        &self,
        pre: &Self::Fs,
        perm: Self::Permissions,
        post: &Self::Fs,
        r: Result<(), ErrorKind>,
    ) -> bool;

    /// `set_times`.
    spec fn set_times_post(
        &self,
        pre: &Self::Fs,
        times: Self::FileTimes,
        post: &Self::Fs,
        r: Result<(), ErrorKind>,
    ) -> bool;

    /// `set_modified`.
    spec fn set_modified_post(
        &self,
        pre: &Self::Fs,
        time: SystemTime,
        post: &Self::Fs,
        r: Result<(), ErrorKind>,
    ) -> bool;

    /// `other` is a handle on the same open file: it shares bytes and
    /// cursor with this one.
    spec fn same_file(&self, other: &Self) -> bool;

    /// `flush`: whether it succeeds, and how it fails.
    spec fn flush_post(&self, r: Result<(), ErrorKind>) -> bool;

    /// `sync_all`: whether it succeeds, and how it fails.
    spec fn sync_all_post(&self, r: Result<(), ErrorKind>) -> bool;

    /// `sync_data`: whether it succeeds, and how it fails.
    spec fn sync_data_post(&self, r: Result<(), ErrorKind>) -> bool;

    /// `try_clone`: whether it succeeds, which handle it gives, and how it
    /// fails.
    spec fn try_clone_post(&self, r: Result<Self, ErrorKind>) -> bool;

    /// Reads up to `buf.len()` bytes from the cursor on into the front of
    /// `buf`, moves the cursor past them, and returns how many there were.
    /// The rest of `buf` is left as it was. At the end of the file nothing
    /// is read, which is no error.
    fn read(&self, fs: &mut Self::Fs, buf: &mut Vec<u8>) -> (r: Result<usize, FsError>)
        requires
            old(fs).inv(),
        ensures
            final(fs).inv(),
            final(buf)@.len() == old(buf)@.len(),
            r is Ok ==> r->Ok_0 <= old(buf)@.len() && final(buf)@.skip(r->Ok_0 as int) == old(
                buf,
            )@.skip(r->Ok_0 as int) && self.read_post(
                old(fs),
                old(buf)@.len(),
                final(fs),
                Ok(final(buf)@.take(r->Ok_0 as int)),
            ),
            r is Err ==> final(buf)@ == old(buf)@ && self.read_post(
                old(fs),
                old(buf)@.len(),
                final(fs),
                Err(r->Err_0.kind()),
            ),
    ;

    /// Writes `buf` at the cursor, or at the end of the file where the
    /// handle appends, and returns how many bytes were written.
    fn write(&self, fs: &mut Self::Fs, buf: &[u8]) -> (r: Result<usize, FsError>)
        requires
            old(fs).inv(),
        ensures
            final(fs).inv(),
            r is Ok ==> self.write_post(old(fs), buf@, final(fs), Ok(r->Ok_0 as nat)),
            r is Err ==> self.write_post(old(fs), buf@, final(fs), Err(r->Err_0.kind())),
    ;

    /// Makes sure that what was written has reached the file.
    fn flush(&self) -> (r: Result<(), FsError>)
        ensures
            self.flush_post(outcome(r)),
    ;

    /// Moves the cursor and returns its new position.
    fn seek(&mut self, fs: &mut Self::Fs, pos: SeekFrom) -> (r: Result<u64, FsError>)
        requires
            old(fs).inv(),
        ensures
            final(fs).inv(),
            r is Ok ==> old(self).seek_post(
                old(fs),
                pos,
                final(self),
                final(fs),
                Ok(r->Ok_0 as nat),
            ),
            r is Err ==> old(self).seek_post(
                old(fs),
                pos,
                final(self),
                final(fs),
                Err(r->Err_0.kind()),
            ),
    ;

    /// Makes sure that content and metadata have reached the store.
    fn sync_all(&self) -> (r: Result<(), FsError>)
        ensures
            self.sync_all_post(outcome(r)),
    ;

    /// Makes sure that the content has reached the store.
    fn sync_data(&self) -> (r: Result<(), FsError>)
        ensures
            self.sync_data_post(outcome(r)),
    ;

    /// Cuts the file, or extends it with zeros, to `size` bytes.
    fn set_len(&self, fs: &mut Self::Fs, size: u64) -> (r: Result<(), FsError>)
        requires
            old(fs).inv(),
        ensures
            final(fs).inv(),
            self.set_len_post(old(fs), size, final(fs), outcome(r)),
    ;

    /// The metadata of the file.
    fn metadata(&self, fs: &Self::Fs) -> (r: Result<Self::Metadata, FsError>)
        requires
            fs.inv(),
        ensures
            outcome(r) == self.metadata_spec(fs),
    ;

    /// A second handle on the same open file: what either reads, writes or
    /// seeks, the other sees.
    fn try_clone(&self) -> (r: Result<Self, FsError>)
        ensures
            self.try_clone_post(outcome(r)),
            r is Ok ==> self.same_file(&r->Ok_0),
    ;

    /// Changes the permissions of the file.
    fn set_permissions(&self, fs: &mut Self::Fs, perm: Self::Permissions) -> (r: Result<
        (),
        FsError,
    >)
        requires
            old(fs).inv(),
        ensures
            final(fs).inv(),
            self.set_permissions_post(old(fs), perm, final(fs), outcome(r)),
    ;

    /// Changes the timestamps of the file.
    fn set_times(&self, fs: &mut Self::Fs, times: Self::FileTimes) -> (r: Result<(), FsError>)
        requires
            old(fs).inv(),
        ensures
            final(fs).inv(),
            self.set_times_post(old(fs), times, final(fs), outcome(r)),
    ;

    /// Changes the modification time of the file: sets fresh timestamps
    /// whose modification time is `time`.
    fn set_modified(&self, fs: &mut Self::Fs, time: SystemTime) -> (r: Result<(), FsError>)
        requires
            old(fs).inv(),
        ensures
            final(fs).inv(),
            self.set_modified_post(old(fs), time, final(fs), outcome(r)),
    ;
}

} // verus!
