//! Open file handles. A handle names a cursor of the filesystem it was
//! opened on; the cursor holds the position and names the byte buffer, so
//! that handles cloned from one another move together, and every handle on
//! one file sees the same bytes.
//!
//! A handle holds the number of its cursor and nothing that tells its
//! filesystem from another. It is meant for the filesystem it was opened
//! on. Handed to another one, it is refused with `InvalidInput` only where
//! that filesystem has no cursor of this number; where it has one, the
//! handle acts on that cursor, and so on whatever file was opened there.

use crate::error::{outcome, ErrorKind, FsError};
use crate::memory_fs::metadata::MemoryMetadata;
use crate::memory_fs::model::{Cursor, FsState, Handle, SeekTarget};
use crate::memory_fs::{model, proofs, MemoryFs, MemoryFsInner};
use crate::traits::file::{SeekFrom, UniFile};
use crate::{FileTimes, Permissions};
use std::time::SystemTime;
use vstd::prelude::*;

verus! {

/// The state behind a handle and its clones: which buffer, where in it, and
/// the metadata taken when the file was opened.
#[derive(Debug)]
pub struct MemoryFileInner {
    pub data: usize,
    pub position: usize,
    pub metadata: MemoryMetadata,
}

impl View for MemoryFileInner {
    type V = Cursor;

    open spec fn view(&self) -> Cursor {
        Cursor { buffer: self.data as nat, position: self.position as nat, metadata: self.metadata }
    }
}

impl View for SeekFrom {
    type V = SeekTarget;

    open spec fn view(&self) -> SeekTarget {
        match self {
            SeekFrom::Start(o) => SeekTarget::Start(*o as int),
            SeekFrom::End(o) => SeekTarget::End(*o as int),
            SeekFrom::Current(o) => SeekTarget::Current(*o as int),
        }
    }
}

/// An open file of the in-memory filesystem.
#[derive(Debug)]
pub struct MemoryFile {
    path: String,
    inner: usize,
    write: bool,
    append: bool,
}

impl View for MemoryFile {
    type V = Handle;

    closed spec fn view(&self) -> Handle {
        Handle {
            path: self.path@,
            cursor: self.inner as nat,
            write: self.write,
            append: self.append,
        }
    }
}

impl MemoryFile {
    /// A handle on cursor `inner`.
    pub(crate) fn new(path: String, inner: usize, write: bool, append: bool) -> (f: MemoryFile)
        ensures
            f@ == (Handle { path: path@, cursor: inner as nat, write, append }),
    {
        MemoryFile { path, inner, write, append }
    }

    /// The path under which the file was opened, in canonical form.
    pub fn path(&self) -> (p: &str)
        ensures
            p@ == self@.path,
    {
        self.path.as_str()
    }

    /// Cuts the file, or extends it with zeros, to `size` bytes, and records
    /// `now` as the time of modification in the metadata of this handle.
    /// Fails with `InvalidInput` where `size` is more than a buffer can hold
    /// or `fs` has no cursor of the handle's number.
    pub fn set_len_at(&self, fs: &mut MemoryFsInner, size: u64, now: SystemTime) -> (r: Result<
        (),
        FsError,
    >)
        requires
            old(fs).wf(),
        ensures
            final(fs).wf(),
            (final(fs)@, outcome(r)) == model::file_set_len(
                old(fs)@,
                self@,
                size as nat,
                usize::MAX as nat,
                now,
            ),
    {
        fs.cursor_set_len(self.inner, size, now)
    }
}

impl UniFile for MemoryFile {
    type Fs = MemoryFs;

    type Metadata = MemoryMetadata;

    type Permissions = Permissions;

    type FileTimes = FileTimes;

    open spec fn read_post(
        &self,
        pre: &MemoryFs,
        want: nat,
        post: &MemoryFs,
        r: Result<Seq<u8>, ErrorKind>,
    ) -> bool {
        (post@, r) == model::file_read(pre@, self@, want)
    }

    open spec fn write_post(
        &self,
        pre: &MemoryFs,
        bytes: Seq<u8>,
        post: &MemoryFs,
        r: Result<nat, ErrorKind>,
    ) -> bool {
        (post@, r) == model::file_write(pre@, self@, bytes, usize::MAX as nat)
    }

    open spec fn seek_post(
        &self,
        pre: &MemoryFs,
        pos: SeekFrom,
        after: &MemoryFile,
        post: &MemoryFs,
        r: Result<nat, ErrorKind>,
    ) -> bool {
        &&& after@ == (Handle { append: false, ..self@ })
        &&& (post@, r) == model::file_seek(pre@, self@, pos@, usize::MAX as nat)
    }

    open spec fn set_len_post(
        &self,
        pre: &MemoryFs,
        size: u64,
        post: &MemoryFs,
        r: Result<(), ErrorKind>,
    ) -> bool {
        exists|now: SystemTime|
            (post@, r) == #[trigger] model::file_set_len(
                pre@,
                self@,
                size as nat,
                usize::MAX as nat,
                now,
            )
    }

    open spec fn metadata_spec(&self, fs: &MemoryFs) -> Result<MemoryMetadata, ErrorKind> {
        model::file_metadata(fs@, self@)
    }

    open spec fn set_permissions_post(
        &self,
        pre: &MemoryFs,
        perm: Permissions,
        post: &MemoryFs,
        r: Result<(), ErrorKind>,
    ) -> bool {
        match model::cursor_of(pre@, self@) {
            None => (post@, r) == (pre@, Err::<(), ErrorKind>(ErrorKind::InvalidInput)),
            Some(c) => (post@, r) == model::file_set_metadata(
                pre@,
                self@,
                MemoryMetadata { permissions: perm, ..c.metadata },
            ),
        }
    }

    open spec fn set_times_post(
        &self,
        pre: &MemoryFs,
        times: FileTimes,
        post: &MemoryFs,
        r: Result<(), ErrorKind>,
    ) -> bool {
        match model::cursor_of(pre@, self@) {
            None => (post@, r) == (pre@, Err::<(), ErrorKind>(ErrorKind::InvalidInput)),
            Some(c) => (post@, r) == model::file_set_metadata(
                pre@,
                self@,
                MemoryMetadata { file_times: times, ..c.metadata },
            ),
        }
    }

    open spec fn set_modified_post(
        &self,
        pre: &MemoryFs,
        time: SystemTime,
        post: &MemoryFs,
        r: Result<(), ErrorKind>,
    ) -> bool {
        exists|now: SystemTime| #[trigger]
            self.set_times_post(
                pre,
                FileTimes { created: now, modified: Some(time), accessed: None },
                post,
                r,
            )
    }

    open spec fn same_file(&self, other: &MemoryFile) -> bool {
        other@ == self@
    }

    open spec fn flush_post(&self, r: Result<(), ErrorKind>) -> bool {
        r is Ok
    }

    open spec fn sync_all_post(&self, r: Result<(), ErrorKind>) -> bool {
        r is Ok
    }

    open spec fn sync_data_post(&self, r: Result<(), ErrorKind>) -> bool {
        r is Ok
    }

    open spec fn try_clone_post(&self, r: Result<MemoryFile, ErrorKind>) -> bool {
        r is Ok && r->Ok_0@ == self@
    }

    /// Reads up to `buf.len()` bytes from the cursor on into the front of
    /// `buf`, moves the cursor past them, and returns how many there were.
    /// At or past the end of the file nothing is read and zero is returned.
    /// Fails with `InvalidInput` where `fs` has no cursor of the handle's
    /// number.
    fn read(&self, fs: &mut MemoryFs, buf: &mut Vec<u8>) -> (r: Result<usize, FsError>) {
        let ghost s = fs@;
        let r = fs.inner.cursor_read(self.inner, buf);
        proof {
            if r is Ok {
                let bytes = model::file_read(s, self@, old(buf)@.len()).1->Ok_0;
                assert(buf@.take(r->Ok_0 as int) =~= bytes);
                assert(buf@.skip(r->Ok_0 as int) =~= old(buf)@.skip(r->Ok_0 as int));
            }
        }
        r
    }

    /// Writes `buf` at the cursor, or at the end of the file where the
    /// handle appends; the file is first extended with zeros as far as the
    /// write reaches. The cursor ends past what was written. Fails with
    /// `PermissionDenied` where the handle was not opened for writing, and
    /// with `InvalidInput` where `fs` has no cursor of the handle's number
    /// or the file would grow beyond what a position can hold.
    fn write(&self, fs: &mut MemoryFs, buf: &[u8]) -> (r: Result<usize, FsError>) {
        if !self.write {
            return Err(FsError::new(ErrorKind::PermissionDenied, "File is not open for writing"));
        }
        fs.inner.cursor_write(self.inner, self.append, buf)
    }

    /// Does nothing: the bytes are in place as soon as they are written.
    fn flush(&self) -> (r: Result<(), FsError>)
        ensures
            r is Ok,
    {
        Ok(())
    }

    /// Moves the cursor and returns its new position. The handle stops
    /// appending, whatever the outcome. Fails with `InvalidInput` where the
    /// position asked for is negative or more than a position can hold, or
    /// `fs` has no cursor of the handle's number.
    fn seek(&mut self, fs: &mut MemoryFs, pos: SeekFrom) -> (r: Result<u64, FsError>)
        ensures
            final(self)@ == (Handle { append: false, ..old(self)@ }),
            final(fs)@ == model::file_seek(old(fs)@, old(self)@, pos@, usize::MAX as nat).0,
    {
        self.append = false;
        fs.inner.cursor_seek(self.inner, pos)
    }

    /// Does nothing: there is no layer below the buffer to synchronize with.
    fn sync_all(&self) -> (r: Result<(), FsError>)
        ensures
            r is Ok,
    {
        Ok(())
    }

    /// Does nothing: there is no layer below the buffer to synchronize with.
    fn sync_data(&self) -> (r: Result<(), FsError>)
        ensures
            r is Ok,
    {
        Ok(())
    }

    /// Cuts the file, or extends it with zeros, to `size` bytes, and records
    /// the modification in the metadata of this handle.
    fn set_len(&self, fs: &mut MemoryFs, size: u64) -> (r: Result<(), FsError>) {
        let now = crate::time::now();
        let r = self.set_len_at(&mut fs.inner, size, now);
        proof {
            assert((fs@, outcome(r)) == model::file_set_len(
                old(fs)@,
                self@,
                size as nat,
                usize::MAX as nat,
                now,
            ));
        }
        r
    }

    /// The metadata kept with this handle: taken when the file was opened,
    /// and changed since only through this handle and its clones.
    fn metadata(&self, fs: &MemoryFs) -> (r: Result<MemoryMetadata, FsError>) {
        fs.inner.cursor_metadata(self.inner)
    }

    /// A second handle on the same cursor.
    fn try_clone(&self) -> (r: Result<MemoryFile, FsError>)
        ensures
            r is Ok,
    {
        Ok(
            MemoryFile {
                path: self.path.clone(),
                inner: self.inner,
                write: self.write,
                append: self.append,
            },
        )
    }

    /// Replaces the permissions in the metadata kept with this handle.
    fn set_permissions(&self, fs: &mut MemoryFs, perm: Permissions) -> (r: Result<(), FsError>) {
        let metadata = match fs.inner.cursor_metadata(self.inner) {
            Ok(m) => m,
            Err(e) => { return Err(e); },
        };
        fs.inner.cursor_set_metadata(self.inner, MemoryMetadata { permissions: perm, ..metadata })
    }

    /// Replaces the timestamps in the metadata kept with this handle.
    fn set_times(&self, fs: &mut MemoryFs, times: FileTimes) -> (r: Result<(), FsError>) {
        let metadata = match fs.inner.cursor_metadata(self.inner) {
            Ok(m) => m,
            Err(e) => { return Err(e); },
        };
        fs.inner.cursor_set_metadata(self.inner, MemoryMetadata { file_times: times, ..metadata })
    }

    /// Replaces the timestamps in the metadata kept with this handle by
    /// fresh ones whose modification time is `time`.
    fn set_modified(&self, fs: &mut MemoryFs, time: SystemTime) -> (r: Result<(), FsError>) {
        let now = crate::time::now();
        let times = FileTimes { created: now, modified: Some(time), accessed: None };
        let r = self.set_times(fs, times);
        proof {
            assert(self.set_times_post(old(fs), times, fs, outcome(r)));
        }
        r
    }
}

/// Copies up to `buf.len()` bytes of `data`, from `position` on, into the
/// front of `buf`, and returns how many there were.
pub fn read_into(data: &Vec<u8>, position: usize, buf: &mut Vec<u8>) -> (n: usize)
    ensures
        n == model::read_at(data@, position as nat, old(buf)@.len()).len(),
        n == 0 || position + n <= data@.len(),
        final(buf)@ == model::read_at(data@, position as nat, old(buf)@.len()) + old(buf)@.skip(
            n as int,
        ),
{
    let ghost bytes = model::read_at(data@, position as nat, buf@.len());
    if position >= data.len() {
        assert(buf@ =~= bytes + buf@.skip(0));
        return 0;
    }
    let rest = data.len() - position;
    let n = if buf.len() <= rest {
        buf.len()
    } else {
        rest
    };
    let mut i: usize = 0;
    assert(buf@ =~= bytes.take(0) + buf@.skip(0));
    while i < n
        invariant
            i <= n,
            n == bytes.len(),
            n <= buf.len(),
            position + n <= data.len(),
            bytes == data@.subrange(position as int, position + n),
            buf.len() == old(buf).len(),
            buf@ == bytes.take(i as int) + old(buf)@.skip(i as int),
        decreases n - i,
    {
        buf[i] = data[position + i];
        i += 1;
        assert(buf@ =~= bytes.take(i as int) + old(buf)@.skip(i as int));
    }
    assert(bytes.take(n as int) =~= bytes);
    n
}

/// Writes `bytes` into `data` at `position`, first extending `data` with
/// zeros as far as the write reaches.
pub fn write_into(data: &mut Vec<u8>, position: usize, bytes: &[u8])
    requires
        position + bytes@.len() <= usize::MAX,
    ensures
        final(data)@ == model::write_at(old(data)@, position as nat, bytes@),
{
    let end = position + bytes.len();
    while data.len() < end
        invariant
            old(data)@.len() <= data@.len(),
            data@.len() <= end || data@.len() == old(data)@.len(),
            forall|j: int| 0 <= j < old(data)@.len() ==> data@[j] == old(data)@[j],
            forall|j: int| old(data)@.len() <= j < data@.len() ==> data@[j] == 0u8,
        decreases end - data.len(),
    {
        data.push(0u8);
    }
    let ghost grown = data@;
    let mut i: usize = 0;
    while i < bytes.len()
        invariant
            i <= bytes@.len(),
            end == position + bytes@.len(),
            data@.len() == grown.len(),
            end <= grown.len(),
            forall|j: int| 0 <= j < i ==> data@[position + j] == bytes@[j],
            forall|j: int|
                0 <= j < grown.len() && !(position <= j < position + i) ==> data@[j] == grown[j],
        decreases bytes@.len() - i,
    {
        data[position + i] = bytes[i];
        i += 1;
    }
    proof {
        let want = model::write_at(old(data)@, position as nat, bytes@);
        assert(grown.len() == want.len());
        assert forall|j: int| 0 <= j < want.len() implies data@[j] == want[j] by {
            if position <= j < position + bytes@.len() {
                assert(data@[position + (j - position)] == bytes@[j - position]);
            } else {
                assert(data@[j] == grown[j]);
            }
        }
        assert(data@ =~= want);
    }
}

/// Cuts `data`, or extends it with zeros, to `size` bytes.
pub fn resize_to(data: &mut Vec<u8>, size: usize)
    ensures
        final(data)@ == model::resized(old(data)@, size as nat),
{
    if size <= data.len() {
        data.truncate(size);
    } else {
        while data.len() < size
            invariant
                old(data)@.len() <= data@.len() <= size,
                forall|j: int| 0 <= j < old(data)@.len() ==> data@[j] == old(data)@[j],
                forall|j: int| old(data)@.len() <= j < data@.len() ==> data@[j] == 0u8,
            decreases size - data.len(),
        {
            data.push(0u8);
        }
    }
    assert(data@ =~= model::resized(old(data)@, size as nat));
}

/// The position `offset` bytes from `base`, where that is a position.
pub fn offset_position(base: usize, offset: i64) -> (r: Option<usize>)
    ensures
        r is Some == (0 <= base + offset <= usize::MAX),
        r is Some ==> r->Some_0 == base + offset,
{
    if offset >= 0 {
        let forward = offset as u64;
        if forward > (usize::MAX - base) as u64 {
            None
        } else {
            Some(base + forward as usize)
        }
    } else {
        let back: u64 = if offset == i64::MIN {
            9223372036854775808u64
        } else {
            (-offset) as u64
        };
        if back > base as u64 {
            None
        } else {
            Some(base - back as usize)
        }
    }
}

impl MemoryFsInner {
    /// A new cursor at position zero on buffer `data`.
    pub(crate) fn cursor_open(&mut self, data: usize, metadata: MemoryMetadata) -> (id: usize)
        requires
            old(self).wf(),
            data < old(self)@.buffers.len(),
        ensures
            final(self).wf(),
            id == old(self)@.cursors.len(),
            final(self)@ == (FsState {
                cursors: old(self)@.cursors.push(
                    Cursor { buffer: data as nat, position: 0, metadata },
                ),
                ..old(self)@
            }),
    {
        let id = self.cursors.len();
        let ghost s = self@;
        self.cursors.push(MemoryFileInner { data, position: 0, metadata });
        proof {
            let c = Cursor { buffer: data as nat, position: 0, metadata };
            assert(self@.cursors =~= s.cursors.push(c));
            proofs::lemma_contents_wf(s, s.buffers, s.cursors.push(c));
        }
        id
    }

    /// Reads through cursor `id`.
    pub(crate) fn cursor_read(&mut self, id: usize, buf: &mut Vec<u8>) -> (r: Result<usize, FsError>)
        requires
            old(self).wf(),
        ensures
            final(self).wf(),
            id >= old(self)@.cursors.len() ==> r is Err && r->Err_0.kind()
                == ErrorKind::InvalidInput && final(self)@ == old(self)@ && final(buf)@ == old(
                buf,
            )@,
            id < old(self)@.cursors.len() ==> {
                let c = old(self)@.cursors[id as int];
                let bytes = model::read_at(
                    old(self)@.buffers[c.buffer as int],
                    c.position,
                    old(buf)@.len(),
                );
                &&& c.buffer < old(self)@.buffers.len()
                &&& r is Ok
                &&& r->Ok_0 == bytes.len()
                &&& final(buf)@ == bytes + old(buf)@.skip(bytes.len() as int)
                &&& final(self)@ == model::with_cursor(
                    old(self)@,
                    id as nat,
                    Cursor { position: c.position + bytes.len(), ..c },
                )
            },
    {
        if id >= self.cursors.len() {
            return Err(FsError::new(ErrorKind::InvalidInput, "File is not open"));
        }
        let ghost s = self@;
        let ghost c = s.cursors[id as int];
        assert(c.buffer < s.buffers.len());
        let data = self.cursors[id].data;
        let position = self.cursors[id].position;
        let len = self.buffers[data].len();
        let n = read_into(&self.buffers[data], position, buf);
        assert(n == 0 || position + n <= len);
        self.cursors[id].position = position + n;
        proof {
            let moved = Cursor { position: (c.position + n) as nat, ..c };
            assert(self@.cursors =~= s.cursors.update(id as int, moved));
            proofs::lemma_contents_wf(s, s.buffers, s.cursors.update(id as int, moved));
        }
        Ok(n)
    }

    /// Writes through cursor `id`, at the end of the buffer if `append`.
    pub(crate) fn cursor_write(&mut self, id: usize, append: bool, bytes: &[u8]) -> (r: Result<
        usize,
        FsError,
    >)
        requires
            old(self).wf(),
        ensures
            final(self).wf(),
            ({
                let h = Handle { path: Seq::empty(), cursor: id as nat, write: true, append };
                &&& final(self)@ == model::file_write(old(self)@, h, bytes@, usize::MAX as nat).0
                &&& r is Ok == model::file_write(old(self)@, h, bytes@, usize::MAX as nat).1 is Ok
                &&& r is Ok ==> r->Ok_0 == bytes@.len()
                &&& r is Err ==> r->Err_0.kind() == ErrorKind::InvalidInput
            }),
    {
        if id >= self.cursors.len() {
            return Err(FsError::new(ErrorKind::InvalidInput, "File is not open"));
        }
        let ghost s = self@;
        let ghost c = s.cursors[id as int];
        assert(c.buffer < s.buffers.len());
        let data = self.cursors[id].data;
        let position = if append {
            self.buffers[data].len()
        } else {
            self.cursors[id].position
        };
        if bytes.len() > usize::MAX - position {
            return Err(FsError::new(ErrorKind::InvalidInput, "File would grow too large"));
        }
        write_into(&mut self.buffers[data], position, bytes);
        self.cursors[id].position = position + bytes.len();
        proof {
            let written = model::write_at(s.buffers[data as int], position as nat, bytes@);
            let moved = Cursor { position: (position + bytes@.len()) as nat, ..c };
            assert(self@.buffers =~= s.buffers.update(data as int, written));
            assert(self@.cursors =~= s.cursors.update(id as int, moved));
            proofs::lemma_contents_wf(
                s,
                s.buffers.update(data as int, written),
                s.cursors.update(id as int, moved),
            );
        }
        Ok(bytes.len())
    }

    /// Moves cursor `id`.
    pub(crate) fn cursor_seek(&mut self, id: usize, pos: SeekFrom) -> (r: Result<u64, FsError>)
        requires
            old(self).wf(),
        ensures
            final(self).wf(),
            ({
                let h = Handle { path: Seq::empty(), cursor: id as nat, write: true, append: false };
                &&& final(self)@ == model::file_seek(old(self)@, h, pos@, usize::MAX as nat).0
                &&& r is Ok == model::file_seek(old(self)@, h, pos@, usize::MAX as nat).1 is Ok
                &&& r is Ok ==> r->Ok_0 == model::file_seek(
                    old(self)@,
                    h,
                    pos@,
                    usize::MAX as nat,
                ).1->Ok_0
                &&& r is Err ==> r->Err_0.kind() == ErrorKind::InvalidInput
            }),
    {
        if id >= self.cursors.len() {
            return Err(FsError::new(ErrorKind::InvalidInput, "File is not open"));
        }
        let ghost s = self@;
        let ghost c = s.cursors[id as int];
        assert(c.buffer < s.buffers.len());
        let data = self.cursors[id].data;
        let target: Option<usize> = match pos {
            SeekFrom::Start(offset) => if offset > usize::MAX as u64 {
                None
            } else {
                Some(offset as usize)
            },
            SeekFrom::End(offset) => offset_position(self.buffers[data].len(), offset),
            SeekFrom::Current(offset) => offset_position(self.cursors[id].position, offset),
        };
        match target {
            None => Err(FsError::new(ErrorKind::InvalidInput, "Seek position out of bounds")),
            Some(position) => {
                self.cursors[id].position = position;
                proof {
                    let moved = Cursor { position: position as nat, ..c };
                    assert(self@.cursors =~= s.cursors.update(id as int, moved));
                    proofs::lemma_contents_wf(s, s.buffers, s.cursors.update(id as int, moved));
                }
                Ok(position as u64)
            },
        }
    }

    /// Resizes the buffer of cursor `id`.
    pub(crate) fn cursor_set_len(&mut self, id: usize, size: u64, now: SystemTime) -> (r: Result<
        (),
        FsError,
    >)
        requires
            old(self).wf(),
        ensures
            final(self).wf(),
            ({
                let h = Handle { path: Seq::empty(), cursor: id as nat, write: true, append: false };
                (final(self)@, outcome(r)) == model::file_set_len(
                    old(self)@,
                    h,
                    size as nat,
                    usize::MAX as nat,
                    now,
                )
            }),
    {
        if id >= self.cursors.len() {
            return Err(FsError::new(ErrorKind::InvalidInput, "File is not open"));
        }
        let ghost s = self@;
        let ghost c = s.cursors[id as int];
        assert(c.buffer < s.buffers.len());
        if size > usize::MAX as u64 {
            return Err(FsError::new(ErrorKind::InvalidInput, "File would grow too large"));
        }
        let data = self.cursors[id].data;
        resize_to(&mut self.buffers[data], size as usize);
        self.cursors[id].metadata.file_times.modified = Some(now);
        proof {
            let cut = model::resized(s.buffers[data as int], size as nat);
            let stamped = Cursor {
                metadata: MemoryMetadata {
                    file_times: FileTimes { modified: Some(now), ..c.metadata.file_times },
                    ..c.metadata
                },
                ..c
            };
            assert(self@.buffers =~= s.buffers.update(data as int, cut));
            assert(self@.cursors =~= s.cursors.update(id as int, stamped));
            proofs::lemma_contents_wf(
                s,
                s.buffers.update(data as int, cut),
                s.cursors.update(id as int, stamped),
            );
        }
        Ok(())
    }

    /// The metadata kept with cursor `id`.
    pub(crate) fn cursor_metadata(&self, id: usize) -> (r: Result<MemoryMetadata, FsError>)
        requires
            self.wf(),
        ensures
            ({
                let h = Handle { path: Seq::empty(), cursor: id as nat, write: true, append: false };
                outcome(r) == model::file_metadata(self@, h)
            }),
    {
        if id >= self.cursors.len() {
            return Err(FsError::new(ErrorKind::InvalidInput, "File is not open"));
        }
        assert(self@.cursors[id as int].buffer < self@.buffers.len());
        Ok(self.cursors[id].metadata)
    }

    /// Replaces the metadata kept with cursor `id`.
    pub(crate) fn cursor_set_metadata(&mut self, id: usize, metadata: MemoryMetadata) -> (r: Result<
        (),
        FsError,
    >)
        requires
            old(self).wf(),
        ensures
            final(self).wf(),
            ({
                let h = Handle { path: Seq::empty(), cursor: id as nat, write: true, append: false };
                (final(self)@, outcome(r)) == model::file_set_metadata(old(self)@, h, metadata)
            }),
    {
        if id >= self.cursors.len() {
            return Err(FsError::new(ErrorKind::InvalidInput, "File is not open"));
        }
        let ghost s = self@;
        let ghost c = s.cursors[id as int];
        assert(c.buffer < s.buffers.len());
        self.cursors[id].metadata = metadata;
        proof {
            let changed = Cursor { metadata, ..c };
            assert(self@.cursors =~= s.cursors.update(id as int, changed));
            proofs::lemma_contents_wf(s, s.buffers, s.cursors.update(id as int, changed));
        }
        Ok(())
    }
}

} // verus!
