//! Open files of a stacked filesystem: a file of the base or of the
//! overlay, each operation going to the backend that opened it.

use crate::error::{ErrorKind, FsError};
use crate::stacked_fs::{
    StackedFile, StackedFileTimes, StackedFs, StackedMetadata, StackedPermissions,
};
use crate::traits::file::{SeekFrom, UniFile};
use crate::traits::file_system::UniFs;
use std::time::SystemTime;
use vstd::prelude::*;

verus! {

impl<B: UniFs, O: UniFs> UniFile for StackedFile<B, O> where
    B::File: UniFile<Fs = B>,
    O::File: UniFile<Fs = O>,
 {
    type Fs = StackedFs<B, O>;

    type Metadata = StackedMetadata<
        <B::File as UniFile>::Metadata,
        <O::File as UniFile>::Metadata,
    >;

    type Permissions = StackedPermissions<
        <B::File as UniFile>::Permissions,
        <O::File as UniFile>::Permissions,
    >;

    type FileTimes = StackedFileTimes<
        <B::File as UniFile>::FileTimes,
        <O::File as UniFile>::FileTimes,
    >;

    open spec fn read_post(
        &self,
        pre: &StackedFs<B, O>,
        want: nat,
        post: &StackedFs<B, O>,
        r: Result<Seq<u8>, ErrorKind>,
    ) -> bool {
        match self {
            StackedFile::Base(f) => pre.same_overlay(post) && f.read_post(
                &pre.base_fs,
                want,
                &post.base_fs,
                r,
            ),
            StackedFile::Overlay { data, .. } => pre.same_base(post) && data.read_post(
                &pre.overlay_fs,
                want,
                &post.overlay_fs,
                r,
            ),
        }
    }

    open spec fn write_post(
        &self,
        pre: &StackedFs<B, O>,
        bytes: Seq<u8>,
        post: &StackedFs<B, O>,
        r: Result<nat, ErrorKind>,
    ) -> bool {
        match self {
            StackedFile::Base(f) => pre.same_overlay(post) && f.write_post(
                &pre.base_fs,
                bytes,
                &post.base_fs,
                r,
            ),
            StackedFile::Overlay { data, .. } => pre.same_base(post) && data.write_post(
                &pre.overlay_fs,
                bytes,
                &post.overlay_fs,
                r,
            ),
        }
    }

    open spec fn seek_post(
        &self,
        pre: &StackedFs<B, O>,
        pos: SeekFrom,
        after: &Self,
        post: &StackedFs<B, O>,
        r: Result<nat, ErrorKind>,
    ) -> bool {
        match (self, after) {
            (StackedFile::Base(f), StackedFile::Base(g)) => pre.same_overlay(post) && f.seek_post(
                &pre.base_fs,
                pos,
                g,
                &post.base_fs,
                r,
            ),
            (
                StackedFile::Overlay { data: f, mount_point: m },
                StackedFile::Overlay { data: g, mount_point: n },
            ) => m == n && pre.same_base(post) && f.seek_post(
                &pre.overlay_fs,
                pos,
                g,
                &post.overlay_fs,
                r,
            ),
            _ => false,
        }
    }

    open spec fn set_len_post(
        &self,
        pre: &StackedFs<B, O>,
        size: u64,
        post: &StackedFs<B, O>,
        r: Result<(), ErrorKind>,
    ) -> bool {
        match self {
            StackedFile::Base(f) => pre.same_overlay(post) && f.set_len_post(
                &pre.base_fs,
                size,
                &post.base_fs,
                r,
            ),
            StackedFile::Overlay { data, .. } => pre.same_base(post) && data.set_len_post(
                &pre.overlay_fs,
                size,
                &post.overlay_fs,
                r,
            ),
        }
    }

    open spec fn metadata_spec(&self, fs: &StackedFs<B, O>) -> Result<Self::Metadata, ErrorKind> {
        match self {
            StackedFile::Base(f) => match f.metadata_spec(&fs.base_fs) {
                Ok(m) => Ok(StackedMetadata::Base(m)),
                Err(e) => Err(e),
            },
            StackedFile::Overlay { data, mount_point } => match data.metadata_spec(
                &fs.overlay_fs,
            ) {
                Ok(m) => Ok(StackedMetadata::Overlay { data: m, mount_point: *mount_point }),
                Err(e) => Err(e),
            },
        }
    }

    open spec fn set_permissions_post(
        &self,
        pre: &StackedFs<B, O>,
        perm: Self::Permissions,
        post: &StackedFs<B, O>,
        r: Result<(), ErrorKind>,
    ) -> bool {
        match (self, perm) {
            (StackedFile::Base(f), StackedPermissions::Base(p)) => pre.same_overlay(post)
                && f.set_permissions_post(&pre.base_fs, p, &post.base_fs, r),
            (StackedFile::Overlay { data, .. }, StackedPermissions::Overlay(p)) => pre.same_base(
                post,
            ) && data.set_permissions_post(&pre.overlay_fs, p, &post.overlay_fs, r),
            _ => pre.same(post) && r == Err::<(), ErrorKind>(ErrorKind::Other),
        }
    }

    open spec fn set_times_post(
        &self,
        pre: &StackedFs<B, O>,
        times: Self::FileTimes,
        post: &StackedFs<B, O>,
        r: Result<(), ErrorKind>,
    ) -> bool {
        match (self, times) {
            (StackedFile::Base(f), StackedFileTimes::Base(t)) => pre.same_overlay(post)
                && f.set_times_post(&pre.base_fs, t, &post.base_fs, r),
            (StackedFile::Overlay { data, .. }, StackedFileTimes::Overlay(t)) => pre.same_base(
                post,
            ) && data.set_times_post(&pre.overlay_fs, t, &post.overlay_fs, r),
            _ => pre.same(post) && r == Err::<(), ErrorKind>(ErrorKind::Other),
        }
    }

    open spec fn set_modified_post(
        &self,
        pre: &StackedFs<B, O>,
        time: SystemTime,
        post: &StackedFs<B, O>,
        r: Result<(), ErrorKind>,
    ) -> bool {
        match self {
            StackedFile::Base(f) => pre.same_overlay(post) && f.set_modified_post(
                &pre.base_fs,
                time,
                &post.base_fs,
                r,
            ),
            StackedFile::Overlay { data, .. } => pre.same_base(post) && data.set_modified_post(
                &pre.overlay_fs,
                time,
                &post.overlay_fs,
                r,
            ),
        }
    }

    open spec fn same_file(&self, other: &Self) -> bool {
        match (self, other) {
            (StackedFile::Base(f), StackedFile::Base(g)) => f.same_file(g),
            (
                StackedFile::Overlay { data: f, mount_point: m },
                StackedFile::Overlay { data: g, mount_point: n },
            ) => m == n && f.same_file(g),
            _ => false,
        }
    }

    open spec fn flush_post(&self, r: Result<(), ErrorKind>) -> bool {
        match self {
            StackedFile::Base(f) => f.flush_post(r),
            StackedFile::Overlay { data, .. } => data.flush_post(r),
        }
    }

    open spec fn sync_all_post(&self, r: Result<(), ErrorKind>) -> bool {
        match self {
            StackedFile::Base(f) => f.sync_all_post(r),
            StackedFile::Overlay { data, .. } => data.sync_all_post(r),
        }
    }

    open spec fn sync_data_post(&self, r: Result<(), ErrorKind>) -> bool {
        match self {
            StackedFile::Base(f) => f.sync_data_post(r),
            StackedFile::Overlay { data, .. } => data.sync_data_post(r),
        }
    }

    open spec fn try_clone_post(&self, r: Result<Self, ErrorKind>) -> bool {
        match self {
            StackedFile::Base(f) => match r {
                Ok(StackedFile::Base(g)) => f.try_clone_post(Ok(g)),
                Ok(StackedFile::Overlay { .. }) => false,
                Err(e) => f.try_clone_post(Err(e)),
            },
            StackedFile::Overlay { data, mount_point } => match r {
                Ok(StackedFile::Overlay { data: g, mount_point: n }) => n == mount_point
                    && data.try_clone_post(Ok(g)),
                Ok(StackedFile::Base(_)) => false,
                Err(e) => data.try_clone_post(Err(e)),
            },
        }
    }

    fn read(&self, fs: &mut StackedFs<B, O>, buf: &mut Vec<u8>) -> (r: Result<usize, FsError>) {
        match self {
            StackedFile::Base(f) => f.read(&mut fs.base_fs, buf),
            StackedFile::Overlay { data, .. } => data.read(&mut fs.overlay_fs, buf),
        }
    }

    fn write(&self, fs: &mut StackedFs<B, O>, buf: &[u8]) -> (r: Result<usize, FsError>) {
        match self {
            StackedFile::Base(f) => f.write(&mut fs.base_fs, buf),
            StackedFile::Overlay { data, .. } => data.write(&mut fs.overlay_fs, buf),
        }
    }

    fn flush(&self) -> (r: Result<(), FsError>) {
        match self {
            StackedFile::Base(f) => f.flush(),
            StackedFile::Overlay { data, .. } => data.flush(),
        }
    }

    fn seek(&mut self, fs: &mut StackedFs<B, O>, pos: SeekFrom) -> (r: Result<u64, FsError>) {
        match self {
            StackedFile::Base(f) => f.seek(&mut fs.base_fs, pos),
            StackedFile::Overlay { data, .. } => data.seek(&mut fs.overlay_fs, pos),
        }
    }

    fn sync_all(&self) -> (r: Result<(), FsError>) {
        match self {
            StackedFile::Base(f) => f.sync_all(),
            StackedFile::Overlay { data, .. } => data.sync_all(),
        }
    }

    fn sync_data(&self) -> (r: Result<(), FsError>) {
        match self {
            StackedFile::Base(f) => f.sync_data(),
            StackedFile::Overlay { data, .. } => data.sync_data(),
        }
    }

    fn set_len(&self, fs: &mut StackedFs<B, O>, size: u64) -> (r: Result<(), FsError>) {
        match self {
            StackedFile::Base(f) => f.set_len(&mut fs.base_fs, size),
            StackedFile::Overlay { data, .. } => data.set_len(&mut fs.overlay_fs, size),
        }
    }

    fn metadata(&self, fs: &StackedFs<B, O>) -> (r: Result<Self::Metadata, FsError>) {
        match self {
            StackedFile::Base(f) => match f.metadata(&fs.base_fs) {
                Ok(m) => Ok(StackedMetadata::Base(m)),
                Err(e) => Err(e),
            },
            StackedFile::Overlay { data, mount_point } => match data.metadata(&fs.overlay_fs) {
                Ok(m) => Ok(StackedMetadata::Overlay { data: m, mount_point: mount_point.clone() }),
                Err(e) => Err(e),
            },
        }
    }

    fn try_clone(&self) -> (r: Result<Self, FsError>) {
        match self {
            StackedFile::Base(f) => match f.try_clone() {
                Ok(g) => Ok(StackedFile::Base(g)),
                Err(e) => Err(e),
            },
            StackedFile::Overlay { data, mount_point } => match data.try_clone() {
                Ok(g) => Ok(StackedFile::Overlay { data: g, mount_point: mount_point.clone() }),
                Err(e) => Err(e),
            },
        }
    }

    fn set_permissions(&self, fs: &mut StackedFs<B, O>, perm: Self::Permissions) -> (r: Result<
        (),
        FsError,
    >) {
        match (self, perm) {
            (StackedFile::Base(f), StackedPermissions::Base(p)) => f.set_permissions(
                &mut fs.base_fs,
                p,
            ),
            (StackedFile::Overlay { data, .. }, StackedPermissions::Overlay(p)) => {
                data.set_permissions(&mut fs.overlay_fs, p)
            },
            _ => Err(FsError::new(ErrorKind::Other, "Permission type does not match file type")),
        }
    }

    fn set_times(&self, fs: &mut StackedFs<B, O>, times: Self::FileTimes) -> (r: Result<
        (),
        FsError,
    >) {
        match (self, times) {
            (StackedFile::Base(f), StackedFileTimes::Base(t)) => f.set_times(&mut fs.base_fs, t),
            (StackedFile::Overlay { data, .. }, StackedFileTimes::Overlay(t)) => {
                data.set_times(&mut fs.overlay_fs, t)
            },
            _ => Err(FsError::new(ErrorKind::Other, "FileTimes type does not match file type")),
        }
    }

    fn set_modified(&self, fs: &mut StackedFs<B, O>, time: SystemTime) -> (r: Result<
        (),
        FsError,
    >) {
        match self {
            StackedFile::Base(f) => f.set_modified(&mut fs.base_fs, time),
            StackedFile::Overlay { data, .. } => data.set_modified(&mut fs.overlay_fs, time),
        }
    }
}

} // verus!
