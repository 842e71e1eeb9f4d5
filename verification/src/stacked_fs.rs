//! The overlay filesystem: two backends composed under a mount point.
//!
//! A path that lies under the mount point is in the overlay's domain, and
//! is handed to the overlay with the mount point taken off; any other path
//! is in the base's domain. What the overlay has shadows the base: nothing
//! is merged.

use crate::components::{below, join_below, strip_prefix, strip_prefix_spec};
use crate::error::{outcome, ErrorKind, FsError};

use crate::traits::file_system::UniFs;
use crate::traits::open_options::{no_flags, OpenFlags};
use crate::traits::{UniDirEntry, UniFileTimes, UniMetadata, UniPermissions};

use std::marker::PhantomData;

use vstd::prelude::*;
use vstd::string::*;

pub mod file;
pub mod values;

verus! {

/// Two filesystems stacked: `overlay_fs` serves the paths under
/// `mount_point`, `base_fs` all others.
pub struct StackedFs<B: UniFs, O: UniFs> {
    pub base_fs: B,
    pub overlay_fs: O,
    pub mount_point: String,
}

/// Metadata from the base or from the overlay.
pub enum StackedMetadata<B: UniMetadata, O: UniMetadata> {
    /// Metadata from the base.
    Base(B),
    /// Metadata from the overlay, with the mount point.
    Overlay { data: O, mount_point: String },
}

/// Permissions for the base or for the overlay.
pub enum StackedPermissions<B: UniPermissions, O: UniPermissions> {
    /// Permissions of the base.
    Base(B),
    /// Permissions of the overlay.
    Overlay(O),
}

/// A file type from the base or from the overlay.
pub enum StackedFileType<B: UniMetadata, O: UniMetadata> {
    /// A file type of the base.
    Base(B::FileType),
    /// A file type of the overlay.
    Overlay(O::FileType),
}

/// A directory entry from the base or from the overlay.
pub enum StackedDirEntry<B: UniDirEntry, O: UniDirEntry> {
    /// An entry of the base.
    Base(B),
    /// An entry of the overlay, with the mount point under which its path
    /// is reported.
    Overlay { data: O, mount_point: String },
}

/// A directory listing from the base or from the overlay.
pub enum StackedReadDir<B: UniFs, O: UniFs> {
    /// A listing of the base.
    Base(B::ReadDir),
    /// A listing of the overlay, with the mount point.
    Overlay { data: O::ReadDir, mount_point: String },
}

/// An open file of the base or of the overlay.
pub enum StackedFile<B: UniFs, O: UniFs> {
    /// A file of the base.
    Base(B::File),
    /// A file of the overlay, with the mount point.
    Overlay { data: O::File, mount_point: String },
}

/// Timestamps for a file of the base or of the overlay.
pub enum StackedFileTimes<B: UniFileTimes, O: UniFileTimes> {
    /// Timestamps for a file of the base.
    Base(B),
    /// Timestamps for a file of the overlay.
    Overlay(O),
}

/// The builder of the options with which a file of a stacked filesystem is
/// opened.
pub struct StackedOpenOptions<B: UniFs, O: UniFs> {
    flags: OpenFlags,
    backends: PhantomData<(B, O)>,
}

/// The builder of directories of a stacked filesystem.
pub struct StackedDirBuilder<B: UniFs, O: UniFs> {
    recursive: bool,
    backends: PhantomData<(B, O)>,
}

impl<B: UniFs, O: UniFs> StackedOpenOptions<B, O> {
    /// The flags set so far.
    pub closed spec fn spec_flags(&self) -> OpenFlags {
        self.flags
    }
}

impl<B: UniFs, O: UniFs> StackedDirBuilder<B, O> {
    /// Whether the directories missing above the target are made too.
    pub closed spec fn spec_recursive(&self) -> bool {
        self.recursive
    }
}

/// Where a call on one path goes.
pub enum Route {
    /// To the overlay, with this path.
    Overlay(Seq<char>),
    /// To the base, with the path as given.
    Base,
    /// Nowhere: the overlay could not say whether it has the path.
    Fail(ErrorKind),
}

/// A path handed back by the overlay, put under the mount point again.
pub open spec fn remounted(mount: Seq<char>, path: Seq<char>) -> Seq<char> {
    if path.len() > 0 && path[0] == '/' {
        mount + path
    } else {
        below(mount, path)
    }
}

/// Puts a path handed back by the overlay under the mount point again.
pub fn remount(mount: &str, path: &str) -> (r: String)
    ensures
        r@ == remounted(mount@, path@),
{
    if path.unicode_len() > 0 && path.get_char(0) == '/' {
        let mut r = mount.to_owned();
        r.append(path);
        r
    } else {
        join_below(mount, path)
    }
}

/// The whole of `bytes`, as a length.
pub open spec fn length_of(bytes: Seq<u8>) -> u64 {
    bytes.len() as u64
}

impl<B: UniFs, O: UniFs> StackedFs<B, O> {
    /// Stacks `overlay_fs` on `base_fs` under `mount_point`.
    pub fn new(base_fs: B, overlay_fs: O, mount_point: &str) -> (r: Self)
        ensures
            r.base_fs == base_fs,
            r.overlay_fs == overlay_fs,
            r.mount_point@ == mount_point@,
    {
        StackedFs { base_fs, overlay_fs, mount_point: mount_point.to_owned() }
    }

    /// The path in the overlay's domain that `path` stands for, if it lies
    /// under the mount point.
    pub open spec fn stripped(&self, path: Seq<char>) -> Option<Seq<char>> {
        strip_prefix_spec(path, self.mount_point@)
    }

    /// Where a call that asks about one existing path goes: to the overlay
    /// if the path is in its domain and the overlay has it, else to the
    /// base.
    pub open spec fn route(&self, path: Seq<char>) -> Route {
        match self.stripped(path) {
            Some(q) => match self.overlay_fs.exists_spec(q) {
                Err(e) => Route::Fail(e),
                Ok(true) => Route::Overlay(q),
                Ok(false) => Route::Base,
            },
            None => Route::Base,
        }
    }

    /// Decides where a call that asks about one existing path goes:
    /// `Some` with the overlay's path, or `None` for the base.
    fn routed(&self, path: &str) -> (r: Result<Option<String>, FsError>)
        requires
            self.inv(),
        ensures
            match self.route(path@) {
                Route::Fail(e) => r is Err && r->Err_0.kind() == e,
                Route::Overlay(q) => r is Ok && r->Ok_0 is Some && r->Ok_0->Some_0@ == q,
                Route::Base => r is Ok && r->Ok_0 is None,
            },
    {
        match strip_prefix(path, self.mount_point.as_str()) {
            Some(q) => match self.overlay_fs.try_exists(q.as_str()) {
                Err(e) => Err(e),
                Ok(true) => Ok(Some(q)),
                Ok(false) => Ok(None),
            },
            None => Ok(None),
        }
    }

    /// The base is untouched.
    pub open spec fn same_base(&self, post: &Self) -> bool {
        post.base_fs == self.base_fs && post.mount_point == self.mount_point
    }

    /// The overlay is untouched.
    pub open spec fn same_overlay(&self, post: &Self) -> bool {
        post.overlay_fs == self.overlay_fs && post.mount_point == self.mount_point
    }

    /// Nothing is touched.
    pub open spec fn same(&self, post: &Self) -> bool {
        self.same_base(post) && self.same_overlay(post)
    }

    /// Copying from one backend to the other: the bytes read from `from` on
    /// the one are written to `to` on the other.
    pub open spec fn carried<S: UniFs, D: UniFs>(
        source: &S,
        from: Seq<char>,
        pre: &D,
        to: Seq<char>,
        post: &D,
        r: Result<u64, ErrorKind>,
    ) -> bool {
        match source.read_spec(from) {
            Err(e) => r == Err::<u64, ErrorKind>(e) && post == pre,
            Ok(bytes) => match r {
                Ok(n) => n == length_of(bytes) && pre.write_post(to, bytes, post, Ok(())),
                Err(e) => pre.write_post(to, bytes, post, Err(e)),
            },
        }
    }
}

/// Reads `from` on `source` and writes what was read to `to` on `target`.
fn carry<S: UniFs, D: UniFs>(source: &S, from: &str, target: &mut D, to: &str) -> (r: Result<
    u64,
    FsError,
>)
    requires
        source.inv(),
        old(target).inv(),
    ensures
        final(target).inv(),
        match source.read_spec(from@) {
            Err(e) => outcome(r) == Err::<u64, ErrorKind>(e) && *final(target) == *old(target),
            Ok(bytes) => match outcome(r) {
                Ok(n) => n == length_of(bytes) && old(target).write_post(
                    to@,
                    bytes,
                    final(target),
                    Ok(()),
                ),
                Err(e) => old(target).write_post(to@, bytes, final(target), Err(e)),
            },
        },
{
    let bytes = match source.read(from) {
        Ok(bytes) => bytes,
        Err(e) => { return Err(e); },
    };
    match target.write(to, bytes.as_slice()) {
        Ok(()) => Ok(bytes.len() as u64),
        Err(e) => Err(e),
    }
}

impl<B: UniFs, O: UniFs> UniFs for StackedFs<B, O> {
    type Metadata = StackedMetadata<B::Metadata, O::Metadata>;

    type ReadDir = StackedReadDir<B, O>;

    type DirEntry = StackedDirEntry<B::DirEntry, O::DirEntry>;

    type Permissions = StackedPermissions<B::Permissions, O::Permissions>;

    type File = StackedFile<B, O>;

    type OpenOptions = StackedOpenOptions<B, O>;

    type DirBuilder = StackedDirBuilder<B, O>;

    open spec fn inv(&self) -> bool {
        self.base_fs.inv() && self.overlay_fs.inv()
    }

    open spec fn canonicalize_spec(&self, path: Seq<char>) -> Result<Seq<char>, ErrorKind> {
        match self.stripped(path) {
            Some(q) => match self.overlay_fs.canonicalize_spec(q) {
                Ok(c) => Ok(remounted(self.mount_point@, c)),
                Err(e) => Err(e),
            },
            None => self.base_fs.canonicalize_spec(path),
        }
    }

    open spec fn exists_spec(&self, path: Seq<char>) -> Result<bool, ErrorKind> {
        match self.route(path) {
            Route::Fail(e) => Err(e),
            Route::Overlay(_) => Ok(true),
            Route::Base => self.base_fs.exists_spec(path),
        }
    }

    open spec fn metadata_spec(&self, path: Seq<char>) -> Result<Self::Metadata, ErrorKind> {
        match self.route(path) {
            Route::Fail(e) => Err(e),
            Route::Overlay(q) => match self.overlay_fs.metadata_spec(q) {
                Ok(m) => Ok(StackedMetadata::Overlay { data: m, mount_point: self.mount_point }),
                Err(e) => Err(e),
            },
            Route::Base => match self.base_fs.metadata_spec(path) {
                Ok(m) => Ok(StackedMetadata::Base(m)),
                Err(e) => Err(e),
            },
        }
    }

    open spec fn read_spec(&self, path: Seq<char>) -> Result<Seq<u8>, ErrorKind> {
        match self.route(path) {
            Route::Fail(e) => Err(e),
            Route::Overlay(q) => self.overlay_fs.read_spec(q),
            Route::Base => self.base_fs.read_spec(path),
        }
    }

    open spec fn read_dir_post(&self, path: Seq<char>, r: Result<Self::ReadDir, ErrorKind>) -> bool {
        match self.route(path) {
            Route::Fail(e) => r == Err::<Self::ReadDir, ErrorKind>(e),
            Route::Overlay(q) => match r {
                Ok(StackedReadDir::Overlay { data, mount_point }) => mount_point
                    == self.mount_point && self.overlay_fs.read_dir_post(q, Ok(data)),
                Ok(StackedReadDir::Base(_)) => false,
                Err(e) => self.overlay_fs.read_dir_post(q, Err(e)),
            },
            Route::Base => match r {
                Ok(StackedReadDir::Base(data)) => self.base_fs.read_dir_post(path, Ok(data)),
                Ok(StackedReadDir::Overlay { .. }) => false,
                Err(e) => self.base_fs.read_dir_post(path, Err(e)),
            },
        }
    }

    open spec fn read_link_spec(&self, path: Seq<char>) -> Result<Seq<char>, ErrorKind> {
        match self.route(path) {
            Route::Fail(e) => Err(e),
            Route::Overlay(q) => self.overlay_fs.read_link_spec(q),
            Route::Base => self.base_fs.read_link_spec(path),
        }
    }

    open spec fn symlink_metadata_spec(&self, path: Seq<char>) -> Result<
        Self::Metadata,
        ErrorKind,
    > {
        match self.route(path) {
            Route::Fail(e) => Err(e),
            Route::Overlay(q) => match self.overlay_fs.symlink_metadata_spec(q) {
                Ok(m) => Ok(StackedMetadata::Overlay { data: m, mount_point: self.mount_point }),
                Err(e) => Err(e),
            },
            Route::Base => match self.base_fs.symlink_metadata_spec(path) {
                Ok(m) => Ok(StackedMetadata::Base(m)),
                Err(e) => Err(e),
            },
        }
    }

    open spec fn copy_post(
        &self,
        from: Seq<char>,
        to: Seq<char>,
        post: &Self,
        r: Result<u64, ErrorKind>,
    ) -> bool {
        match (self.stripped(from), self.stripped(to)) {
            (Some(f), Some(t)) => self.same_base(post) && self.overlay_fs.copy_post(
                f,
                t,
                &post.overlay_fs,
                r,
            ),
            (None, None) => self.same_overlay(post) && self.base_fs.copy_post(
                from,
                to,
                &post.base_fs,
                r,
            ),
            (Some(f), None) => self.same_overlay(post) && Self::carried(
                &self.overlay_fs,
                f,
                &self.base_fs,
                to,
                &post.base_fs,
                r,
            ),
            (None, Some(t)) => self.same_base(post) && Self::carried(
                &self.base_fs,
                from,
                &self.overlay_fs,
                t,
                &post.overlay_fs,
                r,
            ),
        }
    }

    open spec fn create_dir_post(&self, path: Seq<char>, post: &Self, r: Result<(), ErrorKind>) -> bool {
        match self.stripped(path) {
            Some(q) => self.same_base(post) && self.overlay_fs.create_dir_post(
                q,
                &post.overlay_fs,
                r,
            ),
            None => self.same_overlay(post) && self.base_fs.create_dir_post(
                path,
                &post.base_fs,
                r,
            ),
        }
    }

    open spec fn build_dir_post(
        &self,
        recursive: bool,
        path: Seq<char>,
        post: &Self,
        r: Result<(), ErrorKind>,
    ) -> bool {
        match self.stripped(path) {
            Some(q) => self.same_base(post) && self.overlay_fs.build_dir_post(
                recursive,
                q,
                &post.overlay_fs,
                r,
            ),
            None => self.same_overlay(post) && self.base_fs.build_dir_post(
                recursive,
                path,
                &post.base_fs,
                r,
            ),
        }
    }

    open spec fn hard_link_post(
        &self,
        original: Seq<char>,
        link: Seq<char>,
        post: &Self,
        r: Result<(), ErrorKind>,
    ) -> bool {
        match (self.stripped(original), self.stripped(link)) {
            (Some(o), Some(l)) => self.same_base(post) && self.overlay_fs.hard_link_post(
                o,
                l,
                &post.overlay_fs,
                r,
            ),
            (None, None) => self.same_overlay(post) && self.base_fs.hard_link_post(
                original,
                link,
                &post.base_fs,
                r,
            ),
            _ => self.same(post) && r == Err::<(), ErrorKind>(ErrorKind::Other),
        }
    }

    open spec fn remove_dir_post(&self, path: Seq<char>, post: &Self, r: Result<(), ErrorKind>) -> bool {
        match self.route(path) {
            Route::Fail(e) => self.same(post) && r == Err::<(), ErrorKind>(e),
            Route::Overlay(q) => self.same_base(post) && self.overlay_fs.remove_dir_post(
                q,
                &post.overlay_fs,
                r,
            ),
            Route::Base => self.same_overlay(post) && self.base_fs.remove_dir_post(
                path,
                &post.base_fs,
                r,
            ),
        }
    }

    open spec fn remove_dir_all_post(
        &self,
        path: Seq<char>,
        post: &Self,
        r: Result<(), ErrorKind>,
    ) -> bool {
        match self.route(path) {
            Route::Fail(e) => self.same(post) && r == Err::<(), ErrorKind>(e),
            Route::Overlay(q) => self.same_base(post) && self.overlay_fs.remove_dir_all_post(
                q,
                &post.overlay_fs,
                r,
            ),
            Route::Base => self.same_overlay(post) && self.base_fs.remove_dir_all_post(
                path,
                &post.base_fs,
                r,
            ),
        }
    }

    open spec fn remove_file_post(&self, path: Seq<char>, post: &Self, r: Result<(), ErrorKind>) -> bool {
        match self.route(path) {
            Route::Fail(e) => self.same(post) && r == Err::<(), ErrorKind>(e),
            Route::Overlay(q) => self.same_base(post) && self.overlay_fs.remove_file_post(
                q,
                &post.overlay_fs,
                r,
            ),
            Route::Base => self.same_overlay(post) && self.base_fs.remove_file_post(
                path,
                &post.base_fs,
                r,
            ),
        }
    }

    open spec fn rename_post(
        &self,
        from: Seq<char>,
        to: Seq<char>,
        post: &Self,
        r: Result<(), ErrorKind>,
    ) -> bool {
        match (self.stripped(from), self.stripped(to)) {
            (Some(f), Some(t)) => self.same_base(post) && self.overlay_fs.rename_post(
                f,
                t,
                &post.overlay_fs,
                r,
            ),
            (None, None) => self.same_overlay(post) && self.base_fs.rename_post(
                from,
                to,
                &post.base_fs,
                r,
            ),
            (Some(f), None) => post.mount_point == self.mount_point && exists|
                copied: Result<u64, ErrorKind>,
            |
                #![trigger Self::carried(&self.overlay_fs, f, &self.base_fs, to, &post.base_fs, copied)]
                Self::carried(&self.overlay_fs, f, &self.base_fs, to, &post.base_fs, copied)
                    && match copied {
                    Err(e) => r == Err::<(), ErrorKind>(e) && post.overlay_fs == self.overlay_fs,
                    Ok(_) => self.overlay_fs.remove_file_post(f, &post.overlay_fs, r),
                },
            (None, Some(t)) => post.mount_point == self.mount_point && exists|
                copied: Result<u64, ErrorKind>,
            |
                #![trigger Self::carried(&self.base_fs, from, &self.overlay_fs, t, &post.overlay_fs, copied)]
                Self::carried(&self.base_fs, from, &self.overlay_fs, t, &post.overlay_fs, copied)
                    && match copied {
                    Err(e) => r == Err::<(), ErrorKind>(e) && post.base_fs == self.base_fs,
                    Ok(_) => self.base_fs.remove_file_post(from, &post.base_fs, r),
                },
        }
    }

    open spec fn set_permissions_post(
        &self,
        path: Seq<char>,
        perm: Self::Permissions,
        post: &Self,
        r: Result<(), ErrorKind>,
    ) -> bool {
        match self.route(path) {
            Route::Fail(e) => self.same(post) && r == Err::<(), ErrorKind>(e),
            Route::Overlay(q) => match perm {
                StackedPermissions::Overlay(p) => self.same_base(post)
                    && self.overlay_fs.set_permissions_post(q, p, &post.overlay_fs, r),
                StackedPermissions::Base(_) => self.same(post) && r == Err::<(), ErrorKind>(
                    ErrorKind::Other,
                ),
            },
            Route::Base => match perm {
                StackedPermissions::Base(p) => self.same_overlay(post)
                    && self.base_fs.set_permissions_post(path, p, &post.base_fs, r),
                StackedPermissions::Overlay(_) => self.same(post) && r == Err::<(), ErrorKind>(
                    ErrorKind::Other,
                ),
            },
        }
    }

    open spec fn write_post(
        &self,
        path: Seq<char>,
        contents: Seq<u8>,
        post: &Self,
        r: Result<(), ErrorKind>,
    ) -> bool {
        match self.stripped(path) {
            Some(q) => self.same_base(post) && self.overlay_fs.write_post(
                q,
                contents,
                &post.overlay_fs,
                r,
            ),
            None => self.same_overlay(post) && self.base_fs.write_post(
                path,
                contents,
                &post.base_fs,
                r,
            ),
        }
    }

    open spec fn open_post(
        &self,
        flags: OpenFlags,
        path: Seq<char>,
        post: &Self,
        r: Result<Self::File, ErrorKind>,
    ) -> bool {
        match self.stripped(path) {
            Some(q) => self.same_base(post) && match r {
                Ok(StackedFile::Overlay { data, mount_point }) => mount_point == self.mount_point
                    && self.overlay_fs.open_post(flags, q, &post.overlay_fs, Ok(data)),
                Ok(StackedFile::Base(_)) => false,
                Err(e) => self.overlay_fs.open_post(flags, q, &post.overlay_fs, Err(e)),
            },
            None => self.same_overlay(post) && match r {
                Ok(StackedFile::Base(data)) => self.base_fs.open_post(
                    flags,
                    path,
                    &post.base_fs,
                    Ok(data),
                ),
                Ok(StackedFile::Overlay { .. }) => false,
                Err(e) => self.base_fs.open_post(flags, path, &post.base_fs, Err(e)),
            },
        }
    }

    proof fn lemma_created_exists(
        &self,
        path: Seq<char>,
        post: &Self,
        r: Result<(), ErrorKind>,
    ) {
        match self.stripped(path) {
            Some(q) => {
                self.overlay_fs.lemma_created_exists(q, &post.overlay_fs, r);
            },
            None => {
                self.base_fs.lemma_created_exists(path, &post.base_fs, r);
            },
        }
    }

    proof fn lemma_written_reads(
        &self,
        path: Seq<char>,
        contents: Seq<u8>,
        post: &Self,
        r: Result<(), ErrorKind>,
    ) {
        match self.stripped(path) {
            Some(q) => {
                self.overlay_fs.lemma_written_reads(q, contents, &post.overlay_fs, r);
                if r is Ok {
                    post.overlay_fs.lemma_readable_exists(q);
                }
            },
            None => {
                self.base_fs.lemma_written_reads(path, contents, &post.base_fs, r);
            },
        }
    }

    proof fn lemma_readable_exists(&self, path: Seq<char>) {
        match self.route(path) {
            Route::Base => {
                self.base_fs.lemma_readable_exists(path);
            },
            _ => {},
        }
    }

    proof fn lemma_built_exists(&self, path: Seq<char>, post: &Self, r: Result<(), ErrorKind>) {
        match self.stripped(path) {
            Some(q) => {
                self.overlay_fs.lemma_built_exists(q, &post.overlay_fs, r);
            },
            None => {
                self.base_fs.lemma_built_exists(path, &post.base_fs, r);
            },
        }
    }

    proof fn lemma_renamed_reads(
        &self,
        from: Seq<char>,
        to: Seq<char>,
        post: &Self,
        r: Result<(), ErrorKind>,
    ) {
        if r is Ok {
            match (self.stripped(from), self.stripped(to)) {
                (Some(f), Some(t)) => {
                    self.overlay_fs.lemma_renamed_reads(f, t, &post.overlay_fs, r);
                },
                (None, None) => {
                    self.base_fs.lemma_renamed_reads(from, to, &post.base_fs, r);
                },
                (Some(f), None) => {
                    let copied = choose|copied: Result<u64, ErrorKind>|
                        #![trigger Self::carried(&self.overlay_fs, f, &self.base_fs, to, &post.base_fs, copied)]
                        Self::carried(&self.overlay_fs, f, &self.base_fs, to, &post.base_fs, copied)
                            && match copied {
                            Err(e) => r == Err::<(), ErrorKind>(e) && post.overlay_fs
                                == self.overlay_fs,
                            Ok(_) => self.overlay_fs.remove_file_post(f, &post.overlay_fs, r),
                        };
                    let bytes = self.overlay_fs.read_spec(f)->Ok_0;
                    self.overlay_fs.lemma_readable_exists(f);
                    self.base_fs.lemma_written_reads(to, bytes, &post.base_fs, Ok(()));
                    post.base_fs.lemma_readable_exists(to);
                },
                (None, Some(t)) => {
                    let copied = choose|copied: Result<u64, ErrorKind>|
                        #![trigger Self::carried(&self.base_fs, from, &self.overlay_fs, t, &post.overlay_fs, copied)]
                        Self::carried(
                            &self.base_fs,
                            from,
                            &self.overlay_fs,
                            t,
                            &post.overlay_fs,
                            copied,
                        ) && match copied {
                            Err(e) => r == Err::<(), ErrorKind>(e) && post.base_fs == self.base_fs,
                            Ok(_) => self.base_fs.remove_file_post(from, &post.base_fs, r),
                        };
                    let bytes = self.base_fs.read_spec(from)->Ok_0;
                    self.base_fs.lemma_readable_exists(from);
                    self.overlay_fs.lemma_written_reads(t, bytes, &post.overlay_fs, Ok(()));
                    post.overlay_fs.lemma_readable_exists(t);
                },
            }
        }
    }

    proof fn lemma_linked_alias(
        &self,
        original: Seq<char>,
        link: Seq<char>,
        post: &Self,
        r: Result<(), ErrorKind>,
    ) {
        match (self.stripped(original), self.stripped(link)) {
            (Some(o), Some(l)) => {
                self.overlay_fs.lemma_linked_alias(o, l, &post.overlay_fs, r);
            },
            (None, None) => {
                self.base_fs.lemma_linked_alias(original, link, &post.base_fs, r);
            },
            _ => {},
        }
    }

    fn canonicalize(&self, path: &str) -> (r: Result<String, FsError>) {
        match strip_prefix(path, self.mount_point.as_str()) {
            Some(q) => match self.overlay_fs.canonicalize(q.as_str()) {
                Ok(c) => Ok(remount(self.mount_point.as_str(), c.as_str())),
                Err(e) => Err(e),
            },
            None => self.base_fs.canonicalize(path),
        }
    }

    fn copy(&mut self, from: &str, to: &str) -> (r: Result<u64, FsError>) {
        let source = strip_prefix(from, self.mount_point.as_str());
        let target = strip_prefix(to, self.mount_point.as_str());
        match (source, target) {
            (Some(f), Some(t)) => self.overlay_fs.copy(f.as_str(), t.as_str()),
            (None, None) => self.base_fs.copy(from, to),
            (Some(f), None) => carry(&self.overlay_fs, f.as_str(), &mut self.base_fs, to),
            (None, Some(t)) => carry(&self.base_fs, from, &mut self.overlay_fs, t.as_str()),
        }
    }

    fn create_dir(&mut self, path: &str) -> (r: Result<(), FsError>) {
        match strip_prefix(path, self.mount_point.as_str()) {
            Some(q) => self.overlay_fs.create_dir(q.as_str()),
            None => self.base_fs.create_dir(path),
        }
    }

    fn create_dir_all(&mut self, path: &str) -> (r: Result<(), FsError>) {
        self.build_dir(true, path)
    }

    fn build_dir(&mut self, recursive: bool, path: &str) -> (r: Result<(), FsError>) {
        match strip_prefix(path, self.mount_point.as_str()) {
            Some(q) => self.overlay_fs.build_dir(recursive, q.as_str()),
            None => self.base_fs.build_dir(recursive, path),
        }
    }

    fn try_exists(&self, path: &str) -> (r: Result<bool, FsError>) {
        match self.routed(path) {
            Err(e) => Err(e),
            Ok(Some(_)) => Ok(true),
            Ok(None) => self.base_fs.try_exists(path),
        }
    }

    fn hard_link(&mut self, original: &str, link: &str) -> (r: Result<(), FsError>) {
        let source = strip_prefix(original, self.mount_point.as_str());
        let target = strip_prefix(link, self.mount_point.as_str());
        match (source, target) {
            (Some(o), Some(l)) => self.overlay_fs.hard_link(o.as_str(), l.as_str()),
            (None, None) => self.base_fs.hard_link(original, link),
            _ => Err(
                FsError::new(ErrorKind::Other, "Cannot create hard link across filesystems"),
            ),
        }
    }

    fn metadata(&self, path: &str) -> (r: Result<Self::Metadata, FsError>) {
        match self.routed(path) {
            Err(e) => Err(e),
            Ok(Some(q)) => match self.overlay_fs.metadata(q.as_str()) {
                Ok(m) => Ok(
                    StackedMetadata::Overlay { data: m, mount_point: self.mount_point.clone() },
                ),
                Err(e) => Err(e),
            },
            Ok(None) => match self.base_fs.metadata(path) {
                Ok(m) => Ok(StackedMetadata::Base(m)),
                Err(e) => Err(e),
            },
        }
    }

    fn read(&self, path: &str) -> (r: Result<Vec<u8>, FsError>) {
        match self.routed(path) {
            Err(e) => Err(e),
            Ok(Some(q)) => self.overlay_fs.read(q.as_str()),
            Ok(None) => self.base_fs.read(path),
        }
    }

    fn read_dir(&self, path: &str) -> (r: Result<Self::ReadDir, FsError>) {
        match self.routed(path) {
            Err(e) => Err(e),
            Ok(Some(q)) => match self.overlay_fs.read_dir(q.as_str()) {
                Ok(data) => Ok(
                    StackedReadDir::Overlay { data, mount_point: self.mount_point.clone() },
                ),
                Err(e) => Err(e),
            },
            Ok(None) => match self.base_fs.read_dir(path) {
                Ok(data) => Ok(StackedReadDir::Base(data)),
                Err(e) => Err(e),
            },
        }
    }

    fn read_link(&self, path: &str) -> (r: Result<String, FsError>) {
        match self.routed(path) {
            Err(e) => Err(e),
            Ok(Some(q)) => self.overlay_fs.read_link(q.as_str()),
            Ok(None) => self.base_fs.read_link(path),
        }
    }

    fn read_to_string(&self, path: &str) -> (r: Result<String, FsError>) {
        match self.routed(path) {
            Err(e) => Err(e),
            Ok(Some(q)) => self.overlay_fs.read_to_string(q.as_str()),
            Ok(None) => self.base_fs.read_to_string(path),
        }
    }

    fn remove_dir(&mut self, path: &str) -> (r: Result<(), FsError>) {
        match self.routed(path) {
            Err(e) => Err(e),
            Ok(Some(q)) => self.overlay_fs.remove_dir(q.as_str()),
            Ok(None) => self.base_fs.remove_dir(path),
        }
    }

    fn remove_dir_all(&mut self, path: &str) -> (r: Result<(), FsError>) {
        match self.routed(path) {
            Err(e) => Err(e),
            Ok(Some(q)) => self.overlay_fs.remove_dir_all(q.as_str()),
            Ok(None) => self.base_fs.remove_dir_all(path),
        }
    }

    fn remove_file(&mut self, path: &str) -> (r: Result<(), FsError>) {
        match self.routed(path) {
            Err(e) => Err(e),
            Ok(Some(q)) => self.overlay_fs.remove_file(q.as_str()),
            Ok(None) => self.base_fs.remove_file(path),
        }
    }

    fn rename(&mut self, from: &str, to: &str) -> (r: Result<(), FsError>) {
        let source = strip_prefix(from, self.mount_point.as_str());
        let target = strip_prefix(to, self.mount_point.as_str());
        match (source, target) {
            (Some(f), Some(t)) => self.overlay_fs.rename(f.as_str(), t.as_str()),
            (None, None) => self.base_fs.rename(from, to),
            (Some(f), None) => {
                let copied = carry(&self.overlay_fs, f.as_str(), &mut self.base_fs, to);
                proof {
                    assert(Self::carried(
                        &old(self).overlay_fs,
                        f@,
                        &old(self).base_fs,
                        to@,
                        &self.base_fs,
                        outcome(copied),
                    ));
                }
                match copied {
                    Err(e) => Err(e),
                    Ok(_) => self.overlay_fs.remove_file(f.as_str()),
                }
            },
            (None, Some(t)) => {
                let copied = carry(&self.base_fs, from, &mut self.overlay_fs, t.as_str());
                proof {
                    assert(Self::carried(
                        &old(self).base_fs,
                        from@,
                        &old(self).overlay_fs,
                        t@,
                        &self.overlay_fs,
                        outcome(copied),
                    ));
                }
                match copied {
                    Err(e) => Err(e),
                    Ok(_) => self.base_fs.remove_file(from),
                }
            },
        }
    }

    fn set_permissions(&mut self, path: &str, perm: Self::Permissions) -> (r: Result<(), FsError>) {
        match self.routed(path) {
            Err(e) => Err(e),
            Ok(Some(q)) => match perm {
                StackedPermissions::Overlay(p) => self.overlay_fs.set_permissions(q.as_str(), p),
                StackedPermissions::Base(_) => Err(
                    FsError::new(
                        ErrorKind::Other,
                        "Permission type does not match filesystem type",
                    ),
                ),
            },
            Ok(None) => match perm {
                StackedPermissions::Base(p) => self.base_fs.set_permissions(path, p),
                StackedPermissions::Overlay(_) => Err(
                    FsError::new(
                        ErrorKind::Other,
                        "Permission type does not match filesystem type",
                    ),
                ),
            },
        }
    }

    fn symlink_metadata(&self, path: &str) -> (r: Result<Self::Metadata, FsError>) {
        match self.routed(path) {
            Err(e) => Err(e),
            Ok(Some(q)) => match self.overlay_fs.symlink_metadata(q.as_str()) {
                Ok(m) => Ok(
                    StackedMetadata::Overlay { data: m, mount_point: self.mount_point.clone() },
                ),
                Err(e) => Err(e),
            },
            Ok(None) => match self.base_fs.symlink_metadata(path) {
                Ok(m) => Ok(StackedMetadata::Base(m)),
                Err(e) => Err(e),
            },
        }
    }

    fn write(&mut self, path: &str, contents: &[u8]) -> (r: Result<(), FsError>) {
        match strip_prefix(path, self.mount_point.as_str()) {
            Some(q) => self.overlay_fs.write(q.as_str(), contents),
            None => self.base_fs.write(path, contents),
        }
    }

    fn open_with(&mut self, flags: OpenFlags, path: &str) -> (r: Result<Self::File, FsError>) {
        match strip_prefix(path, self.mount_point.as_str()) {
            Some(q) => match self.overlay_fs.open_with(flags, q.as_str()) {
                Ok(data) => Ok(
                    StackedFile::Overlay { data, mount_point: self.mount_point.clone() },
                ),
                Err(e) => Err(e),
            },
            None => match self.base_fs.open_with(flags, path) {
                Ok(data) => Ok(StackedFile::Base(data)),
                Err(e) => Err(e),
            },
        }
    }

    fn open_file(&mut self, path: &str) -> (r: Result<Self::File, FsError>) {
        let mut flags = OpenFlags::new();
        flags.read = true;
        self.open_with(flags, path)
    }

    fn create_file(&mut self, path: &str) -> (r: Result<Self::File, FsError>) {
        let mut flags = OpenFlags::new();
        flags.write = true;
        flags.create = true;
        flags.truncate = true;
        self.open_with(flags, path)
    }

    fn create_new_file(&mut self, path: &str) -> (r: Result<Self::File, FsError>) {
        let mut flags = OpenFlags::new();
        flags.read = true;
        flags.write = true;
        flags.create = true;
        flags.create_new = true;
        self.open_with(flags, path)
    }

    fn new_openoptions(&self) -> (o: Self::OpenOptions)
        ensures
            o.spec_flags() == no_flags(),
    {
        StackedOpenOptions { flags: OpenFlags::new(), backends: PhantomData }
    }

    fn new_dirbuilder(&self) -> (b: Self::DirBuilder)
        ensures
            !b.spec_recursive(),
    {
        StackedDirBuilder { recursive: false, backends: PhantomData }
    }
}

/// Shadowing: after a directory is created through the stacked filesystem
/// at a path under the mount point, the path exists in the stacked
/// filesystem and, with the mount point taken off, in the overlay, and the
/// base is as it was.
pub proof fn lemma_overlay_shadows<B: UniFs, O: UniFs>(
    pre: &StackedFs<B, O>,
    path: Seq<char>,
    post: &StackedFs<B, O>,
)
    requires
        pre.inv(),
        post.inv(),
        pre.stripped(path) is Some,
        pre.create_dir_post(path, post, Ok(())),
    ensures
        post.exists_spec(path) == Ok::<bool, ErrorKind>(true),
        post.overlay_fs.exists_spec(pre.stripped(path)->Some_0) == Ok::<bool, ErrorKind>(true),
        post.base_fs == pre.base_fs,
{
    pre.overlay_fs.lemma_created_exists(pre.stripped(path)->Some_0, &post.overlay_fs, Ok(()));
}

/// Copying across domains: after a file outside the mount point is copied
/// to a path under it, reading the new path gives the bytes that the source
/// held; they are in the overlay, and the base is as it was.
pub proof fn lemma_copy_into_overlay<B: UniFs, O: UniFs>(
    pre: &StackedFs<B, O>,
    from: Seq<char>,
    to: Seq<char>,
    post: &StackedFs<B, O>,
    copied: u64,
)
    requires
        pre.inv(),
        post.inv(),
        pre.stripped(from) is None,
        pre.stripped(to) is Some,
        pre.copy_post(from, to, post, Ok(copied)),
    ensures
        pre.base_fs.read_spec(from) is Ok,
        post.read_spec(to) == pre.base_fs.read_spec(from),
        post.overlay_fs.read_spec(pre.stripped(to)->Some_0) == pre.base_fs.read_spec(from),
        copied == length_of(pre.base_fs.read_spec(from)->Ok_0),
        post.base_fs == pre.base_fs,
{
    let t = pre.stripped(to)->Some_0;
    let bytes = pre.base_fs.read_spec(from)->Ok_0;
    pre.overlay_fs.lemma_written_reads(t, bytes, &post.overlay_fs, Ok(()));
    post.overlay_fs.lemma_readable_exists(t);
}

} // verus!
