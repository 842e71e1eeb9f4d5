//! The root-rebasing decorator: a filesystem whose root is a directory of
//! the filesystem it wraps. Every path is put below that directory before
//! it is handed on.

pub use crate::components::get_real_path;
use crate::components::{joined, put_below, relative_components, strip_prefix, strip_prefix_spec};
use crate::error::{outcome, ErrorKind, FsError};
use crate::traits::dir_builder::UniDirBuilder;
use crate::traits::file_system::UniFs;
use crate::traits::open_options::{no_flags, OpenFlags, UniOpenOptions};
use crate::traits::{UniDirEntry, UniFileType, UniMetadata, UniReadDir};
use std::marker::PhantomData;
use vstd::prelude::*;

verus! {

/// A filesystem rooted at the directory `root` of `fs`.
pub struct AltrootFs<FS: UniFs> {
    pub root: String,
    pub fs: FS,
}

/// One entry of a directory listing of a rebased filesystem.
pub struct AltrootDirEntry<T: UniDirEntry> {
    pub root: String,
    pub entry: T,
}

/// A directory listing of a rebased filesystem.
pub struct AltrootReadDir<FS: UniFs> {
    pub root: String,
    pub inner: FS::ReadDir,
}

/// The builder of the options with which a file of a rebased filesystem is
/// opened.
pub struct AltrootOpenOptions<FS: UniFs> {
    flags: OpenFlags,
    backend: PhantomData<FS>,
}

/// The builder of directories of a rebased filesystem.
pub struct AltrootDirBuilder<FS: UniFs> {
    recursive: bool,
    backend: PhantomData<FS>,
}

/// The path below `root` that `path` stands for. Below an empty `root` it
/// is the path's own components, without the root component.
pub open spec fn real_path(root: Seq<char>, path: Seq<char>) -> Seq<char> {
    put_below(root, joined(relative_components(path)))
}

/// A path of the wrapped filesystem as the rebased one reports it: with
/// the root taken off where it lies under the root, else as it is.
pub open spec fn reported(root: Seq<char>, path: Seq<char>) -> Seq<char> {
    match strip_prefix_spec(path, root) {
        Some(p) => p,
        None => path,
    }
}

/// An entry of the wrapped listing, as an entry of the rebased one.
pub open spec fn rebased_entry<T: UniDirEntry>(r: Result<T, ErrorKind>, root: String) -> Result<
    AltrootDirEntry<T>,
    ErrorKind,
> {
    match r {
        Ok(e) => Ok(AltrootDirEntry { root, entry: e }),
        Err(e) => Err(e),
    }
}

impl<FS: UniFs> AltrootOpenOptions<FS> {
    /// The flags set so far.
    pub closed spec fn spec_flags(&self) -> OpenFlags {
        self.flags
    }
}

impl<FS: UniFs> AltrootDirBuilder<FS> {
    /// Whether the directories missing above the target are made too.
    pub closed spec fn spec_recursive(&self) -> bool {
        self.recursive
    }
}

impl<FS: UniFs> AltrootFs<FS> {
    /// What `new` returns for `root` on `fs`: the rebased filesystem where
    /// `root` is a directory, `InvalidInput` where it is something else,
    /// and `NotFound` where its metadata cannot be had.
    pub open spec fn rooted(root: Seq<char>, fs: FS, r: Result<Self, ErrorKind>) -> bool {
        match fs.metadata_spec(root) {
            Ok(m) => if m.spec_file_type().spec_is_dir() {
                r is Ok && r->Ok_0.root@ == root && r->Ok_0.fs == fs
            } else {
                r == Err::<Self, ErrorKind>(ErrorKind::InvalidInput)
            },
            Err(_) => r == Err::<Self, ErrorKind>(ErrorKind::NotFound),
        }
    }

    /// A filesystem rooted at the directory `root` of `fs`.
    pub fn new(root: &str, fs: FS) -> (r: Result<Self, FsError>)
        requires
            fs.inv(),
        ensures
            Self::rooted(root@, fs, outcome(r)),
            r is Ok ==> r->Ok_0.inv(),
    {
        match fs.metadata(root) {
            Ok(metadata) => {
                if metadata.is_dir() {
                    Ok(AltrootFs { root: root.to_owned(), fs })
                } else {
                    Err(FsError::new(ErrorKind::InvalidInput, "Root path is not a directory"))
                }
            },
            Err(_) => Err(FsError::new(ErrorKind::NotFound, "Root path does not exist")),
        }
    }

    /// A filesystem rooted at the directory `root` of `fs`, which is made,
    /// with every directory missing above it, unless `fs` says that it
    /// exists.
    pub fn new_or_create(root: &str, fs: FS) -> (r: Result<Self, FsError>)
        requires
            fs.inv(),
        ensures
            r is Ok ==> r->Ok_0.inv(),
            fs.exists_spec(root@) == Ok::<bool, ErrorKind>(true) ==> Self::rooted(
                root@,
                fs,
                outcome(r),
            ),
            fs.exists_spec(root@) != Ok::<bool, ErrorKind>(true) ==> exists|
                made: FS,
                built: Result<(), ErrorKind>,
            |
                #![trigger fs.build_dir_post(true, root@, &made, built)]
                fs.build_dir_post(true, root@, &made, built) && match built {
                    Ok(_) => Self::rooted(root@, made, outcome(r)),
                    Err(e) => outcome(r) == Err::<Self, ErrorKind>(e),
                },
    {
        let mut fs = fs;
        let present = match fs.try_exists(root) {
            Ok(b) => b,
            Err(_) => false,
        };
        if !present {
            let ghost before = fs;
            let built = fs.create_dir_all(root);
            proof {
                assert(before.build_dir_post(true, root@, &fs, outcome(built)));
            }
            match built {
                Ok(()) => {},
                Err(e) => { return Err(e); },
            }
        }
        Self::new(root, fs)
    }

    /// The path of the wrapped filesystem that `path` stands for.
    pub fn get_real_path(&self, path: &str) -> (r: String)
        ensures
            r@ == real_path(self.root@, path@),
    {
        get_real_path(self.root.as_str(), path)
    }

    /// The wrapped filesystem is what `post` wraps, under the same root.
    pub open spec fn same_root(&self, post: &Self) -> bool {
        post.root == self.root
    }
}

impl<T: UniDirEntry> UniDirEntry for AltrootDirEntry<T> {
    type Metadata = T::Metadata;

    type FileType = T::FileType;

    open spec fn spec_path(&self) -> Seq<char> {
        reported(self.root@, self.entry.spec_path())
    }

    open spec fn spec_file_name(&self) -> Seq<char> {
        self.entry.spec_file_name()
    }

    open spec fn spec_metadata(&self) -> Result<T::Metadata, ErrorKind> {
        self.entry.spec_metadata()
    }

    open spec fn spec_file_type(&self) -> Result<T::FileType, ErrorKind> {
        self.entry.spec_file_type()
    }

    fn path(&self) -> (p: String) {
        let path = self.entry.path();
        match strip_prefix(path.as_str(), self.root.as_str()) {
            Some(stripped) => stripped,
            None => path,
        }
    }

    fn metadata(&self) -> (r: Result<T::Metadata, FsError>) {
        self.entry.metadata()
    }

    fn file_type(&self) -> (r: Result<T::FileType, FsError>) {
        self.entry.file_type()
    }

    fn file_name(&self) -> (n: String) {
        self.entry.file_name()
    }
}

impl<FS: UniFs> UniReadDir for AltrootReadDir<FS> {
    type DirEntry = AltrootDirEntry<FS::DirEntry>;

    open spec fn spec_remaining(&self) -> Seq<Result<Self::DirEntry, ErrorKind>> {
        Seq::new(
            self.inner.spec_remaining().len(),
            |i: int| rebased_entry(self.inner.spec_remaining()[i], self.root),
        )
    }

    fn next(&mut self) -> (r: Option<Result<Self::DirEntry, FsError>>) {
        let r = match self.inner.next() {
            None => None,
            Some(Ok(entry)) => Some(Ok(AltrootDirEntry { root: self.root.clone(), entry })),
            Some(Err(e)) => Some(Err(e)),
        };
        proof {
            if old(self).spec_remaining().len() > 0 {
                assert(self.spec_remaining() =~= old(self).spec_remaining().skip(1));
            }
        }
        r
    }
}

impl<FS: UniFs> UniFs for AltrootFs<FS> {
    type Metadata = FS::Metadata;

    type ReadDir = AltrootReadDir<FS>;

    type DirEntry = AltrootDirEntry<FS::DirEntry>;

    type Permissions = FS::Permissions;

    type File = FS::File;

    type OpenOptions = AltrootOpenOptions<FS>;

    type DirBuilder = AltrootDirBuilder<FS>;

    open spec fn inv(&self) -> bool {
        self.fs.inv()
    }

    open spec fn canonicalize_spec(&self, path: Seq<char>) -> Result<Seq<char>, ErrorKind> {
        match self.fs.canonicalize_spec(real_path(self.root@, path)) {
            Err(e) => Err(e),
            Ok(full) => match self.fs.canonicalize_spec(self.root@) {
                Err(e) => Err(e),
                Ok(root) => match strip_prefix_spec(full, root) {
                    Some(p) => Ok(p),
                    None => Err(ErrorKind::NotFound),
                },
            },
        }
    }

    open spec fn exists_spec(&self, path: Seq<char>) -> Result<bool, ErrorKind> {
        self.fs.exists_spec(real_path(self.root@, path))
    }

    open spec fn metadata_spec(&self, path: Seq<char>) -> Result<FS::Metadata, ErrorKind> {
        self.fs.metadata_spec(real_path(self.root@, path))
    }

    open spec fn read_spec(&self, path: Seq<char>) -> Result<Seq<u8>, ErrorKind> {
        self.fs.read_spec(real_path(self.root@, path))
    }

    open spec fn read_dir_post(&self, path: Seq<char>, r: Result<Self::ReadDir, ErrorKind>) -> bool {
        match r {
            Ok(d) => d.root == self.root && self.fs.read_dir_post(
                real_path(self.root@, path),
                Ok(d.inner),
            ),
            Err(e) => self.fs.read_dir_post(real_path(self.root@, path), Err(e)),
        }
    }

    open spec fn read_link_spec(&self, path: Seq<char>) -> Result<Seq<char>, ErrorKind> {
        self.fs.read_link_spec(real_path(self.root@, path))
    }

    open spec fn symlink_metadata_spec(&self, path: Seq<char>) -> Result<FS::Metadata, ErrorKind> {
        self.fs.symlink_metadata_spec(real_path(self.root@, path))
    }

    open spec fn copy_post(
        &self,
        from: Seq<char>,
        to: Seq<char>,
        post: &Self,
        r: Result<u64, ErrorKind>,
    ) -> bool {
        self.same_root(post) && self.fs.copy_post(
            real_path(self.root@, from),
            real_path(self.root@, to),
            &post.fs,
            r,
        )
    }

    open spec fn create_dir_post(&self, path: Seq<char>, post: &Self, r: Result<(), ErrorKind>) -> bool {
        self.same_root(post) && self.fs.create_dir_post(real_path(self.root@, path), &post.fs, r)
    }

    open spec fn build_dir_post(
        &self,
        recursive: bool,
        path: Seq<char>,
        post: &Self,
        r: Result<(), ErrorKind>,
    ) -> bool {
        self.same_root(post) && self.fs.build_dir_post(
            recursive,
            real_path(self.root@, path),
            &post.fs,
            r,
        )
    }

    open spec fn hard_link_post(
        &self,
        original: Seq<char>,
        link: Seq<char>,
        post: &Self,
        r: Result<(), ErrorKind>,
    ) -> bool {
        self.same_root(post) && self.fs.hard_link_post(
            real_path(self.root@, original),
            real_path(self.root@, link),
            &post.fs,
            r,
        )
    }

    open spec fn remove_dir_post(&self, path: Seq<char>, post: &Self, r: Result<(), ErrorKind>) -> bool {
        self.same_root(post) && self.fs.remove_dir_post(real_path(self.root@, path), &post.fs, r)
    }

    open spec fn remove_dir_all_post(
        &self,
        path: Seq<char>,
        post: &Self,
        r: Result<(), ErrorKind>,
    ) -> bool {
        self.same_root(post) && self.fs.remove_dir_all_post(
            real_path(self.root@, path),
            &post.fs,
            r,
        )
    }

    open spec fn remove_file_post(&self, path: Seq<char>, post: &Self, r: Result<(), ErrorKind>) -> bool {
        self.same_root(post) && self.fs.remove_file_post(real_path(self.root@, path), &post.fs, r)
    }

    open spec fn rename_post(
        &self,
        from: Seq<char>,
        to: Seq<char>,
        post: &Self,
        r: Result<(), ErrorKind>,
    ) -> bool {
        self.same_root(post) && self.fs.rename_post(
            real_path(self.root@, from),
            real_path(self.root@, to),
            &post.fs,
            r,
        )
    }

    open spec fn set_permissions_post(
        &self,
        path: Seq<char>,
        perm: FS::Permissions,
        post: &Self,
        r: Result<(), ErrorKind>,
    ) -> bool {
        self.same_root(post) && self.fs.set_permissions_post(
            real_path(self.root@, path),
            perm,
            &post.fs,
            r,
        )
    }

    open spec fn write_post(
        &self,
        path: Seq<char>,
        contents: Seq<u8>,
        post: &Self,
        r: Result<(), ErrorKind>,
    ) -> bool {
        self.same_root(post) && self.fs.write_post(
            real_path(self.root@, path),
            contents,
            &post.fs,
            r,
        )
    }

    open spec fn open_post(
        &self,
        flags: OpenFlags,
        path: Seq<char>,
        post: &Self,
        r: Result<FS::File, ErrorKind>,
    ) -> bool {
        self.same_root(post) && self.fs.open_post(
            flags,
            real_path(self.root@, path),
            &post.fs,
            r,
        )
    }

    proof fn lemma_created_exists(
        &self,
        path: Seq<char>,
        post: &Self,
        r: Result<(), ErrorKind>,
    ) {
        self.fs.lemma_created_exists(real_path(self.root@, path), &post.fs, r);
    }

    proof fn lemma_written_reads(
        &self,
        path: Seq<char>,
        contents: Seq<u8>,
        post: &Self,
        r: Result<(), ErrorKind>,
    ) {
        self.fs.lemma_written_reads(real_path(self.root@, path), contents, &post.fs, r);
    }

    proof fn lemma_readable_exists(&self, path: Seq<char>) {
        self.fs.lemma_readable_exists(real_path(self.root@, path));
    }

    proof fn lemma_built_exists(&self, path: Seq<char>, post: &Self, r: Result<(), ErrorKind>) {
        self.fs.lemma_built_exists(real_path(self.root@, path), &post.fs, r);
    }

    proof fn lemma_renamed_reads(
        &self,
        from: Seq<char>,
        to: Seq<char>,
        post: &Self,
        r: Result<(), ErrorKind>,
    ) {
        self.fs.lemma_renamed_reads(
            real_path(self.root@, from),
            real_path(self.root@, to),
            &post.fs,
            r,
        );
    }

    proof fn lemma_linked_alias(
        &self,
        original: Seq<char>,
        link: Seq<char>,
        post: &Self,
        r: Result<(), ErrorKind>,
    ) {
        self.fs.lemma_linked_alias(
            real_path(self.root@, original),
            real_path(self.root@, link),
            &post.fs,
            r,
        );
    }

    fn canonicalize(&self, path: &str) -> (r: Result<String, FsError>) {
        let full = match self.fs.canonicalize(self.get_real_path(path).as_str()) {
            Ok(p) => p,
            Err(e) => { return Err(e); },
        };
        let root = match self.fs.canonicalize(self.root.as_str()) {
            Ok(p) => p,
            Err(e) => { return Err(e); },
        };
        match strip_prefix(full.as_str(), root.as_str()) {
            Some(p) => Ok(p),
            None => Err(FsError::new(ErrorKind::NotFound, "Path not found")),
        }
    }

    fn copy(&mut self, from: &str, to: &str) -> (r: Result<u64, FsError>) {
        let from = self.get_real_path(from);
        let to = self.get_real_path(to);
        self.fs.copy(from.as_str(), to.as_str())
    }

    fn create_dir(&mut self, path: &str) -> (r: Result<(), FsError>) {
        let path = self.get_real_path(path);
        self.fs.create_dir(path.as_str())
    }

    fn create_dir_all(&mut self, path: &str) -> (r: Result<(), FsError>) {
        let path = self.get_real_path(path);
        self.fs.create_dir_all(path.as_str())
    }

    fn build_dir(&mut self, recursive: bool, path: &str) -> (r: Result<(), FsError>) {
        let path = self.get_real_path(path);
        self.fs.build_dir(recursive, path.as_str())
    }

    fn try_exists(&self, path: &str) -> (r: Result<bool, FsError>) {
        let path = self.get_real_path(path);
        self.fs.try_exists(path.as_str())
    }

    fn hard_link(&mut self, original: &str, link: &str) -> (r: Result<(), FsError>) {
        let original = self.get_real_path(original);
        let link = self.get_real_path(link);
        self.fs.hard_link(original.as_str(), link.as_str())
    }

    fn metadata(&self, path: &str) -> (r: Result<FS::Metadata, FsError>) {
        let path = self.get_real_path(path);
        self.fs.metadata(path.as_str())
    }

    fn read(&self, path: &str) -> (r: Result<Vec<u8>, FsError>) {
        let path = self.get_real_path(path);
        self.fs.read(path.as_str())
    }

    fn read_dir(&self, path: &str) -> (r: Result<Self::ReadDir, FsError>) {
        let path = self.get_real_path(path);
        match self.fs.read_dir(path.as_str()) {
            Ok(inner) => Ok(AltrootReadDir { root: self.root.clone(), inner }),
            Err(e) => Err(e),
        }
    }

    fn read_link(&self, path: &str) -> (r: Result<String, FsError>) {
        let path = self.get_real_path(path);
        self.fs.read_link(path.as_str())
    }

    fn read_to_string(&self, path: &str) -> (r: Result<String, FsError>) {
        let path = self.get_real_path(path);
        self.fs.read_to_string(path.as_str())
    }

    fn remove_dir(&mut self, path: &str) -> (r: Result<(), FsError>) {
        let path = self.get_real_path(path);
        self.fs.remove_dir(path.as_str())
    }

    fn remove_dir_all(&mut self, path: &str) -> (r: Result<(), FsError>) {
        let path = self.get_real_path(path);
        self.fs.remove_dir_all(path.as_str())
    }

    fn remove_file(&mut self, path: &str) -> (r: Result<(), FsError>) {
        let path = self.get_real_path(path);
        self.fs.remove_file(path.as_str())
    }

    fn rename(&mut self, from: &str, to: &str) -> (r: Result<(), FsError>) {
        let from = self.get_real_path(from);
        let to = self.get_real_path(to);
        self.fs.rename(from.as_str(), to.as_str())
    }

    fn set_permissions(&mut self, path: &str, perm: FS::Permissions) -> (r: Result<(), FsError>) {
        let path = self.get_real_path(path);
        self.fs.set_permissions(path.as_str(), perm)
    }

    fn symlink_metadata(&self, path: &str) -> (r: Result<FS::Metadata, FsError>) {
        let path = self.get_real_path(path);
        self.fs.symlink_metadata(path.as_str())
    }

    fn write(&mut self, path: &str, contents: &[u8]) -> (r: Result<(), FsError>) {
        let path = self.get_real_path(path);
        self.fs.write(path.as_str(), contents)
    }

    fn open_with(&mut self, flags: OpenFlags, path: &str) -> (r: Result<FS::File, FsError>) {
        let path = self.get_real_path(path);
        self.fs.open_with(flags, path.as_str())
    }

    fn open_file(&mut self, path: &str) -> (r: Result<FS::File, FsError>) {
        let path = self.get_real_path(path);
        self.fs.open_file(path.as_str())
    }

    fn create_file(&mut self, path: &str) -> (r: Result<FS::File, FsError>) {
        let path = self.get_real_path(path);
        self.fs.create_file(path.as_str())
    }

    fn create_new_file(&mut self, path: &str) -> (r: Result<FS::File, FsError>) {
        let path = self.get_real_path(path);
        self.fs.create_new_file(path.as_str())
    }

    fn new_openoptions(&self) -> (o: AltrootOpenOptions<FS>)
        ensures
            o.spec_flags() == no_flags(),
    {
        AltrootOpenOptions { flags: OpenFlags::new(), backend: PhantomData }
    }

    fn new_dirbuilder(&self) -> (b: AltrootDirBuilder<FS>)
        ensures
            !b.spec_recursive(),
    {
        AltrootDirBuilder { recursive: false, backend: PhantomData }
    }
}

impl<FS: UniFs> UniOpenOptions for AltrootOpenOptions<FS> {
    type Fs = AltrootFs<FS>;

    open spec fn flags(&self) -> OpenFlags {
        self.spec_flags()
    }

    fn read(&mut self, read: bool) -> (r: &mut Self) {
        self.flags.read = read;
        self
    }

    fn write(&mut self, write: bool) -> (r: &mut Self) {
        self.flags.write = write;
        self
    }

    fn append(&mut self, append: bool) -> (r: &mut Self) {
        self.flags.write = self.flags.write || append;
        self.flags.append = append;
        self
    }

    fn truncate(&mut self, truncate: bool) -> (r: &mut Self) {
        self.flags.truncate = truncate;
        self
    }

    fn create(&mut self, create: bool) -> (r: &mut Self) {
        self.flags.create = create;
        self
    }

    fn create_new(&mut self, create_new: bool) -> (r: &mut Self) {
        self.flags.create = self.flags.create || create_new;
        self.flags.create_new = create_new;
        self
    }

    fn open(&self, fs: &mut AltrootFs<FS>, path: &str) -> (r: Result<FS::File, FsError>) {
        fs.open_with(self.flags, path)
    }
}

impl<FS: UniFs> UniDirBuilder for AltrootDirBuilder<FS> {
    type Fs = AltrootFs<FS>;

    open spec fn is_recursive(&self) -> bool {
        self.spec_recursive()
    }

    fn recursive(&mut self, recursive: bool) -> (r: &mut Self) {
        self.recursive = recursive;
        self
    }

    fn create(&self, fs: &mut AltrootFs<FS>, path: &str) -> (r: Result<(), FsError>) {
        fs.build_dir(self.recursive, path)
    }
}

} // verus!
