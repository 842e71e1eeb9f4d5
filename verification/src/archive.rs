//! What goes into an archive of a filesystem: its regular files, each with
//! the bytes it holds, and its directories, in the order of a walk. Writing
//! the archive itself is left to the caller.

use crate::error::{outcome, ErrorKind, FsError};
use crate::traits::file_system::UniFs;
use crate::traits::file_system_ext::{walk, walk_post};
use crate::traits::{UniDirEntry, UniFileType};
use vstd::prelude::*;

verus! {

/// One member of an archive.
#[derive(Debug)]
pub enum ArchiveItem {
    /// A regular file at `path` that holds `data`.
    File { path: String, data: Vec<u8> },
    /// A directory at `path`.
    Directory { path: String },
}

/// One member of an archive, as plain values.
pub enum ItemView {
    /// A regular file at `path` that holds `data`.
    File { path: Seq<char>, data: Seq<u8> },
    /// A directory at `path`.
    Directory { path: Seq<char> },
}

impl View for ArchiveItem {
    type V = ItemView;

    open spec fn view(&self) -> ItemView {
        match self {
            ArchiveItem::File { path, data } => ItemView::File { path: path@, data: data@ },
            ArchiveItem::Directory { path } => ItemView::Directory { path: path@ },
        }
    }
}

/// The views of a list of members.
pub open spec fn items_view(v: Seq<ArchiveItem>) -> Seq<ItemView> {
    Seq::new(v.len(), |i: int| v[i]@)
}

/// What one entry of a filesystem gives to an archive: a regular file
/// gives a member with the bytes that the filesystem reads at its path, a
/// directory gives a member without content, and anything else gives
/// nothing. It fails where the type of the entry cannot be had or the file
/// cannot be read.
pub open spec fn item_of<F: UniFs>(fs: &F, entry: F::DirEntry) -> Result<Option<ItemView>, ErrorKind> {
    match entry.spec_file_type() {
        Err(k) => Err(k),
        Ok(t) => if t.spec_is_file() {
            match fs.read_spec(entry.spec_path()) {
                Ok(data) => Ok(Some(ItemView::File { path: entry.spec_path(), data })),
                Err(k) => Err(k),
            }
        } else if t.spec_is_dir() {
            Ok(Some(ItemView::Directory { path: entry.spec_path() }))
        } else {
            Ok(None)
        },
    }
}

/// What the entries that a walk found give to an archive, in their order;
/// or the first failure among them, be it of the walk or of an entry.
pub open spec fn collected<F: UniFs>(fs: &F, entries: Seq<Result<F::DirEntry, FsError>>) -> Result<
    Seq<ItemView>,
    ErrorKind,
>
    decreases entries.len(),
{
    if entries.len() == 0 {
        Ok(Seq::empty())
    } else {
        match collected(fs, entries.drop_last()) {
            Err(k) => Err(k),
            Ok(items) => match entries.last() {
                Err(e) => Err(e.kind()),
                Ok(entry) => match item_of(fs, entry) {
                    Err(k) => Err(k),
                    Ok(None) => Ok(items),
                    Ok(Some(item)) => Ok(items.push(item)),
                },
            },
        }
    }
}

/// What `archive_items` returned, as plain values.
pub open spec fn items_outcome(r: Result<Vec<ArchiveItem>, FsError>) -> Result<
    Seq<ItemView>,
    ErrorKind,
> {
    match r {
        Ok(items) => Ok(items_view(items@)),
        Err(e) => Err(e.kind()),
    }
}

/// What `archive_items` returns: what the entries of some walk of the
/// filesystem from `.` give.
pub open spec fn archive_post<F: UniFs>(fs: &F, r: Result<Vec<ArchiveItem>, FsError>) -> bool {
    exists|entries: Seq<Result<F::DirEntry, FsError>>|
        #![trigger collected(fs, entries)]
        walk_post(fs, seq!['.'], entries) && items_outcome(r) == collected(fs, entries)
}

/// A failure among the first entries is the failure of the whole.
proof fn lemma_collect_fails<F: UniFs>(
    fs: &F,
    entries: Seq<Result<F::DirEntry, FsError>>,
    n: int,
    k: ErrorKind,
)
    requires
        0 <= n <= entries.len(),
        collected(fs, entries.take(n)) == Err::<Seq<ItemView>, ErrorKind>(k),
    ensures
        collected(fs, entries) == Err::<Seq<ItemView>, ErrorKind>(k),
    decreases entries.len() - n,
{
    if n == entries.len() {
        assert(entries.take(n) =~= entries);
    } else {
        assert(entries.take(n + 1).drop_last() =~= entries.take(n));
        lemma_collect_fails(fs, entries, n + 1, k);
    }
}

/// The members of an archive of the filesystem: every regular file that a
/// walk from `.` finds, with the bytes it holds, and every directory, in
/// the order in which the walk finds them. Fails with the first failure of
/// the walk, and where a file found cannot be read.
pub fn archive_items<F: UniFs>(fs: &F) -> (r: Result<Vec<ArchiveItem>, FsError>)
    requires
        fs.inv(),
    ensures
        archive_post(fs, r),
{
    proof {
        reveal_strlit(".");
    }
    let entries = walk(fs, ".");
    assert("."@ =~= seq!['.']);
    let mut items: Vec<ArchiveItem> = Vec::new();
    let mut i: usize = 0;
    assert(entries@.take(0) =~= Seq::empty());
    assert(items_view(items@) =~= Seq::empty());
    while i < entries.len()
        invariant
            fs.inv(),
            i <= entries@.len(),
            walk_post(fs, seq!['.'], entries@),
            collected(fs, entries@.take(i as int)) == Ok::<Seq<ItemView>, ErrorKind>(
                items_view(items@),
            ),
        decreases entries@.len() - i,
    {
        let ghost before = items@;
        proof {
            assert(entries@.take(i + 1).drop_last() =~= entries@.take(i as int));
            assert(entries@.take(i + 1).last() == entries@[i as int]);
        }
        let entry = match &entries[i] {
            Ok(entry) => entry,
            Err(e) => {
                let r = Err(FsError::new(e.kind(), e.message()));
                proof {
                    lemma_collect_fails(fs, entries@, i + 1, e.kind());
                }
                return r;
            },
        };
        let file_type = match entry.file_type() {
            Ok(t) => t,
            Err(e) => {
                proof {
                    lemma_collect_fails(fs, entries@, i + 1, e.kind());
                }
                return Err(e);
            },
        };
        if file_type.is_file() {
            let path = entry.path();
            match fs.read(path.as_str()) {
                Ok(data) => {
                    items.push(ArchiveItem::File { path, data });
                    proof {
                        assert(items_view(items@) =~= items_view(before).push(items@.last()@));
                    }
                },
                Err(e) => {
                    proof {
                        lemma_collect_fails(fs, entries@, i + 1, e.kind());
                    }
                    return Err(e);
                },
            }
        } else if file_type.is_dir() {
            items.push(ArchiveItem::Directory { path: entry.path() });
            proof {
                assert(items_view(items@) =~= items_view(before).push(items@.last()@));
            }
        }
        i += 1;
    }
    proof {
        assert(entries@.take(i as int) =~= entries@);
    }
    Ok(items)
}

} // verus!
