//! What every filesystem offers on top of the contract: the walk over a
//! whole directory tree.

use crate::error::{outcome, ErrorKind, FsError};
use crate::traits::file_system::UniFs;
use crate::traits::{UniDirEntry, UniFileType, UniReadDir};
use vstd::prelude::*;

verus! {

/// `entry` stands in the listing of some directory of `fs`.
pub open spec fn listed<F: UniFs>(fs: &F, entry: F::DirEntry) -> bool {
    exists|dir: Seq<char>, listing: F::ReadDir|
        #![trigger fs.read_dir_post(dir, Ok(listing))]
        fs.read_dir_post(dir, Ok(listing)) && listing.spec_remaining().contains(Ok(entry))
}

/// What a walk may return: entries that stand in listings of `fs`, and at
/// most one failure, which ends it.
pub open spec fn walked<F: UniFs>(fs: &F, found: Seq<Result<F::DirEntry, FsError>>) -> bool {
    &&& forall|i: int| 0 <= i < found.len() && found[i] is Ok ==> listed(fs, found[i]->Ok_0)
    &&& forall|i: int| 0 <= i < found.len() - 1 ==> (#[trigger] found[i]) is Ok
}

/// Every stacked entry stands in a listing of `fs`.
pub open spec fn all_listed<F: UniFs>(fs: &F, stack: Seq<F::DirEntry>) -> bool {
    forall|i: int| 0 <= i < stack.len() ==> listed(fs, #[trigger] stack[i])
}

/// The walk has come to `entry`: it is among the entries found, or waits on
/// the stack.
pub open spec fn reached<F: UniFs>(
    found: Seq<Result<F::DirEntry, FsError>>,
    stack: Seq<F::DirEntry>,
    entry: F::DirEntry,
) -> bool {
    ||| exists|i: int| 0 <= i < found.len() && #[trigger] found[i] == Ok::<F::DirEntry, FsError>(entry)
    ||| stack.contains(entry)
}

/// The walk has come to every entry of a listing, none of which failed.
pub open spec fn all_reached<F: UniFs>(
    entries: Seq<Result<F::DirEntry, ErrorKind>>,
    found: Seq<Result<F::DirEntry, FsError>>,
    stack: Seq<F::DirEntry>,
) -> bool {
    forall|i: int|
        0 <= i < entries.len() ==> (#[trigger] entries[i]) is Ok && reached::<F>(
            found,
            stack,
            entries[i]->Ok_0,
        )
}

/// The directory at `dir` is dealt with: it could not be listed, or the
/// walk has come to every entry of a listing of it.
pub open spec fn explored<F: UniFs>(
    fs: &F,
    dir: Seq<char>,
    found: Seq<Result<F::DirEntry, FsError>>,
    stack: Seq<F::DirEntry>,
) -> bool {
    ||| exists|e: ErrorKind| #[trigger] fs.read_dir_post(dir, Err(e))
    ||| exists|listing: F::ReadDir|
        #![trigger fs.read_dir_post(dir, Ok(listing))]
        fs.read_dir_post(dir, Ok(listing)) && all_reached::<F>(
            listing.spec_remaining(),
            found,
            stack,
        )
}

/// The entry is a directory.
pub open spec fn is_directory<E: UniDirEntry>(entry: E) -> bool {
    entry.spec_file_type() is Ok && entry.spec_file_type()->Ok_0.spec_is_dir()
}

/// Nothing is left out: the directory at `path` is dealt with, and so is
/// every directory among the entries found.
pub open spec fn complete<F: UniFs>(
    fs: &F,
    path: Seq<char>,
    found: Seq<Result<F::DirEntry, FsError>>,
    stack: Seq<F::DirEntry>,
) -> bool {
    &&& explored(fs, path, found, stack)
    &&& forall|i: int|
        0 <= i < found.len() && (#[trigger] found[i]) is Ok && is_directory(found[i]->Ok_0)
            ==> explored(fs, found[i]->Ok_0.spec_path(), found, stack)
}

/// The first `n` entries of a listing stand on the stack, in their order,
/// above what stood there before.
pub open spec fn pushed_from<F: UniFs>(
    entries: Seq<Result<F::DirEntry, ErrorKind>>,
    n: int,
    before: Seq<F::DirEntry>,
    after: Seq<F::DirEntry>,
) -> bool {
    &&& 0 <= n <= entries.len()
    &&& after.len() == before.len() + n
    &&& after.take(before.len() as int) == before
    &&& forall|i: int|
        0 <= i < n ==> (#[trigger] entries[i]) == Ok::<F::DirEntry, ErrorKind>(
            after[before.len() + i],
        )
}

/// What putting the entries of the directory at `dir` on the stack does.
/// Without a failure: the directory could not be listed and the stack is as
/// it was, or every entry of a listing of it stands on the stack. With a
/// failure: the entries of a listing before the first that could not be
/// read stand on the stack, and the failure is that of this entry.
pub open spec fn pushed<F: UniFs>(
    fs: &F,
    dir: Seq<char>,
    before: Seq<F::DirEntry>,
    after: Seq<F::DirEntry>,
    failure: Option<ErrorKind>,
) -> bool {
    match failure {
        None => {
            ||| after == before && exists|e: ErrorKind| #[trigger] fs.read_dir_post(dir, Err(e))
            ||| exists|listing: F::ReadDir|
                #![trigger fs.read_dir_post(dir, Ok(listing))]
                fs.read_dir_post(dir, Ok(listing)) && pushed_from::<F>(
                    listing.spec_remaining(),
                    listing.spec_remaining().len() as int,
                    before,
                    after,
                )
        },
        Some(k) => exists|listing: F::ReadDir, n: int|
            #![trigger pushed_from::<F>(listing.spec_remaining(), n, before, after)]
            fs.read_dir_post(dir, Ok(listing)) && pushed_from::<F>(
                listing.spec_remaining(),
                n,
                before,
                after,
            ) && n < listing.spec_remaining().len() && listing.spec_remaining()[n] == Err::<
                F::DirEntry,
                ErrorKind,
            >(k),
    }
}

/// Why a walk ended with a failure of kind `k`: an entry of some listing
/// could not be read, or the file type of an entry that stands in some
/// listing could not be had, or the walk gave up after as many entries as
/// a `usize` can count.
pub open spec fn ended_by<F: UniFs>(fs: &F, entries: nat, k: ErrorKind) -> bool {
    ||| entries == usize::MAX && k == ErrorKind::Other
    ||| exists|entry: F::DirEntry|
        listed(fs, entry) && #[trigger] entry.spec_file_type() == Err::<
            <F::DirEntry as UniDirEntry>::FileType,
            ErrorKind,
        >(k)
    ||| exists|dir: Seq<char>, listing: F::ReadDir, n: int|
        #![trigger fs.read_dir_post(dir, Ok(listing)), listing.spec_remaining()[n]]
        fs.read_dir_post(dir, Ok(listing)) && 0 <= n < listing.spec_remaining().len()
            && listing.spec_remaining()[n] == Err::<F::DirEntry, ErrorKind>(k)
}

/// What the walk from `path` returns. Every entry found stands in a
/// listing of `fs`. Either the walk ended with a failure, which is the last
/// thing found and whose reason is one of those of `ended_by`; or nothing
/// is left out: every entry of a listing of the directory at `path` is
/// found, and so is every entry of a listing of each directory found,
/// except where a directory could not be listed.
pub open spec fn walk_post<F: UniFs>(
    fs: &F,
    path: Seq<char>,
    found: Seq<Result<F::DirEntry, FsError>>,
) -> bool {
    &&& walked(fs, found)
    &&& if found.len() > 0 && found.last() is Err {
        ended_by(fs, (found.len() - 1) as nat, found.last()->Err_0.kind())
    } else {
        complete(fs, path, found, Seq::empty())
    }
}

/// What the walk has come to, it stays with as it goes on.
proof fn lemma_explored_grows<F: UniFs>(
    fs: &F,
    dir: Seq<char>,
    found: Seq<Result<F::DirEntry, FsError>>,
    stack: Seq<F::DirEntry>,
    found2: Seq<Result<F::DirEntry, FsError>>,
    stack2: Seq<F::DirEntry>,
)
    requires
        explored(fs, dir, found, stack),
        forall|x: F::DirEntry| #[trigger]
            reached::<F>(found, stack, x) ==> reached::<F>(found2, stack2, x),
    ensures
        explored(fs, dir, found2, stack2),
{
    if !(exists|e: ErrorKind| #[trigger] fs.read_dir_post(dir, Err(e))) {
        let listing = choose|listing: F::ReadDir|
            #![trigger fs.read_dir_post(dir, Ok(listing))]
            fs.read_dir_post(dir, Ok(listing)) && all_reached::<F>(
                listing.spec_remaining(),
                found,
                stack,
            );
        let entries = listing.spec_remaining();
        assert forall|i: int| 0 <= i < entries.len() implies (#[trigger] entries[i]) is Ok
            && reached::<F>(found2, stack2, entries[i]->Ok_0) by {
            assert(reached::<F>(found, stack, entries[i]->Ok_0));
        }
        assert(fs.read_dir_post(dir, Ok(listing)) && all_reached::<F>(
            listing.spec_remaining(),
            found2,
            stack2,
        ));
    }
}

/// A directory whose entries were put on the stack is dealt with.
proof fn lemma_pushed_explored<F: UniFs>(
    fs: &F,
    dir: Seq<char>,
    before: Seq<F::DirEntry>,
    after: Seq<F::DirEntry>,
    found: Seq<Result<F::DirEntry, FsError>>,
)
    requires
        pushed(fs, dir, before, after, None),
    ensures
        explored(fs, dir, found, after),
{
    if !(exists|e: ErrorKind| #[trigger] fs.read_dir_post(dir, Err(e))) {
        let listing = choose|listing: F::ReadDir|
            #![trigger fs.read_dir_post(dir, Ok(listing))]
            fs.read_dir_post(dir, Ok(listing)) && pushed_from::<F>(
                listing.spec_remaining(),
                listing.spec_remaining().len() as int,
                before,
                after,
            );
        let entries = listing.spec_remaining();
        assert forall|i: int| 0 <= i < entries.len() implies (#[trigger] entries[i]) is Ok
            && reached::<F>(found, after, entries[i]->Ok_0) by {
            assert(entries[i] == Ok::<F::DirEntry, ErrorKind>(after[before.len() + i]));
            assert(after.contains(after[before.len() + i]));
        }
        assert(fs.read_dir_post(dir, Ok(listing)) && all_reached::<F>(
            listing.spec_remaining(),
            found,
            after,
        ));
    }
}

/// Putting entries on the stack leaves what stood there where it stood.
proof fn lemma_pushed_keeps<F: UniFs>(
    fs: &F,
    dir: Seq<char>,
    before: Seq<F::DirEntry>,
    after: Seq<F::DirEntry>,
    failure: Option<ErrorKind>,
)
    requires
        pushed(fs, dir, before, after, failure),
    ensures
        before.len() <= after.len(),
        after.take(before.len() as int) == before,
{
    if after == before {
        assert(after.take(before.len() as int) =~= before);
    }
}

/// A failure while putting entries on the stack is a reason to end the
/// walk.
proof fn lemma_pushed_failed<F: UniFs>(
    fs: &F,
    dir: Seq<char>,
    before: Seq<F::DirEntry>,
    after: Seq<F::DirEntry>,
    k: ErrorKind,
    entries: nat,
)
    requires
        pushed(fs, dir, before, after, Some(k)),
    ensures
        ended_by(fs, entries, k),
{
    let (listing, n) = choose|listing: F::ReadDir, n: int|
        #![trigger pushed_from::<F>(listing.spec_remaining(), n, before, after)]
        fs.read_dir_post(dir, Ok(listing)) && pushed_from::<F>(
            listing.spec_remaining(),
            n,
            before,
            after,
        ) && n < listing.spec_remaining().len() && listing.spec_remaining()[n] == Err::<
            F::DirEntry,
            ErrorKind,
        >(k);
    assert(fs.read_dir_post(dir, Ok(listing)) && 0 <= n < listing.spec_remaining().len()
        && listing.spec_remaining()[n] == Err::<F::DirEntry, ErrorKind>(k));
}

/// The kind of a failure, if there is one.
pub open spec fn kind_of(failure: Option<FsError>) -> Option<ErrorKind> {
    match failure {
        Some(e) => Some(e.kind()),
        None => None,
    }
}

/// Extends every filesystem with the walk.
pub trait UniFsExt: UniFs {
    /// Every entry below `path`: those of the directory itself and, after
    /// each directory among them, those below it. The walk ends at the
    /// first failure to read an entry, which is reported last; a directory
    /// that cannot be listed is passed over.
    fn walk_dir(&self, path: &str) -> (found: Vec<Result<Self::DirEntry, FsError>>)
        requires
            self.inv(),
        ensures
            walk_post(self, path@, found@),
    {
        walk(self, path)
    }
}

impl<T: UniFs> UniFsExt for T {

}

/// Puts the entries of the directory at `path` on the stack; returns the
/// failure, if an entry could not be read. A directory that cannot be
/// listed adds nothing.
fn push_entries<F: UniFs>(fs: &F, path: &str, stack: &mut Vec<F::DirEntry>) -> (failure: Option<
    FsError,
>)
    requires
        fs.inv(),
        all_listed(fs, old(stack)@),
    ensures
        all_listed(fs, final(stack)@),
        pushed(fs, path@, old(stack)@, final(stack)@, kind_of(failure)),
{
    let mut entries = match fs.read_dir(path) {
        Ok(entries) => entries,
        Err(e) => {
            assert(fs.read_dir_post(path@, Err(e.kind())));
            return None;
        },
    };
    let ghost listing = entries;
    let ghost all = listing.spec_remaining();
    let ghost mut taken: int = 0;
    assert(all.skip(0) =~= all);
    assert(stack@.take(stack@.len() as int) =~= stack@);
    loop
        invariant
            fs.read_dir_post(path@, Ok(listing)),
            all == listing.spec_remaining(),
            entries.spec_remaining() == all.skip(taken),
            pushed_from::<F>(all, taken, old(stack)@, stack@),
            all_listed(fs, stack@),
        decreases entries.spec_remaining().len(),
    {
        let ghost before = entries.spec_remaining();
        let ghost held = stack@;
        match entries.next() {
            None => {
                assert(taken == all.len());
                return None;
            },
            Some(Err(e)) => {
                assert(all[taken] == before[0]);
                assert(pushed_from::<F>(listing.spec_remaining(), taken, old(stack)@, stack@));
                return Some(e);
            },
            Some(Ok(entry)) => {
                proof {
                    assert(before[0] == all[taken]);
                    assert(all.contains(Ok(entry)));
                    assert(listed(fs, entry));
                    assert(before.skip(1) =~= all.skip(taken + 1));
                }
                stack.push(entry);
                proof {
                    assert forall|i: int| 0 <= i < stack@.len() implies listed(
                        fs,
                        #[trigger] stack@[i],
                    ) by {
                        if i < held.len() {
                            assert(stack@[i] == held[i]);
                        }
                    }
                    assert(stack@.take(old(stack)@.len() as int) =~= held.take(
                        old(stack)@.len() as int,
                    ));
                    assert forall|i: int| 0 <= i < taken + 1 implies (#[trigger] all[i]) == Ok::<
                        F::DirEntry,
                        ErrorKind,
                    >(stack@[old(stack)@.len() + i]) by {
                        if i < taken {
                            assert(stack@[old(stack)@.len() + i] == held[old(stack)@.len() + i]);
                        }
                    }
                    taken = taken + 1;
                }
            },
        }
    }
}

/// The walk behind `walk_dir`.
pub fn walk<F: UniFs>(fs: &F, path: &str) -> (found: Vec<Result<F::DirEntry, FsError>>)
    requires
        fs.inv(),
    ensures
        walk_post(fs, path@, found@),
{
    let mut found: Vec<Result<F::DirEntry, FsError>> = Vec::new();
    let mut stack: Vec<F::DirEntry> = Vec::new();
    if let Some(e) = push_entries(fs, path, &mut stack) {
        proof {
            lemma_pushed_failed(fs, path@, Seq::<F::DirEntry>::empty(), stack@, e.kind(), 0);
        }
        found.push(Err(e));
        return found;
    }
    proof {
        lemma_pushed_explored(fs, path@, Seq::<F::DirEntry>::empty(), stack@, found@);
    }
    let mut steps: usize = usize::MAX;
    while steps > 0
        invariant
            fs.inv(),
            all_listed(fs, stack@),
            found@.len() == usize::MAX - steps,
            complete(fs, path@, found@, stack@),
            forall|i: int| 0 <= i < found@.len() ==> (#[trigger] found@[i]) is Ok && listed(
                fs,
                found@[i]->Ok_0,
            ),
        decreases steps,
    {
        steps -= 1;
        let ghost held = stack@;
        let entry = match stack.pop() {
            Some(entry) => entry,
            None => {
                assert(stack@ =~= Seq::<F::DirEntry>::empty());
                return found;
            },
        };
        let ghost rest = stack@;
        proof {
            assert(entry == held[held.len() - 1]);
            assert(listed(fs, entry));
            assert forall|i: int| 0 <= i < stack@.len() implies listed(fs, #[trigger] stack@[i]) by {
                assert(stack@[i] == held[i]);
            }
        }
        let failure = match entry.file_type() {
            Ok(file_type) => {
                if file_type.is_dir() {
                    let failure = push_entries(fs, entry.path().as_str(), &mut stack);
                    proof {
                        lemma_pushed_keeps(
                            fs,
                            entry.spec_path(),
                            rest,
                            stack@,
                            kind_of(failure),
                        );
                        if failure is Some {
                            lemma_pushed_failed(
                                fs,
                                entry.spec_path(),
                                rest,
                                stack@,
                                failure->Some_0.kind(),
                                found@.len(),
                            );
                        } else {
                            lemma_pushed_explored(
                                fs,
                                entry.spec_path(),
                                rest,
                                stack@,
                                found@.push(Ok(entry)),
                            );
                        }
                    }
                    failure
                } else {
                    assert(!is_directory(entry));
                    assert(stack@.take(rest.len() as int) =~= rest);
                    None
                }
            },
            Err(e) => {
                proof {
                    assert(entry.spec_file_type() == Err::<
                        <F::DirEntry as UniDirEntry>::FileType,
                        ErrorKind,
                    >(e.kind()));
                    assert(ended_by(fs, found@.len(), e.kind()));
                }
                Some(e)
            },
        };
        let ghost so_far = found@;
        match failure {
            Some(e) => {
                found.push(Err(e));
                proof {
                    assert forall|i: int| 0 <= i < found@.len() - 1 implies (#[trigger] found@[i]) is Ok
                        && listed(fs, found@[i]->Ok_0) by {
                        assert(found@[i] == so_far[i]);
                    }
                    assert(found@.last() == found@[so_far.len() as int]);
                }
                return found;
            },
            None => {
                found.push(Ok(entry));
                proof {
                    assert forall|i: int| 0 <= i < found@.len() implies (#[trigger] found@[i]) is Ok
                        && listed(fs, found@[i]->Ok_0) by {
                        if i < so_far.len() {
                            assert(found@[i] == so_far[i]);
                        }
                    }
                    // what the walk had come to, it still has
                    assert(stack@.take(rest.len() as int) == rest);
                    assert forall|x: F::DirEntry| #[trigger]
                        reached::<F>(so_far, held, x) implies reached::<F>(found@, stack@, x) by {
                        if exists|i: int|
                            0 <= i < so_far.len() && #[trigger] so_far[i] == Ok::<
                                F::DirEntry,
                                FsError,
                            >(x) {
                            let i = choose|i: int|
                                0 <= i < so_far.len() && #[trigger] so_far[i] == Ok::<
                                    F::DirEntry,
                                    FsError,
                                >(x);
                            assert(found@[i] == Ok::<F::DirEntry, FsError>(x));
                        } else {
                            let j = choose|j: int| 0 <= j < held.len() && held[j] == x;
                            if j == held.len() - 1 {
                                assert(found@[so_far.len() as int] == Ok::<F::DirEntry, FsError>(x));
                            } else {
                                assert(rest[j] == held[j]);
                                assert(stack@.take(rest.len() as int)[j] == stack@[j]);
                                assert(stack@.contains(x));
                            }
                        }
                    }
                    lemma_explored_grows(fs, path@, so_far, held, found@, stack@);
                    assert forall|i: int|
                        0 <= i < found@.len() && (#[trigger] found@[i]) is Ok && is_directory(
                            found@[i]->Ok_0,
                        ) implies explored(fs, found@[i]->Ok_0.spec_path(), found@, stack@) by {
                        if i < so_far.len() {
                            assert(found@[i] == so_far[i]);
                            lemma_explored_grows(
                                fs,
                                so_far[i]->Ok_0.spec_path(),
                                so_far,
                                held,
                                found@,
                                stack@,
                            );
                        } else {
                            assert(found@[i]->Ok_0 == entry);
                            assert(found@ == so_far.push(Ok(entry)));
                        }
                    }
                }
            },
        }
    }
    found.push(Err(FsError::new(ErrorKind::Other, "Too many entries to walk")));
    proof {
        assert(found@.len() - 1 == usize::MAX);
    }
    found
}

} // verus!
