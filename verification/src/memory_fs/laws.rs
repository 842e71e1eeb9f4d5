//! Laws of the in-memory filesystem: what holds across operations, proved
//! of the model that every operation is specified by.

use crate::error::ErrorKind;
use crate::memory_fs::model::{
    build_dir, canonicalize, deepest_present, hard_link, is_dir_at, locate, lookup, metadata,
    moved, path_exists, read, read_to_string, remove_file, rename, rename_error, resolve,
    touched, with_dirs, wf, FsState, Key, NodeKind,
};
use crate::memory_fs::MemoryFs;
use crate::memory_fs::proofs::{
    lemma_ancestors, lemma_below_means_dir, lemma_put_wf, lemma_rename_wf, lemma_resolve_present,
    lemma_resolve_valid, lemma_root, lemma_valid_take,
};
use crate::path::{
    is_prefix, lemma_normalize_render, lemma_normalize_valid, normalize, render, valid_path,
};
use crate::traits::file_system::UniFs;
use crate::traits::{UniFileType, UniMetadata};
use std::time::SystemTime;
use vstd::prelude::*;

verus! {

/// No hard link stands at the path or at any of its prefixes.
pub open spec fn link_free(s: FsState, k: Key) -> bool {
    forall|n: int| 0 <= n <= k.len() ==> !(#[trigger] s.files.contains_key(k.take(n))
        && s.files[k.take(n)].kind is HardLink)
}

/// Resolving a path on which no link stands gives that path.
pub proof fn lemma_resolve_link_free(s: FsState, k: Key)
    requires
        link_free(s, k),
    ensures
        resolve(s, k) == k,
    decreases k.len(),
{
    if k.len() > 0 {
        let p = k.drop_last();
        assert forall|n: int| 0 <= n <= p.len() implies !(#[trigger] s.files.contains_key(p.take(n))
            && s.files[p.take(n)].kind is HardLink) by {
            assert(p.take(n) =~= k.take(n));
        }
        lemma_resolve_link_free(s, p);
        assert(p.push(k.last()) =~= k);
        assert(k.take(k.len() as int) =~= k);
    }
}

/// `canonicalize` is idempotent on canonical paths: the string form of a
/// valid path on which no link stands is canonicalized to itself.
pub proof fn lemma_canonicalize_canonical(s: FsState, k: Key)
    requires
        valid_path(k),
        link_free(s, k),
    ensures
        canonicalize(s, render(k)) == Ok::<Seq<char>, ErrorKind>(render(k)),
{
    lemma_normalize_render(k);
    lemma_resolve_link_free(s, k);
}

/// `canonicalize` is idempotent: where it gives the path of an entry that is
/// no hard link, canonicalizing its result gives that result again.
pub proof fn lemma_canonicalize_idempotent(s: FsState, path: Seq<char>)
    requires
        wf(s),
        lookup(s, path) is Some,
        s.files.contains_key(lookup(s, path)->Some_0),
        !(s.files[lookup(s, path)->Some_0].kind is HardLink),
    ensures
        canonicalize(s, canonicalize(s, path)->Ok_0) == canonicalize(s, path),
{
    let k = lookup(s, path)->Some_0;
    lemma_normalize_valid(path);
    lemma_resolve_valid(s, normalize(path)->Some_0);
    lemma_normalize_render(k);
    lemma_resolve_present(s, k);
}

/// Entries that are no hard links, put where nothing stood, change no
/// resolution.
pub proof fn lemma_resolve_stable(s: FsState, t: FsState, c: Key)
    requires
        forall|k: Key| #[trigger]
            s.files.contains_key(k) ==> t.files.contains_key(k) && t.files[k].kind
                == s.files[k].kind,
        forall|k: Key| #[trigger]
            t.files.contains_key(k) && !s.files.contains_key(k) ==> !(t.files[k].kind is HardLink),
    ensures
        resolve(t, c) == resolve(s, c),
    decreases c.len(),
{
    if c.len() > 0 {
        lemma_resolve_stable(s, t, c.drop_last());
        let k = resolve(s, c.drop_last()).push(c.last());
        if s.files.contains_key(k) {
            assert(t.files.contains_key(k));
        }
    }
}

/// Along a path that resolves to an entry, every step of the walk meets an
/// entry, and every step but the last ends at a directory.
pub proof fn lemma_walk_present(s: FsState, c: Key, i: int)
    requires
        wf(s),
        s.files.contains_key(resolve(s, c)),
        0 <= i <= c.len(),
    ensures
        s.files.contains_key(resolve(s, c.take(i))),
        s.files.contains_key(locate(s, c.take(i))),
        i < c.len() ==> is_dir_at(s, resolve(s, c.take(i))),
    decreases c.len() - i,
{
    let q = c.take(i);
    if i == c.len() {
        assert(q =~= c);
    } else {
        lemma_walk_present(s, c, i + 1);
        let q1 = c.take(i + 1);
        assert(q1.drop_last() =~= q);
        let x = resolve(s, q).push(q1.last());
        assert(locate(s, q1) == x);
        assert(x.drop_last() =~= resolve(s, q));
        assert(s.files.contains_key(x) && x.len() > 0);
        assert(is_dir_at(s, x.drop_last()));
    }
}

/// Making the missing directories below the deepest one that is there
/// keeps the filesystem well formed.
pub proof fn lemma_with_dirs_wf(s: FsState, k: Key, depth: int, now: SystemTime)
    requires
        wf(s),
        valid_path(k),
        0 <= depth <= k.len(),
        is_dir_at(s, k.take(depth)),
        forall|e: int| depth < e <= k.len() ==> !s.files.contains_key(#[trigger] k.take(e)),
    ensures
        wf(with_dirs(s, k, depth, now)),
{
    let t = with_dirs(s, k, depth, now);
    assert forall|q: Key| #[trigger] t.files.contains_key(q) && q.len() > 0 implies is_dir_at(
        t,
        q.drop_last(),
    ) by {
        let p = q.drop_last();
        if s.files.contains_key(q) {
            assert(is_dir_at(s, p));
        } else {
            assert(p =~= k.take(q.len() - 1));
            if q.len() - 1 > depth {
                assert(is_prefix(p, k)) by {
                    assert(k.take(p.len() as int) =~= p);
                }
                assert(!s.files.contains_key(k.take(q.len() - 1)));
            }
        }
    }
    assert forall|q: Key| #[trigger] t.files.contains_key(q) implies valid_path(q)
        && crate::memory_fs::model::node_ok(t, t.files[q]) by {
        if s.files.contains_key(q) {
            assert(crate::memory_fs::model::node_ok(s, s.files[q]));
        } else {
            lemma_valid_take(k, q.len() as int);
        }
    }
    assert forall|k1: Key, k2: Key|
        #![trigger t.files.contains_key(k1), t.files.contains_key(k2)]
        crate::memory_fs::model::is_file_at(t, k1) && crate::memory_fs::model::is_file_at(t, k2)
            && t.files[k1].kind == t.files[k2].kind implies k1 == k2 by {
        assert(s.files.contains_key(k1) && s.files.contains_key(k2));
    }
}

/// `build_dir` keeps the filesystem well formed, whatever it returns.
pub proof fn lemma_build_dir_wf(s: FsState, recursive: bool, path: Seq<char>, now: SystemTime)
    requires
        wf(s),
    ensures
        wf(build_dir(s, recursive, path, now).0),
{
    if lookup(s, path) is Some {
        let c = normalize(path)->Some_0;
        let k = resolve(s, c);
        lemma_normalize_valid(path);
        lemma_resolve_valid(s, c);
        if !s.files.contains_key(k) {
            if recursive {
                let depth = deepest_present(s, k);
                lemma_deepest_bounds(s, k);
                if is_dir_at(s, k.take(depth)) {
                    lemma_with_dirs_wf(s, k, depth, now);
                }
            } else if crate::memory_fs::model::create_dir_at(s, k, now).1 is Ok {
                if k.len() == 0 {
                    lemma_root(s, k);
                }
                lemma_put_wf(
                    s,
                    k,
                    crate::memory_fs::model::fresh(NodeKind::Directory, now),
                    s.buffers,
                );
            }
        }
    }
}

/// After `create_dir_all(p)` succeeds the filesystem is well formed and `p`
/// exists. Every ancestor of `p`, as `p` is written, exists and is reported
/// as a directory; so is every prefix of the resolved form of `p` above it.
/// Every entry that was there before is there unchanged, and no file has
/// other bytes.
pub proof fn lemma_create_dir_all(s: FsState, path: Seq<char>, now: SystemTime)
    requires
        wf(s),
        build_dir(s, true, path, now).1 is Ok,
    ensures
        ({
            let t = build_dir(s, true, path, now).0;
            let c = normalize(path)->Some_0;
            let k = lookup(s, path)->Some_0;
            &&& wf(t)
            &&& lookup(t, path) == Some(k)
            &&& path_exists(t, path) == Ok::<bool, ErrorKind>(true)
            &&& forall|n: int|
                0 <= n < c.len() ==> path_exists(t, render(#[trigger] c.take(n))) == Ok::<
                    bool,
                    ErrorKind,
                >(true)
            &&& forall|n: int|
                0 <= n < c.len() ==> metadata(t, render(#[trigger] c.take(n))) is Ok && metadata(
                    t,
                    render(c.take(n)),
                )->Ok_0.file_type == crate::FileType::Directory
            &&& forall|n: int| 0 <= n < k.len() ==> is_dir_at(t, #[trigger] k.take(n))
            &&& forall|q: Key| #[trigger]
                s.files.contains_key(q) ==> t.files.contains_key(q) && t.files[q] == s.files[q]
            &&& t.buffers == s.buffers
        }),
{
    let t = build_dir(s, true, path, now).0;
    let c = normalize(path)->Some_0;
    let k = resolve(s, c);
    lemma_build_dir_wf(s, true, path, now);
    lemma_resolve_stable(s, t, c);
    lemma_normalize_valid(path);
    assert(k.take(k.len() as int) =~= k);
    if s.files.contains_key(k) {
        assert forall|n: int| 0 <= n < k.len() implies is_dir_at(t, #[trigger] k.take(n)) by {
            lemma_ancestors(s, k, n);
        }
    } else {
        let depth = deepest_present(s, k);
        lemma_deepest_bounds(s, k);
        assert(is_prefix(k, k));
        assert forall|n: int| 0 <= n < k.len() implies is_dir_at(t, #[trigger] k.take(n)) by {
            let q = k.take(n);
            assert(k.take(q.len() as int) =~= q);
            if n < depth {
                lemma_ancestors(s, k.take(depth), n);
                assert(k.take(depth).take(n) =~= q);
            }
        }
    }
    assert(t.files.contains_key(resolve(t, c)));
    assert forall|n: int| 0 <= n < c.len() implies path_exists(t, render(#[trigger] c.take(n)))
        == Ok::<bool, ErrorKind>(true) && metadata(t, render(c.take(n))) is Ok && metadata(
        t,
        render(c.take(n)),
    )->Ok_0.file_type == crate::FileType::Directory by {
        let q = c.take(n);
        lemma_valid_take(c, n);
        lemma_normalize_render(q);
        lemma_walk_present(t, c, n);
        assert(is_dir_at(t, resolve(t, q)));
    }
}

/// The deepest prefix that has an entry lies within the path.
pub proof fn lemma_deepest_bounds(s: FsState, k: Key)
    ensures
        0 <= deepest_present(s, k) <= k.len(),
        s.files.contains_key(k) ==> deepest_present(s, k) == k.len(),
        forall|e: int|
            deepest_present(s, k) < e <= k.len() ==> !s.files.contains_key(#[trigger] k.take(e)),
    decreases k.len(),
{
    if !(k.len() == 0 || s.files.contains_key(k)) {
        let p = k.drop_last();
        lemma_deepest_bounds(s, p);
        assert forall|e: int| deepest_present(s, k) < e <= k.len() implies !s.files.contains_key(
            #[trigger] k.take(e),
        ) by {
            if e == k.len() {
                assert(k.take(e) =~= k);
            } else {
                assert(k.take(e) =~= p.take(e));
            }
        }
    }
}

/// After `write(p, b)` succeeds, `read(p)` gives exactly `b`, whatever the
/// bytes are, and the metadata of `p` reports a file of the length of `b`.
pub proof fn lemma_write_then_read(s: FsState, path: Seq<char>, bytes: Seq<u8>, now: SystemTime)
    requires
        wf(s),
        crate::memory_fs::model::write(s, path, bytes, now).1 is Ok,
    ensures
        read(crate::memory_fs::model::write(s, path, bytes, now).0, path) == Ok::<Seq<u8>, ErrorKind>(
            bytes,
        ),
        path_exists(crate::memory_fs::model::write(s, path, bytes, now).0, path) == Ok::<
            bool,
            ErrorKind,
        >(true),
        metadata(crate::memory_fs::model::write(s, path, bytes, now).0, path) is Ok,
        metadata(crate::memory_fs::model::write(s, path, bytes, now).0, path)->Ok_0.file_type
            == crate::FileType::File,
        metadata(crate::memory_fs::model::write(s, path, bytes, now).0, path)->Ok_0.len
            == bytes.len() as u64,
{
    let t = crate::memory_fs::model::write(s, path, bytes, now).0;
    let c = normalize(path)->Some_0;
    let k = resolve(s, c);
    lemma_resolve_stable(s, t, c);
    if s.files.contains_key(k) {
        assert(crate::memory_fs::model::node_ok(s, s.files[k]));
    }
}

/// After `rename(a, b)` succeeds: `b` has an entry of the kind that `a`
/// had, so a file there has the buffer it had, and reads as it did; the
/// buffers and the cursors are untouched, so a handle opened before still
/// reads and writes the bytes that are now read at `b`; below
/// `b` stands exactly what stood below `a`, each entry unchanged; and what
/// lay neither at or below `a` nor at or below `b` is as it was. The path
/// `b` exists unless the entry moved there is a hard link, which exists as
/// far as its target does.
pub proof fn lemma_rename_moves(s: FsState, from: Seq<char>, to: Seq<char>, now: SystemTime)
    requires
        wf(s),
        rename(s, from, to, now).1 is Ok,
    ensures
        ({
            let t = rename(s, from, to, now).0;
            let a = lookup(s, from)->Some_0;
            let b = normalize(to)->Some_0;
            &&& wf(t)
            &&& t.buffers == s.buffers
            &&& t.cursors == s.cursors
            &&& t.files.contains_key(b)
            &&& t.files[b].kind == s.files[a].kind
            &&& !(s.files[a].kind is HardLink) ==> path_exists(t, to) == Ok::<bool, ErrorKind>(true)
            &&& s.files[a].kind is File ==> read(t, to) == read(s, from)
            &&& forall|x: Key|
                t.files.contains_key(#[trigger] (b + x)) == s.files.contains_key(a + x)
            &&& forall|x: Key|
                x.len() > 0 && s.files.contains_key(a + x) ==> #[trigger] t.files[b + x]
                    == s.files[a + x]
            &&& forall|q: Key|
                !is_prefix(a, q) && !is_prefix(b, q) ==> (#[trigger] t.files.contains_key(q))
                    == s.files.contains_key(q) && (s.files.contains_key(q) ==> t.files[q]
                    == s.files[q])
        }),
{
    let t = rename(s, from, to, now).0;
    let a = lookup(s, from)->Some_0;
    let b = normalize(to)->Some_0;
    lemma_normalize_valid(to);
    lemma_rename_wf(s, a, b, now);
    assert(a + Seq::<Seq<char>>::empty() =~= a);
    assert(b + Seq::<Seq<char>>::empty() =~= b);
    lemma_resolve_present(t, b);
    assert forall|x: Key| t.files.contains_key(#[trigger] (b + x)) == s.files.contains_key(
        a + x,
    ) by {
        assert((b + x).take(b.len() as int) =~= b);
        assert((b + x).skip(b.len() as int) =~= x);
        if x.len() == 0 {
            assert(a + x =~= a);
            assert(b + x =~= b);
        }
    }
    assert forall|x: Key| x.len() > 0 && s.files.contains_key(a + x) implies #[trigger] t.files[b
        + x] == s.files[a + x] by {
        assert((b + x).take(b.len() as int) =~= b);
        assert((b + x).skip(b.len() as int) =~= x);
        assert(b + x != b);
    }
    if s.files[a].kind is File {
        lemma_normalize_valid(from);
        assert(crate::memory_fs::model::node_ok(s, s.files[a]));
    }
    assert forall|q: Key| !is_prefix(a, q) && !is_prefix(b, q) implies (
    #[trigger] t.files.contains_key(q)) == s.files.contains_key(q) && (s.files.contains_key(q)
        ==> t.files[q] == s.files[q]) by {
        assert(b.take(b.len() as int) =~= b);
        assert(q != b);
    }
}

/// After `rename(a, b)` succeeds, what stood below `a` is reached below
/// `b` by the same names: the path of `b` with the names `x` added exists
/// where `a` with those names did, has metadata of the same type and
/// length, and a file there reads as it did below `a`.
pub proof fn lemma_rename_descendant(
    s: FsState,
    from: Seq<char>,
    to: Seq<char>,
    now: SystemTime,
    x: Key,
)
    requires
        wf(s),
        rename(s, from, to, now).1 is Ok,
        x.len() > 0,
        s.files.contains_key(lookup(s, from)->Some_0 + x),
        !(s.files[lookup(s, from)->Some_0 + x].kind is HardLink),
    ensures
        ({
            let t = rename(s, from, to, now).0;
            let a = lookup(s, from)->Some_0;
            let b = normalize(to)->Some_0;
            &&& path_exists(s, render(a + x)) == Ok::<bool, ErrorKind>(true)
            &&& path_exists(t, render(b + x)) == Ok::<bool, ErrorKind>(true)
            &&& read(t, render(b + x)) == read(s, render(a + x))
            &&& metadata(t, render(b + x)) == metadata(s, render(a + x))
        }),
{
    let t = rename(s, from, to, now).0;
    let a = lookup(s, from)->Some_0;
    let b = normalize(to)->Some_0;
    lemma_rename_moves(s, from, to, now);
    assert(t.files.contains_key(b + x));
    assert(t.files[b + x] == s.files[a + x]);
    lemma_normalize_render(a + x);
    lemma_normalize_render(b + x);
    lemma_resolve_present(s, a + x);
    lemma_resolve_present(t, b + x);
}

/// The walk along the canonical path `c` passes the key `b`: at some name
/// of the path, the key reached, before a link that may stand there is
/// followed, is `b`.
pub open spec fn passes(s: FsState, c: Key, b: Key) -> bool {
    exists|i: int| 0 < i <= c.len() && #[trigger] locate(s, c.take(i)) == b
}

/// After `rename(a, b)` succeeds, `a` no longer exists, where `b` is not
/// the entry that was moved and the way to `a` does not pass `b`. The way
/// may run through hard links. Where it passes `b`, the entry moved there
/// is met on the way, and `a` may well exist afterwards.
pub proof fn lemma_rename_leaves(s: FsState, from: Seq<char>, to: Seq<char>, now: SystemTime)
    requires
        wf(s),
        rename(s, from, to, now).1 is Ok,
        lookup(s, from) != normalize(to),
        !passes(s, normalize(from)->Some_0, normalize(to)->Some_0),
    ensures
        path_exists(rename(s, from, to, now).0, from) == Ok::<bool, ErrorKind>(false),
{
    let t = rename(s, from, to, now).0;
    let c = normalize(from)->Some_0;
    let a = resolve(s, c);
    let b = normalize(to)->Some_0;
    lemma_rename_walk(s, c, b, now, c.len() as int);
    assert(c.take(c.len() as int) =~= c);
    assert(is_prefix(a, a)) by {
        assert(a.take(a.len() as int) =~= a);
    }
    lemma_moved_away(s, a, b, now, resolve(t, c));
}

/// A path that is written as the key of its entry passes no other key that
/// a rename may take as its destination: its way runs through directories.
pub proof fn lemma_plain_way(s: FsState, a: Key, b: Key)
    requires
        wf(s),
        s.files.contains_key(a),
        a != b,
        !is_dir_at(s, b),
    ensures
        resolve(s, a) == a || s.files[a].kind is HardLink,
        !passes(s, a, b),
{
    lemma_resolve_present(s, a);
    assert forall|i: int| 0 < i <= a.len() implies #[trigger] locate(s, a.take(i)) != b by {
        lemma_ancestors(s, a, i);
        lemma_resolve_present(s, a.take(i));
        if a.take(i) == b {
            assert(a.take(a.len() as int) =~= a);
        }
    }
}

/// Nothing is left at or below the place that a rename moved away from.
proof fn lemma_moved_away(s: FsState, a: Key, b: Key, now: SystemTime, q: Key)
    requires
        wf(s),
        rename_error(s, a, b) is None,
        a != b,
        is_prefix(a, q),
    ensures
        !(FsState { files: moved(s.files, a, b).insert(b, touched(s.files[a], now)), ..s })
            .files.contains_key(q),
{
    if is_prefix(b, q) {
        if b.len() <= a.len() {
            assert(a.take(b.len() as int) =~= q.take(a.len() as int).take(b.len() as int));
            assert(q.take(a.len() as int).take(b.len() as int) =~= q.take(b.len() as int));
            assert(is_prefix(b, a));
            lemma_below_means_dir(s, b, a);
        } else {
            assert(b.take(a.len() as int) =~= q.take(b.len() as int).take(a.len() as int));
            assert(q.take(b.len() as int).take(a.len() as int) =~= q.take(a.len() as int));
            assert(is_prefix(a, b));
        }
    }
}

/// The walk after a rename, along a way that does not pass the
/// destination, goes as it went before until it reaches what was moved, and
/// from there on finds nothing.
proof fn lemma_rename_walk(s: FsState, c: Key, b: Key, now: SystemTime, i: int)
    requires
        wf(s),
        rename_error(s, resolve(s, c), b) is None,
        resolve(s, c) != b,
        !passes(s, c, b),
        0 <= i <= c.len(),
    ensures
        ({
            let a = resolve(s, c);
            let t = FsState { files: moved(s.files, a, b).insert(b, touched(s.files[a], now)), ..s };
            resolve(t, c.take(i)) == resolve(s, c.take(i)) || is_prefix(a, resolve(t, c.take(i)))
        }),
    decreases i,
{
    let a = resolve(s, c);
    let t = FsState { files: moved(s.files, a, b).insert(b, touched(s.files[a], now)), ..s };
    if i > 0 {
        lemma_rename_walk(s, c, b, now, i - 1);
        let q = c.take(i);
        assert(q.drop_last() =~= c.take(i - 1));
        let rt = resolve(t, c.take(i - 1));
        let rs = resolve(s, c.take(i - 1));
        if is_prefix(a, rt) {
            let x = rt.push(q.last());
            assert(is_prefix(a, x)) by {
                assert(x.take(a.len() as int) =~= rt.take(a.len() as int));
            }
            lemma_moved_away(s, a, b, now, x);
        } else {
            let x = rs.push(q.last());
            assert(locate(s, q) == x);
            assert(x != b);
            lemma_walk_present(s, c, i);
            if is_prefix(a, x) {
                lemma_moved_away(s, a, b, now, x);
            } else {
                assert(!is_prefix(b, x)) by {
                    if is_prefix(b, x) {
                        lemma_below_means_dir(s, b, x);
                    }
                }
                assert(t.files.contains_key(x) && t.files[x] == s.files[x]);
            }
        }
    }
}

/// A path whose way runs below a path without an entry resolves below it,
/// to a path without an entry.
proof fn lemma_walk_below_absent(s: FsState, c: Key, l: Key, i: int)
    requires
        wf(s),
        !s.files.contains_key(l),
        0 <= i <= c.len(),
        is_prefix(l, resolve(s, c.take(i))),
    ensures
        is_prefix(l, resolve(s, c)),
        !s.files.contains_key(resolve(s, c)),
    decreases c.len() - i,
{
    let r = resolve(s, c.take(i));
    assert(!s.files.contains_key(r)) by {
        if s.files.contains_key(r) {
            lemma_ancestors(s, r, l.len() as int);
        }
    }
    if i == c.len() {
        assert(c.take(i) =~= c);
    } else {
        let q = c.take(i + 1);
        assert(q.drop_last() =~= c.take(i));
        let k = r.push(q.last());
        assert(k.take(l.len() as int) =~= r.take(l.len() as int));
        assert(!s.files.contains_key(k)) by {
            if s.files.contains_key(k) {
                lemma_ancestors(s, k, l.len() as int);
            }
        }
        lemma_walk_below_absent(s, c, l, i + 1);
    }
}

/// An entry put where nothing stood does not change the resolution of a
/// path that resolved to an entry.
proof fn lemma_resolve_unaffected(s: FsState, t: FsState, c: Key, l: Key, i: int)
    requires
        wf(s),
        !s.files.contains_key(l),
        s.files.contains_key(resolve(s, c)),
        forall|k: Key| k != l ==> (#[trigger] t.files.contains_key(k) == s.files.contains_key(k)),
        forall|k: Key| #[trigger] s.files.contains_key(k) ==> t.files[k] == s.files[k],
        0 <= i <= c.len(),
    ensures
        resolve(t, c.take(i)) == resolve(s, c.take(i)),
    decreases i,
{
    if i > 0 {
        lemma_resolve_unaffected(s, t, c, l, i - 1);
        let q = c.take(i);
        assert(q.drop_last() =~= c.take(i - 1));
        let k = resolve(s, c.take(i - 1)).push(q.last());
        if k == l {
            assert(resolve(s, q) == l);
            assert(l.take(l.len() as int) =~= l);
            lemma_walk_below_absent(s, c, l, i);
        }
    }
}

/// After `hard_link(original, link)` succeeds, `link` stands for what
/// `original` stands for: both exist and resolve to one key, so reading
/// either, as bytes or as text, or asking for the metadata or the canonical
/// form of either, gives one answer.
pub proof fn lemma_hard_link_alias(
    s: FsState,
    original: Seq<char>,
    link: Seq<char>,
    now: SystemTime,
)
    requires
        wf(s),
        hard_link(s, original, link, now).1 is Ok,
    ensures
        ({
            let t = hard_link(s, original, link, now).0;
            &&& wf(t)
            &&& lookup(t, link) == lookup(t, original)
            &&& read(t, link) == read(t, original)
            &&& read_to_string(t, link) == read_to_string(t, original)
            &&& metadata(t, link) == metadata(t, original)
            &&& path_exists(t, link) == Ok::<bool, ErrorKind>(true)
            &&& path_exists(t, original) == Ok::<bool, ErrorKind>(true)
            &&& canonicalize(t, link) == canonicalize(t, original)
        }),
{
    let t = hard_link(s, original, link, now).0;
    let o = lookup(s, original)->Some_0;
    let l = normalize(link)->Some_0;
    let c = normalize(original)->Some_0;
    lemma_hard_link_wf(s, original, link, now);
    lemma_resolve_present(t, l);
    lemma_resolve_unaffected(s, t, c, l, c.len() as int);
    assert(c.take(c.len() as int) =~= c);
}

/// A successful `hard_link` keeps the filesystem well formed.
pub proof fn lemma_hard_link_wf(s: FsState, original: Seq<char>, link: Seq<char>, now: SystemTime)
    requires
        wf(s),
        hard_link(s, original, link, now).1 is Ok,
    ensures
        wf(hard_link(s, original, link, now).0),
{
    let o = lookup(s, original)->Some_0;
    let l = normalize(link)->Some_0;
    lemma_normalize_valid(link);
    lemma_normalize_valid(original);
    lemma_resolve_valid(s, normalize(original)->Some_0);
    if l.len() == 0 {
        lemma_root(s, l);
    }
    lemma_put_wf(s, l, crate::memory_fs::model::fresh(NodeKind::HardLink(o), now), s.buffers);
}

/// Removing a link after it was made leaves the filesystem as it was
/// before the link: the original is not touched.
pub proof fn lemma_remove_link_restores(
    s: FsState,
    original: Seq<char>,
    link: Seq<char>,
    now: SystemTime,
)
    requires
        wf(s),
        hard_link(s, original, link, now).1 is Ok,
    ensures
        remove_file(hard_link(s, original, link, now).0, link) == (s, Ok::<(), ErrorKind>(())),
{
    let t = hard_link(s, original, link, now).0;
    let l = normalize(link)->Some_0;
    lemma_hard_link_wf(s, original, link, now);
    lemma_resolve_present(t, l);
    assert(t.files.remove(l) =~= s.files);
}

/// A write through one of two paths that stand for one entry is read
/// through the other, and the two go on standing for one entry: what is
/// written through a hard link is read at the original, and what is written
/// at the original is read through the link.
pub proof fn lemma_write_through_alias(
    s: FsState,
    one: Seq<char>,
    other: Seq<char>,
    bytes: Seq<u8>,
    now: SystemTime,
)
    requires
        wf(s),
        lookup(s, one) == lookup(s, other),
        crate::memory_fs::model::write(s, one, bytes, now).1 is Ok,
    ensures
        read(crate::memory_fs::model::write(s, one, bytes, now).0, other) == Ok::<
            Seq<u8>,
            ErrorKind,
        >(bytes),
        lookup(crate::memory_fs::model::write(s, one, bytes, now).0, other) == lookup(
            crate::memory_fs::model::write(s, one, bytes, now).0,
            one,
        ),
{
    let u = crate::memory_fs::model::write(s, one, bytes, now).0;
    let k = resolve(s, normalize(one)->Some_0);
    lemma_resolve_stable(s, u, normalize(one)->Some_0);
    lemma_resolve_stable(s, u, normalize(other)->Some_0);
    if s.files.contains_key(k) {
        assert(crate::memory_fs::model::node_ok(s, s.files[k]));
    }
}

impl MemoryFs {
    /// After `create_dir_all(p)` succeeds on a filesystem, `p` exists, and
    /// every ancestor of `p`, as `p` is written, exists and is reported as
    /// a directory. What was there before is there unchanged.
    pub proof fn lemma_built_ancestors(
        &self,
        path: Seq<char>,
        post: &MemoryFs,
        r: Result<(), ErrorKind>,
    )
        requires
            self.inv(),
            self.build_dir_post(true, path, post, r),
            r is Ok,
        ensures
            wf(post@),
            post.exists_spec(path) == Ok::<bool, ErrorKind>(true),
            forall|n: int|
                0 <= n < normalize(path)->Some_0.len() ==> post.exists_spec(
                    render(#[trigger] normalize(path)->Some_0.take(n)),
                ) == Ok::<bool, ErrorKind>(true),
            forall|n: int|
                0 <= n < normalize(path)->Some_0.len() ==> post.metadata_spec(
                    render(#[trigger] normalize(path)->Some_0.take(n)),
                ) is Ok && post.metadata_spec(
                    render(normalize(path)->Some_0.take(n)),
                )->Ok_0.spec_file_type().spec_is_dir(),
            forall|q: Key| #[trigger]
                self@.files.contains_key(q) ==> post@.files.contains_key(q) && post@.files[q]
                    == self@.files[q],
            post@.buffers == self@.buffers,
    {
        let now = choose|now: SystemTime| (post@, r) == #[trigger] build_dir(self@, true, path, now);
        self.lemma_wf();
        lemma_create_dir_all(self@, path, now);
        let c = normalize(path)->Some_0;
        assert forall|n: int| 0 <= n < c.len() implies post.metadata_spec(
            render(#[trigger] c.take(n)),
        ) is Ok && post.metadata_spec(render(c.take(n)))->Ok_0.spec_file_type().spec_is_dir() by {
            let m = metadata(post@, render(c.take(n)))->Ok_0;
            assert(m.file_type == crate::FileType::Directory);
            assert(m.spec_file_type() == m.file_type);
        }
    }

    /// After `rename(a, b)` succeeds on a filesystem, `a` no longer exists,
    /// where `b` is not the entry that was moved and the way to `a` does not
    /// pass `b`.
    pub proof fn lemma_renamed_leaves(
        &self,
        from: Seq<char>,
        to: Seq<char>,
        post: &MemoryFs,
        r: Result<(), ErrorKind>,
    )
        requires
            self.inv(),
            self.rename_post(from, to, post, r),
            r is Ok,
            lookup(self@, from) != normalize(to),
            !passes(self@, normalize(from)->Some_0, normalize(to)->Some_0),
        ensures
            post.exists_spec(from) == Ok::<bool, ErrorKind>(false),
    {
        let now = choose|now: SystemTime| (post@, r) == #[trigger] rename(self@, from, to, now);
        self.lemma_wf();
        lemma_rename_leaves(self@, from, to, now);
    }

    /// After `rename(a, b)` succeeds on a filesystem, below `b` stands
    /// exactly what stood below `a`, each entry as it was; nothing is left
    /// at or below `a`, unless `b` is `a`; what lay outside both is as it
    /// was; and no file has other bytes.
    pub proof fn lemma_renamed_tree(
        &self,
        from: Seq<char>,
        to: Seq<char>,
        post: &MemoryFs,
        r: Result<(), ErrorKind>,
    )
        requires
            self.inv(),
            self.rename_post(from, to, post, r),
            r is Ok,
        ensures
            ({
                let a = lookup(self@, from)->Some_0;
                let b = normalize(to)->Some_0;
                &&& wf(post@)
                &&& post@.buffers == self@.buffers
                &&& post@.cursors == self@.cursors
                &&& post@.files[b].kind == self@.files[a].kind
                &&& forall|x: Key|
                    post@.files.contains_key(#[trigger] (b + x)) == self@.files.contains_key(a + x)
                &&& forall|x: Key|
                    x.len() > 0 && self@.files.contains_key(a + x) ==> #[trigger] post@.files[b + x]
                        == self@.files[a + x]
                &&& forall|x: Key| a != b ==> !post@.files.contains_key(#[trigger] (a + x))
                &&& forall|q: Key|
                    !is_prefix(a, q) && !is_prefix(b, q) ==> (#[trigger] post@.files.contains_key(q))
                        == self@.files.contains_key(q) && (self@.files.contains_key(q)
                        ==> post@.files[q] == self@.files[q])
            }),
    {
        let now = choose|now: SystemTime| (post@, r) == #[trigger] rename(self@, from, to, now);
        self.lemma_wf();
        lemma_rename_moves(self@, from, to, now);
        let a = lookup(self@, from)->Some_0;
        let b = normalize(to)->Some_0;
        assert forall|x: Key| a != b implies !post@.files.contains_key(#[trigger] (a + x)) by {
            if a != b {
                assert(is_prefix(a, a + x)) by {
                    assert((a + x).take(a.len() as int) =~= a);
                }
                lemma_moved_away(self@, a, b, now, a + x);
            }
        }
    }
}

} // verus!
