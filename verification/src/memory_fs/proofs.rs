//! Why every operation of the model keeps the filesystem well formed.

use crate::memory_fs::model::{
    follow, has_children, is_dir_at, is_file_at, locate, moved, node_ok, resolve, root,
    strictly_below, touched, wf, without_below, FsState, Key, Node,
};
use crate::memory_fs::table::lemma_rekey_back;
use crate::path::{is_prefix, valid_name, valid_path};
use std::time::SystemTime;
use vstd::prelude::*;

verus! {

/// A valid path with a valid name appended is valid, and so is a valid path
/// with its last name removed.
pub proof fn lemma_valid_push(p: Key, n: Seq<char>)
    requires
        valid_path(p),
        valid_name(n),
    ensures
        valid_path(p.push(n)),
{
    let q = p.push(n);
    assert forall|i: int| 0 <= i < q.len() implies valid_name(#[trigger] q[i]) by {
        if i < p.len() {
            assert(q[i] == p[i]);
        }
    }
}

/// Every prefix of a valid path is valid.
pub proof fn lemma_valid_take(p: Key, n: int)
    requires
        valid_path(p),
        0 <= n <= p.len(),
    ensures
        valid_path(p.take(n)),
{
    let q = p.take(n);
    assert forall|i: int| 0 <= i < q.len() implies valid_name(#[trigger] q[i]) by {
        assert(q[i] == p[i]);
    }
}

/// Resolving links along a valid path gives a valid path.
pub proof fn lemma_resolve_valid(s: FsState, c: Key)
    requires
        wf(s),
        valid_path(c),
    ensures
        valid_path(resolve(s, c)),
        valid_path(locate(s, c)),
    decreases c.len(),
{
    if c.len() > 0 {
        lemma_valid_take(c, c.len() - 1);
        assert(c.take(c.len() - 1) =~= c.drop_last());
        lemma_resolve_valid(s, c.drop_last());
        let k = resolve(s, c.drop_last()).push(c.last());
        lemma_valid_push(resolve(s, c.drop_last()), c.last());
        if s.files.contains_key(k) {
            assert(node_ok(s, s.files[k]));
        }
    }
}

/// Every prefix of a path that has an entry has one too, and every proper
/// prefix is a directory.
pub proof fn lemma_ancestors(s: FsState, k: Key, n: int)
    requires
        wf(s),
        s.files.contains_key(k),
        0 <= n <= k.len(),
    ensures
        s.files.contains_key(k.take(n)),
        n < k.len() ==> is_dir_at(s, k.take(n)),
    decreases k.len() - n,
{
    if n == k.len() {
        assert(k.take(n) =~= k);
    } else {
        lemma_ancestors(s, k, n + 1);
        let q = k.take(n + 1);
        assert(q.drop_last() =~= k.take(n));
    }
}

/// Only a directory has anything below it.
pub proof fn lemma_below_means_dir(s: FsState, base: Key, k: Key)
    requires
        wf(s),
        s.files.contains_key(k),
        strictly_below(base, k),
    ensures
        is_dir_at(s, base),
{
    if base.len() == k.len() {
        assert(k.take(k.len() as int) =~= k);
    }
    lemma_ancestors(s, k, base.len() as int);
}

/// Along a path that has an entry no link is met before the last name, so
/// resolving changes it only by following that entry itself.
pub proof fn lemma_resolve_present(s: FsState, k: Key)
    requires
        wf(s),
        s.files.contains_key(k),
    ensures
        locate(s, k) == k,
        resolve(s, k) == follow(s, k),
    decreases k.len(),
{
    if k.len() > 0 {
        let p = k.drop_last();
        assert(is_dir_at(s, p));
        lemma_resolve_present(s, p);
        assert(follow(s, p) == p);
        assert(p.push(k.last()) =~= k);
    } else {
        lemma_root(s, k);
    }
}

/// The empty path is the root, and the root is a directory.
pub proof fn lemma_root(s: FsState, k: Key)
    requires
        wf(s),
        k.len() == 0,
    ensures
        k == root(),
        is_dir_at(s, k),
{
    assert(k =~= root());
}

/// Putting a node at a key keeps the filesystem well formed when the key is
/// valid, its parent is a directory, the node refers to what exists, a file
/// node brings a buffer that no other file has, and a directory is replaced
/// by a directory only. The buffers may have grown meanwhile.
pub proof fn lemma_put_wf(s: FsState, k: Key, n: Node, buffers: Seq<Seq<u8>>)
    requires
        wf(s),
        valid_path(k),
        k.len() > 0 ==> is_dir_at(s, k.drop_last()),
        k.len() == 0 ==> n.kind is Directory,
        is_dir_at(s, k) ==> n.kind is Directory,
        buffers.len() >= s.buffers.len(),
        n.kind is File ==> n.kind->File_0 < buffers.len(),
        n.kind is File ==> forall|q: Key|
            #[trigger] s.files.contains_key(q) && q != k ==> s.files[q].kind != n.kind,
        n.kind is HardLink ==> valid_path(n.kind->HardLink_0),
    ensures
        wf(FsState { files: s.files.insert(k, n), buffers, cursors: s.cursors }),
{
    let t = FsState { files: s.files.insert(k, n), buffers, cursors: s.cursors };
    assert forall|q: Key| #[trigger] t.files.contains_key(q) && q.len() > 0 implies is_dir_at(
        t,
        q.drop_last(),
    ) by {
        if q != k {
            assert(s.files.contains_key(q));
            assert(is_dir_at(s, q.drop_last()));
        }
    }
    assert forall|q: Key| #[trigger] t.files.contains_key(q) implies valid_path(q) && node_ok(
        t,
        t.files[q],
    ) by {
        if q != k {
            assert(s.files.contains_key(q));
            assert(node_ok(s, s.files[q]));
        }
    }
    assert forall|k1: Key, k2: Key|
        #![trigger t.files.contains_key(k1), t.files.contains_key(k2)]
        is_file_at(t, k1) && is_file_at(t, k2) && t.files[k1].kind == t.files[k2].kind implies k1
        == k2 by {
        if k1 != k && k2 != k {
            assert(s.files.contains_key(k1) && s.files.contains_key(k2));
        } else if k1 != k {
            assert(s.files.contains_key(k1));
        } else if k2 != k {
            assert(s.files.contains_key(k2));
        }
    }
    assert forall|i: int| 0 <= i < t.cursors.len() implies (#[trigger] t.cursors[i]).buffer
        < t.buffers.len() by {
        assert(s.cursors[i].buffer < s.buffers.len());
    }
}

/// Removing an entry that has nothing below it, other than the root, keeps
/// the filesystem well formed.
pub proof fn lemma_remove_leaf_wf(s: FsState, k: Key)
    requires
        wf(s),
        k.len() > 0,
        !has_children(s, k),
    ensures
        wf(FsState { files: s.files.remove(k), ..s }),
{
    let t = FsState { files: s.files.remove(k), ..s };
    assert forall|q: Key| #[trigger] t.files.contains_key(q) && q.len() > 0 implies is_dir_at(
        t,
        q.drop_last(),
    ) by {
        assert(s.files.contains_key(q));
        assert(is_dir_at(s, q.drop_last()));
        if q.drop_last() == k {
            assert(k.push(q.last()) =~= q);
            assert(s.files.contains_key(k.push(q.last())));
        }
    }
    assert forall|q: Key| #[trigger] t.files.contains_key(q) implies valid_path(q) && node_ok(
        t,
        t.files[q],
    ) by {
        assert(s.files.contains_key(q));
    }
    assert forall|k1: Key, k2: Key|
        #![trigger t.files.contains_key(k1), t.files.contains_key(k2)]
        is_file_at(t, k1) && is_file_at(t, k2) && t.files[k1].kind == t.files[k2].kind implies k1
        == k2 by {
        assert(s.files.contains_key(k1) && s.files.contains_key(k2));
    }
}

/// A file or a hard link has nothing below it.
pub proof fn lemma_leaf(s: FsState, k: Key)
    requires
        wf(s),
        s.files.contains_key(k),
        !(s.files[k].kind is Directory),
    ensures
        !has_children(s, k),
{
    if has_children(s, k) {
        let n = choose|n: Seq<char>| s.files.contains_key(k.push(n));
        assert(k.push(n).drop_last() =~= k);
        assert(is_dir_at(s, k.push(n).drop_last()));
    }
}

/// Removing everything below a path, and then what stands at the path itself
/// unless it is the root, keeps the filesystem well formed.
pub proof fn lemma_remove_tree_wf(s: FsState, k: Key)
    requires
        wf(s),
    ensures
        wf(FsState { files: without_below(s.files, k), ..s }),
        k.len() > 0 ==> wf(FsState { files: without_below(s.files, k).remove(k), ..s }),
{
    let t = FsState { files: without_below(s.files, k), ..s };
    assert forall|q: Key| #[trigger] t.files.contains_key(q) && q.len() > 0 implies is_dir_at(
        t,
        q.drop_last(),
    ) by {
        assert(s.files.contains_key(q));
        assert(is_dir_at(s, q.drop_last()));
        let p = q.drop_last();
        if strictly_below(k, p) {
            assert(q.take(k.len() as int) =~= p.take(k.len() as int));
        }
    }
    assert forall|q: Key| #[trigger] t.files.contains_key(q) implies valid_path(q) && node_ok(
        t,
        t.files[q],
    ) by {
        assert(s.files.contains_key(q));
    }
    assert forall|k1: Key, k2: Key|
        #![trigger t.files.contains_key(k1), t.files.contains_key(k2)]
        is_file_at(t, k1) && is_file_at(t, k2) && t.files[k1].kind == t.files[k2].kind implies k1
        == k2 by {
        assert(s.files.contains_key(k1) && s.files.contains_key(k2));
    }
    assert(is_dir_at(t, root())) by {
        if strictly_below(k, root()) {
            assert(k =~= root());
        }
    }
    assert forall|i: int| 0 <= i < t.cursors.len() implies (#[trigger] t.cursors[i]).buffer
        < t.buffers.len() by {
        assert(s.cursors[i].buffer < s.buffers.len());
    }
    assert(wf(t));
    if k.len() > 0 {
        assert(!has_children(t, k)) by {
            if has_children(t, k) {
                let n = choose|n: Seq<char>| t.files.contains_key(k.push(n));
                assert(k.push(n).take(k.len() as int) =~= k);
            }
        }
        lemma_remove_leaf_wf(t, k);
    }
}

/// Two valid paths, one after the other, make a valid path; so does what is
/// left of a valid path when names are taken off its front.
pub proof fn lemma_valid_concat(a: Key, b: Key)
    ensures
        valid_path(a) && valid_path(b) ==> valid_path(a + b),
        valid_path(a + b) ==> valid_path(b),
{
    let c = a + b;
    if valid_path(a) && valid_path(b) {
        assert forall|i: int| 0 <= i < c.len() implies valid_name(#[trigger] c[i]) by {
            if i < a.len() {
                assert(c[i] == a[i]);
            } else {
                assert(c[i] == b[i - a.len()]);
            }
        }
    }
    if valid_path(c) {
        assert forall|i: int| 0 <= i < b.len() implies valid_name(#[trigger] b[i]) by {
            assert(c[i + a.len()] == b[i]);
        }
    }
}

/// Moving a subtree onto itself changes nothing.
pub proof fn lemma_moved_same(m: Map<Key, Node>, f: Key)
    ensures
        moved(m, f, f) == m,
{
    assert forall|k: Key| is_prefix(f, k) implies f + k.skip(f.len() as int) == k by {
        assert(f + k.skip(f.len() as int) =~= k);
    }
    assert(moved(m, f, f) =~= m);
}

/// What stood at the destination plays no part in the move.
pub proof fn lemma_moved_without_target(m: Map<Key, Node>, f: Key, t: Key)
    requires
        !is_prefix(f, t),
    ensures
        moved(m.remove(t), f, t) == moved(m, f, t),
{
    assert forall|k: Key| is_prefix(t, k) implies f + k.skip(t.len() as int) != t by {
        let o = f + k.skip(t.len() as int);
        assert(o.take(f.len() as int) =~= f);
    }
    assert forall|k: Key| !is_prefix(t, k) implies k != t by {
        assert(t.take(t.len() as int) =~= t);
    }
    assert(moved(m.remove(t), f, t) =~= moved(m, f, t));
}

/// The key that an entry of the moved table came from.
pub open spec fn origin(q: Key, f: Key, t: Key) -> Key {
    if is_prefix(t, q) {
        f + q.skip(t.len() as int)
    } else {
        q
    }
}

/// A successful rename keeps the filesystem well formed.
pub proof fn lemma_rename_wf(s: FsState, f: Key, t: Key, now: SystemTime)
    requires
        wf(s),
        valid_path(t),
        crate::memory_fs::model::rename_error(s, f, t) is None,
    ensures
        wf(
            FsState {
                files: moved(s.files, f, t).insert(t, touched(s.files[f], now)),
                ..s
            },
        ),
{
    let m = moved(s.files, f, t);
    let r = FsState { files: m.insert(t, touched(s.files[f], now)), ..s };
    assert(t.len() > 0) by {
        if t.len() == 0 {
            lemma_root(s, t);
        }
    }
    assert(t.take(t.len() as int) =~= t);
    assert(f.take(f.len() as int) =~= f);
    assert(f + t.skip(t.len() as int) =~= f);
    assert(m.contains_key(t) && m[t] == s.files[f]);
    // where each entry came from
    assert forall|q: Key| #[trigger] r.files.contains_key(q) implies s.files.contains_key(
        origin(q, f, t),
    ) && r.files[q].kind == s.files[origin(q, f, t)].kind && (is_prefix(t, q) == is_prefix(
        f,
        origin(q, f, t),
    )) by {
        if is_prefix(t, q) {
            lemma_rekey_back(q, f, t);
        }
    }
    // the destination's parent stays where it was
    let tp = t.drop_last();
    assert(is_dir_at(s, tp));
    assert(!is_prefix(t, tp));
    assert(!is_prefix(f, tp)) by {
        if is_prefix(f, tp) {
            assert(t.take(f.len() as int) =~= tp.take(f.len() as int));
        }
    }
    assert(is_dir_at(r, root())) by {
        assert(!is_prefix(t, root()));
        assert(!is_prefix(f, root()));
    }
    assert forall|q: Key| #[trigger] r.files.contains_key(q) && q.len() > 0 implies is_dir_at(
        r,
        q.drop_last(),
    ) by {
        let p = q.drop_last();
        if q == t {
        } else if is_prefix(t, q) {
            let o = f + q.skip(t.len() as int);
            lemma_rekey_back(q, f, t);
            assert(s.files.contains_key(o));
            assert(o.len() > f.len());
            assert(is_dir_at(s, o.drop_last()));
            assert(is_prefix(t, p)) by {
                assert(p.take(t.len() as int) =~= q.take(t.len() as int));
            }
            assert(f + p.skip(t.len() as int) =~= o.drop_last());
        } else {
            assert(s.files.contains_key(q) && !is_prefix(f, q));
            assert(is_dir_at(s, p));
            if is_prefix(t, p) {
                assert(q.take(t.len() as int) =~= p.take(t.len() as int));
            }
            if is_prefix(f, p) {
                assert(q.take(f.len() as int) =~= p.take(f.len() as int));
            }
        }
    }
    assert forall|q: Key| #[trigger] r.files.contains_key(q) implies valid_path(q) && node_ok(
        r,
        r.files[q],
    ) by {
        let o = origin(q, f, t);
        assert(s.files.contains_key(o));
        assert(node_ok(s, s.files[o]));
        if is_prefix(t, q) {
            lemma_valid_concat(f, q.skip(t.len() as int));
            lemma_valid_concat(t, q.skip(t.len() as int));
            assert(t + q.skip(t.len() as int) =~= q);
        }
    }
    assert forall|k1: Key, k2: Key|
        #![trigger r.files.contains_key(k1), r.files.contains_key(k2)]
        is_file_at(r, k1) && is_file_at(r, k2) && r.files[k1].kind == r.files[k2].kind implies k1
        == k2 by {
        let o1 = origin(k1, f, t);
        let o2 = origin(k2, f, t);
        assert(s.files.contains_key(o1) && s.files.contains_key(o2));
        assert(o1 == o2);
        if is_prefix(t, k1) {
            lemma_rekey_back(k1, f, t);
        }
        if is_prefix(t, k2) {
            lemma_rekey_back(k2, f, t);
        }
    }
    assert forall|i: int| 0 <= i < r.cursors.len() implies (#[trigger] r.cursors[i]).buffer
        < r.buffers.len() by {
        assert(s.cursors[i].buffer < s.buffers.len());
    }
}

/// Changing what the buffers hold, adding buffers, and changing or adding
/// cursors that have a buffer, keeps the filesystem well formed.
pub proof fn lemma_contents_wf(s: FsState, buffers: Seq<Seq<u8>>, cursors: Seq<crate::memory_fs::model::Cursor>)
    requires
        wf(s),
        buffers.len() >= s.buffers.len(),
        forall|i: int| 0 <= i < cursors.len() ==> (#[trigger] cursors[i]).buffer < buffers.len(),
    ensures
        wf(FsState { files: s.files, buffers, cursors }),
{
    let t = FsState { files: s.files, buffers, cursors };
    assert forall|q: Key| #[trigger] t.files.contains_key(q) implies valid_path(q) && node_ok(
        t,
        t.files[q],
    ) by {
        assert(node_ok(s, s.files[q]));
    }
    assert forall|q: Key| #[trigger] t.files.contains_key(q) && q.len() > 0 implies is_dir_at(
        t,
        q.drop_last(),
    ) by {
        assert(is_dir_at(s, q.drop_last()));
    }
}

} // verus!
