//! Paths: the lexical normal form that keys the in-memory table, and the
//! executable type that carries it.
//!
//! A path string is cut at every `/`. Empty segments and `.` are skipped,
//! `..` removes the last name kept so far, and any other segment is kept as a
//! name. The names that remain, in order, are the canonical path; the empty
//! list is the root.

use vstd::prelude::*;
use vstd::string::*;

verus! {

/// The segment `.`.
pub open spec fn is_cur_dir(seg: Seq<char>) -> bool {
    seg.len() == 1 && seg[0] == '.'
}

/// The segment `..`.
pub open spec fn is_parent_dir(seg: Seq<char>) -> bool {
    seg.len() == 2 && seg[0] == '.' && seg[1] == '.'
}

/// No `/` occurs in the segment.
pub open spec fn no_separator(seg: Seq<char>) -> bool {
    forall|i: int| 0 <= i < seg.len() ==> seg[i] != '/'
}

/// A segment that a canonical path may hold as a name.
pub open spec fn valid_name(seg: Seq<char>) -> bool {
    &&& seg.len() > 0
    &&& !is_cur_dir(seg)
    &&& !is_parent_dir(seg)
    &&& no_separator(seg)
}

/// Every component is a valid name.
pub open spec fn valid_path(p: Seq<Seq<char>>) -> bool {
    forall|i: int| 0 <= i < p.len() ==> valid_name(#[trigger] p[i])
}

/// The effect of one finished segment on the names kept so far. `None` stands
/// for an attempt to climb above the root, and is absorbing.
pub open spec fn step(acc: Option<Seq<Seq<char>>>, seg: Seq<char>) -> Option<Seq<Seq<char>>> {
    match acc {
        None => None,
        Some(parts) => if seg.len() == 0 || is_cur_dir(seg) {
            Some(parts)
        } else if is_parent_dir(seg) {
            if parts.len() == 0 {
                None
            } else {
                Some(parts.drop_last())
            }
        } else {
            Some(parts.push(seg))
        },
    }
}

/// The state of a left-to-right reading of a path string: the names kept from
/// the finished segments, and the characters of the segment still open.
pub struct Scan {
    pub done: Option<Seq<Seq<char>>>,
    pub pending: Seq<char>,
}

/// Reads `s` from the left, closing a segment at each `/`.
pub open spec fn scan(s: Seq<char>) -> Scan
    decreases s.len(),
{
    if s.len() == 0 {
        Scan { done: Some(Seq::empty()), pending: Seq::empty() }
    } else {
        let before = scan(s.drop_last());
        if s.last() == '/' {
            Scan { done: step(before.done, before.pending), pending: Seq::empty() }
        } else {
            Scan { done: before.done, pending: before.pending.push(s.last()) }
        }
    }
}

/// The canonical path that a path string denotes, or `None` where it climbs
/// above the root.
pub open spec fn normalize(s: Seq<char>) -> Option<Seq<Seq<char>>> {
    let end = scan(s);
    step(end.done, end.pending)
}

/// The names of a path, each preceded by `/`.
pub open spec fn render_parts(p: Seq<Seq<char>>) -> Seq<char>
    decreases p.len(),
{
    if p.len() == 0 {
        Seq::empty()
    } else {
        render_parts(p.drop_last()) + seq!['/'] + p.last()
    }
}

/// The string form of a canonical path: `/` for the root, else `/a/b/c`.
pub open spec fn render(p: Seq<Seq<char>>) -> Seq<char> {
    if p.len() == 0 {
        seq!['/']
    } else {
        render_parts(p)
    }
}

/// `a` is a prefix of `b`, component by component.
pub open spec fn is_prefix(a: Seq<Seq<char>>, b: Seq<Seq<char>>) -> bool {
    a.len() <= b.len() && b.take(a.len() as int) == a
}

/// The views of a sequence of strings.
pub open spec fn names(v: Seq<String>) -> Seq<Seq<char>> {
    Seq::new(v.len(), |i: int| v[i]@)
}

/// Reading on over characters that hold no `/` only lengthens the open
/// segment.
pub proof fn lemma_scan_append_name(s: Seq<char>, t: Seq<char>)
    requires
        no_separator(t),
    ensures
        scan(s + t) == (Scan { done: scan(s).done, pending: scan(s).pending + t }),
    decreases t.len(),
{
    if t.len() == 0 {
        assert(s + t =~= s);
        assert(scan(s).pending + t =~= scan(s).pending);
    } else {
        let t0 = t.drop_last();
        assert(no_separator(t0));
        lemma_scan_append_name(s, t0);
        assert((s + t).drop_last() =~= s + t0);
        assert((s + t).last() == t.last());
        assert(scan(s).pending + t =~= (scan(s).pending + t0).push(t.last()));
    }
}

/// Reading one `/` closes the open segment.
pub proof fn lemma_scan_append_separator(s: Seq<char>)
    ensures
        scan(s + seq!['/']) == (Scan {
            done: step(scan(s).done, scan(s).pending),
            pending: Seq::empty(),
        }),
{
    let u = s + seq!['/'];
    assert(u.drop_last() =~= s);
    assert(u.last() == '/');
}

/// The rendering of a valid path reads back as that path, with its last name
/// still open.
pub proof fn lemma_scan_render_parts(p: Seq<Seq<char>>)
    requires
        valid_path(p),
    ensures
        step(scan(render_parts(p)).done, scan(render_parts(p)).pending) == Some(p),
    decreases p.len(),
{
    if p.len() == 0 {
        assert(render_parts(p) =~= Seq::<char>::empty());
    } else {
        let q = p.drop_last();
        assert(valid_path(q)) by {
            assert forall|i: int| 0 <= i < q.len() implies valid_name(#[trigger] q[i]) by {
                assert(q[i] == p[i]);
            }
        }
        lemma_scan_render_parts(q);
        let a = render_parts(q);
        lemma_scan_append_separator(a);
        assert(valid_name(p.last()));
        lemma_scan_append_name(a + seq!['/'], p.last());
        assert(Seq::<char>::empty() + p.last() =~= p.last());
        assert(q.push(p.last()) =~= p);
    }
}

/// Normalizing is idempotent: the string form of a canonical path denotes
/// that same path.
pub proof fn lemma_normalize_render(p: Seq<Seq<char>>)
    requires
        valid_path(p),
    ensures
        normalize(render(p)) == Some(p),
{
    if p.len() == 0 {
        let r = seq!['/'];
        assert(r.drop_last() =~= Seq::<char>::empty());
        assert(scan(r.drop_last()) == (Scan { done: Some(Seq::empty()), pending: Seq::empty() }));
        assert(p =~= Seq::empty());
    } else {
        lemma_scan_render_parts(p);
    }
}

/// Whatever a path string denotes is made of valid names.
pub proof fn lemma_scan_valid(s: Seq<char>)
    ensures
        no_separator(scan(s).pending),
        scan(s).done is Some ==> valid_path(scan(s).done->Some_0),
    decreases s.len(),
{
    if s.len() > 0 {
        lemma_scan_valid(s.drop_last());
        let before = scan(s.drop_last());
        if s.last() == '/' {
            lemma_step_valid(before.done, before.pending);
        }
    }
}

/// One step keeps a valid path valid.
pub proof fn lemma_step_valid(acc: Option<Seq<Seq<char>>>, seg: Seq<char>)
    requires
        no_separator(seg),
        acc is Some ==> valid_path(acc->Some_0),
    ensures
        step(acc, seg) is Some ==> valid_path(step(acc, seg)->Some_0),
{
}

/// A path string denotes a valid path or nothing.
pub proof fn lemma_normalize_valid(s: Seq<char>)
    ensures
        normalize(s) is Some ==> valid_path(normalize(s)->Some_0),
{
    lemma_scan_valid(s);
    lemma_step_valid(scan(s).done, scan(s).pending);
}

/// A canonical path held as a list of names; the empty list is the root.
#[derive(Debug)]
pub struct CanonicalPath {
    parts: Vec<String>,
}

impl View for CanonicalPath {
    type V = Seq<Seq<char>>;

    closed spec fn view(&self) -> Seq<Seq<char>> {
        names(self.parts@)
    }
}

impl Clone for CanonicalPath {
    fn clone(&self) -> (r: Self)
        ensures
            r@ == self@,
    {
        let mut parts: Vec<String> = Vec::new();
        let mut i: usize = 0;
        while i < self.parts.len()
            invariant
                i <= self.parts.len(),
                parts.len() == i,
                names(parts@) == names(self.parts@).take(i as int),
            decreases self.parts.len() - i,
        {
            let ghost before = parts@;
            let name = self.parts[i].clone();
            parts.push(name);
            i += 1;
            proof {
                let a = names(parts@);
                let b = names(self.parts@).take(i as int);
                assert forall|j: int| 0 <= j < a.len() implies a[j] == b[j] by {
                    if j < i - 1 {
                        assert(parts@[j] == before[j]);
                        assert(names(before)[j] == names(self.parts@).take(i - 1)[j]);
                    }
                }
                assert(a =~= b);
            }
        }
        assert(names(self.parts@).take(i as int) =~= names(self.parts@));
        CanonicalPath { parts }
    }
}

impl CanonicalPath {
    /// The root.
    pub fn root() -> (r: Self)
        ensures
            r@ == Seq::<Seq<char>>::empty(),
    {
        let r = CanonicalPath { parts: Vec::new() };
        assert(r@ =~= Seq::<Seq<char>>::empty());
        r
    }

    /// The number of names.
    pub fn len(&self) -> (n: usize)
        ensures
            n == self@.len(),
    {
        self.parts.len()
    }

    /// Whether this is the root.
    pub fn is_root(&self) -> (b: bool)
        ensures
            b == (self@.len() == 0),
    {
        self.parts.len() == 0
    }

    /// The name at position `i`.
    pub fn name(&self, i: usize) -> (n: &str)
        requires
            i < self@.len(),
        ensures
            n@ == self@[i as int],
    {
        self.parts[i].as_str()
    }

    /// The last name of a path other than the root.
    pub fn file_name(&self) -> (n: &str)
        requires
            self@.len() > 0,
        ensures
            n@ == self@.last(),
    {
        self.parts[self.parts.len() - 1].as_str()
    }

    /// Appends a name.
    pub fn push(&mut self, name: &str)
        ensures
            final(self)@ == old(self)@.push(name@),
    {
        self.parts.push(name.to_owned());
        assert(self@ =~= old(self)@.push(name@));
    }

    /// Removes the last name; reports `false`, and changes nothing, at the
    /// root.
    pub fn pop(&mut self) -> (popped: bool)
        ensures
            popped == (old(self)@.len() > 0),
            popped ==> final(self)@ == old(self)@.drop_last(),
            !popped ==> final(self)@ == old(self)@,
    {
        if self.parts.len() == 0 {
            false
        } else {
            self.parts.pop();
            assert(self@ =~= old(self)@.drop_last());
            true
        }
    }

    /// The path without its last name, or `None` at the root.
    pub fn parent(&self) -> (r: Option<CanonicalPath>)
        ensures
            self@.len() == 0 ==> r is None,
            self@.len() > 0 ==> r is Some && r->Some_0@ == self@.drop_last(),
    {
        if self.parts.len() == 0 {
            None
        } else {
            let mut p = self.clone();
            p.pop();
            Some(p)
        }
    }

    /// This path with `name` appended.
    pub fn join(&self, name: &str) -> (r: CanonicalPath)
        ensures
            r@ == self@.push(name@),
    {
        let mut p = self.clone();
        p.push(name);
        p
    }

    /// The path made of `onto` and then the names of this path from position
    /// `skip` on.
    pub fn rebased(&self, skip: usize, onto: &CanonicalPath) -> (r: CanonicalPath)
        requires
            skip <= self@.len(),
        ensures
            r@ == onto@ + self@.skip(skip as int),
    {
        let mut r = onto.clone();
        let mut i: usize = skip;
        assert(self@.subrange(skip as int, skip as int) =~= Seq::<Seq<char>>::empty());
        assert(onto@ + Seq::<Seq<char>>::empty() =~= onto@);
        while i < self.parts.len()
            invariant
                skip <= i <= self.parts.len(),
                self.parts.len() == self@.len(),
                r@ == onto@ + self@.subrange(skip as int, i as int),
            decreases self.parts.len() - i,
        {
            r.push(self.parts[i].as_str());
            i += 1;
            assert(self@.subrange(skip as int, i as int) =~= self@.subrange(
                skip as int,
                i - 1,
            ).push(self@[i - 1]));
            assert(r@ =~= onto@ + self@.subrange(skip as int, i as int));
        }
        assert(self@.subrange(skip as int, i as int) =~= self@.skip(skip as int));
        r
    }

    /// The first `n` names of this path.
    pub fn prefix(&self, n: usize) -> (r: CanonicalPath)
        requires
            n <= self@.len(),
        ensures
            r@ == self@.take(n as int),
    {
        let mut r = CanonicalPath::root();
        let mut i: usize = 0;
        assert(self@.take(0) =~= Seq::<Seq<char>>::empty());
        while i < n
            invariant
                i <= n <= self.parts.len(),
                self.parts.len() == self@.len(),
                r@ == self@.take(i as int),
            decreases n - i,
        {
            r.push(self.parts[i].as_str());
            i += 1;
            assert(self@.take(i as int) =~= self@.take(i - 1).push(self@[i - 1]));
        }
        r
    }

    /// Whether two paths hold the same names.
    pub fn same(&self, other: &CanonicalPath) -> (b: bool)
        ensures
            b == (self@ == other@),
    {
        if self.parts.len() != other.parts.len() {
            return false;
        }
        let mut i: usize = 0;
        while i < self.parts.len()
            invariant
                i <= self.parts.len(),
                self.parts.len() == other.parts.len(),
                self@.take(i as int) == other@.take(i as int),
            decreases self.parts.len() - i,
        {
            if self.parts[i] != other.parts[i] {
                assert(self@[i as int] != other@[i as int]);
                return false;
            }
            assert(self@[i as int] == other@[i as int]);
            i += 1;
            assert(self@.take(i as int) =~= self@.take(i - 1).push(self@[i - 1]));
            assert(other@.take(i as int) =~= other@.take(i - 1).push(other@[i - 1]));
        }
        assert(self@.take(i as int) =~= self@);
        assert(other@.take(i as int) =~= other@);
        true
    }

    /// Whether this path lies at or below `base`.
    pub fn starts_with(&self, base: &CanonicalPath) -> (b: bool)
        ensures
            b == is_prefix(base@, self@),
    {
        if base.parts.len() > self.parts.len() {
            return false;
        }
        let mut i: usize = 0;
        while i < base.parts.len()
            invariant
                i <= base.parts.len(),
                base.parts.len() <= self.parts.len(),
                self@.take(i as int) == base@.take(i as int),
            decreases base.parts.len() - i,
        {
            if self.parts[i] != base.parts[i] {
                assert(self@.take(base@.len() as int)[i as int] != base@[i as int]);
                return false;
            }
            assert(self@[i as int] == base@[i as int]);
            i += 1;
            assert(self@.take(i as int) =~= self@.take(i - 1).push(self@[i - 1]));
            assert(base@.take(i as int) =~= base@.take(i - 1).push(base@[i - 1]));
        }
        assert(base@.take(i as int) =~= base@);
        true
    }

    /// The string form: `/` for the root, else each name preceded by `/`.
    pub fn render(&self) -> (s: String)
        ensures
            s@ == render(self@),
    {
        proof {
            reveal_strlit("/");
        }
        let mut s = String::new();
        if self.parts.len() == 0 {
            s.append("/");
            assert(s@ =~= seq!['/']);
            return s;
        }
        let mut i: usize = 0;
        assert(self@.take(0) =~= Seq::<Seq<char>>::empty());
        while i < self.parts.len()
            invariant
                i <= self.parts.len(),
                "/"@ == seq!['/'],
                s@ == render_parts(self@.take(i as int)),
            decreases self.parts.len() - i,
        {
            s.append("/");
            s.append(self.parts[i].as_str());
            i += 1;
            assert(self@.take(i as int).drop_last() =~= self@.take(i - 1));
            assert(self@.take(i as int).last() == self@[i - 1]);
        }
        assert(self@.take(i as int) =~= self@);
        s
    }
}

/// The canonical path that `path` denotes, or `None` where it climbs above
/// the root.
pub fn normalize_path(path: &str) -> (r: Option<CanonicalPath>)
    ensures
        r is Some == normalize(path@) is Some,
        r is Some ==> r->Some_0@ == normalize(path@)->Some_0,
{
    let n = path.unicode_len();
    let mut acc = CanonicalPath::root();
    let mut ok = true;
    let mut start: usize = 0;
    let mut i: usize = 0;
    assert(path@.take(0) =~= Seq::<char>::empty());
    assert(path@.subrange(0, 0) =~= Seq::<char>::empty());
    while i < n
        invariant
            start <= i <= n,
            n == path@.len(),
            scan(path@.take(i as int)).done == (if ok {
                Some(acc@)
            } else {
                None
            }),
            scan(path@.take(i as int)).pending == path@.subrange(start as int, i as int),
        decreases n - i,
    {
        let c = path.get_char(i);
        proof {
            assert(path@.take(i + 1).drop_last() =~= path@.take(i as int));
            assert(path@.take(i + 1).last() == c);
        }
        if c == '/' {
            if ok {
                ok = close_segment(&mut acc, path, start, i);
            }
            start = i + 1;
            assert(path@.subrange(start as int, i + 1) =~= Seq::<char>::empty());
        } else {
            assert(path@.subrange(start as int, i + 1) =~= path@.subrange(
                start as int,
                i as int,
            ).push(c));
        }
        i += 1;
    }
    assert(path@.take(i as int) =~= path@);
    if ok {
        ok = close_segment(&mut acc, path, start, n);
    }
    if ok {
        Some(acc)
    } else {
        None
    }
}

/// Applies the segment `path[from..to]` to the names kept so far; `false`
/// where it would climb above the root.
fn close_segment(acc: &mut CanonicalPath, path: &str, from: usize, to: usize) -> (ok: bool)
    requires
        from <= to <= path@.len(),
    ensures
        ok == step(Some(old(acc)@), path@.subrange(from as int, to as int)) is Some,
        ok ==> Some(final(acc)@) == step(Some(old(acc)@), path@.subrange(from as int, to as int)),
{
    let ghost seg = path@.subrange(from as int, to as int);
    let len = to - from;
    if len == 0 {
        return true;
    }
    let first = path.get_char(from);
    assert(seg[0] == first);
    if len == 1 && first == '.' {
        return true;
    }
    if len == 2 && first == '.' {
        let second = path.get_char(from + 1);
        assert(seg[1] == second);
        if second == '.' {
            return acc.pop();
        }
    }
    acc.push(path.substring_char(from, to));
    true
}

} // verus!
