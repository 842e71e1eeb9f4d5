//! The components of a path string as written, before any normalizing:
//! what decides whether one path lies under another, and how a path is
//! rebased from one root to another.
//!
//! A path string is cut at every `/`. A leading `/` gives the root
//! component, written `/`. Empty segments are dropped, and so is `.` unless
//! it is the first segment of a relative path. Every other segment, `..`
//! included, is a component.

use crate::path::{is_cur_dir, names};
use vstd::prelude::*;
use vstd::string::*;

verus! {

/// The root component.
pub open spec fn root_component() -> Seq<char> {
    seq!['/']
}

/// Whether a finished segment is a component. `leading` says that it is the
/// first segment of a relative path.
pub open spec fn kept(seg: Seq<char>, leading: bool) -> bool {
    seg.len() > 0 && (!is_cur_dir(seg) || leading)
}

/// The state of a left-to-right reading of a path string: the components of
/// the finished segments, the characters of the segment still open, and
/// whether that segment is the first.
pub struct Split {
    pub done: Seq<Seq<char>>,
    pub pending: Seq<char>,
    pub leading: bool,
}

/// The components after the open segment is finished.
pub open spec fn closed(s: Split) -> Seq<Seq<char>> {
    if kept(s.pending, s.leading) {
        s.done.push(s.pending)
    } else {
        s.done
    }
}

/// Reads `s` from the left, finishing a segment at each `/`.
pub open spec fn split(s: Seq<char>) -> Split
    decreases s.len(),
{
    if s.len() == 0 {
        Split { done: Seq::empty(), pending: Seq::empty(), leading: true }
    } else {
        let before = split(s.drop_last());
        if s.last() == '/' {
            Split {
                done: if s.len() == 1 {
                    seq![root_component()]
                } else {
                    closed(before)
                },
                pending: Seq::empty(),
                leading: false,
            }
        } else {
            Split { pending: before.pending.push(s.last()), ..before }
        }
    }
}

/// The components of a path string.
pub open spec fn components(s: Seq<char>) -> Seq<Seq<char>> {
    closed(split(s))
}

/// The components joined by `/`.
pub open spec fn joined(c: Seq<Seq<char>>) -> Seq<char>
    decreases c.len(),
{
    if c.len() == 0 {
        Seq::empty()
    } else if c.len() == 1 {
        c[0]
    } else {
        joined(c.drop_last()) + seq!['/'] + c.last()
    }
}

/// `base` is a prefix of `full`, component by component.
pub open spec fn begins_with(full: Seq<Seq<char>>, base: Seq<Seq<char>>) -> bool {
    base.len() <= full.len() && full.take(base.len() as int) == base
}

/// The path below `base`: what is left of the components of `path` once
/// those of `base` are taken off the front, or `None` where `path` does not
/// lie under `base`.
pub open spec fn strip_prefix_spec(path: Seq<char>, base: Seq<char>) -> Option<Seq<char>> {
    if begins_with(components(path), components(base)) {
        Some(joined(components(path).skip(components(base).len() as int)))
    } else {
        None
    }
}

/// The components of a path without its root component, if it has one.
pub open spec fn relative_components(path: Seq<char>) -> Seq<Seq<char>> {
    let c = components(path);
    if c.len() > 0 && c[0] == root_component() {
        c.skip(1)
    } else {
        c
    }
}

/// `rest` put below `base`.
pub open spec fn below(base: Seq<char>, rest: Seq<char>) -> Seq<char> {
    base + seq!['/'] + rest
}

/// `rest` put below `root`, where an empty `root` stands for no directory
/// at all: below it a path is the path itself.
pub open spec fn put_below(root: Seq<char>, rest: Seq<char>) -> Seq<char> {
    if root.len() == 0 {
        rest
    } else {
        below(root, rest)
    }
}

/// The components of a path string.
pub fn split_components(path: &str) -> (list: Vec<String>)
    ensures
        names(list@) == components(path@),
{
    proof {
        reveal_strlit("/");
    }
    let n = path.unicode_len();
    let mut list: Vec<String> = Vec::new();
    let mut start: usize = 0;
    let mut leading = true;
    let mut i: usize = 0;
    assert(path@.take(0) =~= Seq::<char>::empty());
    assert(path@.subrange(0, 0) =~= Seq::<char>::empty());
    assert(names(list@) =~= Seq::<Seq<char>>::empty());
    while i < n
        invariant
            start <= i <= n,
            n == path@.len(),
            "/"@ == seq!['/'],
            split(path@.take(i as int)) == (Split {
                done: names(list@),
                pending: path@.subrange(start as int, i as int),
                leading,
            }),
        decreases n - i,
    {
        let c = path.get_char(i);
        proof {
            assert(path@.take(i + 1).drop_last() =~= path@.take(i as int));
            assert(path@.take(i + 1).last() == c);
        }
        if c == '/' {
            if i == 0 {
                let ghost before = list@;
                list.push("/".to_owned());
                assert(names(list@) =~= seq![root_component()]);
            } else {
                close_component(&mut list, path, start, i, leading);
            }
            start = i + 1;
            leading = false;
            assert(path@.subrange(start as int, i + 1) =~= Seq::<char>::empty());
        } else {
            assert(path@.subrange(start as int, i + 1) =~= path@.subrange(
                start as int,
                i as int,
            ).push(c));
        }
        i += 1;
    }
    assert(path@.take(i as int) =~= path@);
    close_component(&mut list, path, start, n, leading);
    list
}

/// Finishes the segment `path[from..to]`.
fn close_component(list: &mut Vec<String>, path: &str, from: usize, to: usize, leading: bool)
    requires
        from <= to <= path@.len(),
    ensures
        names(final(list)@) == closed(
            Split {
                done: names(old(list)@),
                pending: path@.subrange(from as int, to as int),
                leading,
            },
        ),
{
    let ghost seg = path@.subrange(from as int, to as int);
    let len = to - from;
    if len == 0 {
        return ;
    }
    if len == 1 && !leading {
        let first = path.get_char(from);
        assert(seg[0] == first);
        if first == '.' {
            return ;
        }
    }
    let ghost before = names(list@);
    list.push(path.substring_char(from, to).to_owned());
    assert(names(list@) =~= before.push(seg));
}

/// The strings of `list` from position `from` on, joined by `/`.
pub fn join_from(list: &Vec<String>, from: usize) -> (s: String)
    requires
        from <= list@.len(),
    ensures
        s@ == joined(names(list@).skip(from as int)),
{
    proof {
        reveal_strlit("/");
    }
    let ghost rest = names(list@).skip(from as int);
    let mut s = String::new();
    let mut i: usize = from;
    assert(rest.take(0) =~= Seq::<Seq<char>>::empty());
    while i < list.len()
        invariant
            from <= i <= list@.len(),
            "/"@ == seq!['/'],
            rest == names(list@).skip(from as int),
            s@ == joined(rest.take(i - from)),
        decreases list@.len() - i,
    {
        if i > from {
            s.append("/");
        }
        s.append(list[i].as_str());
        proof {
            let now = rest.take(i + 1 - from);
            assert(now.drop_last() =~= rest.take(i - from));
            assert(now.last() == list@[i as int]@);
            if i == from {
                assert(s@ =~= now[0]);
            }
        }
        i += 1;
    }
    assert(rest.take(i - from) =~= rest);
    s
}

/// The path below `base`: what is left of `path` once the components of
/// `base` are taken off its front, or `None` where `path` does not lie
/// under `base`.
pub fn strip_prefix(path: &str, base: &str) -> (r: Option<String>)
    ensures
        r is Some == strip_prefix_spec(path@, base@) is Some,
        r is Some ==> r->Some_0@ == strip_prefix_spec(path@, base@)->Some_0,
{
    let full = split_components(path);
    let head = split_components(base);
    if head.len() > full.len() {
        return None;
    }
    let ghost f = names(full@);
    let ghost h = names(head@);
    let mut i: usize = 0;
    assert(f.take(0) =~= h.take(0));
    while i < head.len()
        invariant
            i <= head@.len() <= full@.len(),
            f == names(full@),
            h == names(head@),
            f == components(path@),
            h == components(base@),
            f.take(i as int) == h.take(i as int),
        decreases head@.len() - i,
    {
        if full[i] != head[i] {
            assert(f.take(h.len() as int)[i as int] != h[i as int]);
            return None;
        }
        assert(f[i as int] == h[i as int]);
        i += 1;
        assert(f.take(i as int) =~= f.take(i - 1).push(f[i - 1]));
        assert(h.take(i as int) =~= h.take(i - 1).push(h[i - 1]));
    }
    assert(h.take(i as int) =~= h);
    Some(join_from(&full, head.len()))
}

/// `rest` put below `base`: the two joined by `/`.
pub fn join_below(base: &str, rest: &str) -> (s: String)
    ensures
        s@ == below(base@, rest@),
{
    proof {
        reveal_strlit("/");
    }
    let mut s = base.to_owned();
    s.append("/");
    s.append(rest);
    s
}

/// The path that `path` stands for below `root`: its components, without
/// the root component if it has one, put below `root`. Below an empty
/// `root` that is those components alone, joined, which is a relative path.
pub fn get_real_path(root: &str, path: &str) -> (r: String)
    ensures
        r@ == put_below(root@, joined(relative_components(path@))),
{
    proof {
        reveal_strlit("/");
    }
    let list = split_components(path);
    let skip: usize = if list.len() > 0 && list[0].as_str().unicode_len() == 1
        && list[0].as_str().get_char(0) == '/' {
        1
    } else {
        0
    };
    proof {
        let c = names(list@);
        if c.len() > 0 {
            if skip == 1 {
                assert(c[0] =~= root_component());
            }
        }
        if skip == 0 {
            assert(c.skip(0) =~= c);
        }
    }
    let rest = join_from(&list, skip);
    if root.unicode_len() == 0 {
        rest
    } else {
        join_below(root, rest.as_str())
    }
}

} // verus!
