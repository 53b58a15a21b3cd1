//! A model of `/`-separated paths: joining (`PathBuf::join`) and comparing
//! by components (`Path::starts_with`, `Path::parent`, `==`).

use vstd::prelude::*;
use crate::text::{views, segments, str_eq, path_segments, join_with, lacks, lemma_join_last, slashed, to_slashes};

verus! {

/// `base.join(seg)`: an absolute `seg` replaces `base`; otherwise `seg` is
/// appended after a `/` unless `base` is empty or already ends with one.
pub open spec fn join_path(base: Seq<char>, seg: Seq<char>) -> Seq<char> {
    if seg.len() > 0 && seg[0] == '/' {
        seg
    } else if base.len() == 0 || base.last() == '/' {
        base + seg
    } else {
        base + seq!['/'] + seg
    }
}

/// `base` joined with each of `segs` in turn.
pub open spec fn join_all(base: Seq<char>, segs: Seq<Seq<char>>) -> Seq<char>
    decreases segs.len(),
{
    if segs.len() == 0 {
        base
    } else {
        join_path(join_all(base, segs.drop_last()), segs.last())
    }
}

/// `PathBuf::join` on `/`-separated paths.
pub fn join(base: &str, seg: &str) -> (r: String)
    ensures
        r@ == join_path(base@, seg@),
{
    let m = seg.unicode_len();
    if m > 0 && seg.get_char(0) == '/' {
        return seg.to_owned();
    }
    let n = base.unicode_len();
    let mut out = base.to_owned();
    if !(n == 0 || base.get_char(n - 1) == '/') {
        out.append("/");
        proof {
            reveal_strlit("/");
        }
    }
    out.append(seg);
    out
}

/// `base` joined with each of `segs` in turn.
pub fn join_each(base: &str, segs: &Vec<String>) -> (r: String)
    ensures
        r@ == join_all(base@, views(segs@)),
{
    let mut out = base.to_owned();
    let n = segs.len();
    let mut i: usize = 0;
    assert(views(segs@).take(0) =~= Seq::<Seq<char>>::empty());
    while i < n
        invariant
            n == segs@.len(),
            i <= n,
            out@ == join_all(base@, views(segs@).take(i as int)),
        decreases n - i,
    {
        assert(views(segs@).take(i + 1).drop_last() =~= views(segs@).take(i as int));
        out = join(out.as_str(), segs[i].as_str());
        i = i + 1;
    }
    assert(views(segs@).take(n as int) =~= views(segs@));
    out
}

/// Joining `x` then `y` is joining `x` followed by `y`.
pub proof fn lemma_join_all_concat(base: Seq<char>, x: Seq<Seq<char>>, y: Seq<Seq<char>>)
    ensures
        join_all(base, x + y) == join_all(join_all(base, x), y),
    decreases y.len(),
{
    if y.len() == 0 {
        assert(x + y =~= x);
    } else {
        assert((x + y).drop_last() =~= x + y.drop_last());
        assert((x + y).last() == y.last());
        lemma_join_all_concat(base, x, y.drop_last());
    }
}

/// Joining names onto a directory that does not end in `/` puts a `/`
/// between each two.
pub proof fn lemma_join_all_names(dir: Seq<char>, names: Seq<Seq<char>>)
    requires
        dir.len() > 0,
        dir.last() != '/',
        names.len() > 0,
        forall|i: int| 0 <= i < names.len() ==> (#[trigger] names[i]).len() > 0 && lacks(names[i], '/'),
    ensures
        join_all(dir, names) == dir + seq!['/'] + join_with(names, seq!['/']),
    decreases names.len(),
{
    let last = names.last();
    assert(last.len() > 0 && lacks(last, '/'));
    assert(last[0] != '/');
    if names.len() == 1 {
        assert(names.drop_last() =~= Seq::<Seq<char>>::empty());
        assert(join_all(dir, names.drop_last()) == dir);
    } else {
        let front = names.drop_last();
        assert(forall|i: int| 0 <= i < front.len() ==> front[i] == names[i]);
        lemma_join_all_names(dir, front);
        assert(front.last() == names[names.len() - 2]);
        assert(lacks(front.last(), '/'));
        lemma_join_last(front, seq!['/']);
        let base = join_all(dir, front);
        assert(base.last() == front.last().last());
        assert(base.last() != '/');
        assert(join_all(dir, names) =~= dir + seq!['/'] + join_with(names, seq!['/']));
    }
}

/// The names of `segs` other than `.`.
pub open spec fn without_dots(segs: Seq<Seq<char>>) -> Seq<Seq<char>>
    decreases segs.len(),
{
    if segs.len() == 0 {
        segs
    } else if segs.last() == seq!['.'] {
        without_dots(segs.drop_last())
    } else {
        without_dots(segs.drop_last()).push(segs.last())
    }
}

/// The leading component of `p`: the root `/`, a leading `.`, or none.
pub open spec fn lead_component(p: Seq<char>) -> Seq<Seq<char>> {
    if p.len() > 0 && p[0] == '/' {
        seq![seq!['/']]
    } else if p.len() > 0 && p[0] == '.' && (p.len() == 1 || p[1] == '/') {
        seq![seq!['.']]
    } else {
        Seq::empty()
    }
}

/// The components of `p` as `Path::components` yields them: the root or a
/// leading `.`, then the non-empty names, with other `.` names dropped; `/`
/// and `\` both separate names.
pub open spec fn components(p: Seq<char>) -> Seq<Seq<char>> {
    lead_component(slashed(p)) + without_dots(segments(slashed(p)))
}

/// The components of the parent of a path with components `c` (`Path::parent`).
pub open spec fn parent_components(c: Seq<Seq<char>>) -> Option<Seq<Seq<char>>> {
    if c.len() == 0 || c.last() == seq!['/'] {
        None
    } else {
        Some(c.drop_last())
    }
}

/// Whether `a` is a prefix of `b`.
pub open spec fn is_prefix_of<T>(a: Seq<T>, b: Seq<T>) -> bool {
    a.len() <= b.len() && b.take(a.len() as int) == a
}

/// The components of `p`.
pub fn path_components(p: &str) -> (r: Vec<String>)
    ensures
        views(r@) == components(p@),
{
    let q = to_slashes(p);
    let p = q.as_str();
    let n = p.unicode_len();
    let mut out: Vec<String> = Vec::new();
    if n > 0 && p.get_char(0) == '/' {
        proof {
            reveal_strlit("/");
            assert("/"@ =~= seq!['/']);
        }
        out.push("/".to_owned());
        assert(views(out@) =~= lead_component(p@));
    } else if n > 0 && p.get_char(0) == '.' && (n == 1 || p.get_char(1) == '/') {
        proof {
            reveal_strlit(".");
            assert("."@ =~= seq!['.']);
        }
        out.push(".".to_owned());
        assert(views(out@) =~= lead_component(p@));
    } else {
        assert(views(out@) =~= lead_component(p@));
    }
    let segs = path_segments(p);
    let ghost lead = views(out@);
    let ghost all = views(segs@);
    let m = segs.len();
    let mut i: usize = 0;
    assert(all.take(0) =~= Seq::<Seq<char>>::empty());
    assert(views(out@) =~= lead + without_dots(all.take(0)));
    while i < m
        invariant
            m == segs@.len(),
            all == views(segs@),
            all == segments(p@),
            i <= m,
            views(out@) == lead + without_dots(all.take(i as int)),
        decreases m - i,
    {
        assert(all.take(i + 1).drop_last() =~= all.take(i as int));
        let ghost prev = views(out@);
        let name = segs[i].clone();
        assert(name@ == all[i as int]);
        proof {
            reveal_strlit(".");
            assert("."@ =~= seq!['.']);
        }
        if !str_eq(name.as_str(), ".") {
            out.push(name);
            assert(views(out@) =~= prev.push(all[i as int]));
        }
        i = i + 1;
        assert(views(out@) =~= lead + without_dots(all.take(i as int)));
    }
    assert(all.take(m as int) =~= all);
    out
}

/// Whether two sequences of strings hold the same characters.
pub fn same_names(a: &Vec<String>, b: &Vec<String>) -> (r: bool)
    ensures
        r == (views(a@) == views(b@)),
{
    if a.len() != b.len() {
        assert(views(a@).len() != views(b@).len());
        return false;
    }
    let n = a.len();
    let mut i: usize = 0;
    while i < n
        invariant
            n == a@.len(),
            n == b@.len(),
            i <= n,
            forall|j: int| 0 <= j < i ==> a@[j]@ == b@[j]@,
        decreases n - i,
    {
        if a[i] != b[i] {
            assert(views(a@)[i as int] != views(b@)[i as int]);
            return false;
        }
        i = i + 1;
    }
    assert(views(a@) =~= views(b@));
    true
}

/// Whether `a` is a prefix of `b`, comparing characters.
pub fn names_prefix(a: &Vec<String>, b: &Vec<String>) -> (r: bool)
    ensures
        r == is_prefix_of(views(a@), views(b@)),
{
    if a.len() > b.len() {
        return false;
    }
    let n = a.len();
    let mut i: usize = 0;
    while i < n
        invariant
            n == a@.len(),
            n <= b@.len(),
            i <= n,
            forall|j: int| 0 <= j < i ==> a@[j]@ == b@[j]@,
        decreases n - i,
    {
        if a[i] != b[i] {
            assert(views(b@).take(n as int)[i as int] != views(a@)[i as int]);
            return false;
        }
        i = i + 1;
    }
    assert(views(b@).take(n as int) =~= views(a@));
    true
}

} // verus!
