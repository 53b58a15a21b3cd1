//! Character-sequence helpers with the semantics of the `str` methods they
//! stand for (`trim`, `strip_prefix`, `split`, `lines`).

use vstd::prelude::*;

verus! {

/// The characters for which `char::is_whitespace` holds (Unicode `White_Space`).
pub open spec fn is_ws(c: char) -> bool {
    ||| c == '\t' || c == '\n' || c == '\u{0B}' || c == '\u{0C}' || c == '\r' || c == ' '
    ||| c == '\u{85}' || c == '\u{A0}' || c == '\u{1680}'
    ||| ('\u{2000}' <= c && c <= '\u{200A}')
    ||| c == '\u{2028}' || c == '\u{2029}' || c == '\u{202F}' || c == '\u{205F}' || c == '\u{3000}'
}

pub fn is_whitespace(c: char) -> (b: bool)
    ensures
        b == is_ws(c),
{
    c == '\t' || c == '\n' || c == '\u{0B}' || c == '\u{0C}' || c == '\r' || c == ' ' || c
        == '\u{85}' || c == '\u{A0}' || c == '\u{1680}' || ('\u{2000}' <= c && c <= '\u{200A}')
        || c == '\u{2028}' || c == '\u{2029}' || c == '\u{202F}' || c == '\u{205F}' || c
        == '\u{3000}'
}

/// `s` without its leading whitespace.
pub open spec fn trim_start(s: Seq<char>) -> Seq<char>
    decreases s.len(),
{
    if s.len() > 0 && is_ws(s[0]) {
        trim_start(s.drop_first())
    } else {
        s
    }
}

/// `s` without its trailing whitespace.
pub open spec fn trim_end(s: Seq<char>) -> Seq<char>
    decreases s.len(),
{
    if s.len() > 0 && is_ws(s.last()) {
        trim_end(s.drop_last())
    } else {
        s
    }
}

/// `s` without leading and trailing whitespace, as `str::trim` returns it.
pub open spec fn trim(s: Seq<char>) -> Seq<char> {
    trim_end(trim_start(s))
}

/// The characters of `s`, in order.
pub fn chars_of(s: &str) -> (v: Vec<char>)
    ensures
        v@ == s@,
{
    let n = s.unicode_len();
    let mut v: Vec<char> = Vec::new();
    let mut k: usize = 0;
    while k < n
        invariant
            n == s@.len(),
            k <= n,
            v@ == s@.take(k as int),
        decreases n - k,
    {
        v.push(s.get_char(k));
        k = k + 1;
        assert(v@ =~= s@.take(k as int));
    }
    assert(v@ =~= s@);
    v
}

/// Copy of the characters `from..to` of `s`.
pub fn substring(s: &str, from: usize, to: usize) -> (r: String)
    requires
        from <= to <= s@.len(),
    ensures
        r@ == s@.subrange(from as int, to as int),
{
    s.substring_char(from, to).to_owned()
}

/// `str::trim`.
pub fn trim_str(s: &str) -> (r: String)
    ensures
        r@ == trim(s@),
{
    let v = chars_of(s);
    let n = v.len();
    let mut i: usize = 0;
    assert(s@.skip(0) =~= s@);
    while i < n && is_whitespace(v[i])
        invariant
            v@ == s@,
            n == v@.len(),
            i <= n,
            trim_start(s@) == trim_start(s@.skip(i as int)),
        decreases n - i,
    {
        assert(s@.skip(i as int).drop_first() =~= s@.skip(i + 1));
        i = i + 1;
    }
    assert(trim_start(s@) == s@.skip(i as int));
    let mut j: usize = n;
    assert(s@.skip(i as int) =~= s@.subrange(i as int, n as int));
    while j > i && is_whitespace(v[j - 1])
        invariant
            v@ == s@,
            n == v@.len(),
            i <= j <= n,
            trim(s@) == trim_end(s@.subrange(i as int, j as int)),
        decreases j,
    {
        assert(s@.subrange(i as int, j as int).drop_last() =~= s@.subrange(i as int, j - 1));
        j = j - 1;
    }
    substring(s, i, j)
}


/// A string that neither begins nor ends with whitespace is its own trim.
pub proof fn lemma_trim_plain(s: Seq<char>)
    requires
        s.len() > 0,
        !is_ws(s[0]),
        !is_ws(s.last()),
    ensures
        trim(s) == s,
{
}

/// `trim_start` leaves no whitespace in front.
proof fn lemma_trim_start_front(s: Seq<char>)
    ensures
        trim_start(s).len() > 0 ==> !is_ws(trim_start(s)[0]),
    decreases s.len(),
{
    if s.len() > 0 && is_ws(s[0]) {
        lemma_trim_start_front(s.drop_first());
    }
}

/// `trim_end` keeps a prefix and leaves no whitespace at the back.
proof fn lemma_trim_end_prefix(s: Seq<char>)
    ensures
        trim_end(s) == s.take(trim_end(s).len() as int),
        trim_end(s).len() <= s.len(),
        trim_end(s).len() > 0 ==> !is_ws(trim_end(s).last()),
    decreases s.len(),
{
    if s.len() > 0 && is_ws(s.last()) {
        lemma_trim_end_prefix(s.drop_last());
        let t = trim_end(s.drop_last());
        assert(s.drop_last().take(t.len() as int) =~= s.take(t.len() as int));
    } else {
        assert(s.take(s.len() as int) =~= s);
    }
}

/// Trimming twice trims once.
pub proof fn lemma_trim_idempotent(s: Seq<char>)
    ensures
        trim(trim(s)) == trim(s),
{
    let a = trim_start(s);
    lemma_trim_start_front(s);
    lemma_trim_end_prefix(a);
    let t = trim_end(a);
    if t.len() > 0 {
        assert(t[0] == a[0]);
        assert(trim_start(t) == t);
        assert(trim_end(t) == t);
    } else {
        assert(trim_start(t) == t);
        assert(trim_end(t) == t);
    }
}

/// `s` with each `\` read as `/`: paths written with either separator.
pub open spec fn slashed(s: Seq<char>) -> Seq<char> {
    s.map_values(|c: char| if c == '\\' { '/' } else { c })
}

/// `s` with each `\` replaced by `/`.
pub fn to_slashes(s: &str) -> (r: String)
    ensures
        r@ == slashed(s@),
{
    let v = chars_of(s);
    let n = v.len();
    let mut out = String::new();
    let mut i: usize = 0;
    proof {
        reveal_strlit("/");
    }
    while i < n
        invariant
            v@ == s@,
            n == v@.len(),
            i <= n,
            "/"@ == seq!['/'],
            out@ == slashed(s@.take(i as int)),
        decreases n - i,
    {
        if v[i] == '\\' {
            out.append("/");
        } else {
            out.append(s.substring_char(i, i + 1));
        }
        assert(slashed(s@.take(i + 1)) =~= slashed(s@.take(i as int)).push(
            if s@[i as int] == '\\' { '/' } else { s@[i as int] },
        ));
        i = i + 1;
    }
    assert(s@.take(n as int) =~= s@);
    out
}

/// Whether `s` begins with `p`.
pub open spec fn has_prefix(s: Seq<char>, p: Seq<char>) -> bool {
    p.len() <= s.len() && s.take(p.len() as int) == p
}

/// Whether `s` ends with `p`.
pub open spec fn has_suffix(s: Seq<char>, p: Seq<char>) -> bool {
    p.len() <= s.len() && s.skip(s.len() - p.len()) == p
}

/// Whether `p` occurs somewhere in `s`.
pub open spec fn occurs(s: Seq<char>, p: Seq<char>) -> bool {
    exists|i: int| 0 <= i && i + p.len() <= s.len() && #[trigger] s.subrange(i, i + p.len()) == p
}

/// Index of the first `c` in `s`, if any.
pub open spec fn first_of(s: Seq<char>, c: char) -> Option<int>
    decreases s.len(),
{
    if s.len() == 0 {
        None
    } else {
        match first_of(s.drop_last(), c) {
            Some(i) => Some(i),
            None => if s.last() == c {
                Some(s.len() - 1)
            } else {
                None
            },
        }
    }
}

/// The pieces of `s` between occurrences of `c`, as `str::split(c)` yields them.
pub open spec fn split_on(s: Seq<char>, c: char) -> Seq<Seq<char>>
    decreases s.len(),
{
    if s.len() == 0 {
        seq![Seq::<char>::empty()]
    } else {
        let parts = split_on(s.drop_last(), c);
        if s.last() == c {
            parts.push(Seq::<char>::empty())
        } else {
            parts.update(parts.len() - 1, parts.last().push(s.last()))
        }
    }
}

/// The non-empty pieces of `s` between `/` characters: the names a path or a
/// slash-separated branch name is made of.
pub open spec fn segments(s: Seq<char>) -> Seq<Seq<char>> {
    nonempty(split_on(s, '/'))
}

/// The non-empty members of `parts`, in order.
pub open spec fn nonempty(parts: Seq<Seq<char>>) -> Seq<Seq<char>>
    decreases parts.len(),
{
    if parts.len() == 0 {
        parts
    } else if parts.last().len() > 0 {
        nonempty(parts.drop_last()).push(parts.last())
    } else {
        nonempty(parts.drop_last())
    }
}

/// `s` without one trailing carriage return.
pub open spec fn strip_cr(s: Seq<char>) -> Seq<char> {
    if s.len() > 0 && s.last() == '\r' {
        s.drop_last()
    } else {
        s
    }
}

/// The lines of `s`, as `str::lines` yields them: split at `\n`, a `\r`
/// before that `\n` dropped, no final empty line.
pub open spec fn lines(s: Seq<char>) -> Seq<Seq<char>> {
    let parts = split_on(s, '\n');
    let body = parts.drop_last().map_values(|p: Seq<char>| strip_cr(p));
    if parts.last().len() == 0 {
        body
    } else {
        body.push(parts.last())
    }
}

/// `s` without trailing `\r` and `\n` characters (`trim_end_matches(['\r', '\n'])`).
pub open spec fn trim_newlines(s: Seq<char>) -> Seq<char>
    decreases s.len(),
{
    if s.len() > 0 && (s.last() == '\r' || s.last() == '\n') {
        trim_newlines(s.drop_last())
    } else {
        s
    }
}

/// The pieces of `parts` with `sep` between each two of them (`[..].join(sep)`).
pub open spec fn join_with(parts: Seq<Seq<char>>, sep: Seq<char>) -> Seq<char>
    decreases parts.len(),
{
    if parts.len() == 0 {
        Seq::<char>::empty()
    } else if parts.len() == 1 {
        parts[0]
    } else {
        join_with(parts.drop_last(), sep) + sep + parts.last()
    }
}

/// The character views of a sequence of strings.
pub open spec fn views(v: Seq<String>) -> Seq<Seq<char>> {
    v.map_values(|x: String| x@)
}

/// Whether `c` does not occur in `s`.
pub open spec fn lacks(s: Seq<char>, c: char) -> bool {
    forall|i: int| 0 <= i < s.len() ==> s[i] != c
}

/// Splitting at a separator between two strings splits each of them.
pub proof fn lemma_split_concat(a: Seq<char>, b: Seq<char>, c: char)
    ensures
        split_on(a + seq![c] + b, c) == split_on(a, c) + split_on(b, c),
    decreases b.len(),
{
    let s = a + seq![c] + b;
    if b.len() == 0 {
        assert(s.drop_last() =~= a);
        assert(split_on(s, c) =~= split_on(a, c) + split_on(b, c));
    } else {
        assert(s.drop_last() =~= a + seq![c] + b.drop_last());
        lemma_split_concat(a, b.drop_last(), c);
        lemma_split_nonempty(b.drop_last(), c);
        assert(split_on(s, c) =~= split_on(a, c) + split_on(b, c));
    }
}

/// A string without `c` is one piece.
pub proof fn lemma_split_single(s: Seq<char>, c: char)
    requires
        lacks(s, c),
    ensures
        split_on(s, c) == seq![s],
    decreases s.len(),
{
    if s.len() > 0 {
        assert(lacks(s.drop_last(), c));
        lemma_split_single(s.drop_last(), c);
        assert(s.drop_last().push(s.last()) =~= s);
    } else {
        assert(s =~= Seq::<char>::empty());
    }
}

/// The pieces of a split hold no separator.
pub proof fn lemma_split_pieces(s: Seq<char>, c: char)
    ensures
        forall|i: int| 0 <= i < split_on(s, c).len() ==> lacks(#[trigger] split_on(s, c)[i], c),
    decreases s.len(),
{
    if s.len() > 0 {
        lemma_split_pieces(s.drop_last(), c);
        lemma_split_nonempty(s.drop_last(), c);
        let parts = split_on(s.drop_last(), c);
        if s.last() != c {
            assert(lacks(parts.last().push(s.last()), c));
        }
    }
}

/// Keeping the non-empty members distributes over concatenation.
pub proof fn lemma_nonempty_concat(x: Seq<Seq<char>>, y: Seq<Seq<char>>)
    ensures
        nonempty(x + y) == nonempty(x) + nonempty(y),
    decreases y.len(),
{
    if y.len() == 0 {
        assert(x + y =~= x);
        assert(nonempty(x) + nonempty(y) =~= nonempty(x));
    } else {
        assert((x + y).drop_last() =~= x + y.drop_last());
        lemma_nonempty_concat(x, y.drop_last());
        if y.last().len() > 0 {
            assert(nonempty(x + y) =~= nonempty(x) + nonempty(y));
        } else {
            assert(nonempty(x + y) =~= nonempty(x) + nonempty(y));
        }
    }
}

/// The kept members are non-empty, and each lacks `c` when all members do.
pub proof fn lemma_nonempty_members(x: Seq<Seq<char>>, c: char)
    requires
        forall|i: int| 0 <= i < x.len() ==> lacks(#[trigger] x[i], c),
    ensures
        forall|i: int|
            0 <= i < nonempty(x).len() ==> (#[trigger] nonempty(x)[i]).len() > 0 && lacks(
                nonempty(x)[i],
                c,
            ),
    decreases x.len(),
{
    if x.len() > 0 {
        let d = x.drop_last();
        assert(forall|i: int| 0 <= i < d.len() ==> d[i] == x[i]);
        lemma_nonempty_members(d, c);
        if x.last().len() > 0 {
            let r = nonempty(x);
            assert(r == nonempty(d).push(x.last()));
            assert forall|i: int| 0 <= i < r.len() implies (#[trigger] r[i]).len() > 0 && lacks(
                r[i],
                c,
            ) by {
                if i < nonempty(d).len() {
                    assert(r[i] == nonempty(d)[i]);
                } else {
                    assert(r[i] == x[x.len() - 1]);
                }
            }
        }
    }
}

/// The names of a path are non-empty and hold no `/`.
pub proof fn lemma_segments_names(s: Seq<char>)
    ensures
        forall|i: int|
            0 <= i < segments(s).len() ==> (#[trigger] segments(s)[i]).len() > 0 && lacks(
                segments(s)[i],
                '/',
            ),
{
    lemma_split_pieces(s, '/');
    lemma_nonempty_members(split_on(s, '/'), '/');
}

/// The names of `a/b` are those of `a`, then those of `b`.
pub proof fn lemma_segments_concat(a: Seq<char>, b: Seq<char>)
    ensures
        segments(a + seq!['/'] + b) == segments(a) + segments(b),
{
    lemma_split_concat(a, b, '/');
    lemma_nonempty_concat(split_on(a, '/'), split_on(b, '/'));
}

/// A non-empty name without `/` is its own only name.
pub proof fn lemma_segments_name(n: Seq<char>)
    requires
        n.len() > 0,
        lacks(n, '/'),
    ensures
        segments(n) == seq![n],
{
    lemma_split_single(n, '/');
    let e = Seq::<Seq<char>>::empty();
    assert(seq![n].drop_last() =~= e);
    assert(nonempty(e) == e);
    assert(nonempty(seq![n]) == nonempty(e).push(n));
    assert(e.push(n) =~= seq![n]);
}

/// Names without `/`, joined by `/`, split back into the same names.
pub proof fn lemma_segments_join(names: Seq<Seq<char>>)
    requires
        forall|i: int| 0 <= i < names.len() ==> (#[trigger] names[i]).len() > 0 && lacks(names[i], '/'),
    ensures
        segments(join_with(names, seq!['/'])) == names,
    decreases names.len(),
{
    if names.len() == 0 {
        let e = Seq::<char>::empty();
        assert(split_on(e, '/') == seq![e]);
        assert(nonempty(seq![e]) == nonempty(seq![e].drop_last()));
        assert(seq![e].drop_last() =~= Seq::<Seq<char>>::empty());
        assert(segments(join_with(names, seq!['/'])) =~= names);
    } else if names.len() == 1 {
        lemma_segments_name(names[0]);
        assert(seq![names[0]] =~= names);
    } else {
        let front = names.drop_last();
        assert(forall|i: int| 0 <= i < front.len() ==> front[i] == names[i]);
        lemma_segments_join(front);
        lemma_segments_concat(join_with(front, seq!['/']), names.last());
        lemma_segments_name(names.last());
        assert(front + seq![names.last()] =~= names);
    }
}

/// Joining non-empty pieces ends with the last piece's last character.
pub proof fn lemma_join_last(parts: Seq<Seq<char>>, sep: Seq<char>)
    requires
        parts.len() > 0,
        parts.last().len() > 0,
    ensures
        join_with(parts, sep).len() > 0,
        join_with(parts, sep).last() == parts.last().last(),
{
}

/// Whether `a` and `b` hold the same characters.
pub fn str_eq(a: &str, b: &str) -> (r: bool)
    ensures
        r == (a@ == b@),
{
    let x = a.to_owned();
    let y = b.to_owned();
    x == y
}

/// `str::strip_prefix`.
pub fn strip_prefix(s: &str, p: &str) -> (r: Option<String>)
    ensures
        r is Some <==> has_prefix(s@, p@),
        r matches Some(rest) ==> rest@ == s@.skip(p@.len() as int),
{
    let n = s.unicode_len();
    let m = p.unicode_len();
    if m > n {
        return None;
    }
    let head = s.substring_char(0, m);
    if str_eq(head, p) {
        Some(substring(s, m, n))
    } else {
        None
    }
}

/// `str::strip_suffix`.
pub fn strip_suffix(s: &str, p: &str) -> (r: Option<String>)
    ensures
        r is Some <==> has_suffix(s@, p@),
        r matches Some(rest) ==> rest@ == s@.take(s@.len() - p@.len()),
{
    let n = s.unicode_len();
    let m = p.unicode_len();
    if m > n {
        return None;
    }
    let tail = s.substring_char(n - m, n);
    if str_eq(tail, p) {
        Some(substring(s, 0, n - m))
    } else {
        None
    }
}

/// Index of the first `c` in `s` (`str::find` counted in characters).
pub fn find_char(s: &str, c: char) -> (r: Option<usize>)
    ensures
        r matches Some(i) ==> first_of(s@, c) == Some(i as int) && i < s@.len() && s@[i as int]
            == c,
        r is None ==> first_of(s@, c) is None,
{
    let v = chars_of(s);
    let n = v.len();
    let mut i: usize = 0;
    while i < n
        invariant
            v@ == s@,
            n == s@.len(),
            i <= n,
            first_of(s@.take(i as int), c) is None,
        decreases n - i,
    {
        assert(s@.take(i + 1).drop_last() =~= s@.take(i as int));
        if v[i] == c {
            assert(first_of(s@.take(i + 1), c) == Some(i as int));
            proof {
                lemma_first_of_extends(s@, c, (i + 1) as int);
            }
            return Some(i);
        }
        i = i + 1;
    }
    assert(s@.take(n as int) =~= s@);
    None
}

/// `first_of` is the least index holding `c`.
pub proof fn lemma_first_of(s: Seq<char>, c: char)
    ensures
        match first_of(s, c) {
            Some(i) => 0 <= i < s.len() && s[i] == c && forall|j: int| 0 <= j < i ==> s[j] != c,
            None => forall|j: int| 0 <= j < s.len() ==> s[j] != c,
        },
    decreases s.len(),
{
    if s.len() > 0 {
        let t = s.drop_last();
        lemma_first_of(t, c);
        assert(forall|j: int| 0 <= j < t.len() ==> t[j] == s[j]);
    }
}

/// Once the first `c` lies in a prefix of `s`, it is the first `c` of `s`.
pub proof fn lemma_first_of_extends(s: Seq<char>, c: char, k: int)
    requires
        0 <= k <= s.len(),
        first_of(s.take(k), c) is Some,
    ensures
        first_of(s, c) == first_of(s.take(k), c),
    decreases s.len() - k,
{
    if k < s.len() {
        assert(s.take(k + 1).drop_last() =~= s.take(k));
        lemma_first_of_extends(s, c, k + 1);
    } else {
        assert(s.take(k) =~= s);
    }
}

/// The first `c` of `a`, `c`, `b` is the one after `a` when `a` holds none.
pub proof fn lemma_first_of_after(a: Seq<char>, b: Seq<char>, c: char)
    requires
        lacks(a, c),
    ensures
        first_of(a + seq![c] + b, c) == Some(a.len() as int),
{
    let s = a + seq![c] + b;
    lemma_first_of(s, c);
    assert(s[a.len() as int] == c);
    match first_of(s, c) {
        Some(i) => {
            if i < a.len() {
                assert(s[i] == a[i]);
            }
        },
        None => {},
    }
}

/// `str::split(c)`, each piece copied.
pub fn split(s: &str, c: char) -> (r: Vec<String>)
    ensures
        views(r@) == split_on(s@, c),
{
    let v = chars_of(s);
    let n = v.len();
    let mut parts: Vec<String> = Vec::new();
    let mut start: usize = 0;
    let mut i: usize = 0;
    assert(s@.take(0) =~= Seq::<char>::empty());
    assert(views(parts@).push(s@.subrange(0, 0)) =~= split_on(s@.take(0), c));
    while i < n
        invariant
            v@ == s@,
            n == s@.len(),
            start <= i <= n,
            views(parts@).push(s@.subrange(start as int, i as int)) == split_on(
                s@.take(i as int),
                c,
            ),
        decreases n - i,
    {
        assert(s@.take(i + 1).drop_last() =~= s@.take(i as int));
        assert(s@.take(i + 1).last() == v@[i as int]);
        let ghost prev = views(parts@);
        let ghost cur = s@.subrange(start as int, i as int);
        if v[i] == c {
            let piece = substring(s, start, i);
            parts.push(piece);
            assert(views(parts@) =~= prev.push(cur));
            start = i + 1;
            i = i + 1;
            assert(s@.subrange(start as int, i as int) =~= Seq::<char>::empty());
            assert(views(parts@).push(s@.subrange(start as int, i as int)) =~= split_on(
                s@.take(i as int),
                c,
            ));
        } else {
            i = i + 1;
            assert(cur.push(v@[i - 1]) =~= s@.subrange(start as int, i as int));
            assert(views(parts@).push(s@.subrange(start as int, i as int)) =~= split_on(
                s@.take(i as int),
                c,
            ));
        }
    }
    let last = substring(s, start, n);
    parts.push(last);
    assert(s@.take(n as int) =~= s@);
    assert(views(parts@) =~= split_on(s@, c));
    parts
}

/// The non-empty `/`-separated names of `s`.
pub fn path_segments(s: &str) -> (r: Vec<String>)
    ensures
        views(r@) == segments(s@),
{
    let parts = split(s, '/');
    let n = parts.len();
    let mut out: Vec<String> = Vec::new();
    let mut i: usize = 0;
    let ghost all = views(parts@);
    while i < n
        invariant
            n == parts@.len(),
            all == views(parts@),
            all == split_on(s@, '/'),
            i <= n,
            views(out@) == nonempty(all.take(i as int)),
        decreases n - i,
    {
        assert(all.take(i + 1).drop_last() =~= all.take(i as int));
        let ghost prev = views(out@);
        let part = parts[i].clone();
        assert(part@ == all[i as int]);
        if part.unicode_len() > 0 {
            out.push(part);
            assert(views(out@) =~= prev.push(all[i as int]));
        }
        i = i + 1;
        assert(views(out@) =~= nonempty(all.take(i as int)));
    }
    assert(all.take(n as int) =~= all);
    out
}

/// `str::lines`, each line copied.
pub fn lines_of(s: &str) -> (r: Vec<String>)
    ensures
        views(r@) == lines(s@),
{
    let parts = split(s, '\n');
    let n = parts.len();
    let ghost all = views(parts@);
    proof {
        lemma_split_nonempty(s@, '\n');
    }
    let mut out: Vec<String> = Vec::new();
    let mut i: usize = 0;
    while i + 1 < n
        invariant
            n == parts@.len(),
            n >= 1,
            all == views(parts@),
            all == split_on(s@, '\n'),
            i + 1 <= n,
            views(out@) == all.take(i as int).map_values(|p: Seq<char>| strip_cr(p)),
        decreases n - i,
    {
        let part = parts[i].as_str();
        let len = part.unicode_len();
        let line = if len > 0 && part.get_char(len - 1) == '\r' {
            substring(part, 0, len - 1)
        } else {
            part.to_owned()
        };
        let ghost prev = views(out@);
        assert(part@ == all[i as int]);
        assert(line@ == strip_cr(all[i as int]));
        out.push(line);
        assert(views(out@) =~= prev.push(strip_cr(all[i as int])));
        i = i + 1;
        assert(views(out@) =~= all.take(i as int).map_values(|p: Seq<char>| strip_cr(p)));
    }
    assert(all.take(i as int) =~= all.drop_last());
    let last = parts[n - 1].as_str();
    if last.unicode_len() > 0 {
        out.push(last.to_owned());
        assert(views(out@) =~= lines(s@));
    }
    out
}

/// `str::split` always yields at least one piece.
pub proof fn lemma_split_nonempty(s: Seq<char>, c: char)
    ensures
        split_on(s, c).len() >= 1,
    decreases s.len(),
{
    if s.len() > 0 {
        lemma_split_nonempty(s.drop_last(), c);
    }
}

/// `str::trim_end`.
pub fn trim_end_str(s: &str) -> (r: String)
    ensures
        r@ == trim_end(s@),
{
    let v = chars_of(s);
    let mut j: usize = v.len();
    assert(s@.take(j as int) =~= s@);
    while j > 0 && is_whitespace(v[j - 1])
        invariant
            v@ == s@,
            j <= s@.len(),
            trim_end(s@) == trim_end(s@.take(j as int)),
        decreases j,
    {
        assert(s@.take(j as int).drop_last() =~= s@.take(j - 1));
        j = j - 1;
    }
    substring(s, 0, j)
}

/// `trim_end_matches(['\r', '\n'])`.
pub fn trim_newlines_str(s: &str) -> (r: String)
    ensures
        r@ == trim_newlines(s@),
{
    let v = chars_of(s);
    let mut j: usize = v.len();
    assert(s@.take(j as int) =~= s@);
    while j > 0 && (v[j - 1] == '\r' || v[j - 1] == '\n')
        invariant
            v@ == s@,
            j <= s@.len(),
            trim_newlines(s@) == trim_newlines(s@.take(j as int)),
        decreases j,
    {
        assert(s@.take(j as int).drop_last() =~= s@.take(j - 1));
        j = j - 1;
    }
    substring(s, 0, j)
}

/// `parts.join(sep)`.
pub fn join(parts: &Vec<String>, sep: &str) -> (r: String)
    ensures
        r@ == join_with(views(parts@), sep@),
{
    let n = parts.len();
    if n == 0 {
        return String::new();
    }
    let mut out = parts[0].clone();
    let mut i: usize = 1;
    assert(views(parts@).take(1).drop_last() =~= Seq::<Seq<char>>::empty());
    while i < n
        invariant
            n == parts@.len(),
            1 <= i <= n,
            out@ == join_with(views(parts@).take(i as int), sep@),
        decreases n - i,
    {
        assert(views(parts@).take(i + 1).drop_last() =~= views(parts@).take(i as int));
        out.append(sep);
        out.append(parts[i].as_str());
        i = i + 1;
    }
    assert(views(parts@).take(n as int) =~= views(parts@));
    out
}

/// Whether `p` occurs in `s` (`str::contains`).
pub fn contains(s: &str, p: &str) -> (r: bool)
    ensures
        r == occurs(s@, p@),
{
    let n = s.unicode_len();
    let m = p.unicode_len();
    if m > n {
        return false;
    }
    if m == 0 {
        assert(s@.subrange(0int, 0int + p@.len()) =~= p@);
        return true;
    }
    let mut i: usize = 0;
    while i <= n - m
        invariant
            n == s@.len(),
            m == p@.len(),
            0 < m <= n,
            i <= n - m + 1,
            forall|j: int| 0 <= j < i ==> #[trigger] s@.subrange(j, j + m) != p@,
        decreases n - m + 1 - i,
    {
        let window = s.substring_char(i, i + m);
        if str_eq(window, p) {
            return true;
        }
        i = i + 1;
    }
    assert forall|j: int| 0 <= j && j + p@.len() <= s@.len() implies #[trigger] s@.subrange(
        j,
        j + p@.len(),
    ) != p@ by {
        assert(j < i);
    }
    false
}

} // verus!
