//! Texts: comparison, splitting, and the decimal, hexadecimal and dotted
//! forms the control plane writes and reads.

use vstd::prelude::*;

verus! {

/// The views of the items of a list.
pub open spec fn views<T: View>(s: Seq<T>) -> Seq<T::V> {
    Seq::new(s.len(), |i: int| s[i]@)
}

/// The view of an optional value.
pub open spec fn opt<T: View>(o: Option<T>) -> Option<T::V> {
    match o {
        Some(x) => Some(x@),
        None => None,
    }
}

/// The views of the items of an optional list.
pub open spec fn opt_views<T: View>(o: Option<Vec<T>>) -> Option<Seq<T::V>> {
    match o {
        Some(v) => Some(views(v@)),
        None => None,
    }
}

/// The view of a result.
pub open spec fn res<T: View, E: View>(r: Result<T, E>) -> Result<T::V, E::V> {
    match r {
        Ok(x) => Ok(x@),
        Err(e) => Err(e@),
    }
}

/// Whether the two texts are the same.
pub fn same(a: &str, b: &str) -> (r: bool)
    ensures
        r == (a@ == b@),
{
    a.to_owned() == b.to_owned()
}

/// Whether `o` holds exactly the text `s`.
pub fn holds(o: &Option<String>, s: &str) -> (r: bool)
    ensures
        r == (opt(*o) == Some(s@)),
{
    match o {
        Some(x) => same(x.as_str(), s),
        None => false,
    }
}

/// The text `o` holds, or the empty text.
pub open spec fn or_empty(o: Option<Seq<char>>) -> Seq<char> {
    match o {
        Some(s) => s,
        None => Seq::empty(),
    }
}

/// The text `o` holds, or the empty text.
pub fn text_of(o: &Option<String>) -> (r: String)
    ensures
        r@ == or_empty(opt(*o)),
{
    match o {
        Some(x) => x.clone(),
        None => String::new(),
    }
}

/// The characters of a text.
pub fn chars_of(s: &str) -> (r: Vec<char>)
    ensures
        r@ == s@,
{
    let mut r: Vec<char> = Vec::new();
    for c in it: s.chars()
        invariant
            it.seq() == s@,
            r@ == s@.take(it.index() as int),
    {
        r.push(c);
    }
    assert(s@.take(s@.len() as int) =~= s@);
    r
}

/// Whether the character `c` occurs in the text.
pub fn has_char(s: &str, c: char) -> (r: bool)
    ensures
        r == s@.contains(c),
{
    let v = chars_of(s);
    let mut i: usize = 0;
    while i < v.len()
        invariant
            i <= v@.len(),
            v@ == s@,
            forall|j: int| 0 <= j < i ==> s@[j] != c,
        decreases v@.len() - i,
    {
        if v[i] == c {
            assert(s@[i as int] == c);
            return true;
        }
        i += 1;
    }
    false
}

/// What follows the prefix `p` in `s`, if `s` starts with it.
pub fn strip<'a>(s: &'a str, p: &str) -> (r: Option<&'a str>)
    ensures
        match r {
            Some(rest) => s@ == p@ + rest@,
            None => !p@.is_prefix_of(s@),
        },
{
    let n: usize = s.unicode_len();
    let k: usize = p.unicode_len();
    if n < k {
        return None;
    }
    let head = s.substring_char(0, k);
    if same(head, p) {
        let rest = s.substring_char(k, n);
        assert(s@ =~= p@ + rest@);
        Some(rest)
    } else {
        None
    }
}

/// The texts of `parts` in order, `sep` between them.
pub open spec fn joined(parts: Seq<Seq<char>>, sep: Seq<char>) -> Seq<char>
    decreases parts.len(),
{
    if parts.len() == 0 {
        Seq::empty()
    } else if parts.len() == 1 {
        parts[0]
    } else {
        joined(parts.drop_last(), sep) + sep + parts.last()
    }
}

/// The texts of `parts` in order, `sep` between them.
pub fn join(parts: &Vec<String>, sep: &str) -> (r: String)
    ensures
        r@ == joined(views(parts@), sep@),
{
    let mut r = String::new();
    let mut i: usize = 0;
    while i < parts.len()
        invariant
            i <= parts@.len(),
            r@ == joined(views(parts@).take(i as int), sep@),
        decreases parts@.len() - i,
    {
        let ghost all = views(parts@);
        assert(all.take(i + 1).drop_last() =~= all.take(i as int));
        if i > 0 {
            r.append(sep);
        }
        r.append(parts[i].as_str());
        proof {
            assert(all.take(i + 1).last() == parts@[i as int]@);
            if i == 0 {
                assert(r@ =~= all.take(1)[0]);
            }
        }
        i += 1;
    }
    assert(views(parts@).take(i as int) =~= views(parts@));
    r
}

/// The pieces of `s` between the occurrences of `c`.
pub open spec fn split(s: Seq<char>, c: char) -> Seq<Seq<char>>
    decreases s.len(),
{
    if s.len() == 0 {
        seq![Seq::empty()]
    } else {
        let r = split(s.drop_last(), c);
        if s.last() == c {
            r.push(Seq::empty())
        } else {
            r.drop_last().push(r.last().push(s.last()))
        }
    }
}

proof fn split_not_empty(s: Seq<char>, c: char)
    ensures
        split(s, c).len() > 0,
    decreases s.len(),
{
    if s.len() > 0 {
        split_not_empty(s.drop_last(), c);
    }
}

/// Joining the pieces with the separator gives the text back.
pub proof fn split_then_join(s: Seq<char>, c: char)
    ensures
        joined(split(s, c), seq![c]) == s,
    decreases s.len(),
{
    split_not_empty(s, c);
    if s.len() == 0 {
        assert(joined(split(s, c), seq![c]) =~= s);
    } else {
        let p = s.drop_last();
        let r = split(p, c);
        split_then_join(p, c);
        split_not_empty(p, c);
        let q = split(s, c);
        if s.last() == c {
            assert(q.drop_last() =~= r);
            assert(joined(q, seq![c]) =~= s);
        } else {
            assert(q.drop_last() =~= r.drop_last());
            assert(q.last() == r.last().push(s.last()));
            assert(joined(q, seq![c]) =~= joined(r, seq![c]).push(s.last()));
            assert(s =~= p.push(s.last()));
        }
    }
}

/// A text without the separator is its own single piece.
pub proof fn split_single(s: Seq<char>, c: char)
    requires
        !s.contains(c),
    ensures
        split(s, c) == seq![s],
    decreases s.len(),
{
    if s.len() > 0 {
        let p = s.drop_last();
        assert forall|i: int| 0 <= i < p.len() implies p[i] != c by {
            assert(s[i] != c);
        }
        split_single(p, c);
        assert(s.last() != c);
        assert(p.push(s.last()) =~= s);
        assert(split(s, c) =~= seq![s]);
    } else {
        assert(s =~= Seq::empty());
    }
}

/// The pieces of a concatenation around the separator.
pub proof fn split_concat(a: Seq<char>, b: Seq<char>, c: char)
    ensures
        split(a.push(c) + b, c) == split(a, c) + split(b, c),
    decreases b.len(),
{
    let s = a.push(c) + b;
    if b.len() == 0 {
        assert(s =~= a.push(c));
        assert(s.drop_last() =~= a);
        assert(split(s, c) =~= split(a, c) + split(b, c));
    } else {
        split_concat(a, b.drop_last(), c);
        split_not_empty(b.drop_last(), c);
        assert(s.drop_last() =~= a.push(c) + b.drop_last());
        let l = split(a, c);
        let r = split(b.drop_last(), c);
        assert((l + r).drop_last() =~= l + r.drop_last());
        assert((l + r).last() == r.last());
        assert(split(s, c) =~= l + split(b, c));
    }
}

/// Splitting joined pieces gives them back, if none holds the separator.
pub proof fn join_then_split(parts: Seq<Seq<char>>, c: char)
    requires
        parts.len() > 0,
        forall|i: int| 0 <= i < parts.len() ==> !(#[trigger] parts[i]).contains(c),
    ensures
        split(joined(parts, seq![c]), c) == parts,
    decreases parts.len(),
{
    if parts.len() == 1 {
        split_single(parts[0], c);
        assert(parts =~= seq![parts[0]]);
    } else {
        let d = parts.drop_last();
        assert forall|i: int| 0 <= i < d.len() implies !(#[trigger] d[i]).contains(c) by {
            assert(d[i] == parts[i]);
        }
        join_then_split(d, c);
        assert(!parts[parts.len() - 1].contains(c));
        split_single(parts.last(), c);
        let a = joined(d, seq![c]);
        assert(a + seq![c] + parts.last() =~= a.push(c) + parts.last());
        split_concat(a, parts.last(), c);
        assert(d + seq![parts.last()] =~= parts);
    }
}

/// Two texts around their first `c` agree on both sides of it.
pub proof fn one_cut(a: Seq<char>, x: Seq<char>, b: Seq<char>, y: Seq<char>, c: char)
    requires
        a.push(c) + x == b.push(c) + y,
        !a.contains(c),
        !b.contains(c),
    ensures
        a == b,
        x == y,
{
    let s = a.push(c) + x;
    let t = b.push(c) + y;
    if a.len() < b.len() {
        assert(s[a.len() as int] == c);
        assert(t[a.len() as int] == b[a.len() as int]);
    }
    if b.len() < a.len() {
        assert(t[b.len() as int] == c);
        assert(s[b.len() as int] == a[b.len() as int]);
    }
    assert(s.take(a.len() as int) =~= a);
    assert(t.take(b.len() as int) =~= b);
    assert(s.skip(a.len() as int + 1) =~= x);
    assert(t.skip(b.len() as int + 1) =~= y);
}

/// The pieces of `s` between the occurrences of `c`.
pub fn split_on(s: &str, c: char) -> (r: Vec<String>)
    ensures
        views(r@) == split(s@, c),
{
    let v = chars_of(s);
    let mut r: Vec<String> = Vec::new();
    let mut start: usize = 0;
    let mut i: usize = 0;
    assert(s@.subrange(0, 0) =~= Seq::<char>::empty());
    assert(views(r@).push(s@.subrange(0, 0)) =~= split(s@.take(0), c));
    while i < v.len()
        invariant
            v@ == s@,
            start <= i <= v@.len(),
            views(r@).push(s@.subrange(start as int, i as int)) == split(s@.take(i as int), c),
        decreases v@.len() - i,
    {
        let ghost before = views(r@);
        let ghost piece = s@.subrange(start as int, i as int);
        assert(s@.take(i + 1).drop_last() =~= s@.take(i as int));
        if v[i] == c {
            r.push(s.substring_char(start, i).to_owned());
            start = i + 1;
            proof {
                assert(views(r@) =~= before.push(piece));
                assert(s@.subrange(i + 1, i + 1) =~= Seq::<char>::empty());
            }
        } else {
            proof {
                assert(before.push(piece).drop_last() =~= before);
                assert(s@.subrange(start as int, i + 1) =~= piece.push(s@[i as int]));
            }
        }
        i += 1;
    }
    assert(s@.take(i as int) =~= s@);
    r.push(s.substring_char(start, i).to_owned());
    assert(views(r@) =~= split(s@, c));
    r
}

/// Where `c` first occurs in `s`: the length of `s` if it does not.
pub open spec fn first_at(s: Seq<char>, c: char) -> int
    decreases s.len(),
{
    if s.len() == 0 {
        0
    } else {
        let p = first_at(s.drop_last(), c);
        if p < s.len() - 1 || s.last() == c {
            p
        } else {
            s.len() as int
        }
    }
}

/// The two sides of the first `c` in `s`, if there is one.
pub open spec fn cut(s: Seq<char>, c: char) -> Option<(Seq<char>, Seq<char>)> {
    let p = first_at(s, c);
    if p < s.len() {
        Some((s.take(p), s.skip(p + 1)))
    } else {
        None
    }
}

/// The two sides of the first `c` in `s`, if there is one.
pub fn cut_at<'a>(s: &'a str, c: char) -> (r: Option<(&'a str, &'a str)>)
    ensures
        match r {
            Some(p) => cut(s@, c) == Some((p.0@, p.1@)),
            None => cut(s@, c) is None,
        },
{
    let v = chars_of(s);
    let mut i: usize = 0;
    assert(s@.take(0).len() == 0);
    while i < v.len()
        invariant
            v@ == s@,
            i <= v@.len(),
            first_at(s@.take(i as int), c) == i,
        decreases v@.len() - i,
    {
        assert(s@.take(i + 1).drop_last() =~= s@.take(i as int));
        if v[i] == c {
            proof {
                assert(first_at(s@.take(i + 1), c) == i);
                first_at_stays(s@, c, i + 1);
            }
            let n: usize = v.len();
            let a = s.substring_char(0, i);
            let b = s.substring_char(i + 1, n);
            assert(a@ =~= s@.take(i as int));
            assert(b@ =~= s@.skip(i + 1));
            return Some((a, b));
        }
        i += 1;
    }
    assert(s@.take(i as int) =~= s@);
    None
}

/// The place found in a prefix is the place in the whole text.
proof fn first_at_stays(s: Seq<char>, c: char, n: int)
    requires
        0 <= n <= s.len(),
        first_at(s.take(n), c) < n,
    ensures
        first_at(s, c) == first_at(s.take(n), c),
    decreases s.len(),
{
    if n == s.len() {
        assert(s.take(n) =~= s);
    } else {
        assert(s.drop_last().take(n) =~= s.take(n));
        first_at_stays(s.drop_last(), c, n);
    }
}

/// Unicode white space.
pub open spec fn is_space(c: char) -> bool {
    let u = c as u32;
    ||| 0x09 <= u <= 0x0d
    ||| u == 0x20
    ||| u == 0x85
    ||| u == 0xa0
    ||| u == 0x1680
    ||| 0x2000 <= u <= 0x200a
    ||| u == 0x2028
    ||| u == 0x2029
    ||| u == 0x202f
    ||| u == 0x205f
    ||| u == 0x3000
}

/// Unicode white space.
pub fn space(c: char) -> (r: bool)
    ensures
        r == is_space(c),
{
    let u: u32 = c as u32;
    (0x09 <= u && u <= 0x0d) || u == 0x20 || u == 0x85 || u == 0xa0 || u == 0x1680 || (0x2000 <= u
        && u <= 0x200a) || u == 0x2028 || u == 0x2029 || u == 0x202f || u == 0x205f || u == 0x3000
}

/// The maximal runs of `s` without white space, in order.
pub open spec fn words(s: Seq<char>) -> Seq<Seq<char>>
    decreases s.len(),
{
    if s.len() == 0 {
        Seq::empty()
    } else {
        let w = words(s.drop_last());
        if is_space(s.last()) {
            w
        } else if s.len() > 1 && !is_space(s[s.len() - 2]) {
            w.drop_last().push(w.last().push(s.last()))
        } else {
            w.push(seq![s.last()])
        }
    }
}

/// The maximal runs of `s` without white space, in order.
pub fn words_of(s: &str) -> (r: Vec<String>)
    ensures
        views(r@) == words(s@),
{
    let v = chars_of(s);
    let mut r: Vec<String> = Vec::new();
    let mut start: usize = 0;
    let mut i: usize = 0;
    assert(views(r@) =~= words(s@.take(0)));
    while i < v.len()
        invariant
            v@ == s@,
            start <= i <= v@.len(),
            start == i ==> i == 0 || is_space(s@[i - 1]),
            start < i ==> !is_space(s@[i - 1]),
            words(s@.take(i as int)) == (if start == i {
                views(r@)
            } else {
                views(r@).push(s@.subrange(start as int, i as int))
            }),
        decreases v@.len() - i,
    {
        let ghost before = views(r@);
        let ghost piece = s@.subrange(start as int, i as int);
        assert(s@.take(i + 1).drop_last() =~= s@.take(i as int));
        if space(v[i]) {
            if start < i {
                r.push(s.substring_char(start, i).to_owned());
                assert(views(r@) =~= before.push(piece));
            }
            start = i + 1;
        } else {
            proof {
                if start < i {
                    assert(before.push(piece).drop_last() =~= before);
                    assert(s@.subrange(start as int, i + 1) =~= piece.push(s@[i as int]));
                } else {
                    assert(s@.subrange(start as int, i + 1) =~= seq![s@[i as int]]);
                }
            }
        }
        i += 1;
    }
    assert(s@.take(i as int) =~= s@);
    if start < i {
        let ghost before = views(r@);
        r.push(s.substring_char(start, i).to_owned());
        assert(views(r@) =~= before.push(s@.subrange(start as int, i as int)));
    }
    r
}

/// Whether `t` is `s` without the white space at its two ends.
pub open spec fn is_trim(s: Seq<char>, t: Seq<char>) -> bool {
    exists|i: int, j: int|
        {
            &&& 0 <= i <= j <= s.len()
            &&& t == #[trigger] s.subrange(i, j)
            &&& forall|k: int| 0 <= k < i ==> is_space(s[k])
            &&& forall|k: int| j <= k < s.len() ==> is_space(s[k])
            &&& i < j ==> !is_space(s[i]) && !is_space(s[j - 1])
        }
}

/// `s` without the white space at its two ends.
pub fn trim(s: &str) -> (r: String)
    ensures
        is_trim(s@, r@),
{
    let v = chars_of(s);
    let mut i: usize = 0;
    while i < v.len() && space(v[i])
        invariant
            v@ == s@,
            i <= v@.len(),
            forall|k: int| 0 <= k < i ==> is_space(s@[k]),
        decreases v@.len() - i,
    {
        i += 1;
    }
    let mut j: usize = v.len();
    while i < j && space(v[j - 1])
        invariant
            v@ == s@,
            i <= j <= v@.len(),
            forall|k: int| j <= k < s@.len() ==> is_space(s@[k]),
        decreases j,
    {
        j -= 1;
    }
    let r = s.substring_char(i, j).to_owned();
    assert(r@ == s@.subrange(i as int, j as int));
    r
}

} // verus!
