//! Category paths: `Parent/child` texts, their normal form, their roots and
//! the grouping that keeps a root's paths together.

use vstd::prelude::*;

use crate::text::{
    chars_of, chars_eq, chars_starts_with, split_chars, split_on, starts_with, string_of,
    trim, trim_chars, views,
};

verus! {

/// The texts held by a sequence of strings.
pub open spec fn texts(v: Seq<String>) -> Seq<Seq<char>> {
    v.map_values(|s: String| s@)
}

/// The trimmed, non-empty pieces of a path, in order.
pub open spec fn kept_parts(parts: Seq<Seq<char>>) -> Seq<Seq<char>>
    decreases parts.len(),
{
    if parts.len() == 0 {
        Seq::empty()
    } else {
        let prev = kept_parts(parts.drop_last());
        let t = trim(parts.last());
        if t.len() > 0 {
            prev.push(t)
        } else {
            prev
        }
    }
}

/// The pieces joined by `sep`.
pub open spec fn join(parts: Seq<Seq<char>>, sep: char) -> Seq<char>
    decreases parts.len(),
{
    if parts.len() == 0 {
        Seq::empty()
    } else if parts.len() == 1 {
        parts[0]
    } else {
        join(parts.drop_last(), sep) + seq![sep] + parts.last()
    }
}

/// The normal form of a category path: split at `/`, each piece trimmed,
/// empty pieces dropped, the rest joined by `/`; `None` when nothing is left.
pub open spec fn normalized(s: Seq<char>) -> Option<Seq<char>> {
    let k = kept_parts(split_on(s, '/'));
    if k.len() == 0 {
        None
    } else {
        Some(join(k, '/'))
    }
}

/// Whether the path `c` is `f` or lies under `f`.
pub open spec fn matches_path(c: Seq<char>, f: Seq<char>) -> bool {
    c == f || starts_with(c, f.push('/'))
}

/// `/` written as `|`.
pub open spec fn slash_to_bar(s: Seq<char>) -> Seq<char> {
    s.map_values(|c: char| if c == '/' { '|' } else { c })
}

/// The badge shown for an item's category while `filter` is the active one.
pub open spec fn badge(c: Seq<char>, filter: Option<Seq<char>>) -> Option<Seq<char>> {
    match filter {
        None => Some(slash_to_bar(c)),
        Some(a) => if matches_path(c, a) {
            let rel = c.skip(a.len() as int);
            let rel2 = if rel.len() > 0 && rel[0] == '/' {
                rel.drop_first()
            } else {
                rel
            };
            if rel2.len() == 0 {
                None
            } else {
                Some(slash_to_bar(rel2))
            }
        } else {
            Some(slash_to_bar(c))
        },
    }
}

/// Index of the first `c` in `s`, or its length when there is none.
pub open spec fn first_index(s: Seq<char>, c: char) -> int
    decreases s.len(),
{
    if s.len() == 0 {
        0
    } else if s[0] == c {
        0
    } else {
        1 + first_index(s.drop_first(), c)
    }
}

/// The root of a path: what comes before its first `/`.
pub open spec fn root(s: Seq<char>) -> Seq<char> {
    s.take(first_index(s, '/'))
}

/// The first occurrence of each text, in order.
pub open spec fn dedup(s: Seq<Seq<char>>) -> Seq<Seq<char>>
    decreases s.len(),
{
    if s.len() == 0 {
        Seq::empty()
    } else {
        let p = dedup(s.drop_last());
        if p.contains(s.last()) {
            p
        } else {
            p.push(s.last())
        }
    }
}

/// The paths of `s` whose root is `r`, in order.
pub open spec fn with_root(s: Seq<Seq<char>>, r: Seq<char>) -> Seq<Seq<char>>
    decreases s.len(),
{
    if s.len() == 0 {
        Seq::empty()
    } else {
        let p = with_root(s.drop_last(), r);
        if root(s.last()) == r {
            p.push(s.last())
        } else {
            p
        }
    }
}

/// The paths of `s` gathered root by root, following `rs`.
pub open spec fn gather(s: Seq<Seq<char>>, rs: Seq<Seq<char>>) -> Seq<Seq<char>>
    decreases rs.len(),
{
    if rs.len() == 0 {
        Seq::empty()
    } else {
        gather(s, rs.drop_last()) + with_root(s, rs.last())
    }
}

/// The roots of the paths, in the order they first appear.
pub open spec fn roots(s: Seq<Seq<char>>) -> Seq<Seq<char>> {
    dedup(s.map_values(|x: Seq<char>| root(x)))
}

/// Paths regrouped so that every root's paths are contiguous; roots keep the
/// order they first appear in, and paths keep their order inside a group.
pub open spec fn grouped(s: Seq<Seq<char>>) -> Seq<Seq<char>> {
    gather(s, roots(s))
}

proof fn lemma_first_index(s: Seq<char>, c: char, i: int)
    requires
        0 <= i <= s.len(),
        forall|j: int| 0 <= j < i ==> s[j] != c,
        i == s.len() || s[i] == c,
    ensures
        first_index(s, c) == i,
    decreases i,
{
    if i > 0 {
        lemma_first_index(s.drop_first(), c, i - 1);
    }
}

pub proof fn lemma_first_index_props(s: Seq<char>, c: char)
    ensures
        0 <= first_index(s, c) <= s.len(),
        forall|j: int| 0 <= j < first_index(s, c) ==> s[j] != c,
        first_index(s, c) < s.len() ==> s[first_index(s, c)] == c,
    decreases s.len(),
{
    if s.len() > 0 && s[0] != c {
        lemma_first_index_props(s.drop_first(), c);
        assert forall|j: int| 0 <= j < first_index(s, c) implies s[j] != c by {
            if j > 0 {
                assert(s[j] == s.drop_first()[j - 1]);
            }
        }
    }
}

/// Position of the first `c` in `s`, or the length of `s`.
pub fn find_char(s: &[char], c: char) -> (r: usize)
    ensures
        r as int == first_index(s@, c),
        r <= s.len(),
        forall|j: int| 0 <= j < r ==> s@[j] != c,
        r < s.len() ==> s@[r as int] == c,
{
    let mut i: usize = 0;
    while i < s.len() && s[i] != c
        invariant
            0 <= i <= s.len(),
            forall|j: int| 0 <= j < i ==> s@[j] != c,
        decreases s.len() - i,
    {
        i = i + 1;
    }
    proof {
        lemma_first_index(s@, c, i as int);
    }
    i
}

/// The root of a path, as characters.
pub fn root_chars(s: &[char]) -> (r: Vec<char>)
    ensures
        r@ == root(s@),
{
    let k = find_char(s, '/');
    crate::text::sub_chars(s, 0, k)
}

/// The root of a path: the part before the first `/`.
pub fn category_root(path: &str) -> (r: String)
    ensures
        r@ == root(path@),
{
    let cs = chars_of(path);
    let r = root_chars(cs.as_slice());
    string_of(r.as_slice())
}

/// The pieces joined by `sep`.
pub fn join_chars(parts: &Vec<Vec<char>>, sep: char) -> (r: Vec<char>)
    ensures
        r@ == join(views(parts@), sep),
{
    let mut out: Vec<char> = Vec::new();
    let mut i: usize = 0;
    while i < parts.len()
        invariant
            0 <= i <= parts.len(),
            out@ == join(views(parts@).take(i as int), sep),
        decreases parts.len() - i,
    {
        let ghost before = out@;
        if i > 0 {
            out.push(sep);
        }
        let p = &parts[i];
        let mut j: usize = 0;
        let ghost mid = out@;
        while j < p.len()
            invariant
                0 <= j <= p.len(),
                out@ == mid + p@.take(j as int),
            decreases p.len() - j,
        {
            out.push(p[j]);
            j = j + 1;
            assert(out@ =~= mid + p@.take(j as int));
        }
        assert(p@.take(p.len() as int) == p@);
        let ghost vs = views(parts@);
        assert(vs.take(i + 1).drop_last() =~= vs.take(i as int));
        assert(vs.take(i + 1).last() == p@);
        if i == 0 {
            assert(vs.take(1) =~= seq![p@]);
            assert(out@ =~= p@);
        } else {
            assert(out@ =~= before + seq![sep] + p@);
        }
        i = i + 1;
    }
    assert(views(parts@).take(parts.len() as int) =~= views(parts@));
    out
}

/// The normal form of a category path: pieces between `/` trimmed, empty
/// pieces dropped, the rest joined by `/`; `None` when no piece is left.
pub fn normalize_category(name: &str) -> (r: Option<String>)
    ensures
        match r {
            Some(x) => normalized(name@) == Some(x@),
            None => normalized(name@) is None,
        },
{
    let cs = chars_of(name);
    let parts = split_chars(cs.as_slice(), '/');
    let mut kept: Vec<Vec<char>> = Vec::new();
    let mut i: usize = 0;
    while i < parts.len()
        invariant
            0 <= i <= parts.len(),
            views(kept@) == kept_parts(views(parts@).take(i as int)),
        decreases parts.len() - i,
    {
        let t = trim_chars(parts[i].as_slice());
        let ghost vs = views(parts@);
        assert(vs.take(i + 1).drop_last() =~= vs.take(i as int));
        assert(vs.take(i + 1).last() == parts@[i as int]@);
        if t.len() > 0 {
            let ghost prev = kept@;
            kept.push(t);
            assert(views(kept@) =~= views(prev).push(t@));
        }
        i = i + 1;
    }
    assert(views(parts@).take(parts.len() as int) =~= views(parts@));
    if kept.len() == 0 {
        None
    } else {
        let joined = join_chars(&kept, '/');
        Some(string_of(joined.as_slice()))
    }
}

/// Whether the path `c` is `f` or lies under `f`.
pub fn path_matches(c: &[char], f: &[char]) -> (r: bool)
    ensures
        r == matches_path(c@, f@),
{
    if chars_eq(c, f) {
        return true;
    }
    let mut prefix: Vec<char> = Vec::new();
    let mut i: usize = 0;
    while i < f.len()
        invariant
            0 <= i <= f.len(),
            prefix@ == f@.take(i as int),
        decreases f.len() - i,
    {
        prefix.push(f[i]);
        i = i + 1;
    }
    assert(f@.take(f.len() as int) == f@);
    prefix.push('/');
    chars_starts_with(c, prefix.as_slice())
}

/// Whether `category` is `filter` or one of its sub-categories; an item
/// without category matches nothing.
pub fn category_matches(category: Option<&str>, filter: &str) -> (r: bool)
    ensures
        r == match category {
            Some(c) => matches_path(c@, filter@),
            None => false,
        },
{
    match category {
        None => false,
        Some(c) => {
            let cc = chars_of(c);
            let ff = chars_of(filter);
            path_matches(cc.as_slice(), ff.as_slice())
        },
    }
}

fn slash_to_bar_chars(s: &[char]) -> (r: Vec<char>)
    ensures
        r@ == slash_to_bar(s@),
{
    let mut r: Vec<char> = Vec::new();
    let mut i: usize = 0;
    while i < s.len()
        invariant
            0 <= i <= s.len(),
            r@ == slash_to_bar(s@.take(i as int)),
        decreases s.len() - i,
    {
        let c = s[i];
        r.push(if c == '/' { '|' } else { c });
        i = i + 1;
        assert(r@ =~= slash_to_bar(s@.take(i as int)));
    }
    assert(s@.take(s.len() as int) == s@);
    r
}

/// The category badge of an item: the whole path with `/` written `|`, or,
/// inside the active branch `filter`, the part below it (`None` for the
/// branch itself).
pub fn category_badge(category: &str, filter: Option<&str>) -> (r: Option<String>)
    ensures
        match r {
            Some(x) => badge(category@, match filter {
                Some(f) => Some(f@),
                None => None,
            }) == Some(x@),
            None => badge(category@, match filter {
                Some(f) => Some(f@),
                None => None,
            }) is None,
        },
{
    let cs = chars_of(category);
    match filter {
        None => {
            let b = slash_to_bar_chars(cs.as_slice());
            Some(string_of(b.as_slice()))
        },
        Some(active) => {
            let a = chars_of(active);
            if path_matches(cs.as_slice(), a.as_slice()) {
                let mut start: usize = a.len();
                if start < cs.len() && cs[start] == '/' {
                    start = start + 1;
                }
                let rel = crate::text::sub_chars(cs.as_slice(), start, cs.len());
                proof {
                    let r0 = cs@.skip(a@.len() as int);
                    if a@.len() < cs@.len() && cs@[a@.len() as int] == '/' {
                        assert(rel@ =~= r0.drop_first());
                    } else {
                        assert(rel@ =~= r0);
                    }
                }
                if rel.len() == 0 {
                    None
                } else {
                    let b = slash_to_bar_chars(rel.as_slice());
                    Some(string_of(b.as_slice()))
                }
            } else {
                let b = slash_to_bar_chars(cs.as_slice());
                Some(string_of(b.as_slice()))
            }
        },
    }
}

/// Whether some string of `v` holds the text `x`.
pub fn strings_contain(v: &Vec<String>, x: &String) -> (r: bool)
    ensures
        r == texts(v@).contains(x@),
{
    let mut i: usize = 0;
    while i < v.len()
        invariant
            0 <= i <= v.len(),
            forall|j: int| 0 <= j < i ==> v@[j]@ != x@,
        decreases v.len() - i,
    {
        if v[i] == *x {
            assert(texts(v@)[i as int] == x@);
            return true;
        }
        i = i + 1;
    }
    proof {
        if texts(v@).contains(x@) {
            let j = choose|j: int| 0 <= j < texts(v@).len() && texts(v@)[j] == x@;
            assert(v@[j]@ == x@);
        }
    }
    false
}

/// Whether some vector of `v` holds the text `x`.
fn vecs_contain(v: &Vec<Vec<char>>, x: &Vec<char>) -> (r: bool)
    ensures
        r == views(v@).contains(x@),
{
    let mut i: usize = 0;
    while i < v.len()
        invariant
            0 <= i <= v.len(),
            forall|j: int| 0 <= j < i ==> v@[j]@ != x@,
        decreases v.len() - i,
    {
        if chars_eq(v[i].as_slice(), x.as_slice()) {
            assert(views(v@)[i as int] == x@);
            return true;
        }
        i = i + 1;
    }
    proof {
        if views(v@).contains(x@) {
            let j = choose|j: int| 0 <= j < views(v@).len() && views(v@)[j] == x@;
            assert(v@[j]@ == x@);
        }
    }
    false
}

/// Drops every string that repeats an earlier one.
pub fn dedup_preserve_order(values: &mut Vec<String>)
    ensures
        texts(final(values)@) == dedup(texts(old(values)@)),
{
    let ghost orig = texts(values@);
    let mut out: Vec<String> = Vec::new();
    let mut i: usize = 0;
    while i < values.len()
        invariant
            0 <= i <= values.len(),
            texts(values@) == orig,
            texts(out@) == dedup(orig.take(i as int)),
        decreases values.len() - i,
    {
        let x = values[i].clone();
        assert(orig.take(i + 1).drop_last() =~= orig.take(i as int));
        assert(orig.take(i + 1).last() == x@);
        if !strings_contain(&out, &x) {
            let ghost prev = out@;
            out.push(x);
            assert(texts(out@) =~= texts(prev).push(x@));
        }
        i = i + 1;
    }
    assert(orig.take(values.len() as int) =~= orig);
    *values = out;
}

proof fn lemma_with_root_step(s: Seq<Seq<char>>, j: int, r: Seq<char>)
    requires
        0 <= j < s.len(),
    ensures
        with_root(s.take(j + 1), r) == if root(s[j]) == r {
            with_root(s.take(j), r).push(s[j])
        } else {
            with_root(s.take(j), r)
        },
{
    assert(s.take(j + 1).drop_last() =~= s.take(j));
    assert(s.take(j + 1).last() == s[j]);
}

/// Regroups the paths so that the paths sharing a root are contiguous;
/// roots keep their first-appearance order, paths keep their order.
pub fn group_categories(values: &mut Vec<String>)
    ensures
        texts(final(values)@) == grouped(texts(old(values)@)),
{
    let ghost s = texts(values@);
    let n = values.len();
    // Root of every path.
    let mut rootv: Vec<Vec<char>> = Vec::new();
    let mut i: usize = 0;
    while i < n
        invariant
            0 <= i <= n,
            n == values.len(),
            s == texts(values@),
            views(rootv@) == s.take(i as int).map_values(|x: Seq<char>| root(x)),
        decreases n - i,
    {
        let cs = chars_of(values[i].as_str());
        let r = root_chars(cs.as_slice());
        let ghost prev = rootv@;
        assert(s[i as int] == values@[i as int]@);
        rootv.push(r);
        assert(views(rootv@) =~= views(prev).push(r@));
        assert(views(rootv@) =~= s.take(i + 1).map_values(|x: Seq<char>| root(x)));
        i = i + 1;
    }
    assert(s.take(n as int) =~= s);
    // Distinct roots in order of first appearance.
    let mut rs: Vec<Vec<char>> = Vec::new();
    let mut k: usize = 0;
    let ghost all_roots = views(rootv@);
    while k < n
        invariant
            0 <= k <= n,
            n == rootv.len(),
            all_roots == views(rootv@),
            views(rs@) == dedup(all_roots.take(k as int)),
        decreases n - k,
    {
        assert(all_roots.take(k + 1).drop_last() =~= all_roots.take(k as int));
        assert(all_roots.take(k + 1).last() == rootv@[k as int]@);
        if !vecs_contain(&rs, &rootv[k]) {
            let ghost prev = rs@;
            let copy = crate::text::sub_chars(rootv[k].as_slice(), 0, rootv[k].len());
            assert(copy@ =~= rootv@[k as int]@);
            rs.push(copy);
            assert(views(rs@) =~= views(prev).push(copy@));
        }
        k = k + 1;
    }
    assert(all_roots.take(n as int) =~= all_roots);
    assert(views(rs@) == roots(s));
    // Gather root by root.
    let mut out: Vec<String> = Vec::new();
    let mut a: usize = 0;
    while a < rs.len()
        invariant
            0 <= a <= rs.len(),
            n == values.len(),
            n == rootv.len(),
            s == texts(values@),
            views(rootv@) == s.map_values(|x: Seq<char>| root(x)),
            texts(out@) == gather(s, views(rs@).take(a as int)),
        decreases rs.len() - a,
    {
        let ghost base = texts(out@);
        let ghost r = rs@[a as int]@;
        let mut j: usize = 0;
        while j < n
            invariant
                0 <= j <= n,
                n == values.len(),
                n == rootv.len(),
                s == texts(values@),
                views(rootv@) == s.map_values(|x: Seq<char>| root(x)),
                a < rs.len(),
                r == rs@[a as int]@,
                texts(out@) == base + with_root(s.take(j as int), r),
            decreases n - j,
        {
            proof {
                lemma_with_root_step(s, j as int, r);
                assert(views(rootv@)[j as int] == root(s[j as int]));
            }
            if chars_eq(rootv[j].as_slice(), rs[a].as_slice()) {
                let x = values[j].clone();
                let ghost prev = out@;
                out.push(x);
                assert(texts(out@) =~= texts(prev).push(x@));
                assert(texts(out@) =~= base + with_root(s.take(j + 1), r));
            }
            j = j + 1;
        }
        assert(s.take(n as int) =~= s);
        let ghost vr = views(rs@);
        assert(vr.take(a + 1).drop_last() =~= vr.take(a as int));
        assert(vr.take(a + 1).last() == r);
        a = a + 1;
    }
    assert(views(rs@).take(rs.len() as int) =~= views(rs@));
    *values = out;
}

} // verus!
