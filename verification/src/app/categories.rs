//! The category side of the application: the top-level categories, new
//! category paths typed under a parent, and where the sidebar points.

use vstd::prelude::*;

use crate::data::category::{normalize_category, normalized, root, root_chars, texts};
use crate::data::sidebar::entry_views;
use crate::data::{CategoryEntry, EntryView};

use crate::text::{chars_lt, chars_of, string_of, text_lt, lemma_text_lt_total, lemma_text_lt_transitive, lemma_text_lt_asymmetric};
use super::App;

verus! {

/// Every text of `s` comes strictly before the next ones: sorted, with no
/// text twice.
pub open spec fn strictly_sorted(s: Seq<Seq<char>>) -> bool {
    forall|i: int, j: int| 0 <= i < j < s.len() ==> text_lt(#[trigger] s[i], #[trigger] s[j])
}

/// Whether `x` is the normalized root of one of the paths `cats`.
pub open spec fn is_root_name(cats: Seq<Seq<char>>, x: Seq<char>) -> bool {
    exists|i: int| 0 <= i < cats.len() && normalized(root(#[trigger] cats[i])) == Some(x)
}

/// The top-level categories of the paths `cats`: their normalized roots,
/// sorted, each once.
pub open spec fn root_list(cats: Seq<Seq<char>>) -> Seq<Seq<char>> {
    choose|s: Seq<Seq<char>>|
        strictly_sorted(s) && forall|x: Seq<char>| s.contains(x) <==> is_root_name(cats, x)
}

/// Two strictly sorted lists with the same texts are the same list.
pub proof fn lemma_sorted_unique(a: Seq<Seq<char>>, b: Seq<Seq<char>>)
    requires
        strictly_sorted(a),
        strictly_sorted(b),
        forall|x: Seq<char>| a.contains(x) <==> b.contains(x),
    ensures
        a == b,
    decreases a.len() + b.len(),
{
    if a.len() == 0 {
        if b.len() > 0 {
            assert(b.contains(b[0]));
        }
        assert(b =~= a);
    } else if b.len() == 0 {
        assert(a.contains(a[0]));
    } else {
        assert(a.contains(a[0]));
        let j = choose|j: int| 0 <= j < b.len() && b[j] == a[0];
        assert(b.contains(b[0]));
        let i = choose|i: int| 0 <= i < a.len() && a[i] == b[0];
        if j > 0 {
            assert(text_lt(b[0], b[j]));
            if i > 0 {
                assert(text_lt(a[0], a[i]));
                lemma_text_lt_asymmetric(a[0], a[i]);
            } else {
                crate::text::lemma_text_lt_irreflexive(a[0]);
            }
        }
        if i > 0 {
            assert(text_lt(a[0], a[i]));
            if j > 0 {
            } else {
                crate::text::lemma_text_lt_irreflexive(a[0]);
            }
        }
        assert(a[0] == b[0]);
        let a1 = a.drop_first();
        let b1 = b.drop_first();
        assert forall|x: Seq<char>| a1.contains(x) <==> b1.contains(x) by {
            if a1.contains(x) {
                let k = choose|k: int| 0 <= k < a1.len() && a1[k] == x;
                assert(a[k + 1] == x);
                assert(text_lt(a[0], a[k + 1]));
                assert(b.contains(x));
                let m = choose|m: int| 0 <= m < b.len() && b[m] == x;
                if m == 0 {
                    crate::text::lemma_text_lt_irreflexive(a[0]);
                }
                assert(b1[m - 1] == x);
            }
            if b1.contains(x) {
                let k = choose|k: int| 0 <= k < b1.len() && b1[k] == x;
                assert(b[k + 1] == x);
                assert(text_lt(b[0], b[k + 1]));
                assert(a.contains(x));
                let m = choose|m: int| 0 <= m < a.len() && a[m] == x;
                if m == 0 {
                    crate::text::lemma_text_lt_irreflexive(b[0]);
                }
                assert(a1[m - 1] == x);
            }
        }
        assert forall|p: int, q: int| 0 <= p < q < a1.len() implies text_lt(#[trigger] a1[p], #[trigger] a1[q]) by {
            assert(a1[p] == a[p + 1] && a1[q] == a[q + 1]);
        }
        assert forall|p: int, q: int| 0 <= p < q < b1.len() implies text_lt(#[trigger] b1[p], #[trigger] b1[q]) by {
            assert(b1[p] == b[p + 1] && b1[q] == b[q + 1]);
        }
        lemma_sorted_unique(a1, b1);
        assert(a =~= seq![a[0]] + a1);
        assert(b =~= seq![b[0]] + b1);
    }
}

/// Inserts `x` into the strictly sorted `v`, unless it is there.
fn insert_sorted_unique(v: &mut Vec<String>, x: String)
    requires
        strictly_sorted(texts(old(v)@)),
    ensures
        strictly_sorted(texts(final(v)@)),
        forall|y: Seq<char>|
            texts(final(v)@).contains(y) <==> (texts(old(v)@).contains(y) || y == x@),
{
    let xc = chars_of(x.as_str());
    let ghost t = texts(v@);
    let mut i: usize = 0;
    while i < v.len() && chars_lt(chars_of(v[i].as_str()).as_slice(), xc.as_slice())
        invariant
            0 <= i <= v.len(),
            t == texts(v@),
            xc@ == x@,
            forall|k: int| 0 <= k < i ==> text_lt(#[trigger] t[k], x@),
        decreases v.len() - i,
    {
        i = i + 1;
    }
    if i < v.len() {
        let vc = chars_of(v[i].as_str());
        if crate::text::chars_eq(vc.as_slice(), xc.as_slice()) {
            proof {
                assert(t[i as int] == x@);
                assert forall|y: Seq<char>| t.contains(y) <==> (t.contains(y) || y == x@) by {
                    if y == x@ {
                        assert(t[i as int] == y);
                    }
                }
            }
            return;
        }
        proof {
            lemma_text_lt_total(t[i as int], x@);
        }
    }
    v.insert(i, x);
    proof {
        let n = texts(v@);
        assert(n =~= t.insert(i as int, x@));
        assert forall|a: int, b: int| 0 <= a < b < n.len() implies text_lt(#[trigger] n[a], #[trigger] n[b]) by {
            if b == i {
            } else if a == i {
                // x before t[b - 1], which is at or after t[i]
                if b - 1 > i {
                    lemma_text_lt_transitive(x@, t[i as int], t[b - 1]);
                }
            } else {
            }
        }
        assert forall|y: Seq<char>| n.contains(y) <==> (t.contains(y) || y == x@) by {
            if t.contains(y) {
                let k = choose|k: int| 0 <= k < t.len() && t[k] == y;
                if k < i {
                    assert(n[k] == y);
                } else {
                    assert(n[k + 1] == y);
                }
            }
            if y == x@ {
                assert(n[i as int] == y);
            }
            if n.contains(y) {
                let k = choose|k: int| 0 <= k < n.len() && n[k] == y;
                if k < i {
                    assert(t[k] == y);
                } else if k > i {
                    assert(t[k - 1] == y);
                }
            }
        }
    }
}

/// The path that `name` names under `parent`: the normalized name when it
/// holds a `/` itself or there is no parent, else the normalized
/// `parent/name`; `None` when the name normalizes to nothing.
pub open spec fn path_from_input(parent: Option<Seq<char>>, name: Seq<char>) -> Option<Seq<char>> {
    match normalized(name) {
        None => None,
        Some(n) => if n.contains('/') {
            Some(n)
        } else {
            match parent {
                Some(p) => normalized(p + seq!['/'] + n),
                None => Some(n),
            }
        },
    }
}

impl App {
    /// The top-level categories of the current view: the normalized root of
    /// every category path, sorted, each once.
    pub fn root_categories(&self) -> (r: Vec<String>)
        ensures
            texts(r@) == root_list(self.cats()),
    {
        let cats = self.categories();
        let mut out: Vec<String> = Vec::new();
        let mut i: usize = 0;
        while i < cats.len()
            invariant
                0 <= i <= cats.len(),
                texts(cats@) == self.cats(),
                strictly_sorted(texts(out@)),
                forall|x: Seq<char>|
                    texts(out@).contains(x) <==> is_root_name(texts(cats@).take(i as int), x),
            decreases cats.len() - i,
        {
            let cc = chars_of(cats[i].as_str());
            let rc = root_chars(cc.as_slice());
            let rs = string_of(rc.as_slice());
            let ghost before = texts(cats@).take(i as int);
            let ghost after = texts(cats@).take(i + 1);
            proof {
                assert forall|x: Seq<char>| is_root_name(after, x) <==> (is_root_name(before, x)
                    || normalized(root(texts(cats@)[i as int])) == Some(x)) by {
                    if is_root_name(after, x) {
                        let k = choose|k: int| 0 <= k < after.len() && normalized(root(#[trigger] after[k])) == Some(x);
                        if k < i {
                            assert(before[k] == after[k]);
                        }
                    }
                    if is_root_name(before, x) {
                        let k = choose|k: int| 0 <= k < before.len() && normalized(root(#[trigger] before[k])) == Some(x);
                        assert(after[k] == before[k]);
                    }
                    if normalized(root(texts(cats@)[i as int])) == Some(x) {
                        assert(after[i as int] == texts(cats@)[i as int]);
                    }
                }
            }
            match normalize_category(rs.as_str()) {
                Some(n) => {
                    insert_sorted_unique(&mut out, n);
                },
                None => {},
            }
            i = i + 1;
        }
        assert(texts(cats@).take(cats.len() as int) =~= texts(cats@));
        proof {
            let w = texts(out@);
            assert(strictly_sorted(w) && forall|x: Seq<char>| w.contains(x) <==> is_root_name(self.cats(), x));
            let c = root_list(self.cats());
            lemma_sorted_unique(w, c);
        }
        out
    }

    /// The path that `name` names under `parent`, as `path_from_input`
    /// says.
    pub fn category_from_input(parent: Option<&str>, name: &str) -> (r: Option<String>)
        ensures
            match r {
                Some(x) => path_from_input(
                    match parent {
                        Some(p) => Some(p@),
                        None => None,
                    },
                    name@,
                ) == Some(x@),
                None => path_from_input(
                    match parent {
                        Some(p) => Some(p@),
                        None => None,
                    },
                    name@,
                ) is None,
            },
    {
        let n = match normalize_category(name) {
            Some(n) => n,
            None => return None,
        };
        let nc = chars_of(n.as_str());
        if crate::text::chars_contain(nc.as_slice(), '/') {
            return Some(n);
        }
        match parent {
            Some(p) => {
                let mut joined = chars_of(p);
                joined.push('/');
                let mut k: usize = 0;
                let ghost base = joined@;
                assert(base =~= p@ + seq!['/']);
                while k < nc.len()
                    invariant
                        0 <= k <= nc.len(),
                        joined@ == base + nc@.take(k as int),
                    decreases nc.len() - k,
                {
                    joined.push(nc[k]);
                    k = k + 1;
                    assert(joined@ =~= base + nc@.take(k as int));
                }
                assert(nc@.take(nc.len() as int) =~= nc@);
                assert(joined@ =~= p@ + seq!['/'] + n@);
                let s = string_of(joined.as_slice());
                normalize_category(s.as_str())
            },
            None => Some(n),
        }
    }
}

/// Position of the first row whose path is `p` (and whose depth is 0, when
/// `top`), or -1.
pub open spec fn first_row(rows: Seq<EntryView>, p: Seq<char>, top: bool) -> int
    decreases rows.len(),
{
    if rows.len() == 0 {
        -1
    } else if rows[0].path == p && (!top || rows[0].depth == 0) {
        0
    } else {
        let r = first_row(rows.drop_first(), p, top);
        if r < 0 {
            -1
        } else {
            r + 1
        }
    }
}

pub proof fn lemma_first_row(rows: Seq<EntryView>, p: Seq<char>, top: bool, i: int)
    requires
        0 <= i <= rows.len(),
        forall|j: int| 0 <= j < i ==> !(#[trigger] rows[j].path == p && (!top || rows[j].depth == 0)),
        i == rows.len() || (rows[i].path == p && (!top || rows[i].depth == 0)),
    ensures
        first_row(rows, p, top) == if i == rows.len() {
            -1
        } else {
            i
        },
    decreases i,
{
    if i > 0 {
        assert forall|j: int| 0 <= j < i - 1 implies !(#[trigger] rows.drop_first()[j].path == p && (
        !top || rows.drop_first()[j].depth == 0)) by {
            assert(rows.drop_first()[j] == rows[j + 1]);
        }
        lemma_first_row(rows.drop_first(), p, top, i - 1);
    }
}

/// Position of the first entry whose path is `p` (at depth 0, when `top`).
pub fn find_row(entries: &Vec<CategoryEntry>, p: &str, top: bool) -> (r: Option<usize>)
    ensures
        match r {
            Some(j) => first_row(entry_views(entries@), p@, top) == j && j < entries.len(),
            None => first_row(entry_views(entries@), p@, top) == -1,
        },
{
    let ghost rows = entry_views(entries@);
    let pc = chars_of(p);
    let mut i: usize = 0;
    while i < entries.len()
        invariant
            0 <= i <= entries.len(),
            rows == entry_views(entries@),
            pc@ == p@,
            forall|j: int| 0 <= j < i ==> !(#[trigger] rows[j].path == p@ && (!top || rows[j].depth == 0)),
        decreases entries.len() - i,
    {
        let ec = chars_of(entries[i].path.as_str());
        if crate::text::chars_eq(ec.as_slice(), pc.as_slice()) && (!top || entries[i].depth == 0) {
            proof {
                lemma_first_row(rows, p@, top, i as int);
            }
            return Some(i);
        }
        i = i + 1;
    }
    proof {
        lemma_first_row(rows, p@, top, i as int);
    }
    None
}

/// The highlighted row remembered under the filter path `k`: the latest
/// entry for it.
pub open spec fn memo_get(m: Seq<(String, usize)>, k: Seq<char>) -> Option<usize>
    decreases m.len(),
{
    if m.len() == 0 {
        None
    } else if m.last().0@ == k {
        Some(m.last().1)
    } else {
        memo_get(m.drop_last(), k)
    }
}

pub proof fn lemma_memo_update(m: Seq<(String, usize)>, j: int, e: (String, usize), k: Seq<char>)
    requires
        0 <= j < m.len(),
        m[j].0@ == e.0@,
        e.0@ != k,
    ensures
        memo_get(m.update(j, e), k) == memo_get(m, k),
    decreases m.len(),
{
    let n = m.update(j, e);
    if j == m.len() - 1 {
        assert(n.drop_last() =~= m.drop_last());
    } else {
        assert(n.drop_last() =~= m.drop_last().update(j, e));
        lemma_memo_update(m.drop_last(), j, e, k);
    }
}

pub proof fn lemma_memo_latest(m: Seq<(String, usize)>, j: int, e: (String, usize))
    requires
        0 <= j < m.len(),
        m[j].0@ == e.0@,
        forall|i: int| j < i < m.len() ==> (#[trigger] m[i]).0@ != e.0@,
    ensures
        memo_get(m.update(j, e), e.0@) == Some(e.1),
    decreases m.len(),
{
    let n = m.update(j, e);
    if j < m.len() - 1 {
        assert(n.drop_last() =~= m.drop_last().update(j, e));
        assert(m.last() == m[m.len() - 1]);
        lemma_memo_latest(m.drop_last(), j, e);
    }
}

/// The memory after remembering `v` under `k`.
pub open spec fn memo_put(m: Seq<(String, usize)>, k: Seq<char>, v: usize, r: Seq<(String, usize)>) -> bool {
    &&& memo_get(r, k) == Some(v)
    &&& forall|k2: Seq<char>| k2 != k ==> memo_get(r, k2) == memo_get(m, k2)
}

/// The memory key of a category filter: its path, or the empty text.
pub open spec fn filter_key(f: Option<String>) -> Seq<char> {
    match f {
        Some(c) => c@,
        None => Seq::empty(),
    }
}

/// `v` kept within a list of `n` rows.
pub open spec fn clamp_to(v: int, n: int) -> int {
    if n == 0 {
        0
    } else if v < n {
        v
    } else {
        n - 1
    }
}

/// The row remembered under `k` in `m`.
fn memo_lookup(m: &Vec<(String, usize)>, k: &str) -> (r: Option<usize>)
    ensures
        r == memo_get(m@, k@),
{
    let kc = chars_of(k);
    let mut j: usize = m.len();
    assert(m@.take(m.len() as int) =~= m@);
    while j > 0
        invariant
            0 <= j <= m.len(),
            kc@ == k@,
            memo_get(m@, k@) == memo_get(m@.take(j as int), k@),
        decreases j,
    {
        let ec = chars_of(m[j - 1].0.as_str());
        assert(m@.take(j as int).last() == m@[j - 1]);
        if crate::text::chars_eq(ec.as_slice(), kc.as_slice()) {
            return Some(m[j - 1].1);
        }
        assert(m@.take(j as int).drop_last() =~= m@.take(j - 1));
        j = j - 1;
    }
    None
}

/// Remembers `v` under the key `k` in `m`.
fn memo_set(m: &mut Vec<(String, usize)>, k: String, v: usize)
    ensures
        memo_put(old(m)@, k@, v, final(m)@),
{
    let kc = chars_of(k.as_str());
    let mut j: usize = m.len();
    while j > 0
        invariant
            0 <= j <= m.len(),
            kc@ == k@,
            m@ == old(m)@,
            forall|i: int| j <= i < m.len() ==> (#[trigger] m@[i]).0@ != k@,
        decreases j,
    {
        let ec = chars_of(m[j - 1].0.as_str());
        if crate::text::chars_eq(ec.as_slice(), kc.as_slice()) {
            let ghost old_m = m@;
            let ghost kv = k@;
            let e = (k, v);
            assert(e.0@ == kv && e.1 == v);
            assert(old_m[j - 1].0@ == kv);
            proof {
                assert forall|k2: Seq<char>| k2 != e.0@ implies memo_get(old_m.update(j - 1, e), k2)
                    == memo_get(old_m, k2) by {
                    lemma_memo_update(old_m, j - 1, e, k2);
                }
                lemma_memo_latest(old_m, j - 1, e);
            }
            m.set(j - 1, e);
            assert(m@ == old_m.update(j - 1, e));
            assert(memo_get(m@, kv) == Some(v));
            assert(memo_put(old_m, kv, v, m@));
            return;
        }
        j = j - 1;
    }
    let ghost old_m = m@;
    let ghost kv = k@;
    m.push((k, v));
    assert(m@.drop_last() =~= old_m);
    assert(m@.last().0@ == kv);
    assert forall|k2: Seq<char>| k2 != kv implies memo_get(m@, k2) == memo_get(old_m, k2) by {
        assert(m@.last().0@ != k2);
    }
    assert(memo_get(m@, kv) == Some(v));
    assert(memo_put(old_m, kv, v, m@));
}

impl App {
    /// The category path of the highlighted sidebar row, when it is not the
    /// "all" row.
    pub fn selected_category_path(&self) -> (r: Option<String>)
        ensures
            match r {
                Some(p) => 0 < self.category_index <= self.rows().len() && p@ == self.rows()[self.category_index - 1].path,
                None => self.category_index == 0 || self.category_index > self.rows().len(),
            },
    {
        if self.category_index == 0 {
            return None;
        }
        let entries = self.category_entries();
        if self.category_index - 1 < entries.len() {
            proof {
                assert(entry_views(entries@)[self.category_index - 1] == entries@[self.category_index - 1]@);
            }
            Some(entries[self.category_index - 1].path.clone())
        } else {
            None
        }
    }

    /// The memory key of the current category filter.
    fn category_selection_key(&self) -> (r: String)
        ensures
            r@ == filter_key(self.category_filter),
    {
        match &self.category_filter {
            Some(c) => c.clone(),
            None => String::new(),
        }
    }

    /// Remembers the highlighted row under the current category filter.
    fn remember_category_selection(&mut self)
        requires
            old(self).today.valid(),
        ensures
            memo_put(
                old(self).category_selection_memory@,
                filter_key(old(self).category_filter),
                old(self).sel() as usize,
                final(self).category_selection_memory@,
            ),
            *final(self) == (App { category_selection_memory: final(self).category_selection_memory, ..*old(self) }),
    {
        let key = self.category_selection_key();
        let sel = self.selected_index();
        memo_set(&mut self.category_selection_memory, key, sel);
    }

    /// Puts back the highlighted row remembered under the current category
    /// filter (the first row when none is), kept within the list.
    fn restore_category_selection(&mut self)
        requires
            old(self).today.valid(),
        ensures
            final(self).selected_index == clamp_to(
                match memo_get(old(self).category_selection_memory@, filter_key(old(self).category_filter)) {
                    Some(v) => v as int,
                    None => 0,
                },
                old(self).shown().len() as int,
            ),
            *final(self) == (App { selected_index: final(self).selected_index, ..*old(self) }),
    {
        let key = self.category_selection_key();
        let found = memo_lookup(&self.category_selection_memory, key.as_str());
        let v = match found {
            Some(v) => v,
            None => 0,
        };
        self.selected_index = v;
        self.clamp_selection();
    }
}

/// The top-level category of the highlighted sidebar row, normalized; none
/// on the "all categories" row.
pub open spec fn sidebar_parent(a: App) -> Option<Seq<char>> {
    if 0 < a.category_index <= a.rows().len() {
        normalized(root(a.rows()[a.category_index - 1].path))
    } else {
        None
    }
}

/// Position of the last `c` in `s`, or -1.
pub open spec fn last_index(s: Seq<char>, c: char) -> int
    decreases s.len(),
{
    if s.len() == 0 {
        -1
    } else if s.last() == c {
        s.len() - 1
    } else {
        last_index(s.drop_last(), c)
    }
}

pub proof fn lemma_last_index(s: Seq<char>, c: char)
    ensures
        -1 <= last_index(s, c) < s.len(),
        last_index(s, c) >= 0 ==> s[last_index(s, c)] == c,
        forall|j: int| last_index(s, c) < j < s.len() ==> s[j] != c,
    decreases s.len(),
{
    if s.len() > 0 {
        lemma_last_index(s.drop_last(), c);
        assert forall|j: int| last_index(s, c) < j < s.len() implies s[j] != c by {
            if j < s.len() - 1 {
                assert(s[j] == s.drop_last()[j]);
            }
        }
    }
}

/// Position of the last `c` in `s`.
pub fn find_last_char(s: &[char], c: char) -> (r: Option<usize>)
    ensures
        match r {
            Some(j) => last_index(s@, c) == j && j < s.len(),
            None => last_index(s@, c) == -1,
        },
{
    let mut j: usize = s.len();
    assert(s@.take(s.len() as int) =~= s@);
    while j > 0
        invariant
            0 <= j <= s.len(),
            last_index(s@, c) == last_index(s@.take(j as int), c),
        decreases j,
    {
        assert(s@.take(j as int).last() == s@[j - 1]);
        if s[j - 1] == c {
            return Some(j - 1);
        }
        assert(s@.take(j as int).drop_last() =~= s@.take(j - 1));
        j = j - 1;
    }
    None
}

/// The sidebar row that backing out of row `idx` of a category list goes
/// to: for a sub-category, its parent's top-level row; for the "all" row of
/// a parent, that parent's row; 0 (the "all categories" row) otherwise.
pub open spec fn parent_row(rows: Seq<EntryView>, idx: int) -> int {
    if idx <= 0 || idx > rows.len() {
        0
    } else {
        let cur = rows[idx - 1];
        if cur.is_all {
            first_row(rows, cur.path, true) + 1
        } else if last_index(cur.path, '/') < 0 {
            0
        } else {
            first_row(rows, cur.path.take(last_index(cur.path, '/')), true) + 1
        }
    }
}

/// What `set_category_index(idx)` does: remember the highlighted row under
/// the old filter, point the sidebar at row `idx` (kept within the rows),
/// filter by that row's path (none for row 0), and highlight the row
/// remembered under the new filter, kept within the list.
pub open spec fn moved_to_category(a: App, b: App, idx: int) -> bool {
    let rows = a.rows();
    let ci = if idx < rows.len() {
        idx
    } else {
        rows.len() as int
    };
    &&& b.category_index == ci
    &&& (match b.category_filter {
        Some(c) => ci > 0 && c@ == rows[ci - 1].path,
        None => ci == 0,
    })
    &&& memo_put(
        a.category_selection_memory@,
        filter_key(a.category_filter),
        a.sel() as usize,
        b.category_selection_memory@,
    )
    &&& b.selected_index == clamp_to(
        match memo_get(b.category_selection_memory@, filter_key(b.category_filter)) {
            Some(v) => v as int,
            None => 0,
        },
        b.shown().len() as int,
    )
    &&& b == (App {
        category_index: b.category_index,
        category_filter: b.category_filter,
        selected_index: b.selected_index,
        category_selection_memory: b.category_selection_memory,
        ..a
    })
}

/// The positions of the top-level sidebar rows among rows `0..n`, each
/// plus one, after the "all categories" position 0.
pub open spec fn top_positions(rows: Seq<EntryView>, n: int) -> Seq<int>
    decreases n,
{
    if n <= 0 {
        seq![0]
    } else if rows[n - 1].depth == 0 {
        top_positions(rows, n - 1).push(n)
    } else {
        top_positions(rows, n - 1)
    }
}

/// How many of `s` are at most `v`.
pub open spec fn count_le(s: Seq<int>, v: int) -> int
    decreases s.len(),
{
    if s.len() == 0 {
        0
    } else {
        count_le(s.drop_last(), v) + if s.last() <= v {
            1int
        } else {
            0
        }
    }
}

/// The sidebar row that paging by top-level category goes to from row
/// `ci`: the top-level row before (`direction < 0`) or after the one
/// that `ci` lies under, stopping at the ends.
pub open spec fn paged_row(rows: Seq<EntryView>, ci: int, direction: int) -> int {
    let tops = top_positions(rows, rows.len() as int);
    let pos = count_le(tops, ci) - 1;
    let next = if direction < 0 {
        if pos > 0 {
            pos - 1
        } else {
            0
        }
    } else if pos + 1 < tops.len() {
        pos + 1
    } else {
        tops.len() - 1
    };
    tops[next]
}

pub proof fn lemma_top_positions(rows: Seq<EntryView>, n: int)
    requires
        0 <= n <= rows.len(),
    ensures
        top_positions(rows, n).len() >= 1,
        top_positions(rows, n).len() <= n + 1,
        top_positions(rows, n)[0] == 0,
        forall|i: int, j: int| 0 <= i < j < top_positions(rows, n).len() ==> #[trigger] top_positions(rows, n)[i] < #[trigger] top_positions(rows, n)[j],
        forall|i: int| 0 <= i < top_positions(rows, n).len() ==> 0 <= #[trigger] top_positions(rows, n)[i] <= n,
    decreases n,
{
    if n > 0 {
        lemma_top_positions(rows, n - 1);
    }
}

pub proof fn lemma_count_le(s: Seq<int>, v: int)
    requires
        s.len() >= 1,
        s[0] <= v,
        forall|i: int, j: int| 0 <= i < j < s.len() ==> #[trigger] s[i] < #[trigger] s[j],
    ensures
        1 <= count_le(s, v) <= s.len(),
    decreases s.len(),
{
    if s.len() > 1 {
        assert forall|i: int, j: int| 0 <= i < j < s.drop_last().len() implies #[trigger] s.drop_last()[i] < #[trigger] s.drop_last()[j] by {
            assert(s.drop_last()[i] == s[i] && s.drop_last()[j] == s[j]);
        }
        assert(s.drop_last()[0] == s[0]);
        lemma_count_le(s.drop_last(), v);
    } else {
        assert(s.drop_last().len() == 0);
        assert(count_le(s.drop_last(), v) == 0);
    }
}

impl App {
    /// Points the sidebar at row `idx`, as `moved_to_category` says.
    pub fn set_category_index(&mut self, idx: usize)
        requires
            old(self).today.valid(),
        ensures
            moved_to_category(*old(self), *final(self), idx as int),
    {
        let ghost a = *self;
        self.remember_category_selection();
        let cats = self.category_entries();
        let ci = if idx < cats.len() {
            idx
        } else {
            cats.len()
        };
        self.category_index = ci;
        if ci == 0 {
            self.category_filter = None;
        } else {
            proof {
                assert(entry_views(cats@)[ci - 1] == cats@[ci - 1]@);
            }
            self.category_filter = Some(cats[ci - 1].path.clone());
        }
        self.restore_category_selection();
    }

    /// The sidebar row that backing out of row `idx` goes to, as
    /// `parent_row` says.
    pub fn parent_category_index_for(&self, idx: usize) -> (r: usize)
        ensures
            r == parent_row(self.rows(), idx as int),
    {
        if idx == 0 {
            return 0;
        }
        let cats = self.category_entries();
        let ghost rows = entry_views(cats@);
        if idx - 1 >= cats.len() {
            return 0;
        }
        proof {
            assert(rows[idx - 1] == cats@[idx - 1]@);
        }
        let current = &cats[idx - 1];
        if current.is_all {
            return match find_row(&cats, current.path.as_str(), true) {
                Some(j) => j + 1,
                None => 0,
            };
        }
        let pc = chars_of(current.path.as_str());
        match find_last_char(pc.as_slice(), '/') {
            None => 0,
            Some(k) => {
                let parent = string_of(crate::text::sub_chars(pc.as_slice(), 0, k).as_slice());
                proof {
                    assert(pc@.subrange(0, k as int) =~= pc@.take(k as int));
                }
                match find_row(&cats, parent.as_str(), true) {
                    Some(j) => j + 1,
                    None => 0,
                }
            },
        }
    }

    /// The normalized root of the highlighted sidebar row's path, if a
    /// category row is highlighted.
    pub fn current_category_parent(&self) -> (r: Option<String>)
        ensures
            crate::data::opt_text(r) == sidebar_parent(*self),
    {
        let path = match self.selected_category_path() {
            Some(p) => p,
            None => return None,
        };
        let pc = chars_of(path.as_str());
        let rc = root_chars(pc.as_slice());
        let rs = string_of(rc.as_slice());
        normalize_category(rs.as_str())
    }

    /// Whether `b` is what `switch_category_filter` leaves of `a`.
    pub open spec fn after_switch_category_filter(a: App, b: App, direction: i32, parent_only: bool) -> bool {
        moved_to_category(
            a,
            b,
            if parent_only {
                paged_row(a.rows(), a.category_index as int, direction as int)
            } else if direction < 0 {
                if a.category_index > 0 {
                    a.category_index - 1
                } else {
                    0
                }
            } else if a.category_index + 1 < a.rows().len() {
                a.category_index + 1
            } else {
                a.rows().len() as int
            },
        )
    }

    /// Moves the sidebar by one row, or, with `parent_only`, by one
    /// top-level category, backwards when `direction` is negative.
    pub fn switch_category_filter(&mut self, direction: i32, parent_only: bool)
        requires
            old(self).today.valid(),
        ensures
            Self::after_switch_category_filter(*old(self), *final(self), direction, parent_only),
    {
        let cats = self.category_entries();
        let ghost rows = entry_views(cats@);
        if parent_only {
            let mut tops: Vec<usize> = Vec::new();
            tops.push(0);
            let mut j: usize = 0;
            while j < cats.len()
                invariant
                    0 <= j <= cats.len(),
                    rows == entry_views(cats@),
                    tops@.len() == top_positions(rows, j as int).len(),
                    forall|i: int| 0 <= i < tops@.len() ==> tops@[i] as int == #[trigger] top_positions(rows, j as int)[i],
                decreases cats.len() - j,
            {
                proof {
                    assert(rows[j as int] == cats@[j as int]@);
                }
                if cats[j].depth == 0 {
                    tops.push(j + 1);
                }
                j = j + 1;
            }
            let ghost t = top_positions(rows, rows.len() as int);
            proof {
                lemma_top_positions(rows, rows.len() as int);
                lemma_count_le(t, self.category_index as int);
            }
            let mut count: usize = 0;
            let mut k: usize = 0;
            while k < tops.len()
                invariant
                    0 <= k <= tops.len(),
                    tops@.len() == t.len(),
                    forall|i: int| 0 <= i < tops@.len() ==> tops@[i] as int == #[trigger] t[i],
                    count as int == count_le(t.take(k as int), self.category_index as int),
                    count <= k,
                decreases tops.len() - k,
            {
                assert(t.take(k + 1).drop_last() =~= t.take(k as int));
                if tops[k] <= self.category_index {
                    count = count + 1;
                }
                k = k + 1;
            }
            assert(t.take(tops.len() as int) =~= t);
            let pos = count - 1;
            let next = if direction < 0 {
                if pos > 0 {
                    pos - 1
                } else {
                    0
                }
            } else if pos + 1 < tops.len() {
                pos + 1
            } else {
                tops.len() - 1
            };
            let target = tops[next];
            self.set_category_index(target);
        } else {
            let next = if direction < 0 {
                if self.category_index > 0 {
                    self.category_index - 1
                } else {
                    0
                }
            } else if self.category_index < cats.len() && self.category_index + 1 < cats.len() {
                self.category_index + 1
            } else {
                cats.len()
            };
            self.set_category_index(next);
        }
    }
}

} // verus!
