//! What the listed category paths of a view hold: every stored path and
//! every path an item of the view carries, each root's paths side by side,
//! and no path twice when none is stored twice.

use vstd::prelude::*;

use super::category::{dedup, gather, grouped, root, roots, with_root};
use super::{
    branch_archived, branch_filter, category_added, category_reordered, find_text, listed_categories, run_end, run_start,
    stored, with_item_categories, without, TodoDataView, TodoItem,
};
use super::category::normalized;

verus! {

/// No path occurs twice in `s`.
pub open spec fn no_dups(s: Seq<Seq<char>>) -> bool {
    forall|a: int, b: int| #![trigger s[a], s[b]] 0 <= a < s.len() && 0 <= b < s.len() && a != b ==> s[a] != s[b]
}

/// The paths sharing a root stand side by side in `s`.
pub open spec fn roots_contiguous(s: Seq<Seq<char>>) -> bool {
    forall|a: int, b: int, c: int|
        #![trigger s[a], s[b], s[c]]
        0 <= a < b < c < s.len() && root(s[a]) == root(s[c]) ==> root(s[b]) == root(s[a])
}

proof fn lemma_dedup(s: Seq<Seq<char>>)
    ensures
        no_dups(dedup(s)),
        forall|x: Seq<char>| s.contains(x) ==> #[trigger] dedup(s).contains(x),
        forall|x: Seq<char>| #[trigger] dedup(s).contains(x) ==> s.contains(x),
    decreases s.len(),
{
    if s.len() > 0 {
        let p = s.drop_last();
        lemma_dedup(p);
        let d = dedup(p);
        assert forall|x: Seq<char>| s.contains(x) implies #[trigger] dedup(s).contains(x) by {
            let j = choose|j: int| 0 <= j < s.len() && s[j] == x;
            if j < s.len() - 1 {
                assert(p[j] == x);
                assert(p.contains(x));
                assert(d.contains(x));
                if !d.contains(s.last()) {
                    assert(d.push(s.last()).contains(x)) by {
                        let k = choose|k: int| 0 <= k < d.len() && d[k] == x;
                        assert(d.push(s.last())[k] == x);
                    }
                }
            } else {
                if !d.contains(s.last()) {
                    assert(d.push(s.last())[d.len() as int] == x);
                }
            }
        }
        assert forall|x: Seq<char>| #[trigger] dedup(s).contains(x) implies s.contains(x) by {
            if d.contains(x) {
                assert(p.contains(x));
                let j = choose|j: int| 0 <= j < p.len() && p[j] == x;
                assert(s[j] == x);
            } else {
                assert(s[s.len() - 1] == x);
            }
        }
        if !d.contains(s.last()) {
            let r = d.push(s.last());
            assert forall|a: int, b: int| 0 <= a < r.len() && 0 <= b < r.len() && a != b implies r[a] != r[b] by {
                if a < d.len() && b < d.len() {
                    assert(d[a] != d[b]);
                } else if a < d.len() {
                    assert(d.contains(d[a]));
                } else {
                    assert(d.contains(d[b]));
                }
            }
        }
    }
}

proof fn lemma_with_root(s: Seq<Seq<char>>, r: Seq<char>)
    ensures
        forall|j: int| 0 <= j < with_root(s, r).len() ==> root(#[trigger] with_root(s, r)[j]) == r,
        forall|x: Seq<char>| s.contains(x) && root(x) == r ==> #[trigger] with_root(s, r).contains(x),
        forall|x: Seq<char>| #[trigger] with_root(s, r).contains(x) ==> s.contains(x),
        no_dups(s) ==> no_dups(with_root(s, r)),
    decreases s.len(),
{
    if s.len() > 0 {
        let p = s.drop_last();
        lemma_with_root(p, r);
        let w = with_root(p, r);
        let y = s.last();
        assert forall|x: Seq<char>| s.contains(x) && root(x) == r implies #[trigger] with_root(s, r).contains(x) by {
            let j = choose|j: int| 0 <= j < s.len() && s[j] == x;
            if j < s.len() - 1 {
                assert(p[j] == x);
                assert(w.contains(x));
                if root(y) == r {
                    let k = choose|k: int| 0 <= k < w.len() && w[k] == x;
                    assert(w.push(y)[k] == x);
                }
            } else {
                assert(w.push(y)[w.len() as int] == x);
            }
        }
        assert forall|x: Seq<char>| #[trigger] with_root(s, r).contains(x) implies s.contains(x) by {
            if w.contains(x) {
                let j = choose|j: int| 0 <= j < p.len() && p[j] == x;
                assert(s[j] == x);
            } else {
                assert(s[s.len() - 1] == x);
            }
        }
        if root(y) == r {
            assert forall|j: int| 0 <= j < w.push(y).len() implies root(#[trigger] w.push(y)[j]) == r by {
                if j < w.len() {
                    assert(w.push(y)[j] == w[j]);
                }
            }
            if no_dups(s) {
                assert(no_dups(p)) by {
                    assert forall|a: int, b: int| 0 <= a < p.len() && 0 <= b < p.len() && a != b implies p[a] != p[b] by {
                        assert(s[a] != s[b]);
                    }
                }
                assert(!w.contains(y)) by {
                    if w.contains(y) {
                        let j = choose|j: int| 0 <= j < p.len() && p[j] == y;
                        assert(s[j] != s[s.len() - 1]);
                    }
                }
                let q = w.push(y);
                assert forall|a: int, b: int| 0 <= a < q.len() && 0 <= b < q.len() && a != b implies q[a] != q[b] by {
                    if a < w.len() && b < w.len() {
                        assert(w[a] != w[b]);
                    } else if a < w.len() {
                        assert(w.contains(w[a]));
                    } else {
                        assert(w.contains(w[b]));
                    }
                }
            }
        } else if no_dups(s) {
            assert forall|a: int, b: int| 0 <= a < p.len() && 0 <= b < p.len() && a != b implies p[a] != p[b] by {
                assert(s[a] != s[b]);
            }
        }
    }
}

proof fn lemma_gather(s: Seq<Seq<char>>, rs: Seq<Seq<char>>)
    requires
        no_dups(rs),
    ensures
        forall|j: int| 0 <= j < gather(s, rs).len() ==> rs.contains(root(#[trigger] gather(s, rs)[j])),
        forall|x: Seq<char>| s.contains(x) && rs.contains(root(x)) ==> #[trigger] gather(s, rs).contains(x),
        roots_contiguous(gather(s, rs)),
        no_dups(s) ==> no_dups(gather(s, rs)),
    decreases rs.len(),
{
    if rs.len() > 0 {
        let q = rs.drop_last();
        let l = rs.last();
        assert(no_dups(q)) by {
            assert forall|a: int, b: int| 0 <= a < q.len() && 0 <= b < q.len() && a != b implies q[a] != q[b] by {
                assert(rs[a] != rs[b]);
            }
        }
        assert(!q.contains(l)) by {
            if q.contains(l) {
                let j = choose|j: int| 0 <= j < q.len() && q[j] == l;
                assert(rs[j] != rs[rs.len() - 1]);
            }
        }
        lemma_gather(s, q);
        lemma_with_root(s, l);
        let g = gather(s, q);
        let w = with_root(s, l);
        let t = g + w;
        assert(gather(s, rs) == t);
        let n = g.len();
        assert forall|j: int| 0 <= j < t.len() implies rs.contains(root(#[trigger] t[j])) by {
            if j < n {
                assert(t[j] == g[j]);
                let k = choose|k: int| 0 <= k < q.len() && q[k] == root(g[j]);
                assert(rs[k] == q[k]);
            } else {
                assert(t[j] == w[j - n]);
                assert(rs[rs.len() - 1] == l);
            }
        }
        assert forall|x: Seq<char>| s.contains(x) && rs.contains(root(x)) implies #[trigger] t.contains(x) by {
            let k = choose|k: int| 0 <= k < rs.len() && rs[k] == root(x);
            if k < rs.len() - 1 {
                assert(q[k] == root(x));
                assert(g.contains(x));
                let m = choose|m: int| 0 <= m < g.len() && g[m] == x;
                assert(t[m] == x);
            } else {
                assert(w.contains(x));
                let m = choose|m: int| 0 <= m < w.len() && w[m] == x;
                assert(t[n + m] == x);
            }
        }
        assert forall|j: int| 0 <= j < n implies root(#[trigger] g[j]) != l by {
            assert(q.contains(root(g[j])));
        }
        assert forall|a: int, b: int, c: int|
            0 <= a < b < c < t.len() && root(t[a]) == root(t[c]) implies root(t[b]) == root(t[a]) by {
            if c < n {
                assert(t[a] == g[a] && t[b] == g[b] && t[c] == g[c]);
            } else if a >= n {
                assert(t[a] == w[a - n] && t[b] == w[b - n] && t[c] == w[c - n]);
            } else {
                assert(t[a] == g[a]);
                assert(t[c] == w[c - n]);
                assert(root(g[a]) != l);
            }
        }
        if no_dups(s) {
            assert forall|a: int, b: int| 0 <= a < t.len() && 0 <= b < t.len() && a != b implies t[a] != t[b] by {
                if a < n && b < n {
                    assert(t[a] == g[a] && t[b] == g[b]);
                } else if a >= n && b >= n {
                    assert(t[a] == w[a - n] && t[b] == w[b - n]);
                } else if a < n {
                    assert(t[a] == g[a] && t[b] == w[b - n]);
                    assert(root(g[a]) != l);
                } else {
                    assert(t[b] == g[b] && t[a] == w[a - n]);
                    assert(root(g[b]) != l);
                }
            }
        }
    }
}

/// Regrouping keeps every path, puts each root's paths side by side, and
/// repeats no path when none was repeated.
pub proof fn lemma_grouped(s: Seq<Seq<char>>)
    ensures
        forall|x: Seq<char>| s.contains(x) ==> #[trigger] grouped(s).contains(x),
        roots_contiguous(grouped(s)),
        no_dups(s) ==> no_dups(grouped(s)),
{
    let m = s.map_values(|x: Seq<char>| root(x));
    lemma_dedup(m);
    lemma_gather(s, roots(s));
    assert forall|x: Seq<char>| s.contains(x) implies #[trigger] grouped(s).contains(x) by {
        let j = choose|j: int| 0 <= j < s.len() && s[j] == x;
        assert(m[j] == root(x));
        assert(m.contains(root(x)));
    }
}

proof fn lemma_with_item_categories(cats: Seq<Seq<char>>, items: Seq<TodoItem>, archived: bool)
    ensures
        forall|x: Seq<char>| cats.contains(x) ==> #[trigger] with_item_categories(cats, items, archived).contains(x),
        forall|j: int|
            0 <= j < items.len() && (#[trigger] items[j]).archived == archived && items[j].category is Some
                ==> with_item_categories(cats, items, archived).contains(items[j].category->0@),
        no_dups(cats) ==> no_dups(with_item_categories(cats, items, archived)),
    decreases items.len(),
{
    if items.len() > 0 {
        let p = items.drop_last();
        lemma_with_item_categories(cats, p, archived);
        let w = with_item_categories(cats, p, archived);
        let it = items.last();
        let grows = match it.category {
            Some(c) => it.archived == archived && !w.contains(c@),
            None => false,
        };
        if grows {
            let c = it.category->0@;
            let r = w.push(c);
            assert forall|x: Seq<char>| w.contains(x) implies #[trigger] r.contains(x) by {
                let k = choose|k: int| 0 <= k < w.len() && w[k] == x;
                assert(r[k] == x);
            }
            assert(r[w.len() as int] == c);
            assert forall|j: int|
                0 <= j < items.len() && (#[trigger] items[j]).archived == archived && items[j].category is Some
                    implies r.contains(items[j].category->0@) by {
                if j < items.len() - 1 {
                    assert(p[j] == items[j]);
                    assert(w.contains(items[j].category->0@));
                }
            }
            if no_dups(cats) {
                assert forall|a: int, b: int| 0 <= a < r.len() && 0 <= b < r.len() && a != b implies r[a] != r[b] by {
                    if a < w.len() && b < w.len() {
                        assert(w[a] != w[b]);
                    } else if a < w.len() {
                        assert(w.contains(w[a]));
                    } else {
                        assert(w.contains(w[b]));
                    }
                }
            }
        } else {
            assert forall|j: int|
                0 <= j < items.len() && (#[trigger] items[j]).archived == archived && items[j].category is Some
                    implies w.contains(items[j].category->0@) by {
                if j < items.len() - 1 {
                    assert(p[j] == items[j]);
                }
            }
        }
    }
}

/// The listed category paths of a view hold every stored path and the path
/// of every item of the view that has one; the paths of each root stand side
/// by side; and when no stored path is repeated (as in every list reached
/// through the operations, which keep `lists_wf`), no path is listed twice.
pub proof fn law_listed_categories(v: TodoDataView, archived: bool)
    ensures
        forall|x: Seq<char>| stored(v, archived).contains(x) ==> #[trigger] listed_categories(v, archived).contains(x),
        forall|j: int|
            0 <= j < v.items.len() && (#[trigger] v.items[j]).archived == archived && v.items[j].category is Some
                ==> listed_categories(v, archived).contains(v.items[j].category->0@),
        roots_contiguous(listed_categories(v, archived)),
        no_dups(stored(v, archived)) ==> no_dups(listed_categories(v, archived)),
{
    let w = with_item_categories(stored(v, archived), v.items, archived);
    lemma_with_item_categories(stored(v, archived), v.items, archived);
    lemma_grouped(w);
    assert forall|j: int|
        0 <= j < v.items.len() && (#[trigger] v.items[j]).archived == archived && v.items[j].category is Some
            implies listed_categories(v, archived).contains(v.items[j].category->0@) by {
        assert(w.contains(v.items[j].category->0@));
    }
}

/// The stored path lists of `v` repeat no path: so it is for every list
/// reached from an empty one through its operations.
pub open spec fn lists_wf(v: TodoDataView) -> bool {
    &&& no_dups(v.categories)
    &&& no_dups(v.archived_categories)
}

/// Keeping some paths of a list that repeats none repeats none.
pub proof fn lemma_branch_filter_no_dups(s: Seq<Seq<char>>, f: Seq<char>, keep: bool)
    requires
        no_dups(s),
    ensures
        no_dups(branch_filter(s, f, keep)),
        forall|x: Seq<char>| #[trigger] branch_filter(s, f, keep).contains(x) ==> s.contains(x),
    decreases s.len(),
{
    if s.len() > 0 {
        let p = s.drop_last();
        assert forall|a: int, b: int| 0 <= a < p.len() && 0 <= b < p.len() && a != b implies p[a] != p[b] by {
            assert(s[a] != s[b]);
        }
        lemma_branch_filter_no_dups(p, f, keep);
        let w = branch_filter(p, f, keep);
        let y = s.last();
        assert forall|x: Seq<char>| #[trigger] branch_filter(s, f, keep).contains(x) implies s.contains(x) by {
            if w.contains(x) {
                let j = choose|j: int| 0 <= j < p.len() && p[j] == x;
                assert(s[j] == x);
            } else {
                assert(s[s.len() - 1] == x);
            }
        }
        assert(!w.contains(y)) by {
            if w.contains(y) {
                let j = choose|j: int| 0 <= j < p.len() && p[j] == y;
                assert(s[j] != s[s.len() - 1]);
            }
        }
        let q = w.push(y);
        assert forall|a: int, b: int| 0 <= a < q.len() && 0 <= b < q.len() && a != b implies q[a] != q[b] by {
            if a < w.len() && b < w.len() {
                assert(w[a] != w[b]);
            } else if a < w.len() {
                assert(w.contains(w[a]));
            } else {
                assert(w.contains(w[b]));
            }
        }
    }
}

/// Dropping one path from a list that repeats none repeats none.
proof fn lemma_without_no_dups(s: Seq<Seq<char>>, x: Seq<char>)
    requires
        no_dups(s),
    ensures
        no_dups(without(s, x)),
        forall|y: Seq<char>| #[trigger] without(s, x).contains(y) ==> s.contains(y),
    decreases s.len(),
{
    if s.len() > 0 {
        let p = s.drop_last();
        assert forall|a: int, b: int| 0 <= a < p.len() && 0 <= b < p.len() && a != b implies p[a] != p[b] by {
            assert(s[a] != s[b]);
        }
        lemma_without_no_dups(p, x);
        let w = without(p, x);
        let y = s.last();
        assert forall|z: Seq<char>| #[trigger] without(s, x).contains(z) implies s.contains(z) by {
            if w.contains(z) {
                let j = choose|j: int| 0 <= j < p.len() && p[j] == z;
                assert(s[j] == z);
            } else {
                assert(s[s.len() - 1] == z);
            }
        }
        assert(!w.contains(y)) by {
            if w.contains(y) {
                let j = choose|j: int| 0 <= j < p.len() && p[j] == y;
                assert(s[j] != s[s.len() - 1]);
            }
        }
        let q = w.push(y);
        assert forall|a: int, b: int| 0 <= a < q.len() && 0 <= b < q.len() && a != b implies q[a] != q[b] by {
            if a < w.len() && b < w.len() {
                assert(w[a] != w[b]);
            } else if a < w.len() {
                assert(w.contains(w[a]));
            } else {
                assert(w.contains(w[b]));
            }
        }
    }
}

/// A list deduplicated then regrouped repeats no path.
pub proof fn lemma_regrouped_no_dups()
    ensures
        forall|s: Seq<Seq<char>>| #[trigger] grouped(dedup(s)) == grouped(dedup(s)) && no_dups(grouped(dedup(s))),
{
    assert forall|s: Seq<Seq<char>>| #[trigger] grouped(dedup(s)) == grouped(dedup(s)) && no_dups(grouped(dedup(s))) by {
        lemma_dedup(s);
        lemma_grouped(dedup(s));
    }
}

/// Adding a category keeps the stored lists free of repeats.
pub proof fn lemma_category_added_lists(v: TodoDataView, name: Seq<char>)
    ensures
        lists_wf(v) ==> lists_wf(category_added(v, name)),
{
    if lists_wf(v) {
        match normalized(name) {
            None => {},
            Some(n) => {
                lemma_without_no_dups(v.archived_categories, n);
                if !v.categories.contains(n) {
                    let q = v.categories.push(n);
                    assert forall|a: int, b: int| 0 <= a < q.len() && 0 <= b < q.len() && a != b implies q[a] != q[b] by {
                        if a < v.categories.len() && b < v.categories.len() {
                            assert(v.categories[a] != v.categories[b]);
                        } else if a < v.categories.len() {
                            assert(v.categories.contains(v.categories[a]));
                        } else {
                            assert(v.categories.contains(v.categories[b]));
                        }
                    }
                    lemma_grouped(q);
                }
            },
        }
    }
}

/// Moving a branch between the active and archived lists keeps both free
/// of repeats.
pub proof fn lemma_branch_archived_lists(v: TodoDataView, name: Seq<char>, archived: bool)
    ensures
        lists_wf(v) ==> lists_wf(branch_archived(v, name, archived)),
{
    lemma_regrouped_no_dups();
    if lists_wf(v) {
        match normalized(name) {
            None => {},
            Some(n) => {
                lemma_branch_filter_no_dups(v.categories, n, false);
                lemma_branch_filter_no_dups(v.archived_categories, n, false);
            },
        }
    }
}

proof fn lemma_find_text_bounds(s: Seq<Seq<char>>, x: Seq<char>)
    ensures
        find_text(s, x) < s.len(),
    decreases s.len(),
{
    if s.len() > 0 {
        lemma_find_text_bounds(s.drop_first(), x);
    }
}

proof fn lemma_run_bounds(s: Seq<Seq<char>>, k: int, prefix: Seq<char>)
    requires
        0 <= k <= s.len(),
    ensures
        0 <= run_start(s, k, prefix),
        run_end(s, k, prefix) <= s.len(),
    decreases s.len() - k,
{
    lemma_run_start_bounds(s, k, prefix);
    if k < s.len() {
        lemma_run_bounds(s, k + 1, prefix);
    }
}

proof fn lemma_run_start_bounds(s: Seq<Seq<char>>, k: int, prefix: Seq<char>)
    ensures
        0 <= run_start(s, k, prefix),
    decreases k,
{
    if k > 0 {
        lemma_run_start_bounds(s, k - 1, prefix);
    }
}

/// Swapping two stored sub-categories keeps the list free of repeats.
pub proof fn lemma_category_reordered_lists(cats: Seq<Seq<char>>, path: Seq<char>, direction: int)
    ensures
        category_reordered(cats, path, direction) matches Some(c) ==> (no_dups(cats) ==> no_dups(c)),
{
    let i = find_text(cats, path);
    lemma_find_text_bounds(cats, path);
    if i >= 0 && no_dups(cats) {
        lemma_run_bounds(cats, i + 1, path.take(super::category::first_index(path, '/') + 1));
        lemma_run_start_bounds(cats, i, path.take(super::category::first_index(path, '/') + 1));
        if let Some(c) = category_reordered(cats, path, direction) {
            let j = i + direction;
            assert(0 <= j < cats.len());
            assert forall|a: int, b: int| 0 <= a < c.len() && 0 <= b < c.len() && a != b implies c[a] != c[b] by {
                let aa = if a == i { j } else if a == j { i } else { a };
                let bb = if b == i { j } else if b == j { i } else { b };
                assert(c[a] == cats[aa]);
                assert(c[b] == cats[bb]);
                assert(cats[aa] != cats[bb]);
            }
        }
    }
}

} // verus!
