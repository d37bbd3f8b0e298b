//! The rows of the category sidebar, built from a grouped list of paths.

use vstd::prelude::*;

use super::category::{first_index, find_char, texts};
use super::{CategoryEntry, EntryView};
use crate::text::{chars_eq, chars_of, chars_starts_with, starts_with, string_of, sub_chars};

verus! {

/// What the rows of a list of sidebar entries show.
pub open spec fn entry_views(s: Seq<CategoryEntry>) -> Seq<EntryView> {
    s.map_values(|e: CategoryEntry| e@)
}

pub open spec fn row(path: Seq<char>, label: Seq<char>, depth: nat) -> EntryView {
    EntryView { path, label, depth, is_all: false }
}

/// Whether some path of `cats` lies under `cat`.
pub open spec fn has_children(cats: Seq<Seq<char>>, cat: Seq<char>) -> bool {
    exists|j: int| 0 <= j < cats.len() && starts_with(#[trigger] cats[j], cat.push('/'))
}

/// Whether `c` belongs to the group of the parent whose paths start with
/// `prefix` (the parent's name and a slash): a path under it, or the parent
/// itself.
pub open spec fn in_group(c: Seq<char>, prefix: Seq<char>) -> bool {
    starts_with(c, prefix) || c.push('/') == prefix
}

/// The child rows of the group of paths under `prefix` that starts at `i`:
/// one indented row per path under it; the parent's own path, where it
/// stands in the group, adds none.
pub open spec fn child_rows(cats: Seq<Seq<char>>, i: int, prefix: Seq<char>) -> Seq<EntryView>
    decreases cats.len() - i,
{
    if 0 <= i < cats.len() && in_group(cats[i], prefix) {
        (if starts_with(cats[i], prefix) {
            seq![row(cats[i], cats[i].skip(prefix.len() as int), 1)]
        } else {
            Seq::empty()
        }) + child_rows(cats, i + 1, prefix)
    } else {
        Seq::empty()
    }
}

/// End of the group of paths under `prefix` that starts at `i`.
pub open spec fn run_end(cats: Seq<Seq<char>>, i: int, prefix: Seq<char>) -> int
    decreases cats.len() - i,
{
    if 0 <= i < cats.len() && in_group(cats[i], prefix) {
        run_end(cats, i + 1, prefix)
    } else {
        i
    }
}

pub proof fn lemma_run_end(cats: Seq<Seq<char>>, i: int, prefix: Seq<char>)
    requires
        0 <= i,
    ensures
        i <= run_end(cats, i, prefix),
        run_end(cats, i, prefix) <= if i <= cats.len() {
            cats.len() as int
        } else {
            i
        },
        0 <= i < cats.len() && in_group(cats[i], prefix) ==> run_end(cats, i, prefix) > i,
    decreases cats.len() - i,
{
    if 0 <= i < cats.len() && in_group(cats[i], prefix) {
        lemma_run_end(cats, i + 1, prefix);
    }
}

/// The sidebar rows for the paths from `i` on. A top-level path gets a row
/// unless some path lies under it; a group of paths sharing a parent (the
/// sub-paths, and the parent itself wherever it stands among them) gets
/// one row for the parent and one indented row per sub-path, labelled with
/// the part after the parent.
pub open spec fn rows_from(cats: Seq<Seq<char>>, i: int) -> Seq<EntryView>
    decreases cats.len() - i,
{
    if i < 0 || i >= cats.len() {
        Seq::empty()
    } else {
        let cat = cats[i];
        let k = first_index(cat, '/');
        if k >= cat.len() {
            (if has_children(cats, cat) {
                Seq::empty()
            } else {
                seq![row(cat, cat, 0)]
            }) + rows_from(cats, i + 1)
        } else {
            let parent = cat.take(k);
            let prefix = parent.push('/');
            proof {
                crate::data::category::lemma_first_index_props(cat, '/');
                assert(cat.take(k + 1) =~= prefix);
                assert(starts_with(cat, prefix));
                lemma_run_end(cats, i, prefix);
            }
            seq![row(parent, parent, 0)] + child_rows(cats, i, prefix) + rows_from(
                cats,
                run_end(cats, i, prefix),
            )
        }
    }
}

fn has_children_exec(cats: &Vec<String>, cat: &[char]) -> (r: bool)
    ensures
        r == has_children(texts(cats@), cat@),
{
    let mut prefix = sub_chars(cat, 0, cat.len());
    assert(cat@.subrange(0, cat@.len() as int) =~= cat@);
    prefix.push('/');
    let mut j: usize = 0;
    while j < cats.len()
        invariant
            0 <= j <= cats.len(),
            prefix@ == cat@.push('/'),
            forall|m: int| 0 <= m < j ==> !starts_with(#[trigger] texts(cats@)[m], cat@.push('/')),
        decreases cats.len() - j,
    {
        let cc = chars_of(cats[j].as_str());
        if chars_starts_with(cc.as_slice(), prefix.as_slice()) {
            assert(starts_with(texts(cats@)[j as int], cat@.push('/')));
            return true;
        }
        j = j + 1;
    }
    false
}

fn in_group_exec(c: &String, prefix: &[char]) -> (r: bool)
    ensures
        r == in_group(c@, prefix@),
{
    let cc = chars_of(c.as_str());
    if chars_starts_with(cc.as_slice(), prefix) {
        return true;
    }
    let mut own = sub_chars(cc.as_slice(), 0, cc.len());
    assert(cc@.subrange(0, cc@.len() as int) =~= cc@);
    own.push('/');
    chars_eq(own.as_slice(), prefix)
}

fn new_row(path: &[char], label: &[char], depth: usize) -> (r: CategoryEntry)
    requires
        depth <= 1,
    ensures
        r@ == row(path@, label@, depth as nat),
{
    CategoryEntry {
        path: string_of(path),
        label: string_of(label),
        depth,
        is_all: false,
    }
}

/// The sidebar rows for a grouped list of paths.
pub fn sidebar_rows(cats: &Vec<String>) -> (r: Vec<CategoryEntry>)
    ensures
        entry_views(r@) == rows_from(texts(cats@), 0),
{
    let ghost cs = texts(cats@);
    let n = cats.len();
    let mut out: Vec<CategoryEntry> = Vec::new();
    let mut i: usize = 0;
    while i < n
        invariant
            0 <= i <= n,
            n == cats.len(),
            cs == texts(cats@),
            entry_views(out@) + rows_from(cs, i as int) == rows_from(cs, 0),
        decreases n - i,
    {
        let ghost i_start = i;
        let cat = chars_of(cats[i].as_str());
        assert(cat@ == cs[i as int]);
        let k = find_char(cat.as_slice(), '/');
        if k >= cat.len() {
            if !has_children_exec(cats, cat.as_slice()) {
                let e = new_row(cat.as_slice(), cat.as_slice(), 0);
                let ghost prev = out@;
                out.push(e);
                assert(entry_views(out@) =~= entry_views(prev).push(e@));
                assert(entry_views(out@) + rows_from(cs, i + 1) =~= entry_views(prev) + rows_from(cs, i as int));
            } else {
                assert(entry_views(out@) + rows_from(cs, i + 1) =~= entry_views(out@) + rows_from(cs, i as int));
            }
            i = i + 1;
        } else {
            let parent = sub_chars(cat.as_slice(), 0, k);
            let mut prefix = sub_chars(cat.as_slice(), 0, k);
            prefix.push('/');
            proof {
                assert(cat@.take(k as int) =~= parent@);
                crate::data::category::lemma_first_index_props(cat@, '/');
                assert(cat@.take(k + 1) =~= prefix@);
                lemma_run_end(cs, i as int, prefix@);
            }
            let e = new_row(parent.as_slice(), parent.as_slice(), 0);
            let ghost prev = out@;
            out.push(e);
            assert(entry_views(out@) =~= entry_views(prev).push(e@));
            assert(entry_views(out@) + child_rows(cs, i as int, prefix@) + rows_from(
                cs,
                run_end(cs, i as int, prefix@),
            ) =~= entry_views(prev) + rows_from(cs, i as int));
            assert(starts_with(cs[i as int], prefix@));
            let first = new_row(cat.as_slice(), sub_chars(cat.as_slice(), prefix.len(), cat.len()).as_slice(), 1);
            assert(first@.label =~= cs[i as int].skip(prefix@.len() as int));
            let ghost prev1 = out@;
            out.push(first);
            assert(entry_views(out@) =~= entry_views(prev1).push(first@));
            assert(entry_views(out@) + child_rows(cs, i + 1, prefix@) =~= entry_views(prev1)
                + child_rows(cs, i as int, prefix@));
            i = i + 1;
            while i < n && in_group_exec(&cats[i], prefix.as_slice())
                invariant
                    0 <= i <= n,
                    i_start < i,
                    n == cats.len(),
                    cs == texts(cats@),
                    entry_views(out@) + child_rows(cs, i as int, prefix@) + rows_from(
                        cs,
                        run_end(cs, i as int, prefix@),
                    ) == rows_from(cs, 0),
                decreases n - i,
            {
                let cur = chars_of(cats[i].as_str());
                assert(cur@ == cs[i as int]);
                if chars_starts_with(cur.as_slice(), prefix.as_slice()) {
                    let label = sub_chars(cur.as_slice(), prefix.len(), cur.len());
                    assert(label@ =~= cs[i as int].skip(prefix@.len() as int));
                    let e = new_row(cur.as_slice(), label.as_slice(), 1);
                    let ghost prev2 = out@;
                    out.push(e);
                    assert(entry_views(out@) =~= entry_views(prev2).push(e@));
                    assert(entry_views(out@) + child_rows(cs, i + 1, prefix@) =~= entry_views(prev2)
                        + child_rows(cs, i as int, prefix@));
                } else {
                    assert(entry_views(out@) + child_rows(cs, i + 1, prefix@) =~= entry_views(out@)
                        + child_rows(cs, i as int, prefix@));
                }
                i = i + 1;
            }
            assert(child_rows(cs, i as int, prefix@) =~= Seq::<EntryView>::empty());
            assert(entry_views(out@) + rows_from(cs, i as int) =~= rows_from(cs, 0));
        }
    }
    assert(rows_from(cs, n as int) =~= Seq::<EntryView>::empty());
    assert(entry_views(out@) =~= rows_from(cs, 0));
    out
}

} // verus!
