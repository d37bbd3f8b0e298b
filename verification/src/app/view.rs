//! Which items the list shows, and in what order: the filters of the
//! application state applied to the stored items, then a stable sort by
//! the chosen sort mode, pinned items first.

use vstd::prelude::*;

use crate::data::category::{category_matches, matches_path};
use crate::data::{priority_below, Priority, TodoItem};
use crate::date::{days_until_from, days_until_on, parse_date, Date};
use crate::defs::{DueFilter, SortMode};
use crate::text::{chars_contain_seq, chars_of, contains_seq, lowercase, str_to_lowercase};

verus! {

/// What narrows the list: the archived view, a priority, a category branch,
/// a due window measured from `today`, and a search text.
pub struct ViewFilter {
    pub show_archived: bool,
    pub priority: Option<Priority>,
    pub category: Option<Seq<char>>,
    pub due: Option<DueFilter>,
    pub query: Seq<char>,
    pub today: Date,
}

/// Whether the due date of `it` falls in the window `due`, counted in days
/// from `today`: today, the coming week (0 to 7 days), or overdue (before
/// today). Items without a readable due date are in no window.
pub open spec fn due_ok(it: TodoItem, due: Option<DueFilter>, today: Date) -> bool {
    match due {
        None => true,
        Some(f) => match it.due_date {
            None => false,
            Some(d) => match days_until_on(d@, today) {
                None => false,
                Some(n) => match f {
                    DueFilter::Today => n == 0,
                    DueFilter::Week => 0 <= n <= 7,
                    DueFilter::Overdue => n < 0,
                },
            },
        },
    }
}

/// Whether `it` passes the search text: an empty query passes everything,
/// another one must occur in the item's text, both lowercased.
pub open spec fn text_ok(it: TodoItem, query: Seq<char>) -> bool {
    query.len() == 0 || contains_seq(lowercase(it.text@), lowercase(query))
}

/// Whether `it` is shown under the filter `f`.
pub open spec fn shown(it: TodoItem, f: ViewFilter) -> bool {
    &&& it.archived == f.show_archived
    &&& (match f.priority {
        Some(p) => it.priority == p,
        None => true,
    })
    &&& (match f.category {
        Some(c) => match it.category {
            Some(ic) => matches_path(ic@, c),
            None => false,
        },
        None => true,
    })
    &&& due_ok(it, f.due, f.today)
    &&& text_ok(it, f.query)
}

/// The items of `s` that `f` shows, in their order.
pub open spec fn shown_items(s: Seq<TodoItem>, f: ViewFilter) -> Seq<TodoItem>
    decreases s.len(),
{
    if s.len() == 0 {
        Seq::empty()
    } else {
        let rest = shown_items(s.drop_last(), f);
        if shown(s.last(), f) {
            rest.push(s.last())
        } else {
            rest
        }
    }
}

/// 0 for a pinned item, 1 for another: pinned items sort first.
pub open spec fn pin_rank(it: TodoItem) -> int {
    if it.pinned {
        0
    } else {
        1
    }
}

/// Rank of a priority, lowest first.
pub open spec fn priority_rank(p: Priority) -> int {
    match p {
        Priority::Low => 0,
        Priority::Normal => 1,
        Priority::High => 2,
        Priority::Urgent => 3,
    }
}

/// The date an item without a readable due date sorts as: 9999-12-31.
pub open spec fn far_date() -> Date {
    Date { year: 9999, month: 12, day: 31 }
}

/// Day number of the item's due date, or of 9999-12-31 when it has none
/// that reads as a date.
pub open spec fn due_day(it: TodoItem) -> int {
    match it.due_date {
        Some(d) => match parse_date(d@) {
            Some(x) => x.epoch_day(),
            None => far_date().epoch_day(),
        },
        None => far_date().epoch_day(),
    }
}

/// The key the list is sorted by: pinned first, then, by sort mode, nothing
/// more, higher priority first, or earlier due date first.
pub open spec fn sort_key(it: TodoItem, mode: SortMode) -> (int, int) {
    match mode {
        SortMode::Default => (pin_rank(it), 0),
        SortMode::Priority => (pin_rank(it), 0 - priority_rank(it.priority)),
        SortMode::DueDate => (pin_rank(it), due_day(it)),
    }
}

/// Whether key `a` comes strictly before key `b`.
pub open spec fn key_lt(a: (int, int), b: (int, int)) -> bool {
    a.0 < b.0 || (a.0 == b.0 && a.1 < b.1)
}

/// Where an item with key `k` goes when inserted into `s` from the back:
/// after every trailing item whose key is larger.
pub open spec fn key_pos(s: Seq<TodoItem>, k: (int, int), mode: SortMode) -> int
    decreases s.len(),
{
    if s.len() == 0 {
        0
    } else if key_lt(k, sort_key(s.last(), mode)) {
        key_pos(s.drop_last(), k, mode)
    } else {
        s.len() as int
    }
}

/// `s` stably sorted by `sort_key`: insertion sort, which keeps items of
/// equal key in their original order, as a stable sort by key does.
pub open spec fn key_sorted(s: Seq<TodoItem>, mode: SortMode) -> Seq<TodoItem>
    decreases s.len(),
{
    if s.len() == 0 {
        Seq::empty()
    } else {
        let t = key_sorted(s.drop_last(), mode);
        t.insert(key_pos(t, sort_key(s.last(), mode), mode), s.last())
    }
}

/// The list as shown: the items that pass the filter, stably sorted.
pub open spec fn visible(s: Seq<TodoItem>, f: ViewFilter, mode: SortMode) -> Seq<TodoItem> {
    key_sorted(shown_items(s, f), mode)
}

pub proof fn lemma_key_pos_bounds(s: Seq<TodoItem>, k: (int, int), mode: SortMode)
    ensures
        0 <= key_pos(s, k, mode) <= s.len(),
    decreases s.len(),
{
    if s.len() > 0 {
        lemma_key_pos_bounds(s.drop_last(), k, mode);
    }
}

pub proof fn lemma_key_sorted_len(s: Seq<TodoItem>, mode: SortMode)
    ensures
        key_sorted(s, mode).len() == s.len(),
    decreases s.len(),
{
    if s.len() > 0 {
        lemma_key_sorted_len(s.drop_last(), mode);
        lemma_key_pos_bounds(key_sorted(s.drop_last(), mode), sort_key(s.last(), mode), mode);
    }
}

pub proof fn lemma_shown_items_len(s: Seq<TodoItem>, f: ViewFilter)
    ensures
        shown_items(s, f).len() <= s.len(),
    decreases s.len(),
{
    if s.len() > 0 {
        lemma_shown_items_len(s.drop_last(), f);
    }
}

/// Whether no item of `t` has a key strictly before that of an item
/// ahead of it.
pub open spec fn keys_ordered(t: Seq<TodoItem>, mode: SortMode) -> bool {
    forall|i: int, j: int|
        0 <= i < j < t.len() ==> !key_lt(#[trigger] sort_key(t[j], mode), #[trigger] sort_key(t[i], mode))
}

proof fn lemma_key_pos_split(t: Seq<TodoItem>, k: (int, int), mode: SortMode)
    requires
        keys_ordered(t, mode),
    ensures
        0 <= key_pos(t, k, mode) <= t.len(),
        forall|j: int| 0 <= j < key_pos(t, k, mode) ==> !key_lt(k, #[trigger] sort_key(t[j], mode)),
        forall|j: int| key_pos(t, k, mode) <= j < t.len() ==> key_lt(k, #[trigger] sort_key(t[j], mode)),
    decreases t.len(),
{
    if t.len() > 0 {
        let u = t.drop_last();
        assert(keys_ordered(u, mode)) by {
            assert forall|i: int, j: int| 0 <= i < j < u.len() implies !key_lt(
                #[trigger] sort_key(u[j], mode),
                #[trigger] sort_key(u[i], mode),
            ) by {
                assert(u[i] == t[i] && u[j] == t[j]);
            }
        }
        lemma_key_pos_split(u, k, mode);
        let last = sort_key(t.last(), mode);
        if !key_lt(k, last) {
            assert forall|j: int| 0 <= j < t.len() implies !key_lt(k, #[trigger] sort_key(t[j], mode)) by {
                if j < t.len() - 1 {
                    assert(!key_lt(sort_key(t[t.len() - 1], mode), sort_key(t[j], mode)));
                }
            }
        } else {
            assert forall|j: int| 0 <= j < key_pos(t, k, mode) implies !key_lt(k, #[trigger] sort_key(t[j], mode)) by {
                assert(u[j] == t[j]);
            }
            assert forall|j: int| key_pos(t, k, mode) <= j < t.len() implies key_lt(k, #[trigger] sort_key(t[j], mode)) by {
                if j < t.len() - 1 {
                    assert(u[j] == t[j]);
                }
            }
        }
    }
}

/// The list sorted by key is in key order.
proof fn lemma_key_sorted_ordered(s: Seq<TodoItem>, mode: SortMode)
    ensures
        keys_ordered(key_sorted(s, mode), mode),
    decreases s.len(),
{
    if s.len() > 0 {
        let t = key_sorted(s.drop_last(), mode);
        lemma_key_sorted_ordered(s.drop_last(), mode);
        let x = s.last();
        let k = sort_key(x, mode);
        lemma_key_pos_split(t, k, mode);
        let p = key_pos(t, k, mode);
        let r = t.insert(p, x);
        assert(r == key_sorted(s, mode));
        assert forall|i: int, j: int| 0 <= i < j < r.len() implies !key_lt(
            #[trigger] sort_key(r[j], mode),
            #[trigger] sort_key(r[i], mode),
        ) by {
            if j < p {
                assert(r[i] == t[i] && r[j] == t[j]);
            } else if j == p {
                assert(r[i] == t[i] && r[j] == x);
            } else if i < p {
                assert(r[i] == t[i] && r[j] == t[j - 1]);
            } else if i == p {
                assert(r[i] == x && r[j] == t[j - 1]);
            } else {
                assert(r[i] == t[i - 1] && r[j] == t[j - 1]);
            }
        }
    }
}

/// The order of the list as shown: pinned items come before the others
/// whatever the sort mode; among items of the same pin state, sorting by
/// priority puts an item of strictly higher priority (Low, Normal, High,
/// Urgent) before one of lower priority, and sorting by due date puts an
/// earlier due date first (no readable date sorting as 9999-12-31).
pub proof fn law_shown_order(s: Seq<TodoItem>, f: ViewFilter, mode: SortMode)
    ensures
        forall|i: int, j: int|
            0 <= i < j < visible(s, f, mode).len() ==> {
                let a = #[trigger] visible(s, f, mode)[i];
                let b = #[trigger] visible(s, f, mode)[j];
                &&& b.pinned ==> a.pinned
                &&& (mode == SortMode::Priority && a.pinned == b.pinned) ==> !priority_below(a.priority, b.priority)
                &&& (mode == SortMode::DueDate && a.pinned == b.pinned) ==> due_day(a) <= due_day(b)
            },
{
    let t = visible(s, f, mode);
    lemma_key_sorted_ordered(shown_items(s, f), mode);
    assert forall|i: int, j: int| 0 <= i < j < t.len() implies {
        let a = #[trigger] t[i];
        let b = #[trigger] t[j];
        &&& b.pinned ==> a.pinned
        &&& (mode == SortMode::Priority && a.pinned == b.pinned) ==> !priority_below(a.priority, b.priority)
        &&& (mode == SortMode::DueDate && a.pinned == b.pinned) ==> due_day(a) <= due_day(b)
    } by {
        assert(!key_lt(sort_key(t[j], mode), sort_key(t[i], mode)));
    }
}

/// The items of `s` whose sort key is `k`, in their order.
pub open spec fn with_key(s: Seq<TodoItem>, k: (int, int), mode: SortMode) -> Seq<TodoItem>
    decreases s.len(),
{
    if s.len() == 0 {
        Seq::empty()
    } else {
        let rest = with_key(s.drop_last(), k, mode);
        if sort_key(s.last(), mode) == k {
            rest.push(s.last())
        } else {
            rest
        }
    }
}

proof fn lemma_with_key_append(a: Seq<TodoItem>, b: Seq<TodoItem>, k: (int, int), mode: SortMode)
    ensures
        with_key(a + b, k, mode) == with_key(a, k, mode) + with_key(b, k, mode),
    decreases b.len(),
{
    if b.len() == 0 {
        assert(a + b =~= a);
        assert(with_key(a, k, mode) + with_key(b, k, mode) =~= with_key(a, k, mode));
    } else {
        assert((a + b).drop_last() =~= a + b.drop_last());
        assert((a + b).last() == b.last());
        lemma_with_key_append(a, b.drop_last(), k, mode);
        assert(with_key(a + b, k, mode) =~= with_key(a, k, mode) + with_key(b, k, mode));
    }
}

proof fn lemma_with_key_none(t: Seq<TodoItem>, k: (int, int), mode: SortMode)
    requires
        forall|j: int| 0 <= j < t.len() ==> #[trigger] sort_key(t[j], mode) != k,
    ensures
        with_key(t, k, mode) == Seq::<TodoItem>::empty(),
    decreases t.len(),
{
    if t.len() > 0 {
        let u = t.drop_last();
        assert forall|j: int| 0 <= j < u.len() implies #[trigger] sort_key(u[j], mode) != k by {
            assert(u[j] == t[j]);
        }
        lemma_with_key_none(u, k, mode);
        assert(sort_key(t[t.len() - 1], mode) != k);
    }
}

/// Sorting keeps every item, and items of equal key in their order.
proof fn lemma_key_sorted_stable(s: Seq<TodoItem>, k: (int, int), mode: SortMode)
    ensures
        key_sorted(s, mode).to_multiset() == s.to_multiset(),
        with_key(key_sorted(s, mode), k, mode) == with_key(s, k, mode),
    decreases s.len(),
{
    broadcast use vstd::seq_lib::to_multiset_insert, vstd::seq_lib::to_multiset_build;

    if s.len() == 0 {
        assert(key_sorted(s, mode) =~= s);
    } else {
        let u = s.drop_last();
        let x = s.last();
        let t = key_sorted(u, mode);
        lemma_key_sorted_stable(u, k, mode);
        lemma_key_sorted_ordered(u, mode);
        let kx = sort_key(x, mode);
        lemma_key_pos_split(t, kx, mode);
        let p = key_pos(t, kx, mode);
        let r = t.insert(p, x);
        assert(r == key_sorted(s, mode));
        assert(s =~= u.push(x));
        assert(r.to_multiset() == t.to_multiset().insert(x));
        let a = t.take(p);
        let b = t.skip(p);
        assert(r =~= a + seq![x] + b);
        assert(t =~= a + b);
        lemma_with_key_append(a + seq![x], b, k, mode);
        lemma_with_key_append(a, seq![x], k, mode);
        lemma_with_key_append(a, b, k, mode);
        let e = seq![x];
        assert(e.drop_last() =~= Seq::<TodoItem>::empty());
        assert(with_key(e.drop_last(), k, mode) =~= Seq::<TodoItem>::empty());
        assert(e.last() == x);
        if kx == k {
            assert forall|j: int| 0 <= j < b.len() implies #[trigger] sort_key(b[j], mode) != k by {
                assert(b[j] == t[p + j]);
            }
            lemma_with_key_none(b, k, mode);
            assert(with_key(a, k, mode) + Seq::<TodoItem>::empty() =~= with_key(a, k, mode));
            assert(with_key(e, k, mode) =~= e);
            assert(with_key(r, k, mode) =~= with_key(t, k, mode).push(x));
        } else {
            assert(with_key(e, k, mode) =~= Seq::<TodoItem>::empty());
            assert(with_key(a, k, mode) + Seq::<TodoItem>::empty() =~= with_key(a, k, mode));
            assert(with_key(r, k, mode) =~= with_key(t, k, mode));
        }
    }
}

/// The list as shown holds exactly the items that pass the filter, each as
/// often as the stored list holds it, and the sort is stable: items that
/// sort alike (equal key `k`) keep the order the stored list gives them.
pub proof fn law_shown_stable(s: Seq<TodoItem>, f: ViewFilter, mode: SortMode, k: (int, int))
    ensures
        visible(s, f, mode).to_multiset() == shown_items(s, f).to_multiset(),
        with_key(visible(s, f, mode), k, mode) == with_key(shown_items(s, f), k, mode),
{
    lemma_key_sorted_stable(shown_items(s, f), k, mode);
}

/// The sort key of `it`, computed.
fn item_key(it: &TodoItem, mode: SortMode) -> (r: (u8, i64))
    ensures
        (r.0 as int, r.1 as int) == sort_key(*it, mode),
{
    let pin: u8 = if it.pinned {
        0
    } else {
        1
    };
    match mode {
        SortMode::Default => (pin, 0),
        SortMode::Priority => {
            let p: i64 = match it.priority {
                Priority::Low => 0,
                Priority::Normal => 1,
                Priority::High => 2,
                Priority::Urgent => 3,
            };
            (pin, 0 - p)
        },
        SortMode::DueDate => {
            let far = Date { year: 9999, month: 12, day: 31 };
            let d = match &it.due_date {
                Some(text) => match Date::parse(text.as_str()) {
                    Some(x) => x,
                    None => far,
                },
                None => far,
            };
            (pin, d.days_since_epoch())
        },
    }
}

/// The items that the references of `s` point to.
pub open spec fn derefs(s: Seq<&TodoItem>) -> Seq<TodoItem> {
    s.map_values(|x: &TodoItem| *x)
}

/// Whether the key `k` comes strictly before the key of `it`.
fn goes_before(k: (u8, i64), it: &TodoItem, mode: SortMode) -> (r: bool)
    ensures
        r == key_lt((k.0 as int, k.1 as int), sort_key(*it, mode)),
{
    let kj = item_key(it, mode);
    k.0 < kj.0 || (k.0 == kj.0 && k.1 < kj.1)
}

/// Inserts `x` into `v` after every item whose key is not larger.
fn insert_by_key<'a>(v: &mut Vec<&'a TodoItem>, x: &'a TodoItem, mode: SortMode)
    ensures
        derefs(final(v)@) == derefs(old(v)@).insert(key_pos(derefs(old(v)@), sort_key(*x, mode), mode), *x),
{
    let k = item_key(x, mode);
    let ghost d = derefs(v@);
    let mut j: usize = v.len();
    assert(d.take(v.len() as int) =~= d);
    while j > 0 && goes_before(k, v[j - 1], mode)
        invariant
            0 <= j <= v.len(),
            d == derefs(v@),
            (k.0 as int, k.1 as int) == sort_key(*x, mode),
            key_pos(d, sort_key(*x, mode), mode) == key_pos(d.take(j as int), sort_key(*x, mode), mode),
        decreases j,
    {
        assert(d.take(j as int).drop_last() =~= d.take(j - 1));
        assert(d.take(j as int).last() == d[j - 1]);
        j = j - 1;
    }
    proof {
        lemma_key_pos_bounds(d, sort_key(*x, mode), mode);
        if j > 0 {
            assert(d.take(j as int).last() == d[j - 1]);
            assert(d.take(j as int).len() == j);
        }
    }
    v.insert(j, x);
    assert(derefs(v@) =~= d.insert(j as int, *x));
}

/// Whether `it` passes the filter, computed.
fn passes(it: &TodoItem, f: &ExecFilter) -> (r: bool)
    requires
        f.today.valid(),
    ensures
        r == shown(*it, f.spec()),
{
    if it.archived != f.show_archived {
        return false;
    }
    match f.priority {
        Some(p) => {
            if it.priority != p {
                return false;
            }
        },
        None => {},
    }
    match &f.category {
        Some(c) => {
            let cat = match &it.category {
                Some(ic) => Some(ic.as_str()),
                None => None,
            };
            if !category_matches(cat, c.as_str()) {
                return false;
            }
        },
        None => {},
    }
    match f.due {
        Some(window) => {
            let n = match &it.due_date {
                Some(d) => days_until_from(d.as_str(), f.today),
                None => None,
            };
            let ok = match n {
                Some(n) => match window {
                    DueFilter::Today => n == 0,
                    DueFilter::Week => 0 <= n && n <= 7,
                    DueFilter::Overdue => n < 0,
                },
                None => false,
            };
            if !ok {
                return false;
            }
        },
        None => {},
    }
    let qc = chars_of(f.query.as_str());
    if qc.len() == 0 {
        return true;
    }
    let hay = str_to_lowercase(it.text.as_str());
    let needle = str_to_lowercase(f.query.as_str());
    let hc = chars_of(hay.as_str());
    let nc = chars_of(needle.as_str());
    chars_contain_seq(hc.as_slice(), nc.as_slice())
}

/// The filter as the application state holds it.
pub struct ExecFilter {
    pub show_archived: bool,
    pub priority: Option<Priority>,
    pub category: Option<String>,
    pub due: Option<DueFilter>,
    pub query: String,
    pub today: Date,
}

impl ExecFilter {
    pub open spec fn spec(&self) -> ViewFilter {
        ViewFilter {
            show_archived: self.show_archived,
            priority: self.priority,
            category: match self.category {
                Some(c) => Some(c@),
                None => None,
            },
            due: self.due,
            query: self.query@,
            today: self.today,
        }
    }
}

/// The items of `items` that pass `f`, stably sorted by `mode`.
pub fn visible_items<'a>(items: &'a [TodoItem], f: &ExecFilter, mode: SortMode) -> (r: Vec<&'a TodoItem>)
    requires
        f.today.valid(),
    ensures
        derefs(r@) == visible(items@, f.spec(), mode),
{
    let mut kept: Vec<&'a TodoItem> = Vec::new();
    let mut i: usize = 0;
    while i < items.len()
        invariant
            0 <= i <= items.len(),
            f.today.valid(),
            derefs(kept@) == shown_items(items@.take(i as int), f.spec()),
        decreases items.len() - i,
    {
        assert(items@.take(i + 1).drop_last() =~= items@.take(i as int));
        assert(items@.take(i + 1).last() == items@[i as int]);
        if passes(&items[i], f) {
            let ghost before = kept@;
            kept.push(&items[i]);
            assert(derefs(kept@) =~= derefs(before).push(items@[i as int]));
        }
        i = i + 1;
    }
    assert(items@.take(items.len() as int) =~= items@);
    let ghost shown_seq = derefs(kept@);
    let mut out: Vec<&'a TodoItem> = Vec::new();
    let mut k: usize = 0;
    assert(derefs(out@) =~= key_sorted(shown_seq.take(0), mode));
    while k < kept.len()
        invariant
            0 <= k <= kept.len(),
            derefs(kept@) == shown_seq,
            derefs(out@) == key_sorted(shown_seq.take(k as int), mode),
        decreases kept.len() - k,
    {
        assert(shown_seq.take(k + 1).drop_last() =~= shown_seq.take(k as int));
        assert(shown_seq.take(k + 1).last() == shown_seq[k as int]);
        assert(shown_seq[k as int] == *kept@[k as int]);
        insert_by_key(&mut out, kept[k], mode);
        k = k + 1;
    }
    assert(shown_seq.take(kept.len() as int) =~= shown_seq);
    out
}

} // verus!
