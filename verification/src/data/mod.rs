//! The todo list: items, their notes, and the stored category paths.

pub mod category;
pub mod order;
pub mod shape;
pub mod sidebar;
pub mod laws;
pub mod listing;

use vstd::prelude::*;

use crate::date::{is_local_today, iso_text, Date};
use crate::text::{chars_of, string_of, trim, trim_chars, utf8_len, lemma_utf8_len_prefix};
use self::category::{normalize_category, normalized, texts};
use self::order::{sort_by_order, sort_items_by_order};
use self::listing::{
    lemma_branch_archived_lists, lemma_branch_filter_no_dups, lemma_category_added_lists, lemma_category_reordered_lists,
    lemma_regrouped_no_dups, lists_wf,
};
use self::shape::{
    lemma_branch_archived_keeps, lemma_deleted_keeps, lemma_item_added_keeps, lemma_not_done_keeps, lemma_one_changed_keeps,
    lemma_reordered_keeps, lemma_restored_keeps, lemma_same_keys, store_wf,
};

verus! {

/// Longest note, in characters.
pub const NOTE_MAX_LEN: usize = 500;

/// Longest item text, in UTF-8 bytes.
pub const TEXT_MAX_BYTES: usize = 500;

#[derive(Debug, Clone, Copy, PartialEq, Eq, Structural)]
pub enum Priority {
    Low,
    Normal,
    High,
    Urgent,
}

/// The priority after `p` in the cycle Low, Normal, High, Urgent, Low.
pub open spec fn next_priority(p: Priority) -> Priority {
    match p {
        Priority::Low => Priority::Normal,
        Priority::Normal => Priority::High,
        Priority::High => Priority::Urgent,
        Priority::Urgent => Priority::Low,
    }
}

/// Whether `p` ranks strictly below `q` in the order Low, Normal, High,
/// Urgent.
pub open spec fn priority_below(p: Priority, q: Priority) -> bool {
    ||| p == Priority::Low && q != Priority::Low
    ||| p == Priority::Normal && (q == Priority::High || q == Priority::Urgent)
    ||| p == Priority::High && q == Priority::Urgent
}

impl Priority {
    /// The next priority in the cycle Low, Normal, High, Urgent, Low.
    pub fn next(self) -> (r: Self)
        ensures
            r == next_priority(self),
    {
        match self {
            Priority::Low => Priority::Normal,
            Priority::Normal => Priority::High,
            Priority::High => Priority::Urgent,
            Priority::Urgent => Priority::Low,
        }
    }
}

impl Default for Priority {
    fn default() -> (r: Self)
        ensures
            r == Priority::Normal,
    {
        Priority::Normal
    }
}

/// One dated entry of an item's note log.
#[derive(Debug, Clone)]
pub struct Note {
    pub created: String,
    pub text: String,
}

/// A todo item.
#[derive(Debug, Clone)]
pub struct TodoItem {
    pub id: u64,
    pub text: String,
    pub done: bool,
    pub doing: bool,
    pub priority: Priority,
    pub order: u64,
    pub pinned: bool,
    pub due_date: Option<String>,
    pub category: Option<String>,
    pub archived: bool,
    pub notes: Vec<Note>,
}

/// A row of the category sidebar.
#[derive(Debug, Clone, PartialEq, Eq)]
pub struct CategoryEntry {
    pub path: String,
    pub label: String,
    pub depth: usize,
    pub is_all: bool,
}

/// What a sidebar row shows.
pub struct EntryView {
    pub path: Seq<char>,
    pub label: Seq<char>,
    pub depth: nat,
    pub is_all: bool,
}

impl View for CategoryEntry {
    type V = EntryView;

    open spec fn view(&self) -> EntryView {
        EntryView {
            path: self.path@,
            label: self.label@,
            depth: self.depth as nat,
            is_all: self.is_all,
        }
    }
}

/// The items and stored categories of a list.
pub struct TodoData {
    next_id: u64,
    items: Vec<TodoItem>,
    categories: Vec<String>,
    archived_categories: Vec<String>,
}

/// The content of a list: the next id to hand out, the items in display
/// order, and the stored active and archived category paths.
pub struct TodoDataView {
    pub next_id: u64,
    pub items: Seq<TodoItem>,
    pub categories: Seq<Seq<char>>,
    pub archived_categories: Seq<Seq<char>>,
}

impl View for TodoData {
    type V = TodoDataView;

    closed spec fn view(&self) -> TodoDataView {
        TodoDataView {
            next_id: self.next_id,
            items: self.items@,
            categories: texts(self.categories@),
            archived_categories: texts(self.archived_categories@),
        }
    }
}

/// Index of the first item with id `id`, or -1.
pub open spec fn find_item(items: Seq<TodoItem>, id: u64) -> int
    decreases items.len(),
{
    if items.len() == 0 {
        -1
    } else if items[0].id == id {
        0
    } else {
        let r = find_item(items.drop_first(), id);
        if r < 0 {
            -1
        } else {
            r + 1
        }
    }
}

pub proof fn lemma_find_item(items: Seq<TodoItem>, id: u64, i: int)
    requires
        0 <= i <= items.len(),
        forall|j: int| 0 <= j < i ==> items[j].id != id,
        i == items.len() || items[i].id == id,
    ensures
        find_item(items, id) == if i == items.len() {
            -1
        } else {
            i
        },
    decreases i,
{
    if i > 0 {
        lemma_find_item(items.drop_first(), id, i - 1);
    }
}

pub proof fn lemma_find_item_bounds(items: Seq<TodoItem>, id: u64)
    ensures
        -1 <= find_item(items, id) < items.len(),
        find_item(items, id) >= 0 ==> items[find_item(items, id)].id == id,
        find_item(items, id) < 0 ==> forall|j: int| 0 <= j < items.len() ==> items[j].id != id,
    decreases items.len(),
{
    if items.len() > 0 {
        lemma_find_item_bounds(items.drop_first(), id);
        if items[0].id != id && find_item(items.drop_first(), id) < 0 {
            assert forall|j: int| 0 <= j < items.len() implies items[j].id != id by {
                if j > 0 {
                    assert(items[j] == items.drop_first()[j - 1]);
                }
            }
        }
    }
}

/// Whether the UTF-8 encoding of `s` is longer than `cap` bytes.
pub fn utf8_longer_than(s: &[char], cap: usize) -> (r: bool)
    requires
        cap <= usize::MAX - 4,
    ensures
        r == (utf8_len(s@) > cap),
{
    let mut acc: usize = 0;
    let mut i: usize = 0;
    while i < s.len()
        invariant
            0 <= i <= s.len(),
            acc as int == utf8_len(s@.take(i as int)),
            acc <= cap,
            cap <= usize::MAX - 4,
        decreases s.len() - i,
    {
        let c = s[i];
        let u = c as u32;
        let w: usize = if u < 0x80 {
            1
        } else if u < 0x800 {
            2
        } else if u < 0x10000 {
            3
        } else {
            4
        };
        assert(s@.take(i + 1).drop_last() =~= s@.take(i as int));
        assert(s@.take(i + 1).last() == c);
        acc = acc + w;
        i = i + 1;
        if acc > cap {
            proof {
                lemma_utf8_len_prefix(s@, i as int);
            }
            return true;
        }
    }
    assert(s@.take(s.len() as int) =~= s@);
    false
}

/// Number of items neither done nor archived.
pub open spec fn pending(items: Seq<TodoItem>) -> nat
    decreases items.len(),
{
    if items.len() == 0 {
        0
    } else {
        pending(items.drop_last()) + if !items.last().done && !items.last().archived {
            1nat
        } else {
            0nat
        }
    }
}

/// The order a new item gets: one past the last item's, 0 for the first.
pub open spec fn next_order(items: Seq<TodoItem>) -> int {
    if items.len() == 0 {
        0
    } else {
        items.last().order + 1
    }
}

/// A freshly added item: not done, not started, normal priority, not
/// pinned, no date, no category, not archived, no notes.
pub open spec fn is_fresh_item(it: TodoItem, id: u64, text: Seq<char>, order: int) -> bool {
    &&& it.id == id
    &&& it.text@ == text
    &&& !it.done
    &&& !it.doing
    &&& it.priority == Priority::Normal
    &&& it.order == order
    &&& !it.pinned
    &&& it.due_date is None
    &&& it.category is None
    &&& !it.archived
    &&& it.notes@.len() == 0
}

/// `b` is `a` with only its notes replaced.
pub open spec fn same_but_notes(a: TodoItem, b: TodoItem) -> bool {
    &&& b.id == a.id
    &&& b.text == a.text
    &&& b.done == a.done
    &&& b.doing == a.doing
    &&& b.priority == a.priority
    &&& b.order == a.order
    &&& b.pinned == a.pinned
    &&& b.due_date == a.due_date
    &&& b.category == a.category
    &&& b.archived == a.archived
}

/// The list with the first item of id `id` passed through `f`; unchanged
/// when no item has that id.
pub open spec fn map_item(v: TodoDataView, id: u64, f: spec_fn(TodoItem) -> TodoItem) -> TodoDataView {
    let i = find_item(v.items, id);
    if i < 0 {
        v
    } else {
        TodoDataView { items: v.items.update(i, f(v.items[i])), ..v }
    }
}

/// Done flipped; an item that becomes done stops being in progress.
pub open spec fn toggled_done(it: TodoItem) -> TodoItem {
    TodoItem {
        done: !it.done,
        doing: if !it.done {
            false
        } else {
            it.doing
        },
        ..it
    }
}

/// In-progress flipped; an item that becomes in progress stops being done.
pub open spec fn toggled_doing(it: TodoItem) -> TodoItem {
    TodoItem {
        doing: !it.doing,
        done: if !it.doing {
            false
        } else {
            it.done
        },
        ..it
    }
}

/// The list whose first item of id `id` is replaced by some `b` with
/// `rel(a, b)`; unchanged when no item has that id.
pub open spec fn item_changed(
    old: TodoDataView,
    new: TodoDataView,
    id: u64,
    rel: spec_fn(TodoItem, TodoItem) -> bool,
) -> bool {
    let i = find_item(old.items, id);
    &&& new.next_id == old.next_id
    &&& new.categories == old.categories
    &&& new.archived_categories == old.archived_categories
    &&& new.items.len() == old.items.len()
    &&& forall|j: int| 0 <= j < old.items.len() && j != i ==> new.items[j] == old.items[j]
    &&& i >= 0 ==> rel(old.items[i], new.items[i])
}

/// `b` is `a` with only its text replaced.
pub open spec fn same_but_text(a: TodoItem, b: TodoItem) -> bool {
    &&& b.id == a.id
    &&& b.done == a.done
    &&& b.doing == a.doing
    &&& b.priority == a.priority
    &&& b.order == a.order
    &&& b.pinned == a.pinned
    &&& b.due_date == a.due_date
    &&& b.category == a.category
    &&& b.archived == a.archived
    &&& b.notes == a.notes
}

/// `b` is `a` with only its category replaced.
pub open spec fn same_but_category(a: TodoItem, b: TodoItem) -> bool {
    &&& b.id == a.id
    &&& b.text == a.text
    &&& b.done == a.done
    &&& b.doing == a.doing
    &&& b.priority == a.priority
    &&& b.order == a.order
    &&& b.pinned == a.pinned
    &&& b.due_date == a.due_date
    &&& b.archived == a.archived
    &&& b.notes == a.notes
}

/// The texts of an optional string.
pub open spec fn opt_text(o: Option<String>) -> Option<Seq<char>> {
    match o {
        Some(s) => Some(s@),
        None => None,
    }
}

/// The items that are not done, in order.
pub open spec fn not_done(items: Seq<TodoItem>) -> Seq<TodoItem>
    decreases items.len(),
{
    if items.len() == 0 {
        Seq::empty()
    } else {
        let p = not_done(items.drop_last());
        if items.last().done {
            p
        } else {
            p.push(items.last())
        }
    }
}

/// What `add(text)` does: an item holding `text` trimmed appended with the
/// next id and order, and `r` that id; or, when the trimmed text is empty or
/// longer than 500 bytes, nothing, and `r` 0.
pub open spec fn item_added(v: TodoDataView, w: TodoDataView, text: Seq<char>, r: u64) -> bool {
    let t = trim(text);
    if t.len() == 0 || utf8_len(t) > 500 {
        &&& r == 0
        &&& w == v
    } else {
        &&& r == v.next_id
        &&& w.next_id == v.next_id + 1
        &&& w.items.len() == v.items.len() + 1
        &&& w.items.drop_last() == v.items
        &&& is_fresh_item(w.items.last(), r, t, next_order(v.items))
        &&& w.categories == v.categories
        &&& w.archived_categories == v.archived_categories
    }
}

/// What `update_text(id, text)` does: the text of the item `id` replaced
/// by `text` trimmed, and `r` true; or, when the trimmed text is empty or
/// longer than 500 bytes or there is no such item, nothing, and `r` false.
pub open spec fn text_updated(v: TodoDataView, w: TodoDataView, id: u64, text: Seq<char>, r: bool) -> bool {
    let t = trim(text);
    if t.len() == 0 || utf8_len(t) > 500 || find_item(v.items, id) < 0 {
        &&& !r
        &&& w == v
    } else {
        &&& r
        &&& item_changed(v, w, id, |a: TodoItem, b: TodoItem| same_but_text(a, b) && b.text@ == t)
    }
}

/// What `add_note_on(id, text, today)` does: a note holding `text`
/// trimmed and dated `today` appended to the item `id`, and `r` true; or,
/// when the trimmed text is empty or longer than 500 characters or there is
/// no such item, nothing, and `r` false.
pub open spec fn note_added(v: TodoDataView, w: TodoDataView, id: u64, text: Seq<char>, today: Date, r: bool) -> bool {
    let t = trim(text);
    let i = find_item(v.items, id);
    if t.len() == 0 || t.len() > NOTE_MAX_LEN || i < 0 {
        &&& !r
        &&& w == v
    } else {
        &&& r
        &&& item_changed(
            v,
            w,
            id,
            |a: TodoItem, b: TodoItem|
                same_but_notes(a, b) && b.notes@.len() == a.notes@.len() + 1 && b.notes@.drop_last()
                    == a.notes@ && b.notes@.last().text@ == t && b.notes@.last().created@ == iso_text(today),
        )
    }
}

/// What `update_note(id, index, text)` does: the text of note `index` of
/// the item `id` replaced by `text` trimmed, its date kept, and `r` true;
/// or, when the trimmed text is empty or longer than 500 characters or
/// there is no such note, nothing, and `r` false.
pub open spec fn note_updated(v: TodoDataView, w: TodoDataView, id: u64, index: usize, text: Seq<char>, r: bool) -> bool {
    let t = trim(text);
    let i = find_item(v.items, id);
    if t.len() == 0 || t.len() > NOTE_MAX_LEN || i < 0 || index >= v.items[i].notes@.len() {
        &&& !r
        &&& w == v
    } else {
        &&& r
        &&& item_changed(
            v,
            w,
            id,
            |a: TodoItem, b: TodoItem|
                same_but_notes(a, b) && b.notes@.len() == a.notes@.len() && (forall|j: int|
                    0 <= j < a.notes@.len() && j != index ==> b.notes@[j] == a.notes@[j])
                    && b.notes@[index as int].text@ == t && b.notes@[index as int].created
                    == a.notes@[index as int].created,
        )
    }
}

/// What `delete_note(id, index)` does: note `index` of the item `id`
/// removed and handed back; or, when there is no such note, nothing.
pub open spec fn note_deleted(v: TodoDataView, w: TodoDataView, id: u64, index: usize, r: Option<Note>) -> bool {
    let i = find_item(v.items, id);
    if i < 0 || index >= v.items[i].notes@.len() {
        &&& r is None
        &&& w == v
    } else {
        &&& r == Some(v.items[i].notes@[index as int])
        &&& item_changed(
            v,
            w,
            id,
            |a: TodoItem, b: TodoItem| same_but_notes(a, b) && b.notes@ == a.notes@.remove(index as int),
        )
    }
}

/// The list after `restore_item(item)`: the id counter moved past the
/// item's id, and the item put back by order unless its id is taken.
pub open spec fn restored(v: TodoDataView, item: TodoItem) -> TodoDataView {
    TodoDataView {
        next_id: if item.id >= v.next_id {
            (item.id + 1) as u64
        } else {
            v.next_id
        },
        items: if find_item(v.items, item.id) < 0 {
            sort_by_order(v.items.push(item))
        } else {
            v.items
        },
        ..v
    }
}

/// The list after `delete(id)`: the first item of id `id` removed.
pub open spec fn deleted(v: TodoDataView, id: u64) -> TodoDataView {
    let i = find_item(v.items, id);
    if i < 0 {
        v
    } else {
        TodoDataView { items: v.items.remove(i), ..v }
    }
}

/// What `reorder(id, direction)` does: the item `id` and the item
/// `direction` places away swap their orders, then the items are sorted
/// stably by order. `None` when there is no such pair.
pub open spec fn reordered(v: TodoDataView, id: u64, direction: int) -> Option<TodoDataView> {
    let i = find_item(v.items, id);
    let j = i + direction;
    if i < 0 || j < 0 || j >= v.items.len() {
        None
    } else {
        let a = v.items[i].order;
        let b = v.items[j].order;
        let swapped = v.items.update(i, TodoItem { order: b, ..v.items[i] }).update(
            j,
            TodoItem { order: a, ..v.items[j] },
        );
        Some(TodoDataView { items: sort_by_order(swapped), ..v })
    }
}

/// Index of the first text equal to `x`, or -1.
pub open spec fn find_text(s: Seq<Seq<char>>, x: Seq<char>) -> int
    decreases s.len(),
{
    if s.len() == 0 {
        -1
    } else if s[0] == x {
        0
    } else {
        let r = find_text(s.drop_first(), x);
        if r < 0 {
            -1
        } else {
            r + 1
        }
    }
}

pub proof fn lemma_find_text(s: Seq<Seq<char>>, x: Seq<char>, i: int)
    requires
        0 <= i <= s.len(),
        forall|j: int| 0 <= j < i ==> s[j] != x,
        i == s.len() || s[i] == x,
    ensures
        find_text(s, x) == if i == s.len() {
            -1
        } else {
            i
        },
    decreases i,
{
    if i > 0 {
        lemma_find_text(s.drop_first(), x, i - 1);
    }
}

/// Start of the run of paths under `prefix` that ends at `k`.
pub open spec fn run_start(s: Seq<Seq<char>>, k: int, prefix: Seq<char>) -> int
    decreases k,
{
    if k <= 0 {
        0
    } else if !crate::text::starts_with(s[k - 1], prefix) {
        k
    } else {
        run_start(s, k - 1, prefix)
    }
}

/// End of the run of paths under `prefix` that starts at `k`.
pub open spec fn run_end(s: Seq<Seq<char>>, k: int, prefix: Seq<char>) -> int
    decreases s.len() - k,
{
    if k >= s.len() {
        s.len() as int
    } else if !crate::text::starts_with(s[k], prefix) {
        k
    } else {
        run_end(s, k + 1, prefix)
    }
}

/// What `reorder_category(path, direction)` does to the stored paths: a
/// sub-category swaps places with the one `direction` places away, as long
/// as both stay inside the run of siblings under the same parent.
pub open spec fn category_reordered(cats: Seq<Seq<char>>, path: Seq<char>, direction: int) -> Option<
    Seq<Seq<char>>,
> {
    let k = category::first_index(path, '/');
    let i = find_text(cats, path);
    if k >= path.len() || i < 0 {
        None
    } else {
        let prefix = path.take(k + 1);
        let j = i + direction;
        if j < run_start(cats, i, prefix) || j >= run_end(cats, i + 1, prefix) {
            None
        } else {
            Some(cats.update(i, cats[j]).update(j, cats[i]))
        }
    }
}

/// The stored paths of the active or of the archived view.
pub open spec fn stored(v: TodoDataView, archived: bool) -> Seq<Seq<char>> {
    if archived {
        v.archived_categories
    } else {
        v.categories
    }
}

/// `cats` followed by the categories of the items of the given view that
/// are not listed yet, in item order.
pub open spec fn with_item_categories(
    cats: Seq<Seq<char>>,
    items: Seq<TodoItem>,
    archived: bool,
) -> Seq<Seq<char>>
    decreases items.len(),
{
    if items.len() == 0 {
        cats
    } else {
        let p = with_item_categories(cats, items.drop_last(), archived);
        let it = items.last();
        match it.category {
            Some(c) => if it.archived == archived && !p.contains(c@) {
                p.push(c@)
            } else {
                p
            },
            None => p,
        }
    }
}

/// The category paths of the active (or archived) view: the stored ones,
/// then those only items carry, grouped by root.
pub open spec fn listed_categories(v: TodoDataView, archived: bool) -> Seq<Seq<char>> {
    category::grouped(with_item_categories(stored(v, archived), v.items, archived))
}

/// `s` without the texts equal to `x`.
pub open spec fn without(s: Seq<Seq<char>>, x: Seq<char>) -> Seq<Seq<char>>
    decreases s.len(),
{
    if s.len() == 0 {
        Seq::empty()
    } else {
        let p = without(s.drop_last(), x);
        if s.last() == x {
            p
        } else {
            p.push(s.last())
        }
    }
}

/// The paths of `s` that are `f` or lie under it (`keep` true), or the
/// others (`keep` false).
pub open spec fn branch_filter(s: Seq<Seq<char>>, f: Seq<char>, keep: bool) -> Seq<Seq<char>>
    decreases s.len(),
{
    if s.len() == 0 {
        Seq::empty()
    } else {
        let p = branch_filter(s.drop_last(), f, keep);
        if category::matches_path(s.last(), f) == keep {
            p.push(s.last())
        } else {
            p
        }
    }
}

/// Whether an item is filed under the path `f` or below it.
pub open spec fn item_under(it: TodoItem, f: Seq<char>) -> bool {
    match it.category {
        Some(c) => category::matches_path(c@, f),
        None => false,
    }
}

/// What `add_category(name)` leaves: the normal form of `name` listed
/// among the active paths (regrouped when new) and dropped from the
/// archived ones.
pub open spec fn category_added(v: TodoDataView, name: Seq<char>) -> TodoDataView {
    match normalized(name) {
        None => v,
        Some(n) => TodoDataView {
            categories: if v.categories.contains(n) {
                v.categories
            } else {
                category::grouped(v.categories.push(n))
            },
            archived_categories: without(v.archived_categories, n),
            ..v
        },
    }
}

/// `to` after a branch moves in: the moved paths appended, repeats
/// dropped, regrouped.
pub open spec fn moved_into(to: Seq<Seq<char>>, moved: Seq<Seq<char>>) -> Seq<Seq<char>> {
    category::grouped(category::dedup(to + moved))
}

/// What `set_category_archived(name, archived)` leaves: the branch of the
/// normal form of `name` moved from the active paths to the archived ones
/// (or back), the branch itself listed when none of its paths was stored,
/// and every item of the branch archived (or restored).
pub open spec fn branch_archived(v: TodoDataView, name: Seq<char>, archived: bool) -> TodoDataView {
    match normalized(name) {
        None => v,
        Some(n) => {
            let from = if archived {
                v.categories
            } else {
                v.archived_categories
            };
            let to = if archived {
                v.archived_categories
            } else {
                v.categories
            };
            let b = branch_filter(from, n, true);
            let moved = if b.len() == 0 {
                seq![n]
            } else {
                b
            };
            let new_from = branch_filter(from, n, false);
            let new_to = moved_into(to, moved);
            TodoDataView {
                categories: if archived {
                    new_from
                } else {
                    new_to
                },
                archived_categories: if archived {
                    new_to
                } else {
                    new_from
                },
                items: v.items.map_values(
                    |it: TodoItem|
                        if item_under(it, n) {
                            TodoItem { archived: archived, ..it }
                        } else {
                            it
                        },
                ),
                ..v
            }
        },
    }
}

/// The path `c` after renaming the branch `old` to `new`, or `None` when
/// `c` is outside that branch.
pub open spec fn renamed_path(c: Seq<char>, old: Seq<char>, new: Seq<char>) -> Option<Seq<char>> {
    if c == old {
        Some(new)
    } else if crate::text::starts_with(c, old.push('/')) {
        Some(new + seq!['/'] + c.skip(old.len() as int + 1))
    } else {
        None
    }
}

/// A stored path after the rename.
pub open spec fn rename_one(c: Seq<char>, old: Seq<char>, new: Seq<char>) -> Seq<char> {
    match renamed_path(c, old, new) {
        Some(r) => r,
        None => c,
    }
}

/// The stored paths after the rename: renamed, repeats dropped, regrouped.
pub open spec fn renamed_list(s: Seq<Seq<char>>, old: Seq<char>, new: Seq<char>) -> Seq<Seq<char>> {
    category::grouped(category::dedup(s.map_values(|c: Seq<char>| rename_one(c, old, new))))
}

/// Whether some path of `s` lies in the branch `old`.
pub open spec fn any_in_branch(s: Seq<Seq<char>>, old: Seq<char>) -> bool {
    exists|j: int| 0 <= j < s.len() && category::matches_path(#[trigger] s[j], old)
}

/// Whether some item is filed in the branch `old`.
pub open spec fn any_item_in_branch(items: Seq<TodoItem>, old: Seq<char>) -> bool {
    exists|j: int| 0 <= j < items.len() && item_under(#[trigger] items[j], old)
}

/// `b` is item `a` after the rename of `old` to `new`.
pub open spec fn item_renamed(a: TodoItem, b: TodoItem, old: Seq<char>, new: Seq<char>) -> bool {
    &&& same_but_category(a, b)
    &&& match a.category {
        Some(c) => match renamed_path(c@, old, new) {
            Some(r) => opt_text(b.category) == Some(r),
            None => b.category == a.category,
        },
        None => b.category is None,
    }
}

/// What `set_category(id, c)` does: the item `id` filed under the normal
/// form of `c` (under nothing when `c` is none or normalizes to nothing),
/// all else unchanged.
pub open spec fn category_set(v: TodoDataView, w: TodoDataView, id: u64, c: Option<Seq<char>>) -> bool {
    item_changed(
        v,
        w,
        id,
        |a: TodoItem, b: TodoItem|
            same_but_category(a, b) && opt_text(b.category) == match c {
                Some(x) => normalized(x),
                None => None,
            },
    )
}

/// What `rename_category(old, new)` does: when `new` normalizes to a path
/// `n`, every path in the branch `old` (of items and of the stored lists)
/// moves under `n`, and `r` tells whether anything lay in the branch; when
/// it normalizes to nothing, nothing changes and `r` is false.
pub open spec fn category_renamed(v: TodoDataView, w: TodoDataView, old: Seq<char>, new: Seq<char>, r: bool) -> bool {
    match normalized(new) {
        None => !r && w == v,
        Some(n) => {
            &&& r == (any_item_in_branch(v.items, old) || any_in_branch(v.categories, old) || any_in_branch(
                v.archived_categories,
                old,
            ))
            &&& w.next_id == v.next_id
            &&& w.items.len() == v.items.len()
            &&& forall|j: int| 0 <= j < v.items.len() ==> item_renamed(v.items[j], #[trigger] w.items[j], old, n)
            &&& w.categories == renamed_list(v.categories, old, n)
            &&& w.archived_categories == renamed_list(v.archived_categories, old, n)
        },
    }
}

/// A copy of a list of strings.
pub fn clone_strings(v: &Vec<String>) -> (r: Vec<String>)
    ensures
        r@ == v@,
{
    let mut r: Vec<String> = Vec::new();
    let mut i: usize = 0;
    while i < v.len()
        invariant
            0 <= i <= v.len(),
            r@ == v@.take(i as int),
        decreases v.len() - i,
    {
        let x = v[i].clone();
        r.push(x);
        i = i + 1;
        assert(r@ =~= v@.take(i as int));
    }
    assert(v@.take(v.len() as int) =~= v@);
    r
}

/// The strings of `v` not equal to `x`.
pub fn without_exec(v: &Vec<String>, x: &String) -> (r: Vec<String>)
    ensures
        texts(r@) == without(texts(v@), x@),
{
    let ghost s = texts(v@);
    let mut r: Vec<String> = Vec::new();
    let mut i: usize = 0;
    while i < v.len()
        invariant
            0 <= i <= v.len(),
            s == texts(v@),
            texts(r@) == without(s.take(i as int), x@),
        decreases v.len() - i,
    {
        assert(s.take(i + 1).drop_last() =~= s.take(i as int));
        assert(s.take(i + 1).last() == v@[i as int]@);
        if v[i] != *x {
            let ghost prev = r@;
            r.push(v[i].clone());
            assert(texts(r@) =~= texts(prev).push(v@[i as int]@));
        }
        i = i + 1;
    }
    assert(s.take(v.len() as int) =~= s);
    r
}

/// The strings of `v` that are `f` or lie under it (`keep` true), or the
/// others.
pub fn branch_filter_exec(v: &Vec<String>, f: &[char], keep: bool) -> (r: Vec<String>)
    ensures
        texts(r@) == branch_filter(texts(v@), f@, keep),
{
    let ghost s = texts(v@);
    let mut r: Vec<String> = Vec::new();
    let mut i: usize = 0;
    while i < v.len()
        invariant
            0 <= i <= v.len(),
            s == texts(v@),
            texts(r@) == branch_filter(s.take(i as int), f@, keep),
        decreases v.len() - i,
    {
        assert(s.take(i + 1).drop_last() =~= s.take(i as int));
        assert(s.take(i + 1).last() == v@[i as int]@);
        let cc = chars_of(v[i].as_str());
        if category::path_matches(cc.as_slice(), f) == keep {
            let ghost prev = r@;
            r.push(v[i].clone());
            assert(texts(r@) =~= texts(prev).push(v@[i as int]@));
        }
        i = i + 1;
    }
    assert(s.take(v.len() as int) =~= s);
    r
}

/// The path `c` after renaming the branch `old` to `new`.
pub fn renamed_path_exec(c: &[char], old: &[char], new: &[char]) -> (r: Option<Vec<char>>)
    ensures
        match r {
            Some(x) => renamed_path(c@, old@, new@) == Some(x@),
            None => renamed_path(c@, old@, new@) is None,
        },
{
    if crate::text::chars_eq(c, old) {
        let x = crate::text::sub_chars(new, 0, new.len());
        assert(x@ =~= new@);
        return Some(x);
    }
    let mut prefix = crate::text::sub_chars(old, 0, old.len());
    assert(prefix@ =~= old@);
    prefix.push('/');
    if crate::text::chars_starts_with(c, prefix.as_slice()) {
        let mut x = crate::text::sub_chars(new, 0, new.len());
        x.push('/');
        let rest = crate::text::sub_chars(c, prefix.len(), c.len());
        let ghost base = x@;
        let mut i: usize = 0;
        while i < rest.len()
            invariant
                0 <= i <= rest.len(),
                x@ == base + rest@.take(i as int),
            decreases rest.len() - i,
        {
            x.push(rest[i]);
            i = i + 1;
            assert(x@ =~= base + rest@.take(i as int));
        }
        assert(rest@.take(rest.len() as int) =~= rest@);
        assert(x@ =~= new@ + seq!['/'] + c@.skip(old@.len() as int + 1));
        Some(x)
    } else {
        None
    }
}

/// `s` with every path renamed.
fn rename_all(v: &Vec<String>, old: &[char], new: &[char]) -> (r: (Vec<String>, bool))
    ensures
        texts(r.0@) == texts(v@).map_values(|c: Seq<char>| rename_one(c, old@, new@)),
        r.1 == any_in_branch(texts(v@), old@),
{
    let ghost s = texts(v@);
    let mut out: Vec<String> = Vec::new();
    let mut changed = false;
    let mut i: usize = 0;
    while i < v.len()
        invariant
            0 <= i <= v.len(),
            s == texts(v@),
            texts(out@) == s.take(i as int).map_values(|c: Seq<char>| rename_one(c, old@, new@)),
            changed == exists|j: int| 0 <= j < i && category::matches_path(#[trigger] s[j], old@),
        decreases v.len() - i,
    {
        let cc = chars_of(v[i].as_str());
        assert(cc@ == s[i as int]);
        let ghost prev = out@;
        match renamed_path_exec(cc.as_slice(), old, new) {
            Some(x) => {
                let st = string_of(x.as_slice());
                out.push(st);
                changed = true;
            },
            None => {
                out.push(v[i].clone());
            },
        }
        assert(texts(out@) =~= texts(prev).push(rename_one(s[i as int], old@, new@)));
        assert(texts(out@) =~= s.take(i + 1).map_values(|c: Seq<char>| rename_one(c, old@, new@)));
        i = i + 1;
    }
    assert(s.take(v.len() as int) =~= s);
    (out, changed)
}

/// The stored list `from` without the branch `name`, and `to` with it.
fn move_branch(from: &Vec<String>, to: &Vec<String>, name: &String) -> (r: (Vec<String>, Vec<String>))
    ensures
        ({
            let b = branch_filter(texts(from@), name@, true);
            &&& texts(r.0@) == branch_filter(texts(from@), name@, false)
            &&& texts(r.1@) == moved_into(texts(to@), if b.len() == 0 {
                seq![name@]
            } else {
                b
            })
        }),
{
    let nc = chars_of(name.as_str());
    let mut moved = branch_filter_exec(from, nc.as_slice(), true);
    let kept = branch_filter_exec(from, nc.as_slice(), false);
    if moved.len() == 0 {
        moved.push(name.clone());
        assert(texts(moved@) =~= seq![name@]);
    }
    let mut out = clone_strings(to);
    let ghost base = texts(out@);
    let mut i: usize = 0;
    while i < moved.len()
        invariant
            0 <= i <= moved.len(),
            texts(out@) == base + texts(moved@).take(i as int),
        decreases moved.len() - i,
    {
        let ghost prev = out@;
        out.push(moved[i].clone());
        assert(texts(out@) =~= texts(prev).push(moved@[i as int]@));
        assert(texts(moved@).take(i + 1) =~= texts(moved@).take(i as int).push(moved@[i as int]@));
        assert(texts(out@) =~= base + texts(moved@).take(i + 1));
        i = i + 1;
    }
    assert(texts(moved@).take(moved.len() as int) =~= texts(moved@));
    category::dedup_preserve_order(&mut out);
    category::group_categories(&mut out);
    (kept, out)
}

/// Whether the string begins with `p`.
pub fn string_starts_with(s: &String, p: &[char]) -> (r: bool)
    ensures
        r == crate::text::starts_with(s@, p@),
{
    let cs = chars_of(s.as_str());
    crate::text::chars_starts_with(cs.as_slice(), p)
}

impl TodoData {
    /// An empty list whose first item will get id 1.
    pub fn new() -> (r: Self)
        ensures
            store_wf(r@),
            lists_wf(r@),
            r@.next_id == 1,
            r@.items.len() == 0,
            r@.categories.len() == 0,
            r@.archived_categories.len() == 0,
    {
        let r = TodoData {
            next_id: 1,
            items: Vec::new(),
            categories: Vec::new(),
            archived_categories: Vec::new(),
        };
        assert(texts(r.categories@) =~= Seq::empty());
        assert(texts(r.archived_categories@) =~= Seq::empty());
        r
    }

    /// A list read back from storage: the stored paths are regrouped, since
    /// files written before grouping was enforced can hold scattered
    /// siblings.
    pub fn from_stored(
        next_id: u64,
        items: Vec<TodoItem>,
        categories: Vec<String>,
        archived_categories: Vec<String>,
    ) -> (r: Self)
        ensures
            r@.next_id == next_id,
            r@.items == items@,
            r@.categories == category::grouped(texts(categories@)),
            r@.archived_categories == category::grouped(texts(archived_categories@)),
    {
        let mut categories = categories;
        let mut archived_categories = archived_categories;
        category::group_categories(&mut categories);
        category::group_categories(&mut archived_categories);
        TodoData { next_id, items, categories, archived_categories }
    }

    /// The stored active category paths.
    pub fn stored_categories(&self) -> (r: &Vec<String>)
        ensures
            texts(r@) == self@.categories,
    {
        &self.categories
    }

    /// The stored archived category paths.
    pub fn stored_archived_categories(&self) -> (r: &Vec<String>)
        ensures
            texts(r@) == self@.archived_categories,
    {
        &self.archived_categories
    }

    /// The items, in display order.
    pub fn items(&self) -> (r: &[TodoItem])
        ensures
            r@ == self@.items,
    {
        self.items.as_slice()
    }

    /// The id the next added item gets.
    pub fn next_id(&self) -> (r: u64)
        ensures
            r == self@.next_id,
    {
        self.next_id
    }

    /// Number of items neither done nor archived.
    pub fn pending_count(&self) -> (r: usize)
        ensures
            r == pending(self@.items),
    {
        let mut count: usize = 0;
        let mut i: usize = 0;
        while i < self.items.len()
            invariant
                0 <= i <= self.items.len(),
                count == pending(self.items@.take(i as int)),
                count <= i,
            decreases self.items.len() - i,
        {
            assert(self.items@.take(i + 1).drop_last() =~= self.items@.take(i as int));
            if !self.items[i].done && !self.items[i].archived {
                count = count + 1;
            }
            i = i + 1;
        }
        assert(self.items@.take(self.items.len() as int) =~= self.items@);
        count
    }

    fn find_index(&self, id: u64) -> (r: Option<usize>)
        ensures
            match r {
                Some(i) => i as int == find_item(self.items@, id) && i < self.items.len(),
                None => find_item(self.items@, id) < 0,
            },
    {
        let mut i: usize = 0;
        while i < self.items.len()
            invariant
                0 <= i <= self.items.len(),
                forall|j: int| 0 <= j < i ==> self.items@[j].id != id,
            decreases self.items.len() - i,
        {
            if self.items[i].id == id {
                proof {
                    lemma_find_item(self.items@, id, i as int);
                }
                return Some(i);
            }
            i = i + 1;
        }
        proof {
            lemma_find_item(self.items@, id, i as int);
        }
        None
    }

    /// The first item with id `id`.
    pub fn get(&self, id: u64) -> (r: Option<&TodoItem>)
        ensures
            match r {
                Some(it) => find_item(self@.items, id) >= 0 && *it == self@.items[find_item(
                    self@.items,
                    id,
                )],
                None => find_item(self@.items, id) < 0,
            },
    {
        match self.find_index(id) {
            Some(i) => Some(&self.items[i]),
            None => None,
        }
    }

    /// Adds an item holding `text` trimmed, and returns its id; returns 0
    /// and changes nothing when the trimmed text is empty or longer than
    /// 500 bytes.
    pub fn add(&mut self, text: &str) -> (r: u64)
        requires
            old(self)@.next_id < u64::MAX,
            next_order(old(self)@.items) <= u64::MAX,
        ensures
            store_wf(old(self)@) ==> store_wf(final(self)@),
            lists_wf(old(self)@) ==> lists_wf(final(self)@),
            item_added(old(self)@, final(self)@, text@, r),
    {
        let cs = chars_of(text);
        let t = trim_chars(cs.as_slice());
        if t.len() == 0 || utf8_longer_than(t.as_slice(), TEXT_MAX_BYTES) {
            return 0;
        }
        let id = self.next_id;
        self.next_id = self.next_id + 1;
        let order: u64 = if self.items.len() == 0 {
            0
        } else {
            self.items[self.items.len() - 1].order + 1
        };
        let item = TodoItem {
            id,
            text: string_of(t.as_slice()),
            done: false,
            doing: false,
            priority: Priority::Normal,
            order,
            pinned: false,
            due_date: None,
            category: None,
            archived: false,
            notes: Vec::new(),
        };
        let ghost prev = self.items@;
        self.items.push(item);
        assert(self.items@.drop_last() =~= prev);
        proof {
            assert(item_added(old(self)@, self@, text@, id));
            lemma_item_added_keeps(old(self)@, self@, text@, id);
        }
        id
    }
}

impl TodoData {
    /// Flips the done flag of the item `id`; an item that becomes done stops
    /// being in progress.
    pub fn toggle_done(&mut self, id: u64)
        ensures
            store_wf(old(self)@) ==> store_wf(final(self)@),
            lists_wf(old(self)@) ==> lists_wf(final(self)@),
            final(self)@ == map_item(old(self)@, id, |it: TodoItem| toggled_done(it)),
    {
        if let Some(i) = self.find_index(id) {
            let item = &mut self.items[i];
            item.done = !item.done;
            if item.done {
                item.doing = false;
            }
            proof {
                lemma_one_changed_keeps(old(self)@, self@, i as int);
            }
        }
    }

    /// Flips the in-progress flag of the item `id`; an item that becomes in
    /// progress stops being done.
    pub fn toggle_doing(&mut self, id: u64)
        ensures
            store_wf(old(self)@) ==> store_wf(final(self)@),
            lists_wf(old(self)@) ==> lists_wf(final(self)@),
            final(self)@ == map_item(old(self)@, id, |it: TodoItem| toggled_doing(it)),
    {
        if let Some(i) = self.find_index(id) {
            let item = &mut self.items[i];
            item.doing = !item.doing;
            if item.doing {
                item.done = false;
            }
            proof {
                lemma_one_changed_keeps(old(self)@, self@, i as int);
            }
        }
    }

    /// Flips the pinned flag of the item `id`.
    pub fn toggle_pin(&mut self, id: u64)
        ensures
            store_wf(old(self)@) ==> store_wf(final(self)@),
            lists_wf(old(self)@) ==> lists_wf(final(self)@),
            final(self)@ == map_item(old(self)@, id, |it: TodoItem| (TodoItem { pinned: !it.pinned, ..it })),
    {
        if let Some(i) = self.find_index(id) {
            let item = &mut self.items[i];
            item.pinned = !item.pinned;
            proof {
                lemma_one_changed_keeps(old(self)@, self@, i as int);
            }
        }
    }

    /// Sets the due date of the item `id`.
    pub fn set_due_date(&mut self, id: u64, date: Option<String>)
        ensures
            store_wf(old(self)@) ==> store_wf(final(self)@),
            lists_wf(old(self)@) ==> lists_wf(final(self)@),
            final(self)@ == map_item(old(self)@, id, |it: TodoItem| (TodoItem { due_date: date, ..it })),
    {
        if let Some(i) = self.find_index(id) {
            let item = &mut self.items[i];
            item.due_date = date;
            proof {
                lemma_one_changed_keeps(old(self)@, self@, i as int);
            }
        }
    }

    /// Archives or restores the item `id`.
    pub fn set_archived(&mut self, id: u64, archived: bool)
        ensures
            store_wf(old(self)@) ==> store_wf(final(self)@),
            lists_wf(old(self)@) ==> lists_wf(final(self)@),
            final(self)@ == map_item(old(self)@, id, |it: TodoItem| (TodoItem { archived, ..it })),
    {
        if let Some(i) = self.find_index(id) {
            let item = &mut self.items[i];
            item.archived = archived;
            proof {
                lemma_one_changed_keeps(old(self)@, self@, i as int);
            }
        }
    }

    /// Moves the item `id` to the next priority of the cycle.
    pub fn cycle_priority(&mut self, id: u64)
        ensures
            store_wf(old(self)@) ==> store_wf(final(self)@),
            lists_wf(old(self)@) ==> lists_wf(final(self)@),
            final(self)@ == map_item(
                old(self)@,
                id,
                |it: TodoItem| (TodoItem { priority: next_priority(it.priority), ..it }),
            ),
    {
        if let Some(i) = self.find_index(id) {
            let item = &mut self.items[i];
            item.priority = item.priority.next();
            proof {
                lemma_one_changed_keeps(old(self)@, self@, i as int);
            }
        }
    }

    /// Files the item `id` under the normal form of `category`, or under no
    /// category when it is `None` or normalizes to nothing.
    pub fn set_category(&mut self, id: u64, category: Option<String>)
        ensures
            store_wf(old(self)@) ==> store_wf(final(self)@),
            lists_wf(old(self)@) ==> lists_wf(final(self)@),
            category_set(old(self)@, final(self)@, id, opt_text(category)),
    {
        if let Some(i) = self.find_index(id) {
            let norm = match &category {
                Some(name) => normalize_category(name.as_str()),
                None => None,
            };
            let item = &mut self.items[i];
            item.category = norm;
            proof {
                lemma_one_changed_keeps(old(self)@, self@, i as int);
            }
        }
    }

    /// Replaces the text of the item `id` by `text` trimmed; returns whether
    /// it did. Nothing changes when the trimmed text is empty or longer than
    /// 500 bytes, or when no item has that id.
    pub fn update_text(&mut self, id: u64, text: &str) -> (r: bool)
        ensures
            store_wf(old(self)@) ==> store_wf(final(self)@),
            lists_wf(old(self)@) ==> lists_wf(final(self)@),
            text_updated(old(self)@, final(self)@, id, text@, r),
    {
        let cs = chars_of(text);
        let t = trim_chars(cs.as_slice());
        if t.len() == 0 || utf8_longer_than(t.as_slice(), TEXT_MAX_BYTES) {
            return false;
        }
        match self.find_index(id) {
            Some(i) => {
                let s = string_of(t.as_slice());
                let item = &mut self.items[i];
                item.text = s;
                proof {
                    lemma_one_changed_keeps(old(self)@, self@, i as int);
                }
                true
            },
            None => false,
        }
    }

    /// Removes the item `id` and hands it back.
    pub fn delete(&mut self, id: u64) -> (r: Option<TodoItem>)
        ensures
            store_wf(old(self)@) ==> store_wf(final(self)@),
            lists_wf(old(self)@) ==> lists_wf(final(self)@),
            final(self)@ == deleted(old(self)@, id),
            match r {
                Some(it) => find_item(old(self)@.items, id) >= 0 && it == old(self)@.items[find_item(
                    old(self)@.items,
                    id,
                )],
                None => find_item(old(self)@.items, id) < 0,
            },
    {
        proof {
            lemma_deleted_keeps(self@, id);
        }
        match self.find_index(id) {
            Some(i) => Some(self.items.remove(i)),
            None => None,
        }
    }

    /// Puts a removed item back: the id counter moves past its id, and the
    /// item is inserted by order unless an item with its id is present.
    pub fn restore_item(&mut self, item: TodoItem)
        requires
            item.id < u64::MAX,
        ensures
            store_wf(old(self)@) ==> store_wf(final(self)@),
            lists_wf(old(self)@) ==> lists_wf(final(self)@),
            final(self)@ == restored(old(self)@, item),
    {
        proof {
            lemma_restored_keeps(self@, item);
        }
        if item.id >= self.next_id {
            self.next_id = item.id + 1;
        }
        match self.find_index(item.id) {
            Some(_) => {},
            None => {
                self.items.push(item);
                sort_items_by_order(&mut self.items);
            },
        }
    }

    /// Appends a note dated `today` to the item `id`, holding `text`
    /// trimmed; returns whether it did. Nothing changes when the trimmed text
    /// is empty or longer than 500 characters, or when no item has that id.
    pub fn add_note_on(&mut self, id: u64, text: &str, today: Date) -> (r: bool)
        ensures
            store_wf(old(self)@) ==> store_wf(final(self)@),
            lists_wf(old(self)@) ==> lists_wf(final(self)@),
            note_added(old(self)@, final(self)@, id, text@, today, r),
    {
        let cs = chars_of(text);
        let t = trim_chars(cs.as_slice());
        if t.len() == 0 || t.len() > NOTE_MAX_LEN {
            return false;
        }
        match self.find_index(id) {
            Some(i) => {
                let note = Note { created: today.iso(), text: string_of(t.as_slice()) };
                let item = &mut self.items[i];
                let ghost prev = item.notes@;
                item.notes.push(note);
                assert(item.notes@.drop_last() =~= prev);
                proof {
                    lemma_one_changed_keeps(old(self)@, self@, i as int);
                }
                true
            },
            None => false,
        }
    }

    /// Appends a note dated today, in a zone `offset_seconds` east of UTC,
    /// to the item `id`, holding `text` trimmed; returns whether it did, as
    /// `add_note_on` does.
    pub fn add_note(&mut self, id: u64, text: &str, offset_seconds: i64) -> (r: bool)
        ensures
            store_wf(old(self)@) ==> store_wf(final(self)@),
            lists_wf(old(self)@) ==> lists_wf(final(self)@),
            ({
                let t = trim(text@);
                let i = find_item(old(self)@.items, id);
                if t.len() == 0 || t.len() > NOTE_MAX_LEN || i < 0 {
                    &&& !r
                    &&& final(self)@ == old(self)@
                } else {
                    &&& r
                    &&& item_changed(
                        old(self)@,
                        final(self)@,
                        id,
                        |a: TodoItem, b: TodoItem|
                            same_but_notes(a, b) && b.notes@.len() == a.notes@.len() + 1
                                && b.notes@.drop_last() == a.notes@ && b.notes@.last().text@ == t
                                && exists|d: Date| #![auto] is_local_today(d, offset_seconds as int)
                                && b.notes@.last().created@ == iso_text(d),
                    )
                }
            }),
    {
        let today = Date::today(offset_seconds);
        self.add_note_on(id, text, today)
    }

    /// Replaces the text of note `index` of the item `id` by `text` trimmed;
    /// returns whether it did. Nothing changes when the trimmed text is empty
    /// or longer than 500 characters, or when there is no such note.
    pub fn update_note(&mut self, id: u64, index: usize, text: &str) -> (r: bool)
        ensures
            store_wf(old(self)@) ==> store_wf(final(self)@),
            lists_wf(old(self)@) ==> lists_wf(final(self)@),
            note_updated(old(self)@, final(self)@, id, index, text@, r),
    {
        let cs = chars_of(text);
        let t = trim_chars(cs.as_slice());
        if t.len() == 0 || t.len() > NOTE_MAX_LEN {
            return false;
        }
        match self.find_index(id) {
            Some(i) => {
                if index >= self.items[i].notes.len() {
                    return false;
                }
                let s = string_of(t.as_slice());
                let item = &mut self.items[i];
                let note = &mut item.notes[index];
                note.text = s;
                proof {
                    lemma_one_changed_keeps(old(self)@, self@, i as int);
                }
                true
            },
            None => false,
        }
    }

    /// Removes note `index` of the item `id` and hands it back.
    pub fn delete_note(&mut self, id: u64, index: usize) -> (r: Option<Note>)
        ensures
            store_wf(old(self)@) ==> store_wf(final(self)@),
            lists_wf(old(self)@) ==> lists_wf(final(self)@),
            note_deleted(old(self)@, final(self)@, id, index, r),
    {
        match self.find_index(id) {
            Some(i) => {
                if index >= self.items[i].notes.len() {
                    return None;
                }
                let item = &mut self.items[i];
                let n = item.notes.remove(index);
                proof {
                    lemma_one_changed_keeps(old(self)@, self@, i as int);
                }
                Some(n)
            },
            None => None,
        }
    }

    /// Puts `note` back into the log of the item `id` at `index`, or at the
    /// end when the log is shorter.
    pub fn restore_note(&mut self, id: u64, index: usize, note: Note)
        ensures
            store_wf(old(self)@) ==> store_wf(final(self)@),
            lists_wf(old(self)@) ==> lists_wf(final(self)@),
            item_changed(
                old(self)@,
                final(self)@,
                id,
                |a: TodoItem, b: TodoItem|
                    same_but_notes(a, b) && b.notes@ == a.notes@.insert(
                        if index <= a.notes@.len() {
                            index as int
                        } else {
                            a.notes@.len() as int
                        },
                        note,
                    ),
            ),
    {
        if let Some(i) = self.find_index(id) {
            let item = &mut self.items[i];
            let at = if index <= item.notes.len() {
                index
            } else {
                item.notes.len()
            };
            item.notes.insert(at, note);
            proof {
                lemma_one_changed_keeps(old(self)@, self@, i as int);
            }
        }
    }

    /// Number of notes of the item `id`; 0 when there is no such item.
    pub fn note_count(&self, id: u64) -> (r: usize)
        ensures
            r == (if find_item(self@.items, id) < 0 {
                0
            } else {
                self@.items[find_item(self@.items, id)].notes@.len()
            }),
    {
        match self.find_index(id) {
            Some(i) => self.items[i].notes.len(),
            None => 0,
        }
    }

    /// Index of the newest note of the item `id`; 0 when it has none.
    pub fn last_note_index(&self, id: u64) -> (r: usize)
        ensures
            r == (if find_item(self@.items, id) < 0 || self@.items[find_item(
                self@.items,
                id,
            )].notes@.len() == 0 {
                0
            } else {
                self@.items[find_item(self@.items, id)].notes@.len() - 1
            }),
    {
        let n = self.note_count(id);
        if n == 0 {
            0
        } else {
            n - 1
        }
    }

    /// Moves the item `id` by `direction` places, by swapping its order with
    /// the item there and sorting stably by order; returns whether there was
    /// such an item.
    pub fn reorder(&mut self, id: u64, direction: i32) -> (r: bool)
        requires
            old(self)@.items.len() <= i32::MAX,
            find_item(old(self)@.items, id) >= 0 ==> i32::MIN <= find_item(old(self)@.items, id)
                + direction <= i32::MAX,
        ensures
            store_wf(old(self)@) ==> store_wf(final(self)@),
            lists_wf(old(self)@) ==> lists_wf(final(self)@),
            match reordered(old(self)@, id, direction as int) {
                Some(v) => r && final(self)@ == v,
                None => !r && final(self)@ == old(self)@,
            },
    {
        proof {
            lemma_reordered_keeps(self@, id, direction as int);
        }
        let idx = match self.find_index(id) {
            Some(i) => i,
            None => return false,
        };
        let new_idx: i64 = idx as i64 + direction as i64;
        if new_idx < 0 || new_idx >= self.items.len() as i64 {
            return false;
        }
        let new_idx = new_idx as usize;
        let a_order = self.items[idx].order;
        let b_order = self.items[new_idx].order;
        let ghost orig = self.items@;
        self.items[idx].order = b_order;
        self.items[new_idx].order = a_order;
        proof {
            let sw = orig.update(idx as int, TodoItem { order: b_order, ..orig[idx as int] }).update(
                new_idx as int,
                TodoItem { order: a_order, ..orig[new_idx as int] },
            );
            assert(self.items@ =~= sw);
        }
        sort_items_by_order(&mut self.items);
        true
    }

    /// Moves the sub-category `path` by `direction` places among its
    /// siblings in the stored list; returns whether it moved. Top-level
    /// paths and moves out of the sibling run are refused.
    pub fn reorder_category(&mut self, path: &str, direction: i32) -> (r: bool)
        requires
            old(self)@.categories.len() <= i32::MAX,
        ensures
            store_wf(old(self)@) ==> store_wf(final(self)@),
            lists_wf(old(self)@) ==> lists_wf(final(self)@),
            match category_reordered(old(self)@.categories, path@, direction as int) {
                Some(c) => r && final(self)@ == (TodoDataView { categories: c, ..old(self)@ }),
                None => !r && final(self)@ == old(self)@,
            },
    {
        proof {
            lemma_category_reordered_lists(self@.categories, path@, direction as int);
        }
        let ghost cats = texts(self.categories@);
        let pc = chars_of(path);
        let k = category::find_char(pc.as_slice(), '/');
        if k >= pc.len() {
            return false;
        }
        let mut i: usize = 0;
        while i < self.categories.len()
            invariant
                0 <= i <= self.categories.len(),
                cats == texts(self.categories@),
                forall|j: int| 0 <= j < i ==> cats[j] != path@,
            ensures
                0 <= i <= self.categories.len(),
                cats == texts(self.categories@),
                forall|j: int| 0 <= j < i ==> cats[j] != path@,
                i < self.categories.len() ==> cats[i as int] == path@,
            decreases self.categories.len() - i,
        {
            if crate::text::str_eq(self.categories[i].as_str(), path) {
                break;
            }
            i = i + 1;
        }
        proof {
            if i < self.categories.len() {
                assert(cats[i as int] == path@);
            }
            lemma_find_text(cats, path@, i as int);
        }
        if i >= self.categories.len() {
            return false;
        }
        let idx = i;
        let prefix = crate::text::sub_chars(pc.as_slice(), 0, k + 1);
        // Start of the sibling run.
        let mut start: usize = idx;
        while start > 0 && string_starts_with(&self.categories[start - 1], prefix.as_slice())
            invariant
                0 <= start <= idx < self.categories.len(),
                cats == texts(self.categories@),
                run_start(cats, idx as int, prefix@) == run_start(cats, start as int, prefix@),
            decreases start,
        {
            start = start - 1;
        }
        // End of the sibling run.
        let mut end: usize = idx + 1;
        while end < self.categories.len() && string_starts_with(
            &self.categories[end],
            prefix.as_slice(),
        )
            invariant
                idx < end <= self.categories.len(),
                cats == texts(self.categories@),
                run_end(cats, idx + 1, prefix@) == run_end(cats, end as int, prefix@),
            decreases self.categories.len() - end,
        {
            end = end + 1;
        }
        let new_idx: i64 = idx as i64 + direction as i64;
        if new_idx < start as i64 || new_idx >= end as i64 {
            return false;
        }
        let j = new_idx as usize;
        let x = self.categories[idx].clone();
        let y = self.categories[j].clone();
        self.categories[idx] = y;
        self.categories[j] = x;
        proof {
            assert(texts(self.categories@) =~= cats.update(idx as int, cats[j as int]).update(
                j as int,
                cats[idx as int],
            ));
        }
        true
    }

    /// The category paths of the active (`false`) or archived (`true`)
    /// view: the stored ones, then the ones only items of that view carry,
    /// grouped by root.
    pub fn categories_for_archived(&self, archived: bool) -> (r: Vec<String>)
        ensures
            texts(r@) == listed_categories(self@, archived),
            forall|x: Seq<char>| stored(self@, archived).contains(x) ==> #[trigger] texts(r@).contains(x),
            forall|j: int|
                0 <= j < self@.items.len() && (#[trigger] self@.items[j]).archived == archived
                    && self@.items[j].category is Some ==> texts(r@).contains(self@.items[j].category->0@),
            listing::roots_contiguous(texts(r@)),
            lists_wf(self@) ==> listing::no_dups(texts(r@)),
    {
        proof {
            listing::law_listed_categories(self@, archived);
        }
        let mut cats = if archived {
            clone_strings(&self.archived_categories)
        } else {
            clone_strings(&self.categories)
        };
        let ghost base = stored(self@, archived);
        let mut i: usize = 0;
        while i < self.items.len()
            invariant
                0 <= i <= self.items.len(),
                texts(cats@) == with_item_categories(base, self.items@.take(i as int), archived),
            decreases self.items.len() - i,
        {
            let it = &self.items[i];
            assert(self.items@.take(i + 1).drop_last() =~= self.items@.take(i as int));
            assert(self.items@.take(i + 1).last() == *it);
            if it.archived == archived {
                match &it.category {
                    Some(c) => {
                        if !category::strings_contain(&cats, c) {
                            let ghost prev = cats@;
                            cats.push(c.clone());
                            assert(texts(cats@) =~= texts(prev).push(c@));
                        }
                    },
                    None => {},
                }
            }
            i = i + 1;
        }
        assert(self.items@.take(self.items.len() as int) =~= self.items@);
        category::group_categories(&mut cats);
        cats
    }

    /// The category paths of the active view.
    pub fn categories(&self) -> (r: Vec<String>)
        ensures
            texts(r@) == listed_categories(self@, false),
    {
        self.categories_for_archived(false)
    }

    /// The sidebar rows of the active (`false`) or archived (`true`) view.
    pub fn category_entries_for_archived(&self, archived: bool) -> (r: Vec<CategoryEntry>)
        ensures
            sidebar::entry_views(r@) == sidebar::rows_from(listed_categories(self@, archived), 0),
    {
        let cats = self.categories_for_archived(archived);
        sidebar::sidebar_rows(&cats)
    }

    /// The sidebar rows of the active view.
    pub fn category_entries(&self) -> (r: Vec<CategoryEntry>)
        ensures
            sidebar::entry_views(r@) == sidebar::rows_from(listed_categories(self@, false), 0),
    {
        self.category_entries_for_archived(false)
    }

    /// Lists the normal form of `name` among the active paths and drops it
    /// from the archived ones; nothing happens when it normalizes to
    /// nothing.
    pub fn add_category(&mut self, name: &str)
        ensures
            store_wf(old(self)@) ==> store_wf(final(self)@),
            lists_wf(old(self)@) ==> lists_wf(final(self)@),
            final(self)@ == category_added(old(self)@, name@),
    {
        proof {
            lemma_category_added_lists(self@, name@);
        }
        match normalize_category(name) {
            None => {},
            Some(n) => {
                if !category::strings_contain(&self.categories, &n) {
                    let ghost prev = self.categories@;
                    self.categories.push(n.clone());
                    assert(texts(self.categories@) =~= texts(prev).push(n@));
                    category::group_categories(&mut self.categories);
                }
                let kept = without_exec(&self.archived_categories, &n);
                self.archived_categories = kept;
            },
        }
    }

    /// Drops the stored paths that are `name` or lie under it, active and
    /// archived alike.
    pub fn remove_category(&mut self, name: &str)
        ensures
            store_wf(old(self)@) ==> store_wf(final(self)@),
            lists_wf(old(self)@) ==> lists_wf(final(self)@),
            final(self)@ == (TodoDataView {
                categories: branch_filter(old(self)@.categories, name@, false),
                archived_categories: branch_filter(old(self)@.archived_categories, name@, false),
                ..old(self)@
            }),
    {
        proof {
            if lists_wf(self@) {
                lemma_branch_filter_no_dups(self@.categories, name@, false);
                lemma_branch_filter_no_dups(self@.archived_categories, name@, false);
            }
        }
        let nc = chars_of(name);
        let a = branch_filter_exec(&self.categories, nc.as_slice(), false);
        let b = branch_filter_exec(&self.archived_categories, nc.as_slice(), false);
        self.categories = a;
        self.archived_categories = b;
    }

    /// Moves the branch of the normal form of `name` from the active paths
    /// to the archived ones (`archived` true) or back, listing the branch
    /// itself when none of its paths was stored, and archives (or restores)
    /// every item of the branch. Nothing happens when `name` normalizes to
    /// nothing.
    pub fn set_category_archived(&mut self, name: &str, archived: bool)
        ensures
            store_wf(old(self)@) ==> store_wf(final(self)@),
            lists_wf(old(self)@) ==> lists_wf(final(self)@),
            final(self)@ == branch_archived(old(self)@, name@, archived),
    {
        proof {
            lemma_branch_archived_keeps(self@, name@, archived);
            lemma_branch_archived_lists(self@, name@, archived);
        }
        let n = match normalize_category(name) {
            None => return,
            Some(n) => n,
        };
        let nc = chars_of(n.as_str());
        let (new_from, new_to) = if archived {
            move_branch(&self.categories, &self.archived_categories, &n)
        } else {
            move_branch(&self.archived_categories, &self.categories, &n)
        };
        if archived {
            self.categories = new_from;
            self.archived_categories = new_to;
        } else {
            self.archived_categories = new_from;
            self.categories = new_to;
        }
        let ghost orig = self.items@;
        let ghost mid = self@;
        let mut i: usize = 0;
        while i < self.items.len()
            invariant
                0 <= i <= self.items.len(),
                self.items.len() == orig.len(),
                self.next_id == mid.next_id,
                texts(self.categories@) == mid.categories,
                texts(self.archived_categories@) == mid.archived_categories,
                nc@ == n@,
                forall|j: int|
                    0 <= j < i ==> self.items@[j] == (if item_under(orig[j], n@) {
                        TodoItem { archived: archived, ..orig[j] }
                    } else {
                        orig[j]
                    }),
                forall|j: int| i <= j < orig.len() ==> self.items@[j] == orig[j],
            decreases self.items.len() - i,
        {
            let under = match &self.items[i].category {
                Some(c) => {
                    let cc = chars_of(c.as_str());
                    category::path_matches(cc.as_slice(), nc.as_slice())
                },
                None => false,
            };
            if under {
                self.items[i].archived = archived;
            }
            i = i + 1;
        }
        proof {
            assert(self.items@ =~= orig.map_values(
                |it: TodoItem|
                    if item_under(it, n@) {
                        TodoItem { archived: archived, ..it }
                    } else {
                        it
                    },
            ));
        }
    }

    /// Renames the branch `old_path` to the normal form of `new_path`, in the items'
    /// categories and in both stored lists (which are then deduplicated and
    /// regrouped); returns whether anything was in the branch. Nothing
    /// happens when `new_path` normalizes to nothing.
    pub fn rename_category(&mut self, old_path: &str, new_path: &str) -> (r: bool)
        ensures
            store_wf(old(self)@) ==> store_wf(final(self)@),
            lists_wf(old(self)@) ==> lists_wf(final(self)@),
            category_renamed(old(self)@, final(self)@, old_path@, new_path@, r),
    {
        proof {
            lemma_regrouped_no_dups();
        }
        let nw = match normalize_category(new_path) {
            None => return false,
            Some(x) => x,
        };
        let oc = chars_of(old_path);
        let nwc = chars_of(nw.as_str());
        let ghost orig = self.items@;
        let ghost mid = self@;
        let mut changed = false;
        let mut i: usize = 0;
        while i < self.items.len()
            invariant
                0 <= i <= self.items.len(),
                self.items.len() == orig.len(),
                self.next_id == mid.next_id,
                texts(self.categories@) == mid.categories,
                texts(self.archived_categories@) == mid.archived_categories,
                oc@ == old_path@,
                nwc@ == nw@,
                forall|j: int| 0 <= j < i ==> item_renamed(orig[j], #[trigger] self.items@[j], old_path@, nw@),
                forall|j: int| i <= j < orig.len() ==> self.items@[j] == orig[j],
                changed == exists|j: int| 0 <= j < i && item_under(#[trigger] orig[j], old_path@),
            decreases self.items.len() - i,
        {
            let r = match &self.items[i].category {
                Some(c) => {
                    let cc = chars_of(c.as_str());
                    renamed_path_exec(cc.as_slice(), oc.as_slice(), nwc.as_slice())
                },
                None => None,
            };
            match r {
                Some(x) => {
                    let st = string_of(x.as_slice());
                    self.items[i].category = Some(st);
                    changed = true;
                },
                None => {},
            }
            assert(item_renamed(orig[i as int], self.items@[i as int], old_path@, nw@));
            i = i + 1;
        }
        let (mut cats, c1) = rename_all(&self.categories, oc.as_slice(), nwc.as_slice());
        category::dedup_preserve_order(&mut cats);
        category::group_categories(&mut cats);
        let (mut arch, c2) = rename_all(&self.archived_categories, oc.as_slice(), nwc.as_slice());
        category::dedup_preserve_order(&mut arch);
        category::group_categories(&mut arch);
        self.categories = cats;
        self.archived_categories = arch;
        proof {
            if store_wf(mid) {
                assert forall|j: int| 0 <= j < mid.items.len() implies (#[trigger] self@.items[j]).id
                    == mid.items[j].id && self@.items[j].order == mid.items[j].order by {
                    assert(item_renamed(orig[j], self.items@[j], old_path@, nw@));
                }
                lemma_same_keys(mid, self@);
            }
        }
        changed || c1 || c2
    }

    /// Drops every done item.
    pub fn clear_done(&mut self)
        ensures
            store_wf(old(self)@) ==> store_wf(final(self)@),
            lists_wf(old(self)@) ==> lists_wf(final(self)@),
            final(self)@ == (TodoDataView { items: not_done(old(self)@.items), ..old(self)@ }),
    {
        proof {
            lemma_not_done_keeps(self@);
        }
        let ghost orig = self.items@;
        let ghost before = self@;
        let n = self.items.len();
        let mut kept: Vec<TodoItem> = Vec::new();
        let mut k: usize = 0;
        while self.items.len() > 0
            invariant
                self.next_id == before.next_id,
                texts(self.categories@) == before.categories,
                texts(self.archived_categories@) == before.archived_categories,
                k + self.items.len() == n,
                orig.len() == n,
                self.items@ == orig.skip(k as int),
                kept@ == not_done(orig.take(k as int)),
            decreases self.items.len(),
        {
            let x = self.items.remove(0);
            assert(orig.take(k + 1).drop_last() =~= orig.take(k as int));
            assert(orig.take(k + 1).last() == x);
            if !x.done {
                kept.push(x);
            }
            k = k + 1;
            assert(self.items@ =~= orig.skip(k as int));
        }
        assert(orig.take(k as int) =~= orig);
        self.items = kept;
    }
}

} // verus!
