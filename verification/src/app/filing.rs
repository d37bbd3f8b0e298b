//! Filing items and branches: the category picker (assign an item, a
//! bulk selection, or move a branch), creating a category, and choosing a
//! category filter.

use vstd::prelude::*;

use crate::data::category::{matches_path, normalize_category, normalized, texts};
use crate::data::laws::lemma_find_same_ids;

use crate::data::{
    category_added, category_renamed, category_set, find_item, lemma_find_item_bounds, listed_categories, opt_text,
    same_but_category, TodoData, TodoDataView,
};
use crate::defs::{CategoryPickerTarget, Mode, Pane};
use crate::text::{chars_of, string_of};
use super::categories::{sidebar_parent, clamp_to, find_last_char, find_row, first_row, last_index, lemma_last_index, moved_to_category, parent_row, path_from_input, root_list};
use super::popups::returned;
use super::App;

verus! {

/// The branch `old` moves to: under `dest` as `dest/leaf`, or to the top
/// as its leaf (the part after its last `/`), both normalized; `None` when
/// `old` or the result normalizes to nothing, when `dest` lies in the
/// branch, or when the move would leave it where it is or put it inside
/// itself. Gives the normalized old path and the new one.
pub open spec fn move_target(old: Seq<char>, dest: Option<Seq<char>>) -> Option<(Seq<char>, Seq<char>)> {
    match normalized(old) {
        None => None,
        Some(o) => {
            let leaf = o.skip(last_index(o, '/') + 1);
            let d = match dest {
                Some(x) => normalized(x),
                None => None,
            };
            let new = match d {
                Some(p) => if matches_path(p, o) {
                    None
                } else {
                    normalized(p + seq!['/'] + leaf)
                },
                None => normalized(leaf),
            };
            match new {
                None => None,
                Some(n) => if n == o || matches_path(n, o) {
                    None
                } else {
                    Some((o, n))
                },
            }
        },
    }
}

/// Whether `b` is `a` after renaming the branch `o` to `n`, `r` telling
/// whether anything lay in it: then the filter and sidebar on the new path
/// and the list marked changed.
pub open spec fn renamed_to(a: App, b: App, o: Seq<char>, n: Seq<char>, r: bool) -> bool {
    &&& category_renamed(a.data@, b.data@, o, n, r)
    &&& if r {
        let k = first_row(b.rows(), n, false);
        &&& b.category_filter matches Some(f) && f@ == n
        &&& b.category_index == (if k >= 0 {
            (k + 1) as usize
        } else {
            a.category_index
        })
        &&& b == (App {
            data: b.data,
            category_filter: b.category_filter,
            category_index: b.category_index,
            dirty: true,
            ..a
        })
    } else {
        b == (App { data: b.data, ..a })
    }
}

/// Whether `b` is `a` after moving the branch `old` to `dest`: nothing when
/// there is no move; else the branch renamed, as `renamed_to` says.
pub open spec fn branch_moved(a: App, b: App, old: Seq<char>, dest: Option<Seq<char>>) -> bool {
    match move_target(old, dest) {
        None => b == a,
        Some((o, n)) => exists|r: bool| #[trigger] renamed_to(a, b, o, n, r),
    }
}

/// Whether `b` is `a` after creating the category `name` and showing it:
/// added to the list, the filter and sidebar on it, the sidebar focused,
/// the line emptied, back to browsing.
pub open spec fn category_created(a: App, b: App, name: Seq<char>) -> bool {
    let k = first_row(b.rows(), name, false);
    &&& b.data@ == category_added(a.data@, name)
    &&& b.category_filter matches Some(f) && f@ == name
    &&& b.category_index == (if k >= 0 {
        (k + 1) as usize
    } else {
        a.category_index
    })
    &&& b.selected_index == clamp_to(a.selected_index as int, b.shown().len() as int)
    &&& b.input@.text.len() == 0
    &&& b == (App {
        data: b.data,
        dirty: true,
        category_filter: b.category_filter,
        category_index: b.category_index,
        pane: Pane::Categories,
        selected_index: b.selected_index,
        input: b.input,
        mode: Mode::Normal,
        ..a
    })
}

/// Whether `w` is `v` with each item of `ids` (the first of that id) filed
/// under the normal form of `c`, all else unchanged.
pub open spec fn filed_all(v: TodoDataView, w: TodoDataView, ids: Seq<u64>, c: Option<Seq<char>>) -> bool {
    &&& w.next_id == v.next_id
    &&& w.categories == v.categories
    &&& w.archived_categories == v.archived_categories
    &&& w.items.len() == v.items.len()
    &&& forall|j: int| 0 <= j < v.items.len() ==> if exists|k: int| 0 <= k < ids.len() && find_item(v.items, #[trigger] ids[k]) == j {
        same_but_category(v.items[j], #[trigger] w.items[j]) && opt_text(w.items[j].category) == match c {
            Some(x) => normalized(x),
            None => None,
        }
    } else {
        w.items[j] == v.items[j]
    }
}

/// Files each item of `ids` under `category`.
pub fn file_all(data: &mut TodoData, ids: &Vec<u64>, category: &Option<String>)
    ensures
        filed_all(old(data)@, final(data)@, ids@, opt_text(*category)),
{
    let ghost v = data@;
    let mut i: usize = 0;
    while i < ids.len()
        invariant
            0 <= i <= ids.len(),
            v == old(data)@,
            filed_all(v, data@, ids@.take(i as int), opt_text(*category)),
        decreases ids.len() - i,
    {
        let ghost w = data@;
        let c = match category {
            Some(s) => Some(s.clone()),
            None => None,
        };
        data.set_category(ids[i], c);
        proof {
            let x = ids@[i as int];
            let t0 = ids@.take(i as int);
            let t1 = ids@.take(i + 1);
            assert forall|j: int| 0 <= j < v.items.len() implies v.items[j].id == w.items[j].id by {}
            lemma_find_same_ids(v.items, w.items, x);
            lemma_find_item_bounds(v.items, x);
            let fx = find_item(v.items, x);
            assert forall|j: int| 0 <= j < v.items.len() implies (if exists|k: int| 0 <= k < t1.len() && find_item(v.items, #[trigger] t1[k]) == j {
                same_but_category(v.items[j], #[trigger] data@.items[j]) && opt_text(data@.items[j].category) == match opt_text(*category) {
                    Some(y) => normalized(y),
                    None => None,
                }
            } else {
                data@.items[j] == v.items[j]
            }) by {
                let in0 = exists|k: int| 0 <= k < t0.len() && find_item(v.items, #[trigger] t0[k]) == j;
                let in1 = exists|k: int| 0 <= k < t1.len() && find_item(v.items, #[trigger] t1[k]) == j;
                if j == fx {
                    assert(t1[i as int] == x);
                    assert(in1);
                } else {
                    if in1 {
                        let k = choose|k: int| 0 <= k < t1.len() && find_item(v.items, #[trigger] t1[k]) == j;
                        assert(k != i);
                        assert(t0[k] == t1[k]);
                        assert(in0);
                    }
                    if in0 {
                        let k = choose|k: int| 0 <= k < t0.len() && find_item(v.items, #[trigger] t0[k]) == j;
                        assert(t1[k] == t0[k]);
                    }
                }
            }
        }
        i = i + 1;
    }
    assert(ids@.take(ids.len() as int) =~= ids@);
}

impl App {
    /// Moves the branch `old_category` to `destination`, as `branch_moved`
    /// says.
    #[verifier::spinoff_prover]
    #[verifier::rlimit(40)]
    pub fn move_category_to(&mut self, old_category: &str, destination: Option<&str>)
        ensures
            branch_moved(
                *old(self),
                *final(self),
                old_category@,
                match destination {
                    Some(d) => Some(d@),
                    None => None,
                },
            ),
    {
        let o = match normalize_category(old_category) {
            Some(o) => o,
            None => return,
        };
        let oc = chars_of(o.as_str());
        let leaf: Vec<char> = match find_last_char(oc.as_slice(), '/') {
            Some(k) => crate::text::sub_chars(oc.as_slice(), k + 1, oc.len()),
            None => crate::text::sub_chars(oc.as_slice(), 0, oc.len()),
        };
        proof {
            lemma_last_index(oc@, '/');
            assert(leaf@ =~= oc@.skip(last_index(oc@, '/') + 1));
        }
        let d = match destination {
            Some(x) => normalize_category(x),
            None => None,
        };
        let new = match d {
            Some(p) => {
                let pc = chars_of(p.as_str());
                if crate::data::category::path_matches(pc.as_slice(), oc.as_slice()) {
                    return;
                }
                let mut joined = pc.clone();
                joined.push('/');
                let ghost base = joined@;
                let mut k: usize = 0;
                while k < leaf.len()
                    invariant
                        0 <= k <= leaf.len(),
                        joined@ == base + leaf@.take(k as int),
                    decreases leaf.len() - k,
                {
                    joined.push(leaf[k]);
                    k = k + 1;
                    assert(joined@ =~= base + leaf@.take(k as int));
                }
                assert(leaf@.take(leaf.len() as int) =~= leaf@);
                assert(joined@ =~= p@ + seq!['/'] + leaf@);
                normalize_category(string_of(joined.as_slice()).as_str())
            },
            None => normalize_category(string_of(leaf.as_slice()).as_str()),
        };
        let n = match new {
            Some(n) => n,
            None => return,
        };
        let nc = chars_of(n.as_str());
        if crate::text::chars_eq(nc.as_slice(), oc.as_slice()) || crate::data::category::path_matches(nc.as_slice(), oc.as_slice()) {
            return;
        }
        let ghost a = *self;
        let renamed = self.data.rename_category(o.as_str(), n.as_str());
        let ghost mid = self.data@;
        if renamed {
            self.category_filter = Some(n.clone());
            let cats = self.category_entries();
            match find_row(&cats, n.as_str(), false) {
                Some(pos) => {
                    self.category_index = pos + 1;
                },
                None => {},
            }
            self.mark_dirty();
        }
        assert(move_target(old_category@, match destination {
            Some(d) => Some(d@),
            None => None,
        }) == Some((o@, n@)));
        proof {
            let dv = match destination {
                Some(d) => Some(d@),
                None => None,
            };
            let t = move_target(old_category@, dv);
            assert(t == Some((o@, n@)));
            let (x, y) = t->0;
            assert(renamed_to(a, *self, x, y, renamed));
            assert(branch_moved(a, *self, old_category@, dv));
        }
    }

    /// Creates the category `name` and shows it, as `category_created`
    /// says.
    pub fn finish_add_category(&mut self, name: String)
        requires
            old(self).today.valid(),
        ensures
            category_created(*old(self), *final(self), name@),
    {
        self.data.add_category(name.as_str());
        self.mark_dirty();
        let cats = self.category_entries();
        match find_row(&cats, name.as_str(), false) {
            Some(pos) => {
                self.category_index = pos + 1;
            },
            None => {},
        }
        self.category_filter = Some(name);
        self.pane = Pane::Categories;
        self.clamp_selection();
        self.input.clear();
        self.mode = Mode::Normal;
    }

    /// Whether `b` is what `switch_pane` leaves of `a`.
    pub open spec fn after_switch_pane(a: App, b: App) -> bool {
        b == (App {
            pane: if a.pane == Pane::Items {
                Pane::Categories
            } else {
                Pane::Items
            },
            ..a
        })
    }

    /// Switches the focus between the item list and the sidebar.
    pub fn switch_pane(&mut self)
        ensures
            Self::after_switch_pane(*old(self), *final(self)),
    {
        self.pane = match self.pane {
            Pane::Items => Pane::Categories,
            Pane::Categories => Pane::Items,
        };
    }

    /// Whether `b` is what `open_category_picker` leaves of `a`.
    pub open spec fn after_open_category_picker(a: App, b: App) -> bool {
        b == (App {
            mode: Mode::CategoryPicker { selected: 0, target: CategoryPickerTarget::AssignItem },
            ..a
        })
    }

    /// Opens the category picker to file the highlighted item.
    pub fn open_category_picker(&mut self)
        ensures
            Self::after_open_category_picker(*old(self), *final(self)),
    {
        self.mode = Mode::CategoryPicker { selected: 0, target: CategoryPickerTarget::AssignItem };
    }

    /// Whether `b` is what `open_category_move_picker` leaves of `a`.
    pub open spec fn after_open_category_move_picker(a: App, b: App, category: String) -> bool {
        &&& b.mode == (Mode::CategoryPicker {
                selected: 0,
                target: CategoryPickerTarget::MoveCategory(category),
            })
        &&& b.input@.text.len() == 0
        &&& match a.mode {
                Mode::Command { .. } => b.popup_back_stack@.len() == a.popup_back_stack@.len() + 1
                    && b.popup_back_stack@.drop_last() == a.popup_back_stack@,
                _ => b.popup_back_stack == a.popup_back_stack,
            }
        &&& b == (App {
                mode: b.mode,
                input: b.input,
                popup_back_stack: b.popup_back_stack,
                ..a
            })
    }

    /// Opens the category picker to move the branch `category`, recording
    /// the palette to go back to when it was opened from there.
    pub fn open_category_move_picker(&mut self, category: String)
        ensures
            Self::after_open_category_move_picker(*old(self), *final(self), category),
    {
        self.push_command_popup_back_target("move");
        self.input.clear();
        self.mode = Mode::CategoryPicker { selected: 0, target: CategoryPickerTarget::MoveCategory(category) };
    }

    /// Whether `b` is what `category_filter_select` leaves of `a`.
    pub open spec fn after_category_filter_select(a: App, b: App, idx: usize) -> bool {
        &&& moved_to_category(
                a,
                App { pane: a.pane, mode: a.mode, ..b },
                idx as int,
            )
        &&& b.pane == Pane::Items
        &&& b.mode is Normal
    }

    /// Points the sidebar at row `idx` from the category filter picker and
    /// goes back to browsing the items.
    pub fn category_filter_select(&mut self, idx: usize)
        requires
            old(self).today.valid(),
        ensures
            Self::after_category_filter_select(*old(self), *final(self), idx),
    {
        self.set_category_index(idx);
        self.pane = Pane::Items;
        self.mode = Mode::Normal;
    }

    /// Whether `b` is what `category_filter_parent` leaves of `a`.
    pub open spec fn after_category_filter_parent(a: App, b: App, idx: usize) -> bool {
        b == (App {
            mode: Mode::CategoryFilterPicker { selected: parent_row(a.rows(), idx as int) as usize },
            ..a
        })
    }

    /// In the category filter picker, highlights the row that backing out
    /// of row `idx` goes to.
    pub fn category_filter_parent(&mut self, idx: usize)
        ensures
            Self::after_category_filter_parent(*old(self), *final(self), idx),
    {
        let p = self.parent_category_index_for(idx);
        self.mode = Mode::CategoryFilterPicker { selected: p };
    }

    /// Whether `b` is what `start_category_add_with_char` leaves of `a`.
    pub open spec fn after_start_category_add_with_char(a: App, b: App, c: char) -> bool {
        &&& b.input@.text == seq![c]
        &&& b == (App { input: b.input, mode: Mode::CategoryAdd { parent: None }, ..a })
    }

    /// Starts typing a new category name with `c`.
    pub fn start_category_add_with_char(&mut self, c: char)
        ensures
            Self::after_start_category_add_with_char(*old(self), *final(self), c),
    {
        self.input.clear();
        self.input.insert_char(c);
        assert(self.input@.text =~= seq![c]);
        self.mode = Mode::CategoryAdd { parent: None };
    }

    /// Whether `b` is what `cancel_category_add` leaves of `a`.
    pub open spec fn after_cancel_category_add(a: App, b: App) -> bool {
        &&& b.input@.text.len() == 0
        &&& b == (App { input: b.input, mode: Mode::Normal, ..a })
    }

    /// Leaves the category name prompt.
    pub fn cancel_category_add(&mut self)
        ensures
            Self::after_cancel_category_add(*old(self), *final(self)),
    {
        self.input.clear();
        self.mode = Mode::Normal;
    }

    /// Whether `b` is what `delete_category_action` leaves of `a`.
    pub open spec fn after_delete_category_action(a: App, b: App, name: String) -> bool {
        &&& b.mode matches Mode::ConfirmDelete { ids, category_names, .. } && ids@ == super::bulk::cascade(
                Seq::empty(),
                a.data@.items,
                seq![name@],
            ) && texts(category_names@) == seq![name@]
        &&& b == (App { mode: b.mode, ..a })
    }

    /// Asks to delete the branch `name` with its items.
    pub fn delete_category_action(&mut self, name: String)
        ensures
            Self::after_delete_category_action(*old(self), *final(self), name),
    {
        let ghost nv = name@;
        let names = vec![name];
        assert(texts(names@) =~= seq![nv]);
        let ids: Vec<u64> = Vec::new();
        assert(ids@ =~= Seq::<u64>::empty());
        self.mode = self.build_confirm_delete_mode(ids, names);
    }
}

/// `b` with the fields that leaving a secondary mode sets taken from `a`:
/// the state just before going back.
pub open spec fn before_return(a: App, b: App) -> App {
    App {
        saved_search: a.saved_search,
        input: a.input,
        filter: a.filter,
        mode: a.mode,
        selected_index: a.selected_index,
        ..b
    }
}

/// The path at row `idx` of a picker listing `s` after a first "none" row.
pub open spec fn picked(s: Seq<Seq<char>>, idx: int) -> Option<Seq<char>> {
    if idx == 0 || idx > s.len() {
        None
    } else {
        Some(s[idx - 1])
    }
}

impl App {
    /// Whether `b` is what `category_select` leaves of `a`.
    pub open spec fn after_category_select(a: App, b: App, idx: usize) -> bool {
        match a.mode {
            Mode::CategoryPicker { target, .. } => {
                let closed = App { mode: Mode::Normal, ..a };
                let mid = before_return(closed, b);
                &&& returned(mid, b)
                &&& match target {
                    CategoryPickerTarget::AssignItem => match a.selected_id() {
                        Some(id) => {
                            &&& category_set(a.data@, mid.data@, id, picked(a.cats(), idx as int))
                            &&& mid == (App { data: mid.data, dirty: true, ..closed })
                        },
                        None => mid == closed,
                    },
                    CategoryPickerTarget::MoveCategory(o) => branch_moved(
                        closed,
                        mid,
                        o@,
                        picked(root_list(a.cats()), idx as int),
                    ),
                    CategoryPickerTarget::AssignBulk(ids) => {
                        &&& filed_all(a.data@, mid.data@, ids@, picked(a.cats(), idx as int))
                        &&& mid == (App { data: mid.data, dirty: true, ..closed })
                    },
                }
            },
            _ => {
                &&& moved_to_category(a, App { pane: a.pane, mode: a.mode, ..b }, idx as int)
                &&& b.pane == Pane::Items
                &&& b.mode is Normal
            },
        }
    }

    /// Carries out row `idx` of the category picker (row 0 being "none"):
    /// file the highlighted item or the bulk selection under that category,
    /// or move the branch under that top-level category; then goes back to
    /// the previous mode. Outside the picker, points the sidebar at row
    /// `idx` and goes back to browsing the items.
    pub fn category_select(&mut self, idx: usize)
        requires
            old(self).today.valid(),
        ensures
            Self::after_category_select(*old(self), *final(self), idx),
    {
        let mut mode = Mode::Normal;
        std::mem::swap(&mut self.mode, &mut mode);
        let target = match mode {
            Mode::CategoryPicker { target, .. } => target,
            other => {
                self.mode = other;
                self.set_category_index(idx);
                self.pane = Pane::Items;
                self.mode = Mode::Normal;
                return;
            },
        };
        let cats = self.categories();
        let category: Option<String> = if idx == 0 || idx > cats.len() {
            None
        } else {
            Some(cats[idx - 1].clone())
        };
        proof {
            if !(idx == 0 || idx > cats.len()) {
                assert(texts(cats@)[idx - 1] == cats@[idx - 1]@);
            }
        }
        match target {
            CategoryPickerTarget::AssignItem => {
                match self.selected_item_id() {
                    Some(id) => {
                        self.data.set_category(id, category);
                        self.mark_dirty();
                    },
                    None => {},
                }
            },
            CategoryPickerTarget::MoveCategory(old_category) => {
                let roots = self.root_categories();
                if idx == 0 || idx > roots.len() {
                    self.move_category_to(old_category.as_str(), None);
                } else {
                    proof {
                        assert(texts(roots@)[idx - 1] == roots@[idx - 1]@);
                    }
                    self.move_category_to(old_category.as_str(), Some(roots[idx - 1].as_str()));
                }
            },
            CategoryPickerTarget::AssignBulk(bulk_ids) => {
                file_all(&mut self.data, &bulk_ids, &category);
                self.mark_dirty();
            },
        }
        self.return_after_secondary_mode();
    }

    /// Whether `b` is what `cancel_category_picker` leaves of `a`.
    pub open spec fn after_cancel_category_picker(a: App, b: App) -> bool {
        returned(a, b)
    }

    /// Leaves the category picker.
    pub fn cancel_category_picker(&mut self)
        requires
            old(self).today.valid(),
        ensures
            Self::after_cancel_category_picker(*old(self), *final(self)),
    {
        self.return_after_secondary_mode();
    }
}

impl App {
    /// Whether `b` is what `add_category_action` leaves of `a`.
    pub open spec fn after_add_category_action(a: App, b: App, name: String) -> bool {
        match normalized(name@) {
            None => b.input@.text.len() == 0 && b == (App {
                input: b.input,
                mode: Mode::Normal,
                ..a
            }),
            Some(n) => if listed_categories(a.data@, false).len() == 0 {
                category_created(a, b, n)
            } else {
                &&& b.mode matches Mode::CategoryCreateChoice { selected, parent, name: nm } && selected
                    == 0 && opt_text(parent) == sidebar_parent(a) && nm@ == name@
                &&& b.input@.text.len() == 0
                &&& b == (App { input: b.input, mode: b.mode, ..a })
            },
        }
    }

    /// Takes the typed category name: nothing to do for a name that
    /// normalizes to nothing; with no category yet, creates it at once;
    /// otherwise asks where to put it, offering the highlighted row's
    /// top-level category as parent.
    pub fn add_category_action(&mut self, name: String)
        requires
            old(self).today.valid(),
        ensures
            Self::after_add_category_action(*old(self), *final(self), name),
    {
        match normalize_category(name.as_str()) {
            Some(n) => {
                self.input.clear();
                let active = self.data.categories();
                if active.len() == 0 {
                    self.finish_add_category(n);
                } else {
                    let parent = self.current_category_parent();
                    self.mode = Mode::CategoryCreateChoice { selected: 0, parent, name };
                }
            },
            None => {
                self.input.clear();
                self.mode = Mode::Normal;
            },
        }
    }

    /// Creates the category that `name` names under `parent`, or goes back
    /// to browsing when it names nothing.
    fn create_from_input(&mut self, parent: Option<&str>, name: &str)
        requires
            old(self).today.valid(),
        ensures
            match path_from_input(
                match parent {
                    Some(p) => Some(p@),
                    None => None,
                },
                name@,
            ) {
                Some(x) => category_created(*old(self), *final(self), x),
                None => *final(self) == (App { mode: Mode::Normal, ..*old(self) }),
            },
    {
        match Self::category_from_input(parent, name) {
            Some(x) => self.finish_add_category(x),
            None => {
                self.mode = Mode::Normal;
            },
        }
    }

    /// Whether `b` is what `add_category_choice` leaves of `a`.
    pub open spec fn after_add_category_choice(a: App, b: App, choice: usize) -> bool {
        match a.mode {
            Mode::CategoryCreateChoice { selected, parent, name } => {
                let c = if choice == usize::MAX {
                    selected
                } else {
                    choice
                };
                let closed = App { mode: Mode::Normal, ..a };
                if c == 0 && parent is Some {
                    match path_from_input(opt_text(parent), name@) {
                        Some(x) => category_created(closed, b, x),
                        None => b == closed,
                    }
                } else if c == 0 && root_list(a.cats()).len() > 0 {
                    &&& b.mode matches Mode::CategoryParentPicker { selected: s, name: nm } && s == 0
                        && nm == name
                    &&& b == (App { mode: b.mode, ..a })
                } else {
                    match path_from_input(None, name@) {
                        Some(x) => category_created(closed, b, x),
                        None => b == closed,
                    }
                }
            },
            _ => b == (App { mode: Mode::Normal, ..a }),
        }
    }

    /// Answers where the new category goes: row 0 under a parent (the one
    /// offered, or one to pick when there are top-level categories), row 1
    /// at the top; `usize::MAX` takes the highlighted row.
    pub fn add_category_choice(&mut self, choice: usize)
        requires
            old(self).today.valid(),
        ensures
            Self::after_add_category_choice(*old(self), *final(self), choice),
    {
        let mut mode = Mode::Normal;
        std::mem::swap(&mut self.mode, &mut mode);
        let (selected, parent, name) = match mode {
            Mode::CategoryCreateChoice { selected, parent, name } => (selected, parent, name),
            _ => return,
        };
        let c = if choice == usize::MAX {
            selected
        } else {
            choice
        };
        if c == 0 {
            match &parent {
                Some(p) => {
                    self.create_from_input(Some(p.as_str()), name.as_str());
                    return;
                },
                None => {},
            }
            let roots = self.root_categories();
            if roots.len() > 0 {
                self.mode = Mode::CategoryParentPicker { selected: 0, name };
                return;
            }
        }
        self.create_from_input(None, name.as_str());
    }

    /// Whether `b` is what `select_category_parent` leaves of `a`.
    pub open spec fn after_select_category_parent(a: App, b: App, idx: usize) -> bool {
        ({
            let (i, name) = match a.mode {
                Mode::CategoryParentPicker { selected, name } => (
                    if idx == usize::MAX {
                        selected
                    } else {
                        idx
                    },
                    name@,
                ),
                _ => (idx, Seq::empty()),
            };
            let roots = root_list(a.cats());
            if i < roots.len() {
                match path_from_input(Some(roots[i as int]), name) {
                    Some(x) => category_created(a, b, x),
                    None => b == (App { mode: Mode::Normal, ..a }),
                }
            } else {
                b == (App { mode: Mode::Normal, ..a })
            }
        })
    }

    /// Creates the new category under the top-level category at row `idx`
    /// of the parent picker (`usize::MAX` takes the highlighted row); a row
    /// past the list goes back to browsing.
    pub fn select_category_parent(&mut self, idx: usize)
        requires
            old(self).today.valid(),
        ensures
            Self::after_select_category_parent(*old(self), *final(self), idx),
    {
        let roots = self.root_categories();
        let (i, name) = match &self.mode {
            Mode::CategoryParentPicker { selected, name } => (
                if idx == usize::MAX {
                    *selected
                } else {
                    idx
                },
                name.clone(),
            ),
            _ => (idx, String::new()),
        };
        if i < roots.len() {
            proof {
                assert(texts(roots@)[i as int] == roots@[i as int]@);
            }
            self.create_from_input(Some(roots[i].as_str()), name.as_str());
        } else {
            self.mode = Mode::Normal;
        }
    }

    /// Whether `b` is what `create_and_assign_category` leaves of `a`.
    pub open spec fn after_create_and_assign_category(a: App, b: App, name: String) -> bool {
        match normalized(name@) {
            None => returned(a, b),
            Some(n) => {
                let mid = before_return(a, b);
                let rows = crate::data::sidebar::rows_from(listed_categories(mid.data@, false), 0);
                let k = first_row(rows, n, false);
                &&& returned(mid, b)
                &&& (match a.selected_id() {
                    Some(id) => category_set(a.data@, mid.data@, id, Some(n)) && mid.dirty,
                    None => mid.data == a.data && mid.dirty == a.dirty,
                })
                &&& mid.category_filter matches Some(f) && f@ == n
                &&& mid.category_index == (if k >= 0 {
                    (k + 1) as usize
                } else if rows.len() < usize::MAX {
                    (rows.len() + 1) as usize
                } else {
                    rows.len() as usize
                })
                &&& mid == (App {
                    data: mid.data,
                    dirty: mid.dirty,
                    category_filter: mid.category_filter,
                    category_index: mid.category_index,
                    ..a
                })
            },
        }
    }

    /// Files the highlighted item under the typed category `name` and
    /// filters by it (pointing the sidebar at it, or past the rows when it
    /// is not listed yet); then goes back to the previous mode. A name that
    /// normalizes to nothing only goes back.
    pub fn create_and_assign_category(&mut self, name: String)
        requires
            old(self).today.valid(),
        ensures
            Self::after_create_and_assign_category(*old(self), *final(self), name),
    {
        let id = self.selected_item_id();
        let n = match normalize_category(name.as_str()) {
            Some(n) => n,
            None => {
                self.return_after_secondary_mode();
                return;
            },
        };
        match id {
            Some(id) => {
                self.data.set_category(id, Some(n.clone()));
                self.mark_dirty();
            },
            None => {},
        }
        self.category_filter = Some(n.clone());
        let cats = self.data.category_entries();
        match find_row(&cats, n.as_str(), false) {
            Some(pos) => {
                self.category_index = pos + 1;
            },
            None => {
                self.category_index = if cats.len() < usize::MAX {
                    cats.len() + 1
                } else {
                    cats.len()
                };
            },
        }
        self.return_after_secondary_mode();
    }
}

} // verus!
