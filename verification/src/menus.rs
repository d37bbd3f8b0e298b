//! The fixed lists the pickers show: themes, sort orders, bulk actions and
//! archive actions.

use vstd::prelude::*;

use crate::defs::SortMode;
use crate::text::{chars_of, chars_eq};

verus! {

/// `(name, is_light)` of every theme, the light ones first.
pub open spec fn theme_table() -> Seq<(&'static str, bool)> {
    seq![
        ("catppuccin-latte", true),
        ("gruvbox-light", true),
        ("one-light", true),
        ("solarized-light", true),
        ("catppuccin-mocha", false),
        ("dracula", false),
        ("gruvbox", false),
        ("nord", false),
        ("one-dark", false),
    ]
}

/// `(name, is_light)` of every theme, ordered so that all light themes come
/// before the dark ones.
pub fn theme_registry() -> (r: Vec<(&'static str, bool)>)
    ensures
        r@ == theme_table(),
{
    vec![
        ("catppuccin-latte", true),
        ("gruvbox-light", true),
        ("one-light", true),
        ("solarized-light", true),
        ("catppuccin-mocha", false),
        ("dracula", false),
        ("gruvbox", false),
        ("nord", false),
        ("one-dark", false),
    ]
}

/// The theme names, in picker order.
pub fn theme_names() -> (r: Vec<&'static str>)
    ensures
        r@.len() == theme_table().len(),
        forall|i: int| 0 <= i < r@.len() ==> #[trigger] r@[i] == theme_table()[i].0,
{
    let table = theme_registry();
    let mut out: Vec<&'static str> = Vec::new();
    let mut i: usize = 0;
    while i < table.len()
        invariant
            0 <= i <= table.len(),
            table@ == theme_table(),
            out@.len() == i,
            forall|j: int| 0 <= j < i ==> #[trigger] out@[j] == theme_table()[j].0,
        decreases table.len() - i,
    {
        out.push(table[i].0);
        i = i + 1;
    }
    out
}

/// Picker position of the theme named `name`; 0 for an unknown name.
pub open spec fn theme_index(name: Seq<char>) -> int {
    if exists|i: int| 0 <= i < theme_table().len() && #[trigger] theme_table()[i].0@ == name {
        choose|i: int|
            0 <= i < theme_table().len() && #[trigger] theme_table()[i].0@ == name && forall|j: int|
                0 <= j < i ==> theme_table()[j].0@ != name
    } else {
        0
    }
}

/// Picker position of the theme named `name`; 0 for an unknown name.
pub fn theme_index_by_name(name: &str) -> (r: usize)
    ensures
        r < theme_table().len(),
        (exists|i: int| 0 <= i < theme_table().len() && #[trigger] theme_table()[i].0@ == name@)
            ==> theme_table()[r as int].0@ == name@ && forall|j: int|
            0 <= j < r ==> theme_table()[j].0@ != name@,
        !(exists|i: int| 0 <= i < theme_table().len() && #[trigger] theme_table()[i].0@ == name@)
            ==> r == 0,
{
    let names = theme_names();
    let nc = chars_of(name);
    let mut i: usize = 0;
    while i < names.len()
        invariant
            0 <= i <= names.len(),
            names@.len() == theme_table().len(),
            forall|k: int| 0 <= k < names@.len() ==> #[trigger] names@[k] == theme_table()[k].0,
            nc@ == name@,
            forall|j: int| 0 <= j < i ==> theme_table()[j].0@ != name@,
        decreases names.len() - i,
    {
        let cc = chars_of(names[i]);
        if chars_eq(cc.as_slice(), nc.as_slice()) {
            return i;
        }
        i = i + 1;
    }
    0
}

/// The sort order at a position of the sort picker.
pub open spec fn sort_at(idx: int) -> Option<SortMode> {
    if idx == 0 {
        Some(SortMode::Default)
    } else if idx == 1 {
        Some(SortMode::DueDate)
    } else if idx == 2 {
        Some(SortMode::Priority)
    } else {
        None
    }
}

/// The sort order at a position of the sort picker: default, due date,
/// priority.
pub fn sort_by_index(idx: usize) -> (r: Option<SortMode>)
    ensures
        r == sort_at(idx as int),
{
    match idx {
        0 => Some(SortMode::Default),
        1 => Some(SortMode::DueDate),
        2 => Some(SortMode::Priority),
        _ => None,
    }
}

/// Position of a sort order in the sort picker.
pub fn sort_index(mode: SortMode) -> (r: usize)
    ensures
        sort_at(r as int) == Some(mode),
{
    match mode {
        SortMode::Default => 0,
        SortMode::DueDate => 1,
        SortMode::Priority => 2,
    }
}

/// The bulk actions offered, in alphabetical order; `Edit` and `Notes`
/// only for a single item.
pub open spec fn bulk_labels(single_item: bool) -> Seq<&'static str> {
    if single_item {
        seq!["Archive", "Assign category", "Delete", "Edit", "Notes", "Toggle done"]
    } else {
        seq!["Archive", "Assign category", "Delete", "Toggle done"]
    }
}

/// The bulk actions offered, in alphabetical order; `Edit` and `Notes`
/// only for a single item.
pub fn bulk_action_labels(single_item: bool) -> (r: Vec<&'static str>)
    ensures
        r@ == bulk_labels(single_item),
{
    if single_item {
        vec!["Archive", "Assign category", "Delete", "Edit", "Notes", "Toggle done"]
    } else {
        vec!["Archive", "Assign category", "Delete", "Toggle done"]
    }
}

/// The entries of the archive picker.
pub open spec fn archive_labels() -> Seq<&'static str> {
    seq![
        "Archive one",
        "Archive bulk",
        "Archive done",
        "Archive all",
        "Restore one",
        "Restore bulk",
        "Restore all",
        "Archived view",
    ]
}

/// The entries of the archive picker.
pub fn archive_picker_labels() -> (r: Vec<&'static str>)
    ensures
        r@ == archive_labels(),
{
    vec![
        "Archive one",
        "Archive bulk",
        "Archive done",
        "Archive all",
        "Restore one",
        "Restore bulk",
        "Restore all",
        "Archived view",
    ]
}

/// Reading the position of a sort order back gives the same sort order.
pub proof fn law_sort_index_round_trip(mode: SortMode)
    ensures
        sort_at(match mode {
            SortMode::Default => 0,
            SortMode::DueDate => 1,
            SortMode::Priority => 2,
        }) == Some(mode),
{
}

} // verus!
