//! The command palette: the commands it knows, the ones it lists, how a
//! typed prefix filters them and how the input resolves to a command.

use vstd::prelude::*;

use crate::text::{ascii_lower, char_is_whitespace, chars_eq, chars_have_whitespace, chars_of, chars_starts_with, is_ws, lowercase, starts_with, str_to_lowercase, string_of, trim, trim_chars};

verus! {

/// Every command the palette accepts, aliases included.
pub open spec fn known_commands() -> Seq<(&'static str, &'static str)> {
    seq![
        ("archive", "Archive items/categories (done, all, restore)"),
        ("archived", "Toggle archived view"),
        ("clear", "Clear completed items"),
        ("c", "Alias for clear"),
        ("delete", "Bulk delete items"),
        ("done", "Bulk toggle done"),
        ("due", "Filter due dates"),
        ("d", "Alias for delete"),
        ("filter", "Filter items (due, priority, category, archived)"),
        ("help", "Show help"),
        ("keybindings", "Show keybindings"),
        ("k", "Alias for keybindings"),
        ("categories", "Filter by category"),
        ("cat", "Alias for categories"),
        ("move", "Move selected item/category"),
        ("m", "Alias for move"),
        ("notes", "Notes on the selected item"),
        ("n", "Alias for notes"),
        ("priorities", "Filter by priority"),
        ("p", "Alias for priorities"),
        ("rename", "Rename category path"),
        ("reset", "Clear all filters and restore default view"),
        ("sidebar", "Resize sidebar width (Left/Right, Enter save, Esc cancel)"),
        ("search", "Filter items by text"),
        ("s", "Alias for search"),
        ("select", "Bulk-select items and choose an action"),
        ("sort", "Sort items (priority/due/default)"),
        ("themes", "List available themes"),
        ("unarchive", "Restore archived item/all visible"),
        ("x", "Alias for done"),
    ]
}

/// The commands the palette lists, parents and their subcommands. The
/// `notes` display arguments are left out so that `notes` + Enter opens the
/// log at once.
pub open spec fn visible_commands() -> Seq<(&'static str, &'static str)> {
    seq![
        ("archive", "Archive or restore items/categories"),
        ("archive one", "Archive selected item/category"),
        ("archive bulk", "Bulk-select items/categories to archive"),
        ("archive done", "Archive completed items"),
        ("archive all", "Archive all visible items/categories"),
        ("archive restore", "Restore selected archived item/category"),
        ("archive restore bulk", "Bulk-select archived items/categories to restore"),
        ("archive restore all", "Restore all visible archived items/categories"),
        ("archive archived", "Toggle archived view"),
        ("clear", "Clear completed items"),
        ("delete", "Bulk delete items/categories"),
        ("done", "Bulk toggle done"),
        ("filter", "Filter items"),
        ("filter archived", "Toggle archived view"),
        ("filter category", "Open category filter picker"),
        ("filter due", "Open due-date filter picker"),
        ("filter priority", "Open priority filter picker"),
        ("filter clear", "Clear all filters"),
        ("help", "Show help"),
        ("keybindings", "Show keybindings"),
        ("move", "Move selected item/category"),
        ("notes", "Notes on the selected item"),
        ("rename", "Rename category path"),
        ("reset", "Clear all filters"),
        ("sidebar", "Resize sidebar width"),
        ("search", "Filter items by text"),
        ("select", "Bulk-select items and choose an action"),
        ("sort", "Sort items"),
        ("sort default", "Restore default sort"),
        ("sort due", "Sort by due date"),
        ("sort priority", "Sort by priority"),
        ("themes", "List available themes"),
    ]
}

/// Every command the palette accepts, aliases included, with its help text.
pub fn commands() -> (r: Vec<(&'static str, &'static str)>)
    ensures
        r@ == known_commands(),
{
    vec![
        ("archive", "Archive items/categories (done, all, restore)"),
        ("archived", "Toggle archived view"),
        ("clear", "Clear completed items"),
        ("c", "Alias for clear"),
        ("delete", "Bulk delete items"),
        ("done", "Bulk toggle done"),
        ("due", "Filter due dates"),
        ("d", "Alias for delete"),
        ("filter", "Filter items (due, priority, category, archived)"),
        ("help", "Show help"),
        ("keybindings", "Show keybindings"),
        ("k", "Alias for keybindings"),
        ("categories", "Filter by category"),
        ("cat", "Alias for categories"),
        ("move", "Move selected item/category"),
        ("m", "Alias for move"),
        ("notes", "Notes on the selected item"),
        ("n", "Alias for notes"),
        ("priorities", "Filter by priority"),
        ("p", "Alias for priorities"),
        ("rename", "Rename category path"),
        ("reset", "Clear all filters and restore default view"),
        ("sidebar", "Resize sidebar width (Left/Right, Enter save, Esc cancel)"),
        ("search", "Filter items by text"),
        ("s", "Alias for search"),
        ("select", "Bulk-select items and choose an action"),
        ("sort", "Sort items (priority/due/default)"),
        ("themes", "List available themes"),
        ("unarchive", "Restore archived item/all visible"),
        ("x", "Alias for done"),
    ]
}

fn visible_table() -> (r: Vec<(&'static str, &'static str)>)
    ensures
        r@ == visible_commands(),
{
    vec![
        ("archive", "Archive or restore items/categories"),
        ("archive one", "Archive selected item/category"),
        ("archive bulk", "Bulk-select items/categories to archive"),
        ("archive done", "Archive completed items"),
        ("archive all", "Archive all visible items/categories"),
        ("archive restore", "Restore selected archived item/category"),
        ("archive restore bulk", "Bulk-select archived items/categories to restore"),
        ("archive restore all", "Restore all visible archived items/categories"),
        ("archive archived", "Toggle archived view"),
        ("clear", "Clear completed items"),
        ("delete", "Bulk delete items/categories"),
        ("done", "Bulk toggle done"),
        ("filter", "Filter items"),
        ("filter archived", "Toggle archived view"),
        ("filter category", "Open category filter picker"),
        ("filter due", "Open due-date filter picker"),
        ("filter priority", "Open priority filter picker"),
        ("filter clear", "Clear all filters"),
        ("help", "Show help"),
        ("keybindings", "Show keybindings"),
        ("move", "Move selected item/category"),
        ("notes", "Notes on the selected item"),
        ("rename", "Rename category path"),
        ("reset", "Clear all filters"),
        ("sidebar", "Resize sidebar width"),
        ("search", "Filter items by text"),
        ("select", "Bulk-select items and choose an action"),
        ("sort", "Sort items"),
        ("sort default", "Restore default sort"),
        ("sort due", "Sort by due date"),
        ("sort priority", "Sort by priority"),
        ("themes", "List available themes"),
    ]
}

/// Whether some character of `s` is whitespace.
pub open spec fn has_ws(s: Seq<char>) -> bool {
    exists|j: int| 0 <= j < s.len() && is_ws(#[trigger] s[j])
}

/// Whether the palette lists the command `name` for the typed text:
/// with nothing typed, the parent commands; when the typing holds a space,
/// the subcommands it prefixes; otherwise the parents it prefixes.
pub open spec fn listed_for(name: Seq<char>, lower: Seq<char>, sub_context: bool) -> bool {
    if lower.len() == 0 {
        !has_ws(name)
    } else if sub_context {
        has_ws(name) && starts_with(name, lower)
    } else {
        !has_ws(name) && starts_with(name, lower)
    }
}

/// The entries of `table` that the palette lists, in order.
pub open spec fn filter_table(
    table: Seq<(&'static str, &'static str)>,
    lower: Seq<char>,
    sub_context: bool,
) -> Seq<(&'static str, &'static str)>
    decreases table.len(),
{
    if table.len() == 0 {
        Seq::empty()
    } else {
        let p = filter_table(table.drop_last(), lower, sub_context);
        if listed_for(table.last().0@, lower, sub_context) {
            p.push(table.last())
        } else {
            p
        }
    }
}

/// The listed commands for the typed `prefix`: it is trimmed and
/// lower-cased before it is compared.
pub open spec fn filtered_commands(prefix: Seq<char>) -> Seq<(&'static str, &'static str)> {
    filter_table(visible_commands(), lowercase(trim(prefix)), has_ws(prefix))
}

/// Whether `s` holds a whitespace character.
pub fn contains_whitespace(value: &str) -> (r: bool)
    ensures
        r == has_ws(value@),
{
    let cs = chars_of(value);
    chars_have_whitespace(cs.as_slice())
}

/// Whether the last character of `value` is whitespace.
pub fn ends_with_whitespace(value: &str) -> (r: bool)
    ensures
        r == (value@.len() > 0 && is_ws(value@.last())),
{
    let cs = chars_of(value);
    cs.len() > 0 && char_is_whitespace(cs[cs.len() - 1])
}

/// The palette entries listed for the typed `prefix`.
pub fn get_filtered_commands(prefix: &str) -> (r: Vec<(&'static str, &'static str)>)
    ensures
        r@ == filtered_commands(prefix@),
{
    let cs = chars_of(prefix);
    let t = trim_chars(cs.as_slice());
    let ts = string_of(t.as_slice());
    let lower_s = str_to_lowercase(ts.as_str());
    let lower = chars_of(lower_s.as_str());
    let sub = chars_have_whitespace(cs.as_slice());
    let table = visible_table();
    let mut out: Vec<(&'static str, &'static str)> = Vec::new();
    let mut i: usize = 0;
    while i < table.len()
        invariant
            0 <= i <= table.len(),
            table@ == visible_commands(),
            lower@ == lowercase(trim(prefix@)),
            sub == has_ws(prefix@),
            out@ == filter_table(table@.take(i as int), lower@, sub),
        decreases table.len() - i,
    {
        let (name, help) = table[i];
        let nc = chars_of(name);
        let is_sub = chars_have_whitespace(nc.as_slice());
        let keep = if lower.len() == 0 {
            !is_sub
        } else if sub {
            is_sub && chars_starts_with(nc.as_slice(), lower.as_slice())
        } else {
            !is_sub && chars_starts_with(nc.as_slice(), lower.as_slice())
        };
        assert(table@.take(i + 1).drop_last() =~= table@.take(i as int));
        assert(table@.take(i + 1).last() == (name, help));
        if keep {
            out.push((name, help));
        }
        i = i + 1;
    }
    assert(table@.take(table.len() as int) =~= table@);
    out
}

/// Whether some listed subcommand begins with `command` and a space.
pub open spec fn has_subcommands(command: Seq<char>) -> bool {
    exists|j: int|
        0 <= j < visible_commands().len() && starts_with(
            #[trigger] visible_commands()[j].0@,
            command.push(' '),
        )
}

/// Whether the palette lists subcommands of `command`.
pub fn has_visible_subcommands(command: &str) -> (r: bool)
    ensures
        r == has_subcommands(command@),
{
    let mut prefix = chars_of(command);
    prefix.push(' ');
    let table = visible_table();
    let mut i: usize = 0;
    while i < table.len()
        invariant
            0 <= i <= table.len(),
            table@ == visible_commands(),
            prefix@ == command@.push(' '),
            forall|j: int| 0 <= j < i ==> !starts_with(#[trigger] table@[j].0@, command@.push(' ')),
        decreases table.len() - i,
    {
        let nc = chars_of(table[i].0);
        if chars_starts_with(nc.as_slice(), prefix.as_slice()) {
            assert(starts_with(visible_commands()[i as int].0@, command@.push(' ')));
            return true;
        }
        i = i + 1;
    }
    false
}

/// What the Tab key offers for `name`: parents with subcommands get a
/// trailing space, so completing one enters its subcommands.
pub open spec fn completion(name: Seq<char>) -> Seq<char> {
    if !has_ws(name) && has_subcommands(name) {
        name.push(' ')
    } else {
        name
    }
}

/// The completions offered for the typed `prefix`, in palette order.
pub fn get_completions(prefix: &str) -> (r: Vec<String>)
    ensures
        r@.len() == filtered_commands(prefix@).len(),
        forall|i: int|
            0 <= i < r@.len() ==> #[trigger] r@[i]@ == completion(filtered_commands(prefix@)[i].0@),
{
    let matches = get_filtered_commands(prefix);
    let mut out: Vec<String> = Vec::new();
    let mut i: usize = 0;
    while i < matches.len()
        invariant
            0 <= i <= matches.len(),
            matches@ == filtered_commands(prefix@),
            out@.len() == i,
            forall|j: int| 0 <= j < i ==> #[trigger] out@[j]@ == completion(matches@[j].0@),
        decreases matches.len() - i,
    {
        let name = matches[i].0;
        let mut nc = chars_of(name);
        if !chars_have_whitespace(nc.as_slice()) && has_visible_subcommands(name) {
            nc.push(' ');
        }
        out.push(string_of(nc.as_slice()));
        i = i + 1;
    }
    out
}

/// Whether two texts are equal once ASCII letters are lower-cased, as
/// `str::eq_ignore_ascii_case` decides.
pub open spec fn eq_ignore_ascii_case(a: Seq<char>, b: Seq<char>) -> bool {
    a.len() == b.len() && forall|i: int| 0 <= i < a.len() ==> ascii_lower(a[i]) == ascii_lower(b[i])
}

fn lower_ascii_char(c: char) -> (r: char)
    ensures
        r == ascii_lower(c),
{
    if 'A' <= c && c <= 'Z' {
        let b: u8 = (c as u32 + 32) as u8;
        b as char
    } else {
        c
    }
}

fn chars_eq_ignore_ascii_case(a: &[char], b: &[char]) -> (r: bool)
    ensures
        r == eq_ignore_ascii_case(a@, b@),
{
    if a.len() != b.len() {
        return false;
    }
    let mut i: usize = 0;
    while i < a.len()
        invariant
            a.len() == b.len(),
            0 <= i <= a.len(),
            forall|j: int| 0 <= j < i ==> ascii_lower(a@[j]) == ascii_lower(b@[j]),
        decreases a.len() - i,
    {
        if lower_ascii_char(a[i]) != lower_ascii_char(b[i]) {
            return false;
        }
        i = i + 1;
    }
    true
}

/// Whether `name` is a command of the palette, ignoring ASCII case.
pub open spec fn is_known(name: Seq<char>) -> bool {
    exists|j: int|
        0 <= j < known_commands().len() && eq_ignore_ascii_case(
            #[trigger] known_commands()[j].0@,
            name,
        )
}

/// Whether `name` is a command of the palette, ignoring ASCII case.
pub fn is_known_command(name: &str) -> (r: bool)
    ensures
        r == is_known(name@),
{
    let nc = chars_of(name);
    let table = commands();
    let mut i: usize = 0;
    while i < table.len()
        invariant
            0 <= i <= table.len(),
            table@ == known_commands(),
            nc@ == name@,
            forall|j: int| 0 <= j < i ==> !eq_ignore_ascii_case(#[trigger] table@[j].0@, name@),
        decreases table.len() - i,
    {
        let cc = chars_of(table[i].0);
        if chars_eq_ignore_ascii_case(cc.as_slice(), nc.as_slice()) {
            assert(eq_ignore_ascii_case(known_commands()[i as int].0@, name@));
            return true;
        }
        i = i + 1;
    }
    false
}

/// Number of leading whitespace characters.
pub open spec fn ws_run(s: Seq<char>) -> int
    decreases s.len(),
{
    if s.len() > 0 && is_ws(s[0]) {
        1 + ws_run(s.drop_first())
    } else {
        0
    }
}

/// Number of leading non-whitespace characters.
pub open spec fn word_run(s: Seq<char>) -> int
    decreases s.len(),
{
    if s.len() > 0 && !is_ws(s[0]) {
        1 + word_run(s.drop_first())
    } else {
        0
    }
}

/// The first whitespace-separated word, empty when there is none.
pub open spec fn first_word(s: Seq<char>) -> Seq<char> {
    let a = ws_run(s);
    s.skip(a).take(word_run(s.skip(a)))
}

/// Whether there is a second whitespace-separated word.
pub open spec fn has_second_word(s: Seq<char>) -> bool {
    let a = ws_run(s);
    let b = a + word_run(s.skip(a));
    b + ws_run(s.skip(b)) < s.len()
}

proof fn lemma_ws_run(s: Seq<char>, i: int)
    requires
        0 <= i <= s.len(),
        forall|j: int| 0 <= j < i ==> is_ws(s[j]),
        i == s.len() || !is_ws(s[i]),
    ensures
        ws_run(s) == i,
    decreases i,
{
    if i > 0 {
        lemma_ws_run(s.drop_first(), i - 1);
    }
}

proof fn lemma_word_run(s: Seq<char>, i: int)
    requires
        0 <= i <= s.len(),
        forall|j: int| 0 <= j < i ==> !is_ws(s[j]),
        i == s.len() || is_ws(s[i]),
    ensures
        word_run(s) == i,
    decreases i,
{
    if i > 0 {
        lemma_word_run(s.drop_first(), i - 1);
    }
}

/// Skips whitespace from `start`; returns where it stops.
pub fn skip_ws(s: &[char], start: usize) -> (r: usize)
    requires
        start <= s.len(),
    ensures
        start <= r <= s.len(),
        r - start == ws_run(s@.skip(start as int)),
{
    let mut i = start;
    while i < s.len() && char_is_whitespace(s[i])
        invariant
            start <= i <= s.len(),
            forall|j: int| start <= j < i ==> is_ws(s@[j]),
        decreases s.len() - i,
    {
        i = i + 1;
    }
    proof {
        lemma_ws_run(s@.skip(start as int), i - start);
    }
    i
}

/// Skips non-whitespace from `start`; returns where it stops.
pub fn skip_word(s: &[char], start: usize) -> (r: usize)
    requires
        start <= s.len(),
    ensures
        start <= r <= s.len(),
        r - start == word_run(s@.skip(start as int)),
{
    let mut i = start;
    while i < s.len() && !char_is_whitespace(s[i])
        invariant
            start <= i <= s.len(),
            forall|j: int| start <= j < i ==> !is_ws(s@[j]),
        decreases s.len() - i,
    {
        i = i + 1;
    }
    proof {
        lemma_word_run(s@.skip(start as int), i - start);
    }
    i
}

/// Whether some listed command is exactly `s`.
pub open spec fn is_listed(s: Seq<char>) -> bool {
    exists|j: int| 0 <= j < visible_commands().len() && #[trigger] visible_commands()[j].0@ == s
}

fn is_listed_exec(s: &[char]) -> (r: bool)
    ensures
        r == is_listed(s@),
{
    let table = visible_table();
    let mut i: usize = 0;
    while i < table.len()
        invariant
            0 <= i <= table.len(),
            table@ == visible_commands(),
            forall|j: int| 0 <= j < i ==> #[trigger] table@[j].0@ != s@,
        decreases table.len() - i,
    {
        let nc = chars_of(table[i].0);
        if chars_eq(nc.as_slice(), s) {
            assert(visible_commands()[i as int].0@ == s@);
            return true;
        }
        i = i + 1;
    }
    false
}

/// The entry the highlight `selected` is on, clamped to the last one.
pub open spec fn pick(matches: Seq<(&'static str, &'static str)>, selected: usize) -> Seq<char> {
    let last = matches.len() - 1;
    matches[if selected < last {
        selected as int
    } else {
        last
    }].0@
}

/// The command that Enter runs for the palette input: the highlighted
/// entry when the input is empty; the input itself when it is a listed
/// command, or a known command followed by arguments, and does not end in
/// whitespace; else the highlighted entry of the filtered list; else the
/// input when its first word is a known command.
pub open spec fn resolved(input: Seq<char>, selected: usize) -> Option<Seq<char>> {
    let trimmed = trim(input);
    let matches = filtered_commands(input);
    if trimmed.len() == 0 {
        if matches.len() == 0 {
            None
        } else {
            Some(pick(matches, selected))
        }
    } else {
        let lower = lowercase(trimmed);
        let trailing = input.len() > 0 && is_ws(input.last());
        let first = first_word(lower);
        if !trailing && (is_listed(lower) || (has_second_word(lower) && is_known(first))) {
            Some(trimmed)
        } else if matches.len() > 0 {
            Some(pick(matches, selected))
        } else if is_known(first) {
            Some(trimmed)
        } else {
            None
        }
    }
}

fn pick_exec(matches: &Vec<(&'static str, &'static str)>, selected: usize) -> (r: String)
    requires
        matches.len() > 0,
    ensures
        r@ == pick(matches@, selected),
{
    let last = matches.len() - 1;
    let idx = if selected < last {
        selected
    } else {
        last
    };
    let cs = chars_of(matches[idx].0);
    string_of(cs.as_slice())
}

/// The command that Enter runs for the palette input with the entry
/// `selected` highlighted.
pub fn resolve_command_input(input: &str, selected: usize) -> (r: Option<String>)
    ensures
        match r {
            Some(x) => resolved(input@, selected) == Some(x@),
            None => resolved(input@, selected) is None,
        },
{
    let cs = chars_of(input);
    let t = trim_chars(cs.as_slice());
    if t.len() == 0 {
        let matches = get_filtered_commands(input);
        if matches.len() == 0 {
            return None;
        }
        return Some(pick_exec(&matches, selected));
    }
    let ts = string_of(t.as_slice());
    let lower_s = str_to_lowercase(ts.as_str());
    let lower = chars_of(lower_s.as_str());
    let trailing = cs.len() > 0 && char_is_whitespace(cs[cs.len() - 1]);
    let a = skip_ws(lower.as_slice(), 0);
    let b = skip_word(lower.as_slice(), a);
    let c = skip_ws(lower.as_slice(), b);
    proof {
        assert(lower@.skip(0) == lower@);
        assert(a + word_run(lower@.skip(a as int)) == b);
    }
    let has_args = c < lower.len();
    let first = crate::text::sub_chars(lower.as_slice(), a, b);
    assert(first@ =~= first_word(lower@));
    let first_s = string_of(first.as_slice());
    let known = is_known_command(first_s.as_str());
    let exact = is_listed_exec(lower.as_slice());
    if !trailing && (exact || (has_args && known)) {
        return Some(ts);
    }
    let matches = get_filtered_commands(input);
    if matches.len() > 0 {
        return Some(pick_exec(&matches, selected));
    }
    if known {
        return Some(ts);
    }
    None
}

} // verus!
