//! What the screen shows, computed apart from drawing it: where the
//! calendar popup goes, how command rows and category paths are labelled,
//! the colours of priorities and due dates, and which parts of an item's
//! text match the search.

use vstd::prelude::*;

use crate::data::{Priority, TodoItem};
use crate::date::{days_until_from, days_until_on, Date};
use crate::defs::NoteDisplay;
use crate::list::{note_row_count, note_rows, note_width, wrap_text, wrapped};
use crate::text::{chars_of, lowercase, push_char, str_to_lowercase, string_of};
use crate::theme::{Rgb, Theme};

verus! {

/// A rectangle of terminal cells.
#[derive(Clone, Copy, PartialEq, Eq, Structural, Debug)]
pub struct Area {
    pub x: u16,
    pub y: u16,
    pub width: u16,
    pub height: u16,
}

impl Area {
    /// The first column right of the area (saturating).
    pub open spec fn spec_right(self) -> u16 {
        self.x.saturating_add(self.width)
    }

    /// The first row below the area (saturating).
    pub open spec fn spec_bottom(self) -> u16 {
        self.y.saturating_add(self.height)
    }
}

/// `v` kept within `lo..=hi`, where `lo <= hi`.
pub open spec fn clamp16(v: u16, lo: u16, hi: u16) -> u16 {
    if v < lo {
        lo
    } else if v > hi {
        hi
    } else {
        v
    }
}

/// The larger of `a` and `b`.
pub open spec fn max16(a: u16, b: u16) -> u16 {
    if a >= b {
        a
    } else {
        b
    }
}

/// The column of a popup `width` wide: centred on `anchor`, kept within
/// `area` as far as it fits.
pub fn calendar_popup_x(area: Area, anchor: Area, width: u16) -> (r: u16)
    ensures
        r == clamp16(
            anchor.x.saturating_add(anchor.width / 2).saturating_sub(width / 2),
            area.x,
            max16(area.spec_right().saturating_sub(width), area.x),
        ),
{
    let centered = anchor.x.saturating_add(anchor.width / 2).saturating_sub(width / 2);
    let min = area.x;
    let right = area.x.saturating_add(area.width);
    let max0 = right.saturating_sub(width);
    let max = if max0 >= min { max0 } else { min };
    if centered < min {
        min
    } else if centered > max {
        max
    } else {
        centered
    }
}

/// The row of a popup `height` tall next to `anchor`: above it when
/// `prefer_above` and there is room there, else below it when there is room
/// there; otherwise on the other side; kept within `area`.
pub fn calendar_popup_y(area: Area, anchor: Area, height: u16, prefer_above: bool) -> (r: u16)
    ensures
        ({
            let below = anchor.spec_bottom().saturating_add(1);
            let above = anchor.y.saturating_sub(height.saturating_add(1));
            let y = if prefer_above {
                if anchor.y.saturating_sub(area.y) > height {
                    above
                } else {
                    below
                }
            } else if area.spec_bottom().saturating_sub(anchor.spec_bottom()) > height {
                below
            } else {
                above
            };
            r == clamp16(y, area.y, max16(area.spec_bottom().saturating_sub(height), area.y))
        }),
{
    let anchor_bottom = anchor.y.saturating_add(anchor.height);
    let area_bottom = area.y.saturating_add(area.height);
    let below = anchor_bottom.saturating_add(1);
    let above = anchor.y.saturating_sub(height.saturating_add(1));
    let min = area.y;
    let max0 = area_bottom.saturating_sub(height);
    let max = if max0 >= min { max0 } else { min };
    let y = if prefer_above {
        if anchor.y.saturating_sub(area.y) > height {
            above
        } else {
            below
        }
    } else if area_bottom.saturating_sub(anchor_bottom) > height {
        below
    } else {
        above
    };
    if y < min {
        min
    } else if y > max {
        max
    } else {
        y
    }
}

/// The calendar opened from a prompt is anchored on the prompt itself.
pub fn calendar_prompt_anchor(input_area: Area) -> (r: Area)
    ensures
        r == input_area,
{
    Area { x: input_area.x, y: input_area.y, width: input_area.width, height: input_area.height }
}

/// `n` as a `u16`, saturating.
pub open spec fn sat16(n: int) -> u16 {
    if n > u16::MAX {
        u16::MAX
    } else if n < 0 {
        0
    } else {
        n as u16
    }
}

/// The rows that `it` takes in a list whose text column is `cw` wide: its
/// status row, its wrapped text and its inline notes, each count saturating
/// at `u16::MAX`.
pub open spec fn item_rows(it: TodoItem, cw: int, nd: NoteDisplay) -> u16 {
    let tl = wrapped(it.text@, if cw > 10 { cw } else { 10 }).len();
    let nr = note_rows(it.notes@, note_width(cw), nd);
    let nl = if nr <= usize::MAX { nr } else { usize::MAX as int };
    sat16(1 + sat16(tl as int) + sat16(nl))
}

/// The row reached going down from `y` past the items `items[i..n]`,
/// stopping once it reaches `stop`.
pub open spec fn rows_down(items: Seq<TodoItem>, i: int, n: int, y: u16, stop: u16, cw: int, nd: NoteDisplay) -> u16
    decreases n - i,
{
    if i >= n {
        y
    } else {
        let y2 = y.saturating_add(item_rows(items[i], cw, nd));
        if y2 >= stop {
            y2
        } else {
            rows_down(items, i + 1, n, y2, stop, cw, nd)
        }
    }
}

/// The views of the items that `items` points to.
pub open spec fn item_values(items: Seq<&TodoItem>) -> Seq<TodoItem> {
    items.map_values(|x: &TodoItem| *x)
}

/// The calendar opened on the list is anchored on the row of the
/// highlighted item: below the rows the items before it take, within the
/// list area.
pub fn calendar_item_anchor(list_area: Area, items: &[&TodoItem], selected_index: usize, note_display: NoteDisplay) -> (r: Area)
    ensures
        ({
            let cw = list_area.width.saturating_sub(5) as int;
            let n = if selected_index < items@.len() { selected_index as int } else { items@.len() as int };
            let stop = list_area.spec_bottom().saturating_sub(1);
            let y = rows_down(item_values(items@), 0, n, list_area.y, stop, cw, note_display);
            r == (Area {
                x: list_area.x.saturating_add(1),
                y: if y <= stop { y } else { stop },
                width: list_area.width.saturating_sub(2),
                height: 1,
            })
        }),
{
    let content_width = list_area.width.saturating_sub(5) as usize;
    let wrap_width = if content_width > 10 { content_width } else { 10 };
    let bottom = list_area.y.saturating_add(list_area.height);
    let stop = bottom.saturating_sub(1);
    let n = if selected_index < items.len() { selected_index } else { items.len() };
    let ghost vals = item_values(items@);
    let ghost cw = content_width as int;
    let mut y = list_area.y;
    let mut i: usize = 0;
    while i < n
        invariant
            0 <= i <= n <= items@.len(),
            vals == item_values(items@),
            cw == content_width,
            cw == list_area.width.saturating_sub(5) as int,
            stop == list_area.spec_bottom().saturating_sub(1),
            n == if selected_index < items@.len() { selected_index as int } else { items@.len() as int },
            content_width <= u16::MAX,
            wrap_width == if cw > 10 { cw } else { 10 },
            rows_down(vals, 0, n as int, list_area.y, stop, cw, note_display) == rows_down(
                vals,
                i as int,
                n as int,
                y,
                stop,
                cw,
                note_display,
            ),
        decreases n - i,
    {
        let item: &TodoItem = items[i];
        assert(vals[i as int] == *item);
        let lines = wrap_text(item.text.as_str(), wrap_width);
        let tl: u16 = if lines.len() > 65535 { 65535 } else { lines.len() as u16 };
        let nc = note_row_count(item, content_width, note_display);
        let nl: u16 = if nc > 65535 { 65535 } else { nc as u16 };
        let step32: u32 = 1 + tl as u32 + nl as u32;
        let step: u16 = if step32 > 65535 { 65535 } else { step32 as u16 };
        assert(step == item_rows(vals[i as int], cw, note_display));
        let ghost y_old = y;
        y = y.saturating_add(step);
        assert(rows_down(vals, i as int, n as int, y_old, stop, cw, note_display) == if y >= stop {
            y
        } else {
            rows_down(vals, i + 1, n as int, y, stop, cw, note_display)
        });
        if y >= stop {
            assert(rows_down(vals, 0, n as int, list_area.y, stop, cw, note_display) == y);
            return Area {
                x: list_area.x.saturating_add(1),
                y: if y <= stop { y } else { stop },
                width: list_area.width.saturating_sub(2),
                height: 1,
            };
        }
        i = i + 1;
    }
    Area {
        x: list_area.x.saturating_add(1),
        y: if y <= stop { y } else { stop },
        width: list_area.width.saturating_sub(2),
        height: 1,
    }
}

/// A category path as the list badges show it: `|` in place of `/`.
pub open spec fn badge_path(path: Seq<char>) -> Seq<char> {
    path.map_values(|c: char| if c == '/' { '|' } else { c })
}

/// `path` with each `/` shown as `|`.
pub fn display_category_path(path: &str) -> (r: String)
    ensures
        r@ == badge_path(path@),
{
    let cs = chars_of(path);
    let mut out: Vec<char> = Vec::new();
    let mut i: usize = 0;
    while i < cs.len()
        invariant
            0 <= i <= cs.len(),
            cs@ == path@,
            out@ == badge_path(cs@.take(i as int)),
        decreases cs.len() - i,
    {
        let c = cs[i];
        out.push(if c == '/' { '|' } else { c });
        assert(out@ =~= badge_path(cs@.take(i + 1)));
        i = i + 1;
    }
    assert(cs@.take(cs@.len() as int) =~= cs@);
    string_of(out.as_slice())
}

/// The title of the command popup: the parent command while its
/// subcommands are listed, else "Commands".
pub fn command_popup_title(parent_command: Option<&str>) -> (r: String)
    ensures
        r@ == match parent_command {
            Some(p) => seq![' ', '/'] + p@ + seq![' '],
            None => " Commands "@,
        },
{
    match parent_command {
        Some(p) => {
            let mut s = String::new();
            push_char(&mut s, ' ');
            push_char(&mut s, '/');
            let cs = chars_of(p);
            let mut i: usize = 0;
            while i < cs.len()
                invariant
                    0 <= i <= cs.len(),
                    cs@ == p@,
                    s@ == seq![' ', '/'] + cs@.take(i as int),
                decreases cs.len() - i,
            {
                push_char(&mut s, cs[i]);
                assert(s@ =~= seq![' ', '/'] + cs@.take(i + 1));
                i = i + 1;
            }
            push_char(&mut s, ' ');
            assert(cs@.take(cs@.len() as int) =~= cs@);
            s
        },
        None => " Commands ".to_string(),
    }
}

/// Whether `command` starts with the command `parent` and a space.
pub open spec fn under_parent(command: Seq<char>, parent: Seq<char>) -> bool {
    &&& command.len() > parent.len()
    &&& command.take(parent.len() as int) == parent
    &&& command[parent.len() as int] == ' '
}

fn starts_with_command(cs: &[char], ps: &[char]) -> (r: bool)
    ensures
        r == under_parent(cs@, ps@),
{
    if cs.len() <= ps.len() {
        return false;
    }
    let mut i: usize = 0;
    while i < ps.len()
        invariant
            0 <= i <= ps.len() < cs.len(),
            forall|j: int| 0 <= j < i ==> cs@[j] == ps@[j],
        decreases ps.len() - i,
    {
        if cs[i] != ps[i] {
            assert(cs@.take(ps@.len() as int)[i as int] != ps@[i as int]);
            return false;
        }
        i = i + 1;
    }
    assert(cs@.take(ps@.len() as int) =~= ps@);
    cs[ps.len()] == ' '
}

/// How a command row is labelled: without its parent command while the
/// parent's subcommands are listed.
pub fn command_display_label(command: &str, parent_command: Option<&str>) -> (r: String)
    ensures
        r@ == match parent_command {
            Some(p) => if under_parent(command@, p@) {
                command@.skip(p@.len() + 1int)
            } else {
                command@
            },
            None => command@,
        },
{
    let cs = chars_of(command);
    match parent_command {
        Some(p) => {
            let ps = chars_of(p);
            if starts_with_command(cs.as_slice(), ps.as_slice()) {
                assert(ps.len() < cs.len());
                let mut out: Vec<char> = Vec::new();
                let mut i: usize = ps.len() + 1;
                while i < cs.len()
                    invariant
                        ps.len() + 1 <= i <= cs.len(),
                        out@ == cs@.subrange(ps.len() + 1, i as int),
                    decreases cs.len() - i,
                {
                    out.push(cs[i]);
                    assert(out@ =~= cs@.subrange(ps.len() + 1, i + 1));
                    i = i + 1;
                }
                assert(cs@.skip(ps@.len() + 1int) =~= cs@.subrange(ps.len() + 1, cs.len() as int));
                string_of(out.as_slice())
            } else {
                string_of(cs.as_slice())
            }
        },
        None => string_of(cs.as_slice()),
    }
}

/// The mark before a command row: a space for a subcommand shown under its
/// parent, `/` otherwise.
pub fn command_display_prefix(command: &str, parent_command: Option<&str>) -> (r: &'static str)
    ensures
        r@ == if parent_command matches Some(p) && under_parent(command@, p@) {
            " "@
        } else {
            "/"@
        },
{
    match parent_command {
        Some(p) => {
            let cs = chars_of(command);
            let ps = chars_of(p);
            if starts_with_command(cs.as_slice(), ps.as_slice()) {
                " "
            } else {
                "/"
            }
        },
        None => "/",
    }
}

/// The colour of a priority marker.
pub open spec fn priority_rgb(p: Priority, theme: Theme) -> Rgb {
    match p {
        Priority::Low => theme.text_muted,
        Priority::Normal => theme.accent,
        Priority::High => theme.warning,
        Priority::Urgent => theme.error,
    }
}

/// The colour of a priority marker: muted for low, the accent for normal,
/// the warning colour for high, the error colour for urgent.
pub fn priority_color(p: Priority, theme: &Theme) -> (r: Rgb)
    ensures
        r == priority_rgb(p, *theme),
{
    match p {
        Priority::Low => theme.text_muted,
        Priority::Normal => theme.accent,
        Priority::High => theme.warning,
        Priority::Urgent => theme.error,
    }
}

/// The colour of a due date seen on `today`: the error colour within three
/// days (or past), the warning colour within ten, muted otherwise or when
/// the date does not read.
pub fn due_date_color(due_date: &str, today: Date, theme: &Theme) -> (r: Rgb)
    requires
        today.valid(),
    ensures
        r == match days_until_on(due_date@, today) {
            Some(d) => if d <= 3 {
                theme.error
            } else if d <= 10 {
                theme.warning
            } else {
                theme.text_muted
            },
            None => theme.text_muted,
        },
{
    match days_until_from(due_date, today) {
        Some(d) => if d <= 3 {
            theme.error
        } else if d <= 10 {
            theme.warning
        } else {
            theme.text_muted
        },
        None => theme.text_muted,
    }
}

/// Whether `q` occurs in `l` at `p`.
pub open spec fn occurs_at(l: Seq<char>, q: Seq<char>, p: int) -> bool {
    0 <= p && p + q.len() <= l.len() && l.subrange(p, p + q.len()) == q
}

/// The first place at or after `start` where `q` occurs in `l`, or -1.
pub open spec fn first_match(l: Seq<char>, q: Seq<char>, start: int) -> int
    decreases l.len() - start,
{
    if start < 0 || start >= l.len() || start + q.len() > l.len() {
        -1
    } else if occurs_at(l, q, start) {
        start
    } else {
        first_match(l, q, start + 1)
    }
}

/// The pieces of `t` from `start` on, cut around each occurrence of `q` in
/// `l` (the lower-cased `t`), left to right without overlap; an occurrence
/// is marked `true`.
pub open spec fn match_pieces(t: Seq<char>, l: Seq<char>, q: Seq<char>, start: int) -> Seq<(Seq<char>, bool)>
    decreases t.len() - start,
{
    let p = first_match(l, q, start);
    if start >= t.len() || q.len() == 0 {
        if start < t.len() {
            seq![(t.subrange(start, t.len() as int), false)]
        } else {
            Seq::empty()
        }
    } else if p < start || p + q.len() > t.len() {
        seq![(t.subrange(start, t.len() as int), false)]
    } else {
        (if p > start {
            seq![(t.subrange(start, p), false)]
        } else {
            Seq::empty()
        }) + seq![(t.subrange(p, p + q.len()), true)] + match_pieces(t, l, q, p + q.len())
    }
}

/// The pieces of `text` that the search `filter` highlights: all of `text`
/// unmarked when the filter is empty (or lower-casing changes the length),
/// else `match_pieces` of the lower-cased text and filter.
pub open spec fn highlighted(text: Seq<char>, filter: Seq<char>) -> Seq<(Seq<char>, bool)> {
    let l = lowercase(text);
    let q = lowercase(filter);
    if filter.len() == 0 || l.len() != text.len() || q.len() == 0 {
        seq![(text, false)]
    } else {
        match_pieces(text, l, q, 0)
    }
}

proof fn lemma_first_match(l: Seq<char>, q: Seq<char>, start: int)
    ensures
        first_match(l, q, start) == -1 || (start <= first_match(l, q, start) && occurs_at(
            l,
            q,
            first_match(l, q, start),
        )),
    decreases l.len() - start,
{
    if !(start < 0 || start >= l.len() || start + q.len() > l.len()) && !occurs_at(l, q, start) {
        lemma_first_match(l, q, start + 1);
    }
}

fn occurs_at_exec(l: &[char], q: &[char], p: usize) -> (r: bool)
    requires
        p + q.len() <= l.len(),
    ensures
        r == occurs_at(l@, q@, p as int),
{
    let mut j: usize = 0;
    while j < q.len()
        invariant
            0 <= j <= q.len(),
            p + q.len() <= l.len(),
            forall|k: int| 0 <= k < j ==> l@[p + k] == q@[k],
        decreases q.len() - j,
    {
        if l[p + j] != q[j] {
            assert(l@.subrange(p as int, p + q.len())[j as int] != q@[j as int]);
            return false;
        }
        j = j + 1;
    }
    assert(l@.subrange(p as int, p + q.len()) =~= q@);
    true
}

fn find_from(l: &[char], q: &[char], start: usize) -> (r: Option<usize>)
    requires
        start <= l.len(),
        q.len() > 0,
    ensures
        match r {
            Some(p) => first_match(l@, q@, start as int) == p as int,
            None => first_match(l@, q@, start as int) == -1,
        },
{
    if q.len() > l.len() {
        return None;
    }
    let last = l.len() - q.len();
    let mut p = start;
    while p <= last
        invariant
            start <= p <= l.len(),
            last == l.len() - q.len(),
            q.len() > 0,
            first_match(l@, q@, start as int) == first_match(l@, q@, p as int),
        decreases l.len() - p,
    {
        if occurs_at_exec(l, q, p) {
            return Some(p);
        }
        p = p + 1;
    }
    None
}

/// The pieces of `text` that the search `filter` highlights, as
/// `highlighted` says; a piece marked `true` is a match.
pub fn highlight_matches(text: &str, filter: &str) -> (r: Vec<(String, bool)>)
    ensures
        r@.len() == highlighted(text@, filter@).len(),
        forall|i: int| 0 <= i < r@.len() ==> (#[trigger] r@[i]).0@ == highlighted(text@, filter@)[i].0 && r@[i].1
            == highlighted(text@, filter@)[i].1,
{
    let t = chars_of(text);
    let l = chars_of(str_to_lowercase(text).as_str());
    let q = chars_of(str_to_lowercase(filter).as_str());
    let mut out: Vec<(String, bool)> = Vec::new();
    if filter.is_empty() || l.len() != t.len() || q.len() == 0 {
        out.push((string_of(t.as_slice()), false));
        assert(t@ == text@);
        return out;
    }
    let ghost all = match_pieces(t@, l@, q@, 0);
    let mut start: usize = 0;
    loop
        invariant_except_break
            all == out@.map_values(|x: (String, bool)| (x.0@, x.1)) + match_pieces(t@, l@, q@, start as int),
        invariant
            0 <= start <= t.len(),
            l.len() == t.len(),
            q.len() > 0,
            t@ == text@,
            l@ == lowercase(text@),
            q@ == lowercase(filter@),
            all == match_pieces(t@, l@, q@, 0),
        ensures
            all == out@.map_values(|x: (String, bool)| (x.0@, x.1)),
        decreases t.len() - start,
    {
        let ghost before = out@.map_values(|x: (String, bool)| (x.0@, x.1));
        proof {
            lemma_first_match(l@, q@, start as int);
        }
        if start >= t.len() {
            assert(match_pieces(t@, l@, q@, start as int) =~= Seq::<(Seq<char>, bool)>::empty());
            assert(all =~= before);
            break;
        }
        match find_from(l.as_slice(), q.as_slice(), start) {
            None => {
                let rest = string_of(cut(t.as_slice(), start, t.len()).as_slice());
                out.push((rest, false));
                proof {
                    assert(out@.map_values(|x: (String, bool)| (x.0@, x.1)) =~= before.push(
                        (t@.subrange(start as int, t.len() as int), false),
                    ));
                    assert(all =~= out@.map_values(|x: (String, bool)| (x.0@, x.1)));
                }
                break;
            },
            Some(p) => {
                let ghost mid = out@.len();
                if p > start {
                    out.push((string_of(cut(t.as_slice(), start, p).as_slice()), false));
                }
                out.push((string_of(cut(t.as_slice(), p, p + q.len()).as_slice()), true));
                proof {
                    let head = if p > start {
                        seq![(t@.subrange(start as int, p as int), false)]
                    } else {
                        Seq::<(Seq<char>, bool)>::empty()
                    };
                    assert(out@.map_values(|x: (String, bool)| (x.0@, x.1)) =~= before + head + seq![
                        (t@.subrange(p as int, p + q.len()), true),
                    ]);
                    assert(match_pieces(t@, l@, q@, start as int) == head + seq![
                        (t@.subrange(p as int, p + q.len()), true),
                    ] + match_pieces(t@, l@, q@, p + q.len()));
                    assert(all =~= out@.map_values(|x: (String, bool)| (x.0@, x.1)) + match_pieces(
                        t@,
                        l@,
                        q@,
                        p + q.len(),
                    ));
                }
                start = p + q.len();
            },
        }
    }
    proof {
        assert(highlighted(text@, filter@) == all);
        assert forall|i: int| 0 <= i < out@.len() implies (#[trigger] out@[i]).0@ == all[i].0 && out@[i].1
            == all[i].1 by {
            assert(out@.map_values(|x: (String, bool)| (x.0@, x.1))[i] == (out@[i].0@, out@[i].1));
        }
    }
    out
}

/// The characters of `s` from `a` up to `b`.
fn cut(s: &[char], a: usize, b: usize) -> (r: Vec<char>)
    requires
        a <= b <= s.len(),
    ensures
        r@ == s@.subrange(a as int, b as int),
{
    let mut out: Vec<char> = Vec::new();
    let mut i = a;
    while i < b
        invariant
            a <= i <= b <= s.len(),
            out@ == s@.subrange(a as int, i as int),
        decreases b - i,
    {
        out.push(s[i]);
        assert(out@ =~= s@.subrange(a as int, i + 1));
        i = i + 1;
    }
    out
}

/// A keybinding description fitted to a cell `desc_w` characters wide:
/// padded with spaces when shorter, cut with `…` when longer.
pub open spec fn fitted(desc: Seq<char>, desc_w: int) -> Seq<char> {
    if desc.len() > desc_w {
        if desc_w > 1 {
            desc.take(desc_w - 1).push('…')
        } else {
            desc.take(desc_w)
        }
    } else {
        desc + Seq::new((desc_w - desc.len()) as nat, |i: int| ' ')
    }
}

/// Fits a keybinding description to its cell, as `fitted` says.
pub fn fit_cell(desc: &str, desc_w: usize) -> (r: String)
    ensures
        r@ == fitted(desc@, desc_w as int),
{
    let cs = chars_of(desc);
    if cs.len() > desc_w {
        let keep = if desc_w > 1 { desc_w - 1 } else { desc_w };
        let mut out = cut(cs.as_slice(), 0, keep);
        if desc_w > 1 {
            out.push('…');
        }
        proof {
            assert(cs@.subrange(0, keep as int) =~= cs@.take(keep as int));
        }
        string_of(out.as_slice())
    } else {
        let mut out: Vec<char> = Vec::new();
        let mut i: usize = 0;
        while i < cs.len()
            invariant
                0 <= i <= cs.len(),
                out@ == cs@.take(i as int),
            decreases cs.len() - i,
        {
            out.push(cs[i]);
            assert(out@ =~= cs@.take(i + 1));
            i = i + 1;
        }
        assert(cs@.take(cs@.len() as int) =~= cs@);
        let mut k: usize = cs.len();
        while k < desc_w
            invariant
                cs.len() <= k <= desc_w,
                out@ == cs@ + Seq::new((k - cs.len()) as nat, |i: int| ' '),
            decreases desc_w - k,
        {
            out.push(' ');
            assert(out@ =~= cs@ + Seq::new((k + 1 - cs.len()) as nat, |i: int| ' '));
            k = k + 1;
        }
        string_of(out.as_slice())
    }
}

/// The first character shown of a prompt line whose visible part is `cw`
/// characters wide, so that the cursor at `cursor` stays in view.
pub open spec fn prompt_start(cursor: int, cw: int) -> int {
    if cursor >= cw {
        cursor + 1 - cw
    } else {
        0
    }
}

/// The end of the visible part that starts at `start`.
pub open spec fn prompt_end(total: int, start: int, cw: int) -> int {
    if start + cw <= total {
        start + cw
    } else {
        total
    }
}

/// The width of the `...` markers of a line cut at `start` and `end`.
pub open spec fn prompt_markers(total: int, start: int, end: int) -> int {
    (if start > 0 { 3int } else { 0int }) + (if end < total { 3int } else { 0int })
}

/// The text width left in `vis` columns beside the cursor and `markers`
/// columns of markers, never under 1.
pub open spec fn prompt_room(vis: int, markers: int) -> int {
    if vis - 1 - markers >= 1 {
        vis - 1 - markers
    } else {
        1
    }
}

/// The visible part of a prompt line of `total` characters with the cursor
/// at `cursor`, in `vis` columns, from a text width `cw`: the part is
/// placed, the width is narrowed by the markers the cut needs, and this is
/// done again (at most `rounds` times in all) until the width settles.
pub open spec fn prompt_window_from(total: int, cursor: int, vis: int, cw: int, rounds: nat) -> (int, int)
    decreases rounds,
{
    let start = prompt_start(cursor, cw);
    let end = prompt_end(total, start, cw);
    if rounds <= 1 {
        (start, end)
    } else {
        let room = prompt_room(vis, prompt_markers(total, start, end));
        if room == cw {
            (start, end)
        } else {
            prompt_window_from(total, cursor, vis, room, (rounds - 1) as nat)
        }
    }
}

/// The characters of a prompt line shown beside its label: the line has
/// `total` characters, the cursor stands before character `cursor`, and
/// `width` columns hold the label (`label_width` wide) and the line. Four
/// rounds of `prompt_window_from` from the width less the cursor column.
pub open spec fn prompt_window_of(total: int, cursor: int, width: int, label_width: int) -> (int, int) {
    let vis = if width - label_width >= 1 {
        width - label_width
    } else {
        1
    };
    prompt_window_from(total, cursor, vis, prompt_room(vis, 0), 4)
}

/// The first and end character shown of a prompt line, as
/// `prompt_window_of` says; the cursor is always within them.
pub fn prompt_window(total: usize, cursor: usize, width: usize, label_width: usize) -> (r: (usize, usize))
    requires
        cursor <= total,
    ensures
        (r.0 as int, r.1 as int) == prompt_window_of(total as int, cursor as int, width as int, label_width as int),
        r.0 <= cursor <= r.1 || r.1 == total,
        r.0 <= r.1 <= total,
{
    let vis: usize = if width >= label_width && width - label_width >= 1 {
        width - label_width
    } else {
        1
    };
    let mut cw: usize = if vis >= 2 {
        vis - 1
    } else {
        1
    };
    let mut rounds: usize = 4;
    loop
        invariant
            1 <= rounds <= 4,
            1 <= cw,
            cursor <= total,
            prompt_window_from(total as int, cursor as int, vis as int, cw as int, rounds as nat)
                == prompt_window_of(total as int, cursor as int, width as int, label_width as int),
        decreases rounds,
    {
        let start = if cursor >= cw {
            cursor - cw + 1
        } else {
            0
        };
        let end = if cw <= total - start {
            start + cw
        } else {
            total
        };
        if rounds == 1 {
            return (start, end);
        }
        let markers: usize = (if start > 0 { 3 } else { 0 }) + (if end < total { 3 } else { 0 });
        let room: usize = if vis >= 1 + markers && vis - 1 - markers >= 1 {
            vis - 1 - markers
        } else {
            1
        };
        if room == cw {
            return (start, end);
        }
        cw = room;
        rounds = rounds - 1;
    }
}

/// The spaces before an item's category badge on its status row: what
/// right-aligns the badge to the end of the text column (`text_width` plus
/// the two-column indent), or a single space when fewer than 2 would.
pub open spec fn badge_gap_of(left_width: int, badge_width: int, text_width: int) -> int {
    let gap = text_width + 2 - (left_width + badge_width);
    if gap >= 2 {
        gap
    } else {
        1
    }
}

/// The spaces before an item's category badge, as `badge_gap_of` says.
pub fn badge_gap(left_width: usize, badge_width: usize, text_width: usize) -> (r: usize)
    requires
        left_width + badge_width <= usize::MAX,
        text_width + 2 <= usize::MAX,
    ensures
        r as int == badge_gap_of(left_width as int, badge_width as int, text_width as int),
{
    let used = left_width + badge_width;
    let target = text_width + 2;
    if target >= used && target - used >= 2 {
        target - used
    } else {
        1
    }
}

/// The day shown in cell `cell` of a month's calendar grid (rows of seven,
/// Monday first) whose first day falls on weekday `first_weekday` (Monday
/// 0): the cells before it and after the month's last day are blank.
pub open spec fn calendar_cell_day_of(first_weekday: int, days_in_month: int, cell: int) -> Option<int> {
    if cell < first_weekday || cell - first_weekday + 1 > days_in_month {
        None
    } else {
        Some(cell - first_weekday + 1)
    }
}

/// The day shown in a calendar cell, as `calendar_cell_day_of` says.
pub fn calendar_cell_day(first_weekday: u32, days_in_month: u32, cell: u32) -> (r: Option<u32>)
    ensures
        match r {
            Some(d) => calendar_cell_day_of(first_weekday as int, days_in_month as int, cell as int) == Some(d as int),
            None => calendar_cell_day_of(first_weekday as int, days_in_month as int, cell as int) is None,
        },
{
    if cell < first_weekday || cell - first_weekday >= days_in_month {
        None
    } else {
        Some(cell - first_weekday + 1)
    }
}

} // verus!
