//! Layout of the item list that does not depend on the terminal: note
//! rows, word wrapping and line justification.

use vstd::prelude::*;

use crate::data::{Note, TodoItem};
use crate::defs::{next_display, NoteDisplay};
use crate::text::{chars_of, split_chars, split_on, string_of, views};

verus! {

/// Columns before a note's text: two of item indent, the two-column gutter
/// `│ `, and a twelve-column date cell.
pub open spec fn note_offset() -> int {
    16
}

/// Columns before a note's text in the list.
pub fn note_text_offset() -> (r: usize)
    ensures
        r == note_offset(),
{
    let gutter = chars_of("\u{2502} ");
    proof {
        reveal_strlit("\u{2502} ");
    }
    2 + gutter.len() + 12
}

/// Width left for a note's text next to an item text `text_width` wide;
/// never under 8.
pub open spec fn note_width(text_width: int) -> int {
    let w = if text_width + 2 >= note_offset() {
        text_width + 2 - note_offset()
    } else {
        0
    };
    if w >= 8 {
        w
    } else {
        8
    }
}

/// Width left for a note's text once the gutter and date column are
/// accounted for; notes end at the same right edge as the item text.
pub fn note_text_width(text_width: usize) -> (r: usize)
    requires
        text_width + 2 <= usize::MAX,
    ensures
        r == note_width(text_width as int),
{
    let off = note_text_offset();
    let w = if text_width + 2 >= off {
        text_width + 2 - off
    } else {
        0
    };
    if w >= 8 {
        w
    } else {
        8
    }
}

/// An item's notes in display order: newest first. They are stored oldest
/// first.
pub fn notes_newest_first<'a>(item: &'a TodoItem) -> (r: Vec<&'a Note>)
    ensures
        r@.len() == item.notes@.len(),
        forall|i: int|
            0 <= i < r@.len() ==> *#[trigger] r@[i] == item.notes@[item.notes@.len() - 1 - i],
{
    let n = item.notes.len();
    let mut out: Vec<&'a Note> = Vec::new();
    let mut i: usize = 0;
    while i < n
        invariant
            0 <= i <= n,
            n == item.notes@.len(),
            out@.len() == i,
            forall|j: int| 0 <= j < i ==> *#[trigger] out@[j] == item.notes@[n - 1 - j],
        decreases n - i,
    {
        out.push(&item.notes[n - 1 - i]);
        i = i + 1;
    }
    out
}

/// Index of the last space in `s[start..k]`, or -1.
pub open spec fn last_space(s: Seq<char>, start: int, k: int) -> int
    decreases k - start,
{
    if k <= start {
        -1
    } else if s[k - 1] == ' ' {
        k - 1
    } else {
        last_space(s, start, k - 1)
    }
}

pub proof fn lemma_last_space(s: Seq<char>, start: int, k: int)
    ensures
        last_space(s, start, k) == -1 || start <= last_space(s, start, k) < k,
        last_space(s, start, k) >= 0 ==> s[last_space(s, start, k)] == ' ',
        forall|q: int| last_space(s, start, k) < q < k && start <= q ==> #[trigger] s[q] != ' ',
    decreases k - start,
{
    if k > start && s[k - 1] != ' ' {
        lemma_last_space(s, start, k - 1);
    }
}

/// The lines of `s[start..]` broken at most `w` characters wide: at the
/// last space that fits (which is dropped), else hard at `w`.
pub open spec fn wrap_from(s: Seq<char>, start: int, w: int) -> Seq<Seq<char>>
    decreases s.len() - start,
{
    if w <= 0 || start < 0 || start >= s.len() {
        Seq::empty()
    } else if start + w >= s.len() {
        seq![s.skip(start)]
    } else {
        let end = start + w;
        let p = last_space(s, start, end);
        proof {
            lemma_last_space(s, start, end);
        }
        if p >= 0 {
            seq![s.subrange(start, p)] + wrap_from(s, p + 1, w)
        } else {
            seq![s.subrange(start, end)] + wrap_from(s, end, w)
        }
    }
}

/// How a line is broken, for each line of a text broken `w` wide from
/// `start`: when the rest of the text fits, it is the last line; else, when
/// the `w` characters from `start` hold a space, the line ends at the last
/// of them, that space is dropped and the next line starts after it; only
/// when they hold none is the line cut hard, `w` characters long, and the
/// next one starts right after.
pub proof fn law_wrap_breaks_at_last_space(s: Seq<char>, start: int, w: int)
    requires
        0 <= start < s.len(),
        w > 0,
    ensures
        start + w >= s.len() ==> wrap_from(s, start, w) == seq![s.skip(start)],
        start + w < s.len() ==> {
            let lines = wrap_from(s, start, w);
            let n = lines[0].len() as int;
            &&& lines.len() >= 1
            &&& (exists|q: int| start <= q < start + w && #[trigger] s[q] == ' ') ==> {
                &&& n < w
                &&& s[start + n] == ' '
                &&& forall|q: int| start + n < q < start + w ==> #[trigger] s[q] != ' '
                &&& lines[0] == s.subrange(start, start + n)
                &&& lines.drop_first() == wrap_from(s, start + n + 1, w)
            }
            &&& (forall|q: int| start <= q < start + w ==> #[trigger] s[q] != ' ') ==> {
                &&& lines[0] == s.subrange(start, start + w)
                &&& lines.drop_first() == wrap_from(s, start + w, w)
            }
        },
{
    if start + w < s.len() {
        let end = start + w;
        let p = last_space(s, start, end);
        lemma_last_space(s, start, end);
        let lines = wrap_from(s, start, w);
        if p >= 0 {
            assert(lines[0] == s.subrange(start, p));
            assert(lines.drop_first() =~= wrap_from(s, p + 1, w));
        } else {
            assert(lines[0] == s.subrange(start, end));
            assert(lines.drop_first() =~= wrap_from(s, end, w));
            assert forall|q: int| start <= q < start + w implies #[trigger] s[q] != ' ' by {}
        }
    }
}

/// Every line of a text broken `w` wide holds at most `w` characters.
pub proof fn law_wrap_lines_fit(s: Seq<char>, start: int, w: int)
    requires
        0 <= start,
        w > 0,
    ensures
        forall|i: int| 0 <= i < wrap_from(s, start, w).len() ==> (#[trigger] wrap_from(s, start, w)[i]).len() <= w,
    decreases s.len() - start,
{
    if start < s.len() && start + w < s.len() {
        let end = start + w;
        let p = last_space(s, start, end);
        lemma_last_space(s, start, end);
        let next = if p >= 0 {
            p + 1
        } else {
            end
        };
        law_wrap_lines_fit(s, next, w);
        let lines = wrap_from(s, start, w);
        assert forall|i: int| 0 <= i < lines.len() implies (#[trigger] lines[i]).len() <= w by {
            if i > 0 {
                assert(lines[i] == wrap_from(s, next, w)[i - 1]);
            }
        }
    }
}

/// `s` broken into lines at most `w` characters wide; a text that fits is
/// one line.
pub open spec fn wrapped(s: Seq<char>, w: int) -> Seq<Seq<char>> {
    if s.len() <= w {
        seq![s]
    } else {
        wrap_from(s, 0, w)
    }
}

/// Breaks `s` into lines at most `max_width` characters wide, at the last
/// space that fits, else hard.
pub fn wrap_text(s: &str, max_width: usize) -> (r: Vec<String>)
    requires
        max_width > 0 || s@.len() == 0,
    ensures
        r@.len() == wrapped(s@, max_width as int).len(),
        forall|i: int| 0 <= i < r@.len() ==> #[trigger] r@[i]@ == wrapped(s@, max_width as int)[i],
{
    let cs = chars_of(s);
    let n = cs.len();
    let mut out: Vec<String> = Vec::new();
    if n <= max_width {
        let x = string_of(cs.as_slice());
        out.push(x);
        return out;
    }
    let mut start: usize = 0;
    while start < n
        invariant
            0 <= start <= n,
            n == cs@.len(),
            n == cs.len(),
            max_width > 0,
            n > max_width,
            crate::data::category::texts(out@) + wrap_from(cs@, start as int, max_width as int)
                == wrap_from(cs@, 0, max_width as int),
        decreases n - start,
    {
        let ghost prev = out@;
        if max_width >= n - start {
            let piece = crate::text::sub_chars(cs.as_slice(), start, n);
            assert(piece@ =~= cs@.skip(start as int));
            let x = string_of(piece.as_slice());
            out.push(x);
            assert(crate::data::category::texts(out@) =~= crate::data::category::texts(prev).push(x@));
            assert(wrap_from(cs@, n as int, max_width as int) =~= Seq::<Seq<char>>::empty());
            start = n;
        } else {
            let end = start + max_width;
            let mut k = end;
            while k > start && cs[k - 1] != ' '
                invariant
                    start <= k <= end <= n,
                    n == cs.len(),
                    last_space(cs@, start as int, end as int) == last_space(cs@, start as int, k as int),
                decreases k,
            {
                k = k - 1;
            }
            proof {
                lemma_last_space(cs@, start as int, end as int);
            }
            if k > start {
                let p = k - 1;
                let piece = crate::text::sub_chars(cs.as_slice(), start, p);
                let x = string_of(piece.as_slice());
                out.push(x);
                assert(crate::data::category::texts(out@) =~= crate::data::category::texts(prev).push(x@));
                start = p + 1;
            } else {
                let piece = crate::text::sub_chars(cs.as_slice(), start, end);
                let x = string_of(piece.as_slice());
                out.push(x);
                assert(crate::data::category::texts(out@) =~= crate::data::category::texts(prev).push(x@));
                start = end;
            }
        }
    }
    assert(wrap_from(cs@, n as int, max_width as int) =~= Seq::<Seq<char>>::empty());
    assert(crate::data::category::texts(out@) =~= wrap_from(cs@, 0, max_width as int));
    proof {
        assert forall|i: int| 0 <= i < out@.len() implies #[trigger] out@[i]@ == wrapped(
            s@,
            max_width as int,
        )[i] by {
            assert(crate::data::category::texts(out@)[i] == out@[i]@);
        }
    }
    out
}

/// How many rows an item's notes take in the list: none when hidden, one
/// when only the newest shows (if there is one), every wrapped line of every
/// note otherwise.
pub open spec fn note_rows(notes: Seq<Note>, width: int, display: NoteDisplay) -> int {
    match display {
        NoteDisplay::Hidden => 0,
        NoteDisplay::Latest => if notes.len() > 0 {
            1
        } else {
            0
        },
        NoteDisplay::All => wrapped_rows(notes, width),
    }
}

/// Wrapped lines of every note.
pub open spec fn wrapped_rows(notes: Seq<Note>, width: int) -> int
    decreases notes.len(),
{
    if notes.len() == 0 {
        0
    } else {
        wrapped_rows(notes.drop_last(), width) + wrapped(notes.last().text@, width).len()
    }
}

/// How many inline note rows `item` takes under `note_display`, for an
/// item text `text_width` wide. The count saturates at `usize::MAX`.
pub fn note_row_count(item: &TodoItem, text_width: usize, note_display: NoteDisplay) -> (r: usize)
    requires
        note_display == NoteDisplay::All ==> text_width + 2 <= usize::MAX,
    ensures
        r == if note_rows(item.notes@, note_width(text_width as int), note_display) <= usize::MAX {
            note_rows(item.notes@, note_width(text_width as int), note_display)
        } else {
            usize::MAX as int
        },
{
    match note_display {
        NoteDisplay::Hidden => 0,
        NoteDisplay::Latest => if item.notes.len() > 0 {
            1
        } else {
            0
        },
        NoteDisplay::All => {
            let available = note_text_width(text_width);
            let mut total: usize = 0;
            let mut i: usize = 0;
            while i < item.notes.len()
                invariant
                    0 <= i <= item.notes.len(),
                    available == note_width(text_width as int),
                    available >= 8,
                    total == if wrapped_rows(item.notes@.take(i as int), available as int)
                        <= usize::MAX {
                        wrapped_rows(item.notes@.take(i as int), available as int)
                    } else {
                        usize::MAX as int
                    },
                    wrapped_rows(item.notes@.take(i as int), available as int) >= 0,
                decreases item.notes.len() - i,
            {
                let lines = wrap_text(item.notes[i].text.as_str(), available);
                assert(item.notes@.take(i + 1).drop_last() =~= item.notes@.take(i as int));
                total = total.saturating_add(lines.len());
                i = i + 1;
            }
            assert(item.notes@.take(item.notes.len() as int) =~= item.notes@);
            total
        },
    }
}

/// The words of a line: its pieces between single spaces, empty ones
/// dropped.
pub open spec fn nonempty(parts: Seq<Seq<char>>) -> Seq<Seq<char>>
    decreases parts.len(),
{
    if parts.len() == 0 {
        Seq::empty()
    } else {
        let p = nonempty(parts.drop_last());
        if parts.last().len() > 0 {
            p.push(parts.last())
        } else {
            p
        }
    }
}

/// `n` spaces.
pub open spec fn spaces(n: int) -> Seq<char> {
    Seq::new(n as nat, |i: int| ' ')
}

/// The first `k` words, each but the last followed by its gap: one space,
/// plus `extra`, plus one more for the first `rem` gaps.
pub open spec fn justified_prefix(ws: Seq<Seq<char>>, k: int, extra: int, rem: int) -> Seq<char>
    decreases k,
{
    if k <= 0 {
        Seq::empty()
    } else {
        justified_prefix(ws, k - 1, extra, rem) + ws[k - 1] + if k - 1 < ws.len() - 1 {
            spaces(1 + extra + if k - 1 < rem {
                1int
            } else {
                0int
            })
        } else {
            Seq::empty()
        }
    }
}

/// `text` spread to `target` columns: the missing columns shared between
/// the gaps between words, the earlier gaps taking the remainder. A line
/// already that wide, or of one word, is left alone.
pub open spec fn justified(text: Seq<char>, target: int) -> Seq<char> {
    let ws = nonempty(split_on(text, ' '));
    if text.len() >= target || ws.len() <= 1 {
        text
    } else {
        let slack = target - text.len();
        let gaps = ws.len() - 1;
        justified_prefix(ws, ws.len() as int, slack / gaps, slack % gaps)
    }
}

/// The number of characters in the first `k` words of `ws`.
pub open spec fn words_len(ws: Seq<Seq<char>>, k: int) -> int
    decreases k,
{
    if k <= 0 {
        0
    } else {
        words_len(ws, k - 1) + ws[k - 1].len()
    }
}

proof fn lemma_justified_prefix_len(ws: Seq<Seq<char>>, k: int, extra: int, rem: int)
    requires
        0 <= k <= ws.len(),
        ws.len() >= 1,
        extra >= 0,
        rem >= 0,
    ensures
        ({
            let g = if k < ws.len() {
                k
            } else {
                k - 1
            };
            justified_prefix(ws, k, extra, rem).len() == words_len(ws, k) + g * (1 + extra) + if g < rem {
                g
            } else {
                rem
            }
        }),
    decreases k,
{
    if k > 0 {
        lemma_justified_prefix_len(ws, k - 1, extra, rem);
        let g0 = k - 1;
        assert(k * (1 + extra) == g0 * (1 + extra) + (1 + extra)) by (nonlinear_arith)
            requires
                g0 == k - 1,
        ;
    }
}

/// Justifying a line of two or more words that is narrower than the
/// target keeps the words, single gaps widened: the line gets as wide as
/// its words, one space per gap, and every missing column. So a line whose
/// words are single-spaced comes out exactly the target width.
pub proof fn law_justify_fills(text: Seq<char>, target: int)
    requires
        nonempty(split_on(text, ' ')).len() >= 2,
        text.len() < target,
    ensures
        ({
            let ws = nonempty(split_on(text, ' '));
            let n = ws.len() as int;
            &&& justified(text, target).len() == words_len(ws, n) + (n - 1) + (target - text.len())
            &&& text.len() == words_len(ws, n) + n - 1 ==> justified(text, target).len() == target
        }),
{
    let ws = nonempty(split_on(text, ' '));
    let n = ws.len() as int;
    let slack = target - text.len();
    let gaps = n - 1;
    let extra = slack / gaps;
    let rem = slack % gaps;
    vstd::arithmetic::div_mod::lemma_fundamental_div_mod(slack, gaps);
    assert(extra >= 0 && 0 <= rem < gaps) by (nonlinear_arith)
        requires
            slack > 0,
            gaps > 0,
            extra == slack / gaps,
            rem == slack % gaps,
    ;
    lemma_justified_prefix_len(ws, n, extra, rem);
    assert(gaps * (1 + extra) == gaps + gaps * extra) by (nonlinear_arith);
}

/// Spreads `text` to `target_width` columns by widening the gaps between
/// words, earlier gaps first.
pub fn justify_line(text: &str, target_width: usize) -> (r: String)
    ensures
        r@ == justified(text@, target_width as int),
{
    let cs = chars_of(text);
    if cs.len() >= target_width {
        return string_of(cs.as_slice());
    }
    if cs.len() == 0 {
        proof {
            let e = Seq::<char>::empty();
            assert(cs@ =~= e);
            assert(split_on(e, ' ') == seq![e]);
            assert(seq![e].drop_last() =~= Seq::<Seq<char>>::empty());
            assert(nonempty(seq![e]) == nonempty(Seq::<Seq<char>>::empty()));
        }
        return string_of(cs.as_slice());
    }
    let slack = target_width - cs.len();
    let parts = split_chars(cs.as_slice(), ' ');
    let mut words: Vec<Vec<char>> = Vec::new();
    let mut i: usize = 0;
    while i < parts.len()
        invariant
            0 <= i <= parts.len(),
            views(words@) == nonempty(views(parts@).take(i as int)),
        decreases parts.len() - i,
    {
        let ghost vs = views(parts@);
        assert(vs.take(i + 1).drop_last() =~= vs.take(i as int));
        assert(vs.take(i + 1).last() == parts@[i as int]@);
        if parts[i].len() > 0 {
            let ghost prev = words@;
            let w = crate::text::sub_chars(parts[i].as_slice(), 0, parts[i].len());
            assert(w@ =~= parts@[i as int]@);
            words.push(w);
            assert(views(words@) =~= views(prev).push(w@));
        }
        i = i + 1;
    }
    assert(views(parts@).take(parts.len() as int) =~= views(parts@));
    if words.len() <= 1 {
        return string_of(cs.as_slice());
    }
    let gaps = words.len() - 1;
    let extra = slack / gaps;
    let rem = slack % gaps;
    proof {
        if gaps == 1 {
            assert(extra == slack && rem == 0) by (nonlinear_arith)
                requires
                    gaps == 1,
                    extra == slack / gaps,
                    rem == slack % gaps,
            ;
        } else {
            assert(extra <= slack / 2) by (nonlinear_arith)
                requires
                    gaps >= 2,
                    extra == slack / gaps,
                    slack >= 0,
            ;
        }
    }
    let ghost ws = views(words@);
    let mut out: Vec<char> = Vec::new();
    let mut k: usize = 0;
    while k < words.len()
        invariant
            0 <= k <= words.len(),
            ws == views(words@),
            gaps == words.len() - 1,
            extra == slack / gaps,
            rem == slack % gaps,
            slack < usize::MAX,
            gaps == 1 ==> extra == slack && rem == 0,
            gaps >= 2 ==> extra <= slack / 2,
            out@ == justified_prefix(ws, k as int, extra as int, rem as int),
        decreases words.len() - k,
    {
        let ghost before = out@;
        let w = &words[k];
        let mut j: usize = 0;
        while j < w.len()
            invariant
                0 <= j <= w.len(),
                out@ == before + w@.take(j as int),
            decreases w.len() - j,
        {
            out.push(w[j]);
            j = j + 1;
            assert(out@ =~= before + w@.take(j as int));
        }
        assert(w@.take(w.len() as int) =~= w@);
        let ghost mid = out@;
        if k < gaps {
            let count: usize = 1 + extra + if k < rem {
                1
            } else {
                0
            };
            let mut m: usize = 0;
            while m < count
                invariant
                    0 <= m <= count,
                    out@ == mid + spaces(m as int),
                decreases count - m,
            {
                out.push(' ');
                m = m + 1;
                assert(out@ =~= mid + spaces(m as int));
            }
        } else {
            assert(out@ =~= mid + Seq::<char>::empty());
        }
        k = k + 1;
    }
    string_of(out.as_slice())
}


proof fn lemma_wrapped_nonempty(s: Seq<char>, w: int)
    requires
        w > 0,
    ensures
        wrapped(s, w).len() >= 1,
{
    if s.len() > w {
        let p = last_space(s, 0, w);
        lemma_last_space(s, 0, w);
        assert(wrap_from(s, 0, w).len() >= 1);
    }
}

proof fn lemma_wrapped_rows_some(notes: Seq<Note>, width: int)
    requires
        width > 0,
    ensures
        notes.len() > 0 ==> wrapped_rows(notes, width) >= 1,
        wrapped_rows(notes, width) >= 0,
    decreases notes.len(),
{
    if notes.len() > 0 {
        lemma_wrapped_rows_some(notes.drop_last(), width);
        lemma_wrapped_nonempty(notes.last().text@, width);
    }
}

/// Cycling the inline note display steps down in verbosity: every step
/// shows at most as many note rows as before (all notes, then only the
/// newest, then none), and only the step from hidden wraps round to
/// showing every note.
pub proof fn law_note_display_steps_down(notes: Seq<Note>, width: int, d: NoteDisplay)
    requires
        width > 0,
    ensures
        next_display(d) != d,
        d != NoteDisplay::Hidden ==> note_rows(notes, width, next_display(d)) <= note_rows(notes, width, d),
        d == NoteDisplay::Hidden ==> next_display(d) == NoteDisplay::All,
        note_rows(notes, width, NoteDisplay::Hidden) == 0,
{
    lemma_wrapped_rows_some(notes, width);
}

/// The rows of a note's text in the list, for an item text `text_width`
/// wide: its wrapped lines, or, when it must stay on one row (`wrap` off)
/// and does not fit, the first line of it wrapped one column narrower with
/// `…` after it.
pub open spec fn note_segments_of(text: Seq<char>, text_width: int, wrap: bool) -> Seq<Seq<char>> {
    let available = note_width(text_width);
    let segs = wrapped(text, available);
    if !wrap && segs.len() > 1 {
        seq![wrapped(text, available - 1)[0].push('\u{2026}')]
    } else {
        segs
    }
}

/// The rows of a note's text, as `note_segments_of` says.
pub fn note_segments(text: &str, text_width: usize, wrap: bool) -> (r: Vec<String>)
    requires
        text_width + 2 <= usize::MAX,
    ensures
        r@.len() == note_segments_of(text@, text_width as int, wrap).len(),
        forall|i: int| 0 <= i < r@.len() ==> #[trigger] r@[i]@ == note_segments_of(text@, text_width as int, wrap)[i],
{
    let available = note_text_width(text_width);
    let segs = wrap_text(text, available);
    if !wrap && segs.len() > 1 {
        let narrower = wrap_text(text, available - 1);
        proof {
            lemma_wrapped_nonempty(text@, available - 1);
        }
        let mut cs = chars_of(narrower[0].as_str());
        cs.push('\u{2026}');
        let mut out: Vec<String> = Vec::new();
        out.push(string_of(cs.as_slice()));
        out
    } else {
        segs
    }
}

/// The note log's scroll window grown upwards from `start`, where `used`
/// rows are taken: earlier entries join while they fit in `max` rows.
/// Gives the first entry shown and the rows then taken.
pub open spec fn grow_up(rows: Seq<usize>, start: int, used: int, max: int) -> (int, int)
    decreases start,
{
    if 0 < start <= rows.len() && used + rows[start - 1] <= max {
        grow_up(rows, start - 1, used + rows[start - 1], max)
    } else {
        (start, used)
    }
}

/// The window grown downwards from `end`: later entries join while they
/// fit. Gives the end of the window.
pub open spec fn grow_down(rows: Seq<usize>, end: int, used: int, max: int) -> int
    decreases rows.len() - end,
{
    if 0 <= end < rows.len() && used + rows[end] <= max {
        grow_down(rows, end + 1, used + rows[end], max)
    } else {
        end
    }
}

/// The entry the note log keeps in view: the highlighted one, or the last.
pub open spec fn window_focus(n: int, selected: Option<usize>) -> int {
    match selected {
        Some(s) => if s < n - 1 {
            s as int
        } else {
            n - 1
        },
        None => n - 1,
    }
}

/// The entries the note log shows, from the first to before the end, for
/// entries taking `rows` rows each in a popup of `max` rows: the focused
/// entry, then earlier entries while they fit, then later ones.
pub open spec fn notes_window_of(rows: Seq<usize>, selected: Option<usize>, max: int) -> (int, int) {
    let focus = window_focus(rows.len() as int, selected);
    let first = if rows[focus] <= max {
        rows[focus] as int
    } else {
        max
    };
    let (start, used) = grow_up(rows, focus, first, max);
    (start, grow_down(rows, focus + 1, used, max))
}

proof fn lemma_grow_up(rows: Seq<usize>, start: int, used: int, max: int)
    requires
        0 <= start <= rows.len(),
        0 <= used <= max,
    ensures
        0 <= grow_up(rows, start, used, max).0 <= start,
        used <= grow_up(rows, start, used, max).1 <= max,
    decreases start,
{
    if 0 < start && used + rows[start - 1] <= max {
        lemma_grow_up(rows, start - 1, used + rows[start - 1], max);
    }
}

proof fn lemma_grow_down(rows: Seq<usize>, end: int, used: int, max: int)
    requires
        0 <= end <= rows.len(),
    ensures
        end <= grow_down(rows, end, used, max) <= rows.len(),
    decreases rows.len() - end,
{
    if end < rows.len() && used + rows[end] <= max {
        lemma_grow_down(rows, end + 1, used + rows[end], max);
    }
}

/// The entries of the note log in view, as `notes_window_of` says, given
/// how many rows each entry takes and how many rows the popup holds.
pub fn notes_window(group_rows: &[usize], selected: Option<usize>, max_rows: usize) -> (r: (usize, usize))
    requires
        group_rows@.len() > 0,
    ensures
        (r.0 as int, r.1 as int) == notes_window_of(group_rows@, selected, max_rows as int),
        r.0 <= window_focus(group_rows@.len() as int, selected) < r.1 <= group_rows@.len(),
{
    let n = group_rows.len();
    let focus = match selected {
        Some(s) => if s < n - 1 {
            s
        } else {
            n - 1
        },
        None => n - 1,
    };
    let mut used = if group_rows[focus] <= max_rows {
        group_rows[focus]
    } else {
        max_rows
    };
    let ghost first = used as int;
    let mut start = focus;
    while start > 0
        invariant
            0 <= start <= focus < n,
            n == group_rows@.len(),
            used <= max_rows,
            grow_up(group_rows@, start as int, used as int, max_rows as int) == grow_up(
                group_rows@,
                focus as int,
                first,
                max_rows as int,
            ),
        ensures
            0 <= start <= focus < n,
            used <= max_rows,
            grow_up(group_rows@, start as int, used as int, max_rows as int) == grow_up(
                group_rows@,
                focus as int,
                first,
                max_rows as int,
            ),
            start == 0 || used + group_rows@[start - 1] > max_rows,
        decreases start,
    {
        let prev = group_rows[start - 1];
        if prev > max_rows - used {
            break;
        }
        used = used + prev;
        start = start - 1;
    }
    let ghost up_used = used as int;
    proof {
        lemma_grow_up(group_rows@, focus as int, first, max_rows as int);
        assert(grow_up(group_rows@, start as int, used as int, max_rows as int) == (start as int, used as int));
    }
    let mut end = focus + 1;
    while end < n
        invariant
            focus < end <= n,
            n == group_rows@.len(),
            used <= max_rows,
            grow_down(group_rows@, end as int, used as int, max_rows as int) == grow_down(
                group_rows@,
                focus + 1,
                up_used,
                max_rows as int,
            ),
        ensures
            focus < end <= n,
            grow_down(group_rows@, end as int, used as int, max_rows as int) == grow_down(
                group_rows@,
                focus + 1,
                up_used,
                max_rows as int,
            ),
            end == n || used + group_rows@[end as int] > max_rows,
        decreases n - end,
    {
        let next = group_rows[end];
        if next > max_rows - used {
            break;
        }
        used = used + next;
        end = end + 1;
    }
    proof {
        lemma_grow_down(group_rows@, focus + 1, up_used, max_rows as int);
        assert(grow_down(group_rows@, end as int, used as int, max_rows as int) == end as int);
    }
    (start, end)
}

/// The note log popup's width: its longest row or its title, with the
/// border, at least 44 columns, at most the screen width less 2 (the
/// widest of the first two taken as a `u16`, as the screen counts columns).
pub open spec fn notes_popup_width_of(longest: int, title_width: int, area_width: int) -> int {
    let wide = (if longest >= title_width {
        longest + 2
    } else {
        title_width + 2
    }) as u16;
    let at_least = if wide >= 44 {
        wide as int
    } else {
        44
    };
    let cap = if area_width >= 2 {
        area_width - 2
    } else {
        0
    };
    if at_least <= cap {
        at_least
    } else {
        cap
    }
}

/// The note log popup's width, as `notes_popup_width_of` says.
pub fn notes_popup_width(longest: usize, title_width: usize, area_width: u16) -> (r: u16)
    requires
        longest + 2 <= usize::MAX,
        title_width + 2 <= usize::MAX,
    ensures
        r as int == notes_popup_width_of(longest as int, title_width as int, area_width as int),
{
    let w: usize = if longest >= title_width {
        longest + 2
    } else {
        title_width + 2
    };
    let wide = w as u16;
    let at_least: u16 = if wide >= 44 {
        wide
    } else {
        44
    };
    let cap: u16 = if area_width >= 2 {
        area_width - 2
    } else {
        0
    };
    if at_least <= cap {
        at_least
    } else {
        cap
    }
}

} // verus!
