//! A one-line text editor: the text and a cursor between characters, with
//! character and word motions and deletions.

use vstd::prelude::*;

use crate::text::{alphanumeric, byte_len_fits, char_is_alphanumeric, char_is_whitespace, chars_of, is_ws, string_of, utf8_len};

verus! {

/// The class of a character for word motions: 0 whitespace, 1 word
/// (alphanumeric or `_`), 2 separator.
pub open spec fn char_kind(c: char) -> int {
    if is_ws(c) {
        0
    } else if alphanumeric(c) || c == '_' {
        1
    } else {
        2
    }
}

/// Moving left from `i` over characters of class `k`.
pub open spec fn back_while(s: Seq<char>, i: int, k: int) -> int
    decreases i,
{
    if 0 < i <= s.len() && char_kind(s[i - 1]) == k {
        back_while(s, i - 1, k)
    } else {
        i
    }
}

/// Moving right from `i` over characters of class `k`.
pub open spec fn fwd_while(s: Seq<char>, i: int, k: int) -> int
    decreases s.len() - i,
{
    if 0 <= i < s.len() && char_kind(s[i]) == k {
        fwd_while(s, i + 1, k)
    } else {
        i
    }
}

/// Where a word motion to the left from `c` stops: past whitespace, then
/// past the run of characters of the class met there.
pub open spec fn word_left(s: Seq<char>, c: int) -> int {
    let j = back_while(s, c, 0);
    if j <= 0 {
        0
    } else {
        back_while(s, j, char_kind(s[j - 1]))
    }
}

/// Where a word motion to the right from `c` stops: past whitespace, then
/// past the run of characters of the class met there.
pub open spec fn word_right(s: Seq<char>, c: int) -> int {
    let j = fwd_while(s, c, 0);
    if j >= s.len() {
        s.len() as int
    } else {
        fwd_while(s, j, char_kind(s[j]))
    }
}

/// What an input shows: its text and the number of characters before the
/// cursor.
pub struct InputView {
    pub text: Seq<char>,
    pub cursor: nat,
}

/// The input after the character before the cursor is removed.
pub open spec fn view_backspace(v: InputView) -> InputView {
    if v.cursor == 0 {
        v
    } else {
        InputView { text: v.text.remove(v.cursor - 1), cursor: (v.cursor - 1) as nat }
    }
}

/// The input after the character at the cursor is removed.
pub open spec fn view_delete(v: InputView) -> InputView {
    if v.cursor >= v.text.len() {
        v
    } else {
        InputView { text: v.text.remove(v.cursor as int), cursor: v.cursor }
    }
}

/// The input after the word before the cursor is removed.
pub open spec fn view_delete_word_back(v: InputView) -> InputView {
    let w = word_left(v.text, v.cursor as int);
    InputView { text: v.text.take(w) + v.text.skip(v.cursor as int), cursor: w as nat }
}

/// The input after the word after the cursor is removed.
pub open spec fn view_delete_word_forward(v: InputView) -> InputView {
    let w = word_right(v.text, v.cursor as int);
    InputView { text: v.text.take(v.cursor as int) + v.text.skip(w), cursor: v.cursor }
}

/// The input with the cursor one character to the left, if it can go.
pub open spec fn view_left(v: InputView) -> InputView {
    InputView { cursor: if v.cursor > 0 { (v.cursor - 1) as nat } else { 0 }, ..v }
}

/// The input with the cursor one character to the right, if it can go.
pub open spec fn view_right(v: InputView) -> InputView {
    InputView { cursor: if v.cursor < v.text.len() { v.cursor + 1 } else { v.cursor }, ..v }
}

/// The input with the cursor at the start of the word before it.
pub open spec fn view_word_left(v: InputView) -> InputView {
    InputView { cursor: word_left(v.text, v.cursor as int) as nat, ..v }
}

/// The input with the cursor past the end of the word after it.
pub open spec fn view_word_right(v: InputView) -> InputView {
    InputView { cursor: word_right(v.text, v.cursor as int) as nat, ..v }
}

/// The input with the cursor at the start.
pub open spec fn view_home(v: InputView) -> InputView {
    InputView { cursor: 0, ..v }
}

/// The input with the cursor at the end.
pub open spec fn view_end(v: InputView) -> InputView {
    InputView { cursor: v.text.len(), ..v }
}

/// The input with `ch` typed at the cursor.
pub open spec fn view_insert(v: InputView, ch: char) -> InputView {
    InputView {
        text: v.text.take(v.cursor as int) + seq![ch] + v.text.skip(v.cursor as int),
        cursor: v.cursor + 1,
    }
}

/// A line of text being typed, with a cursor.
pub struct InputBuffer {
    text: String,
    cursor: usize,
}

impl View for InputBuffer {
    type V = InputView;

    closed spec fn view(&self) -> InputView {
        InputView { text: self.text@, cursor: self.cursor as nat }
    }
}

proof fn lemma_back_while(s: Seq<char>, i: int, k: int)
    requires
        0 <= i <= s.len(),
    ensures
        0 <= back_while(s, i, k) <= i,
        forall|m: int| back_while(s, i, k) <= m < i ==> char_kind(#[trigger] s[m]) == k,
        back_while(s, i, k) > 0 ==> char_kind(s[back_while(s, i, k) - 1]) != k,
    decreases i,
{
    if 0 < i && char_kind(s[i - 1]) == k {
        lemma_back_while(s, i - 1, k);
    }
}

proof fn lemma_fwd_while(s: Seq<char>, i: int, k: int)
    requires
        0 <= i <= s.len(),
    ensures
        i <= fwd_while(s, i, k) <= s.len(),
        forall|m: int| i <= m < fwd_while(s, i, k) ==> char_kind(#[trigger] s[m]) == k,
        fwd_while(s, i, k) < s.len() ==> char_kind(s[fwd_while(s, i, k)]) != k,
    decreases s.len() - i,
{
    if i < s.len() && char_kind(s[i]) == k {
        lemma_fwd_while(s, i + 1, k);
    }
}

fn kind_of(c: char) -> (r: u8)
    ensures
        r as int == char_kind(c),
{
    if char_is_whitespace(c) {
        0
    } else if char_is_alphanumeric(c) || c == '_' {
        1
    } else {
        2
    }
}

fn back_while_exec(s: &[char], i: usize, k: u8) -> (r: usize)
    requires
        i <= s.len(),
    ensures
        r as int == back_while(s@, i as int, k as int),
        r <= i,
{
    let mut j = i;
    while j > 0 && kind_of(s[j - 1]) == k
        invariant
            0 <= j <= i <= s.len(),
            back_while(s@, i as int, k as int) == back_while(s@, j as int, k as int),
        decreases j,
    {
        j = j - 1;
    }
    j
}

fn fwd_while_exec(s: &[char], i: usize, k: u8) -> (r: usize)
    requires
        i <= s.len(),
    ensures
        r as int == fwd_while(s@, i as int, k as int),
        i <= r <= s.len(),
{
    let mut j = i;
    while j < s.len() && kind_of(s[j]) == k
        invariant
            i <= j <= s.len(),
            fwd_while(s@, i as int, k as int) == fwd_while(s@, j as int, k as int),
        decreases s.len() - j,
    {
        j = j + 1;
    }
    j
}

fn word_left_exec(s: &[char], c: usize) -> (r: usize)
    requires
        c <= s.len(),
    ensures
        r as int == word_left(s@, c as int),
        r <= c,
{
    let j = back_while_exec(s, c, 0);
    if j == 0 {
        0
    } else {
        let k = kind_of(s[j - 1]);
        back_while_exec(s, j, k)
    }
}

fn word_right_exec(s: &[char], c: usize) -> (r: usize)
    requires
        c <= s.len(),
    ensures
        r as int == word_right(s@, c as int),
        c <= r <= s.len(),
{
    let j = fwd_while_exec(s, c, 0);
    if j >= s.len() {
        s.len()
    } else {
        let k = kind_of(s[j]);
        fwd_while_exec(s, j, k)
    }
}

/// `s` with the characters `a..b` removed.
fn cut(s: &[char], a: usize, b: usize) -> (r: Vec<char>)
    requires
        a <= b <= s.len(),
    ensures
        r@ == s@.take(a as int) + s@.skip(b as int),
{
    let mut r = crate::text::sub_chars(s, 0, a);
    let ghost base = r@;
    let mut i = b;
    while i < s.len()
        invariant
            b <= i <= s.len(),
            r@ == base + s@.subrange(b as int, i as int),
            base == s@.take(a as int),
        decreases s.len() - i,
    {
        r.push(s[i]);
        i = i + 1;
        assert(r@ =~= base + s@.subrange(b as int, i as int));
    }
    assert(s@.subrange(b as int, s.len() as int) =~= s@.skip(b as int));
    assert(s@.subrange(0, a as int) =~= s@.take(a as int));
    r
}

/// `s` with `ins` put in at `a`.
fn splice(s: &[char], a: usize, ins: &[char]) -> (r: Vec<char>)
    requires
        a <= s.len(),
    ensures
        r@ == s@.take(a as int) + ins@ + s@.skip(a as int),
{
    let mut r = crate::text::sub_chars(s, 0, a);
    assert(r@ =~= s@.take(a as int));
    let ghost base = r@;
    let mut i: usize = 0;
    while i < ins.len()
        invariant
            0 <= i <= ins.len(),
            r@ == base + ins@.take(i as int),
        decreases ins.len() - i,
    {
        r.push(ins[i]);
        i = i + 1;
        assert(r@ =~= base + ins@.take(i as int));
    }
    assert(ins@.take(ins.len() as int) =~= ins@);
    let ghost mid = r@;
    let mut j = a;
    while j < s.len()
        invariant
            a <= j <= s.len(),
            r@ == mid + s@.subrange(a as int, j as int),
        decreases s.len() - j,
    {
        r.push(s[j]);
        j = j + 1;
        assert(r@ =~= mid + s@.subrange(a as int, j as int));
    }
    assert(s@.subrange(a as int, s.len() as int) =~= s@.skip(a as int));
    r
}

impl InputBuffer {
    #[verifier::type_invariant]
    spec fn inv(self) -> bool {
        &&& self.cursor <= self.text@.len()
        &&& utf8_len(self.text@) <= usize::MAX
    }

    fn build(cs: &[char], cursor: usize) -> (r: Self)
        requires
            cursor <= cs.len(),
        ensures
            r@.text == cs@,
            r@.cursor == cursor,
    {
        let text = string_of(cs);
        byte_len_fits(&text);
        InputBuffer { text, cursor }
    }

    /// An empty line.
    pub fn new() -> (r: Self)
        ensures
            r@.text == Seq::<char>::empty(),
            r@.cursor == 0,
    {
        let e: Vec<char> = Vec::new();
        Self::build(e.as_slice(), 0)
    }

    /// The text typed so far.
    pub fn text(&self) -> (r: &str)
        ensures
            r@ == self@.text,
    {
        self.text.as_str()
    }

    /// The cursor as a byte offset into the text. The cursor of every line
    /// stays within its text: it sits after a whole number of characters,
    /// so its byte offset falls on a character boundary, no further than
    /// the text's length in bytes.
    pub fn cursor(&self) -> (r: usize)
        ensures
            r == utf8_len(self@.text.take(self@.cursor as int)),
            self@.cursor <= self@.text.len(),
            r <= utf8_len(self@.text),
    {
        proof {
            use_type_invariant(self);
            crate::text::lemma_utf8_len_prefix(self@.text, self@.cursor as int);
        }
        let cs = chars_of(self.text.as_str());
        let mut acc: usize = 0;
        let mut i: usize = 0;
        while i < self.cursor
            invariant
                0 <= i <= self.cursor <= cs.len(),
                cs@ == self.text@,
                acc == utf8_len(cs@.take(i as int)),
                utf8_len(cs@) <= usize::MAX,
            decreases self.cursor - i,
        {
            let c = cs[i];
            let u = c as u32;
            let w: usize = if u < 0x80 {
                1
            } else if u < 0x800 {
                2
            } else if u < 0x10000 {
                3
            } else {
                4
            };
            assert(cs@.take(i + 1).drop_last() =~= cs@.take(i as int));
            assert(cs@.take(i + 1).last() == c);
            proof {
                crate::text::lemma_utf8_len_prefix(cs@, i + 1);
            }
            acc = acc + w;
            i = i + 1;
        }
        acc
    }

    /// Whether nothing is typed.
    pub fn is_empty(&self) -> (r: bool)
        ensures
            r == (self@.text.len() == 0),
    {
        self.text.as_str().is_empty()
    }

    /// Empties the line.
    pub fn clear(&mut self)
        ensures
            final(self)@.text == Seq::<char>::empty(),
            final(self)@.cursor == 0,
    {
        *self = Self::new();
    }

    /// Replaces the line by `text`, with the cursor at its end.
    pub fn set_text(&mut self, text: &str)
        ensures
            final(self)@.text == text@,
            final(self)@.cursor == text@.len(),
    {
        let cs = chars_of(text);
        *self = Self::build(cs.as_slice(), cs.len());
    }

    /// Types `ch` at the cursor.
    pub fn insert_char(&mut self, ch: char)
        ensures
            final(self)@.text == old(self)@.text.take(old(self)@.cursor as int) + seq![ch] + old(
                self,
            )@.text.skip(old(self)@.cursor as int),
            final(self)@.cursor == old(self)@.cursor + 1,
    {
        proof {
            use_type_invariant(&*self);
        }
        let cs = chars_of(self.text.as_str());
        let one = vec![ch];
        let t = splice(cs.as_slice(), self.cursor, one.as_slice());
        assert(one@ =~= seq![ch]);
        let n = t.len();
        assert(self.cursor + 1 <= n);
        *self = Self::build(t.as_slice(), self.cursor + 1);
    }

    /// Types `s` at the cursor.
    pub fn insert_str(&mut self, s: &str)
        ensures
            final(self)@.text == old(self)@.text.take(old(self)@.cursor as int) + s@ + old(
                self,
            )@.text.skip(old(self)@.cursor as int),
            final(self)@.cursor == old(self)@.cursor + s@.len(),
    {
        proof {
            use_type_invariant(&*self);
        }
        let cs = chars_of(self.text.as_str());
        let ins = chars_of(s);
        let t = splice(cs.as_slice(), self.cursor, ins.as_slice());
        let n = t.len();
        assert(self.cursor + ins.len() <= n);
        *self = Self::build(t.as_slice(), self.cursor + ins.len());
    }

    /// Deletes the character before the cursor.
    pub fn backspace(&mut self)
        ensures
            old(self)@.cursor == 0 ==> final(self)@ == old(self)@,
            old(self)@.cursor > 0 ==> final(self)@.text == old(self)@.text.remove(
                old(self)@.cursor - 1,
            ) && final(self)@.cursor == old(self)@.cursor - 1,
    {
        proof {
            use_type_invariant(&*self);
        }
        if self.cursor > 0 {
            let cs = chars_of(self.text.as_str());
            let t = cut(cs.as_slice(), self.cursor - 1, self.cursor);
            assert(t@ =~= cs@.remove(self.cursor - 1));
            *self = Self::build(t.as_slice(), self.cursor - 1);
        }
    }

    /// Deletes the character after the cursor.
    pub fn delete(&mut self)
        ensures
            old(self)@.cursor >= old(self)@.text.len() ==> final(self)@ == old(self)@,
            old(self)@.cursor < old(self)@.text.len() ==> final(self)@.text == old(
                self,
            )@.text.remove(old(self)@.cursor as int) && final(self)@.cursor == old(self)@.cursor,
    {
        proof {
            use_type_invariant(&*self);
        }
        let cs = chars_of(self.text.as_str());
        if self.cursor < cs.len() {
            let t = cut(cs.as_slice(), self.cursor, self.cursor + 1);
            assert(t@ =~= cs@.remove(self.cursor as int));
            *self = Self::build(t.as_slice(), self.cursor);
        }
    }

    /// Deletes from the cursor back to where a word motion to the left
    /// stops.
    pub fn delete_word_back(&mut self)
        ensures
            ({
                let s = old(self)@.text;
                let c = old(self)@.cursor as int;
                let w = word_left(s, c);
                &&& final(self)@.text == s.take(w) + s.skip(c)
                &&& final(self)@.cursor == w
            }),
    {
        proof {
            use_type_invariant(&*self);
        }
        let cs = chars_of(self.text.as_str());
        let start = word_left_exec(cs.as_slice(), self.cursor);
        let t = cut(cs.as_slice(), start, self.cursor);
        proof {
            if start == self.cursor {
                assert(t@ =~= cs@);
            }
        }
        *self = Self::build(t.as_slice(), start);
    }

    /// Deletes from the cursor up to where a word motion to the right
    /// stops.
    pub fn delete_word_forward(&mut self)
        ensures
            ({
                let s = old(self)@.text;
                let c = old(self)@.cursor as int;
                let w = word_right(s, c);
                &&& final(self)@.text == s.take(c) + s.skip(w)
                &&& final(self)@.cursor == c
            }),
    {
        proof {
            use_type_invariant(&*self);
        }
        let cs = chars_of(self.text.as_str());
        let end = word_right_exec(cs.as_slice(), self.cursor);
        let t = cut(cs.as_slice(), self.cursor, end);
        proof {
            if end == self.cursor {
                assert(t@ =~= cs@);
            }
        }
        *self = Self::build(t.as_slice(), self.cursor);
    }

    /// Moves the cursor one character left, if it can.
    pub fn move_left(&mut self)
        ensures
            final(self)@.text == old(self)@.text,
            final(self)@.cursor == if old(self)@.cursor > 0 {
                old(self)@.cursor - 1
            } else {
                0int
            },
    {
        proof {
            use_type_invariant(&*self);
        }
        if self.cursor > 0 {
            let cs = chars_of(self.text.as_str());
            *self = Self::build(cs.as_slice(), self.cursor - 1);
        }
    }

    /// Moves the cursor one character right, if it can.
    pub fn move_right(&mut self)
        ensures
            final(self)@.text == old(self)@.text,
            final(self)@.cursor == if old(self)@.cursor < old(self)@.text.len() {
                old(self)@.cursor + 1
            } else {
                old(self)@.cursor
            },
    {
        proof {
            use_type_invariant(&*self);
        }
        let cs = chars_of(self.text.as_str());
        if self.cursor < cs.len() {
            *self = Self::build(cs.as_slice(), self.cursor + 1);
        }
    }

    /// Moves the cursor to where a word motion to the left stops.
    pub fn move_word_left(&mut self)
        ensures
            final(self)@.text == old(self)@.text,
            final(self)@.cursor == word_left(old(self)@.text, old(self)@.cursor as int),
    {
        proof {
            use_type_invariant(&*self);
        }
        let cs = chars_of(self.text.as_str());
        let w = word_left_exec(cs.as_slice(), self.cursor);
        *self = Self::build(cs.as_slice(), w);
    }

    /// Moves the cursor to where a word motion to the right stops.
    pub fn move_word_right(&mut self)
        ensures
            final(self)@.text == old(self)@.text,
            final(self)@.cursor == word_right(old(self)@.text, old(self)@.cursor as int),
    {
        proof {
            use_type_invariant(&*self);
        }
        let cs = chars_of(self.text.as_str());
        let w = word_right_exec(cs.as_slice(), self.cursor);
        *self = Self::build(cs.as_slice(), w);
    }

    /// Moves the cursor to the start of the line.
    pub fn move_home(&mut self)
        ensures
            final(self)@.text == old(self)@.text,
            final(self)@.cursor == 0,
    {
        let cs = chars_of(self.text.as_str());
        *self = Self::build(cs.as_slice(), 0);
    }

    /// Moves the cursor to the end of the line.
    pub fn move_end(&mut self)
        ensures
            final(self)@.text == old(self)@.text,
            final(self)@.cursor == old(self)@.text.len(),
    {
        let cs = chars_of(self.text.as_str());
        *self = Self::build(cs.as_slice(), cs.len());
    }
}

/// A word motion to the right from `c` skips the whitespace after the
/// cursor and then the whole run of characters of the class met there (a
/// word, or a run of separators), stopping where that run ends: when `j` is
/// the first character at or after `c` that is not whitespace, the motion
/// stops past `j`, every character from `j` up to the stop has the class of
/// `s[j]`, and the character at the stop, if any, has another class. With
/// only whitespace after the cursor it stops at the end of the line.
pub proof fn law_word_right_ends_run(s: Seq<char>, c: int, j: int)
    requires
        0 <= c <= s.len(),
    ensures
        c <= word_right(s, c) <= s.len(),
        (forall|k: int| c <= k < s.len() ==> is_ws(#[trigger] s[k])) ==> word_right(s, c) == s.len(),
        c <= j < s.len() && !is_ws(s[j]) && (forall|k: int| c <= k < j ==> is_ws(#[trigger] s[k])) ==> {
            let r = word_right(s, c);
            &&& j < r
            &&& forall|k: int| j <= k < r ==> char_kind(#[trigger] s[k]) == char_kind(s[j])
            &&& r < s.len() ==> char_kind(s[r]) != char_kind(s[j])
        },
{
    let j0 = fwd_while(s, c, 0);
    lemma_fwd_while(s, c, 0);
    if j0 < s.len() {
        lemma_fwd_while(s, j0, char_kind(s[j0]));
    }
    if c <= j < s.len() && !is_ws(s[j]) && (forall|k: int| c <= k < j ==> is_ws(#[trigger] s[k])) {
        if j0 < j {
            assert(is_ws(s[j0]));
        }
        if j < j0 {
            assert(char_kind(s[j]) == 0);
        }
        assert(j0 == j);
    }
    if (forall|k: int| c <= k < s.len() ==> is_ws(#[trigger] s[k])) && j0 < s.len() {
        assert(is_ws(s[j0]));
    }
}

/// A word motion to the left from `c` skips the whitespace before the
/// cursor and then the whole run of characters of the class met there,
/// stopping where that run starts: when `j` is the last character before
/// `c` that is not whitespace, the motion stops at or before `j`, every
/// character from the stop through `j` has the class of `s[j]`, and the
/// character before the stop, if any, has another class. With only
/// whitespace before the cursor it stops at the start of the line.
pub proof fn law_word_left_starts_run(s: Seq<char>, c: int, j: int)
    requires
        0 <= c <= s.len(),
    ensures
        0 <= word_left(s, c) <= c,
        (forall|k: int| 0 <= k < c ==> is_ws(#[trigger] s[k])) ==> word_left(s, c) == 0,
        0 <= j < c && !is_ws(s[j]) && (forall|k: int| j < k < c ==> is_ws(#[trigger] s[k])) ==> {
            let r = word_left(s, c);
            &&& r <= j
            &&& forall|k: int| r <= k <= j ==> char_kind(#[trigger] s[k]) == char_kind(s[j])
            &&& r > 0 ==> char_kind(s[r - 1]) != char_kind(s[j])
        },
{
    let j0 = back_while(s, c, 0);
    lemma_back_while(s, c, 0);
    if j0 > 0 {
        lemma_back_while(s, j0, char_kind(s[j0 - 1]));
    }
    if 0 <= j < c && !is_ws(s[j]) && (forall|k: int| j < k < c ==> is_ws(#[trigger] s[k])) {
        if j0 - 1 > j {
            assert(is_ws(s[j0 - 1]));
        }
        if j0 - 1 < j {
            assert(char_kind(s[j]) == 0);
        }
        assert(j0 - 1 == j);
    }
    if (forall|k: int| 0 <= k < c ==> is_ws(#[trigger] s[k])) && j0 > 0 {
        assert(is_ws(s[j0 - 1]));
    }
}

/// Typing a character and deleting it with backspace gives back the line
/// and the cursor as they were.
pub proof fn law_insert_then_backspace(v0: InputView, v1: InputView, v2: InputView, ch: char)
    requires
        v0.cursor <= v0.text.len(),
        v1.text == v0.text.take(v0.cursor as int) + seq![ch] + v0.text.skip(v0.cursor as int),
        v1.cursor == v0.cursor + 1,
        v1.cursor > 0 ==> v2.text == v1.text.remove(v1.cursor - 1) && v2.cursor == v1.cursor - 1,
    ensures
        v2.text == v0.text,
        v2.cursor == v0.cursor,
{
    assert(v2.text =~= v0.text);
}

} // verus!
