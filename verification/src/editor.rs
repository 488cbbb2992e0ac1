//! The text buffers of the studio: an editable text with a cursor and a
//! scrollable log, and how they are drawn into fixed-size panels.

use vstd::prelude::*;
use crate::text::{all_ws, is_blank, clip_line, clip_seq, slice_chars, slice_seq, decimal, decimal_string, pad_left, pad_left_string, chars_of, string_of, string_of_range, push_char, push_str, text_char_len, join_lines, strings_view, join_with_newlines};

verus! {

/// The text with `c` inserted at character index `i`, or at the end when `i`
/// is past it.
pub open spec fn insert_at(s: Seq<char>, i: int, c: char) -> Seq<char> {
    let k = if i < s.len() { i } else { s.len() as int };
    s.subrange(0, k).push(c) + s.subrange(k, s.len() as int)
}

/// The text without its character at index `i`; unchanged when there is
/// none.
pub open spec fn remove_at(s: Seq<char>, i: int) -> Seq<char> {
    if 0 <= i < s.len() {
        s.remove(i)
    } else {
        s
    }
}

/// Inserts a character at a character index (at the end when the index is
/// past it).
pub fn insert_char_at(text: &mut String, char_index: usize, ch: char)
    ensures
        final(text)@ == insert_at(old(text)@, char_index as int, ch),
{
    let chars = chars_of(text.as_str());
    let k = if char_index < chars.len() { char_index } else { chars.len() };
    let mut s = string_of_range(&chars, 0, k);
    push_char(&mut s, ch);
    let tail = string_of_range(&chars, k, chars.len());
    push_str(&mut s, tail.as_str());
    *text = s;
}

/// Removes the character at a character index, if there is one.
pub fn remove_char_at(text: &mut String, char_index: usize)
    ensures
        final(text)@ == remove_at(old(text)@, char_index as int),
{
    let chars = chars_of(text.as_str());
    if char_index < chars.len() {
        let mut s = string_of_range(&chars, 0, char_index);
        let tail = string_of_range(&chars, char_index + 1, chars.len());
        push_str(&mut s, tail.as_str());
        assert(s@ =~= old(text)@.remove(char_index as int));
        *text = s;
    }
}

/// Drops one trailing carriage return.
pub open spec fn strip_cr(s: Seq<char>) -> Seq<char> {
    if s.len() > 0 && s.last() == '\r' {
        s.drop_last()
    } else {
        s
    }
}

/// The lines `str::lines` yields from `s`, continuing a current line `cur`
/// after the lines `done`: a newline ends a line (dropping one carriage
/// return before it), and a last line without a newline is kept as is.
pub open spec fn lines_from(s: Seq<char>, cur: Seq<char>, done: Seq<Seq<char>>) -> Seq<Seq<char>>
    decreases s.len(),
{
    if s.len() == 0 {
        if cur.len() == 0 {
            done
        } else {
            done.push(cur)
        }
    } else if s[0] == '\n' {
        lines_from(s.drop_first(), Seq::empty(), done.push(strip_cr(cur)))
    } else {
        lines_from(s.drop_first(), cur.push(s[0]), done)
    }
}

/// The lines of a text, as `str::lines` yields them.
pub open spec fn split_lines(s: Seq<char>) -> Seq<Seq<char>> {
    lines_from(s, Seq::empty(), Seq::empty())
}

/// Splits a text into lines as `str::lines` does.
pub fn text_lines(text: &str) -> (lines: Vec<String>)
    ensures
        strings_view(lines@) == split_lines(text@),
{
    let chars = chars_of(text);
    let mut lines: Vec<String> = Vec::new();
    let mut cur: Vec<char> = Vec::new();
    let mut i: usize = 0;
    assert(text@.subrange(0, text@.len() as int) =~= text@);
    assert(cur@ =~= Seq::<char>::empty());
    assert(strings_view(lines@) =~= Seq::<Seq<char>>::empty());
    while i < chars.len()
        invariant
            i <= chars@.len(),
            chars@ == text@,
            lines_from(text@.subrange(i as int, text@.len() as int), cur@, strings_view(lines@)) == split_lines(text@),
        decreases chars@.len() - i,
    {
        let ghost rest = text@.subrange(i as int, text@.len() as int);
        assert(rest.drop_first() =~= text@.subrange(i + 1, text@.len() as int));
        if chars[i] == '\n' {
            let n = cur.len();
            let line = if n > 0 && cur[n - 1] == '\r' {
                string_of_range(&cur, 0, n - 1)
            } else {
                string_of(&cur)
            };
            proof {
                if n > 0 && cur@[n - 1] == '\r' {
                    assert(cur@.subrange(0, n - 1) =~= cur@.drop_last());
                }
            }
            let ghost before = strings_view(lines@);
            lines.push(line);
            assert(strings_view(lines@) =~= before.push(strip_cr(cur@)));
            cur = Vec::new();
        } else {
            cur.push(chars[i]);
        }
        i = i + 1;
    }
    assert(text@.subrange(chars@.len() as int, text@.len() as int) =~= Seq::<char>::empty());
    if cur.len() > 0 {
        let ghost before = strings_view(lines@);
        lines.push(string_of(&cur));
        assert(strings_view(lines@) =~= before.push(cur@));
    }
    lines
}

/// An editable text with a cursor and scroll offsets, counted in characters
/// and lines.
#[derive(Debug, Clone)]
pub struct TextBuffer {
    lines: Vec<String>,
    cursor_x: usize,
    cursor_y: usize,
    scroll: usize,
    hscroll: usize,
}

impl TextBuffer {
    /// The lines of the text.
    pub closed spec fn text_lines(&self) -> Seq<Seq<char>> {
        strings_view(self.lines@)
    }

    /// The cursor column, in characters.
    pub closed spec fn cursor_col(&self) -> nat {
        self.cursor_x as nat
    }

    /// The cursor line.
    pub closed spec fn cursor_row(&self) -> nat {
        self.cursor_y as nat
    }

    /// The first visible line.
    pub closed spec fn top_row(&self) -> nat {
        self.scroll as nat
    }

    /// The first visible column.
    pub closed spec fn left_col(&self) -> nat {
        self.hscroll as nat
    }

    /// A buffer has a line, the cursor is on a line, and within or at the
    /// end of it.
    pub open spec fn wf(&self) -> bool {
        &&& self.text_lines().len() > 0
        &&& self.cursor_row() < self.text_lines().len()
        &&& self.cursor_col() <= self.text_lines()[self.cursor_row() as int].len()
    }

    /// The cursor's column and line.
    pub fn cursor(&self) -> (r: (usize, usize))
        ensures
            r.0 == self.cursor_col(),
            r.1 == self.cursor_row(),
    {
        (self.cursor_x, self.cursor_y)
    }

    /// The first visible column and line.
    pub fn view_origin(&self) -> (r: (usize, usize))
        ensures
            r.0 == self.left_col(),
            r.1 == self.top_row(),
    {
        (self.hscroll, self.scroll)
    }

    /// The lines of the text.
    pub fn lines(&self) -> (r: &Vec<String>)
        ensures
            strings_view(r@) == self.text_lines(),
    {
        &self.lines
    }

    /// An empty buffer: one empty line, the cursor and the view at the start.
    pub fn new_empty() -> (b: Self)
        ensures
            b.wf(),
            b.text_lines() == seq![Seq::<char>::empty()],
            b.cursor_col() == 0 && b.cursor_row() == 0 && b.top_row() == 0 && b.left_col() == 0,
    {
        let mut lines: Vec<String> = Vec::new();
        lines.push(String::new());
        let b = TextBuffer { lines, cursor_x: 0, cursor_y: 0, scroll: 0, hscroll: 0 };
        assert(b.text_lines() =~= seq![Seq::<char>::empty()]);
        b
    }

    /// A buffer holding a text, with the cursor and the view at the start.
    /// An empty text gives one empty line; otherwise the lines are those
    /// `str::lines` yields.
    pub fn from_text(text: &str) -> (b: Self)
        ensures
            b.wf(),
            b.text_lines() == (if text@.len() == 0 { seq![Seq::<char>::empty()] } else { split_lines(text@) }),
            b.cursor_col() == 0 && b.cursor_row() == 0 && b.top_row() == 0 && b.left_col() == 0,
    {
        if text.unicode_len() == 0 {
            return Self::new_empty();
        }
        let mut lines = text_lines(text);
        proof {
            lemma_split_lines_nonempty(text@);
        }
        if lines.len() == 0 {
            lines.push(String::new());
        }
        TextBuffer { lines, cursor_x: 0, cursor_y: 0, scroll: 0, hscroll: 0 }
    }

    /// The text: the lines joined by newlines.
    pub fn to_text(&self) -> (text: String)
        ensures
            text@ == join_lines(self.text_lines()),
    {
        join_with_newlines(&self.lines)
    }

    /// Replaces the whole text, resetting the cursor and the view.
    pub fn set_text(&mut self, text: &str)
        ensures
            final(self).wf(),
            final(self).text_lines() == (if text@.len() == 0 { seq![Seq::<char>::empty()] } else { split_lines(text@) }),
            final(self).cursor_col() == 0 && final(self).cursor_row() == 0,
            final(self).top_row() == 0 && final(self).left_col() == 0,
    {
        *self = Self::from_text(text);
    }

    /// Adds an empty line when the buffer has none.
    pub fn ensure_nonempty(&mut self)
        ensures
            final(self).text_lines() == (if old(self).text_lines().len() == 0 {
                seq![Seq::<char>::empty()]
            } else {
                old(self).text_lines()
            }),
            final(self).cursor_col() == old(self).cursor_col(),
            final(self).cursor_row() == old(self).cursor_row(),
            final(self).top_row() == old(self).top_row(),
            final(self).left_col() == old(self).left_col(),
    {
        if self.lines.len() == 0 {
            self.lines.push(String::new());
            assert(self.text_lines() =~= seq![Seq::<char>::empty()]);
        }
    }

    /// Moves the cursor onto the last line when it is below it, and to the
    /// end of its line when it is past that.
    pub fn clamp_cursor(&mut self)
        ensures
            final(self).wf(),
            final(self).text_lines() == (if old(self).text_lines().len() == 0 {
                seq![Seq::<char>::empty()]
            } else {
                old(self).text_lines()
            }),
            final(self).cursor_row() == (if old(self).cursor_row() < final(self).text_lines().len() {
                old(self).cursor_row()
            } else {
                (final(self).text_lines().len() - 1) as nat
            }),
            final(self).cursor_col() == (if old(self).cursor_col() <= final(self).text_lines()[final(self).cursor_row() as int].len() {
                old(self).cursor_col()
            } else {
                final(self).text_lines()[final(self).cursor_row() as int].len()
            }),
            final(self).top_row() == old(self).top_row(),
            final(self).left_col() == old(self).left_col(),
    {
        self.ensure_nonempty();
        assert(self.lines@.len() == self.text_lines().len());
        if self.cursor_y >= self.lines.len() {
            self.cursor_y = self.lines.len() - 1;
        }
        let line_len = text_char_len(self.lines[self.cursor_y].as_str());
        if self.cursor_x > line_len {
            self.cursor_x = line_len;
        }
    }
}


impl TextBuffer {
    /// The text and cursor of the buffer.
    pub open spec fn state(&self) -> TextState {
        TextState { lines: self.text_lines(), x: self.cursor_col(), y: self.cursor_row() }
    }

    fn set_line(&mut self, y: usize, line: String)
        requires
            y < old(self).text_lines().len(),
        ensures
            final(self).text_lines() == old(self).text_lines().update(y as int, line@),
            final(self).cursor_col() == old(self).cursor_col(),
            final(self).cursor_row() == old(self).cursor_row(),
            final(self).top_row() == old(self).top_row(),
            final(self).left_col() == old(self).left_col(),
    {
        self.lines.set(y, line);
        assert(self.text_lines() =~= old(self).text_lines().update(y as int, line@));
    }

    /// Scrolls so that the cursor lies inside a panel of the given size, the
    /// line-number gutter taking five columns.
    pub fn ensure_visible(&mut self, visible_height: usize, visible_width: usize)
        requires
            old(self).wf(),
            (if old(self).cursor_row() < old(self).top_row() { old(self).cursor_row() } else { old(self).top_row() })
                + (if visible_height > 1 { visible_height as nat } else { 1 }) <= usize::MAX,
            (if old(self).cursor_col() < old(self).left_col() { old(self).cursor_col() } else { old(self).left_col() })
                + (if visible_width > 6 { (visible_width - 5) as nat } else { 1 }) <= usize::MAX,
        ensures
            final(self).wf(),
            final(self).state() == old(self).state(),
            final(self).top_row() == follow(
                old(self).cursor_row(),
                old(self).top_row(),
                if visible_height > 1 { visible_height as nat } else { 1 },
            ),
            final(self).left_col() == follow(
                old(self).cursor_col(),
                old(self).left_col(),
                if visible_width > 6 { (visible_width - 5) as nat } else { 1 },
            ),
    {
        let visible_height = if visible_height > 1 { visible_height } else { 1 };
        let visible_width = if visible_width > 6 { visible_width } else { 6 };
        let content_width = if visible_width - 5 > 1 { visible_width - 5 } else { 1 };
        self.clamp_cursor();
        if self.cursor_y < self.scroll {
            self.scroll = self.cursor_y;
        }
        if self.cursor_y >= self.scroll + visible_height {
            self.scroll = self.cursor_y - (visible_height - 1);
        }
        if self.cursor_x < self.hscroll {
            self.hscroll = self.cursor_x;
        }
        if self.cursor_x >= self.hscroll + content_width {
            self.hscroll = self.cursor_x - (content_width - 1);
        }
    }

    /// Moves the cursor up a line.
    pub fn move_up(&mut self)
        requires
            old(self).wf(),
        ensures
            final(self).wf(),
            final(self).state() == move_up_state(old(self).state()),
            final(self).top_row() == old(self).top_row(),
            final(self).left_col() == old(self).left_col(),
    {
        self.cursor_y = if self.cursor_y > 0 { self.cursor_y - 1 } else { 0 };
        self.clamp_cursor();
    }

    /// Moves the cursor down a line.
    pub fn move_down(&mut self)
        requires
            old(self).wf(),
        ensures
            final(self).wf(),
            final(self).state() == move_down_state(old(self).state()),
            final(self).top_row() == old(self).top_row(),
            final(self).left_col() == old(self).left_col(),
    {
        assert(self.lines@.len() == self.text_lines().len());
        if self.cursor_y < self.lines.len() - 1 {
            self.cursor_y = self.cursor_y + 1;
        }
        self.clamp_cursor();
    }

    /// Moves the cursor left a character, or to the end of the previous line.
    pub fn move_left(&mut self)
        requires
            old(self).wf(),
        ensures
            final(self).wf(),
            final(self).state() == move_left_state(old(self).state()),
            final(self).top_row() == old(self).top_row(),
            final(self).left_col() == old(self).left_col(),
    {
        if self.cursor_x > 0 {
            self.cursor_x = self.cursor_x - 1;
        } else if self.cursor_y > 0 {
            self.cursor_y = self.cursor_y - 1;
            self.cursor_x = text_char_len(self.lines[self.cursor_y].as_str());
        }
    }

    /// Moves the cursor right a character, or to the start of the next line.
    pub fn move_right(&mut self)
        requires
            old(self).wf(),
        ensures
            final(self).wf(),
            final(self).state() == move_right_state(old(self).state()),
            final(self).top_row() == old(self).top_row(),
            final(self).left_col() == old(self).left_col(),
    {
        assert(self.lines@.len() == self.text_lines().len());
        let line_len = text_char_len(self.lines[self.cursor_y].as_str());
        if self.cursor_x < line_len {
            self.cursor_x = self.cursor_x + 1;
        } else if self.cursor_y < self.lines.len() - 1 {
            self.cursor_y = self.cursor_y + 1;
            self.cursor_x = 0;
        }
    }

    /// Moves the cursor to the start of its line.
    pub fn move_home(&mut self)
        requires
            old(self).wf(),
        ensures
            final(self).wf(),
            final(self).state() == (TextState { x: 0, ..old(self).state() }),
            final(self).top_row() == old(self).top_row(),
            final(self).left_col() == old(self).left_col(),
    {
        self.cursor_x = 0;
    }

    /// Moves the cursor to the end of its line.
    pub fn move_end(&mut self)
        requires
            old(self).wf(),
        ensures
            final(self).wf(),
            final(self).state() == (TextState { x: line_len(old(self).state(), old(self).cursor_row() as int), ..old(self).state() }),
            final(self).top_row() == old(self).top_row(),
            final(self).left_col() == old(self).left_col(),
    {
        self.cursor_x = text_char_len(self.lines[self.cursor_y].as_str());
    }

    /// Moves the cursor up by a page of lines.
    pub fn page_up(&mut self, visible_height: usize)
        requires
            old(self).wf(),
        ensures
            final(self).wf(),
            final(self).state() == ({
                let s = old(self).state();
                let y = if s.y >= visible_height { (s.y - visible_height) as nat } else { 0 };
                TextState { lines: s.lines, y, x: if s.x <= line_len(s, y as int) { s.x } else { line_len(s, y as int) } }
            }),
            final(self).top_row() == old(self).top_row(),
            final(self).left_col() == old(self).left_col(),
    {
        self.cursor_y = if self.cursor_y >= visible_height { self.cursor_y - visible_height } else { 0 };
        self.clamp_cursor();
    }

    /// Moves the cursor down by a page of lines, stopping at the last line.
    pub fn page_down(&mut self, visible_height: usize)
        requires
            old(self).wf(),
            old(self).cursor_row() + visible_height <= usize::MAX,
        ensures
            final(self).wf(),
            final(self).state() == ({
                let s = old(self).state();
                let y = if s.y + visible_height < s.lines.len() - 1 { (s.y + visible_height) as nat } else { (s.lines.len() - 1) as nat };
                TextState { lines: s.lines, y, x: if s.x <= line_len(s, y as int) { s.x } else { line_len(s, y as int) } }
            }),
            final(self).top_row() == old(self).top_row(),
            final(self).left_col() == old(self).left_col(),
    {
        let last = self.lines.len() - 1;
        let target = self.cursor_y + visible_height;
        self.cursor_y = if target < last { target } else { last };
        self.clamp_cursor();
    }

    /// Inserts a character at the cursor and moves past it.
    pub fn insert_char(&mut self, ch: char)
        requires
            old(self).wf(),
            old(self).cursor_col() < usize::MAX,
        ensures
            final(self).wf(),
            final(self).state() == insert_char_state(old(self).state(), ch),
            final(self).top_row() == old(self).top_row(),
            final(self).left_col() == old(self).left_col(),
    {
        let y = self.cursor_y;
        let mut line = self.lines[y].clone();
        insert_char_at(&mut line, self.cursor_x, ch);
        self.set_line(y, line);
        self.cursor_x = self.cursor_x + 1;
    }

    /// Inserts each character of a text at the cursor.
    pub fn insert_str(&mut self, text: &str)
        requires
            old(self).wf(),
            old(self).cursor_col() + text@.len() <= usize::MAX,
        ensures
            final(self).wf(),
            final(self).state() == ({
                let s = old(self).state();
                let line = s.lines[s.y as int];
                TextState {
                    lines: s.lines.update(s.y as int, line.subrange(0, s.x as int) + text@ + line.subrange(s.x as int, line.len() as int)),
                    x: s.x + text@.len(),
                    y: s.y,
                }
            }),
            final(self).top_row() == old(self).top_row(),
            final(self).left_col() == old(self).left_col(),
    {
        let chars = chars_of(text);
        let ghost s0 = self.state();
        let ghost line0 = s0.lines[s0.y as int];
        let mut i: usize = 0;
        assert(line0.subrange(0, s0.x as int) + chars@.subrange(0, 0) + line0.subrange(s0.x as int, line0.len() as int) =~= line0);
        assert(s0.lines.update(s0.y as int, line0) =~= s0.lines);
        while i < chars.len()
            invariant
                i <= chars@.len(),
                chars@ == text@,
                old(self).wf(),
                self.wf(),
                s0 == old(self).state(),
                line0 == s0.lines[s0.y as int],
                s0.x + chars@.len() <= usize::MAX,
                self.state() == (TextState {
                    lines: s0.lines.update(s0.y as int, line0.subrange(0, s0.x as int) + chars@.subrange(0, i as int) + line0.subrange(s0.x as int, line0.len() as int)),
                    x: (s0.x + i) as nat,
                    y: s0.y,
                }),
                self.top_row() == old(self).top_row(),
                self.left_col() == old(self).left_col(),
            decreases chars@.len() - i,
        {
            let ghost before = self.state();
            self.insert_char(chars[i]);
            proof {
                let pre = line0.subrange(0, s0.x as int) + chars@.subrange(0, i as int);
                let post = line0.subrange(s0.x as int, line0.len() as int);
                let l = pre + post;
                assert(before.lines[s0.y as int] == l);
                assert(insert_at(l, (s0.x + i) as int, chars@[i as int]) =~= line0.subrange(0, s0.x as int) + chars@.subrange(0, i + 1) + post);
                assert(self.state().lines =~= s0.lines.update(s0.y as int, line0.subrange(0, s0.x as int) + chars@.subrange(0, i + 1) + post));
            }
            i = i + 1;
        }
        assert(chars@.subrange(0, chars@.len() as int) =~= chars@);
    }

    /// Splits the cursor's line at the cursor and moves to the start of the
    /// new line, scrolling back to the first column.
    pub fn insert_newline(&mut self)
        requires
            old(self).wf(),
        ensures
            final(self).wf(),
            final(self).state() == insert_newline_state(old(self).state()),
            final(self).top_row() == old(self).top_row(),
            final(self).left_col() == 0,
    {
        assert(self.lines@.len() == self.text_lines().len());
        let y = self.cursor_y;
        let chars = chars_of(self.lines[y].as_str());
        let head = string_of_range(&chars, 0, self.cursor_x);
        let tail = string_of_range(&chars, self.cursor_x, chars.len());
        let ghost before = self.text_lines();
        let n = self.lines.len();
        assert(y < n);
        self.lines.set(y, head);
        self.lines.insert(y + 1, tail);
        self.cursor_y = y + 1;
        self.cursor_x = 0;
        self.hscroll = 0;
        assert(self.text_lines() =~= insert_newline_state(old(self).state()).lines);
    }

    /// Deletes the character before the cursor, or joins the cursor's line to
    /// the previous one; returns whether the text changed.
    pub fn backspace(&mut self) -> (edited: bool)
        requires
            old(self).wf(),
        ensures
            final(self).wf(),
            edited == backspace_edits(old(self).state()),
            final(self).state() == backspace_state(old(self).state()),
            final(self).top_row() == old(self).top_row(),
            final(self).left_col() == old(self).left_col(),
    {
        if self.cursor_x > 0 {
            let y = self.cursor_y;
            let mut line = self.lines[y].clone();
            remove_char_at(&mut line, self.cursor_x - 1);
            self.set_line(y, line);
            self.cursor_x = self.cursor_x - 1;
            return true;
        }
        if self.cursor_y > 0 {
            let y = self.cursor_y;
            let removed = self.lines.remove(y);
            self.cursor_y = y - 1;
            let mut prev = self.lines[y - 1].clone();
            self.cursor_x = text_char_len(prev.as_str());
            push_str(&mut prev, removed.as_str());
            self.lines.set(y - 1, prev);
            assert(self.text_lines() =~= backspace_state(old(self).state()).lines);
            return true;
        }
        false
    }

    /// Deletes the character under the cursor, or joins the next line to the
    /// cursor's line; returns whether the text changed.
    pub fn delete_forward(&mut self) -> (edited: bool)
        requires
            old(self).wf(),
        ensures
            final(self).wf(),
            edited == delete_forward_edits(old(self).state()),
            final(self).state() == delete_forward_state(old(self).state()),
            final(self).top_row() == old(self).top_row(),
            final(self).left_col() == old(self).left_col(),
    {
        assert(self.lines@.len() == self.text_lines().len());
        let y = self.cursor_y;
        if self.cursor_x < text_char_len(self.lines[y].as_str()) {
            let mut line = self.lines[y].clone();
            remove_char_at(&mut line, self.cursor_x);
            self.set_line(y, line);
            return true;
        }
        if y < self.lines.len() - 1 {
            let next = self.lines.remove(y + 1);
            let mut line = self.lines[y].clone();
            push_str(&mut line, next.as_str());
            self.lines.set(y, line);
            assert(self.text_lines() =~= delete_forward_state(old(self).state()).lines);
            return true;
        }
        false
    }
}

/// The text of a buffer with its cursor.
pub struct TextState {
    pub lines: Seq<Seq<char>>,
    pub x: nat,
    pub y: nat,
}

/// A state has a line, the cursor is on a line, and within or at the end of
/// it.
pub open spec fn state_wf(s: TextState) -> bool {
    &&& s.lines.len() > 0
    &&& s.y < s.lines.len()
    &&& s.x <= s.lines[s.y as int].len()
}

/// The length of line `y`.
pub open spec fn line_len(s: TextState, y: int) -> nat {
    s.lines[y].len()
}

/// Moves up a line, keeping the column when the line is long enough.
pub open spec fn move_up_state(s: TextState) -> TextState {
    let y = if s.y > 0 { (s.y - 1) as nat } else { 0 };
    let x = if s.x <= line_len(s, y as int) { s.x } else { line_len(s, y as int) };
    TextState { lines: s.lines, x, y }
}

/// Moves down a line when there is one, keeping the column when the line is
/// long enough.
pub open spec fn move_down_state(s: TextState) -> TextState {
    let y = if s.y + 1 < s.lines.len() { s.y + 1 } else { s.y };
    let x = if s.x <= line_len(s, y as int) { s.x } else { line_len(s, y as int) };
    TextState { lines: s.lines, x, y }
}

/// Moves left a character, or to the end of the previous line.
pub open spec fn move_left_state(s: TextState) -> TextState {
    if s.x > 0 {
        TextState { x: (s.x - 1) as nat, ..s }
    } else if s.y > 0 {
        TextState { lines: s.lines, y: (s.y - 1) as nat, x: line_len(s, s.y - 1) }
    } else {
        s
    }
}

/// Moves right a character, or to the start of the next line.
pub open spec fn move_right_state(s: TextState) -> TextState {
    if s.x < line_len(s, s.y as int) {
        TextState { x: s.x + 1, ..s }
    } else if s.y + 1 < s.lines.len() {
        TextState { lines: s.lines, y: s.y + 1, x: 0 }
    } else {
        s
    }
}

/// Inserts a character at the cursor and moves past it.
pub open spec fn insert_char_state(s: TextState, c: char) -> TextState {
    TextState {
        lines: s.lines.update(s.y as int, insert_at(s.lines[s.y as int], s.x as int, c)),
        x: s.x + 1,
        y: s.y,
    }
}

/// Splits the cursor's line at the cursor and moves to the start of the new
/// line.
pub open spec fn insert_newline_state(s: TextState) -> TextState {
    let line = s.lines[s.y as int];
    TextState {
        lines: s.lines.subrange(0, s.y as int) + seq![
            line.subrange(0, s.x as int),
            line.subrange(s.x as int, line.len() as int),
        ] + s.lines.subrange(s.y + 1int, s.lines.len() as int),
        x: 0,
        y: s.y + 1,
    }
}

/// Whether backspace changes the text: unless the cursor is at the very
/// start.
pub open spec fn backspace_edits(s: TextState) -> bool {
    s.x > 0 || s.y > 0
}

/// Deletes the character before the cursor, or joins the line to the
/// previous one.
pub open spec fn backspace_state(s: TextState) -> TextState {
    if s.x > 0 {
        TextState {
            lines: s.lines.update(s.y as int, s.lines[s.y as int].remove(s.x - 1)),
            x: (s.x - 1) as nat,
            y: s.y,
        }
    } else if s.y > 0 {
        let prev = s.lines[s.y - 1];
        TextState {
            lines: s.lines.remove(s.y as int).update(s.y - 1, prev + s.lines[s.y as int]),
            x: prev.len(),
            y: (s.y - 1) as nat,
        }
    } else {
        s
    }
}

/// Whether delete changes the text: unless the cursor is at the very end.
pub open spec fn delete_forward_edits(s: TextState) -> bool {
    s.x < line_len(s, s.y as int) || s.y + 1 < s.lines.len()
}

/// Deletes the character under the cursor, or joins the next line to the
/// cursor's line.
pub open spec fn delete_forward_state(s: TextState) -> TextState {
    if s.x < line_len(s, s.y as int) {
        TextState { lines: s.lines.update(s.y as int, s.lines[s.y as int].remove(s.x as int)), ..s }
    } else if s.y + 1 < s.lines.len() {
        TextState {
            lines: s.lines.remove(s.y + 1int).update(s.y as int, s.lines[s.y as int] + s.lines[s.y + 1int]),
            ..s
        }
    } else {
        s
    }
}

/// The scroll offset that keeps `pos` visible in a window of `span`
/// positions starting at `offset`.
pub open spec fn follow(pos: nat, offset: nat, span: nat) -> nat {
    let o = if pos < offset { pos } else { offset };
    if pos >= o + span {
        (pos - (span - 1)) as nat
    } else {
        o
    }
}

/// Columns the line-number gutter of an editor panel takes.
pub open spec fn gutter_width() -> nat {
    5
}

proof fn lemma_lines_from_grows(s: Seq<char>, cur: Seq<char>, done: Seq<Seq<char>>)
    ensures
        lines_from(s, cur, done).len() >= done.len(),
        (cur.len() > 0 || s.len() > 0) ==> lines_from(s, cur, done).len() > done.len(),
    decreases s.len(),
{
    if s.len() > 0 {
        if s[0] == '\n' {
            lemma_lines_from_grows(s.drop_first(), Seq::empty(), done.push(strip_cr(cur)));
        } else {
            lemma_lines_from_grows(s.drop_first(), cur.push(s[0]), done);
        }
    }
}

/// A nonempty text has at least one line.
pub proof fn lemma_split_lines_nonempty(s: Seq<char>)
    requires
        s.len() > 0,
    ensures
        split_lines(s).len() > 0,
{
    lemma_lines_from_grows(s, Seq::empty(), Seq::empty());
}

} // verus!

verus! {

/// Backspace right after typing a character removes it again: the text and
/// the cursor are as before.
pub proof fn lemma_backspace_undoes_insert_char(s: TextState, c: char)
    requires
        state_wf(s),
    ensures
        backspace_edits(insert_char_state(s, c)),
        backspace_state(insert_char_state(s, c)) == s,
{
    let t = insert_char_state(s, c);
    let line = s.lines[s.y as int];
    assert(t.lines[s.y as int].remove(s.x as int) =~= line);
    assert(t.lines.update(s.y as int, line) =~= s.lines);
}

/// Backspace right after splitting a line joins it again: the text and the
/// cursor are as before.
pub proof fn lemma_backspace_undoes_newline(s: TextState)
    requires
        state_wf(s),
    ensures
        backspace_edits(insert_newline_state(s)),
        backspace_state(insert_newline_state(s)) == s,
{
    let t = insert_newline_state(s);
    let line = s.lines[s.y as int];
    let head = line.subrange(0, s.x as int);
    let tail = line.subrange(s.x as int, line.len() as int);
    assert(t.lines[s.y as int] == head);
    assert(t.lines[s.y + 1int] == tail);
    assert(head + tail =~= line);
    assert(t.lines.remove(s.y + 1int).update(s.y as int, head + tail) =~= s.lines);
}

/// Moving right undoes moving left, except at the very start of the text.
pub proof fn lemma_move_right_undoes_move_left(s: TextState)
    requires
        state_wf(s),
        s.x > 0 || s.y > 0,
    ensures
        move_right_state(move_left_state(s)) == s,
{
}

/// Moving left undoes moving right, except at the very end of the text.
pub proof fn lemma_move_left_undoes_move_right(s: TextState)
    requires
        state_wf(s),
        delete_forward_edits(s),
    ensures
        move_left_state(move_right_state(s)) == s,
{
}

proof fn lemma_join_push(lines: Seq<Seq<char>>, line: Seq<char>)
    ensures
        join_lines(lines.push(line)) == (if lines.len() == 0 { line } else { join_lines(lines) + seq!['\n'] + line }),
{
    assert(lines.push(line).drop_last() =~= lines);
}

proof fn lemma_join_lines_from(s: Seq<char>, cur: Seq<char>, done: Seq<Seq<char>>)
    requires
        !s.contains('\r'),
        !cur.contains('\r'),
        s.len() == 0 ==> cur.len() > 0,
        s.len() > 0 ==> s.last() != '\n',
    ensures
        join_lines(lines_from(s, cur, done)) == (if done.len() == 0 {
            cur + s
        } else {
            join_lines(done) + seq!['\n'] + cur + s
        }),
    decreases s.len(),
{
    if s.len() == 0 {
        lemma_join_push(done, cur);
        assert(cur + s =~= cur);
        assert(join_lines(done) + seq!['\n'] + cur + s =~= join_lines(done) + seq!['\n'] + cur);
    } else if s[0] == '\n' {
        let rest = s.drop_first();
        if cur.len() > 0 && cur.last() == '\r' {
            assert(cur.contains('\r'));
        }
        assert(strip_cr(cur) == cur);
        if rest.len() == 0 {
            assert(s =~= seq!['\n']);
        } else {
            assert(rest.last() == s.last());
        }
        assert forall|i: int| 0 <= i < rest.len() implies rest[i] != '\r' by {
            assert(rest[i] == s[i + 1]);
        }
        lemma_join_lines_from(rest, Seq::empty(), done.push(cur));
        lemma_join_push(done, cur);
        assert(s =~= seq!['\n'] + rest);
        if done.len() == 0 {
            assert(cur + seq!['\n'] + Seq::<char>::empty() + rest =~= cur + s);
        } else {
            assert(join_lines(done) + seq!['\n'] + cur + seq!['\n'] + Seq::<char>::empty() + rest =~= join_lines(done) + seq!['\n'] + cur + s);
        }
    } else {
        let rest = s.drop_first();
        let cur2 = cur.push(s[0]);
        assert forall|i: int| 0 <= i < rest.len() implies rest[i] != '\r' by {
            assert(rest[i] == s[i + 1]);
        }
        assert forall|i: int| 0 <= i < cur2.len() implies cur2[i] != '\r' by {
            if i < cur.len() {
                assert(cur2[i] == cur[i]);
            } else {
                assert(cur2[i] == s[0]);
            }
        }
        if rest.len() > 0 {
            assert(rest.last() == s.last());
        }
        lemma_join_lines_from(rest, cur2, done);
        assert(cur2 + rest =~= cur + s);
        assert(join_lines(done) + seq!['\n'] + cur2 + rest =~= join_lines(done) + seq!['\n'] + cur + s);
    }
}

/// Splitting a text into lines and joining them with newlines gives the text
/// back, when it has no carriage return and does not end with a newline.
pub proof fn lemma_lines_roundtrip(text: Seq<char>)
    requires
        !text.contains('\r'),
        text.len() > 0 ==> text.last() != '\n',
    ensures
        join_lines(if text.len() == 0 { seq![Seq::<char>::empty()] } else { split_lines(text) }) == text,
{
    if text.len() > 0 {
        lemma_join_lines_from(text, Seq::empty(), Seq::empty());
        assert(Seq::<char>::empty() + text =~= text);
    }
}

} // verus!

verus! {

/// A scrollable list of output lines; it always holds at least one line.
#[derive(Debug, Clone)]
pub struct LogBuffer {
    lines: Vec<String>,
    scroll: usize,
}

impl LogBuffer {
    /// The lines of the log.
    pub closed spec fn log_lines(&self) -> Seq<Seq<char>> {
        strings_view(self.lines@)
    }

    /// The first line shown.
    pub closed spec fn log_scroll(&self) -> nat {
        self.scroll as nat
    }

    /// An empty log: one empty line.
    pub fn new_empty() -> (b: Self)
        ensures
            b.log_lines() == seq![Seq::<char>::empty()],
            b.log_scroll() == 0,
    {
        let mut lines: Vec<String> = Vec::new();
        lines.push(String::new());
        let b = LogBuffer { lines, scroll: 0 };
        assert(b.log_lines() =~= seq![Seq::<char>::empty()]);
        b
    }

    /// A log holding the given lines (one empty line when there are none),
    /// scrolled to the top.
    pub fn with_lines(lines: Vec<String>) -> (b: Self)
        ensures
            b.log_lines() == (if lines@.len() == 0 { seq![Seq::<char>::empty()] } else { strings_view(lines@) }),
            b.log_scroll() == 0,
    {
        let mut buffer = Self::new_empty();
        buffer.set_lines(lines);
        buffer
    }

    /// Replaces the lines (one empty line when there are none) and scrolls to
    /// the top.
    pub fn set_lines(&mut self, lines: Vec<String>)
        ensures
            final(self).log_lines() == (if lines@.len() == 0 { seq![Seq::<char>::empty()] } else { strings_view(lines@) }),
            final(self).log_scroll() == 0,
    {
        if lines.len() == 0 {
            let mut one: Vec<String> = Vec::new();
            one.push(String::new());
            self.lines = one;
            assert(self.log_lines() =~= seq![Seq::<char>::empty()]);
        } else {
            self.lines = lines;
        }
        self.scroll = 0;
    }

    /// Appends lines, first dropping the lone empty line a fresh log holds,
    /// and scrolls to the last line.
    pub fn append_lines(&mut self, lines: Vec<String>)
        ensures
            final(self).log_lines() == ({
                let kept = if old(self).log_lines() == seq![Seq::<char>::empty()] {
                    Seq::<Seq<char>>::empty()
                } else {
                    old(self).log_lines()
                };
                if kept.len() + lines@.len() == 0 { seq![Seq::<char>::empty()] } else { kept + strings_view(lines@) }
            }),
            final(self).log_scroll() == final(self).log_lines().len() - 1,
    {
        let ghost kept = if old(self).log_lines() == seq![Seq::<char>::empty()] {
            Seq::<Seq<char>>::empty()
        } else {
            old(self).log_lines()
        };
        if self.lines.len() == 1 && self.lines[0].as_str().unicode_len() == 0 {
            assert(self.lines@[0]@.len() == 0);
            assert(old(self).log_lines()[0] =~= Seq::<char>::empty());
            assert(old(self).log_lines() =~= seq![Seq::<char>::empty()]);
            self.lines = Vec::new();
        } else {
            proof {
                if old(self).log_lines() == seq![Seq::<char>::empty()] {
                    assert(old(self).log_lines()[0] == Seq::<char>::empty());
                }
            }
        }
        assert(self.log_lines() =~= kept);
        let mut i: usize = 0;
        while i < lines.len()
            invariant
                i <= lines@.len(),
                self.log_lines() == kept + strings_view(lines@).subrange(0, i as int),
            decreases lines@.len() - i,
        {
            let ghost before = self.log_lines();
            self.lines.push(lines[i].clone());
            assert(self.log_lines() =~= before.push(lines@[i as int]@));
            assert(self.log_lines() =~= kept + strings_view(lines@).subrange(0, i + 1));
            i = i + 1;
        }
        assert(strings_view(lines@).subrange(0, lines@.len() as int) =~= strings_view(lines@));
        if self.lines.len() == 0 {
            self.lines.push(String::new());
            assert(self.log_lines() =~= seq![Seq::<char>::empty()]);
        }
        assert(self.lines@.len() == self.log_lines().len());
        self.scroll = self.lines.len() - 1;
    }

    /// Appends the lines of a text (one empty line for a blank text).
    pub fn append_text(&mut self, text: &str)
        ensures
            final(self).log_lines() == ({
                let kept = if old(self).log_lines() == seq![Seq::<char>::empty()] {
                    Seq::<Seq<char>>::empty()
                } else {
                    old(self).log_lines()
                };
                let added = if all_ws(text@) { seq![Seq::<char>::empty()] } else { split_lines(text@) };
                if kept.len() + added.len() == 0 { seq![Seq::<char>::empty()] } else { kept + added }
            }),
            final(self).log_scroll() == final(self).log_lines().len() - 1,
    {
        let lines = if is_blank(text) {
            let mut one: Vec<String> = Vec::new();
            one.push(String::new());
            assert(strings_view(one@) =~= seq![Seq::<char>::empty()]);
            one
        } else {
            text_lines(text)
        };
        self.append_lines(lines);
    }

    /// Replaces the log with a single message line, scrolled to the top.
    pub fn clear(&mut self, message: &str)
        ensures
            final(self).log_lines() == seq![message@],
            final(self).log_scroll() == 0,
    {
        let mut one: Vec<String> = Vec::new();
        one.push(message.to_string());
        self.lines = one;
        self.scroll = 0;
        assert(self.log_lines() =~= seq![message@]);
    }

    /// The lines of the log.
    pub fn lines(&self) -> (r: &Vec<String>)
        ensures
            strings_view(r@) == self.log_lines(),
    {
        &self.lines
    }

    /// The first line shown.
    pub fn scroll(&self) -> (r: usize)
        ensures
            r == self.log_scroll(),
    {
        self.scroll
    }

    /// Scrolls to the first line.
    pub fn scroll_to_top(&mut self)
        ensures
            final(self).log_lines() == old(self).log_lines(),
            final(self).log_scroll() == 0,
    {
        self.scroll = 0;
    }

    /// Scrolls to the last line.
    pub fn scroll_to_end(&mut self)
        ensures
            final(self).log_lines() == old(self).log_lines(),
            final(self).log_scroll() == (if old(self).log_lines().len() >= 1 { (old(self).log_lines().len() - 1) as nat } else { 0 }),
    {
        assert(self.lines@.len() == self.log_lines().len());
        self.scroll = if self.lines.len() >= 1 { self.lines.len() - 1 } else { 0 };
    }

    /// Scrolls up by some lines, stopping at the top.
    pub fn scroll_up(&mut self, amount: usize)
        ensures
            final(self).log_lines() == old(self).log_lines(),
            final(self).log_scroll() == (if old(self).log_scroll() >= amount { (old(self).log_scroll() - amount) as nat } else { 0 }),
    {
        self.scroll = if self.scroll >= amount { self.scroll - amount } else { 0 };
    }

    /// Scrolls down by some lines, stopping at the last line.
    pub fn scroll_down(&mut self, amount: usize)
        requires
            old(self).log_scroll() + amount <= usize::MAX,
        ensures
            final(self).log_lines() == old(self).log_lines(),
            final(self).log_scroll() == ({
                let max_scroll = if old(self).log_lines().len() >= 1 { (old(self).log_lines().len() - 1) as nat } else { 0 };
                let target = old(self).log_scroll() + amount;
                if target < max_scroll { target as nat } else { max_scroll }
            }),
    {
        assert(self.lines@.len() == self.log_lines().len());
        let max_scroll = if self.lines.len() >= 1 { self.lines.len() - 1 } else { 0 };
        let target = self.scroll + amount;
        self.scroll = if target < max_scroll { target } else { max_scroll };
    }
}

/// The rows of a log panel: from the scroll position (pulled back so the
/// panel is as full as it can be), each line clipped to the width, padded
/// with empty rows to the height.
pub open spec fn log_panel(lines: Seq<Seq<char>>, scroll: nat, height: nat, width: nat) -> Seq<Seq<char>> {
    let max_start = if lines.len() >= height { (lines.len() - height) as nat } else { 0 };
    let start = if scroll < max_start { scroll } else { max_start };
    let end = if start + height < lines.len() { start + height } else { lines.len() as nat };
    Seq::new(height, |r: int| if start + r < end { clip_seq(lines[start + r], width as int) } else { Seq::<char>::empty() })
}

/// The rows showing a log in a panel of the given size.
pub fn render_log_buffer(buffer: &LogBuffer, height: usize, width: usize) -> (rows: Vec<String>)
    ensures
        strings_view(rows@) == log_panel(buffer.log_lines(), buffer.log_scroll(), height as nat, width as nat),
{
    let n = buffer.lines.len();
    assert(n == buffer.log_lines().len());
    let max_start = if n >= height { n - height } else { 0 };
    let start = if buffer.scroll < max_start { buffer.scroll } else { max_start };
    let end = if height < n - start { start + height } else { n };
    let ghost expected = log_panel(buffer.log_lines(), buffer.log_scroll(), height as nat, width as nat);
    let mut rows: Vec<String> = Vec::new();
    let mut r: usize = 0;
    while r < height
        invariant
            r <= height,
            n == buffer.log_lines().len(),
            start <= end <= n,
            end == (if start + height < n { start + height } else { n as int }),
            start == (if buffer.log_scroll() < (if n >= height { (n - height) as nat } else { 0 }) { buffer.log_scroll() } else { (if n >= height { (n - height) as nat } else { 0 }) }),
            expected == log_panel(buffer.log_lines(), buffer.log_scroll(), height as nat, width as nat),
            rows@.len() == r,
            forall|k: int| 0 <= k < r ==> (#[trigger] rows@[k])@ == expected[k],
        decreases height - r,
    {
        if r < end - start {
            rows.push(clip_line(buffer.lines[start + r].as_str(), width));
        } else {
            rows.push(String::new());
        }
        r = r + 1;
    }
    assert(strings_view(rows@) =~= expected);
    rows
}

/// Pulls the scroll position of a log back so that a panel of the given
/// height is as full as it can be.
pub fn clamp_log_scroll(buffer: &mut LogBuffer, height: usize)
    ensures
        final(buffer).log_lines() == old(buffer).log_lines(),
        final(buffer).log_scroll() == ({
            let h = if height > 1 { height as nat } else { 1 };
            let max_start = if old(buffer).log_lines().len() >= h { (old(buffer).log_lines().len() - h) as nat } else { 0 };
            if old(buffer).log_scroll() > max_start { max_start } else { old(buffer).log_scroll() }
        }),
{
    let h = if height > 1 { height } else { 1 };
    assert(buffer.lines@.len() == buffer.log_lines().len());
    let n = buffer.lines.len();
    let max_start = if n >= h { n - h } else { 0 };
    if buffer.scroll > max_start {
        buffer.scroll = max_start;
    }
}

/// The row of an editor panel showing line `index`: its number right-aligned
/// in four columns, a space, then the visible part of the line.
pub open spec fn numbered_row(index: nat, visible: Seq<char>) -> Seq<char> {
    pad_left(decimal(index + 1), 4) + seq![' '] + visible
}

/// The rows of an editor panel: from the first visible line, each shown from
/// the first visible column, numbered, and clipped to the width; rows past
/// the text are empty.
pub open spec fn text_panel(s: TextState, top: nat, left: nat, height: nat, width: nat) -> Seq<Seq<char>> {
    let content = if width >= gutter_width() { (width - gutter_width()) as nat } else { 0 };
    Seq::new(height, |r: int| if top + r < s.lines.len() {
        clip_seq(
            numbered_row((top + r) as nat, if content == 0 { Seq::<char>::empty() } else { slice_seq(s.lines[top + r], left as int, content as int) }),
            width as int,
        )
    } else {
        Seq::<char>::empty()
    })
}

/// The rows showing an editor buffer in a panel of the given size.
pub fn render_text_buffer(buffer: &TextBuffer, height: usize, width: usize) -> (rows: Vec<String>)
    requires
        buffer.top_row() + height <= usize::MAX,
    ensures
        strings_view(rows@) == text_panel(buffer.state(), buffer.top_row(), buffer.left_col(), height as nat, width as nat),
{
    let content_width = if width >= 5 { width - 5 } else { 0 };
    let ghost expected = text_panel(buffer.state(), buffer.top_row(), buffer.left_col(), height as nat, width as nat);
    let mut rows: Vec<String> = Vec::new();
    let mut r: usize = 0;
    assert(buffer.lines@.len() == buffer.text_lines().len());
    while r < height
        invariant
            r <= height,
            buffer.top_row() + height <= usize::MAX,
            buffer.lines@.len() == buffer.text_lines().len(),
            content_width == (if width >= gutter_width() { (width - gutter_width()) as nat } else { 0 }),
            expected == text_panel(buffer.state(), buffer.top_row(), buffer.left_col(), height as nat, width as nat),
            rows@.len() == r,
            forall|k: int| 0 <= k < r ==> (#[trigger] rows@[k])@ == expected[k],
        decreases height - r,
    {
        let index = buffer.scroll + r;
        if index < buffer.lines.len() {
            let visible = if content_width == 0 {
                String::new()
            } else {
                slice_chars(buffer.lines[index].as_str(), buffer.hscroll, content_width)
            };
            let number = decimal_string(index + 1);
            let mut row = pad_left_string(number.as_str(), 4);
            push_char(&mut row, ' ');
            push_str(&mut row, visible.as_str());
            assert(row@ =~= numbered_row(index as nat, visible@));
            rows.push(clip_line(row.as_str(), width));
        } else {
            rows.push(String::new());
        }
        r = r + 1;
    }
    assert(strings_view(rows@) =~= expected);
    rows
}

/// A panel title, in brackets when the panel has the focus.
pub fn panel_title(title: &str, active: bool) -> (s: String)
    ensures
        s@ == (if active { seq!['['] + title@ + seq![']'] } else { title@ }),
{
    if active {
        let mut s = String::new();
        push_char(&mut s, '[');
        push_str(&mut s, title);
        push_char(&mut s, ']');
        assert(s@ =~= seq!['['] + title@ + seq![']']);
        s
    } else {
        title.to_string()
    }
}

/// The prompt row of a command line and the cursor's column in it: the
/// command is scrolled so that the cursor stays visible after the prefix.
pub open spec fn prompt_row(prefix: Seq<char>, command: Seq<char>, cursor: nat, width: nat) -> (Seq<char>, nat) {
    if width == 0 {
        (Seq::empty(), 0)
    } else {
        let content = if width >= prefix.len() { (width - prefix.len()) as nat } else { 0 };
        let c = if cursor < command.len() { cursor } else { command.len() };
        let back = if content >= 1 { (content - 1) as nat } else { 0 };
        let start = if c >= back { (c - back) as nat } else { 0 };
        (clip_seq(prefix + slice_seq(command, start as int, content as int), width as int), prefix.len() + (c - start) as nat)
    }
}

/// Draws a command line of the given width with the cursor kept in view;
/// returns the row and the cursor's column.
pub fn render_command_prompt(prefix: &str, command: &str, cursor: usize, width: usize) -> (r: (String, usize))
    ensures
        (r.0@, r.1 as nat) == prompt_row(prefix@, command@, cursor as nat, width as nat),
{
    if width == 0 {
        return (String::new(), 0);
    }
    let prompt_width = text_char_len(prefix);
    let content_width = if width >= prompt_width { width - prompt_width } else { 0 };
    let command_len = text_char_len(command);
    let cursor = if cursor < command_len { cursor } else { command_len };
    let back = if content_width >= 1 { content_width - 1 } else { 0 };
    let start = if cursor >= back { cursor - back } else { 0 };
    let visible = slice_chars(command, start, content_width);
    let mut line = prefix.to_string();
    push_str(&mut line, visible.as_str());
    let offset_in = cursor - start;
    assert(offset_in <= back);
    assert(prompt_width + offset_in <= usize::MAX) by {
        if content_width >= 1 {
            assert(prompt_width + content_width <= width);
        } else {
            assert(offset_in == 0);
        }
    }
    (clip_line(line.as_str(), width), prompt_width + offset_in)
}

/// A cursor coordinate kept inside a panel of `limit` cells, as a terminal
/// coordinate (truncated to 16 bits).
pub fn clamp_cursor_axis(value: usize, limit: usize) -> (r: u16)
    ensures
        r == ((if value < (if limit >= 1 { (limit - 1) as nat } else { 0 }) { value as nat } else { if limit >= 1 { (limit - 1) as nat } else { 0 } }) % 65536),
{
    let last = if limit >= 1 { limit - 1 } else { 0 };
    let v = if value < last { value } else { last };
    let r = v as u16;
    assert(r == v % 65536) by (bit_vector)
        requires
            r == v as u16,
    ;
    r
}

} // verus!

verus! {

/// The cursor column of a prompt row lies within the row's width.
pub proof fn lemma_prompt_offset_bound(prefix: Seq<char>, command: Seq<char>, cursor: nat, width: nat)
    ensures
        prompt_row(prefix, command, cursor, width).1 <= prefix.len() + width,
{
}

/// Where the cursor at column `x` of line `y` stands in the text of the
/// lines joined by newlines.
pub open spec fn text_offset(lines: Seq<Seq<char>>, y: int, x: int) -> int {
    if y == 0 {
        x
    } else {
        join_lines(lines.take(y)).len() + 1 + x
    }
}

/// Joining two runs of lines puts a newline between their texts.
proof fn lemma_join_lines_concat(a: Seq<Seq<char>>, b: Seq<Seq<char>>)
    requires
        a.len() > 0,
        b.len() > 0,
    ensures
        join_lines(a + b) == join_lines(a) + seq!['\n'] + join_lines(b),
    decreases b.len(),
{
    if b.len() == 1 {
        assert((a + b).drop_last() =~= a);
        assert((a + b).last() == b[0]);
    } else {
        assert((a + b).drop_last() =~= a + b.drop_last());
        assert((a + b).last() == b.last());
        lemma_join_lines_concat(a, b.drop_last());
        assert(join_lines(a) + seq!['\n'] + join_lines(b.drop_last()) + seq!['\n'] + b.last()
            =~= join_lines(a) + seq!['\n'] + (join_lines(b.drop_last()) + seq!['\n'] + b.last()));
    }
}

/// The text after line `y`: a newline and the later lines, if any.
spec fn text_after(lines: Seq<Seq<char>>, y: int) -> Seq<char> {
    if y + 1 >= lines.len() {
        Seq::empty()
    } else {
        seq!['\n'] + join_lines(lines.skip(y + 1))
    }
}

/// The text before line `y`: the earlier lines and a newline, if any.
spec fn text_before(lines: Seq<Seq<char>>, y: int) -> Seq<char> {
    if y == 0 {
        Seq::empty()
    } else {
        join_lines(lines.take(y)) + seq!['\n']
    }
}

/// The joined text is the text before a line, the line, and the text after.
proof fn lemma_join_lines_around(lines: Seq<Seq<char>>, y: int)
    requires
        0 <= y < lines.len(),
    ensures
        join_lines(lines) == text_before(lines, y) + lines[y] + text_after(lines, y),
        text_before(lines, y).len() == text_offset(lines, y, 0),
{
    let mid = seq![lines[y]];
    let rest = lines.skip(y + 1);
    assert(join_lines(mid) == lines[y]);
    let tail = if y + 1 < lines.len() {
        lemma_join_lines_concat(mid, rest);
        mid + rest
    } else {
        mid
    };
    assert(tail =~= lines.skip(y));
    assert(join_lines(tail) == lines[y] + text_after(lines, y)) by {
        if y + 1 >= lines.len() {
            assert(lines[y] + text_after(lines, y) =~= lines[y]);
        }
    }
    if y > 0 {
        assert(lines.take(y) + lines.skip(y) =~= lines);
        lemma_join_lines_concat(lines.take(y), lines.skip(y));
        assert(join_lines(lines) =~= text_before(lines, y) + lines[y] + text_after(lines, y));
    } else {
        assert(lines.skip(0) =~= lines);
        assert(join_lines(lines) =~= text_before(lines, y) + lines[y] + text_after(lines, y));
    }
}

/// Delete removes exactly one character of the text: the one under the
/// cursor, or the newline after the cursor's line when the cursor is at its
/// end; every other character stays, in order, and the cursor stays where
/// it is. At the very end of the text nothing changes.
pub proof fn lemma_delete_forward_removes_one_char(s: TextState)
    requires
        state_wf(s),
    ensures
        delete_forward_state(s).x == s.x,
        delete_forward_state(s).y == s.y,
        (s.x < s.lines[s.y as int].len() || s.y + 1 < s.lines.len()) ==> {
            &&& 0 <= text_offset(s.lines, s.y as int, s.x as int) < join_lines(s.lines).len()
            &&& join_lines(delete_forward_state(s).lines)
                == join_lines(s.lines).remove(text_offset(s.lines, s.y as int, s.x as int))
        },
        !(s.x < s.lines[s.y as int].len() || s.y + 1 < s.lines.len()) ==> delete_forward_state(s).lines == s.lines,
{
    let y = s.y as int;
    let x = s.x as int;
    let line = s.lines[y];
    let t = delete_forward_state(s);
    lemma_join_lines_around(s.lines, y);
    let pre = text_before(s.lines, y);
    let post = text_after(s.lines, y);
    let off = text_offset(s.lines, y, x);
    if x < line.len() {
        lemma_join_lines_around(t.lines, y);
        assert(t.lines.take(y) =~= s.lines.take(y));
        assert(t.lines.skip(y + 1) =~= s.lines.skip(y + 1));
        assert(text_before(t.lines, y) == pre);
        assert(text_after(t.lines, y) == post);
        assert(join_lines(t.lines) =~= join_lines(s.lines).remove(off));
    } else if y + 1 < s.lines.len() {
        let next = s.lines[y + 1];
        lemma_join_lines_around(t.lines, y);
        lemma_join_lines_around(s.lines.skip(y + 1), 0);
        assert(t.lines.take(y) =~= s.lines.take(y));
        assert(text_before(t.lines, y) == pre);
        let rest = s.lines.skip(y + 1);
        assert(rest[0] == next);
        assert(t.lines.skip(y + 1) =~= rest.skip(1));
        assert(text_after(t.lines, y) == text_after(rest, 0));
        assert(post == seq!['\n'] + join_lines(rest));
        assert(join_lines(rest) == next + text_after(rest, 0));
        assert(t.lines[y] == line + next);
        assert(join_lines(t.lines) =~= join_lines(s.lines).remove(off));
    }
}

} // verus!
