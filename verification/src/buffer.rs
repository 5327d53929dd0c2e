//! A text buffer: its text, its cursor and paging, and its undo history.
use crate::app::Mode;
use crate::ids::new_id;
use crate::rope::{
    lemma_line_end_bounded, lemma_line_start_bounded, line_count, line_len, line_start, newline_count, rope_char,
    rope_len_chars, rope_len_lines, rope_line_to_char, rope_new, rope_text,
    rope_try_insert, rope_try_insert_char, rope_try_remove,
};
use crate::text::{chars_of, string_from_chars, trim, trim_chars};
use crate::token::command_token::opt_string_view;
use crate::token::OperatorToken;
use ropey::Rope;
use vstd::prelude::*;

verus! {

pub struct Buffer {
    pub id: u128,
    pub past_states: Vec<Rope>,
    pub future_states: Vec<Rope>,
    pub file_path: Option<String>,
    pub command_text: Option<String>,
    pub operator: Option<OperatorToken>,
    pub x_pos: u16,
    pub y_pos: u16,
    pub start_select_pos: Option<usize>,
    pub end_select_pos: Option<usize>,
    pub mode: Mode,
    pub text: Rope,
    pub title: String,
    pub page_size: u16,
    pub current_page: u16,
}

/// A buffer with its texts as character sequences.
pub ghost struct BufferView {
    pub id: u128,
    pub past: Seq<Seq<char>>,
    pub future: Seq<Seq<char>>,
    pub file_path: Option<Seq<char>>,
    pub command_text: Option<Seq<char>>,
    pub operator: Option<OperatorToken>,
    pub x_pos: u16,
    pub y_pos: u16,
    pub start_select_pos: Option<usize>,
    pub end_select_pos: Option<usize>,
    pub mode: Mode,
    pub text: Seq<char>,
    pub title: Seq<char>,
    pub page_size: u16,
    pub current_page: u16,
}

/// The texts of a list of ropes.
pub open spec fn texts_of(v: Seq<Rope>) -> Seq<Seq<char>> {
    v.map_values(|r: Rope| rope_text(r))
}

impl View for Buffer {
    type V = BufferView;

    open spec fn view(&self) -> BufferView {
        BufferView {
            id: self.id,
            past: texts_of(self.past_states@),
            future: texts_of(self.future_states@),
            file_path: opt_string_view(self.file_path),
            command_text: opt_string_view(self.command_text),
            operator: self.operator,
            x_pos: self.x_pos,
            y_pos: self.y_pos,
            start_select_pos: self.start_select_pos,
            end_select_pos: self.end_select_pos,
            mode: self.mode,
            text: rope_text(self.text),
            title: self.title@,
            page_size: self.page_size,
            current_page: self.current_page,
        }
    }
}

/// `s` with every line break removed.
pub open spec fn remove_newlines(s: Seq<char>) -> Seq<char>
    decreases s.len(),
{
    if s.len() == 0 {
        s
    } else if s.last() == '\n' {
        remove_newlines(s.drop_last())
    } else {
        remove_newlines(s.drop_last()).push(s.last())
    }
}

/// `s` with `t` put in at index `i`.
pub open spec fn insert_at(s: Seq<char>, i: int, t: Seq<char>) -> Seq<char> {
    s.take(i) + t + s.skip(i)
}

/// `s` without the characters from `i` up to `j`.
pub open spec fn remove_range(s: Seq<char>, i: int, j: int) -> Seq<char> {
    s.take(i) + s.skip(j)
}

/// The index one past the end of the first word of `line` from `i` on: the
/// letters from `i`, and the character that ends them.
pub open spec fn word_end(line: Seq<char>, i: int) -> int
    decreases line.len() - i,
{
    if i < 0 || i >= line.len() {
        i
    } else if !crate::chars::is_alphabetic(line[i]) {
        i + 1
    } else {
        word_end(line, i + 1)
    }
}

/// The index one past the first letter of `line` from `i` on, or the end
/// of the line.
pub open spec fn next_letter_end(line: Seq<char>, i: int) -> int
    decreases line.len() - i,
{
    if i < 0 || i >= line.len() {
        i
    } else if crate::chars::is_alphabetic(line[i]) {
        i + 1
    } else {
        next_letter_end(line, i + 1)
    }
}

/// Where the `w` motion moves the cursor from column `x` of `line`.
pub open spec fn next_word_spec(line: Seq<char>, x: int) -> int {
    let e = word_end(line, x);
    if e != x {
        next_letter_end(line, e)
    } else {
        e
    }
}

/// What the UTF-8 byte length of `s` adds to a `u16` column.
pub open spec fn byte_len_u16(s: Seq<char>) -> u16 {
    (vstd::utf8::encode_utf8(s).len() as usize) as u16
}

impl BufferView {
    pub open spec fn lines(self) -> nat {
        line_count(self.text)
    }

    /// The line count cast to `u16`, as the editor reads it.
    pub open spec fn lines_u16(self) -> u16 {
        self.lines() as u16
    }

    pub open spec fn line_start(self) -> nat {
        line_start(self.text, self.y_pos as nat)
    }

    pub open spec fn line_len(self) -> nat {
        line_len(self.text, self.y_pos as nat)
    }

    pub open spec fn line_end(self) -> nat {
        self.line_start() + self.line_len()
    }

    /// The characters of the cursor's line, without its line break.
    pub open spec fn line_chars(self) -> Seq<char> {
        remove_newlines(self.text.subrange(self.line_start() as int, self.line_end() as int))
    }

    /// The text index of the cursor.
    pub open spec fn cursor_idx(self) -> int {
        self.line_start() + self.x_pos
    }

    /// The cursor index can be computed: its line exists or is the one after
    /// the last, and the index fits in a `usize`.
    pub open spec fn cursor_ok(self) -> bool {
        &&& self.y_pos <= self.lines()
        &&& self.cursor_idx() <= usize::MAX
    }

    /// The state after an edit that keeps the previous text for undo.
    pub open spec fn edited(self, text: Seq<char>) -> BufferView {
        BufferView { past: self.past.push(self.text), future: Seq::empty(), text, ..self }
    }

    pub open spec fn up_y(self) -> u16 {
        if self.y_pos > 0 {
            (self.y_pos - 1) as u16
        } else {
            self.y_pos
        }
    }

    pub open spec fn on_up_ok(self) -> bool {
        self.up_y() != 0 ==> (self.page_size > 0 && (self.up_y() % self.page_size == 0
            ==> self.current_page >= self.page_size))
    }

    /// The cursor one line up; crossing a page boundary turns back a page.
    pub open spec fn on_up_spec(self) -> BufferView {
        let y = self.up_y();
        BufferView {
            y_pos: y,
            current_page: if y != 0 && y % self.page_size == 0 {
                (self.current_page - self.page_size) as u16
            } else {
                self.current_page
            },
            ..self
        }
    }

    pub open spec fn down_y(self) -> u16 {
        if self.y_pos <= self.lines_u16() - 1 {
            (self.y_pos + 1) as u16
        } else {
            self.y_pos
        }
    }

    pub open spec fn on_down_ok(self) -> bool {
        &&& self.lines_u16() >= 1
        &&& self.down_y() != 0 ==> (self.page_size > 0 && (self.down_y() % self.page_size == 0
            ==> self.current_page + self.page_size <= u16::MAX))
    }

    /// The cursor one line down, at most to the line after the last;
    /// crossing a page boundary turns forward a page.
    pub open spec fn on_down_spec(self) -> BufferView {
        let y = self.down_y();
        BufferView {
            y_pos: y,
            current_page: if y != 0 && y % self.page_size == 0 {
                (self.current_page + self.page_size) as u16
            } else {
                self.current_page
            },
            ..self
        }
    }

    pub open spec fn on_right_ok(self) -> bool {
        &&& (self.line_len() as u16) >= 1
        &&& !(self.x_pos < (self.line_len() as u16) - 1) ==> self.on_down_ok()
    }

    /// The cursor one column right; at the end of the line, one line down.
    pub open spec fn on_right_spec(self) -> BufferView {
        if self.x_pos < (self.line_len() as u16) - 1 {
            BufferView { x_pos: (self.x_pos + 1) as u16, ..self }
        } else {
            self.on_down_spec()
        }
    }

    pub open spec fn on_left_ok(self) -> bool {
        self.x_pos == 1 ==> self.on_up_ok()
    }

    /// The cursor one column left; reaching the first column, one line up.
    pub open spec fn on_left_spec(self) -> BufferView {
        if self.x_pos > 0 {
            let v = BufferView { x_pos: (self.x_pos - 1) as u16, ..self };
            if v.x_pos == 0 {
                v.on_up_spec()
            } else {
                v
            }
        } else {
            self
        }
    }

    pub open spec fn recenter_first(self) -> BufferView {
        if self.y_pos == 0 {
            self.on_down_spec()
        } else {
            self
        }
    }

    pub open spec fn recenter_ok(self) -> bool {
        &&& self.y_pos == 0 ==> self.on_down_ok()
        &&& self.recenter_first().y_pos < self.recenter_first().lines_u16()
            ==> self.recenter_first().on_up_ok()
    }

    /// On the first line the cursor goes down one line; then, on a line
    /// before the line count, it goes up one.
    pub open spec fn recenter_spec(self) -> BufferView {
        let v = self.recenter_first();
        if v.y_pos < v.lines_u16() {
            v.on_up_spec()
        } else {
            v
        }
    }

    pub open spec fn remove_char_ok(self) -> bool {
        &&& self.cursor_ok()
        &&& self.cursor_idx() > 0 ==> self.on_left_ok()
    }

    /// Deletes the character before the cursor, if there is one, and moves left.
    pub open spec fn remove_char_spec(self) -> BufferView {
        let end = self.cursor_idx();
        if end > 0 {
            let text = if end <= self.text.len() {
                remove_range(self.text, end - 1, end)
            } else {
                self.text
            };
            self.edited(text).on_left_spec()
        } else {
            self
        }
    }

    pub open spec fn find_next_word_ok(self) -> bool {
        &&& self.y_pos < self.lines()
        &&& self.x_pos <= self.line_chars().len()
        &&& next_word_spec(self.line_chars(), self.x_pos as int) <= u16::MAX
    }

    pub open spec fn move_to_last_line_ok(self) -> bool {
        self.lines_u16() >= 1
    }

    /// The cursor at the start of the last line, with the page before it shown.
    pub open spec fn move_to_last_line_spec(self) -> BufferView {
        let lc = self.lines_u16();
        BufferView {
            x_pos: 0,
            y_pos: (lc - 1) as u16,
            current_page: if lc > self.page_size {
                ((lc - self.page_size) - 1) as u16
            } else {
                lc
            },
            ..self
        }
    }

    pub open spec fn move_to_first_line_spec(self) -> BufferView {
        BufferView { x_pos: 0, y_pos: 0, current_page: 0, ..self }
    }

    pub open spec fn move_to_line_number_ok(self, n: usize) -> bool {
        n < self.lines() ==> (n >= 1 && self.page_size > 0)
    }

    /// The cursor at the start of line `n`, counted from one, with the page
    /// that holds it; a line number not below the line count changes nothing.
    pub open spec fn move_to_line_number_spec(self, n: usize) -> BufferView {
        if n < self.lines() {
            BufferView {
                y_pos: (n - 1) as u16,
                x_pos: 0,
                current_page: if n >= self.page_size {
                    ((n as int - (n as int) % (self.page_size as int)) - self.page_size) as u16
                } else {
                    0
                },
                ..self
            }
        } else {
            self
        }
    }

    pub open spec fn select_line_ok(self) -> bool {
        self.cursor_ok()
    }

    /// Visual mode, selecting from the cursor to the end of its line.
    pub open spec fn select_line_spec(self) -> BufferView {
        BufferView {
            mode: Mode::Visual,
            start_select_pos: Some(self.cursor_idx() as usize),
            end_select_pos: Some(self.line_end() as usize),
            ..self
        }
    }

    pub open spec fn add_newline_below_ok(self) -> bool {
        &&& self.y_pos <= self.lines()
        &&& self.y_pos < u16::MAX
    }

    /// A line break at the end of the cursor's line, the cursor at the
    /// start of the next line.
    pub open spec fn add_newline_below_spec(self) -> BufferView {
        BufferView {
            x_pos: 0,
            y_pos: (self.y_pos + 1) as u16,
            ..self.edited(insert_at(self.text, self.line_end() as int, seq!['\n']))
        }
    }

    pub open spec fn undo_state(self) -> BufferView {
        BufferView {
            future: self.future.push(self.text),
            text: self.past.last(),
            past: self.past.drop_last(),
            ..self
        }
    }

    pub open spec fn undo_ok(self) -> bool {
        self.past.len() > 0 ==> self.undo_state().recenter_ok()
    }

    /// The last kept text back, the current one kept for redo.
    pub open spec fn undo_spec(self) -> BufferView {
        if self.past.len() > 0 {
            self.undo_state().recenter_spec()
        } else {
            self
        }
    }

    /// The last text that undo kept back.
    pub open spec fn redo_spec(self) -> BufferView {
        if self.future.len() > 0 {
            BufferView { text: self.future.last(), future: self.future.drop_last(), ..self }
        } else {
            self
        }
    }

    /// `t` put in at the cursor, when the cursor is within the text.
    pub open spec fn paste_text_spec(self, t: Seq<char>) -> BufferView {
        let idx = self.cursor_idx();
        self.edited(
            if idx <= self.text.len() {
                insert_at(self.text, idx, t)
            } else {
                self.text
            },
        )
    }

    pub open spec fn delete_line_state(self) -> BufferView {
        self.edited(remove_range(self.text, self.line_start() as int, self.line_end() as int))
    }

    pub open spec fn delete_line_ok(self) -> bool {
        &&& self.y_pos <= self.lines()
        &&& self.delete_line_state().recenter_ok()
    }

    /// The cursor's line removed, line break included.
    pub open spec fn delete_line_spec(self) -> BufferView {
        self.delete_line_state().recenter_spec()
    }

    pub open spec fn insert_return_state(self) -> BufferView {
        let idx = self.cursor_idx();
        BufferView {
            x_pos: 0,
            ..self.edited(
                if idx <= self.text.len() {
                    insert_at(self.text, idx, seq!['\n'])
                } else {
                    self.text
                },
            )
        }
    }

    pub open spec fn insert_return_ok(self) -> bool {
        &&& self.cursor_ok()
        &&& self.insert_return_state().on_down_ok()
    }

    /// A line break at the cursor, the cursor at the start of the next line.
    pub open spec fn insert_return_spec(self) -> BufferView {
        self.insert_return_state().on_down_spec()
    }

    pub open spec fn insert_chars_ok(self, t: Seq<char>) -> bool {
        &&& self.cursor_ok()
        &&& self.cursor_idx() <= self.text.len() ==> self.x_pos + byte_len_u16(t) <= u16::MAX
    }

    /// `t` put in at the cursor, the cursor moved past it by its UTF-8 length.
    pub open spec fn insert_chars_spec(self, t: Seq<char>) -> BufferView {
        let idx = self.cursor_idx();
        if idx <= self.text.len() {
            BufferView {
                x_pos: (self.x_pos + byte_len_u16(t)) as u16,
                ..self.edited(insert_at(self.text, idx, t))
            }
        } else {
            self.edited(self.text)
        }
    }

    /// Where text is appended: after the cursor, or at the cursor at the end
    /// of the text; none past the end.
    pub open spec fn append_idx(self) -> Option<int> {
        let idx = self.cursor_idx() + 1;
        if idx <= self.text.len() {
            Some(idx)
        } else if idx - 1 <= self.text.len() {
            Some(idx - 1)
        } else {
            None
        }
    }

    pub open spec fn append_return_ok(self) -> bool {
        &&& self.cursor_ok()
        &&& self.cursor_idx() + 1 <= usize::MAX
        &&& self.append_idx() is Some ==> self.y_pos < u16::MAX
    }

    /// A line break after the cursor, the cursor at the start of the next line.
    pub open spec fn append_return_spec(self) -> BufferView {
        match self.append_idx() {
            Some(i) => BufferView {
                y_pos: (self.y_pos + 1) as u16,
                x_pos: 0,
                ..self.edited(insert_at(self.text, i, seq!['\n']))
            },
            None => self.edited(self.text),
        }
    }

    pub open spec fn append_chars_ok(self, t: Seq<char>) -> bool {
        &&& self.cursor_ok()
        &&& self.cursor_idx() + 1 <= usize::MAX
        &&& self.append_idx() is Some ==> self.x_pos + byte_len_u16(t) <= u16::MAX
    }

    /// `t` put in after the cursor, the cursor moved by its UTF-8 length.
    pub open spec fn append_chars_spec(self, t: Seq<char>) -> BufferView {
        match self.append_idx() {
            Some(i) => BufferView {
                x_pos: (self.x_pos + byte_len_u16(t)) as u16,
                ..self.edited(insert_at(self.text, i, t))
            },
            None => self.edited(self.text),
        }
    }
}

proof fn lemma_texts_push(v: Seq<Rope>, r: Rope)
    ensures
        texts_of(v.push(r)) == texts_of(v).push(rope_text(r)),
{
    assert(texts_of(v.push(r)) =~= texts_of(v).push(rope_text(r)));
}

proof fn lemma_texts_drop_last(v: Seq<Rope>)
    requires
        v.len() > 0,
    ensures
        texts_of(v.drop_last()) == texts_of(v).drop_last(),
        texts_of(v).last() == rope_text(v.last()),
{
    assert(texts_of(v.drop_last()) =~= texts_of(v).drop_last());
}

/// `b` is a buffer just opened for the file named `file_name`, holding
/// `text`: no history, the cursor at the start, ten lines to a page, the
/// path kept trimmed and the title as given; with no file, titled "Ri".
pub open spec fn opened(b: BufferView, file_name: Option<Seq<char>>, text: Seq<char>) -> bool {
    &&& b.past == Seq::<Seq<char>>::empty()
    &&& b.future == Seq::<Seq<char>>::empty()
    &&& b.command_text is None
    &&& b.operator is None
    &&& b.x_pos == 0
    &&& b.y_pos == 0
    &&& b.start_select_pos is None
    &&& b.end_select_pos is None
    &&& b.mode == Mode::Normal
    &&& b.page_size == 10
    &&& b.current_page == 0
    &&& b.text == text
    &&& match file_name {
        Some(path) => b.title == path && b.file_path == Some(trim(path)),
        None => b.title == "Ri"@ && b.file_path is None,
    }
}

impl Buffer {
    /// A buffer for a file, or a scratch buffer titled "Ri". The file's
    /// text is read by the caller: `loaded` is `None` where there is no file
    /// to read. The path is kept trimmed; the title keeps it as given.
    pub fn new(file_name: Option<String>, loaded: Option<Rope>) -> (b: Buffer)
        ensures
            opened(b@, opt_string_view(file_name), match loaded {
                Some(r) => rope_text(r),
                None => Seq::<char>::empty(),
            }),
    {
        let text = match loaded {
            Some(r) => r,
            None => rope_new(),
        };
        let (title, file_path) = match file_name {
            Some(path) => {
                let cs = chars_of(path.as_str());
                let trimmed = trim_chars(cs.as_slice());
                proof {
                    assert(trimmed@.skip(0) =~= trimmed@);
                }
                (path, Some(string_from_chars(trimmed.as_slice(), 0)))
            },
            None => (String::from_str("Ri"), None),
        };
        let b = Buffer {
            id: new_id(),
            past_states: Vec::new(),
            future_states: Vec::new(),
            file_path,
            command_text: None,
            operator: None,
            x_pos: 0,
            y_pos: 0,
            start_select_pos: None,
            end_select_pos: None,
            mode: Mode::Normal,
            text,
            title,
            page_size: 10,
            current_page: 0,
        };
        proof {
            assert(texts_of(Seq::<Rope>::empty()) =~= Seq::<Seq<char>>::empty());
        }
        b
    }

    pub fn on_up(&mut self)
        requires
            old(self)@.on_up_ok(),
        ensures
            final(self)@ == old(self)@.on_up_spec(),
    {
        if self.y_pos > 0 {
            self.y_pos -= 1;
        }
        if self.y_pos != 0 && (self.y_pos % self.page_size) == 0 {
            self.current_page -= self.page_size;
        }
    }

    pub fn on_down(&mut self)
        requires
            old(self)@.on_down_ok(),
        ensures
            final(self)@ == old(self)@.on_down_spec(),
    {
        let lines = rope_len_lines(&self.text) as u16;
        if self.y_pos <= lines - 1 {
            self.y_pos += 1;
        }
        if self.y_pos != 0 && (self.y_pos % self.page_size) == 0 {
            self.current_page += self.page_size;
        }
    }

    /// The number of characters of the cursor's line, its line break
    /// included; zero past the last line.
    pub fn current_line_len(&self) -> (len: usize)
        ensures
            len == self@.line_len(),
    {
        let lines = rope_len_lines(&self.text);
        let y = self.y_pos as usize;
        if y < lines {
            proof {
                crate::rope::lemma_line_start_monotonic(self@.text, y as nat, (y + 1) as nat);
                lemma_line_start_bounded(self@.text, (y + 1) as nat);
            }
            rope_line_to_char(&self.text, y + 1) - rope_line_to_char(&self.text, y)
        } else {
            0
        }
    }

    /// The text index just past the cursor's line.
    pub fn end_of_current_line(&self) -> (idx: usize)
        requires
            self@.y_pos <= self@.lines(),
        ensures
            idx == self@.line_end(),
    {
        proof {
            lemma_line_end_bounded(self@.text, self@.y_pos as nat);
        }
        let _ = rope_len_chars(&self.text);
        self.start_of_current_line() + self.current_line_len()
    }

    /// The text index of the first character of the cursor's line.
    pub fn start_of_current_line(&self) -> (idx: usize)
        requires
            self@.y_pos <= self@.lines(),
        ensures
            idx == self@.line_start(),
    {
        rope_line_to_char(&self.text, self.y_pos as usize)
    }

    /// The characters of the cursor's line, without line breaks.
    pub fn current_line_chars(&self) -> (chars: Vec<char>)
        requires
            self@.y_pos < self@.lines(),
        ensures
            chars@ == self@.line_chars(),
    {
        let start = self.start_of_current_line();
        let end = self.end_of_current_line();
        proof {
            lemma_line_end_bounded(self@.text, self@.y_pos as nat);
        }
        let ghost line = self@.text.subrange(start as int, end as int);
        let mut chars: Vec<char> = Vec::new();
        let mut i: usize = start;
        while i < end
            invariant
                start <= i <= end,
                end <= self@.text.len(),
                line == self@.text.subrange(start as int, end as int),
                chars@ == remove_newlines(line.take(i - start)),
            decreases end - i,
        {
            let c = rope_char(&self.text, i);
            assert(line.take(i - start + 1).drop_last() =~= line.take(i - start));
            if c != '\n' {
                chars.push(c);
            }
            i = i + 1;
        }
        assert(line.take(end - start) =~= line);
        chars
    }

    pub fn on_right(&mut self)
        requires
            old(self)@.on_right_ok(),
        ensures
            final(self)@ == old(self)@.on_right_spec(),
    {
        let chars = self.current_line_len();
        if self.x_pos < chars as u16 - 1 {
            self.x_pos += 1;
        } else {
            self.on_down();
        }
    }

    pub fn on_left(&mut self)
        requires
            old(self)@.on_left_ok(),
        ensures
            final(self)@ == old(self)@.on_left_spec(),
    {
        if self.x_pos > 0 {
            self.x_pos -= 1;
            if self.x_pos == 0 {
                self.on_up()
            }
        }
    }

    pub fn recenter(&mut self)
        requires
            old(self)@.recenter_ok(),
        ensures
            final(self)@ == old(self)@.recenter_spec(),
    {
        if self.y_pos <= 0_u16 {
            self.on_down()
        }
        if self.y_pos < rope_len_lines(&self.text) as u16 {
            self.on_up()
        }
    }

    /// The text index of the cursor: the start of its line plus its column.
    pub fn get_cursor_idx(&self) -> (idx: usize)
        requires
            self@.cursor_ok(),
        ensures
            idx == self@.cursor_idx(),
    {
        rope_line_to_char(&self.text, self.y_pos as usize) + self.x_pos as usize
    }

    pub fn remove_char(&mut self)
        requires
            old(self)@.remove_char_ok(),
        ensures
            final(self)@ == old(self)@.remove_char_spec(),
    {
        let end_idx = self.get_cursor_idx();
        if end_idx > 0 {
            let start_idx = end_idx - 1;
            self.future_states = Vec::new();
            let kept = self.text.clone();
            proof {
                lemma_texts_push(self.past_states@, kept);
                assert(texts_of(Seq::<Rope>::empty()) =~= Seq::<Seq<char>>::empty());
            }
            self.past_states.push(kept);
            let _ = rope_try_remove(&mut self.text, start_idx, end_idx);
            self.on_left()
        }
    }

    /// The column that the `w` motion moves the cursor to.
    pub fn find_next_word(&self) -> (x: u16)
        requires
            self@.find_next_word_ok(),
        ensures
            x == next_word_spec(self@.line_chars(), self@.x_pos as int),
    {
        self.next_word_index() as u16
    }

    /// The column that the `w` motion moves the cursor to, without a bound.
    fn next_word_index(&self) -> (x: usize)
        requires
            self@.y_pos < self@.lines(),
            self@.x_pos <= self@.line_chars().len(),
        ensures
            x == next_word_spec(self@.line_chars(), self@.x_pos as int),
    {
        let line_chars = self.current_line_chars();
        let ghost line = line_chars@;
        let n = line_chars.len();
        let x = self.x_pos as usize;
        let mut i: usize = x;
        let mut done = false;
        while i < n && !done
            invariant
                line == line_chars@,
                n == line.len(),
                x <= i <= n,
                word_end(line, x as int) == if done {
                    i as int
                } else {
                    word_end(line, i as int)
                },
            decreases n - i,
        {
            if !crate::chars::char_is_alphabetic(line_chars[i]) {
                done = true;
            }
            i = i + 1;
        }
        let end_current_word = i;
        if end_current_word != x {
            let mut j: usize = end_current_word;
            let mut found = false;
            while j < n && !found
                invariant
                    line == line_chars@,
                    n == line.len(),
                    end_current_word <= j <= n,
                    next_letter_end(line, end_current_word as int) == if found {
                        j as int
                    } else {
                        next_letter_end(line, j as int)
                    },
                decreases n - j,
            {
                if crate::chars::char_is_alphabetic(line_chars[j]) {
                    found = true;
                }
                j = j + 1;
            }
            j
        } else {
            end_current_word
        }
    }

    pub fn move_to_last_line(&mut self)
        requires
            old(self)@.move_to_last_line_ok(),
        ensures
            final(self)@ == old(self)@.move_to_last_line_spec(),
    {
        let line_count = rope_len_lines(&self.text) as u16;
        self.x_pos = 0;
        self.y_pos = line_count - 1;
        if line_count > self.page_size {
            self.current_page = (line_count - self.page_size) - 1;
        } else {
            self.current_page = line_count;
        }
    }

    pub fn move_to_first_line(&mut self)
        ensures
            final(self)@ == old(self)@.move_to_first_line_spec(),
    {
        self.y_pos = 0;
        self.current_page = 0;
        self.x_pos = 0;
    }

    pub fn move_to_line_number(&mut self, line_number: usize)
        requires
            old(self)@.move_to_line_number_ok(line_number),
        ensures
            final(self)@ == old(self)@.move_to_line_number_spec(line_number),
    {
        let line_count = rope_len_lines(&self.text);
        if line_number < line_count {
            self.y_pos = (line_number - 1) as u16;
            self.x_pos = 0;
            if line_number >= self.page_size as usize {
                let ps = self.page_size as usize;
                proof {
                    lemma_round_down(line_number as int, ps as int);
                }
                self.current_page = ((line_number - (line_number % ps)) - ps) as u16
            } else {
                self.current_page = 0
            }
        }
    }

    pub fn select_line(&mut self)
        requires
            old(self)@.select_line_ok(),
        ensures
            final(self)@ == old(self)@.select_line_spec(),
    {
        self.mode = Mode::Visual;
        let idx = self.get_cursor_idx();
        self.start_select_pos = Some(idx);
        self.end_select_pos = Some(self.end_of_current_line());
    }

    pub fn add_newline_below(&mut self)
        requires
            old(self)@.add_newline_below_ok(),
        ensures
            final(self)@ == old(self)@.add_newline_below_spec(),
    {
        let char_idx = self.end_of_current_line();
        proof {
            lemma_line_end_bounded(self@.text, self@.y_pos as nat);
        }
        self.push_past();
        self.x_pos = 0;
        self.y_pos += 1;
        let _ = rope_try_insert_char(&mut self.text, char_idx, '\n');
        proof {
            assert(rope_text(self.text) =~= insert_at(old(self)@.text, char_idx as int, seq!['\n']));
        }
    }

    /// Keeps the current text for undo and forgets what could be redone.
    fn push_past(&mut self)
        ensures
            final(self)@ == old(self)@.edited(old(self)@.text),
    {
        let kept = self.text.clone();
        proof {
            lemma_texts_push(self.past_states@, kept);
            assert(texts_of(Seq::<Rope>::empty()) =~= Seq::<Seq<char>>::empty());
        }
        self.past_states.push(kept);
        self.future_states = Vec::new();
    }

    pub fn undo(&mut self)
        requires
            old(self)@.undo_ok(),
        ensures
            final(self)@ == old(self)@.undo_spec(),
    {
        let ghost past = self.past_states@;
        if let Some(past_state) = self.past_states.pop() {
            let kept = self.text.clone();
            proof {
                lemma_texts_drop_last(past);
                lemma_texts_push(self.future_states@, kept);
            }
            self.future_states.push(kept);
            self.text = past_state;
            self.recenter();
        }
    }

    pub fn redo(&mut self)
        ensures
            final(self)@ == old(self)@.redo_spec(),
    {
        let ghost future = self.future_states@;
        if let Some(future_state) = self.future_states.pop() {
            proof {
                lemma_texts_drop_last(future);
            }
            self.text = future_state;
        }
    }

    /// Puts text taken from the clipboard in at the cursor.
    pub fn paste_text(&mut self, copied_text: &str)
        requires
            old(self)@.cursor_ok(),
        ensures
            final(self)@ == old(self)@.paste_text_spec(copied_text@),
    {
        let char_idx = self.get_cursor_idx();
        self.push_past();
        let _ = rope_try_insert(&mut self.text, char_idx, copied_text);
    }

    pub fn delete_line(&mut self)
        requires
            old(self)@.delete_line_ok(),
        ensures
            final(self)@ == old(self)@.delete_line_spec(),
    {
        let start = self.start_of_current_line();
        let end = self.end_of_current_line();
        proof {
            lemma_line_end_bounded(self@.text, self@.y_pos as nat);
        }
        self.push_past();
        let _ = rope_try_remove(&mut self.text, start, end);
        self.recenter();
    }

    pub fn insert_return(&mut self)
        requires
            old(self)@.insert_return_ok(),
        ensures
            final(self)@ == old(self)@.insert_return_spec(),
    {
        let char_idx = self.get_cursor_idx();
        self.push_past();
        let _ = rope_try_insert_char(&mut self.text, char_idx, '\n');
        self.x_pos = 0;
        proof {
            if char_idx <= old(self)@.text.len() {
                assert(rope_text(self.text) =~= insert_at(old(self)@.text, char_idx as int, seq!['\n']));
            }
        }
        self.on_down();
    }

    pub fn insert_chars(&mut self, chars: &str)
        requires
            old(self)@.insert_chars_ok(chars@),
        ensures
            final(self)@ == old(self)@.insert_chars_spec(chars@),
    {
        self.push_past();
        let char_idx = self.get_cursor_idx();
        if rope_try_insert(&mut self.text, char_idx, chars) {
            self.x_pos += chars.len() as u16;
        }
    }

    pub fn append_return(&mut self)
        requires
            old(self)@.append_return_ok(),
        ensures
            final(self)@ == old(self)@.append_return_spec(),
    {
        let char_idx = self.get_cursor_idx() + 1;
        self.push_past();
        if rope_try_insert_char(&mut self.text, char_idx, '\n') {
            self.y_pos += 1;
            self.x_pos = 0;
            proof {
                assert(rope_text(self.text) =~= insert_at(old(self)@.text, char_idx as int, seq!['\n']));
            }
        } else if rope_try_insert_char(&mut self.text, char_idx - 1, '\n') {
            self.y_pos += 1;
            self.x_pos = 0;
            proof {
                assert(rope_text(self.text) =~= insert_at(old(self)@.text, char_idx - 1, seq!['\n']));
            }
        }
    }

    pub fn append_chars(&mut self, chars: &str)
        requires
            old(self)@.append_chars_ok(chars@),
        ensures
            final(self)@ == old(self)@.append_chars_spec(chars@),
    {
        self.push_past();
        let char_idx = self.get_cursor_idx() + 1;
        if rope_try_insert(&mut self.text, char_idx, chars) {
            self.x_pos += chars.len() as u16;
        } else if rope_try_insert(&mut self.text, char_idx - 1, chars) {
            self.x_pos += chars.len() as u16;
        }
    }
}

/// Whether `v` can move up: its page arithmetic stays in range.
fn up_ok(Ghost(v): Ghost<BufferView>, y: u16, page_size: u16, current_page: u16) -> (ok: bool)
    requires
        v.y_pos == y,
        v.page_size == page_size,
        v.current_page == current_page,
    ensures
        ok == v.on_up_ok(),
{
    let uy = if y > 0 {
        y - 1
    } else {
        y
    };
    uy == 0 || (page_size > 0 && (uy % page_size != 0 || current_page >= page_size))
}

/// Whether `v`, whose text has `lines` lines, can move down.
fn down_ok(Ghost(v): Ghost<BufferView>, lines: usize, y: u16, page_size: u16, current_page: u16) -> (ok: bool)
    requires
        v.lines() == lines,
        v.y_pos == y,
        v.page_size == page_size,
        v.current_page == current_page,
    ensures
        ok == v.on_down_ok(),
{
    let lu = lines as u16;
    if lu < 1 {
        return false;
    }
    let dy = if y <= lu - 1 {
        y + 1
    } else {
        y
    };
    dy == 0 || (page_size > 0 && (dy % page_size != 0 || current_page as u32 + page_size as u32 <= 65535))
}

/// Where `v`, whose text has `lines` lines, would stand after moving down.
fn down_y_page(Ghost(v): Ghost<BufferView>, lines: usize, y: u16, page_size: u16, current_page: u16) -> (r: (u16, u16))
    requires
        v.lines() == lines,
        v.y_pos == y,
        v.page_size == page_size,
        v.current_page == current_page,
        v.on_down_ok(),
    ensures
        r.0 == v.on_down_spec().y_pos,
        r.1 == v.on_down_spec().current_page,
{
    let lu = lines as u16;
    let dy = if y <= lu - 1 {
        y + 1
    } else {
        y
    };
    let page = if dy != 0 && dy % page_size == 0 {
        current_page + page_size
    } else {
        current_page
    };
    (dy, page)
}

/// Whether `v`, whose text has `lines` lines, can be recentred.
fn recenter_ok(Ghost(v): Ghost<BufferView>, lines: usize, y: u16, page_size: u16, current_page: u16) -> (ok: bool)
    requires
        v.lines() == lines,
        v.y_pos == y,
        v.page_size == page_size,
        v.current_page == current_page,
    ensures
        ok == v.recenter_ok(),
{
    let (fy, fpage) = if y == 0 {
        if !down_ok(Ghost(v), lines, y, page_size, current_page) {
            return false;
        }
        down_y_page(Ghost(v), lines, y, page_size, current_page)
    } else {
        (y, current_page)
    };
    let lu = lines as u16;
    if fy < lu {
        up_ok(Ghost(v.recenter_first()), fy, page_size, fpage)
    } else {
        true
    }
}

impl Buffer {
    /// Whether the cursor index can be computed.
    pub(crate) fn cursor_ready(&self) -> (ok: bool)
        ensures
            ok == self@.cursor_ok(),
    {
        let lines = rope_len_lines(&self.text);
        let y = self.y_pos as usize;
        if y > lines {
            return false;
        }
        let start = rope_line_to_char(&self.text, y);
        start <= usize::MAX - self.x_pos as usize
    }

    pub(crate) fn can_move_up(&self) -> (ok: bool)
        ensures
            ok == self@.on_up_ok(),
    {
        up_ok(Ghost(self@), self.y_pos, self.page_size, self.current_page)
    }

    pub(crate) fn can_move_down(&self) -> (ok: bool)
        ensures
            ok == self@.on_down_ok(),
    {
        let lines = rope_len_lines(&self.text);
        down_ok(Ghost(self@), lines, self.y_pos, self.page_size, self.current_page)
    }

    pub(crate) fn can_move_left(&self) -> (ok: bool)
        ensures
            ok == self@.on_left_ok(),
    {
        self.x_pos != 1 || self.can_move_up()
    }

    pub(crate) fn can_move_right(&self) -> (ok: bool)
        ensures
            ok == self@.on_right_ok(),
    {
        let ll = self.current_line_len() as u16;
        ll >= 1 && (self.x_pos < ll - 1 || self.can_move_down())
    }

    pub(crate) fn can_undo(&self) -> (ok: bool)
        ensures
            ok == self@.undo_ok(),
    {
        let n = self.past_states.len();
        if n == 0 {
            return true;
        }
        let lines = rope_len_lines(&self.past_states[n - 1]);
        proof {
            lemma_texts_drop_last(self.past_states@);
        }
        recenter_ok(Ghost(self@.undo_state()), lines, self.y_pos, self.page_size, self.current_page)
    }

    pub(crate) fn can_delete_line(&self) -> (ok: bool)
        ensures
            ok == self@.delete_line_ok(),
    {
        let lines = rope_len_lines(&self.text);
        if self.y_pos as usize > lines {
            return false;
        }
        let start = self.start_of_current_line();
        let end = self.end_of_current_line();
        proof {
            lemma_line_end_bounded(self@.text, self@.y_pos as nat);
        }
        let mut rest = self.text.clone();
        let _ = rope_try_remove(&mut rest, start, end);
        let rest_lines = rope_len_lines(&rest);
        proof {
            assert(rope_text(rest) == self@.delete_line_state().text);
        }
        recenter_ok(Ghost(self@.delete_line_state()), rest_lines, self.y_pos, self.page_size, self.current_page)
    }

    pub(crate) fn can_find_next_word(&self) -> (ok: bool)
        ensures
            ok == self@.find_next_word_ok(),
    {
        let lines = rope_len_lines(&self.text);
        if self.y_pos as usize >= lines {
            return false;
        }
        let line_len = self.current_line_chars().len();
        if self.x_pos as usize > line_len {
            return false;
        }
        self.next_word_index() <= 65535
    }

    /// Whether a line break can go in at the cursor, and the line the
    /// cursor would then be on.
    pub(crate) fn return_ready(&self) -> (r: (bool, u16))
        ensures
            r.0 == self@.insert_return_ok(),
            r.0 ==> r.1 == self@.insert_return_spec().y_pos,
    {
        if !self.cursor_ready() {
            return (false, 0);
        }
        let idx = self.get_cursor_idx();
        let mut after = self.text.clone();
        let _ = rope_try_insert_char(&mut after, idx, '\n');
        let lines = rope_len_lines(&after);
        proof {
            if idx <= self@.text.len() {
                assert(rope_text(after) =~= insert_at(self@.text, idx as int, seq!['\n']));
            }
            assert(rope_text(after) == self@.insert_return_state().text);
        }
        let ghost state = self@.insert_return_state();
        if !down_ok(Ghost(state), lines, self.y_pos, self.page_size, self.current_page) {
            return (false, 0);
        }
        let (y, _) = down_y_page(Ghost(state), lines, self.y_pos, self.page_size, self.current_page);
        (true, y)
    }

    /// Whether `chars` can be typed at the cursor.
    pub(crate) fn can_insert_chars(&self, chars: &str) -> (ok: bool)
        ensures
            ok == self@.insert_chars_ok(chars@),
    {
        if !self.cursor_ready() {
            return false;
        }
        let idx = self.get_cursor_idx();
        let len = rope_len_chars(&self.text);
        idx > len || self.x_pos as usize + (chars.len() as u16) as usize <= 65535
    }

    /// Whether the character before the cursor can be deleted.
    pub(crate) fn can_remove_char(&self) -> (ok: bool)
        ensures
            ok == self@.remove_char_ok(),
    {
        if !self.cursor_ready() {
            return false;
        }
        let idx = self.get_cursor_idx();
        idx == 0 || self.can_move_left()
    }

    /// Whether `chars` can be typed after the cursor.
    pub(crate) fn can_append_chars(&self, chars: &str) -> (ok: bool)
        ensures
            ok == self@.append_chars_ok(chars@),
    {
        if !self.cursor_ready() {
            return false;
        }
        let idx = self.get_cursor_idx();
        if idx == usize::MAX {
            return false;
        }
        let len = rope_len_chars(&self.text);
        idx > len || self.x_pos as usize + (chars.len() as u16) as usize <= 65535
    }

    /// Whether a line break can go in after the cursor.
    pub(crate) fn can_append_return(&self) -> (ok: bool)
        ensures
            ok == self@.append_return_ok(),
    {
        if !self.cursor_ready() {
            return false;
        }
        let idx = self.get_cursor_idx();
        if idx == usize::MAX {
            return false;
        }
        let len = rope_len_chars(&self.text);
        idx > len || self.y_pos < 65535
    }
}

pub proof fn lemma_round_down(n: int, d: int)
    requires
        d > 0,
        n >= d,
    ensures
        n - n % d >= d,
{
    assert(n - n % d == d * (n / d)) by (nonlinear_arith)
        requires
            d > 0,
    ;
    assert(n / d >= 1) by (nonlinear_arith)
        requires
            d > 0,
            n >= d,
    ;
    assert(d * (n / d) >= d) by (nonlinear_arith)
        requires
            d > 0,
            n / d >= 1,
    ;
}

/// Text and history of a buffer view, the parts that cursor moves keep.
pub open spec fn same_contents(a: BufferView, b: BufferView) -> bool {
    &&& a.text == b.text
    &&& a.past == b.past
    &&& a.future == b.future
}

/// Cursor and page moves never change the text or the undo history.
pub proof fn law_moves_keep_contents(v: BufferView, n: usize)
    ensures
        same_contents(v.on_up_spec(), v),
        same_contents(v.on_down_spec(), v),
        same_contents(v.on_left_spec(), v),
        same_contents(v.on_right_spec(), v),
        same_contents(v.recenter_spec(), v),
        same_contents(v.move_to_first_line_spec(), v),
        same_contents(v.move_to_last_line_spec(), v),
        same_contents(v.move_to_line_number_spec(n), v),
        same_contents(v.select_line_spec(), v),
{
}

/// Redo after undo gives back the text that undo replaced, and the history
/// as it was.
pub proof fn law_undo_then_redo(v: BufferView)
    requires
        v.past.len() > 0,
    ensures
        v.undo_spec().redo_spec().text == v.text,
        v.undo_spec().redo_spec().past == v.past.drop_last(),
        v.undo_spec().redo_spec().future == v.future,
{
    law_moves_keep_contents(v.undo_state(), 0);
    law_moves_keep_contents(v.undo_state().recenter_first(), 0);
    assert(v.future.push(v.text).drop_last() =~= v.future);
}

/// Undo right after an edit gives back the text from before the edit and
/// the history from before it; only the edited text is left to redo.
pub proof fn law_undo_after_edit(v: BufferView, t: Seq<char>)
    ensures
        ({
            let edits = seq![
                v.remove_char_spec(),
                v.add_newline_below_spec(),
                v.paste_text_spec(t),
                v.delete_line_spec(),
                v.insert_return_spec(),
                v.insert_chars_spec(t),
                v.append_return_spec(),
                v.append_chars_spec(t),
            ];
            forall|i: int|
                0 <= i < edits.len() && edits[i].past.len() > v.past.len() ==> {
                    &&& (#[trigger] edits[i]).undo_spec().text == v.text
                    &&& edits[i].undo_spec().past == v.past
                    &&& edits[i].undo_spec().future == seq![edits[i].text]
                }
        }),
{
    let edits = seq![
        v.remove_char_spec(),
        v.add_newline_below_spec(),
        v.paste_text_spec(t),
        v.delete_line_spec(),
        v.insert_return_spec(),
        v.insert_chars_spec(t),
        v.append_return_spec(),
        v.append_chars_spec(t),
    ];
    assert forall|i: int|
        0 <= i < edits.len() && edits[i].past.len() > v.past.len() implies {
            &&& (#[trigger] edits[i]).undo_spec().text == v.text
            &&& edits[i].undo_spec().past == v.past
            &&& edits[i].undo_spec().future == seq![edits[i].text]
        } by {
        let e = edits[i];
        let ed = v.edited(v.text);
        law_moves_keep_contents(v.edited(remove_range(v.text, v.cursor_idx() - 1, v.cursor_idx())), 0);
        law_moves_keep_contents(ed, 0);
        law_moves_keep_contents(v.delete_line_state(), 0);
        law_moves_keep_contents(v.delete_line_state().recenter_first(), 0);
        law_moves_keep_contents(v.insert_return_state(), 0);
        law_moves_keep_contents(
            BufferView { x_pos: (v.x_pos - 1) as u16, ..v.edited(remove_range(v.text, v.cursor_idx() - 1, v.cursor_idx())) },
            0,
        );
        law_moves_keep_contents(BufferView { x_pos: (v.x_pos - 1) as u16, ..ed }, 0);
        assert(e.past == v.past.push(v.text));
        assert(e.future == Seq::<Seq<char>>::empty());
        law_moves_keep_contents(e.undo_state(), 0);
        law_moves_keep_contents(e.undo_state().recenter_first(), 0);
        assert(e.past.drop_last() =~= v.past);
        assert(Seq::<Seq<char>>::empty().push(e.text) =~= seq![e.text]);
    }
}

/// The line breaks of `s`, counted from its front.
proof fn lemma_newline_count_front(s: Seq<char>)
    requires
        s.len() > 0,
    ensures
        newline_count(s) == newline_count(s.drop_first()) + if s[0] == '\n' {
            1nat
        } else {
            0nat
        },
    decreases s.len(),
{
    if s.len() > 1 {
        lemma_newline_count_front(s.drop_last());
        assert(s.drop_last().drop_first() =~= s.drop_first().drop_last());
        assert(s.drop_first().last() == s.last());
    } else {
        assert(s.drop_last() =~= Seq::<char>::empty());
        assert(s.drop_first() =~= Seq::<char>::empty());
    }
}

/// A character other than a line break put in at or after the start of a
/// line that the text has leaves that start where it was.
proof fn lemma_line_start_after_insert(s: Seq<char>, y: nat, idx: int, c: char)
    requires
        c != '\n',
        y <= newline_count(s),
        line_start(s, y) <= idx <= s.len(),
    ensures
        line_start(insert_at(s, idx, seq![c]), y) == line_start(s, y),
    decreases s.len(),
{
    let t = insert_at(s, idx, seq![c]);
    if y > 0 {
        assert(s.len() > 0);
        lemma_newline_count_front(s);
        assert(idx >= 1);
        assert(t[0] == s[0]);
        assert(t.drop_first() =~= insert_at(s.drop_first(), idx - 1, seq![c]));
        if s[0] == '\n' {
            lemma_line_start_after_insert(s.drop_first(), (y - 1) as nat, idx - 1, c);
        } else {
            lemma_line_start_after_insert(s.drop_first(), y, idx - 1, c);
        }
    }
}

/// Typing a one-byte character other than a line break, then deleting the
/// character before the cursor, gives the text back, where the cursor is
/// on a line of the text and within it.
pub proof fn law_type_then_backspace(v: BufferView, c: char)
    requires
        c != '\n',
        (c as u32) < 0x80,
        v.y_pos < v.lines(),
        v.cursor_idx() <= v.text.len(),
        v.x_pos < u16::MAX,
    ensures
        v.insert_chars_spec(seq![c]).remove_char_spec().text == v.text,
{
    let idx = v.cursor_idx();
    assert(seq![c].drop_first() =~= Seq::<char>::empty());
    assert(vstd::utf8::encode_utf8(seq![c]).len() == 1) by {
        assert(vstd::utf8::has_width_1_encoding(seq![c][0] as u32));
        assert(vstd::utf8::encode_scalar(seq![c][0] as u32).len() == 1);
        assert(vstd::utf8::encode_utf8(seq![c].drop_first()).len() == 0);
    }
    let w = v.insert_chars_spec(seq![c]);
    lemma_line_start_after_insert(v.text, v.y_pos as nat, idx, c);
    assert(w.cursor_idx() == idx + 1);
    let t = insert_at(v.text, idx, seq![c]);
    assert(remove_range(t, idx, idx + 1) =~= v.text);
    law_moves_keep_contents(w.edited(remove_range(t, idx, idx + 1)), 0);
    law_moves_keep_contents(BufferView { x_pos: (w.x_pos - 1) as u16, ..w.edited(remove_range(t, idx, idx + 1)) }, 0);
}

/// Deleting a line removes the cursor's whole line, its line break
/// included, whatever the cursor's column, and keeps the old text for undo.
pub proof fn law_delete_line_removes_the_line(v: BufferView)
    ensures
        v.delete_line_spec().text == v.text.take(line_start(v.text, v.y_pos as nat) as int) + v.text.skip(
            (line_start(v.text, v.y_pos as nat) + line_len(v.text, v.y_pos as nat)) as int,
        ),
        v.delete_line_spec().past == v.past.push(v.text),
        v.delete_line_spec().future == Seq::<Seq<char>>::empty(),
{
    law_moves_keep_contents(v.delete_line_state(), 0);
}

/// Backspace deletes the character just before the cursor wherever the
/// cursor is past the start of the text and within it, at the start of a
/// later line too, and keeps the old text for undo.
pub proof fn law_backspace_removes_the_char_before(v: BufferView)
    requires
        0 < v.cursor_idx() <= v.text.len(),
    ensures
        v.remove_char_spec().text == v.text.take(v.cursor_idx() - 1) + v.text.skip(v.cursor_idx()),
        v.remove_char_spec().past == v.past.push(v.text),
        v.remove_char_spec().future == Seq::<Seq<char>>::empty(),
{
    let idx = v.cursor_idx();
    law_moves_keep_contents(v.edited(remove_range(v.text, idx - 1, idx)), 0);
}

/// The first scan of the `w` motion from `i`: the letters from `i`, then
/// one character more, where the line goes on.
proof fn lemma_word_end(line: Seq<char>, i: int)
    requires
        0 <= i < line.len(),
    ensures
        i < word_end(line, i) <= line.len(),
        forall|k: int| i <= k < word_end(line, i) - 1 ==> crate::chars::is_alphabetic(#[trigger] line[k]),
        word_end(line, i) == line.len() || !crate::chars::is_alphabetic(line[word_end(line, i) - 1]),
    decreases line.len() - i,
{
    if crate::chars::is_alphabetic(line[i]) {
        assert(word_end(line, i) == word_end(line, i + 1));
        if i + 1 < line.len() {
            lemma_word_end(line, i + 1);
        } else {
            assert(word_end(line, i + 1) == i + 1);
        }
    }
}

/// The second scan of the `w` motion from `i`: the non-letters from `i`,
/// then the first letter, where the line goes on.
proof fn lemma_next_letter_end(line: Seq<char>, i: int)
    requires
        0 <= i <= line.len(),
    ensures
        i <= next_letter_end(line, i) <= line.len(),
        forall|k: int| i <= k < next_letter_end(line, i) - 1 ==> !crate::chars::is_alphabetic(#[trigger] line[k]),
        next_letter_end(line, i) == line.len() || crate::chars::is_alphabetic(line[next_letter_end(line, i) - 1]),
    decreases line.len() - i,
{
    if i < line.len() && !crate::chars::is_alphabetic(line[i]) {
        assert(next_letter_end(line, i) == next_letter_end(line, i + 1));
        lemma_next_letter_end(line, i + 1);
    }
}

/// The `w` motion from a column `x` of the line moves strictly forward and
/// stays within the line. It first passes the letters from `x` and the one
/// character after them (a non-letter at `x` is passed alone), to `e`; then
/// it passes the non-letters from `e` and the first letter after them, or
/// stops at the end of the line.
pub proof fn law_next_word(line: Seq<char>, x: int)
    requires
        0 <= x < line.len(),
    ensures
        x < next_word_spec(line, x) <= line.len(),
        !crate::chars::is_alphabetic(line[x]) ==> word_end(line, x) == x + 1,
        forall|k: int| x <= k < word_end(line, x) - 1 ==> crate::chars::is_alphabetic(#[trigger] line[k]),
        word_end(line, x) == line.len() || !crate::chars::is_alphabetic(line[word_end(line, x) - 1]),
        forall|k: int|
            word_end(line, x) <= k < next_word_spec(line, x) - 1 ==> !crate::chars::is_alphabetic(#[trigger] line[k]),
        next_word_spec(line, x) == line.len() || crate::chars::is_alphabetic(line[next_word_spec(line, x) - 1]),
{
    lemma_word_end(line, x);
    lemma_next_letter_end(line, word_end(line, x));
}

/// Typing in insert mode puts the text in at the cursor, and Enter a line
/// break, where the cursor is within the text; typing moves the cursor on by
/// the text's UTF-8 length; both keep the old text for undo.
pub proof fn law_insert_at_the_cursor(v: BufferView, t: Seq<char>)
    requires
        v.cursor_idx() <= v.text.len(),
    ensures
        v.insert_chars_spec(t).text == v.text.take(v.cursor_idx()) + t + v.text.skip(v.cursor_idx()),
        v.insert_chars_spec(t).x_pos == (v.x_pos + byte_len_u16(t)) as u16,
        v.insert_chars_spec(t).past == v.past.push(v.text),
        v.insert_return_spec().text == v.text.take(v.cursor_idx()) + seq!['\n'] + v.text.skip(v.cursor_idx()),
        v.insert_return_spec().past == v.past.push(v.text),
{
    law_moves_keep_contents(v.insert_return_state(), 0);
}

/// Typing in append mode puts the text in just after the cursor, and Enter
/// a line break there, where the text goes on past the cursor; at the end
/// of the text they go at the end; both keep the old text for undo.
pub proof fn law_append_after_the_cursor(v: BufferView, t: Seq<char>)
    requires
        v.cursor_idx() <= v.text.len(),
    ensures
        v.cursor_idx() < v.text.len() ==> v.append_chars_spec(t).text == v.text.take(v.cursor_idx() + 1) + t
            + v.text.skip(v.cursor_idx() + 1),
        v.cursor_idx() == v.text.len() ==> v.append_chars_spec(t).text == v.text + t,
        v.cursor_idx() < v.text.len() ==> v.append_return_spec().text == v.text.take(v.cursor_idx() + 1)
            + seq!['\n'] + v.text.skip(v.cursor_idx() + 1),
        v.cursor_idx() == v.text.len() ==> v.append_return_spec().text == v.text.push('\n'),
        v.append_chars_spec(t).past == v.past.push(v.text),
        v.append_return_spec().past == v.past.push(v.text),
{
    if v.cursor_idx() == v.text.len() {
        assert(v.text.take(v.cursor_idx()) =~= v.text);
        assert(v.text.skip(v.cursor_idx()) =~= Seq::<char>::empty());
        assert(insert_at(v.text, v.cursor_idx(), t) =~= v.text + t);
        assert(insert_at(v.text, v.cursor_idx(), seq!['\n']) =~= v.text.push('\n'));
    }
}

} // verus!
