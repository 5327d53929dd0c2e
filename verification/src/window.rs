//! A window onto a buffer: where it is drawn, the cursor and page it shows,
//! and the styled lines and line numbers kept ready for drawing.
use crate::app::Mode;
use crate::command::string_views;
use crate::highlight::{
    highlight_lines, highlighted, highlighting_found, load_highlighting, opt_rows_view,
    rows_view, CachedSpan, Color, Highlighting, SpanStyle, SpanView,
};
use crate::ids::new_id;
use crate::layout::{Alignment, Rect};
use crate::rope::{line_count, rope_char, rope_len_chars, rope_len_lines, rope_line_to_char, rope_text};
use crate::text::{decimal, left_aligned_5, pad_right, string_from_chars};
use crate::token::{DisplayToken, WindowChange};
use ropey::Rope;
use vstd::prelude::*;

verus! {

/// A position in a window.
#[derive(Debug, Copy, Clone, PartialEq, Eq, Structural)]
pub struct WindowPosition {
    pub y: u32,
    pub x: u32,
}

pub struct Window {
    pub id: u128,
    pub title: Option<String>,
    pub current_percent_size: u16,
    pub buffer_id: u128,
    pub y_offset: u16,
    pub x_offset: u16,
    pub x_pos: u16,
    pub y_pos: u16,
    pub mode: Mode,
    pub page_size: u16,
    pub current_page: u16,
    pub outer_areas: Vec<Option<Rect>>,
    pub area: Option<Rect>,
    pub command_text: Option<String>,
    pub bottom: Option<u16>,
    pub right: Option<u16>,
    pub window_left: Option<u128>,
    pub window_right: Option<u128>,
    pub window_up: Option<u128>,
    pub window_down: Option<u128>,
    pub highlight_cache: Vec<Vec<CachedSpan>>,
    pub line_num_cache: Vec<Vec<CachedSpan>>,
    /// The syntax and theme that the window's text is highlighted with.
    pub highlighting: Option<Highlighting>,
    /// The window's number among the open windows, for switching to it.
    pub order: usize,
}

/// The lines of `s`, each with its line break, as syntect's
/// `LinesWithEndings` gives them: no empty line at the end.
pub open spec fn lines_with_endings(s: Seq<char>) -> Seq<Seq<char>>
    decreases s.len(),
{
    if s.len() == 0 {
        Seq::empty()
    } else {
        let p = lines_with_endings(s.drop_last());
        if p.len() == 0 || p.last().last() == '\n' {
            p.push(seq![s.last()])
        } else {
            p.update(p.len() - 1, p.last().push(s.last()))
        }
    }
}

/// The line-number column: one row holding the numbers from 1 up to one
/// less than `count`, each left-aligned in five columns, in yellow.
pub open spec fn line_numbers_spec(count: nat) -> Seq<Seq<char>> {
    Seq::new((if count > 1 { count - 1 } else { 0 }) as nat, |i: int| pad_right(decimal((i + 1) as nat), 5))
}

pub open spec fn yellow() -> SpanStyle {
    SpanStyle { fg: Some(Color::Yellow) }
}

/// `row` holds the line numbers for `count` lines.
pub open spec fn is_line_number_row(row: Seq<CachedSpan>, count: nat) -> bool {
    &&& row.len() == line_numbers_spec(count).len()
    &&& forall|i: int|
        0 <= i < row.len() ==> (#[trigger] row[i]).content@ == line_numbers_spec(count)[i]
            && row[i].style == yellow()
}

/// The characters of each line, as strings.
fn strings_of(lines: &Vec<Vec<char>>) -> (r: Vec<String>)
    ensures
        r@.len() == lines@.len(),
        forall|i: int| 0 <= i < lines@.len() ==> #[trigger] r@[i]@ == lines@[i]@,
{
    let mut r: Vec<String> = Vec::new();
    let mut i: usize = 0;
    while i < lines.len()
        invariant
            i <= lines@.len(),
            r@.len() == i,
            forall|k: int| 0 <= k < i ==> #[trigger] r@[k]@ == lines@[k]@,
        decreases lines@.len() - i,
    {
        proof {
            assert(lines@[i as int]@.skip(0) =~= lines@[i as int]@);
        }
        r.push(string_from_chars(lines[i].as_slice(), 0));
        i = i + 1;
    }
    r
}

/// The rows that are there, in order.
fn kept_rows_of(results: Vec<Option<Vec<CachedSpan>>>) -> (r: Vec<Vec<CachedSpan>>)
    ensures
        rows_view(r@) == kept_rows(opt_rows_view(results@)),
{
    let ghost all = results@;
    let mut rest = results;
    let mut kept: Vec<Vec<CachedSpan>> = Vec::new();
    let ghost mut i: int = 0;
    proof {
        assert(opt_rows_view(all).take(0) =~= Seq::<Option<Seq<SpanView>>>::empty());
        assert(rows_view(kept@) =~= Seq::<Seq<SpanView>>::empty());
        assert(all.skip(0) =~= all);
    }
    while rest.len() > 0
        invariant
            0 <= i <= all.len(),
            rest@ == all.skip(i),
            rows_view(kept@) == kept_rows(opt_rows_view(all).take(i)),
        decreases rest@.len(),
    {
        let ghost old_kept = kept@;
        let row = rest.remove(0);
        proof {
            assert(row == all[i]);
            let v = opt_rows_view(all);
            assert(v.take(i + 1).drop_last() =~= v.take(i));
            assert(all.skip(i + 1) =~= all.skip(i).drop_first());
        }
        if let Some(r) = row {
            kept.push(r);
            proof {
                assert(rows_view(kept@) =~= rows_view(old_kept).push(rows_view(kept@).last()));
            }
        }
        proof {
            i = i + 1;
        }
    }
    proof {
        assert(opt_rows_view(all).take(i) =~= opt_rows_view(all));
    }
    kept
}

/// Characters `start` up to `end` of a rope.
fn rope_chars(text: &Rope, start: usize, end: usize) -> (v: Vec<char>)
    requires
        start <= end <= rope_text(*text).len(),
    ensures
        v@ == rope_text(*text).subrange(start as int, end as int),
{
    let mut v: Vec<char> = Vec::new();
    let mut i: usize = start;
    while i < end
        invariant
            start <= i <= end <= rope_text(*text).len(),
            v@ == rope_text(*text).subrange(start as int, i as int),
        decreases end - i,
    {
        v.push(rope_char(text, i));
        assert(v@ =~= rope_text(*text).subrange(start as int, i + 1));
        i = i + 1;
    }
    v
}

/// Splits characters into lines, each with its line break.
pub fn lines_with_endings_of(s: &[char]) -> (lines: Vec<Vec<char>>)
    ensures
        lines@.len() == lines_with_endings(s@).len(),
        forall|i: int| 0 <= i < lines@.len() ==> #[trigger] lines@[i]@ == lines_with_endings(s@)[i],
{
    let n = s.len();
    let mut done: Vec<Vec<char>> = Vec::new();
    let mut cur: Vec<char> = Vec::new();
    let mut i: usize = 0;
    assert(s@.take(0) =~= Seq::<char>::empty());
    while i < n
        invariant
            i <= n,
            n == s@.len(),
            forall|j: int| 0 <= j < done@.len() ==> #[trigger] done@[j]@.len() > 0 && done@[j]@.last() == '\n',
            cur@.len() > 0 ==> cur@.last() != '\n',
            lines_with_endings(s@.take(i as int)).len() == done@.len() + if cur@.len() > 0 { 1int } else { 0int },
            forall|j: int| 0 <= j < done@.len() ==> #[trigger] done@[j]@ == lines_with_endings(s@.take(i as int))[j],
            cur@.len() > 0 ==> cur@ == lines_with_endings(s@.take(i as int)).last(),
        decreases n - i,
    {
        let ghost pre = s@.take(i as int);
        let ghost p = lines_with_endings(pre);
        assert(s@.take(i + 1).drop_last() =~= pre);
        assert(s@.take(i + 1).last() == s@[i as int]);
        let c = s[i];
        let ghost old_cur = cur@;
        let ghost old_done = done@;
        cur.push(c);
        proof {
            if old_cur.len() == 0 {
                assert(cur@ =~= seq![c]);
            }
        }
        if c == '\n' {
            let finished = cur;
            done.push(finished);
            cur = Vec::new();
        }
        i = i + 1;
        proof {
            let q = lines_with_endings(s@.take(i as int));
            if old_cur.len() > 0 {
                assert(q == p.update(p.len() - 1, old_cur.push(c)));
            } else {
                if old_done.len() > 0 {
                    assert(p.last() == old_done[old_done.len() - 1]@);
                }
                assert(q == p.push(seq![c]));
            }
        }
    }
    assert(s@.take(n as int) =~= s@);
    if cur.len() > 0 {
        done.push(cur);
    }
    done
}

/// The characters of a rope.
fn rope_all_chars(text: &Rope) -> (v: Vec<char>)
    ensures
        v@ == rope_text(*text),
{
    let n = rope_len_chars(text);
    let v = rope_chars(text, 0, n);
    assert(rope_text(*text).subrange(0, n as int) =~= rope_text(*text));
    v
}

impl Window {
    /// A window for the buffer that `change` describes, with a fresh id,
    /// four columns for line numbers and nothing cached.
    pub fn new(change: &WindowChange) -> (w: Self)
        ensures
            fresh_for(w, *change),
    {
        Window {
            id: new_id(),
            title: clone_title(&change.title),
            current_percent_size: 0,
            buffer_id: change.id,
            y_offset: 0,
            x_offset: 4,
            x_pos: change.x_pos,
            y_pos: change.y_pos,
            mode: change.mode,
            page_size: change.page_size,
            current_page: change.current_page,
            outer_areas: Vec::new(),
            area: None,
            command_text: None,
            bottom: None,
            right: None,
            window_left: None,
            window_right: None,
            window_up: None,
            window_down: None,
            highlight_cache: Vec::new(),
            line_num_cache: Vec::new(),
            highlighting: None,
            order: 0,
        }
    }

    /// The column at which a line `line_width` wide starts in an area
    /// `text_area_width` wide, for an alignment.
    pub fn get_line_offset(line_width: u16, text_area_width: u16, alignment: Alignment) -> (x: u16)
        ensures
            x == match alignment {
                Alignment::Center => {
                    if text_area_width / 2 >= line_width / 2 {
                        (text_area_width / 2 - line_width / 2) as u16
                    } else {
                        0
                    }
                },
                Alignment::Right => {
                    if text_area_width >= line_width {
                        (text_area_width - line_width) as u16
                    } else {
                        0
                    }
                },
                Alignment::Left => 0,
            },
    {
        match alignment {
            Alignment::Center => {
                let half = text_area_width / 2;
                let line_half = line_width / 2;
                if half >= line_half {
                    half - line_half
                } else {
                    0
                }
            },
            Alignment::Right => {
                if text_area_width >= line_width {
                    text_area_width - line_width
                } else {
                    0
                }
            },
            Alignment::Left => 0,
        }
    }

    /// The screen row, counted from the top of an area `height` rows high,
    /// on which the text's wrapped row `y` is drawn: the rows from the
    /// current page on are drawn one per screen row while they fit, and the
    /// others not at all.
    pub fn page_row(&self, y: u16, height: u16) -> (row: Option<u16>)
        ensures
            row == (if self.current_page <= y < self.current_page + height {
                Some((y - self.current_page) as u16)
            } else {
                None::<u16>
            }),
    {
        if y >= self.current_page && y - self.current_page < height {
            Some(y - self.current_page)
        } else {
            None
        }
    }

    /// The screen row of `area` on which the text's wrapped row `y` is
    /// drawn: the rows from the current page on go to the rows from the top
    /// of the area down, while they fit, and the others are not drawn.
    pub fn draw_row(&self, y: u16, area: Rect) -> (row: Option<u16>)
        requires
            self.current_page <= y < self.current_page + area.height ==> area.y + y <= u16::MAX,
        ensures
            row == (if self.current_page <= y < self.current_page + area.height {
                Some((area.y + y - self.current_page) as u16)
            } else {
                None::<u16>
            }),
    {
        match self.page_row(y, area.height) {
            Some(r) => Some(area.y + r),
            None => None,
        }
    }

    /// The screen column of the cursor.
    pub fn display_x_pos(&self) -> (x: u16)
        requires
            self.x_pos + self.x_offset <= u16::MAX,
        ensures
            x == self.x_pos + self.x_offset,
    {
        self.x_pos + self.x_offset
    }

    /// The screen row of the cursor, counted from the top of the shown page.
    pub fn display_y_pos(&self) -> (y: u16)
        requires
            self.y_pos + self.y_offset <= u16::MAX,
            self.y_pos + self.y_offset >= self.current_page,
        ensures
            y == self.y_pos + self.y_offset - self.current_page,
    {
        (self.y_pos + self.y_offset) - self.current_page
    }

    /// The top left corner of the window's area, if it has one.
    pub fn get_origin(&self) -> (o: Option<(u16, u16)>)
        ensures
            match self.area {
                Some(a) => o == Some((a.x, a.y)),
                None => o is None,
            },
    {
        if let Some(area) = self.area {
            return Some((area.x, area.y));
        }
        None
    }

    /// Takes over the cursor, page, mode and title of the buffer; the
    /// offsets go back to four columns for line numbers and no rows.
    pub fn update(&mut self, change: WindowChange)
        ensures
            updated(*old(self), *final(self), change),
    {
        self.x_pos = change.x_pos;
        self.y_pos = change.y_pos;
        self.mode = change.mode;
        self.title = change.title;
        self.page_size = change.page_size;
        self.current_page = change.current_page;
        self.y_offset = 0;
        self.x_offset = 4;
    }

    /// Sets up highlighting: syntect's default syntax for `.rs` files and its
    /// `base16-ocean.dark` theme, or none where either is missing.
    pub fn set_highlight(&mut self)
        ensures
            highlight_set(*old(self), *final(self)),
    {
        self.highlighting = load_highlighting("rs", "base16-ocean.dark");
    }

    /// Highlights every line of `text` and keeps the styled lines, when
    /// highlighting is set up; lines that fail to highlight are left out.
    pub fn cache_formatted_text(&mut self, text: &Rope)
        ensures
            formatted_cached(*old(self), *final(self), rope_text(*text)),
    {
        if let Some(h) = &self.highlighting {
            let chars = rope_all_chars(text);
            let lines = lines_with_endings_of(chars.as_slice());
            let ghost all = lines_with_endings(rope_text(*text));
            let strings = strings_of(&lines);
            proof {
                assert(string_views(strings@) =~= all);
            }
            let results = highlight_lines(h, &strings);
            self.highlight_cache = kept_rows_of(results);
        }
    }

    /// Keeps the line-number column for the lines of `text`.
    pub fn cache_line_numbers(&mut self, text: &Rope)
        ensures
            line_numbers_cached(*old(self), *final(self), rope_text(*text)),
    {
        let line_count = rope_len_lines(text);
        self.line_num_cache = Self::line_numbers(line_count);
    }

    /// Keeps the styled lines and the line numbers of `text`.
    pub fn cache_window_content(&mut self, text: &Rope)
        ensures
            content_cached(*old(self), *final(self), rope_text(*text)),
    {
        self.cache_formatted_text(text);
        self.cache_line_numbers(text);
    }

    /// Puts `row`, a line as the highlighter styled it, in the cache at
    /// `line_index`; with no row (the highlighter failed) nothing changes.
    pub fn insert_highlighted_line(&mut self, line_index: usize, row: Option<Vec<CachedSpan>>)
        requires
            line_index <= old(self).highlight_cache@.len(),
        ensures
            match row {
                Some(r) => *final(self) == Window {
                    highlight_cache: final(self).highlight_cache,
                    ..*old(self)
                } && final(self).highlight_cache@ == old(self).highlight_cache@.insert(line_index as int, r),
                None => *final(self) == *old(self),
            },
    {
        if let Some(hs) = row {
            self.highlight_cache.insert(line_index, hs);
        }
    }

    /// Highlights line `line_index` of `text` with a fresh highlighter and
    /// puts the styled line in the cache at that index, when highlighting is
    /// set up and the line highlights. Without highlighting, or where the
    /// line has no characters, nothing changes.
    pub fn cache_new_line(&mut self, text: &Rope, line_index: usize)
        requires
            old(self).highlighting is Some ==> line_index <= old(self).highlight_cache@.len(),
        ensures
            new_line_cached(*old(self), *final(self), rope_text(*text), line_index as nat),
    {
        if let Some(h) = &self.highlighting {
            let lines = rope_len_lines(text);
            let line_chars = if line_index < lines {
                let start = rope_line_to_char(text, line_index);
                let end = rope_line_to_char(text, line_index + 1);
                proof {
                    crate::rope::lemma_line_start_monotonic(rope_text(*text), line_index as nat, (line_index + 1) as nat);
                    crate::rope::lemma_line_start_bounded(rope_text(*text), (line_index + 1) as nat);
                }
                rope_chars(text, start, end)
            } else {
                Vec::new()
            };
            let pieces = lines_with_endings_of(line_chars.as_slice());
            if pieces.len() > 0 {
                proof {
                    assert(pieces@[0]@.skip(0) =~= pieces@[0]@);
                }
                let mut one: Vec<String> = Vec::new();
                one.push(string_from_chars(pieces[0].as_slice(), 0));
                let ghost t = rope_text(*text);
                proof {
                    if !(line_index < lines) {
                        assert(line_chars@.len() == 0);
                    }
                    assert(line_index < line_count(t));
                    assert(line_chars@ == t.subrange(
                        crate::rope::line_start(t, line_index as nat) as int,
                        crate::rope::line_start(t, line_index as nat + 1) as int,
                    ));
                    assert(line_has_chars(t, line_index as nat));
                    assert(string_views(one@) =~= seq![first_piece(t, line_index as nat)]);
                }
                let mut results = highlight_lines(h, &one);
                let ghost all = results@;
                let ghost expected = highlighted(h.extension(), h.theme_name(), seq![first_piece(t, line_index as nat)]);
                let cached = match results.pop() {
                    Some(c) => c,
                    None => None,
                };
                proof {
                    assert(cached == all[0]);
                    assert(expected[0] == opt_rows_view(all)[0]);
                }
                let ghost old_cache = self.highlight_cache@;
                let ghost g = cached;
                self.insert_highlighted_line(line_index, cached);
                proof {
                    if g is Some {
                        assert(rows_view(self.highlight_cache@) =~= rows_view(old_cache).insert(
                            line_index as int,
                            crate::highlight::row_view(g->0@),
                        ));
                    }
                }
            } else {
                proof {
                    lemma_lines_with_endings_nonempty(line_chars@);
                }
            }
        }
    }

    /// The line-number column for `line_number_count` lines.
    pub fn line_numbers(line_number_count: usize) -> (rows: Vec<Vec<CachedSpan>>)
        ensures
            rows@.len() == 1,
            is_line_number_row(rows@[0]@, line_number_count as nat),
    {
        let mut row: Vec<CachedSpan> = Vec::new();
        let mut l: usize = 1;
        while l < line_number_count
            invariant
                1 <= l,
                l <= line_number_count || line_number_count <= 1,
                line_number_count <= 1 ==> l == 1,
                row@.len() == l - 1,
                forall|i: int|
                    0 <= i < row@.len() ==> (#[trigger] row@[i]).content@ == pad_right(decimal((i + 1) as nat), 5)
                        && row@[i].style == yellow(),
            decreases line_number_count - l,
        {
            row.push(CachedSpan { content: left_aligned_5(l), style: SpanStyle { fg: Some(Color::Yellow) } });
            l = l + 1;
        }
        let mut rows: Vec<Vec<CachedSpan>> = Vec::new();
        rows.push(row);
        rows
    }

    /// Carries out an instruction meant for windows: take over a buffer's
    /// cursor, keep a text ready for drawing, or set up highlighting. Other
    /// instructions leave the window as it is.
    pub fn handle_display_token(&mut self, token: DisplayToken)
        ensures
            match token {
                DisplayToken::UpdateWindow(change) => updated(*old(self), *final(self), change),
                DisplayToken::CacheWindowContent(text) => content_cached(
                    *old(self),
                    *final(self),
                    rope_text(text),
                ),
                DisplayToken::SetHighlight => highlight_set(*old(self), *final(self)),
                _ => *final(self) == *old(self),
            },
    {
        match token {
            DisplayToken::UpdateWindow(change) => self.update(change),
            DisplayToken::CacheWindowContent(text) => self.cache_window_content(&text),
            DisplayToken::SetHighlight => self.set_highlight(),
            _ => {},
        }
    }
}

/// `w` is a new window for the buffer that `change` describes: a fresh id,
/// the buffer's cursor, page, mode and title, four columns for line numbers,
/// no area, nothing cached and no highlighting.
pub open spec fn fresh_for(w: Window, change: WindowChange) -> bool {
    &&& w.buffer_id == change.id
    &&& w.x_pos == change.x_pos
    &&& w.y_pos == change.y_pos
    &&& w.mode == change.mode
    &&& opt_view(w.title) == opt_view(change.title)
    &&& w.page_size == change.page_size
    &&& w.current_page == change.current_page
    &&& w.y_offset == 0
    &&& w.x_offset == 4
    &&& w.current_percent_size == 0
    &&& w.area is None
    &&& w.command_text is None
    &&& w.outer_areas@.len() == 0
    &&& w.bottom is None
    &&& w.right is None
    &&& w.window_left is None
    &&& w.window_right is None
    &&& w.window_up is None
    &&& w.window_down is None
    &&& w.highlight_cache@.len() == 0
    &&& w.line_num_cache@.len() == 0
    &&& w.highlighting is None
    &&& w.order == 0
}

pub open spec fn opt_view(o: Option<String>) -> Option<Seq<char>> {
    crate::token::command_token::opt_string_view(o)
}

fn clone_title(t: &Option<String>) -> (c: Option<String>)
    ensures
        opt_view(c) == opt_view(*t),
{
    match t {
        Some(s) => Some(s.clone()),
        None => None,
    }
}

/// `new` is `old` after taking over `change`.
pub open spec fn updated(old: Window, new: Window, change: WindowChange) -> bool {
    new == Window {
        x_pos: change.x_pos,
        y_pos: change.y_pos,
        mode: change.mode,
        title: change.title,
        page_size: change.page_size,
        current_page: change.current_page,
        y_offset: 0,
        x_offset: 4,
        ..old
    }
}

/// `h` is what setting up highlighting gives: syntect's default syntax
/// for `.rs` files and its `base16-ocean.dark` theme, where both are there.
pub open spec fn rust_highlighting(h: Option<Highlighting>) -> bool {
    &&& h is Some == highlighting_found("rs"@, "base16-ocean.dark"@)
    &&& h matches Some(x) ==> x.extension() == "rs"@ && x.theme_name() == "base16-ocean.dark"@
}

/// `new` is `old` with highlighting set up.
pub open spec fn highlight_set(old: Window, new: Window) -> bool {
    &&& rust_highlighting(new.highlighting)
    &&& new == Window { highlighting: new.highlighting, ..old }
}

/// The rows of `rows` that are there, in order.
pub open spec fn kept_rows(rows: Seq<Option<Seq<SpanView>>>) -> Seq<Seq<SpanView>>
    decreases rows.len(),
{
    if rows.len() == 0 {
        Seq::empty()
    } else {
        let p = kept_rows(rows.drop_last());
        match rows.last() {
            Some(r) => p.push(r),
            None => p,
        }
    }
}

/// `new` is `old` with the styled lines of `text` kept, when it can
/// highlight: the lines that highlight, in order.
pub open spec fn formatted_cached(old: Window, new: Window, text: Seq<char>) -> bool {
    match old.highlighting {
        Some(h) => {
            &&& rows_view(new.highlight_cache@) == kept_rows(
                highlighted(h.extension(), h.theme_name(), lines_with_endings(text)),
            )
            &&& new == Window { highlight_cache: new.highlight_cache, ..old }
        },
        None => new == old,
    }
}

/// `new` is `old` with the line-number column for `text` kept.
pub open spec fn line_numbers_cached(old: Window, new: Window, text: Seq<char>) -> bool {
    &&& new.line_num_cache@.len() == 1
    &&& is_line_number_row(new.line_num_cache@[0]@, line_count(text))
    &&& new == Window { line_num_cache: new.line_num_cache, ..old }
}

/// `new` is `old` with the styled lines and the line numbers of `text` kept.
pub open spec fn content_cached(old: Window, new: Window, text: Seq<char>) -> bool {
    &&& new.line_num_cache@.len() == 1
    &&& is_line_number_row(new.line_num_cache@[0]@, line_count(text))
    &&& formatted_cached(old, Window { line_num_cache: old.line_num_cache, ..new }, text)
}

/// Line `index` of `text` exists and has at least one character.
pub open spec fn line_has_chars(text: Seq<char>, index: nat) -> bool {
    index < line_count(text) && crate::rope::line_start(text, index) < crate::rope::line_start(
        text,
        index + 1,
    )
}

/// The first piece that `LinesWithEndings` makes of line `index` of `text`.
pub open spec fn first_piece(text: Seq<char>, index: nat) -> Seq<char> {
    lines_with_endings(
        text.subrange(
            crate::rope::line_start(text, index) as int,
            crate::rope::line_start(text, index + 1) as int,
        ),
    )[0]
}

/// Characters that are there make at least one line.
proof fn lemma_lines_with_endings_nonempty(s: Seq<char>)
    ensures
        s.len() > 0 ==> lines_with_endings(s).len() > 0,
{
}

/// `new` is `old` with the styled row of line `index` of `text` put in at
/// `index`, where highlighting is set up, the line has characters and it
/// highlights; otherwise `new` is `old`.
pub open spec fn new_line_cached(old: Window, new: Window, text: Seq<char>, index: nat) -> bool {
    match old.highlighting {
        Some(h) => if line_has_chars(text, index) {
            match highlighted(h.extension(), h.theme_name(), seq![first_piece(text, index)])[0] {
                Some(row) => {
                    &&& rows_view(new.highlight_cache@) == rows_view(old.highlight_cache@).insert(index as int, row)
                    &&& new == Window { highlight_cache: new.highlight_cache, ..old }
                },
                None => new == old,
            }
        } else {
            new == old
        },
        None => new == old,
    }
}

} // verus!
