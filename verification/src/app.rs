//! The editor state: buffers, windows, the current mode, and how each
//! token changes them.
use crate::buffer::{
    law_moves_keep_contents, next_word_spec, opened, same_contents, Buffer, BufferView,
};
use crate::layout::{extent, reaches_far_edge, tui_division, Direction, Rect};
use crate::layout_tree::{
    layout_nodes, layout_root, nodes_after_insert, nodes_after_lift, pre_order, reparented,
    tree_get, tree_insert, tree_new, tree_pre_order_ids, tree_remove_lifting, tree_root,
    LayoutData, LayoutNode,
};
use crate::rope::rope_text;
use crate::text::{chars_of, string_from_chars};
use crate::token::command_token::{command_token_spec, opt_string_view, CommandTokenView};
use crate::token::{
    get_token_from_chars, AppendToken, AppendTokenView, CommandToken, DisplayToken, InsertToken,
    InsertTokenView, NormalToken, Token, WindowChange,
};
use crate::ui::{half_and_half, window_area, Ui};
use crate::window::{
    content_cached, fresh_for, highlight_set, line_numbers_cached, new_line_cached, Window,
};
use id_tree::{NodeId, Tree};
use ropey::Rope;
use vstd::prelude::*;

verus! {

/// The editing mode, which decides how keystrokes are read.
#[derive(Eq, PartialEq, Debug, Clone, Copy, Structural)]
pub enum Mode {
    Insert,
    Append,
    Visual,
    Normal,
    Command,
}

impl Default for Mode {
    fn default() -> (m: Self)
        ensures
            m == Mode::Normal,
    {
        Mode::Normal
    }
}

/// What the editor asks of its surroundings after a token: draw the screen,
/// save the current buffer, open a file in a new split, or fetch the
/// clipboard's text for pasting.
#[derive(Clone, Debug, PartialEq, Eq)]
pub enum Effect {
    Render,
    Save,
    OpenSplit(Option<String>, Direction),
    PasteClipboard,
}

/// An effect with its file name as a character sequence.
pub ghost enum EffectView {
    Render,
    Save,
    OpenSplit(Option<Seq<char>>, Direction),
    PasteClipboard,
}

impl View for Effect {
    type V = EffectView;

    open spec fn view(&self) -> EffectView {
        match self {
            Effect::Render => EffectView::Render,
            Effect::Save => EffectView::Save,
            Effect::OpenSplit(f, d) => EffectView::OpenSplit(opt_string_view(*f), *d),
            Effect::PasteClipboard => EffectView::PasteClipboard,
        }
    }
}

pub open spec fn effect_views(es: Seq<Effect>) -> Seq<EffectView> {
    es.map_values(|e: Effect| e@)
}

/// A layout node that was asked for is not in the layout.
#[derive(Clone, Copy, Debug, PartialEq, Eq, Structural)]
pub enum LayoutError {
    NodeIdNotFound,
}

/// The editor: its buffers and the windows that show them, the layout of
/// the windows on the screen, which window and buffer are current, the
/// mode and the command line.
pub struct App {
    pub command_text: Option<String>,
    pub buffers: Vec<Buffer>,
    pub ui: Ui,
    pub windows: Vec<Window>,
    pub window_layout: Tree<LayoutData>,
    pub current_window_id: u128,
    pub current_buffer_id: u128,
    pub should_quit: bool,
    pub mode: Mode,
    pub current_file: Option<String>,
}

/// `i` is the first position of a buffer with id `id`.
pub open spec fn is_first_buffer(bs: Seq<Buffer>, id: u128, i: int) -> bool {
    &&& 0 <= i < bs.len()
    &&& bs[i].id == id
    &&& forall|k: int| 0 <= k < i ==> bs[k].id != id
}

/// The first position of a buffer with id `id`, if there is one.
pub open spec fn first_buffer(bs: Seq<Buffer>, id: u128) -> Option<int> {
    if exists|i: int| is_first_buffer(bs, id, i) {
        Some(choose|i: int| is_first_buffer(bs, id, i))
    } else {
        None
    }
}

/// `i` is the first position of a window with id `id`.
pub open spec fn is_first_window(ws: Seq<Window>, id: u128, i: int) -> bool {
    &&& 0 <= i < ws.len()
    &&& ws[i].id == id
    &&& forall|k: int| 0 <= k < i ==> ws[k].id != id
}

/// The first position of a window with id `id`, if there is one.
pub open spec fn first_window(ws: Seq<Window>, id: u128) -> Option<int> {
    if exists|i: int| is_first_window(ws, id, i) {
        Some(choose|i: int| is_first_window(ws, id, i))
    } else {
        None
    }
}

/// `i` is the first position of a window numbered `order`.
pub open spec fn is_first_ordered(ws: Seq<Window>, order: usize, i: int) -> bool {
    &&& 0 <= i < ws.len()
    &&& ws[i].order == order
    &&& forall|k: int| 0 <= k < i ==> ws[k].order != order
}

/// The first position of a window numbered `order`, if there is one.
pub open spec fn first_ordered(ws: Seq<Window>, order: usize) -> Option<int> {
    if exists|i: int| is_first_ordered(ws, order, i) {
        Some(choose|i: int| is_first_ordered(ws, order, i))
    } else {
        None
    }
}

/// What a window takes over from buffer `b`.
pub open spec fn change_of(b: Buffer) -> WindowChange {
    WindowChange {
        id: b.id,
        x_pos: b.x_pos,
        y_pos: b.y_pos,
        title: Some(b.title),
        page_size: b.page_size,
        current_page: b.current_page,
        area: None,
        mode: Mode::Normal,
    }
}

/// Window `w` after taking over `c`.
pub open spec fn window_with(w: Window, c: WindowChange) -> Window {
    Window {
        x_pos: c.x_pos,
        y_pos: c.y_pos,
        mode: c.mode,
        title: c.title,
        page_size: c.page_size,
        current_page: c.current_page,
        y_offset: 0,
        x_offset: 4,
        ..w
    }
}

impl App {
    /// Where the current buffer is kept, if there is one.
    pub open spec fn buffer_pos(self) -> Option<int> {
        first_buffer(self.buffers@, self.current_buffer_id)
    }

    /// Where the current window is kept, if there is one.
    pub open spec fn window_pos(self) -> Option<int> {
        first_window(self.windows@, self.current_window_id)
    }

    /// The windows after the current window takes over buffer `b`.
    pub open spec fn windows_following(self, b: Buffer) -> Seq<Window> {
        match self.window_pos() {
            Some(j) => self.windows@.update(j, window_with(self.windows@[j], change_of(b))),
            None => self.windows@,
        }
    }
}

/// `new` is `old` with buffer `i` seen as `v` and nothing else changed.
pub open spec fn buffer_set(old: App, new: App, i: int, v: BufferView) -> bool {
    &&& new.buffers@.len() == old.buffers@.len()
    &&& new.buffers@[i]@ == v
    &&& forall|k: int| 0 <= k < old.buffers@.len() && k != i ==> new.buffers@[k] == old.buffers@[k]
    &&& new == (App { buffers: new.buffers, ..old })
}

/// `new` is `old` with buffer `i` seen as `v` and the current window taking
/// over the changed buffer.
pub open spec fn stepped_at(old: App, new: App, i: int, v: BufferView) -> bool {
    &&& buffer_set(old, App { windows: old.windows, ..new }, i, v)
    &&& new.windows@ == old.windows_following(new.buffers@[i])
}

/// `new` is `old` with only the mode and the command line changed as given.
pub open spec fn mode_set(old: App, new: App, mode: Mode, command_text: Option<Seq<char>>) -> bool {
    &&& new.mode == mode
    &&& opt_string_view(new.command_text) == command_text
    &&& new == (App { mode: new.mode, command_text: new.command_text, ..old })
}

pub open spec fn render() -> Seq<EffectView> {
    seq![EffectView::Render]
}

/// What the current buffer needs for a normal-mode token: the cursor moves
/// and edits that the token makes must be possible. A line break above the
/// cursor is not available at all.
pub open spec fn normal_ok(t: NormalToken, v: BufferView) -> bool {
    match t {
        NormalToken::Up => v.on_up_ok(),
        NormalToken::Down => v.on_down_ok(),
        NormalToken::Left => v.on_left_ok(),
        NormalToken::Right => v.on_right_ok(),
        NormalToken::AddNewLineBelow => v.add_newline_below_ok(),
        NormalToken::AddNewLineAbove => false,
        NormalToken::Undo => v.undo_ok(),
        NormalToken::DeleteLine => v.delete_line_ok(),
        NormalToken::Visual => v.cursor_ok(),
        NormalToken::VisualLine => v.select_line_ok(),
        NormalToken::Last => v.line_len() >= 2,
        NormalToken::LastNonBlank => v.line_len() >= 2,
        NormalToken::StartWord => v.find_next_word_ok(),
        _ => true,
    }
}

/// The current buffer after a normal-mode token.
pub open spec fn normal_step(t: NormalToken, v: BufferView) -> BufferView {
    match t {
        NormalToken::Up => v.on_up_spec(),
        NormalToken::Down => v.on_down_spec(),
        NormalToken::Left => v.on_left_spec(),
        NormalToken::Right => v.on_right_spec(),
        NormalToken::AddNewLineBelow => v.add_newline_below_spec(),
        NormalToken::Undo => v.undo_spec(),
        NormalToken::Redo => v.redo_spec(),
        NormalToken::DeleteLine => v.delete_line_spec(),
        NormalToken::VisualLine => v.select_line_spec(),
        NormalToken::Last => BufferView { x_pos: (v.line_len() - 2) as u16, ..v },
        NormalToken::LastNonBlank => BufferView { x_pos: (v.line_len() - 2) as u16, ..v },
        NormalToken::First => BufferView { x_pos: 0, ..v },
        NormalToken::FirstNonBlank => BufferView { x_pos: 0, ..v },
        NormalToken::StartWord => BufferView {
            x_pos: next_word_spec(v.line_chars(), v.x_pos as int) as u16,
            ..v
        },
        _ => v,
    }
}

/// The normal-mode tokens that change only the current buffer and its window.
pub open spec fn steps_buffer(t: NormalToken) -> bool {
    match t {
        NormalToken::Up | NormalToken::Down | NormalToken::Left | NormalToken::Right
        | NormalToken::AddNewLineBelow | NormalToken::AddNewLineAbove | NormalToken::Undo
        | NormalToken::Redo | NormalToken::VisualLine | NormalToken::Last
        | NormalToken::LastNonBlank | NormalToken::First | NormalToken::FirstNonBlank
        | NormalToken::StartWord => true,
        _ => false,
    }
}

/// Visual mode, the selection starting at the current buffer's cursor.
pub open spec fn visual_set(old: App, new: App) -> bool {
    match old.buffer_pos() {
        Some(i) => {
            &&& new.buffers@ == old.buffers@.update(
                i,
                Buffer {
                    start_select_pos: Some(old.buffers@[i]@.cursor_idx() as usize),
                    ..old.buffers@[i]
                },
            )
            &&& new == (App { mode: Mode::Visual, buffers: new.buffers, ..old })
        },
        None => new == (App { mode: Mode::Visual, ..old }),
    }
}

/// The window numbered `order`, if there is one, becomes current, with the
/// buffer of the same id and that buffer's title as the current file.
pub open spec fn window_chosen(old: App, new: App, order: usize) -> bool {
    match first_ordered(old.windows@, order) {
        Some(j) => {
            let id = old.windows@[j].id;
            let picked = App { current_window_id: id, current_buffer_id: id, ..old };
            new == App {
                current_file: match picked.buffer_pos() {
                    Some(i) => Some(picked.buffers@[i].title),
                    None => None,
                },
                ..picked
            }
        },
        None => new == old,
    }
}

/// The cursor's line deleted from the current buffer, the current window
/// numbering the new lines and taking over the buffer; nothing happens
/// without both a current buffer and a current window.
pub open spec fn line_deleted(old: App, new: App) -> bool {
    match (old.buffer_pos(), old.window_pos()) {
        (Some(i), Some(j)) => {
            let mid = Window { line_num_cache: new.windows@[j].line_num_cache, ..old.windows@[j] };
            &&& buffer_set(old, App { windows: old.windows, ..new }, i, old.buffers@[i]@.delete_line_spec())
            &&& line_numbers_cached(old.windows@[j], mid, new.buffers@[i]@.text)
            &&& new.windows@ == old.windows@.update(j, window_with(mid, change_of(new.buffers@[i])))
        },
        _ => new == old,
    }
}

/// What a normal-mode token needs of the editor.
pub open spec fn normal_token_ok(old: App, t: NormalToken) -> bool {
    match old.buffer_pos() {
        Some(i) => normal_ok(t, old.buffers@[i]@),
        None => true,
    }
}

/// The editor after a normal-mode token.
pub open spec fn normal_applied(old: App, new: App, t: NormalToken) -> bool {
    if steps_buffer(t) {
        match old.buffer_pos() {
            Some(i) => stepped_at(old, new, i, normal_step(t, old.buffers@[i]@)),
            None => new == old,
        }
    } else {
        match t {
            NormalToken::SwitchToCommand => mode_set(old, new, Mode::Command, Some(Seq::empty())),
            NormalToken::SwitchToInsert => new == (App { mode: Mode::Insert, ..old }),
            NormalToken::SwitchToAppend => new == (App { mode: Mode::Append, ..old }),
            NormalToken::Visual => visual_set(old, new),
            NormalToken::SetWindow(n) => window_chosen(old, new, n),
            NormalToken::DeleteLine => line_deleted(old, new),
            _ => new == old,
        }
    }
}

/// What a normal-mode token asks of the surroundings: the clipboard's text
/// for a paste, nothing for the tokens that do nothing, else a redraw.
pub open spec fn normal_effects(t: NormalToken) -> Seq<EffectView> {
    match t {
        NormalToken::Paste => seq![EffectView::PasteClipboard],
        NormalToken::WindowLeft | NormalToken::WindowRight | NormalToken::WindowUp
        | NormalToken::WindowDown | NormalToken::YankLine | NormalToken::Esc
        | NormalToken::Enter => Seq::empty(),
        _ => render(),
    }
}

/// The window can take a highlighted line at `index`: where it highlights,
/// the index is within the rows kept.
pub open spec fn can_cache_line(w: Window, index: nat) -> bool {
    w.highlighting is Some ==> index <= w.highlight_cache@.len()
}

/// Back to normal mode with an empty command line, the current buffer's
/// selection dropped.
pub open spec fn escaped(old: App, new: App) -> bool {
    &&& new.mode == Mode::Normal
    &&& opt_string_view(new.command_text) == Some(Seq::<char>::empty())
    &&& match old.buffer_pos() {
        Some(i) => {
            &&& new.buffers@ == old.buffers@.update(i, Buffer { start_select_pos: None, ..old.buffers@[i] })
            &&& new == (App {
                mode: new.mode,
                command_text: new.command_text,
                buffers: new.buffers,
                ..old
            })
        },
        None => new == (App { mode: new.mode, command_text: new.command_text, ..old }),
    }
}

/// What an insert-mode token needs of the editor.
pub open spec fn insert_token_ok(old: App, t: InsertTokenView) -> bool {
    match (old.buffer_pos(), old.window_pos()) {
        (Some(i), Some(j)) => {
            let v = old.buffers@[i]@;
            match t {
                InsertTokenView::Append(s) => v.insert_chars_ok(s),
                InsertTokenView::Remove => v.remove_char_ok(),
                InsertTokenView::Enter => {
                    &&& v.insert_return_ok()
                    &&& can_cache_line(old.windows@[j], v.insert_return_spec().y_pos as nat)
                },
                InsertTokenView::Esc => true,
            }
        },
        _ => true,
    }
}

/// A line break typed in insert mode: the buffer breaks the line, and the
/// current window highlights the new line, renumbers its lines and takes
/// over the buffer.
pub open spec fn return_inserted(old: App, new: App, i: int, j: int) -> bool {
    let nb = new.buffers@[i];
    let w1 = Window { highlight_cache: new.windows@[j].highlight_cache, ..old.windows@[j] };
    let w2 = Window { line_num_cache: new.windows@[j].line_num_cache, ..w1 };
    &&& buffer_set(old, App { windows: old.windows, ..new }, i, old.buffers@[i]@.insert_return_spec())
    &&& new_line_cached(old.windows@[j], w1, nb@.text, nb.y_pos as nat)
    &&& line_numbers_cached(w1, w2, nb@.text)
    &&& new.windows@ == old.windows@.update(j, window_with(w2, change_of(nb)))
}

/// The editor after an insert-mode token; text goes in only where there are
/// both a current buffer and a current window.
pub open spec fn insert_applied(old: App, new: App, t: InsertTokenView) -> bool {
    match t {
        InsertTokenView::Esc => escaped(old, new),
        _ => match (old.buffer_pos(), old.window_pos()) {
            (Some(i), Some(j)) => {
                let v = old.buffers@[i]@;
                match t {
                    InsertTokenView::Append(s) => stepped_at(old, new, i, v.insert_chars_spec(s)),
                    InsertTokenView::Remove => stepped_at(old, new, i, v.remove_char_spec()),
                    _ => return_inserted(old, new, i, j),
                }
            },
            _ => new == old,
        },
    }
}

/// Only a line break in insert mode asks for a redraw.
pub open spec fn insert_effects(t: InsertTokenView) -> Seq<EffectView> {
    match t {
        InsertTokenView::Enter => render(),
        _ => Seq::empty(),
    }
}

/// What an append-mode token needs of the current buffer.
pub open spec fn append_token_ok(old: App, t: AppendTokenView) -> bool {
    match old.buffer_pos() {
        Some(i) => {
            let v = old.buffers@[i]@;
            match t {
                AppendTokenView::Append(s) => v.append_chars_ok(s),
                AppendTokenView::Remove => v.remove_char_ok(),
                AppendTokenView::Enter => v.append_return_ok(),
                AppendTokenView::Esc => true,
            }
        },
        None => true,
    }
}

/// The editor after an append-mode token; the window is left as it is.
pub open spec fn append_applied(old: App, new: App, t: AppendTokenView) -> bool {
    match t {
        AppendTokenView::Esc => escaped(old, new),
        _ => match old.buffer_pos() {
            Some(i) => {
                let v = old.buffers@[i]@;
                buffer_set(old, new, i, match t {
                    AppendTokenView::Append(s) => v.append_chars_spec(s),
                    AppendTokenView::Remove => v.remove_char_spec(),
                    _ => v.append_return_spec(),
                })
            },
            None => new == old,
        },
    }
}

/// Typing and deleting in append mode ask for a redraw.
pub open spec fn append_effects(t: AppendTokenView) -> Seq<EffectView> {
    match t {
        AppendTokenView::Append(_) | AppendTokenView::Remove => render(),
        _ => Seq::empty(),
    }
}

/// `w` is the whole pre-order walk of the layout from `root`.
pub open spec fn complete_walk(nodes: Map<NodeId, LayoutNode>, root: NodeId, w: Seq<NodeId>) -> bool {
    &&& w == pre_order(nodes, seq![root], w.len())
    &&& pre_order(nodes, seq![root], w.len() + 1) == w
}

/// The first node of `walk` that shows window `wid`.
pub open spec fn first_showing(nodes: Map<NodeId, LayoutNode>, walk: Seq<NodeId>, wid: u128) -> Option<NodeId>
    decreases walk.len(),
{
    if walk.len() == 0 {
        None
    } else if nodes.dom().contains(walk[0]) && nodes[walk[0]].data.1 == wid {
        Some(walk[0])
    } else {
        first_showing(nodes, walk.drop_first(), wid)
    }
}

/// The first of `children` that shows a window other than `wid`.
pub open spec fn first_other(nodes: Map<NodeId, LayoutNode>, children: Seq<NodeId>, wid: u128) -> Option<NodeId>
    decreases children.len(),
{
    if children.len() == 0 {
        None
    } else if nodes.dom().contains(children[0]) && nodes[children[0]].data.1 != wid {
        Some(children[0])
    } else {
        first_other(nodes, children.drop_first(), wid)
    }
}

/// The parent of node `c`, with its data, where both are in the layout.
pub open spec fn parent_of(nodes: Map<NodeId, LayoutNode>, c: NodeId) -> Option<(LayoutData, NodeId)> {
    if nodes.dom().contains(c) {
        match nodes[c].parent {
            Some(p) => if nodes.dom().contains(p) {
                Some((nodes[p].data, p))
            } else {
                None
            },
            None => None,
        }
    } else {
        None
    }
}

/// The root after node `id` is taken out.
pub open spec fn root_without(root: Option<NodeId>, id: NodeId) -> Option<NodeId> {
    if root == Some(id) {
        None
    } else {
        root
    }
}

/// The walk from a root is the same whatever fuel it was given, once it has ended.
proof fn lemma_walk_stops(nodes: Map<NodeId, LayoutNode>, s: Seq<NodeId>, n: nat, m: nat)
    requires
        pre_order(nodes, s, n).len() < n,
        n <= m,
    ensures
        pre_order(nodes, s, m) == pre_order(nodes, s, n),
    decreases n,
{
    if s.len() > 0 && nodes.dom().contains(s[0]) {
        lemma_walk_stops(nodes, nodes[s[0]].children + s.drop_first(), (n - 1) as nat, (m - 1) as nat);
    }
}

/// A node found by `first_showing` is in the layout and shows the window.
proof fn lemma_first_showing(nodes: Map<NodeId, LayoutNode>, walk: Seq<NodeId>, wid: u128)
    ensures
        first_showing(nodes, walk, wid) matches Some(c) ==> nodes.dom().contains(c) && nodes[c].data.1 == wid,
    decreases walk.len(),
{
    if walk.len() > 0 {
        lemma_first_showing(nodes, walk.drop_first(), wid);
    }
}

/// A node found by `first_other` is in the layout and shows another window.
proof fn lemma_first_other(nodes: Map<NodeId, LayoutNode>, children: Seq<NodeId>, wid: u128)
    ensures
        first_other(nodes, children, wid) matches Some(s) ==> nodes.dom().contains(s) && nodes[s].data.1 != wid,
    decreases children.len(),
{
    if children.len() > 0 {
        lemma_first_other(nodes, children.drop_first(), wid);
    }
}

/// Taking a node out keeps every other node of the layout.
proof fn lemma_lift_keeps(nodes: Map<NodeId, LayoutNode>, id: NodeId, other: NodeId)
    requires
        nodes.dom().contains(other),
        other != id,
    ensures
        nodes_after_lift(nodes, id).dom().contains(other),
{
    let n = nodes[id];
    let lifted = reparented(nodes, n.children, n.parent);
    assert(lifted.dom().contains(other));
}

/// A layout has one whole pre-order walk from a root.
pub proof fn lemma_walk_unique(nodes: Map<NodeId, LayoutNode>, root: NodeId, w1: Seq<NodeId>, w2: Seq<NodeId>)
    requires
        complete_walk(nodes, root, w1),
        complete_walk(nodes, root, w2),
    ensures
        w1 == w2,
{
    let m = w1.len() + w2.len() + 1;
    lemma_walk_stops(nodes, seq![root], w1.len() + 1, m);
    lemma_walk_stops(nodes, seq![root], w2.len() + 1, m);
}

impl App {
    /// The layout node that shows the current window: the first in the
    /// pre-order walk from the root.
    pub open spec fn current_node(self) -> Option<NodeId> {
        let nodes = layout_nodes(self.window_layout);
        match layout_root(self.window_layout) {
            Some(root) => first_showing(
                nodes,
                choose|w: Seq<NodeId>| complete_walk(nodes, root, w),
                self.current_window_id,
            ),
            None => None,
        }
    }

    /// The current node, its parent and the parent's first child that shows
    /// another window, where all three are there.
    pub open spec fn closing_nodes(self) -> Option<(NodeId, NodeId, NodeId)> {
        let nodes = layout_nodes(self.window_layout);
        match self.current_node() {
            Some(c) => match parent_of(nodes, c) {
                Some((_, p)) => match first_other(nodes, nodes[p].children, self.current_window_id) {
                    Some(s) => Some((c, p, s)),
                    None => None,
                },
                None => None,
            },
            None => None,
        }
    }
}

/// Closing the current buffer: it goes; with none left the editor quits.
/// Otherwise, where the current window's layout node has a parent and a
/// sibling showing another window, both nodes leave the layout, the window
/// keyed by the closed buffer's id goes, the sibling's window becomes
/// current (as window and as buffer id) and the windows are renumbered.
/// Normal mode follows, with an empty command line.
pub open spec fn quit_applied(old: App, new: App) -> bool {
    let rest = match old.buffer_pos() {
        Some(i) => old.buffers@.remove(i),
        None => old.buffers@,
    };
    &&& new.buffers@ == rest
    &&& new.mode == Mode::Normal
    &&& opt_string_view(new.command_text) == Some(Seq::<char>::empty())
    &&& if rest.len() == 0 {
        new == (App {
            buffers: new.buffers,
            should_quit: true,
            mode: new.mode,
            command_text: new.command_text,
            ..old
        })
    } else {
        match old.closing_nodes() {
            Some((c, p, s)) => {
                let nodes = layout_nodes(old.window_layout);
                let sid = nodes[s].data.1;
                let ws = match first_window(old.windows@, old.current_buffer_id) {
                    Some(k) => old.windows@.remove(k),
                    None => old.windows@,
                };
                &&& layout_nodes(new.window_layout) == nodes_after_lift(nodes_after_lift(nodes, c), s)
                &&& layout_root(new.window_layout) == root_without(
                    root_without(layout_root(old.window_layout), c),
                    s,
                )
                &&& new.windows@.len() == ws.len()
                &&& forall|k: int|
                    0 <= k < ws.len() ==> #[trigger] new.windows@[k] == (Window { order: k as usize, ..ws[k] })
                &&& new == (App {
                    buffers: new.buffers,
                    windows: new.windows,
                    window_layout: new.window_layout,
                    current_window_id: sid,
                    current_buffer_id: sid,
                    mode: new.mode,
                    command_text: new.command_text,
                    ..old
                })
            },
            None => new == (App {
                buffers: new.buffers,
                mode: new.mode,
                command_text: new.command_text,
                ..old
            }),
        }
    }
}

/// What a command needs: deleting from the command line needs a last
/// character there, one byte long.
pub open spec fn command_direct_ok(old: App, t: CommandTokenView) -> bool {
    match t {
        CommandTokenView::Remove => match old.command_text {
            Some(s) => s@.len() > 0 && (s@.last() as u32) < 0x80,
            None => true,
        },
        _ => true,
    }
}

/// The command that the command line names when it is entered.
pub open spec fn entered_command(old: App) -> Option<CommandTokenView> {
    match old.command_text {
        Some(s) => command_token_spec(seq![':'] + s@),
        None => None,
    }
}

pub open spec fn command_ok(old: App, t: CommandTokenView) -> bool {
    match t {
        CommandTokenView::Enter => match entered_command(old) {
            Some(v) => command_direct_ok(old, v),
            None => true,
        },
        _ => command_direct_ok(old, t),
    }
}

/// The editor after a command other than entering the command line.
pub open spec fn command_applied(old: App, new: App, t: CommandTokenView) -> bool {
    match t {
        CommandTokenView::SetMode(m) => new == (App { mode: m, ..old }),
        CommandTokenView::Split(_) | CommandTokenView::VerticalSplit(_) | CommandTokenView::Esc => mode_set(
            old,
            new,
            Mode::Normal,
            Some(Seq::empty()),
        ),
        CommandTokenView::Append(s) => {
            &&& opt_string_view(new.command_text) == match opt_string_view(old.command_text) {
                Some(t) => Some(t + s),
                None => None,
            }
            &&& new == (App { command_text: new.command_text, ..old })
        },
        CommandTokenView::Remove => {
            &&& opt_string_view(new.command_text) == match opt_string_view(old.command_text) {
                Some(t) => Some(t.drop_last()),
                None => None,
            }
            &&& new == (App { command_text: new.command_text, ..old })
        },
        CommandTokenView::SetBuffer(id) => new == if first_buffer(old.buffers@, id) is Some {
            App { current_buffer_id: id, ..old }
        } else {
            old
        },
        CommandTokenView::Quit => quit_applied(old, new),
        _ => new == old,
    }
}

/// What a command other than entering asks of the surroundings: a save, a
/// split with the named file, a redraw, or nothing.
pub open spec fn command_effects(t: CommandTokenView) -> Seq<EffectView> {
    match t {
        CommandTokenView::Write => seq![EffectView::Save, EffectView::Render],
        CommandTokenView::Split(f) => seq![EffectView::OpenSplit(f, Direction::Vertical), EffectView::Render],
        CommandTokenView::VerticalSplit(f) => seq![
            EffectView::OpenSplit(f, Direction::Horizontal),
            EffectView::Render,
        ],
        CommandTokenView::Esc | CommandTokenView::Append(_) | CommandTokenView::Remove
        | CommandTokenView::SetBuffer(_) | CommandTokenView::SetMode(_)
        | CommandTokenView::Quit => render(),
        _ => Seq::empty(),
    }
}

/// The editor after a command; entering the command line carries out the
/// command that `:` and the line name.
pub open spec fn command_done(old: App, new: App, t: CommandTokenView) -> bool {
    match t {
        CommandTokenView::Enter => match entered_command(old) {
            Some(v) => command_applied(old, new, v),
            None => new == old,
        },
        _ => command_applied(old, new, t),
    }
}

pub open spec fn command_done_effects(old: App, t: CommandTokenView) -> Seq<EffectView> {
    match t {
        CommandTokenView::Enter => match entered_command(old) {
            Some(v) => command_effects(v),
            None => Seq::empty(),
        },
        _ => command_effects(t),
    }
}

/// What a new window for buffer `b`, meant for `area`, takes over.
pub open spec fn split_change(b: Buffer, area: Rect) -> WindowChange {
    WindowChange {
        id: b.id,
        x_pos: b.x_pos,
        y_pos: b.y_pos,
        title: Some(b.title),
        page_size: b.page_size,
        current_page: b.current_page,
        area: Some(area),
        mode: Mode::Normal,
    }
}

/// `w` is a window opened for buffer `b`: made for it, set up to
/// highlight, with the buffer's text kept ready for drawing.
pub open spec fn opened_window(w: Window, b: Buffer, area: Rect) -> bool {
    exists|w0: Window, w1: Window|
        #![trigger fresh_for(w0, split_change(b, area)), highlight_set(w0, w1)]
        fresh_for(w0, split_change(b, area)) && highlight_set(w0, w1) && content_cached(w1, w, b@.text)
}

/// The current window and its layout node, where both are there.
pub open spec fn split_target(old: App) -> Option<(int, NodeId)> {
    match (old.window_pos(), old.current_node()) {
        (Some(j), Some(c)) => Some((j, c)),
        _ => None,
    }
}

/// What a split of the current window needs: an area small enough for the
/// layout engine's percentages.
pub open spec fn split_room(old: App, direction: Direction) -> bool {
    match split_target(old) {
        Some((j, _)) => 50 * extent(window_area(old.ui, old.windows@[j]), direction) <= u16::MAX,
        None => true,
    }
}

/// `s` with `b` put in under its id: in place of the first buffer with that
/// id, or at the end where there is none.
pub open spec fn put_buffer_spec(s: Seq<Buffer>, b: Buffer) -> Seq<Buffer> {
    match first_buffer(s, b.id) {
        Some(k) => s.update(k, b),
        None => s.push(b),
    }
}

/// `s` with `w` put in under its id: in place of the first window with that
/// id, or at the end where there is none.
pub open spec fn put_window_spec(s: Seq<Window>, w: Window) -> Seq<Window> {
    match first_window(s, w.id) {
        Some(k) => s.update(k, w),
        None => s.push(w),
    }
}

/// The windows after a split of window `j` into halves `s1` and another,
/// before they are renumbered: the new window `nw` put in under its id, and
/// the window with the split window's id given the first half `s1`.
pub open spec fn split_windows(old: App, j: int, s1: Rect, nw: Window) -> Seq<Window> {
    let cw = old.windows@[j];
    let ws = put_window_spec(old.windows@, nw);
    match first_window(ws, cw.id) {
        Some(k) => ws.update(
            k,
            Window {
                area: Some(s1),
                x_offset: (s1.x + 4) as u16,
                y_offset: (s1.y + 1) as u16,
                ..ws[k]
            },
        ),
        None => ws,
    }
}

/// The split of window `j`, shown by node `c`, into halves `s1` and `s2`,
/// with `nb` as the new buffer and `nw` as the new window.
pub open spec fn split_made_with(
    old: App,
    new: App,
    j: int,
    c: NodeId,
    s1: Rect,
    s2: Rect,
    nb: Buffer,
    nw: Window,
) -> bool {
    let cw = old.windows@[j];
    let ws = split_windows(old, j, s1, nw);
    let nodes = layout_nodes(old.window_layout);
    let root = layout_root(old.window_layout);
    &&& new.buffers@ == put_buffer_spec(old.buffers@, nb)
    &&& new.windows@.len() == ws.len()
    &&& forall|k: int| 0 <= k < ws.len() ==> #[trigger] new.windows@[k] == (Window { order: k as usize, ..ws[k] })
    &&& exists|i1: NodeId, i2: NodeId|
        #![trigger nodes_after_insert(nodes, root, i1, (s1, cw.id), Some(c)).dom().contains(i2)]
        {
            let first = nodes_after_insert(nodes, root, i1, (s1, cw.id), Some(c));
            &&& !nodes.dom().contains(i1)
            &&& !first.dom().contains(i2)
            &&& layout_nodes(new.window_layout) == nodes_after_insert(first, root, i2, (s2, nw.id), Some(c))
        }
    &&& layout_root(new.window_layout) == root
    &&& opt_string_view(new.current_file) == nb@.file_path
    &&& new == (App {
        buffers: new.buffers,
        windows: new.windows,
        window_layout: new.window_layout,
        current_file: new.current_file,
        current_buffer_id: nb.id,
        current_window_id: nw.id,
        ..old
    })
}

/// The current window `j`, shown by node `c`, split into the halves `s1`
/// and `s2`: a new buffer for the file goes in under its id, and a new
/// window for it, meant for `s2`, goes in under its own; the window with the
/// split window's id keeps `s1`; both halves go into the layout under `c`;
/// the windows are renumbered, and the new buffer and window become current.
pub open spec fn split_made(
    old: App,
    new: App,
    j: int,
    c: NodeId,
    s1: Rect,
    s2: Rect,
    file_name: Option<Seq<char>>,
    text: Seq<char>,
) -> bool {
    exists|nb: Buffer, nw: Window|
        #![trigger split_made_with(old, new, j, c, s1, s2, nb, nw)]
        {
            &&& opened(nb@, file_name, text)
            &&& opened_window(nw, nb, s2)
            &&& split_made_with(old, new, j, c, s1, s2, nb, nw)
        }
}

/// A split of the current window `j`, shown by node `c`, along
/// `direction`, where the layout engine gave the halves `s1` and `s2`: they
/// are one of its divisions of the window's area into two halves of fifty
/// percent, the second reaching the area's far edge; the split is made
/// exactly when the window's offsets in `s1` fit in `u16`, and otherwise
/// nothing changes.
pub open spec fn split_outcome(
    old: App,
    new: App,
    j: int,
    c: NodeId,
    direction: Direction,
    s1: Rect,
    s2: Rect,
    file_name: Option<Seq<char>>,
    text: Seq<char>,
    done: bool,
) -> bool {
    let area = window_area(old.ui, old.windows@[j]);
    &&& tui_division(area, direction, half_and_half(), seq![s1, s2])
    &&& reaches_far_edge(s2, area, direction)
    &&& done == (s1.x + 4 <= u16::MAX && s1.y + 1 <= u16::MAX)
    &&& done ==> split_made(old, new, j, c, s1, s2, file_name, text)
    &&& !done ==> new == old
}

/// What a split of the current window along `direction` did, `done` telling
/// whether it split: with a current window shown in the layout, the layout
/// engine gave some halves and the split went as `split_outcome` says;
/// without one there was nothing to split, nothing changed, and that counts
/// as done.
pub open spec fn split_result(
    old: App,
    new: App,
    direction: Direction,
    file_name: Option<Seq<char>>,
    text: Seq<char>,
    done: bool,
) -> bool {
    match split_target(old) {
        Some((j, c)) => exists|s1: Rect, s2: Rect|
            #[trigger] split_outcome(old, new, j, c, direction, s1, s2, file_name, text, done),
        None => done && new == old,
    }
}

/// A split that went as `split_outcome` says for the current window and
/// node did what `split_result` says.
proof fn lemma_split_result(
    old: App,
    new: App,
    j: int,
    c: NodeId,
    direction: Direction,
    s1: Rect,
    s2: Rect,
    file_name: Option<Seq<char>>,
    text: Seq<char>,
    done: bool,
)
    requires
        split_target(old) == Some((j, c)),
        split_outcome(old, new, j, c, direction, s1, s2, file_name, text, done),
    ensures
        split_result(old, new, direction, file_name, text, done),
{
    let (j1, c1) = split_target(old).unwrap();
    assert(j1 == j && c1 == c);
    assert(split_outcome(old, new, j1, c1, direction, s1, s2, file_name, text, done));
}

/// The text that the caller read for a file, none where it read nothing.
pub open spec fn loaded_text(loaded: Option<Rope>) -> Seq<char> {
    match loaded {
        Some(r) => rope_text(r),
        None => Seq::<char>::empty(),
    }
}

/// What a display token asks of the surroundings: a redraw for drawing the
/// view port, else nothing.
pub open spec fn display_effects(t: DisplayToken) -> Seq<EffectView> {
    match t {
        DisplayToken::DrawViewPort => render(),
        _ => Seq::empty(),
    }
}

/// What a token needs of the editor.
pub open spec fn token_ok(old: App, t: Token) -> bool {
    match t {
        Token::Normal(n) => normal_token_ok(old, n),
        Token::Insert(i) => insert_token_ok(old, i@),
        Token::Append(a) => append_token_ok(old, a@),
        Token::Command(c) => command_ok(old, c@),
        _ => true,
    }
}

/// The editor after a token; motions and operators change nothing.
pub open spec fn token_applied(old: App, new: App, t: Token) -> bool {
    match t {
        Token::Normal(n) => normal_applied(old, new, n),
        Token::Insert(i) => insert_applied(old, new, i@),
        Token::Append(a) => append_applied(old, new, a@),
        Token::Command(c) => command_done(old, new, c@),
        _ => new == old,
    }
}

pub open spec fn token_effects(old: App, t: Token) -> Seq<EffectView> {
    match t {
        Token::Normal(n) => normal_effects(n),
        Token::Insert(i) => insert_effects(i@),
        Token::Append(a) => append_effects(a@),
        Token::Command(c) => command_done_effects(old, c@),
        Token::Display(d) => display_effects(d),
        _ => Seq::empty(),
    }
}

fn find_buffer(bs: &Vec<Buffer>, id: u128) -> (r: Option<usize>)
    ensures
        match r {
            Some(k) => k < bs@.len() && first_buffer(bs@, id) == Some(k as int),
            None => first_buffer(bs@, id) is None,
        },
{
    let mut i: usize = 0;
    while i < bs.len()
        invariant
            i <= bs@.len(),
            forall|k: int| 0 <= k < i ==> bs@[k].id != id,
        decreases bs@.len() - i,
    {
        if bs[i].id == id {
            assert(is_first_buffer(bs@, id, i as int));
            let ghost c = choose|c: int| is_first_buffer(bs@, id, c);
            assert(c == i);
            return Some(i);
        }
        i = i + 1;
    }
    assert(!exists|c: int| is_first_buffer(bs@, id, c));
    None
}

fn find_window(ws: &Vec<Window>, id: u128) -> (r: Option<usize>)
    ensures
        match r {
            Some(k) => k < ws@.len() && first_window(ws@, id) == Some(k as int),
            None => first_window(ws@, id) is None,
        },
{
    let mut i: usize = 0;
    while i < ws.len()
        invariant
            i <= ws@.len(),
            forall|k: int| 0 <= k < i ==> ws@[k].id != id,
        decreases ws@.len() - i,
    {
        if ws[i].id == id {
            assert(is_first_window(ws@, id, i as int));
            let ghost c = choose|c: int| is_first_window(ws@, id, c);
            assert(c == i);
            return Some(i);
        }
        i = i + 1;
    }
    assert(!exists|c: int| is_first_window(ws@, id, c));
    None
}

fn find_ordered(ws: &Vec<Window>, order: usize) -> (r: Option<usize>)
    ensures
        match r {
            Some(k) => k < ws@.len() && first_ordered(ws@, order) == Some(k as int),
            None => first_ordered(ws@, order) is None,
        },
{
    let mut i: usize = 0;
    while i < ws.len()
        invariant
            i <= ws@.len(),
            forall|k: int| 0 <= k < i ==> ws@[k].order != order,
        decreases ws@.len() - i,
    {
        if ws[i].order == order {
            assert(is_first_ordered(ws@, order, i as int));
            let ghost c = choose|c: int| is_first_ordered(ws@, order, c);
            assert(c == i);
            return Some(i);
        }
        i = i + 1;
    }
    assert(!exists|c: int| is_first_ordered(ws@, order, c));
    None
}

/// Puts `b` in under its id, as a map keyed by id would.
fn put_buffer(bs: &mut Vec<Buffer>, b: Buffer)
    ensures
        final(bs)@ == put_buffer_spec(old(bs)@, b),
{
    match find_buffer(bs, b.id) {
        Some(k) => {
            bs.set(k, b);
        },
        None => {
            bs.push(b);
        },
    }
}

/// Puts `w` in under its id, as a map keyed by id would.
fn put_window(ws: &mut Vec<Window>, w: Window)
    ensures
        final(ws)@ == put_window_spec(old(ws)@, w),
{
    match find_window(ws, w.id) {
        Some(k) => {
            ws.set(k, w);
        },
        None => {
            ws.push(w);
        },
    }
}

fn string_clone(s: &String) -> (c: String)
    ensures
        c == *s,
{
    s.clone()
}

/// Makes the cursor move or edit of a normal-mode token on one buffer.
fn step_buffer(b: &mut Buffer, t: &NormalToken)
    requires
        normal_ok(*t, old(b)@),
    ensures
        final(b)@ == normal_step(*t, old(b)@),
{
    match t {
        NormalToken::Up => b.on_up(),
        NormalToken::Down => b.on_down(),
        NormalToken::Left => b.on_left(),
        NormalToken::Right => b.on_right(),
        NormalToken::AddNewLineBelow => b.add_newline_below(),
        NormalToken::Undo => b.undo(),
        NormalToken::Redo => b.redo(),
        NormalToken::DeleteLine => b.delete_line(),
        NormalToken::VisualLine => b.select_line(),
        NormalToken::Last | NormalToken::LastNonBlank => {
            let len = b.current_line_len();
            b.x_pos = (len - 2) as u16;
        },
        NormalToken::First | NormalToken::FirstNonBlank => {
            b.x_pos = 0;
        },
        NormalToken::StartWord => {
            let x = b.find_next_word();
            b.x_pos = x;
        },
        _ => {},
    }
}

impl App {
    /// The current buffer, if there is one.
    pub fn get_buffer(&self) -> (r: Option<&Buffer>)
        ensures
            match self.buffer_pos() {
                Some(i) => r == Some(&self.buffers@[i]),
                None => r is None,
            },
    {
        match find_buffer(&self.buffers, self.current_buffer_id) {
            Some(i) => Some(&self.buffers[i]),
            None => None,
        }
    }

    /// The current buffer, to change in place.
    pub fn get_mut_buffer(&mut self) -> (r: Option<&mut Buffer>)
        ensures
            match old(self).buffer_pos() {
                Some(i) => {
                    &&& r is Some
                    &&& *r->0 == old(self).buffers@[i]
                    &&& final(self).buffers@ == old(self).buffers@.update(i, *final(r->0))
                    &&& *final(self) == (App { buffers: final(self).buffers, ..*old(self) })
                },
                None => r is None && *final(self) == *old(self),
            },
    {
        match find_buffer(&self.buffers, self.current_buffer_id) {
            Some(i) => Some(&mut self.buffers[i]),
            None => None,
        }
    }

    /// The current window, to change in place.
    pub fn get_mut_window(&mut self) -> (r: Option<&mut Window>)
        ensures
            match old(self).window_pos() {
                Some(j) => {
                    &&& r is Some
                    &&& *r->0 == old(self).windows@[j]
                    &&& final(self).windows@ == old(self).windows@.update(j, *final(r->0))
                    &&& *final(self) == (App { windows: final(self).windows, ..*old(self) })
                },
                None => r is None && *final(self) == *old(self),
            },
    {
        match find_window(&self.windows, self.current_window_id) {
            Some(j) => Some(&mut self.windows[j]),
            None => None,
        }
    }

    /// The current window and the current buffer, to change in place together.
    pub fn get_mut_pair(&mut self) -> (r: (Option<&mut Window>, Option<&mut Buffer>))
        ensures
            match old(self).window_pos() {
                Some(j) => {
                    &&& r.0 is Some
                    &&& *r.0->0 == old(self).windows@[j]
                    &&& final(self).windows@ == old(self).windows@.update(j, *final(r.0->0))
                },
                None => r.0 is None && final(self).windows == old(self).windows,
            },
            match old(self).buffer_pos() {
                Some(i) => {
                    &&& r.1 is Some
                    &&& *r.1->0 == old(self).buffers@[i]
                    &&& final(self).buffers@ == old(self).buffers@.update(i, *final(r.1->0))
                },
                None => r.1 is None && final(self).buffers == old(self).buffers,
            },
            *final(self) == (App { windows: final(self).windows, buffers: final(self).buffers, ..*old(self) }),
    {
        let w = find_window(&self.windows, self.current_window_id);
        let b = find_buffer(&self.buffers, self.current_buffer_id);
        let window = match w {
            Some(j) => Some(&mut self.windows[j]),
            None => None,
        };
        let buffer = match b {
            Some(i) => Some(&mut self.buffers[i]),
            None => None,
        };
        (window, buffer)
    }

    /// The current window, if there is one.
    pub fn get_window(&self) -> (r: Option<&Window>)
        ensures
            match self.window_pos() {
                Some(i) => r == Some(&self.windows@[i]),
                None => r is None,
            },
    {
        match find_window(&self.windows, self.current_window_id) {
            Some(i) => Some(&self.windows[i]),
            None => None,
        }
    }

    /// Numbers the windows in their order, from zero.
    pub fn reorder_windows(&mut self)
        ensures
            final(self).windows@.len() == old(self).windows@.len(),
            forall|i: int|
                0 <= i < old(self).windows@.len() ==> #[trigger] final(self).windows@[i] == (Window {
                    order: i as usize,
                    ..old(self).windows@[i]
                }),
            *final(self) == (App { windows: final(self).windows, ..*old(self) }),
    {
        let n = self.windows.len();
        let mut idx: usize = 0;
        while idx < n
            invariant
                n == self.windows@.len(),
                n == old(self).windows@.len(),
                idx <= n,
                forall|i: int|
                    0 <= i < idx ==> #[trigger] self.windows@[i] == (Window {
                        order: i as usize,
                        ..old(self).windows@[i]
                    }),
                forall|i: int| idx <= i < n ==> #[trigger] self.windows@[i] == old(self).windows@[i],
                *self == (App { windows: self.windows, ..*old(self) }),
            decreases n - idx,
        {
            self.windows[idx].order = idx;
            idx = idx + 1;
        }
    }

    pub fn set_command_mode(&mut self)
        ensures
            *final(self) == (App { mode: Mode::Command, ..*old(self) }),
    {
        self.mode = Mode::Command
    }

    pub fn set_insert_mode(&mut self)
        ensures
            *final(self) == (App { mode: Mode::Insert, ..*old(self) }),
    {
        self.mode = Mode::Insert
    }

    pub fn set_append_mode(&mut self)
        ensures
            *final(self) == (App { mode: Mode::Append, ..*old(self) }),
    {
        self.mode = Mode::Append
    }

    /// Normal mode, with an empty command line.
    pub fn set_normal_mode(&mut self)
        ensures
            mode_set(*old(self), *final(self), Mode::Normal, Some(Seq::empty())),
    {
        self.command_text = Some(String::new());
        self.mode = Mode::Normal
    }

    /// Visual mode, the selection starting at the current buffer's cursor.
    pub fn set_visual_mode(&mut self)
        requires
            normal_token_ok(*old(self), NormalToken::Visual),
        ensures
            visual_set(*old(self), *final(self)),
    {
        self.mode = Mode::Visual;
        match find_buffer(&self.buffers, self.current_buffer_id) {
            Some(i) => {
                let idx = self.buffers[i].get_cursor_idx();
                self.buffers[i].start_select_pos = Some(idx);
            },
            None => {},
        }
    }

    /// The current window takes over the cursor of buffer `i`.
    fn follow_buffer(&mut self, i: usize)
        requires
            i < old(self).buffers@.len(),
        ensures
            final(self).windows@ == old(self).windows_following(old(self).buffers@[i as int]),
            *final(self) == (App { windows: final(self).windows, ..*old(self) }),
    {
        let change = self.change_for(i);
        match find_window(&self.windows, self.current_window_id) {
            Some(j) => {
                self.windows[j].update(change);
            },
            None => {},
        }
    }

    /// What a window takes over from buffer `i`.
    fn change_for(&self, i: usize) -> (c: WindowChange)
        requires
            i < self.buffers@.len(),
        ensures
            c == change_of(self.buffers@[i as int]),
    {
        let b = &self.buffers[i];
        WindowChange {
            id: b.id,
            x_pos: b.x_pos,
            y_pos: b.y_pos,
            title: Some(string_clone(&b.title)),
            page_size: b.page_size,
            current_page: b.current_page,
            area: None,
            mode: Mode::Normal,
        }
    }

    /// The window numbered `order`, if there is one, becomes current.
    fn set_window(&mut self, order: usize)
        ensures
            window_chosen(*old(self), *final(self), order),
    {
        match find_ordered(&self.windows, order) {
            Some(j) => {
                let id = self.windows[j].id;
                self.current_window_id = id;
                self.current_buffer_id = id;
                self.current_file = match self.get_buffer() {
                    Some(b) => Some(string_clone(&b.title)),
                    None => None,
                };
            },
            None => {},
        }
    }

    /// Deletes the cursor's line of the current buffer and renumbers the
    /// current window's lines.
    fn delete_current_line(&mut self)
        requires
            normal_token_ok(*old(self), NormalToken::DeleteLine),
        ensures
            line_deleted(*old(self), *final(self)),
    {
        match (find_buffer(&self.buffers, self.current_buffer_id), find_window(&self.windows, self.current_window_id)) {
            (Some(i), Some(j)) => {
                self.buffers[i].delete_line();
                self.windows[j].cache_line_numbers(&self.buffers[i].text);
                let ghost mid = self.windows@[j as int];
                let change = self.change_for(i);
                self.windows[j].update(change);
                proof {
                    assert(mid == Window { line_num_cache: self.windows@[j as int].line_num_cache, ..old(self).windows@[j as int] });
                    assert(self.windows@ =~= old(self).windows@.update(j as int, window_with(mid, change_of(self.buffers@[i as int]))));
                }
            },
            _ => {},
        }
    }

    /// Carries out a normal-mode token: cursor moves, edits, mode changes
    /// and the choice of a window.
    pub fn handle_normal_token(&mut self, token: NormalToken) -> (effects: Vec<Effect>)
        requires
            normal_token_ok(*old(self), token),
        ensures
            normal_applied(*old(self), *final(self), token),
            effect_views(effects@) == normal_effects(token),
    {
        match token {
            NormalToken::SwitchToCommand => {
                self.command_text = Some(String::new());
                self.set_command_mode();
            },
            NormalToken::SwitchToInsert => self.set_insert_mode(),
            NormalToken::SwitchToAppend => self.set_append_mode(),
            NormalToken::Visual => self.set_visual_mode(),
            NormalToken::SetWindow(order) => self.set_window(order),
            NormalToken::DeleteLine => self.delete_current_line(),
            NormalToken::Paste => {
                let effects = vec![Effect::PasteClipboard];
                assert(effect_views(effects@) =~= normal_effects(token));
                return effects;
            },
            NormalToken::WindowLeft | NormalToken::WindowRight | NormalToken::WindowUp
            | NormalToken::WindowDown | NormalToken::YankLine | NormalToken::Esc
            | NormalToken::Enter => {
                let effects: Vec<Effect> = Vec::new();
                assert(effect_views(effects@) =~= normal_effects(token));
                return effects;
            },
            _ => {
                match find_buffer(&self.buffers, self.current_buffer_id) {
                    Some(i) => {
                        step_buffer(&mut self.buffers[i], &token);
                        self.follow_buffer(i);
                    },
                    None => {},
                }
            },
        }
        let effects = vec![Effect::Render];
        assert(effect_views(effects@) =~= normal_effects(token));
        effects
    }

    /// Puts the clipboard's text in at the current buffer's cursor.
    pub fn paste_clipboard_text(&mut self, text: &str) -> (effects: Vec<Effect>)
        requires
            match old(self).buffer_pos() {
                Some(i) => old(self).buffers@[i]@.cursor_ok(),
                None => true,
            },
        ensures
            match old(self).buffer_pos() {
                Some(i) => stepped_at(*old(self), *final(self), i, old(self).buffers@[i]@.paste_text_spec(text@)),
                None => *final(self) == *old(self),
            },
            effect_views(effects@) == render(),
    {
        match find_buffer(&self.buffers, self.current_buffer_id) {
            Some(i) => {
                self.buffers[i].paste_text(text);
                self.follow_buffer(i);
            },
            None => {},
        }
        let effects = vec![Effect::Render];
        assert(effect_views(effects@) =~= render());
        effects
    }

    /// Drops the current buffer's selection.
    fn clear_selection(&mut self)
        ensures
            match old(self).buffer_pos() {
                Some(i) => {
                    &&& final(self).buffers@ == old(self).buffers@.update(i, Buffer { start_select_pos: None, ..old(self).buffers@[i] })
                    &&& *final(self) == (App { buffers: final(self).buffers, ..*old(self) })
                },
                None => *final(self) == *old(self),
            },
    {
        match find_buffer(&self.buffers, self.current_buffer_id) {
            Some(i) => {
                self.buffers[i].start_select_pos = None;
            },
            None => {},
        }
    }

    /// Breaks the line at the cursor of buffer `i` and brings window `j`
    /// up to date with it.
    fn insert_return_at(&mut self, i: usize, j: usize)
        requires
            old(self).buffer_pos() == Some(i as int),
            old(self).window_pos() == Some(j as int),
            insert_token_ok(*old(self), InsertTokenView::Enter),
        ensures
            return_inserted(*old(self), *final(self), i as int, j as int),
    {
        self.buffers[i].insert_return();
        let y = self.buffers[i].y_pos as usize;
        self.windows[j].cache_new_line(&self.buffers[i].text, y);
        let ghost w1 = self.windows@[j as int];
        self.windows[j].cache_line_numbers(&self.buffers[i].text);
        let ghost w2 = self.windows@[j as int];
        let change = self.change_for(i);
        self.windows[j].update(change);
        proof {
            assert(w1 == Window { highlight_cache: self.windows@[j as int].highlight_cache, ..old(self).windows@[j as int] });
            assert(w2 == Window { line_num_cache: self.windows@[j as int].line_num_cache, ..w1 });
            assert(self.windows@ =~= old(self).windows@.update(j as int, window_with(w2, change_of(self.buffers@[i as int]))));
        }
    }

    /// Carries out an insert-mode token: typed text and line breaks go in at
    /// the cursor, and the current window follows.
    pub fn handle_insert_token(&mut self, token: InsertToken) -> (effects: Vec<Effect>)
        requires
            insert_token_ok(*old(self), token@),
        ensures
            insert_applied(*old(self), *final(self), token@),
            effect_views(effects@) == insert_effects(token@),
    {
        match token {
            InsertToken::Esc => {
                self.set_normal_mode();
                self.clear_selection();
            },
            _ => {
                match (find_buffer(&self.buffers, self.current_buffer_id), find_window(&self.windows, self.current_window_id)) {
                    (Some(i), Some(j)) => {
                        match &token {
                            InsertToken::Append(chars) => {
                                self.buffers[i].insert_chars(chars.as_str());
                                self.follow_buffer(i);
                            },
                            InsertToken::Remove => {
                                self.buffers[i].remove_char();
                                self.follow_buffer(i);
                            },
                            _ => self.insert_return_at(i, j),
                        }
                    },
                    _ => {},
                }
            },
        }
        let mut effects: Vec<Effect> = Vec::new();
        if let InsertToken::Enter = token {
            effects.push(Effect::Render);
        }
        assert(effect_views(effects@) =~= insert_effects(token@));
        effects
    }

    /// Carries out an append-mode token: typed text and line breaks go in
    /// after the cursor.
    pub fn handle_append_token(&mut self, token: AppendToken) -> (effects: Vec<Effect>)
        requires
            append_token_ok(*old(self), token@),
        ensures
            append_applied(*old(self), *final(self), token@),
            effect_views(effects@) == append_effects(token@),
    {
        let mut effects: Vec<Effect> = Vec::new();
        match token {
            AppendToken::Esc => {
                self.clear_selection();
                self.set_normal_mode();
            },
            _ => {
                match find_buffer(&self.buffers, self.current_buffer_id) {
                    Some(i) => {
                        match &token {
                            AppendToken::Append(chars) => self.buffers[i].append_chars(chars.as_str()),
                            AppendToken::Remove => self.buffers[i].remove_char(),
                            _ => self.buffers[i].append_return(),
                        }
                    },
                    None => {},
                }
                if let AppendToken::Enter = token {
                } else {
                    effects.push(Effect::Render);
                }
            },
        }
        assert(effect_views(effects@) =~= append_effects(token@));
        effects
    }

    /// The layout node that shows the current window, if there is one.
    pub fn get_current_node_id(&self) -> (r: Option<NodeId>)
        ensures
            r == self.current_node(),
    {
        let ghost nodes = layout_nodes(self.window_layout);
        match tree_root(&self.window_layout) {
            Some(root) => {
                let ids = tree_pre_order_ids(&self.window_layout, &root);
                proof {
                    let w = choose|w: Seq<NodeId>| complete_walk(nodes, root, w);
                    assert(complete_walk(nodes, root, ids@));
                    lemma_walk_unique(nodes, root, ids@, w);
                    assert(ids@.skip(0) =~= ids@);
                }
                let mut i: usize = 0;
                while i < ids.len()
                    invariant
                        nodes == layout_nodes(self.window_layout),
                        i <= ids@.len(),
                        self.current_node() == first_showing(nodes, ids@.skip(i as int), self.current_window_id),
                    decreases ids@.len() - i,
                {
                    proof {
                        assert(ids@.skip(i as int).drop_first() =~= ids@.skip(i + 1));
                    }
                    match tree_get(&self.window_layout, &ids[i]) {
                        Some(e) => {
                            if e.data.1 == self.current_window_id {
                                return Some(ids[i].clone());
                            }
                        },
                        None => {},
                    }
                    i = i + 1;
                }
                None
            },
            None => None,
        }
    }

    /// The parent of a layout node, with its data.
    pub fn get_parent_node(&self, current_node: NodeId) -> (r: Option<(LayoutData, NodeId)>)
        ensures
            r == parent_of(layout_nodes(self.window_layout), current_node),
    {
        match tree_get(&self.window_layout, &current_node) {
            Some(node) => match node.parent {
                Some(parent_node_id) => match tree_get(&self.window_layout, &parent_node_id) {
                    Some(parent_node) => Some((parent_node.data, parent_node_id)),
                    None => None,
                },
                None => None,
            },
            None => None,
        }
    }

    /// The first child of a node that shows another window than the current
    /// one; an error for a node that is not in the layout.
    pub fn get_sibling_node(&self, parent_node_id: NodeId) -> (r: Result<Option<NodeId>, LayoutError>)
        ensures
            layout_nodes(self.window_layout).dom().contains(parent_node_id) ==> r == Ok::<Option<NodeId>, LayoutError>(
                first_other(
                    layout_nodes(self.window_layout),
                    layout_nodes(self.window_layout)[parent_node_id].children,
                    self.current_window_id,
                ),
            ),
            !layout_nodes(self.window_layout).dom().contains(parent_node_id) ==> r == Err::<Option<NodeId>, LayoutError>(
                LayoutError::NodeIdNotFound,
            ),
    {
        let ghost nodes = layout_nodes(self.window_layout);
        match tree_get(&self.window_layout, &parent_node_id) {
            Some(parent) => {
                let children = parent.children;
                let ghost cs = children@;
                proof {
                    assert(cs.skip(0) =~= cs);
                }
                let mut i: usize = 0;
                while i < children.len()
                    invariant
                        nodes == layout_nodes(self.window_layout),
                        cs == children@,
                        nodes.dom().contains(parent_node_id),
                        cs == nodes[parent_node_id].children,
                        i <= cs.len(),
                        first_other(nodes, cs, self.current_window_id) == first_other(nodes, cs.skip(i as int), self.current_window_id),
                    decreases cs.len() - i,
                {
                    proof {
                        assert(cs.skip(i as int).drop_first() =~= cs.skip(i + 1));
                    }
                    match tree_get(&self.window_layout, &children[i]) {
                        Some(child) => {
                            if child.data.1 != self.current_window_id {
                                return Ok(Some(children[i].clone()));
                            }
                        },
                        None => {},
                    }
                    i = i + 1;
                }
                Ok(None)
            },
            None => Err(LayoutError::NodeIdNotFound),
        }
    }

    /// Closes the current buffer, and its window where the layout lets it
    /// go; with no buffer left the editor is to quit.
    fn on_quit(&mut self)
        ensures
            quit_applied(*old(self), *final(self)),
    {
        let id = self.current_buffer_id;
        match find_buffer(&self.buffers, id) {
            Some(i) => {
                self.buffers.remove(i);
            },
            None => {},
        }
        if self.buffers.len() == 0 {
            self.should_quit = true;
        } else {
            self.close_current_window(id);
        }
        self.set_normal_mode();
    }

    /// Takes the current window's node and its sibling out of the layout
    /// and makes the sibling's window current; `id` is the closed buffer's.
    fn close_current_window(&mut self, id: u128)
        requires
            id == old(self).current_buffer_id,
        ensures
            match old(self).closing_nodes() {
                Some((c, p, s)) => {
                    let nodes = layout_nodes(old(self).window_layout);
                    let sid = nodes[s].data.1;
                    let ws = match first_window(old(self).windows@, id) {
                        Some(k) => old(self).windows@.remove(k),
                        None => old(self).windows@,
                    };
                    &&& layout_nodes(final(self).window_layout) == nodes_after_lift(nodes_after_lift(nodes, c), s)
                    &&& layout_root(final(self).window_layout) == root_without(
                        root_without(layout_root(old(self).window_layout), c),
                        s,
                    )
                    &&& final(self).windows@.len() == ws.len()
                    &&& forall|k: int|
                        0 <= k < ws.len() ==> #[trigger] final(self).windows@[k] == (Window { order: k as usize, ..ws[k] })
                    &&& *final(self) == (App {
                        windows: final(self).windows,
                        window_layout: final(self).window_layout,
                        current_window_id: sid,
                        current_buffer_id: sid,
                        ..*old(self)
                    })
                },
                None => *final(self) == *old(self),
            },
    {
        let ghost nodes = layout_nodes(self.window_layout);
        proof {
            match layout_root(self.window_layout) {
                Some(root) => lemma_first_showing(
                    nodes,
                    choose|w: Seq<NodeId>| complete_walk(nodes, root, w),
                    self.current_window_id,
                ),
                None => {},
            }
            if let Some(c) = self.current_node() {
                if let Some((_, p)) = parent_of(nodes, c) {
                    lemma_first_other(nodes, nodes[p].children, self.current_window_id);
                }
            }
        }
        if let Some(current_node) = self.get_current_node_id() {
            if let Some((_, parent_node_id)) = self.get_parent_node(current_node.clone()) {
                if let Ok(Some(sibling_node_id)) = self.get_sibling_node(parent_node_id.clone()) {
                    if let Some(sibling) = tree_get(&self.window_layout, &sibling_node_id) {
                        let sibling_window_id = sibling.data.1;
                        let _ = tree_remove_lifting(&mut self.window_layout, current_node.clone());
                        proof {
                            lemma_lift_keeps(nodes, current_node, sibling_node_id);
                        }
                        let _ = tree_remove_lifting(&mut self.window_layout, sibling_node_id.clone());
                        match find_window(&self.windows, id) {
                            Some(k) => {
                                self.windows.remove(k);
                            },
                            None => {},
                        }
                        self.current_window_id = sibling_window_id;
                        self.current_buffer_id = sibling_window_id;
                        self.reorder_windows();
                    }
                }
            }
        }
    }

    /// Carries out a command other than entering the command line.
    fn run_command(&mut self, token: CommandToken) -> (effects: Vec<Effect>)
        requires
            command_direct_ok(*old(self), token@),
            token@ != CommandTokenView::Enter,
        ensures
            command_applied(*old(self), *final(self), token@),
            effect_views(effects@) == command_effects(token@),
    {
        let mut effects: Vec<Effect> = Vec::new();
        match token {
            CommandToken::Write => {
                effects.push(Effect::Save);
                effects.push(Effect::Render);
            },
            CommandToken::Split(file_name) => {
                self.set_normal_mode();
                effects.push(Effect::OpenSplit(file_name, Direction::Vertical));
                effects.push(Effect::Render);
            },
            CommandToken::VerticalSplit(file_name) => {
                self.set_normal_mode();
                effects.push(Effect::OpenSplit(file_name, Direction::Horizontal));
                effects.push(Effect::Render);
            },
            CommandToken::Esc => {
                self.set_normal_mode();
                effects.push(Effect::Render);
            },
            CommandToken::Append(chars) => {
                let next = match &self.command_text {
                    Some(t) => Some(t.clone().concat(chars.as_str())),
                    None => None,
                };
                self.command_text = next;
                effects.push(Effect::Render);
            },
            CommandToken::Remove => {
                let next = match &self.command_text {
                    Some(t) => {
                        let mut cs = chars_of(t.as_str());
                        cs.pop();
                        Some(string_from_chars(cs.as_slice(), 0))
                    },
                    None => None,
                };
                proof {
                    if next is Some {
                        assert(next.unwrap()@ =~= self.command_text.unwrap()@.drop_last());
                    }
                }
                self.command_text = next;
                effects.push(Effect::Render);
            },
            CommandToken::Quit => {
                self.on_quit();
                effects.push(Effect::Render);
            },
            CommandToken::SetBuffer(id) => {
                if find_buffer(&self.buffers, id).is_some() {
                    self.current_buffer_id = id;
                }
                effects.push(Effect::Render);
            },
            CommandToken::SetMode(mode) => {
                self.mode = mode;
                effects.push(Effect::Render);
            },
            _ => {},
        }
        assert(effect_views(effects@) =~= command_effects(token@));
        effects
    }

    /// Carries out a command-mode token; entering the command line carries
    /// out the command that `:` and the line name.
    pub fn handle_command_token(&mut self, token: CommandToken) -> (effects: Vec<Effect>)
        requires
            command_ok(*old(self), token@),
        ensures
            command_done(*old(self), *final(self), token@),
            effect_views(effects@) == command_done_effects(*old(self), token@),
    {
        match token {
            CommandToken::Enter => {
                let line = match &self.command_text {
                    Some(text) => {
                        let mut line: Vec<char> = Vec::new();
                        line.push(':');
                        let mut cs = chars_of(text.as_str());
                        line.append(&mut cs);
                        proof {
                            assert(line@ =~= seq![':'] + text@);
                        }
                        Some(line)
                    },
                    None => None,
                };
                if let Some(line) = line {
                    if let Ok(Token::Command(command)) = get_token_from_chars(&Mode::Command, &line) {
                        return self.run_command(command);
                    }
                }
                let effects: Vec<Effect> = Vec::new();
                assert(effect_views(effects@) =~= Seq::<EffectView>::empty());
                effects
            },
            _ => self.run_command(token),
        }
    }

    /// Splits the current window into the halves `split1` and `split2`: it
    /// keeps `split1`, and a new window for the file `file_name`, whose text
    /// the caller read as `loaded`, takes `split2`. Tells whether the
    /// window's offsets in `split1` fit in `u16`; where they do not, nothing
    /// changes. Without a current window shown in the layout nothing happens
    /// either.
    pub fn new_split_into(
        &mut self,
        split1: Rect,
        split2: Rect,
        file_name: Option<String>,
        loaded: Option<Rope>,
    ) -> (done: bool)
        ensures
            done == (split1.x + 4 <= u16::MAX && split1.y + 1 <= u16::MAX),
            match split_target(*old(self)) {
                Some((j, c)) => {
                    &&& done ==> split_made(
                        *old(self),
                        *final(self),
                        j,
                        c,
                        split1,
                        split2,
                        opt_string_view(file_name),
                        loaded_text(loaded),
                    )
                    &&& !done ==> *final(self) == *old(self)
                },
                None => *final(self) == *old(self),
            },
    {
        if split1.x > u16::MAX - 4 || split1.y >= u16::MAX {
            return false;
        }
        let ghost nodes = layout_nodes(self.window_layout);
        let ghost root = layout_root(self.window_layout);
        proof {
            match root {
                Some(r) => lemma_first_showing(
                    nodes,
                    choose|w: Seq<NodeId>| complete_walk(nodes, r, w),
                    self.current_window_id,
                ),
                None => {},
            }
        }
        match (find_window(&self.windows, self.current_window_id), self.get_current_node_id()) {
            (Some(j), Some(current_node_id)) => {
                let current_id = self.windows[j].id;
                let buffer = Buffer::new(file_name, loaded);
                let mut window = Window::new(
                    &WindowChange {
                        id: buffer.id,
                        area: Some(split2),
                        x_pos: buffer.x_pos,
                        y_pos: buffer.y_pos,
                        title: Some(string_clone(&buffer.title)),
                        page_size: buffer.page_size,
                        current_page: buffer.current_page,
                        mode: Mode::Normal,
                    },
                );
                let ghost w0 = window;
                let r1 = tree_insert(&mut self.window_layout, (split1, current_id), Some(&current_node_id));
                let ghost first = layout_nodes(self.window_layout);
                let r2 = tree_insert(&mut self.window_layout, (split2, window.id), Some(&current_node_id));
                let ghost i1 = r1.unwrap();
                let ghost i2 = r2.unwrap();
                let new_buffer_id = buffer.id;
                let new_window_id = window.id;
                window.set_highlight();
                let ghost w1 = window;
                window.cache_window_content(&buffer.text);
                self.current_file = clone_opt_string(&buffer.file_path);
                let ghost gb = buffer;
                let ghost gw = window;
                put_buffer(&mut self.buffers, buffer);
                put_window(&mut self.windows, window);
                match find_window(&self.windows, current_id) {
                    Some(k) => {
                        self.windows[k].area = Some(split1);
                        self.windows[k].x_offset = split1.x + 4;
                        self.windows[k].y_offset = split1.y + 1;
                    },
                    None => {},
                }
                proof {
                    assert(self.windows@ == split_windows(*old(self), j as int, split1, gw));
                }
                self.current_buffer_id = new_buffer_id;
                self.current_window_id = new_window_id;
                self.reorder_windows();
                proof {
                    assert(fresh_for(w0, split_change(gb, split2)));
                    assert(highlight_set(w0, w1));
                    assert(opened_window(gw, gb, split2));
                    assert(first == nodes_after_insert(nodes, root, i1, (split1, current_id), Some(current_node_id)));
                    assert(!first.dom().contains(i2));
                    assert(split_made_with(*old(self), *self, j as int, current_node_id, split1, split2, gb, gw));
                }
            },
            _ => {},
        }
        true
    }

    /// Splits the current window along `direction` into the two halves that
    /// the layout engine picks: it keeps the first, and a new window for the
    /// file `file_name`, whose text the caller read as `loaded`, takes the
    /// second. Tells whether it split, which it does exactly when the
    /// window's offsets in the first half fit in `u16`. Without a current
    /// window shown in the layout there is nothing to split, and that counts
    /// as done.
    pub fn new_split(&mut self, file_name: Option<String>, loaded: Option<Rope>, direction: Direction) -> (done: bool)
        requires
            split_room(*old(self), direction),
        ensures
            split_result(*old(self), *final(self), direction, opt_string_view(file_name), loaded_text(loaded), done),
    {
        let ghost before = *self;
        let ghost file_view = opt_string_view(file_name);
        let ghost text = loaded_text(loaded);
        match (find_window(&self.windows, self.current_window_id), self.get_current_node_id()) {
            (Some(j), Some(c)) => {
                assert(split_target(before) == Some((j as int, c)));
                let parts = self.ui.split_ui(&self.windows[j], direction);
                let split1 = parts[0];
                let split2 = parts[1];
                assert(parts@ =~= seq![split1, split2]);
                let done = self.new_split_into(split1, split2, file_name, loaded);
                assert(split_outcome(before, *self, j as int, c, direction, split1, split2, file_view, text, done));
                proof {
                    lemma_split_result(before, *self, j as int, c, direction, split1, split2, file_view, text, done);
                }
                done
            },
            _ => {
                assert(split_target(before) is None);
                true
            },
        }
    }

    /// Splits the current window as `new_split` does where its area leaves
    /// room for the layout engine's percentages; tells whether it split.
    /// Where the area leaves no room, nothing changes.
    pub fn try_new_split(&mut self, file_name: Option<String>, loaded: Option<Rope>, direction: Direction) -> (done: bool)
        ensures
            !split_room(*old(self), direction) ==> !done && *final(self) == *old(self),
            split_room(*old(self), direction) ==> split_result(*old(self), *final(self), direction, opt_string_view(file_name), loaded_text(loaded), done),
    {
        let room = match (find_window(&self.windows, self.current_window_id), self.get_current_node_id()) {
            (Some(j), Some(_)) => {
                let area = match self.windows[j].area {
                    Some(a) => a,
                    None => self.ui.text_area,
                };
                area_extent(area, direction) <= 1310
            },
            _ => true,
        };
        if room {
            self.new_split(file_name, loaded, direction)
        } else {
            false
        }
    }

    /// The editor for the file `file_name`, whose text the caller read as
    /// `loaded`, on a screen laid out as `ui`: one buffer, one window over
    /// the whole text area, and a layout of one node.
    pub fn new(file_name: Option<String>, loaded: Option<Rope>, ui: Ui) -> (app: App)
        ensures
            app.buffers@.len() == 1,
            opened(app.buffers@[0]@, opt_string_view(file_name), loaded_text(loaded)),
            app.windows@.len() == 1,
            opened_window(app.windows@[0], app.buffers@[0], ui.text_area),
            exists|r: NodeId|
                layout_nodes(app.window_layout) == Map::<NodeId, LayoutNode>::empty().insert(
                    r,
                    LayoutNode { data: (ui.text_area, app.windows@[0].id), parent: None, children: Seq::empty() },
                ) && layout_root(app.window_layout) == Some(r),
            app.ui == ui,
            opt_string_view(app.current_file) == opt_string_view(file_name),
            app.command_text is None,
            app.should_quit == false,
            app.mode == Mode::Normal,
            app.current_buffer_id == app.buffers@[0].id,
            app.current_window_id == app.windows@[0].id,
    {
        let current_file = clone_opt_string(&file_name);
        let mut window_layout = tree_new();
        let buffer = Buffer::new(file_name, loaded);
        let mut window = Window::new(
            &WindowChange {
                id: buffer.id,
                x_pos: buffer.x_pos,
                y_pos: buffer.y_pos,
                area: Some(ui.text_area),
                title: Some(string_clone(&buffer.title)),
                page_size: buffer.page_size,
                current_page: buffer.current_page,
                mode: Mode::Normal,
            },
        );
        let ghost w0 = window;
        let root_node = tree_insert(&mut window_layout, (ui.text_area, window.id), None);
        let ghost r = root_node.unwrap();
        let current_buffer_id = buffer.id;
        let current_window_id = window.id;
        window.set_highlight();
        let ghost w1 = window;
        window.cache_window_content(&buffer.text);
        let mut buffers: Vec<Buffer> = Vec::new();
        buffers.push(buffer);
        let mut windows: Vec<Window> = Vec::new();
        windows.push(window);
        proof {
            assert(fresh_for(w0, split_change(buffers@[0], ui.text_area)));
            assert(highlight_set(w0, w1));
            assert(opened_window(windows@[0], buffers@[0], ui.text_area));
            assert(layout_nodes(window_layout) =~= Map::<NodeId, LayoutNode>::empty().insert(
                r,
                LayoutNode { data: (ui.text_area, windows@[0].id), parent: None, children: Seq::empty() },
            ));
        }
        App {
            windows,
            buffers,
            ui,
            current_file,
            window_layout,
            should_quit: false,
            current_buffer_id,
            current_window_id,
            mode: Mode::Normal,
            command_text: None,
        }
    }

    /// Carries out a display token: drawing the view port asks for a redraw.
    pub fn handle_display_token(&mut self, token: DisplayToken) -> (effects: Vec<Effect>)
        ensures
            *final(self) == *old(self),
            effect_views(effects@) == display_effects(token),
    {
        let mut effects: Vec<Effect> = Vec::new();
        if let DisplayToken::DrawViewPort = token {
            effects.push(Effect::Render);
        }
        assert(effect_views(effects@) =~= display_effects(token));
        effects
    }

    /// Carries out a token of any kind.
    pub fn handle_token(&mut self, token: Token) -> (effects: Vec<Effect>)
        requires
            token_ok(*old(self), token),
        ensures
            token_applied(*old(self), *final(self), token),
            effect_views(effects@) == token_effects(*old(self), token),
    {
        match token {
            Token::Command(t) => self.handle_command_token(t),
            Token::Append(t) => self.handle_append_token(t),
            Token::Normal(t) => self.handle_normal_token(t),
            Token::Insert(t) => self.handle_insert_token(t),
            Token::Display(t) => self.handle_display_token(t),
            _ => {
                let effects: Vec<Effect> = Vec::new();
                assert(effect_views(effects@) =~= Seq::<EffectView>::empty());
                effects
            },
        }
    }
}

/// The extent of `area` along `direction`, as `extent` states it.
fn area_extent(area: Rect, direction: Direction) -> (e: u16)
    ensures
        e == extent(area, direction),
{
    match direction {
        Direction::Horizontal => area.width,
        Direction::Vertical => area.height,
    }
}

fn clone_opt_string(o: &Option<String>) -> (c: Option<String>)
    ensures
        opt_string_view(c) == opt_string_view(*o),
{
    match o {
        Some(s) => Some(s.clone()),
        None => None,
    }
}

/// Whether buffer `b` can take normal-mode token `t`.
fn normal_ready(b: &Buffer, t: &NormalToken) -> (ok: bool)
    ensures
        ok == normal_ok(*t, b@),
{
    match t {
        NormalToken::Up => b.can_move_up(),
        NormalToken::Down => b.can_move_down(),
        NormalToken::Left => b.can_move_left(),
        NormalToken::Right => b.can_move_right(),
        NormalToken::AddNewLineBelow => {
            let lines = crate::rope::rope_len_lines(&b.text);
            b.y_pos as usize <= lines && b.y_pos < 65535
        },
        NormalToken::AddNewLineAbove => false,
        NormalToken::Undo => b.can_undo(),
        NormalToken::DeleteLine => b.can_delete_line(),
        NormalToken::Visual | NormalToken::VisualLine => b.cursor_ready(),
        NormalToken::Last | NormalToken::LastNonBlank => b.current_line_len() >= 2,
        NormalToken::StartWord => b.can_find_next_word(),
        _ => true,
    }
}

/// Whether buffer `b`, shown in window `w`, can take insert-mode token `t`.
fn insert_ready(b: &Buffer, w: &Window, t: &InsertToken) -> (ok: bool)
    ensures
        ok == match t@ {
            InsertTokenView::Append(s) => b@.insert_chars_ok(s),
            InsertTokenView::Remove => b@.remove_char_ok(),
            InsertTokenView::Enter => {
                &&& b@.insert_return_ok()
                &&& can_cache_line(*w, b@.insert_return_spec().y_pos as nat)
            },
            InsertTokenView::Esc => true,
        },
{
    match t {
        InsertToken::Append(chars) => b.can_insert_chars(chars.as_str()),
        InsertToken::Remove => b.can_remove_char(),
        InsertToken::Enter => {
            let (ok, y) = b.return_ready();
            ok && (w.highlighting.is_none() || y as usize <= w.highlight_cache.len())
        },
        InsertToken::Esc => true,
    }
}

/// Whether buffer `b` can take append-mode token `t`.
fn append_ready(b: &Buffer, t: &AppendToken) -> (ok: bool)
    ensures
        ok == match t@ {
            AppendTokenView::Append(s) => b@.append_chars_ok(s),
            AppendTokenView::Remove => b@.remove_char_ok(),
            AppendTokenView::Enter => b@.append_return_ok(),
            AppendTokenView::Esc => true,
        },
{
    match t {
        AppendToken::Append(chars) => b.can_append_chars(chars.as_str()),
        AppendToken::Remove => b.can_remove_char(),
        AppendToken::Enter => b.can_append_return(),
        AppendToken::Esc => true,
    }
}

impl App {
    /// Whether the editor can carry out `token`: what `handle_token` needs.
    /// A token for which this is false would overflow, read past the text,
    /// or ask for a line break above the cursor, which is not available; a
    /// caller stops there.
    pub fn can_handle(&self, token: &Token) -> (ok: bool)
        ensures
            ok == token_ok(*self, *token),
    {
        match token {
            Token::Normal(t) => match find_buffer(&self.buffers, self.current_buffer_id) {
                Some(i) => normal_ready(&self.buffers[i], t),
                None => true,
            },
            Token::Insert(t) => match (
                find_buffer(&self.buffers, self.current_buffer_id),
                find_window(&self.windows, self.current_window_id),
            ) {
                (Some(i), Some(j)) => insert_ready(&self.buffers[i], &self.windows[j], t),
                _ => true,
            },
            Token::Append(t) => match find_buffer(&self.buffers, self.current_buffer_id) {
                Some(i) => append_ready(&self.buffers[i], t),
                None => true,
            },
            Token::Command(CommandToken::Remove) => match &self.command_text {
                Some(text) => {
                    let cs = chars_of(text.as_str());
                    cs.len() > 0 && (cs[cs.len() - 1] as u32) < 0x80
                },
                None => true,
            },
            _ => true,
        }
    }

    /// Whether the clipboard's text can be put in at the cursor.
    pub fn can_paste(&self) -> (ok: bool)
        ensures
            ok == match self.buffer_pos() {
                Some(i) => self.buffers@[i]@.cursor_ok(),
                None => true,
            },
    {
        match find_buffer(&self.buffers, self.current_buffer_id) {
            Some(i) => self.buffers[i].cursor_ready(),
            None => true,
        }
    }

    /// Carries out `token` where the editor can, as `handle_token` does;
    /// `None`, with nothing changed, where it cannot.
    pub fn try_handle_token(&mut self, token: Token) -> (r: Option<Vec<Effect>>)
        ensures
            r is Some == token_ok(*old(self), token),
            r matches Some(effects) ==> {
                &&& token_applied(*old(self), *final(self), token)
                &&& effect_views(effects@) == token_effects(*old(self), token)
            },
            r is None ==> *final(self) == *old(self),
    {
        if self.can_handle(&token) {
            Some(self.handle_token(token))
        } else {
            None
        }
    }

    /// Puts the clipboard's text in at the cursor, as
    /// `paste_clipboard_text` does, where the cursor index can be computed;
    /// `None`, with nothing changed, where it cannot.
    pub fn try_paste_clipboard_text(&mut self, text: &str) -> (r: Option<Vec<Effect>>)
        ensures
            r is Some == match old(self).buffer_pos() {
                Some(i) => old(self).buffers@[i]@.cursor_ok(),
                None => true,
            },
            r matches Some(effects) ==> {
                &&& match old(self).buffer_pos() {
                    Some(i) => stepped_at(*old(self), *final(self), i, old(self).buffers@[i]@.paste_text_spec(text@)),
                    None => *final(self) == *old(self),
                }
                &&& effect_views(effects@) == render()
            },
            r is None ==> *final(self) == *old(self),
    {
        if self.can_paste() {
            Some(self.paste_clipboard_text(text))
        } else {
            None
        }
    }
}

/// Cursor motions never change the text or the undo history of the buffer.
pub proof fn law_motions_keep_text(t: NormalToken, v: BufferView)
    requires
        match t {
            NormalToken::Up | NormalToken::Down | NormalToken::Left | NormalToken::Right
            | NormalToken::First | NormalToken::FirstNonBlank | NormalToken::Last
            | NormalToken::LastNonBlank | NormalToken::StartWord | NormalToken::VisualLine => true,
            _ => false,
        },
    ensures
        same_contents(normal_step(t, v), v),
{
    law_moves_keep_contents(v, 0);
}

/// Typing a character on the command line and deleting it gives the
/// command line back, and changes nothing else.
pub proof fn law_command_append_remove(a: App, b: App, c: App, ch: char)
    requires
        command_applied(a, b, CommandTokenView::Append(seq![ch])),
        command_applied(b, c, CommandTokenView::Remove),
    ensures
        opt_string_view(c.command_text) == opt_string_view(a.command_text),
        c == (App { command_text: c.command_text, ..a }),
{
    if let Some(t) = opt_string_view(a.command_text) {
        assert((t + seq![ch]).drop_last() =~= t);
    }
}

/// Closing the only buffer ends the editor.
pub proof fn law_quit_last_buffer(old: App, new: App)
    requires
        old.buffers@.len() == 1,
        old.buffers@[0].id == old.current_buffer_id,
        quit_applied(old, new),
    ensures
        new.should_quit,
        new.buffers@.len() == 0,
{
    assert(is_first_buffer(old.buffers@, old.current_buffer_id, 0));
}

/// Escape leaves insert, append and command mode for normal mode, with an
/// empty command line.
pub proof fn law_escape_to_normal(old: App, new: App, t: Token)
    requires
        t == Token::Insert(InsertToken::Esc) || t == Token::Append(AppendToken::Esc) || t
            == Token::Command(CommandToken::Esc),
        token_applied(old, new, t),
    ensures
        new.mode == Mode::Normal,
        opt_string_view(new.command_text) == Some(Seq::<char>::empty()),
{
}

/// A line added below the cursor and then undone gives the current buffer
/// its text and history back; the added line is left to redo.
pub proof fn law_undo_after_new_line(a: App, b: App, c: App)
    requires
        a.buffer_pos() is Some,
        normal_applied(a, b, NormalToken::AddNewLineBelow),
        normal_applied(b, c, NormalToken::Undo),
    ensures
        ({
            let i = a.buffer_pos().unwrap();
            &&& c.buffers@[i]@.text == a.buffers@[i]@.text
            &&& c.buffers@[i]@.past == a.buffers@[i]@.past
            &&& c.buffers@[i]@.future == seq![b.buffers@[i]@.text]
        }),
{
    let i = a.buffer_pos().unwrap();
    let id = a.current_buffer_id;
    let v = a.buffers@[i]@;
    assert(is_first_buffer(a.buffers@, id, i));
    assert(b.current_buffer_id == id);
    assert(b.buffers@[i]@.id == id);
    assert(is_first_buffer(b.buffers@, id, i));
    let j = choose|j: int| is_first_buffer(b.buffers@, id, j);
    assert(j == i) by {
        if j < i {
            assert(b.buffers@[j] == a.buffers@[j]);
        } else if j > i {
            assert(b.buffers@[i].id == id);
        }
    }
    assert(b.buffer_pos() == Some(i));
    crate::buffer::law_undo_after_edit(v, Seq::empty());
    let edits = seq![
        v.remove_char_spec(),
        v.add_newline_below_spec(),
        v.paste_text_spec(Seq::empty()),
        v.delete_line_spec(),
        v.insert_return_spec(),
        v.insert_chars_spec(Seq::empty()),
        v.append_return_spec(),
        v.append_chars_spec(Seq::empty()),
    ];
    assert(edits[1] == v.add_newline_below_spec());
    assert(edits[1].past.len() > v.past.len());
}

/// Entering the command line does what the command it names does, and
/// asks for the same.
pub proof fn law_enter_runs_command(old: App, new: App, v: CommandTokenView)
    requires
        entered_command(old) == Some(v),
        command_done(old, new, CommandTokenView::Enter),
    ensures
        command_done(old, new, v),
        command_done_effects(old, CommandTokenView::Enter) == command_done_effects(old, v),
{
    let s = seq![':'] + old.command_text.unwrap()@;
    assert(s[0] == ':');
    assert(v != CommandTokenView::Enter);
}

/// No two buffers have the same id.
pub open spec fn buffer_ids_distinct(bs: Seq<Buffer>) -> bool {
    forall|a: int, b: int| 0 <= a < b < bs.len() ==> bs[a].id != bs[b].id
}

/// No two windows have the same id.
pub open spec fn window_ids_distinct(ws: Seq<Window>) -> bool {
    forall|a: int, b: int| 0 <= a < b < ws.len() ==> ws[a].id != ws[b].id
}

impl App {
    /// The buffers and the windows are each keyed by their ids, as maps
    /// would be: no id is there twice.
    pub open spec fn ids_distinct(self) -> bool {
        buffer_ids_distinct(self.buffers@) && window_ids_distinct(self.windows@)
    }
}

/// A buffer with id `id` at `i` means a first one with that id.
proof fn lemma_first_buffer_found(s: Seq<Buffer>, id: u128, i: int)
    requires
        0 <= i < s.len(),
        s[i].id == id,
    ensures
        first_buffer(s, id) is Some,
    decreases i,
{
    if exists|k: int| 0 <= k < i && s[k].id == id {
        let k = choose|k: int| 0 <= k < i && s[k].id == id;
        lemma_first_buffer_found(s, id, k);
    } else {
        assert(is_first_buffer(s, id, i));
    }
}

/// A window with id `id` at `i` means a first one with that id.
proof fn lemma_first_window_found(s: Seq<Window>, id: u128, i: int)
    requires
        0 <= i < s.len(),
        s[i].id == id,
    ensures
        first_window(s, id) is Some,
    decreases i,
{
    if exists|k: int| 0 <= k < i && s[k].id == id {
        let k = choose|k: int| 0 <= k < i && s[k].id == id;
        lemma_first_window_found(s, id, k);
    } else {
        assert(is_first_window(s, id, i));
    }
}

/// Putting a buffer in under its id keeps the ids distinct.
proof fn lemma_put_buffer_distinct(s: Seq<Buffer>, b: Buffer)
    requires
        buffer_ids_distinct(s),
    ensures
        buffer_ids_distinct(put_buffer_spec(s, b)),
{
    if first_buffer(s, b.id) is None {
        assert forall|k: int| 0 <= k < s.len() implies s[k].id != b.id by {
            if s[k].id == b.id {
                lemma_first_buffer_found(s, b.id, k);
            }
        }
    }
}

/// Putting a window in under its id keeps the ids distinct.
proof fn lemma_put_window_distinct(s: Seq<Window>, w: Window)
    requires
        window_ids_distinct(s),
    ensures
        window_ids_distinct(put_window_spec(s, w)),
{
    if first_window(s, w.id) is None {
        assert forall|k: int| 0 <= k < s.len() implies s[k].id != w.id by {
            if s[k].id == w.id {
                lemma_first_window_found(s, w.id, k);
            }
        }
    }
}

/// The steps that a token makes on a buffer keep its id.
proof fn lemma_steps_keep_id(v: BufferView, t: NormalToken, s: Seq<char>)
    ensures
        normal_step(t, v).id == v.id,
        v.insert_chars_spec(s).id == v.id,
        v.remove_char_spec().id == v.id,
        v.insert_return_spec().id == v.id,
        v.append_chars_spec(s).id == v.id,
        v.append_return_spec().id == v.id,
        v.paste_text_spec(s).id == v.id,
{
}

/// Carrying out a token keeps the buffers' ids and the windows' ids
/// distinct.
pub proof fn law_tokens_keep_ids_distinct(old: App, new: App, t: Token)
    requires
        old.ids_distinct(),
        token_applied(old, new, t),
    ensures
        new.ids_distinct(),
{
    match old.buffer_pos() {
        Some(i) => {
            let v = old.buffers@[i]@;
            match t {
                Token::Normal(n) => lemma_steps_keep_id(v, n, Seq::empty()),
                Token::Insert(x) => match x@ {
                    InsertTokenView::Append(s) => lemma_steps_keep_id(v, NormalToken::Esc, s),
                    _ => lemma_steps_keep_id(v, NormalToken::Esc, Seq::empty()),
                },
                Token::Append(x) => match x@ {
                    AppendTokenView::Append(s) => lemma_steps_keep_id(v, NormalToken::Esc, s),
                    _ => lemma_steps_keep_id(v, NormalToken::Esc, Seq::empty()),
                },
                _ => {},
            }
        },
        None => {},
    }
    if let Token::Command(c) = t {
        let v = match c@ {
            CommandTokenView::Enter => entered_command(old),
            x => Some(x),
        };
        if v == Some(CommandTokenView::Quit) {
            let rest = match old.buffer_pos() {
                Some(i) => old.buffers@.remove(i),
                None => old.buffers@,
            };
            assert(buffer_ids_distinct(rest));
            if rest.len() > 0 {
                if let Some((c0, p, s)) = old.closing_nodes() {
                    let ws = match first_window(old.windows@, old.current_buffer_id) {
                        Some(k) => old.windows@.remove(k),
                        None => old.windows@,
                    };
                    assert(window_ids_distinct(ws));
                    assert(forall|k: int| 0 <= k < ws.len() ==> #[trigger] new.windows@[k].id == ws[k].id);
                }
            }
        }
    }
}

/// A split keeps the buffers' ids and the windows' ids distinct.
pub proof fn law_split_keeps_ids_distinct(
    old: App,
    new: App,
    j: int,
    c: NodeId,
    s1: Rect,
    s2: Rect,
    file_name: Option<Seq<char>>,
    text: Seq<char>,
)
    requires
        old.ids_distinct(),
        split_made(old, new, j, c, s1, s2, file_name, text),
    ensures
        new.ids_distinct(),
{
    let (nb, nw) = choose|nb: Buffer, nw: Window|
        {
            &&& opened(nb@, file_name, text)
            &&& opened_window(nw, nb, s2)
            &&& split_made_with(old, new, j, c, s1, s2, nb, nw)
        };
    lemma_put_buffer_distinct(old.buffers@, nb);
    lemma_put_window_distinct(old.windows@, nw);
    let ws = split_windows(old, j, s1, nw);
    assert(window_ids_distinct(ws));
    assert(forall|k: int| 0 <= k < ws.len() ==> #[trigger] new.windows@[k].id == ws[k].id);
}

/// What each command asks of the surroundings: `:w` a save then a redraw,
/// the command-line edits, Esc, choosing a buffer or a mode, and `:q` a
/// redraw.
pub proof fn law_command_effects_table(old: App, cs: Seq<char>, b: u128, m: Mode)
    ensures
        command_done_effects(old, CommandTokenView::Write) == seq![EffectView::Save, EffectView::Render],
        command_done_effects(old, CommandTokenView::Quit) == seq![EffectView::Render],
        command_done_effects(old, CommandTokenView::Esc) == seq![EffectView::Render],
        command_done_effects(old, CommandTokenView::Append(cs)) == seq![EffectView::Render],
        command_done_effects(old, CommandTokenView::Remove) == seq![EffectView::Render],
        command_done_effects(old, CommandTokenView::SetBuffer(b)) == seq![EffectView::Render],
        command_done_effects(old, CommandTokenView::SetMode(m)) == seq![EffectView::Render],
{
}

/// `:sp` splits into an upper and a lower half, `:vs` side by side: the
/// two ask for splits along the two different directions, for the file they
/// name, then a redraw.
pub proof fn law_split_directions(old: App, f: Option<Seq<char>>)
    ensures
        command_done_effects(old, CommandTokenView::Split(f)) == seq![
            EffectView::OpenSplit(f, Direction::Vertical),
            EffectView::Render,
        ],
        command_done_effects(old, CommandTokenView::VerticalSplit(f)) == seq![
            EffectView::OpenSplit(f, Direction::Horizontal),
            EffectView::Render,
        ],
{
}

} // verus!
