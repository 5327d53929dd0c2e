//! The screen layout: the text area above a one-line footer.
use crate::app::Mode;
use crate::ids::new_id;
use crate::text::{decimal, decimal_string};
use crate::token::command_token::opt_string_view;
use crate::layout::{extent, reaches_far_edge, split_area, split_ok, tui_division, Constraint, Direction, Rect};
use crate::window::Window;
use vstd::prelude::*;

verus! {

pub struct Ui {
    pub should_quit: bool,
    pub current_window_id: u128,
    pub text_area: Rect,
    pub foot_area: Rect,
}

/// The area that a window takes: its own, or the whole text area.
pub open spec fn window_area(ui: Ui, window: Window) -> Rect {
    match window.area {
        Some(a) => a,
        None => ui.text_area,
    }
}

/// The name of a mode, as `{:?}` writes it.
pub open spec fn mode_name(mode: Mode) -> Seq<char> {
    match mode {
        Mode::Insert => "Insert"@,
        Mode::Append => "Append"@,
        Mode::Visual => "Visual"@,
        Mode::Normal => "Normal"@,
        Mode::Command => "Command"@,
    }
}

/// The cursor's column and line as the footer shows them, `0,0` without a cursor.
pub open spec fn coords_text(coords: Option<(u16, u16)>) -> Seq<char> {
    let (x, y) = match coords {
        Some(c) => c,
        None => (0u16, 0u16),
    };
    decimal(x as nat) + ","@ + decimal(y as nat)
}

/// What the screen asks of the layout engine: a text area of at least
/// twenty rows, then a footer of one.
pub open spec fn screen_constraints() -> Seq<Constraint> {
    seq![Constraint::Min(20), Constraint::Length(1)]
}

/// What a split asks of the layout engine: two halves of fifty percent each.
pub open spec fn half_and_half() -> Seq<Constraint> {
    seq![Constraint::Percentage(50), Constraint::Percentage(50)]
}

/// The constraints of a split: two halves of fifty percent each.
pub fn halves() -> (c: Vec<Constraint>)
    ensures
        c@ == half_and_half(),
{
    let mut c: Vec<Constraint> = Vec::new();
    c.push(Constraint::Percentage(50));
    c.push(Constraint::Percentage(50));
    assert(c@ =~= half_and_half());
    c
}

impl Ui {
    /// The three texts of the footer: the command line (empty without
    /// one) on the left, the mode's name in the middle, and the cursor's
    /// column and line on the right.
    pub fn footer_texts(mode: Mode, coords: Option<(u16, u16)>, command_text: &Option<String>) -> (texts: (
        String,
        String,
        String,
    ))
        ensures
            texts.0@ == match opt_string_view(*command_text) {
                Some(t) => t,
                None => Seq::<char>::empty(),
            },
            texts.1@ == mode_name(mode),
            texts.2@ == coords_text(coords),
    {
        let command = match command_text {
            Some(t) => t.clone(),
            None => String::new(),
        };
        let name = match mode {
            Mode::Insert => String::from_str("Insert"),
            Mode::Append => String::from_str("Append"),
            Mode::Visual => String::from_str("Visual"),
            Mode::Normal => String::from_str("Normal"),
            Mode::Command => String::from_str("Command"),
        };
        let (x, y) = match coords {
            Some(c) => c,
            None => (0u16, 0u16),
        };
        let mut position = decimal_string(x as usize);
        position.append(",");
        let ys = decimal_string(y as usize);
        position.append(ys.as_str());
        (command, name, position)
    }

    /// The layout of a screen of size `frame`: the text area and, below
    /// it, a footer of one line, as the layout engine divides the screen.
    /// The footer reaches the bottom of the screen; where the division
    /// falls is the layout engine's to pick.
    pub fn new(frame: Rect) -> (ui: Self)
        ensures
            ui.should_quit == false,
            tui_division(frame, Direction::Vertical, screen_constraints(), seq![ui.text_area, ui.foot_area]),
            reaches_far_edge(ui.foot_area, frame, Direction::Vertical),
    {
        let (text_area, foot_area) = Ui::create_layout(frame);
        Ui::from_areas(text_area, foot_area)
    }

    /// A screen with the given text area and footer.
    pub fn from_areas(text_area: Rect, foot_area: Rect) -> (ui: Self)
        ensures
            ui.should_quit == false,
            ui.text_area == text_area,
            ui.foot_area == foot_area,
    {
        Self { should_quit: false, current_window_id: new_id(), text_area, foot_area }
    }

    /// Asks the layout engine for the text area, at least twenty rows, and
    /// below it a footer of one row.
    fn create_layout(frame: Rect) -> (areas: (Rect, Rect))
        ensures
            tui_division(frame, Direction::Vertical, screen_constraints(), seq![areas.0, areas.1]),
            reaches_far_edge(areas.1, frame, Direction::Vertical),
    {
        let mut constraints: Vec<Constraint> = Vec::new();
        constraints.push(Constraint::Min(20));
        constraints.push(Constraint::Length(1));
        assert(constraints@ =~= screen_constraints());
        assert(split_ok(frame, Direction::Vertical, constraints@)) by {
            assert forall|i: int| 0 <= i < constraints@.len() implies !(#[trigger] constraints@[i] is Percentage) by {}
        }
        let area = split_area(frame, Direction::Vertical, &constraints);
        assert(area@ =~= seq![area[0], area[1]]);
        (area[0], area[1])
    }

    /// Divides a window's area into two halves along `direction`, as the
    /// layout engine picks them from two constraints of fifty percent each;
    /// the second reaches the far edge of the area.
    pub fn split_ui(&self, window: &Window, direction: Direction) -> (areas: Vec<Rect>)
        requires
            50 * extent(window_area(*self, *window), direction) <= u16::MAX,
        ensures
            areas@.len() == 2,
            tui_division(window_area(*self, *window), direction, half_and_half(), areas@),
            reaches_far_edge(areas@[1], window_area(*self, *window), direction),
    {
        let text_area = if let Some(area) = window.area {
            area
        } else {
            self.text_area
        };
        let constraints = halves();
        split_area(text_area, direction, &constraints)
    }
}

} // verus!
