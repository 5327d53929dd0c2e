//! Screen areas and how the terminal layout engine of `tui` divides them.
use tui::layout::{Constraint as TuiConstraint, Direction as TuiDirection, Layout, Rect as TuiRect};
use vstd::prelude::*;

verus! {

/// A rectangle of terminal cells.
#[derive(Debug, Clone, Copy, PartialEq, Eq, Default, Structural)]
pub struct Rect {
    pub x: u16,
    pub y: u16,
    pub width: u16,
    pub height: u16,
}

/// The axis along which an area is divided.
#[derive(Debug, Clone, Copy, PartialEq, Eq, Structural)]
pub enum Direction {
    Horizontal,
    Vertical,
}

/// Where a line of text stands across its area.
#[derive(Debug, Clone, Copy, PartialEq, Eq, Structural)]
pub enum Alignment {
    Left,
    Center,
    Right,
}

/// How much of an area one piece of a division asks for.
#[derive(Debug, Clone, Copy, PartialEq, Eq, Structural)]
pub enum Constraint {
    Percentage(u16),
    Length(u16),
    Min(u16),
}

/// The length of `area` along `direction`.
pub open spec fn extent(area: Rect, direction: Direction) -> u16 {
    match direction {
        Direction::Horizontal => area.width,
        Direction::Vertical => area.height,
    }
}

/// Where `area` ends along `direction`, as the layout engine reckons it:
/// its far edge, held at the largest coordinate.
pub open spec fn far_edge(area: Rect, direction: Direction) -> int {
    let end = match direction {
        Direction::Horizontal => area.x + area.width,
        Direction::Vertical => area.y + area.height,
    };
    if end <= u16::MAX { end } else { u16::MAX as int }
}

/// `piece` reaches the far edge of `area` along `direction`.
pub open spec fn reaches_far_edge(piece: Rect, area: Rect, direction: Direction) -> bool {
    match direction {
        Direction::Horizontal => piece.x + piece.width == far_edge(area, direction),
        Direction::Vertical => piece.y + piece.height == far_edge(area, direction),
    }
}

/// The layout engine computes a percentage as `percent * extent` in `u16`,
/// which panics when the product does not fit.
pub open spec fn split_ok(area: Rect, direction: Direction, constraints: Seq<Constraint>) -> bool {
    forall|i: int|
        0 <= i < constraints.len() ==> match #[trigger] constraints[i] {
            Constraint::Percentage(p) => p * extent(area, direction) <= u16::MAX,
            _ => true,
        }
}

/// `pieces` is one of the divisions of `area` along `direction` by
/// `constraints` that tui's layout engine can give. Which of them it gives
/// is left open: nothing here says the same arguments give the same pieces.
pub uninterp spec fn tui_division(area: Rect, direction: Direction, constraints: Seq<Constraint>, pieces: Seq<Rect>) -> bool;

/// Divides `area` along `direction` by `constraints`
/// (`tui::layout::Layout::default().direction(..).constraints(..).split(..)`):
/// one of the divisions it can give for these arguments, with one piece per
/// constraint, the last stretched to the far edge of `area`.
/// Where the other edges fall is left unsaid: the layout engine's
/// constraints on sizes are weak, where several layouts cost the same its
/// solver picks one by walking hash maps whose order differs from process to
/// process, and it cuts the solver's floating-point results down to whole
/// cells.
#[verifier::external_body]
pub(crate) fn split_area(area: Rect, direction: Direction, constraints: &Vec<Constraint>) -> (pieces: Vec<Rect>)
    requires
        split_ok(area, direction, constraints@),
    ensures
        tui_division(area, direction, constraints@, pieces@),
        pieces@.len() == constraints@.len(),
        constraints@.len() > 0 ==> reaches_far_edge(pieces@.last(), area, direction),
{
    let d = if let Direction::Horizontal = direction { TuiDirection::Horizontal } else { TuiDirection::Vertical };
    let cs: Vec<TuiConstraint> = constraints.iter().map(|c| match *c {
        Constraint::Percentage(p) => TuiConstraint::Percentage(p),
        Constraint::Length(n) => TuiConstraint::Length(n),
        Constraint::Min(n) => TuiConstraint::Min(n),
    }).collect();
    let a = TuiRect { x: area.x, y: area.y, width: area.width, height: area.height };
    let v = Layout::default().direction(d).constraints(cs).split(a);
    v.iter().map(|r| Rect { x: r.x, y: r.y, width: r.width, height: r.height }).collect()
}

} // verus!
