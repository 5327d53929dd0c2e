//! Instructions to windows: what to show and what to keep ready for drawing.
use super::TokenError;
use crate::app::Mode;
use crate::key::KeyEvent;
use crate::layout::{Direction, Rect};
use ropey::Rope;
use vstd::prelude::*;

verus! {

/// The cursor, page and title that a window takes over from its buffer.
#[derive(Clone, Debug, PartialEq, Eq)]
pub struct WindowChange {
    pub id: u128,
    pub x_pos: u16,
    pub y_pos: u16,
    pub title: Option<String>,
    pub page_size: u16,
    pub current_page: u16,
    pub area: Option<Rect>,
    pub mode: Mode,
}

impl Default for WindowChange {
    fn default() -> (c: Self)
        ensures
            c.id == 0,
            c.x_pos == 0,
            c.y_pos == 0,
            c.title is None,
            c.page_size == 0,
            c.current_page == 0,
            c.area is None,
            c.mode == Mode::Normal,
    {
        WindowChange {
            id: 0,
            x_pos: 0,
            y_pos: 0,
            title: None,
            page_size: 0,
            current_page: 0,
            area: None,
            mode: Mode::Normal,
        }
    }
}

#[derive(Clone, Debug, PartialEq, Eq)]
pub enum DisplayToken {
    SetHighlight,
    UpdateWindow(WindowChange),
    NewWindow(WindowChange, Option<Direction>),
    DrawViewPort,
    DrawWindow,
    SetTextLayout(Direction),
    CacheWindowContent(Rope),
    AppendCommand(Option<String>),
    CacheCurrentLine(Rope, usize),
    CacheNewLine(Rope, usize),
    RemoveCacheLine(Rope, usize),
    CloseWindow(u128),
}

impl DisplayToken {
    /// No typed text names a display token.
    pub fn try_from_string(value: &String) -> (r: Result<DisplayToken, TokenError>)
        ensures
            r == Err::<DisplayToken, TokenError>(TokenError::Unknown),
    {
        Err(TokenError::Unknown)
    }

    /// No key press names a display token.
    pub fn try_from_key(key: &KeyEvent) -> (r: Result<DisplayToken, TokenError>)
        ensures
            r == Err::<DisplayToken, TokenError>(TokenError::Unknown),
    {
        Err(TokenError::Unknown)
    }
}

} // verus!
