//! Motions that describe a range of text.
use super::TokenError;
use crate::key::{KeyCode, KeyEvent};
use crate::text::string_from_chars;
use vstd::prelude::*;

verus! {

#[derive(Clone, PartialEq, Eq, Debug)]
pub enum RangeToken {
    First,
    FirstNonBlank,
    Left,
    Last,
    LastNonBlank,
    Right,
    Up,
    Down,
    FindNext(String),
    FindLast(String),
    TillNext(String),
    TillLast(String),
    LastLine,
    FirstLine,
    StartWord,
    EndWord,
    BackWord,
    InnerWord,
    Esc,
    Remove,
    Enter,
}

/// A range token with its text as a character sequence.
pub ghost enum RangeTokenView {
    First,
    FirstNonBlank,
    Left,
    Last,
    LastNonBlank,
    Right,
    Up,
    Down,
    FindNext(Seq<char>),
    FindLast(Seq<char>),
    TillNext(Seq<char>),
    TillLast(Seq<char>),
    LastLine,
    FirstLine,
    StartWord,
    EndWord,
    BackWord,
    InnerWord,
    Esc,
    Remove,
    Enter,
}

impl View for RangeToken {
    type V = RangeTokenView;

    open spec fn view(&self) -> RangeTokenView {
        match self {
            RangeToken::First => RangeTokenView::First,
            RangeToken::FirstNonBlank => RangeTokenView::FirstNonBlank,
            RangeToken::Left => RangeTokenView::Left,
            RangeToken::Last => RangeTokenView::Last,
            RangeToken::LastNonBlank => RangeTokenView::LastNonBlank,
            RangeToken::Right => RangeTokenView::Right,
            RangeToken::Up => RangeTokenView::Up,
            RangeToken::Down => RangeTokenView::Down,
            RangeToken::FindNext(s) => RangeTokenView::FindNext(s@),
            RangeToken::FindLast(s) => RangeTokenView::FindLast(s@),
            RangeToken::TillNext(s) => RangeTokenView::TillNext(s@),
            RangeToken::TillLast(s) => RangeTokenView::TillLast(s@),
            RangeToken::LastLine => RangeTokenView::LastLine,
            RangeToken::FirstLine => RangeTokenView::FirstLine,
            RangeToken::StartWord => RangeTokenView::StartWord,
            RangeToken::EndWord => RangeTokenView::EndWord,
            RangeToken::BackWord => RangeTokenView::BackWord,
            RangeToken::InnerWord => RangeTokenView::InnerWord,
            RangeToken::Esc => RangeTokenView::Esc,
            RangeToken::Remove => RangeTokenView::Remove,
            RangeToken::Enter => RangeTokenView::Enter,
        }
    }
}

/// The motion that the typed characters `s` begin with, if any.
pub open spec fn range_token_spec(s: Seq<char>) -> Option<RangeTokenView> {
    if s.len() == 0 {
        None
    } else if s[0] == '^' {
        Some(RangeTokenView::FirstNonBlank)
    } else if s[0] == '$' {
        Some(RangeTokenView::Last)
    } else if s[0] == 'h' {
        Some(RangeTokenView::Left)
    } else if s[0] == 'l' {
        Some(RangeTokenView::Right)
    } else if s[0] == 'j' {
        Some(RangeTokenView::Up)
    } else if s[0] == 'k' {
        Some(RangeTokenView::Down)
    } else if s.len() >= 2 && s[0] == 'g' && s[1] == '_' {
        Some(RangeTokenView::LastNonBlank)
    } else if s.len() >= 2 && s[0] == 'g' && s[1] == 'g' {
        Some(RangeTokenView::LastLine)
    } else if s[0] == 'G' {
        Some(RangeTokenView::FirstLine)
    } else if s[0] == 'w' {
        Some(RangeTokenView::StartWord)
    } else if s[0] == 'e' {
        Some(RangeTokenView::EndWord)
    } else if s[0] == 'b' {
        Some(RangeTokenView::BackWord)
    } else if s.len() >= 2 && s[0] == 'i' && s[1] == 'w' {
        Some(RangeTokenView::InnerWord)
    } else if s[0] == '\n' {
        Some(RangeTokenView::Enter)
    } else if s[0] == 'f' {
        Some(RangeTokenView::FindNext(s.drop_first()))
    } else if s[0] == 'F' {
        Some(RangeTokenView::FindLast(s.drop_first()))
    } else if s[0] == 't' {
        Some(RangeTokenView::TillNext(s.drop_first()))
    } else if s[0] == 'T' {
        Some(RangeTokenView::TillLast(s.drop_first()))
    } else {
        None
    }
}

/// The range token that the key press `key` stands for, if any.
pub open spec fn range_key_spec(key: KeyEvent) -> Option<RangeTokenView> {
    match key.code {
        KeyCode::Esc => Some(RangeTokenView::Esc),
        KeyCode::Backspace => Some(RangeTokenView::Remove),
        _ => None,
    }
}

/// `r` is what the spec result `o` describes: the token, or an error where there is none.
pub open spec fn range_result_is(r: Result<RangeToken, TokenError>, o: Option<RangeTokenView>) -> bool {
    match o {
        Some(v) => r is Ok && r->Ok_0@ == v,
        None => r == Err::<RangeToken, TokenError>(TokenError::Unknown),
    }
}

impl RangeToken {
    /// Reads the motion that the typed characters begin with.
    pub fn try_from_chars(value: &[char]) -> (r: Result<RangeToken, TokenError>)
        ensures
            range_result_is(r, range_token_spec(value@)),
    {
        let n = value.len();
        if n == 0 {
            return Err(TokenError::Unknown);
        }
        let c = value[0];
        let c1 = if n >= 2 {
            value[1]
        } else {
            ' '
        };
        proof {
            assert(value@.skip(1) =~= value@.drop_first());
        }
        if c == '^' {
            Ok(RangeToken::FirstNonBlank)
        } else if c == '$' {
            Ok(RangeToken::Last)
        } else if c == 'h' {
            Ok(RangeToken::Left)
        } else if c == 'l' {
            Ok(RangeToken::Right)
        } else if c == 'j' {
            Ok(RangeToken::Up)
        } else if c == 'k' {
            Ok(RangeToken::Down)
        } else if n >= 2 && c == 'g' && c1 == '_' {
            Ok(RangeToken::LastNonBlank)
        } else if n >= 2 && c == 'g' && c1 == 'g' {
            Ok(RangeToken::LastLine)
        } else if c == 'G' {
            Ok(RangeToken::FirstLine)
        } else if c == 'w' {
            Ok(RangeToken::StartWord)
        } else if c == 'e' {
            Ok(RangeToken::EndWord)
        } else if c == 'b' {
            Ok(RangeToken::BackWord)
        } else if n >= 2 && c == 'i' && c1 == 'w' {
            Ok(RangeToken::InnerWord)
        } else if c == '\n' {
            Ok(RangeToken::Enter)
        } else if c == 'f' {
            Ok(RangeToken::FindNext(string_from_chars(value, 1)))
        } else if c == 'F' {
            Ok(RangeToken::FindLast(string_from_chars(value, 1)))
        } else if c == 't' {
            Ok(RangeToken::TillNext(string_from_chars(value, 1)))
        } else if c == 'T' {
            Ok(RangeToken::TillLast(string_from_chars(value, 1)))
        } else {
            Err(TokenError::Unknown)
        }
    }

    /// Reads the motion that a whole typed sequence begins with.
    pub fn try_from_vec(value: &Vec<char>) -> (r: Result<RangeToken, TokenError>)
        ensures
            range_result_is(r, range_token_spec(value@)),
    {
        Self::try_from_chars(value.as_slice())
    }

    /// Reads the range token that a key press stands for.
    pub fn try_from_key(key: &KeyEvent) -> (r: Result<RangeToken, TokenError>)
        ensures
            range_result_is(r, range_key_spec(*key)),
    {
        match key.code {
            KeyCode::Esc => Ok(RangeToken::Esc),
            KeyCode::Backspace => Ok(RangeToken::Remove),
            _ => Err(TokenError::Unknown),
        }
    }
}

} // verus!
