//! Normal-mode commands and cursor motions.
use super::TokenError;
use crate::key::{KeyCode, KeyEvent};
use crate::text::{parse_trimmed_usize, parse_usize_spec, trim};
use vstd::prelude::*;

verus! {

#[derive(Clone, PartialEq, Eq, Debug, Structural)]
pub enum NormalToken {
    WindowLeft,
    WindowRight,
    WindowUp,
    WindowDown,
    SwitchToInsert,
    SwitchToAppend,
    AddNewLineBelow,
    AddNewLineAbove,
    Paste,
    Undo,
    Redo,
    YankLine,
    DeleteLine,
    Visual,
    VisualLine,
    Esc,
    Enter,
    SwitchToCommand,
    SetWindow(usize),
    Up,
    Down,
    Left,
    Right,
    First,
    FirstNonBlank,
    Last,
    LastNonBlank,
    StartWord,
}

/// The normal-mode token that the typed characters `s` begin with, if any.
pub open spec fn normal_token_spec(s: Seq<char>) -> Option<NormalToken> {
    if s.len() == 0 {
        None
    } else if s[0] == 'a' {
        Some(NormalToken::SwitchToAppend)
    } else if s[0] == ':' {
        Some(NormalToken::SwitchToCommand)
    } else if s.len() >= 2 && s[0] == 'y' && s[1] == 'y' {
        Some(NormalToken::YankLine)
    } else if s.len() >= 2 && s[0] == 'd' && s[1] == 'd' {
        Some(NormalToken::DeleteLine)
    } else if s[0] == 'u' {
        Some(NormalToken::Undo)
    } else if s[0] == 'r' {
        Some(NormalToken::Redo)
    } else if s[0] == 'o' {
        Some(NormalToken::AddNewLineBelow)
    } else if s[0] == 'O' {
        Some(NormalToken::AddNewLineAbove)
    } else if s[0] == 'p' {
        Some(NormalToken::Paste)
    } else if s[0] == 'i' {
        Some(NormalToken::SwitchToInsert)
    } else if s[0] == 'v' {
        Some(NormalToken::Visual)
    } else if s[0] == 'V' {
        Some(NormalToken::VisualLine)
    } else if s[0] == '\n' {
        Some(NormalToken::Enter)
    } else if s[0] == 'z' && parse_usize_spec(trim(s.drop_first())) is Some {
        Some(NormalToken::SetWindow(parse_usize_spec(trim(s.drop_first())).unwrap()))
    } else if s[0] == 'k' {
        Some(NormalToken::Up)
    } else if s[0] == 'j' {
        Some(NormalToken::Down)
    } else if s[0] == 'h' {
        Some(NormalToken::Left)
    } else if s[0] == 'l' {
        Some(NormalToken::Right)
    } else if s[0] == '^' {
        Some(NormalToken::FirstNonBlank)
    } else if s[0] == '$' {
        Some(NormalToken::Last)
    } else if s.len() >= 2 && s[0] == 'g' && s[1] == '_' {
        Some(NormalToken::LastNonBlank)
    } else if s[0] == 'w' {
        Some(NormalToken::StartWord)
    } else {
        None
    }
}

/// The normal-mode token that the key press `key` stands for, if any.
pub open spec fn normal_key_spec(key: KeyEvent) -> Option<NormalToken> {
    match key.code {
        KeyCode::Esc => Some(NormalToken::Esc),
        _ => None,
    }
}

pub open spec fn as_token_result<T>(o: Option<T>) -> Result<T, TokenError> {
    match o {
        Some(t) => Ok(t),
        None => Err(TokenError::Unknown),
    }
}

impl NormalToken {
    /// Reads the normal-mode token that the typed characters begin with.
    pub fn try_from_chars(value: &[char]) -> (r: Result<NormalToken, TokenError>)
        ensures
            r == as_token_result(normal_token_spec(value@)),
    {
        let n = value.len();
        if n == 0 {
            return Err(TokenError::Unknown);
        }
        let c = value[0];
        let c1 = if n >= 2 {
            value[1]
        } else {
            ' '
        };
        if c == 'a' {
            Ok(NormalToken::SwitchToAppend)
        } else if c == ':' {
            Ok(NormalToken::SwitchToCommand)
        } else if n >= 2 && c == 'y' && c1 == 'y' {
            Ok(NormalToken::YankLine)
        } else if n >= 2 && c == 'd' && c1 == 'd' {
            Ok(NormalToken::DeleteLine)
        } else if c == 'u' {
            Ok(NormalToken::Undo)
        } else if c == 'r' {
            Ok(NormalToken::Redo)
        } else if c == 'o' {
            Ok(NormalToken::AddNewLineBelow)
        } else if c == 'O' {
            Ok(NormalToken::AddNewLineAbove)
        } else if c == 'p' {
            Ok(NormalToken::Paste)
        } else if c == 'i' {
            Ok(NormalToken::SwitchToInsert)
        } else if c == 'v' {
            Ok(NormalToken::Visual)
        } else if c == 'V' {
            Ok(NormalToken::VisualLine)
        } else if c == '\n' {
            Ok(NormalToken::Enter)
        } else {
            let window = if c == 'z' {
                parse_trimmed_usize(value, 1)
            } else {
                None
            };
            proof {
                assert(value@.skip(1) =~= value@.drop_first());
            }
            match window {
                Some(order) => Ok(NormalToken::SetWindow(order)),
                None => {
                    if c == 'k' {
                        Ok(NormalToken::Up)
                    } else if c == 'j' {
                        Ok(NormalToken::Down)
                    } else if c == 'h' {
                        Ok(NormalToken::Left)
                    } else if c == 'l' {
                        Ok(NormalToken::Right)
                    } else if c == '^' {
                        Ok(NormalToken::FirstNonBlank)
                    } else if c == '$' {
                        Ok(NormalToken::Last)
                    } else if n >= 2 && c == 'g' && c1 == '_' {
                        Ok(NormalToken::LastNonBlank)
                    } else if c == 'w' {
                        Ok(NormalToken::StartWord)
                    } else {
                        Err(TokenError::Unknown)
                    }
                },
            }
        }
    }

    /// Reads the normal-mode token that a whole typed sequence begins with.
    pub fn try_from_vec(value: &Vec<char>) -> (r: Result<NormalToken, TokenError>)
        ensures
            r == as_token_result(normal_token_spec(value@)),
    {
        Self::try_from_chars(value.as_slice())
    }

    /// Reads the normal-mode token that a key press stands for.
    pub fn try_from_key(key: &KeyEvent) -> (r: Result<NormalToken, TokenError>)
        ensures
            r == as_token_result(normal_key_spec(*key)),
    {
        match key.code {
            KeyCode::Esc => Ok(NormalToken::Esc),
            _ => Err(TokenError::Unknown),
        }
    }
}

/// The normal-mode key table: the keys typed first, and the tokens they
/// read as, whatever follows them.
pub proof fn law_normal_keys(s: Seq<char>)
    requires
        s.len() > 0,
    ensures
        s[0] == 'u' ==> normal_token_spec(s) == Some(NormalToken::Undo),
        s[0] == 'r' ==> normal_token_spec(s) == Some(NormalToken::Redo),
        s[0] == 'a' ==> normal_token_spec(s) == Some(NormalToken::SwitchToAppend),
        s[0] == ':' ==> normal_token_spec(s) == Some(NormalToken::SwitchToCommand),
        s[0] == 'i' ==> normal_token_spec(s) == Some(NormalToken::SwitchToInsert),
        s[0] == 'o' ==> normal_token_spec(s) == Some(NormalToken::AddNewLineBelow),
        s[0] == 'O' ==> normal_token_spec(s) == Some(NormalToken::AddNewLineAbove),
        s[0] == 'p' ==> normal_token_spec(s) == Some(NormalToken::Paste),
        s[0] == 'v' ==> normal_token_spec(s) == Some(NormalToken::Visual),
        s[0] == 'V' ==> normal_token_spec(s) == Some(NormalToken::VisualLine),
        s[0] == '\n' ==> normal_token_spec(s) == Some(NormalToken::Enter),
        s[0] == 'k' ==> normal_token_spec(s) == Some(NormalToken::Up),
        s[0] == 'j' ==> normal_token_spec(s) == Some(NormalToken::Down),
        s[0] == 'h' ==> normal_token_spec(s) == Some(NormalToken::Left),
        s[0] == 'l' ==> normal_token_spec(s) == Some(NormalToken::Right),
        s[0] == '^' ==> normal_token_spec(s) == Some(NormalToken::FirstNonBlank),
        s[0] == '$' ==> normal_token_spec(s) == Some(NormalToken::Last),
        s[0] == 'w' ==> normal_token_spec(s) == Some(NormalToken::StartWord),
        s.len() >= 2 && s[0] == 'y' && s[1] == 'y' ==> normal_token_spec(s) == Some(NormalToken::YankLine),
        s.len() >= 2 && s[0] == 'd' && s[1] == 'd' ==> normal_token_spec(s) == Some(NormalToken::DeleteLine),
        s.len() >= 2 && s[0] == 'g' && s[1] == '_' ==> normal_token_spec(s) == Some(NormalToken::LastNonBlank),
        s == seq!['d'] ==> normal_token_spec(s) is None,
        s == seq!['y'] ==> normal_token_spec(s) is None,
{
}

} // verus!
