//! Operators that act on the text a following motion covers.
use super::normal_token::as_token_result;
use super::TokenError;
use crate::key::{KeyCode, KeyEvent};
use vstd::prelude::*;

verus! {

#[derive(Clone, PartialEq, Eq, Debug, Structural)]
pub enum OperatorToken {
    Yank,
    Delete,
    Change,
    Indent,
    UnIndent,
    Uppercase,
    Lowercase,
    ToggleCase,
    Shell,
    Format,
    Esc,
    Remove,
}

/// The operator that the typed characters `s` begin with, if any.
pub open spec fn operator_token_spec(s: Seq<char>) -> Option<OperatorToken> {
    if s.len() == 0 {
        None
    } else if s[0] == 'y' {
        Some(OperatorToken::Yank)
    } else if s[0] == 'd' {
        Some(OperatorToken::Delete)
    } else if s[0] == 'c' {
        Some(OperatorToken::Change)
    } else if s[0] == '>' {
        Some(OperatorToken::Indent)
    } else if s[0] == '<' {
        Some(OperatorToken::UnIndent)
    } else if s.len() >= 2 && s[0] == 'g' && s[1] == 'U' {
        Some(OperatorToken::Uppercase)
    } else if s.len() >= 2 && s[0] == 'g' && s[1] == 'u' {
        Some(OperatorToken::Lowercase)
    } else if s[0] == '~' {
        Some(OperatorToken::ToggleCase)
    } else if s[0] == '!' {
        Some(OperatorToken::Shell)
    } else if s[0] == '=' {
        Some(OperatorToken::Format)
    } else {
        None
    }
}

/// The operator token that the key press `key` stands for, if any.
pub open spec fn operator_key_spec(key: KeyEvent) -> Option<OperatorToken> {
    match key.code {
        KeyCode::Esc => Some(OperatorToken::Esc),
        KeyCode::Backspace => Some(OperatorToken::Remove),
        _ => None,
    }
}

impl OperatorToken {
    /// Reads the operator that the typed characters begin with.
    pub fn try_from_chars(value: &[char]) -> (r: Result<OperatorToken, TokenError>)
        ensures
            r == as_token_result(operator_token_spec(value@)),
    {
        let n = value.len();
        if n == 0 {
            return Err(TokenError::Unknown);
        }
        let c = value[0];
        let c1 = if n >= 2 {
            value[1]
        } else {
            ' '
        };
        if c == 'y' {
            Ok(OperatorToken::Yank)
        } else if c == 'd' {
            Ok(OperatorToken::Delete)
        } else if c == 'c' {
            Ok(OperatorToken::Change)
        } else if c == '>' {
            Ok(OperatorToken::Indent)
        } else if c == '<' {
            Ok(OperatorToken::UnIndent)
        } else if n >= 2 && c == 'g' && c1 == 'U' {
            Ok(OperatorToken::Uppercase)
        } else if n >= 2 && c == 'g' && c1 == 'u' {
            Ok(OperatorToken::Lowercase)
        } else if c == '~' {
            Ok(OperatorToken::ToggleCase)
        } else if c == '!' {
            Ok(OperatorToken::Shell)
        } else if c == '=' {
            Ok(OperatorToken::Format)
        } else {
            Err(TokenError::Unknown)
        }
    }

    /// Reads the operator that a whole typed sequence begins with.
    pub fn try_from_vec(value: &Vec<char>) -> (r: Result<OperatorToken, TokenError>)
        ensures
            r == as_token_result(operator_token_spec(value@)),
    {
        Self::try_from_chars(value.as_slice())
    }

    /// Reads the operator token that a key press stands for.
    pub fn try_from_key(key: &KeyEvent) -> (r: Result<OperatorToken, TokenError>)
        ensures
            r == as_token_result(operator_key_spec(*key)),
    {
        match key.code {
            KeyCode::Esc => Ok(OperatorToken::Esc),
            KeyCode::Backspace => Ok(OperatorToken::Remove),
            _ => Err(TokenError::Unknown),
        }
    }
}

} // verus!
