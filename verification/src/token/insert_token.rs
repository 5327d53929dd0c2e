//! Tokens read while in insert mode.
use super::TokenError;
use crate::key::{KeyCode, KeyEvent};
use crate::text::string_from_chars;
use vstd::prelude::*;

verus! {

#[derive(Clone, PartialEq, Eq, Debug)]
pub enum InsertToken {
    Append(String),
    Esc,
    Enter,
    Remove,
}

/// An insert-mode token with its text as a character sequence.
pub ghost enum InsertTokenView {
    Append(Seq<char>),
    Esc,
    Enter,
    Remove,
}

impl View for InsertToken {
    type V = InsertTokenView;

    open spec fn view(&self) -> InsertTokenView {
        match self {
            InsertToken::Append(s) => InsertTokenView::Append(s@),
            InsertToken::Esc => InsertTokenView::Esc,
            InsertToken::Enter => InsertTokenView::Enter,
            InsertToken::Remove => InsertTokenView::Remove,
        }
    }
}

/// The insert-mode token for the typed characters `s`: a line break when they
/// begin with one, else all of them as text to add.
pub open spec fn insert_token_spec(s: Seq<char>) -> InsertTokenView {
    if s.len() > 0 && s[0] == '\n' {
        InsertTokenView::Enter
    } else {
        InsertTokenView::Append(s)
    }
}

/// The insert-mode token that the key press `key` stands for, if any.
pub open spec fn insert_key_spec(key: KeyEvent) -> Option<InsertTokenView> {
    match key.code {
        KeyCode::Esc => Some(InsertTokenView::Esc),
        KeyCode::Backspace => Some(InsertTokenView::Remove),
        _ => None,
    }
}

impl InsertToken {
    /// Reads the insert-mode token for the typed characters; this never fails.
    pub fn try_from_chars(value: &[char]) -> (r: Result<InsertToken, TokenError>)
        ensures
            r is Ok,
            r->Ok_0@ == insert_token_spec(value@),
    {
        if value.len() > 0 && value[0] == '\n' {
            Ok(InsertToken::Enter)
        } else {
            proof {
                assert(value@.skip(0) =~= value@);
            }
            Ok(InsertToken::Append(string_from_chars(value, 0)))
        }
    }

    /// Reads the insert-mode token for a whole typed sequence; this never fails.
    pub fn try_from_vec(value: &Vec<char>) -> (r: Result<InsertToken, TokenError>)
        ensures
            r is Ok,
            r->Ok_0@ == insert_token_spec(value@),
    {
        Self::try_from_chars(value.as_slice())
    }

    /// Reads the insert-mode token that a key press stands for.
    pub fn try_from_key(key: &KeyEvent) -> (r: Result<InsertToken, TokenError>)
        ensures
            match insert_key_spec(*key) {
                Some(v) => r is Ok && r->Ok_0@ == v,
                None => r == Err::<InsertToken, TokenError>(TokenError::Unknown),
            },
    {
        match key.code {
            KeyCode::Esc => Ok(InsertToken::Esc),
            KeyCode::Backspace => Ok(InsertToken::Remove),
            _ => Err(TokenError::Unknown),
        }
    }
}

} // verus!
