//! Tokens read while in append mode.
use super::TokenError;
use crate::key::{KeyCode, KeyEvent};
use crate::text::string_from_chars;
use vstd::prelude::*;

verus! {

#[derive(Clone, PartialEq, Eq, Debug)]
pub enum AppendToken {
    Append(String),
    Esc,
    Enter,
    Remove,
}

/// An append-mode token with its text as a character sequence.
pub ghost enum AppendTokenView {
    Append(Seq<char>),
    Esc,
    Enter,
    Remove,
}

impl View for AppendToken {
    type V = AppendTokenView;

    open spec fn view(&self) -> AppendTokenView {
        match self {
            AppendToken::Append(s) => AppendTokenView::Append(s@),
            AppendToken::Esc => AppendTokenView::Esc,
            AppendToken::Enter => AppendTokenView::Enter,
            AppendToken::Remove => AppendTokenView::Remove,
        }
    }
}

/// The append-mode token for the typed characters `s`: a line break when they
/// begin with one, else all of them as text to add.
pub open spec fn append_token_spec(s: Seq<char>) -> AppendTokenView {
    if s.len() > 0 && s[0] == '\n' {
        AppendTokenView::Enter
    } else {
        AppendTokenView::Append(s)
    }
}

/// The append-mode token that the key press `key` stands for, if any.
pub open spec fn append_key_spec(key: KeyEvent) -> Option<AppendTokenView> {
    match key.code {
        KeyCode::Esc => Some(AppendTokenView::Esc),
        KeyCode::Backspace => Some(AppendTokenView::Remove),
        _ => None,
    }
}

impl AppendToken {
    /// Reads the append-mode token for the typed characters; this never fails.
    pub fn try_from_chars(value: &[char]) -> (r: Result<AppendToken, TokenError>)
        ensures
            r is Ok,
            r->Ok_0@ == append_token_spec(value@),
    {
        if value.len() > 0 && value[0] == '\n' {
            Ok(AppendToken::Enter)
        } else {
            proof {
                assert(value@.skip(0) =~= value@);
            }
            Ok(AppendToken::Append(string_from_chars(value, 0)))
        }
    }

    /// Reads the append-mode token for a whole typed sequence; this never fails.
    pub fn try_from_vec(value: &Vec<char>) -> (r: Result<AppendToken, TokenError>)
        ensures
            r is Ok,
            r->Ok_0@ == append_token_spec(value@),
    {
        Self::try_from_chars(value.as_slice())
    }

    /// Reads the append-mode token that a key press stands for.
    pub fn try_from_key(key: &KeyEvent) -> (r: Result<AppendToken, TokenError>)
        ensures
            match append_key_spec(*key) {
                Some(v) => r is Ok && r->Ok_0@ == v,
                None => r == Err::<AppendToken, TokenError>(TokenError::Unknown),
            },
    {
        match key.code {
            KeyCode::Esc => Ok(AppendToken::Esc),
            KeyCode::Backspace => Ok(AppendToken::Remove),
            _ => Err(TokenError::Unknown),
        }
    }
}

} // verus!
