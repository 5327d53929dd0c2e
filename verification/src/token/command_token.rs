//! Tokens read while the command line is open.
use super::TokenError;
use crate::app::Mode;
use crate::key::{KeyCode, KeyEvent};
use crate::text::{
    parse_trimmed_usize, parse_usize, parse_usize_spec, split_chars, split_spec, string_from_chars,
    trim, trim_end_char, trim_end_matches, trim_start_char, trim_start_matches,
};
use vstd::prelude::*;

verus! {

#[derive(Clone, PartialEq, Eq, Debug)]
pub enum CommandToken {
    NoOp,
    SetMode(Mode),
    Quit,
    Write,
    TabNew,
    Append(String),
    Remove,
    VerticalSplit(Option<String>),
    Split(Option<String>),
    Tab,
    Esc,
    Enter,
    SetBuffer(u128),
    GoToLine(usize),
    YankLines(usize, usize),
    DeleteLines(usize, usize),
}

/// A command token with its texts as character sequences.
pub ghost enum CommandTokenView {
    NoOp,
    SetMode(Mode),
    Quit,
    Write,
    TabNew,
    Append(Seq<char>),
    Remove,
    VerticalSplit(Option<Seq<char>>),
    Split(Option<Seq<char>>),
    Tab,
    Esc,
    Enter,
    SetBuffer(u128),
    GoToLine(usize),
    YankLines(usize, usize),
    DeleteLines(usize, usize),
}

pub open spec fn opt_string_view(o: Option<String>) -> Option<Seq<char>> {
    match o {
        Some(s) => Some(s@),
        None => None,
    }
}

impl View for CommandToken {
    type V = CommandTokenView;

    open spec fn view(&self) -> CommandTokenView {
        match self {
            CommandToken::NoOp => CommandTokenView::NoOp,
            CommandToken::SetMode(m) => CommandTokenView::SetMode(*m),
            CommandToken::Quit => CommandTokenView::Quit,
            CommandToken::Write => CommandTokenView::Write,
            CommandToken::TabNew => CommandTokenView::TabNew,
            CommandToken::Append(s) => CommandTokenView::Append(s@),
            CommandToken::Remove => CommandTokenView::Remove,
            CommandToken::VerticalSplit(o) => CommandTokenView::VerticalSplit(opt_string_view(*o)),
            CommandToken::Split(o) => CommandTokenView::Split(opt_string_view(*o)),
            CommandToken::Tab => CommandTokenView::Tab,
            CommandToken::Esc => CommandTokenView::Esc,
            CommandToken::Enter => CommandTokenView::Enter,
            CommandToken::SetBuffer(id) => CommandTokenView::SetBuffer(*id),
            CommandToken::GoToLine(n) => CommandTokenView::GoToLine(*n),
            CommandToken::YankLines(a, b) => CommandTokenView::YankLines(*a, *b),
            CommandToken::DeleteLines(a, b) => CommandTokenView::DeleteLines(*a, *b),
        }
    }
}

/// The command that a command line `s` names directly: quit, write, a split,
/// or a line number to go to.
pub open spec fn command_direct_spec(s: Seq<char>) -> Option<CommandTokenView> {
    if s.len() >= 2 && s[0] == ':' && s[1] == 'q' {
        Some(CommandTokenView::Quit)
    } else if s.len() >= 2 && s[0] == ':' && s[1] == 'w' {
        Some(CommandTokenView::Write)
    } else if s.len() >= 1 && s[0] == '\n' {
        Some(CommandTokenView::Enter)
    } else if s.len() >= 3 && s[0] == ':' && s[1] == 'v' && s[2] == 's' {
        Some(CommandTokenView::VerticalSplit(Some(s.skip(3))))
    } else if s.len() >= 3 && s[0] == ':' && s[1] == 's' && s[2] == 'p' {
        Some(CommandTokenView::Split(Some(s.skip(3))))
    } else if s.len() >= 1 && s[0] == ':' && parse_usize_spec(trim(s.drop_first())) is Some {
        Some(CommandTokenView::GoToLine(parse_usize_spec(trim(s.drop_first())).unwrap()))
    } else {
        None
    }
}

/// `s` has the shape of a line-range command: `:`, a comma somewhere, and a
/// final `d` or `y`.
pub open spec fn is_line_range_shape(s: Seq<char>) -> bool {
    &&& s.len() > 0
    &&& s[0] == ':'
    &&& s.contains(',')
    &&& (s.last() == 'd' || s.last() == 'y')
}

/// The two numbers of a line-range command `:a,b` followed by `d` or `y`.
pub open spec fn line_range_parts(s: Seq<char>) -> Seq<Seq<char>> {
    split_spec(
        trim_end_char(trim_end_char(trim_start_char(s, ':'), 'd'), 'y'),
        ',',
    )
}

/// The yank or delete of a range of lines that `s` asks for, if it is well formed.
pub open spec fn line_range_spec(s: Seq<char>) -> Option<CommandTokenView> {
    let parts = line_range_parts(s);
    if parts.len() == 2 && parse_usize_spec(parts[0]) is Some && parse_usize_spec(parts[1]) is Some {
        let a = parse_usize_spec(parts[0]).unwrap();
        let b = parse_usize_spec(parts[1]).unwrap();
        if s.last() == 'y' {
            Some(CommandTokenView::YankLines(a, b))
        } else {
            Some(CommandTokenView::DeleteLines(a, b))
        }
    } else {
        None
    }
}

/// The command token for a whole command line `s`: a command it names
/// directly; else, for a line-range shape, that range or no token; else the
/// line itself as text to add.
pub open spec fn command_token_spec(s: Seq<char>) -> Option<CommandTokenView> {
    if command_direct_spec(s) is Some {
        command_direct_spec(s)
    } else if is_line_range_shape(s) {
        line_range_spec(s)
    } else {
        Some(CommandTokenView::Append(s))
    }
}

/// The command token that the key press `key` stands for, if any.
pub open spec fn command_key_spec(key: KeyEvent) -> Option<CommandTokenView> {
    match key.code {
        KeyCode::Enter => Some(CommandTokenView::Enter),
        KeyCode::Esc => Some(CommandTokenView::Esc),
        KeyCode::Backspace => Some(CommandTokenView::Remove),
        _ => None,
    }
}

/// `r` is what the spec result `o` describes: the token, or an error where there is none.
pub open spec fn command_result_is(r: Result<CommandToken, TokenError>, o: Option<CommandTokenView>) -> bool {
    match o {
        Some(v) => r is Ok && r->Ok_0@ == v,
        None => r == Err::<CommandToken, TokenError>(TokenError::Unknown),
    }
}

fn contains_char(s: &[char], c: char) -> (b: bool)
    ensures
        b == s@.contains(c),
{
    let mut i: usize = 0;
    while i < s.len()
        invariant
            i <= s@.len(),
            forall|j: int| 0 <= j < i ==> s@[j] != c,
        decreases s@.len() - i,
    {
        if s[i] == c {
            assert(s@[i as int] == c);
            return true;
        }
        i = i + 1;
    }
    false
}

impl CommandToken {
    /// The characters typed on the command line, kept as text to add; this never fails.
    pub fn try_from_chars(value: &[char]) -> (r: Result<CommandToken, TokenError>)
        ensures
            r is Ok,
            r->Ok_0@ == CommandTokenView::Append(value@),
    {
        proof {
            assert(value@.skip(0) =~= value@);
        }
        Ok(CommandToken::Append(string_from_chars(value, 0)))
    }

    fn direct(value: &[char]) -> (r: Option<CommandToken>)
        ensures
            match command_direct_spec(value@) {
                Some(v) => r is Some && r->0@ == v,
                None => r is None,
            },
    {
        let n = value.len();
        let c0 = if n >= 1 {
            value[0]
        } else {
            ' '
        };
        let c1 = if n >= 2 {
            value[1]
        } else {
            ' '
        };
        let c2 = if n >= 3 {
            value[2]
        } else {
            ' '
        };
        if n >= 2 && c0 == ':' && c1 == 'q' {
            Some(CommandToken::Quit)
        } else if n >= 2 && c0 == ':' && c1 == 'w' {
            Some(CommandToken::Write)
        } else if n >= 1 && c0 == '\n' {
            Some(CommandToken::Enter)
        } else if n >= 3 && c0 == ':' && c1 == 'v' && c2 == 's' {
            Some(CommandToken::VerticalSplit(Some(string_from_chars(value, 3))))
        } else if n >= 3 && c0 == ':' && c1 == 's' && c2 == 'p' {
            Some(CommandToken::Split(Some(string_from_chars(value, 3))))
        } else if n >= 1 && c0 == ':' {
            proof {
                assert(value@.skip(1) =~= value@.drop_first());
            }
            match parse_trimmed_usize(value, 1) {
                Some(line) => Some(CommandToken::GoToLine(line)),
                None => None,
            }
        } else {
            None
        }
    }

    fn line_range(value: &[char]) -> (r: Result<CommandToken, TokenError>)
        requires
            is_line_range_shape(value@),
        ensures
            command_result_is(r, line_range_spec(value@)),
    {
        let last = value[value.len() - 1];
        let t1 = trim_start_matches(value, ':');
        let t2 = trim_end_matches(t1.as_slice(), 'd');
        let t3 = trim_end_matches(t2.as_slice(), 'y');
        let parts = split_chars(t3.as_slice(), ',');
        assert(parts@.len() == line_range_parts(value@).len());
        if parts.len() == 2 {
            let a = parse_usize(parts[0].as_slice());
            let b = parse_usize(parts[1].as_slice());
            assert(parts@[0]@ == line_range_parts(value@)[0]);
            assert(parts@[1]@ == line_range_parts(value@)[1]);
            match (a, b) {
                (Some(a), Some(b)) => {
                    if last == 'y' {
                        Ok(CommandToken::YankLines(a, b))
                    } else {
                        Ok(CommandToken::DeleteLines(a, b))
                    }
                },
                _ => Err(TokenError::Unknown),
            }
        } else {
            Err(TokenError::Unknown)
        }
    }

    /// Reads the command that a whole command line asks for.
    pub fn try_from_vec(value: &Vec<char>) -> (r: Result<CommandToken, TokenError>)
        ensures
            command_result_is(r, command_token_spec(value@)),
    {
        let s = value.as_slice();
        match Self::direct(s) {
            Some(t) => Ok(t),
            None => {
                let n = s.len();
                if n > 0 && s[0] == ':' && contains_char(s, ',') && (s[n - 1] == 'd' || s[n - 1]
                    == 'y') {
                    Self::line_range(s)
                } else {
                    proof {
                        assert(s@.skip(0) =~= s@);
                    }
                    Ok(CommandToken::Append(string_from_chars(s, 0)))
                }
            },
        }
    }

    /// Reads the command token that a key press stands for.
    pub fn try_from_key(key: &KeyEvent) -> (r: Result<CommandToken, TokenError>)
        ensures
            command_result_is(r, command_key_spec(*key)),
    {
        match key.code {
            KeyCode::Enter => Ok(CommandToken::Enter),
            KeyCode::Esc => Ok(CommandToken::Esc),
            KeyCode::Backspace => Ok(CommandToken::Remove),
            _ => Err(TokenError::Unknown),
        }
    }
}

} // verus!
