//! Range (motion) command words.
use super::{after, parse_commands, parse_from, string_views, Command, CommandError};
use crate::text::{chars_of, string_of_char};
use vstd::prelude::*;

verus! {

#[derive(Debug, PartialEq, Eq)]
pub enum RangeCommand {
    First,
    FirstNonBlank,
    Left,
    Last,
    LastNonBlank,
    Right,
    Up,
    Down,
    FindNext(String),
    FindLast(String),
    TillNext(String),
    TillLast(String),
    LastLine,
    FirstLine,
    StartWord,
    EndWord,
    BackWord,
    InnerWord,
}

/// A range command with its text as a character sequence.
pub ghost enum RangeCommandView {
    First,
    FirstNonBlank,
    Left,
    Last,
    LastNonBlank,
    Right,
    Up,
    Down,
    FindNext(Seq<char>),
    FindLast(Seq<char>),
    TillNext(Seq<char>),
    TillLast(Seq<char>),
    LastLine,
    FirstLine,
    StartWord,
    EndWord,
    BackWord,
    InnerWord,
}

impl View for RangeCommand {
    type V = RangeCommandView;

    open spec fn view(&self) -> RangeCommandView {
        match self {
            RangeCommand::First => RangeCommandView::First,
            RangeCommand::FirstNonBlank => RangeCommandView::FirstNonBlank,
            RangeCommand::Left => RangeCommandView::Left,
            RangeCommand::Last => RangeCommandView::Last,
            RangeCommand::LastNonBlank => RangeCommandView::LastNonBlank,
            RangeCommand::Right => RangeCommandView::Right,
            RangeCommand::Up => RangeCommandView::Up,
            RangeCommand::Down => RangeCommandView::Down,
            RangeCommand::FindNext(s) => RangeCommandView::FindNext(s@),
            RangeCommand::FindLast(s) => RangeCommandView::FindLast(s@),
            RangeCommand::TillNext(s) => RangeCommandView::TillNext(s@),
            RangeCommand::TillLast(s) => RangeCommandView::TillLast(s@),
            RangeCommand::LastLine => RangeCommandView::LastLine,
            RangeCommand::FirstLine => RangeCommandView::FirstLine,
            RangeCommand::StartWord => RangeCommandView::StartWord,
            RangeCommand::EndWord => RangeCommandView::EndWord,
            RangeCommand::BackWord => RangeCommandView::BackWord,
            RangeCommand::InnerWord => RangeCommandView::InnerWord,
        }
    }
}

/// The range command that the word `s` names, if any: one of the fixed
/// words, or `f`, `F`, `t` or `T` followed by exactly one character.
pub open spec fn range_command_spec(s: Seq<char>) -> Option<RangeCommandView> {
    if s == seq!['^'] {
        Some(RangeCommandView::FirstNonBlank)
    } else if s == seq!['$'] {
        Some(RangeCommandView::Last)
    } else if s == seq!['h'] {
        Some(RangeCommandView::Left)
    } else if s == seq!['l'] {
        Some(RangeCommandView::Right)
    } else if s == seq!['j'] {
        Some(RangeCommandView::Up)
    } else if s == seq!['k'] {
        Some(RangeCommandView::Down)
    } else if s == seq!['g', '_'] {
        Some(RangeCommandView::LastNonBlank)
    } else if s == seq!['g', 'g'] {
        Some(RangeCommandView::LastLine)
    } else if s == seq!['G'] {
        Some(RangeCommandView::FirstLine)
    } else if s == seq!['w'] {
        Some(RangeCommandView::StartWord)
    } else if s == seq!['e'] {
        Some(RangeCommandView::EndWord)
    } else if s == seq!['b'] {
        Some(RangeCommandView::BackWord)
    } else if s == seq!['i', 'w'] {
        Some(RangeCommandView::InnerWord)
    } else if s.len() == 2 && s[0] == 'f' {
        Some(RangeCommandView::FindNext(seq![s[1]]))
    } else if s.len() == 2 && s[0] == 'F' {
        Some(RangeCommandView::FindLast(seq![s[1]]))
    } else if s.len() == 2 && s[0] == 't' {
        Some(RangeCommandView::TillNext(seq![s[1]]))
    } else if s.len() == 2 && s[0] == 'T' {
        Some(RangeCommandView::TillLast(seq![s[1]]))
    } else {
        None
    }
}

/// `range_command_spec` as a function value.
pub open spec fn range_recognizer() -> spec_fn(Seq<char>) -> Option<RangeCommandView> {
    |s: Seq<char>| range_command_spec(s)
}

pub open spec fn range_commands_of(tokens: Seq<Seq<char>>) -> Result<Seq<RangeCommandView>, Seq<char>> {
    parse_commands(range_recognizer(), tokens)
}

pub open spec fn range_command_views(v: Seq<RangeCommand>) -> Seq<RangeCommandView> {
    v.map_values(|c: RangeCommand| c@)
}

impl RangeCommand {
    /// Reads the range command that a word names.
    pub fn try_from_string(value: &String) -> (r: Result<RangeCommand, CommandError>)
        ensures
            match range_command_spec(value@) {
                Some(c) => r is Ok && r->Ok_0@ == c,
                None => r == Err::<RangeCommand, CommandError>(CommandError::UnknownCommand),
            },
    {
        let cs = chars_of(value.as_str());
        let n = cs.len();
        let c0 = if n >= 1 {
            cs[0]
        } else {
            ' '
        };
        let c1 = if n >= 2 {
            cs[1]
        } else {
            ' '
        };
        proof {
            if n == 1 {
                assert(cs@ =~= seq![c0]);
            }
            if n == 2 {
                assert(cs@ =~= seq![c0, c1]);
            }
        }
        if n == 1 && c0 == '^' {
            Ok(RangeCommand::FirstNonBlank)
        } else if n == 1 && c0 == '$' {
            Ok(RangeCommand::Last)
        } else if n == 1 && c0 == 'h' {
            Ok(RangeCommand::Left)
        } else if n == 1 && c0 == 'l' {
            Ok(RangeCommand::Right)
        } else if n == 1 && c0 == 'j' {
            Ok(RangeCommand::Up)
        } else if n == 1 && c0 == 'k' {
            Ok(RangeCommand::Down)
        } else if n == 2 && c0 == 'g' && c1 == '_' {
            Ok(RangeCommand::LastNonBlank)
        } else if n == 2 && c0 == 'g' && c1 == 'g' {
            Ok(RangeCommand::LastLine)
        } else if n == 1 && c0 == 'G' {
            Ok(RangeCommand::FirstLine)
        } else if n == 1 && c0 == 'w' {
            Ok(RangeCommand::StartWord)
        } else if n == 1 && c0 == 'e' {
            Ok(RangeCommand::EndWord)
        } else if n == 1 && c0 == 'b' {
            Ok(RangeCommand::BackWord)
        } else if n == 2 && c0 == 'i' && c1 == 'w' {
            Ok(RangeCommand::InnerWord)
        } else if n == 2 && c0 == 'f' {
            Ok(RangeCommand::FindNext(string_of_char(c1)))
        } else if n == 2 && c0 == 'F' {
            Ok(RangeCommand::FindLast(string_of_char(c1)))
        } else if n == 2 && c0 == 't' {
            Ok(RangeCommand::TillNext(string_of_char(c1)))
        } else if n == 2 && c0 == 'T' {
            Ok(RangeCommand::TillLast(string_of_char(c1)))
        } else {
            Err(CommandError::UnknownCommand)
        }
    }
}

impl Command for RangeCommand {
    open spec fn parsed(tokens: Seq<Seq<char>>, r: Result<Vec<Self>, CommandError>) -> bool {
        match range_commands_of(tokens) {
            Ok(cs) => r is Ok && range_command_views(r->Ok_0@) == cs,
            Err(e) => r is Err && r->Err_0 is Unparsed && r->Err_0->Unparsed_0@ == e,
        }
    }

    #[verifier::loop_isolation(false)]
    fn parse(tokens: Vec<String>) -> (r: Result<Vec<Self>, CommandError>) {
        let ghost f = range_recognizer();
        let ghost all = string_views(tokens@);
        let mut tokens = tokens;
        let mut p_token = tokens.pop();
        let mut commands: Vec<RangeCommand> = Vec::new();
        assert(range_command_views(commands@) =~= Seq::<RangeCommandView>::empty());
        proof {
            assert(Seq::<RangeCommandView>::empty() + Seq::empty() =~= Seq::<RangeCommandView>::empty());
            if all.len() > 0 {
                assert(string_views(tokens@) =~= all.drop_last());
            }
        }
        while p_token.is_some()
            invariant
                match p_token {
                    Some(p) => range_commands_of(all) == after(
                        range_command_views(commands@),
                        parse_from(f, string_views(tokens@), p@),
                    ),
                    None => range_commands_of(all) == Ok::<Seq<RangeCommandView>, Seq<char>>(
                        range_command_views(commands@),
                    ),
                },
            decreases tokens@.len() + if p_token is Some { 1int } else { 0int },
        {
            let p = p_token.unwrap();
            let ghost rest = string_views(tokens@);
            assert(f(p@) == range_command_spec(p@));
            match Self::try_from_string(&p) {
                Ok(command) => {
                    let ghost old_commands = commands@;
                    let ghost cv = command@;
                    commands.push(command);
                    p_token = tokens.pop();
                    proof {
                        assert(range_command_views(commands@) =~= range_command_views(old_commands).push(cv));
                        if rest.len() > 0 {
                            assert(string_views(tokens@) =~= rest.drop_last());
                            assert(p_token->0@ == rest.last());
                        }
                        assert(seq![cv] =~= Seq::<RangeCommandView>::empty().push(cv));
                        let ghost oldv = range_command_views(old_commands);
                        if rest.len() > 0 {
                            match parse_from(f, rest.drop_last(), rest.last()) {
                                Ok(cs) => {
                                    assert(oldv + (seq![cv] + cs) =~= range_command_views(commands@) + cs);
                                },
                                Err(e) => {},
                            }
                        } else {
                            assert(oldv + seq![cv] =~= range_command_views(commands@));
                        }
                        match parse_from(f, rest, p@) {
                            Ok(cs) => {
                            },
                            Err(e) => {
                            },
                        }
                    }
                },
                Err(_) => {
                    match tokens.pop() {
                        Some(added) => {
                            proof {
                                assert(string_views(tokens@) =~= rest.drop_last());
                                assert(added@ == rest.last());
                                assert(f(p@) is None);
                                assert(parse_from(f, rest, p@) == parse_from(f, rest.drop_last(), p@ + rest.last()));
                            }
                            p_token = Some(p.concat(added.as_str()));
                        },
                        None => {
                            return Err(CommandError::Unparsed(p));
                        },
                    }
                },
            }
        }
        Ok(commands)
    }
}

} // verus!
