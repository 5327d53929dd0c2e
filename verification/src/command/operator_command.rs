//! Operator command words.
use super::{after, parse_commands, parse_from, string_views, Command, CommandError};
use crate::text::chars_of;
use vstd::prelude::*;

verus! {

#[derive(Debug, Copy, Clone, PartialEq, Eq, Structural)]
pub enum OperatorCommand {
    Yank,
    Delete,
    Change,
    Indent,
    UnIndent,
    Uppercase,
    Lowercase,
    ToggleCase,
    Shell,
    Format,
}

/// The operator that the word `s` names, if any.
pub open spec fn operator_command_spec(s: Seq<char>) -> Option<OperatorCommand> {
    if s == seq!['y'] {
        Some(OperatorCommand::Yank)
    } else if s == seq!['d'] {
        Some(OperatorCommand::Delete)
    } else if s == seq!['c'] {
        Some(OperatorCommand::Change)
    } else if s == seq!['>'] {
        Some(OperatorCommand::Indent)
    } else if s == seq!['<'] {
        Some(OperatorCommand::UnIndent)
    } else if s == seq!['g', 'U'] {
        Some(OperatorCommand::Uppercase)
    } else if s == seq!['g', 'u'] {
        Some(OperatorCommand::Lowercase)
    } else if s == seq!['~'] {
        Some(OperatorCommand::ToggleCase)
    } else if s == seq!['!'] {
        Some(OperatorCommand::Shell)
    } else if s == seq!['='] {
        Some(OperatorCommand::Format)
    } else {
        None
    }
}

/// `operator_command_spec` as a function value.
pub open spec fn operator_recognizer() -> spec_fn(Seq<char>) -> Option<OperatorCommand> {
    |s: Seq<char>| operator_command_spec(s)
}

pub open spec fn operator_commands_of(tokens: Seq<Seq<char>>) -> Result<Seq<OperatorCommand>, Seq<char>> {
    parse_commands(operator_recognizer(), tokens)
}

impl OperatorCommand {
    /// Reads the operator that a word names.
    pub fn try_from_string(value: &String) -> (r: Result<OperatorCommand, CommandError>)
        ensures
            match operator_command_spec(value@) {
                Some(c) => r == Ok::<OperatorCommand, CommandError>(c),
                None => r == Err::<OperatorCommand, CommandError>(CommandError::UnknownCommand),
            },
    {
        let cs = chars_of(value.as_str());
        let n = cs.len();
        let c0 = if n >= 1 {
            cs[0]
        } else {
            ' '
        };
        let c1 = if n >= 2 {
            cs[1]
        } else {
            ' '
        };
        proof {
            if n == 1 {
                assert(cs@ =~= seq![c0]);
            }
            if n == 2 {
                assert(cs@ =~= seq![c0, c1]);
            }
        }
        if n == 1 && c0 == 'y' {
            Ok(OperatorCommand::Yank)
        } else if n == 1 && c0 == 'd' {
            Ok(OperatorCommand::Delete)
        } else if n == 1 && c0 == 'c' {
            Ok(OperatorCommand::Change)
        } else if n == 1 && c0 == '>' {
            Ok(OperatorCommand::Indent)
        } else if n == 1 && c0 == '<' {
            Ok(OperatorCommand::UnIndent)
        } else if n == 2 && c0 == 'g' && c1 == 'U' {
            Ok(OperatorCommand::Uppercase)
        } else if n == 2 && c0 == 'g' && c1 == 'u' {
            Ok(OperatorCommand::Lowercase)
        } else if n == 1 && c0 == '~' {
            Ok(OperatorCommand::ToggleCase)
        } else if n == 1 && c0 == '!' {
            Ok(OperatorCommand::Shell)
        } else if n == 1 && c0 == '=' {
            Ok(OperatorCommand::Format)
        } else {
            Err(CommandError::UnknownCommand)
        }
    }
}

impl Command for OperatorCommand {
    open spec fn parsed(tokens: Seq<Seq<char>>, r: Result<Vec<Self>, CommandError>) -> bool {
        match operator_commands_of(tokens) {
            Ok(cs) => r is Ok && r->Ok_0@ == cs,
            Err(e) => r is Err && r->Err_0 is Unparsed && r->Err_0->Unparsed_0@ == e,
        }
    }

    #[verifier::loop_isolation(false)]
    fn parse(tokens: Vec<String>) -> (r: Result<Vec<Self>, CommandError>) {
        let ghost f = operator_recognizer();
        let ghost all = string_views(tokens@);
        let mut tokens = tokens;
        let mut p_token = tokens.pop();
        let mut commands: Vec<OperatorCommand> = Vec::new();
        proof {
            assert(Seq::<OperatorCommand>::empty() + Seq::empty() =~= Seq::<OperatorCommand>::empty());
            if all.len() > 0 {
                assert(string_views(tokens@) =~= all.drop_last());
            }
        }
        while p_token.is_some()
            invariant
                match p_token {
                    Some(p) => operator_commands_of(all) == after(
                        commands@,
                        parse_from(f, string_views(tokens@), p@),
                    ),
                    None => operator_commands_of(all) == Ok::<Seq<OperatorCommand>, Seq<char>>(
                        commands@,
                    ),
                },
            decreases tokens@.len() + if p_token is Some { 1int } else { 0int },
        {
            let p = p_token.unwrap();
            let ghost rest = string_views(tokens@);
            assert(f(p@) == operator_command_spec(p@));
            match Self::try_from_string(&p) {
                Ok(command) => {
                    let ghost old_commands = commands@;
                    commands.push(command);
                    p_token = tokens.pop();
                    proof {
                        if rest.len() > 0 {
                            assert(string_views(tokens@) =~= rest.drop_last());
                            assert(p_token->0@ == rest.last());
                        }
                        assert(seq![command] =~= Seq::<OperatorCommand>::empty().push(command));
                        if rest.len() > 0 {
                            match parse_from(f, rest.drop_last(), rest.last()) {
                                Ok(cs) => {
                                    assert(old_commands + (seq![command] + cs) =~= commands@ + cs);
                                },
                                Err(e) => {},
                            }
                        } else {
                            assert(old_commands + seq![command] =~= commands@);
                        }
                        match parse_from(f, rest, p@) {
                            Ok(cs) => {
                            },
                            Err(e) => {
                            },
                        }
                    }
                },
                Err(_) => {
                    match tokens.pop() {
                        Some(added) => {
                            proof {
                                assert(string_views(tokens@) =~= rest.drop_last());
                                assert(added@ == rest.last());
                                assert(f(p@) is None);
                                assert(parse_from(f, rest, p@) == parse_from(f, rest.drop_last(), p@ + rest.last()));
                            }
                            p_token = Some(p.concat(added.as_str()));
                        },
                        None => {
                            return Err(CommandError::Unparsed(p));
                        },
                    }
                },
            }
        }
        Ok(commands)
    }
}

} // verus!
