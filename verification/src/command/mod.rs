//! Vi-style command words: operators and the ranges they act on.
pub mod operator_command;
pub mod range_command;

use crate::text::{chars_of, string_of_char};
use vstd::prelude::*;

verus! {

/// Why a command word could not be read.
#[derive(Clone, PartialEq, Eq, Debug)]
pub enum CommandError {
    /// The word is no command.
    UnknownCommand,
    /// The words left over, joined, that form no command.
    Unparsed(String),
}

/// The texts of a list of strings.
pub open spec fn string_views(v: Seq<String>) -> Seq<Seq<char>> {
    v.map_values(|s: String| s@)
}

/// Reads command words from a list of pieces, taking them from the end: a
/// piece that is no command is joined with the piece before it until it
/// forms one. `f` says which command a text is. The error holds the text
/// left over when the pieces run out.
pub open spec fn parse_from<C>(
    f: spec_fn(Seq<char>) -> Option<C>,
    rest: Seq<Seq<char>>,
    p: Seq<char>,
) -> Result<Seq<C>, Seq<char>>
    decreases rest.len(),
{
    match f(p) {
        Some(c) => {
            if rest.len() == 0 {
                Ok(seq![c])
            } else {
                match parse_from(f, rest.drop_last(), rest.last()) {
                    Ok(cs) => Ok(seq![c] + cs),
                    Err(e) => Err(e),
                }
            }
        },
        None => {
            if rest.len() > 0 {
                parse_from(f, rest.drop_last(), p + rest.last())
            } else {
                Err(p)
            }
        },
    }
}

/// The commands that the pieces `tokens` form, read from the last piece back.
pub open spec fn parse_commands<C>(
    f: spec_fn(Seq<char>) -> Option<C>,
    tokens: Seq<Seq<char>>,
) -> Result<Seq<C>, Seq<char>> {
    if tokens.len() == 0 {
        Ok(Seq::empty())
    } else {
        parse_from(f, tokens.drop_last(), tokens.last())
    }
}

/// `commands` followed by the outcome `r` of reading the rest.
pub open spec fn after<C>(commands: Seq<C>, r: Result<Seq<C>, Seq<char>>) -> Result<Seq<C>, Seq<char>> {
    match r {
        Ok(cs) => Ok(commands + cs),
        Err(e) => Err(e),
    }
}

pub trait Command: Sized {
    /// `r` is what `parse` owes for the pieces `tokens`.
    spec fn parsed(tokens: Seq<Seq<char>>, r: Result<Vec<Self>, CommandError>) -> bool;

    /// Cuts a command string into its characters, one string each.
    fn tokenize(command: String) -> (r: Vec<String>)
        ensures
            r@.len() == command@.len(),
            forall|i: int| 0 <= i < r@.len() ==> #[trigger] r@[i]@ == seq![command@[i]],
    {
        let cs = chars_of(command.as_str());
        let mut r: Vec<String> = Vec::new();
        let mut i: usize = 0;
        while i < cs.len()
            invariant
                i <= cs@.len(),
                cs@ == command@,
                r@.len() == i,
                forall|j: int| 0 <= j < i ==> #[trigger] r@[j]@ == seq![command@[j]],
            decreases cs@.len() - i,
        {
            r.push(string_of_char(cs[i]));
            i = i + 1;
        }
        r
    }

    /// Reads the commands that the pieces form.
    fn parse(tokens: Vec<String>) -> (r: Result<Vec<Self>, CommandError>)
        ensures
            Self::parsed(string_views(tokens@), r),
    ;
}

} // verus!
