//! Tokens: what a sequence of keystrokes means in the current mode.
pub mod append_token;
pub mod command_token;
pub mod display_token;
pub mod insert_token;
pub mod normal_token;
pub mod operator_token;
pub mod range_token;

use crate::app::Mode;
use crate::key::KeyEvent;
use vstd::prelude::*;

pub use append_token::{append_key_spec, append_token_spec, AppendToken, AppendTokenView};
pub use command_token::{
    command_key_spec, command_token_spec, CommandToken, CommandTokenView,
};
pub use display_token::{DisplayToken, WindowChange};
pub use insert_token::{insert_key_spec, insert_token_spec, InsertToken, InsertTokenView};
pub use normal_token::{normal_key_spec, normal_token_spec, NormalToken};
pub use operator_token::{operator_key_spec, operator_token_spec, OperatorToken};
pub use range_token::{range_key_spec, range_token_spec, RangeToken, RangeTokenView};

verus! {

/// Why no token could be read.
#[derive(Clone, Copy, PartialEq, Eq, Debug, Structural)]
pub enum TokenError {
    /// The input is not a token of the kind asked for.
    Unknown,
    /// The mode reads no tokens of this form.
    NoTokensFound,
}

#[derive(Clone, PartialEq, Eq, Debug)]
pub enum Token {
    Append(AppendToken),
    Motion(RangeToken),
    Command(CommandToken),
    Insert(InsertToken),
    Normal(NormalToken),
    Operator(OperatorToken),
    Display(DisplayToken),
}

/// A token with its texts as character sequences.
pub ghost enum TokenView {
    Append(AppendTokenView),
    Motion(RangeTokenView),
    Command(CommandTokenView),
    Insert(InsertTokenView),
    Normal(NormalToken),
    Operator(OperatorToken),
    Display(DisplayToken),
}

impl View for Token {
    type V = TokenView;

    open spec fn view(&self) -> TokenView {
        match self {
            Token::Append(t) => TokenView::Append(t@),
            Token::Motion(t) => TokenView::Motion(t@),
            Token::Command(t) => TokenView::Command(t@),
            Token::Insert(t) => TokenView::Insert(t@),
            Token::Normal(t) => TokenView::Normal(*t),
            Token::Operator(t) => TokenView::Operator(*t),
            Token::Display(t) => TokenView::Display(*t),
        }
    }
}

#[derive(Clone, Debug)]
pub struct GetState {}

/// The token that the typed characters `s` form in `mode`, if any. In normal
/// mode a normal-mode token is preferred to an operator, and an operator to a
/// motion.
pub open spec fn token_spec(mode: Mode, s: Seq<char>) -> Option<TokenView> {
    match mode {
        Mode::Normal => {
            if normal_token_spec(s) is Some {
                Some(TokenView::Normal(normal_token_spec(s).unwrap()))
            } else if operator_token_spec(s) is Some {
                Some(TokenView::Operator(operator_token_spec(s).unwrap()))
            } else if range_token_spec(s) is Some {
                Some(TokenView::Motion(range_token_spec(s).unwrap()))
            } else {
                None
            }
        },
        Mode::Command => Some(TokenView::Command(CommandTokenView::Append(s))),
        Mode::Insert => Some(TokenView::Insert(insert_token_spec(s))),
        Mode::Append => Some(TokenView::Append(append_token_spec(s))),
        Mode::Visual => None,
    }
}

/// The tokens read from `input[idx..]` when the characters from `skip` to
/// `idx` are still unread.
pub open spec fn tokens_from(mode: Mode, input: Seq<char>, skip: int, idx: int) -> Seq<TokenView>
    decreases input.len() - idx,
{
    if idx < 0 || idx >= input.len() {
        Seq::empty()
    } else {
        match token_spec(mode, input.subrange(skip, idx + 1)) {
            Some(t) => seq![t] + tokens_from(mode, input, idx + 1, idx + 1),
            None => tokens_from(mode, input, skip, idx + 1),
        }
    }
}

/// The tokens that the typed characters `input` form in `mode`: each token
/// is the shortest run of unread characters that forms one.
pub open spec fn tokens_of(mode: Mode, input: Seq<char>) -> Seq<TokenView> {
    tokens_from(mode, input, 0, 0)
}

/// `cuts` cut `input` into runs that read as `tokens` in `mode`: run `i`
/// goes from `cuts[i]` to `cuts[i + 1]` and forms `tokens[i]`, no shorter
/// run from `cuts[i]` forms a token, and no run from the last cut to any
/// point of `input` forms one.
pub open spec fn shortest_runs(mode: Mode, input: Seq<char>, cuts: Seq<int>, tokens: Seq<TokenView>) -> bool {
    &&& cuts.len() == tokens.len() + 1
    &&& 0 <= cuts[0]
    &&& cuts.last() <= input.len()
    &&& forall|i: int, k: int| 0 <= i < k < cuts.len() ==> #[trigger] cuts[i] < #[trigger] cuts[k]
    &&& forall|i: int|
        0 <= i < tokens.len() ==> token_spec(mode, input.subrange(cuts[i], cuts[i + 1])) == Some(
            #[trigger] tokens[i],
        )
    &&& forall|i: int, j: int|
        0 <= i < tokens.len() && cuts[i] < j < cuts[i + 1] ==> token_spec(
            mode,
            #[trigger] input.subrange(cuts[i], j),
        ) is None
    &&& forall|j: int|
        cuts.last() < j <= input.len() ==> token_spec(mode, #[trigger] input.subrange(cuts.last(), j)) is None
}

/// The runs that the tokens from `skip` on come from, where no run from
/// `skip` up to `idx` forms a token.
proof fn lemma_runs_from(mode: Mode, input: Seq<char>, skip: int, idx: int) -> (cuts: Seq<int>)
    requires
        0 <= skip <= idx <= input.len(),
        forall|j: int| skip < j <= idx ==> token_spec(mode, #[trigger] input.subrange(skip, j)) is None,
    ensures
        cuts[0] == skip,
        shortest_runs(mode, input, cuts, tokens_from(mode, input, skip, idx)),
    decreases input.len() - idx,
{
    if idx >= input.len() {
        let cuts = seq![skip];
        assert(tokens_from(mode, input, skip, idx) =~= Seq::<TokenView>::empty());
        cuts
    } else {
        match token_spec(mode, input.subrange(skip, idx + 1)) {
            Some(t) => {
                let rest = lemma_runs_from(mode, input, idx + 1, idx + 1);
                let cuts = seq![skip] + rest;
                let later = tokens_from(mode, input, idx + 1, idx + 1);
                let tokens = tokens_from(mode, input, skip, idx);
                assert(tokens == seq![t] + later);
                assert forall|i: int, k: int| 0 <= i < k < cuts.len() implies #[trigger] cuts[i] < #[trigger] cuts[k] by {
                    assert(cuts[k] == rest[k - 1]);
                    if i > 0 {
                        assert(cuts[i] == rest[i - 1]);
                    } else {
                        assert(rest[0] <= rest[k - 1]);
                    }
                }
                assert forall|i: int| 0 <= i < tokens.len() implies token_spec(
                    mode,
                    input.subrange(cuts[i], cuts[i + 1]),
                ) == Some(#[trigger] tokens[i]) by {
                    if i > 0 {
                        assert(cuts[i] == rest[i - 1]);
                        assert(cuts[i + 1] == rest[i]);
                        assert(tokens[i] == later[i - 1]);
                    }
                }
                assert forall|i: int, j: int| 0 <= i < tokens.len() && cuts[i] < j < cuts[i + 1] implies token_spec(
                    mode,
                    #[trigger] input.subrange(cuts[i], j),
                ) is None by {
                    if i > 0 {
                        assert(cuts[i] == rest[i - 1]);
                        assert(cuts[i + 1] == rest[i]);
                    }
                }
                assert(cuts.last() == rest.last());
                assert forall|j: int| cuts.last() < j <= input.len() implies token_spec(
                    mode,
                    #[trigger] input.subrange(cuts.last(), j),
                ) is None by {
                    assert(rest.last() < j <= input.len());
                }
                cuts
            },
            None => {
                assert(tokens_from(mode, input, skip, idx) == tokens_from(mode, input, skip, idx + 1));
                lemma_runs_from(mode, input, skip, idx + 1)
            },
        }
    }
}

/// Splitting typed characters into tokens reads them greedily: the input
/// is cut, from its start, into runs each of which is the shortest run from
/// its start that forms a token, and the characters after the last cut
/// form none, however many of them are taken.
pub proof fn law_tokens_are_shortest_runs(mode: Mode, input: Seq<char>)
    ensures
        exists|cuts: Seq<int>| cuts[0] == 0 && #[trigger] shortest_runs(mode, input, cuts, tokens_of(mode, input)),
{
    let cuts = lemma_runs_from(mode, input, 0, 0);
    assert(shortest_runs(mode, input, cuts, tokens_of(mode, input)));
}

pub open spec fn token_views(tokens: Seq<Token>) -> Seq<TokenView> {
    tokens.map_values(|t: Token| t@)
}

/// The token that the characters `s` form in `mode`.
pub fn token_from_slice(mode: &Mode, s: &[char]) -> (r: Option<Token>)
    ensures
        match token_spec(*mode, s@) {
            Some(v) => r is Some && r->0@ == v,
            None => r is None,
        },
{
    match mode {
        Mode::Normal => {
            if let Ok(normal) = NormalToken::try_from_chars(s) {
                Some(Token::Normal(normal))
            } else if let Ok(operator) = OperatorToken::try_from_chars(s) {
                Some(Token::Operator(operator))
            } else if let Ok(motion) = RangeToken::try_from_chars(s) {
                Some(Token::Motion(motion))
            } else {
                None
            }
        },
        Mode::Command => {
            if let Ok(token) = CommandToken::try_from_chars(s) {
                Some(Token::Command(token))
            } else {
                None
            }
        },
        Mode::Insert => {
            if let Ok(token) = InsertToken::try_from_chars(s) {
                Some(Token::Insert(token))
            } else {
                None
            }
        },
        Mode::Append => {
            if let Ok(token) = AppendToken::try_from_chars(s) {
                Some(Token::Append(token))
            } else {
                None
            }
        },
        Mode::Visual => None,
    }
}

/// Splits typed characters into the tokens that they form in `mode`.
pub fn get_tokens_from_chars(mode: &Mode, input: &Vec<char>) -> (tokens: Vec<Token>)
    ensures
        token_views(tokens@) == tokens_of(*mode, input@),
{
    let n = input.len();
    let mut skip_to: usize = 0;
    let mut tokens: Vec<Token> = Vec::new();
    let mut idx: usize = 0;
    while idx < n
        invariant
            n == input@.len(),
            skip_to <= idx <= n,
            token_views(tokens@) + tokens_from(*mode, input@, skip_to as int, idx as int)
                == tokens_of(*mode, input@),
        decreases n - idx,
    {
        let unmatched = &input.as_slice()[skip_to..idx + 1];
        let ghost old_tokens = tokens@;
        match token_from_slice(mode, unmatched) {
            Some(token) => {
                tokens.push(token);
                assert(token_views(tokens@) =~= token_views(old_tokens) + seq![token@]);
                skip_to = idx + 1;
            },
            None => {},
        }
        idx = idx + 1;
    }
    assert(token_views(tokens@) + Seq::<TokenView>::empty() =~= token_views(tokens@));
    tokens
}

/// Reads the whole of `input` as one token: only a command line can be read so.
pub fn get_token_from_chars(mode: &Mode, input: &Vec<char>) -> (r: Result<Token, TokenError>)
    ensures
        match *mode {
            Mode::Command => match command_token_spec(input@) {
                Some(v) => r is Ok && r->Ok_0@ == TokenView::Command(v),
                None => r == Err::<Token, TokenError>(TokenError::Unknown),
            },
            _ => r == Err::<Token, TokenError>(TokenError::NoTokensFound),
        },
{
    match mode {
        Mode::Command => {
            match CommandToken::try_from_vec(input) {
                Ok(t) => Ok(Token::Command(t)),
                Err(e) => Err(e),
            }
        },
        _ => Err(TokenError::NoTokensFound),
    }
}

/// The token that a key press stands for in `mode`, if any.
pub open spec fn key_token_spec(mode: Mode, key: KeyEvent) -> Option<TokenView> {
    match mode {
        Mode::Normal => {
            if normal_key_spec(key) is Some {
                Some(TokenView::Normal(normal_key_spec(key).unwrap()))
            } else if operator_key_spec(key) is Some {
                Some(TokenView::Operator(operator_key_spec(key).unwrap()))
            } else if range_key_spec(key) is Some {
                Some(TokenView::Motion(range_key_spec(key).unwrap()))
            } else {
                None
            }
        },
        Mode::Command => match command_key_spec(key) {
            Some(t) => Some(TokenView::Command(t)),
            None => None,
        },
        Mode::Insert => match insert_key_spec(key) {
            Some(t) => Some(TokenView::Insert(t)),
            None => None,
        },
        Mode::Append => match append_key_spec(key) {
            Some(t) => Some(TokenView::Append(t)),
            None => None,
        },
        Mode::Visual => None,
    }
}

/// Reads the token that a key press stands for in `mode`.
pub fn get_token_from_key(mode: &Mode, event: &KeyEvent) -> (r: Result<Token, TokenError>)
    ensures
        match key_token_spec(*mode, *event) {
            Some(v) => r is Ok && r->Ok_0@ == v,
            None => r == Err::<Token, TokenError>(
                if *mode == Mode::Normal || *mode == Mode::Visual {
                    TokenError::NoTokensFound
                } else {
                    TokenError::Unknown
                },
            ),
        },
{
    match mode {
        Mode::Normal => {
            if let Ok(normal) = NormalToken::try_from_key(event) {
                Ok(Token::Normal(normal))
            } else if let Ok(operator) = OperatorToken::try_from_key(event) {
                Ok(Token::Operator(operator))
            } else if let Ok(motion) = RangeToken::try_from_key(event) {
                Ok(Token::Motion(motion))
            } else {
                Err(TokenError::NoTokensFound)
            }
        },
        Mode::Command => match CommandToken::try_from_key(event) {
            Ok(t) => Ok(Token::Command(t)),
            Err(e) => Err(e),
        },
        Mode::Insert => match InsertToken::try_from_key(event) {
            Ok(t) => Ok(Token::Insert(t)),
            Err(e) => Err(e),
        },
        Mode::Append => match AppendToken::try_from_key(event) {
            Ok(t) => Ok(Token::Append(t)),
            Err(e) => Err(e),
        },
        Mode::Visual => Err(TokenError::NoTokensFound),
    }
}

} // verus!
