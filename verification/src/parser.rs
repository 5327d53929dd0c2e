//! Turns key presses into tokens, keeping typed characters until they form one.
use crate::app::Mode;
use crate::key::{KeyCode, KeyEvent};
use crate::token::{
    get_token_from_key, get_tokens_from_chars, key_token_spec, token_views, tokens_of, Token,
    TokenView,
};
use vstd::prelude::*;

verus! {

pub struct Parser {
    /// The typed characters that do not form a token yet.
    pub token_str: Vec<char>,
}

pub struct UserInput {
    pub event: KeyEvent,
}

impl Parser {
    pub fn new() -> (p: Self)
        ensures
            p.token_str@ == Seq::<char>::empty(),
    {
        Self { token_str: Vec::new() }
    }

    /// Reads a key press in `mode`. A key that stands for a token by itself
    /// gives that token. A typed character is added to the pending ones; when
    /// they form tokens, those are returned and the pending characters are
    /// dropped. Otherwise no token comes out.
    pub fn handle_event(&mut self, msg: UserInput, mode: &Mode) -> (tokens: Vec<Token>)
        ensures
            match key_token_spec(*mode, msg.event) {
                Some(t) => {
                    &&& token_views(tokens@) == seq![t]
                    &&& final(self).token_str@ == old(self).token_str@
                },
                None => match msg.event.code {
                    KeyCode::Char(c) => {
                        let typed = old(self).token_str@.push(c);
                        if tokens_of(*mode, typed).len() > 0 {
                            &&& token_views(tokens@) == tokens_of(*mode, typed)
                            &&& final(self).token_str@ == Seq::<char>::empty()
                        } else {
                            &&& tokens@.len() == 0
                            &&& final(self).token_str@ == typed
                        }
                    },
                    _ => {
                        &&& tokens@.len() == 0
                        &&& final(self).token_str@ == old(self).token_str@
                    },
                },
            },
    {
        let event = msg.event;
        if let Ok(token) = get_token_from_key(mode, &event) {
            let mut v: Vec<Token> = Vec::new();
            v.push(token);
            proof {
                assert(token_views(v@) =~= seq![token@]);
            }
            return v;
        } else if let KeyCode::Char(c) = event.code {
            self.token_str.push(c);
            let tokens = get_tokens_from_chars(mode, &self.token_str);
            if tokens.len() > 0 {
                self.token_str.truncate(0);
                assert(self.token_str@ =~= Seq::<char>::empty());
                return tokens;
            }
            proof {
                assert(token_views(tokens@).len() == tokens@.len());
            }
        }
        Vec::new()
    }
}

} // verus!
