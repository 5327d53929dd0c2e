use ri::{
    app::Mode,
    key::{KeyCode, KeyEvent},
    token::{
        get_token_from_chars, get_token_from_key, get_tokens_from_chars, AppendToken, CommandToken,
        InsertToken, NormalToken, OperatorToken, RangeToken, Token, TokenError,
    },
};

#[test]
fn get_chars_empty_set() {
    let chars = vec![];
    let tokens = get_tokens_from_chars(&Mode::Normal, &chars);
    assert_eq!(tokens, vec![])
}

#[test]
fn get_chars_invalid_set() {
    let chars = vec!['*', '2', '#'];
    let tokens = get_tokens_from_chars(&Mode::Normal, &chars);
    assert_eq!(tokens, vec![])
}

#[test]
fn get_chars_single_char() {
    let chars = vec!['k'];
    let tokens = get_tokens_from_chars(&Mode::Normal, &chars);
    assert_eq!(tokens, vec![Token::Normal(NormalToken::Up)])
}

#[test]
fn get_chars_delete_till_eol() {
    let chars = vec!['d', '$'];
    let tokens = get_tokens_from_chars(&Mode::Normal, &chars);
    assert_eq!(
        tokens,
        vec![
            Token::Operator(OperatorToken::Delete),
            Token::Normal(NormalToken::Last)
        ]
    )
}

#[test]
fn window_number_waits_for_its_digits() {
    let tokens = get_tokens_from_chars(&Mode::Normal, &vec!['z']);
    assert_eq!(tokens, vec![]);
    let tokens = get_tokens_from_chars(&Mode::Normal, &vec!['z', '3']);
    assert_eq!(tokens, vec![Token::Normal(NormalToken::SetWindow(3))]);
}

#[test]
fn normal_motions_and_operators() {
    let tokens = get_tokens_from_chars(&Mode::Normal, &vec!['j', 'h', 'l', 'w', 'g', '_', '^']);
    assert_eq!(
        tokens,
        vec![
            Token::Normal(NormalToken::Down),
            Token::Normal(NormalToken::Left),
            Token::Normal(NormalToken::Right),
            Token::Normal(NormalToken::StartWord),
            Token::Normal(NormalToken::LastNonBlank),
            Token::Normal(NormalToken::FirstNonBlank),
        ]
    );
    let tokens = get_tokens_from_chars(&Mode::Normal, &vec!['d', 'd', 'y']);
    assert_eq!(
        tokens,
        vec![
            Token::Operator(OperatorToken::Delete),
            Token::Operator(OperatorToken::Delete),
            Token::Operator(OperatorToken::Yank),
        ]
    );
    assert_eq!(NormalToken::try_from_chars(&['d', 'd']), Ok(NormalToken::DeleteLine));
    assert_eq!(NormalToken::try_from_chars(&['y', 'y', 'x']), Ok(NormalToken::YankLine));
    assert_eq!(NormalToken::try_from_chars(&['z']), Err(TokenError::Unknown));
}

#[test]
fn motion_tokens_come_after_normal_and_operator_ones() {
    let tokens = get_tokens_from_chars(&Mode::Normal, &vec!['f', 'x']);
    assert_eq!(tokens, vec![Token::Motion(RangeToken::FindNext("".to_string()))]);
    assert_eq!(
        RangeToken::try_from_chars(&['t', 'a', 'b']),
        Ok(RangeToken::TillNext("ab".to_string()))
    );
    assert_eq!(RangeToken::try_from_chars(&['g', 'g']), Ok(RangeToken::LastLine));
}

#[test]
fn insert_and_append_modes_take_text() {
    let tokens = get_tokens_from_chars(&Mode::Insert, &vec!['a', '\n']);
    assert_eq!(
        tokens,
        vec![Token::Insert(InsertToken::Append("a".to_string())), Token::Insert(InsertToken::Enter)]
    );
    let tokens = get_tokens_from_chars(&Mode::Append, &vec!['b']);
    assert_eq!(tokens, vec![Token::Append(AppendToken::Append("b".to_string()))]);
    let tokens = get_tokens_from_chars(&Mode::Visual, &vec!['b']);
    assert_eq!(tokens, vec![]);
}

#[test]
fn command_mode_takes_each_character() {
    let tokens = get_tokens_from_chars(&Mode::Command, &vec!['w', 'q']);
    assert_eq!(
        tokens,
        vec![
            Token::Command(CommandToken::Append("w".to_string())),
            Token::Command(CommandToken::Append("q".to_string())),
        ]
    );
}

fn command(text: &str) -> Result<Token, TokenError> {
    get_token_from_chars(&Mode::Command, &text.chars().collect())
}

#[test]
fn command_lines() {
    assert_eq!(command(":w"), Ok(Token::Command(CommandToken::Write)));
    assert_eq!(command(":q!"), Ok(Token::Command(CommandToken::Quit)));
    assert_eq!(
        command(":vs notes.txt"),
        Ok(Token::Command(CommandToken::VerticalSplit(Some(" notes.txt".to_string()))))
    );
    assert_eq!(command(":sp"), Ok(Token::Command(CommandToken::Split(Some("".to_string())))));
    assert_eq!(command(": 12 "), Ok(Token::Command(CommandToken::GoToLine(12))));
    assert_eq!(command(":1,5d"), Ok(Token::Command(CommandToken::DeleteLines(1, 5))));
    assert_eq!(command(":2,3y"), Ok(Token::Command(CommandToken::YankLines(2, 3))));
    assert_eq!(command(":1,xd"), Err(TokenError::Unknown));
    assert_eq!(command(":abc"), Ok(Token::Command(CommandToken::Append(":abc".to_string()))));
    assert_eq!(command("hello"), Ok(Token::Command(CommandToken::Append("hello".to_string()))));
    assert_eq!(command("\n"), Ok(Token::Command(CommandToken::Enter)));
    assert_eq!(
        get_token_from_chars(&Mode::Normal, &vec![':', 'w']),
        Err(TokenError::NoTokensFound)
    );
}

fn key(code: KeyCode) -> KeyEvent {
    KeyEvent { code }
}

#[test]
fn key_presses() {
    assert_eq!(
        get_token_from_key(&Mode::Normal, &key(KeyCode::Esc)),
        Ok(Token::Normal(NormalToken::Esc))
    );
    assert_eq!(
        get_token_from_key(&Mode::Normal, &key(KeyCode::Backspace)),
        Ok(Token::Operator(OperatorToken::Remove))
    );
    assert_eq!(
        get_token_from_key(&Mode::Normal, &key(KeyCode::Char('k'))),
        Err(TokenError::NoTokensFound)
    );
    assert_eq!(
        get_token_from_key(&Mode::Command, &key(KeyCode::Enter)),
        Ok(Token::Command(CommandToken::Enter))
    );
    assert_eq!(
        get_token_from_key(&Mode::Command, &key(KeyCode::Char('x'))),
        Err(TokenError::Unknown)
    );
    assert_eq!(
        get_token_from_key(&Mode::Insert, &key(KeyCode::Backspace)),
        Ok(Token::Insert(InsertToken::Remove))
    );
    assert_eq!(
        get_token_from_key(&Mode::Append, &key(KeyCode::Esc)),
        Ok(Token::Append(AppendToken::Esc))
    );
    assert_eq!(
        get_token_from_key(&Mode::Visual, &key(KeyCode::Esc)),
        Err(TokenError::NoTokensFound)
    );
}

#[test]
fn each_token_is_the_shortest_run() {
    let tokens = get_tokens_from_chars(&Mode::Normal, &vec!['z', '1', 'k']);
    assert_eq!(tokens, vec![Token::Normal(NormalToken::SetWindow(1)), Token::Normal(NormalToken::Up)]);
    let tokens = get_tokens_from_chars(&Mode::Normal, &vec!['k', 'z', 'z', '2']);
    assert_eq!(tokens, vec![Token::Normal(NormalToken::Up)]);
}
