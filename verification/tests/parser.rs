use ri::{
    app::Mode,
    key::{KeyCode, KeyEvent},
    parser::{Parser, UserInput},
    token::{NormalToken, OperatorToken, Token},
};

fn press(parser: &mut Parser, code: KeyCode, mode: Mode) -> Vec<Token> {
    parser.handle_event(UserInput { event: KeyEvent { code } }, &mode)
}

#[test]
fn parser_starts_empty() {
    let parser = Parser::new();
    assert!(parser.token_str.is_empty());
}

#[test]
fn parser_keeps_characters_until_they_form_tokens() {
    let mut parser = Parser::new();
    assert_eq!(press(&mut parser, KeyCode::Char('z'), Mode::Normal), vec![]);
    assert_eq!(parser.token_str, vec!['z']);
    assert_eq!(
        press(&mut parser, KeyCode::Char('2'), Mode::Normal),
        vec![Token::Normal(NormalToken::SetWindow(2))]
    );
    assert!(parser.token_str.is_empty());
}

#[test]
fn parser_reads_keys_that_are_tokens() {
    let mut parser = Parser::new();
    assert_eq!(press(&mut parser, KeyCode::Char('z'), Mode::Normal), vec![]);
    assert_eq!(
        press(&mut parser, KeyCode::Backspace, Mode::Normal),
        vec![Token::Operator(OperatorToken::Remove)]
    );
    assert_eq!(parser.token_str, vec!['z']);
    assert_eq!(press(&mut parser, KeyCode::Other, Mode::Normal), vec![]);
    assert_eq!(parser.token_str, vec!['z']);
}
