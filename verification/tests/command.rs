use ri::command::{
    operator_command::OperatorCommand, range_command::RangeCommand, Command, CommandError,
};

#[test]
fn tokenize_cuts_characters() {
    assert_eq!(
        OperatorCommand::tokenize("dgU".to_string()),
        vec!["d".to_string(), "g".to_string(), "U".to_string()]
    );
    assert_eq!(OperatorCommand::tokenize("".to_string()), Vec::<String>::new());
}

#[test]
fn operators_are_read_from_the_end() {
    let tokens = OperatorCommand::tokenize("dy".to_string());
    assert_eq!(
        OperatorCommand::parse(tokens),
        Ok(vec![OperatorCommand::Yank, OperatorCommand::Delete])
    );
}

#[test]
fn unknown_operator_words_are_reported() {
    let tokens = OperatorCommand::tokenize("gU".to_string());
    assert_eq!(OperatorCommand::parse(tokens), Err(CommandError::Unparsed("Ug".to_string())));
    assert_eq!(OperatorCommand::parse(vec![]), Ok(vec![]));
    assert_eq!(
        OperatorCommand::try_from_string(&"x".to_string()),
        Err(CommandError::UnknownCommand)
    );
    assert_eq!(OperatorCommand::try_from_string(&"gu".to_string()), Ok(OperatorCommand::Lowercase));
}

#[test]
fn ranges_are_read() {
    assert_eq!(RangeCommand::try_from_string(&"$".to_string()), Ok(RangeCommand::Last));
    assert_eq!(RangeCommand::try_from_string(&"j".to_string()), Ok(RangeCommand::Up));
    assert_eq!(RangeCommand::try_from_string(&"iw".to_string()), Ok(RangeCommand::InnerWord));
    assert_eq!(
        RangeCommand::try_from_string(&"fa".to_string()),
        Ok(RangeCommand::FindNext("a".to_string()))
    );
    assert_eq!(
        RangeCommand::try_from_string(&"fab".to_string()),
        Err(CommandError::UnknownCommand)
    );
    let tokens = RangeCommand::tokenize("wgg".to_string());
    assert_eq!(
        RangeCommand::parse(tokens),
        Ok(vec![RangeCommand::LastLine, RangeCommand::StartWord])
    );
}
