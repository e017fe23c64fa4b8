use template_command::token::Token;
use template_command::token::TokenVariable;

#[test]
fn token_token_parse_without_variables() {
    let test_text = "FILE_NAME";

    let expected_result = Token { id: "FILE_NAME".to_string(), variables: None };

    assert_eq!(Token::from_string(test_text).unwrap(), expected_result)
}

#[test]
fn token_token_parse_with_variable() {
    let test_text = "FILE_NAME{-_model}";

    let expected_result = Token {
        id: "FILE_NAME".to_string(),
        variables: Some(vec![TokenVariable { variable_list: vec!["-_model".to_string()] }]),
    };

    assert_eq!(Token::from_string(test_text).unwrap(), expected_result)
}

#[test]
fn token_token_parse_with_multiple_variables() {
    let test_text = "FOR_EACH_FILE_IN_DIR{qmldir,qrc|||Some text}";

    let expected_result = Token {
        id: "FOR_EACH_FILE_IN_DIR".to_string(),
        variables: Some(vec![
            TokenVariable { variable_list: vec!["qmldir".to_string(), "qrc".to_string()] },
            TokenVariable { variable_list: vec!["Some text".to_string()] },
        ]),
    };

    assert_eq!(Token::from_string(test_text).unwrap(), expected_result)
}

#[test]
fn token_token_parse_without_variables_but_with_brackets() {
    let test_text = "FILE_NAME{}";

    let expected_result = Token { id: "FILE_NAME".to_string(), variables: None };

    assert_eq!(Token::from_string(test_text).unwrap(), expected_result)
}

#[test]
fn token_rebuild_string_multiple_variables() {
    let test_text = "FOR_EACH_FILE_IN_DIR{qmldir, qrc|||Some, text}";

    let expected_result = "Some, text".to_string();

    assert_eq!(
        Token::from_string(test_text).unwrap().variables.unwrap()[1].rebuild_string(),
        expected_result
    )
}

#[test]
fn token_rebuild_string_single_variable() {
    let test_text = "FOR_EACH_FILE_IN_DIR{qmldir, qrc|||Some}";

    let expected_result = "Some".to_string();

    assert_eq!(
        Token::from_string(test_text).unwrap().variables.unwrap()[1].rebuild_string(),
        expected_result
    )
}

#[test]
fn token_parse_keeps_brace_balance() {
    let token = Token::from_string("NAME{a{b}c}").unwrap();

    assert_eq!(token.id, "NAME".to_string());
    assert_eq!(token.get_variable_as_string(0), "a{b}c".to_string());
}

#[test]
fn token_parse_without_identifier_fails() {
    assert!(Token::from_string("1234 {}").is_err());
}
