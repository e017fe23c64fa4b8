use template_command::replacement_token::ReplacementToken;
use template_command::replacement_token::ReplacementVariable;

#[test]
fn replacement_token_token_parse_without_variables() {
    let test_text = "FILE_NAME";

    let expected_result = ReplacementToken { id: "FILE_NAME".to_string(), variables: None };

    assert_eq!(ReplacementToken::from_string(test_text).unwrap(), expected_result)
}

#[test]
fn replacement_token_token_parse_with_variable() {
    let test_text = "FILE_NAME{-_model}";

    let expected_result = ReplacementToken {
        id: "FILE_NAME".to_string(),
        variables: Some(vec![ReplacementVariable { variable_list: vec!["-_model".to_string()] }]),
    };

    assert_eq!(ReplacementToken::from_string(test_text).unwrap(), expected_result)
}

#[test]
fn replacement_token_token_parse_with_multiple_variables() {
    let test_text = "FOR_EACH_FILE_IN_DIR{qmldir, qrc|||Some text}";

    let expected_result = ReplacementToken {
        id: "FOR_EACH_FILE_IN_DIR".to_string(),
        variables: Some(vec![
            ReplacementVariable { variable_list: vec!["qmldir".to_string(), "qrc".to_string()] },
            ReplacementVariable { variable_list: vec!["Some text".to_string()] },
        ]),
    };

    assert_eq!(ReplacementToken::from_string(test_text).unwrap(), expected_result)
}

#[test]
fn replacement_token_token_parse_without_variables_but_with_brackets() {
    let test_text = "FILE_NAME{}";

    let expected_result = ReplacementToken { id: "FILE_NAME".to_string(), variables: None };

    assert_eq!(ReplacementToken::from_string(test_text).unwrap(), expected_result)
}

#[test]
fn replacement_token_rebuild_string_multiple_variables() {
    let test_text = "FOR_EACH_FILE_IN_DIR{qmldir, qrc|||Some, text}";

    let expected_result = "Some, text".to_string();

    assert_eq!(
        ReplacementToken::from_string(test_text).unwrap().variables.unwrap()[1].rebuild_string(),
        expected_result
    )
}

#[test]
fn replacement_token_rebuild_string_single_variable() {
    let test_text = "FOR_EACH_FILE_IN_DIR{qmldir, qrc|||Some}";

    let expected_result = "Some".to_string();

    assert_eq!(
        ReplacementToken::from_string(test_text).unwrap().variables.unwrap()[1].rebuild_string(),
        expected_result
    )
}

#[test]
fn replacement_token_new_wraps_variables() {
    let token = ReplacementToken::new(
        "FILE_NAME".to_string(),
        vec![ReplacementVariable { variable_list: vec!["-_model".to_string()] }],
    );

    assert_eq!(token.id, "FILE_NAME".to_string());
    assert!(token.variables.is_some());
}
