use template_command::parser::FoundToken;
use template_command::parser::Parser;

#[test]
fn no_token_exists_returns_none() {
    let test_string = "Some text but no token is present. ";

    assert!(Parser::find_all_tokens(test_string).is_empty());
}

#[test]
fn no_token_exists_but_brackets_do() {
    let test_string = "some_array[] { // With a function }";

    assert!(Parser::find_all_tokens(test_string).is_empty());
}

#[test]
fn token_with_no_parameters() {
    let test_string = "[]FILE_NAME_AS_TYPE[]";

    assert_eq!(vec![FoundToken { start: 0, end: 21 }], Parser::find_all_tokens(test_string))
}

#[test]
fn token_with_no_parameters_but_with_curly_brackets() {
    let test_string = "[]FILE_NAME_AS_TYPE{}[]";

    assert_eq!(vec![FoundToken { start: 0, end: 23 }], Parser::find_all_tokens(test_string))
}

#[test]
fn big_test_multiple_tokens() {
    let test_string = r"#include '[]PARTNER_FILE[]'
    []FILE_NAME_AS_TYPE[]::[]FILE_NAME_AS_TYPE[]() {
    }
    []FILE_NAME_AS_TYPE[]::~[]FILE_NAME_AS_TYPE[]() {
    }
    []FILE_NAME_AS_TYPE{-Accessor}[]
    ";

    assert_eq!(6, Parser::find_all_tokens(test_string).len())
}

#[test]
fn token_with_sub_tokens_parses() {
    let test_string = "Some other text before []FOR_EACH_FILE_IN_DIR{qml, h|||
        []FILE_NAME_WITHOUT_EXTENSION[] 1.0 []FILE_NAME[]}[] Some other text after"
        .to_string();

    let found_tokens = Parser::find_all_tokens(&test_string);

    assert_eq!(vec![FoundToken { start: 23, end: 93 + 23 }], found_tokens);
}

#[test]
fn token_with_sub_tokens_and_brackets_parses() {
    let test_string = "Some other text before []FOR_EACH_FILE_IN_DIR{qml, h|||
        []FILE_NAME_WITHOUT_EXTENSION[] {1.0} []FILE_NAME[]}[] Some other text after"
        .to_string();

    let found_tokens = Parser::find_all_tokens(&test_string);

    assert_eq!(vec![FoundToken { start: 23, end: 95 + 23 }], found_tokens);
}

#[test]
fn find_all_spans_are_non_overlapping_and_restartable() {
    let test_string = "a []FILE_NAME[] b []EXTENSION[] c []FILE_NAME[]";

    let spans = Parser::find_all_tokens(test_string);

    assert_eq!(3, spans.len());
    for window in spans.windows(2) {
        assert!(window[0].end <= window[1].start);
    }
    for span in &spans {
        assert!(span.start < span.end && span.end <= test_string.len());
        assert_eq!(&test_string[span.start..span.end], {
            let rest = &test_string[span.start..];
            let first = Parser::find_first_token(rest).unwrap();
            &rest[first.start..first.end]
        });
    }
    let after_first = &test_string[spans[0].end..];
    let second_again = Parser::find_first_token(after_first).unwrap();
    assert_eq!(spans[0].end + second_again.start, spans[1].start);
    assert_eq!(spans[0].end + second_again.end, spans[1].end);
}

#[test]
fn stray_brackets_can_still_close_a_span() {
    // The two halves of a `[]` pair need not be adjacent: a `{` may stand
    // between them, so this bracket salad scans as one (malformed) token.
    let spans = Parser::find_all_tokens("[{]]");

    assert_eq!(spans, vec![FoundToken { start: 0, end: 4 }]);
}

#[test]
fn empty_text_has_no_tokens() {
    assert!(Parser::find_first_token("").is_none());
    assert!(Parser::find_all_tokens("").is_empty());
}
