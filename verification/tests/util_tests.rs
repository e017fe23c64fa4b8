use template_command::formatter::format_append_and_remove;
use template_command::formatter::string_in_all_caps;
use template_command::formatter::string_in_all_lowercase;
use template_command::formatter::string_in_camel_case;
use template_command::formatter::string_in_kebob_case;
use template_command::formatter::string_in_pascal_case;
use template_command::formatter::string_split_into_spaces;
use template_command::formatter::subtract_ending_off_string;
use template_command::util::extract_extension_from_file_name;
use template_command::util::extract_file_name_and_extension_from_path;
use template_command::util::remove_extensions_from_file_name;
use template_command::util::replace_if_not_none;

#[test]
fn extract_name_and_extension() {
    assert_eq!(extract_file_name_and_extension_from_path("/home/austin/test/"), None);

    assert_eq!(
        extract_file_name_and_extension_from_path("/home/austin/test/foo.txt").unwrap(),
        "foo.txt"
    );
    assert_eq!(extract_file_name_and_extension_from_path("home/foo.txt").unwrap(), "foo.txt");
    assert_eq!(extract_file_name_and_extension_from_path("foo.txt").unwrap(), "foo.txt");
    assert_eq!(extract_file_name_and_extension_from_path("/home/foo.txt").unwrap(), "foo.txt");
    assert_eq!(extract_file_name_and_extension_from_path("/home/foo").unwrap(), "foo");
}

#[test]
fn extension_with_multiple_dots_extracts() {
    assert_eq!(Some(String::from("ui.qml")), extract_extension_from_file_name("file.ui.qml"));
}

#[test]
fn extension_with_single_dot_extracts() {
    assert_eq!(Some(String::from("qml")), extract_extension_from_file_name("file.qml"));
}

#[test]
fn file_name_extraction() {
    assert_eq!(Some(String::from("file")), remove_extensions_from_file_name("file.qml"));
    assert_eq!(Some(String::from("file")), remove_extensions_from_file_name("file.ui.qml"));
}

#[test]
fn replace_if_not_none_picks_the_present_value() {
    assert_eq!("fallback".to_string(), replace_if_not_none("fallback", &None));
    assert_eq!("value".to_string(), replace_if_not_none("fallback", &Some("value".to_string())));
}

#[test]
fn case_transforms_on_a_two_word_name() {
    assert_eq!("BuilderManager".to_string(), string_in_pascal_case("builder_manager"));
    assert_eq!("builderManager".to_string(), string_in_camel_case("builder_manager"));
    assert_eq!("builder-manager".to_string(), string_in_kebob_case("builder_manager"));
    assert_eq!("builder manager".to_string(), string_split_into_spaces("builder_manager"));
}

#[test]
fn whole_string_case_folding() {
    assert_eq!("BUILDER".to_string(), string_in_all_caps("Builder"));
    assert_eq!("builder".to_string(), string_in_all_lowercase("BUILDER"));
    assert_eq!("".to_string(), string_in_all_lowercase(""));
    assert_eq!("builder".to_string(), string_in_camel_case("Builder"));
}

#[test]
fn subtract_ending_requires_a_real_suffix() {
    assert_eq!(Ok("Builder".to_string()), subtract_ending_off_string("BuilderManager", "Manager"));
    assert!(subtract_ending_off_string("Builder", "Manager").is_err());
    assert!(subtract_ending_off_string("Short", "MuchLongerEnding").is_err());
}

#[test]
fn pipeline_subtracts_appends_and_folds() {
    let base = "BuilderManager";

    assert_eq!(
        Some("Builder".to_string()),
        format_append_and_remove(base, &vec!["-Manager".to_string()])
    );
    assert_eq!(
        Some("BuilderObserver".to_string()),
        format_append_and_remove(base, &vec!["-Manager".to_string(), "+Observer".to_string()])
    );
    assert_eq!(
        Some("BUILDEROBSERVER".to_string()),
        format_append_and_remove(
            base,
            &vec!["-Manager".to_string(), "+Observer".to_string(), "caps".to_string()]
        )
    );
}

#[test]
fn pipeline_stops_early_on_a_missing_suffix() {
    assert_eq!(
        Some("Builder".to_string()),
        format_append_and_remove("Builder", &vec!["-Manager".to_string()])
    );
    assert_eq!(
        Some("Builder".to_string()),
        format_append_and_remove("Builder", &vec!["-Manager".to_string(), "caps".to_string()])
    );
}

#[test]
fn pipeline_aborts_on_an_unrecognized_operation() {
    assert_eq!(None, format_append_and_remove("Builder", &vec!["sideways".to_string()]));
    assert_eq!(None, format_append_and_remove("Builder", &vec!["  ".to_string()]));
}

#[test]
fn pipeline_refuses_an_empty_operations_list() {
    assert_eq!(None, format_append_and_remove("Builder", &Vec::new()));
}

#[test]
fn pipeline_operations_are_trimmed() {
    assert_eq!(
        Some("BUILDER".to_string()),
        format_append_and_remove("Builder", &vec![" caps ".to_string()])
    );
}

#[test]
fn case_transforms_leave_empty_text_empty() {
    assert_eq!("".to_string(), string_in_pascal_case(""));
    assert_eq!("".to_string(), string_in_camel_case(""));
    assert_eq!("".to_string(), string_in_all_caps(""));
    assert_eq!("".to_string(), string_in_kebob_case(""));
    assert_eq!("".to_string(), string_split_into_spaces(""));
}
