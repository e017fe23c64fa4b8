use template_command::output_file_description::expand_with_enumerations;
use template_command::output_file_description::expand_with_matching_files;
use template_command::output_file_description::OutputFileDescription;

#[test]
pub fn matching_file_name_generation_c_to_h() {
    let base_output_description = OutputFileDescription {
        name: String::from("my_test_file"),
        extension: String::from("h"),
        enumeration: None,
        platform: None,
        language: None,
    };

    let mut expected_output = vec![base_output_description.clone()];
    let mut expected_matching_file = base_output_description.clone();
    expected_matching_file.extension = String::from("cpp");

    let actual_output = expand_with_matching_files(&expected_output);
    expected_output.push(expected_matching_file);

    assert_eq!(actual_output, expected_output);
}

#[test]
pub fn matching_file_name_generation_h_to_cpp() {
    let base_output_description = OutputFileDescription {
        name: String::from("my_test_file"),
        extension: String::from("cpp"),
        enumeration: None,
        platform: None,
        language: None,
    };

    let mut expected_output = vec![base_output_description.clone()];
    let mut expected_matching_file = base_output_description.clone();
    expected_matching_file.extension = String::from("h");

    let actual_output = expand_with_matching_files(&expected_output);
    expected_output.push(expected_matching_file);

    assert_eq!(actual_output, expected_output);
}

#[test]
pub fn expand_with_enumerations_crosses_all_lists() {
    let base = OutputFileDescription {
        name: String::from("widget"),
        extension: String::from("cpp"),
        enumeration: None,
        platform: None,
        language: None,
    };

    let expanded = expand_with_enumerations(
        &vec![base.clone()],
        &vec!["windows".to_string(), "linux".to_string()],
        &vec!["en".to_string()],
        &Vec::new(),
    );

    assert_eq!(2, expanded.len());
    assert_eq!(expanded[0].platform, Some("windows".to_string()));
    assert_eq!(expanded[0].language, Some("en".to_string()));
    assert_eq!(expanded[1].platform, Some("linux".to_string()));
    assert_eq!(expanded[1].name_with_extension(), "widget_linux_en.cpp".to_string());

    let unchanged = expand_with_enumerations(&vec![base], &Vec::new(), &Vec::new(), &Vec::new());
    assert_eq!(1, unchanged.len());
    assert_eq!(unchanged[0].platform, None);
}
