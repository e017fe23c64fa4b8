use template_command::file_context::FileContext;
use template_command::file_context::FileEnumeration;

#[test]
pub fn enumerate_expands_with_platform() {
    let mut expected_result: Vec<FileContext> = vec![FileContext::blank(), FileContext::blank()];

    expected_result[0].enumerations = FileEnumeration {
        platform: Some("windows".to_string()),
        language: None,
        user_defined: None,
    };

    expected_result[1].enumerations = FileEnumeration {
        platform: Some("linux".to_string()),
        language: None,
        user_defined: None,
    };

    let platform_list: Vec<String> = vec!["windows".to_string(), "linux".to_string()];

    assert_eq!(
        expected_result,
        FileContext::blank().enumerate(&platform_list, &Vec::new(), &Vec::new())
    );
}

#[test]
pub fn enumerate_expands_with_language() {
    let mut expected_result: Vec<FileContext> = vec![FileContext::blank(), FileContext::blank()];

    expected_result[0].enumerations = FileEnumeration {
        platform: None,
        language: Some("en".to_string()),
        user_defined: None,
    };

    expected_result[1].enumerations = FileEnumeration {
        platform: None,
        language: Some("fr".to_string()),
        user_defined: None,
    };

    let language_list: Vec<String> = vec!["en".to_string(), "fr".to_string()];

    assert_eq!(
        expected_result,
        FileContext::blank().enumerate(&Vec::new(), &language_list, &Vec::new())
    );
}

#[test]
pub fn enumerate_expands_with_user_defines() {
    let mut expected_result: Vec<FileContext> = vec![FileContext::blank(), FileContext::blank()];

    expected_result[0].enumerations = FileEnumeration {
        platform: None,
        language: None,
        user_defined: Some("a".to_string()),
    };

    expected_result[1].enumerations = FileEnumeration {
        platform: None,
        language: None,
        user_defined: Some("b".to_string()),
    };

    let user_list: Vec<String> = vec!["a".to_string(), "b".to_string()];

    assert_eq!(expected_result, FileContext::blank().enumerate(&Vec::new(), &Vec::new(), &user_list));
}

#[test]
pub fn enumerate_expands_with_platform_and_language() {
    let mut expected_result: Vec<FileContext> = Vec::new();
    for _ in 0..4 {
        expected_result.push(FileContext::blank());
    }

    expected_result[0].enumerations = FileEnumeration {
        platform: Some("windows".to_string()),
        language: Some("en".to_string()),
        user_defined: None,
    };

    expected_result[1].enumerations = FileEnumeration {
        platform: Some("windows".to_string()),
        language: Some("fr".to_string()),
        user_defined: None,
    };

    expected_result[2].enumerations = FileEnumeration {
        platform: Some("linux".to_string()),
        language: Some("en".to_string()),
        user_defined: None,
    };

    expected_result[3].enumerations = FileEnumeration {
        platform: Some("linux".to_string()),
        language: Some("fr".to_string()),
        user_defined: None,
    };

    let language_list: Vec<String> = vec!["en".to_string(), "fr".to_string()];
    let platform_list: Vec<String> = vec!["windows".to_string(), "linux".to_string()];

    assert_eq!(
        expected_result,
        FileContext::blank().enumerate(&platform_list, &language_list, &Vec::new())
    );
}

#[test]
pub fn enumerate_expands_with_platform_and_language_and_user_defined() {
    let mut expected_result: Vec<FileContext> = Vec::new();
    for _ in 0..8 {
        expected_result.push(FileContext::blank());
    }
    expected_result[0].enumerations = FileEnumeration {
        platform: Some("windows".to_string()),
        language: Some("en".to_string()),
        user_defined: Some("a".to_string()),
    };

    expected_result[1].enumerations = FileEnumeration {
        platform: Some("windows".to_string()),
        language: Some("en".to_string()),
        user_defined: Some("b".to_string()),
    };

    expected_result[2].enumerations = FileEnumeration {
        platform: Some("windows".to_string()),
        language: Some("fr".to_string()),
        user_defined: Some("a".to_string()),
    };

    expected_result[3].enumerations = FileEnumeration {
        platform: Some("windows".to_string()),
        language: Some("fr".to_string()),
        user_defined: Some("b".to_string()),
    };

    expected_result[4].enumerations = FileEnumeration {
        platform: Some("linux".to_string()),
        language: Some("en".to_string()),
        user_defined: Some("a".to_string()),
    };

    expected_result[5].enumerations = FileEnumeration {
        platform: Some("linux".to_string()),
        language: Some("en".to_string()),
        user_defined: Some("b".to_string()),
    };

    expected_result[6].enumerations = FileEnumeration {
        platform: Some("linux".to_string()),
        language: Some("fr".to_string()),
        user_defined: Some("a".to_string()),
    };

    expected_result[7].enumerations = FileEnumeration {
        platform: Some("linux".to_string()),
        language: Some("fr".to_string()),
        user_defined: Some("b".to_string()),
    };

    let language_list: Vec<String> = vec!["en".to_string(), "fr".to_string()];
    let platform_list: Vec<String> = vec!["windows".to_string(), "linux".to_string()];
    let user_list: Vec<String> = vec!["a".to_string(), "b".to_string()];

    assert_eq!(
        expected_result,
        FileContext::blank().enumerate(&platform_list, &language_list, &user_list)
    );
}

#[test]
pub fn file_context_from_full_file_path_splits_name_and_extension() {
    let context = FileContext::from_full_file_path("/home/projects/widget.cpp").unwrap();

    assert_eq!(context.name, "widget".to_string());
    assert_eq!(context.extension, "cpp".to_string());
    assert_eq!(context.path, "/home/projects/widget.cpp".to_string());

    assert!(FileContext::from_full_file_path("/home/projects/").is_none());
}

#[test]
pub fn name_with_extension_appends_enumerations() {
    let mut context = FileContext::blank();
    context.name = "widget".to_string();
    context.extension = "cpp".to_string();
    context.enumerations.platform = Some("linux".to_string());

    assert_eq!(context.name_with_extension(), "widget_linux.cpp".to_string());
    assert_eq!(context.expand_with_enumerations(), "widget_linux".to_string());
}
