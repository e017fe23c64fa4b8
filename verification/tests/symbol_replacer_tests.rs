use template_command::config::Config;
use template_command::environment::Environment;
use template_command::environment::NowParts;
use template_command::file_context::FileContext;
use template_command::file_harvester::HarvestEntry;
use template_command::symbol_replacer::collect_import_paths;
use template_command::symbol_replacer::create_replacement_value;
use template_command::symbol_replacer::create_replacement_value_with_parent_context;
use template_command::symbol_replacer::file_name_as_type_with_args;
use template_command::symbol_replacer::file_name_with_args;
use template_command::symbol_replacer::replace_sub_symbols;
use template_command::token::Token;
use template_command::token::TokenVariable;

fn test_environment() -> Environment {
    Environment {
        user: "tester".to_string(),
        os: "testos".to_string(),
        device_name: "testbox".to_string(),
        version: "1.2.3".to_string(),
        current_dir_name: Some("projects".to_string()),
        current_path: Some("/home/tester/projects".to_string()),
        now: NowParts { year: 2024, month: 3, day: 7, hour: 9, minute: 5, second: 30 },
        harvest_entries: None,
        harvest_explicit: false,
        imports: Vec::new(),
    }
}

fn widget_context() -> FileContext {
    let mut context = FileContext::blank();
    context.name = "widget".to_string();
    context.extension = "h".to_string();
    context
}

#[test]
fn file_name_as_type_with_subtraction() {
    let expected_string = "Builder".to_string();
    let test_string = "BuilderManager";

    assert_eq!(
        Some(expected_string),
        file_name_as_type_with_args(
            test_string,
            &Token {
                id: "FILE_NAME_AS_TYPE".to_string(),
                variables: Some(vec![TokenVariable {
                    variable_list: vec!["-Manager".to_string()],
                }]),
            }
        )
    );
}

#[test]
fn file_name_as_type_with_illegal_subtraction_returns_original_string() {
    let expected_string = "Builder".to_string();
    let test_string = "Builder";

    assert_eq!(
        Some(expected_string),
        file_name_as_type_with_args(
            test_string,
            &Token {
                id: "FILE_NAME_AS_TYPE".to_string(),
                variables: Some(vec![TokenVariable {
                    variable_list: vec!["-Manager".to_string()],
                }]),
            }
        )
    );
}

#[test]
fn file_name_as_type_with_subtraction_and_case_change() {
    let expected_string = "builder".to_string();
    let test_string = "BuilderManager";

    assert_eq!(
        Some(expected_string),
        file_name_as_type_with_args(
            test_string,
            &Token {
                id: "FILE_NAME_AS_TYPE".to_string(),
                variables: Some(vec![TokenVariable {
                    variable_list: vec!["-Manager".to_string(), "lower".to_string()],
                }]),
            }
        )
    );
}

#[test]
fn file_name_as_type_with_subtraction_and_addition() {
    let expected_string = "BuilderObserver".to_string();
    let test_string = "BuilderManager";

    assert_eq!(
        Some(expected_string),
        file_name_as_type_with_args(
            test_string,
            &Token {
                id: "FILE_NAME_AS_TYPE".to_string(),
                variables: Some(vec![TokenVariable {
                    variable_list: vec!["-Manager".to_string(), "+Observer".to_string()],
                }]),
            }
        )
    );
}

#[test]
fn file_name_as_type_with_subtraction_and_addition_and_case_change() {
    let expected_string = "BUILDEROBSERVER".to_string();
    let test_string = "BuilderManager";

    assert_eq!(
        Some(expected_string),
        file_name_as_type_with_args(
            test_string,
            &Token {
                id: "FILE_NAME_AS_TYPE".to_string(),
                variables: Some(vec![TokenVariable {
                    variable_list: vec![
                        "-Manager".to_string(),
                        "+Observer".to_string(),
                        "caps".to_string(),
                    ],
                }]),
            }
        )
    );
}

#[test]
fn file_name_with_subtraction_and_addition_and_case_change() {
    let expected_string = "BUILDEROBSERVER.h".to_string();
    let test_string = "BuilderManager";

    assert_eq!(
        Some(expected_string),
        file_name_with_args(
            test_string,
            &Token {
                id: "FILE_NAME_AS_TYPE".to_string(),
                variables: Some(vec![TokenVariable {
                    variable_list: vec![
                        "-Manager".to_string(),
                        "+Observer".to_string(),
                        "caps".to_string(),
                    ],
                }]),
            },
            "h"
        )
    );
}

#[test]
fn driver_returns_bracketless_text_unchanged() {
    let text = "no directives stand in this text at all".to_string();

    let result = replace_sub_symbols(&text, &widget_context(), &Config::default(), &test_environment());

    assert_eq!(result, text);
}

#[test]
fn driver_replaces_every_token() {
    let text = "-- []FILE_NAME_WITHOUT_EXTENSION[] :: []EXTENSION[] --".to_string();

    let result = replace_sub_symbols(&text, &widget_context(), &Config::default(), &test_environment());

    assert_eq!(result, "-- widget :: h --".to_string());
}

#[test]
fn partner_file_follows_the_map() {
    let value = create_replacement_value(
        "PARTNER_FILE",
        &widget_context(),
        &Config::default(),
        &test_environment(),
    );

    assert_eq!(value, "widget.cpp".to_string());
}

#[test]
fn partner_file_without_mapping_is_an_error() {
    let mut context = widget_context();
    context.extension = "xyz".to_string();

    let value = create_replacement_value(
        "PARTNER_FILE",
        &context,
        &Config::default(),
        &test_environment(),
    );

    assert_eq!(value, "ERR".to_string());

    context.extension = String::new();
    let value = create_replacement_value(
        "PARTNER_FILE",
        &context,
        &Config::default(),
        &test_environment(),
    );
    assert_eq!(value, "ERR".to_string());
}

#[test]
fn user_var_looks_up_the_configuration() {
    let env = test_environment();
    let config = Config::default();

    assert_eq!(
        create_replacement_value("USER_VAR{VERSION_MANAGEMENT}", &widget_context(), &config, &env),
        "git".to_string()
    );
    assert_eq!(
        create_replacement_value("USER_VAR{NO_SUCH_NAME}", &widget_context(), &config, &env),
        "ERR".to_string()
    );
}

#[test]
fn unknown_directive_is_an_error() {
    assert_eq!(
        create_replacement_value(
            "NOT_A_DIRECTIVE",
            &widget_context(),
            &Config::default(),
            &test_environment()
        ),
        "ERR".to_string()
    );
    assert_eq!(
        create_replacement_value(
            "1234",
            &widget_context(),
            &Config::default(),
            &test_environment()
        ),
        "ERR".to_string()
    );
}

#[test]
fn unsupported_pipeline_operation_is_an_error() {
    assert_eq!(
        create_replacement_value(
            "FILE_NAME_WITHOUT_EXTENSION{sideways}",
            &widget_context(),
            &Config::default(),
            &test_environment()
        ),
        "ERR".to_string()
    );
}

#[test]
fn current_date_and_time_use_the_environment_clock() {
    let env = test_environment();
    let config = Config::default();
    let context = widget_context();

    assert_eq!(
        create_replacement_value("CURRENT_DATE{%Y}", &context, &config, &env),
        "2024".to_string()
    );
    assert_eq!(
        create_replacement_value("CURRENT_DATE", &context, &config, &env),
        "03-07-2024".to_string()
    );
    assert_eq!(
        create_replacement_value("CURRENT_TIME", &context, &config, &env),
        "09:05".to_string()
    );
    assert_eq!(
        create_replacement_value("CURRENT_DATE{%Q}", &context, &config, &env),
        "ERR".to_string()
    );
}

#[test]
fn import_splices_loaded_text_and_misses_fail() {
    let mut env = test_environment();
    env.imports.push(("licence.txt".to_string(), "MIT, see []USER[]".to_string()));
    let config = Config::default();
    let context = widget_context();

    assert_eq!(
        create_replacement_value("IMPORT{licence.txt}", &context, &config, &env),
        "MIT, see []USER[]".to_string()
    );
    assert_eq!(
        create_replacement_value("IMPORT{missing.txt}", &context, &config, &env),
        "ERR".to_string()
    );

    let driven = replace_sub_symbols(
        &"[]IMPORT{licence.txt}[]".to_string(),
        &context,
        &config,
        &env,
    );
    assert_eq!(driven, "MIT, see tester".to_string());
}

#[test]
fn collect_import_paths_lists_every_request() {
    let text = "a []IMPORT{one.txt}[] b []FILE_NAME[] c []IMPORT{two.txt}[]";

    let paths = collect_import_paths(text);

    assert_eq!(paths, vec!["one.txt".to_string(), "two.txt".to_string()]);
}

#[test]
fn banner_boxes_the_message() {
    let value = create_replacement_value(
        "BANNER{*|||Hello}",
        &widget_context(),
        &Config::default(),
        &test_environment(),
    );

    assert_eq!(value, "*********\n* Hello *\n*********\n".to_string());
}

#[test]
fn banner_substitutes_its_message_first() {
    let value = create_replacement_value(
        "BANNER{=|||[]FILE_NAME_WITHOUT_EXTENSION[]}",
        &widget_context(),
        &Config::default(),
        &test_environment(),
    );

    assert_eq!(value, "==========\n= widget =\n==========\n".to_string());
}

#[test]
fn banner_without_a_message_is_an_error() {
    let value = create_replacement_value(
        "BANNER{*}",
        &widget_context(),
        &Config::default(),
        &test_environment(),
    );

    assert_eq!(value, "ERR".to_string());
}

fn harvest_environment() -> Environment {
    let mut env = test_environment();
    env.harvest_entries = Some(vec![
        HarvestEntry { file_name: "a.txt".to_string(), path: "./a.txt".to_string(), is_file: true },
        HarvestEntry { file_name: "b.txt".to_string(), path: "./b.txt".to_string(), is_file: true },
        HarvestEntry { file_name: "sub".to_string(), path: "./sub".to_string(), is_file: false },
    ]);
    env
}

#[test]
fn for_each_file_in_dir_drives_the_body_per_file() {
    let value = create_replacement_value(
        "FOR_EACH_FILE_IN_DIR{txt|||[]FILE_NAME_WITHOUT_EXTENSION[]}",
        &widget_context(),
        &Config::default(),
        &harvest_environment(),
    );

    assert_eq!(value, "a\nb\n".to_string());
}

#[test]
fn each_file_in_dir_lists_the_harvest() {
    let value = create_replacement_value(
        "EACH_FILE_IN_DIR{txt}",
        &widget_context(),
        &Config::default(),
        &harvest_environment(),
    );

    assert_eq!(value, "a.txt\nb.txt\n".to_string());
}

#[test]
fn parent_context_serves_the_harvest_ignore_tokens() {
    let mut inner = FileContext::blank();
    inner.name = "inner".to_string();

    let value = create_replacement_value_with_parent_context(
        "IGNORE_HARVEST_FILE_NAME",
        &inner,
        &widget_context(),
        &Config::default(),
        &test_environment(),
    );

    assert_eq!(value, "widget".to_string());
}

#[test]
fn plain_directives_read_context_and_environment() {
    let env = test_environment();
    let config = Config::default();
    let context = widget_context();

    assert_eq!(create_replacement_value("FILE_NAME", &context, &config, &env), "widget.h");
    assert_eq!(
        create_replacement_value("FILE_NAME_AS_TYPE", &context, &config, &env),
        "Widget"
    );
    assert_eq!(create_replacement_value("EXTENSION", &context, &config, &env), "h");
    assert_eq!(create_replacement_value("DIR", &context, &config, &env), "projects");
    assert_eq!(
        create_replacement_value("PWD", &context, &config, &env),
        "/home/tester/projects"
    );
    assert_eq!(create_replacement_value("PATH", &context, &config, &env), ".");
    assert_eq!(create_replacement_value("USER", &context, &config, &env), "tester");
    assert_eq!(create_replacement_value("OS", &context, &config, &env), "testos");
    assert_eq!(create_replacement_value("DEVICE_NAME", &context, &config, &env), "testbox");
    assert_eq!(create_replacement_value("VERSION", &context, &config, &env), "1.2.3");
}

#[test]
fn enumeration_tokens_read_their_values() {
    let env = test_environment();
    let config = Config::default();
    let mut context = widget_context();
    context.enumerations.platform = Some("linux".to_string());
    context.enumerations.language = Some("fr".to_string());
    context.enumerations.user_defined = Some("b".to_string());

    assert_eq!(create_replacement_value("PLATFORM", &context, &config, &env), "linux");
    assert_eq!(create_replacement_value("LANGUAGE", &context, &config, &env), "fr");
    assert_eq!(create_replacement_value("ENUMERATION", &context, &config, &env), "b");
}

#[test]
fn unresolved_enumeration_tokens_are_errors() {
    let env = test_environment();
    let config = Config::default();
    let context = widget_context();

    assert_eq!(create_replacement_value("PLATFORM", &context, &config, &env), "ERR");
    assert_eq!(create_replacement_value("LANGUAGE", &context, &config, &env), "ERR");
    assert_eq!(create_replacement_value("ENUMERATION", &context, &config, &env), "ERR");

    let driven = replace_sub_symbols(
        &"name: []PLATFORM[].".to_string(),
        &context,
        &config,
        &env,
    );
    assert_eq!(driven, "name: ERR.".to_string());
}

#[test]
fn exhausted_substitution_budget_fails_closed() {
    let env = test_environment();
    let mut config = Config::default();
    config
        .user_variables
        .push(("SELF".to_string(), "[]USER_VAR{SELF}[]".to_string()));

    let driven = replace_sub_symbols(
        &"[]USER_VAR{SELF}[]".to_string(),
        &widget_context(),
        &config,
        &env,
    );

    assert_eq!(driven, "ERR".to_string());
}

#[test]
fn empty_parameter_group_leaves_the_name_alone() {
    let empty_group_token = Token {
        id: "FILE_NAME".to_string(),
        variables: Some(vec![TokenVariable { variable_list: Vec::new() }]),
    };

    assert_eq!(
        file_name_with_args("widget", &empty_group_token, "h"),
        Some("widget.h".to_string())
    );
}

#[test]
fn for_each_without_a_body_is_an_error() {
    let value = create_replacement_value(
        "FOR_EACH_FILE_IN_DIR{txt}",
        &widget_context(),
        &Config::default(),
        &harvest_environment(),
    );

    assert_eq!(value, "ERR".to_string());
}

#[test]
fn harvest_directives_without_a_listing_produce_nothing() {
    let env = test_environment();

    assert_eq!(
        create_replacement_value(
            "FOR_EACH_FILE_IN_DIR{txt|||x}",
            &widget_context(),
            &Config::default(),
            &env
        ),
        "".to_string()
    );
    assert_eq!(
        create_replacement_value(
            "EACH_FILE_IN_DIR{txt}",
            &widget_context(),
            &Config::default(),
            &env
        ),
        "".to_string()
    );
}

#[test]
fn unimplemented_directives_say_so() {
    assert_eq!(
        create_replacement_value(
            "TEMPLATE_VAR{x}",
            &widget_context(),
            &Config::default(),
            &test_environment()
        ),
        "UNIMPLEMENTED".to_string()
    );
}

#[test]
fn current_clock_readings_format() {
    let year = template_command::environment::get_current_date("%Y");
    assert!(year.len() >= 4 && year.chars().all(|c| c.is_ascii_digit()));

    let clock = template_command::environment::get_current_time("%H:%M");
    assert_eq!(clock.len(), 5);
    assert_eq!(clock.as_bytes()[2], b':');
}
