use template_command::config::lookup_value;
use template_command::config::Config;
use template_command::enumeration_list::EnumerationList;
use template_command::file_harvester::harvest_files_from_dir_as_string;
use template_command::file_harvester::HarvestedFile;
use template_command::file_harvester::HarvestEntry;
use template_command::platform_list::PlatformList;
use template_command::template_file_list::does_template_contain_forced_filename;
use template_command::template_file_list::figure_out_which_template_to_use;

#[test]
fn default_config_holds_the_partner_map() {
    let config = Config::default();

    assert_eq!(config.platform_list, vec!["windows", "linux", "mac_os"]);
    assert_eq!(config.language_list, vec!["en", "fr"]);
    assert_eq!(config.enumeration_list, vec!["a", "b"]);
    assert_eq!(
        lookup_value(&config.partner_file_map, "h"),
        Some("cpp".to_string())
    );
    assert_eq!(
        lookup_value(&config.partner_file_map, "cpp"),
        Some("h".to_string())
    );
    assert_eq!(
        lookup_value(&config.user_variables, "LOOPBACK_ADDR"),
        Some("127.0.0.1".to_string())
    );
    assert_eq!(lookup_value(&config.partner_file_map, "rs"), None);
}

#[test]
fn parse_platforms_reads_letter_runs() {
    let platforms = PlatformList::parse_platforms(&"linux,windows".to_string());

    assert_eq!(platforms, vec!["linux".to_string(), "windows".to_string()]);
}

#[test]
fn parse_platforms_keeps_stray_separator_positions() {
    let platforms = PlatformList::parse_platforms(&"linux,,windows,".to_string());

    assert_eq!(
        platforms,
        vec!["linux".to_string(), "".to_string(), "windows".to_string(), "".to_string()]
    );
}

#[test]
fn parse_enumerations_matches_platform_parsing() {
    let enumerations = EnumerationList::parse_enumerations(&"red,green,blue".to_string());

    assert_eq!(
        enumerations,
        vec!["red".to_string(), "green".to_string(), "blue".to_string()]
    );
}

#[test]
fn template_choice_drops_leading_extensions() {
    let files = vec!["template.ui.qml".to_string(), "template.qml".to_string()];

    let chosen = figure_out_which_template_to_use(
        &vec!["window".to_string(), "ui".to_string(), "qml".to_string()],
        "template.",
        &files,
    );
    assert_eq!(chosen, Some("ui.qml".to_string()));

    let missing = figure_out_which_template_to_use(
        &vec!["window".to_string(), "rs".to_string()],
        "template.",
        &files,
    );
    assert_eq!(missing, None);
}

#[test]
fn forced_filename_comes_from_the_first_token_only() {
    assert_eq!(
        does_template_contain_forced_filename("[]FORCE_FILE_NAME{main.rs}[] rest"),
        Some("main.rs".to_string())
    );
    assert_eq!(
        does_template_contain_forced_filename("[]FILE_NAME[] []FORCE_FILE_NAME{main.rs}[]"),
        None
    );
    assert_eq!(does_template_contain_forced_filename("[]FORCE_FILE_NAME[]"), None);
    assert_eq!(does_template_contain_forced_filename("plain text"), None);
}

#[test]
fn harvested_file_parses_each_path_part() {
    let file = HarvestedFile::from_string("/srv/data/report.ui.qml");

    assert_eq!(file.file_name, Some("report".to_string()));
    assert_eq!(file.extension, Some("ui.qml".to_string()));
    assert_eq!(file.path, Some("/srv/data/report.ui.qml".to_string()));
    assert_eq!(file.to_string(), "report.ui.qml".to_string());

    let bare_dir = HarvestedFile::from_string("/srv/data/");
    assert_eq!(bare_dir.file_name, None);
    assert_eq!(bare_dir.path, Some("/srv/data/".to_string()));
}

#[test]
fn harvest_listing_filters_by_include_list() {
    let entries = vec![
        HarvestEntry { file_name: "a.txt".to_string(), path: "/d/a.txt".to_string(), is_file: true },
        HarvestEntry { file_name: "b.rs".to_string(), path: "/d/b.rs".to_string(), is_file: true },
        HarvestEntry { file_name: "noext".to_string(), path: "/d/noext".to_string(), is_file: true },
        HarvestEntry { file_name: "sub".to_string(), path: "/d/sub".to_string(), is_file: false },
    ];

    let only_txt = harvest_files_from_dir_as_string(&entries, &vec!["txt".to_string()], true);
    assert_eq!(only_txt, "/d/a.txt".to_string() + "atxt\n");

    let all = harvest_files_from_dir_as_string(&entries, &Vec::new(), false);
    assert_eq!(all, "a.txt\nb.rs\n".to_string());

    let by_name = harvest_files_from_dir_as_string(&entries, &vec!["noext".to_string()], false);
    assert_eq!(by_name, ".\n".to_string());
}

#[test]
fn lookup_takes_the_first_of_equal_keys() {
    let map = vec![
        ("h".to_string(), "cpp".to_string()),
        ("h".to_string(), "hpp".to_string()),
    ];

    assert_eq!(lookup_value(&map, "h"), Some("cpp".to_string()));
}
