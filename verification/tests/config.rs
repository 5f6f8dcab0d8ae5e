use yapi_ts::config::{
    filter_categories, filter_interfaces, filter_new_interfaces, find_category, find_category_home,
    find_interface, find_project, merge_category_to_project_config, merge_config_projects,
    merge_categories, merge_config_categories, merge_interface_to_project_config, merge_projects,
    merge_yapi_project_to_project_config, search_projects,
    CategoryMenuItem, InterfaceDataItem, SearchRequest, YapiCategory, YapiConfig,
    YapiConfigRequest, YapiInterface, YapiProject, YapiProjectBaseInfo,
};
use yapi_ts::global_config::{
    find_source_path, get_latest_project_source_path, update_project, GlobalConfig,
    GlobalConfigRequest,
};

fn interface(id: &str, name: &str, path: Option<&str>) -> YapiInterface {
    YapiInterface {
        id: id.to_string(),
        name: name.to_string(),
        path: path.map(|p| p.to_string()),
        lock: None,
    }
}

fn category(id: &str, name: &str, interfaces: Vec<YapiInterface>) -> YapiCategory {
    YapiCategory { id: id.to_string(), name: name.to_string(), interfaces }
}

fn project(id: &str, categories: Vec<YapiCategory>) -> YapiProject {
    YapiProject {
        token: format!("token-{}", id),
        project_id: id.to_string(),
        project_name: None,
        categories,
    }
}

fn config(projects: Vec<YapiProject>) -> YapiConfig {
    let mut config = YapiConfig::new();
    config.base_url = "http://yapi/".to_string();
    config.project_list = projects;
    config
}

fn item(id: u32, title: &str) -> InterfaceDataItem {
    InterfaceDataItem { _id: id, catid: 5, title: title.to_string(), path: format!("/p/{}", title) }
}

#[test]
fn new_settings_are_empty() {
    let config = YapiConfig::new();
    assert_eq!(config, YapiConfig::default());
    assert_eq!(config.base_url, "");
    assert_eq!(config.type_import_template, "");
    assert!(config.project_list.is_empty());
}

#[test]
fn request_replaces_only_what_it_holds() {
    let mut settings = config(vec![project("1", vec![])]);
    settings.types_path = "src/types".to_string();
    settings.merge_from_request(YapiConfigRequest {
        base_url: Some("http://other/".to_string()),
        types_path: None,
        request_path: Some("src/api".to_string()),
        request_template: None,
        header_template: Some("// header".to_string()),
        file_name_template: None,
        type_import_template: Some("import $1".to_string()),
    });
    assert_eq!(settings.base_url, "http://other/");
    assert_eq!(settings.types_path, "src/types");
    assert_eq!(settings.request_path, "src/api");
    assert_eq!(settings.request_template, "");
    assert_eq!(settings.header_template, "// header");
    assert_eq!(settings.file_name_template, "");
    assert_eq!(settings.type_import_template, "import $1");
    assert_eq!(settings.project_list, vec![project("1", vec![])]);
}

#[test]
fn finders_give_the_first_position_or_the_length() {
    let projects = vec![
        project("1", vec![category("a", "A", vec![])]),
        project("2", vec![category("b", "B", vec![interface("7", "x", None)]), category("a", "A2", vec![])]),
        project("1", vec![]),
    ];
    assert_eq!(find_project(&projects, "1"), 0);
    assert_eq!(find_project(&projects, "2"), 1);
    assert_eq!(find_project(&projects, "3"), 3);
    assert_eq!(find_category(&projects[1].categories, "a"), 1);
    assert_eq!(find_category(&projects[1].categories, "z"), 2);
    assert_eq!(find_interface(&projects[1].categories[0].interfaces, "7"), 0);
    assert_eq!(find_interface(&projects[1].categories[0].interfaces, "8"), 1);
    assert_eq!(find_category_home(&projects, "a"), 0);
    assert_eq!(find_category_home(&projects, "b"), 1);
    assert_eq!(find_category_home(&projects, "c"), 3);
}

#[test]
fn project_is_recorded_once() {
    let mut settings = config(vec![]);
    let info = YapiProjectBaseInfo { _id: 765, name: "shop".to_string() };
    merge_yapi_project_to_project_config(&mut settings, &info, "secret");
    merge_yapi_project_to_project_config(&mut settings, &info, "other");
    assert_eq!(
        settings.project_list,
        vec![YapiProject {
            token: "secret".to_string(),
            project_id: "765".to_string(),
            project_name: Some("shop".to_string()),
            categories: vec![],
        }]
    );
}

#[test]
fn category_is_recorded_in_its_project_once() {
    let mut settings = config(vec![project("1", vec![]), project("2", vec![])]);
    let menu = CategoryMenuItem { _id: 40, name: "orders".to_string(), interfaces: None };
    merge_category_to_project_config(&menu, &mut settings, "2");
    merge_category_to_project_config(&menu, &mut settings, "2");
    merge_category_to_project_config(&menu, &mut settings, "9");
    assert_eq!(settings.project_list[0].categories, vec![]);
    assert_eq!(settings.project_list[1].categories, vec![category("40", "orders", vec![])]);
}

#[test]
fn interface_is_recorded_in_the_first_category_with_the_identifier() {
    let mut settings = config(vec![
        project("1", vec![category("4", "a", vec![])]),
        project("2", vec![category("5", "b", vec![]), category("5", "b2", vec![])]),
        project("3", vec![category("5", "c", vec![])]),
    ]);
    merge_interface_to_project_config(&item(11, "get"), &mut settings, "5");
    merge_interface_to_project_config(&item(11, "renamed"), &mut settings, "5");
    merge_interface_to_project_config(&item(12, "put"), &mut settings, "6");
    let recorded = YapiInterface {
        id: "11".to_string(),
        name: "get".to_string(),
        path: Some("/p/get".to_string()),
        lock: Some(false),
    };
    assert_eq!(settings.project_list[1].categories[0].interfaces, vec![recorded]);
    assert!(settings.project_list[0].categories[0].interfaces.is_empty());
    assert!(settings.project_list[1].categories[1].interfaces.is_empty());
    assert!(settings.project_list[2].categories[0].interfaces.is_empty());
}

#[test]
fn merging_settings_adds_what_is_missing_and_changes_nothing_else() {
    let mut source = config(vec![project(
        "1",
        vec![category("a", "A", vec![interface("1", "one", None)])],
    )]);
    source.types_path = "keep".to_string();
    let mut other = config(vec![
        project(
            "1",
            vec![
                category("a", "other A", vec![interface("1", "uno", None), interface("2", "two", None), interface("2", "again", None)]),
                category("b", "B", vec![interface("3", "three", None)]),
            ],
        ),
        project("2", vec![category("c", "C", vec![])]),
    ]);
    other.types_path = "drop".to_string();
    merge_config_projects(&mut source, other);
    assert_eq!(source.types_path, "keep");
    assert_eq!(
        source.project_list,
        vec![
            project(
                "1",
                vec![
                    category("a", "A", vec![interface("1", "one", None), interface("2", "two", None)]),
                    category("b", "B", vec![interface("3", "three", None)]),
                ],
            ),
            project("2", vec![category("c", "C", vec![])]),
        ]
    );
}

#[test]
fn search_keeps_interfaces_by_name_or_path() {
    let mut cat = category(
        "a",
        "users",
        vec![
            interface("1", "get order", Some("/api/x")),
            interface("2", "list", Some("/api/order/list")),
            interface("3", "other", None),
            interface("4", "reorder", None),
        ],
    );
    assert!(filter_interfaces(&mut cat, "order"));
    let ids: Vec<&str> = cat.interfaces.iter().map(|i| i.id.as_str()).collect();
    assert_eq!(ids, vec!["1", "2", "4"]);
    assert!(!filter_interfaces(&mut cat, "nothing"));
    assert!(cat.interfaces.is_empty());
}

#[test]
fn search_keeps_a_category_by_its_name_or_by_its_interfaces() {
    let mut shop = project(
        "1",
        vec![
            category("a", "order desk", vec![interface("1", "x", None)]),
            category("b", "users", vec![interface("2", "order list", None), interface("3", "y", None)]),
            category("c", "empty", vec![interface("4", "z", None)]),
        ],
    );
    assert!(filter_categories(&mut shop, "order"));
    assert_eq!(
        shop.categories,
        vec![
            category("a", "order desk", vec![interface("1", "x", None)]),
            category("b", "users", vec![interface("2", "order list", None)]),
        ]
    );
    assert!(!filter_categories(&mut shop, "missing"));
    assert!(shop.categories.is_empty());
}

#[test]
fn only_interfaces_that_are_not_recorded_are_new() {
    let settings = config(vec![project(
        "1",
        vec![category("5", "c", vec![interface("11", "get", None), interface("13", "del", None)])],
    )]);
    let list = vec![item(11, "get"), item(12, "put"), item(13, "del"), item(14, "new")];
    assert_eq!(filter_new_interfaces(list.clone(), &settings, "5"), vec![item(12, "put"), item(14, "new")]);
    assert_eq!(filter_new_interfaces(list.clone(), &settings, "6"), list);
}

#[test]
fn global_settings_start_with_three_seconds_and_five_tasks() {
    let settings = GlobalConfig::default();
    assert_eq!(
        settings,
        GlobalConfig { projects: vec![], break_seconds: 3, rate_limit: 5, proxy: None }
    );
}

#[test]
fn global_request_replaces_only_what_it_holds() {
    let mut settings = GlobalConfig::default();
    settings.projects = vec!["/a".to_string()];
    settings.merge_from_request(GlobalConfigRequest {
        rate_limit: Some(2),
        break_seconds: None,
        proxy: Some("http://proxy".to_string()),
    });
    assert_eq!(
        settings,
        GlobalConfig {
            projects: vec!["/a".to_string()],
            break_seconds: 3,
            rate_limit: 2,
            proxy: Some("http://proxy".to_string()),
        }
    );
    settings.merge_from_request(GlobalConfigRequest { rate_limit: None, break_seconds: Some(9), proxy: None });
    assert_eq!(settings.break_seconds, 9);
    assert_eq!(settings.rate_limit, 2);
    assert_eq!(settings.proxy, Some("http://proxy".to_string()));
}

#[test]
fn latest_project_moves_to_the_front() {
    let mut settings = GlobalConfig::default();
    assert_eq!(get_latest_project_source_path(&settings), None);
    update_project(&"/a".to_string(), &mut settings);
    update_project(&"/b".to_string(), &mut settings);
    update_project(&"/c".to_string(), &mut settings);
    assert_eq!(settings.projects, vec!["/c", "/b", "/a"]);
    update_project(&"/a".to_string(), &mut settings);
    assert_eq!(settings.projects, vec!["/a", "/c", "/b"]);
    update_project(&"/a".to_string(), &mut settings);
    assert_eq!(settings.projects, vec!["/a", "/c", "/b"]);
    assert_eq!(find_source_path(&settings.projects, "/b"), 2);
    assert_eq!(find_source_path(&settings.projects, "/z"), 3);
    assert_eq!(get_latest_project_source_path(&settings), Some("/a".to_string()));
}

#[test]
fn search_without_a_key_keeps_everything() {
    let build = || {
        config(vec![
            project("1", vec![category("a", "orders", vec![interface("1", "x", None)])]),
            project("2", vec![category("b", "users", vec![interface("2", "y", Some("/order"))])]),
            project("3", vec![category("c", "misc", vec![interface("3", "z", None)])]),
        ])
    };
    let mut settings = build();
    search_projects(&mut settings, &SearchRequest { key: None });
    assert_eq!(settings, build());
    search_projects(&mut settings, &SearchRequest { key: Some(String::new()) });
    assert_eq!(settings, build());
    search_projects(&mut settings, &SearchRequest { key: Some("order".to_string()) });
    assert_eq!(
        settings.project_list,
        vec![
            project("1", vec![category("a", "orders", vec![interface("1", "x", None)])]),
            project("2", vec![category("b", "users", vec![interface("2", "y", Some("/order"))])]),
        ]
    );
    assert_eq!(settings.base_url, "http://yapi/");
    search_projects(&mut settings, &SearchRequest { key: Some("nothing".to_string()) });
    assert!(settings.project_list.is_empty());
}

#[test]
fn shallow_merge_adds_missing_categories_and_touches_no_other() {
    let mut old = project(
        "1",
        vec![category("a", "A", vec![interface("1", "one", None)]), category("b", "B", vec![])],
    );
    let new = project(
        "9",
        vec![
            category("a", "other A", vec![interface("2", "two", None)]),
            category("c", "C", vec![interface("3", "three", None)]),
            category("c", "C again", vec![]),
            category("d", "D", vec![]),
        ],
    );
    let before = new.clone();
    merge_categories(&new, &mut old);
    let expected = project(
        "1",
        vec![
            category("a", "A", vec![interface("1", "one", None)]),
            category("b", "B", vec![]),
            category("c", "C", vec![interface("3", "three", None)]),
            category("d", "D", vec![]),
        ],
    );
    assert_eq!(old, expected);
    assert_eq!(new, before);
    merge_categories(&new, &mut old);
    assert_eq!(old, expected);
}

#[test]
fn deep_merge_of_categories_also_merges_interfaces() {
    let mut source = vec![category("a", "A", vec![interface("1", "one", None)])];
    merge_config_categories(
        &mut source,
        vec![category("a", "other", vec![interface("2", "two", None)]), category("b", "B", vec![])],
    );
    assert_eq!(
        source,
        vec![
            category("a", "A", vec![interface("1", "one", None), interface("2", "two", None)]),
            category("b", "B", vec![]),
        ]
    );
}

#[test]
fn project_is_merged_into_the_first_with_its_identifier_or_added() {
    let mut settings = config(vec![
        project("1", vec![category("a", "A", vec![])]),
        project("1", vec![]),
    ]);
    merge_projects(&project("1", vec![category("a", "x", vec![]), category("b", "B", vec![])]), &mut settings);
    merge_projects(&project("2", vec![category("c", "C", vec![])]), &mut settings);
    assert_eq!(
        settings.project_list,
        vec![
            project("1", vec![category("a", "A", vec![]), category("b", "B", vec![])]),
            project("1", vec![]),
            project("2", vec![category("c", "C", vec![])]),
        ]
    );
    assert_eq!(settings.base_url, "http://yapi/");
}

#[test]
fn copies_equal_what_they_copy() {
    let one = project("1", vec![category("a", "A", vec![interface("1", "one", Some("/p"))])]);
    assert_eq!(one.clone(), one);
    assert_eq!(one.categories[0].clone(), one.categories[0]);
    assert_eq!(one.categories[0].interfaces[0].clone(), one.categories[0].interfaces[0]);
}

#[test]
fn second_deep_merge_changes_nothing() {
    let other = || {
        config(vec![
            project(
                "1",
                vec![
                    category("a", "A", vec![interface("1", "one", None), interface("2", "two", None)]),
                    category("a", "A again", vec![interface("3", "three", None)]),
                ],
            ),
            project("2", vec![category("c", "C", vec![interface("4", "four", None)])]),
            project("2", vec![category("d", "D", vec![])]),
        ])
    };
    let mut source = config(vec![project("1", vec![category("a", "mine", vec![])])]);
    merge_config_projects(&mut source, other());
    let once = config(vec![
        project(
            "1",
            vec![category(
                "a",
                "mine",
                vec![interface("1", "one", None), interface("2", "two", None), interface("3", "three", None)],
            )],
        ),
        project(
            "2",
            vec![category("c", "C", vec![interface("4", "four", None)]), category("d", "D", vec![])],
        ),
    ]);
    assert_eq!(source, once);
    merge_config_projects(&mut source, other());
    assert_eq!(source, once);
}

#[test]
fn added_project_with_a_repeated_category_changes_at_the_second_merge() {
    let other = || {
        config(vec![project(
            "1",
            vec![
                category("a", "A", vec![interface("1", "one", None)]),
                category("a", "A", vec![interface("2", "two", None)]),
            ],
        )])
    };
    let mut source = config(vec![]);
    merge_config_projects(&mut source, other());
    assert_eq!(source.project_list, other().project_list);
    merge_config_projects(&mut source, other());
    assert_eq!(
        source.project_list,
        vec![project(
            "1",
            vec![
                category("a", "A", vec![interface("1", "one", None), interface("2", "two", None)]),
                category("a", "A", vec![interface("2", "two", None)]),
            ],
        )]
    );
}

#[test]
fn recording_an_interface_twice_changes_nothing() {
    let mut settings = config(vec![project("1", vec![category("5", "c", vec![])])]);
    merge_interface_to_project_config(&item(11, "get"), &mut settings, "5");
    let once = settings.project_list[0].clone();
    merge_interface_to_project_config(&item(11, "get"), &mut settings, "5");
    assert_eq!(settings.project_list, vec![once]);
}
