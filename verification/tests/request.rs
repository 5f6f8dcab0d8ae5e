use yapi_ts::api::{
    cat_interface_list_url, get_proxy, interface_detail_url, project_base_info_url,
    project_cat_menu_url,
};
use yapi_ts::notification::{Notification, NotificationDesc};
use yapi_ts::request::{
    check_file, get_comment, get_request_ts_string, get_sub_path_unix, op_export_list,
    op_import_list,
};
use yapi_ts::template::{contains, replace, starts_with, to_chars};

#[test]
fn contains_agrees_with_the_standard_search() {
    let cases = [
        ("", ""),
        ("abc", ""),
        ("", "a"),
        ("abc", "abc"),
        ("abc", "bc"),
        ("abc", "abcd"),
        ("aaab", "aab"),
        ("hello wörld", "wör"),
        ("hello", "lo "),
    ];
    for (haystack, needle) in cases {
        assert_eq!(contains(haystack, needle), haystack.contains(needle), "{:?} {:?}", haystack, needle);
    }
}

#[test]
fn starts_with_agrees_with_the_standard_test() {
    for (text, prefix) in [("// a", "//"), ("/ a", "//"), ("", "//"), ("", ""), ("a", ""), ("//", "//")] {
        assert_eq!(starts_with(text, prefix), text.starts_with(prefix));
    }
}

#[test]
fn replace_agrees_with_the_standard_replacement() {
    let cases = [
        ("export const $1 = ($2) => $1", "$1", "getUser"),
        ("aaaa", "aa", "b"),
        ("aaa", "aa", "b"),
        ("abc", "", "-"),
        ("", "", "-"),
        ("", "a", "b"),
        ("a//b///c", "//", "/"),
        ("a\\b\\\\c", "\\", "/"),
        ("abc", "abcd", "x"),
        ("wörld", "ö", "oe"),
        ("abab", "ab", ""),
    ];
    for (text, from, to) in cases {
        assert_eq!(replace(text, from, to), text.replace(from, to), "{:?} {:?} {:?}", text, from, to);
    }
    assert_eq!(replace("$1-$1", "$1", "x"), "x-x");
}

#[test]
fn to_chars_gives_every_character() {
    assert_eq!(to_chars("aö1"), vec!['a', 'ö', '1']);
    assert!(to_chars("").is_empty());
}

#[test]
fn sub_path_is_written_with_single_slashes() {
    assert_eq!(get_sub_path_unix(None), "");
    assert_eq!(get_sub_path_unix(Some("policy")), "/policy");
    assert_eq!(get_sub_path_unix(Some("a\\b\\c")), "/a/b/c");
    assert_eq!(get_sub_path_unix(Some("a//b")), "/a/b");
    assert_eq!(get_sub_path_unix(Some("a\\\\b")), "/a/b");
}

#[test]
fn file_must_name_both_sides() {
    let both = "// user\nexport interface getUserRequest {\n}\n\nexport interface getUserResponse {\n}\n";
    assert!(check_file(both, "getUser"));
    assert!(check_file(both, "get-User"));
    assert!(!check_file("export interface getUserRequest {\n}\n", "getUser"));
    assert!(!check_file(both, "getUsers"));
    assert!(!check_file("", "getUser"));
}

#[test]
fn comment_is_the_first_line_where_it_is_one() {
    assert_eq!(get_comment("// user\nexport interface A {}"), "// user");
    assert_eq!(get_comment("// user\r\nexport"), "// user");
    assert_eq!(get_comment("// only"), "// only");
    assert_eq!(get_comment("// only\r"), "// only\r");
    assert_eq!(get_comment("export interface A {}\n// late"), "");
    assert_eq!(get_comment("\n// second"), "");
    assert_eq!(get_comment(""), "");
    assert_eq!(get_comment("//\n"), "//");
}

#[test]
fn import_line_fills_three_marks() {
    let mut list = vec!["first\n".to_string()];
    op_import_list("import { $1, $2 } from '@/types$3'", Some("policy"), "get-User", &mut list);
    op_import_list("import { $1, $2 } from '@/types$3'", None, "list", &mut list);
    assert_eq!(
        list,
        vec![
            "first\n",
            "import { getUserRequest, getUserResponse } from '@/types/policy/get-User'\n",
            "import { listRequest, listResponse } from '@/types/list'\n",
        ]
    );
}

#[test]
fn export_block_fills_four_marks_below_the_comment() {
    let mut list = Vec::new();
    op_export_list(
        "export const $1 = (params: $2) => request<$3>('/api$4', { data: params });",
        "// get a user",
        Some("a\\b"),
        "getUser",
        &mut list,
    );
    op_export_list("$1 $2 $3 $4", "", None, "x", &mut list);
    assert_eq!(
        list,
        vec![
            "// get a user\nexport const getUser = (params: getUserRequest) => request<getUserResponse>('/api/a/b/getUser', { data: params });\n",
            "\nx xRequest xResponse /x\n",
        ]
    );
}

#[test]
fn request_file_is_header_imports_and_functions() {
    let imports = vec!["import a\n".to_string(), "import b\n".to_string()];
    let exports = vec!["// a\nexport a\n".to_string()];
    assert_eq!(
        get_request_ts_string("// generated", &imports, &exports),
        "// generated\nimport a\nimport b\n// a\nexport a\n"
    );
    assert_eq!(get_request_ts_string("// generated", &Vec::new(), &Vec::new()), "");
    assert_eq!(get_request_ts_string("h", &imports, &Vec::new()), "h\nimport a\nimport b\n");
}

#[test]
fn addresses_are_built_from_the_base_address() {
    assert_eq!(
        interface_detail_url("http://yapi/", "tok", 42),
        "http://yapi/api/interface/get?token=tok&id=42"
    );
    assert_eq!(
        cat_interface_list_url("http://yapi", "tok", 7),
        "http://yapi/api/interface/list_cat?token=tok&catid=7&limit=1000"
    );
    assert_eq!(
        cat_interface_list_url("http://yapi/", "tok", 7),
        "http://yapi/api/interface/list_cat?token=tok&catid=7&limit=1000"
    );
    assert_eq!(
        cat_interface_list_url("", "tok", 0),
        "/api/interface/list_cat?token=tok&catid=0&limit=1000"
    );
    assert_eq!(project_base_info_url("http://yapi/", "tok"), "http://yapi/api/project/get?token=tok");
    assert_eq!(
        project_cat_menu_url("http://yapi/", 765, "tok"),
        "http://yapi/api/interface/getCatMenu?project_id=765&token=tok"
    );
}

#[test]
fn empty_proxy_is_no_proxy() {
    assert_eq!(get_proxy(&None), None);
    assert_eq!(get_proxy(&Some(String::new())), None);
    assert_eq!(get_proxy(&Some("http://p:1".to_string())), Some("http://p:1"));
}

#[test]
fn notification_holds_its_message() {
    let note = Notification::new(NotificationDesc::Error, "failed");
    assert_eq!(note, Notification { message: "failed".to_string(), desc: NotificationDesc::Error });
}
