use yapi_ts::text::{
    capitalize_first_letter, get_legal_desc, get_legal_name, get_path_arr, get_ts_interface_name,
    same_text, string_to_u8_slice, u32_to_string,
};

#[test]
fn legal_name_keeps_letters_and_digits() {
    assert_eq!(get_legal_name("get-user_list/v2"), "getuserlistv2");
    assert_eq!(get_legal_name("名前name"), "name");
    assert_eq!(get_legal_name(""), "");
    assert_eq!(get_legal_name("{}[]"), "");
}

#[test]
fn legal_desc_drops_line_feeds_only() {
    assert_eq!(get_legal_desc("a\nb\r\nc\n"), "ab\rc");
    assert_eq!(get_legal_desc(""), "");
}

#[test]
fn capitalize_changes_the_first_character_only() {
    assert_eq!(capitalize_first_letter("userList"), "UserList");
    assert_eq!(capitalize_first_letter("User"), "User");
    assert_eq!(capitalize_first_letter("9lives"), "9lives");
    assert_eq!(capitalize_first_letter(""), "");
    assert_eq!(capitalize_first_letter("élan"), "Élan");
    assert_eq!(capitalize_first_letter("ßa"), "SSa");
    assert_eq!(capitalize_first_letter("z"), "Z");
}

#[test]
fn interface_name_joins_name_and_capitalized_key() {
    assert_eq!(get_ts_interface_name("get-user", "response"), "getuserResponse");
    assert_eq!(get_ts_interface_name("Foo", "user_list"), "FooUserlist");
    assert_eq!(get_ts_interface_name("Foo", "_"), "Foo");
}

#[test]
fn path_is_split_at_slashes_without_empty_segments() {
    assert_eq!(get_path_arr("/api//user/get/".to_string()), vec!["api", "user", "get"]);
    assert_eq!(get_path_arr("plain".to_string()), vec!["plain"]);
    assert_eq!(get_path_arr("///".to_string()), Vec::<String>::new());
    assert_eq!(get_path_arr(String::new()), Vec::<String>::new());
}

#[test]
fn numbers_are_written_in_decimal() {
    assert_eq!(u32_to_string(0), "0");
    assert_eq!(u32_to_string(7), "7");
    assert_eq!(u32_to_string(10), "10");
    assert_eq!(u32_to_string(4_294_967_295), "4294967295");
}

#[test]
fn same_text_compares_characters() {
    assert!(same_text("abc", "abc"));
    assert!(!same_text("abc", "abd"));
    assert!(!same_text("abc", "ab"));
}

#[test]
fn bytes_are_the_utf8_encoding() {
    assert_eq!(string_to_u8_slice(&"aé".to_string()), &[0x61, 0xc3, 0xa9]);
    assert_eq!(string_to_u8_slice(&String::new()), &[] as &[u8]);
}
