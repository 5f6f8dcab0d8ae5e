use yapi_ts::emit::{Declaration, TypeArtifact};
use yapi_ts::error::{CompileError, DecodeError, SchemaError};
use yapi_ts::interface::{compile, get_interface_ts_string, InterfaceData};
use yapi_ts::json::{get_json, Json};
use yapi_ts::schema::{FormType, WebType};

fn descriptor(method: &str, body_type: Option<&str>, other: Option<&str>, res: Option<&str>) -> InterfaceData {
    InterfaceData {
        _id: 7,
        path: "/api/user/getUser".to_string(),
        project_id: 1,
        title: "user".to_string(),
        catid: 3,
        req_body_other: other.map(|s| s.to_string()),
        req_query: None,
        req_params: None,
        req_body_form: None,
        req_body_type: body_type.map(|s| s.to_string()),
        res_body: res.map(|s| s.to_string()),
        method: method.to_string(),
    }
}

#[test]
fn response_schema_with_required_and_integer() {
    let schema = get_json(
        r#"{"type":"object","required":["a"],"properties":{"a":{"type":"string"},"b":{"type":"integer"}}}"#,
    );
    let artifact = compile(FormType::Json, WebType::Response, "Foo", "GET", "foo", &schema).unwrap();
    assert_eq!(
        artifact,
        TypeArtifact {
            description: "foo".to_string(),
            declarations: vec![Declaration {
                name: "FooResponse".to_string(),
                body: "    // 无注释\n    a: string\n    // 无注释\n    b?: number\n".to_string(),
            }],
        }
    );
    assert_eq!(
        artifact.to_ts(),
        "// foo\nexport interface FooResponse {\n    // 无注释\n    a: string\n    // 无注释\n    b?: number\n}\n"
    );
}

#[test]
fn properties_keep_the_order_of_the_text() {
    let schema = get_json(
        r#"{"type":"object","properties":{"zeta":{"type":"string"},"alpha":{"type":"string"},"mid":{"type":"boolean"}}}"#,
    );
    let artifact = compile(FormType::Json, WebType::Response, "Foo", "GET", "foo", &schema).unwrap();
    assert_eq!(
        artifact.declarations[0].body,
        "    // 无注释\n    zeta?: string\n    // 无注释\n    alpha?: string\n    // 无注释\n    mid?: boolean\n"
    );
}

#[test]
fn nested_objects_and_lists_get_their_own_declarations() {
    let schema = get_json(
        r#"{"type":"object","required":["data","pager"],"properties":{
            "code":{"type":"string","description":"code\nof the answer"},
            "data":{"type":"array","description":"rows","items":{"type":"object","required":["id"],"properties":{
                "id":{"type":"integer"},
                "owner":{"type":"object","properties":{"name":{"type":"string"}}}
            }}},
            "pager":{"type":"object","description":"paging","properties":{"page_size":{"type":"number"}}}
        }}"#,
    );
    let artifact = compile(FormType::Json, WebType::Response, "get-list", "GET", "list", &schema).unwrap();
    let names: Vec<&str> = artifact.declarations.iter().map(|d| d.name.as_str()).collect();
    assert_eq!(names, vec!["getlistResponse", "getlistData", "getlistOwner", "getlistPager"]);
    assert_eq!(
        artifact.declarations[0].body,
        "    // codeof the answer\n    code?: string\n    // rows\n    data: getlistData[]\n    // paging\n    pager: getlistPager\n"
    );
    assert_eq!(
        artifact.declarations[1].body,
        "    // 无注释\n    id: number\n    // 无注释\n    owner?: getlistOwner\n"
    );
    assert_eq!(artifact.declarations[2].body, "    // 无注释\n    name?: string\n");
    assert_eq!(artifact.declarations[3].body, "    // 无注释\n    page_size?: number\n");
    assert!(!artifact.declarations[0].body.contains('{'));
}

#[test]
fn same_key_in_two_branches_gives_the_same_declaration_name() {
    let schema = get_json(
        r#"{"type":"object","properties":{
            "a":{"type":"object","properties":{"item":{"type":"object","properties":{"x":{"type":"string"}}}}},
            "b":{"type":"object","properties":{"item":{"type":"object","properties":{"y":{"type":"number"}}}}}
        }}"#,
    );
    let artifact = compile(FormType::Json, WebType::Response, "Foo", "GET", "foo", &schema).unwrap();
    let names: Vec<&str> = artifact.declarations.iter().map(|d| d.name.as_str()).collect();
    assert_eq!(names, vec!["FooResponse", "FooA", "FooItem", "FooB", "FooItem"]);
    assert_ne!(artifact.declarations[2].body, artifact.declarations[4].body);
}

#[test]
fn schema_that_is_no_object_gives_an_empty_root() {
    for text in [r#"{"type":"string"}"#, r#"{"type":"array","items":{"type":"string"}}"#, "[]", "null", "not json", ""] {
        let schema = get_json(text);
        let artifact = compile(FormType::Json, WebType::Response, "Foo", "GET", "foo", &schema).unwrap();
        assert_eq!(artifact.to_ts(), "// foo\nexport interface FooResponse {\n}\n");
    }
}

#[test]
fn field_without_type_is_any() {
    let schema = get_json(r#"{"type":"object","properties":{"a":{},"b":{"type":5},"":{"type":"string"}}}"#);
    let artifact = compile(FormType::Json, WebType::Response, "Foo", "GET", "foo", &schema).unwrap();
    assert_eq!(
        artifact.declarations[0].body,
        "    // 无注释\n    a?: any\n    // 无注释\n    b?: any\n    // 无注释\n    unknownName?: string\n"
    );
}

#[test]
fn object_without_properties_is_a_schema_error() {
    let schema = get_json(r#"{"type":"object"}"#);
    assert_eq!(
        compile(FormType::Json, WebType::Response, "Foo", "GET", "foo", &schema),
        Err(CompileError::Schema(SchemaError::NoProperties))
    );
    let nested = get_json(r#"{"type":"object","properties":{"a":{"type":"object"}}}"#);
    assert_eq!(
        compile(FormType::Json, WebType::Response, "Foo", "GET", "foo", &nested),
        Err(CompileError::Schema(SchemaError::NoProperties))
    );
}

#[test]
fn list_without_items_is_a_schema_error() {
    for text in [
        r#"{"type":"object","properties":{"a":{"type":"array"}}}"#,
        r#"{"type":"object","properties":{"a":{"type":"array","items":"string"}}}"#,
    ] {
        let schema = get_json(text);
        assert_eq!(
            compile(FormType::Json, WebType::Response, "Foo", "GET", "foo", &schema),
            Err(CompileError::Schema(SchemaError::NoItems))
        );
    }
}

#[test]
fn malformed_properties_or_required_is_a_decode_error() {
    let schema = get_json(r#"{"type":"object","properties":[1,2]}"#);
    assert_eq!(
        compile(FormType::Json, WebType::Response, "Foo", "GET", "foo", &schema),
        Err(CompileError::Decode(DecodeError::PropertiesNotObject))
    );
    let schema = get_json(r#"{"type":"object","required":"a","properties":{"a":{"type":"string"}}}"#);
    assert_eq!(
        compile(FormType::Json, WebType::Response, "Foo", "GET", "foo", &schema),
        Err(CompileError::Decode(DecodeError::RequiredNotList))
    );
}

#[test]
fn first_failing_field_decides_the_error() {
    let schema = get_json(
        r#"{"type":"object","properties":{"a":{"type":"array"},"b":{"type":"object"}}}"#,
    );
    assert_eq!(
        compile(FormType::Json, WebType::Response, "Foo", "GET", "foo", &schema),
        Err(CompileError::Schema(SchemaError::NoItems))
    );
}

#[test]
fn compiling_twice_gives_the_same_text() {
    let text = r#"{"type":"object","required":["a"],"properties":{"a":{"type":"string"},"b":{"type":"array","items":{"type":"object","properties":{"c":{"type":"integer"}}}}}}"#;
    let first = compile(FormType::Json, WebType::Response, "Foo", "GET", "foo", &get_json(text)).unwrap();
    let second = compile(FormType::Json, WebType::Response, "Foo", "GET", "foo", &get_json(text)).unwrap();
    assert_eq!(first.to_ts(), second.to_ts());
    let schema = get_json(text);
    assert_eq!(
        compile(FormType::Json, WebType::Response, "Foo", "GET", "foo", &schema),
        compile(FormType::Json, WebType::Response, "Foo", "GET", "foo", &schema.clone())
    );
}

#[test]
fn form_fields_give_one_flat_declaration() {
    let fields = get_json(
        r#"[{"name":"user-id","type":"text","required":"1","desc":"who"},
            {"name":"file","type":"file","required":"0"},
            {"type":"text","required":1},
            {"name":"plain"},
            {"name":"odd","type":7}]"#,
    );
    let artifact = compile(FormType::Form, WebType::Request, "Foo", "POST", "foo", &fields).unwrap();
    assert_eq!(
        artifact.to_ts(),
        "// foo\nexport interface FooRequest {\n    // who\n    userid: string\n    // 无注释\n    file?: any\n    // 无注释\n    unknowName?: string\n    // 无注释\n    plain?: any\n    // 无注释\n    odd?: any\n}\n"
    );
}

#[test]
fn request_is_read_as_schema_only_for_post_with_a_json_body() {
    let schema = get_json(r#"{"type":"object","properties":{"a":{"type":"string"}}}"#);
    let as_schema = compile(FormType::Json, WebType::Request, "Foo", "POST", "foo", &schema).unwrap();
    assert_eq!(as_schema.to_ts(), "// foo\nexport interface FooRequest {\n    // 无注释\n    a?: string\n}\n");
    let as_form = compile(FormType::Json, WebType::Request, "Foo", "GET", "foo", &schema).unwrap();
    assert_eq!(as_form.to_ts(), "// foo\nexport interface FooRequest {\n}\n");
    let post_form = compile(FormType::Form, WebType::Request, "Foo", "POST", "foo", &schema).unwrap();
    assert_eq!(post_form.to_ts(), "// foo\nexport interface FooRequest {\n}\n");
}

#[test]
fn descriptor_compiles_request_then_response() {
    let mut data = descriptor(
        "POST",
        Some("json"),
        Some(r#"{"type":"object","required":["id"],"properties":{"id":{"type":"integer"}}}"#),
        Some(r#"{"type":"object","properties":{"name":{"type":"string","description":"the name"}}}"#),
    );
    assert_eq!(
        get_interface_ts_string(&data).unwrap(),
        "// user\nexport interface getUserRequest {\n    // 无注释\n    id: number\n}\n\n// user\nexport interface getUserResponse {\n    // the name\n    name?: string\n}\n"
    );
    data.req_body_type = None;
    data.req_query = Some(vec![get_json(r#"{"name":"page","type":"text","required":"1","desc":"page"}"#)]);
    assert_eq!(
        get_interface_ts_string(&data).unwrap(),
        "// user\nexport interface getUserRequest {\n    // page\n    page: string\n}\n\n// user\nexport interface getUserResponse {\n    // the name\n    name?: string\n}\n"
    );
}

#[test]
fn form_request_takes_the_first_list_that_is_not_empty() {
    let mut data = descriptor("GET", Some("form"), None, Some("{}"));
    data.req_body_form = Some(vec![]);
    data.req_query = Some(vec![get_json(r#"{"name":"q"}"#)]);
    data.req_params = Some(vec![get_json(r#"{"name":"p"}"#)]);
    let text = get_interface_ts_string(&data).unwrap();
    assert!(text.contains("    q?: any\n"));
    assert!(!text.contains("    p?: any\n"));
    data.req_body_form = Some(vec![get_json(r#"{"name":"f"}"#)]);
    let text = get_interface_ts_string(&data).unwrap();
    assert!(text.contains("    f?: any\n"));
    assert!(!text.contains("    q?: any\n"));
}

#[test]
fn descriptor_without_response_schema_is_a_schema_error() {
    let data = descriptor("GET", None, None, None);
    assert_eq!(get_interface_ts_string(&data), Err(CompileError::Schema(SchemaError::NoResponse)));
    assert_eq!(CompileError::Schema(SchemaError::NoResponse).message(), "response json is none");
}

#[test]
fn path_without_segments_gives_the_fixed_name() {
    let mut data = descriptor("GET", None, None, Some("{}"));
    data.path = "//".to_string();
    assert_eq!(
        get_interface_ts_string(&data).unwrap(),
        "// user\nexport interface unknowFileNameRequest {\n}\n\n// user\nexport interface unknowFileNameResponse {\n}\n"
    );
}

#[test]
fn parser_reads_every_kind_of_value() {
    assert_eq!(
        get_json(r#"{"a":[1,-2.5,"x",true,null],"b":{}}"#),
        Json::Object(vec![
            (
                "a".to_string(),
                Json::Array(vec![
                    Json::Number("1".to_string()),
                    Json::Number("-2.5".to_string()),
                    Json::Text("x".to_string()),
                    Json::Bool(true),
                    Json::Null,
                ])
            ),
            ("b".to_string(), Json::Object(vec![])),
        ])
    );
    assert_eq!(get_json("{"), Json::Null);
    assert_eq!(get_json(r#""{""#), Json::Text("{".to_string()));
}

#[test]
fn lookup_finds_the_first_member() {
    let tree = Json::Object(vec![
        ("k".to_string(), Json::Text("one".to_string())),
        ("k".to_string(), Json::Text("two".to_string())),
    ]);
    assert_eq!(tree.get("k"), Some(&Json::Text("one".to_string())));
    assert_eq!(tree.text_of("k"), Some("one"));
    assert_eq!(tree.get("x"), None);
    assert_eq!(Json::Null.get("k"), None);
    assert_eq!(tree.clone(), tree);
}

#[test]
fn repeated_key_keeps_its_first_place_and_its_last_value() {
    assert_eq!(
        get_json(r#"{"a":1,"b":2,"a":3}"#),
        Json::Object(vec![
            ("a".to_string(), Json::Number("3".to_string())),
            ("b".to_string(), Json::Number("2".to_string())),
        ])
    );
}

#[test]
fn accessors_tell_the_kinds_apart() {
    let list = get_json("[1]");
    let object = get_json(r#"{"k":"v"}"#);
    assert!(list.is_array());
    assert!(!object.is_array());
    assert_eq!(list.as_array(), Some(&vec![Json::Number("1".to_string())]));
    assert_eq!(object.as_array(), None);
    assert_eq!(object.as_object(), Some(&vec![("k".to_string(), Json::Text("v".to_string()))]));
    assert_eq!(list.as_object(), None);
    assert_eq!(Json::Text("t".to_string()).as_str(), Some("t"));
    assert_eq!(list.as_str(), None);
}

#[test]
fn deeply_nested_text_is_read_as_null() {
    let deep = "[".repeat(200) + &"]".repeat(200);
    assert_eq!(get_json(&deep), Json::Null);
    let fine = "[".repeat(100) + &"]".repeat(100);
    assert!(get_json(&fine).is_array());
}
