//! Reading a JSON schema into a schema tree.

use crate::error::{CompileError, DecodeError, SchemaError};
use crate::form_resolver::{form_interface_name, side_suffix};
use crate::interface::{base_name, get_model_interface_name, InterfaceData};
use crate::json::{item_models, member, member_models, option_model, Json, JsonModel};
use crate::emit::{
    array_mark, artifact_text, declarations, declarations_below, field_text, fields_text,
    lemma_nested_holds_below, lemma_no_inline_nesting, nested_declarations, root_artifact,
    root_declarations, slot_value, ArtifactModel, DeclarationModel, TypeArtifact,
};
use crate::schema::{
    node_models, value_models, Atom, JsonType, JsonValue, Node, ObjectLike, ObjectType, Root,
    RootModel, SchemaNode, WebType,
};
use crate::text::{
    all_legal, capitalized, get_legal_desc, legal_desc, lemma_interface_name_is_legal,
    lemma_legal_name_keeps_legal, same_text, ts_interface_name,
};
use vstd::prelude::*;

verus! {

/// What the `type` member of a schema declares: `Unknown` where there is none
/// or it is no string.
pub open spec fn json_type(schema: JsonModel) -> JsonType {
    match schema.text_of("type"@) {
        Some(t) => if t == "object"@ {
            JsonType::Object
        } else if t == "array"@ {
            JsonType::Array
        } else {
            JsonType::Atom
        },
        None => JsonType::Unknown,
    }
}

/// The declared type of a field: the text of its `type` member, `any` where
/// there is none.
pub open spec fn ts_type(schema: JsonModel) -> Seq<char> {
    match schema.text_of("type"@) {
        Some(t) => t,
        None => "any"@,
    }
}

/// The text that stands in for a description that is missing.
pub open spec fn no_comment() -> Seq<char> {
    "无注释"@
}

/// The description under `key`, without line feeds; the stand-in where there
/// is none.
pub open spec fn desc_of(value: JsonModel, key: Seq<char>) -> Seq<char> {
    match value.text_of(key) {
        Some(d) => legal_desc(d),
        None => no_comment(),
    }
}

/// The key under which a field is written.
pub open spec fn field_name(raw: Seq<char>) -> Seq<char> {
    if raw.len() == 0 {
        "unknownName"@
    } else {
        raw
    }
}

/// Whether `key` is one of the strings of the list `required`.
pub open spec fn is_required_in(key: Seq<char>, required: Option<JsonModel>) -> bool {
    match required {
        Some(JsonModel::Array(items)) => items.contains(JsonModel::Text(key)),
        _ => false,
    }
}

/// The key of a field; empty for a node that is none.
pub open spec fn node_key(v: SchemaNode) -> Seq<char> {
    match v {
        SchemaNode::Atom { key, .. } => key,
        SchemaNode::ObjectLike { key, .. } => key,
        SchemaNode::Node { key, .. } => key,
        SchemaNode::Empty => Seq::empty(),
    }
}

/// Whether a field must be present; `false` for a node that is none.
pub open spec fn node_required(v: SchemaNode) -> bool {
    match v {
        SchemaNode::Atom { required, .. } => required,
        SchemaNode::ObjectLike { required, .. } => required,
        SchemaNode::Node { required, .. } => required,
        SchemaNode::Empty => false,
    }
}

/// The description of a field; empty for a node that is none.
pub open spec fn node_description(v: SchemaNode) -> Seq<char> {
    match v {
        SchemaNode::Atom { description, .. } => description,
        SchemaNode::ObjectLike { description, .. } => description,
        SchemaNode::Node { description, .. } => description,
        SchemaNode::Empty => Seq::empty(),
    }
}

/// A field as a named slot of the interface `root_name`.
pub open spec fn slot(v: SchemaNode, root_name: Seq<char>) -> SchemaNode {
    SchemaNode::Node {
        root_name,
        key: node_key(v),
        value: Box::new(v),
        required: node_required(v),
        description: node_description(v),
    }
}

/// Each field as a named slot.
pub open spec fn slots(values: Seq<SchemaNode>, root_name: Seq<char>) -> Seq<SchemaNode> {
    Seq::new(values.len(), |i: int| slot(values[i], root_name))
}

/// A member of an object is smaller than the object.
pub proof fn lemma_member_decreases(members: Seq<(Seq<char>, JsonModel)>, key: Seq<char>)
    ensures
        member(members, key) matches Some(v) ==> decreases_to!(members => v),
    decreases members.len(),
{
    if members.len() > 0 && members[0].0 != key {
        lemma_member_decreases(members.drop_first(), key);
    }
}

/// The fields that a schema describes through its `properties`, in the order
/// in which they are written there. A schema of type `object` must have them;
/// `properties` must be an object and `required`, where there is one, a list.
pub open spec fn schema_fields(schema: JsonModel, root_name: Seq<char>) -> Result<
    Seq<SchemaNode>,
    CompileError,
>
    decreases schema, 1nat,
{
    match schema {
        JsonModel::Object(all) => match member(all, "properties"@) {
            None => if json_type(schema) == JsonType::Object {
                Err(CompileError::Schema(SchemaError::NoProperties))
            } else {
                Ok(Seq::empty())
            },
            Some(JsonModel::Object(members)) => {
                let required = member(all, "required"@);
                if required is Some && !(required->0 is Array) {
                    Err(CompileError::Decode(DecodeError::RequiredNotList))
                } else {
                    proof {
                        lemma_member_decreases(all, "properties"@);
                    }
                    member_fields(members, required, root_name)
                }
            },
            Some(_) => Err(CompileError::Decode(DecodeError::PropertiesNotObject)),
        },
        _ => Ok(Seq::empty()),
    }
}

/// The fields for the members of a `properties` object, up to the first that
/// fails.
pub open spec fn member_fields(
    members: Seq<(Seq<char>, JsonModel)>,
    required: Option<JsonModel>,
    root_name: Seq<char>,
) -> Result<Seq<SchemaNode>, CompileError>
    decreases members, 0nat,
{
    if members.len() == 0 {
        Ok(Seq::empty())
    } else {
        match member_fields(members.drop_last(), required, root_name) {
            Err(e) => Err(e),
            Ok(before) => match field_value(
                members.last().0,
                members.last().1,
                is_required_in(members.last().0, required),
                root_name,
            ) {
                Err(e) => Err(e),
                Ok(v) => Ok(before.push(v)),
            },
        }
    }
}

/// The field that the member `key` with the schema `schema` describes: an
/// object with the fields of its own `properties`, a list with those of its
/// `items`, which must be an object, and any other as a plain type.
pub open spec fn field_value(
    key: Seq<char>,
    schema: JsonModel,
    required: bool,
    root_name: Seq<char>,
) -> Result<SchemaNode, CompileError>
    decreases schema, 2nat,
{
    let description = desc_of(schema, "description"@);
    match json_type(schema) {
        JsonType::Object => match schema_fields(schema, root_name) {
            Err(e) => Err(e),
            Ok(fields) => Ok(
                SchemaNode::ObjectLike {
                    root_name,
                    key: field_name(key),
                    required,
                    description,
                    shape: ObjectType::Object,
                    children: slots(fields, root_name),
                },
            ),
        },
        JsonType::Array => match schema {
            JsonModel::Object(all) => match member(all, "items"@) {
                Some(JsonModel::Object(inner)) => {
                    proof {
                        lemma_member_decreases(all, "items"@);
                    }
                    match schema_fields(JsonModel::Object(inner), root_name) {
                        Err(e) => Err(e),
                        Ok(fields) => Ok(
                            SchemaNode::ObjectLike {
                                root_name,
                                key: field_name(key),
                                required,
                                description,
                                shape: ObjectType::Array,
                                children: slots(fields, root_name),
                            },
                        ),
                    }
                },
                _ => Err(CompileError::Schema(SchemaError::NoItems)),
            },
            _ => Err(CompileError::Schema(SchemaError::NoItems)),
        },
        _ => Ok(
            SchemaNode::Atom {
                declared_type: ts_type(schema),
                required,
                key: field_name(key),
                description,
            },
        ),
    }
}

/// The fields of a `properties` object stand one for each member, in the
/// members' order, and each is the field that its member describes.
pub proof fn lemma_member_fields_pointwise(
    members: Seq<(Seq<char>, JsonModel)>,
    required: Option<JsonModel>,
    root_name: Seq<char>,
)
    requires
        member_fields(members, required, root_name) is Ok,
    ensures
        member_fields(members, required, root_name)->Ok_0.len() == members.len(),
        forall|i: int|
            0 <= i < members.len() ==> field_value(
                (#[trigger] members[i]).0,
                members[i].1,
                is_required_in(members[i].0, required),
                root_name,
            ) == Ok::<SchemaNode, CompileError>(
                member_fields(members, required, root_name)->Ok_0[i],
            ),
    decreases members.len(),
{
    if members.len() > 0 {
        let rest = members.drop_last();
        lemma_member_fields_pointwise(rest, required, root_name);
        assert forall|i: int| 0 <= i < members.len() implies field_value(
            (#[trigger] members[i]).0,
            members[i].1,
            is_required_in(members[i].0, required),
            root_name,
        ) == Ok::<SchemaNode, CompileError>(
            member_fields(members, required, root_name)->Ok_0[i],
        ) by {
            if i < rest.len() {
                assert(rest[i] == members[i]);
            }
        }
    }
}

/// The shape of the field for a schema of type `array` or `object`.
pub open spec fn nested_shape(schema: JsonModel) -> ObjectType {
    if json_type(schema) == JsonType::Array {
        ObjectType::Array
    } else {
        ObjectType::Object
    }
}

/// A member whose schema is of type `object` or `array` is read as an object
/// or a list of the interface, under its key.
pub proof fn lemma_nested_member(
    key: Seq<char>,
    schema: JsonModel,
    required: bool,
    root_name: Seq<char>,
)
    requires
        json_type(schema) == JsonType::Object || json_type(schema) == JsonType::Array,
        field_value(key, schema, required, root_name) is Ok,
    ensures
        field_value(key, schema, required, root_name)->Ok_0 matches SchemaNode::ObjectLike {
            root_name: name,
            key: k,
            required: r,
            description: d,
            shape,
            ..
        } && name == root_name && k == field_name(key) && r == required && d == desc_of(
            schema,
            "description"@,
        ) && shape == nested_shape(schema),
{
}

/// No inline nesting, from the schema: where a schema of type `object`
/// compiles, a property of type `object` or `array` stands in the body of
/// the root's declaration as its comment, its key and the name of a
/// declaration, followed by `[]` for a list. That name is made of the
/// interface's name and the key, holds ASCII letters and digits only, and a
/// declaration with that name follows the root's.
pub proof fn lemma_schema_no_inline_nesting(
    web_type: WebType,
    interface_name: Seq<char>,
    interface_desc: Seq<char>,
    schema: JsonModel,
    i: int,
)
    requires
        json_type(schema) == JsonType::Object,
        json_artifact(web_type, interface_name, interface_desc, schema) is Ok,
        schema.get("properties"@) matches Some(JsonModel::Object(members)) && 0 <= i
            < members.len() && (json_type(members[i].1) == JsonType::Object || json_type(
            members[i].1,
        ) == JsonType::Array),
    ensures
        ({
            let members = schema.get("properties"@)->Some_0->Object_0;
            let declarations = json_artifact(
                web_type,
                interface_name,
                interface_desc,
                schema,
            )->Ok_0.declarations;
            let fields = schema_fields(schema, interface_name)->Ok_0;
            let referred = ts_interface_name(interface_name, field_name(members[i].0));
            &&& schema_fields(schema, interface_name) is Ok
            &&& fields.len() == members.len()
            &&& declarations[0].name == form_interface_name(web_type, interface_name)
            &&& declarations[0].body == fields_text(fields.take(i)) + field_text(
                desc_of(members[i].1, "description"@),
                field_name(members[i].0),
                is_required_in(members[i].0, schema.get("required"@)),
                referred + array_mark(nested_shape(members[i].1)),
            ) + fields_text(fields.skip(i + 1))
            &&& all_legal(referred)
            &&& exists|k: int|
                1 <= k < declarations.len() && (#[trigger] declarations[k]).name == referred
        }),
{
    let members = schema.get("properties"@)->Some_0->Object_0;
    let required = schema.get("required"@);
    let fields = schema_fields(schema, interface_name)->Ok_0;
    let name = ts_interface_name(interface_name, root_key(web_type));
    assert(schema_fields(schema, interface_name) == member_fields(
        members,
        required,
        interface_name,
    ));
    lemma_member_fields_pointwise(members, required, interface_name);
    lemma_nested_member(
        members[i].0,
        members[i].1,
        is_required_in(members[i].0, required),
        interface_name,
    );
    lemma_root_name(web_type, interface_name);
    lemma_no_inline_nesting(fields, name, i);
    let all = declarations(fields, name);
    let object = fields[i];
    let referred = ts_interface_name(interface_name, field_name(members[i].0));
    let first = DeclarationModel { name: referred, body: fields_text(object->children) };
    assert(json_artifact(web_type, interface_name, interface_desc, schema)->Ok_0.declarations
        == all);
    assert(all[0].body == fields_text(fields));
    assert(all[0].name == form_interface_name(web_type, interface_name));
    assert(slot_value(object) == object);
    lemma_interface_name_is_legal(interface_name, field_name(members[i].0));
    assert(declarations_below(object)[0] == first);
    lemma_nested_holds_below(fields, i);
    let nested = nested_declarations(fields);
    let n = choose|n: int| 0 <= n < nested.len() && nested[n] == first;
    assert(all[n + 1] == first);
}

/// The key of the root for either side.
pub open spec fn root_key(web_type: WebType) -> Seq<char> {
    if web_type == WebType::Request {
        "request"@
    } else {
        "response"@
    }
}

/// The root's declaration is named after the interface and the side: the
/// interface's name without its illegal characters, then `Request` or
/// `Response`.
pub proof fn lemma_root_name(web_type: WebType, interface_name: Seq<char>)
    ensures
        ts_interface_name(interface_name, root_key(web_type)) == form_interface_name(
            web_type,
            interface_name,
        ),
{
    reveal_strlit("request");
    reveal_strlit("response");
    reveal_strlit("Request");
    reveal_strlit("Response");
    let key = root_key(web_type);
    assert(all_legal(key));
    lemma_legal_name_keeps_legal(key);
    assert(capitalized(key) =~= side_suffix(web_type));
}

/// The root for a schema: with the fields of the schema where its type is
/// `object`, without a list of fields for any other schema.
pub open spec fn schema_root(
    web_type: WebType,
    interface_name: Seq<char>,
    interface_desc: Seq<char>,
    schema: JsonModel,
) -> Result<RootModel, CompileError> {
    if json_type(schema) == JsonType::Object {
        match schema_fields(schema, interface_name) {
            Err(e) => Err(e),
            Ok(fields) => Ok(
                RootModel {
                    interface_name,
                    interface_desc,
                    key: root_key(web_type),
                    children: Some(fields),
                },
            ),
        }
    } else {
        Ok(RootModel { interface_name, interface_desc, key: root_key(web_type), children: None })
    }
}

/// Reads what the `type` member of a schema declares.
pub fn get_json_type(value: &Json) -> (r: JsonType)
    ensures
        r == json_type(value@),
{
    match value.text_of("type") {
        Some(type_string) => {
            if same_text(type_string, "object") {
                JsonType::Object
            } else if same_text(type_string, "array") {
                JsonType::Array
            } else {
                JsonType::Atom
            }
        },
        None => JsonType::Unknown,
    }
}

/// Whether a schema declares the type `object`.
pub fn is_object(value: &Json) -> (r: bool)
    ensures
        r == (json_type(value@) == JsonType::Object),
{
    match get_json_type(value) {
        JsonType::Object => true,
        _ => false,
    }
}

/// Reads the declared type of a field.
pub fn get_ts_type(value: &Json) -> (r: String)
    ensures
        r@ == ts_type(value@),
{
    match value.text_of("type") {
        Some(type_string) => String::from_str(type_string),
        None => String::from_str("any"),
    }
}

/// Reads the description under `key`.
pub fn get_desc(value: &Json, key: &str) -> (r: String)
    ensures
        r@ == desc_of(value@, key@),
{
    match value.text_of(key) {
        Some(desc) => get_legal_desc(desc),
        None => String::from_str("无注释"),
    }
}

/// The key under which a field is written.
pub fn get_name(raw_name: &str) -> (r: String)
    ensures
        r@ == field_name(raw_name@),
{
    if raw_name.is_empty() {
        String::from_str("unknownName")
    } else {
        String::from_str(raw_name)
    }
}

/// Whether `key` is one of the strings of the list `list`.
pub fn is_required(key: &str, list: Option<&Json>) -> (r: bool)
    ensures
        r == is_required_in(key@, option_model(list)),
{
    match list {
        Some(required_list) => match required_list.as_array() {
            Some(items) => {
                let ghost models = item_models(items@);
                let mut i: usize = 0;
                while i < items.len()
                    invariant
                        i <= items.len(),
                        models == item_models(items@),
                        option_model(list) == Some(JsonModel::Array(models)),
                        forall|j: int| 0 <= j < i ==> models[j] != JsonModel::Text(key@),
                    decreases items.len() - i,
                {
                    match items[i].as_str() {
                        Some(name) => {
                            if same_text(name, key) {
                                assert(models[i as int] == JsonModel::Text(key@));
                                assert(models.contains(JsonModel::Text(key@)));
                                return true;
                            }
                        },
                        None => {},
                    }
                    i += 1;
                }
                false
            },
            None => false,
        },
        None => false,
    }
}

/// Wraps a field as a named slot of the interface.
fn slot_of(value: JsonValue, interface_name: &str) -> (r: Node)
    ensures
        r@ == slot(value@, interface_name@),
{
    let (key, required, description) = match &value {
        JsonValue::Atom(atom) => (atom.key.clone(), atom.required, atom.description.clone()),
        JsonValue::ObjectLike(object_like) => (
            object_like.key.clone(),
            object_like.required,
            object_like.description.clone(),
        ),
        JsonValue::Null => (String::new(), false, String::new()),
    };
    Node::new(String::from_str(interface_name), key, value, required, description)
}

/// Reads the field that one member of `properties` describes.
fn field_of(key: &str, schema: &Json, required: bool, interface_name: &str) -> (r: Result<
    JsonValue,
    CompileError,
>)
    ensures
        match r {
            Ok(v) => field_value(key@, schema@, required, interface_name@) == Ok::<
                SchemaNode,
                CompileError,
            >(v@),
            Err(e) => field_value(key@, schema@, required, interface_name@) == Err::<
                SchemaNode,
                CompileError,
            >(e),
        },
    decreases schema, 2nat,
{
    let description = get_desc(schema, "description");
    match get_json_type(schema) {
        JsonType::Object => {
            let nodes = match generate_nodes(schema, interface_name) {
                Ok(nodes) => nodes,
                Err(e) => {
                    return Err(e);
                },
            };
            let value = JsonValue::ObjectLike(
                ObjectLike::new(
                    String::from_str(interface_name),
                    nodes,
                    ObjectType::Object,
                    required,
                    get_name(key),
                    description,
                ),
            );
            assert(value@->ObjectLike_children =~= node_models(nodes@));
            Ok(value)
        },
        JsonType::Array => {
            let items = match schema.get("items") {
                Some(items) => items,
                None => {
                    return Err(CompileError::Schema(SchemaError::NoItems));
                },
            };
            if items.as_object().is_none() {
                return Err(CompileError::Schema(SchemaError::NoItems));
            }
            let nodes = match generate_nodes(items, interface_name) {
                Ok(nodes) => nodes,
                Err(e) => {
                    return Err(e);
                },
            };
            let value = JsonValue::ObjectLike(
                ObjectLike::new(
                    String::from_str(interface_name),
                    nodes,
                    ObjectType::Array,
                    required,
                    get_name(key),
                    description,
                ),
            );
            assert(value@->ObjectLike_children =~= node_models(nodes@));
            Ok(value)
        },
        _ => Ok(JsonValue::Atom(Atom::new(get_ts_type(schema), required, get_name(key), description))),
    }
}

/// Reads the fields of a schema as the fields of a root.
pub fn get_root_children(interface_name: &str, json_value: &Json) -> (r: Result<
    Vec<JsonValue>,
    CompileError,
>)
    ensures
        match r {
            Ok(values) => schema_fields(json_value@, interface_name@) matches Ok(fields)
                && value_models(values@) == fields,
            Err(e) => schema_fields(json_value@, interface_name@) == Err::<
                Seq<SchemaNode>,
                CompileError,
            >(e),
        },
    decreases json_value, 0nat,
{
    let properties = match json_value.get("properties") {
        Some(properties) => properties,
        None => {
            if is_object(json_value) {
                return Err(CompileError::Schema(SchemaError::NoProperties));
            }
            return Ok(Vec::new());
        },
    };
    let members = match properties.as_object() {
        Some(members) => members,
        None => {
            return Err(CompileError::Decode(DecodeError::PropertiesNotObject));
        },
    };
    let required_list = json_value.get("required");
    match required_list {
        Some(list) => {
            if !list.is_array() {
                return Err(CompileError::Decode(DecodeError::RequiredNotList));
            }
        },
        None => {},
    }
    let ghost models = member_models(members@);
    let ghost required = option_model(required_list);
    let mut values: Vec<JsonValue> = Vec::new();
    let mut i: usize = 0;
    assert(schema_fields(json_value@, interface_name@) == member_fields(
        models,
        required,
        interface_name@,
    ));
    while i < members.len()
        invariant
            i <= members.len(),
            models == member_models(members@),
            required == option_model(required_list),
            schema_fields(json_value@, interface_name@) == member_fields(
                models,
                required,
                interface_name@,
            ),
            decreases_to!(json_value => members),
            member_fields(models.take(i as int), required, interface_name@) matches Ok(fields)
                && value_models(values@) == fields,
        decreases members.len() - i,
    {
        let key = members[i].0.as_str();
        let is_needed = is_required(key, required_list);
        proof {
            assert(models.take(i + 1).drop_last() =~= models.take(i as int));
            assert(models.take(i + 1).last() == (members@[i as int].0@, members@[i as int].1@));
        }
        let value = match field_of(key, &members[i].1, is_needed, interface_name) {
            Ok(value) => value,
            Err(e) => {
                proof {
                    assert(member_fields(models.take(i + 1), required, interface_name@) == Err::<
                        Seq<SchemaNode>,
                        CompileError,
                    >(e));
                    lemma_member_fields_fail(models, i + 1, required, interface_name@);
                }
                return Err(e);
            },
        };
        let ghost before = value_models(values@);
        values.push(value);
        assert(value_models(values@) =~= before.push(values@.last()@));
        i += 1;
    }
    proof {
        assert(models.take(i as int) =~= models);
    }
    Ok(values)
}

/// Reads the fields of a schema as the named slots of a nested declaration.
pub fn generate_nodes(json_value: &Json, interface_name: &str) -> (r: Result<
    Vec<Node>,
    CompileError,
>)
    ensures
        match r {
            Ok(nodes) => schema_fields(json_value@, interface_name@) matches Ok(fields)
                && node_models(nodes@) == slots(fields, interface_name@),
            Err(e) => schema_fields(json_value@, interface_name@) == Err::<
                Seq<SchemaNode>,
                CompileError,
            >(e),
        },
    decreases json_value, 1nat,
{
    let values = match get_root_children(interface_name, json_value) {
        Ok(values) => values,
        Err(e) => {
            return Err(e);
        },
    };
    let ghost fields = value_models(values@);
    let mut nodes: Vec<Node> = Vec::new();
    for value in it: values
        invariant
            it.seq() == values@,
            fields == value_models(values@),
            node_models(nodes@) == slots(fields.take(it.index() as int), interface_name@),
    {
        let ghost before = node_models(nodes@);
        let ghost i = it.index() as int;
        nodes.push(slot_of(value, interface_name));
        assert(node_models(nodes@) =~= before.push(nodes@.last()@));
        assert(slots(fields.take(i + 1), interface_name@) =~= slots(
            fields.take(i),
            interface_name@,
        ).push(slot(fields[i], interface_name@)));
    }
    proof {
        assert(fields.take(fields.len() as int) =~= fields);
    }
    Ok(nodes)
}

/// Reads a schema into a root for the interface `interface_name`.
pub fn generate_root(
    web_type: WebType,
    interface_name: &str,
    interface_desc: &str,
    json_value: &Json,
) -> (r: Result<Root, CompileError>)
    ensures
        match r {
            Ok(root) => schema_root(web_type, interface_name@, interface_desc@, json_value@) == Ok::<
                RootModel,
                CompileError,
            >(root@),
            Err(e) => schema_root(web_type, interface_name@, interface_desc@, json_value@) == Err::<
                RootModel,
                CompileError,
            >(e),
        },
{
    let key = match web_type {
        WebType::Request => String::from_str("request"),
        WebType::Response => String::from_str("response"),
    };
    let children = if is_object(json_value) {
        match get_root_children(interface_name, json_value) {
            Ok(values) => Some(values),
            Err(e) => {
                return Err(e);
            },
        }
    } else {
        None
    };
    Ok(Root::new(String::from_str(interface_name), String::from_str(interface_desc), key, children))
}

/// The artifact that a JSON schema compiles to: `Err` where the schema has no
/// tree.
pub open spec fn json_artifact(
    web_type: WebType,
    interface_name: Seq<char>,
    interface_desc: Seq<char>,
    schema: JsonModel,
) -> Result<ArtifactModel, CompileError> {
    match schema_root(web_type, interface_name, interface_desc, schema) {
        Ok(root) => Ok(root_artifact(root)),
        Err(e) => Err(e),
    }
}

/// Compiles a JSON schema into the declarations of one side of an interface.
pub fn get_ts_artifact(
    web_type: WebType,
    interface_name: &str,
    interface_desc: &str,
    json_value: &Json,
) -> (r: Result<TypeArtifact, CompileError>)
    ensures
        match r {
            Ok(artifact) => json_artifact(web_type, interface_name@, interface_desc@, json_value@)
                == Ok::<ArtifactModel, CompileError>(artifact@),
            Err(e) => json_artifact(web_type, interface_name@, interface_desc@, json_value@)
                == Err::<ArtifactModel, CompileError>(e),
        },
{
    match generate_root(web_type, interface_name, interface_desc, json_value) {
        Ok(root) => Ok(root_declarations(&root)),
        Err(e) => Err(e),
    }
}

/// The declaration text of one side of an interface, its payload read as a
/// JSON schema.
pub fn get_ts_string(web_type: WebType, interface_data: &InterfaceData, json_value: &Json) -> (r:
    Result<String, CompileError>)
    ensures
        match r {
            Ok(text) => json_artifact(
                web_type,
                base_name(interface_data.path@),
                interface_data.title@,
                json_value@,
            ) matches Ok(artifact) && text@ == artifact_text(artifact),
            Err(e) => json_artifact(
                web_type,
                base_name(interface_data.path@),
                interface_data.title@,
                json_value@,
            ) == Err::<ArtifactModel, CompileError>(e),
        },
{
    let name = get_model_interface_name(interface_data);
    match get_ts_artifact(web_type, name.as_str(), interface_data.title.as_str(), json_value) {
        Ok(artifact) => Ok(artifact.to_ts()),
        Err(e) => Err(e),
    }
}

/// Once the members up to `n` fail, so do all of them.
proof fn lemma_member_fields_fail(
    members: Seq<(Seq<char>, JsonModel)>,
    n: int,
    required: Option<JsonModel>,
    root_name: Seq<char>,
)
    requires
        0 <= n <= members.len(),
        member_fields(members.take(n), required, root_name) is Err,
    ensures
        member_fields(members, required, root_name) == member_fields(
            members.take(n),
            required,
            root_name,
        ),
    decreases members.len() - n,
{
    if n == members.len() {
        assert(members.take(n) =~= members);
    } else {
        assert(members.take(n + 1).drop_last() =~= members.take(n));
        lemma_member_fields_fail(members, n + 1, required, root_name);
    }
}

} // verus!
