//! Reading a flat list of form fields into one declaration.

use crate::emit::{
    artifact_text, field_text, field_ts, ArtifactModel, Declaration, DeclarationModel,
    TypeArtifact,
};
use crate::interface::{base_name, get_model_interface_name, InterfaceData};
use crate::json::{item_models, Json, JsonModel};
use crate::json_resolver::{desc_of, get_desc};
use crate::schema::WebType;
use crate::text::{get_legal_name, legal_name, same_text};
use vstd::prelude::*;

verus! {

/// The name of a form field: its `name` without illegal characters, a fixed
/// name where it has none.
pub open spec fn form_field_name(field: JsonModel) -> Seq<char> {
    match field.text_of("name"@) {
        Some(name) => legal_name(name),
        None => "unknowName"@,
    }
}

/// The type of a form field: `string` for the kind `text`, `any` for every
/// other kind and for a field without one.
pub open spec fn form_field_type(field: JsonModel) -> Seq<char> {
    if field.text_of("type"@) == Some("text"@) {
        "string"@
    } else {
        "any"@
    }
}

/// Whether a form field is marked as required: its `required` is the string `1`.
pub open spec fn form_field_required(field: JsonModel) -> bool {
    field.text_of("required"@) == Some("1"@)
}

/// The two lines of a form field.
pub open spec fn form_field_line(field: JsonModel) -> Seq<char> {
    field_text(
        desc_of(field, "desc"@),
        form_field_name(field),
        form_field_required(field),
        form_field_type(field),
    )
}

/// The lines of the form fields in their order.
pub open spec fn form_body(fields: Seq<JsonModel>) -> Seq<char>
    decreases fields.len(),
{
    if fields.len() == 0 {
        Seq::empty()
    } else {
        form_body(fields.drop_last()) + form_field_line(fields.last())
    }
}

/// The word that a side adds to the interface's name.
pub open spec fn side_suffix(web_type: WebType) -> Seq<char> {
    if web_type == WebType::Request {
        "Request"@
    } else {
        "Response"@
    }
}

/// The name of the one declaration of a form.
pub open spec fn form_interface_name(web_type: WebType, file_name: Seq<char>) -> Seq<char> {
    legal_name(file_name) + side_suffix(web_type)
}

/// The form fields of a payload: the items of a list, none for any other value.
pub open spec fn form_fields(payload: JsonModel) -> Seq<JsonModel> {
    match payload {
        JsonModel::Array(items) => items,
        _ => Seq::empty(),
    }
}

/// The artifact of a form: one declaration with one field for each entry of
/// the list, no nested declaration.
pub open spec fn form_artifact(
    web_type: WebType,
    file_name: Seq<char>,
    title: Seq<char>,
    payload: JsonModel,
) -> ArtifactModel {
    ArtifactModel {
        description: title,
        declarations: seq![
            DeclarationModel {
                name: form_interface_name(web_type, file_name),
                body: form_body(form_fields(payload)),
            },
        ],
    }
}

/// The name of the one declaration of a form.
pub fn get_interface_ts_name(web_type: WebType, file_name: &str) -> (r: String)
    ensures
        r@ == form_interface_name(web_type, file_name@),
{
    let mut out = get_legal_name(file_name);
    match web_type {
        WebType::Request => out.append("Request"),
        WebType::Response => out.append("Response"),
    }
    out
}

/// The name of a form field.
pub fn get_name(value: &Json) -> (r: String)
    ensures
        r@ == form_field_name(value@),
{
    match value.text_of("name") {
        Some(name) => get_legal_name(name),
        None => String::from_str("unknowName"),
    }
}

/// Whether a form field is marked as required.
pub fn is_required(value: &Json) -> (r: bool)
    ensures
        r == form_field_required(value@),
{
    match value.text_of("required") {
        Some(required) => same_text(required, "1"),
        None => false,
    }
}

/// The type of a form field.
pub fn get_type(value: &Json) -> (r: String)
    ensures
        r@ == form_field_type(value@),
{
    let is_text = match value.text_of("type") {
        Some(kind) => same_text(kind, "text"),
        None => false,
    };
    if is_text {
        String::from_str("string")
    } else {
        String::from_str("any")
    }
}

/// The two lines of a form field.
fn form_field_ts(value: &Json) -> (r: String)
    ensures
        r@ == form_field_line(value@),
{
    let name = get_name(value);
    let type_text = get_type(value);
    let desc = get_desc(value, "desc");
    field_ts(desc.as_str(), name.as_str(), is_required(value), type_text.as_str())
}

/// The lines of the form fields in their order.
fn fields_body(fields: &Vec<Json>) -> (r: String)
    ensures
        r@ == form_body(item_models(fields@)),
{
    let ghost models = item_models(fields@);
    let mut out = String::new();
    let mut i: usize = 0;
    while i < fields.len()
        invariant
            i <= fields.len(),
            models == item_models(fields@),
            out@ == form_body(models.take(i as int)),
        decreases fields.len() - i,
    {
        let line = form_field_ts(&fields[i]);
        proof {
            assert(models.take(i + 1).drop_last() =~= models.take(i as int));
        }
        out.append(line.as_str());
        i += 1;
    }
    proof {
        assert(models.take(i as int) =~= models);
    }
    out
}

/// Compiles a list of form fields into the one declaration of one side of an
/// interface.
pub fn get_ts_artifact(web_type: WebType, file_name: &str, title: &str, form_value: &Json) -> (r:
    TypeArtifact)
    ensures
        r@ == form_artifact(web_type, file_name@, title@, form_value@),
{
    let body = match form_value.as_array() {
        Some(fields) => fields_body(fields),
        None => String::new(),
    };
    let first = Declaration { name: get_interface_ts_name(web_type, file_name), body };
    let mut declarations: Vec<Declaration> = Vec::new();
    declarations.push(first);
    let artifact = TypeArtifact { description: String::from_str(title), declarations };
    assert(artifact@.declarations =~= form_artifact(
        web_type,
        file_name@,
        title@,
        form_value@,
    ).declarations);
    artifact
}

/// The declaration text of one side of an interface, its payload read as a
/// list of form fields.
pub fn get_ts_string(web_type: WebType, interface_data: &InterfaceData, form_value: &Json) -> (r:
    String)
    ensures
        r@ == artifact_text(
            form_artifact(
                web_type,
                base_name(interface_data.path@),
                interface_data.title@,
                form_value@,
            ),
        ),
{
    let name = get_model_interface_name(interface_data);
    get_ts_artifact(web_type, name.as_str(), interface_data.title.as_str(), form_value).to_ts()
}

} // verus!
