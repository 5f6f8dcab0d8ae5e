//! Interface descriptors and their compilation into declaration text.

use crate::emit::{artifact_text, ArtifactModel, TypeArtifact};
use crate::error::{CompileError, SchemaError};
use crate::form_resolver;
use crate::form_resolver::form_artifact;
use crate::json::{clone_items, get_json, item_models, json_of_text, Json, JsonModel};
use crate::json_resolver;
use crate::json_resolver::json_artifact;
use crate::schema::{FormType, WebType};
use crate::text::{get_path_arr, path_segments, same_text, texts};
use vstd::prelude::*;

verus! {

/// The mathematical value of a descriptor.
pub struct InterfaceModel {
    pub id: u32,
    pub path: Seq<char>,
    pub project_id: u32,
    pub title: Seq<char>,
    pub catid: u32,
    pub req_body_other: Option<Seq<char>>,
    pub req_query: Option<Seq<JsonModel>>,
    pub req_params: Option<Seq<JsonModel>>,
    pub req_body_form: Option<Seq<JsonModel>>,
    pub req_body_type: Option<Seq<char>>,
    pub res_body: Option<Seq<char>>,
    pub method: Seq<char>,
}

/// What the remote service says of one interface.
#[derive(Debug, PartialEq)]
pub struct InterfaceData {
    pub _id: u32,
    pub path: String,
    pub project_id: u32,
    pub title: String,
    pub catid: u32,
    pub req_body_other: Option<String>,
    pub req_query: Option<Vec<Json>>,
    pub req_params: Option<Vec<Json>>,
    pub req_body_form: Option<Vec<Json>>,
    pub req_body_type: Option<String>,
    pub res_body: Option<String>,
    pub method: String,
}

/// What an optional string holds.
pub open spec fn option_text(s: Option<String>) -> Option<Seq<char>> {
    match s {
        Some(s) => Some(s@),
        None => None,
    }
}

/// What an optional list of trees stands for.
pub open spec fn option_items(v: Option<Vec<Json>>) -> Option<Seq<JsonModel>> {
    match v {
        Some(v) => Some(item_models(v@)),
        None => None,
    }
}

impl View for InterfaceData {
    type V = InterfaceModel;

    open spec fn view(&self) -> InterfaceModel {
        InterfaceModel {
            id: self._id,
            path: self.path@,
            project_id: self.project_id,
            title: self.title@,
            catid: self.catid,
            req_body_other: option_text(self.req_body_other),
            req_query: option_items(self.req_query),
            req_params: option_items(self.req_params),
            req_body_form: option_items(self.req_body_form),
            req_body_type: option_text(self.req_body_type),
            res_body: option_text(self.res_body),
            method: self.method@,
        }
    }
}

/// The mathematical value of a task.
pub struct TaskModel {
    pub task_id: u64,
    pub interface_id: u32,
    pub token: Seq<char>,
    pub source_path: Seq<char>,
}

/// One task of the queue: the caller's identifier for it, the interface to
/// fetch, and the credential and the project to fetch it with.
#[derive(Clone, Debug, PartialEq)]
pub struct InterfaceFetchParams {
    pub task_id: u64,
    pub interface_id: u32,
    pub token: String,
    pub source_path: String,
}

impl View for InterfaceFetchParams {
    type V = TaskModel;

    open spec fn view(&self) -> TaskModel {
        TaskModel {
            task_id: self.task_id,
            interface_id: self.interface_id,
            token: self.token@,
            source_path: self.source_path@,
        }
    }
}

/// What each of the tasks stands for.
pub open spec fn task_models(v: Seq<InterfaceFetchParams>) -> Seq<TaskModel> {
    Seq::new(v.len(), |i: int| v[i]@)
}

/// How the request body is encoded: as a form unless the descriptor names
/// another encoding.
pub open spec fn req_body_type(data: InterfaceModel) -> FormType {
    match data.req_body_type {
        Some(t) => if t == "form"@ {
            FormType::Form
        } else {
            FormType::Json
        },
        None => FormType::Form,
    }
}

/// Whether a list of fields is there and not empty.
pub open spec fn has_fields(list: Option<Seq<JsonModel>>) -> bool {
    list matches Some(fields) && fields.len() != 0
}

/// The fields of a form request: the first of the body's form, the query and
/// the path parameters that is not empty, as a list; `Null` where all are.
pub open spec fn form_request(data: InterfaceModel) -> JsonModel {
    if has_fields(data.req_body_form) {
        JsonModel::Array(data.req_body_form->0)
    } else if has_fields(data.req_query) {
        JsonModel::Array(data.req_query->0)
    } else if has_fields(data.req_params) {
        JsonModel::Array(data.req_params->0)
    } else {
        JsonModel::Null
    }
}

/// The payload of the request side, given the tree `other` that the text of
/// the body reads as.
pub open spec fn request_payload(data: InterfaceModel, other: JsonModel) -> JsonModel {
    match req_body_type(data) {
        FormType::Form => form_request(data),
        FormType::Json => if data.req_body_other is Some {
            other
        } else {
            JsonModel::Null
        },
    }
}

/// The text of the request body; empty where there is none.
pub open spec fn body_text(data: InterfaceModel) -> Seq<char> {
    match data.req_body_other {
        Some(text) => text,
        None => Seq::empty(),
    }
}

/// The base name of an interface: the last segment of its path, a fixed name
/// for a path without segments.
pub open spec fn base_name(path: Seq<char>) -> Seq<char> {
    let segments = path_segments(path);
    if segments.len() == 0 {
        "unknowFileName"@
    } else {
        segments.last()
    }
}

/// Whether a side is read as a JSON schema: the response always, the request
/// where the method is `POST` and its body is not a form.
pub open spec fn reads_schema(kind: FormType, web_type: WebType, http_method: Seq<char>) -> bool {
    web_type == WebType::Response || (http_method == "POST"@ && kind == FormType::Json)
}

/// The artifact of one side of an interface.
pub open spec fn compiled(
    kind: FormType,
    web_type: WebType,
    root_base_name: Seq<char>,
    http_method: Seq<char>,
    title: Seq<char>,
    payload: JsonModel,
) -> Result<ArtifactModel, CompileError> {
    if reads_schema(kind, web_type, http_method) {
        json_artifact(web_type, root_base_name, title, payload)
    } else {
        Ok(form_artifact(web_type, root_base_name, title, payload))
    }
}

/// The declaration text of an interface with the response schema `response`
/// and the request payload `request`: the request's artifact, an empty line,
/// the response's artifact. The response is compiled first.
pub open spec fn interface_ts(data: InterfaceModel, response: JsonModel, request: JsonModel) -> Result<
    Seq<char>,
    CompileError,
> {
    let name = base_name(data.path);
    match compiled(FormType::Json, WebType::Response, name, data.method, data.title, response) {
        Err(e) => Err(e),
        Ok(resp) => match compiled(
            req_body_type(data),
            WebType::Request,
            name,
            data.method,
            data.title,
            request,
        ) {
            Err(e) => Err(e),
            Ok(req) => Ok(artifact_text(req) + "\n"@ + artifact_text(resp)),
        },
    }
}

/// The declaration text of a descriptor: none for one without a response
/// schema, else that of its two sides, each text read as JSON.
pub open spec fn descriptor_ts(data: InterfaceModel) -> Result<Seq<char>, CompileError> {
    match data.res_body {
        None => Err(CompileError::Schema(SchemaError::NoResponse)),
        Some(text) => interface_ts(
            data,
            json_of_text(text),
            request_payload(data, json_of_text(body_text(data))),
        ),
    }
}

/// Compiling is a function of the schema's value: two compilations of equal
/// values end alike, and where they succeed their artifacts have the same
/// text.
pub proof fn lemma_compile_is_deterministic(
    kind: FormType,
    web_type: WebType,
    root_base_name: Seq<char>,
    http_method: Seq<char>,
    title: Seq<char>,
    first: Json,
    second: Json,
)
    requires
        first@ == second@,
    ensures
        compiled(kind, web_type, root_base_name, http_method, title, first@) == compiled(
            kind,
            web_type,
            root_base_name,
            http_method,
            title,
            second@,
        ),
        forall|a: TypeArtifact, b: TypeArtifact|
            compiled(kind, web_type, root_base_name, http_method, title, first@) == Ok::<
                ArtifactModel,
                CompileError,
            >(a@) && compiled(kind, web_type, root_base_name, http_method, title, second@) == Ok::<
                ArtifactModel,
                CompileError,
            >(b@) ==> artifact_text(a@) == artifact_text(b@),
{
}

/// How the request body is encoded.
pub fn get_req_body_type(interface_data: &InterfaceData) -> (r: FormType)
    ensures
        r == req_body_type(interface_data@),
{
    match &interface_data.req_body_type {
        Some(req_body_type) => {
            if same_text(req_body_type.as_str(), "form") {
                FormType::Form
            } else {
                FormType::Json
            }
        },
        None => FormType::Form,
    }
}

/// A list of fields as a tree, where it is there and not empty.
fn field_list(list: &Option<Vec<Json>>) -> (r: Option<Json>)
    ensures
        match r {
            Some(tree) => has_fields(option_items(*list)) && tree@ == JsonModel::Array(
                option_items(*list)->0,
            ),
            None => !has_fields(option_items(*list)),
        },
{
    match list {
        Some(fields) => {
            if fields.len() != 0 {
                let copy = clone_items(fields);
                let tree = Json::Array(copy);
                assert(tree@->Array_0 =~= item_models(copy@));
                Some(tree)
            } else {
                None
            }
        },
        None => None,
    }
}

/// The payload of the request side: for a form the first list of fields that
/// is not empty, for any other body its text read as JSON.
pub fn get_request_json(interface_data: &InterfaceData) -> (r: Json)
    ensures
        r@ == request_payload(interface_data@, json_of_text(body_text(interface_data@))),
{
    match get_req_body_type(interface_data) {
        FormType::Form => {
            if let Some(tree) = field_list(&interface_data.req_body_form) {
                return tree;
            }
            if let Some(tree) = field_list(&interface_data.req_query) {
                return tree;
            }
            if let Some(tree) = field_list(&interface_data.req_params) {
                return tree;
            }
            Json::Null
        },
        FormType::Json => match &interface_data.req_body_other {
            Some(text) => get_json(text.as_str()),
            None => Json::Null,
        },
    }
}

/// The base name of an interface.
pub fn get_model_interface_name(interface_data: &InterfaceData) -> (r: String)
    ensures
        r@ == base_name(interface_data.path@),
{
    let mut segments = get_path_arr(interface_data.path.clone());
    let ghost all = texts(segments@);
    match segments.pop() {
        Some(last) => {
            assert(all.last() == last@);
            last
        },
        None => {
            assert(all.len() == 0);
            String::from_str("unknowFileName")
        },
    }
}

/// Whether a descriptor can be compiled: it must have a response schema.
pub fn is_legal(data: &InterfaceData) -> (r: Result<(), CompileError>)
    ensures
        r is Ok <==> data.res_body is Some,
        r is Err ==> r == Err::<(), CompileError>(CompileError::Schema(SchemaError::NoResponse)),
{
    if data.res_body.is_none() {
        return Err(CompileError::Schema(SchemaError::NoResponse));
    }
    Ok(())
}

/// Compiles one side of an interface: the response and a `POST` request with
/// a body that is no form as a JSON schema, every other request as a list of
/// form fields.
pub fn compile(
    kind: FormType,
    web_type: WebType,
    root_base_name: &str,
    http_method: &str,
    title: &str,
    payload: &Json,
) -> (r: Result<TypeArtifact, CompileError>)
    ensures
        match r {
            Ok(artifact) => compiled(
                kind,
                web_type,
                root_base_name@,
                http_method@,
                title@,
                payload@,
            ) == Ok::<ArtifactModel, CompileError>(artifact@),
            Err(e) => compiled(kind, web_type, root_base_name@, http_method@, title@, payload@)
                == Err::<ArtifactModel, CompileError>(e),
        },
{
    let as_schema = match web_type {
        WebType::Response => true,
        WebType::Request => same_text(http_method, "POST") && match kind {
            FormType::Json => true,
            FormType::Form => false,
        },
    };
    if as_schema {
        json_resolver::get_ts_artifact(web_type, root_base_name, title, payload)
    } else {
        Ok(form_resolver::get_ts_artifact(web_type, root_base_name, title, payload))
    }
}

/// The declaration text of an interface, given the trees of its response
/// schema and of its request payload.
pub fn interface_ts_string(data: &InterfaceData, response: &Json, request: &Json) -> (r: Result<
    String,
    CompileError,
>)
    ensures
        match r {
            Ok(text) => interface_ts(data@, response@, request@) == Ok::<Seq<char>, CompileError>(
                text@,
            ),
            Err(e) => interface_ts(data@, response@, request@) == Err::<Seq<char>, CompileError>(e),
        },
{
    let name = get_model_interface_name(data);
    let resp = match compile(
        FormType::Json,
        WebType::Response,
        name.as_str(),
        data.method.as_str(),
        data.title.as_str(),
        response,
    ) {
        Ok(artifact) => artifact,
        Err(e) => {
            return Err(e);
        },
    };
    let req = match compile(
        get_req_body_type(data),
        WebType::Request,
        name.as_str(),
        data.method.as_str(),
        data.title.as_str(),
        request,
    ) {
        Ok(artifact) => artifact,
        Err(e) => {
            return Err(e);
        },
    };
    let mut out = req.to_ts();
    out.append("\n");
    out.append(resp.to_ts().as_str());
    Ok(out)
}

/// The declaration text of a descriptor.
pub fn get_interface_ts_string(data: &InterfaceData) -> (r: Result<String, CompileError>)
    ensures
        match r {
            Ok(text) => descriptor_ts(data@) == Ok::<Seq<char>, CompileError>(text@),
            Err(e) => descriptor_ts(data@) == Err::<Seq<char>, CompileError>(e),
        },
{
    match is_legal(data) {
        Ok(_) => {},
        Err(e) => {
            return Err(e);
        },
    }
    let response = match &data.res_body {
        Some(text) => get_json(text.as_str()),
        None => Json::Null,
    };
    let request = get_request_json(data);
    interface_ts_string(data, &response, &request)
}

} // verus!
