//! The tree that a schema is read into before any declaration is written.

use vstd::prelude::*;

verus! {

/// What the `type` member of a schema says it describes.
#[derive(Clone, Copy, Debug, PartialEq, Eq, Structural)]
pub enum JsonType {
    Object,
    Array,
    Atom,
    Unknown,
}

/// How a request body is encoded.
#[derive(Clone, Copy, Debug, PartialEq, Eq, Structural)]
pub enum FormType {
    Form,
    Json,
}

/// Whether a nested declaration stands for one object or for a list of them.
#[derive(Clone, Copy, Debug, PartialEq, Eq, Structural)]
pub enum ObjectType {
    Object,
    Array,
}

/// The side of an interface that a declaration describes.
#[derive(Clone, Copy, Debug, PartialEq, Eq, Structural)]
pub enum WebType {
    Request,
    Response,
}

/// The mathematical value of a schema tree.
pub enum SchemaNode {
    Atom { declared_type: Seq<char>, required: bool, key: Seq<char>, description: Seq<char> },
    ObjectLike {
        root_name: Seq<char>,
        key: Seq<char>,
        required: bool,
        description: Seq<char>,
        shape: ObjectType,
        children: Seq<SchemaNode>,
    },
    Node {
        root_name: Seq<char>,
        key: Seq<char>,
        value: Box<SchemaNode>,
        required: bool,
        description: Seq<char>,
    },
    Empty,
}

/// The mathematical value of a root.
pub struct RootModel {
    pub interface_name: Seq<char>,
    pub interface_desc: Seq<char>,
    pub key: Seq<char>,
    pub children: Option<Seq<SchemaNode>>,
}

/// A field of a plain type.
#[derive(Debug, PartialEq)]
pub struct Atom {
    pub value: String,
    pub required: bool,
    pub key: String,
    pub description: String,
}

/// A named slot of a nested declaration.
#[derive(Debug, PartialEq)]
pub struct Node {
    pub interface_name: String,
    pub key: String,
    pub value: JsonValue,
    pub required: bool,
    pub description: String,
}

/// A field that is an object or a list of objects, with the fields below it.
#[derive(Debug, PartialEq)]
pub struct ObjectLike {
    pub interface_name: String,
    pub nodes: Vec<Node>,
    pub object_type: ObjectType,
    pub required: bool,
    pub key: String,
    pub description: String,
}

/// One field of a declaration.
#[derive(Debug, PartialEq)]
pub enum JsonValue {
    ObjectLike(ObjectLike),
    Atom(Atom),
    Null,
}

/// The top of a schema tree: the interface it belongs to and its fields.
#[derive(Debug, PartialEq)]
pub struct Root {
    pub interface_name: String,
    pub interface_desc: String,
    pub key: String,
    pub children: Option<Vec<JsonValue>>,
}

/// The value that a field stands for.
pub open spec fn value_model(v: JsonValue) -> SchemaNode
    decreases v,
{
    match v {
        JsonValue::Atom(a) => SchemaNode::Atom {
            declared_type: a.value@,
            required: a.required,
            key: a.key@,
            description: a.description@,
        },
        JsonValue::ObjectLike(o) => SchemaNode::ObjectLike {
            root_name: o.interface_name@,
            key: o.key@,
            required: o.required,
            description: o.description@,
            shape: o.object_type,
            children: Seq::new(
                o.nodes@.len(),
                |i: int|
                    if 0 <= i < o.nodes@.len() {
                        node_model(o.nodes@[i])
                    } else {
                        SchemaNode::Empty
                    },
            ),
        },
        JsonValue::Null => SchemaNode::Empty,
    }
}

/// The value that a named slot stands for.
pub open spec fn node_model(n: Node) -> SchemaNode
    decreases n,
{
    SchemaNode::Node {
        root_name: n.interface_name@,
        key: n.key@,
        value: Box::new(value_model(n.value)),
        required: n.required,
        description: n.description@,
    }
}

/// What each of the fields stands for.
pub open spec fn value_models(v: Seq<JsonValue>) -> Seq<SchemaNode> {
    Seq::new(v.len(), |i: int| v[i]@)
}

/// What each of the named slots stands for.
pub open spec fn node_models(v: Seq<Node>) -> Seq<SchemaNode> {
    Seq::new(v.len(), |i: int| v[i]@)
}

impl View for Atom {
    type V = SchemaNode;

    open spec fn view(&self) -> SchemaNode {
        SchemaNode::Atom {
            declared_type: self.value@,
            required: self.required,
            key: self.key@,
            description: self.description@,
        }
    }
}

impl View for JsonValue {
    type V = SchemaNode;

    open spec fn view(&self) -> SchemaNode {
        value_model(*self)
    }
}

impl View for Node {
    type V = SchemaNode;

    open spec fn view(&self) -> SchemaNode {
        node_model(*self)
    }
}

impl View for ObjectLike {
    type V = SchemaNode;

    open spec fn view(&self) -> SchemaNode {
        value_model(JsonValue::ObjectLike(*self))
    }
}

impl View for Root {
    type V = RootModel;

    open spec fn view(&self) -> RootModel {
        RootModel {
            interface_name: self.interface_name@,
            interface_desc: self.interface_desc@,
            key: self.key@,
            children: match self.children {
                Some(values) => Some(value_models(values@)),
                None => None,
            },
        }
    }
}

impl Atom {
    pub fn new(value: String, required: bool, key: String, description: String) -> (r: Self)
        ensures
            r.value == value,
            r.required == required,
            r.key == key,
            r.description == description,
    {
        Self { value, required, key, description }
    }
}

impl Node {
    pub fn new(
        interface_name: String,
        key: String,
        value: JsonValue,
        required: bool,
        description: String,
    ) -> (r: Self)
        ensures
            r.interface_name == interface_name,
            r.key == key,
            r.value == value,
            r.required == required,
            r.description == description,
    {
        Self { interface_name, key, value, required, description }
    }
}

impl ObjectLike {
    pub fn new(
        interface_name: String,
        nodes: Vec<Node>,
        object_type: ObjectType,
        required: bool,
        key: String,
        description: String,
    ) -> (r: Self)
        ensures
            r.interface_name == interface_name,
            r.nodes == nodes,
            r.object_type == object_type,
            r.required == required,
            r.key == key,
            r.description == description,
    {
        Self { interface_name, nodes, object_type, required, key, description }
    }
}

impl Root {
    pub fn new(
        interface_name: String,
        interface_desc: String,
        key: String,
        children: Option<Vec<JsonValue>>,
    ) -> (r: Self)
        ensures
            r.interface_name == interface_name,
            r.interface_desc == interface_desc,
            r.key == key,
            r.children == children,
    {
        Self { interface_name, interface_desc, key, children }
    }
}

} // verus!
