//! Writing a schema tree out as named declarations.

use crate::schema::{
    node_models, value_models, Atom, JsonValue, Node, ObjectLike, ObjectType, Root, RootModel,
    SchemaNode,
};
use crate::text::{
    all_legal, get_legal_desc, get_ts_interface_name, legal_desc, lemma_interface_name_is_legal,
    same_text, ts_interface_name,
};
use vstd::prelude::*;

verus! {

/// The mathematical value of a declaration.
pub struct DeclarationModel {
    pub name: Seq<char>,
    pub body: Seq<char>,
}

/// One named declaration: its name and the lines of its fields.
#[derive(Debug, PartialEq)]
pub struct Declaration {
    pub name: String,
    pub body: String,
}

impl View for Declaration {
    type V = DeclarationModel;

    open spec fn view(&self) -> DeclarationModel {
        DeclarationModel { name: self.name@, body: self.body@ }
    }
}

/// What each of the declarations holds.
pub open spec fn declaration_models(v: Seq<Declaration>) -> Seq<DeclarationModel> {
    Seq::new(v.len(), |i: int| v[i]@)
}

/// The type written for a declared type: `number` for `integer`, every other
/// one as it is.
pub open spec fn atom_type(declared: Seq<char>) -> Seq<char> {
    if declared == "integer"@ {
        "number"@
    } else {
        declared
    }
}

/// The mark behind the name of a field that may be left out.
pub open spec fn optional_mark(required: bool) -> Seq<char> {
    if required {
        ""@
    } else {
        "?"@
    }
}

/// The mark behind the type of a field that is a list.
pub open spec fn array_mark(shape: ObjectType) -> Seq<char> {
    if shape == ObjectType::Array {
        "[]"@
    } else {
        ""@
    }
}

/// The two lines of a field: its comment and its definition.
pub open spec fn field_text(
    description: Seq<char>,
    key: Seq<char>,
    required: bool,
    type_text: Seq<char>,
) -> Seq<char> {
    "    // "@ + description + "\n    "@ + key + optional_mark(required) + ": "@ + type_text
        + "\n"@
}

/// The field inside a named slot; any other node is itself.
pub open spec fn slot_value(n: SchemaNode) -> SchemaNode {
    match n {
        SchemaNode::Node { value, .. } => *value,
        _ => n,
    }
}

/// The lines that a node adds to the body of the declaration it stands in.
/// An object or a list is referred to by the name of its own declaration.
pub open spec fn field_line(n: SchemaNode) -> Seq<char> {
    match slot_value(n) {
        SchemaNode::Atom { declared_type, required, key, description } => field_text(
            legal_desc(description),
            key,
            required,
            atom_type(declared_type),
        ),
        SchemaNode::ObjectLike { root_name, key, required, description, shape, .. } => field_text(
            description,
            key,
            required,
            ts_interface_name(root_name, key) + array_mark(shape),
        ),
        _ => Seq::empty(),
    }
}

/// The body of a declaration: the lines of its fields in their order.
pub open spec fn fields_text(children: Seq<SchemaNode>) -> Seq<char>
    decreases children.len(),
{
    if children.len() == 0 {
        Seq::empty()
    } else {
        fields_text(children.drop_last()) + field_line(children.last())
    }
}

/// The declaration named `name` with the fields `children`, followed by the
/// declarations of the objects and lists among them, each with all that lies
/// below it before the next.
pub open spec fn declarations(children: Seq<SchemaNode>, name: Seq<char>) -> Seq<DeclarationModel>
    decreases children, 1nat,
{
    seq![DeclarationModel { name, body: fields_text(children) }] + nested_declarations(children)
}

/// The declarations of the objects and lists among `children`, in their order.
pub open spec fn nested_declarations(children: Seq<SchemaNode>) -> Seq<DeclarationModel>
    decreases children, 0nat,
{
    if children.len() == 0 {
        Seq::empty()
    } else {
        nested_declarations(children.drop_last()) + declarations_below(children.last())
    }
}

/// The declarations that one node brings: those of an object or a list, none
/// for any other node.
pub open spec fn declarations_below(n: SchemaNode) -> Seq<DeclarationModel>
    decreases n, 2nat,
{
    match n {
        SchemaNode::Node { value, .. } => match *value {
            SchemaNode::ObjectLike { root_name, key, children, .. } => declarations(
                children,
                ts_interface_name(root_name, key),
            ),
            _ => Seq::empty(),
        },
        SchemaNode::ObjectLike { root_name, key, children, .. } => declarations(
            children,
            ts_interface_name(root_name, key),
        ),
        _ => Seq::empty(),
    }
}

/// The text of one declaration.
pub open spec fn declaration_text(d: DeclarationModel) -> Seq<char> {
    "export interface "@ + d.name + " {\n"@ + d.body + "}\n"@
}

/// The text of the declarations one after another.
pub open spec fn declarations_text(decls: Seq<DeclarationModel>) -> Seq<char>
    decreases decls.len(),
{
    if decls.len() == 0 {
        Seq::empty()
    } else {
        declarations_text(decls.drop_last()) + declaration_text(decls.last())
    }
}

/// The mathematical value of an artifact.
pub struct ArtifactModel {
    pub description: Seq<char>,
    pub declarations: Seq<DeclarationModel>,
}

/// What a compilation hands back: the interface's description and its
/// declarations, the root's first.
#[derive(Debug, PartialEq)]
pub struct TypeArtifact {
    pub description: String,
    pub declarations: Vec<Declaration>,
}

impl View for TypeArtifact {
    type V = ArtifactModel;

    open spec fn view(&self) -> ArtifactModel {
        ArtifactModel {
            description: self.description@,
            declarations: declaration_models(self.declarations@),
        }
    }
}

/// The text of an artifact: a comment line with the description, then the
/// declarations.
pub open spec fn artifact_text(a: ArtifactModel) -> Seq<char> {
    "// "@ + a.description + "\n"@ + declarations_text(a.declarations)
}

/// The fields of a root; none where it has no list of them.
pub open spec fn root_children(root: RootModel) -> Seq<SchemaNode> {
    match root.children {
        Some(children) => children,
        None => Seq::empty(),
    }
}

/// The artifact of a root: its declaration, named after the interface and the
/// side, and those of the objects and lists below it.
pub open spec fn root_artifact(root: RootModel) -> ArtifactModel {
    ArtifactModel {
        description: root.interface_desc,
        declarations: declarations(
            root_children(root),
            ts_interface_name(root.interface_name, root.key),
        ),
    }
}

/// Maps the declared type `integer` to `number`.
pub fn format_atom_type(value: &String) -> (r: String)
    ensures
        r@ == atom_type(value@),
{
    if same_text(value.as_str(), "integer") {
        String::from_str("number")
    } else {
        value.clone()
    }
}

/// Writes the two lines of a field.
pub fn field_ts(description: &str, key: &str, required: bool, type_text: &str) -> (r: String)
    ensures
        r@ == field_text(description@, key@, required, type_text@),
{
    proof {
        reveal_strlit("");
    }
    let mut out = String::from_str("    // ");
    out.append(description);
    out.append("\n    ");
    out.append(key);
    if !required {
        out.append("?");
    }
    assert(out@ == "    // "@ + description@ + "\n    "@ + key@ + optional_mark(required));
    out.append(": ");
    out.append(type_text);
    out.append("\n");
    out
}

/// The lines of a field of a plain type.
pub fn get_atom_ts(atom: &Atom) -> (r: String)
    ensures
        r@ == field_line(atom@),
{
    let description = get_legal_desc(atom.description.as_str());
    let type_text = format_atom_type(&atom.value);
    field_ts(description.as_str(), atom.key.as_str(), atom.required, type_text.as_str())
}

/// The lines of a field that is an object or a list: it names the declaration
/// of that object.
pub fn get_object_like_ts(object_like: &ObjectLike) -> (r: String)
    ensures
        r@ == field_line(object_like@),
{
    proof {
        reveal_strlit("");
    }
    let mut type_text = get_ts_interface_name(
        object_like.interface_name.as_str(),
        object_like.key.as_str(),
    );
    match object_like.object_type {
        ObjectType::Array => {
            type_text.append("[]");
        },
        ObjectType::Object => {},
    }
    field_ts(
        object_like.description.as_str(),
        object_like.key.as_str(),
        object_like.required,
        type_text.as_str(),
    )
}

/// The lines of a field.
fn value_ts(value: &JsonValue) -> (r: String)
    ensures
        r@ == field_line(value@),
{
    match value {
        JsonValue::Atom(atom) => get_atom_ts(atom),
        JsonValue::ObjectLike(object_like) => get_object_like_ts(object_like),
        JsonValue::Null => String::new(),
    }
}

/// The body of a declaration with the fields `values`.
fn values_body(values: &Vec<JsonValue>) -> (r: String)
    ensures
        r@ == fields_text(value_models(values@)),
{
    let ghost models = value_models(values@);
    let mut out = String::new();
    let mut i: usize = 0;
    while i < values.len()
        invariant
            i <= values.len(),
            models == value_models(values@),
            out@ == fields_text(models.take(i as int)),
        decreases values.len() - i,
    {
        let line = value_ts(&values[i]);
        proof {
            assert(models.take(i + 1).drop_last() =~= models.take(i as int));
        }
        out.append(line.as_str());
        i += 1;
    }
    proof {
        assert(models.take(i as int) =~= models);
    }
    out
}

/// The body of a declaration with the named slots `nodes`.
fn nodes_body(nodes: &Vec<Node>) -> (r: String)
    ensures
        r@ == fields_text(node_models(nodes@)),
{
    let ghost models = node_models(nodes@);
    let mut out = String::new();
    let mut i: usize = 0;
    while i < nodes.len()
        invariant
            i <= nodes.len(),
            models == node_models(nodes@),
            out@ == fields_text(models.take(i as int)),
        decreases nodes.len() - i,
    {
        let line = value_ts(&nodes[i].value);
        proof {
            assert(models.take(i + 1).drop_last() =~= models.take(i as int));
        }
        out.append(line.as_str());
        i += 1;
    }
    proof {
        assert(models.take(i as int) =~= models);
    }
    out
}

/// The values of two lists of declarations, one after the other, are the
/// values of the lists joined.
proof fn lemma_models_concat(a: Seq<Declaration>, b: Seq<Declaration>)
    ensures
        declaration_models(a + b) == declaration_models(a) + declaration_models(b),
{
    assert(declaration_models(a + b) =~= declaration_models(a) + declaration_models(b));
}

/// The declaration named `ts_name` with the fields in `nodes`, and below it
/// the declarations of the objects and lists among them.
pub fn resolve_nested_interfaces(nodes: &Vec<Node>, ts_name: &str) -> (r: Vec<Declaration>)
    ensures
        declaration_models(r@) == declarations(node_models(nodes@), ts_name@),
    decreases nodes,
{
    let ghost models = node_models(nodes@);
    let first = Declaration { name: String::from_str(ts_name), body: nodes_body(nodes) };
    let ghost head = seq![first@];
    let mut out: Vec<Declaration> = Vec::new();
    out.push(first);
    assert(declaration_models(out@) =~= head + nested_declarations(models.take(0)));
    let mut i: usize = 0;
    while i < nodes.len()
        invariant
            i <= nodes.len(),
            models == node_models(nodes@),
            declaration_models(out@) == head + nested_declarations(models.take(i as int)),
        decreases nodes.len() - i,
    {
        proof {
            assert(models.take(i + 1).drop_last() =~= models.take(i as int));
            assert(models.take(i + 1).last() == nodes@[i as int]@);
        }
        match &nodes[i].value {
            JsonValue::ObjectLike(object_like) => {
                let name = get_ts_interface_name(
                    object_like.interface_name.as_str(),
                    object_like.key.as_str(),
                );
                let mut below = resolve_nested_interfaces(
                    &object_like.nodes,
                    name.as_str(),
                );
                proof {
                    assert(nodes@[i as int]@->Node_value->ObjectLike_children =~= node_models(
                        object_like.nodes@,
                    ));
                    assert(declarations_below(nodes@[i as int]@) == declaration_models(below@));
                    lemma_models_concat(out@, below@);
                }
                out.append(&mut below);
            },
            _ => {
                assert(declarations_below(nodes@[i as int]@) == Seq::<DeclarationModel>::empty());
            },
        }
        proof {
            let before = nested_declarations(models.take(i as int));
            let step = declarations_below(nodes@[i as int]@);
            assert(nested_declarations(models.take(i + 1)) == before + step);
            assert(head + (before + step) =~= head + before + step);
        }
        i += 1;
    }
    proof {
        assert(models.take(i as int) =~= models);
    }
    out
}

/// The declaration named `ts_name` with the fields in `nodes`, and below it
/// the declarations of the objects and lists among them.
pub fn resolve_root_interfaces(nodes: &Vec<JsonValue>, ts_name: &str) -> (r: Vec<Declaration>)
    ensures
        declaration_models(r@) == declarations(value_models(nodes@), ts_name@),
{
    let ghost models = value_models(nodes@);
    let first = Declaration { name: String::from_str(ts_name), body: values_body(nodes) };
    let ghost head = seq![first@];
    let mut out: Vec<Declaration> = Vec::new();
    out.push(first);
    assert(declaration_models(out@) =~= head + nested_declarations(models.take(0)));
    let mut i: usize = 0;
    while i < nodes.len()
        invariant
            i <= nodes.len(),
            models == value_models(nodes@),
            declaration_models(out@) == head + nested_declarations(models.take(i as int)),
        decreases nodes.len() - i,
    {
        proof {
            assert(models.take(i + 1).drop_last() =~= models.take(i as int));
            assert(models.take(i + 1).last() == nodes@[i as int]@);
        }
        match &nodes[i] {
            JsonValue::ObjectLike(object_like) => {
                let name = get_ts_interface_name(
                    object_like.interface_name.as_str(),
                    object_like.key.as_str(),
                );
                let mut below = resolve_nested_interfaces(
                    &object_like.nodes,
                    name.as_str(),
                );
                proof {
                    assert(nodes@[i as int]@->ObjectLike_children =~= node_models(
                        object_like.nodes@,
                    ));
                    assert(declarations_below(nodes@[i as int]@) == declaration_models(below@));
                    lemma_models_concat(out@, below@);
                }
                out.append(&mut below);
            },
            _ => {
                assert(declarations_below(nodes@[i as int]@) == Seq::<DeclarationModel>::empty());
            },
        }
        proof {
            let before = nested_declarations(models.take(i as int));
            let step = declarations_below(nodes@[i as int]@);
            assert(nested_declarations(models.take(i + 1)) == before + step);
            assert(head + (before + step) =~= head + before + step);
        }
        i += 1;
    }
    proof {
        assert(models.take(i as int) =~= models);
    }
    out
}

impl Declaration {
    /// The text of the declaration.
    pub fn to_ts(&self) -> (r: String)
        ensures
            r@ == declaration_text(self@),
    {
        let mut out = String::from_str("export interface ");
        out.append(self.name.as_str());
        out.append(" {\n");
        out.append(self.body.as_str());
        out.append("}\n");
        out
    }
}

impl TypeArtifact {
    /// The text of the artifact.
    pub fn to_ts(&self) -> (r: String)
        ensures
            r@ == artifact_text(self@),
    {
        let ghost models = declaration_models(self.declarations@);
        let mut out = String::from_str("// ");
        out.append(self.description.as_str());
        out.append("\n");
        let ghost head = out@;
        let mut i: usize = 0;
        assert(out@ =~= head + declarations_text(models.take(0)));
        while i < self.declarations.len()
            invariant
                i <= self.declarations.len(),
                models == declaration_models(self.declarations@),
                out@ == head + declarations_text(models.take(i as int)),
            decreases self.declarations.len() - i,
        {
            let block = self.declarations[i].to_ts();
            proof {
                assert(models.take(i + 1).drop_last() =~= models.take(i as int));
                assert(models.take(i + 1).last() == self.declarations@[i as int]@);
                assert(head + declarations_text(models.take(i as int)) + block@ =~= head + (
                declarations_text(models.take(i as int)) + block@));
            }
            out.append(block.as_str());
            i += 1;
        }
        proof {
            assert(models.take(i as int) =~= models);
        }
        out
    }
}

/// The lines of a body fall into those of its parts.
pub proof fn lemma_fields_text_concat(a: Seq<SchemaNode>, b: Seq<SchemaNode>)
    ensures
        fields_text(a + b) == fields_text(a) + fields_text(b),
    decreases b.len(),
{
    if b.len() == 0 {
        assert(a + b =~= a);
    } else {
        assert((a + b).drop_last() =~= a + b.drop_last());
        lemma_fields_text_concat(a, b.drop_last());
    }
}

/// The nested declarations of fields fall into those of their parts, in the
/// order of the parts.
pub proof fn lemma_nested_declarations_concat(a: Seq<SchemaNode>, b: Seq<SchemaNode>)
    ensures
        nested_declarations(a + b) == nested_declarations(a) + nested_declarations(b),
    decreases b.len(),
{
    if b.len() == 0 {
        assert(a + b =~= a);
        assert(nested_declarations(a) + nested_declarations(b) =~= nested_declarations(a));
    } else {
        assert((a + b).drop_last() =~= a + b.drop_last());
        lemma_nested_declarations_concat(a, b.drop_last());
        assert(nested_declarations(a) + (nested_declarations(b.drop_last()) + declarations_below(
            b.last(),
        )) =~= nested_declarations(a) + nested_declarations(b.drop_last()) + declarations_below(
            b.last(),
        ));
    }
}

/// The order of the declarations: the declaration of the fields themselves
/// comes first; then, field by field, what each field brings, all of it
/// before anything of the next field.
pub proof fn lemma_declarations_in_order(children: Seq<SchemaNode>, name: Seq<char>, i: int)
    requires
        0 <= i < children.len(),
    ensures
        declarations(children, name)[0] == (DeclarationModel {
            name,
            body: fields_text(children),
        }),
        declarations(children, name) == seq![
            DeclarationModel { name, body: fields_text(children) },
        ] + nested_declarations(children.take(i)) + declarations_below(children[i])
            + nested_declarations(children.skip(i + 1)),
{
    let head = children.take(i + 1);
    assert(children =~= head + children.skip(i + 1));
    lemma_nested_declarations_concat(head, children.skip(i + 1));
    assert(head.drop_last() =~= children.take(i));
    assert(head.last() == children[i]);
    let root = seq![DeclarationModel { name, body: fields_text(children) }];
    assert(root + (nested_declarations(children.take(i)) + declarations_below(children[i])
        + nested_declarations(children.skip(i + 1))) =~= root + nested_declarations(
        children.take(i),
    ) + declarations_below(children[i]) + nested_declarations(children.skip(i + 1)));
}

/// The first declaration that a node brings is among the nested declarations
/// of the fields that it stands in.
pub proof fn lemma_nested_holds_below(children: Seq<SchemaNode>, i: int)
    requires
        0 <= i < children.len(),
        declarations_below(children[i]).len() > 0,
    ensures
        nested_declarations(children).contains(declarations_below(children[i])[0]),
    decreases children.len(),
{
    let before = nested_declarations(children.drop_last());
    let below = declarations_below(children.last());
    if i == children.len() - 1 {
        assert((before + below)[before.len() as int] == below[0]);
    } else {
        lemma_nested_holds_below(children.drop_last(), i);
        let first = declarations_below(children[i])[0];
        let k = choose|k: int| 0 <= k < before.len() && before[k] == first;
        assert((before + below)[k] == first);
    }
}

/// No inline nesting: a field that is an object or a list is written in the
/// body of its declaration as its comment, its key and a type that is the
/// name of a declaration, followed by `[]` for a list. That name holds ASCII
/// letters and digits only, and the declaration with that name and the
/// object's own fields is one of those that follow.
pub proof fn lemma_no_inline_nesting(children: Seq<SchemaNode>, name: Seq<char>, i: int)
    requires
        0 <= i < children.len(),
        slot_value(children[i]) is ObjectLike,
    ensures
        ({
            let object = slot_value(children[i]);
            let referred = ts_interface_name(object->ObjectLike_root_name, object->ObjectLike_key);
            &&& field_line(children[i]) == field_text(
                object->ObjectLike_description,
                object->ObjectLike_key,
                object->ObjectLike_required,
                referred + array_mark(object->shape),
            )
            &&& fields_text(children) == fields_text(children.take(i)) + field_line(children[i])
                + fields_text(children.skip(i + 1))
            &&& all_legal(referred)
            &&& declarations(children, name).contains(
                DeclarationModel { name: referred, body: fields_text(object->children) },
            )
        }),
{
    let object = slot_value(children[i]);
    let referred = ts_interface_name(object->ObjectLike_root_name, object->ObjectLike_key);
    lemma_interface_name_is_legal(object->ObjectLike_root_name, object->ObjectLike_key);
    assert(children =~= children.take(i) + seq![children[i]] + children.skip(i + 1));
    lemma_fields_text_concat(children.take(i) + seq![children[i]], children.skip(i + 1));
    lemma_fields_text_concat(children.take(i), seq![children[i]]);
    assert(fields_text(seq![children[i]]) == field_line(children[i])) by {
        assert(seq![children[i]].drop_last() =~= Seq::<SchemaNode>::empty());
        assert(fields_text(Seq::<SchemaNode>::empty()) =~= Seq::<char>::empty());
        assert(Seq::<char>::empty() + field_line(children[i]) =~= field_line(children[i]));
    }
    let first = DeclarationModel { name: referred, body: fields_text(object->children) };
    assert(declarations_below(children[i])[0] == first);
    lemma_nested_holds_below(children, i);
    let nested = nested_declarations(children);
    let k = choose|k: int| 0 <= k < nested.len() && nested[k] == first;
    assert(declarations(children, name)[k + 1] == first);
}

/// A node that names a declaration of its own.
pub trait TsBridge {
    /// The name of the node's declaration.
    spec fn ts_name(&self) -> Seq<char>;

    /// The name of the node's declaration.
    fn get_ts_name(&self) -> (r: String)
        ensures
            r@ == self.ts_name(),
    ;
}

/// A node that is written as text.
pub trait ToTs {
    /// The text of the node.
    spec fn ts_text(&self) -> Seq<char>;

    /// The text of the node.
    fn to_ts(&self) -> (r: String)
        ensures
            r@ == self.ts_text(),
    ;
}

impl TsBridge for ObjectLike {
    open spec fn ts_name(&self) -> Seq<char> {
        ts_interface_name(self.interface_name@, self.key@)
    }

    fn get_ts_name(&self) -> (r: String) {
        get_ts_interface_name(self.interface_name.as_str(), self.key.as_str())
    }
}

impl TsBridge for Root {
    open spec fn ts_name(&self) -> Seq<char> {
        ts_interface_name(self.interface_name@, self.key@)
    }

    fn get_ts_name(&self) -> (r: String) {
        get_ts_interface_name(self.interface_name.as_str(), self.key.as_str())
    }
}

impl ToTs for Atom {
    open spec fn ts_text(&self) -> Seq<char> {
        field_line(self@)
    }

    fn to_ts(&self) -> (r: String) {
        get_atom_ts(self)
    }
}

impl ToTs for ObjectLike {
    open spec fn ts_text(&self) -> Seq<char> {
        field_line(self@)
    }

    fn to_ts(&self) -> (r: String) {
        get_object_like_ts(self)
    }
}

impl Root {
    /// The text of the root's declarations, below a comment with the
    /// interface's description.
    pub fn to_ts(&self) -> (r: String)
        ensures
            r@ == artifact_text(root_artifact(self@)),
    {
        get_root_ts(self)
    }
}

/// The artifact of a root.
pub fn root_declarations(root: &Root) -> (r: TypeArtifact)
    ensures
        r@ == root_artifact(root@),
{
    let ts_name = get_ts_interface_name(root.interface_name.as_str(), root.key.as_str());
    let declarations = match &root.children {
        Some(nodes) => {
            assert(root_children(root@) =~= value_models(nodes@));
            resolve_root_interfaces(nodes, ts_name.as_str())
        },
        None => {
            let nodes: Vec<JsonValue> = Vec::new();
            assert(root_children(root@) =~= value_models(nodes@));
            resolve_root_interfaces(&nodes, ts_name.as_str())
        },
    };
    TypeArtifact { description: root.interface_desc.clone(), declarations }
}

/// The text of a root's declarations, below a comment with the interface's
/// description.
pub fn get_root_ts(root: &Root) -> (r: String)
    ensures
        r@ == artifact_text(root_artifact(root@)),
{
    root_declarations(root).to_ts()
}

} // verus!
