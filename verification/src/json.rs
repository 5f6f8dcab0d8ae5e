//! A JSON tree as plain values, and the text parser that builds one.

use crate::text::same_text;
use vstd::prelude::*;

verus! {

/// The mathematical value of a JSON tree. An object keeps its members in the
/// order in which they were written.
pub enum JsonModel {
    Null,
    Bool(bool),
    Number(Seq<char>),
    Text(Seq<char>),
    Array(Seq<JsonModel>),
    Object(Seq<(Seq<char>, JsonModel)>),
}

/// A JSON tree. `Number` holds the number's decimal text.
#[derive(Debug, PartialEq)]
pub enum Json {
    Null,
    Bool(bool),
    Number(String),
    Text(String),
    Array(Vec<Json>),
    Object(Vec<(String, Json)>),
}

/// The mathematical value that a tree stands for.
pub open spec fn model_of(j: Json) -> JsonModel
    decreases j,
{
    match j {
        Json::Null => JsonModel::Null,
        Json::Bool(b) => JsonModel::Bool(b),
        Json::Number(n) => JsonModel::Number(n@),
        Json::Text(s) => JsonModel::Text(s@),
        Json::Array(items) => JsonModel::Array(
            Seq::new(
                items@.len(),
                |i: int|
                    if 0 <= i < items@.len() {
                        model_of(items@[i])
                    } else {
                        JsonModel::Null
                    },
            ),
        ),
        Json::Object(members) => JsonModel::Object(
            Seq::new(
                members@.len(),
                |i: int|
                    if 0 <= i < members@.len() {
                        (members@[i].0@, model_of(members@[i].1))
                    } else {
                        (Seq::empty(), JsonModel::Null)
                    },
            ),
        ),
    }
}

impl View for Json {
    type V = JsonModel;

    open spec fn view(&self) -> JsonModel {
        model_of(*self)
    }
}

/// What each member of an object stands for.
pub open spec fn member_models(v: Seq<(String, Json)>) -> Seq<(Seq<char>, JsonModel)> {
    Seq::new(v.len(), |i: int| (v[i].0@, v[i].1@))
}

/// What each item of a list stands for.
pub open spec fn item_models(v: Seq<Json>) -> Seq<JsonModel> {
    Seq::new(v.len(), |i: int| v[i]@)
}

/// What an optional tree stands for.
pub open spec fn option_model(j: Option<&Json>) -> Option<JsonModel> {
    match j {
        Some(j) => Some(j@),
        None => None,
    }
}

/// The value of the first member of `members` whose key is `key`.
pub open spec fn member(members: Seq<(Seq<char>, JsonModel)>, key: Seq<char>) -> Option<JsonModel>
    decreases members.len(),
{
    if members.len() == 0 {
        None
    } else if members[0].0 == key {
        Some(members[0].1)
    } else {
        member(members.drop_first(), key)
    }
}

impl JsonModel {
    /// The member `key` of an object; `None` for any other value.
    pub open spec fn get(self, key: Seq<char>) -> Option<JsonModel> {
        match self {
            JsonModel::Object(members) => member(members, key),
            _ => None,
        }
    }

    /// The text of a string value.
    pub open spec fn as_str(self) -> Option<Seq<char>> {
        match self {
            JsonModel::Text(s) => Some(s),
            _ => None,
        }
    }

    /// The text of the member `key`, where that member is a string.
    pub open spec fn text_of(self, key: Seq<char>) -> Option<Seq<char>> {
        match self.get(key) {
            Some(JsonModel::Text(s)) => Some(s),
            _ => None,
        }
    }
}

impl Json {
    /// The member `key` of an object; `None` for any other value.
    pub fn get(&self, key: &str) -> (r: Option<&Json>)
        ensures
            match r {
                Some(j) => self@.get(key@) == Some(j@),
                None => self@.get(key@) is None,
            },
            r matches Some(j) ==> decreases_to!(self => j),
    {
        match self {
            Json::Object(members) => {
                let ghost model = self@->Object_0;
                assert(self@ is Object);
                assert(model.len() == members@.len());
                assert(model.skip(0) =~= model);
                let mut i: usize = 0;
                while i < members.len()
                    invariant
                        i <= members.len(),
                        self@ == JsonModel::Object(model),
                        *self == Json::Object(*members),
                        model.len() == members@.len(),
                        member(model, key@) == member(model.skip(i as int), key@),
                        forall|k: int|
                            0 <= k < model.len() ==> model[k] == (
                                (#[trigger] members@[k]).0@,
                                members@[k].1@,
                            ),
                    decreases members.len() - i,
                {
                    let entry = &members[i];
                    assert(model.skip(i as int)[0] == model[i as int]);
                    assert(model[i as int] == (entry.0@, entry.1@));
                    if same_text(entry.0.as_str(), key) {
                        return Some(&entry.1);
                    }
                    assert(model.skip(i as int).drop_first() =~= model.skip(i + 1));
                    i += 1;
                }
                None
            },
            _ => None,
        }
    }

    /// The members of an object.
    pub fn as_object(&self) -> (r: Option<&Vec<(String, Json)>>)
        ensures
            match r {
                Some(members) => self@ == JsonModel::Object(member_models(members@))
                    && decreases_to!(self => members),
                None => !(self@ is Object),
            },
    {
        match self {
            Json::Object(members) => {
                assert(self@->Object_0 =~= member_models(members@));
                Some(members)
            },
            _ => None,
        }
    }

    /// The items of a list.
    pub fn as_array(&self) -> (r: Option<&Vec<Json>>)
        ensures
            match r {
                Some(items) => self@ == JsonModel::Array(item_models(items@))
                    && decreases_to!(self => items),
                None => !(self@ is Array),
            },
    {
        match self {
            Json::Array(items) => {
                assert(self@->Array_0 =~= item_models(items@));
                Some(items)
            },
            _ => None,
        }
    }

    /// Whether the value is a list.
    pub fn is_array(&self) -> (r: bool)
        ensures
            r == (self@ is Array),
    {
        match self {
            Json::Array(_) => true,
            _ => false,
        }
    }

    /// The text of a string value.
    pub fn as_str(&self) -> (r: Option<&str>)
        ensures
            match r {
                Some(s) => self@.as_str() == Some(s@),
                None => self@.as_str() is None,
            },
    {
        match self {
            Json::Text(s) => Some(s.as_str()),
            _ => None,
        }
    }

    /// The text of the member `key`, where that member is a string.
    pub fn text_of(&self, key: &str) -> (r: Option<&str>)
        ensures
            match r {
                Some(s) => self@.text_of(key@) == Some(s@),
                None => self@.text_of(key@) is None,
            },
    {
        match self.get(key) {
            Some(value) => value.as_str(),
            None => None,
        }
    }
}

impl Clone for Json {
    /// A copy of the whole tree.
    fn clone(&self) -> (r: Self)
        ensures
            r@ == self@,
        decreases self,
    {
        match self {
            Json::Null => Json::Null,
            Json::Bool(b) => Json::Bool(*b),
            Json::Number(n) => Json::Number(n.clone()),
            Json::Text(s) => Json::Text(s.clone()),
            Json::Array(items) => {
                let copy = clone_items(items);
                let tree = Json::Array(copy);
                assert(tree@->Array_0 =~= item_models(copy@));
                assert(self@->Array_0 =~= item_models(items@));
                tree
            },
            Json::Object(members) => {
                let mut copy: Vec<(String, Json)> = Vec::new();
                let mut i: usize = 0;
                while i < members.len()
                    invariant
                        i <= members.len(),
                        copy@.len() == i,
                        decreases_to!(self => members),
                        forall|j: int|
                            0 <= j < i ==> (#[trigger] copy@[j]).0@ == members@[j].0@ && copy@[j].1@
                                == members@[j].1@,
                    decreases members.len() - i,
                {
                    copy.push((members[i].0.clone(), members[i].1.clone()));
                    i += 1;
                }
                let tree = Json::Object(copy);
                assert(tree@->Object_0 =~= self@->Object_0);
                tree
            },
        }
    }
}

/// A copy of each tree of a list.
pub fn clone_items(items: &Vec<Json>) -> (r: Vec<Json>)
    ensures
        item_models(r@) == item_models(items@),
    decreases items,
{
    let mut copy: Vec<Json> = Vec::new();
    let mut i: usize = 0;
    while i < items.len()
        invariant
            i <= items.len(),
            copy@.len() == i,
            forall|j: int| 0 <= j < i ==> (#[trigger] copy@[j])@ == items@[j]@,
        decreases items.len() - i,
    {
        copy.push(items[i].clone());
        i += 1;
    }
    copy
}

/// Names the tree that `serde_json::from_str` reads from a text: `None` where
/// it rejects the text.
pub uninterp spec fn parsed_json(text: Seq<char>) -> Option<JsonModel>;

/// Names the tree that a `serde_json::Value` holds.
pub uninterp spec fn value_tree(v: serde_json::Value) -> JsonModel;

/// `serde_json::Value`, carried from the parser to the conversion without a
/// look inside.
#[verifier::external_type_specification]
#[verifier::external_body]
pub struct ExValue(serde_json::Value);

/// `serde_json::from_str` for a `Value`: the parser's result is a function of
/// the text alone, and it is the tree that `parsed_json` names.
#[verifier::external_body]
fn parse_value(text: &str) -> (r: Option<serde_json::Value>)
    ensures
        match r {
            Some(v) => parsed_json(text@) == Some(value_tree(v)),
            None => parsed_json(text@) is None,
        },
{
    serde_json::from_str::<serde_json::Value>(text).ok()
}

/// The top of a `serde_json::Value`: its variant, with what that holds.
enum ValueParts {
    Null,
    Bool(bool),
    Number(String),
    Text(String),
    Array(Vec<serde_json::Value>),
    Object(Vec<(String, serde_json::Value)>),
}

/// What each of the values holds.
pub open spec fn value_trees(v: Seq<serde_json::Value>) -> Seq<JsonModel> {
    Seq::new(v.len(), |i: int| value_tree(v[i]))
}

/// What each of the members holds.
pub open spec fn member_trees(v: Seq<(String, serde_json::Value)>) -> Seq<(Seq<char>, JsonModel)> {
    Seq::new(v.len(), |i: int| (v[i].0@, value_tree(v[i].1)))
}

/// Takes a `serde_json::Value` apart by its variant: a number gives the text
/// that its `Display` writes, a list its items, and an object its members in
/// the order in which its map hands them out. The tree that the value holds
/// is that variant over the trees of what was in it.
#[verifier::external_body]
fn open_value(v: serde_json::Value) -> (r: ValueParts)
    ensures
        value_tree(v) == match r {
            ValueParts::Null => JsonModel::Null,
            ValueParts::Bool(b) => JsonModel::Bool(b),
            ValueParts::Number(n) => JsonModel::Number(n@),
            ValueParts::Text(s) => JsonModel::Text(s@),
            ValueParts::Array(items) => JsonModel::Array(value_trees(items@)),
            ValueParts::Object(members) => JsonModel::Object(member_trees(members@)),
        },
{
    match v {
        serde_json::Value::Null => ValueParts::Null,
        serde_json::Value::Bool(b) => ValueParts::Bool(b),
        serde_json::Value::Number(n) => ValueParts::Number(n.to_string()),
        serde_json::Value::String(s) => ValueParts::Text(s),
        serde_json::Value::Array(a) => ValueParts::Array(a),
        serde_json::Value::Object(o) => ValueParts::Object(o.into_iter().collect()),
    }
}

/// Builds the tree that a `serde_json::Value` holds.
fn lift_value(v: serde_json::Value) -> (r: Json)
    ensures
        r@ == value_tree(v),
    decreases value_tree(v),
{
    let ghost whole = value_tree(v);
    match open_value(v) {
        ValueParts::Null => Json::Null,
        ValueParts::Bool(b) => Json::Bool(b),
        ValueParts::Number(n) => Json::Number(n),
        ValueParts::Text(s) => Json::Text(s),
        ValueParts::Array(items) => {
            let ghost trees = value_trees(items@);
            let mut out: Vec<Json> = Vec::new();
            for item in it: items
                invariant
                    it.seq() == items@,
                    trees == value_trees(items@),
                    whole == JsonModel::Array(trees),
                    whole == value_tree(v),
                    item_models(out@) == trees.take(it.index() as int),
            {
                let ghost before = item_models(out@);
                assert(trees[it.index() as int] == value_tree(item));
                assert(decreases_to!(whole => whole->Array_0));
                assert(decreases_to!(trees => trees[it.index() as int]));
                out.push(lift_value(item));
                assert(item_models(out@) =~= before.push(out@.last()@));
                assert(trees.take(it.index() + 1) =~= trees.take(it.index() as int).push(
                    value_tree(item),
                ));
            }
            assert(trees.take(trees.len() as int) =~= trees);
            let tree = Json::Array(out);
            assert(tree@->Array_0 =~= item_models(out@));
            tree
        },
        ValueParts::Object(members) => {
            let ghost trees = member_trees(members@);
            let mut out: Vec<(String, Json)> = Vec::new();
            for member in it: members
                invariant
                    it.seq() == members@,
                    trees == member_trees(members@),
                    whole == JsonModel::Object(trees),
                    whole == value_tree(v),
                    member_models(out@) == trees.take(it.index() as int),
            {
                let ghost before = member_models(out@);
                let ghost entry = (member.0@, value_tree(member.1));
                assert(trees[it.index() as int] == entry);
                assert(decreases_to!(whole => whole->Object_0));
                assert(decreases_to!(trees => trees[it.index() as int]));
                assert(decreases_to!(entry => entry.1));
                let (key, value) = member;
                out.push((key, lift_value(value)));
                assert(member_models(out@) =~= before.push(entry));
                assert(trees.take(it.index() + 1) =~= trees.take(it.index() as int).push(entry));
            }
            assert(trees.take(trees.len() as int) =~= trees);
            let tree = Json::Object(out);
            assert(tree@->Object_0 =~= member_models(out@));
            tree
        },
    }
}

/// The tree that a text is read as: `Null` for a text that is no JSON.
pub open spec fn json_of_text(text: Seq<char>) -> JsonModel {
    match parsed_json(text) {
        Some(tree) => tree,
        None => JsonModel::Null,
    }
}

/// Reads a text as JSON; a text that is no JSON gives `Null`.
pub fn get_json(json_str: &str) -> (r: Json)
    ensures
        r@ == json_of_text(json_str@),
{
    match parse_value(json_str) {
        Some(value) => lift_value(value),
        None => Json::Null,
    }
}

} // verus!
