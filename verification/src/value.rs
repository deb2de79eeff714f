//! JSON text, and the values of `serde_json` that stand behind it.
use vstd::prelude::*;

use crate::json::{ascending, number_u64, Json, Members, OtherNumber, Tree};

verus! {

/// The type `serde_json::Value`.
#[verifier::external_type_specification]
#[verifier::external_body]
pub struct DeclaredValue(serde_json::Value);

/// What a `serde_json::Value` holds.
pub uninterp spec fn value_tree(value: serde_json::Value) -> Tree;

/// What `serde_json` reads from a text: a value, or the message of its error.
pub uninterp spec fn parsed_json(text: Seq<char>) -> Result<Tree, Seq<char>>;

/// The compact text that `serde_json` writes for a value.
pub uninterp spec fn json_text(tree: Tree) -> Seq<char>;

/// One level of a `serde_json::Value`.
pub enum Node {
    Null,
    Bool(bool),
    Number(serde_json::Number),
    Text(String),
    Array(Vec<serde_json::Value>),
    Object(Vec<(String, serde_json::Value)>),
}

impl Node {
    /// What the level says, with what stands below it.
    pub open spec fn tree(self) -> Tree {
        match self {
            Node::Null => Tree::Null,
            Node::Bool(b) => Tree::Bool(b),
            Node::Number(number) => match number_u64(number) {
                Some(n) => Tree::Unsigned(n),
                None => Tree::Number(number),
            },
            Node::Text(s) => Tree::Text(s@),
            Node::Array(items) => Tree::Array(
                items@.map_values(|item: serde_json::Value| value_tree(item)),
            ),
            Node::Object(entries) => Tree::Object(
                entries@.map_values(
                    |entry: (String, serde_json::Value)| (entry.0@, value_tree(entry.1)),
                ),
            ),
        }
    }

    /// Whether the keys of an object ascend.
    pub open spec fn ordered(self) -> bool {
        match self {
            Node::Object(entries) => ascending(
                entries@.map_values(|entry: (String, serde_json::Value)| entry.0@),
            ),
            _ => true,
        }
    }
}

/// Takes a `serde_json::Value` apart by its variants. The entries of a `serde_json::Map`, which
/// is a `BTreeMap`, come out with their keys ascending.
#[verifier::external_body]
fn open_value(value: serde_json::Value) -> (res: Node)
    ensures
        res.tree() == value_tree(value),
        res.ordered(),
{
    match value {
        serde_json::Value::Null => Node::Null,
        serde_json::Value::Bool(b) => Node::Bool(b),
        serde_json::Value::Number(number) => Node::Number(number),
        serde_json::Value::String(s) => Node::Text(s),
        serde_json::Value::Array(items) => Node::Array(items),
        serde_json::Value::Object(map) => Node::Object(map.into_iter().collect()),
    }
}

/// Puts a `serde_json::Value` together from one level. A `serde_json::Map` takes entries with
/// different keys as they are.
#[verifier::external_body]
fn close_value(node: Node) -> (res: serde_json::Value)
    requires
        node.ordered(),
    ensures
        value_tree(res) == node.tree(),
{
    match node {
        Node::Null => serde_json::Value::Null,
        Node::Bool(b) => serde_json::Value::Bool(b),
        Node::Number(number) => serde_json::Value::Number(number),
        Node::Text(s) => serde_json::Value::String(s),
        Node::Array(items) => serde_json::Value::Array(items),
        Node::Object(entries) => serde_json::Value::Object(entries.into_iter().collect()),
    }
}

/// Calls `serde_json::Number::from` for a `u64`, which makes the number that holds it.
#[verifier::external_body]
fn unsigned_number(n: u64) -> (res: serde_json::Number)
    ensures
        number_u64(res) == Some(n),
{
    serde_json::Number::from(n)
}

/// Calls `serde_json::from_str` for a `serde_json::Value`: what is read depends on the text
/// alone, and so does the message of the error.
#[verifier::external_body]
fn read_value(text: &str) -> (res: Result<serde_json::Value, String>)
    ensures
        match res {
            Ok(value) => parsed_json(text@) == Ok::<Tree, Seq<char>>(value_tree(value)),
            Err(message) => parsed_json(text@) == Err::<Tree, Seq<char>>(message@),
        },
{
    match serde_json::from_str::<serde_json::Value>(text) {
        Ok(value) => Ok(value),
        Err(error) => Err(error.to_string()),
    }
}

/// Calls `to_string` of a `serde_json::Value`, which gives its compact JSON text.
#[verifier::external_body]
fn write_value(value: &serde_json::Value) -> (res: String)
    ensures
        res@ == json_text(value_tree(*value)),
{
    value.to_string()
}

/// The JSON value that a `serde_json::Value` holds.
pub fn from_value(value: serde_json::Value) -> (res: Json)
    ensures
        res@ == value_tree(value),
    decreases value_tree(value),
{
    match open_value(value) {
        Node::Null => Json::Null,
        Node::Bool(b) => Json::Bool(b),
        Node::Number(number) => match number.as_u64() {
            Some(n) => Json::Unsigned(n),
            None => Json::Number(OtherNumber::new(number)),
        },
        Node::Text(s) => Json::Text(s),
        Node::Array(values) => {
            let ghost all = values@;
            let ghost tree = value_tree(value);
            let mut items: Vec<Json> = Vec::new();
            for inner in it: values
                invariant
                    it.seq() == all,
                    tree == value_tree(value),
                    tree == Tree::Array(all.map_values(|item: serde_json::Value| value_tree(item))),
                    items@.len() == it.index(),
                    forall|j: int| 0 <= j < items@.len() ==> (#[trigger] items@[j])@ == value_tree(all[j]),
            {
                assert(decreases_to!(tree => tree->Array_0[it.index()]));
                items.push(from_value(inner));
            }
            let res = Json::Array(items);
            assert(res@->Array_0 == tree->Array_0);
            res
        },
        Node::Object(values) => {
            let ghost all = values@;
            let ghost tree = value_tree(value);
            let mut entries: Vec<(String, Json)> = Vec::new();
            for inner in it: values
                invariant
                    it.seq() == all,
                    tree == value_tree(value),
                    tree == Tree::Object(
                        all.map_values(
                            |entry: (String, serde_json::Value)| (entry.0@, value_tree(entry.1)),
                        ),
                    ),
                    entries@.len() == it.index(),
                    forall|j: int|
                        0 <= j < entries@.len() ==> (#[trigger] entries@[j]).0@ == all[j].0@
                            && entries@[j].1@ == value_tree(all[j].1),
            {
                assert(decreases_to!(tree => tree->Object_0[it.index()].1));
                entries.push((inner.0, from_value(inner.1)));
            }
            assert(entries@.map_values(|entry: (String, Json)| entry.0@) == all.map_values(
                |entry: (String, serde_json::Value)| entry.0@,
            ));
            let members = Members::from_ascending(entries);
            assert(members@ == tree->Object_0);
            Json::Object(members)
        },
    }
}

/// The `serde_json::Value` that holds a JSON value.
pub fn to_value(json: &Json) -> (res: serde_json::Value)
    ensures
        value_tree(res) == json@,
    decreases json@,
{
    match json {
        Json::Null => close_value(Node::Null),
        Json::Bool(b) => close_value(Node::Bool(*b)),
        Json::Unsigned(n) => close_value(Node::Number(unsigned_number(*n))),
        Json::Number(n) => close_value(Node::Number(n.number())),
        Json::Text(s) => close_value(Node::Text(s.clone())),
        Json::Array(items) => {
            let mut values: Vec<serde_json::Value> = Vec::new();
            let mut i: usize = 0;
            while i < items.len()
                invariant
                    *json == Json::Array(*items),
                    i <= items@.len(),
                    values@.len() == i,
                    forall|j: int| 0 <= j < i ==> value_tree(#[trigger] values@[j]) == items@[j]@,
                decreases items@.len() - i,
            {
                assert(decreases_to!(json@ => json@->Array_0[i as int]));
                let value = to_value(&items[i]);
                values.push(value);
                i = i + 1;
            }
            let node = Node::Array(values);
            assert(node.tree()->Array_0 == json@->Array_0);
            close_value(node)
        },
        Json::Object(members) => {
            let count = members.len();
            let mut values: Vec<(String, serde_json::Value)> = Vec::new();
            let mut i: usize = 0;
            while i < count
                invariant
                    *json == Json::Object(*members),
                    count == members@.len(),
                    i <= count,
                    values@.len() == i,
                    forall|j: int|
                        0 <= j < i ==> (#[trigger] values@[j]).0@ == members@[j].0
                            && value_tree(values@[j].1) == members@[j].1,
                decreases count - i,
            {
                assert(decreases_to!(json@ => json@->Object_0[i as int].1));
                let value = to_value(members.value(i));
                values.push((members.key(i).to_owned(), value));
                i = i + 1;
            }
            let node = Node::Object(values);
            assert(node.tree()->Object_0 == members@);
            assert(values@.map_values(|entry: (String, serde_json::Value)| entry.0@)
                == crate::json::keys(members@));
            close_value(node)
        },
    }
}

/// What reading a JSON text gave.
pub open spec fn parsed_view(parsed: Result<Json, String>) -> Result<Tree, Seq<char>> {
    match parsed {
        Ok(json) => Ok(json@),
        Err(message) => Err(message@),
    }
}

/// Reads a JSON text.
pub fn parse(text: &str) -> (res: Result<Json, String>)
    ensures
        parsed_view(res) == parsed_json(text@),
{
    match read_value(text) {
        Ok(value) => Ok(from_value(value)),
        Err(message) => Err(message),
    }
}

/// The compact JSON text of a value.
pub fn render(json: &Json) -> (res: String)
    ensures
        res@ == json_text(json@),
{
    write_value(&to_value(json))
}

/// One level of a value says what it holds: a number that is an integer from zero to `u64::MAX`
/// is that integer, the items of an array and the entries of an object come in their order, and
/// everything else is as it is.
pub proof fn level_says_what_it_holds(node: Node, i: int, text: String)
    ensures
        node is Null <==> node.tree() is Null,
        node matches Node::Bool(b) ==> node.tree() == Tree::Bool(b),
        node matches Node::Number(number) ==> (number_u64(number) matches Some(n) ==> node.tree()
            == Tree::Unsigned(n)),
        node matches Node::Number(number) ==> (number_u64(number) is None ==> node.tree()
            == Tree::Number(number)),
        node matches Node::Text(s) ==> node.tree() == Tree::Text(s@),
        node matches Node::Array(items) ==> node.tree() is Array && node.tree()->Array_0.len()
            == items@.len() && (0 <= i < items@.len() ==> node.tree()->Array_0[i] == value_tree(
            items@[i],
        )),
        node matches Node::Object(entries) ==> node.tree() is Object && node.tree()->Object_0.len()
            == entries@.len() && (0 <= i < entries@.len() ==> node.tree()->Object_0[i] == (
            entries@[i].0@,
            value_tree(entries@[i].1),
        )),
        parsed_view(Err(text)) == Err::<Tree, Seq<char>>(text@),
{
}

/// What was read is the value that was read.
pub proof fn read_value_is_said(json: Json)
    ensures
        parsed_view(Ok(json)) == Ok::<Tree, Seq<char>>(json@),
{
}

} // verus!
