//! JSON values as plain data.
use vstd::prelude::*;

use crate::text::{
    precedes, precedes_irreflexive, precedes_total, precedes_transitive, same, stands_before,
};

verus! {

/// The type `serde_json::Number`, which holds any JSON number.
#[verifier::external_type_specification]
#[verifier::external_body]
pub struct DeclaredNumber(serde_json::Number);

/// The integer from zero to `u64::MAX` that a `serde_json::Number` holds, where it holds one.
pub uninterp spec fn number_u64(number: serde_json::Number) -> Option<u64>;

/// What a JSON value says. The entries of an object stand in the order of their keys,
/// and no key occurs twice.
pub enum Tree {
    Null,
    Bool(bool),
    /// A number that is an integer from zero to `u64::MAX`.
    Unsigned(u64),
    /// Any other number.
    Number(serde_json::Number),
    Text(Seq<char>),
    Array(Seq<Tree>),
    Object(Seq<(Seq<char>, Tree)>),
}

/// A JSON number that is no integer from zero to `u64::MAX`.
#[derive(Debug, PartialEq)]
pub struct OtherNumber {
    number: serde_json::Number,
}

/// The entries of a JSON object, in the order of their keys.
#[derive(Debug, PartialEq)]
pub struct Members {
    entries: Vec<(String, Json)>,
}

/// A JSON value.
#[derive(Debug, PartialEq)]
pub enum Json {
    Null,
    Bool(bool),
    Unsigned(u64),
    Number(OtherNumber),
    Text(String),
    Array(Vec<Json>),
    Object(Members),
}

/// Whether keys stand in ascending order, which leaves no room for one to occur twice.
pub open spec fn ascending(keys: Seq<Seq<char>>) -> bool {
    forall|i: int, j: int| 0 <= i < j < keys.len() ==> precedes(#[trigger] keys[i], #[trigger] keys[j])
}

/// The keys of a row of entries.
pub open spec fn keys(rows: Seq<(Seq<char>, Tree)>) -> Seq<Seq<char>> {
    rows.map_values(|row: (Seq<char>, Tree)| row.0)
}

impl Members {
    /// The entries, each a key with what its value says.
    pub closed spec fn rows(self) -> Seq<(Seq<char>, Tree)>
        decreases self,
    {
        Seq::new(
            self.entries@.len(),
            |i: int|
                if 0 <= i < self.entries@.len() {
                    (self.entries@[i].0@, self.entries@[i].1.tree())
                } else {
                    (Seq::empty(), Tree::Null)
                },
        )
    }

    #[verifier::type_invariant]
    spec fn well_formed(self) -> bool {
        ascending(keys(self.rows()))
    }
}

impl View for Members {
    type V = Seq<(Seq<char>, Tree)>;

    open spec fn view(&self) -> Seq<(Seq<char>, Tree)> {
        self.rows()
    }
}

impl Json {
    /// What the value says.
    pub open spec fn tree(self) -> Tree
        decreases self,
    {
        match self {
            Json::Null => Tree::Null,
            Json::Bool(b) => Tree::Bool(b),
            Json::Unsigned(n) => Tree::Unsigned(n),
            Json::Number(n) => Tree::Number(n.value()),
            Json::Text(s) => Tree::Text(s@),
            Json::Array(items) => Tree::Array(
                Seq::new(
                    items@.len(),
                    |i: int| if 0 <= i < items@.len() { items@[i].tree() } else { Tree::Null },
                ),
            ),
            Json::Object(members) => Tree::Object(members.rows()),
        }
    }
}

impl OtherNumber {
    /// The number.
    pub closed spec fn value(self) -> serde_json::Number {
        self.number
    }

    #[verifier::type_invariant]
    spec fn well_formed(self) -> bool {
        number_u64(self.number) is None
    }
}

impl View for Json {
    type V = Tree;

    open spec fn view(&self) -> Tree {
        self.tree()
    }
}

/// The position of the first entry with this key, or the number of entries where there is
/// none.
pub open spec fn key_index(rows: Seq<(Seq<char>, Tree)>, key: Seq<char>) -> int
    decreases rows.len(),
{
    if rows.len() == 0 || rows[0].0 == key {
        0
    } else {
        1 + key_index(rows.drop_first(), key)
    }
}

/// How many entries, from the first on, have a key that stands before this one.
pub open spec fn place(rows: Seq<(Seq<char>, Tree)>, key: Seq<char>) -> int
    decreases rows.len(),
{
    if rows.len() == 0 || !precedes(rows[0].0, key) {
        0
    } else {
        1 + place(rows.drop_first(), key)
    }
}

/// The entries with `value` under `key`: in place of what stood there, or at its place in
/// the order.
pub open spec fn with_row(
    rows: Seq<(Seq<char>, Tree)>,
    key: Seq<char>,
    value: Tree,
) -> Seq<(Seq<char>, Tree)> {
    let at = place(rows, key);
    if at < rows.len() && rows[at].0 == key {
        rows.update(at, (key, value))
    } else {
        rows.insert(at, (key, value))
    }
}

/// What the values of a list say.
pub open spec fn trees(items: Seq<Json>) -> Seq<Tree> {
    items.map_values(|item: Json| item.tree())
}

impl Tree {
    /// The object without entries.
    pub open spec fn object() -> Tree {
        Tree::Object(Seq::empty())
    }

    /// The object with `value` under `key`; what is no object stays as it is.
    #[verifier::opaque]
    pub open spec fn with(self, key: Seq<char>, value: Tree) -> Tree {
        match self {
            Tree::Object(rows) => Tree::Object(with_row(rows, key, value)),
            _ => self,
        }
    }

    /// The value under a key of an object.
    pub open spec fn get(self, key: Seq<char>) -> Option<Tree> {
        match self {
            Tree::Object(rows) => {
                let at = key_index(rows, key);
                if 0 <= at < rows.len() {
                    Some(rows[at].1)
                } else {
                    None
                }
            },
            _ => None,
        }
    }

    /// The characters of a text.
    pub open spec fn as_text(self) -> Option<Seq<char>> {
        match self {
            Tree::Text(s) => Some(s),
            _ => None,
        }
    }

    /// The items of an array.
    pub open spec fn as_items(self) -> Option<Seq<Tree>> {
        match self {
            Tree::Array(items) => Some(items),
            _ => None,
        }
    }

    /// The text under a key of an object.
    pub open spec fn text_at(self, key: Seq<char>) -> Option<Seq<char>> {
        match self.get(key) {
            Some(value) => value.as_text(),
            None => None,
        }
    }

    /// Whether the value is an object, with its keys in ascending order.
    pub open spec fn is_object(self) -> bool {
        match self {
            Tree::Object(rows) => ascending(keys(rows)),
            _ => false,
        }
    }
}

proof fn place_is_first(rows: Seq<(Seq<char>, Tree)>, key: Seq<char>)
    ensures
        0 <= place(rows, key) <= rows.len(),
        forall|i: int| 0 <= i < place(rows, key) ==> precedes(#[trigger] rows[i].0, key),
        place(rows, key) < rows.len() ==> !precedes(rows[place(rows, key)].0, key),
    decreases rows.len(),
{
    if rows.len() > 0 && precedes(rows[0].0, key) {
        let rest = rows.drop_first();
        place_is_first(rest, key);
        assert forall|i: int| 0 <= i < place(rows, key) implies precedes(
            #[trigger] rows[i].0,
            key,
        ) by {
            if i > 0 {
                assert(rows[i] == rest[i - 1]);
                assert(precedes(rest[i - 1].0, key));
            }
        }
    }
}

proof fn key_index_is_first(rows: Seq<(Seq<char>, Tree)>, key: Seq<char>)
    ensures
        0 <= key_index(rows, key) <= rows.len(),
        forall|i: int| 0 <= i < key_index(rows, key) ==> #[trigger] rows[i].0 != key,
        key_index(rows, key) < rows.len() ==> rows[key_index(rows, key)].0 == key,
    decreases rows.len(),
{
    if rows.len() > 0 && rows[0].0 != key {
        let rest = rows.drop_first();
        key_index_is_first(rest, key);
        assert forall|i: int| 0 <= i < key_index(rows, key) implies #[trigger] rows[i].0
            != key by {
            if i > 0 {
                assert(rows[i] == rest[i - 1]);
                assert(rest[i - 1].0 != key);
            }
        }
    }
}

/// Setting a key keeps the order of the keys.
pub proof fn with_row_keeps_order(rows: Seq<(Seq<char>, Tree)>, key: Seq<char>, value: Tree)
    requires
        ascending(keys(rows)),
    ensures
        ascending(keys(with_row(rows, key, value))),
{
    place_is_first(rows, key);
    let at = place(rows, key);
    let new = with_row(rows, key, value);
    if at < rows.len() && rows[at].0 == key {
        assert(keys(new) == keys(rows));
    } else {
        assert forall|i: int, j: int| 0 <= i < j < new.len() implies precedes(
            #[trigger] keys(new)[i],
            #[trigger] keys(new)[j],
        ) by {
            let old_keys = keys(rows);
            if at < rows.len() {
                precedes_total(key, rows[at].0);
            }
            if j < at {
                assert(precedes(old_keys[i], old_keys[j]));
            } else if j == at {
                assert(precedes(rows[i].0, key));
            } else if i == at {
                assert(precedes(key, old_keys[at]));
                if j > at + 1 {
                    assert(precedes(old_keys[at], old_keys[j - 1]));
                    precedes_transitive(key, old_keys[at], old_keys[j - 1]);
                }
            } else if i < at {
                assert(precedes(old_keys[i], old_keys[j - 1]));
            } else {
                assert(precedes(old_keys[i - 1], old_keys[j - 1]));
            }
        }
    }
}

/// Among ascending keys the position of a key is the only one that holds it.
pub proof fn key_index_is_unique(rows: Seq<(Seq<char>, Tree)>, key: Seq<char>, at: int)
    requires
        ascending(keys(rows)),
        0 <= at < rows.len(),
        rows[at].0 == key,
    ensures
        key_index(rows, key) == at,
{
    key_index_is_first(rows, key);
    let found = key_index(rows, key);
    if found < at {
        assert(precedes(keys(rows)[found], keys(rows)[at]));
        precedes_irreflexive(key);
    }
}

proof fn key_absent(rows: Seq<(Seq<char>, Tree)>, key: Seq<char>)
    requires
        forall|i: int| 0 <= i < rows.len() ==> #[trigger] rows[i].0 != key,
    ensures
        key_index(rows, key) == rows.len(),
{
    key_index_is_first(rows, key);
}

/// A key that was set gives back what was set, and every other key what it gave before.
pub proof fn get_after_with(tree: Tree, key: Seq<char>, value: Tree, other: Seq<char>)
    requires
        tree.is_object(),
    ensures
        tree.with(key, value).is_object(),
        tree.with(key, value).get(key) == Some(value),
        other != key ==> tree.with(key, value).get(other) == tree.get(other),
{
    reveal(Tree::with);
    let rows = tree->Object_0;
    let new = with_row(rows, key, value);
    let at = place(rows, key);
    place_is_first(rows, key);
    with_row_keeps_order(rows, key, value);
    assert(new[at] == (key, value));
    key_index_is_unique(new, key, at);
    if other != key {
        key_index_is_first(rows, other);
        let found = key_index(rows, other);
        if found < rows.len() {
            let replaced = at < rows.len() && rows[at].0 == key;
            let moved = if replaced || found < at {
                found
            } else {
                found + 1
            };
            assert(new[moved] == rows[found]);
            key_index_is_unique(new, other, moved);
        } else {
            assert forall|i: int| 0 <= i < new.len() implies #[trigger] new[i].0 != other by {
                if at < rows.len() && rows[at].0 == key {
                    if i != at {
                        assert(new[i] == rows[i]);
                    }
                } else if i < at {
                    assert(new[i] == rows[i]);
                } else if i > at {
                    assert(new[i] == rows[i - 1]);
                }
            }
            key_absent(new, other);
        }
    }
}

/// `get_after_with` for every object and every key.
pub broadcast proof fn field_after_with(tree: Tree, key: Seq<char>, value: Tree, other: Seq<char>)
    requires
        tree.is_object(),
    ensures
        #[trigger] tree.with(key, value).get(other) == if other == key {
            Some(value)
        } else {
            tree.get(other)
        },
{
    get_after_with(tree, key, value, other);
}

/// An object in which a key was set is an object.
pub broadcast proof fn object_after_with(tree: Tree, key: Seq<char>, value: Tree)
    requires
        tree.is_object(),
    ensures
        (#[trigger] tree.with(key, value)).is_object(),
{
    get_after_with(tree, key, value, key);
}

/// The object without entries is an object, and has nothing under any key.
pub broadcast proof fn empty_object(key: Seq<char>)
    ensures
        Tree::object().is_object(),
        (#[trigger] Tree::object().get(key)) is None,
{
}

/// The clone of a `serde_json::Number` is the same number.
pub assume_specification[ <serde_json::Number as Clone>::clone ](
    number: &serde_json::Number,
) -> (res: serde_json::Number)
    ensures
        res == *number,
;

/// `serde_json::Number::as_u64` gives the integer where a number holds one from zero to
/// `u64::MAX`, and nothing where it holds a negative integer or a floating-point number. What a
/// number holds cannot be seen from here, so the contract names the result.
pub assume_specification[ serde_json::Number::as_u64 ](number: &serde_json::Number) -> (res: Option<
    u64,
>)
    ensures
        res == number_u64(*number),
;

impl Members {
    /// How many entries there are; their keys ascend.
    pub fn len(&self) -> (res: usize)
        ensures
            res == self@.len(),
            ascending(keys(self@)),
    {
        proof {
            use_type_invariant(self);
        }
        self.entries.len()
    }

    /// The key at a position.
    pub fn key(&self, i: usize) -> (res: &str)
        requires
            i < self@.len(),
        ensures
            res@ == self@[i as int].0,
    {
        self.entries[i].0.as_str()
    }

    /// The value at a position.
    pub fn value(&self, i: usize) -> (res: &Json)
        requires
            i < self@.len(),
        ensures
            res@ == self@[i as int].1,
    {
        &self.entries[i].1
    }

    /// The value under a key.
    pub fn get(&self, key: &str) -> (res: Option<&Json>)
        ensures
            match res {
                Some(value) => Tree::Object(self@).get(key@) == Some(value@),
                None => Tree::Object(self@).get(key@) is None,
            },
    {
        proof {
            key_index_is_first(self@, key@);
        }
        let mut i: usize = 0;
        while i < self.len()
            invariant
                i <= key_index(self@, key@) <= self@.len(),
                forall|j: int| 0 <= j < key_index(self@, key@) ==> #[trigger] self@[j].0 != key@,
                key_index(self@, key@) < self@.len() ==> self@[key_index(self@, key@)].0 == key@,
            decreases self@.len() - i,
        {
            if same(self.key(i), key) {
                return Some(self.value(i));
            }
            i = i + 1;
        }
        None
    }
}

impl Members {
    /// The entries with `value` under `key`.
    pub fn with(self, key: &str, value: Json) -> (res: Members)
        ensures
            res@ == with_row(self@, key@, value@),
    {
        proof {
            use_type_invariant(&self);
            place_is_first(self@, key@);
            with_row_keeps_order(self@, key@, value@);
        }
        let ghost rows = self@;
        let mut i: usize = 0;
        while i < self.len() && stands_before(self.key(i), key)
            invariant
                rows == self@,
                i <= place(rows, key@) <= rows.len(),
                forall|j: int| 0 <= j < place(rows, key@) ==> precedes(#[trigger] rows[j].0, key@),
                place(rows, key@) < rows.len() ==> !precedes(rows[place(rows, key@)].0, key@),
            decreases rows.len() - i,
        {
            i = i + 1;
        }
        assert(i == place(rows, key@));
        let replace = i < self.len() && same(self.key(i), key);
        let ghost old_entries = self.entries@;
        let mut entries = self.entries;
        let entry = (key.to_owned(), value);
        if replace {
            entries[i] = entry;
            assert(entries@ == old_entries.update(i as int, entry));
        } else {
            entries.insert(i, entry);
        }
        let ghost new = Members { entries };
        assert(new.rows() == with_row(rows, key@, value@));
        Members { entries }
    }

    /// The entries of a list in which the keys ascend.
    pub(crate) fn from_ascending(entries: Vec<(String, Json)>) -> (res: Members)
        requires
            ascending(entries@.map_values(|entry: (String, Json)| entry.0@)),
        ensures
            res@ == entries@.map_values(|entry: (String, Json)| (entry.0@, entry.1@)),
    {
        let ghost new = Members { entries };
        assert(keys(new.rows()) == entries@.map_values(|entry: (String, Json)| entry.0@));
        assert(new.rows() == entries@.map_values(|entry: (String, Json)| (entry.0@, entry.1@)));
        Members { entries }
    }

    fn duplicate(&self) -> (res: Members)
        ensures
            res@ == self@,
        decreases self,
    {
        let mut entries: Vec<(String, Json)> = Vec::new();
        let mut i: usize = 0;
        while i < self.entries.len()
            invariant
                i <= self.entries@.len(),
                entries@.len() == i,
                forall|j: int|
                    0 <= j < i ==> (#[trigger] entries@[j]).0@ == self.entries@[j].0@
                        && entries@[j].1@ == self.entries@[j].1@,
            decreases self.entries@.len() - i,
        {
            let entry = &self.entries[i];
            let copy = (entry.0.clone(), entry.1.duplicate());
            entries.push(copy);
            i = i + 1;
        }
        let ghost new = Members { entries };
        assert(new.rows() == self.rows());
        proof {
            use_type_invariant(self);
        }
        Members { entries }
    }
}

impl OtherNumber {
    /// The JSON number that is `number`.
    pub(crate) fn new(number: serde_json::Number) -> (res: OtherNumber)
        requires
            number_u64(number) is None,
        ensures
            res.value() == number,
    {
        OtherNumber { number }
    }

    /// The number, which is no integer from zero to `u64::MAX`.
    pub(crate) fn number(&self) -> (res: serde_json::Number)
        ensures
            res == self.value(),
            number_u64(res) is None,
    {
        proof {
            use_type_invariant(self);
        }
        self.number.clone()
    }

    /// A copy of the number.
    pub fn duplicate(&self) -> (res: OtherNumber)
        ensures
            res.value() == self.value(),
    {
        OtherNumber::new(self.number())
    }
}

impl Json {
    /// A copy of the value.
    pub fn duplicate(&self) -> (res: Json)
        ensures
            res@ == self@,
        decreases self,
    {
        match self {
            Json::Null => Json::Null,
            Json::Bool(b) => Json::Bool(*b),
            Json::Unsigned(n) => Json::Unsigned(*n),
            Json::Number(n) => Json::Number(n.duplicate()),
            Json::Text(s) => Json::Text(s.clone()),
            Json::Array(items) => {
                let mut copies: Vec<Json> = Vec::new();
                let mut i: usize = 0;
                while i < items.len()
                    invariant
                        *self == Json::Array(*items),
                        i <= items@.len(),
                        copies@.len() == i,
                        forall|j: int| 0 <= j < i ==> (#[trigger] copies@[j])@ == items@[j]@,
                    decreases items@.len() - i,
                {
                    assert(decreases_to!(self => self->Array_0@[i as int]));
                    let copy = items[i].duplicate();
                    copies.push(copy);
                    i = i + 1;
                }
                let res = Json::Array(copies);
                assert(res@->Array_0 == self@->Array_0);
                res
            },
            Json::Object(members) => Json::Object(members.duplicate()),
        }
    }

    /// The text of these characters.
    pub fn text(s: &str) -> (res: Json)
        ensures
            res@ == Tree::Text(s@),
    {
        Json::Text(s.to_owned())
    }

    /// The object without entries.
    pub fn object() -> (res: Json)
        ensures
            res@ == Tree::object(),
    {
        let entries: Vec<(String, Json)> = Vec::new();
        let ghost new = Members { entries };
        assert(new.rows() == Seq::<(Seq<char>, Tree)>::empty());
        Json::Object(Members { entries })
    }

    /// The object with `value` under `key`; what is no object stays as it is.
    pub fn with(self, key: &str, value: Json) -> (res: Json)
        ensures
            res@ == self@.with(key@, value@),
    {
        proof {
            reveal(Tree::with);
        }
        match self {
            Json::Object(members) => Json::Object(members.with(key, value)),
            other => other,
        }
    }

    /// The value under a key of an object.
    pub fn get(&self, key: &str) -> (res: Option<&Json>)
        ensures
            match res {
                Some(value) => self@.get(key@) == Some(value@),
                None => self@.get(key@) is None,
            },
    {
        match self {
            Json::Object(members) => members.get(key),
            _ => None,
        }
    }

    /// The characters of a text.
    pub fn as_str(&self) -> (res: Option<&str>)
        ensures
            match res {
                Some(s) => self@.as_text() == Some(s@),
                None => self@.as_text() is None,
            },
    {
        match self {
            Json::Text(s) => Some(s.as_str()),
            _ => None,
        }
    }

    /// The items of an array.
    pub fn as_array(&self) -> (res: Option<&Vec<Json>>)
        ensures
            match res {
                Some(items) => self@.as_items() == Some(trees(items@)) && *self == Json::Array(*items),
                None => self@.as_items() is None,
            },
    {
        match self {
            Json::Array(items) => {
                assert(self@->Array_0 == trees(items@));
                Some(items)
            },
            _ => None,
        }
    }

    /// The text under a key of an object.
    pub fn str_at(&self, key: &str) -> (res: Option<&str>)
        ensures
            match res {
                Some(s) => self@.text_at(key@) == Some(s@),
                None => self@.text_at(key@) is None,
            },
    {
        match self.get(key) {
            Some(value) => value.as_str(),
            None => None,
        }
    }
}

/// An object gives, under each of its keys, what stands there, and under every other key
/// nothing. What is no object gives nothing.
pub proof fn get_gives_the_entry(tree: Tree, key: Seq<char>, value: Tree)
    ensures
        tree.is_object() ==> (tree.get(key) == Some(value) <==> tree->Object_0.contains((key, value))),
        tree is Object ==> (tree.get(key) is Some <==> exists|i: int|
            0 <= i < tree->Object_0.len() && (#[trigger] tree->Object_0[i]).0 == key),
        !(tree is Object) ==> tree.get(key) is None,
{
    if let Tree::Object(rows) = tree {
        key_index_is_first(rows, key);
        let at = key_index(rows, key);
        if tree.is_object() && rows.contains((key, value)) {
            let i = choose|i: int| 0 <= i < rows.len() && rows[i] == (key, value);
            key_index_is_unique(rows, key, i);
        }
        if at < rows.len() {
            assert(rows[at] == (key, rows[at].1));
        }
    }
}

/// The keys of an object stand in order, which leaves no room for one to occur twice.
pub proof fn keys_stand_in_order(tree: Tree)
    ensures
        tree.is_object() <==> tree is Object && forall|i: int, j: int|
            0 <= i < j < tree->Object_0.len() ==> precedes(
                (#[trigger] tree->Object_0[i]).0,
                (#[trigger] tree->Object_0[j]).0,
            ),
{
    if let Tree::Object(rows) = tree {
        assert(keys(rows).len() == rows.len());
        assert forall|i: int| 0 <= i < rows.len() implies keys(rows)[i] == (#[trigger] rows[i]).0 by {}
        if tree.is_object() {
            assert forall|i: int, j: int| 0 <= i < j < rows.len() implies precedes(
                (#[trigger] rows[i]).0,
                (#[trigger] rows[j]).0,
            ) by {
                assert(precedes(keys(rows)[i], keys(rows)[j]));
            }
        }
        if forall|i: int, j: int|
            0 <= i < j < rows.len() ==> precedes((#[trigger] rows[i]).0, (#[trigger] rows[j]).0) {
            assert forall|i: int, j: int| 0 <= i < j < keys(rows).len() implies precedes(
                #[trigger] keys(rows)[i],
                #[trigger] keys(rows)[j],
            ) by {
                assert(precedes(rows[i].0, rows[j].0));
            }
        }
    }
}

/// Nothing is set in what is no object.
pub proof fn only_objects_have_fields(tree: Tree, key: Seq<char>, value: Tree)
    ensures
        !(tree is Object) ==> tree.with(key, value) == tree,
{
    reveal(Tree::with);
}

/// A text under a key is a text, with its characters as they are; an array is its items.
pub proof fn text_at_is_a_text(tree: Tree, key: Seq<char>, text: Seq<char>, items: Seq<Tree>)
    ensures
        tree.text_at(key) == Some(text) <==> tree.get(key) == Some(Tree::Text(text)),
        tree.text_at(key) is Some ==> tree.get(key) is Some,
        tree.as_text() == Some(text) <==> tree == Tree::Text(text),
        tree.as_items() == Some(items) <==> tree == Tree::Array(items),
{
}

/// What a JSON value says is what it holds.
pub proof fn json_says_what_it_holds(text: String, n: u64, b: bool, items: Vec<Json>, i: int)
    ensures
        Json::Null@ == Tree::Null,
        Json::Bool(b)@ == Tree::Bool(b),
        Json::Unsigned(n)@ == Tree::Unsigned(n),
        Json::Text(text)@ == Tree::Text(text@),
        Json::Array(items)@ == Tree::Array(trees(items@)),
        trees(items@).len() == items@.len(),
        0 <= i < items@.len() ==> trees(items@)[i] == items@[i]@,
{
    assert(Json::Array(items)@->Array_0 == trees(items@));
}

} // verus!
