//! JSON documents as the launcher reads them: a tree type of the crate's own,
//! its mathematical model, and the parser that fills it.
use vstd::prelude::*;
use crate::text::same;

verus! {

/// One member of a JSON object.
#[derive(Debug, PartialEq)]
pub struct Member {
    pub key: String,
    pub value: Json,
}

/// A JSON document. A number is kept only as far as it is an `i64`.
#[derive(Debug, PartialEq)]
pub enum Json {
    Null,
    Bool(bool),
    Number(Option<i64>),
    Text(String),
    Array(Vec<Json>),
    Object(Vec<Member>),
}

/// One member of an object in the model.
pub struct Entry {
    pub key: Seq<char>,
    pub value: Tree,
}

/// The mathematical model of a JSON document.
pub enum Tree {
    Null,
    Bool(bool),
    Number(Option<i64>),
    Text(Seq<char>),
    Array(Seq<Tree>),
    Object(Seq<Entry>),
}

/// The model of a document.
pub open spec fn tree_of(json: Json) -> Tree
    decreases json,
{
    match json {
        Json::Null => Tree::Null,
        Json::Bool(b) => Tree::Bool(b),
        Json::Number(n) => Tree::Number(n),
        Json::Text(s) => Tree::Text(s@),
        Json::Array(items) => Tree::Array(trees(items@)),
        Json::Object(members) => Tree::Object(entries_of(members@)),
    }
}

/// The models of a sequence of documents.
pub open spec fn trees(items: Seq<Json>) -> Seq<Tree>
    decreases items,
{
    if items.len() == 0 {
        Seq::empty()
    } else {
        trees(items.drop_last()).push(tree_of(items.last()))
    }
}

/// The models of a sequence of members.
pub open spec fn entries_of(members: Seq<Member>) -> Seq<Entry>
    decreases members,
{
    if members.len() == 0 {
        Seq::empty()
    } else {
        entries_of(members.drop_last()).push(
            Entry { key: members.last().key@, value: tree_of(members.last().value) },
        )
    }
}

impl View for Json {
    type V = Tree;

    open spec fn view(&self) -> Tree {
        tree_of(*self)
    }
}

/// `trees` goes item by item.
pub proof fn lemma_trees(items: Seq<Json>)
    ensures
        trees(items).len() == items.len(),
        forall|i: int| 0 <= i < items.len() ==> (#[trigger] trees(items)[i]) == items[i]@,
    decreases items.len(),
{
    if items.len() > 0 {
        lemma_trees(items.drop_last());
    }
}

/// `entries_of` goes member by member.
pub proof fn lemma_entries(members: Seq<Member>)
    ensures
        entries_of(members).len() == members.len(),
        forall|i: int|
            0 <= i < members.len() ==> (#[trigger] entries_of(members)[i]) == (Entry {
                key: members[i].key@,
                value: members[i].value@,
            }),
    decreases members.len(),
{
    if members.len() > 0 {
        lemma_entries(members.drop_last());
    }
}

/// The value of the first entry with the given key, `Null` where there is
/// none.
pub open spec fn lookup(entries: Seq<Entry>, key: Seq<char>) -> Tree
    decreases entries.len(),
{
    if entries.len() == 0 {
        Tree::Null
    } else if entries[0].key == key {
        entries[0].value
    } else {
        lookup(entries.skip(1), key)
    }
}

impl Tree {
    /// The member of an object under `key`; `Null` for anything else.
    pub open spec fn member(self, key: Seq<char>) -> Tree {
        match self {
            Tree::Object(entries) => lookup(entries, key),
            _ => Tree::Null,
        }
    }

    /// The item of an array at `index`; `Null` for anything else.
    pub open spec fn item(self, index: int) -> Tree {
        match self {
            Tree::Array(items) => if 0 <= index < items.len() {
                items[index]
            } else {
                Tree::Null
            },
            _ => Tree::Null,
        }
    }

    /// The text of a string.
    pub open spec fn text(self) -> Option<Seq<char>> {
        match self {
            Tree::Text(s) => Some(s),
            _ => None,
        }
    }

    /// The items of an array.
    pub open spec fn items(self) -> Option<Seq<Tree>> {
        match self {
            Tree::Array(items) => Some(items),
            _ => None,
        }
    }

    /// The entries of an object.
    pub open spec fn entries(self) -> Option<Seq<Entry>> {
        match self {
            Tree::Object(entries) => Some(entries),
            _ => None,
        }
    }

    /// The value of a number that is an `i64`.
    pub open spec fn integer(self) -> Option<i64> {
        match self {
            Tree::Number(n) => n,
            _ => None,
        }
    }
}

/// What a step into a document has found: `Null` where it found nothing.
pub open spec fn seen(found: Option<&Json>) -> Tree {
    match found {
        Some(json) => json@,
        None => Tree::Null,
    }
}

impl Json {
    /// Steps into an object: the member under `key`.
    pub fn member(&self, key: &str) -> (r: Option<&Json>)
        ensures
            seen(r) == self@.member(key@),
    {
        match self {
            Json::Object(members) => {
                proof {
                    lemma_entries(members@);
                    assert(entries_of(members@).skip(0) =~= entries_of(members@));
                }
                let mut i: usize = 0;
                while i < members.len()
                    invariant
                        i <= members.len(),
                        self@.member(key@) == lookup(entries_of(members@), key@),
                        lookup(entries_of(members@), key@) == lookup(
                            entries_of(members@).skip(i as int),
                            key@,
                        ),
                    decreases members.len() - i,
                {
                    let ghost rest = entries_of(members@).skip(i as int);
                    proof {
                        lemma_entries(members@);
                        assert(rest.skip(1) =~= entries_of(members@).skip(i + 1));
                    }
                    if same(members[i].key.as_str(), key) {
                        return Some(&members[i].value);
                    }
                    i += 1;
                }
                None
            },
            _ => None,
        }
    }

    /// Steps into an array: the item at `index`.
    pub fn item(&self, index: usize) -> (r: Option<&Json>)
        ensures
            seen(r) == self@.item(index as int),
    {
        match self {
            Json::Array(items) => {
                proof {
                    lemma_trees(items@);
                }
                if index < items.len() {
                    Some(&items[index])
                } else {
                    None
                }
            },
            _ => None,
        }
    }

    /// The text, where the document is a string.
    pub fn text(&self) -> (r: Option<&String>)
        ensures
            match r {
                Some(s) => self@.text() == Some(s@),
                None => self@.text() is None,
            },
    {
        match self {
            Json::Text(s) => Some(s),
            _ => None,
        }
    }

    /// The items, where the document is an array.
    pub fn items(&self) -> (r: Option<&Vec<Json>>)
        ensures
            match r {
                Some(items) => self@.items() == Some(trees(items@)),
                None => self@.items() is None,
            },
    {
        match self {
            Json::Array(items) => {
                Some(items)
            },
            _ => None,
        }
    }

    /// The members, where the document is an object.
    pub fn members(&self) -> (r: Option<&Vec<Member>>)
        ensures
            match r {
                Some(members) => self@.entries() == Some(entries_of(members@)),
                None => self@.entries() is None,
            },
    {
        match self {
            Json::Object(members) => {
                Some(members)
            },
            _ => None,
        }
    }

    /// The number, where the document is one that fits an `i64`.
    pub fn integer(&self) -> (r: Option<i64>)
        ensures
            r == self@.integer(),
    {
        match self {
            Json::Number(n) => *n,
            _ => None,
        }
    }
}

/// Steps on from what an earlier step found: the member under `key`.
pub fn member_of<'a>(found: Option<&'a Json>, key: &str) -> (r: Option<&'a Json>)
    ensures
        seen(r) == seen(found).member(key@),
{
    match found {
        Some(json) => json.member(key),
        None => None,
    }
}

/// Steps on from what an earlier step found: the item at `index`.
pub fn item_of<'a>(found: Option<&'a Json>, index: usize) -> (r: Option<&'a Json>)
    ensures
        seen(r) == seen(found).item(index as int),
{
    match found {
        Some(json) => json.item(index),
        None => None,
    }
}

/// The text of what a step found, where that is a string.
pub fn text_of<'a>(found: Option<&'a Json>) -> (r: Option<&'a String>)
    ensures
        match r {
            Some(s) => seen(found).text() == Some(s@),
            None => seen(found).text() is None,
        },
{
    match found {
        Some(json) => json.text(),
        None => None,
    }
}

/// `serde_json::Value`, as the parser hands it out. Nothing of its inside is
/// known here; `level_of` takes it apart.
#[verifier::external_type_specification]
#[verifier::external_body]
pub struct ExValue(serde_json::Value);

/// `serde_json::Error`, of which only the message is read.
#[verifier::external_type_specification]
#[verifier::external_body]
pub struct ExError(serde_json::Error);

/// What `serde_json::from_str` makes of a text: the document, or `None` where
/// it reports an error.
pub uninterp spec fn text_tree(text: Seq<char>) -> Option<Tree>;

/// The document that a `serde_json::Value` holds.
pub uninterp spec fn value_tree(value: serde_json::Value) -> Tree;

/// One level of a `serde_json::Value`: its variant, with its children still
/// in the outside type.
pub enum Level<'a> {
    Null,
    Bool(bool),
    Number(Option<i64>),
    Text(&'a String),
    Array(&'a Vec<serde_json::Value>),
    Object(Vec<(&'a String, &'a serde_json::Value)>),
}

impl<'a> Level<'a> {
    /// The document that a level stands for.
    pub open spec fn tree(self) -> Tree {
        match self {
            Level::Null => Tree::Null,
            Level::Bool(b) => Tree::Bool(b),
            Level::Number(n) => Tree::Number(n),
            Level::Text(s) => Tree::Text(s@),
            Level::Array(items) => Tree::Array(
                Seq::new(items@.len(), |i: int| value_tree(items@[i])),
            ),
            Level::Object(members) => Tree::Object(
                Seq::new(
                    members@.len(),
                    |i: int| Entry { key: members@[i].0@, value: value_tree(*members@[i].1) },
                ),
            ),
        }
    }
}

/// `serde_json::from_str` at the type `serde_json::Value`. The contract names
/// the outcome: it is `Ok` exactly where `text_tree` has a document, and the
/// value then holds that document.
#[verifier::external_body]
fn parse_value(text: &str) -> (r: Result<serde_json::Value, serde_json::Error>)
    ensures
        r is Ok <==> text_tree(text@) is Some,
        r matches Ok(v) ==> text_tree(text@) == Some(value_tree(v)),
{
    serde_json::from_str::<serde_json::Value>(text)
}

/// Takes a `serde_json::Value` apart by its variant. A number comes out
/// through `Number::as_i64`, an object's members in the order in which its
/// map hands them out. The level stands for the same document as the value.
#[verifier::external_body]
fn level_of<'a>(value: &'a serde_json::Value) -> (r: Level<'a>)
    ensures
        r.tree() == value_tree(*value),
{
    match value {
        serde_json::Value::Null => Level::Null,
        serde_json::Value::Bool(b) => Level::Bool(*b),
        serde_json::Value::Number(n) => Level::Number(n.as_i64()),
        serde_json::Value::String(s) => Level::Text(s),
        serde_json::Value::Array(items) => Level::Array(items),
        serde_json::Value::Object(map) => Level::Object(map.iter().collect()),
    }
}

/// The message of a `serde_json::Error`, as its `Display` writes it.
#[verifier::external_body]
fn error_message(error: &serde_json::Error) -> (r: String) {
    format!("{}", error)
}

/// Why a text is no JSON document: the parser's message.
#[derive(Clone, Debug, PartialEq)]
pub struct Malformed {
    pub message: String,
}

/// Copies a `serde_json::Value` into the crate's own tree.
fn lift(value: &serde_json::Value) -> (r: Json)
    ensures
        r@ == value_tree(*value),
    decreases value_tree(*value),
{
    match level_of(value) {
        Level::Null => Json::Null,
        Level::Bool(b) => Json::Bool(b),
        Level::Number(n) => Json::Number(n),
        Level::Text(s) => Json::Text(s.clone()),
        Level::Array(items) => {
            let ghost children = Seq::new(items@.len(), |i: int| value_tree(items@[i]));
            let mut out: Vec<Json> = Vec::new();
            let mut i: usize = 0;
            while i < items.len()
                invariant
                    i <= items.len(),
                    out@.len() == i,
                    value_tree(*value) == Tree::Array(children),
                    children == Seq::new(items@.len(), |i: int| value_tree(items@[i])),
                    forall|k: int| 0 <= k < i ==> (#[trigger] out@[k])@ == children[k],
                decreases items.len() - i,
            {
                proof {
                    assert(children[i as int] == value_tree(items@[i as int]));
                    assert(decreases_to!(value_tree(*value) => value_tree(*value)->Array_0));
                }
                let child = lift(&items[i]);
                out.push(child);
                i += 1;
            }
            let r = Json::Array(out);
            proof {
                lemma_trees(out@);
                assert(trees(out@) =~= children);
            }
            r
        },
        Level::Object(members) => {
            let ghost entries = Seq::new(
                members@.len(),
                |i: int| Entry { key: members@[i].0@, value: value_tree(*members@[i].1) },
            );
            let mut out: Vec<Member> = Vec::new();
            let mut i: usize = 0;
            while i < members.len()
                invariant
                    i <= members.len(),
                    out@.len() == i,
                    value_tree(*value) == Tree::Object(entries),
                    entries == Seq::new(
                        members@.len(),
                        |i: int| Entry { key: members@[i].0@, value: value_tree(*members@[i].1) },
                    ),
                    forall|k: int|
                        0 <= k < i ==> (#[trigger] out@[k]).key@ == entries[k].key
                            && out@[k].value@ == entries[k].value,
                decreases members.len() - i,
            {
                proof {
                    assert(entries[i as int].value == value_tree(*members@[i as int].1));
                    assert(decreases_to!(value_tree(*value) => value_tree(*value)->Object_0));
                }
                let key = members[i].0.clone();
                let child = lift(members[i].1);
                out.push(Member { key, value: child });
                i += 1;
            }
            let r = Json::Object(out);
            proof {
                lemma_entries(out@);
                assert(entries_of(out@) =~= entries);
            }
            r
        },
    }
}

impl Json {
    /// Reads a JSON document from its text.
    pub fn parse(text: &str) -> (r: Result<Json, Malformed>)
        ensures
            r is Ok <==> text_tree(text@) is Some,
            r matches Ok(json) ==> text_tree(text@) == Some(json@),
    {
        match parse_value(text) {
            Ok(value) => Ok(lift(&value)),
            Err(error) => Err(Malformed { message: error_message(&error) }),
        }
    }
}

} // verus!
