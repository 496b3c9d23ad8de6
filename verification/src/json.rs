//! JSON documents as trees of plain values, read with `serde_json`.

use vstd::prelude::*;
use vstd::string::*;

use crate::views::text_view;

verus! {

/// A JSON value.
#[derive(Debug)]
pub enum Json {
    Null,
    Bool(bool),
    /// A number. It is `Some` where the number is written as an integer that is
    /// not negative and fits 64 bits, and `None` for every other number.
    Number(Option<u64>),
    Text(String),
    List(Vec<Json>),
    /// The members of an object with their names. A document that was read
    /// has no name twice.
    Object(Vec<(String, Json)>),
}

/// The value of the first of `members` that is named `key`.
pub open spec fn lookup(members: Seq<(String, Json)>, key: Seq<char>) -> Option<Json>
    decreases members.len(),
{
    if members.len() == 0 {
        None
    } else if members[0].0@ == key {
        Some(members[0].1)
    } else {
        lookup(members.drop_first(), key)
    }
}

/// `lookup` skips the members that are not named `key`.
pub proof fn lemma_lookup_skip(members: Seq<(String, Json)>, key: Seq<char>, n: int)
    requires
        0 <= n <= members.len(),
        forall|i: int| 0 <= i < n ==> (#[trigger] members[i]).0@ != key,
    ensures
        lookup(members, key) == lookup(members.skip(n), key),
    decreases n,
{
    if n == 0 {
        assert(members.skip(0) =~= members);
    } else {
        lemma_lookup_skip(members, key, n - 1);
        let rest = members.skip(n - 1);
        assert(rest[0] == members[n - 1]);
        assert(rest.drop_first() =~= members.skip(n));
    }
}

impl Json {
    /// The member named `key`, where this is an object that has one.
    pub open spec fn member(self, key: Seq<char>) -> Option<Json> {
        match self {
            Json::Object(members) => lookup(members@, key),
            _ => None,
        }
    }

    /// The member named `key`, where this is an object that has one.
    pub fn get(&self, key: &str) -> (r: Option<&Json>)
        ensures
            match r {
                Some(found) => self.member(key@) == Some(*found),
                None => self.member(key@) is None,
            },
    {
        match self {
            Json::Object(members) => {
                let wanted = String::from_str(key);
                let mut i: usize = 0;
                while i < members.len()
                    invariant
                        i <= members.len(),
                        wanted@ == key@,
                        self.member(key@) == lookup(members@, key@),
                        forall|j: int| 0 <= j < i ==> (#[trigger] members@[j]).0@ != key@,
                    decreases members.len() - i,
                {
                    if members[i].0 == wanted {
                        proof {
                            lemma_lookup_skip(members@, key@, i as int);
                            assert(members@.skip(i as int)[0] == members@[i as int]);
                        }
                        return Some(&members[i].1);
                    }
                    i += 1;
                }
                proof {
                    lemma_lookup_skip(members@, key@, i as int);
                    assert(members@.skip(i as int).len() == 0);
                }
                None
            },
            _ => None,
        }
    }
}

impl Json {
    /// The text of the member `key`, where there is one and it is a string.
    pub open spec fn text_of(self, key: Seq<char>) -> Option<Seq<char>> {
        match self.member(key) {
            Some(Json::Text(text)) => Some(text@),
            _ => None,
        }
    }

    /// The text of the member `key` that need not be there: `Some(None)`
    /// where it is missing or null, `None` where it is anything but a string.
    pub open spec fn optional_text_of(self, key: Seq<char>) -> Option<Option<Seq<char>>> {
        match self.member(key) {
            None | Some(Json::Null) => Some(None),
            Some(Json::Text(text)) => Some(Some(text@)),
            _ => None,
        }
    }

    /// The items of the member `key`, where there is one and it is a list.
    pub open spec fn items_of(self, key: Seq<char>) -> Option<Seq<Json>> {
        match self.member(key) {
            Some(Json::List(items)) => Some(items@),
            _ => None,
        }
    }

    /// The text of the member `key`, where there is one and it is a string.
    pub fn get_text(&self, key: &str) -> (r: Option<String>)
        ensures
            text_view(r) == self.text_of(key@),
    {
        match self.get(key) {
            Some(Json::Text(text)) => Some(text.clone()),
            _ => None,
        }
    }

    /// The text of the member `key` that need not be there: `Some(None)`
    /// where it is missing or null, `None` where it is anything but a string.
    pub fn get_optional_text(&self, key: &str) -> (r: Option<Option<String>>)
        ensures
            match r {
                Some(text) => self.optional_text_of(key@) == Some(text_view(text)),
                None => self.optional_text_of(key@) is None,
            },
    {
        match self.get(key) {
            None => Some(None),
            Some(Json::Null) => Some(None),
            Some(Json::Text(text)) => Some(Some(text.clone())),
            _ => None,
        }
    }

    /// The items of the member `key`, where there is one and it is a list.
    pub fn get_items(&self, key: &str) -> (r: Option<&Vec<Json>>)
        ensures
            match r {
                Some(items) => self.items_of(key@) == Some(items@),
                None => self.items_of(key@) is None,
            },
    {
        match self.get(key) {
            Some(Json::List(items)) => Some(items),
            _ => None,
        }
    }
}

/// `serde_json::Value`, a JSON document as `serde_json` holds it. Nothing is
/// said of what is in it but through `value_tree`.
#[verifier::external_type_specification]
#[verifier::external_body]
pub struct ExValue(serde_json::Value);

/// `serde_json::Error`, why a text is no JSON. Nothing is said of what is in it.
#[verifier::external_type_specification]
#[verifier::external_body]
pub struct ExError(serde_json::Error);

/// The tree that `serde_json::from_str` reads from `text` as a
/// `serde_json::Value`; `None` where it reports an error.
pub uninterp spec fn json_of_text(text: Seq<char>) -> Option<Json>;

/// What a `serde_json::Value` holds, as a tree of plain values.
pub uninterp spec fn value_tree(value: serde_json::Value) -> Json;

/// Calls `serde_json::from_str` for a `serde_json::Value`. The contract only
/// names the outcome: the call succeeds on the texts on which `json_of_text`
/// is `Some`, and the value then holds that tree.
#[verifier::external_body]
fn read_value(text: &str) -> (r: Result<serde_json::Value, serde_json::Error>)
    ensures
        match r {
            Ok(value) => json_of_text(text@) == Some(value_tree(value)),
            Err(_) => json_of_text(text@) is None,
        },
{
    serde_json::from_str::<serde_json::Value>(text)
}

/// Moves what a `serde_json::Value` holds into a `Json`, variant by variant.
/// A number goes through `serde_json::Number::as_u64`; the members of an
/// object come in the order in which `serde_json::Map` hands them out.
#[verifier::external_body]
fn tree_of(value: serde_json::Value) -> (tree: Json)
    ensures
        tree == value_tree(value),
{
    match value {
        serde_json::Value::Null => Json::Null,
        serde_json::Value::Bool(b) => Json::Bool(b),
        serde_json::Value::Number(n) => Json::Number(n.as_u64()),
        serde_json::Value::String(s) => Json::Text(s),
        serde_json::Value::Array(items) => Json::List(items.into_iter().map(tree_of).collect()),
        serde_json::Value::Object(members) => Json::Object(
            members.into_iter().map(|(name, member)| (name, tree_of(member))).collect(),
        ),
    }
}

/// Reads a JSON document.
pub fn read_json(text: &str) -> (r: Result<Json, serde_json::Error>)
    ensures
        match r {
            Ok(tree) => json_of_text(text@) == Some(tree),
            Err(_) => json_of_text(text@) is None,
        },
{
    match read_value(text) {
        Ok(value) => Ok(tree_of(value)),
        Err(error) => Err(error),
    }
}

} // verus!
