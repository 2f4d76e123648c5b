//! JSON documents as trees, read with `serde_json`.

use vstd::prelude::*;

verus! {

/// A JSON document.
///
/// A number stands for itself only: nothing here reads its value. The
/// members of an object stand in the order in which `serde_json` walks them.
#[derive(Debug, PartialEq, Eq)]
pub enum JsonValue {
    Null,
    Bool(bool),
    Number,
    Text(String),
    Array(Vec<JsonValue>),
    Object(Vec<Member>),
}

/// One member of a JSON object: a name and what stands under it.
#[derive(Debug, PartialEq, Eq)]
pub struct Member {
    pub name: String,
    pub value: JsonValue,
}

/// A JSON document with its texts as character sequences.
pub enum JsonView {
    Null,
    Bool(bool),
    Number,
    Text(Seq<char>),
    Array(Seq<JsonView>),
    Object(Seq<MemberView>),
}

/// A member of a JSON object with its name as a character sequence.
pub struct MemberView {
    pub name: Seq<char>,
    pub value: JsonView,
}

impl View for JsonValue {
    type V = JsonView;

    open spec fn view(&self) -> JsonView
        decreases self,
    {
        match self {
            JsonValue::Null => JsonView::Null,
            JsonValue::Bool(b) => JsonView::Bool(*b),
            JsonValue::Number => JsonView::Number,
            JsonValue::Text(text) => JsonView::Text(text@),
            JsonValue::Array(items) => JsonView::Array(
                Seq::new(
                    items@.len(),
                    |i: int|
                        if 0 <= i < items@.len() {
                            items@[i]@
                        } else {
                            JsonView::Null
                        },
                ),
            ),
            JsonValue::Object(members) => JsonView::Object(
                Seq::new(
                    members@.len(),
                    |i: int|
                        if 0 <= i < members@.len() {
                            MemberView { name: members@[i].name@, value: members@[i].value@ }
                        } else {
                            MemberView { name: Seq::empty(), value: JsonView::Null }
                        },
                ),
            ),
        }
    }
}

/// The value of the first of `members` that is named `name`.
pub open spec fn member(members: Seq<MemberView>, name: Seq<char>) -> Option<JsonView>
    decreases members.len(),
{
    if members.len() == 0 {
        None
    } else if members[0].name == name {
        Some(members[0].value)
    } else {
        member(members.skip(1), name)
    }
}

impl JsonView {
    /// The member `name` of an object; `None` where the object has no such
    /// member and where the document is no object.
    pub open spec fn get(self, name: Seq<char>) -> Option<JsonView> {
        match self {
            JsonView::Object(members) => member(members, name),
            _ => None,
        }
    }
}

impl JsonValue {
    /// The member `name` of an object; `None` where the object has no such
    /// member and where the document is no object.
    pub fn get(&self, name: &str) -> (value: Option<&JsonValue>)
        ensures
            match value {
                Some(found) => self@.get(name@) == Some(found@),
                None => self@.get(name@) is None,
            },
    {
        match self {
            JsonValue::Object(members) => {
                let ghost all = self@->Object_0;
                let wanted = String::from_str(name);
                let mut i: usize = 0;
                assert(all.skip(0) =~= all);
                while i < members.len()
                    invariant
                        i <= members.len(),
                        wanted@ == name@,
                        self@ == JsonView::Object(all),
                        *self == JsonValue::Object(*members),
                        all.len() == members.len(),
                        member(all, name@) == member(all.skip(i as int), name@),
                    decreases members.len() - i,
                {
                    let ghost rest = all.skip(i as int);
                    assert(rest.skip(1) =~= all.skip(i + 1));
                    if members[i].name == wanted {
                        return Some(&members[i].value);
                    }
                    i += 1;
                }
                None
            },
            _ => None,
        }
    }
}

/// `serde_json::Value`: a JSON document as `serde_json` holds it. Nothing
/// is known of what is inside one but through `lift`.
#[verifier::external_type_specification]
#[verifier::external_body]
pub struct ExValue(serde_json::Value);

/// What `serde_json::from_str` makes of a text: the document that it reads
/// from it, or the message of the error that it reports.
pub uninterp spec fn json_reading(text: Seq<char>) -> Result<JsonView, Seq<char>>;

/// The document that a `serde_json::Value` holds.
pub uninterp spec fn value_document(value: serde_json::Value) -> JsonView;

/// Reads `text` with `serde_json::from_str`, for a `serde_json::Value`.
///
/// Trusted: the call gives the same outcome for the same text. Its outcome
/// is `json_reading` of the text: the document of the value that it
/// returns, or what its error displays.
#[verifier::external_body]
fn read_value(text: &str) -> (reading: Result<serde_json::Value, String>)
    ensures
        match reading {
            Ok(value) => json_reading(text@) == Ok::<JsonView, Seq<char>>(value_document(value)),
            Err(message) => json_reading(text@) == Err::<JsonView, Seq<char>>(message@),
        },
{
    match serde_json::from_str::<serde_json::Value>(text) {
        Ok(value) => Ok(value),
        Err(error) => Err(error.to_string()),
    }
}

/// Copies a `serde_json::Value` into a tree of this library, variant by
/// variant, the members of an object in the order of `serde_json::Map::iter`.
///
/// Trusted: the tree shows the document that the value holds.
#[verifier::external_body]
fn lift(value: &serde_json::Value) -> (tree: JsonValue)
    ensures
        tree@ == value_document(*value),
{
    match value {
        serde_json::Value::Null => JsonValue::Null,
        serde_json::Value::Bool(b) => JsonValue::Bool(*b),
        serde_json::Value::Number(_) => JsonValue::Number,
        serde_json::Value::String(text) => JsonValue::Text(text.clone()),
        serde_json::Value::Array(items) => JsonValue::Array(items.iter().map(lift).collect()),
        serde_json::Value::Object(members) => JsonValue::Object(
            members.iter().map(|(name, value)| Member { name: name.clone(), value: lift(value) }).collect(),
        ),
    }
}

/// Reads a JSON document from `text`.
///
/// Gives the document that `serde_json` reads from the text, or the message
/// of the error that it reports: `json_reading` names the two.
pub fn parse_json(text: &str) -> (reading: Result<JsonValue, String>)
    ensures
        match reading {
            Ok(tree) => json_reading(text@) == Ok::<JsonView, Seq<char>>(tree@),
            Err(message) => json_reading(text@) == Err::<JsonView, Seq<char>>(message@),
        },
{
    match read_value(text) {
        Ok(value) => Ok(lift(&value)),
        Err(message) => Err(message),
    }
}

} // verus!
