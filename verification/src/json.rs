//! JSON documents as values of the library's own, read and written through
//! `serde_json`.

use vstd::prelude::*;
use crate::error::AppError;
use crate::text::{name_order, str_eq};

verus! {

/// A JSON document. Numbers are kept as their decimal text. The members of
/// an object are kept as a list; a document that was read holds them in the
/// order of their names, each name once.
#[derive(Debug)]
pub enum Json {
    Null,
    Bool(bool),
    Number(String),
    Text(String),
    Array(Vec<Json>),
    Object(Vec<Member>),
}

/// A named member of a JSON object.
#[derive(Debug)]
pub struct Member {
    pub name: String,
    pub value: Json,
}

pub enum JsonView {
    Null,
    Bool(bool),
    Number(Seq<char>),
    Text(Seq<char>),
    Array(Seq<JsonView>),
    Object(Seq<MemberView>),
}

pub struct MemberView {
    pub name: Seq<char>,
    pub value: JsonView,
}

impl View for Json {
    type V = JsonView;

    open spec fn view(&self) -> JsonView
        decreases self,
    {
        match self {
            Json::Null => JsonView::Null,
            Json::Bool(b) => JsonView::Bool(*b),
            Json::Number(n) => JsonView::Number(n@),
            Json::Text(s) => JsonView::Text(s@),
            Json::Array(items) => JsonView::Array(
                Seq::new(
                    items@.len(),
                    |i: int|
                        if 0 <= i < items@.len() {
                            items@[i].view()
                        } else {
                            JsonView::Null
                        },
                ),
            ),
            Json::Object(members) => JsonView::Object(
                Seq::new(
                    members@.len(),
                    |i: int|
                        if 0 <= i < members@.len() {
                            MemberView { name: members@[i].name@, value: members@[i].value.view() }
                        } else {
                            MemberView { name: Seq::empty(), value: JsonView::Null }
                        },
                ),
            ),
        }
    }
}

impl JsonView {
    /// The document holds no number, and the members of each of its objects
    /// are listed by name in strictly increasing order. Documents of this
    /// form are written out member for member.
    pub open spec fn is_canonical(self) -> bool
        decreases self,
    {
        match self {
            JsonView::Number(_) => false,
            JsonView::Array(items) => forall|i: int|
                0 <= i < items.len() ==> (#[trigger] items[i]).is_canonical(),
            JsonView::Object(members) => {
                &&& forall|i: int|
                    0 <= i < members.len() ==> (#[trigger] members[i]).value.is_canonical()
                &&& forall|i: int, j: int|
                    0 <= i < j < members.len() ==> name_order(
                        (#[trigger] members[i]).name,
                        (#[trigger] members[j]).name,
                    )
            },
            _ => true,
        }
    }

    /// The position of the first member named `key` at or after `from`, or
    /// the number of members where there is none.
    pub open spec fn position(members: Seq<MemberView>, key: Seq<char>, from: int) -> int
        decreases members.len() - from,
    {
        if from < 0 || from >= members.len() {
            members.len() as int
        } else if members[from].name == key {
            from
        } else {
            Self::position(members, key, from + 1)
        }
    }

    /// The first member named `key` of an object; `None` for anything that
    /// is no object or has no such member.
    pub open spec fn member(self, key: Seq<char>) -> Option<JsonView> {
        match self {
            JsonView::Object(members) => {
                let i = Self::position(members, key, 0);
                if i < members.len() {
                    Some(members[i].value)
                } else {
                    None
                }
            },
            _ => None,
        }
    }

    /// The text of a string value.
    pub open spec fn text(self) -> Option<Seq<char>> {
        match self {
            JsonView::Text(s) => Some(s),
            _ => None,
        }
    }

    /// The items of an array.
    pub open spec fn items(self) -> Option<Seq<JsonView>> {
        match self {
            JsonView::Array(items) => Some(items),
            _ => None,
        }
    }

    /// The truth value of a boolean.
    pub open spec fn truth(self) -> Option<bool> {
        match self {
            JsonView::Bool(b) => Some(b),
            _ => None,
        }
    }

    /// The members of an object.
    pub open spec fn members(self) -> Option<Seq<MemberView>> {
        match self {
            JsonView::Object(members) => Some(members),
            _ => None,
        }
    }

    /// The text of the member `key`, where it is a string.
    pub open spec fn text_at(self, key: Seq<char>) -> Option<Seq<char>> {
        match self.member(key) {
            Some(v) => v.text(),
            None => None,
        }
    }

    /// The text of the member `key`, or the empty text.
    pub open spec fn text_or_empty(self, key: Seq<char>) -> Seq<char> {
        match self.text_at(key) {
            Some(s) => s,
            None => Seq::empty(),
        }
    }

    /// The items of the member `key`, where it is an array.
    pub open spec fn items_at(self, key: Seq<char>) -> Option<Seq<JsonView>> {
        match self.member(key) {
            Some(v) => v.items(),
            None => None,
        }
    }

    /// The truth value of the member `key`, or `false`.
    pub open spec fn flag_at(self, key: Seq<char>) -> bool {
        match self.member(key) {
            Some(JsonView::Bool(b)) => b,
            _ => false,
        }
    }
}

/// The views of a list of documents, in order.
pub open spec fn json_views(items: Seq<Json>) -> Seq<JsonView> {
    Seq::new(items.len(), |i: int| if 0 <= i < items.len() { items[i]@ } else { JsonView::Null })
}

/// The views of a list of members, in order.
pub open spec fn member_views(members: Seq<Member>) -> Seq<MemberView> {
    Seq::new(
        members.len(),
        |i: int|
            if 0 <= i < members.len() {
                MemberView { name: members[i].name@, value: members[i].value@ }
            } else {
                MemberView { name: Seq::empty(), value: JsonView::Null }
            },
    )
}

/// The view of an array is the array of its items' views.
pub proof fn lemma_array_view(items: Vec<Json>)
    ensures
        Json::Array(items)@ == JsonView::Array(json_views(items@)),
{
    let a = Json::Array(items).view().items().unwrap();
    let b = json_views(items@);
    assert(a =~= b);
}

/// The view of an object is the object of its members' views.
pub proof fn lemma_object_view(members: Vec<Member>)
    ensures
        Json::Object(members)@ == JsonView::Object(member_views(members@)),
{
    let a = Json::Object(members).view().members().unwrap();
    let b = member_views(members@);
    assert(a =~= b);
}

impl Json {
    /// The first member named `key`, if this is an object that has one.
    pub fn get(&self, key: &str) -> (r: Option<&Json>)
        ensures
            match r {
                Some(v) => self@.member(key@) == Some(v@),
                None => self@.member(key@) is None,
            },
    {
        match self {
            Json::Object(members) => {
                let ghost views = member_views(members@);
                proof {
                    lemma_object_view(*members);
                }
                assert(self@ == JsonView::Object(views));
                let n = members.len();
                let mut k: usize = 0;
                while k < n
                    invariant
                        k <= n,
                        self@ == JsonView::Object(views),
                        n == members@.len(),
                        views == member_views(members@),
                        JsonView::position(views, key@, 0) == JsonView::position(
                            views,
                            key@,
                            k as int,
                        ),
                    decreases n - k,
                {
                    if str_eq(members[k].name.as_str(), key) {
                        assert(views[k as int].name == key@);
                        assert(views[k as int].value == members@[k as int].value@);
                        assert(JsonView::position(views, key@, k as int) == k);
                        return Some(&members[k].value);
                    }
                    assert(views[k as int].name != key@);
                    k += 1;
                }
                None
            },
            _ => None,
        }
    }

    /// The text of a string value.
    pub fn as_text(&self) -> (r: Option<&String>)
        ensures
            match r {
                Some(s) => self@.text() == Some(s@),
                None => self@.text() is None,
            },
    {
        match self {
            Json::Text(s) => Some(s),
            _ => None,
        }
    }

    /// The items of an array.
    pub fn as_items(&self) -> (r: Option<&Vec<Json>>)
        ensures
            match r {
                Some(items) => self@.items() == Some(json_views(items@)),
                None => self@.items() is None,
            },
    {
        match self {
            Json::Array(items) => {
                assert(self@.items().unwrap() =~= json_views(items@));
                Some(items)
            },
            _ => None,
        }
    }

    /// The members of an object.
    pub fn as_members(&self) -> (r: Option<&Vec<Member>>)
        ensures
            match r {
                Some(members) => self@.members() == Some(member_views(members@)),
                None => self@.members() is None,
            },
    {
        match self {
            Json::Object(members) => {
                proof {
                    lemma_object_view(*members);
                }
                Some(members)
            },
            _ => None,
        }
    }

    /// The text of the member `key`, where it is a string.
    pub fn text_at(&self, key: &str) -> (r: Option<&String>)
        ensures
            r.is_some() == self@.text_at(key@).is_some(),
            r matches Some(s) ==> self@.text_at(key@) == Some(s@),
    {
        match self.get(key) {
            Some(v) => v.as_text(),
            None => None,
        }
    }

    /// The items of the member `key`, where it is an array.
    pub fn items_at(&self, key: &str) -> (r: Option<&Vec<Json>>)
        ensures
            r.is_some() == self@.items_at(key@).is_some(),
            r matches Some(items) ==> self@.items_at(key@) == Some(json_views(items@)),
    {
        match self.get(key) {
            Some(v) => v.as_items(),
            None => None,
        }
    }

    /// The truth value of the member `key`, or `false`.
    pub fn flag_at(&self, key: &str) -> (r: bool)
        ensures
            r == self@.flag_at(key@),
    {
        match self.get(key) {
            Some(Json::Bool(b)) => *b,
            _ => false,
        }
    }
}

#[verifier::external_type_specification]
#[verifier::external_body]
pub struct ExJsonValue(serde_json::Value);

#[verifier::external_type_specification]
#[verifier::external_body]
pub struct ExJsonError(serde_json::Error);

/// The document that a `serde_json::Value` holds: the members of an object
/// in the order in which the value hands them out.
pub uninterp spec fn json_content(value: serde_json::Value) -> JsonView;

/// The document that `serde_json` reads from `text`; `None` where it
/// rejects the text.
pub uninterp spec fn json_document(text: Seq<char>) -> Option<JsonView>;

/// The compact text that `serde_json` writes for a document; `None` where
/// it fails.
pub uninterp spec fn json_text(doc: JsonView) -> Option<Seq<char>>;

/// `serde_json::from_str` at `serde_json::Value`: the value read from
/// `text`, or the error where the text is no JSON document. The outcome is
/// a function of the text alone.
#[verifier::external_body]
fn read_value(text: &str) -> (r: Result<serde_json::Value, serde_json::Error>)
    ensures
        match r {
            Ok(v) => json_document(text@) == Some(json_content(v)),
            Err(_) => json_document(text@) is None,
        },
{
    serde_json::from_str::<serde_json::Value>(text)
}

/// The message of a `serde_json::Error`, as its `Display` impl writes it.
#[verifier::external_body]
fn error_text(e: &serde_json::Error) -> String {
    e.to_string()
}

/// Copies a `serde_json::Value` into a `Json`, variant for variant; a
/// number is copied as the text that `serde_json` displays for it.
#[verifier::external_body]
fn json_of_value(value: &serde_json::Value) -> (r: Json)
    ensures
        r@ == json_content(*value),
{
    match value {
        serde_json::Value::Null => Json::Null,
        serde_json::Value::Bool(b) => Json::Bool(*b),
        serde_json::Value::Number(n) => Json::Number(n.to_string()),
        serde_json::Value::String(s) => Json::Text(s.clone()),
        serde_json::Value::Array(a) => Json::Array(a.iter().map(json_of_value).collect()),
        serde_json::Value::Object(m) => Json::Object(
            m.iter().map(|(k, v)| Member { name: k.clone(), value: json_of_value(v) }).collect(),
        ),
    }
}

/// Copies a canonical `Json` into a `serde_json::Value`, variant for
/// variant. In a canonical document the members of each object are already
/// in the order in which a `serde_json::Map` keeps them, so the value holds
/// the document as it stands.
#[verifier::external_body]
fn value_of_json(doc: &Json) -> (r: serde_json::Value)
    requires
        doc@.is_canonical(),
    ensures
        json_content(r) == doc@,
{
    match doc {
        Json::Null => serde_json::Value::Null,
        Json::Number(_) => serde_json::Value::Null,
        Json::Bool(b) => serde_json::Value::Bool(*b),
        Json::Text(s) => serde_json::Value::String(s.clone()),
        Json::Array(a) => serde_json::Value::Array(a.iter().map(value_of_json).collect()),
        Json::Object(m) => serde_json::Value::Object(
            m.iter().map(|x| (x.name.clone(), value_of_json(&x.value))).collect(),
        ),
    }
}

/// `serde_json::to_string` on a `serde_json::Value`: the compact text of
/// the document that the value holds, a function of that document alone.
#[verifier::external_body]
fn write_value(value: &serde_json::Value) -> (r: Option<String>)
    ensures
        r.deep_view() == json_text(json_content(*value)),
{
    serde_json::to_string(value).ok()
}

/// Reads a JSON document. Fails with a serialization error exactly on the
/// texts that `serde_json` rejects.
pub fn parse_json(text: &str) -> (r: Result<Json, AppError>)
    ensures
        match r {
            Ok(doc) => json_document(text@) == Some(doc@),
            Err(e) => json_document(text@) is None && e is Serde,
        },
{
    match read_value(text) {
        Ok(v) => Ok(json_of_value(&v)),
        Err(e) => Err(AppError::Serde(error_text(&e))),
    }
}

/// Writes a canonical document as compact JSON text.
pub fn write_json(doc: &Json) -> (r: Option<String>)
    requires
        doc@.is_canonical(),
    ensures
        r.deep_view() == json_text(doc@),
{
    let v = value_of_json(doc);
    write_value(&v)
}

} // verus!
