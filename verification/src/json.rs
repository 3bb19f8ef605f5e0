//! JSON documents as plain values, and the reading of one from text.
//!
//! The text is parsed by `serde_json`; what it returns is carried over, node for node,
//! into `Json`, on which the rest of the library works.

use crate::text::{owned, same_text};
use vstd::prelude::*;

verus! {

/// A JSON document.
#[derive(Debug, PartialEq, Eq)]
pub enum Json {
    Null,
    Flag(bool),
    /// A number, held as its decimal text.
    Number(String),
    Text(String),
    Array(Vec<Json>),
    /// An object: its members, in the order in which the parser hands them out.
    Object(Vec<Member>),
}

/// A member of a JSON object.
#[derive(Debug, PartialEq, Eq)]
pub struct Member {
    pub name: String,
    pub value: Json,
}

/// The mathematical value of a `Json`.
pub enum JsonView {
    Null,
    Flag(bool),
    Number(Seq<char>),
    Text(Seq<char>),
    Array(Seq<JsonView>),
    Object(Seq<MemberView>),
}

/// The mathematical value of a `Member`.
pub struct MemberView {
    pub name: Seq<char>,
    pub value: JsonView,
}

impl View for Json {
    type V = JsonView;

    open spec fn view(&self) -> JsonView
        decreases self,
    {
        match self {
            Json::Null => JsonView::Null,
            Json::Flag(b) => JsonView::Flag(*b),
            Json::Number(n) => JsonView::Number(n@),
            Json::Text(t) => JsonView::Text(t@),
            Json::Array(items) => JsonView::Array(
                Seq::new(
                    items.len() as nat,
                    |i: int|
                        if 0 <= i < items.len() {
                            items[i].view()
                        } else {
                            JsonView::Null
                        },
                ),
            ),
            Json::Object(members) => JsonView::Object(
                Seq::new(
                    members.len() as nat,
                    |i: int|
                        if 0 <= i < members.len() {
                            MemberView { name: members[i].name@, value: members[i].value.view() }
                        } else {
                            MemberView { name: Seq::empty(), value: JsonView::Null }
                        },
                ),
            ),
        }
    }
}

/// The values of a sequence of documents, in order.
pub open spec fn json_views(v: Seq<Json>) -> Seq<JsonView> {
    Seq::new(v.len(), |i: int| v[i]@)
}

/// The value of the first member of `members` that is named `key`.
pub open spec fn lookup(members: Seq<MemberView>, key: Seq<char>) -> Option<JsonView>
    decreases members.len(),
{
    if members.len() == 0 {
        None
    } else if members[0].name == key {
        Some(members[0].value)
    } else {
        lookup(members.drop_first(), key)
    }
}

impl JsonView {
    /// The member named `key` of an object; of a document that is no object, none.
    pub open spec fn member(self, key: Seq<char>) -> Option<JsonView> {
        match self {
            JsonView::Object(members) => lookup(members, key),
            _ => None,
        }
    }

    /// The text of a string.
    pub open spec fn text(self) -> Option<Seq<char>> {
        match self {
            JsonView::Text(t) => Some(t),
            _ => None,
        }
    }

    /// The elements of an array.
    pub open spec fn items(self) -> Option<Seq<JsonView>> {
        match self {
            JsonView::Array(items) => Some(items),
            _ => None,
        }
    }

    /// The text of the member named `key`, where that member is a string.
    pub open spec fn text_at(self, key: Seq<char>) -> Option<Seq<char>> {
        match self.member(key) {
            Some(m) => m.text(),
            None => None,
        }
    }

    /// The elements of the member named `key`, where that member is an array; where it
    /// is not, no elements.
    pub open spec fn items_at(self, key: Seq<char>) -> Seq<JsonView> {
        match self.member(key) {
            Some(JsonView::Array(items)) => items,
            _ => Seq::empty(),
        }
    }
}

/// The texts that the elements of `items` hold under `key`, in order; an element
/// without such a text gives none.
pub open spec fn texts_under(items: Seq<JsonView>, key: Seq<char>) -> Seq<Seq<char>>
    decreases items.len(),
{
    if items.len() == 0 {
        Seq::empty()
    } else {
        match items.last().text_at(key) {
            Some(t) => texts_under(items.drop_last(), key).push(t),
            None => texts_under(items.drop_last(), key),
        }
    }
}

/// The value of an array is the values of its elements.
pub proof fn lemma_array_view(items: Vec<Json>)
    ensures
        Json::Array(items)@ == JsonView::Array(json_views(items@)),
{
    assert(Json::Array(items)@->Array_0 =~= json_views(items@));
}

/// The value of an object is the names and values of its members.
pub proof fn lemma_object_view(members: Vec<Member>)
    ensures
        Json::Object(members)@ == JsonView::Object(
            Seq::new(
                members@.len(),
                |i: int| MemberView { name: members@[i].name@, value: members@[i].value@ },
            ),
        ),
{
    let left = Json::Object(members)@->Object_0;
    let right = Seq::new(
        members@.len(),
        |i: int| MemberView { name: members@[i].name@, value: members@[i].value@ },
    );
    assert(left.len() == right.len());
    assert forall|i: int| 0 <= i < left.len() implies left[i] == right[i] by {
        assert(left[i].name == members@[i].name@);
        assert(left[i].value == members@[i].value@);
    }
    assert(left =~= right);
}

impl Json {
    /// The member named `key`, if this is an object that has one.
    pub fn get(&self, key: &str) -> (r: Option<&Json>)
        ensures
            match r {
                Some(j) => self@.member(key@) == Some(j@),
                None => self@.member(key@) is None,
            },
    {
        match self {
            Json::Object(members) => {
                let wanted = owned(key);
                let ghost all = Seq::new(
                    members@.len(),
                    |i: int| MemberView { name: members@[i].name@, value: members@[i].value@ },
                );
                proof {
                    lemma_object_view(*members);
                    assert(all.skip(0) =~= all);
                }
                let mut i: usize = 0;
                while i < members.len()
                    invariant
                        i <= members.len(),
                        wanted@ == key@,
                        self@ == JsonView::Object(all),
                        all.len() == members@.len(),
                        forall|k: int|
                            0 <= k < all.len() ==> all[k] == (MemberView {
                                name: members@[k].name@,
                                value: members@[k].value@,
                            }),
                        lookup(all, key@) == lookup(all.skip(i as int), key@),
                    decreases members.len() - i,
                {
                    proof {
                        assert(all.skip(i as int).drop_first() =~= all.skip(i + 1));
                        assert(all.skip(i as int)[0] == all[i as int]);
                    }
                    if same_text(&members[i].name, &wanted) {
                        return Some(&members[i].value);
                    }
                    i = i + 1;
                }
                None
            },
            _ => None,
        }
    }

    /// The text, if this is a string.
    pub fn as_text(&self) -> (r: Option<&String>)
        ensures
            match r {
                Some(t) => self@.text() == Some(t@),
                None => self@.text() is None,
            },
    {
        match self {
            Json::Text(t) => Some(t),
            _ => None,
        }
    }

    /// The elements, if this is an array.
    pub fn as_items(&self) -> (r: Option<&Vec<Json>>)
        ensures
            match r {
                Some(items) => self@.items() == Some(json_views(items@)),
                None => self@.items() is None,
            },
    {
        match self {
            Json::Array(items) => {
                proof {
                    lemma_array_view(*items);
                }
                Some(items)
            },
            _ => None,
        }
    }

    /// The text of the member named `key`, if that member is a string.
    pub fn text_at(&self, key: &str) -> (r: Option<&String>)
        ensures
            match r {
                Some(t) => self@.text_at(key@) == Some(t@),
                None => self@.text_at(key@) is None,
            },
    {
        match self.get(key) {
            Some(m) => m.as_text(),
            None => None,
        }
    }

    /// The elements of the member named `key`, if that member is an array.
    pub fn items_at(&self, key: &str) -> (r: Option<&Vec<Json>>)
        ensures
            match r {
                Some(items) => self@.items_at(key@) == json_views(items@) && self@.member(key@)
                    == Some(JsonView::Array(json_views(items@))),
                None => self@.items_at(key@) == Seq::<JsonView>::empty() && !(self@.member(key@)
                    matches Some(JsonView::Array(_))),
            },
    {
        match self.get(key) {
            Some(m) => m.as_items(),
            None => None,
        }
    }
}

/// The texts that the elements of `items` hold under `key`, in order.
pub fn collect_texts(items: &Vec<Json>, key: &str) -> (r: Vec<String>)
    ensures
        crate::text::texts(r@) == texts_under(json_views(items@), key@),
{
    let mut out: Vec<String> = Vec::new();
    let ghost all = json_views(items@);
    let mut i: usize = 0;
    assert(crate::text::texts(out@) =~= texts_under(all.take(0), key@));
    while i < items.len()
        invariant
            i <= items.len(),
            all == json_views(items@),
            crate::text::texts(out@) == texts_under(all.take(i as int), key@),
        decreases items.len() - i,
    {
        proof {
            assert(all.take(i + 1).drop_last() =~= all.take(i as int));
            assert(all.take(i + 1).last() == items@[i as int]@);
        }
        match items[i].text_at(key) {
            Some(t) => {
                out.push(t.clone());
            },
            None => {},
        }
        i = i + 1;
    }
    proof {
        assert(all.take(items.len() as int) =~= all);
    }
    out
}

/// `serde_json::Value`, carried through without a look inside.
#[verifier::external_type_specification]
#[verifier::external_body]
pub struct ExValue(serde_json::Value);

/// `serde_json::Error`, carried through without a look inside.
#[verifier::external_type_specification]
#[verifier::external_body]
pub struct ExError(serde_json::Error);

/// What `serde_json::from_str` makes of `text`, read as a `serde_json::Value`: the
/// document, or nothing where it reports an error.
pub uninterp spec fn parsed_document(text: Seq<char>) -> Option<JsonView>;

/// The document that a `serde_json::Value` holds.
pub uninterp spec fn value_document(value: serde_json::Value) -> JsonView;

/// Calls `serde_json::from_str` for a `serde_json::Value`. The contract only names
/// the outcome: the value's document on success, nothing on an error.
#[verifier::external_body]
fn parse_value(text: &str) -> (r: Result<serde_json::Value, serde_json::Error>)
    ensures
        match r {
            Ok(value) => parsed_document(text@) == Some(value_document(value)),
            Err(_) => parsed_document(text@) is None,
        },
{
    serde_json::from_str::<serde_json::Value>(text)
}

/// Carries a `serde_json::Value` over into a `Json`, variant for variant: a number by
/// the text that its `to_string` gives, an object by its members in the order in which
/// the value iterates them. The contract claims that the result is the document the
/// value holds.
#[verifier::external_body]
fn document_of(value: serde_json::Value) -> (r: Json)
    ensures
        r@ == value_document(value),
{
    match value {
        serde_json::Value::Null => Json::Null,
        serde_json::Value::Bool(b) => Json::Flag(b),
        serde_json::Value::Number(n) => Json::Number(n.to_string()),
        serde_json::Value::String(s) => Json::Text(s),
        serde_json::Value::Array(a) => Json::Array(a.into_iter().map(document_of).collect()),
        serde_json::Value::Object(m) => Json::Object(
            m.into_iter().map(|(k, v)| Member { name: k, value: document_of(v) }).collect(),
        ),
    }
}

/// Reads a JSON document from `text`; `None` where `text` is not valid JSON.
pub fn parse(text: &str) -> (r: Option<Json>)
    ensures
        match r {
            Some(j) => parsed_document(text@) == Some(j@),
            None => parsed_document(text@) is None,
        },
{
    match parse_value(text) {
        Ok(value) => Some(document_of(value)),
        Err(_) => None,
    }
}

} // verus!
