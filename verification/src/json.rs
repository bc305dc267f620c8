//! Reading and writing JSON through `serde_json`.
//!
//! A parsed document is looked into by JSON pointers: `/data/open` is the member
//! `open` of the member `data`, and `/list/0` is the first element of `list`.
use vstd::prelude::*;

verus! {

/// A JSON document.
#[verifier::external_type_specification]
#[verifier::external_body]
pub struct ExValue(serde_json::Value);

/// The document that `serde_json::from_str` reads from a text, or what is wrong with
/// the text.
pub uninterp spec fn document(s: Seq<char>) -> Result<serde_json::Value, Seq<char>>;

/// A document as `serde_json` writes it.
pub uninterp spec fn written(v: serde_json::Value) -> Seq<char>;

/// The strings in a document, by their pointers.
pub uninterp spec fn texts(v: serde_json::Value) -> Map<Seq<char>, Seq<char>>;

/// The truth values in a document, by their pointers.
pub uninterp spec fn flags(v: serde_json::Value) -> Map<Seq<char>, bool>;

/// The integers in a document that fit in 64 bits with a sign, by their pointers.
pub uninterp spec fn integers(v: serde_json::Value) -> Map<Seq<char>, i64>;

/// The lengths of the arrays in a document, by their pointers.
pub uninterp spec fn lengths(v: serde_json::Value) -> Map<Seq<char>, nat>;

/// The pointers of the objects in a document.
pub uninterp spec fn objects(v: serde_json::Value) -> Set<Seq<char>>;

/// The text of an object with these members, as `serde_json` writes it.
pub uninterp spec fn object_text(fields: Seq<(Seq<char>, FieldView)>) -> Seq<char>;

/// What a map holds under a key.
pub open spec fn at<V>(m: Map<Seq<char>, V>, key: Seq<char>) -> Option<V> {
    if m.dom().contains(key) {
        Some(m[key])
    } else {
        None
    }
}

/// The characters of a text that may not be there.
pub open spec fn chars(o: Option<String>) -> Option<Seq<char>> {
    match o {
        Some(s) => Some(s@),
        None => None,
    }
}

/// The characters of an error.
pub open spec fn parsed(r: Result<serde_json::Value, String>) -> Result<serde_json::Value, Seq<char>> {
    match r {
        Ok(v) => Ok(v),
        Err(e) => Err(e@),
    }
}

/// Calls `serde_json::from_str` for a `serde_json::Value`. Which texts are documents,
/// what they hold, and how an error is worded, is named and not described further.
#[verifier::external_body]
pub(crate) fn parse(s: &str) -> (r: Result<serde_json::Value, String>)
    ensures
        parsed(r) == document(s@),
{
    match serde_json::from_str::<serde_json::Value>(s) {
        Ok(v) => Ok(v),
        Err(e) => Err(e.to_string()),
    }
}

/// Calls `Value::to_string`; the text is named and not described further.
#[verifier::external_body]
pub(crate) fn write(v: &serde_json::Value) -> (r: String)
    ensures
        r@ == written(*v),
{
    v.to_string()
}

/// Calls `Value::pointer` and `Value::as_str`: the string under a pointer, if there is
/// a value and it is a string.
#[verifier::external_body]
pub(crate) fn text_at(v: &serde_json::Value, pointer: &str) -> (r: Option<String>)
    ensures
        chars(r) == at(texts(*v), pointer@),
{
    match v.pointer(pointer) {
        Some(x) => match x.as_str() {
            Some(s) => Some(s.to_string()),
            None => None,
        },
        None => None,
    }
}

/// Calls `Value::pointer` and `Value::as_bool`: the truth value under a pointer, if
/// there is a value and it is one.
#[verifier::external_body]
pub(crate) fn flag_at(v: &serde_json::Value, pointer: &str) -> (r: Option<bool>)
    ensures
        r == at(flags(*v), pointer@),
{
    match v.pointer(pointer) {
        Some(x) => x.as_bool(),
        None => None,
    }
}

/// Calls `Value::pointer` and `Value::as_i64`: the integer under a pointer, if there is
/// a value and it is one that fits.
#[verifier::external_body]
pub(crate) fn integer_at(v: &serde_json::Value, pointer: &str) -> (r: Option<i64>)
    ensures
        r == at(integers(*v), pointer@),
{
    match v.pointer(pointer) {
        Some(x) => x.as_i64(),
        None => None,
    }
}

/// Calls `Value::pointer` and `Value::as_array`: the length of the array under a
/// pointer, if there is a value and it is an array.
#[verifier::external_body]
pub(crate) fn length_at(v: &serde_json::Value, pointer: &str) -> (r: Option<usize>)
    ensures
        r is Some <==> lengths(*v).dom().contains(pointer@),
        r is Some ==> r->0 == lengths(*v)[pointer@],
{
    match v.pointer(pointer) {
        Some(x) => match x.as_array() {
            Some(a) => Some(a.len()),
            None => None,
        },
        None => None,
    }
}

/// Calls `Value::pointer` and `Value::is_object`: whether there is an object under a
/// pointer.
#[verifier::external_body]
pub(crate) fn object_at(v: &serde_json::Value, pointer: &str) -> (r: bool)
    ensures
        r == objects(*v).contains(pointer@),
{
    match v.pointer(pointer) {
        Some(x) => x.is_object(),
        None => false,
    }
}

/// The value of a member to be written.
#[derive(Debug)]
pub enum Field {
    Text(String),
    Flag(bool),
    Integer(i64),
    List(Vec<String>),
}

/// The contents of a [`Field`].
#[verifier::ext_equal]
pub enum FieldView {
    Text(Seq<char>),
    Flag(bool),
    Integer(i64),
    List(Seq<Seq<char>>),
}

/// The characters of a list of texts.
pub open spec fn all_chars(s: Seq<String>) -> Seq<Seq<char>> {
    Seq::new(s.len(), |i: int| s[i]@)
}

impl View for Field {
    type V = FieldView;

    open spec fn view(&self) -> FieldView {
        match *self {
            Field::Text(s) => FieldView::Text(s@),
            Field::Flag(b) => FieldView::Flag(b),
            Field::Integer(n) => FieldView::Integer(n),
            Field::List(l) => FieldView::List(all_chars(l@)),
        }
    }
}

/// The contents of the members of an object.
pub open spec fn field_views(s: Seq<(String, Field)>) -> Seq<(Seq<char>, FieldView)> {
    Seq::new(s.len(), |i: int| (s[i].0@, s[i].1@))
}

/// Builds a `serde_json::Value::Object` and calls its `to_string`. The text is named and
/// not described further.
#[verifier::external_body]
pub(crate) fn write_object(fields: Vec<(String, Field)>) -> (r: String)
    ensures
        r@ == object_text(field_views(fields@)),
{
    let mut map = serde_json::Map::new();
    for (key, value) in fields {
        let v = match value {
            Field::Text(s) => serde_json::Value::from(s),
            Field::Flag(b) => serde_json::Value::from(b),
            Field::Integer(n) => serde_json::Value::from(n),
            Field::List(l) => serde_json::Value::from(l),
        };
        map.insert(key, v);
    }
    serde_json::Value::Object(map).to_string()
}

} // verus!
