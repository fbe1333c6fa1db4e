//! The JSON reader that the hardware profile goes through.
//!
//! Everything here is trusted: the documents are values of `serde_json`, which
//! the verifier cannot look into. What a document holds is given a name, the
//! strings in it by the way that leads to each, and the calls into the reader
//! are stated over that name.

use vstd::prelude::*;

verus! {

/// A JSON document of `serde_json`, opaque to the verifier.
#[verifier::external_type_specification]
#[verifier::external_body]
pub struct ExValue(serde_json::Value);

/// The reason why `serde_json` refused a text, opaque to the verifier.
#[verifier::external_type_specification]
#[verifier::external_body]
pub struct ExError(serde_json::Error);

/// One step of the way into a document: into the member of an object, or to
/// the element of an array.
pub enum PathStep {
    Key(Seq<char>),
    At(usize),
}

/// The way to a place in a document, from the outside in.
pub type Path = Seq<PathStep>;

/// The strings of a document, each under the way that leads to it; a
/// document that is a string has it under the empty way.
pub type Strings = Map<Seq<PathStep>, Seq<char>>;

/// The strings that a document holds.
pub uninterp spec fn strings(doc: serde_json::Value) -> Map<Seq<PathStep>, Seq<char>>;

/// The strings of the document that `serde_json::from_str` reads from a
/// text, if it reads one.
pub uninterp spec fn parsed(text: Seq<char>) -> Option<Map<Seq<PathStep>, Seq<char>>>;

/// The strings that lie behind one step, under the rest of their way.
pub open spec fn below(all: Strings, step: PathStep) -> Strings {
    Map::new(|rest: Path| all.contains_key(seq![step] + rest), |rest: Path| all[seq![step] + rest])
}

/// Reads a text as JSON.
///
/// Calls `serde_json::from_str` for a `Value`. Trusted: whether the text is
/// accepted, and what the document then holds, depend on the text alone.
#[verifier::external_body]
pub(crate) fn from_str(s: &str) -> (r: Result<serde_json::Value, serde_json::Error>)
    ensures
        match r {
            Ok(doc) => parsed(s@) == Some(strings(doc)),
            Err(_) => parsed(s@) is None,
        },
{
    serde_json::from_str::<serde_json::Value>(s)
}

/// Indexes a document by a key.
///
/// Calls the `Index<&str>` impl of `Value`, which never panics: it gives the
/// member of an object, and the null document where there is no such member
/// or the document is no object. Trusted: the result holds what the document
/// holds behind that key.
#[verifier::external_body]
pub(crate) fn get_member<'a>(doc: &'a serde_json::Value, key: &str) -> (r: &'a serde_json::Value)
    ensures
        strings(*r) == below(strings(*doc), PathStep::Key(key@)),
{
    &doc[key]
}

/// Indexes a document by a position.
///
/// Calls the `Index<usize>` impl of `Value`, which never panics: it gives the
/// element of an array, and the null document where there is no such element
/// or the document is no array. Trusted: the result holds what the document
/// holds behind that position.
#[verifier::external_body]
pub(crate) fn get_element<'a>(doc: &'a serde_json::Value, index: usize) -> (r:
    &'a serde_json::Value)
    ensures
        strings(*r) == below(strings(*doc), PathStep::At(index)),
{
    &doc[index]
}

/// The string that a document is, if it is one.
///
/// Calls `Value::as_str`. Trusted: the result is the string that the document
/// holds under the empty way, nothing where it holds none there.
#[verifier::external_body]
pub(crate) fn as_str<'a>(doc: &'a serde_json::Value) -> (r: Option<&'a str>)
    ensures
        match r {
            Some(s) => strings(*doc).contains_key(Seq::empty()) && strings(*doc)[Seq::empty()]
                == s@,
            None => !strings(*doc).contains_key(Seq::empty()),
        },
{
    doc.as_str()
}

} // verus!
