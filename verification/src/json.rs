//! JSON documents: the parts that the scanner reads, and the calls into
//! `serde_json` that compute them.
use vstd::prelude::*;

use crate::extension::{is_media_extension, url_extension_from_path};
use crate::urls;

verus! {

/// A JSON document as the scanner sees it: the values of an object stand in
/// the order in which the parser holds them, without their keys.
#[derive(Debug)]
pub enum Json {
    Text(String),
    Array(Vec<Json>),
    Object(Vec<Json>),
    /// Null, a truth value or a number.
    Other,
}

/// What a [`Json`] stands for.
pub enum JsonView {
    Text(Seq<char>),
    Array(Seq<JsonView>),
    Object(Seq<JsonView>),
    Other,
}

impl Json {
    pub open spec fn tree(self) -> JsonView
        decreases self,
    {
        match self {
            Json::Text(value) => JsonView::Text(value@),
            Json::Array(items) => JsonView::Array(
                Seq::new(
                    items@.len(),
                    |i: int|
                        if 0 <= i < items@.len() {
                            items@[i].tree()
                        } else {
                            JsonView::Other
                        },
                ),
            ),
            Json::Object(items) => JsonView::Object(
                Seq::new(
                    items@.len(),
                    |i: int|
                        if 0 <= i < items@.len() {
                            items@[i].tree()
                        } else {
                            JsonView::Other
                        },
                ),
            ),
            Json::Other => JsonView::Other,
        }
    }
}

/// A JSON value of `serde_json`.
#[verifier::external_type_specification]
#[verifier::external_body]
pub struct ExJsonValue(serde_json::Value);

/// What a JSON value of `serde_json` holds.
pub uninterp spec fn json_content(value: serde_json::Value) -> JsonView;

/// What `serde_json::from_str` reads from a text.
pub uninterp spec fn json_document(body: Seq<char>) -> Option<JsonView>;

/// Calls `serde_json::from_str`; an error gives nothing. The result depends on
/// the text alone.
#[verifier::external_body]
fn read_json(body: &str) -> (value: Option<serde_json::Value>)
    ensures
        match value {
            Some(given) => json_document(body@) == Some(json_content(given)),
            None => json_document(body@) is None,
        },
{
    serde_json::from_str(body).ok()
}

/// One level of a JSON value of `serde_json`.
enum JsonPart<'a> {
    Text(String),
    Array(Vec<&'a serde_json::Value>),
    Object(Vec<&'a serde_json::Value>),
    Other,
}

/// What several JSON values of `serde_json` hold.
spec fn contents(values: Seq<&serde_json::Value>) -> Seq<JsonView> {
    Seq::new(values.len(), |i: int| json_content(*values[i]))
}

impl<'a> JsonPart<'a> {
    spec fn content(self) -> JsonView {
        match self {
            JsonPart::Text(value) => JsonView::Text(value@),
            JsonPart::Array(items) => JsonView::Array(contents(items@)),
            JsonPart::Object(items) => JsonView::Object(contents(items@)),
            JsonPart::Other => JsonView::Other,
        }
    }
}

/// Takes one level of a `serde_json::Value` apart: a string, the items of an
/// array in order, or the values of an object in the order in which
/// `Map::values` hands them out.
#[verifier::external_body]
fn json_part<'a>(value: &'a serde_json::Value) -> (part: JsonPart<'a>)
    ensures
        part.content() == json_content(*value),
{
    match value {
        serde_json::Value::String(text) => JsonPart::Text(text.to_owned()),
        serde_json::Value::Array(items) => JsonPart::Array(items.iter().collect()),
        serde_json::Value::Object(map) => JsonPart::Object(map.values().collect()),
        serde_json::Value::Null => JsonPart::Other,
        serde_json::Value::Bool(_) => JsonPart::Other,
        serde_json::Value::Number(_) => JsonPart::Other,
    }
}

/// The document that a JSON value of `serde_json` holds.
fn json_tree(value: &serde_json::Value) -> (document: Json)
    ensures
        document.tree() == json_content(*value),
    decreases json_content(*value),
{
    let part = json_part(value);
    match part {
        JsonPart::Text(text) => Json::Text(text),
        JsonPart::Array(items) => {
            assert(json_content(*value)->Array_0 == contents(items@));
            let documents = json_trees(&items);
            let document = Json::Array(documents);
            assert(document.tree()->Array_0 =~= trees(documents@));
            document
        },
        JsonPart::Object(items) => {
            assert(json_content(*value)->Object_0 == contents(items@));
            let documents = json_trees(&items);
            let document = Json::Object(documents);
            assert(document.tree()->Object_0 =~= trees(documents@));
            document
        },
        JsonPart::Other => Json::Other,
    }
}

/// The documents that several JSON values of `serde_json` hold.
fn json_trees<'a>(values: &Vec<&'a serde_json::Value>) -> (documents: Vec<Json>)
    ensures
        trees(documents@) == contents(values@),
    decreases contents(values@),
{
    let mut documents: Vec<Json> = Vec::new();
    let mut i: usize = 0;
    while i < values.len()
        invariant
            i <= values.len(),
            documents.len() == i,
            forall|j: int|
                0 <= j < i ==> (#[trigger] documents@[j]).tree() == json_content(*values@[j]),
        decreases values.len() - i,
    {
        assert(contents(values@)[i as int] == json_content(*values@[i as int]));
        assert(decreases_to!(contents(values@) => contents(values@)[i as int]));
        documents.push(json_tree(values[i]));
        i += 1;
    }
    assert(trees(documents@) =~= contents(values@));
    documents
}

/// The tree of a document that may be missing.
pub open spec fn tree_if_any(document: Option<Json>) -> Option<JsonView> {
    match document {
        Some(given) => Some(given.tree()),
        None => None,
    }
}

/// Reads a JSON document; none where the text is no JSON.
pub fn parse_json(body: &str) -> (document: Option<Json>)
    ensures
        tree_if_any(document) == json_document(body@),
{
    match read_json(body) {
        Some(value) => Some(json_tree(&value)),
        None => None,
    }
}

/// The strings of a document, in order, that name media files.
pub open spec fn media_filenames(document: JsonView) -> Seq<Seq<char>>
    decreases document,
{
    match document {
        JsonView::Text(value) => if urls::media_path(value) {
            seq![value]
        } else {
            Seq::empty()
        },
        JsonView::Array(items) => media_filenames_of(items),
        JsonView::Object(items) => media_filenames_of(items),
        JsonView::Other => Seq::empty(),
    }
}

/// The strings of several documents, in order, that name media files.
pub open spec fn media_filenames_of(items: Seq<JsonView>) -> Seq<Seq<char>>
    decreases items,
{
    if items.len() == 0 {
        Seq::empty()
    } else {
        media_filenames_of(items.drop_last()) + media_filenames(items.last())
    }
}

/// The trees of several documents.
pub open spec fn trees(items: Seq<Json>) -> Seq<JsonView> {
    Seq::new(items.len(), |i: int| items[i].tree())
}

/// Adds the strings of a document that name media files, in order.
pub fn collect_media_filenames(value: &Json, output: &mut Vec<String>)
    ensures
        final(output).deep_view() == old(output).deep_view() + media_filenames(value.tree()),
    decreases value,
{
    let ghost before = output.deep_view();
    match value {
        Json::Text(text) => {
            let media = match url_extension_from_path(text.as_str()) {
                Some(extension) => is_media_extension(extension.as_str()),
                None => false,
            };
            if media {
                output.push(text.clone());
                assert(output.deep_view() =~= before + seq![text@]);
            } else {
                assert(output.deep_view() =~= before + Seq::empty());
            }
        },
        Json::Array(items) => {
            assert(value.tree()->Array_0 =~= trees(items@));
            collect_from_items(items, output);
        },
        Json::Object(items) => {
            assert(value.tree()->Object_0 =~= trees(items@));
            collect_from_items(items, output);
        },
        Json::Other => {
            assert(output.deep_view() =~= before + Seq::empty());
        },
    }
}

/// Adds the strings of several documents that name media files, in order.
fn collect_from_items(items: &Vec<Json>, output: &mut Vec<String>)
    ensures
        final(output).deep_view() == old(output).deep_view() + media_filenames_of(trees(items@)),
    decreases items,
{
    let ghost before = output.deep_view();
    let ghost all = trees(items@);
    assert(output.deep_view() =~= before + media_filenames_of(all.take(0)));
    let mut i: usize = 0;
    while i < items.len()
        invariant
            i <= items.len(),
            all == trees(items@),
            output.deep_view() == before + media_filenames_of(all.take(i as int)),
        decreases items.len() - i,
    {
        assert(all.take(i + 1).drop_last() =~= all.take(i as int));
        assert(decreases_to!(items => items@[i as int]));
        let ghost so_far = media_filenames_of(all.take(i as int));
        collect_media_filenames(&items[i], output);
        assert(output.deep_view() =~= before + (so_far + media_filenames(all[i as int])));
        i += 1;
    }
    assert(all.take(i as int) =~= all);
}

} // verus!
