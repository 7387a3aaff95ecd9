//! From a values document to the tree a template is rendered against.
//!
//! A document in any of the three formats is first parsed into a
//! `serde_json::Value`; that value is then rebuilt as a `mustache::Data`.
//! The rebuilt tree has no numbers: a number becomes the string that holds its
//! canonical text.

use vstd::prelude::*;
use crate::format::ValuesFormat;

verus! {

/// `serde_json::Value`, the value that a document of any format is parsed
/// into. What it holds is spoken of through [`document_of`].
#[verifier::external_type_specification]
#[verifier::external_body]
pub struct ExJsonValue(serde_json::Value);

/// `mustache::Data`, the value that a template is rendered against. What it
/// holds is spoken of through [`tree_of`].
#[verifier::external_type_specification]
#[verifier::external_body]
pub struct ExData(mustache::Data);

/// `serde_json::Error`, carried from the parser to the message.
#[verifier::external_type_specification]
#[verifier::external_body]
pub struct ExJsonError(serde_json::Error);

/// `serde_yaml::Error`, carried from the parser to the message.
#[verifier::external_type_specification]
#[verifier::external_body]
pub struct ExYamlError(serde_yaml::Error);

/// `toml::de::Error`, carried from the parser to the message.
#[verifier::external_type_specification]
#[verifier::external_body]
pub struct ExTomlError(toml::de::Error);

/// What a parsed document holds. The entries of an object stand in the order
/// in which the parsed value hands them out.
pub enum Document {
    Null,
    Bool(bool),
    Number(Seq<char>),
    Text(Seq<char>),
    Array(Seq<Document>),
    Object(Seq<(Seq<char>, Document)>),
}

/// What a template is rendered against: no numbers, and an object is a map.
pub enum ValueTree {
    Null,
    Bool(bool),
    Text(Seq<char>),
    Array(Seq<ValueTree>),
    Object(Map<Seq<char>, ValueTree>),
}

/// The document that a parsed value holds.
pub uninterp spec fn document_of(value: serde_json::Value) -> Document;

/// The tree that a template value holds.
pub uninterp spec fn tree_of(data: mustache::Data) -> ValueTree;

/// The document that a JSON text stands for, where it is valid JSON.
pub uninterp spec fn json_document(text: Seq<char>) -> Option<Document>;

/// The document that a YAML text stands for, where it is valid YAML that a
/// JSON value can hold.
pub uninterp spec fn yaml_document(text: Seq<char>) -> Option<Document>;

/// The document that a TOML text stands for, where it is valid TOML.
pub uninterp spec fn toml_document(text: Seq<char>) -> Option<Document>;

/// The document that `text` stands for in `format`.
pub open spec fn parsed(format: ValuesFormat, text: Seq<char>) -> Option<Document> {
    match format {
        ValuesFormat::Json => json_document(text),
        ValuesFormat::Yaml => yaml_document(text),
        ValuesFormat::Toml => toml_document(text),
    }
}

/// The map of `entries`: each key with its value. Where two entries have one
/// key, this map has the value of the later; a document's object has no such
/// entries.
pub open spec fn collected(entries: Seq<(Seq<char>, ValueTree)>) -> Map<Seq<char>, ValueTree>
    decreases entries.len(),
{
    if entries.len() == 0 {
        Map::empty()
    } else {
        collected(entries.drop_last()).insert(entries.last().0, entries.last().1)
    }
}

/// The tree of a document: the same shape, each number replaced by the
/// string of its text.
pub open spec fn normalized(doc: Document) -> ValueTree
    decreases doc, 0int,
{
    match doc {
        Document::Null => ValueTree::Null,
        Document::Bool(b) => ValueTree::Bool(b),
        Document::Number(text) => ValueTree::Text(text),
        Document::Text(text) => ValueTree::Text(text),
        Document::Array(items) => ValueTree::Array(normalized_items(items, items.len())),
        Document::Object(entries) => ValueTree::Object(
            collected(normalized_entries(entries, entries.len())),
        ),
    }
}

/// The trees of the first `n` of `items`, in their order.
pub open spec fn normalized_items(items: Seq<Document>, n: nat) -> Seq<ValueTree>
    decreases items, n,
{
    if n == 0 || n > items.len() {
        Seq::empty()
    } else {
        normalized_items(items, (n - 1) as nat).push(normalized(items[n - 1]))
    }
}

/// The first `n` of `entries`, each key with the tree of its value.
pub open spec fn normalized_entries(entries: Seq<(Seq<char>, Document)>, n: nat) -> Seq<
    (Seq<char>, ValueTree),
>
    decreases entries, n,
{
    if n == 0 || n > entries.len() {
        Seq::empty()
    } else {
        normalized_entries(entries, (n - 1) as nat).push(
            (entries[n - 1].0, normalized(entries[n - 1].1)),
        )
    }
}

/// The trees that the values of `items` hold, in their order.
pub open spec fn trees_of(items: Seq<mustache::Data>) -> Seq<ValueTree> {
    Seq::new(items.len(), |i: int| tree_of(items[i]))
}

/// The entries of `entries`, each key's text with the tree that its value holds.
pub open spec fn entry_trees_of(entries: Seq<(String, mustache::Data)>) -> Seq<
    (Seq<char>, ValueTree),
> {
    Seq::new(entries.len(), |i: int| (entries[i].0@, tree_of(entries[i].1)))
}

/// No two of `entries` have the same key.
pub open spec fn distinct_keys(entries: Seq<(&String, &serde_json::Value)>) -> bool {
    forall|i: int, j: int|
        0 <= i < j < entries.len() ==> (#[trigger] entries[i]).0@ != (#[trigger] entries[j]).0@
}

/// `serde_json::Value::as_bool`: the boolean of a boolean value, of no other.
#[verifier::external_body]
fn json_bool(value: &serde_json::Value) -> (r: Option<bool>)
    ensures
        r == (match document_of(*value) {
            Document::Bool(b) => Some(b),
            _ => None,
        }),
{
    value.as_bool()
}

/// `serde_json::Value::as_str`: the text of a string value, of no other.
#[verifier::external_body]
fn json_text(value: &serde_json::Value) -> (r: Option<&str>)
    ensures
        match document_of(*value) {
            Document::Text(text) => r.is_some() && r.unwrap()@ == text,
            _ => r.is_none(),
        },
{
    value.as_str()
}

/// `serde_json::Value::as_number` and the number's `to_string`: the text in
/// which a number value is displayed; nothing for a value of another kind.
#[verifier::external_body]
fn json_number_text(value: &serde_json::Value) -> (r: Option<String>)
    ensures
        match document_of(*value) {
            Document::Number(text) => r.is_some() && r.unwrap()@ == text,
            _ => r.is_none(),
        },
{
    value.as_number().map(|n| n.to_string())
}

/// `serde_json::Value::as_array`: the items of an array value, in their
/// order; nothing for a value of another kind.
#[verifier::external_body]
fn json_items(value: &serde_json::Value) -> (r: Option<&Vec<serde_json::Value>>)
    ensures
        match document_of(*value) {
            Document::Array(items) => r.is_some() && r.unwrap()@.len() == items.len() && (forall|
                i: int,
            |
                0 <= i < items.len() ==> document_of(#[trigger] r.unwrap()@[i]) == items[i]),
            _ => r.is_none(),
        },
{
    value.as_array()
}

/// `serde_json::Value::as_object` and `serde_json::Map::iter`: the entries of
/// an object value, in the order in which the map hands them out; nothing for
/// a value of another kind. The map holds each key once, so no two of the
/// entries have the same key.
#[verifier::external_body]
fn json_entries(value: &serde_json::Value) -> (r: Option<Vec<(&String, &serde_json::Value)>>)
    ensures
        match document_of(*value) {
            Document::Object(entries) => r.is_some() && r.unwrap()@.len() == entries.len()
                && (forall|i: int|
                0 <= i < entries.len() ==> (#[trigger] r.unwrap()@[i]).0@ == entries[i].0
                    && document_of(*r.unwrap()@[i].1) == entries[i].1) && distinct_keys(
                r.unwrap()@,
            ),
            _ => r.is_none(),
        },
{
    value.as_object().map(|m| m.iter().collect())
}

/// Builds `mustache::Data::Null`.
#[verifier::external_body]
fn data_null() -> (r: mustache::Data)
    ensures
        tree_of(r) == ValueTree::Null,
{
    mustache::Data::Null
}

/// Builds `mustache::Data::Bool`.
#[verifier::external_body]
fn data_bool(b: bool) -> (r: mustache::Data)
    ensures
        tree_of(r) == ValueTree::Bool(b),
{
    mustache::Data::Bool(b)
}

/// Builds `mustache::Data::String`.
#[verifier::external_body]
fn data_text(text: String) -> (r: mustache::Data)
    ensures
        tree_of(r) == ValueTree::Text(text@),
{
    mustache::Data::String(text)
}

/// Builds `mustache::Data::Vec` of the given items, in their order.
#[verifier::external_body]
fn data_array(items: Vec<mustache::Data>) -> (r: mustache::Data)
    ensures
        tree_of(r) == ValueTree::Array(trees_of(items@)),
{
    mustache::Data::Vec(items)
}

/// Builds `mustache::Data::Map` by collecting the entries into a `HashMap`.
/// No two of the entries may have the same key: the map then holds every one
/// of them.
#[verifier::external_body]
fn data_object(entries: Vec<(String, mustache::Data)>) -> (r: mustache::Data)
    requires
        forall|i: int, j: int|
            0 <= i < j < entries@.len() ==> (#[trigger] entries@[i]).0@ != (
            #[trigger] entries@[j]).0@,
    ensures
        tree_of(r) == ValueTree::Object(collected(entry_trees_of(entries@))),
{
    mustache::Data::Map(entries.into_iter().collect())
}

/// Rebuilds a parsed value as the value a template is rendered against.
pub fn serde_json_to_mustache(value: serde_json::Value) -> (data: mustache::Data)
    ensures
        tree_of(data) == normalized(document_of(value)),
{
    convert(&value)
}

fn convert(value: &serde_json::Value) -> (data: mustache::Data)
    ensures
        tree_of(data) == normalized(document_of(*value)),
    decreases document_of(*value),
{
    if let Some(b) = json_bool(value) {
        data_bool(b)
    } else if let Some(text) = json_text(value) {
        data_text(text.to_owned())
    } else if let Some(text) = json_number_text(value) {
        data_text(text)
    } else if let Some(items) = json_items(value) {
        let ghost docs = document_of(*value)->Array_0;
        let mut out: Vec<mustache::Data> = Vec::new();
        let mut i: usize = 0;
        while i < items.len()
            invariant
                i <= items.len(),
                items@.len() == docs.len(),
                document_of(*value) == Document::Array(docs),
                forall|k: int| 0 <= k < docs.len() ==> document_of(#[trigger] items@[k]) == docs[k],
                trees_of(out@) == normalized_items(docs, i as nat),
            decreases items.len() - i,
        {
            proof {
                let whole = document_of(*value);
                assert(document_of(items@[i as int]) == docs[i as int]);
                assert(decreases_to!(whole => whole->Array_0));
                assert(decreases_to!(docs => docs[i as int]));
            }
            let item = convert(&items[i]);
            proof {
                assert(trees_of(out@.push(item)) =~= trees_of(out@).push(tree_of(item)));
            }
            out.push(item);
            i += 1;
        }
        data_array(out)
    } else if let Some(entries) = json_entries(value) {
        let ghost docs = document_of(*value)->Object_0;
        let mut out: Vec<(String, mustache::Data)> = Vec::new();
        let mut i: usize = 0;
        while i < entries.len()
            invariant
                i <= entries.len(),
                entries@.len() == docs.len(),
                document_of(*value) == Document::Object(docs),
                forall|k: int|
                    0 <= k < docs.len() ==> (#[trigger] entries@[k]).0@ == docs[k].0
                        && document_of(*entries@[k].1) == docs[k].1,
                distinct_keys(entries@),
                out@.len() == i,
                forall|k: int| 0 <= k < i ==> (#[trigger] out@[k]).0@ == entries@[k].0@,
                entry_trees_of(out@) == normalized_entries(docs, i as nat),
            decreases entries.len() - i,
        {
            let key: String = entries[i].0.clone();
            proof {
                let whole = document_of(*value);
                assert(document_of(*entries@[i as int].1) == docs[i as int].1);
                assert(decreases_to!(whole => whole->Object_0));
                assert(decreases_to!(docs => docs[i as int]));
                assert(decreases_to!(docs[i as int] => docs[i as int].1));
            }
            let item = convert(entries[i].1);
            proof {
                assert(entry_trees_of(out@.push((key, item))) =~= entry_trees_of(out@).push(
                    (key@, tree_of(item)),
                ));
            }
            out.push((key, item));
            i += 1;
        }
        data_object(out)
    } else {
        data_null()
    }
}

/// `serde_json::from_str` for a `serde_json::Value`. Whether the text is
/// accepted, and what comes out, depend on the text alone: the contract
/// gives both their name.
#[verifier::external_body]
fn parse_json(text: &str) -> (r: Result<serde_json::Value, serde_json::Error>)
    ensures
        r.is_ok() == json_document(text@).is_some(),
        r.is_ok() ==> document_of(r.unwrap()) == json_document(text@).unwrap(),
{
    serde_json::from_str(text)
}

/// `serde_yaml::from_str` for a `serde_json::Value`. Whether the text is
/// accepted, and what comes out, depend on the text alone: the contract
/// gives both their name.
#[verifier::external_body]
fn parse_yaml(text: &str) -> (r: Result<serde_json::Value, serde_yaml::Error>)
    ensures
        r.is_ok() == yaml_document(text@).is_some(),
        r.is_ok() ==> document_of(r.unwrap()) == yaml_document(text@).unwrap(),
{
    serde_yaml::from_str(text)
}

/// `toml::from_str` for a `serde_json::Value`. Whether the text is accepted,
/// and what comes out, depend on the text alone: the contract gives both
/// their name.
#[verifier::external_body]
fn parse_toml(text: &str) -> (r: Result<serde_json::Value, toml::de::Error>)
    ensures
        r.is_ok() == toml_document(text@).is_some(),
        r.is_ok() ==> document_of(r.unwrap()) == toml_document(text@).unwrap(),
{
    toml::from_str(text)
}

/// The message of a `serde_json::Error`, by its `to_string`. Nothing is
/// claimed of the text.
#[verifier::external_body]
fn json_error_message(error: &serde_json::Error) -> (r: String) {
    error.to_string()
}

/// The message of a `serde_yaml::Error`, by its `to_string`. Nothing is
/// claimed of the text.
#[verifier::external_body]
fn yaml_error_message(error: &serde_yaml::Error) -> (r: String) {
    error.to_string()
}

/// The message of a `toml::de::Error`, by its `to_string`, which shows the
/// line that the error's span lies in. The span is the parser's own and lies
/// in the text that the error keeps, so the line is found. Nothing is claimed
/// of the text.
#[verifier::external_body]
fn toml_error_message(error: &toml::de::Error) -> (r: String) {
    error.to_string()
}

/// A values document that is not valid in the format it was read in.
#[derive(Clone, Debug)]
pub struct ParseError {
    /// The format in which the document was read.
    pub format: ValuesFormat,
    /// What the parser said of the text.
    pub message: String,
}

/// The tree that `text` gives when read in `format`, where it is valid.
pub open spec fn values_of(format: ValuesFormat, text: Seq<char>) -> Option<ValueTree> {
    match parsed(format, text) {
        Some(doc) => Some(normalized(doc)),
        None => None,
    }
}

/// Reads `text` in `format` and rebuilds it as the value that the templates
/// are rendered against. It fails exactly where the text is not valid in that
/// format, and the error names the format.
pub fn parse_values(text: &str, format: ValuesFormat) -> (r: Result<mustache::Data, ParseError>)
    ensures
        r.is_ok() == values_of(format, text@).is_some(),
        r.is_ok() ==> Some(tree_of(r.unwrap())) == values_of(format, text@),
        r.is_err() ==> r.unwrap_err().format == format,
{
    match format {
        ValuesFormat::Json => match parse_json(text) {
            Ok(value) => Ok(serde_json_to_mustache(value)),
            Err(e) => Err(ParseError { format, message: json_error_message(&e) }),
        },
        ValuesFormat::Yaml => match parse_yaml(text) {
            Ok(value) => Ok(serde_json_to_mustache(value)),
            Err(e) => Err(ParseError { format, message: yaml_error_message(&e) }),
        },
        ValuesFormat::Toml => match parse_toml(text) {
            Ok(value) => Ok(serde_json_to_mustache(value)),
            Err(e) => Err(ParseError { format, message: toml_error_message(&e) }),
        },
    }
}

/// Two documents that hold the same data give the same tree, whatever the
/// formats they were written in.
pub proof fn same_data_same_tree(
    first: ValuesFormat,
    first_text: Seq<char>,
    second: ValuesFormat,
    second_text: Seq<char>,
)
    requires
        parsed(first, first_text).is_some(),
        parsed(first, first_text) == parsed(second, second_text),
    ensures
        values_of(first, first_text).is_some(),
        values_of(first, first_text) == values_of(second, second_text),
{
}

/// A number of a document becomes the string of its text, and a string stays
/// what it is: the tree holds no number.
pub proof fn number_becomes_text(text: Seq<char>)
    ensures
        normalized(Document::Number(text)) == ValueTree::Text(text),
        normalized(Document::Text(text)) == ValueTree::Text(text),
{
}

/// An array keeps its length and its order: the item at each index of the
/// tree is the tree of the document's item at that index.
pub proof fn array_keeps_order(items: Seq<Document>, n: nat)
    requires
        n <= items.len(),
    ensures
        normalized_items(items, n).len() == n,
        forall|i: int| 0 <= i < n ==> #[trigger] normalized_items(items, n)[i] == normalized(items[i]),
    decreases n,
{
    if n > 0 {
        array_keeps_order(items, (n - 1) as nat);
    }
}

/// The entries of an object keep their keys and their order, each value
/// replaced by its tree.
pub proof fn object_keeps_keys(entries: Seq<(Seq<char>, Document)>, n: nat)
    requires
        n <= entries.len(),
    ensures
        normalized_entries(entries, n).len() == n,
        forall|i: int|
            0 <= i < n ==> #[trigger] normalized_entries(entries, n)[i] == (
                entries[i].0,
                normalized(entries[i].1),
            ),
    decreases n,
{
    if n > 0 {
        object_keeps_keys(entries, (n - 1) as nat);
    }
}

/// The value of the last of `entries` that has `key`, where one has it.
pub open spec fn last_value(entries: Seq<(Seq<char>, ValueTree)>, key: Seq<char>) -> Option<
    ValueTree,
>
    decreases entries.len(),
{
    if entries.len() == 0 {
        None
    } else if entries.last().0 == key {
        Some(entries.last().1)
    } else {
        last_value(entries.drop_last(), key)
    }
}

/// The collected map holds a key exactly where an entry has it, and under it
/// the value of the last entry with that key.
pub proof fn collected_holds_last(entries: Seq<(Seq<char>, ValueTree)>, key: Seq<char>)
    ensures
        collected(entries).dom().contains(key) == last_value(entries, key).is_some(),
        last_value(entries, key).is_some() ==> collected(entries)[key] == last_value(
            entries,
            key,
        ).unwrap(),
    decreases entries.len(),
{
    if entries.len() > 0 {
        collected_holds_last(entries.drop_last(), key);
    }
}

} // verus!
