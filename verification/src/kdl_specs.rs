//! What this library takes on trust about the `kdl` crate: its types, the
//! result of its parser, and what its accessors hand out; and about
//! `String::from_utf8` of std.
//!
//! Nothing in this file is proved. Every other file of the library is.
use vstd::prelude::*;
use vstd::utf8::{encode_utf8, valid_utf8};
use crate::document::DocumentView;
use crate::entry::EntryView;
use crate::guard::ready;
use crate::identifier::{raw_form_of, IdentifierView};
use crate::node::NodeView;
use crate::value::{Base, StringKind, Value, ValueView};

verus! {

/// `kdl::KdlDocument`, a document of the `kdl` crate. Nothing of what it holds is
/// known but through the functions below.
#[verifier::external_type_specification]
#[verifier::external_body]
pub struct ExKdlDocument(kdl::KdlDocument);

/// `kdl::KdlNode`, a node of the `kdl` crate. Nothing of what it holds is
/// known but through the functions below.
#[verifier::external_type_specification]
#[verifier::external_body]
pub struct ExKdlNode(kdl::KdlNode);

/// `kdl::KdlEntry`, an entry of the `kdl` crate. Nothing of what it holds is
/// known but through the functions below.
#[verifier::external_type_specification]
#[verifier::external_body]
pub struct ExKdlEntry(kdl::KdlEntry);

/// `kdl::KdlValue`, a value of the `kdl` crate. Nothing of what it holds is
/// known but through the functions below.
#[verifier::external_type_specification]
#[verifier::external_body]
pub struct ExKdlValue(kdl::KdlValue);

/// `kdl::KdlIdentifier`, an identifier of the `kdl` crate. Nothing of what it holds is
/// known but through the functions below.
#[verifier::external_type_specification]
#[verifier::external_body]
pub struct ExKdlIdentifier(kdl::KdlIdentifier);

/// `kdl::KdlError`, what the parser hands back when it gives up of the `kdl` crate. Nothing of what it holds is
/// known but through the functions below.
#[verifier::external_type_specification]
#[verifier::external_body]
pub struct ExKdlError(kdl::KdlError);

/// What the parser reports when it gives up: a byte span into the text, a
/// short label and a longer help text.
pub struct Failure {
    pub offset: usize,
    pub length: usize,
    pub label: Option<Seq<char>>,
    pub help: Option<Seq<char>>,
}

/// What `kdl`'s parser makes of a text: the document, or its report of the
/// first problem.
pub uninterp spec fn parse_outcome(text: Seq<char>) -> Result<DocumentView, Failure>;

/// The nodes that a `kdl` document holds, in order.
pub uninterp spec fn document_model(document: kdl::KdlDocument) -> DocumentView;

/// The name, type, entries and children that a `kdl` node holds.
pub uninterp spec fn node_model(node: kdl::KdlNode) -> NodeView;

/// The name, type and value that a `kdl` entry holds.
pub uninterp spec fn entry_model(entry: kdl::KdlEntry) -> EntryView;

/// The variant and payload of a `kdl` value.
pub uninterp spec fn value_model(value: kdl::KdlValue) -> ValueView;

/// The resolved name that a `kdl` identifier holds.
pub uninterp spec fn identifier_value(identifier: kdl::KdlIdentifier) -> Seq<char>;

/// The source text that a `kdl` identifier holds, if it holds one.
pub uninterp spec fn identifier_repr(identifier: kdl::KdlIdentifier) -> Option<Seq<char>>;

/// The span, label and help that a `kdl` error holds.
pub uninterp spec fn failure_model(error: kdl::KdlError) -> Failure;

/// A `kdl` identifier as this library sees it: its resolved name, and the
/// form that its source text shows.
pub open spec fn identifier_model(identifier: kdl::KdlIdentifier) -> IdentifierView {
    IdentifierView {
        raw_form: raw_form_of(identifier_value(identifier), identifier_repr(identifier)),
        value: identifier_value(identifier),
    }
}

/// What the parser handed back, as this library sees it.
pub open spec fn outcome_model(outcome: Result<kdl::KdlDocument, kdl::KdlError>) -> Result<
    DocumentView,
    Failure,
> {
    match outcome {
        Ok(document) => Ok(document_model(document)),
        Err(error) => Err(failure_model(error)),
    }
}

/// [`identifier_model`] of an identifier that may be absent.
pub open spec fn optional_identifier_model(identifier: Option<&kdl::KdlIdentifier>) -> Option<
    IdentifierView,
> {
    match identifier {
        Some(identifier) => Some(identifier_model(*identifier)),
        None => None,
    }
}

/// `String::from_utf8` of std: the text that the bytes encode, if they are
/// valid UTF-8, and nothing if they are not.
#[verifier::external_body]
pub(crate) fn text_of(bytes: Vec<u8>) -> (text: Option<String>)
    ensures
        text is Some <==> valid_utf8(bytes@),
        text matches Some(text) ==> encode_utf8(text@) == bytes@,
{
    match String::from_utf8(bytes) {
        Ok(text) => Some(text),
        Err(_) => None,
    }
}

/// `str::parse::<kdl::KdlDocument>`, which is `KdlDocument`'s `from_str`.
///
/// The result depends on the text alone: the same text gives the same
/// document, or the same report. With [`parse_outcome`] standing for that
/// result, the contract says no more than that the value handed back is it.
///
/// The parser panics where `true`, `null` or `false` stands as a bare type
/// annotation and the text behind the word is shorter than the word, or
/// cannot be cut at the word's length: it takes its report's span from
/// there. It recurses once for each block of children that is open, once
/// for each slashdash whose node, entry or block is not yet complete, and
/// once for each piece of a block comment that is open; a piece is a star, a
/// slash, a run of other characters or a comment inside. What a slashdash
/// leaves out it reads twice over where that is a node and three times
/// where it is an entry or a block, so that slashdashes inside the blocks
/// that slashdashes leave out multiply its work.
///
/// The text must be the layout of a text that the scan lets through. Such a
/// text has, outside strings and comments, no such word behind an opening
/// parenthesis, no block nested deeper than
/// [`MAX_DEPTH`](crate::guard::MAX_DEPTH), never more than
/// [`MAX_SLASHDASHES`](crate::guard::MAX_SLASHDASHES) slashdashes waiting,
/// and no blocks that slashdashes leave out nested deeper in one another
/// than [`MAX_LEFT_OUT_DEPTH`](crate::guard::MAX_LEFT_OUT_DEPTH). Its layout
/// has no star or slash inside a block comment, so that every block comment
/// is of one piece; but for that, and for a semicolon before a closing brace
/// here and there, it is the text.
#[verifier::external_body]
pub(crate) fn parse_text(text: &str) -> (outcome: Result<kdl::KdlDocument, kdl::KdlError>)
    requires
        ready(encode_utf8(text@)),
    ensures
        outcome_model(outcome) == parse_outcome(text@),
{
    text.parse::<kdl::KdlDocument>()
}

/// `KdlDocument::nodes` hands out the document's nodes, in order.
pub assume_specification[ kdl::KdlDocument::nodes ](document: &kdl::KdlDocument) -> (nodes: &[kdl::KdlNode])
    ensures
        nodes@.map_values(|n: kdl::KdlNode| node_model(n)) == document_model(*document).nodes,
;

/// `KdlNode::name` hands out the node's name.
pub assume_specification[ kdl::KdlNode::name ](node: &kdl::KdlNode) -> (name: &kdl::KdlIdentifier)
    ensures
        identifier_model(*name) == node_model(*node).name,
;

/// `KdlNode::ty` hands out the node's type annotation, if it has one.
pub assume_specification[ kdl::KdlNode::ty ](node: &kdl::KdlNode) -> (ty: Option<&kdl::KdlIdentifier>)
    ensures
        optional_identifier_model(ty) == node_model(*node).ty,
;

/// `KdlNode::entries` hands out the node's arguments and properties, in
/// order.
pub assume_specification[ kdl::KdlNode::entries ](node: &kdl::KdlNode) -> (entries: &[kdl::KdlEntry])
    ensures
        entries@.map_values(|e: kdl::KdlEntry| entry_model(e)) == node_model(*node).entries,
;

/// `KdlNode::children` hands out the node's child document, if it has one.
pub assume_specification[ kdl::KdlNode::children ](node: &kdl::KdlNode) -> (children: Option<&kdl::KdlDocument>)
    ensures
        match children {
            Some(document) => node_model(*node).children == Some(document_model(*document)),
            None => node_model(*node).children is None,
        },
;

/// `KdlEntry::name` hands out the entry's key, if it is a property.
pub assume_specification[ kdl::KdlEntry::name ](entry: &kdl::KdlEntry) -> (name: Option<&kdl::KdlIdentifier>)
    ensures
        optional_identifier_model(name) == entry_model(*entry).name,
;

/// `KdlEntry::ty` hands out the entry's type annotation, if it has one.
pub assume_specification[ kdl::KdlEntry::ty ](entry: &kdl::KdlEntry) -> (ty: Option<&kdl::KdlIdentifier>)
    ensures
        optional_identifier_model(ty) == entry_model(*entry).ty,
;

/// `KdlEntry::value` hands out the entry's value.
pub assume_specification[ kdl::KdlEntry::value ](entry: &kdl::KdlEntry) -> (value: &kdl::KdlValue)
    ensures
        value_model(*value) == entry_model(*entry).value,
;

/// `KdlIdentifier::value` hands out the resolved name.
pub assume_specification[ kdl::KdlIdentifier::value ](identifier: &kdl::KdlIdentifier) -> (value: &str)
    ensures
        value@ == identifier_value(*identifier),
;

/// `KdlIdentifier::repr` hands out the identifier's source text, if it holds
/// one.
pub assume_specification[ kdl::KdlIdentifier::repr ](identifier: &kdl::KdlIdentifier) -> (repr: Option<&str>)
    ensures
        match repr {
            Some(text) => identifier_repr(*identifier) == Some(text@),
            None => identifier_repr(*identifier) is None,
        },
;

/// Tells the variants of `kdl::KdlValue` apart and moves the payload over,
/// a float as its bit pattern (`f64::to_bits`).
#[verifier::external_body]
pub(crate) fn value_of(value: &kdl::KdlValue) -> (own: Value)
    ensures
        own@ == value_model(*value),
{
    match value {
        kdl::KdlValue::RawString(s) => Value::String(s.clone(), StringKind::Raw),
        kdl::KdlValue::String(s) => Value::String(s.clone(), StringKind::Quoted),
        kdl::KdlValue::Base2(i) => Value::Int(*i, Base::Two),
        kdl::KdlValue::Base8(i) => Value::Int(*i, Base::Eight),
        kdl::KdlValue::Base10(i) => Value::Int(*i, Base::Ten),
        kdl::KdlValue::Base16(i) => Value::Int(*i, Base::Sixteen),
        kdl::KdlValue::Base10Float(f) => Value::Float(f.to_bits()),
        kdl::KdlValue::Bool(b) => Value::Bool(*b),
        kdl::KdlValue::Null => Value::Null,
    }
}

/// `SourceSpan::offset` on the error's `span`: where the span starts, in
/// bytes from the start of the text.
#[verifier::external_body]
pub(crate) fn failure_offset(error: &kdl::KdlError) -> (offset: usize)
    ensures
        offset == failure_model(*error).offset,
{
    error.span.offset()
}

/// `SourceSpan::len` on the error's `span`: the span's length in bytes.
#[verifier::external_body]
pub(crate) fn failure_length(error: &kdl::KdlError) -> (length: usize)
    ensures
        length == failure_model(*error).length,
{
    error.span.len()
}

/// The error's `label` field.
#[verifier::external_body]
pub(crate) fn failure_label(error: &kdl::KdlError) -> (label: Option<&'static str>)
    ensures
        match label {
            Some(text) => failure_model(*error).label == Some(text@),
            None => failure_model(*error).label is None,
        },
{
    error.label
}

/// The error's `help` field.
#[verifier::external_body]
pub(crate) fn failure_help(error: &kdl::KdlError) -> (help: Option<&'static str>)
    ensures
        match help {
            Some(text) => failure_model(*error).help == Some(text@),
            None => failure_model(*error).help is None,
        },
{
    error.help
}

} // verus!
