//! From `kdl`'s tree to this library's own, node by node.
use vstd::prelude::*;
use vstd::utf8::encode_utf8;
use crate::document::{nesting_error, report, result_view, settle, Document};
use crate::entry::Entry;
use crate::guard::{shifted_back, MAX_DEPTH};
use crate::error::{optional_text_view, Error};
use crate::identifier::Identifier;
use crate::kdl_specs::{
    document_model, entry_model, failure_help, failure_label, failure_length, failure_model,
    failure_offset, identifier_model, node_model, optional_identifier_model, outcome_model,
    value_of,
};
use crate::node::Node;

verus! {

/// The identifier that `identifier` stands for: its resolved name, and
/// whether its source text is that name itself.
pub fn lift_identifier(identifier: &kdl::KdlIdentifier) -> (own: Identifier)
    ensures
        own@ == identifier_model(*identifier),
{
    Identifier::from_source(identifier.value(), identifier.repr())
}

/// [`lift_identifier`] of an identifier that may be absent.
pub fn lift_optional_identifier(identifier: Option<&kdl::KdlIdentifier>) -> (own: Option<
    Identifier,
>)
    ensures
        crate::entry::optional_identifier_view(own) == optional_identifier_model(identifier),
{
    match identifier {
        Some(identifier) => Some(lift_identifier(identifier)),
        None => None,
    }
}

/// The entry that `entry` stands for.
pub fn lift_entry(entry: &kdl::KdlEntry) -> (own: Entry)
    ensures
        own@ == entry_model(*entry),
{
    Entry {
        name: lift_optional_identifier(entry.name()),
        ty: lift_optional_identifier(entry.ty()),
        value: value_of(entry.value()),
    }
}

/// The node that `node` stands for, if its blocks are nested at most `depth`
/// deep.
pub fn lift_node(node: &kdl::KdlNode, depth: usize) -> (own: Option<Node>)
    ensures
        own.is_some() == node_model(*node).within_depth(depth as nat),
        own matches Some(own) ==> own@ == node_model(*node),
    decreases depth, 0nat,
{
    let children = match node.children() {
        Some(document) => {
            if depth == 0 {
                return None;
            }
            match lift_document(document, depth - 1) {
                Some(children) => Some(children),
                None => {
                    return None;
                },
            }
        },
        None => None,
    };
    let name = lift_identifier(node.name());
    let ty = lift_optional_identifier(node.ty());
    let source = node.entries();
    let mut entries: Vec<Entry> = Vec::new();
    let mut i: usize = 0;
    while i < source.len()
        invariant
            i <= source.len(),
            entries@.len() == i,
            forall|j: int| 0 <= j < i ==> (#[trigger] entries@[j])@ == entry_model(source@[j]),
        decreases source.len() - i,
    {
        entries.push(lift_entry(&source[i]));
        i += 1;
    }
    let own = Node { name, ty, entries, children };
    proof {
        assert(own@.entries =~= node_model(*node).entries);
    }
    Some(own)
}

/// The document that `document` stands for, if no node of it is nested more
/// than `depth` blocks deep.
pub fn lift_document(document: &kdl::KdlDocument, depth: usize) -> (own: Option<Document>)
    ensures
        own.is_some() == document_model(*document).within_depth(depth as nat),
        own matches Some(own) ==> own@ == document_model(*document),
    decreases depth, 1nat,
{
    let source = document.nodes();
    let mut nodes: Vec<Node> = Vec::new();
    let mut i: usize = 0;
    while i < source.len()
        invariant
            i <= source.len(),
            nodes@.len() == i,
            source@.map_values(|n: kdl::KdlNode| node_model(n)) == document_model(*document).nodes,
            forall|j: int| 0 <= j < i ==> (#[trigger] nodes@[j])@ == node_model(source@[j]),
            forall|j: int|
                0 <= j < i ==> (#[trigger] node_model(source@[j])).within_depth(depth as nat),
        decreases source.len() - i,
    {
        match lift_node(&source[i], depth) {
            Some(node) => {
                nodes.push(node);
            },
            None => {
                proof {
                    let model = document_model(*document);
                    assert(model.nodes[i as int] == node_model(source@[i as int]));
                }
                return None;
            },
        }
        i += 1;
    }
    let own = Document { nodes };
    proof {
        let model = document_model(*document);
        assert(own@.nodes =~= model.nodes);
        assert forall|j: int| 0 <= j < model.nodes.len() implies (#[trigger] model.nodes[j]).within_depth(
            depth as nat,
        ) by {
            assert(model.nodes[j] == node_model(source@[j]));
        }
    }
    Some(own)
}

/// An owned copy of a text that may be absent.
fn owned_text(text: Option<&str>) -> (owned: Option<String>)
    ensures
        optional_text_view(owned) == crate::identifier::borrowed_text_view(text),
{
    match text {
        Some(text) => Some(text.to_owned()),
        None => None,
    }
}

/// The diagnostic that `error` stands for, about the text `text` whose
/// layout the parser was handed: its span, brought back from the layout to
/// the text and made to fit, with its label and help.
pub fn lift_error(text: &str, shifts: &Vec<usize>, error: &kdl::KdlError) -> (own: Error)
    ensures
        own@ == report(text@, shifts@, failure_model(*error)),
        own@.well_formed(),
        encode_utf8(text@).len() > 0 ==> own@.length >= 1,
{
    let offset = failure_offset(error);
    let length = failure_length(error);
    let end = if length <= usize::MAX - offset {
        offset + length
    } else {
        usize::MAX
    };
    let start = shifted_back(shifts, offset);
    let stop = shifted_back(shifts, end);
    let span = if stop >= start {
        stop - start
    } else {
        0
    };
    Error::new(
        text.to_owned(),
        start,
        span,
        owned_text(failure_label(error)),
        owned_text(failure_help(error)),
    )
}

/// What parsing `text` gives, from what the parser handed back for its
/// layout: the parser's document in this library's own types if it is
/// within [`MAX_DEPTH`], the diagnostic for nesting too deep if it is not,
/// and the parser's error as a diagnostic about `text` if the parser gave
/// up.
pub fn lift_outcome(
    text: &str,
    shifts: &Vec<usize>,
    outcome: Result<kdl::KdlDocument, kdl::KdlError>,
) -> (result: Result<Document, Error>)
    ensures
        result_view(result) == settle(text@, shifts@, outcome_model(outcome)),
        result matches Err(error) ==> error@.well_formed() && (encode_utf8(text@).len() > 0
            ==> error@.length >= 1),
{
    match outcome {
        Ok(document) => match lift_document(&document, MAX_DEPTH) {
            Some(own) => Ok(own),
            None => Err(nesting_error(text)),
        },
        Err(error) => Err(lift_error(text, shifts, &error)),
    }
}

} // verus!
