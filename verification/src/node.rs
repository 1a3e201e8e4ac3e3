//! Nodes: a name, entries in source order, and an optional block of children.
use vstd::prelude::*;
use crate::document::{document_view, Document, DocumentView};
use crate::entry::{borrowed_identifier_view, optional_identifier_view, Entry, EntryView};
use crate::identifier::{Identifier, IdentifierView};
use crate::lookup::{lemma_filter_position, lemma_filter_take_all, lemma_filter_take_next};
use crate::text::same_text;

verus! {

/// One declaration of a document.
#[derive(Debug)]
pub struct Node {
    pub name: Identifier,
    pub ty: Option<Identifier>,
    pub entries: Vec<Entry>,
    pub children: Option<Document>,
}

/// The mathematical value of a [`Node`].
pub struct NodeView {
    pub name: IdentifierView,
    pub ty: Option<IdentifierView>,
    pub entries: Seq<EntryView>,
    pub children: Option<DocumentView>,
}

/// The test that picks the positional arguments among entries.
pub open spec fn is_argument() -> spec_fn(EntryView) -> bool {
    |e: EntryView| e.is_argument()
}

/// The test that picks the properties with the key `key` among entries.
pub open spec fn has_key(key: Seq<char>) -> spec_fn(EntryView) -> bool {
    |e: EntryView| e.has_key(key)
}

impl NodeView {
    /// The positional arguments, in order.
    pub open spec fn arguments(self) -> Seq<EntryView> {
        self.entries.filter(is_argument())
    }

    /// The properties with the key `key`, in order.
    pub open spec fn properties(self, key: Seq<char>) -> Seq<EntryView> {
        self.entries.filter(has_key(key))
    }

    /// The first property with the key `key`.
    pub open spec fn get_prop(self, key: Seq<char>) -> Option<EntryView> {
        if self.properties(key).len() > 0 {
            Some(self.properties(key)[0])
        } else {
            None
        }
    }

    /// The positional argument at `index`, counting arguments only.
    pub open spec fn get_arg(self, index: nat) -> Option<EntryView> {
        if index < self.arguments().len() {
            Some(self.arguments()[index as int])
        } else {
            None
        }
    }

    /// Whether the node's blocks are nested at most `depth` deep: a node
    /// without children is within any depth, one with children is within
    /// `depth` when `depth` is positive and the children are within
    /// `depth - 1`.
    pub open spec fn within_depth(self, depth: nat) -> bool
        decreases depth, 0nat,
    {
        match self.children {
            Some(children) => depth > 0 && children.within_depth((depth - 1) as nat),
            None => true,
        }
    }
}

impl View for Node {
    type V = NodeView;

    open spec fn view(&self) -> NodeView {
        node_view(*self)
    }
}

/// The view of a node: its fields' views, the entries in order, and the view
/// of the child document.
pub open spec fn node_view(node: Node) -> NodeView
    decreases node,
{
    NodeView {
        name: node.name@,
        ty: optional_identifier_view(node.ty),
        entries: node.entries@.map_values(|e: Entry| e@),
        children: match node.children {
            Some(children) => Some(document_view(children)),
            None => None,
        },
    }
}

/// The view of a borrowed entry that may be absent.
pub open spec fn borrowed_entry_view(entry: Option<&Entry>) -> Option<EntryView> {
    match entry {
        Some(entry) => Some(entry@),
        None => None,
    }
}

/// The view of a borrowed document that may be absent.
pub open spec fn borrowed_document_view(document: Option<&Document>) -> Option<DocumentView> {
    match document {
        Some(document) => Some(document@),
        None => None,
    }
}

/// The name of `node`.
pub fn KDL_Node_name(node: &Node) -> (name: &Identifier)
    ensures
        name@ == node@.name,
{
    &node.name
}

/// The type annotation of `node`, if it has one.
pub fn KDL_Node_ty(node: &Node) -> (ty: Option<&Identifier>)
    ensures
        borrowed_identifier_view(ty) == node@.ty,
{
    node.ty.as_ref()
}

/// The arguments and properties of `node`, in source order.
pub fn KDL_Node_entries(node: &Node) -> (entries: &[Entry])
    ensures
        entries@.map_values(|e: Entry| e@) == node@.entries,
{
    node.entries.as_slice()
}

/// The first property of `node` with the key `key`.
pub fn KDL_Node_get_prop<'a>(node: &'a Node, key: &str) -> (found: Option<&'a Entry>)
    ensures
        borrowed_entry_view(found) == node@.get_prop(key@),
{
    let ghost entries = node@.entries;
    let ghost keep = has_key(key@);
    let mut i: usize = 0;
    while i < node.entries.len()
        invariant
            i <= node.entries.len(),
            entries == node@.entries,
            keep == has_key(key@),
            entries.take(i as int).filter(keep).len() == 0,
        decreases node.entries.len() - i,
    {
        let entry = &node.entries[i];
        assert(entries[i as int] == entry@);
        let hit = match &entry.name {
            Some(name) => same_text(name.value.as_str(), key),
            None => false,
        };
        if hit {
            proof {
                lemma_filter_position(entries, keep, i as int);
            }
            return Some(entry);
        }
        proof {
            lemma_filter_take_next(entries, keep, i as int);
        }
        i += 1;
    }
    proof {
        lemma_filter_take_all(entries, keep);
    }
    None
}

/// The positional argument of `node` at `ix`, counting arguments only.
pub fn KDL_Node_get_arg(node: &Node, ix: usize) -> (found: Option<&Entry>)
    ensures
        borrowed_entry_view(found) == node@.get_arg(ix as nat),
{
    let ghost entries = node@.entries;
    let ghost keep = is_argument();
    let mut i: usize = 0;
    let mut seen: usize = 0;
    while i < node.entries.len()
        invariant
            i <= node.entries.len(),
            entries == node@.entries,
            keep == is_argument(),
            seen == entries.take(i as int).filter(keep).len(),
            seen <= ix,
        decreases node.entries.len() - i,
    {
        let entry = &node.entries[i];
        assert(entries[i as int] == entry@);
        proof {
            lemma_filter_take_next(entries, keep, i as int);
        }
        if entry.name.is_none() {
            if seen == ix {
                proof {
                    lemma_filter_position(entries, keep, i as int);
                }
                return Some(entry);
            }
            seen += 1;
        }
        i += 1;
    }
    proof {
        lemma_filter_take_all(entries, keep);
    }
    None
}

/// The child document of `node`, if it has one.
pub fn KDL_Node_children(node: &Node) -> (children: Option<&Document>)
    ensures
        borrowed_document_view(children) == node@.children,
{
    node.children.as_ref()
}

} // verus!
