//! Entries: the arguments and properties of a node.
use vstd::prelude::*;
use crate::identifier::{Identifier, IdentifierView};
use crate::value::{Value, ValueView};

verus! {

/// One argument or property of a node.
///
/// An entry without a name is a positional argument; one with a name is a
/// property.
#[derive(Clone, Debug)]
pub struct Entry {
    pub name: Option<Identifier>,
    pub ty: Option<Identifier>,
    pub value: Value,
}

/// The mathematical value of an [`Entry`].
pub struct EntryView {
    pub name: Option<IdentifierView>,
    pub ty: Option<IdentifierView>,
    pub value: ValueView,
}

impl EntryView {
    /// Whether the entry is a positional argument.
    pub open spec fn is_argument(self) -> bool {
        self.name is None
    }

    /// Whether the entry is a property with the key `key`.
    pub open spec fn has_key(self, key: Seq<char>) -> bool {
        self.name matches Some(name) && name.value == key
    }
}

/// The view of an identifier that may be absent.
pub open spec fn optional_identifier_view(identifier: Option<Identifier>) -> Option<
    IdentifierView,
> {
    match identifier {
        Some(identifier) => Some(identifier@),
        None => None,
    }
}

/// The view of a borrowed identifier that may be absent.
pub open spec fn borrowed_identifier_view(identifier: Option<&Identifier>) -> Option<
    IdentifierView,
> {
    match identifier {
        Some(identifier) => Some(identifier@),
        None => None,
    }
}

impl View for Entry {
    type V = EntryView;

    open spec fn view(&self) -> EntryView {
        EntryView {
            name: optional_identifier_view(self.name),
            ty: optional_identifier_view(self.ty),
            value: self.value@,
        }
    }
}

/// The key of `entry`, if it is a property.
pub fn KDL_Entry_name(entry: &Entry) -> (name: Option<&Identifier>)
    ensures
        borrowed_identifier_view(name) == entry@.name,
{
    entry.name.as_ref()
}

/// The value of `entry`.
pub fn KDL_Entry_value(entry: &Entry) -> (value: &Value)
    ensures
        value@ == entry@.value,
{
    &entry.value
}

/// The type annotation of `entry`, if it has one.
pub fn KDL_Entry_ty(entry: &Entry) -> (ty: Option<&Identifier>)
    ensures
        borrowed_identifier_view(ty) == entry@.ty,
{
    entry.ty.as_ref()
}

} // verus!
