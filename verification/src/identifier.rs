//! Identifiers: node names, property keys and type annotations.
use vstd::prelude::*;
use vstd::std_specs::cmp::PartialEqSpecImpl;
use crate::text::same_text;

verus! {

/// How an identifier was written in the source text.
#[derive(Clone, Copy, Debug, PartialEq, Eq, Structural)]
pub enum RawForm {
    /// Written as it is, without quotes.
    Bare,
    /// Written as a quoted or raw string.
    Quoted,
}

/// A name with its escapes resolved.
#[derive(Clone, Debug)]
pub struct Identifier {
    pub raw_form: RawForm,
    pub value: String,
}

/// The mathematical value of an [`Identifier`].
pub struct IdentifierView {
    pub raw_form: RawForm,
    pub value: Seq<char>,
}

/// The form that an identifier's source text shows: bare where the source
/// text is the name itself, quoted where it is anything else or is missing.
pub open spec fn raw_form_of(value: Seq<char>, repr: Option<Seq<char>>) -> RawForm {
    if repr == Some(value) {
        RawForm::Bare
    } else {
        RawForm::Quoted
    }
}

/// The view of a borrowed text that may be absent.
pub open spec fn borrowed_text_view(text: Option<&str>) -> Option<Seq<char>> {
    match text {
        Some(text) => Some(text@),
        None => None,
    }
}

impl View for Identifier {
    type V = IdentifierView;

    open spec fn view(&self) -> IdentifierView {
        IdentifierView { raw_form: self.raw_form, value: self.value@ }
    }
}

impl PartialEq for Identifier {
    /// Identifiers are equal when their resolved names are, however they were written.
    fn eq(&self, other: &Identifier) -> (same: bool) {
        self.value == other.value
    }
}

impl PartialEqSpecImpl for Identifier {
    open spec fn obeys_eq_spec() -> bool {
        true
    }

    open spec fn eq_spec(&self, other: &Identifier) -> bool {
        self.value@ == other.value@
    }
}

impl Identifier {
    /// The identifier with the resolved name `value` that was written as
    /// `repr`.
    pub fn from_source(value: &str, repr: Option<&str>) -> (identifier: Identifier)
        ensures
            identifier@ == (IdentifierView {
                raw_form: raw_form_of(value@, borrowed_text_view(repr)),
                value: value@,
            }),
    {
        let raw_form = match repr {
            Some(repr) => if same_text(repr, value) {
                RawForm::Bare
            } else {
                RawForm::Quoted
            },
            None => RawForm::Quoted,
        };
        Identifier { raw_form, value: value.to_owned() }
    }
}

/// The resolved name of `identifier`.
pub fn KDL_Identifier_value(identifier: &Identifier) -> (value: &str)
    ensures
        value@ == identifier@.value,
{
    identifier.value.as_str()
}

} // verus!
