//! What holds of the library as a whole: that reading is repeatable, that
//! diagnostics point into their text, that the scan refuses what is there,
//! that the layout puts in semicolons alone, that equality is equality of
//! data, and that lookups find the first match.
use vstd::prelude::*;
use vstd::std_specs::cmp::PartialEqSpec;
use vstd::utf8::encode_utf8;
use crate::document::{
    borrowed_node_view, borrowed_value_view, cut_for, earlier, is_named, parse_result,
    refusal_diagnostic, Document, DocumentView,
};
use crate::entry::{borrowed_identifier_view, Entry};
use crate::error::{diagnostic, Error, ErrorView};
use crate::guard::{
    back, closes_open_node, inside_comment, is_at, laid, laid_for, laid_from, lemma_step_moves_on,
    Layout, reserved_word_at, scan, scan_from, step, within_bounds, Cursor,
    Refusal, Step, MINUS, OPEN_BRACE, OPEN_PAREN, SLASH,
};
use crate::identifier::Identifier;
use crate::lookup::{lemma_filter_first, lemma_filter_none, lemma_filter_position};
use crate::node::{
    borrowed_document_view, borrowed_entry_view, has_key, is_argument, Node, NodeView,
};
use crate::value::{Base, KdlValueWhich, StringKind, Value, ValueView};

verus! {

/// Reading a document twice gives the same answers: whatever two calls of
/// an accessor hand back for one document and one name, they hold the same
/// values.
pub proof fn lemma_document_reads_agree(
    doc: Document,
    name: Seq<char>,
    node_once: Option<&Node>,
    node_again: Option<&Node>,
    value_once: Option<&Value>,
    value_again: Option<&Value>,
    nodes_once: &[Node],
    nodes_again: &[Node],
)
    requires
        borrowed_node_view(node_once) == doc@.get(name),
        borrowed_node_view(node_again) == doc@.get(name),
        borrowed_value_view(value_once) == doc@.get_arg(name),
        borrowed_value_view(value_again) == doc@.get_arg(name),
        nodes_once@.map_values(|n: Node| n@) == doc@.nodes,
        nodes_again@.map_values(|n: Node| n@) == doc@.nodes,
    ensures
        borrowed_node_view(node_once) == borrowed_node_view(node_again),
        borrowed_value_view(value_once) == borrowed_value_view(value_again),
        nodes_once@.map_values(|n: Node| n@) == nodes_again@.map_values(|n: Node| n@),
{
}

/// Reading a node twice gives the same answers: whatever two calls of an
/// accessor hand back for one node, one key and one index, they hold the
/// same values.
pub proof fn lemma_node_reads_agree(
    node: Node,
    key: Seq<char>,
    index: usize,
    name_once: &Identifier,
    name_again: &Identifier,
    ty_once: Option<&Identifier>,
    ty_again: Option<&Identifier>,
    entries_once: &[Entry],
    entries_again: &[Entry],
    prop_once: Option<&Entry>,
    prop_again: Option<&Entry>,
    arg_once: Option<&Entry>,
    arg_again: Option<&Entry>,
    children_once: Option<&Document>,
    children_again: Option<&Document>,
)
    requires
        name_once@ == node@.name,
        name_again@ == node@.name,
        borrowed_identifier_view(ty_once) == node@.ty,
        borrowed_identifier_view(ty_again) == node@.ty,
        entries_once@.map_values(|e: Entry| e@) == node@.entries,
        entries_again@.map_values(|e: Entry| e@) == node@.entries,
        borrowed_entry_view(prop_once) == node@.get_prop(key),
        borrowed_entry_view(prop_again) == node@.get_prop(key),
        borrowed_entry_view(arg_once) == node@.get_arg(index as nat),
        borrowed_entry_view(arg_again) == node@.get_arg(index as nat),
        borrowed_document_view(children_once) == node@.children,
        borrowed_document_view(children_again) == node@.children,
    ensures
        name_once@ == name_again@,
        borrowed_identifier_view(ty_once) == borrowed_identifier_view(ty_again),
        entries_once@.map_values(|e: Entry| e@) == entries_again@.map_values(|e: Entry| e@),
        borrowed_entry_view(prop_once) == borrowed_entry_view(prop_again),
        borrowed_entry_view(arg_once) == borrowed_entry_view(arg_again),
        borrowed_document_view(children_once) == borrowed_document_view(children_again),
{
}

/// Reading a diagnostic twice gives the same answers: whatever two calls of
/// an accessor hand back for one diagnostic, they hold the same text and the
/// same bytes.
pub proof fn lemma_error_reads_agree(
    error: Error,
    input_once: &str,
    input_again: &str,
    span_once: &[u8],
    span_again: &[u8],
    label_once: &str,
    label_again: &str,
    help_once: &str,
    help_again: &str,
)
    requires
        input_once@ == error@.input,
        input_again@ == error@.input,
        span_once@ == error@.span_bytes(),
        span_again@ == error@.span_bytes(),
        label_once@ == error@.label_text(),
        label_again@ == error@.label_text(),
        help_once@ == error@.help_text(),
        help_again@ == error@.help_text(),
    ensures
        input_once@ == input_again@,
        span_once@ == span_again@,
        label_once@ == label_again@,
        help_once@ == help_again@,
{
}

/// A diagnostic's span lies within its text, the bytes under the span are
/// as many as the span is long, and there is at least one of them unless the
/// text is empty.
pub proof fn lemma_diagnostic_span_valid(
    input: Seq<char>,
    offset: nat,
    length: nat,
    label: Option<Seq<char>>,
    help: Option<Seq<char>>,
)
    ensures
        ({
            let error = diagnostic(input, offset, length, label, help);
            &&& error.input == input
            &&& 0 <= error.offset
            &&& error.offset + error.length <= error.input_bytes().len()
            &&& error.span_bytes().len() == error.length
            &&& (error.input_bytes().len() > 0 ==> error.span_bytes().len() >= 1)
            &&& error.label == label
            &&& error.help == help
        }),
{
}

/// A span that lies within the text and is not empty is kept as it is.
pub proof fn lemma_diagnostic_keeps_valid_span(
    input: Seq<char>,
    offset: nat,
    length: nat,
    label: Option<Seq<char>>,
    help: Option<Seq<char>>,
)
    requires
        length >= 1,
        offset + length <= encode_utf8(input).len(),
    ensures
        diagnostic(input, offset, length, label, help).offset == offset,
        diagnostic(input, offset, length, label, help).length == length,
{
}

/// Every diagnostic that parsing gives holds the text that was parsed and a
/// span within it that is not empty: the bytes under the span are as many as
/// the span is long, and at least one.
pub proof fn lemma_parse_error_span_valid(text: Seq<char>)
    ensures
        parse_result(text) matches Err(error) ==> {
            &&& error.input == text
            &&& 0 <= error.offset
            &&& error.offset + error.length <= error.input_bytes().len()
            &&& error.span_bytes().len() == error.length
            &&& error.span_bytes().len() >= 1
        },
{
}

/// An empty span is widened to one byte: the byte at its start, or the last
/// byte of the text where it stands at the end or beyond.
pub proof fn lemma_diagnostic_widens_empty_span(
    input: Seq<char>,
    offset: nat,
    label: Option<Seq<char>>,
    help: Option<Seq<char>>,
)
    requires
        encode_utf8(input).len() > 0,
    ensures
        diagnostic(input, offset, 0, label, help).length == 1,
        offset < encode_utf8(input).len() ==> diagnostic(input, offset, 0, label, help).offset
            == offset,
        offset >= encode_utf8(input).len() ==> diagnostic(input, offset, 0, label, help).offset
            == encode_utf8(input).len() - 1,
{
}

/// Every document that parsing gives is nested at most
/// [`MAX_DEPTH`](crate::guard::MAX_DEPTH) deep.
pub proof fn lemma_parse_document_within_depth(text: Seq<char>)
    ensures
        parse_result(text) matches Ok(document) ==> document.within_depth(
            crate::guard::MAX_DEPTH as nat,
        ),
{
}

/// What the scan refuses is in the text, behind where the scan set out: a
/// reserved word stands as a whole word right behind an opening
/// parenthesis, a block that is too deep starts with an opening brace, and a
/// slashdash too many is a slash and a minus.
pub proof fn lemma_refusal_is_in_text(bytes: Seq<u8>, cursor: Cursor)
    requires
        bytes.len() <= usize::MAX,
        cursor.fits(bytes),
    ensures
        match scan_from(bytes, cursor) {
            Some(Refusal::ReservedWord { at, length }) => {
                &&& cursor.at < at
                &&& at + length <= bytes.len()
                &&& is_at(bytes, at - 1, OPEN_PAREN)
                &&& reserved_word_at(bytes, at as int) == Some(length as int)
            },
            Some(Refusal::TooDeep { at }) => cursor.at <= at && is_at(bytes, at as int, OPEN_BRACE),
            Some(Refusal::TooManySlashdashes { at }) => {
                &&& cursor.at <= at
                &&& is_at(bytes, at as int, SLASH)
                &&& is_at(bytes, at + 1, MINUS)
            },
            Some(Refusal::LeftOutTooDeep { at }) => cursor.at <= at && is_at(
                bytes,
                at as int,
                OPEN_BRACE,
            ),
            None => true,
        },
    decreases bytes.len() - cursor.at,
{
    reveal(reserved_word_at);
    if cursor.at < bytes.len() {
        lemma_step_moves_on(bytes, cursor);
        match step(bytes, cursor) {
            Step::On(next) => {
                lemma_refusal_is_in_text(bytes, next);
            },
            Step::Refused(_) => {},
        }
    }
}

/// The diagnostic for what the scan found covers it: the reserved word, the
/// opening brace, or the slashdash. It is what parsing gives unless the
/// parser finds a problem earlier in the text.
pub proof fn lemma_refusal_span_covers_what_was_found(text: Seq<char>)
    requires
        encode_utf8(text).len() <= usize::MAX,
    ensures
        match scan(encode_utf8(text)) {
            Some(refusal) => {
                let error = refusal_diagnostic(text, refusal);
                &&& earlier(text, cut_for(refusal)) is None ==> parse_result(text) == Err::<
                    DocumentView,
                    ErrorView,
                >(error)
                &&& error.well_formed()
                &&& error.length > 0
                &&& match refusal {
                    Refusal::ReservedWord { at, length } => error.offset == at && error.length
                        == length,
                    Refusal::TooDeep { at } => error.offset == at && error.length == 1,
                    Refusal::TooManySlashdashes { at } => error.offset == at && error.length
                        == 2,
                    Refusal::LeftOutTooDeep { at } => error.offset == at && error.length == 1,
                }
            },
            None => true,
        },
{
    reveal(within_bounds);
    reveal(reserved_word_at);
    lemma_refusal_is_in_text(encode_utf8(text), Cursor::start());
}

/// The layout of what the scan lets through is as long as what it is laid out
/// from and the semicolons that are put in together: nothing else is put in,
/// and nothing is taken out.
pub proof fn lemma_layout_adds_semicolons_alone(bytes: Seq<u8>, cursor: Cursor, done: Layout)
    requires
        bytes.len() <= usize::MAX,
        cursor.fits(bytes),
        scan_from(bytes, cursor) is None,
    ensures
        laid_from(bytes, cursor, done).shifts.len() >= done.shifts.len(),
        laid_from(bytes, cursor, done).bytes.len() - laid_from(bytes, cursor, done).shifts.len()
            == done.bytes.len() - done.shifts.len() + (bytes.len() - cursor.at),
    decreases bytes.len() - cursor.at,
{
    if cursor.at < bytes.len() {
        lemma_step_moves_on(bytes, cursor);
        crate::guard::lemma_ends_keep_bounds(cursor);
        crate::guard::lemma_ends_keep_bounds(cursor.spaced());
        match step(bytes, cursor) {
            Step::On(next) => {
                let closing = closes_open_node(bytes, cursor);
                let put = laid_for(
                    bytes,
                    cursor.at as int,
                    next.at as int,
                    closing,
                    inside_comment(bytes, cursor),
                );
                assert(put.len() == next.at - cursor.at + if closing {
                    1int
                } else {
                    0int
                });
                lemma_layout_adds_semicolons_alone(
                    bytes,
                    next,
                    Layout {
                        bytes: done.bytes + put,
                        shifts: if closing {
                            done.shifts.push(done.bytes.len() as usize)
                        } else {
                            done.shifts
                        },
                    },
                );
            },
            Step::Refused(_) => {},
        }
    }
}

/// The layout of a whole text that the scan lets through is as long as the
/// text and the semicolons that are put in together.
pub proof fn lemma_layout_length(bytes: Seq<u8>)
    requires
        bytes.len() <= usize::MAX,
        scan(bytes) is None,
    ensures
        laid(bytes).bytes.len() == bytes.len() + laid(bytes).shifts.len(),
{
    reveal(within_bounds);
    lemma_layout_adds_semicolons_alone(
        bytes,
        Cursor::start(),
        Layout { bytes: Seq::empty(), shifts: Seq::empty() },
    );
}

/// Where no semicolon was put in, every place of the layout is the same
/// place of the text.
pub proof fn lemma_back_without_shifts(position: int)
    requires
        0 <= position,
    ensures
        back(Seq::<usize>::empty(), position) == position,
{
}

/// Equality of values as data is an equivalence.
pub proof fn lemma_same_data_is_equivalence(a: ValueView, b: ValueView, c: ValueView)
    ensures
        a.same_data(a),
        a.same_data(b) == b.same_data(a),
        a.same_data(b) && b.same_data(c) ==> a.same_data(c),
{
}

/// Equality of values as data compares the payload alone: two integers are
/// equal exactly when their numbers are, whatever their bases, and two
/// strings exactly when their texts are, however they were written.
pub proof fn lemma_same_data_ignores_provenance(
    i: i64,
    j: i64,
    base_i: Base,
    base_j: Base,
    s: Seq<char>,
    t: Seq<char>,
    kind_s: StringKind,
    kind_t: StringKind,
)
    ensures
        ValueView::Int(i, base_i).same_data(ValueView::Int(j, base_j)) <==> i == j,
        ValueView::String(s, kind_s).same_data(ValueView::String(t, kind_t)) <==> s == t,
{
}

/// Values of different variants are never equal as data.
pub proof fn lemma_same_data_tells_variants_apart(a: ValueView, b: ValueView)
    requires
        a.same_data(b),
    ensures
        a is Null <==> b is Null,
        a is Bool <==> b is Bool,
        a is Int <==> b is Int,
        a is Float <==> b is Float,
        a is String <==> b is String,
{
}

/// The discriminator says which extraction applies: the text of a value can
/// be had exactly when it is a string, quoted or raw, the number exactly when
/// it is an integer in one of the four bases, and so on.
pub proof fn lemma_which_decides_extraction(value: ValueView)
    ensures
        value.as_text().is_some() <==> (value.which() == KdlValueWhich::String || value.which()
            == KdlValueWhich::RawString),
        value.as_int().is_some() <==> (value.which() == KdlValueWhich::Base2 || value.which()
            == KdlValueWhich::Base8 || value.which() == KdlValueWhich::Base10 || value.which()
            == KdlValueWhich::Base16),
        value.as_float_bits().is_some() <==> value.which() == KdlValueWhich::Base10Float,
        value.as_bool().is_some() <==> value.which() == KdlValueWhich::Bool,
        value is Null <==> value.which() == KdlValueWhich::Null,
{
}

/// The numbers that stand for the variants tell them apart, and their high
/// four bits tell the families apart.
pub proof fn lemma_code_tells_variants_apart(a: KdlValueWhich, b: KdlValueWhich)
    ensures
        a.spec_code() == b.spec_code() ==> a == b,
        0 <= a.spec_code() < 256,
        a.spec_code() / 16 == 1 <==> (a == KdlValueWhich::String || a == KdlValueWhich::RawString),
        a.spec_code() / 16 == 2 <==> (a == KdlValueWhich::Base2 || a == KdlValueWhich::Base8 || a
            == KdlValueWhich::Base10 || a == KdlValueWhich::Base16),
        a.spec_code() / 16 == 4 <==> a == KdlValueWhich::Base10Float,
        a.spec_code() / 16 == 8 <==> a == KdlValueWhich::Bool,
        a.spec_code() / 16 == 0 <==> a == KdlValueWhich::Null,
{
}

/// A lookup by name finds the first node with that name, and finds none
/// exactly when no node has it.
pub proof fn lemma_get_finds_first_named(document: DocumentView, name: Seq<char>, i: int)
    requires
        0 <= i < document.nodes.len(),
        document.nodes[i].name.value == name,
        forall|j: int| 0 <= j < i ==> (#[trigger] document.nodes[j]).name.value != name,
    ensures
        document.get(name) == Some(document.nodes[i]),
{
    lemma_filter_first(document.nodes, is_named(name), i);
}

/// A lookup by name finds no node where no node has the name.
pub proof fn lemma_get_finds_none_unnamed(document: DocumentView, name: Seq<char>)
    requires
        forall|j: int| 0 <= j < document.nodes.len() ==> (#[trigger] document.nodes[j]).name.value
            != name,
    ensures
        document.get(name) is None,
        document.get_arg(name) is None,
{
    lemma_filter_none(document.nodes, is_named(name));
}

/// A lookup by key finds the first property with that key, whatever comes
/// after it: a later property with the same key does not replace it.
pub proof fn lemma_get_prop_finds_first_match(node: NodeView, key: Seq<char>, i: int)
    requires
        0 <= i < node.entries.len(),
        node.entries[i].has_key(key),
        forall|j: int| 0 <= j < i ==> !(#[trigger] node.entries[j]).has_key(key),
    ensures
        node.get_prop(key) == Some(node.entries[i]),
{
    lemma_filter_first(node.entries, has_key(key), i);
}

/// A lookup by key finds no entry where no property has the key.
pub proof fn lemma_get_prop_finds_none_unkeyed(node: NodeView, key: Seq<char>)
    requires
        forall|j: int| 0 <= j < node.entries.len() ==> !(#[trigger] node.entries[j]).has_key(key),
    ensures
        node.get_prop(key) is None,
{
    lemma_filter_none(node.entries, has_key(key));
}

/// The index of a positional argument is the number of positional arguments
/// before it: properties in between are not counted.
pub proof fn lemma_get_arg_counts_arguments(node: NodeView, i: int)
    requires
        0 <= i < node.entries.len(),
        node.entries[i].is_argument(),
    ensures
        node.get_arg(node.entries.take(i).filter(is_argument()).len()) == Some(node.entries[i]),
{
    lemma_filter_position(node.entries, is_argument(), i);
}

/// Every entry that a lookup finds is an entry of the node, of the kind
/// that was asked for.
pub proof fn lemma_found_entry_is_of_node(node: NodeView, key: Seq<char>, index: nat)
    ensures
        node.get_prop(key) matches Some(entry) ==> node.entries.contains(entry) && entry.has_key(
            key,
        ),
        node.get_arg(index) matches Some(entry) ==> node.entries.contains(entry)
            && entry.is_argument(),
{
    broadcast use {Seq::lemma_filter_pred, Seq::lemma_filter_contains_rev};

    if node.get_prop(key) is Some {
        let found = node.properties(key);
        assert(found.contains(found[0]));
    }
    if node.get_arg(index) is Some {
        let found = node.arguments();
        assert(found.contains(found[index as int]));
    }
}

/// Identifiers are compared by their resolved names: the form in which one
/// was written plays no part.
pub proof fn lemma_identifier_equality_by_value(a: Identifier, b: Identifier)
    ensures
        a.eq_spec(&b) <==> a@.value == b@.value,
{
}

} // verus!
