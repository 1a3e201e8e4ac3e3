//! Documents: nodes in source order.
use vstd::prelude::*;
use vstd::utf8::{
    decode_utf8, encode_utf8, encode_utf8_decode_utf8, encode_utf8_valid_utf8, valid_utf8,
};
use crate::convert::{lift_error, lift_outcome};
use crate::encoding::lemma_ascii_is_boundary;
use crate::error::{diagnostic, Error, ErrorView};
use crate::guard::{
    back, laid, lay_out, ready, scan, shifted_back, Cursor, Laid, Refusal, MAX_DEPTH,
    MAX_LEFT_OUT_DEPTH, MAX_SLASHDASHES,
};
use crate::kdl_specs::{outcome_model, parse_outcome, parse_text, text_of, Failure};
use crate::laws::lemma_refusal_is_in_text;
use crate::lookup::{lemma_filter_position, lemma_filter_take_all, lemma_filter_take_next};
use crate::node::{node_view, KDL_Node_get_arg, Node, NodeView};
use crate::text::same_text;
use crate::value::{Value, ValueView};

verus! {

/// A sequence of nodes: a whole text, or the children of one node.
#[derive(Debug)]
pub struct Document {
    pub nodes: Vec<Node>,
}

/// The mathematical value of a [`Document`].
pub struct DocumentView {
    pub nodes: Seq<NodeView>,
}

/// The label of the diagnostic for blocks that are nested deeper than
/// [`MAX_DEPTH`].
pub const NESTING_LABEL: &'static str = "nesting too deep";

/// The help text of the diagnostic for blocks that are nested deeper than
/// [`MAX_DEPTH`].
pub const NESTING_HELP: &'static str = "Blocks of children can be nested at most 64 deep.";

/// The label of the diagnostic for more slashdashes waiting than
/// [`MAX_SLASHDASHES`].
pub const SLASHDASH_LABEL: &'static str = "too many slashdashes";

/// The help text of the diagnostic for more slashdashes waiting than
/// [`MAX_SLASHDASHES`].
pub const SLASHDASH_HELP: &'static str =
    "At most 32 slashdashes can wait at once for the node, entry or block that they leave out.";

/// The label of the diagnostic for blocks that slashdashes leave out and
/// that are nested deeper in one another than [`MAX_LEFT_OUT_DEPTH`].
pub const LEFT_OUT_LABEL: &'static str = "nesting too deep behind slashdashes";

/// The help text of the diagnostic for blocks that slashdashes leave out
/// and that are nested deeper in one another than [`MAX_LEFT_OUT_DEPTH`].
pub const LEFT_OUT_HELP: &'static str =
    "Blocks that slashdashes leave out can be nested at most 8 deep in one another.";

/// The label of the diagnostic for a reserved word that stands as a type
/// annotation.
pub const RESERVED_LABEL: &'static str = "reserved keyword";

/// The help text of the diagnostic for a reserved word that stands as a
/// type annotation.
pub const RESERVED_HELP: &'static str = "Reserved keywords cannot be used as identifiers.";

/// The test that picks the nodes with the name `name`.
pub open spec fn is_named(name: Seq<char>) -> spec_fn(NodeView) -> bool {
    |n: NodeView| n.name.value == name
}

impl DocumentView {
    /// The nodes with the name `name`, in order.
    pub open spec fn named(self, name: Seq<char>) -> Seq<NodeView> {
        self.nodes.filter(is_named(name))
    }

    /// The first node with the name `name`.
    pub open spec fn get(self, name: Seq<char>) -> Option<NodeView> {
        if self.named(name).len() > 0 {
            Some(self.named(name)[0])
        } else {
            None
        }
    }

    /// The value of the first positional argument of the first node with
    /// the name `name`.
    pub open spec fn get_arg(self, name: Seq<char>) -> Option<ValueView> {
        match self.get(name) {
            Some(node) => match node.get_arg(0) {
                Some(entry) => Some(entry.value),
                None => None,
            },
            None => None,
        }
    }

    /// Whether every node of the document is within `depth`.
    pub open spec fn within_depth(self, depth: nat) -> bool
        decreases depth, 1nat,
    {
        forall|i: int| 0 <= i < self.nodes.len() ==> (#[trigger] self.nodes[i]).within_depth(depth)
    }
}

impl View for Document {
    type V = DocumentView;

    open spec fn view(&self) -> DocumentView {
        document_view(*self)
    }
}

/// The view of a document: the views of its nodes, in order.
pub open spec fn document_view(document: Document) -> DocumentView
    decreases document,
{
    DocumentView {
        nodes: Seq::new(
            document.nodes@.len(),
            |i: int|
                if 0 <= i < document.nodes@.len() {
                    node_view(document.nodes@[i])
                } else {
                    arbitrary()
                },
        ),
    }
}

/// The view of a borrowed node that may be absent.
pub open spec fn borrowed_node_view(node: Option<&Node>) -> Option<NodeView> {
    match node {
        Some(node) => Some(node@),
        None => None,
    }
}

/// The view of a borrowed value that may be absent.
pub open spec fn borrowed_value_view(value: Option<&Value>) -> Option<ValueView> {
    match value {
        Some(value) => Some(value@),
        None => None,
    }
}

/// The view of the result of parsing.
pub open spec fn result_view(result: Result<Document, Error>) -> Result<DocumentView, ErrorView> {
    match result {
        Ok(document) => Ok(document@),
        Err(error) => Err(error@),
    }
}

/// The diagnostic for a document whose blocks are nested too deep: it
/// covers the whole text.
pub open spec fn too_deep(text: Seq<char>) -> ErrorView {
    diagnostic(
        text,
        0,
        encode_utf8(text).len(),
        Some(NESTING_LABEL@),
        Some(NESTING_HELP@),
    )
}

/// The diagnostic for what the scan found: it covers the reserved word, the
/// brace that opens the block that is nested too deep, the slashdash that is
/// one too many, or the first byte of the piece that is.
pub open spec fn refusal_diagnostic(text: Seq<char>, refusal: Refusal) -> ErrorView {
    match refusal {
        Refusal::ReservedWord { at, length } => diagnostic(
            text,
            at as nat,
            length as nat,
            Some(RESERVED_LABEL@),
            Some(RESERVED_HELP@),
        ),
        Refusal::TooDeep { at } => diagnostic(
            text,
            at as nat,
            1,
            Some(NESTING_LABEL@),
            Some(NESTING_HELP@),
        ),
        Refusal::TooManySlashdashes { at } => diagnostic(
            text,
            at as nat,
            2,
            Some(SLASHDASH_LABEL@),
            Some(SLASHDASH_HELP@),
        ),
        Refusal::LeftOutTooDeep { at } => diagnostic(
            text,
            at as nat,
            1,
            Some(LEFT_OUT_LABEL@),
            Some(LEFT_OUT_HELP@),
        ),
    }
}

/// Where the span of `failure` ends: its offset and length together, as
/// far as a machine's numbers go.
pub open spec fn span_end(failure: Failure) -> int {
    if failure.offset + failure.length <= usize::MAX {
        failure.offset + failure.length
    } else {
        usize::MAX as int
    }
}

/// The parser's report about a layout as a diagnostic about the text: the
/// span from where its start stands in the text to where its end does.
pub open spec fn report(text: Seq<char>, shifts: Seq<usize>, failure: Failure) -> ErrorView {
    let start = back(shifts, failure.offset as int);
    let stop = back(shifts, span_end(failure));
    diagnostic(
        text,
        start as nat,
        (if stop >= start {
            stop - start
        } else {
            0
        }) as nat,
        failure.label,
        failure.help,
    )
}

/// What parsing a text gives, from what the parser made of its layout: the
/// parser's document if it is within [`MAX_DEPTH`], the diagnostic
/// [`too_deep`] if it is not, and the parser's report as a diagnostic about
/// the text if the parser gave up.
pub open spec fn settle(
    text: Seq<char>,
    shifts: Seq<usize>,
    outcome: Result<DocumentView, Failure>,
) -> Result<DocumentView, ErrorView> {
    match outcome {
        Ok(document) => if document.within_depth(MAX_DEPTH as nat) {
            Ok(document)
        } else {
            Err(too_deep(text))
        },
        Err(failure) => Err(report(text, shifts, failure)),
    }
}

/// What the parser makes of the layout of `bytes`.
pub open spec fn handed(bytes: Seq<u8>) -> Result<DocumentView, Failure> {
    parse_outcome(decode_utf8(laid(bytes).bytes))
}

/// Where the text is cut for what the scan found: before the parenthesis
/// of a reserved word, before the brace, before the slashdash.
pub open spec fn cut_for(refusal: Refusal) -> int {
    match refusal {
        Refusal::ReservedWord { at, length } => at - 1,
        Refusal::TooDeep { at } => at as int,
        Refusal::TooManySlashdashes { at } => at as int,
        Refusal::LeftOutTooDeep { at } => at as int,
    }
}

/// The problem that the parser finds before `cut`, in the text up to there:
/// its report, if the parser gives up on the layout of that much of the
/// text and the span of its report ends before `cut`. A report that reaches
/// the cut may be about the cut alone.
pub open spec fn earlier(text: Seq<char>, cut: int) -> Option<ErrorView> {
    let head = encode_utf8(text).subrange(0, cut);
    if cut > 0 && scan(head) is None {
        match handed(head) {
            Err(failure) => if back(laid(head).shifts, span_end(failure)) < cut {
                Some(report(text, laid(head).shifts, failure))
            } else {
                None
            },
            Ok(_) => None,
        }
    } else {
        None
    }
}

/// What parsing `text` gives.
///
/// The empty text is the empty document. Where the scan finds nothing, the
/// result is [`settle`] of what the parser makes of the layout of the text.
/// Where the scan finds what the parser must not be handed, the result is
/// the problem that the parser finds [`earlier`] in the text, if there is
/// one, and else the diagnostic for what the scan found.
pub open spec fn parse_result(text: Seq<char>) -> Result<DocumentView, ErrorView> {
    let bytes = encode_utf8(text);
    if bytes.len() == 0 {
        Ok(DocumentView { nodes: Seq::empty() })
    } else {
        match scan(bytes) {
            None => settle(text, laid(bytes).shifts, handed(bytes)),
            Some(refusal) => match earlier(text, cut_for(refusal)) {
                Some(error) => Err(error),
                None => Err(refusal_diagnostic(text, refusal)),
            },
        }
    }
}

/// The diagnostic for a document whose blocks are nested too deep.
pub fn nesting_error(text: &str) -> (error: Error)
    ensures
        error@ == too_deep(text@),
        error@.well_formed(),
{
    let size = text.as_bytes().len();
    let label = NESTING_LABEL.to_owned();
    let help = NESTING_HELP.to_owned();
    Error::new(text.to_owned(), 0, size, Some(label), Some(help))
}

/// The diagnostic for what the scan found in `text`.
pub fn refusal_error(text: &str, refusal: Refusal) -> (error: Error)
    ensures
        error@ == refusal_diagnostic(text@, refusal),
        error@.well_formed(),
{
    match refusal {
        Refusal::ReservedWord { at, length } => Error::new(
            text.to_owned(),
            at,
            length,
            Some(RESERVED_LABEL.to_owned()),
            Some(RESERVED_HELP.to_owned()),
        ),
        Refusal::TooDeep { at } => Error::new(
            text.to_owned(),
            at,
            1,
            Some(NESTING_LABEL.to_owned()),
            Some(NESTING_HELP.to_owned()),
        ),
        Refusal::TooManySlashdashes { at } => Error::new(
            text.to_owned(),
            at,
            2,
            Some(SLASHDASH_LABEL.to_owned()),
            Some(SLASHDASH_HELP.to_owned()),
        ),
        Refusal::LeftOutTooDeep { at } => Error::new(
            text.to_owned(),
            at,
            1,
            Some(LEFT_OUT_LABEL.to_owned()),
            Some(LEFT_OUT_HELP.to_owned()),
        ),
    }
}

/// Hands the layout of a text to the parser.
fn hand_over(bytes: Vec<u8>) -> (outcome: Result<kdl::KdlDocument, kdl::KdlError>)
    requires
        valid_utf8(bytes@),
        ready(bytes@),
    ensures
        outcome_model(outcome) == parse_outcome(decode_utf8(bytes@)),
{
    let text = text_of(bytes).unwrap();
    proof {
        encode_utf8_decode_utf8(text@);
    }
    parse_text(text.as_str())
}

/// The problem that the parser finds before `cut` in `s`, if it finds one.
fn find_earlier(s: &str, cut: usize) -> (found: Option<Error>)
    requires
        cut < encode_utf8(s@).len(),
        encode_utf8(s@)[cut as int] <= 0x7f,
    ensures
        match found {
            Some(error) => earlier(s@, cut as int) == Some(error@) && error@.well_formed()
                && error@.length >= 1,
            None => earlier(s@, cut as int) is None,
        },
{
    if cut == 0 {
        return None;
    }
    proof {
        encode_utf8_valid_utf8(s@);
        lemma_ascii_is_boundary(encode_utf8(s@), cut as int);
    }
    let (head, _) = s.split_at(cut);
    match lay_out(head) {
        Ok(laid) => {
            let Laid { bytes, shifts } = laid;
            match hand_over(bytes) {
                Ok(_) => None,
                Err(failure) => {
                    let offset = crate::kdl_specs::failure_offset(&failure);
                    let length = crate::kdl_specs::failure_length(&failure);
                    let end = if length <= usize::MAX - offset {
                        offset + length
                    } else {
                        usize::MAX
                    };
                    if shifted_back(&shifts, end) < cut {
                        Some(lift_error(s, &shifts, &failure))
                    } else {
                        None
                    }
                },
            }
        },
        Err(_) => None,
    }
}

/// Parses `s` into a document, or says where and why parsing stopped.
///
/// The empty text is the empty document. Any other text is scanned first
/// and laid out for the parser: every block comment as one run of
/// characters, and every node that is still open where its block closes
/// with a semicolon for its end. The parser's first problem ends the parse.
/// A reserved word that stands as a type annotation, a block that is nested
/// deeper than [`MAX_DEPTH`], blocks that slashdashes leave out nested
/// deeper in one another than [`MAX_LEFT_OUT_DEPTH`], or more slashdashes
/// waiting than
/// [`MAX_SLASHDASHES`] ends it too, unless the parser finds a problem
/// before. The diagnostic holds `s` itself, and its span lies within `s`
/// and is not empty.
pub fn KDL_Document_parse(s: &str) -> (result: Result<Document, Error>)
    ensures
        result_view(result) == parse_result(s@),
        result matches Err(error) ==> {
            &&& error@.input == s@
            &&& error@.well_formed()
            &&& error@.length >= 1
        },
        result matches Ok(document) ==> document@.within_depth(MAX_DEPTH as nat),
{
    let size = s.as_bytes().len();
    if size == 0 {
        let document = Document { nodes: Vec::new() };
        assert(document@.nodes =~= Seq::<NodeView>::empty());
        return Ok(document);
    }
    match lay_out(s) {
        Ok(laid) => {
            let Laid { bytes, shifts } = laid;
            let outcome = hand_over(bytes);
            lift_outcome(s, &shifts, outcome)
        },
        Err(refusal) => {
            proof {
                crate::guard::lemma_start_fits(encode_utf8(s@));
                lemma_refusal_is_in_text(encode_utf8(s@), Cursor::start());
            }
            let cut = match refusal {
                Refusal::ReservedWord { at, length } => at - 1,
                Refusal::TooDeep { at } => at,
                Refusal::TooManySlashdashes { at } => at,
                Refusal::LeftOutTooDeep { at } => at,
            };
            match find_earlier(s, cut) {
                Some(error) => Err(error),
                None => Err(refusal_error(s, refusal)),
            }
        },
    }
}

/// The first node of `doc` with the name `name`.
pub fn KDL_Document_get<'a>(doc: &'a Document, name: &str) -> (found: Option<&'a Node>)
    ensures
        borrowed_node_view(found) == doc@.get(name@),
{
    let ghost nodes = doc@.nodes;
    let ghost keep = is_named(name@);
    let mut i: usize = 0;
    while i < doc.nodes.len()
        invariant
            i <= doc.nodes.len(),
            nodes == doc@.nodes,
            keep == is_named(name@),
            nodes.take(i as int).filter(keep).len() == 0,
        decreases doc.nodes.len() - i,
    {
        let node = &doc.nodes[i];
        assert(nodes[i as int] == node@);
        if same_text(node.name.value.as_str(), name) {
            proof {
                lemma_filter_position(nodes, keep, i as int);
            }
            return Some(node);
        }
        proof {
            lemma_filter_take_next(nodes, keep, i as int);
        }
        i += 1;
    }
    proof {
        lemma_filter_take_all(nodes, keep);
    }
    None
}

/// The value of the first positional argument of the first node of `doc`
/// with the name `name`.
pub fn KDL_Document_get_arg<'a>(doc: &'a Document, name: &str) -> (found: Option<&'a Value>)
    ensures
        borrowed_value_view(found) == doc@.get_arg(name@),
{
    match KDL_Document_get(doc, name) {
        Some(node) => match KDL_Node_get_arg(node, 0) {
            Some(entry) => Some(&entry.value),
            None => None,
        },
        None => None,
    }
}

/// The nodes of `doc`, in source order.
pub fn KDL_Document_nodes(doc: &Document) -> (nodes: &[Node])
    ensures
        nodes@.map_values(|n: Node| n@) == doc@.nodes,
{
    let nodes = doc.nodes.as_slice();
    assert(nodes@.map_values(|n: Node| n@) =~= doc@.nodes);
    nodes
}

} // verus!
