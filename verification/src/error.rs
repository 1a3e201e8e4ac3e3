//! Diagnostics: where in the text parsing stopped, and why.
use vstd::prelude::*;
use vstd::slice::slice_subrange;
use vstd::utf8::encode_utf8;

verus! {

/// A diagnostic: the text that was parsed, a byte span into its UTF-8
/// encoding, a short label and a longer help text.
///
/// The span always lies within the text.
#[derive(Debug)]
pub struct Error {
    input: String,
    offset: usize,
    length: usize,
    label: Option<String>,
    help: Option<String>,
}

/// The mathematical value of an [`Error`].
pub struct ErrorView {
    pub input: Seq<char>,
    pub offset: nat,
    pub length: nat,
    pub label: Option<Seq<char>>,
    pub help: Option<Seq<char>>,
}

impl ErrorView {
    /// The UTF-8 encoding of the text, which the span counts in.
    pub open spec fn input_bytes(self) -> Seq<u8> {
        encode_utf8(self.input)
    }

    /// Whether the span lies within the text.
    pub open spec fn well_formed(self) -> bool {
        self.offset + self.length <= self.input_bytes().len()
    }

    /// The bytes of the text that the span covers.
    pub open spec fn span_bytes(self) -> Seq<u8> {
        self.input_bytes().subrange(self.offset as int, (self.offset + self.length) as int)
    }

    /// The label, empty if there is none.
    pub open spec fn label_text(self) -> Seq<char> {
        match self.label {
            Some(label) => label,
            None => Seq::empty(),
        }
    }

    /// The help text, empty if there is none.
    pub open spec fn help_text(self) -> Seq<char> {
        match self.help {
            Some(help) => help,
            None => Seq::empty(),
        }
    }
}

/// The smaller of two numbers.
pub open spec fn least(a: nat, b: nat) -> nat {
    if a <= b {
        a
    } else {
        b
    }
}

/// The diagnostic for a span in a text.
///
/// A span that reaches past the end of the text is cut there: its start is
/// moved back to the end if it lies beyond, and its length is shortened to
/// what is left. A span that is empty then is widened to one byte: the byte
/// at its start, or the last byte of the text where it stands at the end.
/// Only in the empty text does a span stay empty.
pub open spec fn diagnostic(
    input: Seq<char>,
    offset: nat,
    length: nat,
    label: Option<Seq<char>>,
    help: Option<Seq<char>>,
) -> ErrorView {
    let size = encode_utf8(input).len();
    let start = least(offset, size);
    let kept = least(length, (size - start) as nat);
    if kept > 0 || size == 0 {
        ErrorView { input, offset: start, length: kept, label, help }
    } else if start < size {
        ErrorView { input, offset: start, length: 1, label, help }
    } else {
        ErrorView { input, offset: (size - 1) as nat, length: 1, label, help }
    }
}

/// The view of a text that may be absent.
pub open spec fn optional_text_view(text: Option<String>) -> Option<Seq<char>> {
    match text {
        Some(text) => Some(text@),
        None => None,
    }
}

impl View for Error {
    type V = ErrorView;

    closed spec fn view(&self) -> ErrorView {
        ErrorView {
            input: self.input@,
            offset: self.offset as nat,
            length: self.length as nat,
            label: optional_text_view(self.label),
            help: optional_text_view(self.help),
        }
    }
}

impl Error {
    #[verifier::type_invariant]
    spec fn span_within_input(self) -> bool {
        self.offset + self.length <= encode_utf8(self.input@).len()
    }

    /// The diagnostic for the span of `length` bytes at `offset` in `input`,
    /// the span cut to fit and, where it is empty, widened to one byte.
    pub fn new(
        input: String,
        offset: usize,
        length: usize,
        label: Option<String>,
        help: Option<String>,
    ) -> (error: Error)
        ensures
            error@ == diagnostic(
                input@,
                offset as nat,
                length as nat,
                optional_text_view(label),
                optional_text_view(help),
            ),
            error@.well_formed(),
            encode_utf8(input@).len() > 0 ==> error@.length >= 1,
    {
        let size = input.as_str().as_bytes().len();
        let start = if offset <= size {
            offset
        } else {
            size
        };
        let rest = size - start;
        let kept = if length <= rest {
            length
        } else {
            rest
        };
        if kept > 0 || size == 0 {
            Error { input, offset: start, length: kept, label, help }
        } else if start < size {
            Error { input, offset: start, length: 1, label, help }
        } else {
            Error { input, offset: size - 1, length: 1, label, help }
        }
    }

    /// Where the span starts, in bytes from the start of the text.
    pub fn offset(&self) -> (offset: usize)
        ensures
            offset == self@.offset,
    {
        self.offset
    }

    /// The length of the span in bytes.
    pub fn length(&self) -> (length: usize)
        ensures
            length == self@.length,
    {
        self.length
    }
}

/// The text that was parsed.
pub fn KDL_Error_input(error: &Error) -> (input: &str)
    ensures
        input@ == error@.input,
{
    error.input.as_str()
}

/// The bytes of the text that the span covers.
pub fn KDL_Error_span(error: &Error) -> (span: &[u8])
    ensures
        error@.well_formed(),
        span@ == error@.span_bytes(),
{
    proof {
        use_type_invariant(error);
    }
    let bytes = error.input.as_str().as_bytes();
    let size = bytes.len();
    assert(error.offset + error.length <= size);
    slice_subrange(bytes, error.offset, error.offset + error.length)
}

/// The label, empty if there is none.
pub fn KDL_Error_label(error: &Error) -> (label: &str)
    ensures
        label@ == error@.label_text(),
{
    match &error.label {
        Some(label) => label.as_str(),
        None => {
            proof {
                reveal_strlit("");
            }
            ""
        },
    }
}

/// The help text, empty if there is none.
pub fn KDL_Error_help(error: &Error) -> (help: &str)
    ensures
        help@ == error@.help_text(),
{
    match &error.help {
        Some(help) => help.as_str(),
        None => {
            proof {
                reveal_strlit("");
            }
            ""
        },
    }
}

} // verus!
