//! A scan of the text before the parser sees it, and its layout for the
//! parser.
//!
//! The parser cannot take a reserved word that stands as a bare type
//! annotation. It descends one level of recursion for each block of children
//! that is open, for each slashdash whose node, entry or block is not yet
//! complete, and for each piece of a block comment that is open; and it reads
//! what a slashdash leaves out several times over. The scan walks the bytes
//! of the text once, keeps track of strings, comments, blocks, nodes and
//! entries, and finds the first such word and the first place where blocks
//! or slashdashes are beyond what a machine bears.
//!
//! The layout is what the parser is handed. It makes every block comment of
//! one piece, with spaces for the stars and slashes inside it, and it ends
//! with a semicolon every node that is still open where its block closes.
use vstd::prelude::*;
use vstd::utf8::{encode_utf8, encode_utf8_valid_utf8, valid_utf8};
use crate::encoding::{all_ascii, lemma_splice_keeps_valid};

verus! {

/// How deep blocks of children may be nested.
pub const MAX_DEPTH: usize = 64;

/// How many slashdashes may wait at once for the node, entry or block that
/// they leave out. Each one that waits costs the parser a level of recursion
/// as a block of children does, and more of its stack than a block: with
/// [`MAX_DEPTH`] blocks open, a stack of two mebibytes bears forty of them,
/// and forty-eight no more.
pub const MAX_SLASHDASHES: usize = 32;

/// How deep the blocks that slashdashes leave out may be nested in one
/// another: a block that a slashdash leaves out, or that belongs to a node
/// that one leaves out, inside another such block. The parser reads such a
/// block up to six times over, one inside it as often for each of those
/// times, and so on: eight deep, the innermost may be read 6^8 times, which
/// is more than a million and a half.
pub const MAX_LEFT_OUT_DEPTH: usize = 8;

/// The byte of a space.
pub const SPACE: u8 = 0x20;

/// The byte of a double quote.
pub const QUOTE: u8 = 0x22;

/// The byte of `#`.
pub const HASH: u8 = 0x23;

/// The byte of `(`.
pub const OPEN_PAREN: u8 = 0x28;

/// The byte of `)`.
pub const CLOSE_PAREN: u8 = 0x29;

/// The byte of `*`.
pub const STAR: u8 = 0x2A;

/// The byte of `,`.
pub const COMMA: u8 = 0x2C;

/// The byte of `-`.
pub const MINUS: u8 = 0x2D;

/// The byte of `/`.
pub const SLASH: u8 = 0x2F;

/// The byte of `;`.
pub const SEMICOLON: u8 = 0x3B;

/// The byte of `<`.
pub const LESS_THAN: u8 = 0x3C;

/// The byte of `=`.
pub const EQUALS: u8 = 0x3D;

/// The byte of `>`.
pub const GREATER_THAN: u8 = 0x3E;

/// The byte of `[`.
pub const OPEN_BRACKET: u8 = 0x5B;

/// The byte of a backslash.
pub const BACKSLASH: u8 = 0x5C;

/// The byte of `]`.
pub const CLOSE_BRACKET: u8 = 0x5D;

/// The byte of `r`.
pub const LETTER_R: u8 = 0x72;

/// The byte of `{`.
pub const OPEN_BRACE: u8 = 0x7B;

/// The byte of `}`.
pub const CLOSE_BRACE: u8 = 0x7D;

/// The bytes of the reserved word `true`.
pub open spec fn word_true() -> Seq<u8> {
    seq![0x74u8, 0x72u8, 0x75u8, 0x65u8]
}

/// The bytes of the reserved word `null`.
pub open spec fn word_null() -> Seq<u8> {
    seq![0x6Eu8, 0x75u8, 0x6Cu8, 0x6Cu8]
}

/// The bytes of the reserved word `false`.
pub open spec fn word_false() -> Seq<u8> {
    seq![0x66u8, 0x61u8, 0x6Cu8, 0x73u8, 0x65u8]
}

/// What the scan is in the middle of.
#[derive(Clone, Copy, Debug, PartialEq, Eq, Structural)]
pub enum Mode {
    /// Nodes, entries and the space between them.
    Code,
    /// A quoted string, up to its closing quote.
    Quoted,
    /// A raw string that was opened with this many hashes.
    Raw(usize),
    /// A comment that runs to the end of the line.
    Line,
    /// Block comments, this many of them open inside one another.
    Block(usize),
}

/// What is held while a block is open: the slashdashes that wait outside
/// it, `pending` for a node and `extra` for an entry or block of the node
/// that the block belongs to; whether one of `extra` waits for the block
/// itself; and whether any of them waits, so that the block is part of what
/// it leaves out.
#[derive(Clone, Copy, Debug, PartialEq, Eq, Structural)]
pub struct Level {
    pub pending: usize,
    pub extra: usize,
    pub dashed: bool,
    pub left_out: bool,
}

/// Where the scan stands.
pub struct Cursor {
    /// The index of the next byte.
    pub at: usize,
    /// What the scan is in the middle of.
    pub mode: Mode,
    /// The slashdashes that wait outside each block that is open, the
    /// outermost block first.
    pub held: Seq<Level>,
    /// The sum of what `held` holds.
    pub below: usize,
    /// How many of the blocks that are open are part of what a slashdash
    /// among the nodes around them leaves out.
    pub left_out: usize,
    /// The slashdashes in this block that wait for a node.
    pub pending: usize,
    /// The slashdashes in the node that is being read that wait for an
    /// entry or a block.
    pub extra: usize,
    /// Whether a node is being read: its name or type has begun and its end
    /// has not come.
    pub in_node: bool,
    /// Whether the name of that node has been read to its end.
    pub named: bool,
    /// Whether a name or an entry is being read: the last byte outside
    /// strings and comments was no space.
    pub in_token: bool,
    /// Whether a backslash has joined the next line to this one.
    pub joined: bool,
}

/// Why a text is not handed to the parser.
#[derive(Clone, Copy, Debug, PartialEq, Eq, Structural)]
pub enum Refusal {
    /// A reserved word of `length` bytes stands at `at`, behind an opening
    /// parenthesis.
    ReservedWord { at: usize, length: usize },
    /// The opening brace at `at` opens a block that is nested deeper than
    /// [`MAX_DEPTH`].
    TooDeep { at: usize },
    /// With the slashdash at `at`, more than [`MAX_SLASHDASHES`] wait for
    /// what they leave out.
    TooManySlashdashes { at: usize },
    /// The opening brace at `at` opens a block that a slashdash leaves out,
    /// nested deeper in other such blocks than [`MAX_LEFT_OUT_DEPTH`].
    LeftOutTooDeep { at: usize },
}

/// What one step of the scan gives: the cursor behind the bytes that it
/// took, or the reason to stop.
pub enum Step {
    On(Cursor),
    Refused(Refusal),
}

/// Whether the byte at `at` is `byte`.
pub open spec fn is_at(bytes: Seq<u8>, at: int, byte: u8) -> bool {
    0 <= at < bytes.len() && bytes[at] == byte
}

/// The number of hashes that stand in a row from `from` on.
pub open spec fn hashes(bytes: Seq<u8>, from: int) -> int
    decreases bytes.len() - from,
{
    if is_at(bytes, from, HASH) {
        1 + hashes(bytes, from + 1)
    } else {
        0
    }
}

/// Whether a line ends at `at`: with a line feed, a carriage return, a form
/// feed, or the encoding of U+0085, U+2028 or U+2029.
#[verifier::opaque]
pub open spec fn newline_at(bytes: Seq<u8>, at: int) -> bool {
    ||| is_at(bytes, at, 0x0A)
    ||| is_at(bytes, at, 0x0D)
    ||| is_at(bytes, at, 0x0C)
    ||| is_at(bytes, at, 0xC2) && is_at(bytes, at + 1, 0x85)
    ||| is_at(bytes, at, 0xE2) && is_at(bytes, at + 1, 0x80) && (is_at(bytes, at + 2, 0xA8)
        || is_at(bytes, at + 2, 0xA9))
}

/// Whether the character that starts at `at` is white space beyond ASCII:
/// the encoding of U+0085, U+00A0, U+1680, U+2000 to U+200A, U+2028, U+2029,
/// U+202F, U+205F, U+3000 or U+FEFF.
#[verifier::opaque]
pub open spec fn wide_space_at(bytes: Seq<u8>, at: int) -> bool {
    ||| is_at(bytes, at, 0xC2) && (is_at(bytes, at + 1, 0x85) || is_at(bytes, at + 1, 0xA0))
    ||| is_at(bytes, at, 0xE1) && is_at(bytes, at + 1, 0x9A) && is_at(bytes, at + 2, 0x80)
    ||| is_at(bytes, at, 0xE2) && is_at(bytes, at + 1, 0x80) && at + 2 < bytes.len() && (0x80
        <= bytes[at + 2] <= 0x8A || bytes[at + 2] == 0xA8 || bytes[at + 2] == 0xA9 || bytes[at
        + 2] == 0xAF)
    ||| is_at(bytes, at, 0xE2) && is_at(bytes, at + 1, 0x81) && is_at(bytes, at + 2, 0x9F)
    ||| is_at(bytes, at, 0xE3) && is_at(bytes, at + 1, 0x80) && is_at(bytes, at + 2, 0x80)
    ||| is_at(bytes, at, 0xEF) && is_at(bytes, at + 1, 0xBB) && is_at(bytes, at + 2, 0xBF)
}

/// Whether `byte` is an ASCII character that cannot stand in a bare
/// identifier: a control character, a space, or one of
/// `\ / ( ) { } < > ; [ ] = , "`.
pub open spec fn ascii_break(byte: u8) -> bool {
    ||| byte <= 0x20
    ||| byte == BACKSLASH
    ||| byte == SLASH
    ||| byte == OPEN_PAREN
    ||| byte == CLOSE_PAREN
    ||| byte == OPEN_BRACE
    ||| byte == CLOSE_BRACE
    ||| byte == LESS_THAN
    ||| byte == GREATER_THAN
    ||| byte == SEMICOLON
    ||| byte == OPEN_BRACKET
    ||| byte == CLOSE_BRACKET
    ||| byte == EQUALS
    ||| byte == COMMA
    ||| byte == QUOTE
}

/// Whether a bare identifier that reaches up to `at` ends there: the text
/// ends, or the character at `at` cannot stand in a bare identifier.
pub open spec fn word_ends_at(bytes: Seq<u8>, at: int) -> bool {
    ||| at >= bytes.len()
    ||| ascii_break(bytes[at])
    ||| wide_space_at(bytes, at)
}

/// Whether `word` stands at `at` as a whole bare identifier.
pub open spec fn word_at(bytes: Seq<u8>, at: int, word: Seq<u8>) -> bool {
    &&& 0 <= at
    &&& at + word.len() <= bytes.len()
    &&& bytes.subrange(at, at + word.len()) == word
    &&& word_ends_at(bytes, at + word.len())
}

/// The length of the reserved word `true`, `null` or `false` that stands at
/// `at` as a whole bare identifier, if one does.
#[verifier::opaque]
pub open spec fn reserved_word_at(bytes: Seq<u8>, at: int) -> Option<int> {
    if word_at(bytes, at, word_true()) {
        Some(4)
    } else if word_at(bytes, at, word_null()) {
        Some(4)
    } else if word_at(bytes, at, word_false()) {
        Some(5)
    } else {
        None
    }
}

/// How many bytes the end of line at `at` takes: two for a carriage return
/// with a line feed behind it, one of any other.
pub open spec fn newline_length(bytes: Seq<u8>, at: int) -> int {
    if is_at(bytes, at, 0x0D) && is_at(bytes, at + 1, 0x0A) {
        2
    } else {
        1
    }
}

/// Whether a node begins or goes on with `byte`: it is no control character,
/// no space, and not the second or a later byte of a character.
pub open spec fn starts_token(bytes: Seq<u8>, at: int) -> bool {
    &&& bytes[at] > 0x20
    &&& !(0x80 <= bytes[at] <= 0xBF)
    &&& !wide_space_at(bytes, at)
}

/// One less, but not less than none.
pub open spec fn one_less(n: usize) -> usize {
    if n > 0 {
        (n - 1) as usize
    } else {
        0
    }
}

/// Whether no more blocks are open than may be, no more slashdashes wait
/// than may, and none of the blocks holds more than may wait.
#[verifier::opaque]
pub open spec fn within_bounds(
    held: Seq<Level>,
    below: usize,
    pending: usize,
    extra: usize,
    left_out: usize,
) -> bool {
    &&& held.len() <= MAX_DEPTH
    &&& left_out <= MAX_LEFT_OUT_DEPTH
    &&& below + pending + extra <= MAX_SLASHDASHES
    &&& forall|i: int|
        0 <= i < held.len() ==> (#[trigger] held[i]).pending + held[i].extra <= MAX_SLASHDASHES
}

impl Cursor {
    /// The cursor at the start of a text.
    pub open spec fn start() -> Cursor {
        Cursor {
            at: 0,
            mode: Mode::Code,
            held: Seq::empty(),
            below: 0,
            left_out: 0,
            pending: 0,
            extra: 0,
            in_node: false,
            named: false,
            in_token: false,
            joined: false,
        }
    }

    /// How many slashdashes wait, in this block and outside it.
    pub open spec fn load(self) -> int {
        self.below + self.pending + self.extra
    }

    /// The cursor `by` bytes on, in the mode `mode`.
    pub open spec fn on(self, by: int, mode: Mode) -> Cursor {
        Cursor { at: (self.at + by) as usize, mode, ..self }
    }

    /// The cursor with a byte of a name or an entry taken.
    #[verifier::opaque]
    pub open spec fn reading(self) -> Cursor {
        Cursor { in_node: true, in_token: true, ..self }
    }

    /// The cursor behind the end of a name or an entry, if one was being
    /// read. The end of the name is noted; the end of an entry is the end of
    /// what the innermost slashdash of the node waited for, if one did.
    #[verifier::opaque]
    pub open spec fn spaced(self) -> Cursor {
        if !self.in_token {
            self
        } else if self.named {
            Cursor { extra: one_less(self.extra), in_token: false, ..self }
        } else {
            Cursor { named: true, in_token: false, ..self }
        }
    }

    /// The cursor behind the end of a line or a semicolon. Where a backslash
    /// has joined the lines, the node goes on. Else the node that is being
    /// read ends: the slashdashes in it are done with, and so is the one
    /// that waited for this node, if one did.
    #[verifier::opaque]
    pub open spec fn line_ended(self) -> Cursor {
        if self.joined {
            Cursor { joined: false, ..self }
        } else if self.in_node {
            Cursor {
                pending: one_less(self.pending),
                extra: 0,
                in_node: false,
                named: false,
                in_token: false,
                ..self
            }
        } else {
            self
        }
    }

    /// The cursor inside a block that opens here: what waits outside is
    /// held, and nothing waits inside yet. Where a slashdash of the node
    /// waits, it is the block that it waits for; where one waits for the
    /// node, the block is part of what that one leaves out.
    #[verifier::opaque]
    pub open spec fn block_opened(self) -> Cursor {
        Cursor {
            held: self.held.push(
                Level {
                    pending: self.pending,
                    extra: self.extra,
                    dashed: self.extra > 0,
                    left_out: self.pending + self.extra > 0,
                },
            ),
            below: (self.below + self.pending + self.extra) as usize,
            left_out: if self.pending + self.extra > 0 {
                (self.left_out + 1) as usize
            } else {
                self.left_out
            },
            pending: 0,
            extra: 0,
            in_node: false,
            named: false,
            in_token: false,
            joined: false,
            ..self
        }
    }

    /// The cursor behind a block that closes here: what was held for the
    /// block waits again, but for the slashdash that waited for the block,
    /// and the node that the block belongs to goes on.
    #[verifier::opaque]
    pub open spec fn block_closed(self) -> Cursor {
        if self.held.len() > 0 {
            let level = self.held.last();
            Cursor {
                held: self.held.drop_last(),
                below: if self.below >= level.pending + level.extra {
                    (self.below - level.pending - level.extra) as usize
                } else {
                    0
                },
                left_out: if level.left_out {
                    one_less(self.left_out)
                } else {
                    self.left_out
                },
                pending: level.pending,
                extra: if level.dashed {
                    one_less(level.extra)
                } else {
                    level.extra
                },
                in_node: true,
                named: true,
                in_token: false,
                joined: false,
                ..self
            }
        } else {
            self
        }
    }

    /// The cursor with one more slashdash waiting: for an entry or a block
    /// where a node is being read, for a node where none is.
    #[verifier::opaque]
    pub open spec fn slashdashed(self) -> Cursor {
        if self.in_node {
            Cursor { extra: (self.extra + 1) as usize, ..self }
        } else {
            Cursor { pending: (self.pending + 1) as usize, ..self }
        }
    }

    /// Whether nothing that the cursor counts is beyond its bound.
    pub open spec fn bounded(self) -> bool {
        within_bounds(self.held, self.below, self.pending, self.extra, self.left_out)
    }

    /// Whether the cursor can stand in `bytes`: it is not beyond the end,
    /// nothing that it counts is beyond its bound, and the count that its
    /// mode keeps is no more than the bytes that it has taken.
    pub open spec fn fits(self, bytes: Seq<u8>) -> bool {
        &&& self.at <= bytes.len()
        &&& self.bounded()
        &&& match self.mode {
            Mode::Raw(n) => n <= self.at,
            Mode::Block(n) => 1 <= n <= self.at,
            _ => true,
        }
    }
}

/// One step of the scan at a slash outside strings and comments: two
/// slashes open a line comment, a slash and a star a block comment, and a
/// slash and a minus are a slashdash, which waits from here on. Each ends the
/// name or entry that was being read.
pub open spec fn slash_step(bytes: Seq<u8>, cursor: Cursor) -> Step {
    let at = cursor.at as int;
    let spaced = cursor.spaced();
    if is_at(bytes, at + 1, SLASH) {
        Step::On(spaced.on(2, Mode::Line))
    } else if is_at(bytes, at + 1, STAR) {
        Step::On(spaced.on(2, Mode::Block(1)))
    } else if is_at(bytes, at + 1, MINUS) {
        if spaced.load() >= MAX_SLASHDASHES {
            Step::Refused(Refusal::TooManySlashdashes { at: cursor.at })
        } else {
            Step::On(spaced.slashdashed().on(2, Mode::Code))
        }
    } else {
        Step::On(cursor.reading().on(1, Mode::Code))
    }
}

/// One step of the scan at a byte that opens no string, comment or block
/// and is no slashdash. A parenthesis may be followed by a reserved word. A
/// backslash joins the next line to this one; the end of a line and a
/// semicolon end the node that is being read. Any other byte that is no
/// space begins a name or an entry or goes on with it; a space ends it.
pub open spec fn plain_step(bytes: Seq<u8>, cursor: Cursor) -> Step {
    let at = cursor.at as int;
    let byte = bytes[at];
    let spaced = cursor.spaced();
    if byte == OPEN_PAREN {
        match reserved_word_at(bytes, at + 1) {
            Some(length) => Step::Refused(
                Refusal::ReservedWord { at: (at + 1) as usize, length: length as usize },
            ),
            None => Step::On(cursor.reading().on(1, Mode::Code)),
        }
    } else if byte == BACKSLASH {
        Step::On(Cursor { joined: true, ..spaced.on(1, Mode::Code) })
    } else if newline_at(bytes, at) {
        Step::On(spaced.line_ended().on(newline_length(bytes, at), Mode::Code))
    } else if byte == SEMICOLON {
        Step::On(spaced.line_ended().on(1, Mode::Code))
    } else if starts_token(bytes, at) {
        Step::On(cursor.reading().on(1, Mode::Code))
    } else if 0x80 <= byte <= 0xBF {
        Step::On(cursor.on(1, Mode::Code))
    } else {
        Step::On(spaced.on(1, Mode::Code))
    }
}

/// One step of the scan outside strings and comments. A quote opens a
/// string; `r`, hashes and a quote open a raw string; both begin a name or
/// an entry or go on with it. Braces open and close blocks, as far as
/// blocks may be nested. For a slash see [`slash_step`], for any other byte
/// [`plain_step`].
pub open spec fn code_step(bytes: Seq<u8>, cursor: Cursor) -> Step {
    let at = cursor.at as int;
    let byte = bytes[at];
    if byte == QUOTE {
        Step::On(cursor.reading().on(1, Mode::Quoted))
    } else if byte == LETTER_R && is_at(bytes, at + 1 + hashes(bytes, at + 1), QUOTE) {
        let n = hashes(bytes, at + 1);
        Step::On(cursor.reading().on(n + 2, Mode::Raw(n as usize)))
    } else if byte == SLASH {
        slash_step(bytes, cursor)
    } else if byte == OPEN_BRACE {
        if cursor.held.len() >= MAX_DEPTH {
            Step::Refused(Refusal::TooDeep { at: cursor.at })
        } else if cursor.spaced().pending + cursor.spaced().extra > 0 && cursor.left_out
            >= MAX_LEFT_OUT_DEPTH {
            Step::Refused(Refusal::LeftOutTooDeep { at: cursor.at })
        } else {
            Step::On(cursor.spaced().block_opened().on(1, Mode::Code))
        }
    } else if byte == CLOSE_BRACE {
        Step::On(cursor.spaced().block_closed().on(1, Mode::Code))
    } else {
        plain_step(bytes, cursor)
    }
}

/// One step of the scan inside a quoted string: a backslash takes the byte
/// behind it along, a quote closes the string.
pub open spec fn quoted_step(bytes: Seq<u8>, cursor: Cursor) -> Step {
    let at = cursor.at as int;
    let byte = bytes[at];
    if byte == BACKSLASH && at + 1 < bytes.len() {
        Step::On(cursor.on(2, Mode::Quoted))
    } else if byte == QUOTE {
        Step::On(cursor.on(1, Mode::Code))
    } else {
        Step::On(cursor.on(1, Mode::Quoted))
    }
}

/// One step of the scan inside a raw string that `n` hashes opened: a quote
/// with at least `n` hashes behind it closes the string.
pub open spec fn raw_step(bytes: Seq<u8>, cursor: Cursor, n: usize) -> Step {
    let at = cursor.at as int;
    if bytes[at] == QUOTE && hashes(bytes, at + 1) >= n {
        Step::On(cursor.on(1 + n, Mode::Code))
    } else {
        Step::On(cursor.on(1, Mode::Raw(n)))
    }
}

/// One step of the scan inside a line comment: the end of the line closes
/// it, and ends the node as it does outside a comment.
pub open spec fn line_step(bytes: Seq<u8>, cursor: Cursor) -> Step {
    let at = cursor.at as int;
    if newline_at(bytes, at) {
        Step::On(cursor.line_ended().on(newline_length(bytes, at), Mode::Code))
    } else {
        Step::On(cursor.on(1, Mode::Line))
    }
}

/// One step of the scan inside `n` block comments: a star and a slash close
/// the innermost, a slash and a star open one more.
pub open spec fn block_step(bytes: Seq<u8>, cursor: Cursor, n: usize) -> Step {
    let at = cursor.at as int;
    let byte = bytes[at];
    if byte == STAR && is_at(bytes, at + 1, SLASH) {
        if n <= 1 {
            Step::On(cursor.on(2, Mode::Code))
        } else {
            Step::On(cursor.on(2, Mode::Block((n - 1) as usize)))
        }
    } else if byte == SLASH && is_at(bytes, at + 1, STAR) {
        Step::On(cursor.on(2, Mode::Block((n + 1) as usize)))
    } else {
        Step::On(cursor.on(1, Mode::Block(n)))
    }
}

/// One step of the scan from `cursor`, which stands before a byte.
pub open spec fn step(bytes: Seq<u8>, cursor: Cursor) -> Step {
    match cursor.mode {
        Mode::Code => code_step(bytes, cursor),
        Mode::Quoted => quoted_step(bytes, cursor),
        Mode::Raw(n) => raw_step(bytes, cursor, n),
        Mode::Line => line_step(bytes, cursor),
        Mode::Block(n) => block_step(bytes, cursor, n),
    }
}

/// What the scan finds from `cursor` on: the first refusal that a step
/// gives, or none up to the end of the text.
pub open spec fn scan_from(bytes: Seq<u8>, cursor: Cursor) -> Option<Refusal>
    decreases bytes.len() - cursor.at,
{
    if cursor.at >= bytes.len() {
        None
    } else {
        match step(bytes, cursor) {
            Step::On(next) => if cursor.at < next.at <= bytes.len() {
                scan_from(bytes, next)
            } else {
                None
            },
            Step::Refused(refusal) => Some(refusal),
        }
    }
}

/// What the scan of a whole text finds.
pub open spec fn scan(bytes: Seq<u8>) -> Option<Refusal> {
    scan_from(bytes, Cursor::start())
}

/// The hashes that stand in a row from `from` on do not reach beyond the
/// text.
pub proof fn lemma_hashes_fit(bytes: Seq<u8>, from: int)
    requires
        0 <= from,
    ensures
        0 <= hashes(bytes, from),
        from < bytes.len() ==> from + hashes(bytes, from) <= bytes.len(),
    decreases bytes.len() - from,
{
    if is_at(bytes, from, HASH) {
        lemma_hashes_fit(bytes, from + 1);
    }
}

/// Whether `next` stands where `cursor` stands, in the same mode.
pub open spec fn stands_with(next: Cursor, cursor: Cursor) -> bool {
    next.at == cursor.at && next.mode == cursor.mode
}

/// What the end of a name, an entry, a line or a block does to a cursor
/// leaves it where it stands, and what it counts within bounds.
pub proof fn lemma_ends_keep_bounds(cursor: Cursor)
    requires
        cursor.bounded(),
    ensures
        cursor.held.len() <= MAX_DEPTH,
        cursor.load() <= MAX_SLASHDASHES,
        cursor.spaced().bounded(),
        cursor.spaced().load() <= cursor.load(),
        cursor.spaced().held == cursor.held,
        cursor.line_ended().bounded(),
        cursor.reading().bounded(),
        cursor.block_closed().bounded(),
        cursor.load() < MAX_SLASHDASHES ==> cursor.slashdashed().bounded(),
        cursor.held.len() < MAX_DEPTH && (cursor.pending + cursor.extra == 0 || cursor.left_out
            < MAX_LEFT_OUT_DEPTH) ==> cursor.block_opened().bounded(),
        cursor.spaced().left_out == cursor.left_out,
        stands_with(cursor.spaced(), cursor),
        stands_with(cursor.line_ended(), cursor),
        stands_with(cursor.reading(), cursor),
        stands_with(cursor.block_closed(), cursor),
        stands_with(cursor.slashdashed(), cursor),
        stands_with(cursor.block_opened(), cursor),
{
    reveal(within_bounds);
    reveal(Cursor::spaced);
    reveal(Cursor::line_ended);
    reveal(Cursor::reading);
    reveal(Cursor::block_closed);
    reveal(Cursor::slashdashed);
    reveal(Cursor::block_opened);
    if cursor.held.len() > 0 {
        let level = cursor.held.last();
        let closed = cursor.block_closed();
        assert(level.pending + level.extra <= MAX_SLASHDASHES);
        assert(closed.held == cursor.held.drop_last());
        assert forall|i: int| 0 <= i < closed.held.len() implies (#[trigger] closed.held[i]).pending
            + closed.held[i].extra <= MAX_SLASHDASHES by {
            assert(closed.held[i] == cursor.held[i]);
        }
    }
    if cursor.held.len() < MAX_DEPTH && (cursor.pending + cursor.extra == 0 || cursor.left_out
        < MAX_LEFT_OUT_DEPTH) {
        let opened = cursor.block_opened();
        assert forall|i: int| 0 <= i < opened.held.len() implies (#[trigger] opened.held[i]).pending
            + opened.held[i].extra <= MAX_SLASHDASHES by {
            if i < cursor.held.len() {
                assert(opened.held[i] == cursor.held[i]);
            }
        }
    }
}

/// A step of the scan outside strings and comments takes at least one byte
/// and leaves the cursor where it can stand.
pub proof fn lemma_code_step_moves_on(bytes: Seq<u8>, cursor: Cursor)
    requires
        bytes.len() <= usize::MAX,
        cursor.fits(bytes),
        cursor.at < bytes.len(),
    ensures
        code_step(bytes, cursor) matches Step::On(next) ==> cursor.at < next.at && next.fits(
            bytes,
        ),
{
    lemma_hashes_fit(bytes, cursor.at + 1);
    lemma_ends_keep_bounds(cursor);
    lemma_ends_keep_bounds(cursor.spaced());
}

/// A step of the scan takes at least one byte and leaves the cursor where
/// it can stand.
pub proof fn lemma_step_moves_on(bytes: Seq<u8>, cursor: Cursor)
    requires
        bytes.len() <= usize::MAX,
        cursor.fits(bytes),
        cursor.at < bytes.len(),
    ensures
        step(bytes, cursor) matches Step::On(next) ==> cursor.at < next.at && next.fits(bytes),
{
    match cursor.mode {
        Mode::Code => {
            lemma_code_step_moves_on(bytes, cursor);
        },
        Mode::Raw(n) => {
            lemma_hashes_fit(bytes, cursor.at + 1);
        },
        Mode::Line => {
            lemma_ends_keep_bounds(cursor);
        },
        _ => {},
    }
}

/// The cursor at the start of a text can stand in it.
pub proof fn lemma_start_fits(bytes: Seq<u8>)
    ensures
        Cursor::start().fits(bytes),
{
    reveal(within_bounds);
}

/// The number of hashes that stand in a row from `from` on.
fn count_hashes(bytes: &[u8], from: usize) -> (n: usize)
    requires
        from <= bytes@.len(),
    ensures
        n == hashes(bytes@, from as int),
        from + n <= bytes@.len(),
{
    let mut to: usize = from;
    while to < bytes.len() && bytes[to] == HASH
        invariant
            from <= to <= bytes@.len(),
            hashes(bytes@, from as int) == (to - from) + hashes(bytes@, to as int),
        decreases bytes@.len() - to,
    {
        to += 1;
    }
    to - from
}

/// Whether the byte at `at` is `byte`.
fn byte_is(bytes: &[u8], at: usize, byte: u8) -> (is: bool)
    ensures
        is == is_at(bytes@, at as int, byte),
{
    at < bytes.len() && bytes[at] == byte
}

/// Whether a line ends at `at`.
fn newline_here(bytes: &[u8], at: usize) -> (ends: bool)
    requires
        at < bytes@.len(),
    ensures
        ends == newline_at(bytes@, at as int),
{
    reveal(newline_at);
    let byte = bytes[at];
    if byte == 0x0A || byte == 0x0D || byte == 0x0C {
        true
    } else if byte == 0xC2 {
        byte_is(bytes, at + 1, 0x85)
    } else if byte == 0xE2 {
        byte_is(bytes, at + 1, 0x80) && at + 2 < bytes.len() && (bytes[at + 2] == 0xA8 || bytes[at
            + 2] == 0xA9)
    } else {
        false
    }
}

/// Whether the character that starts at `at` is white space beyond ASCII.
fn wide_space_here(bytes: &[u8], at: usize) -> (is: bool)
    requires
        at < bytes@.len(),
    ensures
        is == wide_space_at(bytes@, at as int),
{
    reveal(wide_space_at);
    let byte = bytes[at];
    if at + 1 >= bytes.len() {
        return false;
    }
    let second = bytes[at + 1];
    if byte == 0xC2 {
        return second == 0x85 || second == 0xA0;
    }
    if at + 2 >= bytes.len() {
        return false;
    }
    let third = bytes[at + 2];
    if byte == 0xE1 {
        second == 0x9A && third == 0x80
    } else if byte == 0xE2 {
        (second == 0x80 && (0x80 <= third && third <= 0x8A || third == 0xA8 || third == 0xA9
            || third == 0xAF)) || (second == 0x81 && third == 0x9F)
    } else if byte == 0xE3 {
        second == 0x80 && third == 0x80
    } else if byte == 0xEF {
        second == 0xBB && third == 0xBF
    } else {
        false
    }
}

/// Whether `byte` is an ASCII character that cannot stand in a bare
/// identifier.
fn ascii_breaks(byte: u8) -> (breaks: bool)
    ensures
        breaks == ascii_break(byte),
{
    byte <= 0x20 || byte == BACKSLASH || byte == SLASH || byte == OPEN_PAREN || byte
        == CLOSE_PAREN || byte == OPEN_BRACE || byte == CLOSE_BRACE || byte == LESS_THAN || byte
        == GREATER_THAN || byte == SEMICOLON || byte == OPEN_BRACKET || byte == CLOSE_BRACKET
        || byte == EQUALS || byte == COMMA || byte == QUOTE
}

/// Whether a bare identifier that reaches up to `at` ends there.
fn word_ends_here(bytes: &[u8], at: usize) -> (ends: bool)
    requires
        at <= bytes@.len(),
    ensures
        ends == word_ends_at(bytes@, at as int),
{
    at >= bytes.len() || ascii_breaks(bytes[at]) || wide_space_here(bytes, at)
}

/// The length of the reserved word that stands at `at` as a whole bare
/// identifier, if one does.
fn reserved_word_here(bytes: &[u8], at: usize) -> (length: Option<usize>)
    requires
        at <= bytes@.len(),
    ensures
        match length {
            Some(length) => reserved_word_at(bytes@, at as int) == Some(length as int) && at
                + length <= bytes@.len(),
            None => reserved_word_at(bytes@, at as int) is None,
        },
{
    reveal(reserved_word_at);
    let left = bytes.len() - at;
    let four = left >= 4;
    let five = left >= 5;
    let is_true = four && bytes[at] == 0x74 && bytes[at + 1] == 0x72 && bytes[at + 2] == 0x75
        && bytes[at + 3] == 0x65;
    let is_null = four && bytes[at] == 0x6E && bytes[at + 1] == 0x75 && bytes[at + 2] == 0x6C
        && bytes[at + 3] == 0x6C;
    let is_false = five && bytes[at] == 0x66 && bytes[at + 1] == 0x61 && bytes[at + 2] == 0x6C
        && bytes[at + 3] == 0x73 && bytes[at + 4] == 0x65;
    proof {
        let start = at as int;
        if four {
            let window = bytes@.subrange(start, start + 4);
            assert(window[0] == bytes@[start] && window[1] == bytes@[start + 1] && window[2]
                == bytes@[start + 2] && window[3] == bytes@[start + 3]);
            assert(is_true ==> window =~= word_true());
            assert(is_null ==> window =~= word_null());
            assert(window == word_true() ==> is_true);
            assert(window == word_null() ==> is_null);
        }
        if five {
            let window = bytes@.subrange(start, start + 5);
            assert(window[0] == bytes@[start] && window[1] == bytes@[start + 1] && window[2]
                == bytes@[start + 2] && window[3] == bytes@[start + 3] && window[4] == bytes@[start
                + 4]);
            assert(is_false ==> window =~= word_false());
            assert(window == word_false() ==> is_false);
        }
    }
    if is_true && word_ends_here(bytes, at + 4) {
        Some(4)
    } else if is_null && word_ends_here(bytes, at + 4) {
        Some(4)
    } else if is_false && word_ends_here(bytes, at + 5) {
        Some(5)
    } else {
        None
    }
}

/// The scan as it runs: the cursor, with what it holds in a vector.
struct Scanner {
    at: usize,
    mode: Mode,
    held: Vec<Level>,
    below: usize,
    left_out: usize,
    pending: usize,
    extra: usize,
    in_node: bool,
    named: bool,
    in_token: bool,
    joined: bool,
}

impl View for Scanner {
    type V = Cursor;

    closed spec fn view(&self) -> Cursor {
        Cursor {
            at: self.at,
            mode: self.mode,
            held: self.held@,
            below: self.below,
            left_out: self.left_out,
            pending: self.pending,
            extra: self.extra,
            in_node: self.in_node,
            named: self.named,
            in_token: self.in_token,
            joined: self.joined,
        }
    }
}

impl Scanner {
    /// What the end of a line or a semicolon does to the node that is being
    /// read.
    fn end_line(&mut self)
        ensures
            final(self)@ == old(self)@.line_ended(),
    {
        reveal(Cursor::line_ended);
        if self.joined {
            self.joined = false;
        } else if self.in_node {
            if self.pending > 0 {
                self.pending = self.pending - 1;
            }
            self.extra = 0;
            self.in_node = false;
            self.named = false;
            self.in_token = false;
        }
    }

    /// What a space, or anything else that is no part of a name or entry,
    /// does to the name or entry that is being read.
    fn end_token(&mut self)
        ensures
            final(self)@ == old(self)@.spaced(),
    {
        reveal(Cursor::spaced);
        if self.in_token {
            if self.named {
                if self.extra > 0 {
                    self.extra = self.extra - 1;
                }
            } else {
                self.named = true;
            }
            self.in_token = false;
        }
    }

    /// What a byte of a name or an entry does.
    fn read(&mut self)
        ensures
            final(self)@ == old(self)@.reading(),
    {
        reveal(Cursor::reading);
        self.in_node = true;
        self.in_token = true;
    }

    /// What a slashdash does, where one more may wait.
    fn slashdash(&mut self)
        requires
            old(self)@.load() < MAX_SLASHDASHES,
        ensures
            final(self)@ == old(self)@.slashdashed(),
    {
        reveal(Cursor::slashdashed);
        if self.in_node {
            self.extra = self.extra + 1;
        } else {
            self.pending = self.pending + 1;
        }
    }

    /// What an opening brace does, where one more block may be open.
    fn open_block(&mut self)
        requires
            old(self)@.bounded(),
            old(self)@.held.len() < MAX_DEPTH,
            old(self)@.pending + old(self)@.extra == 0 || old(self)@.left_out
                < MAX_LEFT_OUT_DEPTH,
        ensures
            final(self)@ == old(self)@.block_opened(),
    {
        proof {
            reveal(within_bounds);
            reveal(Cursor::block_opened);
        }
        let left_out = self.pending + self.extra > 0;
        self.held.push(
            Level { pending: self.pending, extra: self.extra, dashed: self.extra > 0, left_out },
        );
        self.below = self.below + self.pending + self.extra;
        if left_out {
            self.left_out = self.left_out + 1;
        }
        self.pending = 0;
        self.extra = 0;
        self.in_node = false;
        self.named = false;
        self.in_token = false;
        self.joined = false;
    }

    /// What a closing brace does.
    fn close_block(&mut self)
        requires
            old(self)@.bounded(),
        ensures
            final(self)@ == old(self)@.block_closed(),
    {
        proof {
            reveal(within_bounds);
            reveal(Cursor::block_closed);
            if self.held.len() > 0 {
                assert(self.held@.last().pending + self.held@.last().extra <= MAX_SLASHDASHES);
            }
        }
        if let Some(level) = self.held.pop() {
            self.below = if self.below >= level.pending + level.extra {
                self.below - level.pending - level.extra
            } else {
                0
            };
            if level.left_out && self.left_out > 0 {
                self.left_out = self.left_out - 1;
            }
            self.pending = level.pending;
            self.extra = if level.dashed && level.extra > 0 {
                level.extra - 1
            } else {
                level.extra
            };
            self.in_node = true;
            self.named = true;
            self.in_token = false;
            self.joined = false;
        }
    }

    /// One step of the scan at a slash outside strings and comments.
    fn advance_slash(&mut self, bytes: &[u8]) -> (refusal: Option<Refusal>)
        requires
            old(self)@.mode == Mode::Code,
            old(self)@.at < bytes@.len(),
            old(self)@.fits(bytes@),
            bytes@[old(self)@.at as int] == SLASH,
        ensures
            slash_step(bytes@, old(self)@) == (match refusal {
                Some(refusal) => Step::Refused(refusal),
                None => Step::On(final(self)@),
            }),
    {
        let at = self.at;
        let size = bytes.len();
        proof {
            assert(at < size);
            lemma_ends_keep_bounds(self@);
            lemma_ends_keep_bounds(self@.spaced());
        }
        if byte_is(bytes, at + 1, SLASH) {
            self.end_token();
            self.at = at + 2;
            self.mode = Mode::Line;
            None
        } else if byte_is(bytes, at + 1, STAR) {
            self.end_token();
            self.at = at + 2;
            self.mode = Mode::Block(1);
            None
        } else if byte_is(bytes, at + 1, MINUS) {
            self.end_token();
            if self.below + self.pending + self.extra >= MAX_SLASHDASHES {
                return Some(Refusal::TooManySlashdashes { at });
            }
            self.slashdash();
            self.at = at + 2;
            None
        } else {
            self.read();
            self.at = at + 1;
            None
        }
    }

    /// One step of the scan at a byte that opens no string, comment or
    /// block and is no slashdash.
    fn advance_plain(&mut self, bytes: &[u8]) -> (refusal: Option<Refusal>)
        requires
            old(self)@.mode == Mode::Code,
            old(self)@.at < bytes@.len(),
            old(self)@.fits(bytes@),
        ensures
            plain_step(bytes@, old(self)@) == (match refusal {
                Some(refusal) => Step::Refused(refusal),
                None => Step::On(final(self)@),
            }),
    {
        let at = self.at;
        let byte = bytes[at];
        proof {
            lemma_ends_keep_bounds(self@);
            lemma_ends_keep_bounds(self@.spaced());
        }
        if byte == OPEN_PAREN {
            if let Some(length) = reserved_word_here(bytes, at + 1) {
                return Some(Refusal::ReservedWord { at: at + 1, length });
            }
            self.read();
            self.at = at + 1;
            return None;
        }
        if byte == BACKSLASH {
            self.end_token();
            self.joined = true;
            self.at = at + 1;
            return None;
        }
        if newline_here(bytes, at) {
            let length: usize = if byte == 0x0D && byte_is(bytes, at + 1, 0x0A) {
                2
            } else {
                1
            };
            self.end_token();
            self.end_line();
            self.at = at + length;
            return None;
        }
        if byte == SEMICOLON {
            self.end_token();
            self.end_line();
            self.at = at + 1;
            return None;
        }
        if byte > 0x20 && !(0x80 <= byte && byte <= 0xBF) && !wide_space_here(bytes, at) {
            self.read();
        } else if !(0x80 <= byte && byte <= 0xBF) {
            self.end_token();
        }
        self.at = at + 1;
        None
    }

    /// One step of the scan outside strings and comments.
    fn advance_code(&mut self, bytes: &[u8]) -> (refusal: Option<Refusal>)
        requires
            old(self)@.mode == Mode::Code,
            old(self)@.at < bytes@.len(),
            old(self)@.fits(bytes@),
        ensures
            step(bytes@, old(self)@) == (match refusal {
                Some(refusal) => Step::Refused(refusal),
                None => Step::On(final(self)@),
            }),
    {
        let at = self.at;
        let byte = bytes[at];
        proof {
            lemma_ends_keep_bounds(self@);
            lemma_ends_keep_bounds(self@.spaced());
            lemma_hashes_fit(bytes@, at + 1);
        }
        if byte == QUOTE {
            self.read();
            self.at = at + 1;
            self.mode = Mode::Quoted;
            return None;
        }
        if byte == LETTER_R {
            let n = count_hashes(bytes, at + 1);
            if byte_is(bytes, at + 1 + n, QUOTE) {
                self.read();
                self.at = at + n + 2;
                self.mode = Mode::Raw(n);
                return None;
            }
        }
        if byte == SLASH {
            return self.advance_slash(bytes);
        }
        if byte == OPEN_BRACE {
            if self.held.len() >= MAX_DEPTH {
                return Some(Refusal::TooDeep { at });
            }
            self.end_token();
            if self.pending + self.extra > 0 && self.left_out >= MAX_LEFT_OUT_DEPTH {
                return Some(Refusal::LeftOutTooDeep { at });
            }
            self.open_block();
            self.at = at + 1;
            return None;
        }
        if byte == CLOSE_BRACE {
            self.end_token();
            self.close_block();
            self.at = at + 1;
            return None;
        }
        self.advance_plain(bytes)
    }

    /// One step of the scan inside block comments.
    fn advance_block(&mut self, bytes: &[u8], n: usize) -> (refusal: Option<Refusal>)
        requires
            old(self)@.mode == Mode::Block(n),
            old(self)@.at < bytes@.len(),
            old(self)@.fits(bytes@),
        ensures
            step(bytes@, old(self)@) == (match refusal {
                Some(refusal) => Step::Refused(refusal),
                None => Step::On(final(self)@),
            }),
    {
        let at = self.at;
        let byte = bytes[at];
        let size = bytes.len();
        if byte == STAR && byte_is(bytes, at + 1, SLASH) {
            self.at = at + 2;
            self.mode = if n <= 1 {
                Mode::Code
            } else {
                Mode::Block(n - 1)
            };
        } else if byte == SLASH && byte_is(bytes, at + 1, STAR) {
            self.at = at + 2;
            self.mode = Mode::Block(n + 1);
        } else {
            self.at = at + 1;
        }
        None
    }

    /// One step of the scan.
    fn advance(&mut self, bytes: &[u8]) -> (refusal: Option<Refusal>)
        requires
            old(self)@.at < bytes@.len(),
            old(self)@.fits(bytes@),
        ensures
            step(bytes@, old(self)@) == (match refusal {
                Some(refusal) => Step::Refused(refusal),
                None => Step::On(final(self)@),
            }),
            refusal is None ==> old(self)@.at < final(self)@.at && final(self)@.fits(bytes@),
    {
        let size = bytes.len();
        proof {
            assert(bytes@.len() == size);
            lemma_step_moves_on(bytes@, self@);
            lemma_ends_keep_bounds(self@);
        }
        let at = self.at;
        let byte = bytes[at];
        match self.mode {
            Mode::Code => self.advance_code(bytes),
            Mode::Quoted => {
                if byte == BACKSLASH && at + 1 < bytes.len() {
                    self.at = at + 2;
                } else if byte == QUOTE {
                    self.at = at + 1;
                    self.mode = Mode::Code;
                } else {
                    self.at = at + 1;
                }
                None
            },
            Mode::Raw(n) => {
                if byte == QUOTE && count_hashes(bytes, at + 1) >= n {
                    self.at = at + 1 + n;
                    self.mode = Mode::Code;
                } else {
                    self.at = at + 1;
                }
                None
            },
            Mode::Line => {
                if newline_here(bytes, at) {
                    let length: usize = if byte == 0x0D && byte_is(bytes, at + 1, 0x0A) {
                        2
                    } else {
                        1
                    };
                    self.end_line();
                    self.at = at + length;
                    self.mode = Mode::Code;
                } else {
                    self.at = at + 1;
                }
                None
            },
            Mode::Block(n) => self.advance_block(bytes, n),
        }
    }
}

/// Scans `text` for what the parser must not be handed, outside strings and
/// comments: the first reserved word behind an opening parenthesis, the
/// first block nested deeper than [`MAX_DEPTH`], the first block that
/// slashdashes leave out nested deeper in others than
/// [`MAX_LEFT_OUT_DEPTH`], or the first slashdash with which more than
/// [`MAX_SLASHDASHES`] wait.
pub fn scan_text(text: &str) -> (found: Option<Refusal>)
    ensures
        found == scan(encode_utf8(text@)),
{
    let bytes = text.as_bytes();
    let mut scanner = Scanner {
        at: 0,
        mode: Mode::Code,
        held: Vec::new(),
        below: 0,
        left_out: 0,
        pending: 0,
        extra: 0,
        in_node: false,
        named: false,
        in_token: false,
        joined: false,
    };
    proof {
        reveal(within_bounds);
        assert(scanner@ == Cursor::start());
    }
    while scanner.at < bytes.len()
        invariant
            bytes@ == encode_utf8(text@),
            scanner@.fits(bytes@),
            scan_from(bytes@, scanner@) == scan(bytes@),
        decreases bytes@.len() - scanner@.at,
    {
        if let Some(refusal) = scanner.advance(bytes) {
            return Some(refusal);
        }
    }
    None
}

/// What the parser is handed in place of a text: the bytes, and for each
/// semicolon that was put in its index among them.
pub struct Layout {
    pub bytes: Seq<u8>,
    pub shifts: Seq<usize>,
}

/// Whether the brace at the cursor closes a block in which a node is still
/// being read: one that has no end of its own before the brace.
pub open spec fn closes_open_node(bytes: Seq<u8>, cursor: Cursor) -> bool {
    &&& cursor.mode == Mode::Code
    &&& bytes[cursor.at as int] == CLOSE_BRACE
    &&& cursor.in_node
    &&& cursor.held.len() > 0
}

/// Whether the bytes at the cursor are inside a block comment: the cursor
/// is in one, and what it stands before does not close the outermost.
pub open spec fn inside_comment(bytes: Seq<u8>, cursor: Cursor) -> bool {
    cursor.mode matches Mode::Block(n) && !(n <= 1 && bytes[cursor.at as int] == STAR && is_at(
        bytes,
        cursor.at + 1,
        SLASH,
    ))
}

/// A space for a star or a slash, any other byte as it is.
pub open spec fn blank(byte: u8) -> u8 {
    if byte == STAR || byte == SLASH {
        SPACE
    } else {
        byte
    }
}

/// What is laid out for the bytes from `at` up to `next`: a semicolon and
/// the brace where `closing` says that the brace closes a block with a node
/// still open; the bytes with spaces for stars and slashes where `inside`
/// says that they are inside a block comment; else the bytes as they are.
pub open spec fn laid_for(bytes: Seq<u8>, at: int, next: int, closing: bool, inside: bool) -> Seq<
    u8,
> {
    if closing {
        seq![SEMICOLON, CLOSE_BRACE]
    } else if inside {
        bytes.subrange(at, next).map_values(|byte: u8| blank(byte))
    } else {
        bytes.subrange(at, next)
    }
}

/// The layout from `cursor` on, behind what is `done`: step by step, what
/// [`laid_for`] gives for the bytes that the step takes, and the index of
/// each semicolon that is put in.
pub open spec fn laid_from(bytes: Seq<u8>, cursor: Cursor, done: Layout) -> Layout
    decreases bytes.len() - cursor.at,
{
    if cursor.at >= bytes.len() {
        done
    } else {
        match step(bytes, cursor) {
            Step::On(next) => if cursor.at < next.at <= bytes.len() {
                laid_from(
                    bytes,
                    next,
                    Layout {
                        bytes: done.bytes + laid_for(
                            bytes,
                            cursor.at as int,
                            next.at as int,
                            closes_open_node(bytes, cursor),
                            inside_comment(bytes, cursor),
                        ),
                        shifts: if closes_open_node(bytes, cursor) {
                            done.shifts.push(done.bytes.len() as usize)
                        } else {
                            done.shifts
                        },
                    },
                )
            } else {
                done
            },
            Step::Refused(_) => done,
        }
    }
}

/// The layout of a whole text. Every block comment is one run of
/// characters between its outermost delimiters, with spaces where it had
/// stars and slashes; and every node that is still open where its block
/// closes has a semicolon for its end. All else is as it was.
pub open spec fn laid(bytes: Seq<u8>) -> Layout {
    laid_from(bytes, Cursor::start(), Layout { bytes: Seq::empty(), shifts: Seq::empty() })
}

/// Whether `bytes` are the layout of a text that the scan lets through.
pub open spec fn ready(bytes: Seq<u8>) -> bool {
    exists|origin: Seq<u8>| #[trigger] scan(origin) is None && laid(origin).bytes == bytes
}

/// How many semicolons were put in before `position` of the layout.
pub open spec fn put_before(shifts: Seq<usize>, position: int) -> int
    decreases shifts.len(),
{
    if shifts.len() == 0 {
        0
    } else {
        put_before(shifts.drop_last(), position) + if shifts.last() < position {
            1int
        } else {
            0int
        }
    }
}

/// The index in the text of what stands at `position` of its layout.
pub open spec fn back(shifts: Seq<usize>, position: int) -> int {
    if position >= put_before(shifts, position) {
        position - put_before(shifts, position)
    } else {
        0
    }
}

/// The layout of a text as it is handed on.
pub struct Laid {
    pub bytes: Vec<u8>,
    pub shifts: Vec<usize>,
}

impl View for Laid {
    type V = Layout;

    open spec fn view(&self) -> Layout {
        Layout { bytes: self.bytes@, shifts: self.shifts@ }
    }
}

/// The index in the text of what stands at `position` of its layout.
pub fn shifted_back(shifts: &Vec<usize>, position: usize) -> (index: usize)
    ensures
        index == back(shifts@, position as int),
{
    let mut before: usize = 0;
    let mut i: usize = 0;
    while i < shifts.len()
        invariant
            i <= shifts.len(),
            before <= i,
            before == put_before(shifts@.take(i as int), position as int),
        decreases shifts.len() - i,
    {
        proof {
            assert(shifts@.take(i + 1).drop_last() =~= shifts@.take(i as int));
        }
        if shifts[i] < position {
            before += 1;
        }
        i += 1;
    }
    proof {
        assert(shifts@.take(shifts.len() as int) =~= shifts@);
    }
    if position >= before {
        position - before
    } else {
        0
    }
}

/// Lays out the bytes from `at` up to `next` behind `out`.
fn put_out(
    bytes: &[u8],
    at: usize,
    next: usize,
    closing: bool,
    inside: bool,
    out: &mut Vec<u8>,
    shifts: &mut Vec<usize>,
)
    requires
        at < next <= bytes@.len(),
        closing ==> bytes@[at as int] == CLOSE_BRACE && next == at + 1,
        inside ==> next <= at + 2,
        inside && next == at + 2 ==> {
            &&& bytes@[at as int] == STAR || bytes@[at as int] == SLASH
            &&& bytes@[at + 1] == STAR || bytes@[at + 1] == SLASH
        },
        valid_utf8(old(out)@ + bytes@.subrange(at as int, bytes@.len() as int)),
    ensures
        final(out)@ == old(out)@ + laid_for(bytes@, at as int, next as int, closing, inside),
        final(shifts)@ == (if closing {
            old(shifts)@.push(old(out)@.len() as usize)
        } else {
            old(shifts)@
        }),
        valid_utf8(final(out)@ + bytes@.subrange(next as int, bytes@.len() as int)),
{
    let ghost before = out@;
    let ghost rest = bytes@.subrange(at as int, bytes@.len() as int);
    let ghost after = bytes@.subrange(next as int, bytes@.len() as int);
    let ghost whole = before + rest;
    if closing {
        shifts.push(out.len());
        out.push(SEMICOLON);
        out.push(CLOSE_BRACE);
        proof {
            let put = seq![SEMICOLON, CLOSE_BRACE];
            assert(all_ascii(put));
            lemma_splice_keeps_valid(whole, before.len() as int, put);
            assert(whole.subrange(0, before.len() as int) =~= before);
            assert(whole.subrange(before.len() as int + 1, whole.len() as int) =~= after);
            assert(out@ =~= before + put);
        }
    } else if inside {
        let first = bytes[at];
        let blanked = first == STAR || first == SLASH;
        out.push(
            if blanked {
                SPACE
            } else {
                first
            },
        );
        let ghost middle = bytes@.subrange(at + 1, bytes@.len() as int);
        proof {
            if blanked {
                let put = seq![SPACE];
                assert(all_ascii(put));
                lemma_splice_keeps_valid(whole, before.len() as int, put);
                assert(whole.subrange(0, before.len() as int) =~= before);
                assert(whole.subrange(before.len() as int + 1, whole.len() as int) =~= middle);
                assert(out@ =~= before + put);
            } else {
                assert(out@ + middle =~= whole);
            }
        }
        if next - at == 2 {
            let ghost once = out@;
            let ghost whole_once = once + middle;
            out.push(SPACE);
            proof {
                let put = seq![SPACE];
                assert(all_ascii(put));
                lemma_splice_keeps_valid(whole_once, once.len() as int, put);
                assert(whole_once.subrange(0, once.len() as int) =~= once);
                assert(whole_once.subrange(once.len() as int + 1, whole_once.len() as int) =~= after);
                assert(out@ =~= once + put);
            }
        }
        proof {
            assert(out@ =~= before + laid_for(bytes@, at as int, next as int, closing, inside));
        }
    } else {
        let mut i: usize = at;
        while i < next
            invariant
                at <= i <= next <= bytes@.len(),
                out@ == before + bytes@.subrange(at as int, i as int),
            decreases next - i,
        {
            out.push(bytes[i]);
            proof {
                assert(out@ =~= before + bytes@.subrange(at as int, i + 1));
            }
            i += 1;
        }
        proof {
            assert(out@ + after =~= whole);
        }
    }
}

/// Lays out `text` for the parser, unless the scan finds what the parser
/// must not be handed.
pub fn lay_out(text: &str) -> (laid: Result<Laid, Refusal>)
    ensures
        match laid {
            Ok(laid) => {
                &&& scan(encode_utf8(text@)) is None
                &&& laid@ == self::laid(encode_utf8(text@))
                &&& valid_utf8(laid.bytes@)
                &&& ready(laid.bytes@)
            },
            Err(refusal) => scan(encode_utf8(text@)) == Some(refusal),
        },
{
    let bytes = text.as_bytes();
    let size = bytes.len();
    let mut scanner = Scanner {
        at: 0,
        mode: Mode::Code,
        held: Vec::new(),
        below: 0,
        left_out: 0,
        pending: 0,
        extra: 0,
        in_node: false,
        named: false,
        in_token: false,
        joined: false,
    };
    let mut out: Vec<u8> = Vec::new();
    let mut shifts: Vec<usize> = Vec::new();
    proof {
        reveal(within_bounds);
        assert(scanner@ == Cursor::start());
        encode_utf8_valid_utf8(text@);
        assert(out@ + bytes@.subrange(0, size as int) =~= bytes@);
        assert(out@ =~= Seq::<u8>::empty());
        assert(shifts@ =~= Seq::<usize>::empty());
    }
    while scanner.at < size
        invariant
            size == bytes@.len(),
            bytes@ == encode_utf8(text@),
            scanner@.fits(bytes@),
            scan_from(bytes@, scanner@) == scan(bytes@),
            laid_from(bytes@, scanner@, Layout { bytes: out@, shifts: shifts@ }) == self::laid(
                bytes@,
            ),
            valid_utf8(out@ + bytes@.subrange(scanner@.at as int, size as int)),
        decreases size - scanner@.at,
    {
        let at = scanner.at;
        let byte = bytes[at];
        let ghost before = scanner@;
        let closing = match scanner.mode {
            Mode::Code => byte == CLOSE_BRACE && scanner.in_node && scanner.held.len() > 0,
            _ => false,
        };
        let inside = match scanner.mode {
            Mode::Block(n) => !(n <= 1 && byte == STAR && byte_is(bytes, at + 1, SLASH)),
            _ => false,
        };
        proof {
            assert(closing == closes_open_node(bytes@, before));
            assert(inside == inside_comment(bytes@, before));
            if closing {
                reveal(Cursor::spaced);
                reveal(Cursor::block_closed);
            }
        }
        if let Some(refusal) = scanner.advance(bytes) {
            return Err(refusal);
        }
        let ghost length = out@.len();
        let _ = out.len();
        put_out(bytes, at, scanner.at, closing, inside, &mut out, &mut shifts);
    }
    proof {
        assert(out@ + bytes@.subrange(size as int, size as int) =~= out@);
        assert(scan(bytes@) is None && self::laid(bytes@).bytes == out@);
    }
    Ok(Laid { bytes: out, shifts })
}

} // verus!
