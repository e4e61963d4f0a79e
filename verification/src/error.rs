//! The error and label model: span representation, the error taxonomy, and the
//! construction protocol that parsers raise failures through.

use vstd::prelude::*;
use crate::text::{CharLabel, IdentKind};

verus! {

/// A half-open range of offsets into the source.
#[derive(Clone, Copy, Debug, PartialEq, Eq, Structural)]
pub struct Span {
    pub start: usize,
    pub end: usize,
}

/// The mathematical image of a [`Span`]: the same half-open range over
/// unbounded integers, as the contracts speak of it.
pub struct SpanV {
    pub start: int,
    pub end: int,
}

impl View for Span {
    type V = SpanV;

    open spec fn view(&self) -> SpanV {
        SpanV { start: self.start as int, end: self.end as int }
    }
}

impl Span {
    pub fn new(start: usize, end: usize) -> (r: Span)
        ensures
            r.start == start,
            r.end == end,
    {
        Span { start, end }
    }
}

/// The mathematical image of a label: each label type a failure can carry,
/// reduced to sequences and plain values.
pub enum LabelV {
    Filtering(Seq<char>),
    OneOf(Seq<char>),
    NoneOf(Seq<char>),
    NotEnough { expected: usize, found: usize },
    ExpectedIdent(IdentKind),
    ExpectedKeyword(Seq<char>),
    ExpectedDigit(u32),
    Newline,
    Whitespace,
    InlineWhitespace,
}

/// The mathematical image of an error value: the full taxonomy of failures,
/// over sequences and plain values.
pub enum ErrV {
    /// Expected end of input at `span`, but a token was found.
    ExpectedEofFound { span: SpanV, found: char },
    /// Unexpected end of input at `span`, with the tokens that would have been accepted.
    UnexpectedEof { span: SpanV, expected: Option<Seq<char>> },
    /// Expected one of `expected` at `span`, but `found` was there.
    ExpectedTokenFound { span: SpanV, expected: Seq<char>, found: char },
    /// A domain-specific failure described by a label.
    Label { span: SpanV, label: LabelV, last_token: Option<char> },
}

/// A label raised when a `filter` predicate rejects a value; carries a
/// description of what was being filtered for.
#[derive(Clone, Debug, PartialEq, Eq)]
pub struct Filtering(pub String);

/// Creates a [`Filtering`] label from a description.
pub fn filtering(what: &str) -> (r: Filtering)
    ensures
        r.0@ == what@,
{
    Filtering(what.to_owned())
}

/// A label raised by the token-class primitives `one_of` and `none_of`, and by
/// the repetition protocol when a minimum count is not met.
#[derive(Clone, Debug, PartialEq, Eq)]
pub enum SeqLabel {
    /// Expected one of the contained tokens.
    OneOf(Vec<char>),
    /// Expected anything but the contained tokens.
    NoneOf(Vec<char>),
    /// A repetition ended before its minimum count of elements was reached.
    NotEnough { expected: usize, found: usize },
}

impl View for SeqLabel {
    type V = LabelV;

    open spec fn view(&self) -> LabelV {
        match self {
            SeqLabel::OneOf(v) => LabelV::OneOf(v@),
            SeqLabel::NoneOf(v) => LabelV::NoneOf(v@),
            SeqLabel::NotEnough { expected, found } => (LabelV::NotEnough {
                expected: *expected,
                found: *found,
            }),
        }
    }
}

/// The concrete error type of this library: one variant per member of the
/// error taxonomy, each carrying the span where it occurred.
#[derive(Clone, Debug, PartialEq, Eq)]
pub enum Simple {
    /// Expected end of input, but found a token.
    ExpectedEOF { found: char, span: Span },
    /// Unexpected end of input, optionally with the tokens that were expected.
    UnexpectedEOF { span: Span, expected: Option<Vec<char>> },
    /// Expected one of a set of tokens, found another.
    ExpectedTokenFound { span: Span, expected: Vec<char>, found: char },
    /// A failure raised from a textual label.
    Text { span: Span, error: CharLabel, last_token: Option<char> },
    /// A failure raised from a token-class label.
    Sequence { span: Span, label: SeqLabel, last_token: Option<char> },
    /// A failure raised from a filter label.
    Filtering { span: Span, label: Filtering, last_token: Option<char> },
}

impl View for Simple {
    type V = ErrV;

    open spec fn view(&self) -> ErrV {
        match self {
            Simple::ExpectedEOF { found, span } => (ErrV::ExpectedEofFound {
                span: span@,
                found: *found,
            }),
            Simple::UnexpectedEOF { span, expected } => (ErrV::UnexpectedEof {
                span: span@,
                expected: match expected {
                    Some(v) => Some(v@),
                    None => None,
                },
            }),
            Simple::ExpectedTokenFound { span, expected, found } => (ErrV::ExpectedTokenFound {
                span: span@,
                expected: expected@,
                found: *found,
            }),
            Simple::Text { span, error, last_token } => (ErrV::Label {
                span: span@,
                label: error@,
                last_token: *last_token,
            }),
            Simple::Sequence { span, label, last_token } => (ErrV::Label {
                span: span@,
                label: label@,
                last_token: *last_token,
            }),
            Simple::Filtering { span, label, last_token } => (ErrV::Label {
                span: span@,
                label: LabelV::Filtering(label.0@),
                last_token: *last_token,
            }),
        }
    }
}

/// The construction protocol every concrete error type offers: how the
/// fundamental failures are built, each constructor pinned to the
/// mathematical image of the failure it builds. [`Simple`] is this
/// library's implementation.
pub trait Error: Sized + View<V = ErrV> {
    /// Expected end of input at `span`, found `found`.
    fn expected_eof_found(span: Span, found: char) -> (r: Self)
        ensures
            r@ == (ErrV::ExpectedEofFound { span: span@, found }),
    ;

    /// Unexpected end of input at `span`.
    fn unexpected_eof(span: Span, expected: Option<Vec<char>>) -> (r: Self)
        ensures
            r@ == (ErrV::UnexpectedEof {
                span: span@,
                expected: match expected {
                    Some(v) => Some(v@),
                    None => None,
                },
            }),
    ;

    /// Expected one of `expected` at `span`, found `found`.
    fn expected_token_found(span: Span, expected: Vec<char>, found: char) -> (r: Self)
        ensures
            r@ == (ErrV::ExpectedTokenFound { span: span@, expected: expected@, found }),
    ;

    /// Expected one of `expected` at `span`, found either a token or the end
    /// of the input: the token-mismatch failure when a token was found, the
    /// end-of-input failure otherwise.
    fn expected_token_found_or_eof(span: Span, expected: Vec<char>, found: Option<char>) -> (r:
        Self)
        ensures
            (match found {
                Some(t) => r@ == (ErrV::ExpectedTokenFound {
                    span: span@,
                    expected: expected@,
                    found: t,
                }),
                None => r@ == (ErrV::UnexpectedEof { span: span@, expected: Some(expected@) }),
            }),
    {
        match found {
            Some(found) => Self::expected_token_found(span, expected, found),
            None => Self::unexpected_eof(span, Some(expected)),
        }
    }
}

impl Error for Simple {
    fn expected_eof_found(span: Span, found: char) -> Self {
        Simple::ExpectedEOF { found, span }
    }

    fn unexpected_eof(span: Span, expected: Option<Vec<char>>) -> Self {
        Simple::UnexpectedEOF { span, expected }
    }

    fn expected_token_found(span: Span, expected: Vec<char>, found: char) -> Self {
        Simple::ExpectedTokenFound { span, expected, found }
    }
}

impl Simple {
    /// An equal copy of this error: same variant, same mathematical image.
    pub fn dup(&self) -> (r: Simple)
        ensures
            r@ == self@,
    {
        match self {
            Simple::ExpectedEOF { found, span } => Simple::ExpectedEOF {
                found: *found,
                span: *span,
            },
            Simple::UnexpectedEOF { span, expected } => Simple::UnexpectedEOF {
                span: *span,
                expected: match expected {
                    Some(v) => Some(v.clone()),
                    None => None,
                },
            },
            Simple::ExpectedTokenFound { span, expected, found } => Simple::ExpectedTokenFound {
                span: *span,
                expected: expected.clone(),
                found: *found,
            },
            Simple::Text { span, error, last_token } => Simple::Text {
                span: *span,
                error: error.dup(),
                last_token: *last_token,
            },
            Simple::Sequence { span, label, last_token } => Simple::Sequence {
                span: *span,
                label: label.dup(),
                last_token: *last_token,
            },
            Simple::Filtering { span, label, last_token } => Simple::Filtering {
                span: *span,
                label: label.dup(),
                last_token: *last_token,
            },
        }
    }
}

/// A label type: a domain-specific error cause with a mathematical image,
/// which can be duplicated without changing that image (parsers hold a label
/// and raise a copy of it at each failure).
pub trait Label: Sized {
    /// The mathematical image of this label.
    spec fn lv(&self) -> LabelV;

    /// An equal copy of this label.
    fn dup(&self) -> (r: Self)
        ensures
            r.lv() == self.lv(),
    ;
}

impl Label for Filtering {
    open spec fn lv(&self) -> LabelV {
        LabelV::Filtering(self.0@)
    }

    fn dup(&self) -> Filtering {
        Filtering(self.0.clone())
    }
}

impl Label for SeqLabel {
    open spec fn lv(&self) -> LabelV {
        self@
    }

    fn dup(&self) -> SeqLabel {
        match self {
            SeqLabel::OneOf(v) => SeqLabel::OneOf(v.clone()),
            SeqLabel::NoneOf(v) => SeqLabel::NoneOf(v.clone()),
            SeqLabel::NotEnough { expected, found } => (SeqLabel::NotEnough {
                expected: *expected,
                found: *found,
            }),
        }
    }
}

/// The label extension point: a concrete error type declares support for a
/// label type `L` by saying how a failure labelled with it is built.
pub trait LabelError<L: Label>: Sized + View<V = ErrV> {
    /// A failure described by `label` at `span`; `last_token` is the token
    /// just before the failure point, if any.
    fn from_label(span: Span, label: L, last_token: Option<char>) -> (r: Self)
        ensures
            r@ == (ErrV::Label { span: span@, label: label.lv(), last_token }),
    ;
}

impl LabelError<Filtering> for Simple {
    fn from_label(span: Span, label: Filtering, last_token: Option<char>) -> Self {
        Simple::Filtering { span, label, last_token }
    }
}

impl LabelError<SeqLabel> for Simple {
    fn from_label(span: Span, label: SeqLabel, last_token: Option<char>) -> Self {
        Simple::Sequence { span, label, last_token }
    }
}

impl LabelError<CharLabel> for Simple {
    fn from_label(span: Span, error: CharLabel, last_token: Option<char>) -> Self {
        Simple::Text { span, error, last_token }
    }
}

/// An error value paired with the position it was recorded at.
#[derive(Clone, Debug)]
pub struct Located<L, E> {
    pub pos: L,
    pub err: E,
}

impl<L, E> Located<L, E> {
    /// Pairs an error with the position it occurred at.
    pub fn at(pos: L, err: E) -> (r: Located<L, E>)
        ensures
            r.pos == pos,
            r.err == err,
    {
        Located { pos, err }
    }
}

/// The result of running a parser: its output, or the error it failed with.
pub type PResult<O> = Result<O, Simple>;

} // verus!
