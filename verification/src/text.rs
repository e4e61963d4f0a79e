//! Textual parsing: character classes and the convenience parsers built on
//! them (identifiers, keywords, newlines, digits, padding).

pub mod ascii;
pub mod unicode;

pub use unicode::ident;
pub use unicode::keyword;
pub use unicode::Ident;
pub use unicode::Keyword;

use vstd::prelude::*;
use crate::error::{ErrV, LabelV, Simple, Span, SpanV};
use crate::input::{current_tok, Input};
use crate::parser::{Mode, Parser, Step};
use crate::primitive::sequence::Repeated;

verus! {

/// Which kind of identifier character was expected.
#[derive(Debug, Clone, Copy, PartialEq, Eq, Structural)]
pub enum IdentKind {
    Start,
    Continue,
    Alphabetic,
    Alphanumeric,
}

/// The labels the textual parsers fail with.
#[derive(Clone, Debug, PartialEq, Eq)]
pub enum CharLabel {
    /// Expected an identifier character of the contained kind.
    ExpectedIdent(IdentKind),
    /// Expected exactly the contained keyword.
    ExpectedKeyword(Vec<char>),
    /// Expected a digit with the contained radix.
    ExpectedDigit(u32),
    /// Expected a newline character or sequence.
    Newline,
    /// Expected whitespace.
    Whitespace,
    /// Expected inline whitespace (not part of a newline).
    InlineWhitespace,
}

impl View for CharLabel {
    type V = crate::error::LabelV;

    open spec fn view(&self) -> crate::error::LabelV {
        match self {
            CharLabel::ExpectedIdent(k) => crate::error::LabelV::ExpectedIdent(*k),
            CharLabel::ExpectedKeyword(v) => crate::error::LabelV::ExpectedKeyword(v@),
            CharLabel::ExpectedDigit(r) => crate::error::LabelV::ExpectedDigit(*r),
            CharLabel::Newline => crate::error::LabelV::Newline,
            CharLabel::Whitespace => crate::error::LabelV::Whitespace,
            CharLabel::InlineWhitespace => crate::error::LabelV::InlineWhitespace,
        }
    }
}

impl crate::error::Label for CharLabel {
    open spec fn lv(&self) -> crate::error::LabelV {
        self@
    }

    fn dup(&self) -> CharLabel {
        match self {
            CharLabel::ExpectedIdent(k) => CharLabel::ExpectedIdent(*k),
            CharLabel::ExpectedKeyword(v) => CharLabel::ExpectedKeyword(v.clone()),
            CharLabel::ExpectedDigit(r) => CharLabel::ExpectedDigit(*r),
            CharLabel::Newline => CharLabel::Newline,
            CharLabel::Whitespace => CharLabel::Whitespace,
            CharLabel::InlineWhitespace => CharLabel::InlineWhitespace,
        }
    }
}

/// Whether `c` is inline whitespace: a space or a tab, not part of a
/// newline.
pub open spec fn inline_whitespace_char(c: char) -> bool {
    c == ' ' || c == '\t'
}

/// Whether `c` has the Unicode White_Space property.
pub open spec fn whitespace_char(c: char) -> bool {
    ||| c == '\u{0009}'
    ||| c == '\u{000A}'
    ||| c == '\u{000B}'
    ||| c == '\u{000C}'
    ||| c == '\u{000D}'
    ||| c == ' '
    ||| c == '\u{0085}'
    ||| c == '\u{00A0}'
    ||| c == '\u{1680}'
    ||| c == '\u{2000}'
    ||| c == '\u{2001}'
    ||| c == '\u{2002}'
    ||| c == '\u{2003}'
    ||| c == '\u{2004}'
    ||| c == '\u{2005}'
    ||| c == '\u{2006}'
    ||| c == '\u{2007}'
    ||| c == '\u{2008}'
    ||| c == '\u{2009}'
    ||| c == '\u{200A}'
    ||| c == '\u{2028}'
    ||| c == '\u{2029}'
    ||| c == '\u{202F}'
    ||| c == '\u{205F}'
    ||| c == '\u{3000}'
}

/// The numeric value `c` stands for as a digit, or a value no radix reaches
/// when it is none: `0`–`9` count from zero, letters of either case from
/// ten.
pub open spec fn digit_value(c: char) -> int {
    if '0' <= c && c <= '9' {
        c as int - '0' as int
    } else if 'a' <= c && c <= 'z' {
        c as int - 'a' as int + 10
    } else if 'A' <= c && c <= 'Z' {
        c as int - 'A' as int + 10
    } else {
        99
    }
}

/// Whether `c` is a digit under `radix`.
pub open spec fn digit_char(c: char, radix: u32) -> bool {
    digit_value(c) < radix as int
}

/// Whether `c` has the Unicode XID_Start property. The library does not
/// define this set itself; it is the set the outside lookup answers for.
pub uninterp spec fn xid_start(c: char) -> bool;

/// Whether `c` has the Unicode XID_Continue property. The library does not
/// define this set itself; it is the set the outside lookup answers for.
pub uninterp spec fn xid_continue(c: char) -> bool;

/// Relies on unicode_ident::is_xid_start: whether `c` has the Unicode
/// XID_Start property, a function of the character alone.
#[verifier::external_body]
pub(crate) fn is_xid_start_ex(c: char) -> (r: bool)
    ensures
        r == xid_start(c),
{
    unicode_ident::is_xid_start(c)
}

/// Relies on unicode_ident::is_xid_continue: whether `c` has the Unicode
/// XID_Continue property, a function of the character alone.
#[verifier::external_body]
pub(crate) fn is_xid_continue_ex(c: char) -> (r: bool)
    ensures
        r == xid_continue(c),
{
    unicode_ident::is_xid_continue(c)
}

/// A marker for the character types textual parsing runs over; only the
/// library's own character types carry it.
pub trait Sealed {

}

impl Sealed for char {

}

/// A textual character type, with the character classes the text parsers
/// ask about.
pub trait Char: Sealed + Sized + Copy {
    /// The character, as a `char`.
    spec fn spec_to_char(&self) -> char;

    /// Returns this character as a `char`.
    fn to_char(&self) -> (r: char)
        ensures
            r == self.spec_to_char(),
    ;

    /// Converts the given ASCII character to this character type.
    fn from_ascii(c: u8) -> (r: Self)
        requires
            c < 128,
        ensures
            r.spec_to_char() == c as char,
    ;

    /// The `0` digit of this character type.
    fn digit_zero() -> (r: Self)
        ensures
            r.spec_to_char() == '0',
    ;

    /// Whether this character is inline whitespace (not part of a newline).
    fn is_inline_whitespace(&self) -> (b: bool)
        ensures
            b == inline_whitespace_char(self.spec_to_char()),
    ;

    /// Whether this character is whitespace.
    fn is_whitespace(&self) -> (b: bool)
        ensures
            b == whitespace_char(self.spec_to_char()),
    ;

    /// Whether this character is a digit under `radix`.
    fn is_digit(&self, radix: u32) -> (b: bool)
        ensures
            b == digit_char(self.spec_to_char(), radix),
    ;

    /// Whether this character can start an identifier.
    fn is_ident_start(&self) -> (b: bool)
        ensures
            b == xid_start(self.spec_to_char()),
    ;

    /// Whether this character can continue an identifier.
    fn is_ident_continue(&self) -> (b: bool)
        ensures
            b == xid_continue(self.spec_to_char()),
    ;
}

impl Char for char {
    open spec fn spec_to_char(&self) -> char {
        *self
    }

    fn to_char(&self) -> char {
        *self
    }

    fn from_ascii(c: u8) -> char {
        c as char
    }

    fn digit_zero() -> char {
        '0'
    }

    fn is_inline_whitespace(&self) -> bool {
        *self == ' ' || *self == '\t'
    }

    #[verifier::rlimit(50)]
    fn is_whitespace(&self) -> bool {
        let c = *self;
        let b1 = c == '\u{0009}' || c == '\u{000A}' || c == '\u{000B}' || c == '\u{000C}' || c
            == '\u{000D}' || c == ' ' || c == '\u{0085}' || c == '\u{00A0}' || c == '\u{1680}';
        let b2 = c == '\u{2000}' || c == '\u{2001}' || c == '\u{2002}' || c == '\u{2003}' || c
            == '\u{2004}' || c == '\u{2005}' || c == '\u{2006}' || c == '\u{2007}' || c
            == '\u{2008}' || c == '\u{2009}' || c == '\u{200A}';
        let b3 = c == '\u{2028}' || c == '\u{2029}' || c == '\u{202F}' || c == '\u{205F}' || c
            == '\u{3000}';
        let b = b1 || b2 || b3;
        proof {
            assert(c == self.spec_to_char());
            assert(b == whitespace_char(c));
        }
        b
    }

    fn is_digit(&self, radix: u32) -> bool {
        let v: u32 = if '0' <= *self && *self <= '9' {
            (*self as u32) - ('0' as u32)
        } else if 'a' <= *self && *self <= 'z' {
            (*self as u32) - ('a' as u32) + 10
        } else if 'A' <= *self && *self <= 'Z' {
            (*self as u32) - ('A' as u32) + 10
        } else {
            99
        };
        v < radix
    }

    fn is_ident_start(&self) -> bool {
        is_xid_start_ex(*self)
    }

    fn is_ident_continue(&self) -> bool {
        is_xid_continue_ex(*self)
    }
}

/// Where a run of whitespace starting at `pos` ends.
pub open spec fn ws_end(src: Seq<char>, pos: int) -> int
    decreases src.len() - pos,
{
    if 0 <= pos < src.len() && whitespace_char(src[pos]) {
        ws_end(src, pos + 1)
    } else {
        pos
    }
}

pub proof fn lemma_ws_end_bounds(src: Seq<char>, pos: int)
    requires
        0 <= pos <= src.len(),
    ensures
        pos <= ws_end(src, pos) <= src.len(),
    decreases src.len() - pos,
{
    if 0 <= pos < src.len() && whitespace_char(src[pos]) {
        lemma_ws_end_bounds(src, pos + 1);
    }
}

/// Consumes any run of whitespace.
pub(crate) fn skip_ws<'p, C>(inp: &mut Input<'p, C>)
    requires
        old(inp).wf(),
    ensures
        final(inp).same_parse(old(inp)),
        final(inp).wf(),
        final(inp).pos() == ws_end(old(inp).src(), old(inp).pos()),
{
    let ghost inp0 = *inp;
    loop
        invariant_except_break
            inp0 == *old(inp),
            inp.wf(),
            inp.same_parse(&inp0),
            inp0.pos() <= inp.pos() <= inp0.src().len(),
            ws_end(inp0.src(), inp0.pos()) == ws_end(inp0.src(), inp.pos()),
        ensures
            inp.wf(),
            inp.same_parse(&inp0),
            inp.pos() == ws_end(inp0.src(), inp0.pos()),
        decreases inp0.src().len() - inp.pos(),
    {
        if inp.offset >= inp.input.len() {
            break;
        }
        let c = *vstd::slice::slice_index_get(inp.input, inp.offset);
        if !Char::is_whitespace(&c) {
            break;
        }
        inp.offset = inp.offset + 1;
    }
}

/// Accepts and ignores any number of whitespace characters before and after
/// the inner parser.
#[derive(Clone, Copy)]
pub struct Padded<A>(pub A);

/// Pads `parser` with optional whitespace on both sides.
pub fn padded<A>(parser: A) -> (r: Padded<A>)
    ensures
        r == Padded(parser),
{
    Padded(parser)
}

impl<O: DeepView, A: Parser<O>> Parser<O> for Padded<A> {
    open spec fn wf(&self) -> bool {
        self.0.wf()
    }

    open spec fn sp(&self, src: Seq<char>, pos: int) -> Step<O::V> {
        match self.0.sp(src, ws_end(src, pos)) {
            Step::Parsed { next, val } => Step::Parsed { next: ws_end(src, next), val },
            Step::Failed { at, err } => Step::Failed { at, err },
        }
    }

    proof fn lemma_sp_in_bounds(&self, src: Seq<char>, pos: int) {
        lemma_ws_end_bounds(src, pos);
        self.0.lemma_sp_in_bounds(src, ws_end(src, pos));
        match self.0.sp(src, ws_end(src, pos)) {
            Step::Parsed { next, .. } => {
                lemma_ws_end_bounds(src, next);
            },
            Step::Failed { .. } => {},
        }
    }

    fn go<'p, C, M: Mode>(&self, inp: &mut Input<'p, C>) -> (r: Result<Option<O>, Simple>) {
        skip_ws(inp);
        match self.0.go::<C, M>(inp) {
            Ok(out) => {
                skip_ws(inp);
                Ok(out)
            },
            Err(e) => Err(e),
        }
    }
}

/// Accepts one whitespace character, failing with a whitespace label
/// otherwise. Its output is `()`.
#[derive(Clone, Copy)]
pub struct WhitespaceChar;

impl Parser<()> for WhitespaceChar {
    open spec fn wf(&self) -> bool {
        true
    }

    open spec fn sp(&self, src: Seq<char>, pos: int) -> Step<()> {
        if pos < src.len() && whitespace_char(src[pos]) {
            Step::Parsed { next: pos + 1, val: () }
        } else if pos < src.len() {
            Step::Failed {
                at: pos + 1,
                err: ErrV::Label {
                    span: SpanV { start: pos, end: pos + 1 },
                    label: LabelV::Whitespace,
                    last_token: Some(src[pos]),
                },
            }
        } else {
            Step::Failed {
                at: pos,
                err: ErrV::Label {
                    span: SpanV { start: pos, end: pos },
                    label: LabelV::Whitespace,
                    last_token: None,
                },
            }
        }
    }

    proof fn lemma_sp_in_bounds(&self, src: Seq<char>, pos: int) {
    }

    fn go<'p, C, M: Mode>(&self, inp: &mut Input<'p, C>) -> (r: Result<Option<()>, Simple>) {
        let before = inp.offset();
        match inp.next_or_none() {
            Some(c) => if Char::is_whitespace(&c) {
                if M::is_emit() {
                    Ok(Some(()))
                } else {
                    Ok(None)
                }
            } else {
                Err(
                    Simple::Text {
                        span: inp.span_since(before),
                        error: CharLabel::Whitespace,
                        last_token: Some(c),
                    },
                )
            },
            None => Err(
                Simple::Text {
                    span: inp.span_since(before),
                    error: CharLabel::Whitespace,
                    last_token: None,
                },
            ),
        }
    }
}

/// Accepts one inline whitespace character (a space or a tab). Its output is
/// `()`.
#[derive(Clone, Copy)]
pub struct InlineWhitespaceChar;

impl Parser<()> for InlineWhitespaceChar {
    open spec fn wf(&self) -> bool {
        true
    }

    open spec fn sp(&self, src: Seq<char>, pos: int) -> Step<()> {
        if pos < src.len() && inline_whitespace_char(src[pos]) {
            Step::Parsed { next: pos + 1, val: () }
        } else if pos < src.len() {
            Step::Failed {
                at: pos + 1,
                err: ErrV::Label {
                    span: SpanV { start: pos, end: pos + 1 },
                    label: LabelV::InlineWhitespace,
                    last_token: Some(src[pos]),
                },
            }
        } else {
            Step::Failed {
                at: pos,
                err: ErrV::Label {
                    span: SpanV { start: pos, end: pos },
                    label: LabelV::InlineWhitespace,
                    last_token: None,
                },
            }
        }
    }

    proof fn lemma_sp_in_bounds(&self, src: Seq<char>, pos: int) {
    }

    fn go<'p, C, M: Mode>(&self, inp: &mut Input<'p, C>) -> (r: Result<Option<()>, Simple>) {
        let before = inp.offset();
        match inp.next_or_none() {
            Some(c) => if Char::is_inline_whitespace(&c) {
                if M::is_emit() {
                    Ok(Some(()))
                } else {
                    Ok(None)
                }
            } else {
                Err(
                    Simple::Text {
                        span: inp.span_since(before),
                        error: CharLabel::InlineWhitespace,
                        last_token: Some(c),
                    },
                )
            },
            None => Err(
                Simple::Text {
                    span: inp.span_since(before),
                    error: CharLabel::InlineWhitespace,
                    last_token: None,
                },
            ),
        }
    }
}

/// A parser that accepts and ignores any number of whitespace characters.
pub fn whitespace() -> (r: Repeated<WhitespaceChar, ()>)
    ensures
        r.parser == WhitespaceChar,
        r.at_least == 0,
        r.at_most == u64::MAX,
{
    Repeated { parser: WhitespaceChar, at_least: 0, at_most: u64::MAX, phantom: core::marker::PhantomData }
}

/// A parser that accepts and ignores any number of inline whitespace
/// characters.
pub fn inline_whitespace() -> (r: Repeated<InlineWhitespaceChar, ()>)
    ensures
        r.parser == InlineWhitespaceChar,
        r.at_least == 0,
        r.at_most == u64::MAX,
{
    Repeated { parser: InlineWhitespaceChar, at_least: 0, at_most: u64::MAX, phantom: core::marker::PhantomData }
}

/// Accepts one digit under the contained radix and produces it.
#[derive(Clone, Copy)]
pub struct Digit {
    pub radix: u32,
}

impl Parser<char> for Digit {
    open spec fn wf(&self) -> bool {
        true
    }

    open spec fn sp(&self, src: Seq<char>, pos: int) -> Step<char> {
        if pos < src.len() && digit_char(src[pos], self.radix) {
            Step::Parsed { next: pos + 1, val: src[pos] }
        } else if pos < src.len() {
            Step::Failed {
                at: pos + 1,
                err: ErrV::Label {
                    span: SpanV { start: pos, end: pos + 1 },
                    label: LabelV::ExpectedDigit(self.radix),
                    last_token: Some(src[pos]),
                },
            }
        } else {
            Step::Failed {
                at: pos,
                err: ErrV::Label {
                    span: SpanV { start: pos, end: pos },
                    label: LabelV::ExpectedDigit(self.radix),
                    last_token: None,
                },
            }
        }
    }

    proof fn lemma_sp_in_bounds(&self, src: Seq<char>, pos: int) {
    }

    fn go<'p, C, M: Mode>(&self, inp: &mut Input<'p, C>) -> (r: Result<Option<char>, Simple>) {
        let before = inp.offset();
        match inp.next_or_none() {
            Some(c) => if Char::is_digit(&c, self.radix) {
                if M::is_emit() {
                    Ok(Some(c))
                } else {
                    Ok(None)
                }
            } else {
                Err(
                    Simple::Text {
                        span: inp.span_since(before),
                        error: CharLabel::ExpectedDigit(self.radix),
                        last_token: Some(c),
                    },
                )
            },
            None => Err(
                Simple::Text {
                    span: inp.span_since(before),
                    error: CharLabel::ExpectedDigit(self.radix),
                    last_token: None,
                },
            ),
        }
    }
}

/// A parser that accepts one or more digits under `radix`. The `radix`
/// functions as for numeric parsing generally: ten for decimal digits.
pub fn digits(radix: u32) -> (r: Repeated<Digit, char>)
    ensures
        r.parser == (Digit { radix }),
        r.at_least == 1,
        r.at_most == u64::MAX,
{
    Repeated { parser: Digit { radix }, at_least: 1, at_most: u64::MAX, phantom: core::marker::PhantomData }
}

/// Where a run of digits under `radix` starting at `pos` ends.
pub open spec fn digits_end(src: Seq<char>, pos: int, radix: u32) -> int
    decreases src.len() - pos,
{
    if 0 <= pos < src.len() && digit_char(src[pos], radix) {
        digits_end(src, pos + 1, radix)
    } else {
        pos
    }
}

pub proof fn lemma_digits_end_bounds(src: Seq<char>, pos: int, radix: u32)
    requires
        0 <= pos <= src.len(),
    ensures
        pos <= digits_end(src, pos, radix) <= src.len(),
    decreases src.len() - pos,
{
    if 0 <= pos < src.len() && digit_char(src[pos], radix) {
        lemma_digits_end_bounds(src, pos + 1, radix);
    }
}

/// Parses a non-negative integer under the contained radix: a single zero,
/// or a non-zero digit followed by any digits. The output is the digit run
/// itself.
#[derive(Clone, Copy)]
pub struct Int {
    pub radix: u32,
}

/// A non-negative integer under `radix`: a single `0`, or a run of digits
/// whose first digit is not zero.
pub fn integer(radix: u32) -> (r: Int)
    ensures
        r == (Int { radix }),
{
    Int { radix }
}

impl Parser<Vec<char>> for Int {
    open spec fn wf(&self) -> bool {
        true
    }

    open spec fn sp(&self, src: Seq<char>, pos: int) -> Step<Seq<char>> {
        if pos >= src.len() {
            Step::Failed {
                at: pos,
                err: ErrV::UnexpectedEof { span: SpanV { start: pos, end: pos }, expected: None },
            }
        } else if src[pos] == '0' {
            Step::Parsed { next: pos + 1, val: src.subrange(pos, pos + 1) }
        } else if digit_char(src[pos], self.radix) {
            let stop = digits_end(src, pos + 1, self.radix);
            Step::Parsed { next: stop, val: src.subrange(pos, stop) }
        } else {
            Step::Failed {
                at: pos + 1,
                err: ErrV::Label {
                    span: SpanV { start: pos + 1, end: pos + 1 },
                    label: LabelV::ExpectedDigit(self.radix),
                    last_token: Some(src[pos]),
                },
            }
        }
    }

    proof fn lemma_sp_in_bounds(&self, src: Seq<char>, pos: int) {
        if 0 <= pos < src.len() {
            lemma_digits_end_bounds(src, pos + 1, self.radix);
        }
    }

    fn go<'p, C, M: Mode>(&self, inp: &mut Input<'p, C>) -> (r: Result<Option<Vec<char>>, Simple>) {
        let ghost inp0 = *inp;
        let before = inp.offset();
        match inp.next() {
            Err(e) => Err(e),
            Ok(c) => {
                if c == '0' {
                    if M::is_emit() {
                        let s = inp.slice_since(before);
                        let v = vstd::slice::slice_to_vec(s);
                        proof {
                            assert(v.deep_view() =~= v@);
                        }
                        Ok(Some(v))
                    } else {
                        Ok(None)
                    }
                } else if Char::is_digit(&c, self.radix) {
                    loop
                        invariant_except_break
                            inp0 == *old(inp),
                            inp.wf(),
                            inp.same_parse(&inp0),
                            inp0.pos() < inp.pos() <= inp0.src().len(),
                            digits_end(inp0.src(), inp0.pos() + 1, self.radix) == digits_end(
                                inp0.src(),
                                inp.pos(),
                                self.radix,
                            ),
                        ensures
                            inp.wf(),
                            inp.same_parse(&inp0),
                            inp0.pos() < inp.pos(),
                            inp.pos() == digits_end(inp0.src(), inp0.pos() + 1, self.radix),
                        decreases inp0.src().len() - inp.pos(),
                    {
                        if inp.offset >= inp.input.len() {
                            break;
                        }
                        let d = *vstd::slice::slice_index_get(inp.input, inp.offset);
                        if !Char::is_digit(&d, self.radix) {
                            break;
                        }
                        inp.offset = inp.offset + 1;
                    }
                    if M::is_emit() {
                        let s = inp.slice_since(before);
                        let v = vstd::slice::slice_to_vec(s);
                        proof {
                            assert(v.deep_view() =~= v@);
                        }
                        Ok(Some(v))
                    } else {
                        Ok(None)
                    }
                } else {
                    let at = inp.offset();
                    Err(
                        Simple::Text {
                            span: Span { start: at, end: at },
                            error: CharLabel::ExpectedDigit(self.radix),
                            last_token: Some(c),
                        },
                    )
                }
            },
        }
    }
}

/// Accepts and ignores any newline character or sequence: a line feed, a
/// carriage return, a carriage return followed by a line feed, a vertical
/// tab, a form feed, a next-line, a line separator, or a paragraph
/// separator.
#[derive(Clone, Copy)]
pub struct Newline;

/// The newline parser.
pub fn newline() -> (r: Newline)
    ensures
        r == Newline,
{
    Newline
}

/// Whether `c` begins a newline on its own.
pub open spec fn newline_char(c: char) -> bool {
    ||| c == '\n'
    ||| c == '\r'
    ||| c == '\u{000B}'
    ||| c == '\u{000C}'
    ||| c == '\u{0085}'
    ||| c == '\u{2028}'
    ||| c == '\u{2029}'
}

impl Parser<()> for Newline {
    open spec fn wf(&self) -> bool {
        true
    }

    open spec fn sp(&self, src: Seq<char>, pos: int) -> Step<()> {
        if pos < src.len() && src[pos] == '\r' && pos + 1 < src.len() && src[pos + 1] == '\n' {
            Step::Parsed { next: pos + 2, val: () }
        } else if pos < src.len() && newline_char(src[pos]) {
            Step::Parsed { next: pos + 1, val: () }
        } else if pos < src.len() {
            Step::Failed {
                at: pos + 1,
                err: ErrV::Label {
                    span: SpanV { start: pos, end: pos + 1 },
                    label: LabelV::Newline,
                    last_token: Some(src[pos]),
                },
            }
        } else {
            Step::Failed {
                at: pos,
                err: ErrV::Label {
                    span: SpanV { start: pos, end: pos },
                    label: LabelV::Newline,
                    last_token: None,
                },
            }
        }
    }

    proof fn lemma_sp_in_bounds(&self, src: Seq<char>, pos: int) {
    }

    fn go<'p, C, M: Mode>(&self, inp: &mut Input<'p, C>) -> (r: Result<Option<()>, Simple>) {
        let before = inp.offset();
        match inp.next_or_none() {
            Some(c) => {
                if c == '\r' && inp.offset < inp.input.len() && *vstd::slice::slice_index_get(
                    inp.input,
                    inp.offset,
                ) == '\n' {
                    inp.offset = inp.offset + 1;
                    if M::is_emit() {
                        Ok(Some(()))
                    } else {
                        Ok(None)
                    }
                } else if c == '\n' || c == '\r' || c == '\u{000B}' || c == '\u{000C}' || c
                    == '\u{0085}' || c == '\u{2028}' || c == '\u{2029}' {
                    if M::is_emit() {
                        Ok(Some(()))
                    } else {
                        Ok(None)
                    }
                } else {
                    Err(
                        Simple::Text {
                            span: inp.span_since(before),
                            error: CharLabel::Newline,
                            last_token: Some(c),
                        },
                    )
                }
            },
            None => Err(
                Simple::Text {
                    span: inp.span_since(before),
                    error: CharLabel::Newline,
                    last_token: None,
                },
            ),
        }
    }
}

/// Parses a unix-style newline: a line feed.
pub fn lf() -> (r: crate::primitive::just::Just)
    ensures
        r.seq@ == seq!['\n'],
{
    let v = vec!['\n'];
    proof {
        assert(v@ =~= seq!['\n']);
    }
    crate::primitive::just::just(v)
}

/// Parses an OSX-style newline: a carriage return.
pub fn cr() -> (r: crate::primitive::just::Just)
    ensures
        r.seq@ == seq!['\r'],
{
    let v = vec!['\r'];
    proof {
        assert(v@ =~= seq!['\r']);
    }
    crate::primitive::just::just(v)
}

/// Parses a DOS-style newline: a carriage return followed by a line feed.
pub fn crlf() -> (r: crate::primitive::just::Just)
    ensures
        r.seq@ == seq!['\r', '\n'],
{
    let v = vec!['\r', '\n'];
    proof {
        assert(v@ =~= seq!['\r', '\n']);
    }
    crate::primitive::just::just(v)
}

/// The ASCII lower-case image of a character's code point: letters `A`–`Z`
/// move to their lower-case code, everything else stays.
pub open spec fn lower_code(c: char) -> int {
    if 'A' <= c && c <= 'Z' {
        c as int + 32
    } else {
        c as int
    }
}

/// What `just_ignore_case` does: match `seq` token by token, comparing
/// ASCII-case-insensitively; the value is the consumed range itself.
pub open spec fn jic_scan(seq: Seq<char>, src: Seq<char>, pos: int) -> Step<()>
    decreases seq.len(),
{
    if seq.len() == 0 {
        Step::Parsed { next: pos, val: () }
    } else if pos < src.len() {
        if lower_code(src[pos]) == lower_code(seq[0]) {
            jic_scan(seq.skip(1), src, pos + 1)
        } else {
            Step::Failed {
                at: pos + 1,
                err: ErrV::ExpectedTokenFound {
                    span: SpanV { start: pos, end: pos + 1 },
                    expected: seq![seq[0]],
                    found: src[pos],
                },
            }
        }
    } else {
        Step::Failed {
            at: pos,
            err: ErrV::UnexpectedEof {
                span: SpanV { start: pos, end: pos },
                expected: Some(seq![seq[0]]),
            },
        }
    }
}

pub proof fn lemma_jic_scan_bounds(seq: Seq<char>, src: Seq<char>, pos: int)
    requires
        0 <= pos <= src.len(),
    ensures
        crate::parser::step_in_bounds(jic_scan(seq, src, pos), pos, src.len() as int),
    decreases seq.len(),
{
    if seq.len() != 0 && pos < src.len() && lower_code(src[pos]) == lower_code(seq[0]) {
        lemma_jic_scan_bounds(seq.skip(1), src, pos + 1);
    }
}

/// Parses a sequence of characters, ignoring ASCII case; the output is the
/// consumed range of the source itself.
#[derive(Clone, Debug)]
pub struct JustIgnoreCase {
    pub seq: Vec<char>,
}

/// Parses `seq`, comparing characters ASCII-case-insensitively.
pub fn just_ignore_case(seq: Vec<char>) -> (r: JustIgnoreCase)
    ensures
        r == (JustIgnoreCase { seq }),
{
    JustIgnoreCase { seq }
}

/// The ASCII lower-case image of a character's code point.
fn lower_code_ex(c: char) -> (r: u32)
    ensures
        r == lower_code(c),
{
    if 'A' <= c && c <= 'Z' {
        (c as u32) + 32
    } else {
        c as u32
    }
}

impl Parser<Vec<char>> for JustIgnoreCase {
    open spec fn wf(&self) -> bool {
        true
    }

    open spec fn sp(&self, src: Seq<char>, pos: int) -> Step<Seq<char>> {
        match jic_scan(self.seq@, src, pos) {
            Step::Parsed { next, .. } => Step::Parsed { next, val: src.subrange(pos, next) },
            Step::Failed { at, err } => Step::Failed { at, err },
        }
    }

    proof fn lemma_sp_in_bounds(&self, src: Seq<char>, pos: int) {
        lemma_jic_scan_bounds(self.seq@, src, pos);
    }

    fn go<'p, C, M: Mode>(&self, inp: &mut Input<'p, C>) -> (r: Result<Option<Vec<char>>, Simple>) {
        let ghost inp0 = *inp;
        let before = inp.offset();
        let mut i: usize = 0;
        proof {
            assert(self.seq@.skip(0) =~= self.seq@);
        }
        while i < self.seq.len()
            invariant
                *old(inp) == inp0,
                i <= self.seq@.len(),
                inp.same_parse(&inp0),
                inp.wf(),
                before == inp0.offset,
                inp.pos() == inp0.pos() + i,
                jic_scan(self.seq@, inp0.src(), inp0.pos()) == jic_scan(
                    self.seq@.skip(i as int),
                    inp0.src(),
                    inp0.pos() + i,
                ),
            decreases self.seq@.len() - i,
        {
            let expected_c = self.seq[i];
            let step_before = inp.offset();
            proof {
                assert(self.seq@.skip(i as int)[0] == self.seq@[i as int]);
            }
            match inp.next_or_none() {
                Some(tok) => {
                    if lower_code_ex(tok) == lower_code_ex(expected_c) {
                        proof {
                            assert(self.seq@.skip(i as int).skip(1) =~= self.seq@.skip(
                                i as int + 1,
                            ));
                        }
                        i = i + 1;
                    } else {
                        let ev = vec![expected_c];
                        proof {
                            assert(ev@ =~= seq![self.seq@[i as int]]);
                        }
                        return Err(
                            Simple::ExpectedTokenFound {
                                span: inp.span_since(step_before),
                                expected: ev,
                                found: tok,
                            },
                        );
                    }
                },
                None => {
                    let ev = vec![expected_c];
                    proof {
                        assert(ev@ =~= seq![self.seq@[i as int]]);
                    }
                    return Err(
                        Simple::UnexpectedEOF {
                            span: inp.span_since(step_before),
                            expected: Some(ev),
                        },
                    );
                },
            }
        }
        if M::is_emit() {
            let s = inp.slice_since(before);
            let v = vstd::slice::slice_to_vec(s);
            proof {
                assert(v.deep_view() =~= v@);
            }
            Ok(Some(v))
        } else {
            Ok(None)
        }
    }
}

/// Whether the two vectors hold the same characters.
pub(crate) fn vecs_equal(a: &Vec<char>, b: &Vec<char>) -> (r: bool)
    ensures
        r <==> a@ == b@,
{
    if a.len() != b.len() {
        proof {
            assert(a@.len() != b@.len());
        }
        return false;
    }
    let mut i: usize = 0;
    while i < a.len()
        invariant
            a@.len() == b@.len(),
            0 <= i <= a@.len(),
            forall|j: int| 0 <= j < i ==> a@[j] == b@[j],
        decreases a@.len() - i,
    {
        if a[i] != b[i] {
            return false;
        }
        i = i + 1;
    }
    proof {
        assert(a@ =~= b@);
    }
    true
}

} // verus!
