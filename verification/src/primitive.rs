//! The primitive parsers and the combinator algebra built on the parser
//! contract.

pub mod choice;
pub mod filter;
pub mod just;
pub mod take;
pub mod sequence;
pub mod map;
pub mod tuple;

use vstd::prelude::*;
use crate::error::{ErrV, Simple, Span, SpanV};
use crate::input::Input;
use crate::parser::{pred_determined, pred_of, pred_total, Mode, Parser, Step, step_in_bounds};

verus! {

/// A parser that accepts any input token (but not the end of input, for
/// which it returns an error) and returns it as-is.
#[derive(Clone, Copy)]
pub struct Any;

/// The parser that accepts any one token.
pub fn any() -> (r: Any)
    ensures
        r == Any,
{
    Any
}

impl Parser<char> for Any {
    open spec fn wf(&self) -> bool {
        true
    }

    open spec fn sp(&self, src: Seq<char>, pos: int) -> Step<char> {
        if pos < src.len() {
            Step::Parsed { next: pos + 1, val: src[pos] }
        } else {
            Step::Failed {
                at: pos,
                err: ErrV::UnexpectedEof { span: SpanV { start: pos, end: pos }, expected: None },
            }
        }
    }

    proof fn lemma_sp_in_bounds(&self, src: Seq<char>, pos: int) {
    }

    fn go<'p, C, M: Mode>(&self, inp: &mut Input<'p, C>) -> (r: Result<Option<char>, Simple>) {
        match inp.next() {
            Ok(c) => if M::is_emit() {
                Ok(Some(c))
            } else {
                Ok(None)
            },
            Err(e) => Err(e),
        }
    }
}

/// A parser that accepts only the end of the input. Its output is `()`.
#[derive(Clone, Copy)]
pub struct End;

/// The parser that accepts only the end of the input.
pub fn end() -> (r: End)
    ensures
        r == End,
{
    End
}

impl Parser<()> for End {
    open spec fn wf(&self) -> bool {
        true
    }

    open spec fn sp(&self, src: Seq<char>, pos: int) -> Step<()> {
        if pos == src.len() {
            Step::Parsed { next: pos, val: () }
        } else {
            Step::Failed {
                at: pos + 1,
                err: ErrV::ExpectedEofFound {
                    span: SpanV { start: pos, end: pos + 1 },
                    found: src[pos],
                },
            }
        }
    }

    proof fn lemma_sp_in_bounds(&self, src: Seq<char>, pos: int) {
    }

    fn go<'p, C, M: Mode>(&self, inp: &mut Input<'p, C>) -> (r: Result<Option<()>, Simple>) {
        let offset = inp.offset();
        match inp.next_or_none() {
            Some(found) => Err(
                Simple::ExpectedEOF { found, span: inp.span_since(offset) },
            ),
            None => if M::is_emit() {
                Ok(Some(()))
            } else {
                Ok(None)
            },
        }
    }
}

/// Makes a parser optional: if the inner parser fails, the cursor is rewound
/// and the absent value is returned. This parser never fails.
#[derive(Clone, Copy)]
pub struct Maybe<A>(pub A);

/// Makes `parser` optional: on failure the cursor is rewound and `None` is
/// the output.
pub fn maybe<A>(parser: A) -> (r: Maybe<A>)
    ensures
        r == Maybe(parser),
{
    Maybe(parser)
}

impl<O: DeepView, A: Parser<O>> Parser<Option<O>> for Maybe<A> {
    open spec fn wf(&self) -> bool {
        self.0.wf()
    }

    open spec fn sp(&self, src: Seq<char>, pos: int) -> Step<Option<O::V>> {
        match self.0.sp(src, pos) {
            Step::Parsed { next, val } => Step::Parsed { next, val: Some(val) },
            Step::Failed { .. } => Step::Parsed { next: pos, val: None },
        }
    }

    proof fn lemma_sp_in_bounds(&self, src: Seq<char>, pos: int) {
        self.0.lemma_sp_in_bounds(src, pos);
    }

    fn go<'p, C, M: Mode>(&self, inp: &mut Input<'p, C>) -> (r: Result<Option<Option<O>>, Simple>) {
        let befunge = inp.save();
        match self.0.go::<C, M>(inp) {
            Ok(out) => if M::is_emit() {
                match out {
                    Some(o) => Ok(Some(Some(o))),
                    None => vstd::pervasive::unreached(),
                }
            } else {
                Ok(None)
            },
            Err(_) => {
                inp.rewind(befunge);
                if M::is_emit() {
                    Ok(Some(None))
                } else {
                    Ok(None)
                }
            },
        }
    }
}

/// Runs the inner parser for effect only: its output is discarded and `()`
/// is produced; consumption and failure are exactly the inner parser's.
pub struct Ignored<A, OA>(pub A, pub core::marker::PhantomData<OA>);

impl<OA: DeepView, A: Parser<OA>> Parser<()> for Ignored<A, OA> {
    open spec fn wf(&self) -> bool {
        self.0.wf()
    }

    open spec fn sp(&self, src: Seq<char>, pos: int) -> Step<()> {
        match self.0.sp(src, pos) {
            Step::Parsed { next, .. } => Step::Parsed { next, val: () },
            Step::Failed { at, err } => Step::Failed { at, err },
        }
    }

    proof fn lemma_sp_in_bounds(&self, src: Seq<char>, pos: int) {
        self.0.lemma_sp_in_bounds(src, pos);
    }

    fn go<'p, C, M: Mode>(&self, inp: &mut Input<'p, C>) -> (r: Result<Option<()>, Simple>) {
        match self.0.go::<C, crate::parser::Check>(inp) {
            Ok(_) => if M::is_emit() {
                Ok(Some(()))
            } else {
                Ok(None)
            },
            Err(e) => Err(e),
        }
    }
}

/// Where skipping tokens that satisfy `f` from `pos` stops: the first
/// position at or after `pos` whose token does not satisfy `f`, or the end
/// of the source.
pub open spec fn skip_end<F: Fn(&char) -> bool>(f: F, src: Seq<char>, pos: int) -> int
    decreases src.len() - pos,
{
    if 0 <= pos < src.len() && pred_of(f, src[pos]) {
        skip_end(f, src, pos + 1)
    } else {
        pos
    }
}

pub proof fn lemma_skip_end_bounds<F: Fn(&char) -> bool>(f: F, src: Seq<char>, pos: int)
    requires
        0 <= pos <= src.len(),
    ensures
        pos <= skip_end(f, src, pos) <= src.len(),
    decreases src.len() - pos,
{
    if 0 <= pos < src.len() && pred_of(f, src[pos]) {
        lemma_skip_end_bounds(f, src, pos + 1);
    }
}

/// A parser that consumes tokens while `f` holds of them, without
/// allocating, and never fails. Its output is `()`.
pub struct SkipWhile<F>(pub F);

/// Skips tokens while `f` returns true; when it returns false (or the input
/// ends) the cursor stops there.
pub fn skip_while<F: Fn(&char) -> bool>(f: F) -> (r: SkipWhile<F>)
    ensures
        r == SkipWhile(f),
{
    SkipWhile(f)
}

impl<F: Fn(&char) -> bool> Parser<()> for SkipWhile<F> {
    open spec fn wf(&self) -> bool {
        pred_total(self.0) && pred_determined(self.0)
    }

    open spec fn sp(&self, src: Seq<char>, pos: int) -> Step<()> {
        Step::Parsed { next: skip_end(self.0, src, pos), val: () }
    }

    proof fn lemma_sp_in_bounds(&self, src: Seq<char>, pos: int) {
        lemma_skip_end_bounds(self.0, src, pos);
    }

    fn go<'p, C, M: Mode>(&self, inp: &mut Input<'p, C>) -> (r: Result<Option<()>, Simple>) {
        let ghost inp0 = *inp;
        loop
            invariant_except_break
                self.wf(),
                inp.wf(),
                inp.same_parse(&inp0),
                inp0.pos() <= inp.pos() <= inp0.src().len(),
                skip_end(self.0, inp0.src(), inp0.pos()) == skip_end(
                    self.0,
                    inp0.src(),
                    inp.pos(),
                ),
            ensures
                inp.wf(),
                inp.same_parse(&inp0),
                inp.pos() == skip_end(self.0, inp0.src(), inp0.pos()),
            decreases inp0.src().len() - inp.pos(),
        {
            if inp.offset >= inp.input.len() {
                break;
            }
            let c = *vstd::slice::slice_index_get(inp.input, inp.offset);
            let keep = (self.0)(&c);
            proof {
                crate::parser::lemma_pred_of(self.0, c, keep);
            }
            if !keep {
                break;
            }
            inp.offset = inp.offset + 1;
        }
        if M::is_emit() {
            Ok(Some(()))
        } else {
            Ok(None)
        }
    }
}

} // verus!
