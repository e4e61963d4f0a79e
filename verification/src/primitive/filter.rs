//! Predicate-based parsers: accepting values a predicate admits, mapping
//! tokens through partial functions, and look-ahead that rewinds.

use vstd::prelude::*;
use crate::error::{ErrV, Label, LabelError, Simple, SpanV};
use crate::input::{current_tok, Input};
use crate::parser::{
    fun_determined, fun_of, fun_total, lemma_fun_of, lemma_pred_of, pred_determined, pred_of,
    pred_total, Emit, Mode, Parser, Step,
};
use crate::primitive::Any;

verus! {

/// Runs the inner parser, then fails with a label-based error if the
/// predicate rejects the produced value; the error's span is the span the
/// inner parser consumed.
pub struct FilterParser<A, F, O, L>(pub A, pub F, pub L, pub core::marker::PhantomData<O>);

impl<O: DeepView, A: Parser<O>, F: Fn(&O) -> bool, L: Label> Parser<O> for FilterParser<
    A,
    F,
    O,
    L,
> where Simple: LabelError<L> {
    open spec fn wf(&self) -> bool {
        self.0.wf() && pred_total(self.1) && pred_determined(self.1)
    }

    open spec fn sp(&self, src: Seq<char>, pos: int) -> Step<O::V> {
        match self.0.sp(src, pos) {
            Step::Parsed { next, val } => if pred_of(self.1, val) {
                Step::Parsed { next, val }
            } else {
                Step::Failed {
                    at: next,
                    err: ErrV::Label {
                        span: SpanV { start: pos, end: next },
                        label: self.2.lv(),
                        last_token: current_tok(src, next),
                    },
                }
            },
            Step::Failed { at, err } => Step::Failed { at, err },
        }
    }

    proof fn lemma_sp_in_bounds(&self, src: Seq<char>, pos: int) {
        self.0.lemma_sp_in_bounds(src, pos);
    }

    fn go<'p, C, M: Mode>(&self, inp: &mut Input<'p, C>) -> (r: Result<Option<O>, Simple>) {
        let before = inp.offset();
        match self.0.go::<C, Emit>(inp) {
            Ok(Some(o)) => {
                let b = (self.1)(&o);
                proof {
                    lemma_pred_of(self.1, o, b);
                }
                if b {
                    if M::is_emit() {
                        Ok(Some(o))
                    } else {
                        Ok(None)
                    }
                } else {
                    let span = inp.span_since(before);
                    let last_token = inp.current();
                    Err(LabelError::from_label(span, self.2.dup(), last_token))
                }
            },
            Ok(None) => vstd::pervasive::unreached(),
            Err(e) => Err(e),
        }
    }
}

/// A parser that accepts the next token when the predicate `f` admits it,
/// and fails with the given label when it does not (or at the end of input).
pub fn filter<F: Fn(&char) -> bool, L>(f: F, label: L) -> (r: FilterParser<Any, F, char, L>)
    ensures
        r == FilterParser(Any, f, label, core::marker::PhantomData::<char>),
{
    FilterParser(Any, f, label, core::marker::PhantomData)
}

/// Maps the next token through a partial function: the token is consumed and
/// the mapped value produced, unless the function rejects it, in which case
/// a label-based failure is raised.
pub struct FilterMap<F, U, L>(pub F, pub L, pub core::marker::PhantomData<U>);

/// A parser that accepts the next token if `mapper` maps it to a value, and
/// produces that value.
pub fn filter_map<F: Fn(char) -> Option<U>, U, L>(mapper: F, label: L) -> (r: FilterMap<F, U, L>)
    ensures
        r == FilterMap(mapper, label, core::marker::PhantomData::<U>),
{
    FilterMap(mapper, label, core::marker::PhantomData)
}

impl<U: DeepView, F: Fn(char) -> Option<U>, L: Label> Parser<U> for FilterMap<F, U, L> where
    Simple: LabelError<L>,
 {
    open spec fn wf(&self) -> bool {
        fun_total(self.0) && fun_determined(self.0)
    }

    open spec fn sp(&self, src: Seq<char>, pos: int) -> Step<U::V> {
        if pos >= src.len() {
            Step::Failed {
                at: pos,
                err: ErrV::UnexpectedEof { span: SpanV { start: pos, end: pos }, expected: None },
            }
        } else {
            match fun_of(self.0, src[pos]) {
                Some(uv) => Step::Parsed { next: pos + 1, val: uv },
                None => Step::Failed {
                    at: pos + 1,
                    err: ErrV::Label {
                        span: SpanV { start: pos, end: pos + 1 },
                        label: self.1.lv(),
                        last_token: current_tok(src, pos + 1),
                    },
                },
            }
        }
    }

    proof fn lemma_sp_in_bounds(&self, src: Seq<char>, pos: int) {
    }

    fn go<'p, C, M: Mode>(&self, inp: &mut Input<'p, C>) -> (r: Result<Option<U>, Simple>) {
        let before = inp.offset();
        match inp.next() {
            Ok(c) => {
                let m = (self.0)(c);
                proof {
                    lemma_fun_of(self.0, c, m);
                }
                match m {
                    Some(u) => if M::is_emit() {
                        Ok(Some(u))
                    } else {
                        Ok(None)
                    },
                    None => {
                        let span = inp.span_since(before);
                        let last_token = inp.current();
                        Err(LabelError::from_label(span, self.1.dup(), last_token))
                    },
                }
            },
            Err(e) => Err(e),
        }
    }
}

/// Runs the inner parser and, when it completes, rewinds the cursor to where
/// it was before: look-ahead. On failure the error propagates with the
/// cursor left at the failure point.
pub struct Rewind<A>(pub A);

/// Transforms a parser so that when it completes, the input is rewound to
/// where it was before parsing.
pub fn rewind<A>(parser: A) -> (r: Rewind<A>)
    ensures
        r == Rewind(parser),
{
    Rewind(parser)
}

impl<O: DeepView, A: Parser<O>> Parser<O> for Rewind<A> {
    open spec fn wf(&self) -> bool {
        self.0.wf()
    }

    open spec fn sp(&self, src: Seq<char>, pos: int) -> Step<O::V> {
        match self.0.sp(src, pos) {
            Step::Parsed { next, val } => Step::Parsed { next: pos, val },
            Step::Failed { at, err } => Step::Failed { at, err },
        }
    }

    proof fn lemma_sp_in_bounds(&self, src: Seq<char>, pos: int) {
        self.0.lemma_sp_in_bounds(src, pos);
    }

    fn go<'p, C, M: Mode>(&self, inp: &mut Input<'p, C>) -> (r: Result<Option<O>, Simple>) {
        let befunge = inp.save();
        match self.0.go::<C, M>(inp) {
            Ok(out) => {
                inp.rewind(befunge);
                Ok(out)
            },
            Err(e) => Err(e),
        }
    }
}

} // verus!
