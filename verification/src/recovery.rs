//! The opt-in error-recovery hook: a strategy may substitute a recovered
//! value for a failure; in this library's single-error model the original
//! error is dropped when recovery succeeds, and reported when it fails.

use vstd::prelude::*;
use crate::error::{ErrV, Located, PResult, Simple};
use crate::parser::Emitter;
use crate::input::Input;
use crate::parser::{Mode, Parser, Step, step_in_bounds};

verus! {

/// How to recover from a parsing failure: given the cursor rewound to where
/// the failed parser started and the error it failed with, either produce a
/// substitute value or give the failure back.
pub trait Strategy<O: DeepView>: Sized {
    /// The strategy's configuration is well formed.
    spec fn swf(&self) -> bool;

    /// What recovering at `pos` from `err` does.
    spec fn ssp(&self, src: Seq<char>, pos: int, err: ErrV) -> Step<O::V>;

    /// Recovery stays within the source and never moves the cursor before
    /// the position it started from.
    proof fn lemma_ssp_in_bounds(&self, src: Seq<char>, pos: int, err: ErrV)
        requires
            self.swf(),
            0 <= pos <= src.len(),
        ensures
            step_in_bounds(self.ssp(src, pos, err), pos, src.len() as int),
    ;

    /// Attempts to recover from a parsing failure. The cursor has already
    /// been rewound to where the failed parser started.
    fn recover<'p, C, M: Mode>(&self, inp: &mut Input<'p, C>, error: Simple) -> (r: Result<
        Option<O>,
        Simple,
    >)
        requires
            self.swf(),
            old(inp).wf(),
        ensures
            final(inp).same_parse(old(inp)),
            final(inp).wf(),
            (match r {
                Ok(out) => self.ssp(old(inp).src(), old(inp).pos(), error@) matches Step::Parsed {
                    next,
                    val,
                } && next == final(inp).pos() && (if M::emits() {
                    out matches Some(o) && o.deep_view() == val
                } else {
                    out is None
                }),
                Err(e) => self.ssp(old(inp).src(), old(inp).pos(), error@) matches Step::Failed {
                    at,
                    err: err2,
                } && at == final(inp).pos() && err2 == e@,
            }),
    ;
}

/// The recovery strategy that does nothing: the failure stands.
#[derive(Default, Clone, Copy)]
pub struct NoOp;

/// The strategy that recovers nothing.
pub fn noop() -> (r: NoOp)
    ensures
        r == NoOp,
{
    NoOp
}

impl<O: DeepView> Strategy<O> for NoOp {
    open spec fn swf(&self) -> bool {
        true
    }

    open spec fn ssp(&self, src: Seq<char>, pos: int, err: ErrV) -> Step<O::V> {
        Step::Failed { at: pos, err }
    }

    proof fn lemma_ssp_in_bounds(&self, src: Seq<char>, pos: int, err: ErrV) {
    }

    fn recover<'p, C, M: Mode>(&self, inp: &mut Input<'p, C>, error: Simple) -> (r: Result<
        Option<O>,
        Simple,
    >) {
        Err(error)
    }
}

/// Recovers by running another parser where the failed one started; if it
/// also fails, the original failure stands.
#[derive(Copy, Clone)]
pub struct ViaParser<A>(pub A);

/// Recovery through the given parser.
pub fn via_parser<A>(parser: A) -> (r: ViaParser<A>)
    ensures
        r == ViaParser(parser),
{
    ViaParser(parser)
}

impl<O: DeepView, A: Parser<O>> Strategy<O> for ViaParser<A> {
    open spec fn swf(&self) -> bool {
        self.0.wf()
    }

    open spec fn ssp(&self, src: Seq<char>, pos: int, err: ErrV) -> Step<O::V> {
        match self.0.sp(src, pos) {
            Step::Parsed { next, val } => Step::Parsed { next, val },
            Step::Failed { at, .. } => Step::Failed { at, err },
        }
    }

    proof fn lemma_ssp_in_bounds(&self, src: Seq<char>, pos: int, err: ErrV) {
        self.0.lemma_sp_in_bounds(src, pos);
    }

    fn recover<'p, C, M: Mode>(&self, inp: &mut Input<'p, C>, error: Simple) -> (r: Result<
        Option<O>,
        Simple,
    >) {
        match self.0.go::<C, M>(inp) {
            Ok(out) => Ok(out),
            Err(_) => Err(error),
        }
    }
}

/// Runs the inner parser; on failure, rewinds and hands the failure to the
/// strategy, rewinding again if the strategy fails too.
#[derive(Copy, Clone)]
pub struct RecoverWith<A, S> {
    pub parser: A,
    pub strategy: S,
}

/// Tries `parser`, recovering from its failures with `strategy`.
pub fn recover_with<A, S>(parser: A, strategy: S) -> (r: RecoverWith<A, S>)
    ensures
        r == (RecoverWith { parser, strategy }),
{
    RecoverWith { parser, strategy }
}

impl<A, S> RecoverWith<A, S> {
    /// Runs this parser and, where the inner parser's failure was replaced
    /// by a recovered value, records that original failure through
    /// `diagnostics` as a secondary diagnostic, located at the position the
    /// recovery left the cursor at. Where nothing was recovered — the inner
    /// parser succeeded, or the strategy failed too — the diagnostics are
    /// untouched.
    pub fn parse_recovering<'p, C, O: DeepView>(
        &self,
        inp: &mut Input<'p, C>,
        diagnostics: &mut Emitter<Located<usize, Simple>>,
    ) -> (r: PResult<O>) where A: Parser<O>, S: Strategy<O>
        requires
            self.wf(),
            old(inp).wf(),
        ensures
            final(inp).same_parse(old(inp)),
            final(inp).wf(),
            (match r {
                Ok(o) => self.sp(old(inp).src(), old(inp).pos()) == (Step::<O::V>::Parsed {
                    next: final(inp).pos(),
                    val: o.deep_view(),
                }),
                Err(e) => self.sp(old(inp).src(), old(inp).pos()) == (Step::<O::V>::Failed {
                    at: final(inp).pos(),
                    err: e@,
                }),
            }),
            (match self.parser.sp(old(inp).src(), old(inp).pos()) {
                Step::Failed { err, .. } => if r is Ok {
                    exists|l: Located<usize, Simple>|
                        final(diagnostics).0@ == old(diagnostics).0@.push(l) && l.err@ == err
                            && l.pos == final(inp).offset
                } else {
                    final(diagnostics).0@ == old(diagnostics).0@
                },
                Step::Parsed { .. } => final(diagnostics).0@ == old(diagnostics).0@,
            }),
    {
        let before = inp.save();
        match self.parser.parse_with(inp) {
            Ok(o) => Ok(o),
            Err(error) => {
                inp.rewind(before);
                let orig = error.dup();
                match self.strategy.recover::<C, crate::parser::Emit>(inp, error) {
                    Ok(Some(o)) => {
                        let l = Located::at(inp.offset(), orig);
                        diagnostics.emit(l);
                        proof {
                            assert(final(diagnostics).0@ == old(diagnostics).0@.push(l));
                        }
                        Ok(o)
                    },
                    Ok(None) => vstd::pervasive::unreached(),
                    Err(rec_error) => {
                        inp.rewind(before);
                        Err(rec_error)
                    },
                }
            },
        }
    }
}

impl<O: DeepView, A: Parser<O>, S: Strategy<O>> Parser<O> for RecoverWith<A, S> {
    open spec fn wf(&self) -> bool {
        self.parser.wf() && self.strategy.swf()
    }

    open spec fn sp(&self, src: Seq<char>, pos: int) -> Step<O::V> {
        match self.parser.sp(src, pos) {
            Step::Parsed { next, val } => Step::Parsed { next, val },
            Step::Failed { at, err } => match self.strategy.ssp(src, pos, err) {
                Step::Parsed { next, val } => Step::Parsed { next, val },
                Step::Failed { err: err2, .. } => Step::Failed { at: pos, err: err2 },
            },
        }
    }

    proof fn lemma_sp_in_bounds(&self, src: Seq<char>, pos: int) {
        self.parser.lemma_sp_in_bounds(src, pos);
        match self.parser.sp(src, pos) {
            Step::Parsed { .. } => {},
            Step::Failed { at, err } => {
                self.strategy.lemma_ssp_in_bounds(src, pos, err);
            },
        }
    }

    fn go<'p, C, M: Mode>(&self, inp: &mut Input<'p, C>) -> (r: Result<Option<O>, Simple>) {
        let before = inp.save();
        match self.parser.go::<C, M>(inp) {
            Ok(out) => Ok(out),
            Err(error) => {
                inp.rewind(before);
                match self.strategy.recover::<C, M>(inp, error) {
                    Ok(out) => Ok(out),
                    Err(rec_error) => {
                        inp.rewind(before);
                        Err(rec_error)
                    },
                }
            },
        }
    }
}

} // verus!
