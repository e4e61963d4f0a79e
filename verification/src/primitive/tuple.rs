//! Sequential composition: `then` and friends, and tuples of parsers run in
//! order.

use vstd::prelude::*;
use crate::error::Simple;
use crate::input::Input;
use crate::parser::{Check, Mode, Parser, Step};

verus! {

/// Sequential composition of two parsers. If `KEEP_BOTH`, the outputs are
/// collected into a pair. Otherwise only one side's output is kept: the
/// second's if `IGNORE_FIRST`, the first's if not. Failure of either side
/// fails the whole with no rewind.
pub struct Then<O1, O2, A, B, const KEEP_BOTH: bool, const IGNORE_FIRST: bool>(
    pub A,
    pub B,
    pub core::marker::PhantomData<(O1, O2)>,
);

impl<O1: DeepView, O2: DeepView, A: Parser<O1>, B: Parser<O2>> Parser<(O1, O2)> for Then<
    O1,
    O2,
    A,
    B,
    true,
    false,
> {
    open spec fn wf(&self) -> bool {
        self.0.wf() && self.1.wf()
    }

    open spec fn sp(&self, src: Seq<char>, pos: int) -> Step<(O1::V, O2::V)> {
        match self.0.sp(src, pos) {
            Step::Parsed { next, val } => match self.1.sp(src, next) {
                Step::Parsed { next: next2, val: val2 } => (Step::Parsed {
                    next: next2,
                    val: (val, val2),
                }),
                Step::Failed { at, err } => Step::Failed { at, err },
            },
            Step::Failed { at, err } => Step::Failed { at, err },
        }
    }

    proof fn lemma_sp_in_bounds(&self, src: Seq<char>, pos: int) {
        self.0.lemma_sp_in_bounds(src, pos);
        match self.0.sp(src, pos) {
            Step::Parsed { next, .. } => {
                self.1.lemma_sp_in_bounds(src, next);
            },
            Step::Failed { .. } => {},
        }
    }

    fn go<'p, C, M: Mode>(&self, inp: &mut Input<'p, C>) -> (r: Result<Option<(O1, O2)>, Simple>) {
        match self.0.go::<C, M>(inp) {
            Ok(a) => match self.1.go::<C, M>(inp) {
                Ok(b) => if M::is_emit() {
                    match (a, b) {
                        (Some(av), Some(bv)) => Ok(Some((av, bv))),
                        _ => vstd::pervasive::unreached(),
                    }
                } else {
                    Ok(None)
                },
                Err(e) => Err(e),
            },
            Err(e) => Err(e),
        }
    }
}

impl<O1: DeepView, O2: DeepView, A: Parser<O1>, B: Parser<O2>> Parser<O1> for Then<
    O1,
    O2,
    A,
    B,
    false,
    false,
> {
    open spec fn wf(&self) -> bool {
        self.0.wf() && self.1.wf()
    }

    open spec fn sp(&self, src: Seq<char>, pos: int) -> Step<O1::V> {
        match self.0.sp(src, pos) {
            Step::Parsed { next, val } => match self.1.sp(src, next) {
                Step::Parsed { next: next2, .. } => Step::Parsed { next: next2, val },
                Step::Failed { at, err } => Step::Failed { at, err },
            },
            Step::Failed { at, err } => Step::Failed { at, err },
        }
    }

    proof fn lemma_sp_in_bounds(&self, src: Seq<char>, pos: int) {
        self.0.lemma_sp_in_bounds(src, pos);
        match self.0.sp(src, pos) {
            Step::Parsed { next, .. } => {
                self.1.lemma_sp_in_bounds(src, next);
            },
            Step::Failed { .. } => {},
        }
    }

    fn go<'p, C, M: Mode>(&self, inp: &mut Input<'p, C>) -> (r: Result<Option<O1>, Simple>) {
        match self.0.go::<C, M>(inp) {
            Ok(a) => match self.1.go::<C, Check>(inp) {
                Ok(_) => Ok(a),
                Err(e) => Err(e),
            },
            Err(e) => Err(e),
        }
    }
}

impl<O1: DeepView, O2: DeepView, A: Parser<O1>, B: Parser<O2>> Parser<O2> for Then<
    O1,
    O2,
    A,
    B,
    false,
    true,
> {
    open spec fn wf(&self) -> bool {
        self.0.wf() && self.1.wf()
    }

    open spec fn sp(&self, src: Seq<char>, pos: int) -> Step<O2::V> {
        match self.0.sp(src, pos) {
            Step::Parsed { next, .. } => self.1.sp(src, next),
            Step::Failed { at, err } => Step::Failed { at, err },
        }
    }

    proof fn lemma_sp_in_bounds(&self, src: Seq<char>, pos: int) {
        self.0.lemma_sp_in_bounds(src, pos);
        match self.0.sp(src, pos) {
            Step::Parsed { next, .. } => {
                self.1.lemma_sp_in_bounds(src, next);
            },
            Step::Failed { .. } => {},
        }
    }

    fn go<'p, C, M: Mode>(&self, inp: &mut Input<'p, C>) -> (r: Result<Option<O2>, Simple>) {
        match self.0.go::<C, Check>(inp) {
            Ok(_) => self.1.go::<C, M>(inp),
            Err(e) => Err(e),
        }
    }
}

/// Sequences `first` with `second`, keeping both outputs as a pair.
pub fn then<O1, O2, A, B>(first: A, second: B) -> (r: Then<O1, O2, A, B, true, false>)
    ensures
        r.0 == first,
        r.1 == second,
{
    Then(first, second, core::marker::PhantomData)
}

/// Sequences `first` with `second`, keeping only `second`'s output.
pub fn ignore_then<O1, O2, A, B>(first: A, second: B) -> (r: Then<O1, O2, A, B, false, true>)
    ensures
        r.0 == first,
        r.1 == second,
{
    Then(first, second, core::marker::PhantomData)
}

/// Sequences `first` with `second`, keeping only `first`'s output.
pub fn then_ignore<O1, O2, A, B>(first: A, second: B) -> (r: Then<O1, O2, A, B, false, false>)
    ensures
        r.0 == first,
        r.1 == second,
{
    Then(first, second, core::marker::PhantomData)
}

/// Runs each parser of a tuple in order, failing on the first failure and
/// combining the outputs into a tuple.
pub fn tuple<T>(parsers: T) -> (r: T)
    ensures
        r == parsers,
{
    parsers
}

impl<O1: DeepView, O2: DeepView, A: Parser<O1>, B: Parser<O2>> Parser<(O1, O2)> for (A, B) {
    open spec fn wf(&self) -> bool {
        self.0.wf() && self.1.wf()
    }

    open spec fn sp(&self, src: Seq<char>, pos: int) -> Step<(O1::V, O2::V)> {
        match self.0.sp(src, pos) {
            Step::Parsed { next, val } => match self.1.sp(src, next) {
                Step::Parsed { next: next2, val: val2 } => (Step::Parsed {
                    next: next2,
                    val: (val, val2),
                }),
                Step::Failed { at, err } => Step::Failed { at, err },
            },
            Step::Failed { at, err } => Step::Failed { at, err },
        }
    }

    proof fn lemma_sp_in_bounds(&self, src: Seq<char>, pos: int) {
        self.0.lemma_sp_in_bounds(src, pos);
        match self.0.sp(src, pos) {
            Step::Parsed { next, .. } => {
                self.1.lemma_sp_in_bounds(src, next);
            },
            Step::Failed { .. } => {},
        }
    }

    fn go<'p, C, M: Mode>(&self, inp: &mut Input<'p, C>) -> (r: Result<Option<(O1, O2)>, Simple>) {
        match self.0.go::<C, M>(inp) {
            Ok(a) => match self.1.go::<C, M>(inp) {
                Ok(b) => if M::is_emit() {
                    match (a, b) {
                        (Some(av), Some(bv)) => Ok(Some((av, bv))),
                        _ => vstd::pervasive::unreached(),
                    }
                } else {
                    Ok(None)
                },
                Err(e) => Err(e),
            },
            Err(e) => Err(e),
        }
    }
}

impl<
    O1: DeepView,
    O2: DeepView,
    O3: DeepView,
    A: Parser<O1>,
    B: Parser<O2>,
    D: Parser<O3>,
> Parser<(O1, O2, O3)> for (A, B, D) {
    open spec fn wf(&self) -> bool {
        self.0.wf() && self.1.wf() && self.2.wf()
    }

    open spec fn sp(&self, src: Seq<char>, pos: int) -> Step<(O1::V, O2::V, O3::V)> {
        match self.0.sp(src, pos) {
            Step::Parsed { next, val } => match self.1.sp(src, next) {
                Step::Parsed { next: next2, val: val2 } => match self.2.sp(src, next2) {
                    Step::Parsed { next: next3, val: val3 } => (Step::Parsed {
                        next: next3,
                        val: (val, val2, val3),
                    }),
                    Step::Failed { at, err } => Step::Failed { at, err },
                },
                Step::Failed { at, err } => Step::Failed { at, err },
            },
            Step::Failed { at, err } => Step::Failed { at, err },
        }
    }

    proof fn lemma_sp_in_bounds(&self, src: Seq<char>, pos: int) {
        self.0.lemma_sp_in_bounds(src, pos);
        match self.0.sp(src, pos) {
            Step::Parsed { next, .. } => {
                self.1.lemma_sp_in_bounds(src, next);
                match self.1.sp(src, next) {
                    Step::Parsed { next: next2, .. } => {
                        self.2.lemma_sp_in_bounds(src, next2);
                    },
                    Step::Failed { .. } => {},
                }
            },
            Step::Failed { .. } => {},
        }
    }

    fn go<'p, C, M: Mode>(&self, inp: &mut Input<'p, C>) -> (r: Result<
        Option<(O1, O2, O3)>,
        Simple,
    >) {
        match self.0.go::<C, M>(inp) {
            Ok(a) => match self.1.go::<C, M>(inp) {
                Ok(b) => match self.2.go::<C, M>(inp) {
                    Ok(d) => if M::is_emit() {
                        match (a, b, d) {
                            (Some(av), Some(bv), Some(dv)) => Ok(Some((av, bv, dv))),
                            _ => vstd::pervasive::unreached(),
                        }
                    } else {
                        Ok(None)
                    },
                    Err(e) => Err(e),
                },
                Err(e) => Err(e),
            },
            Err(e) => Err(e),
        }
    }
}

} // verus!
