//! The parser contract: the capability every combinator implements, stated
//! against a mathematical semantics, together with the execution-mode witness
//! that lets one combinator body serve both the value-producing and the
//! validating call shapes.

use vstd::prelude::*;
use crate::error::{ErrV, PResult, Simple, Span};
use crate::input::Input;

verus! {

/// The mathematical outcome of running a parser over source `src` from a
/// position: either it parses a value and leaves the cursor at `next`, or it
/// fails with an error, leaving the cursor at the failure point `at`.
pub enum Step<V> {
    Parsed { next: int, val: V },
    Failed { at: int, err: ErrV },
}

/// The position a step leaves the cursor at.
pub open spec fn step_pos<V>(s: Step<V>) -> int {
    match s {
        Step::Parsed { next, .. } => next,
        Step::Failed { at, .. } => at,
    }
}

/// A step that starts at `pos` in a source of length `len` stays within the
/// source and never moves the cursor backwards past its starting point.
pub open spec fn step_in_bounds<V>(s: Step<V>, pos: int, len: int) -> bool {
    pos <= step_pos(s) <= len
}

/// An abstract parse mode: [`Emit`] or [`Check`] in practice. The mode says
/// whether the run materializes an output value or only validates; both modes
/// consume the same tokens and fail at the same points, which the parser
/// contract states once over the shared semantics.
pub trait Mode {
    /// Whether this mode materializes output values.
    spec fn emits() -> bool;

    /// The runtime witness of [`Mode::emits`].
    fn is_emit() -> (b: bool)
        ensures
            b == Self::emits(),
    ;
}

/// Emit mode: parser output is produced.
pub struct Emit;

impl Mode for Emit {
    open spec fn emits() -> bool {
        true
    }

    fn is_emit() -> bool {
        true
    }
}

/// Check mode: output is discarded, parsers only check validity.
pub struct Check;

impl Mode for Check {
    open spec fn emits() -> bool {
        false
    }

    fn is_emit() -> bool {
        false
    }
}

/// The capability every combinator implements: its behaviour is one
/// mathematical function [`Parser::sp`] of the source and start position, and
/// the executable entry points are proved to follow it exactly, whichever
/// mode they run under.
pub trait Parser<O: DeepView>: Sized {
    /// The parser value is well formed: its configuration admits running it.
    spec fn wf(&self) -> bool;

    /// The semantics: what this parser does on `src` starting at `pos`.
    spec fn sp(&self, src: Seq<char>, pos: int) -> Step<O::V>;

    /// The semantics keeps the cursor inside the source and never moves it
    /// before the position it started from.
    proof fn lemma_sp_in_bounds(&self, src: Seq<char>, pos: int)
        requires
            self.wf(),
            0 <= pos <= src.len(),
        ensures
            step_in_bounds(self.sp(src, pos), pos, src.len() as int),
    ;

    /// Runs this parser under mode `M`: the one entry point combinators
    /// implement. In [`Emit`] mode a value is produced; in [`Check`] mode
    /// none is, but consumption and failure are identical, as both are pinned
    /// to [`Parser::sp`].
    fn go<'p, C, M: Mode>(&self, inp: &mut Input<'p, C>) -> (r: Result<Option<O>, Simple>)
        requires
            self.wf(),
            old(inp).wf(),
        ensures
            final(inp).same_parse(old(inp)),
            final(inp).wf(),
            (match r {
                Ok(out) => self.sp(old(inp).src(), old(inp).pos()) matches Step::Parsed {
                    next,
                    val,
                } && next == final(inp).pos() && (if M::emits() {
                    out matches Some(o) && o.deep_view() == val
                } else {
                    out is None
                }),
                Err(e) => self.sp(old(inp).src(), old(inp).pos()) == (Step::<O::V>::Failed {
                    at: final(inp).pos(),
                    err: e@,
                }),
            }),
    ;

    /// Runs the parser logic, producing an output or an error.
    fn parse_with<'p, C>(&self, inp: &mut Input<'p, C>) -> (r: PResult<O>)
        requires
            self.wf(),
            old(inp).wf(),
        ensures
            final(inp).same_parse(old(inp)),
            final(inp).wf(),
            (match r {
                Ok(o) => self.sp(old(inp).src(), old(inp).pos()) == (Step::<O::V>::Parsed {
                    next: final(inp).pos(),
                    val: o.deep_view(),
                }),
                Err(e) => self.sp(old(inp).src(), old(inp).pos()) == (Step::<O::V>::Failed {
                    at: final(inp).pos(),
                    err: e@,
                }),
            }),
    {
        match self.go::<C, Emit>(inp) {
            Ok(Some(o)) => Ok(o),
            Ok(None) => vstd::pervasive::unreached(),
            Err(e) => Err(e),
        }
    }

    /// Runs the parser logic without producing output: same consumption, same
    /// failures, no value.
    fn check_with<'p, C>(&self, inp: &mut Input<'p, C>) -> (r: PResult<()>)
        requires
            self.wf(),
            old(inp).wf(),
        ensures
            final(inp).same_parse(old(inp)),
            final(inp).wf(),
            (match r {
                Ok(()) => self.sp(old(inp).src(), old(inp).pos()) matches Step::Parsed { next, .. }
                    && next == final(inp).pos(),
                Err(e) => self.sp(old(inp).src(), old(inp).pos()) == (Step::<O::V>::Failed {
                    at: final(inp).pos(),
                    err: e@,
                }),
            }),
    {
        match self.go::<C, Check>(inp) {
            Ok(_) => Ok(()),
            Err(e) => Err(e),
        }
    }

    /// Invokes this parser on a source, with no context.
    fn parse(&self, input: &[char]) -> (r: PResult<O>)
        requires
            self.wf(),
        ensures
            (match r {
                Ok(o) => self.sp(input@, 0) matches Step::Parsed { next, val } && val
                    == o.deep_view(),
                Err(e) => self.sp(input@, 0) matches Step::Failed { at, err } && err == e@,
            }),
    {
        let mut inp = Input::new(input);
        self.parse_with(&mut inp)
    }

    /// Invokes this parser on a source, threading the given context through
    /// the parse.
    fn parse_with_context<C>(&self, input: &[char], context: &C) -> (r: PResult<O>)
        requires
            self.wf(),
        ensures
            (match r {
                Ok(o) => self.sp(input@, 0) matches Step::Parsed { next, val } && val
                    == o.deep_view(),
                Err(e) => self.sp(input@, 0) matches Step::Failed { at, err } && err == e@,
            }),
    {
        let mut inp = Input::new_with_context(input, context);
        self.parse_with(&mut inp)
    }

    /// Tries this parser; on failure rewinds and tries `other`.
    fn or<B>(self, other: B) -> (r: crate::primitive::map::Or<Self, B>)
        ensures
            r == crate::primitive::map::Or(self, other),
    {
        crate::primitive::map::Or(self, other)
    }

    /// Transforms this parser's output with `mapper`.
    fn map<U: DeepView, F: Fn(O) -> U>(self, mapper: F) -> (r: crate::primitive::map::Mapped<
        Self,
        O,
        F,
        U,
    >)
        ensures
            r == (crate::primitive::map::Mapped(
                self,
                core::marker::PhantomData::<O>,
                mapper,
                core::marker::PhantomData::<U>,
            )),
    {
        crate::primitive::map::Mapped(
            self,
            core::marker::PhantomData,
            mapper,
            core::marker::PhantomData,
        )
    }

    /// Replaces this parser's output with `value`.
    fn to<U: DeepView + Copy>(self, value: U) -> (r: crate::primitive::map::To<Self, O, U>)
        ensures
            r == (crate::primitive::map::To(self, value, core::marker::PhantomData::<O>)),
    {
        crate::primitive::map::To(self, value, core::marker::PhantomData)
    }

    /// Discards this parser's output.
    fn ignored(self) -> (r: crate::primitive::Ignored<Self, O>)
        ensures
            r == (crate::primitive::Ignored(self, core::marker::PhantomData::<O>)),
    {
        crate::primitive::Ignored(self, core::marker::PhantomData)
    }

    /// Transforms this parser's output with a mapping that may itself fail,
    /// reported at the span the output was parsed from.
    fn try_map<U: DeepView, F: Fn(O, Span) -> Result<U, Simple>>(self, f: F) -> (r:
        crate::primitive::map::TryMapWith<Self, F, O, U>)
        ensures
            r == (crate::primitive::map::TryMapWith(
                self,
                f,
                core::marker::PhantomData::<(O, U)>,
            )),
    {
        crate::primitive::map::TryMapWith(self, f, core::marker::PhantomData)
    }

    /// Makes this parser optional: failure is rewound and becomes `None`.
    fn optional(self) -> (r: crate::primitive::Maybe<Self>)
        ensures
            r == crate::primitive::Maybe(self),
    {
        crate::primitive::Maybe(self)
    }

    /// Repeats this parser zero or more times.
    fn repeated(self) -> (r: crate::primitive::sequence::Repeated<Self, O>)
        ensures
            r.parser == self,
            r.at_least == 0,
            r.at_most == u64::MAX,
    {
        crate::primitive::sequence::Repeated {
            parser: self,
            at_least: 0,
            at_most: u64::MAX,
            phantom: core::marker::PhantomData,
        }
    }

    /// Sequences this parser with `other`, keeping both outputs as a pair.
    fn then<O2, P2>(self, other: P2) -> (r: crate::primitive::tuple::Then<O, O2, Self, P2, true,
        false,
    >)
        ensures
            r.0 == self,
            r.1 == other,
    {
        crate::primitive::tuple::Then(self, other, core::marker::PhantomData)
    }

    /// Sequences this parser with `other`, keeping only `other`'s output.
    fn ignore_then<O2, P2>(self, other: P2) -> (r: crate::primitive::tuple::Then<O, O2, Self, P2,
        false,
        true,
    >)
        ensures
            r.0 == self,
            r.1 == other,
    {
        crate::primitive::tuple::Then(self, other, core::marker::PhantomData)
    }

    /// Sequences this parser with `other`, keeping only this parser's output.
    fn then_ignore<O2, P2>(self, other: P2) -> (r: crate::primitive::tuple::Then<O, O2, Self, P2,
        false,
        false,
    >)
        ensures
            r.0 == self,
            r.1 == other,
    {
        crate::primitive::tuple::Then(self, other, core::marker::PhantomData)
    }

    /// Repeats this parser with `delimiter` between consecutive items.
    fn separated_by<OD, D>(self, delimiter: D) -> (r: crate::primitive::sequence::SeparatedBy<
        Self,
        D,
        O,
        OD,
    >)
        ensures
            r.parser == self,
            r.delimiter == delimiter,
            r.at_least == 0,
            r.at_most == u64::MAX,
            !r.allow_leading,
            !r.allow_trailing,
    {
        crate::primitive::sequence::SeparatedBy {
            parser: self,
            delimiter,
            at_least: 0,
            at_most: u64::MAX,
            allow_leading: false,
            allow_trailing: false,
            phantom: core::marker::PhantomData,
        }
    }

    /// This parser between two delimiters whose outputs are discarded.
    fn delimited_by<O1, O2, P1, P2>(self, preceding: P1, terminating: P2) -> (r:
        crate::primitive::sequence::Delimited<P1, Self, P2, O1, O, O2>)
        ensures
            r.0 == preceding,
            r.1 == self,
            r.2 == terminating,
    {
        crate::primitive::sequence::Delimited(
            preceding,
            self,
            terminating,
            core::marker::PhantomData,
        )
    }

    /// Accepts and ignores any whitespace before and after this parser.
    fn padded(self) -> (r: crate::text::Padded<Self>)
        ensures
            r == crate::text::Padded(self),
    {
        crate::text::Padded(self)
    }

    /// Tries to recover from this parser's failures with the given strategy.
    fn recover_with<S>(self, strategy: S) -> (r: crate::recovery::RecoverWith<Self, S>)
        ensures
            r.parser == self,
            r.strategy == strategy,
    {
        crate::recovery::RecoverWith { parser: self, strategy }
    }

    /// The tokens this parser consumes, copied out, in place of its output.
    fn slice(self) -> (r: crate::primitive::sequence::Slice<Self, O>)
        ensures
            r == (crate::primitive::sequence::Slice(self, core::marker::PhantomData::<O>)),
    {
        crate::primitive::sequence::Slice(self, core::marker::PhantomData)
    }}



/// The closure `f` may be called on any argument.
pub open spec fn pred_total<T: DeepView, F: Fn(&T) -> bool>(f: F) -> bool {
    forall|x: T| #[trigger] call_requires(f, (&x,))
}

/// What the closure `f` returns is a function of its argument's mathematical
/// value alone.
pub open spec fn pred_determined<T: DeepView, F: Fn(&T) -> bool>(f: F) -> bool {
    forall|x1: T, x2: T, b1: bool, b2: bool|
        x1.deep_view() == x2.deep_view() && #[trigger] call_ensures(f, (&x1,), b1)
            && #[trigger] call_ensures(f, (&x2,), b2) ==> b1 == b2
}

/// The predicate `f` stands for, over mathematical values.
pub open spec fn pred_of<T: DeepView, F: Fn(&T) -> bool>(f: F, v: T::V) -> bool {
    exists|x: T| x.deep_view() == v && #[trigger] call_ensures(f, (&x,), true)
}

/// Running a total, determined predicate closure yields exactly [`pred_of`].
pub proof fn lemma_pred_of<T: DeepView, F: Fn(&T) -> bool>(f: F, x: T, b: bool)
    requires
        pred_determined(f),
        call_ensures(f, (&x,), b),
    ensures
        b == pred_of(f, x.deep_view()),
{
    if b {
        assert(pred_of(f, x.deep_view()));
    } else {
        if pred_of(f, x.deep_view()) {
            let x2 = choose|x2: T|
                x2.deep_view() == x.deep_view() && call_ensures(f, (&x2,), true);
            assert(false);
        }
    }
}

/// The closure `f` may be called on any argument (by-value form).
pub open spec fn fun_total<T: DeepView, U: DeepView, F: Fn(T) -> U>(f: F) -> bool {
    forall|x: T| #[trigger] call_requires(f, (x,))
}

/// What the closure `f` returns has a mathematical value that is a function
/// of its argument's mathematical value alone.
pub open spec fn fun_determined<T: DeepView, U: DeepView, F: Fn(T) -> U>(f: F) -> bool {
    forall|x1: T, x2: T, y1: U, y2: U|
        x1.deep_view() == x2.deep_view() && #[trigger] call_ensures(f, (x1,), y1)
            && #[trigger] call_ensures(f, (x2,), y2) ==> y1.deep_view() == y2.deep_view()
}

/// The mathematical function `f` stands for.
pub open spec fn fun_of<T: DeepView, U: DeepView, F: Fn(T) -> U>(f: F, v: T::V) -> U::V {
    (choose|x: T, y: U| x.deep_view() == v && #[trigger] call_ensures(f, (x,), y)).1.deep_view()
}

/// Running a total, determined closure yields exactly [`fun_of`].
pub proof fn lemma_fun_of<T: DeepView, U: DeepView, F: Fn(T) -> U>(f: F, x: T, y: U)
    requires
        fun_determined(f),
        call_ensures(f, (x,), y),
    ensures
        y.deep_view() == fun_of(f, x.deep_view()),
{
    let (x2, y2) = choose|x2: T, y2: U|
        x2.deep_view() == x.deep_view() && #[trigger] call_ensures(f, (x2,), y2);
    assert(x2.deep_view() == x.deep_view() && call_ensures(f, (x2,), y2));
}

/// Collects secondary diagnostics emitted while validating: the opt-in
/// accumulation extension's sink.
pub struct Emitter<E>(pub Vec<E>);

impl<E> Emitter<E> {
    /// Records an error.
    pub fn emit(&mut self, error: E)
        ensures
            final(self).0@ == old(self).0@.push(error),
    {
        self.0.push(error);
    }
}

} // verus!

