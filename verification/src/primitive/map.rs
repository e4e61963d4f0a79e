//! Alternation and output transformation: `or`, `map`, `to`, and the extra
//! parse-state view handed to mapping functions.

use vstd::prelude::*;
use crate::error::{ErrV, Simple, Span};
use crate::input::Input;
use crate::parser::{
    fun_determined, fun_of, fun_total, lemma_fun_of, Check, Emit, Mode, Parser, Step,
};

verus! {

/// A read-only view of the parse state handed to mapping functions: the span
/// just consumed, its zero-copy slice, and the context.
pub struct MapExtra<'i, 'p, C> {
    pub start: usize,
    pub input: &'i Input<'p, C>,
}

impl<'i, 'p, C> MapExtra<'i, 'p, C> {
    /// The span of the tokens consumed by the parser being mapped over.
    pub fn span(&self) -> (r: crate::error::Span)
        ensures
            r.start == self.start,
            r.end == self.input.offset,
    {
        self.input.span_since(self.start)
    }

    /// The zero-copy view of the tokens consumed by the parser being mapped
    /// over.
    pub fn slice(&self) -> (r: &'p [char])
        requires
            self.input.wf(),
            self.start <= self.input.offset,
        ensures
            r@ == self.input.src().subrange(self.start as int, self.input.pos()),
    {
        self.input.slice_since(self.start)
    }

    /// The context of the parse.
    pub fn context(&self) -> (r: &'p C)
        ensures
            r == self.input.cx,
    {
        self.input.context()
    }
}

/// Tries the first parser; on failure rewinds and tries the second. The
/// second failure, if any, is the one reported.
pub struct Or<A, B>(pub A, pub B);

impl<O: DeepView, A: Parser<O>, B: Parser<O>> Parser<O> for Or<A, B> {
    open spec fn wf(&self) -> bool {
        self.0.wf() && self.1.wf()
    }

    open spec fn sp(&self, src: Seq<char>, pos: int) -> Step<O::V> {
        match self.0.sp(src, pos) {
            Step::Parsed { next, val } => Step::Parsed { next, val },
            Step::Failed { .. } => self.1.sp(src, pos),
        }
    }

    proof fn lemma_sp_in_bounds(&self, src: Seq<char>, pos: int) {
        self.0.lemma_sp_in_bounds(src, pos);
        self.1.lemma_sp_in_bounds(src, pos);
    }

    fn go<'p, C, M: Mode>(&self, inp: &mut Input<'p, C>) -> (r: Result<Option<O>, Simple>) {
        let befunge = inp.save();
        match self.0.go::<C, M>(inp) {
            Ok(out) => Ok(out),
            Err(_) => {
                inp.rewind(befunge);
                self.1.go::<C, M>(inp)
            },
        }
    }
}

/// Alternation backtracks fully: on an input where the first alternative
/// fails and the second succeeds, `or` produces the second\'s result exactly
/// as if the first had never been tried.
pub proof fn lemma_or_backtracks<O: DeepView, A: Parser<O>, B: Parser<O>>(
    p: Or<A, B>,
    src: Seq<char>,
    pos: int,
)
    requires
        p.0.sp(src, pos) is Failed,
    ensures
        p.sp(src, pos) == p.1.sp(src, pos),
{
}

/// Transforms the inner parser\'s output with a mapping function; consumption
/// and failure are exactly the inner parser's.
pub struct Mapped<A, O, F, U>(
    pub A,
    pub core::marker::PhantomData<O>,
    pub F,
    pub core::marker::PhantomData<U>,
);

impl<
    O: DeepView,
    U: DeepView,
    A: Parser<O>,
    F: Fn(O) -> U,
> Parser<U> for Mapped<A, O, F, U> {
    open spec fn wf(&self) -> bool {
        self.0.wf() && fun_total(self.2) && fun_determined(self.2)
    }

    open spec fn sp(&self, src: Seq<char>, pos: int) -> Step<U::V> {
        match self.0.sp(src, pos) {
            Step::Parsed { next, val } => Step::Parsed { next, val: fun_of(self.2, val) },
            Step::Failed { at, err } => Step::Failed { at, err },
        }
    }

    proof fn lemma_sp_in_bounds(&self, src: Seq<char>, pos: int) {
        self.0.lemma_sp_in_bounds(src, pos);
    }

    fn go<'p, C, M: Mode>(&self, inp: &mut Input<'p, C>) -> (r: Result<Option<U>, Simple>) {
        if M::is_emit() {
            match self.0.go::<C, M>(inp) {
                Ok(out) => match out {
                    Some(o) => {
                        let ghost og = o;
                        let u = (self.2)(o);
                        proof {
                            lemma_fun_of(self.2, og, u);
                        }
                        Ok(Some(u))
                    },
                    None => vstd::pervasive::unreached(),
                },
                Err(e) => Err(e),
            }
        } else {
            match self.0.go::<C, M>(inp) {
                Ok(_) => Ok(None),
                Err(e) => Err(e),
            }
        }
    }
}

/// Replaces the inner parser's output with a fixed value; consumption and
/// failure are exactly the inner parser's.
pub struct To<A, O, U>(pub A, pub U, pub core::marker::PhantomData<O>);

impl<O: DeepView, U: DeepView + Copy, A: Parser<O>> Parser<U> for To<A, O, U> {
    open spec fn wf(&self) -> bool {
        self.0.wf()
    }

    open spec fn sp(&self, src: Seq<char>, pos: int) -> Step<U::V> {
        match self.0.sp(src, pos) {
            Step::Parsed { next, .. } => Step::Parsed { next, val: self.1.deep_view() },
            Step::Failed { at, err } => Step::Failed { at, err },
        }
    }

    proof fn lemma_sp_in_bounds(&self, src: Seq<char>, pos: int) {
        self.0.lemma_sp_in_bounds(src, pos);
    }

    fn go<'p, C, M: Mode>(&self, inp: &mut Input<'p, C>) -> (r: Result<Option<U>, Simple>) {
        match self.0.go::<C, Check>(inp) {
            Ok(_) => if M::is_emit() {
                Ok(Some(self.1))
            } else {
                Ok(None)
            },
            Err(e) => Err(e),
        }
    }
}

/// Whether the two fallible-mapping results stand for the same mathematical
/// outcome.
pub open spec fn tm_res_eq<U: DeepView>(r1: Result<U, Simple>, r2: Result<U, Simple>) -> bool {
    match (r1, r2) {
        (Ok(u1), Ok(u2)) => u1.deep_view() == u2.deep_view(),
        (Err(e1), Err(e2)) => e1@ == e2@,
        _ => false,
    }
}

/// The fallible mapping `f` may be called on any value and span.
pub open spec fn tm_total<O: DeepView, U: DeepView, F: Fn(O, Span) -> Result<U, Simple>>(
    f: F,
) -> bool {
    forall|x: O, sp: Span| #[trigger] call_requires(f, (x, sp))
}

/// What the fallible mapping `f` returns is a function of its argument\'s
/// mathematical value and the span alone.
pub open spec fn tm_determined<O: DeepView, U: DeepView, F: Fn(O, Span) -> Result<U, Simple>>(
    f: F,
) -> bool {
    forall|x1: O, x2: O, sp: Span, r1: Result<U, Simple>, r2: Result<U, Simple>|
        x1.deep_view() == x2.deep_view() && #[trigger] call_ensures(f, (x1, sp), r1)
            && #[trigger] call_ensures(f, (x2, sp), r2) ==> tm_res_eq(r1, r2)
}

/// Whether the mapping succeeds on this value and span.
pub open spec fn tm_ok<O: DeepView, U: DeepView, F: Fn(O, Span) -> Result<U, Simple>>(
    f: F,
    v: O::V,
    sp: Span,
) -> bool {
    exists|x: O, u: U|
        x.deep_view() == v && #[trigger] call_ensures(f, (x, sp), Ok(u))
}

/// The value the mapping succeeds with.
pub open spec fn tm_val<O: DeepView, U: DeepView, F: Fn(O, Span) -> Result<U, Simple>>(
    f: F,
    v: O::V,
    sp: Span,
) -> U::V {
    (choose|x: O, u: U| x.deep_view() == v && #[trigger] call_ensures(f, (x, sp), Ok(u))).1.deep_view()
}

/// The error the mapping fails with.
pub open spec fn tm_err<O: DeepView, U: DeepView, F: Fn(O, Span) -> Result<U, Simple>>(
    f: F,
    v: O::V,
    sp: Span,
) -> ErrV {
    (choose|x: O, e: Simple| x.deep_view() == v && #[trigger] call_ensures(
        f,
        (x, sp),
        Err::<U, Simple>(e),
    )).1@
}

/// Running a total, determined fallible mapping yields exactly what
/// [`tm_ok`], [`tm_val`] and [`tm_err`] say.
pub proof fn lemma_tm_of<O: DeepView, U: DeepView, F: Fn(O, Span) -> Result<U, Simple>>(
    f: F,
    x: O,
    sp: Span,
    r: Result<U, Simple>,
)
    requires
        tm_determined(f),
        call_ensures(f, (x, sp), r),
    ensures
        (match r {
            Ok(u) => tm_ok(f, x.deep_view(), sp) && u.deep_view() == tm_val(f, x.deep_view(), sp),
            Err(e) => !tm_ok(f, x.deep_view(), sp) && e@ == tm_err(f, x.deep_view(), sp),
        }),
{
    match r {
        Ok(u) => {
            assert(tm_ok(f, x.deep_view(), sp));
            let (x2, u2) = choose|x2: O, u2: U|
                x2.deep_view() == x.deep_view() && #[trigger] call_ensures(f, (x2, sp), Ok(u2));
            assert(call_ensures(f, (x2, sp), Ok::<U, Simple>(u2)));
        },
        Err(e) => {
            if tm_ok(f, x.deep_view(), sp) {
                let (x2, u2) = choose|x2: O, u2: U|
                    x2.deep_view() == x.deep_view() && #[trigger] call_ensures(
                        f,
                        (x2, sp),
                        Ok(u2),
                    );
                assert(false);
            }
            let (x3, e3) = choose|x3: O, e3: Simple|
                x3.deep_view() == x.deep_view() && #[trigger] call_ensures(
                    f,
                    (x3, sp),
                    Err::<U, Simple>(e3),
                );
            assert(call_ensures(f, (x3, sp), Err::<U, Simple>(e3)));
        },
    }
}

/// Runs the inner parser, then transforms its output with a mapping that may
/// itself fail; such a failure is reported at the span the inner parser
/// consumed, with the cursor left where the inner parser stopped.
pub struct TryMapWith<A, F, O, U>(pub A, pub F, pub core::marker::PhantomData<(O, U)>);

/// Maps `parser`\'s output through the fallible `f`, which also receives the
/// span the output was parsed from.
pub fn try_map_with<O, U, A, F>(parser: A, f: F) -> (r: TryMapWith<A, F, O, U>)
    ensures
        r == (TryMapWith(parser, f, core::marker::PhantomData::<(O, U)>)),
{
    TryMapWith(parser, f, core::marker::PhantomData)
}

impl<
    O: DeepView,
    U: DeepView,
    A: Parser<O>,
    F: Fn(O, Span) -> Result<U, Simple>,
> Parser<U> for TryMapWith<A, F, O, U> {
    open spec fn wf(&self) -> bool {
        self.0.wf() && tm_total(self.1) && tm_determined(self.1)
    }

    open spec fn sp(&self, src: Seq<char>, pos: int) -> Step<U::V> {
        match self.0.sp(src, pos) {
            Step::Parsed { next, val } => {
                let span = Span { start: pos as usize, end: next as usize };
                if tm_ok(self.1, val, span) {
                    Step::Parsed { next, val: tm_val(self.1, val, span) }
                } else {
                    Step::Failed { at: next, err: tm_err(self.1, val, span) }
                }
            },
            Step::Failed { at, err } => Step::Failed { at, err },
        }
    }

    proof fn lemma_sp_in_bounds(&self, src: Seq<char>, pos: int) {
        self.0.lemma_sp_in_bounds(src, pos);
    }

    fn go<'p, C, M: Mode>(&self, inp: &mut Input<'p, C>) -> (r: Result<Option<U>, Simple>) {
        let before = inp.offset();
        match self.0.go::<C, Emit>(inp) {
            Ok(Some(o)) => {
                let span = inp.span_since(before);
                let ghost og = o;
                let res = (self.1)(o, span);
                proof {
                    lemma_tm_of(self.1, og, span, res);
                }
                match res {
                    Ok(u) => if M::is_emit() {
                        Ok(Some(u))
                    } else {
                        Ok(None)
                    },
                    Err(e) => Err(e),
                }
            },
            Ok(None) => vstd::pervasive::unreached(),
            Err(e) => Err(e),
        }
    }
}

} // verus!
