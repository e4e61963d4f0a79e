//! Taking a counted number of tokens.

use vstd::prelude::*;
use crate::error::{ErrV, Simple, Span, SpanV};
use crate::input::Input;
use crate::parser::{Mode, Parser, Step};

verus! {

/// An amount of tokens to take: a minimum and a maximum count.
pub trait TakeAmount {
    /// The minimum count.
    spec fn lo(&self) -> usize;

    /// The maximum count.
    spec fn hi(&self) -> usize;

    /// The minimum and maximum counts.
    fn range(&self) -> (r: (usize, usize))
        ensures
            r.0 == self.lo(),
            r.1 == self.hi(),
    ;
}

impl TakeAmount for usize {
    open spec fn lo(&self) -> usize {
        *self
    }

    open spec fn hi(&self) -> usize {
        *self
    }

    fn range(&self) -> (usize, usize) {
        (*self, *self)
    }
}

impl TakeAmount for (usize, usize) {
    open spec fn lo(&self) -> usize {
        self.0
    }

    open spec fn hi(&self) -> usize {
        self.1
    }

    fn range(&self) -> (usize, usize) {
        (self.0, self.1)
    }
}

/// Takes up to the maximum count of tokens, as many as the input offers:
/// when the input ends early, what was read is still produced so long as the
/// minimum count was reached, and only a shortfall below the minimum is an
/// end-of-input failure.
pub struct Take<T> {
    pub amount: T,
}

/// Takes between `amount.lo()` and `amount.hi()` tokens.
pub fn take<T: TakeAmount>(amount: T) -> (r: Take<T>)
    ensures
        r == (Take { amount }),
{
    Take { amount }
}

impl<T: TakeAmount> Parser<Vec<char>> for Take<T> {
    open spec fn wf(&self) -> bool {
        self.amount.lo() <= self.amount.hi()
    }

    open spec fn sp(&self, src: Seq<char>, pos: int) -> Step<Seq<char>> {
        let stop = if pos + self.amount.hi() <= src.len() {
            pos + self.amount.hi()
        } else {
            src.len() as int
        };
        if stop - pos >= self.amount.lo() {
            Step::Parsed { next: stop, val: src.subrange(pos, stop) }
        } else {
            Step::Failed {
                at: stop,
                err: ErrV::UnexpectedEof {
                    span: SpanV { start: stop, end: stop },
                    expected: None,
                },
            }
        }
    }

    proof fn lemma_sp_in_bounds(&self, src: Seq<char>, pos: int) {
    }

    fn go<'p, C, M: Mode>(&self, inp: &mut Input<'p, C>) -> (r: Result<Option<Vec<char>>, Simple>) {
        let ghost inp0 = *inp;
        let (lo, hi) = self.amount.range();
        let mut taken: usize = 0;
        let mut acc: Vec<char> = Vec::new();
        while taken < hi && inp.offset < inp.input.len()
            invariant
                inp0 == *old(inp),
                inp.wf(),
                inp.same_parse(&inp0),
                taken <= hi,
                inp.pos() == inp0.pos() + taken,
                acc@ == inp0.src().subrange(inp0.pos(), inp.pos()),
            decreases hi - taken,
        {
            match inp.next_or_none() {
                Some(c) => {
                    acc.push(c);
                    taken = taken + 1;
                    proof {
                        assert(acc@ =~= inp0.src().subrange(inp0.pos(), inp.pos()));
                    }
                },
                None => {
                    proof {
                        assert(false);
                    }
                },
            }
        }
        if taken >= lo {
            if M::is_emit() {
                proof {
                    assert(acc.deep_view() =~= acc@);
                }
                Ok(Some(acc))
            } else {
                Ok(None)
            }
        } else {
            Err(
                Simple::UnexpectedEOF {
                    span: Span { start: inp.offset, end: inp.offset },
                    expected: None,
                },
            )
        }
    }
}

/// Takes exactly `A` tokens, failing with an end-of-input error if fewer are
/// available.
pub struct TakeExact<const A: usize>;

/// Takes exactly `A` tokens.
pub fn take_exact<const A: usize>() -> (r: TakeExact<A>)
    ensures
        r == TakeExact::<A>,
{
    TakeExact
}

impl<const A: usize> Parser<Vec<char>> for TakeExact<A> {
    open spec fn wf(&self) -> bool {
        true
    }

    open spec fn sp(&self, src: Seq<char>, pos: int) -> Step<Seq<char>> {
        if pos + A <= src.len() {
            Step::Parsed { next: pos + A, val: src.subrange(pos, pos + A) }
        } else {
            Step::Failed {
                at: src.len() as int,
                err: ErrV::UnexpectedEof {
                    span: SpanV { start: src.len() as int, end: src.len() as int },
                    expected: None,
                },
            }
        }
    }

    proof fn lemma_sp_in_bounds(&self, src: Seq<char>, pos: int) {
    }

    fn go<'p, C, M: Mode>(&self, inp: &mut Input<'p, C>) -> (r: Result<Option<Vec<char>>, Simple>) {
        let ghost inp0 = *inp;
        let mut taken: usize = 0;
        let mut acc: Vec<char> = Vec::new();
        while taken < A && inp.offset < inp.input.len()
            invariant
                inp0 == *old(inp),
                inp.wf(),
                inp.same_parse(&inp0),
                taken <= A,
                inp.pos() == inp0.pos() + taken,
                acc@ == inp0.src().subrange(inp0.pos(), inp.pos()),
            decreases A - taken,
        {
            match inp.next_or_none() {
                Some(c) => {
                    acc.push(c);
                    taken = taken + 1;
                    proof {
                        assert(acc@ =~= inp0.src().subrange(inp0.pos(), inp.pos()));
                    }
                },
                None => {
                    proof {
                        assert(false);
                    }
                },
            }
        }
        if taken == A {
            if M::is_emit() {
                proof {
                    assert(acc.deep_view() =~= acc@);
                }
                Ok(Some(acc))
            } else {
                Ok(None)
            }
        } else {
            Err(
                Simple::UnexpectedEOF {
                    span: Span { start: inp.offset, end: inp.offset },
                    expected: None,
                },
            )
        }
    }
}

} // verus!
