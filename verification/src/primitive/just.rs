//! Parsing an exact sequence of tokens.

use vstd::prelude::*;
use crate::error::{ErrV, Simple, SpanV};
use crate::input::Input;
use crate::parser::{Mode, Parser, Step, step_in_bounds};

verus! {

/// What `just` does: match `seq` token by token. On success the whole
/// expected sequence `full` is the value and the cursor stands right after
/// it; on the first mismatch or premature end of input the cursor stands
/// right after the offending token (or at the end), with the failure
/// reported there.
pub open spec fn just_sp(seq: Seq<char>, src: Seq<char>, pos: int, full: Seq<char>) -> Step<
    Seq<char>,
>
    decreases seq.len(),
{
    if seq.len() == 0 {
        Step::Parsed { next: pos, val: full }
    } else if pos < src.len() {
        if src[pos] == seq[0] {
            just_sp(seq.skip(1), src, pos + 1, full)
        } else {
            Step::Failed {
                at: pos + 1,
                err: ErrV::ExpectedTokenFound {
                    span: SpanV { start: pos, end: pos + 1 },
                    expected: seq![seq[0]],
                    found: src[pos],
                },
            }
        }
    } else {
        Step::Failed {
            at: pos,
            err: ErrV::UnexpectedEof {
                span: SpanV { start: pos, end: pos },
                expected: Some(seq![seq[0]]),
            },
        }
    }
}

pub proof fn lemma_just_sp_bounds(seq: Seq<char>, src: Seq<char>, pos: int, full: Seq<char>)
    requires
        0 <= pos <= src.len(),
    ensures
        step_in_bounds(just_sp(seq, src, pos, full), pos, src.len() as int),
    decreases seq.len(),
{
    if seq.len() != 0 && pos < src.len() && src[pos] == seq[0] {
        lemma_just_sp_bounds(seq.skip(1), src, pos + 1, full);
    }
}

/// A parser that consumes tokens matching `seq` exactly, in order.
#[derive(Clone, Debug)]
pub struct Just {
    pub seq: Vec<char>,
}

/// Parses the exact sequence of tokens `seq`.
pub fn just(seq: Vec<char>) -> (r: Just)
    ensures
        r == (Just { seq }),
{
    Just { seq }
}

impl Parser<Vec<char>> for Just {
    open spec fn wf(&self) -> bool {
        true
    }

    open spec fn sp(&self, src: Seq<char>, pos: int) -> Step<Seq<char>> {
        just_sp(self.seq@, src, pos, self.seq@)
    }

    proof fn lemma_sp_in_bounds(&self, src: Seq<char>, pos: int) {
        lemma_just_sp_bounds(self.seq@, src, pos, self.seq@);
    }

    fn go<'p, C, M: Mode>(&self, inp: &mut Input<'p, C>) -> (r: Result<Option<Vec<char>>, Simple>) {
        let ghost inp0 = *inp;
        let mut i: usize = 0;
        proof {
            assert(self.seq@.skip(0) =~= self.seq@);
        }
        while i < self.seq.len()
            invariant
                *old(inp) == inp0,
                i <= self.seq@.len(),
                inp.same_parse(&inp0),
                inp.wf(),
                inp.pos() == inp0.pos() + i,
                just_sp(self.seq@, inp0.src(), inp0.pos(), self.seq@) == just_sp(
                    self.seq@.skip(i as int),
                    inp0.src(),
                    inp0.pos() + i,
                    self.seq@,
                ),
            decreases self.seq@.len() - i,
        {
            let expected_c = self.seq[i];
            let before = inp.offset();
            proof {
                assert(self.seq@.skip(i as int)[0] == self.seq@[i as int]);
            }
            match inp.next_or_none() {
                Some(tok) => {
                    if tok == expected_c {
                        proof {
                            assert(self.seq@.skip(i as int).skip(1) =~= self.seq@.skip(
                                i as int + 1,
                            ));
                        }
                        i = i + 1;
                    } else {
                        let ev = vec![expected_c];
                        proof {
                            assert(ev@ =~= seq![self.seq@[i as int]]);
                        }
                        return Err(
                            Simple::ExpectedTokenFound {
                                span: inp.span_since(before),
                                expected: ev,
                                found: tok,
                            },
                        );
                    }
                },
                None => {
                    let ev = vec![expected_c];
                    proof {
                        assert(ev@ =~= seq![self.seq@[i as int]]);
                    }
                    return Err(
                        Simple::UnexpectedEOF {
                            span: inp.span_since(before),
                            expected: Some(ev),
                        },
                    );
                },
            }
        }
        if M::is_emit() {
            let out = self.seq.clone();
            proof {
                assert(out.deep_view() =~= self.seq@);
            }
            Ok(Some(out))
        } else {
            Ok(None)
        }
    }
}

pub proof fn lemma_just_prefix(seq: Seq<char>, src: Seq<char>, pos: int, full: Seq<char>)
    requires
        0 <= pos,
        pos + seq.len() <= src.len(),
        src.subrange(pos, pos + seq.len()) == seq,
    ensures
        just_sp(seq, src, pos, full) == (Step::<Seq<char>>::Parsed {
            next: pos + seq.len(),
            val: full,
        }),
    decreases seq.len(),
{
    if seq.len() > 0 {
        assert(src[pos] == src.subrange(pos, pos + seq.len())[0]);
        assert(src.subrange(pos + 1, pos + 1 + (seq.len() - 1)) =~= seq.skip(1)) by {
            assert forall|i: int| 0 <= i < seq.len() - 1 implies src.subrange(
                pos + 1,
                pos + 1 + (seq.len() - 1),
            )[i] == seq.skip(1)[i] by {
                assert(seq[i + 1] == src.subrange(pos, pos + seq.len())[i + 1]);
            }
        }
        lemma_just_prefix(seq.skip(1), src, pos + 1, full);
    }
}

/// For any literal sequence `S` and any source that carries exactly `S` at
/// the cursor — whatever follows it — `just(S)` succeeds, consumes exactly
/// `S`, and leaves the cursor at the start of the rest.
pub proof fn lemma_just_consumes_exactly(p: Just, src: Seq<char>, pos: int)
    requires
        0 <= pos,
        pos + p.seq@.len() <= src.len(),
        src.subrange(pos, pos + p.seq@.len()) == p.seq@,
    ensures
        p.sp(src, pos) == (Step::<Seq<char>>::Parsed { next: pos + p.seq@.len(), val: p.seq@ }),
{
    lemma_just_prefix(p.seq@, src, pos, p.seq@);
}

} // verus!
