//! Alternation over many parsers: the first to succeed, left to right, wins.

use vstd::prelude::*;
use crate::error::Simple;
use crate::input::Input;
use crate::parser::{Mode, Parser, Step, step_in_bounds};

verus! {

/// What trying the parsers of `ps` from index `i` on does: the first success
/// wins; each failed attempt is rewound before the next; if all fail, the
/// last failure is the one reported, with the cursor left at its failure
/// point.
pub open spec fn choice_sp<O: DeepView, P: Parser<O>>(
    ps: Seq<P>,
    src: Seq<char>,
    pos: int,
    i: int,
) -> Step<O::V>
    decreases ps.len() - i,
{
    if i < 0 || i >= ps.len() {
        vstd::pervasive::arbitrary()
    } else {
        match ps[i].sp(src, pos) {
            Step::Parsed { next, val } => Step::Parsed { next, val },
            Step::Failed { at, err } => if i + 1 < ps.len() {
                choice_sp(ps, src, pos, i + 1)
            } else {
                Step::Failed { at, err }
            },
        }
    }
}

pub proof fn lemma_choice_sp_bounds<O: DeepView, P: Parser<O>>(
    ps: Seq<P>,
    src: Seq<char>,
    pos: int,
    i: int,
)
    requires
        0 <= pos <= src.len(),
        0 <= i < ps.len(),
        forall|j: int| 0 <= j < ps.len() ==> #[trigger] ps[j].wf(),
    ensures
        step_in_bounds(choice_sp(ps, src, pos, i), pos, src.len() as int),
    decreases ps.len() - i,
{
    ps[i].lemma_sp_in_bounds(src, pos);
    match ps[i].sp(src, pos) {
        Step::Parsed { .. } => {},
        Step::Failed { .. } => {
            if i + 1 < ps.len() {
                lemma_choice_sp_bounds(ps, src, pos, i + 1);
            }
        },
    }
}

/// Tries each of a row of parsers in turn, producing the output of the first
/// to successfully parse. Between attempts the cursor is rewound, so each
/// alternative starts from the same position; if all alternatives fail, the
/// last error is reported.
#[derive(Clone)]
pub struct Choice<T> {
    pub parsers: T,
}

/// Alternation over the given parsers, first success wins, left to right.
pub fn choice<T>(parsers: T) -> (r: Choice<T>)
    ensures
        r == (Choice { parsers }),
{
    Choice { parsers }
}

impl<O: DeepView, P: Parser<O>> Parser<O> for Choice<Vec<P>> {
    open spec fn wf(&self) -> bool {
        &&& self.parsers@.len() >= 1
        &&& forall|j: int| 0 <= j < self.parsers@.len() ==> #[trigger] self.parsers@[j].wf()
    }

    open spec fn sp(&self, src: Seq<char>, pos: int) -> Step<O::V> {
        choice_sp(self.parsers@, src, pos, 0)
    }

    proof fn lemma_sp_in_bounds(&self, src: Seq<char>, pos: int) {
        lemma_choice_sp_bounds(self.parsers@, src, pos, 0);
    }

    fn go<'p, C, M: Mode>(&self, inp: &mut Input<'p, C>) -> (r: Result<Option<O>, Simple>) {
        let ghost inp0 = *inp;
        let befunge = inp.save();
        let n = self.parsers.len();
        let mut i: usize = 0;
        loop
            invariant
                self.wf(),
                inp0 == *old(inp),
                n == self.parsers@.len(),
                0 <= i < n,
                inp.wf(),
                inp.same_parse(&inp0),
                inp.pos() == inp0.pos(),
                befunge.offset == inp0.offset,
                choice_sp(self.parsers@, inp0.src(), inp0.pos(), 0) == choice_sp(
                    self.parsers@,
                    inp0.src(),
                    inp0.pos(),
                    i as int,
                ),
            decreases n - i,
        {
            let p = vstd::slice::slice_index_get(self.parsers.as_slice(), i);
            match p.go::<C, M>(inp) {
                Ok(out) => {
                    return Ok(out);
                },
                Err(e) => {
                    if i + 1 == n {
                        return Err(e);
                    }
                    inp.rewind(befunge);
                    i = i + 1;
                },
            }
        }
    }
}

/// Alternation backtracks fully: where every alternative before `k` fails
/// and the one at `k` succeeds, the choice behaves exactly as the parser at
/// `k` run from the shared starting position, as if the others had never
/// been tried.
pub proof fn lemma_choice_first_success<O: DeepView, P: Parser<O>>(
    ps: Seq<P>,
    src: Seq<char>,
    pos: int,
    k: int,
)
    requires
        0 <= k < ps.len(),
        forall|j: int| 0 <= j < k ==> #[trigger] ps[j].sp(src, pos) is Failed,
        ps[k].sp(src, pos) is Parsed,
    ensures
        choice_sp(ps, src, pos, 0) == ps[k].sp(src, pos),
{
    lemma_choice_reaches(ps, src, pos, 0, k);
}

pub proof fn lemma_choice_reaches<O: DeepView, P: Parser<O>>(
    ps: Seq<P>,
    src: Seq<char>,
    pos: int,
    i: int,
    k: int,
)
    requires
        0 <= i <= k < ps.len(),
        forall|j: int| i <= j < k ==> #[trigger] ps[j].sp(src, pos) is Failed,
        ps[k].sp(src, pos) is Parsed,
    ensures
        choice_sp(ps, src, pos, i) == ps[k].sp(src, pos),
    decreases k - i,
{
    if i < k {
        lemma_choice_reaches(ps, src, pos, i + 1, k);
    }
}

} // verus!
