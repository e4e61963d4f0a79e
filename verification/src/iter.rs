//! The pull-based repetition protocol: "give me the next item or tell me you
//! are done, fail only on a hard error", implemented once and reused by the
//! repetition and separation combinators, with a generic collector.

use vstd::prelude::*;
use crate::error::Simple;
use crate::input::Input;
use crate::parser::{Mode, Parser, Step, step_in_bounds};

verus! {

/// The pull protocol: given the per-call state (how many items were pulled
/// so far), produce the next item or signal exhaustion, failing only on a
/// hard error. One mathematical function [`IterParser::istep`] describes a
/// single pull; a successful pull always makes progress through the source.
pub trait IterParser<Item: DeepView>: Sized {
    /// The iterator's configuration is well formed.
    spec fn iwf(&self) -> bool;

    /// What one pull does on `src` at `pos`, `count` items in: an item and a
    /// new position, exhaustion (`None`, possibly after consuming a trailing
    /// delimiter), or a hard failure.
    spec fn istep(&self, src: Seq<char>, pos: int, count: nat) -> Step<Option<Item::V>>;

    /// A pull stays within the source, and a pull that produces an item
    /// strictly advances the cursor.
    proof fn lemma_istep_in_bounds(&self, src: Seq<char>, pos: int, count: nat)
        requires
            self.iwf(),
            0 <= pos <= src.len(),
        ensures
            step_in_bounds(self.istep(src, pos, count), pos, src.len() as int),
            self.istep(src, pos, count) matches Step::Parsed { next, val: Some(_) } ==> next
                > pos,
    ;

    /// Creates the state a pull sequence starts from.
    fn create_state<'p, C>(&self, input: &mut Input<'p, C>) -> (r: Result<usize, Simple>)
        ensures
            *final(input) == *old(input),
            r == Ok::<usize, Simple>(0usize),
    {
        Ok(0)
    }

    /// Pulls the next item, materializing it.
    fn next<'p, C>(&self, inp: &mut Input<'p, C>, state: &mut usize) -> (r: Result<
        Option<Item>,
        Simple,
    >)
        requires
            self.iwf(),
            old(inp).wf(),
            *old(state) <= old(inp).offset,
        ensures
            final(inp).same_parse(old(inp)),
            final(inp).wf(),
            *final(state) <= final(inp).offset,
            (match r {
                Ok(Some(item)) => self.istep(old(inp).src(), old(inp).pos(), *old(state) as nat)
                    == (Step::<Option<Item::V>>::Parsed {
                    next: final(inp).pos(),
                    val: Some(item.deep_view()),
                }) && *final(state) == *old(state) + 1,
                Ok(None) => self.istep(old(inp).src(), old(inp).pos(), *old(state) as nat)
                    matches Step::Parsed { next, val: None } && next == final(inp).pos() && *final(state) == *old(state),
                Err(e) => self.istep(old(inp).src(), old(inp).pos(), *old(state) as nat) == (
                Step::<Option<Item::V>>::Failed { at: final(inp).pos(), err: e@ }) && *final(state)
                    == *old(state),
            }),
    ;

    /// Pulls the next item without materializing it: same consumption, same
    /// failures.
    fn check_next<'p, C>(&self, inp: &mut Input<'p, C>, state: &mut usize) -> (r: Result<
        Option<()>,
        Simple,
    >)
        requires
            self.iwf(),
            old(inp).wf(),
            *old(state) <= old(inp).offset,
        ensures
            final(inp).same_parse(old(inp)),
            final(inp).wf(),
            *final(state) <= final(inp).offset,
            (match r {
                Ok(Some(())) => self.istep(old(inp).src(), old(inp).pos(), *old(state) as nat)
                    matches Step::Parsed { next, val: Some(_) } && next == final(inp).pos()
                    && *final(state) == *old(state) + 1,
                Ok(None) => self.istep(old(inp).src(), old(inp).pos(), *old(state) as nat)
                    matches Step::Parsed { next, val: None } && next == final(inp).pos() && *final(state) == *old(state),
                Err(e) => self.istep(old(inp).src(), old(inp).pos(), *old(state) as nat) == (
                Step::<Option<Item::V>>::Failed { at: final(inp).pos(), err: e@ }) && *final(state)
                    == *old(state),
            }),
    ;

    /// A parser that collects all items this iterator parser yields into a
    /// vector.
    fn collect(self) -> (r: Collect<Self, Vec<Item>>)
        ensures
            r == (Collect(self, core::marker::PhantomData::<Vec<Item>>)),
    {
        Collect(self, core::marker::PhantomData)
    }

    /// Stops this iterator as soon as a look-ahead check of `until` succeeds,
    /// without consuming it.
    fn until<UO: DeepView, U: Parser<UO>>(self, until: U) -> (r: Until<Self, U, UO>)
        ensures
            r == (Until(self, until, core::marker::PhantomData::<UO>)),
    {
        Until(self, until, core::marker::PhantomData)
    }
}

/// What pulling every item in sequence from `pos` yields: the items of each
/// successful pull, ending where the pull that signalled exhaustion left the
/// cursor, or the first hard failure.
pub open spec fn collect_sp<Item: DeepView, P: IterParser<Item>>(
    p: P,
    src: Seq<char>,
    pos: int,
    count: nat,
) -> Step<Seq<Item::V>>
    decreases src.len() - pos,
{
    match p.istep(src, pos, count) {
        Step::Parsed { next, val } => match val {
            Some(v) => if pos < next <= src.len() {
                match collect_sp(p, src, next, count + 1) {
                    Step::Parsed { next: fin, val: rest } => (Step::Parsed {
                        next: fin,
                        val: seq![v] + rest,
                    }),
                    Step::Failed { at, err } => Step::Failed { at, err },
                }
            } else {
                Step::Parsed { next, val: seq![v] }
            },
            None => Step::Parsed { next, val: Seq::empty() },
        },
        Step::Failed { at, err } => Step::Failed { at, err },
    }
}

pub proof fn lemma_collect_sp_bounds<Item: DeepView, P: IterParser<Item>>(
    p: P,
    src: Seq<char>,
    pos: int,
    count: nat,
)
    requires
        p.iwf(),
        0 <= pos <= src.len(),
    ensures
        step_in_bounds(collect_sp(p, src, pos, count), pos, src.len() as int),
    decreases src.len() - pos,
{
    p.lemma_istep_in_bounds(src, pos, count);
    match p.istep(src, pos, count) {
        Step::Parsed { next, val } => match val {
            Some(_) => {
                lemma_collect_sp_bounds(p, src, next, count + 1);
            },
            None => {},
        },
        Step::Failed { .. } => {},
    }
}

/// A step with `vals` prepended to what it collects.
pub open spec fn prepend_step<V>(vals: Seq<V>, s: Step<Seq<V>>) -> Step<Seq<V>> {
    match s {
        Step::Parsed { next, val } => Step::Parsed { next, val: vals + val },
        Step::Failed { at, err } => Step::Failed { at, err },
    }
}

/// A parser that collects every item yielded by the pull protocol into a
/// vector: the generic materializing terminal of the repetition protocol.
pub struct Collect<P, B>(pub P, pub core::marker::PhantomData<B>);

/// Collects all items the iterator parser yields.
pub fn collect<Item, P>(parser: P) -> (r: Collect<P, Vec<Item>>)
    ensures
        r == Collect(parser, core::marker::PhantomData::<Vec<Item>>),
{
    Collect(parser, core::marker::PhantomData)
}

impl<Item: DeepView, P: IterParser<Item>> Parser<Vec<Item>> for Collect<P, Vec<Item>> {
    open spec fn wf(&self) -> bool {
        self.0.iwf()
    }

    open spec fn sp(&self, src: Seq<char>, pos: int) -> Step<Seq<Item::V>> {
        collect_sp(self.0, src, pos, 0)
    }

    proof fn lemma_sp_in_bounds(&self, src: Seq<char>, pos: int) {
        lemma_collect_sp_bounds(self.0, src, pos, 0);
    }

    fn go<'p, C, M: Mode>(&self, inp: &mut Input<'p, C>) -> (r: Result<Option<Vec<Item>>, Simple>) {
        let ghost inp0 = *inp;
        let mut state: usize = 0;
        let mut acc: Vec<Item> = Vec::new();
        let ghost mut vals: Seq<Item::V> = Seq::empty();
        proof {
            lemma_prepend_empty(collect_sp(self.0, inp0.src(), inp0.pos(), 0));
        }
        loop
            invariant
                self.0.iwf(),
                inp0 == *old(inp),
                inp.wf(),
                inp.same_parse(&inp0),
                inp0.pos() <= inp.pos() <= inp0.src().len(),
                state <= inp.offset,
                collect_sp(self.0, inp0.src(), inp0.pos(), 0) == prepend_step(
                    vals,
                    collect_sp(self.0, inp0.src(), inp.pos(), state as nat),
                ),
                M::emits() ==> acc.deep_view() == vals,
            decreases inp0.src().len() - inp.pos(),
        {
            let ghost prev = *inp;
            let ghost prev_state = state;
            proof {
                self.0.lemma_istep_in_bounds(prev.src(), prev.pos(), prev_state as nat);
            }
            if M::is_emit() {
                match self.0.next(inp, &mut state) {
                    Ok(Some(item)) => {
                        proof {
                            lemma_prepend_prepend(
                                vals,
                                item.deep_view(),
                                collect_sp(self.0, inp0.src(), inp.pos(), state as nat),
                            );
                            vals = vals + seq![item.deep_view()];
                        }
                        acc.push(item);
                        proof {
                            assert(acc.deep_view() =~= vals);
                        }
                    },
                    Ok(None) => {
                        proof {
                            assert(vals + Seq::<Item::V>::empty() =~= vals);
                        }
                        return Ok(Some(acc));
                    },
                    Err(e) => {
                        return Err(e);
                    },
                }
            } else {
                match self.0.check_next(inp, &mut state) {
                    Ok(Some(())) => {
                        proof {
                            let iv = choose|iv: Item::V|
                                self.0.istep(prev.src(), prev.pos(), prev_state as nat)
                                    == (Step::<Option<Item::V>>::Parsed {
                                    next: inp.pos(),
                                    val: Some(iv),
                                });
                            lemma_prepend_prepend(
                                vals,
                                iv,
                                collect_sp(self.0, inp0.src(), inp.pos(), state as nat),
                            );
                            vals = vals + seq![iv];
                        }
                    },
                    Ok(None) => {
                        proof {
                            assert(vals + Seq::<Item::V>::empty() =~= vals);
                        }
                        return Ok(None);
                    },
                    Err(e) => {
                        return Err(e);
                    },
                }
            }
        }
    }
}

/// Prepending nothing changes nothing.
pub proof fn lemma_prepend_empty<V>(s: Step<Seq<V>>)
    ensures
        prepend_step(Seq::<V>::empty(), s) == s,
{
    match s {
        Step::Parsed { next, val } => {
            assert(Seq::<V>::empty() + val =~= val);
        },
        Step::Failed { .. } => {},
    }
}

/// Prepending `vals` and then one more item is prepending `vals` extended by
/// that item.
pub proof fn lemma_prepend_prepend<V>(vals: Seq<V>, v: V, s: Step<Seq<V>>)
    ensures
        prepend_step(vals, prepend_step(seq![v], s)) == prepend_step(vals + seq![v], s),
{
    match s {
        Step::Parsed { next, val } => {
            assert(vals + (seq![v] + val) =~= (vals + seq![v]) + val);
        },
        Step::Failed { .. } => {},
    }
}

/// Stops the pull as soon as a look-ahead check of the `until` parser
/// succeeds, without consuming it.
pub struct Until<P, U, UO>(pub P, pub U, pub core::marker::PhantomData<UO>);

impl<Item: DeepView, UO: DeepView, P: IterParser<Item>, U: Parser<UO>> IterParser<Item> for Until<
    P,
    U,
    UO,
> {
    open spec fn iwf(&self) -> bool {
        self.0.iwf() && self.1.wf()
    }

    open spec fn istep(&self, src: Seq<char>, pos: int, count: nat) -> Step<Option<Item::V>> {
        match self.1.sp(src, pos) {
            Step::Parsed { .. } => Step::Parsed { next: pos, val: None },
            Step::Failed { .. } => self.0.istep(src, pos, count),
        }
    }

    proof fn lemma_istep_in_bounds(&self, src: Seq<char>, pos: int, count: nat) {
        self.0.lemma_istep_in_bounds(src, pos, count);
    }

    fn next<'p, C>(&self, inp: &mut Input<'p, C>, state: &mut usize) -> (r: Result<
        Option<Item>,
        Simple,
    >) {
        let before = inp.save();
        match self.1.check_with(inp) {
            Ok(()) => {
                inp.rewind(before);
                Ok(None)
            },
            Err(_) => {
                inp.rewind(before);
                self.0.next(inp, state)
            },
        }
    }

    fn check_next<'p, C>(&self, inp: &mut Input<'p, C>, state: &mut usize) -> (r: Result<
        Option<()>,
        Simple,
    >) {
        let before = inp.save();
        match self.1.check_with(inp) {
            Ok(()) => {
                inp.rewind(before);
                Ok(None)
            },
            Err(_) => {
                inp.rewind(before);
                self.0.check_next(inp, state)
            },
        }
    }
}

} // verus!
