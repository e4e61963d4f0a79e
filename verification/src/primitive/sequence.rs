//! Repetition and separation over the pull protocol, zero-copy slicing of a
//! parser's consumed range, token-class parsers, and delimiting.

use vstd::prelude::*;
use crate::error::{ErrV, LabelV, SeqLabel, Simple, Span, SpanV};
use crate::input::{current_tok, Input};
use crate::iter::IterParser;
use crate::parser::{Check, Mode, Parser, Step, step_in_bounds};

verus! {

/// The failure raised when a repetition ends before its minimum element
/// count: the span covers the failed attempt, starting where the attempt
/// began.
pub open spec fn not_enough(
    start: int,
    at: int,
    at_least: usize,
    count: nat,
    src: Seq<char>,
) -> ErrV {
    ErrV::Label {
        span: SpanV { start, end: at },
        label: LabelV::NotEnough { expected: at_least, found: count as usize },
        last_token: current_tok(src, at),
    }
}

/// Repeats the inner parser: zero or more times by default, with optional
/// minimum and maximum counts. Each attempt starts from a saved position; a
/// failed attempt past the minimum is rewound and ends the iteration, as
/// does a successful attempt that consumes nothing (which would otherwise
/// repeat forever).
pub struct Repeated<P, O> {
    pub parser: P,
    pub at_least: usize,
    pub at_most: u64,
    pub phantom: core::marker::PhantomData<O>,
}

impl<P, O> Repeated<P, O> {
    /// Requires at least `at_least` elements.
    pub fn at_least(self, at_least: usize) -> (r: Self)
        ensures
            r.parser == self.parser,
            r.at_least == at_least,
            r.at_most == self.at_most,
    {
        Repeated { at_least, ..self }
    }

    /// Accepts at most `at_most` elements.
    pub fn at_most(self, at_most: usize) -> (r: Self)
        ensures
            r.parser == self.parser,
            r.at_least == self.at_least,
            r.at_most == at_most as u64,
    {
        Repeated { at_most: at_most as u64, ..self }
    }

    /// Requires exactly `exactly` elements.
    pub fn exactly(self, exactly: usize) -> (r: Self)
        ensures
            r.parser == self.parser,
            r.at_least == exactly,
            r.at_most == exactly as u64,
    {
        Repeated { at_least: exactly, at_most: exactly as u64, ..self }
    }
}

/// Repeats `parser` zero or more times.
pub fn repeated<O, P>(parser: P) -> (r: Repeated<P, O>)
    ensures
        r.parser == parser,
        r.at_least == 0,
        r.at_most == u64::MAX,
{
    Repeated { parser, at_least: 0, at_most: u64::MAX, phantom: core::marker::PhantomData }
}

impl<O: DeepView, P: Parser<O>> IterParser<O> for Repeated<P, O> {
    open spec fn iwf(&self) -> bool {
        self.parser.wf()
    }

    open spec fn istep(&self, src: Seq<char>, pos: int, count: nat) -> Step<Option<O::V>> {
        if self.at_most != u64::MAX && count >= self.at_most as nat {
            Step::Parsed { next: pos, val: None }
        } else {
            match self.parser.sp(src, pos) {
                Step::Parsed { next, val } => if next > pos {
                    Step::Parsed { next, val: Some(val) }
                } else {
                    Step::Parsed { next: pos, val: None }
                },
                Step::Failed { at, err } => if count >= self.at_least as nat {
                    Step::Parsed { next: pos, val: None }
                } else {
                    Step::Failed { at, err: not_enough(pos, at, self.at_least, count, src) }
                },
            }
        }
    }

    proof fn lemma_istep_in_bounds(&self, src: Seq<char>, pos: int, count: nat) {
        self.parser.lemma_sp_in_bounds(src, pos);
    }

    fn next<'p, C>(&self, inp: &mut Input<'p, C>, state: &mut usize) -> (r: Result<
        Option<O>,
        Simple,
    >) {
        if self.at_most != u64::MAX && (*state as u64) >= self.at_most {
            return Ok(None);
        }
        let befunge = inp.save();
        proof {
            self.parser.lemma_sp_in_bounds(inp.src(), inp.pos());
        }
        match self.parser.parse_with(inp) {
            Ok(item) => {
                if inp.offset() > befunge.offset {
                    *state = *state + 1;
                    Ok(Some(item))
                } else {
                    inp.rewind(befunge);
                    Ok(None)
                }
            },
            Err(_) => {
                if *state >= self.at_least {
                    inp.rewind(befunge);
                    Ok(None)
                } else {
                    let at = inp.offset();
                    let last_token = inp.current();
                    Err(
                        Simple::Sequence {
                            span: Span { start: befunge.offset, end: at },
                            label: SeqLabel::NotEnough {
                                expected: self.at_least,
                                found: *state,
                            },
                            last_token,
                        },
                    )
                }
            },
        }
    }

    fn check_next<'p, C>(&self, inp: &mut Input<'p, C>, state: &mut usize) -> (r: Result<
        Option<()>,
        Simple,
    >) {
        if self.at_most != u64::MAX && (*state as u64) >= self.at_most {
            return Ok(None);
        }
        let befunge = inp.save();
        proof {
            self.parser.lemma_sp_in_bounds(inp.src(), inp.pos());
        }
        match self.parser.check_with(inp) {
            Ok(()) => {
                if inp.offset() > befunge.offset {
                    *state = *state + 1;
                    Ok(Some(()))
                } else {
                    inp.rewind(befunge);
                    Ok(None)
                }
            },
            Err(_) => {
                if *state >= self.at_least {
                    inp.rewind(befunge);
                    Ok(None)
                } else {
                    let at = inp.offset();
                    let last_token = inp.current();
                    Err(
                        Simple::Sequence {
                            span: Span { start: befunge.offset, end: at },
                            label: SeqLabel::NotEnough {
                                expected: self.at_least,
                                found: *state,
                            },
                            last_token,
                        },
                    )
                }
            },
        }
    }
}

/// An unbounded repetition never fails: collecting it yields the longest
/// run of consecutive successful matches, and the cursor ends exactly after
/// the last successful match — never inside a failed attempt, and at a
/// position from which no further match could make progress.
pub proof fn lemma_repeated_unbounded_total<O: DeepView, P: Parser<O>>(
    p: Repeated<P, O>,
    src: Seq<char>,
    pos: int,
    count: nat,
)
    requires
        p.parser.wf(),
        p.at_least == 0,
        p.at_most == u64::MAX,
        0 <= pos <= src.len(),
    ensures
        crate::iter::collect_sp(p, src, pos, count) matches Step::Parsed { next, .. } && (
        p.parser.sp(src, next) matches Step::Parsed { next: n2, .. } ==> n2 <= next),
    decreases src.len() - pos,
{
    p.parser.lemma_sp_in_bounds(src, pos);
    match p.parser.sp(src, pos) {
        Step::Parsed { next, val } => {
            if next > pos {
                lemma_repeated_unbounded_total(p, src, next, count + 1);
            }
        },
        Step::Failed { .. } => {},
    }
}

/// What one separated pull\'s item phase does, once the delimiter phase has
/// put the cursor at `dpos`: parse an item; a zero-progress success (over
/// the whole step) ends the iteration; a failure past the minimum is
/// rewound, keeping the delimiter only when trailing delimiters are allowed.
pub open spec fn sep_item_sp<O: DeepView, P: Parser<O>>(
    p: P,
    at_least: usize,
    allow_trailing: bool,
    src: Seq<char>,
    pos0: int,
    dpos: int,
    count: nat,
) -> Step<Option<O::V>> {
    match p.sp(src, dpos) {
        Step::Parsed { next, val } => if next > pos0 {
            Step::Parsed { next, val: Some(val) }
        } else {
            Step::Parsed { next: pos0, val: None }
        },
        Step::Failed { at, err } => if count >= at_least as nat {
            if allow_trailing && count > 0 {
                Step::Parsed { next: dpos, val: None }
            } else {
                Step::Parsed { next: pos0, val: None }
            }
        } else {
            Step::Failed { at, err: not_enough(pos0, at, at_least, count, src) }
        },
    }
}

/// Repeats the inner parser with a delimiter parser between consecutive
/// items, with optional minimum and maximum counts and independent
/// leading/trailing delimiter toggles.
pub struct SeparatedBy<P, D, O, OD> {
    pub parser: P,
    pub delimiter: D,
    pub at_least: usize,
    pub at_most: u64,
    pub allow_leading: bool,
    pub allow_trailing: bool,
    pub phantom: core::marker::PhantomData<(O, OD)>,
}

/// Repeats `parser` zero or more times, with `delimiter` between items.
pub fn separated_by<O, OD, P, D>(parser: P, delimiter: D) -> (r: SeparatedBy<P, D, O, OD>)
    ensures
        r.parser == parser,
        r.delimiter == delimiter,
        r.at_least == 0,
        r.at_most == u64::MAX,
        !r.allow_leading,
        !r.allow_trailing,
{
    SeparatedBy {
        parser,
        delimiter,
        at_least: 0,
        at_most: u64::MAX,
        allow_leading: false,
        allow_trailing: false,
        phantom: core::marker::PhantomData,
    }
}

impl<P, D, O, OD> SeparatedBy<P, D, O, OD> {
    /// Requires at least `at_least` elements.
    pub fn at_least(self, at_least: usize) -> (r: Self)
        ensures
            r == (SeparatedBy { at_least, ..self }),
    {
        SeparatedBy { at_least, ..self }
    }

    /// Accepts at most `at_most` elements.
    pub fn at_most(self, at_most: usize) -> (r: Self)
        ensures
            r == (SeparatedBy { at_most: at_most as u64, ..self }),
    {
        SeparatedBy { at_most: at_most as u64, ..self }
    }

    /// Requires exactly `exactly` elements.
    pub fn exactly(self, exactly: usize) -> (r: Self)
        ensures
            r == (SeparatedBy { at_least: exactly, at_most: exactly as u64, ..self }),
    {
        SeparatedBy { at_least: exactly, at_most: exactly as u64, ..self }
    }

    /// Accepts a delimiter before the first element.
    pub fn allow_leading(self) -> (r: Self)
        ensures
            r == (SeparatedBy { allow_leading: true, ..self }),
    {
        SeparatedBy { allow_leading: true, ..self }
    }

    /// Accepts a delimiter after the last element.
    pub fn allow_trailing(self) -> (r: Self)
        ensures
            r == (SeparatedBy { allow_trailing: true, ..self }),
    {
        SeparatedBy { allow_trailing: true, ..self }
    }
}

impl<O: DeepView, OD: DeepView, P: Parser<O>, D: Parser<OD>> IterParser<O> for SeparatedBy<
    P,
    D,
    O,
    OD,
> {
    open spec fn iwf(&self) -> bool {
        self.parser.wf() && self.delimiter.wf()
    }

    open spec fn istep(&self, src: Seq<char>, pos: int, count: nat) -> Step<Option<O::V>> {
        if self.at_most != u64::MAX && count >= self.at_most as nat {
            if self.allow_trailing {
                match self.delimiter.sp(src, pos) {
                    Step::Parsed { next: dn, .. } => Step::Parsed { next: dn, val: None },
                    Step::Failed { .. } => Step::Parsed { next: pos, val: None },
                }
            } else {
                Step::Parsed { next: pos, val: None }
            }
        } else if count == 0 {
            if self.allow_leading {
                match self.delimiter.sp(src, pos) {
                    Step::Parsed { next: dn, .. } => sep_item_sp(
                        self.parser,
                        self.at_least,
                        self.allow_trailing,
                        src,
                        pos,
                        dn,
                        count,
                    ),
                    Step::Failed { .. } => sep_item_sp(
                        self.parser,
                        self.at_least,
                        self.allow_trailing,
                        src,
                        pos,
                        pos,
                        count,
                    ),
                }
            } else {
                sep_item_sp(self.parser, self.at_least, self.allow_trailing, src, pos, pos, count)
            }
        } else {
            match self.delimiter.sp(src, pos) {
                Step::Parsed { next: dn, .. } => sep_item_sp(
                    self.parser,
                    self.at_least,
                    self.allow_trailing,
                    src,
                    pos,
                    dn,
                    count,
                ),
                Step::Failed { at, err } => if count >= self.at_least as nat {
                    Step::Parsed { next: pos, val: None }
                } else {
                    Step::Failed { at, err: not_enough(pos, at, self.at_least, count, src) }
                },
            }
        }
    }

    proof fn lemma_istep_in_bounds(&self, src: Seq<char>, pos: int, count: nat) {
        self.delimiter.lemma_sp_in_bounds(src, pos);
        self.parser.lemma_sp_in_bounds(src, pos);
        match self.delimiter.sp(src, pos) {
            Step::Parsed { next: dn, .. } => {
                self.parser.lemma_sp_in_bounds(src, dn);
            },
            Step::Failed { .. } => {},
        }
    }

    fn next<'p, C>(&self, inp: &mut Input<'p, C>, state: &mut usize) -> (r: Result<
        Option<O>,
        Simple,
    >) {
        if self.at_most != u64::MAX && (*state as u64) >= self.at_most {
            if self.allow_trailing {
                let m = inp.save();
                proof {
                    self.delimiter.lemma_sp_in_bounds(inp.src(), inp.pos());
                }
                match self.delimiter.check_with(inp) {
                    Ok(()) => {},
                    Err(_) => {
                        inp.rewind(m);
                    },
                }
            }
            return Ok(None);
        }
        let step_start = inp.save();
        proof {
            self.delimiter.lemma_sp_in_bounds(inp.src(), inp.pos());
        }
        if *state == 0 {
            if self.allow_leading {
                let m = inp.save();
                match self.delimiter.check_with(inp) {
                    Ok(()) => {},
                    Err(_) => {
                        inp.rewind(m);
                    },
                }
            }
        } else {
            match self.delimiter.check_with(inp) {
                Ok(()) => {},
                Err(_) => {
                    if *state >= self.at_least {
                        inp.rewind(step_start);
                        return Ok(None);
                    }
                    let at = inp.offset();
                    let last_token = inp.current();
                    return Err(
                        Simple::Sequence {
                            span: Span { start: step_start.offset, end: at },
                            label: SeqLabel::NotEnough {
                                expected: self.at_least,
                                found: *state,
                            },
                            last_token,
                        },
                    );
                },
            }
        }
        let after_d = inp.save();
        proof {
            self.parser.lemma_sp_in_bounds(inp.src(), inp.pos());
        }
        match self.parser.parse_with(inp) {
            Ok(item) => {
                if inp.offset() > step_start.offset {
                    *state = *state + 1;
                    Ok(Some(item))
                } else {
                    inp.rewind(step_start);
                    Ok(None)
                }
            },
            Err(_) => {
                if *state >= self.at_least {
                    if self.allow_trailing && *state > 0 {
                        inp.rewind(after_d);
                    } else {
                        inp.rewind(step_start);
                    }
                    Ok(None)
                } else {
                    let at = inp.offset();
                    let last_token = inp.current();
                    Err(
                        Simple::Sequence {
                            span: Span { start: step_start.offset, end: at },
                            label: SeqLabel::NotEnough {
                                expected: self.at_least,
                                found: *state,
                            },
                            last_token,
                        },
                    )
                }
            },
        }
    }

    fn check_next<'p, C>(&self, inp: &mut Input<'p, C>, state: &mut usize) -> (r: Result<
        Option<()>,
        Simple,
    >) {
        if self.at_most != u64::MAX && (*state as u64) >= self.at_most {
            if self.allow_trailing {
                let m = inp.save();
                proof {
                    self.delimiter.lemma_sp_in_bounds(inp.src(), inp.pos());
                }
                match self.delimiter.check_with(inp) {
                    Ok(()) => {},
                    Err(_) => {
                        inp.rewind(m);
                    },
                }
            }
            return Ok(None);
        }
        let step_start = inp.save();
        proof {
            self.delimiter.lemma_sp_in_bounds(inp.src(), inp.pos());
        }
        if *state == 0 {
            if self.allow_leading {
                let m = inp.save();
                match self.delimiter.check_with(inp) {
                    Ok(()) => {},
                    Err(_) => {
                        inp.rewind(m);
                    },
                }
            }
        } else {
            match self.delimiter.check_with(inp) {
                Ok(()) => {},
                Err(_) => {
                    if *state >= self.at_least {
                        inp.rewind(step_start);
                        return Ok(None);
                    }
                    let at = inp.offset();
                    let last_token = inp.current();
                    return Err(
                        Simple::Sequence {
                            span: Span { start: step_start.offset, end: at },
                            label: SeqLabel::NotEnough {
                                expected: self.at_least,
                                found: *state,
                            },
                            last_token,
                        },
                    );
                },
            }
        }
        let after_d = inp.save();
        proof {
            self.parser.lemma_sp_in_bounds(inp.src(), inp.pos());
        }
        match self.parser.check_with(inp) {
            Ok(()) => {
                if inp.offset() > step_start.offset {
                    *state = *state + 1;
                    Ok(Some(()))
                } else {
                    inp.rewind(step_start);
                    Ok(None)
                }
            },
            Err(_) => {
                if *state >= self.at_least {
                    if self.allow_trailing && *state > 0 {
                        inp.rewind(after_d);
                    } else {
                        inp.rewind(step_start);
                    }
                    Ok(None)
                } else {
                    let at = inp.offset();
                    let last_token = inp.current();
                    Err(
                        Simple::Sequence {
                            span: Span { start: step_start.offset, end: at },
                            label: SeqLabel::NotEnough {
                                expected: self.at_least,
                                found: *state,
                            },
                            last_token,
                        },
                    )
                }
            },
        }
    }
}

/// Runs the inner parser in check mode, then produces a copy of exactly the
/// tokens it consumed. The copy is what lets the slice stand as a parser's
/// output; [`with_slice`] and the cursor's own slicing hand out the borrowed,
/// zero-copy view instead.
pub struct Slice<P, O>(pub P, pub core::marker::PhantomData<O>);

/// The tokens consumed by `parser`, as a parser's output.
pub fn slice<O, P>(parser: P) -> (r: Slice<P, O>)
    ensures
        r == Slice(parser, core::marker::PhantomData::<O>),
{
    Slice(parser, core::marker::PhantomData)
}

impl<O: DeepView, P: Parser<O>> Parser<Vec<char>> for Slice<P, O> {
    open spec fn wf(&self) -> bool {
        self.0.wf()
    }

    open spec fn sp(&self, src: Seq<char>, pos: int) -> Step<Seq<char>> {
        match self.0.sp(src, pos) {
            Step::Parsed { next, .. } => Step::Parsed { next, val: src.subrange(pos, next) },
            Step::Failed { at, err } => Step::Failed { at, err },
        }
    }

    proof fn lemma_sp_in_bounds(&self, src: Seq<char>, pos: int) {
        self.0.lemma_sp_in_bounds(src, pos);
    }

    fn go<'p, C, M: Mode>(&self, inp: &mut Input<'p, C>) -> (r: Result<Option<Vec<char>>, Simple>) {
        let before = inp.offset();
        proof {
            self.0.lemma_sp_in_bounds(inp.src(), inp.pos());
        }
        match self.0.go::<C, Check>(inp) {
            Ok(_) => {
                if M::is_emit() {
                    let s = inp.slice_since(before);
                    let v = vstd::slice::slice_to_vec(s);
                    proof {
                        assert(v.deep_view() =~= v@);
                    }
                    Ok(Some(v))
                } else {
                    Ok(None)
                }
            },
            Err(e) => Err(e),
        }
    }
}

/// Runs a parser and hands back the zero-copy view of exactly the tokens it
/// consumed.
pub fn with_slice<'s, C, O: DeepView, P: Parser<O>>(input: &mut Input<'s, C>, parser: &P) -> (r:
    Result<&'s [char], Simple>)
    requires
        parser.wf(),
        old(input).wf(),
    ensures
        final(input).same_parse(old(input)),
        final(input).wf(),
        (match r {
            Ok(s) => parser.sp(old(input).src(), old(input).pos()) matches Step::Parsed { next, .. }
                && next == final(input).pos() && s@ == old(input).src().subrange(
                old(input).pos(),
                next,
            ),
            Err(e) => parser.sp(old(input).src(), old(input).pos()) == (Step::<O::V>::Failed {
                at: final(input).pos(),
                err: e@,
            }),
        }),
{
    let before = input.offset();
    proof {
        parser.lemma_sp_in_bounds(input.src(), input.pos());
    }
    match parser.check_with(input) {
        Ok(()) => Ok(input.slice_since(before)),
        Err(e) => Err(e),
    }
}

/// A parser that accepts one token out of `things` and produces it; any
/// other token, or the end of input, fails with a token-class label.
pub struct OneOf {
    pub things: Vec<char>,
}

/// Accepts any one token contained in `things`.
pub fn one_of(things: Vec<char>) -> (r: OneOf)
    ensures
        r == (OneOf { things }),
{
    OneOf { things }
}

/// A parser that accepts any one token except those in `things`.
pub struct NoneOf {
    pub things: Vec<char>,
}

/// Accepts any one token not contained in `things`.
pub fn none_of(things: Vec<char>) -> (r: NoneOf)
    ensures
        r == (NoneOf { things }),
{
    NoneOf { things }
}

/// Whether `v` holds `c`.
fn vec_contains(v: &Vec<char>, c: char) -> (b: bool)
    ensures
        b == v@.contains(c),
{
    let mut i: usize = 0;
    while i < v.len()
        invariant
            0 <= i <= v@.len(),
            forall|j: int| 0 <= j < i ==> v@[j] != c,
        decreases v@.len() - i,
    {
        if v[i] == c {
            return true;
        }
        i = i + 1;
    }
    false
}

impl Parser<char> for OneOf {
    open spec fn wf(&self) -> bool {
        true
    }

    open spec fn sp(&self, src: Seq<char>, pos: int) -> Step<char> {
        if pos >= src.len() {
            Step::Failed {
                at: pos,
                err: ErrV::Label {
                    span: SpanV { start: pos, end: pos },
                    label: LabelV::OneOf(self.things@),
                    last_token: None,
                },
            }
        } else if self.things@.contains(src[pos]) {
            Step::Parsed { next: pos + 1, val: src[pos] }
        } else {
            Step::Failed {
                at: pos + 1,
                err: ErrV::Label {
                    span: SpanV { start: pos, end: pos + 1 },
                    label: LabelV::OneOf(self.things@),
                    last_token: Some(src[pos]),
                },
            }
        }
    }

    proof fn lemma_sp_in_bounds(&self, src: Seq<char>, pos: int) {
    }

    fn go<'p, C, M: Mode>(&self, inp: &mut Input<'p, C>) -> (r: Result<Option<char>, Simple>) {
        let before = inp.offset();
        match inp.next_or_none() {
            Some(tok) => {
                if vec_contains(&self.things, tok) {
                    if M::is_emit() {
                        Ok(Some(tok))
                    } else {
                        Ok(None)
                    }
                } else {
                    Err(
                        Simple::Sequence {
                            span: inp.span_since(before),
                            label: SeqLabel::OneOf(self.things.clone()),
                            last_token: Some(tok),
                        },
                    )
                }
            },
            None => Err(
                Simple::Sequence {
                    span: inp.span_since(before),
                    label: SeqLabel::OneOf(self.things.clone()),
                    last_token: None,
                },
            ),
        }
    }
}

impl Parser<char> for NoneOf {
    open spec fn wf(&self) -> bool {
        true
    }

    open spec fn sp(&self, src: Seq<char>, pos: int) -> Step<char> {
        if pos >= src.len() {
            Step::Failed {
                at: pos,
                err: ErrV::Label {
                    span: SpanV { start: pos, end: pos },
                    label: LabelV::NoneOf(self.things@),
                    last_token: None,
                },
            }
        } else if !self.things@.contains(src[pos]) {
            Step::Parsed { next: pos + 1, val: src[pos] }
        } else {
            Step::Failed {
                at: pos + 1,
                err: ErrV::Label {
                    span: SpanV { start: pos, end: pos + 1 },
                    label: LabelV::NoneOf(self.things@),
                    last_token: Some(src[pos]),
                },
            }
        }
    }

    proof fn lemma_sp_in_bounds(&self, src: Seq<char>, pos: int) {
    }

    fn go<'p, C, M: Mode>(&self, inp: &mut Input<'p, C>) -> (r: Result<Option<char>, Simple>) {
        let before = inp.offset();
        match inp.next_or_none() {
            Some(tok) => {
                if !vec_contains(&self.things, tok) {
                    if M::is_emit() {
                        Ok(Some(tok))
                    } else {
                        Ok(None)
                    }
                } else {
                    Err(
                        Simple::Sequence {
                            span: inp.span_since(before),
                            label: SeqLabel::NoneOf(self.things.clone()),
                            last_token: Some(tok),
                        },
                    )
                }
            },
            None => Err(
                Simple::Sequence {
                    span: inp.span_since(before),
                    label: SeqLabel::NoneOf(self.things.clone()),
                    last_token: None,
                },
            ),
        }
    }
}

/// Parses the content, preceded by the start delimiter and terminated by the
/// end delimiter, producing only the content's output.
pub struct Delimited<P1, A, P2, O1, O, O2>(
    pub P1,
    pub A,
    pub P2,
    pub core::marker::PhantomData<(O1, O, O2)>,
);

/// The content parser between the two delimiters, their outputs discarded.
pub fn delimited<P1, A, P2, O1, O, O2>(
    start_delimiter: P1,
    content_parser: A,
    end_delimiter: P2,
) -> (r: Delimited<P1, A, P2, O1, O, O2>)
    ensures
        r == (Delimited(
            start_delimiter,
            content_parser,
            end_delimiter,
            core::marker::PhantomData::<(O1, O, O2)>,
        )),
{
    Delimited(start_delimiter, content_parser, end_delimiter, core::marker::PhantomData)
}

impl<
    O1: DeepView,
    O: DeepView,
    O2: DeepView,
    P1: Parser<O1>,
    A: Parser<O>,
    P2: Parser<O2>,
> Parser<O> for Delimited<P1, A, P2, O1, O, O2> {
    open spec fn wf(&self) -> bool {
        self.0.wf() && self.1.wf() && self.2.wf()
    }

    open spec fn sp(&self, src: Seq<char>, pos: int) -> Step<O::V> {
        match self.0.sp(src, pos) {
            Step::Parsed { next, .. } => match self.1.sp(src, next) {
                Step::Parsed { next: next2, val } => match self.2.sp(src, next2) {
                    Step::Parsed { next: next3, .. } => Step::Parsed { next: next3, val },
                    Step::Failed { at, err } => Step::Failed { at, err },
                },
                Step::Failed { at, err } => Step::Failed { at, err },
            },
            Step::Failed { at, err } => Step::Failed { at, err },
        }
    }

    proof fn lemma_sp_in_bounds(&self, src: Seq<char>, pos: int) {
        self.0.lemma_sp_in_bounds(src, pos);
        match self.0.sp(src, pos) {
            Step::Parsed { next, .. } => {
                self.1.lemma_sp_in_bounds(src, next);
                match self.1.sp(src, next) {
                    Step::Parsed { next: next2, .. } => {
                        self.2.lemma_sp_in_bounds(src, next2);
                    },
                    Step::Failed { .. } => {},
                }
            },
            Step::Failed { .. } => {},
        }
    }

    fn go<'p, C, M: Mode>(&self, inp: &mut Input<'p, C>) -> (r: Result<Option<O>, Simple>) {
        match self.0.go::<C, Check>(inp) {
            Ok(_) => match self.1.go::<C, M>(inp) {
                Ok(out) => match self.2.go::<C, Check>(inp) {
                    Ok(_) => Ok(out),
                    Err(e) => Err(e),
                },
                Err(e) => Err(e),
            },
            Err(e) => Err(e),
        }
    }
}

} // verus!
