//! A recursive grammar: the bracketed-loop instruction language, the
//! canonical recursive-descent stress case. Recursion is expressed as
//! recursive verified functions over the cursor, the way a self-referential
//! grammar is written against this library; a serializer and a round-trip
//! law accompany the parser.

use vstd::prelude::*;
use crate::error::{ErrV, Simple, Span, SpanV};
use crate::input::Input;

verus! {

broadcast use vstd::std_specs::vec::group_vec_axioms;

/// One instruction: six single-character instructions, and a loop holding a
/// nested program between brackets.
#[derive(Debug, PartialEq, Eq)]
pub enum Instruction {
    Left,
    Right,
    Increment,
    Decrement,
    Read,
    Write,
    Loop(Vec<Instruction>),
}

/// The mathematical image of an instruction.
pub enum InsnV {
    Left,
    Right,
    Increment,
    Decrement,
    Read,
    Write,
    Loop(Seq<InsnV>),
}

/// The mathematical image of an [`Instruction`].
pub open spec fn insn_view(i: Instruction) -> InsnV
    decreases i,
{
    match i {
        Instruction::Left => InsnV::Left,
        Instruction::Right => InsnV::Right,
        Instruction::Increment => InsnV::Increment,
        Instruction::Decrement => InsnV::Decrement,
        Instruction::Read => InsnV::Read,
        Instruction::Write => InsnV::Write,
        Instruction::Loop(body) => InsnV::Loop(prog_view(body@)),
    }
}

/// The mathematical image of a program.
pub open spec fn prog_view(p: Seq<Instruction>) -> Seq<InsnV>
    decreases p,
{
    if p.len() == 0 {
        Seq::empty()
    } else {
        seq![insn_view(p[0])] + prog_view(p.skip(1))
    }
}

/// The textual form of an instruction.
pub open spec fn insn_text(i: InsnV) -> Seq<char>
    decreases i,
{
    match i {
        InsnV::Left => seq!['<'],
        InsnV::Right => seq!['>'],
        InsnV::Increment => seq!['+'],
        InsnV::Decrement => seq!['-'],
        InsnV::Read => seq![','],
        InsnV::Write => seq!['.'],
        InsnV::Loop(body) => seq!['['] + prog_text(body) + seq![']'],
    }
}

/// The textual form of a program.
pub open spec fn prog_text(p: Seq<InsnV>) -> Seq<char>
    decreases p,
{
    if p.len() == 0 {
        Seq::empty()
    } else {
        insn_text(p[0]) + prog_text(p.skip(1))
    }
}

/// Whether `c` begins an instruction.
pub open spec fn insn_char(c: char) -> bool {
    c == '<' || c == '>' || c == '+' || c == '-' || c == ',' || c == '.' || c == '['
}

/// The outcome of parsing one instruction at a position: an instruction and
/// the position after it, the end of the program (a character no
/// instruction starts with, or the end of the input), or a hard failure.
pub enum InsnStep {
    Got { next: int, insn: InsnV },
    Stop,
    Fail { at: int, err: ErrV },
}

/// The outcome of parsing a program at a position: the instructions up to
/// the first stopper, or the first hard failure.
pub enum ProgStep {
    Done { next: int, prog: Seq<InsnV> },
    Fail { at: int, err: ErrV },
}

/// What parsing one instruction at `pos` does. A loop is a bracket, a
/// nested program, and a closing bracket; a missing closing bracket is a
/// hard failure at the point where it was expected.
pub open spec fn sp_insn(src: Seq<char>, pos: int) -> InsnStep
    decreases src.len() - pos, 0int,
{
    if pos < 0 || pos >= src.len() {
        InsnStep::Stop
    } else {
        let c = src[pos];
        if c == '<' {
            InsnStep::Got { next: pos + 1, insn: InsnV::Left }
        } else if c == '>' {
            InsnStep::Got { next: pos + 1, insn: InsnV::Right }
        } else if c == '+' {
            InsnStep::Got { next: pos + 1, insn: InsnV::Increment }
        } else if c == '-' {
            InsnStep::Got { next: pos + 1, insn: InsnV::Decrement }
        } else if c == ',' {
            InsnStep::Got { next: pos + 1, insn: InsnV::Read }
        } else if c == '.' {
            InsnStep::Got { next: pos + 1, insn: InsnV::Write }
        } else if c == '[' {
            match sp_prog(src, pos + 1) {
                ProgStep::Done { next, prog } => if next < src.len() && src[next] == ']' {
                    InsnStep::Got { next: next + 1, insn: InsnV::Loop(prog) }
                } else if next >= src.len() {
                    InsnStep::Fail {
                        at: next,
                        err: ErrV::UnexpectedEof {
                            span: SpanV { start: next, end: next },
                            expected: Some(seq![']']),
                        },
                    }
                } else {
                    InsnStep::Fail {
                        at: next + 1,
                        err: ErrV::ExpectedTokenFound {
                            span: SpanV { start: next, end: next + 1 },
                            expected: seq![']'],
                            found: src[next],
                        },
                    }
                },
                ProgStep::Fail { at, err } => InsnStep::Fail { at, err },
            }
        } else {
            InsnStep::Stop
        }
    }
}

/// What parsing a program at `pos` does: instructions in sequence until a
/// stopper; any hard failure surfaces.
pub open spec fn sp_prog(src: Seq<char>, pos: int) -> ProgStep
    decreases src.len() - pos, 1int,
{
    match sp_insn(src, pos) {
        InsnStep::Stop => ProgStep::Done { next: pos, prog: Seq::empty() },
        InsnStep::Fail { at, err } => ProgStep::Fail { at, err },
        InsnStep::Got { next, insn } => if pos < next <= src.len() {
            match sp_prog(src, next) {
                ProgStep::Done { next: end, prog } => (ProgStep::Done {
                    next: end,
                    prog: seq![insn] + prog,
                }),
                ProgStep::Fail { at, err } => ProgStep::Fail { at, err },
            }
        } else {
            ProgStep::Done { next: pos, prog: Seq::empty() }
        },
    }
}

pub proof fn lemma_sp_insn_bounds(src: Seq<char>, pos: int)
    requires
        0 <= pos <= src.len(),
    ensures
        sp_insn(src, pos) matches InsnStep::Got { next, .. } ==> pos < next <= src.len(),
        sp_insn(src, pos) matches InsnStep::Fail { at, .. } ==> pos <= at <= src.len(),
    decreases src.len() - pos, 0int,
{
    if 0 <= pos < src.len() && src[pos] == '[' {
        lemma_sp_prog_bounds(src, pos + 1);
    }
}

pub proof fn lemma_sp_prog_bounds(src: Seq<char>, pos: int)
    requires
        0 <= pos <= src.len(),
    ensures
        sp_prog(src, pos) matches ProgStep::Done { next, .. } ==> pos <= next <= src.len(),
        sp_prog(src, pos) matches ProgStep::Fail { at, .. } ==> pos <= at <= src.len(),
    decreases src.len() - pos, 1int,
{
    lemma_sp_insn_bounds(src, pos);
    match sp_insn(src, pos) {
        InsnStep::Got { next, .. } => {
            if pos < next <= src.len() {
                lemma_sp_prog_bounds(src, next);
            }
        },
        InsnStep::Stop => {},
        InsnStep::Fail { .. } => {},
    }
}

/// A program step with `vs` prepended to what it parses.
pub open spec fn prepend_prog(vs: Seq<InsnV>, s: ProgStep) -> ProgStep {
    match s {
        ProgStep::Done { next, prog } => ProgStep::Done { next, prog: vs + prog },
        ProgStep::Fail { at, err } => ProgStep::Fail { at, err },
    }
}

pub proof fn lemma_prepend_prog_empty(s: ProgStep)
    ensures
        prepend_prog(Seq::empty(), s) == s,
{
    match s {
        ProgStep::Done { next, prog } => {
            assert(Seq::<InsnV>::empty() + prog =~= prog);
        },
        ProgStep::Fail { .. } => {},
    }
}

pub proof fn lemma_prepend_prog_assoc(vs: Seq<InsnV>, v: InsnV, s: ProgStep)
    ensures
        prepend_prog(vs, prepend_prog(seq![v], s)) == prepend_prog(vs + seq![v], s),
{
    match s {
        ProgStep::Done { next, prog } => {
            assert(vs + (seq![v] + prog) =~= (vs + seq![v]) + prog);
        },
        ProgStep::Fail { .. } => {},
    }
}

/// Appending one instruction to a program appends its image.
pub proof fn lemma_prog_view_push(s: Seq<Instruction>, x: Instruction)
    ensures
        prog_view(s.push(x)) == prog_view(s) + seq![insn_view(x)],
    decreases s,
{
    if s.len() == 0 {
        assert(s.push(x).skip(1) =~= Seq::<Instruction>::empty());
        assert(s.push(x)[0] == x);
        assert(prog_view(Seq::<Instruction>::empty()) =~= Seq::<InsnV>::empty());
        assert(prog_view(s.push(x)) =~= seq![insn_view(x)]);
        assert(prog_view(s) + seq![insn_view(x)] =~= seq![insn_view(x)]);
    } else {
        assert(s.push(x).skip(1) =~= s.skip(1).push(x));
        lemma_prog_view_push(s.skip(1), x);
        assert(seq![insn_view(s[0])] + (prog_view(s.skip(1)) + seq![insn_view(x)]) =~= (seq![
            insn_view(s[0]),
        ] + prog_view(s.skip(1))) + seq![insn_view(x)]);
    }
}

/// Parses a program: instructions in sequence until a character no
/// instruction starts with (or the end of the input); a malformed loop is a
/// hard failure. This is the recursive heart of the grammar: the loop body
/// is parsed by a recursive call.
pub fn parse_program<'p, C>(inp: &mut Input<'p, C>) -> (r: Result<Vec<Instruction>, Simple>)
    requires
        old(inp).wf(),
    ensures
        final(inp).same_parse(old(inp)),
        final(inp).wf(),
        (match r {
            Ok(p) => sp_prog(old(inp).src(), old(inp).pos()) == (ProgStep::Done {
                next: final(inp).pos(),
                prog: prog_view(p@),
            }),
            Err(e) => sp_prog(old(inp).src(), old(inp).pos()) == (ProgStep::Fail {
                at: final(inp).pos(),
                err: e@,
            }),
        }),
    decreases old(inp).src().len() - old(inp).pos(),
{
    let ghost inp0 = *inp;
    let mut prog: Vec<Instruction> = Vec::new();
    proof {
        lemma_prepend_prog_empty(sp_prog(inp0.src(), inp0.pos()));
    }
    loop
        invariant
            inp0 == *old(inp),
            inp.wf(),
            inp.same_parse(&inp0),
            inp0.pos() <= inp.pos() <= inp0.src().len(),
            sp_prog(inp0.src(), inp0.pos()) == prepend_prog(
                prog_view(prog@),
                sp_prog(inp0.src(), inp.pos()),
            ),
        decreases inp0.src().len() - inp.pos(),
    {
        let ghost cur = inp.pos();
        if inp.offset >= inp.input.len() {
            proof {
                assert(sp_prog(inp0.src(), cur) == (ProgStep::Done {
                    next: cur,
                    prog: Seq::<InsnV>::empty(),
                }));
                assert(prog_view(prog@) + Seq::<InsnV>::empty() =~= prog_view(prog@));
            }
            return Ok(prog);
        }
        let c = *vstd::slice::slice_index_get(inp.input, inp.offset);
        if c == '<' || c == '>' || c == '+' || c == '-' || c == ',' || c == '.' {
            inp.offset = inp.offset + 1;
            let insn = if c == '<' {
                Instruction::Left
            } else if c == '>' {
                Instruction::Right
            } else if c == '+' {
                Instruction::Increment
            } else if c == '-' {
                Instruction::Decrement
            } else if c == ',' {
                Instruction::Read
            } else {
                Instruction::Write
            };
            proof {
                assert(sp_insn(inp0.src(), cur) == (InsnStep::Got {
                    next: inp.pos(),
                    insn: insn_view(insn),
                }));
                assert(sp_prog(inp0.src(), cur) == prepend_prog(
                    seq![insn_view(insn)],
                    sp_prog(inp0.src(), inp.pos()),
                ));
                lemma_prog_view_push(prog@, insn);
                lemma_prepend_prog_assoc(
                    prog_view(prog@),
                    insn_view(insn),
                    sp_prog(inp0.src(), inp.pos()),
                );
            }
            prog.push(insn);
        } else if c == '[' {
            inp.offset = inp.offset + 1;
            let ghost body_start = inp.pos();
            match parse_program(inp) {
                Err(e) => {
                    proof {
                        assert(sp_prog(inp0.src(), cur) == (ProgStep::Fail {
                            at: inp.pos(),
                            err: e@,
                        }));
                    }
                    return Err(e);
                },
                Ok(body) => {
                    proof {
                        lemma_sp_prog_bounds(inp0.src(), body_start);
                    }
                    if inp.offset < inp.input.len() && *vstd::slice::slice_index_get(
                        inp.input,
                        inp.offset,
                    ) == ']' {
                        inp.offset = inp.offset + 1;
                        let ghost gbody = body@;
                        let insn = Instruction::Loop(body);
                        proof {
                            assert(insn is Loop && insn->Loop_0@ == gbody);
                            assert(insn_view(insn) == InsnV::Loop(prog_view(gbody)));
                            assert(cur < inp.pos() <= inp0.src().len());
                            assert(sp_insn(inp0.src(), cur) == (InsnStep::Got {
                                next: inp.pos(),
                                insn: insn_view(insn),
                            }));
                            match sp_prog(inp0.src(), inp.pos()) {
                                ProgStep::Done { next: e2, prog: p2 } => {
                                    assert(sp_prog(inp0.src(), cur) == (ProgStep::Done {
                                        next: e2,
                                        prog: seq![insn_view(insn)] + p2,
                                    }));
                                },
                                ProgStep::Fail { at, err } => {
                                    assert(sp_prog(inp0.src(), cur) == (ProgStep::Fail {
                                        at,
                                        err,
                                    }));
                                },
                            }
                            assert(sp_prog(inp0.src(), cur) == prepend_prog(
                                seq![insn_view(insn)],
                                sp_prog(inp0.src(), inp.pos()),
                            ));
                            lemma_prog_view_push(prog@, insn);
                            lemma_prepend_prog_assoc(
                                prog_view(prog@),
                                insn_view(insn),
                                sp_prog(inp0.src(), inp.pos()),
                            );
                        }
                        prog.push(insn);
                    } else if inp.offset >= inp.input.len() {
                        let ev = vec![']'];
                        proof {
                            assert(ev@ =~= seq![']']);
                            assert(sp_insn(inp0.src(), cur) == (InsnStep::Fail {
                                at: inp.pos(),
                                err: ErrV::UnexpectedEof {
                                    span: SpanV { start: inp.pos(), end: inp.pos() },
                                    expected: Some(seq![']']),
                                },
                            }));
                        }
                        return Err(
                            Simple::UnexpectedEOF {
                                span: Span { start: inp.offset, end: inp.offset },
                                expected: Some(ev),
                            },
                        );
                    } else {
                        let found = *vstd::slice::slice_index_get(inp.input, inp.offset);
                        let start = inp.offset;
                        inp.offset = inp.offset + 1;
                        let ev = vec![']'];
                        proof {
                            assert(ev@ =~= seq![']']);
                            assert(sp_insn(inp0.src(), cur) == (InsnStep::Fail {
                                at: inp.pos(),
                                err: ErrV::ExpectedTokenFound {
                                    span: SpanV { start: start as int, end: inp.pos() },
                                    expected: seq![']'],
                                    found,
                                },
                            }));
                        }
                        return Err(
                            Simple::ExpectedTokenFound {
                                span: Span { start, end: inp.offset },
                                expected: ev,
                                found,
                            },
                        );
                    }
                },
            }
        } else {
            proof {
                assert(sp_insn(inp0.src(), cur) == InsnStep::Stop);
                assert(sp_prog(inp0.src(), cur) == (ProgStep::Done {
                    next: cur,
                    prog: Seq::<InsnV>::empty(),
                }));
                assert(prog_view(prog@) + Seq::<InsnV>::empty() =~= prog_view(prog@));
            }
            return Ok(prog);
        }
    }
}

/// Parses a whole source as a program: the program grammar, then the end of
/// the input. Any parsed program's textual form is exactly the input, so
/// re-serializing it reproduces the input.
pub fn bf_file(input: &[char]) -> (r: Result<Vec<Instruction>, Simple>)
    ensures
        (match r {
            Ok(p) => sp_prog(input@, 0) == (ProgStep::Done {
                next: input@.len() as int,
                prog: prog_view(p@),
            }) && prog_text(prog_view(p@)) == input@,
            Err(e) => {
                ||| sp_prog(input@, 0) matches ProgStep::Fail { err, .. } && err == e@
                ||| sp_prog(input@, 0) matches ProgStep::Done { next, .. } && next < input@.len()
                    && e@ == (ErrV::ExpectedEofFound {
                    span: SpanV { start: next, end: next + 1 },
                    found: input@[next],
                })
            },
        }),
{
    let mut inp = Input::new(input);
    match parse_program(&mut inp) {
        Err(e) => Err(e),
        Ok(p) => {
            if inp.offset < inp.input.len() {
                let found = *vstd::slice::slice_index_get(inp.input, inp.offset);
                let start = inp.offset;
                Err(
                    Simple::ExpectedEOF { found, span: Span { start, end: start + 1 } },
                )
            } else {
                proof {
                    lemma_sp_prog_sound(input@, 0);
                    assert(input@.subrange(0, input@.len() as int) =~= input@);
                }
                Ok(p)
            }
        },
    }
}

/// Parsing is sound: whatever a program parse consumes is exactly the
/// textual form of what it produced.
pub proof fn lemma_sp_insn_sound(src: Seq<char>, pos: int)
    requires
        0 <= pos <= src.len(),
    ensures
        sp_insn(src, pos) matches InsnStep::Got { next, insn } ==> insn_text(insn)
            == src.subrange(pos, next),
    decreases src.len() - pos, 0int,
{
    lemma_sp_insn_bounds(src, pos);
    if 0 <= pos < src.len() {
        let c = src[pos];
        if c == '[' {
            lemma_sp_prog_bounds(src, pos + 1);
            lemma_sp_prog_sound(src, pos + 1);
            match sp_prog(src, pos + 1) {
                ProgStep::Done { next, prog } => {
                    if next < src.len() && src[next] == ']' {
                        assert(seq!['['] + prog_text(prog) + seq![']'] =~= src.subrange(
                            pos,
                            next + 1,
                        ));
                    }
                },
                ProgStep::Fail { .. } => {},
            }
        } else {
            match sp_insn(src, pos) {
                InsnStep::Got { next, insn } => {
                    assert(insn_text(insn) =~= src.subrange(pos, next));
                },
                _ => {},
            }
        }
    }
}

pub proof fn lemma_sp_prog_sound(src: Seq<char>, pos: int)
    requires
        0 <= pos <= src.len(),
    ensures
        sp_prog(src, pos) matches ProgStep::Done { next, prog } ==> prog_text(prog)
            == src.subrange(pos, next),
    decreases src.len() - pos, 1int,
{
    lemma_sp_insn_bounds(src, pos);
    lemma_sp_insn_sound(src, pos);
    match sp_insn(src, pos) {
        InsnStep::Got { next, insn } => {
            if pos < next <= src.len() {
                lemma_sp_prog_bounds(src, next);
                lemma_sp_prog_sound(src, next);
                match sp_prog(src, next) {
                    ProgStep::Done { next: end, prog } => {
                        assert(prog_text(seq![insn] + prog) == insn_text((seq![insn] + prog)[0])
                            + prog_text((seq![insn] + prog).skip(1)));
                        assert((seq![insn] + prog)[0] == insn);
                        assert((seq![insn] + prog).skip(1) =~= prog);
                        assert(insn_text(insn) + prog_text(prog) =~= src.subrange(pos, end));
                    },
                    ProgStep::Fail { .. } => {},
                }
            }
        },
        InsnStep::Stop => {
            assert(prog_text(Seq::empty()) =~= src.subrange(pos, pos));
        },
        InsnStep::Fail { .. } => {},
    }
}

/// Every instruction's text is nonempty.
pub proof fn lemma_insn_text_nonempty(i: InsnV)
    ensures
        insn_text(i).len() >= 1,
{
}

/// Parsing is complete on serialized programs: one instruction's text,
/// standing at `pos` in any source, parses back to exactly that
/// instruction.
pub proof fn lemma_insn_complete(i: InsnV, src: Seq<char>, pos: int)
    requires
        0 <= pos,
        pos + insn_text(i).len() <= src.len(),
        src.subrange(pos, pos + insn_text(i).len()) == insn_text(i),
    ensures
        sp_insn(src, pos) == (InsnStep::Got { next: pos + insn_text(i).len(), insn: i }),
    decreases i,
{
    assert(src[pos] == src.subrange(pos, pos + insn_text(i).len())[0]);
    match i {
        InsnV::Loop(body) => {
            let n = insn_text(i).len();
            let bt = prog_text(body);
            assert(insn_text(i) == seq!['['] + bt + seq![']']);
            assert(src[pos] == '[');
            assert(src.subrange(pos + 1, pos + 1 + bt.len()) =~= bt) by {
                assert forall|k: int| 0 <= k < bt.len() implies src.subrange(
                    pos + 1,
                    pos + 1 + bt.len(),
                )[k] == bt[k] by {
                    assert(src.subrange(pos, pos + n)[k + 1] == (seq!['['] + bt + seq![']'])[k
                        + 1]);
                }
            }
            assert(src[pos + 1 + bt.len()] == ']') by {
                assert(src.subrange(pos, pos + n)[n - 1] == (seq!['['] + bt + seq![']'])[n - 1]);
            }
            lemma_prog_complete(body, src, pos + 1);
        },
        _ => {
            assert(sp_insn(src, pos) == (InsnStep::Got {
                next: pos + insn_text(i).len(),
                insn: i,
            }));
        },
    }
}

/// Parsing is complete on serialized programs: a program's text, followed by
/// anything no instruction starts with, parses back to exactly that
/// program.
pub proof fn lemma_prog_complete(p: Seq<InsnV>, src: Seq<char>, pos: int)
    requires
        0 <= pos,
        pos + prog_text(p).len() <= src.len(),
        src.subrange(pos, pos + prog_text(p).len()) == prog_text(p),
        pos + prog_text(p).len() == src.len() || !insn_char(
            src[pos + prog_text(p).len()],
        ),
    ensures
        sp_prog(src, pos) == (ProgStep::Done { next: pos + prog_text(p).len(), prog: p }),
    decreases p,
{
    if p.len() == 0 {
        assert(prog_text(p) =~= Seq::<char>::empty());
        if pos < src.len() {
            assert(!insn_char(src[pos]));
            assert(sp_insn(src, pos) == InsnStep::Stop);
        } else {
            assert(sp_insn(src, pos) == InsnStep::Stop);
        }
        assert(p =~= Seq::<InsnV>::empty());
    } else {
        let head = p[0];
        let ht = insn_text(head);
        let pt = prog_text(p);
        let rt = prog_text(p.skip(1));
        assert(pt == ht + rt);
        assert(src.subrange(pos, pos + ht.len()) =~= ht) by {
            assert forall|k: int| 0 <= k < ht.len() implies src.subrange(pos, pos + ht.len())[k]
                == ht[k] by {
                assert(src.subrange(pos, pos + pt.len())[k] == pt[k]);
            }
        }
        lemma_insn_complete(head, src, pos);
        lemma_insn_text_nonempty(head);
        let next = pos + ht.len();
        assert(src.subrange(next, next + rt.len()) =~= rt) by {
            assert forall|k: int| 0 <= k < rt.len() implies src.subrange(next, next + rt.len())[k]
                == rt[k] by {
                assert(src.subrange(pos, pos + pt.len())[ht.len() + k] == pt[ht.len() + k]);
            }
        }
        lemma_prog_complete(p.skip(1), src, next);
        assert(pt.len() == ht.len() + rt.len());
        assert(seq![head] + p.skip(1) =~= p);
    }
}

/// The round trip: the textual form of any program parses back to exactly
/// that program, consuming it whole. Together with the soundness stated by
/// [`bf_file`] — a parsed program re-serializes to exactly the input — this
/// is structural idempotence: parse, serialize, and parse again, and the
/// same structure comes back.
pub proof fn lemma_round_trip(p: Seq<InsnV>)
    ensures
        sp_prog(prog_text(p), 0) == (ProgStep::Done {
            next: prog_text(p).len() as int,
            prog: p,
        }),
{
    assert(prog_text(p).subrange(0, prog_text(p).len() as int) =~= prog_text(p));
    lemma_prog_complete(p, prog_text(p), 0);
}

/// Appending programs appends their texts.
pub proof fn lemma_prog_text_push(s: Seq<InsnV>, x: InsnV)
    ensures
        prog_text(s.push(x)) == prog_text(s) + insn_text(x),
    decreases s,
{
    if s.len() == 0 {
        assert(s.push(x).skip(1) =~= Seq::<InsnV>::empty());
        assert(s.push(x)[0] == x);
        assert(prog_text(Seq::<InsnV>::empty()) =~= Seq::<char>::empty());
        assert(prog_text(s.push(x)) =~= insn_text(x));
        assert(prog_text(s) + insn_text(x) =~= insn_text(x));
    } else {
        assert(s.push(x).skip(1) =~= s.skip(1).push(x));
        lemma_prog_text_push(s.skip(1), x);
        assert(insn_text(s[0]) + (prog_text(s.skip(1)) + insn_text(x)) =~= (insn_text(s[0])
            + prog_text(s.skip(1))) + insn_text(x));
    }
}

/// Serializes one instruction onto the end of `out`.
pub fn serialize_insn(i: &Instruction, out: &mut Vec<char>)
    ensures
        final(out)@ == old(out)@ + insn_text(insn_view(*i)),
    decreases *i,
{
    match *i {
        Instruction::Left => {
            out.push('<');
            proof {
                assert(out@ =~= old(out)@ + insn_text(insn_view(*i)));
            }
        },
        Instruction::Right => {
            out.push('>');
            proof {
                assert(out@ =~= old(out)@ + insn_text(insn_view(*i)));
            }
        },
        Instruction::Increment => {
            out.push('+');
            proof {
                assert(out@ =~= old(out)@ + insn_text(insn_view(*i)));
            }
        },
        Instruction::Decrement => {
            out.push('-');
            proof {
                assert(out@ =~= old(out)@ + insn_text(insn_view(*i)));
            }
        },
        Instruction::Read => {
            out.push(',');
            proof {
                assert(out@ =~= old(out)@ + insn_text(insn_view(*i)));
            }
        },
        Instruction::Write => {
            out.push('.');
            proof {
                assert(out@ =~= old(out)@ + insn_text(insn_view(*i)));
            }
        },
        Instruction::Loop(ref body) => {
            out.push('[');
            let ghost mid0 = out@;
            let mut j: usize = 0;
            proof {
                assert(prog_view(body@.subrange(0, 0)) =~= Seq::<InsnV>::empty());
                assert(prog_text(Seq::<InsnV>::empty()) =~= Seq::<char>::empty());
                assert(out@ =~= mid0 + prog_text(prog_view(body@.subrange(0, 0))));
            }
            while j < body.len()
                invariant
                    *i is Loop,
                    (*i)->Loop_0 == *body,
                    0 <= j <= body@.len(),
                    out@ == mid0 + prog_text(prog_view(body@.subrange(0, j as int))),
                    mid0 == old(out)@ + seq!['['],
                decreases body@.len() - j,
            {
                proof {
                    assert(*i is Loop);
                    assert((*i)->Loop_0 == *body);
                    assert(decreases_to!(*i => (*i)->Loop_0));
                    assert(decreases_to!(*body => body@));
                    assert(decreases_to!(body@ => body@[j as int]));
                }
                serialize_insn(&body[j], out);
                proof {
                    assert(body@.subrange(0, j as int + 1) =~= body@.subrange(0, j as int).push(
                        body@[j as int],
                    ));
                    lemma_prog_view_push(body@.subrange(0, j as int), body@[j as int]);
                    assert(prog_view(body@.subrange(0, j as int)) + seq![
                        insn_view(body@[j as int]),
                    ] =~= prog_view(body@.subrange(0, j as int)).push(insn_view(body@[j as int])));
                    lemma_prog_text_push(
                        prog_view(body@.subrange(0, j as int)),
                        insn_view(body@[j as int]),
                    );
                    assert(out@ =~= mid0 + prog_text(prog_view(body@.subrange(0, j as int + 1))));
                }
                j = j + 1;
            }
            out.push(']');
            proof {
                assert(body@.subrange(0, body@.len() as int) =~= body@);
                assert(out@ =~= old(out)@ + (seq!['['] + prog_text(prog_view(body@)) + seq![
                    ']',
                ]));
            }
        },
    }
}

/// Serializes a program: the concatenation of its instructions' texts.
pub fn serialize_program(p: &Vec<Instruction>) -> (r: Vec<char>)
    ensures
        r@ == prog_text(prog_view(p@)),
{
    let mut out: Vec<char> = Vec::new();
    let mut j: usize = 0;
    proof {
        assert(prog_view(p@.subrange(0, 0)) =~= Seq::<InsnV>::empty());
        assert(out@ =~= prog_text(prog_view(p@.subrange(0, 0))));
    }
    while j < p.len()
        invariant
            0 <= j <= p@.len(),
            out@ == prog_text(prog_view(p@.subrange(0, j as int))),
        decreases p@.len() - j,
    {
        serialize_insn(&p[j], &mut out);
        proof {
            assert(p@.subrange(0, j as int + 1) =~= p@.subrange(0, j as int).push(p@[j as int]));
            lemma_prog_view_push(p@.subrange(0, j as int), p@[j as int]);
            assert(prog_view(p@.subrange(0, j as int)) + seq![insn_view(p@[j as int])]
                =~= prog_view(p@.subrange(0, j as int)).push(insn_view(p@[j as int])));
            lemma_prog_text_push(
                prog_view(p@.subrange(0, j as int)),
                insn_view(p@[j as int]),
            );
            assert(out@ =~= prog_text(prog_view(p@.subrange(0, j as int + 1))));
        }
        j = j + 1;
    }
    proof {
        assert(p@.subrange(0, p@.len() as int) =~= p@);
    }
    out
}

} // verus!
