//! Parsers for unicode identifiers, per the default identifier profile of
//! the Unicode identifier annex.

use vstd::prelude::*;
use crate::error::{ErrV, LabelV, Simple, Span, SpanV};
use crate::input::{current_tok, Input};
use crate::parser::{Emit, Mode, Parser, Step};
use crate::text::{is_xid_continue_ex, is_xid_start_ex, xid_continue, xid_start, CharLabel,
    IdentKind, vecs_equal};

verus! {

/// Where a run of identifier-continue characters starting at `pos` ends.
pub open spec fn xid_end(src: Seq<char>, pos: int) -> int
    decreases src.len() - pos,
{
    if 0 <= pos < src.len() && xid_continue(src[pos]) {
        xid_end(src, pos + 1)
    } else {
        pos
    }
}

pub proof fn lemma_xid_end_bounds(src: Seq<char>, pos: int)
    requires
        0 <= pos <= src.len(),
    ensures
        pos <= xid_end(src, pos) <= src.len(),
    decreases src.len() - pos,
{
    if 0 <= pos < src.len() && xid_continue(src[pos]) {
        lemma_xid_end_bounds(src, pos + 1);
    }
}

/// What `ident` does: an identifier-start character followed by any number
/// of identifier-continue characters, the whole run as the value.
pub open spec fn ident_sp(src: Seq<char>, pos: int) -> Step<Seq<char>> {
    if pos >= src.len() {
        Step::Failed {
            at: pos,
            err: ErrV::UnexpectedEof { span: SpanV { start: pos, end: pos }, expected: None },
        }
    } else if !xid_start(src[pos]) {
        Step::Failed {
            at: pos + 1,
            err: ErrV::Label {
                span: SpanV { start: pos, end: pos + 1 },
                label: LabelV::ExpectedIdent(IdentKind::Start),
                last_token: Some(src[pos]),
            },
        }
    } else {
        let stop = xid_end(src, pos + 1);
        Step::Parsed { next: stop, val: src.subrange(pos, stop) }
    }
}

/// A parser that accepts an identifier: an identifier-start character
/// followed by any number of identifier-continue characters.
#[derive(Clone, Copy)]
pub struct Ident;

/// The identifier parser.
pub fn ident() -> (r: Ident)
    ensures
        r == Ident,
{
    Ident
}

impl Parser<Vec<char>> for Ident {
    open spec fn wf(&self) -> bool {
        true
    }

    open spec fn sp(&self, src: Seq<char>, pos: int) -> Step<Seq<char>> {
        ident_sp(src, pos)
    }

    proof fn lemma_sp_in_bounds(&self, src: Seq<char>, pos: int) {
        if 0 <= pos < src.len() {
            lemma_xid_end_bounds(src, pos + 1);
        }
    }

    fn go<'p, C, M: Mode>(&self, inp: &mut Input<'p, C>) -> (r: Result<Option<Vec<char>>, Simple>) {
        let ghost inp0 = *inp;
        let before = inp.offset();
        match inp.next() {
            Err(e) => Err(e),
            Ok(c) => {
                if !is_xid_start_ex(c) {
                    let at = inp.offset();
                    return Err(
                        Simple::Text {
                            span: Span { start: before, end: at },
                            error: CharLabel::ExpectedIdent(IdentKind::Start),
                            last_token: Some(c),
                        },
                    );
                }
                loop
                    invariant_except_break
                        inp0 == *old(inp),
                        inp.wf(),
                        inp.same_parse(&inp0),
                        inp0.pos() < inp.pos() <= inp0.src().len(),
                        xid_end(inp0.src(), inp0.pos() + 1) == xid_end(inp0.src(), inp.pos()),
                    ensures
                        inp.wf(),
                        inp.same_parse(&inp0),
                        inp0.pos() < inp.pos(),
                        inp.pos() == xid_end(inp0.src(), inp0.pos() + 1),
                    decreases inp0.src().len() - inp.pos(),
                {
                    if inp.offset >= inp.input.len() {
                        break;
                    }
                    let d = *vstd::slice::slice_index_get(inp.input, inp.offset);
                    if !is_xid_continue_ex(d) {
                        break;
                    }
                    inp.offset = inp.offset + 1;
                }
                if M::is_emit() {
                    let s = inp.slice_since(before);
                    let v = vstd::slice::slice_to_vec(s);
                    proof {
                        assert(v.deep_view() =~= v@);
                    }
                    Ok(Some(v))
                } else {
                    Ok(None)
                }
            },
        }
    }
}

/// Like [`ident`], but accepts only a specific identifier, rejecting both
/// other identifiers and a longer identifier that merely starts with it.
#[derive(Clone, Debug)]
pub struct Keyword {
    pub keyword: Vec<char>,
}

/// Accepts exactly the identifier `keyword`.
pub fn keyword(kw: Vec<char>) -> (r: Keyword)
    ensures
        r == (Keyword { keyword: kw }),
{
    Keyword { keyword: kw }
}

impl Parser<Vec<char>> for Keyword {
    open spec fn wf(&self) -> bool {
        true
    }

    open spec fn sp(&self, src: Seq<char>, pos: int) -> Step<Seq<char>> {
        match ident_sp(src, pos) {
            Step::Parsed { next, val } => if val == self.keyword@ {
                Step::Parsed { next, val }
            } else {
                Step::Failed {
                    at: next,
                    err: ErrV::Label {
                        span: SpanV { start: pos, end: next },
                        label: LabelV::ExpectedKeyword(self.keyword@),
                        last_token: current_tok(src, next),
                    },
                }
            },
            Step::Failed { at, err } => Step::Failed { at, err },
        }
    }

    proof fn lemma_sp_in_bounds(&self, src: Seq<char>, pos: int) {
        if 0 <= pos < src.len() {
            lemma_xid_end_bounds(src, pos + 1);
        }
    }

    #[verifier::rlimit(30)]
    fn go<'p, C, M: Mode>(&self, inp: &mut Input<'p, C>) -> (r: Result<Option<Vec<char>>, Simple>) {
        let ghost inp0 = *inp;
        let before = inp.offset();
        match Ident.go::<C, Emit>(inp) {
            Ok(Some(v)) => {
                if vecs_equal(&v, &self.keyword) {
                    proof {
                        assert(v.deep_view() =~= v@);
                        assert(self.sp(inp0.src(), inp0.pos()) == (Step::Parsed {
                            next: inp.pos(),
                            val: v.deep_view(),
                        }));
                    }
                    if M::is_emit() {
                        Ok(Some(v))
                    } else {
                        Ok(None)
                    }
                } else {
                    proof {
                        assert(v.deep_view() =~= v@);
                    }
                    let at = inp.offset();
                    let last_token = inp.current();
                    Err(
                        Simple::Text {
                            span: Span { start: before, end: at },
                            error: CharLabel::ExpectedKeyword(self.keyword.clone()),
                            last_token,
                        },
                    )
                }
            },
            Ok(None) => vstd::pervasive::unreached(),
            Err(e) => Err(e),
        }
    }
}

} // verus!
