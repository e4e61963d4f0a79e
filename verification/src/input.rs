//! The cursor over an input source: reading tokens, saving and rewinding
//! positions, and slicing consumed ranges.

use vstd::prelude::*;
use crate::error::{Located, PResult, Simple, Span};

verus! {

/// The token just before position `at`, if any. When nothing has been
/// consumed yet the first token of the source is reported instead.
pub open spec fn current_tok(src: Seq<char>, at: int) -> Option<char> {
    let p = if at == 0 {
        0
    } else {
        at - 1
    };
    if 0 <= p < src.len() {
        Some(src[p])
    } else {
        None
    }
}

/// An immutable snapshot of a cursor's offset, used only for rewinding.
#[derive(Clone, Copy, Debug, PartialEq, Eq, Structural)]
pub struct Marker {
    pub offset: usize,
}

/// The mutable parsing head: the current offset into a borrowed source,
/// together with borrowed caller-supplied context. It is owned exclusively by
/// the in-flight parse call chain and threaded by reference through every
/// nested parser invocation.
#[derive(Debug)]
pub struct Input<'p, C> {
    pub offset: usize,
    pub input: &'p [char],
    pub cx: &'p C,
}

/// The state `i` is left in by rewinding to marker `m`: only the offset moves.
pub open spec fn rewound<'p, C>(i: Input<'p, C>, m: Marker) -> Input<'p, C> {
    Input { offset: m.offset, ..i }
}

/// Rewinding to a marker is idempotent: rewinding any number of times in a
/// row leaves the cursor in the exact state reached by the first rewind.
pub proof fn lemma_rewind_idempotent<'p, C>(i: Input<'p, C>, m: Marker)
    ensures
        rewound(rewound(i, m), m) == rewound(i, m),
{
}

impl<'p> Input<'p, ()> {
    /// Creates a cursor at the start of `input`, with no context.
    pub fn new(input: &'p [char]) -> (r: Input<'p, ()>)
        ensures
            r.offset == 0,
            r.input == input,
            r.wf(),
    {
        Input { offset: 0, input, cx: &() }
    }
}

impl<'p, C> Input<'p, C> {
    /// The source as a sequence of tokens.
    pub open spec fn src(&self) -> Seq<char> {
        self.input@
    }

    /// The current offset, as an integer.
    pub open spec fn pos(&self) -> int {
        self.offset as int
    }

    /// The cursor is well formed: its offset lies within the source.
    pub open spec fn wf(&self) -> bool {
        self.offset <= self.input@.len()
    }

    /// `other` reads the same source and context as `self`.
    pub open spec fn same_parse(&self, other: &Input<'p, C>) -> bool {
        self.input == other.input && self.cx == other.cx
    }

    /// Creates a cursor at the start of `input` with the given context.
    pub fn new_with_context(input: &'p [char], cx: &'p C) -> (r: Input<'p, C>)
        ensures
            r.offset == 0,
            r.input == input,
            r.cx == cx,
            r.wf(),
    {
        Input { offset: 0, input, cx }
    }

    /// Returns the context of the input.
    pub fn context(&self) -> (r: &'p C)
        ensures
            r == self.cx,
    {
        self.cx
    }

    /// Save the current parse state as a [`Marker`], to rewind to later.
    pub fn save(&self) -> (m: Marker)
        ensures
            m.offset == self.offset,
    {
        Marker { offset: self.offset }
    }

    /// Reset the parse state to that represented by the given [`Marker`].
    /// The cursor is left exactly in the state it had when the marker was
    /// saved, regardless of what happened in between.
    pub fn rewind(&mut self, marker: Marker)
        requires
            marker.offset <= old(self).input@.len(),
        ensures
            *final(self) == rewound(*old(self), marker),
            final(self).wf(),
    {
        self.offset = marker.offset;
    }

    /// The current offset.
    pub fn offset(&self) -> (r: usize)
        ensures
            r == self.offset,
    {
        self.offset
    }

    /// Consumes the next token, or returns `None` at the end of the input.
    pub fn next_or_none(&mut self) -> (r: Option<char>)
        requires
            old(self).wf(),
        ensures
            final(self).same_parse(old(self)),
            final(self).wf(),
            match r {
                Some(c) => {
                    &&& old(self).pos() < old(self).src().len()
                    &&& c == old(self).src()[old(self).pos()]
                    &&& final(self).pos() == old(self).pos() + 1
                },
                None => {
                    &&& old(self).pos() == old(self).src().len()
                    &&& final(self).pos() == old(self).pos()
                },
            },
    {
        if self.offset < self.input.len() {
            let c = *vstd::slice::slice_index_get(self.input, self.offset);
            self.offset = self.offset + 1;
            Some(c)
        } else {
            None
        }
    }

    /// Consumes the next token; fails with an end-of-input error if there is
    /// none.
    pub fn next(&mut self) -> (r: PResult<char>)
        requires
            old(self).wf(),
        ensures
            final(self).same_parse(old(self)),
            final(self).wf(),
            match r {
                Ok(c) => {
                    &&& old(self).pos() < old(self).src().len()
                    &&& c == old(self).src()[old(self).pos()]
                    &&& final(self).pos() == old(self).pos() + 1
                },
                Err(e) => {
                    &&& old(self).pos() == old(self).src().len()
                    &&& final(self).pos() == old(self).pos()
                    &&& e == (Simple::UnexpectedEOF {
                        span: Span { start: final(self).offset, end: final(self).offset },
                        expected: None,
                    })
                },
            },
    {
        let before = self.offset;
        match self.next_or_none() {
            Some(c) => Ok(c),
            None => Err(
                Simple::UnexpectedEOF { span: self.span_since(before), expected: None },
            ),
        }
    }

    /// Reads the next token without consuming it; fails with an end-of-input
    /// error if there is none.
    pub fn peek(&self) -> (r: PResult<char>)
        requires
            self.wf(),
        ensures
            match r {
                Ok(c) => self.pos() < self.src().len() && c == self.src()[self.pos()],
                Err(e) => {
                    &&& self.pos() == self.src().len()
                    &&& e == (Simple::UnexpectedEOF {
                        span: Span { start: self.offset, end: self.offset },
                        expected: None,
                    })
                },
            },
    {
        if self.offset < self.input.len() {
            Ok(*vstd::slice::slice_index_get(self.input, self.offset))
        } else {
            Err(
                Simple::UnexpectedEOF {
                    span: Span { start: self.offset, end: self.offset },
                    expected: None,
                },
            )
        }
    }

    /// Consumes and discards the next token; fails at the end of the input.
    pub fn skip(&mut self) -> (r: PResult<()>)
        requires
            old(self).wf(),
        ensures
            final(self).same_parse(old(self)),
            final(self).wf(),
            match r {
                Ok(()) => old(self).pos() < old(self).src().len() && final(self).pos() == old(
                    self,
                ).pos() + 1,
                Err(e) => {
                    &&& old(self).pos() == old(self).src().len()
                    &&& final(self).pos() == old(self).pos()
                    &&& e == (Simple::UnexpectedEOF {
                        span: Span { start: final(self).offset, end: final(self).offset },
                        expected: None,
                    })
                },
            },
    {
        match self.next() {
            Ok(_) => Ok(()),
            Err(e) => Err(e),
        }
    }

    /// The token consumed immediately before the current offset, if any; at
    /// the very start of the input the first token is reported instead.
    pub fn current(&self) -> (r: Option<char>)
        requires
            self.wf(),
        ensures
            r == current_tok(self.src(), self.pos()),
    {
        let p = if self.offset == 0 {
            0
        } else {
            self.offset - 1
        };
        if p < self.input.len() {
            Some(*vstd::slice::slice_index_get(self.input, p))
        } else {
            None
        }
    }

    /// The span from `before` up to the current offset.
    pub fn span_since(&self, before: usize) -> (r: Span)
        ensures
            r.start == before,
            r.end == self.offset,
    {
        Span { start: before, end: self.offset }
    }

    /// The zero-copy view of the tokens in `range`.
    pub fn slice(&self, range: Span) -> (r: &'p [char])
        requires
            range.start <= range.end <= self.src().len(),
        ensures
            r@ == self.src().subrange(range.start as int, range.end as int),
    {
        vstd::slice::slice_subrange(self.input, range.start, range.end)
    }

    /// The zero-copy view of the whole source.
    pub fn full_slice(&self) -> (r: &'p [char])
        ensures
            r@ == self.src(),
    {
        self.input
    }

    /// The zero-copy view of the tokens consumed since `before`.
    pub fn slice_since(&self, before: usize) -> (r: &'p [char])
        requires
            self.wf(),
            before <= self.offset,
        ensures
            r@ == self.src().subrange(before as int, self.pos()),
    {
        let span = self.span_since(before);
        self.slice(span)
    }

    /// A cursor at the same position reading the same source, with `cx` as
    /// its context.
    pub fn with_context<C2>(&self, cx: &'p C2) -> (r: Input<'p, C2>)
        ensures
            r.offset == self.offset,
            r.input == self.input,
            r.cx == cx,
    {
        Input { input: self.input, cx, offset: self.offset }
    }

    /// A cursor at the same position reading the same source, with no
    /// context.
    pub fn no_context(&self) -> (r: Input<'p, ()>)
        ensures
            r.offset == self.offset,
            r.input == self.input,
    {
        Input { input: self.input, cx: &(), offset: self.offset }
    }
}

/// The storage for a primary error and any secondary diagnostics recorded by
/// the opt-in recovery extension.
#[derive(Debug)]
pub struct Errors<T, E> {
    pub alt: Option<Located<T, E>>,
    pub secondary: Vec<Located<T, E>>,
}

impl<T, E> Default for Errors<T, E> {
    fn default() -> (r: Self)
        ensures
            r.alt is None,
            r.secondary@.len() == 0,
    {
        Errors { alt: None, secondary: Vec::new() }
    }
}

/// An owned source together with its context, from which borrowing cursors
/// are created.
pub struct InputOwned<C> {
    pub input: Vec<char>,
    pub cx: C,
    pub errors: Errors<usize, Simple>,
}

impl<C> InputOwned<C> {
    /// Wraps an owned source and a context.
    pub fn from_input_with_context(input: Vec<char>, context: C) -> (r: InputOwned<C>)
        ensures
            r.input == input,
            r.cx == context,
            r.errors.alt is None,
            r.errors.secondary@.len() == 0,
    {
        InputOwned { input, cx: context, errors: Errors { alt: None, secondary: Vec::new() } }
    }

    /// A cursor over this source, positioned at the start.
    pub fn as_ref_at_zero(&mut self) -> (r: Input<'_, C>)
        ensures
            r.offset == 0,
            r.input@ == old(self).input@,
            r.wf(),
            *final(self) == *old(self),
    {
        Input { offset: 0, input: self.input.as_slice(), cx: &self.cx }
    }
}

impl InputOwned<()> {
    /// Wraps an owned source with no context.
    pub fn from_input(input: Vec<char>) -> (r: InputOwned<()>)
        ensures
            r.input == input,
            r.errors.alt is None,
            r.errors.secondary@.len() == 0,
    {
        InputOwned { input, cx: (), errors: Errors { alt: None, secondary: Vec::new() } }
    }
}

} // verus!
