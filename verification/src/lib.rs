//! A combinator-based parsing engine: composable building blocks for
//! assembling a grammar out of small parsing units and running it against an
//! input while tracking position, producing structured output, and reporting
//! precise errors. Every combinator's behaviour is stated against a
//! mathematical semantics and proved.
//!
//! Tokens are characters and a source is a borrowed character slice: the
//! cursor, the combinator algebra and the repetition protocol are built over
//! that one token model.

pub mod error;
pub mod grammars;
pub mod input;
pub mod iter;
pub mod parser;
pub mod primitive;
pub mod recovery;
pub mod text;

use vstd::prelude::*;

verus! {

/// Abstracts over a borrowed or an owned value, like a copy-on-write
/// reference without the copy.
pub enum MaybeDeref<'a, T> {
    Ref(&'a T),
    Val(T),
}

/// A borrowed-or-owned value.
pub type MaybeRef<'a, T> = MaybeDeref<'a, T>;

impl<'a, T> MaybeDeref<'a, T> {
    /// Borrows the contained value, whichever way it is held.
    pub fn borrow_as_t(&self) -> (r: &T)
        ensures
            (match self {
                MaybeDeref::Ref(v) => r == *v,
                MaybeDeref::Val(v) => r == v,
            }),
    {
        match self {
            MaybeDeref::Ref(r) => r,
            MaybeDeref::Val(v) => v,
        }
    }
}

impl<'a, T: Clone> MaybeDeref<'a, T> {
    /// Turns this into an owned value, cloning if it was borrowed.
    pub fn into_clone(self) -> (r: T)
        ensures
            self matches MaybeDeref::Val(v) ==> r == v,
    {
        match self {
            MaybeDeref::Ref(r) => r.clone(),
            MaybeDeref::Val(v) => v,
        }
    }
}

/// A marker carried by every type; a build of this library with shared
/// parsers across threads would narrow it to the thread-safe ones.
pub trait MaybeSync {

}

impl<T> MaybeSync for T {

}

} // verus!
