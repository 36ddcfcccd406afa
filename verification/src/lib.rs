//! A small stack-based virtual machine and the compiler that feeds it.
//!
//! The crate takes a parsed syntax tree ([`ast::Ast`]) and turns it into a
//! compact instruction stream (a table of [`compiler::FuncProto`]s plus a
//! shared constant pool), then executes that stream on [`eval::Vm`].
//! Identifiers, field names and string literals are deduplicated into small
//! integer handles by [`intern::Interner`]; every string the machine touches
//! is interned, so values stay cheap to copy and compare.
//!
//! Lexing and parsing are not part of this crate: a front end hands it a
//! syntax tree whose nodes carry source [`Span`]s for diagnostics.
use vstd::prelude::*;

pub mod ast;
pub mod compiler;
pub mod env;
pub mod error;
pub mod eval;
pub mod float;
pub mod intern;
pub mod repr;
pub mod value;

verus! {

/// A half-open range of byte offsets into the source text, carried on
/// syntax-tree nodes for diagnostics.
#[derive(Clone, Copy, PartialEq, Eq, Structural, Debug)]
pub struct Span {
    pub start: usize,
    pub end: usize,
}

impl Span {
    pub fn new(start: usize, end: usize) -> (s: Span)
        ensures
            s.start == start,
            s.end == end,
    {
        Span { start, end }
    }

    /// The span covering two adjacent spans: from the start of the first to
    /// the end of the second.
    pub fn merge(a: &Span, b: &Span) -> (s: Span)
        ensures
            s.start == a.start,
            s.end == b.end,
    {
        Span { start: a.start, end: b.end }
    }
}

/// A syntax-tree payload together with the source span it came from.
#[derive(Clone, Debug)]
pub struct Spanned<T> {
    pub span: Span,
    pub inner: T,
}

} // verus!
