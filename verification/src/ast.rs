//! The syntax tree the compiler consumes.
//!
//! The front end (lexing and parsing) lives outside this crate; it hands the
//! compiler a tree of these nodes, each tagged with the source [`Span`] it
//! came from. The node kinds are fixed: module, function definition,
//! assignment, binary operation, literal, identifier, call, field access,
//! argument list and parameter list. Float literals carry their IEEE 754
//! binary64 bit pattern.
use crate::{Span, Spanned};
use vstd::prelude::*;

verus! {

/// A lexical token. The compiler only inspects the assignment tokens (which
/// pick the declaration discipline of an assignment); the rest exist for the
/// front end to carry through [`Spanned`] positions.
#[derive(Clone, PartialEq, Eq, Debug)]
pub enum Token {
    Identifier(String),
    Number(String),
    Float(String),
    Text(String),
    KwLet,
    KwNew,
    KwDo,
    KwEnd,
    KwDefn,
    KwLoop,
    KwBreak,
    KwIf,
    Plus,
    Minus,
    Star,
    Slash,
    Percent,
    Equals,
    NotEquals,
    Accessor,
    Comma,
    LParen,
    RParen,
    Semicolon,
    /// `$=`: declare an immutable binding and assign it.
    ImmutDeclAssign,
    /// `:=`: declare a mutable binding and assign it.
    DeclAssign,
    /// `=`: assign to an already declared binding.
    Assign,
}

/// A binary operator. The machine implements `+ - * /`; the remaining
/// operators are rejected at compile time.
#[derive(Clone, Copy, PartialEq, Eq, Structural, Debug)]
pub enum Operator {
    Add,
    Sub,
    Mul,
    Div,
    Mod,
    Eq,
    Ne,
}

/// A syntax-tree node.
#[derive(Debug)]
pub enum Ast {
    /// The top level: a sequence of function definitions.
    Module(Vec<Spanned<Ast>>),
    /// A function definition.
    Defn(Box<Defn>),
    /// An assignment, possibly declaring its target.
    Assignment(Box<Assignment>),
    /// A binary operation.
    BinOp(Box<BinOp>),
    /// A string literal.
    Text(String),
    /// An unsigned integer literal.
    Uint(u64),
    /// A signed integer literal.
    Int(i64),
    /// A float literal, as IEEE 754 binary64 bits.
    Float(u64),
    /// A call: the callee expression and its `Paramlist`.
    Call(Box<Spanned<Ast>>, Box<Spanned<Ast>>),
    /// The parameter names of a definition: a sequence of identifiers.
    Arglist(Vec<Spanned<Ast>>),
    /// The argument expressions of a call.
    Paramlist(Vec<Spanned<Ast>>),
    /// A name.
    Identifier(String),
    /// A field access `base.field`.
    Access(Box<Access>),
}

/// A field access: `base.field`, with `field` an identifier.
#[derive(Debug)]
pub struct Access {
    pub base: Spanned<Ast>,
    pub field: Spanned<Ast>,
}

/// An assignment `place <op> expr`, where the operator token decides whether
/// the place is declared (immutably or mutably) before the write.
#[derive(Debug)]
pub struct Assignment {
    pub place: Spanned<Ast>,
    pub assign: Spanned<Token>,
    pub expr: Spanned<Ast>,
}

/// A binary operation `lhs op rhs`.
#[derive(Debug)]
pub struct BinOp {
    pub lhs: Spanned<Ast>,
    pub op: Spanned<Operator>,
    pub rhs: Spanned<Ast>,
}

/// A function definition: name, parameter list and body expressions.
#[derive(Debug)]
pub struct Defn {
    pub name: Spanned<Ast>,
    pub args: Spanned<Ast>,
    pub body: Vec<Spanned<Ast>>,
}

} // verus!
