use onilang::ast::{Assignment, Ast, Defn, Token};
use onilang::compiler::Compiler;
use onilang::env::Env;
use onilang::error::ErrorKind;
use onilang::intern::Interner;
use onilang::value::Value;
use onilang::{Span, Spanned};

fn sp(a: Ast) -> Spanned<Ast> {
    Spanned { span: Span::new(0, 0), inner: a }
}

fn ident(name: &str) -> Spanned<Ast> {
    sp(Ast::Identifier(name.to_string()))
}

fn defn(name: &str, body: Vec<Spanned<Ast>>) -> Spanned<Ast> {
    sp(Ast::Defn(Box::new(Defn { name: ident(name), args: sp(Ast::Arglist(vec![])), body })))
}

fn assign_with(place: Spanned<Ast>, tok: Token, expr: Spanned<Ast>) -> Spanned<Ast> {
    sp(Ast::Assignment(Box::new(Assignment {
        place,
        assign: Spanned { span: Span::new(0, 0), inner: tok },
        expr,
    })))
}

fn call(callee: Spanned<Ast>, args: Vec<Spanned<Ast>>) -> Spanned<Ast> {
    sp(Ast::Call(Box::new(callee), Box::new(sp(Ast::Paramlist(args)))))
}

/// Declaring the same name twice in one scope fails, whatever the two
/// declarations' mutability flags.
#[test]
fn redeclaration_fails_for_every_flag_pair() {
    for first in [false, true] {
        for second in [false, true] {
            let mut env = Env::new();
            assert!(env.declare(1, first).is_ok());
            let r = env.declare(1, second);
            assert!(r.is_err());
            assert_eq!(r.unwrap_err().kind(), ErrorKind::Eval);
        }
    }
}

/// The same discipline end to end: `x := 1; x := 2` redeclares `x`.
#[test]
fn redeclaration_fails_in_a_program() {
    let ast = sp(Ast::Module(vec![defn(
        "main",
        vec![
            assign_with(ident("x"), Token::DeclAssign, sp(Ast::Uint(1))),
            assign_with(ident("x"), Token::DeclAssign, sp(Ast::Uint(2))),
        ],
    )]));
    let mut vm = Compiler::compile(&ast, Interner::new()).expect("compiles");
    let r = vm.eval(100);
    assert!(r.is_err());
    assert_eq!(r.unwrap_err().kind(), ErrorKind::Eval);
}

/// An immutable binding takes exactly one assignment; a mutable one takes
/// repeated assignments and keeps the last value.
#[test]
fn immutable_once_mutable_many() {
    let mut env = Env::new();
    assert!(env.declare(1, false).is_ok());
    assert!(env.assign(1, Value::Uint(1)).is_ok());
    assert!(env.assign(1, Value::Uint(2)).is_err());
    assert_eq!(env.read(1).unwrap(), Value::Uint(1));

    let mut env = Env::new();
    assert!(env.declare(2, true).is_ok());
    assert!(env.assign(2, Value::Uint(1)).is_ok());
    assert!(env.assign(2, Value::Uint(2)).is_ok());
    assert_eq!(env.read(2).unwrap(), Value::Uint(2));
}

/// `x $= 1; x = 2` fails on the second write.
#[test]
fn immutable_write_twice_fails_in_a_program() {
    let ast = sp(Ast::Module(vec![defn(
        "main",
        vec![
            assign_with(ident("x"), Token::ImmutDeclAssign, sp(Ast::Uint(1))),
            assign_with(ident("x"), Token::Assign, sp(Ast::Uint(2))),
        ],
    )]));
    let mut vm = Compiler::compile(&ast, Interner::new()).expect("compiles");
    let r = vm.eval(100);
    assert!(r.is_err());
    assert_eq!(r.unwrap_err().kind(), ErrorKind::Eval);
}

/// `x := 1; x = 2` succeeds both times and `x` reads back as 2.
#[test]
fn mutable_write_twice_succeeds_in_a_program() {
    let ast = sp(Ast::Module(vec![defn(
        "main",
        vec![
            assign_with(ident("x"), Token::DeclAssign, sp(Ast::Uint(1))),
            assign_with(ident("x"), Token::Assign, sp(Ast::Uint(2))),
            call(ident("print"), vec![ident("x")]),
        ],
    )]));
    let mut vm = Compiler::compile(&ast, Interner::new()).expect("compiles");
    assert_eq!(vm.eval(1_000).unwrap(), true);
    assert_eq!(vm.output, vec!["Uint(2)".to_string()]);
}

/// Reading an undeclared name fails; so does reading a declared name that
/// was never assigned.
#[test]
fn undeclared_and_unassigned_reads_fail() {
    let env = Env::new();
    assert!(env.read(9).is_err());

    let mut env = Env::new();
    assert!(env.declare(9, true).is_ok());
    assert!(env.read(9).is_err());
}

/// Assignment to an undeclared name fails: plain `=` declares nothing.
#[test]
fn plain_assignment_needs_a_declaration() {
    let ast = sp(Ast::Module(vec![defn(
        "main",
        vec![assign_with(ident("x"), Token::Assign, sp(Ast::Uint(1)))],
    )]));
    let mut vm = Compiler::compile(&ast, Interner::new()).expect("compiles");
    assert!(vm.eval(100).is_err());
}

/// Scoping is lexical, per function: a function's locals live in its own
/// call scope, parented to the root, so another function cannot read them.
/// (The entry function runs directly in the root scope, so its bindings
/// are global.)
#[test]
fn scoping_is_lexical_not_dynamic() {
    // g declares y in its own scope; f, called afterwards, cannot see it.
    let ast = sp(Ast::Module(vec![
        defn("g", vec![assign_with(ident("y"), Token::DeclAssign, sp(Ast::Uint(1)))]),
        defn("f", vec![call(ident("print"), vec![ident("y")])]),
        defn("main", vec![call(ident("g"), vec![]), call(ident("f"), vec![])]),
    ]));
    let mut vm = Compiler::compile(&ast, Interner::new()).expect("compiles");
    assert!(vm.eval(1_000).is_err());
}

/// The entry function's bindings land in the root scope, so a function it
/// calls can read them through the chain.
#[test]
fn entry_bindings_are_global() {
    let ast = sp(Ast::Module(vec![
        defn("f", vec![call(ident("print"), vec![ident("y")])]),
        defn(
            "main",
            vec![
                assign_with(ident("y"), Token::DeclAssign, sp(Ast::Uint(4))),
                call(ident("f"), vec![]),
            ],
        ),
    ]));
    let mut vm = Compiler::compile(&ast, Interner::new()).expect("compiles");
    assert_eq!(vm.eval(1_000).unwrap(), true);
    assert_eq!(vm.output, vec!["Uint(4)".to_string()]);
}
